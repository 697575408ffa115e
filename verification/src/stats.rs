//! Descriptive statistics and Welch-test significance per group.
//!
//! Every decision — which sorted element a percentile or median selects,
//! when a result degenerates, when a t-test is owed a verdict, what the
//! significance flag means — is verified here over value bit patterns.  The
//! floating-point arithmetic itself (sums, quotients, square roots, the
//! Student's-t distribution function) cannot be carried out in verified
//! code; its results enter through `SummaryNumerics` and the t-test inputs,
//! and the contracts say exactly how each output field is built from them.

use crate::strorder::{lex_le, lex_lt, lex_sorted, sort_strings, str_eq, views_of};
use crate::table::{lemma_values_of_group_len, values_of_group, SampleTable};
use crate::fbits::{
    float_is_nan, float_is_strictly_pos, float_is_zero, float_le, float_sorted, is_nan_bits,
    is_strictly_pos_bits, is_zero_bits, le_bits, NAN_BITS, ONE_BITS, SIG_THRESHOLD_BITS, ZERO_BITS,
};
use vstd::prelude::*;

verus! {

/// Statistics of one group's sample.  Numeric fields hold double bit
/// patterns.
pub struct GroupStats {
    pub group_name: String,
    pub count: usize,
    pub mean: u64,
    pub median: u64,
    pub std: u64,
    pub variance: u64,
    pub p95: u64,
    pub p05: u64,
    pub std_diff_from_control: Option<u64>,
    pub p_value: Option<u64>,
    pub is_significant: bool,
}

impl GroupStats {
    /// A group may be flagged significant only with a recorded p-value at or
    /// under the threshold.
    pub open spec fn wf(self) -> bool {
        self.is_significant ==> {
            &&& self.p_value is Some
            &&& le_bits(self.p_value->0, SIG_THRESHOLD_BITS)
        }
    }

    /// The same statistics under a group name.
    pub fn with_name(self, name: String) -> (r: GroupStats)
        ensures
            r == (GroupStats { group_name: name, ..self }),
    {
        GroupStats { group_name: name, ..self }
    }
}

impl Default for GroupStats {
    /// The record of an empty sample: no observations, every numeric field
    /// a NaN, no comparison against the control.
    fn default() -> (r: GroupStats)
        ensures
            r.group_name@ == Seq::<char>::empty(),
            r.count == 0,
            r.mean == NAN_BITS,
            r.median == NAN_BITS,
            r.std == NAN_BITS,
            r.variance == NAN_BITS,
            r.p95 == NAN_BITS,
            r.p05 == NAN_BITS,
            r.std_diff_from_control is None,
            r.p_value is None,
            !r.is_significant,
    {
        GroupStats {
            group_name: String::new(),
            count: 0,
            mean: NAN_BITS,
            median: NAN_BITS,
            std: NAN_BITS,
            variance: NAN_BITS,
            p95: NAN_BITS,
            p05: NAN_BITS,
            std_diff_from_control: None,
            p_value: None,
            is_significant: false,
        }
    }
}

/// Which sorted elements a rank-interpolated percentile reads.
pub enum PercentilePick {
    /// No observations: the percentile is a NaN.
    Empty,
    /// The rank lands on an element; the percentile is that element.
    Exact { value: u64 },
    /// The rank falls between two adjacent elements; the percentile
    /// interpolates between them with the given fraction, in hundredths.
    Interp { lower: u64, upper: u64, frac_hundredths: u8 },
}

/// Which sorted elements the median reads.
pub enum MedianPick {
    /// No observations: the median is a NaN.
    Empty,
    /// Odd count: the middle element.
    Exact { value: u64 },
    /// Even count: the average of the two middle elements.
    Pair { lower: u64, upper: u64 },
}

/// Float results a caller computed for one sample; the engine cannot carry
/// out double arithmetic itself, so these come in as bit patterns and the
/// contracts record where each is used.
#[derive(Clone, Copy)]
pub struct SummaryNumerics {
    /// Arithmetic mean of the sample, in input order.
    pub mean: u64,
    /// Average of the two middle sorted elements; read only for even counts.
    pub median_even: u64,
    /// Sample variance with an `n - 1` denominator; read only for counts of
    /// two or more.
    pub variance: u64,
    /// Square root of the variance; read only for counts of two or more.
    pub std: u64,
    /// Interpolated 95th percentile; read only when the rank is fractional.
    pub p95: u64,
    /// Interpolated 5th percentile; read only when the rank is fractional.
    pub p05: u64,
}

/// The pair `(p-value bits, significant)` Welch's test reports, given the
/// sample sizes, the standard error, and the two-tailed p-value from the
/// Student's-t distribution where one could be constructed.
pub open spec fn ttest_verdict_spec(n1: int, n2: int, se: u64, p_raw: Option<u64>) -> (u64, bool) {
    if n1 < 2 || n2 < 2 {
        (NAN_BITS, false)
    } else if is_zero_bits(se) {
        (ONE_BITS, false)
    } else {
        match p_raw {
            None => (NAN_BITS, false),
            Some(p) => (p, le_bits(p, SIG_THRESHOLD_BITS)),
        }
    }
}

/// How each numeric field of a group's record is read off an ascending
/// arrangement of its sample and the caller-computed float results: an
/// empty sample is all NaN, a single observation is its own mean, median
/// and percentiles with zero spread, and a larger sample takes whole-rank
/// medians and percentiles from the sorted elements and everything else
/// from the float results.
pub open spec fn descriptive_fields_ok(
    gs: GroupStats,
    sorted: Seq<u64>,
    numerics: SummaryNumerics,
) -> bool {
    let n = sorted.len() as int;
    &&& gs.count == sorted.len()
    &&& if n == 0 {
        &&& gs.mean == NAN_BITS
        &&& gs.median == NAN_BITS
        &&& gs.std == NAN_BITS
        &&& gs.variance == NAN_BITS
        &&& gs.p95 == NAN_BITS
        &&& gs.p05 == NAN_BITS
    } else if n == 1 {
        &&& gs.mean == sorted[0]
        &&& gs.median == sorted[0]
        &&& gs.variance == ZERO_BITS
        &&& gs.std == ZERO_BITS
        &&& gs.p95 == sorted[0]
        &&& gs.p05 == sorted[0]
    } else {
        &&& gs.mean == numerics.mean
        &&& gs.median == (if n % 2 == 1 {
            sorted[n / 2]
        } else {
            numerics.median_even
        })
        &&& gs.variance == numerics.variance
        &&& gs.std == numerics.std
        &&& gs.p95 == (if (95 * (n - 1)) % 100 == 0 {
            sorted[95 * (n - 1) / 100]
        } else {
            numerics.p95
        })
        &&& gs.p05 == (if (5 * (n - 1)) % 100 == 0 {
            sorted[5 * (n - 1) / 100]
        } else {
            numerics.p05
        })
    }
}

/// The record's numeric fields are read off some ascending arrangement of
/// the sample.
pub open spec fn descriptive_matches(
    gs: GroupStats,
    values: Seq<u64>,
    numerics: SummaryNumerics,
) -> bool {
    exists|sorted: Seq<u64>|
        {
            &&& #[trigger] sorted.to_multiset() == values.to_multiset()
            &&& float_sorted(sorted)
            &&& descriptive_fields_ok(gs, sorted, numerics)
        }
}

/// Statistical computations over one group's samples.
pub struct StatsCalculator;

impl StatsCalculator {
    /// Which elements of an ascending sample the rank-interpolated `p`-th
    /// percentile reads: the rank is `(p/100)·(n−1)`; a whole rank selects
    /// one element, a fractional one its two neighbours with the fractional
    /// weight.
    pub fn percentile(sorted_values: &Vec<u64>, p: u8) -> (r: PercentilePick)
        requires
            float_sorted(sorted_values@),
            p <= 100,
            sorted_values@.len() <= usize::MAX / 100,
        ensures
            (sorted_values@.len() == 0) <==> (r is Empty),
            sorted_values@.len() == 1 ==> r == (PercentilePick::Exact {
                value: sorted_values@[0],
            }),
            sorted_values@.len() > 1 ==> {
                let rank = (p as int) * (sorted_values@.len() - 1);
                let lo = rank / 100;
                let fr = rank % 100;
                if fr == 0 {
                    r == (PercentilePick::Exact { value: sorted_values@[lo] })
                } else {
                    r == (PercentilePick::Interp {
                        lower: sorted_values@[lo],
                        upper: sorted_values@[lo + 1],
                        frac_hundredths: fr as u8,
                    })
                }
            },
    {
        let n = sorted_values.len();
        if n == 0 {
            return PercentilePick::Empty;
        }
        if n == 1 {
            return PercentilePick::Exact { value: sorted_values[0] };
        }
        proof {
            assert((p as int) * (n - 1) <= 100 * (n - 1)) by (nonlinear_arith)
                requires
                    p <= 100,
                    n >= 1,
            ;
            assert(100 * (n as int - 1) <= 100 * (usize::MAX as int / 100)) by (nonlinear_arith)
                requires
                    n as int <= usize::MAX as int / 100,
            ;
            assert(100 * (usize::MAX as int / 100) <= usize::MAX as int) by {
                vstd::arithmetic::div_mod::lemma_fundamental_div_mod(usize::MAX as int, 100);
            }
        }
        let rank: usize = (p as usize) * (n - 1);
        let lo: usize = rank / 100;
        let fr: usize = rank % 100;
        proof {
            vstd::arithmetic::div_mod::lemma_fundamental_div_mod(rank as int, 100);
            assert(100 * (rank as int / 100) <= rank as int);
            assert(rank as int <= 100 * (n - 1));
            if lo as int >= n - 1 {
                assert(100 * (n as int - 1) <= 100 * (lo as int)) by (nonlinear_arith)
                    requires
                        n as int - 1 <= lo as int,
                ;
            }
        }
        if fr == 0 {
            PercentilePick::Exact { value: sorted_values[lo] }
        } else {
            PercentilePick::Interp {
                lower: sorted_values[lo],
                upper: sorted_values[lo + 1],
                frac_hundredths: fr as u8,
            }
        }
    }

    /// Which elements of an ascending sample the median reads: the middle
    /// element for an odd count, the two middle ones for an even count.
    pub fn median_pick(sorted_values: &Vec<u64>) -> (r: MedianPick)
        ensures
            (sorted_values@.len() == 0) <==> (r is Empty),
            sorted_values@.len() % 2 == 1 ==> r == (MedianPick::Exact {
                value: sorted_values@[sorted_values@.len() as int / 2],
            }),
            sorted_values@.len() > 0 && sorted_values@.len() % 2 == 0 ==> r == (MedianPick::Pair {
                lower: sorted_values@[sorted_values@.len() as int / 2 - 1],
                upper: sorted_values@[sorted_values@.len() as int / 2],
            }),
    {
        let n = sorted_values.len();
        if n == 0 {
            MedianPick::Empty
        } else if n % 2 == 1 {
            MedianPick::Exact { value: sorted_values[n / 2] }
        } else {
            MedianPick::Pair { lower: sorted_values[n / 2 - 1], upper: sorted_values[n / 2] }
        }
    }

    /// The verdict of Welch's test, given the sample sizes, the standard
    /// error of the mean difference, and the two-tailed p-value computed
    /// from the Student's-t distribution (absent when the distribution
    /// could not be constructed).  Fewer than two observations on either
    /// side yields no verdict; a zero standard error means no detectable
    /// difference and is reported as a p-value of exactly one; otherwise
    /// the p-value is taken as given and significance is a comparison
    /// against the fixed threshold of five percent.
    pub fn ttest_verdict(n1: usize, n2: usize, se: u64, p_raw: Option<u64>) -> (r: (u64, bool))
        ensures
            r == ttest_verdict_spec(n1 as int, n2 as int, se, p_raw),
            r.1 ==> !is_nan_bits(r.0) && le_bits(r.0, SIG_THRESHOLD_BITS),
    {
        if n1 < 2 || n2 < 2 {
            return (NAN_BITS, false);
        }
        if float_is_zero(se) {
            return (ONE_BITS, false);
        }
        match p_raw {
            None => (NAN_BITS, false),
            Some(p) => {
                let sig = float_le(p, SIG_THRESHOLD_BITS);
                (p, sig)
            },
        }
    }
}

impl StatsCalculator {
    /// The per-group record of an ascending sample: counts and selections
    /// from the sorted elements where the definitions read one, the
    /// caller's float results where arithmetic is owed, and the documented
    /// degenerate values for zero or one observation.  Comparison fields
    /// are left unset.
    pub fn compute_descriptive_stats(sorted: &Vec<u64>, numerics: &SummaryNumerics) -> (gs:
        GroupStats)
        requires
            float_sorted(sorted@),
            sorted@.len() <= usize::MAX / 100,
        ensures
            descriptive_fields_ok(gs, sorted@, *numerics),
            gs.group_name@ == Seq::<char>::empty(),
            gs.std_diff_from_control is None,
            gs.p_value is None,
            !gs.is_significant,
            gs.wf(),
    {
        let n = sorted.len();
        if n == 0 {
            return GroupStats::default();
        }
        if n == 1 {
            let v = sorted[0];
            return GroupStats {
                group_name: String::new(),
                count: 1,
                mean: v,
                median: v,
                std: ZERO_BITS,
                variance: ZERO_BITS,
                p95: v,
                p05: v,
                std_diff_from_control: None,
                p_value: None,
                is_significant: false,
            };
        }
        let median = match Self::median_pick(sorted) {
            MedianPick::Exact { value } => value,
            MedianPick::Pair { lower: _, upper: _ } => numerics.median_even,
            MedianPick::Empty => NAN_BITS,
        };
        let p95 = match Self::percentile(sorted, 95) {
            PercentilePick::Exact { value } => value,
            PercentilePick::Interp { lower: _, upper: _, frac_hundredths: _ } => numerics.p95,
            PercentilePick::Empty => NAN_BITS,
        };
        let p05 = match Self::percentile(sorted, 5) {
            PercentilePick::Exact { value } => value,
            PercentilePick::Interp { lower: _, upper: _, frac_hundredths: _ } => numerics.p05,
            PercentilePick::Empty => NAN_BITS,
        };
        GroupStats {
            group_name: String::new(),
            count: n,
            mean: numerics.mean,
            median,
            std: numerics.std,
            variance: numerics.variance,
            p95,
            p05,
            std_diff_from_control: None,
            p_value: None,
            is_significant: false,
        }
    }

    /// Attach a group's comparison against the control: the standardised
    /// mean difference is recorded only when the control spread is strictly
    /// positive and its mean is a number, and the test verdict is recorded
    /// only when the control sample is non-empty.
    pub fn attach_comparisons(
        gs: GroupStats,
        name: String,
        control_mean: u64,
        control_std: u64,
        control_count: usize,
        std_diff: u64,
        verdict: (u64, bool),
    ) -> (r: GroupStats)
        requires
            verdict.1 ==> !is_nan_bits(verdict.0) && le_bits(verdict.0, SIG_THRESHOLD_BITS),
        ensures
            r.group_name == name,
            r.count == gs.count,
            r.mean == gs.mean,
            r.median == gs.median,
            r.std == gs.std,
            r.variance == gs.variance,
            r.p95 == gs.p95,
            r.p05 == gs.p05,
            r.std_diff_from_control == (if is_strictly_pos_bits(control_std) && !is_nan_bits(
                control_mean,
            ) {
                Some(std_diff)
            } else {
                None
            }),
            r.p_value == (if control_count > 0 {
                Some(verdict.0)
            } else {
                None
            }),
            r.is_significant == (control_count > 0 && verdict.1),
            r.wf(),
    {
        let std_diff_from_control = if float_is_strictly_pos(control_std) && !float_is_nan(
            control_mean,
        ) {
            Some(std_diff)
        } else {
            None
        };
        let (p_value, is_significant) = if control_count > 0 {
            (Some(verdict.0), verdict.1)
        } else {
            (None, false)
        };
        GroupStats {
            group_name: name,
            std_diff_from_control,
            p_value,
            is_significant,
            ..gs
        }
    }
}

/// A caller's float results for one non-control group: the descriptive
/// numbers, the standard error of the mean difference against the control,
/// the raw two-tailed p-value where the t-distribution could be built, and
/// the standardised mean difference.
#[derive(Clone, Copy)]
pub struct GroupKernel {
    pub numerics: SummaryNumerics,
    pub se: u64,
    pub p_raw: Option<u64>,
    pub std_diff: u64,
}

/// A non-control group's finished record: named, described by some
/// ascending arrangement of its values, and compared against the control
/// exactly as the decision rules dictate.
pub open spec fn group_entry_ok(
    gs: GroupStats,
    name: Seq<char>,
    vals: Seq<u64>,
    control_mean: u64,
    control_std: u64,
    n2: int,
    kernel: GroupKernel,
) -> bool {
    &&& gs.group_name@ == name
    &&& descriptive_matches(gs, vals, kernel.numerics)
    &&& gs.std_diff_from_control == (if is_strictly_pos_bits(control_std) && !is_nan_bits(
        control_mean,
    ) {
        Some(kernel.std_diff)
    } else {
        None
    })
    &&& if n2 == 0 {
        gs.p_value is None && !gs.is_significant
    } else {
        let v = ttest_verdict_spec(vals.len() as int, n2, kernel.se, kernel.p_raw);
        gs.p_value == Some(v.0) && gs.is_significant == v.1
    }
}

/// A group's record is determined by the arrangement of its sample and
/// the float results: two records read off the same ascending arrangement
/// and the same numbers agree on the count and on every numeric field, so
/// recomputing statistics from the same input reproduces them bit for
/// bit.
pub proof fn lemma_descriptive_fields_determined(
    a: GroupStats,
    b: GroupStats,
    sorted: Seq<u64>,
    numerics: SummaryNumerics,
)
    requires
        descriptive_fields_ok(a, sorted, numerics),
        descriptive_fields_ok(b, sorted, numerics),
    ensures
        a.count == b.count,
        a.mean == b.mean,
        a.median == b.median,
        a.std == b.std,
        a.variance == b.variance,
        a.p95 == b.p95,
        a.p05 == b.p05,
{
}

/// One data type's statistics: one record per group, the control group's
/// first.
pub struct DataTypeStats {
    pub data_type: String,
    pub control_group: String,
    pub group_stats: Vec<GroupStats>,
}

impl DataTypeStats {
    /// The group names, in record order.
    pub open spec fn group_names(self) -> Seq<Seq<char>> {
        self.group_stats@.map_values(|g: GroupStats| g.group_name@)
    }

    /// Group names are distinct; whenever any group was observed the first
    /// record is the control group's, which carries no p-value and is never
    /// flagged; and every record obeys the significance invariant.
    pub open spec fn wf(self) -> bool {
        &&& self.group_names().no_duplicates()
        &&& (forall|i: int|
            0 <= i < self.group_stats@.len() ==> (#[trigger] self.group_stats@[i]).wf())
        &&& (self.group_stats@.len() > 0 ==> {
            &&& self.group_stats@[0].group_name@ == self.control_group@
            &&& self.group_stats@[0].p_value is None
            &&& !self.group_stats@[0].is_significant
        })
    }

    /// Is any non-control group's result flagged significant?
    pub open spec fn spec_has_significant(self) -> bool {
        exists|i: int|
            0 <= i < self.group_stats@.len() && (#[trigger] self.group_stats@[i]).group_name@
                != self.control_group@ && self.group_stats@[i].is_significant
    }

    /// The group names with the control group first and the rest in
    /// code-point order.
    pub fn get_ordered_groups(&self) -> (r: Vec<String>)
        requires
            self.wf(),
        ensures
            r@.len() == self.group_stats@.len(),
            views_of(r@).to_multiset() == self.group_names().to_multiset(),
            r@.len() > 0 ==> r@[0]@ == self.control_group@,
            forall|i: int, j: int| 1 <= i < j < r@.len() ==> lex_lt(#[trigger] r@[i]@, #[trigger] r@[j]@),
    {
        broadcast use vstd::multiset::group_multiset_axioms;

        if self.group_stats.len() == 0 {
            let r: Vec<String> = Vec::new();
            proof {
                assert(views_of(r@) =~= Seq::<Seq<char>>::empty());
                assert(self.group_names() =~= Seq::<Seq<char>>::empty());
            }
            return r;
        }
        let mut tail: Vec<String> = Vec::new();
        let mut i: usize = 1;
        while i < self.group_stats.len()
            invariant
                1 <= i <= self.group_stats@.len(),
                tail@.len() == i - 1,
                forall|j: int| 0 <= j < i - 1 ==> #[trigger] tail@[j]@ == self.group_names()[j
                    + 1],
                forall|j: int| 1 <= j < i ==> #[trigger] self.group_names()[j] == tail@[j - 1]@,
            decreases self.group_stats@.len() - i,
        {
            tail.push(self.group_stats[i].group_name.clone());
            i = i + 1;
        }
        proof {
            assert(views_of(tail@) =~= self.group_names().drop_first());
            let names = self.group_names();
            assert forall|a: int, b: int|
                0 <= a < b < views_of(tail@).len() implies views_of(tail@)[a] != views_of(
                tail@,
            )[b] by {
                assert(names[a + 1] != names[b + 1]);
            }
            assert(views_of(tail@).no_duplicates());
            views_of(tail@).lemma_multiset_has_no_duplicates();
        }
        let ghost tail_views = views_of(tail@);
        let sorted_tail = sort_strings(tail);
        proof {
            views_of(sorted_tail@).lemma_multiset_has_no_duplicates_conv();
            assert(views_of(sorted_tail@).no_duplicates());
            assert(views_of(sorted_tail@).to_multiset() == tail_views.to_multiset());
            assert(tail_views == self.group_names().drop_first());
        }
        let mut r: Vec<String> = Vec::new();
        r.push(self.group_stats[0].group_name.clone());
        let mut j: usize = 0;
        while j < sorted_tail.len()
            invariant
                self.group_stats@.len() > 0,
                views_of(sorted_tail@).no_duplicates(),
                lex_sorted(views_of(sorted_tail@)),
                views_of(sorted_tail@).to_multiset() == self.group_names().drop_first().to_multiset(),
                j <= sorted_tail@.len(),
                sorted_tail@.len() + 1 == self.group_stats@.len(),
                r@.len() == j + 1,
                r@[0]@ == self.group_names()[0],
                forall|k: int| 1 <= k < j + 1 ==> #[trigger] r@[k]@ == views_of(sorted_tail@)[k
                    - 1],
            decreases sorted_tail@.len() - j,
        {
            r.push(sorted_tail[j].clone());
            j = j + 1;
        }
        proof {
            let names = self.group_names();
            let sv = views_of(sorted_tail@);
            assert(views_of(r@) =~= seq![names[0]] + sv);
            assert(names =~= seq![names[0]] + names.drop_first());
            vstd::seq_lib::lemma_multiset_commutative(seq![names[0]], sv);
            vstd::seq_lib::lemma_multiset_commutative(seq![names[0]], names.drop_first());
            assert(views_of(r@).to_multiset() =~= names.to_multiset());
            assert forall|a: int, b: int| 1 <= a < b < r@.len() implies lex_lt(
                #[trigger] r@[a]@,
                #[trigger] r@[b]@,
            ) by {
                assert(r@[a]@ == sv[a - 1]);
                assert(r@[b]@ == sv[b - 1]);
                assert(lex_le(sv[a - 1], sv[b - 1]));
                assert(sv[a - 1] != sv[b - 1]);
            }
        }
        r
    }

    /// Does any group other than the control have a significant result?
    pub fn has_significant_results(&self) -> (r: bool)
        ensures
            r == self.spec_has_significant(),
    {
        let mut i: usize = 0;
        while i < self.group_stats.len()
            invariant
                i <= self.group_stats@.len(),
                forall|j: int|
                    0 <= j < i ==> !((#[trigger] self.group_stats@[j]).group_name@
                        != self.control_group@ && self.group_stats@[j].is_significant),
            decreases self.group_stats@.len() - i,
        {
            let gs = &self.group_stats[i];
            if gs.is_significant && !str_eq(gs.group_name.as_str(), self.control_group.as_str()) {
                return true;
            }
            i = i + 1;
        }
        false
    }
}

impl StatsCalculator {
    /// The value bits of every row of group `group`, in row order.
    pub fn get_values_for_group(df: &SampleTable, group: &str) -> (r: Vec<u64>)
        ensures
            r@ == values_of_group(df.model(), group@),
    {
        df.values_for_group(group)
    }

    /// The value bits of every row of data type `data_type` and group
    /// `group`, in row order; quantile-plot data read this way matches the
    /// statistics table exactly.
    pub fn get_values_for_data_type_and_group(df: &SampleTable, data_type: &str, group: &str) -> (r:
        Vec<u64>)
        ensures
            r@ == crate::table::values_of_data_type_and_group(df.model(), data_type@, group@),
    {
        df.values_for_data_type_and_group(data_type, group)
    }

    /// Assemble one data type's statistics.  The table rows, group list and
    /// control name decide everything discrete — which values each record
    /// counts and selects from, which comparisons are owed — while the
    /// caller's float results fill the arithmetic fields exactly as
    /// `group_entry_ok` dictates.  The control record comes first; `groups`
    /// names the remaining groups, each once and none the control.
    pub fn compute_data_type_stats(
        type_table: &SampleTable,
        data_type: String,
        control_group: String,
        control_numerics: &SummaryNumerics,
        groups: &Vec<String>,
        kernels: &Vec<GroupKernel>,
    ) -> (r: DataTypeStats)
        requires
            type_table.rows@.len() <= usize::MAX / 100,
            groups@.len() == kernels@.len(),
            views_of(groups@).no_duplicates(),
            forall|i: int| 0 <= i < groups@.len() ==> (#[trigger] groups@[i]@) != control_group@,
        ensures
            r.data_type == data_type,
            r.control_group == control_group,
            r.group_stats@.len() == 1 + groups@.len(),
            r.group_stats@[0].group_name@ == control_group@,
            descriptive_matches(
                r.group_stats@[0],
                values_of_group(type_table.model(), control_group@),
                *control_numerics,
            ),
            r.group_stats@[0].std_diff_from_control is None,
            r.group_stats@[0].p_value is None,
            !r.group_stats@[0].is_significant,
            forall|i: int|
                0 <= i < groups@.len() ==> group_entry_ok(
                    #[trigger] r.group_stats@[i + 1],
                    groups@[i]@,
                    values_of_group(type_table.model(), groups@[i]@),
                    r.group_stats@[0].mean,
                    r.group_stats@[0].std,
                    values_of_group(type_table.model(), control_group@).len() as int,
                    kernels@[i],
                ),
            r.wf(),
    {
        let control_values = type_table.values_for_group(control_group.as_str());
        let n2 = control_values.len();
        proof {
            lemma_values_of_group_len(type_table.model(), control_group@);
        }
        let ghost control_vals_seq = control_values@;
        let control_sorted = crate::fbits::sort_floats(control_values);
        let control_plain = Self::compute_descriptive_stats(&control_sorted, control_numerics);
        let control_gs = control_plain.with_name(control_group.clone());
        let control_mean = control_gs.mean;
        let control_std = control_gs.std;
        proof {
            assert(descriptive_matches(
                control_gs,
                values_of_group(type_table.model(), control_group@),
                *control_numerics,
            )) by {
                assert(control_sorted@.to_multiset() == control_vals_seq.to_multiset()
                    && float_sorted(control_sorted@) && descriptive_fields_ok(
                    control_gs,
                    control_sorted@,
                    *control_numerics,
                ));
            }
        }
        let mut out: Vec<GroupStats> = Vec::new();
        out.push(control_gs);
        let mut i: usize = 0;
        while i < groups.len()
            invariant
                type_table.rows@.len() <= usize::MAX / 100,
                groups@.len() == kernels@.len(),
                i <= groups@.len(),
                out@.len() == i + 1,
                n2 == values_of_group(type_table.model(), control_group@).len(),
                out@[0].group_name@ == control_group@,
                out@[0].mean == control_mean,
                out@[0].std == control_std,
                out@[0].std_diff_from_control is None,
                out@[0].p_value is None,
                !out@[0].is_significant,
                out@[0].wf(),
                descriptive_matches(
                    out@[0],
                    values_of_group(type_table.model(), control_group@),
                    *control_numerics,
                ),
                forall|k: int|
                    0 <= k < i ==> group_entry_ok(
                        #[trigger] out@[k + 1],
                        groups@[k]@,
                        values_of_group(type_table.model(), groups@[k]@),
                        control_mean,
                        control_std,
                        n2 as int,
                        kernels@[k],
                    ),
                forall|k: int| 0 <= k < i ==> (#[trigger] out@[k + 1]).wf(),
            decreases groups@.len() - i,
        {
            let vals = type_table.values_for_group(groups[i].as_str());
            let n1 = vals.len();
            proof {
                lemma_values_of_group_len(type_table.model(), groups@[i as int]@);
            }
            let ghost vals_seq = vals@;
            let sorted = crate::fbits::sort_floats(vals);
            let kernel = kernels[i];
            let plain = Self::compute_descriptive_stats(&sorted, &kernel.numerics);
            let verdict = Self::ttest_verdict(n1, n2, kernel.se, kernel.p_raw);
            let gs = Self::attach_comparisons(
                plain,
                groups[i].clone(),
                control_mean,
                control_std,
                n2,
                kernel.std_diff,
                verdict,
            );
            proof {
                assert(descriptive_matches(gs, vals_seq, kernel.numerics)) by {
                    assert(sorted@.to_multiset() == vals_seq.to_multiset() && float_sorted(sorted@)
                        && descriptive_fields_ok(gs, sorted@, kernel.numerics));
                }
                assert(group_entry_ok(
                    gs,
                    groups@[i as int]@,
                    values_of_group(type_table.model(), groups@[i as int]@),
                    control_mean,
                    control_std,
                    n2 as int,
                    kernels@[i as int],
                ));
            }
            out.push(gs);
            i = i + 1;
        }
        let ghost model = type_table.model();
        let ghost ctrl = control_group@;
        let r = DataTypeStats { data_type, control_group, group_stats: out };
        proof {
            let names = r.group_names();
            assert forall|a: int, b: int| 0 <= a < b < names.len() implies names[a] != names[b] by {
                let kb = b - 1;
                assert(group_entry_ok(
                    out@[kb + 1],
                    groups@[kb]@,
                    values_of_group(model, groups@[kb]@),
                    control_mean,
                    control_std,
                    n2 as int,
                    kernels@[kb],
                ));
                assert(names[b] == groups@[kb]@);
                if a == 0 {
                    assert(names[a] == ctrl);
                } else {
                    let ka = a - 1;
                    assert(group_entry_ok(
                        out@[ka + 1],
                        groups@[ka]@,
                        values_of_group(model, groups@[ka]@),
                        control_mean,
                        control_std,
                        n2 as int,
                        kernels@[ka],
                    ));
                    assert(names[a] == groups@[ka]@);
                    assert(views_of(groups@)[ka] == groups@[ka]@);
                    assert(views_of(groups@)[kb] == groups@[kb]@);
                    assert(views_of(groups@)[ka] != views_of(groups@)[kb]);
                }
            }
            assert(names.no_duplicates());
            assert forall|k: int|
                0 <= k < r.group_stats@.len() implies (#[trigger] r.group_stats@[k]).wf() by {
                if k > 0 {
                    let k0 = k - 1;
                    assert(out@[k0 + 1].wf());
                }
            }
        }
        r
    }
}

} // verus!
