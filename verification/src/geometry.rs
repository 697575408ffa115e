//! Renderer-agnostic chart geometry.
//!
//! Three layout algorithms share this module: box-plot quartiles and
//! whiskers over an ascending sample, the beeswarm spread that separates
//! duplicate values deterministically, and the normal-quantile plotting
//! positions.  Positions along a continuous axis are returned as exact
//! rationals (a numerator and a denominator of the group's width, or of
//! probability), so every renderer maps them to its own coordinates with
//! one multiplication; the layouts themselves are verified here.

use crate::fbits::{float_le, le_bits};
use crate::stats::DataTypeStats;
use crate::strorder::str_eq;
use vstd::prelude::*;

verus! {

/// A data type's statistics bundled with the raw per-group samples that
/// scatter and quantile layouts need.
pub struct ChartData {
    pub data_type: String,
    pub data_by_group: Vec<(String, Vec<u64>)>,
    pub stats: DataTypeStats,
}

/// How often `k` occurs in `s`.
pub open spec fn count_key(s: Seq<i64>, k: i64) -> int
    decreases s.len(),
{
    if s.len() == 0 {
        0int
    } else {
        count_key(s.drop_last(), k) + if s.last() == k {
            1int
        } else {
            0int
        }
    }
}

/// A point's place within its cluster of equal keys: its rank among equal
/// keys in input order, and the cluster's total size.
pub struct BeeswarmSlot {
    pub slot: usize,
    pub cluster_size: usize,
}

/// Deterministic chart layouts.
pub struct ChartPlotter;

impl ChartPlotter {
    /// The box-plot quartiles of an ascending sample, by plain index:
    /// `sorted[n/4]`, `sorted[n/2]`, `sorted[3n/4]`.  This index convention
    /// is deliberate and distinct from the rank-interpolated percentiles of
    /// the statistics table.
    pub fn box_plot_quartiles(sorted: &Vec<u64>) -> (r: (u64, u64, u64))
        requires
            sorted@.len() > 0,
            sorted@.len() <= usize::MAX / 3,
        ensures
            r.0 == sorted@[sorted@.len() as int / 4],
            r.1 == sorted@[sorted@.len() as int / 2],
            r.2 == sorted@[3 * sorted@.len() as int / 4],
    {
        let n = sorted.len();
        proof {
            assert(3 * (n as int) / 4 < n as int) by (nonlinear_arith)
                requires
                    n as int >= 1,
            ;
        }
        (sorted[n / 4], sorted[n / 2], sorted[3 * n / 4])
    }

    /// The whisker ends of an ascending sample: the first element at or
    /// above the low fence and the last element at or below the high fence,
    /// with the given quartiles as fallbacks when no element qualifies.
    /// The fences (`q1 − 1.5·iqr` and `q3 + 1.5·iqr`) are the caller's.
    pub fn whiskers(sorted: &Vec<u64>, fence_low: u64, fence_high: u64, q1: u64, q3: u64) -> (r: (
        u64,
        u64,
    ))
        ensures
            (exists|i: int|
                0 <= i < sorted@.len() && #[trigger] le_bits(fence_low, sorted@[i])) ==> (exists|
                i: int,
            |
                {
                    &&& 0 <= i < sorted@.len()
                    &&& #[trigger] le_bits(fence_low, sorted@[i])
                    &&& r.0 == sorted@[i]
                    &&& forall|j: int| 0 <= j < i ==> !le_bits(fence_low, sorted@[j])
                }),
            (forall|i: int|
                0 <= i < sorted@.len() ==> !(#[trigger] le_bits(fence_low, sorted@[i]))) ==> r.0
                == q1,
            (exists|i: int|
                0 <= i < sorted@.len() && #[trigger] le_bits(sorted@[i], fence_high)) ==> (exists|
                i: int,
            |
                {
                    &&& 0 <= i < sorted@.len()
                    &&& #[trigger] le_bits(sorted@[i], fence_high)
                    &&& r.1 == sorted@[i]
                    &&& forall|j: int| i < j < sorted@.len() ==> !le_bits(sorted@[j], fence_high)
                }),
            (forall|i: int|
                0 <= i < sorted@.len() ==> !(#[trigger] le_bits(sorted@[i], fence_high))) ==> r.1
                == q3,
    {
        let n = sorted.len();
        let mut low = q1;
        let mut found_low = false;
        let mut i: usize = 0;
        while i < n && !found_low
            invariant
                n == sorted@.len(),
                i <= n,
                !found_low ==> forall|j: int| 0 <= j < i ==> !le_bits(fence_low, sorted@[j]),
                found_low ==> exists|k: int|
                    {
                        &&& 0 <= k < sorted@.len()
                        &&& #[trigger] le_bits(fence_low, sorted@[k])
                        &&& low == sorted@[k]
                        &&& forall|j: int| 0 <= j < k ==> !le_bits(fence_low, sorted@[j])
                    },
                !found_low ==> low == q1,
            decreases n - i, (if found_low { 0int } else { 1int }),
        {
            if float_le(fence_low, sorted[i]) {
                low = sorted[i];
                found_low = true;
            } else {
                i = i + 1;
            }
        }
        let mut high = q3;
        let mut found_high = false;
        let mut j: usize = n;
        while j > 0 && !found_high
            invariant
                n == sorted@.len(),
                j <= n,
                !found_high ==> forall|k: int| j <= k < n ==> !le_bits(sorted@[k], fence_high),
                found_high ==> exists|k: int|
                    {
                        &&& 0 <= k < sorted@.len()
                        &&& #[trigger] le_bits(sorted@[k], fence_high)
                        &&& high == sorted@[k]
                        &&& forall|m: int| k < m < sorted@.len() ==> !le_bits(
                            sorted@[m],
                            fence_high,
                        )
                    },
                !found_high ==> high == q3,
            decreases j, (if found_high { 0int } else { 1int }),
        {
            if float_le(sorted[j - 1], fence_high) {
                high = sorted[j - 1];
                found_high = true;
            } else {
                j = j - 1;
            }
        }
        (low, high)
    }

    /// Each point's rank among the points of equal key before it, and its
    /// key's total cluster size.  Keys are the caller's fixed-precision
    /// roundings of the values, so equal keys mean near-duplicate values.
    pub fn beeswarm_layout(keys: &Vec<i64>) -> (r: Vec<BeeswarmSlot>)
        ensures
            r@.len() == keys@.len(),
            forall|i: int|
                0 <= i < keys@.len() ==> {
                    &&& (#[trigger] r@[i]).slot == count_key(keys@.take(i), keys@[i])
                    &&& r@[i].cluster_size == count_key(keys@, keys@[i])
                },
    {
        let n = keys.len();
        let mut r: Vec<BeeswarmSlot> = Vec::new();
        let mut i: usize = 0;
        while i < n
            invariant
                n == keys@.len(),
                i <= n,
                r@.len() == i,
                forall|k: int|
                    0 <= k < i ==> {
                        &&& (#[trigger] r@[k]).slot == count_key(keys@.take(k), keys@[k])
                        &&& r@[k].cluster_size == count_key(keys@, keys@[k])
                    },
            decreases n - i,
        {
            let key = keys[i];
            let mut slot: usize = 0;
            let mut cluster: usize = 0;
            let mut j: usize = 0;
            while j < n
                invariant
                    n == keys@.len(),
                    j <= n,
                    i < n,
                    key == keys@[i as int],
                    slot as int == count_key(keys@.take(if j < i {
                        j as int
                    } else {
                        i as int
                    }), key),
                    cluster as int == count_key(keys@.take(j as int), key),
                    slot <= j,
                    cluster <= j,
                decreases n - j,
            {
                proof {
                    let cur = keys@.take(j + 1);
                    assert(cur.drop_last() =~= keys@.take(j as int));
                    assert(cur.last() == keys@[j as int]);
                    if j < i {
                        let curi = keys@.take(if j + 1 < i {
                            j + 1
                        } else {
                            i as int
                        });
                        assert(curi == cur);
                    }
                }
                if keys[j] == key {
                    cluster = cluster + 1;
                    if j < i {
                        slot = slot + 1;
                    }
                }
                j = j + 1;
            }
            proof {
                assert(keys@.take(n as int) =~= keys@);
            }
            r.push(BeeswarmSlot { slot, cluster_size: cluster });
            i = i + 1;
        }
        r
    }

    /// Horizontal beeswarm offsets as exact fractions of the group width:
    /// a singleton stays at the centre, and a cluster of `c` near-equal
    /// values is spread evenly over `[−1/2, +1/2]` of the width, the
    /// `k`-th of the cluster at `(2k − (c−1)) / (2(c−1))`.
    pub fn beeswarm_offsets(keys: &Vec<i64>) -> (r: Vec<(i64, u64)>)
        requires
            keys@.len() <= 0x1000_0000_0000_0000,
        ensures
            r@.len() == keys@.len(),
            forall|i: int|
                0 <= i < keys@.len() ==> {
                    let slot = count_key(keys@.take(i), keys@[i]);
                    let c = count_key(keys@, keys@[i]);
                    if c <= 1 {
                        (#[trigger] r@[i]) == (0i64, 1u64)
                    } else {
                        r@[i] == (((2 * slot - (c - 1)) as i64), ((2 * (c - 1)) as u64))
                    }
                },
    {
        let layout = Self::beeswarm_layout(keys);
        let mut r: Vec<(i64, u64)> = Vec::new();
        let mut i: usize = 0;
        proof {
            lemma_count_key_bounds_all(keys@);
        }
        while i < layout.len()
            invariant
                layout@.len() == keys@.len(),
                keys@.len() <= 0x1000_0000_0000_0000,
                forall|k: int|
                    0 <= k < keys@.len() ==> {
                        &&& (#[trigger] layout@[k]).slot == count_key(keys@.take(k), keys@[k])
                        &&& layout@[k].cluster_size == count_key(keys@, keys@[k])
                        &&& 0 <= layout@[k].slot < layout@[k].cluster_size <= keys@.len()
                    },
                i <= layout@.len(),
                r@.len() == i,
                forall|k: int|
                    0 <= k < i ==> {
                        let slot = count_key(keys@.take(k), keys@[k]);
                        let c = count_key(keys@, keys@[k]);
                        if c <= 1 {
                            (#[trigger] r@[k]) == (0i64, 1u64)
                        } else {
                            r@[k] == (((2 * slot - (c - 1)) as i64), ((2 * (c - 1)) as u64))
                        }
                    },
            decreases layout@.len() - i,
        {
            let s = layout[i].slot;
            let c = layout[i].cluster_size;
            if c <= 1 {
                r.push((0i64, 1u64));
            } else {
                let num: i64 = 2 * (s as i64) + (1 - (c as i64));
                let den: u64 = 2 * ((c - 1) as u64);
                r.push((num, den));
            }
            i = i + 1;
        }
        r
    }

    /// The normal-quantile plotting positions for `n` ascending samples:
    /// the `i`-th position is the mid-point fraction `(i + 1/2) / n`,
    /// returned as the exact fraction `(2i+1) / 2n`.  The caller maps each
    /// through the inverse normal distribution for the theoretical score;
    /// a single sample sits at `1/2`, whose score is zero.
    pub fn qq_positions(n: usize) -> (r: Vec<(u64, u64)>)
        requires
            n <= usize::MAX / 2,
        ensures
            r@.len() == n,
            forall|i: int|
                0 <= i < n ==> (#[trigger] r@[i]) == (((2 * i + 1) as u64), ((2 * (n as int)) as u64)),
    {
        let mut r: Vec<(u64, u64)> = Vec::new();
        let mut i: usize = 0;
        while i < n
            invariant
                n <= usize::MAX / 2,
                i <= n,
                r@.len() == i,
                forall|k: int|
                    0 <= k < i ==> (#[trigger] r@[k]) == (((2 * k + 1) as u64), ((2 * (n as int))
                        as u64)),
            decreases n - i,
        {
            r.push((2 * (i as u64) + 1, 2 * (n as u64)));
            i = i + 1;
        }
        r
    }

    /// The colour a group is drawn in: the fixed control colour for the
    /// control group, else the palette colour of its index among the
    /// non-control groups, cycling.
    pub fn get_group_color(group: &str, control_group: &str, group_index: usize) -> (r: (
        u8,
        u8,
        u8,
    ))
        ensures
            r == (if group@ == control_group@ {
                control_color()
            } else {
                palette_color((group_index % 10) as int)
            }),
    {
        if str_eq(group, control_group) {
            (52, 152, 219)
        } else {
            match group_index % 10 {
                0 => (231, 76, 60),
                1 => (46, 204, 113),
                2 => (155, 89, 182),
                3 => (243, 156, 18),
                4 => (26, 188, 156),
                5 => (233, 30, 99),
                6 => (0, 188, 212),
                7 => (255, 87, 34),
                8 => (121, 85, 72),
                _ => (96, 125, 139),
            }
        }
    }
}

/// The control group's colour.
pub open spec fn control_color() -> (u8, u8, u8) {
    (52u8, 152u8, 219u8)
}

/// The palette of the non-control groups, by index.
pub open spec fn palette_color(i: int) -> (u8, u8, u8) {
    if i == 0 {
        (231u8, 76u8, 60u8)
    } else if i == 1 {
        (46u8, 204u8, 113u8)
    } else if i == 2 {
        (155u8, 89u8, 182u8)
    } else if i == 3 {
        (243u8, 156u8, 18u8)
    } else if i == 4 {
        (26u8, 188u8, 156u8)
    } else if i == 5 {
        (233u8, 30u8, 99u8)
    } else if i == 6 {
        (0u8, 188u8, 212u8)
    } else if i == 7 {
        (255u8, 87u8, 34u8)
    } else if i == 8 {
        (121u8, 85u8, 72u8)
    } else {
        (96u8, 125u8, 139u8)
    }
}

/// The mid-point plotting positions pair off around one half: the `i`-th
/// and the `(n-1-i)`-th positions of `n` samples sum to the whole, so the
/// normal scores a symmetric distribution function assigns them are
/// negatives of each other, and a single sample sits exactly at one half.
pub proof fn lemma_qq_positions_mirror(n: int, i: int)
    requires
        0 <= i < n,
    ensures
        (2 * i + 1) + (2 * (n - 1 - i) + 1) == 2 * n,
        n == 1 ==> 2 * (2 * i + 1) == 2 * n,
{
}

/// A beeswarm cluster of `c` near-equal values is laid out symmetrically
/// about the group centre, with evenly spaced offsets that stay within
/// half the group width on either side: the `slot`-th and the
/// `(c-1-slot)`-th offsets cancel, neighbouring offsets differ by the
/// constant step `2 / (2(c-1))` of the width, and every numerator stays
/// within the denominator's half.
pub proof fn lemma_beeswarm_cluster_shape(c: int, slot: int)
    requires
        2 <= c,
        0 <= slot < c,
    ensures
        (2 * slot - (c - 1)) + (2 * (c - 1 - slot) - (c - 1)) == 0,
        slot + 1 < c ==> (2 * (slot + 1) - (c - 1)) - (2 * slot - (c - 1)) == 2,
        -(c - 1) <= 2 * slot - (c - 1) <= c - 1,
{
}

/// A point's rank among its equals stays below its cluster size, which
/// stays within the sample size.
pub proof fn lemma_count_key_bounds_all(s: Seq<i64>)
    ensures
        forall|i: int|
            0 <= i < s.len() ==> 0 <= #[trigger] count_key(s.take(i), s[i]) < count_key(s, s[i])
                <= s.len(),
{
    assert forall|i: int|
        0 <= i < s.len() implies 0 <= #[trigger] count_key(s.take(i), s[i]) < count_key(s, s[i])
        <= s.len() by {
        lemma_count_key_nonneg(s.take(i), s[i]);
        lemma_count_key_le_len(s, s[i]);
        lemma_count_key_prefix_lt(s, i);
    }
}

proof fn lemma_count_key_nonneg(s: Seq<i64>, k: i64)
    ensures
        0 <= count_key(s, k),
    decreases s.len(),
{
    if s.len() > 0 {
        lemma_count_key_nonneg(s.drop_last(), k);
    }
}

proof fn lemma_count_key_le_len(s: Seq<i64>, k: i64)
    ensures
        count_key(s, k) <= s.len(),
    decreases s.len(),
{
    if s.len() > 0 {
        lemma_count_key_le_len(s.drop_last(), k);
    }
}

/// Counting equals in a strict prefix that ends just before an occurrence
/// undercounts the whole sequence.
proof fn lemma_count_key_prefix_lt(s: Seq<i64>, i: int)
    requires
        0 <= i < s.len(),
    ensures
        count_key(s.take(i), s[i]) < count_key(s, s[i]),
    decreases s.len(),
{
    if i == s.len() - 1 {
        assert(s.drop_last() =~= s.take(i));
        lemma_count_key_nonneg(s.take(i), s[i]);
    } else {
        lemma_count_key_prefix_lt(s.drop_last(), i);
        assert(s.drop_last().take(i) =~= s.take(i));
        lemma_count_key_mono_last(s, s[i]);
    }
}

proof fn lemma_count_key_mono_last(s: Seq<i64>, k: i64)
    requires
        s.len() > 0,
    ensures
        count_key(s.drop_last(), k) <= count_key(s, k),
{
}

} // verus!
