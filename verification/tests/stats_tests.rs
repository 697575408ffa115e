use chartify::fbits::{NAN_BITS, ONE_BITS, ZERO_BITS};
use statrs::distribution::ContinuousCDF;
use chartify::stats::{
    DataTypeStats, GroupKernel, GroupStats, MedianPick, PercentilePick, StatsCalculator,
    SummaryNumerics,
};
use chartify::table::{DataProcessor, SampleRow};

fn bits(x: f64) -> u64 {
    x.to_bits()
}

fn from_bits(b: u64) -> f64 {
    f64::from_bits(b)
}

fn bits_vec(xs: &[f64]) -> Vec<u64> {
    xs.iter().map(|x| x.to_bits()).collect()
}

fn dummy_numerics() -> SummaryNumerics {
    SummaryNumerics {
        mean: bits(123.0),
        median_even: bits(456.0),
        variance: bits(789.0),
        std: bits(101.0),
        p95: bits(202.0),
        p05: bits(303.0),
    }
}

fn percentile_value(sorted: &[f64], p: u8) -> f64 {
    let v = bits_vec(sorted);
    match StatsCalculator::percentile(&v, p) {
        PercentilePick::Empty => f64::NAN,
        PercentilePick::Exact { value } => from_bits(value),
        PercentilePick::Interp {
            lower,
            upper,
            frac_hundredths,
        } => {
            let frac = frac_hundredths as f64 / 100.0;
            from_bits(lower) * (1.0 - frac) + from_bits(upper) * frac
        }
    }
}

#[test]
fn percentile_median_of_four_interpolates() {
    assert_eq!(percentile_value(&[1.0, 2.0, 3.0, 4.0], 50), 2.5);
}

#[test]
fn percentile_median_of_three_is_middle() {
    assert_eq!(percentile_value(&[1.0, 2.0, 3.0], 50), 2.0);
}

#[test]
fn percentile_extremes_select_ends() {
    assert_eq!(percentile_value(&[1.0, 2.0, 3.0], 0), 1.0);
    assert_eq!(percentile_value(&[1.0, 2.0, 3.0], 100), 3.0);
}

#[test]
fn percentile_of_empty_is_empty() {
    let v: Vec<u64> = Vec::new();
    assert!(matches!(
        StatsCalculator::percentile(&v, 95),
        PercentilePick::Empty
    ));
}

#[test]
fn percentile_of_single_is_that_value() {
    let v = bits_vec(&[7.5]);
    match StatsCalculator::percentile(&v, 95) {
        PercentilePick::Exact { value } => assert_eq!(from_bits(value), 7.5),
        _ => panic!("expected the single element"),
    }
}

#[test]
fn median_pick_even_and_odd() {
    let odd = bits_vec(&[1.0, 2.0, 3.0]);
    match StatsCalculator::median_pick(&odd) {
        MedianPick::Exact { value } => assert_eq!(from_bits(value), 2.0),
        _ => panic!("expected the middle element"),
    }
    let even = bits_vec(&[1.0, 2.0, 3.0, 4.0]);
    match StatsCalculator::median_pick(&even) {
        MedianPick::Pair { lower, upper } => {
            assert_eq!(from_bits(lower), 2.0);
            assert_eq!(from_bits(upper), 3.0);
        }
        _ => panic!("expected the two middle elements"),
    }
}

#[test]
fn descriptive_stats_single_value() {
    let sorted = bits_vec(&[5.0]);
    let gs = StatsCalculator::compute_descriptive_stats(&sorted, &dummy_numerics());
    assert_eq!(gs.count, 1);
    assert_eq!(from_bits(gs.mean), 5.0);
    assert_eq!(from_bits(gs.median), 5.0);
    assert_eq!(from_bits(gs.std), 0.0);
    assert_eq!(from_bits(gs.variance), 0.0);
    assert_eq!(from_bits(gs.p95), 5.0);
    assert_eq!(from_bits(gs.p05), 5.0);
    assert!(gs.p_value.is_none());
    assert!(!gs.is_significant);
}

#[test]
fn descriptive_stats_empty_is_all_nan() {
    let sorted: Vec<u64> = Vec::new();
    let gs = StatsCalculator::compute_descriptive_stats(&sorted, &dummy_numerics());
    assert_eq!(gs.count, 0);
    assert!(from_bits(gs.mean).is_nan());
    assert!(from_bits(gs.median).is_nan());
    assert!(from_bits(gs.std).is_nan());
    assert!(from_bits(gs.variance).is_nan());
    assert!(from_bits(gs.p95).is_nan());
    assert!(from_bits(gs.p05).is_nan());
}

#[test]
fn descriptive_stats_odd_median_ignores_kernel() {
    let sorted = bits_vec(&[1.0, 2.0, 9.0]);
    let gs = StatsCalculator::compute_descriptive_stats(&sorted, &dummy_numerics());
    assert_eq!(gs.count, 3);
    assert_eq!(from_bits(gs.median), 2.0);
    // The mean and variance of a larger sample come from the kernel.
    assert_eq!(from_bits(gs.mean), 123.0);
    assert_eq!(from_bits(gs.variance), 789.0);
}

#[test]
fn default_group_stats_is_empty_record() {
    let gs = GroupStats::default();
    assert_eq!(gs.count, 0);
    assert_eq!(gs.mean, NAN_BITS);
    assert!(gs.p_value.is_none());
    assert!(!gs.is_significant);
}

#[test]
fn ttest_zero_se_is_exactly_one_and_insignificant() {
    // sample = [3,3,3] against control = [3,3,3]: both variances are zero,
    // so the standard error is exactly zero.
    let sample = [3.0f64, 3.0, 3.0];
    let control = [3.0f64, 3.0, 3.0];
    let mean = |v: &[f64]| v.iter().sum::<f64>() / v.len() as f64;
    let var = |v: &[f64], m: f64| {
        v.iter().map(|x| (x - m).powi(2)).sum::<f64>() / (v.len() as f64 - 1.0)
    };
    let m1 = mean(&sample);
    let m2 = mean(&control);
    let se = (var(&sample, m1) / 3.0 + var(&control, m2) / 3.0).sqrt();
    let (p, sig) = StatsCalculator::ttest_verdict(3, 3, se.to_bits(), None);
    assert_eq!(p, ONE_BITS);
    assert_eq!(from_bits(p), 1.0);
    assert!(!sig);
}

#[test]
fn ttest_small_samples_yield_nan() {
    let (p, sig) = StatsCalculator::ttest_verdict(1, 30, bits(1.0), Some(bits(0.001)));
    assert_eq!(p, NAN_BITS);
    assert!(!sig);
}

#[test]
fn ttest_threshold_is_five_percent() {
    let (p, sig) = StatsCalculator::ttest_verdict(5, 5, bits(1.0), Some(bits(0.04)));
    assert_eq!(from_bits(p), 0.04);
    assert!(sig);
    let (_, sig2) = StatsCalculator::ttest_verdict(5, 5, bits(1.0), Some(bits(0.05)));
    assert!(sig2);
    let (_, sig3) = StatsCalculator::ttest_verdict(5, 5, bits(1.0), Some(bits(0.0500001)));
    assert!(!sig3);
    let (p4, sig4) = StatsCalculator::ttest_verdict(5, 5, bits(1.0), Some(f64::NAN.to_bits()));
    assert!(from_bits(p4).is_nan());
    assert!(!sig4);
}

#[test]
fn ttest_identical_samples_p_is_one() {
    // Identically distributed samples with positive spread: the mean
    // difference is zero, so the two-tailed p-value is exactly one.
    let sample: Vec<f64> = (0..100).map(|i| i as f64).collect();
    let control = sample.clone();
    let n = sample.len() as f64;
    let mean = sample.iter().sum::<f64>() / n;
    let var = sample.iter().map(|x| (x - mean).powi(2)).sum::<f64>() / (n - 1.0);
    let se = (var / n + var / n).sqrt();
    assert!(se > 0.0);
    let t: f64 = 0.0;
    let df = (var / n + var / n).powi(2)
        / ((var / n).powi(2) / (n - 1.0) + (var / n).powi(2) / (n - 1.0));
    let p_raw = {
        let dist = statrs::distribution::StudentsT::new(0.0, 1.0, df).unwrap();
        2.0 * (1.0 - dist.cdf(t.abs()))
    };
    let (p, sig) = StatsCalculator::ttest_verdict(
        sample.len(),
        control.len(),
        se.to_bits(),
        Some(p_raw.to_bits()),
    );
    assert_eq!(from_bits(p), 1.0);
    assert!(!sig);
}

fn named(name: &str, significant: bool) -> GroupStats {
    let mut gs = GroupStats::default();
    gs.group_name = name.to_string();
    gs.is_significant = significant;
    if significant {
        gs.p_value = Some((0.01f64).to_bits());
    }
    gs
}

#[test]
fn ordered_groups_control_first_rest_sorted() {
    let stats = DataTypeStats {
        data_type: "m".to_string(),
        control_group: "Control".to_string(),
        group_stats: vec![named("Control", false), named("B", false), named("A", false)],
    };
    let ordered = stats.get_ordered_groups();
    assert_eq!(ordered, vec!["Control", "A", "B"]);
}

#[test]
fn significance_ignores_control_flag() {
    let mut control = named("Control", false);
    control.is_significant = true; // a control record is never counted
    let stats = DataTypeStats {
        data_type: "m".to_string(),
        control_group: "Control".to_string(),
        group_stats: vec![control, named("A", false)],
    };
    assert!(!stats.has_significant_results());
}

#[test]
fn significance_sees_non_control_flag() {
    let stats = DataTypeStats {
        data_type: "m".to_string(),
        control_group: "Control".to_string(),
        group_stats: vec![named("Control", false), named("A", true)],
    };
    assert!(stats.has_significant_results());
}

fn sample_rows() -> Vec<SampleRow> {
    let mut rows = Vec::new();
    for (g, d, v) in [
        ("Control", "mass", 1.0),
        ("Control", "mass", 2.0),
        ("Control", "mass", 3.0),
        ("Treated", "mass", 4.0),
        ("Treated", "mass", 5.0),
        ("Treated", "mass", 7.0),
    ] {
        rows.push(SampleRow {
            group: g.to_string(),
            data_type: d.to_string(),
            value_bits: (v as f64).to_bits(),
        });
    }
    rows
}

fn kernel_for(values: &[f64], control: &[f64]) -> GroupKernel {
    let n = values.len() as f64;
    let mean = values.iter().sum::<f64>() / n;
    let mut sorted = values.to_vec();
    sorted.sort_by(|a, b| a.partial_cmp(b).unwrap());
    let variance = if values.len() > 1 {
        values.iter().map(|x| (x - mean).powi(2)).sum::<f64>() / (n - 1.0)
    } else {
        0.0
    };
    let std = variance.sqrt();
    let cn = control.len() as f64;
    let cmean = control.iter().sum::<f64>() / cn;
    let cvar = control.iter().map(|x| (x - cmean).powi(2)).sum::<f64>() / (cn - 1.0);
    let cstd = cvar.sqrt();
    let se = (variance / n + cvar / cn).sqrt();
    let df = (variance / n + cvar / cn).powi(2)
        / ((variance / n).powi(2) / (n - 1.0) + (cvar / cn).powi(2) / (cn - 1.0));
    let p_raw = statrs::distribution::StudentsT::new(0.0, 1.0, df)
        .ok()
        .map(|d| {
            let t = (mean - cmean) / se;
            (2.0 * (1.0 - d.cdf(t.abs()))).to_bits()
        });
    GroupKernel {
        numerics: SummaryNumerics {
            mean: mean.to_bits(),
            median_even: 0,
            variance: variance.to_bits(),
            std: std.to_bits(),
            p95: 0,
            p05: 0,
        },
        se: se.to_bits(),
        p_raw,
        std_diff: ((mean - cmean) / cstd).to_bits(),
    }
}

fn run_pipeline() -> DataTypeStats {
    let table = DataProcessor::prepare_data(&sample_rows());
    let control_values: Vec<f64> = table
        .values_for_group("Control")
        .iter()
        .map(|b| f64::from_bits(*b))
        .collect();
    let treated_values: Vec<f64> = table
        .values_for_group("Treated")
        .iter()
        .map(|b| f64::from_bits(*b))
        .collect();
    let cn = control_values.len() as f64;
    let cmean = control_values.iter().sum::<f64>() / cn;
    let cvar = control_values
        .iter()
        .map(|x| (x - cmean).powi(2))
        .sum::<f64>()
        / (cn - 1.0);
    let control_numerics = SummaryNumerics {
        mean: cmean.to_bits(),
        median_even: 0,
        variance: cvar.to_bits(),
        std: cvar.sqrt().to_bits(),
        p95: 0,
        p05: 0,
    };
    let groups = vec!["Treated".to_string()];
    let kernels = vec![kernel_for(&treated_values, &control_values)];
    StatsCalculator::compute_data_type_stats(
        &table,
        "mass".to_string(),
        "Control".to_string(),
        &control_numerics,
        &groups,
        &kernels,
    )
}

#[test]
fn data_type_stats_pipeline_shape() {
    let stats = run_pipeline();
    assert_eq!(stats.data_type, "mass");
    assert_eq!(stats.control_group, "Control");
    assert_eq!(stats.group_stats.len(), 2);
    let control = &stats.group_stats[0];
    assert_eq!(control.group_name, "Control");
    assert_eq!(control.count, 3);
    assert_eq!(from_bits(control.mean), 2.0);
    assert_eq!(from_bits(control.median), 2.0);
    assert!(control.p_value.is_none());
    assert!(!control.is_significant);
    let treated = &stats.group_stats[1];
    assert_eq!(treated.group_name, "Treated");
    assert_eq!(treated.count, 3);
    assert!(treated.p_value.is_some());
    assert!(treated.std_diff_from_control.is_some());
}

#[test]
fn data_type_stats_recomputation_is_bit_identical() {
    let a = run_pipeline();
    let b = run_pipeline();
    assert_eq!(a.group_stats.len(), b.group_stats.len());
    for (x, y) in a.group_stats.iter().zip(b.group_stats.iter()) {
        assert_eq!(x.group_name, y.group_name);
        assert_eq!(x.count, y.count);
        assert_eq!(x.mean, y.mean);
        assert_eq!(x.median, y.median);
        assert_eq!(x.std, y.std);
        assert_eq!(x.variance, y.variance);
        assert_eq!(x.p95, y.p95);
        assert_eq!(x.p05, y.p05);
        assert_eq!(x.std_diff_from_control, y.std_diff_from_control);
        assert_eq!(x.p_value, y.p_value);
        assert_eq!(x.is_significant, y.is_significant);
    }
}

#[test]
fn zero_bits_and_one_bits_denote_zero_and_one() {
    assert_eq!(f64::from_bits(ZERO_BITS), 0.0);
    assert_eq!(f64::from_bits(ONE_BITS), 1.0);
    assert!(f64::from_bits(NAN_BITS).is_nan());
}

#[test]
fn missing_control_group_skips_all_tests() {
    // The chosen control matches no group: its record is the empty one and
    // no group gets a p-value or a standardised difference.
    let rows = vec![
        SampleRow {
            group: "A".to_string(),
            data_type: "m".to_string(),
            value_bits: (1.0f64).to_bits(),
        },
        SampleRow {
            group: "A".to_string(),
            data_type: "m".to_string(),
            value_bits: (2.0f64).to_bits(),
        },
        SampleRow {
            group: "B".to_string(),
            data_type: "m".to_string(),
            value_bits: (5.0f64).to_bits(),
        },
    ];
    let table = DataProcessor::prepare_data(&rows);
    let control_numerics = SummaryNumerics {
        mean: f64::NAN.to_bits(),
        median_even: f64::NAN.to_bits(),
        variance: f64::NAN.to_bits(),
        std: f64::NAN.to_bits(),
        p95: f64::NAN.to_bits(),
        p05: f64::NAN.to_bits(),
    };
    let groups = vec!["A".to_string(), "B".to_string()];
    let kernels = vec![
        kernel_for(&[1.0, 2.0], &[0.0, 0.0]),
        kernel_for(&[5.0], &[0.0, 0.0]),
    ];
    let stats = StatsCalculator::compute_data_type_stats(
        &table,
        "m".to_string(),
        "Control".to_string(),
        &control_numerics,
        &groups,
        &kernels,
    );
    assert_eq!(stats.group_stats.len(), 3);
    let control = &stats.group_stats[0];
    assert_eq!(control.group_name, "Control");
    assert_eq!(control.count, 0);
    assert!(f64::from_bits(control.mean).is_nan());
    for gs in &stats.group_stats[1..] {
        assert!(gs.p_value.is_none());
        assert!(!gs.is_significant);
    }
    assert!(!stats.has_significant_results());
}

#[test]
fn ordered_groups_of_empty_stats_is_empty() {
    let stats = DataTypeStats {
        data_type: "m".to_string(),
        control_group: "Control".to_string(),
        group_stats: Vec::new(),
    };
    assert!(stats.get_ordered_groups().is_empty());
    assert!(!stats.has_significant_results());
}
