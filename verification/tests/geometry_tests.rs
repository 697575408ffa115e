use chartify::fbits::{float_is_finite, float_is_nan, float_le, float_lt, sort_floats};
use chartify::geometry::ChartPlotter;

fn bits_vec(xs: &[f64]) -> Vec<u64> {
    xs.iter().map(|x| x.to_bits()).collect()
}

fn from_bits(b: u64) -> f64 {
    f64::from_bits(b)
}

#[test]
fn box_plot_quartiles_use_index_convention() {
    // n = 8: q1 = sorted[2], median = sorted[4], q3 = sorted[6].
    let sorted = bits_vec(&[1.0, 2.0, 3.0, 4.0, 5.0, 6.0, 7.0, 8.0]);
    let (q1, median, q3) = ChartPlotter::box_plot_quartiles(&sorted);
    assert_eq!(from_bits(q1), 3.0);
    assert_eq!(from_bits(median), 5.0);
    assert_eq!(from_bits(q3), 7.0);
}

#[test]
fn box_plot_single_sample_collapses() {
    let sorted = bits_vec(&[4.25]);
    let (q1, median, q3) = ChartPlotter::box_plot_quartiles(&sorted);
    assert_eq!(from_bits(q1), 4.25);
    assert_eq!(from_bits(median), 4.25);
    assert_eq!(from_bits(q3), 4.25);
}

#[test]
fn whiskers_clip_outliers() {
    let values = [1.0f64, 2.0, 3.0, 4.0, 100.0];
    let sorted = bits_vec(&values);
    let (q1b, _m, q3b) = ChartPlotter::box_plot_quartiles(&sorted);
    let (q1, q3) = (from_bits(q1b), from_bits(q3b));
    let iqr = q3 - q1;
    let fence_low = q1 - 1.5 * iqr;
    let fence_high = q3 + 1.5 * iqr;
    let (lo, hi) = ChartPlotter::whiskers(
        &sorted,
        fence_low.to_bits(),
        fence_high.to_bits(),
        q1b,
        q3b,
    );
    assert_eq!(from_bits(lo), 1.0);
    assert_eq!(from_bits(hi), 4.0);
}

#[test]
fn whiskers_fall_back_to_quartiles() {
    let sorted = bits_vec(&[1.0, 2.0, 3.0]);
    let (q1b, _m, q3b) = ChartPlotter::box_plot_quartiles(&sorted);
    // Fences no sample satisfies: low above all, high below all.
    let (lo, hi) = ChartPlotter::whiskers(
        &sorted,
        (100.0f64).to_bits(),
        (-100.0f64).to_bits(),
        q1b,
        q3b,
    );
    assert_eq!(lo, q1b);
    assert_eq!(hi, q3b);
}

fn keys_of(values: &[f64]) -> Vec<i64> {
    values.iter().map(|y| (y * 1e6).round() as i64).collect()
}

#[test]
fn beeswarm_three_duplicates_spread_symmetrically() {
    // Three equal values at centre 0 and width 0.6 spread to -0.3, 0, 0.3.
    let offsets = ChartPlotter::beeswarm_offsets(&keys_of(&[5.0, 5.0, 5.0]));
    let center = 0.0;
    let width = 0.6;
    let positions: Vec<f64> = offsets
        .iter()
        .map(|(num, den)| center + width * (*num as f64) / (*den as f64))
        .collect();
    assert_eq!(positions, vec![-0.3, 0.0, 0.3]);
    // Symmetric about the centre and evenly spaced.
    assert_eq!(positions[0] + positions[2], 0.0);
    assert_eq!(positions[1] - positions[0], positions[2] - positions[1]);
    for p in &positions {
        assert!(-0.3 <= *p && *p <= 0.3);
    }
}

#[test]
fn beeswarm_singletons_stay_at_centre() {
    let offsets = ChartPlotter::beeswarm_offsets(&keys_of(&[1.0, 2.0, 3.0]));
    assert_eq!(offsets, vec![(0, 1), (0, 1), (0, 1)]);
}

#[test]
fn beeswarm_mixed_clusters() {
    let offsets = ChartPlotter::beeswarm_offsets(&keys_of(&[7.0, 1.0, 7.0]));
    // The two 7.0 points form a pair: slots 0 and 1 of 2, offsets -1/2 and
    // +1/2 of the width; the singleton stays centred.
    assert_eq!(offsets[0], (-1, 2));
    assert_eq!(offsets[1], (0, 1));
    assert_eq!(offsets[2], (1, 2));
}

#[test]
fn beeswarm_near_duplicates_round_together() {
    // Values equal after rounding at 1e-6 share a cluster.
    let offsets = ChartPlotter::beeswarm_offsets(&keys_of(&[2.0000001, 2.0000002]));
    assert_eq!(offsets.len(), 2);
    assert_eq!(offsets[0], (-1, 2));
    assert_eq!(offsets[1], (1, 2));
}

#[test]
fn qq_positions_use_midpoint_convention() {
    let positions = ChartPlotter::qq_positions(4);
    assert_eq!(positions, vec![(1, 8), (3, 8), (5, 8), (7, 8)]);
    let fractions: Vec<f64> = positions
        .iter()
        .map(|(n, d)| *n as f64 / *d as f64)
        .collect();
    assert_eq!(fractions, vec![0.125, 0.375, 0.625, 0.875]);
}

#[test]
fn qq_single_sample_sits_at_half() {
    let positions = ChartPlotter::qq_positions(1);
    assert_eq!(positions, vec![(1, 2)]);
}

#[test]
fn qq_empty_sample_is_empty() {
    assert!(ChartPlotter::qq_positions(0).is_empty());
}

#[test]
fn group_colors_control_and_cycle() {
    assert_eq!(
        ChartPlotter::get_group_color("Control", "Control", 7),
        (52, 152, 219)
    );
    assert_eq!(
        ChartPlotter::get_group_color("A", "Control", 0),
        (231, 76, 60)
    );
    assert_eq!(
        ChartPlotter::get_group_color("B", "Control", 10),
        (231, 76, 60)
    );
    assert_eq!(
        ChartPlotter::get_group_color("C", "Control", 9),
        (96, 125, 139)
    );
}

#[test]
fn sort_floats_orders_by_value() {
    let v = bits_vec(&[3.5, -1.0, 2.0, -0.0, 0.0, 1e300, -1e300]);
    let sorted = sort_floats(v);
    let back: Vec<f64> = sorted.iter().map(|b| from_bits(*b)).collect();
    let mut expected = vec![3.5, -1.0, 2.0, -0.0, 0.0, 1e300, -1e300];
    expected.sort_by(|a, b| a.partial_cmp(b).unwrap());
    for (x, y) in back.iter().zip(expected.iter()) {
        assert_eq!(*x, *y);
    }
}

#[test]
fn float_comparisons_match_doubles() {
    let samples = [
        -1e308, -5.5, -0.0, 0.0, 1e-300, 0.05, 1.0, 7.25, 1e308, f64::NAN,
    ];
    for a in samples {
        for b in samples {
            assert_eq!(float_le(a.to_bits(), b.to_bits()), a <= b);
            assert_eq!(float_lt(a.to_bits(), b.to_bits()), a < b);
        }
    }
}

#[test]
fn float_classification_matches_doubles() {
    for x in [
        0.0,
        -0.0,
        1.5,
        -2.5,
        f64::INFINITY,
        f64::NEG_INFINITY,
        f64::NAN,
        f64::MIN_POSITIVE,
    ] {
        assert_eq!(float_is_nan(x.to_bits()), x.is_nan());
        assert_eq!(float_is_finite(x.to_bits()), x.is_finite());
    }
}
