use chartify::table::{DataColumn, DataProcessor, SampleRow};

fn row(g: &str, d: &str, v: f64) -> SampleRow {
    SampleRow {
        group: g.to_string(),
        data_type: d.to_string(),
        value_bits: v.to_bits(),
    }
}

#[test]
fn prepare_data_drops_invalid_rows() {
    let rows = vec![
        row("a", "m", 1.0),
        row("a", "m", f64::NAN),
        row("a", "m", f64::INFINITY),
        row("", "m", 2.0),
        row("a", "", 3.0),
        row("b", "m", 4.0),
    ];
    let table = DataProcessor::prepare_data(&rows);
    assert_eq!(table.rows.len(), 2);
    assert_eq!(table.rows[0].group, "a");
    assert_eq!(f64::from_bits(table.rows[0].value_bits), 1.0);
    assert_eq!(table.rows[1].group, "b");
    assert_eq!(f64::from_bits(table.rows[1].value_bits), 4.0);
}

#[test]
fn values_for_group_keeps_row_order() {
    let table = DataProcessor::prepare_data(&vec![
        row("a", "m", 1.0),
        row("b", "m", 2.0),
        row("a", "n", 3.0),
        row("a", "m", 4.0),
    ]);
    let values: Vec<f64> = table
        .values_for_group("a")
        .iter()
        .map(|b| f64::from_bits(*b))
        .collect();
    assert_eq!(values, vec![1.0, 3.0, 4.0]);
}

#[test]
fn values_for_data_type_and_group_filters_both() {
    let table = DataProcessor::prepare_data(&vec![
        row("a", "m", 1.0),
        row("b", "m", 2.0),
        row("a", "n", 3.0),
        row("a", "m", 4.0),
    ]);
    let values: Vec<f64> = table
        .values_for_data_type_and_group("m", "a")
        .iter()
        .map(|b| f64::from_bits(*b))
        .collect();
    assert_eq!(values, vec![1.0, 4.0]);
}

#[test]
fn filter_by_data_type_keeps_matching_rows() {
    let table = DataProcessor::prepare_data(&vec![
        row("a", "m", 1.0),
        row("b", "n", 2.0),
        row("c", "m", 3.0),
    ]);
    let filtered = table.filter_by_data_type("m");
    assert_eq!(filtered.rows.len(), 2);
    assert_eq!(filtered.rows[0].group, "a");
    assert_eq!(filtered.rows[1].group, "c");
}

#[test]
fn unique_groups_sorted_without_duplicates() {
    let table = DataProcessor::prepare_data(&vec![
        row("beta", "m", 1.0),
        row("alpha", "m", 2.0),
        row("beta", "m", 3.0),
        row("gamma", "n", 4.0),
    ]);
    assert_eq!(table.unique_groups(), vec!["alpha", "beta", "gamma"]);
}

#[test]
fn unique_data_types_sorted_without_duplicates() {
    let table = DataProcessor::prepare_data(&vec![
        row("a", "weight", 1.0),
        row("a", "height", 2.0),
        row("b", "weight", 3.0),
    ]);
    assert_eq!(table.unique_data_types(), vec!["height", "weight"]);
}

#[test]
fn stack_to_long_goes_column_by_column() {
    let groups = vec!["a".to_string(), "b".to_string()];
    let cols = vec![
        DataColumn {
            name: "height".to_string(),
            values: vec![Some((1.0f64).to_bits()), None],
        },
        DataColumn {
            name: "weight".to_string(),
            values: vec![Some((2.0f64).to_bits()), Some((3.0f64).to_bits())],
        },
    ];
    let table = DataProcessor::stack_to_long(&groups, &cols);
    let rows: Vec<(String, String, f64)> = table
        .rows
        .iter()
        .map(|r| {
            (
                r.group.clone(),
                r.data_type.clone(),
                f64::from_bits(r.value_bits),
            )
        })
        .collect();
    assert_eq!(
        rows,
        vec![
            ("a".to_string(), "height".to_string(), 1.0),
            ("a".to_string(), "weight".to_string(), 2.0),
            ("b".to_string(), "weight".to_string(), 3.0),
        ]
    );
}

#[test]
fn stack_to_long_filters_invalid_values() {
    let groups = vec!["a".to_string(), "".to_string()];
    let cols = vec![DataColumn {
        name: "m".to_string(),
        values: vec![Some(f64::NAN.to_bits()), Some((4.0f64).to_bits())],
    }];
    // The NaN value and the empty group name are both rejected.
    let table = DataProcessor::stack_to_long(&groups, &cols);
    assert!(table.rows.is_empty());
}
