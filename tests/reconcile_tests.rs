use fityk_sort::reconcile::{
    reconcile, rename_columns, resolve_tokens, select_columns, ReconcileError, ALL_COMPONENTS,
};
use fityk_sort::table::{Cell, Column, Table};

fn strings(v: &[&str]) -> Vec<String> {
    v.iter().map(|s| s.to_string()).collect()
}

fn fit_table(n: usize) -> Table {
    let columns = (1..=n)
        .map(|i| Column {
            name: format!("column_{}", i),
            cells: vec![Cell::Int64(i as i64), Cell::Int64(10 * i as i64)],
        })
        .collect();
    Table::from_columns(columns).unwrap()
}

fn names(t: &Table) -> Vec<String> {
    t.columns.iter().map(|c| c.name.clone()).collect()
}

#[test]
fn wildcard_resolves_to_row_order_and_sorted_order() {
    let tokens = strings(&[ALL_COMPONENTS]);
    let label_order = strings(&["12.3", "5.1", "8.0"]);
    let sorted = strings(&["5.1", "8.0", "12.3"]);
    assert_eq!(resolve_tokens(&tokens, &label_order), strings(&["12.3", "5.1", "8.0"]));
    assert_eq!(resolve_tokens(&tokens, &sorted), strings(&["5.1", "8.0", "12.3"]));
}

#[test]
fn wildcard_example_reorders_columns() {
    let tokens = strings(&[ALL_COMPONENTS]);
    let label_order = strings(&["12.3", "5.1", "8.0"]);
    let sorted = strings(&["5.1", "8.0", "12.3"]);
    let out = reconcile(&fit_table(3), &tokens, &label_order, &sorted).unwrap();
    assert_eq!(names(&out), strings(&["5.1", "8.0", "12.3"]));
    assert_eq!(out.columns[0].cells, vec![Cell::Int64(2), Cell::Int64(20)]);
    assert_eq!(out.columns[1].cells, vec![Cell::Int64(3), Cell::Int64(30)]);
    assert_eq!(out.columns[2].cells, vec![Cell::Int64(1), Cell::Int64(10)]);
}

#[test]
fn literal_and_wildcard_with_four_columns() {
    let tokens = strings(&["Background", ALL_COMPONENTS]);
    let label_order = strings(&["12.3", "5.1", "8.0"]);
    let sorted = strings(&["5.1", "8.0", "12.3"]);
    let out = reconcile(&fit_table(4), &tokens, &label_order, &sorted).unwrap();
    assert_eq!(names(&out), strings(&["Background", "5.1", "8.0", "12.3"]));
    assert_eq!(out.columns[0].cells, vec![Cell::Int64(1), Cell::Int64(10)]);
    assert_eq!(out.columns[3].cells, vec![Cell::Int64(2), Cell::Int64(20)]);
}

#[test]
fn count_mismatch_three_columns() {
    let tokens = strings(&["Background", ALL_COMPONENTS]);
    let label_order = strings(&["12.3", "5.1", "8.0"]);
    let sorted = strings(&["5.1", "8.0", "12.3"]);
    let r = reconcile(&fit_table(3), &tokens, &label_order, &sorted);
    assert_eq!(r.unwrap_err(), ReconcileError::CountMismatch { columns: 3, names: 4 });
}

#[test]
fn count_mismatch_five_columns() {
    let tokens = strings(&["Background", ALL_COMPONENTS]);
    let label_order = strings(&["12.3", "5.1", "8.0"]);
    let sorted = strings(&["5.1", "8.0", "12.3"]);
    let fit = fit_table(5);
    let r = reconcile(&fit, &tokens, &label_order, &sorted);
    assert_eq!(r.unwrap_err(), ReconcileError::CountMismatch { columns: 5, names: 4 });
    assert_eq!(names(&fit)[0], "column_1");
}

#[test]
fn wildcard_twice_expands_twice() {
    let tokens = strings(&[ALL_COMPONENTS, "x", ALL_COMPONENTS]);
    let labels = strings(&["a", "b"]);
    assert_eq!(resolve_tokens(&tokens, &labels), strings(&["a", "b", "x", "a", "b"]));
}

#[test]
fn duplicate_labels_fail() {
    let tokens = strings(&[ALL_COMPONENTS]);
    let labels = strings(&["1.0", "1.0"]);
    let r = reconcile(&fit_table(2), &tokens, &labels, &labels);
    assert_eq!(r.unwrap_err(), ReconcileError::DuplicateName("1.0".to_string()));
}

#[test]
fn unknown_selected_name_fails() {
    let t = fit_table(2);
    let renamed = rename_columns(&t, &strings(&["a", "b"])).unwrap();
    let r = select_columns(&renamed, &strings(&["b", "c"]));
    assert_eq!(r.unwrap_err(), ReconcileError::UnknownColumn("c".to_string()));
}

#[test]
fn duplicate_selected_name_fails() {
    let t = fit_table(2);
    let renamed = rename_columns(&t, &strings(&["a", "b"])).unwrap();
    let r = select_columns(&renamed, &strings(&["a", "a"]));
    assert_eq!(r.unwrap_err(), ReconcileError::DuplicateName("a".to_string()));
}

#[test]
fn cells_are_kept_by_reconciliation() {
    let tokens = strings(&["bg", ALL_COMPONENTS]);
    let label_order = strings(&["3", "1", "2"]);
    let sorted = strings(&["1", "2", "3"]);
    let fit = fit_table(4);
    let out = reconcile(&fit, &tokens, &label_order, &sorted).unwrap();
    for col in &out.columns {
        let source = match col.name.as_str() {
            "bg" => 0,
            "3" => 1,
            "1" => 2,
            _ => 3,
        };
        assert_eq!(col.cells, fit.columns[source].cells);
    }
}

#[test]
fn empty_tokens_and_empty_table() {
    let out = reconcile(&fit_table(0), &vec![], &vec![], &vec![]).unwrap();
    assert!(out.columns.is_empty());
}

#[test]
fn unequal_columns_are_refused() {
    let columns = vec![
        Column { name: "a".to_string(), cells: vec![Cell::Null] },
        Column { name: "b".to_string(), cells: vec![] },
    ];
    assert!(Table::from_columns(columns).is_none());
}
