use fityk_sort::options::{RegionStyle, TableRegion, WriterOptions};
use fityk_sort::settings::{csv_file_name, fit_file_name, peaks_file_name, workbook_file_name};
use fityk_sort::sheet::{cell_value, plan_sheet, RegionBounds, SheetError, SheetValue};
use fityk_sort::table::{Cell, Column, Table};
use fityk_sort::workbook::{plan_workbook, process_dataset, DatasetError, FIT_SHEET, PEAKS_SHEET};

fn center_label_table() -> Table {
    Table::from_columns(vec![
        Column {
            name: "Center".to_string(),
            cells: vec![Cell::Float64(1.0f64.to_bits()), Cell::Float64(2.0f64.to_bits())],
        },
        Column {
            name: "Label".to_string(),
            cells: vec![Cell::Str("a".to_string()), Cell::Null],
        },
    ])
    .unwrap()
}

#[test]
fn null_without_placeholder_is_empty() {
    let t = center_label_table();
    let p = plan_sheet(&t, 0, 0, &WriterOptions::new()).unwrap();
    assert_eq!(p.header_row, Some(0));
    assert_eq!(p.headers, vec!["Center".to_string(), "Label".to_string()]);
    // Row 2 of the "Label" column holds nothing.
    assert!(p.columns[1][1].is_none());
    assert_eq!(p.cell_position(1, 1), Some((2, 1)));
    assert!(matches!(&p.columns[1][0], Some(SheetValue::Text(s)) if s == "a"));
    assert!(matches!(p.columns[0][1], Some(SheetValue::Float64(b)) if f64::from_bits(b) == 2.0));
}

#[test]
fn null_with_placeholder_is_text() {
    let t = center_label_table();
    let o = WriterOptions::new().with_null_string(Some("NA".to_string()));
    let p = plan_sheet(&t, 0, 0, &o).unwrap();
    assert!(matches!(&p.columns[1][1], Some(SheetValue::Text(s)) if s == "NA"));
}

#[test]
fn every_supported_kind_reads_back() {
    let cells = vec![
        Cell::Int8(-3),
        Cell::UInt8(200),
        Cell::Int16(-30000),
        Cell::UInt16(60000),
        Cell::Int32(-7),
        Cell::UInt32(4_000_000_000),
        Cell::Int64(-9_000_000_000),
        Cell::UInt64(18_000_000_000_000_000_000),
        Cell::Float32(1.5f32.to_bits()),
        Cell::Float64(0.25f64.to_bits()),
        Cell::Str("peak".to_string()),
        Cell::Bool(true),
    ];
    let expected = vec![
        SheetValue::Number(-3),
        SheetValue::Number(200),
        SheetValue::Number(-30000),
        SheetValue::Number(60000),
        SheetValue::Number(-7),
        SheetValue::Number(4_000_000_000),
        SheetValue::Number(-9_000_000_000),
        SheetValue::UnsignedNumber(18_000_000_000_000_000_000),
        SheetValue::Float32(1.5f32.to_bits()),
        SheetValue::Float64(0.25f64.to_bits()),
        SheetValue::Text("peak".to_string()),
        SheetValue::Bool(true),
    ];
    for (c, e) in cells.iter().zip(expected.iter()) {
        let v = cell_value(c, &None).unwrap().unwrap();
        assert_eq!(format!("{:?}", v), format!("{:?}", e));
    }
}

#[test]
fn unsupported_kind_is_an_error() {
    let t = Table::from_columns(vec![Column {
        name: "d".to_string(),
        cells: vec![Cell::Int32(1), Cell::Other("date".to_string())],
    }])
    .unwrap();
    let r = plan_sheet(&t, 0, 0, &WriterOptions::new());
    assert_eq!(r.unwrap_err(), SheetError::UnsupportedType("date".to_string()));
}

#[test]
fn region_bounds_with_header() {
    let t = center_label_table();
    let p = plan_sheet(&t, 3, 2, &WriterOptions::new()).unwrap();
    assert_eq!(
        p.region,
        Some(RegionBounds {
            first_row: 3,
            first_col: 2,
            last_row: 5,
            last_col: 3,
            region: TableRegion::new()
        })
    );
    assert_eq!(p.first_data_row, 4);
    assert_eq!(p.first_col, 2);
}

#[test]
fn region_bounds_without_header_with_total() {
    let t = center_label_table();
    let region = TableRegion { header_row: false, total_row: true, style: RegionStyle::Light(1) };
    let o = WriterOptions::new().with_table(Some(region));
    let p = plan_sheet(&t, 0, 0, &o).unwrap();
    assert_eq!(p.header_row, None);
    assert_eq!(p.first_data_row, 0);
    assert_eq!(p.region.unwrap().last_row, 2);
    assert_eq!(p.region.unwrap().last_col, 1);
}

#[test]
fn no_region_means_header_and_no_bounds() {
    let t = center_label_table();
    let o = WriterOptions::new().with_table(None).with_zoom(150).with_freeze_cell((1, 0));
    let p = plan_sheet(&t, 0, 0, &o).unwrap();
    assert_eq!(p.header_row, Some(0));
    assert!(p.region.is_none());
    assert_eq!(p.zoom, 150);
    assert_eq!(p.freeze_cell, (1, 0));
}

#[test]
fn empty_region_is_an_error() {
    let t = Table::from_columns(vec![]).unwrap();
    assert_eq!(plan_sheet(&t, 0, 0, &WriterOptions::new()).unwrap_err(), SheetError::EmptyRegion);
    let t = Table::from_columns(vec![Column { name: "a".to_string(), cells: vec![] }]).unwrap();
    let region = TableRegion { header_row: false, total_row: false, style: RegionStyle::Plain };
    let o = WriterOptions::new().with_table(Some(region));
    assert_eq!(plan_sheet(&t, 0, 0, &o).unwrap_err(), SheetError::EmptyRegion);
}

#[test]
fn out_of_range_is_an_error() {
    let t = center_label_table();
    let r = plan_sheet(&t, u32::MAX - 1, 0, &WriterOptions::new());
    assert_eq!(r.unwrap_err(), SheetError::OutOfRange);
    let r = plan_sheet(&t, 0, u16::MAX - 1, &WriterOptions::new());
    assert_eq!(r.unwrap_err(), SheetError::OutOfRange);
}

#[test]
fn defaults_are_documented() {
    let o = WriterOptions::default();
    assert!(o.use_autofit);
    assert!(o.null_string.is_none());
    assert_eq!(o.zoom, 100);
    assert!(o.screen_gridlines);
    assert_eq!(o.freeze_cell, (0, 0));
    assert_eq!(o.top_cell, (0, 0));
    assert_eq!(o.table, Some(TableRegion::new()));
    let o = o.with_set_table_style(RegionStyle::Dark(2));
    assert_eq!(o.table.unwrap().style, RegionStyle::Dark(2));
}

#[test]
fn workbook_has_two_sheets_in_order() {
    let peaks = center_label_table();
    let fit = center_label_table();
    let sheets = plan_workbook(&peaks, &fit).unwrap();
    assert_eq!(sheets.len(), 2);
    assert_eq!(sheets[0].name, PEAKS_SHEET);
    assert_eq!(sheets[1].name, FIT_SHEET);
    assert_eq!(sheets[0].name, "PeaksData");
    assert_eq!(sheets[1].name, "FitData");
    assert_eq!(sheets[0].plan.region.unwrap().region.style, RegionStyle::Plain);
    assert!(sheets[1].plan.region.is_none());
}

#[test]
fn dataset_reports_reconcile_error() {
    let peaks = center_label_table();
    let fit = center_label_table();
    let tokens = vec!["a".to_string()];
    let r = process_dataset(&peaks, &fit, &tokens, &vec![], &vec![]);
    assert!(matches!(r, Err(DatasetError::Reconcile(_))));
}

#[test]
fn file_names() {
    assert_eq!(peaks_file_name("s1"), "s1.peaks");
    assert_eq!(fit_file_name("s1"), "s1.dat");
    assert_eq!(workbook_file_name("s1"), "s1.xlsx");
    assert_eq!(csv_file_name("s1"), "CSV_s1.csv");
}

fn fit_with(cells: Vec<Cell>) -> Table {
    Table::from_columns(vec![
        Column { name: "column_1".to_string(), cells: vec![Cell::Int64(1), Cell::Int64(2)] },
        Column { name: "column_2".to_string(), cells },
    ])
    .unwrap()
}

#[test]
fn dataset_produces_reconciled_table_and_sheets() {
    let peaks = center_label_table();
    let fit = fit_with(vec![Cell::Float64(0.5f64.to_bits()), Cell::Null]);
    let tokens = vec!["Background".to_string(), fityk_sort::reconcile::ALL_COMPONENTS.to_string()];
    let labels = vec!["1.5".to_string()];
    let (out, sheets) = process_dataset(&peaks, &fit, &tokens, &labels, &labels).unwrap();
    assert_eq!(out.columns[0].name, "Background");
    assert_eq!(out.columns[1].name, "1.5");
    assert_eq!(sheets[1].plan.headers, vec!["Background".to_string(), "1.5".to_string()]);
    assert!(sheets[1].plan.columns[1][1].is_none());
    assert_eq!(sheets[1].plan.first_data_row, 1);
}

#[test]
fn dataset_reports_sheet_error() {
    let peaks = center_label_table();
    let fit = fit_with(vec![Cell::Other("list".to_string()), Cell::Null]);
    let tokens = vec!["a".to_string(), "b".to_string()];
    let r = process_dataset(&peaks, &fit, &tokens, &tokens, &tokens);
    assert_eq!(
        r.unwrap_err(),
        DatasetError::Sheet(SheetError::UnsupportedType("list".to_string()))
    );
}
