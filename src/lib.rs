//! Column reconciliation for peak-fitting output tables and the layout of
//! such tables on spreadsheet sheets.
pub mod table;
pub mod reconcile;
pub mod options;
pub mod sheet;
pub mod workbook;
pub mod settings;
