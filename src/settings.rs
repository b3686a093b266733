//! The run's settings and the names of each dataset's files.
use vstd::prelude::*;

verus! {

/// The column-order tokens and the names of the datasets to process.
#[derive(Debug)]
pub struct FitykSettings {
    pub columns: Vec<String>,
    pub filenames: Vec<String>,
}

/// The folders inputs are read from and outputs written to; `None` stands
/// for the working directory.
#[derive(Debug)]
pub struct FolderOptions {
    pub read: Option<String>,
    pub write: Option<String>,
}

#[derive(Debug)]
pub struct AppOptions {
    pub folder: FolderOptions,
    /// Whether the fit table is also written as a delimited file.
    pub create_csv: bool,
}

#[derive(Debug)]
pub struct Settings {
    pub settings: FitykSettings,
    pub options: AppOptions,
}

/// The file of a dataset's peaks table.
pub fn peaks_file_name(dataset: &str) -> (r: String)
    ensures
        r@ == dataset@ + ".peaks"@,
{
    dataset.to_owned().concat(".peaks")
}

/// The file of a dataset's fit table.
pub fn fit_file_name(dataset: &str) -> (r: String)
    ensures
        r@ == dataset@ + ".dat"@,
{
    dataset.to_owned().concat(".dat")
}

/// The spreadsheet written for a dataset.
pub fn workbook_file_name(dataset: &str) -> (r: String)
    ensures
        r@ == dataset@ + ".xlsx"@,
{
    dataset.to_owned().concat(".xlsx")
}

/// The delimited file written for a dataset: its name with a prefix.
pub fn csv_file_name(dataset: &str) -> (r: String)
    ensures
        r@ == "CSV_"@ + dataset@ + ".csv"@,
{
    "CSV_".to_owned().concat(dataset).concat(".csv")
}

} // verus!
