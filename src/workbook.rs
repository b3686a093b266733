//! One dataset's output: the reconciled fit table and the two sheets of its
//! spreadsheet, plus the names of the files involved.
use vstd::prelude::*;

use crate::options::{RegionStyle, TableRegion, WriterOptions};
use crate::reconcile::{
    expand, reconcilable, reconcile, reconciled, views, ReconcileError,
};
use crate::sheet::{
    all_supported, plan_sheet, planned, positions_fit, region_fits, supported, SheetError, SheetPlan,
};
use crate::table::Table;

verus! {

/// The name of the sheet that holds the peaks table.
pub const PEAKS_SHEET: &'static str = "PeaksData";

/// The name of the sheet that holds the reconciled fit table.
pub const FIT_SHEET: &'static str = "FitData";

/// A sheet's name and contents.
#[derive(Debug)]
pub struct NamedSheet {
    pub name: String,
    pub plan: SheetPlan,
}

/// Why one dataset could not be processed.
#[derive(Debug, PartialEq, Eq)]
pub enum DatasetError {
    Reconcile(ReconcileError),
    Sheet(SheetError),
}

/// The options of the peaks sheet: autofit, and an unstyled table region
/// with a header row.
pub open spec fn peaks_sheet_options() -> WriterOptions {
    WriterOptions {
        use_autofit: true,
        float_format: None,
        null_string: None,
        table: Some(TableRegion { header_row: true, total_row: false, style: RegionStyle::Plain }),
        zoom: 100,
        screen_gridlines: true,
        freeze_cell: (0, 0),
        top_cell: (0, 0),
    }
}

/// The options of the fit sheet: those of the peaks sheet without a table
/// region.
pub open spec fn fit_sheet_options() -> WriterOptions {
    WriterOptions { table: None, ..peaks_sheet_options() }
}

/// A table can be laid out from the top-left cell with these options.
pub open spec fn sheet_ok(t: Table, o: WriterOptions) -> bool {
    all_supported(t) && positions_fit(t, 0, 0, o) && region_fits(t, o)
}

pub fn peaks_options() -> (r: WriterOptions)
    ensures
        r == peaks_sheet_options(),
{
    WriterOptions::new().with_use_autofit(true).with_set_table_style(RegionStyle::Plain)
}

pub fn fit_options() -> (r: WriterOptions)
    ensures
        r == fit_sheet_options(),
{
    peaks_options().with_table(None)
}

/// Lays out the peaks table and the fit table on the sheets `PeaksData` and
/// `FitData`, in that order, each from the top-left cell.
pub fn plan_workbook(peaks: &Table, fit: &Table) -> (r: Result<Vec<NamedSheet>, SheetError>)
    requires
        peaks.wf(),
        fit.wf(),
    ensures
        r is Ok <==> sheet_ok(*peaks, peaks_sheet_options()) && sheet_ok(*fit, fit_sheet_options()),
        r matches Ok(sheets) ==> sheets@.len() == 2 && sheets@[0].name@ == PEAKS_SHEET@
            && sheets@[1].name@ == FIT_SHEET@
            && planned(*peaks, 0, 0, peaks_sheet_options(), sheets@[0].plan)
            && planned(*fit, 0, 0, fit_sheet_options(), sheets@[1].plan),
{
    let po = peaks_options();
    let fo = fit_options();
    let peaks_plan = plan_sheet(peaks, 0, 0, &po)?;
    let fit_plan = plan_sheet(fit, 0, 0, &fo)?;
    let mut sheets: Vec<NamedSheet> = Vec::new();
    sheets.push(NamedSheet { name: PEAKS_SHEET.to_owned(), plan: peaks_plan });
    sheets.push(NamedSheet { name: FIT_SHEET.to_owned(), plan: fit_plan });
    Ok(sheets)
}

/// A reconciled table has columns of equal length, as the fit table has.
pub proof fn lemma_reconciled_wf(fit: Table, rename: Seq<Seq<char>>, select: Seq<Seq<char>>, out: Table)
    requires
        fit.wf(),
        rename.len() == fit.columns@.len(),
        reconciled(fit, rename, select, out),
    ensures
        out.wf(),
        out.columns@.len() > 0 ==> out.rows() == fit.rows(),
{
    assert forall|j: int| 0 <= j < out.columns@.len() implies #[trigger] out.columns@[j].cells@.len()
        == fit.rows() by {
        let k = choose|k: int|
            0 <= k < rename.len() && rename[k] == select[j] && out.columns@[j].cells@
                == #[trigger] fit.columns@[k].cells@;
        assert(fit.columns@[k].cells@.len() == fit.columns@[0].cells@.len());
    }
}

/// Every cell of each fit column whose new name is selected has a
/// spreadsheet form.
pub open spec fn selected_supported(fit: Table, rename: Seq<Seq<char>>, select: Seq<Seq<char>>) -> bool {
    forall|k: int, i: int|
        0 <= k < rename.len() && select.contains(rename[k]) && 0 <= i < fit.columns@[k].cells@.len()
            ==> supported(#[trigger] fit.columns@[k].cells@[i])
}

/// The reconciled fit table can be laid out on its sheet: its cells have a
/// spreadsheet form, its columns have numbers, and so have its rows below
/// the header.
pub open spec fn fit_sheet_ok(fit: Table, rename: Seq<Seq<char>>, select: Seq<Seq<char>>) -> bool {
    &&& selected_supported(fit, rename, select)
    &&& select.len() <= u16::MAX
    &&& select.len() > 0 ==> fit.rows() + 1 <= u32::MAX
}

/// Whether the reconciled table can be laid out on the fit sheet, stated
/// over the fit table it came from.
pub proof fn lemma_reconciled_sheet_ok(fit: Table, rename: Seq<Seq<char>>, select: Seq<Seq<char>>, out: Table)
    requires
        fit.wf(),
        reconcilable(fit.columns@.len(), rename, select),
        reconciled(fit, rename, select, out),
    ensures
        sheet_ok(out, fit_sheet_options()) == fit_sheet_ok(fit, rename, select),
{
    lemma_reconciled_wf(fit, rename, select, out);
    if selected_supported(fit, rename, select) {
        assert forall|c: int, i: int|
            0 <= c < out.columns@.len() && 0 <= i < out.columns@[c].cells@.len() implies supported(
            #[trigger] out.columns@[c].cells@[i],
        ) by {
            let k = choose|k: int|
                0 <= k < rename.len() && rename[k] == select[c] && out.columns@[c].cells@
                    == #[trigger] fit.columns@[k].cells@;
            assert(select.contains(rename[k]));
            assert(supported(fit.columns@[k].cells@[i]));
        }
    }
    if all_supported(out) {
        assert forall|k: int, i: int|
            0 <= k < rename.len() && select.contains(rename[k]) && 0 <= i < fit.columns@[k].cells@.len()
                implies supported(#[trigger] fit.columns@[k].cells@[i]) by {
            let j = choose|j: int| 0 <= j < select.len() && select[j] == rename[k];
            let m = choose|m: int|
                0 <= m < rename.len() && rename[m] == select[j] && out.columns@[j].cells@
                    == #[trigger] fit.columns@[m].cells@;
            assert(m == k);
            assert(out.columns@[j].cells@[i] == fit.columns@[k].cells@[i]);
        }
    }
}

/// Reconciles the fit table against the peak labels, then lays out the
/// peaks table and the reconciled fit table; returns the reconciled table
/// and the sheets.
pub fn process_dataset(
    peaks: &Table,
    fit: &Table,
    tokens: &Vec<String>,
    label_order: &Vec<String>,
    sorted_label_order: &Vec<String>,
) -> (r: Result<(Table, Vec<NamedSheet>), DatasetError>)
    requires
        peaks.wf(),
        fit.wf(),
    ensures
        ({
            let rename = expand(views(tokens@), views(label_order@));
            let select = expand(views(tokens@), views(sorted_label_order@));
            &&& !reconcilable(fit.columns@.len(), rename, select) ==> (r matches Err(DatasetError::Reconcile(_)))
            &&& r is Ok ==> reconcilable(fit.columns@.len(), rename, select)
            &&& r matches Ok((out, sheets)) ==> reconciled(*fit, rename, select, out)
                && sheets@.len() == 2 && sheets@[0].name@ == PEAKS_SHEET@
                && sheets@[1].name@ == FIT_SHEET@
                && planned(*peaks, 0, 0, peaks_sheet_options(), sheets@[0].plan)
                && planned(out, 0, 0, fit_sheet_options(), sheets@[1].plan)
            &&& r matches Err(DatasetError::Sheet(_)) ==> reconcilable(fit.columns@.len(), rename, select)
            &&& r is Ok <==> reconcilable(fit.columns@.len(), rename, select) && sheet_ok(
                *peaks,
                peaks_sheet_options(),
            ) && fit_sheet_ok(*fit, rename, select)
        }),
{
    let out = match reconcile(fit, tokens, label_order, sorted_label_order) {
        Ok(t) => t,
        Err(e) => {
            return Err(DatasetError::Reconcile(e));
        },
    };
    proof {
        lemma_reconciled_wf(
            *fit,
            expand(views(tokens@), views(label_order@)),
            expand(views(tokens@), views(sorted_label_order@)),
            out,
        );
        lemma_reconciled_sheet_ok(
            *fit,
            expand(views(tokens@), views(label_order@)),
            expand(views(tokens@), views(sorted_label_order@)),
            out,
        );
    }
    match plan_workbook(peaks, &out) {
        Ok(sheets) => Ok((out, sheets)),
        Err(e) => Err(DatasetError::Sheet(e)),
    }
}

} // verus!
