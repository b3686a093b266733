//! Laying out a table on a spreadsheet sheet: which value each cell
//! receives, where the header and data rows go, and the bounds of the table
//! region.
use vstd::prelude::*;

use crate::options::{RegionStyle, TableRegion, WriterOptions};
use crate::table::{Cell, Table};

verus! {

/// What is written into one spreadsheet cell.
#[derive(Debug, PartialEq, Eq)]
pub enum SheetValue {
    /// A numeric cell from an integer of at most 64 bits.
    Number(i64),
    /// A numeric cell from an unsigned 64-bit integer.
    UnsignedNumber(u64),
    /// A numeric cell from a single-precision float (its bit pattern),
    /// written with the float format.
    Float32(u32),
    /// A numeric cell from a double-precision float (its bit pattern),
    /// written with the float format.
    Float64(u64),
    Text(String),
    Bool(bool),
}

/// Why a table could not be laid out.
#[derive(Debug, PartialEq, Eq)]
pub enum SheetError {
    /// A cell holds a value of this kind, which has no spreadsheet form.
    UnsupportedType(String),
    /// A cell position lies beyond the largest row or column number.
    OutOfRange,
    /// The table region would have no cell.
    EmptyRegion,
}

/// The view of an optional string.
pub open spec fn opt_view(o: Option<String>) -> Option<Seq<char>> {
    match o {
        Some(s) => Some(s@),
        None => None,
    }
}

/// Whether a cell has a spreadsheet form.
pub open spec fn supported(c: Cell) -> bool {
    !(c is Other)
}

/// `v` is what the cell `c` is written as, `None` meaning that nothing is
/// written; `null` is the placeholder for null cells.
pub open spec fn writes_as(c: Cell, null: Option<Seq<char>>, v: Option<SheetValue>) -> bool {
    match c {
        Cell::Int8(x) => v == Some(SheetValue::Number(x as i64)),
        Cell::UInt8(x) => v == Some(SheetValue::Number(x as i64)),
        Cell::Int16(x) => v == Some(SheetValue::Number(x as i64)),
        Cell::UInt16(x) => v == Some(SheetValue::Number(x as i64)),
        Cell::Int32(x) => v == Some(SheetValue::Number(x as i64)),
        Cell::UInt32(x) => v == Some(SheetValue::Number(x as i64)),
        Cell::Int64(x) => v == Some(SheetValue::Number(x)),
        Cell::UInt64(x) => v == Some(SheetValue::UnsignedNumber(x)),
        Cell::Float32(b) => v == Some(SheetValue::Float32(b)),
        Cell::Float64(b) => v == Some(SheetValue::Float64(b)),
        Cell::Str(s) => (v matches Some(SheetValue::Text(t)) && t@ == s@),
        Cell::Bool(b) => v == Some(SheetValue::Bool(b)),
        Cell::Null => match null {
            Some(p) => (v matches Some(SheetValue::Text(t)) && t@ == p),
            None => v is None,
        },
        Cell::Other(_) => false,
    }
}

/// The spreadsheet value of one cell.
pub fn cell_value(c: &Cell, null_string: &Option<String>) -> (r: Result<Option<SheetValue>, SheetError>)
    ensures
        r is Ok <==> supported(*c),
        r matches Ok(v) ==> writes_as(*c, opt_view(*null_string), v),
        r matches Err(e) ==> (c matches Cell::Other(n) && e matches SheetError::UnsupportedType(m)
            && m@ == n@),
{
    match c {
        Cell::Int8(x) => Ok(Some(SheetValue::Number(*x as i64))),
        Cell::UInt8(x) => Ok(Some(SheetValue::Number(*x as i64))),
        Cell::Int16(x) => Ok(Some(SheetValue::Number(*x as i64))),
        Cell::UInt16(x) => Ok(Some(SheetValue::Number(*x as i64))),
        Cell::Int32(x) => Ok(Some(SheetValue::Number(*x as i64))),
        Cell::UInt32(x) => Ok(Some(SheetValue::Number(*x as i64))),
        Cell::Int64(x) => Ok(Some(SheetValue::Number(*x))),
        Cell::UInt64(x) => Ok(Some(SheetValue::UnsignedNumber(*x))),
        Cell::Float32(b) => Ok(Some(SheetValue::Float32(*b))),
        Cell::Float64(b) => Ok(Some(SheetValue::Float64(*b))),
        Cell::Str(s) => Ok(Some(SheetValue::Text(s.clone()))),
        Cell::Bool(b) => Ok(Some(SheetValue::Bool(*b))),
        Cell::Null => match null_string {
            Some(p) => Ok(Some(SheetValue::Text(p.clone()))),
            None => Ok(None),
        },
        Cell::Other(name) => Err(SheetError::UnsupportedType(name.clone())),
    }
}

/// The inclusive bounds of a table region and its settings.
#[derive(Debug, Clone, Copy, PartialEq, Eq, Structural)]
pub struct RegionBounds {
    pub first_row: u32,
    pub first_col: u16,
    pub last_row: u32,
    pub last_col: u16,
    pub region: TableRegion,
}

/// Everything that is written to one sheet.
#[derive(Debug)]
pub struct SheetPlan {
    /// The row of the column names, if they are written.
    pub header_row: Option<u32>,
    /// The row of the first data cell of every column.
    pub first_data_row: u32,
    /// The sheet column of the table's first column.
    pub first_col: u16,
    /// The column names, in order.
    pub headers: Vec<String>,
    /// For each column, the value of each row; `None` leaves the cell empty.
    pub columns: Vec<Vec<Option<SheetValue>>>,
    pub float_format: Option<String>,
    pub region: Option<RegionBounds>,
    pub use_autofit: bool,
    pub zoom: u16,
    pub screen_gridlines: bool,
    pub freeze_cell: (u32, u16),
    pub top_cell: (u32, u16),
}

/// Whether the column names are written: always without a table region,
/// and with one when it has a header row.
pub open spec fn has_header(o: WriterOptions) -> bool {
    match o.table {
        Some(t) => t.header_row,
        None => true,
    }
}

pub open spec fn header_rows(o: WriterOptions) -> nat {
    if has_header(o) {
        1
    } else {
        0
    }
}

/// The extra row of a table region with a total row.
pub open spec fn total_rows(o: WriterOptions) -> nat {
    match o.table {
        Some(t) => if t.total_row {
            1
        } else {
            0
        },
        None => 0,
    }
}

/// Every cell of the table has a spreadsheet form.
pub open spec fn all_supported(t: Table) -> bool {
    forall|c: int, r: int|
        0 <= c < t.columns@.len() && 0 <= r < t.columns@[c].cells@.len() ==> supported(
            #[trigger] t.columns@[c].cells@[r],
        )
}

/// Every row and column used, the total row included, has a number.
pub open spec fn positions_fit(t: Table, row_offset: u32, col_offset: u16, o: WriterOptions) -> bool {
    &&& row_offset + header_rows(o) + t.rows() + total_rows(o) <= u32::MAX
    &&& col_offset + t.columns@.len() <= u16::MAX
}

/// A requested table region covers at least one cell.
pub open spec fn region_fits(t: Table, o: WriterOptions) -> bool {
    o.table is Some ==> t.columns@.len() >= 1 && header_rows(o) + t.rows() + total_rows(o) >= 1
}

/// The region laid over the table: from the offset to the last data row
/// (one more with a total row, one less without a header row) and the last
/// column.
pub open spec fn region_of(t: Table, row_offset: u32, col_offset: u16, o: WriterOptions) -> Option<RegionBounds> {
    match o.table {
        Some(region) => Some(
            RegionBounds {
                first_row: row_offset,
                first_col: col_offset,
                last_row: (row_offset + header_rows(o) + t.rows() + total_rows(o) - 1) as u32,
                last_col: (col_offset + t.columns@.len() - 1) as u16,
                region,
            },
        ),
        None => None,
    }
}

/// `p` lays out `t` at the given offset with the given options.
pub open spec fn planned(t: Table, row_offset: u32, col_offset: u16, o: WriterOptions, p: SheetPlan) -> bool {
    &&& p.header_row == if has_header(o) {
        Some(row_offset)
    } else {
        None
    }
    &&& p.first_data_row == row_offset + header_rows(o)
    &&& p.first_col == col_offset
    &&& crate::reconcile::views(p.headers@) == t.names()
    &&& p.columns@.len() == t.columns@.len()
    &&& forall|c: int|
        0 <= c < t.columns@.len() ==> (#[trigger] p.columns@[c])@.len()
            == t.columns@[c].cells@.len()
    &&& forall|c: int, r: int|
        0 <= c < t.columns@.len() && 0 <= r < t.columns@[c].cells@.len() ==> writes_as(
            t.columns@[c].cells@[r],
            opt_view(o.null_string),
            #[trigger] p.columns@[c]@[r],
        )
    &&& opt_view(p.float_format) == opt_view(o.float_format)
    &&& p.region == region_of(t, row_offset, col_offset, o)
    &&& p.use_autofit == o.use_autofit
    &&& p.zoom == o.zoom
    &&& p.screen_gridlines == o.screen_gridlines
    &&& p.freeze_cell == o.freeze_cell
    &&& p.top_cell == o.top_cell
}

/// A copy of an optional string.
pub fn copy_opt(o: &Option<String>) -> (r: Option<String>)
    ensures
        opt_view(r) == opt_view(*o),
{
    match o {
        Some(s) => Some(s.clone()),
        None => None,
    }
}

/// The values of one column.
fn column_values(cells: &Vec<Cell>, null_string: &Option<String>) -> (r: Result<Vec<Option<SheetValue>>, SheetError>)
    ensures
        r is Ok <==> forall|i: int| 0 <= i < cells@.len() ==> supported(#[trigger] cells@[i]),
        r matches Err(e) ==> exists|i: int|
            0 <= i < cells@.len() && (#[trigger] cells@[i] matches Cell::Other(n)
                && e matches SheetError::UnsupportedType(m) && m@ == n@),
        r matches Ok(v) ==> v@.len() == cells@.len() && forall|i: int|
            0 <= i < cells@.len() ==> writes_as(cells@[i], opt_view(*null_string), #[trigger] v@[i]),
{
    let mut vals: Vec<Option<SheetValue>> = Vec::new();
    for i in 0..cells.len()
        invariant
            vals@.len() == i,
            forall|a: int| 0 <= a < i ==> supported(#[trigger] cells@[a]),
            forall|a: int|
                0 <= a < i ==> writes_as(cells@[a], opt_view(*null_string), #[trigger] vals@[a]),
    {
        match cell_value(&cells[i], null_string) {
            Ok(v) => {
                vals.push(v);
            },
            Err(e) => {
                assert(cells@[i as int] matches Cell::Other(n));
                return Err(e);
            },
        }
    }
    Ok(vals)
}

/// Lays out a table with its top-left corner at the given offset.
pub fn plan_sheet(table: &Table, row_offset: u32, col_offset: u16, options: &WriterOptions) -> (r: Result<SheetPlan, SheetError>)
    requires
        table.wf(),
    ensures
        r is Ok <==> all_supported(*table) && positions_fit(*table, row_offset, col_offset, *options)
            && region_fits(*table, *options),
        !all_supported(*table) ==> (r matches Err(SheetError::UnsupportedType(m)) && exists|c: int, i: int|
            0 <= c < table.columns@.len() && 0 <= i < table.columns@[c].cells@.len()
                && (#[trigger] table.columns@[c].cells@[i] matches Cell::Other(n) && m@ == n@)),
        all_supported(*table) && !positions_fit(*table, row_offset, col_offset, *options) ==> (r matches Err(SheetError::OutOfRange)),
        all_supported(*table) && positions_fit(*table, row_offset, col_offset, *options)
            && !region_fits(*table, *options) ==> (r matches Err(SheetError::EmptyRegion)),
        r matches Ok(p) ==> planned(*table, row_offset, col_offset, *options, p),
{
    let mut columns: Vec<Vec<Option<SheetValue>>> = Vec::new();
    let mut headers: Vec<String> = Vec::new();
    let n = table.columns.len();
    for c in 0..n
        invariant
            n == table.columns@.len(),
            columns@.len() == c,
            crate::reconcile::views(headers@) == table.names().take(c as int),
            forall|a: int, i: int|
                0 <= a < c && 0 <= i < table.columns@[a].cells@.len() ==> supported(
                    #[trigger] table.columns@[a].cells@[i],
                ),
            forall|a: int|
                0 <= a < c ==> (#[trigger] columns@[a])@.len() == table.columns@[a].cells@.len(),
            forall|a: int, i: int|
                0 <= a < c && 0 <= i < table.columns@[a].cells@.len() ==> writes_as(
                    table.columns@[a].cells@[i],
                    opt_view(options.null_string),
                    #[trigger] columns@[a]@[i],
                ),
    {
        let vals = match column_values(&table.columns[c].cells, &options.null_string) {
            Ok(v) => v,
            Err(e) => {
                proof {
                    let i = choose|i: int|
                        0 <= i < table.columns@[c as int].cells@.len()
                            && (#[trigger] table.columns@[c as int].cells@[i] matches Cell::Other(n)
                            && e matches SheetError::UnsupportedType(m) && m@ == n@);
                    assert(!supported(table.columns@[c as int].cells@[i]));
                }
                return Err(e);
            },
        };
        let ghost prev = headers@;
        headers.push(table.columns[c].name.clone());
        proof {
            assert(crate::reconcile::views(headers@) =~= crate::reconcile::views(prev).push(
                table.columns@[c as int].name@,
            ));
            assert(table.names().take(c + 1) =~= table.names().take(c as int).push(
                table.columns@[c as int].name@,
            ));
        }
        columns.push(vals);
    }
    assert(table.names().take(n as int) =~= table.names());
    let has_header = match options.table {
        Some(t) => t.header_row,
        None => true,
    };
    let header: u32 = if has_header {
        1
    } else {
        0
    };
    let total: u32 = match options.table {
        Some(t) => if t.total_row {
            1
        } else {
            0
        },
        None => 0,
    };
    let rows = table.height();
    if (row_offset as u128) + (header as u128) + (rows as u128) + (total as u128) > (u32::MAX as u128) {
        return Err(SheetError::OutOfRange);
    }
    if (col_offset as u128) + (n as u128) > (u16::MAX as u128) {
        return Err(SheetError::OutOfRange);
    }
    let region = match options.table {
        Some(region) => {
            if n == 0 || (header as usize) + rows + (total as usize) == 0 {
                return Err(SheetError::EmptyRegion);
            }
            Some(
                RegionBounds {
                    first_row: row_offset,
                    first_col: col_offset,
                    last_row: row_offset + header + (rows as u32) + total - 1,
                    last_col: col_offset + (n as u16) - 1,
                    region,
                },
            )
        },
        None => None,
    };
    Ok(
        SheetPlan {
            header_row: if has_header {
                Some(row_offset)
            } else {
                None
            },
            first_data_row: row_offset + header,
            first_col: col_offset,
            headers,
            columns,
            float_format: copy_opt(&options.float_format),
            region,
            use_autofit: options.use_autofit,
            zoom: options.zoom,
            screen_gridlines: options.screen_gridlines,
            freeze_cell: options.freeze_cell,
            top_cell: options.top_cell,
        },
    )
}

impl SheetPlan {
    /// The sheet position of row `r` of column `c`, if it has a number.
    pub fn cell_position(&self, c: usize, r: usize) -> (pos: Option<(u32, u16)>)
        ensures
            pos is Some <==> self.first_data_row + r <= u32::MAX && self.first_col + c <= u16::MAX,
            pos matches Some((row, col)) ==> row == self.first_data_row + r && col == self.first_col + c,
    {
        if (self.first_data_row as u128) + (r as u128) > (u32::MAX as u128) || (self.first_col as u128)
            + (c as u128) > (u16::MAX as u128) {
            None
        } else {
            Some((self.first_data_row + r as u32, self.first_col + c as u16))
        }
    }

    /// The sheet column of column `c`, if it has a number.
    pub fn column_position(&self, c: usize) -> (col: Option<u16>)
        ensures
            col is Some <==> self.first_col + c <= u16::MAX,
            col matches Some(k) ==> k == self.first_col + c,
    {
        if (self.first_col as u128) + (c as u128) > (u16::MAX as u128) {
            None
        } else {
            Some(self.first_col + c as u16)
        }
    }
}

/// The data value a plan puts at a sheet position, `None` where it writes
/// no data value.
pub open spec fn data_at(p: SheetPlan, row: int, col: int) -> Option<SheetValue> {
    let c = col - p.first_col;
    let r = row - p.first_data_row;
    if 0 <= c < p.columns@.len() && 0 <= r < p.columns@[c]@.len() {
        p.columns@[c]@[r]
    } else {
        None
    }
}

/// The integer a cell of an integer kind holds.
pub open spec fn int_value(c: Cell) -> Option<int> {
    match c {
        Cell::Int8(x) => Some(x as int),
        Cell::UInt8(x) => Some(x as int),
        Cell::Int16(x) => Some(x as int),
        Cell::UInt16(x) => Some(x as int),
        Cell::Int32(x) => Some(x as int),
        Cell::UInt32(x) => Some(x as int),
        Cell::Int64(x) => Some(x as int),
        Cell::UInt64(x) => Some(x as int),
        _ => None,
    }
}

/// Reading the written value `v` back recovers the cell `c`: the same
/// integer, the same float bits, the same text or the same truth value.
pub open spec fn reads_back(v: SheetValue, c: Cell) -> bool {
    match v {
        SheetValue::Number(n) => int_value(c) == Some(n as int),
        SheetValue::UnsignedNumber(n) => int_value(c) == Some(n as int),
        SheetValue::Float32(b) => c == Cell::Float32(b),
        SheetValue::Float64(b) => c == Cell::Float64(b),
        SheetValue::Text(t) => (c matches Cell::Str(s) && s@ == t@),
        SheetValue::Bool(b) => c == Cell::Bool(b),
    }
}

/// Writing a table and reading the sheet back recovers every value that is
/// not null, each at the row and column of its cell below the header, and
/// the column names in the header row.
pub proof fn lemma_round_trip(t: Table, row_offset: u32, col_offset: u16, o: WriterOptions, p: SheetPlan)
    requires
        t.wf(),
        planned(t, row_offset, col_offset, o, p),
    ensures
        crate::reconcile::views(p.headers@) == t.names(),
        forall|c: int, r: int|
            0 <= c < t.columns@.len() && 0 <= r < t.columns@[c].cells@.len() && !(
            #[trigger] t.columns@[c].cells@[r] is Null) ==> (data_at(
                p,
                row_offset + header_rows(o) + r,
                col_offset + c,
            ) matches Some(v) && reads_back(v, t.columns@[c].cells@[r])),
{
    assert forall|c: int, r: int|
        0 <= c < t.columns@.len() && 0 <= r < t.columns@[c].cells@.len() && !(
        #[trigger] t.columns@[c].cells@[r] is Null) implies (data_at(
            p,
            row_offset + header_rows(o) + r,
            col_offset + c,
        ) matches Some(v) && reads_back(v, t.columns@[c].cells@[r])) by {
        assert(writes_as(t.columns@[c].cells@[r], opt_view(o.null_string), p.columns@[c]@[r]));
        assert(data_at(p, row_offset + header_rows(o) + r, col_offset + c) == p.columns@[c]@[r]);
    }
}

/// Without a placeholder a null cell is left empty: nothing is written at
/// its position, not even an empty string. With one, the placeholder is
/// written there as text.
pub proof fn lemma_null_cells(t: Table, row_offset: u32, col_offset: u16, o: WriterOptions, p: SheetPlan)
    requires
        planned(t, row_offset, col_offset, o, p),
    ensures
        forall|c: int, r: int|
            0 <= c < t.columns@.len() && 0 <= r < t.columns@[c].cells@.len()
                && #[trigger] t.columns@[c].cells@[r] is Null ==> match o.null_string {
                None => data_at(p, row_offset + header_rows(o) + r, col_offset + c) is None,
                Some(s) => (data_at(p, row_offset + header_rows(o) + r, col_offset + c) matches Some(
                    SheetValue::Text(x),
                ) && x@ == s@),
            },
{
    assert forall|c: int, r: int|
        0 <= c < t.columns@.len() && 0 <= r < t.columns@[c].cells@.len()
            && #[trigger] t.columns@[c].cells@[r] is Null implies match o.null_string {
        None => data_at(p, row_offset + header_rows(o) + r, col_offset + c) is None,
        Some(s) => (data_at(p, row_offset + header_rows(o) + r, col_offset + c) matches Some(
            SheetValue::Text(x),
        ) && x@ == s@),
    } by {
        assert(writes_as(t.columns@[c].cells@[r], opt_view(o.null_string), p.columns@[c]@[r]));
        assert(data_at(p, row_offset + header_rows(o) + r, col_offset + c) == p.columns@[c]@[r]);
    }
}

} // verus!
