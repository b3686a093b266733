//! A dynamically typed, column-oriented table.
use vstd::prelude::*;

verus! {

/// One typed cell value. Floating-point cells hold their IEEE-754 bit
/// pattern; `Other` stands for a value of a kind that has no spreadsheet
/// representation and carries the name of that kind.
#[derive(Debug, PartialEq, Eq)]
pub enum Cell {
    Int8(i8),
    UInt8(u8),
    Int16(i16),
    UInt16(u16),
    Int32(i32),
    UInt32(u32),
    Int64(i64),
    UInt64(u64),
    Float32(u32),
    Float64(u64),
    Str(String),
    Bool(bool),
    Null,
    Other(String),
}

impl Cell {
    /// An equal copy of this cell.
    pub fn duplicate(&self) -> (r: Cell)
        ensures
            r == *self,
    {
        match self {
            Cell::Int8(v) => Cell::Int8(*v),
            Cell::UInt8(v) => Cell::UInt8(*v),
            Cell::Int16(v) => Cell::Int16(*v),
            Cell::UInt16(v) => Cell::UInt16(*v),
            Cell::Int32(v) => Cell::Int32(*v),
            Cell::UInt32(v) => Cell::UInt32(*v),
            Cell::Int64(v) => Cell::Int64(*v),
            Cell::UInt64(v) => Cell::UInt64(*v),
            Cell::Float32(v) => Cell::Float32(*v),
            Cell::Float64(v) => Cell::Float64(*v),
            Cell::Str(s) => Cell::Str(s.clone()),
            Cell::Bool(b) => Cell::Bool(*b),
            Cell::Null => Cell::Null,
            Cell::Other(s) => Cell::Other(s.clone()),
        }
    }
}

/// A named column of cells.
#[derive(Debug)]
pub struct Column {
    pub name: String,
    pub cells: Vec<Cell>,
}

/// Copies a sequence of cells.
pub fn copy_cells(cells: &Vec<Cell>) -> (r: Vec<Cell>)
    ensures
        r@ == cells@,
{
    let mut r: Vec<Cell> = Vec::new();
    for i in 0..cells.len()
        invariant
            r@ == cells@.take(i as int),
    {
        r.push(cells[i].duplicate());
        assert(r@ =~= cells@.take(i + 1));
    }
    assert(r@ =~= cells@);
    r
}

/// An ordered sequence of named columns of equal length.
#[derive(Debug)]
pub struct Table {
    pub columns: Vec<Column>,
}

impl Table {
    /// Every column has as many cells as the first.
    pub open spec fn wf(&self) -> bool {
        forall|i: int|
            0 <= i < self.columns@.len() ==> #[trigger] self.columns@[i].cells@.len()
                == self.columns@[0].cells@.len()
    }

    /// The names of the columns, in order.
    pub open spec fn names(&self) -> Seq<Seq<char>> {
        self.columns@.map_values(|c: Column| c.name@)
    }

    /// The number of rows: the length of every column (zero without columns).
    pub open spec fn rows(&self) -> nat {
        if self.columns@.len() == 0 {
            0
        } else {
            self.columns@[0].cells@.len()
        }
    }

    /// Builds a table from columns, refusing columns of unequal length.
    pub fn from_columns(columns: Vec<Column>) -> (r: Option<Table>)
        ensures
            r is Some <==> (forall|i: int|
                0 <= i < columns@.len() ==> #[trigger] columns@[i].cells@.len()
                    == columns@[0].cells@.len()),
            r matches Some(t) ==> t.columns@ == columns@ && t.wf(),
    {
        let n = columns.len();
        let mut i: usize = 0;
        while i < n
            invariant
                n == columns@.len(),
                i <= n,
                forall|k: int|
                    0 <= k < i ==> #[trigger] columns@[k].cells@.len()
                        == columns@[0].cells@.len(),
            decreases n - i,
        {
            if columns[i].cells.len() != columns[0].cells.len() {
                return None;
            }
            i = i + 1;
        }
        Some(Table { columns })
    }

    /// The number of columns.
    pub fn width(&self) -> (r: usize)
        ensures
            r == self.columns@.len(),
    {
        self.columns.len()
    }

    /// The number of rows.
    pub fn height(&self) -> (r: usize)
        ensures
            r == self.rows(),
    {
        if self.columns.len() == 0 {
            0
        } else {
            self.columns[0].cells.len()
        }
    }
}

} // verus!
