//! Per-sheet layout and formatting options.
use vstd::prelude::*;

verus! {

/// The visual style of a table region: none, or one of the numbered light,
/// medium and dark styles.
#[derive(Debug, Clone, Copy, PartialEq, Eq, Structural)]
pub enum RegionStyle {
    Plain,
    Light(u8),
    Medium(u8),
    Dark(u8),
}

/// A bounded table region laid over the written cells.
#[derive(Debug, Clone, Copy, PartialEq, Eq, Structural)]
pub struct TableRegion {
    pub header_row: bool,
    pub total_row: bool,
    pub style: RegionStyle,
}

impl TableRegion {
    /// A region with a header row, no total row and the default style.
    pub fn new() -> (r: TableRegion)
        ensures
            r == (TableRegion { header_row: true, total_row: false, style: RegionStyle::Medium(9) }),
    {
        TableRegion { header_row: true, total_row: false, style: RegionStyle::Medium(9) }
    }
}

/// How one table is laid out on a sheet.
#[derive(Debug)]
pub struct WriterOptions {
    pub use_autofit: bool,
    /// The number format of float cells; `None` keeps the general format.
    pub float_format: Option<String>,
    /// The text written for a null cell; `None` leaves the cell empty.
    pub null_string: Option<String>,
    pub table: Option<TableRegion>,
    pub zoom: u16,
    pub screen_gridlines: bool,
    pub freeze_cell: (u32, u16),
    pub top_cell: (u32, u16),
}

impl WriterOptions {
    /// The documented defaults: autofit on, general float format, nulls
    /// left empty, a default table region, zoom 100, gridlines shown and no
    /// frozen panes.
    pub open spec fn is_default(&self) -> bool {
        &&& self.use_autofit
        &&& self.float_format is None
        &&& self.null_string is None
        &&& self.table == Some(TableRegion { header_row: true, total_row: false, style: RegionStyle::Medium(9) })
        &&& self.zoom == 100
        &&& self.screen_gridlines
        &&& self.freeze_cell == (0u32, 0u16)
        &&& self.top_cell == (0u32, 0u16)
    }

    /// Options with every default.
    pub fn new() -> (r: WriterOptions)
        ensures
            r.is_default(),
    {
        WriterOptions {
            use_autofit: true,
            float_format: None,
            null_string: None,
            table: Some(TableRegion::new()),
            zoom: 100,
            screen_gridlines: true,
            freeze_cell: (0, 0),
            top_cell: (0, 0),
        }
    }

    pub fn with_use_autofit(self, use_autofit: bool) -> (r: Self)
        ensures
            r == (Self { use_autofit, ..self }),
    {
        Self { use_autofit, ..self }
    }

    pub fn with_null_string(self, null_string: Option<String>) -> (r: Self)
        ensures
            r == (Self { null_string, ..self }),
    {
        Self { null_string, ..self }
    }

    pub fn with_float_format(self, float_format: Option<String>) -> (r: Self)
        ensures
            r == (Self { float_format, ..self }),
    {
        Self { float_format, ..self }
    }

    pub fn with_table(self, table: Option<TableRegion>) -> (r: Self)
        ensures
            r == (Self { table, ..self }),
    {
        Self { table, ..self }
    }

    pub fn with_zoom(self, zoom: u16) -> (r: Self)
        ensures
            r == (Self { zoom, ..self }),
    {
        Self { zoom, ..self }
    }

    pub fn with_screen_gridlines(self, screen_gridlines: bool) -> (r: Self)
        ensures
            r == (Self { screen_gridlines, ..self }),
    {
        Self { screen_gridlines, ..self }
    }

    pub fn with_freeze_cell(self, freeze_cell: (u32, u16)) -> (r: Self)
        ensures
            r == (Self { freeze_cell, ..self }),
    {
        Self { freeze_cell, ..self }
    }

    pub fn with_top_cell(self, top_cell: (u32, u16)) -> (r: Self)
        ensures
            r == (Self { top_cell, ..self }),
    {
        Self { top_cell, ..self }
    }

    /// Sets the style of the table region, if there is one.
    pub fn with_set_table_style(self, style: RegionStyle) -> (r: Self)
        ensures
            r == (Self {
                table: match self.table {
                    Some(t) => Some(TableRegion { style, ..t }),
                    None => None,
                },
                ..self
            }),
    {
        let table = match self.table {
            Some(t) => Some(TableRegion { style, ..t }),
            None => None,
        };
        Self { table, ..self }
    }
}

impl Default for WriterOptions {
    fn default() -> (r: Self)
        ensures
            r.is_default(),
    {
        Self::new()
    }
}

} // verus!
