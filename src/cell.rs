//! The cells of a sheet as the workbook reader hands them over.
use vstd::prelude::*;
use crate::calendar::{Date, Time};

verus! {

/// The type of a cell's value.
#[derive(Clone, Copy, Debug, PartialEq, Eq, Structural)]
pub enum CellKind {
    Empty,
    Text,
    Int,
    Float,
    Bool,
    DateTime,
    Error,
}

/// One cell: its type, the text it displays, and the date and time it
/// stands for when its value is a serial date-time number.
#[derive(Debug)]
pub struct Cell {
    pub kind: CellKind,
    pub text: String,
    pub stamp: Option<(Date, Time)>,
}

/// A sheet as rows of cells.
pub type Grid = Vec<Vec<Cell>>;

pub open spec fn cell_wf(c: Cell) -> bool {
    c.stamp matches Some(s) ==> s.0.wf() && s.1.wf()
}

/// Every date and time that a cell of the rows stands for is valid.
pub open spec fn grid_wf(rows: Seq<Vec<Cell>>) -> bool {
    forall|i: int, j: int| 0 <= i < rows.len() && 0 <= j < rows[i]@.len() ==> cell_wf(
        #[trigger] rows[i]@[j],
    )
}

impl Cell {
    /// An empty cell.
    pub fn empty() -> (r: Cell)
        ensures
            r.kind == CellKind::Empty,
            r.text@ == Seq::<char>::empty(),
            r.stamp is None,
    {
        Cell { kind: CellKind::Empty, text: String::new(), stamp: None }
    }

    /// A cell that holds the text `s`.
    pub fn text(s: &str) -> (r: Cell)
        ensures
            r.kind == CellKind::Text,
            r.text@ == s@,
            r.stamp is None,
    {
        Cell { kind: CellKind::Text, text: s.to_owned(), stamp: None }
    }
}

} // verus!
