//! An interactive viewer for tabular data: per-sheet column widths, a
//! horizontal column window with paging, row/column selection with
//! wraparound, a fuzzy finder over sheet labels, and a two-mode
//! navigation controller that routes input intents to one of the two.
use vstd::prelude::*;

pub mod app;
pub mod file;
pub mod fileview;
pub mod finder;
pub mod table;

verus! {

/// Stable handle to one sheet: (file index, sheet index).
pub type SheetAddress = (usize, usize);

} // verus!
