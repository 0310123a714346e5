//! The computational core of a spreadsheet engine: the value and error model,
//! the bounding algebra of cell references, the argument checks of the bond
//! functions, and the bookkeeping of edits.

pub mod error;
pub mod number;
pub mod value;
pub mod calc_vertex;
pub mod range;
pub mod connector;
pub mod calendar;
pub mod day_count;
pub mod bonds;
pub mod edit_action;
pub mod effect;
pub mod shift;
pub mod sheet_shift;
pub mod seed;
