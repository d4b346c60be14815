//! Early-boot text console: a character grid in the layout of text-mode
//! display hardware, and the controller that halts the machine on a fault.
//!
//! - `cell`: the display cell and the geometry of the grid.
//! - `grid`: the model of the grid and its cursor, and what writing does.
//! - `page`: the scroll policy, stated for every text.
//! - `sink`: the text output sink, which owns the grid.
//! - `decimal`: numbers as decimal text.
//! - `fault`: the fault record and its diagnostic text.
//! - `controller`: the run state and the halt on a fault.

pub mod cell;
pub mod controller;
pub mod decimal;
pub mod fault;
pub mod grid;
pub mod page;
pub mod sink;
