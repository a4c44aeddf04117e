//! Gadgets that constrain arithmetic facts about cells.

pub mod add;
pub mod comparison;
pub mod is_zero;
pub mod lt;
pub mod range_check;
