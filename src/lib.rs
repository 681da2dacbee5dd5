//! Conversion between western calendar years and Japanese era (wareki) notation.

pub mod era;
pub mod table;
pub mod text;
pub mod cli;

pub use era::{EraFormat, EraNames, WarekiError};
