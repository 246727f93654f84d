//! Readers for the game's data file formats.

pub mod drs;
pub mod slp;
pub mod dat;
pub mod palette;
pub mod scn;
pub mod language;
