//! Readers and data models for the game data of Age of Empires (1997):
//! DRS archives, SLP shape files, palettes, the language resource library,
//! scenario data and the empires database, plus the fixed-point number type
//! and the small value types that the engine shares between its parts.

pub mod bytes;
pub mod layout;
pub mod identifier;
pub mod fixed;
pub mod vector3;
pub mod aabox;
pub mod file_formats;
pub mod drs;
pub mod slp;
pub mod dat;
pub mod media;
pub mod resource;
