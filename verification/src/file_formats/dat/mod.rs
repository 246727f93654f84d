//! The empires database in its later reader: resources, sounds, graphics,
//! research and terrain restrictions, and the tile edge database.

pub mod resource;
pub mod graphic;
pub mod sound;
pub mod tileedge;
pub mod research;
pub mod terrain_restrictions;
