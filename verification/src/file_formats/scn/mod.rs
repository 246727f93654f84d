//! Scenario files: the map, the player data, and the players' resources and units.

pub mod map;
pub mod player_data;
pub mod player_resources;
pub mod player_unit;
