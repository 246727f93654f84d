//! Access to the game's resources: the DRS archives of the game data
//! directory, the shapes and shape metadata drawn from them, and the commands
//! by which the engine orders what it draws.

pub mod game_dir;
pub mod drs_manager;
pub mod shape_metadata;
pub mod shape_manager;
pub mod render_command;
