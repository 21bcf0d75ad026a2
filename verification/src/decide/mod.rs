//! Path search and hunting settings.

pub mod hunt;
pub mod open_list;
pub mod path_laws;
pub mod pathfind;
pub mod tile_map;
