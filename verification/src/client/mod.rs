//! What the library knows of the game client: window geometry, packet
//! mirroring, the spell book and the equipped weapon.

pub mod diag_laws;
pub mod input_sim;
pub mod opcode_table;
pub mod packet_diag;
pub mod packet_events;
pub mod packet_laws;
pub mod packet_state;
pub mod server_packet_hook;
pub mod spell_book;
pub mod weapon;
