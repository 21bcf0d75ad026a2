//! What the bot does: walking, and starting the client's own attack loop.

pub mod attack;
pub mod screen_target;
pub mod skill;
pub mod walk;
pub mod walk_laws;
pub mod walk_state;
