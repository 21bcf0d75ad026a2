//! Decision core of an automated hunting assistant: what to attack, where to
//! walk, when to wait, escape or teleport, and the byte-level helpers that the
//! surrounding program needs to observe and drive the game client.
//!
//! Everything here is a function of plain values. Reading the game's memory,
//! posting window messages and keeping time are the business of the program
//! around the library.

pub mod action;
pub mod client;
pub mod config;
pub mod decide;
pub mod engine;
pub mod hotkey;
pub mod hunt4;
pub mod keyed;
pub mod minimap;
pub mod named;
pub mod text;
pub mod time;
