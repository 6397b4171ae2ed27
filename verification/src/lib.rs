//! Core logic of a shared painting board: connected painters, the replay of
//! stored strokes to a newcomer, and the relay of fresh strokes to everyone else.

pub mod ids;
pub mod registry;
pub mod stream;
pub mod session;
pub mod config;
