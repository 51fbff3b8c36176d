//! Oxide Chat: the room protocol, the relay's routing decisions and the
//! terminal client's state machine, with their contracts proved by Verus.

pub mod text;
pub mod wrappers;
pub mod clock;
pub mod wire;
pub mod route;
pub mod config;
pub mod client;
pub mod avatar;
pub mod view;
