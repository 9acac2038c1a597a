//! Authoritative state core of a small multiplayer world: registered players,
//! their movable entities, a shared chat log, and the handlers that change them.
pub mod tables;
pub mod database;
pub mod reducers;
pub mod laws;
