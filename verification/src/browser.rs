//! The text interface that a browser front end uses: positions in SFEN,
//! actions in USI, and replies as JSON text.
pub mod json;

pub mod engine;
pub mod notation;
pub mod session;
