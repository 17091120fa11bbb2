//! A simultaneous-move variant of shogi: the rules engine, its text formats,
//! and the commit-reveal protocol that keeps each camp's next move secret.
use vstd::prelude::*;

pub mod text;
pub mod types;
pub mod board;
pub mod resolve;
pub mod movegen;
pub mod kifu;
pub mod terminate;
pub mod serialize;
pub mod roundtrip;
pub mod rules;
pub mod census;
pub mod archive;
pub mod protocol;
pub mod notation;
pub mod online;
pub mod desk;
pub mod console;
pub mod link;
pub mod browser;
pub mod portal;

verus! {

/// The version of the rules that this crate implements: (major, minor).
pub const RULE_VERSION: (u32, u32) = (0, 7);

} // verus!
