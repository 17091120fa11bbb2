//! The commit-reveal protocol: commitments that hide each camp's action until
//! both are in, board hashes that catch diverging positions, acknowledgements
//! that close a turn, identity checks on reconnection, and version negotiation.
pub mod hash;
pub mod auth;
pub mod commit;
pub mod negotiate;
pub mod session;
pub mod wire;
pub mod client;
pub mod recovery;
pub mod result;
pub mod report;
