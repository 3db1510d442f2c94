//! An in-memory append-only hash chain: a sequence of blocks, each bound to
//! its predecessor by that predecessor's hash, admitted by a proof-of-work
//! search and checked by a pairwise verification pass.

pub mod chain;
pub mod hashing;
pub mod laws;

pub use chain::Block;
pub use chain::Blockchain;
pub use chain::VerifyError;
