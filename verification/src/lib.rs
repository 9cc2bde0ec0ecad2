//! Typed decoding of the line-oriented output of `p4 where`.
//!
//! The crate never starts a process. A caller builds a [`where_::WhereCommand`],
//! spawns the command line it describes, and hands the captured bytes (or the
//! failure to spawn) back; the crate decides about retries and turns the bytes
//! into an ordered sequence of typed items.

pub mod err;
pub mod invocation;
pub mod p4;
pub mod parser;
pub mod text;
pub mod where_;
pub mod where_parser;
pub mod where_proofs;

pub use p4::{RetryPolicy, P4};
