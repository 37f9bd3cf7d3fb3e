//! Tiered account storage: an append-once file format for a batch of
//! accounts (account blocks, an index block, a deduplicated owners block,
//! a footer and a magic number), with a writer that lays out the bytes of a
//! file and a reader that validates a file whole before it answers
//! positional queries.
use vstd::prelude::*;

pub mod bytes;
pub mod meta;
pub mod error;
pub mod footer;
pub mod owners;
pub mod hash;
pub mod account;
pub mod byte_block;
pub mod writer;
pub mod reader;
pub mod cold;
pub mod storage;
pub mod theorems;

verus! {

/// The alignment boundary of the optional fields inside an account block,
/// and the factor between an account's position and its index.
pub const ALIGN_BOUNDARY_OFFSET: usize = 8;

} // verus!
