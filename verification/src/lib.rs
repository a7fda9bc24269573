//! Deterministic state-transition core for a small ledger runtime.
//!
//! Two independent ledgers are maintained: a content ledger of posts, their
//! comment sequences, and tips between participants (`blogchain`), and a
//! claims registry recording ownership of opaque byte-string claims (`poe`).
//! Every operation validates its inputs, performs all of its writes or none,
//! and records a typed event on success.

pub mod blogchain;
pub mod bytemap;
pub mod currency;
pub mod identity;
pub mod poe;
pub mod umap;

use vstd::prelude::*;

verus! {

/// A participant's identity, as handed in by the host's authenticated
/// dispatch.
pub type AccountId = u64;

/// A content-addressed post identifier.
pub type PostId = u64;

/// A currency amount.
pub type Balance = u64;

/// A block height read from the host's clock.
pub type BlockNumber = u64;

} // verus!
