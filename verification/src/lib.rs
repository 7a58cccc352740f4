//! Resolution of process-virtual addresses into file-relative offsets with
//! provenance metadata, together with a bounded, identity-validated cache of
//! parsed-binary backends and an owned flat form of the results for handing
//! across a foreign boundary.

pub mod backend;
pub mod c_api;
pub mod cache;
pub mod identity;
pub mod lru_store;
pub mod meta;
pub mod normalize;

use vstd::prelude::*;

verus! {

/// An address value: process-virtual before normalization, file-relative
/// after.
pub type Addr = u64;

} // verus!
