//! A content host's resource engine: an identifier codec, a generic keyed
//! record store with upsert semantics, filter/pagination composition, a
//! bounded execution-bridge model, a blob/metadata coordinator, and an error
//! mapper.

pub mod bridge;
pub mod codec;
pub mod files;
pub mod filters;
pub mod links;
pub mod routes;
pub mod setup;
pub mod store;
pub mod texts;

use vstd::prelude::*;

verus! {

/// The hard cap on how many records one list request may return.
pub const MAX_PAGE_SIZE: usize = 500;

} // verus!
