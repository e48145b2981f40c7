//! Core engine of a mod.io provider plug-in: reference codec, resolution
//! state machine, provider cache, fetch pipeline, update walker and the
//! retry policy, with their behaviour stated in contracts.
//!
//! Network and disk access are left to the embedding application: every
//! operation that needs the remote service is expressed as a state machine
//! that hands a request out and is advanced with the response.

pub mod cache;
pub mod codec;
pub mod fetch;
pub mod queries;
pub mod resolve;
pub mod retry;
pub mod tags;
pub mod types;
pub mod vecmap;
pub mod update;

use vstd::prelude::*;

verus! {

/// Provider id under which cache entries for this provider are kept.
pub fn provider_id() -> (r: String)
    ensures
        r@ == "modio"@,
{
    String::from_str("modio")
}

} // verus!
