//! Finding the MQTT broker on the network.

use vstd::prelude::*;

verus! {

/// How long to wait after the name could not be resolved. The broker may be in the middle of
/// being set up, so there is no hurry.
pub const RESOLVE_ERROR_RETRY_MILLISECONDS: u64 = 25_000;

/// How long to wait after the name resolved to no address at all.
pub const NO_ADDRESS_RETRY_MILLISECONDS: u64 = 500;

/// What to do with the answer to looking up the broker's name.
#[derive(Debug, Clone, Copy, PartialEq, Eq)]
pub enum ResolveStep {
    /// Connect to this IPv4 address
    Use([u8; 4]),
    /// Look the name up again after this long
    RetryAfter(u64),
}

/// The first address the broker's name resolved to, or a retry when the lookup failed (`None`)
/// or found nothing.
pub fn resolve_step(addresses: Option<Vec<[u8; 4]>>) -> (step: ResolveStep)
    ensures
        match addresses {
            None => step == ResolveStep::RetryAfter(RESOLVE_ERROR_RETRY_MILLISECONDS),
            Some(found) => if found@.len() == 0 {
                step == ResolveStep::RetryAfter(NO_ADDRESS_RETRY_MILLISECONDS)
            } else {
                step == ResolveStep::Use(found@[0])
            },
        },
{
    match addresses {
        None => ResolveStep::RetryAfter(RESOLVE_ERROR_RETRY_MILLISECONDS),
        Some(found) => if found.len() == 0 {
            ResolveStep::RetryAfter(NO_ADDRESS_RETRY_MILLISECONDS)
        } else {
            ResolveStep::Use(found[0])
        },
    }
}

} // verus!
