//! Locks whose holder may have panicked.
//!
//! What the graph's locks guard is rebuilt from brief stores and reads, so a poisoned guard still
//! carries valid data.

use vstd::prelude::*;

verus! {

/// The guard of a lock, taken out of the poison where a prior holder panicked: `Err` carries the
/// poisoned guard.
pub fn lock_recover<G>(locked: Result<G, G>) -> (guard: G)
    ensures
        locked matches Ok(held) ==> guard == held,
        locked matches Err(poisoned) ==> guard == poisoned,
{
    match locked {
        Ok(held) => held,
        Err(poisoned) => poisoned,
    }
}

/// Why a lock could not be taken without waiting.
#[derive(Debug)]
pub enum LockRefusal<G> {
    Poisoned(G),
    /// Somebody else holds it.
    WouldBlock,
}

/// The publication gate, taken without waiting. A poisoned gate is a held gate that will never be
/// given back, and refusing to flush for the life of the daemon is the worse answer, so it is
/// taken; an offer somebody else is making is not this turn's work.
pub fn claim_hook_offer<G>(attempt: Result<G, LockRefusal<G>>) -> (owner: Option<G>)
    ensures
        attempt matches Ok(held) ==> owner == Some(held),
        attempt matches Err(LockRefusal::Poisoned(poisoned)) ==> owner == Some(poisoned),
        attempt matches Err(LockRefusal::WouldBlock) ==> owner is None,
{
    match attempt {
        Ok(held) => Some(held),
        Err(LockRefusal::Poisoned(poisoned)) => Some(poisoned),
        Err(LockRefusal::WouldBlock) => None,
    }
}

} // verus!
