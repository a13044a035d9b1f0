//! The workspace graph's first build, held for whoever watches a boot.
//!
//! The claim is the graph's own single flight: while it is held, every other claimant is refused
//! exactly as whichever claimant loses the race is. So a source is unconsulted because nothing may
//! build it, not because no build has got there yet.

use crate::inner::Inner;
use crate::types::GraphStatus;
use vstd::prelude::*;

verus! {

/// The reservation of one boot. The graph is created deep inside the boot, where no parameter
/// reaches, and the claim has to be taken there.
#[derive(Clone, Copy, Debug, PartialEq, Eq, Structural)]
pub enum FirstBuildHold {
    /// No boot asked for a hold.
    Unarmed,
    /// A boot is running, and its graph has not been reached.
    Armed,
    /// The graph's first build is held.
    Held,
}

impl FirstBuildHold {
    /// Arm the hold for a boot, and say whether it could be: one boot, one reservation. A nested
    /// one would take the outer boot's.
    pub fn arm(&mut self) -> (armed: bool)
        ensures
            armed == (*old(self) is Unarmed),
            armed ==> *final(self) is Armed,
            !armed ==> *final(self) == *old(self),
    {
        if *self == FirstBuildHold::Unarmed {
            *self = FirstBuildHold::Armed;
            true
        } else {
            false
        }
    }

    /// Taken by the boot as soon as the graph exists: `claim` claims the first build, and is asked
    /// only where a hold is armed and nothing is held yet.
    pub fn hold_the_first_build<F: FnOnce() -> bool>(&mut self, claim: F)
        requires
            *old(self) is Armed ==> claim.requires(()),
        ensures
            !(*old(self) is Armed) ==> *final(self) == *old(self),
            *old(self) is Armed ==> {
                ||| claim.ensures((), true) && *final(self) is Held
                ||| claim.ensures((), false) && *final(self) is Armed
            },
    {
        if *self == FirstBuildHold::Armed && claim() {
            *self = FirstBuildHold::Held;
        }
    }

    /// The boot is over: disarm, and say whether its graph's first build is held.
    pub fn take(&mut self) -> (held: bool)
        ensures
            held == (*old(self) is Held),
            *final(self) is Unarmed,
    {
        let held = *self == FirstBuildHold::Held;
        *self = FirstBuildHold::Unarmed;
        held
    }
}

/// Whether the graph is still what a hold makes it: claimed, and nothing published.
pub fn holds_unconsulted(inner: &Inner, has_snapshot: bool) -> (holds: bool)
    ensures
        holds == (inner.status is Loading && !has_snapshot),
{
    matches!(inner.status, GraphStatus::Loading) && !has_snapshot
}

} // verus!
