//! The flags and counters the graph's owners hand work to each other through.

use crate::inner::Inner;
use crate::types::WatchPhase;
use vstd::prelude::*;

verus! {

/// What one owner of the graph leaves for another.
#[derive(Clone, Copy, Debug, PartialEq, Eq, Structural)]
pub struct Signals {
    /// Moved whenever owed work is armed from another thread, so a watcher asleep on a deadline
    /// computed before it wakes and computes a new one.
    pub alarms: u64,
    /// Owed work a bounded turn could not finish. Read by the owner before its wait, so the yield
    /// hands the work on instead of sleeping on it.
    pub continuation: bool,
    /// A request asked for the build a request may ask for: the first one, and the retry the
    /// schedule says is due. A fact, recorded and left for the owner.
    pub first_build_asked: bool,
    /// Raised while the fallback that carries such an ask without a watcher is in flight, so a
    /// burst of requests asks once rather than once each.
    pub first_build_kick: bool,
    /// Admissions granted in this generation, so each has an identity of its own.
    pub claims: u64,
}

impl Signals {
    pub open spec fn woken(self) -> Signals {
        Signals { alarms: self.alarms.wrapping_add(1), ..self }
    }

    pub open spec fn latched(self) -> Signals {
        Signals { continuation: true, ..self.woken() }
    }

    pub open spec fn latch_taken(self) -> Signals {
        Signals { continuation: false, ..self }
    }

    pub open spec fn claim_issued(self) -> Signals {
        Signals { claims: (self.claims + 1) as u64, ..self }
    }

    pub open spec fn asked(self) -> Signals {
        Signals { first_build_asked: true, ..self }
    }

    pub open spec fn ask_taken(self) -> Signals {
        Signals { first_build_asked: false, ..self }
    }

    pub open spec fn kick_taken(self) -> Signals {
        Signals { first_build_kick: true, ..self }
    }

    pub open spec fn kick_released(self) -> Signals {
        Signals { first_build_kick: false, ..self }
    }

    /// Whether a watcher that sampled the alarm counter at `sampled` must not go on waiting.
    pub open spec fn interrupts(self, sampled: u64, leaving: bool) -> bool {
        self.alarms != sampled || self.continuation || leaving
    }

    pub fn new() -> (signals: Signals)
        ensures
            signals == (Signals {
                alarms: 0,
                continuation: false,
                first_build_asked: false,
                first_build_kick: false,
                claims: 0,
            }),
    {
        Signals {
            alarms: 0,
            continuation: false,
            first_build_asked: false,
            first_build_kick: false,
            claims: 0,
        }
    }

    /// Tell the watcher its alarms may have moved.
    pub fn wake_watcher(&mut self)
        ensures
            *final(self) == old(self).woken(),
    {
        self.alarms = self.alarms.wrapping_add(1);
    }

    /// Say that owed work was left ripe when a turn yielded, and wake the owner to take it.
    pub fn latch_continuation(&mut self)
        ensures
            *final(self) == old(self).latched(),
    {
        self.continuation = true;
        self.wake_watcher();
    }

    /// Take the continuation latch, if one was left. Read by the owner before it decides how long
    /// to wait.
    pub fn take_continuation(&mut self) -> (latched: bool)
        ensures
            latched == old(self).continuation,
            *final(self) == old(self).latch_taken(),
    {
        let latched = self.continuation;
        self.continuation = false;
        latched
    }

    /// Whether a continuation is latched, without taking it.
    pub fn continuation_pending(&self) -> (latched: bool)
        ensures
            latched == self.continuation,
    {
        self.continuation
    }

    /// The predicate of the owner's wait. Watches the latch as well as the counter: a latch can be
    /// raised between the owner taking it and sampling the counter, and then the sample already
    /// carries the producer's bump.
    pub fn wait_is_over(&self, sampled: u64, leaving: bool) -> (over: bool)
        ensures
            over == self.interrupts(sampled, leaving),
    {
        self.alarms != sampled || self.continuation || leaving
    }

    /// The next admission's identity. Monotone within this generation and never reused: an outcome
    /// names the claim it belongs to, so a late one cannot be mistaken for the current build's.
    pub fn next_claim_id(&mut self) -> (claim: u64)
        requires
            old(self).claims < u64::MAX,
        ensures
            claim == old(self).claims + 1,
            *final(self) == old(self).claim_issued(),
    {
        self.claims = self.claims + 1;
        self.claims
    }

    /// The build a request may ask for: the first one, and the retry the schedule says is due.
    /// Asks, and does not decide: deciding reads the lease, which is a file. Says whether the ask
    /// was made; a graph no build could be claimed on is left alone.
    ///
    /// Latched and not merely counted: the owner reads the latch before it samples the alarm
    /// counter, so an ask landing between that sample and the wait cannot be lost.
    pub fn ensure_first_build(&mut self, inner: &Inner) -> (made: bool)
        ensures
            made == inner.startable(),
            made ==> *final(self) == old(self).asked().latched(),
            !made ==> *final(self) == *old(self),
    {
        if !inner.can_start() {
            return false;
        }
        self.first_build_asked = true;
        self.latch_continuation();
        true
    }

    /// Put an ask back for the owner: ownership could not be confirmed, and an unanswered question
    /// is not an answer.
    pub fn put_back_first_build_ask(&mut self)
        ensures
            *final(self) == old(self).asked(),
    {
        self.first_build_asked = true;
    }

    /// Take the ask a request left, for the executor that answers it.
    pub fn take_first_build_ask(&mut self) -> (asked: bool)
        ensures
            asked == old(self).first_build_asked,
            *final(self) == old(self).ask_taken(),
    {
        let asked = self.first_build_asked;
        self.first_build_asked = false;
        asked
    }

    /// Whether an ask must be carried by a kick of its own: the daemon is not leaving, no watcher
    /// runs, and no kick is in flight. Takes the kick where it says so.
    pub fn begin_kick(&mut self, stopped: bool, phase: WatchPhase) -> (taken: bool)
        ensures
            taken == (!stopped && phase != WatchPhase::Running && !old(self).first_build_kick),
            taken ==> *final(self) == old(self).kick_taken(),
            !taken ==> *final(self) == *old(self),
    {
        if stopped || phase == WatchPhase::Running || self.first_build_kick {
            return false;
        }
        self.first_build_kick = true;
        true
    }

    /// Let go of the kick, and say whether an ask is still there. Read after letting go: an ask
    /// that landed while the kick was held was left to it, and has no other carrier.
    pub fn end_kick(&mut self) -> (again: bool)
        ensures
            again == old(self).first_build_asked,
            *final(self) == old(self).kick_released(),
    {
        self.first_build_kick = false;
        self.first_build_asked
    }
}

/// What is left of a moment: nothing once it has passed.
pub open spec fn remaining(until: u64, now: u64) -> u64 {
    if until > now {
        (until - now) as u64
    } else {
        0
    }
}

/// Work handed over at any point after the owner took its latch ends the owner's wait, whatever
/// the owner sampled: a latch through the latch itself, and a wake after the sample through the
/// counter.
pub proof fn law_no_hand_off_is_slept_through(signals: Signals, sampled: u64)
    ensures
        signals.latched().interrupts(sampled, false),
        signals.woken().interrupts(signals.alarms, false),
        signals.latched().woken().interrupts(sampled, false),
{
}

/// A quiet graph lets its owner wait: nothing but a moved counter, a latch or a departure ends
/// the wait.
pub proof fn law_a_quiet_graph_is_waited_on(signals: Signals, sampled: u64)
    requires
        !signals.interrupts(sampled, false),
    ensures
        signals.alarms == sampled,
        !signals.continuation,
{
}

/// An ask made while a kick still holds the flag is found by that kick when it lets go. Nothing
/// that happens in between takes the ask away but the taking of it.
pub proof fn law_an_ask_during_a_kick_is_carried(signals: Signals)
    requires
        signals.first_build_kick,
    ensures
        signals.asked().latched().first_build_kick,
        signals.asked().latched().kick_released().first_build_asked,
        signals.asked().woken().first_build_asked,
        signals.asked().latch_taken().first_build_asked,
        signals.asked().claim_issued().first_build_asked,
{
}

/// Kicks are single-flight: one that is taken is taken until it is released, whatever else is handed
/// over meanwhile.
pub proof fn law_a_kick_is_single_flight(signals: Signals)
    ensures
        signals.kick_taken().first_build_kick,
        ({
            let taken = signals.kick_taken();
            &&& taken.woken().first_build_kick
            &&& taken.latched().first_build_kick
            &&& taken.latch_taken().first_build_kick
            &&& taken.asked().first_build_kick
            &&& taken.ask_taken().first_build_kick
            &&& taken.claim_issued().first_build_kick
        }),
        !signals.kick_taken().kick_released().first_build_kick,
{
}

/// Admissions have identities of their own: the next one is above every one given out before, and
/// nothing but an admission moves what has been given out.
pub proof fn law_claims_are_never_reused(signals: Signals, given: u64)
    requires
        given <= signals.claims < u64::MAX,
    ensures
        signals.claim_issued().claims > given,
        signals.woken().claims == signals.claims,
        signals.latched().claims == signals.claims,
        signals.latch_taken().claims == signals.claims,
        signals.asked().claims == signals.claims,
        signals.ask_taken().claims == signals.claims,
        signals.kick_taken().claims == signals.claims,
        signals.kick_released().claims == signals.claims,
{
}

} // verus!
