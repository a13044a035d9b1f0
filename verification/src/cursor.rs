//! The comparison's own cursor into the change hub, and its lifetime.
//!
//! A cursor is not a value that can be put back wherever it came from: once the observation ends it
//! is unsubscribed, and the number names nothing any more. The drain that reads it runs with the
//! slot's lock released, so the slot may be closed or move on while it runs.

use vstd::prelude::*;

verus! {

/// A consumer's position in the change hub's stream, by the number the hub knows it under.
#[derive(Clone, Copy, Debug, PartialEq, Eq, Structural)]
pub struct SinkCursor(pub u64);

/// What a slot holds, as its contracts speak of it.
pub struct SlotView {
    pub cursor: Option<SinkCursor>,
    pub epoch: u64,
    pub closed: bool,
}

impl SlotView {
    /// A slot nothing was ever subscribed for.
    pub open spec fn fresh() -> SlotView {
        SlotView { cursor: None, epoch: 0, closed: false }
    }

    /// A position may be written back under this epoch.
    pub open spec fn accepts(self, epoch: u64) -> bool {
        !self.closed && self.epoch == epoch
    }

    pub open spec fn advanced(self, epoch: u64, cursor: SinkCursor) -> SlotView {
        if self.accepts(epoch) {
            SlotView { cursor: Some(cursor), ..self }
        } else {
            self
        }
    }

    pub open spec fn ended(self) -> SlotView {
        SlotView { cursor: None, closed: true, ..self }
    }

    /// The slot after an opening, where `subscribed` is what the hub gave if it was asked.
    pub open spec fn opened(self, subscribed: SinkCursor) -> SlotView {
        if self.closed || self.cursor is Some {
            self
        } else {
            SlotView { cursor: Some(subscribed), epoch: (self.epoch + 1) as u64, ..self }
        }
    }
}

/// The comparison's cursor and its lifecycle. Closed is terminal: nothing subscribes again, and a
/// drain that comes back to a closed slot unsubscribes what it was holding instead of storing it.
/// The epoch tells a cursor this slot still owns from one that has been replaced under it.
pub struct ScanCursorSlot {
    cursor: Option<SinkCursor>,
    epoch: u64,
    closed: bool,
}

impl View for ScanCursorSlot {
    type V = SlotView;

    closed spec fn view(&self) -> SlotView {
        SlotView { cursor: self.cursor, epoch: self.epoch, closed: self.closed }
    }
}

impl Default for ScanCursorSlot {
    fn default() -> (slot: ScanCursorSlot)
        ensures
            slot@ == SlotView::fresh(),
    {
        ScanCursorSlot { cursor: None, epoch: 0, closed: false }
    }
}

impl ScanCursorSlot {
    #[verifier::type_invariant]
    spec fn inv(self) -> bool {
        &&& self.closed ==> self.cursor is None
        &&& self.epoch <= 1
        &&& !self.closed && self.cursor is None ==> self.epoch == 0
    }

    /// The cursor to drain, subscribing one if this slot is open and has none, plus the epoch the
    /// caller must present to write back. The hub is asked in no other case: a cursor subscribed
    /// beside the one held, or for a closed slot, is one nobody would give back.
    pub fn open<F: FnOnce() -> SinkCursor>(&mut self, subscribe: F) -> (opened: Option<
        (SinkCursor, u64),
    >)
        requires
            !old(self)@.closed && old(self)@.cursor is None ==> subscribe.requires(()),
        ensures
            opened is None <==> old(self)@.closed,
            opened is None ==> final(self)@ == old(self)@,
            opened matches Some((cursor, epoch)) ==> {
                &&& old(self)@.cursor is Some ==> old(self)@.cursor == Some(cursor)
                &&& old(self)@.cursor is None ==> subscribe.ensures((), cursor)
                &&& final(self)@ == old(self)@.opened(cursor)
                &&& final(self)@.cursor == Some(cursor)
                &&& final(self)@.epoch == epoch
            },
    {
        proof {
            use_type_invariant(&*self);
        }
        if self.closed {
            return None;
        }
        let cursor = match self.cursor {
            Some(cursor) => cursor,
            None => {
                let cursor = subscribe();
                *self = ScanCursorSlot { cursor: Some(cursor), epoch: self.epoch + 1, closed: false };
                cursor
            },
        };
        Some((cursor, self.epoch))
    }

    /// Store the position a drain reached. Refused, for the caller to unsubscribe the cursor, when
    /// the slot was closed or moved on while that drain ran.
    #[must_use]
    pub fn advance(&mut self, epoch: u64, cursor: SinkCursor) -> (stored: bool)
        ensures
            stored == old(self)@.accepts(epoch),
            final(self)@ == old(self)@.advanced(epoch, cursor),
    {
        proof {
            use_type_invariant(&*self);
        }
        if self.closed || self.epoch != epoch {
            return false;
        }
        self.cursor = Some(cursor);
        true
    }

    /// End this slot's life and hand back what it holds. Terminal.
    pub fn close(&mut self) -> (held: Option<SinkCursor>)
        ensures
            held == old(self)@.cursor,
            final(self)@ == old(self)@.ended(),
    {
        proof {
            use_type_invariant(&*self);
        }
        let held = self.cursor;
        *self = ScanCursorSlot { cursor: None, epoch: self.epoch, closed: true };
        held
    }

    pub fn peek(&self) -> (cursor: Option<SinkCursor>)
        ensures
            cursor == self@.cursor,
    {
        self.cursor
    }

    pub fn is_closed(&self) -> (closed: bool)
        ensures
            closed == self@.closed,
    {
        self.closed
    }

    /// What the slot is holding. A closed one holds nothing: a number the hub has forgotten, sitting
    /// where the next reader looks, is what this lifecycle exists to forbid.
    pub fn holds(&self) -> (cursor: Option<SinkCursor>)
        ensures
            cursor == self@.cursor,
            self@.closed ==> cursor is None,
    {
        proof {
            use_type_invariant(self);
        }
        self.cursor
    }
}

/// Closed is terminal: no opening, no position written back and no second close brings anything
/// back into a slot that was closed, and the second close has nothing to hand out.
pub proof fn law_closed_is_terminal(slot: SlotView, epoch: u64, cursor: SinkCursor)
    ensures
        slot.ended().closed,
        slot.ended().cursor is None,
        slot.ended().advanced(epoch, cursor) == slot.ended(),
        slot.ended().opened(cursor) == slot.ended(),
        slot.ended().ended() == slot.ended(),
        !slot.ended().accepts(epoch),
{
}

/// A drain that overlapped nothing writes its position back under the epoch it was given; one whose
/// slot moved on is refused, and leaves the slot as it is.
pub proof fn law_a_drain_writes_back_only_to_its_own_epoch(
    slot: SlotView,
    subscribed: SinkCursor,
    reached: SinkCursor,
    epoch: u64,
)
    requires
        !slot.closed,
    ensures
        ({
            let opened = slot.opened(subscribed);
            &&& opened.accepts(opened.epoch)
            &&& opened.advanced(opened.epoch, reached) == (SlotView {
                cursor: Some(reached),
                ..opened
            })
            &&& epoch != opened.epoch ==> opened.advanced(epoch, reached) == opened
            &&& opened.advanced(opened.epoch, reached).opened(subscribed) == opened.advanced(
                opened.epoch,
                reached,
            )
        }),
{
}

} // verus!
