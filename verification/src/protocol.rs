//! Owners that ask and are told.
//!
//! An owner whose work alternates with the ledger, the lease or the disk is a value that says what
//! it wants done next. What holds of it is stated over every conversation with it: every sequence
//! of replies, each to what was asked when it came.

use vstd::prelude::*;

verus! {

/// An owner that asks for one thing at a time.
pub trait Protocol: Sized {
    type Reply;

    /// Whether the reply is one to what is asked.
    spec fn takes(self, reply: Self::Reply) -> bool;

    /// The owner once it has been told.
    spec fn after(self, reply: Self::Reply) -> Self;
}

/// The owner after a sequence of replies.
pub open spec fn run<P: Protocol>(owner: P, replies: Seq<P::Reply>) -> P
    decreases replies.len(),
{
    if replies.len() == 0 {
        owner
    } else {
        run(owner, replies.drop_last()).after(replies.last())
    }
}

/// Every reply of the sequence answers what was asked when it came.
pub open spec fn conversation<P: Protocol>(owner: P, replies: Seq<P::Reply>) -> bool
    decreases replies.len(),
{
    replies.len() > 0 ==> {
        &&& conversation(owner, replies.drop_last())
        &&& run(owner, replies.drop_last()).takes(replies.last())
    }
}

/// A conversation is one up to each of its replies.
pub proof fn lemma_conversation_so_far<P: Protocol>(owner: P, replies: Seq<P::Reply>, k: int)
    requires
        conversation(owner, replies),
        0 <= k <= replies.len(),
    ensures
        conversation(owner, replies.take(k)),
    decreases replies.len(),
{
    if k == replies.len() {
        assert(replies.take(k) =~= replies);
    } else {
        lemma_conversation_so_far(owner, replies.drop_last(), k);
        assert(replies.drop_last().take(k) =~= replies.take(k));
    }
}

} // verus!
