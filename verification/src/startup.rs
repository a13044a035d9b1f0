//! The boot's graph decision.
//!
//! Claim the first build, then reuse a cached graph, serve a drifted one while it is caught up,
//! build the graph and the search chunks in one fused pass, or fall back to an ordinary build.

use crate::protocol;
use crate::protocol::Protocol;
use vstd::prelude::*;

verus! {

/// Whether the search index was populated by the graph's own pass, so the caller knows whether it
/// still needs the standalone indexer.
#[derive(Clone, Copy, Debug, PartialEq, Eq, Structural)]
pub enum FusedStartup {
    Fused,
    Standalone,
}

/// How an attempt to publish something already built ended.
#[derive(Clone, Copy, Debug, PartialEq, Eq, Structural)]
pub enum PublishAttempt {
    Published,
    /// There was nothing to publish: the next way is tried.
    FallBack,
    /// The attempt failed, and its failure has to be recorded.
    Refused,
}

/// What the boot wants done.
#[derive(Clone, Copy, Debug, PartialEq, Eq, Structural)]
pub enum StartupAsk {
    /// The first build, claimed for an external builder.
    Claim,
    /// The position of the fact stream, before any disk read below.
    ReadObservation,
    PublishCached { observed: u64 },
    /// A drifted cache: stale answers now, and a reload that catches the graph up.
    PublishStale { observed: u64 },
    /// The refusal of an attempt is recorded against the claim.
    RecordFailure,
    /// Whether the search engine has an embedder.
    AskSemantic { observed: u64 },
    /// The claim is given back, and the graph is built the ordinary way.
    AbortAndLoad,
    FusedBuild { observed: u64 },
    Done(FusedStartup),
}

#[derive(Clone, Copy, Debug, PartialEq, Eq, Structural)]
pub enum StartupReply {
    Claimed(bool),
    Observed(u64),
    Attempt(PublishAttempt),
    Semantic(bool),
    /// Whether the fused build succeeded; a failure it has already recorded itself.
    Built(bool),
    Finished,
}

/// A boot's way to its graph.
#[derive(Clone, Copy, Debug, PartialEq, Eq, Structural)]
pub struct Startup {
    pub ask: StartupAsk,
}

impl Startup {
    pub open spec fn begun(has_root: bool) -> Startup {
        Startup {
            ask: if has_root {
                StartupAsk::Claim
            } else {
                StartupAsk::Done(FusedStartup::Standalone)
            },
        }
    }

    pub open spec fn replied(self, reply: StartupReply) -> Startup {
        Startup {
            ask: match (self.ask, reply) {
                (StartupAsk::Claim, StartupReply::Claimed(true)) => StartupAsk::ReadObservation,
                (StartupAsk::ReadObservation, StartupReply::Observed(observed)) => {
                    StartupAsk::PublishCached { observed }
                },
                (StartupAsk::PublishCached { observed }, StartupReply::Attempt(attempt)) => {
                    match attempt {
                        PublishAttempt::Published => StartupAsk::Done(FusedStartup::Standalone),
                        PublishAttempt::FallBack => StartupAsk::PublishStale { observed },
                        PublishAttempt::Refused => StartupAsk::RecordFailure,
                    }
                },
                (StartupAsk::PublishStale { observed }, StartupReply::Attempt(attempt)) => {
                    match attempt {
                        PublishAttempt::Published => StartupAsk::Done(FusedStartup::Standalone),
                        PublishAttempt::FallBack => StartupAsk::AskSemantic { observed },
                        PublishAttempt::Refused => StartupAsk::RecordFailure,
                    }
                },
                (StartupAsk::AskSemantic { observed }, StartupReply::Semantic(semantic)) => {
                    if semantic {
                        StartupAsk::FusedBuild { observed }
                    } else {
                        StartupAsk::AbortAndLoad
                    }
                },
                (StartupAsk::FusedBuild { .. }, StartupReply::Built(true)) => StartupAsk::Done(
                    FusedStartup::Fused,
                ),
                (_, _) => StartupAsk::Done(FusedStartup::Standalone),
            },
        }
    }

    pub fn begin(has_root: bool) -> (startup: Startup)
        ensures
            startup == Startup::begun(has_root),
    {
        let ask = if has_root {
            StartupAsk::Claim
        } else {
            StartupAsk::Done(FusedStartup::Standalone)
        };
        Startup { ask }
    }

    /// Take the reply to what was asked, and say what comes next.
    pub fn reply(self, reply: StartupReply) -> (next: Startup)
        requires
            self.takes(reply),
        ensures
            next == self.replied(reply),
    {
        let standalone = StartupAsk::Done(FusedStartup::Standalone);
        let ask = match (self.ask, reply) {
            (StartupAsk::Claim, StartupReply::Claimed(claimed)) => {
                if claimed {
                    StartupAsk::ReadObservation
                } else {
                    // Another path already owns the build; the search engine is indexed the normal
                    // way against whatever graph it produces.
                    standalone
                }
            },
            (StartupAsk::ReadObservation, StartupReply::Observed(observed)) => {
                StartupAsk::PublishCached { observed }
            },
            (StartupAsk::PublishCached { observed }, StartupReply::Attempt(attempt)) => {
                match attempt {
                    // A warm start: the persisted search index is reused as well.
                    PublishAttempt::Published => standalone,
                    PublishAttempt::FallBack => StartupAsk::PublishStale { observed },
                    PublishAttempt::Refused => StartupAsk::RecordFailure,
                }
            },
            (StartupAsk::PublishStale { observed }, StartupReply::Attempt(attempt)) => {
                match attempt {
                    PublishAttempt::Published => standalone,
                    PublishAttempt::FallBack => StartupAsk::AskSemantic { observed },
                    PublishAttempt::Refused => StartupAsk::RecordFailure,
                }
            },
            (StartupAsk::AskSemantic { observed }, StartupReply::Semantic(semantic)) => {
                if semantic {
                    StartupAsk::FusedBuild { observed }
                } else {
                    StartupAsk::AbortAndLoad
                }
            },
            (StartupAsk::FusedBuild { observed: _ }, StartupReply::Built(built)) => {
                if built {
                    StartupAsk::Done(FusedStartup::Fused)
                } else {
                    standalone
                }
            },
            _ => standalone,
        };
        Startup { ask }
    }
}

impl Protocol for Startup {
    type Reply = StartupReply;

    open spec fn takes(self, reply: StartupReply) -> bool {
        match self.ask {
            StartupAsk::Claim => reply is Claimed,
            StartupAsk::ReadObservation => reply is Observed,
            StartupAsk::PublishCached { .. } => reply is Attempt,
            StartupAsk::PublishStale { .. } => reply is Attempt,
            StartupAsk::RecordFailure => reply is Finished,
            StartupAsk::AskSemantic { .. } => reply is Semantic,
            StartupAsk::AbortAndLoad => reply is Finished,
            StartupAsk::FusedBuild { .. } => reply is Built,
            StartupAsk::Done(_) => false,
        }
    }

    open spec fn after(self, reply: StartupReply) -> Startup {
        self.replied(reply)
    }
}

/// Where a boot stands in its conversation.
spec fn boot_stands(has_root: bool, replies: Seq<StartupReply>) -> bool {
    let ask = protocol::run(Startup::begun(has_root), replies).ask;
    let n = replies.len() as int;
    &&& !has_root ==> n == 0
    &&& ask is Claim ==> n == 0
    &&& ask is ReadObservation ==> n == 1
    &&& ask is PublishCached ==> n == 2
    &&& ask is PublishStale ==> n == 3
    &&& ask is AskSemantic ==> n == 4
    &&& ask is AbortAndLoad ==> n == 5
    &&& ask is FusedBuild ==> n == 5
    &&& ask is RecordFailure ==> n >= 3 && replies.last() == StartupReply::Attempt(
        PublishAttempt::Refused,
    )
    &&& !(ask is Claim) && !(ask is Done) ==> replies[0] == StartupReply::Claimed(true)
    &&& ask is PublishCached ==> replies[1] == StartupReply::Observed(ask->PublishCached_observed)
    &&& ask is PublishStale ==> replies[1] == StartupReply::Observed(ask->PublishStale_observed)
    &&& ask is AskSemantic ==> replies[1] == StartupReply::Observed(ask->AskSemantic_observed)
    &&& ask is FusedBuild ==> replies[1] == StartupReply::Observed(ask->FusedBuild_observed)
    &&& ask is AskSemantic || ask is AbortAndLoad || ask is FusedBuild ==> replies[2]
        == StartupReply::Attempt(PublishAttempt::FallBack) && replies[3] == StartupReply::Attempt(
        PublishAttempt::FallBack,
    )
    &&& ask is AbortAndLoad ==> replies[4] == StartupReply::Semantic(false)
    &&& ask is FusedBuild ==> replies[4] == StartupReply::Semantic(true)
    &&& ask == StartupAsk::Done(FusedStartup::Fused) ==> n == 6 && replies.last()
        == StartupReply::Built(true)
    &&& ask is Done && n > 0 ==> claim_ended(replies)
}

/// How the claim the boot made came to its end: it was never made, a publication superseded it, its
/// failure was recorded, it was given back, or the fused build carried it.
pub open spec fn claim_ended(replies: Seq<StartupReply>) -> bool {
    ||| replies.last() == StartupReply::Claimed(false)
    ||| replies.last() == StartupReply::Attempt(PublishAttempt::Published)
    ||| replies.last() is Finished
    ||| replies.last() is Built
}

proof fn lemma_boot_stands(has_root: bool, replies: Seq<StartupReply>)
    requires
        protocol::conversation(Startup::begun(has_root), replies),
    ensures
        boot_stands(has_root, replies),
    decreases replies.len(),
{
    if replies.len() > 0 {
        lemma_boot_stands(has_root, replies.drop_last());
    }
}

/// A boot reports a fused start exactly where the fused build succeeded, and a fused build is tried
/// only where neither cache could be published and the search engine has an embedder.
pub proof fn law_only_a_fused_build_replaces_the_indexer(
    has_root: bool,
    replies: Seq<StartupReply>,
)
    requires
        protocol::conversation(Startup::begun(has_root), replies),
    ensures
        protocol::run(Startup::begun(has_root), replies).ask == StartupAsk::Done(
            FusedStartup::Fused,
        ) <==> replies.len() > 0 && replies.last() == StartupReply::Built(true),
        protocol::run(Startup::begun(has_root), replies).ask is FusedBuild ==> {
            &&& replies.len() == 5
            &&& replies[2] == StartupReply::Attempt(PublishAttempt::FallBack)
            &&& replies[3] == StartupReply::Attempt(PublishAttempt::FallBack)
            &&& replies[4] == StartupReply::Semantic(true)
        },
{
    lemma_boot_stands(has_root, replies);
    if replies.len() > 0 {
        lemma_boot_stands(has_root, replies.drop_last());
    }
}

/// A boot never walks away from its claim: it ends with the claim refused, superseded by a
/// publication, ended by the step that recorded its failure or gave it back, or carried to the
/// fused build's own outcome.
pub proof fn law_a_boot_never_abandons_its_claim(has_root: bool, replies: Seq<StartupReply>)
    requires
        protocol::conversation(Startup::begun(has_root), replies),
        protocol::run(Startup::begun(has_root), replies).ask is Done,
        has_root,
    ensures
        replies.len() > 0,
        claim_ended(replies),
{
    lemma_boot_stands(has_root, replies);
}

/// What the boot publishes is charged with the position read right after the claim, before
/// anything of the workspace was read.
pub proof fn law_a_boot_observes_before_it_reads(has_root: bool, replies: Seq<StartupReply>)
    requires
        protocol::conversation(Startup::begun(has_root), replies),
    ensures
        ({
            let ask = protocol::run(Startup::begun(has_root), replies).ask;
            &&& ask is PublishCached ==> replies.len() == 2 && replies[1] == StartupReply::Observed(
                ask->PublishCached_observed,
            )
            &&& ask is FusedBuild ==> replies[1] == StartupReply::Observed(ask->FusedBuild_observed)
        }),
{
    lemma_boot_stands(has_root, replies);
}

} // verus!
