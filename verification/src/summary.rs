//! What a wait that timed out says of the graph it waited on.

use crate::inner::Inner;
use crate::text;
use crate::text::{decimal_text, flag_text, maybe_text};
use crate::types::{GraphStatus, Published};
use vstd::prelude::*;

verus! {

/// What the `Debug` form of a text is: quoted, and escaped where a reader could not tell.
pub uninterp spec fn quoted(text: Seq<char>) -> Seq<char>;

/// `<str as Debug>::fmt`, through `format!`: a function of the text alone.
#[verifier::external_body]
fn quoted_text(text: &str) -> (form: String)
    ensures
        form@ == quoted(text@),
{
    format!("{text:?}")
}

/// What the graph owes, as far as a summary names it.
#[derive(Clone, Copy, Debug, PartialEq, Eq, Structural)]
pub struct Owed {
    pub change: Option<u64>,
    pub forced: Option<u64>,
    pub failed: bool,
    pub marks: bool,
    pub recovery: bool,
}

/// A status, as a summary spells it.
pub open spec fn status_form(status: GraphStatus) -> Seq<char> {
    match status {
        GraphStatus::Disabled => "Disabled"@,
        GraphStatus::Idle => "Idle"@,
        GraphStatus::Loading => "Loading"@,
        GraphStatus::Ready { files } => "Ready { files: "@ + text::decimal(files as nat) + " }"@,
        GraphStatus::Failed(message) => "Failed("@ + quoted(message@) + ")"@,
    }
}

/// A publication, as a summary spells it.
pub open spec fn publication_form(published: Option<Published>) -> Seq<char> {
    match published {
        Some(published) => "generation "@ + text::decimal(published.generation as nat)
            + ", reload "@ + published.reload.name() + ", stale "@ + text::flag(published.stale)
            + ", force_stale "@ + text::flag(published.force_stale),
        None => "none"@,
    }
}

/// Everything a timed-out wait needs to say to be diagnosable.
pub open spec fn summary_of(inner: Inner, owed: Owed) -> Seq<char> {
    "status "@ + status_form(inner.status) + "; published: "@ + publication_form(inner.published)
        + "; owed: change "@ + text::maybe(owed.change) + ", forced "@ + text::maybe(owed.forced)
        + ", failed "@ + text::flag(owed.failed) + ", marks "@ + text::flag(owed.marks)
        + ", recovery "@ + text::flag(owed.recovery)
}

fn status_text(status: &GraphStatus) -> (form: String)
    ensures
        form@ == status_form(*status),
{
    match status {
        GraphStatus::Disabled => String::from_str("Disabled"),
        GraphStatus::Idle => String::from_str("Idle"),
        GraphStatus::Loading => String::from_str("Loading"),
        GraphStatus::Ready { files } => {
            let mut form = String::from_str("Ready { files: ");
            form.append(decimal_text(*files as u64).as_str());
            form.append(" }");
            form
        },
        GraphStatus::Failed(message) => {
            let mut form = String::from_str("Failed(");
            form.append(quoted_text(message.as_str()).as_str());
            form.append(")");
            form
        },
    }
}

fn publication_text(published: &Option<Published>) -> (form: String)
    ensures
        form@ == publication_form(*published),
{
    match published {
        Some(published) => {
            let mut form = String::from_str("generation ");
            form.append(decimal_text(published.generation).as_str());
            form.append(", reload ");
            form.append(published.reload.label());
            form.append(", stale ");
            form.append(flag_text(published.stale));
            form.append(", force_stale ");
            form.append(flag_text(published.force_stale));
            form
        },
        None => String::from_str("none"),
    }
}

/// The observed state, for the message of a wait that ran out: a wait that reports only its own
/// name leaves a failure with nothing to diagnose.
pub fn graph_state_summary(inner: &Inner, owed: &Owed) -> (summary: String)
    ensures
        summary@ == summary_of(*inner, *owed),
{
    let mut summary = String::from_str("status ");
    summary.append(status_text(&inner.status).as_str());
    summary.append("; published: ");
    summary.append(publication_text(&inner.published).as_str());
    summary.append("; owed: change ");
    summary.append(maybe_text(owed.change).as_str());
    summary.append(", forced ");
    summary.append(maybe_text(owed.forced).as_str());
    summary.append(", failed ");
    summary.append(flag_text(owed.failed));
    summary.append(", marks ");
    summary.append(flag_text(owed.marks));
    summary.append(", recovery ");
    summary.append(flag_text(owed.recovery));
    summary
}

} // verus!
