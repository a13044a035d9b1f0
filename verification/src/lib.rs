//! The lifecycle of a workspace call graph.
//!
//! A daemon keeps one graph per workspace: built once, published, compared with disk, rebuilt when
//! disk has moved on, and served to requests all the while. What it owes is held by a ledger, what
//! changes on disk is delivered by a hub, and whether it may write at all is said by a lease. This
//! crate is what happens between those: every decision, every transition of the state they share,
//! and the order in which each owner asks for what it needs.
//!
//! - State: [`types`], [`debt`], [`inner`] with [`slot_laws`], [`cursor`], [`signals`], [`locks`].
//! - Owners, each a [`protocol`] of its own: [`executor`], [`admission`], [`probe`], [`publish`],
//!   [`startup`], [`watcher`]; [`intake`] is what they record, [`marks`] what becomes of the marks
//!   they place and [`obligations`] of the refreshes a hook owes.
//! - What a walk of the workspace leads to: [`universe`] over [`path_index`], [`roots`], both over
//!   [`paths`], and [`advisory`].
//! - Answers: [`freshness`], [`summary`] with [`text`].
//! - What stands beside a test of the graph: [`fixtures`], [`first_build_hold`], [`bounded_wait`],
//!   and the rules [`source_gate`] reads off a source through [`code_mask`].
//!
//! What each operation is for is said apart from it, of whatever it answers: of the slot in
//! [`reload_laws`], of the owners in [`drive_laws`], [`claim_laws`], [`publish_laws`] and
//! [`watch_laws`], of what they hand over in [`intake_laws`], of answers in [`answer_laws`] and
//! [`text_laws`], of the workspace in [`path_laws`], [`root_laws`] and [`scan_laws`], and of sources
//! in [`mask_laws`] and [`rule_laws`].

pub mod admission;
pub mod advisory;
pub mod answer_laws;
pub mod bounded_wait;
pub mod claim_laws;
pub mod code_mask;
pub mod cursor;
pub mod debt;
pub mod drive_laws;
pub mod executor;
pub mod first_build_hold;
pub mod fixtures;
pub mod freshness;
pub mod inner;
pub mod intake;
pub mod intake_laws;
pub mod locks;
pub mod marks;
pub mod mask_laws;
pub mod obligations;
pub mod path_index;
pub mod path_laws;
pub mod paths;
pub mod probe;
pub mod protocol;
pub mod publish;
pub mod publish_laws;
pub mod reload_laws;
pub mod root_laws;
pub mod roots;
pub mod rule_laws;
pub mod scan_laws;
pub mod signals;
pub mod slot_laws;
pub mod source_gate;
pub mod startup;
pub mod summary;
pub mod text;
pub mod text_laws;
pub mod types;
pub mod universe;
pub mod watch_laws;
pub mod watcher;
