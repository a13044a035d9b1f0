use graph_state::code_mask::{characters, end_of_block, mask_non_code};
use graph_state::debt::{BuildKind, BuildStart};
use graph_state::executor::{run_ended, BuildRun, RunAsk, RunReply, StartOutcome};
use graph_state::inner::ReloadClaim;
use graph_state::intake::{hold_decision, GraphStep};
use graph_state::source_gate::{hold_sites, lifecycle_locks_taken_under_the_debt};
use graph_state::watcher::{drain, Batch, WatchAsk, WatchReply, WatchStep, Watcher};

fn sites(source: &str) -> Vec<String> {
    hold_sites(&characters(source)).into_iter().map(|line| line.into_iter().collect()).collect()
}

fn offenders(source: &str) -> Vec<String> {
    lifecycle_locks_taken_under_the_debt(&characters(source))
        .into_iter()
        .map(|found| format!("line {}: {}", found.line, found.region.iter().collect::<String>()))
        .collect()
}

fn masked(source: &str) -> String {
    mask_non_code(&characters(source)).into_iter().collect()
}

const HOLD_DECISION: &str = "    fn hold_decision(&self, now: Instant) {\n        \
                             lock_recover(&self.debt).hold(now);\n        \
                             self.wake_watcher();\n    }\n";

/// A hold moves the next decision, so it wakes the watcher on every path that writes one.
#[test]
fn every_hold_wakes_the_watcher() {
    let found = sites(HOLD_DECISION);
    assert!(!found.is_empty(), "the scan found no hold at all — it stopped discriminating");
    for site in &found {
        assert!(
            site.contains("self.hold_decision(")
                || site.starts_with("lock_recover(&self.debt).hold("),
            "a hold written outside `hold_decision` does not wake the watcher: {site}",
        );
    }
    assert_eq!(
        HOLD_DECISION.matches("fn hold_decision(").count(),
        1,
        "the one place a hold may be written",
    );
    assert_eq!(found.len(), 1, "every hold goes through `hold_decision`: {found:?}");

    // And every path that holds goes through it: the step itself is followed by the wake.
    assert_eq!(hold_decision(), vec![GraphStep::Hold, GraphStep::Wake]);
    for forced in [false, true] {
        let run = BuildRun::begin(BuildStart { kind: BuildKind::Reload, forced });
        let run = run.reply(RunReply::Position(3)).reply(RunReply::Reload(ReloadClaim::Held));
        let RunAsk::Perform(end) = run.ask else { panic!("the claim decides: {:?}", run.ask) };
        assert_eq!(run_ended(forced, end), vec![GraphStep::Hold, GraphStep::Wake]);
        assert_eq!(run.reply(RunReply::Finished).ask, RunAsk::Done(StartOutcome::Settled));
    }
}

#[test]
fn the_hold_gate_sees_a_hold_written_through_a_bound_guard() {
    let decision = HOLD_DECISION;
    assert_eq!(sites(decision).len(), 1, "the one legitimate hold is a site");
    for (shape, extra) in [
        (
            "a bound guard",
            "        let mut debt = lock_recover(&self.debt);\n        debt.hold(now);\n",
        ),
        ("another graph", "        lock_recover(&graph.debt).hold(now);\n"),
    ] {
        let injected = format!("{decision}    fn quiet(&self, now: Instant) {{\n{extra}    }}\n");
        assert_eq!(
            sites(&injected).len(),
            2,
            "a hold written through {shape} is invisible to the scan",
        );
    }
}

/// The order every path uses: the facts first, and then the debt.
#[test]
fn the_debt_lock_is_never_taken_before_the_lifecycle_lock() {
    let ordered = "    fn wake_at(&self, now: Instant) -> Option<Instant> {\n        \
                   let facts = self.facts();\n        \
                   lock_recover(&self.debt).decide(now, facts).wake_at\n    }\n\n    \
                   fn settle(&self) {\n        \
                   let in_flight = self.drift_pending();\n        \
                   if lock_recover(&self.debt).settle_marks(Instant::now(), in_flight) {\n            \
                   self.wake_watcher();\n        }\n    }\n\n    \
                   fn facts(&self) -> Facts {\n        \
                   let inner = lock_recover(&self.inner);\n        \
                   inner.facts()\n    }\n";
    let found = offenders(ordered);
    assert!(
        found.is_empty(),
        "the debt guard is held while the lifecycle lock is taken:\n{found:?}",
    );

    // One expression that evaluates the guard first is the other way round.
    let inverted = "    fn wake_at(&self) {\n        \
                    let at = lock_recover(&self.debt).decide(now, self.facts());\n    }\n";
    assert_eq!(
        offenders(inverted),
        vec!["line 2: lock_recover(&self.debt).decide(now, self.facts());     ".to_owned()],
    );
}

#[test]
fn the_lock_order_gate_sees_a_lifecycle_read_under_a_bound_debt_guard() {
    let injected = "    fn inverted(&self) {\n        \
                    let mut debt = lock_recover(&self.debt);\n        \
                    let facts = self.facts();\n        \
                    debt.decide(Instant::now(), facts);\n    }\n";
    assert_eq!(
        offenders(injected).len(),
        1,
        "a bound debt guard over a lifecycle read is invisible"
    );

    // And the shape that is not an inversion: the guard is given back first.
    let released = "    fn ordered(&self) {\n        \
                    let mut debt = lock_recover(&self.debt);\n        \
                    debt.abandon();\n        \
                    drop(debt);\n        \
                    let _ = self.facts();\n    }\n";
    assert!(
        offenders(released).is_empty(),
        "a lifecycle read after the guard was dropped is not an inversion",
    );
}

#[test]
fn the_lock_order_gate_is_not_fooled_by_braces_in_literals_or_comments() {
    for (shape, noise) in [
        ("a string", "let s = \"a } b\";"),
        ("an escaped string", "let s = \"q\\\" } \";"),
        ("a character", "let c = '}';"),
        ("a raw string", "let s = r#\"a } \"} b\"#;"),
        ("a byte string", "let s = b\"}\";"),
        ("a block comment", "/* } */"),
        ("a nested block comment", "/* /* } */ } */"),
        ("a line comment", "// }"),
    ] {
        let injected = format!(
            "    fn inverted<'a>(&'a self) {{\n        \
             let mut debt = lock_recover(&self.debt);\n        \
             {noise}\n        \
             let facts = self.facts();\n        \
             debt.decide(Instant::now(), facts);\n    }}\n"
        );
        assert_eq!(
            offenders(&injected).len(),
            1,
            "a brace in {shape} hid the inversion from the scan",
        );
    }
    // And text that only names the locks is not a lock.
    let named = "    fn named(&self) {\n        \
                 let mut debt = lock_recover(&self.debt);\n        \
                 let s = \"self.facts()\";\n        \
                 /* lock_recover(&self.inner) */\n    }\n";
    assert!(
        offenders(named).is_empty(),
        "a lock named inside a literal or a comment was read as taken",
    );
}

/// The watcher records through the quiet forms everywhere, and decides only at its alarm, through
/// the executor that cannot take the first build.
#[test]
fn the_watcher_never_calls_a_recording_that_decides() {
    let mut changes = 0;
    let mut forced = 0;
    for bits in 0..16u32 {
        let batch = Batch {
            fact: 9,
            rescan_required: bits & 1 != 0,
            loss_token: Some(4),
            has_entries: bits & 2 != 0,
            universe: bits & 4 != 0,
            project: bits & 8 != 0,
        };
        let steps = drain(batch, true);
        assert_eq!(
            steps.iter().filter(|step| **step == WatchStep::Graph(GraphStep::Drive)).count(),
            0,
            "the watcher records through the form that decides where it records: {steps:?}",
        );
        changes += steps
            .iter()
            .filter(|step| **step == WatchStep::Graph(GraphStep::RecordChange(9)))
            .count();
        forced += steps
            .iter()
            .filter(|step| **step == WatchStep::Graph(GraphStep::RecordForced(9)))
            .count();
        assert_eq!(steps.last(), Some(&WatchStep::Acknowledge));
    }
    assert!(
        changes > 0 && forced > 0,
        "the watcher no longer records at all; this gate has lost its subject",
    );
    // And the one place it does decide is the alarm, through the restricted executor.
    let rung = Watcher { generation: 1, ask: WatchAsk::TakeAsk }.reply(WatchReply::Asked(false));
    assert_eq!(rung.ask, WatchAsk::DriveWithoutTheFirstBuild);
}

#[test]
fn the_mask_blanks_text_and_keeps_code_and_lines() {
    assert_eq!(masked("let a = \"x\ny\"; // t\nb"), "let a =   \n  ;     \nb");
    assert_eq!(masked("r#\"a\"# b"), "       b");
    assert_eq!(masked("var\"a\""), "var   ");
    assert_eq!(masked("br\"a\" 'c' b'd' '\\'' 'static"), "                    'static");
    assert_eq!(masked("\"open"), "     ");
    assert_eq!(masked("/* /* */ open"), "             ");
    assert_eq!(masked("\"ends with \\"), "            ");
    assert_eq!(masked("r\"open"), "      ");
}

#[test]
fn a_block_ends_at_the_brace_that_closes_it() {
    let code = characters("a { b } c } d");
    assert_eq!(end_of_block(&code, 0), 10);
    assert_eq!(end_of_block(&code, 4), 2);
    assert_eq!(end_of_block(&characters("no braces"), 0), 9);
}

#[test]
fn the_gates_read_only_code() {
    let commented = "    // debt.hold(now);\n    /* lock_recover(&self.debt) self.facts() */\n";
    assert!(sites(commented).is_empty());
    assert!(offenders(commented).is_empty());
}

#[test]
fn a_hold_site_is_its_trimmed_line() {
    assert_eq!(
        sites("  a();\n\t  debt.hold(now); // twice: debt.hold(now)\n"),
        vec!["debt.hold(now);".to_owned()],
    );
}

/// A name is one the scan can follow: a pattern is none, and the guard then ends with its statement.
#[test]
fn only_a_plain_binding_outlives_its_statement() {
    let pattern = "fn f(&self) {\n    let Some(debt) = take(lock_recover(&self.debt));\n    \
                   self.facts();\n}\n";
    assert!(offenders(pattern).is_empty());
    let plain = "fn f(&self) {\n    let debt = lock_recover(&self.debt);\n    self.facts();\n}\n";
    assert_eq!(offenders(plain).len(), 1);
    // A guard in a tail expression ends with its block.
    let tail = "fn f(&self) {\n    lock_recover(&self.debt).stale()\n}\n\
                fn g(&self) {\n    self.facts();\n}\n";
    assert!(offenders(tail).is_empty());
}
