//! Gates that read the graph's own rules off its source.
//!
//! The debt lock is never taken before the lifecycle lock: one place that takes them the other way
//! round deadlocks the graph outright. And a hold on the decision is written in one place, the one
//! that wakes the watcher. Both rules are about every path there is, so they are read off the text.

use crate::code_mask;
use crate::code_mask::{
    characters, end_of_block, end_of_line, is_name_char, is_whitespace, mask_non_code,
};
use vstd::prelude::*;

verus! {

/// The needle stands here.
pub open spec fn occurs(s: Seq<char>, needle: Seq<char>, i: int) -> bool {
    0 <= i && i + needle.len() <= s.len() && s.subrange(i, i + needle.len()) == needle
}

/// The first place at or behind `from` where the needle stands.
pub open spec fn found(s: Seq<char>, needle: Seq<char>, from: int) -> Option<int>
    decreases s.len() - from,
{
    if from + needle.len() > s.len() || from >= s.len() {
        None
    } else if occurs(s, needle, from) {
        Some(from)
    } else {
        found(s, needle, from + 1)
    }
}

/// Where the line that holds `at` starts.
pub open spec fn line_start(s: Seq<char>, at: int) -> int
    decreases at,
{
    if at <= 0 {
        0
    } else if s[at - 1] == '\n' {
        at
    } else {
        line_start(s, at - 1)
    }
}

/// The line that holds `at`.
pub open spec fn line_at(s: Seq<char>, at: int) -> Seq<char> {
    let start = line_start(s, at);
    s.subrange(start, code_mask::line_comment_end(s, start))
}

pub open spec fn without_leading_space(s: Seq<char>) -> Seq<char>
    decreases s.len(),
{
    if s.len() > 0 && code_mask::whitespace(s[0]) {
        without_leading_space(s.skip(1))
    } else {
        s
    }
}

pub open spec fn without_trailing_space(s: Seq<char>) -> Seq<char>
    decreases s.len(),
{
    if s.len() > 0 && code_mask::whitespace(s.last()) {
        without_trailing_space(s.drop_last())
    } else {
        s
    }
}

pub open spec fn trimmed(s: Seq<char>) -> Seq<char> {
    without_trailing_space(without_leading_space(s))
}

fn part(s: &[char], from: usize, to: usize) -> (copy: Vec<char>)
    requires
        from <= to <= s@.len(),
    ensures
        copy@ == s@.subrange(from as int, to as int),
{
    let mut copy: Vec<char> = Vec::new();
    let mut i: usize = from;
    while i < to
        invariant
            from <= i <= to <= s@.len(),
            copy@ == s@.subrange(from as int, i as int),
        decreases to - i,
    {
        copy.push(s[i]);
        i += 1;
        assert(s@.subrange(from as int, i as int) =~= s@.subrange(from as int, i - 1).push(
            s@[i - 1],
        ));
    }
    copy
}

fn stands_at(s: &[char], needle: &[char], i: usize) -> (is: bool)
    ensures
        is == occurs(s@, needle@, i as int),
{
    if i > s.len() || needle.len() > s.len() - i {
        return false;
    }
    let mut k: usize = 0;
    let len: usize = s.len();
    while k < needle.len()
        invariant
            k <= needle@.len(),
            i + needle@.len() <= len == s@.len(),
            forall|m: int| 0 <= m < k ==> s@[i + m] == #[trigger] needle@[m],
        decreases needle@.len() - k,
    {
        if s[i + k] != needle[k] {
            assert(s@.subrange(i as int, i + needle@.len())[k as int] != needle@[k as int]);
            return false;
        }
        k += 1;
    }
    assert(s@.subrange(i as int, i + needle@.len()) =~= needle@);
    true
}

fn find(s: &[char], needle: &[char], from: usize) -> (at: Option<usize>)
    ensures
        at is None <==> found(s@, needle@, from as int) is None,
        at matches Some(i) ==> found(s@, needle@, from as int) == Some(i as int) && from <= i && i
            + needle@.len() <= s@.len(),
{
    let mut i: usize = from;
    while i < s.len()
        invariant
            from <= i,
            found(s@, needle@, from as int) == found(s@, needle@, i as int),
        decreases s@.len() - i,
    {
        if needle.len() > s.len() - i {
            return None;
        }
        if stands_at(s, needle, i) {
            return Some(i);
        }
        i += 1;
    }
    None
}

fn start_of_line(s: &[char], at: usize) -> (start: usize)
    requires
        at <= s@.len(),
    ensures
        start == line_start(s@, at as int),
        start <= at,
{
    let mut i: usize = at;
    while i > 0 && s[i - 1] != '\n'
        invariant
            i <= at <= s@.len(),
            line_start(s@, at as int) == line_start(s@, i as int),
        decreases i,
    {
        i -= 1;
    }
    i
}

fn trim_start(s: &[char]) -> (trimmed: Vec<char>)
    ensures
        trimmed@ == without_leading_space(s@),
{
    let mut i: usize = 0;
    assert(s@.skip(0) =~= s@);
    while i < s.len() && is_whitespace(s[i])
        invariant
            i <= s@.len(),
            without_leading_space(s@) == without_leading_space(s@.skip(i as int)),
        decreases s@.len() - i,
    {
        assert(s@.skip(i as int)[0] == s@[i as int]);
        assert(s@.skip(i as int).skip(1) =~= s@.skip(i + 1));
        i += 1;
    }
    proof {
        if i < s@.len() {
            assert(s@.skip(i as int)[0] == s@[i as int]);
        }
        assert(s@.skip(i as int) =~= s@.subrange(i as int, s@.len() as int));
    }
    part(s, i, s.len())
}

fn trim(s: &[char]) -> (text: Vec<char>)
    ensures
        text@ == trimmed(s@),
{
    let start = trim_start(s);
    let mut to: usize = start.len();
    assert(start@.take(to as int) =~= start@);
    while to > 0 && is_whitespace(start[to - 1])
        invariant
            to <= start@.len(),
            without_trailing_space(start@) == without_trailing_space(start@.take(to as int)),
        decreases to,
    {
        assert(start@.take(to as int).last() == start@[to - 1]);
        assert(start@.take(to as int).drop_last() =~= start@.take(to - 1));
        to -= 1;
    }
    proof {
        if to > 0 {
            assert(start@.take(to as int).last() == start@[to - 1]);
        }
        assert(start@.take(to as int) =~= start@.subrange(0, to as int));
    }
    part(start.as_slice(), 0, to)
}

/// The places from `at` on where the needle stands, none of them overlapping.
pub open spec fn places(s: Seq<char>, needle: Seq<char>, at: int) -> Seq<int>
    decreases code_mask::left_of(s, at),
{
    match found(s, needle, at) {
        Some(i) if at <= i < s.len() && needle.len() > 0 => seq![i] + places(
            s,
            needle,
            i + needle.len(),
        ),
        _ => Seq::empty(),
    }
}

fn find_all(s: &[char], needle: &[char]) -> (found_at: Vec<usize>)
    requires
        needle@.len() > 0,
    ensures
        found_at@.map_values(|i: usize| i as int) == places(s@, needle@, 0),
        forall|k: int| 0 <= k < found_at@.len() ==> (#[trigger] found_at@[k]) < s@.len(),
{
    let mut found_at: Vec<usize> = Vec::new();
    let mut at: usize = 0;
    let len: usize = s.len();
    let ghost int_of = |i: usize| i as int;
    assert(found_at@.map_values(int_of) + places(s@, needle@, 0) =~= places(s@, needle@, 0));
    loop
        invariant
            at <= len == s@.len(),
            needle@.len() > 0,
            int_of == (|i: usize| i as int),
            found_at@.map_values(int_of) + places(s@, needle@, at as int) == places(s@, needle@, 0),
            forall|k: int| 0 <= k < found_at@.len() ==> (#[trigger] found_at@[k]) < s@.len(),
        decreases s@.len() - at,
    {
        match find(s, needle, at) {
            None => {
                assert(found_at@.map_values(int_of) =~= places(s@, needle@, 0));
                return found_at;
            },
            Some(i) => {
                let ghost before = found_at@.map_values(int_of);
                found_at.push(i);
                at = i + needle.len();
                assert(found_at@.map_values(int_of) =~= before.push(i as int));
                assert(before + (seq![i as int] + places(s@, needle@, at as int)) =~= before.push(
                    i as int,
                ) + places(s@, needle@, at as int));
            },
        }
    }
}

/// What writes a hold.
pub open spec fn hold_call() -> Seq<char> {
    ".hold("@
}

/// The lines of code that write a hold: every call of it, whatever the receiver is spelled as.
/// Looked for by its receiver, a hold written through a guard bound to another name would be none.
pub open spec fn holds_written(source: Seq<char>) -> Seq<Seq<char>> {
    let code = code_mask::masked(source);
    places(code, hold_call(), 0).map_values(|i: int| trimmed(line_at(code, i)))
}

/// The text of a list of lines.
pub open spec fn texts(lines: Seq<Vec<char>>) -> Seq<Seq<char>> {
    lines.map_values(|line: Vec<char>| line@)
}

/// The lines of code that write a hold on the decision.
pub fn hold_sites(source: &[char]) -> (sites: Vec<Vec<char>>)
    ensures
        texts(sites@) == holds_written(source@),
{
    let code = mask_non_code(source);
    let needle = characters(".hold(");
    proof {
        reveal_strlit(".hold(");
    }
    let found_at = find_all(code.as_slice(), needle.as_slice());
    let ghost at = places(code@, hold_call(), 0);
    let mut sites: Vec<Vec<char>> = Vec::new();
    let mut k: usize = 0;
    while k < found_at.len()
        invariant
            k <= found_at@.len() == at.len(),
            sites@.len() == k,
            forall|m: int| 0 <= m < found_at@.len() ==> (#[trigger] found_at@[m]) < code@.len(),
            forall|m: int| 0 <= m < at.len() ==> found_at@[m] == #[trigger] at[m],
            forall|m: int| 0 <= m < k ==> (#[trigger] sites@[m])@ == trimmed(line_at(code@, at[m])),
        decreases found_at@.len() - k,
    {
        let i: usize = found_at[k];
        assert(at[k as int] == i);
        let start = start_of_line(code.as_slice(), i);
        let end = end_of_line(code.as_slice(), start);
        let line = part(code.as_slice(), start, end);
        sites.push(trim(line.as_slice()));
        k += 1;
    }
    assert(texts(sites@) =~= holds_written(source@));
    sites
}

/// The way every path takes the debt lock.
pub open spec fn debt_lock() -> Seq<char> {
    "lock_recover(&self.debt)"@
}

/// The text without the keyword a binding may carry, however often.
pub open spec fn without_mut(s: Seq<char>) -> Seq<char>
    decreases s.len(),
{
    if occurs(s, "mut "@, 0) && "mut "@.len() > 0 {
        without_mut(s.skip("mut "@.len() as int))
    } else {
        s
    }
}

/// The name a statement binds, where what stands before the lock in its line is a plain `let`.
pub open spec fn bound_name(before: Seq<char>) -> Option<Seq<char>> {
    let statement = without_leading_space(before);
    if !occurs(statement, "let "@, 0) {
        None
    } else {
        let rest = without_leading_space(
            without_mut(without_leading_space(statement.skip("let "@.len() as int))),
        );
        match found(rest, "="@, 0) {
            Some(eq) => {
                let name = trimmed(rest.take(eq));
                if name.len() > 0 && forall|k: int|
                    0 <= k < name.len() ==> code_mask::names(#[trigger] name[k]) {
                    Some(name)
                } else {
                    None
                }
            },
            None => None,
        }
    }
}

/// Where the statement a text starts in ends.
pub open spec fn statement_end(tail: Seq<char>) -> int {
    match found(tail, ";\n"@, 0) {
        Some(stop) => stop + 1,
        None => tail.len() as int,
    }
}

pub open spec fn least(a: int, b: int) -> int {
    if a <= b {
        a
    } else {
        b
    }
}

/// How far into the text behind it a guard lives. One used in an expression lives as long as the
/// statement; a bound one until it is dropped, or the block ends that it was bound in. Either way
/// it cannot outlive the block it was taken in: one in a tail expression has no statement to end.
pub open spec fn guard_life(tail: Seq<char>, bound: Option<Seq<char>>) -> int {
    let statement = statement_end(tail);
    let alive = match bound {
        Some(name) => {
            let after = tail.skip(statement);
            let ends = code_mask::block_end(after);
            let dropped = match found(after, "drop("@ + name + ")"@, 0) {
                Some(at) => at,
                None => ends,
            };
            statement + least(dropped, ends)
        },
        None => statement,
    };
    least(alive, code_mask::block_end(tail))
}

/// The code a debt guard taken at `start` is alive over.
pub open spec fn guarded_region(code: Seq<char>, start: int) -> Seq<char> {
    let tail = code.skip(start);
    let bound = bound_name(code.subrange(line_start(code, start), start));
    tail.take(guard_life(tail, bound))
}

/// The lifecycle lock is taken in this code, directly or by reading the facts.
pub open spec fn takes_the_lifecycle_lock(region: Seq<char>) -> bool {
    found(region, "self.facts()"@, 0) is Some || found(region, "lock_recover(&self.inner)"@, 0)
        is Some
}

/// The places where the lifecycle lock is taken while a debt guard is alive.
pub open spec fn inversions(source: Seq<char>) -> Seq<int> {
    let code = code_mask::masked(source);
    places(code, debt_lock(), 0).filter(
        |start: int| takes_the_lifecycle_lock(guarded_region(code, start)),
    )
}

/// The number of the line that holds `at`, the first being one.
pub open spec fn line_number(s: Seq<char>, at: int) -> int
    decreases at,
{
    if at <= 0 {
        1
    } else if s[at - 1] == '\n' {
        line_number(s, at - 1) + 1
    } else {
        line_number(s, at - 1)
    }
}

/// A debt guard over a lifecycle lock.
#[derive(Debug, PartialEq, Eq)]
pub struct Inversion {
    pub line: usize,
    /// The code the guard is alive over, in one line.
    pub region: Vec<char>,
}

/// A text in one line.
pub open spec fn in_one_line(s: Seq<char>) -> Seq<char> {
    s.map_values(
        |c: char|
            if c == '\n' {
                ' '
            } else {
                c
            },
    )
}

fn strip_mut(s: &[char]) -> (rest: Vec<char>)
    ensures
        rest@ == without_mut(s@),
{
    let needle = characters("mut ");
    proof {
        reveal_strlit("mut ");
    }
    let mut i: usize = 0;
    assert(s@.skip(0) =~= s@);
    let len: usize = s.len();
    while stands_at(s, needle.as_slice(), i)
        invariant
            i <= len == s@.len(),
            needle@ == "mut "@,
            "mut "@.len() == 4,
            without_mut(s@) == without_mut(s@.skip(i as int)),
        decreases s@.len() - i,
    {
        let ghost here = s@.skip(i as int);
        assert(here.subrange(0, 4) =~= s@.subrange(i as int, i + 4));
        assert(here.skip(4) =~= s@.skip(i + 4));
        i += 4;
    }
    proof {
        let here = s@.skip(i as int);
        if occurs(here, "mut "@, 0) {
            assert(here.subrange(0, 4) =~= s@.subrange(i as int, i + 4));
        }
        assert(here =~= s@.subrange(i as int, s@.len() as int));
    }
    part(s, i, s.len())
}

fn all_name_chars(s: &[char]) -> (all: bool)
    ensures
        all == forall|k: int| 0 <= k < s@.len() ==> code_mask::names(#[trigger] s@[k]),
{
    let mut i: usize = 0;
    while i < s.len()
        invariant
            i <= s@.len(),
            forall|k: int| 0 <= k < i ==> code_mask::names(#[trigger] s@[k]),
        decreases s@.len() - i,
    {
        if !is_name_char(s[i]) {
            return false;
        }
        i += 1;
    }
    true
}

fn name_bound(before: &[char]) -> (name: Option<Vec<char>>)
    ensures
        name is None <==> bound_name(before@) is None,
        name matches Some(text) ==> bound_name(before@) == Some(text@),
{
    let statement = trim_start(before);
    let keyword = characters("let ");
    if !stands_at(statement.as_slice(), keyword.as_slice(), 0) {
        return None;
    }
    let behind = part(statement.as_slice(), keyword.len(), statement.len());
    assert(behind@ =~= statement@.skip("let "@.len() as int));
    let rest = trim_start(strip_mut(trim_start(behind.as_slice()).as_slice()).as_slice());
    let equals = characters("=");
    match find(rest.as_slice(), equals.as_slice(), 0) {
        Some(eq) => {
            let left = part(rest.as_slice(), 0, eq);
            assert(left@ =~= rest@.take(eq as int));
            let name = trim(left.as_slice());
            if name.len() > 0 && all_name_chars(name.as_slice()) {
                Some(name)
            } else {
                None
            }
        },
        None => None,
    }
}

fn end_of_statement(tail: &[char]) -> (end: usize)
    ensures
        end == statement_end(tail@),
        end <= tail@.len(),
{
    let stop = characters(";\n");
    proof {
        reveal_strlit(";\n");
    }
    let len: usize = tail.len();
    match find(tail, stop.as_slice(), 0) {
        Some(at) => at + 1,
        None => len,
    }
}

fn dropping(name: &[char]) -> (text: Vec<char>)
    ensures
        text@ == "drop("@ + name@ + ")"@,
{
    let mut text = characters("drop(");
    let mut i: usize = 0;
    while i < name.len()
        invariant
            i <= name@.len(),
            text@ == "drop("@ + name@.take(i as int),
        decreases name@.len() - i,
    {
        text.push(name[i]);
        i += 1;
        assert("drop("@ + name@.take(i as int) =~= ("drop("@ + name@.take(i - 1)).push(name@[i - 1]));
    }
    assert(name@.take(name@.len() as int) =~= name@);
    let close = characters(")");
    let mut k: usize = 0;
    let ghost so_far = text@;
    while k < close.len()
        invariant
            k <= close@.len(),
            close@ == ")"@,
            text@ == so_far + close@.take(k as int),
        decreases close@.len() - k,
    {
        text.push(close[k]);
        k += 1;
        assert(so_far + close@.take(k as int) =~= (so_far + close@.take(k - 1)).push(close@[k - 1]));
    }
    assert(close@.take(close@.len() as int) =~= close@);
    text
}

fn life_of_guard(tail: &[char], bound: &Option<Vec<char>>) -> (life: usize)
    ensures
        life == guard_life(
            tail@,
            match bound {
                Some(name) => Some(name@),
                None => None,
            },
        ),
        life <= tail@.len(),
{
    let statement = end_of_statement(tail);
    let alive: usize = match bound {
        Some(name) => {
            let ends = end_of_block(tail, statement);
            let after = part(tail, statement, tail.len());
            assert(after@ =~= tail@.skip(statement as int));
            let needle = dropping(name.as_slice());
            match find(after.as_slice(), needle.as_slice(), 0) {
                Some(at) => if at <= ends {
                    statement + at
                } else {
                    statement + ends
                },
                None => statement + ends,
            }
        },
        None => statement,
    };
    let block = end_of_block(tail, 0);
    assert(tail@.skip(0) =~= tail@);
    if alive <= block {
        alive
    } else {
        block
    }
}

fn takes_lifecycle(region: &[char]) -> (takes: bool)
    ensures
        takes == takes_the_lifecycle_lock(region@),
{
    let facts = characters("self.facts()");
    let inner = characters("lock_recover(&self.inner)");
    find(region, facts.as_slice(), 0).is_some() || find(region, inner.as_slice(), 0).is_some()
}

fn number_of_line(s: &[char], at: usize) -> (line: usize)
    requires
        at < s@.len(),
    ensures
        line == line_number(s@, at as int),
{
    let mut line: usize = 1;
    let mut i: usize = 0;
    let len: usize = s.len();
    while i < at
        invariant
            i <= at < len == s@.len(),
            line == line_number(s@, i as int),
            line <= i + 1,
        decreases at - i,
    {
        if s[i] == '\n' {
            line += 1;
        }
        i += 1;
    }
    line
}

fn on_one_line(s: &[char]) -> (text: Vec<char>)
    ensures
        text@ == in_one_line(s@),
{
    let mut text: Vec<char> = Vec::new();
    let mut i: usize = 0;
    while i < s.len()
        invariant
            i <= s@.len(),
            text@ == in_one_line(s@.take(i as int)),
        decreases s@.len() - i,
    {
        let c = if s[i] == '\n' {
            ' '
        } else {
            s[i]
        };
        text.push(c);
        i += 1;
        assert(in_one_line(s@.take(i as int)) =~= in_one_line(s@.take(i - 1)).push(c));
    }
    assert(s@.take(s@.len() as int) =~= s@);
    text
}

/// Where a debt guard is alive while the lifecycle lock is taken, directly or by reading the facts.
pub fn lifecycle_locks_taken_under_the_debt(source: &[char]) -> (offenders: Vec<Inversion>)
    ensures
        offenders@.len() == inversions(source@).len(),
        forall|k: int|
            0 <= k < offenders@.len() ==> {
                let code = code_mask::masked(source@);
                let start = inversions(source@)[k];
                (#[trigger] offenders@[k]).line == line_number(code, start)
                    && offenders@[k].region@ == in_one_line(guarded_region(code, start))
            },
{
    let code = mask_non_code(source);
    let needle = characters("lock_recover(&self.debt)");
    proof {
        reveal_strlit("lock_recover(&self.debt)");
    }
    let found_at = find_all(code.as_slice(), needle.as_slice());
    let ghost at = places(code@, debt_lock(), 0);
    let ghost offends = |start: int| takes_the_lifecycle_lock(guarded_region(code@, start));
    let mut offenders: Vec<Inversion> = Vec::new();
    let mut k: usize = 0;
    assert(at.take(0).filter(offends) =~= Seq::<int>::empty()) by {
        reveal(Seq::filter);
    }
    while k < found_at.len()
        invariant
            k <= found_at@.len() == at.len(),
            offends == (|start: int| takes_the_lifecycle_lock(guarded_region(code@, start))),
            forall|m: int| 0 <= m < found_at@.len() ==> (#[trigger] found_at@[m]) < code@.len(),
            forall|m: int| 0 <= m < at.len() ==> found_at@[m] == #[trigger] at[m],
            offenders@.len() == at.take(k as int).filter(offends).len(),
            forall|m: int|
                0 <= m < offenders@.len() ==> {
                    let start = at.take(k as int).filter(offends)[m];
                    (#[trigger] offenders@[m]).line == line_number(code@, start)
                        && offenders@[m].region@ == in_one_line(guarded_region(code@, start))
                },
        decreases found_at@.len() - k,
    {
        let start: usize = found_at[k];
        assert(at[k as int] == start);
        proof {
            assert(at.take(k + 1).drop_last() =~= at.take(k as int));
            assert(at.take(k + 1).last() == start);
            reveal(Seq::filter);
        }
        let line = start_of_line(code.as_slice(), start);
        let before = part(code.as_slice(), line, start);
        let bound = name_bound(before.as_slice());
        let tail = part(code.as_slice(), start, code.len());
        assert(tail@ =~= code@.skip(start as int));
        let life = life_of_guard(tail.as_slice(), &bound);
        let region = part(tail.as_slice(), 0, life);
        assert(region@ =~= guarded_region(code@, start as int));
        if takes_lifecycle(region.as_slice()) {
            let number = number_of_line(code.as_slice(), start);
            offenders.push(Inversion { line: number, region: on_one_line(region.as_slice()) });
        }
        k += 1;
    }
    assert(at.take(at.len() as int) =~= at);
    offenders
}

/// The gates read code and nothing else: text whose code is the same has the same holds and the
/// same inversions, whatever its comments and literals say.
pub proof fn law_the_gates_read_only_code(a: Seq<char>, b: Seq<char>)
    requires
        code_mask::masked(a) == code_mask::masked(b),
    ensures
        holds_written(a) == holds_written(b),
        inversions(a) == inversions(b),
{
}

} // verus!
