//! What the rules read off a source, place by place.
//!
//! Each law speaks of whatever a reading of the source answers, over the code the mask leaves of it:
//! which places are found, what is said of each, and how long a guard lives.

use crate::code_mask;
use crate::code_mask::mask_non_code;
use crate::mask_laws;
use crate::source_gate;
use crate::source_gate::{hold_sites, lifecycle_locks_taken_under_the_debt, Inversion};
use vstd::prelude::*;

verus! {

/// The needle stands here, character for character.
pub open spec fn stands(s: Seq<char>, needle: Seq<char>, i: int) -> bool {
    &&& 0 <= i
    &&& i + needle.len() <= s.len()
    &&& forall|k: int| 0 <= k < needle.len() ==> s[i + k] == #[trigger] needle[k]
}

proof fn lemma_stands(s: Seq<char>, needle: Seq<char>, i: int)
    ensures
        stands(s, needle, i) <==> source_gate::occurs(s, needle, i),
{
    if stands(s, needle, i) {
        assert(s.subrange(i, i + needle.len()) =~= needle);
    }
    if source_gate::occurs(s, needle, i) {
        assert forall|k: int| 0 <= k < needle.len() implies s[i + k] == #[trigger] needle[k] by {
            assert(s.subrange(i, i + needle.len())[k] == needle[k]);
        }
    }
}

/// The first place of the needle at or behind `from`.
pub open spec fn is_first(s: Seq<char>, needle: Seq<char>, from: int, at: int) -> bool {
    &&& from <= at
    &&& stands(s, needle, at)
    &&& forall|i: int| from <= i < at ==> !#[trigger] stands(s, needle, i)
}

/// The needle stands nowhere at or behind `from`.
pub open spec fn is_absent(s: Seq<char>, needle: Seq<char>, from: int) -> bool {
    forall|i: int| from <= i ==> !#[trigger] stands(s, needle, i)
}

proof fn lemma_found(s: Seq<char>, needle: Seq<char>, from: int)
    requires
        0 <= from,
        needle.len() > 0,
    ensures
        match source_gate::found(s, needle, from) {
            Some(at) => is_first(s, needle, from, at),
            None => is_absent(s, needle, from),
        },
    decreases s.len() - from,
{
    if from + needle.len() > s.len() || from >= s.len() {
    } else {
        lemma_stands(s, needle, from);
        if !source_gate::occurs(s, needle, from) {
            lemma_found(s, needle, from + 1);
        }
    }
}

proof fn lemma_first_is_found(s: Seq<char>, needle: Seq<char>, from: int, at: int)
    requires
        0 <= from,
        needle.len() > 0,
    ensures
        is_first(s, needle, from, at) ==> source_gate::found(s, needle, from) == Some(at),
        is_absent(s, needle, from) ==> source_gate::found(s, needle, from) is None,
{
    lemma_found(s, needle, from);
    if let Some(i) = source_gate::found(s, needle, from) {
        assert(stands(s, needle, i));
    }
}

/// No two places of the needle can overlap.
pub open spec fn does_not_overlap(needle: Seq<char>) -> bool {
    &&& needle.len() > 0
    &&& forall|d: int| 1 <= d < needle.len() ==> #[trigger] differs_at(needle, d)
}

/// The needle differs from itself at this distance.
pub open spec fn differs_at(needle: Seq<char>, d: int) -> bool {
    exists|k: int| 0 <= k < needle.len() - d && #[trigger] needle[k] != needle[k + d]
}

/// All the places of the needle, in order.
pub open spec fn are_places(s: Seq<char>, needle: Seq<char>, places: Seq<int>) -> bool {
    &&& forall|a: int, b: int|
        0 <= a < b < places.len() ==> #[trigger] places[a] < #[trigger] places[b]
    &&& forall|a: int| 0 <= a < places.len() ==> stands(s, needle, #[trigger] places[a])
    &&& forall|i: int| #[trigger] stands(s, needle, i) ==> places.contains(i)
}

proof fn lemma_places(s: Seq<char>, needle: Seq<char>, at: int)
    requires
        0 <= at,
        does_not_overlap(needle),
    ensures
        ({
            let found = source_gate::places(s, needle, at);
            &&& forall|a: int, b: int|
                0 <= a < b < found.len() ==> #[trigger] found[a] < #[trigger] found[b]
            &&& forall|a: int|
                0 <= a < found.len() ==> at <= #[trigger] found[a] && stands(s, needle, found[a])
            &&& forall|i: int| at <= i && #[trigger] stands(s, needle, i) ==> found.contains(i)
        }),
    decreases code_mask::left_of(s, at),
{
    lemma_found(s, needle, at);
    let all = source_gate::places(s, needle, at);
    if let Some(first) = source_gate::found(s, needle, at) {
        let next = first + needle.len();
        lemma_places(s, needle, next);
        let rest = source_gate::places(s, needle, next);
        assert(all =~= seq![first] + rest);
        assert forall|a: int| 0 <= a < all.len() implies at <= #[trigger] all[a] && stands(
            s,
            needle,
            all[a],
        ) by {
            if a > 0 {
                assert(all[a] == rest[a - 1]);
            }
        }
        assert forall|a: int, b: int| 0 <= a < b < all.len() implies #[trigger] all[a]
            < #[trigger] all[b] by {
            assert(all[b] == rest[b - 1]);
            if a > 0 {
                assert(all[a] == rest[a - 1]);
            }
        }
        assert forall|i: int| at <= i && #[trigger] stands(s, needle, i) implies all.contains(i) by {
            if i == first {
                assert(all[0] == i);
            } else if i < next {
                let d = i - first;
                assert(differs_at(needle, d));
                let k = choose|k: int|
                    0 <= k < needle.len() - d && #[trigger] needle[k] != needle[k + d];
                assert(s[i + k] == needle[k]);
                assert(s[first + (k + d)] == needle[k + d]);
            } else {
                assert(rest.contains(i));
                let a = choose|a: int| 0 <= a < rest.len() && rest[a] == i;
                assert(all[a + 1] == i);
            }
        }
    }
}

/// The line that holds a place: no line's end in it, and one or the text's on either side.
pub open spec fn is_line(s: Seq<char>, at: int, start: int, end: int) -> bool {
    &&& 0 <= start <= at < end <= s.len()
    &&& start == 0 || s[start - 1] == '\n'
    &&& end == s.len() || s[end] == '\n'
    &&& forall|k: int| start <= k < end ==> #[trigger] s[k] != '\n'
}

/// What is left of a line between the spaces it begins and ends with.
pub open spec fn is_trimmed(line: Seq<char>, left: Seq<char>) -> bool {
    exists|a: int, b: int| #[trigger] line.subrange(a, b) == left && is_between_spaces(line, a, b)
}

/// Spaces stand before and behind this part, and none at either end of it.
pub open spec fn is_between_spaces(line: Seq<char>, a: int, b: int) -> bool {
    &&& 0 <= a <= b <= line.len()
    &&& forall|k: int| 0 <= k < a ==> code_mask::whitespace(#[trigger] line[k])
    &&& forall|k: int| b <= k < line.len() ==> code_mask::whitespace(#[trigger] line[k])
    &&& a < b ==> !code_mask::whitespace(line[a]) && !code_mask::whitespace(line[b - 1])
}

proof fn lemma_leading(s: Seq<char>) -> (a: int)
    ensures
        0 <= a <= s.len(),
        source_gate::without_leading_space(s) == s.skip(a),
        forall|k: int| 0 <= k < a ==> code_mask::whitespace(#[trigger] s[k]),
        a < s.len() ==> !code_mask::whitespace(s[a]),
    decreases s.len(),
{
    if s.len() > 0 && code_mask::whitespace(s[0]) {
        let b = lemma_leading(s.skip(1));
        assert(s.skip(1).skip(b) =~= s.skip(b + 1));
        assert forall|k: int| 0 <= k < b + 1 implies code_mask::whitespace(#[trigger] s[k]) by {
            if k > 0 {
                assert(s.skip(1)[k - 1] == s[k]);
            }
        }
        b + 1
    } else {
        assert(s.skip(0) =~= s);
        0
    }
}

proof fn lemma_trailing(s: Seq<char>) -> (b: int)
    ensures
        0 <= b <= s.len(),
        source_gate::without_trailing_space(s) == s.take(b),
        forall|k: int| b <= k < s.len() ==> code_mask::whitespace(#[trigger] s[k]),
        b > 0 ==> !code_mask::whitespace(s[b - 1]),
    decreases s.len(),
{
    if s.len() > 0 && code_mask::whitespace(s.last()) {
        let b = lemma_trailing(s.drop_last());
        assert(s.drop_last().take(b) =~= s.take(b));
        assert forall|k: int| b <= k < s.len() implies code_mask::whitespace(#[trigger] s[k]) by {
            if k < s.len() - 1 {
                assert(s.drop_last()[k] == s[k]);
            }
        }
        b
    } else {
        assert(s.take(s.len() as int) =~= s);
        s.len() as int
    }
}

proof fn lemma_trimmed(line: Seq<char>)
    ensures
        is_trimmed(line, source_gate::trimmed(line)),
{
    let a = lemma_leading(line);
    let rest = line.skip(a);
    let b = lemma_trailing(rest);
    assert(rest.take(b) =~= line.subrange(a, a + b));
    assert forall|k: int| a + b <= k < line.len() implies code_mask::whitespace(
        #[trigger] line[k],
    ) by {
        assert(rest[k - a] == line[k]);
    }
    if b > 0 {
        assert(rest[b - 1] == line[a + b - 1]);
    }
    assert(is_between_spaces(line, a, a + b));
}

proof fn lemma_line(s: Seq<char>, at: int)
    requires
        0 <= at < s.len(),
        s[at] != '\n',
    ensures
        is_line(
            s,
            at,
            source_gate::line_start(s, at),
            code_mask::line_comment_end(s, source_gate::line_start(s, at)),
        ),
{
    let start = source_gate::line_start(s, at);
    lemma_line_start(s, at);
    lemma_line_end(s, start, at);
}

proof fn lemma_line_start(s: Seq<char>, at: int)
    requires
        0 <= at <= s.len(),
    ensures
        ({
            let start = source_gate::line_start(s, at);
            &&& 0 <= start <= at
            &&& start == 0 || s[start - 1] == '\n'
            &&& forall|k: int| start <= k < at ==> #[trigger] s[k] != '\n'
        }),
    decreases at,
{
    if at > 0 && s[at - 1] != '\n' {
        lemma_line_start(s, at - 1);
    }
}

proof fn lemma_line_end(s: Seq<char>, i: int, at: int)
    requires
        0 <= i <= s.len(),
    ensures
        ({
            let end = code_mask::line_comment_end(s, i);
            &&& i <= end <= s.len()
            &&& end == s.len() || s[end] == '\n'
            &&& forall|k: int| i <= k < end ==> #[trigger] s[k] != '\n'
        }),
        i <= at < s.len() && (forall|k: int| i <= k <= at ==> #[trigger] s[k] != '\n') ==> at
            < code_mask::line_comment_end(s, i),
    decreases s.len() - i,
{
    if i < s.len() && s[i] != '\n' {
        lemma_line_end(s, i + 1, at);
    }
}

/// What is said of a place: its line, without the spaces around it.
pub open spec fn is_site(code: Seq<char>, at: int, said: Seq<char>) -> bool {
    exists|start: int, end: int| #[trigger]
        is_line(code, at, start, end) && is_trimmed(code.subrange(start, end), said)
}

/// Every call of a hold in the code is found, in order and with its own line, and nothing else is.
pub proof fn law_every_hold_is_found(source: &[char], code: Vec<char>, sites: Vec<Vec<char>>)
    requires
        call_ensures(mask_non_code, (source,), code),
        call_ensures(hold_sites, (source,), sites),
    ensures
        exists|places: Seq<int>|
            #![trigger are_places(code@, ".hold("@, places)]
            are_places(code@, ".hold("@, places) && places.len() == sites@.len() && forall|k: int|
                0 <= k < sites@.len() ==> is_site(code@, places[k], (#[trigger] sites@[k])@),
{
    let needle = ".hold("@;
    reveal_strlit(".hold(");
    assert(does_not_overlap(needle)) by {
        assert forall|d: int| 1 <= d < needle.len() implies #[trigger] differs_at(needle, d) by {
            assert(needle[0] != needle[0 + d]);
        }
    }
    let places = source_gate::places(code@, needle, 0);
    lemma_places(code@, needle, 0);
    assert(are_places(code@, needle, places));
    let said = source_gate::texts(sites@);
    assert(said.len() == sites@.len());
    assert forall|k: int| 0 <= k < sites@.len() implies is_site(
        code@,
        places[k],
        (#[trigger] sites@[k])@,
    ) by {
        let at = places[k];
        assert(stands(code@, needle, at));
        assert(code@[at + 0] == needle[0]);
        assert(said[k] == sites@[k]@);
        let start = source_gate::line_start(code@, at);
        let end = code_mask::line_comment_end(code@, start);
        lemma_line(code@, at);
        lemma_trimmed(code@.subrange(start, end));
        assert(is_line(code@, at, start, end));
    }
}

/// Where the statement a text begins in ends: behind its semicolon at a line's end, or with the text.
pub open spec fn is_statement_end(tail: Seq<char>, end: int) -> bool {
    ||| end > 0 && is_first(tail, ";\n"@, 0, end - 1)
    ||| end == tail.len() && is_absent(tail, ";\n"@, 0)
}

/// Where the block a text begins in ends: at the first brace that closes more than was opened.
pub open spec fn is_block_end(text: Seq<char>, end: int) -> bool {
    &&& 0 <= end <= text.len()
    &&& end < text.len() ==> text[end] == '}' && mask_laws::count_of(text.take(end), '{')
        == mask_laws::count_of(text.take(end), '}')
    &&& forall|k: int|
        0 <= k <= end ==> mask_laws::count_of(#[trigger] text.take(k), '}') <= mask_laws::count_of(
            text.take(k),
            '{',
        )
}

/// Where a guard of this name is given up in a text: where it is dropped, if that comes first, or
/// where the block ends.
pub open spec fn is_given_up(after: Seq<char>, name: Seq<char>, end: int) -> bool {
    exists|block: int| #[trigger]
        is_block_end(after, block) && ({
            ||| is_first(after, "drop("@ + name + ")"@, 0, end) && end <= block
            ||| end == block && forall|i: int|
                0 <= i < block ==> !#[trigger] stands(after, "drop("@ + name + ")"@, i)
        })
}

/// A guard that no name is bound to lives to the end of its statement, and of its block at the
/// latest.
pub open spec fn lives_unbound(tail: Seq<char>, life: int) -> bool {
    exists|statement: int, block: int| #[trigger]
        is_statement_end(tail, statement) && #[trigger] is_block_end(tail, block) && life == (if statement
            <= block {
            statement
        } else {
            block
        })
}

/// A guard that is bound to a name lives until it is given up behind its statement, and to the end
/// of its block at the latest.
pub open spec fn lives_bound(tail: Seq<char>, name: Seq<char>, life: int) -> bool {
    exists|statement: int, given_up: int, block: int| #[trigger]
        is_statement_end(tail, statement) && #[trigger] is_given_up(
            tail.skip(statement),
            name,
            given_up,
        ) && #[trigger] is_block_end(tail, block) && life == (if statement + given_up <= block {
            statement + given_up
        } else {
            block
        })
}

proof fn lemma_statement(tail: Seq<char>)
    ensures
        is_statement_end(tail, source_gate::statement_end(tail)),
        0 <= source_gate::statement_end(tail) <= tail.len(),
{
    reveal_strlit(";\n");
    lemma_found(tail, ";\n"@, 0);
}

proof fn lemma_block_end(text: Seq<char>)
    ensures
        is_block_end(text, code_mask::block_end(text)),
{
    assert(text.take(0) =~= Seq::<char>::empty());
    mask_laws::lemma_block(text, 0, 0);
}

proof fn lemma_life(tail: Seq<char>, bound: Option<Seq<char>>)
    ensures
        bound is None ==> lives_unbound(tail, source_gate::guard_life(tail, bound)),
        bound matches Some(name) ==> lives_bound(
            tail,
            name,
            source_gate::guard_life(tail, bound),
        ),
        0 <= source_gate::guard_life(tail, bound) <= tail.len(),
{
    let statement = source_gate::statement_end(tail);
    let block = code_mask::block_end(tail);
    lemma_statement(tail);
    lemma_block_end(tail);
    if let Some(name) = bound {
        let after = tail.skip(statement);
        let ends = code_mask::block_end(after);
        let needle = "drop("@ + name + ")"@;
        reveal_strlit("drop(");
        lemma_block_end(after);
        lemma_found(after, needle, 0);
        let dropped = match source_gate::found(after, needle, 0) {
            Some(at) => at,
            None => ends,
        };
        let given_up = source_gate::least(dropped, ends);
        assert(is_given_up(after, name, given_up)) by {
            assert(is_block_end(after, ends));
        }
        assert(is_statement_end(tail, statement) && is_given_up(tail.skip(statement), name, given_up)
            && is_block_end(tail, block));
    } else {
        assert(is_statement_end(tail, statement) && is_block_end(tail, block));
    }
}

/// What stands before a lock in its line binds its guard to this name.
pub open spec fn binds(before: Seq<char>, name: Seq<char>) -> bool {
    &&& name.len() > 0
    &&& forall|k: int|
        0 <= k < name.len() ==> mask_laws::in_a_name(#[trigger] name[k]) && !code_mask::whitespace(
            name[k],
        ) && name[k] != '=' && name[k] != ' '
    &&& exists|indent: Seq<char>, mutable: bool|
        #![trigger is_let(before, indent, mutable, name)]
        is_let(before, indent, mutable, name)
}

/// A `let` of a name, mutable or not, behind nothing but spaces.
pub open spec fn is_let(
    before: Seq<char>,
    indent: Seq<char>,
    mutable: bool,
    name: Seq<char>,
) -> bool {
    &&& forall|k: int| 0 <= k < indent.len() ==> code_mask::whitespace(#[trigger] indent[k])
    &&& before == indent + "let "@ + (if mutable {
        "mut "@
    } else {
        ""@
    }) + name + " = "@
}

/// What stands before a lock in its line is no `let`.
pub open spec fn is_no_let(before: Seq<char>) -> bool {
    forall|i: int|
        0 <= i <= before.len() && (forall|k: int|
            0 <= k < i ==> code_mask::whitespace(#[trigger] before[k])) ==> !#[trigger] stands(
            before,
            "let "@,
            i,
        )
}

proof fn lemma_no_let(before: Seq<char>)
    requires
        is_no_let(before),
    ensures
        source_gate::bound_name(before) is None,
{
    let a = lemma_leading(before);
    lemma_stands(before.skip(a), "let "@, 0);
    if source_gate::occurs(before.skip(a), "let "@, 0) {
        assert(stands(before, "let "@, a)) by {
            assert forall|k: int| 0 <= k < "let "@.len() implies before[a + k] == #[trigger] "let "@[k] by {
                assert(before.skip(a)[0 + k] == "let "@[k]);
            }
        }
    }
}

proof fn lemma_without_leading(spaces: Seq<char>, text: Seq<char>)
    requires
        forall|k: int| 0 <= k < spaces.len() ==> code_mask::whitespace(#[trigger] spaces[k]),
        text.len() > 0,
        !code_mask::whitespace(text[0]),
    ensures
        source_gate::without_leading_space(spaces + text) == text,
    decreases spaces.len(),
{
    let s = spaces + text;
    if spaces.len() > 0 {
        assert(s[0] == spaces[0]);
        assert(s.skip(1) =~= spaces.skip(1) + text);
        lemma_without_leading(spaces.skip(1), text);
    } else {
        assert(s =~= text);
    }
}

proof fn lemma_without_trailing(text: Seq<char>, spaces: Seq<char>)
    requires
        forall|k: int| 0 <= k < spaces.len() ==> code_mask::whitespace(#[trigger] spaces[k]),
        text.len() > 0,
        !code_mask::whitespace(text.last()),
    ensures
        source_gate::without_trailing_space(text + spaces) == text,
    decreases spaces.len(),
{
    let s = text + spaces;
    if spaces.len() > 0 {
        assert(s.last() == spaces.last());
        assert(s.drop_last() =~= text + spaces.drop_last());
        lemma_without_trailing(text, spaces.drop_last());
    } else {
        assert(s =~= text);
    }
}

/// The name a `let` binds is the name.
proof fn lemma_binds(before: Seq<char>, name: Seq<char>)
    requires
        binds(before, name),
        code_mask::whitespace(' '),
        !code_mask::whitespace('l'),
        !code_mask::whitespace('m'),
        name != "mut"@,
    ensures
        source_gate::bound_name(before) == Some(name),
{
    reveal_strlit("let ");
    reveal_strlit("mut ");
    reveal_strlit("mut");
    reveal_strlit("");
    reveal_strlit(" = ");
    reveal_strlit("=");
    let (indent, mutable) = choose|indent: Seq<char>, mutable: bool|
        #![trigger is_let(before, indent, mutable, name)]
        is_let(before, indent, mutable, name);
    let muts = if mutable {
        "mut "@
    } else {
        ""@
    };
    let tail = name + " = "@;
    let statement = "let "@ + muts + tail;
    assert(before =~= indent + statement);
    assert(statement[0] == 'l');
    lemma_without_leading(indent, statement);
    assert(statement.subrange(0, 4) =~= "let "@);
    assert(source_gate::occurs(statement, "let "@, 0));
    let behind = statement.skip(4);
    assert(behind =~= muts + tail);
    assert(tail[0] == name[0]);
    let none = Seq::<char>::empty();
    assert(!code_mask::whitespace(behind[0]));
    assert(none + behind =~= behind);
    lemma_without_leading(none, behind);
    assert(!source_gate::occurs(tail, "mut "@, 0)) by {
        if source_gate::occurs(tail, "mut "@, 0) {
            let head = tail.subrange(0, 4);
            assert(head[0] == 'm' && head[1] == 'u' && head[2] == 't' && head[3] == ' ');
            if name.len() > 3 {
                assert(tail[3] == name[3]);
            } else if name.len() == 3 {
                assert(name =~= "mut"@) by {
                    assert(tail[0] == name[0] && tail[1] == name[1] && tail[2] == name[2]);
                }
            } else if name.len() == 2 {
                assert(tail[2] == " = "@[0]);
            } else {
                assert(tail[1] == " = "@[0]);
            }
        }
    }
    if mutable {
        assert(behind.subrange(0, 4) =~= "mut "@);
        assert(source_gate::occurs(behind, "mut "@, 0));
        assert(behind.skip(4) =~= tail);
        assert(source_gate::without_mut(tail) == tail);
        assert(source_gate::without_mut(behind) == tail);
    } else {
        assert(behind =~= tail);
        assert(source_gate::without_mut(behind) == tail);
    }
    assert(none + tail =~= tail);
    lemma_without_leading(none, tail);
    let at = name.len() + 1;
    assert(is_first(tail, "="@, 0, at as int)) by {
        assert(stands(tail, "="@, at as int)) by {
            assert(tail[at as int + 0] == '=');
        }
        assert forall|i: int| 0 <= i < at implies !#[trigger] stands(tail, "="@, i) by {
            if stands(tail, "="@, i) {
                assert(tail[i + 0] == "="@[0]);
                if i < name.len() {
                    assert(tail[i] == name[i]);
                }
            }
        }
    }
    lemma_first_is_found(tail, "="@, 0, at as int);
    let left = tail.take(at as int);
    assert(left =~= name + seq![' ']);
    assert(none + left =~= left);
    assert(left[0] == name[0]);
    lemma_without_leading(none, left);
    lemma_without_trailing(name, seq![' ']);
}

/// The code a guard taken at `start` lives over, in one line.
pub open spec fn is_region(code: Seq<char>, start: int, said: Seq<char>) -> bool {
    exists|life: int| #[trigger] lives_for(code, start, life) && is_one_line(
        code.subrange(start, start + life),
        said,
    )
}

/// The guard taken at `start` lives this long: as one bound to the name its line binds it to, or as
/// an unbound one where its line is no `let`.
pub open spec fn lives_for(code: Seq<char>, start: int, life: int) -> bool {
    &&& 0 <= life <= code.len() - start
    &&& forall|line: int|
        #![trigger starts_line(code, start, line)]
        starts_line(code, start, line) ==> {
            let before = code.subrange(line, start);
            &&& is_no_let(before) ==> lives_unbound(code.skip(start), life)
            &&& forall|name: Seq<char>| #[trigger]
                binds(before, name) && name != "mut"@ && code_mask::whitespace(' ')
                    && !code_mask::whitespace('l') && !code_mask::whitespace('m') ==> lives_bound(
                    code.skip(start),
                    name,
                    life,
                )
        }
}

/// The line that holds `at` starts here.
pub open spec fn starts_line(s: Seq<char>, at: int, line: int) -> bool {
    &&& 0 <= line <= at
    &&& line == 0 || s[line - 1] == '\n'
    &&& forall|k: int| line <= k < at ==> #[trigger] s[k] != '\n'
}

/// The text, with a space for every line's end.
pub open spec fn is_one_line(text: Seq<char>, said: Seq<char>) -> bool {
    &&& said.len() == text.len()
    &&& forall|i: int|
        0 <= i < text.len() ==> #[trigger] said[i] == (if text[i] == '\n' {
            ' '
        } else {
            text[i]
        })
}

proof fn lemma_region(code: Seq<char>, start: int)
    requires
        0 <= start <= code.len(),
    ensures
        is_region(
            code,
            start,
            source_gate::in_one_line(source_gate::guarded_region(code, start)),
        ),
        lives_for(code, start, source_gate::guarded_region(code, start).len() as int),
{
    let tail = code.skip(start);
    let line = source_gate::line_start(code, start);
    lemma_line_start(code, start);
    let before = code.subrange(line, start);
    let bound = source_gate::bound_name(before);
    let life = source_gate::guard_life(tail, bound);
    lemma_life(tail, bound);
    assert forall|other: int|
        #![trigger starts_line(code, start, other)]
        starts_line(code, start, other) implies {
        let text = code.subrange(other, start);
        &&& is_no_let(text) ==> lives_unbound(tail, life)
        &&& forall|name: Seq<char>| #[trigger]
            binds(text, name) && name != "mut"@ && code_mask::whitespace(' ')
                && !code_mask::whitespace('l') && !code_mask::whitespace('m') ==> lives_bound(
                tail,
                name,
                life,
            )
    } by {
        assert(other == line) by {
            if other < line {
                assert(code[line - 1] != '\n');
            }
            if line < other {
                assert(code[other - 1] != '\n');
            }
        }
        if is_no_let(before) {
            lemma_no_let(before);
        }
        assert forall|name: Seq<char>| #[trigger]
            binds(before, name) && name != "mut"@ && code_mask::whitespace(' ')
                && !code_mask::whitespace('l') && !code_mask::whitespace('m') implies lives_bound(
            tail,
            name,
            life,
        ) by {
            lemma_binds(before, name);
        }
    }
    assert(lives_for(code, start, life));
    let region = source_gate::guarded_region(code, start);
    assert(region =~= code.subrange(start, start + life));
    assert(is_one_line(code.subrange(start, start + life), source_gate::in_one_line(region)));
}

/// The needle stands somewhere in this code.
pub open spec fn holds(region: Seq<char>, needle: Seq<char>) -> bool {
    exists|i: int| #[trigger] stands(region, needle, i)
}

/// The lifecycle lock is taken somewhere in this code, by its own name or by reading the facts.
pub open spec fn takes_the_lock(region: Seq<char>) -> bool {
    holds(region, "self.facts()"@) || holds(region, "lock_recover(&self.inner)"@)
}

proof fn lemma_holds(region: Seq<char>, needle: Seq<char>)
    requires
        needle.len() > 0,
    ensures
        holds(region, needle) <==> source_gate::found(region, needle, 0) is Some,
{
    lemma_found(region, needle, 0);
    if holds(region, needle) {
        let i = choose|i: int| #[trigger] stands(region, needle, i);
        assert(0 <= i);
    }
}

proof fn lemma_holds_in_one_line(region: Seq<char>, needle: Seq<char>)
    requires
        holds(region, needle),
        forall|k: int| 0 <= k < needle.len() ==> #[trigger] needle[k] != '\n',
    ensures
        holds(source_gate::in_one_line(region), needle),
{
    let i = choose|i: int| #[trigger] stands(region, needle, i);
    let line = source_gate::in_one_line(region);
    assert(stands(line, needle, i)) by {
        assert forall|k: int| 0 <= k < needle.len() implies line[i + k] == #[trigger] needle[k] by {
            assert(region[i + k] == needle[k]);
        }
    }
}

proof fn lemma_takes(region: Seq<char>)
    ensures
        source_gate::takes_the_lifecycle_lock(region) <==> takes_the_lock(region),
        takes_the_lock(region) ==> takes_the_lock(source_gate::in_one_line(region)),
{
    reveal_strlit("self.facts()");
    reveal_strlit("lock_recover(&self.inner)");
    lemma_holds(region, "self.facts()"@);
    lemma_holds(region, "lock_recover(&self.inner)"@);
    if holds(region, "self.facts()"@) {
        lemma_holds_in_one_line(region, "self.facts()"@);
    }
    if holds(region, "lock_recover(&self.inner)"@) {
        lemma_holds_in_one_line(region, "lock_recover(&self.inner)"@);
    }
}

proof fn lemma_one_statement(tail: Seq<char>, a: int, b: int)
    requires
        is_statement_end(tail, a),
        is_statement_end(tail, b),
    ensures
        a == b,
{
    if is_first(tail, ";\n"@, 0, a - 1) {
        assert(stands(tail, ";\n"@, a - 1));
        if is_first(tail, ";\n"@, 0, b - 1) {
            assert(stands(tail, ";\n"@, b - 1));
        }
    } else if is_first(tail, ";\n"@, 0, b - 1) {
        assert(stands(tail, ";\n"@, b - 1));
    }
}

proof fn lemma_one_block(text: Seq<char>, a: int, b: int)
    requires
        is_block_end(text, a),
        is_block_end(text, b),
    ensures
        a == b,
{
    let (low, high) = if a <= b {
        (a, b)
    } else {
        (b, a)
    };
    if low < high {
        assert(text.take(low + 1).drop_last() =~= text.take(low));
        assert(text.take(low + 1).last() == '}');
        assert(mask_laws::count_of(text.take(low + 1), '}') <= mask_laws::count_of(
            text.take(low + 1),
            '{',
        ));
    }
}

proof fn lemma_given_up_once(after: Seq<char>, name: Seq<char>, a: int, b: int)
    requires
        is_given_up(after, name, a),
        is_given_up(after, name, b),
    ensures
        a == b,
{
    let needle = "drop("@ + name + ")"@;
    let of_a = choose|block: int| #[trigger]
        is_block_end(after, block) && ({
            ||| is_first(after, needle, 0, a) && a <= block
            ||| a == block && forall|i: int| 0 <= i < block ==> !#[trigger] stands(after, needle, i)
        });
    let of_b = choose|block: int| #[trigger]
        is_block_end(after, block) && ({
            ||| is_first(after, needle, 0, b) && b <= block
            ||| b == block && forall|i: int| 0 <= i < block ==> !#[trigger] stands(after, needle, i)
        });
    lemma_one_block(after, of_a, of_b);
    if is_first(after, needle, 0, a) {
        assert(stands(after, needle, a));
    }
    if is_first(after, needle, 0, b) {
        assert(stands(after, needle, b));
    }
}

/// However it is found, a guard's life is one.
proof fn lemma_one_life(tail: Seq<char>, name: Seq<char>, a: int, b: int)
    ensures
        lives_unbound(tail, a) && lives_unbound(tail, b) ==> a == b,
        lives_bound(tail, name, a) && lives_bound(tail, name, b) ==> a == b,
{
    if lives_unbound(tail, a) && lives_unbound(tail, b) {
        let (s, e) = choose|statement: int, block: int| #[trigger]
            is_statement_end(tail, statement) && #[trigger] is_block_end(tail, block) && a == (if statement
                <= block {
                statement
            } else {
                block
            });
        let (t, f) = choose|statement: int, block: int| #[trigger]
            is_statement_end(tail, statement) && #[trigger] is_block_end(tail, block) && b == (if statement
                <= block {
                statement
            } else {
                block
            });
        lemma_one_statement(tail, s, t);
        lemma_one_block(tail, e, f);
    }
    if lives_bound(tail, name, a) && lives_bound(tail, name, b) {
        let (s, g, e) = choose|statement: int, given_up: int, block: int| #[trigger]
            is_statement_end(tail, statement) && #[trigger] is_given_up(
                tail.skip(statement),
                name,
                given_up,
            ) && #[trigger] is_block_end(tail, block) && a == (if statement + given_up <= block {
                statement + given_up
            } else {
                block
            });
        let (t, h, f) = choose|statement: int, given_up: int, block: int| #[trigger]
            is_statement_end(tail, statement) && #[trigger] is_given_up(
                tail.skip(statement),
                name,
                given_up,
            ) && #[trigger] is_block_end(tail, block) && b == (if statement + given_up <= block {
                statement + given_up
            } else {
                block
            });
        lemma_one_statement(tail, s, t);
        lemma_given_up_once(tail.skip(s), name, g, h);
        lemma_one_block(tail, e, f);
    }
}

/// The lifecycle lock is taken while a guard lives that is bound to a name here, or in whose line no
/// `let` stands.
pub open spec fn is_inverted(code: Seq<char>, start: int) -> bool {
    exists|line: int, name: Seq<char>, life: int| #[trigger]
        inverted_as(code, start, line, name, life)
}

/// The guard taken at `start` of this line lives this long, as one bound to the name or as an
/// unbound one, and the lifecycle lock is taken before that.
pub open spec fn inverted_as(
    code: Seq<char>,
    start: int,
    line: int,
    name: Seq<char>,
    life: int,
) -> bool {
    let before = code.subrange(line, start);
    &&& stands(code, "lock_recover(&self.debt)"@, start)
    &&& starts_line(code, start, line)
    &&& takes_the_lock(code.subrange(start, start + life))
    &&& {
        ||| is_no_let(before) && lives_unbound(code.skip(start), life)
        ||| binds(before, name) && name != "mut"@ && code_mask::whitespace(' ')
            && !code_mask::whitespace('l') && !code_mask::whitespace('m') && lives_bound(
            code.skip(start),
            name,
            life,
        )
    }
}

proof fn lemma_line_number(s: Seq<char>, at: int)
    requires
        0 <= at <= s.len(),
    ensures
        source_gate::line_number(s, at) == mask_laws::count_of(s.take(at), '\n') + 1,
    decreases at,
{
    if at > 0 {
        lemma_line_number(s, at - 1);
        assert(s.take(at).drop_last() =~= s.take(at - 1));
        assert(s.take(at).last() == s[at - 1]);
    } else {
        assert(s.take(0) =~= Seq::<char>::empty());
    }
}

/// Every debt guard that the lifecycle lock is taken under is found, in order, with the number of its
/// line and the code it lives over; and what is found is one, with the lock in that code.
pub proof fn law_every_inversion_is_found(
    source: &[char],
    code: Vec<char>,
    offenders: Vec<Inversion>,
)
    requires
        call_ensures(mask_non_code, (source,), code),
        call_ensures(lifecycle_locks_taken_under_the_debt, (source,), offenders),
    ensures
        exists|starts: Seq<int>|
            #![trigger are_inversions(code@, starts)]
            are_inversions(code@, starts) && starts.len() == offenders@.len() && forall|k: int|
                0 <= k < offenders@.len() ==> {
                    &&& (#[trigger] offenders@[k]).line == mask_laws::count_of(
                        code@.take(starts[k]),
                        '\n',
                    ) + 1
                    &&& is_region(code@, starts[k], offenders@[k].region@)
                    &&& takes_the_lock(offenders@[k].region@)
                },
{
    let s = code@;
    let starts = source_gate::inversions(source@);
    let needle = "lock_recover(&self.debt)"@;
    let places = source_gate::places(s, needle, 0);
    lemma_debt_lock();
    lemma_places(s, needle, 0);
    let offends = |start: int|
        source_gate::takes_the_lifecycle_lock(source_gate::guarded_region(s, start));
    assert(starts == places.filter(offends));
    lemma_filtered(places, offends);
    assert forall|k: int| 0 <= k < starts.len() implies stands(s, needle, #[trigger] starts[k])
        && offends(starts[k]) by {
        assert(places.contains(starts[k]));
        let a = choose|a: int| 0 <= a < places.len() && places[a] == starts[k];
        assert(stands(s, needle, places[a]));
    }
    assert forall|i: int| #[trigger] is_inverted(s, i) implies starts.contains(i) by {
        lemma_inverted(s, i);
        assert(places.contains(i));
        assert(offends(i));
    }
    assert(are_inversions(s, starts));
    assert forall|k: int| 0 <= k < offenders@.len() implies {
        &&& (#[trigger] offenders@[k]).line == mask_laws::count_of(s.take(starts[k]), '\n') + 1
        &&& is_region(s, starts[k], offenders@[k].region@)
        &&& takes_the_lock(offenders@[k].region@)
    } by {
        assert(offends(starts[k]));
        lemma_line_number(s, starts[k]);
        lemma_region(s, starts[k]);
        lemma_takes(source_gate::guarded_region(s, starts[k]));
    }
}

/// The places of the inverted guards, in order and all of them.
pub open spec fn are_inversions(code: Seq<char>, starts: Seq<int>) -> bool {
    &&& forall|a: int, b: int|
        0 <= a < b < starts.len() ==> #[trigger] starts[a] < #[trigger] starts[b]
    &&& forall|a: int|
        0 <= a < starts.len() ==> stands(code, "lock_recover(&self.debt)"@, #[trigger] starts[a])
    &&& forall|i: int| #[trigger] is_inverted(code, i) ==> starts.contains(i)
}

proof fn lemma_inverted(s: Seq<char>, start: int)
    requires
        is_inverted(s, start),
    ensures
        stands(s, "lock_recover(&self.debt)"@, start),
        source_gate::takes_the_lifecycle_lock(source_gate::guarded_region(s, start)),
{
    let (line, name, life) = choose|line: int, name: Seq<char>, life: int| #[trigger]
        inverted_as(s, start, line, name, life);
    let tail = s.skip(start);
    let at = source_gate::line_start(s, start);
    lemma_line_start(s, start);
    assert(line == at) by {
        if line < at {
            assert(s[at - 1] != '\n');
        }
        if at < line {
            assert(s[line - 1] != '\n');
        }
    }
    let before = s.subrange(line, start);
    let bound = source_gate::bound_name(before);
    let lives = source_gate::guard_life(tail, bound);
    lemma_life(tail, bound);
    if is_no_let(before) && lives_unbound(tail, life) {
        lemma_no_let(before);
        lemma_one_life(tail, name, life, lives);
    } else {
        lemma_binds(before, name);
        lemma_one_life(tail, name, life, lives);
    }
    let region = source_gate::guarded_region(s, start);
    assert(region =~= s.subrange(start, start + life));
    lemma_takes(region);
}

proof fn lemma_debt_lock()
    ensures
        does_not_overlap("lock_recover(&self.debt)"@),
{
    reveal_strlit("lock_recover(&self.debt)");
    let needle = "lock_recover(&self.debt)"@;
    assert forall|d: int| 1 <= d < needle.len() implies #[trigger] differs_at(needle, d) by {
        if d == 16 {
            assert(needle[1] != needle[1 + d]);
        } else {
            assert(needle[0] != needle[0 + d]);
        }
    }
}

proof fn lemma_filtered(all: Seq<int>, keep: spec_fn(int) -> bool)
    requires
        forall|a: int, b: int| 0 <= a < b < all.len() ==> #[trigger] all[a] < #[trigger] all[b],
    ensures
        ({
            let kept = all.filter(keep);
            &&& forall|a: int, b: int|
                0 <= a < b < kept.len() ==> #[trigger] kept[a] < #[trigger] kept[b]
            &&& forall|a: int|
                0 <= a < kept.len() ==> all.contains(#[trigger] kept[a]) && keep(kept[a])
            &&& forall|i: int| all.contains(i) && keep(i) ==> #[trigger] kept.contains(i)
        }),
    decreases all.len(),
{
    reveal(Seq::filter);
    let kept = all.filter(keep);
    if all.len() > 0 {
        let before = all.drop_last();
        lemma_filtered(before, keep);
        let kept_before = before.filter(keep);
        assert forall|a: int| 0 <= a < kept.len() implies all.contains(#[trigger] kept[a]) && keep(
            kept[a],
        ) by {
            if a < kept_before.len() {
                assert(kept[a] == kept_before[a]);
                let i = choose|i: int| 0 <= i < before.len() && before[i] == kept_before[a];
                assert(all[i] == kept[a]);
            } else {
                assert(all[all.len() - 1] == kept[a]);
            }
        }
        assert forall|a: int, b: int| 0 <= a < b < kept.len() implies #[trigger] kept[a]
            < #[trigger] kept[b] by {
            assert(kept[a] == kept_before[a]);
            if b < kept_before.len() {
                assert(kept[b] == kept_before[b]);
            } else {
                let i = choose|i: int| 0 <= i < before.len() && before[i] == kept_before[a];
                assert(all[i] < all[all.len() - 1]);
            }
        }
        assert forall|i: int| all.contains(i) && keep(i) implies #[trigger] kept.contains(i) by {
            let k = choose|k: int| 0 <= k < all.len() && all[k] == i;
            if k < before.len() {
                assert(before[k] == i);
                assert(before.contains(i));
                assert(kept_before.contains(i));
                let a = choose|a: int| 0 <= a < kept_before.len() && kept_before[a] == i;
                assert(kept[a] == i);
            } else {
                assert(kept[kept.len() - 1] == i);
            }
        }
    }
}

} // verus!
