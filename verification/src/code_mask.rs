//! Telling code from the text inside comments and literals.
//!
//! Comments carry the names a gate over source text looks for, and a comment is not a lock; a brace
//! inside a string does not end the block a guard lives in. Not a Rust parser, just enough of the
//! lexer to know where code is: nested block comments, escapes, raw strings of any depth, byte
//! literals, and a lifetime told apart from a character.

use vstd::prelude::*;

verus! {

/// What `char::is_alphanumeric` says of a character.
pub uninterp spec fn alphanumeric(c: char) -> bool;

/// What `char::is_whitespace` says of a character.
pub uninterp spec fn whitespace(c: char) -> bool;

/// `char::is_alphanumeric`: a property of the character alone.
#[verifier::external_body]
fn is_alphanumeric(c: char) -> (is: bool)
    ensures
        is == alphanumeric(c),
{
    c.is_alphanumeric()
}

/// `char::is_whitespace`: a property of the character alone.
#[verifier::external_body]
pub(crate) fn is_whitespace(c: char) -> (is: bool)
    ensures
        is == whitespace(c),
{
    c.is_whitespace()
}

/// A character a name may hold.
pub open spec fn names(c: char) -> bool {
    alphanumeric(c) || c == '_'
}

pub(crate) fn is_name_char(c: char) -> (is: bool)
    ensures
        is == names(c),
{
    is_alphanumeric(c) || c == '_'
}

/// This character stands here.
pub open spec fn holds_at(s: Seq<char>, i: int, c: char) -> bool {
    0 <= i < s.len() && s[i] == c
}

fn stands(s: &[char], i: usize, c: char) -> (is: bool)
    ensures
        is == holds_at(s@, i as int, c),
{
    i < s.len() && s[i] == c
}

/// What stands for a character that is not code: nothing, but lines are kept.
pub open spec fn blank(c: char) -> char {
    if c == '\n' {
        '\n'
    } else {
        ' '
    }
}

/// A line comment that reaches `i` ends at the line.
pub open spec fn line_comment_end(s: Seq<char>, i: int) -> int
    decreases s.len() - i,
{
    if i >= s.len() {
        s.len() as int
    } else if s[i] == '\n' {
        i
    } else {
        line_comment_end(s, i + 1)
    }
}

/// Block comments nest: one that reaches `i` this deep ends where its outermost one is closed.
pub open spec fn block_comment_end(s: Seq<char>, i: int, depth: nat) -> int
    decreases s.len() - i,
{
    if i >= s.len() {
        s.len() as int
    } else if holds_at(s, i, '/') && holds_at(s, i + 1, '*') {
        block_comment_end(s, i + 2, depth + 1)
    } else if holds_at(s, i, '*') && holds_at(s, i + 1, '/') {
        if depth <= 1 {
            i + 2
        } else {
            block_comment_end(s, i + 2, (depth - 1) as nat)
        }
    } else {
        block_comment_end(s, i + 1, depth)
    }
}

/// Where a run of hashes that reaches `j` ends.
pub open spec fn hashes_end(s: Seq<char>, j: int) -> int
    decreases s.len() - j,
{
    if holds_at(s, j, '#') {
        hashes_end(s, j + 1)
    } else {
        j
    }
}

/// The first place of a raw string's hashes or quote, where its prefix is `r` or `br`.
pub open spec fn raw_prefix_end(s: Seq<char>, i: int) -> Option<int> {
    if holds_at(s, i, 'r') {
        Some(i + 1)
    } else if holds_at(s, i, 'b') && holds_at(s, i + 1, 'r') {
        Some(i + 2)
    } else {
        None
    }
}

/// A raw string's closing quote stands here, with its hashes behind it.
pub open spec fn closes_raw(s: Seq<char>, j: int, hashes: nat) -> bool {
    holds_at(s, j, '"') && forall|k: int| 1 <= k <= hashes ==> #[trigger] holds_at(s, j + k, '#')
}

/// A raw string whose inside reaches `j` ends behind its closing hashes.
pub open spec fn raw_end(s: Seq<char>, j: int, hashes: nat) -> int
    decreases s.len() - j,
{
    if j >= s.len() {
        s.len() as int
    } else if closes_raw(s, j, hashes) {
        j + 1 + hashes
    } else {
        raw_end(s, j + 1, hashes)
    }
}

/// How much of the text is left at `j`.
pub open spec fn left_of(s: Seq<char>, j: int) -> nat {
    if j >= s.len() {
        0
    } else {
        (s.len() - j) as nat
    }
}

/// A string whose inside reaches `j` ends behind its closing quote; an escape hides what follows it.
pub open spec fn string_end(s: Seq<char>, j: int) -> int
    decreases left_of(s, j),
{
    if j >= s.len() {
        s.len() as int
    } else if s[j] == '"' {
        j + 1
    } else if s[j] == '\\' {
        string_end(s, j + 2)
    } else {
        string_end(s, j + 1)
    }
}

/// The first closing quote of a character at or behind `k`.
pub open spec fn quote_from(s: Seq<char>, k: int) -> Option<int>
    decreases s.len() - k,
{
    if k >= s.len() {
        None
    } else if s[k] == '\'' {
        Some(k)
    } else {
        quote_from(s, k + 1)
    }
}

/// Where a character literal whose quote stands at `start` ends; a lifetime or a label is none.
pub open spec fn char_end(s: Seq<char>, start: int) -> Option<int> {
    if holds_at(s, start + 1, '\\') {
        match quote_from(s, start + 3) {
            Some(k) => Some(k + 1),
            None => None,
        }
    } else if holds_at(s, start + 2, '\'') {
        Some(start + 3)
    } else {
        None
    }
}

/// A name goes on here, so a letter is not the prefix of a literal.
pub open spec fn inside_a_name(s: Seq<char>, i: int) -> bool {
    0 < i <= s.len() && names(s[i - 1])
}

/// A raw string starts here.
pub open spec fn starts_raw(s: Seq<char>, i: int) -> bool {
    !inside_a_name(s, i) && (raw_prefix_end(s, i) matches Some(j) && holds_at(s, hashes_end(s, j), '"'))
}

/// Where the comment or the literal that starts here ends, if one does.
pub open spec fn hidden(s: Seq<char>, i: int) -> Option<int> {
    if holds_at(s, i, '/') && holds_at(s, i + 1, '/') {
        Some(line_comment_end(s, i))
    } else if holds_at(s, i, '/') && holds_at(s, i + 1, '*') {
        Some(block_comment_end(s, i, 0))
    } else if starts_raw(s, i) {
        let j = raw_prefix_end(s, i)->0;
        let quote = hashes_end(s, j);
        Some(raw_end(s, quote + 1, (quote - j) as nat))
    } else if holds_at(s, i, '"') {
        Some(string_end(s, i + 1))
    } else if holds_at(s, i, 'b') && holds_at(s, i + 1, '"') && !inside_a_name(s, i) {
        Some(string_end(s, i + 2))
    } else if holds_at(s, i, '\'') {
        char_end(s, i)
    } else if holds_at(s, i, 'b') && holds_at(s, i + 1, '\'') && !inside_a_name(s, i) {
        char_end(s, i + 1)
    } else {
        None
    }
}

/// What is left of the text from `i` on once the inside of every comment and literal is blanked.
pub open spec fn masked_from(s: Seq<char>, i: int) -> Seq<char>
    decreases s.len() - i,
{
    if i >= s.len() {
        Seq::empty()
    } else {
        match hidden(s, i) {
            Some(end) if i < end <= s.len() => s.subrange(i, end).map_values(|c: char| blank(c))
                + masked_from(s, end),
            _ => seq![s[i]] + masked_from(s, i + 1),
        }
    }
}

pub open spec fn masked(s: Seq<char>) -> Seq<char> {
    masked_from(s, 0)
}

proof fn lemma_line_comment_end(s: Seq<char>, i: int)
    requires
        0 <= i <= s.len(),
    ensures
        i <= line_comment_end(s, i) <= s.len(),
        i < s.len() && s[i] != '\n' ==> i < line_comment_end(s, i),
    decreases s.len() - i,
{
    if i < s.len() && s[i] != '\n' {
        lemma_line_comment_end(s, i + 1);
    }
}

proof fn lemma_block_comment_end(s: Seq<char>, i: int, depth: nat)
    requires
        0 <= i <= s.len(),
    ensures
        i <= block_comment_end(s, i, depth) <= s.len(),
        i < s.len() ==> i < block_comment_end(s, i, depth),
    decreases s.len() - i,
{
    if i < s.len() {
        if holds_at(s, i, '/') && holds_at(s, i + 1, '*') {
            lemma_block_comment_end(s, i + 2, depth + 1);
        } else if holds_at(s, i, '*') && holds_at(s, i + 1, '/') {
            if depth > 1 {
                lemma_block_comment_end(s, i + 2, (depth - 1) as nat);
            }
        } else {
            lemma_block_comment_end(s, i + 1, depth);
        }
    }
}

proof fn lemma_hashes_end(s: Seq<char>, j: int)
    requires
        0 <= j,
    ensures
        j <= hashes_end(s, j),
        j <= s.len() ==> hashes_end(s, j) <= s.len(),
        forall|k: int| j <= k < hashes_end(s, j) ==> holds_at(s, k, '#'),
        !holds_at(s, hashes_end(s, j), '#'),
    decreases s.len() - j,
{
    if holds_at(s, j, '#') {
        lemma_hashes_end(s, j + 1);
    }
}

proof fn lemma_raw_end(s: Seq<char>, j: int, hashes: nat)
    requires
        0 <= j <= s.len(),
    ensures
        j <= raw_end(s, j, hashes) <= s.len(),
    decreases s.len() - j,
{
    if j < s.len() {
        if closes_raw(s, j, hashes) {
            if hashes > 0 {
                assert(holds_at(s, j + hashes, '#'));
            }
        } else {
            lemma_raw_end(s, j + 1, hashes);
        }
    }
}

proof fn lemma_string_end(s: Seq<char>, j: int)
    requires
        0 <= j,
    ensures
        string_end(s, j) <= s.len(),
        j <= s.len() ==> j <= string_end(s, j),
    decreases left_of(s, j),
{
    if j < s.len() && s[j] != '"' {
        lemma_string_end(
            s,
            if s[j] == '\\' {
                j + 2
            } else {
                j + 1
            },
        );
        if s[j] == '\\' && j + 2 > s.len() {
            assert(string_end(s, j + 2) == s.len());
        }
    }
}

proof fn lemma_quote_from(s: Seq<char>, k: int)
    requires
        0 <= k,
    ensures
        quote_from(s, k) matches Some(at) ==> k <= at < s.len() && s[at] == '\'',
    decreases s.len() - k,
{
    if k < s.len() && s[k] != '\'' {
        lemma_quote_from(s, k + 1);
    }
}

/// A comment or a literal is not empty, and lies within the text.
proof fn lemma_hidden(s: Seq<char>, i: int)
    requires
        0 <= i < s.len(),
    ensures
        hidden(s, i) matches Some(end) ==> i < end <= s.len(),
{
    lemma_line_comment_end(s, i);
    lemma_block_comment_end(s, i, 0);
    lemma_string_end(s, i + 1);
    lemma_string_end(s, i + 2);
    lemma_quote_from(s, i + 3);
    lemma_quote_from(s, i + 4);
    if let Some(j) = raw_prefix_end(s, i) {
        lemma_hashes_end(s, j);
        let quote = hashes_end(s, j);
        if holds_at(s, quote, '"') {
            lemma_raw_end(s, quote + 1, (quote - j) as nat);
        }
    }
}

proof fn lemma_masked_from(s: Seq<char>, i: int)
    requires
        0 <= i <= s.len(),
    ensures
        masked_from(s, i).len() == s.len() - i,
        forall|k: int|
            i <= k < s.len() ==> (#[trigger] masked_from(s, i)[k - i] == s[k] || masked_from(s, i)[k
                - i] == blank(s[k])),
    decreases s.len() - i,
{
    if i < s.len() {
        lemma_hidden(s, i);
        match hidden(s, i) {
            Some(end) => {
                lemma_masked_from(s, end);
                let hid = s.subrange(i, end).map_values(|c: char| blank(c));
                assert forall|k: int| i <= k < s.len() implies (#[trigger] masked_from(s, i)[k - i]
                    == s[k] || masked_from(s, i)[k - i] == blank(s[k])) by {
                    if k < end {
                        assert(hid[k - i] == blank(s[k]));
                    } else {
                        assert(masked_from(s, i)[k - i] == masked_from(s, end)[k - end]);
                    }
                }
            },
            None => {
                lemma_masked_from(s, i + 1);
                assert forall|k: int| i <= k < s.len() implies (#[trigger] masked_from(s, i)[k - i]
                    == s[k] || masked_from(s, i)[k - i] == blank(s[k])) by {
                    if k > i {
                        assert(masked_from(s, i)[k - i] == masked_from(s, i + 1)[k - (i + 1)]);
                    }
                }
            },
        }
    }
}

/// The mask keeps the text's shape: every character is where it was or blanked, and every line
/// keeps its number.
pub proof fn law_a_mask_keeps_lines(s: Seq<char>)
    ensures
        masked(s).len() == s.len(),
        forall|k: int|
            0 <= k < s.len() ==> (#[trigger] masked(s)[k] == s[k] || masked(s)[k] == blank(s[k])),
        forall|k: int| 0 <= k < s.len() ==> (#[trigger] masked(s)[k] == '\n' <==> s[k] == '\n'),
{
    lemma_masked_from(s, 0);
    assert forall|k: int| 0 <= k < s.len() implies (#[trigger] masked(s)[k] == s[k] || masked(s)[k]
        == blank(s[k])) by {
        assert(masked_from(s, 0)[k - 0] == masked(s)[k]);
    }
}

fn blanked(c: char) -> (b: char)
    ensures
        b == blank(c),
{
    if c == '\n' {
        '\n'
    } else {
        ' '
    }
}

/// The characters of a text.
pub fn characters(text: &str) -> (chars: Vec<char>)
    ensures
        chars@ == text@,
{
    let mut chars: Vec<char> = Vec::new();
    for c in it: text.chars()
        invariant
            chars@ == it.seq().take(it.index()),
            it.seq() == text@,
    {
        chars.push(c);
        assert(it.seq().take(it.index() + 1) =~= it.seq().take(it.index()).push(c));
    }
    assert(text@.take(text@.len() as int) =~= text@);
    chars
}

/// Where the line that reaches `from` ends.
pub(crate) fn end_of_line(s: &[char], from: usize) -> (end: usize)
    requires
        from <= s@.len(),
    ensures
        end == line_comment_end(s@, from as int),
        from <= end <= s@.len(),
{
    let mut i: usize = from;
    while i < s.len() && s[i] != '\n'
        invariant
            from <= i <= s@.len(),
            line_comment_end(s@, from as int) == line_comment_end(s@, i as int),
        decreases s@.len() - i,
    {
        i += 1;
    }
    i
}

fn skip_block_comment(s: &[char], from: usize) -> (end: usize)
    requires
        holds_at(s@, from as int, '/'),
        holds_at(s@, from + 1, '*'),
    ensures
        end == block_comment_end(s@, from as int, 0),
        from < end <= s@.len(),
{
    let mut depth: usize = 0;
    let mut i: usize = from;
    proof {
        lemma_block_comment_end(s@, from as int, 0);
    }
    while i < s.len()
        invariant
            from <= i <= s@.len(),
            depth <= i - from,
            i == from ==> holds_at(s@, i as int, '/') && holds_at(s@, i + 1, '*'),
            i > from ==> depth >= 1,
            from < block_comment_end(s@, from as int, 0) <= s@.len(),
            block_comment_end(s@, from as int, 0) == block_comment_end(s@, i as int, depth as nat),
        decreases s@.len() - i,
    {
        if stands(s, i, '/') && i + 1 < s.len() && stands(s, i + 1, '*') {
            depth += 1;
            i += 2;
        } else if stands(s, i, '*') && i + 1 < s.len() && stands(s, i + 1, '/') {
            if depth <= 1 {
                return i + 2;
            }
            depth -= 1;
            i += 2;
        } else {
            i += 1;
        }
    }
    i
}

fn skip_hashes(s: &[char], from: usize) -> (end: usize)
    requires
        from <= s@.len(),
    ensures
        end == hashes_end(s@, from as int),
        from <= end <= s@.len(),
{
    let mut j: usize = from;
    while j < s.len() && s[j] == '#'
        invariant
            from <= j <= s@.len(),
            hashes_end(s@, from as int) == hashes_end(s@, j as int),
        decreases s@.len() - j,
    {
        j += 1;
    }
    j
}

fn raw_closes_at(s: &[char], j: usize, hashes: usize) -> (closes: bool)
    requires
        j < s@.len(),
    ensures
        closes == closes_raw(s@, j as int, hashes as nat),
{
    if s[j] != '"' {
        return false;
    }
    if hashes > s.len() - 1 - j {
        proof {
            assert(!holds_at(s@, j + hashes, '#'));
        }
        return false;
    }
    let mut k: usize = 1;
    let len: usize = s.len();
    while k <= hashes
        invariant
            1 <= k <= hashes + 1,
            j + hashes < len == s@.len(),
            s@[j as int] == '"',
            forall|m: int| 1 <= m < k ==> #[trigger] holds_at(s@, j + m, '#'),
        decreases hashes + 1 - k,
    {
        if s[j + k] != '#' {
            assert(!holds_at(s@, j + k, '#'));
            return false;
        }
        k += 1;
    }
    true
}

fn skip_raw(s: &[char], from: usize, hashes: usize) -> (end: usize)
    requires
        from <= s@.len(),
    ensures
        end == raw_end(s@, from as int, hashes as nat),
        from <= end <= s@.len(),
{
    let mut j: usize = from;
    proof {
        lemma_raw_end(s@, from as int, hashes as nat);
    }
    while j < s.len()
        invariant
            from <= j <= s@.len(),
            from <= raw_end(s@, from as int, hashes as nat) <= s@.len(),
            raw_end(s@, from as int, hashes as nat) == raw_end(s@, j as int, hashes as nat),
        decreases s@.len() - j,
    {
        if raw_closes_at(s, j, hashes) {
            return j + 1 + hashes;
        }
        j += 1;
    }
    j
}

fn skip_string(s: &[char], from: usize) -> (end: usize)
    requires
        from <= s@.len(),
    ensures
        end == string_end(s@, from as int),
        from <= end <= s@.len(),
{
    let mut j: usize = from;
    proof {
        lemma_string_end(s@, from as int);
    }
    while j < s.len()
        invariant
            from <= j <= s@.len(),
            string_end(s@, from as int) == string_end(s@, j as int),
        decreases s@.len() - j,
    {
        if s[j] == '"' {
            return j + 1;
        }
        if s[j] == '\\' {
            if j + 1 >= s.len() {
                assert(string_end(s@, j + 2) == s@.len());
                return s.len();
            }
            j += 2;
        } else {
            j += 1;
        }
    }
    j
}

fn find_quote(s: &[char], from: usize) -> (at: Option<usize>)
    ensures
        at is None <==> quote_from(s@, from as int) is None,
        at matches Some(k) ==> quote_from(s@, from as int) == Some(k as int) && k < s@.len(),
{
    let mut k: usize = from;
    while k < s.len()
        invariant
            quote_from(s@, from as int) == quote_from(s@, k as int),
        decreases s@.len() - k,
    {
        if s[k] == '\'' {
            return Some(k);
        }
        k += 1;
    }
    None
}

fn skip_char(s: &[char], start: usize) -> (end: Option<usize>)
    requires
        start < s@.len(),
    ensures
        end is None <==> char_end(s@, start as int) is None,
        end matches Some(e) ==> char_end(s@, start as int) == Some(e as int) && e <= s@.len(),
{
    if s.len() - start <= 1 {
        return None;
    }
    if s[start + 1] == '\\' {
        if s.len() - start <= 3 {
            return None;
        }
        return match find_quote(s, start + 3) {
            Some(k) => Some(k + 1),
            None => None,
        };
    }
    if s.len() - start > 2 && s[start + 2] == '\'' {
        Some(start + 3)
    } else {
        None
    }
}

/// Where the comment or the literal that starts here ends, if one does.
fn skip_hidden(s: &[char], i: usize) -> (end: Option<usize>)
    requires
        i < s@.len(),
    ensures
        end is None <==> hidden(s@, i as int) is None,
        end matches Some(e) ==> hidden(s@, i as int) == Some(e as int) && i < e <= s@.len(),
{
    proof {
        lemma_hidden(s@, i as int);
    }
    let c = s[i];
    let has_next = i + 1 < s.len();
    if c == '/' && has_next && s[i + 1] == '/' {
        return Some(end_of_line(s, i));
    }
    if c == '/' && has_next && s[i + 1] == '*' {
        return Some(skip_block_comment(s, i));
    }
    let inside = i > 0 && is_name_char(s[i - 1]);
    if (c == 'r' || c == 'b') && !inside {
        let prefix: usize = if c == 'r' {
            i + 1
        } else if has_next && s[i + 1] == 'r' {
            i + 2
        } else {
            0
        };
        if prefix > 0 {
            let quote = skip_hashes(s, prefix);
            if stands(s, quote, '"') {
                return Some(skip_raw(s, quote + 1, quote - prefix));
            }
        }
    }
    if c == '"' {
        return Some(skip_string(s, i + 1));
    }
    if c == 'b' && has_next && s[i + 1] == '"' && !inside {
        return Some(skip_string(s, i + 2));
    }
    if c == '\'' {
        return skip_char(s, i);
    }
    if c == 'b' && has_next && s[i + 1] == '\'' && !inside {
        return skip_char(s, i + 1);
    }
    None
}

/// The text with the inside of every comment and literal blanked, lines kept.
pub fn mask_non_code(source: &[char]) -> (code: Vec<char>)
    ensures
        code@ == masked(source@),
{
    let mut code: Vec<char> = Vec::new();
    let mut i: usize = 0;
    while i < source.len()
        invariant
            i <= source@.len(),
            masked(source@) == code@ + masked_from(source@, i as int),
        decreases source@.len() - i,
    {
        let ghost before = code@;
        let ghost from = i as int;
        match skip_hidden(source, i) {
            Some(end) => {
                let ghost hid = source@.subrange(from, end as int).map_values(|c: char| blank(c));
                while i < end
                    invariant
                        0 <= from <= i <= end <= source@.len(),
                        hid == source@.subrange(from, end as int).map_values(|c: char| blank(c)),
                        code@ == before + hid.take(i - from),
                    decreases end - i,
                {
                    code.push(blanked(source[i]));
                    i += 1;
                    assert(hid.take(i - from) =~= hid.take(i - 1 - from).push(hid[i - 1 - from]));
                }
                assert(hid.take(end - from) =~= hid);
                assert(before + (hid + masked_from(source@, end as int)) =~= before + hid
                    + masked_from(source@, end as int));
            },
            None => {
                code.push(source[i]);
                i += 1;
                assert(before + (seq![source@[from]] + masked_from(source@, i as int)) =~= code@
                    + masked_from(source@, i as int));
            },
        }
    }
    assert(code@ + masked_from(source@, i as int) =~= code@);
    code
}

/// The place of the brace that closes the block this text is inside, `depth` blocks further in.
pub open spec fn block_end_from(s: Seq<char>, i: int, depth: nat) -> int
    decreases s.len() - i,
{
    if i >= s.len() {
        s.len() as int
    } else if s[i] == '{' {
        block_end_from(s, i + 1, depth + 1)
    } else if s[i] == '}' {
        if depth == 0 {
            i
        } else {
            block_end_from(s, i + 1, (depth - 1) as nat)
        }
    } else {
        block_end_from(s, i + 1, depth)
    }
}

/// The place of the brace that closes the block this text is inside, or the text's end.
pub open spec fn block_end(s: Seq<char>) -> int {
    block_end_from(s, 0, 0)
}

/// The place of the brace that closes the block the text from `from` on is inside, counted from
/// there.
pub fn end_of_block(source: &[char], from: usize) -> (end: usize)
    requires
        from <= source@.len(),
    ensures
        end == block_end(source@.skip(from as int)),
        end <= source@.len() - from,
{
    let ghost s = source@.skip(from as int);
    let mut depth: usize = 0;
    let mut i: usize = from;
    while i < source.len()
        invariant
            from <= i <= source@.len(),
            s == source@.skip(from as int),
            depth <= i - from,
            block_end(s) == block_end_from(s, i - from, depth as nat),
        decreases source@.len() - i,
    {
        let c = source[i];
        assert(s[i - from] == c);
        if c == '{' {
            depth += 1;
        } else if c == '}' {
            if depth == 0 {
                return i - from;
            }
            depth -= 1;
        }
        i += 1;
    }
    i - from
}

} // verus!
