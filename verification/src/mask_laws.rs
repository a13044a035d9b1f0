//! What is code in a text and what is not, item by item.
//!
//! Each law speaks of whatever the mask answers for a text that is put together of code, one comment
//! or literal, and a rest: the item is blanked, what stands before it is kept, and the rest is masked
//! as it would be alone.

use crate::code_mask;
use crate::code_mask::{characters, end_of_block, mask_non_code};
use vstd::prelude::*;

verus! {

/// Blanks in the shape of a text: its line ends stay, everything else is a space.
pub open spec fn blanks_of(item: Seq<char>) -> Seq<char> {
    Seq::new(
        item.len(),
        |i: int|
            if item[i] == '\n' {
                '\n'
            } else {
                ' '
            },
    )
}

/// A character of a name: a letter, a digit or an underscore.
pub open spec fn in_a_name(c: char) -> bool {
    code_mask::alphanumeric(c) || c == '_'
}

/// Code without anything that could start a comment or a literal, and that no literal's prefix ends.
pub open spec fn plain(code: Seq<char>) -> bool {
    &&& forall|i: int|
        0 <= i < code.len() ==> #[trigger] code[i] != '/' && code[i] != '"' && code[i] != '\''
    &&& code.len() > 0 ==> !in_a_name(code.last()) && code.last() != '#' && code.last() != 'r'
        && code.last() != 'b'
}

/// A text that reads the same wherever it stands: it does not begin like the prefix of a literal.
pub open spec fn stands_alone(rest: Seq<char>) -> bool {
    rest.len() > 0 ==> rest[0] != 'r' && rest[0] != 'b'
}

/// From here on the two texts are the same.
spec fn same_from(s: Seq<char>, i: int, t: Seq<char>, j: int) -> bool {
    &&& 0 <= i <= s.len()
    &&& 0 <= j <= t.len()
    &&& s.skip(i) == t.skip(j)
}

proof fn lemma_same_from(s: Seq<char>, i: int, t: Seq<char>, j: int, k: int)
    requires
        same_from(s, i, t, j),
        0 <= k <= s.len() - i,
    ensures
        s.len() - i == t.len() - j,
        same_from(s, i + k, t, j + k),
        k < s.len() - i ==> s[i + k] == t[j + k],
{
    assert(s.skip(i).len() == t.skip(j).len());
    assert(s.skip(i + k) =~= t.skip(j + k)) by {
        assert forall|m: int| 0 <= m < s.len() - i - k implies #[trigger] s.skip(i + k)[m] == t.skip(j + k)[m] by {
            assert(s.skip(i)[k + m] == t.skip(j)[k + m]);
        }
    }
    if k < s.len() - i {
        assert(s.skip(i)[k] == t.skip(j)[k]);
    }
}

proof fn lemma_holds_same(s: Seq<char>, i: int, t: Seq<char>, j: int, k: int, c: char)
    requires
        same_from(s, i, t, j),
        0 <= k,
    ensures
        code_mask::holds_at(s, i + k, c) == code_mask::holds_at(t, j + k, c),
{
    lemma_same_from(s, i, t, j, 0);
    if k < s.len() - i {
        lemma_same_from(s, i, t, j, k);
    }
}

proof fn lemma_line_same(s: Seq<char>, i: int, t: Seq<char>, j: int)
    requires
        same_from(s, i, t, j),
    ensures
        code_mask::line_comment_end(s, i) - i == code_mask::line_comment_end(t, j) - j,
    decreases s.len() - i,
{
    lemma_same_from(s, i, t, j, 0);
    if i < s.len() && s[i] != '\n' {
        lemma_same_from(s, i, t, j, 1);
        lemma_line_same(s, i + 1, t, j + 1);
    }
}

proof fn lemma_block_same(s: Seq<char>, i: int, t: Seq<char>, j: int, depth: nat)
    requires
        same_from(s, i, t, j),
    ensures
        code_mask::block_comment_end(s, i, depth) - i == code_mask::block_comment_end(t, j, depth)
            - j,
    decreases s.len() - i,
{
    lemma_same_from(s, i, t, j, 0);
    if i < s.len() {
        lemma_holds_same(s, i, t, j, 0, '/');
        lemma_holds_same(s, i, t, j, 0, '*');
        lemma_holds_same(s, i, t, j, 1, '/');
        lemma_holds_same(s, i, t, j, 1, '*');
        lemma_same_from(s, i, t, j, 1);
        lemma_block_same(s, i + 1, t, j + 1, depth);
        if i + 2 <= s.len() {
            lemma_same_from(s, i, t, j, 2);
            lemma_block_same(s, i + 2, t, j + 2, depth + 1);
            if depth > 0 {
                lemma_block_same(s, i + 2, t, j + 2, (depth - 1) as nat);
            }
        }
    }
}

proof fn lemma_hashes_same(s: Seq<char>, i: int, t: Seq<char>, j: int)
    requires
        same_from(s, i, t, j),
    ensures
        code_mask::hashes_end(s, i) - i == code_mask::hashes_end(t, j) - j,
        i <= code_mask::hashes_end(s, i) <= s.len(),
    decreases s.len() - i,
{
    lemma_holds_same(s, i, t, j, 0, '#');
    if code_mask::holds_at(s, i, '#') {
        lemma_same_from(s, i, t, j, 1);
        lemma_hashes_same(s, i + 1, t, j + 1);
    }
}

proof fn lemma_raw_same(s: Seq<char>, i: int, t: Seq<char>, j: int, hashes: nat)
    requires
        same_from(s, i, t, j),
    ensures
        code_mask::raw_end(s, i, hashes) - i == code_mask::raw_end(t, j, hashes) - j,
    decreases s.len() - i,
{
    lemma_same_from(s, i, t, j, 0);
    if i < s.len() {
        lemma_holds_same(s, i, t, j, 0, '"');
        assert(code_mask::closes_raw(s, i, hashes) == code_mask::closes_raw(t, j, hashes)) by {
            if code_mask::closes_raw(s, i, hashes) {
                assert forall|k: int| 1 <= k <= hashes implies #[trigger] code_mask::holds_at(
                    t,
                    j + k,
                    '#',
                ) by {
                    assert(code_mask::holds_at(s, i + k, '#'));
                    lemma_holds_same(s, i, t, j, k, '#');
                }
            }
            if code_mask::closes_raw(t, j, hashes) {
                assert forall|k: int| 1 <= k <= hashes implies #[trigger] code_mask::holds_at(
                    s,
                    i + k,
                    '#',
                ) by {
                    assert(code_mask::holds_at(t, j + k, '#'));
                    lemma_holds_same(s, i, t, j, k, '#');
                }
            }
        }
        lemma_same_from(s, i, t, j, 1);
        lemma_raw_same(s, i + 1, t, j + 1, hashes);
    }
}

proof fn lemma_string_same(s: Seq<char>, i: int, t: Seq<char>, j: int)
    requires
        same_from(s, i, t, j),
    ensures
        code_mask::string_end(s, i) - i == code_mask::string_end(t, j) - j,
    decreases s.len() - i,
{
    lemma_same_from(s, i, t, j, 0);
    if i < s.len() {
        lemma_same_from(s, i, t, j, 1);
        if s[i] == '\\' {
            if i + 2 <= s.len() {
                lemma_same_from(s, i, t, j, 2);
                lemma_string_same(s, i + 2, t, j + 2);
            } else {
                assert(code_mask::string_end(s, i + 2) == s.len());
                assert(code_mask::string_end(t, j + 2) == t.len());
            }
        } else if s[i] != '"' {
            lemma_string_same(s, i + 1, t, j + 1);
        }
    }
}

proof fn lemma_quote_same(s: Seq<char>, i: int, t: Seq<char>, j: int)
    requires
        same_from(s, i, t, j),
    ensures
        match (code_mask::quote_from(s, i), code_mask::quote_from(t, j)) {
            (Some(a), Some(b)) => a - i == b - j,
            (None, None) => true,
            _ => false,
        },
    decreases s.len() - i,
{
    lemma_same_from(s, i, t, j, 0);
    if i < s.len() {
        lemma_same_from(s, i, t, j, 1);
        if s[i] != '\'' {
            lemma_quote_same(s, i + 1, t, j + 1);
        }
    }
}

proof fn lemma_char_same(s: Seq<char>, i: int, t: Seq<char>, j: int)
    requires
        same_from(s, i, t, j),
        i < s.len(),
    ensures
        match (code_mask::char_end(s, i), code_mask::char_end(t, j)) {
            (Some(a), Some(b)) => a - i == b - j,
            (None, None) => true,
            _ => false,
        },
{
    lemma_same_from(s, i, t, j, 0);
    lemma_holds_same(s, i, t, j, 1, '\\');
    lemma_holds_same(s, i, t, j, 2, '\'');
    if i + 3 <= s.len() {
        lemma_same_from(s, i, t, j, 3);
        lemma_quote_same(s, i + 3, t, j + 3);
    }
}

/// What starts at a place depends on the text from there on, and on whether a name ends before it.
proof fn lemma_hidden_same(s: Seq<char>, i: int, t: Seq<char>, j: int)
    requires
        same_from(s, i, t, j),
        i < s.len(),
        code_mask::inside_a_name(s, i) == code_mask::inside_a_name(t, j) || (s[i] != 'r' && s[i]
            != 'b'),
    ensures
        match (code_mask::hidden(s, i), code_mask::hidden(t, j)) {
            (Some(a), Some(b)) => a - i == b - j,
            (None, None) => true,
            _ => false,
        },
{
    lemma_same_from(s, i, t, j, 0);
    lemma_holds_same(s, i, t, j, 0, '/');
    lemma_holds_same(s, i, t, j, 1, '/');
    lemma_holds_same(s, i, t, j, 1, '*');
    lemma_holds_same(s, i, t, j, 0, 'r');
    lemma_holds_same(s, i, t, j, 0, 'b');
    lemma_holds_same(s, i, t, j, 1, 'r');
    lemma_holds_same(s, i, t, j, 0, '"');
    lemma_holds_same(s, i, t, j, 1, '"');
    lemma_holds_same(s, i, t, j, 0, '\'');
    lemma_holds_same(s, i, t, j, 1, '\'');
    lemma_line_same(s, i, t, j);
    lemma_block_same(s, i, t, j, 0);
    lemma_same_from(s, i, t, j, 1);
    lemma_string_same(s, i + 1, t, j + 1);
    lemma_char_same(s, i, t, j);
    if i + 1 < s.len() {
        lemma_char_same(s, i + 1, t, j + 1);
    }
    if i + 2 <= s.len() {
        lemma_same_from(s, i, t, j, 2);
        lemma_string_same(s, i + 2, t, j + 2);
    }
    if let Some(p) = code_mask::raw_prefix_end(s, i) {
        let k = p - i;
        lemma_same_from(s, i, t, j, k);
        lemma_hashes_same(s, p, t, j + k);
        let q = code_mask::hashes_end(s, p);
        lemma_same_from(s, i, t, j, q - i);
        lemma_holds_same(s, q, t, j + (q - i), 0, '"');
        if code_mask::holds_at(s, q, '"') {
            lemma_same_from(s, i, t, j, q + 1 - i);
            lemma_raw_same(s, q + 1, t, j + (q + 1 - i), (q - p) as nat);
        }
    }
}

/// The rest of a text is masked as it would be alone.
proof fn lemma_rest(s: Seq<char>, i: int, t: Seq<char>, j: int)
    requires
        same_from(s, i, t, j),
        i < s.len() ==> code_mask::inside_a_name(s, i) == code_mask::inside_a_name(t, j) || (s[i]
            != 'r' && s[i] != 'b'),
    ensures
        code_mask::masked_from(s, i) == code_mask::masked_from(t, j),
    decreases s.len() - i,
{
    lemma_same_from(s, i, t, j, 0);
    if i < s.len() {
        lemma_hidden_same(s, i, t, j);
        let (end_s, end_t) = match (code_mask::hidden(s, i), code_mask::hidden(t, j)) {
            (Some(a), Some(b)) if i < a <= s.len() => (a, b),
            _ => (i + 1, j + 1),
        };
        lemma_same_from(s, i, t, j, end_s - i);
        lemma_same_from(s, i, t, j, end_s - 1 - i);
        assert(code_mask::inside_a_name(s, end_s) == code_mask::inside_a_name(t, end_t));
        lemma_rest(s, end_s, t, end_t);
        if code_mask::hidden(s, i) is Some && i < code_mask::hidden(s, i)->0 <= s.len() {
            assert(s.subrange(i, end_s) =~= t.subrange(j, end_t)) by {
                assert forall|m: int| 0 <= m < end_s - i implies #[trigger] s.subrange(i, end_s)[m]
                    == t.subrange(j, end_t)[m] by {
                    assert(s.skip(i)[m] == t.skip(j)[m]);
                }
            }
        }
    }
}

/// Plain code is kept as it is.
proof fn lemma_plain(s: Seq<char>, code: Seq<char>, i: int)
    requires
        plain(code),
        code.len() <= s.len(),
        s.take(code.len() as int) == code,
        0 <= i <= code.len(),
    ensures
        code_mask::masked_from(s, i) == code.skip(i) + code_mask::masked_from(
            s,
            code.len() as int,
        ),
    decreases code.len() - i,
{
    let n = code.len() as int;
    if i == n {
        assert(code.skip(n) + code_mask::masked_from(s, n) =~= code_mask::masked_from(s, n));
    } else {
        assert forall|m: int| 0 <= m < n implies #[trigger] s[m] == code[m] by {
            assert(s.take(n)[m] == code[m]);
        }
        assert(s[i] == code[i]);
        lemma_prefix_of_code(s, code, i);
        lemma_plain(s, code, i + 1);
        assert(code.skip(i) =~= seq![code[i]] + code.skip(i + 1));
        assert(seq![s[i]] + (code.skip(i + 1) + code_mask::masked_from(s, n)) =~= code.skip(i)
            + code_mask::masked_from(s, n));
    }
}

/// No literal's prefix stands in plain code.
proof fn lemma_prefix_of_code(s: Seq<char>, code: Seq<char>, i: int)
    requires
        plain(code),
        code.len() <= s.len(),
        s.take(code.len() as int) == code,
        0 <= i < code.len(),
    ensures
        code_mask::hidden(s, i) is None,
{
    let n = code.len() as int;
    assert forall|m: int| 0 <= m < n implies #[trigger] s[m] == code[m] by {
        assert(s.take(n)[m] == code[m]);
    }
    assert(s[i] == code[i]);
    assert(i + 1 < n ==> s[i + 1] == code[i + 1]);
    assert(s[n - 1] == code.last());
    if let Some(p) = code_mask::raw_prefix_end(s, i) {
        lemma_hashes_in_code(s, code, p);
        let q = code_mask::hashes_end(s, p);
        assert(s[q] == code[q]);
    }
}

/// Hashes that begin in plain code end in it.
proof fn lemma_hashes_in_code(s: Seq<char>, code: Seq<char>, p: int)
    requires
        plain(code),
        code.len() <= s.len(),
        s.take(code.len() as int) == code,
        0 < p < code.len(),
    ensures
        p <= code_mask::hashes_end(s, p) < code.len(),
    decreases code.len() - p,
{
    assert(s.take(code.len() as int)[p] == code[p]);
    if code_mask::holds_at(s, p, '#') {
        lemma_hashes_in_code(s, code, p + 1);
    }
}

/// Code, an item and a rest, one behind the other.
pub open spec fn put_together(
    whole: Seq<char>,
    code: Seq<char>,
    item: Seq<char>,
    rest: Seq<char>,
) -> bool {
    &&& whole == code + item + rest
    &&& plain(code)
    &&& stands_alone(rest)
}

/// The item is blanked, what stands before it is kept and the rest is masked alone.
pub open spec fn item_blanked(
    masked: Seq<char>,
    code: Seq<char>,
    item: Seq<char>,
    masked_rest: Seq<char>,
) -> bool {
    masked == code + blanks_of(item) + masked_rest
}

proof fn lemma_item(whole: Seq<char>, code: Seq<char>, item: Seq<char>, rest: Seq<char>)
    requires
        put_together(whole, code, item, rest),
        item.len() > 0,
        code_mask::hidden(whole, code.len() as int) == Some((code.len() + item.len()) as int),
    ensures
        item_blanked(code_mask::masked(whole), code, item, code_mask::masked(rest)),
{
    let n = code.len() as int;
    let m = n + item.len();
    assert(whole.take(n) =~= code);
    lemma_plain(whole, code, 0);
    assert(code.skip(0) =~= code);
    assert(whole.skip(m) =~= rest.skip(0));
    assert(rest.len() > 0 ==> whole[m] == rest[0]);
    lemma_rest(whole, m, rest, 0);
    let hid = whole.subrange(n, m).map_values(|c: char| code_mask::blank(c));
    assert(whole.subrange(n, m) =~= item);
    assert(hid =~= blanks_of(item));
    assert(code + (blanks_of(item) + code_mask::masked(rest)) =~= code + blanks_of(item)
        + code_mask::masked(rest));
}

/// A text keeps its length and its lines, and every character that is not blanked.
pub proof fn law_a_mask_blanks_in_place(source: &[char], masked: Vec<char>)
    requires
        call_ensures(mask_non_code, (source,), masked),
    ensures
        masked@.len() == source@.len(),
        forall|k: int|
            0 <= k < source@.len() ==> #[trigger] masked@[k] == source@[k] || (masked@[k] == ' '
                && source@[k] != '\n'),
{
    code_mask::law_a_mask_keeps_lines(source@);
    assert forall|k: int| 0 <= k < source@.len() implies #[trigger] masked@[k] == source@[k] || (
    masked@[k] == ' ' && source@[k] != '\n') by {
        assert(code_mask::masked(source@)[k] == source@[k] || code_mask::masked(source@)[k]
            == code_mask::blank(source@[k]));
    }
}

/// Text without a slash and without a quote of either kind is code, all of it.
pub proof fn law_plain_text_is_code(source: &[char], masked: Vec<char>)
    requires
        forall|i: int|
            0 <= i < source@.len() ==> #[trigger] source@[i] != '/' && source@[i] != '"'
                && source@[i] != '\'',
        call_ensures(mask_non_code, (source,), masked),
    ensures
        masked@ == source@,
{
    lemma_no_items(source@, 0);
    assert(source@.skip(0) =~= source@);
}

proof fn lemma_no_items(s: Seq<char>, i: int)
    requires
        forall|i: int| 0 <= i < s.len() ==> #[trigger] s[i] != '/' && s[i] != '"' && s[i] != '\'',
        0 <= i <= s.len(),
    ensures
        code_mask::masked_from(s, i) == s.skip(i),
    decreases s.len() - i,
{
    if i < s.len() {
        lemma_no_items(s, i + 1);
        assert(s.skip(i) =~= seq![s[i]] + s.skip(i + 1));
        if let Some(p) = code_mask::raw_prefix_end(s, i) {
            let q = code_mask::hashes_end(s, p);
            assert(!code_mask::holds_at(s, q, '"')) by {
                if code_mask::holds_at(s, q, '"') {
                    assert(s[q] == '"');
                }
            }
        }
    } else {
        assert(s.skip(i) =~= Seq::<char>::empty());
    }
}

/// A line comment is blanked up to its line's end, which is not part of it.
pub proof fn law_a_line_comment_is_blanked(
    whole: &[char],
    code: Seq<char>,
    said: Seq<char>,
    rest: &[char],
    masked: Vec<char>,
    masked_rest: Vec<char>,
)
    requires
        put_together(whole@, code, seq!['/', '/'] + said, rest@),
        forall|i: int| 0 <= i < said.len() ==> #[trigger] said[i] != '\n',
        rest@.len() > 0 ==> rest@[0] == '\n',
        call_ensures(mask_non_code, (whole,), masked),
        call_ensures(mask_non_code, (rest,), masked_rest),
    ensures
        item_blanked(masked@, code, seq!['/', '/'] + said, masked_rest@),
{
    let item = seq!['/', '/'] + said;
    let n = code.len() as int;
    let m = n + item.len();
    let s = whole@;
    assert(s[n] == item[0] && s[n + 1] == item[1]);
    assert forall|i: int| n <= i < m implies #[trigger] s[i] != '\n' by {
        assert(s[i] == item[i - n]);
        if i - n >= 2 {
            assert(item[i - n] == said[i - n - 2]);
        }
    }
    if rest@.len() > 0 {
        assert(s[m] == rest@[0]);
    }
    lemma_line_ends(s, n, m);
    lemma_item(s, code, item, rest@);
}

proof fn lemma_line_ends(s: Seq<char>, i: int, m: int)
    requires
        0 <= i <= m <= s.len(),
        forall|k: int| i <= k < m ==> #[trigger] s[k] != '\n',
        m < s.len() ==> s[m] == '\n',
    ensures
        code_mask::line_comment_end(s, i) == m,
    decreases m - i,
{
    if i < m {
        lemma_line_ends(s, i + 1, m);
    }
}

/// The inside of a string: no quote but behind a backslash, which hides whatever follows it.
pub open spec fn is_string_inside(inside: Seq<char>) -> bool
    decreases inside.len(),
{
    if inside.len() == 0 {
        true
    } else if inside[0] == '\\' {
        inside.len() >= 2 && is_string_inside(inside.skip(2))
    } else {
        inside[0] != '"' && is_string_inside(inside.skip(1))
    }
}

proof fn lemma_string_inside(s: Seq<char>, i: int, inside: Seq<char>)
    requires
        0 <= i,
        i + inside.len() <= s.len(),
        s.subrange(i, i + inside.len()) == inside,
        is_string_inside(inside),
    ensures
        code_mask::string_end(s, i) == code_mask::string_end(s, i + inside.len()),
    decreases inside.len(),
{
    if inside.len() > 0 {
        assert(s[i] == inside[0]);
        let step: int = if inside[0] == '\\' {
            2
        } else {
            1
        };
        assert(s.subrange(i + step, i + inside.len()) =~= inside.skip(step));
        lemma_string_inside(s, i + step, inside.skip(step));
    }
}

/// A string is blanked from quote to quote, its escapes and all; a byte string with its letter.
pub proof fn law_a_string_is_blanked(
    whole: &[char],
    code: Seq<char>,
    byte: bool,
    inside: Seq<char>,
    rest: &[char],
    masked: Vec<char>,
    masked_rest: Vec<char>,
)
    requires
        put_together(whole@, code, quoted(byte, inside), rest@),
        is_string_inside(inside),
        call_ensures(mask_non_code, (whole,), masked),
        call_ensures(mask_non_code, (rest,), masked_rest),
    ensures
        item_blanked(masked@, code, quoted(byte, inside), masked_rest@),
{
    let item = quoted(byte, inside);
    let n = code.len() as int;
    let m = n + item.len();
    let s = whole@;
    let from: int = if byte {
        n + 2
    } else {
        n + 1
    };
    assert(s.subrange(n, m) =~= item);
    assert(s[n] == item[0]);
    assert(s[from - 1] == '"') by {
        assert(s[from - 1] == item[from - 1 - n]);
    }
    assert(s.subrange(from, from + inside.len()) =~= inside);
    lemma_string_inside(s, from, inside);
    assert(s[m - 1] == item[item.len() - 1]);
    assert(!code_mask::inside_a_name(s, n)) by {
        if n > 0 {
            assert(s[n - 1] == code.last());
        }
    }
    if byte {
        assert(code_mask::raw_prefix_end(s, n) is None);
    }
    lemma_item(s, code, item, rest@);
}

/// A text in quotes, behind a letter for a byte string.
pub open spec fn quoted(byte: bool, inside: Seq<char>) -> Seq<char> {
    (if byte {
        seq!['b', '"']
    } else {
        seq!['"']
    }) + inside + seq!['"']
}

/// A string that is never closed hides everything behind it.
pub proof fn law_an_open_string_hides_the_rest(
    whole: &[char],
    code: Seq<char>,
    inside: Seq<char>,
    masked: Vec<char>,
)
    requires
        put_together(whole@, code, seq!['"'] + inside, Seq::empty()),
        is_string_inside(inside),
        call_ensures(mask_non_code, (whole,), masked),
    ensures
        masked@ == code + blanks_of(seq!['"'] + inside),
{
    let item = seq!['"'] + inside;
    let n = code.len() as int;
    let s = whole@;
    assert(s[n] == item[0]);
    assert(s.subrange(n + 1, n + 1 + inside.len()) =~= inside);
    lemma_string_inside(s, n + 1, inside);
    lemma_item(s, code, item, Seq::empty());
    assert(code + blanks_of(item) + code_mask::masked(Seq::<char>::empty()) =~= code + blanks_of(
        item,
    ));
}

/// So many hashes.
pub open spec fn hashes(count: nat) -> Seq<char> {
    Seq::new(count, |i: int| '#')
}

/// A raw string's inside: no quote in it has as many hashes behind it as the string was opened with.
pub open spec fn is_raw_inside(inside: Seq<char>, count: nat) -> bool {
    forall|j: int|
        0 <= j < inside.len() && #[trigger] inside[j] == '"' ==> j + count >= inside.len() || exists|
            k: int,
        |
            1 <= k <= count && #[trigger] inside[j + k] != '#'
}

/// A raw string, of bytes or not.
pub open spec fn raw(byte: bool, inside: Seq<char>, count: nat) -> Seq<char> {
    (if byte {
        seq!['b', 'r']
    } else {
        seq!['r']
    }) + hashes(count) + seq!['"'] + inside + seq!['"'] + hashes(count)
}

proof fn lemma_raw_inside(s: Seq<char>, i: int, inside: Seq<char>, count: nat, at: int)
    requires
        0 <= i,
        i + inside.len() + 1 + count <= s.len(),
        s.subrange(i, i + inside.len()) == inside,
        s[i + inside.len()] == '"',
        is_raw_inside(inside, count),
        0 <= at <= inside.len(),
    ensures
        code_mask::raw_end(s, i + at, count) == code_mask::raw_end(s, i + inside.len(), count),
    decreases inside.len() - at,
{
    if at < inside.len() {
        assert(s[i + at] == inside[at]);
        assert(!code_mask::closes_raw(s, i + at, count)) by {
            if inside[at] == '"' {
                if at + count >= inside.len() {
                    assert(!code_mask::holds_at(s, i + at + (inside.len() - at), '#'));
                    if count == 0 {
                        assert(false);
                    }
                } else {
                    let k = choose|k: int| 1 <= k <= count && #[trigger] inside[at + k] != '#';
                    assert(s[i + at + k] == s.subrange(i, i + inside.len())[at + k]);
                    assert(!code_mask::holds_at(s, i + at + k, '#'));
                }
            }
        }
        lemma_raw_inside(s, i, inside, count, at + 1);
    }
}

proof fn lemma_hashes_run(s: Seq<char>, p: int, count: nat)
    requires
        0 <= p,
        p + count < s.len(),
        forall|k: int| p <= k < p + count ==> #[trigger] s[k] == '#',
        s[p + count] != '#',
    ensures
        code_mask::hashes_end(s, p) == p + count,
    decreases count,
{
    if count > 0 {
        assert(s[p] == '#');
        lemma_hashes_run(s, p + 1, (count - 1) as nat);
    }
}

/// A raw string is blanked up to the quote that has its hashes behind it, whatever backslashes and
/// other quotes stand before that.
pub proof fn law_a_raw_string_is_blanked(
    whole: &[char],
    code: Seq<char>,
    byte: bool,
    inside: Seq<char>,
    count: nat,
    rest: &[char],
    masked: Vec<char>,
    masked_rest: Vec<char>,
)
    requires
        put_together(whole@, code, raw(byte, inside, count), rest@),
        is_raw_inside(inside, count),
        call_ensures(mask_non_code, (whole,), masked),
        call_ensures(mask_non_code, (rest,), masked_rest),
    ensures
        item_blanked(masked@, code, raw(byte, inside, count), masked_rest@),
{
    let item = raw(byte, inside, count);
    let n = code.len() as int;
    let s = whole@;
    assert(s.subrange(n, n + item.len()) =~= item);
    assert(!code_mask::inside_a_name(s, n)) by {
        if n > 0 {
            assert(s[n - 1] == code.last());
        }
    }
    lemma_raw_at(s, n, byte, inside, count);
    lemma_item(s, code, item, rest@);
}

/// Where the parts of a raw string stand in it.
proof fn lemma_raw_parts(byte: bool, inside: Seq<char>, count: nat)
    ensures
        ({
            let item = raw(byte, inside, count);
            let p: int = if byte {
                2
            } else {
                1
            };
            &&& item.len() == p + 2 * count + inside.len() + 2
            &&& item[p - 1] == 'r' && (byte ==> item[0] == 'b')
            &&& forall|k: int| p <= k < p + count ==> #[trigger] item[k] == '#'
            &&& item[p + count] == '"'
            &&& item.subrange(p + count + 1, p + count + 1 + inside.len()) == inside
            &&& item[p + count + 1 + inside.len()] == '"'
            &&& forall|k: int|
                p + count + 2 + inside.len() <= k < item.len() ==> #[trigger] item[k] == '#'
        }),
{
    let item = raw(byte, inside, count);
    let p: int = if byte {
        2
    } else {
        1
    };
    let prefix = if byte {
        seq!['b', 'r']
    } else {
        seq!['r']
    };
    let opened = prefix + hashes(count) + seq!['"'];
    assert forall|k: int| p <= k < p + count implies #[trigger] item[k] == '#' by {
        assert(item[k] == opened[k]);
        assert(opened[k] == hashes(count)[k - p]);
    }
    assert(item.subrange(p + count + 1, p + count + 1 + inside.len()) =~= inside);
    assert forall|k: int| p + count + 2 + inside.len() <= k < item.len() implies #[trigger] item[k]
        == '#' by {
        assert(item[k] == hashes(count)[k - (p + count + 2 + inside.len())]);
    }
}

proof fn lemma_raw_at(s: Seq<char>, n: int, byte: bool, inside: Seq<char>, count: nat)
    requires
        0 <= n,
        n + raw(byte, inside, count).len() <= s.len(),
        s.subrange(n, n + raw(byte, inside, count).len()) == raw(byte, inside, count),
        is_raw_inside(inside, count),
        !code_mask::inside_a_name(s, n),
    ensures
        code_mask::hidden(s, n) == Some((n + raw(byte, inside, count).len()) as int),
{
    let item = raw(byte, inside, count);
    let p: int = n + if byte {
        2
    } else {
        1int
    };
    lemma_raw_parts(byte, inside, count);
    assert(s[n] == item[0] && s[p - 1] == item[p - 1 - n]);
    assert forall|k: int| p <= k < p + count implies #[trigger] s[k] == '#' by {
        assert(s[k] == item[k - n]);
    }
    let q = p + count;
    assert(s[q] == item[q - n]);
    lemma_hashes_run(s, p, count);
    let close = q + 1 + inside.len();
    assert(s.subrange(q + 1, close) =~= item.subrange(q + 1 - n, close - n));
    assert(s[close] == item[close - n]);
    lemma_raw_inside(s, q + 1, inside, count, 0);
    assert(code_mask::closes_raw(s, close, count)) by {
        assert forall|k: int| 1 <= k <= count implies #[trigger] code_mask::holds_at(
            s,
            close + k,
            '#',
        ) by {
            assert(s[close + k] == item[close + k - n]);
        }
    }
    assert(code_mask::raw_prefix_end(s, n) == Some(p));
    assert(code_mask::starts_raw(s, n));
}

/// Text in which no comment opens or closes, alone or with what stands next to it.
pub open spec fn is_flat(text: Seq<char>) -> bool {
    &&& forall|i: int|
        0 <= i < text.len() - 1 ==> !(#[trigger] text[i] == '/' && text[i + 1] == '*') && !(text[i]
            == '*' && text[i + 1] == '/')
    &&& text.len() > 0 ==> text.last() != '/' && text.last() != '*'
}

/// A block comment's inside: flat text, or flat text, a comment and an inside.
pub open spec fn is_comment_inside(inside: Seq<char>) -> bool
    decreases inside.len(),
{
    is_flat(inside) || exists|before: int, len: int|
        #![trigger nests_at(inside, before, len)]
        nests_at(inside, before, len) && is_comment_inside(
            inside.subrange(before + 2, before + 2 + len),
        ) && is_comment_inside(inside.skip(before + len + 4))
}

/// Flat text stands before a comment whose own inside is this long.
pub open spec fn nests_at(inside: Seq<char>, before: int, len: int) -> bool {
    &&& 0 <= before
    &&& 0 <= len
    &&& before + len + 4 <= inside.len()
    &&& is_flat(inside.take(before))
    &&& inside[before] == '/' && inside[before + 1] == '*'
    &&& inside[before + 2 + len] == '*' && inside[before + 3 + len] == '/'
}

proof fn lemma_flat(s: Seq<char>, i: int, text: Seq<char>, depth: nat)
    requires
        0 <= i,
        i + text.len() <= s.len(),
        s.subrange(i, i + text.len()) == text,
        is_flat(text),
    ensures
        code_mask::block_comment_end(s, i, depth) == code_mask::block_comment_end(
            s,
            i + text.len(),
            depth,
        ),
    decreases text.len(),
{
    if text.len() > 0 {
        assert(s[i] == text[0]);
        if text.len() > 1 {
            assert(s[i + 1] == text[1]);
        } else {
            assert(text.last() == text[0]);
        }
        let next = text.skip(1);
        assert(s.subrange(i + 1, i + text.len()) =~= next);
        assert(is_flat(next)) by {
            assert forall|k: int| 0 <= k < next.len() - 1 implies !(#[trigger] next[k] == '/' && next[k
                + 1] == '*') && !(next[k] == '*' && next[k + 1] == '/') by {
                assert(text[k + 1] == next[k] && text[k + 2] == next[k + 1]);
            }
            if next.len() > 0 {
                assert(next.last() == text.last());
            }
        }
        lemma_flat(s, i + 1, next, depth);
    }
}

proof fn lemma_comment_inside(s: Seq<char>, i: int, inside: Seq<char>, depth: nat)
    requires
        0 <= i,
        i + inside.len() <= s.len(),
        s.subrange(i, i + inside.len()) == inside,
        is_comment_inside(inside),
        depth >= 1,
    ensures
        code_mask::block_comment_end(s, i, depth) == code_mask::block_comment_end(
            s,
            i + inside.len(),
            depth,
        ),
    decreases inside.len(),
{
    if is_flat(inside) {
        lemma_flat(s, i, inside, depth);
    } else {
        let (before, len) = choose|before: int, len: int|
            #![trigger nests_at(inside, before, len)]
            nests_at(inside, before, len) && is_comment_inside(
                inside.subrange(before + 2, before + 2 + len),
            ) && is_comment_inside(inside.skip(before + len + 4));
        let own = inside.subrange(before + 2, before + 2 + len);
        let behind = inside.skip(before + len + 4);
        assert forall|k: int| 0 <= k < inside.len() implies s[i + k] == #[trigger] inside[k] by {
            assert(s.subrange(i, i + inside.len())[k] == s[i + k]);
        }
        assert(s.subrange(i, i + before) =~= inside.take(before));
        lemma_flat(s, i, inside.take(before), depth);
        assert(s[i + before] == inside[before] && s[i + before + 1] == inside[before + 1]);
        assert(s.subrange(i + before + 2, i + before + 2 + len) =~= own);
        lemma_comment_inside(s, i + before + 2, own, depth + 1);
        assert(s[i + before + 2 + len] == inside[before + 2 + len] && s[i + before + 3 + len]
            == inside[before + 3 + len]);
        assert(s.subrange(i + before + len + 4, i + inside.len()) =~= behind);
        lemma_comment_inside(s, i + before + len + 4, behind, depth);
    }
}

/// A block comment is blanked from its opening to its own close, with the comments inside it.
pub proof fn law_a_block_comment_is_blanked(
    whole: &[char],
    code: Seq<char>,
    inside: Seq<char>,
    rest: &[char],
    masked: Vec<char>,
    masked_rest: Vec<char>,
)
    requires
        put_together(whole@, code, seq!['/', '*'] + inside + seq!['*', '/'], rest@),
        is_comment_inside(inside),
        call_ensures(mask_non_code, (whole,), masked),
        call_ensures(mask_non_code, (rest,), masked_rest),
    ensures
        item_blanked(masked@, code, seq!['/', '*'] + inside + seq!['*', '/'], masked_rest@),
{
    let item = seq!['/', '*'] + inside + seq!['*', '/'];
    let n = code.len() as int;
    let m = n + item.len();
    let s = whole@;
    assert(s.subrange(n, m) =~= item);
    assert forall|k: int| n <= k < m implies #[trigger] s[k] == item[k - n] by {
        assert(s.subrange(n, m)[k - n] == s[k]);
    }
    assert(s[n] == '/' && s[n + 1] == '*');
    assert(s.subrange(n + 2, n + 2 + inside.len()) =~= inside);
    lemma_comment_inside(s, n + 2, inside, 1);
    assert(s[m - 2] == '*' && s[m - 1] == '/');
    lemma_item(s, code, item, rest@);
}

/// A character in quotes, behind a letter for a byte.
pub open spec fn quoted_char(byte: bool, inside: Seq<char>) -> Seq<char> {
    (if byte {
        seq!['b', '\'']
    } else {
        seq!['\'']
    }) + inside + seq!['\'']
}

/// What a character literal holds: one character that is no backslash, or a backslash, what it
/// escapes, and whatever belongs to that up to the quote.
pub open spec fn is_char_inside(inside: Seq<char>) -> bool {
    ||| inside.len() == 1 && inside[0] != '\\'
    ||| inside.len() >= 2 && inside[0] == '\\' && forall|i: int|
        2 <= i < inside.len() ==> #[trigger] inside[i] != '\''
}

proof fn lemma_quote_at(s: Seq<char>, i: int, m: int)
    requires
        0 <= i <= m < s.len(),
        forall|k: int| i <= k < m ==> #[trigger] s[k] != '\'',
        s[m] == '\'',
    ensures
        code_mask::quote_from(s, i) == Some(m),
    decreases m - i,
{
    if i < m {
        lemma_quote_at(s, i + 1, m);
    }
}

/// A character literal is blanked with its quotes and its escape, a byte's with its letter.
pub proof fn law_a_character_is_blanked(
    whole: &[char],
    code: Seq<char>,
    byte: bool,
    inside: Seq<char>,
    rest: &[char],
    masked: Vec<char>,
    masked_rest: Vec<char>,
)
    requires
        put_together(whole@, code, quoted_char(byte, inside), rest@),
        is_char_inside(inside),
        call_ensures(mask_non_code, (whole,), masked),
        call_ensures(mask_non_code, (rest,), masked_rest),
    ensures
        item_blanked(masked@, code, quoted_char(byte, inside), masked_rest@),
{
    let item = quoted_char(byte, inside);
    let n = code.len() as int;
    let m = n + item.len();
    let s = whole@;
    assert(s.subrange(n, m) =~= item);
    assert forall|k: int| n <= k < m implies #[trigger] s[k] == item[k - n] by {
        assert(s.subrange(n, m)[k - n] == s[k]);
    }
    let quote: int = if byte {
        n + 1
    } else {
        n
    };
    assert(s[n] == item[0]);
    assert(s[quote] == '\'');
    assert(s[quote + 1] == inside[0]);
    assert(s[m - 1] == '\'');
    if inside.len() >= 2 && inside[0] == '\\' {
        assert forall|k: int| quote + 3 <= k < m - 1 implies #[trigger] s[k] != '\'' by {
            assert(item[k - n] == inside[k - quote - 1]);
        }
        lemma_quote_at(s, quote + 3, m - 1);
    }
    assert(!code_mask::inside_a_name(s, n)) by {
        if n > 0 {
            assert(s[n - 1] == code.last());
        }
    }
    if byte {
        assert(code_mask::raw_prefix_end(s, n) is None);
    }
    lemma_item(s, code, item, rest@);
}

/// A single quote that opens no character, as that of a lifetime, is code, and so is a slash that
/// opens no comment.
pub proof fn law_a_lifetime_is_code(
    whole: &[char],
    code: Seq<char>,
    mark: char,
    rest: &[char],
    masked: Vec<char>,
    masked_rest: Vec<char>,
)
    requires
        put_together(whole@, code, seq![mark], rest@),
        mark == '\'' && (rest@.len() > 0 ==> rest@[0] != '\\') && (rest@.len() > 1 ==> rest@[1]
            != '\'') || mark == '/' && (rest@.len() > 0 ==> rest@[0] != '/' && rest@[0] != '*'),
        call_ensures(mask_non_code, (whole,), masked),
        call_ensures(mask_non_code, (rest,), masked_rest),
    ensures
        masked@ == code + seq![mark] + masked_rest@,
{
    let n = code.len() as int;
    let s = whole@;
    assert(s[n] == mark);
    assert(rest@.len() > 0 ==> s[n + 1] == rest@[0]);
    assert(rest@.len() > 1 ==> s[n + 2] == rest@[1]);
    assert(s.take(n) =~= code);
    lemma_plain(s, code, 0);
    assert(code.skip(0) =~= code);
    assert(s.skip(n + 1) =~= rest@.skip(0));
    lemma_rest(s, n + 1, rest@, 0);
    assert(code_mask::hidden(s, n) is None);
    assert(code + (seq![mark] + code_mask::masked(rest@)) =~= code + seq![mark]
        + code_mask::masked(rest@));
}

/// A letter that ends a name is no literal's prefix: it is code, and the string behind it is one with
/// escapes.
pub proof fn law_a_name_is_no_prefix(
    whole: &[char],
    name: Seq<char>,
    letter: char,
    inside: Seq<char>,
    rest: &[char],
    masked: Vec<char>,
    masked_rest: Vec<char>,
)
    requires
        whole@ == name + seq![letter] + quoted(false, inside) + rest@,
        letter == 'r' || letter == 'b',
        name.len() > 0,
        forall|i: int|
            0 <= i < name.len() ==> in_a_name(#[trigger] name[i]) && name[i] != '/' && name[i]
                != '"' && name[i] != '\'',
        !(name.len() == 1 && name[0] == 'b' && letter == 'r'),
        is_string_inside(inside),
        stands_alone(rest@),
        call_ensures(mask_non_code, (whole,), masked),
        call_ensures(mask_non_code, (rest,), masked_rest),
    ensures
        masked@ == name + seq![letter] + blanks_of(quoted(false, inside)) + masked_rest@,
{
    let s = whole@;
    let n = name.len() as int;
    let item = quoted(false, inside);
    let m = n + 1 + item.len();
    assert forall|i: int| 0 <= i < n implies #[trigger] s[i] == name[i] by {
    }
    assert(s[n] == letter);
    lemma_name(s, name, letter, 0);
    assert(s[n + 1] == '"');
    assert(s.subrange(n + 2, n + 2 + inside.len()) =~= inside);
    lemma_string_inside(s, n + 2, inside);
    assert(s[m - 1] == '"') by {
        assert(s[m - 1] == item[item.len() - 1]);
    }
    assert(code_mask::hidden(s, n + 1) == Some(m));
    assert(s.skip(m) =~= rest@.skip(0));
    assert(rest@.len() > 0 ==> s[m] == rest@[0]);
    lemma_rest(s, m, rest@, 0);
    let hid = s.subrange(n + 1, m).map_values(|c: char| code_mask::blank(c));
    assert(s.subrange(n + 1, m) =~= item);
    assert(hid =~= blanks_of(item));
    assert((name.skip(0) + seq![letter]) + (blanks_of(item) + code_mask::masked(rest@)) =~= name
        + seq![letter] + blanks_of(item) + code_mask::masked(rest@));
}

proof fn lemma_name(s: Seq<char>, name: Seq<char>, letter: char, i: int)
    requires
        name.len() + 1 < s.len(),
        forall|k: int| 0 <= k < name.len() ==> #[trigger] s[k] == name[k],
        s[name.len() as int] == letter,
        s[name.len() as int + 1] == '"',
        letter == 'r' || letter == 'b',
        name.len() > 0,
        forall|k: int|
            0 <= k < name.len() ==> in_a_name(#[trigger] name[k]) && name[k] != '/' && name[k]
                != '"' && name[k] != '\'',
        !(name.len() == 1 && name[0] == 'b' && letter == 'r'),
        0 <= i <= name.len(),
    ensures
        code_mask::masked_from(s, i) == (name.skip(i) + seq![letter]) + code_mask::masked_from(
            s,
            name.len() as int + 1,
        ),
    decreases name.len() - i,
{
    let n = name.len() as int;
    if i == n {
        assert(s[n - 1] == name[n - 1]);
        assert(code_mask::inside_a_name(s, n));
        assert(name.skip(n) + seq![letter] =~= seq![letter]);
    } else {
        assert(s[i] == name[i]);
        assert(i + 1 < n ==> s[i + 1] == name[i + 1]);
        lemma_name(s, name, letter, i + 1);
        assert(code_mask::hidden(s, i) is None) by {
            if i > 0 {
                assert(s[i - 1] == name[i - 1]);
            } else if let Some(p) = code_mask::raw_prefix_end(s, 0) {
                lemma_hashes_before(s, p, n);
                let q = code_mask::hashes_end(s, p);
                assert(q < n ==> s[q] == name[q]);
            }
        }
        assert(seq![s[i]] + ((name.skip(i + 1) + seq![letter]) + code_mask::masked_from(s, n + 1))
            =~= (name.skip(i) + seq![letter]) + code_mask::masked_from(s, n + 1));
    }
}

/// A run of hashes ends before what is none.
proof fn lemma_hashes_before(s: Seq<char>, p: int, n: int)
    requires
        0 <= p <= n < s.len(),
        s[n] != '#',
    ensures
        p <= code_mask::hashes_end(s, p) <= n,
    decreases n - p,
{
    if code_mask::holds_at(s, p, '#') {
        lemma_hashes_before(s, p + 1, n);
    }
}

/// The characters of a text are the text's.
pub proof fn law_characters_are_the_texts(text: &str, chars: Vec<char>)
    requires
        call_ensures(characters, (text,), chars),
    ensures
        chars@ == text@,
{
}

/// How often a character stands in a text.
pub open spec fn count_of(text: Seq<char>, c: char) -> nat
    decreases text.len(),
{
    if text.len() == 0 {
        0
    } else {
        count_of(text.drop_last(), c) + if text.last() == c {
            1nat
        } else {
            0nat
        }
    }
}

pub(crate) proof fn lemma_block(s: Seq<char>, i: int, depth: nat)
    requires
        0 <= i <= s.len(),
        depth == count_of(s.take(i), '{') - count_of(s.take(i), '}'),
    ensures
        ({
            let end = code_mask::block_end_from(s, i, depth);
            &&& i <= end <= s.len()
            &&& end < s.len() ==> s[end] == '}' && count_of(s.take(end), '{') == count_of(
                s.take(end),
                '}',
            )
            &&& forall|k: int|
                i <= k <= end ==> count_of(#[trigger] s.take(k), '}') <= count_of(s.take(k), '{')
        }),
    decreases s.len() - i,
{
    if i < s.len() {
        let next = s.take(i + 1);
        assert(next.drop_last() =~= s.take(i));
        assert(next.last() == s[i]);
        let end = code_mask::block_end_from(s, i, depth);
        if s[i] == '{' {
            lemma_block(s, i + 1, depth + 1);
        } else if s[i] == '}' {
            if depth > 0 {
                lemma_block(s, i + 1, (depth - 1) as nat);
            }
        } else {
            lemma_block(s, i + 1, depth);
        }
        assert forall|k: int| i <= k <= end implies count_of(#[trigger] s.take(k), '}') <= count_of(
            s.take(k),
            '{',
        ) by {
            if k > i {
                assert(i + 1 <= k);
            }
        }
    }
}

/// A block ends at the first brace that closes more than was opened since, or with the text.
pub proof fn law_a_block_ends_where_it_is_closed(source: &[char], from: usize, end: usize)
    requires
        from <= source@.len(),
        call_ensures(end_of_block, (source, from), end),
    ensures
        ({
            let s = source@.skip(from as int);
            &&& end <= s.len()
            &&& end < s.len() ==> s[end as int] == '}' && count_of(s.take(end as int), '{')
                == count_of(s.take(end as int), '}')
            &&& forall|k: int|
                0 <= k <= end ==> count_of(#[trigger] s.take(k), '}') <= count_of(s.take(k), '{')
        }),
{
    let s = source@.skip(from as int);
    assert(s.take(0) =~= Seq::<char>::empty());
    lemma_block(s, 0, 0);
}

} // verus!
