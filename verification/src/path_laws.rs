//! What it is for two paths to be the same, and which of two comes first.
//!
//! Each law speaks of whatever an operation on paths or byte strings answers, on the components and
//! the bytes it was given.

use crate::path_index::{copy_bytes, same_bytes, PathIndex};
use crate::paths;
use crate::paths::{comes_before, copy_path, key_of, same_path, PathPart, SystemPath};
use vstd::prelude::*;

verus! {

/// Two components are the same: of one kind, and of the same bytes where the kind has any.
pub open spec fn same_component(a: PathPart, b: PathPart) -> bool {
    match (a, b) {
        (PathPart::Prefix(x), PathPart::Prefix(y)) => x@ == y@,
        (PathPart::Root, PathPart::Root) => true,
        (PathPart::Here, PathPart::Here) => true,
        (PathPart::Above, PathPart::Above) => true,
        (PathPart::Name(x), PathPart::Name(y)) => x@ == y@,
        _ => false,
    }
}

/// Two paths have the same components, one for one.
pub open spec fn same_components(a: SystemPath, b: SystemPath) -> bool {
    &&& a.parts@.len() == b.parts@.len()
    &&& forall|i: int| 0 <= i < a.parts@.len() ==> same_component(#[trigger] a.parts@[i], b.parts@[i])
}

pub proof fn lemma_same_component(a: PathPart, b: PathPart)
    ensures
        same_component(a, b) <==> a@ == b@,
{
}

pub proof fn lemma_same_components(a: SystemPath, b: SystemPath)
    ensures
        same_components(a, b) <==> a@ == b@,
{
    if same_components(a, b) {
        assert forall|i: int| 0 <= i < a.parts@.len() implies a@[i] == b@[i] by {
            lemma_same_component(a.parts@[i], b.parts@[i]);
        }
        assert(a@ =~= b@);
    } else if a.parts@.len() == b.parts@.len() {
        let i = choose|i: int|
            0 <= i < a.parts@.len() && !same_component(#[trigger] a.parts@[i], b.parts@[i]);
        lemma_same_component(a.parts@[i], b.parts@[i]);
        assert(a@[i] != b@[i]);
    } else {
        assert(a@.len() != b@.len());
    }
}

/// Two paths are the same exactly where their components are, however they are spelled.
pub proof fn law_a_path_is_its_components(a: &SystemPath, b: &SystemPath, same: bool)
    requires
        call_ensures(same_path, (a, b), same),
    ensures
        same <==> same_components(*a, *b),
{
    lemma_same_components(*a, *b);
}

/// A copied path has the same bytes and the same components.
pub proof fn law_a_copied_path_is_the_path(path: &SystemPath, copy: SystemPath)
    requires
        call_ensures(copy_path, (path,), copy),
    ensures
        copy.spelled@ == path.spelled@,
        same_components(copy, *path),
{
    lemma_same_components(copy, *path);
}

/// Two paths are filed under one byte string exactly where they are the same path.
pub proof fn law_a_key_stands_for_one_path(
    a: &SystemPath,
    b: &SystemPath,
    of_a: Vec<u8>,
    of_b: Vec<u8>,
)
    requires
        call_ensures(key_of, (a,), of_a),
        call_ensures(key_of, (b,), of_b),
    ensures
        of_a@ == of_b@ <==> same_components(*a, *b),
{
    lemma_same_components(*a, *b);
    paths::lemma_key(*a, *b);
}

/// A component as its place in the order of the kinds.
pub open spec fn place_of_kind(part: PathPart) -> int {
    match part {
        PathPart::Prefix(_) => 0,
        PathPart::Root => 1,
        PathPart::Here => 2,
        PathPart::Above => 3,
        PathPart::Name(_) => 4,
    }
}

/// The bytes a component is named by.
pub open spec fn bytes_of_part(part: PathPart) -> Seq<u8> {
    match part {
        PathPart::Prefix(bytes) => bytes@,
        PathPart::Name(bytes) => bytes@,
        _ => Seq::empty(),
    }
}

/// The first byte in which two names differ is smaller in the first, or the first is a proper
/// beginning of the second.
pub open spec fn smaller_bytes(a: Seq<u8>, b: Seq<u8>) -> bool {
    exists|n: int|
        #![trigger a.take(n)]
        0 <= n <= a.len() && n < b.len() && a.take(n) == b.take(n) && (n == a.len() || a[n] < b[n])
}

proof fn lemma_smaller_bytes(a: Seq<u8>, b: Seq<u8>)
    ensures
        paths::name_before(a, b) <==> smaller_bytes(a, b),
    decreases a.len(),
{
    if b.len() == 0 {
    } else if a.len() == 0 {
        assert(a.take(0) =~= b.take(0));
    } else if a[0] != b[0] {
        if a[0] < b[0] {
            assert(a.take(0) =~= b.take(0));
        }
        if smaller_bytes(a, b) {
            let n = choose|n: int|
                #![trigger a.take(n)]
                0 <= n <= a.len() && n < b.len() && a.take(n) == b.take(n) && (n == a.len() || a[n]
                    < b[n]);
            if n > 0 {
                assert(a.take(n)[0] == b.take(n)[0]);
            }
        }
    } else {
        lemma_smaller_bytes(a.skip(1), b.skip(1));
        if smaller_bytes(a, b) {
            let n = choose|n: int|
                #![trigger a.take(n)]
                0 <= n <= a.len() && n < b.len() && a.take(n) == b.take(n) && (n == a.len() || a[n]
                    < b[n]);
            assert(n > 0);
            assert(a.skip(1).take(n - 1) =~= a.take(n).skip(1));
            assert(b.skip(1).take(n - 1) =~= b.take(n).skip(1));
        }
        if smaller_bytes(a.skip(1), b.skip(1)) {
            let s = a.skip(1);
            let t = b.skip(1);
            let n = choose|n: int|
                #![trigger s.take(n)]
                0 <= n <= s.len() && n < t.len() && s.take(n) == t.take(n) && (n == s.len() || s[n]
                    < t[n]);
            assert(a.take(n + 1) =~= seq![a[0]] + s.take(n));
            assert(b.take(n + 1) =~= seq![b[0]] + t.take(n));
        }
    }
}

/// The first component in which two paths differ comes first in the first of them: by its kind, and
/// within a kind by its bytes; or the first path is a proper beginning of the second.
pub open spec fn earlier_path(a: SystemPath, b: SystemPath) -> bool {
    exists|n: int| #[trigger] agrees_up_to(a, b, n) && decides_at(a, b, n)
}

/// The two paths have the same components before this place.
pub open spec fn agrees_up_to(a: SystemPath, b: SystemPath, n: int) -> bool {
    &&& 0 <= n <= a.parts@.len()
    &&& n <= b.parts@.len()
    &&& forall|i: int| 0 <= i < n ==> same_component(#[trigger] a.parts@[i], b.parts@[i])
}

/// At this place the first path ends, or has the earlier component.
pub open spec fn decides_at(a: SystemPath, b: SystemPath, n: int) -> bool {
    &&& n < b.parts@.len()
    &&& n == a.parts@.len() || place_of_kind(a.parts@[n]) < place_of_kind(b.parts@[n]) || (
    place_of_kind(a.parts@[n]) == place_of_kind(b.parts@[n]) && smaller_bytes(
        bytes_of_part(a.parts@[n]),
        bytes_of_part(b.parts@[n]),
    ))
}

proof fn lemma_before_from(a: SystemPath, b: SystemPath, n: int)
    requires
        agrees_up_to(a, b, n),
    ensures
        paths::before(a@, b@) == paths::before(a@.skip(n), b@.skip(n)),
    decreases n,
{
    if n == 0 {
        assert(a@.skip(0) =~= a@);
        assert(b@.skip(0) =~= b@);
    } else {
        lemma_before_from(a, b, n - 1);
        lemma_same_component(a.parts@[n - 1], b.parts@[n - 1]);
        assert(a@.skip(n - 1)[0] == b@.skip(n - 1)[0]);
        assert(a@.skip(n - 1).skip(1) =~= a@.skip(n));
        assert(b@.skip(n - 1).skip(1) =~= b@.skip(n));
    }
}

proof fn lemma_decided(a: SystemPath, b: SystemPath, n: int)
    requires
        agrees_up_to(a, b, n),
        n == a.parts@.len() || n == b.parts@.len() || !same_component(a.parts@[n], b.parts@[n]),
    ensures
        paths::before(a@, b@) <==> decides_at(a, b, n),
{
    lemma_before_from(a, b, n);
    if n < a.parts@.len() && n < b.parts@.len() {
        lemma_same_component(a.parts@[n], b.parts@[n]);
        assert(a@.skip(n)[0] == a.parts@[n]@);
        assert(b@.skip(n)[0] == b.parts@[n]@);
        lemma_smaller_bytes(bytes_of_part(a.parts@[n]), bytes_of_part(b.parts@[n]));
    }
}

/// Where two paths first differ, or the first of them ends.
proof fn lemma_first_difference(a: SystemPath, b: SystemPath, from: int) -> (n: int)
    requires
        agrees_up_to(a, b, from),
    ensures
        agrees_up_to(a, b, n),
        n == a.parts@.len() || n == b.parts@.len() || !same_component(a.parts@[n], b.parts@[n]),
    decreases a.parts@.len() - from,
{
    if from < a.parts@.len() && from < b.parts@.len() && same_component(
        a.parts@[from],
        b.parts@[from],
    ) {
        lemma_first_difference(a, b, from + 1)
    } else {
        from
    }
}

pub proof fn lemma_earlier_path(a: SystemPath, b: SystemPath)
    ensures
        earlier_path(a, b) <==> paths::before(a@, b@),
{
    let n = lemma_first_difference(a, b, 0);
    lemma_decided(a, b, n);
    if paths::before(a@, b@) {
        assert(agrees_up_to(a, b, n));
    }
    if earlier_path(a, b) {
        let m = choose|m: int| #[trigger] agrees_up_to(a, b, m) && decides_at(a, b, m);
        if m < a.parts@.len() && same_component(a.parts@[m], b.parts@[m]) {
            lemma_same_component(a.parts@[m], b.parts@[m]);
            let bytes = bytes_of_part(a.parts@[m]);
            assert(bytes == bytes_of_part(b.parts@[m]));
            let k = choose|k: int|
                #![trigger bytes.take(k)]
                0 <= k <= bytes.len() && k < bytes.len() && bytes.take(k) == bytes.take(k) && (k
                    == bytes.len() || bytes[k] < bytes[k]);
            assert(false);
        }
        lemma_decided(a, b, m);
    }
}

/// Of two paths the earlier is decided by the first component they differ in: prefixes come before
/// the root, the root before `.`, `.` before `..` and that before names, names and prefixes go by
/// their bytes, and a directory comes before everything in it.
pub proof fn law_paths_order_by_their_first_difference(a: &SystemPath, b: &SystemPath, first: bool)
    requires
        call_ensures(comes_before, (a, b), first),
    ensures
        first <==> earlier_path(*a, *b),
{
    lemma_earlier_path(*a, *b);
}

/// Of any three paths: none comes before itself, two that are not the same come in exactly one
/// order, and the order carries over.
pub proof fn law_the_order_of_paths_is_total(
    a: &SystemPath,
    b: &SystemPath,
    c: &SystemPath,
    ab: bool,
    ba: bool,
    bc: bool,
    ac: bool,
    same: bool,
)
    requires
        call_ensures(comes_before, (a, b), ab),
        call_ensures(comes_before, (b, a), ba),
        call_ensures(comes_before, (b, c), bc),
        call_ensures(comes_before, (a, c), ac),
        call_ensures(same_path, (a, b), same),
    ensures
        same ==> !ab && !ba,
        !same ==> ab != ba,
        ab && bc ==> ac,
{
    paths::law_paths_are_totally_ordered(*a, *b, *c);
}

/// Two byte strings are the same where they are as long and agree in every byte, and a copy is the
/// same as what it was made of.
pub proof fn law_bytes_are_compared_one_by_one(
    a: &[u8],
    b: &[u8],
    same: bool,
    copy: Vec<u8>,
)
    requires
        call_ensures(same_bytes, (a, b), same),
        call_ensures(copy_bytes, (a,), copy),
    ensures
        same <==> a@.len() == b@.len() && forall|i: int| 0 <= i < a@.len() ==> a@[i] == b@[i],
        copy@ == a@,
{
    if a@.len() == b@.len() && (forall|i: int| 0 <= i < a@.len() ==> a@[i] == b@[i]) {
        assert(a@ =~= b@);
    }
}

/// An index finds exactly what was filed in it, where it was filed: a new one finds nothing, and
/// filing a key finds it from then on and leaves where the others stand as it was.
pub proof fn law_an_index_finds_what_was_filed(
    fresh_index: PathIndex,
    index: &mut PathIndex,
    key: &[u8],
    fresh: bool,
    other: &[u8],
    in_fresh: Option<usize>,
    before: Option<usize>,
    key_before: Option<usize>,
    after: Option<usize>,
    key_after: Option<usize>,
)
    requires
        call_ensures(PathIndex::new, (), fresh_index),
        call_ensures(PathIndex::position, (&fresh_index, other), in_fresh),
        call_ensures(PathIndex::position, (old(index), other), before),
        call_ensures(PathIndex::position, (old(index), key), key_before),
        call_ensures(PathIndex::insert, (index, key), fresh),
        call_ensures(PathIndex::position, (final(index), other), after),
        call_ensures(PathIndex::position, (final(index), key), key_after),
    ensures
        in_fresh is None,
        fresh <==> key_before is None,
        key_after is Some,
        key_before is Some ==> key_after == key_before,
        other@ != key@ ==> after == before,
        other@ == key@ ==> after == key_after,
{
    let held = old(index)@;
    let now = final(index)@;
    assert forall|k: Seq<u8>| k != key@ implies (now.contains(k) <==> held.contains(k)) by {
        if held.contains(k) {
            let i = choose|i: int| 0 <= i < held.len() && held[i] == k;
            assert(now[i] == k);
        }
        if now.contains(k) {
            let i = choose|i: int| 0 <= i < now.len() && now[i] == k;
            assert(held[i] == k);
        }
    }
    if !held.contains(key@) {
        assert(now[held.len() as int] == key@);
    }
    if other@ != key@ && before is Some {
        assert(now[before->0 as int] == other@);
    }
}

} // verus!
