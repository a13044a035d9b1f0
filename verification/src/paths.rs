//! Paths as they are compared: by their components.
//!
//! How a path falls into components is the system's to say, and differs between systems: which
//! separators there are, what a drive or a share is, that repeated separators, a trailing one and a
//! `.` on the way say nothing. A path is held here with the components the system found in it, and
//! two spellings of the same components are one path. Components order before names do, so a
//! directory's own contents come right behind it.

use crate::path_index::{copy_bytes, same_bytes};
use vstd::prelude::*;

verus! {

/// One component of a path.
#[derive(Debug, PartialEq, Eq)]
pub enum PathPart {
    /// What stands before the root where the system has such a thing: a drive, a share. Two are
    /// one where the bytes are, and order by them.
    Prefix(Vec<u8>),
    Root,
    /// A `.` the path starts with.
    Here,
    /// A `..`.
    Above,
    Name(Vec<u8>),
}

/// A path, as it is spelled and as the system takes it apart.
#[derive(Debug, PartialEq, Eq)]
pub struct SystemPath {
    /// The bytes of the spelling.
    pub spelled: Vec<u8>,
    pub parts: Vec<PathPart>,
}

/// The kind of a component, in the order of the kinds, and what it is named.
pub type Component = (int, Seq<u8>);

/// What a path compares by.
pub type Components = Seq<Component>;

impl View for PathPart {
    type V = Component;

    open spec fn view(&self) -> Component {
        match self {
            PathPart::Prefix(bytes) => (0, bytes@),
            PathPart::Root => (1, Seq::empty()),
            PathPart::Here => (2, Seq::empty()),
            PathPart::Above => (3, Seq::empty()),
            PathPart::Name(bytes) => (4, bytes@),
        }
    }
}

/// The components of a path: what two spellings of it have in common.
pub open spec fn components(parts: Seq<PathPart>) -> Components {
    parts.map_values(|part: PathPart| part@)
}

impl View for SystemPath {
    type V = Components;

    open spec fn view(&self) -> Components {
        components(self.parts@)
    }
}

impl SystemPath {
    /// The same path in the same spelling.
    pub open spec fn is_spelled_like(self, other: SystemPath) -> bool {
        self.spelled@ == other.spelled@ && self@ == other@
    }
}

/// The paths of a list.
pub open spec fn paths_of(list: Seq<SystemPath>) -> Seq<Components> {
    list.map_values(|path: SystemPath| path@)
}

fn kind_of(part: &PathPart) -> (kind: u8)
    ensures
        kind == part@.0,
        kind <= 4,
{
    match part {
        PathPart::Prefix(_) => 0,
        PathPart::Root => 1,
        PathPart::Here => 2,
        PathPart::Above => 3,
        PathPart::Name(_) => 4,
    }
}

fn name_of(part: &PathPart) -> (name: &[u8])
    ensures
        name@ == part@.1,
{
    match part {
        PathPart::Prefix(bytes) => bytes.as_slice(),
        PathPart::Name(bytes) => bytes.as_slice(),
        _ => {
            let none: &[u8] = &[];
            assert(none@ =~= Seq::<u8>::empty());
            none
        },
    }
}

fn copy_part(part: &PathPart) -> (copy: PathPart)
    ensures
        copy@ == part@,
{
    match part {
        PathPart::Prefix(bytes) => PathPart::Prefix(copy_bytes(bytes.as_slice())),
        PathPart::Root => PathPart::Root,
        PathPart::Here => PathPart::Here,
        PathPart::Above => PathPart::Above,
        PathPart::Name(bytes) => PathPart::Name(copy_bytes(bytes.as_slice())),
    }
}

/// A path once more.
pub fn copy_path(path: &SystemPath) -> (copy: SystemPath)
    ensures
        copy.is_spelled_like(*path),
{
    let mut parts: Vec<PathPart> = Vec::new();
    let mut i: usize = 0;
    while i < path.parts.len()
        invariant
            i <= path.parts@.len(),
            components(parts@) == path@.take(i as int),
        decreases path.parts@.len() - i,
    {
        let ghost before = components(parts@);
        let part = copy_part(&path.parts[i]);
        let ghost seen = part@;
        parts.push(part);
        i += 1;
        assert(components(parts@) =~= before.push(seen));
        assert(path@.take(i as int) =~= path@.take(i - 1).push(path@[i - 1]));
    }
    assert(path@.take(path@.len() as int) =~= path@);
    SystemPath { spelled: copy_bytes(path.spelled.as_slice()), parts }
}

fn same_part(a: &PathPart, b: &PathPart) -> (same: bool)
    ensures
        same == (a@ == b@),
{
    kind_of(a) == kind_of(b) && same_bytes(name_of(a), name_of(b))
}

/// Whether two spellings are of the same path.
pub fn same_path(a: &SystemPath, b: &SystemPath) -> (same: bool)
    ensures
        same == (a@ == b@),
{
    if a.parts.len() != b.parts.len() {
        assert(a@.len() != b@.len());
        return false;
    }
    let mut i: usize = 0;
    while i < a.parts.len()
        invariant
            i <= a.parts@.len() == b.parts@.len(),
            forall|j: int| 0 <= j < i ==> #[trigger] a@[j] == b@[j],
        decreases a.parts@.len() - i,
    {
        assert(a@[i as int] == a.parts@[i as int]@);
        assert(b@[i as int] == b.parts@[i as int]@);
        if !same_part(&a.parts[i], &b.parts[i]) {
            return false;
        }
        i += 1;
    }
    assert(a@ =~= b@);
    true
}

/// A name with each byte marked, so that nothing in it reads as its end.
pub open spec fn marked(name: Seq<u8>) -> Seq<u8> {
    Seq::new(
        2 * name.len(),
        |i: int|
            if i % 2 == 0 {
                1u8
            } else {
                name[i / 2]
            },
    )
}

/// A component in bytes: its kind, its name and an end.
pub open spec fn coded(part: Component) -> Seq<u8> {
    seq![part.0 as u8] + marked(part.1) + seq![0u8]
}

/// The components in one byte string.
pub open spec fn joined(parts: Components) -> Seq<u8>
    decreases parts.len(),
{
    if parts.len() == 0 {
        Seq::empty()
    } else {
        coded(parts[0]) + joined(parts.skip(1))
    }
}

proof fn lemma_joined_push(parts: Components, part: Component)
    ensures
        joined(parts.push(part)) == joined(parts) + coded(part),
    decreases parts.len(),
{
    let longer = parts.push(part);
    if parts.len() == 0 {
        assert(longer.skip(1) =~= Seq::<Component>::empty());
        assert(joined(longer.skip(1)) == Seq::<u8>::empty());
        assert(longer[0] == part);
        assert(joined(longer) =~= coded(part));
        assert(joined(parts) + coded(part) =~= coded(part));
    } else {
        assert(longer.skip(1) =~= parts.skip(1).push(part));
        lemma_joined_push(parts.skip(1), part);
        assert(joined(longer) =~= joined(parts) + coded(part));
    }
}

/// Every component is of one of the kinds there are.
spec fn of_known_kinds(parts: Components) -> bool {
    forall|i: int| 0 <= i < parts.len() ==> 0 <= (#[trigger] parts[i]).0 <= 4
}

/// A component is read back from the front of a string, and so is what stands behind it.
proof fn lemma_coded_is_exact(a: Component, b: Component, behind_a: Seq<u8>, behind_b: Seq<u8>)
    requires
        0 <= a.0 <= 4,
        0 <= b.0 <= 4,
        coded(a) + behind_a == coded(b) + behind_b,
    ensures
        a == b,
        behind_a == behind_b,
{
    let x = coded(a) + behind_a;
    let y = coded(b) + behind_b;
    let n = a.1.len() as int;
    let m = b.1.len() as int;
    assert(x[0] == a.0 as u8);
    assert(y[0] == b.0 as u8);
    assert(x[1 + 2 * n] == 0u8);
    assert(y[1 + 2 * m] == 0u8);
    if n < m {
        assert(y[1 + 2 * n] == marked(b.1)[2 * n]);
        assert((2 * n) % 2 == 0);
    }
    if m < n {
        assert(x[1 + 2 * m] == marked(a.1)[2 * m]);
        assert((2 * m) % 2 == 0);
    }
    assert forall|k: int| 0 <= k < n implies a.1[k] == b.1[k] by {
        assert((2 * k + 1) % 2 == 1 && (2 * k + 1) / 2 == k);
        assert(x[2 + 2 * k] == marked(a.1)[2 * k + 1]);
        assert(y[2 + 2 * k] == marked(b.1)[2 * k + 1]);
    }
    assert(a.1 =~= b.1);
    assert(behind_a =~= x.skip(2 + 2 * n));
    assert(behind_b =~= y.skip(2 + 2 * m));
}

/// The string tells the components apart.
proof fn lemma_joined_is_exact(a: Components, b: Components)
    requires
        of_known_kinds(a),
        of_known_kinds(b),
        joined(a) == joined(b),
    ensures
        a == b,
    decreases a.len(),
{
    if a.len() == 0 || b.len() == 0 {
        assert(joined(a).len() == 0 <==> a.len() == 0);
        assert(joined(b).len() == 0 <==> b.len() == 0);
        assert(a =~= b);
    } else {
        lemma_coded_is_exact(a[0], b[0], joined(a.skip(1)), joined(b.skip(1)));
        lemma_joined_is_exact(a.skip(1), b.skip(1));
        assert(a =~= seq![a[0]] + a.skip(1));
        assert(b =~= seq![b[0]] + b.skip(1));
    }
}

/// The byte string a path is filed under: one for all its spellings.
pub open spec fn key(path: SystemPath) -> Seq<u8> {
    joined(path@)
}

/// A key stands for one path.
pub proof fn lemma_key(a: SystemPath, b: SystemPath)
    ensures
        key(a) == key(b) <==> a@ == b@,
{
    if key(a) == key(b) {
        lemma_joined_is_exact(a@, b@);
    }
}

/// The byte string a path is filed under.
pub fn key_of(path: &SystemPath) -> (bytes: Vec<u8>)
    ensures
        bytes@ == key(*path),
{
    let mut bytes: Vec<u8> = Vec::new();
    let mut i: usize = 0;
    while i < path.parts.len()
        invariant
            i <= path.parts@.len(),
            bytes@ == joined(path@.take(i as int)),
        decreases path.parts@.len() - i,
    {
        let ghost before = bytes@;
        let ghost part = path@[i as int];
        let kind: u8 = kind_of(&path.parts[i]);
        let name = name_of(&path.parts[i]);
        bytes.push(kind);
        let mut k: usize = 0;
        assert(bytes@ =~= before + (seq![kind] + marked(name@.take(0))));
        while k < name.len()
            invariant
                k <= name@.len(),
                bytes@ == before + (seq![kind] + marked(name@.take(k as int))),
            decreases name@.len() - k,
        {
            bytes.push(1);
            bytes.push(name[k]);
            k += 1;
            proof {
                let shorter = marked(name@.take(k - 1));
                let longer = marked(name@.take(k as int));
                assert(longer =~= shorter.push(1u8).push(name@[k - 1])) by {
                    assert forall|j: int| 0 <= j < longer.len() implies longer[j] == shorter.push(
                        1u8,
                    ).push(name@[k - 1])[j] by {
                        if j < shorter.len() {
                            assert(name@.take(k as int)[j / 2] == name@.take(k - 1)[j / 2]);
                        }
                    }
                }
                assert(bytes@ =~= before + (seq![kind] + longer));
            }
        }
        bytes.push(0);
        proof {
            assert(name@.take(k as int) =~= name@);
            assert(kind == part.0 as u8);
            assert(bytes@ =~= before + coded(part));
            lemma_joined_push(path@.take(i as int), part);
            assert(path@.take(i + 1) =~= path@.take(i as int).push(part));
        }
        i += 1;
    }
    assert(path@.take(path@.len() as int) =~= path@);
    bytes
}

/// The order of names: that of their bytes, a prefix coming first.
pub open spec fn name_before(a: Seq<u8>, b: Seq<u8>) -> bool
    decreases a.len(),
{
    if b.len() == 0 {
        false
    } else if a.len() == 0 {
        true
    } else if a[0] != b[0] {
        a[0] < b[0]
    } else {
        name_before(a.skip(1), b.skip(1))
    }
}

/// The order of components: that of their kinds, and within a kind that of their names.
pub open spec fn part_before(a: Component, b: Component) -> bool {
    a.0 < b.0 || (a.0 == b.0 && name_before(a.1, b.1))
}

/// The order of paths, over their components: that of the first that differs, a prefix coming
/// first.
pub open spec fn before(a: Components, b: Components) -> bool
    decreases a.len(),
{
    if b.len() == 0 {
        false
    } else if a.len() == 0 {
        true
    } else if a[0] != b[0] {
        part_before(a[0], b[0])
    } else {
        before(a.skip(1), b.skip(1))
    }
}

proof fn lemma_name_before_is_strict(a: Seq<u8>, b: Seq<u8>)
    ensures
        !name_before(a, a),
        name_before(a, b) ==> !name_before(b, a),
        a == b || name_before(a, b) || name_before(b, a),
    decreases a.len(),
{
    if a.len() > 0 && b.len() > 0 {
        lemma_name_before_is_strict(a.skip(1), b.skip(1));
        if a[0] == b[0] && a.skip(1) == b.skip(1) {
            assert(a =~= seq![a[0]] + a.skip(1));
            assert(b =~= seq![b[0]] + b.skip(1));
        }
    } else if a.len() > 0 {
        lemma_name_before_is_strict(a.skip(1), b);
    } else if b.len() == 0 {
        assert(a =~= b);
    }
}

proof fn lemma_name_before_is_transitive(a: Seq<u8>, b: Seq<u8>, c: Seq<u8>)
    requires
        name_before(a, b),
        name_before(b, c),
    ensures
        name_before(a, c),
    decreases a.len(),
{
    if a.len() > 0 && a[0] == b[0] && b[0] == c[0] {
        lemma_name_before_is_transitive(a.skip(1), b.skip(1), c.skip(1));
    }
}

proof fn lemma_part_before(a: Component, b: Component)
    ensures
        !part_before(a, a),
        part_before(a, b) ==> !part_before(b, a),
        a == b || part_before(a, b) || part_before(b, a),
{
    lemma_name_before_is_strict(a.1, b.1);
}

/// Two paths that differ are in one order and not in the other.
pub proof fn lemma_before_is_strict(a: Components, b: Components)
    ensures
        !before(a, a),
        before(a, b) ==> !before(b, a),
        a == b || before(a, b) || before(b, a),
    decreases a.len(),
{
    if a.len() > 0 && b.len() > 0 {
        lemma_part_before(a[0], b[0]);
        lemma_before_is_strict(a.skip(1), b.skip(1));
        if a[0] == b[0] && a.skip(1) == b.skip(1) {
            assert(a =~= seq![a[0]] + a.skip(1));
            assert(b =~= seq![b[0]] + b.skip(1));
        }
    } else if a.len() > 0 {
        lemma_before_is_strict(a.skip(1), b);
    } else if b.len() == 0 {
        assert(a =~= b);
    }
}

pub proof fn lemma_before_is_transitive(a: Components, b: Components, c: Components)
    requires
        before(a, b),
        before(b, c),
    ensures
        before(a, c),
    decreases a.len(),
{
    if a.len() > 0 {
        if a[0] == b[0] && b[0] == c[0] {
            lemma_before_is_transitive(a.skip(1), b.skip(1), c.skip(1));
        } else if a[0] != b[0] && b[0] != c[0] {
            if a[0].0 == b[0].0 && b[0].0 == c[0].0 {
                lemma_name_before_is_transitive(a[0].1, b[0].1, c[0].1);
            }
            lemma_part_before(a[0], c[0]);
        }
    }
}

fn name_comes_before(a: &[u8], b: &[u8]) -> (first: bool)
    ensures
        first == name_before(a@, b@),
{
    let mut i: usize = 0;
    assert(a@.skip(0) == a@);
    assert(b@.skip(0) == b@);
    while i < a.len() && i < b.len()
        invariant
            i <= a@.len(),
            i <= b@.len(),
            name_before(a@, b@) == name_before(a@.skip(i as int), b@.skip(i as int)),
        decreases a@.len() - i,
    {
        assert(a@.skip(i as int)[0] == a@[i as int]);
        assert(b@.skip(i as int)[0] == b@[i as int]);
        if a[i] != b[i] {
            return a[i] < b[i];
        }
        assert(a@.skip(i as int).skip(1) == a@.skip(i + 1));
        assert(b@.skip(i as int).skip(1) == b@.skip(i + 1));
        i += 1;
    }
    i < b.len()
}

fn part_comes_before(a: &PathPart, b: &PathPart) -> (first: bool)
    ensures
        first == part_before(a@, b@),
{
    let of_a: u8 = kind_of(a);
    let of_b: u8 = kind_of(b);
    of_a < of_b || (of_a == of_b && name_comes_before(name_of(a), name_of(b)))
}

/// Which of two paths comes first, if they differ.
pub fn comes_before(a: &SystemPath, b: &SystemPath) -> (first: bool)
    ensures
        first == before(a@, b@),
{
    let mut i: usize = 0;
    assert(a@.skip(0) == a@);
    assert(b@.skip(0) == b@);
    while i < a.parts.len() && i < b.parts.len()
        invariant
            i <= a.parts@.len(),
            i <= b.parts@.len(),
            before(a@, b@) == before(a@.skip(i as int), b@.skip(i as int)),
        decreases a.parts@.len() - i,
    {
        assert(a@.skip(i as int)[0] == a.parts@[i as int]@);
        assert(b@.skip(i as int)[0] == b.parts@[i as int]@);
        if !same_part(&a.parts[i], &b.parts[i]) {
            return part_comes_before(&a.parts[i], &b.parts[i]);
        }
        assert(a@.skip(i as int).skip(1) == a@.skip(i + 1));
        assert(b@.skip(i as int).skip(1) == b@.skip(i + 1));
        i += 1;
    }
    i < b.parts.len()
}

/// Paths are ordered: of two that differ one comes first, and what comes before a path comes before
/// everything behind it.
pub proof fn law_paths_are_totally_ordered(a: SystemPath, b: SystemPath, c: SystemPath)
    ensures
        !before(a@, a@),
        a@ != b@ ==> before(a@, b@) != before(b@, a@),
        before(a@, b@) && before(b@, c@) ==> before(a@, c@),
{
    lemma_before_is_strict(a@, b@);
    lemma_before_is_strict(b@, a@);
    if before(a@, b@) && before(b@, c@) {
        lemma_before_is_transitive(a@, b@, c@);
    }
}

} // verus!
