//! The roots a project declares, and which deliveries can move them.

use crate::paths;
use crate::paths::{comes_before, copy_path, same_path, SystemPath};
use vstd::prelude::*;

verus! {

/// Each path is here once, in order.
pub open spec fn in_order(list: Seq<paths::Components>) -> bool {
    forall|i: int, j: int|
        0 <= i < j < list.len() ==> paths::before(#[trigger] list[i], #[trigger] list[j])
}

/// Whether a list of paths holds a path.
pub fn holds_path(list: &Vec<SystemPath>, path: &SystemPath) -> (held: bool)
    ensures
        held == paths::paths_of(list@).contains(path@),
{
    let mut i: usize = 0;
    while i < list.len()
        invariant
            i <= list@.len(),
            forall|j: int|
                0 <= j < i ==> (#[trigger] list@[j])@ != path@,
        decreases list@.len() - i,
    {
        if same_path(&list[i], path) {
            assert(paths::paths_of(list@)[i as int] == path@);
            return true;
        }
        i += 1;
    }
    proof {
        if paths::paths_of(list@).contains(path@) {
            let j = choose|j: int|
                0 <= j < list@.len() && paths::paths_of(list@)[j] == path@;
            assert(list@[j]@ == path@);
        }
    }
    false
}

/// Whether two lists hold the same paths in the same order.
pub fn same_paths(a: &Vec<SystemPath>, b: &Vec<SystemPath>) -> (same: bool)
    ensures
        same == (paths::paths_of(a@) == paths::paths_of(b@)),
{
    if a.len() != b.len() {
        assert(paths::paths_of(a@).len() != paths::paths_of(b@).len());
        return false;
    }
    let mut i: usize = 0;
    while i < a.len()
        invariant
            i <= a@.len() == b@.len(),
            forall|j: int|
                0 <= j < i ==> (#[trigger] a@[j])@ == b@[j]@,
        decreases a@.len() - i,
    {
        if !same_path(&a[i], &b[i]) {
            assert(paths::paths_of(a@)[i as int] != paths::paths_of(b@)[i as int]);
            return false;
        }
        i += 1;
    }
    assert(paths::paths_of(a@) =~= paths::paths_of(b@));
    true
}

/// File a path into an ordered list, if it is not there.
fn file_root(list: &mut Vec<SystemPath>, path: &SystemPath)
    requires
        in_order(paths::paths_of(old(list)@)),
    ensures
        in_order(paths::paths_of(final(list)@)),
        forall|p: paths::Components| #[trigger]
            paths::paths_of(final(list)@).contains(p) <==> p == path@
                || paths::paths_of(old(list)@).contains(p),
        forall|i: int|
            0 <= i < final(list)@.len() ==> old(list)@.contains(#[trigger] final(list)@[i]) || (
            final(list)@[i].is_spelled_like(*path) && !paths::paths_of(old(list)@).contains(
                path@,
            )),
{
    let ghost held = list@;
    let ghost list_before = paths::paths_of(list@);
    let mut at: usize = 0;
    while at < list.len() && comes_before(&list[at], path)
        invariant
            at <= list@.len(),
            list_before == paths::paths_of(list@),
            forall|j: int|
                0 <= j < at ==> paths::before(
                    #[trigger] list_before[j],
                    path@,
                ),
        decreases list@.len() - at,
    {
        assert(list_before[at as int] == list@[at as int]@);
        at += 1;
    }
    if at < list.len() && same_path(&list[at], path) {
        assert(list_before[at as int] == path@);
        assert forall|i: int| 0 <= i < list@.len() implies held.contains(#[trigger] list@[i]) by {
            assert(held[i] == list@[i]);
        }
        return;
    }
    proof {
        assert forall|j: int| at <= j < list_before.len() implies paths::before(
            path@,
            #[trigger] list_before[j],
        ) by {
            assert(list_before[at as int] == list@[at as int]@);
            paths::lemma_before_is_strict(path@, list_before[at as int]);
            if j > at {
                paths::lemma_before_is_transitive(
                    path@,
                    list_before[at as int],
                    list_before[j],
                );
            }
        }
    }
    list.insert(at, copy_path(path));
    proof {
        assert(!list_before.contains(path@)) by {
            paths::lemma_before_is_strict(path@, path@);
        }
        assert forall|i: int| 0 <= i < list@.len() && i != at implies held.contains(
            #[trigger] list@[i],
        ) by {
            if i < at {
                assert(held[i] == list@[i]);
            } else {
                assert(held[i - 1] == list@[i]);
            }
        }
        let after = paths::paths_of(list@);
        assert(after =~= list_before.insert(at as int, path@));
        assert(in_order(after)) by {
            assert forall|i: int, j: int| 0 <= i < j < after.len() implies paths::before(
                #[trigger] after[i],
                #[trigger] after[j],
            ) by {
                let old_i = if i < at {
                    i
                } else {
                    i - 1
                };
                let old_j = if j < at {
                    j
                } else {
                    j - 1
                };
                if i != at {
                    assert(after[i] == list_before[old_i]);
                }
                if j != at {
                    assert(after[j] == list_before[old_j]);
                }
            }
        }
        assert forall|p: paths::Components| #[trigger]
            after.contains(p) <==> p == path@ || list_before.contains(p) by {
            if after.contains(p) {
                let i = choose|i: int| 0 <= i < after.len() && after[i] == p;
                if i < at {
                    assert(list_before[i] == p);
                } else if i > at {
                    assert(list_before[i - 1] == p);
                }
            }
            if list_before.contains(p) {
                let i = choose|i: int| 0 <= i < list_before.len() && list_before[i] == p;
                if i < at {
                    assert(after[i] == p);
                } else {
                    assert(after[i + 1] == p);
                }
            }
            assert(after[at as int] == path@);
        }
    }
}

/// A spelling is the first among those declared of its path.
pub open spec fn first_spelling(declared: Seq<SystemPath>, path: SystemPath) -> bool {
    exists|j: int|
        0 <= j < declared.len() && path.is_spelled_like(#[trigger] declared[j]) && !paths::paths_of(
            declared.take(j),
        ).contains(path@)
}

/// The roots a project declares, in the form they are compared in: each once, in order. A root
/// that is declared in several spellings keeps the first.
pub fn project_roots(declared: &Vec<SystemPath>) -> (roots: Vec<SystemPath>)
    ensures
        in_order(paths::paths_of(roots@)),
        forall|p: paths::Components| #[trigger]
            paths::paths_of(roots@).contains(p) <==> paths::paths_of(declared@).contains(
                p,
            ),
        forall|k: int| 0 <= k < roots@.len() ==> first_spelling(declared@, #[trigger] roots@[k]),
{
    let mut roots: Vec<SystemPath> = Vec::new();
    let mut i: usize = 0;
    assert(paths::paths_of(roots@) =~= Seq::<paths::Components>::empty());
    while i < declared.len()
        invariant
            i <= declared@.len(),
            in_order(paths::paths_of(roots@)),
            forall|p: paths::Components| #[trigger]
                paths::paths_of(roots@).contains(p) <==> paths::paths_of(
                    declared@,
                ).take(i as int).contains(p),
            forall|k: int|
                0 <= k < roots@.len() ==> first_spelling(declared@, #[trigger] roots@[k]),
        decreases declared@.len() - i,
    {
        let ghost filed = paths::paths_of(roots@);
        let ghost kept = roots@;
        let ghost all = paths::paths_of(declared@);
        file_root(&mut roots, &declared[i]);
        proof {
            assert(all[i as int] == declared@[i as int]@);
            let shorter = all.take(i as int);
            assert(shorter =~= paths::paths_of(declared@.take(i as int)));
            assert forall|k: int| 0 <= k < roots@.len() implies first_spelling(
                declared@,
                #[trigger] roots@[k],
            ) by {
                if kept.contains(roots@[k]) {
                    let m = choose|m: int| 0 <= m < kept.len() && kept[m] == roots@[k];
                    assert(first_spelling(declared@, kept[m]));
                } else {
                    assert(roots@[k].is_spelled_like(declared@[i as int]));
                    assert(!shorter.contains(roots@[k]@));
                }
            }
            let longer = all.take(i + 1);
            assert(longer =~= shorter.push(all[i as int]));
            assert forall|p: paths::Components| #[trigger]
                paths::paths_of(roots@).contains(p) <==> longer.contains(p) by {
                if shorter.contains(p) {
                    let k = choose|k: int| 0 <= k < shorter.len() && shorter[k] == p;
                    assert(longer[k] == p);
                }
                if p == all[i as int] {
                    assert(longer[i as int] == p);
                }
                if longer.contains(p) && p != all[i as int] {
                    let k = choose|k: int| 0 <= k < longer.len() && longer[k] == p;
                    assert(shorter[k] == p);
                }
                assert(paths::paths_of(roots@).contains(p) <==> p == all[i as int]
                    || filed.contains(p));
            }
        }
        i += 1;
    }
    assert(paths::paths_of(declared@).take(declared@.len() as int) =~= paths::paths_of(
        declared@,
    ));
    roots
}

/// The form is canonical: two declarations compare equal exactly where they declare the same roots,
/// however often and in whatever order each was named.
pub proof fn law_roots_compare_as_sets(a: Seq<paths::Components>, b: Seq<paths::Components>)
    requires
        in_order(a),
        in_order(b),
        forall|p: paths::Components| #[trigger] a.contains(p) <==> b.contains(p),
    ensures
        a == b,
    decreases a.len(),
{
    if a.len() == 0 {
        if b.len() > 0 {
            assert(b.contains(b[0]));
            assert(a.contains(b[0]));
        }
        assert(a =~= b);
    } else {
        assert(a.contains(a[0]));
        assert(b.len() > 0) by {
            assert(b.contains(a[0]));
        }
        assert(b.contains(b[0]));
        assert(a.contains(b[0]));
        // The first path of either list is the first of the other: an earlier one would be missing
        // there.
        assert(a[0] == b[0]) by {
            let i = choose|i: int| 0 <= i < b.len() && b[i] == a[0];
            let j = choose|j: int| 0 <= j < a.len() && a[j] == b[0];
            paths::lemma_before_is_strict(a[0], b[0]);
            paths::lemma_before_is_strict(b[0], a[0]);
        }
        let rest_a = a.skip(1);
        let rest_b = b.skip(1);
        assert forall|p: paths::Components| #[trigger] rest_a.contains(p) <==> rest_b.contains(p) by {
            paths::lemma_before_is_strict(p, p);
            if rest_a.contains(p) {
                let k = choose|k: int| 0 <= k < rest_a.len() && rest_a[k] == p;
                assert(a[k + 1] == p && paths::before(a[0], a[k + 1]));
                assert(a.contains(p));
                let m = choose|m: int| 0 <= m < b.len() && b[m] == p;
                assert(m > 0);
                assert(rest_b[m - 1] == p);
            }
            if rest_b.contains(p) {
                let k = choose|k: int| 0 <= k < rest_b.len() && rest_b[k] == p;
                assert(b[k + 1] == p && paths::before(b[0], b[k + 1]));
                assert(b.contains(p));
                assert(a.contains(p));
                let m = choose|m: int| 0 <= m < a.len() && a[m] == p;
                assert(m > 0);
                assert(rest_a[m - 1] == p);
            }
        }
        assert(in_order(rest_a)) by {
            assert forall|i: int, j: int| 0 <= i < j < rest_a.len() implies paths::before(
                #[trigger] rest_a[i],
                #[trigger] rest_a[j],
            ) by {
                assert(paths::before(a[i + 1], a[j + 1]));
            }
        }
        assert(in_order(rest_b)) by {
            assert forall|i: int, j: int| 0 <= i < j < rest_b.len() implies paths::before(
                #[trigger] rest_b[i],
                #[trigger] rest_b[j],
            ) by {
                assert(paths::before(b[i + 1], b[j + 1]));
            }
        }
        law_roots_compare_as_sets(rest_a, rest_b);
        assert(a =~= seq![a[0]] + rest_a);
        assert(b =~= seq![b[0]] + rest_b);
    }
}

/// A path as the system resolves it, or as it is where it cannot be resolved.
pub open spec fn resolved(path: SystemPath, canonical: Option<SystemPath>) -> paths::Components {
    match canonical {
        Some(canonical) => canonical@,
        None => path@,
    }
}

/// Whether a path is one of the analyzer's config files directly in the workspace root.
/// `input_name` says that its base name is one of theirs: by the name alone a nested project would
/// be taken for this one. `canonical` resolves a directory, and is asked only where the two are not
/// the same path as they are spelled.
pub fn is_workspace_config_path<C: Fn(&SystemPath) -> Option<SystemPath>>(
    root: Option<&SystemPath>,
    input_name: bool,
    parent: Option<&SystemPath>,
    canonical: C,
) -> (config: bool)
    requires
        root is Some && input_name && parent is Some && (root->0)@ != (parent->0)@
            ==> canonical.requires((parent->0,)) && canonical.requires((root->0,)),
    ensures
        root is None || !input_name || parent is None ==> !config,
        root is Some && input_name && parent is Some && (root->0)@ == (parent->0)@ ==> config,
        root is Some && input_name && parent is Some && (root->0)@ != (parent->0)@ ==> exists|
            of_parent: Option<SystemPath>,
            of_root: Option<SystemPath>,
        | #[trigger]
            canonical.ensures((parent->0,), of_parent) && #[trigger] canonical.ensures(
                (root->0,),
                of_root,
            ) && config == (resolved(*(parent->0), of_parent) == resolved(*(root->0), of_root)),
{
    let root = match root {
        Some(root) => root,
        None => {
            return false;
        },
    };
    if !input_name {
        return false;
    }
    let parent = match parent {
        Some(parent) => parent,
        None => {
            return false;
        },
    };
    if same_path(parent, root) {
        return true;
    }
    let of_parent = canonical(parent);
    let of_root = canonical(root);
    assert(canonical.ensures((parent,), of_parent));
    assert(canonical.ensures((root,), of_root));
    match (&of_parent, &of_root) {
        (Some(of_parent), Some(of_root)) => same_path(of_parent, of_root),
        (Some(of_parent), None) => same_path(of_parent, root),
        (None, Some(of_root)) => same_path(parent, of_root),
        (None, None) => same_path(parent, root),
    }
}

/// What a delivered entry says about the project.
#[derive(Debug, PartialEq, Eq)]
pub struct EntryFacts {
    /// One of its spellings is that of a workspace config file.
    pub config: bool,
    /// One of its spellings is named like a root descriptor.
    pub descriptor: bool,
    /// The resolved directories its spellings lie in.
    pub parents: Vec<SystemPath>,
    /// It touches what a scan of the workspace would list.
    pub universe: bool,
}

/// A descriptor in one of these directories, with the roots as they were and as they are, can have
/// moved the project's roots: the roots differ, or the descriptor is that of a root.
pub open spec fn moves_roots(
    known: Seq<paths::Components>,
    fresh: Seq<paths::Components>,
    parents: Seq<paths::Components>,
) -> bool {
    known != fresh || exists|i: int|
        0 <= i < parents.len() && (known.contains(#[trigger] parents[i]) || fresh.contains(
            parents[i],
        ))
}

/// The roots the project had when a descriptor was last looked at: what a delivered descriptor is
/// measured against.
pub struct ProjectRoots {
    pub known: Vec<SystemPath>,
}

impl ProjectRoots {
    pub open spec fn paths(self) -> Seq<paths::Components> {
        paths::paths_of(self.known@)
    }

    /// Measure a delivered descriptor against the roots as they are now, which are known from here
    /// on.
    pub fn next_descriptor(&mut self, fresh: Vec<SystemPath>, parents: &Vec<SystemPath>) -> (
        moved: bool)
        ensures
            moved == moves_roots(
                old(self).paths(),
                paths::paths_of(fresh@),
                paths::paths_of(parents@),
            ),
            final(self).known@ == fresh@,
    {
        let ghost known = self.paths();
        let ghost now = paths::paths_of(fresh@);
        let ghost dirs = paths::paths_of(parents@);
        let mut moved = !same_paths(&self.known, &fresh);
        let mut i: usize = 0;
        while i < parents.len()
            invariant
                i <= parents@.len(),
                known == paths::paths_of(self.known@),
                now == paths::paths_of(fresh@),
                dirs == paths::paths_of(parents@),
                moved <==> known != now || exists|k: int|
                    0 <= k < i && (known.contains(#[trigger] dirs[k]) || now.contains(dirs[k])),
            decreases parents@.len() - i,
        {
            let dir = &parents[i];
            assert(dirs[i as int] == dir@);
            if holds_path(&self.known, dir) || holds_path(&fresh, dir) {
                moved = true;
            }
            i += 1;
        }
        self.known = fresh;
        moved
    }

    /// Whether a delivered entry is an input of the project: a workspace config file, or the
    /// descriptor of a root — base, extension or external — or one whose change moves which roots
    /// there are. The name alone says nothing: exported dumps and nested projects carry it too.
    /// `declared` is asked for the roots the project declares right now, for a descriptor only.
    pub fn is_project_input<F: Fn() -> Vec<SystemPath>>(
        &mut self,
        entry: &EntryFacts,
        declared: &F,
    ) -> (input: bool)
        requires
            !entry.config && entry.descriptor ==> declared.requires(()),
        ensures
            entry.config ==> input && final(self).paths() == old(self).paths(),
            !entry.config && !entry.descriptor ==> !input && final(self).paths() == old(self).paths(),
            !entry.config && entry.descriptor ==> exists|named: Vec<SystemPath>| #[trigger]
                declared.ensures((), named) && in_order(final(self).paths()) && (forall|
                    p: paths::Components,
                | #[trigger]
                    final(self).paths().contains(p) <==> paths::paths_of(named@).contains(p))
                    && input == moves_roots(
                    old(self).paths(),
                    final(self).paths(),
                    paths::paths_of(entry.parents@),
                ),
    {
        if entry.config {
            return true;
        }
        if !entry.descriptor {
            return false;
        }
        let named = declared();
        assert(declared.ensures((), named));
        let fresh = project_roots(&named);
        self.next_descriptor(fresh, &entry.parents)
    }
}

/// Measuring one entry leads from the roots known before it to those known after it, with this
/// verdict.
pub open spec fn measured<F: Fn() -> Vec<SystemPath>>(
    known: Seq<paths::Components>,
    entry: EntryFacts,
    declared: F,
    after: Seq<paths::Components>,
    input: bool,
) -> bool {
    if entry.config || !entry.descriptor {
        input == entry.config && after == known
    } else {
        in_order(after) && input == moves_roots(known, after, paths::paths_of(entry.parents@))
            && exists|named: Vec<SystemPath>| #[trigger]
            declared.ensures((), named) && forall|p: paths::Components| #[trigger]
                after.contains(p) <==> paths::paths_of(named@).contains(p)
    }
}

/// An entry of a batch is measured against the roots, if the entries before it leave that open: it
/// is a descriptor, and neither it nor one before it is a config file.
pub open spec fn measured_by_roots(entries: Seq<EntryFacts>, i: int) -> bool {
    entries[i].descriptor && forall|k: int| 0 <= k <= i ==> !(#[trigger] entries[k]).config
}

/// The first entries of a batch were measured in their order, none of them but the last being an
/// input of the project: `states` are the roots known before each of them and after the last.
pub open spec fn measured_up_to<F: Fn() -> Vec<SystemPath>>(
    states: Seq<Seq<paths::Components>>,
    entries: Seq<EntryFacts>,
    declared: F,
    input: bool,
) -> bool {
    let n = states.len() - 1;
    &&& 0 <= n <= entries.len()
    &&& input ==> n > 0
    &&& !input ==> n == entries.len()
    &&& forall|i: int|
        0 <= i < n ==> measured(
            #[trigger] states[i],
            entries[i],
            declared,
            states[i + 1],
            input && i == n - 1,
        )
}

impl ProjectRoots {
    /// Whether any entry of a batch is an input of the project. The entries are measured in the
    /// order they were delivered in, and those behind the first input are not looked at.
    pub fn any_project_input<F: Fn() -> Vec<SystemPath>>(
        &mut self,
        entries: &Vec<EntryFacts>,
        declared: &F,
    ) -> (input: bool)
        requires
            forall|i: int|
                0 <= i < entries@.len() && #[trigger] measured_by_roots(entries@, i)
                    ==> declared.requires(()),
        ensures
            exists|states: Seq<Seq<paths::Components>>| #[trigger]
                measured_up_to(states, entries@, *declared, input) && states[0] == old(self).paths()
                    && states.last() == final(self).paths(),
    {
        let ghost mut states: Seq<Seq<paths::Components>> = seq![self.paths()];
        let mut i: usize = 0;
        while i < entries.len()
            invariant
                i <= entries@.len(),
                forall|k: int|
                    0 <= k < entries@.len() && #[trigger] measured_by_roots(entries@, k)
                        ==> declared.requires(()),
                forall|k: int| 0 <= k < i ==> !(#[trigger] entries@[k]).config,
                states.len() == i + 1,
                states[0] == old(self).paths(),
                states.last() == self.paths(),
                forall|k: int|
                    0 <= k < i ==> measured(
                        #[trigger] states[k],
                        entries@[k],
                        *declared,
                        states[k + 1],
                        false,
                    ),
            decreases entries@.len() - i,
        {
            let ghost before = states;
            assert(!entries@[i as int].config && entries@[i as int].descriptor ==> measured_by_roots(
                entries@,
                i as int,
            ));
            let input = self.is_project_input(&entries[i], declared);
            proof {
                states = states.push(self.paths());
                assert forall|k: int| 0 <= k < i implies measured(
                    #[trigger] states[k],
                    entries@[k],
                    *declared,
                    states[k + 1],
                    false,
                ) by {
                    assert(before[k] == states[k]);
                }
                assert(states[i as int] == before[i as int]);
                assert(measured(
                    states[i as int],
                    entries@[i as int],
                    *declared,
                    states[i + 1],
                    input,
                ));
            }
            if input {
                assert(measured_up_to(states, entries@, *declared, true));
                return true;
            }
            i += 1;
        }
        assert(measured_up_to(states, entries@, *declared, false));
        false
    }
}

/// An entry of a batch touches what a scan of the workspace would list.
pub open spec fn touches_universe(entries: Seq<EntryFacts>) -> bool {
    exists|i: int| 0 <= i < entries.len() && (#[trigger] entries[i]).universe
}

/// Whether any entry of a batch touches what a scan of the workspace would list.
pub fn any_touches_universe(entries: &Vec<EntryFacts>) -> (touches: bool)
    ensures
        touches == exists|i: int| 0 <= i < entries@.len() && (#[trigger] entries@[i]).universe,
        touches == touches_universe(entries@),
{
    let mut i: usize = 0;
    while i < entries.len()
        invariant
            i <= entries@.len(),
            forall|k: int| 0 <= k < i ==> !(#[trigger] entries@[k]).universe,
        decreases entries@.len() - i,
    {
        if entries[i].universe {
            return true;
        }
        i += 1;
    }
    false
}

/// A config file in a batch is never missed: where a batch holds one, the batch is an input of the
/// project.
pub proof fn law_a_config_in_a_batch_counts<F: Fn() -> Vec<SystemPath>>(
    states: Seq<Seq<paths::Components>>,
    entries: Seq<EntryFacts>,
    declared: F,
    input: bool,
    i: int,
)
    requires
        measured_up_to(states, entries, declared, input),
        0 <= i < entries.len(),
        entries[i].config,
    ensures
        input,
{
    if !input {
        assert(measured(states[i], entries[i], declared, states[i + 1], false));
    }
}

/// An edit to a descriptor that leaves the roots as they were is an input of the project exactly
/// where it lies in one of them: a nested project's and an exported dump's are not.
pub proof fn law_only_a_descriptor_of_a_root_counts(
    roots: Seq<paths::Components>,
    parents: Seq<paths::Components>,
)
    ensures
        moves_roots(roots, roots, parents) <==> exists|i: int|
            0 <= i < parents.len() && roots.contains(#[trigger] parents[i]),
{
}

/// A descriptor that moves which roots the project has counts wherever it lies.
pub proof fn law_a_moved_root_always_counts(
    known: Seq<paths::Components>,
    fresh: Seq<paths::Components>,
    parents: Seq<paths::Components>,
)
    requires
        known != fresh,
    ensures
        moves_roots(known, fresh, parents),
{
}

} // verus!
