//! Which roots a project has, and which deliveries are inputs of it.
//!
//! Each law speaks of whatever an operation on roots and entries answers and leaves known.

use crate::path_laws;
use crate::paths;
use crate::paths::SystemPath;
use crate::roots;
use crate::roots::{
    any_touches_universe, holds_path, is_workspace_config_path, project_roots, same_paths,
    EntryFacts, ProjectRoots,
};
use vstd::prelude::*;

verus! {

/// One of the list is the same path.
pub open spec fn lists(list: Seq<SystemPath>, path: SystemPath) -> bool {
    exists|i: int| 0 <= i < list.len() && path_laws::same_components(#[trigger] list[i], path)
}

/// The two lists hold the same paths in the same places.
pub open spec fn same_list(a: Seq<SystemPath>, b: Seq<SystemPath>) -> bool {
    &&& a.len() == b.len()
    &&& forall|i: int| 0 <= i < a.len() ==> path_laws::same_components(#[trigger] a[i], b[i])
}

proof fn lemma_lists(list: Seq<SystemPath>, path: SystemPath)
    ensures
        lists(list, path) <==> paths::paths_of(list).contains(path@),
{
    let of = paths::paths_of(list);
    if lists(list, path) {
        let i = choose|i: int|
            0 <= i < list.len() && path_laws::same_components(#[trigger] list[i], path);
        path_laws::lemma_same_components(list[i], path);
        assert(of[i] == path@);
    }
    if of.contains(path@) {
        let i = choose|i: int| 0 <= i < of.len() && of[i] == path@;
        assert(list[i]@ == path@);
        path_laws::lemma_same_components(list[i], path);
    }
}

proof fn lemma_same_list(a: Seq<SystemPath>, b: Seq<SystemPath>)
    ensures
        same_list(a, b) <==> paths::paths_of(a) == paths::paths_of(b),
{
    let of_a = paths::paths_of(a);
    let of_b = paths::paths_of(b);
    if same_list(a, b) {
        assert forall|i: int| 0 <= i < a.len() implies of_a[i] == of_b[i] by {
            path_laws::lemma_same_components(a[i], b[i]);
        }
        assert(of_a =~= of_b);
    }
    if of_a == of_b {
        assert(of_a.len() == a.len() && of_b.len() == b.len());
        assert forall|i: int| 0 <= i < a.len() implies path_laws::same_components(
            #[trigger] a[i],
            b[i],
        ) by {
            assert(of_a[i] == a[i]@ && of_b[i] == b[i]@);
            path_laws::lemma_same_components(a[i], b[i]);
        }
    }
}

/// A list holds a path where one of its paths is the same, and two lists are the same where they
/// are, place by place.
pub proof fn law_a_list_holds_its_paths(
    list: &Vec<SystemPath>,
    path: &SystemPath,
    held: bool,
    other: &Vec<SystemPath>,
    same: bool,
)
    requires
        call_ensures(holds_path, (list, path), held),
        call_ensures(same_paths, (list, other), same),
    ensures
        held <==> lists(list@, *path),
        same <==> same_list(list@, other@),
{
    lemma_lists(list@, *path);
    lemma_same_list(list@, other@);
}

/// The roots of a project are those it declares and no others, each once, in ascending order and in
/// the first spelling it was declared in.
pub proof fn law_the_roots_are_what_is_declared(
    declared: &Vec<SystemPath>,
    found: Vec<SystemPath>,
    path: SystemPath,
)
    requires
        call_ensures(project_roots, (declared,), found),
    ensures
        lists(found@, path) <==> lists(declared@, path),
        forall|i: int, j: int|
            0 <= i < j < found@.len() ==> path_laws::earlier_path(
                #[trigger] found@[i],
                #[trigger] found@[j],
            ) && !path_laws::same_components(found@[i], found@[j]),
        forall|k: int| 0 <= k < found@.len() ==> first_declared(declared@, #[trigger] found@[k]),
{
    lemma_lists(found@, path);
    lemma_lists(declared@, path);
    let of = paths::paths_of(found@);
    assert forall|i: int, j: int| 0 <= i < j < found@.len() implies path_laws::earlier_path(
        #[trigger] found@[i],
        #[trigger] found@[j],
    ) && !path_laws::same_components(found@[i], found@[j]) by {
        assert(paths::before(of[i], of[j]));
        path_laws::lemma_earlier_path(found@[i], found@[j]);
        path_laws::lemma_same_components(found@[i], found@[j]);
        paths::lemma_before_is_strict(of[i], of[j]);
    }
    assert forall|k: int| 0 <= k < found@.len() implies first_declared(
        declared@,
        #[trigger] found@[k],
    ) by {
        assert(roots::first_spelling(declared@, found@[k]));
        let j = choose|j: int|
            0 <= j < declared@.len() && found@[k].is_spelled_like(#[trigger] declared@[j])
                && !paths::paths_of(declared@.take(j)).contains(found@[k]@);
        path_laws::lemma_same_components(declared@[j], found@[k]);
        assert forall|i: int| 0 <= i < j implies !path_laws::same_components(
            #[trigger] declared@[i],
            found@[k],
        ) by {
            path_laws::lemma_same_components(declared@[i], found@[k]);
            assert(paths::paths_of(declared@.take(j))[i] == declared@[i]@);
        }
    }
}

/// The root is the first of the declared ones of its path, byte for byte.
pub open spec fn first_declared(declared: Seq<SystemPath>, root: SystemPath) -> bool {
    exists|j: int|
        0 <= j < declared.len() && path_laws::same_components(#[trigger] declared[j], root)
            && declared[j].spelled@ == root.spelled@ && forall|i: int|
            0 <= i < j ==> !path_laws::same_components(#[trigger] declared[i], root)
}

/// Two declarations of the same paths, however often and in whatever order each names them, have the
/// same roots in the same places, and two of different paths do not.
pub proof fn law_roots_do_not_depend_on_the_order_of_declaration(
    a: &Vec<SystemPath>,
    b: &Vec<SystemPath>,
    of_a: Vec<SystemPath>,
    of_b: Vec<SystemPath>,
    same: bool,
)
    requires
        call_ensures(project_roots, (a,), of_a),
        call_ensures(project_roots, (b,), of_b),
        call_ensures(same_paths, (&of_a, &of_b), same),
    ensures
        same <==> forall|path: SystemPath| #[trigger] lists(a@, path) <==> lists(b@, path),
{
    if forall|path: SystemPath| #[trigger] lists(a@, path) <==> lists(b@, path) {
        let in_a = paths::paths_of(of_a@);
        let in_b = paths::paths_of(of_b@);
        assert forall|p: paths::Components| #[trigger] in_a.contains(p) <==> in_b.contains(p) by {
            if in_a.contains(p) {
                let i = choose|i: int| 0 <= i < in_a.len() && in_a[i] == p;
                lemma_lists(a@, of_a@[i]);
                lemma_lists(b@, of_a@[i]);
                assert(lists(a@, of_a@[i]) <==> lists(b@, of_a@[i]));
            }
            if in_b.contains(p) {
                let i = choose|i: int| 0 <= i < in_b.len() && in_b[i] == p;
                lemma_lists(a@, of_b@[i]);
                lemma_lists(b@, of_b@[i]);
                assert(lists(a@, of_b@[i]) <==> lists(b@, of_b@[i]));
            }
        }
        roots::law_roots_compare_as_sets(in_a, in_b);
    }
    if same {
        assert forall|path: SystemPath| #[trigger] lists(a@, path) <==> lists(b@, path) by {
            lemma_lists(a@, path);
            lemma_lists(b@, path);
            assert(paths::paths_of(of_a@).contains(path@) <==> paths::paths_of(of_b@).contains(
                path@,
            ));
        }
    }
}

/// One of the directories is among the paths of the list.
pub open spec fn lies_in(dirs: Seq<SystemPath>, list: Seq<SystemPath>) -> bool {
    exists|i: int| 0 <= i < dirs.len() && lists(list, #[trigger] dirs[i])
}

/// A delivered descriptor counts exactly where the roots moved, or where it lies in one of those
/// that were or that are; the roots that are, are known from then on.
pub proof fn law_a_descriptor_counts_for_a_root(
    project: &mut ProjectRoots,
    fresh: Vec<SystemPath>,
    parents: &Vec<SystemPath>,
    moved: bool,
)
    requires
        call_ensures(ProjectRoots::next_descriptor, (project, fresh, parents), moved),
    ensures
        moved <==> !same_list(old(project).known@, fresh@) || lies_in(
            parents@,
            old(project).known@,
        ) || lies_in(parents@, fresh@),
        final(project).known@ == fresh@,
{
    lemma_same_list(old(project).known@, fresh@);
    let dirs = paths::paths_of(parents@);
    assert forall|i: int| 0 <= i < parents@.len() implies (lists(
        old(project).known@,
        #[trigger] parents@[i],
    ) <==> old(project).paths().contains(dirs[i])) && (lists(fresh@, parents@[i])
        <==> paths::paths_of(fresh@).contains(dirs[i])) by {
        lemma_lists(old(project).known@, parents@[i]);
        lemma_lists(fresh@, parents@[i]);
    }
    if moved && old(project).paths() == paths::paths_of(fresh@) {
        let i = choose|i: int|
            0 <= i < dirs.len() && (old(project).paths().contains(#[trigger] dirs[i])
                || paths::paths_of(fresh@).contains(dirs[i]));
        assert(lists(old(project).known@, parents@[i]) || lists(fresh@, parents@[i]));
    }
    if lies_in(parents@, old(project).known@) {
        let i = choose|i: int|
            0 <= i < parents@.len() && lists(old(project).known@, #[trigger] parents@[i]);
        assert(old(project).paths().contains(dirs[i]));
    }
    if lies_in(parents@, fresh@) {
        let i = choose|i: int| 0 <= i < parents@.len() && lists(fresh@, #[trigger] parents@[i]);
        assert(paths::paths_of(fresh@).contains(dirs[i]));
    }
}

/// Everything the project can be asked to declare right now names these very roots.
pub open spec fn declares<F: Fn() -> Vec<SystemPath>>(declared: F, found: Seq<SystemPath>) -> bool {
    forall|named: Vec<SystemPath>, path: SystemPath| #[trigger]
        declared.ensures((), named) ==> (#[trigger] lists(named@, path) <==> lists(found, path))
}

proof fn lemma_declared<F: Fn() -> Vec<SystemPath>>(
    declared: F,
    found: Seq<SystemPath>,
    named: Vec<SystemPath>,
    after: Seq<paths::Components>,
)
    requires
        declares(declared, found),
        declared.ensures((), named),
        roots::in_order(paths::paths_of(found)),
        roots::in_order(after),
        forall|p: paths::Components| #[trigger]
            after.contains(p) <==> paths::paths_of(named@).contains(p),
    ensures
        after == paths::paths_of(found),
{
    let of = paths::paths_of(found);
    let in_named = paths::paths_of(named@);
    assert forall|p: paths::Components| #[trigger] after.contains(p) <==> of.contains(p) by {
        if in_named.contains(p) {
            let i = choose|i: int| 0 <= i < in_named.len() && in_named[i] == p;
            lemma_lists(named@, named@[i]);
            lemma_lists(found, named@[i]);
            assert(lists(named@, named@[i]) <==> lists(found, named@[i]));
        }
        if of.contains(p) {
            let i = choose|i: int| 0 <= i < of.len() && of[i] == p;
            lemma_lists(named@, found[i]);
            lemma_lists(found, found[i]);
            assert(lists(named@, found[i]) <==> lists(found, found[i]));
        }
    }
    roots::law_roots_compare_as_sets(after, of);
}

/// A single entry is an input of the project where it is a config file, and else where it is a
/// descriptor that moves the roots or lies in one of them. Only a descriptor has the roots looked at
/// again.
pub proof fn law_an_entry_is_an_input_for_its_reasons<F: Fn() -> Vec<SystemPath>>(
    project: &mut ProjectRoots,
    entry: &EntryFacts,
    declared: &F,
    input: bool,
    named: Vec<SystemPath>,
    found: Vec<SystemPath>,
)
    requires
        call_ensures(ProjectRoots::is_project_input::<F>, (project, entry, declared), input),
        call_ensures(project_roots, (&named,), found),
        declares(*declared, found@),
    ensures
        entry.config ==> input,
        !entry.config && !entry.descriptor ==> !input,
        entry.config || !entry.descriptor ==> same_list(final(project).known@, old(project).known@),
        !entry.config && entry.descriptor ==> {
            &&& same_list(final(project).known@, found@)
            &&& input <==> !same_list(old(project).known@, found@) || lies_in(
                entry.parents@,
                old(project).known@,
            ) || lies_in(entry.parents@, found@)
        },
{
    lemma_same_list(final(project).known@, old(project).known@);
    lemma_same_list(final(project).known@, found@);
    lemma_same_list(old(project).known@, found@);
    if !entry.config && entry.descriptor {
        let answered = choose|answered: Vec<SystemPath>| #[trigger]
            declared.ensures((), answered) && roots::in_order(final(project).paths()) && (forall|
                p: paths::Components,
            | #[trigger]
                final(project).paths().contains(p) <==> paths::paths_of(answered@).contains(p))
                && input == roots::moves_roots(
                old(project).paths(),
                final(project).paths(),
                paths::paths_of(entry.parents@),
            );
        lemma_declared(*declared, found@, answered, final(project).paths());
        lemma_moves(old(project).known@, found@, entry.parents@);
    }
}

proof fn lemma_moves(known: Seq<SystemPath>, fresh: Seq<SystemPath>, parents: Seq<SystemPath>)
    ensures
        roots::moves_roots(paths::paths_of(known), paths::paths_of(fresh), paths::paths_of(parents))
            <==> !same_list(known, fresh) || lies_in(parents, known) || lies_in(parents, fresh),
{
    lemma_same_list(known, fresh);
    let dirs = paths::paths_of(parents);
    assert forall|i: int| 0 <= i < parents.len() implies (lists(known, #[trigger] parents[i])
        <==> paths::paths_of(known).contains(dirs[i])) && (lists(fresh, parents[i])
        <==> paths::paths_of(fresh).contains(dirs[i])) by {
        lemma_lists(known, parents[i]);
        lemma_lists(fresh, parents[i]);
    }
    if exists|i: int|
        0 <= i < dirs.len() && (paths::paths_of(known).contains(#[trigger] dirs[i])
            || paths::paths_of(fresh).contains(dirs[i])) {
        let i = choose|i: int|
            0 <= i < dirs.len() && (paths::paths_of(known).contains(#[trigger] dirs[i])
                || paths::paths_of(fresh).contains(dirs[i]));
        assert(lists(known, parents[i]) || lists(fresh, parents[i]));
    }
    if lies_in(parents, known) {
        let i = choose|i: int| 0 <= i < parents.len() && lists(known, #[trigger] parents[i]);
        assert(paths::paths_of(known).contains(dirs[i]));
    }
    if lies_in(parents, fresh) {
        let i = choose|i: int| 0 <= i < parents.len() && lists(fresh, #[trigger] parents[i]);
        assert(paths::paths_of(fresh).contains(dirs[i]));
    }
}

/// The batch holds a config file, or a descriptor while the roots differ from those known, or one
/// that lies in a root.
pub open spec fn holds_an_input(
    known: Seq<SystemPath>,
    found: Seq<SystemPath>,
    entries: Seq<EntryFacts>,
) -> bool {
    ||| exists|i: int| 0 <= i < entries.len() && (#[trigger] entries[i]).config
    ||| exists|i: int|
        0 <= i < entries.len() && (#[trigger] entries[i]).descriptor && (!same_list(known, found)
            || lies_in(entries[i].parents@, found))
}

/// A batch is an input of the project exactly where one of its entries is: a config file anywhere
/// in it, or, while the project's declaration stands still, a descriptor that moves the roots known
/// before the batch or lies in one of those there are.
pub proof fn law_a_batch_is_an_input_where_an_entry_is<F: Fn() -> Vec<SystemPath>>(
    project: &mut ProjectRoots,
    entries: &Vec<EntryFacts>,
    declared: &F,
    input: bool,
    named: Vec<SystemPath>,
    found: Vec<SystemPath>,
)
    requires
        call_ensures(ProjectRoots::any_project_input::<F>, (project, entries, declared), input),
        call_ensures(project_roots, (&named,), found),
        declares(*declared, found@),
    ensures
        input <==> holds_an_input(old(project).known@, found@, entries@),
{
    let states = choose|states: Seq<Seq<paths::Components>>| #[trigger]
        roots::measured_up_to(states, entries@, *declared, input) && states[0]
            == old(project).paths() && states.last() == final(project).paths();
    let n = states.len() - 1;
    let of = paths::paths_of(found@);
    let known = old(project).known@;
    lemma_same_list(known, found@);
    assert forall|i: int| 0 <= i <= n implies (#[trigger] states[i] == of || (states[i] == states[0]
        && forall|k: int|
        0 <= k < i ==> (#[trigger] entries@[k]).config || !entries@[k].descriptor)) by {
        lemma_states(states, entries@, *declared, input, found@, i);
    }
    if !input {
        assert forall|i: int| 0 <= i < entries@.len() implies !(#[trigger] entries@[i]).config && !(
        entries@[i].descriptor && (!same_list(known, found@) || lies_in(
            entries@[i].parents@,
            found@,
        ))) by {
            assert(roots::measured(states[i], entries@[i], *declared, states[i + 1], false));
            if entries@[i].descriptor {
                lemma_after_a_descriptor(states[i], entries@[i], *declared, states[i + 1], false, found@);
                lemma_moves(found@, found@, entries@[i].parents@);
                if !same_list(known, found@) {
                    lemma_no_move_before(states, entries@, *declared, found@, i);
                }
            }
        }
    } else {
        let last = n - 1;
        assert(roots::measured(
            states[last],
            entries@[last],
            *declared,
            states[last + 1],
            true,
        ));
        if !entries@[last].config {
            assert(entries@[last].descriptor);
            lemma_after_a_descriptor(
                states[last],
                entries@[last],
                *declared,
                states[last + 1],
                true,
                found@,
            );
            lemma_moves(found@, found@, entries@[last].parents@);
            lemma_moves(known, found@, entries@[last].parents@);
        }
    }
}

proof fn lemma_after_a_descriptor<F: Fn() -> Vec<SystemPath>>(
    before: Seq<paths::Components>,
    entry: EntryFacts,
    declared: F,
    after: Seq<paths::Components>,
    input: bool,
    found: Seq<SystemPath>,
)
    requires
        roots::measured(before, entry, declared, after, input),
        !entry.config,
        entry.descriptor,
        declares(declared, found),
        roots::in_order(paths::paths_of(found)),
    ensures
        after == paths::paths_of(found),
{
    let named = choose|named: Vec<SystemPath>| #[trigger]
        declared.ensures((), named) && forall|p: paths::Components| #[trigger]
            after.contains(p) <==> paths::paths_of(named@).contains(p);
    lemma_declared(declared, found, named, after);
}

/// Before each entry the roots known are those before the batch, until a descriptor was measured,
/// and those there are from then on.
proof fn lemma_states<F: Fn() -> Vec<SystemPath>>(
    states: Seq<Seq<paths::Components>>,
    entries: Seq<EntryFacts>,
    declared: F,
    input: bool,
    found: Seq<SystemPath>,
    i: int,
)
    requires
        roots::measured_up_to(states, entries, declared, input),
        declares(declared, found),
        roots::in_order(paths::paths_of(found)),
        0 <= i <= states.len() - 1,
    ensures
        states[i] == paths::paths_of(found) || (states[i] == states[0] && forall|k: int|
            0 <= k < i ==> (#[trigger] entries[k]).config || !entries[k].descriptor),
    decreases i,
{
    if i > 0 {
        lemma_states(states, entries, declared, input, found, i - 1);
        let n = states.len() - 1;
        assert(roots::measured(
            states[i - 1],
            entries[i - 1],
            declared,
            states[i - 1 + 1],
            input && i - 1 == n - 1,
        ));
        if !entries[i - 1].config && entries[i - 1].descriptor {
            lemma_after_a_descriptor(
                states[i - 1],
                entries[i - 1],
                declared,
                states[i],
                input && i - 1 == n - 1,
                found,
            );
        }
    }
}

/// A batch that moved nothing, with a descriptor in it, found the roots as they were known.
proof fn lemma_no_move_before<F: Fn() -> Vec<SystemPath>>(
    states: Seq<Seq<paths::Components>>,
    entries: Seq<EntryFacts>,
    declared: F,
    found: Seq<SystemPath>,
    i: int,
)
    requires
        roots::measured_up_to(states, entries, declared, false),
        declares(declared, found),
        roots::in_order(paths::paths_of(found)),
        0 <= i < entries.len(),
        !entries[i].config,
        entries[i].descriptor,
    ensures
        states[0] == paths::paths_of(found),
    decreases i, 1int,
{
    assert(roots::measured(states[i], entries[i], declared, states[i + 1], false));
    lemma_after_a_descriptor(states[i], entries[i], declared, states[i + 1], false, found);
    lemma_states(states, entries, declared, false, found, i);
    assert(states[i] == paths::paths_of(found));
    if states[i] != states[0] {
        lemma_first_descriptor(states, entries, declared, found, i);
    }
}

/// Roots that are not those before the batch were measured by an earlier descriptor.
proof fn lemma_first_descriptor<F: Fn() -> Vec<SystemPath>>(
    states: Seq<Seq<paths::Components>>,
    entries: Seq<EntryFacts>,
    declared: F,
    found: Seq<SystemPath>,
    i: int,
)
    requires
        roots::measured_up_to(states, entries, declared, false),
        declares(declared, found),
        roots::in_order(paths::paths_of(found)),
        0 <= i < entries.len(),
        states[i] != states[0],
    ensures
        states[0] == paths::paths_of(found),
    decreases i, 0int,
{
    if i > 0 {
        assert(roots::measured(states[i - 1], entries[i - 1], declared, states[i - 1 + 1], false));
        if !entries[i - 1].config && entries[i - 1].descriptor {
            lemma_no_move_before(states, entries, declared, found, i - 1);
        } else {
            lemma_first_descriptor(states, entries, declared, found, i - 1);
        }
    }
}

/// A batch touches the universe exactly where one of its entries does.
pub proof fn law_a_batch_touches_the_universe_where_an_entry_does(
    entries: &Vec<EntryFacts>,
    touches: bool,
)
    requires
        call_ensures(any_touches_universe, (entries,), touches),
    ensures
        touches <==> exists|i: int| 0 <= i < entries@.len() && (#[trigger] entries@[i]).universe,
{
}

/// A config file of the workspace is one by its name and by where it lies: directly in the root, as
/// spelled or as the system resolves the two. A name alone says nothing, nor a place alone.
pub proof fn law_a_config_file_lies_in_the_root<C: Fn(&SystemPath) -> Option<SystemPath>>(
    root: &SystemPath,
    parent: &SystemPath,
    canonical: C,
    unnamed: bool,
    rootless: bool,
    orphan: bool,
    config: bool,
)
    requires
        call_ensures(
            is_workspace_config_path::<C>,
            (Some(root), false, Some(parent), canonical),
            unnamed,
        ),
        call_ensures(is_workspace_config_path::<C>, (None, true, Some(parent), canonical), rootless),
        call_ensures(is_workspace_config_path::<C>, (Some(root), true, None, canonical), orphan),
        call_ensures(
            is_workspace_config_path::<C>,
            (Some(root), true, Some(parent), canonical),
            config,
        ),
    ensures
        !unnamed && !rootless && !orphan,
        path_laws::same_components(*parent, *root) ==> config,
        !path_laws::same_components(*parent, *root) ==> exists|
            of_parent: Option<SystemPath>,
            of_root: Option<SystemPath>,
        | #[trigger]
            canonical.ensures((parent,), of_parent) && #[trigger] canonical.ensures(
                (root,),
                of_root,
            ) && config == path_laws::same_components(
                match of_parent {
                    Some(resolved) => resolved,
                    None => *parent,
                },
                match of_root {
                    Some(resolved) => resolved,
                    None => *root,
                },
            ),
{
    path_laws::lemma_same_components(*parent, *root);
    if parent@ != root@ {
        let (of_parent, of_root) = choose|
            of_parent: Option<SystemPath>,
            of_root: Option<SystemPath>,
        | #[trigger]
            canonical.ensures((parent,), of_parent) && #[trigger] canonical.ensures(
                (root,),
                of_root,
            ) && config == (roots::resolved(*parent, of_parent) == roots::resolved(*root, of_root));
        path_laws::lemma_same_components(
            match of_parent {
                Some(resolved) => resolved,
                None => *parent,
            },
            match of_root {
                Some(resolved) => resolved,
                None => *root,
            },
        );
        assert(canonical.ensures((parent,), of_parent) && canonical.ensures((root,), of_root));
    }
}

} // verus!
