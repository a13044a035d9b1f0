//! What the projections of a walk hold, file by file.
//!
//! Each law speaks of whatever a projection answers, on the files of the walk it was given: which of
//! them are listed, under which number and spelling, what their rows say, and what may be asked of
//! the scan afterwards.

use crate::path_laws;
use crate::paths;
use crate::paths::SystemPath;
use crate::universe;
use crate::universe::{
    bsl_files_from, file_stats_from, file_stats_with_content_errors, FileId, FileKey, FileStat,
    ScanVerdict, ScannedUniverse, SourceSet, WalkedFile,
};
use rustc_hash::FxHashMap;
use vstd::prelude::*;

verus! {

/// The file is a module, and none before it is the same path.
pub open spec fn first_module(files: Seq<WalkedFile>, i: int) -> bool {
    &&& 0 <= i < files.len()
    &&& files[i].role is Source
    &&& forall|j: int|
        0 <= j < i && (#[trigger] files[j]).role is Source ==> !path_laws::same_components(
            files[j].canonical,
            files[i].canonical,
        )
}

/// The list is that of the modules: one for each path, that of its first occurrence, in the order of
/// the walk and numbered from zero.
pub open spec fn lists_modules(files: Seq<WalkedFile>, listed: Seq<(FileId, SystemPath)>) -> bool {
    exists|places: Seq<int>| #[trigger] are_module_places(files, listed, places)
}

/// The places of the listed modules in the walk.
pub open spec fn are_module_places(
    files: Seq<WalkedFile>,
    listed: Seq<(FileId, SystemPath)>,
    places: Seq<int>,
) -> bool {
    &&& places.len() == listed.len()
    &&& forall|a: int|
        0 <= a < listed.len() ==> {
            &&& first_module(files, #[trigger] places[a])
            &&& listed[a].0.0 == a
            &&& listed[a].1.spelled@ == files[places[a]].canonical.spelled@
            &&& path_laws::same_components(listed[a].1, files[places[a]].canonical)
        }
    &&& forall|a: int, b: int|
        0 <= a < b < places.len() ==> #[trigger] places[a] < #[trigger] places[b]
    &&& forall|i: int| #[trigger] first_module(files, i) ==> places.contains(i)
}

proof fn lemma_first_module(files: Seq<WalkedFile>, i: int)
    requires
        0 <= i < files.len(),
    ensures
        first_module(files, i) <==> universe::first_of_its_key(
            files,
            universe::is_source(),
            universe::by_path(),
            i,
        ),
{
    assert forall|j: int| 0 <= j < files.len() implies (path_laws::same_components(
        (#[trigger] files[j]).canonical,
        files[i].canonical,
    ) <==> universe::by_path()(files[j]) == universe::by_path()(files[i]))
        && universe::is_source()(files[j]) == (files[j].role is Source) by {
        path_laws::lemma_same_components(files[j].canonical, files[i].canonical);
    }
}

proof fn lemma_modules_listed(set: SourceSet, listed: Seq<(FileId, SystemPath)>)
    requires
        set.source_rows().len() <= u32::MAX,
        listed.len() == set.source_rows().len(),
        forall|i: int|
            0 <= i < listed.len() ==> (#[trigger] listed[i]).0 == FileId(i as u32)
                && listed[i].1.is_spelled_like(set.files@[set.source_rows()[i]].canonical),
    ensures
        lists_modules(set.files@, listed),
{
    let files = set.files@;
    let places = set.source_rows();
    universe::lemma_rows(files, universe::is_source(), universe::by_path(), files.len());
    assert forall|a: int| 0 <= a < listed.len() implies {
        &&& first_module(files, #[trigger] places[a])
        &&& listed[a].0.0 == a
        &&& listed[a].1.spelled@ == files[places[a]].canonical.spelled@
        &&& path_laws::same_components(listed[a].1, files[places[a]].canonical)
    } by {
        lemma_first_module(files, places[a]);
        assert(listed[a].0 == FileId(a as u32));
        path_laws::lemma_same_components(listed[a].1, files[places[a]].canonical);
    }
    assert forall|i: int| #[trigger] first_module(files, i) implies places.contains(i) by {
        lemma_first_module(files, i);
    }
    assert(are_module_places(files, listed, places));
}

/// The enumeration lists every module of the walk once, by its first occurrence, and nothing else.
pub proof fn law_every_module_is_listed_once(
    set: &SourceSet,
    listed: Vec<(FileId, SystemPath)>,
    i: int,
)
    requires
        set.source_rows().len() <= u32::MAX,
        call_ensures(bsl_files_from, (set,), listed),
    ensures
        lists_modules(set.files@, listed@),
        0 <= i < set.files@.len() && set.files@[i].role is Source ==> exists|a: int|
            0 <= a < listed@.len() && path_laws::same_components(
                (#[trigger] listed@[a]).1,
                set.files@[i].canonical,
            ),
{
    lemma_modules_listed(*set, listed@);
    let files = set.files@;
    if 0 <= i < files.len() && files[i].role is Source {
        let a = universe::lemma_rows_cover(
            files,
            universe::is_source(),
            universe::by_path(),
            files.len(),
            i,
        );
        path_laws::lemma_same_components(listed@[a].1, files[i].canonical);
    }
}

/// The file is not ignored, and none before it that is not has its spelling.
pub open spec fn first_spelled(files: Seq<WalkedFile>, i: int) -> bool {
    &&& 0 <= i < files.len()
    &&& !(files[i].role is Ignored)
    &&& forall|j: int|
        0 <= j < i && !((#[trigger] files[j]).role is Ignored) ==> universe::lossy(
            files[j].canonical.spelled@,
        ) != universe::lossy(files[i].canonical.spelled@)
}

/// The row of a file: its spelling, its path, the spelling it was walked by, its length, and its
/// time, which is the epoch where the system says none or one before it.
pub open spec fn is_row_of(row: FileStat, file: WalkedFile) -> bool {
    &&& row.path@ == universe::lossy(file.canonical.spelled@)
    &&& row.canonical.spelled@ == file.canonical.spelled@
    &&& path_laws::same_components(row.canonical, file.canonical)
    &&& row.walked@ == file.walked@
    &&& row.len == file.len
    &&& file.modified matches Some(nanos) ==> row.mtime == (if nanos >= 0 {
        nanos as int
    } else {
        0
    })
    &&& file.modified is None ==> row.mtime == 0
}

/// The row's hash is that of the bytes reading its file gave, and none where reading failed.
pub open spec fn is_hash_of<R: Fn(&WalkedFile) -> Option<Vec<u8>>>(
    row: FileStat,
    file: WalkedFile,
    read: R,
) -> bool {
    &&& row.content_hash is None ==> read.ensures((&file,), None)
    &&& row.content_hash matches Some(hash) ==> exists|bytes: Vec<u8>| #[trigger]
        read.ensures((&file,), Some(bytes)) && hash@ == universe::blake3_digest(bytes@)
}

/// The rows are those of the files that are not ignored: one for each spelling, that of its first
/// occurrence, in the order of the walk.
pub open spec fn holds_rows<R: Fn(&WalkedFile) -> Option<Vec<u8>>>(
    files: Seq<WalkedFile>,
    rows: Seq<FileStat>,
    read: R,
) -> bool {
    exists|places: Seq<int>| #[trigger] are_row_places(files, rows, read, places)
}

/// The places of the rows' files in the walk.
pub open spec fn are_row_places<R: Fn(&WalkedFile) -> Option<Vec<u8>>>(
    files: Seq<WalkedFile>,
    rows: Seq<FileStat>,
    read: R,
    places: Seq<int>,
) -> bool {
    &&& places.len() == rows.len()
    &&& forall|a: int|
        0 <= a < rows.len() ==> {
            &&& first_spelled(files, #[trigger] places[a])
            &&& is_row_of(rows[a], files[places[a]])
            &&& is_hash_of(rows[a], files[places[a]], read)
        }
    &&& forall|a: int, b: int|
        0 <= a < b < places.len() ==> #[trigger] places[a] < #[trigger] places[b]
    &&& forall|i: int| #[trigger] first_spelled(files, i) ==> places.contains(i)
}

proof fn lemma_first_spelled(files: Seq<WalkedFile>, i: int)
    requires
        0 <= i < files.len(),
    ensures
        first_spelled(files, i) <==> universe::first_of_its_key(
            files,
            universe::is_relevant(),
            universe::by_spelling(),
            i,
        ),
{
    assert forall|j: int| 0 <= j < files.len() implies universe::by_spelling()(#[trigger] files[j])
        == universe::lossy(files[j].canonical.spelled@) && universe::is_relevant()(files[j]) == !(
    files[j].role is Ignored) by {
    }
}

proof fn lemma_rows_held<R: Fn(&WalkedFile) -> Option<Vec<u8>>>(
    set: SourceSet,
    rows: Seq<FileStat>,
    read: R,
)
    requires
        rows.len() == set.stat_rows().len(),
        forall|i: int|
            0 <= i < rows.len() ==> {
                let file = set.files@[set.stat_rows()[i]];
                (#[trigger] rows[i]).row_of(file, universe::lossy(file.canonical.spelled@))
                    && universe::hashed(rows[i], file, read)
            },
    ensures
        holds_rows(set.files@, rows, read),
{
    let files = set.files@;
    let places = set.stat_rows();
    universe::lemma_rows(files, universe::is_relevant(), universe::by_spelling(), files.len());
    assert forall|a: int| 0 <= a < rows.len() implies {
        &&& first_spelled(files, #[trigger] places[a])
        &&& is_row_of(rows[a], files[places[a]])
        &&& is_hash_of(rows[a], files[places[a]], read)
    } by {
        lemma_first_spelled(files, places[a]);
        let file = files[places[a]];
        assert(rows[a].row_of(file, universe::lossy(file.canonical.spelled@)));
        path_laws::lemma_same_components(rows[a].canonical, file.canonical);
    }
    assert forall|i: int| #[trigger] first_spelled(files, i) implies places.contains(i) by {
        lemma_first_spelled(files, i);
    }
    assert(are_row_places(files, rows, read, places));
}

/// How many rows have no hash.
pub open spec fn without_a_hash(rows: Seq<FileStat>) -> nat {
    rows.filter(|row: FileStat| row.content_hash is None).len()
}

proof fn lemma_without_a_hash(rows: Seq<FileStat>, n: nat)
    requires
        n <= rows.len(),
    ensures
        universe::unhashed(rows, n) == without_a_hash(rows.take(n as int)),
    decreases n,
{
    reveal(Seq::filter);
    if n > 0 {
        lemma_without_a_hash(rows, (n - 1) as nat);
        assert(rows.take(n as int).drop_last() =~= rows.take(n - 1));
        assert(rows.take(n as int).last() == rows[n - 1]);
    }
}

/// The stats hold a row for every spelling of a file that is not ignored, as that file was walked
/// and read, and count those that could not be; the rows alone are the same.
pub proof fn law_every_relevant_file_has_its_row<R: Fn(&WalkedFile) -> Option<Vec<u8>>>(
    set: &SourceSet,
    read: R,
    projected: (Vec<FileStat>, usize),
    rows: Vec<FileStat>,
)
    requires
        call_ensures(file_stats_with_content_errors::<R>, (set, read), projected),
        call_ensures(file_stats_from::<R>, (set, read), rows),
    ensures
        holds_rows(set.files@, projected.0@, read),
        projected.1 == without_a_hash(projected.0@),
        holds_rows(set.files@, rows@, read),
{
    lemma_rows_held(*set, projected.0@, read);
    lemma_rows_held(*set, rows@, read);
    lemma_without_a_hash(projected.0@, projected.0@.len());
    assert(projected.0@.take(projected.0@.len() as int) =~= projected.0@);
}

/// A row says of its file what the walk said, under the spelling and the hash it is given.
pub proof fn law_a_row_says_what_was_walked(
    file: &WalkedFile,
    path: String,
    content_hash: Option<[u8; 32]>,
    row: FileStat,
)
    requires
        call_ensures(FileStat::of, (file, path, content_hash), row),
    ensures
        row.path@ == path@,
        row.content_hash == content_hash,
        row.canonical.spelled@ == file.canonical.spelled@,
        path_laws::same_components(row.canonical, file.canonical),
        row.walked@ == file.walked@,
        row.len == file.len,
        file.modified matches Some(nanos) ==> row.mtime == (if nanos >= 0 {
            nanos as int
        } else {
            0
        }),
        file.modified is None ==> row.mtime == 0,
{
    path_laws::lemma_same_components(row.canonical, file.canonical);
}

/// A walk covers the tree where nothing was hidden from it, names it exactly where no file kept a
/// walked spelling, and speaks for it where both hold and every listed file was read.
pub proof fn law_a_walk_speaks_for_what_it_saw(
    set: &SourceSet,
    of: ScanVerdict,
    count: usize,
    read: ScanVerdict,
    clean: bool,
    covers: bool,
    exact: bool,
    unread_clean: bool,
)
    requires
        call_ensures(ScanVerdict::of, (set,), of),
        call_ensures(ScanVerdict::with_content_unreadable, (of, count), read),
        call_ensures(ScanVerdict::clean, (&read,), clean),
        call_ensures(ScanVerdict::coverage_complete, (&read,), covers),
        call_ensures(ScanVerdict::identity_exact, (&read,), exact),
        call_ensures(ScanVerdict::clean, (&of,), unread_clean),
    ensures
        clean <==> set.unreadable == 0 && set.canonical_fallbacks == 0 && count == 0,
        covers <==> set.unreadable == 0,
        exact <==> set.canonical_fallbacks == 0,
        unread_clean <==> set.unreadable == 0 && set.canonical_fallbacks == 0,
{
}

/// A verdict stated outright is that of a walk with those counters.
pub proof fn law_a_stated_verdict_is_a_walks(
    unreadable: usize,
    canonical_fallbacks: usize,
    set: &SourceSet,
    stated: ScanVerdict,
    of: ScanVerdict,
)
    requires
        set.unreadable == unreadable,
        set.canonical_fallbacks == canonical_fallbacks,
        call_ensures(ScanVerdict::for_test, (unreadable, canonical_fallbacks), stated),
        call_ensures(ScanVerdict::of, (set,), of),
    ensures
        stated == of,
{
    universe::law_a_verdict_is_its_counters(stated, of);
}

/// One walk in every shape: the enumeration and the rows of a scan are those of the walk it was
/// made of, and it is clean exactly where nothing was hidden, nothing kept a walked spelling and
/// every row has its hash.
pub proof fn law_a_scan_is_one_walk_in_every_shape<R: Fn(&WalkedFile) -> Option<Vec<u8>>>(
    set: &SourceSet,
    read: R,
    scanned: ScannedUniverse,
    listed: &Vec<(FileId, SystemPath)>,
    rows: &Vec<FileStat>,
    clean: bool,
)
    requires
        set.source_rows().len() <= u32::MAX,
        call_ensures(ScannedUniverse::of::<R>, (set, read), scanned),
        call_ensures(ScannedUniverse::files, (&scanned,), listed),
        call_ensures(ScannedUniverse::stats, (&scanned,), rows),
        call_ensures(ScannedUniverse::clean, (&scanned,), clean),
    ensures
        lists_modules(set.files@, listed@),
        holds_rows(set.files@, rows@, read),
        clean <==> set.unreadable == 0 && set.canonical_fallbacks == 0 && without_a_hash(rows@) == 0,
{
    lemma_modules_listed(*set, scanned.modules());
    lemma_rows_held(*set, scanned.table(), read);
    lemma_without_a_hash(scanned.table(), scanned.table().len());
    assert(scanned.table().take(scanned.table().len() as int) =~= scanned.table());
}

/// The last row of this path.
pub open spec fn is_last_row(rows: Seq<FileStat>, path: SystemPath, i: int) -> bool {
    &&& 0 <= i < rows.len()
    &&& path_laws::same_components(rows[i].canonical, path)
    &&& forall|j: int|
        i < j < rows.len() ==> !path_laws::same_components((#[trigger] rows[j]).canonical, path)
}

proof fn lemma_last(rows: Seq<FileStat>, path: SystemPath, i: int)
    ensures
        is_last_row(rows, path, i) <==> universe::last_row(rows, rows.len(), path@) == Some(i),
        universe::last_row(rows, rows.len(), path@) is None ==> forall|j: int|
            0 <= j < rows.len() ==> !path_laws::same_components(
                (#[trigger] rows[j]).canonical,
                path,
            ),
{
    universe::lemma_last_row(rows, rows.len(), path@);
    assert forall|j: int| 0 <= j < rows.len() implies (path_laws::same_components(
        (#[trigger] rows[j]).canonical,
        path,
    ) <==> rows[j].canonical@ == path@) by {
        path_laws::lemma_same_components(rows[j].canonical, path);
    }
}

/// A path of the scan is answered with the spelling its last row was walked by, and one of no row
/// with none.
pub proof fn law_a_path_leads_to_its_walked_spelling(
    scanned: &ScannedUniverse,
    rows: &Vec<FileStat>,
    canonical: &SystemPath,
    walked: Option<&[u8]>,
    i: int,
)
    requires
        call_ensures(ScannedUniverse::stats, (scanned,), rows),
        call_ensures(ScannedUniverse::walked_path_for, (scanned, canonical), walked),
    ensures
        is_last_row(rows@, *canonical, i) ==> walked is Some && (walked->0)@ == rows@[i].walked@,
        walked is None <==> forall|j: int|
            0 <= j < rows@.len() ==> !path_laws::same_components(
                (#[trigger] rows@[j]).canonical,
                *canonical,
            ),
{
    lemma_last(rows@, *canonical, i);
    universe::lemma_last_row(rows@, rows@.len(), canonical@);
    if let Some(k) = universe::last_row(rows@, rows@.len(), canonical@) {
        lemma_last(rows@, *canonical, k);
        assert(path_laws::same_components(rows@[k].canonical, *canonical));
    }
}

/// A key is asked for with both spellings of the path's last row, and only for a path of the scan.
pub proof fn law_a_key_is_asked_with_both_spellings<
    F: FnOnce(&[u8], &SystemPath) -> Option<FileKey>,
>(
    scanned: &ScannedUniverse,
    rows: &Vec<FileStat>,
    canonical: &SystemPath,
    root_of: F,
    key: Option<FileKey>,
    i: int,
)
    requires
        call_ensures(ScannedUniverse::stats, (scanned,), rows),
        call_ensures(ScannedUniverse::key_for_path::<F>, (scanned, canonical, root_of), key),
    ensures
        is_last_row(rows@, *canonical, i) ==> exists|walked: &[u8]| #[trigger]
            root_of.ensures((walked, canonical), key) && walked@ == rows@[i].walked@,
        (forall|j: int|
            0 <= j < rows@.len() ==> !path_laws::same_components(
                (#[trigger] rows@[j]).canonical,
                *canonical,
            )) ==> key is None,
{
    lemma_last(rows@, *canonical, i);
    universe::lemma_last_row(rows@, rows@.len(), canonical@);
    if is_last_row(rows@, *canonical, i) {
        assert(scanned.row_at(canonical@) == Some(i));
        let walked = choose|walked: &[u8]|
            scanned.table()[i].walked@ == walked@ && #[trigger] root_of.ensures(
                (walked, canonical),
                key,
            );
        assert(root_of.ensures((walked, canonical), key));
    }
    if let Some(k) = universe::last_row(rows@, rows@.len(), canonical@) {
        lemma_last(rows@, *canonical, k);
        assert(path_laws::same_components(rows@[k].canonical, *canonical));
    }
}

/// A spelling with every backslash turned, and nothing else.
pub open spec fn turned(spelling: Seq<char>, slashed: Seq<char>) -> bool {
    &&& slashed.len() == spelling.len()
    &&& forall|i: int|
        0 <= i < spelling.len() ==> #[trigger] slashed[i] == (if spelling[i] == '\\' {
            '/'
        } else {
            spelling[i]
        })
}

/// One of the spellings a row's file is asked for by: its path as it is or with its backslashes
/// turned, or the walked spelling with its backslashes turned.
pub open spec fn is_alias_of(row: FileStat, alias: Seq<char>) -> bool {
    ||| alias == row.path@
    ||| turned(row.path@, alias)
    ||| turned(universe::lossy(row.walked@), alias)
}

proof fn lemma_alias(row: FileStat, alias: Seq<char>)
    ensures
        is_alias_of(row, alias) <==> alias == row.path@ || alias == universe::forward_slashed(
            row.path@,
        ) || alias == universe::forward_slashed(universe::lossy(row.walked@)),
{
    lemma_turned(row.path@, alias);
    lemma_turned(universe::lossy(row.walked@), alias);
}

proof fn lemma_turned(spelling: Seq<char>, slashed: Seq<char>)
    ensures
        turned(spelling, slashed) <==> slashed == universe::forward_slashed(spelling),
{
    if turned(spelling, slashed) {
        assert(slashed =~= universe::forward_slashed(spelling));
    }
}

/// The last of the first `n` rows that has this alias.
pub open spec fn is_last_alias(rows: Seq<FileStat>, n: int, alias: Seq<char>, i: int) -> bool {
    &&& 0 <= i < n
    &&& is_alias_of(rows[i], alias)
    &&& forall|j: int| i < j < n ==> !is_alias_of(#[trigger] rows[j], alias)
}

proof fn lemma_last_alias(
    rows: Seq<FileStat>,
    keys: Seq<Option<FileKey>>,
    n: nat,
    alias: Seq<char>,
    i: int,
)
    requires
        n <= rows.len(),
        n <= keys.len(),
    ensures
        is_last_alias(rows, n as int, alias, i) ==> universe::aliases_of(
            rows,
            keys,
            n,
        ).contains_key(alias) && universe::aliases_of(rows, keys, n)[alias] == keys[i]->0,
        (forall|j: int| 0 <= j < n ==> !is_alias_of(#[trigger] rows[j], alias))
            ==> !universe::aliases_of(rows, keys, n).contains_key(alias),
    decreases n,
{
    if n > 0 {
        lemma_alias(rows[n - 1], alias);
        if is_last_alias(rows, n as int, alias, i) && i < n - 1 {
            assert(!is_alias_of(rows[n - 1], alias));
            assert(is_last_alias(rows, n - 1, alias, i));
        }
        lemma_last_alias(rows, keys, (n - 1) as nat, alias, i);
    }
}

/// Every row's key is found under each of its spellings, a later row's before an earlier one's, and
/// nothing is found under any other; a row without a key leaves nothing to find.
pub proof fn law_a_key_is_found_under_every_spelling<K: Fn(&FileStat) -> Option<FileKey>>(
    scanned: &ScannedUniverse,
    rows: &Vec<FileStat>,
    key_for: K,
    aliases: Option<FxHashMap<String, FileKey>>,
    alias: Seq<char>,
    i: int,
)
    requires
        call_ensures(ScannedUniverse::stats, (scanned,), rows),
        call_ensures(ScannedUniverse::file_key_aliases::<K>, (scanned, key_for), aliases),
    ensures
        aliases matches Some(map) ==> {
            &&& is_last_alias(rows@, rows@.len() as int, alias, i)
                ==> universe::alias_contents(map).contains_key(alias) && key_for.ensures(
                (&rows@[i],),
                Some(universe::alias_contents(map)[alias]),
            )
            &&& (forall|j: int| 0 <= j < rows@.len() ==> !is_alias_of(#[trigger] rows@[j], alias))
                ==> !universe::alias_contents(map).contains_key(alias)
        },
        aliases is None ==> exists|k: int|
            0 <= k < rows@.len() && key_for.ensures((&#[trigger] rows@[k],), None),
{
    let keys = choose|keys: Seq<Option<FileKey>>| #[trigger]
        universe::answered_in_turn(scanned.table(), key_for, keys) && (aliases is None <==> exists|
            k: int,
        | 0 <= k < keys.len() && (#[trigger] keys[k]) is None) && (aliases matches Some(map)
            ==> keys.len() == scanned.table().len() && universe::alias_contents(map)
            == universe::aliases_of(scanned.table(), keys, keys.len()));
    if aliases is Some {
        lemma_last_alias(rows@, keys, rows@.len(), alias, i);
        if is_last_alias(rows@, rows@.len() as int, alias, i) {
            assert(key_for.ensures((&rows@[i],), keys[i]));
            assert(!(keys[i] is None));
        }
    } else {
        let k = choose|k: int| 0 <= k < keys.len() && (#[trigger] keys[k]) is None;
        assert(key_for.ensures((&rows@[k],), keys[k]));
    }
}

} // verus!
