//! Projections of one workspace walk into the graph's two shapes.
//!
//! A walk keeps every occurrence; each projection here filters and de-duplicates the way its
//! consumer keys files, so the two shapes come from one traversal without either changing the
//! other's universe. Enumeration keys by the canonical path, the stats by the canonical path's
//! lossy spelling, and both filter before they de-duplicate.
//!
//! A spelling is a byte string, as the system has it; a path that is compared comes with its
//! components.

use crate::path_index::{copy_bytes, PathIndex};
use crate::paths;
use crate::paths::{copy_path, key_of, SystemPath};
use rustc_hash::{FxBuildHasher, FxHashMap};
use vstd::prelude::*;
use vstd::utf8::*;

verus! {

/// What a walk made of a file.
#[derive(Clone, Copy, Debug, PartialEq, Eq, Structural)]
pub enum FileRole {
    /// A module.
    Source,
    /// A descriptor.
    Metadata,
    Ignored,
}

/// One file of a walk.
#[derive(Debug, PartialEq, Eq)]
pub struct WalkedFile {
    /// The scan root it was found under.
    pub root: Vec<u8>,
    pub role: FileRole,
    /// The spelling the walk came by.
    pub walked: Vec<u8>,
    /// The physical path, or the walked one where it could not be resolved.
    pub canonical: SystemPath,
    /// When it was modified, in nanoseconds from the epoch, where the system says.
    pub modified: Option<i128>,
    pub len: u64,
}

/// Everything a walk of the scan roots found.
#[derive(Debug, PartialEq, Eq)]
pub struct SourceSet {
    pub files: Vec<WalkedFile>,
    /// Entries that could not be read: a file the walk did not list may still be on disk.
    pub unreadable: usize,
    /// Files that kept their walked spelling.
    pub canonical_fallbacks: usize,
    /// Link cycles that were cut.
    pub loops: usize,
    /// Links that lead nowhere.
    pub dangling: usize,
}

/// What one walk may speak for, carried alongside its projections.
///
/// The counters are kept apart on purpose. `unreadable` says that the file list is short.
/// `canonical_fallbacks` says that a listed file kept its walked spelling, so its key may differ
/// from the one an earlier walk produced for the same file. They are private, and a verdict comes
/// into being only by being read off a walk: one assembled field by field would compile, read
/// plausibly and disable one leg of the policy.
#[derive(Clone, Copy, Debug, PartialEq, Eq, Structural)]
pub struct ScanVerdict {
    unreadable: usize,
    canonical_fallbacks: usize,
    content_unreadable: usize,
}

impl ScanVerdict {
    /// Entries hidden from the walk.
    pub closed spec fn hidden(self) -> usize {
        self.unreadable
    }

    /// Files whose key is a walked spelling.
    pub closed spec fn respelled(self) -> usize {
        self.canonical_fallbacks
    }

    /// Listed files whose content could not be read.
    pub closed spec fn unhashed(self) -> usize {
        self.content_unreadable
    }

    /// The verdict of a walk.
    pub fn of(set: &SourceSet) -> (verdict: ScanVerdict)
        ensures
            verdict.hidden() == set.unreadable,
            verdict.respelled() == set.canonical_fallbacks,
            verdict.unhashed() == 0,
    {
        ScanVerdict {
            unreadable: set.unreadable,
            canonical_fallbacks: set.canonical_fallbacks,
            content_unreadable: 0,
        }
    }

    /// The verdict once the contents were read.
    pub fn with_content_unreadable(self, count: usize) -> (verdict: ScanVerdict)
        ensures
            verdict.hidden() == self.hidden(),
            verdict.respelled() == self.respelled(),
            verdict.unhashed() == count,
    {
        ScanVerdict { content_unreadable: count, ..self }
    }

    /// A verdict stated outright, for a test about what a consumer does with one.
    pub fn for_test(unreadable: usize, canonical_fallbacks: usize) -> (verdict: ScanVerdict)
        ensures
            verdict.hidden() == unreadable,
            verdict.respelled() == canonical_fallbacks,
            verdict.unhashed() == 0,
    {
        ScanVerdict { unreadable, canonical_fallbacks, content_unreadable: 0 }
    }

    /// Whether this walk may speak for the whole tree.
    pub fn clean(&self) -> (clean: bool)
        ensures
            clean == (self.hidden() == 0 && self.respelled() == 0 && self.unhashed() == 0),
    {
        self.coverage_complete() && self.identity_exact() && self.content_unreadable == 0
    }

    /// Nothing was hidden from the walk, so a file it did not list is genuinely absent.
    pub fn coverage_complete(&self) -> (complete: bool)
        ensures
            complete == (self.hidden() == 0),
    {
        self.unreadable == 0
    }

    /// Every listed file carries its physical spelling, so its key is comparable with the keys an
    /// earlier walk produced.
    pub fn identity_exact(&self) -> (exact: bool)
        ensures
            exact == (self.respelled() == 0),
    {
        self.canonical_fallbacks == 0
    }
}

/// A verdict is its counters: two walks with the same counters may speak for the same.
pub proof fn law_a_verdict_is_its_counters(a: ScanVerdict, b: ScanVerdict)
    ensures
        a == b <==> a.hidden() == b.hidden() && a.respelled() == b.respelled() && a.unhashed()
            == b.unhashed(),
{
}

/// The number a module is known under within one scan.
#[derive(Clone, Copy, Debug, PartialEq, Eq, Structural)]
pub struct FileId(pub u32);

/// The number a search engine's table of roots knows a file under.
#[derive(Clone, Copy, Debug, PartialEq, Eq, Structural)]
pub struct FileKey(pub u64);

/// One row of the stats.
#[derive(Debug, PartialEq, Eq)]
pub struct FileStat {
    /// The canonical path's lossy spelling.
    pub path: String,
    pub canonical: SystemPath,
    pub walked: Vec<u8>,
    /// Nanoseconds from the epoch; a file without a usable time reads as the epoch.
    pub mtime: u128,
    pub len: u64,
    /// The hash of the complete content, where it could be read.
    pub content_hash: Option<[u8; 32]>,
}

/// What `String::from_utf8_lossy` makes of these bytes.
pub uninterp spec fn lossy(bytes: Seq<u8>) -> Seq<char>;

/// What `blake3::hash` makes of these bytes.
pub uninterp spec fn blake3_digest(bytes: Seq<u8>) -> Seq<u8>;

/// `String::from_utf8_lossy`: bytes that are valid UTF-8 are spelled as they are. What stands for a
/// byte sequence that is not is left to the name of the result.
#[verifier::external_body]
fn lossy_spelling(bytes: &[u8]) -> (spelled: String)
    ensures
        spelled@ == lossy(bytes@),
        valid_utf8(bytes@) ==> spelled@ == decode_utf8(bytes@),
{
    String::from_utf8_lossy(bytes).into_owned()
}

/// `blake3::hash`: the 32-byte hash of the bytes, a function of them alone.
#[verifier::external_body]
fn content_digest(bytes: &[u8]) -> (hash: [u8; 32])
    ensures
        hash@ == blake3_digest(bytes@),
{
    *blake3::hash(bytes).as_bytes()
}

/// A path with the other separator.
pub open spec fn forward_slashed(path: Seq<char>) -> Seq<char> {
    path.map_values(
        |c: char|
            if c == '\\' {
                '/'
            } else {
                c
            },
    )
}

/// `str::replace` of every backslash by a slash, and of nothing else.
#[verifier::external_body]
fn with_forward_slashes(path: &str) -> (replaced: String)
    ensures
        replaced@ == forward_slashed(path@),
{
    path.replace('\\', "/")
}

/// The hasher of [`rustc_hash`]'s maps.
#[verifier::external_type_specification]
#[verifier::external_body]
pub struct ExFxBuildHasher(FxBuildHasher);

/// What a map of aliases holds.
pub uninterp spec fn alias_contents(aliases: FxHashMap<String, FileKey>) -> Map<Seq<char>, FileKey>;

/// `FxHashMap::default`: a map that holds nothing.
#[verifier::external_body]
fn no_aliases() -> (aliases: FxHashMap<String, FileKey>)
    ensures
        alias_contents(aliases).is_empty(),
{
    FxHashMap::default()
}

/// `HashMap::insert` on a [`rustc_hash`] map: the key leads to the value from here on, whatever it
/// led to before, and every other key is as it was.
#[verifier::external_body]
fn add_alias(aliases: &mut FxHashMap<String, FileKey>, spelling: String, key: FileKey)
    ensures
        alias_contents(*final(aliases)) == alias_contents(*old(aliases)).insert(spelling@, key),
{
    aliases.insert(spelling, key);
}

/// A file is kept, and no file before it that is kept has its key.
pub open spec fn first_of_its_key<K>(
    files: Seq<WalkedFile>,
    keep: spec_fn(WalkedFile) -> bool,
    key: spec_fn(WalkedFile) -> K,
    i: int,
) -> bool {
    &&& keep(files[i])
    &&& forall|j: int| 0 <= j < i && keep(#[trigger] files[j]) ==> key(files[j]) != key(files[i])
}

/// The places, in the walk's order, of the files that are first of their key among the first `n`.
pub open spec fn rows<K>(
    files: Seq<WalkedFile>,
    keep: spec_fn(WalkedFile) -> bool,
    key: spec_fn(WalkedFile) -> K,
    n: nat,
) -> Seq<int>
    decreases n,
{
    if n == 0 {
        Seq::empty()
    } else {
        let before = rows(files, keep, key, (n - 1) as nat);
        if first_of_its_key(files, keep, key, n - 1) {
            before.push(n - 1)
        } else {
            before
        }
    }
}

/// Membership is the walk's own verdict, so a case-variant spelling the walk took is in.
pub open spec fn is_source() -> spec_fn(WalkedFile) -> bool {
    |file: WalkedFile| file.role is Source
}

pub open spec fn is_relevant() -> spec_fn(WalkedFile) -> bool {
    |file: WalkedFile| !(file.role is Ignored)
}

pub open spec fn by_path() -> spec_fn(WalkedFile) -> paths::Components {
    |file: WalkedFile| file.canonical@
}

pub open spec fn by_spelling() -> spec_fn(WalkedFile) -> Seq<char> {
    |file: WalkedFile| lossy(file.canonical.spelled@)
}

impl SourceSet {
    /// The places of the files the enumeration lists.
    pub open spec fn source_rows(self) -> Seq<int> {
        rows(self.files@, is_source(), by_path(), self.files@.len())
    }

    /// The places of the files that have a row of stats.
    pub open spec fn stat_rows(self) -> Seq<int> {
        rows(self.files@, is_relevant(), by_spelling(), self.files@.len())
    }
}

/// The places are those of the files that are first of their key, each once and in order.
pub(crate) proof fn lemma_rows<K>(
    files: Seq<WalkedFile>,
    keep: spec_fn(WalkedFile) -> bool,
    key: spec_fn(WalkedFile) -> K,
    n: nat,
)
    requires
        n <= files.len(),
    ensures
        ({
            let r = rows(files, keep, key, n);
            &&& r.len() <= n
            &&& forall|a: int|
                0 <= a < r.len() ==> 0 <= #[trigger] r[a] < n && first_of_its_key(
                    files,
                    keep,
                    key,
                    r[a],
                )
            &&& forall|a: int, b: int| 0 <= a < b < r.len() ==> #[trigger] r[a] < #[trigger] r[b]
            &&& forall|i: int|
                0 <= i < n && #[trigger] first_of_its_key(files, keep, key, i) ==> r.contains(i)
        }),
    decreases n,
{
    if n > 0 {
        lemma_rows(files, keep, key, (n - 1) as nat);
        let before = rows(files, keep, key, (n - 1) as nat);
        let r = rows(files, keep, key, n);
        assert forall|i: int|
            0 <= i < n && #[trigger] first_of_its_key(files, keep, key, i) implies r.contains(i) by {
            if i == n - 1 {
                assert(r[r.len() - 1] == i);
            } else {
                let a = choose|a: int| 0 <= a < before.len() && before[a] == i;
                assert(r[a] == i);
            }
        }
    }
}

/// Every kept file's key is that of one of the places.
pub(crate) proof fn lemma_rows_cover<K>(
    files: Seq<WalkedFile>,
    keep: spec_fn(WalkedFile) -> bool,
    key: spec_fn(WalkedFile) -> K,
    n: nat,
    i: int,
) -> (a: int)
    requires
        n <= files.len(),
        0 <= i < n,
        keep(files[i]),
    ensures
        0 <= a < rows(files, keep, key, n).len(),
        rows(files, keep, key, n)[a] <= i,
        key(files[rows(files, keep, key, n)[a]]) == key(files[i]),
    decreases i,
{
    lemma_rows(files, keep, key, n);
    let r = rows(files, keep, key, n);
    if first_of_its_key(files, keep, key, i) {
        choose|a: int| 0 <= a < r.len() && r[a] == i
    } else {
        let j = choose|j: int|
            0 <= j < i && keep(#[trigger] files[j]) && key(files[j]) == key(files[i]);
        lemma_rows_cover(files, keep, key, n, j)
    }
}

/// The longer the walk, the more places.
proof fn lemma_rows_grow<K>(
    files: Seq<WalkedFile>,
    keep: spec_fn(WalkedFile) -> bool,
    key: spec_fn(WalkedFile) -> K,
    n: nat,
    m: nat,
)
    requires
        n <= m,
    ensures
        rows(files, keep, key, n).len() <= rows(files, keep, key, m).len(),
    decreases m,
{
    if n < m {
        lemma_rows_grow(files, keep, key, n, (m - 1) as nat);
    }
}

/// The module universe in enumeration shape: canonical paths with numbers assigned in scan order,
/// the first occurrence of each canonical path winning.
pub fn bsl_files_from(set: &SourceSet) -> (entries: Vec<(FileId, SystemPath)>)
    requires
        set.source_rows().len() <= u32::MAX,
    ensures
        entries@.len() == set.source_rows().len(),
        forall|i: int|
            0 <= i < entries@.len() ==> (#[trigger] entries@[i]).0 == FileId(i as u32)
                && entries@[i].1.is_spelled_like(set.files@[set.source_rows()[i]].canonical),
{
    let mut entries: Vec<(FileId, SystemPath)> = Vec::new();
    let mut seen = PathIndex::new();
    let mut next_id: u32 = 0;
    let mut i: usize = 0;
    while i < set.files.len()
        invariant
            i <= set.files@.len(),
            set.source_rows().len() <= u32::MAX,
            ({
                let r = rows(set.files@, is_source(), by_path(), i as nat);
                &&& entries@.len() == r.len() == seen@.len() == next_id
                &&& forall|a: int|
                    0 <= a < r.len() ==> (#[trigger] entries@[a]).0 == FileId(a as u32)
                        && entries@[a].1.is_spelled_like(set.files@[r[a]].canonical)
                &&& forall|a: int|
                    0 <= a < r.len() ==> #[trigger] seen@[a] == paths::key(
                        set.files@[r[a]].canonical,
                    )
            }),
        decreases set.files@.len() - i,
    {
        let file = &set.files[i];
        let ghost r = rows(set.files@, is_source(), by_path(), i as nat);
        proof {
            lemma_rows(set.files@, is_source(), by_path(), i as nat);
        }
        if file.role == FileRole::Source {
            let fresh = seen.insert(key_of(&file.canonical).as_slice());
            proof {
                if fresh {
                    assert forall|j: int|
                        0 <= j < i && is_source()(#[trigger] set.files@[j]) implies by_path()(
                        set.files@[j],
                    ) != by_path()(set.files@[i as int]) by {
                        let a = lemma_rows_cover(
                            set.files@,
                            is_source(),
                            by_path(),
                            i as nat,
                            j,
                        );
                        paths::lemma_key(set.files@[r[a]].canonical, set.files@[j].canonical);
                        paths::lemma_key(set.files@[j].canonical, file.canonical);
                        assert(seen@[a] == paths::key(set.files@[j].canonical));
                    }
                    assert(first_of_its_key(set.files@, is_source(), by_path(), i as int));
                    lemma_rows_grow(
                        set.files@,
                        is_source(),
                        by_path(),
                        (i + 1) as nat,
                        set.files@.len(),
                    );
                } else {
                    let a = choose|a: int|
                        0 <= a < r.len() && seen@[a] == paths::key(file.canonical);
                    paths::lemma_key(set.files@[r[a]].canonical, file.canonical);
                    assert(is_source()(set.files@[r[a]]));
                    assert(by_path()(set.files@[r[a]]) == by_path()(set.files@[i as int]));
                    assert(!first_of_its_key(set.files@, is_source(), by_path(), i as int));
                }
            }
            if fresh {
                entries.push((FileId(next_id), copy_path(&file.canonical)));
                next_id += 1;
            }
        }
        i += 1;
    }
    entries
}

/// When a file was modified, as its row says it: a time before the epoch, or none at all, reads as
/// the epoch itself.
pub open spec fn stat_time(modified: Option<i128>) -> u128 {
    match modified {
        Some(nanos) if nanos >= 0 => nanos as u128,
        _ => 0,
    }
}

impl FileStat {
    /// The row of this file, under this spelling of its canonical path.
    pub open spec fn row_of(self, file: WalkedFile, path: Seq<char>) -> bool {
        &&& self.path@ == path
        &&& self.canonical.is_spelled_like(file.canonical)
        &&& self.walked@ == file.walked@
        &&& self.mtime == stat_time(file.modified)
        &&& self.len == file.len
    }

    /// The row of a file, given the spelling of its path and the hash of its content.
    pub fn of(file: &WalkedFile, path: String, content_hash: Option<[u8; 32]>) -> (stat: FileStat)
        ensures
            stat.row_of(*file, path@),
            stat.content_hash == content_hash,
    {
        let mtime: u128 = match file.modified {
            Some(nanos) => if nanos >= 0 {
                nanos as u128
            } else {
                0
            },
            None => 0,
        };
        FileStat {
            path,
            canonical: copy_path(&file.canonical),
            walked: copy_bytes(file.walked.as_slice()),
            mtime,
            len: file.len,
            content_hash,
        }
    }
}

/// How many of the first `n` rows have no hash.
pub open spec fn unhashed(stats: Seq<FileStat>, n: nat) -> nat
    decreases n,
{
    if n == 0 {
        0
    } else if stats[n - 1].content_hash is None {
        unhashed(stats, (n - 1) as nat) + 1
    } else {
        unhashed(stats, (n - 1) as nat)
    }
}

/// The row's hash is that of what reading the file gave, and it has none where reading failed.
pub open spec fn hashed<R: Fn(&WalkedFile) -> Option<Vec<u8>>>(
    stat: FileStat,
    file: WalkedFile,
    read: R,
) -> bool {
    match stat.content_hash {
        Some(hash) => exists|bytes: Vec<u8>| #[trigger]
            read.ensures((&file,), Some(bytes)) && hash@ == blake3_digest(bytes@),
        None => read.ensures((&file,), None),
    }
}

proof fn lemma_unhashed_extends(stats: Seq<FileStat>, longer: Seq<FileStat>, n: nat)
    requires
        n <= stats.len() <= longer.len(),
        forall|i: int| 0 <= i < stats.len() ==> stats[i] == #[trigger] longer[i],
    ensures
        unhashed(stats, n) == unhashed(longer, n) <= n,
    decreases n,
{
    if n > 0 {
        lemma_unhashed_extends(stats, longer, (n - 1) as nat);
    }
}

/// The module and descriptor universe in stats shape, and how many of its files could not be read:
/// the first occurrence of each spelling wins, so two canonical paths that collapse into one lossy
/// spelling still yield one row. `read` is asked for the content of the files that have a row, and
/// of no others.
pub fn file_stats_with_content_errors<R: Fn(&WalkedFile) -> Option<Vec<u8>>>(
    set: &SourceSet,
    read: R,
) -> (projected: (Vec<FileStat>, usize))
    requires
        forall|i: int|
            0 <= i < set.stat_rows().len() ==> read.requires(
                (&set.files@[#[trigger] set.stat_rows()[i]],),
            ),
    ensures
        projected.0@.len() == set.stat_rows().len(),
        forall|i: int|
            0 <= i < projected.0@.len() ==> {
                let file = set.files@[set.stat_rows()[i]];
                (#[trigger] projected.0@[i]).row_of(file, lossy(file.canonical.spelled@)) && hashed(
                    projected.0@[i],
                    file,
                    read,
                )
            },
        projected.1 == unhashed(projected.0@, projected.0@.len()),
{
    let mut stats: Vec<FileStat> = Vec::new();
    let mut seen = PathIndex::new();
    let mut content_unreadable: usize = 0;
    let mut i: usize = 0;
    while i < set.files.len()
        invariant
            i <= set.files@.len(),
            forall|k: int|
                0 <= k < set.stat_rows().len() ==> read.requires(
                    (&set.files@[#[trigger] set.stat_rows()[k]],),
                ),
            stats@.len() <= i,
            content_unreadable == unhashed(stats@, stats@.len()) <= stats@.len(),
            ({
                let r = rows(set.files@, is_relevant(), by_spelling(), i as nat);
                &&& stats@.len() == r.len() == seen@.len()
                &&& forall|a: int|
                    0 <= a < r.len() ==> {
                        let file = set.files@[r[a]];
                        (#[trigger] stats@[a]).row_of(file, lossy(file.canonical.spelled@)) && hashed(
                            stats@[a],
                            file,
                            read,
                        )
                    }
                &&& forall|a: int|
                    0 <= a < r.len() ==> #[trigger] seen@[a] == encode_utf8(
                        lossy(set.files@[r[a]].canonical.spelled@),
                    )
            }),
        decreases set.files@.len() - i,
    {
        let file = &set.files[i];
        let ghost r = rows(set.files@, is_relevant(), by_spelling(), i as nat);
        proof {
            lemma_rows(set.files@, is_relevant(), by_spelling(), i as nat);
        }
        if file.role != FileRole::Ignored {
            let path = lossy_spelling(file.canonical.spelled.as_slice());
            let fresh = seen.insert(path.as_str().as_bytes());
            proof {
                broadcast use encode_utf8_decode_utf8;

                if fresh {
                    assert forall|j: int|
                        0 <= j < i && is_relevant()(#[trigger] set.files@[j]) implies by_spelling()(
                        set.files@[j],
                    ) != by_spelling()(set.files@[i as int]) by {
                        let a = lemma_rows_cover(
                            set.files@,
                            is_relevant(),
                            by_spelling(),
                            i as nat,
                            j,
                        );
                        assert(seen@[a] == encode_utf8(lossy(set.files@[j].canonical.spelled@)));
                    }
                } else {
                    let a = choose|a: int|
                        0 <= a < r.len() && seen@[a] == encode_utf8(lossy(file.canonical.spelled@));
                    assert(is_relevant()(set.files@[r[a]]));
                    assert(decode_utf8(encode_utf8(lossy(set.files@[r[a]].canonical.spelled@)))
                        == decode_utf8(encode_utf8(lossy(file.canonical.spelled@))));
                    assert(by_spelling()(set.files@[r[a]]) == by_spelling()(set.files@[i as int]));
                    assert(!first_of_its_key(set.files@, is_relevant(), by_spelling(), i as int));
                }
            }
            if fresh {
                let ghost before = stats@;
                proof {
                    lemma_rows(set.files@, is_relevant(), by_spelling(), set.files@.len());
                    assert(first_of_its_key(set.files@, is_relevant(), by_spelling(), i as int));
                    let k = choose|k: int|
                        0 <= k < set.stat_rows().len() && set.stat_rows()[k] == i;
                    assert(read.requires((&set.files@[set.stat_rows()[k]],)));
                }
                let content_hash = match read(file) {
                    Some(bytes) => {
                        let hash = content_digest(bytes.as_slice());
                        assert(read.ensures((file,), Some(bytes)));
                        Some(hash)
                    },
                    None => {
                        content_unreadable += 1;
                        None
                    },
                };
                stats.push(FileStat::of(file, path, content_hash));
                proof {
                    lemma_unhashed_extends(before, stats@, before.len());
                }
            }
        }
        i += 1;
    }
    (stats, content_unreadable)
}

/// The rows of the stats alone.
pub fn file_stats_from<R: Fn(&WalkedFile) -> Option<Vec<u8>>>(set: &SourceSet, read: R) -> (stats:
    Vec<FileStat>)
    requires
        forall|i: int|
            0 <= i < set.stat_rows().len() ==> read.requires(
                (&set.files@[#[trigger] set.stat_rows()[i]],),
            ),
    ensures
        stats@.len() == set.stat_rows().len(),
        forall|i: int|
            0 <= i < stats@.len() ==> {
                let file = set.files@[set.stat_rows()[i]];
                (#[trigger] stats@[i]).row_of(file, lossy(file.canonical.spelled@)) && hashed(
                    stats@[i],
                    file,
                    read,
                )
            },
{
    file_stats_with_content_errors(set, read).0
}

/// One traversal of the scan roots, projected into every shape the graph's passes consume. Passes
/// handed the same instance share one universe: the enumeration a build lowers and the stats its
/// table persists come from the same walk, so no pass can see a tree another pass did not.
pub struct ScannedUniverse {
    files: Vec<(FileId, SystemPath)>,
    stats: Vec<FileStat>,
    /// The canonical paths of the rows, each once.
    canonicals: PathIndex,
    /// The last row of each of those paths.
    last_rows: Vec<usize>,
    verdict: ScanVerdict,
}

/// The last of the first `n` rows that is of this path.
pub open spec fn last_row(stats: Seq<FileStat>, n: nat, path: paths::Components) -> Option<int>
    decreases n,
{
    if n == 0 {
        None
    } else if stats[n - 1].canonical@ == path {
        Some(n - 1)
    } else {
        last_row(stats, (n - 1) as nat, path)
    }
}

pub(crate) proof fn lemma_last_row(stats: Seq<FileStat>, n: nat, path: paths::Components)
    requires
        n <= stats.len(),
    ensures
        match last_row(stats, n, path) {
            Some(i) => 0 <= i < n && stats[i].canonical@ == path && forall|j: int|
                i < j < n ==> (#[trigger] stats[j]).canonical@ != path,
            None => forall|j: int|
                0 <= j < n ==> (#[trigger] stats[j]).canonical@ != path,
        },
    decreases n,
{
    if n > 0 {
        lemma_last_row(stats, (n - 1) as nat, path);
    }
}

/// Each of the first `n` rows is found by its canonical path, which leads to the last row of it.
spec fn indexed(
    stats: Seq<FileStat>,
    canonicals: Seq<Seq<u8>>,
    last_rows: Seq<usize>,
    n: int,
) -> bool {
    &&& 0 <= n <= stats.len()
    &&& canonicals.len() == last_rows.len()
    &&& forall|i: int|
        0 <= i < n ==> canonicals.contains(paths::key((#[trigger] stats[i]).canonical))
    &&& forall|a: int|
        0 <= a < canonicals.len() ==> (#[trigger] last_rows[a]) < n && canonicals[a] == paths::key(
            stats[last_rows[a] as int].canonical,
        )
    &&& forall|a: int, i: int|
        0 <= a < canonicals.len() && last_rows[a] < i < n ==> #[trigger] canonicals[a]
            != paths::key((#[trigger] stats[i]).canonical)
}

impl ScannedUniverse {
    #[verifier::type_invariant]
    spec fn inv(self) -> bool {
        indexed(self.stats@, self.canonicals@, self.last_rows@, self.stats@.len() as int)
    }

    /// The enumeration.
    pub closed spec fn modules(self) -> Seq<(FileId, SystemPath)> {
        self.files@
    }

    /// The rows of stats.
    pub closed spec fn table(self) -> Seq<FileStat> {
        self.stats@
    }

    /// What the walk behind these projections may speak for.
    pub closed spec fn authority(self) -> ScanVerdict {
        self.verdict
    }

    /// One walk, all projections. The content pass is part of the same walk's authority: a listed
    /// file that could not be hashed keeps the snapshot dirty, and is never equivalent to an empty
    /// or a deleted input.
    pub fn of<R: Fn(&WalkedFile) -> Option<Vec<u8>>>(set: &SourceSet, read: R) -> (universe:
        ScannedUniverse)
        requires
            set.source_rows().len() <= u32::MAX,
            forall|i: int|
                0 <= i < set.stat_rows().len() ==> read.requires(
                    (&set.files@[#[trigger] set.stat_rows()[i]],),
                ),
        ensures
            universe.modules().len() == set.source_rows().len(),
            forall|i: int|
                0 <= i < universe.modules().len() ==> (#[trigger] universe.modules()[i]).0 == FileId(
                    i as u32,
                ) && universe.modules()[i].1.is_spelled_like(
                    set.files@[set.source_rows()[i]].canonical,
                ),
            universe.table().len() == set.stat_rows().len(),
            forall|i: int|
                0 <= i < universe.table().len() ==> {
                    let file = set.files@[set.stat_rows()[i]];
                    (#[trigger] universe.table()[i]).row_of(file, lossy(file.canonical.spelled@)) && hashed(
                        universe.table()[i],
                        file,
                        read,
                    )
                },
            universe.authority().hidden() == set.unreadable,
            universe.authority().respelled() == set.canonical_fallbacks,
            universe.authority().unhashed() == unhashed(universe.table(), universe.table().len()),
    {
        let (stats, unreadable) = file_stats_with_content_errors(set, read);
        let mut canonicals = PathIndex::new();
        let mut last_rows: Vec<usize> = Vec::new();
        let mut i: usize = 0;
        while i < stats.len()
            invariant
                i <= stats@.len(),
                indexed(stats@, canonicals@, last_rows@, i as int),
            decreases stats@.len() - i,
        {
            let ghost canonicals_before = canonicals@;
            let ghost rows_before = last_rows@;
            let key = key_of(&stats[i].canonical);
            match canonicals.position(key.as_slice()) {
                Some(at) => {
                    last_rows.set(at, i);
                },
                None => {
                    canonicals.insert(key.as_slice());
                    last_rows.push(i);
                    assert(canonicals@[canonicals_before.len() as int] == key@);
                },
            }
            proof {
                assert forall|k: int| 0 <= k < i + 1 implies canonicals@.contains(
                    paths::key((#[trigger] stats@[k]).canonical),
                ) by {
                    if k < i {
                        let a = choose|a: int|
                            0 <= a < canonicals_before.len() && canonicals_before[a] == paths::key(
                                stats@[k].canonical,
                            );
                        assert(canonicals@[a] == canonicals_before[a]);
                    }
                }
                assert forall|a: int| 0 <= a < canonicals@.len() implies (
                #[trigger] last_rows@[a]) < i + 1 && canonicals@[a] == paths::key(
                    stats@[last_rows@[a] as int].canonical,
                ) by {
                    if a < rows_before.len() {
                        assert(canonicals@[a] == canonicals_before[a]);
                        assert(rows_before[a] < i);
                    }
                }
                assert forall|a: int, k: int|
                    0 <= a < canonicals@.len() && last_rows@[a] < k < i + 1 implies #[trigger] canonicals@[a]
                    != paths::key((#[trigger] stats@[k]).canonical) by {
                    assert(canonicals@[a] == canonicals_before[a]);
                    assert(rows_before[a] == last_rows@[a]);
                }
            }
            i += 1;
        }
        let verdict = ScanVerdict::of(set).with_content_unreadable(unreadable);
        ScannedUniverse { files: bsl_files_from(set), stats, canonicals, last_rows, verdict }
    }

    /// The `.bsl` enumeration.
    pub fn files(&self) -> (files: &Vec<(FileId, SystemPath)>)
        ensures
            files@ == self.modules(),
    {
        &self.files
    }

    /// The rows of stats.
    pub fn stats(&self) -> (stats: &Vec<FileStat>)
        ensures
            stats@ == self.table(),
    {
        &self.stats
    }

    /// Whether the walk behind these projections may speak for the whole tree. A publication over
    /// an unclean universe must not claim a coherent snapshot, and a cache must not be adopted as
    /// fresh against one.
    pub fn clean(&self) -> (clean: bool)
        ensures
            clean == (self.authority().hidden() == 0 && self.authority().respelled() == 0
                && self.authority().unhashed() == 0),
    {
        self.verdict.clean()
    }

    /// The row a path leads to: of several rows of one path, the last.
    pub open spec fn row_at(self, path: paths::Components) -> Option<int> {
        last_row(self.table(), self.table().len(), path)
    }

    /// The walked spelling paired with a canonical path in this scan, if the path was present in
    /// the universe.
    pub fn walked_path_for(&self, canonical: &SystemPath) -> (walked: Option<&[u8]>)
        ensures
            match self.row_at(canonical@) {
                Some(i) => walked is Some && (walked->0)@ == self.table()[i].walked@,
                None => walked is None,
            },
    {
        proof {
            use_type_invariant(self);
            lemma_last_row(self.table(), self.table().len(), canonical@);
        }
        match self.canonicals.position(key_of(canonical).as_slice()) {
            Some(at) => {
                let row: usize = self.last_rows[at];
                proof {
                    let found = self.row_at(canonical@);
                    paths::lemma_key(self.stats@[row as int].canonical, *canonical);
                    assert(self.canonicals@[at as int] == paths::key(*canonical));
                    if found->0 != row as int {
                        paths::lemma_key(self.stats@[found->0].canonical, *canonical);
                        assert(self.stats@[found->0] == self.table()[found->0]);
                    }
                }
                Some(self.stats[row].walked.as_slice())
            },
            None => {
                proof {
                    if self.row_at(canonical@) is Some {
                        let i = self.row_at(canonical@)->0;
                        paths::lemma_key(self.stats@[i].canonical, *canonical);
                    }
                }
                None
            },
        }
    }

    /// Resolve a canonical path of this scan using the walked spelling retained for it. `root_of`
    /// is asked of the two spellings, walked first, and only for a path of this universe.
    pub fn key_for_path<F: FnOnce(&[u8], &SystemPath) -> Option<FileKey>>(
        &self,
        canonical: &SystemPath,
        root_of: F,
    ) -> (key: Option<FileKey>)
        requires
            forall|walked: &[u8]|
                self.row_at(canonical@) is Some && walked@ == self.table()[self.row_at(
                    canonical@,
                )->0].walked@ ==> #[trigger] root_of.requires((walked, canonical)),
        ensures
            self.row_at(canonical@) is None ==> key is None,
            self.row_at(canonical@) matches Some(i) ==> exists|walked: &[u8]|
                self.table()[i].walked@ == walked@ && #[trigger] root_of.ensures(
                    (walked, canonical),
                    key,
                ),
    {
        match self.walked_path_for(canonical) {
            Some(walked) => {
                let key = root_of(walked, canonical);
                assert(root_of.ensures((walked, canonical), key));
                key
            },
            None => None,
        }
    }

    /// Every row's key under every spelling its file is asked for by: node rows use the walked
    /// spelling, while unread reports and file rows may still carry the canonical one. `key_for` is
    /// asked of the rows in their order, up to the first without a key: that one leaves nothing to
    /// expose.
    pub fn file_key_aliases<K: Fn(&FileStat) -> Option<FileKey>>(&self, key_for: K) -> (aliases:
        Option<FxHashMap<String, FileKey>>)
        requires
            forall|i: int|
                0 <= i < self.table().len() && keyed_up_to(self.table(), key_for, i)
                    ==> key_for.requires((&#[trigger] self.table()[i],)),
        ensures
            exists|keys: Seq<Option<FileKey>>| #[trigger]
                answered_in_turn(self.table(), key_for, keys) && (aliases is None <==> exists|
                    i: int,
                | 0 <= i < keys.len() && (#[trigger] keys[i]) is None) && (aliases matches Some(map)
                    ==> keys.len() == self.table().len() && alias_contents(map) == aliases_of(
                    self.table(),
                    keys,
                    keys.len(),
                )),
    {
        let mut aliases = no_aliases();
        let ghost mut keys: Seq<Option<FileKey>> = Seq::empty();
        let mut i: usize = 0;
        while i < self.stats.len()
            invariant
                i <= self.stats@.len(),
                self.stats@ == self.table(),
                keys.len() == i,
                forall|a: int| 0 <= a < i ==> (#[trigger] keys[a]) is Some,
                forall|a: int|
                    0 <= a < i ==> key_for.ensures((&self.stats@[a],), #[trigger] keys[a]),
                keyed_up_to(self.table(), key_for, i as int),
                forall|a: int|
                    0 <= a < self.table().len() && keyed_up_to(self.table(), key_for, a)
                        ==> key_for.requires((&#[trigger] self.table()[a],)),
                alias_contents(aliases) == aliases_of(self.stats@, keys, i as nat),
            decreases self.stats@.len() - i,
        {
            let stat = &self.stats[i];
            assert(*stat == self.table()[i as int]);
            let answer = key_for(stat);
            let ghost before = keys;
            proof {
                keys = keys.push(answer);
                lemma_aliases_extend(self.stats@, before, keys, i as nat);
                assert forall|a: int| 0 <= a < i implies key_for.ensures(
                    (&self.stats@[a],),
                    #[trigger] keys[a],
                ) by {
                    assert(keys[a] == before[a]);
                }
                assert forall|a: int| 0 <= a < i implies (#[trigger] keys[a]) is Some by {
                    assert(keys[a] == before[a]);
                }
                assert(keys[i as int] == answer);
            }
            match answer {
                None => {
                    assert(answered_in_turn(self.table(), key_for, keys));
                    return None;
                },
                Some(key) => {
                    assert(key_for.ensures((&self.table()[i as int],), Some(key)));
                    add_alias(&mut aliases, with_forward_slashes(stat.path.as_str()), key);
                    add_alias(&mut aliases, stat.path.clone(), key);
                    let walked = lossy_spelling(stat.walked.as_slice());
                    add_alias(&mut aliases, with_forward_slashes(walked.as_str()), key);
                },
            }
            i += 1;
        }
        assert(answered_in_turn(self.table(), key_for, keys));
        Some(aliases)
    }
}

/// A row can have a key.
pub open spec fn keyed<K: Fn(&FileStat) -> Option<FileKey>>(stat: FileStat, key_for: K) -> bool {
    exists|key: FileKey| #[trigger] key_for.ensures((&stat,), Some(key))
}

/// Each of the first `n` rows can have a key.
pub open spec fn keyed_up_to<K: Fn(&FileStat) -> Option<FileKey>>(
    stats: Seq<FileStat>,
    key_for: K,
    n: int,
) -> bool {
    forall|i: int| 0 <= i < n ==> keyed(#[trigger] stats[i], key_for)
}

/// The rows were asked for their keys in order, up to the first without one.
pub open spec fn answered_in_turn<K: Fn(&FileStat) -> Option<FileKey>>(
    stats: Seq<FileStat>,
    key_for: K,
    keys: Seq<Option<FileKey>>,
) -> bool {
    &&& keys.len() <= stats.len()
    &&& forall|i: int| 0 <= i < keys.len() ==> key_for.ensures((&stats[i],), #[trigger] keys[i])
    &&& forall|i: int| 0 <= i < keys.len() - 1 ==> (#[trigger] keys[i]) is Some
    &&& keys.len() < stats.len() ==> keys.len() > 0 && keys.last() is None
}

proof fn lemma_aliases_extend(
    stats: Seq<FileStat>,
    keys: Seq<Option<FileKey>>,
    longer: Seq<Option<FileKey>>,
    n: nat,
)
    requires
        n <= keys.len() <= longer.len(),
        forall|i: int| 0 <= i < keys.len() ==> keys[i] == #[trigger] longer[i],
    ensures
        aliases_of(stats, keys, n) == aliases_of(stats, longer, n),
    decreases n,
{
    if n > 0 {
        lemma_aliases_extend(stats, keys, longer, (n - 1) as nat);
    }
}

/// What the aliases of the first `n` rows lead to; a later row wins over an earlier one.
pub open spec fn aliases_of(
    stats: Seq<FileStat>,
    keys: Seq<Option<FileKey>>,
    n: nat,
) -> Map<Seq<char>, FileKey>
    decreases n,
{
    if n == 0 {
        Map::empty()
    } else {
        let stat = stats[n - 1];
        let key = keys[n - 1]->0;
        aliases_of(stats, keys, (n - 1) as nat).insert(forward_slashed(stat.path@), key).insert(
            stat.path@,
            key,
        ).insert(forward_slashed(lossy(stat.walked@)), key)
    }
}

/// One of the places holds a file of this key, and none before it.
pub open spec fn has_place<K>(
    files: Seq<WalkedFile>,
    places: Seq<int>,
    key: spec_fn(WalkedFile) -> K,
    i: int,
) -> bool {
    exists|a: int|
        0 <= a < places.len() && #[trigger] places[a] <= i && key(files[places[a]]) == key(files[i])
}

/// The places hold each key of the kept files once, in the order of the walk: only kept files have
/// a place, no two have the same key, and every kept file's key has the place of its first
/// occurrence.
pub open spec fn one_place_per_key<K>(
    files: Seq<WalkedFile>,
    places: Seq<int>,
    keep: spec_fn(WalkedFile) -> bool,
    key: spec_fn(WalkedFile) -> K,
) -> bool {
    &&& forall|a: int|
        0 <= a < places.len() ==> 0 <= #[trigger] places[a] < files.len() && keep(files[places[a]])
    &&& forall|a: int, b: int|
        0 <= a < b < places.len() ==> #[trigger] places[a] < #[trigger] places[b] && key(
            files[places[a]],
        ) != key(files[places[b]])
    &&& forall|i: int|
        0 <= i < files.len() && keep(files[i]) ==> #[trigger] has_place(files, places, key, i)
}

proof fn lemma_one_place_per_key<K>(
    files: Seq<WalkedFile>,
    keep: spec_fn(WalkedFile) -> bool,
    key: spec_fn(WalkedFile) -> K,
)
    ensures
        one_place_per_key(files, rows(files, keep, key, files.len()), keep, key),
{
    let r = rows(files, keep, key, files.len());
    lemma_rows(files, keep, key, files.len());
    assert forall|a: int, b: int| 0 <= a < b < r.len() implies #[trigger] r[a] < #[trigger] r[b]
        && key(files[r[a]]) != key(files[r[b]]) by {
        assert(first_of_its_key(files, keep, key, r[a]));
        assert(first_of_its_key(files, keep, key, r[b]));
    }
    assert forall|i: int| 0 <= i < files.len() && keep(files[i]) implies #[trigger] has_place(
        files,
        r,
        key,
        i,
    ) by {
        let a = lemma_rows_cover(files, keep, key, files.len(), i);
        assert(r[a] <= i);
    }
}

/// The enumeration lists each module once, under its canonical path: every file the walk took for a
/// module is listed, nothing else is, and the list keeps the order of the walk.
pub proof fn law_the_enumeration_lists_each_module_once(set: SourceSet)
    ensures
        one_place_per_key(set.files@, set.source_rows(), is_source(), by_path()),
{
    lemma_one_place_per_key(set.files@, is_source(), by_path());
}

/// The stats have one row for each spelling: every file that is not ignored has a row, nothing else
/// does, and of several files with one spelling the first keeps the row.
pub proof fn law_the_stats_hold_each_spelling_once(set: SourceSet)
    ensures
        one_place_per_key(set.files@, set.stat_rows(), is_relevant(), by_spelling()),
{
    lemma_one_place_per_key(set.files@, is_relevant(), by_spelling());
}

/// One universe, two shapes: every module the enumeration lists has a row of stats under its own
/// spelling.
pub proof fn law_every_listed_module_has_a_row(set: SourceSet, a: int)
    requires
        0 <= a < set.source_rows().len(),
    ensures
        exists|b: int|
            0 <= b < set.stat_rows().len() && lossy(
                set.files@[#[trigger] set.stat_rows()[b]].canonical.spelled@,
            ) == lossy(set.files@[set.source_rows()[a]].canonical.spelled@),
{
    law_the_enumeration_lists_each_module_once(set);
    law_the_stats_hold_each_spelling_once(set);
    let i = set.source_rows()[a];
    assert(is_relevant()(set.files@[i]));
    assert(has_place(set.files@, set.stat_rows(), by_spelling(), i));
    let b = choose|b: int|
        0 <= b < set.stat_rows().len() && #[trigger] set.stat_rows()[b] <= i && by_spelling()(
            set.files@[set.stat_rows()[b]],
        ) == by_spelling()(set.files@[i]);
    assert(lossy(set.files@[set.stat_rows()[b]].canonical.spelled@) == lossy(
        set.files@[i].canonical.spelled@,
    ));
}

/// Two modules whose canonical paths differ but share one lossy spelling: the enumeration keeps
/// both, the stats one row, and it is not the later file's.
pub proof fn law_a_lossy_collision_keeps_both_modules(set: SourceSet, i: int, j: int)
    requires
        0 <= i < j < set.files@.len(),
        set.files@[i].role is Source,
        set.files@[j].role is Source,
        set.files@[i].canonical@ != set.files@[j].canonical@,
        lossy(set.files@[i].canonical.spelled@) == lossy(set.files@[j].canonical.spelled@),
    ensures
        !set.stat_rows().contains(j),
        has_place(set.files@, set.source_rows(), by_path(), i),
        has_place(set.files@, set.source_rows(), by_path(), j),
{
    let files = set.files@;
    law_the_enumeration_lists_each_module_once(set);
    lemma_rows(files, is_relevant(), by_spelling(), files.len());
    assert(is_source()(files[i]) && is_source()(files[j]));
    if set.stat_rows().contains(j) {
        let c = choose|c: int| 0 <= c < set.stat_rows().len() && set.stat_rows()[c] == j;
        assert(first_of_its_key(files, is_relevant(), by_spelling(), set.stat_rows()[c]));
        assert(is_relevant()(files[i]));
        assert(by_spelling()(files[i]) != by_spelling()(files[j]));
    }
}

/// Every row is found under each of its spellings, and what is found there is the key of some row
/// that has the spelling.
pub proof fn law_every_row_is_found_under_its_spellings(
    stats: Seq<FileStat>,
    keys: Seq<Option<FileKey>>,
    n: nat,
    i: int,
)
    requires
        n <= stats.len(),
        n <= keys.len(),
        0 <= i < n,
    ensures
        aliases_of(stats, keys, n).contains_key(stats[i].path@),
        aliases_of(stats, keys, n).contains_key(forward_slashed(stats[i].path@)),
        aliases_of(stats, keys, n).contains_key(forward_slashed(lossy(stats[i].walked@))),
        forall|spelling: Seq<char>| #[trigger]
            aliases_of(stats, keys, n).contains_key(spelling) ==> exists|a: int|
                0 <= a < n && (spelling == (#[trigger] stats[a]).path@ || spelling == forward_slashed(
                    stats[a].path@,
                ) || spelling == forward_slashed(lossy(stats[a].walked@))) && aliases_of(
                    stats,
                    keys,
                    n,
                )[spelling] == keys[a]->0,
    decreases n,
{
    if i < n - 1 {
        law_every_row_is_found_under_its_spellings(stats, keys, (n - 1) as nat, i);
    } else if n > 1 {
        law_every_row_is_found_under_its_spellings(stats, keys, (n - 1) as nat, 0);
    }
    let before = aliases_of(stats, keys, (n - 1) as nat);
    assert forall|spelling: Seq<char>| #[trigger]
        aliases_of(stats, keys, n).contains_key(spelling) implies exists|a: int|
        0 <= a < n && (spelling == (#[trigger] stats[a]).path@ || spelling == forward_slashed(
            stats[a].path@,
        ) || spelling == forward_slashed(lossy(stats[a].walked@))) && aliases_of(stats, keys, n)[spelling]
            == keys[a]->0 by {
        let last = stats[n - 1];
        if spelling != last.path@ && spelling != forward_slashed(last.path@) && spelling
            != forward_slashed(lossy(last.walked@)) {
            assert(before.contains_key(spelling));
            assert(n > 1);
            let a = choose|a: int|
                0 <= a < n - 1 && (spelling == (#[trigger] stats[a]).path@ || spelling
                    == forward_slashed(stats[a].path@) || spelling == forward_slashed(
                    lossy(stats[a].walked@),
                )) && before[spelling] == keys[a]->0;
            assert(stats[a] == stats[a]);
        }
    }
}

} // verus!
