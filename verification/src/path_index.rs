//! An index of byte strings in the order they came, for telling a spelling that was seen before.

use std::collections::HashMap;
use vstd::prelude::*;
use vstd::std_specs::hash::*;

verus! {

/// Distinct byte strings, each found by what it holds. The view is the strings in the order of
/// their first occurrence.
pub struct PathIndex {
    keys: Vec<Vec<u8>>,
    /// The positions of the keys of each digest.
    buckets: HashMap<u64, Vec<usize>>,
}

/// The digest a key is filed under.
spec fn digest(key: Seq<u8>) -> u64
    decreases key.len(),
{
    if key.len() == 0 {
        14695981039346656037
    } else {
        mixed(digest(key.drop_last()), key.last())
    }
}

spec fn mixed(digest: u64, byte: u8) -> u64 {
    (digest ^ (byte as u64)).wrapping_mul(1099511628211)
}

fn digest_of(key: &[u8]) -> (d: u64)
    ensures
        d == digest(key@),
{
    let mut d: u64 = 14695981039346656037;
    let mut i: usize = 0;
    while i < key.len()
        invariant
            i <= key@.len(),
            d == digest(key@.take(i as int)),
        decreases key@.len() - i,
    {
        assert(key@.take(i + 1).drop_last() == key@.take(i as int));
        d = (d ^ (key[i] as u64)).wrapping_mul(1099511628211);
        i += 1;
    }
    assert(key@.take(key@.len() as int) == key@);
    d
}

/// Whether two byte strings hold the same bytes.
pub fn same_bytes(a: &[u8], b: &[u8]) -> (same: bool)
    ensures
        same == (a@ == b@),
{
    if a.len() != b.len() {
        return false;
    }
    let mut i: usize = 0;
    while i < a.len()
        invariant
            i <= a@.len(),
            a@.len() == b@.len(),
            forall|j: int| 0 <= j < i ==> a@[j] == b@[j],
        decreases a@.len() - i,
    {
        if a[i] != b[i] {
            return false;
        }
        i += 1;
    }
    assert(a@ =~= b@);
    true
}

/// A copy of a byte string.
pub fn copy_bytes(bytes: &[u8]) -> (copy: Vec<u8>)
    ensures
        copy@ == bytes@,
{
    let mut copy: Vec<u8> = Vec::new();
    let mut i: usize = 0;
    while i < bytes.len()
        invariant
            i <= bytes@.len(),
            copy@ == bytes@.take(i as int),
        decreases bytes@.len() - i,
    {
        copy.push(bytes[i]);
        i += 1;
        assert(bytes@.take(i as int) == bytes@.take(i - 1).push(bytes@[i - 1]));
    }
    assert(bytes@.take(bytes@.len() as int) == bytes@);
    copy
}

/// What a list of byte strings holds.
pub open spec fn bytes_of(list: Seq<Vec<u8>>) -> Seq<Seq<u8>> {
    list.map_values(|bytes: Vec<u8>| bytes@)
}

impl View for PathIndex {
    type V = Seq<Seq<u8>>;

    closed spec fn view(&self) -> Seq<Seq<u8>> {
        bytes_of(self.keys@)
    }
}

/// Every key is filed under its digest, and every position on file is that of a key.
spec fn filed(keys: Seq<Vec<u8>>, buckets: Map<u64, Vec<usize>>) -> bool {
    &&& forall|i: int, j: int|
        #![trigger keys[i], keys[j]]
        0 <= i < keys.len() && 0 <= j < keys.len() && keys[i]@ == keys[j]@ ==> i == j
    &&& forall|i: int|
        0 <= i < keys.len() ==> buckets.contains_key(digest((#[trigger] keys[i])@)) && buckets[digest(
            keys[i]@,
        )]@.contains(i as usize)
    &&& forall|d: u64, n: int|
        #![trigger buckets[d]@[n]]
        buckets.contains_key(d) && 0 <= n < buckets[d]@.len() ==> buckets[d]@[n] < keys.len()
}

/// A new key is filed behind those already filed under its digest.
proof fn lemma_filed(
    old_keys: Seq<Vec<u8>>,
    old_buckets: Map<u64, Vec<usize>>,
    bucket: Seq<usize>,
    keys: Seq<Vec<u8>>,
    buckets: Map<u64, Vec<usize>>,
    key: Seq<u8>,
)
    requires
        filed(old_keys, old_buckets),
        old_keys.len() < usize::MAX,
        !bytes_of(old_keys).contains(key),
        keys.len() == old_keys.len() + 1,
        keys.drop_last() == old_keys,
        keys.last()@ == key,
        bucket == (if old_buckets.contains_key(digest(key)) {
            old_buckets[digest(key)]@
        } else {
            Seq::empty()
        }),
        buckets.contains_key(digest(key)),
        buckets[digest(key)]@ == bucket.push(old_keys.len() as usize),
        forall|d: u64|
            d != digest(key) ==> (buckets.contains_key(d) == #[trigger] old_buckets.contains_key(d))
                && (buckets.contains_key(d) ==> buckets[d] == old_buckets[d]),
    ensures
        filed(keys, buckets),
{
    let n = old_keys.len() as int;
    assert forall|i: int| 0 <= i < n implies #[trigger] keys[i] == old_keys[i] by {
        assert(keys.drop_last()[i] == keys[i]);
    }
    assert forall|i: int| 0 <= i < n implies (#[trigger] old_keys[i])@ != key by {
        assert(bytes_of(old_keys)[i] == old_keys[i]@);
    }
    assert forall|i: int| 0 <= i < keys.len() implies buckets.contains_key(
        digest((#[trigger] keys[i])@),
    ) && buckets[digest(keys[i]@)]@.contains(i as usize) by {
        if i < n {
            let d = digest(old_keys[i]@);
            assert(old_buckets.contains_key(d) && old_buckets[d]@.contains(i as usize));
            if d == digest(key) {
                let m = choose|m: int| 0 <= m < bucket.len() && bucket[m] == i as usize;
                assert(buckets[d]@[m] == i as usize);
            }
        } else {
            assert(buckets[digest(key)]@[bucket.len() as int] == n as usize);
        }
    }
    assert forall|d: u64, m: int|
        #![trigger buckets[d]@[m]]
        buckets.contains_key(d) && 0 <= m < buckets[d]@.len() implies buckets[d]@[m] < keys.len() by {
        if d == digest(key) {
            if m < bucket.len() {
                assert(old_buckets[d]@[m] < old_keys.len());
            }
        } else {
            assert(old_buckets.contains_key(d));
            assert(old_buckets[d]@[m] < old_keys.len());
        }
    }
}

impl PathIndex {
    #[verifier::type_invariant]
    spec fn inv(self) -> bool {
        filed(self.keys@, self.buckets@)
    }

    pub fn new() -> (index: PathIndex)
        ensures
            index@ == Seq::<Seq<u8>>::empty(),
    {
        broadcast use group_hash_axioms;

        let index = PathIndex { keys: Vec::new(), buckets: HashMap::new() };
        assert(index@ =~= Seq::<Seq<u8>>::empty());
        index
    }

    /// Where a key stands, if it is here.
    pub fn position(&self, key: &[u8]) -> (position: Option<usize>)
        ensures
            position is None <==> !self@.contains(key@),
            position matches Some(at) ==> at < self@.len() && self@[at as int] == key@ && forall|
                j: int,
            |
                0 <= j < self@.len() && #[trigger] self@[j] == key@ ==> j == at,
    {
        broadcast use group_hash_axioms;

        proof {
            use_type_invariant(self);
        }
        let d = digest_of(key);
        match self.buckets.get(&d) {
            None => {
                proof {
                    if self@.contains(key@) {
                        let i = choose|i: int| 0 <= i < self@.len() && self@[i] == key@;
                        assert(self.keys@[i]@ == key@);
                    }
                }
                None
            },
            Some(bucket) => {
                let mut n: usize = 0;
                while n < bucket.len()
                    invariant
                        n <= bucket@.len(),
                        filed(self.keys@, self.buckets@),
                        self.buckets@.contains_key(d),
                        self.buckets@[d] == bucket,
                        d == digest(key@),
                        forall|m: int|
                            0 <= m < n ==> self.keys@[(#[trigger] bucket@[m]) as int]@ != key@,
                    decreases bucket@.len() - n,
                {
                    let at: usize = bucket[n];
                    assert(self.buckets@[d]@[n as int] < self.keys@.len());
                    if same_bytes(self.keys[at].as_slice(), key) {
                        proof {
                            assert(self@[at as int] == key@);
                            assert forall|j: int|
                                0 <= j < self@.len() && #[trigger] self@[j] == key@ implies j
                                == at by {
                                assert(self.keys@[j]@ == self.keys@[at as int]@);
                            }
                        }
                        return Some(at);
                    }
                    n += 1;
                }
                proof {
                    if self@.contains(key@) {
                        let i = choose|i: int| 0 <= i < self@.len() && self@[i] == key@;
                        assert(self.keys@[i]@ == key@);
                        assert(i < self.keys.len());
                        assert(self.buckets@[digest(self.keys@[i]@)]@.contains(i as usize));
                        let m = choose|m: int| 0 <= m < bucket@.len() && bucket@[m] == i as usize;
                        assert(self.keys@[bucket@[m] as int]@ != key@);
                    }
                }
                None
            },
        }
    }

    /// File a key, and say whether it was new.
    pub fn insert(&mut self, key: &[u8]) -> (fresh: bool)
        ensures
            fresh == !old(self)@.contains(key@),
            fresh ==> final(self)@ == old(self)@.push(key@),
            !fresh ==> final(self)@ == old(self)@,
    {
        broadcast use group_hash_axioms;

        if self.position(key).is_some() {
            return false;
        }
        let ghost before = self@;
        let mut filed_so_far = PathIndex::new();
        std::mem::swap(&mut filed_so_far, self);
        proof {
            use_type_invariant(&filed_so_far);
        }
        let PathIndex { mut keys, mut buckets } = filed_so_far;
        let ghost old_keys = keys@;
        let ghost old_buckets = buckets@;
        let at: usize = keys.len();
        let d = digest_of(key);
        let mut bucket: Vec<usize> = match buckets.remove(&d) {
            Some(bucket) => bucket,
            None => Vec::new(),
        };
        let ghost filed_here = bucket@;
        bucket.push(at);
        buckets.insert(d, bucket);
        keys.push(copy_bytes(key));
        proof {
            assert(keys.len() == old_keys.len() + 1);
            assert(keys@.drop_last() =~= old_keys);
            lemma_filed(old_keys, old_buckets, filed_here, keys@, buckets@, key@);
        }
        *self = PathIndex { keys, buckets };
        assert(self@ =~= before.push(key@));
        true
    }
}

} // verus!
