//! Layout of the two-level image cache.

use vstd::prelude::*;
use vstd::utf8::{encode_utf8, is_char_boundary};

use crate::middleware::origin::texts;
use crate::service::dedup::InFlight;
use crate::utils::text::str_eq;

verus! {

/// Maximum number of entries in the in-memory cache.
pub const MEMORY_CACHE_CAPACITY: u64 = 1024;

/// Time to live of an in-memory entry, in seconds (10 minutes).
pub const MEMORY_CACHE_TTL_SECS: u64 = 600;

/// The length, in bytes, of the directory prefix of a key.
pub open spec fn prefix_len(key_bytes: Seq<u8>) -> int {
    if key_bytes.len() < 2 { key_bytes.len() as int } else { 2 }
}

/// The subdirectory of the disk cache that holds `key`: its first two
/// bytes (the whole key if shorter). Keys are hexadecimal, so the cut falls
/// between characters.
pub fn disk_prefix(key: &str) -> (p: &str)
    requires
        is_char_boundary(encode_utf8(key@), prefix_len(encode_utf8(key@))),
    ensures
        encode_utf8(p@) == encode_utf8(key@).subrange(0, prefix_len(encode_utf8(key@))),
{
    let bytes = key.as_bytes();
    let n: usize = if bytes.len() < 2 {
        bytes.len()
    } else {
        2
    };
    key.split_at(n).0
}


/// The keys recorded for a source after one more key was served for it:
/// a new key is added at the end, a known one changes nothing.
pub open spec fn keys_after(
    index: Map<Seq<char>, Seq<Seq<char>>>,
    url: Seq<char>,
    key: Seq<char>,
) -> Seq<Seq<char>> {
    if index.contains_key(url) {
        if index[url].contains(key) {
            index[url]
        } else {
            index[url].push(key)
        }
    } else {
        seq![key]
    }
}

/// The cache keys served for each source URL, so that every cached variant
/// of a source can be purged at once.
pub struct VariantIndex {
    by_url: InFlight<Vec<String>>,
}

fn holds_key(keys: &Vec<String>, key: &str) -> (r: bool)
    ensures
        r == texts(keys@).contains(key@),
{
    let n = keys.len();
    let mut i: usize = 0;
    while i < n
        invariant
            n == keys.len(),
            i <= n,
            forall|j: int| 0 <= j < i ==> keys@[j]@ != key@,
        decreases n - i,
    {
        if str_eq(keys[i].as_str(), key) {
            assert(texts(keys@)[i as int] == key@);
            return true;
        }
        i = i + 1;
    }
    assert forall|j: int| 0 <= j < texts(keys@).len() implies texts(keys@)[j] != key@ by {
        assert(texts(keys@)[j] == keys@[j]@);
    }
    false
}

impl VariantIndex {
    /// For each source URL, the keys served for it.
    pub closed spec fn view(&self) -> Map<Seq<char>, Seq<Seq<char>>> {
        Map::new(|u: Seq<char>| self.by_url@.contains_key(u), |u: Seq<char>| texts(self.by_url@[u]@))
    }

    /// An empty index.
    pub fn new() -> (r: Self)
        ensures
            r@ == Map::<Seq<char>, Seq<Seq<char>>>::empty(),
    {
        let r = VariantIndex { by_url: InFlight::new() };
        assert(r@ =~= Map::<Seq<char>, Seq<Seq<char>>>::empty());
        r
    }

    /// Records that the entry `key` was served for the source `url`.
    pub fn record(&mut self, url: &str, key: &str)
        ensures
            final(self)@ == old(self)@.insert(url@, keys_after(old(self)@, url@, key@)),
    {
        let ghost before = self.by_url@;
        let mut keys = match self.by_url.finish(url) {
            Some(k) => k,
            None => Vec::new(),
        };
        assert(before.contains_key(url@) ==> texts(keys@) == old(self)@[url@]);
        assert(!before.contains_key(url@) ==> texts(keys@) =~= Seq::<Seq<char>>::empty());
        if !holds_key(&keys, key) {
            let ghost prev = keys@;
            keys.push(key.to_owned());
            assert(texts(keys@) =~= texts(prev).push(key@));
        }
        let ghost recorded = texts(keys@);
        assert(recorded =~= keys_after(old(self)@, url@, key@));
        self.by_url.register(url, keys);
        assert(self.by_url@ =~= before.insert(url@, self.by_url@[url@]));
        assert(self@ =~= old(self)@.insert(url@, keys_after(old(self)@, url@, key@)));
    }

    /// Removes the source `url` from the index and gives back the keys served
    /// for it (none if it was never recorded).
    pub fn take(&mut self, url: &str) -> (keys: Vec<String>)
        ensures
            final(self)@ == old(self)@.remove(url@),
            texts(keys@) == (if old(self)@.contains_key(url@) {
                old(self)@[url@]
            } else {
                Seq::empty()
            }),
    {
        let ghost before = self.by_url@;
        let keys = match self.by_url.finish(url) {
            Some(k) => k,
            None => Vec::new(),
        };
        assert(self@ =~= old(self)@.remove(url@));
        assert(!before.contains_key(url@) ==> texts(keys@) =~= Seq::<Seq<char>>::empty());
        keys
    }
}

/// Recording a served key for a source: afterwards the source lists that
/// key; every key listed before is still listed, in its place; the list
/// grows by one key at most, and only when the key was new; and a list
/// without repeats keeps none.
pub proof fn lemma_recorded_keys(
    index: Map<Seq<char>, Seq<Seq<char>>>,
    url: Seq<char>,
    key: Seq<char>,
)
    ensures
        keys_after(index, url, key).contains(key),
        index.contains_key(url) ==> index[url].is_prefix_of(keys_after(index, url, key)),
        index.contains_key(url) && index[url].contains(key) ==> keys_after(index, url, key)
            == index[url],
        index.contains_key(url) && !index[url].contains(key) ==> keys_after(index, url, key).len()
            == index[url].len() + 1,
        !index.contains_key(url) ==> keys_after(index, url, key).len() == 1,
        (index.contains_key(url) ==> index[url].no_duplicates()) ==> keys_after(
            index,
            url,
            key,
        ).no_duplicates(),
{
    if index.contains_key(url) {
        let old_keys = index[url];
        if !old_keys.contains(key) {
            let new_keys = old_keys.push(key);
            assert(new_keys[old_keys.len() as int] == key);
            assert(new_keys.subrange(0, old_keys.len() as int) =~= old_keys);
        }
    } else {
        assert(seq![key][0] == key);
    }
}

} // verus!
