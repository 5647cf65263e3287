//! Cache of processed results, keyed by repository, base, head and file.
//!
//! The store maps keys to encoded bytes; encoding values and reading or
//! writing the store file happen outside the library.

use vstd::prelude::*;
use crate::text::{push_str, str_eq};

verus! {

/// The key of an entry: `repo|base|head|file`.
pub open spec fn spec_key(repo: Seq<char>, base: Seq<char>, head: Seq<char>, file: Seq<char>) -> Seq<char> {
    repo + "|"@ + base + "|"@ + head + "|"@ + file
}

/// The map that a list of entries describes; a later entry for a key
/// replaces an earlier one.
pub open spec fn store_map(v: Seq<(Seq<char>, Seq<u8>)>) -> Map<Seq<char>, Seq<u8>>
    decreases v.len(),
{
    if v.len() == 0 {
        Map::empty()
    } else {
        store_map(v.drop_last()).insert(v.last().0, v.last().1)
    }
}

pub open spec fn store_views(v: Seq<(String, Vec<u8>)>) -> Seq<(Seq<char>, Seq<u8>)> {
    v.map_values(|e: (String, Vec<u8>)| (e.0@, e.1@))
}

/// Cache of encoded values, loaded once and written back after each `put`.
pub struct Cache {
    path: String,
    entries: Vec<(String, Vec<u8>)>,
}

impl View for Cache {
    type V = Map<Seq<char>, Seq<u8>>;

    closed spec fn view(&self) -> Map<Seq<char>, Seq<u8>> {
        store_map(store_views(self.entries@))
    }
}

/// Entries after position `i` that do not hold key `k` leave its value
/// as the first `i` entries set it.
proof fn lemma_store_suffix(v: Seq<(Seq<char>, Seq<u8>)>, i: int, k: Seq<char>)
    requires
        0 <= i <= v.len(),
        forall|j: int| i <= j < v.len() ==> v[j].0 != k,
    ensures
        store_map(v).dom().contains(k) == store_map(v.take(i)).dom().contains(k),
        store_map(v.take(i)).dom().contains(k) ==> store_map(v)[k] == store_map(v.take(i))[k],
    decreases v.len() - i,
{
    if i < v.len() {
        assert forall|j: int| i <= j < v.len() - 1 implies v.drop_last()[j].0 != k by {
            assert(v.drop_last()[j] == v[j]);
        }
        lemma_store_suffix(v.drop_last(), i, k);
        assert(v.drop_last().take(i) == v.take(i));
    } else {
        assert(v.take(i) == v);
    }
}

/// Replacing the last entry of a key replaces the key's value.
proof fn lemma_store_update(v: Seq<(Seq<char>, Seq<u8>)>, i: int, b: Seq<u8>)
    requires
        0 <= i < v.len(),
        forall|j: int| i < j < v.len() ==> v[j].0 != v[i].0,
    ensures
        store_map(v.update(i, (v[i].0, b))) == store_map(v).insert(v[i].0, b),
    decreases v.len(),
{
    let k = v[i].0;
    let u = v.update(i, (k, b));
    if i == v.len() - 1 {
        assert(u.drop_last() == v.drop_last());
        assert(store_map(u) =~= store_map(v).insert(k, b));
    } else {
        assert(u.drop_last() == v.drop_last().update(i, (k, b)));
        assert forall|j: int| i < j < v.drop_last().len() implies v.drop_last()[j].0 != v.drop_last()[i].0 by {
            assert(v.drop_last()[j] == v[j]);
        }
        lemma_store_update(v.drop_last(), i, b);
        assert(u.last() == v.last());
        assert(store_map(u) =~= store_map(v).insert(k, b));
    }
}

impl Cache {
    /// Where the cache is written.
    pub closed spec fn spec_path(&self) -> Seq<char> {
        self.path@
    }

    /// An empty cache that is written to `path`.
    pub fn new(path: String) -> (r: Cache)
        ensures
            r@ == Map::<Seq<char>, Seq<u8>>::empty(),
            r.spec_path() == path@,
    {
        let r = Cache { path, entries: Vec::new() };
        assert(store_views(r.entries@) =~= Seq::<(Seq<char>, Seq<u8>)>::empty());
        r
    }

    /// Where the cache is written.
    pub fn path(&self) -> (r: &str)
        ensures
            r@ == self.spec_path(),
    {
        self.path.as_str()
    }

    /// The entries to write back, in an order whose `store_map` is the cache.
    pub fn entries(&self) -> (r: &Vec<(String, Vec<u8>)>)
        ensures
            store_map(store_views(r@)) == self@,
    {
        &self.entries
    }

    /// The entry key for a file diffed between two refs of a repository.
    pub fn key(repo: &str, base: &str, head: &str, file: &str) -> (r: String)
        ensures
            r@ == spec_key(repo@, base@, head@, file@),
    {
        let mut k = String::new();
        push_str(&mut k, repo);
        push_str(&mut k, "|");
        push_str(&mut k, base);
        push_str(&mut k, "|");
        push_str(&mut k, head);
        push_str(&mut k, "|");
        push_str(&mut k, file);
        k
    }

    /// Position of the last entry whose key is `key`.
    fn find_key(&self, key: &str) -> (r: Option<usize>)
        ensures
            match r {
                Some(i) => i < self.entries@.len() && self.entries@[i as int].0@ == key@
                    && forall|j: int| i < j < self.entries@.len() ==> self.entries@[j].0@ != key@,
                None => forall|j: int| 0 <= j < self.entries@.len() ==> self.entries@[j].0@ != key@,
            },
    {
        let mut i: usize = self.entries.len();
        while i > 0
            invariant
                i <= self.entries@.len(),
                forall|j: int| i <= j < self.entries@.len() ==> self.entries@[j].0@ != key@,
            decreases i,
        {
            if str_eq(self.entries[i - 1].0.as_str(), key) {
                return Some(i - 1);
            }
            i -= 1;
        }
        None
    }

    /// The bytes stored for a file diffed between two refs, if any.
    pub fn get(&self, repo: &str, base: &str, head: &str, file: &str) -> (r: Option<Vec<u8>>)
        ensures
            match r {
                Some(b) => self@.dom().contains(spec_key(repo@, base@, head@, file@))
                    && b@ == self@[spec_key(repo@, base@, head@, file@)],
                None => !self@.dom().contains(spec_key(repo@, base@, head@, file@)),
            },
    {
        let key = Cache::key(repo, base, head, file);
        let ghost v = store_views(self.entries@);
        match self.find_key(key.as_str()) {
            Some(i) => {
                proof {
                    assert forall|j: int| i + 1 <= j < v.len() implies v[j].0 != key@ by {
                        assert(v[j].0 == self.entries@[j].0@);
                    }
                    lemma_store_suffix(v, i + 1, key@);
                    let t = v.take(i + 1);
                    assert(t.drop_last() == v.take(i as int));
                    assert(t.last() == v[i as int]);
                }
                Some(self.entries[i].1.clone())
            },
            None => {
                proof {
                    assert forall|j: int| 0 <= j < v.len() implies v[j].0 != key@ by {
                        assert(v[j].0 == self.entries@[j].0@);
                    }
                    lemma_store_suffix(v, 0, key@);
                    assert(v.take(0) =~= Seq::<(Seq<char>, Seq<u8>)>::empty());
                }
                None
            },
        }
    }

    /// Stores the bytes for a file diffed between two refs, replacing what
    /// the key held before; the caller writes the cache back.
    pub fn put(&mut self, repo: &str, base: &str, head: &str, file: &str, bytes: Vec<u8>)
        ensures
            final(self)@ == old(self)@.insert(spec_key(repo@, base@, head@, file@), bytes@),
            final(self).spec_path() == old(self).spec_path(),
    {
        let key = Cache::key(repo, base, head, file);
        let ghost v = store_views(self.entries@);
        let ghost b = bytes@;
        match self.find_key(key.as_str()) {
            Some(i) => {
                proof {
                    assert forall|j: int| i < j < v.len() implies v[j].0 != v[i as int].0 by {
                        assert(v[j].0 == self.entries@[j].0@);
                    }
                    lemma_store_update(v, i as int, b);
                }
                self.entries.set(i, (key, bytes));
                assert(store_views(self.entries@) =~= v.update(i as int, (key@, b)));
            },
            None => {
                self.entries.push((key, bytes));
                assert(store_views(self.entries@) =~= v.push((key@, b)));
                assert(store_views(self.entries@).drop_last() == v);
            },
        }
    }

    /// A cache holding the given entries (as read back from its file), a
    /// later entry for a key replacing an earlier one.
    pub fn with_entries(path: String, entries: Vec<(String, Vec<u8>)>) -> (r: Cache)
        ensures
            r@ == store_map(store_views(entries@)),
            r.spec_path() == path@,
    {
        Cache { path, entries }
    }
}

/// A value read back right after it was stored under the same repository,
/// refs and file is the value stored.
pub proof fn law_get_after_put(
    store: Map<Seq<char>, Seq<u8>>,
    repo: Seq<char>,
    base: Seq<char>,
    head: Seq<char>,
    file: Seq<char>,
    bytes: Seq<u8>,
)
    ensures
        store.insert(spec_key(repo, base, head, file), bytes).dom().contains(spec_key(repo, base, head, file)),
        store.insert(spec_key(repo, base, head, file), bytes)[spec_key(repo, base, head, file)] == bytes,
{
}

/// Storing under one key leaves every other key as it was: entries
/// accumulate.
pub proof fn law_put_keeps_other_entries(
    store: Map<Seq<char>, Seq<u8>>,
    key: Seq<char>,
    bytes: Seq<u8>,
    other: Seq<char>,
)
    requires
        other != key,
    ensures
        store.insert(key, bytes).dom().contains(other) == store.dom().contains(other),
        store.dom().contains(other) ==> store.insert(key, bytes)[other] == store[other],
{
}

} // verus!
