//! A table from owner identifiers to byte strings, one entry per owner: the
//! owners' public keys in a registry, their signatures in a ledger.

use vstd::prelude::*;

verus! {

/// The abstract content of a table: (owner, bytes) pairs in insertion order.
pub type Entries = Seq<(Seq<char>, Seq<u8>)>;

/// No owner occurs twice.
pub open spec fn keys_unique(s: Entries) -> bool {
    forall|i: int, j: int|
        0 <= i < s.len() && 0 <= j < s.len() && i != j ==> #[trigger] s[i].0 != #[trigger] s[j].0
}

/// Whether `o` has an entry.
pub open spec fn has_owner(s: Entries, o: Seq<char>) -> bool {
    exists|i: int| 0 <= i < s.len() && #[trigger] s[i].0 == o
}

/// The position of `o`'s entry (meaningful where `has_owner(s, o)`).
pub open spec fn owner_index(s: Entries, o: Seq<char>) -> int {
    choose|i: int| 0 <= i < s.len() && #[trigger] s[i].0 == o
}

/// The bytes held for `o` (meaningful where `has_owner(s, o)`).
pub open spec fn bytes_of(s: Entries, o: Seq<char>) -> Seq<u8> {
    s[owner_index(s, o)].1
}

/// The table after storing `v` for `o`: an existing entry of `o` is replaced
/// in place, otherwise a new entry is appended.
pub open spec fn upserted(s: Entries, o: Seq<char>, v: Seq<u8>) -> Entries {
    if has_owner(s, o) {
        s.update(owner_index(s, o), (o, v))
    } else {
        s.push((o, v))
    }
}

/// The table as a map from owner to bytes.
pub open spec fn as_map(s: Entries) -> Map<Seq<char>, Seq<u8>> {
    Map::new(|o: Seq<char>| has_owner(s, o), |o: Seq<char>| bytes_of(s, o))
}

/// The abstract content of a vector of (owner, bytes) pairs.
pub open spec fn pairs_view(p: Seq<(String, Vec<u8>)>) -> Entries {
    Seq::new(p.len(), |i: int| (p[i].0@, p[i].1@))
}

/// One (owner, bytes) pair.
pub struct OwnerEntry {
    pub owner: String,
    pub bytes: Vec<u8>,
}

/// A table keyed by owner identifier, with at most one entry per owner.
pub struct OwnerMap {
    entries: Vec<OwnerEntry>,
}

impl View for OwnerMap {
    type V = Entries;

    closed spec fn view(&self) -> Entries {
        Seq::new(
            self.entries@.len(),
            |i: int| (self.entries@[i].owner@, self.entries@[i].bytes@),
        )
    }
}

impl OwnerMap {
    /// The table's invariant: one entry per owner.
    pub open spec fn wf(&self) -> bool {
        keys_unique(self@)
    }

    /// The empty table.
    pub fn new() -> (r: OwnerMap)
        ensures
            r@ == Seq::<(Seq<char>, Seq<u8>)>::empty(),
            r.wf(),
    {
        OwnerMap { entries: Vec::new() }
    }

    /// Builds a table from (owner, bytes) pairs in order; `None` exactly when
    /// some owner occurs twice.
    pub fn from_pairs(pairs: Vec<(String, Vec<u8>)>) -> (r: Option<OwnerMap>)
        ensures
            r is Some <==> keys_unique(pairs_view(pairs@)),
            r matches Some(m) ==> m.wf() && m@ == pairs_view(pairs@),
    {
        let ghost pv = pairs_view(pairs@);
        let ghost all = pairs@;
        let mut m = OwnerMap::new();
        let mut rest = pairs;
        while rest.len() > 0
            invariant
                m.wf(),
                pv == pairs_view(all),
                all == pairs@,
                m@.len() + rest@.len() == all.len(),
                rest@ == all.subrange(m@.len() as int, all.len() as int),
                m@ == pv.take(m@.len() as int),
                keys_unique(pv.take(m@.len() as int)),
            decreases rest@.len(),
        {
            let ghost i = m@.len() as int;
            let (owner, bytes) = rest.remove(0);
            assert(owner@ == pv[i].0 && bytes@ == pv[i].1);
            if m.contains(owner.as_str()) {
                proof {
                    let j = choose|j: int| 0 <= j < m@.len() && #[trigger] m@[j].0 == owner@;
                    assert(m@ == pv.take(i));
                    assert(pv.take(i)[j] == pv[j]);
                    assert(pv[j].0 == pv[i].0);
                    assert(j != i && 0 <= j < pv.len() && 0 <= i < pv.len());
                    assert(!keys_unique(pv));
                }
                return None;
            }
            m.insert(owner.as_str(), bytes);
            assert(m@ =~= pv.take(i + 1));
            assert(rest@ =~= all.subrange(i + 1, all.len() as int));
        }
        assert(pv.take(all.len() as int) =~= pv);
        Some(m)
    }

    /// The number of entries.
    pub fn len(&self) -> (r: usize)
        ensures
            r == self@.len(),
    {
        self.entries.len()
    }

    /// The owner of the `i`-th entry.
    pub fn owner_at(&self, i: usize) -> (r: &String)
        requires
            i < self@.len(),
        ensures
            r@ == self@[i as int].0,
    {
        &self.entries[i].owner
    }

    /// The bytes of the `i`-th entry.
    pub fn bytes_at(&self, i: usize) -> (r: &Vec<u8>)
        requires
            i < self@.len(),
        ensures
            r@ == self@[i as int].1,
    {
        &self.entries[i].bytes
    }

    /// The position of `owner`'s entry, if it has one.
    pub fn position(&self, owner: &str) -> (r: Option<usize>)
        ensures
            r is None <==> !has_owner(self@, owner@),
            r matches Some(i) ==> i < self@.len() && self@[i as int].0 == owner@,
            self.wf() ==> (r matches Some(i) ==> i == owner_index(self@, owner@)),
    {
        let key = owner.to_owned();
        let n = self.entries.len();
        let mut i: usize = 0;
        while i < n
            invariant
                n == self@.len(),
                key@ == owner@,
                0 <= i <= n,
                forall|j: int| 0 <= j < i ==> #[trigger] self@[j].0 != owner@,
            decreases n - i,
        {
            if self.entries[i].owner == key {
                proof {
                    assert(self@[i as int].0 == owner@);
                    if self.wf() {
                        let k = owner_index(self@, owner@);
                        assert(k == i);
                    }
                }
                return Some(i);
            }
            i = i + 1;
        }
        None
    }

    /// Whether `owner` has an entry.
    pub fn contains(&self, owner: &str) -> (r: bool)
        ensures
            r == has_owner(self@, owner@),
    {
        self.position(owner).is_some()
    }

    /// The bytes held for `owner`, if any.
    pub fn get(&self, owner: &str) -> (r: Option<&Vec<u8>>)
        requires
            self.wf(),
        ensures
            r is None <==> !has_owner(self@, owner@),
            r matches Some(b) ==> b@ == bytes_of(self@, owner@),
    {
        match self.position(owner) {
            Some(i) => Some(&self.entries[i].bytes),
            None => None,
        }
    }

    /// Stores `bytes` for `owner`, replacing the owner's earlier entry if any.
    pub fn insert(&mut self, owner: &str, bytes: Vec<u8>)
        requires
            old(self).wf(),
        ensures
            final(self).wf(),
            final(self)@ == upserted(old(self)@, owner@, bytes@),
    {
        let ghost o = owner@;
        let ghost v = bytes@;
        match self.position(owner) {
            Some(i) => {
                self.entries.set(i, OwnerEntry { owner: owner.to_owned(), bytes });
                assert(self@ =~= old(self)@.update(i as int, (o, v)));
            },
            None => {
                self.entries.push(OwnerEntry { owner: owner.to_owned(), bytes });
                assert(self@ =~= old(self)@.push((o, v)));
            },
        }
    }
}

/// Storing bytes for an owner keeps one entry per owner, gives that owner
/// exactly the stored bytes, leaves every other owner's entry as it was, and
/// adds an entry only for an owner that had none.
pub proof fn lemma_upsert_effect(s: Entries, o: Seq<char>, v: Seq<u8>)
    requires
        keys_unique(s),
    ensures
        keys_unique(upserted(s, o, v)),
        has_owner(upserted(s, o, v), o),
        bytes_of(upserted(s, o, v), o) == v,
        upserted(s, o, v).len() == if has_owner(s, o) {
            s.len()
        } else {
            s.len() + 1
        },
        as_map(upserted(s, o, v)) == as_map(s).insert(o, v),
{
    let t = upserted(s, o, v);
    if has_owner(s, o) {
        let k = owner_index(s, o);
        assert(t[k].0 == o);
        assert forall|p: Seq<char>| has_owner(t, p) <==> has_owner(s, p) by {
            if has_owner(t, p) {
                let i = choose|i: int| 0 <= i < t.len() && #[trigger] t[i].0 == p;
                assert(s[i].0 == p);
            }
            if has_owner(s, p) {
                let i = choose|i: int| 0 <= i < s.len() && #[trigger] s[i].0 == p;
                assert(t[i].0 == p);
            }
        }
        assert forall|p: Seq<char>| has_owner(t, p) && p != o implies bytes_of(t, p) == bytes_of(s, p) by {
            let i = owner_index(t, p);
            assert(t[i].0 == p);
            assert(i != k);
            assert(s[i].0 == p);
        }
    } else {
        assert(t[s.len() as int].0 == o);
        assert forall|p: Seq<char>| has_owner(t, p) <==> (has_owner(s, p) || p == o) by {
            if has_owner(t, p) {
                let i = choose|i: int| 0 <= i < t.len() && #[trigger] t[i].0 == p;
                if i < s.len() {
                    assert(s[i].0 == p);
                }
            }
            if has_owner(s, p) {
                let i = choose|i: int| 0 <= i < s.len() && #[trigger] s[i].0 == p;
                assert(t[i].0 == p);
            }
        }
        assert forall|p: Seq<char>| has_owner(t, p) && p != o implies bytes_of(t, p) == bytes_of(s, p) by {
            let i = owner_index(t, p);
            assert(t[i].0 == p);
            assert(i != s.len());
            assert(s[i].0 == p);
        }
    }
    assert(as_map(t) =~= as_map(s).insert(o, v));
}

/// Storing twice for the same owner is the same as storing the second value
/// once: the owner keeps a single entry, holding the later value. So storing
/// the same value twice is the same as storing it once.
pub proof fn lemma_upsert_twice(s: Entries, o: Seq<char>, v1: Seq<u8>, v2: Seq<u8>)
    requires
        keys_unique(s),
    ensures
        upserted(upserted(s, o, v1), o, v2) == upserted(s, o, v2),
        upserted(upserted(s, o, v1), o, v1) == upserted(s, o, v1),
{
    lemma_upsert_twice_one(s, o, v1, v2);
    lemma_upsert_twice_one(s, o, v1, v1);
}

proof fn lemma_upsert_twice_one(s: Entries, o: Seq<char>, v1: Seq<u8>, v2: Seq<u8>)
    requires
        keys_unique(s),
    ensures
        upserted(upserted(s, o, v1), o, v2) == upserted(s, o, v2),
{
    lemma_upsert_effect(s, o, v1);
    let t = upserted(s, o, v1);
    if has_owner(s, o) {
        let k = owner_index(s, o);
        assert(t[k].0 == o);
        let k2 = owner_index(t, o);
        assert(k2 == k);
        assert(upserted(t, o, v2) =~= upserted(s, o, v2));
    } else {
        let k = s.len() as int;
        assert(t[k].0 == o);
        let k2 = owner_index(t, o);
        assert(k2 == k);
        assert(upserted(t, o, v2) =~= upserted(s, o, v2));
    }
}

} // verus!
