//! The authoritative in-memory key-value mapping.
//!
//! A `Store` is an association list of `(key, value)` pairs with pairwise
//! distinct keys; its abstract value is a `Map<Seq<char>, Seq<char>>`.

use vstd::prelude::*;

verus! {

/// The map denoted by a sequence of entries; a later entry for the same key
/// wins.
pub open spec fn entries_map(es: Seq<(String, String)>) -> Map<Seq<char>, Seq<char>>
    decreases es.len(),
{
    if es.len() == 0 {
        Map::empty()
    } else {
        entries_map(es.drop_last()).insert(es.last().0@, es.last().1@)
    }
}

/// All keys of the entry sequence are pairwise distinct.
pub open spec fn distinct_keys(es: Seq<(String, String)>) -> bool {
    forall|i: int, j: int| 0 <= i < j < es.len() ==> es[i].0@ != es[j].0@
}

/// The in-memory key-value store.
pub struct Store {
    pub(crate) entries: Vec<(String, String)>,
}

impl View for Store {
    type V = Map<Seq<char>, Seq<char>>;

    closed spec fn view(&self) -> Map<Seq<char>, Seq<char>> {
        entries_map(self.entries@)
    }
}

/// Every key of `es` lands in the map, with the value of its last entry;
/// under distinct keys, with the value of its only entry.
proof fn lemma_entries_map_index(es: Seq<(String, String)>, i: int)
    requires
        distinct_keys(es),
        0 <= i < es.len(),
    ensures
        entries_map(es).contains_key(es[i].0@),
        entries_map(es)[es[i].0@] == es[i].1@,
    decreases es.len(),
{
    if i == es.len() - 1 {
    } else {
        lemma_entries_map_index(es.drop_last(), i);
        assert(es.drop_last()[i] == es[i]);
        assert(es.last().0@ != es[i].0@);
    }
}

/// A key that no entry carries is absent from the map.
proof fn lemma_entries_map_absent(es: Seq<(String, String)>, k: Seq<char>)
    requires
        forall|i: int| 0 <= i < es.len() ==> es[i].0@ != k,
    ensures
        !entries_map(es).contains_key(k),
    decreases es.len(),
{
    if es.len() == 0 {
    } else {
        assert(forall|i: int| 0 <= i < es.drop_last().len() ==> es.drop_last()[i] == es[i]);
        lemma_entries_map_absent(es.drop_last(), k);
    }
}

/// Appending an entry inserts its pair into the map.
proof fn lemma_entries_map_push(es: Seq<(String, String)>, e: (String, String))
    ensures
        entries_map(es.push(e)) == entries_map(es).insert(e.0@, e.1@),
{
    assert(es.push(e).drop_last() =~= es);
    assert(es.push(e).last() == e);
}

/// Removing the entry that carries key `k` leaves a map that regains the old
/// one when `(k, value of that entry)` is inserted back.
proof fn lemma_entries_map_remove(es: Seq<(String, String)>, i: int)
    requires
        distinct_keys(es),
        0 <= i < es.len(),
    ensures
        entries_map(es) == entries_map(es.remove(i)).insert(es[i].0@, es[i].1@),
    decreases es.len(),
{
    if i == es.len() - 1 {
        assert(es.remove(i) =~= es.drop_last());
    } else {
        let prior = es.drop_last();
        assert(forall|j: int| 0 <= j < prior.len() ==> prior[j] == es[j]);
        lemma_entries_map_remove(prior, i);
        assert(es.remove(i).drop_last() =~= prior.remove(i));
        assert(es.remove(i).last() == es.last());
        // The two inserts commute because the removed key differs from the
        // last entry's key.
        assert(es[i].0@ != es.last().0@);
        assert(entries_map(prior.remove(i)).insert(es[i].0@, es[i].1@).insert(
            es.last().0@,
            es.last().1@,
        ) =~= entries_map(prior.remove(i)).insert(es.last().0@, es.last().1@).insert(
            es[i].0@,
            es[i].1@,
        ));
    }
}

impl Store {
    /// Distinct keys: the representation invariant every constructor
    /// establishes and every method preserves.
    pub closed spec fn wf(&self) -> bool {
        distinct_keys(self.entries@)
    }

    /// The empty store.
    pub fn new() -> (s: Store)
        ensures
            s.wf(),
            s@ == Map::<Seq<char>, Seq<char>>::empty(),
    {
        Store { entries: Vec::new() }
    }

    /// A store built from entries with pairwise distinct keys.
    pub(crate) fn from_entries(entries: Vec<(String, String)>) -> (s: Store)
        requires
            distinct_keys(entries@),
        ensures
            s.wf(),
            s@ == entries_map(entries@),
    {
        Store { entries }
    }

    /// The entries the store holds, for the snapshot codec.
    pub(crate) fn snapshot_entries(&self) -> (r: &Vec<(String, String)>)
        requires
            self.wf(),
        ensures
            distinct_keys(r@),
            entries_map(r@) == self@,
    {
        &self.entries
    }

    /// The current value for `key`, or absence. Never fails; absence is not
    /// an error.
    pub fn get(&self, key: &String) -> (r: Option<String>)
        requires
            self.wf(),
        ensures
            match r {
                Some(v) => self@.contains_key(key@) && v@ == self@[key@],
                None => !self@.contains_key(key@),
            },
    {
        let n: usize = self.entries.len();
        let mut i: usize = 0;
        while i < n
            invariant
                self.wf(),
                n == self.entries@.len(),
                0 <= i <= n,
                forall|j: int| 0 <= j < i ==> self.entries@[j].0@ != key@,
            decreases n - i,
        {
            let e = &self.entries[i];
            if e.0 == *key {
                proof {
                    lemma_entries_map_index(self.entries@, i as int);
                }
                return Some(e.1.clone());
            }
            i += 1;
        }
        proof {
            lemma_entries_map_absent(self.entries@, key@);
        }
        None
    }

    /// Inserts or overwrites `key` with `value` in memory and reports
    /// success. Success depends only on the in-memory mutation; persistence
    /// is the snapshot codec's business.
    pub fn set(&mut self, key: String, value: String) -> (success: bool)
        requires
            old(self).wf(),
        ensures
            final(self).wf(),
            final(self)@ == old(self)@.insert(key@, value@),
            success,
    {
        let n: usize = self.entries.len();
        let mut i: usize = 0;
        while i < n
            invariant
                self == old(self),
                self.wf(),
                n == self.entries@.len(),
                0 <= i <= n,
                forall|j: int| 0 <= j < i ==> self.entries@[j].0@ != key@,
            decreases n - i,
        {
            let e = &self.entries[i];
            if e.0 == key {
                let ghost before = self.entries@;
                proof {
                    lemma_entries_map_remove(before, i as int);
                }
                self.entries.remove(i);
                proof {
                    let after = self.entries@;
                    assert forall|a: int, b: int| 0 <= a < b < after.len() implies after[a].0@
                        != after[b].0@ by {
                        assert(after[a] == (if a < i { before[a] } else { before[a + 1] }));
                        assert(after[b] == (if b < i { before[b] } else { before[b + 1] }));
                    }
                    assert forall|a: int| 0 <= a < after.len() implies after[a].0@ != key@ by {
                        assert(after[a] == (if a < i { before[a] } else { before[a + 1] }));
                    }
                    lemma_entries_map_push(after, (key, value));
                    assert(entries_map(before.remove(i as int)).insert(key@, value@) =~= entries_map(
                        before,
                    ).insert(key@, value@));
                }
                self.entries.push((key, value));
                return true;
            }
            i += 1;
        }
        proof {
            lemma_entries_map_absent(self.entries@, key@);
            lemma_entries_map_push(self.entries@, (key, value));
        }
        self.entries.push((key, value));
        true
    }
}

/// A key never written is absent: the empty store holds no key, and writing
/// one key leaves every other key exactly as it was.
pub proof fn lemma_unwritten_key_absent(
    m: Map<Seq<char>, Seq<char>>,
    k: Seq<char>,
    other: Seq<char>,
    v: Seq<char>,
)
    ensures
        !Map::<Seq<char>, Seq<char>>::empty().contains_key(k),
        other != k ==> m.insert(other, v).contains_key(k) == m.contains_key(k),
        other != k && m.contains_key(k) ==> m.insert(other, v)[k] == m[k],
{
}

/// Read-your-writes: after a write, a read of the same key sees exactly the
/// written value.
pub proof fn lemma_set_then_get(m: Map<Seq<char>, Seq<char>>, k: Seq<char>, v: Seq<char>)
    ensures
        m.insert(k, v).contains_key(k),
        m.insert(k, v)[k] == v,
{
}

/// Writing the same pair twice leaves the store in the same observable state
/// as writing it once.
pub proof fn lemma_set_idempotent(m: Map<Seq<char>, Seq<char>>, k: Seq<char>, v: Seq<char>)
    ensures
        m.insert(k, v).insert(k, v) == m.insert(k, v),
{
    assert(m.insert(k, v).insert(k, v) =~= m.insert(k, v));
}

} // verus!
