use vstd::prelude::*;
use crate::error::{ErrorCode, TransportError};

verus! {

/// Entries keyed by correlation key, each key at most once: the pending
/// requests that await a response, or the callbacks that await one.
pub struct CorrelationTable<V> {
    entries: Vec<(String, V)>,
}

/// Whether no key stands twice.
pub open spec fn keys_unique<V>(e: Seq<(Seq<char>, V)>) -> bool {
    forall|i: int, j: int|
        0 <= i < e.len() && 0 <= j < e.len() && i != j ==> #[trigger] e[i].0 != #[trigger] e[j].0
}

/// The table as a map from key to entry.
pub open spec fn as_map<V>(e: Seq<(Seq<char>, V)>) -> Map<Seq<char>, V>
    decreases e.len(),
{
    if e.len() == 0 {
        Map::empty()
    } else {
        as_map(e.drop_last()).insert(e.last().0, e.last().1)
    }
}

proof fn lemma_as_map_absent<V>(e: Seq<(Seq<char>, V)>, k: Seq<char>)
    ensures
        as_map(e).contains_key(k) <==> exists|i: int| 0 <= i < e.len() && #[trigger] e[i].0 == k,
    decreases e.len(),
{
    if e.len() > 0 {
        lemma_as_map_absent(e.drop_last(), k);
        if exists|i: int| 0 <= i < e.len() && #[trigger] e[i].0 == k {
            let i = choose|i: int| 0 <= i < e.len() && #[trigger] e[i].0 == k;
            if i < e.len() - 1 {
                assert(e.drop_last()[i].0 == k);
            }
        }
        if exists|i: int| 0 <= i < e.len() - 1 && #[trigger] e.drop_last()[i].0 == k {
            let i = choose|i: int| 0 <= i < e.len() - 1 && #[trigger] e.drop_last()[i].0 == k;
            assert(e[i].0 == k);
        }
    }
}

proof fn lemma_as_map_at<V>(e: Seq<(Seq<char>, V)>, i: int)
    requires
        keys_unique(e),
        0 <= i < e.len(),
    ensures
        as_map(e).contains_key(e[i].0),
        as_map(e)[e[i].0] == e[i].1,
    decreases e.len(),
{
    if i < e.len() - 1 {
        assert(keys_unique(e.drop_last()));
        lemma_as_map_at(e.drop_last(), i);
        assert(e[e.len() - 1].0 != e[i].0);
    }
}

proof fn lemma_as_map_remove<V>(e: Seq<(Seq<char>, V)>, i: int)
    requires
        keys_unique(e),
        0 <= i < e.len(),
    ensures
        keys_unique(e.remove(i)),
        as_map(e.remove(i)) == as_map(e).remove(e[i].0),
    decreases e.len(),
{
    let r = e.remove(i);
    assert forall|a: int, b: int|
        0 <= a < r.len() && 0 <= b < r.len() && a != b implies #[trigger] r[a].0 != #[trigger] r[b].0 by {
        let aa = if a < i { a } else { a + 1 };
        let bb = if b < i { b } else { b + 1 };
        assert(r[a] == e[aa]);
        assert(r[b] == e[bb]);
    }
    if i == e.len() - 1 {
        assert(r =~= e.drop_last());
        lemma_as_map_absent(e.drop_last(), e[i].0);
        assert(as_map(r) =~= as_map(e).remove(e[i].0));
    } else {
        let d = e.drop_last();
        assert(keys_unique(d));
        lemma_as_map_remove(d, i);
        assert(r.drop_last() =~= d.remove(i));
        assert(r.last() == e.last());
        assert(e.last().0 != e[i].0);
        assert(as_map(r) =~= as_map(e).remove(e[i].0));
    }
}

impl<V> CorrelationTable<V> {
    /// The entries in the order of insertion.
    pub closed spec fn entries(&self) -> Seq<(Seq<char>, V)> {
        self.entries@.map_values(|p: (String, V)| (p.0@, p.1))
    }

    /// The table as a map from key to entry.
    pub open spec fn view(&self) -> Map<Seq<char>, V> {
        as_map(self.entries())
    }

    pub open spec fn wf(&self) -> bool {
        keys_unique(self.entries())
    }

    /// An empty table.
    pub fn new() -> (r: Self)
        ensures
            r.wf(),
            r.view() == Map::<Seq<char>, V>::empty(),
    {
        let r = CorrelationTable { entries: Vec::new() };
        assert(r.entries() =~= Seq::empty());
        r
    }

    fn find(&self, key: &String) -> (r: Option<usize>)
        requires
            self.wf(),
        ensures
            match r {
                Some(i) => i < self.entries().len() && self.entries()[i as int].0 == key@,
                None => !self.view().contains_key(key@),
            },
    {
        let mut i: usize = 0;
        while i < self.entries.len()
            invariant
                i <= self.entries@.len(),
                forall|j: int| 0 <= j < i ==> #[trigger] self.entries()[j].0 != key@,
            decreases self.entries@.len() - i,
        {
            if self.entries[i].0 == *key {
                return Some(i);
            }
            assert(self.entries()[i as int].0 == self.entries@[i as int].0@);
            i = i + 1;
        }
        proof {
            lemma_as_map_absent(self.entries(), key@);
        }
        None
    }

    /// Whether an entry waits under the key.
    pub fn contains(&self, key: &String) -> (r: bool)
        requires
            self.wf(),
        ensures
            r == self.view().contains_key(key@),
    {
        match self.find(key) {
            Some(i) => {
                proof {
                    lemma_as_map_at(self.entries(), i as int);
                }
                true
            },
            None => false,
        }
    }

    /// Puts an entry under a key, in place of any entry that was there.
    pub fn insert(&mut self, key: String, value: V)
        requires
            old(self).wf(),
        ensures
            final(self).wf(),
            final(self).view() == old(self).view().insert(key@, value),
    {
        match self.find(&key) {
            Some(i) => {
                proof {
                    lemma_as_map_remove(self.entries(), i as int);
                }
                let ghost e0 = self.entries();
                self.entries.remove(i);
                assert(self.entries() =~= e0.remove(i as int));
            },
            None => {
                proof {
                    lemma_as_map_absent(self.entries(), key@);
                }
            },
        }
        let ghost e1 = self.entries();
        let ghost k = key@;
        proof {
            lemma_as_map_absent(e1, k);
        }
        assert(!as_map(e1).contains_key(k));
        self.entries.push((key, value));
        assert(self.entries().drop_last() =~= e1);
        let ghost e2 = self.entries();
        assert forall|a: int, b: int|
            0 <= a < e2.len() && 0 <= b < e2.len() && a != b implies #[trigger] e2[a].0
            != #[trigger] e2[b].0 by {
            if a < e1.len() && b < e1.len() {
                assert(e2[a] == e1[a]);
                assert(e2[b] == e1[b]);
            } else if a < e1.len() {
                assert(e2[a] == e1[a]);
            } else {
                assert(e2[b] == e1[b]);
            }
        }
        assert(self.view() =~= old(self).view().insert(k, value));
    }

    /// Takes out the entry under a key, so that it is used once; `NotFound`
    /// when no entry waits under it.
    pub fn take(&mut self, key: &String) -> (r: Result<V, TransportError>)
        requires
            old(self).wf(),
        ensures
            final(self).wf(),
            final(self).view() == old(self).view().remove(key@),
            match r {
                Ok(v) => old(self).view().contains_key(key@) && v == old(self).view()[key@],
                Err(e) => !old(self).view().contains_key(key@) && e.code == ErrorCode::NotFound,
            },
    {
        match self.find(key) {
            Some(i) => {
                let ghost e0 = self.entries();
                proof {
                    lemma_as_map_at(e0, i as int);
                    lemma_as_map_remove(e0, i as int);
                }
                let (_, v) = self.entries.remove(i);
                assert(self.entries() =~= e0.remove(i as int));
                Ok(v)
            },
            None => {
                assert(old(self).view().remove(key@) =~= old(self).view());
                Err(TransportError::fail_with_code(ErrorCode::NotFound, "No entry for this key"))
            },
        }
    }
}

} // verus!
