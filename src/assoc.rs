//! A small associative table keyed by strings, with unique keys and
//! insertion order kept.

use vstd::prelude::*;

verus! {

/// Whether two character vectors hold the same characters.
pub fn chars_eq(a: &Vec<char>, b: &Vec<char>) -> (r: bool)
    ensures
        r == (a@ == b@),
{
    if a.len() != b.len() {
        return false;
    }
    let mut i: usize = 0;
    while i < a.len()
        invariant
            a@.len() == b@.len(),
            i <= a@.len(),
            forall|k: int| 0 <= k < i ==> a@[k] == b@[k],
        decreases a@.len() - i,
    {
        if a[i] != b[i] {
            return false;
        }
        i = i + 1;
    }
    assert(a@ =~= b@);
    true
}

/// Entries keyed by a character sequence; each key occurs once.
pub struct Assoc<V> {
    keys: Vec<Vec<char>>,
    vals: Vec<V>,
    map: Ghost<Map<Seq<char>, V>>,
}

impl<V> Assoc<V> {
    /// The table as a map from key to value.
    pub closed spec fn view(&self) -> Map<Seq<char>, V> {
        self.map@
    }

    /// The key stored at position `i`.
    pub closed spec fn key_at(&self, i: int) -> Seq<char> {
        self.keys@[i]@
    }

    /// The number of entries.
    pub closed spec fn size(&self) -> nat {
        self.keys@.len()
    }

    pub closed spec fn wf(&self) -> bool {
        &&& self.keys@.len() == self.vals@.len()
        &&& self.map@.dom().finite()
        &&& self.map@.dom().len() == self.keys@.len()
        &&& forall|i: int| 0 <= i < self.keys@.len() ==> #[trigger] self.map@.contains_key(self.keys@[i]@)
            && self.map@[self.keys@[i]@] == self.vals@[i]
        &&& forall|k: Seq<char>| #[trigger] self.map@.contains_key(k) ==> exists|i: int|
            0 <= i < self.keys@.len() && self.keys@[i]@ == k
        &&& forall|i: int, j: int| 0 <= i < j < self.keys@.len() ==> self.keys@[i]@ != self.keys@[j]@
    }

    /// Every position holds a key of the map, and every key has a position.
    pub proof fn lemma_positions(&self)
        requires
            self.wf(),
        ensures
            forall|i: int| 0 <= i < self.size() ==> #[trigger] self.view().contains_key(self.key_at(i)),
            forall|k: Seq<char>| #[trigger] self.view().contains_key(k) ==> exists|i: int|
                0 <= i < self.size() && self.key_at(i) == k,
            self.view().dom().len() == self.size(),
    {
        assert forall|k: Seq<char>| #[trigger] self.view().contains_key(k) implies exists|i: int|
            0 <= i < self.size() && self.key_at(i) == k by {
            let i = choose|i: int| 0 <= i < self.keys@.len() && self.keys@[i]@ == k;
            assert(self.key_at(i) == k);
        }
    }

    /// An empty table.
    pub fn new() -> (r: Self)
        ensures
            r.wf(),
            r.view() == Map::<Seq<char>, V>::empty(),
    {
        Assoc { keys: Vec::new(), vals: Vec::new(), map: Ghost(Map::empty()) }
    }

    /// The number of entries.
    pub fn len(&self) -> (r: usize)
        requires
            self.wf(),
        ensures
            r == self.size(),
            r == self.view().dom().len(),
    {
        self.keys.len()
    }

    /// The key at position `i`.
    pub fn key(&self, i: usize) -> (r: &Vec<char>)
        requires
            self.wf(),
            i < self.size(),
        ensures
            r@ == self.key_at(i as int),
            self.view().contains_key(r@),
    {
        &self.keys[i]
    }

    /// The value at position `i`.
    pub fn value(&self, i: usize) -> (r: &V)
        requires
            self.wf(),
            i < self.size(),
        ensures
            self.view().contains_key(self.key_at(i as int)),
            *r == self.view()[self.key_at(i as int)],
    {
        &self.vals[i]
    }

    /// The position of key `k`, if present.
    pub fn position(&self, k: &Vec<char>) -> (r: Option<usize>)
        requires
            self.wf(),
        ensures
            match r {
                Some(i) => i < self.size() && self.key_at(i as int) == k@ && self.view().contains_key(k@),
                None => !self.view().contains_key(k@),
            },
    {
        let mut i: usize = 0;
        while i < self.keys.len()
            invariant
                self.wf(),
                i <= self.keys@.len(),
                forall|j: int| 0 <= j < i ==> self.keys@[j]@ != k@,
            decreases self.keys@.len() - i,
        {
            if chars_eq(&self.keys[i], k) {
                return Some(i);
            }
            i = i + 1;
        }
        None
    }

    /// The value under key `k`, if present.
    pub fn get(&self, k: &Vec<char>) -> (r: Option<&V>)
        requires
            self.wf(),
        ensures
            match r {
                Some(v) => self.view().contains_key(k@) && *v == self.view()[k@],
                None => !self.view().contains_key(k@),
            },
    {
        match self.position(k) {
            Some(i) => Some(&self.vals[i]),
            None => None,
        }
    }

    /// Sets the value under key `k`, replacing an earlier one.
    pub fn insert(&mut self, k: Vec<char>, v: V)
        requires
            old(self).wf(),
        ensures
            final(self).wf(),
            final(self).view() == old(self).view().insert(k@, v),
    {
        let ghost m = self.map@;
        match self.position(&k) {
            Some(i) => {
                self.vals.set(i, v);
                self.map = Ghost(m.insert(k@, v));
                assert(m.dom().insert(k@) =~= m.dom());
                assert forall|kk: Seq<char>| #[trigger] self.map@.contains_key(kk) implies exists|j: int|
                    0 <= j < self.keys@.len() && self.keys@[j]@ == kk by {
                    if kk != k@ {
                        assert(m.contains_key(kk));
                    }
                }
            },
            None => {
                let ghost old_keys = self.keys@;
                self.keys.push(k);
                self.vals.push(v);
                self.map = Ghost(m.insert(k@, v));
                assert forall|kk: Seq<char>| #[trigger] self.map@.contains_key(kk) implies exists|j: int|
                    0 <= j < self.keys@.len() && self.keys@[j]@ == kk by {
                    if kk != k@ {
                        assert(m.contains_key(kk));
                        let j = choose|j: int| 0 <= j < old_keys.len() && old_keys[j]@ == kk;
                        assert(self.keys@[j]@ == kk);
                    } else {
                        assert(self.keys@[old_keys.len() as int]@ == kk);
                    }
                }
            },
        }
    }
}

} // verus!
