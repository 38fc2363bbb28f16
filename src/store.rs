//! The key-value mapping itself: an owned store whose contents are a
//! finite map from keys to values.
use vstd::prelude::*;

verus! {

/// The set of keys held by a sequence of entries.
pub open spec fn keys_of(entries: Seq<(String, String)>) -> Seq<Seq<char>> {
    entries.map_values(|e: (String, String)| e.0@)
}

/// The views of a sequence of strings.
pub open spec fn views_of(s: Seq<String>) -> Seq<Seq<char>> {
    s.map_values(|x: String| x@)
}

/// A key-value mapping with at most one value per key.
pub struct Store {
    entries: Vec<(String, String)>,
    contents: Ghost<Map<Seq<char>, Seq<char>>>,
}

impl View for Store {
    type V = Map<Seq<char>, Seq<char>>;

    closed spec fn view(&self) -> Map<Seq<char>, Seq<char>> {
        self.contents@
    }
}

impl Store {
    /// The entries hold each key once, and their keys and values are
    /// exactly those of the mapping.
    pub closed spec fn wf(&self) -> bool {
        &&& keys_of(self.entries@).no_duplicates()
        &&& self.contents@.dom() == keys_of(self.entries@).to_set()
        &&& forall|i: int|
            0 <= i < self.entries@.len() ==> #[trigger] self.contents@[self.entries@[i].0@]
                == self.entries@[i].1@
    }

    /// A store holds finitely many keys.
    pub proof fn lemma_finite(&self)
        requires
            self.wf(),
        ensures
            self@.dom().finite(),
    {
    }

    /// Creates an empty store.
    pub fn new() -> (s: Store)
        ensures
            s.wf(),
            s@ == Map::<Seq<char>, Seq<char>>::empty(),
    {
        let s = Store { entries: Vec::new(), contents: Ghost(Map::empty()) };
        proof {
            assert(keys_of(s.entries@) =~= Seq::<Seq<char>>::empty());
            assert(s.contents@.dom() =~= keys_of(s.entries@).to_set());
        }
        s
    }

    /// The position of `key` among the entries, if it is there.
    fn find(&self, key: &String) -> (r: Option<usize>)
        requires
            self.wf(),
        ensures
            match r {
                Some(i) => i < self.entries@.len() && self.entries@[i as int].0@ == key@,
                None => !self@.contains_key(key@),
            },
    {
        let mut i: usize = 0;
        while i < self.entries.len()
            invariant
                self.wf(),
                i <= self.entries@.len(),
                forall|j: int| 0 <= j < i ==> self.entries@[j].0@ != key@,
            decreases self.entries@.len() - i,
        {
            if self.entries[i].0 == *key {
                return Some(i);
            }
            i = i + 1;
        }
        proof {
            if self@.contains_key(key@) {
                assert(keys_of(self.entries@).to_set().contains(key@));
                let j = choose|j: int|
                    0 <= j < keys_of(self.entries@).len() && keys_of(self.entries@)[j] == key@;
                assert(self.entries@[j].0@ == key@);
            }
        }
        None
    }

    proof fn lemma_value_at(&self, i: int)
        requires
            self.wf(),
            0 <= i < self.entries@.len(),
        ensures
            self@.contains_key(self.entries@[i].0@),
            self@[self.entries@[i].0@] == self.entries@[i].1@,
    {
        assert(keys_of(self.entries@)[i] == self.entries@[i].0@);
        assert(keys_of(self.entries@).to_set().contains(self.entries@[i].0@));
    }

    /// The value stored under `key`, if any.
    pub fn get(&self, key: &str) -> (r: Option<String>)
        requires
            self.wf(),
        ensures
            match r {
                Some(v) => self@.contains_key(key@) && v@ == self@[key@],
                None => !self@.contains_key(key@),
            },
    {
        let k = String::from_str(key);
        match self.find(&k) {
            Some(i) => {
                proof {
                    self.lemma_value_at(i as int);
                }
                Some(self.entries[i].1.clone())
            },
            None => None,
        }
    }

    /// Whether `key` has a value.
    pub fn contains_key(&self, key: &str) -> (r: bool)
        requires
            self.wf(),
        ensures
            r == self@.contains_key(key@),
    {
        let k = String::from_str(key);
        match self.find(&k) {
            Some(i) => {
                proof {
                    self.lemma_value_at(i as int);
                }
                true
            },
            None => false,
        }
    }

    /// The number of keys that have a value.
    pub fn size(&self) -> (r: usize)
        requires
            self.wf(),
        ensures
            r == self@.dom().len(),
    {
        proof {
            keys_of(self.entries@).unique_seq_to_set();
        }
        self.entries.len()
    }
    /// Stores `value` under `key`, replacing any earlier value.
    pub fn set(&mut self, key: String, value: String)
        requires
            old(self).wf(),
        ensures
            final(self).wf(),
            final(self)@ == old(self)@.insert(key@, value@),
    {
        let ghost k = key@;
        let ghost v = value@;
        match self.find(&key) {
            Some(i) => {
                let ghost before = self.entries@;
                proof {
                    self.lemma_value_at(i as int);
                }
                self.entries.set(i, (key, value));
                self.contents = Ghost(self.contents@.insert(k, v));
                proof {
                    assert(keys_of(self.entries@) =~= keys_of(before));
                    assert(self.contents@.dom() =~= keys_of(self.entries@).to_set());
                    assert forall|j: int| 0 <= j < self.entries@.len() implies #[trigger] self.contents@[self.entries@[j].0@]
                        == self.entries@[j].1@ by {
                        if j != i {
                            assert(keys_of(before)[j] != keys_of(before)[i as int]);
                        }
                    }
                }
            },
            None => {
                let ghost before = self.entries@;
                self.entries.push((key, value));
                self.contents = Ghost(self.contents@.insert(k, v));
                proof {
                    assert(keys_of(self.entries@) =~= keys_of(before).push(k));
                    assert(!keys_of(before).contains(k)) by {
                        if keys_of(before).contains(k) {
                            assert(keys_of(before).to_set().contains(k));
                        }
                    }
                    assert(self.contents@.dom() =~= keys_of(self.entries@).to_set()) by {
                        keys_of(before).lemma_push_to_set_commute(k);
                    }
                    assert forall|j: int| 0 <= j < self.entries@.len() implies #[trigger] self.contents@[self.entries@[j].0@]
                        == self.entries@[j].1@ by {
                        if j < before.len() {
                            assert(keys_of(before)[j] == before[j].0@);
                        }
                    }
                }
            },
        }
    }

    /// Removes `key`; true exactly when it had a value.
    pub fn del(&mut self, key: &str) -> (r: bool)
        requires
            old(self).wf(),
        ensures
            final(self).wf(),
            r == old(self)@.contains_key(key@),
            final(self)@ == old(self)@.remove(key@),
    {
        let k = String::from_str(key);
        match self.find(&k) {
            Some(i) => {
                let ghost before = self.entries@;
                let ghost ks = keys_of(before);
                let ghost old_dom = self.contents@.dom();
                proof {
                    self.lemma_value_at(i as int);
                    assert(ks[i as int] == k@);
                    assert(old_dom == ks.to_set());
                }
                let _ = self.entries.remove(i);
                self.contents = Ghost(self.contents@.remove(k@));
                proof {
                    assert(keys_of(self.entries@) =~= ks.remove(i as int));
                    assert(self.contents@.dom() =~= keys_of(self.entries@).to_set()) by {
                        assert forall|x: Seq<char>| #[trigger] keys_of(self.entries@).to_set().contains(x)
                            <==> self.contents@.dom().contains(x) by {
                            if keys_of(self.entries@).to_set().contains(x) {
                                let j = choose|j: int| 0 <= j < ks.remove(i as int).len() && ks.remove(i as int)[j] == x;
                                if j < i {
                                    assert(ks[j] == x);
                                } else {
                                    assert(ks[j + 1] == x);
                                }
                                assert(ks.to_set().contains(x));
                                assert(x != k@) by {
                                    if x == k@ {
                                        if j < i {
                                            assert(ks[j] == ks[i as int]);
                                        } else {
                                            assert(ks[j + 1] == ks[i as int]);
                                        }
                                    }
                                }
                            }
                            if self.contents@.dom().contains(x) {
                                assert(old_dom.contains(x));
                                assert(ks.to_set().contains(x));
                                let j = choose|j: int| 0 <= j < ks.len() && ks[j] == x;
                                assert(j != i);
                                if j < i {
                                    assert(ks.remove(i as int)[j] == x);
                                } else {
                                    assert(ks.remove(i as int)[j - 1] == x);
                                }
                            }
                        }
                    }
                    assert forall|j: int| 0 <= j < self.entries@.len() implies #[trigger] self.contents@[self.entries@[j].0@]
                        == self.entries@[j].1@ by {
                        if j < i {
                            assert(ks[j] != ks[i as int]);
                            assert(self.entries@[j] == before[j]);
                        } else {
                            assert(ks[j + 1] != ks[i as int]);
                            assert(self.entries@[j] == before[j + 1]);
                        }
                    }
                }
                true
            },
            None => {
                proof {
                    assert(self.contents@.remove(k@) =~= self.contents@);
                }
                false
            },
        }
    }

    /// Removes every entry.
    pub fn flush(&mut self)
        requires
            old(self).wf(),
        ensures
            final(self).wf(),
            final(self)@ == Map::<Seq<char>, Seq<char>>::empty(),
    {
        self.entries.clear();
        self.contents = Ghost(Map::empty());
        proof {
            assert(keys_of(self.entries@) =~= Seq::<Seq<char>>::empty());
            assert(self.contents@.dom() =~= keys_of(self.entries@).to_set());
        }
    }

    /// Every key that has a value, each once, in no particular order.
    pub fn keys(&self) -> (r: Vec<String>)
        requires
            self.wf(),
        ensures
            views_of(r@).no_duplicates(),
            views_of(r@).to_set() == self@.dom(),
            r@.len() == self@.dom().len(),
    {
        let mut out: Vec<String> = Vec::new();
        let mut i: usize = 0;
        while i < self.entries.len()
            invariant
                self.wf(),
                i <= self.entries@.len(),
                out@.len() == i,
                views_of(out@) == keys_of(self.entries@).subrange(0, i as int),
            decreases self.entries@.len() - i,
        {
            let ghost prev = out@;
            out.push(self.entries[i].0.clone());
            proof {
                assert(keys_of(self.entries@)[i as int] == self.entries@[i as int].0@);
                assert(out@ == prev.push(self.entries@[i as int].0));
                assert forall|j: int| 0 <= j < i + 1 implies #[trigger] views_of(out@)[j]
                    == keys_of(self.entries@)[j] by {
                    assert(views_of(out@)[j] == out@[j]@);
                    if j < i {
                        assert(out@[j] == prev[j]);
                        assert(views_of(prev)[j] == prev[j]@);
                        assert(views_of(prev)[j] == keys_of(self.entries@).subrange(0, i as int)[j]);
                    }
                }
                assert(views_of(out@) =~= keys_of(self.entries@).subrange(0, i + 1));
            }
            i = i + 1;
        }
        proof {
            assert(views_of(out@) =~= keys_of(self.entries@));
            keys_of(self.entries@).unique_seq_to_set();
        }
        out
    }
}

/// After `set(k, v)` the key has a value, and that value is `v`.
pub proof fn law_set_then_get(m: Map<Seq<char>, Seq<char>>, k: Seq<char>, v: Seq<char>)
    ensures
        m.insert(k, v).contains_key(k),
        m.insert(k, v)[k] == v,
{
}

/// A key that was never set, or that was just deleted, has no value.
pub proof fn law_absent_after_del(m: Map<Seq<char>, Seq<char>>, k: Seq<char>)
    ensures
        !m.remove(k).contains_key(k),
        !m.contains_key(k) ==> m.remove(k) == m,
{
    assert(!m.contains_key(k) ==> m.remove(k) =~= m);
}

/// A delete right after a set reports a removal, and a second delete of the
/// same key reports none and changes nothing.
pub proof fn law_del_once(m: Map<Seq<char>, Seq<char>>, k: Seq<char>, v: Seq<char>)
    ensures
        m.insert(k, v).contains_key(k),
        !m.insert(k, v).remove(k).contains_key(k),
        m.insert(k, v).remove(k).remove(k) == m.insert(k, v).remove(k),
{
    assert(m.insert(k, v).remove(k).remove(k) =~= m.insert(k, v).remove(k));
}

/// After a flush the size, the number of distinct keys, is zero, and any
/// key list that matches the flushed store is empty.
pub proof fn law_flush_empties(keys: Seq<Seq<char>>)
    requires
        keys.to_set() == Map::<Seq<char>, Seq<char>>::empty().dom(),
        keys.len() == Map::<Seq<char>, Seq<char>>::empty().dom().len(),
    ensures
        Map::<Seq<char>, Seq<char>>::empty().dom().len() == 0,
        keys == Seq::<Seq<char>>::empty(),
{
    assert(Map::<Seq<char>, Seq<char>>::empty().dom() =~= Set::<Seq<char>>::empty());
    assert(keys =~= Seq::<Seq<char>>::empty());
}

/// Setting the same value twice is the same as setting it once, and
/// flushing an empty store leaves it empty.
pub proof fn law_idempotent(m: Map<Seq<char>, Seq<char>>, k: Seq<char>, v: Seq<char>)
    ensures
        m.insert(k, v).insert(k, v) == m.insert(k, v),
        m.insert(k, v).insert(k, v)[k] == m.insert(k, v)[k],
{
    assert(m.insert(k, v).insert(k, v) =~= m.insert(k, v));
}

} // verus!
