//! A map from names to values that keeps its names in order.

use vstd::prelude::*;

verus! {

/// The first index at or after `from` at which `a` and `b` differ or one of
/// them ends.
pub open spec fn mismatch(a: Seq<char>, b: Seq<char>, from: int) -> int
    decreases a.len() - from,
{
    if 0 <= from < a.len() && from < b.len() && a[from] == b[from] {
        mismatch(a, b, from + 1)
    } else {
        from
    }
}

/// The order of names: `a` comes before `b` when, at the first place where
/// they differ, `a` has ended or holds the smaller character.
pub open spec fn precedes(a: Seq<char>, b: Seq<char>) -> bool {
    let k = mismatch(a, b, 0);
    k < b.len() && (k == a.len() || a[k] < b[k])
}

/// Whether the names are in strictly ascending order.
pub open spec fn ascending(names: Seq<Seq<char>>) -> bool {
    forall|i: int, j: int| 0 <= i < j < names.len() ==> precedes(#[trigger] names[i], #[trigger] names[j])
}

/// What `mismatch` finds: everything from `from` up to it agrees, and at it
/// the texts differ or one has ended.
pub proof fn lemma_mismatch(a: Seq<char>, b: Seq<char>, from: int)
    requires
        0 <= from <= a.len(),
        from <= b.len(),
    ensures
        from <= mismatch(a, b, from) <= a.len(),
        mismatch(a, b, from) <= b.len(),
        forall|j: int| from <= j < mismatch(a, b, from) ==> a[j] == b[j],
        mismatch(a, b, from) == a.len() || mismatch(a, b, from) == b.len() || a[mismatch(
            a,
            b,
            from,
        )] != b[mismatch(a, b, from)],
    decreases a.len() - from,
{
    if from < a.len() && from < b.len() && a[from] == b[from] {
        lemma_mismatch(a, b, from + 1);
    }
}

/// An index with the properties of the first difference is the first
/// difference.
pub proof fn lemma_mismatch_is(a: Seq<char>, b: Seq<char>, from: int, k: int)
    requires
        0 <= from <= k <= a.len(),
        k <= b.len(),
        forall|j: int| from <= j < k ==> a[j] == b[j],
        k == a.len() || k == b.len() || a[k] != b[k],
    ensures
        mismatch(a, b, from) == k,
    decreases k - from,
{
    if from < k {
        lemma_mismatch_is(a, b, from + 1, k);
    }
}

/// No name comes before itself.
pub proof fn lemma_precedes_irreflexive(a: Seq<char>)
    ensures
        !precedes(a, a),
{
    lemma_mismatch_is(a, a, 0, a.len() as int);
}

/// Of two different names one comes before the other, and never both.
pub proof fn lemma_precedes_total(a: Seq<char>, b: Seq<char>)
    ensures
        a == b || precedes(a, b) || precedes(b, a),
        !(precedes(a, b) && precedes(b, a)),
        a == b ==> !precedes(a, b),
{
    lemma_mismatch(a, b, 0);
    let k = mismatch(a, b, 0);
    lemma_mismatch_is(b, a, 0, k);
    if k == a.len() && k == b.len() {
        assert(a =~= b);
    }
    if a == b {
        lemma_precedes_irreflexive(a);
    }
}

/// The order of names is transitive.
pub proof fn lemma_precedes_transitive(a: Seq<char>, b: Seq<char>, c: Seq<char>)
    requires
        precedes(a, b),
        precedes(b, c),
    ensures
        precedes(a, c),
{
    lemma_mismatch(a, b, 0);
    lemma_mismatch(b, c, 0);
    let k1 = mismatch(a, b, 0);
    let k2 = mismatch(b, c, 0);
    let k = if k1 <= k2 {
        k1
    } else {
        k2
    };
    lemma_mismatch_is(a, c, 0, k);
}

/// How two names stand to each other.
#[derive(Debug, Clone, Copy, PartialEq, Eq, Structural)]
pub enum Standing {
    Before,
    Same,
    After,
}

/// Compares two names.
pub fn compare(a: &Vec<char>, b: &Vec<char>) -> (r: Standing)
    ensures
        r == Standing::Before <==> precedes(a@, b@),
        r == Standing::Same <==> a@ == b@,
        r == Standing::After <==> precedes(b@, a@),
{
    let mut i: usize = 0;
    while i < a.len() && i < b.len() && a[i] == b[i]
        invariant
            i <= a.len(),
            i <= b.len(),
            mismatch(a@, b@, 0) == mismatch(a@, b@, i as int),
        decreases a.len() - i,
    {
        i += 1;
    }
    proof {
        lemma_precedes_total(a@, b@);
        lemma_mismatch(a@, b@, 0);
        lemma_mismatch_is(b@, a@, 0, i as int);
        if a@ == b@ {
            lemma_mismatch_is(a@, a@, 0, a@.len() as int);
        }
    }
    if i == a.len() {
        if i == b.len() {
            assert(a@ =~= b@);
            Standing::Same
        } else {
            Standing::Before
        }
    } else if i == b.len() {
        Standing::After
    } else if a[i] < b[i] {
        Standing::Before
    } else {
        Standing::After
    }
}

/// A map from names to values. Its entries are kept in the order of their
/// names, so no name occurs twice.
pub struct NameMap<V> {
    entries: Vec<(Vec<char>, V)>,
}

impl<V> NameMap<V> {
    #[verifier::type_invariant]
    spec fn ordered(self) -> bool {
        ascending(self.names())
    }

    /// The names, in ascending order.
    pub closed spec fn names(&self) -> Seq<Seq<char>> {
        Seq::new(self.entries@.len(), |i: int| self.entries@[i].0@)
    }

    /// The values, each at the index of its name.
    pub closed spec fn values(&self) -> Seq<V> {
        Seq::new(self.entries@.len(), |i: int| self.entries@[i].1)
    }

    /// The map itself.
    pub open spec fn map(&self) -> Map<Seq<char>, V> {
        Map::new(
            |k: Seq<char>| self.names().contains(k),
            |k: Seq<char>| self.values()[self.names().index_of(k)],
        )
    }

    /// In an ascending sequence every name stands at one index only.
    proof fn lemma_index(names: Seq<Seq<char>>, i: int)
        requires
            ascending(names),
            0 <= i < names.len(),
        ensures
            names.contains(names[i]),
            names.index_of(names[i]) == i,
    {
        let j = names.index_of(names[i]);
        assert(names[i] == names[i]);
        if j < i {
            assert(precedes(names[j], names[i]));
            lemma_precedes_irreflexive(names[i]);
        } else if i < j {
            assert(precedes(names[i], names[j]));
            lemma_precedes_irreflexive(names[i]);
        }
    }

    /// A map without entries.
    pub fn new() -> (m: NameMap<V>)
        ensures
            m.map() == Map::<Seq<char>, V>::empty(),
            m.names() == Seq::<Seq<char>>::empty(),
    {
        let m = NameMap { entries: Vec::new() };
        assert(m.names() =~= Seq::<Seq<char>>::empty());
        assert(m.map() =~= Map::<Seq<char>, V>::empty());
        m
    }

    /// The number of entries.
    pub fn len(&self) -> (n: usize)
        ensures
            n == self.names().len(),
            n == self.values().len(),
            ascending(self.names()),
    {
        proof {
            use_type_invariant(self);
        }
        self.entries.len()
    }

    /// The name at index `i` of the order.
    pub fn name_at(&self, i: usize) -> (name: &Vec<char>)
        requires
            i < self.names().len(),
        ensures
            name@ == self.names()[i as int],
    {
        &self.entries[i].0
    }

    /// The value of the name at index `i` of the order.
    pub fn value_at(&self, i: usize) -> (value: &V)
        requires
            i < self.names().len(),
        ensures
            *value == self.values()[i as int],
            self.map().contains_key(self.names()[i as int]),
            self.map()[self.names()[i as int]] == *value,
    {
        proof {
            use_type_invariant(self);
            Self::lemma_index(self.names(), i as int);
        }
        &self.entries[i].1
    }

    /// Where `name` stands: `Ok` with its index, or `Err` with the index at
    /// which it would have to be put.
    fn position(entries: &Vec<(Vec<char>, V)>, name: &Vec<char>) -> (r: Result<usize, usize>)
        requires
            ascending(Seq::new(entries@.len(), |i: int| entries@[i].0@)),
        ensures
            match r {
                Ok(i) => i < entries@.len() && entries@[i as int].0@ == name@,
                Err(i) => {
                    &&& i <= entries@.len()
                    &&& forall|j: int| 0 <= j < i ==> precedes(entries@[j].0@, name@)
                    &&& forall|j: int| i <= j < entries@.len() ==> precedes(name@, entries@[j].0@)
                },
            },
    {
        let ghost names = Seq::new(entries@.len(), |i: int| entries@[i].0@);
        let mut i: usize = 0;
        while i < entries.len()
            invariant
                i <= entries.len(),
                names == Seq::new(entries@.len(), |i: int| entries@[i].0@),
                ascending(names),
                forall|j: int| 0 <= j < i ==> precedes(entries@[j].0@, name@),
            decreases entries.len() - i,
        {
            match compare(&entries[i].0, name) {
                Standing::Before => {},
                Standing::Same => {
                    return Ok(i);
                },
                Standing::After => {
                    proof {
                        assert forall|j: int| i <= j < entries@.len() implies precedes(
                            name@,
                            entries@[j].0@,
                        ) by {
                            if j > i {
                                assert(precedes(names[i as int], names[j]));
                                lemma_precedes_transitive(name@, names[i as int], names[j]);
                            }
                        }
                    }
                    return Err(i);
                },
            }
            i += 1;
        }
        Err(i)
    }

    /// The value of `name`, if it has one.
    pub fn get(&self, name: &Vec<char>) -> (r: Option<&V>)
        ensures
            match r {
                Some(v) => self.map().contains_key(name@) && self.map()[name@] == *v,
                None => !self.map().contains_key(name@),
            },
    {
        proof {
            use_type_invariant(self);
        }
        match Self::position(&self.entries, name) {
            Ok(i) => {
                proof {
                    Self::lemma_index(self.names(), i as int);
                }
                Some(&self.entries[i].1)
            },
            Err(i) => {
                proof {
                    if self.names().contains(name@) {
                        let j = self.names().index_of(name@);
                        lemma_precedes_irreflexive(name@);
                    }
                }
                None
            },
        }
    }

    /// Gives `name` the value `value`, and hands back the value that it had.
    pub fn insert(&mut self, name: Vec<char>, value: V) -> (r: Option<V>)
        ensures
            final(self).map() == old(self).map().insert(name@, value),
            match r {
                Some(v) => old(self).map().contains_key(name@) && old(self).map()[name@] == v,
                None => !old(self).map().contains_key(name@),
            },
    {
        proof {
            use_type_invariant(&*self);
        }
        let ghost before = *self;
        let ghost key = name@;
        let mut entries: Vec<(Vec<char>, V)> = Vec::new();
        assert(Seq::new(entries@.len(), |i: int| entries@[i].0@) =~= Seq::<Seq<char>>::empty());
        std::mem::swap(&mut self.entries, &mut entries);
        assert(Seq::new(entries@.len(), |i: int| entries@[i].0@) =~= before.names());
        let ghost old_entries = entries@;
        let found = Self::position(&entries, &name);
        let ghost at: int = match found {
            Ok(i) => i as int,
            Err(i) => i as int,
        };
        let r = match found {
            Ok(i) => {
                let previous = entries.remove(i);
                entries.insert(i, (name, value));
                proof {
                    Self::lemma_index(before.names(), i as int);
                    assert(entries@ =~= old_entries.update(at, entries@[at]));
                }
                Some(previous.1)
            },
            Err(i) => {
                entries.insert(i, (name, value));
                proof {
                    if before.names().contains(key) {
                        let j = before.names().index_of(key);
                        lemma_precedes_irreflexive(key);
                    }
                }
                None
            },
        };
        let ghost names = Seq::new(entries@.len(), |i: int| entries@[i].0@);
        let ghost values = Seq::new(entries@.len(), |i: int| entries@[i].1);
        let ghost replaced = found is Ok;
        proof {
            assert(names[at] == key && values[at] == value);
            assert forall|n: int| 0 <= n < names.len() && n != at implies ({
                let o = if replaced || n < at {
                    n
                } else {
                    n - 1
                };
                0 <= o < old_entries.len() && before.names()[o] == #[trigger] names[n]
                    && before.values()[o] == values[n]
            }) by {}
            assert forall|i: int, j: int| 0 <= i < j < names.len() implies precedes(
                #[trigger] names[i],
                #[trigger] names[j],
            ) by {
                let oi = if replaced || i < at {
                    i
                } else {
                    i - 1
                };
                let oj = if replaced || j < at {
                    j
                } else {
                    j - 1
                };
                if replaced {
                    assert(names[i] == before.names()[i]);
                    assert(names[j] == before.names()[j]);
                    assert(precedes(before.names()[i], before.names()[j]));
                } else if i != at && j != at {
                    assert(precedes(before.names()[oi], before.names()[oj]));
                } else if i == at {
                    assert(names[j] == old_entries[oj].0@);
                } else {
                    assert(names[i] == old_entries[oi].0@);
                }
            }
        }
        self.entries = entries;
        proof {
            assert(self.names() =~= names);
            assert(self.values() =~= values);
            let goal = before.map().insert(key, value);
            Self::lemma_index(names, at);
            assert forall|k: Seq<char>| self.map().contains_key(k) implies #[trigger] goal.contains_key(
                k,
            ) && self.map()[k] == goal[k] by {
                let n = names.index_of(k);
                Self::lemma_index(names, n);
                if n != at {
                    let o = if replaced || n < at {
                        n
                    } else {
                        n - 1
                    };
                    Self::lemma_index(before.names(), o);
                    assert(before.names()[o] == k);
                    lemma_precedes_total(k, key);
                    if n < at {
                        assert(precedes(names[n], names[at]));
                    } else {
                        assert(precedes(names[at], names[n]));
                    }
                }
            }
            assert forall|k: Seq<char>| goal.contains_key(k) implies #[trigger] self.map().contains_key(
                k,
            ) by {
                if k != key {
                    let o = before.names().index_of(k);
                    Self::lemma_index(before.names(), o);
                    let n = if replaced || o < at {
                        o
                    } else {
                        o + 1
                    };
                    assert(names[n] == k);
                }
            }
            assert(self.map() =~= goal);
        }
        r
    }

    /// Takes `name` out of the map, and hands back the value that it had.
    pub fn remove(&mut self, name: &Vec<char>) -> (r: Option<V>)
        ensures
            final(self).map() == old(self).map().remove(name@),
            match r {
                Some(v) => old(self).map().contains_key(name@) && old(self).map()[name@] == v,
                None => !old(self).map().contains_key(name@),
            },
    {
        proof {
            use_type_invariant(&*self);
        }
        let ghost before = *self;
        let ghost key = name@;
        let at = match Self::position(&self.entries, name) {
            Ok(i) => i,
            Err(i) => {
                proof {
                    if before.names().contains(key) {
                        let j = before.names().index_of(key);
                        lemma_precedes_irreflexive(key);
                    }
                    assert(self.map() =~= before.map().remove(key));
                }
                return None;
            },
        };
        let mut entries: Vec<(Vec<char>, V)> = Vec::new();
        assert(Seq::new(entries@.len(), |i: int| entries@[i].0@) =~= Seq::<Seq<char>>::empty());
        std::mem::swap(&mut self.entries, &mut entries);
        let previous = entries.remove(at);
        let ghost names = Seq::new(entries@.len(), |i: int| entries@[i].0@);
        let ghost values = Seq::new(entries@.len(), |i: int| entries@[i].1);
        proof {
            Self::lemma_index(before.names(), at as int);
            assert forall|n: int| 0 <= n < names.len() implies ({
                let o = if n < at {
                    n
                } else {
                    n + 1
                };
                0 <= o < before.names().len() && before.names()[o] == #[trigger] names[n]
                    && before.values()[o] == values[n]
            }) by {}
            assert forall|i: int, j: int| 0 <= i < j < names.len() implies precedes(
                #[trigger] names[i],
                #[trigger] names[j],
            ) by {
                let oi = if i < at {
                    i
                } else {
                    i + 1
                };
                let oj = if j < at {
                    j
                } else {
                    j + 1
                };
                assert(precedes(before.names()[oi], before.names()[oj]));
            }
        }
        self.entries = entries;
        proof {
            assert(self.names() =~= names);
            assert(self.values() =~= values);
            let goal = before.map().remove(key);
            assert forall|k: Seq<char>| self.map().contains_key(k) implies #[trigger] goal.contains_key(
                k,
            ) && self.map()[k] == goal[k] by {
                let n = names.index_of(k);
                Self::lemma_index(names, n);
                let o = if n < at {
                    n
                } else {
                    n + 1
                };
                Self::lemma_index(before.names(), o);
                assert(before.names()[o] == k);
            }
            assert forall|k: Seq<char>| goal.contains_key(k) implies #[trigger] self.map().contains_key(
                k,
            ) by {
                let o = before.names().index_of(k);
                Self::lemma_index(before.names(), o);
                let n = if o < at {
                    o
                } else {
                    o - 1
                };
                assert(names[n] == k);
            }
            assert(self.map() =~= goal);
        }
        Some(previous.1)
    }
}

} // verus!
