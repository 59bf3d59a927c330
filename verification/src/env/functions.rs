//! The functions of a shell: a map from names to command trees. A name that
//! is defined here is looked up before any program of that name.

use crate::env::names::{ascending, NameMap};
use crate::lang::ast::{Command, CommandView};
use crate::text::{chars_of, copy_chars, string_of};
use vstd::prelude::*;

verus! {

pub type Name = String;

pub type Value = Command;

/// The functions, kept in the order of their names.
pub struct Functions {
    map: NameMap<Command>,
}

impl View for Functions {
    type V = Map<Seq<char>, CommandView>;

    closed spec fn view(&self) -> Map<Seq<char>, CommandView> {
        self.map.map().map_values(|c: Command| c@)
    }
}

impl Functions {
    /// No functions.
    pub fn new() -> (f: Functions)
        ensures
            f@ == Map::<Seq<char>, CommandView>::empty(),
    {
        let f = Functions { map: NameMap::new() };
        assert(f@ =~= Map::<Seq<char>, CommandView>::empty());
        f
    }

    /// Defines the function `name` as `body`, whether or not it was defined.
    pub fn insert(&mut self, name: &str, body: Command)
        ensures
            final(self)@ == old(self)@.insert(name@, body@),
    {
        self.map.insert(chars_of(name), body);
        assert(self@ =~= old(self)@.insert(name@, body@));
    }

    /// Leaves `k` undefined. Doing so again changes nothing.
    pub fn remove(&mut self, k: &str)
        ensures
            final(self)@ == old(self)@.remove(k@),
    {
        self.map.remove(&chars_of(k));
        assert(self@ =~= old(self)@.remove(k@));
    }

    /// A copy of the body of the function `k`, if it is defined.
    pub fn value(&self, k: &str) -> (body: Option<Command>)
        ensures
            match body {
                Some(c) => self@.contains_key(k@) && c@ == self@[k@],
                None => !self@.contains_key(k@),
            },
    {
        match self.map.get(&chars_of(k)) {
            Some(c) => Some(c.duplicate()),
            None => None,
        }
    }

    /// Whether the function `k` is defined.
    pub fn is_defined(&self, k: &str) -> (b: bool)
        ensures
            b == self@.contains_key(k@),
    {
        self.map.get(&chars_of(k)).is_some()
    }

    /// The names of the functions, in ascending order.
    pub fn names(&self) -> (v: Vec<String>)
        ensures
            ascending(Seq::new(v@.len(), |i: int| v@[i]@)),
            forall|k: Seq<char>|
                self@.contains_key(k) <==> Seq::new(v@.len(), |i: int| v@[i]@).contains(k),
    {
        let n = self.map.len();
        let mut v: Vec<String> = Vec::new();
        let mut i: usize = 0;
        while i < n
            invariant
                i <= n,
                n == self.map.names().len(),
                v@.len() == i,
                forall|j: int| 0 <= j < i ==> v@[j]@ == self.map.names()[j],
            decreases n - i,
        {
            v.push(string_of(self.map.name_at(i)));
            i += 1;
        }
        assert(Seq::new(v@.len(), |i: int| v@[i]@) =~= self.map.names());
        v
    }
}

impl Clone for Functions {
    fn clone(&self) -> (r: Self)
        ensures
            r@ == self@,
    {
        let n = self.map.len();
        let mut r = Functions::new();
        let mut i: usize = 0;
        while i < n
            invariant
                i <= n,
                n == self.map.names().len(),
                forall|k: Seq<char>|
                    r@.contains_key(k) <==> exists|j: int|
                        0 <= j < i && self.map.names()[j] == k,
                forall|k: Seq<char>| r@.contains_key(k) ==> self@.contains_key(k) && r@[k] == self@[k],
            decreases n - i,
        {
            let ghost before = r@;
            let name = self.map.name_at(i);
            let value = self.map.value_at(i);
            let ghost key = name@;
            let copy = value.duplicate();
            r.map.insert(copy_chars(name), copy);
            proof {
                assert(r@ =~= before.insert(key, value@));
                assert forall|k: Seq<char>| r@.contains_key(k) implies exists|j: int|
                    0 <= j < i + 1 && self.map.names()[j] == k by {
                    if k == key {
                        assert(self.map.names()[i as int] == k);
                    } else {
                        let j = choose|j: int| 0 <= j < i && self.map.names()[j] == k;
                        assert(0 <= j < i + 1 && self.map.names()[j] == k);
                    }
                }
            }
            i += 1;
        }
        proof {
            assert forall|k: Seq<char>| self@.contains_key(k) implies r@.contains_key(k) by {
                let j = self.map.names().index_of(k);
                assert(0 <= j < n && self.map.names()[j] == k);
            }
            assert(r@ =~= self@);
        }
        r
    }
}

} // verus!
