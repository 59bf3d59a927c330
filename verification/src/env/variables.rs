//! The variables of a shell: a map from names to values, both plain text.
//! A name that is absent and a name whose value is empty are told apart.

use crate::env::names::{ascending, NameMap};
use crate::text::{chars_of, copy_chars, string_of};
use vstd::prelude::*;

verus! {

pub type Name = String;

pub type Value = String;

/// The variables, kept in the order of their names.
pub struct Variables {
    map: NameMap<String>,
}

/// A handle on one name of the variables, through which its value can be
/// read, written and given a default.
pub struct Entry<'a> {
    pub variables: &'a mut Variables,
    pub name: String,
}

impl View for Variables {
    type V = Map<Seq<char>, Seq<char>>;

    closed spec fn view(&self) -> Map<Seq<char>, Seq<char>> {
        self.map.map().map_values(|v: String| v@)
    }
}

/// What reading a name gives: its value, or the empty text where it has
/// none.
pub open spec fn value_in(vars: Map<Seq<char>, Seq<char>>, name: Seq<char>) -> Seq<char> {
    if vars.contains_key(name) {
        vars[name]
    } else {
        Seq::empty()
    }
}

/// Whether a name has a value that is not empty.
pub open spec fn set_in(vars: Map<Seq<char>, Seq<char>>, name: Seq<char>) -> bool {
    vars.contains_key(name) && vars[name].len() > 0
}

impl Variables {
    /// No variables.
    pub fn new() -> (v: Variables)
        ensures
            v@ == Map::<Seq<char>, Seq<char>>::empty(),
    {
        let v = Variables { map: NameMap::new() };
        assert(v@ =~= Map::<Seq<char>, Seq<char>>::empty());
        v
    }

    /// Gives `k` the value `v`, whether or not it had one.
    pub fn define(&mut self, k: &str, v: &str)
        ensures
            final(self)@ == old(self)@.insert(k@, v@),
            final(self)@ == Write::Define(k@, v@).apply(old(self)@),
    {
        let value = v.to_owned();
        self.map.insert(chars_of(k), value);
        assert(self@ =~= old(self)@.insert(k@, v@));
    }

    /// Leaves `k` without a value. Doing so again changes nothing.
    pub fn remove(&mut self, k: &str)
        ensures
            final(self)@ == old(self)@.remove(k@),
    {
        self.map.remove(&chars_of(k));
        assert(self@ =~= old(self)@.remove(k@));
    }

    /// The value of `k`; the empty text where it has none.
    pub fn value(&self, k: &str) -> (v: String)
        ensures
            v@ == value_in(self@, k@),
    {
        match self.map.get(&chars_of(k)) {
            Some(v) => v.clone(),
            None => String::new(),
        }
    }

    /// Whether `k` has a value, be it empty.
    pub fn is_defined(&self, k: &str) -> (b: bool)
        ensures
            b == self@.contains_key(k@),
    {
        self.map.get(&chars_of(k)).is_some()
    }

    /// Whether `k` has a value that is not empty.
    pub fn has_value(&self, k: &str) -> (b: bool)
        ensures
            b == set_in(self@, k@),
    {
        match self.map.get(&chars_of(k)) {
            Some(v) => !v.as_str().is_empty(),
            None => false,
        }
    }

    /// A handle on the name `key`.
    pub fn entry<'a>(&'a mut self, key: &str) -> (e: Entry<'a>)
        ensures
            e.variables@ == old(self)@,
            e.name@ == key@,
            *final(self) == *final(e.variables),
    {
        Entry { variables: self, name: key.to_owned() }
    }

    /// The names that have a value, in ascending order.
    pub fn names(&self) -> (v: Vec<String>)
        ensures
            ascending(Seq::new(v@.len(), |i: int| v@[i]@)),
            forall|k: Seq<char>|
                self@.contains_key(k) <==> Seq::new(v@.len(), |i: int| v@[i]@).contains(k),
    {
        let n = self.map.len();
        let mut v: Vec<String> = Vec::new();
        let mut i: usize = 0;
        while i < n
            invariant
                i <= n,
                n == self.map.names().len(),
                v@.len() == i,
                forall|j: int| 0 <= j < i ==> v@[j]@ == self.map.names()[j],
            decreases n - i,
        {
            v.push(string_of(self.map.name_at(i)));
            i += 1;
        }
        assert(Seq::new(v@.len(), |i: int| v@[i]@) =~= self.map.names());
        v
    }
}

impl Clone for Variables {
    fn clone(&self) -> (r: Self)
        ensures
            r@ == self@,
    {
        let n = self.map.len();
        let mut r = Variables::new();
        let mut i: usize = 0;
        while i < n
            invariant
                i <= n,
                n == self.map.names().len(),
                forall|k: Seq<char>|
                    r@.contains_key(k) <==> exists|j: int|
                        0 <= j < i && self.map.names()[j] == k,
                forall|k: Seq<char>| r@.contains_key(k) ==> self@.contains_key(k) && r@[k] == self@[k],
            decreases n - i,
        {
            let ghost before = r@;
            let name = self.map.name_at(i);
            let value = self.map.value_at(i);
            let ghost key = name@;
            r.map.insert(copy_chars(name), value.clone());
            proof {
                assert(r@ =~= before.insert(key, value@));
                assert forall|k: Seq<char>| r@.contains_key(k) implies exists|j: int|
                    0 <= j < i + 1 && self.map.names()[j] == k by {
                    if k == key {
                        assert(self.map.names()[i as int] == k);
                    } else {
                        let j = choose|j: int| 0 <= j < i && self.map.names()[j] == k;
                        assert(0 <= j < i + 1 && self.map.names()[j] == k);
                    }
                }
            }
            i += 1;
        }
        proof {
            assert forall|k: Seq<char>| self@.contains_key(k) implies r@.contains_key(k) by {
                let j = self.map.names().index_of(k);
                assert(0 <= j < n && self.map.names()[j] == k);
            }
            assert(r@ =~= self@);
        }
        r
    }
}

impl<'a> Entry<'a> {
    /// The name that the handle is on.
    pub fn name(&self) -> (n: &String)
        ensures
            n@ == self.name@,
    {
        &self.name
    }

    /// The value that the name has, if it has one.
    pub fn get(&self) -> (r: Option<String>)
        ensures
            match r {
                Some(v) => old(self.variables)@.contains_key(self.name@) && v@ == old(
                    self.variables,
                )@[self.name@],
                None => !old(self.variables)@.contains_key(self.name@),
            },
    {
        if self.variables.is_defined(self.name.as_str()) {
            Some(self.variables.value(self.name.as_str()))
        } else {
            None
        }
    }

    /// Gives the name the value `value`.
    pub fn insert(self, value: &str) -> (r: String)
        ensures
            final(self.variables)@ == old(self.variables)@.insert(self.name@, value@),
            r@ == value@,
    {
        self.variables.define(self.name.as_str(), value);
        value.to_owned()
    }

    /// Leaves the name without a value, and hands back the value it had.
    pub fn remove(self) -> (r: Option<String>)
        ensures
            final(self.variables)@ == old(self.variables)@.remove(self.name@),
            match r {
                Some(v) => old(self.variables)@.contains_key(self.name@) && v@ == old(
                    self.variables,
                )@[self.name@],
                None => !old(self.variables)@.contains_key(self.name@),
            },
    {
        let r = if self.variables.is_defined(self.name.as_str()) {
            Some(self.variables.value(self.name.as_str()))
        } else {
            None
        };
        self.variables.remove(self.name.as_str());
        r
    }

    /// The value of the name, or `default` where it has none. Nothing is
    /// written.
    pub fn default(self, default: &str) -> (r: String)
        ensures
            final(self.variables)@ == old(self.variables)@,
            r@ == if old(self.variables)@.contains_key(self.name@) {
                old(self.variables)@[self.name@]
            } else {
                default@
            },
    {
        if self.variables.is_defined(self.name.as_str()) {
            self.variables.value(self.name.as_str())
        } else {
            default.to_owned()
        }
    }

    /// The value of the name, or `default` where it has none or an empty
    /// one. Nothing is written.
    pub fn default_null(self, default: &str) -> (r: String)
        ensures
            final(self.variables)@ == old(self.variables)@,
            r@ == if set_in(old(self.variables)@, self.name@) {
                old(self.variables)@[self.name@]
            } else {
                default@
            },
    {
        if self.variables.has_value(self.name.as_str()) {
            self.variables.value(self.name.as_str())
        } else {
            default.to_owned()
        }
    }

    /// Gives the name the value `default` if it has none, and hands back the
    /// value that it then has.
    pub fn or_insert(self, default: &str) -> (r: String)
        ensures
            final(self.variables)@ == if old(self.variables)@.contains_key(self.name@) {
                old(self.variables)@
            } else {
                old(self.variables)@.insert(self.name@, default@)
            },
            r@ == final(self.variables)@[self.name@],
            final(self.variables)@ == Write::OrInsert(self.name@, default@).apply(
                old(self.variables)@,
            ),
    {
        if !self.variables.is_defined(self.name.as_str()) {
            self.variables.define(self.name.as_str(), default);
        }
        self.variables.value(self.name.as_str())
    }

    /// Gives the name the value `default` if it has none or an empty one,
    /// and hands back the value that it then has.
    pub fn or_insert_null(self, default: &str) -> (r: String)
        ensures
            final(self.variables)@ == if set_in(old(self.variables)@, self.name@) {
                old(self.variables)@
            } else {
                old(self.variables)@.insert(self.name@, default@)
            },
            r@ == final(self.variables)@[self.name@],
            final(self.variables)@ == Write::OrInsertNull(self.name@, default@).apply(
                old(self.variables)@,
            ),
    {
        if !self.variables.has_value(self.name.as_str()) {
            self.variables.define(self.name.as_str(), default);
        }
        self.variables.value(self.name.as_str())
    }
}

impl<'a> Entry<'a> {
    /// Replaces the value of the name, where it has one, by what `f` makes
    /// of it, and hands the handle on.
    pub fn and_modify<F: FnOnce(String) -> String>(self, f: F) -> (r: Entry<'a>)
        requires
            old(self.variables)@.contains_key(self.name@) ==> forall|v: String|
                v@ == old(self.variables)@[self.name@] ==> f.requires((v,)),
        ensures
            r.name@ == self.name@,
            *final(self.variables) == *final(r.variables),
            if old(self.variables)@.contains_key(self.name@) {
                exists|v: String, w: String|
                    v@ == old(self.variables)@[self.name@] && f.ensures((v,), w) && r.variables@
                        == old(self.variables)@.insert(self.name@, w@)
            } else {
                r.variables@ == old(self.variables)@
            },
    {
        if self.variables.is_defined(self.name.as_str()) {
            let v = self.variables.value(self.name.as_str());
            let w = f(v);
            self.variables.define(self.name.as_str(), w.as_str());
        }
        self
    }

    /// Gives the name the value that `default` makes if it has none, and
    /// hands back the value that it then has. `default` is called only where
    /// the name has no value.
    pub fn or_insert_with<F: FnOnce() -> String>(self, default: F) -> (r: String)
        requires
            !old(self.variables)@.contains_key(self.name@) ==> default.requires(()),
        ensures
            if old(self.variables)@.contains_key(self.name@) {
                final(self.variables)@ == old(self.variables)@
            } else {
                default.ensures((), r) && final(self.variables)@ == old(self.variables)@.insert(
                    self.name@,
                    r@,
                )
            },
            r@ == final(self.variables)@[self.name@],
    {
        if !self.variables.is_defined(self.name.as_str()) {
            let v = default();
            self.variables.define(self.name.as_str(), v.as_str());
            v
        } else {
            self.variables.value(self.name.as_str())
        }
    }
}

/// An operation that may write a variable: `define`, and the two inserting
/// operations of a handle.
pub enum Write {
    Define(Seq<char>, Seq<char>),
    OrInsert(Seq<char>, Seq<char>),
    OrInsertNull(Seq<char>, Seq<char>),
}

impl Write {
    /// The name that the operation is about.
    pub open spec fn name(self) -> Seq<char> {
        match self {
            Write::Define(name, _) => name,
            Write::OrInsert(name, _) => name,
            Write::OrInsertNull(name, _) => name,
        }
    }

    /// The value that the operation writes to its name when the variables
    /// are `vars`, if it writes at all.
    pub open spec fn written(self, vars: Map<Seq<char>, Seq<char>>) -> Option<Seq<char>> {
        match self {
            Write::Define(_, value) => Some(value),
            Write::OrInsert(name, default) => if vars.contains_key(name) {
                None
            } else {
                Some(default)
            },
            Write::OrInsertNull(name, default) => if set_in(vars, name) {
                None
            } else {
                Some(default)
            },
        }
    }

    /// The variables after the operation: those of `define`, `or_insert` and
    /// `or_insert_null`.
    pub open spec fn apply(self, vars: Map<Seq<char>, Seq<char>>) -> Map<Seq<char>, Seq<char>> {
        match self.written(vars) {
            Some(value) => vars.insert(self.name(), value),
            None => vars,
        }
    }
}

/// The variables after the operations `ops`, in order, on `start`.
pub open spec fn after_writes(start: Map<Seq<char>, Seq<char>>, ops: Seq<Write>) -> Map<
    Seq<char>,
    Seq<char>,
>
    decreases ops.len(),
{
    if ops.len() == 0 {
        start
    } else {
        ops.last().apply(after_writes(start, ops.drop_last()))
    }
}

/// The value that the last of the operations `ops` to write `name` wrote.
pub open spec fn last_written(
    start: Map<Seq<char>, Seq<char>>,
    ops: Seq<Write>,
    name: Seq<char>,
) -> Option<Seq<char>>
    decreases ops.len(),
{
    if ops.len() == 0 {
        None
    } else if ops.last().name() == name && ops.last().written(after_writes(start, ops.drop_last()))
        is Some {
        ops.last().written(after_writes(start, ops.drop_last()))
    } else {
        last_written(start, ops.drop_last(), name)
    }
}

/// As long as nothing is removed, the last write stands: after any
/// operations that write, a name that was written has the value written
/// last, and a name that was not written is as it was at the start. So a
/// name that exists reads as its last written value.
pub proof fn lemma_last_write_stands(
    start: Map<Seq<char>, Seq<char>>,
    ops: Seq<Write>,
    name: Seq<char>,
)
    ensures
        match last_written(start, ops, name) {
            Some(value) => after_writes(start, ops).contains_key(name) && after_writes(start, ops)[name] == value
                && value_in(after_writes(start, ops), name) == value,
            None => after_writes(start, ops).contains_key(name) == start.contains_key(name) && value_in(
                after_writes(start, ops),
                name,
            ) == value_in(start, name),
        },
    decreases ops.len(),
{
    if ops.len() > 0 {
        lemma_last_write_stands(start, ops.drop_last(), name);
    }
}

} // verus!
