//! Finite maps and sets keyed by names.

use crate::ast::strs_view;
use crate::liveness::take_contains;
use crate::text::str_eq;
use vstd::prelude::*;

verus! {

/// The map that a list of bindings stands for: a later binding hides an earlier one.
pub open spec fn bindings_map<V>(s: Seq<(String, V)>) -> Map<Seq<char>, V>
    decreases s.len(),
{
    if s.len() == 0 {
        Map::empty()
    } else {
        bindings_map(s.drop_last()).insert(s.last().0@, s.last().1)
    }
}

/// Changing the binding of a name that no later binding hides.
proof fn rebind<V>(s: Seq<(String, V)>, i: int, v: V)
    requires
        0 <= i < s.len(),
        forall|j: int| i < j < s.len() ==> (#[trigger] s[j]).0@ != s[i].0@,
    ensures
        bindings_map(s.update(i, (s[i].0, v))) == bindings_map(s).insert(s[i].0@, v),
    decreases s.len(),
{
    let t = s.update(i, (s[i].0, v));
    let k = s.len() - 1;
    if i == k {
        assert(t.drop_last() =~= s.drop_last());
        assert(bindings_map(t) =~= bindings_map(s).insert(s[i].0@, v));
    } else {
        rebind(s.drop_last(), i, v);
        assert(t.drop_last() =~= s.drop_last().update(i, (s[i].0, v)));
        assert(s[k].0@ != s[i].0@);
        assert(bindings_map(t) =~= bindings_map(s).insert(s[i].0@, v));
    }
}

/// A map from names to values, held as a list of bindings.
#[derive(Debug)]
pub struct NameMap<V> {
    entries: Vec<(String, V)>,
}

impl<V> View for NameMap<V> {
    type V = Map<Seq<char>, V>;

    closed spec fn view(&self) -> Map<Seq<char>, V> {
        bindings_map(self.entries@)
    }
}

impl<V> NameMap<V> {
    pub fn new() -> (r: NameMap<V>)
        ensures
            r@ == Map::<Seq<char>, V>::empty(),
    {
        NameMap { entries: Vec::new() }
    }

    /// The value bound to `name`, if there is one.
    pub fn get(&self, name: &str) -> (r: Option<&V>)
        ensures
            r is Some <==> self@.contains_key(name@),
            r is Some ==> *r->Some_0 == self@[name@],
    {
        let mut i: usize = self.entries.len();
        assert(self.entries@.take(i as int) =~= self.entries@);
        while i > 0
            invariant
                i <= self.entries@.len(),
                bindings_map(self.entries@.take(i as int)).contains_key(name@)
                    <==> self@.contains_key(name@),
                self@.contains_key(name@) ==> bindings_map(self.entries@.take(i as int))[name@]
                    == self@[name@],
            decreases i,
        {
            i -= 1;
            assert(self.entries@.take(i + 1).drop_last() =~= self.entries@.take(i as int));
            if str_eq(self.entries[i].0.as_str(), name) {
                return Some(&self.entries[i].1);
            }
        }
        None
    }

    pub fn contains(&self, name: &str) -> (r: bool)
        ensures
            r == self@.contains_key(name@),
    {
        self.get(name).is_some()
    }

    /// Binds `name` to `value`, in place of any earlier binding.
    pub fn insert(&mut self, name: &str, value: V)
        ensures
            final(self)@ == old(self)@.insert(name@, value),
    {
        let ghost s0 = self.entries@;
        let n: usize = self.entries.len();
        let mut i: usize = n;
        while i > 0
            invariant
                i <= n,
                n == self.entries@.len(),
                self.entries@ == s0,
                s0 == old(self).entries@,
                forall|j: int| i <= j < n ==> (#[trigger] s0[j]).0@ != name@,
            decreases i,
        {
            i -= 1;
            if str_eq(self.entries[i].0.as_str(), name) {
                self.entries[i].1 = value;
                proof {
                    rebind(s0, i as int, value);
                    assert(self.entries@ =~= s0.update(i as int, (s0[i as int].0, value)));
                }
                return;
            }
        }
        self.entries.push((name.to_owned(), value));
        assert(self.entries@.drop_last() =~= s0);
    }

    /// Forgets the binding of `name`, if there is one.
    pub fn remove(&mut self, name: &str)
        ensures
            final(self)@ == old(self)@.remove(name@),
    {
        let ghost all = self.entries@;
        let mut kept: Vec<(String, V)> = Vec::new();
        let mut rest: Vec<(String, V)> = Vec::new();
        std::mem::swap(&mut rest, &mut self.entries);
        assert(bindings_map(Seq::<(String, V)>::empty()).remove(name@) =~= Map::empty());
        assert(all.take(0) =~= Seq::empty());
        for x in it: rest
            invariant
                it.seq() == all,
                bindings_map(kept@) == bindings_map(all.take(it.index() as int)).remove(name@),
        {
            let ghost k0 = kept@;
            assert(all.take(it.index() + 1).drop_last() =~= all.take(it.index() as int));
            if !str_eq(x.0.as_str(), name) {
                kept.push(x);
                assert(kept@.drop_last() =~= k0);
                assert(bindings_map(kept@) =~= bindings_map(all.take(it.index() + 1)).remove(
                    name@
                ));
            } else {
                assert(bindings_map(kept@) =~= bindings_map(all.take(it.index() + 1)).remove(
                    name@
                ));
            }
        }
        assert(all.take(all.len() as int) =~= all);
        self.entries = kept;
    }
}

/// The set of names that a list holds.
pub open spec fn name_set(s: Seq<String>) -> Set<Seq<char>>
    decreases s.len(),
{
    if s.len() == 0 {
        Set::empty()
    } else {
        name_set(s.drop_last()).insert(s.last()@)
    }
}

/// A set of names.
#[derive(Debug)]
pub struct NameSet {
    items: Vec<String>,
}

impl View for NameSet {
    type V = Set<Seq<char>>;

    closed spec fn view(&self) -> Set<Seq<char>> {
        name_set(self.items@)
    }
}

impl NameSet {
    pub fn new() -> (r: NameSet)
        ensures
            r@ == Set::<Seq<char>>::empty(),
    {
        NameSet { items: Vec::new() }
    }

    pub fn contains(&self, name: &str) -> (r: bool)
        ensures
            r == self@.contains(name@),
    {
        let mut i: usize = self.items.len();
        assert(self.items@.take(i as int) =~= self.items@);
        while i > 0
            invariant
                i <= self.items@.len(),
                name_set(self.items@.take(i as int)).contains(name@) <==> self@.contains(name@),
            decreases i,
        {
            i -= 1;
            assert(self.items@.take(i + 1).drop_last() =~= self.items@.take(i as int));
            if str_eq(self.items[i].as_str(), name) {
                return true;
            }
        }
        false
    }

    pub fn insert(&mut self, name: &str)
        ensures
            final(self)@ == old(self)@.insert(name@),
    {
        if !self.contains(name) {
            let ghost s0 = self.items@;
            self.items.push(name.to_owned());
            assert(self.items@.drop_last() =~= s0);
        } else {
            assert(self@ =~= self@.insert(name@));
        }
    }

    /// A copy of the set.
    pub fn copy(&self) -> (r: NameSet)
        ensures
            r@ == self@,
    {
        let mut out = NameSet::new();
        assert(self.items@.take(0) =~= Seq::empty());
        for i in 0..self.items.len()
            invariant
                out@ == name_set(self.items@.take(i as int)),
        {
            assert(self.items@.take(i + 1).drop_last() =~= self.items@.take(i as int));
            out.insert(self.items[i].as_str());
        }
        assert(self.items@.take(self.items@.len() as int) =~= self.items@);
        out
    }

    pub fn is_empty(&self) -> (r: bool)
        ensures
            r == (self@ == Set::<Seq<char>>::empty()),
    {
        let n: usize = self.items.len();
        if n > 0 {
            assert(self@.contains(self.items@.last()@));
        }
        n == 0
    }

    /// The names that both sets have.
    pub fn intersection(&self, other: &NameSet) -> (r: NameSet)
        ensures
            r@ == self@.intersect(other@),
    {
        let mut out = NameSet::new();
        assert(self.items@.take(0) =~= Seq::empty());
        assert(out@ =~= Set::<Seq<char>>::empty().intersect(other@));
        for i in 0..self.items.len()
            invariant
                out@ == name_set(self.items@.take(i as int)).intersect(other@),
        {
            assert(self.items@.take(i + 1).drop_last() =~= self.items@.take(i as int));
            if other.contains(self.items[i].as_str()) {
                out.insert(self.items[i].as_str());
            }
            assert(out@ =~= name_set(self.items@.take(i + 1)).intersect(other@));
        }
        assert(self.items@.take(self.items@.len() as int) =~= self.items@);
        out
    }

    /// Adds every name of a list.
    pub fn add_all(&mut self, names: &Vec<String>)
        ensures
            final(self)@ == old(self)@.union(strs_view(names@).to_set()),
    {
        let ghost s0 = self@;
        let ghost nv = strs_view(names@);
        assert(self@ =~= s0.union(nv.take(0).to_set()));
        for i in 0..names.len()
            invariant
                nv == strs_view(names@),
                self@ == s0.union(nv.take(i as int).to_set()),
        {
            self.insert(names[i].as_str());
            proof {
                take_contains(nv, i as int);
            }
            assert(self@ =~= s0.union(nv.take(i + 1).to_set()));
        }
        assert(nv.take(nv.len() as int) =~= nv);
    }

    /// Adds every name of `other`.
    pub fn union_with(&mut self, other: &NameSet)
        ensures
            final(self)@ == old(self)@.union(other@),
    {
        let ghost s0 = self@;
        assert(other.items@.take(0) =~= Seq::empty());
        assert(self@ =~= s0.union(Set::empty()));
        for i in 0..other.items.len()
            invariant
                self@ == s0.union(name_set(other.items@.take(i as int))),
        {
            assert(other.items@.take(i + 1).drop_last() =~= other.items@.take(i as int));
            self.insert(other.items[i].as_str());
            assert(self@ =~= s0.union(name_set(other.items@.take(i + 1))));
        }
        assert(other.items@.take(other.items@.len() as int) =~= other.items@);
    }
}

} // verus!
