//! Sets of virtual registers.

use crate::liveness::take_contains;
use crate::mir::Vreg;
use vstd::prelude::*;

verus! {

/// A finite set of registers.
#[derive(Debug)]
pub struct RegSet {
    items: Vec<Vreg>,
}

impl View for RegSet {
    type V = Set<Vreg>;

    closed spec fn view(&self) -> Set<Vreg> {
        self.items@.to_set()
    }
}

impl RegSet {
    pub closed spec fn listed(&self) -> Seq<Vreg> {
        self.items@
    }

    pub fn new() -> (r: RegSet)
        ensures
            r@ == Set::<Vreg>::empty(),
    {
        let r = RegSet { items: Vec::new() };
        assert(r@ =~= Set::empty());
        r
    }

    /// The list of members, which `len` and `at` walk, holds each of them.
    pub proof fn lists_members(&self)
        ensures
            self@ == self.listed().to_set(),
            self@.finite(),
    {
        vstd::seq_lib::seq_to_set_is_finite(self.items@);
    }

    pub fn len(&self) -> (r: usize)
        ensures
            r == self.listed().len(),
    {
        self.items.len()
    }

    pub fn at(&self, i: usize) -> (r: Vreg)
        requires
            i < self.listed().len(),
        ensures
            r == self.listed()[i as int],
            self@.contains(r),
    {
        self.items[i]
    }

    pub fn contains(&self, v: Vreg) -> (r: bool)
        ensures
            r == self@.contains(v),
    {
        for i in 0..self.items.len()
            invariant
                forall|j: int| 0 <= j < i ==> self.items@[j] != v,
        {
            if self.items[i] == v {
                return true;
            }
        }
        false
    }

    pub fn insert(&mut self, v: Vreg)
        ensures
            final(self)@ == old(self)@.insert(v),
    {
        if !self.contains(v) {
            let ghost s0 = self.items@;
            self.items.push(v);
            assert forall|x: Vreg| self.items@.contains(x) <==> s0.contains(x) || x == v by {
                if s0.contains(x) {
                    assert(self.items@[s0.index_of(x)] == x);
                }
                if x == v {
                    assert(self.items@[s0.len() as int] == x);
                }
            }
        }
        assert(self@ =~= old(self)@.insert(v));
    }

    pub fn remove(&mut self, v: Vreg)
        ensures
            final(self)@ == old(self)@.remove(v),
    {
        let mut kept: Vec<Vreg> = Vec::new();
        let ghost all = self.items@;
        for i in 0..self.items.len()
            invariant
                all == self.items@,
                all == old(self).items@,
                forall|x: Vreg| #[trigger]
                    kept@.contains(x) <==> x != v && all.take(i as int).contains(x),
        {
            proof {
                take_contains(all, i as int);
            }
            let x: Vreg = self.items[i];
            let ghost k0 = kept@;
            if x != v {
                kept.push(x);
                proof {
                    take_contains(kept@, k0.len() as int);
                }
                assert(kept@.take(k0.len() as int) =~= k0);
                assert(kept@.take(kept@.len() as int) =~= kept@);
            }
        }
        assert(all.take(all.len() as int) =~= all);
        self.items = kept;
        assert(self@ =~= old(self)@.remove(v));
    }

    pub fn copy(&self) -> (r: RegSet)
        ensures
            r@ == self@,
    {
        RegSet { items: self.items.clone() }
    }

    pub fn subset(&self, other: &RegSet) -> (r: bool)
        ensures
            r == self@.subset_of(other@),
    {
        for i in 0..self.items.len()
            invariant
                forall|j: int| 0 <= j < i ==> other@.contains(#[trigger] self.items@[j]),
        {
            if !other.contains(self.items[i]) {
                assert(self@.contains(self.items@[i as int]));
                return false;
            }
        }
        true
    }

    /// Whether both sets have the same members.
    pub fn same(&self, other: &RegSet) -> (r: bool)
        ensures
            r == (self@ == other@),
    {
        let r = self.subset(other) && other.subset(self);
        assert(r ==> self@ =~= other@);
        r
    }
}

} // verus!
