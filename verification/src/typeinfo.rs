//! What is known of the types of variables and results: the facts by which the back
//! ends choose unboxed code.

use crate::names::{NameMap, NameSet};
use vstd::prelude::*;

verus! {

/// Facts proved of a program: per function the variables that always hold integers,
/// floats, or lists of either, and the functions that always return one.
#[derive(Debug)]
pub struct IntInfo {
    pub int_vars: NameMap<NameSet>,
    pub float_vars: NameMap<NameSet>,
    pub int_list_vars: NameMap<NameSet>,
    pub float_list_vars: NameMap<NameSet>,
    pub int_ret: NameSet,
    pub float_ret: NameSet,
}

pub struct IntInfoView {
    pub int_vars: Map<Seq<char>, Set<Seq<char>>>,
    pub float_vars: Map<Seq<char>, Set<Seq<char>>>,
    pub int_list_vars: Map<Seq<char>, Set<Seq<char>>>,
    pub float_list_vars: Map<Seq<char>, Set<Seq<char>>>,
    pub int_ret: Set<Seq<char>>,
    pub float_ret: Set<Seq<char>>,
}

pub open spec fn vars_view(m: Map<Seq<char>, NameSet>) -> Map<Seq<char>, Set<Seq<char>>> {
    m.map_values(|s: NameSet| s@)
}

impl View for IntInfo {
    type V = IntInfoView;

    open spec fn view(&self) -> IntInfoView {
        IntInfoView {
            int_vars: vars_view(self.int_vars@),
            float_vars: vars_view(self.float_vars@),
            int_list_vars: vars_view(self.int_list_vars@),
            float_list_vars: vars_view(self.float_list_vars@),
            int_ret: self.int_ret@,
            float_ret: self.float_ret@,
        }
    }
}

/// Whether the table has `v` among the variables of `f`.
pub open spec fn in_table(m: Map<Seq<char>, Set<Seq<char>>>, f: Seq<char>, v: Seq<char>) -> bool {
    m.contains_key(f) && m[f].contains(v)
}

/// The variables that the table has of `f`.
pub open spec fn vars_of(m: Map<Seq<char>, Set<Seq<char>>>, f: Seq<char>) -> Set<Seq<char>> {
    if m.contains_key(f) {
        m[f]
    } else {
        Set::empty()
    }
}

pub fn table_has(m: &NameMap<NameSet>, f: &str, v: &str) -> (r: bool)
    ensures
        r == in_table(vars_view(m@), f@, v@),
{
    match m.get(f) {
        Some(s) => s.contains(v),
        None => false,
    }
}

pub fn copy_vars(m: &NameMap<NameSet>, f: &str) -> (r: NameSet)
    ensures
        r@ == vars_of(vars_view(m@), f@),
{
    match m.get(f) {
        Some(s) => s.copy(),
        None => NameSet::new(),
    }
}

impl IntInfo {
    /// Nothing is known.
    pub fn new() -> (r: IntInfo)
        ensures
            forall|f: Seq<char>, v: Seq<char>| !in_table(r@.int_vars, f, v),
            forall|f: Seq<char>, v: Seq<char>| !in_table(r@.float_vars, f, v),
            forall|f: Seq<char>, v: Seq<char>| !in_table(r@.int_list_vars, f, v),
            forall|f: Seq<char>, v: Seq<char>| !in_table(r@.float_list_vars, f, v),
            r@.int_ret == Set::<Seq<char>>::empty(),
            r@.float_ret == Set::<Seq<char>>::empty(),
    {
        IntInfo {
            int_vars: NameMap::new(),
            float_vars: NameMap::new(),
            int_list_vars: NameMap::new(),
            float_list_vars: NameMap::new(),
            int_ret: NameSet::new(),
            float_ret: NameSet::new(),
        }
    }

    pub fn is_int_var(&self, f: &str, v: &str) -> (r: bool)
        ensures
            r == in_table(self@.int_vars, f@, v@),
    {
        table_has(&self.int_vars, f, v)
    }

    pub fn is_float_var(&self, f: &str, v: &str) -> (r: bool)
        ensures
            r == in_table(self@.float_vars, f@, v@),
    {
        table_has(&self.float_vars, f, v)
    }

    pub fn is_int_list_var(&self, f: &str, v: &str) -> (r: bool)
        ensures
            r == in_table(self@.int_list_vars, f@, v@),
    {
        table_has(&self.int_list_vars, f, v)
    }

    pub fn is_float_list_var(&self, f: &str, v: &str) -> (r: bool)
        ensures
            r == in_table(self@.float_list_vars, f@, v@),
    {
        table_has(&self.float_list_vars, f, v)
    }
}

} // verus!
