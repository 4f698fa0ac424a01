//! Values of the interpreter, and the heap that lists, maps, structs and closures live
//! in. A value that refers to an object holds its place in the heap, so that copies of
//! it share the object.

use crate::floatbits::{equal, float_eq, is_nan, nan, to_whole, whole};
use crate::text::{dec, dec_nat, push_i64, push_u64, str_eq};
use std::collections::HashMap;
use std::rc::Rc;
use vstd::prelude::*;
use vstd::string::StringExecFns;

verus! {

broadcast use vstd::std_specs::hash::group_hash_axioms;

/// A value. A float is held by its bits.
#[derive(Debug)]
pub enum Value {
    Int(i64),
    Float(u64),
    Str(Rc<String>),
    Bool(bool),
    Nil,
    List(usize),
    Dict(usize),
    Func(usize),
    Struct(usize),
    CBuf(usize),
}

pub enum ValueView {
    Int(i64),
    Float(u64),
    Str(Seq<char>),
    Bool(bool),
    Nil,
    List(usize),
    Dict(usize),
    Func(usize),
    Struct(usize),
    CBuf(usize),
}

impl View for Value {
    type V = ValueView;

    open spec fn view(&self) -> ValueView {
        match *self {
            Value::Int(n) => ValueView::Int(n),
            Value::Float(b) => ValueView::Float(b),
            Value::Str(s) => ValueView::Str(s@),
            Value::Bool(b) => ValueView::Bool(b),
            Value::Nil => ValueView::Nil,
            Value::List(a) => ValueView::List(a),
            Value::Dict(a) => ValueView::Dict(a),
            Value::Func(a) => ValueView::Func(a),
            Value::Struct(a) => ValueView::Struct(a),
            Value::CBuf(a) => ValueView::CBuf(a),
        }
    }
}

impl Clone for Value {
    fn clone(&self) -> (r: Value)
        ensures
            r@ == self@,
    {
        match self {
            Value::Int(n) => Value::Int(*n),
            Value::Float(b) => Value::Float(*b),
            Value::Str(s) => Value::Str(s.clone()),
            Value::Bool(b) => Value::Bool(*b),
            Value::Nil => Value::Nil,
            Value::List(a) => Value::List(*a),
            Value::Dict(a) => Value::Dict(*a),
            Value::Func(a) => Value::Func(*a),
            Value::Struct(a) => Value::Struct(*a),
            Value::CBuf(a) => Value::CBuf(*a),
        }
    }
}

pub fn text_value(s: String) -> (r: Value)
    ensures
        r@ == ValueView::Str(s@),
{
    Value::Str(Rc::new(s))
}

pub open spec fn values_view(s: Seq<Value>) -> Seq<ValueView> {
    Seq::new(s.len(), |i: int| s[i]@)
}

pub open spec fn entries_view(s: Seq<(Value, Value)>) -> Seq<(ValueView, ValueView)> {
    Seq::new(s.len(), |i: int| (s[i].0@, s[i].1@))
}

pub open spec fn members_view(s: Seq<(String, Value)>) -> Seq<(Seq<char>, ValueView)> {
    Seq::new(s.len(), |i: int| (s[i].0@, s[i].1@))
}

pub(crate) proof fn values_push(s: Seq<Value>, v: Value)
    ensures
        values_view(s.push(v)) == values_view(s).push(v@),
{
    assert(values_view(s.push(v)) =~= values_view(s).push(v@));
}

pub fn copy_values(v: &Vec<Value>, from: usize, to: usize) -> (r: Vec<Value>)
    requires
        from <= to <= v@.len(),
    ensures
        values_view(r@) == values_view(v@).subrange(from as int, to as int),
{
    let mut r: Vec<Value> = Vec::new();
    for i in from..to
        invariant
            from <= to <= v@.len(),
            values_view(r@) == values_view(v@).subrange(from as int, i as int),
    {
        let x = v[i].clone();
        proof {
            values_push(r@, x);
        }
        r.push(x);
        assert(values_view(r@) =~= values_view(v@).subrange(from as int, i + 1));
    }
    r
}

/// Whether two values are equal: numbers of one kind, strings, truth values and `nil`
/// by what they are. Nothing else equals anything.
pub open spec fn values_equal(a: ValueView, b: ValueView) -> bool {
    match (a, b) {
        (ValueView::Int(x), ValueView::Int(y)) => x == y,
        (ValueView::Float(x), ValueView::Float(y)) => float_eq(x, y),
        (ValueView::Str(x), ValueView::Str(y)) => x == y,
        (ValueView::Bool(x), ValueView::Bool(y)) => x == y,
        (ValueView::Nil, ValueView::Nil) => true,
        _ => false,
    }
}

pub fn values_eq(a: &Value, b: &Value) -> (r: bool)
    ensures
        r == values_equal(a@, b@),
{
    match (a, b) {
        (Value::Int(x), Value::Int(y)) => *x == *y,
        (Value::Float(x), Value::Float(y)) => equal(*x, *y),
        (Value::Str(x), Value::Str(y)) => str_eq(x.as_str(), y.as_str()),
        (Value::Bool(x), Value::Bool(y)) => *x == *y,
        (Value::Nil, Value::Nil) => true,
        _ => false,
    }
}

/// What a condition says. Only truth values and `nil` are conditions.
pub open spec fn truth(v: ValueView) -> Option<bool> {
    match v {
        ValueView::Bool(b) => Some(b),
        ValueView::Nil => Some(false),
        _ => None,
    }
}

impl Value {
    pub fn truthy(&self) -> (r: Option<bool>)
        ensures
            r == truth(self@),
    {
        match self {
            Value::Bool(b) => Some(*b),
            Value::Nil => Some(false),
            _ => None,
        }
    }
}

/// What a map finds an entry by. A whole float is the same key as the integer; a value
/// that equals nothing is no key.
pub enum KeyView {
    Int(int),
    Float(u64),
    Str(Seq<char>),
    Bool(bool),
    Nil,
}

pub open spec fn key_of(v: ValueView) -> Option<KeyView> {
    match v {
        ValueView::Int(n) => Some(KeyView::Int(n as int)),
        ValueView::Float(b) => if is_nan(b) {
            None
        } else {
            match whole(b) {
                Some(n) => Some(KeyView::Int(n)),
                None => Some(KeyView::Float(b)),
            }
        },
        ValueView::Str(s) => Some(KeyView::Str(s)),
        ValueView::Bool(b) => Some(KeyView::Bool(b)),
        ValueView::Nil => Some(KeyView::Nil),
        _ => None,
    }
}

enum NumKey {
    Int(i64),
    Bits(u64),
    Other,
}

fn num_key(v: &Value) -> (r: NumKey)
    ensures
        match r {
            NumKey::Int(n) => key_of(v@) == Some(KeyView::Int(n as int)),
            NumKey::Bits(b) => key_of(v@) == Some(KeyView::Float(b)),
            NumKey::Other => match key_of(v@) {
                Some(KeyView::Int(_)) => false,
                Some(KeyView::Float(_)) => false,
                _ => true,
            },
        },
{
    match v {
        Value::Int(n) => NumKey::Int(*n),
        Value::Float(b) => if nan(*b) {
            NumKey::Other
        } else {
            match to_whole(*b) {
                Some(n) => NumKey::Int(n),
                None => NumKey::Bits(*b),
            }
        },
        _ => NumKey::Other,
    }
}

fn same_key(a: &Value, b: &Value) -> (r: bool)
    ensures
        r == (key_of(a@) is Some && key_of(a@) == key_of(b@)),
{
    match (num_key(a), num_key(b)) {
        (NumKey::Int(x), NumKey::Int(y)) => x == y,
        (NumKey::Bits(x), NumKey::Bits(y)) => x == y,
        (NumKey::Other, NumKey::Other) => match (a, b) {
            (Value::Str(x), Value::Str(y)) => str_eq(x.as_str(), y.as_str()),
            (Value::Bool(x), Value::Bool(y)) => *x == *y,
            (Value::Nil, Value::Nil) => true,
            _ => false,
        },
        _ => false,
    }
}

pub open spec fn is_key(e: (ValueView, ValueView), k: ValueView) -> bool {
    key_of(k) is Some && key_of(e.0) == key_of(k)
}

/// The place of the entry with the key `k`, from `i` on.
pub open spec fn entry_at(s: Seq<(ValueView, ValueView)>, k: ValueView, i: int) -> Option<int>
    decreases s.len() - i,
{
    if i < 0 || i >= s.len() {
        None
    } else if is_key(s[i], k) {
        Some(i)
    } else {
        entry_at(s, k, i + 1)
    }
}

/// The value at the key `k`.
pub open spec fn entry_get(s: Seq<(ValueView, ValueView)>, k: ValueView) -> Option<ValueView> {
    match entry_at(s, k, 0) {
        Some(i) => Some(s[i].1),
        None => None,
    }
}

/// The entries with the value at `k` changed, in its place, or added at the end.
pub open spec fn entry_set(
    s: Seq<(ValueView, ValueView)>,
    k: ValueView,
    v: ValueView,
) -> Seq<(ValueView, ValueView)> {
    match entry_at(s, k, 0) {
        Some(i) => s.update(i, (s[i].0, v)),
        None => s.push((k, v)),
    }
}

/// The entries without the one at `k`.
pub open spec fn entry_remove(s: Seq<(ValueView, ValueView)>, k: ValueView) -> Seq<
    (ValueView, ValueView),
> {
    match entry_at(s, k, 0) {
        Some(i) => s.remove(i),
        None => s,
    }
}

/// No two entries have the same key.
pub open spec fn distinct_keys(s: Seq<(ValueView, ValueView)>) -> bool {
    forall|i: int, j: int|
        #![trigger s[i], s[j]]
        0 <= i < j < s.len() ==> !is_key(s[i], s[j].0)
}

pub(crate) proof fn entry_at_bounds(s: Seq<(ValueView, ValueView)>, k: ValueView, i: int)
    requires
        0 <= i,
    ensures
        match entry_at(s, k, i) {
            Some(p) => i <= p < s.len() && is_key(s[p], k) && forall|j: int|
                i <= j < p ==> !is_key(#[trigger] s[j], k),
            None => forall|j: int| i <= j < s.len() ==> !is_key(#[trigger] s[j], k),
        },
    decreases s.len() - i,
{
    if i < s.len() && !is_key(s[i], k) {
        entry_at_bounds(s, k, i + 1);
    }
}

/// Setting a key keeps the keys distinct and the entries in their order: the earlier
/// entries keep their places and keys.
pub proof fn set_keeps_order(s: Seq<(ValueView, ValueView)>, k: ValueView, v: ValueView)
    requires
        distinct_keys(s),
    ensures
        distinct_keys(entry_set(s, k, v)),
        s.len() <= entry_set(s, k, v).len() <= s.len() + 1,
        forall|i: int| 0 <= i < s.len() ==> (#[trigger] entry_set(s, k, v)[i]).0 == s[i].0,
{
    entry_at_bounds(s, k, 0);
    let t = entry_set(s, k, v);
    assert forall|i: int, j: int| #![trigger t[i], t[j]] 0 <= i < j < t.len() implies !is_key(
        t[i],
        t[j].0,
    ) by {
        if j < s.len() {
            assert(!is_key(s[i], s[j].0));
        } else {
            assert(!is_key(s[i], k));
        }
    }
}

/// What was set at a key is found there, and no other key is touched.
pub proof fn get_after_set(
    s: Seq<(ValueView, ValueView)>,
    k: ValueView,
    v: ValueView,
    other: ValueView,
)
    requires
        key_of(k) is Some,
    ensures
        entry_get(entry_set(s, k, v), k) == Some(v),
        key_of(other) != key_of(k) ==> entry_get(entry_set(s, k, v), other) == entry_get(s, other),
{
    let t = entry_set(s, k, v);
    entry_at_bounds(s, k, 0);
    entry_at_bounds(t, k, 0);
    entry_at_bounds(s, other, 0);
    entry_at_bounds(t, other, 0);
    let i = match entry_at(s, k, 0) {
        Some(i) => i,
        None => s.len() as int,
    };
    assert(is_key(t[i], k));
    assert forall|j: int| 0 <= j < i implies !is_key(#[trigger] t[j], k) by {
        assert(!is_key(s[j], k));
    }
    if key_of(other) != key_of(k) {
        assert(!is_key(t[i], other));
        assert forall|j: int| 0 <= j < s.len() implies is_key(#[trigger] t[j], other) == is_key(
            s[j],
            other,
        ) by {}
        match entry_at(s, other, 0) {
            Some(p) => {
                assert(is_key(t[p], other));
                let q = entry_at(t, other, 0)->Some_0;
                if q < p {
                    assert(is_key(s[q], other));
                }
                if p < q {
                    assert(!is_key(t[p], other));
                }
            },
            None => {
                if entry_at(t, other, 0) is Some {
                    let q = entry_at(t, other, 0)->Some_0;
                    assert(q < s.len() ==> is_key(s[q], other));
                }
            },
        }
    }
}

/// A removed key is gone, where the keys were distinct, and they still are.
pub proof fn get_after_remove(s: Seq<(ValueView, ValueView)>, k: ValueView)
    requires
        distinct_keys(s),
    ensures
        entry_get(entry_remove(s, k), k) is None,
        distinct_keys(entry_remove(s, k)),
{
    let t = entry_remove(s, k);
    entry_at_bounds(s, k, 0);
    entry_at_bounds(t, k, 0);
    match entry_at(s, k, 0) {
        Some(i) => {
            assert forall|a: int, b: int| #![trigger t[a], t[b]] 0 <= a < b < t.len() implies !is_key(
                t[a],
                t[b].0,
            ) by {
                let x = if a < i {
                    a
                } else {
                    a + 1
                };
                let y = if b < i {
                    b
                } else {
                    b + 1
                };
                assert(t[a] == s[x] && t[b] == s[y]);
                assert(!is_key(s[x], s[y].0));
            }
            assert forall|j: int| 0 <= j < t.len() implies !is_key(#[trigger] t[j], k) by {
                if j < i {
                    assert(t[j] == s[j]);
                } else {
                    assert(t[j] == s[j + 1]);
                    assert(!is_key(s[i], s[j + 1].0));
                }
            }
        },
        None => {},
    }
}

/// A map that keeps its entries in the order in which they were added.
#[derive(Debug)]
pub struct LumenMap {
    entries: Vec<(Value, Value)>,
}

impl View for LumenMap {
    type V = Seq<(ValueView, ValueView)>;

    closed spec fn view(&self) -> Seq<(ValueView, ValueView)> {
        entries_view(self.entries@)
    }
}

impl LumenMap {
    pub fn new() -> (r: LumenMap)
        ensures
            r@ == Seq::<(ValueView, ValueView)>::empty(),
    {
        let r = LumenMap { entries: Vec::new() };
        assert(r@ =~= Seq::empty());
        r
    }

    pub fn len(&self) -> (r: usize)
        ensures
            r == self@.len(),
    {
        self.entries.len()
    }

    fn pos(&self, key: &Value) -> (r: Option<usize>)
        ensures
            match r {
                Some(i) => entry_at(self@, key@, 0) == Some(i as int) && i < self@.len(),
                None => entry_at(self@, key@, 0) is None,
            },
    {
        let ghost s = self@;
        for i in 0..self.entries.len()
            invariant
                s == entries_view(self.entries@),
                entry_at(s, key@, 0) == entry_at(s, key@, i as int),
        {
            assert(s[i as int] == (self.entries@[i as int].0@, self.entries@[i as int].1@));
            if same_key(&self.entries[i].0, key) {
                return Some(i);
            }
        }
        None
    }

    pub fn get(&self, key: &Value) -> (r: Option<Value>)
        ensures
            opt_value(r) == entry_get(self@, key@),
    {
        match self.pos(key) {
            Some(i) => {
                assert(self@[i as int] == (self.entries@[i as int].0@, self.entries@[i as int].1@));
                Some(self.entries[i].1.clone())
            },
            None => None,
        }
    }

    pub fn has(&self, key: &Value) -> (r: bool)
        ensures
            r == (entry_at(self@, key@, 0) is Some),
    {
        self.pos(key).is_some()
    }

    /// Sets the value at a key. An entry that is there keeps its place.
    pub fn set(&mut self, key: Value, val: Value)
        ensures
            final(self)@ == entry_set(old(self)@, key@, val@),
    {
        let ghost s = self@;
        match self.pos(&key) {
            Some(i) => {
                self.entries[i].1 = val;
                assert(self@ =~= s.update(i as int, (s[i as int].0, val@)));
            },
            None => {
                self.entries.push((key, val));
                assert(self@ =~= s.push((key@, val@)));
            },
        }
    }

    /// Removes a key and gives its value.
    pub fn remove(&mut self, key: &Value) -> (r: Option<Value>)
        ensures
            final(self)@ == entry_remove(old(self)@, key@),
            opt_value(r) == entry_get(old(self)@, key@),
    {
        let ghost s = self@;
        match self.pos(key) {
            Some(i) => {
                assert(s[i as int] == (self.entries@[i as int].0@, self.entries@[i as int].1@));
                let (_, v) = self.entries.remove(i);
                assert(self@ =~= s.remove(i as int));
                Some(v)
            },
            None => None,
        }
    }

    pub fn keys(&self) -> (r: Vec<Value>)
        ensures
            values_view(r@) == keys_of(self@),
    {
        let mut r: Vec<Value> = Vec::new();
        for i in 0..self.entries.len()
            invariant
                values_view(r@) == keys_of(self@).take(i as int),
        {
            let k = self.entries[i].0.clone();
            proof {
                values_push(r@, k);
            }
            r.push(k);
            assert(values_view(r@) =~= keys_of(self@).take(i + 1));
        }
        assert(values_view(r@) =~= keys_of(self@));
        r
    }

    pub fn values(&self) -> (r: Vec<Value>)
        ensures
            values_view(r@) == vals_of(self@),
    {
        let mut r: Vec<Value> = Vec::new();
        for i in 0..self.entries.len()
            invariant
                values_view(r@) == vals_of(self@).take(i as int),
        {
            let k = self.entries[i].1.clone();
            proof {
                values_push(r@, k);
            }
            r.push(k);
            assert(values_view(r@) =~= vals_of(self@).take(i + 1));
        }
        assert(values_view(r@) =~= vals_of(self@));
        r
    }

    /// The entries in their order.
    pub fn pairs(&self) -> (r: &Vec<(Value, Value)>)
        ensures
            entries_view(r@) == self@,
    {
        &self.entries
    }
}

pub open spec fn keys_of(s: Seq<(ValueView, ValueView)>) -> Seq<ValueView> {
    s.map_values(|e: (ValueView, ValueView)| e.0)
}

pub open spec fn vals_of(s: Seq<(ValueView, ValueView)>) -> Seq<ValueView> {
    s.map_values(|e: (ValueView, ValueView)| e.1)
}

pub open spec fn opt_value(o: Option<Value>) -> Option<ValueView> {
    match o {
        Some(v) => Some(v@),
        None => None,
    }
}

/// The map of pairs; a later pair of a key changes the value of an earlier one.
pub open spec fn map_of(s: Seq<(ValueView, ValueView)>) -> Seq<(ValueView, ValueView)>
    decreases s.len(),
{
    if s.len() == 0 {
        Seq::empty()
    } else {
        entry_set(map_of(s.drop_last()), s.last().0, s.last().1)
    }
}

/// The keys of a map are distinct.
pub proof fn map_keys_distinct(s: Seq<(ValueView, ValueView)>)
    ensures
        distinct_keys(map_of(s)),
    decreases s.len(),
{
    if s.len() > 0 {
        map_keys_distinct(s.drop_last());
        set_keeps_order(map_of(s.drop_last()), s.last().0, s.last().1);
    }
}

/// Builds a map of pairs.
pub fn lumen_map(pairs: Vec<(Value, Value)>) -> (r: LumenMap)
    ensures
        r@ == map_of(entries_view(pairs@)),
{
    let mut m = LumenMap::new();
    let ghost pv = entries_view(pairs@);
    assert(pv.take(0) =~= Seq::empty());
    for e in it: pairs
        invariant
            pv == entries_view(it.seq()),
            m@ == map_of(pv.take(it.index() as int)),
    {
        assert(pv.take(it.index() + 1).drop_last() =~= pv.take(it.index() as int));
        assert(pv.take(it.index() + 1).last() == (e.0@, e.1@));
        m.set(e.0, e.1);
    }
    assert(pv.take(pv.len() as int) =~= pv);
    m
}

/// An object of the heap. A closure holds the number of its function, the name of that,
/// and what it captured.
#[derive(Debug)]
pub enum Obj {
    List(Vec<Value>),
    Dict(LumenMap),
    Func { def: usize, name: String, caps: Vec<Value> },
    Struct { name: String, fields: Vec<(String, Value)> },
    CBuf(Vec<u8>),
}

pub enum ObjView {
    List(Seq<ValueView>),
    Dict(Seq<(ValueView, ValueView)>),
    Func { def: usize, name: Seq<char>, caps: Seq<ValueView> },
    Struct { name: Seq<char>, fields: Seq<(Seq<char>, ValueView)> },
    CBuf(Seq<u8>),
}

impl View for Obj {
    type V = ObjView;

    open spec fn view(&self) -> ObjView {
        match *self {
            Obj::List(v) => ObjView::List(values_view(v@)),
            Obj::Dict(m) => ObjView::Dict(m@),
            Obj::Func { def, name, caps } => ObjView::Func {
                def,
                name: name@,
                caps: values_view(caps@),
            },
            Obj::Struct { name, fields } => ObjView::Struct {
                name: name@,
                fields: members_view(fields@),
            },
            Obj::CBuf(b) => ObjView::CBuf(b@),
        }
    }
}

pub open spec fn heap_view(s: Seq<Obj>) -> Seq<ObjView> {
    Seq::new(s.len(), |i: int| s[i]@)
}

pub open spec fn list_at(h: Seq<ObjView>, a: usize) -> Option<Seq<ValueView>> {
    if a < h.len() {
        match h[a as int] {
            ObjView::List(v) => Some(v),
            _ => None,
        }
    } else {
        None
    }
}

pub open spec fn dict_at(h: Seq<ObjView>, a: usize) -> Option<Seq<(ValueView, ValueView)>> {
    if a < h.len() {
        match h[a as int] {
            ObjView::Dict(m) => Some(m),
            _ => None,
        }
    } else {
        None
    }
}

pub fn get_list(h: &Vec<Obj>, a: usize) -> (r: Option<&Vec<Value>>)
    ensures
        match r {
            Some(v) => list_at(heap_view(h@), a) == Some(values_view(v@)),
            None => list_at(heap_view(h@), a) is None,
        },
{
    if a < h.len() {
        assert(heap_view(h@)[a as int] == h@[a as int]@);
        match &h[a] {
            Obj::List(v) => Some(v),
            _ => None,
        }
    } else {
        None
    }
}

pub fn get_dict(h: &Vec<Obj>, a: usize) -> (r: Option<&LumenMap>)
    ensures
        match r {
            Some(m) => dict_at(heap_view(h@), a) == Some(m@),
            None => dict_at(heap_view(h@), a) is None,
        },
{
    if a < h.len() {
        assert(heap_view(h@)[a as int] == h@[a as int]@);
        match &h[a] {
            Obj::Dict(m) => Some(m),
            _ => None,
        }
    } else {
        None
    }
}

/// The text of a value, or what stands in the way: a float whose text is not known yet,
/// or a value that contains itself.
pub enum ShownView {
    Text(Seq<char>),
    Need(u64),
    Endless,
}

pub enum Shown {
    Text(String),
    Need(u64),
    Endless,
}

impl View for Shown {
    type V = ShownView;

    open spec fn view(&self) -> ShownView {
        match *self {
            Shown::Text(s) => ShownView::Text(s@),
            Shown::Need(b) => ShownView::Need(b),
            Shown::Endless => ShownView::Endless,
        }
    }
}

/// What is known of floats: the texts of some.
pub open spec fn texts_map(m: Map<u64, String>) -> Map<u64, Seq<char>> {
    m.map_values(|s: String| s@)
}

pub open spec fn more(t: Seq<char>, first: bool, u: Seq<char>) -> Seq<char> {
    if first {
        u
    } else {
        t + ", "@ + u
    }
}

/// The text of a value, with a string in quotes where `quoted` holds. `depth` is how
/// far objects may lie inside each other.
pub open spec fn show(
    h: Seq<ObjView>,
    m: Map<u64, Seq<char>>,
    v: ValueView,
    quoted: bool,
    depth: nat,
) -> ShownView
    decreases depth, 0nat,
{
    match v {
        ValueView::Int(n) => ShownView::Text(dec(n as int)),
        ValueView::Float(b) => if m.contains_key(b) {
            ShownView::Text(m[b])
        } else {
            ShownView::Need(b)
        },
        ValueView::Str(s) => ShownView::Text(
            if quoted {
                "\""@ + s + "\""@
            } else {
                s
            },
        ),
        ValueView::Bool(b) => ShownView::Text(
            if b {
                "true"@
            } else {
                "false"@
            },
        ),
        ValueView::Nil => ShownView::Text("nil"@),
        ValueView::List(a) | ValueView::Dict(a) | ValueView::Func(a) | ValueView::Struct(
            a,
        ) | ValueView::CBuf(a) => if depth == 0 || a >= h.len() {
            ShownView::Endless
        } else {
            show_obj(h, m, h[a as int], (depth - 1) as nat)
        },
    }
}

pub open spec fn show_obj(
    h: Seq<ObjView>,
    m: Map<u64, Seq<char>>,
    o: ObjView,
    depth: nat,
) -> ShownView
    decreases depth, 2nat,
{
    match o {
        ObjView::List(v) => match show_items(h, m, v, v.len(), depth) {
            ShownView::Text(t) => ShownView::Text("["@ + t + "]"@),
            s => s,
        },
        ObjView::Dict(e) => match show_entries(h, m, e, e.len(), depth) {
            ShownView::Text(t) => ShownView::Text("{"@ + t + "}"@),
            s => s,
        },
        ObjView::Func { name, .. } => ShownView::Text("<fn "@ + name + ">"@),
        ObjView::Struct { name, fields } => match show_fields(h, m, fields, fields.len(), depth) {
            ShownView::Text(t) => ShownView::Text(name + "("@ + t + ")"@),
            s => s,
        },
        ObjView::CBuf(b) => ShownView::Text("<cbuf "@ + dec_nat(b.len()) + ">"@),
    }
}

pub open spec fn show_items(
    h: Seq<ObjView>,
    m: Map<u64, Seq<char>>,
    v: Seq<ValueView>,
    k: nat,
    depth: nat,
) -> ShownView
    decreases depth, 1nat, k,
{
    if k == 0 || k > v.len() {
        ShownView::Text(Seq::empty())
    } else {
        match show_items(h, m, v, (k - 1) as nat, depth) {
            ShownView::Text(t) => match show(h, m, v[k - 1], true, depth) {
                ShownView::Text(u) => ShownView::Text(more(t, k == 1, u)),
                s => s,
            },
            s => s,
        }
    }
}

pub open spec fn show_entries(
    h: Seq<ObjView>,
    m: Map<u64, Seq<char>>,
    v: Seq<(ValueView, ValueView)>,
    k: nat,
    depth: nat,
) -> ShownView
    decreases depth, 1nat, k,
{
    if k == 0 || k > v.len() {
        ShownView::Text(Seq::empty())
    } else {
        match show_entries(h, m, v, (k - 1) as nat, depth) {
            ShownView::Text(t) => match show(h, m, v[k - 1].0, true, depth) {
                ShownView::Text(a) => match show(h, m, v[k - 1].1, true, depth) {
                    ShownView::Text(b) => ShownView::Text(more(t, k == 1, a + ": "@ + b)),
                    s => s,
                },
                s => s,
            },
            s => s,
        }
    }
}

pub open spec fn show_fields(
    h: Seq<ObjView>,
    m: Map<u64, Seq<char>>,
    v: Seq<(Seq<char>, ValueView)>,
    k: nat,
    depth: nat,
) -> ShownView
    decreases depth, 1nat, k,
{
    if k == 0 || k > v.len() {
        ShownView::Text(Seq::empty())
    } else {
        match show_fields(h, m, v, (k - 1) as nat, depth) {
            ShownView::Text(t) => match show(h, m, v[k - 1].1, true, depth) {
                ShownView::Text(b) => ShownView::Text(more(t, k == 1, v[k - 1].0 + ": "@ + b)),
                s => s,
            },
            s => s,
        }
    }
}

fn push_more(t: &mut String, first: bool)
    ensures
        final(t)@ == (if first {
            old(t)@
        } else {
            old(t)@ + ", "@
        }),
{
    if !first {
        t.append(", ");
    }
}

/// The text of a value.
pub fn show_value(
    h: &Vec<Obj>,
    m: &HashMap<u64, String>,
    v: &Value,
    quoted: bool,
    depth: usize,
) -> (r: Shown)
    ensures
        r@ == show(heap_view(h@), texts_map(m@), v@, quoted, depth as nat),
    decreases depth, 0nat,
{
    match v {
        Value::Int(n) => {
            let mut s = String::new();
            push_i64(&mut s, *n);
            assert(s@ =~= dec(*n as int));
            Shown::Text(s)
        },
        Value::Float(b) => match m.get(b) {
            Some(t) => Shown::Text(t.clone()),
            None => Shown::Need(*b),
        },
        Value::Str(s) => if quoted {
            let mut t = "\"".to_owned();
            t.append(s.as_str());
            t.append("\"");
            Shown::Text(t)
        } else {
            Shown::Text(s.as_str().to_owned())
        },
        Value::Bool(b) => Shown::Text(
            if *b {
                "true".to_owned()
            } else {
                "false".to_owned()
            },
        ),
        Value::Nil => Shown::Text("nil".to_owned()),
        Value::List(a) => show_at(h, m, *a, depth),
        Value::Dict(a) => show_at(h, m, *a, depth),
        Value::Func(a) => show_at(h, m, *a, depth),
        Value::Struct(a) => show_at(h, m, *a, depth),
        Value::CBuf(a) => show_at(h, m, *a, depth),
    }
}

fn show_at(h: &Vec<Obj>, m: &HashMap<u64, String>, a: usize, depth: usize) -> (r: Shown)
    ensures
        r@ == (if depth == 0 || a >= h@.len() {
            ShownView::Endless
        } else {
            show_obj(heap_view(h@), texts_map(m@), heap_view(h@)[a as int], (depth - 1) as nat)
        }),
    decreases depth, 0nat, 0nat,
{
    if depth == 0 || a >= h.len() {
        return Shown::Endless;
    }
    let d: usize = depth - 1;
    assert(heap_view(h@)[a as int] == h@[a as int]@);
    match &h[a] {
        Obj::List(v) => match show_items_of(h, m, v, d) {
            Shown::Text(t) => {
                let mut s = "[".to_owned();
                s.append(t.as_str());
                s.append("]");
                Shown::Text(s)
            },
            s => s,
        },
        Obj::Dict(e) => match show_entries_of(h, m, e.pairs(), d) {
            Shown::Text(t) => {
                let mut s = "{".to_owned();
                s.append(t.as_str());
                s.append("}");
                Shown::Text(s)
            },
            s => s,
        },
        Obj::Func { name, .. } => {
            let mut s = "<fn ".to_owned();
            s.append(name.as_str());
            s.append(">");
            Shown::Text(s)
        },
        Obj::Struct { name, fields } => match show_fields_of(h, m, fields, d) {
            Shown::Text(t) => {
                let mut s = name.clone();
                s.append("(");
                s.append(t.as_str());
                s.append(")");
                Shown::Text(s)
            },
            s => s,
        },
        Obj::CBuf(b) => {
            let mut s = "<cbuf ".to_owned();
            push_u64(&mut s, b.len() as u64);
            s.append(">");
            Shown::Text(s)
        },
    }
}

fn show_items_of(h: &Vec<Obj>, m: &HashMap<u64, String>, v: &Vec<Value>, depth: usize) -> (r: Shown)
    ensures
        r@ == show_items(
            heap_view(h@),
            texts_map(m@),
            values_view(v@),
            v@.len(),
            depth as nat,
        ),
    decreases depth, 1nat, 0nat,
{
    let ghost vv = values_view(v@);
    let ghost hv = heap_view(h@);
    let ghost mv = texts_map(m@);
    let mut t = String::new();
    assert(t@ =~= Seq::empty());
    for i in 0..v.len()
        invariant
            vv == values_view(v@),
            hv == heap_view(h@),
            mv == texts_map(m@),
            show_items(hv, mv, vv, i as nat, depth as nat) == ShownView::Text(t@),
    {
        assert(vv[i as int] == v@[i as int]@);
        let ghost t0 = t@;
        match show_value(h, m, &v[i], true, depth) {
            Shown::Text(u) => {
                if i == 0 {
                    t = u;
                } else {
                    push_more(&mut t, false);
                    t.append(u.as_str());
                }
                assert(t@ =~= more(t0, i == 0, u@));
            },
            s => {
                proof {
                    items_stop(hv, mv, vv, (i + 1) as nat, depth as nat);
                }
                return s;
            },
        }
    }
    Shown::Text(t)
}

proof fn items_stop(
    h: Seq<ObjView>,
    m: Map<u64, Seq<char>>,
    v: Seq<ValueView>,
    k: nat,
    depth: nat,
)
    requires
        k <= v.len(),
        !(show_items(h, m, v, k, depth) is Text),
    ensures
        show_items(h, m, v, v.len(), depth) == show_items(h, m, v, k, depth),
    decreases v.len() - k,
{
    if k < v.len() {
        items_stop(h, m, v, k + 1, depth);
    }
}

proof fn entries_stop(
    h: Seq<ObjView>,
    m: Map<u64, Seq<char>>,
    v: Seq<(ValueView, ValueView)>,
    k: nat,
    depth: nat,
)
    requires
        k <= v.len(),
        !(show_entries(h, m, v, k, depth) is Text),
    ensures
        show_entries(h, m, v, v.len(), depth) == show_entries(h, m, v, k, depth),
    decreases v.len() - k,
{
    if k < v.len() {
        entries_stop(h, m, v, k + 1, depth);
    }
}

proof fn fields_stop(
    h: Seq<ObjView>,
    m: Map<u64, Seq<char>>,
    v: Seq<(Seq<char>, ValueView)>,
    k: nat,
    depth: nat,
)
    requires
        k <= v.len(),
        !(show_fields(h, m, v, k, depth) is Text),
    ensures
        show_fields(h, m, v, v.len(), depth) == show_fields(h, m, v, k, depth),
    decreases v.len() - k,
{
    if k < v.len() {
        fields_stop(h, m, v, k + 1, depth);
    }
}

fn show_entries_of(
    h: &Vec<Obj>,
    m: &HashMap<u64, String>,
    v: &Vec<(Value, Value)>,
    depth: usize,
) -> (r: Shown)
    ensures
        r@ == show_entries(
            heap_view(h@),
            texts_map(m@),
            entries_view(v@),
            v@.len(),
            depth as nat,
        ),
    decreases depth, 1nat, 0nat,
{
    let ghost vv = entries_view(v@);
    let ghost hv = heap_view(h@);
    let ghost mv = texts_map(m@);
    let mut t = String::new();
    assert(t@ =~= Seq::empty());
    for i in 0..v.len()
        invariant
            vv == entries_view(v@),
            hv == heap_view(h@),
            mv == texts_map(m@),
            show_entries(hv, mv, vv, i as nat, depth as nat) == ShownView::Text(t@),
    {
        assert(vv[i as int] == (v@[i as int].0@, v@[i as int].1@));
        let ghost t0 = t@;
        match show_value(h, m, &v[i].0, true, depth) {
            Shown::Text(a) => match show_value(h, m, &v[i].1, true, depth) {
                Shown::Text(b) => {
                    push_more(&mut t, i == 0);
                    if i == 0 {
                        t = String::new();
                    }
                    t.append(a.as_str());
                    t.append(": ");
                    t.append(b.as_str());
                    assert(t@ =~= more(t0, i == 0, a@ + ": "@ + b@));
                },
                s => {
                    proof {
                        entries_stop(hv, mv, vv, (i + 1) as nat, depth as nat);
                    }
                    return s;
                },
            },
            s => {
                proof {
                    entries_stop(hv, mv, vv, (i + 1) as nat, depth as nat);
                }
                return s;
            },
        }
    }
    Shown::Text(t)
}

fn show_fields_of(
    h: &Vec<Obj>,
    m: &HashMap<u64, String>,
    v: &Vec<(String, Value)>,
    depth: usize,
) -> (r: Shown)
    ensures
        r@ == show_fields(
            heap_view(h@),
            texts_map(m@),
            members_view(v@),
            v@.len(),
            depth as nat,
        ),
    decreases depth, 1nat, 0nat,
{
    let ghost vv = members_view(v@);
    let ghost hv = heap_view(h@);
    let ghost mv = texts_map(m@);
    let mut t = String::new();
    assert(t@ =~= Seq::empty());
    for i in 0..v.len()
        invariant
            vv == members_view(v@),
            hv == heap_view(h@),
            mv == texts_map(m@),
            show_fields(hv, mv, vv, i as nat, depth as nat) == ShownView::Text(t@),
    {
        assert(vv[i as int] == (v@[i as int].0@, v@[i as int].1@));
        let ghost t0 = t@;
        match show_value(h, m, &v[i].1, true, depth) {
            Shown::Text(b) => {
                push_more(&mut t, i == 0);
                if i == 0 {
                    t = String::new();
                }
                t.append(v[i].0.as_str());
                t.append(": ");
                t.append(b.as_str());
                assert(t@ =~= more(t0, i == 0, vv[i as int].0 + ": "@ + b@));
            },
            s => {
                proof {
                    fields_stop(hv, mv, vv, (i + 1) as nat, depth as nat);
                }
                return s;
            },
        }
    }
    Shown::Text(t)
}

/// The texts of the first `k` values with `sep` between them.
pub open spec fn show_joined(
    h: Seq<ObjView>,
    m: Map<u64, Seq<char>>,
    v: Seq<ValueView>,
    sep: Seq<char>,
    quoted: bool,
    k: nat,
) -> ShownView
    decreases k,
{
    if k == 0 || k > v.len() {
        ShownView::Text(Seq::empty())
    } else {
        match show_joined(h, m, v, sep, quoted, (k - 1) as nat) {
            ShownView::Text(t) => match show(h, m, v[k - 1], quoted, h.len()) {
                ShownView::Text(u) => ShownView::Text(
                    if k == 1 {
                        u
                    } else {
                        t + sep + u
                    },
                ),
                s => s,
            },
            s => s,
        }
    }
}

proof fn joined_stop(
    h: Seq<ObjView>,
    m: Map<u64, Seq<char>>,
    v: Seq<ValueView>,
    sep: Seq<char>,
    quoted: bool,
    k: nat,
)
    requires
        k <= v.len(),
        !(show_joined(h, m, v, sep, quoted, k) is Text),
    ensures
        show_joined(h, m, v, sep, quoted, v.len()) == show_joined(h, m, v, sep, quoted, k),
    decreases v.len() - k,
{
    if k < v.len() {
        joined_stop(h, m, v, sep, quoted, k + 1);
    }
}

/// The texts of values with `sep` between them.
pub fn show_values(
    h: &Vec<Obj>,
    m: &HashMap<u64, String>,
    v: &Vec<Value>,
    sep: &str,
    quoted: bool,
) -> (r: Shown)
    ensures
        r@ == show_joined(
            heap_view(h@),
            texts_map(m@),
            values_view(v@),
            sep@,
            quoted,
            v@.len(),
        ),
{
    let ghost vv = values_view(v@);
    let ghost hv = heap_view(h@);
    let ghost mv = texts_map(m@);
    let mut t = String::new();
    assert(t@ =~= Seq::empty());
    for i in 0..v.len()
        invariant
            vv == values_view(v@),
            hv == heap_view(h@),
            mv == texts_map(m@),
            show_joined(hv, mv, vv, sep@, quoted, i as nat) == ShownView::Text(t@),
    {
        assert(vv[i as int] == v@[i as int]@);
        match show_value(h, m, &v[i], quoted, h.len()) {
            Shown::Text(u) => {
                if i == 0 {
                    t = u;
                } else {
                    t.append(sep);
                    t.append(u.as_str());
                }
            },
            s => {
                proof {
                    joined_stop(hv, mv, vv, sep@, quoted, (i + 1) as nat);
                }
                return s;
            },
        }
    }
    Shown::Text(t)
}

} // verus!
