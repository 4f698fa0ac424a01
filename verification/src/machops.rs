//! What the steps of the interpreter ask of values, and the forms of calls.

use crate::ast::{
    exprs_view, fields_view, named_view, pairs_view, wrap48_spec, Expr, ExprView, Field, FieldView,
    UnOp,
};
use crate::calls::{text_values, texts_of};
use crate::floatbits::{negate, negated};
use crate::irstate::{find_named_arg, named_arg};
use crate::machstate::{field_at, find_field, Src, SrcView};
use crate::operate::{
    int_range, out_fail, range_values, wrap_wide, Goal, Out, OutView, Task, TaskView,
};
use crate::strings::{bounds_of, byte_slice, byte_texts, bytes_apart, slice_bytes, slice_range};
use crate::text::{push_char, str_eq, to_chars};
use crate::value::{
    copy_values, dict_at, entries_view, entry_get, get_dict, get_list, heap_view, keys_of, list_at,
    members_view, text_value, values_view, Obj, ObjView, Value, ValueView,
};
use vstd::prelude::*;
use vstd::string::StringExecFns;

verus! {

pub open spec fn unary_out(op: UnOp, v: ValueView) -> OutView {
    match (op, v) {
        (UnOp::Neg, ValueView::Int(n)) => OutView::Give(
            ValueView::Int(wrap48_spec(-(n as int)) as i64),
        ),
        (UnOp::Neg, ValueView::Float(b)) => OutView::Give(ValueView::Float(negated(b))),
        (UnOp::Not, ValueView::Bool(b)) => OutView::Give(ValueView::Bool(!b)),
        _ => OutView::Fail("bad operand to unary operator"@),
    }
}

pub fn unary(op: UnOp, v: Value) -> (r: Out)
    ensures
        r@ == unary_out(op, v@),
{
    match (op, v) {
        (UnOp::Neg, Value::Int(n)) => Out::Give(Value::Int(wrap_wide(-(n as i128)))),
        (UnOp::Neg, Value::Float(b)) => Out::Give(Value::Float(negate(b))),
        (UnOp::Not, Value::Bool(b)) => Out::Give(Value::Bool(!b)),
        _ => out_fail("bad operand to unary operator"),
    }
}

/// An element of a list or a map, or a character of a string.
pub open spec fn index_out(h: Seq<ObjView>, o: ValueView, k: ValueView) -> OutView {
    match (o, k) {
        (ValueView::List(a), ValueView::Int(i)) => match list_at(h, a) {
            Some(s) => if 0 <= i < s.len() {
                OutView::Give(s[i as int])
            } else {
                OutView::Fail("index out of range"@)
            },
            None => OutView::Fail("bad index operation"@),
        },
        (ValueView::Str(s), ValueView::Int(i)) => if 0 <= i < s.len() {
            OutView::Give(ValueView::Str(seq![s[i as int]]))
        } else {
            OutView::Fail("index out of range"@)
        },
        (ValueView::Dict(a), _) => match dict_at(h, a) {
            Some(m) => match entry_get(m, k) {
                Some(v) => OutView::Give(v),
                None => OutView::Do(
                    TaskView::Show { vals: seq![k], sep: ""@, quoted: true, goal: Goal::Key },
                ),
            },
            None => OutView::Fail("bad index operation"@),
        },
        _ => OutView::Fail("bad index operation"@),
    }
}

fn show_key(k: Value) -> (r: Out)
    ensures
        r@ == OutView::Do(
            TaskView::Show { vals: seq![k@], sep: ""@, quoted: true, goal: Goal::Key },
        ),
{
    let mut vals: Vec<Value> = Vec::new();
    vals.push(k);
    assert(values_view(vals@) =~= seq![k@]);
    Out::Do(Task::Show { vals, sep: "".to_owned(), quoted: true, goal: Goal::Key })
}

pub fn index(h: &Vec<Obj>, o: &Value, k: Value) -> (r: Out)
    ensures
        r@ == index_out(heap_view(h@), o@, k@),
{
    match o {
        Value::List(a) => match &k {
            Value::Int(i) => match get_list(h, *a) {
                Some(s) => if 0 <= *i && (*i as u64) < s.len() as u64 {
                    assert(values_view(s@)[*i as int] == s@[*i as int]@);
                    Out::Give(s[*i as usize].clone())
                } else {
                    out_fail("index out of range")
                },
                None => out_fail("bad index operation"),
            },
            _ => out_fail("bad index operation"),
        },
        Value::Str(s) => match &k {
            Value::Int(i) => {
                let v = to_chars(s.as_str());
                if 0 <= *i && (*i as u64) < v.len() as u64 {
                    let mut t = String::new();
                    push_char(&mut t, v[*i as usize]);
                    assert(t@ =~= seq![s@[*i as int]]);
                    Out::Give(text_value(t))
                } else {
                    out_fail("index out of range")
                }
            },
            _ => out_fail("bad index operation"),
        },
        Value::Dict(a) => match get_dict(h, *a) {
            Some(m) => match m.get(&k) {
                Some(v) => Out::Give(v),
                None => show_key(k),
            },
            None => out_fail("bad index operation"),
        },
        _ => out_fail("bad index operation"),
    }
}

pub open spec fn lower_bound(lo: Option<i64>) -> int {
    match lo {
        Some(k) => k as int,
        None => 0,
    }
}

pub open spec fn upper_bound(hi: Option<i64>, n: nat) -> int {
    match hi {
        Some(k) => k as int,
        None => n as int,
    }
}

/// A part of a list, or of a string by its bytes.
pub open spec fn slice_out(
    h: Seq<ObjView>,
    o: ValueView,
    lo: Option<i64>,
    hi: Option<i64>,
) -> OutView {
    match o {
        ValueView::List(a) => match list_at(h, a) {
            Some(s) => {
                let (i, j) = slice_range(lower_bound(lo), upper_bound(hi, s.len()), s.len() as int);
                OutView::List(s.subrange(i, j))
            },
            None => OutView::Fail("can only slice a list or string"@),
        },
        ValueView::Str(s) => {
            let n = vstd::utf8::encode_utf8(s).len();
            let (i, j) = slice_range(lower_bound(lo), upper_bound(hi, n), n as int);
            OutView::Give(ValueView::Str(byte_slice(s, i, j)))
        },
        _ => OutView::Fail("can only slice a list or string"@),
    }
}

pub fn slice(h: &Vec<Obj>, o: &Value, lo: Option<i64>, hi: Option<i64>) -> (r: Out)
    ensures
        r@ == slice_out(heap_view(h@), o@, lo, hi),
{
    match o {
        Value::List(a) => match get_list(h, *a) {
            Some(s) => {
                let (i, j) = bounds_of(lo, hi, s.len());
                Out::List(copy_values(s, i, j))
            },
            None => out_fail("can only slice a list or string"),
        },
        Value::Str(s) => Out::Give(text_value(slice_bytes(s.as_str(), lo, hi))),
        _ => out_fail("can only slice a list or string"),
    }
}

/// A field of a struct.
pub open spec fn field_out(h: Seq<ObjView>, v: ValueView, n: Seq<char>) -> OutView {
    let other = OutView::Fail("cannot access field '"@ + n + "' of non-struct"@);
    match v {
        ValueView::Struct(a) => if a < h.len() {
            match h[a as int] {
                ObjView::Struct { name, fields } => match field_at(fields, n, 0) {
                    Some(i) => OutView::Give(fields[i].1),
                    None => OutView::Fail("no field '"@ + n + "'"@),
                },
                _ => other,
            }
        } else {
            other
        },
        _ => other,
    }
}

fn no_struct(n: &str) -> (r: Out)
    ensures
        r@ == OutView::Fail("cannot access field '"@ + n@ + "' of non-struct"@),
{
    let mut m = "cannot access field '".to_owned();
    m.append(n);
    m.append("' of non-struct");
    Out::Fail(m)
}

pub fn get_field(h: &Vec<Obj>, v: &Value, n: &str) -> (r: Out)
    ensures
        r@ == field_out(heap_view(h@), v@, n@),
{
    match v {
        Value::Struct(a) => {
            if *a < h.len() {
                assert(heap_view(h@)[*a as int] == h@[*a as int]@);
                match &h[*a] {
                    Obj::Struct { name: _, fields } => match find_field(fields, n) {
                        Some(i) => {
                            assert(members_view(fields@)[i as int] == (
                                fields@[i as int].0@,
                                fields@[i as int].1@
                            ));
                            Out::Give(fields[i].1.clone())
                        },
                        None => {
                            let mut m = "no field '".to_owned();
                            m.append(n);
                            m.append("'");
                            Out::Fail(m)
                        },
                    },
                    _ => no_struct(n),
                }
            } else {
                no_struct(n)
            }
        },
        _ => no_struct(n),
    }
}

/// The name of the struct that a value is.
pub open spec fn struct_of(h: Seq<ObjView>, v: ValueView) -> Option<Seq<char>> {
    match v {
        ValueView::Struct(a) => if a < h.len() {
            match h[a as int] {
                ObjView::Struct { name, .. } => Some(name),
                _ => None,
            }
        } else {
            None
        },
        _ => None,
    }
}

pub fn find_struct(h: &Vec<Obj>, v: &Value) -> (r: Option<String>)
    ensures
        match r {
            Some(s) => struct_of(heap_view(h@), v@) == Some(s@),
            None => struct_of(heap_view(h@), v@) is None,
        },
{
    match v {
        Value::Struct(a) => {
            if *a < h.len() {
                assert(heap_view(h@)[*a as int] == h@[*a as int]@);
                match &h[*a] {
                    Obj::Struct { name, .. } => Some(name.clone()),
                    _ => None,
                }
            } else {
                None
            }
        },
        _ => None,
    }
}

/// The function that a value is, with what it captured.
pub open spec fn func_value(h: Seq<ObjView>, v: ValueView) -> Option<(usize, Seq<ValueView>)> {
    match v {
        ValueView::Func(a) => if a < h.len() {
            match h[a as int] {
                ObjView::Func { def, caps, .. } => Some((def, caps)),
                _ => None,
            }
        } else {
            None
        },
        _ => None,
    }
}

pub fn find_func(h: &Vec<Obj>, v: &Value) -> (r: Option<(usize, Vec<Value>)>)
    ensures
        match r {
            Some(p) => func_value(heap_view(h@), v@) == Some((p.0, values_view(p.1@))),
            None => func_value(heap_view(h@), v@) is None,
        },
{
    match v {
        Value::Func(a) => {
            if *a < h.len() {
                assert(heap_view(h@)[*a as int] == h@[*a as int]@);
                match &h[*a] {
                    Obj::Func { def, caps, .. } => {
                        let c = copy_values(caps, 0, caps.len());
                        assert(values_view(c@) =~= values_view(caps@));
                        Some((*def, c))
                    },
                    _ => None,
                }
            } else {
                None
            }
        },
        _ => None,
    }
}

/// Two lists of values as one.
pub fn chain(mut a: Vec<Value>, b: Vec<Value>) -> (r: Vec<Value>)
    ensures
        values_view(r@) == values_view(a@) + values_view(b@),
{
    let ghost a0 = a@;
    let mut rest = b;
    a.append(&mut rest);
    assert(values_view(a@) =~= values_view(a0) + values_view(b@));
    a
}

/// The integers of a range.
pub open spec fn range_items(lo: ValueView, hi: ValueView) -> Option<Seq<ValueView>> {
    match (lo, hi) {
        (ValueView::Int(a), ValueView::Int(b)) => Some(int_range(a, b)),
        _ => None,
    }
}

pub fn get_range(lo: &Value, hi: &Value) -> (r: Option<Vec<Value>>)
    ensures
        match r {
            Some(v) => range_items(lo@, hi@) == Some(values_view(v@)),
            None => range_items(lo@, hi@) is None,
        },
{
    match (lo, hi) {
        (Value::Int(a), Value::Int(b)) => Some(range_values(*a, *b)),
        _ => None,
    }
}

/// What a loop over a value runs through: the items of a list, the keys of a map, or the
/// bytes of a string.
pub open spec fn items_of(h: Seq<ObjView>, v: ValueView) -> Option<Seq<ValueView>> {
    match v {
        ValueView::List(a) => list_at(h, a),
        ValueView::Dict(a) => match dict_at(h, a) {
            Some(m) => Some(keys_of(m)),
            None => None,
        },
        ValueView::Str(s) => Some(texts_of(byte_texts(vstd::utf8::encode_utf8(s)))),
        _ => None,
    }
}

pub fn get_items(h: &Vec<Obj>, v: &Value) -> (r: Option<Vec<Value>>)
    ensures
        match r {
            Some(s) => items_of(heap_view(h@), v@) == Some(values_view(s@)),
            None => items_of(heap_view(h@), v@) is None,
        },
{
    match v {
        Value::List(a) => match get_list(h, *a) {
            Some(s) => {
                let c = copy_values(s, 0, s.len());
                assert(values_view(c@) =~= values_view(s@));
                Some(c)
            },
            None => None,
        },
        Value::Dict(a) => match get_dict(h, *a) {
            Some(m) => Some(m.keys()),
            None => None,
        },
        Value::Str(s) => Some(text_values(bytes_apart(s.as_str()))),
        _ => None,
    }
}

/// Keys and values that were evaluated in turn.
pub open spec fn pair_up(s: Seq<ValueView>) -> Seq<(ValueView, ValueView)> {
    Seq::new(s.len() / 2, |i: int| (s[2 * i], s[2 * i + 1]))
}

pub fn get_pairs(v: Vec<Value>) -> (r: Vec<(Value, Value)>)
    ensures
        entries_view(r@) == pair_up(values_view(v@)),
{
    let mut r: Vec<(Value, Value)> = Vec::new();
    let ghost s = values_view(v@);
    let n: usize = v.len() / 2;
    assert(entries_view(r@) =~= pair_up(s).take(0));
    for i in 0..n
        invariant
            n == v@.len() / 2,
            s == values_view(v@),
            entries_view(r@) == pair_up(s).take(i as int),
    {
        assert(s[2 * i] == v@[2 * i]@ && s[2 * i + 1] == v@[2 * i + 1]@);
        let p = (v[2 * i].clone(), v[2 * i + 1].clone());
        let ghost r0 = r@;
        r.push(p);
        assert(entries_view(r@) =~= entries_view(r0).push((p.0@, p.1@)));
        assert(entries_view(r@) =~= pair_up(s).take(i + 1));
    }
    assert(entries_view(r@) =~= pair_up(s));
    r
}

/// The fields of a struct from its values in order; a field without a value is `nil`.
pub open spec fn by_place(fs: Seq<FieldView>, s: Seq<ValueView>) -> Seq<(Seq<char>, ValueView)> {
    Seq::new(
        fs.len(),
        |i: int|
            (
                fs[i].name,
                if i < s.len() {
                    s[i]
                } else {
                    ValueView::Nil
                },
            ),
    )
}

pub fn fields_by_place(fs: &Vec<Field>, s: Vec<Value>) -> (r: Vec<(String, Value)>)
    ensures
        members_view(r@) == by_place(fields_view(fs@), values_view(s@)),
{
    let mut r: Vec<(String, Value)> = Vec::new();
    let ghost fv = fields_view(fs@);
    let ghost sv = values_view(s@);
    assert(members_view(r@) =~= by_place(fv, sv).take(0));
    for i in 0..fs.len()
        invariant
            fv == fields_view(fs@),
            sv == values_view(s@),
            members_view(r@) == by_place(fv, sv).take(i as int),
    {
        assert(fv[i as int] == fs@[i as int]@);
        let v = if i < s.len() {
            assert(sv[i as int] == s@[i as int]@);
            s[i].clone()
        } else {
            Value::Nil
        };
        let ghost r0 = r@;
        r.push((fs[i].name.clone(), v));
        assert(members_view(r@) =~= members_view(r0).push((fv[i as int].name, v@)));
        assert(members_view(r@) =~= by_place(fv, sv).take(i + 1));
    }
    assert(members_view(r@) =~= by_place(fv, sv));
    r
}

/// The value of the argument of a name.
pub open spec fn named_value(
    args: Seq<(Seq<char>, ExprView)>,
    s: Seq<ValueView>,
    n: Seq<char>,
) -> ValueView {
    match named_arg(args, n, 0) {
        Some(i) => if 0 <= i < s.len() {
            s[i]
        } else {
            ValueView::Nil
        },
        None => ValueView::Nil,
    }
}

/// The fields of a struct from its values by name; a field without a value is `nil`.
pub open spec fn by_name(
    fs: Seq<FieldView>,
    args: Seq<(Seq<char>, ExprView)>,
    s: Seq<ValueView>,
) -> Seq<(Seq<char>, ValueView)> {
    Seq::new(fs.len(), |i: int| (fs[i].name, named_value(args, s, fs[i].name)))
}

pub fn fields_by_name(fs: &Vec<Field>, args: &Vec<(String, Expr)>, s: Vec<Value>) -> (r: Vec<
    (String, Value),
>)
    ensures
        members_view(r@) == by_name(fields_view(fs@), named_view(args@), values_view(s@)),
{
    let mut r: Vec<(String, Value)> = Vec::new();
    let ghost fv = fields_view(fs@);
    let ghost sv = values_view(s@);
    let ghost av = named_view(args@);
    assert(members_view(r@) =~= by_name(fv, av, sv).take(0));
    for i in 0..fs.len()
        invariant
            fv == fields_view(fs@),
            sv == values_view(s@),
            av == named_view(args@),
            members_view(r@) == by_name(fv, av, sv).take(i as int),
    {
        assert(fv[i as int] == fs@[i as int]@);
        let v = match find_named_arg(args, fs[i].name.as_str()) {
            Some(j) => if j < s.len() {
                assert(sv[j as int] == s@[j as int]@);
                s[j].clone()
            } else {
                Value::Nil
            },
            None => Value::Nil,
        };
        let ghost r0 = r@;
        r.push((fs[i].name.clone(), v));
        assert(members_view(r@) =~= members_view(r0).push((fv[i as int].name, v@)));
        assert(members_view(r@) =~= by_name(fv, av, sv).take(i + 1));
    }
    assert(members_view(r@) =~= by_name(fv, av, sv));
    r
}

/// The `i`-th expression to evaluate.
pub open spec fn nth_expr(src: SrcView, i: nat) -> Option<ExprView> {
    match src {
        SrcView::Exprs { s } => if i < s.len() {
            Some(s[i as int])
        } else {
            None
        },
        SrcView::Pairs { s } => if i / 2 < s.len() {
            Some(
                if i % 2 == 0 {
                    s[(i / 2) as int].0
                } else {
                    s[(i / 2) as int].1
                },
            )
        } else {
            None
        },
        SrcView::Named { s } => if i < s.len() {
            Some(s[i as int].1)
        } else {
            None
        },
    }
}

pub fn get_expr<'a>(src: &Src<'a>, i: usize) -> (r: Option<&'a Expr>)
    ensures
        match r {
            Some(e) => nth_expr(src@, i as nat) == Some(e@),
            None => nth_expr(src@, i as nat) is None,
        },
{
    match src {
        Src::Exprs { s } => {
            if i < s.len() {
                assert(exprs_view(s@)[i as int] == s@[i as int]@);
                Some(&s[i])
            } else {
                None
            }
        },
        Src::Pairs { s } => {
            if i / 2 < s.len() {
                assert(pairs_view(s@)[(i / 2) as int] == (
                    s@[(i / 2) as int].0@,
                    s@[(i / 2) as int].1@
                ));
                if i % 2 == 0 {
                    Some(&s[i / 2].0)
                } else {
                    Some(&s[i / 2].1)
                }
            } else {
                None
            }
        },
        Src::Named { s } => {
            if i < s.len() {
                assert(named_view(s@)[i as int] == (s@[i as int].0@, s@[i as int].1@));
                Some(&s[i].1)
            } else {
                None
            }
        },
    }
}

/// How a call of a method goes on once its receiver is known.
#[derive(Clone, Copy, PartialEq, Eq, Structural, Debug)]
pub enum MethodWay {
    /// It needs no argument.
    Now,
    Push,
    Reverse,
    Sort,
    Pop,
    /// It needs its first argument.
    First,
    /// It is none of the built-in ones.
    Other,
}

pub open spec fn list_way(n: Seq<char>) -> MethodWay {
    if n == "len"@ {
        MethodWay::Now
    } else if n == "push"@ {
        MethodWay::Push
    } else if n == "reverse"@ {
        MethodWay::Reverse
    } else if n == "sort"@ {
        MethodWay::Sort
    } else if n == "pop"@ {
        MethodWay::Pop
    } else if n == "insert"@ || n == "contains"@ || n == "index"@ || n == "count"@ || n == "join"@ {
        MethodWay::First
    } else {
        MethodWay::Other
    }
}

pub open spec fn dict_way(n: Seq<char>) -> MethodWay {
    if n == "len"@ || n == "keys"@ || n == "values"@ {
        MethodWay::Now
    } else if n == "has"@ || n == "contains"@ || n == "get"@ || n == "remove"@ {
        MethodWay::First
    } else {
        MethodWay::Other
    }
}

pub open spec fn text_way(n: Seq<char>) -> MethodWay {
    if n == "len"@ || n == "upper"@ || n == "lower"@ || n == "trim"@ || n == "lstrip"@ || n
        == "rstrip"@ || n == "title"@ {
        MethodWay::Now
    } else if n == "starts_with"@ || n == "ends_with"@ || n == "contains"@ || n == "split"@ || n
        == "find"@ || n == "replace"@ || n == "join"@ || n == "repeat"@ {
        MethodWay::First
    } else {
        MethodWay::Other
    }
}

pub open spec fn method_way(v: ValueView, n: Seq<char>) -> MethodWay {
    match v {
        ValueView::List(_) => list_way(n),
        ValueView::Dict(_) => dict_way(n),
        ValueView::Str(_) => text_way(n),
        _ => MethodWay::Other,
    }
}

pub fn find_way(v: &Value, n: &str) -> (r: MethodWay)
    ensures
        r == method_way(v@, n@),
{
    match v {
        Value::List(_) => {
            if str_eq(n, "len") {
                MethodWay::Now
            } else if str_eq(n, "push") {
                MethodWay::Push
            } else if str_eq(n, "reverse") {
                MethodWay::Reverse
            } else if str_eq(n, "sort") {
                MethodWay::Sort
            } else if str_eq(n, "pop") {
                MethodWay::Pop
            } else if str_eq(n, "insert") || str_eq(n, "contains") || str_eq(n, "index") || str_eq(
                n,
                "count",
            ) || str_eq(n, "join") {
                MethodWay::First
            } else {
                MethodWay::Other
            }
        },
        Value::Dict(_) => {
            if str_eq(n, "len") || str_eq(n, "keys") || str_eq(n, "values") {
                MethodWay::Now
            } else if str_eq(n, "has") || str_eq(n, "contains") || str_eq(n, "get") || str_eq(
                n,
                "remove",
            ) {
                MethodWay::First
            } else {
                MethodWay::Other
            }
        },
        Value::Str(_) => {
            if str_eq(n, "len") || str_eq(n, "upper") || str_eq(n, "lower") || str_eq(n, "trim")
                || str_eq(n, "lstrip") || str_eq(n, "rstrip") || str_eq(n, "title") {
                MethodWay::Now
            } else if str_eq(n, "starts_with") || str_eq(n, "ends_with") || str_eq(n, "contains")
                || str_eq(n, "split") || str_eq(n, "find") || str_eq(n, "replace") || str_eq(
                n,
                "join",
            ) || str_eq(n, "repeat") {
                MethodWay::First
            } else {
                MethodWay::Other
            }
        },
        _ => MethodWay::Other,
    }
}

} // verus!
