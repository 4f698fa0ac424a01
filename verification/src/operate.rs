//! What operators and built-in functions of the language give for values. Floats are
//! computed outside: an operation that needs one is handed out as a request.

use crate::ast::{wrap48, wrap48_range, wrap48_ring, wrap48_spec, BinOp};
use crate::divide::{quotient, remainder};
use crate::floatbits::{equal, float_eq, float_lt, less};
use crate::text::{concat, contains_text, has_text, is_less, text_less};
use crate::value::{
    dict_at, entry_at, get_dict, get_list, heap_view, list_at, show_joined, show_values,
    text_value, texts_map, values_eq, values_equal, values_push, values_view, Obj, ObjView, Shown,
    ShownView, Value, ValueView,
};
use std::collections::HashMap;
use vstd::prelude::*;

verus! {

broadcast use vstd::std_specs::hash::group_hash_axioms;

/// What the text of values is for.
#[derive(Debug, Clone, Copy, PartialEq, Eq, Structural)]
pub enum Goal {
    /// A string value.
    Text,
    /// A line of output.
    Print,
    /// An error that the program raises.
    Raise,
    /// The error of a key that is not in a map.
    Key,
    /// The prompt of an input.
    Prompt,
}

/// Work that may have to wait for what is known of floats.
#[derive(Debug)]
pub enum Task {
    Show { vals: Vec<Value>, sep: String, quoted: bool, goal: Goal },
    Sort { list: usize },
    Best { items: Vec<Value>, least: bool },
    Float { op: BinOp, left: Value, right: Value },
    ToFloat { n: i64 },
}

pub enum TaskView {
    Show { vals: Seq<ValueView>, sep: Seq<char>, quoted: bool, goal: Goal },
    Sort { list: usize },
    Best { items: Seq<ValueView>, least: bool },
    Float { op: BinOp, left: ValueView, right: ValueView },
    ToFloat { n: i64 },
}

impl View for Task {
    type V = TaskView;

    open spec fn view(&self) -> TaskView {
        match *self {
            Task::Show { vals, sep, quoted, goal } => TaskView::Show {
                vals: values_view(vals@),
                sep: sep@,
                quoted,
                goal,
            },
            Task::Sort { list } => TaskView::Sort { list },
            Task::Best { items, least } => TaskView::Best { items: values_view(items@), least },
            Task::Float { op, left, right } => TaskView::Float { op, left: left@, right: right@ },
            Task::ToFloat { n } => TaskView::ToFloat { n },
        }
    }
}

/// A request to the outside.
#[derive(Debug)]
pub enum Action {
    /// The text of a float.
    FloatText { bits: u64 },
    /// The float nearest to an integer.
    FloatOf { n: i64 },
    /// An operation on floats.
    Arith { op: BinOp, a: u64, b: u64 },
    /// The integer part of a float.
    Truncate { bits: u64 },
    /// The integer nearest to a float.
    Round { bits: u64 },
    /// The float that a text is.
    ParseFloat { text: String },
    /// The sum of numbers as floats.
    Sum { items: Vec<Value> },
    /// A line of output.
    Print { text: String },
    /// A line of input.
    Input { prompt: Option<String> },
    /// A function of a built-in module.
    Module { module: String, name: String, args: Vec<Value> },
    /// A function of a foreign library.
    Extern { name: String, args: Vec<Value> },
}

pub enum ActionView {
    FloatText { bits: u64 },
    FloatOf { n: i64 },
    Arith { op: BinOp, a: u64, b: u64 },
    Truncate { bits: u64 },
    Round { bits: u64 },
    ParseFloat { text: Seq<char> },
    Sum { items: Seq<ValueView> },
    Print { text: Seq<char> },
    Input { prompt: Option<Seq<char>> },
    Module { module: Seq<char>, name: Seq<char>, args: Seq<ValueView> },
    Extern { name: Seq<char>, args: Seq<ValueView> },
}

impl View for Action {
    type V = ActionView;

    open spec fn view(&self) -> ActionView {
        match *self {
            Action::FloatText { bits } => ActionView::FloatText { bits },
            Action::FloatOf { n } => ActionView::FloatOf { n },
            Action::Arith { op, a, b } => ActionView::Arith { op, a, b },
            Action::Truncate { bits } => ActionView::Truncate { bits },
            Action::Round { bits } => ActionView::Round { bits },
            Action::ParseFloat { text } => ActionView::ParseFloat { text: text@ },
            Action::Sum { items } => ActionView::Sum { items: values_view(items@) },
            Action::Print { text } => ActionView::Print { text: text@ },
            Action::Input { prompt } => ActionView::Input {
                prompt: match prompt {
                    Some(s) => Some(s@),
                    None => None,
                },
            },
            Action::Module { module, name, args } => ActionView::Module {
                module: module@,
                name: name@,
                args: values_view(args@),
            },
            Action::Extern { name, args } => ActionView::Extern {
                name: name@,
                args: values_view(args@),
            },
        }
    }
}

/// What an operation comes to.
#[derive(Debug)]
pub enum Out {
    Give(Value),
    /// A new list.
    List(Vec<Value>),
    Fail(String),
    Do(Task),
    /// A request whose answer is the result.
    Ask(Action),
    /// A request after whose answer the work is tried again.
    Wait(Action),
}

pub enum OutView {
    Give(ValueView),
    List(Seq<ValueView>),
    Fail(Seq<char>),
    Do(TaskView),
    Ask(ActionView),
    Wait(ActionView),
}

impl View for Out {
    type V = OutView;

    open spec fn view(&self) -> OutView {
        match *self {
            Out::Give(v) => OutView::Give(v@),
            Out::List(v) => OutView::List(values_view(v@)),
            Out::Fail(m) => OutView::Fail(m@),
            Out::Do(t) => OutView::Do(t@),
            Out::Ask(a) => OutView::Ask(a@),
            Out::Wait(a) => OutView::Wait(a@),
        }
    }
}

pub fn out_fail(m: &str) -> (r: Out)
    ensures
        r@ == OutView::Fail(m@),
{
    Out::Fail(m.to_owned())
}

pub fn give_text(s: &str) -> (r: Out)
    ensures
        r@ == OutView::Give(ValueView::Str(s@)),
{
    Out::Give(text_value(s.to_owned()))
}

/// A length as a value.
pub open spec fn len_int(n: nat) -> i64 {
    if n <= i64::MAX {
        n as i64
    } else {
        i64::MAX
    }
}

pub fn to_int(n: usize) -> (r: i64)
    ensures
        r == len_int(n as nat),
{
    if n as u64 <= 0x7fff_ffff_ffff_ffff {
        n as i64
    } else {
        0x7fff_ffff_ffff_ffff
    }
}

/// Wraps a result of up to 126 bits to 48.
pub fn wrap_wide(m: i128) -> (r: i64)
    requires
        -0x4000_0000_0000_0000_0000_0000_0000_0000 <= m <= 0x4000_0000_0000_0000_0000_0000_0000_0000,
    ensures
        r == wrap48_spec(m as int),
{
    let k: i128 = 0x4000_0000_0000_0000_0000_8000_0000_0000;
    let shifted: u128 = if m >= 0 {
        m as u128 + 0x8000_0000_0000
    } else {
        (m + k) as u128
    };
    let low: u128 = shifted % 0x1_0000_0000_0000;
    proof {
        let h = m as int + 0x8000_0000_0000;
        let c = 0x4000_0000_0000_0000_0000int;
        assert(k as int == 0x1_0000_0000_0000int * c + 0x8000_0000_0000);
        vstd::arithmetic::div_mod::lemma_mod_multiples_vanish(c, h, 0x1_0000_0000_0000);
    }
    low as i64 - 0x8000_0000_0000
}

/// `a` to the power `b`, wrapped at every step.
pub open spec fn power48(a: int, b: nat) -> int
    decreases b,
{
    if b == 0 {
        1
    } else {
        wrap48_spec(power48(a, (b - 1) as nat) * a)
    }
}

fn int_power(a: i64, b: i64) -> (r: i64)
    requires
        b >= 0,
    ensures
        r == power48(a as int, b as nat),
{
    let mut acc: i64 = 1;
    for i in 0..b
        invariant
            acc == power48(a as int, i as nat),
            -0x8000_0000_0000 <= acc <= 0x8000_0000_0000,
    {
        assert(-0x8000_0000_0000_0000_0000_0000_0000 <= acc as int * a as int
            <= 0x8000_0000_0000_0000_0000_0000_0000) by (nonlinear_arith)
            requires
                -0x8000_0000_0000 <= acc <= 0x8000_0000_0000,
                -0x8000_0000_0000_0000 <= a <= 0x8000_0000_0000_0000,
        ;
        acc = wrap_wide(acc as i128 * a as i128);
    }
    acc
}

fn divide(a: i64, b: i64) -> (r: (i128, i128))
    requires
        b != 0,
    ensures
        r.0 == quotient(a as int, b as int),
        r.1 == remainder(a as int, b as int),
        -0x8000_0000_0000_0000 <= r.0 <= 0x8000_0000_0000_0000,
        -0x8000_0000_0000_0000 <= r.1 <= 0x8000_0000_0000_0000,
{
    let n: u128 = if a < 0 {
        (-(a as i128)) as u128
    } else {
        a as u128
    };
    let d: u128 = if b < 0 {
        (-(b as i128)) as u128
    } else {
        b as u128
    };
    let q: u128 = n / d;
    let m: u128 = n % d;
    assert(n == d * q + m && q <= n && m < d) by (nonlinear_arith)
        requires
            d >= 1,
            q == n / d,
            m == n % d,
    ;
    let sq: i128 = if (a < 0) == (b < 0) {
        q as i128
    } else {
        -(q as i128)
    };
    let sm: i128 = if a < 0 {
        -(m as i128)
    } else {
        m as i128
    };
    assert(sm as int == a as int - b as int * sq as int) by (nonlinear_arith)
        requires
            n == d * q + m,
            n == (if a < 0 { -a as int } else { a as int }),
            d == (if b < 0 { -b as int } else { b as int }),
            sq == (if (a < 0) == (b < 0) { q as int } else { -(q as int) }),
            sm == (if a < 0 { -(m as int) } else { m as int }),
    ;
    (sq, sm)
}

/// The name of an operator in messages.
pub open spec fn op_name(op: BinOp) -> Seq<char> {
    match op {
        BinOp::Add => "Add"@,
        BinOp::Sub => "Sub"@,
        BinOp::Mul => "Mul"@,
        BinOp::Pow => "Pow"@,
        BinOp::Div => "Div"@,
        BinOp::Mod => "Mod"@,
        BinOp::Eq => "Eq"@,
        BinOp::Ne => "Ne"@,
        BinOp::Lt => "Lt"@,
        BinOp::Le => "Le"@,
        BinOp::Gt => "Gt"@,
        BinOp::Ge => "Ge"@,
        BinOp::And => "And"@,
        BinOp::Or => "Or"@,
        BinOp::In => "In"@,
        BinOp::NotIn => "NotIn"@,
    }
}

fn name_of_op(op: BinOp) -> (r: &'static str)
    ensures
        r@ == op_name(op),
{
    match op {
        BinOp::Add => "Add",
        BinOp::Sub => "Sub",
        BinOp::Mul => "Mul",
        BinOp::Pow => "Pow",
        BinOp::Div => "Div",
        BinOp::Mod => "Mod",
        BinOp::Eq => "Eq",
        BinOp::Ne => "Ne",
        BinOp::Lt => "Lt",
        BinOp::Le => "Le",
        BinOp::Gt => "Gt",
        BinOp::Ge => "Ge",
        BinOp::And => "And",
        BinOp::Or => "Or",
        BinOp::In => "In",
        BinOp::NotIn => "NotIn",
    }
}

/// Whether a value is among others.
pub open spec fn among(s: Seq<ValueView>, v: ValueView) -> bool {
    exists|i: int| 0 <= i < s.len() && values_equal(#[trigger] s[i], v)
}

/// Where a value first is among others.
pub open spec fn place_of(s: Seq<ValueView>, v: ValueView, i: int) -> Option<int>
    decreases s.len() - i,
{
    if i < 0 || i >= s.len() {
        None
    } else if values_equal(s[i], v) {
        Some(i)
    } else {
        place_of(s, v, i + 1)
    }
}

/// How often a value is among others.
pub open spec fn times_in(s: Seq<ValueView>, v: ValueView) -> nat
    decreases s.len(),
{
    if s.len() == 0 {
        0
    } else {
        times_in(s.drop_last(), v) + (if values_equal(s.last(), v) {
            1nat
        } else {
            0
        })
    }
}

/// A value is among others just where it has a place.
pub proof fn among_has_place(s: Seq<ValueView>, v: ValueView, i: int)
    requires
        0 <= i,
    ensures
        place_of(s, v, i) is Some <==> exists|j: int|
            i <= j < s.len() && values_equal(#[trigger] s[j], v),
    decreases s.len() - i,
{
    if i < s.len() && !values_equal(s[i], v) {
        among_has_place(s, v, i + 1);
    }
}

pub fn find_place(s: &Vec<Value>, v: &Value) -> (r: Option<usize>)
    ensures
        match r {
            Some(i) => place_of(values_view(s@), v@, 0) == Some(i as int),
            None => place_of(values_view(s@), v@, 0) is None,
        },
        r is Some == among(values_view(s@), v@),
{
    let ghost sv = values_view(s@);
    proof {
        among_has_place(sv, v@, 0);
    }
    for i in 0..s.len()
        invariant
            sv == values_view(s@),
            place_of(sv, v@, 0) == place_of(sv, v@, i as int),
            place_of(sv, v@, 0) is Some == among(sv, v@),
    {
        assert(sv[i as int] == s@[i as int]@);
        if values_eq(&s[i], v) {
            return Some(i);
        }
    }
    None
}

pub fn count_in(s: &Vec<Value>, v: &Value) -> (r: usize)
    ensures
        r == times_in(values_view(s@), v@),
{
    let ghost sv = values_view(s@);
    let mut n: usize = 0;
    assert(sv.take(0) =~= Seq::empty());
    for i in 0..s.len()
        invariant
            sv == values_view(s@),
            n <= i,
            n == times_in(sv.take(i as int), v@),
    {
        assert(sv.take(i + 1).drop_last() =~= sv.take(i as int));
        assert(sv.take(i + 1).last() == s@[i as int]@);
        if values_eq(&s[i], v) {
            n += 1;
        }
    }
    assert(sv.take(s@.len() as int) =~= sv);
    n
}

pub open spec fn no_container() -> OutView {
    OutView::Fail("'in' requires a list, map, or string on the right"@)
}

/// Whether `x` is in a container.
pub open spec fn value_in(h: Seq<ObjView>, x: ValueView, c: ValueView, negate: bool) -> OutView {
    match c {
        ValueView::List(a) => match list_at(h, a) {
            Some(v) => OutView::Give(ValueView::Bool(among(v, x) != negate)),
            None => no_container(),
        },
        ValueView::Dict(a) => match dict_at(h, a) {
            Some(m) => OutView::Give(ValueView::Bool((entry_at(m, x, 0) is Some) != negate)),
            None => no_container(),
        },
        ValueView::Str(hay) => match x {
            ValueView::Str(needle) => OutView::Give(
                ValueView::Bool(contains_text(hay, needle) != negate),
            ),
            _ => OutView::Fail("'in' on a string requires a string on the left"@),
        },
        _ => no_container(),
    }
}

fn is_in(h: &Vec<Obj>, x: &Value, c: &Value, negate: bool) -> (r: Out)
    ensures
        r@ == value_in(heap_view(h@), x@, c@, negate),
{
    match c {
        Value::List(a) => match get_list(h, *a) {
            Some(v) => Out::Give(Value::Bool(find_place(v, x).is_some() != negate)),
            None => out_fail("'in' requires a list, map, or string on the right"),
        },
        Value::Dict(a) => match get_dict(h, *a) {
            Some(m) => Out::Give(Value::Bool(m.has(x) != negate)),
            None => out_fail("'in' requires a list, map, or string on the right"),
        },
        Value::Str(hay) => match x {
            Value::Str(needle) => Out::Give(
                Value::Bool(has_text(hay.as_str(), needle.as_str()) != negate),
            ),
            _ => out_fail("'in' on a string requires a string on the left"),
        },
        _ => out_fail("'in' requires a list, map, or string on the right"),
    }
}

pub open spec fn unsupported(op: BinOp) -> OutView {
    OutView::Fail("unsupported operands for "@ + op_name(op))
}

fn refuse(op: BinOp) -> (r: Out)
    ensures
        r@ == unsupported(op),
{
    Out::Fail(concat("unsupported operands for ", name_of_op(op)))
}

/// An operation on integers: what it gives is wrapped to 48 bits.
pub open spec fn int_binop(op: BinOp, a: i64, b: i64) -> OutView {
    let x = a as int;
    let y = b as int;
    match op {
        BinOp::Add => OutView::Give(ValueView::Int(wrap48_spec(x + y) as i64)),
        BinOp::Sub => OutView::Give(ValueView::Int(wrap48_spec(x - y) as i64)),
        BinOp::Mul => OutView::Give(ValueView::Int(wrap48_spec(x * y) as i64)),
        BinOp::Pow => if b >= 0 {
            OutView::Give(ValueView::Int(power48(x, b as nat) as i64))
        } else {
            OutView::Do(
                TaskView::Float { op, left: ValueView::Int(a), right: ValueView::Int(b) },
            )
        },
        BinOp::Div => if b == 0 {
            OutView::Fail("division by zero"@)
        } else {
            OutView::Give(ValueView::Int(wrap48_spec(quotient(x, y)) as i64))
        },
        BinOp::Mod => if b == 0 {
            OutView::Fail("modulo by zero"@)
        } else {
            OutView::Give(ValueView::Int(wrap48_spec(remainder(x, y)) as i64))
        },
        BinOp::Eq => OutView::Give(ValueView::Bool(a == b)),
        BinOp::Ne => OutView::Give(ValueView::Bool(a != b)),
        BinOp::Lt => OutView::Give(ValueView::Bool(a < b)),
        BinOp::Le => OutView::Give(ValueView::Bool(a <= b)),
        BinOp::Gt => OutView::Give(ValueView::Bool(a > b)),
        BinOp::Ge => OutView::Give(ValueView::Bool(a >= b)),
        BinOp::In => no_container(),
        BinOp::NotIn => no_container(),
        _ => unsupported(op),
    }
}

/// Integer arithmetic never leaves the 48-bit range.
pub proof fn int_binop_range(op: BinOp, a: i64, b: i64)
    ensures
        match int_binop(op, a, b) {
            OutView::Give(ValueView::Int(n)) => -0x8000_0000_0000 <= n < 0x8000_0000_0000,
            _ => true,
        },
{
    if op == BinOp::Pow && b > 0 {
        assert(power48(a as int, b as nat) == wrap48_spec(
            power48(a as int, (b - 1) as nat) * a as int
        ));
    }
}

fn on_ints(op: BinOp, a: i64, b: i64) -> (r: Out)
    ensures
        r@ == int_binop(op, a, b),
{
    match op {
        BinOp::Add => Out::Give(Value::Int(wrap_wide(a as i128 + b as i128))),
        BinOp::Sub => Out::Give(Value::Int(wrap_wide(a as i128 - b as i128))),
        BinOp::Mul => {
            assert(-0x4000_0000_0000_0000_0000_0000_0000_0000 <= a as int * b as int
                <= 0x4000_0000_0000_0000_0000_0000_0000_0000) by (nonlinear_arith)
                requires
                    -0x8000_0000_0000_0000 <= a < 0x8000_0000_0000_0000,
                    -0x8000_0000_0000_0000 <= b < 0x8000_0000_0000_0000,
            ;
            Out::Give(Value::Int(wrap_wide(a as i128 * b as i128)))
        },
        BinOp::Pow => if b >= 0 {
            Out::Give(Value::Int(int_power(a, b)))
        } else {
            Out::Do(Task::Float { op, left: Value::Int(a), right: Value::Int(b) })
        },
        BinOp::Div => if b == 0 {
            out_fail("division by zero")
        } else {
            Out::Give(Value::Int(wrap_wide(divide(a, b).0)))
        },
        BinOp::Mod => if b == 0 {
            out_fail("modulo by zero")
        } else {
            Out::Give(Value::Int(wrap_wide(divide(a, b).1)))
        },
        BinOp::Eq => Out::Give(Value::Bool(a == b)),
        BinOp::Ne => Out::Give(Value::Bool(a != b)),
        BinOp::Lt => Out::Give(Value::Bool(a < b)),
        BinOp::Le => Out::Give(Value::Bool(a <= b)),
        BinOp::Gt => Out::Give(Value::Bool(a > b)),
        BinOp::Ge => Out::Give(Value::Bool(a >= b)),
        BinOp::In => out_fail("'in' requires a list, map, or string on the right"),
        BinOp::NotIn => out_fail("'in' requires a list, map, or string on the right"),
        _ => refuse(op),
    }
}

pub open spec fn is_number(v: ValueView) -> bool {
    match v {
        ValueView::Int(_) => true,
        ValueView::Float(_) => true,
        _ => false,
    }
}

/// An operation on two values other than a pair of numbers.
pub open spec fn other_binop(h: Seq<ObjView>, op: BinOp, l: ValueView, r: ValueView) -> OutView {
    match op {
        BinOp::Eq => OutView::Give(ValueView::Bool(values_equal(l, r))),
        BinOp::Ne => OutView::Give(ValueView::Bool(!values_equal(l, r))),
        BinOp::In => value_in(h, l, r, false),
        BinOp::NotIn => value_in(h, l, r, true),
        _ => match (l, r) {
            (ValueView::Str(a), ValueView::Str(b)) => match op {
                BinOp::Add => OutView::Give(ValueView::Str(a + b)),
                BinOp::Lt => OutView::Give(ValueView::Bool(text_less(a, b))),
                BinOp::Le => OutView::Give(ValueView::Bool(!text_less(b, a))),
                BinOp::Gt => OutView::Give(ValueView::Bool(text_less(b, a))),
                BinOp::Ge => OutView::Give(ValueView::Bool(!text_less(a, b))),
                _ => unsupported(op),
            },
            _ => unsupported(op),
        },
    }
}

fn on_others(h: &Vec<Obj>, op: BinOp, l: &Value, r: &Value) -> (o: Out)
    ensures
        o@ == other_binop(heap_view(h@), op, l@, r@),
{
    match op {
        BinOp::Eq => Out::Give(Value::Bool(values_eq(l, r))),
        BinOp::Ne => Out::Give(Value::Bool(!values_eq(l, r))),
        BinOp::In => is_in(h, l, r, false),
        BinOp::NotIn => is_in(h, l, r, true),
        _ => match (l, r) {
            (Value::Str(a), Value::Str(b)) => match op {
                BinOp::Add => Out::Give(text_value(concat(a.as_str(), b.as_str()))),
                BinOp::Lt => Out::Give(Value::Bool(is_less(a.as_str(), b.as_str()))),
                BinOp::Le => Out::Give(Value::Bool(!is_less(b.as_str(), a.as_str()))),
                BinOp::Gt => Out::Give(Value::Bool(is_less(b.as_str(), a.as_str()))),
                BinOp::Ge => Out::Give(Value::Bool(!is_less(a.as_str(), b.as_str()))),
                _ => refuse(op),
            },
            _ => refuse(op),
        },
    }
}

/// A binary operation other than `and` and `or`. Where a float is among two numbers,
/// both are taken as floats.
pub open spec fn binop_spec(h: Seq<ObjView>, op: BinOp, l: ValueView, r: ValueView) -> OutView {
    match (l, r) {
        (ValueView::Int(a), ValueView::Int(b)) => int_binop(op, a, b),
        _ => if is_number(l) && is_number(r) {
            OutView::Do(TaskView::Float { op, left: l, right: r })
        } else {
            other_binop(h, op, l, r)
        },
    }
}

pub fn binop(h: &Vec<Obj>, op: BinOp, l: Value, r: Value) -> (o: Out)
    ensures
        o@ == binop_spec(heap_view(h@), op, l@, r@),
{
    match (&l, &r) {
        (Value::Int(a), Value::Int(b)) => on_ints(op, *a, *b),
        (Value::Int(_), Value::Float(_)) => Out::Do(Task::Float { op, left: l, right: r }),
        (Value::Float(_), Value::Int(_)) => Out::Do(Task::Float { op, left: l, right: r }),
        (Value::Float(_), Value::Float(_)) => Out::Do(Task::Float { op, left: l, right: r }),
        _ => on_others(h, op, &l, &r),
    }
}

/// A number as a float, if it is known as one. Other values count as zero.
pub open spec fn number_bits(nums: Map<i64, u64>, v: ValueView) -> Option<u64> {
    match v {
        ValueView::Int(n) => if nums.contains_key(n) {
            Some(nums[n])
        } else {
            None
        },
        ValueView::Float(b) => Some(b),
        _ => Some(0),
    }
}

fn bits_of(nums: &HashMap<i64, u64>, v: &Value) -> (r: Option<u64>)
    ensures
        r == number_bits(nums@, v@),
{
    match v {
        Value::Int(n) => match nums.get(n) {
            Some(b) => Some(*b),
            None => None,
        },
        Value::Float(b) => Some(*b),
        _ => Some(0),
    }
}

/// The request for an integer as a float.
pub open spec fn ask_float(v: ValueView) -> OutView {
    match v {
        ValueView::Int(n) => OutView::Wait(ActionView::FloatOf { n }),
        _ => OutView::Fail("internal: not a number"@),
    }
}

fn want_float(v: &Value) -> (r: Out)
    ensures
        r@ == ask_float(v@),
{
    match v {
        Value::Int(n) => Out::Wait(Action::FloatOf { n: *n }),
        _ => out_fail("internal: not a number"),
    }
}

/// An operation on floats. Comparisons are decided here.
pub open spec fn float_binop(op: BinOp, a: u64, b: u64) -> OutView {
    match op {
        BinOp::Add | BinOp::Sub | BinOp::Mul | BinOp::Pow | BinOp::Div | BinOp::Mod => OutView::Ask(
            ActionView::Arith { op, a, b },
        ),
        BinOp::Eq => OutView::Give(ValueView::Bool(float_eq(a, b))),
        BinOp::Ne => OutView::Give(ValueView::Bool(!float_eq(a, b))),
        BinOp::Lt => OutView::Give(ValueView::Bool(float_lt(a, b))),
        BinOp::Le => OutView::Give(ValueView::Bool(float_lt(a, b) || float_eq(a, b))),
        BinOp::Gt => OutView::Give(ValueView::Bool(float_lt(b, a))),
        BinOp::Ge => OutView::Give(ValueView::Bool(float_lt(b, a) || float_eq(a, b))),
        BinOp::In => no_container(),
        BinOp::NotIn => no_container(),
        _ => unsupported(op),
    }
}

fn on_floats(op: BinOp, a: u64, b: u64) -> (r: Out)
    ensures
        r@ == float_binop(op, a, b),
{
    match op {
        BinOp::Add => Out::Ask(Action::Arith { op, a, b }),
        BinOp::Sub => Out::Ask(Action::Arith { op, a, b }),
        BinOp::Mul => Out::Ask(Action::Arith { op, a, b }),
        BinOp::Pow => Out::Ask(Action::Arith { op, a, b }),
        BinOp::Div => Out::Ask(Action::Arith { op, a, b }),
        BinOp::Mod => Out::Ask(Action::Arith { op, a, b }),
        BinOp::Eq => Out::Give(Value::Bool(equal(a, b))),
        BinOp::Ne => Out::Give(Value::Bool(!equal(a, b))),
        BinOp::Lt => Out::Give(Value::Bool(less(a, b))),
        BinOp::Le => Out::Give(Value::Bool(less(a, b) || equal(a, b))),
        BinOp::Gt => Out::Give(Value::Bool(less(b, a))),
        BinOp::Ge => Out::Give(Value::Bool(less(b, a) || equal(a, b))),
        BinOp::In => out_fail("'in' requires a list, map, or string on the right"),
        BinOp::NotIn => out_fail("'in' requires a list, map, or string on the right"),
        _ => refuse(op),
    }
}

/// The first value that is not known as a float.
pub open spec fn first_unknown(nums: Map<i64, u64>, s: Seq<ValueView>, i: int) -> Option<ValueView>
    decreases s.len() - i,
{
    if i < 0 || i >= s.len() {
        None
    } else if number_bits(nums, s[i]) is None {
        Some(s[i])
    } else {
        first_unknown(nums, s, i + 1)
    }
}

pub fn find_unknown<'a>(nums: &HashMap<i64, u64>, s: &'a Vec<Value>) -> (r: Option<&'a Value>)
    ensures
        match r {
            Some(v) => first_unknown(nums@, values_view(s@), 0) == Some(v@),
            None => first_unknown(nums@, values_view(s@), 0) is None,
        },
{
    let ghost sv = values_view(s@);
    for i in 0..s.len()
        invariant
            sv == values_view(s@),
            first_unknown(nums@, sv, 0) == first_unknown(nums@, sv, i as int),
    {
        assert(sv[i as int] == s@[i as int]@);
        if bits_of(nums, &s[i]).is_none() {
            return Some(&s[i]);
        }
    }
    None
}

/// Whether a number comes before another.
pub open spec fn number_less(nums: Map<i64, u64>, a: ValueView, b: ValueView) -> bool {
    match (number_bits(nums, a), number_bits(nums, b)) {
        (Some(x), Some(y)) => float_lt(x, y),
        _ => false,
    }
}

fn comes_before(nums: &HashMap<i64, u64>, a: &Value, b: &Value) -> (r: bool)
    ensures
        r == number_less(nums@, a@, b@),
{
    match (bits_of(nums, a), bits_of(nums, b)) {
        (Some(x), Some(y)) => less(x, y),
        _ => false,
    }
}

/// A sorted list with one more value, behind those that do not come after it.
pub open spec fn put_number(nums: Map<i64, u64>, s: Seq<ValueView>, x: ValueView) -> Seq<ValueView>
    decreases s.len(),
{
    if s.len() > 0 && number_less(nums, x, s.last()) {
        put_number(nums, s.drop_last(), x).push(s.last())
    } else {
        s.push(x)
    }
}

/// The values in the order of their numbers, with equal ones in the order in which they
/// were.
pub open spec fn sorted_numbers(nums: Map<i64, u64>, s: Seq<ValueView>) -> Seq<ValueView>
    decreases s.len(),
{
    if s.len() == 0 {
        s
    } else {
        put_number(nums, sorted_numbers(nums, s.drop_last()), s.last())
    }
}

pub open spec fn in_order(nums: Map<i64, u64>, s: Seq<ValueView>) -> bool {
    forall|i: int, j: int|
        #![trigger s[i], s[j]]
        0 <= i < j < s.len() ==> !number_less(nums, s[j], s[i])
}

/// A number that is known and not NaN.
pub open spec fn comparable(nums: Map<i64, u64>, v: ValueView) -> bool {
    match number_bits(nums, v) {
        Some(b) => !crate::floatbits::is_nan(b),
        None => false,
    }
}

pub open spec fn all_comparable(nums: Map<i64, u64>, s: Seq<ValueView>) -> bool {
    forall|i: int| 0 <= i < s.len() ==> comparable(nums, #[trigger] s[i])
}

proof fn put_in_order(nums: Map<i64, u64>, s: Seq<ValueView>, x: ValueView)
    requires
        in_order(nums, s),
        all_comparable(nums, s),
        comparable(nums, x),
    ensures
        in_order(nums, put_number(nums, s, x)),
        all_comparable(nums, put_number(nums, s, x)),
        put_number(nums, s, x).to_multiset() == s.to_multiset().insert(x),
        forall|y: ValueView| #[trigger] put_number(nums, s, x).contains(y) ==> s
            .contains(y) || y == x,
    decreases s.len(),
{
    let t = put_number(nums, s, x);
    if s.len() > 0 && number_less(nums, x, s.last()) {
        let d = s.drop_last();
        assert forall|i: int, j: int| #![trigger d[i], d[j]] 0 <= i < j < d.len() implies !number_less(
            nums,
            d[j],
            d[i],
        ) by {
            assert(s[i] == d[i] && s[j] == d[j]);
        }
        assert forall|i: int| 0 <= i < d.len() implies comparable(nums, #[trigger] d[i]) by {
            assert(s[i] == d[i]);
        }
        put_in_order(nums, d, x);
        let u = put_number(nums, d, x);
        assert(t == u.push(s.last()));
        assert forall|i: int, j: int| #![trigger t[i], t[j]] 0 <= i < j < t.len() implies !number_less(
            nums,
            t[j],
            t[i],
        ) by {
            if j < u.len() {
                assert(t[i] == u[i] && t[j] == u[j]);
            } else {
                assert(u.contains(u[i]));
                if u[i] != x {
                    let k = choose|k: int| 0 <= k < d.len() && d[k] == u[i];
                    assert(s[k] == u[i] && s[s.len() - 1] == t[j]);
                    assert(!number_less(nums, s[s.len() - 1], s[k]));
                }
            }
        }
        assert(s =~= d.push(s.last()));
        s.to_multiset_ensures();
        d.to_multiset_ensures();
        u.to_multiset_ensures();
        assert(t.to_multiset() =~= s.to_multiset().insert(x));
        assert forall|y: ValueView| #[trigger] t.contains(y) implies s.contains(y) || y == x by {
            let i = choose|i: int| 0 <= i < t.len() && t[i] == y;
            if i < u.len() {
                assert(u[i] == y);
                assert(u.contains(y));
                if y != x {
                    let k = choose|k: int| 0 <= k < d.len() && d[k] == y;
                    assert(s[k] == y);
                }
            } else {
                assert(s[s.len() - 1] == y);
            }
        }
    } else {
        assert(t == s.push(x));
        assert forall|i: int, j: int| #![trigger t[i], t[j]] 0 <= i < j < t.len() implies !number_less(
            nums,
            t[j],
            t[i],
        ) by {
            if j < s.len() {
                assert(t[i] == s[i] && t[j] == s[j]);
            } else if number_less(nums, x, s[i]) {
                assert(comparable(nums, s[i]));
                let l = s.len() - 1;
                assert(comparable(nums, s[l]));
                if i < l {
                    assert(!number_less(nums, s[l], s[i]));
                }
            }
        }
        s.to_multiset_ensures();
        assert forall|y: ValueView| #[trigger] t.contains(y) implies s.contains(y) || y == x by {
            let i = choose|i: int| 0 <= i < t.len() && t[i] == y;
            if i < s.len() {
                assert(s[i] == y);
            }
        }
    }
}

/// Sorting puts the values in order and neither drops nor adds any. It is stated for
/// numbers that compare, which leaves out NaN.
pub proof fn sorting_sorts(nums: Map<i64, u64>, s: Seq<ValueView>)
    requires
        all_comparable(nums, s),
    ensures
        in_order(nums, sorted_numbers(nums, s)),
        sorted_numbers(nums, s).to_multiset() == s.to_multiset(),
        all_comparable(nums, sorted_numbers(nums, s)),
    decreases s.len(),
{
    if s.len() > 0 {
        let d = s.drop_last();
        assert forall|i: int| 0 <= i < d.len() implies comparable(nums, #[trigger] d[i]) by {
            assert(s[i] == d[i]);
        }
        sorting_sorts(nums, d);
        assert(comparable(nums, s[s.len() - 1]));
        put_in_order(nums, sorted_numbers(nums, d), s.last());
        d.to_multiset_ensures();
        assert(s =~= d.push(s.last()));
    }
}

fn put_sorted(nums: &HashMap<i64, u64>, v: &mut Vec<Value>, x: Value)
    ensures
        values_view(final(v)@) == put_number(nums@, values_view(old(v)@), x@),
{
    let ghost s0 = values_view(v@);
    let n: usize = v.len();
    let mut i: usize = n;
    assert(s0.take(n as int) =~= s0);
    assert(s0.skip(n as int) =~= Seq::empty());
    assert(put_number(nums@, s0, x@) =~= put_number(nums@, s0.take(n as int), x@) + s0.skip(
        n as int
    ));
    while i > 0 && comes_before(nums, &x, &v[i - 1])
        invariant
            i <= n,
            n == v@.len(),
            s0 == values_view(v@),
            put_number(nums@, s0, x@) == put_number(nums@, s0.take(i as int), x@) + s0.skip(
                i as int,
            ),
        decreases i,
    {
        let ghost t = s0.take(i as int);
        assert(t.last() == s0[i - 1]);
        assert(t.drop_last() =~= s0.take(i - 1));
        assert(put_number(nums@, t, x@) == put_number(nums@, s0.take(i - 1), x@).push(s0[i - 1]));
        assert(put_number(nums@, s0.take(i - 1), x@).push(s0[i - 1]) + s0.skip(i as int)
            =~= put_number(nums@, s0.take(i - 1), x@) + s0.skip(i - 1));
        i -= 1;
    }
    proof {
        if i > 0 {
            assert(s0.take(i as int).last() == s0[i - 1]);
        }
        assert(put_number(nums@, s0.take(i as int), x@) == s0.take(i as int).push(x@));
    }
    let ghost v0 = v@;
    v.insert(i, x);
    assert(values_view(v@) =~= s0.take(i as int).push(x@) + s0.skip(i as int));
}

/// Sorts values by their numbers.
pub fn sort_numbers(nums: &HashMap<i64, u64>, s: &Vec<Value>) -> (r: Vec<Value>)
    ensures
        values_view(r@) == sorted_numbers(nums@, values_view(s@)),
{
    let ghost sv = values_view(s@);
    let mut r: Vec<Value> = Vec::new();
    assert(sv.take(0) =~= Seq::empty());
    assert(values_view(r@) =~= sv.take(0));
    for i in 0..s.len()
        invariant
            sv == values_view(s@),
            values_view(r@) == sorted_numbers(nums@, sv.take(i as int)),
    {
        assert(sv.take(i + 1).drop_last() =~= sv.take(i as int));
        assert(sv.take(i + 1).last() == s@[i as int]@);
        put_sorted(nums, &mut r, s[i].clone());
    }
    assert(sv.take(s@.len() as int) =~= sv);
    r
}

/// The least or the greatest of values; the first of equal ones.
pub open spec fn best_of(nums: Map<i64, u64>, s: Seq<ValueView>, least: bool) -> ValueView
    decreases s.len(),
{
    if s.len() == 0 {
        ValueView::Nil
    } else if s.len() == 1 {
        s[0]
    } else {
        let b = best_of(nums, s.drop_last(), least);
        let v = s.last();
        if (least && number_less(nums, v, b)) || (!least && number_less(nums, b, v)) {
            v
        } else {
            b
        }
    }
}

fn find_best(nums: &HashMap<i64, u64>, s: &Vec<Value>, least: bool) -> (r: Value)
    ensures
        r@ == best_of(nums@, values_view(s@), least),
{
    let ghost sv = values_view(s@);
    if s.len() == 0 {
        return Value::Nil;
    }
    let mut best = s[0].clone();
    assert(sv.take(1).len() == 1 && sv.take(1)[0] == sv[0]);
    for i in 1..s.len()
        invariant
            sv == values_view(s@),
            s@.len() > 0,
            best@ == best_of(nums@, sv.take(i as int), least),
    {
        assert(sv.take(i + 1).drop_last() =~= sv.take(i as int));
        assert(sv.take(i + 1).last() == s@[i as int]@);
        let take = if least {
            comes_before(nums, &s[i], &best)
        } else {
            comes_before(nums, &best, &s[i])
        };
        if take {
            best = s[i].clone();
        }
    }
    assert(sv.take(s@.len() as int) =~= sv);
    best
}

/// What the text of values leads to.
pub open spec fn shown_goal(goal: Goal, t: Seq<char>) -> OutView {
    match goal {
        Goal::Text => OutView::Give(ValueView::Str(t)),
        Goal::Print => OutView::Ask(ActionView::Print { text: t }),
        Goal::Raise => OutView::Fail(t),
        Goal::Key => OutView::Fail("key not found: "@ + t),
        Goal::Prompt => OutView::Ask(ActionView::Input { prompt: Some(t) }),
    }
}

/// What a task comes to by what is known of floats.
pub open spec fn task_out(
    h: Seq<ObjView>,
    texts: Map<u64, Seq<char>>,
    nums: Map<i64, u64>,
    t: TaskView,
) -> OutView {
    match t {
        TaskView::Show { vals, sep, quoted, goal } => match show_joined(
            h,
            texts,
            vals,
            sep,
            quoted,
            vals.len(),
        ) {
            ShownView::Text(s) => shown_goal(goal, s),
            ShownView::Need(bits) => OutView::Wait(ActionView::FloatText { bits }),
            ShownView::Endless => OutView::Fail("value contains itself"@),
        },
        TaskView::Sort { list } => match list_at(h, list) {
            Some(v) => match first_unknown(nums, v, 0) {
                Some(x) => ask_float(x),
                None => OutView::List(sorted_numbers(nums, v)),
            },
            None => OutView::Fail("internal: not a list"@),
        },
        TaskView::Best { items, least } => match first_unknown(nums, items, 0) {
            Some(x) => ask_float(x),
            None => OutView::Give(best_of(nums, items, least)),
        },
        TaskView::Float { op, left, right } => match number_bits(nums, left) {
            None => ask_float(left),
            Some(a) => match number_bits(nums, right) {
                None => ask_float(right),
                Some(b) => float_binop(op, a, b),
            },
        },
        TaskView::ToFloat { n } => match number_bits(nums, ValueView::Int(n)) {
            None => OutView::Wait(ActionView::FloatOf { n }),
            Some(b) => OutView::Give(ValueView::Float(b)),
        },
    }
}

pub fn run_task(
    h: &Vec<Obj>,
    texts: &HashMap<u64, String>,
    nums: &HashMap<i64, u64>,
    t: &Task,
) -> (r: Out)
    ensures
        r@ == task_out(heap_view(h@), texts_map(texts@), nums@, t@),
{
    match t {
        Task::Show { vals, sep, quoted, goal } => match show_values(
            h,
            texts,
            vals,
            sep.as_str(),
            *quoted,
        ) {
            Shown::Text(s) => match goal {
                Goal::Text => Out::Give(text_value(s)),
                Goal::Print => Out::Ask(Action::Print { text: s }),
                Goal::Raise => Out::Fail(s),
                Goal::Key => Out::Fail(concat("key not found: ", s.as_str())),
                Goal::Prompt => Out::Ask(Action::Input { prompt: Some(s) }),
            },
            Shown::Need(bits) => Out::Wait(Action::FloatText { bits }),
            Shown::Endless => out_fail("value contains itself"),
        },
        Task::Sort { list } => match get_list(h, *list) {
            Some(v) => match find_unknown(nums, v) {
                Some(x) => want_float(x),
                None => Out::List(sort_numbers(nums, v)),
            },
            None => out_fail("internal: not a list"),
        },
        Task::Best { items, least } => match find_unknown(nums, items) {
            Some(x) => want_float(x),
            None => Out::Give(find_best(nums, items, *least)),
        },
        Task::Float { op, left, right } => match bits_of(nums, left) {
            None => want_float(left),
            Some(a) => match bits_of(nums, right) {
                None => want_float(right),
                Some(b) => on_floats(*op, a, b),
            },
        },
        Task::ToFloat { n } => match bits_of(nums, &Value::Int(*n)) {
            None => Out::Wait(Action::FloatOf { n: *n }),
            Some(b) => Out::Give(Value::Float(b)),
        },
    }
}

/// The integers from `a` up to but not including `b`.
pub open spec fn int_range(a: i64, b: i64) -> Seq<ValueView> {
    Seq::new(
        if a < b {
            (b - a) as nat
        } else {
            0
        },
        |i: int| ValueView::Int((a + i) as i64),
    )
}

pub fn range_values(a: i64, b: i64) -> (r: Vec<Value>)
    ensures
        values_view(r@) == int_range(a, b),
{
    let mut r: Vec<Value> = Vec::new();
    assert(values_view(r@) =~= int_range(a, b).take(0));
    let mut i: i64 = a;
    while i < b
        invariant
            a <= i,
            i <= b || i == a,
            values_view(r@) == int_range(a, b).take(i - a),
        decreases b - i,
    {
        let v = Value::Int(i);
        proof {
            values_push(r@, v);
        }
        r.push(v);
        assert(values_view(r@) =~= int_range(a, b).take(i + 1 - a));
        i += 1;
    }
    assert(values_view(r@) =~= int_range(a, b));
    r
}

/// The sum of integers.
pub open spec fn int_sum(s: Seq<ValueView>) -> int
    decreases s.len(),
{
    if s.len() == 0 {
        0
    } else {
        int_sum(s.drop_last()) + match s.last() {
            ValueView::Int(n) => n as int,
            _ => 0,
        }
    }
}

pub open spec fn all_ints(s: Seq<ValueView>) -> bool {
    forall|i: int| 0 <= i < s.len() ==> (#[trigger] s[i]) is Int
}

pub fn are_ints(s: &Vec<Value>) -> (r: bool)
    ensures
        r == all_ints(values_view(s@)),
{
    let ghost sv = values_view(s@);
    for i in 0..s.len()
        invariant
            sv == values_view(s@),
            forall|j: int| 0 <= j < i ==> (#[trigger] sv[j]) is Int,
    {
        assert(sv[i as int] == s@[i as int]@);
        match &s[i] {
            Value::Int(_) => {},
            _ => {
                return false;
            },
        }
    }
    true
}

/// The sum of integers, wrapped.
pub fn add_ints(s: &Vec<Value>) -> (r: i64)
    requires
        all_ints(values_view(s@)),
    ensures
        r == wrap48_spec(int_sum(values_view(s@))),
{
    let ghost sv = values_view(s@);
    let mut t: i64 = 0;
    assert(sv.take(0) =~= Seq::empty());
    for i in 0..s.len()
        invariant
            sv == values_view(s@),
            t == wrap48_spec(int_sum(sv.take(i as int))),
    {
        assert(sv.take(i + 1).drop_last() =~= sv.take(i as int));
        assert(sv.take(i + 1).last() == s@[i as int]@);
        let n: i64 = match &s[i] {
            Value::Int(n) => *n,
            _ => 0,
        };
        let w: i64 = wrap48(n);
        proof {
            wrap48_ring(int_sum(sv.take(i as int)), n as int);
            wrap48_range(int_sum(sv.take(i as int)));
            wrap48_range(n as int);
        }
        t = wrap48(t + w);
    }
    assert(sv.take(sv.len() as int) =~= sv);
    t
}

} // verus!
