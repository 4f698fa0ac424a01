//! What calls of built-in functions and methods give, as far as they leave the heap as
//! it is.

use crate::ast::{wrap48, wrap48_range, wrap48_ring, wrap48_spec};
use crate::floatbits::{magnitude, SIGN};
use crate::operate::{
    add_ints, all_ints, among, are_ints, count_in, find_place, give_text, int_range, int_sum,
    len_int, out_fail, place_of, range_values, times_in, to_int, Action, ActionView, Goal, Out,
    OutView, Task, TaskView,
};
use crate::strings::{
    byte_position, ends_with, ends_with_spec, find, lower, lower_text, lstrip, lstrip_spec,
    parse_int, parsed_int, pieces, repeat, repeated, rstrip, rstrip_spec, split, title, title_spec,
    upper, upper_text,
};
use crate::text::{
    concat, contains_text, has_text, starts_with, starts_with_spec, str_eq, texts_view, trim,
    trim_spec,
};
use crate::value::{
    copy_values, dict_at, get_dict, get_list, heap_view, keys_of, list_at, text_value, truth,
    vals_of, values_push, values_view, Obj, ObjView, Value, ValueView,
};
use vstd::prelude::*;
use vstd::string::{StringExecFns, StringSliceAdditionalSpecFns};

verus! {

pub open spec fn int_out(n: int) -> OutView {
    OutView::Give(ValueView::Int(n as i64))
}

pub open spec fn len_out(n: nat) -> OutView {
    OutView::Give(ValueView::Int(len_int(n)))
}

pub open spec fn bool_out(b: bool) -> OutView {
    OutView::Give(ValueView::Bool(b))
}

pub open spec fn text_out(s: Seq<char>) -> OutView {
    OutView::Give(ValueView::Str(s))
}

pub open spec fn show_out(vals: Seq<ValueView>, sep: Seq<char>, goal: Goal) -> OutView {
    OutView::Do(TaskView::Show { vals, sep, quoted: false, goal })
}

fn show_task(vals: Vec<Value>, sep: &str, goal: Goal) -> (r: Out)
    ensures
        r@ == show_out(values_view(vals@), sep@, goal),
{
    Out::Do(Task::Show { vals, sep: sep.to_owned(), quoted: false, goal })
}

fn one_value(v: Value) -> (r: Vec<Value>)
    ensures
        values_view(r@) == seq![v@],
{
    let mut r: Vec<Value> = Vec::new();
    r.push(v);
    assert(values_view(r@) =~= seq![v@]);
    r
}

/// What is said of a condition that is none.
pub open spec fn no_condition() -> Seq<char> {
    "condition must be a bool (Lumen has strict truthiness)"@
}

/// The name of the type of a value.
pub open spec fn kind_name(v: Option<ValueView>) -> Seq<char> {
    match v {
        None => "nil"@,
        Some(x) => match x {
            ValueView::Int(_) => "i64"@,
            ValueView::Float(_) => "f64"@,
            ValueView::Bool(_) => "bool"@,
            ValueView::Str(_) => "str"@,
            ValueView::List(_) => "list"@,
            ValueView::Dict(_) => "map"@,
            ValueView::Func(_) => "fn"@,
            ValueView::Struct(_) => "struct"@,
            ValueView::CBuf(_) => "cbuf"@,
            ValueView::Nil => "nil"@,
        },
    }
}

pub open spec fn first_of(args: Seq<ValueView>) -> Option<ValueView> {
    if args.len() > 0 {
        Some(args[0])
    } else {
        None
    }
}

/// The first byte of a text.
pub open spec fn first_byte(s: Seq<char>) -> Option<u8> {
    let b = vstd::utf8::encode_utf8(s);
    if b.len() > 0 {
        Some(b[0])
    } else {
        None
    }
}

fn byte_of(s: &str) -> (r: Option<u8>)
    ensures
        r == first_byte(s@),
{
    let b = s.as_bytes();
    if b.len() > 0 {
        Some(b[0])
    } else {
        None
    }
}

pub open spec fn is_digit_byte(b: u8) -> bool {
    0x30 <= b <= 0x39
}

pub open spec fn is_alpha_byte(b: u8) -> bool {
    0x41 <= b <= 0x5a || 0x61 <= b <= 0x7a
}

pub open spec fn is_space_byte(b: u8) -> bool {
    b == 0x20 || b == 0x09 || b == 0x0a || b == 0x0c || b == 0x0d
}

/// Whether a text starts with a byte of a class: a digit, a letter or white space.
fn byte_class(b: Option<u8>, class: u8) -> (r: bool)
    requires
        class <= 2,
    ensures
        r == match b {
            Some(c) => if class == 0 {
                is_digit_byte(c)
            } else if class == 1 {
                is_alpha_byte(c)
            } else {
                is_space_byte(c)
            },
            None => false,
        },
{
    match b {
        Some(c) => if class == 0 {
            0x30 <= c && c <= 0x39
        } else if class == 1 {
            (0x41 <= c && c <= 0x5a) || (0x61 <= c && c <= 0x7a)
        } else {
            c == 0x20 || c == 0x09 || c == 0x0a || c == 0x0c || c == 0x0d
        },
        None => false,
    }
}

/// The length of a value that has one.
pub open spec fn length_of(h: Seq<ObjView>, v: ValueView) -> Option<nat> {
    match v {
        ValueView::List(a) => match list_at(h, a) {
            Some(s) => Some(s.len()),
            None => None,
        },
        ValueView::Dict(a) => match dict_at(h, a) {
            Some(s) => Some(s.len()),
            None => None,
        },
        ValueView::Str(s) => Some(s.len()),
        _ => None,
    }
}

fn find_length(h: &Vec<Obj>, v: &Value) -> (r: Option<usize>)
    ensures
        match r {
            Some(n) => length_of(heap_view(h@), v@) == Some(n as nat),
            None => length_of(heap_view(h@), v@) is None,
        },
{
    match v {
        Value::List(a) => match get_list(h, *a) {
            Some(s) => Some(s.len()),
            None => None,
        },
        Value::Dict(a) => match get_dict(h, *a) {
            Some(m) => Some(m.len()),
            None => None,
        },
        Value::Str(s) => Some(s.as_str().unicode_len()),
        _ => None,
    }
}

/// A built-in function of the first argument `v`, other than those on all arguments.
/// `None` where it does not take such a value.
pub open spec fn builtin_one(h: Seq<ObjView>, n: Seq<char>, v: ValueView) -> Option<OutView> {
    if n == "len"@ {
        match length_of(h, v) {
            Some(k) => Some(len_out(k)),
            None => None,
        }
    } else if n == "int"@ {
        match v {
            ValueView::Float(bits) => Some(OutView::Ask(ActionView::Truncate { bits })),
            ValueView::Int(_) => Some(OutView::Give(v)),
            ValueView::Str(s) => match parsed_int(trim_spec(s)) {
                Some(k) => Some(int_out(wrap48_spec(k))),
                None => Some(OutView::Fail("int() parse error"@)),
            },
            _ => None,
        }
    } else if n == "float"@ {
        match v {
            ValueView::Int(k) => Some(OutView::Do(TaskView::ToFloat { n: k })),
            ValueView::Float(_) => Some(OutView::Give(v)),
            ValueView::Str(s) => Some(OutView::Ask(ActionView::ParseFloat { text: trim_spec(s) })),
            _ => None,
        }
    } else if n == "ord"@ {
        match v {
            ValueView::Str(s) => Some(
                int_out(
                    match first_byte(s) {
                        Some(b) => b as int,
                        None => 0,
                    },
                ),
            ),
            _ => None,
        }
    } else if n == "chr"@ {
        match v {
            ValueView::Int(k) => Some(text_out(seq![((k as int) % 256) as u8 as char])),
            _ => None,
        }
    } else if n == "is_digit"@ {
        match v {
            ValueView::Str(s) => Some(
                bool_out(
                    match first_byte(s) {
                        Some(b) => is_digit_byte(b),
                        None => false,
                    },
                ),
            ),
            _ => None,
        }
    } else if n == "is_alpha"@ {
        match v {
            ValueView::Str(s) => Some(
                bool_out(
                    match first_byte(s) {
                        Some(b) => is_alpha_byte(b),
                        None => false,
                    },
                ),
            ),
            _ => None,
        }
    } else if n == "is_space"@ {
        match v {
            ValueView::Str(s) => Some(
                bool_out(
                    match first_byte(s) {
                        Some(b) => is_space_byte(b),
                        None => false,
                    },
                ),
            ),
            _ => None,
        }
    } else if n == "abs"@ {
        match v {
            ValueView::Int(k) => Some(
                int_out(
                    wrap48_spec(
                        if k < 0 {
                            -(k as int)
                        } else {
                            k as int
                        },
                    ),
                ),
            ),
            ValueView::Float(b) => Some(OutView::Give(ValueView::Float(magnitude(b)))),
            _ => None,
        }
    } else if n == "round"@ {
        match v {
            ValueView::Int(_) => Some(OutView::Give(v)),
            ValueView::Float(bits) => Some(OutView::Ask(ActionView::Round { bits })),
            _ => None,
        }
    } else if n == "sum"@ {
        match v {
            ValueView::List(a) => match list_at(h, a) {
                Some(s) => Some(
                    if all_ints(s) {
                        int_out(wrap48_spec(int_sum(s)))
                    } else {
                        OutView::Ask(ActionView::Sum { items: s })
                    },
                ),
                None => None,
            },
            _ => None,
        }
    } else if n == "min"@ || n == "max"@ {
        match v {
            ValueView::List(a) => match list_at(h, a) {
                Some(s) => Some(
                    if s.len() == 0 {
                        OutView::Fail(n + "() of empty list"@)
                    } else {
                        OutView::Do(TaskView::Best { items: s, least: n == "min"@ })
                    },
                ),
                None => None,
            },
            _ => None,
        }
    } else {
        None
    }
}

fn call_sum(h: &Vec<Obj>, v: &Value) -> (r: Option<Out>)
    ensures
        out_opt(r) == builtin_one(heap_view(h@), "sum"@, v@),
{
    proof {
        name_facts();
    }
    match v {
        Value::List(a) => match get_list(h, *a) {
            Some(s) => {
                if are_ints(s) {
                    Some(Out::Give(Value::Int(add_ints(s))))
                } else {
                    let items = copy_values(s, 0, s.len());
                    assert(values_view(items@) =~= values_view(s@));
                    Some(Out::Ask(Action::Sum { items }))
                }
            },
            None => None,
        },
        _ => None,
    }
}

/// The names of the built-in functions differ.
proof fn name_facts()
    ensures
        "sum"@ != "len"@,
        "sum"@ != "int"@,
        "sum"@ != "float"@,
        "sum"@ != "ord"@,
        "sum"@ != "chr"@,
        "sum"@ != "is_digit"@,
        "sum"@ != "is_alpha"@,
        "sum"@ != "is_space"@,
        "sum"@ != "abs"@,
        "sum"@ != "round"@,
{
    reveal_strlit("sum");
    reveal_strlit("len");
    reveal_strlit("int");
    reveal_strlit("float");
    reveal_strlit("ord");
    reveal_strlit("chr");
    reveal_strlit("is_digit");
    reveal_strlit("is_alpha");
    reveal_strlit("is_space");
    reveal_strlit("abs");
    reveal_strlit("round");
    assert("sum"@[0] == 's' && "len"@[0] == 'l' && "int"@[0] == 'i' && "ord"@[0] == 'o' && "chr"@[0]
        == 'c' && "abs"@[0] == 'a');
    assert("sum"@.len() == 3 && "float"@.len() == 5 && "is_digit"@.len() == 8 && "is_alpha"@.len()
        == 8 && "is_space"@.len() == 8 && "round"@.len() == 5);
}

pub open spec fn out_opt(o: Option<Out>) -> Option<OutView> {
    match o {
        Some(x) => Some(x@),
        None => None,
    }
}

fn call_one(h: &Vec<Obj>, n: &str, v: &Value) -> (r: Option<Out>)
    ensures
        out_opt(r) == builtin_one(heap_view(h@), n@, v@),
{
    if str_eq(n, "len") {
        match find_length(h, v) {
            Some(k) => Some(Out::Give(Value::Int(to_int(k)))),
            None => None,
        }
    } else if str_eq(n, "int") {
        match v {
            Value::Float(bits) => Some(Out::Ask(Action::Truncate { bits: *bits })),
            Value::Int(k) => Some(Out::Give(Value::Int(*k))),
            Value::Str(s) => {
                let t = trim(s.as_str());
                match parse_int(t.as_str()) {
                    Some(k) => Some(Out::Give(Value::Int(wrap48(k)))),
                    None => Some(out_fail("int() parse error")),
                }
            },
            _ => None,
        }
    } else if str_eq(n, "float") {
        match v {
            Value::Int(k) => Some(Out::Do(Task::ToFloat { n: *k })),
            Value::Float(b) => Some(Out::Give(Value::Float(*b))),
            Value::Str(s) => Some(Out::Ask(Action::ParseFloat { text: trim(s.as_str()) })),
            _ => None,
        }
    } else if str_eq(n, "ord") {
        match v {
            Value::Str(s) => Some(
                Out::Give(
                    Value::Int(
                        match byte_of(s.as_str()) {
                            Some(b) => b as i64,
                            None => 0,
                        },
                    ),
                ),
            ),
            _ => None,
        }
    } else if str_eq(n, "chr") {
        match v {
            Value::Int(k) => {
                let m: u128 = (*k as i128 + 0x1_0000_0000_0000_0000) as u128;
                let mut t = String::new();
                crate::text::push_char(&mut t, (m % 256) as u8 as char);
                assert(t@ =~= seq![((*k as int) % 256) as u8 as char]);
                Some(Out::Give(text_value(t)))
            },
            _ => None,
        }
    } else if str_eq(n, "is_digit") {
        match v {
            Value::Str(s) => Some(Out::Give(Value::Bool(byte_class(byte_of(s.as_str()), 0)))),
            _ => None,
        }
    } else if str_eq(n, "is_alpha") {
        match v {
            Value::Str(s) => Some(Out::Give(Value::Bool(byte_class(byte_of(s.as_str()), 1)))),
            _ => None,
        }
    } else if str_eq(n, "is_space") {
        match v {
            Value::Str(s) => Some(Out::Give(Value::Bool(byte_class(byte_of(s.as_str()), 2)))),
            _ => None,
        }
    } else if str_eq(n, "abs") {
        match v {
            Value::Int(k) => {
                let w: i64 = wrap48(*k);
                proof {
                    wrap48_ring(*k as int, 0);
                    wrap48_range(*k as int);
                }
                Some(
                    if *k < 0 {
                        Out::Give(Value::Int(wrap48(-w)))
                    } else {
                        Out::Give(Value::Int(w))
                    },
                )
            },
            Value::Float(b) => Some(Out::Give(Value::Float(*b % SIGN))),
            _ => None,
        }
    } else if str_eq(n, "round") {
        match v {
            Value::Int(k) => Some(Out::Give(Value::Int(*k))),
            Value::Float(bits) => Some(Out::Ask(Action::Round { bits: *bits })),
            _ => None,
        }
    } else if str_eq(n, "sum") {
        call_sum(h, v)
    } else if str_eq(n, "min") || str_eq(n, "max") {
        match v {
            Value::List(a) => match get_list(h, *a) {
                Some(s) => Some(
                    if s.len() == 0 {
                        Out::Fail(concat(n, "() of empty list"))
                    } else {
                        let items = copy_values(s, 0, s.len());
                        assert(values_view(items@) =~= values_view(s@));
                        Out::Do(Task::Best { items, least: str_eq(n, "min") })
                    },
                ),
                None => None,
            },
            _ => None,
        }
    } else {
        None
    }
}

/// The range that two arguments, or one, stand for.
pub open spec fn range_out(args: Seq<ValueView>) -> OutView {
    if args.len() > 0 && args[0] is Int {
        if args.len() == 1 {
            OutView::List(int_range(0, args[0]->Int_0))
        } else if args[1] is Int {
            OutView::List(int_range(args[0]->Int_0, args[1]->Int_0))
        } else {
            OutView::Fail("range() takes 1 or 2 ints"@)
        }
    } else {
        OutView::Fail("range() takes 1 or 2 ints"@)
    }
}

fn call_range(args: &Vec<Value>) -> (r: Out)
    ensures
        r@ == range_out(values_view(args@)),
{
    if args.len() == 0 {
        return out_fail("range() takes 1 or 2 ints");
    }
    assert(values_view(args@)[0] == args@[0]@);
    match &args[0] {
        Value::Int(a) => {
            if args.len() == 1 {
                Out::List(range_values(0, *a))
            } else {
                assert(values_view(args@)[1] == args@[1]@);
                match &args[1] {
                    Value::Int(b) => Out::List(range_values(*a, *b)),
                    _ => out_fail("range() takes 1 or 2 ints"),
                }
            }
        },
        _ => out_fail("range() takes 1 or 2 ints"),
    }
}

/// A built-in function; `None` where the name or the arguments are not its own.
pub open spec fn builtin_call(h: Seq<ObjView>, n: Seq<char>, args: Seq<ValueView>) -> Option<
    OutView,
> {
    let a = first_of(args);
    if n == "print"@ {
        Some(show_out(args, " "@, Goal::Print))
    } else if n == "str"@ {
        Some(
            show_out(
                seq![
                    match a {
                        Some(v) => v,
                        None => ValueView::Nil,
                    },
                ],
                ""@,
                Goal::Text,
            ),
        )
    } else if n == "input"@ {
        Some(
            match a {
                Some(v) => show_out(seq![v], ""@, Goal::Prompt),
                None => OutView::Ask(ActionView::Input { prompt: None }),
            },
        )
    } else if n == "type"@ {
        Some(text_out(kind_name(a)))
    } else if n == "assert"@ {
        Some(
            match a {
                Some(v) => match truth(v) {
                    Some(true) => OutView::Give(ValueView::Nil),
                    Some(false) => OutView::Fail("assertion failed"@),
                    None => OutView::Fail(no_condition()),
                },
                None => OutView::Fail("assertion failed"@),
            },
        )
    } else if n == "drop"@ {
        Some(OutView::Give(ValueView::Nil))
    } else if n == "range"@ {
        Some(range_out(args))
    } else {
        match a {
            Some(v) => builtin_one(h, n, v),
            None => None,
        }
    }
}

fn find_type(v: Option<&Value>) -> (r: &'static str)
    ensures
        r@ == kind_name(
            match v {
                Some(x) => Some(x@),
                None => None,
            },
        ),
{
    match v {
        None => "nil",
        Some(x) => match x {
            Value::Int(_) => "i64",
            Value::Float(_) => "f64",
            Value::Bool(_) => "bool",
            Value::Str(_) => "str",
            Value::List(_) => "list",
            Value::Dict(_) => "map",
            Value::Func(_) => "fn",
            Value::Struct(_) => "struct",
            Value::CBuf(_) => "cbuf",
            Value::Nil => "nil",
        },
    }
}

pub fn call_builtin(h: &Vec<Obj>, n: &str, args: &Vec<Value>) -> (r: Option<Out>)
    ensures
        out_opt(r) == builtin_call(heap_view(h@), n@, values_view(args@)),
{
    let a: Option<&Value> = if args.len() > 0 {
        Some(&args[0])
    } else {
        None
    };
    assert(match a {
        Some(v) => first_of(values_view(args@)) == Some(v@),
        None => first_of(values_view(args@)) is None,
    });
    if str_eq(n, "print") {
        let all = copy_values(args, 0, args.len());
        assert(values_view(all@) =~= values_view(args@));
        Some(show_task(all, " ", Goal::Print))
    } else if str_eq(n, "str") {
        let v = match a {
            Some(v) => v.clone(),
            None => Value::Nil,
        };
        Some(show_task(one_value(v), "", Goal::Text))
    } else if str_eq(n, "input") {
        match a {
            Some(v) => Some(show_task(one_value(v.clone()), "", Goal::Prompt)),
            None => Some(Out::Ask(Action::Input { prompt: None })),
        }
    } else if str_eq(n, "type") {
        Some(give_text(find_type(a)))
    } else if str_eq(n, "assert") {
        match a {
            Some(v) => match v.truthy() {
                Some(b) => if b {
                    Some(Out::Give(Value::Nil))
                } else {
                    Some(out_fail("assertion failed"))
                },
                None => Some(out_fail("condition must be a bool (Lumen has strict truthiness)")),
            },
            None => Some(out_fail("assertion failed")),
        }
    } else if str_eq(n, "drop") {
        Some(Out::Give(Value::Nil))
    } else if str_eq(n, "range") {
        Some(call_range(args))
    } else {
        match a {
            Some(v) => call_one(h, n, v),
            None => None,
        }
    }
}

/// A method without arguments that leaves its receiver as it is.
pub open spec fn method_now(h: Seq<ObjView>, v: ValueView, n: Seq<char>) -> Option<OutView> {
    if n == "len"@ {
        match length_of(h, v) {
            Some(k) => Some(len_out(k)),
            None => None,
        }
    } else {
        match v {
            ValueView::Dict(a) => match dict_at(h, a) {
                Some(m) => if n == "keys"@ {
                    Some(OutView::List(keys_of(m)))
                } else if n == "values"@ {
                    Some(OutView::List(vals_of(m)))
                } else {
                    None
                },
                None => None,
            },
            ValueView::Str(s) => if n == "upper"@ {
                Some(text_out(upper_text(s)))
            } else if n == "lower"@ {
                Some(text_out(lower_text(s)))
            } else if n == "trim"@ {
                Some(text_out(rstrip_spec(lstrip_spec(s))))
            } else if n == "lstrip"@ {
                Some(text_out(lstrip_spec(s)))
            } else if n == "rstrip"@ {
                Some(text_out(rstrip_spec(s)))
            } else if n == "title"@ {
                Some(text_out(title_spec(vstd::utf8::encode_utf8(s))))
            } else {
                None
            },
            _ => None,
        }
    }
}

pub fn call_method_now(h: &Vec<Obj>, v: &Value, n: &str) -> (r: Option<Out>)
    ensures
        out_opt(r) == method_now(heap_view(h@), v@, n@),
{
    if str_eq(n, "len") {
        match find_length(h, v) {
            Some(k) => Some(Out::Give(Value::Int(to_int(k)))),
            None => None,
        }
    } else {
        match v {
            Value::Dict(a) => match get_dict(h, *a) {
                Some(m) => if str_eq(n, "keys") {
                    Some(Out::List(m.keys()))
                } else if str_eq(n, "values") {
                    Some(Out::List(m.values()))
                } else {
                    None
                },
                None => None,
            },
            Value::Str(s) => {
                if str_eq(n, "upper") {
                    Some(Out::Give(text_value(upper(s.as_str()))))
                } else if str_eq(n, "lower") {
                    Some(Out::Give(text_value(lower(s.as_str()))))
                } else if str_eq(n, "trim") {
                    let t = lstrip(s.as_str());
                    Some(Out::Give(text_value(rstrip(t.as_str()))))
                } else if str_eq(n, "lstrip") {
                    Some(Out::Give(text_value(lstrip(s.as_str()))))
                } else if str_eq(n, "rstrip") {
                    Some(Out::Give(text_value(rstrip(s.as_str()))))
                } else if str_eq(n, "title") {
                    Some(Out::Give(text_value(title(s.as_str()))))
                } else {
                    None
                }
            },
            _ => None,
        }
    }
}

pub open spec fn texts_of(s: Seq<Seq<char>>) -> Seq<ValueView> {
    s.map_values(|t: Seq<char>| ValueView::Str(t))
}

pub fn text_values(s: Vec<String>) -> (r: Vec<Value>)
    ensures
        values_view(r@) == texts_of(texts_view(s@)),
{
    let mut r: Vec<Value> = Vec::new();
    let ghost sv = texts_view(s@);
    assert(values_view(r@) =~= texts_of(sv).take(0));
    for i in 0..s.len()
        invariant
            sv == texts_view(s@),
            values_view(r@) == texts_of(sv).take(i as int),
    {
        let v = text_value(s[i].as_str().to_owned());
        proof {
            values_push(r@, v);
        }
        r.push(v);
        assert(values_view(r@) =~= texts_of(sv).take(i + 1));
    }
    assert(values_view(r@) =~= texts_of(sv));
    r
}

pub open spec fn needs_text(n: Seq<char>) -> OutView {
    OutView::Fail(n + " arg must be a string"@)
}

/// A method of a list with the argument `x`.
pub open spec fn list_method(s: Seq<ValueView>, n: Seq<char>, x: ValueView) -> Option<OutView> {
    if n == "contains"@ {
        Some(bool_out(among(s, x)))
    } else if n == "index"@ {
        Some(
            match place_of(s, x, 0) {
                Some(i) => len_out(i as nat),
                None => int_out(-1),
            },
        )
    } else if n == "count"@ {
        Some(len_out(times_in(s, x)))
    } else if n == "join"@ {
        Some(
            match x {
                ValueView::Str(sep) => show_out(s, sep, Goal::Text),
                _ => OutView::Fail("join separator must be a string"@),
            },
        )
    } else {
        None
    }
}

pub fn call_list_method(s: &Vec<Value>, n: &str, x: &Value) -> (r: Option<Out>)
    ensures
        out_opt(r) == list_method(values_view(s@), n@, x@),
{
    if str_eq(n, "contains") {
        Some(Out::Give(Value::Bool(find_place(s, x).is_some())))
    } else if str_eq(n, "index") {
        match find_place(s, x) {
            Some(i) => Some(Out::Give(Value::Int(to_int(i)))),
            None => Some(Out::Give(Value::Int(-1))),
        }
    } else if str_eq(n, "count") {
        Some(Out::Give(Value::Int(to_int(count_in(s, x)))))
    } else if str_eq(n, "join") {
        match x {
            Value::Str(sep) => {
                let all = copy_values(s, 0, s.len());
                assert(values_view(all@) =~= values_view(s@));
                Some(show_task(all, sep.as_str(), Goal::Text))
            },
            _ => Some(out_fail("join separator must be a string")),
        }
    } else {
        None
    }
}

/// A method of a string with the argument `x`.
pub open spec fn text_method(
    h: Seq<ObjView>,
    s: Seq<char>,
    n: Seq<char>,
    x: ValueView,
) -> Option<OutView> {
    if n == "join"@ {
        Some(
            match x {
                ValueView::List(a) => match list_at(h, a) {
                    Some(v) => show_out(v, s, Goal::Text),
                    None => OutView::Fail("join arg must be a list"@),
                },
                _ => OutView::Fail("join arg must be a list"@),
            },
        )
    } else if n == "repeat"@ {
        Some(
            match x {
                ValueView::Int(k) => text_out(
                    repeated(
                        s,
                        if k > 0 {
                            k as nat
                        } else {
                            0
                        },
                    ),
                ),
                _ => OutView::Fail("repeat arg must be an int"@),
            },
        )
    } else if n == "starts_with"@ || n == "ends_with"@ || n == "contains"@ || n == "split"@ || n
        == "find"@ {
        Some(
            match x {
                ValueView::Str(p) => if n == "starts_with"@ {
                    bool_out(starts_with_spec(s, p))
                } else if n == "ends_with"@ {
                    bool_out(ends_with_spec(s, p))
                } else if n == "contains"@ {
                    bool_out(contains_text(s, p))
                } else if n == "split"@ {
                    OutView::List(texts_of(pieces(s, p, 0)))
                } else {
                    if byte_position(s, p) >= 0 {
                        len_out(byte_position(s, p) as nat)
                    } else {
                        int_out(-1)
                    }
                },
                _ => needs_text(n),
            },
        )
    } else {
        None
    }
}

pub fn call_text_method(h: &Vec<Obj>, s: &str, n: &str, x: &Value) -> (r: Option<Out>)
    ensures
        out_opt(r) == text_method(heap_view(h@), s@, n@, x@),
{
    if str_eq(n, "join") {
        match x {
            Value::List(a) => match get_list(h, *a) {
                Some(v) => {
                    let all = copy_values(v, 0, v.len());
                    assert(values_view(all@) =~= values_view(v@));
                    Some(show_task(all, s, Goal::Text))
                },
                None => Some(out_fail("join arg must be a list")),
            },
            _ => Some(out_fail("join arg must be a list")),
        }
    } else if str_eq(n, "repeat") {
        match x {
            Value::Int(k) => {
                let times: u64 = if *k > 0 {
                    *k as u64
                } else {
                    0
                };
                Some(Out::Give(text_value(repeat(s, times))))
            },
            _ => Some(out_fail("repeat arg must be an int")),
        }
    } else if str_eq(n, "starts_with") || str_eq(n, "ends_with") || str_eq(n, "contains")
        || str_eq(n, "split") || str_eq(n, "find") {
        match x {
            Value::Str(p) => {
                if str_eq(n, "starts_with") {
                    Some(Out::Give(Value::Bool(starts_with(s, p.as_str()))))
                } else if str_eq(n, "ends_with") {
                    Some(Out::Give(Value::Bool(ends_with(s, p.as_str()))))
                } else if str_eq(n, "contains") {
                    Some(Out::Give(Value::Bool(has_text(s, p.as_str()))))
                } else if str_eq(n, "split") {
                    Some(Out::List(text_values(split(s, p.as_str()))))
                } else {
                    match find(s, p.as_str()) {
                        Some(k) => Some(Out::Give(Value::Int(to_int(k)))),
                        None => Some(Out::Give(Value::Int(-1))),
                    }
                }
            },
            _ => Some(Out::Fail(concat(n, " arg must be a string"))),
        }
    } else {
        None
    }
}

} // verus!
