//! JSON: the text of a value, and the value of a text.

use crate::cbuf::{hex_of, hex_value};
use crate::strings::{parse_int, parsed_int};
use crate::text::{dec, push_char, push_i64, to_chars};
use crate::value::{
    entries_view, heap_view, texts_map, values_view, Obj, ObjView, Shown, ShownView, Value,
    ValueView,
};
use std::collections::HashMap;
use vstd::prelude::*;
use vstd::string::{StringExecFns, StringSliceAdditionalSpecFns};

verus! {

broadcast use vstd::std_specs::hash::group_hash_axioms;

pub open spec fn small_hex(n: int) -> char {
    if n < 10 {
        (48 + n) as u8 as char
    } else {
        (87 + n) as u8 as char
    }
}

/// A character of a string in JSON.
pub open spec fn escaped(c: char) -> Seq<char> {
    if c == '"' {
        seq!['\\', '"']
    } else if c == '\\' {
        seq!['\\', '\\']
    } else if c == '\n' {
        seq!['\\', 'n']
    } else if c == '\t' {
        seq!['\\', 't']
    } else if c == '\r' {
        seq!['\\', 'r']
    } else if c == '\u{8}' {
        seq!['\\', 'b']
    } else if c == '\u{c}' {
        seq!['\\', 'f']
    } else if (c as int) < 0x20 {
        seq!['\\', 'u', '0', '0', small_hex(c as int / 16), small_hex(c as int % 16)]
    } else {
        seq![c]
    }
}

pub open spec fn escaped_all(s: Seq<char>) -> Seq<char>
    decreases s.len(),
{
    if s.len() == 0 {
        Seq::empty()
    } else {
        escaped_all(s.drop_last()) + escaped(s.last())
    }
}

/// A string in JSON.
pub open spec fn string_text(s: Seq<char>) -> Seq<char> {
    seq!['"'] + escaped_all(s) + seq!['"']
}

fn hex_char(n: u32) -> (r: char)
    requires
        n < 16,
    ensures
        r == small_hex(n as int),
{
    if n < 10 {
        (48 + n as u8) as char
    } else {
        (87 + n as u8) as char
    }
}

fn push_escaped(out: &mut String, c: char)
    ensures
        final(out)@ == old(out)@ + escaped(c),
{
    let ghost o1 = out@;
    if c == '"' {
        push_char(out, '\\');
        push_char(out, '"');
    } else if c == '\\' {
        push_char(out, '\\');
        push_char(out, '\\');
    } else if c == '\n' {
        push_char(out, '\\');
        push_char(out, 'n');
    } else if c == '\t' {
        push_char(out, '\\');
        push_char(out, 't');
    } else if c == '\r' {
        push_char(out, '\\');
        push_char(out, 'r');
    } else if c == '\u{8}' {
        push_char(out, '\\');
        push_char(out, 'b');
    } else if c == '\u{c}' {
        push_char(out, '\\');
        push_char(out, 'f');
    } else if c <= '\u{1f}' {
        let n: u32 = c as u32;
        push_char(out, '\\');
        push_char(out, 'u');
        push_char(out, '0');
        push_char(out, '0');
        push_char(out, hex_char(n / 16));
        push_char(out, hex_char(n % 16));
    } else {
        push_char(out, c);
    }
    assert(out@ =~= o1 + escaped(c));
}

/// Appends a string as JSON writes it.
pub fn json_escape(s: &str, out: &mut String)
    ensures
        final(out)@ == old(out)@ + string_text(s@),
{
    let ghost o0 = out@;
    let v = to_chars(s);
    push_char(out, '"');
    assert(v@.take(0) =~= Seq::empty());
    assert(out@ =~= o0 + seq!['"'] + escaped_all(v@.take(0)));
    for i in 0..v.len()
        invariant
            v@ == s@,
            out@ == o0 + seq!['"'] + escaped_all(v@.take(i as int)),
    {
        assert(v@.take(i + 1).drop_last() =~= v@.take(i as int));
        push_escaped(out, v[i]);
        assert(v@.take(i + 1).last() == v@[i as int]);
        assert(out@ =~= o0 + seq!['"'] + escaped_all(v@.take(i + 1)));
    }
    assert(v@.take(v@.len() as int) =~= v@);
    push_char(out, '"');
    assert(out@ =~= o0 + string_text(s@));
}

/// The text of a key of an object.
pub open spec fn key_text(m: Map<u64, Seq<char>>, v: ValueView) -> ShownView {
    match v {
        ValueView::Str(s) => ShownView::Text(s),
        ValueView::Int(n) => ShownView::Text(dec(n as int)),
        ValueView::Float(b) => if m.contains_key(b) {
            ShownView::Text(m[b])
        } else {
            ShownView::Need(b)
        },
        ValueView::Bool(b) => ShownView::Text(
            if b {
                "true"@
            } else {
                "false"@
            },
        ),
        ValueView::Nil => ShownView::Text("nil"@),
        _ => ShownView::Text(""@),
    }
}

pub open spec fn with_comma(t: Seq<char>, first: bool, u: Seq<char>) -> Seq<char> {
    if first {
        u
    } else {
        t + ","@ + u
    }
}

/// The JSON text of a value. What JSON does not know is `null`.
pub open spec fn json_text(
    h: Seq<ObjView>,
    m: Map<u64, Seq<char>>,
    v: ValueView,
    depth: nat,
) -> ShownView
    decreases depth, 0nat,
{
    match v {
        ValueView::Int(n) => ShownView::Text(dec(n as int)),
        ValueView::Float(b) => if m.contains_key(b) {
            ShownView::Text(m[b])
        } else {
            ShownView::Need(b)
        },
        ValueView::Bool(b) => ShownView::Text(
            if b {
                "true"@
            } else {
                "false"@
            },
        ),
        ValueView::Str(s) => ShownView::Text(string_text(s)),
        ValueView::List(a) | ValueView::Dict(a) => if depth == 0 || a >= h.len() {
            ShownView::Endless
        } else {
            match h[a as int] {
                ObjView::List(s) => match items_text(h, m, s, s.len(), (depth - 1) as nat) {
                    ShownView::Text(t) => ShownView::Text("["@ + t + "]"@),
                    o => o,
                },
                ObjView::Dict(s) => match entries_text(h, m, s, s.len(), (depth - 1) as nat) {
                    ShownView::Text(t) => ShownView::Text("{"@ + t + "}"@),
                    o => o,
                },
                _ => ShownView::Text("null"@),
            }
        },
        _ => ShownView::Text("null"@),
    }
}

pub open spec fn items_text(
    h: Seq<ObjView>,
    m: Map<u64, Seq<char>>,
    s: Seq<ValueView>,
    k: nat,
    depth: nat,
) -> ShownView
    decreases depth, 1nat, k,
{
    if k == 0 || k > s.len() {
        ShownView::Text(Seq::empty())
    } else {
        match items_text(h, m, s, (k - 1) as nat, depth) {
            ShownView::Text(t) => match json_text(h, m, s[k - 1], depth) {
                ShownView::Text(u) => ShownView::Text(with_comma(t, k == 1, u)),
                o => o,
            },
            o => o,
        }
    }
}

pub open spec fn entries_text(
    h: Seq<ObjView>,
    m: Map<u64, Seq<char>>,
    s: Seq<(ValueView, ValueView)>,
    k: nat,
    depth: nat,
) -> ShownView
    decreases depth, 1nat, k,
{
    if k == 0 || k > s.len() {
        ShownView::Text(Seq::empty())
    } else {
        match entries_text(h, m, s, (k - 1) as nat, depth) {
            ShownView::Text(t) => match key_text(m, s[k - 1].0) {
                ShownView::Text(a) => match json_text(h, m, s[k - 1].1, depth) {
                    ShownView::Text(u) => ShownView::Text(
                        with_comma(t, k == 1, string_text(a) + ":"@ + u),
                    ),
                    o => o,
                },
                o => o,
            },
            o => o,
        }
    }
}

proof fn items_stop(
    h: Seq<ObjView>,
    m: Map<u64, Seq<char>>,
    s: Seq<ValueView>,
    k: nat,
    depth: nat,
)
    requires
        k <= s.len(),
        !(items_text(h, m, s, k, depth) is Text),
    ensures
        items_text(h, m, s, s.len(), depth) == items_text(h, m, s, k, depth),
    decreases s.len() - k,
{
    if k < s.len() {
        items_stop(h, m, s, k + 1, depth);
    }
}

proof fn entries_stop(
    h: Seq<ObjView>,
    m: Map<u64, Seq<char>>,
    s: Seq<(ValueView, ValueView)>,
    k: nat,
    depth: nat,
)
    requires
        k <= s.len(),
        !(entries_text(h, m, s, k, depth) is Text),
    ensures
        entries_text(h, m, s, s.len(), depth) == entries_text(h, m, s, k, depth),
    decreases s.len() - k,
{
    if k < s.len() {
        entries_stop(h, m, s, k + 1, depth);
    }
}

fn number_text(n: i64) -> (r: String)
    ensures
        r@ == dec(n as int),
{
    let mut s = String::new();
    push_i64(&mut s, n);
    assert(s@ =~= dec(n as int));
    s
}

fn bool_text(b: bool) -> (r: String)
    ensures
        r@ == (if b {
            "true"@
        } else {
            "false"@
        }),
{
    if b {
        "true".to_owned()
    } else {
        "false".to_owned()
    }
}

fn write_key(m: &HashMap<u64, String>, v: &Value) -> (r: Shown)
    ensures
        r@ == key_text(texts_map(m@), v@),
{
    match v {
        Value::Str(s) => Shown::Text(s.as_str().to_owned()),
        Value::Int(n) => Shown::Text(number_text(*n)),
        Value::Float(b) => match m.get(b) {
            Some(t) => Shown::Text(t.clone()),
            None => Shown::Need(*b),
        },
        Value::Bool(b) => Shown::Text(bool_text(*b)),
        Value::Nil => Shown::Text("nil".to_owned()),
        _ => Shown::Text("".to_owned()),
    }
}

/// The JSON text of a value, or what stands in the way. `depth` is how far objects may
/// lie inside each other.
pub fn json_write(h: &Vec<Obj>, m: &HashMap<u64, String>, v: &Value, depth: usize) -> (r: Shown)
    ensures
        r@ == json_text(heap_view(h@), texts_map(m@), v@, depth as nat),
    decreases depth, 1nat, 0nat,
{
    match v {
        Value::Int(n) => Shown::Text(number_text(*n)),
        Value::Float(b) => match m.get(b) {
            Some(t) => Shown::Text(t.clone()),
            None => Shown::Need(*b),
        },
        Value::Bool(b) => Shown::Text(bool_text(*b)),
        Value::Str(s) => {
            let mut t = String::new();
            json_escape(s.as_str(), &mut t);
            assert(t@ =~= string_text(s@));
            Shown::Text(t)
        },
        Value::List(a) => write_at(h, m, *a, depth),
        Value::Dict(a) => write_at(h, m, *a, depth),
        _ => Shown::Text("null".to_owned()),
    }
}

fn write_at(h: &Vec<Obj>, m: &HashMap<u64, String>, a: usize, depth: usize) -> (r: Shown)
    ensures
        r@ == json_text(heap_view(h@), texts_map(m@), ValueView::List(a), depth as nat),
        r@ == json_text(heap_view(h@), texts_map(m@), ValueView::Dict(a), depth as nat),
    decreases depth, 0nat, 0nat,
{
    if depth == 0 || a >= h.len() {
        return Shown::Endless;
    }
    let d: usize = depth - 1;
    assert(heap_view(h@)[a as int] == h@[a as int]@);
    match &h[a] {
        Obj::List(s) => match write_items(h, m, s, d) {
            Shown::Text(t) => {
                let mut r = "[".to_owned();
                r.append(t.as_str());
                r.append("]");
                Shown::Text(r)
            },
            o => o,
        },
        Obj::Dict(s) => match write_entries(h, m, s.pairs(), d) {
            Shown::Text(t) => {
                let mut r = "{".to_owned();
                r.append(t.as_str());
                r.append("}");
                Shown::Text(r)
            },
            o => o,
        },
        _ => Shown::Text("null".to_owned()),
    }
}

fn write_items(h: &Vec<Obj>, m: &HashMap<u64, String>, s: &Vec<Value>, depth: usize) -> (r: Shown)
    ensures
        r@ == items_text(
            heap_view(h@),
            texts_map(m@),
            values_view(s@),
            s@.len(),
            depth as nat,
        ),
    decreases depth, 2nat, 0nat,
{
    let ghost sv = values_view(s@);
    let ghost hv = heap_view(h@);
    let ghost mv = texts_map(m@);
    let mut t = String::new();
    assert(t@ =~= Seq::empty());
    for i in 0..s.len()
        invariant
            sv == values_view(s@),
            hv == heap_view(h@),
            mv == texts_map(m@),
            items_text(hv, mv, sv, i as nat, depth as nat) == ShownView::Text(t@),
    {
        assert(sv[i as int] == s@[i as int]@);
        match json_write(h, m, &s[i], depth) {
            Shown::Text(u) => {
                if i == 0 {
                    t = u;
                } else {
                    t.append(",");
                    t.append(u.as_str());
                }
            },
            o => {
                proof {
                    items_stop(hv, mv, sv, (i + 1) as nat, depth as nat);
                }
                return o;
            },
        }
    }
    Shown::Text(t)
}

fn write_entries(
    h: &Vec<Obj>,
    m: &HashMap<u64, String>,
    s: &Vec<(Value, Value)>,
    depth: usize,
) -> (r: Shown)
    ensures
        r@ == entries_text(
            heap_view(h@),
            texts_map(m@),
            entries_view(s@),
            s@.len(),
            depth as nat,
        ),
    decreases depth, 2nat, 0nat,
{
    let ghost sv = entries_view(s@);
    let ghost hv = heap_view(h@);
    let ghost mv = texts_map(m@);
    let mut t = String::new();
    assert(t@ =~= Seq::empty());
    for i in 0..s.len()
        invariant
            sv == entries_view(s@),
            hv == heap_view(h@),
            mv == texts_map(m@),
            entries_text(hv, mv, sv, i as nat, depth as nat) == ShownView::Text(t@),
    {
        assert(sv[i as int] == (s@[i as int].0@, s@[i as int].1@));
        let ghost t0 = t@;
        match write_key(m, &s[i].0) {
            Shown::Text(a) => match json_write(h, m, &s[i].1, depth) {
                Shown::Text(u) => {
                    if i > 0 {
                        t.append(",");
                    } else {
                        t = String::new();
                    }
                    json_escape(a.as_str(), &mut t);
                    t.append(":");
                    t.append(u.as_str());
                    assert(t@ =~= with_comma(t0, i == 0, string_text(a@) + ":"@ + u@));
                },
                o => {
                    proof {
                        entries_stop(hv, mv, sv, (i + 1) as nat, depth as nat);
                    }
                    return o;
                },
            },
            o => {
                proof {
                    entries_stop(hv, mv, sv, (i + 1) as nat, depth as nat);
                }
                return o;
            },
        }
    }
    Shown::Text(t)
}

/// What a JSON text stands for. A number with a fraction or an exponent is kept as its
/// text.
#[derive(Debug)]
pub enum Json {
    Int(i64),
    Float(String),
    Str(String),
    Bool(bool),
    Nil,
    List(Vec<Json>),
    Obj(Vec<(String, Json)>),
}

pub enum JsonView {
    Int(i64),
    Float(Seq<char>),
    Str(Seq<char>),
    Bool(bool),
    Nil,
    List(Seq<JsonView>),
    Obj(Seq<(Seq<char>, JsonView)>),
}

pub open spec fn json_view(j: Json) -> JsonView
    decreases j,
{
    match j {
        Json::Int(n) => JsonView::Int(n),
        Json::Float(s) => JsonView::Float(s@),
        Json::Str(s) => JsonView::Str(s@),
        Json::Bool(b) => JsonView::Bool(b),
        Json::Nil => JsonView::Nil,
        Json::List(v) => JsonView::List(jsons_view(v@)),
        Json::Obj(v) => JsonView::Obj(fields_view(v@)),
    }
}

pub open spec fn jsons_view(s: Seq<Json>) -> Seq<JsonView>
    decreases s,
{
    Seq::new(
        s.len(),
        |i: int|
            if 0 <= i < s.len() {
                json_view(s[i])
            } else {
                arbitrary()
            },
    )
}

pub open spec fn fields_view(s: Seq<(String, Json)>) -> Seq<(Seq<char>, JsonView)>
    decreases s,
{
    Seq::new(
        s.len(),
        |i: int|
            if 0 <= i < s.len() {
                (s[i].0@, json_view(s[i].1))
            } else {
                arbitrary()
            },
    )
}

impl View for Json {
    type V = JsonView;

    open spec fn view(&self) -> JsonView {
        json_view(*self)
    }
}

proof fn jsons_push(s: Seq<Json>, j: Json)
    ensures
        jsons_view(s.push(j)) == jsons_view(s).push(j@),
{
    assert(jsons_view(s.push(j)) =~= jsons_view(s).push(j@));
}

proof fn fields_push(s: Seq<(String, Json)>, k: String, j: Json)
    ensures
        fields_view(s.push((k, j))) == fields_view(s).push((k@, j@)),
{
    assert(fields_view(s.push((k, j))) =~= fields_view(s).push((k@, j@)));
}

pub open spec fn is_ws(c: u8) -> bool {
    c == 0x20 || c == 0x09 || c == 0x0a || c == 0x0d
}

/// The place behind white space.
pub open spec fn skip_ws(b: Seq<u8>, p: int) -> int
    decreases b.len() - p,
{
    if 0 <= p < b.len() && is_ws(b[p]) {
        skip_ws(b, p + 1)
    } else {
        p
    }
}

fn after_ws(b: &[u8], p: usize) -> (r: usize)
    requires
        p <= b@.len(),
    ensures
        r == skip_ws(b@, p as int),
        p <= r <= b@.len(),
{
    let mut i: usize = p;
    while i < b.len() && (b[i] == 0x20 || b[i] == 0x09 || b[i] == 0x0a || b[i] == 0x0d)
        invariant
            p <= i <= b@.len(),
            skip_ws(b@, p as int) == skip_ws(b@, i as int),
        decreases b@.len() - i,
    {
        i += 1;
    }
    i
}

/// The character with a code, or the replacement character where there is none.
pub open spec fn unicode_char(n: int) -> char {
    choose|c: char| has_code(c, unicode_code(n))
}

pub open spec fn has_code(c: char, n: int) -> bool {
    c as int == n
}

pub open spec fn unicode_code(n: int) -> int {
    if 0 <= n < 0xd800 || 0xe000 <= n <= 0x10_ffff {
        n
    } else {
        0xfffd
    }
}

/// Calls `char::from_u32`, which gives the character with a code, and none for a code
/// that no character has: a surrogate, or one above the last.
#[verifier::external_body]
fn char_of(n: u32) -> (r: Option<char>)
    ensures
        r is Some <==> n < 0xd800 || 0xe000 <= n <= 0x10_ffff,
        r is Some ==> r->Some_0 as int == n,
{
    char::from_u32(n)
}

/// The character with a code, or the replacement character.
fn char_or_other(n: u32) -> (r: char)
    ensures
        r as int == unicode_code(n as int),
{
    match char_of(n) {
        Some(c) => c,
        None => '\u{fffd}',
    }
}

/// The code that four hexadecimal digits are. A plus sign may stand for the first.
pub open spec fn four_digits(b: Seq<u8>, p: int) -> Option<int> {
    let a = if b[p] == 0x2b {
        Some(0u8)
    } else {
        hex_value(b[p] as char)
    };
    match (
        a,
        hex_value(b[p + 1] as char),
        hex_value(b[p + 2] as char),
        hex_value(b[p + 3] as char),
    ) {
        (Some(w), Some(x), Some(y), Some(z)) => Some(
            w as int * 4096 + x as int * 256 + y as int * 16 + z as int,
        ),
        _ => None,
    }
}

fn read_four(b: &[u8], p: usize) -> (r: Option<u32>)
    requires
        p + 4 <= b@.len(),
    ensures
        match r {
            Some(n) => four_digits(b@, p as int) == Some(n as int),
            None => four_digits(b@, p as int) is None,
        },
{
    let n: usize = b.len();
    let a: Option<u8> = if b[p] == 0x2b {
        Some(0)
    } else {
        hex_of(b[p] as char)
    };
    match (a, hex_of(b[p + 1] as char), hex_of(b[p + 2] as char), hex_of(b[p + 3] as char)) {
        (Some(w), Some(x), Some(y), Some(z)) => Some(
            w as u32 * 4096 + x as u32 * 256 + y as u32 * 16 + z as u32,
        ),
        _ => None,
    }
}

/// What a letter behind a backslash stands for, other than `u`.
pub open spec fn unescaped(e: u8) -> char {
    if e == 0x6e {
        '\n'
    } else if e == 0x74 {
        '\t'
    } else if e == 0x72 {
        '\r'
    } else if e == 0x62 {
        '\u{8}'
    } else if e == 0x66 {
        '\u{c}'
    } else {
        e as char
    }
}

fn unescape(e: u8) -> (r: char)
    ensures
        r == unescaped(e),
{
    if e == 0x6e {
        '\n'
    } else if e == 0x74 {
        '\t'
    } else if e == 0x72 {
        '\r'
    } else if e == 0x62 {
        '\u{8}'
    } else if e == 0x66 {
        '\u{c}'
    } else {
        e as char
    }
}

/// The rest of a string from `p` on, behind `acc`, and the place behind its end.
pub open spec fn string_from(b: Seq<u8>, p: int, acc: Seq<char>) -> Option<(Seq<char>, int)>
    decreases b.len() - p,
{
    if p < 0 || p >= b.len() {
        None
    } else if b[p] == 0x22 {
        Some((acc, p + 1))
    } else if b[p] == 0x5c {
        if p + 1 >= b.len() {
            None
        } else if b[p + 1] == 0x75 {
            if p + 6 > b.len() {
                None
            } else {
                match four_digits(b, p + 2) {
                    Some(n) => string_from(b, p + 6, acc.push(unicode_char(n))),
                    None => None,
                }
            }
        } else {
            string_from(b, p + 2, acc.push(unescaped(b[p + 1])))
        }
    } else {
        string_from(b, p + 1, acc.push(b[p] as char))
    }
}

fn read_string(b: &[u8], p: usize) -> (r: Option<(String, usize)>)
    requires
        p <= b@.len(),
    ensures
        match r {
            Some(x) => string_from(b@, p as int, Seq::empty()) == Some((x.0@, x.1 as int))
                && p < x.1
                <= b@.len(),
            None => string_from(b@, p as int, Seq::empty()) is None,
        },
{
    let n: usize = b.len();
    let mut s = String::new();
    let mut i: usize = p;
    assert(s@ =~= Seq::empty());
    while i < n
        invariant
            n == b@.len(),
            p <= i <= n,
            string_from(b@, p as int, Seq::empty()) == string_from(b@, i as int, s@),
        decreases n - i,
    {
        let c: u8 = b[i];
        if c == 0x22 {
            return Some((s, i + 1));
        }
        if c == 0x5c {
            if n - i < 2 {
                return None;
            }
            let e: u8 = b[i + 1];
            if e == 0x75 {
                if n - i < 6 {
                    return None;
                }
                match read_four(b, i + 2) {
                    Some(k) => {
                        let ch = char_or_other(k);
                        assert(has_code(ch, unicode_code(k as int)));
                        assert(ch == unicode_char(k as int));
                        push_char(&mut s, ch);
                        i += 6;
                    },
                    None => {
                        return None;
                    },
                }
            } else {
                push_char(&mut s, unescape(e));
                i += 2;
            }
        } else {
            push_char(&mut s, c as char);
            i += 1;
        }
    }
    None
}

pub open spec fn digit_at(b: Seq<u8>, p: int) -> bool {
    0 <= p < b.len() && 0x30 <= b[p] <= 0x39
}

pub open spec fn byte_at(b: Seq<u8>, p: int, c: u8) -> bool {
    0 <= p < b.len() && b[p] == c
}

/// The place behind digits.
pub open spec fn skip_digits(b: Seq<u8>, p: int) -> int
    decreases b.len() - p,
{
    if digit_at(b, p) {
        skip_digits(b, p + 1)
    } else {
        p
    }
}

fn after_digits(b: &[u8], p: usize) -> (r: usize)
    requires
        p <= b@.len(),
    ensures
        r == skip_digits(b@, p as int),
        p <= r <= b@.len(),
{
    let mut i: usize = p;
    while i < b.len() && 0x30 <= b[i] && b[i] <= 0x39
        invariant
            p <= i <= b@.len(),
            skip_digits(b@, p as int) == skip_digits(b@, i as int),
        decreases b@.len() - i,
    {
        i += 1;
    }
    i
}

/// The parts of a number: where its digits start, its fraction, its exponent and its
/// end.
pub struct NumParts {
    pub start: int,
    pub whole_end: int,
    pub fraction: bool,
    pub fraction_end: int,
    pub exponent: bool,
    pub exponent_start: int,
    pub end: int,
}

pub open spec fn num_parts(b: Seq<u8>, p: int) -> NumParts {
    let start = if byte_at(b, p, 0x2d) {
        p + 1
    } else {
        p
    };
    let whole_end = skip_digits(b, start);
    let fraction = byte_at(b, whole_end, 0x2e);
    let fraction_end = if fraction {
        skip_digits(b, whole_end + 1)
    } else {
        whole_end
    };
    let exponent = byte_at(b, fraction_end, 0x65) || byte_at(b, fraction_end, 0x45);
    let exponent_start = if byte_at(b, fraction_end + 1, 0x2b) || byte_at(b, fraction_end + 1, 0x2d) {
        fraction_end + 2
    } else {
        fraction_end + 1
    };
    let end = if exponent {
        skip_digits(b, exponent_start)
    } else {
        fraction_end
    };
    NumParts { start, whole_end, fraction, fraction_end, exponent, exponent_start, end }
}

/// Bytes as characters, one for one.
pub open spec fn plain_text(b: Seq<u8>) -> Seq<char> {
    b.map_values(|x: u8| x as char)
}

/// Whether a number with a fraction or an exponent is one: it has digits, and so has
/// its exponent.
pub open spec fn num_complete(n: NumParts) -> bool {
    n.whole_end - n.start + (if n.fraction {
        n.fraction_end - n.whole_end - 1
    } else {
        0
    }) > 0 && (n.exponent ==> n.end > n.exponent_start)
}

pub open spec fn number_from(b: Seq<u8>, p: int) -> Option<(JsonView, int)> {
    let n = num_parts(b, p);
    let tok = plain_text(b.subrange(p, n.end));
    if n.fraction || n.exponent {
        if num_complete(n) {
            Some((JsonView::Float(tok), n.end))
        } else {
            None
        }
    } else {
        match parsed_int(tok) {
            Some(k) => Some((JsonView::Int(k as i64), n.end)),
            None => None,
        }
    }
}

fn text_between(b: &[u8], p: usize, q: usize) -> (r: String)
    requires
        p <= q <= b@.len(),
    ensures
        r@ == plain_text(b@.subrange(p as int, q as int)),
{
    let mut s = String::new();
    let ghost all = b@.subrange(p as int, q as int);
    assert(s@ =~= plain_text(all.take(0)));
    for i in p..q
        invariant
            p <= q <= b@.len(),
            all == b@.subrange(p as int, q as int),
            s@ == plain_text(all.take(i - p)),
    {
        push_char(&mut s, b[i] as char);
        assert(s@ =~= plain_text(all.take(i + 1 - p)));
    }
    assert(all.take(q - p) =~= all);
    s
}

fn read_number(b: &[u8], p: usize) -> (r: Option<(Json, usize)>)
    requires
        p < b@.len(),
        byte_at(b@, p as int, 0x2d) || digit_at(b@, p as int),
    ensures
        match r {
            Some(x) => number_from(b@, p as int) == Some((x.0@, x.1 as int)) && p < x.1 <= b@.len(),
            None => number_from(b@, p as int) is None,
        },
{
    let n: usize = b.len();
    let ghost parts = num_parts(b@, p as int);
    let start: usize = if b[p] == 0x2d {
        p + 1
    } else {
        p
    };
    let whole_end: usize = after_digits(b, start);
    let fraction = whole_end < n && b[whole_end] == 0x2e;
    let fraction_end: usize = if fraction {
        after_digits(b, whole_end + 1)
    } else {
        whole_end
    };
    let exponent = fraction_end < n && (b[fraction_end] == 0x65 || b[fraction_end] == 0x45);
    let mut exponent_start: usize = fraction_end;
    let mut end: usize = fraction_end;
    if exponent {
        exponent_start = if n - fraction_end > 1 && (b[fraction_end + 1] == 0x2b || b[fraction_end + 1]
            == 0x2d) {
            fraction_end + 2
        } else {
            fraction_end + 1
        };
        end = after_digits(b, exponent_start);
        assert(parts.exponent_start == exponent_start);
    }
    assert(parts.start == start && parts.whole_end == whole_end && parts.fraction == fraction);
    assert(parts.fraction_end == fraction_end && parts.exponent == exponent && parts.end == end);
    assert(start > p || whole_end > p) by {
        if start == p {
            assert(digit_at(b@, p as int));
            assert(skip_digits(b@, p as int) == skip_digits(b@, p + 1));
            digits_go_on(b@, p + 1);
        }
    }
    let tok = text_between(b, p, end);
    if fraction || exponent {
        let digits: usize = whole_end - start + (if fraction {
            fraction_end - whole_end - 1
        } else {
            0
        });
        if digits > 0 && (!exponent || end > exponent_start) {
            Some((Json::Float(tok), end))
        } else {
            None
        }
    } else {
        match parse_int(tok.as_str()) {
            Some(k) => Some((Json::Int(k), end)),
            None => None,
        }
    }
}

proof fn digits_go_on(b: Seq<u8>, p: int)
    ensures
        skip_digits(b, p) >= p,
    decreases b.len() - p,
{
    if digit_at(b, p) {
        digits_go_on(b, p + 1);
    }
}

/// Whether a word stands at a place.
pub open spec fn word_at(b: Seq<u8>, p: int, w: Seq<u8>) -> bool {
    0 <= p && p + w.len() <= b.len() && b.subrange(p, p + w.len()) == w
}

pub open spec fn word_true() -> Seq<u8> {
    seq![0x74u8, 0x72, 0x75, 0x65]
}

pub open spec fn word_false() -> Seq<u8> {
    seq![0x66u8, 0x61, 0x6c, 0x73, 0x65]
}

pub open spec fn word_null() -> Seq<u8> {
    seq![0x6eu8, 0x75, 0x6c, 0x6c]
}

/// The value at a place, and the place behind it.
pub open spec fn value_at(b: Seq<u8>, p0: int) -> Option<(JsonView, int)>
    decreases b.len() - p0, 1nat,
{
    let p = skip_ws(b, p0);
    if p0 < 0 || p < p0 || p >= b.len() {
        None
    } else if b[p] == 0x22 {
        match string_from(b, p + 1, Seq::empty()) {
            Some((s, q)) => Some((JsonView::Str(s), q)),
            None => None,
        }
    } else if b[p] == 0x7b {
        let q = skip_ws(b, p + 1);
        if byte_at(b, q, 0x7d) {
            Some((JsonView::Obj(Seq::empty()), q + 1))
        } else if p < q && q <= b.len() {
            fields_at(b, q, Seq::empty())
        } else {
            None
        }
    } else if b[p] == 0x5b {
        let q = skip_ws(b, p + 1);
        if byte_at(b, q, 0x5d) {
            Some((JsonView::List(Seq::empty()), q + 1))
        } else if p < q && q <= b.len() {
            items_at(b, q, Seq::empty())
        } else {
            None
        }
    } else if b[p] == 0x2d || digit_at(b, p) {
        number_from(b, p)
    } else if word_at(b, p, word_true()) {
        Some((JsonView::Bool(true), p + 4))
    } else if word_at(b, p, word_false()) {
        Some((JsonView::Bool(false), p + 5))
    } else if word_at(b, p, word_null()) {
        Some((JsonView::Nil, p + 4))
    } else {
        None
    }
}

/// The items of a list from a place on, behind `acc`.
pub open spec fn items_at(b: Seq<u8>, p: int, acc: Seq<JsonView>) -> Option<(JsonView, int)>
    decreases b.len() - p, 2nat,
{
    match value_at(b, p) {
        Some((v, q)) => {
            let r = skip_ws(b, q);
            if p < q && q <= r && r < b.len() {
                if b[r] == 0x2c {
                    items_at(b, r + 1, acc.push(v))
                } else if b[r] == 0x5d {
                    Some((JsonView::List(acc.push(v)), r + 1))
                } else {
                    None
                }
            } else {
                None
            }
        },
        None => None,
    }
}

/// The fields of an object from a place on, behind `acc`.
pub open spec fn fields_at(
    b: Seq<u8>,
    p0: int,
    acc: Seq<(Seq<char>, JsonView)>,
) -> Option<(JsonView, int)>
    decreases b.len() - p0, 2nat,
{
    let p = skip_ws(b, p0);
    if p0 <= p && byte_at(b, p, 0x22) {
        match string_from(b, p + 1, Seq::empty()) {
            Some((k, q)) => {
                let c = skip_ws(b, q);
                if p < q && q <= c && byte_at(b, c, 0x3a) {
                    match value_at(b, c + 1) {
                        Some((v, e)) => {
                            let r = skip_ws(b, e);
                            if c < e && e <= r && r < b.len() {
                                if b[r] == 0x2c {
                                    fields_at(b, r + 1, acc.push((k, v)))
                                } else if b[r] == 0x7d {
                                    Some((JsonView::Obj(acc.push((k, v))), r + 1))
                                } else {
                                    None
                                }
                            } else {
                                None
                            }
                        },
                        None => None,
                    }
                } else {
                    None
                }
            },
            None => None,
        }
    } else {
        None
    }
}

fn has_word(b: &[u8], p: usize, w: &Vec<u8>) -> (r: bool)
    requires
        p <= b@.len(),
    ensures
        r == word_at(b@, p as int, w@),
{
    let n: usize = b.len();
    if n - p < w.len() {
        return false;
    }
    for i in 0..w.len()
        invariant
            n == b@.len(),
            p + w@.len() <= n,
            forall|j: int| 0 <= j < i ==> b@[p + j] == #[trigger] w@[j],
    {
        if b[p + i] != w[i] {
            assert(b@.subrange(p as int, p + w@.len())[i as int] == b@[p + i]);
            return false;
        }
    }
    assert(b@.subrange(p as int, p + w@.len()) =~= w@);
    true
}

fn word(kind: u8) -> (r: Vec<u8>)
    ensures
        r@ == (if kind == 0 {
            word_true()
        } else if kind == 1 {
            word_false()
        } else {
            word_null()
        }),
{
    let mut v: Vec<u8> = Vec::new();
    if kind == 0 {
        v.push(0x74);
        v.push(0x72);
        v.push(0x75);
        v.push(0x65);
        assert(v@ =~= word_true());
    } else if kind == 1 {
        v.push(0x66);
        v.push(0x61);
        v.push(0x6c);
        v.push(0x73);
        v.push(0x65);
        assert(v@ =~= word_false());
    } else {
        v.push(0x6e);
        v.push(0x75);
        v.push(0x6c);
        v.push(0x6c);
        assert(v@ =~= word_null());
    }
    v
}

fn read_value(b: &[u8], p0: usize) -> (r: Option<(Json, usize)>)
    requires
        p0 <= b@.len(),
    ensures
        match r {
            Some(x) => value_at(b@, p0 as int) == Some((x.0@, x.1 as int)) && p0 < x.1 <= b@.len(),
            None => value_at(b@, p0 as int) is None,
        },
    decreases b@.len() - p0, 1nat,
{
    let n: usize = b.len();
    let p: usize = after_ws(b, p0);
    if p >= n {
        return None;
    }
    let c: u8 = b[p];
    if c == 0x22 {
        match read_string(b, p + 1) {
            Some((s, q)) => Some((Json::Str(s), q)),
            None => None,
        }
    } else if c == 0x7b {
        let q: usize = after_ws(b, p + 1);
        if q < n && b[q] == 0x7d {
            let v: Vec<(String, Json)> = Vec::new();
            assert(fields_view(v@) =~= Seq::empty());
            return Some((Json::Obj(v), q + 1));
        }
        read_fields(b, q)
    } else if c == 0x5b {
        let q: usize = after_ws(b, p + 1);
        if q < n && b[q] == 0x5d {
            let v: Vec<Json> = Vec::new();
            assert(jsons_view(v@) =~= Seq::empty());
            return Some((Json::List(v), q + 1));
        }
        read_items(b, q)
    } else if c == 0x2d || (0x30 <= c && c <= 0x39) {
        read_number(b, p)
    } else if has_word(b, p, &word(0)) {
        Some((Json::Bool(true), p + 4))
    } else if has_word(b, p, &word(1)) {
        Some((Json::Bool(false), p + 5))
    } else if has_word(b, p, &word(2)) {
        Some((Json::Nil, p + 4))
    } else {
        None
    }
}

fn read_items(b: &[u8], p0: usize) -> (r: Option<(Json, usize)>)
    requires
        p0 <= b@.len(),
    ensures
        match r {
            Some(x) => items_at(b@, p0 as int, Seq::empty()) == Some((x.0@, x.1 as int)) && p0 < x.1
                <= b@.len(),
            None => items_at(b@, p0 as int, Seq::empty()) is None,
        },
    decreases b@.len() - p0, 2nat,
{
    let n: usize = b.len();
    let mut acc: Vec<Json> = Vec::new();
    let mut p: usize = p0;
    assert(jsons_view(acc@) =~= Seq::empty());
    loop
        invariant
            n == b@.len(),
            p0 <= p <= n,
            items_at(b@, p0 as int, Seq::empty()) == items_at(b@, p as int, jsons_view(acc@)),
        decreases n - p,
    {
        match read_value(b, p) {
            Some((v, q)) => {
                let r: usize = after_ws(b, q);
                if r >= n {
                    return None;
                }
                proof {
                    jsons_push(acc@, v);
                }
                acc.push(v);
                if b[r] == 0x2c {
                    p = r + 1;
                } else if b[r] == 0x5d {
                    return Some((Json::List(acc), r + 1));
                } else {
                    return None;
                }
            },
            None => {
                return None;
            },
        }
    }
}

fn read_fields(b: &[u8], p0: usize) -> (r: Option<(Json, usize)>)
    requires
        p0 <= b@.len(),
    ensures
        match r {
            Some(x) => fields_at(b@, p0 as int, Seq::empty()) == Some((x.0@, x.1 as int))
                && p0 < x.1
                <= b@.len(),
            None => fields_at(b@, p0 as int, Seq::empty()) is None,
        },
    decreases b@.len() - p0, 2nat,
{
    let n: usize = b.len();
    let mut acc: Vec<(String, Json)> = Vec::new();
    let mut p: usize = p0;
    assert(fields_view(acc@) =~= Seq::empty());
    loop
        invariant
            n == b@.len(),
            p0 <= p <= n,
            fields_at(b@, p0 as int, Seq::empty()) == fields_at(b@, p as int, fields_view(acc@)),
        decreases n - p,
    {
        let s: usize = after_ws(b, p);
        if s >= n || b[s] != 0x22 {
            return None;
        }
        match read_string(b, s + 1) {
            Some((k, q)) => {
                let c: usize = after_ws(b, q);
                if c >= n || b[c] != 0x3a {
                    return None;
                }
                match read_value(b, c + 1) {
                    Some((v, e)) => {
                        let r: usize = after_ws(b, e);
                        if r >= n {
                            return None;
                        }
                        proof {
                            fields_push(acc@, k, v);
                        }
                        acc.push((k, v));
                        if b[r] == 0x2c {
                            p = r + 1;
                        } else if b[r] == 0x7d {
                            return Some((Json::Obj(acc), r + 1));
                        } else {
                            return None;
                        }
                    },
                    None => {
                        return None;
                    },
                }
            },
            None => {
                return None;
            },
        }
    }
}

/// What a text stands for as a whole; white space may stand around it.
pub open spec fn parsed(b: Seq<u8>) -> Option<JsonView> {
    match value_at(b, 0) {
        Some((v, q)) => if skip_ws(b, q) == b.len() {
            Some(v)
        } else {
            None
        },
        None => None,
    }
}

pub fn json_parse(s: &str) -> (r: Option<Json>)
    ensures
        match r {
            Some(j) => parsed(vstd::utf8::encode_utf8(s@)) == Some(j@),
            None => parsed(vstd::utf8::encode_utf8(s@)) is None,
        },
{
    let b = s.as_bytes();
    match read_value(b, 0) {
        Some((j, q)) => {
            let e: usize = after_ws(b, q);
            if e == b.len() {
                Some(j)
            } else {
                None
            }
        },
        None => None,
    }
}

} // verus!
