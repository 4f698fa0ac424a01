//! What is written as JSON is read back.

use crate::json::{
    byte_at, digit_at, entries_text, escaped, escaped_all, fields_at, four_digits, has_code, is_ws,
    items_at, items_text, json_text, key_text, num_parts, number_from, parsed, plain_text,
    skip_digits, skip_ws, string_from, string_text, unicode_char, unicode_code, value_at, with_comma,
    word_at, word_false, word_null, word_true, JsonView,
};
use crate::strings::{all_digits, digits_of, digits_value, is_digit, parsed_int};
use crate::text::{dec, dec_nat};
use crate::value::{ObjView, ValueView};
use vstd::prelude::*;
use vstd::utf8::is_ascii_chars;

verus! {

/// What a value is in JSON.
pub open spec fn json_tree(
    h: Seq<ObjView>,
    m: Map<u64, Seq<char>>,
    v: ValueView,
    depth: nat,
) -> JsonView
    decreases depth,
{
    match v {
        ValueView::Int(n) => JsonView::Int(n),
        ValueView::Float(b) => JsonView::Float(m[b]),
        ValueView::Bool(b) => JsonView::Bool(b),
        ValueView::Str(s) => JsonView::Str(s),
        ValueView::List(a) | ValueView::Dict(a) => if depth == 0 || a >= h.len() {
            JsonView::Nil
        } else {
            match h[a as int] {
                ObjView::List(s) => JsonView::List(
                    Seq::new(s.len(), |i: int| json_tree(h, m, s[i], (depth - 1) as nat)),
                ),
                ObjView::Dict(s) => JsonView::Obj(
                    Seq::new(
                        s.len(),
                        |i: int|
                            (
                                key_text(m, s[i].0)->Text_0,
                                json_tree(h, m, s[i].1, (depth - 1) as nat),
                            ),
                    ),
                ),
                _ => JsonView::Nil,
            }
        },
        _ => JsonView::Nil,
    }
}

/// Whether a text is a sign or none, digits, a point at `k`, and digits.
pub open spec fn point_at(t: Seq<char>, k: int) -> bool {
    let s: int = if t.len() > 0 && t[0] == '-' {
        1
    } else {
        0
    };
    &&& s < k < t.len() - 1
    &&& t[k] == '.'
    &&& forall|i: int| s <= i < t.len() && i != k ==> is_digit(#[trigger] t[i])
}

pub open spec fn decimal_text(t: Seq<char>) -> bool {
    exists|k: int| point_at(t, k)
}

/// Whether the strings in a value are of ASCII characters, and the floats have the text of
/// a decimal number. (Others have none in JSON.)
pub open spec fn readable(
    h: Seq<ObjView>,
    m: Map<u64, Seq<char>>,
    v: ValueView,
    depth: nat,
) -> bool
    decreases depth, 0nat,
{
    match v {
        ValueView::Float(b) => decimal_text(m[b]),
        ValueView::Str(s) => is_ascii_chars(s),
        ValueView::List(a) | ValueView::Dict(a) => if depth == 0 || a >= h.len() {
            true
        } else {
            match h[a as int] {
                ObjView::List(s) => readable_items(h, m, s, (depth - 1) as nat),
                ObjView::Dict(s) => readable_entries(h, m, s, (depth - 1) as nat),
                _ => true,
            }
        },
        _ => true,
    }
}

pub open spec fn readable_items(
    h: Seq<ObjView>,
    m: Map<u64, Seq<char>>,
    s: Seq<ValueView>,
    depth: nat,
) -> bool
    decreases depth, 1nat,
{
    forall|i: int| 0 <= i < s.len() ==> readable(h, m, #[trigger] s[i], depth)
}

pub open spec fn readable_entries(
    h: Seq<ObjView>,
    m: Map<u64, Seq<char>>,
    s: Seq<(ValueView, ValueView)>,
    depth: nat,
) -> bool
    decreases depth, 1nat,
{
    forall|i: int|
        0 <= i < s.len() ==> is_ascii_chars(key_text(m, (#[trigger] s[i]).0)->Text_0) && readable(
            h,
            m,
            s[i].1,
            depth,
        )
}

/// Whether the bytes from `p` on start with those of a text.
pub open spec fn stands_at(b: Seq<u8>, p: int, t: Seq<char>) -> bool {
    &&& 0 <= p
    &&& p + t.len() <= b.len()
    &&& forall|i: int| 0 <= i < t.len() ==> b[p + i] == (#[trigger] t[i]) as u8
}

/// Whether a value may end before `q`: there the bytes end, or a list or an object goes on
/// or ends.
pub open spec fn closes(b: Seq<u8>, q: int) -> bool {
    q == b.len() || byte_at(b, q, 0x2c) || byte_at(b, q, 0x5d) || byte_at(b, q, 0x7d)
}

proof fn part_stands(b: Seq<u8>, p: int, t: Seq<char>, k: int, u: Seq<char>)
    requires
        stands_at(b, p, t),
        0 <= k,
        k + u.len() <= t.len(),
        t.subrange(k, k + u.len()) == u,
    ensures
        stands_at(b, p + k, u),
{
    assert forall|i: int| 0 <= i < u.len() implies b[p + k + i] == (#[trigger] u[i]) as u8 by {
        assert(u[i] == t[k + i]);
        assert(b[p + (k + i)] == t[k + i] as u8);
    }
}

/// The first characters of a string come first in its text.
proof fn escaped_prefix(s: Seq<char>, k: int)
    requires
        0 <= k <= s.len(),
    ensures
        escaped_all(s.take(k)).len() <= escaped_all(s).len(),
        escaped_all(s).take(escaped_all(s.take(k)).len() as int) == escaped_all(s.take(k)),
    decreases s.len(),
{
    if k == s.len() {
        assert(s.take(k) =~= s);
        assert(escaped_all(s).take(escaped_all(s).len() as int) =~= escaped_all(s));
    } else {
        let d = s.drop_last();
        escaped_prefix(d, k);
        assert(d.take(k) =~= s.take(k));
        assert(escaped_all(s).take(escaped_all(d.take(k)).len() as int) =~= escaped_all(d).take(
            escaped_all(d.take(k)).len() as int
        ));
    }
}

/// A character that was written is read back.
proof fn escape_read_back(b: Seq<u8>, p: int, c: char, acc: Seq<char>)
    requires
        (c as int) < 0x80,
        0 <= c as int,
        0 <= p,
        p + escaped(c).len() <= b.len(),
        forall|i: int| 0 <= i < escaped(c).len() ==> b[p + i] == (#[trigger] escaped(c)[i]) as u8,
    ensures
        string_from(b, p, acc) == string_from(b, p + escaped(c).len(), acc.push(c)),
{
    let e = escaped(c);
    assert(b[p] == e[0] as u8);
    if e.len() > 1 {
        assert(b[p + 1] == e[1] as u8);
    }
    if e.len() == 6 {
        assert(b[p + 2] == e[2] as u8 && b[p + 3] == e[3] as u8 && b[p + 4] == e[4] as u8 && b[p + 5]
            == e[5] as u8);
        let n = c as int;
        assert(four_digits(b, p + 2) == Some(n));
        assert(has_code(c, unicode_code(n)));
        assert(unicode_char(n) == c);
    }
}

proof fn string_goes_on(s: Seq<char>, b: Seq<u8>, p: int, k: int)
    requires
        is_ascii_chars(s),
        0 <= k <= s.len(),
        stands_at(b, p, string_text(s)),
    ensures
        string_from(b, p + 1, Seq::empty()) == string_from(
            b,
            p + 1 + escaped_all(s.take(k)).len() as int,
            s.take(k),
        ),
    decreases k,
{
    if k == 0 {
        assert(s.take(0) =~= Seq::empty());
    } else {
        string_goes_on(s, b, p, k - 1);
        let c = s[k - 1];
        let before = escaped_all(s.take(k - 1));
        assert(s.take(k).drop_last() =~= s.take(k - 1));
        assert(escaped_all(s.take(k)) == before + escaped(c));
        escaped_prefix(s, k);
        let q = p + 1 + before.len();
        let all = escaped_all(s);
        assert forall|i: int| 0 <= i < escaped(c).len() implies b[q + i] == (#[trigger] escaped(
            c,
        )[i]) as u8 by {
            assert(all.take(escaped_all(s.take(k)).len() as int)[before.len() + i] == (before
                + escaped(c))[before.len() + i]);
            assert(string_text(s)[1 + before.len() + i] == all[before.len() + i]);
            assert(b[p + (1 + before.len() + i)] == string_text(s)[1 + before.len() + i] as u8);
        }
        vstd::utf8::is_ascii_chars_nat_bound(s);
        escape_read_back(b, q as int, c, s.take(k - 1));
        assert(s.take(k - 1).push(c) =~= s.take(k));
    }
}

proof fn string_read_back(s: Seq<char>, b: Seq<u8>, p: int)
    requires
        is_ascii_chars(s),
        stands_at(b, p, string_text(s)),
    ensures
        b[p] == 0x22,
        string_from(b, p + 1, Seq::empty()) == Some((s, p + string_text(s).len())),
{
    let t = string_text(s);
    string_goes_on(s, b, p, s.len() as int);
    assert(s.take(s.len() as int) =~= s);
    let e = 1 + escaped_all(s).len() as int;
    assert(t[0] == '"' && t[e] == '"');
    assert(b[p + 0] == t[0] as u8);
    assert(b[p + e] == t[e] as u8);
}

proof fn escaped_is_ascii(s: Seq<char>)
    requires
        vstd::utf8::is_ascii_chars(s),
    ensures
        vstd::utf8::is_ascii_chars(escaped_all(s)),
    decreases s.len(),
{
    if s.len() > 0 {
        escaped_is_ascii(s.drop_last());
    }
}

proof fn string_is_ascii(s: Seq<char>)
    requires
        is_ascii_chars(s),
    ensures
        is_ascii_chars(string_text(s)),
{
    escaped_is_ascii(s);
}

proof fn digits_run(b: Seq<u8>, p: int, q: int)
    requires
        0 <= p <= q <= b.len(),
        forall|i: int| p <= i < q ==> #[trigger] digit_at(b, i),
        !digit_at(b, q),
    ensures
        skip_digits(b, p) == q,
    decreases q - p,
{
    if p < q {
        assert(digit_at(b, p));
        digits_run(b, p + 1, q);
    }
}

proof fn numeral(n: nat)
    ensures
        dec_nat(n).len() > 0,
        all_digits(dec_nat(n)),
        digits_value(dec_nat(n)) == n,
    decreases n,
{
    let t = dec_nat(n);
    if n < 10 {
        assert(t.drop_last() =~= Seq::empty());
        assert(digits_value(t.drop_last()) == 0);
    } else {
        numeral(n / 10);
        assert(t.drop_last() =~= dec_nat(n / 10));
    }
}

/// An integer that was written is read back.
pub proof fn integer_round_trip(n: i64)
    ensures
        parsed_int(dec(n as int)) == Some(n as int),
{
    let t = dec(n as int);
    if n < 0 {
        numeral((-(n as int)) as nat);
        assert(t.skip(1) =~= dec_nat((-(n as int)) as nat));
    } else {
        numeral(n as nat);
        assert(is_digit(t[0]));
    }
}

proof fn text_of_bytes(b: Seq<u8>, p: int, t: Seq<char>)
    requires
        stands_at(b, p, t),
        is_ascii_chars(t),
    ensures
        plain_text(b.subrange(p, p + t.len())) == t,
{
    assert forall|i: int| 0 <= i < t.len() implies plain_text(b.subrange(p, p + t.len()))[i]
        == t[i] by {
        assert(b[p + i] == t[i] as u8);
    }
    assert(plain_text(b.subrange(p, p + t.len())) =~= t);
}

proof fn integer_is_ascii(n: i64)
    ensures
        is_ascii_chars(dec(n as int)),
        dec(n as int).len() > 0,
{
    let d = if n < 0 {
        (-(n as int)) as nat
    } else {
        n as nat
    };
    numeral(d);
    let t = dec(n as int);
    let u = dec_nat(d);
    assert forall|i: int| 0 <= i < t.len() implies '\0' <= #[trigger] t[i] <= '\u{7f}' by {
        if n >= 0 {
            assert(is_digit(u[i]));
        } else if i > 0 {
            assert(is_digit(u[i - 1]));
            assert(t[i] == u[i - 1]);
        }
    }
}

proof fn integer_read_back(n: i64, b: Seq<u8>, p: int)
    requires
        stands_at(b, p, dec(n as int)),
        closes(b, p + dec(n as int).len()),
    ensures
        b[p] == 0x2d || digit_at(b, p),
        number_from(b, p) == Some((JsonView::Int(n), p + dec(n as int).len())),
{
    let t = dec(n as int);
    let e = p + t.len();
    integer_is_ascii(n);
    integer_round_trip(n);
    text_of_bytes(b, p, t);
    let k: int = if n < 0 {
        1
    } else {
        0
    };
    numeral(
        if n < 0 {
            (-(n as int)) as nat
        } else {
            n as nat
        },
    );
    assert(b[p + 0] == t[0] as u8);
    assert forall|i: int| p + k <= i < e implies #[trigger] digit_at(b, i) by {
        assert(b[p + (i - p)] == t[i - p] as u8);
        assert(is_digit(digits_of(t)[i - p - k]));
    }
    digits_run(b, p + k, e);
    assert(digit_at(b, p + k));
    assert(num_parts(b, p).end == e);
}

proof fn float_read_back(t: Seq<char>, b: Seq<u8>, p: int)
    requires
        decimal_text(t),
        stands_at(b, p, t),
        closes(b, p + t.len()),
    ensures
        b[p] == 0x2d || digit_at(b, p),
        number_from(b, p) == Some((JsonView::Float(t), p + t.len())),
{
    let k = choose|k: int| point_at(t, k);
    let e = p + t.len();
    let s: int = if t[0] == '-' {
        1
    } else {
        0
    };
    decimal_is_ascii(t);
    text_of_bytes(b, p, t);
    assert(b[p + 0] == t[0] as u8);
    assert(b[p + k] == t[k] as u8);
    assert forall|i: int| p + s <= i < p + k implies #[trigger] digit_at(b, i) by {
        assert(b[p + (i - p)] == t[i - p] as u8);
        assert(is_digit(t[i - p]));
    }
    assert forall|i: int| p + k + 1 <= i < e implies #[trigger] digit_at(b, i) by {
        assert(b[p + (i - p)] == t[i - p] as u8);
        assert(is_digit(t[i - p]));
    }
    digits_run(b, p + s, p + k);
    digits_run(b, p + k + 1, e);
    assert(digit_at(b, p + s));
    assert(num_parts(b, p).end == e);
}

proof fn decimal_is_ascii(t: Seq<char>)
    requires
        decimal_text(t),
    ensures
        is_ascii_chars(t),
        t.len() > 0,
{
    let k = choose|k: int| point_at(t, k);
    assert forall|i: int| 0 <= i < t.len() implies '\0' <= #[trigger] t[i] <= '\u{7f}' by {
        if i != k && !(i == 0 && t[0] == '-') {
            assert(is_digit(t[i]));
        }
    }
}

proof fn words()
    ensures
        "true"@ =~= seq!['t', 'r', 'u', 'e'],
        "false"@ =~= seq!['f', 'a', 'l', 's', 'e'],
        "null"@ =~= seq!['n', 'u', 'l', 'l'],
        ","@ =~= seq![','],
        ":"@ =~= seq![':'],
        "["@ =~= seq!['['],
        "]"@ =~= seq![']'],
        "{"@ =~= seq!['{'],
        "}"@ =~= seq!['}'],
{
    reveal_strlit("true");
    reveal_strlit("false");
    reveal_strlit("null");
    reveal_strlit(",");
    reveal_strlit(":");
    reveal_strlit("[");
    reveal_strlit("]");
    reveal_strlit("{");
    reveal_strlit("}");
}

proof fn text_is_ascii(h: Seq<ObjView>, m: Map<u64, Seq<char>>, v: ValueView, depth: nat)
    requires
        json_text(h, m, v, depth) is Text,
        readable(h, m, v, depth),
    ensures
        is_ascii_chars(json_text(h, m, v, depth)->Text_0),
    decreases depth, 0nat, 0nat,
{
    words();
    match v {
        ValueView::Int(n) => integer_is_ascii(n),
        ValueView::Float(b) => decimal_is_ascii(m[b]),
        ValueView::Str(s) => string_is_ascii(s),
        ValueView::List(a) | ValueView::Dict(a) => match h[a as int] {
            ObjView::List(s) => items_are_ascii(h, m, s, s.len(), (depth - 1) as nat),
            ObjView::Dict(s) => entries_are_ascii(h, m, s, s.len(), (depth - 1) as nat),
            _ => {},
        },
        _ => {},
    }
}

proof fn items_are_ascii(
    h: Seq<ObjView>,
    m: Map<u64, Seq<char>>,
    s: Seq<ValueView>,
    k: nat,
    depth: nat,
)
    requires
        k <= s.len(),
        items_text(h, m, s, k, depth) is Text,
        readable_items(h, m, s, depth),
    ensures
        is_ascii_chars(items_text(h, m, s, k, depth)->Text_0),
    decreases depth, 1nat, k,
{
    words();
    if k > 0 {
        items_are_ascii(h, m, s, (k - 1) as nat, depth);
        text_is_ascii(h, m, s[k - 1], depth);
    }
}

proof fn entries_are_ascii(
    h: Seq<ObjView>,
    m: Map<u64, Seq<char>>,
    s: Seq<(ValueView, ValueView)>,
    k: nat,
    depth: nat,
)
    requires
        k <= s.len(),
        entries_text(h, m, s, k, depth) is Text,
        readable_entries(h, m, s, depth),
    ensures
        is_ascii_chars(entries_text(h, m, s, k, depth)->Text_0),
    decreases depth, 1nat, k,
{
    words();
    if k > 0 {
        entries_are_ascii(h, m, s, (k - 1) as nat, depth);
        let e = s[k - 1];
        text_is_ascii(h, m, e.1, depth);
        string_is_ascii(key_text(m, e.0)->Text_0);
    }
}

/// The text of the first `k` items starts that of the first `n`, and a comma follows it.
proof fn items_prefix(
    h: Seq<ObjView>,
    m: Map<u64, Seq<char>>,
    s: Seq<ValueView>,
    k: nat,
    n: nat,
    depth: nat,
)
    requires
        k <= n <= s.len(),
        items_text(h, m, s, n, depth) is Text,
    ensures
        items_text(h, m, s, k, depth) is Text,
        ({
            let t = items_text(h, m, s, n, depth)->Text_0;
            let u = items_text(h, m, s, k, depth)->Text_0;
            &&& u.len() <= t.len()
            &&& t.take(u.len() as int) == u
            &&& 0 < k < n ==> u.len() < t.len() && t[u.len() as int] == ','
        }),
    decreases n,
{
    words();
    let t = items_text(h, m, s, n, depth)->Text_0;
    if k == n {
        assert(t.take(t.len() as int) =~= t);
    } else {
        items_prefix(h, m, s, k, (n - 1) as nat, depth);
        let t1 = items_text(h, m, s, (n - 1) as nat, depth)->Text_0;
        let u = items_text(h, m, s, k, depth)->Text_0;
        if n == 1 {
            assert(t.take(0) =~= u);
        } else {
            assert(t.take(u.len() as int) =~= t1.take(u.len() as int));
            if k < n - 1 && k > 0 {
                assert(t[u.len() as int] == t1[u.len() as int]);
            }
        }
    }
}

/// Where the text of the `k`-th item starts.
spec fn item_start(
    h: Seq<ObjView>,
    m: Map<u64, Seq<char>>,
    s: Seq<ValueView>,
    k: nat,
    depth: nat,
) -> int {
    if k == 0 {
        0
    } else {
        items_text(h, m, s, k, depth)->Text_0.len() as int + 1
    }
}

/// One item of a list is read back.
proof fn item_read_back(
    h: Seq<ObjView>,
    m: Map<u64, Seq<char>>,
    s: Seq<ValueView>,
    k: nat,
    depth: nat,
    b: Seq<u8>,
    p: int,
)
    requires
        k < s.len(),
        items_text(h, m, s, s.len(), depth) is Text,
        readable_items(h, m, s, depth),
        stands_at(b, p, items_text(h, m, s, s.len(), depth)->Text_0),
        byte_at(b, p + items_text(h, m, s, s.len(), depth)->Text_0.len(), 0x5d),
    ensures
        items_text(h, m, s, k + 1, depth) is Text,
        ({
            let q = p + item_start(h, m, s, k, depth);
            let e = p + items_text(h, m, s, k + 1, depth)->Text_0.len();
            &&& p <= q < e
            &&& e < b.len()
            &&& b[e] == if k + 1 < s.len() {
                0x2c
            } else {
                0x5du8
            }
            &&& value_at(b, q) == Some((json_tree(h, m, s[k as int], depth), e))
            &&& !is_ws(b[q])
            &&& b[q] != 0x5d
        }),
    decreases depth, 1nat, 0nat,
{
    words();
    let n = s.len();
    let t = items_text(h, m, s, n, depth)->Text_0;
    items_prefix(h, m, s, k, n, depth);
    items_prefix(h, m, s, k + 1, n, depth);
    let u = items_text(h, m, s, k, depth)->Text_0;
    let w = items_text(h, m, s, k + 1, depth)->Text_0;
    let x = json_text(h, m, s[k as int], depth)->Text_0;
    let at = item_start(h, m, s, k, depth);
    assert(w == with_comma(u, k == 0, x));
    assert(w.len() == at + x.len());
    assert(t.subrange(at, at + x.len()) =~= x) by {
        assert(t.subrange(at, at + x.len()) =~= t.take(w.len() as int).subrange(at, at + x.len()));
        assert(w.subrange(at, at + x.len()) =~= x);
    }
    part_stands(b, p, t, at, x);
    if k + 1 < n {
        assert(b[p + w.len()] == t[w.len() as int] as u8);
    }
    value_read_back(h, m, s[k as int], depth, b, p + at);
}

/// The items before the `k`-th are read back.
proof fn items_read_back(
    h: Seq<ObjView>,
    m: Map<u64, Seq<char>>,
    s: Seq<ValueView>,
    k: nat,
    depth: nat,
    b: Seq<u8>,
    p: int,
)
    requires
        k < s.len(),
        items_text(h, m, s, s.len(), depth) is Text,
        readable_items(h, m, s, depth),
        stands_at(b, p, items_text(h, m, s, s.len(), depth)->Text_0),
        byte_at(b, p + items_text(h, m, s, s.len(), depth)->Text_0.len(), 0x5d),
    ensures
        items_at(b, p, Seq::empty()) == items_at(
            b,
            p + item_start(h, m, s, k, depth),
            Seq::new(k, |i: int| json_tree(h, m, s[i], depth)),
        ),
    decreases depth, 2nat, k,
{
    let now = Seq::new(k, |i: int| json_tree(h, m, s[i], depth));
    if k == 0 {
        assert(now =~= Seq::empty());
    } else {
        let j = (k - 1) as nat;
        let before = Seq::new(j, |i: int| json_tree(h, m, s[i], depth));
        items_read_back(h, m, s, j, depth, b, p);
        item_read_back(h, m, s, j, depth, b, p);
        let e = p + items_text(h, m, s, k, depth)->Text_0.len();
        assert(skip_ws(b, e) == e);
        assert(now =~= before.push(json_tree(h, m, s[j as int], depth)));
    }
}

proof fn entries_prefix(
    h: Seq<ObjView>,
    m: Map<u64, Seq<char>>,
    s: Seq<(ValueView, ValueView)>,
    k: nat,
    n: nat,
    depth: nat,
)
    requires
        k <= n <= s.len(),
        entries_text(h, m, s, n, depth) is Text,
    ensures
        entries_text(h, m, s, k, depth) is Text,
        ({
            let t = entries_text(h, m, s, n, depth)->Text_0;
            let u = entries_text(h, m, s, k, depth)->Text_0;
            &&& u.len() <= t.len()
            &&& t.take(u.len() as int) == u
            &&& 0 < k < n ==> u.len() < t.len() && t[u.len() as int] == ','
        }),
    decreases n,
{
    words();
    let t = entries_text(h, m, s, n, depth)->Text_0;
    if k == n {
        assert(t.take(t.len() as int) =~= t);
    } else {
        entries_prefix(h, m, s, k, (n - 1) as nat, depth);
        let t1 = entries_text(h, m, s, (n - 1) as nat, depth)->Text_0;
        let u = entries_text(h, m, s, k, depth)->Text_0;
        if n == 1 {
            assert(t.take(0) =~= u);
        } else {
            assert(t.take(u.len() as int) =~= t1.take(u.len() as int));
            if k < n - 1 && k > 0 {
                assert(t[u.len() as int] == t1[u.len() as int]);
            }
        }
    }
}

/// Where the text of the `k`-th entry starts.
spec fn entry_start(
    h: Seq<ObjView>,
    m: Map<u64, Seq<char>>,
    s: Seq<(ValueView, ValueView)>,
    k: nat,
    depth: nat,
) -> int {
    if k == 0 {
        0
    } else {
        entries_text(h, m, s, k, depth)->Text_0.len() as int + 1
    }
}

/// One entry of an object is read back: its key, a colon and its value.
proof fn entry_read_back(
    h: Seq<ObjView>,
    m: Map<u64, Seq<char>>,
    s: Seq<(ValueView, ValueView)>,
    k: nat,
    depth: nat,
    b: Seq<u8>,
    p: int,
)
    requires
        k < s.len(),
        entries_text(h, m, s, s.len(), depth) is Text,
        readable_entries(h, m, s, depth),
        stands_at(b, p, entries_text(h, m, s, s.len(), depth)->Text_0),
        byte_at(b, p + entries_text(h, m, s, s.len(), depth)->Text_0.len(), 0x7d),
    ensures
        entries_text(h, m, s, k + 1, depth) is Text,
        ({
            let q = p + entry_start(h, m, s, k, depth);
            let e = p + entries_text(h, m, s, k + 1, depth)->Text_0.len();
            let key = key_text(m, s[k as int].0)->Text_0;
            let c = q + string_text(key).len();
            &&& p <= q < c < e
            &&& e < b.len()
            &&& b[e] == if k + 1 < s.len() {
                0x2c
            } else {
                0x7du8
            }
            &&& b[q] == 0x22
            &&& string_from(b, q + 1, Seq::empty()) == Some((key, c))
            &&& b[c] == 0x3a
            &&& value_at(b, c + 1) == Some((json_tree(h, m, s[k as int].1, depth), e))
            &&& c + 1 < e
        }),
    decreases depth, 1nat, 0nat,
{
    words();
    let n = s.len();
    let t = entries_text(h, m, s, n, depth)->Text_0;
    entries_prefix(h, m, s, k, n, depth);
    entries_prefix(h, m, s, k + 1, n, depth);
    let u = entries_text(h, m, s, k, depth)->Text_0;
    let w = entries_text(h, m, s, k + 1, depth)->Text_0;
    let key = key_text(m, s[k as int].0)->Text_0;
    let a = string_text(key);
    let x = json_text(h, m, s[k as int].1, depth)->Text_0;
    let whole = a + ":"@ + x;
    let at = entry_start(h, m, s, k, depth);
    assert(w == with_comma(u, k == 0, whole));
    assert(w.len() == at + whole.len());
    assert(t.subrange(at, at + whole.len()) =~= whole) by {
        assert(t.subrange(at, at + whole.len()) =~= t.take(w.len() as int).subrange(
            at,
            at + whole.len(),
        ));
        assert(w.subrange(at, at + whole.len()) =~= whole);
    }
    part_stands(b, p, t, at, whole);
    let q = p + at;
    assert(whole.subrange(0, a.len() as int) =~= a);
    part_stands(b, q, whole, 0, a);
    string_read_back(key, b, q);
    let c = a.len() as int;
    assert(whole[c] == ':');
    assert(b[q + c] == whole[c] as u8);
    assert(whole.subrange(c + 1, c + 1 + x.len()) =~= x);
    part_stands(b, q, whole, c + 1, x);
    if k + 1 < n {
        assert(b[p + w.len()] == t[w.len() as int] as u8);
    }
    value_read_back(h, m, s[k as int].1, depth, b, q + (c + 1));
}

/// The entries before the `k`-th are read back.
proof fn entries_read_back(
    h: Seq<ObjView>,
    m: Map<u64, Seq<char>>,
    s: Seq<(ValueView, ValueView)>,
    k: nat,
    depth: nat,
    b: Seq<u8>,
    p: int,
)
    requires
        k < s.len(),
        entries_text(h, m, s, s.len(), depth) is Text,
        readable_entries(h, m, s, depth),
        stands_at(b, p, entries_text(h, m, s, s.len(), depth)->Text_0),
        byte_at(b, p + entries_text(h, m, s, s.len(), depth)->Text_0.len(), 0x7d),
    ensures
        fields_at(b, p, Seq::empty()) == fields_at(
            b,
            p + entry_start(h, m, s, k, depth),
            Seq::new(
                k,
                |i: int| (key_text(m, s[i].0)->Text_0, json_tree(h, m, s[i].1, depth)),
            ),
        ),
    decreases depth, 2nat, k,
{
    let now = Seq::new(
        k,
        |i: int| (key_text(m, s[i].0)->Text_0, json_tree(h, m, s[i].1, depth)),
    );
    if k == 0 {
        assert(now =~= Seq::empty());
    } else {
        let j = (k - 1) as nat;
        let before = Seq::new(
            j,
            |i: int| (key_text(m, s[i].0)->Text_0, json_tree(h, m, s[i].1, depth)),
        );
        entries_read_back(h, m, s, j, depth, b, p);
        entry_read_back(h, m, s, j, depth, b, p);
        let q = p + entry_start(h, m, s, j, depth);
        let c = q + string_text(key_text(m, s[j as int].0)->Text_0).len();
        let e = p + entries_text(h, m, s, k, depth)->Text_0.len();
        assert(skip_ws(b, q) == q);
        assert(skip_ws(b, c) == c);
        assert(skip_ws(b, e) == e);
        assert(now =~= before.push(
            (key_text(m, s[j as int].0)->Text_0, json_tree(h, m, s[j as int].1, depth)),
        ));
    }
}

proof fn list_read_back(
    h: Seq<ObjView>,
    m: Map<u64, Seq<char>>,
    s: Seq<ValueView>,
    depth: nat,
    b: Seq<u8>,
    p: int,
)
    requires
        items_text(h, m, s, s.len(), depth) is Text,
        readable_items(h, m, s, depth),
        stands_at(b, p, "["@ + items_text(h, m, s, s.len(), depth)->Text_0 + "]"@),
    ensures
        b[p] == 0x5b,
        value_at(b, p) == Some(
            (
                JsonView::List(Seq::new(s.len(), |i: int| json_tree(h, m, s[i], depth))),
                p + items_text(h, m, s, s.len(), depth)->Text_0.len() + 2,
            ),
        ),
    decreases depth, 3nat, 0nat,
{
    words();
    let u = items_text(h, m, s, s.len(), depth)->Text_0;
    let t = "["@ + u + "]"@;
    let e = 1 + u.len() as int;
    let all = Seq::new(s.len(), |i: int| json_tree(h, m, s[i], depth));
    assert(t[0] == '[' && t[e] == ']');
    assert(b[p + 0] == t[0] as u8 && b[p + e] == t[e] as u8);
    assert(t.subrange(1, e) =~= u);
    part_stands(b, p, t, 1, u);
    assert(skip_ws(b, p) == p);
    assert(skip_ws(b, p + e) == p + e);
    if s.len() == 0 {
        assert(all =~= Seq::empty());
    } else {
        let k = (s.len() - 1) as nat;
        items_read_back(h, m, s, k, depth, b, p + 1);
        item_read_back(h, m, s, k, depth, b, p + 1);
        item_read_back(h, m, s, 0, depth, b, p + 1);
        let before = Seq::new(k, |i: int| json_tree(h, m, s[i], depth));
        assert(skip_ws(b, p + 1) == p + 1);
        assert(all =~= before.push(json_tree(h, m, s[k as int], depth)));
    }
}

proof fn object_read_back(
    h: Seq<ObjView>,
    m: Map<u64, Seq<char>>,
    s: Seq<(ValueView, ValueView)>,
    depth: nat,
    b: Seq<u8>,
    p: int,
)
    requires
        entries_text(h, m, s, s.len(), depth) is Text,
        readable_entries(h, m, s, depth),
        stands_at(b, p, "{"@ + entries_text(h, m, s, s.len(), depth)->Text_0 + "}"@),
    ensures
        b[p] == 0x7b,
        value_at(b, p) == Some(
            (
                JsonView::Obj(
                    Seq::new(
                        s.len(),
                        |i: int| (key_text(m, s[i].0)->Text_0, json_tree(h, m, s[i].1, depth)),
                    ),
                ),
                p + entries_text(h, m, s, s.len(), depth)->Text_0.len() + 2,
            ),
        ),
    decreases depth, 3nat, 0nat,
{
    words();
    let u = entries_text(h, m, s, s.len(), depth)->Text_0;
    let t = "{"@ + u + "}"@;
    let e = 1 + u.len() as int;
    let all = Seq::new(
        s.len(),
        |i: int| (key_text(m, s[i].0)->Text_0, json_tree(h, m, s[i].1, depth)),
    );
    assert(t[0] == '{' && t[e] == '}');
    assert(b[p + 0] == t[0] as u8 && b[p + e] == t[e] as u8);
    assert(t.subrange(1, e) =~= u);
    part_stands(b, p, t, 1, u);
    assert(skip_ws(b, p) == p);
    assert(skip_ws(b, p + e) == p + e);
    if s.len() == 0 {
        assert(all =~= Seq::empty());
    } else {
        let k = (s.len() - 1) as nat;
        entries_read_back(h, m, s, k, depth, b, p + 1);
        entry_read_back(h, m, s, k, depth, b, p + 1);
        entry_read_back(h, m, s, 0, depth, b, p + 1);
        let key = key_text(m, s[k as int].0)->Text_0;
        let q = p + 1 + entry_start(h, m, s, k, depth);
        let c = q + string_text(key).len();
        let before = Seq::new(
            k,
            |i: int| (key_text(m, s[i].0)->Text_0, json_tree(h, m, s[i].1, depth)),
        );
        assert(skip_ws(b, p + 1) == p + 1);
        assert(skip_ws(b, q) == q);
        assert(skip_ws(b, c) == c);
        assert(all =~= before.push((key, json_tree(h, m, s[k as int].1, depth))));
    }
}

/// A value that was written is read back wherever its text stands.
proof fn value_read_back(
    h: Seq<ObjView>,
    m: Map<u64, Seq<char>>,
    v: ValueView,
    depth: nat,
    b: Seq<u8>,
    p: int,
)
    requires
        json_text(h, m, v, depth) is Text,
        readable(h, m, v, depth),
        stands_at(b, p, json_text(h, m, v, depth)->Text_0),
        closes(b, p + json_text(h, m, v, depth)->Text_0.len()),
    ensures
        json_text(h, m, v, depth)->Text_0.len() > 0,
        !is_ws(b[p]),
        b[p] != 0x5d,
        value_at(b, p) == Some(
            (json_tree(h, m, v, depth), p + json_text(h, m, v, depth)->Text_0.len()),
        ),
    decreases depth, 0nat, 0nat,
{
    words();
    let t = json_text(h, m, v, depth)->Text_0;
    match v {
        ValueView::Int(n) => {
            integer_is_ascii(n);
            integer_read_back(n, b, p);
        },
        ValueView::Float(x) => {
            decimal_is_ascii(m[x]);
            float_read_back(m[x], b, p);
        },
        ValueView::Bool(x) => word_read_back(t, b, p),
        ValueView::Str(s) => string_read_back(s, b, p),
        ValueView::List(a) | ValueView::Dict(a) => match h[a as int] {
            ObjView::List(s) => {
                let d = (depth - 1) as nat;
                list_read_back(h, m, s, d, b, p);
                assert(json_tree(h, m, v, depth)->List_0 =~= Seq::new(
                    s.len(),
                    |i: int| json_tree(h, m, s[i], d),
                ));
            },
            ObjView::Dict(s) => {
                let d = (depth - 1) as nat;
                object_read_back(h, m, s, d, b, p);
                assert(json_tree(h, m, v, depth)->Obj_0 =~= Seq::new(
                    s.len(),
                    |i: int| (key_text(m, s[i].0)->Text_0, json_tree(h, m, s[i].1, d)),
                ));
            },
            _ => word_read_back(t, b, p),
        },
        _ => word_read_back(t, b, p),
    }
}

proof fn word_read_back(t: Seq<char>, b: Seq<u8>, p: int)
    requires
        t == "true"@ || t == "false"@ || t == "null"@,
        stands_at(b, p, t),
    ensures
        t.len() > 0,
        !is_ws(b[p]),
        b[p] != 0x5d,
        value_at(b, p) == Some(
            (
                if t == "null"@ {
                    JsonView::Nil
                } else {
                    JsonView::Bool(t == "true"@)
                },
                p + t.len(),
            ),
        ),
{
    words();
    assert(b[p + 0] == t[0] as u8);
    assert(b[p + 1] == t[1] as u8);
    assert(b[p + 2] == t[2] as u8);
    assert(b[p + 3] == t[3] as u8);
    assert(skip_ws(b, p) == p);
    let u = b.subrange(p, p + t.len());
    if t == "true"@ {
        assert(u =~= word_true());
    } else if t == "false"@ {
        assert(b[p + 4] == t[4] as u8);
        assert(u =~= word_false());
        assert("true"@[0] != t[0]);
    } else {
        assert(u =~= word_null());
        assert("true"@[0] != t[0]);
    }
    if word_at(b, p, word_true()) {
        assert(b.subrange(p, p + 4)[0] == 0x74);
    }
    if word_at(b, p, word_false()) {
        assert(b.subrange(p, p + 5)[0] == 0x66);
    }
}

/// A value that was written as JSON is read back: a list with its items, an object with
/// its entries, in their order. (Characters outside of ASCII are read byte by byte, so
/// that they are not read back.)
pub proof fn json_round_trip(
    h: Seq<ObjView>,
    m: Map<u64, Seq<char>>,
    v: ValueView,
    depth: nat,
)
    requires
        json_text(h, m, v, depth) is Text,
        readable(h, m, v, depth),
    ensures
        parsed(vstd::utf8::encode_utf8(json_text(h, m, v, depth)->Text_0)) == Some(
            json_tree(h, m, v, depth),
        ),
{
    let t = json_text(h, m, v, depth)->Text_0;
    text_is_ascii(h, m, v, depth);
    vstd::utf8::is_ascii_chars_encode_utf8(t);
    let b = vstd::utf8::encode_utf8(t);
    assert(stands_at(b, 0, t));
    value_read_back(h, m, v, depth, b, 0);
    assert(skip_ws(b, b.len() as int) == b.len());
}

} // verus!
