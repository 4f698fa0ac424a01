//! Laws of the built-in functions and methods of the interpreter: how the results of several
//! calls relate.

use crate::algebra::{in_range, same_low, wrapped};
use crate::ast::wrap48_spec;
use crate::calls::{builtin_call, list_method, method_now, text_method};
use crate::floatbits::{is_nan, place};
use crate::machops::{by_place, field_out, index_out, slice_out};
use crate::machstate::{field_at, field_put, Mach};
use crate::operate::{
    among_has_place, binop_spec, best_of, int_sum, number_bits, number_less, place_of, times_in,
    OutView,
};
use crate::strings::{
    blanks, first_at, first_at_is_first, is_blank, lstrip_spec, pieces, repeated, rstrip_spec,
};
use crate::text::{contains_text, stands_at, starts_with_spec};
use crate::value::{
    dict_at, distinct_keys, entry_at, entry_at_bounds, is_key, list_at, values_equal, ObjView,
    ValueView,
};
use crate::ast::{BinOp, FieldView};
use vstd::prelude::*;

verus! {

pub open spec fn give(v: ValueView) -> Option<OutView> {
    Some(OutView::Give(v))
}

pub open spec fn yes_no(b: bool) -> Option<OutView> {
    give(ValueView::Bool(b))
}

proof fn list_names()
    ensures
        "contains"@ != "index"@,
        "contains"@ != "count"@,
        "contains"@ != "join"@,
        "index"@ != "count"@,
        "index"@ != "join"@,
        "count"@ != "join"@,
{
    reveal_strlit("contains");
    reveal_strlit("count");
    reveal_strlit("index");
    reveal_strlit("join");
    assert("contains"@.len() == 8);
    assert("count"@.len() == 5);
    assert("index"@.len() == 5);
    assert("join"@.len() == 4);
    assert("index"@[0] != "count"@[0]);
}

proof fn times_some(s: Seq<ValueView>, x: ValueView)
    ensures
        times_in(s, x) > 0 <==> exists|i: int| 0 <= i < s.len() && values_equal(#[trigger] s[i], x),
        times_in(s, x) <= s.len(),
    decreases s.len(),
{
    if s.len() > 0 {
        let p = s.drop_last();
        times_some(p, x);
        if times_in(p, x) > 0 {
            let i = choose|i: int| 0 <= i < p.len() && values_equal(#[trigger] p[i], x);
            assert(values_equal(s[i], x));
        }
        if exists|i: int| 0 <= i < s.len() && values_equal(#[trigger] s[i], x) {
            let i = choose|i: int| 0 <= i < s.len() && values_equal(#[trigger] s[i], x);
            if i < p.len() {
                assert(values_equal(p[i], x));
            }
        }
    }
}

proof fn place_first(s: Seq<ValueView>, x: ValueView, i: int)
    requires
        0 <= i,
    ensures
        place_of(s, x, i) matches Some(k) ==> i <= k < s.len() && values_equal(s[k], x) && forall|
            j: int,
        |
            i <= j < k ==> !values_equal(#[trigger] s[j], x),
    decreases s.len() - i,
{
    if i < s.len() && !values_equal(s[i], x) {
        place_first(s, x, i + 1);
    }
}

/// `contains`, `index` and `count` agree: a list contains a value just where it counts it at
/// least once, and just where it has an index of 0 or more; the index is that of the first
/// element that equals the value.
pub proof fn searches_agree(s: Seq<ValueView>, x: ValueView)
    requires
        s.len() <= i64::MAX,
    ensures
        list_method(s, "index"@, x) matches Some(OutView::Give(ValueView::Int(i))) && list_method(
            s,
            "count"@,
            x,
        ) matches Some(OutView::Give(ValueView::Int(n))) && {
            &&& list_method(s, "contains"@, x) == yes_no(n > 0)
            &&& n > 0 <==> i >= 0
            &&& 0 <= n <= s.len()
            &&& i < 0 ==> i == -1
            &&& i >= 0 ==> i < s.len() && values_equal(s[i as int], x) && forall|j: int|
                0 <= j < i ==> !values_equal(#[trigger] s[j], x)
        },
{
    list_names();
    times_some(s, x);
    among_has_place(s, x, 0);
    place_first(s, x, 0);
}

/// Counting in a list that has grown by one value counts that value too.
pub proof fn count_grows(s: Seq<ValueView>, v: ValueView, x: ValueView)
    ensures
        times_in(s.push(v), x) == times_in(s, x) + (if values_equal(v, x) {
            1nat
        } else {
            0
        }),
{
    assert(s.push(v).drop_last() =~= s);
}

proof fn text_names()
    ensures
        "join"@ != "repeat"@,
        "repeat"@ != "starts_with"@,
        "repeat"@ != "ends_with"@,
        "repeat"@ != "contains"@,
        "repeat"@ != "split"@,
        "repeat"@ != "find"@,
        "join"@ != "starts_with"@,
        "join"@ != "ends_with"@,
        "join"@ != "contains"@,
        "join"@ != "split"@,
        "join"@ != "find"@,
        "starts_with"@ != "ends_with"@,
        "starts_with"@ != "contains"@,
        "starts_with"@ != "split"@,
        "starts_with"@ != "find"@,
        "ends_with"@ != "contains"@,
        "ends_with"@ != "split"@,
        "ends_with"@ != "find"@,
        "contains"@ != "split"@,
        "contains"@ != "find"@,
        "split"@ != "find"@,
{
    reveal_strlit("contains");
    reveal_strlit("ends_with");
    reveal_strlit("find");
    reveal_strlit("join");
    reveal_strlit("repeat");
    reveal_strlit("split");
    reveal_strlit("starts_with");
    assert("contains"@.len() == 8);
    assert("ends_with"@.len() == 9);
    assert("find"@.len() == 4);
    assert("join"@.len() == 4);
    assert("repeat"@.len() == 6);
    assert("split"@.len() == 5);
    assert("starts_with"@.len() == 11);
    assert("join"@[0] != "find"@[0]);
}

/// When a text starts with another, ends with it or contains it: when it is that other one
/// with something behind it, before it, or on both sides.
pub proof fn parts_of_texts(h: Seq<ObjView>, s: Seq<char>, p: Seq<char>)
    ensures
        text_method(h, s, "starts_with"@, ValueView::Str(p)) == yes_no(
            exists|w: Seq<char>| s =~= #[trigger] (p + w),
        ),
        text_method(h, s, "ends_with"@, ValueView::Str(p)) == yes_no(
            exists|u: Seq<char>| s =~= #[trigger] (u + p),
        ),
        text_method(h, s, "contains"@, ValueView::Str(p)) == Some(
            binop_spec(h, BinOp::In, ValueView::Str(p), ValueView::Str(s)),
        ),
{
    text_names();
    if starts_with_spec(s, p) {
        assert(s =~= p + s.skip(p.len() as int));
    }
    if exists|w: Seq<char>| s =~= #[trigger] (p + w) {
        let w = choose|w: Seq<char>| s =~= #[trigger] (p + w);
        assert(s.subrange(0, p.len() as int) =~= p);
    }
    if crate::strings::ends_with_spec(s, p) {
        assert(s =~= s.take(s.len() - p.len()) + p);
    }
    if exists|u: Seq<char>| s =~= #[trigger] (u + p) {
        let u = choose|u: Seq<char>| s =~= #[trigger] (u + p);
        assert(s.subrange(s.len() - p.len(), s.len() as int) =~= p);
    }
}

/// `find` says where a text first stands in another, in bytes; -1 where it does not.
pub proof fn find_finds(h: Seq<ObjView>, s: Seq<char>, p: Seq<char>)
    requires
        vstd::utf8::encode_utf8(s).len() <= i64::MAX,
        p.len() > 0,
    ensures
        first_at(s, p, 0) is None ==> !contains_text(s, p) && text_method(
            h,
            s,
            "find"@,
            ValueView::Str(p),
        ) == give(ValueView::Int(-1i64)),
        forall|k: int|
            #[trigger] stands_at(s, p, k) && (forall|j: int|
                0 <= j < k ==> !stands_at(s, p, j)) && vstd::utf8::encode_utf8(s.take(k)).len()
                <= i64::MAX ==> text_method(h, s, "find"@, ValueView::Str(p)) == give(
                ValueView::Int(vstd::utf8::encode_utf8(s.take(k)).len() as i64),
            ),
{
    text_names();
    first_at_is_first(s, p, 0);
    assert forall|k: int|
        #[trigger] stands_at(s, p, k) && (forall|j: int|
            0 <= j < k ==> !stands_at(s, p, j)) && vstd::utf8::encode_utf8(s.take(k)).len()
            <= i64::MAX implies text_method(h, s, "find"@, ValueView::Str(p)) == give(
        ValueView::Int(vstd::utf8::encode_utf8(s.take(k)).len() as i64),
    ) by {
        let f = first_at(s, p, 0);
        assert(f is Some);
        let i = f->Some_0;
        if i < k {
            assert(stands_at(s, p, i));
        } else if k < i {
            assert(stands_at(s, p, k));
        }
    }
}

/// Texts joined with a separator between them.
pub open spec fn glued(parts: Seq<Seq<char>>, sep: Seq<char>) -> Seq<char>
    decreases parts.len(),
{
    if parts.len() == 0 {
        Seq::empty()
    } else if parts.len() == 1 {
        parts[0]
    } else {
        parts[0] + sep + glued(parts.skip(1), sep)
    }
}

/// The pieces of a text from a place on, joined with the separator, are the rest of the
/// text.
pub proof fn split_joins(s: Seq<char>, sep: Seq<char>, from: int)
    requires
        0 <= from <= s.len(),
        sep.len() > 0,
    ensures
        pieces(s, sep, from).len() > 0,
        glued(pieces(s, sep, from), sep) == s.skip(from),
    decreases s.len() - from,
{
    first_at_is_first(s, sep, from);
    match first_at(s, sep, from) {
        Some(k) => {
            let next = k + sep.len();
            split_joins(s, sep, next);
            let rest = pieces(s, sep, next);
            let all = seq![s.subrange(from, k)] + rest;
            assert(all.skip(1) =~= rest);
            assert(s.subrange(k, next) =~= sep);
            assert(glued(all, sep) =~= s.subrange(from, k) + sep + s.skip(next));
            assert(s.skip(from) =~= s.subrange(from, k) + s.subrange(k, next) + s.skip(next));
        },
        None => {},
    }
}

/// Splitting gives texts that, joined again, are the text that was split.
pub proof fn split_undone(h: Seq<ObjView>, s: Seq<char>, sep: Seq<char>)
    requires
        sep.len() > 0,
    ensures
        text_method(h, s, "split"@, ValueView::Str(sep)) matches Some(OutView::List(vs)) && exists|
            parts: Seq<Seq<char>>,
        |
            {
                &&& #[trigger] glued(parts, sep) =~= s
                &&& parts.len() == vs.len()
                &&& forall|i: int| 0 <= i < vs.len() ==> #[trigger] vs[i] == ValueView::Str(parts[i])
            },
{
    text_names();
    split_joins(s, sep, 0);
    let parts = pieces(s, sep, 0);
    assert(s.skip(0) =~= s);
    assert(glued(parts, sep) =~= s);
}

/// A text repeated: not at all is empty, and once more adds it once more.
pub proof fn repeat_adds(h: Seq<ObjView>, s: Seq<char>, k: i64)
    requires
        0 <= k < i64::MAX,
    ensures
        text_method(h, s, "repeat"@, ValueView::Int(0)) == give(ValueView::Str(Seq::empty())),
        text_method(
            h,
            s,
            "repeat"@,
            ValueView::Int(k),
        ) matches Some(OutView::Give(ValueView::Str(r)))
            && text_method(h, s, "repeat"@, ValueView::Int((k + 1) as i64)) == give(
            ValueView::Str(r + s),
        ) && r.len() == k * s.len(),
{
    text_names();
    repeated_len(s, k as nat);
}

proof fn repeated_len(s: Seq<char>, n: nat)
    ensures
        repeated(s, n).len() == n * s.len(),
    decreases n,
{
    let k = s.len();
    if n > 0 {
        let m = (n - 1) as nat;
        repeated_len(s, m);
        assert(m * k + k == n * k) by (nonlinear_arith)
            requires
                m + 1 == n,
        ;
    } else {
        assert(n * k == 0) by (nonlinear_arith)
            requires
                n == 0,
        ;
    }
}

proof fn blanks_end(s: Seq<char>, i: int)
    requires
        0 <= i <= s.len(),
    ensures
        i <= blanks(s, i) <= s.len(),
        forall|j: int| i <= j < blanks(s, i) ==> is_blank(#[trigger] s[j]),
        blanks(s, i) < s.len() ==> !is_blank(s[blanks(s, i)]),
    decreases s.len() - i,
{
    if i < s.len() && is_blank(s[i]) {
        blanks_end(s, i + 1);
    }
}

proof fn rstrip_end(s: Seq<char>)
    ensures
        rstrip_spec(s).len() <= s.len(),
        rstrip_spec(s) == s.take(rstrip_spec(s).len() as int),
        forall|j: int| rstrip_spec(s).len() <= j < s.len() ==> is_blank(#[trigger] s[j]),
        rstrip_spec(s).len() > 0 ==> !is_blank(rstrip_spec(s).last()),
    decreases s.len(),
{
    if s.len() > 0 && is_blank(s.last()) {
        let p = s.drop_last();
        rstrip_end(p);
        let n = rstrip_spec(s).len() as int;
        assert(s.take(n) =~= p.take(n));
        assert forall|j: int| n <= j < s.len() implies is_blank(#[trigger] s[j]) by {
            if j < p.len() {
                assert(is_blank(p[j]));
            }
        }
    } else {
        assert(s.take(s.len() as int) =~= s);
    }
}

proof fn strip_names()
    ensures
        "len"@ != "lstrip"@,
        "len"@ != "rstrip"@,
        "len"@ != "trim"@,
        "upper"@ != "lstrip"@,
        "lower"@ != "lstrip"@,
        "trim"@ != "lstrip"@,
        "upper"@ != "rstrip"@,
        "lower"@ != "rstrip"@,
        "trim"@ != "rstrip"@,
        "lstrip"@ != "rstrip"@,
        "upper"@ != "trim"@,
        "lower"@ != "trim"@,
        "keys"@ != "values"@,
        "len"@ != "keys"@,
        "len"@ != "values"@,
{
    reveal_strlit("keys");
    reveal_strlit("len");
    reveal_strlit("lower");
    reveal_strlit("lstrip");
    reveal_strlit("rstrip");
    reveal_strlit("trim");
    reveal_strlit("upper");
    reveal_strlit("values");
    assert("keys"@.len() == 4);
    assert("len"@.len() == 3);
    assert("lower"@.len() == 5);
    assert("lstrip"@.len() == 6);
    assert("rstrip"@.len() == 6);
    assert("trim"@.len() == 4);
    assert("upper"@.len() == 5);
    assert("values"@.len() == 6);
    assert("lstrip"@[0] != "rstrip"@[0]);
}

/// `lstrip` takes off blanks at the start and no more: the text is blanks and then the result,
/// and the result does not start with a blank. `rstrip` does the same at the end.
pub proof fn strips_blanks(h: Seq<ObjView>, s: Seq<char>)
    ensures
        method_now(h, ValueView::Str(s), "lstrip"@) matches Some(OutView::Give(ValueView::Str(r)))
            && {
            &&& r.len() <= s.len()
            &&& s.skip(s.len() - r.len()) == r
            &&& forall|j: int| 0 <= j < s.len() - r.len() ==> is_blank(#[trigger] s[j])
            &&& r.len() > 0 ==> !is_blank(r[0])
        },
        method_now(h, ValueView::Str(s), "rstrip"@) matches Some(OutView::Give(ValueView::Str(r)))
            && {
            &&& r.len() <= s.len()
            &&& s.take(r.len() as int) == r
            &&& forall|j: int| r.len() <= j < s.len() ==> is_blank(#[trigger] s[j])
            &&& r.len() > 0 ==> !is_blank(r.last())
        },
        method_now(h, ValueView::Str(s), "trim"@) matches Some(
            OutView::Give(ValueView::Str(r)),
        ) && {
            &&& contains_text(s, r)
            &&& r.len() > 0 ==> !is_blank(r[0]) && !is_blank(r.last())
        },
{
    strip_names();
    blanks_end(s, 0);
    rstrip_end(s);
    let l = lstrip_spec(s);
    assert(s.skip(s.len() - l.len()) =~= l);
    rstrip_end(l);
    let r = rstrip_spec(l);
    let b = blanks(s, 0);
    assert(s.subrange(b, b + r.len()) =~= r) by {
        assert forall|i: int| 0 <= i < r.len() implies s.subrange(b, b + r.len())[i] == r[i] by {
            assert(r[i] == l.take(r.len() as int)[i]);
        }
    }
    assert(stands_at(s, r, b));
    if r.len() > 0 {
        assert(r[0] == l.take(r.len() as int)[0]);
    }
}

/// The keys and the values of a map stand in the same order: the value under the `i`-th key
/// is the `i`-th value.
pub proof fn keys_and_values(h: Seq<ObjView>, a: usize, i: int)
    requires
        dict_at(h, a) is Some,
        distinct_keys(dict_at(h, a)->0),
        0 <= i < dict_at(h, a)->0.len(),
        forall|j: int|
            0 <= j < dict_at(h, a)->0.len() ==> is_key(
                #[trigger] dict_at(h, a)->0[j],
                dict_at(h, a)->0[j].0,
            ),
    ensures
        method_now(h, ValueView::Dict(a), "keys"@) matches Some(OutView::List(ks)) && method_now(
            h,
            ValueView::Dict(a),
            "values"@,
        ) matches Some(OutView::List(vs)) && ks.len() == vs.len() && i < ks.len() && index_out(
            h,
            ValueView::Dict(a),
            ks[i],
        ) == OutView::Give(vs[i]),
{
    strip_names();
    let m = dict_at(h, a)->0;
    let k = m[i].0;
    entry_at_bounds(m, k, 0);
    entry_found(m, k, 0, i);
}

proof fn entry_found(m: Seq<(ValueView, ValueView)>, k: ValueView, j: int, i: int)
    requires
        0 <= j <= i < m.len(),
        distinct_keys(m),
        k == m[i].0,
        is_key(m[i], k),
    ensures
        entry_at(m, k, j) == Some(i),
    decreases i - j,
{
    if j < i {
        assert(!is_key(m[j], k)) by {
            assert(crate::value::key_of(m[j].0) != crate::value::key_of(m[i].0));
        }
        entry_found(m, k, j + 1, i);
    }
}

/// What was pushed is popped, and the list is then as it was.
pub proof fn pop_undoes_push(m: Mach, a: usize, v: ValueView)
    requires
        list_at(m.heap, a) is Some,
    ensures
        m.list_push(a, v).list_pop(a) == (m, Some(v)),
        list_at(m.list_push(a, v).heap, a) matches Some(s) && s.len() == list_at(m.heap, a)->0.len()
            + 1 && s.last() == v,
{
    reveal(Mach::list_push);
    reveal(Mach::list_pop);
    reveal(Mach::store);
    let s = list_at(m.heap, a)->0;
    assert(s.push(v).drop_last() =~= s);
    assert(m.heap.update(a as int, ObjView::List(s.push(v))).update(a as int, ObjView::List(s))
        =~= m.heap);
}

/// Reversing twice changes nothing, and reversing once puts the last element first.
pub proof fn reverse_twice(m: Mach, a: usize)
    requires
        list_at(m.heap, a) is Some,
    ensures
        m.list_reverse(a).list_reverse(a) == m,
        list_at(m.list_reverse(a).heap, a) matches Some(r) && r.len() == list_at(
            m.heap,
            a,
        )->0.len() && forall|i: int|
            0 <= i < r.len() ==> #[trigger] r[i] == list_at(m.heap, a)->0[r.len() - 1 - i],
{
    reveal(Mach::list_reverse);
    reveal(Mach::store);
    let s = list_at(m.heap, a)->0;
    assert(s.reverse().reverse() =~= s);
    assert(m.heap.update(a as int, ObjView::List(s.reverse())).update(a as int, ObjView::List(s))
        =~= m.heap);
}

/// An element reads as what was last assigned to it; the others stay.
pub proof fn element_after_assignment(m: Mach, a: usize, i: usize, j: i64, v: ValueView)
    requires
        list_at(m.heap, a) is Some,
        i < list_at(m.heap, a)->0.len(),
        i <= i64::MAX,
    ensures
        index_out(m.list_set(a, i, v).heap, ValueView::List(a), ValueView::Int(i as i64))
            == OutView::Give(v),
        j != i ==> index_out(m.list_set(a, i, v).heap, ValueView::List(a), ValueView::Int(j))
            == index_out(m.heap, ValueView::List(a), ValueView::Int(j)),
{
    reveal(Mach::list_set);
    reveal(Mach::store);
}

/// Inserting moves the elements from there on up by one.
pub proof fn insert_moves_up(m: Mach, a: usize, i: usize, v: ValueView)
    requires
        list_at(m.heap, a) is Some,
        i <= list_at(m.heap, a)->0.len(),
    ensures
        list_at(m.list_insert(a, i, v).heap, a) matches Some(r) && r.len() == list_at(
            m.heap,
            a,
        )->0.len() + 1 && r[i as int] == v && r.take(i as int) =~= list_at(m.heap, a)->0.take(
            i as int,
        ) && r.skip(i + 1) =~= list_at(m.heap, a)->0.skip(i as int),
{
    reveal(Mach::list_insert);
    reveal(Mach::store);
}

/// Indexing a list gives its elements, indexing a text its characters; outside it fails.
pub proof fn indexing_in_bounds(h: Seq<ObjView>, a: usize, s: Seq<char>, i: i64)
    requires
        list_at(h, a) is Some,
    ensures
        index_out(h, ValueView::List(a), ValueView::Int(i)) is Fail <==> !(0 <= i < list_at(
            h,
            a,
        )->0.len()),
        index_out(h, ValueView::Str(s), ValueView::Int(i)) is Fail <==> !(0 <= i < s.len()),
        0 <= i < s.len() ==> (index_out(h, ValueView::Str(s), ValueView::Int(i)) matches
            OutView::Give(ValueView::Str(c)) && c.len() == 1 && s == s.take(i as int) + c + s.skip(
            i + 1,
        )),
{
    if 0 <= i < s.len() {
        assert(s =~= s.take(i as int) + seq![s[i as int]] + s.skip(i + 1));
    }
}

/// A list is its slice up to a place and its slice from there on; a negative place counts
/// from the end.
pub proof fn slices_join(h: Seq<ObjView>, a: usize, k: i64)
    requires
        list_at(h, a) is Some,
        list_at(h, a)->0.len() <= i64::MAX,
        -(list_at(h, a)->0.len() as int) <= k <= list_at(h, a)->0.len(),
    ensures
        slice_out(h, ValueView::List(a), None, Some(k)) matches OutView::List(x) && slice_out(
            h,
            ValueView::List(a),
            Some(k),
            None,
        ) matches OutView::List(y) && {
            &&& x + y =~= list_at(h, a)->0
            &&& x.len() == (if k < 0 {
                list_at(h, a)->0.len() + k
            } else {
                k as int
            })
        },
        slice_out(h, ValueView::List(a), None, None) matches OutView::List(z) && z =~= list_at(
            h,
            a,
        )->0,
{
}

/// A slice holds the elements from its lower bound up to its upper bound, each one.
pub proof fn slice_elements(h: Seq<ObjView>, a: usize, lo: i64, hi: i64)
    requires
        list_at(h, a) is Some,
        0 <= lo <= hi <= list_at(h, a)->0.len(),
    ensures
        slice_out(h, ValueView::List(a), Some(lo), Some(hi)) matches OutView::List(x) && x.len()
            == hi - lo && forall|i: int|
            0 <= i < hi - lo ==> #[trigger] x[i] == list_at(h, a)->0[lo + i],
{
}

proof fn field_first(s: Seq<(Seq<char>, ValueView)>, n: Seq<char>, i: int)
    requires
        0 <= i,
    ensures
        match field_at(s, n, i) {
            Some(k) => i <= k < s.len() && s[k].0 == n && forall|j: int|
                i <= j < k ==> (#[trigger] s[j]).0 != n,
            None => forall|j: int| i <= j < s.len() ==> (#[trigger] s[j]).0 != n,
        },
    decreases s.len() - i,
{
    if i < s.len() && s[i].0 != n {
        field_first(s, n, i + 1);
    }
}

/// A field reads as what was last assigned to it, and the other fields stay.
pub proof fn field_after_assignment(m: Mach, a: usize, n: Seq<char>, v: ValueView, o: Seq<char>)
    requires
        a < m.heap.len(),
        m.heap[a as int] is Struct,
    ensures
        field_out(m.field_set(a, n, v).heap, ValueView::Struct(a), n) == OutView::Give(v),
        o != n ==> field_out(m.field_set(a, n, v).heap, ValueView::Struct(a), o) == field_out(
            m.heap,
            ValueView::Struct(a),
            o,
        ),
{
    reveal(Mach::field_set);
    reveal(Mach::store);
    match m.heap[a as int] {
        ObjView::Struct { name, fields } => {
            let p = field_put(fields, n, v);
            field_first(fields, n, 0);
            field_first(p, n, 0);
            field_first(fields, o, 0);
            field_first(p, o, 0);
            match (field_at(p, n, 0), field_at(fields, n, 0)) {
                (Some(i), Some(j)) => {
                    if i < j {
                        assert(p[i].0 == fields[i].0);
                    }
                    assert(p[j].0 == n);
                },
                (Some(i), None) => {
                    if i < fields.len() {
                        assert(p[i] == fields[i]);
                    }
                },
                (None, _) => {
                    match field_at(fields, n, 0) {
                        Some(j) => {
                            assert(p[j].0 == n);
                        },
                        None => {
                            assert(p[fields.len() as int].0 == n);
                        },
                    }
                },
            }
            if o != n {
                same_fields(fields, p, n, o);
            }
        },
        _ => {},
    }
}

proof fn same_fields(
    s: Seq<(Seq<char>, ValueView)>,
    p: Seq<(Seq<char>, ValueView)>,
    n: Seq<char>,
    o: Seq<char>,
)
    requires
        o != n,
        s.len() <= p.len() <= s.len() + 1,
        forall|i: int| 0 <= i < s.len() ==> (#[trigger] p[i]).0 == s[i].0,
        forall|i: int| 0 <= i < s.len() && s[i].0 != n ==> #[trigger] p[i] == s[i],
        p.len() > s.len() ==> p[s.len() as int].0 == n,
    ensures
        field_at(p, o, 0) == field_at(s, o, 0),
        field_at(s, o, 0) matches Some(k) ==> p[k] == s[k],
{
    field_first(s, o, 0);
    field_first(p, o, 0);
    match (field_at(p, o, 0), field_at(s, o, 0)) {
        (Some(i), Some(j)) => {
            if i < j {
                assert(p[i].0 == s[i].0);
            } else if j < i {
                assert(p[j].0 == s[j].0);
            }
        },
        (Some(i), None) => {
            if i < s.len() {
                assert(p[i].0 == s[i].0);
            }
        },
        (None, Some(j)) => {
            assert(p[j].0 == s[j].0);
        },
        _ => {},
    }
}

/// A struct made of values in the order of its fields has them under the fields' names; a
/// field without a value is `nil`.
pub proof fn fields_in_order(fs: Seq<FieldView>, vs: Seq<ValueView>, i: int)
    requires
        0 <= i < fs.len(),
        forall|j: int, k: int|
            0 <= j < k < fs.len() ==> (#[trigger] fs[j]).name != (#[trigger] fs[k]).name,
    ensures
        field_at(by_place(fs, vs), fs[i].name, 0) == Some(i),
        by_place(fs, vs)[i].1 == (if i < vs.len() {
            vs[i]
        } else {
            ValueView::Nil
        }),
{
    let s = by_place(fs, vs);
    field_first(s, fs[i].name, 0);
    match field_at(s, fs[i].name, 0) {
        Some(k) => {
            assert(s[k].0 == fs[k].name);
            if k < i {
                assert(fs[k].name != fs[i].name);
            } else if i < k {
                assert(s[i].0 == fs[i].name);
            }
        },
        None => {
            assert(s[i].0 == fs[i].name);
        },
    }
}

/// The least element is in the list and none is less; the greatest likewise.
pub proof fn best_is_best(nums: Map<i64, u64>, s: Seq<ValueView>, least: bool)
    requires
        s.len() > 0,
        forall|i: int|
            0 <= i < s.len() ==> (number_bits(nums, #[trigger] s[i]) matches Some(b) && !is_nan(b)),
    ensures
        exists|i: int| 0 <= i < s.len() && best_of(nums, s, least) == #[trigger] s[i],
        forall|i: int|
            0 <= i < s.len() ==> !(if least {
                number_less(nums, #[trigger] s[i], best_of(nums, s, least))
            } else {
                number_less(nums, best_of(nums, s, least), s[i])
            }),
    decreases s.len(),
{
    if s.len() > 1 {
        let p = s.drop_last();
        assert forall|i: int| 0 <= i < p.len() implies (number_bits(nums, #[trigger] p[i]) matches
            Some(b) && !is_nan(b)) by {
            assert(p[i] == s[i]);
        }
        best_is_best(nums, p, least);
        let b = best_of(nums, p, least);
        let r = best_of(nums, s, least);
        let i = choose|i: int| 0 <= i < p.len() && b == #[trigger] p[i];
        assert(s[i] == b);
        assert(s[s.len() - 1] == s.last());
        assert forall|i: int| 0 <= i < s.len() implies !(if least {
            number_less(nums, #[trigger] s[i], r)
        } else {
            number_less(nums, r, s[i])
        }) by {
            if i < p.len() {
                assert(p[i] == s[i]);
                assert(!(if least {
                    number_less(nums, p[i], b)
                } else {
                    number_less(nums, b, p[i])
                }));
            }
        }
    } else {
        assert(best_of(nums, s, least) == s[0]);
    }
}

/// The sum of integers: nothing sums to 0, and one more integer adds to the sum.
pub proof fn sum_adds(s: Seq<ValueView>, n: i64)
    ensures
        int_sum(Seq::empty()) == 0,
        int_sum(s.push(ValueView::Int(n))) == int_sum(s) + n,
{
    assert(s.push(ValueView::Int(n)).drop_last() =~= s);
}

proof fn other_names()
    ensures
        "abs"@ != "print"@,
        "abs"@ != "str"@,
        "abs"@ != "input"@,
        "abs"@ != "type"@,
        "abs"@ != "assert"@,
        "abs"@ != "drop"@,
        "abs"@ != "range"@,
        "abs"@ != "len"@,
        "abs"@ != "int"@,
        "abs"@ != "float"@,
        "abs"@ != "ord"@,
        "abs"@ != "chr"@,
        "abs"@ != "is_digit"@,
        "abs"@ != "is_alpha"@,
        "abs"@ != "is_space"@,
        "chr"@ != "print"@,
        "chr"@ != "str"@,
        "chr"@ != "input"@,
        "chr"@ != "type"@,
        "chr"@ != "assert"@,
        "chr"@ != "drop"@,
        "chr"@ != "range"@,
        "chr"@ != "len"@,
        "chr"@ != "int"@,
        "chr"@ != "float"@,
        "chr"@ != "ord"@,
        "chr"@ != "is_digit"@,
        "chr"@ != "is_alpha"@,
        "chr"@ != "is_space"@,
        "ord"@ != "print"@,
        "ord"@ != "str"@,
        "ord"@ != "input"@,
        "ord"@ != "type"@,
        "ord"@ != "assert"@,
        "ord"@ != "drop"@,
        "ord"@ != "range"@,
        "ord"@ != "len"@,
        "ord"@ != "int"@,
        "ord"@ != "float"@,
        "ord"@ != "chr"@,
        "ord"@ != "is_digit"@,
        "ord"@ != "is_alpha"@,
        "ord"@ != "is_space"@,
{
    reveal_strlit("abs");
    reveal_strlit("chr");
    reveal_strlit("ord");
    reveal_strlit("print");
    reveal_strlit("str");
    reveal_strlit("input");
    reveal_strlit("type");
    reveal_strlit("assert");
    reveal_strlit("drop");
    reveal_strlit("range");
    reveal_strlit("len");
    reveal_strlit("int");
    reveal_strlit("float");
    reveal_strlit("is_digit");
    reveal_strlit("is_alpha");
    reveal_strlit("is_space");
    assert("abs"@.len() == 3);
    assert("chr"@.len() == 3);
    assert("ord"@.len() == 3);
    assert("print"@.len() == 5);
    assert("str"@.len() == 3);
    assert("input"@.len() == 5);
    assert("type"@.len() == 4);
    assert("assert"@.len() == 6);
    assert("drop"@.len() == 4);
    assert("range"@.len() == 5);
    assert("len"@.len() == 3);
    assert("int"@.len() == 3);
    assert("float"@.len() == 5);
    assert("is_digit"@.len() == 8);
    assert("is_alpha"@.len() == 8);
    assert("is_space"@.len() == 8);
    assert("abs"@[0] != "str"@[0]);
    assert("abs"@[0] != "len"@[0]);
    assert("abs"@[0] != "int"@[0]);
    assert("abs"@[0] != "ord"@[0]);
    assert("abs"@[0] != "chr"@[0]);
    assert("chr"@[0] != "str"@[0]);
    assert("chr"@[0] != "len"@[0]);
    assert("chr"@[0] != "int"@[0]);
    assert("chr"@[0] != "ord"@[0]);
    assert("ord"@[0] != "str"@[0]);
    assert("ord"@[0] != "len"@[0]);
    assert("ord"@[0] != "int"@[0]);
    assert("ord"@[0] != "chr"@[0]);
}

/// The absolute value is not negative, and is the number or its negation.
pub proof fn absolute_value(h: Seq<ObjView>, n: i64, f: u64)
    requires
        in_range(n as int),
    ensures
        builtin_call(
            h,
            "abs"@,
            seq![ValueView::Int(n)],
        ) matches Some(OutView::Give(ValueView::Int(m)))
            && (n == -0x8000_0000_0000 || m >= 0) && (m == n || same_low(m as int, -n)),
        builtin_call(h, "abs"@, seq![ValueView::Float(f)]) matches Some(
            OutView::Give(ValueView::Float(g)),
        ) && place(g) >= 0 && (place(g) == place(f) || place(g) == -place(f)) && is_nan(g)
            == is_nan(f),
{
    other_names();
    wrapped(n as int);
    wrapped(-n);
}

/// The number of a character, and the character of a number, undo one another.
pub proof fn chr_and_ord(h: Seq<ObjView>, n: i64)
    requires
        0 <= n < 128,
    ensures
        builtin_call(h, "chr"@, seq![ValueView::Int(n)]) matches Some(OutView::Give(c))
            && builtin_call(h, "ord"@, seq![c]) == give(ValueView::Int(n)),
{
    other_names();
    let s = seq![n as u8 as char];
    assert(s[0] as u32 == n);
    assert(vstd::utf8::is_ascii_chars(s));
    vstd::utf8::is_ascii_chars_encode_utf8(s);
}

/// `range` counts up from its first argument, or from 0, up to but not including its last.
pub proof fn range_counts(h: Seq<ObjView>, a: i64, b: i64)
    ensures
        builtin_call(h, "range"@, seq![ValueView::Int(a), ValueView::Int(b)]) matches Some(
            OutView::List(s),
        ) && s.len() == (if a < b {
            b - a
        } else {
            0
        }) && forall|i: int| 0 <= i < s.len() ==> #[trigger] s[i] == ValueView::Int((a + i) as i64),
        builtin_call(h, "range"@, seq![ValueView::Int(b)]) == builtin_call(
            h,
            "range"@,
            seq![ValueView::Int(0), ValueView::Int(b)],
        ),
{
    reveal_strlit("range");
    reveal_strlit("print");
    reveal_strlit("str");
    reveal_strlit("input");
    reveal_strlit("type");
    reveal_strlit("assert");
    reveal_strlit("drop");
    assert("range"@.len() == 5 && "str"@.len() == 3 && "type"@.len() == 4 && "assert"@.len() == 6
        && "drop"@.len() == 4);
    assert("range"@[0] != "print"@[0]);
    assert("range"@[0] != "input"@[0]);
}

/// Values of different kinds have different type names.
pub proof fn type_names_differ(v: ValueView, w: ValueView)
    requires
        crate::calls::kind_name(Some(v)) == crate::calls::kind_name(Some(w)),
    ensures
        v is Int == w is Int,
        v is Float == w is Float,
        v is Bool == w is Bool,
        v is Str == w is Str,
        v is List == w is List,
        v is Dict == w is Dict,
        v is Func == w is Func,
        v is Struct == w is Struct,
        v is CBuf == w is CBuf,
        v is Nil == w is Nil,
{
    reveal_strlit("i64");
    reveal_strlit("f64");
    reveal_strlit("bool");
    reveal_strlit("str");
    reveal_strlit("list");
    reveal_strlit("map");
    reveal_strlit("fn");
    reveal_strlit("struct");
    reveal_strlit("cbuf");
    reveal_strlit("nil");
    assert("i64"@.len() == 3);
    assert("f64"@.len() == 3);
    assert("bool"@.len() == 4);
    assert("str"@.len() == 3);
    assert("list"@.len() == 4);
    assert("map"@.len() == 3);
    assert("fn"@.len() == 2);
    assert("struct"@.len() == 6);
    assert("cbuf"@.len() == 4);
    assert("nil"@.len() == 3);
    assert("i64"@[0] != "f64"@[0]);
    assert("i64"@[0] != "str"@[0]);
    assert("i64"@[0] != "map"@[0]);
    assert("i64"@[0] != "nil"@[0]);
    assert("f64"@[0] != "str"@[0]);
    assert("f64"@[0] != "map"@[0]);
    assert("f64"@[0] != "nil"@[0]);
    assert("bool"@[0] != "list"@[0]);
    assert("bool"@[0] != "cbuf"@[0]);
    assert("str"@[0] != "map"@[0]);
    assert("str"@[0] != "nil"@[0]);
    assert("list"@[0] != "cbuf"@[0]);
    assert("map"@[0] != "nil"@[0]);
}

proof fn numeral_digits(n: nat)
    ensures
        crate::strings::all_digits(crate::text::dec_nat(n)),
        crate::strings::digits_value(crate::text::dec_nat(n)) == n,
        crate::text::dec_nat(n).len() > 0,
    decreases n,
{
    let d = crate::text::dec_nat(n);
    let last = crate::text::digit((n % 10) as int);
    assert(last as int - 48 == n % 10);
    if n >= 10 {
        numeral_digits(n / 10);
        let p = crate::text::dec_nat(n / 10);
        assert(d.drop_last() =~= p);
        assert forall|i: int| 0 <= i < d.len() implies crate::strings::is_digit(#[trigger] d[i]) by {
            if i < p.len() {
                assert(d[i] == p[i]);
            }
        }
    } else {
        assert(d.drop_last() =~= Seq::empty());
        assert(crate::strings::digits_value(d.drop_last()) == 0);
    }
}

proof fn untrimmed(s: Seq<char>)
    requires
        s.len() > 0,
        !crate::text::is_white_spec(s[0]),
        !crate::text::is_white_spec(s.last()),
    ensures
        crate::text::trim_spec(s) == s,
{
}

/// The numeral of an integer, read again, is the integer.
pub proof fn numeral_read_back(n: i64)
    requires
        in_range(n as int),
    ensures
        crate::calls::builtin_one(Seq::empty(), "int"@, ValueView::Str(crate::text::dec(n as int)))
            == give(ValueView::Int(n)),
{
    let s = crate::text::dec(n as int);
    let v = (if n < 0 {
        -(n as int)
    } else {
        n as int
    }) as nat;
    numeral_digits(v);
    let d = crate::text::dec_nat(v);
    if n < 0 {
        assert(s.skip(1) =~= d);
        assert(s.last() == d.last());
    }
    assert(crate::strings::is_digit(d[d.len() - 1]));
    assert(crate::strings::is_digit(d[0]));
    untrimmed(s);
    reveal_strlit("len");
    reveal_strlit("int");
    assert("len"@[0] != "int"@[0]);
    wrapped(n as int);
    crate::algebra::one_in_range(wrap48_spec(n as int), n as int);
}

/// An integer as a text is its numeral.
pub proof fn integer_text(
    h: Seq<ObjView>,
    texts: Map<u64, Seq<char>>,
    nums: Map<i64, u64>,
    n: i64,
)
    ensures
        builtin_call(h, "str"@, seq![ValueView::Int(n)]) matches Some(OutView::Do(t))
            && crate::operate::task_out(h, texts, nums, t) == OutView::Give(
            ValueView::Str(crate::text::dec(n as int)),
        ),
{
    reveal_strlit("print");
    reveal_strlit("str");
    assert("print"@.len() != "str"@.len());
    reveal_with_fuel(crate::value::show_joined, 3);
    let d = crate::text::dec(n as int);
    reveal_strlit("");
    assert(""@ + d =~= d);
    assert(Seq::<char>::empty() + d =~= d);
}

proof fn glued_push(parts: Seq<Seq<char>>, x: Seq<char>, sep: Seq<char>)
    ensures
        glued(parts.push(x), sep) == (if parts.len() == 0 {
            x
        } else {
            glued(parts, sep) + sep + x
        }),
    decreases parts.len(),
{
    let all = parts.push(x);
    if parts.len() == 1 {
        assert(all.skip(1) =~= seq![x]);
        assert(glued(seq![x], sep) == x);
        assert(glued(all, sep) == all[0] + sep + glued(all.skip(1), sep));
    } else if parts.len() > 1 {
        assert(all.skip(1) =~= parts.skip(1).push(x));
        glued_push(parts.skip(1), x, sep);
        let g = glued(parts.skip(1), sep);
        assert(glued(all, sep) == all[0] + sep + glued(all.skip(1), sep));
        assert(parts[0] + sep + (g + sep + x) =~= parts[0] + sep + g + sep + x);
    }
}

/// Texts shown together with a separator are the texts joined with it.
pub proof fn join_glues(
    h: Seq<ObjView>,
    m: Map<u64, Seq<char>>,
    parts: Seq<Seq<char>>,
    sep: Seq<char>,
)
    ensures
        crate::value::show_joined(
            h,
            m,
            crate::calls::texts_of(parts),
            sep,
            false,
            parts.len(),
        ) == crate::value::ShownView::Text(glued(parts, sep)),
{
    joined_up_to(h, m, parts, sep, parts.len());
    assert(parts.take(parts.len() as int) =~= parts);
}

proof fn joined_up_to(
    h: Seq<ObjView>,
    m: Map<u64, Seq<char>>,
    parts: Seq<Seq<char>>,
    sep: Seq<char>,
    k: nat,
)
    requires
        k <= parts.len(),
    ensures
        crate::value::show_joined(h, m, crate::calls::texts_of(parts), sep, false, k)
            == crate::value::ShownView::Text(glued(parts.take(k as int), sep)),
    decreases k,
{
    let v = crate::calls::texts_of(parts);
    if k > 0 {
        joined_up_to(h, m, parts, sep, (k - 1) as nat);
        let p = parts.take(k - 1);
        assert(parts.take(k as int) =~= p.push(parts[k - 1]));
        glued_push(p, parts[k - 1], sep);
        assert(v[k - 1] == ValueView::Str(parts[k - 1]));
    } else {
        assert(parts.take(0) =~= Seq::empty());
    }
}

} // verus!
