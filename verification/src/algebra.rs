//! Laws of the interpreter's operators: how the results of several operations relate.

use crate::ast::{wrap48_spec, BinOp, UnOp};
use crate::divide::{quotient, remainder};
use crate::floatbits::{is_nan, place};
use crate::machops::unary_out;
use crate::operate::{binop_spec, is_number, power48, task_out, OutView};
use crate::text::text_less;
use crate::value::{list_at, ObjView, ValueView};
use vstd::arithmetic::div_mod::lemma_fundamental_div_mod_converse;
use vstd::prelude::*;

verus! {

/// What a binary operation comes to, by the floats that integers are known to be.
pub open spec fn worth(
    h: Seq<ObjView>,
    nums: Map<i64, u64>,
    op: BinOp,
    l: ValueView,
    r: ValueView,
) -> OutView {
    match binop_spec(h, op, l, r) {
        OutView::Do(t) => task_out(h, Map::empty(), nums, t),
        o => o,
    }
}

/// An answer that says yes or no.
pub open spec fn answer(b: bool) -> OutView {
    OutView::Give(ValueView::Bool(b))
}

pub open spec fn number(n: i64) -> OutView {
    OutView::Give(ValueView::Int(n))
}

/// The integers that values hold.
pub open spec fn in_range(n: int) -> bool {
    -0x8000_0000_0000 <= n < 0x8000_0000_0000
}

/// Whether two integers agree in their low 48 bits.
pub open spec fn same_low(a: int, b: int) -> bool {
    exists|k: int| a == b + #[trigger] (k * 0x1_0000_0000_0000)
}

/// Where all integers among the operands are known as floats.
pub open spec fn known(nums: Map<i64, u64>, l: ValueView, r: ValueView) -> bool {
    &&& l matches ValueView::Int(n) ==> nums.contains_key(n)
    &&& r matches ValueView::Int(n) ==> nums.contains_key(n)
}

/// `l != r` is the negation of `l == r`, for all values. Both always answer once the
/// floats are known, and before that ask the same.
pub proof fn unequal_negates_equal(
    h: Seq<ObjView>,
    nums: Map<i64, u64>,
    l: ValueView,
    r: ValueView,
)
    ensures
        match worth(h, nums, BinOp::Eq, l, r) {
            OutView::Give(ValueView::Bool(b)) => worth(h, nums, BinOp::Ne, l, r) == answer(!b),
            o => worth(h, nums, BinOp::Ne, l, r) == o && o is Wait && !known(nums, l, r),
        },
        known(nums, l, r) ==> worth(h, nums, BinOp::Eq, l, r) is Give,
        !(is_number(l) && is_number(r)) ==> worth(h, nums, BinOp::Eq, l, r) is Give,
{
}

/// When two values are equal: strings by their texts, integers by their numbers, floats
/// by their places among the numbers, truth values and `nil` as such. A list, a map, a
/// function or a struct equals nothing, and two values of different kinds differ, except
/// that an integer equals the float it is known as.
pub proof fn equal_values(h: Seq<ObjView>, nums: Map<i64, u64>, l: ValueView, r: ValueView)
    requires
        known(nums, l, r),
    ensures
        worth(h, nums, BinOp::Eq, l, r) == answer(
            match (l, r) {
                (ValueView::Str(a), ValueView::Str(b)) => a =~= b,
                (ValueView::Bool(a), ValueView::Bool(b)) => a <==> b,
                (ValueView::Int(a), ValueView::Int(b)) => a - b == 0,
                (ValueView::Float(a), ValueView::Float(b)) => !is_nan(a) && !is_nan(b) && place(
                    a,
                ) == place(b),
                (ValueView::Int(a), ValueView::Float(b)) => worth(
                    h,
                    nums,
                    BinOp::Eq,
                    ValueView::Float(nums[a]),
                    r,
                ) == answer(true),
                (ValueView::Float(a), ValueView::Int(b)) => worth(
                    h,
                    nums,
                    BinOp::Eq,
                    l,
                    ValueView::Float(nums[b]),
                ) == answer(true),
                (ValueView::Nil, ValueView::Nil) => true,
                _ => false,
            },
        ),
{
}

/// Equality looks the same from both sides, and is passed on.
pub proof fn equality_is_even(
    h: Seq<ObjView>,
    nums: Map<i64, u64>,
    a: ValueView,
    b: ValueView,
    c: ValueView,
)
    requires
        known(nums, a, b),
    ensures
        worth(h, nums, BinOp::Eq, a, b) == worth(h, nums, BinOp::Eq, b, a),
        !(a is Int && c is Int && b is Float) && known(nums, b, c) && worth(
            h,
            nums,
            BinOp::Eq,
            a,
            b,
        ) == answer(true) && worth(h, nums, BinOp::Eq, b, c) == answer(true) && (a is Int == b is Int)
            ==> worth(h, nums, BinOp::Eq, a, c) == answer(true),
{
}

/// The four comparisons are one order: `>` is `<` with the sides exchanged, and so is
/// `>=` of `<=`. Where neither side is NaN, `<=` says no just where `>` says yes, and
/// exactly one of `<`, `==` and `>` says yes.
pub proof fn comparisons_agree(h: Seq<ObjView>, nums: Map<i64, u64>, l: ValueView, r: ValueView)
    requires
        known(nums, l, r),
        (is_number(l) && is_number(r)) || (l is Str && r is Str),
    ensures
        worth(h, nums, BinOp::Lt, l, r) == worth(h, nums, BinOp::Gt, r, l),
        worth(h, nums, BinOp::Le, l, r) == worth(h, nums, BinOp::Ge, r, l),
        worth(h, nums, BinOp::Lt, l, r) == answer(true) || worth(h, nums, BinOp::Lt, l, r)
            == answer(false),
        worth(h, nums, BinOp::Lt, l, r) == answer(true) ==> worth(h, nums, BinOp::Le, l, r)
            == answer(true) && worth(h, nums, BinOp::Eq, l, r) == answer(false) && worth(
            h,
            nums,
            BinOp::Gt,
            l,
            r,
        ) == answer(false) && worth(h, nums, BinOp::Ge, l, r) == answer(false),
        worth(h, nums, BinOp::Eq, l, r) == answer(true) ==> worth(h, nums, BinOp::Le, l, r)
            == answer(true) && worth(h, nums, BinOp::Ge, l, r) == answer(true) && worth(
            h,
            nums,
            BinOp::Lt,
            l,
            r,
        ) == answer(false),
        worth(h, nums, BinOp::Le, l, r) == answer(true) ==> (worth(h, nums, BinOp::Lt, l, r)
            == answer(true) || worth(h, nums, BinOp::Eq, l, r) == answer(true)),
        worth(h, nums, BinOp::Le, l, r) == answer(true) || worth(h, nums, BinOp::Le, l, r)
            == answer(false),
        (l matches ValueView::Int(a) && r matches ValueView::Int(b)) ==> {
            let (a, b) = (l->Int_0, r->Int_0);
            worth(h, nums, BinOp::Lt, l, r) == answer(b - a > 0)
        },
        (l is Int && r is Int) || (l is Str && r is Str) ==> (worth(h, nums, BinOp::Le, l, r)
            == answer(true) <==> worth(h, nums, BinOp::Gt, l, r) == answer(false)),
{
    if l is Str {
        let a = l->Str_0;
        let b = r->Str_0;
        texts_in_order(a, b);
        texts_in_order(b, a);
    }
}

/// How texts compare: one comes before another where it is a proper beginning of it, or
/// where at the first place in which they differ its character has the lower code.
pub proof fn texts_in_order(a: Seq<char>, b: Seq<char>)
    ensures
        text_less(a, b) <==> first_difference(a, b) < b.len() && (first_difference(a, b) == a.len()
            || a[first_difference(a, b)] < b[first_difference(a, b)]),
        a == b ==> !text_less(a, b),
        text_less(a, b) ==> !text_less(b, a) && a != b,
        text_less(a, b) || text_less(b, a) || a == b,
    decreases a.len(),
{
    if a.len() > 0 && b.len() > 0 {
        let x = a.drop_first();
        let y = b.drop_first();
        texts_in_order(x, y);
        first_difference_is(x, y);
        if a[0] == b[0] {
            let d = first_difference(x, y);
            assert(text_less(a, b) == text_less(x, y));
            assert(first_difference(a, b) == d + 1);
            assert(d < x.len() ==> x[d] == a[d + 1]);
            assert(d < y.len() ==> y[d] == b[d + 1]);
            if x == y {
                assert(a =~= seq![a[0]] + x);
                assert(b =~= seq![b[0]] + y);
            }
        } else {
            assert(first_difference(a, b) == 0);
            assert(text_less(a, b) == (a[0] < b[0]));
        }
    } else if a.len() == 0 && b.len() == 0 {
        assert(a =~= b);
    }
}

/// The first place in which two texts differ, or the end of one.
pub open spec fn first_difference(a: Seq<char>, b: Seq<char>) -> int
    decreases a.len(),
{
    if a.len() == 0 || b.len() == 0 || a[0] != b[0] {
        0
    } else {
        1 + first_difference(a.drop_first(), b.drop_first())
    }
}

/// Up to the first difference two texts are the same.
pub proof fn first_difference_is(a: Seq<char>, b: Seq<char>)
    ensures
        0 <= first_difference(a, b) <= a.len(),
        first_difference(a, b) <= b.len(),
        forall|i: int| 0 <= i < first_difference(a, b) ==> a[i] == b[i],
        first_difference(a, b) < a.len() && first_difference(a, b) < b.len()
            ==> a[first_difference(a, b)] != b[first_difference(a, b)],
    decreases a.len(),
{
    if a.len() > 0 && b.len() > 0 && a[0] == b[0] {
        let x = a.drop_first();
        let y = b.drop_first();
        first_difference_is(x, y);
        assert forall|i: int| 0 <= i < first_difference(a, b) implies a[i] == b[i] by {
            if i > 0 {
                assert(x[i - 1] == y[i - 1]);
            }
        }
    }
}

/// `x not in c` is the negation of `x in c`, and fails where that fails.
pub proof fn not_in_negates_in(h: Seq<ObjView>, nums: Map<i64, u64>, x: ValueView, c: ValueView)
    ensures
        match worth(h, nums, BinOp::In, x, c) {
            OutView::Give(ValueView::Bool(b)) => worth(h, nums, BinOp::NotIn, x, c) == answer(!b),
            o => o == worth(h, nums, BinOp::NotIn, x, c),
        },
{
}

/// A value is in a list just where it equals one of its elements, and a text is in
/// another just where the other is made of something, the text, and something.
pub proof fn in_means_there(h: Seq<ObjView>, x: ValueView, c: ValueView)
    requires
        c matches ValueView::List(a) ==> list_at(h, a) is Some,
        c is List || (c is Str && x is Str),
    ensures
        match c {
            ValueView::List(a) => binop_spec(h, BinOp::In, x, c) == answer(
                exists|i: int|
                    0 <= i < list_at(h, a)->0.len() && crate::value::values_equal(
                        x,
                        #[trigger] list_at(h, a)->0[i],
                    ),
            ),
            _ => binop_spec(h, BinOp::In, x, c) == answer(
                exists|u: Seq<char>, w: Seq<char>|
                    c->Str_0 =~= #[trigger] (u + x->Str_0 + w),
            ),
        },
{
    match c {
        ValueView::List(a) => {
            let s = list_at(h, a)->0;
            assert forall|i: int| 0 <= i < s.len() implies crate::value::values_equal(
                x,
                #[trigger] s[i],
            ) == crate::value::values_equal(s[i], x) by {}
            if crate::operate::among(s, x) {
                let i = choose|i: int|
                    0 <= i < s.len() && crate::value::values_equal(#[trigger] s[i], x);
                assert(crate::value::values_equal(x, s[i]));
            }
        },
        _ => {
            let s = c->Str_0;
            let p = x->Str_0;
            if crate::text::contains_text(s, p) {
                let i = choose|i: int| crate::text::stands_at(s, p, i);
                assert(s =~= s.take(i) + p + s.skip(i + p.len()));
            }
            if exists|u: Seq<char>, w: Seq<char>| s =~= #[trigger] (u + p + w) {
                let (u, w) = choose|u: Seq<char>, w: Seq<char>| s =~= #[trigger] (u + p + w);
                assert(s.subrange(u.len() as int, (u.len() + p.len()) as int) =~= p);
                assert(crate::text::stands_at(s, p, u.len() as int));
            }
        },
    }
}

pub(crate) proof fn wrapped(n: int)
    ensures
        in_range(wrap48_spec(n)),
        same_low(wrap48_spec(n), n),
{
    let m = 0x1_0000_0000_0000int;
    let q = (n + 0x8000_0000_0000) / m;
    vstd::arithmetic::div_mod::lemma_fundamental_div_mod(n + 0x8000_0000_0000, m);
    assert(m * q == q * m) by (nonlinear_arith);
    assert(wrap48_spec(n) == n + (-q) * m) by (nonlinear_arith)
        requires
            wrap48_spec(n) == n - q * m,
    ;
}

/// Of the integers that agree in their low bits only one is in range.
pub proof fn one_in_range(a: int, b: int)
    requires
        in_range(a),
        in_range(b),
        same_low(a, b),
    ensures
        a == b,
{
    let k = choose|k: int| a == b + #[trigger] (k * 0x1_0000_0000_0000);
    assert(k == 0) by (nonlinear_arith)
        requires
            a == b + k * 0x1_0000_0000_0000,
            -0x8000_0000_0000 <= a < 0x8000_0000_0000,
            -0x8000_0000_0000 <= b < 0x8000_0000_0000,
    ;
}

/// The sum, the difference and the product of integers are those of mathematics up to a
/// multiple of two to the 48th, in the range of the integers.
pub proof fn integers_wrap(h: Seq<ObjView>, nums: Map<i64, u64>, a: i64, b: i64)
    ensures
        worth(h, nums, BinOp::Add, ValueView::Int(a), ValueView::Int(b)) matches OutView::Give(
            ValueView::Int(n),
        ) && in_range(n as int) && same_low(n as int, a + b),
        worth(h, nums, BinOp::Sub, ValueView::Int(a), ValueView::Int(b)) matches OutView::Give(
            ValueView::Int(n),
        ) && in_range(n as int) && same_low(n as int, a - b),
        worth(h, nums, BinOp::Mul, ValueView::Int(a), ValueView::Int(b)) matches OutView::Give(
            ValueView::Int(n),
        ) && in_range(n as int) && same_low(n as int, a * b),
        unary_out(UnOp::Neg, ValueView::Int(a)) matches OutView::Give(ValueView::Int(n))
            && in_range(n as int) && same_low(n as int, 0 - a),
{
    wrapped(a + b);
    wrapped(a - b);
    wrapped(a * b);
    wrapped(0 - a);
}

/// Division and remainder belong together: quotient times divisor plus remainder is the
/// dividend, the remainder is smaller than the divisor and has the dividend's sign. Only
/// a divisor of zero fails.
pub proof fn division_and_remainder(h: Seq<ObjView>, nums: Map<i64, u64>, a: i64, b: i64)
    requires
        in_range(a as int),
        in_range(b as int),
    ensures
        b == 0 ==> worth(h, nums, BinOp::Div, ValueView::Int(a), ValueView::Int(b)) is Fail
            && worth(h, nums, BinOp::Mod, ValueView::Int(a), ValueView::Int(b)) is Fail,
        b != 0 ==> {
            let q = worth(h, nums, BinOp::Div, ValueView::Int(a), ValueView::Int(b));
            let m = worth(h, nums, BinOp::Mod, ValueView::Int(a), ValueView::Int(b));
            &&& q matches OutView::Give(ValueView::Int(x)) && m matches OutView::Give(
                ValueView::Int(y),
            ) && {
                &&& (b == -1 && a == -0x8000_0000_0000) || x * b + y == a
                &&& -y < b || -y < -b
                &&& y < b || y < -b
                &&& a >= 0 ==> y >= 0
                &&& a <= 0 ==> y <= 0
            }
        },
{
    if b != 0 {
        let x = a as int;
        let y = b as int;
        let d = if y < 0 {
            -y
        } else {
            y
        };
        let n = if x < 0 {
            -x
        } else {
            x
        };
        let q = n / d;
        vstd::arithmetic::div_mod::lemma_fundamental_div_mod(n, d);
        vstd::arithmetic::div_mod::lemma_mod_bound(n, d);
        vstd::arithmetic::div_mod::lemma_div_is_ordered_by_denominator(n, 1, d);
        vstd::arithmetic::div_mod::lemma_div_pos_is_pos(n, d);
        vstd::arithmetic::div_mod::lemma_div_basics(n);
        assert(0 <= q <= n);
        let s = quotient(x, y);
        assert(s == q || s == -q);
        assert(remainder(x, y) == n % d || remainder(x, y) == -(n % d)) by (nonlinear_arith)
            requires
                n == d * q + n % d,
                remainder(x, y) == x - y * s,
                (x < 0 && n == -x) || (x >= 0 && n == x),
                (y < 0 && d == -y) || (y >= 0 && d == y),
                s == (if (x < 0) == (y < 0) { q } else { -q }),
        ;
        assert((x >= 0 ==> remainder(x, y) == n % d) && (x < 0 ==> remainder(x, y) == -(n % d)))
            by (nonlinear_arith)
            requires
                n == d * q + n % d,
                remainder(x, y) == x - y * s,
                (x < 0 && n == -x) || (x >= 0 && n == x),
                (y < 0 && d == -y) || (y >= 0 && d == y),
                s == (if (x < 0) == (y < 0) { q } else { -q }),
        ;
        if !(in_range(s)) {
            assert(q == 0x8000_0000_0000);
            assert(d == 1) by (nonlinear_arith)
                requires
                    n == d * q + n % d,
                    0 <= n % d,
                    d >= 1,
                    n <= 0x8000_0000_0000,
                    q == 0x8000_0000_0000,
            ;
        }
        assert(s * y == y * s) by (nonlinear_arith);
    }
}

/// A power is repeated multiplication: nothing times gives 1, and once more multiplies
/// by the base once more.
pub proof fn power_multiplies(h: Seq<ObjView>, nums: Map<i64, u64>, a: i64, b: i64)
    requires
        0 <= b < i64::MAX,
    ensures
        worth(h, nums, BinOp::Pow, ValueView::Int(a), ValueView::Int(0)) == number(1),
        worth(h, nums, BinOp::Pow, ValueView::Int(a), ValueView::Int(b)) matches OutView::Give(p)
            && p is Int
                && worth(h, nums, BinOp::Pow, ValueView::Int(a), ValueView::Int((b + 1) as i64))
            == worth(h, nums, BinOp::Mul, p, ValueView::Int(a)),
{
    let p = power48(a as int, b as nat);
    if b > 0 {
        wrapped(power48(a as int, (b - 1) as nat) * a);
    }
    assert(power48(a as int, (b + 1) as nat) == wrap48_spec(p * a));
}

/// Two texts added are the one and then the other.
pub proof fn added_texts(h: Seq<ObjView>, nums: Map<i64, u64>, a: Seq<char>, b: Seq<char>)
    ensures
        worth(h, nums, BinOp::Add, ValueView::Str(a), ValueView::Str(b)) matches OutView::Give(
            ValueView::Str(s),
        ) && s.len() == a.len() + b.len() && s.take(a.len() as int) =~= a && s.skip(
            a.len() as int,
        ) =~= b,
{
}

/// Negation undoes itself, and `not` turns a truth value round.
pub proof fn unary_laws(n: i64, b: bool, f: u64)
    requires
        in_range(n as int),
    ensures
        unary_out(UnOp::Neg, ValueView::Int(n)) matches OutView::Give(m) && unary_out(
            UnOp::Neg,
            m,
        ) == number(n),
        unary_out(UnOp::Not, ValueView::Bool(b)) == answer(!b),
        unary_out(UnOp::Neg, ValueView::Float(f)) matches OutView::Give(ValueView::Float(g))
            && place(g) == -place(f) && is_nan(g) == is_nan(f),
{
}

/// Arithmetic on other values than numbers is refused, except that texts are added.
pub proof fn other_operands_refused(
    h: Seq<ObjView>,
    nums: Map<i64, u64>,
    op: BinOp,
    l: ValueView,
    r: ValueView,
)
    requires
        !(is_number(l) && is_number(r)),
        op == BinOp::Add || op == BinOp::Sub || op == BinOp::Mul || op == BinOp::Div || op
            == BinOp::Mod || op == BinOp::Pow || op == BinOp::Lt || op == BinOp::Le || op
            == BinOp::Gt || op == BinOp::Ge,
    ensures
        worth(h, nums, op, l, r) is Fail <==> !(l is Str && r is Str && (op == BinOp::Add || op
            == BinOp::Lt || op == BinOp::Le || op == BinOp::Gt || op == BinOp::Ge)),
{
}

/// Arithmetic with a float among its numbers is handed over with both as floats, the
/// left one first.
pub proof fn float_arithmetic_is_asked(
    h: Seq<ObjView>,
    nums: Map<i64, u64>,
    op: BinOp,
    a: i64,
    b: u64,
)
    requires
        nums.contains_key(a),
        op == BinOp::Add || op == BinOp::Sub || op == BinOp::Mul || op == BinOp::Div || op
            == BinOp::Mod || op == BinOp::Pow,
    ensures
        worth(h, nums, op, ValueView::Int(a), ValueView::Float(b)) == OutView::Ask(
            crate::operate::ActionView::Arith { op, a: nums[a], b },
        ),
        worth(h, nums, op, ValueView::Float(b), ValueView::Int(a)) == OutView::Ask(
            crate::operate::ActionView::Arith { op, a: b, b: nums[a] },
        ),
{
}

} // verus!
