//! The instructions for a division by a constant give the quotient.

use crate::asmexpr::const_div;
use crate::asmquery::{log2_exact, magic_multiplier, magic_shift, magnitude};
use crate::asmstate::{Asm, FnEnv};
use crate::divide::{
    critical, excess, magic_division, magic_exponent, magic_steps, near_enough, quotient,
    shift_division, unsigned,
};
use crate::machine::{
    bias_added, bias_ops, bits, code, is_short, is_word, op_text, run, run_join, run_one, run_push,
    run_three, word, word_stays, Op, Regs,
};
use crate::text::{dec, dec_nat};
use vstd::arithmetic::div_mod::{lemma_fundamental_div_mod, lemma_mod_bound};
use vstd::arithmetic::power2::{
    lemma2_to64, lemma2_to64_rest, lemma_pow2_adds, lemma_pow2_pos, lemma_pow2_strictly_increases,
    lemma_pow2_unfold, pow2,
};
use vstd::prelude::*;

verus! {

/// Code with the texts of instructions behind it.
pub open spec fn emitted(g: Asm, s: Seq<Op>) -> Asm {
    Asm { out: g.out + code(s), ..g }
}

/// One more instruction behind others.
pub proof fn one_more(g: Asm, s: Seq<Op>, o: Op)
    ensures
        emitted(g, s).p(op_text(o)) == emitted(g, s.push(o)),
{
    reveal(Asm::p);
    run_push(arbitrary(), s, o);
    assert(emitted(g, s).p(op_text(o)).out =~= g.out + code(s.push(o)));
}

pub(crate) proof fn nothing_yet(g: Asm)
    ensures
        emitted(g, Seq::empty()) == g,
{
    assert(g.out + Seq::<char>::empty() =~= g.out);
}

pub(crate) proof fn with_number(g: Asm, a: Seq<char>, n: int, b: Seq<char>)
    ensures
        g.p(a).n(n).p(b) == g.p(a + dec(n) + b),
{
    reveal(Asm::p);
    reveal(Asm::n);
    assert(g.p(a).n(n).p(b).out =~= g.p(a + dec(n) + b).out);
}

pub(crate) proof fn with_count(g: Asm, a: Seq<char>, n: nat, b: Seq<char>)
    ensures
        g.p(a).u(n).p(b) == g.p(a + dec_nat(n) + b),
{
    reveal(Asm::p);
    reveal(Asm::u);
    assert(g.p(a).u(n).p(b).out =~= g.p(a + dec_nat(n) + b).out);
}

pub(crate) proof fn with_text(g: Asm, a: Seq<char>, t: Seq<char>, b: Seq<char>)
    ensures
        g.p(a).p(t).p(b) == g.p(a + t + b),
{
    reveal(Asm::p);
    assert(g.p(a).p(t).p(b).out =~= g.p(a + t + b).out);
}

/// The shift by 63 is written in one piece.
pub proof fn shift_texts()
    ensures
        op_text(Op::SignRcx(63)) == "    sar rcx, 63\n"@,
        op_text(Op::ShiftRcx(63)) == "    shr rcx, 63\n"@,
{
    reveal_with_fuel(dec_nat, 3);
    reveal_strlit("    sar rcx, ");
    reveal_strlit("    shr rcx, ");
    reveal_strlit("\n");
    reveal_strlit("    sar rcx, 63\n");
    reveal_strlit("    shr rcx, 63\n");
    assert(dec_nat(63) =~= seq!['6', '3']);
    assert(op_text(Op::SignRcx(63)) =~= "    sar rcx, 63\n"@);
    assert(op_text(Op::ShiftRcx(63)) =~= "    shr rcx, 63\n"@);
}

/// The instructions for a division by a power of two.
pub open spec fn shift_ops(k: nat) -> Seq<Op> {
    bias_ops(k).push(Op::SarRax(k))
}

/// The instructions for a division by multiplication.
pub open spec fn magic_ops(m: i64, s: nat) -> Seq<Op> {
    let a = seq![Op::Keep, Op::BigRdx(m as int), Op::High, Op::TakeRdx];
    let b = if m < 0 {
        a.push(Op::Plus)
    } else {
        a
    };
    let c = if s > 0 {
        b.push(Op::SarRax(s))
    } else {
        b
    };
    c + seq![Op::Keep, Op::ShiftRcx(63), Op::Plus]
}

pub open spec fn signed_ops(s: Seq<Op>, d: i64) -> Seq<Op> {
    if d < 0 {
        s.push(Op::Negate)
    } else {
        s
    }
}

/// The instructions for a division by a constant.
pub open spec fn div_ops(d: i64) -> Seq<Op> {
    if d == 1 {
        Seq::empty()
    } else if d == -1 {
        seq![Op::Negate]
    } else {
        let ad = magnitude(d);
        match log2_exact(ad) {
            Some(k) => signed_ops(
                if k == 0 {
                    Seq::empty()
                } else {
                    shift_ops(k)
                },
                d,
            ),
            None => signed_ops(magic_ops(magic_multiplier(ad as int), magic_shift(ad as int)), d),
        }
    }
}

/// A number whose logarithm is found is that power of two.
pub proof fn log_is_exact(n: nat)
    requires
        log2_exact(n) is Some,
    ensures
        pow2(log2_exact(n)->Some_0) == n,
        n >= 1,
        n == 1 <==> log2_exact(n)->Some_0 == 0,
    decreases n,
{
    lemma2_to64();
    if n > 1 {
        log_is_exact(n / 2);
        lemma_pow2_unfold(log2_exact(n)->Some_0);
    }
}

pub(crate) proof fn exponent_below(k: nat, j: nat)
    requires
        pow2(k) <= pow2(j),
    ensures
        k <= j,
{
    if k > j {
        lemma_pow2_strictly_increases(j, k);
    }
}

/// Near 2^127 every divisor is near enough.
proof fn far_is_near(d: int)
    requires
        3 <= d < 0x8000_0000_0000_0000,
    ensures
        near_enough(127, d),
{
    lemma2_to64();
    lemma2_to64_rest();
    lemma_pow2_adds(63, 64);
    let c = critical(d);
    let x = excess(127, d);
    lemma_pow2_pos(127);
    lemma_mod_bound(pow2(127) as int, d);
    lemma_mod_bound(0x8000_0000_0000_0000, d);
    assert(0 <= c < 0x8000_0000_0000_0000);
    assert(0 < x <= d);
    assert(c * x <= 0x8000_0000_0000_0000 * 0x8000_0000_0000_0000) by (nonlinear_arith)
        requires
            0 <= c < 0x8000_0000_0000_0000,
            0 < x < 0x8000_0000_0000_0000,
    ;
    assert(pow2(127) == 0x8000_0000_0000_0000 * 0x1_0000_0000_0000_0000);
}

proof fn least_exponent(d: int, p: nat) -> (q: nat)
    requires
        64 <= p,
        near_enough(p, d),
    ensures
        magic_exponent(d, q),
        q <= p,
    decreases p,
{
    if exists|r: nat| 64 <= r < p && #[trigger] near_enough(r, d) {
        let r = choose|r: nat| 64 <= r < p && #[trigger] near_enough(r, d);
        least_exponent(d, r)
    } else {
        p
    }
}

/// There is a multiplier for every divisor.
proof fn multiplier_exists(d: int, p: nat) -> (m: i64)
    requires
        3 <= d < 0x8000_0000_0000_0000,
        magic_exponent(d, p),
        p <= 127,
    ensures
        unsigned(m) * d == pow2(p) + excess(p, d),
{
    let pw = pow2(p) as int;
    let x = excess(p, d);
    lemma2_to64();
    lemma2_to64_rest();
    lemma_pow2_pos(p);
    lemma_mod_bound(pw, d);
    lemma_fundamental_div_mod(pw, d);
    let q = pw / d + 1;
    assert(q * d == pw + x) by (nonlinear_arith)
        requires
            pw == d * (pw / d) + pw % d,
            x == d - pw % d,
            q == pw / d + 1,
    ;
    assert(0 < q < 0x1_0000_0000_0000_0000) by {
        let top = 0x1_0000_0000_0000_0000int;
        if p == 64 {
            assert(pw == top);
            assert(pw / d <= top / 3) by (nonlinear_arith)
                requires
                    pw == top,
                    3 <= d,
                    top == 0x1_0000_0000_0000_0000,
            ;
        } else {
            let h = (p - 1) as nat;
            assert(!near_enough(h, d));
            let c = critical(d);
            let y = excess(h, d);
            lemma_pow2_pos(h);
            lemma_mod_bound(pow2(h) as int, d);
            lemma_mod_bound(0x8000_0000_0000_0000, d);
            lemma_pow2_unfold(p);
            assert(pw == 2 * pow2(h));
            assert(pow2(h) <= c * y);
            assert(c * y <= (0x8000_0000_0000_0000 - 1) * d) by (nonlinear_arith)
                requires
                    0 <= c <= 0x8000_0000_0000_0000 - 1,
                    0 < y <= d,
            ;
            assert(pw <= (top - 2) * d) by (nonlinear_arith)
                requires
                    pw <= 2 * ((0x8000_0000_0000_0000 - 1) * d),
                    top == 0x1_0000_0000_0000_0000,
            ;
            assert(pw / d <= top - 2) by {
                assert((top - 2) * d == d * (top - 2)) by (nonlinear_arith);
                vstd::arithmetic::div_mod::lemma_div_is_ordered(pw, d * (top - 2), d);
                vstd::arithmetic::div_mod::lemma_div_multiples_vanish(top - 2, d);
            }
        }
        vstd::arithmetic::div_mod::lemma_div_pos_is_pos(pw, d);
    }
    let m: i64 = if q < 0x8000_0000_0000_0000 {
        q as i64
    } else {
        (q - 0x1_0000_0000_0000_0000) as i64
    };
    assert(unsigned(m) == q);
    m
}

/// The multiplier and the shift are those of the division by multiplication.
proof fn magic_is_magic(d: int)
    requires
        3 <= d < 0x8000_0000_0000_0000,
    ensures
        magic_exponent(d, 64 + magic_shift(d)),
        unsigned(magic_multiplier(d)) * d == pow2(64 + magic_shift(d)) + excess(
            64 + magic_shift(d),
            d,
        ),
        magic_shift(d) <= 63,
{
    far_is_near(d);
    let q = least_exponent(d, 127);
    assert(exists|p: nat| magic_exponent(d, p));
    let p = choose|p: nat| magic_exponent(d, p);
    assert(p == q) by {
        if p < q {
            assert(!near_enough(p, d));
        } else if q < p {
            assert(!near_enough(q, d));
        }
    }
    let m = multiplier_exists(d, p);
    assert(64 + magic_shift(d) == p);
    assert(unsigned(m) * d == pow2(64 + magic_shift(d)) + excess(64 + magic_shift(d), d));
}

proof fn shift_divides(r: Regs, k: nat)
    requires
        1 <= k <= 62,
        is_short(r.rax),
    ensures
        run(r, shift_ops(k)).rax == quotient(r.rax, pow2(k) as int),
        run(r, shift_ops(k)).mem == r.mem,
{
    bias_added(r, k);
    run_push(r, bias_ops(k), Op::SarRax(k));
    assert(k % 64 == k);
    shift_division(r.rax, k);
}

/// The size of the upper word of a product with a short number.
proof fn high_is_small(n: int, m: int)
    requires
        is_short(n),
        is_word(m),
    ensures
        -0x4000_0000_0000 - 1 <= n * m / 0x1_0000_0000_0000_0000 <= 0x4000_0000_0000,
{
    let x = n * m;
    assert(-0x8000_0000_0000 * 0x8000_0000_0000_0000 <= x <= 0x8000_0000_0000
        * 0x8000_0000_0000_0000) by (nonlinear_arith)
        requires
            x == n * m,
            -0x8000_0000_0000 <= n < 0x8000_0000_0000,
            -0x8000_0000_0000_0000 <= m < 0x8000_0000_0000_0000,
    ;
}

proof fn shift_is_small(a: int, s: nat)
    requires
        -0x1_0000_0000_0000 <= a <= 0x1_0000_0000_0000,
    ensures
        -0x1_0000_0000_0000 <= a / pow2(s) as int <= 0x1_0000_0000_0000,
{
    let d = pow2(s) as int;
    lemma_pow2_pos(s);
    lemma_fundamental_div_mod(a, d);
    lemma_mod_bound(a, d);
    let q = a / d;
    assert(-0x1_0000_0000_0000 <= q <= 0x1_0000_0000_0000) by (nonlinear_arith)
        requires
            a == d * q + a % d,
            0 <= a % d < d,
            d >= 1,
            -0x1_0000_0000_0000 <= a <= 0x1_0000_0000_0000,
    ;
}

proof fn sign_bit(b: int)
    requires
        is_word(b),
    ensures
        word(bits(b) / pow2(63) as int) == if b < 0 {
            1int
        } else {
            0
        },
{
    lemma2_to64();
    lemma2_to64_rest();
    reveal(bits);
    word_stays(0);
    word_stays(1);
}

/// The first steps of the division by multiplication: the upper word of the product.
proof fn high_part(r: Regs, m: i64, hi: int)
    requires
        is_short(r.rax),
        hi == r.rax * m / 0x1_0000_0000_0000_0000,
    ensures
        ({
            let t = run(r, seq![Op::Keep, Op::BigRdx(m as int), Op::High, Op::TakeRdx]);
            t.rax == hi && t.rcx == r.rax && t.mem == r.mem
        }),
{
    let a3 = seq![Op::Keep, Op::BigRdx(m as int), Op::High];
    run_three(r, Op::Keep, Op::BigRdx(m as int), Op::High);
    run_push(r, a3, Op::TakeRdx);
    assert(a3.push(Op::TakeRdx) =~= seq![Op::Keep, Op::BigRdx(m as int), Op::High, Op::TakeRdx]);
    word_stays(m as int);
}

/// The last steps: the sign bit is added.
proof fn sign_added(r: Regs)
    requires
        -0x1_0000_0000_0000 <= r.rax <= 0x1_0000_0000_0000,
    ensures
        ({
            let t = run(r, seq![Op::Keep, Op::ShiftRcx(63), Op::Plus]);
            &&& t.mem == r.mem
            &&& t.rax == r.rax + if r.rax < 0 {
                1int
            } else {
                0
            }
        }),
{
    run_three(r, Op::Keep, Op::ShiftRcx(63), Op::Plus);
    sign_bit(r.rax);
    word_stays(
        r.rax + if r.rax < 0 {
            1int
        } else {
            0
        },
    );
}

/// The steps in between.
proof fn middle_part(r: Regs, a: Seq<Op>, m: i64, s: nat, hi: int, n: int)
    requires
        s <= 63,
        run(r, a).rax == hi,
        run(r, a).rcx == n,
        run(r, a).mem == r.mem,
        is_short(n),
        -0x4000_0000_0000 - 1 <= hi <= 0x4000_0000_0000,
    ensures
        ({
            let b = if m < 0 {
                a.push(Op::Plus)
            } else {
                a
            };
            let c = if s > 0 {
                b.push(Op::SarRax(s))
            } else {
                b
            };
            let x = if m < 0 {
                hi + n
            } else {
                hi
            };
            run(r, c).rax == x / pow2(s) as int && run(r, c).mem == r.mem
        }),
{
    let b = if m < 0 {
        a.push(Op::Plus)
    } else {
        a
    };
    run_push(r, a, Op::Plus);
    word_stays(hi + n);
    run_push(r, b, Op::SarRax(s));
    lemma2_to64();
    assert(s % 64 == s);
    let x = run(r, b).rax;
    if s == 0 {
        assert(pow2(s) == 1);
        assert(x / 1 == x);
    } else {
        assert(run(r, b.push(Op::SarRax(s))).rax == x / pow2(s) as int);
    }
}

/// The steps of the division by multiplication.
proof fn magic_divides(r: Regs, m: i64, s: nat)
    requires
        is_short(r.rax),
        s <= 63,
    ensures
        run(r, magic_ops(m, s)).rax == magic_steps(r.rax, m, s),
        run(r, magic_ops(m, s)).mem == r.mem,
{
    let n = r.rax;
    let hi = n * m / 0x1_0000_0000_0000_0000;
    let a = seq![Op::Keep, Op::BigRdx(m as int), Op::High, Op::TakeRdx];
    high_part(r, m, hi);
    high_is_small(n, m as int);
    middle_part(r, a, m, s, hi, n);
    let b = if m < 0 {
        a.push(Op::Plus)
    } else {
        a
    };
    let c = if s > 0 {
        b.push(Op::SarRax(s))
    } else {
        b
    };
    let x = if m < 0 {
        hi + n
    } else {
        hi
    };
    shift_is_small(x, s);
    run_join(r, c, seq![Op::Keep, Op::ShiftRcx(63), Op::Plus]);
    sign_added(run(r, c));
}

/// The quotient of a short number by a short one is at most as large.
pub proof fn quotient_is_small(n: int, d: int)
    requires
        is_short(n),
        d != 0,
    ensures
        -0x8000_0000_0000 <= quotient(n, d) <= 0x8000_0000_0000,
{
    let a = if n < 0 {
        -n
    } else {
        n
    };
    let b = if d < 0 {
        -d
    } else {
        d
    };
    lemma_fundamental_div_mod(a, b);
    lemma_mod_bound(a, b);
    let q = a / b;
    assert(0 <= q <= a) by (nonlinear_arith)
        requires
            a == b * q + a % b,
            0 <= a % b < b,
            b >= 1,
            a >= 0,
    ;
}

/// Dividing by the negated divisor negates the quotient.
proof fn negated_quotient(n: int, d: int)
    requires
        d > 0,
    ensures
        quotient(n, -d) == -quotient(n, d),
{
}

proof fn quotient_by_one(n: int)
    ensures
        quotient(n, 1) == n,
{
}

/// The instructions for a division by a constant give the quotient of every short number,
/// rounded towards zero.
pub proof fn division_divides(r: Regs, d: i64)
    requires
        is_short(r.rax),
        is_short(d as int),
        d != 0,
    ensures
        run(r, div_ops(d)).rax == quotient(r.rax, d as int),
        run(r, div_ops(d)).mem == r.mem,
{
    let n = r.rax;
    let ad = magnitude(d) as int;
    quotient_by_one(n);
    negated_quotient(n, ad);
    quotient_is_small(n, ad);
    if d == 1 {
    } else if d == -1 {
        run_one(r, Op::Negate);
        word_stays(-n);
    } else {
        let s = match log2_exact(ad as nat) {
            Some(k) => if k == 0 {
                Seq::empty()
            } else {
                shift_ops(k)
            },
            None => magic_ops(magic_multiplier(ad), magic_shift(ad)),
        };
        match log2_exact(ad as nat) {
            Some(k) => {
                log_is_exact(ad as nat);
                lemma2_to64();
                lemma2_to64_rest();
                exponent_below(k, 47);
                shift_divides(r, k);
            },
            None => {
                assert(ad >= 3) by {
                    assert(log2_exact(1) == Some(0nat));
                    assert(log2_exact(2) == Some(1nat));
                }
                magic_is_magic(ad);
                magic_divides(r, magic_multiplier(ad), magic_shift(ad));
                magic_division(n, ad, magic_multiplier(ad), magic_shift(ad));
            },
        }
        assert(run(r, s).rax == quotient(n, ad));
        run_push(r, s, Op::Negate);
        word_stays(-quotient(n, ad));
    }
}

pub(crate) proof fn bias_written(g: Asm, s: Seq<Op>, k: nat)
    requires
        1 <= k <= 63,
    ensures
        emitted(g, s).p("    mov rcx, rax\n"@).p("    sar rcx, 63\n"@).p("    shr rcx, "@).u(
            (64 - k) as nat,
        ).p("\n"@).p("    add rax, rcx\n"@) == emitted(g, s + bias_ops(k)),
{
    shift_texts();
    let c = (64 - k) as nat;
    let s1 = s.push(Op::Keep);
    let s2 = s1.push(Op::SignRcx(63));
    let s3 = s2.push(Op::ShiftRcx(c));
    one_more(g, s, Op::Keep);
    one_more(g, s1, Op::SignRcx(63));
    with_count(emitted(g, s2), "    shr rcx, "@, c, "\n"@);
    one_more(g, s2, Op::ShiftRcx(c));
    one_more(g, s3, Op::Plus);
    assert(s3.push(Op::Plus) =~= s + bias_ops(k));
}

proof fn negated_written(g: Asm, s: Seq<Op>, d: i64)
    ensures
        emitted(g, signed_ops(s, d)) == if d < 0 {
            emitted(g, s).p("    neg rax\n"@)
        } else {
            emitted(g, s)
        },
{
    one_more(g, s, Op::Negate);
}

/// The code for a division by a constant is that of its instructions.
pub proof fn division_written(g: Asm, env: FnEnv, d: i64, s: Seq<Op>)
    requires
        is_short(d as int),
        d != 0,
    ensures
        const_div(emitted(g, s), env, d) == emitted(g, s + div_ops(d)),
{
    let h = emitted(g, s);
    if d == 1 {
        assert(s + div_ops(d) =~= s);
    } else if d == -1 {
        one_more(g, s, Op::Negate);
        assert(s.push(Op::Negate) =~= s + div_ops(d));
    } else {
        let ad = magnitude(d);
        match log2_exact(ad) {
            Some(k) => {
                log_is_exact(ad);
                lemma2_to64();
                lemma2_to64_rest();
                exponent_below(k, 47);
                assert(k >= 1);
                bias_written(g, s, k);
                let t = s + bias_ops(k);
                with_count(emitted(g, t), "    sar rax, "@, k, "\n"@);
                one_more(g, t, Op::SarRax(k));
                let u = t.push(Op::SarRax(k));
                negated_written(g, u, d);
                assert(u =~= s + shift_ops(k));
                assert(signed_ops(u, d) =~= s + div_ops(d));
            },
            None => {
                let m = magic_multiplier(ad as int);
                let k = magic_shift(ad as int);
                magic_written(g, s, m, k);
                let u = s + magic_ops(m, k);
                negated_written(g, u, d);
                assert(signed_ops(u, d) =~= s + div_ops(d));
            },
        }
    }
}

/// The texts of the division by multiplication.
pub open spec fn magic_text(h: Asm, m: i64, k: nat) -> Asm {
    let g16 = h.p("    mov rcx, rax\n"@).p("    movabs rdx, "@).n(m as int).p("\n"@).p(
        "    imul rdx\n"@,
    ).p("    mov rax, rdx\n"@);
    let g17 = if m < 0 {
        g16.p("    add rax, rcx\n"@)
    } else {
        g16
    };
    let g19 = if k > 0 {
        g17.p("    sar rax, "@).u(k).p("\n"@)
    } else {
        g17
    };
    g19.p("    mov rcx, rax\n"@).p("    shr rcx, 63\n"@).p("    add rax, rcx\n"@)
}

proof fn magic_written(g: Asm, s: Seq<Op>, m: i64, k: nat)
    ensures
        magic_text(emitted(g, s), m, k) == emitted(g, s + magic_ops(m, k)),
{
    shift_texts();
    let s1 = s.push(Op::Keep);
    let s2 = s1.push(Op::BigRdx(m as int));
    let s3 = s2.push(Op::High);
    let s4 = s3.push(Op::TakeRdx);
    one_more(g, s, Op::Keep);
    with_number(emitted(g, s1), "    movabs rdx, "@, m as int, "\n"@);
    one_more(g, s1, Op::BigRdx(m as int));
    one_more(g, s2, Op::High);
    one_more(g, s3, Op::TakeRdx);
    let s5 = if m < 0 {
        s4.push(Op::Plus)
    } else {
        s4
    };
    one_more(g, s4, Op::Plus);
    let s6 = if k > 0 {
        s5.push(Op::SarRax(k))
    } else {
        s5
    };
    with_count(emitted(g, s5), "    sar rax, "@, k, "\n"@);
    one_more(g, s5, Op::SarRax(k));
    let s7 = s6.push(Op::Keep);
    let s8 = s7.push(Op::ShiftRcx(63));
    one_more(g, s6, Op::Keep);
    one_more(g, s7, Op::ShiftRcx(63));
    one_more(g, s8, Op::Plus);
    assert(s8.push(Op::Plus) =~= s + magic_ops(m, k));
}

} // verus!
