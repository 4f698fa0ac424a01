//! The few instructions of which the arithmetic on unboxed integers is made, and what
//! they do.
//!
//! A register holds 64 bits, read with a sign. Variables and temporaries stand in other
//! registers or in the frame; the model knows them by what is written for them.

use crate::ast::{wrap48_range, wrap48_spec};
use crate::divide::{mask_remainder, quotient, remainder};
use crate::text::{dec, dec_nat};
use vstd::arithmetic::div_mod::{
    lemma_div_basics, lemma_fundamental_div_mod_converse, lemma_mod_bound,
    lemma_mod_multiples_vanish,
};
use vstd::arithmetic::power2::{
    lemma2_to64, lemma2_to64_rest, lemma_pow2_adds, lemma_pow2_pos, lemma_pow2_strictly_increases,
    pow2,
};
use vstd::bits::{lemma_low_bits_mask_values, lemma_u64_low_bits_mask_is_mod, low_bits_mask};
use vstd::prelude::*;

verus! {

/// The registers, and what stands at each place.
pub struct Regs {
    pub rax: int,
    pub rcx: int,
    pub rdx: int,
    pub r8: int,
    pub r9: int,
    pub mem: spec_fn(Seq<char>) -> int,
}

/// The instructions.
pub enum Op {
    /// `mov rcx, rax`
    Keep,
    /// `mov r8, rax`
    ToR8,
    /// `mov r9, rax`
    ToR9,
    /// `mov rax, rdx`
    TakeRdx,
    /// `mov rax, n`
    ConstRax(int),
    /// `mov rcx, n`
    ConstRcx(int),
    /// `mov r8, n`
    ConstR8(int),
    /// `mov r9, n`
    ConstR9(int),
    /// `movabs rcx, n`
    BigRcx(int),
    /// `movabs rdx, n`
    BigRdx(int),
    /// `mov rax, place`
    LoadRax(Seq<char>),
    /// `mov rcx, place`
    LoadRcx(Seq<char>),
    /// `mov r8, place`
    LoadR8(Seq<char>),
    /// `mov r9, place`
    LoadR9(Seq<char>),
    /// `mov [rbp + off], rax`
    Store(int),
    /// `sar rcx, k`
    SignRcx(nat),
    /// `shr rcx, k`
    ShiftRcx(nat),
    /// `sar rax, k`
    SarRax(nat),
    /// `add rax, rcx`
    Plus,
    /// `sub rax, rcx`
    Minus,
    /// `imul rax, rcx`
    Times,
    /// `imul rdx`
    High,
    /// `cqo` and `idiv rcx`
    Idiv,
    /// `and rax, m`
    Mask(u64),
    /// `add rax, n`
    PlusConst(i64),
    /// `sub rax, n`
    MinusConst(i64),
    /// `imul rax, rax, n`
    TimesConst(i64),
    /// `neg rax`
    Negate,
    /// `shl rax, 16` and `sar rax, 16`
    Unbox,
    /// A test of `rax`: where it is not 0, control goes to the label `other` and on from
    /// there, else through the text `zero` to the label `done` behind all.
    Unless { other: Seq<char>, done: Seq<char>, zero: Seq<char>, rest: Seq<Op> },
}

/// A place in the frame.
pub open spec fn slot_name(off: int) -> Seq<char> {
    "[rbp"@ + dec(off) + "]"@
}

/// What is written for an instruction.
pub open spec fn op_text(o: Op) -> Seq<char>
    decreases o,
{
    match o {
        Op::Keep => "    mov rcx, rax\n"@,
        Op::ToR8 => "    mov r8, rax\n"@,
        Op::ToR9 => "    mov r9, rax\n"@,
        Op::TakeRdx => "    mov rax, rdx\n"@,
        Op::ConstRax(n) => "    mov rax, "@ + dec(n) + "\n"@,
        Op::ConstRcx(n) => "    mov rcx, "@ + dec(n) + "\n"@,
        Op::ConstR8(n) => "    mov r8, "@ + dec(n) + "\n"@,
        Op::ConstR9(n) => "    mov r9, "@ + dec(n) + "\n"@,
        Op::BigRcx(n) => "    movabs rcx, "@ + dec(n) + "\n"@,
        Op::BigRdx(n) => "    movabs rdx, "@ + dec(n) + "\n"@,
        Op::LoadRax(p) => "    mov rax, "@ + p + "\n"@,
        Op::LoadRcx(p) => "    mov rcx, "@ + p + "\n"@,
        Op::LoadR8(p) => "    mov r8, "@ + p + "\n"@,
        Op::LoadR9(p) => "    mov r9, "@ + p + "\n"@,
        Op::Store(off) => "    mov [rbp"@ + dec(off) + "], rax\n"@,
        Op::SignRcx(k) => "    sar rcx, "@ + dec_nat(k) + "\n"@,
        Op::ShiftRcx(k) => "    shr rcx, "@ + dec_nat(k) + "\n"@,
        Op::SarRax(k) => "    sar rax, "@ + dec_nat(k) + "\n"@,
        Op::Plus => "    add rax, rcx\n"@,
        Op::Minus => "    sub rax, rcx\n"@,
        Op::Times => "    imul rax, rcx\n"@,
        Op::High => "    imul rdx\n"@,
        Op::Idiv => "    cqo\n    idiv rcx\n"@,
        Op::Mask(m) => "    and rax, "@ + dec(m as int) + "\n"@,
        Op::PlusConst(n) => "    add rax, "@ + dec(n as int) + "\n"@,
        Op::MinusConst(n) => "    sub rax, "@ + dec(n as int) + "\n"@,
        Op::TimesConst(n) => "    imul rax, rax, "@ + dec(n as int) + "\n"@,
        Op::Negate => "    neg rax\n"@,
        Op::Unbox => "    shl rax, 16\n    sar rax, 16\n"@,
        Op::Unless { other, done, zero, rest } => "    test rax, rax\n"@ + "    jne "@ + other
            + "\n"@ + zero + "    jmp "@ + done + "\n"@ + other + ":\n"@ + code(rest) + done
            + ":\n"@,
    }
}

pub open spec fn code(s: Seq<Op>) -> Seq<char>
    decreases s,
{
    if s.len() == 0 {
        Seq::empty()
    } else {
        code(s.drop_last()) + op_text(s.last())
    }
}

/// A number in 64 bits, read with a sign.
#[verifier::opaque]
pub open spec fn word(n: int) -> int {
    (n + 0x8000_0000_0000_0000) % 0x1_0000_0000_0000_0000 - 0x8000_0000_0000_0000
}

pub open spec fn is_word(n: int) -> bool {
    -0x8000_0000_0000_0000 <= n < 0x8000_0000_0000_0000
}

/// Whether a number fits in the 48 bits of an integer.
pub open spec fn is_short(n: int) -> bool {
    -0x8000_0000_0000 <= n < 0x8000_0000_0000
}

/// The bits of a word read without a sign.
#[verifier::opaque]
pub open spec fn bits(n: int) -> int {
    n % 0x1_0000_0000_0000_0000
}

/// What an instruction does. The processor takes the count of a shift modulo 64. A division
/// by 0, and one whose quotient needs more than a word, stop the program.
pub open spec fn step(r: Regs, o: Op) -> Regs
    decreases o,
{
    match o {
        Op::Keep => Regs { rcx: r.rax, ..r },
        Op::ToR8 => Regs { r8: r.rax, ..r },
        Op::ToR9 => Regs { r9: r.rax, ..r },
        Op::TakeRdx => Regs { rax: r.rdx, ..r },
        Op::ConstRax(n) => Regs { rax: word(n), ..r },
        Op::ConstRcx(n) => Regs { rcx: word(n), ..r },
        Op::ConstR8(n) => Regs { r8: word(n), ..r },
        Op::ConstR9(n) => Regs { r9: word(n), ..r },
        Op::BigRcx(n) => Regs { rcx: word(n), ..r },
        Op::BigRdx(n) => Regs { rdx: word(n), ..r },
        Op::LoadRax(p) => Regs { rax: (r.mem)(p), ..r },
        Op::LoadRcx(p) => Regs { rcx: (r.mem)(p), ..r },
        Op::LoadR8(p) => Regs { r8: (r.mem)(p), ..r },
        Op::LoadR9(p) => Regs { r9: (r.mem)(p), ..r },
        Op::Store(off) => Regs {
            mem: |p: Seq<char>|
                if p == slot_name(off) {
                    r.rax
                } else {
                    (r.mem)(p)
                },
            ..r
        },
        Op::SignRcx(k) => Regs { rcx: r.rcx / pow2(k % 64) as int, ..r },
        Op::ShiftRcx(k) => Regs { rcx: word(bits(r.rcx) / pow2(k % 64) as int), ..r },
        Op::SarRax(k) => Regs { rax: r.rax / pow2(k % 64) as int, ..r },
        Op::Plus => Regs { rax: word(r.rax + r.rcx), ..r },
        Op::Minus => Regs { rax: word(r.rax - r.rcx), ..r },
        Op::Times => Regs { rax: word(r.rax * r.rcx), ..r },
        Op::High => Regs {
            rax: word(r.rax * r.rdx),
            rdx: r.rax * r.rdx / 0x1_0000_0000_0000_0000,
            ..r
        },
        Op::Idiv => if r.rcx != 0 && is_word(quotient(r.rax, r.rcx)) {
            Regs { rax: quotient(r.rax, r.rcx), rdx: remainder(r.rax, r.rcx), ..r }
        } else {
            arbitrary()
        },
        Op::Mask(m) => Regs { rax: word(((bits(r.rax) as u64) & m) as int), ..r },
        Op::PlusConst(n) => Regs { rax: word(r.rax + n), ..r },
        Op::MinusConst(n) => Regs { rax: word(r.rax - n), ..r },
        Op::TimesConst(n) => Regs { rax: word(r.rax * n), ..r },
        Op::Negate => Regs { rax: word(-r.rax), ..r },
        Op::Unbox => Regs { rax: word(r.rax * 0x1_0000) / 0x1_0000, ..r },
        Op::Unless { rest, .. } => if r.rax != 0 {
            run(r, rest)
        } else {
            arbitrary()
        },
    }
}

pub open spec fn run(r: Regs, s: Seq<Op>) -> Regs
    decreases s,
{
    if s.len() == 0 {
        r
    } else {
        step(run(r, s.drop_last()), s.last())
    }
}

pub(crate) proof fn run_push(r: Regs, s: Seq<Op>, o: Op)
    ensures
        run(r, s.push(o)) == step(run(r, s), o),
        code(s.push(o)) == code(s) + op_text(o),
{
    assert(s.push(o).drop_last() =~= s);
}

/// Code behind code runs on what the first left.
pub proof fn run_join(r: Regs, a: Seq<Op>, b: Seq<Op>)
    ensures
        run(r, a + b) == run(run(r, a), b),
        code(a + b) == code(a) + code(b),
    decreases b.len(),
{
    if b.len() == 0 {
        assert(a + b =~= a);
        assert(code(a) + code(b) =~= code(a));
    } else {
        assert((a + b).drop_last() =~= a + b.drop_last());
        assert((a + b).last() == b.last());
        run_join(r, a, b.drop_last());
        assert(code(a + b) =~= code(a) + code(b));
    }
}

pub(crate) proof fn run_one(r: Regs, a: Op)
    ensures
        run(r, seq![a]) == step(r, a),
        code(seq![a]) == op_text(a),
{
    let e = Seq::<Op>::empty();
    run_push(r, e, a);
    assert(e.push(a) =~= seq![a]);
    assert(code(e) + op_text(a) =~= op_text(a));
}

pub(crate) proof fn run_two(r: Regs, a: Op, b: Op)
    ensures
        run(r, seq![a, b]) == step(step(r, a), b),
        code(seq![a, b]) == op_text(a) + op_text(b),
{
    run_one(r, a);
    run_push(r, seq![a], b);
    assert(seq![a].push(b) =~= seq![a, b]);
}

pub(crate) proof fn run_three(r: Regs, a: Op, b: Op, c: Op)
    ensures
        run(r, seq![a, b, c]) == step(step(step(r, a), b), c),
        code(seq![a, b, c]) == op_text(a) + op_text(b) + op_text(c),
{
    run_two(r, a, b);
    run_push(r, seq![a, b], c);
    assert(seq![a, b].push(c) =~= seq![a, b, c]);
}

/// Unboxing brings a word back into 48 bits.
pub proof fn unbox_wraps(n: int)
    ensures
        word(n * 0x1_0000) / 0x1_0000 == wrap48_spec(n),
{
    reveal(word);
    let w = wrap48_spec(n);
    let q = (n + 0x8000_0000_0000) / 0x1_0000_0000_0000;
    wrap48_range(n);
    assert(n == w + 0x1_0000_0000_0000 * q);
    assert(n * 0x1_0000 == w * 0x1_0000 + 0x1_0000_0000_0000_0000 * q);
    assert(word(n * 0x1_0000) == w * 0x1_0000);
}

/// Reading a number as a word first does not change how it wraps.
pub proof fn word_wraps(n: int)
    ensures
        wrap48_spec(word(n)) == wrap48_spec(n),
{
    reveal(word);
    let q = (n + 0x8000_0000_0000_0000) / 0x1_0000_0000_0000_0000;
    let m = 0x1_0000_0000_0000int;
    assert(word(n) + 0x8000_0000_0000 == m * (-0x1_0000 * q) + (n + 0x8000_0000_0000));
    lemma_mod_multiples_vanish(-0x1_0000 * q, n + 0x8000_0000_0000, m);
}

pub(crate) proof fn word_stays(n: int)
    requires
        is_word(n),
    ensures
        word(n) == n,
{
    reveal(word);
}

pub(crate) proof fn powers(k: nat)
    requires
        1 <= k <= 62,
    ensures
        pow2(64) == 0x1_0000_0000_0000_0000,
        pow2(63) == 0x8000_0000_0000_0000,
        pow2((64 - k) as nat) * pow2(k) == 0x1_0000_0000_0000_0000,
        2 <= pow2(k) <= 0x4000_0000_0000_0000,
        (0x1_0000_0000_0000_0000 - 1) / pow2((64 - k) as nat) as int == pow2(k) - 1,
{
    lemma2_to64();
    lemma2_to64_rest();
    lemma_pow2_adds((64 - k) as nat, k);
    lemma_pow2_pos(k);
    lemma_pow2_pos((64 - k) as nat);
    if k > 1 {
        lemma_pow2_strictly_increases(1, k);
    }
    if k < 62 {
        lemma_pow2_strictly_increases(k, 62);
    }
    let a = pow2((64 - k) as nat) as int;
    let b = pow2(k) as int;
    assert(0x1_0000_0000_0000_0000 - 1 == (b - 1) * a + (a - 1)) by (nonlinear_arith)
        requires
            a * b == 0x1_0000_0000_0000_0000,
    ;
    lemma_fundamental_div_mod_converse(0x1_0000_0000_0000_0000 - 1, a, b - 1, a - 1);
}

pub(crate) proof fn sign_of(n: int)
    requires
        is_word(n),
    ensures
        n / 0x8000_0000_0000_0000 == if n < 0 {
            -1int
        } else {
            0
        },
{
}

pub(crate) proof fn bias_of(sign: int, k: nat)
    requires
        1 <= k <= 62,
        sign == -1 || sign == 0,
    ensures
        word(bits(sign) / pow2((64 - k) as nat) as int) == if sign == -1 {
            pow2(k) - 1
        } else {
            0
        },
{
    powers(k);
    reveal(bits);
    lemma_pow2_pos((64 - k) as nat);
    lemma_div_basics(pow2((64 - k) as nat) as int);
    if sign == -1 {
        assert(bits(sign) == 0x1_0000_0000_0000_0000 - 1);
        word_stays(pow2(k) - 1);
    } else {
        assert(bits(sign) == 0);
        word_stays(0);
    }
}

/// The instructions that raise a negative number by `2^k - 1`.
pub open spec fn bias_ops(k: nat) -> Seq<Op> {
    seq![Op::Keep, Op::SignRcx(63), Op::ShiftRcx((64 - k) as nat), Op::Plus]
}

pub(crate) proof fn bias_added(r: Regs, k: nat)
    requires
        1 <= k <= 62,
        is_word(r.rax),
    ensures
        ({
            let bias = if r.rax < 0 {
                pow2(k) - 1
            } else {
                0
            };
            run(r, bias_ops(k)) == Regs { rax: r.rax + bias, rcx: bias, ..r }
        }),
{
    let n = r.rax;
    powers(k);
    let sign: int = if n < 0 {
        -1
    } else {
        0
    };
    let bias: int = if n < 0 {
        pow2(k) - 1
    } else {
        0
    };
    let a = seq![Op::Keep, Op::SignRcx(63), Op::ShiftRcx((64 - k) as nat)];
    run_three(r, Op::Keep, Op::SignRcx(63), Op::ShiftRcx((64 - k) as nat));
    run_push(r, a, Op::Plus);
    assert(a.push(Op::Plus) =~= bias_ops(k));
    sign_of(n);
    bias_of(sign, k);
    assert(run(r, a) == Regs { rcx: bias, ..r });
    word_stays(n + bias);
}

/// The instructions for the remainder by `2^k`.
pub open spec fn mask_ops(k: nat) -> Seq<Op> {
    bias_ops(k) + seq![Op::Mask((pow2(k) - 1) as u64), Op::Minus]
}

/// The low bits of a word are those of the number.
proof fn low_bits(x: int, k: nat)
    requires
        1 <= k <= 62,
    ensures
        bits(x) % pow2(k) as int == x % pow2(k) as int,
{
    powers(k);
    reveal(bits);
    let (a, d) = (pow2((64 - k) as nat) as int, pow2(k) as int);
    let q = x / 0x1_0000_0000_0000_0000;
    assert(x == bits(x) + d * (a * q)) by (nonlinear_arith)
        requires
            x == bits(x) + 0x1_0000_0000_0000_0000 * q,
            a * d == 0x1_0000_0000_0000_0000,
    ;
    lemma_mod_multiples_vanish(a * q, bits(x), d);
}

proof fn masked(x: int, k: nat)
    requires
        1 <= k <= 31,
    ensures
        word(((bits(x) as u64) & ((pow2(k) - 1) as u64)) as int) == x % pow2(k) as int,
{
    powers(k);
    let d = pow2(k) as int;
    assert(0 <= bits(x) < 0x1_0000_0000_0000_0000) by {
        reveal(bits);
    }
    let u = bits(x) as u64;
    let m = (pow2(k) - 1) as u64;
    assert(m == low_bits_mask(k)) by {
        lemma_low_bits_mask_values();
        reveal(low_bits_mask);
    }
    lemma_u64_low_bits_mask_is_mod(u, k);
    low_bits(x, k);
    assert(0 <= x % d < d) by {
        lemma_mod_bound(x, d);
    }
    word_stays(x % d);
}

/// Masking gives the remainder of every word, rounded towards zero.
pub proof fn mask_gives_remainder(r: Regs, k: nat)
    requires
        1 <= k <= 31,
        is_word(r.rax),
    ensures
        run(r, mask_ops(k)).rax == remainder(r.rax, pow2(k) as int),
        run(r, mask_ops(k)).mem == r.mem,
{
    let n = r.rax;
    let d = pow2(k) as int;
    powers(k);
    let bias: int = if n < 0 {
        d - 1
    } else {
        0
    };
    let tail = seq![Op::Mask((pow2(k) - 1) as u64), Op::Minus];
    run_join(r, bias_ops(k), tail);
    bias_added(r, k);
    let r1 = run(r, bias_ops(k));
    run_two(r1, Op::Mask((pow2(k) - 1) as u64), Op::Minus);
    let x = n + bias;
    masked(x, k);
    lemma_mod_bound(x, d);
    word_stays(x % d - bias);
    mask_remainder(n, k);
}

} // verus!
