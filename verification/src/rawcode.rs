//! The code for unboxed integers gives what the interpreter gives.
//!
//! This holds of expressions made of constants and variables that live unboxed, with
//! negation, sums, differences, products, quotients, remainders and small powers, and of
//! comparisons of such.

use crate::analysis::is_comparison;
use crate::asmexpr::{cond_false, eval_raw, int_operands, raw_binary, raw_neg, raw_power, var_div};
use crate::asmquery::{
    const_of, imm32, int_value, is_int_comparison, jcc_false, mask_bits, raw_form, raw_operand,
    small_exp, RawForm,
};
use crate::asmstate::{Asm, FnEnv, MAX_FRAME};
use crate::ast::{wrap48_range, wrap48_ring, wrap48_spec, BinOp, ExprView};
use crate::constdiv::{
    bias_written, div_ops, division_divides, division_written, emitted, exponent_below,
    log_is_exact, nothing_yet, one_more, quotient_is_small, with_number, with_text,
};
use crate::desugar::dec_nat_injective;
use crate::divide::{quotient, remainder};
use crate::machine::{
    bias_ops, code, is_short, mask_gives_remainder, mask_ops, op_text, run, run_join, run_one,
    run_push, run_three, run_two, slot_name, step, unbox_wraps, word, word_stays, word_wraps, Op,
    Regs,
};
use crate::operate::{int_binop, power48, OutView};
use crate::text::{dec, dec_nat};
use crate::value::ValueView;
use vstd::arithmetic::power2::pow2;
use vstd::prelude::*;

verus! {

/// The code for an expression.
#[verifier::opaque]
pub open spec fn raw_text(g: Asm, env: FnEnv, e: ExprView) -> Asm {
    eval_raw(g, env, e)
}

/// The code for an operation, before its result is brought into 48 bits.
#[verifier::opaque]
pub open spec fn bin_text(g: Asm, env: FnEnv, e: ExprView) -> Asm {
    raw_binary(g, env, e)
}

/// Whether the code for an expression is made of arithmetic alone.
pub open spec fn pure(env: FnEnv, e: ExprView) -> bool
    decreases e,
{
    match raw_form(env, e) {
        RawForm::Const => true,
        RawForm::Var => true,
        RawForm::Neg => pure(env, *e->Unary_expr),
        RawForm::Arith => pure(env, *e->Binary_lhs) && pure(env, *e->Binary_rhs),
        RawForm::Power => pure(env, *e->Binary_lhs),
        _ => false,
    }
}

/// The integer that a step of the interpreter gives.
pub open spec fn given(o: OutView) -> int {
    match o {
        OutView::Give(ValueView::Int(n)) => n as int,
        _ => 0,
    }
}

/// What the interpreter gives for an expression where the variables have the values `vals`.
pub open spec fn raw_value(e: ExprView, vals: Map<Seq<char>, int>) -> int
    decreases e,
{
    match e {
        ExprView::Int(n) => wrap48_spec(n as int),
        ExprView::Ident(n) => vals[n],
        ExprView::Unary { expr, .. } => wrap48_spec(-raw_value(*expr, vals)),
        ExprView::Binary { op, lhs, rhs } => given(
            int_binop(op, raw_value(*lhs, vals) as i64, raw_value(*rhs, vals) as i64),
        ),
        _ => 0,
    }
}

/// Whether every variable has a value and nothing is divided by 0.
pub open spec fn defined(e: ExprView, vals: Map<Seq<char>, int>) -> bool
    decreases e,
{
    match e {
        ExprView::Ident(n) => vals.contains_key(n),
        ExprView::Unary { expr, .. } => defined(*expr, vals),
        ExprView::Binary { op, lhs, rhs } => {
            &&& defined(*lhs, vals)
            &&& defined(*rhs, vals)
            &&& divides(op) ==> raw_value(*rhs, vals) != 0
        },
        _ => true,
    }
}

pub open spec fn divides(op: BinOp) -> bool {
    op == BinOp::Div || op == BinOp::Mod
}

/// How many parts an expression has.
pub open spec fn size(e: ExprView) -> nat
    decreases e,
{
    match e {
        ExprView::Unary { expr, .. } => 1 + size(*expr),
        ExprView::Binary { lhs, rhs, .. } => 1 + size(*lhs) + size(*rhs),
        _ => 1,
    }
}

/// Where a variable stands: in a register of its own or in the frame.
pub open spec fn place_of(g: Asm, n: Seq<char>) -> Seq<char> {
    match g.int_loc_of(n) {
        Some(r) => r,
        None => slot_name(g.locals[n] as int),
    }
}

pub open spec fn has_place(g: Asm, n: Seq<char>) -> bool {
    g.int_loc.contains_key(n) || g.locals.contains_key(n)
}

/// Whether a place is none of those that the code writes to: no scratch register, and none
/// of the frame below what is in use.
pub open spec fn lasting(stack: int, p: Seq<char>) -> bool {
    &&& forall|s: int| s > stack ==> p != #[trigger] slot_name(-s)
    &&& p != "rax"@ && p != "rcx"@ && p != "rdx"@ && p != "r8"@ && p != "r9"@
}

/// Whether the variables stand in their places.
pub open spec fn holds(g: Asm, vals: Map<Seq<char>, int>, mem: spec_fn(Seq<char>) -> int) -> bool {
    forall|n: Seq<char>| #[trigger]
        vals.contains_key(n) ==> {
            &&& has_place(g, n)
            &&& is_short(vals[n])
            &&& mem(place_of(g, n)) == vals[n]
            &&& lasting(g.stack as int, place_of(g, n))
        }
}

/// Whether an expression is an operand as it stands.
pub open spec fn is_operand(env: FnEnv, e: ExprView) -> bool {
    match e {
        ExprView::Int(_) => true,
        ExprView::Ident(n) => env.raw_int.contains(n),
        _ => false,
    }
}

pub open spec fn rcx_of(g: Asm, e: ExprView) -> Op {
    match e {
        ExprView::Ident(n) => Op::LoadRcx(place_of(g, n)),
        _ => Op::ConstRcx(int_value(e) as int),
    }
}

pub open spec fn rax_of(g: Asm, e: ExprView) -> Op {
    match e {
        ExprView::Ident(n) => Op::LoadRax(place_of(g, n)),
        _ => Op::ConstRax(int_value(e) as int),
    }
}

pub open spec fn ring(op: BinOp) -> Op {
    if op == BinOp::Add {
        Op::Plus
    } else if op == BinOp::Sub {
        Op::Minus
    } else {
        Op::Times
    }
}

/// The instruction for a sum, a difference or a product with a constant.
pub open spec fn const_op(op: BinOp, n: i64) -> Op {
    if op == BinOp::Add {
        Op::PlusConst(n)
    } else if op == BinOp::Sub {
        Op::MinusConst(n)
    } else {
        Op::TimesConst(n)
    }
}

/// The code of the left operand with its value put into a temporary.
pub open spec fn spilled(h: Asm) -> Asm {
    let (g, lt) = h.temp();
    g.p("    mov [rbp"@).n(lt as int).p("], rax\n"@)
}

/// What is written for a division by 0, which ends in an error of the runtime.
pub open spec fn zero_text(lt: int, is_mod: bool) -> Seq<char> {
    let boxing = "    mov rcx, 0xFFFFFFFFFFFF\n    and rax, rcx\n"@
        + "    mov rcx, 0x7FF9000000000000\n    or rax, rcx\n"@;
    boxing + "    mov rdx, rax\n"@ + ("    mov rax, [rbp"@ + dec(lt) + "]\n"@) + boxing
        + "    mov rcx, rax\n"@ + (if is_mod {
        "    call lumen_mod\n"@
    } else {
        "    call lumen_div\n"@
    }) + "    shl rax, 16\n    sar rax, 16\n"@
}

pub open spec fn idiv_ops(lt: int, is_mod: bool) -> Seq<Op> {
    let s = seq![Op::Keep, Op::LoadRax(slot_name(lt)), Op::Idiv];
    if is_mod {
        s.push(Op::TakeRdx)
    } else {
        s
    }
}

/// The division of a temporary by a variable.
pub open spec fn var_div_op(h: Asm, lt: int, is_mod: bool) -> Op {
    let (h1, nz) = h.new_label("divnz"@);
    Op::Unless {
        other: nz,
        done: h1.new_label("divdone"@).1,
        zero: zero_text(lt, is_mod),
        rest: idiv_ops(lt, is_mod),
    }
}

/// The instructions for a remainder by a constant that is no power of two.
pub open spec fn mod_ops(nt: int, d: i64) -> Seq<Op> {
    seq![Op::Store(nt)] + div_ops(d) + seq![
        Op::BigRcx(d as int),
        Op::Times,
        Op::Keep,
        Op::LoadRax(slot_name(nt)),
        Op::Minus,
    ]
}

/// `n` products with a temporary.
pub open spec fn times_ops(bt: int, n: nat) -> Seq<Op>
    decreases n,
{
    if n == 0 {
        Seq::empty()
    } else {
        times_ops(bt, (n - 1) as nat) + seq![Op::LoadRcx(slot_name(bt)), Op::Times]
    }
}

/// The instructions for an operation, given those for its operands.
pub open spec fn binary_ops(
    g: Asm,
    h: Asm,
    env: FnEnv,
    op: BinOp,
    lhs: ExprView,
    rhs: ExprView,
    a: Seq<Op>,
    b: Seq<Op>,
    c: Seq<Op>,
    k: Asm,
) -> Seq<Op> {
    let d = const_of(rhs);
    let lt = h.temp().1 as int;
    if divides(op) && d != 0 {
        if op == BinOp::Div {
            a + div_ops(d)
        } else if mask_bits(d) is Some {
            a + mask_ops(mask_bits(d)->Some_0)
        } else {
            a + mod_ops(lt, d)
        }
    } else if divides(op) {
        a.push(Op::Store(lt)) + c + seq![var_div_op(k, lt, op == BinOp::Mod)]
    } else if is_operand(env, rhs) {
        match imm32(rhs) {
            Some(n) => a + seq![const_op(op, n)],
            None => a + seq![rcx_of(g, rhs), ring(op)],
        }
    } else if is_operand(env, lhs) {
        if op == BinOp::Sub {
            b + seq![Op::Keep, rax_of(g, lhs), Op::Minus]
        } else {
            b + seq![rcx_of(g, lhs), ring(op)]
        }
    } else if op == BinOp::Sub {
        a.push(Op::Store(lt)) + c + seq![Op::Keep, Op::LoadRax(slot_name(lt)), Op::Minus]
    } else {
        a.push(Op::Store(lt)) + c + seq![Op::LoadRcx(slot_name(lt)), ring(op)]
    }
}

/// The instructions for an expression.
#[verifier::opaque]
pub open spec fn raw_ops(g: Asm, env: FnEnv, e: ExprView) -> Seq<Op>
    decreases e,
{
    match raw_form(env, e) {
        RawForm::Const => seq![Op::ConstRax(int_value(e) as int)],
        RawForm::Var => seq![Op::LoadRax(place_of(g, e->Ident_0))],
        RawForm::Neg => raw_ops(g, env, *e->Unary_expr) + seq![Op::Negate, Op::Unbox],
        RawForm::Arith => {
            let (lhs, rhs) = (*e->Binary_lhs, *e->Binary_rhs);
            let h = raw_text(g, env, lhs);
            let k = spilled(h);
            binary_ops(
                g,
                h,
                env,
                e->Binary_op,
                lhs,
                rhs,
                raw_ops(g, env, lhs),
                raw_ops(g, env, rhs),
                raw_ops(k, env, rhs),
                raw_text(k, env, rhs),
            ).push(Op::Unbox)
        },
        RawForm::Power => {
            let h = raw_text(g, env, *e->Binary_lhs);
            let bt = h.temp().1 as int;
            let n = small_exp(*e->Binary_rhs);
            (if n == 0 {
                seq![Op::ConstRax(1)]
            } else {
                raw_ops(g, env, *e->Binary_lhs).push(Op::Store(bt)) + times_ops(
                    bt,
                    (n - 1) as nat,
                )
            }).push(Op::Unbox)
        },
        _ => Seq::empty(),
    }
}

/// Whether `h` is `g` with the texts of instructions behind it; what is in use of the frame
/// and the number of labels may have grown.
pub open spec fn written(g: Asm, h: Asm, s: Seq<Op>) -> bool {
    h == (Asm {
        out: g.out + code(s),
        stack: h.stack,
        label_count: h.label_count,
        ..g
    })
}

/// `g` with the frame and the labels of `h`.
pub open spec fn grown(g: Asm, h: Asm) -> Asm {
    Asm { stack: h.stack, label_count: h.label_count, ..g }
}

proof fn joined(g: Asm, s: Seq<Op>, h: Asm, b: Seq<Op>)
    requires
        written(emitted(g, s), h, b),
    ensures
        h == emitted(grown(g, h), s + b),
{
    run_join(arbitrary(), s, b);
    assert(g.out + code(s) + code(b) =~= g.out + code(s + b));
}

proof fn two_texts(g: Asm, a: Seq<char>, b: Seq<char>)
    ensures
        g.p(a).p(b) == g.p(a + b),
{
    reveal(Asm::p);
    assert(g.p(a).p(b).out =~= g.p(a + b).out);
}

/// What is written for a place in the frame is in pieces.
proof fn slot_texts(off: int)
    ensures
        "    mov rax, [rbp"@ + dec(off) + "]\n"@ == op_text(Op::LoadRax(slot_name(off))),
        "    mov rcx, [rbp"@ + dec(off) + "]\n"@ == op_text(Op::LoadRcx(slot_name(off))),
        "    mov r8, [rbp"@ + dec(off) + "]\n"@ == op_text(Op::LoadR8(slot_name(off))),
{
    reveal_strlit("    mov rax, [rbp");
    reveal_strlit("    mov rcx, [rbp");
    reveal_strlit("    mov r8, [rbp");
    reveal_strlit("    mov rax, ");
    reveal_strlit("    mov rcx, ");
    reveal_strlit("    mov r8, ");
    reveal_strlit("[rbp");
    reveal_strlit("]\n");
    reveal_strlit("]");
    reveal_strlit("\n");
    assert("]\n"@ =~= "]"@ + "\n"@);
    assert("    mov rax, [rbp"@ =~= "    mov rax, "@ + "[rbp"@);
    assert("    mov rcx, [rbp"@ =~= "    mov rcx, "@ + "[rbp"@);
    assert("    mov r8, [rbp"@ =~= "    mov r8, "@ + "[rbp"@);
    assert("    mov rax, [rbp"@ + dec(off) + "]\n"@ =~= op_text(Op::LoadRax(slot_name(off))));
    assert("    mov rcx, [rbp"@ + dec(off) + "]\n"@ =~= op_text(Op::LoadRcx(slot_name(off))));
    assert("    mov r8, [rbp"@ + dec(off) + "]\n"@ =~= op_text(Op::LoadR8(slot_name(off))));
}

proof fn load_rax_written(g: Asm, s: Seq<Op>, off: int)
    ensures
        emitted(g, s).p("    mov rax, [rbp"@).n(off).p("]\n"@) == emitted(
            g,
            s.push(Op::LoadRax(slot_name(off))),
        ),
{
    slot_texts(off);
    with_number(emitted(g, s), "    mov rax, [rbp"@, off, "]\n"@);
    one_more(g, s, Op::LoadRax(slot_name(off)));
}

proof fn load_rcx_written(g: Asm, s: Seq<Op>, off: int)
    ensures
        emitted(g, s).p("    mov rcx, [rbp"@).n(off).p("]\n"@) == emitted(
            g,
            s.push(Op::LoadRcx(slot_name(off))),
        ),
{
    slot_texts(off);
    with_number(emitted(g, s), "    mov rcx, [rbp"@, off, "]\n"@);
    one_more(g, s, Op::LoadRcx(slot_name(off)));
}

proof fn unbox_written(g: Asm, s: Seq<Op>)
    ensures
        emitted(g, s).unbox_int() == emitted(g, s.push(Op::Unbox)),
{
    reveal(Asm::unbox_int);
    one_more(g, s, Op::Unbox);
}

/// A temporary is the next place in the frame.
proof fn temp_written(g: Asm, s: Seq<Op>)
    requires
        0 <= g.stack <= MAX_FRAME,
    ensures
        ({
            let t = emitted(g, s).temp();
            let g1 = Asm { stack: (g.stack + 8) as i64, ..g };
            &&& t.1 == -(g.stack + 8)
            &&& t.0 == emitted(g1, s)
            &&& spilled(emitted(g, s)) == emitted(g1, s.push(Op::Store(t.1 as int)))
        }),
{
    reveal(Asm::temp);
    reveal(Asm::grow);
    let g1 = Asm { stack: (g.stack + 8) as i64, ..g };
    let lt = emitted(g, s).temp().1;
    with_number(emitted(g1, s), "    mov [rbp"@, lt as int, "], rax\n"@);
    one_more(g1, s, Op::Store(lt as int));
}

/// An operand as it stands is written so.
proof fn operand_texts(g: Asm, env: FnEnv, e: ExprView)
    requires
        is_operand(env, e),
        e is Ident ==> has_place(g, e->Ident_0),
    ensures
        ({
            let t = raw_operand(g, env, e);
            &&& t is Some
            &&& "    mov rcx, "@ + t->Some_0 + "\n"@ == op_text(rcx_of(g, e))
            &&& "    mov rax, "@ + t->Some_0 + "\n"@ == op_text(rax_of(g, e))
        }),
{
}

/// What is no operand is not written as one.
proof fn no_operand(g: Asm, env: FnEnv, e: ExprView)
    requires
        !is_operand(env, e),
    ensures
        raw_operand(g, env, e) is None,
        imm32(e) is None,
        const_of(e) == 0,
{
}

/// The modulus of a mask is a power of two.
proof fn mask_is_power(d: i64)
    requires
        mask_bits(d) is Some,
    ensures
        pow2(mask_bits(d)->Some_0) == d,
        1 <= mask_bits(d)->Some_0 <= 31,
{
    log_is_exact(d as nat);
    vstd::arithmetic::power2::lemma2_to64();
    exponent_below(mask_bits(d)->Some_0, 31);
}

proof fn mask_written(g: Asm, env: FnEnv, e: ExprView, g1: Asm, a: Seq<Op>)
    requires
        e is Binary,
        e->Binary_op == BinOp::Mod,
        mask_bits(const_of(*e->Binary_rhs)) is Some,
        raw_text(g, env, *e->Binary_lhs) == emitted(g1, a),
    ensures
        bin_text(g, env, e) == emitted(
            g1,
            a + mask_ops(mask_bits(const_of(*e->Binary_rhs))->Some_0),
        ),
{
    reveal(raw_text);
    reveal(bin_text);
    let d = const_of(*e->Binary_rhs);
    let k = mask_bits(d)->Some_0;
    let mask = (d - 1) as i64;
    let h = emitted(g1, a);
    mask_is_power(d);
    let h1 = h.p("    mov rcx, rax\n"@).p("    sar rcx, 63\n"@).p("    shr rcx, "@).u(
        (64 - k) as nat,
    ).p("\n"@).p("    add rax, rcx\n"@);
    assert(bin_text(g, env, e) == h1.p("    and rax, "@).n(mask as int).p("\n"@).p(
        "    sub rax, rcx\n"@,
    ));
    bias_written(g1, a, k);
    let s = a + bias_ops(k);
    let m = (pow2(k) - 1) as u64;
    with_number(emitted(g1, s), "    and rax, "@, mask as int, "\n"@);
    one_more(g1, s, Op::Mask(m));
    one_more(g1, s.push(Op::Mask(m)), Op::Minus);
    assert(s.push(Op::Mask(m)).push(Op::Minus) =~= a + mask_ops(k));
}

proof fn div_written(g: Asm, env: FnEnv, e: ExprView, g1: Asm, a: Seq<Op>)
    requires
        e is Binary,
        e->Binary_op == BinOp::Div,
        const_of(*e->Binary_rhs) != 0,
        raw_text(g, env, *e->Binary_lhs) == emitted(g1, a),
    ensures
        bin_text(g, env, e) == emitted(g1, a + div_ops(const_of(*e->Binary_rhs))),
{
    reveal(raw_text);
    reveal(bin_text);
    let d = const_of(*e->Binary_rhs);
    const_is_short(*e->Binary_rhs);
    division_written(g1, env, d, a);
    assert(bin_text(g, env, e) == crate::asmexpr::const_div(emitted(g1, a), env, d));
}

proof fn const_is_short(e: ExprView)
    ensures
        is_short(int_value(e) as int),
        const_of(e) == int_value(e),
{
    if let ExprView::Int(n) = e {
        wrap48_range(n as int);
    }
}

proof fn mod_written(g: Asm, env: FnEnv, e: ExprView, g1: Asm, a: Seq<Op>)
    requires
        e is Binary,
        e->Binary_op == BinOp::Mod,
        const_of(*e->Binary_rhs) != 0,
        mask_bits(const_of(*e->Binary_rhs)) is None,
        raw_text(g, env, *e->Binary_lhs) == emitted(g1, a),
        0 <= g1.stack <= MAX_FRAME,
    ensures
        bin_text(g, env, e) == emitted(
            Asm { stack: (g1.stack + 8) as i64, ..g1 },
            a + mod_ops(-(g1.stack + 8), const_of(*e->Binary_rhs)),
        ),
{
    reveal(raw_text);
    reveal(bin_text);
    let d = const_of(*e->Binary_rhs);
    const_is_short(*e->Binary_rhs);
    let h = emitted(g1, a);
    let g2 = Asm { stack: (g1.stack + 8) as i64, ..g1 };
    temp_written(g1, a);
    let nt = h.temp().1;
    let s1 = a.push(Op::Store(nt as int));
    division_written(g2, env, d, s1);
    let s2 = s1 + div_ops(d);
    let h2 = emitted(g2, s2);
    assert(bin_text(g, env, e) == h2.p("    movabs rcx, "@).n(d as int).p("\n"@).p(
        "    imul rax, rcx\n"@,
    ).p("    mov rcx, rax\n"@).p("    mov rax, [rbp"@).n(nt as int).p("]\n"@).p(
        "    sub rax, rcx\n"@,
    ));
    with_number(h2, "    movabs rcx, "@, d as int, "\n"@);
    let s3 = s2.push(Op::BigRcx(d as int));
    let s4 = s3.push(Op::Times);
    let s5 = s4.push(Op::Keep);
    let s6 = s5.push(Op::LoadRax(slot_name(nt as int)));
    one_more(g2, s2, Op::BigRcx(d as int));
    one_more(g2, s3, Op::Times);
    one_more(g2, s4, Op::Keep);
    load_rax_written(g2, s5, nt as int);
    one_more(g2, s6, Op::Minus);
    assert(s6.push(Op::Minus) =~= a + mod_ops(nt as int, d));
}

proof fn imm_written(g: Asm, env: FnEnv, e: ExprView, g1: Asm, a: Seq<Op>, n: i64)
    requires
        e is Binary,
        e->Binary_op == BinOp::Add || e->Binary_op == BinOp::Sub || e->Binary_op == BinOp::Mul,
        imm32(*e->Binary_rhs) == Some(n),
        raw_text(g, env, *e->Binary_lhs) == emitted(g1, a),
    ensures
        bin_text(g, env, e) == emitted(g1, a + seq![const_op(e->Binary_op, n)]),
{
    reveal(raw_text);
    reveal(bin_text);
    let op = e->Binary_op;
    let h = emitted(g1, a);
    assert(raw_operand(g, env, *e->Binary_rhs) is Some);
    let t = if op == BinOp::Add {
        "    add rax, "@
    } else if op == BinOp::Sub {
        "    sub rax, "@
    } else {
        "    imul rax, rax, "@
    };
    assert(bin_text(g, env, e) == h.p(t).n(n as int).p("\n"@));
    with_number(h, t, n as int, "\n"@);
    one_more(g1, a, const_op(op, n));
    assert(a.push(const_op(op, n)) =~= a + seq![const_op(op, n)]);
}

/// The text of a sum, a difference or a product of `rax` and `rcx`.
pub open spec fn ring_text(op: BinOp) -> Seq<char> {
    if op == BinOp::Add {
        "    add rax, rcx\n"@
    } else if op == BinOp::Sub {
        "    sub rax, rcx\n"@
    } else {
        "    imul rax, rcx\n"@
    }
}

proof fn right_written(g: Asm, env: FnEnv, e: ExprView, g1: Asm, a: Seq<Op>)
    requires
        e is Binary,
        e->Binary_op == BinOp::Add || e->Binary_op == BinOp::Sub || e->Binary_op == BinOp::Mul,
        is_operand(env, *e->Binary_rhs),
        *e->Binary_rhs is Ident ==> has_place(g, e->Binary_rhs->Ident_0),
        imm32(*e->Binary_rhs) is None,
        raw_text(g, env, *e->Binary_lhs) == emitted(g1, a),
    ensures
        bin_text(g, env, e) == emitted(
            g1,
            a + seq![rcx_of(g, *e->Binary_rhs), ring(e->Binary_op)],
        ),
{
    reveal(raw_text);
    reveal(bin_text);
    let op = e->Binary_op;
    let h = emitted(g1, a);
    let rhs = *e->Binary_rhs;
    operand_texts(g, env, rhs);
    let rr = raw_operand(g, env, rhs)->Some_0;
    assert(bin_text(g, env, e) == h.p("    mov rcx, "@).p(rr).p("\n"@).p(ring_text(op)));
    with_text(h, "    mov rcx, "@, rr, "\n"@);
    let s = a.push(rcx_of(g, rhs));
    one_more(g1, a, rcx_of(g, rhs));
    one_more(g1, s, ring(op));
    assert(s.push(ring(op)) =~= a + seq![rcx_of(g, rhs), ring(op)]);
}

proof fn left_written(g: Asm, env: FnEnv, e: ExprView, g1: Asm, b: Seq<Op>)
    requires
        e is Binary,
        e->Binary_op == BinOp::Add || e->Binary_op == BinOp::Sub || e->Binary_op == BinOp::Mul,
        !is_operand(env, *e->Binary_rhs),
        is_operand(env, *e->Binary_lhs),
        *e->Binary_lhs is Ident ==> has_place(g, e->Binary_lhs->Ident_0),
        raw_text(g, env, *e->Binary_rhs) == emitted(g1, b),
    ensures
        bin_text(g, env, e) == emitted(
            g1,
            if e->Binary_op == BinOp::Sub {
                b + seq![Op::Keep, rax_of(g, *e->Binary_lhs), Op::Minus]
            } else {
                b + seq![rcx_of(g, *e->Binary_lhs), ring(e->Binary_op)]
            },
        ),
{
    reveal(raw_text);
    reveal(bin_text);
    let op = e->Binary_op;
    let h = emitted(g1, b);
    let lhs = *e->Binary_lhs;
    no_operand(g, env, *e->Binary_rhs);
    operand_texts(g, env, lhs);
    let ll = raw_operand(g, env, lhs)->Some_0;
    if op == BinOp::Sub {
        assert(bin_text(g, env, e) == h.p("    mov rcx, rax\n"@).p("    mov rax, "@).p(ll).p(
            "\n"@,
        ).p("    sub rax, rcx\n"@));
        let s = b.push(Op::Keep);
        let s2 = s.push(rax_of(g, lhs));
        one_more(g1, b, Op::Keep);
        with_text(emitted(g1, s), "    mov rax, "@, ll, "\n"@);
        one_more(g1, s, rax_of(g, lhs));
        one_more(g1, s2, Op::Minus);
        assert(s2.push(Op::Minus) =~= b + seq![Op::Keep, rax_of(g, lhs), Op::Minus]);
    } else {
        assert(bin_text(g, env, e) == h.p("    mov rcx, "@).p(ll).p("\n"@).p(ring_text(op)));
        with_text(h, "    mov rcx, "@, ll, "\n"@);
        let s = b.push(rcx_of(g, lhs));
        one_more(g1, b, rcx_of(g, lhs));
        one_more(g1, s, ring(op));
        assert(s.push(ring(op)) =~= b + seq![rcx_of(g, lhs), ring(op)]);
    }
}

proof fn both_written(g: Asm, env: FnEnv, e: ExprView, g2: Asm, s: Seq<Op>, lt: int)
    requires
        e is Binary,
        e->Binary_op == BinOp::Add || e->Binary_op == BinOp::Sub || e->Binary_op == BinOp::Mul,
        !is_operand(env, *e->Binary_rhs),
        !is_operand(env, *e->Binary_lhs),
        raw_text(g, env, *e->Binary_lhs).temp().1 == lt,
        raw_text(spilled(raw_text(g, env, *e->Binary_lhs)), env, *e->Binary_rhs) == emitted(g2, s),
    ensures
        bin_text(g, env, e) == emitted(
            g2,
            if e->Binary_op == BinOp::Sub {
                s + seq![Op::Keep, Op::LoadRax(slot_name(lt)), Op::Minus]
            } else {
                s + seq![Op::LoadRcx(slot_name(lt)), ring(e->Binary_op)]
            },
        ),
{
    reveal(raw_text);
    reveal(bin_text);
    let op = e->Binary_op;
    let h = emitted(g2, s);
    no_operand(g, env, *e->Binary_rhs);
    no_operand(g, env, *e->Binary_lhs);
    if op == BinOp::Sub {
        assert(bin_text(g, env, e) == h.p("    mov rcx, rax\n"@).p("    mov rax, [rbp"@).n(lt).p(
            "]\n"@,
        ).p("    sub rax, rcx\n"@));
        let s1 = s.push(Op::Keep);
        let s2 = s1.push(Op::LoadRax(slot_name(lt)));
        one_more(g2, s, Op::Keep);
        load_rax_written(g2, s1, lt);
        one_more(g2, s2, Op::Minus);
        assert(s2.push(Op::Minus) =~= s + seq![Op::Keep, Op::LoadRax(slot_name(lt)), Op::Minus]);
    } else {
        assert(bin_text(g, env, e) == h.p("    mov rcx, [rbp"@).n(lt).p("]\n"@).p(
            ring_text(op),
        ));
        let s1 = s.push(Op::LoadRcx(slot_name(lt)));
        load_rcx_written(g2, s, lt);
        one_more(g2, s1, ring(op));
        assert(s1.push(ring(op)) =~= s + seq![Op::LoadRcx(slot_name(lt)), ring(op)]);
    }
}

proof fn zero_written(h: Asm, lt: int, is_mod: bool)
    ensures
        ({
            let g9 = h.box_int().p("    mov rdx, rax\n"@).p("    mov rax, [rbp"@).n(lt).p(
                "]\n"@,
            ).box_int().p("    mov rcx, rax\n"@);
            let g10 = if is_mod {
                g9.p("    call lumen_mod\n"@)
            } else {
                g9.p("    call lumen_div\n"@)
            };
            g10.unbox_int() == h.p(zero_text(lt, is_mod))
        }),
{
    reveal(Asm::box_int);
    reveal(Asm::unbox_int);
    let b1 = "    mov rcx, 0xFFFFFFFFFFFF\n    and rax, rcx\n"@;
    let b2 = "    mov rcx, 0x7FF9000000000000\n    or rax, rcx\n"@;
    let boxing = b1 + b2;
    let t1 = boxing + "    mov rdx, rax\n"@;
    let load = "    mov rax, [rbp"@ + dec(lt) + "]\n"@;
    let t2 = t1 + load;
    let t3 = t2 + boxing;
    let t4 = t3 + "    mov rcx, rax\n"@;
    let call = if is_mod {
        "    call lumen_mod\n"@
    } else {
        "    call lumen_div\n"@
    };
    two_texts(h, b1, b2);
    two_texts(h, boxing, "    mov rdx, rax\n"@);
    with_number(h.p(t1), "    mov rax, [rbp"@, lt, "]\n"@);
    two_texts(h, t1, load);
    two_texts(h.p(t2), b1, b2);
    two_texts(h, t2, boxing);
    two_texts(h, t3, "    mov rcx, rax\n"@);
    two_texts(h, t4, call);
    two_texts(h, t4 + call, "    shl rax, 16\n    sar rax, 16\n"@);
}

proof fn idiv_written(h: Asm, lt: int, is_mod: bool)
    ensures
        ({
            let g18 = h.p("    mov rcx, rax\n"@).p("    mov rax, [rbp"@).n(lt).p("]\n"@).p(
                "    cqo\n    idiv rcx\n"@,
            );
            let g19 = if is_mod {
                g18.p("    mov rax, rdx\n"@)
            } else {
                g18
            };
            g19 == h.p(code(idiv_ops(lt, is_mod)))
        }),
{
    let r: Regs = arbitrary();
    let load = Op::LoadRax(slot_name(lt));
    let s = seq![Op::Keep, load, Op::Idiv];
    run_three(r, Op::Keep, load, Op::Idiv);
    run_push(r, s, Op::TakeRdx);
    slot_texts(lt);
    with_number(h.p(op_text(Op::Keep)), "    mov rax, [rbp"@, lt, "]\n"@);
    two_texts(h, op_text(Op::Keep), op_text(load));
    two_texts(h, op_text(Op::Keep) + op_text(load), op_text(Op::Idiv));
    two_texts(h, code(s), op_text(Op::TakeRdx));
}

/// The code of a division by a variable.
proof fn var_div_written(g: Asm, env: FnEnv, s: Seq<Op>, lt: i64, is_mod: bool)
    ensures
        ({
            let h = emitted(g, s);
            let r = var_div(h, env, lt, is_mod);
            r == emitted(grown(g, r), s.push(var_div_op(h, lt as int, is_mod)))
                && r.stack == g.stack
        }),
{
    reveal(Asm::new_label);
    let h = emitted(g, s);
    let (h1, nz) = h.new_label("divnz"@);
    let (h2, done) = h1.new_label("divdone"@);
    let g2 = grown(g, h2);
    assert(h2 == emitted(g2, s));
    let r = var_div(h, env, lt, is_mod);
    let z = zero_text(lt as int, is_mod);
    let rest = code(idiv_ops(lt as int, is_mod));
    let a1 = "    test rax, rax\n"@;
    let a2 = a1 + "    jne "@;
    let a3 = a2 + nz;
    let a4 = a3 + "\n"@;
    let a5 = a4 + z;
    let a6 = a5 + "    jmp "@;
    let a7 = a6 + done;
    let a8 = a7 + "\n"@;
    let a9 = a8 + nz;
    let a10 = a9 + ":\n"@;
    let a11 = a10 + rest;
    let a12 = a11 + done;
    two_texts(h2, a1, "    jne "@);
    two_texts(h2, a2, nz);
    two_texts(h2, a3, "\n"@);
    zero_written(h2.p(a4), lt as int, is_mod);
    two_texts(h2, a4, z);
    two_texts(h2, a5, "    jmp "@);
    two_texts(h2, a6, done);
    two_texts(h2, a7, "\n"@);
    two_texts(h2, a8, nz);
    two_texts(h2, a9, ":\n"@);
    idiv_written(h2.p(a10), lt as int, is_mod);
    two_texts(h2, a10, rest);
    two_texts(h2, a11, done);
    two_texts(h2, a12, ":\n"@);
    let o = var_div_op(h, lt as int, is_mod);
    assert(op_text(o) == a12 + ":\n"@);
    assert(r == h2.p(op_text(o)));
    one_more(g2, s, o);
}

proof fn by_variable_written(g: Asm, env: FnEnv, e: ExprView, g2: Asm, s: Seq<Op>, lt: i64)
    requires
        e is Binary,
        divides(e->Binary_op),
        const_of(*e->Binary_rhs) == 0,
        raw_text(g, env, *e->Binary_lhs).temp().1 == lt,
        raw_text(spilled(raw_text(g, env, *e->Binary_lhs)), env, *e->Binary_rhs) == emitted(g2, s),
    ensures
        ({
            let r = bin_text(g, env, e);
            &&& r == emitted(
                grown(g2, r),
                s + seq![var_div_op(emitted(g2, s), lt as int, e->Binary_op == BinOp::Mod)],
            )
            &&& r.stack == g2.stack
        }),
{
    reveal(raw_text);
    reveal(bin_text);
    let is_mod = e->Binary_op == BinOp::Mod;
    let o = var_div_op(emitted(g2, s), lt as int, is_mod);
    var_div_written(g2, env, s, lt, is_mod);
    assert(bin_text(g, env, e) == var_div(emitted(g2, s), env, lt, is_mod));
    assert(s.push(o) =~= s + seq![o]);
}

/// Whether every variable has a place.
pub open spec fn placed(g: Asm, vals: Map<Seq<char>, int>) -> bool {
    forall|n: Seq<char>| #[trigger] vals.contains_key(n) ==> has_place(g, n)
}

proof fn times_written(g: Asm, s: Seq<Op>, bt: i64, n: nat)
    ensures
        emitted(g, s).mul_times(bt, n) == emitted(g, s + times_ops(bt as int, n)),
    decreases n,
{
    if n == 0 {
        assert(s + times_ops(bt as int, n) =~= s);
    } else {
        let m = (n - 1) as nat;
        times_written(g, s, bt, m);
        let s1 = s + times_ops(bt as int, m);
        let load = Op::LoadRcx(slot_name(bt as int));
        load_rcx_written(g, s1, bt as int);
        one_more(g, s1.push(load), Op::Times);
        assert(s1.push(load).push(Op::Times) =~= s + times_ops(bt as int, n));
    }
}

proof fn const_written(g: Asm, n: int)
    ensures
        g.p("    mov rax, "@).n(n).p("\n"@) == emitted(g, seq![Op::ConstRax(n)]),
{
    with_number(g, "    mov rax, "@, n, "\n"@);
    nothing_yet(g);
    one_more(g, Seq::empty(), Op::ConstRax(n));
    assert(Seq::<Op>::empty().push(Op::ConstRax(n)) =~= seq![Op::ConstRax(n)]);
}

proof fn var_written(g: Asm, env: FnEnv, e: ExprView)
    requires
        raw_form(env, e) is Var,
        has_place(g, e->Ident_0),
    ensures
        raw_text(g, env, e) == emitted(g, seq![Op::LoadRax(place_of(g, e->Ident_0))]),
{
    reveal(raw_text);
    reveal(bin_text);
    let n = e->Ident_0;
    let load = Op::LoadRax(place_of(g, n));
    nothing_yet(g);
    let none = Seq::<Op>::empty();
    assert(none.push(load) =~= seq![load]);
    match g.int_loc_of(n) {
        Some(r) => {
            with_text(g, "    mov rax, "@, r, "\n"@);
            one_more(g, none, load);
        },
        None => load_rax_written(g, none, g.locals[n] as int),
    }
}

proof fn neg_written(g: Asm, env: FnEnv, e: ExprView, g1: Asm, a: Seq<Op>)
    requires
        e is Unary,
        raw_form(env, e) is Neg,
        raw_text(g, env, *e->Unary_expr) == emitted(g1, a),
    ensures
        raw_text(g, env, e) == emitted(g1, a + seq![Op::Negate, Op::Unbox]),
{
    reveal(raw_text);
    reveal(bin_text);
    one_more(g1, a, Op::Negate);
    unbox_written(g1, a.push(Op::Negate));
    assert(raw_neg(g, env, e) == emitted(g1, a).p("    neg rax\n"@));
    assert(raw_text(g, env, e) == raw_neg(g, env, e).unbox_int());
    assert(a.push(Op::Negate).push(Op::Unbox) =~= a + seq![Op::Negate, Op::Unbox]);
}

proof fn power_written(g: Asm, env: FnEnv, e: ExprView, g1: Asm, a: Seq<Op>)
    requires
        e is Binary,
        raw_form(env, e) is Power,
        raw_text(g, env, *e->Binary_lhs) == emitted(g1, a),
        a == raw_ops(g, env, *e->Binary_lhs),
        0 <= g1.stack <= MAX_FRAME,
        g1 == grown(g, g1),
    ensures
        written(g, raw_text(g, env, e), raw_ops(g, env, e)),
        raw_text(g, env, e).stack == g.stack || raw_text(g, env, e).stack == g1.stack + 8,
{
    reveal(raw_ops);
    reveal(raw_text);
    reveal(bin_text);
    let n = small_exp(*e->Binary_rhs);
    let t = raw_power(g, env, e);
    assert(raw_text(g, env, e) == t.unbox_int());
    if n == 0 {
        const_written(g, 1);
        one_text();
        let s = seq![Op::ConstRax(1)];
        assert(t == g.p("    mov rax, 1\n"@));
        with_number(g, "    mov rax, "@, 1, "\n"@);
        assert(t == emitted(g, s));
        unbox_written(g, s);
    } else {
        temp_written(g1, a);
        let bt = emitted(g1, a).temp().1;
        let g2 = Asm { stack: (g1.stack + 8) as i64, ..g1 };
        let s1 = a.push(Op::Store(bt as int));
        assert(t == spilled(emitted(g1, a)).mul_times(bt, (n - 1) as nat));
        times_written(g2, s1, bt, (n - 1) as nat);
        let s2 = s1 + times_ops(bt as int, (n - 1) as nat);
        unbox_written(g2, s2);
        assert(raw_text(g, env, e) == emitted(g2, s2.push(Op::Unbox)));
    }
}

proof fn one_text()
    ensures
        "    mov rax, "@ + dec(1) + "\n"@ == "    mov rax, 1\n"@,
{
    reveal_with_fuel(dec_nat, 2);
    reveal_strlit("    mov rax, ");
    reveal_strlit("\n");
    reveal_strlit("    mov rax, 1\n");
    assert(dec(1) =~= seq!['1']);
    assert("    mov rax, "@ + dec(1) + "\n"@ =~= "    mov rax, 1\n"@);
}

/// An operation is made of its operands.
proof fn arith_unfolds(g: Asm, env: FnEnv, e: ExprView)
    requires
        raw_form(env, e) is Arith,
    ensures
        e is Binary,
        raw_text(g, env, e) == bin_text(g, env, e).unbox_int(),
        ({
            let (lhs, rhs) = (*e->Binary_lhs, *e->Binary_rhs);
            let h = raw_text(g, env, lhs);
            let k = spilled(h);
            raw_ops(g, env, e) == binary_ops(
                g,
                h,
                env,
                e->Binary_op,
                lhs,
                rhs,
                raw_ops(g, env, lhs),
                raw_ops(g, env, rhs),
                raw_ops(k, env, rhs),
                raw_text(k, env, rhs),
            ).push(Op::Unbox)
        }),
        e->Binary_op == BinOp::Add || e->Binary_op == BinOp::Sub || e->Binary_op == BinOp::Mul
            || divides(e->Binary_op),
{
    reveal(raw_ops);
    reveal(raw_text);
    reveal(bin_text);
}

proof fn has_one(g: Asm, e: ExprView, vals: Map<Seq<char>, int>)
    requires
        defined(e, vals),
        placed(g, vals),
    ensures
        e is Ident ==> has_place(g, e->Ident_0),
{
    if let ExprView::Ident(n) = e {
        assert(vals.contains_key(n));
    }
}

/// Code behind that of the left operand.
proof fn after_left(g: Asm, env: FnEnv, e: ExprView, vals: Map<Seq<char>, int>)
    requires
        raw_form(env, e) is Arith,
        defined(e, vals),
        placed(g, vals),
        written(g, raw_text(g, env, *e->Binary_lhs), raw_ops(g, env, *e->Binary_lhs)),
        0 <= g.stack <= raw_text(g, env, *e->Binary_lhs).stack <= MAX_FRAME - 8,
        if divides(e->Binary_op) {
            const_of(*e->Binary_rhs) != 0
        } else {
            is_operand(env, *e->Binary_rhs)
        },
    ensures
        written(g, raw_text(g, env, e), raw_ops(g, env, e)),
        raw_text(g, env, *e->Binary_lhs).stack <= raw_text(g, env, e).stack <= raw_text(
            g,
            env,
            *e->Binary_lhs,
        ).stack + 8,
{
    arith_unfolds(g, env, e);
    let (lhs, rhs) = (*e->Binary_lhs, *e->Binary_rhs);
    let op = e->Binary_op;
    let h = raw_text(g, env, lhs);
    let a = raw_ops(g, env, lhs);
    let g1 = grown(g, h);
    let d = const_of(rhs);
    temp_written(g1, a);
    let lt = h.temp().1;
    let g2 = Asm { stack: (g1.stack + 8) as i64, ..g1 };
    if divides(op) {
        if op == BinOp::Div {
            div_written(g, env, e, g1, a);
            unbox_written(g1, a + div_ops(d));
        } else if mask_bits(d) is Some {
            mask_written(g, env, e, g1, a);
            unbox_written(g1, a + mask_ops(mask_bits(d)->Some_0));
        } else {
            mod_written(g, env, e, g1, a);
            unbox_written(g2, a + mod_ops(lt as int, d));
        }
    } else {
        match imm32(rhs) {
            Some(n) => {
                imm_written(g, env, e, g1, a, n);
                unbox_written(g1, a + seq![const_op(op, n)]);
            },
            None => {
                has_one(g, rhs, vals);
                right_written(g, env, e, g1, a);
                unbox_written(g1, a + seq![rcx_of(g, rhs), ring(op)]);
            },
        }
    }
}

/// Code behind that of the right operand.
proof fn after_right(g: Asm, env: FnEnv, e: ExprView, vals: Map<Seq<char>, int>)
    requires
        raw_form(env, e) is Arith,
        defined(e, vals),
        placed(g, vals),
        written(g, raw_text(g, env, *e->Binary_rhs), raw_ops(g, env, *e->Binary_rhs)),
        !divides(e->Binary_op),
        !is_operand(env, *e->Binary_rhs),
        is_operand(env, *e->Binary_lhs),
    ensures
        written(g, raw_text(g, env, e), raw_ops(g, env, e)),
        raw_text(g, env, e).stack == raw_text(g, env, *e->Binary_rhs).stack,
{
    arith_unfolds(g, env, e);
    let (lhs, rhs) = (*e->Binary_lhs, *e->Binary_rhs);
    let op = e->Binary_op;
    let b = raw_ops(g, env, rhs);
    let g3 = grown(g, raw_text(g, env, rhs));
    has_one(g, lhs, vals);
    left_written(g, env, e, g3, b);
    unbox_written(
        g3,
        if op == BinOp::Sub {
            b + seq![Op::Keep, rax_of(g, lhs), Op::Minus]
        } else {
            b + seq![rcx_of(g, lhs), ring(op)]
        },
    );
}

/// The code of the left operand with its value put aside.
proof fn left_aside(g: Asm, env: FnEnv, lhs: ExprView)
    requires
        written(g, raw_text(g, env, lhs), raw_ops(g, env, lhs)),
        0 <= raw_text(g, env, lhs).stack <= MAX_FRAME,
    ensures
        ({
            let h = raw_text(g, env, lhs);
            let lt = h.temp().1;
            let k = spilled(h);
            &&& lt == -(h.stack + 8)
            &&& k.stack == h.stack + 8
            &&& written(g, k, raw_ops(g, env, lhs).push(Op::Store(lt as int)))
        }),
{
    let h = raw_text(g, env, lhs);
    temp_written(grown(g, h), raw_ops(g, env, lhs));
}

/// Code behind that of both operands.
proof fn after_both(g: Asm, env: FnEnv, e: ExprView)
    requires
        raw_form(env, e) is Arith,
        written(g, raw_text(g, env, *e->Binary_lhs), raw_ops(g, env, *e->Binary_lhs)),
        0 <= raw_text(g, env, *e->Binary_lhs).stack <= MAX_FRAME - 8,
        ({
            let k = spilled(raw_text(g, env, *e->Binary_lhs));
            written(k, raw_text(k, env, *e->Binary_rhs), raw_ops(k, env, *e->Binary_rhs))
        }),
        if divides(e->Binary_op) {
            const_of(*e->Binary_rhs) == 0
        } else {
            !is_operand(env, *e->Binary_rhs) && !is_operand(env, *e->Binary_lhs)
        },
    ensures
        written(g, raw_text(g, env, e), raw_ops(g, env, e)),
        raw_text(g, env, e).stack == raw_text(
            spilled(raw_text(g, env, *e->Binary_lhs)),
            env,
            *e->Binary_rhs,
        ).stack,
{
    arith_unfolds(g, env, e);
    let (lhs, rhs) = (*e->Binary_lhs, *e->Binary_rhs);
    let op = e->Binary_op;
    let h = raw_text(g, env, lhs);
    left_aside(g, env, lhs);
    let k = spilled(h);
    let lt = h.temp().1;
    let s1 = raw_ops(g, env, lhs).push(Op::Store(lt as int));
    let g2 = grown(g, k);
    let c = raw_ops(k, env, rhs);
    let h2 = raw_text(k, env, rhs);
    assert(k == emitted(g2, s1));
    joined(g2, s1, h2, c);
    let g3 = grown(g2, h2);
    let s2 = s1 + c;
    if divides(op) {
        by_variable_written(g, env, e, g3, s2, lt);
        let o = var_div_op(h2, lt as int, op == BinOp::Mod);
        unbox_written(grown(g3, bin_text(g, env, e)), s2 + seq![o]);
    } else {
        both_written(g, env, e, g3, s2, lt as int);
        unbox_written(
            g3,
            if op == BinOp::Sub {
                s2 + seq![Op::Keep, Op::LoadRax(slot_name(lt as int)), Op::Minus]
            } else {
                s2 + seq![Op::LoadRcx(slot_name(lt as int)), ring(op)]
            },
        );
    }
}

/// The code for an expression is that of its instructions.
pub proof fn code_written(g: Asm, env: FnEnv, e: ExprView, vals: Map<Seq<char>, int>)
    requires
        pure(env, e),
        defined(e, vals),
        placed(g, vals),
        0 <= g.stack,
        g.stack + 8 * size(e) <= MAX_FRAME,
    ensures
        written(g, raw_text(g, env, e), raw_ops(g, env, e)),
        g.stack <= raw_text(g, env, e).stack <= g.stack + 8 * size(e),
    decreases e,
{
    match raw_form(env, e) {
        RawForm::Const => {
            reveal(raw_text);
            reveal(raw_ops);
            const_written(g, int_value(e) as int);
        },
        RawForm::Var => {
            reveal(raw_ops);
            var_written(g, env, e);
        },
        RawForm::Neg => {
            reveal(raw_ops);
            let x = *e->Unary_expr;
            code_written(g, env, x, vals);
            let h = raw_text(g, env, x);
            neg_written(g, env, e, grown(g, h), raw_ops(g, env, x));
        },
        RawForm::Power => {
            let x = *e->Binary_lhs;
            code_written(g, env, x, vals);
            let h = raw_text(g, env, x);
            power_written(g, env, e, grown(g, h), raw_ops(g, env, x));
        },
        RawForm::Arith => {
            let (lhs, rhs) = (*e->Binary_lhs, *e->Binary_rhs);
            let op = e->Binary_op;
            code_written(g, env, lhs, vals);
            if divides(op) && const_of(rhs) != 0 || !divides(op) && is_operand(env, rhs) {
                after_left(g, env, e, vals);
            } else if !divides(op) && is_operand(env, lhs) {
                code_written(g, env, rhs, vals);
                after_right(g, env, e, vals);
            } else {
                left_aside(g, env, lhs);
                let k = spilled(raw_text(g, env, lhs));
                code_written(k, env, rhs, vals);
                after_both(g, env, e);
            }
        },
        _ => {},
    }
}

/// What is in the places that last is kept.
pub open spec fn keeps(
    m1: spec_fn(Seq<char>) -> int,
    m2: spec_fn(Seq<char>) -> int,
    stack: int,
) -> bool {
    forall|p: Seq<char>| #[trigger] lasting(stack, p) ==> m2(p) == m1(p)
}

/// What the interpreter gives for an operation on two integers.
pub open spec fn op_value(op: BinOp, x: int, y: int) -> int {
    given(int_binop(op, x as i64, y as i64))
}

proof fn slots_differ(a: int, b: int)
    requires
        0 < a,
        0 < b,
        slot_name(-a) == slot_name(-b),
    ensures
        a == b,
{
    let (s, t) = (slot_name(-a), slot_name(-b));
    reveal_strlit("[rbp");
    reveal_strlit("]");
    assert(s.subrange(5, s.len() - 1) =~= dec_nat(a as nat));
    assert(t.subrange(5, t.len() - 1) =~= dec_nat(b as nat));
    dec_nat_injective(a as nat, b as nat);
}

/// The last place of the frame lasts.
proof fn slot_lasts(stack: int)
    requires
        0 < stack,
    ensures
        lasting(stack, slot_name(-stack)),
{
    let p = slot_name(-stack);
    assert forall|s: int| s > stack implies p != #[trigger] slot_name(-s) by {
        if p == slot_name(-s) {
            slots_differ(stack, s);
        }
    }
    reveal_strlit("[rbp");
    reveal_strlit("rax");
    reveal_strlit("rcx");
    reveal_strlit("rdx");
    reveal_strlit("r8");
    reveal_strlit("r9");
    assert(p[0] == '[');
}

/// What lasts where less of the frame is in use lasts where more is.
proof fn lasts_on(s: int, t: int, p: Seq<char>)
    requires
        s <= t,
        lasting(s, p),
    ensures
        lasting(t, p),
        t > s ==> p != slot_name(-t),
{
}

proof fn ring_agrees(op: BinOp, x: int, y: int, z: int)
    requires
        is_short(x),
        is_short(y),
        z == if op == BinOp::Add {
            x + y
        } else if op == BinOp::Sub {
            x - y
        } else {
            x * y
        },
        op == BinOp::Add || op == BinOp::Sub || op == BinOp::Mul,
    ensures
        word(word(z) * 0x1_0000) / 0x1_0000 == op_value(op, x, y),
        is_short(op_value(op, x, y)),
{
    unbox_wraps(word(z));
    word_wraps(z);
    wrap48_range(z);
}

proof fn div_agrees(op: BinOp, x: int, y: int, z: int)
    requires
        is_short(x),
        is_short(y),
        y != 0,
        divides(op),
        z == if op == BinOp::Div {
            quotient(x, y)
        } else {
            remainder(x, y)
        },
    ensures
        word(z * 0x1_0000) / 0x1_0000 == op_value(op, x, y),
        is_short(op_value(op, x, y)),
{
    unbox_wraps(z);
    wrap48_range(z);
}

/// A product with the quotient is at most as large as the number.
proof fn product_is_small(x: int, d: int)
    requires
        is_short(x),
        d != 0,
    ensures
        -0x8000_0000_0000 <= quotient(x, d) * d <= 0x8000_0000_0000,
        -0x8000_0000_0000 <= remainder(x, d) <= 0x8000_0000_0000,
{
    let a = if x < 0 {
        -x
    } else {
        x
    };
    let b = if d < 0 {
        -d
    } else {
        d
    };
    let q = a / b;
    vstd::arithmetic::div_mod::lemma_fundamental_div_mod(a, b);
    vstd::arithmetic::div_mod::lemma_mod_bound(a, b);
    assert(0 <= b * q <= a) by (nonlinear_arith)
        requires
            a == b * q + a % b,
            0 <= a % b < b,
            a >= 0,
            b >= 1,
    ;
    let z = quotient(x, d);
    assert(z == q || z == -q);
    assert(z * d == b * q || z * d == -(b * q)) by (nonlinear_arith)
        requires
            z == q || z == -q,
            b == d || b == -d,
    ;
    assert(z * d == if x < 0 {
        -(b * q)
    } else {
        b * q
    }) by (nonlinear_arith)
        requires
            (x < 0 && d < 0 && z == q) || (x < 0 && d > 0 && z == -q) || (x >= 0 && d < 0 && z
                == -q) || (x >= 0 && d > 0 && z == q),
            b == if d < 0 {
                -d
            } else {
                d
            },
    ;
    assert(d * z == z * d) by (nonlinear_arith);
}

/// The remainder by a constant that is no power of two.
proof fn mod_runs(r: Regs, nt: int, d: i64)
    requires
        is_short(r.rax),
        is_short(d as int),
        d != 0,
    ensures
        run(r, mod_ops(nt, d)).rax == remainder(r.rax, d as int),
        run(r, mod_ops(nt, d)).mem == step(r, Op::Store(nt)).mem,
{
    let x = r.rax;
    let first = seq![Op::Store(nt)];
    let s1 = first + div_ops(d);
    let tail = seq![
        Op::BigRcx(d as int),
        Op::Times,
        Op::Keep,
        Op::LoadRax(slot_name(nt)),
        Op::Minus,
    ];
    run_one(r, Op::Store(nt));
    let r1 = run(r, first);
    run_join(r, first, div_ops(d));
    division_divides(r1, d);
    let r2 = run(r, s1);
    let q = quotient(x, d as int);
    assert(r2.rax == q && r2.mem == r1.mem);
    run_join(r, s1, tail);
    let t3 = seq![Op::BigRcx(d as int), Op::Times, Op::Keep];
    run_three(r2, Op::BigRcx(d as int), Op::Times, Op::Keep);
    let load = Op::LoadRax(slot_name(nt));
    run_two(run(r2, t3), load, Op::Minus);
    run_join(r2, t3, seq![load, Op::Minus]);
    assert(t3 + seq![load, Op::Minus] =~= tail);
    product_is_small(x, d as int);
    word_stays(d as int);
    word_stays(q * d);
    word_stays(x - q * d);
    assert((r1.mem)(slot_name(nt)) == x);
    assert(d * q == q * d) by (nonlinear_arith);
}

/// The division of a temporary by what is in `rax`.
proof fn idiv_runs(r: Regs, h: Asm, lt: int, is_mod: bool)
    requires
        is_short(r.rax),
        r.rax != 0,
        is_short((r.mem)(slot_name(lt))),
    ensures
        ({
            let x = (r.mem)(slot_name(lt));
            let t = step(r, var_div_op(h, lt, is_mod));
            &&& t.mem == r.mem
            &&& t.rax == if is_mod {
                remainder(x, r.rax)
            } else {
                quotient(x, r.rax)
            }
        }),
{
    let x = (r.mem)(slot_name(lt));
    let load = Op::LoadRax(slot_name(lt));
    let s = seq![Op::Keep, load, Op::Idiv];
    run_three(r, Op::Keep, load, Op::Idiv);
    run_push(r, s, Op::TakeRdx);
    quotient_is_small(x, r.rax);
    assert(step(r, var_div_op(h, lt, is_mod)) == run(r, idiv_ops(lt, is_mod)));
}

/// Products with a temporary.
proof fn times_run(r: Regs, bt: int, n: nat, x: int)
    requires
        is_short(x),
        (r.mem)(slot_name(bt)) == x,
        r.rax == x,
    ensures
        wrap48_spec(run(r, times_ops(bt, n)).rax) == power48(x, n + 1),
        run(r, times_ops(bt, n)).mem == r.mem,
    decreases n,
{
    wrap48_range(x);
    if n == 0 {
        assert(power48(x, 0) == 1);
        assert(power48(x, 1) == wrap48_spec(power48(x, 0) * x));
    } else {
        let m = (n - 1) as nat;
        times_run(r, bt, m, x);
        let r1 = run(r, times_ops(bt, m));
        let load = Op::LoadRcx(slot_name(bt));
        run_join(r, times_ops(bt, m), seq![load, Op::Times]);
        run_two(r1, load, Op::Times);
        let y = r1.rax * x;
        word_wraps(y);
        wrap48_ring(r1.rax, x);
    }
}

/// An operand as it stands.
proof fn operand_runs(
    g: Asm,
    env: FnEnv,
    e: ExprView,
    vals: Map<Seq<char>, int>,
    r: Regs,
    m: spec_fn(Seq<char>) -> int,
)
    requires
        is_operand(env, e),
        defined(e, vals),
        holds(g, vals, m),
        keeps(m, r.mem, g.stack as int),
    ensures
        step(r, rcx_of(g, e)) == (Regs { rcx: raw_value(e, vals), ..r }),
        step(r, rax_of(g, e)) == (Regs { rax: raw_value(e, vals), ..r }),
        is_short(raw_value(e, vals)),
{
    match e {
        ExprView::Int(n) => {
            wrap48_range(n as int);
            word_stays(wrap48_spec(n as int));
        },
        ExprView::Ident(n) => {
            assert(vals.contains_key(n));
            assert(lasting(g.stack as int, place_of(g, n)));
        },
        _ => {},
    }
}

/// What a value that is put aside leaves: the variables stay, and the value is found there.
proof fn aside(
    g: Asm,
    k: Asm,
    vals: Map<Seq<char>, int>,
    m: spec_fn(Seq<char>) -> int,
    r1: Regs,
    lt: int,
)
    requires
        holds(g, vals, m),
        keeps(m, r1.mem, g.stack as int),
        0 <= g.stack < k.stack,
        lt == -k.stack,
        k.locals == g.locals,
        k.int_loc == g.int_loc,
    ensures
        ({
            let r2 = step(r1, Op::Store(lt));
            &&& holds(k, vals, r2.mem)
            &&& keeps(m, r2.mem, g.stack as int)
            &&& (r2.mem)(slot_name(lt)) == r1.rax
            &&& r2.rax == r1.rax
            &&& lasting(k.stack as int, slot_name(lt))
        }),
{
    let r2 = step(r1, Op::Store(lt));
    slot_lasts(k.stack as int);
    assert forall|p: Seq<char>| #[trigger] lasting(g.stack as int, p) implies (r2.mem)(p) == m(
        p,
    ) by {
        lasts_on(g.stack as int, k.stack as int, p);
    }
    assert forall|n: Seq<char>| #[trigger] vals.contains_key(n) implies has_place(k, n)
        && is_short(vals[n]) && (r2.mem)(place_of(k, n)) == vals[n] && lasting(
        k.stack as int,
        place_of(k, n),
    ) by {
        let p = place_of(g, n);
        assert(place_of(k, n) == p);
        lasts_on(g.stack as int, k.stack as int, p);
    }
}

/// What is kept where more of the frame is in use is kept where less is.
proof fn keeps_less(
    a: spec_fn(Seq<char>) -> int,
    b: spec_fn(Seq<char>) -> int,
    c: spec_fn(Seq<char>) -> int,
    s: int,
    t: int,
)
    requires
        s <= t,
        keeps(a, b, s),
        keeps(b, c, t),
    ensures
        keeps(a, c, s),
{
    assert forall|p: Seq<char>| #[trigger] lasting(s, p) implies c(p) == a(p) by {
        lasts_on(s, t, p);
    }
}

proof fn const_of_value(e: ExprView, vals: Map<Seq<char>, int>)
    requires
        const_of(e) != 0 || imm32(e) is Some,
    ensures
        raw_value(e, vals) == const_of(e),
        imm32(e) is Some ==> imm32(e)->Some_0 == const_of(e),
        is_short(const_of(e) as int),
{
    if let ExprView::Int(n) = e {
        wrap48_range(n as int);
    }
}

/// Whether code leaves a value in `rax` and keeps what lasts.
spec fn leaves(r: Regs, s: Seq<Op>, v: int, stack: int) -> bool {
    run(r, s).rax == v && keeps(r.mem, run(r, s).mem, stack)
}

proof fn unboxed(r: Regs, s: Seq<Op>, z: int, v: int, stack: int)
    requires
        run(r, s).rax == z,
        word(z * 0x1_0000) / 0x1_0000 == v,
        keeps(r.mem, run(r, s).mem, stack),
    ensures
        leaves(r, s.push(Op::Unbox), v, stack),
{
    run_push(r, s, Op::Unbox);
}

/// Behind the left operand.
proof fn left_runs(
    g: Asm,
    env: FnEnv,
    e: ExprView,
    vals: Map<Seq<char>, int>,
    r: Regs,
    a: Seq<Op>,
    x: int,
)
    requires
        raw_form(env, e) is Arith,
        defined(e, vals),
        holds(g, vals, r.mem),
        a == raw_ops(g, env, *e->Binary_lhs),
        x == raw_value(*e->Binary_lhs, vals),
        is_short(x),
        leaves(r, a, x, g.stack as int),
        written(g, raw_text(g, env, *e->Binary_lhs), a),
        0 <= g.stack <= raw_text(g, env, *e->Binary_lhs).stack <= MAX_FRAME - 8,
        if divides(e->Binary_op) {
            const_of(*e->Binary_rhs) != 0
        } else {
            is_operand(env, *e->Binary_rhs)
        },
    ensures
        leaves(r, raw_ops(g, env, e), raw_value(e, vals), g.stack as int),
        is_short(raw_value(e, vals)),
{
    arith_unfolds(g, env, e);
    let (lhs, rhs) = (*e->Binary_lhs, *e->Binary_rhs);
    let op = e->Binary_op;
    let d = const_of(rhs);
    let y = raw_value(rhs, vals);
    let r1 = run(r, a);
    let stack = g.stack as int;
    assert(raw_value(e, vals) == op_value(op, x, y));
    if divides(op) {
        const_of_value(rhs, vals);
        let z = if op == BinOp::Div {
            quotient(x, y)
        } else {
            remainder(x, y)
        };
        div_agrees(op, x, y, z);
        if op == BinOp::Div {
            run_join(r, a, div_ops(d));
            division_divides(r1, d);
            unboxed(r, a + div_ops(d), z, op_value(op, x, y), stack);
        } else if mask_bits(d) is Some {
            let k = mask_bits(d)->Some_0;
            mask_is_power(d);
            run_join(r, a, mask_ops(k));
            mask_gives_remainder(r1, k);
            unboxed(r, a + mask_ops(k), z, op_value(op, x, y), stack);
        } else {
            left_aside(g, env, lhs);
            let h = raw_text(g, env, lhs);
            let lt = h.temp().1 as int;
            run_join(r, a, mod_ops(lt, d));
            mod_runs(r1, lt, d);
            aside(g, spilled(h), vals, r.mem, r1, lt);
            unboxed(r, a + mod_ops(lt, d), z, op_value(op, x, y), stack);
        }
    } else {
        let z = if op == BinOp::Add {
            x + y
        } else if op == BinOp::Sub {
            x - y
        } else {
            x * y
        };
        operand_runs(g, env, rhs, vals, r1, r.mem);
        ring_agrees(op, x, y, z);
        match imm32(rhs) {
            Some(n) => {
                const_of_value(rhs, vals);
                let o = const_op(op, n);
                run_join(r, a, seq![o]);
                run_one(r1, o);
                unboxed(r, a + seq![o], word(z), op_value(op, x, y), stack);
            },
            None => {
                let s = seq![rcx_of(g, rhs), ring(op)];
                run_join(r, a, s);
                run_two(r1, rcx_of(g, rhs), ring(op));
                unboxed(r, a + s, word(z), op_value(op, x, y), stack);
            },
        }
    }
}

/// Behind the right operand, where the left one is an operand as it stands.
proof fn right_runs(
    g: Asm,
    env: FnEnv,
    e: ExprView,
    vals: Map<Seq<char>, int>,
    r: Regs,
    b: Seq<Op>,
    y: int,
)
    requires
        raw_form(env, e) is Arith,
        defined(e, vals),
        holds(g, vals, r.mem),
        b == raw_ops(g, env, *e->Binary_rhs),
        y == raw_value(*e->Binary_rhs, vals),
        is_short(y),
        leaves(r, b, y, g.stack as int),
        !divides(e->Binary_op),
        !is_operand(env, *e->Binary_rhs),
        is_operand(env, *e->Binary_lhs),
    ensures
        leaves(r, raw_ops(g, env, e), raw_value(e, vals), g.stack as int),
        is_short(raw_value(e, vals)),
{
    arith_unfolds(g, env, e);
    let lhs = *e->Binary_lhs;
    let op = e->Binary_op;
    let x = raw_value(lhs, vals);
    let r1 = run(r, b);
    let stack = g.stack as int;
    operand_runs(g, env, lhs, vals, r1, r.mem);
    assert(raw_value(e, vals) == op_value(op, x, y));
    let z = if op == BinOp::Add {
        x + y
    } else if op == BinOp::Sub {
        x - y
    } else {
        x * y
    };
    ring_agrees(op, x, y, z);
    if op == BinOp::Sub {
        let s = seq![Op::Keep, rax_of(g, lhs), Op::Minus];
        run_join(r, b, s);
        run_three(r1, Op::Keep, rax_of(g, lhs), Op::Minus);
        let r2 = step(r1, Op::Keep);
        operand_runs(g, env, lhs, vals, r2, r.mem);
        unboxed(r, b + s, word(z), op_value(op, x, y), stack);
    } else {
        let s = seq![rcx_of(g, lhs), ring(op)];
        run_join(r, b, s);
        run_two(r1, rcx_of(g, lhs), ring(op));
        assert(y + x == x + y && y * x == x * y) by (nonlinear_arith);
        unboxed(r, b + s, word(z), op_value(op, x, y), stack);
    }
}

/// Behind both operands.
proof fn both_run(
    g: Asm,
    env: FnEnv,
    e: ExprView,
    vals: Map<Seq<char>, int>,
    r: Regs,
    s2: Seq<Op>,
    lt: int,
    x: int,
    y: int,
)
    requires
        raw_form(env, e) is Arith,
        defined(e, vals),
        ({
            let h = raw_text(g, env, *e->Binary_lhs);
            &&& lt == h.temp().1
            &&& s2 == raw_ops(g, env, *e->Binary_lhs).push(Op::Store(lt)) + raw_ops(
                spilled(h),
                env,
                *e->Binary_rhs,
            )
        }),
        x == raw_value(*e->Binary_lhs, vals),
        y == raw_value(*e->Binary_rhs, vals),
        is_short(x),
        is_short(y),
        leaves(r, s2, y, g.stack as int),
        (run(r, s2).mem)(slot_name(lt)) == x,
        if divides(e->Binary_op) {
            const_of(*e->Binary_rhs) == 0
        } else {
            !is_operand(env, *e->Binary_rhs) && !is_operand(env, *e->Binary_lhs)
        },
    ensures
        leaves(r, raw_ops(g, env, e), raw_value(e, vals), g.stack as int),
        is_short(raw_value(e, vals)),
{
    arith_unfolds(g, env, e);
    let op = e->Binary_op;
    let r1 = run(r, s2);
    let stack = g.stack as int;
    assert(raw_value(e, vals) == op_value(op, x, y));
    if divides(op) {
        let h2 = raw_text(spilled(raw_text(g, env, *e->Binary_lhs)), env, *e->Binary_rhs);
        let o = var_div_op(h2, lt, op == BinOp::Mod);
        let z = if op == BinOp::Div {
            quotient(x, y)
        } else {
            remainder(x, y)
        };
        div_agrees(op, x, y, z);
        run_join(r, s2, seq![o]);
        run_one(r1, o);
        idiv_runs(r1, h2, lt, op == BinOp::Mod);
        unboxed(r, s2 + seq![o], z, op_value(op, x, y), stack);
    } else {
        let z = if op == BinOp::Add {
            x + y
        } else if op == BinOp::Sub {
            x - y
        } else {
            x * y
        };
        ring_agrees(op, x, y, z);
        if op == BinOp::Sub {
            let load = Op::LoadRax(slot_name(lt));
            let s = seq![Op::Keep, load, Op::Minus];
            run_join(r, s2, s);
            run_three(r1, Op::Keep, load, Op::Minus);
            unboxed(r, s2 + s, word(z), op_value(op, x, y), stack);
        } else {
            let load = Op::LoadRcx(slot_name(lt));
            let s = seq![load, ring(op)];
            run_join(r, s2, s);
            run_two(r1, load, ring(op));
            assert(y + x == x + y && y * x == x * y) by (nonlinear_arith);
            unboxed(r, s2 + s, word(z), op_value(op, x, y), stack);
        }
    }
}

/// A small power.
proof fn power_runs(
    g: Asm,
    env: FnEnv,
    e: ExprView,
    vals: Map<Seq<char>, int>,
    r: Regs,
    a: Seq<Op>,
    x: int,
)
    requires
        raw_form(env, e) is Power,
        holds(g, vals, r.mem),
        a == raw_ops(g, env, *e->Binary_lhs),
        x == raw_value(*e->Binary_lhs, vals),
        is_short(x),
        leaves(r, a, x, g.stack as int),
        written(g, raw_text(g, env, *e->Binary_lhs), a),
        0 <= g.stack <= raw_text(g, env, *e->Binary_lhs).stack <= MAX_FRAME - 8,
    ensures
        leaves(r, raw_ops(g, env, e), raw_value(e, vals), g.stack as int),
        is_short(raw_value(e, vals)),
{
    reveal(raw_ops);
    let lhs = *e->Binary_lhs;
    let n = small_exp(*e->Binary_rhs);
    let stack = g.stack as int;
    wrap48_range(n as int);
    let y = raw_value(*e->Binary_rhs, vals);
    assert(y == n);
    power_range(x, n as nat);
    assert(raw_value(e, vals) == power48(x, n as nat));
    if n == 0 {
        let s = seq![Op::ConstRax(1)];
        run_one(r, Op::ConstRax(1));
        word_stays(1);
        unbox_wraps(1);
        unboxed(r, s, 1, 1, stack);
    } else {
        left_aside(g, env, lhs);
        let h = raw_text(g, env, lhs);
        let bt = h.temp().1 as int;
        let r1 = run(r, a);
        let s1 = a.push(Op::Store(bt));
        run_push(r, a, Op::Store(bt));
        aside(g, spilled(h), vals, r.mem, r1, bt);
        let m = (n - 1) as nat;
        run_join(r, s1, times_ops(bt, m));
        times_run(run(r, s1), bt, m, x);
        let s2 = s1 + times_ops(bt, m);
        unbox_wraps(run(r, s2).rax);
        unboxed(r, s2, run(r, s2).rax, power48(x, n as nat), stack);
    }
}

proof fn power_range(x: int, n: nat)
    ensures
        is_short(power48(x, n)),
    decreases n,
{
    if n > 0 {
        wrap48_range(power48(x, (n - 1) as nat) * x);
    }
}

/// The instructions for an expression leave its value.
proof fn code_runs(g: Asm, env: FnEnv, e: ExprView, vals: Map<Seq<char>, int>, r: Regs)
    requires
        pure(env, e),
        defined(e, vals),
        holds(g, vals, r.mem),
        0 <= g.stack,
        g.stack + 8 * size(e) <= MAX_FRAME,
    ensures
        leaves(r, raw_ops(g, env, e), raw_value(e, vals), g.stack as int),
        is_short(raw_value(e, vals)),
    decreases e,
{
    assert(placed(g, vals));
    let stack = g.stack as int;
    match raw_form(env, e) {
        RawForm::Const => {
            reveal(raw_ops);
            operand_runs(g, env, e, vals, r, r.mem);
            run_one(r, rax_of(g, e));
        },
        RawForm::Var => {
            reveal(raw_ops);
            operand_runs(g, env, e, vals, r, r.mem);
            run_one(r, rax_of(g, e));
        },
        RawForm::Neg => {
            let x = *e->Unary_expr;
            code_runs(g, env, x, vals, r);
            reveal(raw_ops);
            let a = raw_ops(g, env, x);
            let v = raw_value(x, vals);
            let s = a.push(Op::Negate);
            run_push(r, a, Op::Negate);
            unbox_wraps(word(-v));
            word_wraps(-v);
            wrap48_range(-v);
            unboxed(r, s, word(-v), wrap48_spec(-v), stack);
            assert(s.push(Op::Unbox) =~= raw_ops(g, env, e));
        },
        RawForm::Power => {
            let x = *e->Binary_lhs;
            code_written(g, env, x, vals);
            code_runs(g, env, x, vals, r);
            power_runs(g, env, e, vals, r, raw_ops(g, env, x), raw_value(x, vals));
        },
        RawForm::Arith => {
            let (lhs, rhs) = (*e->Binary_lhs, *e->Binary_rhs);
            let op = e->Binary_op;
            let (x, y) = (raw_value(lhs, vals), raw_value(rhs, vals));
            code_written(g, env, lhs, vals);
            code_runs(g, env, lhs, vals, r);
            let a = raw_ops(g, env, lhs);
            if divides(op) && const_of(rhs) != 0 || !divides(op) && is_operand(env, rhs) {
                left_runs(g, env, e, vals, r, a, x);
            } else if !divides(op) && is_operand(env, lhs) {
                code_runs(g, env, rhs, vals, r);
                right_runs(g, env, e, vals, r, raw_ops(g, env, rhs), y);
            } else {
                left_aside(g, env, lhs);
                let h = raw_text(g, env, lhs);
                let lt = h.temp().1 as int;
                let k = spilled(h);
                let s1 = a.push(Op::Store(lt));
                run_push(r, a, Op::Store(lt));
                aside(g, k, vals, r.mem, run(r, a), lt);
                let r2 = run(r, s1);
                code_runs(k, env, rhs, vals, r2);
                let c = raw_ops(k, env, rhs);
                run_join(r, s1, c);
                keeps_less(r.mem, r2.mem, run(r2, c).mem, stack, k.stack as int);
                both_run(g, env, e, vals, r, s1 + c, lt, x, y);
            }
        },
        _ => {},
    }
}

/// The code for an unboxed integer leaves in `rax` what the interpreter gives. It is that of
/// the code before it and of instructions which, run where the variables stand in their
/// places, leave the value of the expression and keep what is in use of the frame.
pub proof fn raw_code_agrees(
    g: Asm,
    env: FnEnv,
    e: ExprView,
    vals: Map<Seq<char>, int>,
    r: Regs,
)
    requires
        pure(env, e),
        defined(e, vals),
        holds(g, vals, r.mem),
        0 <= g.stack,
        g.stack + 8 * size(e) <= MAX_FRAME,
    ensures
        written(g, eval_raw(g, env, e), raw_ops(g, env, e)),
        run(r, raw_ops(g, env, e)).rax == raw_value(e, vals),
        keeps(r.mem, run(r, raw_ops(g, env, e)).mem, g.stack as int),
        is_short(raw_value(e, vals)),
{
    assert(placed(g, vals));
    code_written(g, env, e, vals);
    code_runs(g, env, e, vals, r);
    reveal(raw_text);
}

pub open spec fn r8_of(g: Asm, e: ExprView) -> Op {
    match e {
        ExprView::Ident(n) => Op::LoadR8(place_of(g, n)),
        _ => Op::ConstR8(int_value(e) as int),
    }
}

pub open spec fn r9_of(g: Asm, e: ExprView) -> Op {
    match e {
        ExprView::Ident(n) => Op::LoadR9(place_of(g, n)),
        _ => Op::ConstR9(int_value(e) as int),
    }
}

/// The instructions that put the operands of a comparison into `r8` and `r9`.
pub open spec fn pair_ops(g: Asm, env: FnEnv, lhs: ExprView, rhs: ExprView) -> Seq<Op> {
    let h = raw_text(g, env, lhs);
    let lt = h.temp().1 as int;
    if is_operand(env, rhs) {
        if is_operand(env, lhs) {
            seq![r8_of(g, lhs), r9_of(g, rhs)]
        } else {
            raw_ops(g, env, lhs) + seq![Op::ToR8, r9_of(g, rhs)]
        }
    } else if is_operand(env, lhs) {
        raw_ops(g, env, rhs) + seq![Op::ToR9, r8_of(g, lhs)]
    } else {
        raw_ops(g, env, lhs).push(Op::Store(lt)) + raw_ops(spilled(h), env, rhs) + seq![
            Op::ToR9,
            Op::LoadR8(slot_name(lt)),
        ]
    }
}

#[verifier::opaque]
pub open spec fn pair_text(g: Asm, env: FnEnv, e: ExprView) -> Asm {
    int_operands(g, env, e)
}

proof fn pair_operands(g: Asm, env: FnEnv, e: ExprView)
    requires
        is_operand(env, e),
        e is Ident ==> has_place(g, e->Ident_0),
    ensures
        ({
            let t = raw_operand(g, env, e);
            &&& t is Some
            &&& "    mov r8, "@ + t->Some_0 + "\n"@ == op_text(r8_of(g, e))
            &&& "    mov r9, "@ + t->Some_0 + "\n"@ == op_text(r9_of(g, e))
        }),
{
}

proof fn simple_pair_written(g: Asm, env: FnEnv, e: ExprView)
    requires
        e is Binary,
        is_operand(env, *e->Binary_lhs),
        is_operand(env, *e->Binary_rhs),
        *e->Binary_lhs is Ident ==> has_place(g, e->Binary_lhs->Ident_0),
        *e->Binary_rhs is Ident ==> has_place(g, e->Binary_rhs->Ident_0),
    ensures
        pair_text(g, env, e) == emitted(
            g,
            seq![r8_of(g, *e->Binary_lhs), r9_of(g, *e->Binary_rhs)],
        ),
{
    reveal(pair_text);
    let (lhs, rhs) = (*e->Binary_lhs, *e->Binary_rhs);
    pair_operands(g, env, lhs);
    pair_operands(g, env, rhs);
    let ll = raw_operand(g, env, lhs)->Some_0;
    let rr = raw_operand(g, env, rhs)->Some_0;
    let none = Seq::<Op>::empty();
    nothing_yet(g);
    with_text(g, "    mov r8, "@, ll, "\n"@);
    one_more(g, none, r8_of(g, lhs));
    let s = none.push(r8_of(g, lhs));
    with_text(emitted(g, s), "    mov r9, "@, rr, "\n"@);
    one_more(g, s, r9_of(g, rhs));
    assert(s.push(r9_of(g, rhs)) =~= seq![r8_of(g, lhs), r9_of(g, rhs)]);
}

proof fn left_pair_written(g: Asm, env: FnEnv, e: ExprView, g1: Asm, a: Seq<Op>)
    requires
        e is Binary,
        !is_operand(env, *e->Binary_lhs),
        is_operand(env, *e->Binary_rhs),
        *e->Binary_rhs is Ident ==> has_place(g, e->Binary_rhs->Ident_0),
        raw_text(g, env, *e->Binary_lhs) == emitted(g1, a),
    ensures
        pair_text(g, env, e) == emitted(g1, a + seq![Op::ToR8, r9_of(g, *e->Binary_rhs)]),
{
    reveal(pair_text);
    reveal(raw_text);
    let rhs = *e->Binary_rhs;
    no_operand(g, env, *e->Binary_lhs);
    pair_operands(g, env, rhs);
    let rr = raw_operand(g, env, rhs)->Some_0;
    let s = a.push(Op::ToR8);
    one_more(g1, a, Op::ToR8);
    with_text(emitted(g1, s), "    mov r9, "@, rr, "\n"@);
    one_more(g1, s, r9_of(g, rhs));
    assert(s.push(r9_of(g, rhs)) =~= a + seq![Op::ToR8, r9_of(g, rhs)]);
}

proof fn right_pair_written(g: Asm, env: FnEnv, e: ExprView, g1: Asm, b: Seq<Op>)
    requires
        e is Binary,
        is_operand(env, *e->Binary_lhs),
        !is_operand(env, *e->Binary_rhs),
        *e->Binary_lhs is Ident ==> has_place(g, e->Binary_lhs->Ident_0),
        raw_text(g, env, *e->Binary_rhs) == emitted(g1, b),
    ensures
        pair_text(g, env, e) == emitted(g1, b + seq![Op::ToR9, r8_of(g, *e->Binary_lhs)]),
{
    reveal(pair_text);
    reveal(raw_text);
    let lhs = *e->Binary_lhs;
    no_operand(g, env, *e->Binary_rhs);
    pair_operands(g, env, lhs);
    let ll = raw_operand(g, env, lhs)->Some_0;
    let s = b.push(Op::ToR9);
    one_more(g1, b, Op::ToR9);
    with_text(emitted(g1, s), "    mov r8, "@, ll, "\n"@);
    one_more(g1, s, r8_of(g, lhs));
    assert(s.push(r8_of(g, lhs)) =~= b + seq![Op::ToR9, r8_of(g, lhs)]);
}

proof fn both_pair_written(g: Asm, env: FnEnv, e: ExprView, g2: Asm, s: Seq<Op>, lt: int)
    requires
        e is Binary,
        !is_operand(env, *e->Binary_lhs),
        !is_operand(env, *e->Binary_rhs),
        raw_text(g, env, *e->Binary_lhs).temp().1 == lt,
        raw_text(spilled(raw_text(g, env, *e->Binary_lhs)), env, *e->Binary_rhs) == emitted(g2, s),
    ensures
        pair_text(g, env, e) == emitted(g2, s + seq![Op::ToR9, Op::LoadR8(slot_name(lt))]),
{
    reveal(pair_text);
    reveal(raw_text);
    no_operand(g, env, *e->Binary_lhs);
    no_operand(g, env, *e->Binary_rhs);
    let s1 = s.push(Op::ToR9);
    let load = Op::LoadR8(slot_name(lt));
    one_more(g2, s, Op::ToR9);
    slot_texts(lt);
    with_number(emitted(g2, s1), "    mov r8, [rbp"@, lt, "]\n"@);
    one_more(g2, s1, load);
    assert(s1.push(load) =~= s + seq![Op::ToR9, load]);
}

/// The code of the operands of a comparison is that of their instructions.
proof fn pair_written(g: Asm, env: FnEnv, e: ExprView, vals: Map<Seq<char>, int>)
    requires
        e is Binary,
        pure(env, *e->Binary_lhs),
        pure(env, *e->Binary_rhs),
        defined(*e->Binary_lhs, vals),
        defined(*e->Binary_rhs, vals),
        placed(g, vals),
        0 <= g.stack,
        g.stack + 8 * size(e) <= MAX_FRAME,
    ensures
        written(g, pair_text(g, env, e), pair_ops(g, env, *e->Binary_lhs, *e->Binary_rhs)),
{
    let (lhs, rhs) = (*e->Binary_lhs, *e->Binary_rhs);
    has_one(g, lhs, vals);
    has_one(g, rhs, vals);
    code_written(g, env, lhs, vals);
    let h = raw_text(g, env, lhs);
    if is_operand(env, rhs) {
        if is_operand(env, lhs) {
            simple_pair_written(g, env, e);
        } else {
            left_pair_written(g, env, e, grown(g, h), raw_ops(g, env, lhs));
        }
    } else if is_operand(env, lhs) {
        code_written(g, env, rhs, vals);
        right_pair_written(
            g,
            env,
            e,
            grown(g, raw_text(g, env, rhs)),
            raw_ops(g, env, rhs),
        );
    } else {
        left_aside(g, env, lhs);
        let k = spilled(h);
        let lt = h.temp().1;
        code_written(k, env, rhs, vals);
        let s1 = raw_ops(g, env, lhs).push(Op::Store(lt as int));
        let g2 = grown(g, k);
        let h2 = raw_text(k, env, rhs);
        assert(k == emitted(g2, s1));
        joined(g2, s1, h2, raw_ops(k, env, rhs));
        both_pair_written(
            g,
            env,
            e,
            grown(g2, h2),
            s1 + raw_ops(k, env, rhs),
            lt as int,
        );
    }
}

proof fn pair_operand_runs(
    g: Asm,
    env: FnEnv,
    e: ExprView,
    vals: Map<Seq<char>, int>,
    r: Regs,
    m: spec_fn(Seq<char>) -> int,
)
    requires
        is_operand(env, e),
        defined(e, vals),
        holds(g, vals, m),
        keeps(m, r.mem, g.stack as int),
    ensures
        step(r, r8_of(g, e)) == (Regs { r8: raw_value(e, vals), ..r }),
        step(r, r9_of(g, e)) == (Regs { r9: raw_value(e, vals), ..r }),
{
    operand_runs(g, env, e, vals, r, m);
    if let ExprView::Int(n) = e {
        wrap48_range(n as int);
        word_stays(wrap48_spec(n as int));
    }
}

/// The instructions for the operands of a comparison leave their values.
proof fn pair_runs(g: Asm, env: FnEnv, e: ExprView, vals: Map<Seq<char>, int>, r: Regs)
    requires
        e is Binary,
        pure(env, *e->Binary_lhs),
        pure(env, *e->Binary_rhs),
        defined(*e->Binary_lhs, vals),
        defined(*e->Binary_rhs, vals),
        holds(g, vals, r.mem),
        0 <= g.stack,
        g.stack + 8 * size(e) <= MAX_FRAME,
    ensures
        ({
            let t = run(r, pair_ops(g, env, *e->Binary_lhs, *e->Binary_rhs));
            &&& t.r8 == raw_value(*e->Binary_lhs, vals)
            &&& t.r9 == raw_value(*e->Binary_rhs, vals)
            &&& keeps(r.mem, t.mem, g.stack as int)
        }),
        is_short(raw_value(*e->Binary_lhs, vals)),
        is_short(raw_value(*e->Binary_rhs, vals)),
{
    let (lhs, rhs) = (*e->Binary_lhs, *e->Binary_rhs);
    let stack = g.stack as int;
    assert(placed(g, vals));
    code_runs(g, env, lhs, vals, r);
    code_runs(g, env, rhs, vals, r);
    let a = raw_ops(g, env, lhs);
    if is_operand(env, rhs) {
        if is_operand(env, lhs) {
            run_two(r, r8_of(g, lhs), r9_of(g, rhs));
            pair_operand_runs(g, env, lhs, vals, r, r.mem);
            pair_operand_runs(g, env, rhs, vals, step(r, r8_of(g, lhs)), r.mem);
        } else {
            let r1 = run(r, a);
            run_join(r, a, seq![Op::ToR8, r9_of(g, rhs)]);
            run_two(r1, Op::ToR8, r9_of(g, rhs));
            pair_operand_runs(g, env, rhs, vals, step(r1, Op::ToR8), r.mem);
        }
    } else if is_operand(env, lhs) {
        let b = raw_ops(g, env, rhs);
        let r1 = run(r, b);
        run_join(r, b, seq![Op::ToR9, r8_of(g, lhs)]);
        run_two(r1, Op::ToR9, r8_of(g, lhs));
        pair_operand_runs(g, env, lhs, vals, step(r1, Op::ToR9), r.mem);
    } else {
        code_written(g, env, lhs, vals);
        left_aside(g, env, lhs);
        let h = raw_text(g, env, lhs);
        let lt = h.temp().1 as int;
        let k = spilled(h);
        let s1 = a.push(Op::Store(lt));
        run_push(r, a, Op::Store(lt));
        aside(g, k, vals, r.mem, run(r, a), lt);
        let r2 = run(r, s1);
        code_runs(k, env, rhs, vals, r2);
        let c = raw_ops(k, env, rhs);
        run_join(r, s1, c);
        keeps_less(r.mem, r2.mem, run(r2, c).mem, stack, k.stack as int);
        let load = Op::LoadR8(slot_name(lt));
        run_join(r, s1 + c, seq![Op::ToR9, load]);
        run_two(run(r, s1 + c), Op::ToR9, load);
    }
}

/// Whether a jump is taken behind a comparison of `a` with `b`.
pub open spec fn taken(jump: Seq<char>, a: int, b: int) -> bool {
    if jump == "jge"@ {
        a >= b
    } else if jump == "jg"@ {
        a > b
    } else if jump == "jle"@ {
        a <= b
    } else if jump == "jl"@ {
        a < b
    } else if jump == "jne"@ {
        a != b
    } else {
        a == b
    }
}

proof fn jump_agrees(op: BinOp, a: int, b: int)
    requires
        is_comparison(op),
        is_short(a),
        is_short(b),
    ensures
        int_binop(op, a as i64, b as i64) == OutView::Give(
            ValueView::Bool(!taken(jcc_false(op), a, b)),
        ),
{
    reveal_strlit("jge");
    reveal_strlit("jg");
    reveal_strlit("jle");
    reveal_strlit("jl");
    reveal_strlit("jne");
    reveal_strlit("je");
    assert("jge"@[1] == 'g' && "jg"@[1] == 'g' && "jle"@[1] == 'l' && "jl"@[1] == 'l' && "jne"@[1]
        == 'n' && "je"@[1] == 'e');
    assert("jge"@.len() == 3 && "jg"@.len() == 2 && "jle"@.len() == 3 && "jl"@.len() == 2
        && "jne"@.len() == 3 && "je"@.len() == 2);
}

/// A condition that compares unboxed integers jumps exactly where the interpreter finds it
/// false: its code is that of the code before it, of instructions that leave the values of
/// its sides in `r8` and `r9`, of a comparison and of a jump.
pub proof fn comparison_agrees(
    g: Asm,
    env: FnEnv,
    e: ExprView,
    target: Seq<char>,
    vals: Map<Seq<char>, int>,
    r: Regs,
)
    requires
        is_int_comparison(env, e),
        pure(env, *e->Binary_lhs),
        pure(env, *e->Binary_rhs),
        defined(*e->Binary_lhs, vals),
        defined(*e->Binary_rhs, vals),
        holds(g, vals, r.mem),
        0 <= g.stack,
        g.stack + 8 * size(e) <= MAX_FRAME,
    ensures
        ({
            let ops = pair_ops(g, env, *e->Binary_lhs, *e->Binary_rhs);
            let h = int_operands(g, env, e);
            let jump = jcc_false(e->Binary_op);
            let t = run(r, ops);
            &&& written(g, h, ops)
            &&& cond_false(g, env, e, target) == h.p("    cmp r8, r9\n"@).p("    "@).p(jump).p(
                " "@,
            ).p(target).p("\n"@)
            &&& int_binop(
                e->Binary_op,
                raw_value(*e->Binary_lhs, vals) as i64,
                raw_value(*e->Binary_rhs, vals) as i64,
            ) == OutView::Give(ValueView::Bool(!taken(jump, t.r8, t.r9)))
            &&& keeps(r.mem, t.mem, g.stack as int)
        }),
{
    assert(placed(g, vals));
    assert(e is Binary && is_comparison(e->Binary_op));
    pair_written(g, env, e, vals);
    pair_runs(g, env, e, vals, r);
    jump_agrees(
        e->Binary_op,
        raw_value(*e->Binary_lhs, vals),
        raw_value(*e->Binary_rhs, vals),
    );
    reveal(pair_text);
}

} // verus!
