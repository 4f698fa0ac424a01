//! Branches in the code of the x86-64 back end: `if` and `else`, conditional expressions,
//! `and` and `or`.

use crate::asmexpr::{gen_binary, gen_expr};
use crate::asmflow::{
    branch_goes, cmp_line, condition_branches, decision, frame_operand, jump_goes, jump_text,
    label_local, label_passes, line_passes, load_line, number_flat, says_yes, store_line,
    truth_text, x86, Cpu,
};
use crate::asmkeep::{cond_false_kept, gen_expr_kept, gen_stmts_kept, kept, kept_self};
use crate::asmexpr::cond_false;
use crate::asmstate::{Asm, FnEnv};
use crate::asmstmt::{gen_elifs, gen_stmt, gen_stmts};
use crate::ast::{BinOp, ExprView, StmtView};
use crate::coderun::{comes, flat, goes, goes_on, local, once, part_of};
use crate::text::dec;
use vstd::prelude::*;

verus! {

/// Control comes there, and `rax` holds `x`.
pub open spec fn comes_with<D>(
    c: Cpu<D>,
    t: Seq<char>,
    a: Seq<char>,
    d: D,
    b: Seq<char>,
    x: int
) -> bool {
    exists|e: D| #[trigger] goes(t, c.run, a, d, b, e) && (c.reg)("rax"@, e) == x
}

/// The question to the runtime whether `rax` is true.
proof fn question_goes<D>(c: Cpu<D>, t: Seq<char>, a: Seq<char>, d: D) -> (e: D)
    requires
        x86(c),
        (a + "    mov rcx, rax\n    call lumen_truthy\n    cmp rax, 0\n"@).is_prefix_of(t),
    ensures
        goes(t, c.run, a, d, a + "    mov rcx, rax\n    call lumen_truthy\n    cmp rax, 0\n"@, e),
        (c.takes)("je"@, e) == !(c.truthy)((c.reg)("rax"@, d)),
        (c.takes)("jne"@, e) == (c.truthy)((c.reg)("rax"@, d)),
        forall|x: Seq<char>| frame_operand(x) ==> #[trigger] (c.reg)(x, e) == (c.reg)(x, d),
{
    let s1 = "    mov rcx, rax"@;
    let s2 = "    call lumen_truthy"@;
    let v = "    cmp rax, 0\n"@;
    let s3 = "    cmp rax, 0"@;
    truth_text(a);
    question_text(a);
    let b1 = a + (s1 + "\n"@);
    let b2 = b1 + (s2 + "\n"@);
    let b3 = b2 + v;
    assert(b1.is_prefix_of(b2) && b2.is_prefix_of(b3));
    part_of(t, b2, b3);
    part_of(t, b1, b2);
    let d1 = (c.run)(s1, d).0;
    let d2 = (c.run)(s2, d1).0;
    let d3 = (c.run)(s3, d2).0;
    assert((c.run)(s1, d).1 is None);
    line_passes(c, t, a, s1, s1 + "\n"@, d);
    line_passes(c, t, b1, s2, s2 + "\n"@, d1);
    assert((c.run)(cmp_line("rax"@, "0"@), d2).1 is None);
    line_passes(c, t, b2, s3, v, d2);
    goes_on(t, c.run, a, d, b1, d1, b2, d2);
    goes_on(t, c.run, a, d, b2, d2, b3, d3);
    assert((c.reg)("0"@, d2) == 0);
    assert forall|x: Seq<char>| frame_operand(x) implies #[trigger] (c.reg)(x, d3) == (c.reg)(
        x,
        d,
    ) by {
        assert((c.reg)(x, (c.run)(s1, d).0) == (c.reg)(x, d));
        assert((c.reg)(x, (c.run)(s2, d1).0) == (c.reg)(x, d1));
        assert((c.reg)(x, (c.run)(s3, d2).0) == (c.reg)(x, d2));
    }
    d3
}

proof fn question_text(a: Seq<char>)
    ensures
        a + "    mov rcx, rax\n    call lumen_truthy\n    cmp rax, 0\n"@ == a + (
        "    mov rcx, rax"@ + "\n"@) + ("    call lumen_truthy"@ + "\n"@) + "    cmp rax, 0\n"@,
{
    reveal_strlit("    mov rcx, rax\n    call lumen_truthy\n    cmp rax, 0\n");
    reveal_strlit("    mov rcx, rax");
    reveal_strlit("    call lumen_truthy");
    reveal_strlit("    cmp rax, 0\n");
    reveal_strlit("\n");
    let w = ("    mov rcx, rax"@ + "\n"@) + ("    call lumen_truthy"@ + "\n"@)
        + "    cmp rax, 0\n"@;
    assert("    mov rcx, rax\n    call lumen_truthy\n    cmp rax, 0\n"@ =~= w);
    assert(a + w =~= a + ("    mov rcx, rax"@ + "\n"@) + ("    call lumen_truthy"@ + "\n"@)
        + "    cmp rax, 0\n"@);
}

/// The slot with an offset.
pub open spec fn slot_text(off: int) -> Seq<char> {
    "[rbp"@ + dec(off) + "]"@
}

pub(crate) proof fn slot_facts(a: Seq<char>, off: int)
    ensures
        frame_operand(slot_text(off)),
        a + "    mov [rbp"@ + dec(off) + "], rax\n"@ == a + (store_line(slot_text(off)) + "\n"@),
        a + "    mov rax, [rbp"@ + dec(off) + "]\n"@ == a + (load_line(slot_text(off)) + "\n"@),
        flat(store_line(slot_text(off))),
        flat(load_line(slot_text(off))),
{
    number_flat(off);
    reveal_strlit("[rbp");
    reveal_strlit("]");
    reveal_strlit("    mov [rbp");
    reveal_strlit("], rax\n");
    reveal_strlit("    mov rax, [rbp");
    reveal_strlit("]\n");
    reveal_strlit("    mov ");
    reveal_strlit(", rax");
    reveal_strlit("    mov rax, ");
    reveal_strlit("\n");
    let n = dec(off);
    let x = slot_text(off);
    assert forall|i: int| 0 <= i < x.len() implies #[trigger] x[i] != '\n' && x[i] != ',' by {
        if 4 <= i < 4 + n.len() {
            assert(x[i] == n[i - 4]);
        }
    }
    dec_some(off);
    let u = store_line(x);
    let v = load_line(x);
    assert forall|i: int| 0 <= i < u.len() implies #[trigger] u[i] != '\n' by {
        if 8 <= i < 8 + x.len() {
            assert(u[i] == x[i - 8]);
        }
    }
    assert forall|i: int| 0 <= i < v.len() implies #[trigger] v[i] != '\n' by {
        if 13 <= i {
            assert(v[i] == x[i - 13]);
        }
    }
    assert(a + "    mov [rbp"@ + n + "], rax\n"@ =~= a + (u + "\n"@));
    assert(a + "    mov rax, [rbp"@ + n + "]\n"@ =~= a + (v + "\n"@));
}

proof fn dec_some(n: int)
    ensures
        dec(n).len() > 0,
{
    assert(crate::text::dec_nat(if n < 0 {
        (-n) as nat
    } else {
        n as nat
    }).len() > 0);
}

/// How the parts of `a and b` or `a or b` hang together. The left side is the expression
/// from `first` on, the right side the one from `second` on. Behind the left side, if its
/// value decides, control comes to the end with that value; if not, it comes to the right
/// side, and from there to the end with the value of the right side.
pub open spec fn short_hangs<D>(
    c: Cpu<D>,
    t: Seq<char>,
    g: Asm,
    env: FnEnv,
    op: BinOp,
    lhs: ExprView,
    rhs: ExprView,
    first: Asm,
    second: Asm
) -> bool {
    let h = gen_expr(g, env, ExprView::Binary { op, lhs: Box::new(lhs), rhs: Box::new(rhs) });
    let l = gen_expr(first, env, lhs);
    let r = gen_expr(second, env, rhs);
    &&& first.out == g.out
    &&& forall|d: D|
        (c.truthy)((c.reg)("rax"@, d)) == (op == BinOp::Or) ==> #[trigger] comes_with(
            c,
            t,
            l.out,
            d,
            h.out,
            (c.reg)("rax"@, d),
        )
    &&& forall|d: D|
        (c.truthy)((c.reg)("rax"@, d)) == (op == BinOp::And) ==> #[trigger] comes(
            t,
            c.run,
            l.out,
            d,
            second.out,
        )
    &&& forall|d: D| #[trigger] comes_with(c, t, r.out, d, h.out, (c.reg)("rax"@, d))
}

/// Between the sides.
#[verifier::opaque]
spec fn short_between(g7: Asm, lbl: Seq<char>, op: BinOp) -> (Asm, i64) {
    let (g8, lt) = g7.temp();
    let g9 = g8.p("    mov [rbp"@).n(lt as int).p("], rax\n"@);
    let g10 = g9.p("    mov rcx, rax\n    call lumen_truthy\n    cmp rax, 0\n"@);
    (
        if op == BinOp::And {
            g10.p("    je "@).p(lbl).p("\n"@)
        } else {
            g10.p("    jne "@).p(lbl).p("\n"@)
        },
        lt,
    )
}

/// Behind the right side.
#[verifier::opaque]
spec fn short_end(g14: Asm, lbl: Seq<char>, lt: i64) -> Asm {
    let g15 = g14.p("    jmp "@).p(lbl).p("_end\n"@);
    g15.p(lbl).p(":\n    mov rax, [rbp"@).n(lt as int).p("]\n"@).p(lbl).p("_end:\n"@)
}

proof fn short_shape(g: Asm, env: FnEnv, op: BinOp, lhs: ExprView, rhs: ExprView)
    requires
        op == BinOp::And || op == BinOp::Or,
    ensures
        ({
            let (g6, lbl) = g.new_label("sc"@);
            let (g11, lt) = short_between(gen_expr(g6, env, lhs), lbl, op);
            gen_expr(
                g,
                env,
                ExprView::Binary { op, lhs: Box::new(lhs), rhs: Box::new(rhs) },
            ) == short_end(gen_expr(g11, env, rhs), lbl, lt)
        }),
{
    reveal(short_between);
    reveal(short_end);
    let e = ExprView::Binary { op, lhs: Box::new(lhs), rhs: Box::new(rhs) };
    assert(gen_expr(g, env, e) == gen_binary(g, env, e));
}

proof fn short_between_text(g7: Asm, lbl: Seq<char>, op: BinOp)
    ensures
        ({
            let (g11, lt) = short_between(g7, lbl, op);
            let x = slot_text(lt as int);
            let b = g7.out + (store_line(x) + "\n"@);
            let e = b + "    mov rcx, rax\n    call lumen_truthy\n    cmp rax, 0\n"@;
            &&& g11.out == e + "    "@ + (if op == BinOp::And {
                "je"@
            } else {
                "jne"@
            }) + " "@ + lbl + "\n"@
            &&& g7.out.is_prefix_of(b)
            &&& b.is_prefix_of(e)
            &&& e.is_prefix_of(g11.out)
        }),
{
    reveal(short_between);
    reveal(Asm::p);
    reveal(Asm::n);
    let (g8, lt) = g7.temp();
    assert(g8.out == g7.out) by {
        reveal(Asm::temp);
        reveal(Asm::grow);
        reveal(Asm::fail);
    }
    slot_facts(g7.out, lt as int);
    let x = slot_text(lt as int);
    let b = g7.out + (store_line(x) + "\n"@);
    let e = b + "    mov rcx, rax\n    call lumen_truthy\n    cmp rax, 0\n"@;
    jump_text(e, lbl);
    jne_text(e, lbl);
}

proof fn jne_text(f: Seq<char>, l: Seq<char>)
    ensures
        f + "    jne "@ + l + "\n"@ == f + "    "@ + "jne"@ + " "@ + l + "\n"@,
{
    reveal_strlit("    jne ");
    reveal_strlit("jne");
    reveal_strlit(" ");
    reveal_strlit("    ");
    assert("    jne "@ =~= "    "@ + "jne"@ + " "@);
    assert(f + "    jne "@ =~= f + "    "@ + "jne"@ + " "@);
}

proof fn short_end_text(g14: Asm, lbl: Seq<char>, lt: i64)
    requires
        local(lbl),
        flat(lbl),
    ensures
        ({
            let h = short_end(g14, lbl, lt);
            let l = lbl + "_end"@;
            let x = slot_text(lt as int);
            let g15 = g14.out + "    jmp "@ + l + "\n"@;
            let b = g15 + lbl + ":\n"@;
            let e = b + (load_line(x) + "\n"@);
            &&& h.out == e + l + ":\n"@
            &&& g14.out.is_prefix_of(g15)
            &&& g15.is_prefix_of(b)
            &&& b.is_prefix_of(e)
            &&& e.is_prefix_of(h.out)
            &&& local(l)
            &&& flat(l)
        }),
{
    reveal(short_end);
    reveal(Asm::p);
    reveal(Asm::n);
    reveal_strlit("_end");
    reveal_strlit("_end\n");
    reveal_strlit("_end:\n");
    reveal_strlit("\n");
    reveal_strlit(":\n");
    reveal_strlit(":\n    mov rax, [rbp");
    reveal_strlit("    mov rax, [rbp");
    let l = lbl + "_end"@;
    assert forall|i: int| 0 <= i < l.len() implies #[trigger] l[i] != '\n' by {
        if i < lbl.len() {
            assert(l[i] == lbl[i]);
        }
    }
    let a = g14.out + "    jmp "@;
    assert(a + lbl + "_end\n"@ =~= a + l + "\n"@);
    let g15 = a + l + "\n"@;
    let b = g15 + lbl + ":\n"@;
    let n = dec(lt as int);
    assert(g15 + lbl + ":\n    mov rax, [rbp"@ =~= b + "    mov rax, [rbp"@);
    slot_facts(b, lt as int);
    let e = b + (load_line(slot_text(lt as int)) + "\n"@);
    assert(e + lbl + "_end:\n"@ =~= e + l + ":\n"@);
}

/// The laws of `and` and `or`: the value of `a and b` is that of `b` where `a` is true and
/// that of `a` where it is not, and `b` is evaluated only in the first case; `or` is the
/// other way round.
pub proof fn short_code<D>(
    c: Cpu<D>,
    t: Seq<char>,
    g: Asm,
    env: FnEnv,
    op: BinOp,
    lhs: ExprView,
    rhs: ExprView
)
    requires
        x86(c),
        once(t),
        op == BinOp::And || op == BinOp::Or,
        gen_expr(
            g,
            env,
            ExprView::Binary { op, lhs: Box::new(lhs), rhs: Box::new(rhs) },
        ).out.is_prefix_of(t),
    ensures
        exists|first: Asm, second: Asm| #[trigger]
            short_hangs(c, t, g, env, op, lhs, rhs, first, second),
{
    let h = gen_expr(g, env, ExprView::Binary { op, lhs: Box::new(lhs), rhs: Box::new(rhs) });
    let (g6, lbl) = g.new_label("sc"@);
    let g7 = gen_expr(g6, env, lhs);
    let (g11, lt) = short_between(g7, lbl, op);
    let g14 = gen_expr(g11, env, rhs);
    short_shape(g, env, op, lhs, rhs);
    reveal_strlit("sc");
    label_local(g, "sc"@);
    short_between_text(g7, lbl, op);
    short_end_text(g14, lbl, lt);
    assert(g6.out == g.out) by {
        reveal(Asm::new_label);
    }
    kept_self(g11);
    gen_expr_kept(g11, g11, env, rhs);
    assert(g11.out.is_prefix_of(g14.out)) by {
        reveal(kept);
    }
    let x = slot_text(lt as int);
    let j = if op == BinOp::And {
        "je"@
    } else {
        "jne"@
    };
    let b = g7.out + (store_line(x) + "\n"@);
    let e = b + "    mov rcx, rax\n    call lumen_truthy\n    cmp rax, 0\n"@;
    let l = lbl + "_end"@;
    let g15 = g14.out + "    jmp "@ + l + "\n"@;
    let f = g15 + lbl + ":\n"@;
    let k = f + (load_line(x) + "\n"@);
    part_of(t, k, h.out);
    part_of(t, f, k);
    part_of(t, g15, f);
    part_of(t, g14.out, g15);
    part_of(t, g11.out, g14.out);
    part_of(t, e, g11.out);
    part_of(t, b, e);
    slot_facts(b, lt as int);
    assert forall|d: D|
        (c.truthy)((c.reg)("rax"@, d)) == (op == BinOp::Or) implies #[trigger] comes_with(
        c,
        t,
        g7.out,
        d,
        h.out,
        (c.reg)("rax"@, d),
    ) by {
        let d1 = (c.run)(store_line(x), d).0;
        assert((c.run)(store_line(x), d).1 is None);
        line_passes(c, t, g7.out, store_line(x), store_line(x) + "\n"@, d);
        let d2 = question_goes(c, t, b, d1);
        goes_on(t, c.run, g7.out, d, b, d1, e, d2);
        branch_goes(c, t, e, j, lbl, g15, d2);
        goes_on(t, c.run, g7.out, d, e, d2, f, d2);
        let d3 = (c.run)(load_line(x), d2).0;
        assert((c.run)(load_line(x), d2).1 is None);
        line_passes(c, t, f, load_line(x), load_line(x) + "\n"@, d2);
        goes_on(t, c.run, g7.out, d, f, d2, k, d3);
        label_passes(c, t, k, l, d3);
        goes_on(t, c.run, g7.out, d, k, d3, h.out, d3);
        assert((c.reg)(x, d2) == (c.reg)(x, d1));
    }
    assert forall|d: D|
        (c.truthy)((c.reg)("rax"@, d)) == (op == BinOp::And) implies #[trigger] comes(
        t,
        c.run,
        g7.out,
        d,
        g11.out,
    ) by {
        let d1 = (c.run)(store_line(x), d).0;
        assert((c.run)(store_line(x), d).1 is None);
        line_passes(c, t, g7.out, store_line(x), store_line(x) + "\n"@, d);
        let d2 = question_goes(c, t, b, d1);
        goes_on(t, c.run, g7.out, d, b, d1, e, d2);
        branch_goes(c, t, e, j, lbl, g15, d2);
        goes_on(t, c.run, g7.out, d, e, d2, g11.out, d2);
    }
    assert forall|d: D| #[trigger] comes_with(
        c,
        t,
        g14.out,
        d,
        h.out,
        (c.reg)("rax"@, d),
    ) by {
        jump_goes(c, t, g14.out, l, k, d);
    }
    assert(short_hangs(c, t, g, env, op, lhs, rhs, g6, g11));
}

/// How the parts of a conditional expression hang together: behind the condition, the one
/// branch or the other follows as the condition's value is true or not, and from its end
/// control comes to the end with the value of the branch.
pub open spec fn choice_hangs<D>(
    c: Cpu<D>,
    t: Seq<char>,
    g: Asm,
    env: FnEnv,
    cond: ExprView,
    then: ExprView,
    els: ExprView,
    test: Asm,
    one: Asm,
    other: Asm
) -> bool {
    let h = gen_expr(
        g,
        env,
        ExprView::IfElse { cond: Box::new(cond), then: Box::new(then), els: Box::new(els) },
    );
    let q = gen_expr(test, env, cond);
    &&& test.out == g.out
    &&& forall|d: D|
        (c.truthy)((c.reg)("rax"@, d)) ==> #[trigger] comes(t, c.run, q.out, d, one.out)
    &&& forall|d: D|
        !(c.truthy)((c.reg)("rax"@, d)) ==> #[trigger] comes(t, c.run, q.out, d, other.out)
    &&& forall|d: D| #[trigger] goes(t, c.run, gen_expr(one, env, then).out, d, h.out, d)
    &&& forall|d: D| #[trigger] goes(t, c.run, gen_expr(other, env, els).out, d, h.out, d)
}

/// The law of conditional expressions.
pub proof fn choice_code<D>(
    c: Cpu<D>,
    t: Seq<char>,
    g: Asm,
    env: FnEnv,
    cond: ExprView,
    then: ExprView,
    els: ExprView
)
    requires
        x86(c),
        once(t),
        gen_expr(
            g,
            env,
            ExprView::IfElse { cond: Box::new(cond), then: Box::new(then), els: Box::new(els) },
        ).out.is_prefix_of(t),
    ensures
        exists|test: Asm, one: Asm, other: Asm| #[trigger]
            choice_hangs(c, t, g, env, cond, then, els, test, one, other),
{
    let e = ExprView::IfElse { cond: Box::new(cond), then: Box::new(then), els: Box::new(els) };
    let h = gen_expr(g, env, e);
    let (g2, else_lbl) = g.new_label("cond_else"@);
    let (g3, end_lbl) = g2.new_label("cond_end"@);
    let g4 = gen_expr(g3, env, cond);
    let g5 = g4.p("    mov rcx, rax\n    call lumen_truthy\n    cmp rax, 0\n"@);
    let g6 = g5.p("    je "@).p(else_lbl).p("\n"@);
    let g7 = gen_expr(g6, env, then);
    let g8 = g7.p("    jmp "@).p(end_lbl).p("\n"@);
    let g9 = g8.p(else_lbl).p(":\n"@);
    let g10 = gen_expr(g9, env, els);
    let g11 = g10.p(end_lbl).p(":\n"@);
    assert(h == g11) by {
        assert(h == crate::asmexpr::expr_if_else(g, env, e));
    }
    reveal_strlit("cond_else");
    reveal_strlit("cond_end");
    label_local(g, "cond_else"@);
    label_local(g2, "cond_end"@);
    assert(g3.out == g.out) by {
        reveal(Asm::new_label);
    }
    kept_self(g6);
    kept_self(g9);
    gen_expr_kept(g6, g6, env, then);
    gen_expr_kept(g9, g9, env, els);
    assert(g6.out.is_prefix_of(g7.out) && g9.out.is_prefix_of(g10.out)) by {
        reveal(kept);
    }
    choice_texts(g4, g7, g8, g10, else_lbl, end_lbl);
    part_of(t, g10.out, h.out);
    part_of(t, g9.out, g10.out);
    part_of(t, g8.out, g9.out);
    part_of(t, g7.out, g8.out);
    part_of(t, g6.out, g7.out);
    part_of(t, g5.out, g6.out);
    assert forall|d: D| (c.truthy)((c.reg)("rax"@, d)) implies #[trigger] comes(
        t,
        c.run,
        g4.out,
        d,
        g6.out,
    ) by {
        let d1 = question_goes(c, t, g4.out, d);
        branch_goes(c, t, g5.out, "je"@, else_lbl, g8.out, d1);
        goes_on(t, c.run, g4.out, d, g5.out, d1, g6.out, d1);
    }
    assert forall|d: D| !(c.truthy)((c.reg)("rax"@, d)) implies #[trigger] comes(
        t,
        c.run,
        g4.out,
        d,
        g9.out,
    ) by {
        let d1 = question_goes(c, t, g4.out, d);
        branch_goes(c, t, g5.out, "je"@, else_lbl, g8.out, d1);
        goes_on(t, c.run, g4.out, d, g5.out, d1, g9.out, d1);
    }
    assert forall|d: D| #[trigger] goes(t, c.run, g7.out, d, h.out, d) by {
        jump_goes(c, t, g7.out, end_lbl, g10.out, d);
    }
    assert forall|d: D| #[trigger] goes(t, c.run, g10.out, d, h.out, d) by {
        label_passes(c, t, g10.out, end_lbl, d);
    }
    assert(choice_hangs(c, t, g, env, cond, then, els, g3, g6, g9));
}

proof fn choice_texts(
    g4: Asm,
    g7: Asm,
    g8: Asm,
    g10: Asm,
    x: Seq<char>,
    y: Seq<char>,
)
    ensures
        ({
            let w = g4.out + "    mov rcx, rax\n    call lumen_truthy\n    cmp rax, 0\n"@;
            let g5 = g4.p("    mov rcx, rax\n    call lumen_truthy\n    cmp rax, 0\n"@);
            &&& g5.out == w
            &&& g5.p("    je "@).p(x).p("\n"@).out == w + "    "@ + "je"@ + " "@ + x + "\n"@
            &&& w.is_prefix_of(w + "    "@ + "je"@ + " "@ + x + "\n"@)
            &&& g7.p("    jmp "@).p(y).p("\n"@).out == g7.out + "    jmp "@ + y + "\n"@
            &&& g7.out.is_prefix_of(g7.out + "    jmp "@ + y + "\n"@)
            &&& g8.p(x).p(":\n"@).out == g8.out + x + ":\n"@
            &&& g8.out.is_prefix_of(g8.out + x + ":\n"@)
            &&& g10.p(y).p(":\n"@).out == g10.out + y + ":\n"@
            &&& g10.out.is_prefix_of(g10.out + y + ":\n"@)
        }),
{
    reveal(Asm::p);
    let w = g4.out + "    mov rcx, rax\n    call lumen_truthy\n    cmp rax, 0\n"@;
    jump_text(w, x);
}

/// How an arm of an `if` hangs together: where its condition, tested from `test` on, holds,
/// its block from `start` on is run, and control then comes to behind the `if`; where it
/// does not hold, control comes to what follows the arm.
pub open spec fn arm_hangs<D>(
    c: Cpu<D>,
    t: Seq<char>,
    env: FnEnv,
    cond: ExprView,
    body: Seq<StmtView>,
    test: Asm,
    start: Asm,
    other: Seq<char>,
    behind: Seq<char>
) -> bool {
    let q = decision(test, env, cond);
    let b = gen_stmts(start, env, body, body.len());
    &&& start.loops == test.loops
    &&& forall|d: D|
        says_yes(c, env, cond, d) ==> #[trigger] comes(t, c.run, q, d, start.out)
    &&& forall|d: D| !says_yes(c, env, cond, d) ==> #[trigger] comes(t, c.run, q, d, other)
    &&& forall|d: D| #[trigger] goes(t, c.run, b.out, d, behind, d)
}

/// The code of one arm.
spec fn arm_code(
    g: Asm,
    env: FnEnv,
    cond: ExprView,
    body: Seq<StmtView>,
    next: Seq<char>,
    end: Seq<char>,
) -> Asm {
    let g2 = cond_false(g, env, cond, next);
    let g3 = gen_stmts(g2, env, body, body.len());
    g3.p("    jmp "@).p(end).p("\n"@).p(next).p(":\n"@)
}

proof fn arm_flows<D>(
    c: Cpu<D>,
    t: Seq<char>,
    g: Asm,
    env: FnEnv,
    cond: ExprView,
    body: Seq<StmtView>,
    next: Seq<char>,
    end: Seq<char>,
    tail: Seq<char>
)
    requires
        x86(c),
        once(t),
        local(next),
        flat(next),
        local(end),
        flat(end),
        arm_code(g, env, cond, body, next, end).out.is_prefix_of(t),
        (tail + end + ":\n"@).is_prefix_of(t),
    ensures
        arm_hangs(
            c,
            t,
            env,
            cond,
            body,
            g,
            cond_false(g, env, cond, next),
            arm_code(g, env, cond, body, next, end).out,
            tail + end + ":\n"@,
        ),
        g.out.is_prefix_of(arm_code(g, env, cond, body, next, end).out),
{
    let g2 = cond_false(g, env, cond, next);
    let g3 = gen_stmts(g2, env, body, body.len());
    let h = arm_code(g, env, cond, body, next, end);
    kept_self(g);
    cond_false_kept(g, g, env, cond, next);
    kept_self(g2);
    gen_stmts_kept(g2, g2, env, body, body.len());
    assert(g.out.is_prefix_of(g2.out) && g2.out.is_prefix_of(g3.out) && g2.loops == g.loops) by {
        reveal(kept);
    }
    crate::asmflow::loop_text(g3, end, next);
    let w = g3.out + "    jmp "@ + end + "\n"@;
    part_of(t, w, h.out);
    part_of(t, g3.out, h.out);
    part_of(t, g2.out, g3.out);
    part_of(h.out, g2.out, g3.out);
    part_of(h.out, g.out, g2.out);
    let q = decision(g, env, cond);
    assert forall|d: D| says_yes(c, env, cond, d) implies #[trigger] comes(
        t,
        c.run,
        q,
        d,
        g2.out,
    ) by {
        condition_branches(c, t, g, env, cond, next, w, d);
    }
    assert forall|d: D| !says_yes(c, env, cond, d) implies #[trigger] comes(
        t,
        c.run,
        q,
        d,
        h.out,
    ) by {
        condition_branches(c, t, g, env, cond, next, w, d);
    }
    assert forall|d: D| #[trigger] goes(t, c.run, g3.out, d, tail + end + ":\n"@, d) by {
        jump_goes(c, t, g3.out, end, tail, d);
    }
}

/// The arms of an `if` in the order of their tests.
pub open spec fn if_hangs<D>(
    c: Cpu<D>,
    t: Seq<char>,
    g: Asm,
    env: FnEnv,
    arms: Seq<(ExprView, Seq<StmtView>)>,
    els: Option<Seq<StmtView>>,
    h: Asm,
    tests: Seq<Asm>,
    starts: Seq<Asm>
) -> bool {
    &&& tests.len() == arms.len() + 1
    &&& starts.len() == arms.len()
    &&& tests[0].out == g.out
    &&& forall|i: int|
        0 <= i < arms.len() ==> arm_hangs(
            c,
            t,
            env,
            arms[i].0,
            arms[i].1,
            #[trigger] tests[i],
            starts[i],
            tests[i + 1].out,
            h.out,
        )
    &&& match els {
        Some(b) => forall|d: D| #[trigger] goes(
            t,
            c.run,
            gen_stmts(tests.last(), env, b, b.len()).out,
            d,
            h.out,
            d,
        ),
        None => forall|d: D| #[trigger] goes(t, c.run, tests.last().out, d, h.out, d),
    }
}

proof fn elifs_grow(
    g: Asm,
    env: FnEnv,
    s: Seq<(ExprView, Seq<StmtView>)>,
    i: nat,
    k: nat,
    end: Seq<char>,
)
    requires
        i <= k <= s.len(),
    ensures
        gen_elifs(g, env, s, i, end).out.is_prefix_of(gen_elifs(g, env, s, k, end).out),
    decreases k - i,
{
    if i < k {
        elifs_grow(g, env, s, i, (k - 1) as nat, end);
        let g0 = gen_elifs(g, env, s, (k - 1) as nat, end);
        let (g1, n2) = g0.new_label("ifnext"@);
        let h = gen_elifs(g, env, s, k, end);
        let g2 = cond_false(g1, env, s[k - 1].0, n2);
        let g3 = gen_stmts(g2, env, s[k - 1].1, s[k - 1].1.len());
        kept_self(g1);
        cond_false_kept(g1, g1, env, s[k - 1].0, n2);
        gen_stmts_kept(g1, g2, env, s[k - 1].1, s[k - 1].1.len());
        crate::asmflow::loop_text(g3, end, n2);
        assert(g1.out == g0.out) by {
            reveal(Asm::new_label);
        }
        assert(g1.out.is_prefix_of(g3.out)) by {
            reveal(kept);
        }
        part_of(h.out, g0.out, g3.out);
        part_of(h.out, gen_elifs(g, env, s, i, end).out, g0.out);
    }
}

/// The law of `if`, `elif` and `else`: the arms are tested in their order, the block of the
/// first whose condition holds is run, or the `else` block where none holds, and then
/// control comes to behind the `if`.
pub proof fn if_code<D>(
    c: Cpu<D>,
    t: Seq<char>,
    g: Asm,
    env: FnEnv,
    cond: ExprView,
    then: Seq<StmtView>,
    elifs: Seq<(ExprView, Seq<StmtView>)>,
    els: Option<Seq<StmtView>>
)
    requires
        x86(c),
        once(t),
        gen_stmt(g, env, StmtView::If { cond, then, elifs, els }).out.is_prefix_of(t),
    ensures
        exists|tests: Seq<Asm>, starts: Seq<Asm>| #[trigger]
            if_hangs(
                c,
                t,
                g,
                env,
                seq![(cond, then)] + elifs,
                els,
                gen_stmt(g, env, StmtView::If { cond, then, elifs, els }),
                tests,
                starts,
            ),
{
    let s = StmtView::If { cond, then, elifs, els };
    let h = gen_stmt(g, env, s);
    let (g2, end) = g.new_label("ifend"@);
    let (g3, next) = g2.new_label("ifnext"@);
    let g6 = arm_code(g3, env, cond, then, next, end);
    let n = elifs.len();
    let g7 = gen_elifs(g6, env, elifs, n, end);
    let g8 = match els {
        Some(b) => gen_stmts(g7, env, b, b.len()),
        None => g7,
    };
    let g10 = g8.p(end).p(":\n"@);
    assert(h == g10) by {
        assert(h == crate::asmstmt::stmt_if(g, env, s));
    }
    reveal_strlit("ifend");
    reveal_strlit("ifnext");
    label_local(g, "ifend"@);
    label_local(g2, "ifnext"@);
    crate::asmflow::loop_text(g8, end, end);
    assert(g3.out == g.out) by {
        reveal(Asm::new_label);
    }
    kept_self(g7);
    match els {
        Some(b) => {
            gen_stmts_kept(g7, g7, env, b, b.len());
        },
        None => {},
    }
    assert(g7.out.is_prefix_of(g8.out)) by {
        reveal(kept);
    }
    assert(g8.out.is_prefix_of(h.out));
    part_of(t, g8.out, h.out);
    part_of(t, g7.out, g8.out);
    let arms = seq![(cond, then)] + elifs;
    let tests = Seq::new(
        arms.len() + 1,
        |i: int|
            if i == 0 {
                g3
            } else if i == arms.len() {
                g7
            } else {
                gen_elifs(g6, env, elifs, (i - 1) as nat, end).new_label("ifnext"@).0
            },
    );
    let starts = Seq::new(
        arms.len(),
        |i: int|
            if i == 0 {
                cond_false(g3, env, cond, next)
            } else {
                let (g1, n2) = gen_elifs(g6, env, elifs, (i - 1) as nat, end).new_label("ifnext"@);
                cond_false(g1, env, elifs[i - 1].0, n2)
            },
    );
    assert forall|i: int| 0 <= i < arms.len() implies arm_hangs(
        c,
        t,
        env,
        arms[i].0,
        arms[i].1,
        #[trigger] tests[i],
        starts[i],
        tests[i + 1].out,
        h.out,
    ) by {
        elifs_grow(g6, env, elifs, i as nat, n, end);
        let e1 = gen_elifs(g6, env, elifs, i as nat, end);
        part_of(t, e1.out, g7.out);
        assert(tests[i + 1].out == e1.out) by {
            reveal(Asm::new_label);
        }
        if i == 0 {
            assert(e1 == g6);
            arm_flows(c, t, g3, env, cond, then, next, end, g8.out);
        } else {
            let g0 = gen_elifs(g6, env, elifs, (i - 1) as nat, end);
            let (g1, n2) = g0.new_label("ifnext"@);
            label_local(g0, "ifnext"@);
            assert(arms[i] == elifs[i - 1]);
            assert(e1 == arm_code(g1, env, elifs[i - 1].0, elifs[i - 1].1, n2, end));
            arm_flows(c, t, g1, env, elifs[i - 1].0, elifs[i - 1].1, n2, end, g8.out);
        }
    }
    match els {
        Some(b) => {
            assert forall|d: D| #[trigger] goes(
                t,
                c.run,
                gen_stmts(tests.last(), env, b, b.len()).out,
                d,
                h.out,
                d,
            ) by {
                label_passes(c, t, g8.out, end, d);
            }
        },
        None => {
            assert forall|d: D| #[trigger] goes(t, c.run, tests.last().out, d, h.out, d) by {
                label_passes(c, t, g8.out, end, d);
            }
        },
    }
    assert(if_hangs(c, t, g, env, arms, els, h, tests, starts));
}

} // verus!
