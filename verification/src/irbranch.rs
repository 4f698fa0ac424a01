//! Branches in the code of the LLVM back end: `elif`, and conditional expressions.

use crate::ast::{ExprView, StmtView};
use crate::coderun::{comes, goes, goes_on, lined, once, part_of};
use crate::irexpr::{expr_if_else, gen_expr, gen_truthy};
use crate::irflow::{
    alloca_passes, arm_code, arm_flows, arm_hangs, br_goes, branch_text, cbr_goes, comes_with,
    label_text, llvm, load_ends, short_labels, step_texts, store_line, store_passes, stored, Vm,
};
use crate::irkeep::{
    gen_expr_kept, gen_truthy_kept, kept, kept_self, label_word, register_word, word,
};
use crate::irstate::{Ir, IrEnvView};
use crate::irstmt::gen_elifs;
use vstd::prelude::*;

verus! {

/// The law of `elif`: the `k`-th arm is tested where the code of those before it ends; where
/// its condition holds its block is run and control then comes to behind the whole `if`,
/// where it does not hold the code behind the arm follows.
pub proof fn elif_code<D>(
    m: Vm<D>,
    t: Seq<char>,
    g: Ir,
    env: IrEnvView,
    s: Seq<(ExprView, Seq<StmtView>)>,
    k: nat,
    end: Seq<char>,
    tail: Seq<char>
)
    requires
        llvm(m),
        once(t),
        0 < k <= s.len(),
        word(end),
        word(gen_elifs(g, env, s, (k - 1) as nat, end).val),
        gen_elifs(g, env, s, k, end).out.is_prefix_of(t),
        (tail + end + ":\n"@).is_prefix_of(t),
        lined(tail),
    ensures
        exists|test: Ir, start: Ir|
            test.out == gen_elifs(g, env, s, (k - 1) as nat, end).out && #[trigger] arm_hangs(
                m,
                t,
                env,
                s[k - 1].0,
                s[k - 1].1,
                test,
                start,
                gen_elifs(g, env, s, k, end).out,
                tail + end + ":\n"@,
            ),
{
    let g0 = gen_elifs(g, env, s, (k - 1) as nat, end);
    let (c, b) = s[k - 1];
    let (g1, thenl) = g0.label("then"@);
    let (g2, nextl) = g1.label("next"@);
    let h = gen_elifs(g, env, s, k, end);
    let (start, other) = arm_code(g2, env, c, b, thenl, nextl, end);
    assert(h == other);
    short_labels();
    label_word(g0, "then"@);
    label_word(g1, "next"@);
    assert(g2.out == g0.out && g2.val == g0.val) by {
        reveal(Ir::label);
    }
    arm_flows(m, t, g2, env, c, b, thenl, nextl, end, tail);
}

/// How the parts of a conditional expression hang together: behind the condition, the one
/// branch or the other follows as the condition holds or not, and from its end control comes
/// to the end of the whole with the value of the branch.
pub open spec fn choice_hangs<D>(
    m: Vm<D>,
    t: Seq<char>,
    g: Ir,
    env: IrEnvView,
    cond: ExprView,
    then: ExprView,
    els: ExprView,
    test: Ir,
    one: Ir,
    other: Ir
) -> bool {
    let h = gen_expr(
        g,
        env,
        ExprView::IfElse { cond: Box::new(cond), then: Box::new(then), els: Box::new(els) },
    );
    let q = gen_truthy(test, env, cond);
    let x = gen_expr(one, env, then);
    let y = gen_expr(other, env, els);
    &&& forall|d: D| #[trigger] comes(t, m.run, g.out, d, test.out)
    &&& forall|d: D| (m.val)(q.val, d) != 0 ==> #[trigger] goes(t, m.run, q.out, d, one.out, d)
    &&& forall|d: D| (m.val)(q.val, d) == 0 ==> #[trigger] goes(t, m.run, q.out, d, other.out, d)
    &&& forall|d: D| #[trigger] comes_with(m, t, x.out, d, h, (m.val)(x.val, d))
    &&& forall|d: D| #[trigger] comes_with(m, t, y.out, d, h, (m.val)(y.val, d))
}

proof fn alloca_text(g: Ir, s: Seq<char>)
    ensures
        g.p("  "@).p(s).p(" = alloca i64\n"@).out == g.out + "  "@ + s + " = alloca i64\n"@,
        g.p("  "@).p(s).p(" = alloca i64\n"@).val == g.val,
{
    reveal(Ir::p);
}

/// A value is stored, and the end of the whole loads it.
proof fn branch_ends<D>(
    m: Vm<D>,
    t: Seq<char>,
    g10: Ir,
    slot: Seq<char>,
    end: Seq<char>,
    tail: Seq<char>,
    h: Ir,
    d: D
)
    requires
        llvm(m),
        once(t),
        word(g10.val),
        word(slot),
        word(end),
        word(h.val),
        (g10.out + "  store i64 "@ + g10.val + ", ptr "@ + slot + "\n"@ + "  br label %"@ + end
            + "\n"@).is_prefix_of(t),
        (tail + end + ":\n"@).is_prefix_of(t),
        lined(tail),
        h.out == tail + end + ":\n"@ + "  "@ + h.val + " = load i64, ptr "@ + slot + "\n"@,
        h.out.is_prefix_of(t),
    ensures
        comes_with(m, t, g10.out, d, h, (m.val)(g10.val, d)),
{
    let a = g10.out + "  store i64 "@ + g10.val + ", ptr "@ + slot + "\n"@;
    assert(a.is_prefix_of(a + "  br label %"@ + end + "\n"@));
    part_of(t, a, a + "  br label %"@ + end + "\n"@);
    store_passes(m, t, g10.out, g10.val, slot, d);
    let f = (m.run)(store_line(g10.val, slot), d).0;
    assert(stored(m, g10.val, slot, d, (m.run)(store_line(g10.val, slot), d)));
    br_goes(m, t, a, end, tail, f);
    goes_on(t, m.run, g10.out, d, a, f, tail + end + ":\n"@, f);
    load_ends(m, t, g10.out, tail + end + ":\n"@, h, slot, d, f, (m.val)(g10.val, d));
}

/// The law of conditional expressions.
#[verifier::spinoff_prover]
#[verifier::rlimit(50)]
pub proof fn choice_code<D>(
    m: Vm<D>,
    t: Seq<char>,
    g: Ir,
    env: IrEnvView,
    cond: ExprView,
    then: ExprView,
    els: ExprView
)
    requires
        llvm(m),
        once(t),
        word(g.val),
        gen_expr(
            g,
            env,
            ExprView::IfElse { cond: Box::new(cond), then: Box::new(then), els: Box::new(els) },
        ).out.is_prefix_of(t),
    ensures
        exists|test: Ir, one: Ir, other: Ir| #[trigger]
            choice_hangs(m, t, g, env, cond, then, els, test, one, other),
{
    let e = ExprView::IfElse { cond: Box::new(cond), then: Box::new(then), els: Box::new(els) };
    let h = gen_expr(g, env, e);
    let (g2, slot) = g.vreg();
    let g3 = g2.p("  "@).p(slot).p(" = alloca i64\n"@);
    let g4 = gen_truthy(g3, env, cond);
    let c = g4.val;
    let (g5, tl) = g4.label("tern_t"@);
    let (g6, fl) = g5.label("tern_f"@);
    let (g7, end) = g6.label("tern_e"@);
    let g8 = g7.p("  br i1 "@).p(c).p(", label %"@).p(tl).p(", label %"@).p(fl).p("\n"@);
    let g9 = g8.p(tl).p(":\n"@);
    let g10 = gen_expr(g9, env, then);
    let tv = g10.val;
    let g11 = g10.p("  store i64 "@).p(tv).p(", ptr "@).p(slot).p("\n"@);
    let g12 = g11.p("  br label %"@).p(end).p("\n"@);
    let g13 = g12.p(fl).p(":\n"@);
    let g14 = gen_expr(g13, env, els);
    let fv = g14.val;
    let g15 = g14.p("  store i64 "@).p(fv).p(", ptr "@).p(slot).p("\n"@);
    let g16 = g15.p("  br label %"@).p(end).p("\n"@);
    let g17 = g16.p(end).p(":\n"@);
    let (g18, r) = g17.vreg();
    let g19 = g18.p("  "@).p(r).p(" = load i64, ptr "@).p(slot).p("\n"@);
    assert(h == g19.give(r)) by {
        assert(h == expr_if_else(g, env, e));
    }
    assert(h.out == g19.out && h.val == r) by {
        reveal(Ir::give);
    }
    register_word(g);
    register_word(g17);
    short_labels();
    label_word(g4, "tern_t"@);
    label_word(g5, "tern_f"@);
    label_word(g6, "tern_e"@);
    assert(g2.out == g.out && g2.val == g.val && g18.out == g17.out) by {
        reveal(Ir::vreg);
    }
    assert(g7.out == g4.out && g7.val == g4.val) by {
        reveal(Ir::label);
    }
    alloca_text(g2, slot);
    branch_text(g7, c, tl, fl);
    label_text(g8, tl);
    step_texts(g18, g10, g10, r, tv, slot);
    label_text(g11, end);
    label_text(g12, fl);
    step_texts(g18, g14, g14, r, fv, slot);
    label_text(g15, end);
    label_text(g16, end);
    assert(g11.val == tv && g12.val == tv) by {
        reveal(Ir::p);
    }
    kept_self(g3);
    gen_truthy_kept(g3, g3, env, cond);
    kept_self(g9);
    gen_expr_kept(g9, g9, env, then);
    kept_self(g13);
    gen_expr_kept(g13, g13, env, els);
    assert(word(c) && g3.out.is_prefix_of(g4.out)) by {
        reveal(kept);
    }
    assert(word(tv) && g9.out.is_prefix_of(g10.out)) by {
        reveal(kept);
    }
    assert(word(fv) && g13.out.is_prefix_of(g14.out)) by {
        reveal(kept);
    }
    part_of(t, g17.out, h.out);
    part_of(t, g16.out, g17.out);
    part_of(t, g15.out, g16.out);
    part_of(t, g14.out, g15.out);
    part_of(t, g13.out, g14.out);
    part_of(t, g12.out, g13.out);
    part_of(t, g11.out, g12.out);
    part_of(t, g10.out, g11.out);
    part_of(t, g9.out, g10.out);
    part_of(t, g8.out, g9.out);
    part_of(t, g4.out, g8.out);
    part_of(t, g3.out, g4.out);
    assert forall|d: D| #[trigger] comes(t, m.run, g.out, d, g3.out) by {
        alloca_passes(m, t, g.out, slot, d);
    }
    assert forall|d: D| (m.val)(c, d) != 0 implies #[trigger] goes(
        t,
        m.run,
        g4.out,
        d,
        g9.out,
        d,
    ) by {
        cbr_goes(m, t, g4.out, c, tl, fl, tl, g8.out, d);
    }
    assert forall|d: D| (m.val)(c, d) == 0 implies #[trigger] goes(
        t,
        m.run,
        g4.out,
        d,
        g13.out,
        d,
    ) by {
        cbr_goes(m, t, g4.out, c, tl, fl, fl, g12.out, d);
    }
    assert forall|d: D| #[trigger] comes_with(m, t, g10.out, d, h, (m.val)(tv, d)) by {
        branch_ends(m, t, g10, slot, end, g16.out, h, d);
    }
    assert forall|d: D| #[trigger] comes_with(m, t, g14.out, d, h, (m.val)(fv, d)) by {
        branch_ends(m, t, g14, slot, end, g16.out, h, d);
    }
    assert(choice_hangs(m, t, g, env, cond, then, els, g3, g9, g13));
}

} // verus!
