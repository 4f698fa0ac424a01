//! Calls of the runtime for operations: both back ends hand over the left value first and the
//! right value second, in the function that belongs to the operator.

use crate::analysis::is_arith;
use crate::asmbranch::{slot_facts, slot_text};
use crate::asmflow::{frame_operand, line_passes, plain, second_line, store_line, x86, Cpu};
use crate::asmquery::{is_fast, known_float, runtime_op};
use crate::asmstate::{Asm, FnEnv};
use crate::ast::{BinOp, ExprView, UnOp};
use crate::coderun::{flat, goes, goes_on, part_of, passes};
use crate::irflow::{asked, comes_with, llvm, truthy_line, truthy_passes, Vm};
use crate::irkeep::{kept, kept_self, register_word, word};
use crate::irstate::{bin_form, Ir, IrEnvView};
use vstd::prelude::*;

verus! {

pub open spec fn pair_line(r: Seq<char>, f: Seq<char>, x: Seq<char>, y: Seq<char>) -> Seq<char> {
    "  "@ + r + " = call i64 @"@ + f + "(i64 "@ + x + ", i64 "@ + y + ")"@
}

pub open spec fn zero_line(r: Seq<char>, x: Seq<char>) -> Seq<char> {
    "  "@ + r + " = icmp eq i32 "@ + x + ", 0"@
}

pub open spec fn widen_line(r: Seq<char>, x: Seq<char>) -> Seq<char> {
    "  "@ + r + " = zext i1 "@ + x + " to i32"@
}

pub open spec fn bool_line(r: Seq<char>, x: Seq<char>) -> Seq<char> {
    "  "@ + r + " = call i64 @lumen_bool(i32 "@ + x + ")"@
}

/// Whether a machine calls the runtime, and turns a test round, as LLVM code does.
pub open spec fn calls_runtime<D>(m: Vm<D>) -> bool {
    &&& forall|r: Seq<char>, f: Seq<char>, x: Seq<char>, y: Seq<char>, d: D|
        word(r) && word(f) && word(x) && word(y) ==> holds_value(
            m,
            r,
            (m.rt)(f, (m.val)(x, d), (m.val)(y, d)),
            #[trigger] (m.run)(pair_line(r, f, x, y), d),
        )
    &&& forall|r: Seq<char>, x: Seq<char>, d: D|
        word(r) && word(x) ==> asked(
            m,
            r,
            (m.val)(x, d) == 0,
            d,
            #[trigger] (m.run)(zero_line(r, x), d),
        )
    &&& forall|r: Seq<char>, x: Seq<char>, d: D|
        word(r) && word(x) ==> asked(
            m,
            r,
            (m.val)(x, d) != 0,
            d,
            #[trigger] (m.run)(widen_line(r, x), d),
        )
    &&& forall|r: Seq<char>, x: Seq<char>, d: D|
        word(r) && word(x) ==> holds_value(
            m,
            r,
            (m.boxed)((m.val)(x, d) != 0),
            #[trigger] (m.run)(bool_line(r, x), d),
        )
}

/// A line goes on, and the register has the value.
pub open spec fn holds_value<D>(
    m: Vm<D>,
    x: Seq<char>,
    n: int,
    r: (D, Option<Seq<char>>)
) -> bool {
    r.1 is None && (m.val)(x, r.0) == n
}

proof fn pair_line_text(a: Seq<char>, r: Seq<char>, f: Seq<char>, x: Seq<char>, y: Seq<char>)
    requires
        word(r),
        word(f),
        word(x),
        word(y),
    ensures
        flat(pair_line(r, f, x, y)),
        a + "  "@ + r + " = call i64 @"@ + f + "(i64 "@ + x + ", i64 "@ + y + ")\n"@ == a
            + pair_line(r, f, x, y) + "\n"@,
{
    reveal_strlit("  ");
    reveal_strlit(" = call i64 @");
    reveal_strlit("(i64 ");
    reveal_strlit(")");
    reveal_strlit(")\n");
    reveal_strlit(", i64 ");
    reveal_strlit("\n");
    reveal(word);
    let w = pair_line(r, f, x, y);
    assert forall|i: int| 0 <= i < w.len() implies #[trigger] w[i] != '\n' by {
        if i < "  "@.len() {
            assert(w[i] == "  "@[i - (0)]);
        }         else if i < "  "@.len() + r.len() {
            assert(w[i] == r[i - ("  "@.len())]);
        }         else if i < "  "@.len() + r.len() + " = call i64 @"@.len() {
            assert(w[i] == " = call i64 @"@[i - ("  "@.len() + r.len())]);
        }         else if i < "  "@.len() + r.len() + " = call i64 @"@.len() + f.len() {
            assert(w[i] == f[i - ("  "@.len() + r.len() + " = call i64 @"@.len())]);
        }         else if i < "  "@.len() + r.len() + " = call i64 @"@.len() + f.len() + "(i64 "@.len() {
            assert(
                w[i] == "(i64 "@[i - ("  "@.len() + r.len() + " = call i64 @"@.len() + f.len())]
            );
        }         else if i < "  "@.len() + r.len() + " = call i64 @"@.len() + f.len() + "(i64 "@.len() + x.len() {
            assert(
                w[i] == x[i - ("  "@.len() + r.len() + " = call i64 @"@.len() + f.len() + "(i64 "@.len())]
            );
        }         else if i < "  "@.len() + r.len() + " = call i64 @"@.len() + f.len() + "(i64 "@.len() + x.len() + ", i64 "@.len() {
            assert(
                w[i] == ", i64 "@[i - ("  "@.len() + r.len() + " = call i64 @"@.len() + f.len() + "(i64 "@.len() + x.len())]
            );
        }         else if i < "  "@.len() + r.len() + " = call i64 @"@.len() + f.len() + "(i64 "@.len() + x.len() + ", i64 "@.len() + y.len() {
            assert(
                w[i] == y[i - ("  "@.len() + r.len() + " = call i64 @"@.len() + f.len() + "(i64 "@.len() + x.len() + ", i64 "@.len())]
            );
        }         else if i < "  "@.len() + r.len() + " = call i64 @"@.len() + f.len() + "(i64 "@.len() + x.len() + ", i64 "@.len() + y.len() + ")"@.len() {
            assert(
                w[i] == ")"@[i - ("  "@.len() + r.len() + " = call i64 @"@.len() + f.len() + "(i64 "@.len() + x.len() + ", i64 "@.len() + y.len())]
            );
        }
    }
    assert(")\n"@ =~= ")"@ + "\n"@);
    assert(
        a + "  "@ + r + " = call i64 @"@ + f + "(i64 "@ + x + ", i64 "@ + y + ")\n"@ =~= a + w
            + "\n"@
    );
}

proof fn pair_passes<D>(
    m: Vm<D>,
    t: Seq<char>,
    a: Seq<char>,
    r: Seq<char>,
    f: Seq<char>,
    x: Seq<char>,
    y: Seq<char>,
    d: D
)
    requires
        calls_runtime(m),
        word(r),
        word(f),
        word(x),
        word(y),
        (
            a + "  "@ + r + " = call i64 @"@ + f + "(i64 "@ + x + ", i64 "@ + y + ")\n"@
        ).is_prefix_of(t),
    ensures
        goes(
            t,
            m.run,
            a,
            d,
            a + "  "@ + r + " = call i64 @"@ + f + "(i64 "@ + x + ", i64 "@ + y + ")\n"@,
            (m.run)(pair_line(r, f, x, y), d).0,
        ),
{
    pair_line_text(a, r, f, x, y);
    let done = (m.run)(pair_line(r, f, x, y), d);
    assert(done.1 is None);
    passes(t, m.run, a, pair_line(r, f, x, y), d);
}

proof fn zero_line_text(a: Seq<char>, r: Seq<char>, x: Seq<char>)
    requires
        word(r),
        word(x),
    ensures
        flat(zero_line(r, x)),
        a + "  "@ + r + " = icmp eq i32 "@ + x + ", 0\n"@ == a + zero_line(r, x) + "\n"@,
{
    reveal_strlit("  ");
    reveal_strlit(" = icmp eq i32 ");
    reveal_strlit(", 0");
    reveal_strlit(", 0\n");
    reveal_strlit("\n");
    reveal(word);
    let w = zero_line(r, x);
    assert forall|i: int| 0 <= i < w.len() implies #[trigger] w[i] != '\n' by {
        if i < "  "@.len() {
            assert(w[i] == "  "@[i - (0)]);
        }         else if i < "  "@.len() + r.len() {
            assert(w[i] == r[i - ("  "@.len())]);
        }         else if i < "  "@.len() + r.len() + " = icmp eq i32 "@.len() {
            assert(w[i] == " = icmp eq i32 "@[i - ("  "@.len() + r.len())]);
        }         else if i < "  "@.len() + r.len() + " = icmp eq i32 "@.len() + x.len() {
            assert(w[i] == x[i - ("  "@.len() + r.len() + " = icmp eq i32 "@.len())]);
        }         else if i < "  "@.len() + r.len() + " = icmp eq i32 "@.len() + x.len() + ", 0"@.len() {
            assert(
                w[i] == ", 0"@[i - ("  "@.len() + r.len() + " = icmp eq i32 "@.len() + x.len())]
            );
        }
    }
    assert(", 0\n"@ =~= ", 0"@ + "\n"@);
    assert(a + "  "@ + r + " = icmp eq i32 "@ + x + ", 0\n"@ =~= a + w + "\n"@);
}

proof fn zero_passes<D>(m: Vm<D>, t: Seq<char>, a: Seq<char>, r: Seq<char>, x: Seq<char>, d: D)
    requires
        calls_runtime(m),
        word(r),
        word(x),
        (a + "  "@ + r + " = icmp eq i32 "@ + x + ", 0\n"@).is_prefix_of(t),
    ensures
        goes(
            t,
            m.run,
            a,
            d,
            a + "  "@ + r + " = icmp eq i32 "@ + x + ", 0\n"@,
            (m.run)(zero_line(r, x), d).0,
        ),
{
    zero_line_text(a, r, x);
    let done = (m.run)(zero_line(r, x), d);
    assert(done.1 is None);
    passes(t, m.run, a, zero_line(r, x), d);
}

proof fn widen_line_text(a: Seq<char>, r: Seq<char>, x: Seq<char>)
    requires
        word(r),
        word(x),
    ensures
        flat(widen_line(r, x)),
        a + "  "@ + r + " = zext i1 "@ + x + " to i32\n"@ == a + widen_line(r, x) + "\n"@,
{
    reveal_strlit("  ");
    reveal_strlit(" = zext i1 ");
    reveal_strlit(" to i32");
    reveal_strlit(" to i32\n");
    reveal_strlit("\n");
    reveal(word);
    let w = widen_line(r, x);
    assert forall|i: int| 0 <= i < w.len() implies #[trigger] w[i] != '\n' by {
        if i < "  "@.len() {
            assert(w[i] == "  "@[i - (0)]);
        }         else if i < "  "@.len() + r.len() {
            assert(w[i] == r[i - ("  "@.len())]);
        }         else if i < "  "@.len() + r.len() + " = zext i1 "@.len() {
            assert(w[i] == " = zext i1 "@[i - ("  "@.len() + r.len())]);
        }         else if i < "  "@.len() + r.len() + " = zext i1 "@.len() + x.len() {
            assert(w[i] == x[i - ("  "@.len() + r.len() + " = zext i1 "@.len())]);
        }         else if i < "  "@.len() + r.len() + " = zext i1 "@.len() + x.len() + " to i32"@.len() {
            assert(
                w[i] == " to i32"@[i - ("  "@.len() + r.len() + " = zext i1 "@.len() + x.len())]
            );
        }
    }
    assert(" to i32\n"@ =~= " to i32"@ + "\n"@);
    assert(a + "  "@ + r + " = zext i1 "@ + x + " to i32\n"@ =~= a + w + "\n"@);
}

proof fn widen_passes<D>(m: Vm<D>, t: Seq<char>, a: Seq<char>, r: Seq<char>, x: Seq<char>, d: D)
    requires
        calls_runtime(m),
        word(r),
        word(x),
        (a + "  "@ + r + " = zext i1 "@ + x + " to i32\n"@).is_prefix_of(t),
    ensures
        goes(
            t,
            m.run,
            a,
            d,
            a + "  "@ + r + " = zext i1 "@ + x + " to i32\n"@,
            (m.run)(widen_line(r, x), d).0,
        ),
{
    widen_line_text(a, r, x);
    let done = (m.run)(widen_line(r, x), d);
    assert(done.1 is None);
    passes(t, m.run, a, widen_line(r, x), d);
}

proof fn bool_line_text(a: Seq<char>, r: Seq<char>, x: Seq<char>)
    requires
        word(r),
        word(x),
    ensures
        flat(bool_line(r, x)),
        a + "  "@ + r + " = call i64 @lumen_bool(i32 "@ + x + ")\n"@ == a + bool_line(r, x) + "\n"@,
{
    reveal_strlit("  ");
    reveal_strlit(" = call i64 @lumen_bool(i32 ");
    reveal_strlit(")");
    reveal_strlit(")\n");
    reveal_strlit("\n");
    reveal(word);
    let w = bool_line(r, x);
    assert forall|i: int| 0 <= i < w.len() implies #[trigger] w[i] != '\n' by {
        if i < "  "@.len() {
            assert(w[i] == "  "@[i - (0)]);
        }         else if i < "  "@.len() + r.len() {
            assert(w[i] == r[i - ("  "@.len())]);
        }         else if i < "  "@.len() + r.len() + " = call i64 @lumen_bool(i32 "@.len() {
            assert(w[i] == " = call i64 @lumen_bool(i32 "@[i - ("  "@.len() + r.len())]);
        }         else if i < "  "@.len() + r.len() + " = call i64 @lumen_bool(i32 "@.len() + x.len() {
            assert(w[i] == x[i - ("  "@.len() + r.len() + " = call i64 @lumen_bool(i32 "@.len())]);
        }         else if i < "  "@.len() + r.len() + " = call i64 @lumen_bool(i32 "@.len() + x.len() + ")"@.len() {
            assert(
                w[i] == ")"@[i - ("  "@.len() + r.len() + " = call i64 @lumen_bool(i32 "@.len() + x.len())]
            );
        }
    }
    assert(")\n"@ =~= ")"@ + "\n"@);
    assert(a + "  "@ + r + " = call i64 @lumen_bool(i32 "@ + x + ")\n"@ =~= a + w + "\n"@);
}

proof fn bool_passes<D>(m: Vm<D>, t: Seq<char>, a: Seq<char>, r: Seq<char>, x: Seq<char>, d: D)
    requires
        calls_runtime(m),
        word(r),
        word(x),
        (a + "  "@ + r + " = call i64 @lumen_bool(i32 "@ + x + ")\n"@).is_prefix_of(t),
    ensures
        goes(
            t,
            m.run,
            a,
            d,
            a + "  "@ + r + " = call i64 @lumen_bool(i32 "@ + x + ")\n"@,
            (m.run)(bool_line(r, x), d).0,
        ),
{
    bool_line_text(a, r, x);
    let done = (m.run)(bool_line(r, x), d);
    assert(done.1 is None);
    passes(t, m.run, a, bool_line(r, x), d);
}

proof fn runtime_words(op: BinOp)
    ensures
        word(runtime_op(op)),
{
    reveal(word);
    reveal_strlit("");
    reveal_strlit("lumen_add");
    reveal_strlit("lumen_sub");
    reveal_strlit("lumen_mul");
    reveal_strlit("lumen_pow");
    reveal_strlit("lumen_div");
    reveal_strlit("lumen_mod");
    reveal_strlit("lumen_eq");
    reveal_strlit("lumen_ne");
    reveal_strlit("lumen_lt");
    reveal_strlit("lumen_le");
    reveal_strlit("lumen_gt");
    reveal_strlit("lumen_ge");
    reveal_strlit("lumen_in");
    reveal_strlit("lumen_not_in");
}

/// An operation that the runtime carries out: the left side is evaluated, then the right
/// side, and the result is what the operator's function gives for the left and the right
/// value.
pub proof fn runtime_operation<D>(
    m: Vm<D>,
    t: Seq<char>,
    g: Ir,
    env: IrEnvView,
    op: BinOp,
    lhs: ExprView,
    rhs: ExprView
)
    requires
        llvm(m),
        calls_runtime(m),
        word(g.val),
        bin_form(env, op, lhs, rhs) is Boxed,
        crate::irexpr::gen_expr(
            g,
            env,
            ExprView::Binary { op, lhs: Box::new(lhs), rhs: Box::new(rhs) },
        ).out.is_prefix_of(t),
    ensures
        ({
            let h = crate::irexpr::gen_expr(
                g,
                env,
                ExprView::Binary { op, lhs: Box::new(lhs), rhs: Box::new(rhs) },
            );
            let l = crate::irexpr::gen_expr(g, env, lhs);
            let r = crate::irexpr::gen_expr(l, env, rhs);
            forall|d: D| #[trigger]
                comes_with(
                    m,
                    t,
                    r.out,
                    d,
                    h,
                    (m.rt)(runtime_op(op), (m.val)(l.val, d), (m.val)(r.val, d)),
                )
        }),
{
    let e = ExprView::Binary { op, lhs: Box::new(lhs), rhs: Box::new(rhs) };
    let h = crate::irexpr::gen_expr(g, env, e);
    let l = crate::irexpr::gen_expr(g, env, lhs);
    let r = crate::irexpr::gen_expr(l, env, rhs);
    let f = runtime_op(op);
    let g37 = r.need_call(f, 2);
    let (g38, x) = g37.vreg();
    let g39 = g38.p("  "@).p(x).p(" = call i64 @"@).p(f).p("(i64 "@).p(l.val).p(", i64 "@).p(
        r.val,
    ).p(")\n"@);
    assert(h == g39.give(x)) by {
        assert(h == crate::irexpr::gen_binary(g, env, e));
    }
    runtime_words(op);
    register_word(g37);
    kept_self(g);
    crate::irkeep::gen_expr_kept(g, g, env, lhs);
    crate::irkeep::gen_expr_kept(g, l, env, rhs);
    assert(word(l.val) && word(r.val)) by {
        reveal(kept);
    }
    pair_texts(r, f, x, l.val);
    assert forall|d: D| #[trigger]
        comes_with(
            m,
            t,
            r.out,
            d,
            h,
            (m.rt)(f, (m.val)(l.val, d), (m.val)(r.val, d)),
        ) by {
        pair_passes(m, t, r.out, x, f, l.val, r.val, d);
        assert(holds_value(
            m,
            x,
            (m.rt)(f, (m.val)(l.val, d), (m.val)(r.val, d)),
            (m.run)(pair_line(x, f, l.val, r.val), d),
        ));
    }
}

proof fn pair_texts(r: Ir, f: Seq<char>, x: Seq<char>, y: Seq<char>)
    ensures
        ({
            let g38 = r.need_call(f, 2).vreg().0;
            let g39 = g38.p("  "@).p(x).p(" = call i64 @"@).p(f).p("(i64 "@).p(y).p(", i64 "@).p(
                r.val,
            ).p(")\n"@);
            &&& g39.give(x).val == x
            &&& g39.give(x).out == r.out + "  "@ + x + " = call i64 @"@ + f + "(i64 "@ + y
                + ", i64 "@ + r.val + ")\n"@
        }),
{
    reveal(Ir::p);
    reveal(Ir::give);
    reveal(Ir::vreg);
    reveal(Ir::need_call);
    reveal(Ir::need);
    reveal(Ir::need_line);
}

/// The boxed truth value opposite to what the runtime takes an operand for.
pub open spec fn opposite<D>(m: Vm<D>, x: Seq<char>, d: D) -> int {
    (m.boxed)(!(m.truthy)((m.val)(x, d)))
}

/// `not` gives the boxed truth value opposite to what the runtime takes the value for.
pub proof fn negation_code<D>(m: Vm<D>, t: Seq<char>, g: Ir, env: IrEnvView, x: ExprView)
    requires
        llvm(m),
        calls_runtime(m),
        word(g.val),
        crate::irexpr::gen_expr(
            g,
            env,
            ExprView::Unary { op: UnOp::Not, expr: Box::new(x) },
        ).out.is_prefix_of(t),
    ensures
        ({
            let h = crate::irexpr::gen_expr(
                g,
                env,
                ExprView::Unary { op: UnOp::Not, expr: Box::new(x) },
            );
            let v = crate::irexpr::gen_expr(g, env, x);
            forall|d: D| #[trigger]
                comes_with(
                    m,
                    t,
                    v.out,
                    d,
                    h,
                    opposite(m, v.val, d),
                )
        }),
{
    let e = ExprView::Unary { op: UnOp::Not, expr: Box::new(x) };
    let h = crate::irexpr::gen_expr(g, env, e);
    let v = crate::irexpr::gen_expr(g, env, x);
    let g9 = v.need("lumen_truthy"@, "i32 @lumen_truthy(i64)"@).need(
        "lumen_bool"@,
        "i64 @lumen_bool(i32)"@,
    );
    let (g10, q) = g9.vreg();
    let g11 = g10.p("  "@).p(q).p(" = call i32 @lumen_truthy(i64 "@).p(v.val).p(")\n"@);
    let (g12, z) = g11.vreg();
    let g13 = g12.p("  "@).p(z).p(" = icmp eq i32 "@).p(q).p(", 0\n"@);
    let (g14, zi) = g13.vreg();
    let g15 = g14.p("  "@).p(zi).p(" = zext i1 "@).p(z).p(" to i32\n"@);
    let (g16, r) = g15.vreg();
    let g17 = g16.p("  "@).p(r).p(" = call i64 @lumen_bool(i32 "@).p(zi).p(")\n"@);
    assert(h == g17.give(r)) by {
        assert(h == crate::irexpr::expr_unary(g, env, e));
    }
    register_word(g9);
    register_word(g11);
    register_word(g13);
    register_word(g15);
    kept_self(g);
    crate::irkeep::gen_expr_kept(g, g, env, x);
    assert(word(v.val)) by {
        reveal(kept);
    }
    let b1 = v.out + "  "@ + q + " = call i32 @lumen_truthy(i64 "@ + v.val + ")\n"@;
    let b2 = b1 + "  "@ + z + " = icmp eq i32 "@ + q + ", 0\n"@;
    let b3 = b2 + "  "@ + zi + " = zext i1 "@ + z + " to i32\n"@;
    let b4 = b3 + "  "@ + r + " = call i64 @lumen_bool(i32 "@ + zi + ")\n"@;
    assert(h.out == b4 && h.val == r) by {
        reveal(Ir::p);
        reveal(Ir::give);
        reveal(Ir::vreg);
        reveal(Ir::need);
        reveal(Ir::need_line);
    }
    assert(b1.is_prefix_of(b2) && b2.is_prefix_of(b3) && b3.is_prefix_of(b4));
    part_of(t, b3, b4);
    part_of(t, b2, b3);
    part_of(t, b1, b2);
    assert forall|d: D| #[trigger]
        comes_with(m, t, v.out, d, h, opposite(m, v.val, d)) by {
        truthy_passes(m, t, v.out, q, v.val, d);
        let d1 = (m.run)(truthy_line(q, v.val), d).0;
        assert(asked(m, q, (m.truthy)((m.val)(v.val, d)), d, (m.run)(truthy_line(q, v.val), d)));
        zero_passes(m, t, b1, z, q, d1);
        let d2 = (m.run)(zero_line(z, q), d1).0;
        assert(asked(m, z, (m.val)(q, d1) == 0, d1, (m.run)(zero_line(z, q), d1)));
        widen_passes(m, t, b2, zi, z, d2);
        let d3 = (m.run)(widen_line(zi, z), d2).0;
        assert(asked(m, zi, (m.val)(z, d2) != 0, d2, (m.run)(widen_line(zi, z), d2)));
        bool_passes(m, t, b3, r, zi, d3);
        let d4 = (m.run)(bool_line(r, zi), d3).0;
        assert(holds_value(
            m,
            r,
            (m.boxed)((m.val)(zi, d3) != 0),
            (m.run)(bool_line(r, zi), d3),
        ));
        goes_on(t, m.run, v.out, d, b1, d1, b2, d2);
        goes_on(t, m.run, v.out, d, b2, d2, b3, d3);
        goes_on(t, m.run, v.out, d, b3, d3, b4, d4);
    }
}

pub open spec fn call_line(f: Seq<char>) -> Seq<char> {
    "    call "@ + f
}

/// Whether a machine calls the runtime as an x86-64 does: the arguments are in `rcx` and
/// `rdx`, the result is in `rax`.
pub open spec fn calls_convention<D>(c: Cpu<D>) -> bool {
    &&& forall|f: Seq<char>, d: D|
        flat(f) ==> (#[trigger] (c.run)(call_line(f), d)).1 is None && (c.reg)(
            "rax"@,
            (c.run)(call_line(f), d).0,
        ) == (c.rt)(f, (c.reg)("rcx"@, d), (c.reg)("rdx"@, d))
    &&& forall|d: D|
        (c.reg)("rdx"@, (#[trigger] (c.run)("    mov rdx, rax"@, d)).0) == (c.reg)("rax"@, d)
    &&& forall|x: Seq<char>, d: D|
        frame_operand(x) ==> #[trigger] (c.reg)(x, (c.run)("    mov rdx, rax"@, d).0) == (c.reg)(
            x,
            d,
        )
    &&& forall|x: Seq<char>, d: D|
        frame_operand(x) ==> (c.reg)("rdx"@, (#[trigger] (c.run)(second_line(x), d)).0) == (c.reg)(
            "rdx"@,
            d,
        )
}

/// How an operation that the runtime carries out hangs together: behind the left side its
/// value is put into a slot, and behind the right side the operator's function is called
/// with what the slot holds and the value of the right side.
pub open spec fn operation_hangs<D>(
    c: Cpu<D>,
    t: Seq<char>,
    g: Asm,
    env: FnEnv,
    op: BinOp,
    lhs: ExprView,
    rhs: ExprView,
    second: Asm,
    slot: Seq<char>
) -> bool {
    let h = crate::asmexpr::gen_expr(
        g,
        env,
        ExprView::Binary { op, lhs: Box::new(lhs), rhs: Box::new(rhs) },
    );
    let l = crate::asmexpr::gen_expr(g, env, lhs);
    let r = crate::asmexpr::gen_expr(second, env, rhs);
    &&& forall|d: D| #[trigger] put_in(c, t, l.out, d, second.out, slot)
    &&& forall|d: D| #[trigger]
        crate::asmbranch::comes_with(
            c,
            t,
            r.out,
            d,
            h.out,
            (c.rt)(runtime_op(op), (c.reg)(slot, d), (c.reg)("rax"@, d)),
        )
}

/// Control comes there, and the slot holds what was in `rax`.
pub open spec fn put_in<D>(
    c: Cpu<D>,
    t: Seq<char>,
    a: Seq<char>,
    d: D,
    b: Seq<char>,
    slot: Seq<char>
) -> bool {
    exists|e: D| #[trigger] goes(t, c.run, a, d, b, e) && (c.reg)(slot, e) == (c.reg)("rax"@, d)
}

/// The law of the operations that the runtime carries out: those other than sums,
/// differences, products and comparisons.
pub proof fn operation_code<D>(
    c: Cpu<D>,
    t: Seq<char>,
    g: Asm,
    env: FnEnv,
    op: BinOp,
    lhs: ExprView,
    rhs: ExprView
)
    requires
        x86(c),
        calls_convention(c),
        op != BinOp::And,
        op != BinOp::Or,
        !is_fast(op),
        !(is_arith(op) && known_float(env, lhs) && known_float(env, rhs)),
        crate::asmexpr::gen_expr(
            g,
            env,
            ExprView::Binary { op, lhs: Box::new(lhs), rhs: Box::new(rhs) },
        ).out.is_prefix_of(t),
    ensures
        exists|second: Asm, slot: Seq<char>| #[trigger]
            operation_hangs(c, t, g, env, op, lhs, rhs, second, slot),
{
    let e = ExprView::Binary { op, lhs: Box::new(lhs), rhs: Box::new(rhs) };
    let h = crate::asmexpr::gen_expr(g, env, e);
    let g20 = crate::asmexpr::gen_expr(g, env, lhs);
    let (g21, lt) = g20.temp();
    let g22 = g21.p("    mov [rbp"@).n(lt as int).p("], rax\n"@);
    let g23 = crate::asmexpr::gen_expr(g22, env, rhs);
    let f = runtime_op(op);
    let g24 = g23.p("    mov rdx, rax\n"@);
    let g25 = g24.p("    mov rcx, [rbp"@).n(lt as int).p("]\n"@);
    let g41 = g25.p("    call "@).p(f).p("\n"@);
    assert(h == g41) by {
        assert(h == crate::asmexpr::gen_binary(g, env, e));
    }
    let x = slot_text(lt as int);
    operation_texts(g20, g23, f, lt);
    crate::asmkeep::kept_self(g22);
    crate::asmkeep::gen_expr_kept(g22, g22, env, rhs);
    assert(g22.out.is_prefix_of(g23.out)) by {
        reveal(crate::asmkeep::kept);
    }
    let s1 = "    mov rdx, rax"@;
    let s2 = second_line(x);
    let s3 = call_line(f);
    let b1 = g23.out + (s1 + "\n"@);
    let b2 = b1 + (s2 + "\n"@);
    part_of(t, b2, h.out);
    part_of(t, b1, b2);
    part_of(t, g23.out, b1);
    part_of(t, g22.out, g23.out);
    runtime_words(op);
    crate::irflow::word_flat(f);
    call_flat(f);
    assert forall|d: D| #[trigger] put_in(c, t, g20.out, d, g22.out, x) by {
        let s = store_line(x);
        assert((c.run)(s, d).1 is None);
        line_passes(c, t, g20.out, s, s + "\n"@, d);
    }
    assert forall|d: D| #[trigger]
        crate::asmbranch::comes_with(
            c,
            t,
            g23.out,
            d,
            h.out,
            (c.rt)(f, (c.reg)(x, d), (c.reg)("rax"@, d)),
        ) by {
        assert((c.run)(s1, d).1 is None);
        let d1 = (c.run)(s1, d).0;
        line_passes(c, t, g23.out, s1, s1 + "\n"@, d);
        assert((c.run)(s2, d1).1 is None);
        let d2 = (c.run)(s2, d1).0;
        line_passes(c, t, b1, s2, s2 + "\n"@, d1);
        assert((c.run)(call_line(f), d2).1 is None);
        let d3 = (c.run)(s3, d2).0;
        line_passes(c, t, b2, s3, s3 + "\n"@, d2);
        goes_on(t, c.run, g23.out, d, b1, d1, b2, d2);
        goes_on(t, c.run, g23.out, d, b2, d2, h.out, d3);
        assert((c.reg)(x, (c.run)(s1, d).0) == (c.reg)(x, d));
    }
    assert(operation_hangs(c, t, g, env, op, lhs, rhs, g22, x));
}

proof fn call_flat(f: Seq<char>)
    requires
        flat(f),
    ensures
        flat(call_line(f)),
{
    reveal_strlit("    call ");
    let s = call_line(f);
    assert forall|i: int| 0 <= i < s.len() implies #[trigger] s[i] != '\n' by {
        if i >= 9 {
            assert(s[i] == f[i - 9]);
        }
    }
}

proof fn operation_texts(g20: Asm, g23: Asm, f: Seq<char>, lt: i64)
    requires
        lt == g20.temp().1,
    ensures
        ({
            let x = slot_text(lt as int);
            let g22 = g20.temp().0.p("    mov [rbp"@).n(lt as int).p("], rax\n"@);
            let g41 = g23.p("    mov rdx, rax\n"@).p("    mov rcx, [rbp"@).n(lt as int).p(
                "]\n"@,
            ).p("    call "@).p(f).p("\n"@);
            let b1 = g23.out + ("    mov rdx, rax"@ + "\n"@);
            let b2 = b1 + (second_line(x) + "\n"@);
            &&& frame_operand(x)
            &&& flat(store_line(x))
            &&& plain("    mov rdx, rax"@)
            &&& plain(second_line(x))
            &&& g22.out == g20.out + (store_line(x) + "\n"@)
            &&& g41.out == b2 + (call_line(f) + "\n"@)
            &&& g23.out.is_prefix_of(b1)
            &&& b1.is_prefix_of(b2)
            &&& b2.is_prefix_of(g41.out)
        }),
{
    reveal(Asm::p);
    reveal(Asm::n);
    assert(g20.temp().0.out == g20.out) by {
        reveal(Asm::temp);
        reveal(Asm::grow);
        reveal(Asm::fail);
    }
    slot_facts(g20.out, lt as int);
    let x = slot_text(lt as int);
    let n = crate::text::dec(lt as int);
    reveal_strlit("    mov rdx, rax\n");
    reveal_strlit("    mov rdx, rax");
    reveal_strlit("\n");
    reveal_strlit("    mov rcx, [rbp");
    reveal_strlit("    mov rcx, ");
    reveal_strlit("[rbp");
    reveal_strlit("]");
    reveal_strlit("]\n");
    assert("    mov rdx, rax\n"@ =~= "    mov rdx, rax"@ + "\n"@);
    let b1 = g23.out + ("    mov rdx, rax"@ + "\n"@);
    let s2 = second_line(x);
    assert forall|i: int| 0 <= i < s2.len() implies #[trigger] s2[i] != '\n' by {
        if i >= 13 {
            assert(s2[i] == x[i - 13]);
        }
    }
    assert(b1 + "    mov rcx, [rbp"@ + n + "]\n"@ =~= b1 + (s2 + "\n"@));
    let b2 = b1 + (s2 + "\n"@);
    assert(b2 + "    call "@ + f + "\n"@ =~= b2 + (call_line(f) + "\n"@));
}

} // verus!
