//! What a lambda captures is listed once, and is neither a parameter of it nor a function.

use crate::ast::{ExprView, FStrPartView, StmtView};
use crate::lift::{
    free_elifs, free_expr, free_exprs, free_named, free_optbox, free_pairs, free_parts, free_stmt,
    free_stmts, lambda_captures, note_free,
};
use vstd::prelude::*;

verus! {

/// Whether names are listed once and none of them is in `base`.
spec fn apart(out: Seq<Seq<char>>, base: Set<Seq<char>>) -> bool {
    &&& out.no_duplicates()
    &&& forall|i: int| 0 <= i < out.len() ==> !base.contains(#[trigger] out[i])
}

proof fn note_apart(n: Seq<char>, bound: Set<Seq<char>>, out: Seq<Seq<char>>, base: Set<Seq<char>>)
    requires
        apart(out, base),
        base.subset_of(bound),
    ensures
        apart(note_free(n, bound, out), base),
{
    if !bound.contains(n) && !out.contains(n) {
        let r = out.push(n);
        assert forall|i: int, j: int|
            0 <= i < r.len() && 0 <= j < r.len() && i != j implies r[i] != r[j] by {
            if i < out.len() && j < out.len() {
                assert(out[i] != out[j]);
            } else if i < out.len() {
                assert(out.contains(out[i]));
            } else {
                assert(out.contains(out[j]));
            }
        }
    }
}

proof fn expr_apart(
    e: ExprView,
    bound: Set<Seq<char>>,
    out: Seq<Seq<char>>,
    base: Set<Seq<char>>,
)
    requires
        apart(out, base),
        base.subset_of(bound),
    ensures
        apart(free_expr(e, bound, out), base),
    decreases e,
{
    match e {
        ExprView::Ident(n) => note_apart(n, bound, out, base),
        ExprView::Unary { expr, .. } => {
            expr_apart(*expr, bound, out, base);
        },
        ExprView::Binary { lhs, rhs, .. } => {
            expr_apart(*lhs, bound, out, base);
            let o1 = free_expr(*lhs, bound, out);
            expr_apart(*rhs, bound, o1, base);
        },
        ExprView::Call { callee, args } => {
            expr_apart(*callee, bound, out, base);
            let o1 = free_expr(*callee, bound, out);
            exprs_apart(args, bound, o1, base);
        },
        ExprView::NamedCall { callee, args } => {
            expr_apart(*callee, bound, out, base);
            let o1 = free_expr(*callee, bound, out);
            named_apart(args, bound, o1, base);
        },
        ExprView::Method { obj, args, .. } => {
            expr_apart(*obj, bound, out, base);
            let o1 = free_expr(*obj, bound, out);
            exprs_apart(args, bound, o1, base);
        },
        ExprView::Field { obj, .. } => {
            expr_apart(*obj, bound, out, base);
        },
        ExprView::Index { obj, index } => {
            expr_apart(*obj, bound, out, base);
            let o1 = free_expr(*obj, bound, out);
            expr_apart(*index, bound, o1, base);
        },
        ExprView::List(p) => {
            exprs_apart(p, bound, out, base);
        },
        ExprView::MapLit(p) => {
            pairs_apart(p, bound, out, base);
        },
        ExprView::Range { lo, hi } => {
            expr_apart(*lo, bound, out, base);
            let o1 = free_expr(*lo, bound, out);
            expr_apart(*hi, bound, o1, base);
        },
        ExprView::IfElse { cond, then, els } => {
            expr_apart(*cond, bound, out, base);
            let o1 = free_expr(*cond, bound, out);
            expr_apart(*then, bound, o1, base);
            let o2 = free_expr(*then, bound, o1);
            expr_apart(*els, bound, o2, base);
        },
        ExprView::ListComp { elem, var, iter, cond } => {
            expr_apart(*iter, bound, out, base);
            let o1 = free_expr(*iter, bound, out);
            expr_apart(*elem, bound.insert(var), o1, base);
            let o2 = free_expr(*elem, bound.insert(var), o1);
            optbox_apart(cond, bound.insert(var), o2, base);
        },
        ExprView::Slice { obj, lo, hi } => {
            expr_apart(*obj, bound, out, base);
            let o1 = free_expr(*obj, bound, out);
            optbox_apart(lo, bound, o1, base);
            let o2 = free_optbox(lo, bound, o1);
            optbox_apart(hi, bound, o2, base);
        },
        ExprView::FStr(p) => {
            parts_apart(p, bound, out, base);
        },
        ExprView::Lambda { params, body } => {
            stmts_apart(body, bound.union(params.to_set()), out, base);
        },
        ExprView::Closure { captures, .. } => {
            exprs_apart(captures, bound, out, base);
        },
        _ => {},
    }
}

proof fn optbox_apart(
    o: Option<Box<ExprView>>,
    bound: Set<Seq<char>>,
    out: Seq<Seq<char>>,
    base: Set<Seq<char>>,
)
    requires
        apart(out, base),
        base.subset_of(bound),
    ensures
        apart(free_optbox(o, bound, out), base),
    decreases o,
{
    if let Some(e) = o {
        expr_apart(*e, bound, out, base);
    }
}

proof fn exprs_apart(
    s: Seq<ExprView>,
    bound: Set<Seq<char>>,
    out: Seq<Seq<char>>,
    base: Set<Seq<char>>,
)
    requires
        apart(out, base),
        base.subset_of(bound),
    ensures
        apart(free_exprs(s, bound, out), base),
    decreases s,
{
    if s.len() > 0 {
        exprs_apart(s.drop_last(), bound, out, base);
        let o = free_exprs(s.drop_last(), bound, out);
        expr_apart(s.last(), bound, o, base);
    }
}

proof fn named_apart(
    s: Seq<(Seq<char>, ExprView)>,
    bound: Set<Seq<char>>,
    out: Seq<Seq<char>>,
    base: Set<Seq<char>>,
)
    requires
        apart(out, base),
        base.subset_of(bound),
    ensures
        apart(free_named(s, bound, out), base),
    decreases s,
{
    if s.len() > 0 {
        named_apart(s.drop_last(), bound, out, base);
        let o = free_named(s.drop_last(), bound, out);
        expr_apart(s.last().1, bound, o, base);
    }
}

proof fn pairs_apart(
    s: Seq<(ExprView, ExprView)>,
    bound: Set<Seq<char>>,
    out: Seq<Seq<char>>,
    base: Set<Seq<char>>,
)
    requires
        apart(out, base),
        base.subset_of(bound),
    ensures
        apart(free_pairs(s, bound, out), base),
    decreases s,
{
    if s.len() > 0 {
        pairs_apart(s.drop_last(), bound, out, base);
        let o = free_pairs(s.drop_last(), bound, out);
        expr_apart(s.last().0, bound, o, base);
        expr_apart(s.last().1, bound, free_expr(s.last().0, bound, o), base);
    }
}

proof fn parts_apart(
    s: Seq<FStrPartView>,
    bound: Set<Seq<char>>,
    out: Seq<Seq<char>>,
    base: Set<Seq<char>>,
)
    requires
        apart(out, base),
        base.subset_of(bound),
    ensures
        apart(free_parts(s, bound, out), base),
    decreases s,
{
    if s.len() > 0 {
        parts_apart(s.drop_last(), bound, out, base);
        let o = free_parts(s.drop_last(), bound, out);
        if let FStrPartView::Expr(e) = s.last() {
            expr_apart(e, bound, o, base);
        }
    }
}

proof fn stmts_apart(
    s: Seq<StmtView>,
    bound: Set<Seq<char>>,
    out: Seq<Seq<char>>,
    base: Set<Seq<char>>,
)
    requires
        apart(out, base),
        base.subset_of(bound),
    ensures
        apart(free_stmts(s, bound, out).1, base),
        base.subset_of(free_stmts(s, bound, out).0),
    decreases s,
{
    if s.len() > 0 {
        stmts_apart(s.drop_last(), bound, out, base);
        let (b, o) = free_stmts(s.drop_last(), bound, out);
        stmt_apart(s.last(), b, o, base);
    }
}

proof fn elifs_apart(
    s: Seq<(ExprView, Seq<StmtView>)>,
    bound: Set<Seq<char>>,
    out: Seq<Seq<char>>,
    base: Set<Seq<char>>,
)
    requires
        apart(out, base),
        base.subset_of(bound),
    ensures
        apart(free_elifs(s, bound, out), base),
    decreases s,
{
    if s.len() > 0 {
        elifs_apart(s.drop_last(), bound, out, base);
        let o = free_elifs(s.drop_last(), bound, out);
        expr_apart(s.last().0, bound, o, base);
        stmts_apart(s.last().1, bound, free_expr(s.last().0, bound, o), base);
    }
}

proof fn stmt_apart(
    s: StmtView,
    bound: Set<Seq<char>>,
    out: Seq<Seq<char>>,
    base: Set<Seq<char>>,
)
    requires
        apart(out, base),
        base.subset_of(bound),
    ensures
        apart(free_stmt(s, bound, out).1, base),
        base.subset_of(free_stmt(s, bound, out).0),
    decreases s,
{
    match s {
        StmtView::Let { value, .. } => {
            expr_apart(value, bound, out, base);
        },
        StmtView::Assign { target, value } => {
            expr_apart(target, bound, out, base);
            let o1 = free_expr(target, bound, out);
            expr_apart(value, bound, o1, base);
        },
        StmtView::ExprStmt(e) => {
            expr_apart(e, bound, out, base);
        },
        StmtView::Return(Some(e)) => {
            expr_apart(e, bound, out, base);
        },
        StmtView::If { cond, then, elifs, els } => {
            expr_apart(cond, bound, out, base);
            let o1 = free_expr(cond, bound, out);
            stmts_apart(then, bound, o1, base);
            let o2 = free_stmts(then, bound, o1).1;
            elifs_apart(elifs, bound, o2, base);
            if let Some(b) = els {
                stmts_apart(b, bound, free_elifs(elifs, bound, o2), base);
            }
        },
        StmtView::While { cond, body } => {
            expr_apart(cond, bound, out, base);
            let o1 = free_expr(cond, bound, out);
            stmts_apart(body, bound, o1, base);
        },
        StmtView::For { var, iter, body } => {
            expr_apart(iter, bound, out, base);
            let o1 = free_expr(iter, bound, out);
            stmts_apart(body, bound.insert(var), o1, base);
        },
        StmtView::Try { body, catch_var, catch_body } => {
            stmts_apart(body, bound, out, base);
            let o1 = free_stmts(body, bound, out).1;
            stmts_apart(catch_body, bound.insert(catch_var), o1, base);
        },
        StmtView::Raise(e) => {
            expr_apart(e, bound, out, base);
        },
        _ => {},
    }
}

/// What a lambda captures is listed once, and is neither a parameter of it nor a function
/// of the program.
pub proof fn captures_are_apart(
    params: Seq<Seq<char>>,
    body: Seq<StmtView>,
    g: Set<Seq<char>>,
    i: int,
)
    requires
        0 <= i < lambda_captures(params, body, g).len(),
    ensures
        lambda_captures(params, body, g).no_duplicates(),
        !params.contains(lambda_captures(params, body, g)[i]),
        !g.contains(lambda_captures(params, body, g)[i]),
{
    let base = params.to_set().union(g);
    stmts_apart(body, base, Seq::empty(), base);
    let x = lambda_captures(params, body, g)[i];
    assert(!base.contains(x));
    if params.contains(x) {
        assert(params.to_set().contains(x));
    }
}

} // verus!
