//! What lives in the arena is handed on nowhere.

use crate::ast::{ExprView, FStrPartView, StmtView};
use crate::escape::{
    call_args_escape, escapes_block, escapes_elifs, escapes_expr, escapes_optbox, escapes_part,
    escapes_parts, escapes_stmt, hands_on, is_var, mentions_expr, mentions_exprs, mentions_optbox,
    mentions_pairs, mentions_part, mentions_parts, named_mention, qualifies, safe_callee,
};
use crate::walk::{
    every_block, every_elifs, every_expr, every_exprs, every_named, every_opt, every_optblock,
    every_optbox, every_pairs, every_part, every_parts, every_stmt, Prop,
};
use vstd::prelude::*;

verus! {

/// That an expression does not hand `x` on.
pub open spec fn keeps_back(x: Seq<char>) -> Prop {
    |e: ExprView| !hands_on(e, x)
}

proof fn absent_expr(e: ExprView, x: Seq<char>)
    requires
        !mentions_expr(e, x),
    ensures
        every_expr(e, keeps_back(x)),
    decreases e,
{
    not_here(e, x);
    match e {
        ExprView::Unary { expr, .. } => absent_expr(*expr, x),
        ExprView::Binary { lhs, rhs, .. } => {
            absent_expr(*lhs, x);
            absent_expr(*rhs, x);
        },
        ExprView::Call { callee, args } => {
            absent_expr(*callee, x);
            absent_exprs(args, x);
        },
        ExprView::NamedCall { callee, args } => {
            absent_expr(*callee, x);
            absent_named(args, x);
        },
        ExprView::Method { obj, args, .. } => {
            absent_expr(*obj, x);
            absent_exprs(args, x);
        },
        ExprView::Field { obj, .. } => absent_expr(*obj, x),
        ExprView::Index { obj, index } => {
            absent_expr(*obj, x);
            absent_expr(*index, x);
        },
        ExprView::Slice { obj, lo, hi } => {
            absent_expr(*obj, x);
            absent_optbox(lo, x);
            absent_optbox(hi, x);
        },
        ExprView::List(p) => absent_exprs(p, x),
        ExprView::MapLit(p) => absent_pairs(p, x),
        ExprView::Range { lo, hi } => {
            absent_expr(*lo, x);
            absent_expr(*hi, x);
        },
        ExprView::IfElse { cond, then, els } => {
            absent_expr(*cond, x);
            absent_expr(*then, x);
            absent_expr(*els, x);
        },
        ExprView::ListComp { elem, iter, cond, .. } => {
            absent_expr(*elem, x);
            absent_expr(*iter, x);
            absent_optbox(cond, x);
        },
        ExprView::FStr(p) => absent_parts(p, x),
        ExprView::Closure { captures, .. } => absent_exprs(captures, x),
        _ => {},
    }
}

/// An expression in which `x` does not occur does not hand it on itself.
proof fn not_here(e: ExprView, x: Seq<char>)
    requires
        !mentions_expr(e, x),
    ensures
        !hands_on(e, x),
{
    if hands_on(e, x) {
        let v = ExprView::Ident(x);
        assert(mentions_expr(v, x));
        match e {
            ExprView::Call { args, .. } => {
                let i = choose|i: int| 0 <= i < args.len() && args[i] == v;
                assert(mentions_expr(args[i], x));
                assert(mentions_exprs(args, x));
            },
            ExprView::Method { args, .. } => {
                let i = choose|i: int| 0 <= i < args.len() && args[i] == v;
                assert(mentions_expr(args[i], x));
                assert(mentions_exprs(args, x));
            },
            ExprView::List(items) => {
                let i = choose|i: int| 0 <= i < items.len() && items[i] == v;
                assert(mentions_expr(items[i], x));
                assert(mentions_exprs(items, x));
            },
            ExprView::Closure { captures, .. } => {
                let i = choose|i: int| 0 <= i < captures.len() && captures[i] == v;
                assert(mentions_expr(captures[i], x));
                assert(mentions_exprs(captures, x));
            },
            _ => {},
        }
        assert(mentions_expr(e, x));
    }
}

proof fn absent_optbox(o: Option<Box<ExprView>>, x: Seq<char>)
    requires
        !mentions_optbox(o, x),
    ensures
        every_optbox(o, keeps_back(x)),
    decreases o,
{
    if let Some(e) = o {
        absent_expr(*e, x);
    }
}

proof fn absent_exprs(s: Seq<ExprView>, x: Seq<char>)
    requires
        !mentions_exprs(s, x),
    ensures
        every_exprs(s, keeps_back(x)),
    decreases s,
{
    assert forall|i: int| 0 <= i < s.len() implies every_expr(#[trigger] s[i], keeps_back(x)) by {
        absent_expr(s[i], x);
    }
}

proof fn absent_named(s: Seq<(Seq<char>, ExprView)>, x: Seq<char>)
    requires
        !named_mention(s, x),
    ensures
        every_named(s, keeps_back(x)),
    decreases s,
{
    assert forall|i: int| 0 <= i < s.len() implies every_expr(
        (#[trigger] s[i]).1,
        keeps_back(x),
    ) by {
        assert(!mentions_expr(s[i].1, x));
        absent_expr(s[i].1, x);
    }
}

proof fn absent_pairs(s: Seq<(ExprView, ExprView)>, x: Seq<char>)
    requires
        !mentions_pairs(s, x),
    ensures
        every_pairs(s, keeps_back(x)),
    decreases s,
{
    assert forall|i: int| 0 <= i < s.len() implies every_expr((#[trigger] s[i]).0, keeps_back(x))
        && every_expr(s[i].1, keeps_back(x)) by {
        assert(!mentions_expr(s[i].0, x) && !mentions_expr(s[i].1, x));
        absent_expr(s[i].0, x);
        absent_expr(s[i].1, x);
    }
}

proof fn absent_parts(s: Seq<FStrPartView>, x: Seq<char>)
    requires
        !mentions_parts(s, x),
    ensures
        every_parts(s, keeps_back(x)),
    decreases s,
{
    assert forall|i: int| 0 <= i < s.len() implies every_part(#[trigger] s[i], keeps_back(x)) by {
        assert(!mentions_part(s[i], x));
        if let FStrPartView::Expr(e) = s[i] {
            absent_expr(e, x);
        }
    }
}

proof fn kept_expr(e: ExprView, x: Seq<char>)
    requires
        !escapes_expr(e, x),
    ensures
        every_expr(e, keeps_back(x)),
    decreases e,
{
    match e {
        ExprView::Unary { expr, .. } => kept_expr(*expr, x),
        ExprView::Binary { lhs, rhs, .. } => {
            kept_expr(*lhs, x);
            kept_expr(*rhs, x);
        },
        ExprView::Call { callee, args } => {
            kept_expr(*callee, x);
            kept_args(args, safe_callee(*callee), x);
        },
        ExprView::NamedCall { callee, args } => {
            kept_expr(*callee, x);
            absent_named(args, x);
        },
        ExprView::Method { obj, args, .. } => {
            kept_expr(*obj, x);
            kept_args(args, false, x);
        },
        ExprView::Field { obj, .. } => kept_expr(*obj, x),
        ExprView::Index { obj, index } => {
            kept_expr(*obj, x);
            kept_expr(*index, x);
        },
        ExprView::Slice { obj, lo, hi } => {
            kept_expr(*obj, x);
            kept_optbox(lo, x);
            kept_optbox(hi, x);
        },
        ExprView::List(p) => {
            absent_exprs(p, x);
            assert forall|i: int| 0 <= i < p.len() implies p[i] != ExprView::Ident(x) by {
                assert(!mentions_expr(p[i], x));
            }
        },
        ExprView::MapLit(p) => absent_pairs(p, x),
        ExprView::Range { lo, hi } => {
            kept_expr(*lo, x);
            kept_expr(*hi, x);
        },
        ExprView::IfElse { cond, then, els } => {
            kept_expr(*cond, x);
            absent_expr(*then, x);
            absent_expr(*els, x);
        },
        ExprView::ListComp { elem, iter, cond, .. } => {
            absent_expr(*elem, x);
            kept_expr(*iter, x);
            kept_optbox(cond, x);
        },
        ExprView::FStr(p) => kept_parts(p, x),
        ExprView::Closure { captures, .. } => {
            absent_exprs(captures, x);
            assert forall|i: int| 0 <= i < captures.len() implies captures[i] != ExprView::Ident(
                x,
            ) by {
                assert(!mentions_expr(captures[i], x));
            }
        },
        _ => {},
    }
}

proof fn kept_args(s: Seq<ExprView>, safe: bool, x: Seq<char>)
    requires
        !call_args_escape(s, safe, x),
    ensures
        every_exprs(s, keeps_back(x)),
        !safe ==> !s.contains(ExprView::Ident(x)),
    decreases s,
{
    assert forall|i: int| 0 <= i < s.len() implies every_expr(#[trigger] s[i], keeps_back(x)) by {
        kept_expr(s[i], x);
    }
    if !safe && s.contains(ExprView::Ident(x)) {
        let i = choose|i: int| 0 <= i < s.len() && s[i] == ExprView::Ident(x);
        assert(is_var(s[i], x));
    }
}

proof fn kept_optbox(o: Option<Box<ExprView>>, x: Seq<char>)
    requires
        !escapes_optbox(o, x),
    ensures
        every_optbox(o, keeps_back(x)),
    decreases o,
{
    if let Some(e) = o {
        kept_expr(*e, x);
    }
}

proof fn kept_parts(s: Seq<FStrPartView>, x: Seq<char>)
    requires
        !escapes_parts(s, x),
    ensures
        every_parts(s, keeps_back(x)),
    decreases s,
{
    assert forall|i: int| 0 <= i < s.len() implies every_part(#[trigger] s[i], keeps_back(x)) by {
        assert(!escapes_part(s[i], x));
        if let FStrPartView::Expr(e) = s[i] {
            kept_expr(e, x);
        }
    }
}

proof fn kept_stmt(s: StmtView, x: Seq<char>)
    requires
        !escapes_stmt(s, x),
    ensures
        every_stmt(s, keeps_back(x)),
    decreases s,
{
    match s {
        StmtView::Let { value, .. } => kept_expr(value, x),
        StmtView::Assign { target, value } => {
            kept_expr(target, x);
            kept_expr(value, x);
        },
        StmtView::ExprStmt(p) => kept_expr(p, x),
        StmtView::Return(p) => {
            if let Some(e) = p {
                kept_expr(e, x);
            }
            assert(every_opt(p, keeps_back(x)));
        },
        StmtView::If { cond, then, elifs, els } => {
            kept_expr(cond, x);
            kept_block(then, x);
            kept_elifs(elifs, x);
            if let Some(b) = els {
                kept_block(b, x);
            }
            assert(every_optblock(els, keeps_back(x)));
        },
        StmtView::While { cond, body } => {
            kept_expr(cond, x);
            kept_block(body, x);
        },
        StmtView::For { iter, body, .. } => {
            kept_expr(iter, x);
            kept_block(body, x);
        },
        StmtView::Try { body, catch_body, .. } => {
            kept_block(body, x);
            kept_block(catch_body, x);
        },
        StmtView::Raise(p) => kept_expr(p, x),
        _ => {},
    }
}

proof fn kept_block(s: Seq<StmtView>, x: Seq<char>)
    requires
        !escapes_block(s, x),
    ensures
        every_block(s, keeps_back(x)),
    decreases s,
{
    assert forall|i: int| 0 <= i < s.len() implies every_stmt(#[trigger] s[i], keeps_back(x)) by {
        kept_stmt(s[i], x);
    }
}

proof fn kept_elifs(s: Seq<(ExprView, Seq<StmtView>)>, x: Seq<char>)
    requires
        !escapes_elifs(s, x),
    ensures
        every_elifs(s, keeps_back(x)),
    decreases s,
{
    assert forall|i: int| 0 <= i < s.len() implies every_expr((#[trigger] s[i]).0, keeps_back(x))
        && every_block(s[i].1, keeps_back(x)) by {
        assert(!escapes_expr(s[i].0, x) && !escapes_block(s[i].1, x));
        kept_expr(s[i].0, x);
        kept_block(s[i].1, x);
    }
}

/// What lives in the arena is handed on by no expression of the function, however deep it
/// stands: no call that may keep it gets it, no list, map, struct or closure holds it, and
/// no branch or comprehension gives it.
pub proof fn arena_is_handed_on_nowhere(
    body: Seq<StmtView>,
    structs: Set<Seq<char>>,
    x: Seq<char>,
)
    requires
        qualifies(body, structs, x),
    ensures
        every_block(body, keeps_back(x)),
{
    kept_block(body, x);
}

} // verus!
