//! What holds everywhere in a program: of every expression in it, at any depth.

use crate::ast::{ExprView, FStrPartView, FnDefView, ItemView, ParamView, StmtView};
use vstd::prelude::*;

verus! {

/// A property of an expression.
pub type Prop = spec_fn(ExprView) -> bool;

/// Whether a property holds of an expression and of all that are inside it, in the bodies
/// of lambdas too.
pub open spec fn every_expr(e: ExprView, t: Prop) -> bool
    decreases e,
{
    t(e) && match e {
        ExprView::Unary { expr, .. } => every_expr(*expr, t),
        ExprView::Binary { lhs, rhs, .. } => {
            &&& every_expr(*lhs, t)
            &&& every_expr(*rhs, t)
        },
        ExprView::Call { callee, args } => {
            &&& every_expr(*callee, t)
            &&& every_exprs(args, t)
        },
        ExprView::NamedCall { callee, args } => {
            &&& every_expr(*callee, t)
            &&& every_named(args, t)
        },
        ExprView::Method { obj, args, .. } => {
            &&& every_expr(*obj, t)
            &&& every_exprs(args, t)
        },
        ExprView::Field { obj, .. } => every_expr(*obj, t),
        ExprView::Index { obj, index } => {
            &&& every_expr(*obj, t)
            &&& every_expr(*index, t)
        },
        ExprView::Slice { obj, lo, hi } => {
            &&& every_expr(*obj, t)
            &&& every_optbox(lo, t)
            &&& every_optbox(hi, t)
        },
        ExprView::List(p) => every_exprs(p, t),
        ExprView::MapLit(p) => every_pairs(p, t),
        ExprView::Range { lo, hi } => {
            &&& every_expr(*lo, t)
            &&& every_expr(*hi, t)
        },
        ExprView::IfElse { cond, then, els } => {
            &&& every_expr(*cond, t)
            &&& every_expr(*then, t)
            &&& every_expr(*els, t)
        },
        ExprView::ListComp { elem, iter, cond, .. } => {
            &&& every_expr(*elem, t)
            &&& every_expr(*iter, t)
            &&& every_optbox(cond, t)
        },
        ExprView::FStr(p) => every_parts(p, t),
        ExprView::Lambda { body, .. } => every_block(body, t),
        ExprView::Closure { captures, .. } => every_exprs(captures, t),
        _ => true,
    }
}

pub open spec fn every_optbox(o: Option<Box<ExprView>>, t: Prop) -> bool
    decreases o,
{
    match o {
        Some(e) => every_expr(*e, t),
        None => true,
    }
}

pub open spec fn every_opt(o: Option<ExprView>, t: Prop) -> bool
    decreases o,
{
    match o {
        Some(e) => every_expr(e, t),
        None => true,
    }
}

pub open spec fn every_exprs(s: Seq<ExprView>, t: Prop) -> bool
    decreases s,
{
    forall|i: int| 0 <= i < s.len() ==> every_expr(#[trigger] s[i], t)
}

pub open spec fn every_named(s: Seq<(Seq<char>, ExprView)>, t: Prop) -> bool
    decreases s,
{
    forall|i: int| 0 <= i < s.len() ==> every_expr((#[trigger] s[i]).1, t)
}

pub open spec fn every_pairs(s: Seq<(ExprView, ExprView)>, t: Prop) -> bool
    decreases s,
{
    forall|i: int|
        0 <= i < s.len() ==> every_expr((#[trigger] s[i]).0, t) && every_expr(s[i].1, t)
}

pub open spec fn every_part(p: FStrPartView, t: Prop) -> bool
    decreases p,
{
    match p {
        FStrPartView::Expr(e) => every_expr(e, t),
        _ => true,
    }
}

pub open spec fn every_parts(s: Seq<FStrPartView>, t: Prop) -> bool
    decreases s,
{
    forall|i: int| 0 <= i < s.len() ==> every_part(#[trigger] s[i], t)
}

/// Whether a property holds of every expression in a statement.
pub open spec fn every_stmt(s: StmtView, t: Prop) -> bool
    decreases s,
{
    match s {
        StmtView::Let { value, .. } => every_expr(value, t),
        StmtView::Assign { target, value } => {
            &&& every_expr(target, t)
            &&& every_expr(value, t)
        },
        StmtView::ExprStmt(p) => every_expr(p, t),
        StmtView::Return(p) => every_opt(p, t),
        StmtView::If { cond, then, elifs, els } => {
            &&& every_expr(cond, t)
            &&& every_block(then, t)
            &&& every_elifs(elifs, t)
            &&& every_optblock(els, t)
        },
        StmtView::While { cond, body } => {
            &&& every_expr(cond, t)
            &&& every_block(body, t)
        },
        StmtView::For { iter, body, .. } => {
            &&& every_expr(iter, t)
            &&& every_block(body, t)
        },
        StmtView::Try { body, catch_body, .. } => {
            &&& every_block(body, t)
            &&& every_block(catch_body, t)
        },
        StmtView::Raise(p) => every_expr(p, t),
        _ => true,
    }
}

pub open spec fn every_block(s: Seq<StmtView>, t: Prop) -> bool
    decreases s,
{
    forall|i: int| 0 <= i < s.len() ==> every_stmt(#[trigger] s[i], t)
}

pub open spec fn every_elifs(s: Seq<(ExprView, Seq<StmtView>)>, t: Prop) -> bool
    decreases s,
{
    forall|i: int|
        0 <= i < s.len() ==> every_expr((#[trigger] s[i]).0, t) && every_block(s[i].1, t)
}

pub open spec fn every_optblock(o: Option<Seq<StmtView>>, t: Prop) -> bool
    decreases o,
{
    match o {
        Some(b) => every_block(b, t),
        None => true,
    }
}

pub open spec fn every_default(s: Seq<ParamView>, t: Prop) -> bool {
    forall|i: int| 0 <= i < s.len() ==> every_opt((#[trigger] s[i]).default, t)
}

/// Whether a property holds of every expression in a function: of its defaults and its
/// body.
pub open spec fn every_fn(f: FnDefView, t: Prop) -> bool {
    every_default(f.params, t) && every_block(f.body, t)
}

pub open spec fn every_method(s: Seq<FnDefView>, t: Prop) -> bool {
    forall|i: int| 0 <= i < s.len() ==> every_fn(#[trigger] s[i], t)
}

pub open spec fn every_item(i: ItemView, t: Prop) -> bool {
    match i {
        ItemView::Fn(f) => every_fn(f, t),
        ItemView::Struct(s) => every_method(s.methods, t),
        ItemView::Stmt(s) => every_stmt(s, t),
        _ => true,
    }
}

/// Whether a property holds of every expression in a program.
pub open spec fn everywhere(s: Seq<ItemView>, t: Prop) -> bool {
    forall|i: int| 0 <= i < s.len() ==> every_item(#[trigger] s[i], t)
}

pub open spec fn in_body(i: ItemView, t: Prop) -> bool {
    match i {
        ItemView::Fn(f) => every_block(f.body, t),
        ItemView::Struct(s) => forall|k: int|
            0 <= k < s.methods.len() ==> every_block((#[trigger] s.methods[k]).body, t),
        ItemView::Stmt(s) => every_stmt(s, t),
        _ => true,
    }
}

/// Whether a property holds of every expression in the bodies of a program.
pub open spec fn in_bodies(s: Seq<ItemView>, t: Prop) -> bool {
    forall|i: int| 0 <= i < s.len() ==> in_body(#[trigger] s[i], t)
}

} // verus!
