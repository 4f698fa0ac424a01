//! Questions that the native back end asks of code before it writes it: which
//! variables a piece reads or assigns, whether it allocates, whether it ends in a call
//! of its own function.

use crate::ast::{
    elifs_view, expr_view, exprs_view, named_view, opt_view, optblock_view, optbox_view,
    pairs_view, parts_view, stmts_view, BinOp, Expr, ExprView, FStrPart, FStrPartView, Stmt,
    StmtView, UnOp,
};
use crate::text::str_eq;
use vstd::prelude::*;

verus! {

/// Whether an expression reads `x`.
pub open spec fn used_expr(e: ExprView, x: Seq<char>) -> bool
    decreases e,
{
    match e {
        ExprView::Ident(n) => n == x,
        ExprView::Unary { expr, .. } => used_expr(*expr, x),
        ExprView::Binary { lhs, rhs, .. } => used_expr(*lhs, x) || used_expr(*rhs, x),
        ExprView::Call { callee, args } => used_expr(*callee, x) || used_exprs(args, x),
        ExprView::NamedCall { callee, args } => used_expr(*callee, x) || used_named(args, x),
        ExprView::Field { obj, .. } => used_expr(*obj, x),
        ExprView::Method { obj, args, .. } => used_expr(*obj, x) || used_exprs(args, x),
        ExprView::List(p) => used_exprs(p, x),
        ExprView::MapLit(p) => used_pairs(p, x),
        ExprView::Range { lo, hi } => used_expr(*lo, x) || used_expr(*hi, x),
        ExprView::IfElse { cond, then, els } => used_expr(*cond, x) || used_expr(*then, x)
            || used_expr(*els, x),
        ExprView::ListComp { elem, iter, cond, .. } => used_expr(*elem, x) || used_expr(*iter, x)
            || used_optbox(cond, x),
        ExprView::Index { obj, index } => used_expr(*obj, x) || used_expr(*index, x),
        ExprView::Slice { obj, lo, hi } => used_expr(*obj, x) || used_optbox(lo, x)
            || used_optbox(hi, x),
        ExprView::Lambda { body, .. } => used_block(body, x),
        ExprView::Closure { captures, .. } => used_exprs(captures, x),
        ExprView::FStr(p) => used_parts(p, x),
        _ => false,
    }
}

pub open spec fn used_optbox(o: Option<Box<ExprView>>, x: Seq<char>) -> bool
    decreases o,
{
    match o {
        Some(e) => used_expr(*e, x),
        None => false,
    }
}

pub open spec fn used_exprs(s: Seq<ExprView>, x: Seq<char>) -> bool
    decreases s,
{
    exists|i: int| 0 <= i < s.len() && used_expr(#[trigger] s[i], x)
}

pub open spec fn used_named(s: Seq<(Seq<char>, ExprView)>, x: Seq<char>) -> bool
    decreases s,
{
    exists|i: int| 0 <= i < s.len() && used_expr((#[trigger] s[i]).1, x)
}

pub open spec fn used_pairs(s: Seq<(ExprView, ExprView)>, x: Seq<char>) -> bool
    decreases s,
{
    exists|i: int| 0 <= i < s.len() && (used_expr((#[trigger] s[i]).0, x) || used_expr(s[i].1, x))
}

pub open spec fn used_part(p: FStrPartView, x: Seq<char>) -> bool
    decreases p,
{
    match p {
        FStrPartView::Expr(e) => used_expr(e, x),
        _ => false,
    }
}

pub open spec fn used_parts(s: Seq<FStrPartView>, x: Seq<char>) -> bool
    decreases s,
{
    exists|i: int| 0 <= i < s.len() && used_part(#[trigger] s[i], x)
}

pub open spec fn used_opt(o: Option<ExprView>, x: Seq<char>) -> bool
    decreases o,
{
    match o {
        Some(e) => used_expr(e, x),
        None => false,
    }
}

/// Whether a statement reads `x` or assigns it.
pub open spec fn used_stmt(s: StmtView, x: Seq<char>) -> bool
    decreases s,
{
    match s {
        StmtView::Let { value, .. } => used_expr(value, x),
        StmtView::Assign { target, value } => used_expr(target, x) || used_expr(value, x),
        StmtView::ExprStmt(p) => used_expr(p, x),
        StmtView::Return(p) => used_opt(p, x),
        StmtView::If { cond, then, elifs, els } => used_expr(cond, x) || used_block(then, x)
            || used_elifs(elifs, x) || used_optblock(els, x),
        StmtView::While { cond, body } => used_expr(cond, x) || used_block(body, x),
        StmtView::For { iter, body, .. } => used_expr(iter, x) || used_block(body, x),
        StmtView::Try { body, catch_body, .. } => used_block(body, x) || used_block(catch_body, x),
        StmtView::Raise(p) => used_expr(p, x),
        _ => false,
    }
}

pub open spec fn used_block(s: Seq<StmtView>, x: Seq<char>) -> bool
    decreases s,
{
    exists|i: int| 0 <= i < s.len() && used_stmt(#[trigger] s[i], x)
}

pub open spec fn used_elifs(s: Seq<(ExprView, Seq<StmtView>)>, x: Seq<char>) -> bool
    decreases s,
{
    exists|i: int| 0 <= i < s.len() && (used_expr((#[trigger] s[i]).0, x) || used_block(s[i].1, x))
}

pub open spec fn used_optblock(o: Option<Seq<StmtView>>, x: Seq<char>) -> bool
    decreases o,
{
    match o {
        Some(b) => used_block(b, x),
        None => false,
    }
}

pub fn is_used_expr(e: &Expr, x: &str) -> (r: bool)
    ensures
        r == used_expr(e@, x@),
    decreases e,
{
    match e {
        Expr::Ident(n) => str_eq(n.as_str(), x),
        Expr::Unary { expr, .. } => is_used_expr(expr, x),
        Expr::Binary { lhs, rhs, .. } => is_used_expr(lhs, x) || is_used_expr(rhs, x),
        Expr::Call { callee, args } => is_used_expr(callee, x) || is_used_exprs(args, x),
        Expr::NamedCall { callee, args } => is_used_expr(callee, x) || is_used_named(args, x),
        Expr::Field { obj, .. } => is_used_expr(obj, x),
        Expr::Method { obj, args, .. } => is_used_expr(obj, x) || is_used_exprs(args, x),
        Expr::List(p) => is_used_exprs(p, x),
        Expr::MapLit(p) => is_used_pairs(p, x),
        Expr::Range { lo, hi } => is_used_expr(lo, x) || is_used_expr(hi, x),
        Expr::IfElse { cond, then, els } => is_used_expr(cond, x) || is_used_expr(then, x)
            || is_used_expr(els, x),
        Expr::ListComp { elem, iter, cond, .. } => is_used_expr(elem, x) || is_used_expr(iter, x)
            || is_used_optbox(cond, x),
        Expr::Index { obj, index } => is_used_expr(obj, x) || is_used_expr(index, x),
        Expr::Slice { obj, lo, hi } => is_used_expr(obj, x) || is_used_optbox(lo, x)
            || is_used_optbox(hi, x),
        Expr::Lambda { body, .. } => is_used_block(body, x),
        Expr::Closure { captures, .. } => is_used_exprs(captures, x),
        Expr::FStr(p) => is_used_parts(p, x),
        _ => false,
    }
}

pub fn is_used_optbox(o: &Option<Box<Expr>>, x: &str) -> (r: bool)
    ensures
        r == used_optbox(optbox_view(*o), x@),
    decreases o,
{
    match o {
        Some(p) => is_used_expr(p, x),
        None => false,
    }
}

pub fn is_used_exprs(v: &Vec<Expr>, x: &str) -> (r: bool)
    ensures
        r == used_exprs(exprs_view(v@), x@),
    decreases v,
{
    let ghost s0 = exprs_view(v@);
    for i in 0..v.len()
        invariant
            s0 == exprs_view(v@),
            forall|k: int| 0 <= k < i ==> !used_expr(#[trigger] s0[k], x@),
    {
        assert(s0[i as int] == v@[i as int]@);
        if is_used_expr(&v[i], x) {
            return true;
        }
    }
    false
}

pub fn is_used_named(v: &Vec<(String, Expr)>, x: &str) -> (r: bool)
    ensures
        r == used_named(named_view(v@), x@),
    decreases v,
{
    let ghost s0 = named_view(v@);
    for i in 0..v.len()
        invariant
            s0 == named_view(v@),
            forall|k: int| 0 <= k < i ==> !used_expr((#[trigger] s0[k]).1, x@),
    {
        assert(s0[i as int] == (v@[i as int].0@, v@[i as int].1@));
        if is_used_expr(&v[i].1, x) {
            return true;
        }
    }
    false
}

pub fn is_used_pairs(v: &Vec<(Expr, Expr)>, x: &str) -> (r: bool)
    ensures
        r == used_pairs(pairs_view(v@), x@),
    decreases v,
{
    let ghost s0 = pairs_view(v@);
    for i in 0..v.len()
        invariant
            s0 == pairs_view(v@),
            forall|k: int| 0 <= k < i ==> !(
                used_expr((#[trigger] s0[k]).0, x@) || used_expr(s0[k].1, x@)
            ),
    {
        assert(s0[i as int] == (v@[i as int].0@, v@[i as int].1@));
        if is_used_expr(&v[i].0, x) || is_used_expr(&v[i].1, x) {
            return true;
        }
    }
    false
}

pub fn is_used_part(p: &FStrPart, x: &str) -> (r: bool)
    ensures
        r == used_part(p@, x@),
    decreases p,
{
    match p {
        FStrPart::Expr(e) => is_used_expr(e, x),
        _ => false,
    }
}

pub fn is_used_parts(v: &Vec<FStrPart>, x: &str) -> (r: bool)
    ensures
        r == used_parts(parts_view(v@), x@),
    decreases v,
{
    let ghost s0 = parts_view(v@);
    for i in 0..v.len()
        invariant
            s0 == parts_view(v@),
            forall|k: int| 0 <= k < i ==> !used_part(#[trigger] s0[k], x@),
    {
        assert(s0[i as int] == v@[i as int]@);
        if is_used_part(&v[i], x) {
            return true;
        }
    }
    false
}

pub fn is_used_opt(o: &Option<Expr>, x: &str) -> (r: bool)
    ensures
        r == used_opt(opt_view(*o), x@),
    decreases o,
{
    match o {
        Some(p) => is_used_expr(p, x),
        None => false,
    }
}

pub fn is_used_stmt(s: &Stmt, x: &str) -> (r: bool)
    ensures
        r == used_stmt(s@, x@),
    decreases s,
{
    match s {
        Stmt::Let { value, .. } => is_used_expr(value, x),
        Stmt::Assign { target, value } => is_used_expr(target, x) || is_used_expr(value, x),
        Stmt::ExprStmt(p) => is_used_expr(p, x),
        Stmt::Return(p) => is_used_opt(p, x),
        Stmt::If { cond, then, elifs, els } => is_used_expr(cond, x) || is_used_block(then, x)
            || is_used_elifs(elifs, x) || is_used_optblock(els, x),
        Stmt::While { cond, body } => is_used_expr(cond, x) || is_used_block(body, x),
        Stmt::For { iter, body, .. } => is_used_expr(iter, x) || is_used_block(body, x),
        Stmt::Try { body, catch_body, .. } => is_used_block(body, x)
            || is_used_block(catch_body, x),
        Stmt::Raise(p) => is_used_expr(p, x),
        _ => false,
    }
}

pub fn is_used_block(v: &Vec<Stmt>, x: &str) -> (r: bool)
    ensures
        r == used_block(stmts_view(v@), x@),
    decreases v,
{
    let ghost s0 = stmts_view(v@);
    for i in 0..v.len()
        invariant
            s0 == stmts_view(v@),
            forall|k: int| 0 <= k < i ==> !used_stmt(#[trigger] s0[k], x@),
    {
        assert(s0[i as int] == v@[i as int]@);
        if is_used_stmt(&v[i], x) {
            return true;
        }
    }
    false
}

pub fn is_used_elifs(v: &Vec<(Expr, Vec<Stmt>)>, x: &str) -> (r: bool)
    ensures
        r == used_elifs(elifs_view(v@), x@),
    decreases v,
{
    let ghost s0 = elifs_view(v@);
    for i in 0..v.len()
        invariant
            s0 == elifs_view(v@),
            forall|k: int| 0 <= k < i ==> !(
                used_expr((#[trigger] s0[k]).0, x@) || used_block(s0[k].1, x@)
            ),
    {
        assert(s0[i as int] == (v@[i as int].0@, stmts_view(v@[i as int].1@)));
        if is_used_expr(&v[i].0, x) || is_used_block(&v[i].1, x) {
            return true;
        }
    }
    false
}

pub fn is_used_optblock(o: &Option<Vec<Stmt>>, x: &str) -> (r: bool)
    ensures
        r == used_optblock(optblock_view(*o), x@),
    decreases o,
{
    match o {
        Some(p) => is_used_block(p, x),
        None => false,
    }
}

/// Whether evaluating an expression is sure not to allocate.
pub open spec fn no_alloc_expr(e: ExprView) -> bool
    decreases e,
{
    match e {
        ExprView::Ident(_) => true,
        ExprView::Int(_) => true,
        ExprView::Float(_) => true,
        ExprView::Bool(_) => true,
        ExprView::Nil => true,
        ExprView::Unary { expr, .. } => no_alloc_expr(*expr),
        ExprView::Binary { lhs, rhs, .. } => no_alloc_expr(*lhs) && no_alloc_expr(*rhs),
        ExprView::Range { lo, hi } => no_alloc_expr(*lo) && no_alloc_expr(*hi),
        ExprView::IfElse { cond, then, els } => no_alloc_expr(*cond) && no_alloc_expr(*then)
            && no_alloc_expr(*els),
        _ => false,
    }
}

pub open spec fn no_alloc_opt(o: Option<ExprView>) -> bool
    decreases o,
{
    match o {
        Some(e) => no_alloc_expr(e),
        None => true,
    }
}

/// Whether running a statement is sure not to allocate.
pub open spec fn no_alloc_stmt(s: StmtView) -> bool
    decreases s,
{
    match s {
        StmtView::Let { value, .. } => no_alloc_expr(value),
        StmtView::Assign { target, value } => no_alloc_expr(target) && no_alloc_expr(value),
        StmtView::ExprStmt(p) => no_alloc_expr(p),
        StmtView::Return(p) => no_alloc_opt(p),
        StmtView::If { cond, then, elifs, els } => no_alloc_expr(cond) && no_alloc_block(then)
            && no_alloc_elifs(elifs) && no_alloc_optblock(els),
        StmtView::While { cond, body } => no_alloc_expr(cond) && no_alloc_block(body),
        StmtView::For { iter, body, .. } => no_alloc_expr(iter) && no_alloc_block(body),
        StmtView::Try { body, catch_body, .. } => no_alloc_block(body)
            && no_alloc_block(catch_body),
        StmtView::Raise(_) => false,
        _ => true,
    }
}

pub open spec fn no_alloc_block(s: Seq<StmtView>) -> bool
    decreases s,
{
    forall|i: int| 0 <= i < s.len() ==> no_alloc_stmt(#[trigger] s[i])
}

pub open spec fn no_alloc_elifs(s: Seq<(ExprView, Seq<StmtView>)>) -> bool
    decreases s,
{
    forall|i: int| 0 <= i < s.len() ==> (
        no_alloc_expr((#[trigger] s[i]).0) && no_alloc_block(s[i].1)
    )
}

pub open spec fn no_alloc_optblock(o: Option<Seq<StmtView>>) -> bool
    decreases o,
{
    match o {
        Some(b) => no_alloc_block(b),
        None => true,
    }
}

pub fn allocates_nothing_expr(e: &Expr) -> (r: bool)
    ensures
        r == no_alloc_expr(e@),
    decreases e,
{
    match e {
        Expr::Ident(_) => true,
        Expr::Int(_) => true,
        Expr::Float(_) => true,
        Expr::Bool(_) => true,
        Expr::Nil => true,
        Expr::Unary { expr, .. } => allocates_nothing_expr(expr),
        Expr::Binary { lhs, rhs, .. } => allocates_nothing_expr(lhs) && allocates_nothing_expr(rhs),
        Expr::Range { lo, hi } => allocates_nothing_expr(lo) && allocates_nothing_expr(hi),
        Expr::IfElse { cond, then, els } => allocates_nothing_expr(cond)
            && allocates_nothing_expr(then) && allocates_nothing_expr(els),
        _ => false,
    }
}

pub fn allocates_nothing_opt(o: &Option<Expr>) -> (r: bool)
    ensures
        r == no_alloc_opt(opt_view(*o)),
    decreases o,
{
    match o {
        Some(p) => allocates_nothing_expr(p),
        None => true,
    }
}

pub fn allocates_nothing_stmt(s: &Stmt) -> (r: bool)
    ensures
        r == no_alloc_stmt(s@),
    decreases s,
{
    match s {
        Stmt::Let { value, .. } => allocates_nothing_expr(value),
        Stmt::Assign { target, value } => allocates_nothing_expr(target)
            && allocates_nothing_expr(value),
        Stmt::ExprStmt(p) => allocates_nothing_expr(p),
        Stmt::Return(p) => allocates_nothing_opt(p),
        Stmt::If { cond, then, elifs, els } => allocates_nothing_expr(cond)
            && allocates_nothing_block(then) && allocates_nothing_elifs(elifs)
            && allocates_nothing_optblock(els),
        Stmt::While { cond, body } => allocates_nothing_expr(cond) && allocates_nothing_block(body),
        Stmt::For { iter, body, .. } => allocates_nothing_expr(iter)
            && allocates_nothing_block(body),
        Stmt::Try { body, catch_body, .. } => allocates_nothing_block(body)
            && allocates_nothing_block(catch_body),
        Stmt::Raise(_) => false,
        _ => true,
    }
}

pub fn allocates_nothing_block(v: &Vec<Stmt>) -> (r: bool)
    ensures
        r == no_alloc_block(stmts_view(v@)),
    decreases v,
{
    let ghost s0 = stmts_view(v@);
    for i in 0..v.len()
        invariant
            s0 == stmts_view(v@),
            forall|k: int| 0 <= k < i ==> no_alloc_stmt(#[trigger] s0[k]),
    {
        assert(s0[i as int] == v@[i as int]@);
        if !(allocates_nothing_stmt(&v[i])) {
            return false;
        }
    }
    true
}

pub fn allocates_nothing_elifs(v: &Vec<(Expr, Vec<Stmt>)>) -> (r: bool)
    ensures
        r == no_alloc_elifs(elifs_view(v@)),
    decreases v,
{
    let ghost s0 = elifs_view(v@);
    for i in 0..v.len()
        invariant
            s0 == elifs_view(v@),
            forall|k: int| 0 <= k < i ==> (
                no_alloc_expr((#[trigger] s0[k]).0) && no_alloc_block(s0[k].1)
            ),
    {
        assert(s0[i as int] == (v@[i as int].0@, stmts_view(v@[i as int].1@)));
        if !(allocates_nothing_expr(&v[i].0) && allocates_nothing_block(&v[i].1)) {
            return false;
        }
    }
    true
}

pub fn allocates_nothing_optblock(o: &Option<Vec<Stmt>>) -> (r: bool)
    ensures
        r == no_alloc_optblock(optblock_view(*o)),
    decreases o,
{
    match o {
        Some(p) => allocates_nothing_block(p),
        None => true,
    }
}

/// Whether a statement declares or assigns `x`.
pub open spec fn assigns_stmt(s: StmtView, x: Seq<char>) -> bool
    decreases s,
{
    match s {
        StmtView::Assign { target, .. } => target == ExprView::Ident(x),
        StmtView::Let { name, .. } => name == x,
        StmtView::If { then, elifs, els, .. } => assigns_block(then, x) || assigns_elifs(elifs, x)
            || match els {
            Some(b) => assigns_block(b, x),
            None => false,
        },
        StmtView::While { body, .. } => assigns_block(body, x),
        StmtView::For { var, body, .. } => var == x || assigns_block(body, x),
        _ => false,
    }
}

pub open spec fn assigns_block(s: Seq<StmtView>, x: Seq<char>) -> bool
    decreases s,
{
    exists|i: int| 0 <= i < s.len() && assigns_stmt(#[trigger] s[i], x)
}

pub open spec fn assigns_elifs(s: Seq<(ExprView, Seq<StmtView>)>, x: Seq<char>) -> bool
    decreases s,
{
    exists|i: int| 0 <= i < s.len() && assigns_block((#[trigger] s[i]).1, x)
}

fn is_assigned_stmt(s: &Stmt, x: &str) -> (r: bool)
    ensures
        r == assigns_stmt(s@, x@),
    decreases s,
{
    match s {
        Stmt::Assign { target, .. } => match target {
            Expr::Ident(n) => str_eq(n.as_str(), x),
            _ => false,
        },
        Stmt::Let { name, .. } => str_eq(name.as_str(), x),
        Stmt::If { then, elifs, els, .. } => {
            assert(optblock_view(*els) is Some == els is Some);
            is_assigned_block(then, x) || is_assigned_elifs(elifs, x) || match els {
                Some(b) => is_assigned_block(b, x),
                None => false,
            }
        },
        Stmt::While { body, .. } => is_assigned_block(body, x),
        Stmt::For { var, body, .. } => str_eq(var.as_str(), x) || is_assigned_block(body, x),
        _ => false,
    }
}

pub fn is_assigned_block(v: &Vec<Stmt>, x: &str) -> (r: bool)
    ensures
        r == assigns_block(stmts_view(v@), x@),
    decreases v,
{
    let ghost s0 = stmts_view(v@);
    for i in 0..v.len()
        invariant
            s0 == stmts_view(v@),
            forall|k: int| 0 <= k < i ==> !assigns_stmt(#[trigger] s0[k], x@),
    {
        assert(s0[i as int] == v@[i as int]@);
        if is_assigned_stmt(&v[i], x) {
            return true;
        }
    }
    false
}

fn is_assigned_elifs(v: &Vec<(Expr, Vec<Stmt>)>, x: &str) -> (r: bool)
    ensures
        r == assigns_elifs(elifs_view(v@), x@),
    decreases v,
{
    let ghost s0 = elifs_view(v@);
    for i in 0..v.len()
        invariant
            s0 == elifs_view(v@),
            forall|k: int| 0 <= k < i ==> !assigns_block((#[trigger] s0[k]).1, x@),
    {
        assert(s0[i as int] == (v@[i as int].0@, stmts_view(v@[i as int].1@)));
        if is_assigned_block(&v[i].1, x) {
            return true;
        }
    }
    false
}

/// Whether a statement ends in a return of a call of `f`.
pub open spec fn tail_calls_stmt(s: StmtView, f: Seq<char>) -> bool
    decreases s,
{
    match s {
        StmtView::Return(Some(ExprView::Call { callee, .. })) => *callee == ExprView::Ident(f),
        StmtView::If { then, elifs, els, .. } => tail_calls_block(then, f) || tail_calls_elifs(
            elifs,
            f,
        ) || match els {
            Some(b) => tail_calls_block(b, f),
            None => false,
        },
        _ => false,
    }
}

pub open spec fn tail_calls_block(s: Seq<StmtView>, f: Seq<char>) -> bool
    decreases s,
{
    exists|i: int| 0 <= i < s.len() && tail_calls_stmt(#[trigger] s[i], f)
}

pub open spec fn tail_calls_elifs(s: Seq<(ExprView, Seq<StmtView>)>, f: Seq<char>) -> bool
    decreases s,
{
    exists|i: int| 0 <= i < s.len() && tail_calls_block((#[trigger] s[i]).1, f)
}

fn stmt_has_tail_call(s: &Stmt, f: &str) -> (r: bool)
    ensures
        r == tail_calls_stmt(s@, f@),
    decreases s,
{
    match s {
        Stmt::Return(o) => {
            assert(opt_view(*o) is Some == o is Some);
            match o {
                Some(Expr::Call { callee, .. }) => {
                    assert(callee@ == expr_view(**callee));
                    match &**callee {
                        Expr::Ident(n) => str_eq(n.as_str(), f),
                        _ => false,
                    }
                },
                _ => false,
            }
        },
        Stmt::If { then, elifs, els, .. } => {
            assert(optblock_view(*els) is Some == els is Some);
            has_self_tail_call(then, f) || elifs_have_tail_call(elifs, f) || match els {
                Some(b) => has_self_tail_call(b, f),
                None => false,
            }
        },
        _ => false,
    }
}

pub fn has_self_tail_call(v: &Vec<Stmt>, f: &str) -> (r: bool)
    ensures
        r == tail_calls_block(stmts_view(v@), f@),
    decreases v,
{
    let ghost s0 = stmts_view(v@);
    for i in 0..v.len()
        invariant
            s0 == stmts_view(v@),
            forall|k: int| 0 <= k < i ==> !tail_calls_stmt(#[trigger] s0[k], f@),
    {
        assert(s0[i as int] == v@[i as int]@);
        if stmt_has_tail_call(&v[i], f) {
            return true;
        }
    }
    false
}

fn elifs_have_tail_call(v: &Vec<(Expr, Vec<Stmt>)>, f: &str) -> (r: bool)
    ensures
        r == tail_calls_elifs(elifs_view(v@), f@),
    decreases v,
{
    let ghost s0 = elifs_view(v@);
    for i in 0..v.len()
        invariant
            s0 == elifs_view(v@),
            forall|k: int| 0 <= k < i ==> !tail_calls_block((#[trigger] s0[k]).1, f@),
    {
        assert(s0[i as int] == (v@[i as int].0@, stmts_view(v@[i as int].1@)));
        if has_self_tail_call(&v[i].1, f) {
            return true;
        }
    }
    false
}

/// Whether the right side of an assignment to `x` reads `x` as a plain value alone.
/// `index` says whether the index of an element counts as such a read.
pub open spec fn rhs_safe(e: ExprView, x: Seq<char>, index: bool) -> bool
    decreases e,
{
    match e {
        ExprView::Ident(_) | ExprView::Int(_) | ExprView::Float(_) | ExprView::Str(_)
        | ExprView::Bool(_) | ExprView::Nil => true,
        ExprView::Unary { expr, .. } => rhs_safe(*expr, x, index),
        ExprView::Binary { lhs, rhs, .. } => rhs_safe(*lhs, x, index) && rhs_safe(*rhs, x, index),
        ExprView::Index { obj, index: i } => if index {
            rhs_safe(*obj, x, index) && rhs_safe(*i, x, index)
        } else {
            !used_expr(e, x)
        },
        _ => !used_expr(e, x),
    }
}

fn is_rhs_safe(e: &Expr, x: &str, index: bool) -> (r: bool)
    ensures
        r == rhs_safe(e@, x@, index),
    decreases e,
{
    match e {
        Expr::Ident(_) => true,
        Expr::Int(_) => true,
        Expr::Float(_) => true,
        Expr::Str(_) => true,
        Expr::Bool(_) => true,
        Expr::Nil => true,
        Expr::Unary { expr, .. } => is_rhs_safe(expr, x, index),
        Expr::Binary { lhs, rhs, .. } => is_rhs_safe(lhs, x, index) && is_rhs_safe(rhs, x, index),
        Expr::Index { obj, index: i } => {
            if index {
                is_rhs_safe(obj, x, index) && is_rhs_safe(i, x, index)
            } else {
                !is_used_expr(e, x)
            }
        },
        _ => !is_used_expr(e, x),
    }
}

pub open spec fn accum_stmt(s: StmtView, x: Seq<char>, index: bool) -> bool {
    match s {
        StmtView::Assign { target, value } => if target == ExprView::Ident(x) {
            rhs_safe(value, x, index)
        } else {
            !used_stmt(s, x)
        },
        _ => !used_stmt(s, x),
    }
}

/// Whether `x` can be kept in a register through a loop with this body: it is touched
/// by assignments to it alone, which read it as a plain value.
pub open spec fn accum_safe(body: Seq<StmtView>, x: Seq<char>, index: bool) -> bool {
    forall|i: int| 0 <= i < body.len() ==> accum_stmt(#[trigger] body[i], x, index)
}

fn is_accum_stmt(s: &Stmt, x: &str, index: bool) -> (r: bool)
    ensures
        r == accum_stmt(s@, x@, index),
{
    match s {
        Stmt::Assign { target, value } => match target {
            Expr::Ident(n) => {
                if str_eq(n.as_str(), x) {
                    is_rhs_safe(value, x, index)
                } else {
                    !is_used_stmt(s, x)
                }
            },
            _ => !is_used_stmt(s, x),
        },
        _ => !is_used_stmt(s, x),
    }
}

pub fn is_accum_safe(v: &Vec<Stmt>, x: &str, index: bool) -> (r: bool)
    ensures
        r == accum_safe(stmts_view(v@), x@, index),
{
    let ghost s0 = stmts_view(v@);
    for i in 0..v.len()
        invariant
            s0 == stmts_view(v@),
            forall|k: int| 0 <= k < i ==> accum_stmt(#[trigger] s0[k], x@, index),
    {
        assert(s0[i as int] == v@[i as int]@);
        if !is_accum_stmt(&v[i], x, index) {
            return false;
        }
    }
    true
}

pub open spec fn is_comparison(op: BinOp) -> bool {
    op == BinOp::Lt || op == BinOp::Le || op == BinOp::Gt || op == BinOp::Ge || op == BinOp::Eq
        || op == BinOp::Ne
}

pub fn compares(op: BinOp) -> (r: bool)
    ensures
        r == is_comparison(op),
{
    op == BinOp::Lt || op == BinOp::Le || op == BinOp::Gt || op == BinOp::Ge || op == BinOp::Eq
        || op == BinOp::Ne
}

pub open spec fn is_arith(op: BinOp) -> bool {
    op == BinOp::Add || op == BinOp::Sub || op == BinOp::Mul || op == BinOp::Div || op == BinOp::Mod
}

pub fn arith(op: BinOp) -> (r: bool)
    ensures
        r == is_arith(op),
{
    op == BinOp::Add || op == BinOp::Sub || op == BinOp::Mul || op == BinOp::Div || op == BinOp::Mod
}

/// Whether an expression always gives a boolean.
pub open spec fn gives_bool(e: ExprView) -> bool {
    match e {
        ExprView::Bool(_) => true,
        ExprView::Binary { op, .. } => is_comparison(op),
        ExprView::Unary { op, .. } => op == UnOp::Not,
        _ => false,
    }
}

pub fn expr_is_bool(e: &Expr) -> (r: bool)
    ensures
        r == gives_bool(e@),
{
    match e {
        Expr::Bool(_) => true,
        Expr::Binary { op, .. } => compares(*op),
        Expr::Unary { op, .. } => *op == UnOp::Not,
        _ => false,
    }
}

} // verus!
