//! Lambda lifting: every lambda becomes a function of its own, whose first parameters
//! are the variables that it captures.
//!
//! A variable that is both captured and assigned lives in a cell, a list of one
//! element, so that the lambda and its surroundings share it. All others are captured
//! by value.

use crate::ast::{
    elifs_view, exprs_view, fns_view, named_view, opt_view, optblock_view, optbox_view, pairs_view,
    params_view, parts_view, prog_view, stmts_view, strs_view, tail_kept, Expr, ExprView, FStrPart,
    FStrPartView, FnDef, FnDefView, Item, ItemView, Param, ParamView, Stmt, StmtView,
    StructDefView, Type, TypeView,
};
use crate::names::NameSet;
use crate::text::{concat, dec_nat, push_u64, str_eq};
use vstd::prelude::*;

verus! {

pub open spec fn note_free(
    n: Seq<char>,
    bound: Set<Seq<char>>,
    out: Seq<Seq<char>>,
) -> Seq<Seq<char>> {
    if bound.contains(n) || out.contains(n) {
        out
    } else {
        out.push(n)
    }
}

/// The variables of an expression that are not bound, behind those found before, each
/// once and in the order in which they come up.
pub open spec fn free_expr(
    e: ExprView,
    bound: Set<Seq<char>>,
    out: Seq<Seq<char>>,
) -> Seq<Seq<char>>
    decreases e,
{
    match e {
        ExprView::Ident(n) => note_free(n, bound, out),
        ExprView::Unary { expr, .. } => free_expr(*expr, bound, out),
        ExprView::Binary { lhs, rhs, .. } => free_expr(*rhs, bound, free_expr(*lhs, bound, out)),
        ExprView::Call { callee, args } => free_exprs(args, bound, free_expr(*callee, bound, out)),
        ExprView::NamedCall { callee, args } => free_named(
            args,
            bound,
            free_expr(*callee, bound, out),
        ),
        ExprView::Method { obj, args, .. } => free_exprs(args, bound, free_expr(*obj, bound, out)),
        ExprView::Field { obj, .. } => free_expr(*obj, bound, out),
        ExprView::Index { obj, index } => free_expr(*index, bound, free_expr(*obj, bound, out)),
        ExprView::List(p) => free_exprs(p, bound, out),
        ExprView::MapLit(p) => free_pairs(p, bound, out),
        ExprView::Range { lo, hi } => free_expr(*hi, bound, free_expr(*lo, bound, out)),
        ExprView::IfElse { cond, then, els } => free_expr(
            *els,
            bound,
            free_expr(*then, bound, free_expr(*cond, bound, out)),
        ),
        ExprView::ListComp { elem, var, iter, cond } => {
            let inner = bound.insert(var);
            free_optbox(cond, inner, free_expr(*elem, inner, free_expr(*iter, bound, out)))
        },
        ExprView::Slice { obj, lo, hi } => free_optbox(
            hi,
            bound,
            free_optbox(lo, bound, free_expr(*obj, bound, out)),
        ),
        ExprView::FStr(p) => free_parts(p, bound, out),
        ExprView::Lambda { params, body } => free_stmts(body, bound.union(params.to_set()), out).1,
        ExprView::Closure { captures, .. } => free_exprs(captures, bound, out),
        _ => out,
    }
}

pub open spec fn free_optbox(
    o: Option<Box<ExprView>>,
    bound: Set<Seq<char>>,
    out: Seq<Seq<char>>,
) -> Seq<Seq<char>>
    decreases o,
{
    match o {
        Some(e) => free_expr(*e, bound, out),
        None => out,
    }
}

pub open spec fn free_exprs(
    s: Seq<ExprView>,
    bound: Set<Seq<char>>,
    out: Seq<Seq<char>>,
) -> Seq<Seq<char>>
    decreases s,
{
    if s.len() == 0 {
        out
    } else {
        free_expr(s.last(), bound, free_exprs(s.drop_last(), bound, out))
    }
}

pub open spec fn free_named(
    s: Seq<(Seq<char>, ExprView)>,
    bound: Set<Seq<char>>,
    out: Seq<Seq<char>>,
) -> Seq<Seq<char>>
    decreases s,
{
    if s.len() == 0 {
        out
    } else {
        free_expr(s.last().1, bound, free_named(s.drop_last(), bound, out))
    }
}

pub open spec fn free_pairs(
    s: Seq<(ExprView, ExprView)>,
    bound: Set<Seq<char>>,
    out: Seq<Seq<char>>,
) -> Seq<Seq<char>>
    decreases s,
{
    if s.len() == 0 {
        out
    } else {
        free_expr(
            s.last().1,
            bound,
            free_expr(s.last().0, bound, free_pairs(s.drop_last(), bound, out)),
        )
    }
}

pub open spec fn free_parts(
    s: Seq<FStrPartView>,
    bound: Set<Seq<char>>,
    out: Seq<Seq<char>>,
) -> Seq<Seq<char>>
    decreases s,
{
    if s.len() == 0 {
        out
    } else {
        match s.last() {
            FStrPartView::Expr(e) => free_expr(e, bound, free_parts(s.drop_last(), bound, out)),
            _ => free_parts(s.drop_last(), bound, out),
        }
    }
}

/// The free variables of statements that share a scope: a `let` binds its name for
/// those that follow. The result holds the names bound then and the variables found.
pub open spec fn free_stmts(s: Seq<StmtView>, bound: Set<Seq<char>>, out: Seq<Seq<char>>) -> (
    Set<Seq<char>>,
    Seq<Seq<char>>,
)
    decreases s,
{
    if s.len() == 0 {
        (bound, out)
    } else {
        let (b, o) = free_stmts(s.drop_last(), bound, out);
        free_stmt(s.last(), b, o)
    }
}

pub open spec fn free_elifs(
    s: Seq<(ExprView, Seq<StmtView>)>,
    bound: Set<Seq<char>>,
    out: Seq<Seq<char>>,
) -> Seq<Seq<char>>
    decreases s,
{
    if s.len() == 0 {
        out
    } else {
        let o = free_elifs(s.drop_last(), bound, out);
        free_stmts(s.last().1, bound, free_expr(s.last().0, bound, o)).1
    }
}

pub open spec fn free_stmt(s: StmtView, bound: Set<Seq<char>>, out: Seq<Seq<char>>) -> (
    Set<Seq<char>>,
    Seq<Seq<char>>,
)
    decreases s,
{
    match s {
        StmtView::Let { name, value, .. } => (
            bound.insert(name),
            free_expr(value, bound, out),
        ),
        StmtView::Assign { target, value } => (
            bound,
            free_expr(value, bound, free_expr(target, bound, out)),
        ),
        StmtView::ExprStmt(e) => (bound, free_expr(e, bound, out)),
        StmtView::Return(Some(e)) => (bound, free_expr(e, bound, out)),
        StmtView::If { cond, then, elifs, els } => {
            let o1 = free_stmts(then, bound, free_expr(cond, bound, out)).1;
            let o2 = free_elifs(elifs, bound, o1);
            (
                bound,
                match els {
                    Some(b) => free_stmts(b, bound, o2).1,
                    None => o2,
                },
            )
        },
        StmtView::While { cond, body } => (
            bound,
            free_stmts(body, bound, free_expr(cond, bound, out)).1,
        ),
        StmtView::For { var, iter, body } => (
            bound,
            free_stmts(body, bound.insert(var), free_expr(iter, bound, out)).1,
        ),
        StmtView::Try { body, catch_var, catch_body } => (
            bound,
            free_stmts(catch_body, bound.insert(catch_var), free_stmts(body, bound, out).1).1,
        ),
        StmtView::Raise(e) => (bound, free_expr(e, bound, out)),
        _ => (bound, out),
    }
}

/// The variables that a lambda takes from its surroundings; functions are not among
/// them.
pub open spec fn lambda_captures(
    params: Seq<Seq<char>>,
    body: Seq<StmtView>,
    g: Set<Seq<char>>,
) -> Seq<Seq<char>> {
    free_stmts(body, params.to_set().union(g), Seq::empty()).1
}

fn note_var(n: &String, bound: &NameSet, out: &mut Vec<String>)
    ensures
        strs_view(final(out)@) == note_free(n@, bound@, strs_view(old(out)@)),
{
    let ghost o0 = out@;
    if !bound.contains(n.as_str()) && !list_has(out, n.as_str()) {
        out.push(n.clone());
        assert(strs_view(out@) =~= strs_view(o0).push(n@));
    }
}

fn list_has(v: &Vec<String>, n: &str) -> (r: bool)
    ensures
        r == strs_view(v@).contains(n@),
{
    let ghost s0 = strs_view(v@);
    for i in 0..v.len()
        invariant
            s0 == strs_view(v@),
            forall|k: int| 0 <= k < i ==> #[trigger] s0[k] != n@,
    {
        assert(s0[i as int] == v@[i as int]@);
        if str_eq(v[i].as_str(), n) {
            assert(s0.contains(n@));
            return true;
        }
    }
    false
}

fn free_vars_expr(e: &Expr, bound: &NameSet, out: &mut Vec<String>)
    ensures
        strs_view(final(out)@) == free_expr(e@, bound@, strs_view(old(out)@)),
    decreases e,
{
    match e {
        Expr::Ident(n) => {
            note_var(n, bound, out);
        },
        Expr::Unary { expr, .. } => {
            free_vars_expr(expr, bound, out);
        },
        Expr::Binary { lhs, rhs, .. } => {
            free_vars_expr(lhs, bound, out);
            free_vars_expr(rhs, bound, out);
        },
        Expr::Call { callee, args } => {
            free_vars_expr(callee, bound, out);
            free_vars_exprs(args, bound, out);
        },
        Expr::NamedCall { callee, args } => {
            free_vars_expr(callee, bound, out);
            free_vars_named(args, bound, out);
        },
        Expr::Method { obj, args, .. } => {
            free_vars_expr(obj, bound, out);
            free_vars_exprs(args, bound, out);
        },
        Expr::Field { obj, .. } => {
            free_vars_expr(obj, bound, out);
        },
        Expr::Index { obj, index } => {
            free_vars_expr(obj, bound, out);
            free_vars_expr(index, bound, out);
        },
        Expr::List(p) => {
            free_vars_exprs(p, bound, out);
        },
        Expr::MapLit(p) => {
            free_vars_pairs(p, bound, out);
        },
        Expr::Range { lo, hi } => {
            free_vars_expr(lo, bound, out);
            free_vars_expr(hi, bound, out);
        },
        Expr::IfElse { cond, then, els } => {
            free_vars_expr(cond, bound, out);
            free_vars_expr(then, bound, out);
            free_vars_expr(els, bound, out);
        },
        Expr::ListComp { elem, var, iter, cond } => {
            free_vars_expr(iter, bound, out);
            let mut inner = bound.copy();
            inner.insert(var.as_str());
            free_vars_expr(elem, &inner, out);
            free_vars_optbox(cond, &inner, out);
        },
        Expr::Slice { obj, lo, hi } => {
            free_vars_expr(obj, bound, out);
            free_vars_optbox(lo, bound, out);
            free_vars_optbox(hi, bound, out);
        },
        Expr::FStr(p) => {
            free_vars_parts(p, bound, out);
        },
        Expr::Lambda { params, body } => {
            let mut inner = bound.copy();
            inner.add_all(params);
            fv_stmts(body, &mut inner, out);
        },
        Expr::Closure { captures, .. } => {
            free_vars_exprs(captures, bound, out);
        },
        _ => {},
    }
}

fn free_vars_optbox(o: &Option<Box<Expr>>, bound: &NameSet, out: &mut Vec<String>)
    ensures
        strs_view(final(out)@) == free_optbox(optbox_view(*o), bound@, strs_view(old(out)@)),
    decreases o,
{
    match o {
        Some(p) => free_vars_expr(p, bound, out),
        None => {},
    }
}

fn free_vars_exprs(v: &Vec<Expr>, bound: &NameSet, out: &mut Vec<String>)
    ensures
        strs_view(final(out)@) == free_exprs(exprs_view(v@), bound@, strs_view(old(out)@)),
    decreases v,
{
    let ghost s0 = exprs_view(v@);
    let ghost o0 = strs_view(out@);
    assert(s0.take(0) =~= Seq::empty());
    for i in 0..v.len()
        invariant
            s0 == exprs_view(v@),
            strs_view(out@) == free_exprs(s0.take(i as int), bound@, o0),
    {
        assert(s0.take(i + 1).drop_last() =~= s0.take(i as int));
        assert(s0.take(i + 1).last() == v@[i as int]@);
        free_vars_expr(&v[i], bound, out);
    }
    assert(s0.take(s0.len() as int) =~= s0);
}

fn free_vars_named(v: &Vec<(String, Expr)>, bound: &NameSet, out: &mut Vec<String>)
    ensures
        strs_view(final(out)@) == free_named(named_view(v@), bound@, strs_view(old(out)@)),
    decreases v,
{
    let ghost s0 = named_view(v@);
    let ghost o0 = strs_view(out@);
    assert(s0.take(0) =~= Seq::empty());
    for i in 0..v.len()
        invariant
            s0 == named_view(v@),
            strs_view(out@) == free_named(s0.take(i as int), bound@, o0),
    {
        assert(s0.take(i + 1).drop_last() =~= s0.take(i as int));
        assert(s0.take(i + 1).last() == (v@[i as int].0@, v@[i as int].1@));
        free_vars_expr(&v[i].1, bound, out);
    }
    assert(s0.take(s0.len() as int) =~= s0);
}

fn free_vars_pairs(v: &Vec<(Expr, Expr)>, bound: &NameSet, out: &mut Vec<String>)
    ensures
        strs_view(final(out)@) == free_pairs(pairs_view(v@), bound@, strs_view(old(out)@)),
    decreases v,
{
    let ghost s0 = pairs_view(v@);
    let ghost o0 = strs_view(out@);
    assert(s0.take(0) =~= Seq::empty());
    for i in 0..v.len()
        invariant
            s0 == pairs_view(v@),
            strs_view(out@) == free_pairs(s0.take(i as int), bound@, o0),
    {
        assert(s0.take(i + 1).drop_last() =~= s0.take(i as int));
        assert(s0.take(i + 1).last() == (v@[i as int].0@, v@[i as int].1@));
        free_vars_expr(&v[i].0, bound, out);
        free_vars_expr(&v[i].1, bound, out);
    }
    assert(s0.take(s0.len() as int) =~= s0);
}

fn free_vars_parts(v: &Vec<FStrPart>, bound: &NameSet, out: &mut Vec<String>)
    ensures
        strs_view(final(out)@) == free_parts(parts_view(v@), bound@, strs_view(old(out)@)),
    decreases v,
{
    let ghost s0 = parts_view(v@);
    let ghost o0 = strs_view(out@);
    assert(s0.take(0) =~= Seq::empty());
    for i in 0..v.len()
        invariant
            s0 == parts_view(v@),
            strs_view(out@) == free_parts(s0.take(i as int), bound@, o0),
    {
        assert(s0.take(i + 1).drop_last() =~= s0.take(i as int));
        assert(s0.take(i + 1).last() == v@[i as int]@);
        match &v[i] {
            FStrPart::Expr(e) => free_vars_expr(e, bound, out),
            _ => {},
        }
    }
    assert(s0.take(s0.len() as int) =~= s0);
}

fn fv_stmts(v: &Vec<Stmt>, bound: &mut NameSet, out: &mut Vec<String>)
    ensures
        (final(bound)@, strs_view(final(out)@)) == free_stmts(
            stmts_view(v@),
            old(bound)@,
            strs_view(old(out)@),
        ),
    decreases v,
{
    let ghost s0 = stmts_view(v@);
    let ghost b0 = bound@;
    let ghost o0 = strs_view(out@);
    assert(s0.take(0) =~= Seq::empty());
    for i in 0..v.len()
        invariant
            s0 == stmts_view(v@),
            (bound@, strs_view(out@)) == free_stmts(s0.take(i as int), b0, o0),
    {
        assert(s0.take(i + 1).drop_last() =~= s0.take(i as int));
        assert(s0.take(i + 1).last() == v@[i as int]@);
        fv_stmt(&v[i], bound, out);
    }
    assert(s0.take(s0.len() as int) =~= s0);
}

fn fv_elifs(v: &Vec<(Expr, Vec<Stmt>)>, bound: &NameSet, out: &mut Vec<String>)
    ensures
        strs_view(final(out)@) == free_elifs(elifs_view(v@), bound@, strs_view(old(out)@)),
    decreases v,
{
    let ghost s0 = elifs_view(v@);
    let ghost o0 = strs_view(out@);
    assert(s0.take(0) =~= Seq::empty());
    for i in 0..v.len()
        invariant
            s0 == elifs_view(v@),
            strs_view(out@) == free_elifs(s0.take(i as int), bound@, o0),
    {
        assert(s0.take(i + 1).drop_last() =~= s0.take(i as int));
        assert(s0.take(i + 1).last() == (v@[i as int].0@, stmts_view(v@[i as int].1@)));
        free_vars_expr(&v[i].0, bound, out);
        let mut inner = bound.copy();
        fv_stmts(&v[i].1, &mut inner, out);
    }
    assert(s0.take(s0.len() as int) =~= s0);
}

fn fv_stmt(s: &Stmt, bound: &mut NameSet, out: &mut Vec<String>)
    ensures
        (final(bound)@, strs_view(final(out)@)) == free_stmt(
            s@,
            old(bound)@,
            strs_view(old(out)@),
        ),
    decreases s,
{
    match s {
        Stmt::Let { name, value, .. } => {
            free_vars_expr(value, bound, out);
            bound.insert(name.as_str());
        },
        Stmt::Assign { target, value } => {
            free_vars_expr(target, bound, out);
            free_vars_expr(value, bound, out);
        },
        Stmt::ExprStmt(e) => free_vars_expr(e, bound, out),
        Stmt::Return(o) => {
            assert(opt_view(*o) is Some == o is Some);
            if let Some(e) = o {
                free_vars_expr(e, bound, out);
            }
        },
        Stmt::If { cond, then, elifs, els } => {
            free_vars_expr(cond, bound, out);
            let mut inner = bound.copy();
            fv_stmts(then, &mut inner, out);
            fv_elifs(elifs, bound, out);
            assert(optblock_view(*els) is Some == els is Some);
            if let Some(b) = els {
                let mut inner = bound.copy();
                fv_stmts(b, &mut inner, out);
            }
        },
        Stmt::While { cond, body } => {
            free_vars_expr(cond, bound, out);
            let mut inner = bound.copy();
            fv_stmts(body, &mut inner, out);
        },
        Stmt::For { var, iter, body } => {
            free_vars_expr(iter, bound, out);
            let mut inner = bound.copy();
            inner.insert(var.as_str());
            fv_stmts(body, &mut inner, out);
        },
        Stmt::Try { body, catch_var, catch_body } => {
            let mut inner = bound.copy();
            fv_stmts(body, &mut inner, out);
            let mut inner = bound.copy();
            inner.insert(catch_var.as_str());
            fv_stmts(catch_body, &mut inner, out);
        },
        Stmt::Raise(e) => free_vars_expr(e, bound, out),
        _ => {},
    }
}

fn captures_of(params: &Vec<String>, body: &Vec<Stmt>, g: &NameSet) -> (r: Vec<String>)
    ensures
        strs_view(r@) == lambda_captures(strs_view(params@), stmts_view(body@), g@),
{
    let mut bound = NameSet::new();
    bound.add_all(params);
    bound.union_with(g);
    assert(bound@ =~= strs_view(params@).to_set().union(g@));
    let mut out: Vec<String> = Vec::new();
    assert(strs_view(out@) =~= Seq::empty());
    fv_stmts(body, &mut bound, &mut out);
    out
}

/// The variables that the lambdas of an expression capture, with those found before.
pub open spec fn capt_expr(e: ExprView, g: Set<Seq<char>>, out: Set<Seq<char>>) -> Set<Seq<char>>
    decreases e,
{
    match e {
        ExprView::Lambda { params, body } => capt_block(
            body,
            g,
            out.union(lambda_captures(params, body, g).to_set()),
        ),
        ExprView::Unary { expr, .. } => capt_expr(*expr, g, out),
        ExprView::Binary { lhs, rhs, .. } => capt_expr(*rhs, g, capt_expr(*lhs, g, out)),
        ExprView::Call { callee, args } => capt_exprs(args, g, capt_expr(*callee, g, out)),
        ExprView::NamedCall { callee, args } => capt_named(args, g, capt_expr(*callee, g, out)),
        ExprView::Method { obj, args, .. } => capt_exprs(args, g, capt_expr(*obj, g, out)),
        ExprView::Field { obj, .. } => capt_expr(*obj, g, out),
        ExprView::Index { obj, index } => capt_expr(*index, g, capt_expr(*obj, g, out)),
        ExprView::List(p) => capt_exprs(p, g, out),
        ExprView::MapLit(p) => capt_pairs(p, g, out),
        ExprView::Range { lo, hi } => capt_expr(*hi, g, capt_expr(*lo, g, out)),
        ExprView::Slice { obj, lo, hi } => capt_optbox(
            hi,
            g,
            capt_optbox(lo, g, capt_expr(*obj, g, out)),
        ),
        ExprView::IfElse { cond, then, els } => capt_expr(
            *els,
            g,
            capt_expr(*then, g, capt_expr(*cond, g, out)),
        ),
        ExprView::ListComp { elem, iter, cond, .. } => capt_optbox(
            cond,
            g,
            capt_expr(*elem, g, capt_expr(*iter, g, out)),
        ),
        ExprView::FStr(p) => capt_parts(p, g, out),
        ExprView::Closure { captures, .. } => capt_exprs(captures, g, out),
        _ => out,
    }
}

pub open spec fn capt_optbox(
    o: Option<Box<ExprView>>,
    g: Set<Seq<char>>,
    out: Set<Seq<char>>,
) -> Set<Seq<char>>
    decreases o,
{
    match o {
        Some(e) => capt_expr(*e, g, out),
        None => out,
    }
}

pub open spec fn capt_exprs(
    s: Seq<ExprView>,
    g: Set<Seq<char>>,
    out: Set<Seq<char>>,
) -> Set<Seq<char>>
    decreases s,
{
    if s.len() == 0 {
        out
    } else {
        capt_expr(s.last(), g, capt_exprs(s.drop_last(), g, out))
    }
}

pub open spec fn capt_named(
    s: Seq<(Seq<char>, ExprView)>,
    g: Set<Seq<char>>,
    out: Set<Seq<char>>,
) -> Set<Seq<char>>
    decreases s,
{
    if s.len() == 0 {
        out
    } else {
        capt_expr(s.last().1, g, capt_named(s.drop_last(), g, out))
    }
}

pub open spec fn capt_pairs(
    s: Seq<(ExprView, ExprView)>,
    g: Set<Seq<char>>,
    out: Set<Seq<char>>,
) -> Set<Seq<char>>
    decreases s,
{
    if s.len() == 0 {
        out
    } else {
        capt_expr(s.last().1, g, capt_expr(s.last().0, g, capt_pairs(s.drop_last(), g, out)))
    }
}

pub open spec fn capt_parts(
    s: Seq<FStrPartView>,
    g: Set<Seq<char>>,
    out: Set<Seq<char>>,
) -> Set<Seq<char>>
    decreases s,
{
    if s.len() == 0 {
        out
    } else {
        match s.last() {
            FStrPartView::Expr(e) => capt_expr(e, g, capt_parts(s.drop_last(), g, out)),
            _ => capt_parts(s.drop_last(), g, out),
        }
    }
}

pub open spec fn capt_opt(
    o: Option<ExprView>,
    g: Set<Seq<char>>,
    out: Set<Seq<char>>,
) -> Set<Seq<char>>
    decreases o,
{
    match o {
        Some(e) => capt_expr(e, g, out),
        None => out,
    }
}

pub open spec fn capt_stmt(s: StmtView, g: Set<Seq<char>>, out: Set<Seq<char>>) -> Set<Seq<char>>
    decreases s,
{
    match s {
        StmtView::Let { value, .. } => capt_expr(value, g, out),
        StmtView::Assign { target, value } => capt_expr(value, g, capt_expr(target, g, out)),
        StmtView::ExprStmt(p) => capt_expr(p, g, out),
        StmtView::Return(p) => capt_opt(p, g, out),
        StmtView::If { cond, then, elifs, els } => capt_optblock(
            els,
            g,
            capt_elifs(elifs, g, capt_block(then, g, capt_expr(cond, g, out))),
        ),
        StmtView::While { cond, body } => capt_block(body, g, capt_expr(cond, g, out)),
        StmtView::For { iter, body, .. } => capt_block(body, g, capt_expr(iter, g, out)),
        StmtView::Try { body, catch_body, .. } => capt_block(
            catch_body,
            g,
            capt_block(body, g, out),
        ),
        StmtView::Raise(p) => capt_expr(p, g, out),
        _ => out,
    }
}

pub open spec fn capt_block(
    s: Seq<StmtView>,
    g: Set<Seq<char>>,
    out: Set<Seq<char>>,
) -> Set<Seq<char>>
    decreases s,
{
    if s.len() == 0 {
        out
    } else {
        capt_stmt(s.last(), g, capt_block(s.drop_last(), g, out))
    }
}

pub open spec fn capt_elifs(
    s: Seq<(ExprView, Seq<StmtView>)>,
    g: Set<Seq<char>>,
    out: Set<Seq<char>>,
) -> Set<Seq<char>>
    decreases s,
{
    if s.len() == 0 {
        out
    } else {
        capt_block(s.last().1, g, capt_expr(s.last().0, g, capt_elifs(s.drop_last(), g, out)))
    }
}

pub open spec fn capt_optblock(
    o: Option<Seq<StmtView>>,
    g: Set<Seq<char>>,
    out: Set<Seq<char>>,
) -> Set<Seq<char>>
    decreases o,
{
    match o {
        Some(b) => capt_block(b, g, out),
        None => out,
    }
}

pub open spec fn asg_expr(e: ExprView, out: Set<Seq<char>>) -> Set<Seq<char>>
    decreases e,
{
    match e {
        ExprView::Lambda { body, .. } => asg_block(body, out),
        ExprView::Unary { expr, .. } => asg_expr(*expr, out),
        ExprView::Binary { lhs, rhs, .. } => asg_expr(*rhs, asg_expr(*lhs, out)),
        ExprView::Call { callee, args } => asg_exprs(args, asg_expr(*callee, out)),
        ExprView::NamedCall { callee, args } => asg_named(args, asg_expr(*callee, out)),
        ExprView::Method { obj, args, .. } => asg_exprs(args, asg_expr(*obj, out)),
        ExprView::Field { obj, .. } => asg_expr(*obj, out),
        ExprView::Index { obj, index } => asg_expr(*index, asg_expr(*obj, out)),
        ExprView::List(p) => asg_exprs(p, out),
        ExprView::MapLit(p) => asg_pairs(p, out),
        ExprView::Range { lo, hi } => asg_expr(*hi, asg_expr(*lo, out)),
        ExprView::Slice { obj, lo, hi } => asg_optbox(hi, asg_optbox(lo, asg_expr(*obj, out))),
        ExprView::IfElse { cond, then, els } => asg_expr(
            *els,
            asg_expr(*then, asg_expr(*cond, out)),
        ),
        ExprView::ListComp { elem, iter, cond, .. } => asg_optbox(
            cond,
            asg_expr(*elem, asg_expr(*iter, out)),
        ),
        ExprView::FStr(p) => asg_parts(p, out),
        _ => out,
    }
}

pub open spec fn asg_optbox(o: Option<Box<ExprView>>, out: Set<Seq<char>>) -> Set<Seq<char>>
    decreases o,
{
    match o {
        Some(e) => asg_expr(*e, out),
        None => out,
    }
}

pub open spec fn asg_exprs(s: Seq<ExprView>, out: Set<Seq<char>>) -> Set<Seq<char>>
    decreases s,
{
    if s.len() == 0 {
        out
    } else {
        asg_expr(s.last(), asg_exprs(s.drop_last(), out))
    }
}

pub open spec fn asg_named(s: Seq<(Seq<char>, ExprView)>, out: Set<Seq<char>>) -> Set<Seq<char>>
    decreases s,
{
    if s.len() == 0 {
        out
    } else {
        asg_expr(s.last().1, asg_named(s.drop_last(), out))
    }
}

pub open spec fn asg_pairs(s: Seq<(ExprView, ExprView)>, out: Set<Seq<char>>) -> Set<Seq<char>>
    decreases s,
{
    if s.len() == 0 {
        out
    } else {
        asg_expr(s.last().1, asg_expr(s.last().0, asg_pairs(s.drop_last(), out)))
    }
}

pub open spec fn asg_parts(s: Seq<FStrPartView>, out: Set<Seq<char>>) -> Set<Seq<char>>
    decreases s,
{
    if s.len() == 0 {
        out
    } else {
        match s.last() {
            FStrPartView::Expr(e) => asg_expr(e, asg_parts(s.drop_last(), out)),
            _ => asg_parts(s.drop_last(), out),
        }
    }
}

pub open spec fn asg_opt(o: Option<ExprView>, out: Set<Seq<char>>) -> Set<Seq<char>>
    decreases o,
{
    match o {
        Some(e) => asg_expr(e, out),
        None => out,
    }
}

/// The variables that a statement assigns, with those found before.
pub open spec fn asg_stmt(s: StmtView, out: Set<Seq<char>>) -> Set<Seq<char>>
    decreases s,
{
    match s {
        StmtView::Let { value, .. } => asg_expr(value, out),
        StmtView::Assign { target, value } => asg_expr(value, asg_expr(target, match target {
            ExprView::Ident(n) => out.insert(n),
            _ => out,
        })),
        StmtView::ExprStmt(p) => asg_expr(p, out),
        StmtView::Return(p) => asg_opt(p, out),
        StmtView::If { cond, then, elifs, els } => asg_optblock(
            els,
            asg_elifs(elifs, asg_block(then, asg_expr(cond, out))),
        ),
        StmtView::While { cond, body } => asg_block(body, asg_expr(cond, out)),
        StmtView::For { iter, body, .. } => asg_block(body, asg_expr(iter, out)),
        StmtView::Try { body, catch_body, .. } => asg_block(catch_body, asg_block(body, out)),
        StmtView::Raise(p) => asg_expr(p, out),
        _ => out,
    }
}

pub open spec fn asg_block(s: Seq<StmtView>, out: Set<Seq<char>>) -> Set<Seq<char>>
    decreases s,
{
    if s.len() == 0 {
        out
    } else {
        asg_stmt(s.last(), asg_block(s.drop_last(), out))
    }
}

pub open spec fn asg_elifs(s: Seq<(ExprView, Seq<StmtView>)>, out: Set<Seq<char>>) -> Set<Seq<char>>
    decreases s,
{
    if s.len() == 0 {
        out
    } else {
        asg_block(s.last().1, asg_expr(s.last().0, asg_elifs(s.drop_last(), out)))
    }
}

pub open spec fn asg_optblock(o: Option<Seq<StmtView>>, out: Set<Seq<char>>) -> Set<Seq<char>>
    decreases o,
{
    match o {
        Some(b) => asg_block(b, out),
        None => out,
    }
}

fn captured_expr(e: &Expr, g: &NameSet, out: &mut NameSet)
    ensures
        final(out)@ == capt_expr(e@, g@, old(out)@),
    decreases e,
{
    match e {
        Expr::Lambda { params, body } => {
            let fv = captures_of(params, body, g);
            out.add_all(&fv);
            captured_block(body, g, out);
        },
        Expr::Unary { expr, .. } => {
            captured_expr(expr, g, out);
        },
        Expr::Binary { lhs, rhs, .. } => {
            captured_expr(lhs, g, out);
            captured_expr(rhs, g, out);
        },
        Expr::Call { callee, args } => {
            captured_expr(callee, g, out);
            captured_exprs(args, g, out);
        },
        Expr::NamedCall { callee, args } => {
            captured_expr(callee, g, out);
            captured_named(args, g, out);
        },
        Expr::Method { obj, args, .. } => {
            captured_expr(obj, g, out);
            captured_exprs(args, g, out);
        },
        Expr::Field { obj, .. } => {
            captured_expr(obj, g, out);
        },
        Expr::Index { obj, index } => {
            captured_expr(obj, g, out);
            captured_expr(index, g, out);
        },
        Expr::List(p) => {
            captured_exprs(p, g, out);
        },
        Expr::MapLit(p) => {
            captured_pairs(p, g, out);
        },
        Expr::Range { lo, hi } => {
            captured_expr(lo, g, out);
            captured_expr(hi, g, out);
        },
        Expr::Slice { obj, lo, hi } => {
            captured_expr(obj, g, out);
            captured_optbox(lo, g, out);
            captured_optbox(hi, g, out);
        },
        Expr::IfElse { cond, then, els } => {
            captured_expr(cond, g, out);
            captured_expr(then, g, out);
            captured_expr(els, g, out);
        },
        Expr::ListComp { elem, iter, cond, .. } => {
            captured_expr(iter, g, out);
            captured_expr(elem, g, out);
            captured_optbox(cond, g, out);
        },
        Expr::FStr(p) => {
            captured_parts(p, g, out);
        },
        Expr::Closure { captures, .. } => {
            captured_exprs(captures, g, out);
        },
        _ => {},
    }
}

fn captured_optbox(o: &Option<Box<Expr>>, g: &NameSet, out: &mut NameSet)
    ensures
        final(out)@ == capt_optbox(optbox_view(*o), g@, old(out)@),
    decreases o,
{
    match o {
        Some(e) => captured_expr(e, g, out),
        None => {},
    }
}

fn captured_exprs(v: &Vec<Expr>, g: &NameSet, out: &mut NameSet)
    ensures
        final(out)@ == capt_exprs(exprs_view(v@), g@, old(out)@),
    decreases v,
{
    let ghost s0 = exprs_view(v@);
    let ghost o0 = out@;
    assert(s0.take(0) =~= Seq::empty());
    for i in 0..v.len()
        invariant
            s0 == exprs_view(v@),
            out@ == capt_exprs(s0.take(i as int), g@, o0),
    {
        assert(s0.take(i + 1).drop_last() =~= s0.take(i as int));
        assert(s0.take(i + 1).last() == v@[i as int]@);
        captured_expr(&v[i], g, out);
    }
    assert(s0.take(s0.len() as int) =~= s0);
}

fn captured_named(v: &Vec<(String, Expr)>, g: &NameSet, out: &mut NameSet)
    ensures
        final(out)@ == capt_named(named_view(v@), g@, old(out)@),
    decreases v,
{
    let ghost s0 = named_view(v@);
    let ghost o0 = out@;
    assert(s0.take(0) =~= Seq::empty());
    for i in 0..v.len()
        invariant
            s0 == named_view(v@),
            out@ == capt_named(s0.take(i as int), g@, o0),
    {
        assert(s0.take(i + 1).drop_last() =~= s0.take(i as int));
        assert(s0.take(i + 1).last() == (v@[i as int].0@, v@[i as int].1@));
        captured_expr(&v[i].1, g, out);
    }
    assert(s0.take(s0.len() as int) =~= s0);
}

fn captured_pairs(v: &Vec<(Expr, Expr)>, g: &NameSet, out: &mut NameSet)
    ensures
        final(out)@ == capt_pairs(pairs_view(v@), g@, old(out)@),
    decreases v,
{
    let ghost s0 = pairs_view(v@);
    let ghost o0 = out@;
    assert(s0.take(0) =~= Seq::empty());
    for i in 0..v.len()
        invariant
            s0 == pairs_view(v@),
            out@ == capt_pairs(s0.take(i as int), g@, o0),
    {
        assert(s0.take(i + 1).drop_last() =~= s0.take(i as int));
        assert(s0.take(i + 1).last() == (v@[i as int].0@, v@[i as int].1@));
        captured_expr(&v[i].0, g, out);
        captured_expr(&v[i].1, g, out);
    }
    assert(s0.take(s0.len() as int) =~= s0);
}

fn captured_parts(v: &Vec<FStrPart>, g: &NameSet, out: &mut NameSet)
    ensures
        final(out)@ == capt_parts(parts_view(v@), g@, old(out)@),
    decreases v,
{
    let ghost s0 = parts_view(v@);
    let ghost o0 = out@;
    assert(s0.take(0) =~= Seq::empty());
    for i in 0..v.len()
        invariant
            s0 == parts_view(v@),
            out@ == capt_parts(s0.take(i as int), g@, o0),
    {
        assert(s0.take(i + 1).drop_last() =~= s0.take(i as int));
        assert(s0.take(i + 1).last() == v@[i as int]@);
        match &v[i] {
            FStrPart::Expr(e) => captured_expr(e, g, out),
            _ => {},
        }
    }
    assert(s0.take(s0.len() as int) =~= s0);
}

fn captured_opt(o: &Option<Expr>, g: &NameSet, out: &mut NameSet)
    ensures
        final(out)@ == capt_opt(opt_view(*o), g@, old(out)@),
    decreases o,
{
    match o {
        Some(p) => captured_expr(p, g, out),
        None => {},
    }
}

fn captured_stmt(s: &Stmt, g: &NameSet, out: &mut NameSet)
    ensures
        final(out)@ == capt_stmt(s@, g@, old(out)@),
    decreases s,
{
    match s {
        Stmt::Let { value, .. } => {
            captured_expr(value, g, out);
        },
        Stmt::Assign { target, value } => {
            captured_expr(target, g, out);
            captured_expr(value, g, out);
        },
        Stmt::ExprStmt(p) => {
            captured_expr(p, g, out);
        },
        Stmt::Return(p) => {
            captured_opt(p, g, out);
        },
        Stmt::If { cond, then, elifs, els } => {
            captured_expr(cond, g, out);
            captured_block(then, g, out);
            captured_elifs(elifs, g, out);
            captured_optblock(els, g, out);
        },
        Stmt::While { cond, body } => {
            captured_expr(cond, g, out);
            captured_block(body, g, out);
        },
        Stmt::For { iter, body, .. } => {
            captured_expr(iter, g, out);
            captured_block(body, g, out);
        },
        Stmt::Try { body, catch_body, .. } => {
            captured_block(body, g, out);
            captured_block(catch_body, g, out);
        },
        Stmt::Raise(p) => {
            captured_expr(p, g, out);
        },
        _ => {},
    }
}

fn captured_block(v: &Vec<Stmt>, g: &NameSet, out: &mut NameSet)
    ensures
        final(out)@ == capt_block(stmts_view(v@), g@, old(out)@),
    decreases v,
{
    let ghost s0 = stmts_view(v@);
    let ghost o0 = out@;
    assert(s0.take(0) =~= Seq::empty());
    for i in 0..v.len()
        invariant
            s0 == stmts_view(v@),
            out@ == capt_block(s0.take(i as int), g@, o0),
    {
        assert(s0.take(i + 1).drop_last() =~= s0.take(i as int));
        assert(s0.take(i + 1).last() == v@[i as int]@);
        captured_stmt(&v[i], g, out);
    }
    assert(s0.take(s0.len() as int) =~= s0);
}

fn captured_elifs(v: &Vec<(Expr, Vec<Stmt>)>, g: &NameSet, out: &mut NameSet)
    ensures
        final(out)@ == capt_elifs(elifs_view(v@), g@, old(out)@),
    decreases v,
{
    let ghost s0 = elifs_view(v@);
    let ghost o0 = out@;
    assert(s0.take(0) =~= Seq::empty());
    for i in 0..v.len()
        invariant
            s0 == elifs_view(v@),
            out@ == capt_elifs(s0.take(i as int), g@, o0),
    {
        assert(s0.take(i + 1).drop_last() =~= s0.take(i as int));
        assert(s0.take(i + 1).last() == (v@[i as int].0@, stmts_view(v@[i as int].1@)));
        captured_expr(&v[i].0, g, out);
        captured_block(&v[i].1, g, out);
    }
    assert(s0.take(s0.len() as int) =~= s0);
}

fn captured_optblock(o: &Option<Vec<Stmt>>, g: &NameSet, out: &mut NameSet)
    ensures
        final(out)@ == capt_optblock(optblock_view(*o), g@, old(out)@),
    decreases o,
{
    match o {
        Some(p) => captured_block(p, g, out),
        None => {},
    }
}

fn assigned_expr(e: &Expr, out: &mut NameSet)
    ensures
        final(out)@ == asg_expr(e@, old(out)@),
    decreases e,
{
    match e {
        Expr::Lambda { body, .. } => {
            assigned_block(body, out);
        },
        Expr::Unary { expr, .. } => {
            assigned_expr(expr, out);
        },
        Expr::Binary { lhs, rhs, .. } => {
            assigned_expr(lhs, out);
            assigned_expr(rhs, out);
        },
        Expr::Call { callee, args } => {
            assigned_expr(callee, out);
            assigned_exprs(args, out);
        },
        Expr::NamedCall { callee, args } => {
            assigned_expr(callee, out);
            assigned_named(args, out);
        },
        Expr::Method { obj, args, .. } => {
            assigned_expr(obj, out);
            assigned_exprs(args, out);
        },
        Expr::Field { obj, .. } => {
            assigned_expr(obj, out);
        },
        Expr::Index { obj, index } => {
            assigned_expr(obj, out);
            assigned_expr(index, out);
        },
        Expr::List(p) => {
            assigned_exprs(p, out);
        },
        Expr::MapLit(p) => {
            assigned_pairs(p, out);
        },
        Expr::Range { lo, hi } => {
            assigned_expr(lo, out);
            assigned_expr(hi, out);
        },
        Expr::Slice { obj, lo, hi } => {
            assigned_expr(obj, out);
            assigned_optbox(lo, out);
            assigned_optbox(hi, out);
        },
        Expr::IfElse { cond, then, els } => {
            assigned_expr(cond, out);
            assigned_expr(then, out);
            assigned_expr(els, out);
        },
        Expr::ListComp { elem, iter, cond, .. } => {
            assigned_expr(iter, out);
            assigned_expr(elem, out);
            assigned_optbox(cond, out);
        },
        Expr::FStr(p) => {
            assigned_parts(p, out);
        },
        _ => {},
    }
}

fn assigned_optbox(o: &Option<Box<Expr>>, out: &mut NameSet)
    ensures
        final(out)@ == asg_optbox(optbox_view(*o), old(out)@),
    decreases o,
{
    match o {
        Some(e) => assigned_expr(e, out),
        None => {},
    }
}

fn assigned_exprs(v: &Vec<Expr>, out: &mut NameSet)
    ensures
        final(out)@ == asg_exprs(exprs_view(v@), old(out)@),
    decreases v,
{
    let ghost s0 = exprs_view(v@);
    let ghost o0 = out@;
    assert(s0.take(0) =~= Seq::empty());
    for i in 0..v.len()
        invariant
            s0 == exprs_view(v@),
            out@ == asg_exprs(s0.take(i as int), o0),
    {
        assert(s0.take(i + 1).drop_last() =~= s0.take(i as int));
        assert(s0.take(i + 1).last() == v@[i as int]@);
        assigned_expr(&v[i], out);
    }
    assert(s0.take(s0.len() as int) =~= s0);
}

fn assigned_named(v: &Vec<(String, Expr)>, out: &mut NameSet)
    ensures
        final(out)@ == asg_named(named_view(v@), old(out)@),
    decreases v,
{
    let ghost s0 = named_view(v@);
    let ghost o0 = out@;
    assert(s0.take(0) =~= Seq::empty());
    for i in 0..v.len()
        invariant
            s0 == named_view(v@),
            out@ == asg_named(s0.take(i as int), o0),
    {
        assert(s0.take(i + 1).drop_last() =~= s0.take(i as int));
        assert(s0.take(i + 1).last() == (v@[i as int].0@, v@[i as int].1@));
        assigned_expr(&v[i].1, out);
    }
    assert(s0.take(s0.len() as int) =~= s0);
}

fn assigned_pairs(v: &Vec<(Expr, Expr)>, out: &mut NameSet)
    ensures
        final(out)@ == asg_pairs(pairs_view(v@), old(out)@),
    decreases v,
{
    let ghost s0 = pairs_view(v@);
    let ghost o0 = out@;
    assert(s0.take(0) =~= Seq::empty());
    for i in 0..v.len()
        invariant
            s0 == pairs_view(v@),
            out@ == asg_pairs(s0.take(i as int), o0),
    {
        assert(s0.take(i + 1).drop_last() =~= s0.take(i as int));
        assert(s0.take(i + 1).last() == (v@[i as int].0@, v@[i as int].1@));
        assigned_expr(&v[i].0, out);
        assigned_expr(&v[i].1, out);
    }
    assert(s0.take(s0.len() as int) =~= s0);
}

fn assigned_parts(v: &Vec<FStrPart>, out: &mut NameSet)
    ensures
        final(out)@ == asg_parts(parts_view(v@), old(out)@),
    decreases v,
{
    let ghost s0 = parts_view(v@);
    let ghost o0 = out@;
    assert(s0.take(0) =~= Seq::empty());
    for i in 0..v.len()
        invariant
            s0 == parts_view(v@),
            out@ == asg_parts(s0.take(i as int), o0),
    {
        assert(s0.take(i + 1).drop_last() =~= s0.take(i as int));
        assert(s0.take(i + 1).last() == v@[i as int]@);
        match &v[i] {
            FStrPart::Expr(e) => assigned_expr(e, out),
            _ => {},
        }
    }
    assert(s0.take(s0.len() as int) =~= s0);
}

fn assigned_opt(o: &Option<Expr>, out: &mut NameSet)
    ensures
        final(out)@ == asg_opt(opt_view(*o), old(out)@),
    decreases o,
{
    match o {
        Some(p) => assigned_expr(p, out),
        None => {},
    }
}

fn assigned_stmt(s: &Stmt, out: &mut NameSet)
    ensures
        final(out)@ == asg_stmt(s@, old(out)@),
    decreases s,
{
    match s {
        Stmt::Let { value, .. } => {
            assigned_expr(value, out);
        },
        Stmt::Assign { target, value } => {
            if let Expr::Ident(n) = target {
                out.insert(n.as_str());
            }
            assigned_expr(target, out);
            assigned_expr(value, out);
        },
        Stmt::ExprStmt(p) => {
            assigned_expr(p, out);
        },
        Stmt::Return(p) => {
            assigned_opt(p, out);
        },
        Stmt::If { cond, then, elifs, els } => {
            assigned_expr(cond, out);
            assigned_block(then, out);
            assigned_elifs(elifs, out);
            assigned_optblock(els, out);
        },
        Stmt::While { cond, body } => {
            assigned_expr(cond, out);
            assigned_block(body, out);
        },
        Stmt::For { iter, body, .. } => {
            assigned_expr(iter, out);
            assigned_block(body, out);
        },
        Stmt::Try { body, catch_body, .. } => {
            assigned_block(body, out);
            assigned_block(catch_body, out);
        },
        Stmt::Raise(p) => {
            assigned_expr(p, out);
        },
        _ => {},
    }
}

fn assigned_block(v: &Vec<Stmt>, out: &mut NameSet)
    ensures
        final(out)@ == asg_block(stmts_view(v@), old(out)@),
    decreases v,
{
    let ghost s0 = stmts_view(v@);
    let ghost o0 = out@;
    assert(s0.take(0) =~= Seq::empty());
    for i in 0..v.len()
        invariant
            s0 == stmts_view(v@),
            out@ == asg_block(s0.take(i as int), o0),
    {
        assert(s0.take(i + 1).drop_last() =~= s0.take(i as int));
        assert(s0.take(i + 1).last() == v@[i as int]@);
        assigned_stmt(&v[i], out);
    }
    assert(s0.take(s0.len() as int) =~= s0);
}

fn assigned_elifs(v: &Vec<(Expr, Vec<Stmt>)>, out: &mut NameSet)
    ensures
        final(out)@ == asg_elifs(elifs_view(v@), old(out)@),
    decreases v,
{
    let ghost s0 = elifs_view(v@);
    let ghost o0 = out@;
    assert(s0.take(0) =~= Seq::empty());
    for i in 0..v.len()
        invariant
            s0 == elifs_view(v@),
            out@ == asg_elifs(s0.take(i as int), o0),
    {
        assert(s0.take(i + 1).drop_last() =~= s0.take(i as int));
        assert(s0.take(i + 1).last() == (v@[i as int].0@, stmts_view(v@[i as int].1@)));
        assigned_expr(&v[i].0, out);
        assigned_block(&v[i].1, out);
    }
    assert(s0.take(s0.len() as int) =~= s0);
}

fn assigned_optblock(o: &Option<Vec<Stmt>>, out: &mut NameSet)
    ensures
        final(out)@ == asg_optblock(optblock_view(*o), old(out)@),
    decreases o,
{
    match o {
        Some(p) => assigned_block(p, out),
        None => {},
    }
}

pub open spec fn cell_index_spec(n: Seq<char>) -> ExprView {
    ExprView::Index {
        obj: Box::new(ExprView::Ident(n)),
        index: Box::new(ExprView::Int(0)),
    }
}

/// A closure takes over the cells themselves, not what they hold.
pub open spec fn cl_captures(s: Seq<ExprView>, c: Set<Seq<char>>) -> Seq<ExprView>
    decreases s,
{
    if s.len() == 0 {
        s
    } else {
        cl_captures(s.drop_last(), c).push(
            if s.last() is Ident {
                s.last()
            } else {
                cl_expr(s.last(), c)
            },
        )
    }
}

/// The name under which a loop, a comprehension or a `catch` hands its value over to a
/// celled variable; no source program can spell it.
pub open spec fn handed_name(name: Seq<char>) -> Seq<char> {
    "#c"@ + name
}

/// What a comprehension goes over: where its variable is celled, cells that hold the values.
pub open spec fn cells_of(var: Seq<char>, iter: ExprView, c: Set<Seq<char>>) -> ExprView {
    if c.contains(var) {
        ExprView::ListComp {
            elem: Box::new(ExprView::List(seq![ExprView::Ident(handed_name(var))])),
            var: handed_name(var),
            iter: Box::new(iter),
            cond: None,
        }
    } else {
        iter
    }
}

/// Reads every celled variable through its cell. Lambdas are left alone: their bodies are
/// celled when they are lifted.
pub open spec fn cl_expr(e: ExprView, c: Set<Seq<char>>) -> ExprView
    decreases e,
{
    match e {
        ExprView::Ident(p) => if c.contains(p) {
            cell_index_spec(p)
        } else {
            e
        },
        ExprView::Unary { op, expr } => ExprView::Unary { op, expr: Box::new(cl_expr(*expr, c)) },
        ExprView::Binary { op, lhs, rhs } => ExprView::Binary {
            op,
            lhs: Box::new(cl_expr(*lhs, c)),
            rhs: Box::new(cl_expr(*rhs, c)),
        },
        ExprView::Call { callee, args } => ExprView::Call {
            callee: Box::new(cl_expr(*callee, c)),
            args: cl_exprs(args, c),
        },
        ExprView::NamedCall { callee, args } => ExprView::NamedCall {
            callee: Box::new(cl_expr(*callee, c)),
            args: cl_named(args, c),
        },
        ExprView::Method { obj, name, args } => ExprView::Method {
            obj: Box::new(cl_expr(*obj, c)),
            name,
            args: cl_exprs(args, c),
        },
        ExprView::Field { obj, name } => ExprView::Field { obj: Box::new(cl_expr(*obj, c)), name },
        ExprView::Index { obj, index } => ExprView::Index {
            obj: Box::new(cl_expr(*obj, c)),
            index: Box::new(cl_expr(*index, c)),
        },
        ExprView::List(p) => ExprView::List(cl_exprs(p, c)),
        ExprView::MapLit(p) => ExprView::MapLit(cl_pairs(p, c)),
        ExprView::Range { lo, hi } => ExprView::Range {
            lo: Box::new(cl_expr(*lo, c)),
            hi: Box::new(cl_expr(*hi, c)),
        },
        ExprView::IfElse { cond, then, els } => ExprView::IfElse {
            cond: Box::new(cl_expr(*cond, c)),
            then: Box::new(cl_expr(*then, c)),
            els: Box::new(cl_expr(*els, c)),
        },
        ExprView::ListComp { elem, var, iter, cond } => ExprView::ListComp {
            elem: Box::new(cl_expr(*elem, c)),
            var,
            iter: Box::new(cells_of(var, cl_expr(*iter, c), c)),
            cond: cl_optbox(cond, c),
        },
        ExprView::Slice { obj, lo, hi } => ExprView::Slice {
            obj: Box::new(cl_expr(*obj, c)),
            lo: cl_optbox(lo, c),
            hi: cl_optbox(hi, c),
        },
        ExprView::FStr(p) => ExprView::FStr(cl_parts(p, c)),
        ExprView::Closure { fn_name, captures } => ExprView::Closure {
            fn_name,
            captures: cl_captures(captures, c),
        },
        _ => e,
    }
}

pub open spec fn cl_optbox(o: Option<Box<ExprView>>, c: Set<Seq<char>>) -> Option<Box<ExprView>>
    decreases o,
{
    match o {
        Some(e) => Some(Box::new(cl_expr(*e, c))),
        None => None,
    }
}

pub open spec fn cl_opt(o: Option<ExprView>, c: Set<Seq<char>>) -> Option<ExprView>
    decreases o,
{
    match o {
        Some(e) => Some(cl_expr(e, c)),
        None => None,
    }
}

pub open spec fn cl_exprs(s: Seq<ExprView>, c: Set<Seq<char>>) -> Seq<ExprView>
    decreases s,
{
    if s.len() == 0 {
        s
    } else {
        cl_exprs(s.drop_last(), c).push(cl_expr(s.last(), c))
    }
}

pub open spec fn cl_named(
    s: Seq<(Seq<char>, ExprView)>,
    c: Set<Seq<char>>,
) -> Seq<(Seq<char>, ExprView)>
    decreases s,
{
    if s.len() == 0 {
        s
    } else {
        cl_named(s.drop_last(), c).push((s.last().0, cl_expr(s.last().1, c)))
    }
}

pub open spec fn cl_pairs(
    s: Seq<(ExprView, ExprView)>,
    c: Set<Seq<char>>,
) -> Seq<(ExprView, ExprView)>
    decreases s,
{
    if s.len() == 0 {
        s
    } else {
        cl_pairs(s.drop_last(), c).push((cl_expr(s.last().0, c), cl_expr(s.last().1, c)))
    }
}

pub open spec fn cl_parts(s: Seq<FStrPartView>, c: Set<Seq<char>>) -> Seq<FStrPartView>
    decreases s,
{
    if s.len() == 0 {
        s
    } else {
        cl_parts(s.drop_last(), c).push(match s.last() {
            FStrPartView::Expr(e) => FStrPartView::Expr(cl_expr(e, c)),
            p => p,
        })
    }
}

/// The declaration of a cell that holds the value of another variable.
pub open spec fn open_cell(name: Seq<char>, from: Seq<char>) -> StmtView {
    StmtView::Let {
        name,
        mutable: true,
        ty: TypeView::Unknown,
        value: ExprView::List(seq![ExprView::Ident(from)]),
    }
}

pub open spec fn outer_name(name: Seq<char>, c: Set<Seq<char>>) -> Seq<char> {
    if c.contains(name) {
        handed_name(name)
    } else {
        name
    }
}

/// A block in which a variable has its value from a loop or a `catch`.
pub open spec fn opened(name: Seq<char>, body: Seq<StmtView>, c: Set<Seq<char>>) -> Seq<StmtView> {
    if c.contains(name) {
        seq![open_cell(name, handed_name(name))] + body
    } else {
        body
    }
}

/// Makes a cell where a celled variable is declared and goes through it elsewhere.
pub open spec fn cl_stmt(s: StmtView, c: Set<Seq<char>>) -> StmtView
    decreases s,
{
    match s {
        StmtView::Let { name, mutable, ty, value } => {
            let v = cl_expr(value, c);
            StmtView::Let {
                name,
                mutable,
                ty,
                value: if c.contains(name) {
                    ExprView::List(seq![v])
                } else {
                    v
                },
            }
        },
        StmtView::Assign { target, value } => StmtView::Assign {
            target: cl_expr(target, c),
            value: cl_expr(value, c),
        },
        StmtView::ExprStmt(p) => StmtView::ExprStmt(cl_expr(p, c)),
        StmtView::Return(p) => StmtView::Return(cl_opt(p, c)),
        StmtView::If { cond, then, elifs, els } => StmtView::If {
            cond: cl_expr(cond, c),
            then: cl_block(then, c),
            elifs: cl_elifs(elifs, c),
            els: cl_optblock(els, c),
        },
        StmtView::While { cond, body } => StmtView::While {
            cond: cl_expr(cond, c),
            body: cl_block(body, c),
        },
        StmtView::For { var, iter, body } => StmtView::For {
            var: outer_name(var, c),
            iter: cl_expr(iter, c),
            body: opened(var, cl_block(body, c), c),
        },
        StmtView::Try { body, catch_var, catch_body } => StmtView::Try {
            body: cl_block(body, c),
            catch_var: outer_name(catch_var, c),
            catch_body: opened(catch_var, cl_block(catch_body, c), c),
        },
        StmtView::Raise(p) => StmtView::Raise(cl_expr(p, c)),
        _ => s,
    }
}

pub open spec fn cl_block(s: Seq<StmtView>, c: Set<Seq<char>>) -> Seq<StmtView>
    decreases s,
{
    if s.len() == 0 {
        s
    } else {
        cl_block(s.drop_last(), c).push(cl_stmt(s.last(), c))
    }
}

pub open spec fn cl_elifs(
    s: Seq<(ExprView, Seq<StmtView>)>,
    c: Set<Seq<char>>,
) -> Seq<(ExprView, Seq<StmtView>)>
    decreases s,
{
    if s.len() == 0 {
        s
    } else {
        cl_elifs(s.drop_last(), c).push((cl_expr(s.last().0, c), cl_block(s.last().1, c)))
    }
}

pub open spec fn cl_optblock(o: Option<Seq<StmtView>>, c: Set<Seq<char>>) -> Option<Seq<StmtView>>
    decreases o,
{
    match o {
        Some(b) => Some(cl_block(b, c)),
        None => None,
    }
}

fn make_cell(e: &mut Expr)
    requires
        *old(e) is Ident,
    ensures
        final(e)@ == cell_index_spec(old(e)@->Ident_0),
{
    let mut whole = Expr::Nil;
    std::mem::swap(e, &mut whole);
    match whole {
        Expr::Ident(n) => {
            let obj = Expr::Ident(n);
            let index = Expr::Int(0);
            assert(obj@ == ExprView::Ident(n@));
            assert(index@ == ExprView::Int(0));
            *e = Expr::Index { obj: Box::new(obj), index: Box::new(index) };
        },
        _ => {},
    }
}

fn wrap_in_list(e: &mut Expr)
    ensures
        final(e)@ == ExprView::List(seq![old(e)@]),
{
    let mut whole = Expr::Nil;
    std::mem::swap(e, &mut whole);
    let one: Vec<Expr> = vec![whole];
    assert(exprs_view(one@) =~= seq![whole@]);
    *e = Expr::List(one);
}

fn cell_captures(v: &mut Vec<Expr>, c: &NameSet)
    ensures
        exprs_view(final(v)@) == cl_captures(exprs_view(old(v)@), c@),
    decreases *old(v),
{
    let ghost v0 = v@;
    let ghost s0 = exprs_view(v0);
    let len: usize = v.len();
    assert(s0.take(0) =~= Seq::empty());
    assert(exprs_view(v@).take(0) =~= Seq::empty());
    let mut i: usize = 0;
    while i < len
        invariant
            i <= len,
            len == v@.len(),
            len == v0.len(),
            v0 == old(v)@,
            s0 == exprs_view(v0),
            exprs_view(v@).take(i as int) == cl_captures(s0.take(i as int), c@),
            tail_kept(v@, v0, i as int),
        decreases len - i,
    {
        let ghost t0 = exprs_view(v@).take(i as int);
        assert(s0.take(i + 1).drop_last() =~= s0.take(i as int));
        assert(s0.take(i + 1).last() == v0[i as int]@);
        let plain = matches!(&v[i], Expr::Ident(_));
        if !plain {
            cell_expr(&mut v[i], c);
        }
        assert(exprs_view(v@).take(i + 1) =~= t0.push(v@[i as int]@));
        i += 1;
    }
    assert(s0.take(len as int) =~= s0);
    assert(exprs_view(v@).take(len as int) =~= exprs_view(v@));
}

fn make_cells(var: &str, iter: &mut Expr, c: &NameSet)
    ensures
        final(iter)@ == cells_of(var@, old(iter)@, c@),
{
    if c.contains(var) {
        let outer = concat("#c", var);
        let held: Vec<Expr> = vec![Expr::Ident(outer.clone())];
        assert(exprs_view(held@) =~= seq![ExprView::Ident(outer@)]);
        let elem = Expr::List(held);
        assert(elem@ == ExprView::List(seq![ExprView::Ident(outer@)]));
        let mut inner = Expr::Nil;
        std::mem::swap(iter, &mut inner);
        assert(optbox_view(None) == None::<Box<ExprView>>);
        *iter = Expr::ListComp {
            elem: Box::new(elem),
            var: outer,
            iter: Box::new(inner),
            cond: None,
        };
    }
}

#[verifier::rlimit(60)]
fn cell_expr(e: &mut Expr, c: &NameSet)
    ensures
        final(e)@ == cl_expr(old(e)@, c@),
    decreases *old(e),
{
    let mut cell = false;
    match e {
        Expr::Ident(p) => {
            cell = c.contains(p.as_str());
        },
        Expr::Unary { expr, .. } => {
            cell_expr(expr, c);
        },
        Expr::Binary { lhs, rhs, .. } => {
            cell_expr(lhs, c);
            cell_expr(rhs, c);
        },
        Expr::Call { callee, args } => {
            cell_expr(callee, c);
            cell_exprs(args, c);
        },
        Expr::NamedCall { callee, args } => {
            cell_expr(callee, c);
            cell_named(args, c);
        },
        Expr::Method { obj, args, .. } => {
            cell_expr(obj, c);
            cell_exprs(args, c);
        },
        Expr::Field { obj, .. } => {
            cell_expr(obj, c);
        },
        Expr::Index { obj, index } => {
            cell_expr(obj, c);
            cell_expr(index, c);
        },
        Expr::List(p) => {
            cell_exprs(p, c);
        },
        Expr::MapLit(p) => {
            cell_pairs(p, c);
        },
        Expr::Range { lo, hi } => {
            cell_expr(lo, c);
            cell_expr(hi, c);
        },
        Expr::IfElse { cond, then, els } => {
            cell_expr(cond, c);
            cell_expr(then, c);
            cell_expr(els, c);
        },
        Expr::ListComp { elem, var, iter, cond } => {
            cell_expr(elem, c);
            cell_expr(iter, c);
            cell_optbox(cond, c);
            make_cells(var.as_str(), iter, c);
        },
        Expr::Slice { obj, lo, hi } => {
            cell_expr(obj, c);
            cell_optbox(lo, c);
            cell_optbox(hi, c);
        },
        Expr::FStr(p) => {
            cell_parts(p, c);
        },
        Expr::Closure { captures, .. } => {
            cell_captures(captures, c);
        },
        _ => {},
    }
    if cell {
        make_cell(e);
    }
}

fn cell_exprs(v: &mut Vec<Expr>, c: &NameSet)
    ensures
        exprs_view(final(v)@) == cl_exprs(exprs_view(old(v)@), c@),
    decreases *old(v),
{
    let ghost v0 = v@;
    let ghost s0 = exprs_view(v0);
    let len: usize = v.len();
    assert(s0.take(0) =~= Seq::empty());
    assert(exprs_view(v@).take(0) =~= Seq::empty());
    let mut i: usize = 0;
    while i < len
        invariant
            i <= len,
            len == v@.len(),
            len == v0.len(),
            v0 == old(v)@,
            s0 == exprs_view(v0),
            exprs_view(v@).take(i as int) == cl_exprs(s0.take(i as int), c@),
            tail_kept(v@, v0, i as int),
        decreases len - i,
    {
        let ghost t0 = exprs_view(v@).take(i as int);
        assert(s0.take(i + 1).drop_last() =~= s0.take(i as int));
        assert(s0.take(i + 1).last() == v0[i as int]@);
        cell_expr(&mut v[i], c);
        assert(exprs_view(v@).take(i + 1) =~= t0.push(v@[i as int]@));
        i += 1;
    }
    assert(s0.take(len as int) =~= s0);
    assert(exprs_view(v@).take(len as int) =~= exprs_view(v@));
}

fn cell_named(v: &mut Vec<(String, Expr)>, c: &NameSet)
    ensures
        named_view(final(v)@) == cl_named(named_view(old(v)@), c@),
    decreases *old(v),
{
    let ghost v0 = v@;
    let ghost s0 = named_view(v0);
    let len: usize = v.len();
    assert(s0.take(0) =~= Seq::empty());
    assert(named_view(v@).take(0) =~= Seq::empty());
    let mut i: usize = 0;
    while i < len
        invariant
            i <= len,
            len == v@.len(),
            len == v0.len(),
            v0 == old(v)@,
            s0 == named_view(v0),
            named_view(v@).take(i as int) == cl_named(s0.take(i as int), c@),
            tail_kept(v@, v0, i as int),
        decreases len - i,
    {
        let ghost t0 = named_view(v@).take(i as int);
        assert(s0.take(i + 1).drop_last() =~= s0.take(i as int));
        assert(s0.take(i + 1).last() == (v0[i as int].0@, v0[i as int].1@));
        cell_expr(&mut v[i].1, c);
        assert(named_view(v@).take(i + 1) =~= t0.push((v@[i as int].0@, v@[i as int].1@)));
        i += 1;
    }
    assert(s0.take(len as int) =~= s0);
    assert(named_view(v@).take(len as int) =~= named_view(v@));
}

fn cell_pairs(v: &mut Vec<(Expr, Expr)>, c: &NameSet)
    ensures
        pairs_view(final(v)@) == cl_pairs(pairs_view(old(v)@), c@),
    decreases *old(v),
{
    let ghost v0 = v@;
    let ghost s0 = pairs_view(v0);
    let len: usize = v.len();
    assert(s0.take(0) =~= Seq::empty());
    assert(pairs_view(v@).take(0) =~= Seq::empty());
    let mut i: usize = 0;
    while i < len
        invariant
            i <= len,
            len == v@.len(),
            len == v0.len(),
            v0 == old(v)@,
            s0 == pairs_view(v0),
            pairs_view(v@).take(i as int) == cl_pairs(s0.take(i as int), c@),
            tail_kept(v@, v0, i as int),
        decreases len - i,
    {
        let ghost t0 = pairs_view(v@).take(i as int);
        assert(s0.take(i + 1).drop_last() =~= s0.take(i as int));
        assert(s0.take(i + 1).last() == (v0[i as int].0@, v0[i as int].1@));
        let ghost k0 = v@[i as int].1;
        cell_expr(&mut v[i].0, c);
        assert(v@[i as int].1 == k0);
        cell_expr(&mut v[i].1, c);
        assert(pairs_view(v@).take(i + 1) =~= t0.push((v@[i as int].0@, v@[i as int].1@)));
        i += 1;
    }
    assert(s0.take(len as int) =~= s0);
    assert(pairs_view(v@).take(len as int) =~= pairs_view(v@));
}

fn cell_parts(v: &mut Vec<FStrPart>, c: &NameSet)
    ensures
        parts_view(final(v)@) == cl_parts(parts_view(old(v)@), c@),
    decreases *old(v),
{
    let ghost v0 = v@;
    let ghost s0 = parts_view(v0);
    let len: usize = v.len();
    assert(s0.take(0) =~= Seq::empty());
    assert(parts_view(v@).take(0) =~= Seq::empty());
    let mut i: usize = 0;
    while i < len
        invariant
            i <= len,
            len == v@.len(),
            len == v0.len(),
            v0 == old(v)@,
            s0 == parts_view(v0),
            parts_view(v@).take(i as int) == cl_parts(s0.take(i as int), c@),
            tail_kept(v@, v0, i as int),
        decreases len - i,
    {
        let ghost t0 = parts_view(v@).take(i as int);
        assert(s0.take(i + 1).drop_last() =~= s0.take(i as int));
        assert(s0.take(i + 1).last() == v0[i as int]@);
        match &mut v[i] {
            FStrPart::Expr(e) => {
                cell_expr(e, c);
            },
            _ => {},
        }
        assert(parts_view(v@).take(i + 1) =~= t0.push(v@[i as int]@));
        i += 1;
    }
    assert(s0.take(len as int) =~= s0);
    assert(parts_view(v@).take(len as int) =~= parts_view(v@));
}

fn make_opening(name: &str, from: &str) -> (r: Stmt)
    ensures
        r@ == open_cell(name@, from@),
{
    let held: Vec<Expr> = vec![Expr::Ident(from.to_owned())];
    assert(exprs_view(held@) =~= seq![ExprView::Ident(from@)]);
    let value = Expr::List(held);
    assert(value@ == ExprView::List(seq![ExprView::Ident(from@)]));
    Stmt::Let { name: name.to_owned(), mutable: true, ty: Type::Unknown, value }
}

fn open_block(name: &mut String, body: &mut Vec<Stmt>, c: &NameSet)
    ensures
        final(name)@ == outer_name(old(name)@, c@),
        stmts_view(final(body)@) == opened(old(name)@, stmts_view(old(body)@), c@),
{
    if c.contains(name.as_str()) {
        let ghost b0 = body@;
        let outer = concat("#c", name.as_str());
        let first = make_opening(name.as_str(), outer.as_str());
        body.insert(0, first);
        assert(stmts_view(body@) =~= seq![first@] + stmts_view(b0));
        *name = outer;
    }
}

fn cell_stmt(s: &mut Stmt, c: &NameSet)
    ensures
        final(s)@ == cl_stmt(old(s)@, c@),
    decreases *old(s),
{
    match s {
        Stmt::Let { name, value, .. } => {
            cell_expr(value, c);
            if c.contains(name.as_str()) {
                wrap_in_list(value);
            }
        },
        Stmt::Assign { target, value } => {
            cell_expr(target, c);
            cell_expr(value, c);
        },
        Stmt::ExprStmt(p) => {
            cell_expr(p, c);
        },
        Stmt::Return(p) => {
            cell_opt(p, c);
        },
        Stmt::If { cond, then, elifs, els } => {
            cell_expr(cond, c);
            cell_block(then, c);
            cell_elifs(elifs, c);
            cell_optblock(els, c);
        },
        Stmt::While { cond, body } => {
            cell_expr(cond, c);
            cell_block(body, c);
        },
        Stmt::For { var, iter, body } => {
            cell_expr(iter, c);
            cell_block(body, c);
            open_block(var, body, c);
        },
        Stmt::Try { body, catch_var, catch_body } => {
            cell_block(body, c);
            cell_block(catch_body, c);
            open_block(catch_var, catch_body, c);
        },
        Stmt::Raise(p) => {
            cell_expr(p, c);
        },
        _ => {},
    }
}

fn cell_block(v: &mut Vec<Stmt>, c: &NameSet)
    ensures
        stmts_view(final(v)@) == cl_block(stmts_view(old(v)@), c@),
    decreases *old(v),
{
    let ghost v0 = v@;
    let ghost s0 = stmts_view(v0);
    let len: usize = v.len();
    assert(s0.take(0) =~= Seq::empty());
    assert(stmts_view(v@).take(0) =~= Seq::empty());
    let mut i: usize = 0;
    while i < len
        invariant
            i <= len,
            len == v@.len(),
            len == v0.len(),
            v0 == old(v)@,
            s0 == stmts_view(v0),
            stmts_view(v@).take(i as int) == cl_block(s0.take(i as int), c@),
            tail_kept(v@, v0, i as int),
        decreases len - i,
    {
        let ghost t0 = stmts_view(v@).take(i as int);
        assert(s0.take(i + 1).drop_last() =~= s0.take(i as int));
        assert(s0.take(i + 1).last() == v0[i as int]@);
        cell_stmt(&mut v[i], c);
        assert(stmts_view(v@).take(i + 1) =~= t0.push(v@[i as int]@));
        i += 1;
    }
    assert(s0.take(len as int) =~= s0);
    assert(stmts_view(v@).take(len as int) =~= stmts_view(v@));
}

fn cell_elifs(v: &mut Vec<(Expr, Vec<Stmt>)>, c: &NameSet)
    ensures
        elifs_view(final(v)@) == cl_elifs(elifs_view(old(v)@), c@),
    decreases *old(v),
{
    let ghost v0 = v@;
    let ghost s0 = elifs_view(v0);
    let len: usize = v.len();
    assert(s0.take(0) =~= Seq::empty());
    assert(elifs_view(v@).take(0) =~= Seq::empty());
    let mut i: usize = 0;
    while i < len
        invariant
            i <= len,
            len == v@.len(),
            len == v0.len(),
            v0 == old(v)@,
            s0 == elifs_view(v0),
            elifs_view(v@).take(i as int) == cl_elifs(s0.take(i as int), c@),
            tail_kept(v@, v0, i as int),
        decreases len - i,
    {
        let ghost t0 = elifs_view(v@).take(i as int);
        assert(s0.take(i + 1).drop_last() =~= s0.take(i as int));
        assert(s0.take(i + 1).last() == (v0[i as int].0@, stmts_view(v0[i as int].1@)));
        let ghost k0 = v@[i as int].1;
        cell_expr(&mut v[i].0, c);
        assert(v@[i as int].1 == k0);
        cell_block(&mut v[i].1, c);
        assert(
            elifs_view(v@).take(i + 1) =~= t0.push((v@[i as int].0@, stmts_view(v@[i as int].1@)))
        );
        i += 1;
    }
    assert(s0.take(len as int) =~= s0);
    assert(elifs_view(v@).take(len as int) =~= elifs_view(v@));
}

fn cell_optbox(o: &mut Option<Box<Expr>>, c: &NameSet)
    ensures
        optbox_view(*final(o)) == cl_optbox(optbox_view(*old(o)), c@),
    decreases *old(o),
{
    match o {
        Some(p) => {
            cell_expr(p, c);
        },
        None => {},
    }
}

fn cell_opt(o: &mut Option<Expr>, c: &NameSet)
    ensures
        opt_view(*final(o)) == cl_opt(opt_view(*old(o)), c@),
    decreases *old(o),
{
    match o {
        Some(p) => {
            cell_expr(p, c);
        },
        None => {},
    }
}

fn cell_optblock(o: &mut Option<Vec<Stmt>>, c: &NameSet)
    ensures
        optblock_view(*final(o)) == cl_optblock(optblock_view(*old(o)), c@),
    decreases *old(o),
{
    match o {
        Some(p) => {
            cell_block(p, c);
        },
        None => {},
    }
}

/// What lifting has done so far: how many lambdas it named, the functions made of
/// them, and the names that are functions of the program.
pub struct Lift {
    pub counter: u32,
    pub generated: Seq<FnDefView>,
    pub globals: Set<Seq<char>>,
}

pub open spec fn lambda_name(n: u32) -> Seq<char> {
    "__lambda_"@ + dec_nat(n as nat)
}

pub open spec fn dynamic_param(n: Seq<char>) -> ParamView {
    ParamView { name: n, ty: TypeView::Dynamic, default: None }
}

pub open spec fn dynamic_params(s: Seq<Seq<char>>) -> Seq<ParamView> {
    Seq::new(s.len(), |i: int| dynamic_param(s[i]))
}

pub open spec fn idents(s: Seq<Seq<char>>) -> Seq<ExprView> {
    Seq::new(s.len(), |i: int| ExprView::Ident(s[i]))
}

/// The function that a lambda becomes. Its own celled variables get their cells here; what
/// it captures comes with them.
pub open spec fn lambda_fn(
    name: Seq<char>,
    captures: Seq<Seq<char>>,
    params: Seq<Seq<char>>,
    body: Seq<StmtView>,
    c: Set<Seq<char>>,
) -> FnDefView {
    FnDefView {
        name,
        params: dynamic_params(captures + params),
        ret: TypeView::Unknown,
        body: param_cells(dynamic_params(params), c) + cell_scope(body, c),
        exported: false,
        is_method: false,
    }
}

/// Turns a lambda whose body is lifted into a function, and gives what stands in its
/// place: the function's name, or a closure over what it captures.
pub open spec fn lift_lambda(
    params: Seq<Seq<char>>,
    body: Seq<StmtView>,
    c: Set<Seq<char>>,
    n: Lift,
) -> (ExprView, Lift) {
    let captures = lambda_captures(params, body, n.globals);
    let name = lambda_name(n.counter);
    let f = lambda_fn(name, captures, params, body, c);
    (
        if captures.len() == 0 {
            ExprView::Ident(name)
        } else {
            ExprView::Closure { fn_name: name, captures: idents(captures) }
        },
        Lift {
            counter: if n.counter == u32::MAX {
                0
            } else {
                (n.counter + 1) as u32
            },
            generated: n.generated.push(f),
            ..n
        },
    )
}

/// Hoists the lambdas of an expression, inner ones first.
pub open spec fn lf_expr(e: ExprView, c: Set<Seq<char>>, n: Lift) -> (ExprView, Lift)
    decreases e,
{
    match e {
        ExprView::Unary { op, expr } => {
            let (expr1, n1) = lf_expr(*expr, c, n);
            (ExprView::Unary { op, expr: Box::new(expr1) }, n1)
        },
        ExprView::Binary { op, lhs, rhs } => {
            let (lhs1, n1) = lf_expr(*lhs, c, n);
            let (rhs2, n2) = lf_expr(*rhs, c, n1);
            (ExprView::Binary { op, lhs: Box::new(lhs1), rhs: Box::new(rhs2) }, n2)
        },
        ExprView::Call { callee, args } => {
            let (callee1, n1) = lf_expr(*callee, c, n);
            let (args2, n2) = lf_exprs(args, c, n1);
            (ExprView::Call { callee: Box::new(callee1), args: args2 }, n2)
        },
        ExprView::NamedCall { callee, args } => {
            let (callee1, n1) = lf_expr(*callee, c, n);
            let (args2, n2) = lf_named(args, c, n1);
            (ExprView::NamedCall { callee: Box::new(callee1), args: args2 }, n2)
        },
        ExprView::Method { obj, name, args } => {
            let (obj1, n1) = lf_expr(*obj, c, n);
            let (args2, n2) = lf_exprs(args, c, n1);
            (ExprView::Method { obj: Box::new(obj1), name, args: args2 }, n2)
        },
        ExprView::Field { obj, name } => {
            let (obj1, n1) = lf_expr(*obj, c, n);
            (ExprView::Field { obj: Box::new(obj1), name }, n1)
        },
        ExprView::Index { obj, index } => {
            let (obj1, n1) = lf_expr(*obj, c, n);
            let (index2, n2) = lf_expr(*index, c, n1);
            (ExprView::Index { obj: Box::new(obj1), index: Box::new(index2) }, n2)
        },
        ExprView::List(p) => {
            let (p1, n1) = lf_exprs(p, c, n);
            (ExprView::List(p1), n1)
        },
        ExprView::MapLit(p) => {
            let (p1, n1) = lf_pairs(p, c, n);
            (ExprView::MapLit(p1), n1)
        },
        ExprView::Range { lo, hi } => {
            let (lo1, n1) = lf_expr(*lo, c, n);
            let (hi2, n2) = lf_expr(*hi, c, n1);
            (ExprView::Range { lo: Box::new(lo1), hi: Box::new(hi2) }, n2)
        },
        ExprView::Slice { obj, lo, hi } => {
            let (obj1, n1) = lf_expr(*obj, c, n);
            let (lo2, n2) = lf_optbox(lo, c, n1);
            let (hi3, n3) = lf_optbox(hi, c, n2);
            (ExprView::Slice { obj: Box::new(obj1), lo: lo2, hi: hi3 }, n3)
        },
        ExprView::IfElse { cond, then, els } => {
            let (cond1, n1) = lf_expr(*cond, c, n);
            let (then2, n2) = lf_expr(*then, c, n1);
            let (els3, n3) = lf_expr(*els, c, n2);
            (
                ExprView::IfElse {
                    cond: Box::new(cond1),
                    then: Box::new(then2),
                    els: Box::new(els3),
                },
                n3,
            )
        },
        ExprView::FStr(p) => {
            let (p1, n1) = lf_parts(p, c, n);
            (ExprView::FStr(p1), n1)
        },
        ExprView::Lambda { params, body } => {
            let (body1, n1) = lf_block(body, c, n);
            lift_lambda(params, body1, c, n1)
        },
        ExprView::ListComp { elem, var, iter, cond } => {
            let (elem1, n1) = lf_expr(*elem, c, n);
            let (iter2, n2) = lf_expr(*iter, c, n1);
            let (cond3, n3) = lf_optbox(cond, c, n2);
            (
                ExprView::ListComp {
                    elem: Box::new(elem1),
                    var,
                    iter: Box::new(iter2),
                    cond: cond3,
                },
                n3,
            )
        },
        _ => (e, n),
    }
}

pub open spec fn lf_optbox(
    o: Option<Box<ExprView>>,
    c: Set<Seq<char>>,
    n: Lift,
) -> (Option<Box<ExprView>>, Lift)
    decreases o,
{
    match o {
        Some(e) => {
            let (x, m) = lf_expr(*e, c, n);
            (Some(Box::new(x)), m)
        },
        None => (None, n),
    }
}

pub open spec fn lf_opt(o: Option<ExprView>, c: Set<Seq<char>>, n: Lift) -> (Option<ExprView>, Lift)
    decreases o,
{
    match o {
        Some(e) => {
            let (x, m) = lf_expr(e, c, n);
            (Some(x), m)
        },
        None => (None, n),
    }
}

pub open spec fn lf_exprs(s: Seq<ExprView>, c: Set<Seq<char>>, n: Lift) -> (Seq<ExprView>, Lift)
    decreases s,
{
    if s.len() == 0 {
        (s, n)
    } else {
        let (init, n1) = lf_exprs(s.drop_last(), c, n);
        let (y, m) = lf_expr(s.last(), c, n1);
        (init.push(y), m)
    }
}

pub open spec fn lf_named(
    s: Seq<(Seq<char>, ExprView)>,
    c: Set<Seq<char>>,
    n: Lift,
) -> (Seq<(Seq<char>, ExprView)>, Lift)
    decreases s,
{
    if s.len() == 0 {
        (s, n)
    } else {
        let (init, n1) = lf_named(s.drop_last(), c, n);
        let (y, m) = lf_expr(s.last().1, c, n1);
        (init.push((s.last().0, y)), m)
    }
}

pub open spec fn lf_pairs(
    s: Seq<(ExprView, ExprView)>,
    c: Set<Seq<char>>,
    n: Lift,
) -> (Seq<(ExprView, ExprView)>, Lift)
    decreases s,
{
    if s.len() == 0 {
        (s, n)
    } else {
        let (init, n1) = lf_pairs(s.drop_last(), c, n);
        let (y, m1) = lf_expr(s.last().0, c, n1);
        let (z, m) = lf_expr(s.last().1, c, m1);
        (init.push((y, z)), m)
    }
}

pub open spec fn lf_parts(
    s: Seq<FStrPartView>,
    c: Set<Seq<char>>,
    n: Lift,
) -> (Seq<FStrPartView>, Lift)
    decreases s,
{
    if s.len() == 0 {
        (s, n)
    } else {
        let (init, n1) = lf_parts(s.drop_last(), c, n);
        let (y, m) = match s.last() {
            FStrPartView::Expr(e) => {
                let (z, m) = lf_expr(e, c, n1);
                (FStrPartView::Expr(z), m)
            },
            p => (p, n1),
        };
        (init.push(y), m)
    }
}

pub open spec fn lf_stmt(s: StmtView, c: Set<Seq<char>>, n: Lift) -> (StmtView, Lift)
    decreases s,
{
    match s {
        StmtView::Let { name, mutable, ty, value } => {
            let (value1, n1) = lf_expr(value, c, n);
            (StmtView::Let { name, mutable, ty, value: value1 }, n1)
        },
        StmtView::Assign { target, value } => {
            let (target1, n1) = lf_expr(target, c, n);
            let (value2, n2) = lf_expr(value, c, n1);
            (StmtView::Assign { target: target1, value: value2 }, n2)
        },
        StmtView::ExprStmt(p) => {
            let (p1, n1) = lf_expr(p, c, n);
            (StmtView::ExprStmt(p1), n1)
        },
        StmtView::Return(p) => {
            let (p1, n1) = lf_opt(p, c, n);
            (StmtView::Return(p1), n1)
        },
        StmtView::If { cond, then, elifs, els } => {
            let (cond1, n1) = lf_expr(cond, c, n);
            let (then2, n2) = lf_block(then, c, n1);
            let (elifs3, n3) = lf_elifs(elifs, c, n2);
            let (els4, n4) = lf_optblock(els, c, n3);
            (StmtView::If { cond: cond1, then: then2, elifs: elifs3, els: els4 }, n4)
        },
        StmtView::While { cond, body } => {
            let (cond1, n1) = lf_expr(cond, c, n);
            let (body2, n2) = lf_block(body, c, n1);
            (StmtView::While { cond: cond1, body: body2 }, n2)
        },
        StmtView::For { var, iter, body } => {
            let (iter1, n1) = lf_expr(iter, c, n);
            let (body2, n2) = lf_block(body, c, n1);
            (StmtView::For { var, iter: iter1, body: body2 }, n2)
        },
        StmtView::Try { body, catch_var, catch_body } => {
            let (body1, n1) = lf_block(body, c, n);
            let (catch_body2, n2) = lf_block(catch_body, c, n1);
            (StmtView::Try { body: body1, catch_var, catch_body: catch_body2 }, n2)
        },
        StmtView::Raise(p) => {
            let (p1, n1) = lf_expr(p, c, n);
            (StmtView::Raise(p1), n1)
        },
        _ => (s, n),
    }
}

pub open spec fn lf_block(s: Seq<StmtView>, c: Set<Seq<char>>, n: Lift) -> (Seq<StmtView>, Lift)
    decreases s,
{
    if s.len() == 0 {
        (s, n)
    } else {
        let (init, n1) = lf_block(s.drop_last(), c, n);
        let (y, m) = lf_stmt(s.last(), c, n1);
        (init.push(y), m)
    }
}

pub open spec fn lf_elifs(
    s: Seq<(ExprView, Seq<StmtView>)>,
    c: Set<Seq<char>>,
    n: Lift,
) -> (Seq<(ExprView, Seq<StmtView>)>, Lift)
    decreases s,
{
    if s.len() == 0 {
        (s, n)
    } else {
        let (init, n1) = lf_elifs(s.drop_last(), c, n);
        let (y, m1) = lf_expr(s.last().0, c, n1);
        let (z, m) = lf_block(s.last().1, c, m1);
        (init.push((y, z)), m)
    }
}

pub open spec fn lf_optblock(
    o: Option<Seq<StmtView>>,
    c: Set<Seq<char>>,
    n: Lift,
) -> (Option<Seq<StmtView>>, Lift)
    decreases o,
{
    match o {
        Some(b) => {
            let (x, m) = lf_block(b, c, n);
            (Some(x), m)
        },
        None => (None, n),
    }
}

/// The variables of a scope that need a cell.
pub open spec fn celled(body: Seq<StmtView>, g: Set<Seq<char>>) -> Set<Seq<char>> {
    capt_block(body, g, Set::empty()).intersect(asg_block(body, Set::empty()))
}

pub open spec fn cell_scope(body: Seq<StmtView>, c: Set<Seq<char>>) -> Seq<StmtView> {
    if c == Set::<Seq<char>>::empty() {
        body
    } else {
        cl_block(body, c)
    }
}

/// The cells of celled parameters.
pub open spec fn param_cells(ps: Seq<ParamView>, c: Set<Seq<char>>) -> Seq<StmtView>
    decreases ps.len(),
{
    if ps.len() == 0 {
        Seq::empty()
    } else {
        let init = param_cells(ps.drop_last(), c);
        if c.contains(ps.last().name) {
            init.push(open_cell(ps.last().name, ps.last().name))
        } else {
            init
        }
    }
}

/// Lifts the lambdas of a default, which is a scope of its own.
pub open spec fn lift_default(o: Option<ExprView>, n: Lift) -> (Option<ExprView>, Lift) {
    let c = capt_opt(o, n.globals, Set::empty()).intersect(asg_opt(o, Set::empty()));
    lf_opt(cl_opt(o, c), c, n)
}

/// Lifts the lambdas of the defaults of parameters.
pub open spec fn lift_params(s: Seq<ParamView>, n: Lift) -> (Seq<ParamView>, Lift)
    decreases s.len(),
{
    if s.len() == 0 {
        (s, n)
    } else {
        let (init, n1) = lift_params(s.drop_last(), n);
        let (default, m) = lift_default(s.last().default, n1);
        (init.push(ParamView { default, ..s.last() }), m)
    }
}

/// Lifts the lambdas of one function: of its defaults and its body.
pub open spec fn lift_unit(f: FnDefView, n: Lift) -> (FnDefView, Lift) {
    let (params, n1) = lift_params(f.params, n);
    let c = celled(f.body, n.globals);
    let (body, m) = lf_block(param_cells(f.params, c) + cell_scope(f.body, c), c, n1);
    (FnDefView { params, body, ..f }, m)
}

pub open spec fn lift_methods(s: Seq<FnDefView>, n: Lift) -> (Seq<FnDefView>, Lift)
    decreases s.len(),
{
    if s.len() == 0 {
        (s, n)
    } else {
        let (init, n1) = lift_methods(s.drop_last(), n);
        let (f, m) = lift_unit(s.last(), n1);
        (init.push(f), m)
    }
}

/// Lifts the lambdas of the functions and methods of a program.
pub open spec fn lift_units(s: Seq<ItemView>, n: Lift) -> (Seq<ItemView>, Lift)
    decreases s.len(),
{
    if s.len() == 0 {
        (s, n)
    } else {
        let (init, n1) = lift_units(s.drop_last(), n);
        match s.last() {
            ItemView::Fn(f) => {
                let (g, m) = lift_unit(f, n1);
                (init.push(ItemView::Fn(g)), m)
            },
            ItemView::Struct(d) => {
                let (methods, m) = lift_methods(d.methods, n1);
                (init.push(ItemView::Struct(StructDefView { methods, ..d })), m)
            },
            i => (init.push(i), n1),
        }
    }
}

/// The statements at the top of a program.
pub open spec fn top_stmts(s: Seq<ItemView>) -> Seq<StmtView>
    decreases s.len(),
{
    if s.len() == 0 {
        Seq::empty()
    } else {
        let init = top_stmts(s.drop_last());
        match s.last() {
            ItemView::Stmt(t) => init.push(t),
            _ => init,
        }
    }
}

/// Lifts the lambdas of the statements at the top of a program, which share one scope.
pub open spec fn lift_tops(s: Seq<ItemView>, c: Set<Seq<char>>, n: Lift) -> (Seq<ItemView>, Lift)
    decreases s.len(),
{
    if s.len() == 0 {
        (s, n)
    } else {
        let (init, n1) = lift_tops(s.drop_last(), c, n);
        match s.last() {
            ItemView::Stmt(t) => {
                let t1 = if c == Set::<Seq<char>>::empty() {
                    t
                } else {
                    cl_stmt(t, c)
                };
                let (t2, m) = lf_stmt(t1, c, n1);
                (init.push(ItemView::Stmt(t2)), m)
            },
            i => (init.push(i), n1),
        }
    }
}

pub open spec fn fn_items(s: Seq<FnDefView>) -> Seq<ItemView> {
    Seq::new(s.len(), |i: int| ItemView::Fn(s[i]))
}

pub open spec fn fn_names(s: Seq<ItemView>) -> Set<Seq<char>>
    decreases s.len(),
{
    if s.len() == 0 {
        Set::empty()
    } else {
        let init = fn_names(s.drop_last());
        match s.last() {
            ItemView::Fn(f) => init.insert(f.name),
            _ => init,
        }
    }
}

/// The program with its lambdas lifted; the functions made of them stand at its end.
pub open spec fn lifted(s: Seq<ItemView>) -> Seq<ItemView> {
    let n0 = Lift { counter: 0, generated: Seq::empty(), globals: fn_names(s) };
    let (s1, n1) = lift_units(s, n0);
    let (s2, n2) = lift_tops(s1, celled(top_stmts(s1), n1.globals), n1);
    s2 + fn_items(n2.generated)
}

struct Lifter {
    counter: u32,
    generated: Vec<FnDef>,
    globals: NameSet,
}

impl View for Lifter {
    type V = Lift;

    closed spec fn view(&self) -> Lift {
        Lift {
            counter: self.counter,
            generated: fns_view(self.generated@),
            globals: self.globals@,
        }
    }
}

fn push_params(out: &mut Vec<Param>, names: &Vec<String>)
    ensures
        params_view(final(out)@) == params_view(old(out)@) + dynamic_params(strs_view(names@)),
{
    let ghost o0 = params_view(out@);
    let ghost nv = strs_view(names@);
    assert(params_view(out@) =~= o0 + dynamic_params(nv.take(0)));
    for i in 0..names.len()
        invariant
            nv == strs_view(names@),
            params_view(out@) == o0 + dynamic_params(nv.take(i as int)),
    {
        let ghost o1 = out@;
        let p = Param { name: names[i].clone(), ty: Type::Dynamic, default: None };
        assert(p@ == dynamic_param(nv[i as int]));
        out.push(p);
        assert(params_view(out@) =~= params_view(o1).push(p@));
        assert(params_view(out@) =~= o0 + dynamic_params(nv.take(i + 1)));
    }
    assert(nv.take(nv.len() as int) =~= nv);
}

fn ident_list(names: Vec<String>) -> (r: Vec<Expr>)
    ensures
        exprs_view(r@) == idents(strs_view(names@)),
{
    let ghost nv = strs_view(names@);
    let mut r: Vec<Expr> = Vec::new();
    for i in 0..names.len()
        invariant
            nv == strs_view(names@),
            r@.len() == i,
            forall|k: int| 0 <= k < i ==> (#[trigger] r@[k])@ == ExprView::Ident(nv[k]),
    {
        r.push(Expr::Ident(names[i].clone()));
    }
    assert(exprs_view(r@) =~= idents(nv));
    r
}

fn make_fn(
    name: &str,
    captures: &Vec<String>,
    params: &Vec<String>,
    body: Vec<Stmt>,
    c: &NameSet,
) -> (r: FnDef)
    ensures
        r@ == lambda_fn(
            name@,
            strs_view(captures@),
            strs_view(params@),
            stmts_view(body@),
            c@,
        ),
{
    let mut body = body;
    if !c.is_empty() {
        cell_block(&mut body, c);
    }
    let mut own: Vec<Param> = Vec::new();
    assert(params_view(own@) =~= Seq::empty());
    push_params(&mut own, params);
    assert(params_view(own@) =~= dynamic_params(strs_view(params@)));
    let mut all = find_param_cells(&own, c);
    let ghost a0 = all@;
    let ghost b1 = body@;
    all.append(&mut body);
    assert(stmts_view(all@) =~= stmts_view(a0) + stmts_view(b1));
    let mut fn_params: Vec<Param> = Vec::new();
    assert(params_view(fn_params@) =~= Seq::empty());
    push_params(&mut fn_params, captures);
    push_params(&mut fn_params, params);
    assert(params_view(fn_params@) =~= dynamic_params(strs_view(captures@) + strs_view(params@)));
    FnDef {
        name: name.to_owned(),
        params: fn_params,
        ret: Type::Unknown,
        body: all,
        exported: false,
        is_method: false,
    }
}

fn replace_lambda(e: &mut Expr, c: &NameSet, n: &mut Lifter)
    requires
        *old(e) is Lambda,
    ensures
        (final(e)@, final(n)@) == lift_lambda(
            old(e)@->Lambda_params,
            old(e)@->Lambda_body,
            c@,
            old(n)@,
        ),
{
    let mut whole = Expr::Nil;
    std::mem::swap(e, &mut whole);
    match whole {
        Expr::Lambda { params, body } => {
            let captures = captures_of(&params, &body, &n.globals);
            let mut name = "__lambda_".to_owned();
            push_u64(&mut name, n.counter as u64);
            n.counter = if n.counter == u32::MAX {
                0
            } else {
                n.counter + 1
            };
            let ghost g0 = n.generated@;
            let def = make_fn(name.as_str(), &captures, &params, body, c);
            n.generated.push(def);
            assert(fns_view(n.generated@) =~= fns_view(g0).push(def@));
            if captures.len() == 0 {
                *e = Expr::Ident(name);
            } else {
                *e = Expr::Closure { fn_name: name, captures: ident_list(captures) };
            }
        },
        _ => {},
    }
}

#[verifier::rlimit(60)]
fn lift_expr(e: &mut Expr, c: &NameSet, n: &mut Lifter)
    ensures
        (final(e)@, final(n)@) == lf_expr(old(e)@, c@, old(n)@),
    decreases *old(e),
{
    let mut lambda = false;
    match e {
        Expr::Unary { expr, .. } => {
            lift_expr(expr, c, n);
        },
        Expr::Binary { lhs, rhs, .. } => {
            lift_expr(lhs, c, n);
            lift_expr(rhs, c, n);
        },
        Expr::Call { callee, args } => {
            lift_expr(callee, c, n);
            lift_exprs(args, c, n);
        },
        Expr::NamedCall { callee, args } => {
            lift_expr(callee, c, n);
            lift_named(args, c, n);
        },
        Expr::Method { obj, args, .. } => {
            lift_expr(obj, c, n);
            lift_exprs(args, c, n);
        },
        Expr::Field { obj, .. } => {
            lift_expr(obj, c, n);
        },
        Expr::Index { obj, index } => {
            lift_expr(obj, c, n);
            lift_expr(index, c, n);
        },
        Expr::List(p) => {
            lift_exprs(p, c, n);
        },
        Expr::MapLit(p) => {
            lift_pairs(p, c, n);
        },
        Expr::Range { lo, hi } => {
            lift_expr(lo, c, n);
            lift_expr(hi, c, n);
        },
        Expr::Slice { obj, lo, hi } => {
            lift_expr(obj, c, n);
            lift_optbox(lo, c, n);
            lift_optbox(hi, c, n);
        },
        Expr::IfElse { cond, then, els } => {
            lift_expr(cond, c, n);
            lift_expr(then, c, n);
            lift_expr(els, c, n);
        },
        Expr::FStr(p) => {
            lift_parts(p, c, n);
        },
        Expr::Lambda { body, .. } => {
            lift_block(body, c, n);
            lambda = true;
        },
        Expr::ListComp { elem, iter, cond, .. } => {
            lift_expr(elem, c, n);
            lift_expr(iter, c, n);
            lift_optbox(cond, c, n);
        },
        _ => {},
    }
    if lambda {
        replace_lambda(e, c, n);
    }
}

fn lift_exprs(v: &mut Vec<Expr>, c: &NameSet, n: &mut Lifter)
    ensures
        (exprs_view(final(v)@), final(n)@) == lf_exprs(exprs_view(old(v)@), c@, old(n)@),
    decreases *old(v),
{
    let ghost v0 = v@;
    let ghost s0 = exprs_view(v0);
    let ghost n0 = n@;
    let len: usize = v.len();
    assert(s0.take(0) =~= Seq::empty());
    assert(exprs_view(v@).take(0) =~= Seq::empty());
    let mut i: usize = 0;
    while i < len
        invariant
            i <= len,
            len == v@.len(),
            len == v0.len(),
            v0 == old(v)@,
            s0 == exprs_view(v0),
            (exprs_view(v@).take(i as int), n@) == lf_exprs(s0.take(i as int), c@, n0),
            tail_kept(v@, v0, i as int),
        decreases len - i,
    {
        let ghost t0 = exprs_view(v@).take(i as int);
        assert(s0.take(i + 1).drop_last() =~= s0.take(i as int));
        assert(s0.take(i + 1).last() == v0[i as int]@);
        lift_expr(&mut v[i], c, n);
        assert(exprs_view(v@).take(i + 1) =~= t0.push(v@[i as int]@));
        i += 1;
    }
    assert(s0.take(len as int) =~= s0);
    assert(exprs_view(v@).take(len as int) =~= exprs_view(v@));
}

fn lift_named(v: &mut Vec<(String, Expr)>, c: &NameSet, n: &mut Lifter)
    ensures
        (named_view(final(v)@), final(n)@) == lf_named(named_view(old(v)@), c@, old(n)@),
    decreases *old(v),
{
    let ghost v0 = v@;
    let ghost s0 = named_view(v0);
    let ghost n0 = n@;
    let len: usize = v.len();
    assert(s0.take(0) =~= Seq::empty());
    assert(named_view(v@).take(0) =~= Seq::empty());
    let mut i: usize = 0;
    while i < len
        invariant
            i <= len,
            len == v@.len(),
            len == v0.len(),
            v0 == old(v)@,
            s0 == named_view(v0),
            (named_view(v@).take(i as int), n@) == lf_named(s0.take(i as int), c@, n0),
            tail_kept(v@, v0, i as int),
        decreases len - i,
    {
        let ghost t0 = named_view(v@).take(i as int);
        assert(s0.take(i + 1).drop_last() =~= s0.take(i as int));
        assert(s0.take(i + 1).last() == (v0[i as int].0@, v0[i as int].1@));
        lift_expr(&mut v[i].1, c, n);
        assert(named_view(v@).take(i + 1) =~= t0.push((v@[i as int].0@, v@[i as int].1@)));
        i += 1;
    }
    assert(s0.take(len as int) =~= s0);
    assert(named_view(v@).take(len as int) =~= named_view(v@));
}

fn lift_pairs(v: &mut Vec<(Expr, Expr)>, c: &NameSet, n: &mut Lifter)
    ensures
        (pairs_view(final(v)@), final(n)@) == lf_pairs(pairs_view(old(v)@), c@, old(n)@),
    decreases *old(v),
{
    let ghost v0 = v@;
    let ghost s0 = pairs_view(v0);
    let ghost n0 = n@;
    let len: usize = v.len();
    assert(s0.take(0) =~= Seq::empty());
    assert(pairs_view(v@).take(0) =~= Seq::empty());
    let mut i: usize = 0;
    while i < len
        invariant
            i <= len,
            len == v@.len(),
            len == v0.len(),
            v0 == old(v)@,
            s0 == pairs_view(v0),
            (pairs_view(v@).take(i as int), n@) == lf_pairs(s0.take(i as int), c@, n0),
            tail_kept(v@, v0, i as int),
        decreases len - i,
    {
        let ghost t0 = pairs_view(v@).take(i as int);
        assert(s0.take(i + 1).drop_last() =~= s0.take(i as int));
        assert(s0.take(i + 1).last() == (v0[i as int].0@, v0[i as int].1@));
        let ghost k0 = v@[i as int].1;
        lift_expr(&mut v[i].0, c, n);
        assert(v@[i as int].1 == k0);
        lift_expr(&mut v[i].1, c, n);
        assert(pairs_view(v@).take(i + 1) =~= t0.push((v@[i as int].0@, v@[i as int].1@)));
        i += 1;
    }
    assert(s0.take(len as int) =~= s0);
    assert(pairs_view(v@).take(len as int) =~= pairs_view(v@));
}

fn lift_parts(v: &mut Vec<FStrPart>, c: &NameSet, n: &mut Lifter)
    ensures
        (parts_view(final(v)@), final(n)@) == lf_parts(parts_view(old(v)@), c@, old(n)@),
    decreases *old(v),
{
    let ghost v0 = v@;
    let ghost s0 = parts_view(v0);
    let ghost n0 = n@;
    let len: usize = v.len();
    assert(s0.take(0) =~= Seq::empty());
    assert(parts_view(v@).take(0) =~= Seq::empty());
    let mut i: usize = 0;
    while i < len
        invariant
            i <= len,
            len == v@.len(),
            len == v0.len(),
            v0 == old(v)@,
            s0 == parts_view(v0),
            (parts_view(v@).take(i as int), n@) == lf_parts(s0.take(i as int), c@, n0),
            tail_kept(v@, v0, i as int),
        decreases len - i,
    {
        let ghost t0 = parts_view(v@).take(i as int);
        assert(s0.take(i + 1).drop_last() =~= s0.take(i as int));
        assert(s0.take(i + 1).last() == v0[i as int]@);
        match &mut v[i] {
            FStrPart::Expr(e) => {
                lift_expr(e, c, n);
            },
            _ => {},
        }
        assert(parts_view(v@).take(i + 1) =~= t0.push(v@[i as int]@));
        i += 1;
    }
    assert(s0.take(len as int) =~= s0);
    assert(parts_view(v@).take(len as int) =~= parts_view(v@));
}

fn lift_stmt(s: &mut Stmt, c: &NameSet, n: &mut Lifter)
    ensures
        (final(s)@, final(n)@) == lf_stmt(old(s)@, c@, old(n)@),
    decreases *old(s),
{
    match s {
        Stmt::Let { value, .. } => {
            lift_expr(value, c, n);
        },
        Stmt::Assign { target, value } => {
            lift_expr(target, c, n);
            lift_expr(value, c, n);
        },
        Stmt::ExprStmt(p) => {
            lift_expr(p, c, n);
        },
        Stmt::Return(p) => {
            lift_opt(p, c, n);
        },
        Stmt::If { cond, then, elifs, els } => {
            lift_expr(cond, c, n);
            lift_block(then, c, n);
            lift_elifs(elifs, c, n);
            lift_optblock(els, c, n);
        },
        Stmt::While { cond, body } => {
            lift_expr(cond, c, n);
            lift_block(body, c, n);
        },
        Stmt::For { iter, body, .. } => {
            lift_expr(iter, c, n);
            lift_block(body, c, n);
        },
        Stmt::Try { body, catch_body, .. } => {
            lift_block(body, c, n);
            lift_block(catch_body, c, n);
        },
        Stmt::Raise(p) => {
            lift_expr(p, c, n);
        },
        _ => {},
    }
}

fn lift_block(v: &mut Vec<Stmt>, c: &NameSet, n: &mut Lifter)
    ensures
        (stmts_view(final(v)@), final(n)@) == lf_block(stmts_view(old(v)@), c@, old(n)@),
    decreases *old(v),
{
    let ghost v0 = v@;
    let ghost s0 = stmts_view(v0);
    let ghost n0 = n@;
    let len: usize = v.len();
    assert(s0.take(0) =~= Seq::empty());
    assert(stmts_view(v@).take(0) =~= Seq::empty());
    let mut i: usize = 0;
    while i < len
        invariant
            i <= len,
            len == v@.len(),
            len == v0.len(),
            v0 == old(v)@,
            s0 == stmts_view(v0),
            (stmts_view(v@).take(i as int), n@) == lf_block(s0.take(i as int), c@, n0),
            tail_kept(v@, v0, i as int),
        decreases len - i,
    {
        let ghost t0 = stmts_view(v@).take(i as int);
        assert(s0.take(i + 1).drop_last() =~= s0.take(i as int));
        assert(s0.take(i + 1).last() == v0[i as int]@);
        lift_stmt(&mut v[i], c, n);
        assert(stmts_view(v@).take(i + 1) =~= t0.push(v@[i as int]@));
        i += 1;
    }
    assert(s0.take(len as int) =~= s0);
    assert(stmts_view(v@).take(len as int) =~= stmts_view(v@));
}

fn lift_elifs(v: &mut Vec<(Expr, Vec<Stmt>)>, c: &NameSet, n: &mut Lifter)
    ensures
        (elifs_view(final(v)@), final(n)@) == lf_elifs(elifs_view(old(v)@), c@, old(n)@),
    decreases *old(v),
{
    let ghost v0 = v@;
    let ghost s0 = elifs_view(v0);
    let ghost n0 = n@;
    let len: usize = v.len();
    assert(s0.take(0) =~= Seq::empty());
    assert(elifs_view(v@).take(0) =~= Seq::empty());
    let mut i: usize = 0;
    while i < len
        invariant
            i <= len,
            len == v@.len(),
            len == v0.len(),
            v0 == old(v)@,
            s0 == elifs_view(v0),
            (elifs_view(v@).take(i as int), n@) == lf_elifs(s0.take(i as int), c@, n0),
            tail_kept(v@, v0, i as int),
        decreases len - i,
    {
        let ghost t0 = elifs_view(v@).take(i as int);
        assert(s0.take(i + 1).drop_last() =~= s0.take(i as int));
        assert(s0.take(i + 1).last() == (v0[i as int].0@, stmts_view(v0[i as int].1@)));
        let ghost k0 = v@[i as int].1;
        lift_expr(&mut v[i].0, c, n);
        assert(v@[i as int].1 == k0);
        lift_block(&mut v[i].1, c, n);
        assert(
            elifs_view(v@).take(i + 1) =~= t0.push((v@[i as int].0@, stmts_view(v@[i as int].1@)))
        );
        i += 1;
    }
    assert(s0.take(len as int) =~= s0);
    assert(elifs_view(v@).take(len as int) =~= elifs_view(v@));
}

fn lift_optbox(o: &mut Option<Box<Expr>>, c: &NameSet, n: &mut Lifter)
    ensures
        (optbox_view(*final(o)), final(n)@) == lf_optbox(optbox_view(*old(o)), c@, old(n)@),
    decreases *old(o),
{
    match o {
        Some(p) => {
            lift_expr(p, c, n);
        },
        None => {},
    }
}

fn lift_opt(o: &mut Option<Expr>, c: &NameSet, n: &mut Lifter)
    ensures
        (opt_view(*final(o)), final(n)@) == lf_opt(opt_view(*old(o)), c@, old(n)@),
    decreases *old(o),
{
    match o {
        Some(p) => {
            lift_expr(p, c, n);
        },
        None => {},
    }
}

fn lift_optblock(o: &mut Option<Vec<Stmt>>, c: &NameSet, n: &mut Lifter)
    ensures
        (optblock_view(*final(o)), final(n)@) == lf_optblock(optblock_view(*old(o)), c@, old(n)@),
    decreases *old(o),
{
    match o {
        Some(p) => {
            lift_block(p, c, n);
        },
        None => {},
    }
}

fn find_celled(body: &Vec<Stmt>, g: &NameSet) -> (r: NameSet)
    ensures
        r@ == celled(stmts_view(body@), g@),
{
    let mut captured = NameSet::new();
    let mut assigned = NameSet::new();
    captured_block(body, g, &mut captured);
    assigned_block(body, &mut assigned);
    captured.intersection(&assigned)
}

fn find_param_cells(ps: &Vec<Param>, c: &NameSet) -> (r: Vec<Stmt>)
    ensures
        stmts_view(r@) == param_cells(params_view(ps@), c@),
{
    let mut out: Vec<Stmt> = Vec::new();
    let ghost s0 = params_view(ps@);
    assert(s0.take(0) =~= Seq::empty());
    assert(stmts_view(out@) =~= Seq::empty());
    for i in 0..ps.len()
        invariant
            s0 == params_view(ps@),
            stmts_view(out@) == param_cells(s0.take(i as int), c@),
    {
        assert(s0.take(i + 1).drop_last() =~= s0.take(i as int));
        assert(s0.take(i + 1).last() == ps@[i as int]@);
        let name = ps[i].name.as_str();
        if c.contains(name) {
            let ghost o0 = out@;
            let x = make_opening(name, name);
            out.push(x);
            assert(stmts_view(out@) =~= stmts_view(o0).push(x@));
        }
    }
    assert(s0.take(s0.len() as int) =~= s0);
    out
}

fn process_default(o: &mut Option<Expr>, n: &mut Lifter)
    ensures
        (opt_view(*final(o)), final(n)@) == lift_default(opt_view(*old(o)), old(n)@),
{
    let mut captured = NameSet::new();
    let mut assigned = NameSet::new();
    captured_opt(o, &n.globals, &mut captured);
    assigned_opt(o, &mut assigned);
    let c = captured.intersection(&assigned);
    cell_opt(o, &c);
    lift_opt(o, &c, n);
}

fn process_params(v: &mut Vec<Param>, n: &mut Lifter)
    ensures
        (params_view(final(v)@), final(n)@) == lift_params(params_view(old(v)@), old(n)@),
{
    let ghost v0 = v@;
    let ghost s0 = params_view(v0);
    let ghost n0 = n@;
    let len: usize = v.len();
    assert(s0.take(0) =~= Seq::empty());
    assert(params_view(v@).take(0) =~= Seq::empty());
    for i in 0..len
        invariant
            len == v@.len(),
            len == v0.len(),
            s0 == params_view(v0),
            (params_view(v@).take(i as int), n@) == lift_params(s0.take(i as int), n0),
            tail_kept(v@, v0, i as int),
    {
        let ghost t0 = params_view(v@).take(i as int);
        assert(s0.take(i + 1).drop_last() =~= s0.take(i as int));
        assert(s0.take(i + 1).last() == v0[i as int]@);
        process_default(&mut v[i].default, n);
        assert(params_view(v@).take(i + 1) =~= t0.push(v@[i as int]@));
    }
    assert(s0.take(len as int) =~= s0);
    assert(params_view(v@).take(len as int) =~= params_view(v@));
}

fn process_unit(f: &mut FnDef, n: &mut Lifter)
    ensures
        (final(f)@, final(n)@) == lift_unit(old(f)@, old(n)@),
{
    let c = find_celled(&f.body, &n.globals);
    let mut all = find_param_cells(&f.params, &c);
    process_params(&mut f.params, n);
    if !c.is_empty() {
        cell_block(&mut f.body, &c);
    }
    let ghost a0 = all@;
    let ghost b0 = f.body@;
    all.append(&mut f.body);
    assert(stmts_view(all@) =~= stmts_view(a0) + stmts_view(b0));
    lift_block(&mut all, &c, n);
    f.body = all;
}

fn process_methods(v: &mut Vec<FnDef>, n: &mut Lifter)
    ensures
        (fns_view(final(v)@), final(n)@) == lift_methods(fns_view(old(v)@), old(n)@),
{
    let ghost v0 = v@;
    let ghost s0 = fns_view(v0);
    let ghost n0 = n@;
    let len: usize = v.len();
    assert(s0.take(0) =~= Seq::empty());
    assert(fns_view(v@).take(0) =~= Seq::empty());
    let mut i: usize = 0;
    while i < len
        invariant
            i <= len,
            len == v@.len(),
            len == v0.len(),
            s0 == fns_view(v0),
            (fns_view(v@).take(i as int), n@) == lift_methods(s0.take(i as int), n0),
            tail_kept(v@, v0, i as int),
        decreases len - i,
    {
        let ghost t0 = fns_view(v@).take(i as int);
        assert(s0.take(i + 1).drop_last() =~= s0.take(i as int));
        assert(s0.take(i + 1).last() == v0[i as int]@);
        process_unit(&mut v[i], n);
        assert(fns_view(v@).take(i + 1) =~= t0.push(v@[i as int]@));
        i += 1;
    }
    assert(s0.take(len as int) =~= s0);
    assert(fns_view(v@).take(len as int) =~= fns_view(v@));
}

fn process_units(v: &mut Vec<Item>, n: &mut Lifter)
    ensures
        (prog_view(final(v)@), final(n)@) == lift_units(prog_view(old(v)@), old(n)@),
{
    let ghost v0 = v@;
    let ghost s0 = prog_view(v0);
    let ghost n0 = n@;
    let len: usize = v.len();
    assert(s0.take(0) =~= Seq::empty());
    assert(prog_view(v@).take(0) =~= Seq::empty());
    let mut i: usize = 0;
    while i < len
        invariant
            i <= len,
            len == v@.len(),
            len == v0.len(),
            s0 == prog_view(v0),
            (prog_view(v@).take(i as int), n@) == lift_units(s0.take(i as int), n0),
            tail_kept(v@, v0, i as int),
        decreases len - i,
    {
        let ghost t0 = prog_view(v@).take(i as int);
        assert(s0.take(i + 1).drop_last() =~= s0.take(i as int));
        assert(s0.take(i + 1).last() == v0[i as int]@);
        match &mut v[i] {
            Item::Fn(f) => process_unit(f, n),
            Item::Struct(d) => process_methods(&mut d.methods, n),
            _ => {},
        }
        assert(prog_view(v@).take(i + 1) =~= t0.push(v@[i as int]@));
        i += 1;
    }
    assert(s0.take(len as int) =~= s0);
    assert(prog_view(v@).take(len as int) =~= prog_view(v@));
}

/// The variables of the statements at the top that need a cell.
fn find_celled_tops(v: &Vec<Item>, g: &NameSet) -> (r: NameSet)
    ensures
        r@ == celled(top_stmts(prog_view(v@)), g@),
{
    let mut captured = NameSet::new();
    let mut assigned = NameSet::new();
    let ghost s0 = prog_view(v@);
    assert(s0.take(0) =~= Seq::empty());
    for i in 0..v.len()
        invariant
            s0 == prog_view(v@),
            captured@ == capt_block(top_stmts(s0.take(i as int)), g@, Set::empty()),
            assigned@ == asg_block(top_stmts(s0.take(i as int)), Set::empty()),
    {
        let ghost t0 = top_stmts(s0.take(i as int));
        assert(s0.take(i + 1).drop_last() =~= s0.take(i as int));
        assert(s0.take(i + 1).last() == v@[i as int]@);
        if let Item::Stmt(s) = &v[i] {
            captured_stmt(s, g, &mut captured);
            assigned_stmt(s, &mut assigned);
            assert(t0.push(s@).drop_last() =~= t0);
        }
    }
    assert(s0.take(s0.len() as int) =~= s0);
    captured.intersection(&assigned)
}

fn process_tops(v: &mut Vec<Item>, c: &NameSet, n: &mut Lifter)
    ensures
        (prog_view(final(v)@), final(n)@) == lift_tops(prog_view(old(v)@), c@, old(n)@),
{
    let ghost v0 = v@;
    let ghost s0 = prog_view(v0);
    let ghost n0 = n@;
    let len: usize = v.len();
    assert(s0.take(0) =~= Seq::empty());
    assert(prog_view(v@).take(0) =~= Seq::empty());
    let none = c.is_empty();
    let mut i: usize = 0;
    while i < len
        invariant
            i <= len,
            len == v@.len(),
            len == v0.len(),
            s0 == prog_view(v0),
            none == (c@ == Set::<Seq<char>>::empty()),
            (prog_view(v@).take(i as int), n@) == lift_tops(s0.take(i as int), c@, n0),
            tail_kept(v@, v0, i as int),
        decreases len - i,
    {
        let ghost t0 = prog_view(v@).take(i as int);
        assert(s0.take(i + 1).drop_last() =~= s0.take(i as int));
        assert(s0.take(i + 1).last() == v0[i as int]@);
        match &mut v[i] {
            Item::Stmt(s) => {
                if !none {
                    cell_stmt(s, c);
                }
                lift_stmt(s, c, n);
            },
            _ => {},
        }
        assert(prog_view(v@).take(i + 1) =~= t0.push(v@[i as int]@));
        i += 1;
    }
    assert(s0.take(len as int) =~= s0);
    assert(prog_view(v@).take(len as int) =~= prog_view(v@));
}

fn find_fns(v: &Vec<Item>) -> (r: NameSet)
    ensures
        r@ == fn_names(prog_view(v@)),
{
    let mut g = NameSet::new();
    let ghost s0 = prog_view(v@);
    assert(s0.take(0) =~= Seq::empty());
    for i in 0..v.len()
        invariant
            s0 == prog_view(v@),
            g@ == fn_names(s0.take(i as int)),
    {
        assert(s0.take(i + 1).drop_last() =~= s0.take(i as int));
        assert(s0.take(i + 1).last() == v@[i as int]@);
        if let Item::Fn(f) = &v[i] {
            g.insert(f.name.as_str());
        }
    }
    assert(s0.take(s0.len() as int) =~= s0);
    g
}

/// Lifts every lambda of a program.
pub fn lift_program(prog: &mut Vec<Item>)
    ensures
        prog_view(final(prog)@) == lifted(prog_view(old(prog)@)),
{
    let globals = find_fns(prog);
    let mut n = Lifter { counter: 0, generated: Vec::new(), globals };
    assert(fns_view(n.generated@) =~= Seq::empty());
    process_units(prog, &mut n);
    let c = find_celled_tops(prog, &n.globals);
    process_tops(prog, &c, &mut n);
    let ghost p0 = prog_view(prog@);
    let ghost gv = fns_view(n.generated@);
    let Lifter { counter: _, generated, globals: _ } = n;
    let ghost g0 = generated@;
    assert(prog_view(prog@) =~= p0 + fn_items(gv.take(0)));
    for f in it: generated
        invariant
            it.seq() == g0,
            gv == fns_view(g0),
            prog_view(prog@) == p0 + fn_items(gv.take(it.index() as int)),
    {
        let ghost p1 = prog@;
        assert(f@ == gv[it.index() as int]);
        prog.push(Item::Fn(f));
        assert(prog_view(prog@) =~= prog_view(p1).push(ItemView::Fn(f@)));
        assert(prog_view(prog@) =~= p0 + fn_items(gv.take(it.index() + 1)));
    }
    assert(gv.take(gv.len() as int) =~= gv);
}

} // verus!
