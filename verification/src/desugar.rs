//! Desugaring: `xs.map(f)` and `xs.filter(f)` become list comprehensions.

use crate::ast::{
    elifs_view, exprs_view, fns_view, named_view, opt_view, optblock_view, optbox_view, pairs_view,
    params_view, parts_view, prog_view, stmts_view, tail_kept, Expr, ExprView, FStrPart,
    FStrPartView, FnDef, FnDefView, Item, ItemView, Param, ParamView, Stmt, StmtView, StructDefView,
};
use crate::lexer::{chars_of, in_class, Class};
use crate::text::{dec_nat, digit, push_u64, str_eq};
use crate::walk::{
    every_block, every_default, every_elifs, every_expr, every_exprs, every_fn, every_item,
    every_method, every_named, every_opt, every_optblock, every_optbox, every_pairs, every_parts,
    every_stmt, everywhere, Prop,
};
use vstd::prelude::*;

verus! {

/// The next number for a variable. (It starts over once it is used up.)
pub open spec fn next_number(n: u64) -> u64 {
    if n == u64::MAX {
        0
    } else {
        (n + 1) as u64
    }
}

/// The variable of the comprehension with number `n`; no source program can spell it.
pub open spec fn comp_var(n: u64) -> Seq<char> {
    "#mf"@ + dec_nat(n as nat)
}

pub open spec fn is_map_or_filter(name: Seq<char>, args: Seq<ExprView>) -> bool {
    args.len() == 1 && (name == "map"@ || name == "filter"@)
}

/// `obj.map(f)` is `[f(v) for v in obj]`, `obj.filter(f)` is `[v for v in obj if f(v)]`;
/// any other call stays.
pub open spec fn lower_method(obj: ExprView, name: Seq<char>, args: Seq<ExprView>, n: u64) -> (
    ExprView,
    u64,
) {
    if is_map_or_filter(name, args) {
        let m = next_number(n);
        let var = comp_var(m);
        let call_f = ExprView::Call {
            callee: Box::new(args[0]),
            args: seq![ExprView::Ident(var)],
        };
        if name == "map"@ {
            (
                ExprView::ListComp {
                    elem: Box::new(call_f),
                    var,
                    iter: Box::new(obj),
                    cond: None,
                },
                m,
            )
        } else {
            (
                ExprView::ListComp {
                    elem: Box::new(ExprView::Ident(var)),
                    var,
                    iter: Box::new(obj),
                    cond: Some(Box::new(call_f)),
                },
                m,
            )
        }
    } else {
        (ExprView::Method { obj: Box::new(obj), name, args }, n)
    }
}

/// Lowers every `map` and `filter` call in an expression, inner ones first, in lambdas
/// too.
pub open spec fn ds_expr(e: ExprView, n: u64) -> (ExprView, u64)
    decreases e,
{
    match e {
        ExprView::Unary { op, expr } => {
            let (expr1, n1) = ds_expr(*expr, n);
            (ExprView::Unary { op, expr: Box::new(expr1) }, n1)
        },
        ExprView::Binary { op, lhs, rhs } => {
            let (lhs1, n1) = ds_expr(*lhs, n);
            let (rhs2, n2) = ds_expr(*rhs, n1);
            (ExprView::Binary { op, lhs: Box::new(lhs1), rhs: Box::new(rhs2) }, n2)
        },
        ExprView::Call { callee, args } => {
            let (callee1, n1) = ds_expr(*callee, n);
            let (args2, n2) = ds_exprs(args, n1);
            (ExprView::Call { callee: Box::new(callee1), args: args2 }, n2)
        },
        ExprView::NamedCall { callee, args } => {
            let (callee1, n1) = ds_expr(*callee, n);
            let (args2, n2) = ds_named(args, n1);
            (ExprView::NamedCall { callee: Box::new(callee1), args: args2 }, n2)
        },
        ExprView::Method { obj, name, args } => {
            let (obj1, n1) = ds_expr(*obj, n);
            let (args1, n2) = ds_exprs(args, n1);
            lower_method(obj1, name, args1, n2)
        },
        ExprView::Field { obj, name } => {
            let (obj1, n1) = ds_expr(*obj, n);
            (ExprView::Field { obj: Box::new(obj1), name }, n1)
        },
        ExprView::Index { obj, index } => {
            let (obj1, n1) = ds_expr(*obj, n);
            let (index2, n2) = ds_expr(*index, n1);
            (ExprView::Index { obj: Box::new(obj1), index: Box::new(index2) }, n2)
        },
        ExprView::Slice { obj, lo, hi } => {
            let (obj1, n1) = ds_expr(*obj, n);
            let (lo2, n2) = ds_optbox(lo, n1);
            let (hi3, n3) = ds_optbox(hi, n2);
            (ExprView::Slice { obj: Box::new(obj1), lo: lo2, hi: hi3 }, n3)
        },
        ExprView::List(p) => {
            let (p1, n1) = ds_exprs(p, n);
            (ExprView::List(p1), n1)
        },
        ExprView::MapLit(p) => {
            let (p1, n1) = ds_pairs(p, n);
            (ExprView::MapLit(p1), n1)
        },
        ExprView::Range { lo, hi } => {
            let (lo1, n1) = ds_expr(*lo, n);
            let (hi2, n2) = ds_expr(*hi, n1);
            (ExprView::Range { lo: Box::new(lo1), hi: Box::new(hi2) }, n2)
        },
        ExprView::IfElse { cond, then, els } => {
            let (cond1, n1) = ds_expr(*cond, n);
            let (then2, n2) = ds_expr(*then, n1);
            let (els3, n3) = ds_expr(*els, n2);
            (
                ExprView::IfElse {
                    cond: Box::new(cond1),
                    then: Box::new(then2),
                    els: Box::new(els3),
                },
                n3,
            )
        },
        ExprView::ListComp { elem, var, iter, cond } => {
            let (elem1, n1) = ds_expr(*elem, n);
            let (iter2, n2) = ds_expr(*iter, n1);
            let (cond3, n3) = ds_optbox(cond, n2);
            (
                ExprView::ListComp {
                    elem: Box::new(elem1),
                    var,
                    iter: Box::new(iter2),
                    cond: cond3,
                },
                n3,
            )
        },
        ExprView::FStr(p) => {
            let (p1, n1) = ds_parts(p, n);
            (ExprView::FStr(p1), n1)
        },
        ExprView::Lambda { params, body } => {
            let (body1, n1) = ds_block(body, n);
            (ExprView::Lambda { params, body: body1 }, n1)
        },
        ExprView::Closure { fn_name, captures } => {
            let (captures1, n1) = ds_exprs(captures, n);
            (ExprView::Closure { fn_name, captures: captures1 }, n1)
        },
        _ => (e, n),
    }
}

pub open spec fn ds_optbox(o: Option<Box<ExprView>>, n: u64) -> (Option<Box<ExprView>>, u64)
    decreases o,
{
    match o {
        Some(e) => {
            let (x, m) = ds_expr(*e, n);
            (Some(Box::new(x)), m)
        },
        None => (None, n),
    }
}

pub open spec fn ds_opt(o: Option<ExprView>, n: u64) -> (Option<ExprView>, u64)
    decreases o,
{
    match o {
        Some(e) => {
            let (x, m) = ds_expr(e, n);
            (Some(x), m)
        },
        None => (None, n),
    }
}

pub open spec fn ds_exprs(s: Seq<ExprView>, n: u64) -> (Seq<ExprView>, u64)
    decreases s,
{
    if s.len() == 0 {
        (s, n)
    } else {
        let (init, n1) = ds_exprs(s.drop_last(), n);
        let (y, m) = ds_expr(s.last(), n1);
        (init.push(y), m)
    }
}

pub open spec fn ds_named(
    s: Seq<(Seq<char>, ExprView)>,
    n: u64,
) -> (Seq<(Seq<char>, ExprView)>, u64)
    decreases s,
{
    if s.len() == 0 {
        (s, n)
    } else {
        let (init, n1) = ds_named(s.drop_last(), n);
        let (y, m) = ds_expr(s.last().1, n1);
        (init.push((s.last().0, y)), m)
    }
}

pub open spec fn ds_pairs(s: Seq<(ExprView, ExprView)>, n: u64) -> (Seq<(ExprView, ExprView)>, u64)
    decreases s,
{
    if s.len() == 0 {
        (s, n)
    } else {
        let (init, n1) = ds_pairs(s.drop_last(), n);
        let (y, m1) = ds_expr(s.last().0, n1);
        let (z, m) = ds_expr(s.last().1, m1);
        (init.push((y, z)), m)
    }
}

pub open spec fn ds_parts(s: Seq<FStrPartView>, n: u64) -> (Seq<FStrPartView>, u64)
    decreases s,
{
    if s.len() == 0 {
        (s, n)
    } else {
        let (init, n1) = ds_parts(s.drop_last(), n);
        let (y, m) = match s.last() {
            FStrPartView::Expr(e) => {
                let (z, m) = ds_expr(e, n1);
                (FStrPartView::Expr(z), m)
            },
            p => (p, n1),
        };
        (init.push(y), m)
    }
}

/// Lowers the calls in a statement, in the order in which they are written.
pub open spec fn ds_stmt(s: StmtView, n: u64) -> (StmtView, u64)
    decreases s,
{
    match s {
        StmtView::Let { name, mutable, ty, value } => {
            let (value1, n1) = ds_expr(value, n);
            (StmtView::Let { name, mutable, ty, value: value1 }, n1)
        },
        StmtView::Assign { target, value } => {
            let (target1, n1) = ds_expr(target, n);
            let (value2, n2) = ds_expr(value, n1);
            (StmtView::Assign { target: target1, value: value2 }, n2)
        },
        StmtView::ExprStmt(p) => {
            let (p1, n1) = ds_expr(p, n);
            (StmtView::ExprStmt(p1), n1)
        },
        StmtView::Return(p) => {
            let (p1, n1) = ds_opt(p, n);
            (StmtView::Return(p1), n1)
        },
        StmtView::If { cond, then, elifs, els } => {
            let (cond1, n1) = ds_expr(cond, n);
            let (then2, n2) = ds_block(then, n1);
            let (elifs3, n3) = ds_elifs(elifs, n2);
            let (els4, n4) = ds_optblock(els, n3);
            (StmtView::If { cond: cond1, then: then2, elifs: elifs3, els: els4 }, n4)
        },
        StmtView::While { cond, body } => {
            let (cond1, n1) = ds_expr(cond, n);
            let (body2, n2) = ds_block(body, n1);
            (StmtView::While { cond: cond1, body: body2 }, n2)
        },
        StmtView::For { var, iter, body } => {
            let (iter1, n1) = ds_expr(iter, n);
            let (body2, n2) = ds_block(body, n1);
            (StmtView::For { var, iter: iter1, body: body2 }, n2)
        },
        StmtView::Try { body, catch_var, catch_body } => {
            let (body1, n1) = ds_block(body, n);
            let (catch_body2, n2) = ds_block(catch_body, n1);
            (StmtView::Try { body: body1, catch_var, catch_body: catch_body2 }, n2)
        },
        StmtView::Raise(p) => {
            let (p1, n1) = ds_expr(p, n);
            (StmtView::Raise(p1), n1)
        },
        _ => (s, n),
    }
}

pub open spec fn ds_block(s: Seq<StmtView>, n: u64) -> (Seq<StmtView>, u64)
    decreases s,
{
    if s.len() == 0 {
        (s, n)
    } else {
        let (init, n1) = ds_block(s.drop_last(), n);
        let (y, m) = ds_stmt(s.last(), n1);
        (init.push(y), m)
    }
}

pub open spec fn ds_elifs(
    s: Seq<(ExprView, Seq<StmtView>)>,
    n: u64,
) -> (Seq<(ExprView, Seq<StmtView>)>, u64)
    decreases s,
{
    if s.len() == 0 {
        (s, n)
    } else {
        let (init, n1) = ds_elifs(s.drop_last(), n);
        let (y, m1) = ds_expr(s.last().0, n1);
        let (z, m) = ds_block(s.last().1, m1);
        (init.push((y, z)), m)
    }
}

pub open spec fn ds_optblock(o: Option<Seq<StmtView>>, n: u64) -> (Option<Seq<StmtView>>, u64)
    decreases o,
{
    match o {
        Some(b) => {
            let (x, m) = ds_block(b, n);
            (Some(x), m)
        },
        None => (None, n),
    }
}

pub open spec fn ds_params(s: Seq<ParamView>, n: u64) -> (Seq<ParamView>, u64)
    decreases s.len(),
{
    if s.len() == 0 {
        (s, n)
    } else {
        let (init, n1) = ds_params(s.drop_last(), n);
        let (default, m) = ds_opt(s.last().default, n1);
        (init.push(ParamView { default, ..s.last() }), m)
    }
}

/// Lowers the calls in the defaults and the body of a function.
pub open spec fn ds_fn(f: FnDefView, n: u64) -> (FnDefView, u64) {
    let (params, n1) = ds_params(f.params, n);
    let (body, m) = ds_block(f.body, n1);
    (FnDefView { params, body, ..f }, m)
}

pub open spec fn ds_methods(s: Seq<FnDefView>, n: u64) -> (Seq<FnDefView>, u64)
    decreases s.len(),
{
    if s.len() == 0 {
        (s, n)
    } else {
        let (init, n1) = ds_methods(s.drop_last(), n);
        let (f, m) = ds_fn(s.last(), n1);
        (init.push(f), m)
    }
}

pub open spec fn ds_item(i: ItemView, n: u64) -> (ItemView, u64) {
    match i {
        ItemView::Fn(f) => {
            let (g, m) = ds_fn(f, n);
            (ItemView::Fn(g), m)
        },
        ItemView::Struct(s) => {
            let (methods, m) = ds_methods(s.methods, n);
            (ItemView::Struct(StructDefView { methods, ..s }), m)
        },
        ItemView::Stmt(s) => {
            let (t, m) = ds_stmt(s, n);
            (ItemView::Stmt(t), m)
        },
        _ => (i, n),
    }
}

pub open spec fn ds_items(s: Seq<ItemView>, n: u64) -> (Seq<ItemView>, u64)
    decreases s.len(),
{
    if s.len() == 0 {
        (s, n)
    } else {
        let (init, n1) = ds_items(s.drop_last(), n);
        let (i, m) = ds_item(s.last(), n1);
        (init.push(i), m)
    }
}

fn rewrite_method(e: &mut Expr, n: &mut u64)
    requires
        *old(e) is Method,
        is_map_or_filter(old(e)@->Method_name, old(e)@->Method_args),
    ensures
        ({
            let o = old(e)@;
            (final(e)@, *final(n)) == lower_method(
                *o->Method_obj,
                o->Method_name,
                o->Method_args,
                *old(n),
            )
        }),
{
    let mut whole = Expr::Nil;
    std::mem::swap(e, &mut whole);
    match whole {
        Expr::Method { obj, name, args } => {
            let ghost a0 = args@;
            let mut args = args;
            *n = if *n == u64::MAX {
                0
            } else {
                *n + 1
            };
            let mut var = "#mf".to_owned();
            push_u64(&mut var, *n);
            assert(exprs_view(a0).len() == a0.len());
            assert(exprs_view(a0)[0] == a0[0]@);
            let f = args.swap_remove(0);
            let one: Vec<Expr> = vec![Expr::Ident(var.clone())];
            assert(exprs_view(one@) =~= seq![ExprView::Ident(var@)]);
            let call_f = Expr::Call { callee: Box::new(f), args: one };
            assert(call_f@ == ExprView::Call {
                callee: Box::new(f@),
                args: seq![ExprView::Ident(var@)],
            });
            if str_eq(name.as_str(), "map") {
                assert(optbox_view(None) == None::<Box<ExprView>>);
                *e = Expr::ListComp { elem: Box::new(call_f), var, iter: obj, cond: None };
            } else {
                let elem = Expr::Ident(var.clone());
                assert(elem@ == ExprView::Ident(var@));
                let cond = Some(Box::new(call_f));
                assert(optbox_view(cond) == Some(Box::new(call_f@)));
                *e = Expr::ListComp { elem: Box::new(elem), var, iter: obj, cond };
            }
        },
        _ => {},
    }
}

#[verifier::rlimit(60)]
fn desugar_expr(e: &mut Expr, n: &mut u64)
    ensures
        (final(e)@, *final(n)) == ds_expr(old(e)@, *old(n)),
    decreases *old(e),
{
    let mut lower = false;
    match e {
        Expr::Unary { expr, .. } => {
            desugar_expr(expr, n);
        },
        Expr::Binary { lhs, rhs, .. } => {
            desugar_expr(lhs, n);
            desugar_expr(rhs, n);
        },
        Expr::Call { callee, args } => {
            desugar_expr(callee, n);
            desugar_exprs(args, n);
        },
        Expr::NamedCall { callee, args } => {
            desugar_expr(callee, n);
            desugar_named(args, n);
        },
        Expr::Method { obj, name, args } => {
            desugar_expr(obj, n);
            desugar_exprs(args, n);
            lower = args.len() == 1 && (str_eq(name.as_str(), "map") || str_eq(
                name.as_str(),
                "filter",
            ));
            assert(exprs_view(args@).len() == args@.len());
        },
        Expr::Field { obj, .. } => {
            desugar_expr(obj, n);
        },
        Expr::Index { obj, index } => {
            desugar_expr(obj, n);
            desugar_expr(index, n);
        },
        Expr::Slice { obj, lo, hi } => {
            desugar_expr(obj, n);
            desugar_optbox(lo, n);
            desugar_optbox(hi, n);
        },
        Expr::List(p) => {
            desugar_exprs(p, n);
        },
        Expr::MapLit(p) => {
            desugar_pairs(p, n);
        },
        Expr::Range { lo, hi } => {
            desugar_expr(lo, n);
            desugar_expr(hi, n);
        },
        Expr::IfElse { cond, then, els } => {
            desugar_expr(cond, n);
            desugar_expr(then, n);
            desugar_expr(els, n);
        },
        Expr::ListComp { elem, iter, cond, .. } => {
            desugar_expr(elem, n);
            desugar_expr(iter, n);
            desugar_optbox(cond, n);
        },
        Expr::FStr(p) => {
            desugar_parts(p, n);
        },
        Expr::Lambda { body, .. } => {
            desugar_block(body, n);
        },
        Expr::Closure { captures, .. } => {
            desugar_exprs(captures, n);
        },
        _ => {},
    }
    if lower {
        rewrite_method(e, n);
    }
}

fn desugar_exprs(v: &mut Vec<Expr>, n: &mut u64)
    ensures
        (exprs_view(final(v)@), *final(n)) == ds_exprs(exprs_view(old(v)@), *old(n)),
    decreases *old(v),
{
    let ghost v0 = v@;
    let ghost s0 = exprs_view(v0);
    let ghost n0 = *n;
    let len: usize = v.len();
    assert(s0.take(0) =~= Seq::empty());
    assert(exprs_view(v@).take(0) =~= Seq::empty());
    let mut i: usize = 0;
    while i < len
        invariant
            i <= len,
            len == v@.len(),
            len == v0.len(),
            v0 == old(v)@,
            s0 == exprs_view(v0),
            (exprs_view(v@).take(i as int), *n) == ds_exprs(s0.take(i as int), n0),
            tail_kept(v@, v0, i as int),
        decreases len - i,
    {
        let ghost t0 = exprs_view(v@).take(i as int);
        assert(s0.take(i + 1).drop_last() =~= s0.take(i as int));
        assert(s0.take(i + 1).last() == v0[i as int]@);
        desugar_expr(&mut v[i], n);
        assert(exprs_view(v@).take(i + 1) =~= t0.push(v@[i as int]@));
        i += 1;
    }
    assert(s0.take(len as int) =~= s0);
    assert(exprs_view(v@).take(len as int) =~= exprs_view(v@));
}

fn desugar_named(v: &mut Vec<(String, Expr)>, n: &mut u64)
    ensures
        (named_view(final(v)@), *final(n)) == ds_named(named_view(old(v)@), *old(n)),
    decreases *old(v),
{
    let ghost v0 = v@;
    let ghost s0 = named_view(v0);
    let ghost n0 = *n;
    let len: usize = v.len();
    assert(s0.take(0) =~= Seq::empty());
    assert(named_view(v@).take(0) =~= Seq::empty());
    let mut i: usize = 0;
    while i < len
        invariant
            i <= len,
            len == v@.len(),
            len == v0.len(),
            v0 == old(v)@,
            s0 == named_view(v0),
            (named_view(v@).take(i as int), *n) == ds_named(s0.take(i as int), n0),
            tail_kept(v@, v0, i as int),
        decreases len - i,
    {
        let ghost t0 = named_view(v@).take(i as int);
        assert(s0.take(i + 1).drop_last() =~= s0.take(i as int));
        assert(s0.take(i + 1).last() == (v0[i as int].0@, v0[i as int].1@));
        desugar_expr(&mut v[i].1, n);
        assert(named_view(v@).take(i + 1) =~= t0.push((v@[i as int].0@, v@[i as int].1@)));
        i += 1;
    }
    assert(s0.take(len as int) =~= s0);
    assert(named_view(v@).take(len as int) =~= named_view(v@));
}

fn desugar_pairs(v: &mut Vec<(Expr, Expr)>, n: &mut u64)
    ensures
        (pairs_view(final(v)@), *final(n)) == ds_pairs(pairs_view(old(v)@), *old(n)),
    decreases *old(v),
{
    let ghost v0 = v@;
    let ghost s0 = pairs_view(v0);
    let ghost n0 = *n;
    let len: usize = v.len();
    assert(s0.take(0) =~= Seq::empty());
    assert(pairs_view(v@).take(0) =~= Seq::empty());
    let mut i: usize = 0;
    while i < len
        invariant
            i <= len,
            len == v@.len(),
            len == v0.len(),
            v0 == old(v)@,
            s0 == pairs_view(v0),
            (pairs_view(v@).take(i as int), *n) == ds_pairs(s0.take(i as int), n0),
            tail_kept(v@, v0, i as int),
        decreases len - i,
    {
        let ghost t0 = pairs_view(v@).take(i as int);
        assert(s0.take(i + 1).drop_last() =~= s0.take(i as int));
        assert(s0.take(i + 1).last() == (v0[i as int].0@, v0[i as int].1@));
        let ghost k0 = v@[i as int].1;
        desugar_expr(&mut v[i].0, n);
        assert(v@[i as int].1 == k0);
        desugar_expr(&mut v[i].1, n);
        assert(pairs_view(v@).take(i + 1) =~= t0.push((v@[i as int].0@, v@[i as int].1@)));
        i += 1;
    }
    assert(s0.take(len as int) =~= s0);
    assert(pairs_view(v@).take(len as int) =~= pairs_view(v@));
}

fn desugar_parts(v: &mut Vec<FStrPart>, n: &mut u64)
    ensures
        (parts_view(final(v)@), *final(n)) == ds_parts(parts_view(old(v)@), *old(n)),
    decreases *old(v),
{
    let ghost v0 = v@;
    let ghost s0 = parts_view(v0);
    let ghost n0 = *n;
    let len: usize = v.len();
    assert(s0.take(0) =~= Seq::empty());
    assert(parts_view(v@).take(0) =~= Seq::empty());
    let mut i: usize = 0;
    while i < len
        invariant
            i <= len,
            len == v@.len(),
            len == v0.len(),
            v0 == old(v)@,
            s0 == parts_view(v0),
            (parts_view(v@).take(i as int), *n) == ds_parts(s0.take(i as int), n0),
            tail_kept(v@, v0, i as int),
        decreases len - i,
    {
        let ghost t0 = parts_view(v@).take(i as int);
        assert(s0.take(i + 1).drop_last() =~= s0.take(i as int));
        assert(s0.take(i + 1).last() == v0[i as int]@);
        match &mut v[i] {
            FStrPart::Expr(e) => {
                desugar_expr(e, n);
            },
            _ => {},
        }
        assert(parts_view(v@).take(i + 1) =~= t0.push(v@[i as int]@));
        i += 1;
    }
    assert(s0.take(len as int) =~= s0);
    assert(parts_view(v@).take(len as int) =~= parts_view(v@));
}

fn desugar_stmt(s: &mut Stmt, n: &mut u64)
    ensures
        (final(s)@, *final(n)) == ds_stmt(old(s)@, *old(n)),
    decreases *old(s),
{
    match s {
        Stmt::Let { value, .. } => {
            desugar_expr(value, n);
        },
        Stmt::Assign { target, value } => {
            desugar_expr(target, n);
            desugar_expr(value, n);
        },
        Stmt::ExprStmt(p) => {
            desugar_expr(p, n);
        },
        Stmt::Return(p) => {
            desugar_opt(p, n);
        },
        Stmt::If { cond, then, elifs, els } => {
            desugar_expr(cond, n);
            desugar_block(then, n);
            desugar_elifs(elifs, n);
            desugar_optblock(els, n);
        },
        Stmt::While { cond, body } => {
            desugar_expr(cond, n);
            desugar_block(body, n);
        },
        Stmt::For { iter, body, .. } => {
            desugar_expr(iter, n);
            desugar_block(body, n);
        },
        Stmt::Try { body, catch_body, .. } => {
            desugar_block(body, n);
            desugar_block(catch_body, n);
        },
        Stmt::Raise(p) => {
            desugar_expr(p, n);
        },
        _ => {},
    }
}

fn desugar_block(v: &mut Vec<Stmt>, n: &mut u64)
    ensures
        (stmts_view(final(v)@), *final(n)) == ds_block(stmts_view(old(v)@), *old(n)),
    decreases *old(v),
{
    let ghost v0 = v@;
    let ghost s0 = stmts_view(v0);
    let ghost n0 = *n;
    let len: usize = v.len();
    assert(s0.take(0) =~= Seq::empty());
    assert(stmts_view(v@).take(0) =~= Seq::empty());
    let mut i: usize = 0;
    while i < len
        invariant
            i <= len,
            len == v@.len(),
            len == v0.len(),
            v0 == old(v)@,
            s0 == stmts_view(v0),
            (stmts_view(v@).take(i as int), *n) == ds_block(s0.take(i as int), n0),
            tail_kept(v@, v0, i as int),
        decreases len - i,
    {
        let ghost t0 = stmts_view(v@).take(i as int);
        assert(s0.take(i + 1).drop_last() =~= s0.take(i as int));
        assert(s0.take(i + 1).last() == v0[i as int]@);
        desugar_stmt(&mut v[i], n);
        assert(stmts_view(v@).take(i + 1) =~= t0.push(v@[i as int]@));
        i += 1;
    }
    assert(s0.take(len as int) =~= s0);
    assert(stmts_view(v@).take(len as int) =~= stmts_view(v@));
}

fn desugar_elifs(v: &mut Vec<(Expr, Vec<Stmt>)>, n: &mut u64)
    ensures
        (elifs_view(final(v)@), *final(n)) == ds_elifs(elifs_view(old(v)@), *old(n)),
    decreases *old(v),
{
    let ghost v0 = v@;
    let ghost s0 = elifs_view(v0);
    let ghost n0 = *n;
    let len: usize = v.len();
    assert(s0.take(0) =~= Seq::empty());
    assert(elifs_view(v@).take(0) =~= Seq::empty());
    let mut i: usize = 0;
    while i < len
        invariant
            i <= len,
            len == v@.len(),
            len == v0.len(),
            v0 == old(v)@,
            s0 == elifs_view(v0),
            (elifs_view(v@).take(i as int), *n) == ds_elifs(s0.take(i as int), n0),
            tail_kept(v@, v0, i as int),
        decreases len - i,
    {
        let ghost t0 = elifs_view(v@).take(i as int);
        assert(s0.take(i + 1).drop_last() =~= s0.take(i as int));
        assert(s0.take(i + 1).last() == (v0[i as int].0@, stmts_view(v0[i as int].1@)));
        let ghost k0 = v@[i as int].1;
        desugar_expr(&mut v[i].0, n);
        assert(v@[i as int].1 == k0);
        desugar_block(&mut v[i].1, n);
        assert(
            elifs_view(v@).take(i + 1) =~= t0.push((v@[i as int].0@, stmts_view(v@[i as int].1@)))
        );
        i += 1;
    }
    assert(s0.take(len as int) =~= s0);
    assert(elifs_view(v@).take(len as int) =~= elifs_view(v@));
}

fn desugar_optbox(o: &mut Option<Box<Expr>>, n: &mut u64)
    ensures
        (optbox_view(*final(o)), *final(n)) == ds_optbox(optbox_view(*old(o)), *old(n)),
    decreases *old(o),
{
    match o {
        Some(p) => {
            desugar_expr(p, n);
        },
        None => {},
    }
}

fn desugar_opt(o: &mut Option<Expr>, n: &mut u64)
    ensures
        (opt_view(*final(o)), *final(n)) == ds_opt(opt_view(*old(o)), *old(n)),
    decreases *old(o),
{
    match o {
        Some(p) => {
            desugar_expr(p, n);
        },
        None => {},
    }
}

fn desugar_optblock(o: &mut Option<Vec<Stmt>>, n: &mut u64)
    ensures
        (optblock_view(*final(o)), *final(n)) == ds_optblock(optblock_view(*old(o)), *old(n)),
    decreases *old(o),
{
    match o {
        Some(p) => {
            desugar_block(p, n);
        },
        None => {},
    }
}

fn desugar_params(v: &mut Vec<Param>, n: &mut u64)
    ensures
        (params_view(final(v)@), *final(n)) == ds_params(params_view(old(v)@), *old(n)),
{
    let ghost v0 = v@;
    let ghost s0 = params_view(v0);
    let ghost n0 = *n;
    let len: usize = v.len();
    assert(s0.take(0) =~= Seq::empty());
    assert(params_view(v@).take(0) =~= Seq::empty());
    for i in 0..len
        invariant
            len == v@.len(),
            len == v0.len(),
            s0 == params_view(v0),
            (params_view(v@).take(i as int), *n) == ds_params(s0.take(i as int), n0),
            tail_kept(v@, v0, i as int),
    {
        let ghost t0 = params_view(v@).take(i as int);
        assert(s0.take(i + 1).drop_last() =~= s0.take(i as int));
        assert(s0.take(i + 1).last() == v0[i as int]@);
        desugar_opt(&mut v[i].default, n);
        assert(params_view(v@).take(i + 1) =~= t0.push(v@[i as int]@));
    }
    assert(s0.take(len as int) =~= s0);
    assert(params_view(v@).take(len as int) =~= params_view(v@));
}

fn desugar_fn(f: &mut FnDef, n: &mut u64)
    ensures
        (final(f)@, *final(n)) == ds_fn(old(f)@, *old(n)),
{
    desugar_params(&mut f.params, n);
    desugar_block(&mut f.body, n);
}

fn desugar_methods(v: &mut Vec<FnDef>, n: &mut u64)
    ensures
        (fns_view(final(v)@), *final(n)) == ds_methods(fns_view(old(v)@), *old(n)),
{
    let ghost v0 = v@;
    let ghost s0 = fns_view(v0);
    let ghost n0 = *n;
    let len: usize = v.len();
    assert(s0.take(0) =~= Seq::empty());
    assert(fns_view(v@).take(0) =~= Seq::empty());
    for i in 0..len
        invariant
            len == v@.len(),
            len == v0.len(),
            s0 == fns_view(v0),
            (fns_view(v@).take(i as int), *n) == ds_methods(s0.take(i as int), n0),
            tail_kept(v@, v0, i as int),
    {
        let ghost t0 = fns_view(v@).take(i as int);
        assert(s0.take(i + 1).drop_last() =~= s0.take(i as int));
        assert(s0.take(i + 1).last() == v0[i as int]@);
        desugar_fn(&mut v[i], n);
        assert(fns_view(v@).take(i + 1) =~= t0.push(v@[i as int]@));
    }
    assert(s0.take(len as int) =~= s0);
    assert(fns_view(v@).take(len as int) =~= fns_view(v@));
}

fn desugar_item(i: &mut Item, n: &mut u64)
    ensures
        (final(i)@, *final(n)) == ds_item(old(i)@, *old(n)),
{
    match i {
        Item::Fn(f) => desugar_fn(f, n),
        Item::Struct(s) => desugar_methods(&mut s.methods, n),
        Item::Stmt(s) => desugar_stmt(s, n),
        _ => {},
    }
}

/// Lowers every `map` and `filter` call of a program.
pub fn desugar_program(prog: &mut Vec<Item>)
    ensures
        prog_view(final(prog)@) == ds_items(prog_view(old(prog)@), 0).0,
{
    let mut n: u64 = 0;
    let ghost v0 = prog@;
    let ghost s0 = prog_view(v0);
    let len: usize = prog.len();
    assert(s0.take(0) =~= Seq::empty());
    assert(prog_view(prog@).take(0) =~= Seq::empty());
    for i in 0..len
        invariant
            len == prog@.len(),
            len == v0.len(),
            s0 == prog_view(v0),
            (prog_view(prog@).take(i as int), n) == ds_items(s0.take(i as int), 0),
            tail_kept(prog@, v0, i as int),
    {
        let ghost t0 = prog_view(prog@).take(i as int);
        assert(s0.take(i + 1).drop_last() =~= s0.take(i as int));
        assert(s0.take(i + 1).last() == v0[i as int]@);
        desugar_item(&mut prog[i], &mut n);
        assert(prog_view(prog@).take(i + 1) =~= t0.push(prog@[i as int]@));
    }
    assert(s0.take(len as int) =~= s0);
    assert(prog_view(prog@).take(len as int) =~= prog_view(prog@));
}

/// Whether an expression is no call of `map` or `filter`.
pub open spec fn is_core(e: ExprView) -> bool {
    match e {
        ExprView::Method { name, args, .. } => !is_map_or_filter(name, args),
        _ => true,
    }
}

/// That an expression is no call of `map` or `filter`.
pub open spec fn in_core() -> Prop {
    |e: ExprView| is_core(e)
}

proof fn method_core(obj: ExprView, name: Seq<char>, args: Seq<ExprView>, n: u64)
    requires
        every_expr(obj, in_core()),
        every_exprs(args, in_core()),
    ensures
        every_expr(lower_method(obj, name, args, n).0, in_core()),
{
    if is_map_or_filter(name, args) {
        let r = lower_method(obj, name, args, n).0;
        let var = comp_var(next_number(n));
        let with = seq![ExprView::Ident(var)];
        let call = ExprView::Call { callee: Box::new(args[0]), args: with };
        assert(every_expr(ExprView::Ident(var), in_core()));
        assert(every_exprs(with, in_core())) by {
            assert forall|i: int| 0 <= i < with.len() implies every_expr(
                #[trigger] with[i],
                in_core(),
            ) by {
                assert(with[i] == ExprView::Ident(var));
            }
        }
        assert(every_expr(args[0], in_core()));
        assert(every_expr(call, in_core()));
        assert(every_optbox(Some(Box::new(call)), in_core()));
        assert(every_optbox(None, in_core()));
        assert(every_expr(r, in_core()));
    }
}

proof fn expr_core(e: ExprView, n: u64)
    ensures
        every_expr(ds_expr(e, n).0, in_core()),
    decreases e,
{
    match e {
        ExprView::Unary { expr, .. } => expr_core(*expr, n),
        ExprView::Binary { lhs, rhs, .. } => {
            expr_core(*lhs, n);
            let n1 = ds_expr(*lhs, n).1;
            expr_core(*rhs, n1);
        },
        ExprView::Call { callee, args } => {
            expr_core(*callee, n);
            let n1 = ds_expr(*callee, n).1;
            exprs_core(args, n1);
        },
        ExprView::NamedCall { callee, args } => {
            expr_core(*callee, n);
            let n1 = ds_expr(*callee, n).1;
            named_core(args, n1);
        },
        ExprView::Method { obj, name, args } => {
            let (obj1, n1) = ds_expr(*obj, n);
            let (args1, n2) = ds_exprs(args, n1);
            expr_core(*obj, n);
            exprs_core(args, n1);
            method_core(obj1, name, args1, n2);
        },
        ExprView::Field { obj, .. } => expr_core(*obj, n),
        ExprView::Index { obj, index } => {
            expr_core(*obj, n);
            let n1 = ds_expr(*obj, n).1;
            expr_core(*index, n1);
        },
        ExprView::Slice { obj, lo, hi } => {
            expr_core(*obj, n);
            let n1 = ds_expr(*obj, n).1;
            optbox_core(lo, n1);
            let n2 = ds_optbox(lo, n1).1;
            optbox_core(hi, n2);
        },
        ExprView::List(p) => exprs_core(p, n),
        ExprView::MapLit(p) => pairs_core(p, n),
        ExprView::Range { lo, hi } => {
            expr_core(*lo, n);
            let n1 = ds_expr(*lo, n).1;
            expr_core(*hi, n1);
        },
        ExprView::IfElse { cond, then, els } => {
            expr_core(*cond, n);
            let n1 = ds_expr(*cond, n).1;
            expr_core(*then, n1);
            let n2 = ds_expr(*then, n1).1;
            expr_core(*els, n2);
        },
        ExprView::ListComp { elem, iter, cond, .. } => {
            expr_core(*elem, n);
            let n1 = ds_expr(*elem, n).1;
            expr_core(*iter, n1);
            let n2 = ds_expr(*iter, n1).1;
            optbox_core(cond, n2);
        },
        ExprView::FStr(p) => parts_core(p, n),
        ExprView::Lambda { body, .. } => block_core(body, n),
        ExprView::Closure { captures, .. } => exprs_core(captures, n),
        _ => {},
    }
}

proof fn optbox_core(o: Option<Box<ExprView>>, n: u64)
    ensures
        every_optbox(ds_optbox(o, n).0, in_core()),
    decreases o,
{
    if let Some(e) = o {
        expr_core(*e, n);
    }
}

proof fn opt_core(o: Option<ExprView>, n: u64)
    ensures
        every_opt(ds_opt(o, n).0, in_core()),
    decreases o,
{
    if let Some(e) = o {
        expr_core(e, n);
    }
}

proof fn exprs_core(s: Seq<ExprView>, n: u64)
    ensures
        every_exprs(ds_exprs(s, n).0, in_core()),
    decreases s,
{
    if s.len() > 0 {
        let (_, n1) = ds_exprs(s.drop_last(), n);
        exprs_core(s.drop_last(), n);
        expr_core(s.last(), n1);
    }
}

proof fn named_core(s: Seq<(Seq<char>, ExprView)>, n: u64)
    ensures
        every_named(ds_named(s, n).0, in_core()),
    decreases s,
{
    if s.len() > 0 {
        let (_, n1) = ds_named(s.drop_last(), n);
        named_core(s.drop_last(), n);
        expr_core(s.last().1, n1);
    }
}

proof fn pairs_core(s: Seq<(ExprView, ExprView)>, n: u64)
    ensures
        every_pairs(ds_pairs(s, n).0, in_core()),
    decreases s,
{
    if s.len() > 0 {
        let (_, n1) = ds_pairs(s.drop_last(), n);
        pairs_core(s.drop_last(), n);
        expr_core(s.last().0, n1);
        expr_core(s.last().1, ds_expr(s.last().0, n1).1);
    }
}

proof fn parts_core(s: Seq<FStrPartView>, n: u64)
    ensures
        every_parts(ds_parts(s, n).0, in_core()),
    decreases s,
{
    if s.len() > 0 {
        let (_, n1) = ds_parts(s.drop_last(), n);
        parts_core(s.drop_last(), n);
        if let FStrPartView::Expr(e) = s.last() {
            expr_core(e, n1);
        }
    }
}

proof fn stmt_core(s: StmtView, n: u64)
    ensures
        every_stmt(ds_stmt(s, n).0, in_core()),
    decreases s,
{
    match s {
        StmtView::Let { value, .. } => expr_core(value, n),
        StmtView::Assign { target, value } => {
            expr_core(target, n);
            let n1 = ds_expr(target, n).1;
            expr_core(value, n1);
        },
        StmtView::ExprStmt(p) => expr_core(p, n),
        StmtView::Return(p) => opt_core(p, n),
        StmtView::If { cond, then, elifs, els } => {
            expr_core(cond, n);
            let n1 = ds_expr(cond, n).1;
            block_core(then, n1);
            let n2 = ds_block(then, n1).1;
            elifs_core(elifs, n2);
            let n3 = ds_elifs(elifs, n2).1;
            optblock_core(els, n3);
        },
        StmtView::While { cond, body } => {
            expr_core(cond, n);
            let n1 = ds_expr(cond, n).1;
            block_core(body, n1);
        },
        StmtView::For { iter, body, .. } => {
            expr_core(iter, n);
            let n1 = ds_expr(iter, n).1;
            block_core(body, n1);
        },
        StmtView::Try { body, catch_body, .. } => {
            block_core(body, n);
            let n1 = ds_block(body, n).1;
            block_core(catch_body, n1);
        },
        StmtView::Raise(p) => expr_core(p, n),
        _ => {},
    }
}

proof fn block_core(s: Seq<StmtView>, n: u64)
    ensures
        every_block(ds_block(s, n).0, in_core()),
    decreases s,
{
    if s.len() > 0 {
        let (_, n1) = ds_block(s.drop_last(), n);
        block_core(s.drop_last(), n);
        stmt_core(s.last(), n1);
    }
}

proof fn elifs_core(s: Seq<(ExprView, Seq<StmtView>)>, n: u64)
    ensures
        every_elifs(ds_elifs(s, n).0, in_core()),
    decreases s,
{
    if s.len() > 0 {
        let (_, n1) = ds_elifs(s.drop_last(), n);
        elifs_core(s.drop_last(), n);
        expr_core(s.last().0, n1);
        block_core(s.last().1, ds_expr(s.last().0, n1).1);
    }
}

proof fn optblock_core(o: Option<Seq<StmtView>>, n: u64)
    ensures
        every_optblock(ds_optblock(o, n).0, in_core()),
    decreases o,
{
    if let Some(e) = o {
        block_core(e, n);
    }
}

proof fn params_core(s: Seq<ParamView>, n: u64)
    ensures
        every_default(ds_params(s, n).0, in_core()),
    decreases s.len(),
{
    if s.len() > 0 {
        params_core(s.drop_last(), n);
        opt_core(s.last().default, ds_params(s.drop_last(), n).1);
    }
}

proof fn fn_core(f: FnDefView, n: u64)
    ensures
        every_fn(ds_fn(f, n).0, in_core()),
{
    params_core(f.params, n);
    block_core(f.body, ds_params(f.params, n).1);
}

proof fn methods_core(s: Seq<FnDefView>, n: u64)
    ensures
        every_method(ds_methods(s, n).0, in_core()),
    decreases s.len(),
{
    if s.len() > 0 {
        methods_core(s.drop_last(), n);
        fn_core(s.last(), ds_methods(s.drop_last(), n).1);
    }
}

/// The core has no `map` and no `filter`: lowering leaves no call of them anywhere in a
/// program.
pub proof fn lowering_reaches_core(s: Seq<ItemView>, n: u64)
    ensures
        ds_items(s, n).0.len() == s.len(),
        everywhere(ds_items(s, n).0, in_core()),
    decreases s.len(),
{
    if s.len() > 0 {
        let (_, n1) = ds_items(s.drop_last(), n);
        lowering_reaches_core(s.drop_last(), n);
        match s.last() {
            ItemView::Fn(f) => fn_core(f, n1),
            ItemView::Struct(d) => methods_core(d.methods, n1),
            ItemView::Stmt(t) => stmt_core(t, n1),
            _ => {},
        }
        assert(every_item(ds_item(s.last(), n1).0, in_core()));
    }
}

/// Two comprehensions with different numbers have different variables.
pub proof fn comprehension_variables_differ(m: u64, n: u64)
    requires
        m != n,
    ensures
        comp_var(m) != comp_var(n),
{
    reveal_strlit("#mf");
    if comp_var(m) == comp_var(n) {
        assert(comp_var(m).skip(3) =~= dec_nat(m as nat));
        assert(comp_var(n).skip(3) =~= dec_nat(n as nat));
        dec_nat_injective(m as nat, n as nat);
    }
}

/// The variable of a comprehension is no word of any source text, so that it hides no
/// variable of the program.
pub proof fn comprehension_variable_is_no_word(src: Seq<u8>, i: int, j: int, n: u64)
    requires
        0 <= i < j <= src.len(),
        in_class(Class::Word, src[i]),
    ensures
        chars_of(src, i, j) != comp_var(n),
{
    reveal_strlit("#mf");
    assert(comp_var(n)[0] == '#');
    let c = src[i];
    assert(chars_of(src, i, j)[0] == c as char);
    assert(c != 0x23);
}

/// Different numbers have different numerals.
pub proof fn dec_nat_injective(m: nat, n: nat)
    requires
        dec_nat(m) == dec_nat(n),
    ensures
        m == n,
    decreases m,
{
    let (a, b) = (dec_nat(m), dec_nat(n));
    assert(a.last() == digit((m % 10) as int));
    assert(b.last() == digit((n % 10) as int));
    assert(m % 10 == n % 10);
    if m >= 10 && n >= 10 {
        assert(a.drop_last() =~= dec_nat(m / 10));
        assert(b.drop_last() =~= dec_nat(n / 10));
        dec_nat_injective(m / 10, n / 10);
    } else if m >= 10 {
        assert(dec_nat(m / 10).len() > 0);
    } else if n >= 10 {
        assert(dec_nat(n / 10).len() > 0);
    }
}

} // verus!
