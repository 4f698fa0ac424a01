//! Imports: which items a module hands out, and how references through its alias are
//! resolved. All imported items share one namespace, so a qualified reference is its
//! last part.

use crate::ast::{
    elifs_view, expr_view, exprs_view, fns_view, named_view, opt_view, optblock_view, optbox_view,
    pairs_view, params_view, parts_view, prog_view, stmts_view, strs_view, tail_kept, Expr,
    ExprView, FStrPart, FStrPartView, FnDef, FnDefView, ImportDef, ImportDefView, Item, ItemView,
    Param, ParamView, Stmt, StmtView, StructDefView,
};
use crate::builtins::{is_module, is_module_spec};
use crate::names::NameSet;
use crate::text::push_char;
use crate::walk::{
    every_block, every_elifs, every_expr, every_exprs, every_fn, every_item, every_method,
    every_named, every_opt, every_optblock, every_optbox, every_pairs, every_parts, every_stmt,
    everywhere, Prop,
};
use vstd::prelude::*;

verus! {

/// Whether `e` names an imported module: an alias that is not a built-in module.
pub open spec fn is_module_ref(e: ExprView, a: Set<Seq<char>>) -> bool {
    match e {
        ExprView::Ident(m) => a.contains(m) && !is_module_spec(m),
        _ => false,
    }
}

/// Drops the module from every reference through an alias: `m.f(x)` becomes `f(x)`,
/// and `m.f` becomes `f`.
pub open spec fn rw_expr(e: ExprView, a: Set<Seq<char>>) -> ExprView
    decreases e, 0nat,
{
    match e {
        ExprView::Unary { op, expr } => ExprView::Unary { op, expr: Box::new(rw_expr(*expr, a)) },
        ExprView::Binary { op, lhs, rhs } => ExprView::Binary {
            op,
            lhs: Box::new(rw_expr(*lhs, a)),
            rhs: Box::new(rw_expr(*rhs, a)),
        },
        ExprView::Call { callee, args } => ExprView::Call {
            callee: Box::new(rw_expr(*callee, a)),
            args: rw_exprs(args, a),
        },
        ExprView::NamedCall { callee, args } => ExprView::NamedCall {
            callee: Box::new(rw_expr(*callee, a)),
            args: rw_named(args, a),
        },
        ExprView::Method { obj, name, args } => {
            let o = rw_expr(*obj, a);
            if is_module_ref(o, a) {
                ExprView::Call { callee: Box::new(ExprView::Ident(name)), args: rw_exprs(args, a) }
            } else {
                ExprView::Method { obj: Box::new(o), name, args: rw_exprs(args, a) }
            }
        },
        ExprView::Field { obj, name } => {
            let o = rw_expr(*obj, a);
            if is_module_ref(o, a) {
                ExprView::Ident(name)
            } else {
                ExprView::Field { obj: Box::new(o), name }
            }
        },
        ExprView::Index { obj, index } => ExprView::Index {
            obj: Box::new(rw_expr(*obj, a)),
            index: Box::new(rw_expr(*index, a)),
        },
        ExprView::Range { lo, hi } => ExprView::Range {
            lo: Box::new(rw_expr(*lo, a)),
            hi: Box::new(rw_expr(*hi, a)),
        },
        ExprView::List(p) => ExprView::List(rw_exprs(p, a)),
        ExprView::MapLit(p) => ExprView::MapLit(rw_pairs(p, a)),
        ExprView::Slice { obj, lo, hi } => ExprView::Slice {
            obj: Box::new(rw_expr(*obj, a)),
            lo: rw_optbox(lo, a),
            hi: rw_optbox(hi, a),
        },
        ExprView::IfElse { cond, then, els } => ExprView::IfElse {
            cond: Box::new(rw_expr(*cond, a)),
            then: Box::new(rw_expr(*then, a)),
            els: Box::new(rw_expr(*els, a)),
        },
        ExprView::ListComp { elem, var, iter, cond } => ExprView::ListComp {
            elem: Box::new(rw_expr(*elem, a)),
            var,
            iter: Box::new(rw_expr(*iter, a)),
            cond: rw_optbox(cond, a),
        },
        ExprView::Lambda { params, body } => ExprView::Lambda { params, body: rw_block(body, a) },
        ExprView::Closure { fn_name, captures } => ExprView::Closure {
            fn_name,
            captures: rw_exprs(captures, a),
        },
        ExprView::FStr(p) => ExprView::FStr(rw_parts(p, a)),
        _ => e,
    }
}

pub open spec fn rw_optbox(
    o: Option<Box<ExprView>>,
    a: Set<Seq<char>>,
) -> Option<Box<ExprView>>
    decreases o, 0nat,
{
    match o {
        Some(e) => Some(Box::new(rw_expr(*e, a))),
        None => None,
    }
}

pub open spec fn rw_opt(o: Option<ExprView>, a: Set<Seq<char>>) -> Option<ExprView>
    decreases o, 0nat,
{
    match o {
        Some(e) => Some(rw_expr(e, a)),
        None => None,
    }
}

pub open spec fn rw_exprs(s: Seq<ExprView>, a: Set<Seq<char>>) -> Seq<ExprView>
    decreases s, 0nat,
{
    if s.len() == 0 {
        s
    } else {
        rw_exprs(s.drop_last(), a).push(rw_expr(s.last(), a))
    }
}

pub open spec fn rw_named(
    s: Seq<(Seq<char>, ExprView)>,
    a: Set<Seq<char>>,
) -> Seq<(Seq<char>, ExprView)>
    decreases s, 0nat,
{
    if s.len() == 0 {
        s
    } else {
        rw_named(s.drop_last(), a).push((s.last().0, rw_expr(s.last().1, a)))
    }
}

pub open spec fn rw_pairs(
    s: Seq<(ExprView, ExprView)>,
    a: Set<Seq<char>>,
) -> Seq<(ExprView, ExprView)>
    decreases s, 0nat,
{
    if s.len() == 0 {
        s
    } else {
        rw_pairs(s.drop_last(), a).push((rw_expr(s.last().0, a), rw_expr(s.last().1, a)))
    }
}

pub open spec fn rw_parts(s: Seq<FStrPartView>, a: Set<Seq<char>>) -> Seq<FStrPartView>
    decreases s, 0nat,
{
    if s.len() == 0 {
        s
    } else {
        rw_parts(s.drop_last(), a).push(match s.last() {
            FStrPartView::Expr(e) => FStrPartView::Expr(rw_expr(e, a)),
            p => p,
        })
    }
}

pub open spec fn rw_stmt(s: StmtView, a: Set<Seq<char>>) -> StmtView
    decreases s, 0nat,
{
    match s {
        StmtView::Let { name, mutable, ty, value } => StmtView::Let {
            name,
            mutable,
            ty,
            value: rw_expr(value, a),
        },
        StmtView::Assign { target, value } => StmtView::Assign {
            target: rw_expr(target, a),
            value: rw_expr(value, a),
        },
        StmtView::ExprStmt(p) => StmtView::ExprStmt(rw_expr(p, a)),
        StmtView::Return(p) => StmtView::Return(rw_opt(p, a)),
        StmtView::If { cond, then, elifs, els } => StmtView::If {
            cond: rw_expr(cond, a),
            then: rw_block(then, a),
            elifs: rw_elifs(elifs, a),
            els: rw_optblock(els, a),
        },
        StmtView::While { cond, body } => StmtView::While {
            cond: rw_expr(cond, a),
            body: rw_block(body, a),
        },
        StmtView::For { var, iter, body } => StmtView::For {
            var,
            iter: rw_expr(iter, a),
            body: rw_block(body, a),
        },
        StmtView::Try { body, catch_var, catch_body } => StmtView::Try {
            body: rw_block(body, a),
            catch_var,
            catch_body: rw_block(catch_body, a),
        },
        StmtView::Raise(p) => StmtView::Raise(rw_expr(p, a)),
        _ => s,
    }
}

pub open spec fn rw_block(s: Seq<StmtView>, a: Set<Seq<char>>) -> Seq<StmtView>
    decreases s, 0nat,
{
    if s.len() == 0 {
        s
    } else {
        rw_block(s.drop_last(), a).push(rw_stmt(s.last(), a))
    }
}

pub open spec fn rw_elifs(
    s: Seq<(ExprView, Seq<StmtView>)>,
    a: Set<Seq<char>>,
) -> Seq<(ExprView, Seq<StmtView>)>
    decreases s, 0nat,
{
    if s.len() == 0 {
        s
    } else {
        rw_elifs(s.drop_last(), a).push((rw_expr(s.last().0, a), rw_block(s.last().1, a)))
    }
}

pub open spec fn rw_optblock(o: Option<Seq<StmtView>>, a: Set<Seq<char>>) -> Option<Seq<StmtView>>
    decreases o, 0nat,
{
    match o {
        Some(b) => Some(rw_block(b, a)),
        None => None,
    }
}

pub open spec fn rw_params(s: Seq<ParamView>, a: Set<Seq<char>>) -> Seq<ParamView> {
    Seq::new(s.len(), |i: int| ParamView { default: rw_opt(s[i].default, a), ..s[i] })
}

/// A function with the references in its defaults and its body resolved.
pub open spec fn rw_fn(f: FnDefView, a: Set<Seq<char>>) -> FnDefView {
    FnDefView { params: rw_params(f.params, a), body: rw_block(f.body, a), ..f }
}

pub open spec fn rw_methods(s: Seq<FnDefView>, a: Set<Seq<char>>) -> Seq<FnDefView> {
    Seq::new(s.len(), |i: int| rw_fn(s[i], a))
}

pub open spec fn rw_item(i: ItemView, a: Set<Seq<char>>) -> ItemView {
    match i {
        ItemView::Fn(f) => ItemView::Fn(rw_fn(f, a)),
        ItemView::Struct(s) => ItemView::Struct(
            StructDefView { methods: rw_methods(s.methods, a), ..s },
        ),
        ItemView::Stmt(s) => ItemView::Stmt(rw_stmt(s, a)),
        _ => i,
    }
}

pub open spec fn rw_items(s: Seq<ItemView>, a: Set<Seq<char>>) -> Seq<ItemView> {
    Seq::new(s.len(), |i: int| rw_item(s[i], a))
}

fn is_ref(e: &Expr, a: &NameSet) -> (r: bool)
    ensures
        r == is_module_ref(e@, a@),
{
    match e {
        Expr::Ident(m) => a.contains(m.as_str()) && !is_module(m.as_str()),
        _ => false,
    }
}

/// Replaces a field or method access by its name alone.
fn unqualify(e: &mut Expr)
    requires
        *old(e) is Method || *old(e) is Field,
    ensures
        final(e)@ == match old(e)@ {
            ExprView::Method { name, args, .. } => ExprView::Call {
                callee: Box::new(ExprView::Ident(name)),
                args,
            },
            ExprView::Field { name, .. } => ExprView::Ident(name),
            o => o,
        },
{
    let mut whole = Expr::Nil;
    std::mem::swap(e, &mut whole);
    match whole {
        Expr::Method { name, args, .. } => {
            let callee = Expr::Ident(name);
            assert(callee@ == ExprView::Ident(name@));
            *e = Expr::Call { callee: Box::new(callee), args };
        },
        Expr::Field { name, .. } => {
            *e = Expr::Ident(name);
        },
        _ => {},
    }
}

#[verifier::rlimit(60)]
fn rewrite_expr(e: &mut Expr, a: &NameSet)
    ensures
        final(e)@ == rw_expr(old(e)@, a@),
    decreases *old(e), 0nat,
{
    let mut drop_obj = false;
    match e {
        Expr::Unary { expr, .. } => {
            rewrite_expr(expr, a);
        },
        Expr::Binary { lhs, rhs, .. } => {
            rewrite_expr(lhs, a);
            rewrite_expr(rhs, a);
        },
        Expr::Call { callee, args } => {
            rewrite_expr(callee, a);
            rewrite_exprs(args, a);
        },
        Expr::NamedCall { callee, args } => {
            rewrite_expr(callee, a);
            rewrite_named(args, a);
        },
        Expr::Method { obj, args, .. } => {
            rewrite_expr(obj, a);
            assert(obj@ == expr_view(**obj));
            drop_obj = is_ref(obj, a);
            rewrite_exprs(args, a);
        },
        Expr::Field { obj, .. } => {
            rewrite_expr(obj, a);
            assert(obj@ == expr_view(**obj));
            drop_obj = is_ref(obj, a);
        },
        Expr::Index { obj, index } => {
            rewrite_expr(obj, a);
            rewrite_expr(index, a);
        },
        Expr::Range { lo, hi } => {
            rewrite_expr(lo, a);
            rewrite_expr(hi, a);
        },
        Expr::List(p) => {
            rewrite_exprs(p, a);
        },
        Expr::MapLit(p) => {
            rewrite_pairs(p, a);
        },
        Expr::Slice { obj, lo, hi } => {
            rewrite_expr(obj, a);
            rewrite_optbox(lo, a);
            rewrite_optbox(hi, a);
        },
        Expr::IfElse { cond, then, els } => {
            rewrite_expr(cond, a);
            rewrite_expr(then, a);
            rewrite_expr(els, a);
        },
        Expr::ListComp { elem, iter, cond, .. } => {
            rewrite_expr(elem, a);
            rewrite_expr(iter, a);
            rewrite_optbox(cond, a);
        },
        Expr::Lambda { body, .. } => {
            rewrite_block(body, a);
        },
        Expr::Closure { captures, .. } => {
            rewrite_exprs(captures, a);
        },
        Expr::FStr(p) => {
            rewrite_parts(p, a);
        },
        _ => {},
    }
    if drop_obj {
        unqualify(e);
    }
}

fn rewrite_exprs(v: &mut Vec<Expr>, a: &NameSet)
    ensures
        exprs_view(final(v)@) == rw_exprs(exprs_view(old(v)@), a@),
    decreases *old(v), 0nat,
{
    let ghost v0 = v@;
    let ghost s0 = exprs_view(v0);
    let len: usize = v.len();
    assert(s0.take(0) =~= Seq::empty());
    assert(exprs_view(v@).take(0) =~= Seq::empty());
    let mut i: usize = 0;
    while i < len
        invariant
            i <= len,
            len == v@.len(),
            len == v0.len(),
            v0 == old(v)@,
            s0 == exprs_view(v0),
            exprs_view(v@).take(i as int) == rw_exprs(s0.take(i as int), a@),
            tail_kept(v@, v0, i as int),
        decreases len - i,
    {
        let ghost t0 = exprs_view(v@).take(i as int);
        assert(s0.take(i + 1).drop_last() =~= s0.take(i as int));
        assert(s0.take(i + 1).last() == v0[i as int]@);
        rewrite_expr(&mut v[i], a);
        assert(exprs_view(v@).take(i + 1) =~= t0.push(v@[i as int]@));
        i += 1;
    }
    assert(s0.take(len as int) =~= s0);
    assert(exprs_view(v@).take(len as int) =~= exprs_view(v@));
}

fn rewrite_named(v: &mut Vec<(String, Expr)>, a: &NameSet)
    ensures
        named_view(final(v)@) == rw_named(named_view(old(v)@), a@),
    decreases *old(v), 0nat,
{
    let ghost v0 = v@;
    let ghost s0 = named_view(v0);
    let len: usize = v.len();
    assert(s0.take(0) =~= Seq::empty());
    assert(named_view(v@).take(0) =~= Seq::empty());
    let mut i: usize = 0;
    while i < len
        invariant
            i <= len,
            len == v@.len(),
            len == v0.len(),
            v0 == old(v)@,
            s0 == named_view(v0),
            named_view(v@).take(i as int) == rw_named(s0.take(i as int), a@),
            tail_kept(v@, v0, i as int),
        decreases len - i,
    {
        let ghost t0 = named_view(v@).take(i as int);
        assert(s0.take(i + 1).drop_last() =~= s0.take(i as int));
        assert(s0.take(i + 1).last() == (v0[i as int].0@, v0[i as int].1@));
        rewrite_expr(&mut v[i].1, a);
        assert(named_view(v@).take(i + 1) =~= t0.push((v@[i as int].0@, v@[i as int].1@)));
        i += 1;
    }
    assert(s0.take(len as int) =~= s0);
    assert(named_view(v@).take(len as int) =~= named_view(v@));
}

fn rewrite_pairs(v: &mut Vec<(Expr, Expr)>, a: &NameSet)
    ensures
        pairs_view(final(v)@) == rw_pairs(pairs_view(old(v)@), a@),
    decreases *old(v), 0nat,
{
    let ghost v0 = v@;
    let ghost s0 = pairs_view(v0);
    let len: usize = v.len();
    assert(s0.take(0) =~= Seq::empty());
    assert(pairs_view(v@).take(0) =~= Seq::empty());
    let mut i: usize = 0;
    while i < len
        invariant
            i <= len,
            len == v@.len(),
            len == v0.len(),
            v0 == old(v)@,
            s0 == pairs_view(v0),
            pairs_view(v@).take(i as int) == rw_pairs(s0.take(i as int), a@),
            tail_kept(v@, v0, i as int),
        decreases len - i,
    {
        let ghost t0 = pairs_view(v@).take(i as int);
        assert(s0.take(i + 1).drop_last() =~= s0.take(i as int));
        assert(s0.take(i + 1).last() == (v0[i as int].0@, v0[i as int].1@));
        let ghost k0 = v@[i as int].1;
        rewrite_expr(&mut v[i].0, a);
        assert(v@[i as int].1 == k0);
        rewrite_expr(&mut v[i].1, a);
        assert(pairs_view(v@).take(i + 1) =~= t0.push((v@[i as int].0@, v@[i as int].1@)));
        i += 1;
    }
    assert(s0.take(len as int) =~= s0);
    assert(pairs_view(v@).take(len as int) =~= pairs_view(v@));
}

fn rewrite_parts(v: &mut Vec<FStrPart>, a: &NameSet)
    ensures
        parts_view(final(v)@) == rw_parts(parts_view(old(v)@), a@),
    decreases *old(v), 0nat,
{
    let ghost v0 = v@;
    let ghost s0 = parts_view(v0);
    let len: usize = v.len();
    assert(s0.take(0) =~= Seq::empty());
    assert(parts_view(v@).take(0) =~= Seq::empty());
    let mut i: usize = 0;
    while i < len
        invariant
            i <= len,
            len == v@.len(),
            len == v0.len(),
            v0 == old(v)@,
            s0 == parts_view(v0),
            parts_view(v@).take(i as int) == rw_parts(s0.take(i as int), a@),
            tail_kept(v@, v0, i as int),
        decreases len - i,
    {
        let ghost t0 = parts_view(v@).take(i as int);
        assert(s0.take(i + 1).drop_last() =~= s0.take(i as int));
        assert(s0.take(i + 1).last() == v0[i as int]@);
        match &mut v[i] {
            FStrPart::Expr(e) => {
                rewrite_expr(e, a);
            },
            _ => {},
        }
        assert(parts_view(v@).take(i + 1) =~= t0.push(v@[i as int]@));
        i += 1;
    }
    assert(s0.take(len as int) =~= s0);
    assert(parts_view(v@).take(len as int) =~= parts_view(v@));
}

fn rewrite_stmt(s: &mut Stmt, a: &NameSet)
    ensures
        final(s)@ == rw_stmt(old(s)@, a@),
    decreases *old(s), 0nat,
{
    match s {
        Stmt::Let { value, .. } => {
            rewrite_expr(value, a);
        },
        Stmt::Assign { target, value } => {
            rewrite_expr(target, a);
            rewrite_expr(value, a);
        },
        Stmt::ExprStmt(p) => {
            rewrite_expr(p, a);
        },
        Stmt::Return(p) => {
            rewrite_opt(p, a);
        },
        Stmt::If { cond, then, elifs, els } => {
            rewrite_expr(cond, a);
            rewrite_block(then, a);
            rewrite_elifs(elifs, a);
            rewrite_optblock(els, a);
        },
        Stmt::While { cond, body } => {
            rewrite_expr(cond, a);
            rewrite_block(body, a);
        },
        Stmt::For { iter, body, .. } => {
            rewrite_expr(iter, a);
            rewrite_block(body, a);
        },
        Stmt::Try { body, catch_body, .. } => {
            rewrite_block(body, a);
            rewrite_block(catch_body, a);
        },
        Stmt::Raise(p) => {
            rewrite_expr(p, a);
        },
        _ => {},
    }
}

fn rewrite_block(v: &mut Vec<Stmt>, a: &NameSet)
    ensures
        stmts_view(final(v)@) == rw_block(stmts_view(old(v)@), a@),
    decreases *old(v), 0nat,
{
    let ghost v0 = v@;
    let ghost s0 = stmts_view(v0);
    let len: usize = v.len();
    assert(s0.take(0) =~= Seq::empty());
    assert(stmts_view(v@).take(0) =~= Seq::empty());
    let mut i: usize = 0;
    while i < len
        invariant
            i <= len,
            len == v@.len(),
            len == v0.len(),
            v0 == old(v)@,
            s0 == stmts_view(v0),
            stmts_view(v@).take(i as int) == rw_block(s0.take(i as int), a@),
            tail_kept(v@, v0, i as int),
        decreases len - i,
    {
        let ghost t0 = stmts_view(v@).take(i as int);
        assert(s0.take(i + 1).drop_last() =~= s0.take(i as int));
        assert(s0.take(i + 1).last() == v0[i as int]@);
        rewrite_stmt(&mut v[i], a);
        assert(stmts_view(v@).take(i + 1) =~= t0.push(v@[i as int]@));
        i += 1;
    }
    assert(s0.take(len as int) =~= s0);
    assert(stmts_view(v@).take(len as int) =~= stmts_view(v@));
}

fn rewrite_elifs(v: &mut Vec<(Expr, Vec<Stmt>)>, a: &NameSet)
    ensures
        elifs_view(final(v)@) == rw_elifs(elifs_view(old(v)@), a@),
    decreases *old(v), 0nat,
{
    let ghost v0 = v@;
    let ghost s0 = elifs_view(v0);
    let len: usize = v.len();
    assert(s0.take(0) =~= Seq::empty());
    assert(elifs_view(v@).take(0) =~= Seq::empty());
    let mut i: usize = 0;
    while i < len
        invariant
            i <= len,
            len == v@.len(),
            len == v0.len(),
            v0 == old(v)@,
            s0 == elifs_view(v0),
            elifs_view(v@).take(i as int) == rw_elifs(s0.take(i as int), a@),
            tail_kept(v@, v0, i as int),
        decreases len - i,
    {
        let ghost t0 = elifs_view(v@).take(i as int);
        assert(s0.take(i + 1).drop_last() =~= s0.take(i as int));
        assert(s0.take(i + 1).last() == (v0[i as int].0@, stmts_view(v0[i as int].1@)));
        let ghost k0 = v@[i as int].1;
        rewrite_expr(&mut v[i].0, a);
        assert(v@[i as int].1 == k0);
        rewrite_block(&mut v[i].1, a);
        assert(
            elifs_view(v@).take(i + 1) =~= t0.push((v@[i as int].0@, stmts_view(v@[i as int].1@)))
        );
        i += 1;
    }
    assert(s0.take(len as int) =~= s0);
    assert(elifs_view(v@).take(len as int) =~= elifs_view(v@));
}

fn rewrite_optbox(o: &mut Option<Box<Expr>>, a: &NameSet)
    ensures
        optbox_view(*final(o)) == rw_optbox(optbox_view(*old(o)), a@),
    decreases *old(o), 0nat,
{
    match o {
        Some(p) => {
            rewrite_expr(p, a);
        },
        None => {},
    }
}

fn rewrite_opt(o: &mut Option<Expr>, a: &NameSet)
    ensures
        opt_view(*final(o)) == rw_opt(opt_view(*old(o)), a@),
    decreases *old(o), 0nat,
{
    match o {
        Some(p) => {
            rewrite_expr(p, a);
        },
        None => {},
    }
}

fn rewrite_optblock(o: &mut Option<Vec<Stmt>>, a: &NameSet)
    ensures
        optblock_view(*final(o)) == rw_optblock(optblock_view(*old(o)), a@),
    decreases *old(o), 0nat,
{
    match o {
        Some(p) => {
            rewrite_block(p, a);
        },
        None => {},
    }
}

fn rewrite_params(v: &mut Vec<Param>, a: &NameSet)
    ensures
        params_view(final(v)@) == rw_params(params_view(old(v)@), a@),
{
    let ghost v0 = v@;
    let len: usize = v.len();
    let mut i: usize = 0;
    while i < len
        invariant
            i <= len,
            len == v@.len(),
            len == v0.len(),
            forall|j: int|
                0 <= j < i ==> (#[trigger] v@[j])@ == (ParamView {
                    default: rw_opt(v0[j]@.default, a@),
                    ..v0[j]@
                }),
            tail_kept(v@, v0, i as int),
        decreases len - i,
    {
        rewrite_opt(&mut v[i].default, a);
        i += 1;
    }
    assert(params_view(v@) =~= rw_params(params_view(v0), a@));
}

fn rewrite_fn(f: &mut FnDef, a: &NameSet)
    ensures
        final(f)@ == rw_fn(old(f)@, a@),
{
    rewrite_params(&mut f.params, a);
    rewrite_block(&mut f.body, a);
}

fn rewrite_methods(v: &mut Vec<FnDef>, a: &NameSet)
    ensures
        fns_view(final(v)@) == rw_methods(fns_view(old(v)@), a@),
{
    let ghost v0 = v@;
    let len: usize = v.len();
    let mut i: usize = 0;
    while i < len
        invariant
            i <= len,
            len == v@.len(),
            len == v0.len(),
            forall|j: int|
                0 <= j < i ==> (#[trigger] v@[j])@ == rw_fn(v0[j]@, a@),
            tail_kept(v@, v0, i as int),
        decreases len - i,
    {
        rewrite_fn(&mut v[i], a);
        i += 1;
    }
    assert(fns_view(v@) =~= rw_methods(fns_view(v0), a@));
}

fn rewrite_item(i: &mut Item, a: &NameSet)
    ensures
        final(i)@ == rw_item(old(i)@, a@),
{
    match i {
        Item::Fn(f) => rewrite_fn(f, a),
        Item::Struct(s) => rewrite_methods(&mut s.methods, a),
        Item::Stmt(s) => rewrite_stmt(s, a),
        _ => {},
    }
}

/// Resolves the references through the aliases `a` in all items.
pub fn rewrite_program(a: &NameSet, items: &mut Vec<Item>)
    ensures
        prog_view(final(items)@) == rw_items(prog_view(old(items)@), a@),
{
    let ghost v0 = items@;
    let len: usize = items.len();
    let mut i: usize = 0;
    while i < len
        invariant
            i <= len,
            len == items@.len(),
            len == v0.len(),
            forall|j: int| 0 <= j < i ==> (#[trigger] items@[j])@ == rw_item(v0[j]@, a@),
            tail_kept(items@, v0, i as int),
        decreases len - i,
    {
        rewrite_item(&mut items[i], a);
        i += 1;
    }
    assert(prog_view(items@) =~= rw_items(prog_view(v0), a@));
}

/// Whether an expression is no reference through an alias.
pub open spec fn is_bare(e: ExprView, a: Set<Seq<char>>) -> bool {
    match e {
        ExprView::Method { obj, .. } => !is_module_ref(*obj, a),
        ExprView::Field { obj, .. } => !is_module_ref(*obj, a),
        _ => true,
    }
}

/// That an expression is no reference through an alias.
pub open spec fn bare(a: Set<Seq<char>>) -> Prop {
    |e: ExprView| is_bare(e, a)
}

proof fn expr_bare(e: ExprView, a: Set<Seq<char>>)
    ensures
        every_expr(rw_expr(e, a), bare(a)),
    decreases e,
{
    match e {
        ExprView::Unary { expr, .. } => expr_bare(*expr, a),
        ExprView::Binary { lhs, rhs, .. } => {
            expr_bare(*lhs, a);
            expr_bare(*rhs, a);
        },
        ExprView::Call { callee, args } => {
            expr_bare(*callee, a);
            exprs_bare(args, a);
        },
        ExprView::NamedCall { callee, args } => {
            expr_bare(*callee, a);
            named_bare(args, a);
        },
        ExprView::Method { obj, name, args } => {
            expr_bare(*obj, a);
            exprs_bare(args, a);
            assert(every_expr(ExprView::Ident(name), bare(a)));
        },
        ExprView::Field { obj, name } => {
            expr_bare(*obj, a);
            assert(every_expr(ExprView::Ident(name), bare(a)));
        },
        ExprView::Index { obj, index } => {
            expr_bare(*obj, a);
            expr_bare(*index, a);
        },
        ExprView::Slice { obj, lo, hi } => {
            expr_bare(*obj, a);
            optbox_bare(lo, a);
            optbox_bare(hi, a);
        },
        ExprView::List(p) => exprs_bare(p, a),
        ExprView::MapLit(p) => pairs_bare(p, a),
        ExprView::Range { lo, hi } => {
            expr_bare(*lo, a);
            expr_bare(*hi, a);
        },
        ExprView::IfElse { cond, then, els } => {
            expr_bare(*cond, a);
            expr_bare(*then, a);
            expr_bare(*els, a);
        },
        ExprView::ListComp { elem, iter, cond, .. } => {
            expr_bare(*elem, a);
            expr_bare(*iter, a);
            optbox_bare(cond, a);
        },
        ExprView::FStr(p) => parts_bare(p, a),
        ExprView::Lambda { body, .. } => block_bare(body, a),
        ExprView::Closure { captures, .. } => exprs_bare(captures, a),
        _ => {},
    }
}

proof fn optbox_bare(o: Option<Box<ExprView>>, a: Set<Seq<char>>)
    ensures
        every_optbox(rw_optbox(o, a), bare(a)),
    decreases o,
{
    if let Some(e) = o {
        expr_bare(*e, a);
    }
}

proof fn opt_bare(o: Option<ExprView>, a: Set<Seq<char>>)
    ensures
        every_opt(rw_opt(o, a), bare(a)),
    decreases o,
{
    if let Some(e) = o {
        expr_bare(e, a);
    }
}

proof fn exprs_bare(s: Seq<ExprView>, a: Set<Seq<char>>)
    ensures
        every_exprs(rw_exprs(s, a), bare(a)),
    decreases s,
{
    if s.len() > 0 {
        exprs_bare(s.drop_last(), a);
        expr_bare(s.last(), a);
    }
}

proof fn named_bare(s: Seq<(Seq<char>, ExprView)>, a: Set<Seq<char>>)
    ensures
        every_named(rw_named(s, a), bare(a)),
    decreases s,
{
    if s.len() > 0 {
        named_bare(s.drop_last(), a);
        expr_bare(s.last().1, a);
    }
}

proof fn pairs_bare(s: Seq<(ExprView, ExprView)>, a: Set<Seq<char>>)
    ensures
        every_pairs(rw_pairs(s, a), bare(a)),
    decreases s,
{
    if s.len() > 0 {
        pairs_bare(s.drop_last(), a);
        expr_bare(s.last().0, a);
        expr_bare(s.last().1, a);
    }
}

proof fn parts_bare(s: Seq<FStrPartView>, a: Set<Seq<char>>)
    ensures
        every_parts(rw_parts(s, a), bare(a)),
    decreases s,
{
    if s.len() > 0 {
        parts_bare(s.drop_last(), a);
        if let FStrPartView::Expr(e) = s.last() {
            expr_bare(e, a);
        }
    }
}

proof fn stmt_bare(s: StmtView, a: Set<Seq<char>>)
    ensures
        every_stmt(rw_stmt(s, a), bare(a)),
    decreases s,
{
    match s {
        StmtView::Let { value, .. } => expr_bare(value, a),
        StmtView::Assign { target, value } => {
            expr_bare(target, a);
            expr_bare(value, a);
        },
        StmtView::ExprStmt(p) => expr_bare(p, a),
        StmtView::Return(p) => opt_bare(p, a),
        StmtView::If { cond, then, elifs, els } => {
            expr_bare(cond, a);
            block_bare(then, a);
            elifs_bare(elifs, a);
            optblock_bare(els, a);
        },
        StmtView::While { cond, body } => {
            expr_bare(cond, a);
            block_bare(body, a);
        },
        StmtView::For { iter, body, .. } => {
            expr_bare(iter, a);
            block_bare(body, a);
        },
        StmtView::Try { body, catch_body, .. } => {
            block_bare(body, a);
            block_bare(catch_body, a);
        },
        StmtView::Raise(p) => expr_bare(p, a),
        _ => {},
    }
}

proof fn block_bare(s: Seq<StmtView>, a: Set<Seq<char>>)
    ensures
        every_block(rw_block(s, a), bare(a)),
    decreases s,
{
    if s.len() > 0 {
        block_bare(s.drop_last(), a);
        stmt_bare(s.last(), a);
    }
}

proof fn elifs_bare(s: Seq<(ExprView, Seq<StmtView>)>, a: Set<Seq<char>>)
    ensures
        every_elifs(rw_elifs(s, a), bare(a)),
    decreases s,
{
    if s.len() > 0 {
        elifs_bare(s.drop_last(), a);
        expr_bare(s.last().0, a);
        block_bare(s.last().1, a);
    }
}

proof fn optblock_bare(o: Option<Seq<StmtView>>, a: Set<Seq<char>>)
    ensures
        every_optblock(rw_optblock(o, a), bare(a)),
    decreases o,
{
    if let Some(e) = o {
        block_bare(e, a);
    }
}

proof fn fn_bare(f: FnDefView, a: Set<Seq<char>>)
    ensures
        every_fn(rw_fn(f, a), bare(a)),
{
    let s = rw_params(f.params, a);
    assert forall|i: int| 0 <= i < s.len() implies every_opt(
        (#[trigger] s[i]).default,
        bare(a),
    ) by {
        opt_bare(f.params[i].default, a);
    }
    block_bare(f.body, a);
}

/// No reference through an alias is left anywhere in a program that was rewritten.
pub proof fn rewriting_leaves_no_alias(s: Seq<ItemView>, a: Set<Seq<char>>)
    ensures
        everywhere(rw_items(s, a), bare(a)),
{
    let r = rw_items(s, a);
    assert forall|i: int| 0 <= i < r.len() implies every_item(#[trigger] r[i], bare(a)) by {
        match s[i] {
            ItemView::Fn(f) => fn_bare(f, a),
            ItemView::Struct(d) => {
                let m = rw_methods(d.methods, a);
                assert forall|k: int| 0 <= k < m.len() implies every_fn(
                    #[trigger] m[k],
                    bare(a),
                ) by {
                    fn_bare(d.methods[k], a);
                }
                assert(every_method(m, bare(a)));
            },
            ItemView::Stmt(t) => stmt_bare(t, a),
            _ => {},
        }
    }
}

/// Whether an import is read from a file: a relative one always, an absolute one
/// unless it names a built-in module.
pub open spec fn from_file_spec(d: ImportDefView) -> bool {
    d.level != 0 || !is_module_spec(d.module)
}

pub fn from_file(d: &ImportDef) -> (r: bool)
    ensures
        r == from_file_spec(d@),
{
    d.level != 0 || !is_module(d.module.as_str())
}

/// A part of a path, unless it is empty.
pub open spec fn flush(part: Seq<char>) -> Seq<Seq<char>> {
    if part.len() == 0 {
        Seq::empty()
    } else {
        seq![part]
    }
}

/// The parts of a module path between its dots, without the empty ones; `part` is
/// what was read of the first.
pub open spec fn split_dots(s: Seq<char>, part: Seq<char>) -> Seq<Seq<char>>
    decreases s.len(),
{
    if s.len() == 0 {
        flush(part)
    } else if s[0] == '.' {
        flush(part) + split_dots(s.drop_first(), Seq::empty())
    } else {
        split_dots(s.drop_first(), part.push(s[0]))
    }
}

pub open spec fn segments_spec(s: Seq<char>) -> Seq<Seq<char>> {
    split_dots(s, Seq::empty())
}

/// The name that an import is referred to by: its alias, else the last part of its
/// path.
pub open spec fn access_name_spec(d: ImportDefView) -> Seq<char> {
    match d.alias {
        Some(a) => a,
        None => {
            let segs = segments_spec(d.module);
            if segs.len() > 0 {
                segs.last()
            } else {
                d.module
            }
        },
    }
}

fn flush_part(out: &mut Vec<String>, part: String)
    ensures
        strs_view(final(out)@) == strs_view(old(out)@) + flush(part@),
{
    let ghost o0 = out@;
    if !part.as_str().is_empty() {
        out.push(part);
        assert(strs_view(out@) =~= strs_view(o0) + flush(part@));
    } else {
        assert(strs_view(out@) =~= strs_view(o0) + flush(part@));
    }
}

/// The parts of a module path.
pub fn segments(module: &str) -> (r: Vec<String>)
    ensures
        strs_view(r@) == segments_spec(module@),
{
    let n: usize = module.unicode_len();
    let mut out: Vec<String> = Vec::new();
    let mut part = String::new();
    let ghost s = module@;
    assert(s.skip(0) =~= s);
    assert(strs_view(out@) + split_dots(s, part@) =~= split_dots(s, part@));
    for i in 0..n
        invariant
            s == module@,
            n == s.len(),
            strs_view(out@) + split_dots(s.skip(i as int), part@) == segments_spec(s),
    {
        let c = module.get_char(i);
        let ghost here = s.skip(i as int);
        assert(here[0] == c);
        assert(here.drop_first() =~= s.skip(i + 1));
        if c == '.' {
            let ghost o0 = strs_view(out@);
            let mut done = String::new();
            std::mem::swap(&mut part, &mut done);
            let ghost d = done@;
            flush_part(&mut out, done);
            assert(o0 + (flush(d) + split_dots(here.drop_first(), Seq::empty())) =~= (o0 + flush(
                d
            )) + split_dots(here.drop_first(), Seq::empty()));
        } else {
            push_char(&mut part, c);
        }
    }
    assert(s.skip(n as int) =~= Seq::empty());
    flush_part(&mut out, part);
    out
}

/// The name that an import is referred to by.
pub fn access_name(d: &ImportDef) -> (r: String)
    ensures
        r@ == access_name_spec(d@),
{
    match &d.alias {
        Some(a) => a.clone(),
        None => {
            let segs = segments(d.module.as_str());
            if segs.len() > 0 {
                assert(strs_view(segs@).last() == segs@.last()@);
                segs[segs.len() - 1].clone()
            } else {
                d.module.clone()
            }
        },
    }
}

/// Whether an item of a module is visible to those that import it.
pub open spec fn is_shared(i: ItemView) -> bool {
    i is Fn || i is Struct || i is ExternBlock
}

/// The items that a module hands out, with its own references resolved.
pub open spec fn shared_items(items: Seq<ItemView>, a: Set<Seq<char>>) -> Seq<ItemView> {
    rw_items(items.filter(|i: ItemView| is_shared(i)), a)
}

/// Takes over what a parsed module hands out, behind the items taken over before.
pub fn take_module(out: &mut Vec<Item>, module: Vec<Item>, a: &NameSet)
    ensures
        prog_view(final(out)@) == prog_view(old(out)@) + shared_items(prog_view(module@), a@),
{
    let ghost o0 = prog_view(out@);
    let ghost all = prog_view(module@);
    let ghost keep = |i: ItemView| is_shared(i);
    let mut kept: Vec<Item> = Vec::new();
    let ghost m0 = module@;
    assert(all.take(0).filter(keep) =~= Seq::empty()) by {
        reveal(Seq::filter);
    }
    assert(prog_view(kept@) =~= Seq::empty());
    for x in it: module
        invariant
            it.seq() == m0,
            all == prog_view(m0),
            keep == (|i: ItemView| is_shared(i)),
            prog_view(kept@) == all.take(it.index() as int).filter(keep),
    {
        let ghost k0 = kept@;
        proof {
            reveal(Seq::filter);
        }
        assert(all.take(it.index() + 1).drop_last() =~= all.take(it.index() as int));
        assert(all.take(it.index() + 1).last() == x@);
        let shared = match &x {
            Item::Fn(_) => true,
            Item::Struct(_) => true,
            Item::ExternBlock(_) => true,
            _ => false,
        };
        if shared {
            kept.push(x);
            assert(prog_view(kept@) =~= prog_view(k0).push(x@));
        }
    }
    assert(all.take(all.len() as int) =~= all);
    rewrite_program(a, &mut kept);
    let ghost kv = kept@;
    let ghost ov = out@;
    out.append(&mut kept);
    assert(prog_view(out@) =~= o0 + prog_view(kv));
}

} // verus!
