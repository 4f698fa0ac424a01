//! Lifting leaves no lambda in a program.

use crate::ast::{ExprView, FStrPartView, FnDefView, ItemView, ParamView, StmtView};
use crate::desugar::dec_nat_injective;
use crate::lift::{
    asg_block, asg_opt, capt_block, capt_opt, cell_index_spec, cell_scope, celled, cells_of,
    cl_block, cl_captures, cl_elifs, cl_expr, cl_exprs, cl_named, cl_optbox, cl_pairs, cl_parts,
    cl_stmt, dynamic_params, fn_items, fn_names, handed_name, idents, lambda_captures, lambda_name,
    lf_block, lf_elifs, lf_expr, lf_exprs, lf_named, lf_optblock, lf_optbox, lf_pairs, lf_parts,
    lf_stmt, lift_default, lift_lambda, lift_methods, lift_params, lift_tops, lift_unit, lift_units,
    lifted, open_cell, opened, param_cells, top_stmts, Lift,
};
use crate::text::dec_nat;
use vstd::prelude::*;

verus! {

/// Which forms of a function value a program may hold.
pub enum Form {
    /// Lambdas, as the source has them.
    Lambdas,
    /// Closures over functions, as the back ends know them.
    Closures,
}

/// Whether the function values in an expression are all of one form.
pub open spec fn ok_expr(e: ExprView, k: Form) -> bool
    decreases e,
{
    match e {
        ExprView::Unary { expr, .. } => ok_expr(*expr, k),
        ExprView::Binary { lhs, rhs, .. } => ok_expr(*lhs, k) && ok_expr(*rhs, k),
        ExprView::Call { callee, args } => ok_expr(*callee, k) && ok_exprs(args, k),
        ExprView::NamedCall { callee, args } => ok_expr(*callee, k) && ok_named(args, k),
        ExprView::Method { obj, args, .. } => ok_expr(*obj, k) && ok_exprs(args, k),
        ExprView::Field { obj, .. } => ok_expr(*obj, k),
        ExprView::Index { obj, index } => ok_expr(*obj, k) && ok_expr(*index, k),
        ExprView::Slice { obj, lo, hi } => {
            &&& ok_expr(*obj, k)
            &&& ok_optbox(lo, k)
            &&& ok_optbox(hi, k)
        },
        ExprView::List(p) => ok_exprs(p, k),
        ExprView::MapLit(p) => ok_pairs(p, k),
        ExprView::Range { lo, hi } => ok_expr(*lo, k) && ok_expr(*hi, k),
        ExprView::IfElse { cond, then, els } => {
            &&& ok_expr(*cond, k)
            &&& ok_expr(*then, k)
            &&& ok_expr(*els, k)
        },
        ExprView::ListComp { elem, iter, cond, .. } => {
            &&& ok_expr(*elem, k)
            &&& ok_expr(*iter, k)
            &&& ok_optbox(cond, k)
        },
        ExprView::FStr(p) => ok_parts(p, k),
        ExprView::Lambda { body, .. } => k is Lambdas && ok_block(body, k),
        ExprView::Closure { captures, .. } => k is Closures && ok_exprs(captures, k),
        _ => true,
    }
}

pub open spec fn ok_optbox(o: Option<Box<ExprView>>, k: Form) -> bool
    decreases o,
{
    match o {
        Some(e) => ok_expr(*e, k),
        None => true,
    }
}

pub open spec fn ok_exprs(s: Seq<ExprView>, k: Form) -> bool
    decreases s,
{
    forall|i: int| 0 <= i < s.len() ==> ok_expr(#[trigger] s[i], k)
}

pub open spec fn ok_named(s: Seq<(Seq<char>, ExprView)>, k: Form) -> bool
    decreases s,
{
    forall|i: int| 0 <= i < s.len() ==> ok_expr((#[trigger] s[i]).1, k)
}

pub open spec fn ok_pairs(s: Seq<(ExprView, ExprView)>, k: Form) -> bool
    decreases s,
{
    forall|i: int| 0 <= i < s.len() ==> ok_expr((#[trigger] s[i]).0, k) && ok_expr(s[i].1, k)
}

pub open spec fn ok_part(p: FStrPartView, k: Form) -> bool
    decreases p,
{
    match p {
        FStrPartView::Expr(e) => ok_expr(e, k),
        _ => true,
    }
}

pub open spec fn ok_parts(s: Seq<FStrPartView>, k: Form) -> bool
    decreases s,
{
    forall|i: int| 0 <= i < s.len() ==> ok_part(#[trigger] s[i], k)
}

/// Whether the function values in a statement are all of one form.
pub open spec fn ok_stmt(s: StmtView, k: Form) -> bool
    decreases s,
{
    match s {
        StmtView::Let { value, .. } => ok_expr(value, k),
        StmtView::Assign { target, value } => ok_expr(target, k) && ok_expr(value, k),
        StmtView::ExprStmt(p) => ok_expr(p, k),
        StmtView::Return(p) => match p {
            Some(e) => ok_expr(e, k),
            None => true,
        },
        StmtView::If { cond, then, elifs, els } => {
            &&& ok_expr(cond, k)
            &&& ok_block(then, k)
            &&& ok_elifs(elifs, k)
            &&& ok_optblock(els, k)
        },
        StmtView::While { cond, body } => ok_expr(cond, k) && ok_block(body, k),
        StmtView::For { iter, body, .. } => ok_expr(iter, k) && ok_block(body, k),
        StmtView::Try { body, catch_body, .. } => ok_block(body, k) && ok_block(catch_body, k),
        StmtView::Raise(p) => ok_expr(p, k),
        _ => true,
    }
}

pub open spec fn ok_block(s: Seq<StmtView>, k: Form) -> bool
    decreases s,
{
    forall|i: int| 0 <= i < s.len() ==> ok_stmt(#[trigger] s[i], k)
}

pub open spec fn ok_elifs(s: Seq<(ExprView, Seq<StmtView>)>, k: Form) -> bool
    decreases s,
{
    forall|i: int| 0 <= i < s.len() ==> ok_expr((#[trigger] s[i]).0, k) && ok_block(s[i].1, k)
}

pub open spec fn ok_optblock(o: Option<Seq<StmtView>>, k: Form) -> bool
    decreases o,
{
    match o {
        Some(b) => ok_block(b, k),
        None => true,
    }
}

pub open spec fn ok_opt(o: Option<ExprView>, k: Form) -> bool
    decreases o,
{
    match o {
        Some(e) => ok_expr(e, k),
        None => true,
    }
}

pub open spec fn ok_params(s: Seq<ParamView>, k: Form) -> bool {
    forall|i: int| 0 <= i < s.len() ==> ok_opt((#[trigger] s[i]).default, k)
}

/// Whether the function values in a function are all of one form, in its defaults and in
/// its body.
pub open spec fn ok_fn(f: FnDefView, k: Form) -> bool {
    ok_params(f.params, k) && ok_block(f.body, k)
}

pub open spec fn ok_fns(s: Seq<FnDefView>, k: Form) -> bool {
    forall|i: int| 0 <= i < s.len() ==> ok_fn(#[trigger] s[i], k)
}

/// Whether the function values in an item are all of one form.
pub open spec fn ok_item(i: ItemView, k: Form) -> bool {
    match i {
        ItemView::Fn(f) => ok_fn(f, k),
        ItemView::Struct(s) => ok_fns(s.methods, k),
        ItemView::Stmt(s) => ok_stmt(s, k),
        _ => true,
    }
}

pub open spec fn ok_items(s: Seq<ItemView>, k: Form) -> bool {
    forall|i: int| 0 <= i < s.len() ==> ok_item(#[trigger] s[i], k)
}

proof fn held_ok(from: Seq<char>, k: Form)
    ensures
        ok_expr(ExprView::List(seq![ExprView::Ident(from)]), k),
{
    let held = seq![ExprView::Ident(from)];
    assert forall|i: int| 0 <= i < held.len() implies ok_expr(#[trigger] held[i], k) by {
        assert(held[i] == ExprView::Ident(from));
    }
    assert(ok_exprs(held, k));
}

proof fn cells_of_ok(var: Seq<char>, iter: ExprView, c: Set<Seq<char>>, k: Form)
    requires
        ok_expr(iter, k),
    ensures
        ok_expr(cells_of(var, iter, c), k),
{
    held_ok(handed_name(var), k);
    assert(ok_optbox(None, k));
}

/// Cells change no function value.
proof fn cell_expr_ok(e: ExprView, c: Set<Seq<char>>, k: Form)
    requires
        ok_expr(e, k),
    ensures
        ok_expr(cl_expr(e, c), k),
    decreases e,
{
    match e {
        ExprView::Unary { expr, .. } => cell_expr_ok(*expr, c, k),
        ExprView::Binary { lhs, rhs, .. } => {
            cell_expr_ok(*lhs, c, k);
            cell_expr_ok(*rhs, c, k);
        },
        ExprView::Call { callee, args } => {
            cell_expr_ok(*callee, c, k);
            cell_exprs_ok(args, c, k);
        },
        ExprView::NamedCall { callee, args } => {
            cell_expr_ok(*callee, c, k);
            cell_named_ok(args, c, k);
        },
        ExprView::Method { obj, args, .. } => {
            cell_expr_ok(*obj, c, k);
            cell_exprs_ok(args, c, k);
        },
        ExprView::Field { obj, .. } => cell_expr_ok(*obj, c, k),
        ExprView::Index { obj, index } => {
            cell_expr_ok(*obj, c, k);
            cell_expr_ok(*index, c, k);
        },
        ExprView::Slice { obj, lo, hi } => {
            cell_expr_ok(*obj, c, k);
            cell_optbox_ok(lo, c, k);
            cell_optbox_ok(hi, c, k);
        },
        ExprView::List(p) => cell_exprs_ok(p, c, k),
        ExprView::MapLit(p) => cell_pairs_ok(p, c, k),
        ExprView::Range { lo, hi } => {
            cell_expr_ok(*lo, c, k);
            cell_expr_ok(*hi, c, k);
        },
        ExprView::IfElse { cond, then, els } => {
            cell_expr_ok(*cond, c, k);
            cell_expr_ok(*then, c, k);
            cell_expr_ok(*els, c, k);
        },
        ExprView::ListComp { elem, var, iter, cond } => {
            cell_expr_ok(*elem, c, k);
            cell_expr_ok(*iter, c, k);
            cell_optbox_ok(cond, c, k);
            cells_of_ok(var, cl_expr(*iter, c), c, k);
        },
        ExprView::FStr(p) => cell_parts_ok(p, c, k),
        ExprView::Ident(_) => {
            let i = ExprView::Int(0);
            assert(ok_expr(i, k));
        },
        ExprView::Closure { captures, .. } => cell_captures_ok(captures, c, k),
        _ => {},
    }
}

proof fn cell_optbox_ok(o: Option<Box<ExprView>>, c: Set<Seq<char>>, k: Form)
    requires
        ok_optbox(o, k),
    ensures
        ok_optbox(cl_optbox(o, c), k),
    decreases o,
{
    if let Some(e) = o {
        cell_expr_ok(*e, c, k);
    }
}

proof fn cell_captures_ok(s: Seq<ExprView>, c: Set<Seq<char>>, k: Form)
    requires
        ok_exprs(s, k),
    ensures
        ok_exprs(cl_captures(s, c), k),
    decreases s,
{
    if s.len() > 0 {
        let last = s[s.len() - 1];
        assert(ok_exprs(s.drop_last(), k));
        cell_captures_ok(s.drop_last(), c, k);
        cell_expr_ok(last, c, k);
    }
}

proof fn cell_exprs_ok(s: Seq<ExprView>, c: Set<Seq<char>>, k: Form)
    requires
        ok_exprs(s, k),
    ensures
        ok_exprs(cl_exprs(s, c), k),
    decreases s,
{
    if s.len() > 0 {
        let last = s[s.len() - 1];
        assert(ok_exprs(s.drop_last(), k));
        cell_exprs_ok(s.drop_last(), c, k);
        cell_expr_ok(last, c, k);
    }
}

proof fn cell_named_ok(s: Seq<(Seq<char>, ExprView)>, c: Set<Seq<char>>, k: Form)
    requires
        ok_named(s, k),
    ensures
        ok_named(cl_named(s, c), k),
    decreases s,
{
    if s.len() > 0 {
        let last = s[s.len() - 1];
        assert(ok_named(s.drop_last(), k));
        cell_named_ok(s.drop_last(), c, k);
        cell_expr_ok(last.1, c, k);
    }
}

proof fn cell_pairs_ok(s: Seq<(ExprView, ExprView)>, c: Set<Seq<char>>, k: Form)
    requires
        ok_pairs(s, k),
    ensures
        ok_pairs(cl_pairs(s, c), k),
    decreases s,
{
    if s.len() > 0 {
        let last = s[s.len() - 1];
        assert(ok_pairs(s.drop_last(), k));
        cell_pairs_ok(s.drop_last(), c, k);
        cell_expr_ok(last.0, c, k);
        cell_expr_ok(last.1, c, k);
    }
}

proof fn cell_parts_ok(s: Seq<FStrPartView>, c: Set<Seq<char>>, k: Form)
    requires
        ok_parts(s, k),
    ensures
        ok_parts(cl_parts(s, c), k),
    decreases s,
{
    if s.len() > 0 {
        let last = s[s.len() - 1];
        assert(ok_parts(s.drop_last(), k));
        cell_parts_ok(s.drop_last(), c, k);
        assert(ok_part(last, k));
        if let FStrPartView::Expr(e) = last {
            cell_expr_ok(e, c, k);
        }
    }
}

proof fn open_cell_ok(name: Seq<char>, from: Seq<char>, k: Form)
    ensures
        ok_stmt(open_cell(name, from), k),
{
    held_ok(from, k);
}

proof fn opened_ok(name: Seq<char>, body: Seq<StmtView>, c: Set<Seq<char>>, k: Form)
    requires
        ok_block(body, k),
    ensures
        ok_block(opened(name, body, c), k),
{
    let r = opened(name, body, c);
    open_cell_ok(name, handed_name(name), k);
    assert forall|i: int| 0 <= i < r.len() implies ok_stmt(#[trigger] r[i], k) by {
        if c.contains(name) && i > 0 {
            assert(r[i] == body[i - 1]);
        }
    }
}

proof fn param_cells_ok(ps: Seq<ParamView>, c: Set<Seq<char>>, k: Form)
    ensures
        ok_block(param_cells(ps, c), k),
    decreases ps.len(),
{
    if ps.len() > 0 {
        param_cells_ok(ps.drop_last(), c, k);
        open_cell_ok(ps.last().name, ps.last().name, k);
    }
}

proof fn cell_stmt_ok(s: StmtView, c: Set<Seq<char>>, k: Form)
    requires
        ok_stmt(s, k),
    ensures
        ok_stmt(cl_stmt(s, c), k),
    decreases s,
{
    match s {
        StmtView::Let { value, .. } => {
            cell_expr_ok(value, c, k);
            let one = seq![cl_expr(value, c)];
            assert(ok_exprs(one, k)) by {
                assert forall|i: int| 0 <= i < one.len() implies ok_expr(#[trigger] one[i], k) by {
                    assert(one[i] == cl_expr(value, c));
                }
            }
            assert(ok_expr(ExprView::List(one), k));
        },
        StmtView::Assign { target, value } => {
            cell_expr_ok(target, c, k);
            cell_expr_ok(value, c, k);
        },
        StmtView::ExprStmt(p) => cell_expr_ok(p, c, k),
        StmtView::Return(p) => {
            if let Some(e) = p {
                cell_expr_ok(e, c, k);
            }
        },
        StmtView::If { cond, then, elifs, els } => {
            cell_expr_ok(cond, c, k);
            cell_block_ok(then, c, k);
            cell_elifs_ok(elifs, c, k);
            if let Some(b) = els {
                cell_block_ok(b, c, k);
            }
        },
        StmtView::While { cond, body } => {
            cell_expr_ok(cond, c, k);
            cell_block_ok(body, c, k);
        },
        StmtView::For { var, iter, body } => {
            cell_expr_ok(iter, c, k);
            cell_block_ok(body, c, k);
            opened_ok(var, cl_block(body, c), c, k);
        },
        StmtView::Try { body, catch_var, catch_body } => {
            cell_block_ok(body, c, k);
            cell_block_ok(catch_body, c, k);
            opened_ok(catch_var, cl_block(catch_body, c), c, k);
        },
        StmtView::Raise(p) => cell_expr_ok(p, c, k),
        _ => {},
    }
}

proof fn cell_block_ok(s: Seq<StmtView>, c: Set<Seq<char>>, k: Form)
    requires
        ok_block(s, k),
    ensures
        ok_block(cl_block(s, c), k),
    decreases s,
{
    if s.len() > 0 {
        let last = s[s.len() - 1];
        assert(ok_block(s.drop_last(), k));
        cell_block_ok(s.drop_last(), c, k);
        cell_stmt_ok(last, c, k);
    }
}

proof fn cell_elifs_ok(s: Seq<(ExprView, Seq<StmtView>)>, c: Set<Seq<char>>, k: Form)
    requires
        ok_elifs(s, k),
    ensures
        ok_elifs(cl_elifs(s, c), k),
    decreases s,
{
    if s.len() > 0 {
        let last = s[s.len() - 1];
        assert(ok_elifs(s.drop_last(), k));
        cell_elifs_ok(s.drop_last(), c, k);
        cell_expr_ok(last.0, c, k);
        cell_block_ok(last.1, c, k);
    }
}

/// Whether what lifting made so far holds no lambda, and is numbered in order.
spec fn made(n: Lift) -> bool {
    &&& ok_fns(n.generated, Form::Closures)
    &&& n.counter as int == n.generated.len() as int % 0x1_0000_0000
    &&& forall|i: int|
        0 <= i < n.generated.len() ==> (#[trigger] n.generated[i]).name == lambda_name(
            (i % 0x1_0000_0000) as u32,
        )
}

proof fn lambda_lifted(params: Seq<Seq<char>>, body: Seq<StmtView>, c: Set<Seq<char>>, n: Lift)
    requires
        made(n),
        ok_block(body, Form::Closures),
    ensures
        ok_expr(lift_lambda(params, body, c, n).0, Form::Closures),
        made(lift_lambda(params, body, c, n).1),
{
    let k = Form::Closures;
    let captures = lambda_captures(params, body, n.globals);
    cell_block_ok(body, c, k);
    let own = dynamic_params(params);
    param_cells_ok(own, c, k);
    joined_ok(param_cells(own, c), cell_scope(body, c), k);
    let all = dynamic_params(captures + params);
    assert forall|i: int| 0 <= i < all.len() implies ok_opt((#[trigger] all[i]).default, k) by {
        assert(all[i].default is None);
    }
    let names = idents(captures);
    assert(ok_exprs(names, k)) by {
        assert forall|i: int| 0 <= i < names.len() implies ok_expr(#[trigger] names[i], k) by {
            assert(names[i] == ExprView::Ident(captures[i]));
        }
    }
}

proof fn joined_ok(a: Seq<StmtView>, b: Seq<StmtView>, k: Form)
    requires
        ok_block(a, k),
        ok_block(b, k),
    ensures
        ok_block(a + b, k),
{
    let all = a + b;
    assert forall|i: int| 0 <= i < all.len() implies ok_stmt(#[trigger] all[i], k) by {
        if i < a.len() {
            assert(all[i] == a[i]);
        } else {
            assert(all[i] == b[i - a.len()]);
        }
    }
}

proof fn expr_lifted(e: ExprView, c: Set<Seq<char>>, n: Lift)
    requires
        made(n),
        ok_expr(e, Form::Lambdas),
    ensures
        ok_expr(lf_expr(e, c, n).0, Form::Closures),
        made(lf_expr(e, c, n).1),
    decreases e,
{
    match e {
        ExprView::Unary { expr, .. } => expr_lifted(*expr, c, n),
        ExprView::Binary { lhs, rhs, .. } => {
            expr_lifted(*lhs, c, n);
            let n1 = lf_expr(*lhs, c, n).1;
            expr_lifted(*rhs, c, n1);
        },
        ExprView::Call { callee, args } => {
            expr_lifted(*callee, c, n);
            let n1 = lf_expr(*callee, c, n).1;
            exprs_lifted(args, c, n1);
        },
        ExprView::NamedCall { callee, args } => {
            expr_lifted(*callee, c, n);
            let n1 = lf_expr(*callee, c, n).1;
            named_lifted(args, c, n1);
        },
        ExprView::Method { obj, args, .. } => {
            expr_lifted(*obj, c, n);
            let n1 = lf_expr(*obj, c, n).1;
            exprs_lifted(args, c, n1);
        },
        ExprView::Field { obj, .. } => expr_lifted(*obj, c, n),
        ExprView::Index { obj, index } => {
            expr_lifted(*obj, c, n);
            let n1 = lf_expr(*obj, c, n).1;
            expr_lifted(*index, c, n1);
        },
        ExprView::Slice { obj, lo, hi } => {
            expr_lifted(*obj, c, n);
            let n1 = lf_expr(*obj, c, n).1;
            optbox_lifted(lo, c, n1);
            let n2 = lf_optbox(lo, c, n1).1;
            optbox_lifted(hi, c, n2);
        },
        ExprView::List(p) => exprs_lifted(p, c, n),
        ExprView::MapLit(p) => pairs_lifted(p, c, n),
        ExprView::Range { lo, hi } => {
            expr_lifted(*lo, c, n);
            let n1 = lf_expr(*lo, c, n).1;
            expr_lifted(*hi, c, n1);
        },
        ExprView::IfElse { cond, then, els } => {
            expr_lifted(*cond, c, n);
            let n1 = lf_expr(*cond, c, n).1;
            expr_lifted(*then, c, n1);
            let n2 = lf_expr(*then, c, n1).1;
            expr_lifted(*els, c, n2);
        },
        ExprView::ListComp { elem, iter, cond, .. } => {
            expr_lifted(*elem, c, n);
            let n1 = lf_expr(*elem, c, n).1;
            expr_lifted(*iter, c, n1);
            let n2 = lf_expr(*iter, c, n1).1;
            optbox_lifted(cond, c, n2);
        },
        ExprView::FStr(p) => parts_lifted(p, c, n),
        ExprView::Lambda { params, body } => {
            block_lifted(body, c, n);
            let (body1, n1) = lf_block(body, c, n);
            lambda_lifted(params, body1, c, n1);
        },
        _ => {},
    }
}

proof fn optbox_lifted(o: Option<Box<ExprView>>, c: Set<Seq<char>>, n: Lift)
    requires
        made(n),
        ok_optbox(o, Form::Lambdas),
    ensures
        ok_optbox(lf_optbox(o, c, n).0, Form::Closures),
        made(lf_optbox(o, c, n).1),
    decreases o,
{
    if let Some(e) = o {
        expr_lifted(*e, c, n);
    }
}

proof fn exprs_lifted(s: Seq<ExprView>, c: Set<Seq<char>>, n: Lift)
    requires
        made(n),
        ok_exprs(s, Form::Lambdas),
    ensures
        ok_exprs(lf_exprs(s, c, n).0, Form::Closures),
        made(lf_exprs(s, c, n).1),
    decreases s,
{
    if s.len() > 0 {
        let last = s[s.len() - 1];
        assert(ok_exprs(s.drop_last(), Form::Lambdas));
        exprs_lifted(s.drop_last(), c, n);
        let n1 = lf_exprs(s.drop_last(), c, n).1;
        expr_lifted(last, c, n1);
    }
}

proof fn named_lifted(s: Seq<(Seq<char>, ExprView)>, c: Set<Seq<char>>, n: Lift)
    requires
        made(n),
        ok_named(s, Form::Lambdas),
    ensures
        ok_named(lf_named(s, c, n).0, Form::Closures),
        made(lf_named(s, c, n).1),
    decreases s,
{
    if s.len() > 0 {
        let last = s[s.len() - 1];
        assert(ok_named(s.drop_last(), Form::Lambdas));
        named_lifted(s.drop_last(), c, n);
        let n1 = lf_named(s.drop_last(), c, n).1;
        expr_lifted(last.1, c, n1);
    }
}

proof fn pairs_lifted(s: Seq<(ExprView, ExprView)>, c: Set<Seq<char>>, n: Lift)
    requires
        made(n),
        ok_pairs(s, Form::Lambdas),
    ensures
        ok_pairs(lf_pairs(s, c, n).0, Form::Closures),
        made(lf_pairs(s, c, n).1),
    decreases s,
{
    if s.len() > 0 {
        let last = s[s.len() - 1];
        assert(ok_pairs(s.drop_last(), Form::Lambdas));
        pairs_lifted(s.drop_last(), c, n);
        let n1 = lf_pairs(s.drop_last(), c, n).1;
        expr_lifted(last.0, c, n1);
        expr_lifted(last.1, c, lf_expr(last.0, c, n1).1);
    }
}

proof fn parts_lifted(s: Seq<FStrPartView>, c: Set<Seq<char>>, n: Lift)
    requires
        made(n),
        ok_parts(s, Form::Lambdas),
    ensures
        ok_parts(lf_parts(s, c, n).0, Form::Closures),
        made(lf_parts(s, c, n).1),
    decreases s,
{
    if s.len() > 0 {
        let last = s[s.len() - 1];
        assert(ok_parts(s.drop_last(), Form::Lambdas));
        parts_lifted(s.drop_last(), c, n);
        let n1 = lf_parts(s.drop_last(), c, n).1;
        assert(ok_part(last, Form::Lambdas));
        if let FStrPartView::Expr(e) = last {
            expr_lifted(e, c, n1);
        }
    }
}

proof fn stmt_lifted(s: StmtView, c: Set<Seq<char>>, n: Lift)
    requires
        made(n),
        ok_stmt(s, Form::Lambdas),
    ensures
        ok_stmt(lf_stmt(s, c, n).0, Form::Closures),
        made(lf_stmt(s, c, n).1),
    decreases s,
{
    match s {
        StmtView::Let { value, .. } => expr_lifted(value, c, n),
        StmtView::Assign { target, value } => {
            expr_lifted(target, c, n);
            expr_lifted(value, c, lf_expr(target, c, n).1);
        },
        StmtView::ExprStmt(p) => expr_lifted(p, c, n),
        StmtView::Return(p) => {
            if let Some(e) = p {
                expr_lifted(e, c, n);
            }
        },
        StmtView::If { cond, then, elifs, els } => {
            let (_, n1) = lf_expr(cond, c, n);
            let (_, n2) = lf_block(then, c, n1);
            let (_, n3) = lf_elifs(elifs, c, n2);
            expr_lifted(cond, c, n);
            block_lifted(then, c, n1);
            elifs_lifted(elifs, c, n2);
            optblock_lifted(els, c, n3);
        },
        StmtView::While { cond, body } => {
            expr_lifted(cond, c, n);
            block_lifted(body, c, lf_expr(cond, c, n).1);
        },
        StmtView::For { iter, body, .. } => {
            expr_lifted(iter, c, n);
            block_lifted(body, c, lf_expr(iter, c, n).1);
        },
        StmtView::Try { body, catch_body, .. } => {
            block_lifted(body, c, n);
            block_lifted(catch_body, c, lf_block(body, c, n).1);
        },
        StmtView::Raise(p) => expr_lifted(p, c, n),
        _ => {},
    }
}

proof fn optblock_lifted(o: Option<Seq<StmtView>>, c: Set<Seq<char>>, n: Lift)
    requires
        made(n),
        ok_optblock(o, Form::Lambdas),
    ensures
        ok_optblock(lf_optblock(o, c, n).0, Form::Closures),
        made(lf_optblock(o, c, n).1),
    decreases o,
{
    if let Some(b) = o {
        block_lifted(b, c, n);
    }
}

proof fn block_lifted(s: Seq<StmtView>, c: Set<Seq<char>>, n: Lift)
    requires
        made(n),
        ok_block(s, Form::Lambdas),
    ensures
        ok_block(lf_block(s, c, n).0, Form::Closures),
        made(lf_block(s, c, n).1),
    decreases s,
{
    if s.len() > 0 {
        let last = s[s.len() - 1];
        assert(ok_block(s.drop_last(), Form::Lambdas));
        block_lifted(s.drop_last(), c, n);
        let n1 = lf_block(s.drop_last(), c, n).1;
        stmt_lifted(last, c, n1);
    }
}

proof fn elifs_lifted(s: Seq<(ExprView, Seq<StmtView>)>, c: Set<Seq<char>>, n: Lift)
    requires
        made(n),
        ok_elifs(s, Form::Lambdas),
    ensures
        ok_elifs(lf_elifs(s, c, n).0, Form::Closures),
        made(lf_elifs(s, c, n).1),
    decreases s,
{
    if s.len() > 0 {
        let last = s[s.len() - 1];
        assert(ok_elifs(s.drop_last(), Form::Lambdas));
        elifs_lifted(s.drop_last(), c, n);
        let n1 = lf_elifs(s.drop_last(), c, n).1;
        expr_lifted(last.0, c, n1);
        block_lifted(last.1, c, lf_expr(last.0, c, n1).1);
    }
}

proof fn default_lifted(o: Option<ExprView>, n: Lift)
    requires
        made(n),
        ok_opt(o, Form::Lambdas),
    ensures
        ok_opt(lift_default(o, n).0, Form::Closures),
        made(lift_default(o, n).1),
{
    let c = capt_opt(o, n.globals, Set::empty()).intersect(asg_opt(o, Set::empty()));
    if let Some(e) = o {
        cell_expr_ok(e, c, Form::Lambdas);
        expr_lifted(cl_expr(e, c), c, n);
    }
}

proof fn params_lifted(s: Seq<ParamView>, n: Lift)
    requires
        made(n),
        ok_params(s, Form::Lambdas),
    ensures
        ok_params(lift_params(s, n).0, Form::Closures),
        made(lift_params(s, n).1),
    decreases s.len(),
{
    if s.len() > 0 {
        let last = s[s.len() - 1];
        assert(ok_params(s.drop_last(), Form::Lambdas));
        params_lifted(s.drop_last(), n);
        default_lifted(last.default, lift_params(s.drop_last(), n).1);
    }
}

proof fn unit_lifted(f: FnDefView, n: Lift)
    requires
        made(n),
        ok_fn(f, Form::Lambdas),
    ensures
        ok_fn(lift_unit(f, n).0, Form::Closures),
        made(lift_unit(f, n).1),
{
    let c = celled(f.body, n.globals);
    let (first, rest) = (param_cells(f.params, c), cell_scope(f.body, c));
    params_lifted(f.params, n);
    cell_block_ok(f.body, c, Form::Lambdas);
    param_cells_ok(f.params, c, Form::Lambdas);
    joined_ok(first, rest, Form::Lambdas);
    block_lifted(first + rest, c, lift_params(f.params, n).1);
}

proof fn methods_lifted(s: Seq<FnDefView>, n: Lift)
    requires
        made(n),
        ok_fns(s, Form::Lambdas),
    ensures
        ok_fns(lift_methods(s, n).0, Form::Closures),
        made(lift_methods(s, n).1),
    decreases s.len(),
{
    if s.len() > 0 {
        let last = s[s.len() - 1];
        assert(ok_fns(s.drop_last(), Form::Lambdas));
        methods_lifted(s.drop_last(), n);
        unit_lifted(last, lift_methods(s.drop_last(), n).1);
    }
}

/// Whether a program is half done: its functions are lifted, its statements are not.
spec fn half_done(s: Seq<ItemView>) -> bool {
    forall|i: int| 0 <= i < s.len() ==> half_item(#[trigger] s[i])
}

spec fn half_item(i: ItemView) -> bool {
    ok_item(
        i,
        if i is Stmt {
            Form::Lambdas
        } else {
            Form::Closures
        },
    )
}

proof fn units_lifted(s: Seq<ItemView>, n: Lift)
    requires
        made(n),
        ok_items(s, Form::Lambdas),
    ensures
        half_done(lift_units(s, n).0),
        made(lift_units(s, n).1),
    decreases s.len(),
{
    if s.len() > 0 {
        let last = s[s.len() - 1];
        assert(ok_items(s.drop_last(), Form::Lambdas));
        units_lifted(s.drop_last(), n);
        let (init, n1) = lift_units(s.drop_last(), n);
        assert(ok_item(last, Form::Lambdas));
        match last {
            ItemView::Fn(f) => unit_lifted(f, n1),
            ItemView::Struct(d) => methods_lifted(d.methods, n1),
            _ => {},
        }
        let r = lift_units(s, n).0;
        assert forall|i: int| 0 <= i < r.len() implies half_item(#[trigger] r[i]) by {
            if i < init.len() {
                assert(r[i] == init[i]);
            }
        }
    }
}

proof fn tops_lifted(s: Seq<ItemView>, c: Set<Seq<char>>, n: Lift)
    requires
        made(n),
        half_done(s),
    ensures
        ok_items(lift_tops(s, c, n).0, Form::Closures),
        made(lift_tops(s, c, n).1),
    decreases s.len(),
{
    if s.len() > 0 {
        let last = s[s.len() - 1];
        assert(half_done(s.drop_last()));
        tops_lifted(s.drop_last(), c, n);
        let (init, n1) = lift_tops(s.drop_last(), c, n);
        assert(half_item(last));
        if let ItemView::Stmt(t) = last {
            cell_stmt_ok(t, c, Form::Lambdas);
            stmt_lifted(
                if c == Set::<Seq<char>>::empty() {
                    t
                } else {
                    cl_stmt(t, c)
                },
                c,
                n1,
            );
        }
        let r = lift_tops(s, c, n).0;
        assert forall|i: int| 0 <= i < r.len() implies ok_item(
            #[trigger] r[i],
            Form::Closures,
        ) by {
            if i < init.len() {
                assert(r[i] == init[i]);
            }
        }
    }
}

/// Lifting leaves no lambda: in a program of the source, which holds no closures, every
/// lambda becomes a function at the top, those in the defaults of parameters too.
pub proof fn lifting_leaves_no_lambda(s: Seq<ItemView>)
    requires
        ok_items(s, Form::Lambdas),
    ensures
        ok_items(lifted(s), Form::Closures),
{
    lifting_appends(s);
}

/// The functions that lambdas become stand behind the items of the program, and are
/// numbered from 0 on, so that no two have one name unless there are more than `2^32`.
pub proof fn lifting_appends(s: Seq<ItemView>)
    requires
        ok_items(s, Form::Lambdas),
    ensures
        ok_items(lifted(s), Form::Closures),
        lifted(s).len() >= s.len(),
        forall|i: int|
            s.len() <= i < lifted(s).len() ==> (#[trigger] lifted(s)[i]) is Fn
                && lifted(s)[i]->Fn_0.name == lambda_name(
                ((i - s.len()) % 0x1_0000_0000) as u32,
            ),
        forall|i: int, j: int|
            s.len() <= i < j < lifted(s).len() && lifted(s).len() - s.len() <= 0x1_0000_0000
                ==> (#[trigger] lifted(s)[i])->Fn_0.name != (#[trigger] lifted(s)[j])->Fn_0.name,
{
    let n0 = Lift { counter: 0, generated: Seq::empty(), globals: fn_names(s) };
    units_lifted(s, n0);
    let (s1, n1) = lift_units(s, n0);
    let c = celled(top_stmts(s1), n1.globals);
    tops_lifted(s1, c, n1);
    let (s2, n2) = lift_tops(s1, c, n1);
    let r = lifted(s);
    assert forall|i: int| 0 <= i < r.len() implies ok_item(#[trigger] r[i], Form::Closures) by {
        if i < s2.len() {
            assert(r[i] == s2[i]);
        } else {
            assert(r[i] == fn_items(n2.generated)[i - s2.len()]);
            assert(r[i] == ItemView::Fn(n2.generated[i - s2.len()]));
        }
    }
    units_len(s, n0);
    tops_len(s1, c, n1);
    assert forall|i: int| s.len() <= i < r.len() implies (#[trigger] r[i]) is Fn
        && r[i]->Fn_0.name == lambda_name(((i - s.len()) % 0x1_0000_0000) as u32) by {
        assert(r[i] == fn_items(n2.generated)[i - s2.len()]);
        assert(r[i] == ItemView::Fn(n2.generated[i - s2.len()]));
    }
    assert forall|i: int, j: int|
        s.len() <= i < j < r.len() && r.len() - s.len() <= 0x1_0000_0000 implies (
    #[trigger] r[i])->Fn_0.name != (#[trigger] r[j])->Fn_0.name by {
        let (x, y) = ((i - s.len()) as u32, (j - s.len()) as u32);
        assert(r[i]->Fn_0.name == lambda_name(x));
        assert(r[j]->Fn_0.name == lambda_name(y));
        names_differ(x, y);
    }
}

proof fn names_differ(x: u32, y: u32)
    requires
        x != y,
    ensures
        lambda_name(x) != lambda_name(y),
{
    let n = "__lambda_"@.len() as int;
    if lambda_name(x) == lambda_name(y) {
        assert(lambda_name(x).skip(n) =~= dec_nat(x as nat));
        assert(lambda_name(y).skip(n) =~= dec_nat(y as nat));
        dec_nat_injective(x as nat, y as nat);
    }
}

proof fn units_len(s: Seq<ItemView>, n: Lift)
    ensures
        lift_units(s, n).0.len() == s.len(),
    decreases s.len(),
{
    if s.len() > 0 {
        units_len(s.drop_last(), n);
    }
}

proof fn tops_len(s: Seq<ItemView>, c: Set<Seq<char>>, n: Lift)
    ensures
        lift_tops(s, c, n).0.len() == s.len(),
    decreases s.len(),
{
    if s.len() > 0 {
        tops_len(s.drop_last(), c, n);
    }
}

/// A variable that a lambda captures and that is assigned has a cell: where it is declared,
/// or comes from a loop, a comprehension or a `catch`, a list is made to hold it, and
/// elsewhere it is the first element of that list. Statements of the function and those of
/// the lambdas in it are treated alike.
pub proof fn shared_variables_have_cells(
    body: Seq<StmtView>,
    g: Set<Seq<char>>,
    x: Seq<char>,
    s: StmtView,
)
    requires
        capt_block(body, g, Set::empty()).contains(x),
        asg_block(body, Set::empty()).contains(x),
    ensures
        ({
            let c = celled(body, g);
            let t = cl_stmt(s, c);
            &&& cl_expr(ExprView::Ident(x), c) == cell_index_spec(x)
            &&& s is Let && s->Let_name == x ==> t->Let_value == ExprView::List(
                seq![cl_expr(s->Let_value, c)],
            )
            &&& s is Assign && s->Assign_target == ExprView::Ident(x) ==> t->Assign_target
                == cell_index_spec(x)
            &&& s is For && s->For_var == x ==> t->For_var != x && t->For_body.len() > 0
                && t->For_body[0] == open_cell(x, t->For_var)
            &&& s is Try && s->Try_catch_var == x ==> t->Try_catch_var != x
                && t->Try_catch_body.len() > 0 && t->Try_catch_body[0] == open_cell(
                x,
                t->Try_catch_var,
            )
            &&& forall|elem: ExprView, iter: ExprView, cond: Option<Box<ExprView>>|
                #[trigger] cl_expr(comp_over(elem, x, iter, cond), c) == comp_over(
                    cl_expr(elem, c),
                    x,
                    cells_of(x, cl_expr(iter, c), c),
                    cl_optbox(cond, c),
                )
            &&& forall|iter: ExprView| #[trigger]
                cells_of(x, iter, c) == comp_over(
                    ExprView::List(seq![ExprView::Ident(handed_name(x))]),
                    handed_name(x),
                    iter,
                    None,
                )
        }),
{
    let c = celled(body, g);
    reveal_strlit("#c");
    assert(handed_name(x).len() == x.len() + 2);
    match s {
        StmtView::For { body, .. } => {
            let b = cl_block(body, c);
            assert(opened(x, b, c)[0] == open_cell(x, handed_name(x)));
        },
        StmtView::Try { catch_body, .. } => {
            let b = cl_block(catch_body, c);
            assert(opened(x, b, c)[0] == open_cell(x, handed_name(x)));
        },
        _ => {},
    }
}

/// A comprehension.
pub open spec fn comp_over(
    elem: ExprView,
    var: Seq<char>,
    iter: ExprView,
    cond: Option<Box<ExprView>>,
) -> ExprView {
    ExprView::ListComp { elem: Box::new(elem), var, iter: Box::new(iter), cond }
}

/// A lambda becomes a function in which the shared variables have cells too: its celled
/// parameters are put into cells at its start, and its body goes through the cells of the
/// variables that are its own as of those that it captures.
pub proof fn lambdas_have_cells(
    params: Seq<Seq<char>>,
    body: Seq<StmtView>,
    c: Set<Seq<char>>,
    n: Lift,
    x: Seq<char>,
)
    requires
        c.contains(x),
    ensures
        ({
            let (inner, m) = lf_block(body, c, n);
            let f = lf_expr(ExprView::Lambda { params, body }, c, n).1.generated.last();
            &&& f.name == lambda_name(m.counter)
            &&& f.body == param_cells(dynamic_params(params), c) + cl_block(inner, c)
            &&& params.contains(x) ==> f.body.contains(open_cell(x, x))
        }),
{
    let (inner, m) = lf_block(body, c, n);
    let own = dynamic_params(params);
    let first = param_cells(own, c);
    let all = first + cl_block(inner, c);
    if params.contains(x) {
        let i = choose|i: int| 0 <= i < params.len() && params[i] == x;
        assert(own[i].name == x);
        param_has_cell(own, c, i);
        let k = choose|k: int| 0 <= k < first.len() && first[k] == open_cell(x, x);
        assert(all[k] == open_cell(x, x));
    }
}

/// A parameter that a lambda captures and that is assigned is put into a cell at the start
/// of its function.
pub proof fn shared_parameters_have_cells(f: FnDefView, g: Set<Seq<char>>, i: int)
    requires
        0 <= i < f.params.len(),
        celled(f.body, g).contains(f.params[i].name),
    ensures
        param_cells(f.params, celled(f.body, g)).contains(
            open_cell(f.params[i].name, f.params[i].name),
        ),
{
    param_has_cell(f.params, celled(f.body, g), i);
}

proof fn param_has_cell(ps: Seq<ParamView>, c: Set<Seq<char>>, i: int)
    requires
        0 <= i < ps.len(),
        c.contains(ps[i].name),
    ensures
        param_cells(ps, c).contains(open_cell(ps[i].name, ps[i].name)),
    decreases ps.len(),
{
    let x = open_cell(ps[i].name, ps[i].name);
    let all = param_cells(ps, c);
    if i == ps.len() - 1 {
        assert(all[all.len() - 1] == x);
    } else {
        let init = param_cells(ps.drop_last(), c);
        param_has_cell(ps.drop_last(), c, i);
        let k = choose|k: int| 0 <= k < init.len() && init[k] == x;
        assert(all[k] == x);
    }
}

} // verus!
