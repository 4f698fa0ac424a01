//! Escape analysis: which local collections never outlive the call that makes them.
//!
//! A local may be placed in the arena of its call only where every use is known to
//! keep it local. Whatever is not understood counts as an escape.

use crate::ast::{
    elifs_view, expr_view, exprs_view, named_view, opt_view, optblock_view, optbox_view, pairs_view,
    params_view, parts_view, prog_view, stmts_view, Expr, ExprView, FStrPart, FStrPartView, FnDef,
    FnDefView, Item, ItemView, Param, ParamView, Stmt, StmtView,
};
use crate::names::NameSet;
use crate::text::str_eq;
use crate::walk::{
    every_block, every_elifs, every_expr, every_exprs, every_named, every_opt, every_optblock,
    every_optbox, every_pairs, every_part, every_parts, every_stmt, Prop,
};
use vstd::prelude::*;

verus! {

/// Methods that never keep their receiver.
pub open spec fn safe_method_spec(n: Seq<char>) -> bool {
    n == "push"@ || n == "pop"@ || n == "get"@ || n == "set"@ || n == "keys"@ || n == "values"@
        || n == "items"@ || n == "has"@ || n == "remove"@ || n == "clear"@ || n == "len"@
        || n == "contains"@ || n == "insert"@ || n == "sort"@ || n == "reverse"@ || n == "index"@
        || n == "find"@ || n == "count"@
}

fn safe_method(n: &str) -> (r: bool)
    ensures
        r == safe_method_spec(n@),
{
    str_eq(n, "push") || str_eq(n, "pop") || str_eq(n, "get") || str_eq(n, "set")
        || str_eq(n, "keys") || str_eq(n, "values") || str_eq(n, "items") || str_eq(n, "has")
        || str_eq(n, "remove") || str_eq(n, "clear") || str_eq(n, "len") || str_eq(n, "contains")
        || str_eq(n, "insert") || str_eq(n, "sort") || str_eq(n, "reverse") || str_eq(n, "index")
        || str_eq(n, "find") || str_eq(n, "count")
}

/// Functions that look at their argument and do not keep it.
pub open spec fn safe_builtin_spec(n: Seq<char>) -> bool {
    n == "len"@ || n == "print"@ || n == "println"@ || n == "str"@ || n == "type"@ || n == "drop"@
        || n == "repr"@
}

fn safe_builtin(n: &str) -> (r: bool)
    ensures
        r == safe_builtin_spec(n@),
{
    str_eq(n, "len") || str_eq(n, "print") || str_eq(n, "println") || str_eq(n, "str")
        || str_eq(n, "type") || str_eq(n, "drop") || str_eq(n, "repr")
}

pub open spec fn is_var(e: ExprView, x: Seq<char>) -> bool {
    e == ExprView::Ident(x)
}

fn var_is(e: &Expr, x: &str) -> (r: bool)
    ensures
        r == is_var(e@, x@),
{
    match e {
        Expr::Ident(n) => str_eq(n.as_str(), x),
        _ => false,
    }
}

pub open spec fn safe_callee(e: ExprView) -> bool {
    match e {
        ExprView::Ident(n) => safe_builtin_spec(n),
        _ => false,
    }
}

fn callee_is_safe(e: &Expr) -> (r: bool)
    ensures
        r == safe_callee(e@),
{
    match e {
        Expr::Ident(n) => safe_builtin(n.as_str()),
        _ => false,
    }
}

/// Whether an assignment to `target` writes into an object other than `x`.
pub open spec fn stores_elsewhere(target: ExprView, x: Seq<char>) -> bool {
    match target {
        ExprView::Index { obj, .. } => !is_var(*obj, x),
        ExprView::Field { obj, .. } => !is_var(*obj, x),
        _ => false,
    }
}

fn target_elsewhere(target: &Expr, x: &str) -> (r: bool)
    ensures
        r == stores_elsewhere(target@, x@),
{
    match target {
        Expr::Index { obj, .. } => !var_is(obj, x),
        Expr::Field { obj, .. } => !var_is(obj, x),
        _ => false,
    }
}

/// Whether `x` may occur in an expression. What is inside a lambda is not looked at.
pub open spec fn mentions_expr(e: ExprView, x: Seq<char>) -> bool
    decreases e,
{
    match e {
        ExprView::Ident(n) => n == x,
        ExprView::Unary { expr, .. } => mentions_expr(*expr, x),
        ExprView::Binary { lhs, rhs, .. } => mentions_expr(*lhs, x) || mentions_expr(*rhs, x),
        ExprView::Index { obj, index } => mentions_expr(*obj, x) || mentions_expr(*index, x),
        ExprView::Slice { obj, lo, hi } => mentions_expr(*obj, x) || mentions_optbox(lo, x)
            || mentions_optbox(hi, x),
        ExprView::Field { obj, .. } => mentions_expr(*obj, x),
        ExprView::Call { callee, args } => mentions_expr(*callee, x) || mentions_exprs(args, x),
        ExprView::Method { obj, args, .. } => mentions_expr(*obj, x) || mentions_exprs(args, x),
        ExprView::List(p) => mentions_exprs(p, x),
        ExprView::MapLit(p) => mentions_pairs(p, x),
        ExprView::Range { lo, hi } => mentions_expr(*lo, x) || mentions_expr(*hi, x),
        ExprView::IfElse { cond, then, els } => mentions_expr(*cond, x) || mentions_expr(*then, x)
            || mentions_expr(*els, x),
        ExprView::NamedCall { callee, args } => mentions_expr(*callee, x) || named_mention(args, x),
        ExprView::ListComp { elem, iter, cond, .. } => mentions_expr(*elem, x)
            || mentions_expr(*iter, x) || mentions_optbox(cond, x),
        ExprView::FStr(p) => mentions_parts(p, x),
        ExprView::Lambda { .. } => true,
        ExprView::Closure { captures, .. } => mentions_exprs(captures, x),
        _ => false,
    }
}

pub open spec fn mentions_part(p: FStrPartView, x: Seq<char>) -> bool
    decreases p,
{
    match p {
        FStrPartView::Expr(e) => mentions_expr(e, x),
        _ => false,
    }
}

pub open spec fn mentions_parts(s: Seq<FStrPartView>, x: Seq<char>) -> bool
    decreases s,
{
    exists|i: int| 0 <= i < s.len() && mentions_part(#[trigger] s[i], x)
}

pub open spec fn mentions_optbox(o: Option<Box<ExprView>>, x: Seq<char>) -> bool
    decreases o,
{
    match o {
        Some(e) => mentions_expr(*e, x),
        None => false,
    }
}

pub open spec fn mentions_exprs(s: Seq<ExprView>, x: Seq<char>) -> bool
    decreases s,
{
    exists|i: int| 0 <= i < s.len() && mentions_expr(#[trigger] s[i], x)
}

pub open spec fn mentions_pairs(s: Seq<(ExprView, ExprView)>, x: Seq<char>) -> bool
    decreases s,
{
    exists|i: int| 0 <= i < s.len() && (
        mentions_expr((#[trigger] s[i]).0, x) || mentions_expr(s[i].1, x)
    )
}

fn has_mention_expr(e: &Expr, x: &str) -> (r: bool)
    ensures
        r == mentions_expr(e@, x@),
    decreases e,
{
    match e {
        Expr::Ident(n) => str_eq(n.as_str(), x),
        Expr::Unary { expr, .. } => has_mention_expr(expr, x),
        Expr::Binary { lhs, rhs, .. } => has_mention_expr(lhs, x) || has_mention_expr(rhs, x),
        Expr::Index { obj, index } => has_mention_expr(obj, x) || has_mention_expr(index, x),
        Expr::Slice { obj, lo, hi } => has_mention_expr(obj, x) || has_mention_optbox(lo, x)
            || has_mention_optbox(hi, x),
        Expr::Field { obj, .. } => has_mention_expr(obj, x),
        Expr::Call { callee, args } => has_mention_expr(callee, x) || has_mention_exprs(args, x),
        Expr::Method { obj, args, .. } => has_mention_expr(obj, x) || has_mention_exprs(args, x),
        Expr::List(p) => has_mention_exprs(p, x),
        Expr::MapLit(p) => has_mention_pairs(p, x),
        Expr::Range { lo, hi } => has_mention_expr(lo, x) || has_mention_expr(hi, x),
        Expr::IfElse { cond, then, els } => has_mention_expr(cond, x) || has_mention_expr(then, x)
            || has_mention_expr(els, x),
        Expr::NamedCall { callee, args } => has_mention_expr(callee, x) || any_named_mention(
            args,
            x,
        ),
        Expr::ListComp { elem, iter, cond, .. } => has_mention_expr(elem, x) || has_mention_expr(
            iter,
            x,
        ) || has_mention_optbox(cond, x),
        Expr::FStr(p) => has_mention_parts(p, x),
        Expr::Lambda { .. } => true,
        Expr::Closure { captures, .. } => has_mention_exprs(captures, x),
        _ => false,
    }
}

fn has_mention_parts(v: &Vec<FStrPart>, x: &str) -> (r: bool)
    ensures
        r == mentions_parts(parts_view(v@), x@),
    decreases v,
{
    let ghost s0 = parts_view(v@);
    for i in 0..v.len()
        invariant
            s0 == parts_view(v@),
            forall|k: int| 0 <= k < i ==> !mentions_part(#[trigger] s0[k], x@),
    {
        assert(s0[i as int] == v@[i as int]@);
        match &v[i] {
            FStrPart::Expr(e) => {
                if has_mention_expr(e, x) {
                    return true;
                }
            },
            _ => {},
        }
    }
    false
}

fn has_mention_optbox(o: &Option<Box<Expr>>, x: &str) -> (r: bool)
    ensures
        r == mentions_optbox(optbox_view(*o), x@),
    decreases o,
{
    match o {
        Some(p) => has_mention_expr(p, x),
        None => false,
    }
}

fn has_mention_exprs(v: &Vec<Expr>, x: &str) -> (r: bool)
    ensures
        r == mentions_exprs(exprs_view(v@), x@),
    decreases v,
{
    let ghost s0 = exprs_view(v@);
    for i in 0..v.len()
        invariant
            s0 == exprs_view(v@),
            forall|k: int| 0 <= k < i ==> !mentions_expr(#[trigger] s0[k], x@),
    {
        assert(s0[i as int] == v@[i as int]@);
        if has_mention_expr(&v[i], x) {
            return true;
        }
    }
    false
}

fn has_mention_pairs(v: &Vec<(Expr, Expr)>, x: &str) -> (r: bool)
    ensures
        r == mentions_pairs(pairs_view(v@), x@),
    decreases v,
{
    let ghost s0 = pairs_view(v@);
    for i in 0..v.len()
        invariant
            s0 == pairs_view(v@),
            forall|k: int| 0 <= k < i ==> !(
                mentions_expr((#[trigger] s0[k]).0, x@) || mentions_expr(s0[k].1, x@)
            ),
    {
        assert(s0[i as int] == (v@[i as int].0@, v@[i as int].1@));
        if has_mention_expr(&v[i].0, x) || has_mention_expr(&v[i].1, x) {
            return true;
        }
    }
    false
}

pub open spec fn named_mention(s: Seq<(Seq<char>, ExprView)>, x: Seq<char>) -> bool
    decreases s,
{
    exists|i: int| 0 <= i < s.len() && mentions_expr((#[trigger] s[i]).1, x)
}

fn any_named_mention(v: &Vec<(String, Expr)>, x: &str) -> (r: bool)
    ensures
        r == named_mention(named_view(v@), x@),
    decreases v,
{
    let ghost s0 = named_view(v@);
    for i in 0..v.len()
        invariant
            s0 == named_view(v@),
            forall|k: int| 0 <= k < i ==> !mentions_expr((#[trigger] s0[k]).1, x@),
    {
        assert(s0[i as int] == (v@[i as int].0@, v@[i as int].1@));
        if has_mention_expr(&v[i].1, x) {
            return true;
        }
    }
    false
}

/// Whether one of the arguments of a call is `x` itself, where the callee may keep
/// it, or lets it escape.
pub open spec fn call_args_escape(s: Seq<ExprView>, safe: bool, x: Seq<char>) -> bool
    decreases s,
{
    exists|i: int|
        0 <= i < s.len() && ((is_var(#[trigger] s[i], x) && !safe) || escapes_expr(s[i], x))
}

fn args_escape(v: &Vec<Expr>, safe: bool, x: &str) -> (r: bool)
    ensures
        r == call_args_escape(exprs_view(v@), safe, x@),
    decreases v,
{
    let ghost s0 = exprs_view(v@);
    for i in 0..v.len()
        invariant
            s0 == exprs_view(v@),
            forall|k: int|
                0 <= k < i ==> !((is_var(#[trigger] s0[k], x@) && !safe) || escapes_expr(
                    s0[k],
                    x@,
                )),
    {
        assert(s0[i as int] == v@[i as int]@);
        if (var_is(&v[i], x) && !safe) || has_escape_expr(&v[i], x) {
            return true;
        }
    }
    false
}

/// Whether evaluating an expression may let the value of `x` outlive the call: it is an
/// argument of a call that may keep it, goes into a list, a map, a struct or a branch
/// result, or is captured.
pub open spec fn escapes_expr(e: ExprView, x: Seq<char>) -> bool
    decreases e,
{
    match e {
        ExprView::Unary { expr, .. } => escapes_expr(*expr, x),
        ExprView::Binary { lhs, rhs, .. } => escapes_expr(*lhs, x) || escapes_expr(*rhs, x),
        ExprView::Call { callee, args } => call_args_escape(args, safe_callee(*callee), x)
            || escapes_expr(*callee, x),
        ExprView::NamedCall { callee, args } => named_mention(args, x) || escapes_expr(*callee, x),
        ExprView::Method { obj, name, args } => (is_var(*obj, x) && !safe_method_spec(name))
            || escapes_expr(*obj, x)
            || call_args_escape(args, false, x),
        ExprView::Field { obj, .. } => escapes_expr(*obj, x),
        ExprView::Index { obj, index } => escapes_expr(*obj, x) || escapes_expr(*index, x),
        ExprView::Slice { obj, lo, hi } => escapes_expr(*obj, x) || escapes_optbox(lo, x)
            || escapes_optbox(hi, x),
        ExprView::List(p) => mentions_exprs(p, x),
        ExprView::MapLit(p) => mentions_pairs(p, x),
        ExprView::Range { lo, hi } => escapes_expr(*lo, x) || escapes_expr(*hi, x),
        ExprView::IfElse { cond, then, els } => mentions_expr(*then, x) || mentions_expr(*els, x)
            || escapes_expr(*cond, x),
        ExprView::ListComp { elem, iter, cond, .. } => mentions_expr(*elem, x)
            || escapes_expr(*iter, x) || escapes_optbox(cond, x),
        ExprView::FStr(p) => escapes_parts(p, x),
        ExprView::Lambda { .. } => true,
        ExprView::Closure { captures, .. } => mentions_exprs(captures, x),
        _ => false,
    }
}

pub open spec fn escapes_optbox(o: Option<Box<ExprView>>, x: Seq<char>) -> bool
    decreases o,
{
    match o {
        Some(e) => escapes_expr(*e, x),
        None => false,
    }
}

pub open spec fn escapes_part(p: FStrPartView, x: Seq<char>) -> bool
    decreases p,
{
    match p {
        FStrPartView::Expr(e) => escapes_expr(e, x),
        _ => false,
    }
}

pub open spec fn escapes_parts(s: Seq<FStrPartView>, x: Seq<char>) -> bool
    decreases s,
{
    exists|i: int| 0 <= i < s.len() && escapes_part(#[trigger] s[i], x)
}

/// Whether a statement may let the value of `x` outlive the call.
pub open spec fn escapes_stmt(s: StmtView, x: Seq<char>) -> bool
    decreases s,
{
    match s {
        StmtView::Let { value, .. } => is_var(value, x) || escapes_expr(value, x),
        StmtView::Assign { target, value } => (
            is_var(value, x) && !is_var(target, x)
        ) || (mentions_expr(value, x) && stores_elsewhere(
            target,
            x,
        )) || escapes_expr(target, x) || escapes_expr(value, x),
        StmtView::ExprStmt(p) => escapes_expr(p, x),
        StmtView::Return(p) => match p {
            Some(e) => mentions_expr(e, x) || escapes_expr(e, x),
            None => false,
        },
        StmtView::If { cond, then, elifs, els } => escapes_expr(cond, x) || escapes_block(then, x)
            || escapes_elifs(elifs, x) || escapes_optblock(els, x),
        StmtView::While { cond, body } => escapes_expr(cond, x) || escapes_block(body, x),
        StmtView::For { iter, body, .. } => escapes_expr(iter, x) || escapes_block(body, x),
        StmtView::Try { body, catch_body, .. } => escapes_block(body, x)
            || escapes_block(catch_body, x),
        StmtView::Raise(p) => mentions_expr(p, x) || escapes_expr(p, x),
        _ => false,
    }
}

pub open spec fn escapes_block(s: Seq<StmtView>, x: Seq<char>) -> bool
    decreases s,
{
    exists|i: int| 0 <= i < s.len() && escapes_stmt(#[trigger] s[i], x)
}

pub open spec fn escapes_elifs(s: Seq<(ExprView, Seq<StmtView>)>, x: Seq<char>) -> bool
    decreases s,
{
    exists|i: int| 0 <= i < s.len() && (
        escapes_expr((#[trigger] s[i]).0, x) || escapes_block(s[i].1, x)
    )
}

pub open spec fn escapes_optblock(o: Option<Seq<StmtView>>, x: Seq<char>) -> bool
    decreases o,
{
    match o {
        Some(b) => escapes_block(b, x),
        None => false,
    }
}

fn has_escape_expr(e: &Expr, x: &str) -> (r: bool)
    ensures
        r == escapes_expr(e@, x@),
    decreases e,
{
    match e {
        Expr::Unary { expr, .. } => has_escape_expr(expr, x),
        Expr::Binary { lhs, rhs, .. } => has_escape_expr(lhs, x) || has_escape_expr(rhs, x),
        Expr::Call { callee, args } => {
            let safe = callee_is_safe(callee);
            args_escape(args, safe, x) || has_escape_expr(callee, x)
        },
        Expr::NamedCall { callee, args } => any_named_mention(args, x)
            || has_escape_expr(callee, x),
        Expr::Method { obj, name, args } => {
            assert(obj@ == expr_view(**obj));
            (
                var_is(obj, x) && !safe_method(name.as_str())
            ) || has_escape_expr(obj, x) || args_escape(
                args,
                false,
                x,
            )
        },
        Expr::Field { obj, .. } => has_escape_expr(obj, x),
        Expr::Index { obj, index } => has_escape_expr(obj, x) || has_escape_expr(index, x),
        Expr::Slice { obj, lo, hi } => has_escape_expr(obj, x) || has_escape_optbox(lo, x)
            || has_escape_optbox(hi, x),
        Expr::List(p) => has_mention_exprs(p, x),
        Expr::MapLit(p) => has_mention_pairs(p, x),
        Expr::Range { lo, hi } => has_escape_expr(lo, x) || has_escape_expr(hi, x),
        Expr::IfElse { cond, then, els } => has_mention_expr(then, x) || has_mention_expr(els, x)
            || has_escape_expr(cond, x),
        Expr::ListComp { elem, iter, cond, .. } => has_mention_expr(elem, x)
            || has_escape_expr(iter, x) || has_escape_optbox(cond, x),
        Expr::FStr(p) => has_escape_parts(p, x),
        Expr::Lambda { .. } => true,
        Expr::Closure { captures, .. } => has_mention_exprs(captures, x),
        _ => false,
    }
}

fn has_escape_optbox(o: &Option<Box<Expr>>, x: &str) -> (r: bool)
    ensures
        r == escapes_optbox(optbox_view(*o), x@),
    decreases o,
{
    match o {
        Some(p) => has_escape_expr(p, x),
        None => false,
    }
}

fn has_escape_part(p: &FStrPart, x: &str) -> (r: bool)
    ensures
        r == escapes_part(p@, x@),
    decreases p,
{
    match p {
        FStrPart::Expr(e) => has_escape_expr(e, x),
        _ => false,
    }
}

fn has_escape_parts(v: &Vec<FStrPart>, x: &str) -> (r: bool)
    ensures
        r == escapes_parts(parts_view(v@), x@),
    decreases v,
{
    let ghost s0 = parts_view(v@);
    for i in 0..v.len()
        invariant
            s0 == parts_view(v@),
            forall|k: int| 0 <= k < i ==> !escapes_part(#[trigger] s0[k], x@),
    {
        assert(s0[i as int] == v@[i as int]@);
        if has_escape_part(&v[i], x) {
            return true;
        }
    }
    false
}

fn has_escape_stmt(s: &Stmt, x: &str) -> (r: bool)
    ensures
        r == escapes_stmt(s@, x@),
    decreases s,
{
    match s {
        Stmt::Let { value, .. } => var_is(value, x) || has_escape_expr(value, x),
        Stmt::Assign { target, value } => (
            var_is(value, x) && !var_is(target, x)
        ) || (has_mention_expr(value, x) && target_elsewhere(
            target,
            x,
        )) || has_escape_expr(target, x) || has_escape_expr(value, x),
        Stmt::ExprStmt(p) => has_escape_expr(p, x),
        Stmt::Return(p) => match p {
            Some(e) => has_mention_expr(e, x) || has_escape_expr(e, x),
            None => false,
        },
        Stmt::If { cond, then, elifs, els } => has_escape_expr(cond, x) || has_escape_block(then, x)
            || has_escape_elifs(elifs, x) || has_escape_optblock(els, x),
        Stmt::While { cond, body } => has_escape_expr(cond, x) || has_escape_block(body, x),
        Stmt::For { iter, body, .. } => has_escape_expr(iter, x) || has_escape_block(body, x),
        Stmt::Try { body, catch_body, .. } => has_escape_block(body, x)
            || has_escape_block(catch_body, x),
        Stmt::Raise(p) => has_mention_expr(p, x) || has_escape_expr(p, x),
        _ => false,
    }
}

fn has_escape_block(v: &Vec<Stmt>, x: &str) -> (r: bool)
    ensures
        r == escapes_block(stmts_view(v@), x@),
    decreases v,
{
    let ghost s0 = stmts_view(v@);
    for i in 0..v.len()
        invariant
            s0 == stmts_view(v@),
            forall|k: int| 0 <= k < i ==> !escapes_stmt(#[trigger] s0[k], x@),
    {
        assert(s0[i as int] == v@[i as int]@);
        if has_escape_stmt(&v[i], x) {
            return true;
        }
    }
    false
}

fn has_escape_elifs(v: &Vec<(Expr, Vec<Stmt>)>, x: &str) -> (r: bool)
    ensures
        r == escapes_elifs(elifs_view(v@), x@),
    decreases v,
{
    let ghost s0 = elifs_view(v@);
    for i in 0..v.len()
        invariant
            s0 == elifs_view(v@),
            forall|k: int| 0 <= k < i ==> !(
                escapes_expr((#[trigger] s0[k]).0, x@) || escapes_block(s0[k].1, x@)
            ),
    {
        assert(s0[i as int] == (v@[i as int].0@, stmts_view(v@[i as int].1@)));
        if has_escape_expr(&v[i].0, x) || has_escape_block(&v[i].1, x) {
            return true;
        }
    }
    false
}

fn has_escape_optblock(o: &Option<Vec<Stmt>>, x: &str) -> (r: bool)
    ensures
        r == escapes_optblock(optblock_view(*o), x@),
    decreases o,
{
    match o {
        Some(p) => has_escape_block(p, x),
        None => false,
    }
}

pub open spec fn one_if(b: bool) -> nat {
    if b {
        1
    } else {
        0
    }
}

/// How often `x` is bound or assigned in a statement.
pub open spec fn bindings_stmt(s: StmtView, x: Seq<char>) -> nat
    decreases s,
{
    match s {
        StmtView::Let { name, .. } => if name == x {
            1
        } else {
            0
        },
        StmtView::Assign { target, .. } => if is_var(target, x) {
            1
        } else {
            0
        },
        StmtView::If { then, elifs, els, .. } => bindings_block(then, x) + bindings_elifs(elifs, x)
            + match els {
            Some(b) => bindings_block(b, x),
            None => 0,
        },
        StmtView::While { body, .. } => bindings_block(body, x),
        StmtView::For { var, body, .. } => one_if(var == x) + bindings_block(body, x),
        StmtView::Try { body, catch_var, catch_body } => one_if(catch_var == x) + bindings_block(
            body,
            x,
        ) + bindings_block(catch_body, x),
        _ => 0,
    }
}

pub open spec fn bindings_block(s: Seq<StmtView>, x: Seq<char>) -> nat
    decreases s,
{
    if s.len() == 0 {
        0
    } else {
        bindings_block(s.drop_last(), x) + bindings_stmt(s.last(), x)
    }
}

pub open spec fn bindings_elifs(s: Seq<(ExprView, Seq<StmtView>)>, x: Seq<char>) -> nat
    decreases s,
{
    if s.len() == 0 {
        0
    } else {
        bindings_elifs(s.drop_last(), x) + bindings_block(s.last().1, x)
    }
}

/// Whether a count is 0, 1 or more.
spec fn up_to_two(n: nat) -> u8 {
    if n >= 2 {
        2
    } else {
        n as u8
    }
}

fn plus(a: u8, b: u8) -> (r: u8)
    requires
        a <= 2,
        b <= 2,
    ensures
        r == up_to_two((a + b) as nat),
{
    if a + b >= 2 {
        2
    } else {
        a + b
    }
}

fn count_stmt(s: &Stmt, x: &str) -> (r: u8)
    ensures
        r == up_to_two(bindings_stmt(s@, x@)),
    decreases s,
{
    match s {
        Stmt::Let { name, .. } => if str_eq(name.as_str(), x) {
            1
        } else {
            0
        },
        Stmt::Assign { target, .. } => if var_is(target, x) {
            1
        } else {
            0
        },
        Stmt::If { then, elifs, els, .. } => {
            let a: u8 = count_block(then, x);
            let b: u8 = count_elifs(elifs, x);
            assert(optblock_view(*els) is Some == els is Some);
            let c: u8 = match els {
                Some(e) => count_block(e, x),
                None => 0,
            };
            plus(plus(a, b), c)
        },
        Stmt::While { body, .. } => count_block(body, x),
        Stmt::For { var, body, .. } => {
            let a: u8 = if str_eq(var.as_str(), x) {
                1
            } else {
                0
            };
            let b: u8 = count_block(body, x);
            plus(a, b)
        },
        Stmt::Try { body, catch_var, catch_body } => {
            let a: u8 = if str_eq(catch_var.as_str(), x) {
                1
            } else {
                0
            };
            let b: u8 = count_block(body, x);
            let c: u8 = count_block(catch_body, x);
            plus(plus(a, b), c)
        },
        _ => 0,
    }
}

fn count_block(v: &Vec<Stmt>, x: &str) -> (r: u8)
    ensures
        r == up_to_two(bindings_block(stmts_view(v@), x@)),
    decreases v,
{
    let ghost s0 = stmts_view(v@);
    let mut n: u8 = 0;
    assert(s0.take(0) =~= Seq::empty());
    for i in 0..v.len()
        invariant
            s0 == stmts_view(v@),
            n <= 2,
            n == up_to_two(bindings_block(s0.take(i as int), x@)),
    {
        assert(s0.take(i + 1).drop_last() =~= s0.take(i as int));
        assert(s0.take(i + 1).last() == v@[i as int]@);
        let k: u8 = count_stmt(&v[i], x);
        n = plus(n, k);
    }
    assert(s0.take(s0.len() as int) =~= s0);
    n
}

fn count_elifs(v: &Vec<(Expr, Vec<Stmt>)>, x: &str) -> (r: u8)
    ensures
        r == up_to_two(bindings_elifs(elifs_view(v@), x@)),
    decreases v,
{
    let ghost s0 = elifs_view(v@);
    let mut n: u8 = 0;
    assert(s0.take(0) =~= Seq::empty());
    for i in 0..v.len()
        invariant
            s0 == elifs_view(v@),
            n <= 2,
            n == up_to_two(bindings_elifs(s0.take(i as int), x@)),
    {
        assert(s0.take(i + 1).drop_last() =~= s0.take(i as int));
        assert(s0.take(i + 1).last() == (v@[i as int].0@, stmts_view(v@[i as int].1@)));
        let k: u8 = count_block(&v[i].1, x);
        n = plus(n, k);
    }
    assert(s0.take(s0.len() as int) =~= s0);
    n
}

/// Whether an expression is no comprehension over `x`.
pub open spec fn leaves_name(e: ExprView, x: Seq<char>) -> bool {
    match e {
        ExprView::ListComp { var, .. } => var != x,
        _ => true,
    }
}

/// That an expression is no comprehension whose variable hides `x`.
pub open spec fn unshadowed(x: Seq<char>) -> Prop {
    |e: ExprView| leaves_name(e, x)
}

fn clear_expr(e: &Expr, x: &str) -> (r: bool)
    ensures
        r == every_expr(e@, unshadowed(x@)),
    decreases e,
{
    match e {
        Expr::Unary { expr, .. } => clear_expr(expr, x),
        Expr::Binary { lhs, rhs, .. } => clear_expr(lhs, x) && clear_expr(rhs, x),
        Expr::Call { callee, args } => clear_expr(callee, x) && clear_exprs(args, x),
        Expr::NamedCall { callee, args } => clear_expr(callee, x) && clear_named(args, x),
        Expr::Method { obj, args, .. } => clear_expr(obj, x) && clear_exprs(args, x),
        Expr::Field { obj, .. } => clear_expr(obj, x),
        Expr::Index { obj, index } => clear_expr(obj, x) && clear_expr(index, x),
        Expr::Slice { obj, lo, hi } => clear_expr(obj, x) && clear_optbox(lo, x)
            && clear_optbox(hi, x),
        Expr::List(p) => clear_exprs(p, x),
        Expr::MapLit(p) => clear_pairs(p, x),
        Expr::Range { lo, hi } => clear_expr(lo, x) && clear_expr(hi, x),
        Expr::IfElse { cond, then, els } => clear_expr(cond, x) && clear_expr(then, x)
            && clear_expr(els, x),
        Expr::ListComp { elem, var, iter, cond } => !str_eq(var.as_str(), x) && clear_expr(elem, x)
            && clear_expr(iter, x) && clear_optbox(cond, x),
        Expr::FStr(p) => clear_parts(p, x),
        Expr::Lambda { body, .. } => clear_block(body, x),
        Expr::Closure { captures, .. } => clear_exprs(captures, x),
        _ => true,
    }
}

fn clear_optbox(o: &Option<Box<Expr>>, x: &str) -> (r: bool)
    ensures
        r == every_optbox(optbox_view(*o), unshadowed(x@)),
    decreases o,
{
    match o {
        Some(e) => clear_expr(e, x),
        None => true,
    }
}

fn clear_opt(o: &Option<Expr>, x: &str) -> (r: bool)
    ensures
        r == every_opt(opt_view(*o), unshadowed(x@)),
    decreases o,
{
    match o {
        Some(e) => clear_expr(e, x),
        None => true,
    }
}

fn clear_optblock(o: &Option<Vec<Stmt>>, x: &str) -> (r: bool)
    ensures
        r == every_optblock(optblock_view(*o), unshadowed(x@)),
    decreases o,
{
    match o {
        Some(b) => clear_block(b, x),
        None => true,
    }
}

fn clear_exprs(v: &Vec<Expr>, x: &str) -> (r: bool)
    ensures
        r == every_exprs(exprs_view(v@), unshadowed(x@)),
    decreases v,
{
    let ghost s0 = exprs_view(v@);
    for i in 0..v.len()
        invariant
            s0 == exprs_view(v@),
            forall|k: int| 0 <= k < i ==> every_expr(#[trigger] s0[k], unshadowed(x@)),
    {
        assert(s0[i as int] == v@[i as int]@);
        if !clear_expr(&v[i], x) {
            return false;
        }
    }
    true
}

fn clear_named(v: &Vec<(String, Expr)>, x: &str) -> (r: bool)
    ensures
        r == every_named(named_view(v@), unshadowed(x@)),
    decreases v,
{
    let ghost s0 = named_view(v@);
    for i in 0..v.len()
        invariant
            s0 == named_view(v@),
            forall|k: int| 0 <= k < i ==> every_expr((#[trigger] s0[k]).1, unshadowed(x@)),
    {
        assert(s0[i as int] == (v@[i as int].0@, v@[i as int].1@));
        if !clear_expr(&v[i].1, x) {
            return false;
        }
    }
    true
}

fn clear_pairs(v: &Vec<(Expr, Expr)>, x: &str) -> (r: bool)
    ensures
        r == every_pairs(pairs_view(v@), unshadowed(x@)),
    decreases v,
{
    let ghost s0 = pairs_view(v@);
    for i in 0..v.len()
        invariant
            s0 == pairs_view(v@),
            forall|k: int| 0 <= k < i ==> every_expr(
                (#[trigger] s0[k]).0,
                unshadowed(x@),
            ) && every_expr(
                s0[k].1,
                unshadowed(x@),
            ),
    {
        assert(s0[i as int] == (v@[i as int].0@, v@[i as int].1@));
        if !(clear_expr(&v[i].0, x) && clear_expr(&v[i].1, x)) {
            return false;
        }
    }
    true
}

fn clear_parts(v: &Vec<FStrPart>, x: &str) -> (r: bool)
    ensures
        r == every_parts(parts_view(v@), unshadowed(x@)),
    decreases v,
{
    let ghost s0 = parts_view(v@);
    for i in 0..v.len()
        invariant
            s0 == parts_view(v@),
            forall|k: int| 0 <= k < i ==> every_part(#[trigger] s0[k], unshadowed(x@)),
    {
        assert(s0[i as int] == v@[i as int]@);
        match &v[i] {
            FStrPart::Expr(e) => {
                if !clear_expr(e, x) {
                    return false;
                }
            },
            _ => {},
        }
    }
    true
}

fn clear_stmt(s: &Stmt, x: &str) -> (r: bool)
    ensures
        r == every_stmt(s@, unshadowed(x@)),
    decreases s,
{
    match s {
        Stmt::Let { value, .. } => clear_expr(value, x),
        Stmt::Assign { target, value } => clear_expr(target, x) && clear_expr(value, x),
        Stmt::ExprStmt(p) => clear_expr(p, x),
        Stmt::Return(p) => clear_opt(p, x),
        Stmt::If { cond, then, elifs, els } => clear_expr(cond, x) && clear_block(then, x)
            && clear_elifs(elifs, x) && clear_optblock(els, x),
        Stmt::While { cond, body } => clear_expr(cond, x) && clear_block(body, x),
        Stmt::For { iter, body, .. } => clear_expr(iter, x) && clear_block(body, x),
        Stmt::Try { body, catch_body, .. } => clear_block(body, x) && clear_block(catch_body, x),
        Stmt::Raise(p) => clear_expr(p, x),
        _ => true,
    }
}

fn clear_block(v: &Vec<Stmt>, x: &str) -> (r: bool)
    ensures
        r == every_block(stmts_view(v@), unshadowed(x@)),
    decreases v,
{
    let ghost s0 = stmts_view(v@);
    for i in 0..v.len()
        invariant
            s0 == stmts_view(v@),
            forall|k: int| 0 <= k < i ==> every_stmt(#[trigger] s0[k], unshadowed(x@)),
    {
        assert(s0[i as int] == v@[i as int]@);
        if !clear_stmt(&v[i], x) {
            return false;
        }
    }
    true
}

fn clear_elifs(v: &Vec<(Expr, Vec<Stmt>)>, x: &str) -> (r: bool)
    ensures
        r == every_elifs(elifs_view(v@), unshadowed(x@)),
    decreases v,
{
    let ghost s0 = elifs_view(v@);
    for i in 0..v.len()
        invariant
            s0 == elifs_view(v@),
            forall|k: int| 0 <= k < i ==> every_expr(
                (#[trigger] s0[k]).0,
                unshadowed(x@),
            ) && every_block(
                s0[k].1,
                unshadowed(x@),
            ),
    {
        assert(s0[i as int] == (v@[i as int].0@, stmts_view(v@[i as int].1@)));
        if !(clear_expr(&v[i].0, x) && clear_block(&v[i].1, x)) {
            return false;
        }
    }
    true
}

/// Whether an expression makes a new list, map or struct.
pub open spec fn is_fresh(e: ExprView, structs: Set<Seq<char>>) -> bool {
    match e {
        ExprView::List(_) => true,
        ExprView::MapLit(_) => true,
        ExprView::ListComp { .. } => true,
        ExprView::Call { callee, .. } => names_struct(*callee, structs),
        ExprView::NamedCall { callee, .. } => names_struct(*callee, structs),
        _ => false,
    }
}

pub open spec fn names_struct(e: ExprView, structs: Set<Seq<char>>) -> bool {
    match e {
        ExprView::Ident(n) => structs.contains(n),
        _ => false,
    }
}

fn callee_is_struct(e: &Expr, structs: &NameSet) -> (r: bool)
    ensures
        r == names_struct(e@, structs@),
{
    match e {
        Expr::Ident(n) => structs.contains(n.as_str()),
        _ => false,
    }
}

fn fresh(e: &Expr, structs: &NameSet) -> (r: bool)
    ensures
        r == is_fresh(e@, structs@),
{
    match e {
        Expr::List(_) => true,
        Expr::MapLit(_) => true,
        Expr::ListComp { .. } => true,
        Expr::Call { callee, .. } => callee_is_struct(callee, structs),
        Expr::NamedCall { callee, .. } => callee_is_struct(callee, structs),
        _ => false,
    }
}

/// Whether `x` is bound to a new object somewhere in a statement.
pub open spec fn candidate_stmt(s: StmtView, structs: Set<Seq<char>>, x: Seq<char>) -> bool
    decreases s,
{
    match s {
        StmtView::Let { name, value, .. } => name == x && is_fresh(value, structs),
        StmtView::If { then, elifs, els, .. } => candidate_block(then, structs, x)
            || candidate_elifs(elifs, structs, x) || match els {
            Some(b) => candidate_block(b, structs, x),
            None => false,
        },
        StmtView::While { body, .. } => candidate_block(body, structs, x),
        StmtView::For { body, .. } => candidate_block(body, structs, x),
        StmtView::Try { body, catch_body, .. } => candidate_block(body, structs, x)
            || candidate_block(catch_body, structs, x),
        _ => false,
    }
}

pub open spec fn candidate_block(s: Seq<StmtView>, structs: Set<Seq<char>>, x: Seq<char>) -> bool
    decreases s,
{
    exists|i: int| 0 <= i < s.len() && candidate_stmt(#[trigger] s[i], structs, x)
}

pub open spec fn candidate_elifs(
    s: Seq<(ExprView, Seq<StmtView>)>,
    structs: Set<Seq<char>>,
    x: Seq<char>,
) -> bool
    decreases s,
{
    exists|i: int| 0 <= i < s.len() && candidate_block((#[trigger] s[i]).1, structs, x)
}

/// Whether `x` may live in the arena of a function with this body: it is bound once,
/// to a new object, and nothing lets it escape.
pub open spec fn qualifies(body: Seq<StmtView>, structs: Set<Seq<char>>, x: Seq<char>) -> bool {
    &&& candidate_block(body, structs, x)
    &&& !escapes_block(body, x)
    &&& bindings_block(body, x) <= 1
    &&& every_block(body, unshadowed(x))
}

pub open spec fn struct_names(items: Seq<ItemView>) -> Set<Seq<char>> {
    Set::new(
        |n: Seq<char>|
            exists|i: int|
                0 <= i < items.len() && (#[trigger] items[i]) is Struct && items[i]->Struct_0.name
                    == n,
    )
}

/// Whether the variable `x` of the function `f` may live in the arena.
pub open spec fn in_arena(items: Seq<ItemView>, f: Seq<char>, x: Seq<char>) -> bool {
    exists|i: int|
        0 <= i < items.len() && (#[trigger] items[i]) is Fn && items[i]->Fn_0.name == f
            && fn_qualifies(items[i]->Fn_0, struct_names(items), x)
}

/// Whether `x` is the name of a parameter.
pub open spec fn is_param(ps: Seq<ParamView>, x: Seq<char>) -> bool {
    exists|i: int| 0 <= i < ps.len() && (#[trigger] ps[i]).name == x
}

/// Whether the variable `x` of a function may live in the arena. A parameter may not.
pub open spec fn fn_qualifies(f: FnDefView, structs: Set<Seq<char>>, x: Seq<char>) -> bool {
    !is_param(f.params, x) && qualifies(f.body, structs, x)
}

fn names_param(ps: &Vec<Param>, x: &str) -> (r: bool)
    ensures
        r == is_param(params_view(ps@), x@),
{
    let ghost s0 = params_view(ps@);
    for i in 0..ps.len()
        invariant
            s0 == params_view(ps@),
            forall|k: int| 0 <= k < i ==> (#[trigger] s0[k]).name != x@,
    {
        assert(s0[i as int] == ps@[i as int]@);
        if str_eq(ps[i].name.as_str(), x) {
            return true;
        }
    }
    false
}

/// Pairs of a function and a variable of it.
#[derive(Debug)]
pub struct ArenaSet {
    pairs: Vec<(String, String)>,
}

impl ArenaSet {
    pub closed spec fn spec_contains(&self, f: Seq<char>, x: Seq<char>) -> bool {
        exists|i: int|
            0 <= i < self.pairs@.len() && (#[trigger] self.pairs@[i]).0@ == f && self.pairs@[i].1@
                == x
    }

    pub fn new() -> (r: ArenaSet)
        ensures
            forall|f: Seq<char>, x: Seq<char>| !r.spec_contains(f, x),
    {
        ArenaSet { pairs: Vec::new() }
    }

    pub fn contains(&self, f: &str, x: &str) -> (r: bool)
        ensures
            r == self.spec_contains(f@, x@),
    {
        for i in 0..self.pairs.len()
            invariant
                forall|k: int|
                    0 <= k < i ==> !((#[trigger] self.pairs@[k]).0@ == f@ && self.pairs@[k].1@
                        == x@),
        {
            if str_eq(self.pairs[i].0.as_str(), f) && str_eq(self.pairs[i].1.as_str(), x) {
                return true;
            }
        }
        false
    }

    fn add(&mut self, f: &str, x: &str)
        ensures
            forall|g: Seq<char>, y: Seq<char>| #[trigger]
                final(self).spec_contains(g, y) <==> old(self).spec_contains(g, y) || (g == f@ && y
                    == x@),
    {
        let ghost p0 = self.pairs@;
        self.pairs.push((f.to_owned(), x.to_owned()));
        assert forall|g: Seq<char>, y: Seq<char>| #[trigger]
            self.spec_contains(g, y) <==> old(self).spec_contains(g, y) || (g == f@ && y == x@) by {
            if old(self).spec_contains(g, y) {
                let i = choose|i: int|
                    0 <= i < p0.len() && (#[trigger] p0[i]).0@ == g && p0[i].1@ == y;
                assert(self.pairs@[i].0@ == g);
            }
            if g == f@ && y == x@ {
                assert(self.pairs@[p0.len() as int].0@ == g);
            }
        }
    }
}

/// The names of the candidates of a list of statements, each at least once.
pub open spec fn lists(out: Seq<String>, x: Seq<char>) -> bool {
    exists|i: int| 0 <= i < out.len() && (#[trigger] out[i])@ == x
}

fn collect_stmt(s: &Stmt, structs: &NameSet, out: &mut Vec<String>)
    ensures
        forall|x: Seq<char>| #[trigger]
            lists(final(out)@, x) <==> lists(old(out)@, x) || candidate_stmt(s@, structs@, x),
    decreases s,
{
    match s {
        Stmt::Let { name, value, .. } => {
            if fresh(value, structs) {
                let ghost o0 = out@;
                out.push(name.clone());
                assert forall|x: Seq<char>| #[trigger]
                    lists(out@, x) <==> lists(o0, x) || x == name@ by {
                    if lists(o0, x) {
                        let i = choose|i: int| 0 <= i < o0.len() && (#[trigger] o0[i])@ == x;
                        assert(out@[i]@ == x);
                    }
                    if x == name@ {
                        assert(out@[o0.len() as int]@ == x);
                    }
                }
            }
        },
        Stmt::If { then, elifs, els, .. } => {
            collect_candidates(then, structs, out);
            collect_elifs(elifs, structs, out);
            assert(optblock_view(*els) is Some == els is Some);
            if let Some(b) = els {
                collect_candidates(b, structs, out);
            }
        },
        Stmt::While { body, .. } => collect_candidates(body, structs, out),
        Stmt::For { body, .. } => collect_candidates(body, structs, out),
        Stmt::Try { body, catch_body, .. } => {
            collect_candidates(body, structs, out);
            collect_candidates(catch_body, structs, out);
        },
        _ => {},
    }
}

fn collect_candidates(v: &Vec<Stmt>, structs: &NameSet, out: &mut Vec<String>)
    ensures
        forall|x: Seq<char>| #[trigger]
            lists(final(out)@, x) <==> lists(old(out)@, x) || candidate_block(
                stmts_view(v@),
                structs@,
                x,
            ),
    decreases v,
{
    let ghost s0 = stmts_view(v@);
    let ghost o0 = out@;
    for i in 0..v.len()
        invariant
            s0 == stmts_view(v@),
            forall|x: Seq<char>| #[trigger]
                lists(out@, x) <==> lists(o0, x) || exists|k: int|
                    0 <= k < i && candidate_stmt(#[trigger] s0[k], structs@, x),
    {
        assert(s0[i as int] == v@[i as int]@);
        collect_stmt(&v[i], structs, out);
    }
}

fn collect_elifs(v: &Vec<(Expr, Vec<Stmt>)>, structs: &NameSet, out: &mut Vec<String>)
    ensures
        forall|x: Seq<char>| #[trigger]
            lists(final(out)@, x) <==> lists(old(out)@, x) || candidate_elifs(
                elifs_view(v@),
                structs@,
                x,
            ),
    decreases v,
{
    let ghost s0 = elifs_view(v@);
    let ghost o0 = out@;
    for i in 0..v.len()
        invariant
            s0 == elifs_view(v@),
            forall|x: Seq<char>| #[trigger]
                lists(out@, x) <==> lists(o0, x) || exists|k: int|
                    0 <= k < i && candidate_block((#[trigger] s0[k]).1, structs@, x),
    {
        assert(s0[i as int] == (v@[i as int].0@, stmts_view(v@[i as int].1@)));
        collect_candidates(&v[i].1, structs, out);
    }
}

fn analyze_fn(f: &FnDef, structs: &NameSet, out: &mut ArenaSet)
    ensures
        forall|g: Seq<char>, x: Seq<char>| #[trigger]
            final(out).spec_contains(g, x) <==> old(out).spec_contains(g, x) || (g == f@.name
                && fn_qualifies(f@, structs@, x)),
{
    let mut names: Vec<String> = Vec::new();
    collect_candidates(&f.body, structs, &mut names);
    let ghost o0 = *out;
    let ghost body = f@.body;
    for i in 0..names.len()
        invariant
            body == f@.body,
            body == stmts_view(f.body@),
            f@.params == params_view(f.params@),
            forall|x: Seq<char>| #[trigger]
                lists(names@, x) <==> candidate_block(body, structs@, x),
            forall|g: Seq<char>, x: Seq<char>| #[trigger]
                out.spec_contains(g, x) <==> o0.spec_contains(g, x) || (g == f@.name && fn_qualifies(
                    f@,
                    structs@,
                    x,
                ) && exists|k: int| 0 <= k < i && (#[trigger] names@[k])@ == x),
    {
        let x: &String = &names[i];
        assert(lists(names@, x@));
        if !names_param(&f.params, x.as_str()) && !has_escape_block(&f.body, x.as_str())
            && count_block(&f.body, x.as_str()) <= 1 && clear_block(&f.body, x.as_str()) {
            out.add(f.name.as_str(), x.as_str());
        }
    }
    assert forall|g: Seq<char>, x: Seq<char>| #[trigger]
        out.spec_contains(g, x) <==> o0.spec_contains(g, x) || (
            g == f@.name && fn_qualifies(f@, structs@, x)
        ) by {
        if fn_qualifies(f@, structs@, x) {
            assert(lists(names@, x));
        }
    }
}

/// The variables of a program that may live in the arena of their call.
pub fn analyze(prog: &Vec<Item>) -> (r: ArenaSet)
    ensures
        forall|f: Seq<char>, x: Seq<char>| #[trigger]
            r.spec_contains(f, x) <==> in_arena(prog_view(prog@), f, x),
{
    let ghost items = prog_view(prog@);
    let mut structs = NameSet::new();
    for i in 0..prog.len()
        invariant
            items == prog_view(prog@),
            forall|n: Seq<char>| #[trigger]
                structs@.contains(n) <==> exists|k: int|
                    0 <= k < i && (#[trigger] items[k]) is Struct && items[k]->Struct_0.name == n,
    {
        assert(items[i as int] == prog@[i as int]@);
        if let Item::Struct(s) = &prog[i] {
            structs.insert(s.name.as_str());
        }
    }
    assert(structs@ =~= struct_names(items));
    let mut out = ArenaSet::new();
    for i in 0..prog.len()
        invariant
            items == prog_view(prog@),
            structs@ == struct_names(items),
            forall|f: Seq<char>, x: Seq<char>| #[trigger]
                out.spec_contains(f, x) <==> exists|k: int|
                    0 <= k < i && (#[trigger] items[k]) is Fn && items[k]->Fn_0.name == f
                        && fn_qualifies(items[k]->Fn_0, struct_names(items), x),
    {
        assert(items[i as int] == prog@[i as int]@);
        if let Item::Fn(f) = &prog[i] {
            analyze_fn(f, &structs, &mut out);
        }
    }
    out
}

/// Whether a statement is `t` or stands inside it.
pub open spec fn within(t: StmtView, s: StmtView) -> bool
    decreases t,
{
    t == s || match t {
        StmtView::If { then, elifs, els, .. } => within_block(then, s) || within_elifs(elifs, s)
            || match els {
            Some(b) => within_block(b, s),
            None => false,
        },
        StmtView::While { body, .. } => within_block(body, s),
        StmtView::For { body, .. } => within_block(body, s),
        StmtView::Try { body, catch_body, .. } => within_block(body, s) || within_block(
            catch_body,
            s,
        ),
        _ => false,
    }
}

/// Whether a statement stands in a block, at any depth.
pub open spec fn within_block(b: Seq<StmtView>, s: StmtView) -> bool
    decreases b,
{
    exists|i: int| 0 <= i < b.len() && within(#[trigger] b[i], s)
}

pub open spec fn within_elifs(b: Seq<(ExprView, Seq<StmtView>)>, s: StmtView) -> bool
    decreases b,
{
    exists|i: int| 0 <= i < b.len() && within_block((#[trigger] b[i]).1, s)
}

proof fn escape_within(t: StmtView, s: StmtView, x: Seq<char>)
    requires
        within(t, s),
        escapes_stmt(s, x),
    ensures
        escapes_stmt(t, x),
    decreases t,
{
    if t != s {
        match t {
            StmtView::If { then, elifs, els, .. } => {
                if within_block(then, s) {
                    escape_within_block(then, s, x);
                } else if within_elifs(elifs, s) {
                    escape_within_elifs(elifs, s, x);
                } else {
                    match els {
                        Some(b) => {
                            escape_within_block(b, s, x);
                            assert(escapes_optblock(els, x));
                        },
                        None => {},
                    }
                }
            },
            StmtView::While { body, .. } => escape_within_block(body, s, x),
            StmtView::For { body, .. } => escape_within_block(body, s, x),
            StmtView::Try { body, catch_body, .. } => {
                if within_block(body, s) {
                    escape_within_block(body, s, x);
                } else {
                    escape_within_block(catch_body, s, x);
                }
            },
            _ => {},
        }
    }
}

proof fn escape_within_block(b: Seq<StmtView>, s: StmtView, x: Seq<char>)
    requires
        within_block(b, s),
        escapes_stmt(s, x),
    ensures
        escapes_block(b, x),
    decreases b,
{
    let i = choose|i: int| 0 <= i < b.len() && within(#[trigger] b[i], s);
    escape_within(b[i], s, x);
}

proof fn escape_within_elifs(b: Seq<(ExprView, Seq<StmtView>)>, s: StmtView, x: Seq<char>)
    requires
        within_elifs(b, s),
        escapes_stmt(s, x),
    ensures
        escapes_elifs(b, x),
    decreases b,
{
    let i = choose|i: int| 0 <= i < b.len() && within_block((#[trigger] b[i]).1, s);
    escape_within_block(b[i].1, s, x);
}

/// What is returned or raised, anywhere in a function, does not live in the arena.
pub proof fn returned_escapes(
    body: Seq<StmtView>,
    structs: Set<Seq<char>>,
    x: Seq<char>,
    s: StmtView,
)
    requires
        within_block(body, s),
        (s is Return && s->Return_0 is Some && mentions_expr(s->Return_0->Some_0, x)) || (s is Raise
            && mentions_expr(s->Raise_0, x)),
    ensures
        !qualifies(body, structs, x),
{
    escape_within_block(body, s, x);
}

/// What is given another name, anywhere in a function, does not live in the arena.
pub proof fn aliased_escapes(
    body: Seq<StmtView>,
    structs: Set<Seq<char>>,
    x: Seq<char>,
    s: StmtView,
)
    requires
        within_block(body, s),
        (s is Let && is_var(s->Let_value, x)) || (s is Assign && is_var(s->Assign_value, x)
            && !is_var(s->Assign_target, x)),
    ensures
        !qualifies(body, structs, x),
{
    escape_within_block(body, s, x);
}

/// What goes into an element or a field of another value does not live in the arena.
pub proof fn stored_escapes(
    body: Seq<StmtView>,
    structs: Set<Seq<char>>,
    x: Seq<char>,
    s: StmtView,
)
    requires
        within_block(body, s),
        s is Assign,
        mentions_expr(s->Assign_value, x),
        stores_elsewhere(s->Assign_target, x),
    ensures
        !qualifies(body, structs, x),
{
    escape_within_block(body, s, x);
}

/// Whether an expression hands `x` on: to a function that may keep it, to a method as an
/// argument, into a list, a map, a struct or a closure, or as what a branch or a
/// comprehension gives.
pub open spec fn hands_on(e: ExprView, x: Seq<char>) -> bool {
    match e {
        ExprView::Call { callee, args } => !safe_callee(*callee) && args.contains(
            ExprView::Ident(x),
        ),
        ExprView::Method { args, .. } => args.contains(ExprView::Ident(x)),
        ExprView::NamedCall { args, .. } => named_mention(args, x),
        ExprView::List(items) => items.contains(ExprView::Ident(x)),
        ExprView::MapLit(pairs) => mentions_pairs(pairs, x),
        ExprView::IfElse { then, els, .. } => is_var(*then, x) || is_var(*els, x),
        ExprView::ListComp { elem, .. } => is_var(*elem, x),
        ExprView::Lambda { .. } => true,
        ExprView::Closure { captures, .. } => captures.contains(ExprView::Ident(x)),
        _ => false,
    }
}

/// A variable that is bound or assigned twice, be it by a loop or a `catch`, does not live
/// in the arena.
pub proof fn rebound_escapes(
    body: Seq<StmtView>,
    structs: Set<Seq<char>>,
    x: Seq<char>,
    i: int,
    j: int,
)
    requires
        0 <= i < j < body.len(),
        bindings_stmt(body[i], x) > 0,
        bindings_stmt(body[j], x) > 0,
    ensures
        !qualifies(body, structs, x),
{
    binding_counts(body, x, j);
    binding_counts(body.take(j), x, i);
    assert(body.take(j)[i] == body[i]);
}

/// The statements before the `i`-th and that one count.
proof fn binding_counts(s: Seq<StmtView>, x: Seq<char>, i: int)
    requires
        0 <= i < s.len(),
    ensures
        bindings_block(s, x) >= bindings_block(s.take(i), x) + bindings_stmt(s[i], x),
    decreases s.len(),
{
    if i == s.len() - 1 {
        assert(s.take(i) =~= s.drop_last());
    } else {
        binding_counts(s.drop_last(), x, i);
        assert(s.drop_last().take(i) =~= s.take(i));
    }
}

/// What lives in the arena is bound once, and is hidden by no comprehension, however deep
/// it stands.
pub proof fn arena_is_bound_once(body: Seq<StmtView>, structs: Set<Seq<char>>, x: Seq<char>)
    requires
        qualifies(body, structs, x),
    ensures
        bindings_block(body, x) == 1,
        every_block(body, unshadowed(x)),
{
    candidate_binds(body, structs, x);
}

/// A candidate is bound by its declaration.
proof fn candidate_binds(b: Seq<StmtView>, structs: Set<Seq<char>>, x: Seq<char>)
    requires
        candidate_block(b, structs, x),
    ensures
        bindings_block(b, x) >= 1,
    decreases b,
{
    let i = choose|i: int| 0 <= i < b.len() && candidate_stmt(#[trigger] b[i], structs, x);
    candidate_stmt_binds(b[i], structs, x);
    binding_counts(b, x, i);
}

proof fn candidate_stmt_binds(s: StmtView, structs: Set<Seq<char>>, x: Seq<char>)
    requires
        candidate_stmt(s, structs, x),
    ensures
        bindings_stmt(s, x) >= 1,
    decreases s,
{
    match s {
        StmtView::If { then, elifs, els, .. } => {
            if candidate_block(then, structs, x) {
                candidate_binds(then, structs, x);
            } else if candidate_elifs(elifs, structs, x) {
                candidate_elifs_bind(elifs, structs, x);
            } else if let Some(b) = els {
                candidate_binds(b, structs, x);
            }
        },
        StmtView::While { body, .. } => candidate_binds(body, structs, x),
        StmtView::For { body, .. } => candidate_binds(body, structs, x),
        StmtView::Try { body, catch_body, .. } => {
            if candidate_block(body, structs, x) {
                candidate_binds(body, structs, x);
            } else {
                candidate_binds(catch_body, structs, x);
            }
        },
        _ => {},
    }
}

proof fn candidate_elifs_bind(
    s: Seq<(ExprView, Seq<StmtView>)>,
    structs: Set<Seq<char>>,
    x: Seq<char>,
)
    requires
        candidate_elifs(s, structs, x),
    ensures
        bindings_elifs(s, x) >= 1,
    decreases s,
{
    let i = choose|i: int| 0 <= i < s.len() && candidate_block((#[trigger] s[i]).1, structs, x);
    candidate_binds(s[i].1, structs, x);
    elif_counts(s, x, i);
}

proof fn elif_counts(s: Seq<(ExprView, Seq<StmtView>)>, x: Seq<char>, i: int)
    requires
        0 <= i < s.len(),
    ensures
        bindings_elifs(s, x) >= bindings_block(s[i].1, x),
    decreases s.len(),
{
    if i < s.len() - 1 {
        elif_counts(s.drop_last(), x, i);
    }
}

} // verus!
