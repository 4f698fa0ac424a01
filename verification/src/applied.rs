//! After expansion every call is fully applied.

use crate::ast::{ExprView, FStrPartView, ItemView, StmtView};
use crate::defaults::{
    collected, defaults_of, ex_block, ex_elifs, ex_expr, ex_exprs, ex_named, ex_opt, ex_optblock,
    ex_optbox, ex_opts, ex_pairs, ex_parts, ex_stmt, expanded, filled, first_gap, has_default, has_gap, leading,
    opts_one_by_one, pad_with, padding_completes, Defaults,
};
use crate::walk::{
    every_block, every_elifs, every_expr, every_exprs, every_named, every_opt, every_optblock,
    every_optbox, every_pairs, every_part, every_parts, every_stmt, in_bodies, in_body, Prop,
};
use vstd::prelude::*;

verus! {

/// Whether a call leaves nothing out that could be filled in: it gives an argument for
/// every parameter, or leaves out one that has no default.
pub open spec fn is_applied(e: ExprView, d: Defaults) -> bool {
    match e {
        ExprView::Call { callee, args } => match *callee {
            ExprView::Ident(n) => d.contains_key(n) ==> args.len() >= d[n].len()
                || d[n][args.len() as int] is None,
            _ => true,
        },
        _ => true,
    }
}

pub open spec fn applied(d: Defaults) -> Prop {
    |e: ExprView| is_applied(e, d)
}

/// An order of the functions.
pub type Rank = spec_fn(Seq<char>) -> nat;

/// Whether a call of a function with defaults is of one below `b`.
pub open spec fn calls_below(d: Defaults, rank: Rank, b: nat) -> Prop {
    |e: ExprView|
        match e {
            ExprView::Call { callee, .. } => match *callee {
                ExprView::Ident(n) => d.contains_key(n) ==> rank(n) < b,
                _ => true,
            },
            _ => true,
        }
}

/// Whether the defaults of each function call only functions below it: no function needs
/// its own defaults to be filled in.
pub open spec fn in_order(d: Defaults, rank: Rank, b: nat) -> bool {
    &&& forall|n: Seq<char>| #[trigger] d.contains_key(n) ==> rank(n) < b
    &&& forall|n: Seq<char>, i: int|
        d.contains_key(n) && 0 <= i < d[n].len() ==> every_opt(
            #[trigger] d[n][i],
            calls_below(d, rank, rank(n)),
        )
}

/// What the proof keeps while it goes down: calls are below `b`, of functions that are not
/// being filled in.
spec fn ready(d: Defaults, rank: Rank, b: nat, seen: Set<Seq<char>>, left: nat, top: nat) -> bool {
    &&& in_order(d, rank, top)
    &&& forall|n: Seq<char>| #[trigger] d.contains_key(n) ==> !has_gap(d[n])
    &&& b <= left
    &&& forall|n: Seq<char>| #[trigger] seen.contains(n) ==> rank(n) >= b
}

proof fn call_applied(
    callee: ExprView,
    args: Seq<ExprView>,
    d: Defaults,
    rank: Rank,
    b: nat,
    seen: Set<Seq<char>>,
    left: nat,
    top: nat,
)
    requires
        ready(d, rank, b, seen, left, top),
        every_exprs(args, applied(d)),
        callee is Ident && d.contains_key(callee->Ident_0) ==> rank(callee->Ident_0) < b,
    ensures
        every_exprs(pad_with(args, filled(callee, d, seen, left)), applied(d)),
        callee is Ident && d.contains_key(callee->Ident_0) ==> ({
            let r = pad_with(args, filled(callee, d, seen, left));
            let ds = d[callee->Ident_0];
            r.len() >= ds.len() || ds[r.len() as int] is None
        }),
    decreases left, 0nat, callee,
{
    match callee {
        ExprView::Ident(n) => if d.contains_key(n) {
            assert(!seen.contains(n));
            let l = (left - 1) as nat;
            let s = seen.insert(n);
            let ds = ex_opts(d[n], d, s, l);
            opts_one_by_one(d[n], d, s, l);
            assert(!has_gap(ds)) by {
                if has_gap(ds) {
                    let (i, j) = choose|i: int, j: int|
                        0 <= i < j < ds.len() && (#[trigger] ds[i]) is Some && (#[trigger] ds[j])
                            is None;
                    assert(d[n][i] is Some && d[n][j] is None);
                }
            }
            assert forall|i: int| 0 <= i < ds.len() implies every_opt(
                #[trigger] ds[i],
                applied(d),
            ) by {
                opt_applied(d[n][i], d, rank, rank(n), s, l, top);
            }
            let r = pad_with(args, ds);
            if args.len() < ds.len() {
                if ds[args.len() as int] is Some {
                    padding_completes(args, ds);
                    assert forall|i: int| 0 <= i < r.len() implies every_expr(
                        #[trigger] r[i],
                        applied(d),
                    ) by {
                        if i < args.len() {
                            assert(r.take(args.len() as int)[i] == r[i]);
                        } else {
                            assert(ds[i] == Some(r[i]));
                            assert(every_opt(ds[i], applied(d)));
                        }
                    }
                } else {
                    assert(ds.skip(args.len() as int)[0] is None);
                    assert(leading(ds.skip(args.len() as int)) =~= Seq::empty());
                    assert(r =~= args);
                }
            }
        } else {
            assert(filled(callee, d, seen, left) =~= Seq::empty());
        },
        _ => {
            assert(filled(callee, d, seen, left) =~= Seq::empty());
        },
    }
}

proof fn expr_applied(
    e: ExprView,
    d: Defaults,
    rank: Rank,
    b: nat,
    seen: Set<Seq<char>>,
    left: nat,
    top: nat,
)
    requires
        ready(d, rank, b, seen, left, top),
        b == top || every_expr(e, calls_below(d, rank, b)),
    ensures
        every_expr(ex_expr(e, d, seen, left), applied(d)),
    decreases left, 1nat, e,
{
    assert(b == top || calls_below(d, rank, b)(e));
    match e {
        ExprView::Unary { expr, .. } => expr_applied(*expr, d, rank, b, seen, left, top),
        ExprView::Binary { lhs, rhs, .. } => {
            expr_applied(*lhs, d, rank, b, seen, left, top);
            expr_applied(*rhs, d, rank, b, seen, left, top);
        },
        ExprView::Call { callee, args } => {
            expr_applied(*callee, d, rank, b, seen, left, top);
            exprs_applied(args, d, rank, b, seen, left, top);
            call_applied(*callee, ex_exprs(args, d, seen, left), d, rank, b, seen, left, top);
        },
        ExprView::NamedCall { callee, args } => {
            expr_applied(*callee, d, rank, b, seen, left, top);
            named_applied(args, d, rank, b, seen, left, top);
        },
        ExprView::Method { obj, args, .. } => {
            expr_applied(*obj, d, rank, b, seen, left, top);
            exprs_applied(args, d, rank, b, seen, left, top);
        },
        ExprView::Field { obj, .. } => expr_applied(*obj, d, rank, b, seen, left, top),
        ExprView::Index { obj, index } => {
            expr_applied(*obj, d, rank, b, seen, left, top);
            expr_applied(*index, d, rank, b, seen, left, top);
        },
        ExprView::Slice { obj, lo, hi } => {
            expr_applied(*obj, d, rank, b, seen, left, top);
            optbox_applied(lo, d, rank, b, seen, left, top);
            optbox_applied(hi, d, rank, b, seen, left, top);
        },
        ExprView::List(p) => exprs_applied(p, d, rank, b, seen, left, top),
        ExprView::MapLit(p) => pairs_applied(p, d, rank, b, seen, left, top),
        ExprView::Range { lo, hi } => {
            expr_applied(*lo, d, rank, b, seen, left, top);
            expr_applied(*hi, d, rank, b, seen, left, top);
        },
        ExprView::IfElse { cond, then, els } => {
            expr_applied(*cond, d, rank, b, seen, left, top);
            expr_applied(*then, d, rank, b, seen, left, top);
            expr_applied(*els, d, rank, b, seen, left, top);
        },
        ExprView::ListComp { elem, iter, cond, .. } => {
            expr_applied(*elem, d, rank, b, seen, left, top);
            expr_applied(*iter, d, rank, b, seen, left, top);
            optbox_applied(cond, d, rank, b, seen, left, top);
        },
        ExprView::FStr(p) => parts_applied(p, d, rank, b, seen, left, top),
        ExprView::Lambda { body, .. } => block_applied(body, d, rank, b, seen, left, top),
        ExprView::Closure { captures, .. } => exprs_applied(captures, d, rank, b, seen, left, top),
        _ => {},
    }
}

proof fn optbox_applied(
    o: Option<Box<ExprView>>,
    d: Defaults,
    rank: Rank,
    b: nat,
    seen: Set<Seq<char>>,
    left: nat,
    top: nat,
)
    requires
        ready(d, rank, b, seen, left, top),
        b == top || every_optbox(o, calls_below(d, rank, b)),
    ensures
        every_optbox(ex_optbox(o, d, seen, left), applied(d)),
    decreases left, 1nat, o,
{
    if let Some(e) = o {
        expr_applied(*e, d, rank, b, seen, left, top);
    }
}

proof fn opt_applied(
    o: Option<ExprView>,
    d: Defaults,
    rank: Rank,
    b: nat,
    seen: Set<Seq<char>>,
    left: nat,
    top: nat,
)
    requires
        ready(d, rank, b, seen, left, top),
        b == top || every_opt(o, calls_below(d, rank, b)),
    ensures
        every_opt(ex_opt(o, d, seen, left), applied(d)),
    decreases left, 1nat, o,
{
    if let Some(e) = o {
        expr_applied(e, d, rank, b, seen, left, top);
    }
}

proof fn exprs_applied(
    s: Seq<ExprView>,
    d: Defaults,
    rank: Rank,
    b: nat,
    seen: Set<Seq<char>>,
    left: nat,
    top: nat,
)
    requires
        ready(d, rank, b, seen, left, top),
        b == top || every_exprs(s, calls_below(d, rank, b)),
    ensures
        every_exprs(ex_exprs(s, d, seen, left), applied(d)),
    decreases left, 1nat, s,
{
    if s.len() > 0 {
        let last = s[s.len() - 1];
        assert(b == top || every_exprs(s.drop_last(), calls_below(d, rank, b)));
        exprs_applied(s.drop_last(), d, rank, b, seen, left, top);
        expr_applied(last, d, rank, b, seen, left, top);
    }
}

proof fn named_applied(
    s: Seq<(Seq<char>, ExprView)>,
    d: Defaults,
    rank: Rank,
    b: nat,
    seen: Set<Seq<char>>,
    left: nat,
    top: nat,
)
    requires
        ready(d, rank, b, seen, left, top),
        b == top || every_named(s, calls_below(d, rank, b)),
    ensures
        every_named(ex_named(s, d, seen, left), applied(d)),
    decreases left, 1nat, s,
{
    if s.len() > 0 {
        let last = s[s.len() - 1];
        assert(b == top || every_named(s.drop_last(), calls_below(d, rank, b)));
        named_applied(s.drop_last(), d, rank, b, seen, left, top);
        expr_applied(last.1, d, rank, b, seen, left, top);
    }
}

proof fn pairs_applied(
    s: Seq<(ExprView, ExprView)>,
    d: Defaults,
    rank: Rank,
    b: nat,
    seen: Set<Seq<char>>,
    left: nat,
    top: nat,
)
    requires
        ready(d, rank, b, seen, left, top),
        b == top || every_pairs(s, calls_below(d, rank, b)),
    ensures
        every_pairs(ex_pairs(s, d, seen, left), applied(d)),
    decreases left, 1nat, s,
{
    if s.len() > 0 {
        let last = s[s.len() - 1];
        assert(b == top || every_pairs(s.drop_last(), calls_below(d, rank, b)));
        pairs_applied(s.drop_last(), d, rank, b, seen, left, top);
        expr_applied(last.0, d, rank, b, seen, left, top);
        expr_applied(last.1, d, rank, b, seen, left, top);
    }
}

proof fn parts_applied(
    s: Seq<FStrPartView>,
    d: Defaults,
    rank: Rank,
    b: nat,
    seen: Set<Seq<char>>,
    left: nat,
    top: nat,
)
    requires
        ready(d, rank, b, seen, left, top),
        b == top || every_parts(s, calls_below(d, rank, b)),
    ensures
        every_parts(ex_parts(s, d, seen, left), applied(d)),
    decreases left, 1nat, s,
{
    if s.len() > 0 {
        let last = s[s.len() - 1];
        assert(b == top || every_parts(s.drop_last(), calls_below(d, rank, b)));
        parts_applied(s.drop_last(), d, rank, b, seen, left, top);
        assert(b == top || every_part(last, calls_below(d, rank, b)));
        if let FStrPartView::Expr(e) = last {
            expr_applied(e, d, rank, b, seen, left, top);
        }
    }
}

proof fn stmt_applied(
    s: StmtView,
    d: Defaults,
    rank: Rank,
    b: nat,
    seen: Set<Seq<char>>,
    left: nat,
    top: nat,
)
    requires
        ready(d, rank, b, seen, left, top),
        b == top || every_stmt(s, calls_below(d, rank, b)),
    ensures
        every_stmt(ex_stmt(s, d, seen, left), applied(d)),
    decreases left, 1nat, s,
{
    match s {
        StmtView::Let { value, .. } => expr_applied(value, d, rank, b, seen, left, top),
        StmtView::Assign { target, value } => {
            expr_applied(target, d, rank, b, seen, left, top);
            expr_applied(value, d, rank, b, seen, left, top);
        },
        StmtView::ExprStmt(p) => expr_applied(p, d, rank, b, seen, left, top),
        StmtView::Return(p) => opt_applied(p, d, rank, b, seen, left, top),
        StmtView::If { cond, then, elifs, els } => {
            expr_applied(cond, d, rank, b, seen, left, top);
            block_applied(then, d, rank, b, seen, left, top);
            elifs_applied(elifs, d, rank, b, seen, left, top);
            optblock_applied(els, d, rank, b, seen, left, top);
        },
        StmtView::While { cond, body } => {
            expr_applied(cond, d, rank, b, seen, left, top);
            block_applied(body, d, rank, b, seen, left, top);
        },
        StmtView::For { iter, body, .. } => {
            expr_applied(iter, d, rank, b, seen, left, top);
            block_applied(body, d, rank, b, seen, left, top);
        },
        StmtView::Try { body, catch_body, .. } => {
            block_applied(body, d, rank, b, seen, left, top);
            block_applied(catch_body, d, rank, b, seen, left, top);
        },
        StmtView::Raise(p) => expr_applied(p, d, rank, b, seen, left, top),
        _ => {},
    }
}

proof fn block_applied(
    s: Seq<StmtView>,
    d: Defaults,
    rank: Rank,
    b: nat,
    seen: Set<Seq<char>>,
    left: nat,
    top: nat,
)
    requires
        ready(d, rank, b, seen, left, top),
        b == top || every_block(s, calls_below(d, rank, b)),
    ensures
        every_block(ex_block(s, d, seen, left), applied(d)),
    decreases left, 1nat, s,
{
    if s.len() > 0 {
        let last = s[s.len() - 1];
        assert(b == top || every_block(s.drop_last(), calls_below(d, rank, b)));
        block_applied(s.drop_last(), d, rank, b, seen, left, top);
        stmt_applied(last, d, rank, b, seen, left, top);
    }
}

proof fn elifs_applied(
    s: Seq<(ExprView, Seq<StmtView>)>,
    d: Defaults,
    rank: Rank,
    b: nat,
    seen: Set<Seq<char>>,
    left: nat,
    top: nat,
)
    requires
        ready(d, rank, b, seen, left, top),
        b == top || every_elifs(s, calls_below(d, rank, b)),
    ensures
        every_elifs(ex_elifs(s, d, seen, left), applied(d)),
    decreases left, 1nat, s,
{
    if s.len() > 0 {
        let last = s[s.len() - 1];
        assert(b == top || every_elifs(s.drop_last(), calls_below(d, rank, b)));
        elifs_applied(s.drop_last(), d, rank, b, seen, left, top);
        expr_applied(last.0, d, rank, b, seen, left, top);
        block_applied(last.1, d, rank, b, seen, left, top);
    }
}

proof fn optblock_applied(
    o: Option<Seq<StmtView>>,
    d: Defaults,
    rank: Rank,
    b: nat,
    seen: Set<Seq<char>>,
    left: nat,
    top: nat,
)
    requires
        ready(d, rank, b, seen, left, top),
        b == top || every_optblock(o, calls_below(d, rank, b)),
    ensures
        every_optblock(ex_optblock(o, d, seen, left), applied(d)),
    decreases left, 1nat, o,
{
    if let Some(e) = o {
        block_applied(e, d, rank, b, seen, left, top);
    }
}

proof fn collected_has_no_gap(items: Seq<ItemView>)
    requires
        first_gap(items) is None,
    ensures
        forall|n: Seq<char>| #[trigger]
            collected(items).contains_key(n) ==> !has_gap(collected(items)[n]),
    decreases items.len(),
{
    if items.len() > 0 {
        let init = collected(items.drop_last());
        let all = collected(items);
        collected_has_no_gap(items.drop_last());
        assert forall|n: Seq<char>| #[trigger] all.contains_key(n) implies !has_gap(all[n]) by {
            match items.last() {
                ItemView::Fn(f) => {
                    assert(!has_gap(defaults_of(f.params)));
                    if n != f.name || !has_default(defaults_of(f.params)) {
                        assert(init.contains_key(n));
                        assert(all[n] == init[n]);
                    }
                },
                _ => {
                    assert(init.contains_key(n));
                },
            }
        }
    }
}

/// Every call in the body of an expanded program gives an argument for every parameter
/// that has a default, those in filled-in defaults too. This holds wherever no function
/// needs its own defaults to fill them in, so that there is an order in which they can be.
pub proof fn expansion_applies_all(items: Seq<ItemView>, rank: Rank)
    requires
        first_gap(items) is None,
        in_order(collected(items), rank, items.len()),
    ensures
        in_bodies(expanded(items), applied(collected(items))),
{
    let d = collected(items);
    let n = items.len();
    let none = Set::<Seq<char>>::empty();
    collected_has_no_gap(items);
    assert(ready(d, rank, n, none, n, n));
    let r = expanded(items);
    assert forall|i: int| 0 <= i < r.len() implies in_body(#[trigger] r[i], applied(d)) by {
        match items[i] {
            ItemView::Fn(f) => block_applied(f.body, d, rank, n, none, n, n),
            ItemView::Struct(s) => {
                assert forall|k: int| 0 <= k < s.methods.len() implies every_block(
                    (#[trigger] r[i]->Struct_0.methods[k]).body,
                    applied(d),
                ) by {
                    block_applied(s.methods[k].body, d, rank, n, none, n, n);
                }
            },
            ItemView::Stmt(s) => stmt_applied(s, d, rank, n, none, n, n),
            _ => {},
        }
    }
}

} // verus!
