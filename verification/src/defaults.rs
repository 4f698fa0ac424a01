//! Default arguments: a call that leaves out trailing arguments gets the defaults
//! of the parameters.

use crate::ast::{
    copy_expr, copy_opt, elifs_view, expr_view, exprs_view, fns_view, named_view, opt_view,
    optblock_view, optbox_view, pairs_view, parts_view, prog_view, stmts_view, tail_kept, Expr,
    ExprView, FStrPart, FStrPartView, FnDef, FnDefView, Item, ItemView, ParamView, Stmt, StmtView,
    StructDefView,
};
use crate::names::{NameMap, NameSet};
use crate::CompileError;
use vstd::prelude::*;
use vstd::string::StringExecFns;

verus! {

/// The defaults of each function's parameters, where it has any.
pub type Defaults = Map<Seq<char>, Seq<Option<ExprView>>>;

pub open spec fn opts_view(s: Seq<Option<Expr>>) -> Seq<Option<ExprView>> {
    Seq::new(s.len(), |i: int| opt_view(s[i]))
}

pub open spec fn defaults_view(m: Map<Seq<char>, Vec<Option<Expr>>>) -> Defaults {
    m.map_values(|v: Vec<Option<Expr>>| opts_view(v@))
}

pub open spec fn defaults_of(ps: Seq<ParamView>) -> Seq<Option<ExprView>> {
    Seq::new(ps.len(), |i: int| ps[i].default)
}

/// Whether a parameter with a default has one without behind it.
pub open spec fn has_gap(ds: Seq<Option<ExprView>>) -> bool {
    exists|i: int, j: int|
        0 <= i < j < ds.len() && (#[trigger] ds[i]) is Some && (#[trigger] ds[j]) is None
}

pub open spec fn has_default(ds: Seq<Option<ExprView>>) -> bool {
    exists|i: int| 0 <= i < ds.len() && (#[trigger] ds[i]) is Some
}

/// The defaults at the front of a list, up to the first parameter without one.
pub open spec fn leading(ds: Seq<Option<ExprView>>) -> Seq<ExprView>
    decreases ds.len(),
{
    if ds.len() == 0 || ds[0] is None {
        Seq::empty()
    } else {
        seq![ds[0]->Some_0] + leading(ds.drop_first())
    }
}

/// Arguments with the missing tail filled in; those that the caller gives stay.
pub open spec fn pad_with(args: Seq<ExprView>, ds: Seq<Option<ExprView>>) -> Seq<ExprView> {
    if args.len() < ds.len() {
        args + leading(ds.skip(args.len() as int))
    } else {
        args
    }
}

/// The defaults of the function that is called, with their own calls padded. Inside the
/// defaults of a function its own are not filled in again: `seen` holds the functions
/// whose defaults these are, and `left` bounds how many more there can be.
pub open spec fn filled(
    callee: ExprView,
    d: Defaults,
    seen: Set<Seq<char>>,
    left: nat,
) -> Seq<Option<ExprView>>
    decreases left, callee,
{
    match callee {
        ExprView::Ident(n) => if left > 0 && d.contains_key(n) && !seen.contains(n) {
            ex_opts(d[n], d, seen.insert(n), (left - 1) as nat)
        } else {
            Seq::empty()
        },
        _ => Seq::empty(),
    }
}

pub open spec fn ex_opts(
    s: Seq<Option<ExprView>>,
    d: Defaults,
    seen: Set<Seq<char>>,
    left: nat,
) -> Seq<Option<ExprView>>
    decreases left, s,
{
    if s.len() == 0 {
        s
    } else {
        ex_opts(s.drop_last(), d, seen, left).push(ex_opt(s.last(), d, seen, left))
    }
}

/// Pads every call in an expression.
pub open spec fn ex_expr(e: ExprView, d: Defaults, seen: Set<Seq<char>>, left: nat) -> ExprView
    decreases left, e,
{
    match e {
        ExprView::Call { callee, args } => ExprView::Call {
            callee: Box::new(ex_expr(*callee, d, seen, left)),
            args: pad_with(ex_exprs(args, d, seen, left), filled(*callee, d, seen, left)),
        },
        ExprView::Unary { op, expr } => ExprView::Unary {
            op,
            expr: Box::new(ex_expr(*expr, d, seen, left)),
        },
        ExprView::Binary { op, lhs, rhs } => ExprView::Binary {
            op,
            lhs: Box::new(ex_expr(*lhs, d, seen, left)),
            rhs: Box::new(ex_expr(*rhs, d, seen, left)),
        },
        ExprView::NamedCall { callee, args } => ExprView::NamedCall {
            callee: Box::new(ex_expr(*callee, d, seen, left)),
            args: ex_named(args, d, seen, left),
        },
        ExprView::Method { obj, name, args } => ExprView::Method {
            obj: Box::new(ex_expr(*obj, d, seen, left)),
            name,
            args: ex_exprs(args, d, seen, left),
        },
        ExprView::Field { obj, name } => ExprView::Field {
            obj: Box::new(ex_expr(*obj, d, seen, left)),
            name,
        },
        ExprView::Index { obj, index } => ExprView::Index {
            obj: Box::new(ex_expr(*obj, d, seen, left)),
            index: Box::new(ex_expr(*index, d, seen, left)),
        },
        ExprView::Slice { obj, lo, hi } => ExprView::Slice {
            obj: Box::new(ex_expr(*obj, d, seen, left)),
            lo: ex_optbox(lo, d, seen, left),
            hi: ex_optbox(hi, d, seen, left),
        },
        ExprView::List(p) => ExprView::List(ex_exprs(p, d, seen, left)),
        ExprView::MapLit(p) => ExprView::MapLit(ex_pairs(p, d, seen, left)),
        ExprView::Range { lo, hi } => ExprView::Range {
            lo: Box::new(ex_expr(*lo, d, seen, left)),
            hi: Box::new(ex_expr(*hi, d, seen, left)),
        },
        ExprView::IfElse { cond, then, els } => ExprView::IfElse {
            cond: Box::new(ex_expr(*cond, d, seen, left)),
            then: Box::new(ex_expr(*then, d, seen, left)),
            els: Box::new(ex_expr(*els, d, seen, left)),
        },
        ExprView::ListComp { elem, var, iter, cond } => ExprView::ListComp {
            elem: Box::new(ex_expr(*elem, d, seen, left)),
            var,
            iter: Box::new(ex_expr(*iter, d, seen, left)),
            cond: ex_optbox(cond, d, seen, left),
        },
        ExprView::Lambda { params, body } => ExprView::Lambda {
            params,
            body: ex_block(body, d, seen, left),
        },
        ExprView::FStr(p) => ExprView::FStr(ex_parts(p, d, seen, left)),
        ExprView::Closure { fn_name, captures } => ExprView::Closure {
            fn_name,
            captures: ex_exprs(captures, d, seen, left),
        },
        _ => e,
    }
}

pub open spec fn ex_optbox(
    o: Option<Box<ExprView>>,
    d: Defaults,
    seen: Set<Seq<char>>,
    left: nat,
) -> Option<Box<ExprView>>
    decreases left, o,
{
    match o {
        Some(e) => Some(Box::new(ex_expr(*e, d, seen, left))),
        None => None,
    }
}

pub open spec fn ex_opt(
    o: Option<ExprView>,
    d: Defaults,
    seen: Set<Seq<char>>,
    left: nat,
) -> Option<ExprView>
    decreases left, o,
{
    match o {
        Some(e) => Some(ex_expr(e, d, seen, left)),
        None => None,
    }
}

pub open spec fn ex_exprs(
    s: Seq<ExprView>,
    d: Defaults,
    seen: Set<Seq<char>>,
    left: nat,
) -> Seq<ExprView>
    decreases left, s,
{
    if s.len() == 0 {
        s
    } else {
        ex_exprs(s.drop_last(), d, seen, left).push(ex_expr(s.last(), d, seen, left))
    }
}

pub open spec fn ex_named(
    s: Seq<(Seq<char>, ExprView)>,
    d: Defaults,
    seen: Set<Seq<char>>,
    left: nat,
) -> Seq<(Seq<char>, ExprView)>
    decreases left, s,
{
    if s.len() == 0 {
        s
    } else {
        ex_named(s.drop_last(), d, seen, left).push(
            (s.last().0, ex_expr(s.last().1, d, seen, left)),
        )
    }
}

pub open spec fn ex_pairs(
    s: Seq<(ExprView, ExprView)>,
    d: Defaults,
    seen: Set<Seq<char>>,
    left: nat,
) -> Seq<(ExprView, ExprView)>
    decreases left, s,
{
    if s.len() == 0 {
        s
    } else {
        ex_pairs(s.drop_last(), d, seen, left).push(
            (ex_expr(s.last().0, d, seen, left), ex_expr(s.last().1, d, seen, left)),
        )
    }
}

pub open spec fn ex_parts(
    s: Seq<FStrPartView>,
    d: Defaults,
    seen: Set<Seq<char>>,
    left: nat,
) -> Seq<FStrPartView>
    decreases left, s,
{
    if s.len() == 0 {
        s
    } else {
        ex_parts(s.drop_last(), d, seen, left).push(match s.last() {
            FStrPartView::Expr(e) => FStrPartView::Expr(ex_expr(e, d, seen, left)),
            p => p,
        })
    }
}

pub open spec fn ex_stmt(s: StmtView, d: Defaults, seen: Set<Seq<char>>, left: nat) -> StmtView
    decreases left, s,
{
    match s {
        StmtView::Let { name, mutable, ty, value } => StmtView::Let {
            name,
            mutable,
            ty,
            value: ex_expr(value, d, seen, left),
        },
        StmtView::Assign { target, value } => StmtView::Assign {
            target: ex_expr(target, d, seen, left),
            value: ex_expr(value, d, seen, left),
        },
        StmtView::ExprStmt(p) => StmtView::ExprStmt(ex_expr(p, d, seen, left)),
        StmtView::Return(p) => StmtView::Return(ex_opt(p, d, seen, left)),
        StmtView::If { cond, then, elifs, els } => StmtView::If {
            cond: ex_expr(cond, d, seen, left),
            then: ex_block(then, d, seen, left),
            elifs: ex_elifs(elifs, d, seen, left),
            els: ex_optblock(els, d, seen, left),
        },
        StmtView::While { cond, body } => StmtView::While {
            cond: ex_expr(cond, d, seen, left),
            body: ex_block(body, d, seen, left),
        },
        StmtView::For { var, iter, body } => StmtView::For {
            var,
            iter: ex_expr(iter, d, seen, left),
            body: ex_block(body, d, seen, left),
        },
        StmtView::Try { body, catch_var, catch_body } => StmtView::Try {
            body: ex_block(body, d, seen, left),
            catch_var,
            catch_body: ex_block(catch_body, d, seen, left),
        },
        StmtView::Raise(p) => StmtView::Raise(ex_expr(p, d, seen, left)),
        _ => s,
    }
}

pub open spec fn ex_block(
    s: Seq<StmtView>,
    d: Defaults,
    seen: Set<Seq<char>>,
    left: nat,
) -> Seq<StmtView>
    decreases left, s,
{
    if s.len() == 0 {
        s
    } else {
        ex_block(s.drop_last(), d, seen, left).push(ex_stmt(s.last(), d, seen, left))
    }
}

pub open spec fn ex_elifs(
    s: Seq<(ExprView, Seq<StmtView>)>,
    d: Defaults,
    seen: Set<Seq<char>>,
    left: nat,
) -> Seq<(ExprView, Seq<StmtView>)>
    decreases left, s,
{
    if s.len() == 0 {
        s
    } else {
        ex_elifs(s.drop_last(), d, seen, left).push(
            (ex_expr(s.last().0, d, seen, left), ex_block(s.last().1, d, seen, left)),
        )
    }
}

pub open spec fn ex_optblock(
    o: Option<Seq<StmtView>>,
    d: Defaults,
    seen: Set<Seq<char>>,
    left: nat,
) -> Option<Seq<StmtView>>
    decreases left, o,
{
    match o {
        Some(b) => Some(ex_block(b, d, seen, left)),
        None => None,
    }
}

pub open spec fn ex_methods(
    s: Seq<FnDefView>,
    d: Defaults,
    seen: Set<Seq<char>>,
    left: nat,
) -> Seq<FnDefView> {
    Seq::new(s.len(), |i: int| FnDefView { body: ex_block(s[i].body, d, seen, left), ..s[i] })
}

pub open spec fn ex_item(i: ItemView, d: Defaults, seen: Set<Seq<char>>, left: nat) -> ItemView {
    match i {
        ItemView::Fn(f) => ItemView::Fn(FnDefView { body: ex_block(f.body, d, seen, left), ..f }),
        ItemView::Struct(s) => ItemView::Struct(
            StructDefView { methods: ex_methods(s.methods, d, seen, left), ..s },
        ),
        ItemView::Stmt(s) => ItemView::Stmt(ex_stmt(s, d, seen, left)),
        _ => i,
    }
}

pub open spec fn ex_items(
    s: Seq<ItemView>,
    d: Defaults,
    seen: Set<Seq<char>>,
    left: nat,
) -> Seq<ItemView> {
    Seq::new(s.len(), |i: int| ex_item(s[i], d, seen, left))
}

/// The defaults of the functions of a program; a later function of a name counts.
pub open spec fn collected(items: Seq<ItemView>) -> Defaults
    decreases items.len(),
{
    if items.len() == 0 {
        Map::empty()
    } else {
        let init = collected(items.drop_last());
        match items.last() {
            ItemView::Fn(f) => if has_default(defaults_of(f.params)) {
                init.insert(f.name, defaults_of(f.params))
            } else {
                init
            },
            _ => init,
        }
    }
}

/// A program with every call padded.
pub open spec fn expanded(items: Seq<ItemView>) -> Seq<ItemView> {
    ex_items(items, collected(items), Set::empty(), items.len())
}

/// The first function whose defaults have a gap.
pub open spec fn first_gap(items: Seq<ItemView>) -> Option<Seq<char>>
    decreases items.len(),
{
    if items.len() == 0 {
        None
    } else {
        match first_gap(items.drop_last()) {
            Some(n) => Some(n),
            None => match items.last() {
                ItemView::Fn(f) => if has_gap(defaults_of(f.params)) {
                    Some(f.name)
                } else {
                    None
                },
                _ => None,
            },
        }
    }
}

pub open spec fn gap_message(name: Seq<char>) -> Seq<char> {
    "fn "@ + name + ": a parameter without a default cannot follow one with a default"@
}

proof fn leading_step(here: Seq<Option<ExprView>>, taken: Seq<ExprView>)
    requires
        here.len() > 0,
        here[0] is Some,
    ensures
        taken + leading(here) == taken.push(here[0]->Some_0) + leading(here.drop_first()),
{
    assert(taken + leading(here) =~= taken.push(here[0]->Some_0) + leading(here.drop_first()));
}

proof fn exprs_view_push(v: Seq<Expr>, e: Expr)
    ensures
        exprs_view(v.push(e)) == exprs_view(v).push(e@),
{
    assert(exprs_view(v.push(e)) =~= exprs_view(v).push(e@));
}

pub(crate) proof fn opts_one_by_one(
    s: Seq<Option<ExprView>>,
    d: Defaults,
    seen: Set<Seq<char>>,
    left: nat,
)
    ensures
        ex_opts(s, d, seen, left).len() == s.len(),
        forall|i: int|
            0 <= i < s.len() ==> #[trigger] ex_opts(s, d, seen, left)[i] == ex_opt(
                s[i],
                d,
                seen,
                left,
            ),
    decreases s.len(),
{
    if s.len() > 0 {
        opts_one_by_one(s.drop_last(), d, seen, left);
    }
}

fn pad(
    name: &str,
    args: &mut Vec<Expr>,
    d: &NameMap<Vec<Option<Expr>>>,
    seen: &NameSet,
    left: usize,
)
    ensures
        exprs_view(final(args)@) == pad_with(
            exprs_view(old(args)@),
            filled(ExprView::Ident(name@), defaults_view(d@), seen@, left as nat),
        ),
    decreases left, 0nat, *old(args),
{
    let ghost a0 = exprs_view(args@);
    let ghost dv = defaults_view(d@);
    if left == 0 || seen.contains(name) {
        return;
    }
    match d.get(name) {
        None => {},
        Some(ds) => {
            let ghost raw = opts_view(ds@);
            assert(dv[name@] == raw);
            let mut inner = seen.copy();
            inner.insert(name);
            let ghost full = ex_opts(raw, dv, inner@, (left - 1) as nat);
            proof {
                opts_one_by_one(raw, dv, inner@, (left - 1) as nat);
            }
            let from: usize = args.len();
            if from < ds.len() {
                let ghost rest = full.skip(from as int);
                let mut k: usize = from;
                let ghost mut taken: Seq<ExprView> = Seq::empty();
                assert(rest.skip(0) =~= rest);
                assert(Seq::<ExprView>::empty() + leading(rest) =~= leading(rest));
                assert(a0 + taken =~= a0);
                while k < ds.len()
                    invariant
                        left > 0,
                        from <= k <= ds@.len(),
                        raw == opts_view(ds@),
                        dv == defaults_view(d@),
                        full.len() == raw.len(),
                        forall|i: int|
                            0 <= i < raw.len() ==> #[trigger] full[i] == ex_opt(
                                raw[i],
                                dv,
                                inner@,
                                (left - 1) as nat,
                            ),
                        rest == full.skip(from as int),
                        exprs_view(args@) == a0 + taken,
                        leading(rest) == taken + leading(rest.skip(k - from)),
                        a0.len() == from,
                        pad_with(
                            a0,
                            filled(ExprView::Ident(name@), dv, seen@, left as nat),
                        ) == a0 + leading(rest),
                        a0 == exprs_view(old(args)@),
                    decreases ds@.len() - k,
                {
                    let ghost here = rest.skip(k - from);
                    assert(here[0] == full[k as int]);
                    assert(raw[k as int] == opt_view(ds@[k as int]));
                    match &ds[k] {
                        Some(e) => {
                            let mut c = copy_expr(e);
                            walk_expr(&mut c, d, &inner, left - 1);
                            let ghost v0 = args@;
                            args.push(c);
                            proof {
                                exprs_view_push(v0, c);
                                assert((a0 + taken).push(c@) =~= a0 + taken.push(c@));
                                assert(here.drop_first() =~= rest.skip(k + 1 - from));
                                leading_step(here, taken);
                                taken = taken.push(c@);
                            }
                        },
                        None => {
                            assert(leading(here) =~= Seq::empty());
                            assert(taken + Seq::empty() =~= taken);
                            return;
                        },
                    }
                    k += 1;
                }
                assert(leading(rest.skip(k - from)) =~= Seq::empty());
                assert(taken + Seq::empty() =~= taken);
            }
        },
    }
}

#[verifier::rlimit(60)]
fn walk_expr(e: &mut Expr, d: &NameMap<Vec<Option<Expr>>>, seen: &NameSet, left: usize)
    ensures
        final(e)@ == ex_expr(old(e)@, defaults_view(d@), seen@, left as nat),
    decreases left, 1nat, *old(e),
{
    match e {
        Expr::Call { callee, args } => {
            let ghost c0 = callee@;
            walk_exprs(args, d, seen, left);
            assert(callee@ == expr_view(**callee));
            match &**callee {
                Expr::Ident(name) => {
                    assert(c0 == ExprView::Ident(name@));
                    pad(name.as_str(), args, d, seen, left);
                },
                _ => {
                    assert(filled(c0, defaults_view(d@), seen@, left as nat) =~= Seq::empty());
                },
            }
            walk_expr(callee, d, seen, left);
        },
        Expr::Unary { expr, .. } => {
            walk_expr(expr, d, seen, left);
        },
        Expr::Binary { lhs, rhs, .. } => {
            walk_expr(lhs, d, seen, left);
            walk_expr(rhs, d, seen, left);
        },
        Expr::NamedCall { callee, args } => {
            walk_expr(callee, d, seen, left);
            walk_named(args, d, seen, left);
        },
        Expr::Method { obj, args, .. } => {
            walk_expr(obj, d, seen, left);
            walk_exprs(args, d, seen, left);
        },
        Expr::Field { obj, .. } => {
            walk_expr(obj, d, seen, left);
        },
        Expr::Index { obj, index } => {
            walk_expr(obj, d, seen, left);
            walk_expr(index, d, seen, left);
        },
        Expr::Slice { obj, lo, hi } => {
            walk_expr(obj, d, seen, left);
            walk_optbox(lo, d, seen, left);
            walk_optbox(hi, d, seen, left);
        },
        Expr::List(p) => {
            walk_exprs(p, d, seen, left);
        },
        Expr::MapLit(p) => {
            walk_pairs(p, d, seen, left);
        },
        Expr::Range { lo, hi } => {
            walk_expr(lo, d, seen, left);
            walk_expr(hi, d, seen, left);
        },
        Expr::IfElse { cond, then, els } => {
            walk_expr(cond, d, seen, left);
            walk_expr(then, d, seen, left);
            walk_expr(els, d, seen, left);
        },
        Expr::ListComp { elem, iter, cond, .. } => {
            walk_expr(elem, d, seen, left);
            walk_expr(iter, d, seen, left);
            walk_optbox(cond, d, seen, left);
        },
        Expr::Lambda { body, .. } => {
            walk_block(body, d, seen, left);
        },
        Expr::FStr(p) => {
            walk_parts(p, d, seen, left);
        },
        Expr::Closure { captures, .. } => {
            walk_exprs(captures, d, seen, left);
        },
        _ => {},
    }
}

fn walk_exprs(v: &mut Vec<Expr>, d: &NameMap<Vec<Option<Expr>>>, seen: &NameSet, left: usize)
    ensures
        exprs_view(final(v)@) == ex_exprs(
            exprs_view(old(v)@),
            defaults_view(d@),
            seen@,
            left as nat,
        ),
    decreases left, 1nat, *old(v),
{
    let ghost v0 = v@;
    let ghost s0 = exprs_view(v0);
    let len: usize = v.len();
    assert(s0.take(0) =~= Seq::empty());
    assert(exprs_view(v@).take(0) =~= Seq::empty());
    let mut i: usize = 0;
    while i < len
        invariant
            i <= len,
            len == v@.len(),
            len == v0.len(),
            v0 == old(v)@,
            s0 == exprs_view(v0),
            exprs_view(v@).take(i as int) == ex_exprs(
                s0.take(i as int),
                defaults_view(d@),
                seen@,
                left as nat,
            ),
            tail_kept(v@, v0, i as int),
        decreases len - i,
    {
        let ghost t0 = exprs_view(v@).take(i as int);
        assert(s0.take(i + 1).drop_last() =~= s0.take(i as int));
        assert(s0.take(i + 1).last() == v0[i as int]@);
        walk_expr(&mut v[i], d, seen, left);
        assert(exprs_view(v@).take(i + 1) =~= t0.push(v@[i as int]@));
        i += 1;
    }
    assert(s0.take(len as int) =~= s0);
    assert(exprs_view(v@).take(len as int) =~= exprs_view(v@));
}

fn walk_named(
    v: &mut Vec<(String, Expr)>,
    d: &NameMap<Vec<Option<Expr>>>,
    seen: &NameSet,
    left: usize,
)
    ensures
        named_view(final(v)@) == ex_named(
            named_view(old(v)@),
            defaults_view(d@),
            seen@,
            left as nat,
        ),
    decreases left, 1nat, *old(v),
{
    let ghost v0 = v@;
    let ghost s0 = named_view(v0);
    let len: usize = v.len();
    assert(s0.take(0) =~= Seq::empty());
    assert(named_view(v@).take(0) =~= Seq::empty());
    let mut i: usize = 0;
    while i < len
        invariant
            i <= len,
            len == v@.len(),
            len == v0.len(),
            v0 == old(v)@,
            s0 == named_view(v0),
            named_view(v@).take(i as int) == ex_named(
                s0.take(i as int),
                defaults_view(d@),
                seen@,
                left as nat,
            ),
            tail_kept(v@, v0, i as int),
        decreases len - i,
    {
        let ghost t0 = named_view(v@).take(i as int);
        assert(s0.take(i + 1).drop_last() =~= s0.take(i as int));
        assert(s0.take(i + 1).last() == (v0[i as int].0@, v0[i as int].1@));
        walk_expr(&mut v[i].1, d, seen, left);
        assert(named_view(v@).take(i + 1) =~= t0.push((v@[i as int].0@, v@[i as int].1@)));
        i += 1;
    }
    assert(s0.take(len as int) =~= s0);
    assert(named_view(v@).take(len as int) =~= named_view(v@));
}

fn walk_pairs(
    v: &mut Vec<(Expr, Expr)>,
    d: &NameMap<Vec<Option<Expr>>>,
    seen: &NameSet,
    left: usize,
)
    ensures
        pairs_view(final(v)@) == ex_pairs(
            pairs_view(old(v)@),
            defaults_view(d@),
            seen@,
            left as nat,
        ),
    decreases left, 1nat, *old(v),
{
    let ghost v0 = v@;
    let ghost s0 = pairs_view(v0);
    let len: usize = v.len();
    assert(s0.take(0) =~= Seq::empty());
    assert(pairs_view(v@).take(0) =~= Seq::empty());
    let mut i: usize = 0;
    while i < len
        invariant
            i <= len,
            len == v@.len(),
            len == v0.len(),
            v0 == old(v)@,
            s0 == pairs_view(v0),
            pairs_view(v@).take(i as int) == ex_pairs(
                s0.take(i as int),
                defaults_view(d@),
                seen@,
                left as nat,
            ),
            tail_kept(v@, v0, i as int),
        decreases len - i,
    {
        let ghost t0 = pairs_view(v@).take(i as int);
        assert(s0.take(i + 1).drop_last() =~= s0.take(i as int));
        assert(s0.take(i + 1).last() == (v0[i as int].0@, v0[i as int].1@));
        let ghost k0 = v@[i as int].1;
        walk_expr(&mut v[i].0, d, seen, left);
        assert(v@[i as int].1 == k0);
        walk_expr(&mut v[i].1, d, seen, left);
        assert(pairs_view(v@).take(i + 1) =~= t0.push((v@[i as int].0@, v@[i as int].1@)));
        i += 1;
    }
    assert(s0.take(len as int) =~= s0);
    assert(pairs_view(v@).take(len as int) =~= pairs_view(v@));
}

fn walk_parts(v: &mut Vec<FStrPart>, d: &NameMap<Vec<Option<Expr>>>, seen: &NameSet, left: usize)
    ensures
        parts_view(final(v)@) == ex_parts(
            parts_view(old(v)@),
            defaults_view(d@),
            seen@,
            left as nat,
        ),
    decreases left, 1nat, *old(v),
{
    let ghost v0 = v@;
    let ghost s0 = parts_view(v0);
    let len: usize = v.len();
    assert(s0.take(0) =~= Seq::empty());
    assert(parts_view(v@).take(0) =~= Seq::empty());
    let mut i: usize = 0;
    while i < len
        invariant
            i <= len,
            len == v@.len(),
            len == v0.len(),
            v0 == old(v)@,
            s0 == parts_view(v0),
            parts_view(v@).take(i as int) == ex_parts(
                s0.take(i as int),
                defaults_view(d@),
                seen@,
                left as nat,
            ),
            tail_kept(v@, v0, i as int),
        decreases len - i,
    {
        let ghost t0 = parts_view(v@).take(i as int);
        assert(s0.take(i + 1).drop_last() =~= s0.take(i as int));
        assert(s0.take(i + 1).last() == v0[i as int]@);
        match &mut v[i] {
            FStrPart::Expr(e) => {
                walk_expr(e, d, seen, left);
            },
            _ => {},
        }
        assert(parts_view(v@).take(i + 1) =~= t0.push(v@[i as int]@));
        i += 1;
    }
    assert(s0.take(len as int) =~= s0);
    assert(parts_view(v@).take(len as int) =~= parts_view(v@));
}

fn walk_stmt(s: &mut Stmt, d: &NameMap<Vec<Option<Expr>>>, seen: &NameSet, left: usize)
    ensures
        final(s)@ == ex_stmt(old(s)@, defaults_view(d@), seen@, left as nat),
    decreases left, 1nat, *old(s),
{
    match s {
        Stmt::Let { value, .. } => {
            walk_expr(value, d, seen, left);
        },
        Stmt::Assign { target, value } => {
            walk_expr(target, d, seen, left);
            walk_expr(value, d, seen, left);
        },
        Stmt::ExprStmt(p) => {
            walk_expr(p, d, seen, left);
        },
        Stmt::Return(p) => {
            walk_opt(p, d, seen, left);
        },
        Stmt::If { cond, then, elifs, els } => {
            walk_expr(cond, d, seen, left);
            walk_block(then, d, seen, left);
            walk_elifs(elifs, d, seen, left);
            walk_optblock(els, d, seen, left);
        },
        Stmt::While { cond, body } => {
            walk_expr(cond, d, seen, left);
            walk_block(body, d, seen, left);
        },
        Stmt::For { iter, body, .. } => {
            walk_expr(iter, d, seen, left);
            walk_block(body, d, seen, left);
        },
        Stmt::Try { body, catch_body, .. } => {
            walk_block(body, d, seen, left);
            walk_block(catch_body, d, seen, left);
        },
        Stmt::Raise(p) => {
            walk_expr(p, d, seen, left);
        },
        _ => {},
    }
}

fn walk_block(v: &mut Vec<Stmt>, d: &NameMap<Vec<Option<Expr>>>, seen: &NameSet, left: usize)
    ensures
        stmts_view(final(v)@) == ex_block(
            stmts_view(old(v)@),
            defaults_view(d@),
            seen@,
            left as nat,
        ),
    decreases left, 1nat, *old(v),
{
    let ghost v0 = v@;
    let ghost s0 = stmts_view(v0);
    let len: usize = v.len();
    assert(s0.take(0) =~= Seq::empty());
    assert(stmts_view(v@).take(0) =~= Seq::empty());
    let mut i: usize = 0;
    while i < len
        invariant
            i <= len,
            len == v@.len(),
            len == v0.len(),
            v0 == old(v)@,
            s0 == stmts_view(v0),
            stmts_view(v@).take(i as int) == ex_block(
                s0.take(i as int),
                defaults_view(d@),
                seen@,
                left as nat,
            ),
            tail_kept(v@, v0, i as int),
        decreases len - i,
    {
        let ghost t0 = stmts_view(v@).take(i as int);
        assert(s0.take(i + 1).drop_last() =~= s0.take(i as int));
        assert(s0.take(i + 1).last() == v0[i as int]@);
        walk_stmt(&mut v[i], d, seen, left);
        assert(stmts_view(v@).take(i + 1) =~= t0.push(v@[i as int]@));
        i += 1;
    }
    assert(s0.take(len as int) =~= s0);
    assert(stmts_view(v@).take(len as int) =~= stmts_view(v@));
}

fn walk_elifs(
    v: &mut Vec<(Expr, Vec<Stmt>)>,
    d: &NameMap<Vec<Option<Expr>>>,
    seen: &NameSet,
    left: usize,
)
    ensures
        elifs_view(final(v)@) == ex_elifs(
            elifs_view(old(v)@),
            defaults_view(d@),
            seen@,
            left as nat,
        ),
    decreases left, 1nat, *old(v),
{
    let ghost v0 = v@;
    let ghost s0 = elifs_view(v0);
    let len: usize = v.len();
    assert(s0.take(0) =~= Seq::empty());
    assert(elifs_view(v@).take(0) =~= Seq::empty());
    let mut i: usize = 0;
    while i < len
        invariant
            i <= len,
            len == v@.len(),
            len == v0.len(),
            v0 == old(v)@,
            s0 == elifs_view(v0),
            elifs_view(v@).take(i as int) == ex_elifs(
                s0.take(i as int),
                defaults_view(d@),
                seen@,
                left as nat,
            ),
            tail_kept(v@, v0, i as int),
        decreases len - i,
    {
        let ghost t0 = elifs_view(v@).take(i as int);
        assert(s0.take(i + 1).drop_last() =~= s0.take(i as int));
        assert(s0.take(i + 1).last() == (v0[i as int].0@, stmts_view(v0[i as int].1@)));
        let ghost k0 = v@[i as int].1;
        walk_expr(&mut v[i].0, d, seen, left);
        assert(v@[i as int].1 == k0);
        walk_block(&mut v[i].1, d, seen, left);
        assert(
            elifs_view(v@).take(i + 1) =~= t0.push((v@[i as int].0@, stmts_view(v@[i as int].1@)))
        );
        i += 1;
    }
    assert(s0.take(len as int) =~= s0);
    assert(elifs_view(v@).take(len as int) =~= elifs_view(v@));
}

fn walk_optbox(
    o: &mut Option<Box<Expr>>,
    d: &NameMap<Vec<Option<Expr>>>,
    seen: &NameSet,
    left: usize,
)
    ensures
        optbox_view(*final(o)) == ex_optbox(
            optbox_view(*old(o)),
            defaults_view(d@),
            seen@,
            left as nat,
        ),
    decreases left, 1nat, *old(o),
{
    match o {
        Some(p) => {
            walk_expr(p, d, seen, left);
        },
        None => {},
    }
}

fn walk_opt(o: &mut Option<Expr>, d: &NameMap<Vec<Option<Expr>>>, seen: &NameSet, left: usize)
    ensures
        opt_view(*final(o)) == ex_opt(opt_view(*old(o)), defaults_view(d@), seen@, left as nat),
    decreases left, 1nat, *old(o),
{
    match o {
        Some(p) => {
            walk_expr(p, d, seen, left);
        },
        None => {},
    }
}

fn walk_optblock(
    o: &mut Option<Vec<Stmt>>,
    d: &NameMap<Vec<Option<Expr>>>,
    seen: &NameSet,
    left: usize,
)
    ensures
        optblock_view(*final(o)) == ex_optblock(
            optblock_view(*old(o)),
            defaults_view(d@),
            seen@,
            left as nat,
        ),
    decreases left, 1nat, *old(o),
{
    match o {
        Some(p) => {
            walk_block(p, d, seen, left);
        },
        None => {},
    }
}

fn walk_methods(v: &mut Vec<FnDef>, d: &NameMap<Vec<Option<Expr>>>, seen: &NameSet, left: usize)
    ensures
        fns_view(final(v)@) == ex_methods(fns_view(old(v)@), defaults_view(d@), seen@, left as nat),
{
    let ghost v0 = v@;
    let len: usize = v.len();
    let mut i: usize = 0;
    while i < len
        invariant
            i <= len,
            len == v@.len(),
            len == v0.len(),
            forall|j: int|
                0 <= j < i ==> (#[trigger] v@[j])@ == (FnDefView {
                    body: ex_block(v0[j]@.body, defaults_view(d@), seen@, left as nat),
                    ..v0[j]@
                }),
            tail_kept(v@, v0, i as int),
        decreases len - i,
    {
        walk_block(&mut v[i].body, d, seen, left);
        i += 1;
    }
    assert(fns_view(v@) =~= ex_methods(fns_view(v0), defaults_view(d@), seen@, left as nat));
}

fn walk_item(i: &mut Item, d: &NameMap<Vec<Option<Expr>>>, seen: &NameSet, left: usize)
    ensures
        final(i)@ == ex_item(old(i)@, defaults_view(d@), seen@, left as nat),
{
    match i {
        Item::Fn(f) => walk_block(&mut f.body, d, seen, left),
        Item::Struct(s) => walk_methods(&mut s.methods, d, seen, left),
        Item::Stmt(s) => walk_stmt(s, d, seen, left),
        _ => {},
    }
}

/// The defaults of `f`'s parameters.
fn defaults_list(f: &FnDef) -> (r: Vec<Option<Expr>>)
    ensures
        opts_view(r@) == defaults_of(f@.params),
{
    let mut r: Vec<Option<Expr>> = Vec::new();
    for i in 0..f.params.len()
        invariant
            r@.len() == i,
            forall|j: int| 0 <= j < i ==> opt_view(#[trigger] r@[j]) == f@.params[j].default,
    {
        let c = copy_opt(&f.params[i].default);
        r.push(c);
        assert(f@.params[i as int].default == opt_view(f.params@[i as int].default));
    }
    assert(opts_view(r@) =~= defaults_of(f@.params));
    r
}

/// Whether there is a gap and whether there is any default.
#[verifier::spinoff_prover]
fn inspect(ds: &Vec<Option<Expr>>) -> (r: (bool, bool))
    ensures
        r.0 == has_gap(opts_view(ds@)),
        r.1 == has_default(opts_view(ds@)),
{
    let ghost dv = opts_view(ds@);
    let mut seen = false;
    let mut gap = false;
    let ghost mut first: int = 0;
    for i in 0..ds.len()
        invariant
            dv == opts_view(ds@),
            seen ==> 0 <= first < i && dv[first] is Some,
            !seen ==> forall|j: int| 0 <= j < i ==> (#[trigger] dv[j]) is None,
            gap ==> has_gap(dv),
            !gap ==> forall|a: int, b: int|
                0 <= a < b < i && (#[trigger] dv[a]) is Some ==> (#[trigger] dv[b]) is Some,
    {
        assert(dv[i as int] == opt_view(ds@[i as int]));
        if ds[i].is_some() {
            if !seen {
                proof {
                    first = i as int;
                }
            }
            seen = true;
        } else if seen {
            assert(dv[first] is Some && dv[i as int] is None);
            gap = true;
        }
    }
    (gap, seen)
}

/// Fills in the defaults at every call of a program. A function in which a
/// parameter without a default follows one with a default is an error.
pub fn expand_program(prog: &mut Vec<Item>) -> (r: Result<(), CompileError>)
    ensures
        ({
            let items = prog_view(old(prog)@);
            match first_gap(items) {
                Some(n) => r is Err && r->Err_0 is Parse && r->Err_0->Parse_0@ == gap_message(n)
                    && prog_view(final(prog)@) == items,
                None => r is Ok && prog_view(final(prog)@) == expanded(items),
            }
        }),
{
    let ghost items = prog_view(prog@);
    let mut d: NameMap<Vec<Option<Expr>>> = NameMap::new();
    assert(items.take(0) =~= Seq::empty());
    assert(defaults_view(d@) =~= collected(items.take(0)));
    let len: usize = prog.len();
    for i in 0..len
        invariant
            len == prog@.len(),
            items == prog_view(prog@),
            items == prog_view(old(prog)@),
            first_gap(items.take(i as int)) is None,
            defaults_view(d@) == collected(items.take(i as int)),
    {
        assert(items.take(i + 1).drop_last() =~= items.take(i as int));
        assert(items.take(i + 1).last() == prog@[i as int]@);
        if let Item::Fn(f) = &prog[i] {
            let ds = defaults_list(f);
            let (gap, any) = inspect(&ds);
            if gap {
                let mut m = "fn ".to_owned();
                m.append(f.name.as_str());
                m.append(": a parameter without a default cannot follow one with a default");
                proof {
                    first_gap_prefix(items, i + 1);
                }
                return Err(CompileError::Parse(m));
            }
            if any {
                let ghost d0 = d@;
                d.insert(f.name.as_str(), ds);
                assert(defaults_view(d@) =~= defaults_view(d0).insert(f.name@, opts_view(ds@)));
            }
        }
    }
    assert(items.take(len as int) =~= items);
    let ghost v0 = prog@;
    let none = NameSet::new();
    let mut i: usize = 0;
    while i < len
        invariant
            i <= len,
            len == prog@.len(),
            len == v0.len(),
            forall|j: int|
                0 <= j < i ==> (#[trigger] prog@[j])@ == ex_item(
                    v0[j]@,
                    defaults_view(d@),
                    none@,
                    len as nat,
                ),
            tail_kept(prog@, v0, i as int),
        decreases len - i,
    {
        walk_item(&mut prog[i], &d, &none, len);
        i += 1;
    }
    assert(prog_view(prog@) =~= expanded(items));
    Ok(())
}

proof fn first_gap_prefix(items: Seq<ItemView>, k: int)
    requires
        0 <= k <= items.len(),
        first_gap(items.take(k)) is Some,
    ensures
        first_gap(items) == first_gap(items.take(k)),
    decreases items.len(),
{
    if k < items.len() {
        assert(items.drop_last().take(k) =~= items.take(k));
        first_gap_prefix(items.drop_last(), k);
    } else {
        assert(items.take(k) =~= items);
    }
}

/// A call that gives every argument is left as it is.
pub proof fn full_calls_stay(args: Seq<ExprView>, ds: Seq<Option<ExprView>>)
    requires
        args.len() >= ds.len(),
    ensures
        pad_with(args, ds) == args,
{
}

/// Padding keeps the arguments that the caller gives, and where the defaults have
/// no gap it completes a call that gives every argument without a default.
pub proof fn padding_completes(args: Seq<ExprView>, ds: Seq<Option<ExprView>>)
    requires
        args.len() <= ds.len(),
        !has_gap(ds),
        args.len() < ds.len() ==> ds[args.len() as int] is Some,
    ensures
        pad_with(args, ds).len() == ds.len(),
        pad_with(args, ds).take(args.len() as int) == args,
        forall|i: int|
            args.len() <= i < ds.len() ==> ds[i] == Some(#[trigger] pad_with(args, ds)[i]),
{
    let rest = ds.skip(args.len() as int);
    assert forall|i: int| 0 <= i < rest.len() implies (#[trigger] rest[i]) is Some by {
        if i > 0 && rest[i] is None {
            assert(ds[args.len() as int] is Some);
            assert(ds[args.len() + i] is None);
        }
    }
    leading_all(rest);
    let p = pad_with(args, ds);
    assert(p =~= args + leading(rest));
    assert(p.take(args.len() as int) =~= args);
    assert forall|i: int| args.len() <= i < ds.len() implies ds[i] == Some(#[trigger] p[i]) by {
        assert(rest[i - args.len()] == ds[i]);
        assert(p[i] == leading(rest)[i - args.len()]);
    }
}

proof fn leading_all(ds: Seq<Option<ExprView>>)
    requires
        forall|i: int| 0 <= i < ds.len() ==> (#[trigger] ds[i]) is Some,
    ensures
        leading(ds).len() == ds.len(),
        forall|i: int| 0 <= i < ds.len() ==> ds[i] == Some(#[trigger] leading(ds)[i]),
    decreases ds.len(),
{
    if ds.len() > 0 {
        let rest = ds.drop_first();
        assert forall|i: int| 0 <= i < rest.len() implies (#[trigger] rest[i]) is Some by {
            assert(rest[i] == ds[i + 1]);
        }
        leading_all(rest);
        assert forall|i: int| 0 <= i < ds.len() implies ds[i] == Some(#[trigger] leading(ds)[i]) by {
            if i > 0 {
                assert(rest[i - 1] == ds[i]);
                assert(leading(ds)[i] == leading(rest)[i - 1]);
            }
        }
    }
}

} // verus!
