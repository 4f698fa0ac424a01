//! Lowering of numeric functions to SSA form.

use crate::ast::{
    elifs_view, exprs_view, stmts_view, wrap48, wrap48_spec, BinOp, Expr, ExprView, FnDef,
    FnDefView, Param, ParamView, Stmt, StmtView, UnOp,
};
use crate::liveness::graph_ok;
use crate::lowstate::{parked_view, Dom, Low, Lowerer};
use crate::mir::{
    fault, named, type_is, BinKind, BlockView, Inst, InstView, MirFn, MirFnView, SigMap, UnKind,
    Val, Vreg,
};
use crate::names::NameMap;
use crate::phis::{lowering_links_phis, phis_follow_jumps};
use crate::ssa::{lowering_gives_graph, lowering_is_ssa, lowering_keeps_signature, single_def};
use crate::text::{dec_nat, push_u64};
use vstd::prelude::*;

verus! {

/// The value of an integer literal under any number of minus signs.
pub open spec fn const_int_spec(e: ExprView) -> Option<int>
    decreases e,
{
    match e {
        ExprView::Int(n) => Some(wrap48_spec(n as int)),
        ExprView::Unary { op: UnOp::Neg, expr } => match const_int_spec(*expr) {
            Some(n) => Some(wrap48_spec(-n)),
            None => None,
        },
        _ => None,
    }
}

pub open spec fn lookup_dom(doms: Map<Seq<char>, Dom>, n: Seq<char>) -> Dom {
    if doms.contains_key(n) {
        doms[n]
    } else {
        Dom::Int
    }
}

pub open spec fn returns_float(sigs: Map<Seq<char>, bool>, n: Seq<char>) -> bool {
    sigs.contains_key(n) && sigs[n]
}

pub open spec fn float_or_int(b: bool) -> Dom {
    if b {
        Dom::Float
    } else {
        Dom::Int
    }
}

/// Whether an expression gives an integer or a float.
pub open spec fn dom_of(doms: Map<Seq<char>, Dom>, sigs: Map<Seq<char>, bool>, e: ExprView) -> Dom
    decreases e,
{
    match e {
        ExprView::Float(_) => Dom::Float,
        ExprView::Ident(n) => lookup_dom(doms, n),
        ExprView::Unary { op: UnOp::Neg, expr } => dom_of(doms, sigs, *expr),
        ExprView::Binary { op, lhs, rhs } => match op {
            BinOp::Add | BinOp::Sub | BinOp::Mul | BinOp::Pow | BinOp::Div | BinOp::Mod =>
            float_or_int(dom_of(doms, sigs, *lhs) is Float || dom_of(doms, sigs, *rhs) is Float),
            _ => Dom::Int,
        },
        ExprView::Call { callee, .. } => match *callee {
            ExprView::Ident(n) => float_or_int(returns_float(sigs, n)),
            _ => Dom::Int,
        },
        ExprView::IfElse { then, els, .. } => float_or_int(
            dom_of(doms, sigs, *then) is Float || dom_of(doms, sigs, *els) is Float,
        ),
        _ => Dom::Int,
    }
}

/// The operation for `op` on integers or on floats, and whether its result wraps.
/// Only integer sums, differences and products wrap; a division by a constant other
/// than zero is kept apart from one by a variable.
pub open spec fn bin_kind_spec(op: BinOp, float: bool, rhs: ExprView) -> Option<(BinKind, bool)> {
    match op {
        BinOp::Add => Some(
            if float {
                (BinKind::FAdd, false)
            } else {
                (BinKind::IAdd, true)
            },
        ),
        BinOp::Sub => Some(
            if float {
                (BinKind::FSub, false)
            } else {
                (BinKind::ISub, true)
            },
        ),
        BinOp::Mul => Some(
            if float {
                (BinKind::FMul, false)
            } else {
                (BinKind::IMul, true)
            },
        ),
        BinOp::Div => if float {
            Some((BinKind::FDiv, false))
        } else {
            match const_int_spec(rhs) {
                Some(c) => if c != 0 {
                    Some((BinKind::DivConst(c as i64), false))
                } else {
                    Some((BinKind::IDiv, false))
                },
                None => Some((BinKind::IDiv, false)),
            }
        },
        BinOp::Mod => if float {
            None
        } else {
            match const_int_spec(rhs) {
                Some(c) => if c != 0 {
                    Some((BinKind::ModConst(c as i64), false))
                } else {
                    Some((BinKind::IMod, false))
                },
                None => Some((BinKind::IMod, false)),
            }
        },
        BinOp::Eq => Some(
            (if float {
                BinKind::FEq
            } else {
                BinKind::IEq
            }, false),
        ),
        BinOp::Ne => Some(
            (if float {
                BinKind::FNe
            } else {
                BinKind::INe
            }, false),
        ),
        BinOp::Lt => Some(
            (if float {
                BinKind::FLt
            } else {
                BinKind::ILt
            }, false),
        ),
        BinOp::Le => Some(
            (if float {
                BinKind::FLe
            } else {
                BinKind::ILe
            }, false),
        ),
        BinOp::Gt => Some(
            (if float {
                BinKind::FGt
            } else {
                BinKind::IGt
            }, false),
        ),
        BinOp::Ge => Some(
            (if float {
                BinKind::FGe
            } else {
                BinKind::IGe
            }, false),
        ),
        _ => None,
    }
}

pub open spec fn divides(k: BinKind) -> bool {
    k is IDiv || k is IMod || k is DivConst || k is ModConst
}

pub open spec fn is_condition(op: BinOp) -> bool {
    op == BinOp::Eq || op == BinOp::Ne || op == BinOp::Lt || op == BinOp::Le || op == BinOp::Gt
        || op == BinOp::Ge || op == BinOp::And || op == BinOp::Or
}

pub open spec fn failed(s: Low) -> (Low, Val) {
    (s.fail(), Val::IntConst(0))
}

/// Lowers an expression: the code for it stands at the end of the current block.
pub open spec fn lower_expr(s: Low, e: ExprView) -> (Low, Val)
    decreases e, 2nat,
{
    match e {
        ExprView::Int(n) => (s, Val::IntConst(wrap48_spec(n as int) as i64)),
        ExprView::Float(b) => (s, Val::FloatConst(b)),
        ExprView::Bool(b) => (
            s,
            Val::IntConst(
                if b {
                    1
                } else {
                    0
                },
            ),
        ),
        ExprView::Ident(n) => match s.cur {
            Some(b) => s.read(n, b),
            None => failed(s),
        },
        ExprView::Unary { op, expr } => {
            let (s1, a) = lower_expr(s, *expr);
            match op {
                UnOp::Neg => {
                    let (s2, dst) = s1.fresh();
                    let float = dom_of(s2.doms, s2.sigs, *expr) is Float;
                    let i = InstView::Un {
                        dst,
                        op: if float {
                            UnKind::FNeg
                        } else {
                            UnKind::INeg
                        },
                        a,
                        wrap: !float,
                    };
                    (s2.emit(i), Val::Vreg(dst))
                },
                UnOp::Not => s1.emit_bin(BinKind::IEq, a, Val::IntConst(0), false),
            }
        },
        ExprView::Binary { op, .. } => if op == BinOp::And || op == BinOp::Or {
            lower_shortcct(s, e)
        } else {
            lower_binary(s, e)
        },
        ExprView::Call { callee, args } => match *callee {
            ExprView::Ident(n) => {
                let (s1, vals) = lower_args(s, args);
                let is_float = returns_float(s1.sigs, n);
                let (s2, dst) = s1.fresh();
                (
                    s2.emit(InstView::Call { dst, callee: n, args: vals, is_float }),
                    Val::Vreg(dst),
                )
            },
            _ => failed(s),
        },
        ExprView::IfElse { cond, then, els } => {
            let dom = dom_of(s.doms, s.sigs, e);
            let (s1, then_b) = s.add_block();
            let (s2, else_b) = s1.add_block();
            let (s3, join_b) = s2.add_block();
            match s3.cur {
                Some(_) => {
                    let (s4, cv) = lower_cond(s3, *cond);
                    let s5 = branch(s4, cv, then_b, else_b).seal(then_b).seal(else_b);
                    let tmp = "__ifx"@ + dec_nat(s5.f.next_vreg as nat);
                    let s6 = Low { doms: s5.doms.insert(tmp, dom), ..s5 };
                    let (s7, tv) = lower_expr(s6.at(then_b), *then);
                    let s8 = finish_arm(s7, tmp, tv, join_b);
                    let (s9, ev) = lower_expr(s8.at(else_b), *els);
                    let s10 = finish_arm(s9, tmp, ev, join_b);
                    s10.seal(join_b).at(join_b).read(tmp, join_b)
                },
                None => failed(s3),
            }
        },
        _ => failed(s),
    }
}

/// Ends the current block with a branch.
pub open spec fn branch(s: Low, cond: Val, t: u32, f: u32) -> Low {
    match s.cur {
        Some(b) => s.edge(b, t).edge(b, f).terminate(InstView::Br { cond, t, f }),
        None => s.fail(),
    }
}

/// Gives a variable a value in the current block.
pub open spec fn write_here(s: Low, name: Seq<char>, v: Val) -> Low {
    match s.cur {
        Some(b) => s.write(name, b, v),
        None => s.fail(),
    }
}

/// Ends one way to the value `tmp` with a jump to where the ways meet.
pub open spec fn finish_arm(s: Low, tmp: Seq<char>, v: Val, join_b: u32) -> Low {
    match s.cur {
        Some(b) => s.write(tmp, b, v).edge(b, join_b).terminate(InstView::Jmp(join_b)),
        None => s.fail(),
    }
}

pub open spec fn lower_args(s: Low, args: Seq<ExprView>) -> (Low, Seq<Val>)
    decreases args, 0nat,
{
    if args.len() == 0 {
        (s, Seq::empty())
    } else {
        let (s1, vals) = lower_args(s, args.drop_last());
        let (s2, v) = lower_expr(s1, args.last());
        (s2, vals.push(v))
    }
}

pub open spec fn lower_binary(s: Low, e: ExprView) -> (Low, Val)
    decreases e, 1nat,
{
    match e {
        ExprView::Binary { op, lhs, rhs } => {
            let float = dom_of(s.doms, s.sigs, *lhs) is Float
                || dom_of(s.doms, s.sigs, *rhs) is Float;
            let (s1, a) = lower_expr(s, *lhs);
            let (s2, b) = lower_expr(s1, *rhs);
            match bin_kind_spec(op, float, *rhs) {
                Some((kind, wrap)) => {
                    let (s3, v) = s2.emit_bin(kind, a, b, wrap);
                    if divides(kind) {
                        (
                            Low {
                                f: MirFnView {
                                    div_lines: s3.f.div_lines.insert(v->Vreg_0, s3.line),
                                    ..s3.f
                                },
                                ..s3
                            },
                            v,
                        )
                    } else {
                        (s3, v)
                    }
                },
                None => failed(s2),
            }
        },
        _ => failed(s),
    }
}

/// `and` and `or`: the right operand is reached only where the left one does not
/// decide.
pub open spec fn lower_shortcct(s: Low, e: ExprView) -> (Low, Val)
    decreases e, 1nat,
{
    match e {
        ExprView::Binary { op, lhs, rhs } => {
            let (s1, rhs_b) = s.add_block();
            let (s2, join_b) = s1.add_block();
            match s2.cur {
                Some(_) => {
                    let (s3, lv) = lower_cond(s2, *lhs);
                    let tmp = "__scx"@ + dec_nat(s3.f.next_vreg as nat);
                    let s4 = Low { doms: s3.doms.insert(tmp, Dom::Int), ..s3 };
                    let decided: i64 = if op == BinOp::And {
                        0
                    } else {
                        1
                    };
                    let here = write_here(s4, tmp, Val::IntConst(decided));
                    let left = if op == BinOp::And {
                        branch(here, lv, rhs_b, join_b)
                    } else {
                        branch(here, lv, join_b, rhs_b)
                    };
                    let s5 = left.seal(rhs_b).at(rhs_b);
                    let (s6, rv) = lower_cond(s5, *rhs);
                    finish_arm(s6, tmp, rv, join_b).seal(join_b).at(join_b).read(tmp, join_b)
                },
                None => failed(s2),
            }
        },
        _ => failed(s),
    }
}

/// Lowers an expression to a truth value.
pub open spec fn lower_cond(s: Low, e: ExprView) -> (Low, Val)
    decreases e, 3nat,
{
    if e is Binary && is_condition(e->Binary_op) {
        lower_expr(s, e)
    } else {
        let float = dom_of(s.doms, s.sigs, e) is Float;
        let (s1, v) = lower_expr(s, e);
        if float {
            s1.emit_bin(BinKind::FNe, v, Val::FloatConst(0), false)
        } else {
            s1.emit_bin(BinKind::INe, v, Val::IntConst(0), false)
        }
    }
}

/// Lowers statements up to the first that leaves the block.
pub open spec fn lower_block(s: Low, body: Seq<StmtView>) -> Low
    decreases body, 0nat, 0nat,
{
    if body.len() == 0 {
        s
    } else {
        let s1 = lower_block(s, body.drop_last());
        if s1.cur is None {
            s1
        } else {
            lower_stmt(s1, body.last())
        }
    }
}

pub open spec fn lower_stmt(s: Low, st: StmtView) -> Low
    decreases st, 1nat, 0nat,
{
    match st {
        StmtView::SrcLine(n) => Low { line: n, ..s },
        StmtView::Break => if s.loops.len() > 0 {
            s.jump(s.loops.last().1)
        } else {
            s
        },
        StmtView::Continue => if s.loops.len() > 0 {
            s.jump(s.loops.last().0)
        } else {
            s
        },
        StmtView::Let { name, value, .. } => {
            let dom = dom_of(s.doms, s.sigs, value);
            let (s1, v) = lower_expr(s, value);
            let s2 = Low { doms: s1.doms.insert(name, dom), ..s1 };
            match s2.cur {
                Some(b) => s2.write(name, b, v),
                None => s2.fail(),
            }
        },
        StmtView::Assign { target, value } => match target {
            ExprView::Ident(name) => {
                let (s1, v) = lower_expr(s, value);
                match s1.cur {
                    Some(b) => s1.write(name, b, v),
                    None => s1.fail(),
                }
            },
            _ => s.fail(),
        },
        StmtView::ExprStmt(e) => lower_expr(s, e).0,
        StmtView::Return(o) => match o {
            Some(e) => {
                let (s1, v) = lower_expr(s, e);
                s1.terminate(InstView::Ret(Some(v)))
            },
            None => s.terminate(InstView::Ret(None)),
        },
        StmtView::If { .. } => lower_if(s, st, 0),
        StmtView::While { .. } => lower_while(s, st),
        StmtView::For { .. } => lower_range(s, st),
        StmtView::Try { .. } => s.fail(),
        StmtView::Raise(_) => s.fail(),
    }
}

/// Lowers the `k`-th test of an `if` statement with all that follows it.
pub open spec fn lower_if(s: Low, st: StmtView, k: nat) -> Low
    decreases
            st,
            0nat,
            (if st is If {
                st->If_elifs.len() - k
            } else {
                0
            }),
{
    match st {
        StmtView::If { cond, then, elifs, els } => if k <= elifs.len() {
            let (s1, then_b) = s.add_block();
            let (s2, else_b) = s1.add_block();
            let (s3, join_b) = s2.add_block();
            match s3.cur {
                Some(_) => {
                    let (s4, cv) = lower_cond(
                        s3,
                        if k == 0 {
                            cond
                        } else {
                            elifs[k - 1].0
                        },
                    );
                    let s5 = branch(s4, cv, then_b, else_b).seal(then_b).seal(else_b).at(then_b);
                    let s6 = lower_block(
                        s5,
                        if k == 0 {
                            then
                        } else {
                            elifs[k - 1].1
                        },
                    ).jump(join_b).at(else_b);
                    let s7 = if k < elifs.len() {
                        lower_if(s6, st, k + 1)
                    } else {
                        match els {
                            Some(b) => lower_block(s6, b),
                            None => s6,
                        }
                    };
                    s7.jump(join_b).seal(join_b).at(join_b)
                },
                None => s3.fail(),
            }
        } else {
            s.fail()
        },
        _ => s.fail(),
    }
}

/// Forgets the innermost loop.
pub open spec fn leave_loop(s: Low) -> Low {
    if s.loops.len() > 0 {
        Low { loops: s.loops.drop_last(), ..s }
    } else {
        s
    }
}

pub open spec fn lower_while(s: Low, st: StmtView) -> Low
    decreases st, 0nat, 0nat,
{
    match st {
        StmtView::While { cond, body } => {
            let (s1, header) = s.add_block();
            let (s2, body_b) = s1.add_block();
            let (s3, exit_b) = s2.add_block();
            match s3.cur {
                Some(_) => {
                    let (s4, cv) = lower_cond(s3.jump(header).at(header), cond);
                    let s5 = branch(s4, cv, body_b, exit_b).seal(body_b);
                    let s6 = Low { loops: s5.loops.push((header, exit_b)), ..s5 }.at(body_b);
                    let s7 = lower_block(s6, body).jump(header);
                    leave_loop(s7).seal(header).seal(exit_b).at(exit_b)
                },
                None => s3.fail(),
            }
        },
        _ => s.fail(),
    }
}

pub open spec fn lower_range(s: Low, st: StmtView) -> Low
    decreases st, 0nat, 0nat,
{
    match st {
        StmtView::For { var, iter, body } => match iter {
            ExprView::Range { lo, hi } => {
                let (s1, lo_v) = lower_expr(s, *lo);
                let (s2, hi_v) = lower_expr(s1, *hi);
                let limit = "__lim"@ + dec_nat(s2.f.next_vreg as nat);
                let s3 = Low {
                    doms: s2.doms.insert(var, Dom::Int).insert(limit, Dom::Int),
                    ..s2
                };
                let (s4, header) = s3.add_block();
                let (s5, body_b) = s4.add_block();
                let (s6, cont_b) = s5.add_block();
                let (s7, exit_b) = s6.add_block();
                match s7.cur {
                    Some(cur) => {
                        let s8 = s7.write(var, cur, lo_v).write(limit, cur, hi_v).jump(
                            header,
                        ).at(header);
                        let (s9, vv) = s8.read(var, header);
                        let (s10, lv) = s9.read(limit, header);
                        let (s11, cv) = s10.emit_bin(BinKind::ILt, vv, lv, false);
                        let s12 = branch(s11, cv, body_b, exit_b).seal(body_b);
                        let s13 = Low { loops: s12.loops.push((cont_b, exit_b)), ..s12 }.at(
                            body_b,
                        );
                        let s14 = lower_block(s13, body).jump(cont_b);
                        let s15 = leave_loop(s14).seal(cont_b).at(
                            cont_b,
                        );
                        let (s16, cvv) = s15.read(var, cont_b);
                        let (s17, nv) = s16.emit_bin(BinKind::IAdd, cvv, Val::IntConst(1), true);
                        s17.write(var, cont_b, nv).jump(header).seal(header).seal(exit_b).at(exit_b)
                    },
                    None => s7.fail(),
                }
            },
            _ => s.fail(),
        },
        _ => s.fail(),
    }
}

pub open spec fn float_params(ps: Seq<ParamView>) -> Seq<bool> {
    Seq::new(ps.len(), |i: int| named(ps[i].ty, "f64"@))
}

/// The state with the entry block alone. It is stuck where there are too many parameters
/// to number.
pub open spec fn entry_state(f: FnDefView, sigs: Map<Seq<char>, bool>) -> Low {
    Low {
        f: MirFnView {
            name: f.name,
            n_params: (f.params.len() % 0x1_0000_0000) as u32,
            param_is_float: float_params(f.params),
            ret_is_float: named(f.ret, "f64"@),
            entry: 0,
            blocks: seq![BlockView { id: 0, insts: Seq::empty() }],
            next_vreg: 0,
            div_lines: Map::empty(),
        },
        sigs,
        defs: Map::empty(),
        doms: Map::empty(),
        preds: seq![Seq::empty()],
        sealed: seq![true],
        parked: seq![Seq::empty()],
        loops: Seq::empty(),
        cur: Some(0),
        line: 0,
        stuck: f.params.len() > u32::MAX,
    }
}

/// The state before the body: the entry block with the parameters in scope.
pub open spec fn lower_start(f: FnDefView, sigs: Map<Seq<char>, bool>) -> Low {
    bind_params(entry_state(f, sigs), f.params)
}

pub open spec fn bind_params(s: Low, ps: Seq<ParamView>) -> Low
    decreases ps.len(),
{
    if ps.len() == 0 {
        s
    } else {
        let s1 = bind_params(s, ps.drop_last());
        let p = ps.last();
        Low { doms: s1.doms.insert(p.name, float_or_int(named(p.ty, "f64"@))), ..s1 }.write(
            p.name,
            0,
            Val::Param(((ps.len() - 1) % 0x1_0000_0000) as u32),
        )
    }
}

/// The lowering of `f`. A path that runs off the end returns zero.
pub open spec fn lowered(f: FnDefView, sigs: Map<Seq<char>, bool>) -> Low {
    let s = lower_block(lower_start(f, sigs), f.body);
    match s.cur {
        Some(_) => s.terminate(
            InstView::Ret(
                Some(
                    if s.f.ret_is_float {
                        Val::FloatConst(0)
                    } else {
                        Val::IntConst(0)
                    },
                ),
            ),
        ),
        None => s,
    }
}

fn const_int(e: &Expr) -> (r: Option<i64>)
    ensures
        r is Some <==> const_int_spec(e@) is Some,
        r is Some ==> r->Some_0 == const_int_spec(e@)->Some_0,
        r is Some ==> -0x8000_0000_0000 <= r->Some_0 < 0x8000_0000_0000,
    decreases e,
{
    match e {
        Expr::Int(n) => Some(wrap48(*n)),
        Expr::Unary { op: UnOp::Neg, expr } => match const_int(expr) {
            Some(n) => Some(wrap48(-n)),
            None => None,
        },
        _ => None,
    }
}

fn bin_kind(op: BinOp, float: bool, rhs: &Expr) -> (r: Option<(BinKind, bool)>)
    ensures
        r == bin_kind_spec(op, float, rhs@),
{
    match op {
        BinOp::Add => Some(
            if float {
                (BinKind::FAdd, false)
            } else {
                (BinKind::IAdd, true)
            },
        ),
        BinOp::Sub => Some(
            if float {
                (BinKind::FSub, false)
            } else {
                (BinKind::ISub, true)
            },
        ),
        BinOp::Mul => Some(
            if float {
                (BinKind::FMul, false)
            } else {
                (BinKind::IMul, true)
            },
        ),
        BinOp::Div => {
            if float {
                Some((BinKind::FDiv, false))
            } else {
                match const_int(rhs) {
                    Some(c) => if c != 0 {
                        Some((BinKind::DivConst(c), false))
                    } else {
                        Some((BinKind::IDiv, false))
                    },
                    None => Some((BinKind::IDiv, false)),
                }
            }
        },
        BinOp::Mod => {
            if float {
                None
            } else {
                match const_int(rhs) {
                    Some(c) => if c != 0 {
                        Some((BinKind::ModConst(c), false))
                    } else {
                        Some((BinKind::IMod, false))
                    },
                    None => Some((BinKind::IMod, false)),
                }
            }
        },
        BinOp::Eq => Some(
            (if float {
                BinKind::FEq
            } else {
                BinKind::IEq
            }, false),
        ),
        BinOp::Ne => Some(
            (if float {
                BinKind::FNe
            } else {
                BinKind::INe
            }, false),
        ),
        BinOp::Lt => Some(
            (if float {
                BinKind::FLt
            } else {
                BinKind::ILt
            }, false),
        ),
        BinOp::Le => Some(
            (if float {
                BinKind::FLe
            } else {
                BinKind::ILe
            }, false),
        ),
        BinOp::Gt => Some(
            (if float {
                BinKind::FGt
            } else {
                BinKind::IGt
            }, false),
        ),
        BinOp::Ge => Some(
            (if float {
                BinKind::FGe
            } else {
                BinKind::IGe
            }, false),
        ),
        _ => None,
    }
}

fn numbered(prefix: &str, n: u32) -> (r: String)
    ensures
        r@ == prefix@ + dec_nat(n as nat),
{
    let mut s = prefix.to_owned();
    push_u64(&mut s, n as u64);
    s
}

impl<'a> Lowerer<'a> {
    fn returns_float(&self, n: &str) -> (r: bool)
        ensures
            r == returns_float(self@.sigs, n@),
    {
        match self.sigs.ret_is_float.get(n) {
            Some(b) => *b,
            None => false,
        }
    }

    fn dom(&self, e: &Expr) -> (r: Dom)
        ensures
            r == dom_of(self@.doms, self@.sigs, e@),
        decreases e,
    {
        match e {
            Expr::Float(_) => Dom::Float,
            Expr::Ident(n) => match self.doms.get(n.as_str()) {
                Some(d) => *d,
                None => Dom::Int,
            },
            Expr::Unary { op, expr } => match op {
                UnOp::Neg => self.dom(expr),
                UnOp::Not => Dom::Int,
            },
            Expr::Binary { op, lhs, rhs } => match op {
                BinOp::Add | BinOp::Sub | BinOp::Mul | BinOp::Pow | BinOp::Div | BinOp::Mod => {
                    if self.dom(lhs) == Dom::Float || self.dom(rhs) == Dom::Float {
                        Dom::Float
                    } else {
                        Dom::Int
                    }
                },
                _ => Dom::Int,
            },
            Expr::Call { callee, .. } => {
                assert(callee@ == crate::ast::expr_view(**callee));
                match &**callee {
                    Expr::Ident(n) => {
                        if self.returns_float(n.as_str()) {
                            Dom::Float
                        } else {
                            Dom::Int
                        }
                    },
                    _ => Dom::Int,
                }
            },
            Expr::IfElse { then, els, .. } => {
                if self.dom(then) == Dom::Float || self.dom(els) == Dom::Float {
                    Dom::Float
                } else {
                    Dom::Int
                }
            },
            _ => Dom::Int,
        }
    }

    fn branch(&mut self, cond: Val, t: u32, f: u32)
        ensures
            final(self)@ == branch(old(self)@, cond, t, f),
    {
        match self.cur {
            Some(b) => {
                self.edge(b, t);
                self.edge(b, f);
                self.terminate(Inst::Br { cond, t, f });
            },
            None => self.fail(),
        }
    }

    fn write_here(&mut self, name: &str, v: Val)
        ensures
            final(self)@ == write_here(old(self)@, name@, v),
    {
        match self.cur {
            Some(b) => self.write(name, b, v),
            None => self.fail(),
        }
    }

    fn finish_arm(&mut self, tmp: &str, v: Val, join_b: u32)
        ensures
            final(self)@ == finish_arm(old(self)@, tmp@, v, join_b),
    {
        match self.cur {
            Some(b) => {
                self.write(tmp, b, v);
                self.edge(b, join_b);
                self.terminate(Inst::Jmp(join_b));
            },
            None => {
                self.fail();
            },
        }
    }

    fn lower_expr(&mut self, e: &Expr) -> (r: Val)
        ensures
            (final(self)@, r) == lower_expr(old(self)@, e@),
        decreases e, 2nat,
    {
        match e {
            Expr::Int(n) => Val::IntConst(wrap48(*n)),
            Expr::Float(b) => Val::FloatConst(*b),
            Expr::Bool(b) => Val::IntConst(
                if *b {
                    1
                } else {
                    0
                },
            ),
            Expr::Ident(n) => match self.cur {
                Some(b) => self.read(n.as_str(), b),
                None => {
                    self.fail();
                    Val::IntConst(0)
                },
            },
            Expr::Unary { op, expr } => {
                let a = self.lower_expr(expr);
                match op {
                    UnOp::Neg => {
                        let dst: u32 = self.fresh();
                        let float = self.dom(expr) == Dom::Float;
                        let k = if float {
                            UnKind::FNeg
                        } else {
                            UnKind::INeg
                        };
                        self.emit(Inst::Un { dst, op: k, a, wrap: !float });
                        Val::Vreg(dst)
                    },
                    UnOp::Not => self.emit_bin(BinKind::IEq, a, Val::IntConst(0), false),
                }
            },
            Expr::Binary { op, .. } => {
                if *op == BinOp::And || *op == BinOp::Or {
                    self.lower_shortcct(e)
                } else {
                    self.lower_binary(e)
                }
            },
            Expr::Call { callee, args } => {
                assert(callee@ == crate::ast::expr_view(**callee));
                match &**callee {
                    Expr::Ident(n) => {
                        let vals = self.lower_args(args);
                        let is_float = self.returns_float(n.as_str());
                        let dst: u32 = self.fresh();
                        self.emit(Inst::Call { dst, callee: n.clone(), args: vals, is_float });
                        Val::Vreg(dst)
                    },
                    _ => {
                        self.fail();
                        Val::IntConst(0)
                    },
                }
            },
            Expr::IfElse { cond, then, els } => {
                let dom = self.dom(e);
                let then_b: u32 = self.add_block();
                let else_b: u32 = self.add_block();
                let join_b: u32 = self.add_block();
                match self.cur {
                    Some(_) => {
                        let cv = self.lower_cond(cond);
                        self.branch(cv, then_b, else_b);
                        self.seal(then_b);
                        self.seal(else_b);
                        let tmp = numbered("__ifx", self.f.next_vreg);
                        self.doms.insert(tmp.as_str(), dom);
                        self.cur = Some(then_b);
                        let tv = self.lower_expr(then);
                        self.finish_arm(tmp.as_str(), tv, join_b);
                        self.cur = Some(else_b);
                        let ev = self.lower_expr(els);
                        self.finish_arm(tmp.as_str(), ev, join_b);
                        self.seal(join_b);
                        self.cur = Some(join_b);
                        self.read(tmp.as_str(), join_b)
                    },
                    None => {
                        self.fail();
                        Val::IntConst(0)
                    },
                }
            },
            _ => {
                self.fail();
                Val::IntConst(0)
            },
        }
    }

    fn lower_args(&mut self, args: &Vec<Expr>) -> (r: Vec<Val>)
        ensures
            (final(self)@, r@) == lower_args(old(self)@, exprs_view(args@)),
        decreases args, 0nat,
    {
        let mut vals: Vec<Val> = Vec::new();
        let ghost s0 = self@;
        let ghost av = exprs_view(args@);
        assert(av.take(0) =~= Seq::empty());
        for i in 0..args.len()
            invariant
                av == exprs_view(args@),
                (self@, vals@) == lower_args(s0, av.take(i as int)),
        {
            assert(av.take(i + 1).drop_last() =~= av.take(i as int));
            assert(av.take(i + 1).last() == args@[i as int]@);
            let v = self.lower_expr(&args[i]);
            vals.push(v);
        }
        assert(av.take(av.len() as int) =~= av);
        vals
    }

    fn lower_binary(&mut self, e: &Expr) -> (r: Val)
        ensures
            (final(self)@, r) == lower_binary(old(self)@, e@),
        decreases e, 1nat,
    {
        match e {
            Expr::Binary { op, lhs, rhs } => {
                let float = self.dom(lhs) == Dom::Float || self.dom(rhs) == Dom::Float;
                let a = self.lower_expr(lhs);
                let b = self.lower_expr(rhs);
                match bin_kind(*op, float, rhs) {
                    Some((kind, wrap)) => {
                        let v = self.emit_bin(kind, a, b, wrap);
                        let div = match kind {
                            BinKind::IDiv => true,
                            BinKind::IMod => true,
                            BinKind::DivConst(_) => true,
                            BinKind::ModConst(_) => true,
                            _ => false,
                        };
                        if div {
                            if let Val::Vreg(dst) = v {
                                let line: u32 = self.line;
                                self.f.div_lines.insert(dst, line);
                            }
                        }
                        v
                    },
                    None => {
                        self.fail();
                        Val::IntConst(0)
                    },
                }
            },
            _ => {
                self.fail();
                Val::IntConst(0)
            },
        }
    }

    fn lower_shortcct(&mut self, e: &Expr) -> (r: Val)
        ensures
            (final(self)@, r) == lower_shortcct(old(self)@, e@),
        decreases e, 1nat,
    {
        match e {
            Expr::Binary { op, lhs, rhs } => {
                let rhs_b: u32 = self.add_block();
                let join_b: u32 = self.add_block();
                match self.cur {
                    Some(_) => {
                        let lv = self.lower_cond(lhs);
                        let tmp = numbered("__scx", self.f.next_vreg);
                        self.doms.insert(tmp.as_str(), Dom::Int);
                        let decided: i64 = if *op == BinOp::And {
                            0
                        } else {
                            1
                        };
                        self.write_here(tmp.as_str(), Val::IntConst(decided));
                        if *op == BinOp::And {
                            self.branch(lv, rhs_b, join_b);
                        } else {
                            self.branch(lv, join_b, rhs_b);
                        }
                        self.seal(rhs_b);
                        self.cur = Some(rhs_b);
                        let rv = self.lower_cond(rhs);
                        self.finish_arm(tmp.as_str(), rv, join_b);
                        self.seal(join_b);
                        self.cur = Some(join_b);
                        self.read(tmp.as_str(), join_b)
                    },
                    None => {
                        self.fail();
                        Val::IntConst(0)
                    },
                }
            },
            _ => {
                self.fail();
                Val::IntConst(0)
            },
        }
    }

    fn lower_cond(&mut self, e: &Expr) -> (r: Val)
        ensures
            (final(self)@, r) == lower_cond(old(self)@, e@),
        decreases e, 3nat,
    {
        let plain = match e {
            Expr::Binary { op, .. } => match op {
                BinOp::Eq | BinOp::Ne | BinOp::Lt | BinOp::Le | BinOp::Gt | BinOp::Ge | BinOp::And
                | BinOp::Or => true,
                _ => false,
            },
            _ => false,
        };
        if plain {
            self.lower_expr(e)
        } else {
            let float = self.dom(e) == Dom::Float;
            let v = self.lower_expr(e);
            if float {
                self.emit_bin(BinKind::FNe, v, Val::FloatConst(0), false)
            } else {
                self.emit_bin(BinKind::INe, v, Val::IntConst(0), false)
            }
        }
    }

    fn lower_block(&mut self, body: &Vec<Stmt>)
        ensures
            final(self)@ == lower_block(old(self)@, stmts_view(body@)),
        decreases body, 0nat, 0nat,
    {
        let ghost s0 = self@;
        let ghost bv = stmts_view(body@);
        assert(bv.take(0) =~= Seq::empty());
        for i in 0..body.len()
            invariant
                bv == stmts_view(body@),
                self@ == lower_block(s0, bv.take(i as int)),
        {
            assert(bv.take(i + 1).drop_last() =~= bv.take(i as int));
            assert(bv.take(i + 1).last() == body@[i as int]@);
            if self.cur.is_some() {
                self.lower_stmt(&body[i]);
            }
        }
        assert(bv.take(bv.len() as int) =~= bv);
    }

    fn lower_stmt(&mut self, st: &Stmt)
        ensures
            final(self)@ == lower_stmt(old(self)@, st@),
        decreases st, 1nat, 0nat,
    {
        match st {
            Stmt::SrcLine(n) => {
                self.line = *n;
            },
            Stmt::Break => {
                if self.loops.len() > 0 {
                    let b: u32 = self.loops[self.loops.len() - 1].1;
                    self.jump(b);
                }
            },
            Stmt::Continue => {
                if self.loops.len() > 0 {
                    let b: u32 = self.loops[self.loops.len() - 1].0;
                    self.jump(b);
                }
            },
            Stmt::Let { name, value, .. } => {
                let dom = self.dom(value);
                let v = self.lower_expr(value);
                self.doms.insert(name.as_str(), dom);
                match self.cur {
                    Some(b) => self.write(name.as_str(), b, v),
                    None => self.fail(),
                }
            },
            Stmt::Assign { target, value } => match target {
                Expr::Ident(name) => {
                    let v = self.lower_expr(value);
                    match self.cur {
                        Some(b) => self.write(name.as_str(), b, v),
                        None => self.fail(),
                    }
                },
                _ => self.fail(),
            },
            Stmt::ExprStmt(e) => {
                let _ = self.lower_expr(e);
            },
            Stmt::Return(o) => match o {
                Some(e) => {
                    let v = self.lower_expr(e);
                    self.terminate(Inst::Ret(Some(v)));
                },
                None => self.terminate(Inst::Ret(None)),
            },
            Stmt::If { .. } => self.lower_if(st, 0),
            Stmt::While { .. } => self.lower_while(st),
            Stmt::For { .. } => self.lower_range(st),
            Stmt::Try { .. } => self.fail(),
            Stmt::Raise(_) => self.fail(),
        }
    }

    fn lower_if(&mut self, st: &Stmt, k: usize)
        ensures
            final(self)@ == lower_if(old(self)@, st@, k as nat),
        decreases
            st,
            0nat,
            (if st is If {
                st->If_elifs@.len() - k
            } else {
                0
            }),
    {
        match st {
            Stmt::If { cond, then, elifs, els } => {
                if k > elifs.len() {
                    self.fail();
                    return ;
                }
                let then_b: u32 = self.add_block();
                let else_b: u32 = self.add_block();
                let join_b: u32 = self.add_block();
                match self.cur {
                    Some(_) => {
                        assert(k > 0 ==> elifs_view(elifs@)[k - 1] == (
                            elifs@[k - 1].0@,
                            stmts_view(elifs@[k - 1].1@)
                        ));
                        let cv = if k == 0 {
                            self.lower_cond(cond)
                        } else {
                            self.lower_cond(&elifs[k - 1].0)
                        };
                        self.branch(cv, then_b, else_b);
                        self.seal(then_b);
                        self.seal(else_b);
                        self.cur = Some(then_b);
                        if k == 0 {
                            self.lower_block(then);
                        } else {
                            self.lower_block(&elifs[k - 1].1);
                        }
                        self.jump(join_b);
                        self.cur = Some(else_b);
                        if k < elifs.len() {
                            self.lower_if(st, k + 1);
                        } else {
                            if let Some(b) = els {
                                self.lower_block(b);
                            }
                        }
                        self.jump(join_b);
                        self.seal(join_b);
                        self.cur = Some(join_b);
                    },
                    None => self.fail(),
                }
            },
            _ => self.fail(),
        }
    }

    fn leave_loop(&mut self)
        ensures
            final(self)@ == leave_loop(old(self)@),
    {
        let ghost l0 = self.loops@;
        let _ = self.loops.pop();
        assert(l0.len() > 0 ==> self.loops@ =~= l0.drop_last());
    }

    fn lower_while(&mut self, st: &Stmt)
        ensures
            final(self)@ == lower_while(old(self)@, st@),
        decreases st, 0nat, 0nat,
    {
        match st {
            Stmt::While { cond, body } => {
                let header: u32 = self.add_block();
                let body_b: u32 = self.add_block();
                let exit_b: u32 = self.add_block();
                if self.cur.is_none() {
                    self.fail();
                    return ;
                }
                self.jump(header);
                self.cur = Some(header);
                let cv = self.lower_cond(cond);
                self.branch(cv, body_b, exit_b);
                self.seal(body_b);
                self.loops.push((header, exit_b));
                self.cur = Some(body_b);
                self.lower_block(body);
                self.jump(header);
                self.leave_loop();
                self.seal(header);
                self.seal(exit_b);
                self.cur = Some(exit_b);
            },
            _ => self.fail(),
        }
    }

    fn lower_range(&mut self, st: &Stmt)
        ensures
            final(self)@ == lower_range(old(self)@, st@),
        decreases st, 0nat, 0nat,
    {
        match st {
            Stmt::For { var, iter, body } => match iter {
                Expr::Range { lo, hi } => {
                    let lo_v = self.lower_expr(lo);
                    let hi_v = self.lower_expr(hi);
                    let limit = numbered("__lim", self.f.next_vreg);
                    self.doms.insert(var.as_str(), Dom::Int);
                    self.doms.insert(limit.as_str(), Dom::Int);
                    let header: u32 = self.add_block();
                    let body_b: u32 = self.add_block();
                    let cont_b: u32 = self.add_block();
                    let exit_b: u32 = self.add_block();
                    match self.cur {
                        Some(cur) => {
                            self.write(var.as_str(), cur, lo_v);
                            self.write(limit.as_str(), cur, hi_v);
                            self.jump(header);
                            self.cur = Some(header);
                            let vv = self.read(var.as_str(), header);
                            let lv = self.read(limit.as_str(), header);
                            let cv = self.emit_bin(BinKind::ILt, vv, lv, false);
                            self.branch(cv, body_b, exit_b);
                            self.seal(body_b);
                            self.loops.push((cont_b, exit_b));
                            self.cur = Some(body_b);
                            self.lower_block(body);
                            self.jump(cont_b);
                            self.leave_loop();
                            self.seal(cont_b);
                            self.cur = Some(cont_b);
                            let cvv = self.read(var.as_str(), cont_b);
                            let nv = self.emit_bin(BinKind::IAdd, cvv, Val::IntConst(1), true);
                            self.write(var.as_str(), cont_b, nv);
                            self.jump(header);
                            self.seal(header);
                            self.seal(exit_b);
                            self.cur = Some(exit_b);
                        },
                        None => self.fail(),
                    }
                },
                _ => self.fail(),
            },
            _ => self.fail(),
        }
    }
}

fn start<'a>(f: &FnDef, sigs: &'a SigMap) -> (r: Lowerer<'a>)
    ensures
        r@ == lower_start(f@, sigs.ret_is_float@),
{
    let mut floats: Vec<bool> = Vec::new();
    for i in 0..f.params.len()
        invariant
            floats@.len() == i,
            forall|k: int| 0 <= k < i ==> #[trigger] floats@[k] == named(f@.params[k].ty, "f64"@),
    {
        assert(f@.params[i as int].ty == f.params@[i as int].ty@);
        floats.push(type_is(&f.params[i].ty, "f64"));
    }
    assert(floats@ =~= float_params(f@.params));
    let ret_is_float = type_is(&f.ret, "f64");
    let mut m = MirFn::new(f.name.as_str(), floats, ret_is_float);
    let entry: u32 = m.new_block();
    assert(m@.blocks =~= seq![BlockView { id: 0, insts: Seq::empty() }]);
    let mut lw = Lowerer {
        f: m,
        sigs,
        defs: Vec::new(),
        doms: NameMap::new(),
        preds: vec![Vec::new()],
        sealed: vec![true],
        parked: vec![Vec::new()],
        loops: Vec::new(),
        cur: Some(entry),
        line: 0,
        stuck: f.params.len() as u64 > u32::MAX as u64,
    };
    let ghost s0 = lw@;
    let ghost pv = f@.params;
    assert(s0.preds =~= seq![Seq::empty()]);
    assert(s0.sealed =~= seq![true]);
    assert(parked_view(Seq::empty()) =~= Seq::empty());
    assert(s0.parked =~= seq![Seq::empty()]);
    assert(s0.loops =~= Seq::empty());
    assert(pv.take(0) =~= Seq::empty());
    for i in 0..f.params.len()
        invariant
            pv == f@.params,
            lw@ == bind_params(s0, pv.take(i as int)),
    {
        assert(pv.take(i + 1).drop_last() =~= pv.take(i as int));
        let p: &Param = &f.params[i];
        assert(pv.take(i + 1).last() == p@);
        let dom = if type_is(&p.ty, "f64") {
            Dom::Float
        } else {
            Dom::Int
        };
        lw.doms.insert(p.name.as_str(), dom);
        lw.write(p.name.as_str(), 0, Val::Param((i as u64 % 0x1_0000_0000) as u32));
    }
    assert(pv.take(pv.len() as int) =~= pv);
    lw
}

/// Lowers `f` to SSA form. A shape that has no lowering is an error, and so is a
/// result without the structural invariants of SSA form.
pub fn lower_fn(f: &FnDef, sigs: &SigMap) -> (r: Result<MirFn, String>)
    ensures
        ({
            let s = lowered(f@, sigs.ret_is_float@);
            &&& r is Ok <==> !s.stuck && fault(s.f) is None
            &&& r is Ok ==> r->Ok_0@ == s.f
            &&& r is Ok ==> single_def(s.f) && graph_ok(s.f) && phis_follow_jumps(s.f)
            &&& r is Ok ==> s.f.n_params == f@.params.len()
            &&& r is Err && s.stuck ==> r->Err_0@ == "function has no lowering"@
            &&& r is Err && !s.stuck ==> fault(s.f) == Some(r->Err_0@)
        }),
{
    let mut lw = start(f, sigs);
    lw.lower_block(&f.body);
    if lw.cur.is_some() {
        let v = if lw.f.ret_is_float {
            Val::FloatConst(0)
        } else {
            Val::IntConst(0)
        };
        lw.terminate(Inst::Ret(Some(v)));
    }
    if lw.stuck {
        return Err("function has no lowering".to_owned());
    }
    proof {
        lowering_is_ssa(f@, sigs.ret_is_float@);
        lowering_keeps_signature(f@, sigs.ret_is_float@);
        lowering_gives_graph(f@, sigs.ret_is_float@);
        lowering_links_phis(f@, sigs.ret_is_float@);
    }
    match lw.f.validate() {
        Ok(()) => Ok(lw.f),
        Err(m) => Err(m),
    }
}

} // verus!
