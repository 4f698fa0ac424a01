//! What programs do, told of whole expressions and statements: how the result of each
//! comes from the results of its parts. The machine goes step by step; these laws hold
//! of its runs.

use crate::algebra::worth;
use crate::ast::{wrap48_spec, BinOp, ExprView, FnDefView, StmtView, UnOp};
use crate::calls::builtin_call;
use crate::desugar::{comp_var, lower_method, next_number};
use crate::interp::{comp_next, finish, for_next, step_spec};
use crate::machops::{func_value, index_out, items_of, range_items, unary_out};
use crate::machstate::{
    frame_env, CtrlView, FlowView, FrameView, KindView, Mach, SrcView, UseView,
};
use crate::operate::{task_out, OutView};
use crate::value::{truth, ObjView, ValueView};
use vstd::prelude::*;

verus! {

/// The machine after some steps.
pub open spec fn ran(m: Mach, n: nat) -> Mach
    decreases n,
{
    if n == 0 {
        m
    } else {
        ran(step_spec(m), (n - 1) as nat)
    }
}

/// Whether a machine comes to another state.
#[verifier::opaque]
pub open spec fn leads(a: Mach, b: Mach) -> bool {
    exists|n: nat| ran(a, n) == b
}

pub(crate) proof fn leads_here(a: Mach)
    ensures
        leads(a, a),
{
    reveal(leads);
    assert(ran(a, 0) == a);
}

/// A step before a run.
pub(crate) proof fn step_leads(a: Mach, b: Mach)
    requires
        leads(step_spec(a), b),
    ensures
        leads(a, b),
{
    reveal(leads);
    let n = choose|n: nat| ran(step_spec(a), n) == b;
    assert(ran(a, n + 1) == b);
}

proof fn ran_on(a: Mach, n: nat, k: nat)
    ensures
        ran(ran(a, n), k) == ran(a, n + k),
    decreases n,
{
    if n > 0 {
        ran_on(step_spec(a), (n - 1) as nat, k);
    }
}

/// One run after another.
pub(crate) proof fn leads_on(a: Mach, b: Mach, c: Mach)
    requires
        leads(a, b),
        leads(b, c),
    ensures
        leads(a, c),
{
    reveal(leads);
    let n = choose|n: nat| ran(a, n) == b;
    let k = choose|k: nat| ran(b, k) == c;
    ran_on(a, n, k);
}

/// A machine with a stack of frames and something to do.
pub open spec fn at(m: Mach, fs: Seq<FrameView>, c: CtrlView) -> Mach {
    Mach { frames: fs, ctrl: c, ask: None, ..m }
}

pub open spec fn gives_at(
    m: Mach,
    e: ExprView,
    v: ValueView,
    n: Mach,
    fs: Seq<FrameView>,
) -> bool {
    leads(at(m, fs, CtrlView::Eval { e }), at(n, fs, CtrlView::Value { v }))
}

/// In the machine `m` the expression has the value `v`, and leaves the machine `n`,
/// whatever waits for the value.
pub open spec fn gives(m: Mach, e: ExprView, v: ValueView, n: Mach) -> bool {
    forall|fs: Seq<FrameView>| #[trigger] gives_at(m, e, v, n, fs)
}

pub open spec fn fails_at(
    m: Mach,
    e: ExprView,
    t: Seq<char>,
    n: Mach,
    fs: Seq<FrameView>,
) -> bool {
    leads(at(m, fs, CtrlView::Eval { e }), at(n, fs, CtrlView::Error { m: t }))
}

/// The expression fails with a message.
pub open spec fn fails(m: Mach, e: ExprView, t: Seq<char>, n: Mach) -> bool {
    forall|fs: Seq<FrameView>| #[trigger] fails_at(m, e, t, n, fs)
}

pub open spec fn does_at(
    m: Mach,
    s: StmtView,
    f: FlowView,
    n: Mach,
    fs: Seq<FrameView>,
) -> bool {
    leads(at(m, fs, CtrlView::Exec { s }), at(n, fs, CtrlView::Flow { f }))
}

/// The statement ends, going on as `f` says, and leaves the machine `n`.
pub open spec fn does(m: Mach, s: StmtView, f: FlowView, n: Mach) -> bool {
    forall|fs: Seq<FrameView>| #[trigger] does_at(m, s, f, n, fs)
}

pub open spec fn runs_at(
    m: Mach,
    b: Seq<StmtView>,
    i: usize,
    f: FlowView,
    n: Mach,
    fs: Seq<FrameView>,
) -> bool {
    leads(at(m, fs, CtrlView::Run { stmts: b, i }), at(n, fs, CtrlView::Flow { f }))
}

/// A block, from its `i`-th statement on, ends so.
pub open spec fn runs(m: Mach, b: Seq<StmtView>, i: usize, f: FlowView, n: Mach) -> bool {
    forall|fs: Seq<FrameView>| #[trigger] runs_at(m, b, i, f, n, fs)
}

pub open spec fn breaks_at(
    m: Mach,
    b: Seq<StmtView>,
    i: usize,
    t: Seq<char>,
    n: Mach,
    fs: Seq<FrameView>,
) -> bool {
    leads(at(m, fs, CtrlView::Run { stmts: b, i }), at(n, fs, CtrlView::Error { m: t }))
}

/// A block, from its `i`-th statement on, fails with a message.
pub open spec fn breaks(m: Mach, b: Seq<StmtView>, i: usize, t: Seq<char>, n: Mach) -> bool {
    forall|fs: Seq<FrameView>| #[trigger] breaks_at(m, b, i, t, n, fs)
}

/// The machine with a variable set.
pub open spec fn with_var(m: Mach, n: Seq<char>, v: ValueView) -> Mach {
    Mach { env: m.env.insert(n, v), ..m }
}

pub open spec fn normal() -> FlowView {
    FlowView::Normal
}

/// A part of a whole: from `a` the machine takes up `e`, with a frame that waits for it,
/// and with its value the frame leads on.
pub(crate) proof fn part(
    a: Mach,
    m: Mach,
    fs: Seq<FrameView>,
    fr: FrameView,
    e: ExprView,
    v: ValueView,
    n: Mach,
    z: Mach,
)
    requires
        step_spec(a) == at(m, fs.push(fr), CtrlView::Eval { e }),
        gives(m, e, v, n),
        leads(step_spec(at(n, fs.push(fr), CtrlView::Value { v })), z),
    ensures
        leads(a, z),
{
    assert(gives_at(m, e, v, n, fs.push(fr)));
    let b = at(n, fs.push(fr), CtrlView::Value { v });
    step_leads(b, z);
    leads_on(step_spec(a), b, z);
    step_leads(a, z);
}

/// A step at the end of a run.
pub(crate) proof fn last_step(a: Mach, b: Mach)
    requires
        step_spec(a) == b,
    ensures
        leads(a, b),
{
    leads_here(b);
    step_leads(a, b);
}

/// A literal has the value that it shows, and changes nothing.
pub proof fn literals(m: Mach, n: i64, f: u64, s: Seq<char>, b: bool)
    ensures
        gives(m, ExprView::Int(n), ValueView::Int(wrap48_spec(n as int) as i64), m),
        gives(m, ExprView::Float(f), ValueView::Float(f), m),
        gives(m, ExprView::Str(s), ValueView::Str(s), m),
        gives(m, ExprView::Bool(b), ValueView::Bool(b), m),
        gives(m, ExprView::Nil, ValueView::Nil, m),
{
    reveal(Mach::idle);
    reveal(Mach::pop_frame);
    reveal(Mach::push);
    reveal(Mach::eval);
    reveal(Mach::exec);
    reveal(Mach::run_from);
    reveal(Mach::give);
    reveal(Mach::flow);
    reveal(Mach::fail);
    reveal(Mach::task);
    reveal(Mach::set_env);
    reveal(Mach::collect);
    assert forall|fs: Seq<FrameView>| #[trigger] gives_at(
        m,
        ExprView::Int(n),
        ValueView::Int(wrap48_spec(n as int) as i64),
        m,
        fs,
    ) by {
        let a = at(m, fs, CtrlView::Eval { e: ExprView::Int(n) });
        let z = at(m, fs, CtrlView::Value { v: ValueView::Int(wrap48_spec(n as int) as i64) });
        last_step(a, z);
    }
    reveal(Mach::idle);
    reveal(Mach::pop_frame);
    reveal(Mach::push);
    reveal(Mach::eval);
    reveal(Mach::exec);
    reveal(Mach::run_from);
    reveal(Mach::give);
    reveal(Mach::flow);
    reveal(Mach::fail);
    reveal(Mach::task);
    reveal(Mach::set_env);
    reveal(Mach::collect);
    assert forall|fs: Seq<FrameView>| #[trigger] gives_at(
        m,
        ExprView::Float(f),
        ValueView::Float(f),
        m,
        fs,
    ) by {
        let a = at(m, fs, CtrlView::Eval { e: ExprView::Float(f) });
        let z = at(m, fs, CtrlView::Value { v: ValueView::Float(f) });
        last_step(a, z);
    }
    reveal(Mach::idle);
    reveal(Mach::pop_frame);
    reveal(Mach::push);
    reveal(Mach::eval);
    reveal(Mach::exec);
    reveal(Mach::run_from);
    reveal(Mach::give);
    reveal(Mach::flow);
    reveal(Mach::fail);
    reveal(Mach::task);
    reveal(Mach::set_env);
    reveal(Mach::collect);
    assert forall|fs: Seq<FrameView>| #[trigger] gives_at(
        m,
        ExprView::Str(s),
        ValueView::Str(s),
        m,
        fs,
    ) by {
        let a = at(m, fs, CtrlView::Eval { e: ExprView::Str(s) });
        let z = at(m, fs, CtrlView::Value { v: ValueView::Str(s) });
        last_step(a, z);
    }
    reveal(Mach::idle);
    reveal(Mach::pop_frame);
    reveal(Mach::push);
    reveal(Mach::eval);
    reveal(Mach::exec);
    reveal(Mach::run_from);
    reveal(Mach::give);
    reveal(Mach::flow);
    reveal(Mach::fail);
    reveal(Mach::task);
    reveal(Mach::set_env);
    reveal(Mach::collect);
    assert forall|fs: Seq<FrameView>| #[trigger] gives_at(
        m,
        ExprView::Bool(b),
        ValueView::Bool(b),
        m,
        fs,
    ) by {
        let a = at(m, fs, CtrlView::Eval { e: ExprView::Bool(b) });
        let z = at(m, fs, CtrlView::Value { v: ValueView::Bool(b) });
        last_step(a, z);
    }
    reveal(Mach::idle);
    reveal(Mach::pop_frame);
    reveal(Mach::push);
    reveal(Mach::eval);
    reveal(Mach::exec);
    reveal(Mach::run_from);
    reveal(Mach::give);
    reveal(Mach::flow);
    reveal(Mach::fail);
    reveal(Mach::task);
    reveal(Mach::set_env);
    reveal(Mach::collect);
    assert forall|fs: Seq<FrameView>| #[trigger] gives_at(
        m,
        ExprView::Nil,
        ValueView::Nil,
        m,
        fs,
    ) by {
        let a = at(m, fs, CtrlView::Eval { e: ExprView::Nil });
        let z = at(m, fs, CtrlView::Value { v: ValueView::Nil });
        last_step(a, z);
    }
}

/// A variable has the value that it was given in this call, or else outside of all calls.
pub proof fn variable(m: Mach, n: Seq<char>)
    requires
        m.env.contains_key(n) || m.globals.contains_key(n),
    ensures
        gives(
            m,
            ExprView::Ident(n),
            if m.env.contains_key(n) { m.env[n] } else { m.globals[n] },
            m,
        ),
{
    let v = if m.env.contains_key(n) {
        m.env[n]
    } else {
        m.globals[n]
    };
    reveal(Mach::idle);
    reveal(Mach::pop_frame);
    reveal(Mach::push);
    reveal(Mach::eval);
    reveal(Mach::exec);
    reveal(Mach::run_from);
    reveal(Mach::give);
    reveal(Mach::flow);
    reveal(Mach::fail);
    reveal(Mach::task);
    reveal(Mach::set_env);
    reveal(Mach::collect);
    assert forall|fs: Seq<FrameView>| #[trigger] gives_at(m, ExprView::Ident(n), v, m, fs) by {
        let a = at(m, fs, CtrlView::Eval { e: ExprView::Ident(n) });
        let z = at(m, fs, CtrlView::Value { v: v });
        last_step(a, z);
    }
}

/// A variable that was never set, and names no function, is an error.
pub proof fn unknown_variable(m: Mach, n: Seq<char>)
    requires
        !m.env.contains_key(n),
        !m.globals.contains_key(n),
        !m.funcs.contains_key(n),
    ensures
        fails(m, ExprView::Ident(n), "undefined variable: "@ + n, m),
{
    let t = "undefined variable: "@ + n;
    reveal(Mach::idle);
    reveal(Mach::pop_frame);
    reveal(Mach::push);
    reveal(Mach::eval);
    reveal(Mach::exec);
    reveal(Mach::run_from);
    reveal(Mach::give);
    reveal(Mach::flow);
    reveal(Mach::fail);
    reveal(Mach::task);
    reveal(Mach::set_env);
    reveal(Mach::collect);
    assert forall|fs: Seq<FrameView>| #[trigger] fails_at(m, ExprView::Ident(n), t, m, fs) by {
        let a = at(m, fs, CtrlView::Eval { e: ExprView::Ident(n) });
        let z = at(m, fs, CtrlView::Error { m: t });
        last_step(a, z);
    }
}

/// A conditional expression has the value of the branch that its condition picks, and only that branch is evaluated.
pub proof fn conditional_expression(
    m: Mach,
    cond: ExprView,
    then: ExprView,
    els: ExprView,
    c: ValueView,
    k: Mach,
    v: ValueView,
    n: Mach,
)
    requires
        gives(m, cond, c, k),
        truth(c) is Some,
        gives(k, if truth(c) == Some(true) { then } else { els }, v, n),
    ensures
        gives(
            m,
            ExprView::IfElse { cond: Box::new(cond), then: Box::new(then), els: Box::new(els) },
            v,
            n,
        ),
{
    let e = ExprView::IfElse { cond: Box::new(cond), then: Box::new(then), els: Box::new(els) };
    let fr = FrameView::Cond { then, els };
    let p = if truth(c) == Some(true) {
        then
    } else {
        els
    };
    reveal(Mach::idle);
    reveal(Mach::pop_frame);
    reveal(Mach::push);
    reveal(Mach::eval);
    reveal(Mach::exec);
    reveal(Mach::run_from);
    reveal(Mach::give);
    reveal(Mach::flow);
    reveal(Mach::fail);
    reveal(Mach::task);
    reveal(Mach::set_env);
    reveal(Mach::collect);
    assert forall|fs: Seq<FrameView>| #[trigger] gives_at(m, e, v, n, fs) by {
        let a = at(m, fs, CtrlView::Eval { e: e });
        let z = at(n, fs, CtrlView::Value { v: v });
        assert(fs.push(fr).drop_last() =~= fs);
        assert(gives_at(k, p, v, n, fs));
        part(a, m, fs, fr, cond, c, k, z);
    }
}

/// The value of `a and b` is that of `b` where `a` is true, and false where it is not; then
/// `b` is not evaluated. `or` is the same with true and false exchanged. Two truth values or `nil` are wanted.
pub proof fn and_or(
    m: Mach,
    lhs: ExprView,
    rhs: ExprView,
    x: ValueView,
    k: Mach,
    y: ValueView,
    n: Mach,
)
    requires
        gives(m, lhs, x, k),
        truth(x) is Some,
    ensures
        truth(x) == Some(false) ==> gives(
            m,
            ExprView::Binary { op: BinOp::And, lhs: Box::new(lhs), rhs: Box::new(rhs) },
            ValueView::Bool(false),
            k,
        ),
        truth(x) == Some(true) ==> gives(
            m,
            ExprView::Binary { op: BinOp::Or, lhs: Box::new(lhs), rhs: Box::new(rhs) },
            ValueView::Bool(true),
            k,
        ),
        truth(x) == Some(true) && gives(k, rhs, y, n) && truth(y) is Some ==> gives(
            m,
            ExprView::Binary { op: BinOp::And, lhs: Box::new(lhs), rhs: Box::new(rhs) },
            ValueView::Bool(truth(y)->0),
            n,
        ),
        truth(x) == Some(false) && gives(k, rhs, y, n) && truth(y) is Some ==> gives(
            m,
            ExprView::Binary { op: BinOp::Or, lhs: Box::new(lhs), rhs: Box::new(rhs) },
            ValueView::Bool(truth(y)->0),
            n,
        ),
{
    short_way(m, BinOp::And, lhs, rhs, x, k, y, n);
    short_way(m, BinOp::Or, lhs, rhs, x, k, y, n);
}

/// Both ways that `and` and `or` can go.
proof fn short_way(
    m: Mach,
    op: BinOp,
    lhs: ExprView,
    rhs: ExprView,
    x: ValueView,
    k: Mach,
    y: ValueView,
    n: Mach,
)
    requires
        op == BinOp::And || op == BinOp::Or,
        gives(m, lhs, x, k),
        truth(x) is Some,
    ensures
        truth(x) == Some(op == BinOp::Or) ==> gives(
            m,
            ExprView::Binary { op, lhs: Box::new(lhs), rhs: Box::new(rhs) },
            ValueView::Bool(op == BinOp::Or),
            k,
        ),
        truth(x) == Some(op == BinOp::And) && gives(k, rhs, y, n) && truth(y) is Some ==> gives(
            m,
            ExprView::Binary { op, lhs: Box::new(lhs), rhs: Box::new(rhs) },
            ValueView::Bool(truth(y)->0),
            n,
        ),
{
    let e = ExprView::Binary { op, lhs: Box::new(lhs), rhs: Box::new(rhs) };
    let fr = FrameView::ShortL { op, rhs };
    let o = op == BinOp::Or;
    if truth(x) == Some(o) {
    reveal(Mach::idle);
    reveal(Mach::pop_frame);
    reveal(Mach::push);
    reveal(Mach::eval);
    reveal(Mach::exec);
    reveal(Mach::run_from);
    reveal(Mach::give);
    reveal(Mach::flow);
    reveal(Mach::fail);
    reveal(Mach::task);
    reveal(Mach::set_env);
    reveal(Mach::collect);
    assert forall|fs: Seq<FrameView>| #[trigger] gives_at(m, e, ValueView::Bool(o), k, fs) by {
        let a = at(m, fs, CtrlView::Eval { e: e });
        let z = at(k, fs, CtrlView::Value { v: ValueView::Bool(o) });
        assert(fs.push(fr).drop_last() =~= fs);
        leads_here(z);
        part(a, m, fs, fr, lhs, x, k, z);
    }
    } else if gives(k, rhs, y, n) && truth(y) is Some {
    reveal(Mach::idle);
    reveal(Mach::pop_frame);
    reveal(Mach::push);
    reveal(Mach::eval);
    reveal(Mach::exec);
    reveal(Mach::run_from);
    reveal(Mach::give);
    reveal(Mach::flow);
    reveal(Mach::fail);
    reveal(Mach::task);
    reveal(Mach::set_env);
    reveal(Mach::collect);
    assert forall|fs: Seq<FrameView>| #[trigger] gives_at(
        m,
        e,
        ValueView::Bool(truth(y)->0),
        n,
        fs,
    ) by {
        let a = at(m, fs, CtrlView::Eval { e: e });
        let z = at(n, fs, CtrlView::Value { v: ValueView::Bool(truth(y)->0) });
        assert(fs.push(fr).drop_last() =~= fs);
        assert(fs.push(FrameView::ShortR).drop_last() =~= fs);
        let b = at(k, fs.push(fr), CtrlView::Value { v: x });
        assert(step_spec(b) == at(k, fs.push(FrameView::ShortR), CtrlView::Eval { e: rhs }));
        leads_here(z);
        part(b, k, fs, FrameView::ShortR, rhs, y, n, z);
        assert(gives_at(m, lhs, x, k, fs.push(fr)));
        leads_on(step_spec(a), b, z);
        step_leads(a, z);
    }
    }
}

/// What an operation comes to is reached.
pub(crate) proof fn settled(m: Mach, fs: Seq<FrameView>, o: OutView, v: ValueView)
    requires
        match o {
            OutView::Do(t) => task_out(m.heap, m.texts, m.nums, t) == OutView::Give(v),
            _ => o == OutView::Give(v),
        },
    ensures
        leads(
            crate::interp::settle(at(m, fs, CtrlView::Await), o),
            at(m, fs, CtrlView::Value { v }),
        ),
{
    reveal(Mach::idle);
    reveal(Mach::pop_frame);
    reveal(Mach::push);
    reveal(Mach::eval);
    reveal(Mach::exec);
    reveal(Mach::run_from);
    reveal(Mach::give);
    reveal(Mach::flow);
    reveal(Mach::fail);
    reveal(Mach::task);
    reveal(Mach::set_env);
    reveal(Mach::collect);
    let z = at(m, fs, CtrlView::Value { v });
    leads_here(z);
    if o is Do {
        last_step(at(m, fs, CtrlView::Task { t: o->Do_0 }), z);
    }
}

/// A binary operation evaluates its left side, then its right side, and gives what the
/// operator makes of the two values.
pub proof fn binary_operation(
    m: Mach,
    op: BinOp,
    lhs: ExprView,
    rhs: ExprView,
    x: ValueView,
    k: Mach,
    y: ValueView,
    n: Mach,
    v: ValueView,
)
    requires
        op != BinOp::And,
        op != BinOp::Or,
        gives(m, lhs, x, k),
        gives(k, rhs, y, n),
        worth(n.heap, n.nums, op, x, y) == OutView::Give(v),
    ensures
        gives(m, ExprView::Binary { op, lhs: Box::new(lhs), rhs: Box::new(rhs) }, v, n),
{
    let e = ExprView::Binary { op, lhs: Box::new(lhs), rhs: Box::new(rhs) };
    let fl = FrameView::BinL { op, rhs };
    let fr = FrameView::BinR { op, left: x };
    let o = crate::operate::binop_spec(n.heap, op, x, y);
    reveal(Mach::idle);
    reveal(Mach::pop_frame);
    reveal(Mach::push);
    reveal(Mach::eval);
    reveal(Mach::exec);
    reveal(Mach::run_from);
    reveal(Mach::give);
    reveal(Mach::flow);
    reveal(Mach::fail);
    reveal(Mach::task);
    reveal(Mach::set_env);
    reveal(Mach::collect);
    assert forall|fs: Seq<FrameView>| #[trigger] gives_at(m, e, v, n, fs) by {
        let a = at(m, fs, CtrlView::Eval { e: e });
        let z = at(n, fs, CtrlView::Value { v: v });
        assert(fs.push(fl).drop_last() =~= fs);
        assert(fs.push(fr).drop_last() =~= fs);
        let b = at(k, fs.push(fl), CtrlView::Value { v: x });
        assert(step_spec(b) == at(k, fs.push(fr), CtrlView::Eval { e: rhs }));
        settled(n, fs, o, v);
        part(b, k, fs, fr, rhs, y, n, z);
        assert(gives_at(m, lhs, x, k, fs.push(fl)));
        leads_on(step_spec(a), b, z);
        step_leads(a, z);
    }
}

/// A unary operation gives what the operator makes of the value.
pub proof fn unary_operation(m: Mach, op: UnOp, e: ExprView, x: ValueView, n: Mach, v: ValueView)
    requires
        gives(m, e, x, n),
        unary_out(op, x) == OutView::Give(v),
    ensures
        gives(m, ExprView::Unary { op, expr: Box::new(e) }, v, n),
{
    let u = ExprView::Unary { op, expr: Box::new(e) };
    let fr = FrameView::Unary { op };
    reveal(Mach::idle);
    reveal(Mach::pop_frame);
    reveal(Mach::push);
    reveal(Mach::eval);
    reveal(Mach::exec);
    reveal(Mach::run_from);
    reveal(Mach::give);
    reveal(Mach::flow);
    reveal(Mach::fail);
    reveal(Mach::task);
    reveal(Mach::set_env);
    reveal(Mach::collect);
    assert forall|fs: Seq<FrameView>| #[trigger] gives_at(m, u, v, n, fs) by {
        let a = at(m, fs, CtrlView::Eval { e: u });
        let z = at(n, fs, CtrlView::Value { v: v });
        assert(fs.push(fr).drop_last() =~= fs);
        settled(n, fs, unary_out(op, x), v);
        part(a, m, fs, fr, e, x, n, z);
    }
}

/// An element is taken of the value of the object, at the value of the index, which is
/// evaluated second.
pub proof fn indexing(
    m: Mach,
    obj: ExprView,
    index: ExprView,
    x: ValueView,
    k: Mach,
    y: ValueView,
    n: Mach,
    v: ValueView,
)
    requires
        gives(m, obj, x, k),
        gives(k, index, y, n),
        index_out(n.heap, x, y) == OutView::Give(v),
    ensures
        gives(m, ExprView::Index { obj: Box::new(obj), index: Box::new(index) }, v, n),
{
    let e = ExprView::Index { obj: Box::new(obj), index: Box::new(index) };
    let fl = FrameView::IndexObj { index };
    let fr = FrameView::IndexAt { obj: x };
    reveal(Mach::idle);
    reveal(Mach::pop_frame);
    reveal(Mach::push);
    reveal(Mach::eval);
    reveal(Mach::exec);
    reveal(Mach::run_from);
    reveal(Mach::give);
    reveal(Mach::flow);
    reveal(Mach::fail);
    reveal(Mach::task);
    reveal(Mach::set_env);
    reveal(Mach::collect);
    assert forall|fs: Seq<FrameView>| #[trigger] gives_at(m, e, v, n, fs) by {
        let a = at(m, fs, CtrlView::Eval { e: e });
        let z = at(n, fs, CtrlView::Value { v: v });
        assert(fs.push(fl).drop_last() =~= fs);
        assert(fs.push(fr).drop_last() =~= fs);
        let b = at(k, fs.push(fl), CtrlView::Value { v: x });
        assert(step_spec(b) == at(k, fs.push(fr), CtrlView::Eval { e: index }));
        settled(n, fs, index_out(n.heap, x, y), v);
        part(b, k, fs, fr, index, y, n, z);
        assert(gives_at(m, obj, x, k, fs.push(fl)));
        leads_on(step_spec(a), b, z);
        step_leads(a, z);
    }
}

/// Several expressions evaluated one after the other: their values, and the machines
/// between them.
pub open spec fn all_give(ms: Seq<Mach>, es: Seq<ExprView>, vs: Seq<ValueView>) -> bool {
    &&& ms.len() == es.len() + 1
    &&& vs.len() == es.len()
    &&& forall|i: int| 0 <= i < es.len() ==> #[trigger] gives(ms[i], es[i], vs[i], ms[i + 1])
}

/// Several expressions are evaluated from the first to the last.
pub(crate) proof fn collected(ms: Seq<Mach>, es: Seq<ExprView>, vs: Seq<ValueView>, kind: KindView, fs: Seq<FrameView>, k: nat)
    requires
        all_give(ms, es, vs),
        !(kind is Push),
        k <= es.len(),
    ensures
        leads(
            at(
                ms[k as int],
                fs,
                CtrlView::Collect { kind, src: SrcView::Exprs { s: es }, vals: vs.take(k as int) },
            ),
            finish(at(ms.last(), fs, CtrlView::Await), kind, vs),
        ),
    decreases es.len() - k,
{
    reveal(Mach::idle);
    reveal(Mach::pop_frame);
    reveal(Mach::push);
    reveal(Mach::eval);
    reveal(Mach::exec);
    reveal(Mach::run_from);
    reveal(Mach::give);
    reveal(Mach::flow);
    reveal(Mach::fail);
    reveal(Mach::task);
    reveal(Mach::set_env);
    reveal(Mach::collect);
    let src = SrcView::Exprs { s: es };
    let a = at(ms[k as int], fs, CtrlView::Collect { kind, src, vals: vs.take(k as int) });
    let z = finish(at(ms.last(), fs, CtrlView::Await), kind, vs);
    if k == es.len() {
        assert(vs.take(k as int) =~= vs);
        last_step(a, z);
    } else {
        let i = k as int;
        let fr = FrameView::Args { kind, src, vals: vs.take(i) };
        collected(ms, es, vs, kind, fs, k + 1);
        assert(vs.take(i).push(vs[i]) =~= vs.take(i + 1));
        assert(fs.push(fr).drop_last() =~= fs);
        assert(gives(ms[i], es[i], vs[i], ms[i + 1]));
        part(a, ms[i], fs, fr, es[i], vs[i], ms[i + 1], z);
    }
}

/// A list literal gives a new list of the values of its items, in their order; no other
/// object changes.
pub proof fn list_literal(ms: Seq<Mach>, es: Seq<ExprView>, vs: Seq<ValueView>)
    requires
        all_give(ms, es, vs),
        ms.last().heap.len() <= usize::MAX,
    ensures
        gives(
            ms[0],
            ExprView::List(es),
            ValueView::List(ms.last().heap.len() as usize),
            (Mach { heap: ms.last().heap.push(ObjView::List(vs)), ..ms.last() }),
        ),
{
    let e = ExprView::List(es);
    let v = ValueView::List(ms.last().heap.len() as usize);
    let m = ms[0];
    let n = Mach { heap: ms.last().heap.push(ObjView::List(vs)), ..ms.last() };
    reveal(Mach::add_obj);
    reveal(Mach::idle);
    reveal(Mach::pop_frame);
    reveal(Mach::push);
    reveal(Mach::eval);
    reveal(Mach::exec);
    reveal(Mach::run_from);
    reveal(Mach::give);
    reveal(Mach::flow);
    reveal(Mach::fail);
    reveal(Mach::task);
    reveal(Mach::set_env);
    reveal(Mach::collect);
    assert forall|fs: Seq<FrameView>| #[trigger] gives_at(m, e, v, n, fs) by {
        let a = at(m, fs, CtrlView::Eval { e: e });
        let z = at(n, fs, CtrlView::Value { v: v });
        collected(ms, es, vs, KindView::List, fs, 0);
        assert(vs.take(0) =~= Seq::<ValueView>::empty());
        step_leads(a, z);
    }
}

/// A call of a function of the program binds its parameters to the values of the arguments,
/// runs its body, and gives what the body returns, or `nil`. The caller finds its own
/// variables again.
pub proof fn function_call(
    ms: Seq<Mach>,
    name: Seq<char>,
    es: Seq<ExprView>,
    vs: Seq<ValueView>,
    d: FnDefView,
    f: FlowView,
    n: Mach,
)
    requires
        all_give(ms, es, vs),
        builtin_call(ms.last().heap, name, vs) is None,
        !ms.last().structs.contains_key(name),
        !ms.last().externs.contains(name),
        ms.last().funcs.contains_key(name),
        ms.last().funcs[name] < ms.last().defs.len(),
        d == ms.last().defs[ms.last().funcs[name] as int],
        !(f is TailCall),
        runs(
            (
                Mach {
                    env: frame_env(d.params, vs),
                    tail: if d.is_method { None } else { Some((d.name, d.params.len() as usize)) },
                    ..ms.last()
                }
            ),
            d.body,
            0,
            f,
            n,
        ),
    ensures
        gives(ms[0], ExprView::Call { callee: Box::new(ExprView::Ident(name)), args: es }, match f { FlowView::Return { v } => v, _ => ValueView::Nil }, (Mach { env: ms.last().env, tail: ms.last().tail, ..n })),
{
    let e = ExprView::Call { callee: Box::new(ExprView::Ident(name)), args: es };
    let v = match f {
        FlowView::Return { v } => v,
        _ => ValueView::Nil,
    };
    let k = ms.last();
    let c = Mach {
        env: frame_env(d.params, vs),
        tail: if d.is_method {
            None
        } else {
            Some((d.name, d.params.len() as usize))
        },
        ..k
    };
    let m = ms[0];
    let r = Mach { env: k.env, tail: k.tail, ..n };
    reveal(Mach::enter);
    reveal(Mach::leave);
    reveal(Mach::idle);
    reveal(Mach::pop_frame);
    reveal(Mach::push);
    reveal(Mach::eval);
    reveal(Mach::exec);
    reveal(Mach::run_from);
    reveal(Mach::give);
    reveal(Mach::flow);
    reveal(Mach::fail);
    reveal(Mach::task);
    reveal(Mach::set_env);
    reveal(Mach::collect);
    assert forall|fs: Seq<FrameView>| #[trigger] gives_at(m, e, v, r, fs) by {
        let a = at(m, fs, CtrlView::Eval { e: e });
        let z = at(r, fs, CtrlView::Value { v: v });
        let fr = FrameView::Call { env: k.env, tail: k.tail, tramp: Some(k.funcs[name]) };
        collected(ms, es, vs, KindView::Call { name }, fs, 0);
        assert(vs.take(0) =~= Seq::<ValueView>::empty());
        let b = finish(at(k, fs, CtrlView::Await), KindView::Call { name }, vs);
        assert(b == at(c, fs.push(fr), CtrlView::Run { stmts: d.body, i: 0 }));
        assert(runs_at(c, d.body, 0, f, n, fs.push(fr)));
        let y = at(n, fs.push(fr), CtrlView::Flow { f });
        assert(fs.push(fr).drop_last() =~= fs);
        last_step(y, z);
        leads_on(b, y, z);
        leads_on(step_spec(a), b, z);
        step_leads(a, z);
    }
}

/// A call of a value that is a function does the same with what the function captured before
/// the arguments.
pub proof fn closure_call(
    m: Mach,
    callee: ExprView,
    fv: ValueView,
    ms: Seq<Mach>,
    es: Seq<ExprView>,
    vs: Seq<ValueView>,
    d: usize,
    caps: Seq<ValueView>,
    f: FlowView,
    n: Mach,
)
    requires
        !(callee is Ident),
        gives(m, callee, fv, ms[0]),
        all_give(ms, es, vs),
        func_value(ms.last().heap, fv) == Some((d, caps)),
        d < ms.last().defs.len(),
        !(f is TailCall),
        runs(
            (
                Mach {
                    env: frame_env(ms.last().defs[d as int].params, caps + vs),
                    tail: None,
                    ..ms.last()
                }
            ),
            ms.last().defs[d as int].body,
            0,
            f,
            n,
        ),
    ensures
        gives(m, ExprView::Call { callee: Box::new(callee), args: es }, match f { FlowView::Return { v } => v, _ => ValueView::Nil }, (Mach { env: ms.last().env, tail: ms.last().tail, ..n })),
{
    let e = ExprView::Call { callee: Box::new(callee), args: es };
    let v = match f {
        FlowView::Return { v } => v,
        _ => ValueView::Nil,
    };
    let k = ms.last();
    let body = k.defs[d as int].body;
    let c = Mach { env: frame_env(k.defs[d as int].params, caps + vs), tail: None, ..k };
    let r = Mach { env: k.env, tail: k.tail, ..n };
    let kind = KindView::CallValue { f: fv };
    reveal(Mach::enter);
    reveal(Mach::leave);
    reveal(Mach::idle);
    reveal(Mach::pop_frame);
    reveal(Mach::push);
    reveal(Mach::eval);
    reveal(Mach::exec);
    reveal(Mach::run_from);
    reveal(Mach::give);
    reveal(Mach::flow);
    reveal(Mach::fail);
    reveal(Mach::task);
    reveal(Mach::set_env);
    reveal(Mach::collect);
    assert forall|fs: Seq<FrameView>| #[trigger] gives_at(m, e, v, r, fs) by {
        let a = at(m, fs, CtrlView::Eval { e: e });
        let z = at(r, fs, CtrlView::Value { v: v });
        let fc = FrameView::Callee { args: es };
        let fr = FrameView::Call { env: k.env, tail: k.tail, tramp: None };
        collected(ms, es, vs, kind, fs, 0);
        assert(vs.take(0) =~= Seq::<ValueView>::empty());
        let b = finish(at(k, fs, CtrlView::Await), kind, vs);
        assert(b == at(c, fs.push(fr), CtrlView::Run { stmts: body, i: 0 }));
        assert(runs_at(c, body, 0, f, n, fs.push(fr)));
        let y = at(n, fs.push(fr), CtrlView::Flow { f });
        assert(fs.push(fr).drop_last() =~= fs);
        assert(fs.push(fc).drop_last() =~= fs);
        last_step(y, z);
        leads_on(b, y, z);
        let w = at(ms[0], fs.push(fc), CtrlView::Value { v: fv });
        leads_on(step_spec(w), b, z);
        part(a, m, fs, fc, callee, fv, ms[0], z);
    }
}

/// One round of a comprehension: with the variable at the item, the condition, if there is
/// one, decides whether the element is taken, and the element has its value.
pub open spec fn round(
    m: Mach,
    n: Mach,
    elem: ExprView,
    var: Seq<char>,
    cond: Option<Box<ExprView>>,
    item: ValueView,
    taken: bool,
    v: ValueView,
) -> bool {
    let s = with_var(m, var, item);
    match cond {
        Some(c) => exists|k: Mach, b: ValueView|
            {
                &&& #[trigger] gives(s, *c, b, k)
                &&& truth(b) == Some(taken)
                &&& if taken {
                    gives(k, elem, v, n)
                } else {
                    n == k
                }
            },
        None => taken && gives(s, elem, v, n),
    }
}

/// The values that were taken in the first `k` rounds.
pub open spec fn taken_values(taken: Seq<bool>, vs: Seq<ValueView>, k: nat) -> Seq<ValueView>
    decreases k,
{
    if k == 0 {
        Seq::empty()
    } else if taken[k - 1] {
        taken_values(taken, vs, (k - 1) as nat).push(vs[k - 1])
    } else {
        taken_values(taken, vs, (k - 1) as nat)
    }
}

/// The variable of a comprehension is afterwards what it was.
pub open spec fn put_back(m: Mach, var: Seq<char>, saved: Option<ValueView>) -> Mach {
    Mach {
        env: match saved {
            Some(x) => m.env.insert(var, x),
            None => m.env.remove(var),
        },
        ..m
    }
}

pub open spec fn rounds(
    ms: Seq<Mach>,
    elem: ExprView,
    var: Seq<char>,
    cond: Option<Box<ExprView>>,
    items: Seq<ValueView>,
    taken: Seq<bool>,
    vs: Seq<ValueView>,
) -> bool {
    &&& ms.len() == items.len() + 1
    &&& taken.len() == items.len()
    &&& vs.len() == items.len()
    &&& forall|i: int|
        0 <= i < items.len() ==> #[trigger] round(
            ms[i],
            ms[i + 1],
            elem,
            var,
            cond,
            items[i],
            taken[i],
            vs[i],
        )
}

/// The rounds of a comprehension from the `k`-th on.
#[verifier::rlimit(40)]
proof fn rounds_go(
    ms: Seq<Mach>,
    elem: ExprView,
    var: Seq<char>,
    cond: Option<Box<ExprView>>,
    items: Seq<ValueView>,
    taken: Seq<bool>,
    vs: Seq<ValueView>,
    saved: Option<ValueView>,
    fs: Seq<FrameView>,
    k: nat,
)
    requires
        rounds(ms, elem, var, cond, items, taken, vs),
        items.len() <= usize::MAX,
        k <= items.len(),
    ensures
        leads(
            comp_next(
                at(ms[k as int], fs, CtrlView::Await),
                elem,
                var,
                cond,
                items,
                k as usize,
                taken_values(taken, vs, k),
                saved,
            ),
            crate::interp::new_list(
                at(put_back(ms.last(), var, saved), fs, CtrlView::Await),
                taken_values(taken, vs, items.len()),
            ),
        ),
    decreases items.len() - k,
{
    reveal(Mach::idle);
    reveal(Mach::pop_frame);
    reveal(Mach::push);
    reveal(Mach::eval);
    reveal(Mach::exec);
    reveal(Mach::run_from);
    reveal(Mach::give);
    reveal(Mach::flow);
    reveal(Mach::fail);
    reveal(Mach::task);
    reveal(Mach::set_env);
    reveal(Mach::collect);
    reveal(Mach::del_env);
    let out = taken_values(taken, vs, k);
    let all = taken_values(taken, vs, items.len());
    let a = comp_next(
        at(ms[k as int], fs, CtrlView::Await),
        elem,
        var,
        cond,
        items,
        k as usize,
        out,
        saved,
    );
    let z = crate::interp::new_list(at(put_back(ms.last(), var, saved), fs, CtrlView::Await), all);
    let i = k as int;
    if k == items.len() {
        leads_here(z);
    } else {
        rounds_go(ms, elem, var, cond, items, taken, vs, saved, fs, k + 1);
        let s = with_var(ms[i], var, items[i]);
        let u = k as usize;
        let b = comp_next(
            at(ms[i + 1], fs, CtrlView::Await),
            elem,
            var,
            cond,
            items,
            (k + 1) as usize,
            taken_values(taken, vs, k + 1),
            saved,
        );
        let fe = FrameView::CompElem { elem, var, cond, items, i: u, out, saved };
        assert(fs.push(fe).drop_last() =~= fs);
        assert(round(ms[i], ms[i + 1], elem, var, cond, items[i], taken[i], vs[i]));
        match cond {
            Some(c) => {
                let (q, t) = choose|q: Mach, t: ValueView|
                    {
                        &&& #[trigger] gives(s, *c, t, q)
                        &&& truth(t) == Some(taken[i])
                        &&& if taken[i] {
                            gives(q, elem, vs[i], ms[i + 1])
                        } else {
                            ms[i + 1] == q
                        }
                    };
                let fc = FrameView::CompCond { elem, var, cond, items, i: u, out, saved };
                assert(fs.push(fc).drop_last() =~= fs);
                assert(a == at(s, fs.push(fc), CtrlView::Eval { e: *c }));
                assert(gives_at(s, *c, t, q, fs.push(fc)));
                let w = at(q, fs.push(fc), CtrlView::Value { v: t });
                if taken[i] {
                    assert(
                        step_spec(at(ms[i + 1], fs.push(fe), CtrlView::Value { v: vs[i] })) == b
                    );
                    assert(step_spec(w) == at(q, fs.push(fe), CtrlView::Eval { e: elem }));
                    part(w, q, fs, fe, elem, vs[i], ms[i + 1], z);
                } else {
                    assert(step_spec(w) == b);
                    step_leads(w, z);
                }
                leads_on(a, w, z);
            },
            None => {
                assert(a == at(s, fs.push(fe), CtrlView::Eval { e: elem }));
                assert(gives_at(s, elem, vs[i], ms[i + 1], fs.push(fe)));
                let w = at(ms[i + 1], fs.push(fe), CtrlView::Value { v: vs[i] });
                assert(step_spec(w) == b);
                step_leads(w, z);
                leads_on(a, w, z);
            },
        }
    }
}

/// A comprehension over the items of a value gives a new list: of each item in turn for
/// which the condition holds, the value of the element. Its variable hides one of the same
/// name only meanwhile.
pub proof fn comprehension(
    m: Mach,
    elem: ExprView,
    var: Seq<char>,
    iter: ExprView,
    cond: Option<Box<ExprView>>,
    x: ValueView,
    items: Seq<ValueView>,
    ms: Seq<Mach>,
    taken: Seq<bool>,
    vs: Seq<ValueView>,
)
    requires
        !(iter is Range),
        gives(m, iter, x, ms[0]),
        items_of(ms[0].heap, x) == Some(items),
        rounds(ms, elem, var, cond, items, taken, vs),
        items.len() <= usize::MAX,
        ms.last().heap.len() <= usize::MAX,
    ensures
        gives(
            m,
            ExprView::ListComp { elem: Box::new(elem), var, iter: Box::new(iter), cond },
            ValueView::List(ms.last().heap.len() as usize),
            (
                Mach {
                    heap: ms.last().heap.push(ObjView::List(taken_values(taken, vs, items.len()))),
                    ..put_back(ms.last(), var, ms[0].env_of(var))
                }
            ),
        ),
{
    let e = ExprView::ListComp { elem: Box::new(elem), var, iter: Box::new(iter), cond };
    let v = ValueView::List(ms.last().heap.len() as usize);
    let saved = ms[0].env_of(var);
    let n = Mach {
        heap: ms.last().heap.push(ObjView::List(taken_values(taken, vs, items.len()))),
        ..put_back(ms.last(), var, saved)
    };
    let fr = FrameView::Iter { use_: UseView::Comp { elem, var, cond } };
    reveal(Mach::add_obj);
    reveal(Mach::idle);
    reveal(Mach::pop_frame);
    reveal(Mach::push);
    reveal(Mach::eval);
    reveal(Mach::exec);
    reveal(Mach::run_from);
    reveal(Mach::give);
    reveal(Mach::flow);
    reveal(Mach::fail);
    reveal(Mach::task);
    reveal(Mach::set_env);
    reveal(Mach::collect);
    assert forall|fs: Seq<FrameView>| #[trigger] gives_at(m, e, v, n, fs) by {
        let a = at(m, fs, CtrlView::Eval { e: e });
        let z = at(n, fs, CtrlView::Value { v: v });
        assert(fs.push(fr).drop_last() =~= fs);
        rounds_go(ms, elem, var, cond, items, taken, vs, saved, fs, 0);
        part(a, m, fs, fr, iter, x, ms[0], z);
    }
}

/// The items for which `keep` says yes, in their order.
pub open spec fn kept(items: Seq<ValueView>, keep: Seq<bool>) -> Seq<ValueView>
    decreases items.len(),
{
    if items.len() == 0 {
        Seq::empty()
    } else if keep.last() {
        kept(items.drop_last(), keep.drop_last()).push(items.last())
    } else {
        kept(items.drop_last(), keep.drop_last())
    }
}

/// In the machine `m`, with the variable at the item, the call of `f` with the variable
/// has the value `v`.
pub open spec fn applied_to(
    m: Mach,
    f: ExprView,
    var: Seq<char>,
    item: ValueView,
    v: ValueView,
    n: Mach,
) -> bool {
    gives(
        with_var(m, var, item),
        ExprView::Call { callee: Box::new(f), args: seq![ExprView::Ident(var)] },
        v,
        n,
    )
}

/// `f` is applied to each item in turn: the values, and the machines between.
pub open spec fn applied_to_all(
    ms: Seq<Mach>,
    f: ExprView,
    var: Seq<char>,
    items: Seq<ValueView>,
    vs: Seq<ValueView>,
) -> bool {
    &&& ms.len() == items.len() + 1
    &&& vs.len() == items.len()
    &&& forall|i: int|
        0 <= i < items.len() ==> #[trigger] applied_to(ms[i], f, var, items[i], vs[i], ms[i + 1])
}

/// What was taken is what was kept.
proof fn taken_is_kept(items: Seq<ValueView>, keep: Seq<bool>, k: nat)
    requires
        k <= items.len(),
        keep.len() == items.len(),
    ensures
        taken_values(keep, items, k) == kept(items.take(k as int), keep.take(k as int)),
    decreases k,
{
    if k > 0 {
        taken_is_kept(items, keep, (k - 1) as nat);
        assert(items.take(k as int).drop_last() =~= items.take(k - 1));
        assert(keep.take(k as int).drop_last() =~= keep.take(k - 1));
    }
}

/// `xs.filter(f)` gives a new list of the elements of `xs`, in their order, for which `f`
/// gives true, and of no others.
pub proof fn filter_filters(
    m: Mach,
    obj: ExprView,
    f: ExprView,
    c: u64,
    x: ValueView,
    items: Seq<ValueView>,
    ms: Seq<Mach>,
    vs: Seq<ValueView>,
    keep: Seq<bool>,
)
    requires
        !(obj is Range),
        gives(m, obj, x, ms[0]),
        items_of(ms[0].heap, x) == Some(items),
        applied_to_all(ms, f, comp_var(next_number(c)), items, vs),
        keep.len() == items.len(),
        forall|i: int| 0 <= i < items.len() ==> truth(#[trigger] vs[i]) == Some(keep[i]),
        forall|i: int| 0 < i < ms.len() ==> (#[trigger] ms[i]).env
            .contains_key(comp_var(next_number(c))) && ms[i].env[comp_var(next_number(c))] == items[i - 1],
        items.len() <= usize::MAX,
        ms.last().heap.len() <= usize::MAX,
    ensures
        gives(
            m,
            lower_method(obj, "filter"@, seq![f], c).0,
            ValueView::List(ms.last().heap.len() as usize),
            (
                Mach {
                    heap: ms.last().heap.push(ObjView::List(kept(items, keep))),
                    ..put_back(
                        ms.last(),
                        comp_var(next_number(c)),
                        ms[0].env_of(comp_var(next_number(c))),
                    )
                }
            ),
        ),
{
    let var = comp_var(next_number(c));
    let call = ExprView::Call { callee: Box::new(f), args: seq![ExprView::Ident(var)] };
    let elem = ExprView::Ident(var);
    let cond = Some(Box::new(call));
    reveal_strlit("map");
    reveal_strlit("filter");
    assert("map"@.len() != "filter"@.len());
    let e = lower_method(obj, "filter"@, seq![f], c).0;
    assert(e == (ExprView::ListComp { elem: Box::new(elem), var, iter: Box::new(obj), cond }));
    assert forall|i: int| 0 <= i < items.len() implies #[trigger] round(
        ms[i],
        ms[i + 1],
        elem,
        var,
        cond,
        items[i],
        keep[i],
        items[i],
    ) by {
        assert(applied_to(ms[i], f, var, items[i], vs[i], ms[i + 1]));
        let s = with_var(ms[i], var, items[i]);
        assert(gives(s, *cond->0, vs[i], ms[i + 1]));
        assert(truth(vs[i]) == Some(keep[i]));
        variable(ms[i + 1], var);
    }
    comprehension(m, elem, var, obj, cond, x, items, ms, keep, items);
    taken_is_kept(items, keep, items.len());
    assert(items.take(items.len() as int) =~= items);
    assert(keep.take(items.len() as int) =~= keep);
}

/// All values are taken where there is no condition.
proof fn all_taken(vs: Seq<ValueView>, k: nat)
    requires
        k <= vs.len(),
    ensures
        taken_values(Seq::new(vs.len(), |i: int| true), vs, k) == vs.take(k as int),
    decreases k,
{
    if k > 0 {
        all_taken(vs, (k - 1) as nat);
        assert(vs.take(k - 1).push(vs[k - 1]) =~= vs.take(k as int));
    } else {
        assert(vs.take(0) =~= Seq::<ValueView>::empty());
    }
}

/// `xs.map(f)` gives a new list of what `f` gives for each element of `xs`, in their order.
pub proof fn map_maps(
    m: Mach,
    obj: ExprView,
    f: ExprView,
    c: u64,
    x: ValueView,
    items: Seq<ValueView>,
    ms: Seq<Mach>,
    vs: Seq<ValueView>,
)
    requires
        !(obj is Range),
        gives(m, obj, x, ms[0]),
        items_of(ms[0].heap, x) == Some(items),
        applied_to_all(ms, f, comp_var(next_number(c)), items, vs),
        items.len() <= usize::MAX,
        ms.last().heap.len() <= usize::MAX,
    ensures
        gives(
            m,
            lower_method(obj, "map"@, seq![f], c).0,
            ValueView::List(ms.last().heap.len() as usize),
            (
                Mach {
                    heap: ms.last().heap.push(ObjView::List(vs)),
                    ..put_back(
                        ms.last(),
                        comp_var(next_number(c)),
                        ms[0].env_of(comp_var(next_number(c))),
                    )
                }
            ),
        ),
{
    let var = comp_var(next_number(c));
    let elem = ExprView::Call { callee: Box::new(f), args: seq![ExprView::Ident(var)] };
    let e = lower_method(obj, "map"@, seq![f], c).0;
    let taken = Seq::new(vs.len(), |i: int| true);
    assert(
        e == (ExprView::ListComp { elem: Box::new(elem), var, iter: Box::new(obj), cond: None })
    );
    assert forall|i: int| 0 <= i < items.len() implies #[trigger] round(
        ms[i],
        ms[i + 1],
        elem,
        var,
        None,
        items[i],
        taken[i],
        vs[i],
    ) by {
        assert(applied_to(ms[i], f, var, items[i], vs[i], ms[i + 1]));
    }
    comprehension(m, elem, var, obj, None, x, items, ms, taken, vs);
    all_taken(vs, vs.len());
    assert(vs.take(vs.len() as int) =~= vs);
}

/// `let` binds its variable in the current call.
pub proof fn let_binds(m: Mach, s: StmtView, v: ValueView, n: Mach)
    requires
        s is Let,
        gives(m, s->Let_value, v, n),
    ensures
        does(m, s, normal(), with_var(n, s->Let_name, v)),
{
    let e = s->Let_value;
    let fr = FrameView::Let { name: s->Let_name };
    let k = with_var(n, s->Let_name, v);
    reveal(Mach::idle);
    reveal(Mach::pop_frame);
    reveal(Mach::push);
    reveal(Mach::eval);
    reveal(Mach::exec);
    reveal(Mach::run_from);
    reveal(Mach::give);
    reveal(Mach::flow);
    reveal(Mach::fail);
    reveal(Mach::task);
    reveal(Mach::set_env);
    reveal(Mach::collect);
    assert forall|fs: Seq<FrameView>| #[trigger] does_at(m, s, normal(), k, fs) by {
        let a = at(m, fs, CtrlView::Exec { s: s });
        let z = at(k, fs, CtrlView::Flow { f: normal() });
        assert(fs.push(fr).drop_last() =~= fs);
        leads_here(z);
        part(a, m, fs, fr, e, v, n, z);
    }
}

/// An assignment changes the variable where it was bound: in the current call, or else
/// outside of all calls.
pub proof fn assignment(m: Mach, name: Seq<char>, e: ExprView, v: ValueView, n: Mach)
    requires
        gives(m, e, v, n),
    ensures
        n.env.contains_key(name) ==> does(
            m,
            StmtView::Assign { target: ExprView::Ident(name), value: e },
            normal(),
            with_var(n, name, v),
        ),
        !n.env.contains_key(name) ==> does(
            m,
            StmtView::Assign { target: ExprView::Ident(name), value: e },
            normal(),
            (Mach { globals: n.globals.insert(name, v), ..n }),
        ),
{
    let s = StmtView::Assign { target: ExprView::Ident(name), value: e };
    let fr = FrameView::AssignTo { target: ExprView::Ident(name) };
    let k = if n.env.contains_key(name) {
        with_var(n, name, v)
    } else {
        Mach { globals: n.globals.insert(name, v), ..n }
    };
    reveal(Mach::set_global);
    reveal(Mach::idle);
    reveal(Mach::pop_frame);
    reveal(Mach::push);
    reveal(Mach::eval);
    reveal(Mach::exec);
    reveal(Mach::run_from);
    reveal(Mach::give);
    reveal(Mach::flow);
    reveal(Mach::fail);
    reveal(Mach::task);
    reveal(Mach::set_env);
    reveal(Mach::collect);
    assert forall|fs: Seq<FrameView>| #[trigger] does_at(m, s, normal(), k, fs) by {
        let a = at(m, fs, CtrlView::Exec { s: s });
        let z = at(k, fs, CtrlView::Flow { f: normal() });
        assert(fs.push(fr).drop_last() =~= fs);
        leads_here(z);
        part(a, m, fs, fr, e, v, n, z);
    }
}

/// An expression as a statement is evaluated and its value dropped.
pub proof fn expression_statement(m: Mach, e: ExprView, v: ValueView, n: Mach)
    requires
        gives(m, e, v, n),
    ensures
        does(m, StmtView::ExprStmt(e), normal(), n),
{
    let s = StmtView::ExprStmt(e);
    let fr = FrameView::Drop;
    reveal(Mach::idle);
    reveal(Mach::pop_frame);
    reveal(Mach::push);
    reveal(Mach::eval);
    reveal(Mach::exec);
    reveal(Mach::run_from);
    reveal(Mach::give);
    reveal(Mach::flow);
    reveal(Mach::fail);
    reveal(Mach::task);
    reveal(Mach::set_env);
    reveal(Mach::collect);
    assert forall|fs: Seq<FrameView>| #[trigger] does_at(m, s, normal(), n, fs) by {
        let a = at(m, fs, CtrlView::Exec { s: s });
        let z = at(n, fs, CtrlView::Flow { f: normal() });
        assert(fs.push(fr).drop_last() =~= fs);
        leads_here(z);
        part(a, m, fs, fr, e, v, n, z);
    }
}

/// `return` leaves with the value of its expression, or with `nil`. (A call of the running
/// function itself is a jump.)
pub proof fn return_leaves(m: Mach, e: ExprView, v: ValueView, n: Mach)
    ensures
        does(m, StmtView::Return(None), FlowView::Return { v: ValueView::Nil }, m),
        gives(m, e, v, n) && !(e is Call) ==> does(
            m,
            StmtView::Return(Some(e)),
            FlowView::Return { v },
            n,
        ),
{
    reveal(Mach::idle);
    reveal(Mach::pop_frame);
    reveal(Mach::push);
    reveal(Mach::eval);
    reveal(Mach::exec);
    reveal(Mach::run_from);
    reveal(Mach::give);
    reveal(Mach::flow);
    reveal(Mach::fail);
    reveal(Mach::task);
    reveal(Mach::set_env);
    reveal(Mach::collect);
    assert forall|fs: Seq<FrameView>| #[trigger] does_at(
        m,
        StmtView::Return(None),
        FlowView::Return { v: ValueView::Nil },
        m,
        fs,
    ) by {
        let a = at(m, fs, CtrlView::Exec { s: StmtView::Return(None) });
        let z = at(m, fs, CtrlView::Flow { f: FlowView::Return { v: ValueView::Nil } });
        last_step(a, z);
    }
    if gives(m, e, v, n) && !(e is Call) {
    let fr = FrameView::Ret;
    reveal(Mach::idle);
    reveal(Mach::pop_frame);
    reveal(Mach::push);
    reveal(Mach::eval);
    reveal(Mach::exec);
    reveal(Mach::run_from);
    reveal(Mach::give);
    reveal(Mach::flow);
    reveal(Mach::fail);
    reveal(Mach::task);
    reveal(Mach::set_env);
    reveal(Mach::collect);
    assert forall|fs: Seq<FrameView>| #[trigger] does_at(
        m,
        StmtView::Return(Some(e)),
        FlowView::Return { v },
        n,
        fs,
    ) by {
        let a = at(m, fs, CtrlView::Exec { s: StmtView::Return(Some(e)) });
        let z = at(n, fs, CtrlView::Flow { f: FlowView::Return { v } });
        assert(fs.push(fr).drop_last() =~= fs);
        leads_here(z);
        part(a, m, fs, fr, e, v, n, z);
    }
    }
}

/// `break` and `continue` leave the statements around them, and change nothing.
pub proof fn loop_exits(m: Mach)
    ensures
        does(m, StmtView::Break, FlowView::Break, m),
        does(m, StmtView::Continue, FlowView::Continue, m),
{
    reveal(Mach::idle);
    reveal(Mach::pop_frame);
    reveal(Mach::push);
    reveal(Mach::eval);
    reveal(Mach::exec);
    reveal(Mach::run_from);
    reveal(Mach::give);
    reveal(Mach::flow);
    reveal(Mach::fail);
    reveal(Mach::task);
    reveal(Mach::set_env);
    reveal(Mach::collect);
    assert forall|fs: Seq<FrameView>| #[trigger] does_at(
        m,
        StmtView::Break,
        FlowView::Break,
        m,
        fs,
    ) by {
        let a = at(m, fs, CtrlView::Exec { s: StmtView::Break });
        let z = at(m, fs, CtrlView::Flow { f: FlowView::Break });
        last_step(a, z);
    }
    reveal(Mach::idle);
    reveal(Mach::pop_frame);
    reveal(Mach::push);
    reveal(Mach::eval);
    reveal(Mach::exec);
    reveal(Mach::run_from);
    reveal(Mach::give);
    reveal(Mach::flow);
    reveal(Mach::fail);
    reveal(Mach::task);
    reveal(Mach::set_env);
    reveal(Mach::collect);
    assert forall|fs: Seq<FrameView>| #[trigger] does_at(
        m,
        StmtView::Continue,
        FlowView::Continue,
        m,
        fs,
    ) by {
        let a = at(m, fs, CtrlView::Exec { s: StmtView::Continue });
        let z = at(m, fs, CtrlView::Flow { f: FlowView::Continue });
        last_step(a, z);
    }
}

/// A block runs its statements in their order. One that leaves ends the block.
pub proof fn block_in_order(
    m: Mach,
    b: Seq<StmtView>,
    i: usize,
    f: FlowView,
    k: Mach,
    g: FlowView,
    n: Mach,
)
    requires
        i <= b.len(),
        b.len() <= usize::MAX,
    ensures
        i == b.len() ==> runs(m, b, i, normal(), m),
        i < b.len() && does(m, b[i as int], f, k) && f != normal() ==> runs(m, b, i, f, k),
        i < b.len() && does(m, b[i as int], normal(), k) && runs(k, b, (i + 1) as usize, g, n) ==> runs(m, b, i, g, n),
{
    reveal(Mach::idle);
    reveal(Mach::pop_frame);
    reveal(Mach::push);
    reveal(Mach::eval);
    reveal(Mach::exec);
    reveal(Mach::run_from);
    reveal(Mach::give);
    reveal(Mach::flow);
    reveal(Mach::fail);
    reveal(Mach::task);
    reveal(Mach::set_env);
    reveal(Mach::collect);
    let fr = FrameView::Block { stmts: b, i: (i + 1) as usize };
    assert forall|fs: Seq<FrameView>| i == b.len() implies #[trigger] runs_at(m, b, i, normal(), m, fs) by {
        last_step(
            at(m, fs, CtrlView::Run { stmts: b, i }),
            at(m, fs, CtrlView::Flow { f: normal() }),
        );
    }
    if i < b.len() && does(m, b[i as int], f, k) && f != normal() {
        assert forall|fs: Seq<FrameView>| #[trigger] runs_at(m, b, i, f, k, fs) by {
            assert(fs.push(fr).drop_last() =~= fs);
            let a = at(m, fs, CtrlView::Run { stmts: b, i });
            let z = at(k, fs, CtrlView::Flow { f });
            assert(does_at(m, b[i as int], f, k, fs.push(fr)));
            last_step(at(k, fs.push(fr), CtrlView::Flow { f }), z);
            leads_on(step_spec(a), at(k, fs.push(fr), CtrlView::Flow { f }), z);
            step_leads(a, z);
        }
    }
    if i < b.len() && does(m, b[i as int], normal(), k) && runs(k, b, (i + 1) as usize, g, n) {
        assert forall|fs: Seq<FrameView>| #[trigger] runs_at(m, b, i, g, n, fs) by {
            assert(fs.push(fr).drop_last() =~= fs);
            let a = at(m, fs, CtrlView::Run { stmts: b, i });
            let z = at(n, fs, CtrlView::Flow { f: g });
            let y = at(k, fs.push(fr), CtrlView::Flow { f: normal() });
            assert(does_at(m, b[i as int], normal(), k, fs.push(fr)));
            assert(runs_at(k, b, (i + 1) as usize, g, n, fs));
            assert(step_spec(y) == at(k, fs, CtrlView::Run { stmts: b, i: (i + 1) as usize }));
            step_leads(y, z);
            leads_on(step_spec(a), y, z);
            step_leads(a, z);
        }
    }
}

/// The arms of an `if`: its own condition and block, then those of its `elif`s.
pub open spec fn arms(
    cond: ExprView,
    then: Seq<StmtView>,
    elifs: Seq<(ExprView, Seq<StmtView>)>,
) -> Seq<(ExprView, Seq<StmtView>)> {
    seq![(cond, then)] + elifs
}

/// The conditions of the first `k` arms are evaluated, and all say no.
pub open spec fn all_refuse(
    ms: Seq<Mach>,
    arms: Seq<(ExprView, Seq<StmtView>)>,
    vs: Seq<ValueView>,
    k: nat,
) -> bool {
    &&& k <= arms.len()
    &&& ms.len() == k + 1
    &&& vs.len() == k
    &&& forall|i: int|
        0 <= i < k ==> #[trigger] gives(ms[i], arms[i].0, vs[i], ms[i + 1]) && truth(vs[i])
            == Some(false)
}

/// The arms of an `if` from the `j`-th on.
proof fn arms_go(
    ms: Seq<Mach>,
    cond: ExprView,
    then: Seq<StmtView>,
    elifs: Seq<(ExprView, Seq<StmtView>)>,
    els: Option<Seq<StmtView>>,
    vs: Seq<ValueView>,
    k: nat,
    fs: Seq<FrameView>,
    j: nat,
)
    requires
        all_refuse(ms, arms(cond, then, elifs), vs, k),
        j < k,
        elifs.len() < usize::MAX,
    ensures
        leads(
            at(
                ms[j as int],
                fs.push(
                    FrameView::If {
                        then: arms(cond, then, elifs)[j as int].1,
                        elifs,
                        i: j as usize,
                        els,
                    },
                ),
                CtrlView::Eval { e: arms(cond, then, elifs)[j as int].0 },
            ),
            crate::interp::if_next(
                at(ms[k as int], fs, CtrlView::Await),
                elifs,
                (k - 1) as usize,
                els,
            ),
        ),
    decreases k - j,
{
    reveal(Mach::idle);
    reveal(Mach::pop_frame);
    reveal(Mach::push);
    reveal(Mach::eval);
    reveal(Mach::exec);
    reveal(Mach::run_from);
    reveal(Mach::give);
    reveal(Mach::flow);
    reveal(Mach::fail);
    reveal(Mach::task);
    reveal(Mach::set_env);
    reveal(Mach::collect);
    let p = arms(cond, then, elifs);
    let fr = FrameView::If { then: p[j as int].1, elifs, i: j as usize, els };
    let i = j as int;
    assert(fs.push(fr).drop_last() =~= fs);
    assert(gives(ms[i], p[i].0, vs[i], ms[i + 1]));
    assert(gives_at(ms[i], p[i].0, vs[i], ms[i + 1], fs.push(fr)));
    let a = at(ms[i], fs.push(fr), CtrlView::Eval { e: p[i].0 });
    let b = at(ms[i + 1], fs.push(fr), CtrlView::Value { v: vs[i] });
    let z = crate::interp::if_next(
        at(ms[k as int], fs, CtrlView::Await),
        elifs,
        (k - 1) as usize,
        els,
    );
    if j + 1 == k {
        last_step(b, z);
    } else {
        arms_go(ms, cond, then, elifs, els, vs, k, fs, j + 1);
        assert(p[i + 1] == elifs[i]);
        step_leads(b, z);
    }
    leads_on(a, b, z);
}

/// `if` evaluates the conditions of its arms in turn up to the first that holds, and runs
/// the block of that arm; where none holds it runs the `else` block, if there is one.
#[verifier::rlimit(40)]
pub proof fn if_picks(
    ms: Seq<Mach>,
    cond: ExprView,
    then: Seq<StmtView>,
    elifs: Seq<(ExprView, Seq<StmtView>)>,
    els: Option<Seq<StmtView>>,
    vs: Seq<ValueView>,
    k: nat,
    v: ValueView,
    q: Mach,
    f: FlowView,
    n: Mach,
)
    requires
        all_refuse(ms, arms(cond, then, elifs), vs, k),
        elifs.len() < usize::MAX,
        k < arms(cond, then, elifs).len() ==> gives(
            ms.last(),
            arms(cond, then, elifs)[k as int].0,
            v,
            q,
        ) && truth(v) == Some(true) && runs(q, arms(cond, then, elifs)[k as int].1, 0, f, n),
        k == arms(cond, then, elifs).len() ==> match els {
            Some(b) => runs(ms.last(), b, 0, f, n),
            None => f == normal() && n == ms.last(),
        },
    ensures
        does(ms[0], StmtView::If { cond, then, elifs, els }, f, n),
{
    let s = StmtView::If { cond, then, elifs, els };
    let m = ms[0];
    let p = arms(cond, then, elifs);
    let i = k as int;
    let l = ms.last();
    let g0 = FrameView::If { then, elifs, i: 0, els };
    reveal(Mach::idle);
    reveal(Mach::pop_frame);
    reveal(Mach::push);
    reveal(Mach::eval);
    reveal(Mach::exec);
    reveal(Mach::run_from);
    reveal(Mach::give);
    reveal(Mach::flow);
    reveal(Mach::fail);
    reveal(Mach::task);
    reveal(Mach::set_env);
    reveal(Mach::collect);
    assert forall|fs: Seq<FrameView>| #[trigger] does_at(m, s, f, n, fs) by {
        let a = at(m, fs, CtrlView::Exec { s: s });
        let z = at(n, fs, CtrlView::Flow { f: f });
        assert(step_spec(a) == at(m, fs.push(g0), CtrlView::Eval { e: cond }));
        assert(p[0] == (cond, then));
        if k > 0 {
            arms_go(ms, cond, then, elifs, els, vs, k, fs, 0);
        }
        let c = crate::interp::if_next(at(l, fs, CtrlView::Await), elifs, (k - 1) as usize, els);
        if k < p.len() {
            let fr = FrameView::If { then: p[i].1, elifs, i: k as usize, els };
            assert(k > 0 ==> p[i] == elifs[i - 1]);
            let d = at(l, fs.push(fr), CtrlView::Eval { e: p[i].0 });
            assert(k > 0 ==> c == d);
            let b = at(q, fs.push(fr), CtrlView::Value { v });
            assert(gives_at(l, p[i].0, v, q, fs.push(fr)));
            assert(fs.push(fr).drop_last() =~= fs);
            assert(step_spec(b) == at(q, fs, CtrlView::Run { stmts: p[i].1, i: 0 }));
            assert(runs_at(q, p[i].1, 0, f, n, fs));
            step_leads(b, z);
            leads_on(d, b, z);
            if k > 0 {
                leads_on(step_spec(a), c, z);
            }
        } else {
            match els {
                Some(b) => {
                    assert(runs_at(l, b, 0, f, n, fs));
                },
                None => {
                    leads_here(z);
                },
            }
            leads_on(step_spec(a), c, z);
        }
        step_leads(a, z);
    }
}

/// `while` ends where its condition is false; where it is true it runs its body, and then
/// begins again: also after a `continue`. After a `break` the loop is over, and a `return`
/// leaves it.
pub proof fn while_loops(
    m: Mach,
    cond: ExprView,
    body: Seq<StmtView>,
    v: ValueView,
    k: Mach,
    f: FlowView,
    q: Mach,
    g: FlowView,
    n: Mach,
)
    requires
        gives(m, cond, v, k),
    ensures
        truth(v) == Some(false) ==> does(m, StmtView::While { cond, body }, normal(), k),
        truth(v) == Some(true) && runs(k, body, 0, FlowView::Break, q) ==> does(
            m,
            StmtView::While { cond, body },
            normal(),
            q,
        ),
        truth(v) == Some(true) && runs(k, body, 0, f, q) && (f is Return || f is TailCall) ==> does(
            m,
            StmtView::While { cond, body },
            f,
            q,
        ),
        truth(v) == Some(true) && runs(k, body, 0, f, q) && (f == normal() || f is Continue) && does(q, StmtView::While { cond, body }, g, n) ==> does(
            m,
            StmtView::While { cond, body },
            g,
            n,
        ),
{
    let s = StmtView::While { cond, body };
    let fw = FrameView::While { cond, body };
    let fb = FrameView::WhileBody { cond, body };
    if truth(v) == Some(false) {
    reveal(Mach::idle);
    reveal(Mach::pop_frame);
    reveal(Mach::push);
    reveal(Mach::eval);
    reveal(Mach::exec);
    reveal(Mach::run_from);
    reveal(Mach::give);
    reveal(Mach::flow);
    reveal(Mach::fail);
    reveal(Mach::task);
    reveal(Mach::set_env);
    reveal(Mach::collect);
    assert forall|fs: Seq<FrameView>| #[trigger] does_at(m, s, normal(), k, fs) by {
        let a = at(m, fs, CtrlView::Exec { s: s });
        let z = at(k, fs, CtrlView::Flow { f: normal() });
        assert(fs.push(fw).drop_last() =~= fs);
        leads_here(z);
        part(a, m, fs, fw, cond, v, k, z);
    }
    }
    if truth(v) == Some(true) && runs(k, body, 0, FlowView::Break, q) {
        while_round(m, cond, body, v, k, FlowView::Break, q, normal(), q);
    }
    if truth(v) == Some(true) && runs(k, body, 0, f, q) && (f is Return || f is TailCall) {
        while_round(m, cond, body, v, k, f, q, f, q);
    }
    if truth(v) == Some(true) && runs(k, body, 0, f, q) && (
        f == normal() || f is Continue
    ) && does(q, s, g, n) {
        while_round(m, cond, body, v, k, f, q, g, n);
    }
}

/// A round of a `while`.
proof fn while_round(
    m: Mach,
    cond: ExprView,
    body: Seq<StmtView>,
    v: ValueView,
    k: Mach,
    f: FlowView,
    q: Mach,
    g: FlowView,
    n: Mach,
)
    requires
        gives(m, cond, v, k),
        truth(v) == Some(true),
        runs(k, body, 0, f, q),
        match f {
            FlowView::Break => g == normal() && n == q,
            FlowView::Return { .. } => g == f && n == q,
            FlowView::TailCall { .. } => g == f && n == q,
            _ => does(q, StmtView::While { cond, body }, g, n),
        },
    ensures
        does(m, StmtView::While { cond, body }, g, n),
{
    let s = StmtView::While { cond, body };
    let fw = FrameView::While { cond, body };
    let fb = FrameView::WhileBody { cond, body };
    reveal(Mach::idle);
    reveal(Mach::pop_frame);
    reveal(Mach::push);
    reveal(Mach::eval);
    reveal(Mach::exec);
    reveal(Mach::run_from);
    reveal(Mach::give);
    reveal(Mach::flow);
    reveal(Mach::fail);
    reveal(Mach::task);
    reveal(Mach::set_env);
    reveal(Mach::collect);
    assert forall|fs: Seq<FrameView>| #[trigger] does_at(m, s, g, n, fs) by {
        let a = at(m, fs, CtrlView::Exec { s: s });
        let z = at(n, fs, CtrlView::Flow { f: g });
        assert(fs.push(fw).drop_last() =~= fs);
        assert(fs.push(fb).drop_last() =~= fs);
        let b = at(k, fs.push(fw), CtrlView::Value { v });
        let y = at(q, fs.push(fb), CtrlView::Flow { f });
        assert(runs_at(k, body, 0, f, q, fs.push(fb)));
        assert(step_spec(b) == at(k, fs.push(fb), CtrlView::Run { stmts: body, i: 0 }));
        leads_here(z);
        if f is Break || f is Return || f is TailCall {
            assert(step_spec(y) == z);
        } else {
            assert(does_at(q, s, g, n, fs));
            let w = at(q, fs, CtrlView::Exec { s });
            assert(step_spec(y) == at(q, fs.push(fw), CtrlView::Eval { e: cond }));
            assert(step_spec(w) == step_spec(y));
            unstep(w, z);
        }
        step_leads(y, z);
        leads_on(step_spec(b), y, z);
        part(a, m, fs, fw, cond, v, k, z);
    }
}

/// A run to another state goes through the first step.
proof fn unstep(a: Mach, b: Mach)
    requires
        leads(a, b),
        a != b,
    ensures
        leads(step_spec(a), b),
{
    reveal(leads);
    let n = choose|n: nat| ran(a, n) == b;
    assert(n > 0);
    assert(ran(step_spec(a), (n - 1) as nat) == b);
}

/// Rounds of a loop over items that go to their end, or to a `continue`.
pub open spec fn full_rounds(
    ms: Seq<Mach>,
    qs: Seq<FlowView>,
    var: Seq<char>,
    body: Seq<StmtView>,
    items: Seq<ValueView>,
    k: nat,
) -> bool {
    &&& ms.len() == k + 1
    &&& qs.len() == k
    &&& k <= items.len()
    &&& forall|i: int|
        0 <= i < k ==> #[trigger] runs(
            with_var(ms[i], var, items[i]),
            body,
            0,
            qs[i],
            ms[i + 1],
        ) && (qs[i] == normal() || qs[i] is Continue)
}

/// How a loop over items ends after `k` full rounds: there are no more items, or the next
/// round leaves it.
pub open spec fn loop_end(
    m: Mach,
    var: Seq<char>,
    body: Seq<StmtView>,
    items: Seq<ValueView>,
    k: nat,
    f: FlowView,
    n: Mach,
) -> bool {
    if k == items.len() {
        f == normal() && n == m
    } else {
        exists|g: FlowView| #[trigger]
            runs(with_var(m, var, items[k as int]), body, 0, g, n) && match g {
                FlowView::Break => f == normal(),
                FlowView::Return { .. } => f == g,
                FlowView::TailCall { .. } => f == g,
                _ => false,
            }
    }
}

/// The rounds of a loop over items, from the `j`-th on.
#[verifier::rlimit(40)]
proof fn for_rounds(
    ms: Seq<Mach>,
    qs: Seq<FlowView>,
    var: Seq<char>,
    body: Seq<StmtView>,
    items: Seq<ValueView>,
    k: nat,
    f: FlowView,
    n: Mach,
    fs: Seq<FrameView>,
    j: nat,
)
    requires
        full_rounds(ms, qs, var, body, items, k),
        j <= k <= items.len(),
        items.len() <= usize::MAX,
        loop_end(ms.last(), var, body, items, k, f, n),
    ensures
        leads(
            for_next(at(ms[j as int], fs, CtrlView::Await), var, body, items, j as usize),
            at(n, fs, CtrlView::Flow { f }),
        ),
    decreases k - j,
{
    reveal(Mach::idle);
    reveal(Mach::pop_frame);
    reveal(Mach::push);
    reveal(Mach::eval);
    reveal(Mach::exec);
    reveal(Mach::run_from);
    reveal(Mach::give);
    reveal(Mach::flow);
    reveal(Mach::fail);
    reveal(Mach::task);
    reveal(Mach::set_env);
    reveal(Mach::collect);
    let i = j as int;
    let a = for_next(at(ms[i], fs, CtrlView::Await), var, body, items, j as usize);
    let z = at(n, fs, CtrlView::Flow { f });
    let fr = FrameView::ForBody { var, body, items, i: (i + 1) as usize };
    assert(fs.push(fr).drop_last() =~= fs);
    if j < k {
        let s = with_var(ms[i], var, items[i]);
        for_rounds(ms, qs, var, body, items, k, f, n, fs, j + 1);
        assert(runs(s, body, 0, qs[i], ms[i + 1]));
        assert(runs_at(s, body, 0, qs[i], ms[i + 1], fs.push(fr)));
        let y = at(ms[i + 1], fs.push(fr), CtrlView::Flow { f: qs[i] });
        assert(
            step_spec(y) == for_next(
                at(ms[i + 1], fs, CtrlView::Await),
                var,
                body,
                items,
                (j + 1) as usize,
            )
        );
        step_leads(y, z);
        leads_on(a, y, z);
    } else if k == items.len() {
        leads_here(z);
    } else {
        let s = with_var(ms[i], var, items[i]);
        let g = choose|g: FlowView| #[trigger] runs(s, body, 0, g, n) && match g {
            FlowView::Break => f == normal(),
            FlowView::Return { .. } => f == g,
            FlowView::TailCall { .. } => f == g,
            _ => false,
        };
        assert(runs_at(s, body, 0, g, n, fs.push(fr)));
        let y = at(n, fs.push(fr), CtrlView::Flow { f: g });
        assert(step_spec(y) == z);
        last_step(y, z);
        leads_on(a, y, z);
    }
}

/// `for` sets its variable to each item in turn and runs its body: to the last item, or up
/// to a `break`, after which the loop is over, or a `return`, which leaves it.
pub proof fn for_loops(
    m: Mach,
    var: Seq<char>,
    iter: ExprView,
    body: Seq<StmtView>,
    x: ValueView,
    items: Seq<ValueView>,
    ms: Seq<Mach>,
    qs: Seq<FlowView>,
    k: nat,
    f: FlowView,
    n: Mach,
)
    requires
        !(iter is Range),
        gives(m, iter, x, ms[0]),
        items_of(ms[0].heap, x) == Some(items),
        items.len() <= usize::MAX,
        full_rounds(ms, qs, var, body, items, k),
        loop_end(ms.last(), var, body, items, k, f, n),
    ensures
        does(m, StmtView::For { var, iter, body }, f, n),
{
    let s = StmtView::For { var, iter, body };
    let fr = FrameView::Iter { use_: UseView::For { var, body } };
    reveal(Mach::idle);
    reveal(Mach::pop_frame);
    reveal(Mach::push);
    reveal(Mach::eval);
    reveal(Mach::exec);
    reveal(Mach::run_from);
    reveal(Mach::give);
    reveal(Mach::flow);
    reveal(Mach::fail);
    reveal(Mach::task);
    reveal(Mach::set_env);
    reveal(Mach::collect);
    assert forall|fs: Seq<FrameView>| #[trigger] does_at(m, s, f, n, fs) by {
        let a = at(m, fs, CtrlView::Exec { s: s });
        let z = at(n, fs, CtrlView::Flow { f: f });
        assert(fs.push(fr).drop_last() =~= fs);
        for_rounds(ms, qs, var, body, items, k, f, n, fs, 0);
        part(a, m, fs, fr, iter, x, ms[0], z);
    }
}

/// `for` over a range counts from its lower bound up to, but not including, its upper bound.
pub proof fn for_counts(
    m: Mach,
    var: Seq<char>,
    lo: ExprView,
    hi: ExprView,
    body: Seq<StmtView>,
    x: i64,
    p: Mach,
    y: i64,
    items: Seq<ValueView>,
    ms: Seq<Mach>,
    qs: Seq<FlowView>,
    k: nat,
    f: FlowView,
    n: Mach,
)
    requires
        gives(m, lo, ValueView::Int(x), p),
        gives(p, hi, ValueView::Int(y), ms[0]),
        items.len() == (if x < y { y - x } else { 0 }),
        forall|i: int| 0 <= i < items.len() ==> #[trigger] items[i] == ValueView::Int((x + i) as i64),
        items.len() <= usize::MAX,
        full_rounds(ms, qs, var, body, items, k),
        loop_end(ms.last(), var, body, items, k, f, n),
    ensures
        does(
            m,
            StmtView::For {
                var,
                iter: ExprView::Range { lo: Box::new(lo), hi: Box::new(hi) },
                body,
            },
            f,
            n,
        ),
{
    let s = StmtView::For {
        var,
        iter: ExprView::Range { lo: Box::new(lo), hi: Box::new(hi) },
        body,
    };
    let use_ = UseView::For { var, body };
    let fl = FrameView::RangeLo { hi, use_ };
    let fr = FrameView::RangeHi { lo: ValueView::Int(x), use_ };
    assert(range_items(ValueView::Int(x), ValueView::Int(y))->0 =~= items);
    reveal(Mach::idle);
    reveal(Mach::pop_frame);
    reveal(Mach::push);
    reveal(Mach::eval);
    reveal(Mach::exec);
    reveal(Mach::run_from);
    reveal(Mach::give);
    reveal(Mach::flow);
    reveal(Mach::fail);
    reveal(Mach::task);
    reveal(Mach::set_env);
    reveal(Mach::collect);
    assert forall|fs: Seq<FrameView>| #[trigger] does_at(m, s, f, n, fs) by {
        let a = at(m, fs, CtrlView::Exec { s: s });
        let z = at(n, fs, CtrlView::Flow { f: f });
        assert(fs.push(fl).drop_last() =~= fs);
        assert(fs.push(fr).drop_last() =~= fs);
        for_rounds(ms, qs, var, body, items, k, f, n, fs, 0);
        let b = at(p, fs.push(fl), CtrlView::Value { v: ValueView::Int(x) });
        assert(step_spec(b) == at(p, fs.push(fr), CtrlView::Eval { e: hi }));
        part(b, p, fs, fr, hi, ValueView::Int(y), ms[0], z);
        unstep(b, z);
        part(a, m, fs, fl, lo, ValueView::Int(x), p, z);
    }
}

/// A `try` that does not fail ends as its body ends; one that fails runs its `catch` block
/// with the message in its variable.
pub proof fn try_catch(
    m: Mach,
    body: Seq<StmtView>,
    var: Seq<char>,
    handler: Seq<StmtView>,
    f: FlowView,
    n: Mach,
    t: Seq<char>,
    k: Mach,
)
    ensures
        runs(m, body, 0, f, n) ==> does(
            m,
            StmtView::Try { body, catch_var: var, catch_body: handler },
            f,
            n,
        ),
        breaks(m, body, 0, t, k) && runs(with_var(k, var, ValueView::Str(t)), handler, 0, f, n) ==> does(
            m,
            StmtView::Try { body, catch_var: var, catch_body: handler },
            f,
            n,
        ),
{
    let s = StmtView::Try { body, catch_var: var, catch_body: handler };
    let fr = FrameView::Try { var, body: handler };
    if runs(m, body, 0, f, n) {
    reveal(Mach::idle);
    reveal(Mach::pop_frame);
    reveal(Mach::push);
    reveal(Mach::eval);
    reveal(Mach::exec);
    reveal(Mach::run_from);
    reveal(Mach::give);
    reveal(Mach::flow);
    reveal(Mach::fail);
    reveal(Mach::task);
    reveal(Mach::set_env);
    reveal(Mach::collect);
    assert forall|fs: Seq<FrameView>| #[trigger] does_at(m, s, f, n, fs) by {
        let a = at(m, fs, CtrlView::Exec { s: s });
        let z = at(n, fs, CtrlView::Flow { f: f });
        assert(fs.push(fr).drop_last() =~= fs);
        assert(runs_at(m, body, 0, f, n, fs.push(fr)));
        let y = at(n, fs.push(fr), CtrlView::Flow { f });
        last_step(y, z);
        leads_on(step_spec(a), y, z);
        step_leads(a, z);
    }
    }
    if breaks(m, body, 0, t, k) && runs(with_var(k, var, ValueView::Str(t)), handler, 0, f, n) {
    reveal(Mach::idle);
    reveal(Mach::pop_frame);
    reveal(Mach::push);
    reveal(Mach::eval);
    reveal(Mach::exec);
    reveal(Mach::run_from);
    reveal(Mach::give);
    reveal(Mach::flow);
    reveal(Mach::fail);
    reveal(Mach::task);
    reveal(Mach::set_env);
    reveal(Mach::collect);
    assert forall|fs: Seq<FrameView>| #[trigger] does_at(m, s, f, n, fs) by {
        let a = at(m, fs, CtrlView::Exec { s: s });
        let z = at(n, fs, CtrlView::Flow { f: f });
        assert(fs.push(fr).drop_last() =~= fs);
        assert(breaks_at(m, body, 0, t, k, fs.push(fr)));
        assert(runs_at(with_var(k, var, ValueView::Str(t)), handler, 0, f, n, fs));
        let y = at(k, fs.push(fr), CtrlView::Error { m: t });
        step_leads(y, z);
        leads_on(step_spec(a), y, z);
        step_leads(a, z);
    }
    }
}

/// A failure inside a block passes by the statements behind it.
pub proof fn failure_passes(m: Mach, b: Seq<StmtView>, i: usize, e: ExprView, t: Seq<char>, n: Mach)
    requires
        i < b.len(),
        b.len() <= usize::MAX,
        fails(m, e, t, n),
        b[i as int] == StmtView::ExprStmt(e) || (b[i as int] is Let && b[i as int]->Let_value == e)
            || (b[i as int] is Return && b[i as int]->Return_0 == Some(e) && !(e is Call)),
    ensures
        breaks(m, b, i, t, n),
{
    reveal(Mach::idle);
    reveal(Mach::pop_frame);
    reveal(Mach::push);
    reveal(Mach::eval);
    reveal(Mach::exec);
    reveal(Mach::run_from);
    reveal(Mach::give);
    reveal(Mach::flow);
    reveal(Mach::fail);
    reveal(Mach::task);
    reveal(Mach::set_env);
    reveal(Mach::collect);
    assert forall|fs: Seq<FrameView>| #[trigger] breaks_at(m, b, i, t, n, fs) by {
        let fb = FrameView::Block { stmts: b, i: (i + 1) as usize };
        let s = b[i as int];
        let fr = match s {
            StmtView::ExprStmt(_) => FrameView::Drop,
            StmtView::Let { name, .. } => FrameView::Let { name },
            _ => FrameView::Ret,
        };
        let gs = fs.push(fb);
        assert(gs.push(fr).drop_last() =~= gs);
        assert(gs.drop_last() =~= fs);
        let a = at(m, fs, CtrlView::Run { stmts: b, i });
        let c = at(m, gs, CtrlView::Exec { s });
        assert(step_spec(a) == c);
        assert(step_spec(c) == at(m, gs.push(fr), CtrlView::Eval { e }));
        assert(fails_at(m, e, t, n, gs.push(fr)));
        let x = at(n, gs.push(fr), CtrlView::Error { m: t });
        let y = at(n, gs, CtrlView::Error { m: t });
        let z = at(n, fs, CtrlView::Error { m: t });
        assert(step_spec(x) == y);
        assert(step_spec(y) == z);
        last_step(y, z);
        step_leads(x, z);
        leads_on(step_spec(c), x, z);
        step_leads(c, z);
        step_leads(a, z);
    }
}

} // verus!
