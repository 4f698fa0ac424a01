//! The state of the interpreter: a machine that takes one small step at a time. What is
//! still to be done stands on a stack of frames, so that neither the depth of a program
//! nor its length is bound by the host's stack.

use crate::ast::{
    elifs_view, exprs_view, fields_view, named_view, optblock_view, optbox_view, pairs_view,
    params_view, parts_view, prog_view, stmts_view, BinOp, Expr, ExprView, FStrPart, FStrPartView,
    Field, FieldView, FnDef, FnDefView, Item, ItemView, Param, ParamView, Stmt, StmtView, UnOp,
};
use crate::cbuf::{bits64, cset, in_buffer, low_bytes, outside_text, written};
use crate::names::{NameMap, NameSet};
use crate::operate::{run_task, task_out, Action, ActionView, Out, Task, TaskView};
use crate::text::str_eq;
use crate::value::{
    dict_at, entry_get, entry_remove, entry_set, heap_view, list_at, members_view, opt_value,
    texts_map, values_push, values_view, Obj, ObjView, Value, ValueView,
};
use std::collections::HashMap;
use vstd::prelude::*;

verus! {

broadcast use vstd::std_specs::hash::group_hash_axioms;

pub open spec fn env_view(m: Map<Seq<char>, Value>) -> Map<Seq<char>, ValueView> {
    m.map_values(|v: Value| v@)
}

pub open spec fn tail_view(o: Option<(String, usize)>) -> Option<(Seq<char>, usize)> {
    match o {
        Some((s, n)) => Some((s@, n)),
        None => None,
    }
}

/// How a statement ends.
#[derive(Debug)]
pub enum Flow {
    Normal,
    Return { v: Value },
    TailCall { vals: Vec<Value> },
    Break,
    Continue,
}

pub enum FlowView {
    Normal,
    Return { v: ValueView },
    TailCall { vals: Seq<ValueView> },
    Break,
    Continue,
}

impl View for Flow {
    type V = FlowView;

    open spec fn view(&self) -> FlowView {
        match *self {
            Flow::Normal => FlowView::Normal,
            Flow::Return { v } => FlowView::Return { v: v@ },
            Flow::TailCall { vals } => FlowView::TailCall { vals: values_view(vals@) },
            Flow::Break => FlowView::Break,
            Flow::Continue => FlowView::Continue,
        }
    }
}

/// Expressions that are evaluated in turn.
#[derive(Debug)]
pub enum Src<'a> {
    Exprs { s: &'a Vec<Expr> },
    Pairs { s: &'a Vec<(Expr, Expr)> },
    Named { s: &'a Vec<(String, Expr)> },
}

pub enum SrcView {
    Exprs { s: Seq<ExprView> },
    Pairs { s: Seq<(ExprView, ExprView)> },
    Named { s: Seq<(Seq<char>, ExprView)> },
}

impl<'a> View for Src<'a> {
    type V = SrcView;

    open spec fn view(&self) -> SrcView {
        match *self {
            Src::Exprs { s } => SrcView::Exprs { s: exprs_view(s@) },
            Src::Pairs { s } => SrcView::Pairs { s: pairs_view(s@) },
            Src::Named { s } => SrcView::Named { s: named_view(s@) },
        }
    }
}

/// What values that were evaluated in turn are for.
#[derive(Debug)]
pub enum Kind<'a> {
    List,
    MapLit,
    Closure { def: usize },
    Module { module: &'a str, name: &'a str },
    Call { name: &'a str },
    CallValue { f: Value },
    Method { def: usize, recv: Value },
    Push { list: usize },
    Named { name: &'a str, args: &'a Vec<(String, Expr)> },
    Tail { saved: Option<(String, usize)> },
}

pub enum KindView {
    List,
    MapLit,
    Closure { def: usize },
    Module { module: Seq<char>, name: Seq<char> },
    Call { name: Seq<char> },
    CallValue { f: ValueView },
    Method { def: usize, recv: ValueView },
    Push { list: usize },
    Named { name: Seq<char>, args: Seq<(Seq<char>, ExprView)> },
    Tail { saved: Option<(Seq<char>, usize)> },
}

impl<'a> View for Kind<'a> {
    type V = KindView;

    open spec fn view(&self) -> KindView {
        match *self {
            Kind::List => KindView::List,
            Kind::MapLit => KindView::MapLit,
            Kind::Closure { def } => KindView::Closure { def: def },
            Kind::Module { module, name } => KindView::Module { module: module@, name: name@ },
            Kind::Call { name } => KindView::Call { name: name@ },
            Kind::CallValue { f } => KindView::CallValue { f: f@ },
            Kind::Method { def, recv } => KindView::Method { def: def, recv: recv@ },
            Kind::Push { list } => KindView::Push { list: list },
            Kind::Named { name, args } => KindView::Named { name: name@, args: named_view(args@) },
            Kind::Tail { saved } => KindView::Tail { saved: tail_view(saved) },
        }
    }
}

/// What items are for.
#[derive(Debug)]
pub enum Use<'a> {
    List,
    For { var: &'a str, body: &'a Vec<Stmt> },
    Comp { elem: &'a Expr, var: &'a str, cond: &'a Option<Box<Expr>> },
}

pub enum UseView {
    List,
    For { var: Seq<char>, body: Seq<StmtView> },
    Comp { elem: ExprView, var: Seq<char>, cond: Option<Box<ExprView>> },
}

impl<'a> View for Use<'a> {
    type V = UseView;

    open spec fn view(&self) -> UseView {
        match *self {
            Use::List => UseView::List,
            Use::For { var, body } => UseView::For { var: var@, body: stmts_view(body@) },
            Use::Comp { elem, var, cond } => UseView::Comp {
                elem: elem@,
                var: var@,
                cond: optbox_view(*cond),
            },
        }
    }
}

/// What remains to be done with a value or at the end of a statement.
#[derive(Debug)]
pub enum Frame<'a> {
    Args { kind: Kind<'a>, src: Src<'a>, vals: Vec<Value> },
    FStr { parts: &'a Vec<FStrPart>, i: usize, acc: String },
    FStrText { parts: &'a Vec<FStrPart>, i: usize, acc: String },
    Unary { op: UnOp },
    BinL { op: BinOp, rhs: &'a Expr },
    BinR { op: BinOp, left: Value },
    ShortL { op: BinOp, rhs: &'a Expr },
    ShortR,
    IndexObj { index: &'a Expr },
    IndexAt { obj: Value },
    SliceObj { lo: &'a Option<Box<Expr>>, hi: &'a Option<Box<Expr>> },
    SliceLo { obj: Value, hi: &'a Option<Box<Expr>> },
    SliceHi { obj: Value, lo: Option<i64> },
    Field { name: &'a str },
    Recv { name: &'a str, args: &'a Vec<Expr> },
    Meth1 { recv: Value, name: &'a str, args: &'a Vec<Expr> },
    Meth2 { recv: Value, first: Value },
    Callee { args: &'a Vec<Expr> },
    Cond { then: &'a Expr, els: &'a Expr },
    RangeLo { hi: &'a Expr, use_: Use<'a> },
    RangeHi { lo: Value, use_: Use<'a> },
    Iter { use_: Use<'a> },
    CompCond {
        elem: &'a Expr,
        var: &'a str,
        cond: &'a Option<Box<Expr>>,
        items: Vec<Value>,
        i: usize,
        out: Vec<Value>,
        saved: Option<Value>,
    },
    CompElem {
        elem: &'a Expr,
        var: &'a str,
        cond: &'a Option<Box<Expr>>,
        items: Vec<Value>,
        i: usize,
        out: Vec<Value>,
        saved: Option<Value>,
    },
    ForBody { var: &'a str, body: &'a Vec<Stmt>, items: Vec<Value>, i: usize },
    Let { name: &'a str },
    AssignTo { target: &'a Expr },
    AssignField { name: &'a str, val: Value },
    AssignIdx { index: &'a Expr, val: Value },
    AssignAt { obj: Value, val: Value },
    Drop,
    Ret,
    If {
        then: &'a Vec<Stmt>,
        elifs: &'a Vec<(Expr, Vec<Stmt>)>,
        i: usize,
        els: &'a Option<Vec<Stmt>>,
    },
    While { cond: &'a Expr, body: &'a Vec<Stmt> },
    WhileBody { cond: &'a Expr, body: &'a Vec<Stmt> },
    Raise,
    Try { var: &'a str, body: &'a Vec<Stmt> },
    Block { stmts: &'a Vec<Stmt>, i: usize },
    Call { env: NameMap<Value>, tail: Option<(String, usize)>, tramp: Option<usize> },
    Top { prog: &'a Vec<Item>, i: usize, called: bool },
    TopEnd,
}

pub enum FrameView {
    Args { kind: KindView, src: SrcView, vals: Seq<ValueView> },
    FStr { parts: Seq<FStrPartView>, i: usize, acc: Seq<char> },
    FStrText { parts: Seq<FStrPartView>, i: usize, acc: Seq<char> },
    Unary { op: UnOp },
    BinL { op: BinOp, rhs: ExprView },
    BinR { op: BinOp, left: ValueView },
    ShortL { op: BinOp, rhs: ExprView },
    ShortR,
    IndexObj { index: ExprView },
    IndexAt { obj: ValueView },
    SliceObj { lo: Option<Box<ExprView>>, hi: Option<Box<ExprView>> },
    SliceLo { obj: ValueView, hi: Option<Box<ExprView>> },
    SliceHi { obj: ValueView, lo: Option<i64> },
    Field { name: Seq<char> },
    Recv { name: Seq<char>, args: Seq<ExprView> },
    Meth1 { recv: ValueView, name: Seq<char>, args: Seq<ExprView> },
    Meth2 { recv: ValueView, first: ValueView },
    Callee { args: Seq<ExprView> },
    Cond { then: ExprView, els: ExprView },
    RangeLo { hi: ExprView, use_: UseView },
    RangeHi { lo: ValueView, use_: UseView },
    Iter { use_: UseView },
    CompCond {
        elem: ExprView,
        var: Seq<char>,
        cond: Option<Box<ExprView>>,
        items: Seq<ValueView>,
        i: usize,
        out: Seq<ValueView>,
        saved: Option<ValueView>,
    },
    CompElem {
        elem: ExprView,
        var: Seq<char>,
        cond: Option<Box<ExprView>>,
        items: Seq<ValueView>,
        i: usize,
        out: Seq<ValueView>,
        saved: Option<ValueView>,
    },
    ForBody { var: Seq<char>, body: Seq<StmtView>, items: Seq<ValueView>, i: usize },
    Let { name: Seq<char> },
    AssignTo { target: ExprView },
    AssignField { name: Seq<char>, val: ValueView },
    AssignIdx { index: ExprView, val: ValueView },
    AssignAt { obj: ValueView, val: ValueView },
    Drop,
    Ret,
    If {
        then: Seq<StmtView>,
        elifs: Seq<(ExprView, Seq<StmtView>)>,
        i: usize,
        els: Option<Seq<StmtView>>,
    },
    While { cond: ExprView, body: Seq<StmtView> },
    WhileBody { cond: ExprView, body: Seq<StmtView> },
    Raise,
    Try { var: Seq<char>, body: Seq<StmtView> },
    Block { stmts: Seq<StmtView>, i: usize },
    Call { env: Map<Seq<char>, ValueView>, tail: Option<(Seq<char>, usize)>, tramp: Option<usize> },
    Top { prog: Seq<ItemView>, i: usize, called: bool },
    TopEnd,
}

impl<'a> View for Frame<'a> {
    type V = FrameView;

    open spec fn view(&self) -> FrameView {
        match *self {
            Frame::Args { kind, src, vals } => FrameView::Args {
                kind: kind@,
                src: src@,
                vals: values_view(vals@),
            },
            Frame::FStr { parts, i, acc } => FrameView::FStr {
                parts: parts_view(parts@),
                i: i,
                acc: acc@,
            },
            Frame::FStrText { parts, i, acc } => FrameView::FStrText {
                parts: parts_view(parts@),
                i: i,
                acc: acc@,
            },
            Frame::Unary { op } => FrameView::Unary { op: op },
            Frame::BinL { op, rhs } => FrameView::BinL { op: op, rhs: rhs@ },
            Frame::BinR { op, left } => FrameView::BinR { op: op, left: left@ },
            Frame::ShortL { op, rhs } => FrameView::ShortL { op: op, rhs: rhs@ },
            Frame::ShortR => FrameView::ShortR,
            Frame::IndexObj { index } => FrameView::IndexObj { index: index@ },
            Frame::IndexAt { obj } => FrameView::IndexAt { obj: obj@ },
            Frame::SliceObj { lo, hi } => FrameView::SliceObj {
                lo: optbox_view(*lo),
                hi: optbox_view(*hi),
            },
            Frame::SliceLo { obj, hi } => FrameView::SliceLo { obj: obj@, hi: optbox_view(*hi) },
            Frame::SliceHi { obj, lo } => FrameView::SliceHi { obj: obj@, lo: lo },
            Frame::Field { name } => FrameView::Field { name: name@ },
            Frame::Recv { name, args } => FrameView::Recv { name: name@, args: exprs_view(args@) },
            Frame::Meth1 { recv, name, args } => FrameView::Meth1 {
                recv: recv@,
                name: name@,
                args: exprs_view(args@),
            },
            Frame::Meth2 { recv, first } => FrameView::Meth2 { recv: recv@, first: first@ },
            Frame::Callee { args } => FrameView::Callee { args: exprs_view(args@) },
            Frame::Cond { then, els } => FrameView::Cond { then: then@, els: els@ },
            Frame::RangeLo { hi, use_ } => FrameView::RangeLo { hi: hi@, use_: use_@ },
            Frame::RangeHi { lo, use_ } => FrameView::RangeHi { lo: lo@, use_: use_@ },
            Frame::Iter { use_ } => FrameView::Iter { use_: use_@ },
            Frame::CompCond { elem, var, cond, items, i, out, saved } => FrameView::CompCond {
                elem: elem@,
                var: var@,
                cond: optbox_view(*cond),
                items: values_view(items@),
                i: i,
                out: values_view(out@),
                saved: opt_value(saved),
            },
            Frame::CompElem { elem, var, cond, items, i, out, saved } => FrameView::CompElem {
                elem: elem@,
                var: var@,
                cond: optbox_view(*cond),
                items: values_view(items@),
                i: i,
                out: values_view(out@),
                saved: opt_value(saved),
            },
            Frame::ForBody { var, body, items, i } => FrameView::ForBody {
                var: var@,
                body: stmts_view(body@),
                items: values_view(items@),
                i: i,
            },
            Frame::Let { name } => FrameView::Let { name: name@ },
            Frame::AssignTo { target } => FrameView::AssignTo { target: target@ },
            Frame::AssignField { name, val } => FrameView::AssignField { name: name@, val: val@ },
            Frame::AssignIdx { index, val } => FrameView::AssignIdx { index: index@, val: val@ },
            Frame::AssignAt { obj, val } => FrameView::AssignAt { obj: obj@, val: val@ },
            Frame::Drop => FrameView::Drop,
            Frame::Ret => FrameView::Ret,
            Frame::If { then, elifs, i, els } => FrameView::If {
                then: stmts_view(then@),
                elifs: elifs_view(elifs@),
                i: i,
                els: optblock_view(*els),
            },
            Frame::While { cond, body } => FrameView::While {
                cond: cond@,
                body: stmts_view(body@),
            },
            Frame::WhileBody { cond, body } => FrameView::WhileBody {
                cond: cond@,
                body: stmts_view(body@),
            },
            Frame::Raise => FrameView::Raise,
            Frame::Try { var, body } => FrameView::Try { var: var@, body: stmts_view(body@) },
            Frame::Block { stmts, i } => FrameView::Block { stmts: stmts_view(stmts@), i: i },
            Frame::Call { env, tail, tramp } => FrameView::Call {
                env: env_view(env@),
                tail: tail_view(tail),
                tramp: tramp,
            },
            Frame::Top { prog, i, called } => FrameView::Top {
                prog: prog_view(prog@),
                i: i,
                called: called,
            },
            Frame::TopEnd => FrameView::TopEnd,
        }
    }
}

/// What is done next.
#[derive(Debug)]
pub enum Ctrl<'a> {
    Eval { e: &'a Expr },
    Exec { s: &'a Stmt },
    Run { stmts: &'a Vec<Stmt>, i: usize },
    Collect { kind: Kind<'a>, src: Src<'a>, vals: Vec<Value> },
    FStr { parts: &'a Vec<FStrPart>, i: usize, acc: String },
    Value { v: Value },
    Flow { f: Flow },
    Error { m: String },
    Task { t: Task },
    NextTop { prog: &'a Vec<Item>, i: usize, called: bool },
    Await,
    Done { val: Option<Value> },
    Failed { m: String },
}

pub enum CtrlView {
    Eval { e: ExprView },
    Exec { s: StmtView },
    Run { stmts: Seq<StmtView>, i: usize },
    Collect { kind: KindView, src: SrcView, vals: Seq<ValueView> },
    FStr { parts: Seq<FStrPartView>, i: usize, acc: Seq<char> },
    Value { v: ValueView },
    Flow { f: FlowView },
    Error { m: Seq<char> },
    Task { t: TaskView },
    NextTop { prog: Seq<ItemView>, i: usize, called: bool },
    Await,
    Done { val: Option<ValueView> },
    Failed { m: Seq<char> },
}

impl<'a> View for Ctrl<'a> {
    type V = CtrlView;

    open spec fn view(&self) -> CtrlView {
        match *self {
            Ctrl::Eval { e } => CtrlView::Eval { e: e@ },
            Ctrl::Exec { s } => CtrlView::Exec { s: s@ },
            Ctrl::Run { stmts, i } => CtrlView::Run { stmts: stmts_view(stmts@), i: i },
            Ctrl::Collect { kind, src, vals } => CtrlView::Collect {
                kind: kind@,
                src: src@,
                vals: values_view(vals@),
            },
            Ctrl::FStr { parts, i, acc } => CtrlView::FStr {
                parts: parts_view(parts@),
                i: i,
                acc: acc@,
            },
            Ctrl::Value { v } => CtrlView::Value { v: v@ },
            Ctrl::Flow { f } => CtrlView::Flow { f: f@ },
            Ctrl::Error { m } => CtrlView::Error { m: m@ },
            Ctrl::Task { t } => CtrlView::Task { t: t@ },
            Ctrl::NextTop { prog, i, called } => CtrlView::NextTop {
                prog: prog_view(prog@),
                i: i,
                called: called,
            },
            Ctrl::Await => CtrlView::Await,
            Ctrl::Done { val } => CtrlView::Done { val: opt_value(val) },
            Ctrl::Failed { m } => CtrlView::Failed { m: m@ },
        }
    }
}

/// A method of a struct, by the number of its function.
pub open spec fn triples_view(s: Seq<(String, String, usize)>) -> Seq<
    (Seq<char>, Seq<char>, usize),
> {
    Seq::new(s.len(), |i: int| (s[i].0@, s[i].1@, s[i].2))
}

pub open spec fn defs_view<'a>(s: Seq<&'a FnDef>) -> Seq<FnDefView> {
    Seq::new(s.len(), |i: int| s[i]@)
}

pub open spec fn structs_view<'a>(
    m: Map<Seq<char>, &'a Vec<Field>>,
) -> Map<Seq<char>, Seq<FieldView>> {
    m.map_values(|f: &'a Vec<Field>| fields_view(f@))
}

/// The state of the machine.
pub struct Mach {
    /// The functions, by number, and the numbers of those that can be named.
    pub defs: Seq<FnDefView>,
    pub funcs: Map<Seq<char>, usize>,
    pub structs: Map<Seq<char>, Seq<FieldView>>,
    pub methods: Seq<(Seq<char>, Seq<char>, usize)>,
    pub externs: Set<Seq<char>>,
    pub heap: Seq<ObjView>,
    pub globals: Map<Seq<char>, ValueView>,
    pub env: Map<Seq<char>, ValueView>,
    /// The function whose call of itself, in a `return`, is a jump.
    pub tail: Option<(Seq<char>, usize)>,
    pub line: u32,
    /// What is known of floats: the texts of some, and some integers as floats.
    pub texts: Map<u64, Seq<char>>,
    pub nums: Map<i64, u64>,
    pub frames: Seq<FrameView>,
    pub ctrl: CtrlView,
    /// What the machine waits for.
    pub ask: Option<ActionView>,
}

/// The environment of a call: the parameters bound to the first `k` arguments.
pub open spec fn bound(ps: Seq<ParamView>, vals: Seq<ValueView>, k: nat) -> Map<
    Seq<char>,
    ValueView,
>
    decreases k,
{
    if k == 0 || k > ps.len() || k > vals.len() {
        Map::empty()
    } else {
        bound(ps, vals, (k - 1) as nat).insert(ps[k - 1].name, vals[k - 1])
    }
}

pub open spec fn least(a: nat, b: nat) -> nat {
    if a <= b {
        a
    } else {
        b
    }
}

pub open spec fn frame_env(ps: Seq<ParamView>, vals: Seq<ValueView>) -> Map<Seq<char>, ValueView> {
    bound(ps, vals, least(ps.len(), vals.len()))
}

/// The number of the method `name` of the struct `owner` among the first `k`; a later
/// one counts.
pub open spec fn method_def(
    ms: Seq<(Seq<char>, Seq<char>, usize)>,
    owner: Seq<char>,
    name: Seq<char>,
    k: nat,
) -> Option<usize>
    decreases k,
{
    if k == 0 || k > ms.len() {
        None
    } else if ms[k - 1].0 == owner && ms[k - 1].1 == name {
        Some(ms[k - 1].2)
    } else {
        method_def(ms, owner, name, (k - 1) as nat)
    }
}

/// The fields with one set, in its place or at the end.
pub open spec fn field_at(s: Seq<(Seq<char>, ValueView)>, name: Seq<char>, i: int) -> Option<int>
    decreases s.len() - i,
{
    if i < 0 || i >= s.len() {
        None
    } else if s[i].0 == name {
        Some(i)
    } else {
        field_at(s, name, i + 1)
    }
}

pub open spec fn field_put(s: Seq<(Seq<char>, ValueView)>, name: Seq<char>, v: ValueView) -> Seq<
    (Seq<char>, ValueView),
> {
    match field_at(s, name, 0) {
        Some(i) => s.update(i, (s[i].0, v)),
        None => s.push((name, v)),
    }
}

pub fn find_field(s: &Vec<(String, Value)>, name: &str) -> (r: Option<usize>)
    ensures
        match r {
            Some(i) => field_at(members_view(s@), name@, 0) == Some(i as int) && i < s@.len(),
            None => field_at(members_view(s@), name@, 0) is None,
        },
{
    let ghost sv = members_view(s@);
    for i in 0..s.len()
        invariant
            sv == members_view(s@),
            field_at(sv, name@, 0) == field_at(sv, name@, i as int),
    {
        assert(sv[i as int] == (s@[i as int].0@, s@[i as int].1@));
        if str_eq(s[i].0.as_str(), name) {
            return Some(i);
        }
    }
    None
}

/// The bytes of a buffer.
pub open spec fn cbuf_at(h: Seq<ObjView>, a: usize) -> Option<Seq<u8>> {
    if a < h.len() {
        match h[a as int] {
            ObjView::CBuf(b) => Some(b),
            _ => None,
        }
    } else {
        None
    }
}

impl Mach {
    #[verifier::opaque]
    pub open spec fn push(self, f: FrameView) -> Mach {
        Mach { frames: self.frames.push(f), ..self }
    }

    #[verifier::opaque]
    pub open spec fn eval(self, e: ExprView) -> Mach {
        Mach { ctrl: CtrlView::Eval { e }, ..self }
    }

    #[verifier::opaque]
    pub open spec fn exec(self, s: StmtView) -> Mach {
        Mach { ctrl: CtrlView::Exec { s }, ..self }
    }

    #[verifier::opaque]
    pub open spec fn run_from(self, stmts: Seq<StmtView>, i: usize) -> Mach {
        Mach { ctrl: CtrlView::Run { stmts, i }, ..self }
    }

    #[verifier::opaque]
    pub open spec fn collect(self, kind: KindView, src: SrcView, vals: Seq<ValueView>) -> Mach {
        Mach { ctrl: CtrlView::Collect { kind, src, vals }, ..self }
    }

    #[verifier::opaque]
    pub open spec fn text_parts(self, parts: Seq<FStrPartView>, i: usize, acc: Seq<char>) -> Mach {
        Mach { ctrl: CtrlView::FStr { parts, i, acc }, ..self }
    }

    #[verifier::opaque]
    pub open spec fn give(self, v: ValueView) -> Mach {
        Mach { ctrl: CtrlView::Value { v }, ..self }
    }

    #[verifier::opaque]
    pub open spec fn flow(self, f: FlowView) -> Mach {
        Mach { ctrl: CtrlView::Flow { f }, ..self }
    }

    #[verifier::opaque]
    pub open spec fn fail(self, m: Seq<char>) -> Mach {
        Mach { ctrl: CtrlView::Error { m }, ..self }
    }

    #[verifier::opaque]
    pub open spec fn task(self, t: TaskView) -> Mach {
        Mach { ctrl: CtrlView::Task { t }, ..self }
    }

    #[verifier::opaque]
    pub open spec fn next_top(self, prog: Seq<ItemView>, i: usize, called: bool) -> Mach {
        Mach { ctrl: CtrlView::NextTop { prog, i, called }, ..self }
    }

    #[verifier::opaque]
    pub open spec fn done(self, val: Option<ValueView>) -> Mach {
        Mach { ctrl: CtrlView::Done { val }, ..self }
    }

    #[verifier::opaque]
    pub open spec fn failed(self, m: Seq<char>) -> Mach {
        Mach { ctrl: CtrlView::Failed { m }, ..self }
    }

    /// Waits for an answer, which is the value.
    #[verifier::opaque]
    pub open spec fn request(self, a: ActionView) -> Mach {
        Mach { ctrl: CtrlView::Await, ask: Some(a), ..self }
    }

    #[verifier::opaque]
    pub open spec fn request_for(self, a: ActionView, t: TaskView) -> Mach {
        Mach { ctrl: CtrlView::Task { t }, ask: Some(a), ..self }
    }

    #[verifier::opaque]
    pub open spec fn set_env(self, n: Seq<char>, v: ValueView) -> Mach {
        Mach { env: self.env.insert(n, v), ..self }
    }

    #[verifier::opaque]
    pub open spec fn del_env(self, n: Seq<char>) -> Mach {
        Mach { env: self.env.remove(n), ..self }
    }

    #[verifier::opaque]
    pub open spec fn set_global(self, n: Seq<char>, v: ValueView) -> Mach {
        Mach { globals: self.globals.insert(n, v), ..self }
    }

    #[verifier::opaque]
    pub open spec fn set_line(self, n: u32) -> Mach {
        Mach { line: n, ..self }
    }

    #[verifier::opaque]
    pub open spec fn set_tail(self, t: Option<(Seq<char>, usize)>) -> Mach {
        Mach { tail: t, ..self }
    }

    /// Adds an object to the heap.
    #[verifier::opaque]
    pub open spec fn add_obj(self, o: ObjView) -> (Mach, usize) {
        (Mach { heap: self.heap.push(o), ..self }, self.heap.len() as usize)
    }

    /// Replaces an object of the heap.
    #[verifier::opaque]
    pub open spec fn store(self, a: usize, o: ObjView) -> Mach {
        if a < self.heap.len() {
            Mach { heap: self.heap.update(a as int, o), ..self }
        } else {
            self
        }
    }

    /// Replaces the items of a list.
    #[verifier::opaque]
    pub open spec fn set_items(self, a: usize, s: Seq<ValueView>) -> Mach {
        match list_at(self.heap, a) {
            Some(_) => self.store(a, ObjView::List(s)),
            None => self,
        }
    }

    #[verifier::opaque]
    pub open spec fn list_push(self, a: usize, v: ValueView) -> Mach {
        match list_at(self.heap, a) {
            Some(s) => self.store(a, ObjView::List(s.push(v))),
            None => self,
        }
    }

    #[verifier::opaque]
    pub open spec fn list_set(self, a: usize, i: usize, v: ValueView) -> Mach {
        match list_at(self.heap, a) {
            Some(s) => if i < s.len() {
                self.store(a, ObjView::List(s.update(i as int, v)))
            } else {
                self
            },
            None => self,
        }
    }

    #[verifier::opaque]
    pub open spec fn list_insert(self, a: usize, i: usize, v: ValueView) -> Mach {
        match list_at(self.heap, a) {
            Some(s) => if i <= s.len() {
                self.store(a, ObjView::List(s.insert(i as int, v)))
            } else {
                self
            },
            None => self,
        }
    }

    #[verifier::opaque]
    pub open spec fn list_pop(self, a: usize) -> (Mach, Option<ValueView>) {
        match list_at(self.heap, a) {
            Some(s) => if s.len() > 0 {
                (self.store(a, ObjView::List(s.drop_last())), Some(s.last()))
            } else {
                (self, None)
            },
            None => (self, None),
        }
    }

    #[verifier::opaque]
    pub open spec fn list_reverse(self, a: usize) -> Mach {
        match list_at(self.heap, a) {
            Some(s) => self.store(a, ObjView::List(s.reverse())),
            None => self,
        }
    }

    #[verifier::opaque]
    pub open spec fn dict_set(self, a: usize, k: ValueView, v: ValueView) -> Mach {
        match dict_at(self.heap, a) {
            Some(m) => self.store(a, ObjView::Dict(entry_set(m, k, v))),
            None => self,
        }
    }

    #[verifier::opaque]
    pub open spec fn dict_remove(self, a: usize, k: ValueView) -> (Mach, Option<ValueView>) {
        match dict_at(self.heap, a) {
            Some(m) => (self.store(a, ObjView::Dict(entry_remove(m, k))), entry_get(m, k)),
            None => (self, None),
        }
    }

    #[verifier::opaque]
    pub open spec fn field_set(self, a: usize, n: Seq<char>, v: ValueView) -> Mach {
        if a < self.heap.len() {
            match self.heap[a as int] {
                ObjView::Struct { name, fields } => self.store(
                    a,
                    ObjView::Struct { name, fields: field_put(fields, n, v) },
                ),
                _ => self,
            }
        } else {
            self
        }
    }

    /// Declares a function that can be named.
    #[verifier::opaque]
    pub open spec fn add_fn(self, f: FnDefView) -> Mach {
        Mach {
            funcs: self.funcs.insert(f.name, self.defs.len() as usize),
            defs: self.defs.push(f),
            ..self
        }
    }

    #[verifier::opaque]
    pub open spec fn add_method(self, owner: Seq<char>, f: FnDefView) -> Mach {
        Mach {
            methods: self.methods.push((owner, f.name, self.defs.len() as usize)),
            defs: self.defs.push(f),
            ..self
        }
    }

    /// Declares a struct. Without fields it leaves those of an earlier declaration.
    #[verifier::opaque]
    pub open spec fn add_struct(self, name: Seq<char>, fields: Seq<FieldView>) -> Mach {
        if fields.len() == 0 && self.structs.contains_key(name) {
            self
        } else {
            Mach { structs: self.structs.insert(name, fields), ..self }
        }
    }

    #[verifier::opaque]
    pub open spec fn add_extern(self, name: Seq<char>) -> Mach {
        Mach { externs: self.externs.insert(name), ..self }
    }

    #[verifier::opaque]
    pub open spec fn clear_env(self) -> Mach {
        Mach { env: Map::empty(), ..self }
    }

    /// The request has been answered.
    #[verifier::opaque]
    pub open spec fn answered(self) -> Mach {
        Mach { ask: None, ..self }
    }

    #[verifier::opaque]
    pub open spec fn learn_text(self, bits: u64, t: Seq<char>) -> Mach {
        Mach { texts: self.texts.insert(bits, t), ..self }
    }

    #[verifier::opaque]
    pub open spec fn learn_float(self, n: i64, bits: u64) -> Mach {
        Mach { nums: self.nums.insert(n, bits), ..self }
    }

    /// The machine without what it was to do.
    #[verifier::opaque]
    pub open spec fn idle(self) -> Mach {
        Mach { ctrl: CtrlView::Await, ..self }
    }

    /// Takes the last frame.
    #[verifier::opaque]
    pub open spec fn pop_frame(self) -> (Mach, Option<FrameView>) {
        if self.frames.len() > 0 {
            (Mach { frames: self.frames.drop_last(), ..self }, Some(self.frames.last()))
        } else {
            (self, None)
        }
    }

    pub open spec fn env_of(self, n: Seq<char>) -> Option<ValueView> {
        if self.env.contains_key(n) {
            Some(self.env[n])
        } else {
            None
        }
    }

    /// The value of a variable.
    pub open spec fn var_of(self, n: Seq<char>) -> Option<ValueView> {
        if self.env.contains_key(n) {
            Some(self.env[n])
        } else if self.globals.contains_key(n) {
            Some(self.globals[n])
        } else {
            None
        }
    }

    pub open spec fn func_of(self, n: Seq<char>) -> Option<usize> {
        if self.funcs.contains_key(n) {
            Some(self.funcs[n])
        } else {
            None
        }
    }

    pub open spec fn fields_of(self, n: Seq<char>) -> Option<Seq<FieldView>> {
        if self.structs.contains_key(n) {
            Some(self.structs[n])
        } else {
            None
        }
    }

    /// The name of a function by its number.
    pub open spec fn def_name(self, d: usize) -> Seq<char> {
        if d < self.defs.len() {
            self.defs[d as int].name
        } else {
            ""@
        }
    }

    /// Starts a call. With `tramp` a tail call of the function to itself is a jump.
    #[verifier::opaque]
    pub open spec fn enter(self, d: usize, vals: Seq<ValueView>, tramp: bool) -> Mach {
        if d < self.defs.len() {
            let f = self.defs[d as int];
            Mach {
                frames: self.frames.push(
                    FrameView::Call {
                        env: self.env,
                        tail: self.tail,
                        tramp: if tramp {
                            Some(d)
                        } else {
                            None
                        },
                    },
                ),
                env: frame_env(f.params, vals),
                tail: if tramp && !f.is_method {
                    Some((f.name, f.params.len() as usize))
                } else {
                    None
                },
                ctrl: CtrlView::Run { stmts: f.body, i: 0 },
                ..self
            }
        } else {
            self.fail("internal: no such function"@)
        }
    }

    /// Starts the body of a call again with new arguments.
    #[verifier::opaque]
    pub open spec fn again(
        self,
        d: usize,
        vals: Seq<ValueView>,
        env: Map<Seq<char>, ValueView>,
        tail: Option<(Seq<char>, usize)>,
    ) -> Mach {
        if d < self.defs.len() {
            let f = self.defs[d as int];
            Mach {
                frames: self.frames.push(FrameView::Call { env, tail, tramp: Some(d) }),
                env: frame_env(f.params, vals),
                ctrl: CtrlView::Run { stmts: f.body, i: 0 },
                ..self
            }
        } else {
            self.fail("internal: no such function"@)
        }
    }

    /// Ends a call.
    #[verifier::opaque]
    pub open spec fn leave(
        self,
        env: Map<Seq<char>, ValueView>,
        tail: Option<(Seq<char>, usize)>,
    ) -> Mach {
        Mach { env, tail, ..self }
    }
}

/// The interpreter.
pub struct Interp<'a> {
    pub(crate) defs: Vec<&'a FnDef>,
    pub(crate) funcs: NameMap<usize>,
    pub(crate) structs: NameMap<&'a Vec<Field>>,
    pub(crate) methods: Vec<(String, String, usize)>,
    pub(crate) externs: NameSet,
    pub(crate) heap: Vec<Obj>,
    pub(crate) globals: NameMap<Value>,
    pub(crate) env: NameMap<Value>,
    pub(crate) tail: Option<(String, usize)>,
    pub(crate) line: u32,
    pub(crate) texts: HashMap<u64, String>,
    pub(crate) nums: HashMap<i64, u64>,
    pub(crate) frames: Vec<Frame<'a>>,
    pub(crate) ctrl: Ctrl<'a>,
    pub(crate) ask: Option<Action>,
}

/// The machine before it knows of any program.
pub open spec fn start() -> Mach {
    Mach {
        defs: Seq::empty(),
        funcs: Map::empty(),
        structs: Map::empty(),
        methods: Seq::empty(),
        externs: Set::empty(),
        heap: Seq::empty(),
        globals: Map::empty(),
        env: Map::empty(),
        tail: None,
        line: 0,
        texts: Map::empty(),
        nums: Map::empty(),
        frames: Seq::empty(),
        ctrl: CtrlView::Done { val: None },
        ask: None,
    }
}

pub open spec fn frames_view<'a>(s: Seq<Frame<'a>>) -> Seq<FrameView> {
    Seq::new(s.len(), |i: int| s[i]@)
}

pub open spec fn ask_view(o: Option<Action>) -> Option<ActionView> {
    match o {
        Some(a) => Some(a@),
        None => None,
    }
}

impl<'a> View for Interp<'a> {
    type V = Mach;

    closed spec fn view(&self) -> Mach {
        Mach {
            defs: defs_view(self.defs@),
            funcs: self.funcs@,
            structs: structs_view(self.structs@),
            methods: triples_view(self.methods@),
            externs: self.externs@,
            heap: heap_view(self.heap@),
            globals: env_view(self.globals@),
            env: env_view(self.env@),
            tail: tail_view(self.tail),
            line: self.line,
            texts: texts_map(self.texts@),
            nums: self.nums@,
            frames: frames_view(self.frames@),
            ctrl: self.ctrl@,
            ask: ask_view(self.ask),
        }
    }
}

/// The environment of a call.
fn bind(ps: &Vec<Param>, vals: Vec<Value>) -> (r: NameMap<Value>)
    ensures
        env_view(r@) == frame_env(params_view(ps@), values_view(vals@)),
{
    let ghost pv = params_view(ps@);
    let ghost vv = values_view(vals@);
    let mut m: NameMap<Value> = NameMap::new();
    assert(env_view(m@) =~= Map::empty());
    let n: usize = if ps.len() <= vals.len() {
        ps.len()
    } else {
        vals.len()
    };
    for i in 0..n
        invariant
            n <= ps@.len(),
            n <= vals@.len(),
            pv == params_view(ps@),
            vv == values_view(vals@),
            env_view(m@) == bound(pv, vv, i as nat),
    {
        assert(pv[i as int] == ps@[i as int]@);
        assert(vv[i as int] == vals@[i as int]@);
        let ghost m0 = m@;
        m.insert(ps[i].name.as_str(), vals[i].clone());
        assert(env_view(m@) =~= env_view(m0).insert(pv[i as int].name, vv[i as int]));
    }
    m
}

impl<'a> Interp<'a> {
    pub(crate) fn push(&mut self, f: Frame<'a>)
        ensures
            final(self)@ == old(self)@.push(f@),
    {
        proof {
            reveal(Mach::push);
        }
        let ghost s0 = self.frames@;
        self.frames.push(f);
        assert(frames_view(self.frames@) =~= frames_view(s0).push(f@));
    }

    pub(crate) fn eval(&mut self, e: &'a Expr)
        ensures
            final(self)@ == old(self)@.eval(e@),
    {
        proof {
            reveal(Mach::eval);
        }
        self.ctrl = Ctrl::Eval { e };
    }

    pub(crate) fn exec(&mut self, s: &'a Stmt)
        ensures
            final(self)@ == old(self)@.exec(s@),
    {
        proof {
            reveal(Mach::exec);
        }
        self.ctrl = Ctrl::Exec { s };
    }

    pub(crate) fn run_from(&mut self, stmts: &'a Vec<Stmt>, i: usize)
        ensures
            final(self)@ == old(self)@.run_from(stmts_view(stmts@), i),
    {
        proof {
            reveal(Mach::run_from);
        }
        self.ctrl = Ctrl::Run { stmts, i };
    }

    pub(crate) fn collect(&mut self, kind: Kind<'a>, src: Src<'a>, vals: Vec<Value>)
        ensures
            final(self)@ == old(self)@.collect(kind@, src@, values_view(vals@)),
    {
        proof {
            reveal(Mach::collect);
        }
        self.ctrl = Ctrl::Collect { kind, src, vals };
    }

    pub(crate) fn text_parts(&mut self, parts: &'a Vec<FStrPart>, i: usize, acc: String)
        ensures
            final(self)@ == old(self)@.text_parts(parts_view(parts@), i, acc@),
    {
        proof {
            reveal(Mach::text_parts);
        }
        self.ctrl = Ctrl::FStr { parts, i, acc };
    }

    pub(crate) fn give(&mut self, v: Value)
        ensures
            final(self)@ == old(self)@.give(v@),
    {
        proof {
            reveal(Mach::give);
        }
        self.ctrl = Ctrl::Value { v };
    }

    pub(crate) fn flow(&mut self, f: Flow)
        ensures
            final(self)@ == old(self)@.flow(f@),
    {
        proof {
            reveal(Mach::flow);
        }
        self.ctrl = Ctrl::Flow { f };
    }

    pub(crate) fn fail(&mut self, m: &str)
        ensures
            final(self)@ == old(self)@.fail(m@),
    {
        proof {
            reveal(Mach::fail);
        }
        self.ctrl = Ctrl::Error { m: m.to_owned() };
    }

    pub(crate) fn task(&mut self, t: Task)
        ensures
            final(self)@ == old(self)@.task(t@),
    {
        proof {
            reveal(Mach::task);
        }
        self.ctrl = Ctrl::Task { t };
    }

    pub(crate) fn next_top(&mut self, prog: &'a Vec<Item>, i: usize, called: bool)
        ensures
            final(self)@ == old(self)@.next_top(prog_view(prog@), i, called),
    {
        proof {
            reveal(Mach::next_top);
        }
        self.ctrl = Ctrl::NextTop { prog, i, called };
    }

    pub(crate) fn done(&mut self, val: Option<Value>)
        ensures
            final(self)@ == old(self)@.done(opt_value(val)),
    {
        proof {
            reveal(Mach::done);
        }
        self.ctrl = Ctrl::Done { val };
    }

    pub(crate) fn failed(&mut self, m: String)
        ensures
            final(self)@ == old(self)@.failed(m@),
    {
        proof {
            reveal(Mach::failed);
        }
        self.ctrl = Ctrl::Failed { m };
    }

    pub(crate) fn request(&mut self, a: Action)
        ensures
            final(self)@ == old(self)@.request(a@),
    {
        proof {
            reveal(Mach::request);
        }
        self.ctrl = Ctrl::Await;
        self.ask = Some(a);
    }

    pub(crate) fn request_for(&mut self, a: Action, t: Task)
        ensures
            final(self)@ == old(self)@.request_for(a@, t@),
    {
        proof {
            reveal(Mach::request_for);
        }
        self.ctrl = Ctrl::Task { t };
        self.ask = Some(a);
    }

    pub(crate) fn set_env(&mut self, n: &str, v: Value)
        ensures
            final(self)@ == old(self)@.set_env(n@, v@),
    {
        proof {
            reveal(Mach::set_env);
        }
        let ghost m0 = self.env@;
        self.env.insert(n, v);
        assert(env_view(self.env@) =~= env_view(m0).insert(n@, v@));
    }

    pub(crate) fn del_env(&mut self, n: &str)
        ensures
            final(self)@ == old(self)@.del_env(n@),
    {
        proof {
            reveal(Mach::del_env);
        }
        let ghost m0 = self.env@;
        self.env.remove(n);
        assert(env_view(self.env@) =~= env_view(m0).remove(n@));
    }

    pub(crate) fn set_global(&mut self, n: &str, v: Value)
        ensures
            final(self)@ == old(self)@.set_global(n@, v@),
    {
        proof {
            reveal(Mach::set_global);
        }
        let ghost m0 = self.globals@;
        self.globals.insert(n, v);
        assert(env_view(self.globals@) =~= env_view(m0).insert(n@, v@));
    }

    pub(crate) fn set_line(&mut self, n: u32)
        ensures
            final(self)@ == old(self)@.set_line(n),
    {
        proof {
            reveal(Mach::set_line);
        }
        self.line = n;
    }

    pub(crate) fn set_tail(&mut self, t: Option<(String, usize)>)
        ensures
            final(self)@ == old(self)@.set_tail(tail_view(t)),
    {
        proof {
            reveal(Mach::set_tail);
        }
        self.tail = t;
    }

    /// Adds an object to the heap.
    pub fn add_obj(&mut self, o: Obj) -> (r: usize)
        ensures
            (final(self)@, r) == old(self)@.add_obj(o@),
    {
        proof {
            reveal(Mach::add_obj);
        }
        let ghost h0 = self.heap@;
        let a: usize = self.heap.len();
        self.heap.push(o);
        assert(heap_view(self.heap@) =~= heap_view(h0).push(o@));
        a
    }

    /// Replaces an object of the heap, if it has one there.
    pub fn store(&mut self, a: usize, o: Obj)
        ensures
            final(self)@ == old(self)@.store(a, o@),
    {
        proof {
            reveal(Mach::store);
        }
        let ghost h0 = self.heap@;
        if a < self.heap.len() {
            self.heap[a] = o;
            assert(heap_view(self.heap@) =~= heap_view(h0).update(a as int, o@));
        }
    }

    pub(crate) fn list_push(&mut self, a: usize, v: Value)
        ensures
            final(self)@ == old(self)@.list_push(a, v@),
    {
        proof {
            reveal(Mach::list_push);
            reveal(Mach::store);
        }
        let ghost h0 = self.heap@;
        if a < self.heap.len() {
            assert(heap_view(h0)[a as int] == h0[a as int]@);
            match &mut self.heap[a] {
                Obj::List(l) => {
                    proof {
                        values_push(l@, v);
                    }
                    l.push(v);
                },
                _ => {},
            }
            proof {
                match list_at(heap_view(h0), a) {
                    Some(s) => {
                        assert(heap_view(self.heap@) =~= heap_view(h0).update(
                            a as int,
                            ObjView::List(s.push(v@))
                        ));
                    },
                    None => {
                        assert(heap_view(self.heap@) =~= heap_view(h0));
                    },
                }
            }
        }
    }

    /// The items of a list, or `None` for another object.
    fn take_items(&mut self, a: usize) -> (r: Option<Vec<Value>>)
        ensures
            match r {
                Some(v) => list_at(old(self)@.heap, a) == Some(values_view(v@)) && a
                    < old(self)@.heap.len() && forall|o: Obj|
                    #![trigger o@]
                    old(self)@.store(a, o@) == (Mach {
                        heap: final(self)@.heap.update(a as int, o@),
                        ..final(self)@
                    }),
                None => list_at(old(self)@.heap, a) is None && final(self)@ == old(self)@,
            },
            final(self)@.heap.len() == old(self)@.heap.len(),
    {
        proof {
            reveal(Mach::store);
        }
        let ghost h0 = self.heap@;
        if a < self.heap.len() {
            assert(heap_view(h0)[a as int] == h0[a as int]@);
            let mut o = Obj::List(Vec::new());
            let is_list = match &self.heap[a] {
                Obj::List(_) => true,
                _ => false,
            };
            if !is_list {
                return None;
            }
            std::mem::swap(&mut o, &mut self.heap[a]);
            proof {
                assert forall|x: Obj| #![trigger x@] heap_view(h0).update(a as int, x@) == heap_view(
                    self.heap@,
                ).update(a as int, x@) by {
                    assert(heap_view(h0).update(a as int, x@) =~= heap_view(self.heap@).update(
                        a as int,
                        x@
                    ));
                }
            }
            match o {
                Obj::List(v) => Some(v),
                _ => None,
            }
        } else {
            None
        }
    }

    fn put_items(&mut self, a: usize, v: Vec<Value>)
        requires
            a < old(self)@.heap.len(),
        ensures
            final(self)@ == (Mach {
                heap: old(self)@.heap.update(a as int, ObjView::List(values_view(v@))),
                ..old(self)@
            }),
    {
        let ghost h0 = self.heap@;
        self.heap[a] = Obj::List(v);
        assert(heap_view(self.heap@) =~= heap_view(h0).update(
            a as int,
            ObjView::List(values_view(v@))
        ));
    }

    pub(crate) fn set_items(&mut self, a: usize, s: Vec<Value>)
        ensures
            final(self)@ == old(self)@.set_items(a, values_view(s@)),
    {
        proof {
            reveal(Mach::set_items);
        }
        if let Some(_) = self.take_items(a) {
            assert(Obj::List(s)@ == ObjView::List(values_view(s@)));
            self.put_items(a, s);
        }
    }

    pub(crate) fn list_set(&mut self, a: usize, i: usize, v: Value)
        ensures
            final(self)@ == old(self)@.list_set(a, i, v@),
    {
        proof {
            reveal(Mach::list_set);
            reveal(Mach::store);
        }
        let ghost h0 = self.heap@;
        if a < self.heap.len() {
            assert(heap_view(h0)[a as int] == h0[a as int]@);
            match &mut self.heap[a] {
                Obj::List(l) => {
                    if i < l.len() {
                        let ghost l0 = l@;
                        l[i] = v;
                        assert(values_view(l@) =~= values_view(l0).update(i as int, v@));
                    }
                },
                _ => {},
            }
            proof {
                match list_at(heap_view(h0), a) {
                    Some(s) => {
                        if i < s.len() {
                            assert(heap_view(self.heap@) =~= heap_view(h0).update(
                                a as int,
                                ObjView::List(s.update(i as int, v@))
                            ));
                        } else {
                            assert(heap_view(self.heap@) =~= heap_view(h0));
                        }
                    },
                    None => {
                        assert(heap_view(self.heap@) =~= heap_view(h0));
                    },
                }
            }
        }
    }

    pub(crate) fn list_insert(&mut self, a: usize, i: usize, v: Value)
        ensures
            final(self)@ == old(self)@.list_insert(a, i, v@),
    {
        proof {
            reveal(Mach::list_insert);
            reveal(Mach::store);
        }
        let ghost h0 = self.heap@;
        if a < self.heap.len() {
            assert(heap_view(h0)[a as int] == h0[a as int]@);
            match &mut self.heap[a] {
                Obj::List(l) => {
                    if i <= l.len() {
                        let ghost l0 = l@;
                        l.insert(i, v);
                        assert(values_view(l@) =~= values_view(l0).insert(i as int, v@));
                    }
                },
                _ => {},
            }
            proof {
                match list_at(heap_view(h0), a) {
                    Some(s) => {
                        if i <= s.len() {
                            assert(heap_view(self.heap@) =~= heap_view(h0).update(
                                a as int,
                                ObjView::List(s.insert(i as int, v@))
                            ));
                        } else {
                            assert(heap_view(self.heap@) =~= heap_view(h0));
                        }
                    },
                    None => {
                        assert(heap_view(self.heap@) =~= heap_view(h0));
                    },
                }
            }
        }
    }

    pub(crate) fn list_pop(&mut self, a: usize) -> (r: Option<Value>)
        ensures
            (final(self)@, opt_value(r)) == old(self)@.list_pop(a),
    {
        proof {
            reveal(Mach::list_pop);
        }
        match self.take_items(a) {
            Some(mut l) => {
                let ghost l0 = l@;
                let ghost m0 = self@;
                let r = l.pop();
                proof {
                    if l0.len() > 0 {
                        assert(values_view(l@) =~= values_view(l0).drop_last());
                        assert(values_view(l0).last() == l0.last()@);
                    } else {
                        assert(values_view(l@) =~= values_view(l0));
                    }
                }
                assert(Obj::List(l)@ == ObjView::List(values_view(l@)));
                self.put_items(a, l);
                proof {
                    if l0.len() == 0 {
                        reveal(Mach::store);
                        assert(self@.heap =~= old(self)@.heap);
                    }
                }
                r
            },
            None => None,
        }
    }

    pub(crate) fn list_reverse(&mut self, a: usize)
        ensures
            final(self)@ == old(self)@.list_reverse(a),
    {
        proof {
            reveal(Mach::list_reverse);
        }
        if let Some(mut l) = self.take_items(a) {
            let ghost l0 = l@;
            let mut r: Vec<Value> = Vec::new();
            let mut n: usize = l.len();
            while n > 0
                invariant
                    n == l@.len(),
                    l@.len() + r@.len() == l0.len(),
                    l@ == l0.take(l@.len() as int),
                    values_view(r@) == values_view(l0).reverse().take(r@.len() as int),
                decreases n,
            {
                let v = l.swap_remove(n - 1);
                n -= 1;
                assert(l@ =~= l0.take(l@.len() as int));
                proof {
                    values_push(r@, v);
                }
                r.push(v);
                assert(values_view(r@) =~= values_view(l0).reverse().take(r@.len() as int));
            }
            assert(values_view(r@) =~= values_view(l0).reverse());
            assert(Obj::List(r)@ == ObjView::List(values_view(r@)));
            self.put_items(a, r);
        }
    }

    pub(crate) fn dict_set(&mut self, a: usize, k: Value, v: Value)
        ensures
            final(self)@ == old(self)@.dict_set(a, k@, v@),
    {
        proof {
            reveal(Mach::dict_set);
            reveal(Mach::store);
        }
        let ghost h0 = self.heap@;
        if a < self.heap.len() {
            assert(heap_view(h0)[a as int] == h0[a as int]@);
            match &mut self.heap[a] {
                Obj::Dict(m) => {
                    m.set(k, v);
                },
                _ => {},
            }
            proof {
                match dict_at(heap_view(h0), a) {
                    Some(m) => {
                        assert(heap_view(self.heap@) =~= heap_view(h0).update(
                            a as int,
                            ObjView::Dict(entry_set(m, k@, v@))
                        ));
                    },
                    None => {
                        assert(heap_view(self.heap@) =~= heap_view(h0));
                    },
                }
            }
        }
    }

    pub(crate) fn dict_remove(&mut self, a: usize, k: &Value) -> (r: Option<Value>)
        ensures
            (final(self)@, opt_value(r)) == old(self)@.dict_remove(a, k@),
    {
        proof {
            reveal(Mach::dict_remove);
            reveal(Mach::store);
        }
        let ghost h0 = self.heap@;
        if a < self.heap.len() {
            assert(heap_view(h0)[a as int] == h0[a as int]@);
            let r: Option<Value> = match &mut self.heap[a] {
                Obj::Dict(m) => m.remove(k),
                _ => None,
            };
            proof {
                match dict_at(heap_view(h0), a) {
                    Some(m) => {
                        assert(heap_view(self.heap@) =~= heap_view(h0).update(
                            a as int,
                            ObjView::Dict(entry_remove(m, k@))
                        ));
                    },
                    None => {
                        assert(heap_view(self.heap@) =~= heap_view(h0));
                    },
                }
            }
            r
        } else {
            None
        }
    }

    pub(crate) fn field_set(&mut self, a: usize, n: &str, v: Value)
        ensures
            final(self)@ == old(self)@.field_set(a, n@, v@),
    {
        proof {
            reveal(Mach::field_set);
            reveal(Mach::store);
        }
        let ghost h0 = self.heap@;
        if a < self.heap.len() {
            assert(heap_view(h0)[a as int] == h0[a as int]@);
            match &mut self.heap[a] {
                Obj::Struct { name, fields } => {
                    let ghost f0 = fields@;
                    match find_field(fields, n) {
                        Some(i) => {
                            fields[i].1 = v;
                            assert(members_view(fields@) =~= field_put(members_view(f0), n@, v@));
                        },
                        None => {
                            fields.push((n.to_owned(), v));
                            assert(members_view(fields@) =~= field_put(members_view(f0), n@, v@));
                        },
                    }
                },
                _ => {},
            }
            proof {
                match heap_view(h0)[a as int] {
                    ObjView::Struct { name, fields } => {
                        assert(heap_view(self.heap@) =~= heap_view(h0).update(
                            a as int,
                            ObjView::Struct { name, fields: field_put(fields, n@, v@) }
                        ));
                    },
                    _ => {
                        assert(heap_view(self.heap@) =~= heap_view(h0));
                    },
                }
            }
        }
    }

    /// Writes an integer into a buffer.
    pub fn set_cbuf(&mut self, a: usize, off: i64, width: usize, v: i64, who: &str) -> (r: Result<
        (),
        String,
    >)
        ensures
            match cbuf_at(old(self)@.heap, a) {
                Some(b) => if in_buffer(b.len(), off, width as nat) {
                    r is Ok && final(self)@ == old(self)@.store(
                        a,
                        ObjView::CBuf(
                            written(b, off as int, low_bytes(bits64(v), width as nat)),
                        ),
                    )
                } else {
                    r is Err && r->Err_0@ == outside_text(who@, off, b.len()) && final(self)@
                        == old(self)@
                },
                None => r is Err && r->Err_0@ == "cffi: expected a cbuf"@ && final(self)@
                    == old(self)@,
            },
    {
        proof {
            reveal(Mach::store);
        }
        let ghost h0 = self.heap@;
        if a < self.heap.len() {
            assert(heap_view(h0)[a as int] == h0[a as int]@);
            let r: Result<(), String> = match &mut self.heap[a] {
                Obj::CBuf(b) => cset(b, off, width, v, who),
                _ => Err("cffi: expected a cbuf".to_owned()),
            };
            proof {
                match cbuf_at(heap_view(h0), a) {
                    Some(b) => {
                        if in_buffer(b.len(), off, width as nat) {
                            assert(heap_view(self.heap@) =~= heap_view(h0).update(
                                a as int,
                                ObjView::CBuf(
                                    written(b, off as int, low_bytes(bits64(v), width as nat)),
                                )
                            ));
                        } else {
                            assert(heap_view(self.heap@) =~= heap_view(h0));
                        }
                    },
                    None => {
                        assert(heap_view(self.heap@) =~= heap_view(h0));
                    },
                }
            }
            r
        } else {
            Err("cffi: expected a cbuf".to_owned())
        }
    }

    pub(crate) fn idle(&mut self) -> (r: Ctrl<'a>)
        ensures
            final(self)@ == old(self)@.idle(),
            r@ == old(self)@.ctrl,
    {
        proof {
            reveal(Mach::idle);
        }
        let mut c: Ctrl<'a> = Ctrl::Await;
        std::mem::swap(&mut c, &mut self.ctrl);
        c
    }

    pub(crate) fn pop_frame(&mut self) -> (r: Option<Frame<'a>>)
        ensures
            ({
                let (m, f) = old(self)@.pop_frame();
                final(self)@ == m && match r {
                    Some(x) => f == Some(x@),
                    None => f is None,
                }
            }),
    {
        proof {
            reveal(Mach::pop_frame);
        }
        let ghost s0 = self.frames@;
        let r = self.frames.pop();
        proof {
            if s0.len() > 0 {
                assert(frames_view(self.frames@) =~= frames_view(s0).drop_last());
            }
        }
        r
    }

    pub(crate) fn add_fn(&mut self, f: &'a FnDef)
        ensures
            final(self)@ == old(self)@.add_fn(f@),
    {
        proof {
            reveal(Mach::add_fn);
        }
        let ghost d0 = self.defs@;
        let n: usize = self.defs.len();
        self.funcs.insert(f.name.as_str(), n);
        self.defs.push(f);
        assert(defs_view(self.defs@) =~= defs_view(d0).push(f@));
    }

    pub(crate) fn add_method(&mut self, owner: &str, f: &'a FnDef)
        ensures
            final(self)@ == old(self)@.add_method(owner@, f@),
    {
        proof {
            reveal(Mach::add_method);
        }
        let ghost d0 = self.defs@;
        let ghost m0 = self.methods@;
        let n: usize = self.defs.len();
        self.methods.push((owner.to_owned(), f.name.clone(), n));
        self.defs.push(f);
        assert(defs_view(self.defs@) =~= defs_view(d0).push(f@));
        assert(triples_view(self.methods@) =~= triples_view(m0).push((owner@, f@.name, n)));
    }

    pub(crate) fn add_struct(&mut self, name: &str, fields: &'a Vec<Field>)
        ensures
            final(self)@ == old(self)@.add_struct(name@, fields_view(fields@)),
    {
        proof {
            reveal(Mach::add_struct);
        }
        let ghost s0 = self.structs@;
        if !(fields.len() == 0 && self.structs.contains(name)) {
            self.structs.insert(name, fields);
            assert(structs_view(self.structs@) =~= structs_view(s0).insert(
                name@,
                fields_view(fields@)
            ));
        }
    }

    pub(crate) fn add_extern(&mut self, name: &str)
        ensures
            final(self)@ == old(self)@.add_extern(name@),
    {
        proof {
            reveal(Mach::add_extern);
        }
        self.externs.insert(name);
    }

    pub(crate) fn clear_env(&mut self)
        ensures
            final(self)@ == old(self)@.clear_env(),
    {
        proof {
            reveal(Mach::clear_env);
        }
        self.env = NameMap::new();
        assert(env_view(self.env@) =~= Map::empty());
    }

    /// Takes the request that waits.
    pub(crate) fn answered(&mut self) -> (r: Option<Action>)
        ensures
            final(self)@ == old(self)@.answered(),
            ask_view(r) == old(self)@.ask,
    {
        proof {
            reveal(Mach::answered);
        }
        let mut a: Option<Action> = None;
        std::mem::swap(&mut a, &mut self.ask);
        a
    }

    pub(crate) fn learn_text(&mut self, bits: u64, t: String)
        ensures
            final(self)@ == old(self)@.learn_text(bits, t@),
    {
        proof {
            reveal(Mach::learn_text);
        }
        let ghost m0 = self.texts@;
        self.texts.insert(bits, t);
        assert(texts_map(self.texts@) =~= texts_map(m0).insert(bits, t@));
    }

    pub(crate) fn learn_float(&mut self, n: i64, bits: u64)
        ensures
            final(self)@ == old(self)@.learn_float(n, bits),
    {
        proof {
            reveal(Mach::learn_float);
        }
        self.nums.insert(n, bits);
    }

    /// The interpreter before it knows of any program.
    pub fn new() -> (r: Interp<'a>)
        ensures
            r@ == start(),
    {
        let r = Interp {
            defs: Vec::new(),
            funcs: NameMap::new(),
            structs: NameMap::new(),
            methods: Vec::new(),
            externs: NameSet::new(),
            heap: Vec::new(),
            globals: NameMap::new(),
            env: NameMap::new(),
            tail: None,
            line: 0,
            texts: HashMap::new(),
            nums: HashMap::new(),
            frames: Vec::new(),
            ctrl: Ctrl::Done { val: None },
            ask: None,
        };
        proof {
            let m = r@;
            assert(m.defs =~= Seq::empty() && m.methods =~= Seq::empty());
            assert(
                m.structs =~= Map::empty() && m.globals =~= Map::empty() && m.env =~= Map::empty()
            );
            assert(m.heap =~= Seq::empty() && m.frames =~= Seq::empty());
            assert(m.texts =~= Map::empty() && m.nums =~= Map::empty());
        }
        r
    }

    /// The line of the source that runs.
    pub fn current_line(&self) -> (r: u32)
        ensures
            r == self@.line,
    {
        self.line
    }

    /// The request that waits for its answer.
    pub fn asked(&self) -> (r: Option<&Action>)
        ensures
            match r {
                Some(a) => self@.ask == Some(a@),
                None => self@.ask is None,
            },
    {
        match &self.ask {
            Some(a) => Some(a),
            None => None,
        }
    }

    /// Whether the machine has come to an end.
    pub fn ended(&self) -> (r: bool)
        ensures
            r == (self@.ctrl is Done || self@.ctrl is Failed),
    {
        match &self.ctrl {
            Ctrl::Done { .. } => true,
            Ctrl::Failed { .. } => true,
            _ => false,
        }
    }

    /// What the machine came to: the value of an expression, nothing, or an error.
    pub fn outcome(&self) -> (r: Option<Result<Option<Value>, String>>)
        ensures
            match self@.ctrl {
                CtrlView::Done { val } => match r {
                    Some(Ok(v)) => opt_value(v) == val,
                    _ => false,
                },
                CtrlView::Failed { m } => match r {
                    Some(Err(e)) => e@ == m,
                    _ => false,
                },
                _ => r is None,
            },
    {
        match &self.ctrl {
            Ctrl::Done { val } => Some(
                Ok(
                    match val {
                        Some(v) => Some(v.clone()),
                        None => None,
                    },
                ),
            ),
            Ctrl::Failed { m } => Some(Err(m.clone())),
            _ => None,
        }
    }

    /// Whether a request waits for its answer.
    pub fn waits(&self) -> (r: bool)
        ensures
            r == (self@.ask is Some),
    {
        self.ask.is_some()
    }

    /// The objects of the program.
    pub fn heap(&self) -> (r: &Vec<Obj>)
        ensures
            heap_view(r@) == self@.heap,
    {
        &self.heap
    }

    pub(crate) fn try_task(&self, t: &Task) -> (r: Out)
        ensures
            r@ == task_out(self@.heap, self@.texts, self@.nums, t@),
    {
        run_task(&self.heap, &self.texts, &self.nums, t)
    }

    /// Whether a call of `n` with `k` arguments is a tail call.
    pub(crate) fn is_tail(&self, n: &str, k: usize) -> (r: bool)
        ensures
            r == (self@.tail == Some((n@, k))),
    {
        match &self.tail {
            Some((f, a)) => str_eq(f.as_str(), n) && *a == k,
            None => false,
        }
    }

    pub(crate) fn take_tail(&mut self) -> (r: Option<(String, usize)>)
        ensures
            final(self)@ == old(self)@.set_tail(None),
            tail_view(r) == old(self)@.tail,
    {
        proof {
            reveal(Mach::set_tail);
        }
        let mut t: Option<(String, usize)> = None;
        std::mem::swap(&mut t, &mut self.tail);
        t
    }

    pub(crate) fn env_of(&self, n: &str) -> (r: Option<Value>)
        ensures
            opt_value(r) == self@.env_of(n@),
    {
        match self.env.get(n) {
            Some(v) => Some(v.clone()),
            None => None,
        }
    }

    pub(crate) fn var_of(&self, n: &str) -> (r: Option<Value>)
        ensures
            opt_value(r) == self@.var_of(n@),
    {
        match self.env.get(n) {
            Some(v) => Some(v.clone()),
            None => match self.globals.get(n) {
                Some(v) => Some(v.clone()),
                None => None,
            },
        }
    }

    pub(crate) fn func_of(&self, n: &str) -> (r: Option<usize>)
        ensures
            r == self@.func_of(n@),
    {
        match self.funcs.get(n) {
            Some(d) => Some(*d),
            None => None,
        }
    }

    pub(crate) fn fields_of(&self, n: &str) -> (r: Option<&'a Vec<Field>>)
        ensures
            match r {
                Some(f) => self@.fields_of(n@) == Some(fields_view(f@)),
                None => self@.fields_of(n@) is None,
            },
    {
        match self.structs.get(n) {
            Some(f) => Some(*f),
            None => None,
        }
    }

    pub(crate) fn is_extern(&self, n: &str) -> (r: bool)
        ensures
            r == self@.externs.contains(n@),
    {
        self.externs.contains(n)
    }

    pub(crate) fn has_env(&self, n: &str) -> (r: bool)
        ensures
            r == self@.env.contains_key(n@),
    {
        self.env.contains(n)
    }

    pub(crate) fn def_name(&self, d: usize) -> (r: String)
        ensures
            r@ == self@.def_name(d),
    {
        if d < self.defs.len() {
            assert(self@.defs[d as int] == self.defs@[d as int]@);
            self.defs[d].name.clone()
        } else {
            "".to_owned()
        }
    }

    pub(crate) fn find_method_def(&self, owner: &str, name: &str) -> (r: Option<usize>)
        ensures
            r == method_def(self@.methods, owner@, name@, self@.methods.len()),
    {
        let ghost ms = triples_view(self.methods@);
        let mut i: usize = self.methods.len();
        while i > 0
            invariant
                i <= self.methods@.len(),
                ms == triples_view(self.methods@),
                method_def(ms, owner@, name@, ms.len()) == method_def(ms, owner@, name@, i as nat),
            decreases i,
        {
            assert(ms[i - 1] == (
                self.methods@[i - 1].0@,
                self.methods@[i - 1].1@,
                self.methods@[i - 1].2
            ));
            if str_eq(self.methods[i - 1].0.as_str(), owner) && str_eq(
                self.methods[i - 1].1.as_str(),
                name,
            ) {
                return Some(self.methods[i - 1].2);
            }
            i -= 1;
        }
        None
    }

    pub(crate) fn enter(&mut self, d: usize, vals: Vec<Value>, tramp: bool)
        ensures
            final(self)@ == old(self)@.enter(d, values_view(vals@), tramp),
    {
        proof {
            reveal(Mach::enter);
        }
        if d < self.defs.len() {
            let f: &'a FnDef = self.defs[d];
            assert(self@.defs[d as int] == f@);
            let mut env = bind(&f.params, vals);
            std::mem::swap(&mut env, &mut self.env);
            let mut tail: Option<(String, usize)> = if tramp && !f.is_method {
                Some((f.name.clone(), f.params.len()))
            } else {
                None
            };
            std::mem::swap(&mut tail, &mut self.tail);
            let ghost s0 = self.frames@;
            let fr = Frame::Call {
                env,
                tail,
                tramp: if tramp {
                    Some(d)
                } else {
                    None
                },
            };
            self.frames.push(fr);
            assert(frames_view(self.frames@) =~= frames_view(s0).push(fr@));
            self.ctrl = Ctrl::Run { stmts: &f.body, i: 0 };
        } else {
            self.fail("internal: no such function");
        }
    }

    pub(crate) fn again(
        &mut self,
        d: usize,
        vals: Vec<Value>,
        env: NameMap<Value>,
        tail: Option<(String, usize)>,
    )
        ensures
            final(self)@ == old(self)@.again(
                d,
                values_view(vals@),
                env_view(env@),
                tail_view(tail),
            ),
    {
        proof {
            reveal(Mach::again);
        }
        if d < self.defs.len() {
            let f: &'a FnDef = self.defs[d];
            assert(self@.defs[d as int] == f@);
            self.env = bind(&f.params, vals);
            let ghost s0 = self.frames@;
            let fr = Frame::Call { env, tail, tramp: Some(d) };
            self.frames.push(fr);
            assert(frames_view(self.frames@) =~= frames_view(s0).push(fr@));
            self.ctrl = Ctrl::Run { stmts: &f.body, i: 0 };
        } else {
            self.fail("internal: no such function");
        }
    }

    pub(crate) fn leave(&mut self, env: NameMap<Value>, tail: Option<(String, usize)>)
        ensures
            final(self)@ == old(self)@.leave(env_view(env@), tail_view(tail)),
    {
        proof {
            reveal(Mach::leave);
        }
        self.env = env;
        self.tail = tail;
    }
}

} // verus!
