//! The x86-64 back end, functions and programs: assembly in Intel syntax for the
//! Windows calling convention, on top of the Lumen runtime.

pub use crate::divide::magic_signed;
use crate::analysis::{compares, has_self_tail_call, is_comparison, tail_calls_block};
use crate::asmmir::{all_int, emit_blocks, mir_all_int, MirCtx, MirEnv};
use crate::asmops::{arg_reg, arg_reg_str};
use crate::asmquery::{find_imm32, imm32, jcc_false, jcc_false_str};
use crate::asmstate::{
    callee_reg, callee_str, text_opt, xmm_reg, xmm_str, Asm, Decls, Emitter, Env, FnEnv, MAX_FRAME,
};
use crate::asmstmt::gen_stmt;
use crate::ast::{
    elifs_facts, expr_view, opt_view, optblock_view, params_view, prog_view, stmts_facts,
    stmts_view, BinOp, Expr, ExprView, FnDef, FnDefView, Item, ItemView, Param, ParamView, Stmt,
    StmtView,
};
use crate::liveness::graph_ok;
use crate::lower::{lower_fn, lowered};
use crate::mir::{eligible, fault, mir_eligible, sigs_of, BlockView, MirFn, MirFnView, SigMap};
use crate::names::{NameMap, NameSet};
use crate::peephole::{peephole, peephole_spec};
use crate::program::{collect, decls_of, entry_fn, entry_of, methods_of, methods_view, DeclsView};
use crate::regalloc::{allocated, allocation_unique, regalloc, total_insts};
use crate::ssa::lowering_gives_graph;
use crate::text::{concat, dec, push_i64, replace_spec, replace_text, str_eq, texts_view};
use crate::typeinfo::{copy_vars, vars_of, IntInfo, IntInfoView};
use std::collections::HashMap;
use vstd::prelude::*;
use vstd::string::StringExecFns;

verus! {

broadcast use vstd::std_specs::hash::group_hash_axioms;

/// The argument register of the parameter `name`, if it is among the first four.
pub open spec fn param_reg(ps: Seq<ParamView>, name: Seq<char>, i: int) -> Option<Seq<char>>
    decreases ps.len() - i,
{
    if i < 0 || i >= ps.len() || i >= 4 {
        None
    } else if ps[i].name == name {
        Some(arg_reg(i))
    } else {
        param_reg(ps, name, i + 1)
    }
}

fn find_param_reg(ps: &Vec<Param>, name: &str) -> (r: Option<&'static str>)
    ensures
        r is Some <==> param_reg(params_view(ps@), name@, 0) is Some,
        r is Some ==> param_reg(params_view(ps@), name@, 0) == Some(r->Some_0@),
{
    let ghost pv = params_view(ps@);
    let mut i: usize = 0;
    while i < ps.len() && i < 4
        invariant
            pv == params_view(ps@),
            i <= ps@.len(),
            i <= 4,
            param_reg(pv, name@, 0) == param_reg(pv, name@, i as int),
        decreases ps@.len() - i,
    {
        assert(pv[i as int] == ps@[i as int]@);
        if str_eq(ps[i].name.as_str(), name) {
            return Some(arg_reg_str(i));
        }
        i += 1;
    }
    None
}

/// A guard at the start of a function that returns at once: what it compares, what it
/// returns and how many statements it takes up.
pub struct Guard {
    pub op: BinOp,
    pub lhs: Seq<char>,
    pub rhs: Seq<char>,
    pub ret: ExprView,
    pub len: nat,
}

/// What a block that only returns a value returns.
pub open spec fn only_return(b: Seq<StmtView>) -> Option<ExprView> {
    if b.len() == 1 {
        match b[0] {
            StmtView::Return(o) => o,
            _ => None,
        }
    } else if b.len() == 2 && b[0] is SrcLine {
        match b[1] {
            StmtView::Return(o) => o,
            _ => None,
        }
    } else {
        None
    }
}

pub open spec fn guard_operand(ps: Seq<ParamView>, e: ExprView) -> Option<Seq<char>> {
    match e {
        ExprView::Int(_) => match imm32(e) {
            Some(v) => Some(dec(v as int)),
            None => None,
        },
        ExprView::Ident(n) => param_reg(ps, n, 0),
        _ => None,
    }
}

pub open spec fn guard_of(f: FnDefView) -> Option<Guard> {
    let k: int = if f.body.len() > 0 && f.body[0] is SrcLine {
        1
    } else {
        0
    };
    if k >= f.body.len() {
        None
    } else {
        match f.body[k] {
            StmtView::If { cond, then, elifs, els } => if elifs.len() > 0 || els is Some {
                None
            } else {
                match (only_return(then), cond) {
                    (Some(ret), ExprView::Binary { op, lhs, rhs }) => match (
                        *lhs,
                        guard_operand(f.params, *rhs),
                    ) {
                        (ExprView::Ident(n), Some(r)) => match param_reg(f.params, n, 0) {
                            Some(l) => if is_comparison(op) {
                                Some(
                                    Guard { op, lhs: l, rhs: r, ret, len: (k + 1) as nat },
                                )
                            } else {
                                None
                            },
                            None => None,
                        },
                        _ => None,
                    },
                    _ => None,
                }
            },
            _ => None,
        }
    }
}

/// How a guard puts its result into `rax`.
pub open spec fn guard_result(ps: Seq<ParamView>, e: ExprView) -> Option<Seq<char>> {
    match e {
        ExprView::Ident(n) => param_reg(ps, n, 0),
        ExprView::Int(v) => Some(dec(v as int)),
        _ => None,
    }
}

/// The code of a guard, which needs no frame, and how many statements it stands for.
pub open spec fn raw_base_fast(g: Asm, f: FnDefView) -> (Asm, Option<(Seq<char>, nat)>) {
    match guard_of(f) {
        None => (g, None),
        Some(gd) => {
            let (g1, skip) = g.new_label("noskip"@);
            match guard_result(f.params, gd.ret) {
                None => (g1, None),
                Some(r) => (
                    g1,
                    Some(
                        (
                            "    cmp "@ + gd.lhs + ", "@ + gd.rhs + "\n    "@ + jcc_false(gd.op)
                                + " "@ + skip + "\n    mov rax, "@ + r + "\n    ret\n"@ + skip
                                + ":\n"@,
                            gd.len,
                        ),
                    ),
                ),
            }
        },
    }
}

fn find_only_return(b: &Vec<Stmt>) -> (r: Option<&Expr>)
    ensures
        match r {
            Some(e) => only_return(stmts_view(b@)) == Some(e@),
            None => only_return(stmts_view(b@)) is None,
        },
{
    proof {
        stmts_facts(b@);
    }
    let last: usize = if b.len() == 1 {
        0
    } else if b.len() == 2 && matches!(&b[0], Stmt::SrcLine(_)) {
        1
    } else {
        return None;
    };
    match &b[last] {
        Stmt::Return(o) => {
            assert(opt_view(*o) is Some == o is Some);
            o.as_ref()
        },
        _ => None,
    }
}

fn find_guard_operand(ps: &Vec<Param>, e: &Expr) -> (r: Option<String>)
    ensures
        text_opt(r) == guard_operand(params_view(ps@), e@),
{
    match e {
        Expr::Int(_) => match find_imm32(e) {
            Some(v) => {
                let mut s = String::new();
                push_i64(&mut s, v);
                assert(s@ =~= dec(v as int));
                Some(s)
            },
            None => None,
        },
        Expr::Ident(n) => match find_param_reg(ps, n.as_str()) {
            Some(r) => Some(r.to_owned()),
            None => None,
        },
        _ => None,
    }
}

fn find_guard_result(ps: &Vec<Param>, e: &Expr) -> (r: Option<String>)
    ensures
        text_opt(r) == guard_result(params_view(ps@), e@),
{
    match e {
        Expr::Int(v) => {
            let mut s = String::new();
            push_i64(&mut s, *v);
            assert(s@ =~= dec(*v as int));
            Some(s)
        },
        Expr::Ident(n) => match find_param_reg(ps, n.as_str()) {
            Some(r) => Some(r.to_owned()),
            None => None,
        },
        _ => None,
    }
}

/// The parts of a guard.
struct GuardParts<'a> {
    op: BinOp,
    lhs: &'static str,
    rhs: String,
    ret: &'a Expr,
    len: usize,
}

fn find_guard<'a>(f: &'a FnDef) -> (r: Option<GuardParts<'a>>)
    ensures
        match r {
            Some(p) => guard_of(f@) == Some(
                Guard { op: p.op, lhs: p.lhs@, rhs: p.rhs@, ret: p.ret@, len: p.len as nat },
            ) && p.len <= f.body@.len() && is_comparison(p.op),
            None => guard_of(f@) is None,
        },
{
    proof {
        stmts_facts(f.body@);
    }
    let k: usize = if f.body.len() > 0 && matches!(&f.body[0], Stmt::SrcLine(_)) {
        1
    } else {
        0
    };
    if k >= f.body.len() {
        return None;
    }
    match &f.body[k] {
        Stmt::If { cond, then, elifs, els } => {
            proof {
                elifs_facts(elifs@);
            }
            assert(optblock_view(*els) is Some == els is Some);
            if elifs.len() > 0 || els.is_some() {
                return None;
            }
            let ret = match find_only_return(then) {
                Some(e) => e,
                None => {
                    return None;
                },
            };
            match cond {
                Expr::Binary { op, lhs, rhs } => {
                    assert(lhs@ == expr_view(**lhs));
                    let right = match find_guard_operand(&f.params, rhs) {
                        Some(t) => t,
                        None => {
                            return None;
                        },
                    };
                    match &**lhs {
                        Expr::Ident(n) => match find_param_reg(&f.params, n.as_str()) {
                            Some(l) => {
                                if compares(*op) {
                                    Some(
                                        GuardParts {
                                            op: *op,
                                            lhs: l,
                                            rhs: right,
                                            ret,
                                            len: k + 1,
                                        },
                                    )
                                } else {
                                    None
                                }
                            },
                            None => None,
                        },
                        _ => None,
                    }
                },
                _ => None,
            }
        },
        _ => None,
    }
}

/// The offset of the `i`-th argument in the caller's frame.
pub open spec fn caller_offset(i: int) -> int {
    48 + (i - 4) * 8
}

impl Asm {
    /// Takes the text written so far.
    pub open spec fn take_out(self) -> (Asm, Seq<char>) {
        (Asm { out: Seq::empty(), ..self }, self.out)
    }

    /// An empty frame.
    pub open spec fn begin_fn(self) -> Asm {
        Asm {
            out: Seq::empty(),
            locals: Map::empty(),
            stack: 0,
            loops: Seq::empty(),
            int_loc: Map::empty(),
            float_loc: Map::empty(),
            callee_saves: Seq::empty(),
            xmm_saves: Seq::empty(),
            vslots: Map::empty(),
            ..self
        }
    }

    /// Stores the first `k` arguments in slots; `unbox` names those that are unboxed.
    pub open spec fn prologue(self, ps: Seq<ParamView>, k: nat, unbox: Set<Seq<char>>) -> Asm
        decreases k,
    {
        if k == 0 || k > ps.len() {
            self
        } else {
            let i = k - 1;
            let (g1, off) = self.prologue(ps, i as nat, unbox).grow(8);
            let g2 = g1.bind_local(ps[i].name, off);
            let raw = unbox.contains(ps[i].name);
            if i < 4 {
                if raw {
                    g2.p("    mov rax, "@).p(arg_reg(i)).p(
                        "\n    shl rax, 16\n    sar rax, 16\n"@,
                    ).p(
                        "    mov [rbp"@,
                    ).n(off as int).p("], rax\n"@)
                } else {
                    g2.p("    mov [rbp"@).n(off as int).p("], "@).p(arg_reg(i)).p("\n"@)
                }
            } else if i > 0x1000_0000 {
                g2.fail("too many arguments"@)
            } else {
                let g3 = g2.p("    mov rax, [rbp+"@).n(caller_offset(i)).p("]\n"@);
                (if raw {
                    g3.p("    shl rax, 16\n    sar rax, 16\n"@)
                } else {
                    g3
                }).p("    mov [rbp"@).n(off as int).p("], rax\n"@)
            }
        }
    }
}

/// The slots of the parameters and which of them are unboxed.
pub open spec fn param_slots(
    g: Asm,
    ps: Seq<ParamView>,
    raw: Set<Seq<char>>,
) -> Seq<(i64, bool)> {
    Seq::new(
        ps.len(),
        |i: int|
            (
                if g.locals.contains_key(ps[i].name) {
                    g.locals[ps[i].name]
                } else {
                    0
                },
                raw.contains(ps[i].name),
            ),
    )
}

/// The code of the statements from `from` up to the `k`-th.
pub open spec fn gen_body(g: Asm, env: FnEnv, body: Seq<StmtView>, from: int, k: int) -> Asm
    decreases k - from,
{
    if k <= from || from < 0 || k > body.len() {
        g
    } else {
        gen_stmt(gen_body(g, env, body, from, k - 1), env, body[k - 1])
    }
}

/// Saves the first `k` callee-saved registers in use.
pub open spec fn save_regs(saves: Seq<i64>, k: nat) -> Seq<char>
    decreases k,
{
    if k == 0 || k > saves.len() {
        Seq::empty()
    } else {
        save_regs(saves, (k - 1) as nat) + "    mov [rbp"@ + dec(saves[k - 1] as int) + "], "@
            + callee_reg(k - 1) + "\n"@
    }
}

pub open spec fn save_xmms(saves: Seq<i64>, k: nat) -> Seq<char>
    decreases k,
{
    if k == 0 || k > saves.len() {
        Seq::empty()
    } else {
        save_xmms(saves, (k - 1) as nat) + "    movdqu [rbp"@ + dec(saves[k - 1] as int) + "], "@
            + xmm_reg(k - 1) + "\n"@
    }
}

/// Restores the first `k` callee-saved registers in use, the last one first.
pub open spec fn restore_regs(saves: Seq<i64>, k: nat) -> Seq<char>
    decreases k,
{
    if k == 0 || k > saves.len() {
        Seq::empty()
    } else {
        "    mov "@ + callee_reg(k - 1) + ", [rbp"@ + dec(saves[k - 1] as int) + "]\n"@
            + restore_regs(saves, (k - 1) as nat)
    }
}

pub open spec fn restore_xmms(saves: Seq<i64>, k: nat) -> Seq<char>
    decreases k,
{
    if k == 0 || k > saves.len() {
        Seq::empty()
    } else {
        "    movdqu "@ + xmm_reg(k - 1) + ", [rbp"@ + dec(saves[k - 1] as int) + "]\n"@
            + restore_xmms(saves, (k - 1) as nat)
    }
}

/// The size of a frame: the slots and the shadow space of calls, a multiple of 16.
/// No frame grows past the limit.
pub open spec fn frame_size(stack: i64) -> int {
    if 0 <= stack <= MAX_FRAME + 16 {
        (stack + 32 + 15) / 16 * 16
    } else {
        0
    }
}

pub open spec fn ret_text() -> Seq<char> {
    "    mov rsp, rbp\n    pop rbp\n    ret\n"@
}

/// What the code of a function is generated from.
pub open spec fn fn_env(
    d: DeclsView,
    info: IntInfoView,
    f: FnDefView,
    hint: Option<Seq<char>>,
    raw_abi: bool,
    tail: Option<Seq<char>>,
    tail_params: Seq<(i64, bool)>,
) -> FnEnv {
    FnEnv {
        externs: d.externs,
        fns: d.fns,
        structs: d.structs,
        methods: d.methods,
        info,
        raw_entry: d.raw_entry,
        func: f.name,
        raw_int: vars_of(info.int_vars, f.name),
        raw_float: vars_of(info.float_vars, f.name),
        raw_return: raw_abi,
        tail_label: tail,
        tail_params,
        struct_hint: hint,
    }
}

/// A function's code around its body.
pub open spec fn wrap_fn(
    g: Asm,
    sym: Seq<char>,
    fast: Seq<char>,
    prologue: Seq<char>,
    body: Seq<char>,
    raw_abi: bool,
) -> Seq<char> {
    let n = g.callee_saves.len();
    let x = g.xmm_saves.len();
    let text = sym + ":\n"@ + fast + "    push rbp\n    mov rbp, rsp\n    sub rsp, "@ + dec(
        frame_size(g.stack),
    ) + "\n"@ + save_regs(g.callee_saves, n) + save_xmms(g.xmm_saves, x) + prologue + body + (
    if raw_abi {
        "    xor eax, eax\n    mov rsp, rbp\n    pop rbp\n    ret\n"@
    } else {
        "    call lumen_nil\n    mov rsp, rbp\n    pop rbp\n    ret\n"@
    });
    if n > 0 || x > 0 {
        replace_spec(
            text,
            ret_text(),
            restore_regs(g.callee_saves, n) + restore_xmms(g.xmm_saves, x) + ret_text(),
        )
    } else {
        text
    }
}

/// A function from its statements.
pub open spec fn gen_ast_fn(
    g: Asm,
    d: DeclsView,
    info: IntInfoView,
    sym: Seq<char>,
    f: FnDefView,
    hint: Option<Seq<char>>,
    raw_abi: bool,
) -> (Asm, Seq<char>) {
    let raw = vars_of(info.int_vars, f.name);
    let g1 = g.begin_fn().prologue(
        f.params,
        f.params.len(),
        if raw_abi {
            Set::empty()
        } else {
            raw
        },
    );
    let (g2, prologue) = g1.take_out();
    let tail = hint is None && !f.is_method && tail_calls_block(f.body, f.name);
    let (g3, label) = if tail {
        g2.new_label("tailtop"@)
    } else {
        (g2, Seq::empty())
    };
    let g4 = if tail {
        g3.p(label).p(":\n"@)
    } else {
        g3
    };
    let (g5, fast) = if !tail && raw_abi {
        raw_base_fast(g4, f)
    } else {
        (g4, None)
    };
    let env = fn_env(
        d,
        info,
        f,
        hint,
        raw_abi,
        if tail {
            Some(label)
        } else {
            None
        },
        if tail {
            param_slots(g2, f.params, raw)
        } else {
            Seq::empty()
        },
    );
    let from: int = match fast {
        Some(p) => p.1 as int,
        None => 0,
    };
    let (g6, body) = gen_body(g5, env, f.body, from, f.body.len() as int).take_out();
    (
        g6,
        wrap_fn(
            g6,
            sym,
            match fast {
                Some(p) => p.0,
                None => Seq::empty(),
            },
            prologue,
            body,
            raw_abi,
        ),
    )
}

/// Labels for the first `k` blocks.
pub open spec fn block_labels(g: Asm, k: nat) -> (Asm, Seq<Seq<char>>)
    decreases k,
{
    if k == 0 {
        (g, Seq::empty())
    } else {
        let (g1, ls) = block_labels(g, (k - 1) as nat);
        let (g2, l) = g1.new_label("mb"@);
        (g2, ls.push(l))
    }
}

/// Saves the first `k` of the named registers in slots: the text that saves them and
/// the text that restores them.
pub open spec fn save_named(g: Asm, regs: Seq<Seq<char>>, k: nat) -> (Asm, Seq<char>, Seq<char>)
    decreases k,
{
    if k == 0 || k > regs.len() {
        (g, Seq::empty(), Seq::empty())
    } else {
        let (g1, save, restore) = save_named(g, regs, (k - 1) as nat);
        let (g2, off) = g1.grow(8);
        (
            g2,
            save + "    mov [rbp"@ + dec(off as int) + "], "@ + regs[k - 1] + "\n"@,
            restore + "    mov "@ + regs[k - 1] + ", [rbp"@ + dec(off as int) + "]\n"@,
        )
    }
}

/// A function from its SSA form.
pub open spec fn gen_mir_fn(
    g: Asm,
    d: DeclsView,
    info: IntInfoView,
    sym: Seq<char>,
    f: FnDefView,
    m: MirFnView,
) -> (Asm, Seq<char>) {
    let a = allocated(m);
    let g1 = g.begin_fn().prologue(f.params, f.params.len(), Set::empty());
    let (g2, prologue) = g1.take_out();
    let slots = param_slots(g2, f.params, Set::empty());
    let (g3, labels) = block_labels(g2, m.blocks.len());
    let env = MirEnv {
        env: fn_env(d, info, f, None, true, None, Seq::empty()),
        f: m,
        regs: a.regs,
        pslots: Seq::new(slots.len(), |i: int| slots[i].0),
        labels,
    };
    let (g4, body) = emit_blocks(g3, env, m.blocks, m.blocks.len()).take_out();
    let (g5, save, restore) = save_named(g4, a.saved, a.saved.len());
    let text = sym + ":\n"@ + "    push rbp\n    mov rbp, rsp\n    sub rsp, "@ + dec(
        frame_size(g5.stack),
    ) + "\n"@ + save + prologue + body
        + "    xor eax, eax\n    mov rsp, rbp\n    pop rbp\n    ret\n"@;
    (
        g5,
        if a.saved.len() > 0 {
            replace_spec(text, ret_text(), restore + ret_text())
        } else {
            text
        },
    )
}

/// Whether an entry for unboxed arguments is written from the function's SSA form.
pub open spec fn takes_mir(f: FnDefView, sigs: Map<Seq<char>, bool>) -> bool {
    let s = lowered(f, sigs);
    &&& eligible(f)
    &&& !s.stuck
    &&& fault(s.f) is None
    &&& all_int(s.f)
    &&& total_insts(s.f.blocks) <= usize::MAX
}

#[verifier::opaque]
pub open spec fn gen_fn(
    g: Asm,
    d: DeclsView,
    info: IntInfoView,
    sigs: Map<Seq<char>, bool>,
    mir_on: bool,
    sym: Seq<char>,
    f: FnDefView,
    hint: Option<Seq<char>>,
    raw_abi: bool,
) -> (Asm, Seq<char>) {
    if mir_on && raw_abi && takes_mir(f, sigs) {
        gen_mir_fn(g, d, info, sym, f, lowered(f, sigs).f)
    } else {
        gen_ast_fn(g, d, info, sym, f, hint, raw_abi)
    }
}

/// Whether the instructions of a function can be numbered.
fn countable(m: &MirFn) -> (r: bool)
    ensures
        r == (total_insts(m@.blocks) <= usize::MAX),
{
    let n: usize = m.blocks.len();
    let ghost bs = m@.blocks;
    let mut total: usize = 0;
    assert(bs.take(0) =~= Seq::empty());
    for i in 0..n
        invariant
            n == m.blocks@.len(),
            bs == m@.blocks,
            total == total_insts(bs.take(i as int)),
    {
        assert(bs[i as int] == m.blocks@[i as int]@);
        assert(bs.take(i + 1).drop_last() =~= bs.take(i as int));
        let k: usize = m.blocks[i].insts.len();
        if k > usize::MAX - total {
            proof {
                total_grows(bs, i + 1);
            }
            return false;
        }
        total = total + k;
    }
    assert(bs.take(n as int) =~= bs);
    true
}

proof fn total_grows(bs: Seq<BlockView>, k: int)
    requires
        0 <= k <= bs.len(),
    ensures
        total_insts(bs.take(k)) <= total_insts(bs),
    decreases bs.len(),
{
    if k < bs.len() {
        total_grows(bs.drop_last(), k);
        assert(bs.drop_last().take(k) =~= bs.take(k));
    } else {
        assert(bs.take(k) =~= bs);
    }
}

fn frame_bytes(stack: i64) -> (r: i64)
    ensures
        r == frame_size(stack),
{
    if 0 <= stack && stack <= MAX_FRAME + 16 {
        (stack + 32 + 15) / 16 * 16
    } else {
        0
    }
}

/// Appends the text that saves the registers in use.
fn push_saves(out: &mut String, regs: &Vec<i64>, xmms: &Vec<i64>)
    ensures
        final(out)@ == old(out)@ + save_regs(regs@, regs@.len()) + save_xmms(xmms@, xmms@.len()),
{
    let ghost t0 = out@;
    assert(t0 + save_regs(regs@, 0) =~= t0);
    for i in 0..regs.len()
        invariant
            out@ == t0 + save_regs(regs@, i as nat),
    {
        out.append("    mov [rbp");
        push_i64(out, regs[i]);
        out.append("], ");
        out.append(callee_str(i));
        out.append("\n");
        assert(out@ =~= t0 + save_regs(regs@, (i + 1) as nat));
    }
    let ghost t1 = out@;
    assert(t1 + save_xmms(xmms@, 0) =~= t1);
    for i in 0..xmms.len()
        invariant
            out@ == t1 + save_xmms(xmms@, i as nat),
    {
        out.append("    movdqu [rbp");
        push_i64(out, xmms[i]);
        out.append("], ");
        out.append(xmm_str(i));
        out.append("\n");
        assert(out@ =~= t1 + save_xmms(xmms@, (i + 1) as nat));
    }
}

/// The text that restores the registers in use and returns.
fn restore_text(regs: &Vec<i64>, xmms: &Vec<i64>) -> (out: String)
    ensures
        out@ == restore_regs(regs@, regs@.len()) + restore_xmms(xmms@, xmms@.len()) + ret_text(),
{
    let mut out = String::new();
    let ghost all = restore_regs(regs@, regs@.len());
    let mut i: usize = regs.len();
    assert(out@ + all =~= all);
    while i > 0
        invariant
            i <= regs@.len(),
            out@ + restore_regs(regs@, i as nat) == all,
        decreases i,
    {
        let ghost t = out@;
        out.append("    mov ");
        out.append(callee_str(i - 1));
        out.append(", [rbp");
        push_i64(&mut out, regs[i - 1]);
        out.append("]\n");
        assert(out@ + restore_regs(regs@, (i - 1) as nat) =~= t + restore_regs(regs@, i as nat));
        i -= 1;
    }
    assert(out@ =~= all);
    let ghost xs = restore_xmms(xmms@, xmms@.len());
    let mut i: usize = xmms.len();
    while i > 0
        invariant
            i <= xmms@.len(),
            out@ + restore_xmms(xmms@, i as nat) == all + xs,
        decreases i,
    {
        let ghost t = out@;
        out.append("    movdqu ");
        out.append(xmm_str(i - 1));
        out.append(", [rbp");
        push_i64(&mut out, xmms[i - 1]);
        out.append("]\n");
        assert(out@ + restore_xmms(xmms@, (i - 1) as nat) =~= t + restore_xmms(xmms@, i as nat));
        i -= 1;
    }
    assert(out@ =~= all + xs);
    out.append("    mov rsp, rbp\n    pop rbp\n    ret\n");
    out
}

impl Emitter {
    fn take_out(&mut self) -> (r: String)
        ensures
            (final(self)@, r@) == old(self)@.take_out(),
    {
        let mut t = String::new();
        std::mem::swap(&mut t, &mut self.out);
        t
    }

    fn begin_fn(&mut self)
        ensures
            final(self)@ == old(self)@.begin_fn(),
    {
        self.out = String::new();
        self.locals = NameMap::new();
        self.stack = 0;
        self.loops = Vec::new();
        self.int_loc = NameMap::new();
        self.float_loc = NameMap::new();
        self.callee_saves = Vec::new();
        self.xmm_saves = Vec::new();
        self.vslots = HashMap::new();
        proof {
            assert(self@.loops =~= Seq::empty());
            assert(self@.int_loc =~= Map::empty());
            assert(self@.float_loc =~= Map::empty());
            assert(self@.vslots =~= Map::empty());
        }
    }

    fn prologue(&mut self, ps: &Vec<Param>, unbox: &NameSet)
        ensures
            final(self)@ == old(self)@.prologue(params_view(ps@), ps@.len(), unbox@),
    {
        let ghost g0 = self@;
        let ghost pv = params_view(ps@);
        for i in 0..ps.len()
            invariant
                pv == params_view(ps@),
                self@ == g0.prologue(pv, i as nat, unbox@),
        {
            assert(pv[i as int] == ps@[i as int]@);
            let off: i64 = self.grow(8);
            let name = ps[i].name.as_str();
            self.bind_local(name, off);
            let raw = unbox.contains(name);
            if i < 4 {
                if raw {
                    self.p("    mov rax, ");
                    self.p(arg_reg_str(i));
                    self.p("\n    shl rax, 16\n    sar rax, 16\n");
                    self.p("    mov [rbp");
                    self.n(off);
                    self.p("], rax\n");
                } else {
                    self.p("    mov [rbp");
                    self.n(off);
                    self.p("], ");
                    self.p(arg_reg_str(i));
                    self.p("\n");
                }
            } else if i > 0x1000_0000 {
                self.fail("too many arguments");
            } else {
                self.p("    mov rax, [rbp+");
                self.n(48 + (i as i64 - 4) * 8);
                self.p("]\n");
                if raw {
                    self.p("    shl rax, 16\n    sar rax, 16\n");
                }
                self.p("    mov [rbp");
                self.n(off);
                self.p("], rax\n");
            }
        }
    }

    fn param_slots_of(&self, ps: &Vec<Param>, raw: &NameSet) -> (r: Vec<(i64, bool)>)
        ensures
            r@ == param_slots(self@, params_view(ps@), raw@),
    {
        let mut r: Vec<(i64, bool)> = Vec::new();
        let ghost pv = params_view(ps@);
        for i in 0..ps.len()
            invariant
                pv == params_view(ps@),
                r@ == param_slots(self@, pv, raw@).take(i as int),
        {
            assert(pv[i as int] == ps@[i as int]@);
            let name = ps[i].name.as_str();
            let off: i64 = match self.locals.get(name) {
                Some(o) => *o,
                None => 0,
            };
            r.push((off, raw.contains(name)));
            assert(r@ =~= param_slots(self@, pv, raw@).take(i + 1));
        }
        assert(r@ =~= param_slots(self@, pv, raw@));
        r
    }

    fn raw_base_fast(&mut self, f: &FnDef) -> (r: Option<(String, usize)>)
        ensures
            ({
                let (g, o) = raw_base_fast(old(self)@, f@);
                &&& final(self)@ == g
                &&& match r {
                    Some(p) => o == Some((p.0@, p.1 as nat)) && p.1 <= f.body@.len(),
                    None => o is None,
                }
            }),
    {
        match find_guard(f) {
            None => None,
            Some(gd) => {
                let skip = self.new_label("noskip");
                match find_guard_result(&f.params, gd.ret) {
                    None => None,
                    Some(v) => {
                        let mut s = "    cmp ".to_owned();
                        s.append(gd.lhs);
                        s.append(", ");
                        s.append(gd.rhs.as_str());
                        s.append("\n    ");
                        s.append(jcc_false_str(gd.op));
                        s.append(" ");
                        s.append(skip.as_str());
                        s.append("\n    mov rax, ");
                        s.append(v.as_str());
                        s.append("\n    ret\n");
                        s.append(skip.as_str());
                        s.append(":\n");
                        Some((s, gd.len))
                    },
                }
            },
        }
    }

    fn gen_body(&mut self, env: &Env, body: &Vec<Stmt>, from: usize)
        requires
            from <= body@.len(),
        ensures
            final(self)@ == gen_body(
                old(self)@,
                env@,
                stmts_view(body@),
                from as int,
                body@.len() as int,
            ),
    {
        let ghost g0 = self@;
        proof {
            stmts_facts(body@);
        }
        for i in from..body.len()
            invariant
                from <= body@.len(),
                stmts_view(body@).len() == body@.len(),
                forall|j: int| 0 <= j < body@.len() ==> stmts_view(body@)[j] == (#[trigger] body@[j])@,
                self@ == gen_body(g0, env@, stmts_view(body@), from as int, i as int),
        {
            self.gen_stmt(env, &body[i]);
            assert(stmts_view(body@)[i as int] == body@[i as int]@);
        }
    }

    fn wrap_text(
        &self,
        sym: &str,
        fast: &str,
        prologue: &str,
        body: &str,
        raw_abi: bool,
    ) -> (r: String)
        ensures
            r@ == wrap_fn(self@, sym@, fast@, prologue@, body@, raw_abi),
    {
        let mut s = sym.to_owned();
        s.append(":\n");
        s.append(fast);
        s.append("    push rbp\n    mov rbp, rsp\n    sub rsp, ");
        push_i64(&mut s, frame_bytes(self.stack));
        s.append("\n");
        push_saves(&mut s, &self.callee_saves, &self.xmm_saves);
        s.append(prologue);
        s.append(body);
        if raw_abi {
            s.append("    xor eax, eax\n    mov rsp, rbp\n    pop rbp\n    ret\n");
        } else {
            s.append("    call lumen_nil\n    mov rsp, rbp\n    pop rbp\n    ret\n");
        }
        if self.callee_saves.len() > 0 || self.xmm_saves.len() > 0 {
            let back = restore_text(&self.callee_saves, &self.xmm_saves);
            replace_text(s.as_str(), "    mov rsp, rbp\n    pop rbp\n    ret\n", back.as_str())
        } else {
            s
        }
    }

    fn gen_ast_fn(
        &mut self,
        d: &Decls,
        info: &IntInfo,
        sym: &str,
        f: &FnDef,
        hint: Option<&str>,
        raw_abi: bool,
    ) -> (r: String)
        ensures
            (final(self)@, r@) == gen_ast_fn(
                old(self)@,
                d@,
                info@,
                sym@,
                f@,
                str_opt(hint),
                raw_abi,
            ),
    {
        let raw = copy_vars(&info.int_vars, f.name.as_str());
        self.begin_fn();
        if raw_abi {
            let none = NameSet::new();
            self.prologue(&f.params, &none);
        } else {
            self.prologue(&f.params, &raw);
        }
        let prologue = self.take_out();
        let tail = hint.is_none() && !f.is_method && has_self_tail_call(&f.body, f.name.as_str());
        let mut tail_params: Vec<(i64, bool)> = Vec::new();
        let mut tail_label: Option<String> = None;
        if tail {
            tail_params = self.param_slots_of(&f.params, &raw);
            let label = self.new_label("tailtop");
            self.p(label.as_str());
            self.p(":\n");
            tail_label = Some(label);
        }
        let mut fast = String::new();
        let mut from: usize = 0;
        if !tail && raw_abi {
            if let Some((t, n)) = self.raw_base_fast(f) {
                fast = t;
                from = n;
            }
        }
        let env = Env {
            decls: d,
            info,
            func: f.name.as_str(),
            raw_int: raw,
            raw_float: copy_vars(&info.float_vars, f.name.as_str()),
            raw_return: raw_abi,
            tail_label,
            tail_params,
            struct_hint: match hint {
                Some(h) => Some(h.to_owned()),
                None => None,
            },
        };
        self.gen_body(&env, &f.body, from);
        let body = self.take_out();
        assert(stmts_view(f.body@).len() == f.body@.len()) by {
            stmts_facts(f.body@);
        }
        self.wrap_text(sym, fast.as_str(), prologue.as_str(), body.as_str(), raw_abi)
    }

    fn block_labels(&mut self, k: usize) -> (r: Vec<String>)
        ensures
            (final(self)@, texts_view(r@)) == block_labels(old(self)@, k as nat),
    {
        let ghost g0 = self@;
        let mut r: Vec<String> = Vec::new();
        assert(texts_view(r@) =~= Seq::empty());
        for i in 0..k
            invariant
                (self@, texts_view(r@)) == block_labels(g0, i as nat),
        {
            let ghost v = r@;
            let l = self.new_label("mb");
            r.push(l);
            assert(texts_view(r@) =~= texts_view(v).push(l@));
        }
        r
    }

    fn save_named(&mut self, regs: &Vec<&'static str>, save: &mut String, restore: &mut String)
        requires
            old(save)@ == Seq::<char>::empty(),
            old(restore)@ == Seq::<char>::empty(),
        ensures
            (final(self)@, final(save)@, final(restore)@) == save_named(
                old(self)@,
                reg_names(regs@),
                regs@.len(),
            ),
    {
        let ghost g0 = self@;
        let ghost rv = reg_names(regs@);
        for i in 0..regs.len()
            invariant
                rv == reg_names(regs@),
                (self@, save@, restore@) == save_named(g0, rv, i as nat),
        {
            assert(rv[i as int] == regs@[i as int]@);
            let off: i64 = self.grow(8);
            save.append("    mov [rbp");
            push_i64(save, off);
            save.append("], ");
            save.append(regs[i]);
            save.append("\n");
            restore.append("    mov ");
            restore.append(regs[i]);
            restore.append(", [rbp");
            push_i64(restore, off);
            restore.append("]\n");
        }
    }
}

pub open spec fn reg_names(s: Seq<&'static str>) -> Seq<Seq<char>> {
    Seq::new(s.len(), |i: int| s[i]@)
}

pub open spec fn str_opt(o: Option<&str>) -> Option<Seq<char>> {
    match o {
        Some(s) => Some(s@),
        None => None,
    }
}

impl Emitter {
    fn gen_mir_fn(
        &mut self,
        d: &Decls,
        info: &IntInfo,
        sym: &str,
        f: &FnDef,
        m: &MirFn,
    ) -> (r: String)
        requires
            graph_ok(m@),
            total_insts(m@.blocks) <= usize::MAX,
        ensures
            (final(self)@, r@) == gen_mir_fn(old(self)@, d@, info@, sym@, f@, m@),
    {
        let ra = regalloc(m);
        proof {
            allocation_unique(m@, ra);
        }
        self.begin_fn();
        let none = NameSet::new();
        self.prologue(&f.params, &none);
        let prologue = self.take_out();
        let slots = self.param_slots_of(&f.params, &none);
        let mut pslots: Vec<i64> = Vec::new();
        for i in 0..slots.len()
            invariant
                pslots@ == Seq::new(i as nat, |j: int| slots@[j].0),
        {
            pslots.push(slots[i].0);
            assert(pslots@ =~= Seq::new((i + 1) as nat, |j: int| slots@[j].0));
        }
        let labels = self.block_labels(m.blocks.len());
        let env = Env {
            decls: d,
            info,
            func: f.name.as_str(),
            raw_int: copy_vars(&info.int_vars, f.name.as_str()),
            raw_float: copy_vars(&info.float_vars, f.name.as_str()),
            raw_return: true,
            tail_label: None,
            tail_params: Vec::new(),
            struct_hint: None,
        };
        assert(env@.tail_params =~= Seq::empty());
        let ctx = MirCtx { env: &env, f: m, ra: &ra, pslots: &pslots, labels: &labels };
        self.emit_blocks(&ctx, &m.blocks, m.blocks.len());
        let body = self.take_out();
        let mut save = String::new();
        let mut restore = String::new();
        assert(save@ =~= Seq::empty() && restore@ =~= Seq::empty());
        assert(reg_names(ra.callee_saved_used@) =~= ra@.saved);
        self.save_named(&ra.callee_saved_used, &mut save, &mut restore);
        let mut s = sym.to_owned();
        s.append(":\n");
        s.append("    push rbp\n    mov rbp, rsp\n    sub rsp, ");
        push_i64(&mut s, frame_bytes(self.stack));
        s.append("\n");
        s.append(save.as_str());
        s.append(prologue.as_str());
        s.append(body.as_str());
        s.append("    xor eax, eax\n    mov rsp, rbp\n    pop rbp\n    ret\n");
        if ra.callee_saved_used.len() > 0 {
            restore.append("    mov rsp, rbp\n    pop rbp\n    ret\n");
            replace_text(
                s.as_str(),
                "    mov rsp, rbp\n    pop rbp\n    ret\n",
                restore.as_str(),
            )
        } else {
            s
        }
    }

    fn gen_fn(
        &mut self,
        d: &Decls,
        info: &IntInfo,
        sigs: &SigMap,
        mir_on: bool,
        sym: &str,
        f: &FnDef,
        hint: Option<&str>,
        raw_abi: bool,
    ) -> (r: String)
        ensures
            (final(self)@, r@) == gen_fn(
                old(self)@,
                d@,
                info@,
                sigs.ret_is_float@,
                mir_on,
                sym@,
                f@,
                str_opt(hint),
                raw_abi,
            ),
    {
        proof {
            reveal(gen_fn);
        }
        if mir_on && raw_abi && mir_eligible(f) {
            if let Ok(m) = lower_fn(f, sigs) {
                if mir_all_int(&m) && countable(&m) {
                    proof {
                        lowering_gives_graph(f@, sigs.ret_is_float@);
                    }
                    return self.gen_mir_fn(d, info, sym, f, &m);
                }
            }
        }
        self.gen_ast_fn(d, info, sym, f, hint, raw_abi)
    }
}

/// The code of the functions among the first `k` items.
pub open spec fn fns_text(
    g: Asm,
    d: DeclsView,
    info: IntInfoView,
    sigs: Map<Seq<char>, bool>,
    mir_on: bool,
    items: Seq<ItemView>,
    k: nat,
) -> (Asm, Seq<char>)
    decreases k,
{
    if k == 0 || k > items.len() {
        (g, Seq::empty())
    } else {
        let (g1, t) = fns_text(g, d, info, sigs, mir_on, items, (k - 1) as nat);
        match items[k - 1] {
            ItemView::Fn(f) => {
                let (g2, a) = gen_fn(g1, d, info, sigs, mir_on, "lm_"@ + f.name, f, None, false);
                if d.raw_entry.contains(f.name) {
                    let (g3, b) = gen_fn(
                        g2,
                        d,
                        info,
                        sigs,
                        mir_on,
                        "lm_"@ + f.name + ".raw"@,
                        f,
                        None,
                        true,
                    );
                    (g3, t + a + "\n"@ + b + "\n"@)
                } else {
                    (g2, t + a + "\n"@)
                }
            },
            _ => (g1, t),
        }
    }
}

/// The code of the first `k` methods.
pub open spec fn methods_text(
    g: Asm,
    d: DeclsView,
    info: IntInfoView,
    sigs: Map<Seq<char>, bool>,
    mir_on: bool,
    ms: Seq<(Seq<char>, FnDefView)>,
    k: nat,
) -> (Asm, Seq<char>)
    decreases k,
{
    if k == 0 || k > ms.len() {
        (g, Seq::empty())
    } else {
        let (g1, t) = methods_text(g, d, info, sigs, mir_on, ms, (k - 1) as nat);
        let (owner, f) = ms[k - 1];
        let (g2, a) = gen_fn(
            g1,
            d,
            info,
            sigs,
            mir_on,
            "lm_"@ + owner + "__"@ + f.name,
            f,
            Some(owner),
            false,
        );
        (g2, t + a + "\n"@)
    }
}

/// The back end before it has written anything.
pub open spec fn blank() -> Asm {
    Asm {
        out: Seq::empty(),
        rodata: Seq::empty(),
        tables: Seq::empty(),
        str_count: 0,
        label_count: 0,
        line: 0,
        err: None,
        locals: Map::empty(),
        stack: 0,
        loops: Seq::empty(),
        int_loc: Map::empty(),
        float_loc: Map::empty(),
        callee_saves: Seq::empty(),
        xmm_saves: Seq::empty(),
        vslots: Map::empty(),
    }
}

/// The assembly of a program before the peephole pass, and the first error if there is
/// one.
pub open spec fn program_text(
    items: Seq<ItemView>,
    info: IntInfoView,
    mir_on: bool,
) -> (Option<Seq<char>>, Seq<char>) {
    let d = decls_of(items, info);
    let sigs = sigs_of(items);
    let ms = methods_of(items);
    let (g1, fns) = fns_text(blank(), d, info, sigs, mir_on, items, items.len());
    let (g2, entry) = gen_fn(
        g1,
        d,
        info,
        sigs,
        mir_on,
        "lumen_user_main"@,
        entry_fn(items),
        None,
        false,
    );
    let (g3, methods) = methods_text(g2, d, info, sigs, mir_on, ms, ms.len());
    (
        g3.err,
        "    .intel_syntax noprefix\n    .text\n    .globl main\n\n"@ + fns + entry + "\n"@
            + methods
            + "main:\n    push rbp\n    mov rbp, rsp\n    sub rsp, 32\n"@
            + "    call lumen_set_args\n"@ + "    mov rcx, rbp\n    call lumen_gc_init\n"@
            + "    call lumen_user_main\n    xor eax, eax\n"@
            + "    add rsp, 32\n    pop rbp\n    ret\n\n"@ + "\n    .section .rodata\n"@ + g3.tables
            + g3.rodata,
    )
}

impl Emitter {
    fn fns_text(
        &mut self,
        d: &Decls,
        info: &IntInfo,
        sigs: &SigMap,
        mir_on: bool,
        prog: &Vec<Item>,
    ) -> (out: String)
        ensures
            (final(self)@, out@) == fns_text(
                old(self)@,
                d@,
                info@,
                sigs.ret_is_float@,
                mir_on,
                prog_view(prog@),
                prog@.len(),
            ),
    {
        let ghost g0 = self@;
        let ghost pv = prog_view(prog@);
        let ghost sv = sigs.ret_is_float@;
        let mut out = String::new();
        assert(out@ =~= Seq::empty());
        for i in 0..prog.len()
            invariant
                pv == prog_view(prog@),
                sv == sigs.ret_is_float@,
                (self@, out@) == fns_text(g0, d@, info@, sv, mir_on, pv, i as nat),
        {
            assert(pv[i as int] == prog@[i as int]@);
            if let Item::Fn(f) = &prog[i] {
                let sym = concat("lm_", f.name.as_str());
                let a = self.gen_fn(d, info, sigs, mir_on, sym.as_str(), f, None, false);
                out.append(a.as_str());
                out.append("\n");
                if d.raw_entry.contains(f.name.as_str()) {
                    let rsym = concat(sym.as_str(), ".raw");
                    let b = self.gen_fn(d, info, sigs, mir_on, rsym.as_str(), f, None, true);
                    out.append(b.as_str());
                    out.append("\n");
                }
            }
        }
        out
    }

    fn methods_text(
        &mut self,
        d: &Decls,
        info: &IntInfo,
        sigs: &SigMap,
        mir_on: bool,
        ms: &Vec<(String, FnDef)>,
    ) -> (out: String)
        ensures
            (final(self)@, out@) == methods_text(
                old(self)@,
                d@,
                info@,
                sigs.ret_is_float@,
                mir_on,
                methods_view(ms@),
                ms@.len(),
            ),
    {
        let ghost g0 = self@;
        let ghost mv = methods_view(ms@);
        let ghost sv = sigs.ret_is_float@;
        let mut out = String::new();
        assert(out@ =~= Seq::empty());
        for i in 0..ms.len()
            invariant
                mv == methods_view(ms@),
                sv == sigs.ret_is_float@,
                (self@, out@) == methods_text(g0, d@, info@, sv, mir_on, mv, i as nat),
        {
            let (owner, f) = &ms[i];
            assert(mv[i as int] == (owner@, f@));
            let mut sym = concat("lm_", owner.as_str());
            sym.append("__");
            sym.append(f.name.as_str());
            let a = self.gen_fn(
                d,
                info,
                sigs,
                mir_on,
                sym.as_str(),
                f,
                Some(owner.as_str()),
                false,
            );
            out.append(a.as_str());
            out.append("\n");
        }
        out
    }
}

/// The back end. One value writes one program.
pub struct Codegen {
    emitter: Emitter,
}

impl Codegen {
    /// The state of the back end.
    pub closed spec fn state(&self) -> Asm {
        self.emitter@
    }

    pub fn new() -> (r: Codegen)
        ensures
            r.state() == blank(),
    {
        let r = Codegen {
            emitter: Emitter {
                out: String::new(),
                rodata: String::new(),
                tables: String::new(),
                str_count: 0,
                label_count: 0,
                line: 0,
                err: None,
                locals: NameMap::new(),
                stack: 0,
                loops: Vec::new(),
                int_loc: NameMap::new(),
                float_loc: NameMap::new(),
                callee_saves: Vec::new(),
                xmm_saves: Vec::new(),
                vslots: HashMap::new(),
            },
        };
        proof {
            let g = r.emitter@;
            assert(
                g.out =~= Seq::empty() && g.rodata =~= Seq::empty() && g.tables =~= Seq::empty()
            );
            assert(g.loops =~= Seq::empty() && g.callee_saves =~= Seq::empty() && g.xmm_saves
                =~= Seq::empty());
            assert(g.int_loc =~= Map::empty() && g.float_loc =~= Map::empty() && g.vslots
                =~= Map::empty());
        }
        r
    }

    /// The assembly of `prog`, or the first error. `info` is what is known of the
    /// program's types; with `mir_on`, functions on unboxed integers are written from
    /// their SSA form.
    pub fn generate(self, prog: &Vec<Item>, info: &IntInfo, mir_on: bool) -> (r: Result<
        String,
        String,
    >)
        requires
            self.state() == blank(),
        ensures
            ({
                let (err, text) = program_text(prog_view(prog@), info@, mir_on);
                match r {
                    Ok(s) => err is None && s@ == peephole_spec(text),
                    Err(m) => err == Some(m@),
                }
            }),
    {
        let mut em = self.emitter;
        let sigs = SigMap::from_program(prog);
        let c = collect(prog, info);
        let ghost pv = prog_view(prog@);
        let fns = em.fns_text(&c.decls, info, &sigs, mir_on, prog);
        let entry = entry_of(c.top, &c.decls.fns, Ghost(pv));
        let e = em.gen_fn(
            &c.decls,
            info,
            &sigs,
            mir_on,
            "lumen_user_main",
            &entry,
            None,
            false,
        );
        let methods = em.methods_text(&c.decls, info, &sigs, mir_on, &c.methods);
        let mut out = "    .intel_syntax noprefix\n    .text\n    .globl main\n\n".to_owned();
        out.append(fns.as_str());
        out.append(e.as_str());
        out.append("\n");
        out.append(methods.as_str());
        out.append("main:\n    push rbp\n    mov rbp, rsp\n    sub rsp, 32\n");
        out.append("    call lumen_set_args\n");
        out.append("    mov rcx, rbp\n    call lumen_gc_init\n");
        out.append("    call lumen_user_main\n    xor eax, eax\n");
        out.append("    add rsp, 32\n    pop rbp\n    ret\n\n");
        out.append("\n    .section .rodata\n");
        out.append(em.tables.as_str());
        out.append(em.rodata.as_str());
        assert(out@ =~= program_text(pv, info@, mir_on).1);
        match em.err {
            Some(m) => Err(m),
            None => Ok(peephole(out.as_str())),
        }
    }
}

} // verus!
