//! The x86-64 back end, functions in SSA form.

use crate::asmexpr::{const_div, load_args};
use crate::asmstate::{Asm, Emitter, Env, FnEnv};
use crate::mir::{
    blocks_view, insts_view, BinKind, Block, BlockView, Inst, InstView, MirFn, MirFnView, UnKind,
    Val, Vreg,
};
use crate::regalloc::RegAlloc;
use crate::text::{str_eq, texts_view};
use vstd::prelude::*;
use vstd::string::StringExecFns;

verus! {

broadcast use vstd::std_specs::hash::group_hash_axioms;

/// What the code of a function in SSA form is written from.
pub struct MirEnv {
    pub env: FnEnv,
    pub f: MirFnView,
    pub regs: Map<Vreg, Seq<char>>,
    pub pslots: Seq<i64>,
    pub labels: Seq<Seq<char>>,
}

impl MirEnv {
    pub open spec fn reg_of(self, v: Vreg) -> Option<Seq<char>> {
        if self.regs.contains_key(v) {
            Some(self.regs[v])
        } else {
            None
        }
    }

    pub open spec fn label(self, b: u32) -> Seq<char> {
        if b < self.labels.len() {
            self.labels[b as int]
        } else {
            ""@
        }
    }

    pub open spec fn line_of(self, v: Vreg) -> Option<u32> {
        if self.f.div_lines.contains_key(v) {
            Some(self.f.div_lines[v])
        } else {
            None
        }
    }
}

pub struct MirCtx<'a> {
    pub env: &'a Env<'a>,
    pub f: &'a MirFn,
    pub ra: &'a RegAlloc,
    pub pslots: &'a Vec<i64>,
    pub labels: &'a Vec<String>,
}

impl<'a> View for MirCtx<'a> {
    type V = MirEnv;

    open spec fn view(&self) -> MirEnv {
        MirEnv {
            env: self.env@,
            f: self.f@,
            regs: self.ra@.regs,
            pslots: self.pslots@,
            labels: texts_view(self.labels@),
        }
    }
}

impl<'a> MirCtx<'a> {
    fn label_str(&self, b: u32) -> (r: &str)
        ensures
            r@ == self@.label(b),
    {
        if (b as usize) < self.labels.len() {
            self.labels[b as usize].as_str()
        } else {
            ""
        }
    }
}

fn find_line(m: &MirCtx, v: Vreg) -> (r: Option<u32>)
    ensures
        r == m@.line_of(v),
{
    match m.f.div_lines.get(&v) {
        Some(n) => Some(*n),
        None => None,
    }
}

/// The byte that a comparison of integers sets.
pub open spec fn int_cc(op: BinKind) -> Option<Seq<char>> {
    match op {
        BinKind::IEq => Some("sete"@),
        BinKind::INe => Some("setne"@),
        BinKind::ILt => Some("setl"@),
        BinKind::ILe => Some("setle"@),
        BinKind::IGt => Some("setg"@),
        BinKind::IGe => Some("setge"@),
        _ => None,
    }
}

fn find_int_cc(op: BinKind) -> (r: Option<&'static str>)
    ensures
        r is Some <==> int_cc(op) is Some,
        r is Some ==> int_cc(op) == Some(r->Some_0@),
{
    match op {
        BinKind::IEq => Some("sete"),
        BinKind::INe => Some("setne"),
        BinKind::ILt => Some("setl"),
        BinKind::ILe => Some("setle"),
        BinKind::IGt => Some("setg"),
        BinKind::IGe => Some("setge"),
        _ => None,
    }
}

/// The value that a phi takes on the edge from a block, if it names that edge.
pub open spec fn src_from(srcs: Seq<(u32, Val)>, from: u32) -> Option<Val>
    decreases srcs.len(),
{
    if srcs.len() == 0 {
        None
    } else if srcs[0].0 == from {
        Some(srcs[0].1)
    } else {
        src_from(srcs.drop_first(), from)
    }
}

/// The phis of a block and their values for an edge.
pub open spec fn moves_in(insts: Seq<InstView>, from: u32) -> Seq<(u32, Val)>
    decreases insts.len(),
{
    if insts.len() == 0 {
        Seq::empty()
    } else {
        let init = moves_in(insts.drop_last(), from);
        match insts.last() {
            InstView::Phi { dst, srcs } => match src_from(srcs, from) {
                Some(v) => init.push((dst, v)),
                None => init,
            },
            _ => init,
        }
    }
}

pub open spec fn phi_moves(f: MirFnView, from: u32, to: u32) -> Seq<(u32, Val)> {
    if to < f.blocks.len() {
        moves_in(f.blocks[to as int].insts, from)
    } else {
        Seq::empty()
    }
}

fn find_src(srcs: &Vec<(u32, Val)>, from: u32) -> (r: Option<Val>)
    ensures
        r == src_from(srcs@, from),
{
    let mut i: usize = 0;
    assert(srcs@.skip(0) =~= srcs@);
    while i < srcs.len()
        invariant
            i <= srcs@.len(),
            src_from(srcs@.skip(i as int), from) == src_from(srcs@, from),
        decreases srcs@.len() - i,
    {
        assert(srcs@.skip(i as int).drop_first() =~= srcs@.skip(i + 1));
        assert(srcs@.skip(i as int)[0] == srcs@[i as int]);
        if srcs[i].0 == from {
            return Some(srcs[i].1);
        }
        i += 1;
    }
    None
}

fn find_phi_moves(m: &MirCtx, from: u32, to: u32) -> (r: Vec<(u32, Val)>)
    ensures
        r@ == phi_moves(m@.f, from, to),
{
    let mut moves: Vec<(u32, Val)> = Vec::new();
    if (to as usize) < m.f.blocks.len() {
        let b: &Block = &m.f.blocks[to as usize];
        let ghost is = insts_view(b.insts@);
        assert(m@.f.blocks[to as int].insts == is);
        assert(is.take(0) =~= Seq::empty());
        for i in 0..b.insts.len()
            invariant
                is == insts_view(b.insts@),
                moves@ == moves_in(is.take(i as int), from),
        {
            assert(is.take(i + 1).drop_last() =~= is.take(i as int));
            assert(is.take(i + 1).last() == b.insts@[i as int]@);
            if let Inst::Phi { dst, srcs } = &b.insts[i] {
                if let Some(v) = find_src(srcs, from) {
                    moves.push((*dst, v));
                }
            }
        }
        assert(is.take(is.len() as int) =~= is);
    }
    moves
}

/// No float takes part in a function.
pub open spec fn inst_all_int(i: InstView) -> bool {
    match i {
        InstView::Bin { op, .. } => !op.float_op(),
        InstView::Un { op, .. } => op != UnKind::FNeg,
        InstView::Call { is_float, .. } => !is_float,
        InstView::Move { src, .. } => !(src is FloatConst),
        _ => true,
    }
}

pub open spec fn insts_all_int(s: Seq<InstView>) -> bool {
    forall|i: int| 0 <= i < s.len() ==> inst_all_int(#[trigger] s[i])
}

pub open spec fn all_int(f: MirFnView) -> bool {
    &&& !f.ret_is_float
    &&& forall|i: int| 0 <= i < f.param_is_float.len() ==> !#[trigger] f.param_is_float[i]
    &&& forall|i: int| 0 <= i < f.blocks.len() ==> insts_all_int((#[trigger] f.blocks[i]).insts)
}

fn inst_is_int(i: &Inst) -> (r: bool)
    ensures
        r == inst_all_int(i@),
{
    match i {
        Inst::Bin { op, .. } => !op.is_float(),
        Inst::Un { op, .. } => *op != UnKind::FNeg,
        Inst::Call { is_float, .. } => !*is_float,
        Inst::Move { src, .. } => match src {
            Val::FloatConst(_) => false,
            _ => true,
        },
        _ => true,
    }
}

fn insts_are_int(v: &Vec<Inst>) -> (r: bool)
    ensures
        r == insts_all_int(insts_view(v@)),
{
    for i in 0..v.len()
        invariant
            forall|k: int| 0 <= k < i ==> inst_all_int(#[trigger] insts_view(v@)[k]),
    {
        assert(insts_view(v@)[i as int] == v@[i as int]@);
        if !inst_is_int(&v[i]) {
            return false;
        }
    }
    true
}

pub fn mir_all_int(f: &MirFn) -> (r: bool)
    ensures
        r == all_int(f@),
{
    if f.ret_is_float {
        return false;
    }
    for i in 0..f.param_is_float.len()
        invariant
            forall|k: int| 0 <= k < i ==> !#[trigger] f.param_is_float@[k],
    {
        if f.param_is_float[i] {
            assert(f@.param_is_float[i as int]);
            return false;
        }
    }
    for i in 0..f.blocks.len()
        invariant
            forall|k: int| 0 <= k < i ==> insts_all_int((#[trigger] f@.blocks[k]).insts),
    {
        assert(f@.blocks[i as int] == f.blocks@[i as int]@);
        if !insts_are_int(&f.blocks[i].insts) {
            return false;
        }
    }
    true
}

impl Asm {
    pub open spec fn const_div_op(self, env: FnEnv, d: i64) -> Asm {
        const_div(self, env, d)
    }

    pub open spec fn call_slots(self, env: FnEnv, slots: Seq<i64>, sym: Seq<char>) -> Asm {
        load_args(self, env, slots, sym)
    }
}

impl Emitter {
    fn const_div_op(&mut self, env: &Env, d: i64)
        requires
            d != 0,
        ensures
            final(self)@ == old(self)@.const_div_op(env@, d),
    {
        self.const_div(env, d);
    }

    fn call_slots(&mut self, env: &Env, slots: &Vec<i64>, sym: &str)
        ensures
            final(self)@ == old(self)@.call_slots(env@, slots@, sym@),
    {
        self.load_args(env, slots, sym);
    }
}

/// Puts an operand into a machine register.
pub open spec fn load_val(g: Asm, m: MirEnv, v: Val, reg: Seq<char>) -> Asm {
    let g1 = match v {
        Val::IntConst(n) => {
            let g2 = g.p("    movabs "@).p(reg).p(", "@).n(n as int).p("\n"@);
            g2
        },
        Val::FloatConst(_) => {
            let g3 = g.fail("mir: float constant in integer code"@);
            g3
        },
        Val::Param(i) => {
            let g4 = if i < m.pslots.len() {
                let off = m.pslots[i as int];
                let g5 = g.p("    mov "@).p(reg).p(", [rbp"@).n(off as int).p("]\n"@);
                g5
            } else {
                let g6 = g.fail("mir: parameter without a slot"@);
                g6
            };
            g4
        },
        Val::Vreg(r) => {
            let g7 = match m.reg_of(r) {
                Some(phys) => {
                    let g8 = if phys != reg {
                        let g9 = g.p("    mov "@).p(reg).p(", "@).p(phys).p("\n"@);
                        g9
                    } else {
                        g
                    };
                    g8
                },
                None => {
                    let (g10, off) = g.vslot(r);
                    let g11 = g10.p("    mov "@).p(reg).p(", [rbp"@).n(off as int).p("]\n"@);
                    g11
                },
            };
            g7
        },
    };
    g1
}

/// Puts `rax` where an SSA register lives.
pub open spec fn store_dst(g: Asm, m: MirEnv, v: u32) -> Asm {
    let g1 = match m.reg_of(v) {
        Some(reg) => {
            let g2 = g.p("    mov "@).p(reg).p(", rax\n"@);
            g2
        },
        None => {
            let (g3, off) = g.vslot(v);
            let g4 = g3.p("    mov [rbp"@).n(off as int).p("], rax\n"@);
            g4
        },
    };
    g1
}

pub open spec fn val_slots(g: Asm, m: MirEnv, s: Seq<Val>, k: nat) -> (Asm, Seq<i64>)
    decreases k,
{
    if k == 0 || k > s.len() {
        (g, Seq::empty())
    } else {
        let (g0, slots) = val_slots(g, m, s, (k - 1) as nat);
        let i = k - 1;
        let e = s[i];
        let g1 = load_val(g0, m, e, "rax"@);
        let (g2, t) = g1.temp();
        let g3 = g2.p("    mov [rbp"@).n(t as int).p("], rax\n"@);
        (g3, slots.push(t))
    }
}

pub open spec fn move_temps(g: Asm, m: MirEnv, s: Seq<(u32, Val)>, k: nat) -> (Asm, Seq<i64>)
    decreases k,
{
    if k == 0 || k > s.len() {
        (g, Seq::empty())
    } else {
        let (g0, slots) = move_temps(g, m, s, (k - 1) as nat);
        let i = k - 1;
        let (d, e) = s[i];
        let g1 = load_val(g0, m, e, "rax"@);
        let (g2, t) = g1.temp();
        let g3 = g2.p("    mov [rbp"@).n(t as int).p("], rax\n"@);
        (g3, slots.push(t))
    }
}

pub open spec fn move_stores(g: Asm, m: MirEnv, s: Seq<(u32, Val)>, k: nat, temps: Seq<i64>) -> Asm
    decreases k,
{
    if k == 0 || k > s.len() {
        g
    } else {
        let g0 = move_stores(g, m, s, (k - 1) as nat, temps);
        let i = k - 1;
        let (d, e) = s[i];
        let t = temps[i];
        let g1 = g0.p("    mov rax, [rbp"@).n(t as int).p("]\n"@);
        let g2 = store_dst(g1, m, d);
        g2
    }
}

/// Gives the phis of a block the values for the edge that is taken. All are read before
/// any is written, as they may depend on each other.
pub open spec fn edge_phis(g: Asm, m: MirEnv, from: u32, to: u32) -> Asm {
    let moves = phi_moves(m.f, from, to);
    let (g1, temps) = move_temps(g, m, moves, moves.len());
    let g2 = move_stores(g1, m, moves, moves.len(), temps);
    g2
}

pub open spec fn mir_div(g: Asm, m: MirEnv, a: Val, b: Val, dst: u32, is_mod: bool) -> Asm {
    let g1 = load_val(g, m, a, "rax"@);
    let (g2, nt) = g1.temp();
    let g3 = g2.p("    mov [rbp"@).n(nt as int).p("], rax\n"@);
    let g4 = load_val(g3, m, b, "rax"@);
    let g5 = match m.line_of(dst) {
        Some(line) => {
            let g6 = g4.p("    mov dword ptr [rip + lumen_current_line], "@).u(line as nat)
                .p("\n"@);
            g6
        },
        None => {
            g4
        },
    };
    let (g7, nz) = g5.new_label("mdivnz"@);
    let (g8, done) = g7.new_label("mdivdone"@);
    let g9 = g8.p("    test rax, rax\n"@);
    let g10 = g9.p("    jne "@).p(nz).p("\n"@);
    let g11 = g10.box_int();
    let g12 = g11.p("    mov rdx, rax\n"@);
    let g13 = g12.p("    mov rax, [rbp"@).n(nt as int).p("]\n"@);
    let g14 = g13.box_int();
    let g15 = g14.p("    mov rcx, rax\n"@);
    let g16 = if is_mod {
        let g17 = g15.p("    call lumen_mod\n"@);
        g17
    } else {
        let g18 = g15.p("    call lumen_div\n"@);
        g18
    };
    let g19 = g16.unbox_int();
    let g20 = g19.p("    jmp "@).p(done).p("\n"@);
    let g21 = g20.p(nz).p(":\n"@);
    let g22 = g21.p("    mov rcx, rax\n"@);
    let g23 = g22.p("    mov rax, [rbp"@).n(nt as int).p("]\n"@);
    let g24 = g23.p("    cqo\n    idiv rcx\n"@);
    let g25 = if is_mod {
        let g26 = g24.p("    mov rax, rdx\n"@);
        g26
    } else {
        g24
    };
    let g27 = g25.p(done).p(":\n"@);
    let g28 = store_dst(g27, m, dst);
    g28
}

pub open spec fn emit_bin(
    g: Asm,
    m: MirEnv,
    op: BinKind,
    a: Val,
    b: Val,
    wrap: bool,
    dst: u32,
) -> Asm {
    let g1 = match op {
        BinKind::IAdd => {
            let g2 = load_val(g, m, a, "rax"@);
            let (g3, at) = g2.temp();
            let g4 = g3.p("    mov [rbp"@).n(at as int).p("], rax\n"@);
            let g5 = load_val(g4, m, b, "rcx"@);
            let g6 = g5.p("    mov rax, [rbp"@).n(at as int).p("]\n"@);
            let g7 = g6.p("    add rax, rcx\n"@);
            let g8 = if wrap {
                let g9 = g7.unbox_int();
                g9
            } else {
                g7
            };
            let g10 = store_dst(g8, m, dst);
            g10
        },
        BinKind::ISub => {
            let g11 = load_val(g, m, a, "rax"@);
            let (g12, at) = g11.temp();
            let g13 = g12.p("    mov [rbp"@).n(at as int).p("], rax\n"@);
            let g14 = load_val(g13, m, b, "rcx"@);
            let g15 = g14.p("    mov rax, [rbp"@).n(at as int).p("]\n"@);
            let g16 = g15.p("    sub rax, rcx\n"@);
            let g17 = if wrap {
                let g18 = g16.unbox_int();
                g18
            } else {
                g16
            };
            let g19 = store_dst(g17, m, dst);
            g19
        },
        BinKind::IMul => {
            let g20 = load_val(g, m, a, "rax"@);
            let (g21, at) = g20.temp();
            let g22 = g21.p("    mov [rbp"@).n(at as int).p("], rax\n"@);
            let g23 = load_val(g22, m, b, "rcx"@);
            let g24 = g23.p("    mov rax, [rbp"@).n(at as int).p("]\n"@);
            let g25 = g24.p("    imul rax, rcx\n"@);
            let g26 = if wrap {
                let g27 = g25.unbox_int();
                g27
            } else {
                g25
            };
            let g28 = store_dst(g26, m, dst);
            g28
        },
        BinKind::DivConst(d) => {
            let g29 = if d == 0 {
                let g30 = g.fail("mir: constant divisor is zero"@);
                g30
            } else {
                let g31 = load_val(g, m, a, "rax"@);
                let g32 = g31.const_div_op(m.env, d);
                let g32b = if d == -1 {
                    g32.unbox_int()
                } else {
                    g32
                };
                let g33 = store_dst(g32b, m, dst);
                g33
            };
            g29
        },
        BinKind::ModConst(d) => {
            let g34 = if d == 0 {
                let g35 = g.fail("mir: constant divisor is zero"@);
                g35
            } else {
                let g36 = load_val(g, m, a, "rax"@);
                let (g37, nt) = g36.temp();
                let g38 = g37.p("    mov [rbp"@).n(nt as int).p("], rax\n"@);
                let g39 = g38.const_div_op(m.env, d);
                let g40 = g39.p("    movabs rcx, "@).n(d as int).p("\n"@);
                let g41 = g40.p("    imul rax, rcx\n"@);
                let g42 = g41.p("    mov rcx, rax\n"@);
                let g43 = g42.p("    mov rax, [rbp"@).n(nt as int).p("]\n"@);
                let g44 = g43.p("    sub rax, rcx\n"@);
                let g45 = store_dst(g44, m, dst);
                g45
            };
            g34
        },
        BinKind::IDiv => {
            let g46 = mir_div(g, m, a, b, dst, false);
            g46
        },
        BinKind::IMod => {
            let g47 = mir_div(g, m, a, b, dst, true);
            g47
        },
        _ => {
            let g48 = match int_cc(op) {
                Some(cc) => {
                    let g49 = load_val(g, m, a, "rax"@);
                    let (g50, at) = g49.temp();
                    let g51 = g50.p("    mov [rbp"@).n(at as int).p("], rax\n"@);
                    let g52 = load_val(g51, m, b, "rcx"@);
                    let g53 = g52.p("    mov rax, [rbp"@).n(at as int).p("]\n"@);
                    let g54 = g53.p("    cmp rax, rcx\n"@);
                    let g55 = g54.p("    "@).p(cc).p(" al\n"@);
                    let g56 = g55.p("    movzx rax, al\n"@);
                    let g57 = store_dst(g56, m, dst);
                    g57
                },
                None => {
                    let g58 = g.fail("mir: float operation in integer code"@);
                    g58
                },
            };
            g48
        },
    };
    g1
}

pub open spec fn emit_inst(g: Asm, m: MirEnv, e: InstView, from: u32) -> Asm {
    let g1 = match e {
        InstView::Phi { .. } => {
            g
        },
        InstView::Move { dst, src } => {
            let g2 = load_val(g, m, src, "rax"@);
            let g3 = store_dst(g2, m, dst);
            g3
        },
        InstView::Un { dst, op, a, wrap } => {
            let g4 = load_val(g, m, a, "rax"@);
            let g5 = if op == UnKind::INeg {
                let g6 = g4.p("    neg rax\n"@);
                g6
            } else {
                let g7 = g4.fail("mir: float operation in integer code"@);
                g7
            };
            let g8 = if wrap {
                let g9 = g5.unbox_int();
                g9
            } else {
                g5
            };
            let g10 = store_dst(g8, m, dst);
            g10
        },
        InstView::Bin { dst, op, a, b, wrap } => {
            let g11 = emit_bin(g, m, op, a, b, wrap, dst);
            g11
        },
        InstView::Call { dst, callee, args, .. } => {
            let (g12, slots) = val_slots(g, m, args, args.len());
            let sym = "lm_"@ + callee + ".raw"@;
            let g13 = g12.call_slots(m.env, slots, sym);
            let g14 = store_dst(g13, m, dst);
            g14
        },
        InstView::Ret(o) => {
            let g15 = match o {
                Some(v) => {
                    let g16 = load_val(g, m, v, "rax"@);
                    g16
                },
                None => {
                    let g17 = g.p("    xor eax, eax\n"@);
                    g17
                },
            };
            let g18 = g15.p("    mov rsp, rbp\n    pop rbp\n    ret\n"@);
            g18
        },
        InstView::Jmp(t) => {
            let g19 = edge_phis(g, m, from, t);
            let l = m.label(t);
            let g20 = g19.p("    jmp "@).p(l).p("\n"@);
            g20
        },
        InstView::Br { cond, t, f } => {
            let g21 = load_val(g, m, cond, "rax"@);
            let g22 = g21.p("    test rax, rax\n"@);
            let (g23, tt) = g22.new_label("mbt"@);
            let (g24, tf) = g23.new_label("mbf"@);
            let g25 = g24.p("    jne "@).p(tt).p("\n"@);
            let g26 = g25.p("    jmp "@).p(tf).p("\n"@);
            let g27 = g26.p(tt).p(":\n"@);
            let g28 = edge_phis(g27, m, from, t);
            let lt = m.label(t);
            let g29 = g28.p("    jmp "@).p(lt).p("\n"@);
            let g30 = g29.p(tf).p(":\n"@);
            let g31 = edge_phis(g30, m, from, f);
            let lf = m.label(f);
            let g32 = g31.p("    jmp "@).p(lf).p("\n"@);
            g32
        },
    };
    g1
}

pub open spec fn emit_insts(g: Asm, m: MirEnv, s: Seq<InstView>, k: nat, from: u32) -> Asm
    decreases k,
{
    if k == 0 || k > s.len() {
        g
    } else {
        let g0 = emit_insts(g, m, s, (k - 1) as nat, from);
        let i = k - 1;
        let e = s[i];
        let g1 = emit_inst(g0, m, e, from);
        g1
    }
}

/// The code of the first `k` blocks.
pub open spec fn emit_blocks(g: Asm, m: MirEnv, s: Seq<BlockView>, k: nat) -> Asm
    decreases k,
{
    if k == 0 || k > s.len() {
        g
    } else {
        let g0 = emit_blocks(g, m, s, (k - 1) as nat);
        let i = k - 1;
        let b = s[i];
        let l = m.label(b.id);
        let g1 = g0.p(l).p(":\n"@);
        let g2 = emit_insts(g1, m, b.insts, b.insts.len(), b.id);
        g2
    }
}

impl Emitter {
    pub fn load_val(&mut self, m: &MirCtx, v: Val, reg: &str)
        ensures
            final(self)@ == load_val(old(self)@, m@, v, reg@),
    {
        match v {
            Val::IntConst(n) => {
                self.p("    movabs ");
                self.p(reg);
                self.p(", ");
                self.n(n as i64);
                self.p("\n");
            },
            Val::FloatConst(_) => {
                self.fail("mir: float constant in integer code");
            },
            Val::Param(i) => {
                if (i as usize) < m.pslots.len() {
                    let off: i64 = m.pslots[i as usize];
                    self.p("    mov ");
                    self.p(reg);
                    self.p(", [rbp");
                    self.n(off as i64);
                    self.p("]\n");
                } else {
                    self.fail("mir: parameter without a slot");
                }
            },
            Val::Vreg(r) => {
                match m.ra.reg_of(r) {
                    Some(phys) => {
                        if !str_eq(phys, reg) {
                            self.p("    mov ");
                            self.p(reg);
                            self.p(", ");
                            self.p(phys);
                            self.p("\n");
                        }
                    },
                    None => {
                        let off: i64 = self.vslot(r);
                        self.p("    mov ");
                        self.p(reg);
                        self.p(", [rbp");
                        self.n(off as i64);
                        self.p("]\n");
                    },
                }
            },
        }
    }

    pub fn store_dst(&mut self, m: &MirCtx, v: u32)
        ensures
            final(self)@ == store_dst(old(self)@, m@, v),
    {
        match m.ra.reg_of(v) {
            Some(reg) => {
                self.p("    mov ");
                self.p(reg);
                self.p(", rax\n");
            },
            None => {
                let off: i64 = self.vslot(v);
                self.p("    mov [rbp");
                self.n(off as i64);
                self.p("], rax\n");
            },
        }
    }

    pub fn val_slots(&mut self, m: &MirCtx, s: &Vec<Val>, k: usize) -> (r: Vec<i64>)
        requires
            k <= s@.len(),
        ensures
            (final(self)@, r@) == val_slots(old(self)@, m@, s@, k as nat),
            r@.len() == k,
    {
        let mut slots: Vec<i64> = Vec::new();
        let ghost s0 = s@;
        let ghost g0 = self@;
        for i in 0..k
            invariant
                k <= s@.len(),
                s0 == s@,
                (self@, slots@) == val_slots(g0, m@, s0, i as nat),
                slots@.len() == i,
        {
            assert(s0[i as int] == s@[i as int]);
            let e: Val = s[i];
            self.load_val(m, e, "rax");
            let t: i64 = self.temp();
            self.p("    mov [rbp");
            self.n(t as i64);
            self.p("], rax\n");
            slots.push(t);
        }
        slots
    }

    pub fn move_temps(&mut self, m: &MirCtx, s: &Vec<(u32, Val)>, k: usize) -> (r: Vec<i64>)
        requires
            k <= s@.len(),
        ensures
            (final(self)@, r@) == move_temps(old(self)@, m@, s@, k as nat),
            r@.len() == k,
    {
        let mut slots: Vec<i64> = Vec::new();
        let ghost s0 = s@;
        let ghost g0 = self@;
        for i in 0..k
            invariant
                k <= s@.len(),
                s0 == s@,
                (self@, slots@) == move_temps(g0, m@, s0, i as nat),
                slots@.len() == i,
        {
            assert(s0[i as int] == s@[i as int]);
            let d: u32 = s[i].0;
            let e: Val = s[i].1;
            self.load_val(m, e, "rax");
            let t: i64 = self.temp();
            self.p("    mov [rbp");
            self.n(t as i64);
            self.p("], rax\n");
            slots.push(t);
        }
        slots
    }

    pub fn move_stores(&mut self, m: &MirCtx, s: &Vec<(u32, Val)>, k: usize, temps: &Vec<i64>)
        requires
            k <= s@.len(),
            temps@.len() == s@.len(),
        ensures
            final(self)@ == move_stores(old(self)@, m@, s@, k as nat, temps@),
    {
        let ghost s0 = s@;
        let ghost g0 = self@;
        for i in 0..k
            invariant
                k <= s@.len(),
                temps@.len() == s@.len(),
                s0 == s@,
                self@ == move_stores(g0, m@, s0, i as nat, temps@),
        {
            assert(s0[i as int] == s@[i as int]);
            let d: u32 = s[i].0;
            let e: Val = s[i].1;
            let t: i64 = temps[i];
            self.p("    mov rax, [rbp");
            self.n(t as i64);
            self.p("]\n");
            self.store_dst(m, d);
        }
    }

    pub fn edge_phis(&mut self, m: &MirCtx, from: u32, to: u32)
        ensures
            final(self)@ == edge_phis(old(self)@, m@, from, to),
    {
        let moves = find_phi_moves(m, from, to);
        let temps = self.move_temps(m, &moves, moves.len());
        self.move_stores(m, &moves, moves.len(), &temps);
    }

    pub fn mir_div(&mut self, m: &MirCtx, a: Val, b: Val, dst: u32, is_mod: bool)
        ensures
            final(self)@ == mir_div(old(self)@, m@, a, b, dst, is_mod),
    {
        self.load_val(m, a, "rax");
        let nt: i64 = self.temp();
        self.p("    mov [rbp");
        self.n(nt as i64);
        self.p("], rax\n");
        self.load_val(m, b, "rax");
        match find_line(m, dst) {
            Some(line) => {
                self.p("    mov dword ptr [rip + lumen_current_line], ");
                self.u(line as u64);
                self.p("\n");
            },
            None => {
            },
        }
        let nz = self.new_label("mdivnz");
        let done = self.new_label("mdivdone");
        self.p("    test rax, rax\n");
        self.p("    jne ");
        self.p(nz.as_str());
        self.p("\n");
        self.box_int();
        self.p("    mov rdx, rax\n");
        self.p("    mov rax, [rbp");
        self.n(nt as i64);
        self.p("]\n");
        self.box_int();
        self.p("    mov rcx, rax\n");
        if is_mod {
            self.p("    call lumen_mod\n");
        } else {
            self.p("    call lumen_div\n");
        }
        self.unbox_int();
        self.p("    jmp ");
        self.p(done.as_str());
        self.p("\n");
        self.p(nz.as_str());
        self.p(":\n");
        self.p("    mov rcx, rax\n");
        self.p("    mov rax, [rbp");
        self.n(nt as i64);
        self.p("]\n");
        self.p("    cqo\n    idiv rcx\n");
        if is_mod {
            self.p("    mov rax, rdx\n");
        }
        self.p(done.as_str());
        self.p(":\n");
        self.store_dst(m, dst);
    }

    pub fn emit_bin(&mut self, m: &MirCtx, op: BinKind, a: Val, b: Val, wrap: bool, dst: u32)
        ensures
            final(self)@ == emit_bin(old(self)@, m@, op, a, b, wrap, dst),
    {
        match op {
            BinKind::IAdd => {
                self.load_val(m, a, "rax");
                let at: i64 = self.temp();
                self.p("    mov [rbp");
                self.n(at as i64);
                self.p("], rax\n");
                self.load_val(m, b, "rcx");
                self.p("    mov rax, [rbp");
                self.n(at as i64);
                self.p("]\n");
                self.p("    add rax, rcx\n");
                if wrap {
                    self.unbox_int();
                }
                self.store_dst(m, dst);
            },
            BinKind::ISub => {
                self.load_val(m, a, "rax");
                let at: i64 = self.temp();
                self.p("    mov [rbp");
                self.n(at as i64);
                self.p("], rax\n");
                self.load_val(m, b, "rcx");
                self.p("    mov rax, [rbp");
                self.n(at as i64);
                self.p("]\n");
                self.p("    sub rax, rcx\n");
                if wrap {
                    self.unbox_int();
                }
                self.store_dst(m, dst);
            },
            BinKind::IMul => {
                self.load_val(m, a, "rax");
                let at: i64 = self.temp();
                self.p("    mov [rbp");
                self.n(at as i64);
                self.p("], rax\n");
                self.load_val(m, b, "rcx");
                self.p("    mov rax, [rbp");
                self.n(at as i64);
                self.p("]\n");
                self.p("    imul rax, rcx\n");
                if wrap {
                    self.unbox_int();
                }
                self.store_dst(m, dst);
            },
            BinKind::DivConst(d) => {
                if d == 0 {
                    self.fail("mir: constant divisor is zero");
                } else {
                    self.load_val(m, a, "rax");
                    self.const_div_op(m.env, d);
                    if d == -1 {
                        self.unbox_int();
                    }
                    self.store_dst(m, dst);
                }
            },
            BinKind::ModConst(d) => {
                if d == 0 {
                    self.fail("mir: constant divisor is zero");
                } else {
                    self.load_val(m, a, "rax");
                    let nt: i64 = self.temp();
                    self.p("    mov [rbp");
                    self.n(nt as i64);
                    self.p("], rax\n");
                    self.const_div_op(m.env, d);
                    self.p("    movabs rcx, ");
                    self.n(d as i64);
                    self.p("\n");
                    self.p("    imul rax, rcx\n");
                    self.p("    mov rcx, rax\n");
                    self.p("    mov rax, [rbp");
                    self.n(nt as i64);
                    self.p("]\n");
                    self.p("    sub rax, rcx\n");
                    self.store_dst(m, dst);
                }
            },
            BinKind::IDiv => {
                self.mir_div(m, a, b, dst, false);
            },
            BinKind::IMod => {
                self.mir_div(m, a, b, dst, true);
            },
            _ => {
                match find_int_cc(op) {
                    Some(cc) => {
                        self.load_val(m, a, "rax");
                        let at: i64 = self.temp();
                        self.p("    mov [rbp");
                        self.n(at as i64);
                        self.p("], rax\n");
                        self.load_val(m, b, "rcx");
                        self.p("    mov rax, [rbp");
                        self.n(at as i64);
                        self.p("]\n");
                        self.p("    cmp rax, rcx\n");
                        self.p("    ");
                        self.p(cc);
                        self.p(" al\n");
                        self.p("    movzx rax, al\n");
                        self.store_dst(m, dst);
                    },
                    None => {
                        self.fail("mir: float operation in integer code");
                    },
                }
            },
        }
    }

    pub fn emit_inst(&mut self, m: &MirCtx, e: &Inst, from: u32)
        ensures
            final(self)@ == emit_inst(old(self)@, m@, e@, from),
    {
        match e {
            Inst::Phi { .. } => {
            },
            Inst::Move { dst, src } => {
                self.load_val(m, *src, "rax");
                self.store_dst(m, *dst);
            },
            Inst::Un { dst, op, a, wrap } => {
                self.load_val(m, *a, "rax");
                if *op == UnKind::INeg {
                    self.p("    neg rax\n");
                } else {
                    self.fail("mir: float operation in integer code");
                }
                if *wrap {
                    self.unbox_int();
                }
                self.store_dst(m, *dst);
            },
            Inst::Bin { dst, op, a, b, wrap } => {
                self.emit_bin(m, *op, *a, *b, *wrap, *dst);
            },
            Inst::Call { dst, callee, args, .. } => {
                let slots = self.val_slots(m, args, args.len());
                let mut sym = "lm_".to_owned();
                sym.append(callee.as_str());
                sym.append(".raw");
                self.call_slots(m.env, &slots, sym.as_str());
                self.store_dst(m, *dst);
            },
            Inst::Ret(o) => {
                match o {
                    Some(v) => {
                        self.load_val(m, *v, "rax");
                    },
                    None => {
                        self.p("    xor eax, eax\n");
                    },
                }
                self.p("    mov rsp, rbp\n    pop rbp\n    ret\n");
            },
            Inst::Jmp(t) => {
                self.edge_phis(m, from, *t);
                let l = m.label_str(*t);
                self.p("    jmp ");
                self.p(l);
                self.p("\n");
            },
            Inst::Br { cond, t, f } => {
                self.load_val(m, *cond, "rax");
                self.p("    test rax, rax\n");
                let tt = self.new_label("mbt");
                let tf = self.new_label("mbf");
                self.p("    jne ");
                self.p(tt.as_str());
                self.p("\n");
                self.p("    jmp ");
                self.p(tf.as_str());
                self.p("\n");
                self.p(tt.as_str());
                self.p(":\n");
                self.edge_phis(m, from, *t);
                let lt = m.label_str(*t);
                self.p("    jmp ");
                self.p(lt);
                self.p("\n");
                self.p(tf.as_str());
                self.p(":\n");
                self.edge_phis(m, from, *f);
                let lf = m.label_str(*f);
                self.p("    jmp ");
                self.p(lf);
                self.p("\n");
            },
        }
    }

    pub fn emit_insts(&mut self, m: &MirCtx, s: &Vec<Inst>, k: usize, from: u32)
        requires
            k <= s@.len(),
        ensures
            final(self)@ == emit_insts(old(self)@, m@, insts_view(s@), k as nat, from),
    {
        let ghost s0 = insts_view(s@);
        let ghost g0 = self@;
        for i in 0..k
            invariant
                k <= s@.len(),
                s0 == insts_view(s@),
                self@ == emit_insts(g0, m@, s0, i as nat, from),
        {
            assert(s0[i as int] == s@[i as int]@);
            let e: &Inst = &s[i];
            self.emit_inst(m, e, from);
        }
    }

    pub fn emit_blocks(&mut self, m: &MirCtx, s: &Vec<Block>, k: usize)
        requires
            k <= s@.len(),
        ensures
            final(self)@ == emit_blocks(old(self)@, m@, blocks_view(s@), k as nat),
    {
        let ghost s0 = blocks_view(s@);
        let ghost g0 = self@;
        for i in 0..k
            invariant
                k <= s@.len(),
                s0 == blocks_view(s@),
                self@ == emit_blocks(g0, m@, s0, i as nat),
        {
            assert(s0[i as int] == s@[i as int]@);
            let b: &Block = &s[i];
            let l = m.label_str(b.id);
            self.p(l);
            self.p(":\n");
            assert(b@.insts == insts_view(b.insts@));
            self.emit_insts(m, &b.insts, b.insts.len(), b.id);
        }
    }
}

} // verus!
