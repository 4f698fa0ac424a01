//! The state of lowering: a function under construction, the value of each
//! variable in each block, and the control-flow edges known so far.
//!
//! Variables are looked up as they are read. A read in a block whose predecessors
//! are not all known yet parks an empty phi there; sealing the block fills it. A
//! phi whose operands agree is dropped again and its uses are replaced.

use crate::mir::{
    insts_view, BinKind, Block, BlockView, Inst, InstView, MirFn, MirFnView, SigMap, Val, Vreg,
};
use crate::names::NameMap;
use crate::text::str_eq;
use vstd::prelude::*;

verus! {

/// Whether a value is an integer or a float.
#[derive(Debug, Clone, Copy, PartialEq, Eq, Structural)]
pub enum Dom {
    Int,
    Float,
}

/// What lowering knows. `stuck` is set once it meets a shape that has no lowering.
pub struct Low {
    pub f: MirFnView,
    pub sigs: Map<Seq<char>, bool>,
    pub defs: Map<(Seq<char>, u32), Val>,
    pub doms: Map<Seq<char>, Dom>,
    pub preds: Seq<Seq<u32>>,
    pub sealed: Seq<bool>,
    pub parked: Seq<Seq<(Seq<char>, Vreg)>>,
    pub loops: Seq<(u32, u32)>,
    pub cur: Option<u32>,
    pub line: u32,
    pub stuck: bool,
}

pub open spec fn is_phi_of(i: InstView, phi: Vreg) -> bool {
    match i {
        InstView::Phi { dst, .. } => dst == phi,
        _ => false,
    }
}

/// How many phis a block starts with.
pub open spec fn lead_phis(insts: Seq<InstView>) -> nat
    decreases insts.len(),
{
    if insts.len() > 0 && insts[0] is Phi {
        1 + lead_phis(insts.drop_first())
    } else {
        0
    }
}

/// The place of the phi that writes `phi`, or the length where there is none.
pub open spec fn find_phi(insts: Seq<InstView>, phi: Vreg) -> nat
    decreases insts.len(),
{
    if insts.len() == 0 || is_phi_of(insts[0], phi) {
        0
    } else {
        1 + find_phi(insts.drop_first(), phi)
    }
}

/// What the operands of a phi come to, leaving out the phi itself.
#[derive(Debug, Clone, Copy, PartialEq, Eq, Structural)]
pub enum Operands {
    Nothing,
    One(Val),
    Many,
}

pub open spec fn operands_of(srcs: Seq<(u32, Val)>, phi: Vreg) -> Operands
    decreases srcs.len(),
{
    if srcs.len() == 0 {
        Operands::Nothing
    } else {
        let v = srcs.last().1;
        match operands_of(srcs.drop_last(), phi) {
            Operands::Many => Operands::Many,
            Operands::Nothing => if v == Val::Vreg(phi) {
                Operands::Nothing
            } else {
                Operands::One(v)
            },
            Operands::One(s) => if v == Val::Vreg(phi) || v == s {
                Operands::One(s)
            } else {
                Operands::Many
            },
        }
    }
}

pub open spec fn subst(v: Val, old_v: Val, new_v: Val) -> Val {
    if v == old_v {
        new_v
    } else {
        v
    }
}

pub open spec fn subst_inst(i: InstView, o: Val, n: Val) -> InstView {
    match i {
        InstView::Bin { dst, op, a, b, wrap } => InstView::Bin {
            dst,
            op,
            a: subst(a, o, n),
            b: subst(b, o, n),
            wrap,
        },
        InstView::Un { dst, op, a, wrap } => InstView::Un { dst, op, a: subst(a, o, n), wrap },
        InstView::Move { dst, src } => InstView::Move { dst, src: subst(src, o, n) },
        InstView::Call { dst, callee, args, is_float } => InstView::Call {
            dst,
            callee,
            args: Seq::new(args.len(), |k: int| subst(args[k], o, n)),
            is_float,
        },
        InstView::Ret(Some(v)) => InstView::Ret(Some(subst(v, o, n))),
        InstView::Ret(None) => i,
        InstView::Br { cond, t, f } => InstView::Br { cond: subst(cond, o, n), t, f },
        InstView::Jmp(_) => i,
        InstView::Phi { dst, srcs } => InstView::Phi {
            dst,
            srcs: Seq::new(srcs.len(), |k: int| (srcs[k].0, subst(srcs[k].1, o, n))),
        },
    }
}

pub open spec fn subst_insts(s: Seq<InstView>, o: Val, n: Val) -> Seq<InstView> {
    Seq::new(s.len(), |k: int| subst_inst(s[k], o, n))
}

pub open spec fn subst_blocks(s: Seq<BlockView>, o: Val, n: Val) -> Seq<BlockView> {
    Seq::new(s.len(), |k: int| BlockView { id: s[k].id, insts: subst_insts(s[k].insts, o, n) })
}

pub open spec fn zero_of(d: Dom) -> Val {
    match d {
        Dom::Int => Val::IntConst(0),
        Dom::Float => Val::FloatConst(0),
    }
}

/// How many blocks a search goes back through in a function of `n` blocks.
pub open spec fn reach(n: nat) -> nat {
    if n < u32::MAX {
        n + 1
    } else {
        u32::MAX as nat
    }
}

impl Low {
    pub open spec fn fail(self) -> Low {
        Low { stuck: true, ..self }
    }

    pub open spec fn has(self, b: u32) -> bool {
        b < self.f.blocks.len() && b < self.preds.len() && b < self.sealed.len() && b
            < self.parked.len()
    }

    #[verifier::opaque]
    pub open spec fn add_block(self) -> (Low, u32) {
        if self.f.blocks.len() < u32::MAX {
            let id = self.f.blocks.len() as u32;
            (
                Low {
                    f: MirFnView {
                        blocks: self.f.blocks.push(BlockView { id, insts: Seq::empty() }),
                        ..self.f
                    },
                    preds: self.preds.push(Seq::empty()),
                    sealed: self.sealed.push(false),
                    parked: self.parked.push(Seq::empty()),
                    ..self
                },
                id,
            )
        } else {
            (self.fail(), 0)
        }
    }

    #[verifier::opaque]
    pub open spec fn fresh(self) -> (Low, Vreg) {
        if self.f.next_vreg < u32::MAX {
            (
                Low {
                    f: MirFnView { next_vreg: (self.f.next_vreg + 1) as u32, ..self.f },
                    ..self
                },
                self.f.next_vreg,
            )
        } else {
            (self.fail(), 0)
        }
    }

    pub open spec fn with_insts(self, b: u32, insts: Seq<InstView>) -> Low {
        Low {
            f: MirFnView {
                blocks: self.f.blocks.update(
                    b as int,
                    BlockView { id: self.f.blocks[b as int].id, insts },
                ),
                ..self.f
            },
            ..self
        }
    }

    #[verifier::opaque]
    pub open spec fn write(self, name: Seq<char>, b: u32, v: Val) -> Low {
        Low { defs: self.defs.insert((name, b), v), ..self }
    }

    #[verifier::opaque]
    pub open spec fn fresh_phi(self, b: u32) -> (Low, Vreg) {
        if self.has(b) {
            let (s, dst) = self.fresh();
            let insts = self.f.blocks[b as int].insts;
            (
                s.with_insts(
                    b,
                    insts.insert(
                        lead_phis(insts) as int,
                        InstView::Phi { dst, srcs: Seq::empty() },
                    ),
                ),
                dst,
            )
        } else {
            (self.fail(), 0)
        }
    }

    #[verifier::opaque]
    pub open spec fn set_srcs(self, b: u32, phi: Vreg, srcs: Seq<(u32, Val)>) -> Low {
        if self.has(b) {
            let insts = self.f.blocks[b as int].insts;
            let k = find_phi(insts, phi);
            if k < insts.len() {
                self.with_insts(b, insts.update(k as int, InstView::Phi { dst: phi, srcs }))
            } else {
                self
            }
        } else {
            self.fail()
        }
    }

    pub open spec fn srcs_of(self, b: u32, phi: Vreg) -> Seq<(u32, Val)> {
        let insts = self.f.blocks[b as int].insts;
        let k = find_phi(insts, phi);
        if k < insts.len() {
            insts[k as int]->Phi_srcs
        } else {
            Seq::empty()
        }
    }

    #[verifier::opaque]
    pub open spec fn replace(self, o: Val, n: Val) -> Low {
        Low {
            f: MirFnView { blocks: subst_blocks(self.f.blocks, o, n), ..self.f },
            defs: self.defs.map_values(|v: Val| subst(v, o, n)),
            ..self
        }
    }

    /// Drops the phi unless two different values reach it, and says what stands
    /// for it from then on.
    #[verifier::opaque]
    pub open spec fn drop_phi(self, b: u32, phi: Vreg) -> (Low, Val) {
        if self.has(b) {
            match operands_of(self.srcs_of(b, phi), phi) {
                Operands::Many => (self, Val::Vreg(phi)),
                o => {
                    let n = match o {
                        Operands::One(v) => v,
                        _ => Val::Vreg(phi),
                    };
                    let insts = self.f.blocks[b as int].insts;
                    (
                        self.with_insts(
                            b,
                            insts.filter(|i: InstView| !is_phi_of(i, phi)),
                        ).replace(Val::Vreg(phi), n),
                        n,
                    )
                },
            }
        } else {
            (self.fail(), Val::IntConst(0))
        }
    }

    /// The value of `name` at the end of block `b` as it is known so far. `fuel`
    /// bounds how many blocks the search goes back through.
    pub open spec fn read_var(self, name: Seq<char>, b: u32, fuel: nat) -> (Low, Val)
        decreases fuel, 0nat,
    {
        if self.defs.contains_key((name, b)) {
            (self, self.defs[(name, b)])
        } else if fuel == 0 || !self.has(b) {
            (self.fail(), Val::IntConst(0))
        } else if !self.sealed[b as int] {
            let (s, phi) = self.fresh_phi(b);
            if s.has(b) {
                let t = Low {
                    parked: s.parked.update(b as int, s.parked[b as int].push((name, phi))),
                    ..s
                };
                (t.write(name, b, Val::Vreg(phi)), Val::Vreg(phi))
            } else {
                (s.fail(), Val::IntConst(0))
            }
        } else if self.preds[b as int].len() == 1 {
            let (s, v) = self.read_var(name, self.preds[b as int][0], (fuel - 1) as nat);
            (s.write(name, b, v), v)
        } else if self.preds[b as int].len() == 0 {
            let v = zero_of(
                if self.doms.contains_key(name) {
                    self.doms[name]
                } else {
                    Dom::Int
                },
            );
            (self.write(name, b, v), v)
        } else {
            let (s, phi) = self.fresh_phi(b);
            let (t, srcs) = s.write(name, b, Val::Vreg(phi)).read_all(
                name,
                self.preds[b as int],
                (fuel - 1) as nat,
            );
            let (u, v) = t.set_srcs(b, phi, srcs).drop_phi(b, phi);
            (u.write(name, b, v), v)
        }
    }

    /// Reads `name` at the end of each of `ps`, in order.
    pub open spec fn read_all(self, name: Seq<char>, ps: Seq<u32>, fuel: nat) -> (
        Low,
        Seq<(u32, Val)>,
    )
        decreases fuel, ps.len() + 1,
    {
        if ps.len() == 0 {
            (self, Seq::empty())
        } else {
            let (s, srcs) = self.read_all(name, ps.drop_last(), fuel);
            let (t, v) = s.read_var(name, ps.last(), fuel);
            (t, srcs.push((ps.last(), v)))
        }
    }

    /// The value of `name` at the end of block `b`.
    #[verifier::opaque]
    pub open spec fn read(self, name: Seq<char>, b: u32) -> (Low, Val) {
        self.read_var(name, b, reach(self.f.blocks.len()))
    }

    #[verifier::opaque]
    pub open spec fn fill_phi(self, name: Seq<char>, b: u32, phi: Vreg) -> Low {
        if self.has(b) {
            let (s, srcs) = self.read_all(name, self.preds[b as int], reach(self.f.blocks.len()));
            let (t, v) = s.set_srcs(b, phi, srcs).drop_phi(b, phi);
            if v != Val::Vreg(phi) {
                t.write(name, b, v)
            } else {
                t
            }
        } else {
            self.fail()
        }
    }

    pub open spec fn fill_phis(self, b: u32, phis: Seq<(Seq<char>, Vreg)>) -> Low
        decreases phis.len(),
    {
        if phis.len() == 0 {
            self
        } else {
            self.fill_phis(b, phis.drop_last()).fill_phi(phis.last().0, b, phis.last().1)
        }
    }

    /// Declares that all predecessors of block `b` are known.
    #[verifier::opaque]
    pub open spec fn seal(self, b: u32) -> Low {
        if !self.has(b) {
            self.fail()
        } else if self.sealed[b as int] {
            self
        } else {
            let s = Low { parked: self.parked.update(b as int, Seq::empty()), ..self }.fill_phis(
                b,
                self.parked[b as int],
            );
            if s.has(b) {
                Low { sealed: s.sealed.update(b as int, true), ..s }
            } else {
                s.fail()
            }
        }
    }

    #[verifier::opaque]
    pub open spec fn edge(self, from: u32, to: u32) -> Low {
        if self.has(to) {
            Low { preds: self.preds.update(to as int, self.preds[to as int].push(from)), ..self }
        } else {
            self.fail()
        }
    }

    #[verifier::opaque]
    pub open spec fn emit(self, i: InstView) -> Low {
        match self.cur {
            Some(b) => if self.has(b) {
                self.with_insts(b, self.f.blocks[b as int].insts.push(i))
            } else {
                self.fail()
            },
            None => self.fail(),
        }
    }

    #[verifier::opaque]
    pub open spec fn emit_bin(self, op: BinKind, a: Val, b: Val, wrap: bool) -> (Low, Val) {
        let (s, dst) = self.fresh();
        (s.emit(InstView::Bin { dst, op, a, b, wrap }), Val::Vreg(dst))
    }

    #[verifier::opaque]
    pub open spec fn terminate(self, i: InstView) -> Low {
        Low { cur: None, ..self.emit(i) }
    }

    pub open spec fn at(self, b: u32) -> Low {
        Low { cur: Some(b), ..self }
    }

    /// Ends the current block, if it is still open, with a jump to `b`.
    #[verifier::opaque]
    pub open spec fn jump(self, b: u32) -> Low {
        match self.cur {
            Some(c) => self.edge(c, b).terminate(InstView::Jmp(b)),
            None => self,
        }
    }
}

/// The map that a list of definitions stands for.
pub open spec fn defs_map(s: Seq<(String, u32, Val)>) -> Map<(Seq<char>, u32), Val>
    decreases s.len(),
{
    if s.len() == 0 {
        Map::empty()
    } else {
        defs_map(s.drop_last()).insert((s.last().0@, s.last().1), s.last().2)
    }
}

pub open spec fn parked_view(s: Seq<(String, Vreg)>) -> Seq<(Seq<char>, Vreg)> {
    Seq::new(s.len(), |i: int| (s[i].0@, s[i].1))
}

pub struct Lowerer<'a> {
    pub f: MirFn,
    pub sigs: &'a SigMap,
    pub defs: Vec<(String, u32, Val)>,
    pub doms: NameMap<Dom>,
    pub preds: Vec<Vec<u32>>,
    pub sealed: Vec<bool>,
    pub parked: Vec<Vec<(String, Vreg)>>,
    pub loops: Vec<(u32, u32)>,
    pub cur: Option<u32>,
    pub line: u32,
    pub stuck: bool,
}

impl<'a> View for Lowerer<'a> {
    type V = Low;

    open spec fn view(&self) -> Low {
        Low {
            f: self.f@,
            sigs: self.sigs.ret_is_float@,
            defs: defs_map(self.defs@),
            doms: self.doms@,
            preds: Seq::new(self.preds@.len(), |i: int| self.preds@[i]@),
            sealed: self.sealed@,
            parked: Seq::new(self.parked@.len(), |i: int| parked_view(self.parked@[i]@)),
            loops: self.loops@,
            cur: self.cur,
            line: self.line,
            stuck: self.stuck,
        }
    }
}

proof fn defs_map_subst(a: Seq<(String, u32, Val)>, b: Seq<(String, u32, Val)>, o: Val, n: Val)
    requires
        a.len() == b.len(),
        forall|i: int|
            0 <= i < a.len() ==> (#[trigger] b[i]).0@ == a[i].0@ && b[i].1 == a[i].1 && b[i].2
                == subst(a[i].2, o, n),
    ensures
        defs_map(b) == defs_map(a).map_values(|v: Val| subst(v, o, n)),
    decreases a.len(),
{
    if a.len() > 0 {
        let a0 = a.drop_last();
        let b0 = b.drop_last();
        assert forall|i: int| 0 <= i < a0.len() implies (#[trigger] b0[i]).0@ == a0[i].0@ && b0[i].1
            == a0[i].1 && b0[i].2 == subst(a0[i].2, o, n) by {
            assert(b0[i] == b[i]);
        }
        defs_map_subst(a0, b0, o, n);
        assert(b[b.len() - 1].0@ == a[a.len() - 1].0@);
    }
    assert(defs_map(b) =~= defs_map(a).map_values(|v: Val| subst(v, o, n)));
}

fn subst_in(i: &mut Inst, o: Val, n: Val)
    ensures
        final(i)@ == subst_inst(old(i)@, o, n),
{
    match i {
        Inst::Bin { a, b, .. } => {
            if *a == o {
                *a = n;
            }
            if *b == o {
                *b = n;
            }
        },
        Inst::Un { a, .. } => {
            if *a == o {
                *a = n;
            }
        },
        Inst::Move { src, .. } => {
            if *src == o {
                *src = n;
            }
        },
        Inst::Call { args, .. } => {
            let ghost a0 = args@;
            let len: usize = args.len();
            for k in 0..len
                invariant
                    len == a0.len(),
                    args@.len() == len,
                    forall|j: int| 0 <= j < k ==> #[trigger] args@[j] == subst(a0[j], o, n),
                    forall|j: int| k <= j < len ==> #[trigger] args@[j] == a0[j],
            {
                if args[k] == o {
                    args.set(k, n);
                }
            }
            assert(args@ =~= Seq::new(a0.len(), |k: int| subst(a0[k], o, n)));
        },
        Inst::Ret(Some(v)) => {
            if *v == o {
                *v = n;
            }
        },
        Inst::Br { cond, .. } => {
            if *cond == o {
                *cond = n;
            }
        },
        Inst::Phi { srcs, .. } => {
            let ghost a0 = srcs@;
            let len: usize = srcs.len();
            for k in 0..len
                invariant
                    len == a0.len(),
                    srcs@.len() == len,
                    forall|j: int|
                        0 <= j < k ==> #[trigger] srcs@[j] == (a0[j].0, subst(a0[j].1, o, n)),
                    forall|j: int| k <= j < len ==> #[trigger] srcs@[j] == a0[j],
            {
                let (p, v) = srcs[k];
                if v == o {
                    srcs.set(k, (p, n));
                }
            }
            assert(srcs@ =~= Seq::new(a0.len(), |k: int| (a0[k].0, subst(a0[k].1, o, n))));
        },
        _ => {},
    }
}

fn subst_block(b: &mut Block, o: Val, n: Val)
    ensures
        final(b)@ == (BlockView { id: old(b)@.id, insts: subst_insts(old(b)@.insts, o, n) }),
{
    let ghost b0 = b@;
    let len: usize = b.insts.len();
    for k in 0..len
        invariant
            b.insts@.len() == len,
            b.id == b0.id,
            b0.insts.len() == len,
            forall|j: int| 0 <= j < k ==> (#[trigger] b.insts@[j])@ == subst_inst(b0.insts[j], o, n),
            forall|j: int| k <= j < len ==> (#[trigger] b.insts@[j])@ == b0.insts[j],
    {
        subst_in(&mut b.insts[k], o, n);
    }
    assert(b@.insts =~= subst_insts(b0.insts, o, n));
}

/// Whether an instruction is the phi that writes `phi`.
fn is_phi(i: &Inst, phi: Vreg) -> (r: bool)
    ensures
        r == is_phi_of(i@, phi),
{
    match i {
        Inst::Phi { dst, .. } => *dst == phi,
        _ => false,
    }
}

fn locate_phi(insts: &Vec<Inst>, phi: Vreg) -> (r: usize)
    ensures
        r == find_phi(insts_view(insts@), phi),
        r <= insts@.len(),
        r < insts@.len() ==> is_phi_of(insts@[r as int]@, phi),
{
    let ghost v = insts_view(insts@);
    let mut k: usize = 0;
    assert(v.skip(0) =~= v);
    while k < insts.len() && !is_phi(&insts[k], phi)
        invariant
            k <= insts@.len(),
            v == insts_view(insts@),
            find_phi(v, phi) == k + find_phi(v.skip(k as int), phi),
        decreases insts@.len() - k,
    {
        assert(v.skip(k as int).drop_first() =~= v.skip(k + 1));
        assert(v.skip(k as int)[0] == v[k as int]);
        k += 1;
    }
    if k < insts.len() {
        assert(v.skip(k as int)[0] == v[k as int]);
    }
    k
}

fn count_lead_phis(insts: &Vec<Inst>) -> (r: usize)
    ensures
        r == lead_phis(insts_view(insts@)),
        r <= insts@.len(),
{
    let ghost v = insts_view(insts@);
    let mut k: usize = 0;
    assert(v.skip(0) =~= v);
    while k < insts.len() && matches!(&insts[k], Inst::Phi { .. })
        invariant
            k <= insts@.len(),
            v == insts_view(insts@),
            lead_phis(v) == k + lead_phis(v.skip(k as int)),
        decreases insts@.len() - k,
    {
        assert(v.skip(k as int).drop_first() =~= v.skip(k + 1));
        assert(v.skip(k as int)[0] == v[k as int]);
        k += 1;
    }
    if k < insts.len() {
        assert(v.skip(k as int)[0] == v[k as int]);
    }
    k
}

fn weigh(srcs: &Vec<(u32, Val)>, phi: Vreg) -> (r: Operands)
    ensures
        r == operands_of(srcs@, phi),
{
    let mut r = Operands::Nothing;
    assert(srcs@.take(0) =~= Seq::empty());
    for i in 0..srcs.len()
        invariant
            r == operands_of(srcs@.take(i as int), phi),
    {
        assert(srcs@.take(i + 1).drop_last() =~= srcs@.take(i as int));
        let v: Val = srcs[i].1;
        if v != Val::Vreg(phi) {
            r = match r {
                Operands::Nothing => Operands::One(v),
                Operands::One(s) => if s == v {
                    Operands::One(s)
                } else {
                    Operands::Many
                },
                Operands::Many => Operands::Many,
            };
        }
    }
    assert(srcs@.take(srcs@.len() as int) =~= srcs@);
    r
}

impl<'a> Lowerer<'a> {
    pub fn fail(&mut self)
        ensures
            final(self)@ == old(self)@.fail(),
    {
        self.stuck = true;
    }

    pub fn has(&self, b: u32) -> (r: bool)
        ensures
            r == self@.has(b),
    {
        (b as usize) < self.f.blocks.len() && (b as usize) < self.preds.len() && (b as usize)
            < self.sealed.len() && (b as usize) < self.parked.len()
    }

    pub fn add_block(&mut self) -> (r: u32)
        ensures
            (final(self)@, r) == old(self)@.add_block(),
    {
        proof {
            reveal(Low::add_block);
        }
        if self.f.blocks.len() < u32::MAX as usize {
            let ghost s0 = self@;
            let id: u32 = self.f.new_block();
            self.preds.push(Vec::new());
            self.sealed.push(false);
            self.parked.push(Vec::new());
            assert(self@.preds =~= s0.add_block().0.preds);
            assert(parked_view(Seq::empty()) =~= Seq::empty());
            assert(self@.parked =~= s0.add_block().0.parked);
            id
        } else {
            self.stuck = true;
            0
        }
    }

    pub fn fresh(&mut self) -> (r: Vreg)
        ensures
            (final(self)@, r) == old(self)@.fresh(),
    {
        proof {
            reveal(Low::fresh);
        }
        if self.f.next_vreg < u32::MAX {
            self.f.fresh_vreg()
        } else {
            self.stuck = true;
            0
        }
    }

    pub fn write(&mut self, name: &str, b: u32, v: Val)
        ensures
            final(self)@ == old(self)@.write(name@, b, v),
    {
        proof {
            reveal(Low::write);
        }
        let ghost d0 = self.defs@;
        self.defs.push((name.to_owned(), b, v));
        assert(self.defs@.drop_last() =~= d0);
    }

    pub fn def_of(&self, name: &str, b: u32) -> (r: Option<Val>)
        ensures
            r is Some <==> self@.defs.contains_key((name@, b)),
            r is Some ==> r->Some_0 == self@.defs[(name@, b)],
    {
        let ghost d = self.defs@;
        let mut i: usize = self.defs.len();
        assert(d.take(i as int) =~= d);
        while i > 0
            invariant
                d == self.defs@,
                i <= d.len(),
                defs_map(d.take(i as int)).contains_key((name@, b)) <==> self@.defs.contains_key(
                    (name@, b),
                ),
                self@.defs.contains_key((name@, b)) ==> defs_map(d.take(i as int))[(name@, b)]
                    == self@.defs[(name@, b)],
            decreases i,
        {
            i -= 1;
            assert(d.take(i + 1).drop_last() =~= d.take(i as int));
            if self.defs[i].1 == b && str_eq(self.defs[i].0.as_str(), name) {
                return Some(self.defs[i].2);
            }
        }
        None
    }

    fn fresh_phi(&mut self, b: u32) -> (r: Vreg)
        ensures
            (final(self)@, r) == old(self)@.fresh_phi(b),
    {
        proof {
            reveal(Low::fresh_phi);
            reveal(Low::fresh);
        }
        if self.has(b) {
            let dst: u32 = self.fresh();
            let pos: usize = count_lead_phis(&self.f.blocks[b as usize].insts);
            let ghost s1 = self@;
            let ghost i0 = self.f.blocks@[b as int].insts@;
            let block = self.f.block_mut(b);
            block.insts.insert(pos, Inst::Phi { dst, srcs: Vec::new() });
            proof {
                let i1 = i0.insert(pos as int, block.insts@[pos as int]);
                assert(insts_view(i1) =~= insts_view(i0).insert(
                    pos as int,
                    InstView::Phi { dst, srcs: Seq::empty() }
                ));
            }
            dst
        } else {
            self.stuck = true;
            0
        }
    }

    fn set_srcs(&mut self, b: u32, phi: Vreg, srcs: Vec<(u32, Val)>)
        ensures
            final(self)@ == old(self)@.set_srcs(b, phi, srcs@),
    {
        proof {
            reveal(Low::set_srcs);
        }
        if self.has(b) {
            let k: usize = locate_phi(&self.f.blocks[b as usize].insts, phi);
            if k < self.f.blocks[b as usize].insts.len() {
                let ghost i0 = self.f.blocks@[b as int].insts@;
                let block = self.f.block_mut(b);
                block.insts.set(k, Inst::Phi { dst: phi, srcs });
                assert(block@.insts =~= insts_view(i0).update(
                    k as int,
                    InstView::Phi { dst: phi, srcs: srcs@ }
                ));
            }
        } else {
            self.stuck = true;
        }
    }

    fn replace(&mut self, o: Val, n: Val)
        ensures
            final(self)@ == old(self)@.replace(o, n),
    {
        proof {
            reveal(Low::replace);
        }
        let ghost s0 = *self;
        let ghost b0 = self@.f.blocks;
        let len: usize = self.f.blocks.len();
        for k in 0..len
            invariant
                self.f.blocks@.len() == len,
                b0.len() == len,
                self@ == (Low { f: MirFnView { blocks: self@.f.blocks, ..s0@.f }, ..s0@ }),
                self.defs@ == s0.defs@,
                forall|j: int|
                    0 <= j < k ==> (#[trigger] self.f.blocks@[j])@ == (BlockView {
                        id: b0[j].id,
                        insts: subst_insts(b0[j].insts, o, n),
                    }),
                forall|j: int| k <= j < len ==> (#[trigger] self.f.blocks@[j])@ == b0[j],
        {
            subst_block(&mut self.f.blocks[k], o, n);
        }
        assert(self@.f.blocks =~= subst_blocks(b0, o, n));
        let ghost d0 = self.defs@;
        let ghost s1 = self@;
        let len: usize = self.defs.len();
        for k in 0..len
            invariant
                self.defs@.len() == len,
                d0.len() == len,
                self@ == (Low { defs: self@.defs, ..s1 }),
                forall|j: int|
                    0 <= j < k ==> (#[trigger] self.defs@[j]).0@ == d0[j].0@ && self.defs@[j].1
                        == d0[j].1 && self.defs@[j].2 == subst(d0[j].2, o, n),
                forall|j: int| k <= j < len ==> #[trigger] self.defs@[j] == d0[j],
        {
            if self.defs[k].2 == o {
                let name = self.defs[k].0.clone();
                let b: u32 = self.defs[k].1;
                self.defs.set(k, (name, b, n));
            }
        }
        proof {
            defs_map_subst(d0, self.defs@, o, n);
        }
    }

    fn drop_phi(&mut self, b: u32, phi: Vreg) -> (r: Val)
        ensures
            (final(self)@, r) == old(self)@.drop_phi(b, phi),
    {
        proof {
            reveal(Low::drop_phi);
        }
        if !self.has(b) {
            self.stuck = true;
            return Val::IntConst(0);
        }
        let ghost i0 = self.f.blocks@[b as int].insts@;
        let k: usize = locate_phi(&self.f.blocks[b as usize].insts, phi);
        let o = if k < self.f.blocks[b as usize].insts.len() {
            match &self.f.blocks[b as usize].insts[k] {
                Inst::Phi { srcs, .. } => weigh(srcs, phi),
                _ => Operands::Nothing,
            }
        } else {
            Operands::Nothing
        };
        assert(o == operands_of(self@.srcs_of(b, phi), phi));
        let n = match o {
            Operands::Many => {
                return Val::Vreg(phi);
            },
            Operands::One(v) => v,
            Operands::Nothing => Val::Vreg(phi),
        };
        let ghost s0 = self@;
        let block = self.f.block_mut(b);
        keep_others(&mut block.insts, phi);
        assert(self@ == s0.with_insts(
            b,
            s0.f.blocks[b as int].insts.filter(|i: InstView| !is_phi_of(i, phi))
        ));
        self.replace(Val::Vreg(phi), n);
        n
    }

    pub fn read_var(&mut self, name: &str, b: u32, fuel: u32) -> (r: Val)
        ensures
            (final(self)@, r) == old(self)@.read_var(name@, b, fuel as nat),
        decreases fuel, 0nat,
    {
        if let Some(v) = self.def_of(name, b) {
            return v;
        }
        if fuel == 0 || !self.has(b) {
            self.stuck = true;
            return Val::IntConst(0);
        }
        if !self.sealed[b as usize] {
            let phi: u32 = self.fresh_phi(b);
            if self.has(b) {
                let ghost s = self@;
                let ghost p0 = self.parked@;
                let ghost q0 = self.parked@[b as int]@;
                self.parked[b as usize].push((name.to_owned(), phi));
                assert(parked_view(self.parked@[b as int]@) =~= parked_view(q0).push(
                    (name@, phi)
                ));
                assert(self@.parked =~= s.parked.update(
                    b as int,
                    s.parked[b as int].push((name@, phi))
                ));
                self.write(name, b, Val::Vreg(phi));
                Val::Vreg(phi)
            } else {
                self.stuck = true;
                Val::IntConst(0)
            }
        } else if self.preds[b as usize].len() == 1 {
            let p: u32 = self.preds[b as usize][0];
            let v = self.read_var(name, p, fuel - 1);
            self.write(name, b, v);
            v
        } else if self.preds[b as usize].len() == 0 {
            let d: Dom = match self.doms.get(name) {
                Some(d) => *d,
                None => Dom::Int,
            };
            let v = match d {
                Dom::Int => Val::IntConst(0),
                Dom::Float => Val::FloatConst(0),
            };
            self.write(name, b, v);
            v
        } else {
            let ps: Vec<u32> = self.preds[b as usize].clone();
            let phi: u32 = self.fresh_phi(b);
            self.write(name, b, Val::Vreg(phi));
            let srcs = self.read_all(name, &ps, fuel - 1);
            self.set_srcs(b, phi, srcs);
            let v = self.drop_phi(b, phi);
            self.write(name, b, v);
            v
        }
    }

    fn read_all(&mut self, name: &str, ps: &Vec<u32>, fuel: u32) -> (r: Vec<(u32, Val)>)
        ensures
            (final(self)@, r@) == old(self)@.read_all(name@, ps@, fuel as nat),
        decreases fuel, ps@.len() + 1,
    {
        let mut srcs: Vec<(u32, Val)> = Vec::new();
        let ghost s0 = self@;
        assert(ps@.take(0) =~= Seq::empty());
        for i in 0..ps.len()
            invariant
                (self@, srcs@) == s0.read_all(name@, ps@.take(i as int), fuel as nat),
        {
            assert(ps@.take(i + 1).drop_last() =~= ps@.take(i as int));
            let p: u32 = ps[i];
            let v = self.read_var(name, p, fuel);
            srcs.push((p, v));
        }
        assert(ps@.take(ps@.len() as int) =~= ps@);
        srcs
    }

    fn reach(&self) -> (r: u32)
        ensures
            r == reach(self.f.blocks@.len()),
    {
        let n: usize = self.f.blocks.len();
        if n < u32::MAX as usize {
            n as u32 + 1
        } else {
            u32::MAX
        }
    }

    pub fn read(&mut self, name: &str, b: u32) -> (r: Val)
        ensures
            (final(self)@, r) == old(self)@.read(name@, b),
    {
        proof {
            reveal(Low::read);
        }
        let n: u32 = self.reach();
        self.read_var(name, b, n)
    }

    fn fill_phi(&mut self, name: &str, b: u32, phi: Vreg)
        ensures
            final(self)@ == old(self)@.fill_phi(name@, b, phi),
    {
        proof {
            reveal(Low::fill_phi);
        }
        if self.has(b) {
            let ps: Vec<u32> = self.preds[b as usize].clone();
            let n: u32 = self.reach();
            let srcs = self.read_all(name, &ps, n);
            self.set_srcs(b, phi, srcs);
            let v = self.drop_phi(b, phi);
            if v != Val::Vreg(phi) {
                self.write(name, b, v);
            }
        } else {
            self.stuck = true;
        }
    }

    pub fn seal(&mut self, b: u32)
        ensures
            final(self)@ == old(self)@.seal(b),
    {
        proof {
            reveal(Low::seal);
        }
        if !self.has(b) {
            self.stuck = true;
            return ;
        }
        if self.sealed[b as usize] {
            return ;
        }
        let mut phis: Vec<(String, Vreg)> = Vec::new();
        let ghost s0 = self@;
        let ghost pv = s0.parked[b as int];
        std::mem::swap(&mut phis, &mut self.parked[b as usize]);
        assert(parked_view(Seq::empty()) =~= Seq::empty());
        assert(self@.parked =~= s0.parked.update(b as int, Seq::empty()));
        assert(parked_view(phis@) =~= pv);
        let ghost s1 = self@;
        assert(pv.take(0) =~= Seq::empty());
        for i in 0..phis.len()
            invariant
                pv == parked_view(phis@),
                self@ == s1.fill_phis(b, pv.take(i as int)),
        {
            assert(pv.take(i + 1).drop_last() =~= pv.take(i as int));
            self.fill_phi(phis[i].0.as_str(), b, phis[i].1);
        }
        assert(pv.take(pv.len() as int) =~= pv);
        if self.has(b) {
            self.sealed.set(b as usize, true);
        } else {
            self.stuck = true;
        }
    }

    pub fn edge(&mut self, from: u32, to: u32)
        ensures
            final(self)@ == old(self)@.edge(from, to),
    {
        proof {
            reveal(Low::edge);
        }
        if self.has(to) {
            let ghost s0 = self@;
            self.preds[to as usize].push(from);
            assert(self@.preds =~= s0.preds.update(to as int, s0.preds[to as int].push(from)));
        } else {
            self.stuck = true;
        }
    }

    pub fn emit(&mut self, i: Inst)
        ensures
            final(self)@ == old(self)@.emit(i@),
    {
        proof {
            reveal(Low::emit);
        }
        match self.cur {
            Some(b) => {
                if self.has(b) {
                    let ghost i0 = self.f.blocks@[b as int].insts@;
                    let block = self.f.block_mut(b);
                    block.insts.push(i);
                    assert(block@.insts =~= insts_view(i0).push(i@));
                } else {
                    self.stuck = true;
                }
            },
            None => {
                self.stuck = true;
            },
        }
    }

    pub fn emit_bin(&mut self, op: BinKind, a: Val, b: Val, wrap: bool) -> (r: Val)
        ensures
            (final(self)@, r) == old(self)@.emit_bin(op, a, b, wrap),
            r is Vreg,
    {
        proof {
            reveal(Low::emit_bin);
        }
        let dst: u32 = self.fresh();
        self.emit(Inst::Bin { dst, op, a, b, wrap });
        Val::Vreg(dst)
    }

    pub fn terminate(&mut self, i: Inst)
        ensures
            final(self)@ == old(self)@.terminate(i@),
    {
        proof {
            reveal(Low::terminate);
        }
        self.emit(i);
        self.cur = None;
    }

    pub fn jump(&mut self, b: u32)
        ensures
            final(self)@ == old(self)@.jump(b),
    {
        proof {
            reveal(Low::jump);
        }
        if let Some(c) = self.cur {
            self.edge(c, b);
            self.terminate(Inst::Jmp(b));
        }
    }
}

fn keep_others(insts: &mut Vec<Inst>, phi: Vreg)
    ensures
        insts_view(final(insts)@) == insts_view(old(insts)@).filter(
            |i: InstView| !is_phi_of(i, phi),
        ),
{
    let ghost all = insts_view(insts@);
    let ghost keep = |i: InstView| !is_phi_of(i, phi);
    let mut kept: Vec<Inst> = Vec::new();
    let mut rest: Vec<Inst> = Vec::new();
    std::mem::swap(&mut rest, insts);
    let ghost r0 = rest@;
    assert(all.take(0).filter(keep) =~= Seq::empty()) by {
        reveal(Seq::filter);
    }
    assert(insts_view(kept@) =~= Seq::empty());
    for x in it: rest
        invariant
            it.seq() == r0,
            all == insts_view(r0),
            keep == (|i: InstView| !is_phi_of(i, phi)),
            insts_view(kept@) == all.take(it.index() as int).filter(keep),
    {
        let ghost k0 = kept@;
        proof {
            reveal(Seq::filter);
        }
        assert(all.take(it.index() + 1).drop_last() =~= all.take(it.index() as int));
        assert(all.take(it.index() + 1).last() == x@);
        if !is_phi(&x, phi) {
            kept.push(x);
            assert(insts_view(kept@) =~= insts_view(k0).push(x@));
        }
    }
    assert(all.take(all.len() as int) =~= all);
    *insts = kept;
}

} // verus!
