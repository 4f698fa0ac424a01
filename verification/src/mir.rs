//! SSA form for the numeric fast path: values, instructions, blocks and functions,
//! and the structural invariants that the back ends rely on.

pub use crate::lower::lower_fn;
pub use crate::regalloc::{regalloc, Loc, RegAlloc};
use crate::ast::{
    BinOp, Expr, ExprView, FnDef, FnDefView, Item, ItemView, Param, Stmt, StmtView, Type, TypeView,
    UnOp,
};
use crate::names::NameMap;
use crate::text::{dec_nat, push_u64, str_eq};
use std::collections::HashMap;
use vstd::prelude::*;
use vstd::string::StringExecFns;

verus! {

broadcast use vstd::std_specs::hash::group_hash_axioms;

pub type Vreg = u32;

pub type BlockId = u32;

/// An operand. A float constant is held by the bits of its IEEE double.
#[derive(Debug, Clone, Copy, PartialEq, Eq, Hash, Structural)]
pub enum Val {
    IntConst(i64),
    FloatConst(u64),
    Vreg(Vreg),
    Param(u32),
}

#[derive(Debug, Clone, Copy, PartialEq, Eq, Hash, Structural)]
pub enum BinKind {
    IAdd,
    ISub,
    IMul,
    DivConst(i64),
    ModConst(i64),
    IDiv,
    IMod,
    FAdd,
    FSub,
    FMul,
    FDiv,
    IEq,
    INe,
    ILt,
    ILe,
    IGt,
    IGe,
    FEq,
    FNe,
    FLt,
    FLe,
    FGt,
    FGe,
}

impl BinKind {
    /// Whether the operation compares its operands.
    pub fn is_cmp(self) -> (r: bool)
        ensures
            r <==> (self is IEq || self is INe || self is ILt || self is ILe || self is IGt
                || self is IGe || self is FEq || self is FNe || self is FLt || self is FLe
                || self is FGt || self is FGe),
    {
        match self {
            BinKind::IEq | BinKind::INe | BinKind::ILt | BinKind::ILe | BinKind::IGt
            | BinKind::IGe | BinKind::FEq | BinKind::FNe | BinKind::FLt | BinKind::FLe
            | BinKind::FGt | BinKind::FGe => true,
            _ => false,
        }
    }

    pub open spec fn float_op(self) -> bool {
        self is FAdd || self is FSub || self is FMul || self is FDiv || self is FEq || self is FNe
            || self is FLt || self is FLe || self is FGt || self is FGe
    }

    /// Whether the operands are floats.
    pub fn is_float(self) -> (r: bool)
        ensures
            r == self.float_op(),
    {
        match self {
            BinKind::FAdd | BinKind::FSub | BinKind::FMul | BinKind::FDiv | BinKind::FEq
            | BinKind::FNe | BinKind::FLt | BinKind::FLe | BinKind::FGt | BinKind::FGe => true,
            _ => false,
        }
    }
}

#[derive(Debug, Clone, Copy, PartialEq, Eq, Hash, Structural)]
pub enum UnKind {
    INeg,
    FNeg,
}

#[allow(inconsistent_fields)]
#[derive(Debug, PartialEq)]
pub enum Inst {
    Bin { dst: Vreg, op: BinKind, a: Val, b: Val, wrap: bool },
    Un { dst: Vreg, op: UnKind, a: Val, wrap: bool },
    Move { dst: Vreg, src: Val },
    Call { dst: Vreg, callee: String, args: Vec<Val>, is_float: bool },
    Ret(Option<Val>),
    Br { cond: Val, t: BlockId, f: BlockId },
    Jmp(BlockId),
    Phi { dst: Vreg, srcs: Vec<(BlockId, Val)> },
}

#[allow(inconsistent_fields)]
pub enum InstView {
    Bin { dst: Vreg, op: BinKind, a: Val, b: Val, wrap: bool },
    Un { dst: Vreg, op: UnKind, a: Val, wrap: bool },
    Move { dst: Vreg, src: Val },
    Call { dst: Vreg, callee: Seq<char>, args: Seq<Val>, is_float: bool },
    Ret(Option<Val>),
    Br { cond: Val, t: BlockId, f: BlockId },
    Jmp(BlockId),
    Phi { dst: Vreg, srcs: Seq<(BlockId, Val)> },
}

impl View for Inst {
    type V = InstView;

    open spec fn view(&self) -> InstView {
        match *self {
            Inst::Bin { dst, op, a, b, wrap } => InstView::Bin { dst, op, a, b, wrap },
            Inst::Un { dst, op, a, wrap } => InstView::Un { dst, op, a, wrap },
            Inst::Move { dst, src } => InstView::Move { dst, src },
            Inst::Call { dst, callee, args, is_float } => InstView::Call {
                dst,
                callee: callee@,
                args: args@,
                is_float,
            },
            Inst::Ret(v) => InstView::Ret(v),
            Inst::Br { cond, t, f } => InstView::Br { cond, t, f },
            Inst::Jmp(t) => InstView::Jmp(t),
            Inst::Phi { dst, srcs } => InstView::Phi { dst, srcs: srcs@ },
        }
    }
}

impl InstView {
    /// The register that the instruction writes.
    pub open spec fn def(self) -> Option<Vreg> {
        match self {
            InstView::Bin { dst, .. } => Some(dst),
            InstView::Un { dst, .. } => Some(dst),
            InstView::Move { dst, .. } => Some(dst),
            InstView::Call { dst, .. } => Some(dst),
            InstView::Phi { dst, .. } => Some(dst),
            _ => None,
        }
    }

    pub open spec fn is_terminator(self) -> bool {
        self is Ret || self is Br || self is Jmp
    }

    /// The operands read when the instruction runs, in order. A phi reads its
    /// operands on the incoming edges, so it has none here.
    pub open spec fn operands(self) -> Seq<Val> {
        match self {
            InstView::Bin { a, b, .. } => seq![a, b],
            InstView::Un { a, .. } => seq![a],
            InstView::Move { src, .. } => seq![src],
            InstView::Call { args, .. } => args,
            InstView::Ret(Some(v)) => seq![v],
            InstView::Br { cond, .. } => seq![cond],
            _ => seq![],
        }
    }

    /// The registers among the operands, in order.
    pub open spec fn uses(self) -> Seq<Vreg> {
        vregs_of(self.operands())
    }
}

/// The registers in a list of operands, in order.
pub open spec fn vregs_of(vals: Seq<Val>) -> Seq<Vreg>
    decreases vals.len(),
{
    if vals.len() == 0 {
        Seq::empty()
    } else {
        let init = vregs_of(vals.drop_last());
        match vals.last() {
            Val::Vreg(r) => init.push(r),
            _ => init,
        }
    }
}

fn push_vreg(out: &mut Vec<Vreg>, v: Val)
    ensures
        final(out)@ == old(out)@ + vregs_of(seq![v]),
{
    proof {
        assert(seq![v].drop_last() =~= Seq::empty());
        reveal_with_fuel(vregs_of, 2);
    }
    if let Val::Vreg(r) = v {
        out.push(r);
    }
    assert(out@ =~= old(out)@ + vregs_of(seq![v]));
}

impl Inst {
    pub fn def(&self) -> (r: Option<Vreg>)
        ensures
            r == self@.def(),
    {
        match self {
            Inst::Bin { dst, .. } => Some(*dst),
            Inst::Un { dst, .. } => Some(*dst),
            Inst::Move { dst, .. } => Some(*dst),
            Inst::Call { dst, .. } => Some(*dst),
            Inst::Phi { dst, .. } => Some(*dst),
            Inst::Ret(_) => None,
            Inst::Br { .. } => None,
            Inst::Jmp(_) => None,
        }
    }

    pub fn is_terminator(&self) -> (r: bool)
        ensures
            r == self@.is_terminator(),
    {
        match self {
            Inst::Ret(_) => true,
            Inst::Br { .. } => true,
            Inst::Jmp(_) => true,
            _ => false,
        }
    }

    pub fn uses(&self) -> (r: Vec<Vreg>)
        ensures
            r@ == self@.uses(),
    {
        let mut v: Vec<Vreg> = Vec::new();
        proof {
            reveal_with_fuel(vregs_of, 3);
        }
        match self {
            Inst::Bin { a, b, .. } => {
                push_vreg(&mut v, *a);
                push_vreg(&mut v, *b);
                assert(seq![*a, *b].drop_last() =~= seq![*a]);
                assert(seq![*a].drop_last() =~= Seq::empty());
                assert(seq![*b].drop_last() =~= Seq::empty());
                assert(v@ =~= self@.uses());
            },
            Inst::Un { a, .. } => {
                push_vreg(&mut v, *a);
                assert(v@ =~= self@.uses());
            },
            Inst::Move { src, .. } => {
                push_vreg(&mut v, *src);
                assert(v@ =~= self@.uses());
            },
            Inst::Call { args, .. } => {
                assert(args@.take(0) =~= Seq::empty());
                for i in 0..args.len()
                    invariant
                        v@ == vregs_of(args@.take(i as int)),
                {
                    assert(args@.take(i + 1).drop_last() =~= args@.take(i as int));
                    if let Val::Vreg(r) = args[i] {
                        v.push(r);
                    }
                }
                assert(args@.take(args@.len() as int) =~= args@);
            },
            Inst::Ret(Some(val)) => {
                push_vreg(&mut v, *val);
                assert(v@ =~= self@.uses());
            },
            Inst::Br { cond, .. } => {
                push_vreg(&mut v, *cond);
                assert(v@ =~= self@.uses());
            },
            _ => {},
        }
        v
    }
}

#[derive(Debug, PartialEq)]
pub struct Block {
    pub id: BlockId,
    pub insts: Vec<Inst>,
}

pub struct BlockView {
    pub id: BlockId,
    pub insts: Seq<InstView>,
}

pub open spec fn insts_view(s: Seq<Inst>) -> Seq<InstView> {
    Seq::new(s.len(), |i: int| s[i]@)
}

impl View for Block {
    type V = BlockView;

    open spec fn view(&self) -> BlockView {
        BlockView { id: self.id, insts: insts_view(self.insts@) }
    }
}

pub open spec fn blocks_view(s: Seq<Block>) -> Seq<BlockView> {
    Seq::new(s.len(), |i: int| s[i]@)
}

impl Block {
    pub fn new(id: BlockId) -> (r: Block)
        ensures
            r@ == (BlockView { id, insts: Seq::empty() }),
            r.insts@ == Seq::<Inst>::empty(),
    {
        let r = Block { id, insts: Vec::new() };
        assert(r@.insts =~= Seq::empty());
        r
    }

    /// The last instruction, where it is a terminator.
    pub fn terminator(&self) -> (r: Option<&Inst>)
        ensures
            r is Some <==> self.insts@.len() > 0 && self.insts@.last()@.is_terminator(),
            r is Some ==> *r->Some_0 == self.insts@.last(),
    {
        let n: usize = self.insts.len();
        if n > 0 && self.insts[n - 1].is_terminator() {
            Some(&self.insts[n - 1])
        } else {
            None
        }
    }
}

/// A function in SSA form. `div_lines` gives the source line of a division by the
/// register that it defines.
#[derive(Debug, PartialEq)]
pub struct MirFn {
    pub name: String,
    pub n_params: u32,
    pub param_is_float: Vec<bool>,
    pub ret_is_float: bool,
    pub entry: BlockId,
    pub blocks: Vec<Block>,
    pub next_vreg: Vreg,
    pub div_lines: HashMap<Vreg, u32>,
}

pub struct MirFnView {
    pub name: Seq<char>,
    pub n_params: u32,
    pub param_is_float: Seq<bool>,
    pub ret_is_float: bool,
    pub entry: BlockId,
    pub blocks: Seq<BlockView>,
    pub next_vreg: Vreg,
    pub div_lines: Map<Vreg, u32>,
}

impl View for MirFn {
    type V = MirFnView;

    open spec fn view(&self) -> MirFnView {
        MirFnView {
            name: self.name@,
            n_params: self.n_params,
            param_is_float: self.param_is_float@,
            ret_is_float: self.ret_is_float,
            entry: self.entry,
            blocks: blocks_view(self.blocks@),
            next_vreg: self.next_vreg,
            div_lines: self.div_lines@,
        }
    }
}

/// How many of the instructions are terminators.
pub open spec fn terminator_count(insts: Seq<InstView>) -> nat
    decreases insts.len(),
{
    if insts.len() == 0 {
        0
    } else {
        terminator_count(insts.drop_last()) + (if insts.last().is_terminator() {
            1nat
        } else {
            0nat
        })
    }
}

pub open spec fn ends_in_terminator(insts: Seq<InstView>) -> bool {
    insts.len() > 0 && insts.last().is_terminator()
}

/// No phi stands behind an instruction of another kind.
pub open spec fn phis_first(insts: Seq<InstView>) -> bool {
    forall|i: int, j: int|
        0 <= i < j < insts.len() && (#[trigger] insts[j]) is Phi ==> (#[trigger] insts[i]) is Phi
}

/// What is wrong with a block of a function of `n` blocks, if anything.
pub open spec fn block_fault(b: BlockView, n: u32) -> Option<Seq<char>> {
    let head = "block "@ + dec_nat(b.id as nat);
    if !ends_in_terminator(b.insts) {
        Some(head + " does not end in a terminator"@)
    } else if terminator_count(b.insts) != 1 {
        Some(head + " has "@ + dec_nat(terminator_count(b.insts)) + " terminators (want 1)"@)
    } else if !phis_first(b.insts) {
        Some(head + " has a phi after a non-phi"@)
    } else {
        match b.insts.last() {
            InstView::Br { t, f, .. } => if t >= n || f >= n {
                Some(head + " branches out of range"@)
            } else {
                None
            },
            InstView::Jmp(t) => if t >= n {
                Some(head + " jumps out of range"@)
            } else {
                None
            },
            _ => None,
        }
    }
}

/// What is wrong with the first faulty block, if there is one.
pub open spec fn blocks_fault(blocks: Seq<BlockView>, n: u32) -> Option<Seq<char>>
    decreases blocks.len(),
{
    if blocks.len() == 0 {
        None
    } else {
        match block_fault(blocks[0], n) {
            Some(m) => Some(m),
            None => blocks_fault(blocks.drop_first(), n),
        }
    }
}

/// What is wrong with the structure of a function, if anything.
pub open spec fn fault(m: MirFnView) -> Option<Seq<char>> {
    if m.blocks.len() == 0 {
        Some("function has no blocks"@)
    } else if m.entry >= m.blocks.len() {
        Some("entry block out of range"@)
    } else {
        blocks_fault(m.blocks, (m.blocks.len() % 0x1_0000_0000) as u32)
    }
}

proof fn terminator_count_split(insts: Seq<InstView>, k: int)
    requires
        0 <= k < insts.len(),
    ensures
        insts[k].is_terminator() ==> terminator_count(insts) >= 1,
        insts[k].is_terminator() && insts.last().is_terminator() && k < insts.len() - 1
            ==> terminator_count(insts) >= 2,
    decreases insts.len(),
{
    if k < insts.len() - 1 {
        terminator_count_split(insts.drop_last(), k);
    }
}

proof fn blocks_fault_none(blocks: Seq<BlockView>, n: u32)
    ensures
        blocks_fault(blocks, n) is None <==> forall|i: int|
            0 <= i < blocks.len() ==> block_fault(#[trigger] blocks[i], n) is None,
    decreases blocks.len(),
{
    if blocks.len() > 0 {
        let rest = blocks.drop_first();
        blocks_fault_none(rest, n);
        if blocks_fault(rest, n) is None && block_fault(blocks[0], n) is None {
            assert forall|i: int| 0 <= i < blocks.len() implies block_fault(
                #[trigger] blocks[i],
                n,
            ) is None by {
                if i > 0 {
                    assert(rest[i - 1] == blocks[i]);
                }
            }
        }
        if forall|i: int| 0 <= i < blocks.len() ==> block_fault(#[trigger] blocks[i], n) is None {
            assert forall|i: int| 0 <= i < rest.len() implies block_fault(
                #[trigger] rest[i],
                n,
            ) is None by {
                assert(rest[i] == blocks[i + 1]);
            }
        }
    }
}

/// The structural invariants of SSA form: there is an entry block, every block
/// ends in its only terminator, phis come first, and every target exists.
pub open spec fn well_formed(m: MirFnView) -> bool {
    &&& m.entry < m.blocks.len()
    &&& forall|i: int| 0 <= i < m.blocks.len() ==> block_well_formed(
        #[trigger] m.blocks[i],
        m.blocks.len(),
    )
}

pub open spec fn block_well_formed(b: BlockView, n: nat) -> bool {
    &&& ends_in_terminator(b.insts)
    &&& forall|k: int| 0 <= k < b.insts.len() - 1 ==> !(#[trigger] b.insts[k]).is_terminator()
    &&& phis_first(b.insts)
    &&& match b.insts.last() {
        InstView::Br { t, f, .. } => t < n && f < n,
        InstView::Jmp(t) => t < n,
        _ => true,
    }
}

proof fn single_terminator(insts: Seq<InstView>)
    requires
        ends_in_terminator(insts),
    ensures
        terminator_count(insts) == 1 <==> forall|k: int|
            0 <= k < insts.len() - 1 ==> !(#[trigger] insts[k]).is_terminator(),
{
    if terminator_count(insts) == 1 {
        assert forall|k: int| 0 <= k < insts.len() - 1 implies !(
        #[trigger] insts[k]).is_terminator() by {
            terminator_count_split(insts, k);
        }
    }
    if forall|k: int| 0 <= k < insts.len() - 1 ==> !(#[trigger] insts[k]).is_terminator() {
        let init = insts.drop_last();
        assert forall|k: int| 0 <= k < init.len() implies !(#[trigger] init[k]).is_terminator() by {
            assert(init[k] == insts[k]);
        }
        no_terminators(init);
    }
}

proof fn no_terminators(insts: Seq<InstView>)
    requires
        forall|k: int| 0 <= k < insts.len() ==> !(#[trigger] insts[k]).is_terminator(),
    ensures
        terminator_count(insts) == 0,
    decreases insts.len(),
{
    if insts.len() > 0 {
        let init = insts.drop_last();
        assert forall|k: int| 0 <= k < init.len() implies !(#[trigger] init[k]).is_terminator() by {
            assert(init[k] == insts[k]);
        }
        no_terminators(init);
    }
}

/// A function is accepted exactly when it has the structural invariants of SSA
/// form (block numbers have 32 bits, so it has at most that many blocks).
pub proof fn accepted_iff_well_formed(m: MirFnView)
    requires
        m.blocks.len() <= u32::MAX,
    ensures
        fault(m) is None <==> well_formed(m),
{
    let n = m.blocks.len() as u32;
    assert(m.blocks.len() % 0x1_0000_0000 == m.blocks.len());
    blocks_fault_none(m.blocks, n);
    assert forall|i: int| 0 <= i < m.blocks.len() implies (block_fault(
        #[trigger] m.blocks[i],
        n,
    ) is None <==> block_well_formed(m.blocks[i], m.blocks.len())) by {
        if ends_in_terminator(m.blocks[i].insts) {
            single_terminator(m.blocks[i].insts);
        }
    }
}

impl MirFn {
    pub fn new(name: &str, param_is_float: Vec<bool>, ret_is_float: bool) -> (r: MirFn)
        ensures
            r@ == (MirFnView {
                name: name@,
                n_params: (param_is_float@.len() % 0x1_0000_0000) as u32,
                param_is_float: param_is_float@,
                ret_is_float,
                entry: 0,
                blocks: Seq::empty(),
                next_vreg: 0,
                div_lines: Map::empty(),
            }),
    {
        let n_params: u32 = (param_is_float.len() as u64 % 0x1_0000_0000) as u32;
        let r = MirFn {
            name: name.to_owned(),
            n_params,
            param_is_float,
            ret_is_float,
            entry: 0,
            blocks: Vec::new(),
            next_vreg: 0,
            div_lines: HashMap::new(),
        };
        assert(r@.blocks =~= Seq::empty());
        r
    }

    /// Hands out the next register.
    pub fn fresh_vreg(&mut self) -> (r: Vreg)
        requires
            old(self).next_vreg < u32::MAX,
        ensures
            r == old(self).next_vreg,
            final(self)@ == (MirFnView { next_vreg: (r + 1) as u32, ..old(self)@ }),
    {
        let v: Vreg = self.next_vreg;
        self.next_vreg = self.next_vreg + 1;
        v
    }

    /// Adds an empty block behind the others.
    pub fn new_block(&mut self) -> (r: BlockId)
        ensures
            r == old(self).blocks@.len() % 0x1_0000_0000,
            final(self)@ == (MirFnView {
                blocks: old(self)@.blocks.push(BlockView { id: r, insts: Seq::empty() }),
                ..old(self)@
            }),
    {
        let id: u32 = (self.blocks.len() as u64 % 0x1_0000_0000) as u32;
        self.blocks.push(Block::new(id));
        assert(self@.blocks =~= old(self)@.blocks.push(BlockView { id, insts: Seq::empty() }));
        id
    }

    pub fn block_mut(&mut self, id: BlockId) -> (r: &mut Block)
        requires
            id < old(self).blocks@.len(),
        ensures
            *r == old(self).blocks@[id as int],
            final(self)@ == (MirFnView {
                blocks: old(self)@.blocks.update(id as int, (*final(r))@),
                ..old(self)@
            }),
    {
        let ghost m0 = *self;
        let r = &mut self.blocks[id as usize];
        assert(blocks_view(m0.blocks@.update(id as int, *final(r))) =~= blocks_view(
            m0.blocks@
        ).update(id as int, (*final(r))@));
        r
    }

    pub fn block(&self, id: BlockId) -> (r: &Block)
        requires
            id < self.blocks@.len(),
        ensures
            *r == self.blocks@[id as int],
            r@ == self@.blocks[id as int],
    {
        &self.blocks[id as usize]
    }

    /// Checks the structural invariants and reports the first fault.
    pub fn validate(&self) -> (r: Result<(), String>)
        ensures
            r is Ok <==> fault(self@) is None,
            r is Err ==> fault(self@) == Some(r->Err_0@),
    {
        if self.blocks.len() == 0 {
            return Err("function has no blocks".to_owned());
        }
        if self.entry as usize >= self.blocks.len() {
            return Err("entry block out of range".to_owned());
        }
        let n: u32 = (self.blocks.len() as u64 % 0x1_0000_0000) as u32;
        let ghost bs = self@.blocks;
        assert(bs.skip(0) =~= bs);
        for i in 0..self.blocks.len()
            invariant
                bs == self@.blocks,
                bs.len() > 0,
                self.entry < bs.len(),
                n == (bs.len() % 0x1_0000_0000) as u32,
                blocks_fault(bs.skip(i as int), n) == blocks_fault(bs, n),
        {
            assert(bs.skip(i as int)[0] == bs[i as int]);
            assert(bs.skip(i as int).drop_first() =~= bs.skip(i + 1));
            if let Some(m) = check_block(&self.blocks[i], n) {
                return Err(m);
            }
        }
        Ok(())
    }
}

fn block_message(id: BlockId, tail: &str) -> (r: String)
    ensures
        r@ == "block "@ + dec_nat(id as nat) + tail@,
{
    let mut m = "block ".to_owned();
    push_u64(&mut m, id as u64);
    m.append(tail);
    m
}

fn check_block(b: &Block, n: u32) -> (r: Option<String>)
    ensures
        r is Some <==> block_fault(b@, n) is Some,
        r is Some ==> block_fault(b@, n) == Some(r->Some_0@),
{
    let ghost is = b@.insts;
    if b.terminator().is_none() {
        return Some(block_message(b.id, " does not end in a terminator"));
    }
    let mut terms: u64 = 0;
    assert(is.take(0) =~= Seq::empty());
    for i in 0..b.insts.len()
        invariant
            is == b@.insts,
            terms <= i,
            terms == terminator_count(is.take(i as int)),
    {
        assert(is.take(i + 1).drop_last() =~= is.take(i as int));
        assert(is.take(i + 1).last() == b.insts@[i as int]@);
        if b.insts[i].is_terminator() {
            terms = terms + 1;
        }
    }
    assert(is.take(is.len() as int) =~= is);
    if terms != 1 {
        let mut m = block_message(b.id, " has ");
        push_u64(&mut m, terms);
        m.append(" terminators (want 1)");
        return Some(m);
    }
    proof {
        single_terminator(is);
    }
    let mut seen_nonphi = false;
    let ghost mut first: int = 0;
    for i in 0..b.insts.len()
        invariant
            is == b@.insts,
            ends_in_terminator(is),
            terminator_count(is) == 1,
            seen_nonphi ==> 0 <= first < i && !(is[first] is Phi),
            !seen_nonphi ==> forall|k: int| 0 <= k < i ==> (#[trigger] is[k]) is Phi,
            forall|k: int, j: int|
                0 <= k < j < i && (#[trigger] is[j]) is Phi ==> (#[trigger] is[k]) is Phi,
    {
        assert(is[i as int] == b.insts@[i as int]@);
        match &b.insts[i] {
            Inst::Phi { .. } => {
                if seen_nonphi {
                    assert(is[first] is Phi || !phis_first(is));
                    return Some(block_message(b.id, " has a phi after a non-phi"));
                }
            },
            _ => {
                if !seen_nonphi {
                    proof {
                        first = i as int;
                    }
                }
                seen_nonphi = true;
            },
        }
    }
    match &b.insts[b.insts.len() - 1] {
        Inst::Br { t, f, .. } => {
            if *t >= n || *f >= n {
                return Some(block_message(b.id, " branches out of range"));
            }
        },
        Inst::Jmp(t) => {
            if *t >= n {
                return Some(block_message(b.id, " jumps out of range"));
            }
        },
        _ => {},
    }
    None
}

/// Which functions return a float and which an integer.
#[derive(Debug)]
pub struct SigMap {
    pub ret_is_float: NameMap<bool>,
}

pub open spec fn named(t: TypeView, n: Seq<char>) -> bool {
    t == TypeView::Named(n)
}

pub(crate) fn type_is(t: &Type, n: &str) -> (r: bool)
    ensures
        r == named(t@, n@),
{
    match t {
        Type::Named(m) => str_eq(m.as_str(), n),
        _ => false,
    }
}

/// The return kinds of the functions among `items`; a later one of a name counts.
pub open spec fn sigs_of(items: Seq<ItemView>) -> Map<Seq<char>, bool>
    decreases items.len(),
{
    if items.len() == 0 {
        Map::empty()
    } else {
        let init = sigs_of(items.drop_last());
        match items.last() {
            ItemView::Fn(f) => if f.is_method {
                init
            } else if named(f.ret, "f64"@) {
                init.insert(f.name, true)
            } else if named(f.ret, "i64"@) {
                init.insert(f.name, false)
            } else {
                init
            },
            _ => init,
        }
    }
}

impl SigMap {
    pub fn new() -> (r: SigMap)
        ensures
            r.ret_is_float@ == Map::<Seq<char>, bool>::empty(),
    {
        SigMap { ret_is_float: NameMap::new() }
    }

    pub fn from_program(prog: &Vec<Item>) -> (r: SigMap)
        ensures
            r.ret_is_float@ == sigs_of(crate::ast::prog_view(prog@)),
    {
        let mut m = SigMap::new();
        let ghost pv = crate::ast::prog_view(prog@);
        assert(pv.take(0) =~= Seq::empty());
        for i in 0..prog.len()
            invariant
                pv == crate::ast::prog_view(prog@),
                m.ret_is_float@ == sigs_of(pv.take(i as int)),
        {
            assert(pv.take(i + 1).drop_last() =~= pv.take(i as int));
            assert(pv.take(i + 1).last() == prog@[i as int]@);
            if let Item::Fn(f) = &prog[i] {
                if !f.is_method {
                    if type_is(&f.ret, "f64") {
                        m.ret_is_float.insert(f.name.as_str(), true);
                    } else if type_is(&f.ret, "i64") {
                        m.ret_is_float.insert(f.name.as_str(), false);
                    }
                }
            }
        }
        assert(pv.take(pv.len() as int) =~= pv);
        m
    }
}

/// Whether an operation has a lowering. (That of `%` has none on floats, which is seen only
/// once the operands are lowered.)
pub open spec fn scalar_op(op: BinOp) -> bool {
    op != BinOp::Pow && op != BinOp::In && op != BinOp::NotIn
}

pub open spec fn joins(op: BinOp) -> bool {
    op == BinOp::And || op == BinOp::Or
}

pub open spec fn compares_numbers(op: BinOp) -> bool {
    op == BinOp::Eq || op == BinOp::Ne || op == BinOp::Lt || op == BinOp::Le || op == BinOp::Gt
        || op == BinOp::Ge
}

/// Whether the bounds of a loop are numeric scalars.
pub open spec fn bounds_ok(iter: ExprView) -> bool {
    match iter {
        ExprView::Range { lo, hi } => expr_ok_spec(*lo) && expr_ok_spec(*hi),
        _ => false,
    }
}

/// Whether an expression is a numeric scalar of a shape that lowering can take.
pub open spec fn expr_ok_spec(e: ExprView) -> bool
    decreases e,
{
    match e {
        ExprView::Int(_) | ExprView::Float(_) | ExprView::Bool(_) | ExprView::Ident(_) => true,
        ExprView::Unary { op, expr } => match op {
            UnOp::Neg => expr_ok_spec(*expr),
            UnOp::Not => cond_ok_spec(*expr),
        },
        ExprView::Binary { op, lhs, rhs } => if joins(op) {
            cond_ok_spec(*lhs) && cond_ok_spec(*rhs)
        } else {
            scalar_op(op) && expr_ok_spec(*lhs) && expr_ok_spec(*rhs)
        },
        ExprView::Call { callee, args } => *callee is Ident && exprs_ok_spec(args),
        ExprView::IfElse { cond, then, els } => cond_ok_spec(*cond) && expr_ok_spec(*then)
            && expr_ok_spec(*els),
        _ => false,
    }
}

/// Whether an expression gives a truth value, as a condition must: a comparison, a literal,
/// or `and`, `or` and `not` of such.
pub open spec fn cond_ok_spec(e: ExprView) -> bool
    decreases e,
{
    match e {
        ExprView::Bool(_) => true,
        ExprView::Unary { op, expr } => op == UnOp::Not && cond_ok_spec(*expr),
        ExprView::Binary { op, lhs, rhs } => if joins(op) {
            cond_ok_spec(*lhs) && cond_ok_spec(*rhs)
        } else {
            compares_numbers(op) && expr_ok_spec(*lhs) && expr_ok_spec(*rhs)
        },
        _ => false,
    }
}

pub open spec fn exprs_ok_spec(s: Seq<ExprView>) -> bool
    decreases s,
{
    forall|i: int| 0 <= i < s.len() ==> expr_ok_spec(#[trigger] s[i])
}

pub open spec fn elifs_ok_spec(s: Seq<(ExprView, Seq<StmtView>)>) -> bool
    decreases s,
{
    forall|i: int|
        0 <= i < s.len() ==> cond_ok_spec((#[trigger] s[i]).0) && stmts_ok_spec(s[i].1)
}

pub open spec fn stmts_ok_spec(b: Seq<StmtView>) -> bool
    decreases b,
{
    forall|i: int| 0 <= i < b.len() ==> stmt_ok_spec(#[trigger] b[i])
}

pub open spec fn stmt_ok_spec(s: StmtView) -> bool
    decreases s,
{
    match s {
        StmtView::Let { value, .. } => expr_ok_spec(value),
        StmtView::Assign { target, value } => target is Ident && expr_ok_spec(value),
        StmtView::ExprStmt(e) => expr_ok_spec(e),
        StmtView::Return(o) => match o {
            Some(e) => expr_ok_spec(e),
            None => true,
        },
        StmtView::If { cond, then, elifs, els } => {
            &&& cond_ok_spec(cond)
            &&& stmts_ok_spec(then)
            &&& elifs_ok_spec(elifs)
            &&& match els {
                Some(b) => stmts_ok_spec(b),
                None => true,
            }
        },
        StmtView::While { cond, body } => cond_ok_spec(cond) && stmts_ok_spec(body),
        StmtView::For { iter, body, .. } => bounds_ok(iter) && stmts_ok_spec(body),
        StmtView::Try { .. } | StmtView::Raise(_) => false,
        StmtView::Break | StmtView::Continue | StmtView::SrcLine(_) => true,
    }
}

pub open spec fn numeric(t: TypeView) -> bool {
    named(t, "i64"@) || named(t, "f64"@)
}

/// Whether a function takes and gives numbers alone and computes with scalars.
pub open spec fn eligible(f: FnDefView) -> bool {
    &&& !f.is_method
    &&& forall|i: int| 0 <= i < f.params.len() ==> numeric((#[trigger] f.params[i]).ty)
    &&& numeric(f.ret)
    &&& stmts_ok_spec(f.body)
}

fn expr_ok(e: &Expr) -> (r: bool)
    ensures
        r == expr_ok_spec(e@),
    decreases e,
{
    match e {
        Expr::Int(_) => true,
        Expr::Float(_) => true,
        Expr::Bool(_) => true,
        Expr::Ident(_) => true,
        Expr::Unary { op, expr } => match op {
            UnOp::Neg => expr_ok(expr),
            UnOp::Not => cond_ok(expr),
        },
        Expr::Binary { op, lhs, rhs } => if *op == BinOp::And || *op == BinOp::Or {
            cond_ok(lhs) && cond_ok(rhs)
        } else {
            *op != BinOp::Pow && *op != BinOp::In && *op != BinOp::NotIn && expr_ok(lhs)
                && expr_ok(rhs)
        },
        Expr::Call { callee, args } => {
            let direct = match &**callee {
                Expr::Ident(_) => true,
                _ => false,
            };
            assert(direct == (callee@ is Ident));
            direct && exprs_ok(args)
        },
        Expr::IfElse { cond, then, els } => cond_ok(cond) && expr_ok(then) && expr_ok(els),
        _ => false,
    }
}

fn cond_ok(e: &Expr) -> (r: bool)
    ensures
        r == cond_ok_spec(e@),
    decreases e,
{
    match e {
        Expr::Bool(_) => true,
        Expr::Unary { op, expr } => *op == UnOp::Not && cond_ok(expr),
        Expr::Binary { op, lhs, rhs } => match op {
            BinOp::And | BinOp::Or => cond_ok(lhs) && cond_ok(rhs),
            BinOp::Eq | BinOp::Ne | BinOp::Lt | BinOp::Le | BinOp::Gt | BinOp::Ge => expr_ok(lhs)
                && expr_ok(rhs),
            _ => false,
        },
        _ => false,
    }
}

fn exprs_ok(v: &Vec<Expr>) -> (r: bool)
    ensures
        r == exprs_ok_spec(crate::ast::exprs_view(v@)),
    decreases v,
{
    let ghost ev = crate::ast::exprs_view(v@);
    for i in 0..v.len()
        invariant
            ev == crate::ast::exprs_view(v@),
            forall|k: int| 0 <= k < i ==> expr_ok_spec(#[trigger] ev[k]),
    {
        assert(ev[i as int] == v@[i as int]@);
        if !expr_ok(&v[i]) {
            return false;
        }
    }
    true
}

fn stmts_ok(v: &Vec<Stmt>) -> (r: bool)
    ensures
        r == stmts_ok_spec(crate::ast::stmts_view(v@)),
    decreases v,
{
    let ghost sv = crate::ast::stmts_view(v@);
    for i in 0..v.len()
        invariant
            sv == crate::ast::stmts_view(v@),
            forall|k: int| 0 <= k < i ==> stmt_ok_spec(#[trigger] sv[k]),
    {
        assert(sv[i as int] == v@[i as int]@);
        if !stmt_ok(&v[i]) {
            return false;
        }
    }
    true
}

fn elifs_ok(v: &Vec<(Expr, Vec<Stmt>)>) -> (r: bool)
    ensures
        r == elifs_ok_spec(crate::ast::elifs_view(v@)),
    decreases v,
{
    let ghost ev = crate::ast::elifs_view(v@);
    for i in 0..v.len()
        invariant
            ev == crate::ast::elifs_view(v@),
            forall|k: int|
                0 <= k < i ==> cond_ok_spec((#[trigger] ev[k]).0) && stmts_ok_spec(ev[k].1),
    {
        assert(ev[i as int] == (v@[i as int].0@, crate::ast::stmts_view(v@[i as int].1@)));
        if !(cond_ok(&v[i].0) && stmts_ok(&v[i].1)) {
            return false;
        }
    }
    true
}

fn stmt_ok(s: &Stmt) -> (r: bool)
    ensures
        r == stmt_ok_spec(s@),
    decreases s,
{
    match s {
        Stmt::Let { value, .. } => expr_ok(value),
        Stmt::Assign { target, value } => {
            let plain = match target {
                Expr::Ident(_) => true,
                _ => false,
            };
            plain && expr_ok(value)
        },
        Stmt::ExprStmt(e) => expr_ok(e),
        Stmt::Return(o) => match o {
            Some(e) => expr_ok(e),
            None => true,
        },
        Stmt::If { cond, then, elifs, els } => cond_ok(cond) && stmts_ok(then) && elifs_ok(elifs)
            && match els {
            Some(b) => stmts_ok(b),
            None => true,
        },
        Stmt::While { cond, body } => cond_ok(cond) && stmts_ok(body),
        Stmt::For { iter, body, .. } => {
            let ranged = match iter {
                Expr::Range { lo, hi } => expr_ok(lo) && expr_ok(hi),
                _ => false,
            };
            ranged && stmts_ok(body)
        },
        Stmt::Try { .. } => false,
        Stmt::Raise(_) => false,
        _ => true,
    }
}

/// Whether `f` may take the numeric fast path.
pub fn mir_eligible(f: &FnDef) -> (r: bool)
    ensures
        r == eligible(f@),
{
    if f.is_method {
        return false;
    }
    for i in 0..f.params.len()
        invariant
            forall|k: int| 0 <= k < i ==> numeric((#[trigger] f@.params[k]).ty),
    {
        let t: &Type = &f.params[i].ty;
        assert(f@.params[i as int].ty == t@);
        if !(type_is(t, "i64") || type_is(t, "f64")) {
            return false;
        }
    }
    if !(type_is(&f.ret, "i64") || type_is(&f.ret, "f64")) {
        return false;
    }
    stmts_ok(&f.body)
}

} // verus!
