//! Linear-scan register allocation over one numbering of all instructions.

use crate::liveness::{
    flow, graph_ok, least_liveness, live_out_of, liveness, sets_view, solves, take_contains,
};
use crate::mir::{Block, BlockView, Inst, InstView, MirFn, MirFnView, Vreg};
use crate::regset::RegSet;
use std::collections::HashMap;
use vstd::prelude::*;

verus! {

broadcast use vstd::std_specs::hash::group_hash_axioms;

/// Where a register lives: in a machine register, or in the frame.
#[derive(Debug, Clone, Copy, PartialEq, Eq)]
pub enum Loc {
    Reg(&'static str),
    Spill,
}

#[derive(Debug)]
pub struct RegAlloc {
    pub loc: HashMap<Vreg, Loc>,
    pub callee_saved_used: Vec<&'static str>,
}

/// Machine registers are numbered: the first four are lost across a call, the
/// other five survive one and are saved by whoever uses them.
pub open spec fn reg_name(r: u8) -> Seq<char> {
    if r == 0 {
        "r8"@
    } else if r == 1 {
        "r9"@
    } else if r == 2 {
        "r10"@
    } else if r == 3 {
        "r11"@
    } else if r == 4 {
        "rbx"@
    } else if r == 5 {
        "r12"@
    } else if r == 6 {
        "r13"@
    } else if r == 7 {
        "r14"@
    } else {
        "r15"@
    }
}

pub open spec fn callee_saved(r: u8) -> bool {
    4 <= r < 9
}

fn reg_str(r: u8) -> (s: &'static str)
    ensures
        s@ == reg_name(r),
{
    match r {
        0 => "r8",
        1 => "r9",
        2 => "r10",
        3 => "r11",
        4 => "rbx",
        5 => "r12",
        6 => "r13",
        7 => "r14",
        _ => "r15",
    }
}

/// The characters of the names, by which they differ.
proof fn reg_name_chars(r: u8)
    requires
        r < 9,
    ensures
        r == 0 ==> reg_name(r).len() == 2 && reg_name(r)[1] == '8',
        r == 1 ==> reg_name(r).len() == 2 && reg_name(r)[1] == '9',
        r == 2 ==> reg_name(r).len() == 3 && reg_name(r)[1] == '1' && reg_name(r)[2] == '0',
        r == 3 ==> reg_name(r).len() == 3 && reg_name(r)[1] == '1' && reg_name(r)[2] == '1',
        r == 4 ==> reg_name(r).len() == 3 && reg_name(r)[1] == 'b' && reg_name(r)[2] == 'x',
        r == 5 ==> reg_name(r).len() == 3 && reg_name(r)[1] == '1' && reg_name(r)[2] == '2',
        r == 6 ==> reg_name(r).len() == 3 && reg_name(r)[1] == '1' && reg_name(r)[2] == '3',
        r == 7 ==> reg_name(r).len() == 3 && reg_name(r)[1] == '1' && reg_name(r)[2] == '4',
        r == 8 ==> reg_name(r).len() == 3 && reg_name(r)[1] == '1' && reg_name(r)[2] == '5',
{
    reveal_strlit("r8");
    reveal_strlit("r9");
    reveal_strlit("r10");
    reveal_strlit("r11");
    reveal_strlit("rbx");
    reveal_strlit("r12");
    reveal_strlit("r13");
    reveal_strlit("r14");
    reveal_strlit("r15");
}

proof fn reg_name_injective(a: u8, b: u8)
    requires
        a < 9,
        b < 9,
        reg_name(a) == reg_name(b),
    ensures
        a == b,
{
    reg_name_chars(a);
    reg_name_chars(b);
}

/// The stretch of the numbering in which a register is live, and whether a call
/// stands in it.
#[derive(Clone, Copy, Debug, PartialEq, Eq, Structural)]
pub struct Interval {
    pub vreg: Vreg,
    pub start: usize,
    pub end: usize,
    pub across_call: bool,
}

/// How many instructions the blocks hold.
pub open spec fn total_insts(blocks: Seq<BlockView>) -> nat
    decreases blocks.len(),
{
    if blocks.len() == 0 {
        0
    } else {
        total_insts(blocks.drop_last()) + blocks.last().insts.len()
    }
}

/// The number of the first instruction of block `b`.
pub open spec fn first_index(m: MirFnView, b: int) -> int {
    total_insts(m.blocks.take(b)) as int
}

/// The number of the last instruction of block `b`.
pub open spec fn last_index(m: MirFnView, b: int) -> int {
    let end = total_insts(m.blocks.take(b + 1)) as int;
    if end == 0 {
        0
    } else {
        end - 1
    }
}

pub open spec fn mentions(i: InstView, v: Vreg) -> bool {
    i.def() == Some(v) || i.uses().contains(v)
}

/// A register together with the number of an instruction at which it counts.
pub type Event = (Vreg, int);

pub open spec fn inst_events(i: InstView, at: int) -> Set<Event> {
    Set::new(|e: Event| e.1 == at && mentions(i, e.0))
}

pub open spec fn run_events(insts: Seq<InstView>, base: int) -> Set<Event>
    decreases insts.len(),
{
    if insts.len() == 0 {
        Set::empty()
    } else {
        run_events(insts.drop_last(), base).union(
            inst_events(insts.last(), base + insts.len() - 1),
        )
    }
}

/// Every mention of a register by an instruction.
pub open spec fn block_events(blocks: Seq<BlockView>) -> Set<Event>
    decreases blocks.len(),
{
    if blocks.len() == 0 {
        Set::empty()
    } else {
        block_events(blocks.drop_last()).union(
            run_events(blocks.last().insts, total_insts(blocks.drop_last()) as int),
        )
    }
}

pub open spec fn at_index(s: Set<Vreg>, i: int) -> Set<Event> {
    Set::new(|e: Event| e.1 == i && s.contains(e.0))
}

/// What is live at the borders of the first `n` blocks.
pub open spec fn border_events(m: MirFnView, lin: Seq<Set<Vreg>>, n: nat) -> Set<Event>
    decreases n,
{
    if n == 0 {
        Set::empty()
    } else {
        let b = n - 1;
        border_events(m, lin, b as nat).union(at_index(lin[b], first_index(m, b))).union(
            at_index(live_out_of(m, lin, b), last_index(m, b)),
        )
    }
}

pub open spec fn events(m: MirFnView, lin: Seq<Set<Vreg>>) -> Set<Event> {
    block_events(m.blocks).union(border_events(m, lin, m.blocks.len()))
}

pub open spec fn run_calls(insts: Seq<InstView>, base: int) -> Set<int>
    decreases insts.len(),
{
    if insts.len() == 0 {
        Set::empty()
    } else {
        let init = run_calls(insts.drop_last(), base);
        if insts.last() is Call {
            init.insert(base + insts.len() - 1)
        } else {
            init
        }
    }
}

/// The numbers of the calls.
pub open spec fn call_sites(blocks: Seq<BlockView>) -> Set<int>
    decreases blocks.len(),
{
    if blocks.len() == 0 {
        Set::empty()
    } else {
        call_sites(blocks.drop_last()).union(
            run_calls(blocks.last().insts, total_insts(blocks.drop_last()) as int),
        )
    }
}

/// `s` and `e` are the least and the greatest number at which `v` counts.
pub open spec fn spans(ev: Set<Event>, v: Vreg, s: int, e: int) -> bool {
    &&& ev.contains((v, s))
    &&& ev.contains((v, e))
    &&& forall|i: int| #[trigger] ev.contains((v, i)) ==> s <= i <= e
}

pub open spec fn covers_call(calls: Set<int>, s: int, e: int) -> bool {
    exists|c: int| s <= c <= e && #[trigger] calls.contains(c)
}

pub open spec fn earlier(a: Interval, b: Interval) -> bool {
    a.start < b.start || (a.start == b.start && a.vreg < b.vreg)
}

pub open spec fn ordered(ivs: Seq<Interval>) -> bool {
    forall|i: int, j: int|
        0 <= i < j < ivs.len() ==> earlier(#[trigger] ivs[i], #[trigger] ivs[j])
}

/// `ivs` lists the interval of every register that counts anywhere, by its start.
pub open spec fn intervals_of(ev: Set<Event>, calls: Set<int>, ivs: Seq<Interval>) -> bool {
    &&& ordered(ivs)
    &&& forall|i: int|
        0 <= i < ivs.len() ==> spans(
            ev,
            (#[trigger] ivs[i]).vreg,
            ivs[i].start as int,
            ivs[i].end as int,
        ) && ivs[i].across_call == covers_call(calls, ivs[i].start as int, ivs[i].end as int)
    &&& forall|e: Event| #[trigger] ev.contains(e) ==> exists|i: int|
        0 <= i < ivs.len() && (#[trigger] ivs[i]).vreg == e.0
}

/// The state of the scan: which machine registers are held and until when, which
/// are free, and where each register seen so far was put.
pub struct Scan {
    pub active: Seq<(int, u8)>,
    pub free_vol: Seq<u8>,
    pub free_cal: Seq<u8>,
    pub loc: Map<Vreg, Option<u8>>,
    pub used: Set<u8>,
}

pub open spec fn scan_start() -> Scan {
    Scan {
        active: Seq::empty(),
        free_vol: seq![0, 1, 2, 3],
        free_cal: seq![4, 5, 6, 7, 8],
        loc: Map::empty(),
        used: Set::empty(),
    }
}

/// Gives back the machine registers whose holders end before `start`.
pub open spec fn expire(st: Scan, start: int) -> Scan {
    let (active, free_vol, free_cal) = expired(st.active, start, st.free_vol, st.free_cal);
    Scan { active, free_vol, free_cal, ..st }
}

pub open spec fn expired(active: Seq<(int, u8)>, start: int, vol: Seq<u8>, cal: Seq<u8>) -> (
    Seq<(int, u8)>,
    Seq<u8>,
    Seq<u8>,
)
    decreases active.len(),
{
    if active.len() == 0 {
        (Seq::empty(), vol, cal)
    } else {
        let (kept, vol1, cal1) = expired(active.drop_last(), start, vol, cal);
        let (end, r) = active.last();
        if end < start {
            if callee_saved(r) {
                (kept, vol1, cal1.push(r))
            } else {
                (kept, vol1.push(r), cal1)
            }
        } else {
            (kept.push((end, r)), vol1, cal1)
        }
    }
}

/// Puts one interval: a value that lives across a call only where calls spare it,
/// any other first where calls do not.
pub open spec fn place(st: Scan, i: Interval) -> Scan {
    if !i.across_call && st.free_vol.len() > 0 {
        let r = st.free_vol.last();
        Scan {
            active: st.active.push((i.end as int, r)),
            free_vol: st.free_vol.drop_last(),
            loc: st.loc.insert(i.vreg, Some(r)),
            ..st
        }
    } else if st.free_cal.len() > 0 {
        let r = st.free_cal.last();
        Scan {
            active: st.active.push((i.end as int, r)),
            free_cal: st.free_cal.drop_last(),
            loc: st.loc.insert(i.vreg, Some(r)),
            used: st.used.insert(r),
            ..st
        }
    } else {
        Scan { loc: st.loc.insert(i.vreg, None), ..st }
    }
}

pub open spec fn scan(ivs: Seq<Interval>) -> Scan
    decreases ivs.len(),
{
    if ivs.len() == 0 {
        scan_start()
    } else {
        place(expire(scan(ivs.drop_last()), ivs.last().start as int), ivs.last())
    }
}

pub open spec fn loc_is(l: Loc, r: Option<u8>) -> bool {
    match r {
        Some(r) => l is Reg && l->Reg_0@ == reg_name(r),
        None => l is Spill,
    }
}

/// The names of the used registers from number `r` on.
pub open spec fn used_names(used: Set<u8>, r: int) -> Seq<Seq<char>>
    decreases 9 - r,
{
    if r >= 9 {
        Seq::empty()
    } else if used.contains(r as u8) {
        seq![reg_name(r as u8)] + used_names(used, r + 1)
    } else {
        used_names(used, r + 1)
    }
}

pub open spec fn locs_are(l: Map<Vreg, Loc>, st: Map<Vreg, Option<u8>>) -> bool {
    &&& l.dom() == st.dom()
    &&& forall|v: Vreg| #[trigger] st.contains_key(v) ==> loc_is(l[v], st[v])
}

/// `r` is what the scan of the intervals `ivs` gives.
pub open spec fn is_scan_of(r: RegAlloc, ivs: Seq<Interval>) -> bool {
    &&& locs_are(r.loc@, scan(ivs).loc)
    &&& Seq::new(r.callee_saved_used@.len(), |i: int| r.callee_saved_used@[i]@) == used_names(
        scan(ivs).used,
        4,
    )
}

/// `r` is the allocation of `m`: the scan of the live intervals of its registers.
pub open spec fn is_allocation(m: MirFnView, r: RegAlloc) -> bool {
    exists|lin: Seq<Set<Vreg>>, ivs: Seq<Interval>| #[trigger]
        least_liveness(m, lin) && #[trigger] is_scan_of(r, ivs) && intervals_of(
            events(m, lin),
            call_sites(m.blocks),
            ivs,
        )
}

impl RegAlloc {
    pub open spec fn spec_reg_of(&self, v: Vreg) -> Option<Seq<char>> {
        if self.loc@.contains_key(v) && self.loc@[v] is Reg {
            Some(self.loc@[v]->Reg_0@)
        } else {
            None
        }
    }

    /// The machine register that holds `v`, if one does.
    pub fn reg_of(&self, v: Vreg) -> (r: Option<&'static str>)
        ensures
            r is Some <==> self.spec_reg_of(v) is Some,
            r is Some ==> self.spec_reg_of(v) == Some(r->Some_0@),
    {
        match self.loc.get(&v) {
            Some(Loc::Reg(r)) => Some(*r),
            _ => None,
        }
    }
}

/// Bounds of the registers noted so far: `iv` holds the least and greatest number
/// of each register in `ev`.
spec fn tracks(iv: Seq<(Vreg, usize, usize)>, ev: Set<Event>) -> bool {
    &&& forall|i: int, j: int|
        0 <= i < j < iv.len() ==> (#[trigger] iv[i]).0 != (#[trigger] iv[j]).0
    &&& forall|i: int|
        0 <= i < iv.len() ==> spans(ev, (#[trigger] iv[i]).0, iv[i].1 as int, iv[i].2 as int)
    &&& forall|e: Event| #[trigger] ev.contains(e) ==> exists|i: int|
        0 <= i < iv.len() && (#[trigger] iv[i]).0 == e.0
}

proof fn tracks_update(
    iv: Seq<(Vreg, usize, usize)>,
    i: int,
    v: Vreg,
    idx: usize,
    s: usize,
    e: usize,
    ev: Set<Event>,
)
    requires
        tracks(iv, ev),
        0 <= i < iv.len(),
        iv[i].0 == v,
        s == if idx < iv[i].1 {
            idx
        } else {
            iv[i].1
        },
        e == if idx > iv[i].2 {
            idx
        } else {
            iv[i].2
        },
    ensures
        tracks(iv.update(i, (v, s, e)), ev.insert((v, idx as int))),
{
    let iv1 = iv.update(i, (v, s, e));
    let ev1 = ev.insert((v, idx as int));
    assert(spans(ev, iv[i].0, iv[i].1 as int, iv[i].2 as int));
    assert forall|k: int| 0 <= k < iv1.len() implies spans(
        ev1,
        (#[trigger] iv1[k]).0,
        iv1[k].1 as int,
        iv1[k].2 as int,
    ) by {
        if k != i {
            assert(iv1[k] == iv[k]);
            if k < i {
                assert(iv[k].0 != iv[i].0);
            } else {
                assert(iv[i].0 != iv[k].0);
            }
            assert(spans(ev, iv[k].0, iv[k].1 as int, iv[k].2 as int));
        }
    }
    assert forall|x: Event| #[trigger] ev1.contains(x) implies exists|k: int|
        0 <= k < iv1.len() && (#[trigger] iv1[k]).0 == x.0 by {
        if ev.contains(x) {
            let k = choose|k: int| 0 <= k < iv.len() && (#[trigger] iv[k]).0 == x.0;
            assert(iv1[k].0 == x.0);
        } else {
            assert(iv1[i].0 == x.0);
        }
    }
    assert forall|a: int, b: int| 0 <= a < b < iv1.len() implies (#[trigger] iv1[a]).0 != (
    #[trigger] iv1[b]).0 by {
        assert(iv[a].0 != iv[b].0);
    }
}

proof fn tracks_push(iv: Seq<(Vreg, usize, usize)>, v: Vreg, idx: usize, ev: Set<Event>)
    requires
        tracks(iv, ev),
        forall|k: int| 0 <= k < iv.len() ==> (#[trigger] iv[k]).0 != v,
    ensures
        tracks(iv.push((v, idx, idx)), ev.insert((v, idx as int))),
{
    let iv1 = iv.push((v, idx, idx));
    let ev1 = ev.insert((v, idx as int));
    assert forall|k: int| 0 <= k < iv1.len() implies spans(
        ev1,
        (#[trigger] iv1[k]).0,
        iv1[k].1 as int,
        iv1[k].2 as int,
    ) by {
        if k < iv.len() {
            assert(iv1[k] == iv[k]);
            assert(spans(ev, iv[k].0, iv[k].1 as int, iv[k].2 as int));
        } else {
            assert forall|i: int| #[trigger] ev1.contains((v, i)) implies i == idx by {
                if ev.contains((v, i)) {
                    assert(exists|k: int| 0 <= k < iv.len() && (#[trigger] iv[k]).0 == v);
                }
            }
        }
    }
    assert forall|x: Event| #[trigger] ev1.contains(x) implies exists|k: int|
        0 <= k < iv1.len() && (#[trigger] iv1[k]).0 == x.0 by {
        if ev.contains(x) {
            let k = choose|k: int| 0 <= k < iv.len() && (#[trigger] iv[k]).0 == x.0;
            assert(iv1[k].0 == x.0);
        } else {
            assert(iv1[iv.len() as int].0 == x.0);
        }
    }
}

fn note(iv: &mut Vec<(Vreg, usize, usize)>, v: Vreg, idx: usize, Ghost(ev): Ghost<Set<Event>>)
    requires
        tracks(old(iv)@, ev),
    ensures
        tracks(final(iv)@, ev.insert((v, idx as int))),
{
    let ghost iv0 = iv@;
    let n: usize = iv.len();
    for i in 0..n
        invariant
            n == iv0.len(),
            iv@ == iv0,
            tracks(iv0, ev),
            forall|k: int| 0 <= k < i ==> (#[trigger] iv0[k]).0 != v,
    {
        let (w, s, e) = iv[i];
        if w == v {
            let s1: usize = if idx < s {
                idx
            } else {
                s
            };
            let e1: usize = if idx > e {
                idx
            } else {
                e
            };
            proof {
                tracks_update(iv0, i as int, v, idx, s1, e1, ev);
            }
            iv.set(i, (v, s1, e1));
            return ;
        }
    }
    proof {
        tracks_push(iv0, v, idx, ev);
    }
    iv.push((v, idx, idx));
}

/// Notes every register of a list at one number.
fn note_all(
    iv: &mut Vec<(Vreg, usize, usize)>,
    vs: &Vec<Vreg>,
    idx: usize,
    Ghost(ev): Ghost<Set<Event>>,
)
    requires
        tracks(old(iv)@, ev),
    ensures
        tracks(final(iv)@, ev.union(at_index(vs@.to_set(), idx as int))),
{
    assert(ev =~= ev.union(at_index(vs@.take(0).to_set(), idx as int)));
    for j in 0..vs.len()
        invariant
            tracks(iv@, ev.union(at_index(vs@.take(j as int).to_set(), idx as int))),
    {
        let ghost e0 = ev.union(at_index(vs@.take(j as int).to_set(), idx as int));
        let v: Vreg = vs[j];
        note(iv, v, idx, Ghost(e0));
        proof {
            take_contains(vs@, j as int);
        }
        assert(e0.insert((v, idx as int)) =~= ev.union(
            at_index(vs@.take(j + 1).to_set(), idx as int)
        ));
    }
    assert(vs@.take(vs@.len() as int) =~= vs@);
}

fn note_set(
    iv: &mut Vec<(Vreg, usize, usize)>,
    vs: &RegSet,
    idx: usize,
    Ghost(ev): Ghost<Set<Event>>,
)
    requires
        tracks(old(iv)@, ev),
    ensures
        tracks(final(iv)@, ev.union(at_index(vs@, idx as int))),
{
    proof {
        vs.lists_members();
    }
    let ghost l = vs.listed();
    let n: usize = vs.len();
    assert(ev =~= ev.union(at_index(l.take(0).to_set(), idx as int)));
    for j in 0..n
        invariant
            l == vs.listed(),
            n == l.len(),
            tracks(iv@, ev.union(at_index(l.take(j as int).to_set(), idx as int))),
    {
        let ghost e0 = ev.union(at_index(l.take(j as int).to_set(), idx as int));
        let v: Vreg = vs.at(j);
        note(iv, v, idx, Ghost(e0));
        proof {
            take_contains(l, j as int);
        }
        assert(e0.insert((v, idx as int)) =~= ev.union(
            at_index(l.take(j + 1).to_set(), idx as int)
        ));
    }
    assert(l.take(n as int) =~= l);
}

/// Notes every mention in a block whose first instruction has number `base`, and
/// lists the numbers of its calls.
fn note_block(
    b: &Block,
    base: usize,
    iv: &mut Vec<(Vreg, usize, usize)>,
    calls: &mut Vec<usize>,
    Ghost(ev): Ghost<Set<Event>>,
)
    requires
        tracks(old(iv)@, ev),
        base + b.insts@.len() <= usize::MAX,
    ensures
        tracks(final(iv)@, ev.union(run_events(b@.insts, base as int))),
        forall|c: usize| #[trigger]
            final(calls)@.contains(c) <==> old(calls)@.contains(c) || run_calls(
                b@.insts,
                base as int,
            ).contains(c as int),
{
    let ghost is = b@.insts;
    let ghost c0 = calls@;
    assert(is.take(0) =~= Seq::empty());
    assert(ev =~= ev.union(run_events(is.take(0), base as int)));
    for k in 0..b.insts.len()
        invariant
            is == b@.insts,
            base + b.insts@.len() <= usize::MAX,
            tracks(iv@, ev.union(run_events(is.take(k as int), base as int))),
            forall|c: usize| #[trigger]
                calls@.contains(c) <==> c0.contains(c) || run_calls(
                    is.take(k as int),
                    base as int,
                ).contains(c as int),
    {
        let ghost e0 = ev.union(run_events(is.take(k as int), base as int));
        let inst: &Inst = &b.insts[k];
        let at: usize = base + k;
        assert(is.take(k + 1).drop_last() =~= is.take(k as int));
        assert(is.take(k + 1).last() == inst@);
        let ghost mut e1 = e0;
        if let Some(d) = inst.def() {
            note(iv, d, at, Ghost(e0));
            proof {
                e1 = e0.insert((d, at as int));
            }
        }
        let us = inst.uses();
        note_all(iv, &us, at, Ghost(e1));
        assert(e1.union(at_index(us@.to_set(), at as int)) =~= ev.union(
            run_events(is.take(k + 1), base as int)
        ));
        if let Inst::Call { .. } = inst {
            let ghost c1 = calls@;
            calls.push(at);
            proof {
                take_contains(calls@, c1.len() as int);
                assert(calls@.take(c1.len() as int) =~= c1);
                assert(calls@.take(calls@.len() as int) =~= calls@);
            }
        }
    }
    assert(is.take(is.len() as int) =~= is);
}

proof fn total_insts_take(blocks: Seq<BlockView>, b: int)
    requires
        0 <= b <= blocks.len(),
    ensures
        total_insts(blocks.take(b)) <= total_insts(blocks),
    decreases blocks.len(),
{
    if b < blocks.len() {
        total_insts_take(blocks.drop_last(), b);
        assert(blocks.drop_last().take(b) =~= blocks.take(b));
    } else {
        assert(blocks.take(b) =~= blocks);
    }
}

fn any_call(calls: &Vec<usize>, s: usize, e: usize) -> (r: bool)
    ensures
        r <==> exists|c: usize| s <= c <= e && #[trigger] calls@.contains(c),
{
    for i in 0..calls.len()
        invariant
            forall|k: int| 0 <= k < i ==> !(s <= #[trigger] calls@[k] <= e),
    {
        if s <= calls[i] && calls[i] <= e {
            assert(calls@.contains(calls@[i as int]));
            return true;
        }
    }
    false
}

fn insert_ordered(ivs: &mut Vec<Interval>, x: Interval)
    requires
        ordered(old(ivs)@),
        forall|i: int| 0 <= i < old(ivs)@.len() ==> (#[trigger] old(ivs)@[i]).vreg != x.vreg,
    ensures
        ordered(final(ivs)@),
        exists|j: int|
            0 <= j <= old(ivs)@.len() && final(ivs)@ == #[trigger] old(ivs)@.insert(j, x),
{
    let ghost s0 = ivs@;
    let mut j: usize = 0;
    while j < ivs.len() && (ivs[j].start < x.start || (ivs[j].start == x.start && ivs[j].vreg
        < x.vreg))
        invariant
            j <= ivs@.len(),
            ivs@ == s0,
            forall|k: int| 0 <= k < j ==> earlier(#[trigger] s0[k], x),
        decreases ivs@.len() - j,
    {
        j += 1;
    }
    ivs.insert(j, x);
    assert(ivs@ == s0.insert(j as int, x));
    assert forall|a: int, b: int| 0 <= a < b < ivs@.len() implies earlier(
        #[trigger] ivs@[a],
        #[trigger] ivs@[b],
    ) by {
        if b < j {
            assert(earlier(s0[a], s0[b]));
        } else if a > j {
            assert(earlier(s0[a - 1], s0[b - 1]));
        } else if a == j {
            if b > j + 1 {
                assert(earlier(s0[j as int], s0[b - 1]));
            }
            assert(s0[j as int].vreg != x.vreg);
        } else if b > j {
            assert(earlier(s0[a], s0[b - 1]));
        }
    }
}

spec fn placed(ivs: Seq<Interval>, v: Vreg) -> bool {
    exists|k: int| 0 <= k < ivs.len() && (#[trigger] ivs[k]).vreg == v
}

spec fn noted(iv: Seq<(Vreg, usize, usize)>, n: int, v: Vreg) -> bool {
    exists|j: int| 0 <= j < n && (#[trigger] iv[j]).0 == v
}

spec fn interval_ok(ev: Set<Event>, sites: Set<int>, x: Interval) -> bool {
    &&& spans(ev, x.vreg, x.start as int, x.end as int)
    &&& x.across_call == covers_call(sites, x.start as int, x.end as int)
}

proof fn placed_insert(s: Seq<Interval>, p: int, x: Interval, v: Vreg)
    requires
        0 <= p <= s.len(),
    ensures
        placed(s.insert(p, x), v) <==> placed(s, v) || v == x.vreg,
{
    let t = s.insert(p, x);
    if placed(s, v) {
        let k = choose|k: int| 0 <= k < s.len() && (#[trigger] s[k]).vreg == v;
        if k < p {
            assert(t[k].vreg == v);
        } else {
            assert(t[k + 1].vreg == v);
        }
    }
    if v == x.vreg {
        assert(t[p].vreg == v);
    }
    if placed(t, v) && v != x.vreg {
        let k = choose|k: int| 0 <= k < t.len() && (#[trigger] t[k]).vreg == v;
        if k < p {
            assert(s[k].vreg == v);
        } else {
            assert(s[k - 1].vreg == v);
        }
    }
}

fn build_intervals(
    iv: &Vec<(Vreg, usize, usize)>,
    calls: &Vec<usize>,
    Ghost(ev): Ghost<Set<Event>>,
    Ghost(sites): Ghost<Set<int>>,
) -> (r: Vec<Interval>)
    requires
        tracks(iv@, ev),
        forall|c: usize| #[trigger] calls@.contains(c) <==> sites.contains(c as int),
        forall|c: int| #[trigger] sites.contains(c) ==> 0 <= c <= usize::MAX,
    ensures
        intervals_of(ev, sites, r@),
{
    let mut ivs: Vec<Interval> = Vec::new();
    for i in 0..iv.len()
        invariant
            tracks(iv@, ev),
            forall|c: usize| #[trigger] calls@.contains(c) <==> sites.contains(c as int),
            forall|c: int| #[trigger] sites.contains(c) ==> 0 <= c <= usize::MAX,
            ordered(ivs@),
            forall|k: int| 0 <= k < ivs@.len() ==> interval_ok(ev, sites, #[trigger] ivs@[k]),
            forall|v: Vreg| #[trigger] placed(ivs@, v) <==> noted(iv@, i as int, v),
    {
        let (vreg, start, end) = iv[i];
        let across_call = any_call(calls, start, end);
        let x = Interval { vreg, start, end, across_call };
        proof {
            assert(spans(ev, iv@[i as int].0, iv@[i as int].1 as int, iv@[i as int].2 as int));
            if across_call {
                let c = choose|c: usize| start <= c <= end && #[trigger] calls@.contains(c);
                assert(sites.contains(c as int));
            }
            if covers_call(sites, start as int, end as int) {
                let c = choose|c: int| start <= c <= end && #[trigger] sites.contains(c);
                assert(calls@.contains(c as usize));
            }
            if placed(ivs@, vreg) {
                let j = choose|j: int| 0 <= j < i && (#[trigger] iv@[j]).0 == vreg;
                assert(iv@[j].0 != iv@[i as int].0);
            }
        }
        let ghost s0 = ivs@;
        insert_ordered(&mut ivs, x);
        proof {
            let p = choose|p: int| 0 <= p <= s0.len() && ivs@ == #[trigger] s0.insert(p, x);
            assert forall|v: Vreg| #[trigger] placed(ivs@, v) <==> noted(iv@, i + 1, v) by {
                placed_insert(s0, p, x, v);
                assert(placed(s0, v) <==> noted(iv@, i as int, v));
                if noted(iv@, i as int, v) {
                    let j = choose|j: int| 0 <= j < i && (#[trigger] iv@[j]).0 == v;
                    assert(iv@[j].0 == v);
                }
                if v == vreg {
                    assert(iv@[i as int].0 == v);
                }
                if noted(iv@, i + 1, v) && v != vreg {
                    let j = choose|j: int| 0 <= j < i + 1 && (#[trigger] iv@[j]).0 == v;
                    assert(noted(iv@, i as int, v));
                }
            }
            assert forall|k: int| 0 <= k < ivs@.len() implies interval_ok(
                ev,
                sites,
                #[trigger] ivs@[k],
            ) by {
                if k < p {
                    assert(ivs@[k] == s0[k]);
                } else if k > p {
                    assert(ivs@[k] == s0[k - 1]);
                }
            }
        }
    }
    assert forall|e: Event| #[trigger] ev.contains(e) implies exists|i: int|
        0 <= i < ivs@.len() && (#[trigger] ivs@[i]).vreg == e.0 by {
        let j = choose|j: int| 0 <= j < iv@.len() && (#[trigger] iv@[j]).0 == e.0;
        assert(noted(iv@, iv@.len() as int, e.0));
        assert(placed(ivs@, e.0));
    }
    assert forall|k: int| 0 <= k < ivs@.len() implies spans(
        ev,
        (#[trigger] ivs@[k]).vreg,
        ivs@[k].start as int,
        ivs@[k].end as int,
    ) && ivs@[k].across_call == covers_call(
        sites,
        ivs@[k].start as int,
        ivs@[k].end as int,
    ) by {
        assert(interval_ok(ev, sites, ivs@[k]));
    }
    ivs
}

pub open spec fn actives(s: Seq<(usize, u8)>) -> Seq<(int, u8)> {
    Seq::new(s.len(), |i: int| (s[i].0 as int, s[i].1))
}

/// Runs the scan over ordered intervals.
fn run_scan(ivs: &Vec<Interval>) -> (r: RegAlloc)
    ensures
        is_scan_of(r, ivs@),
{
    let mut active: Vec<(usize, u8)> = Vec::new();
    let mut free_vol: Vec<u8> = vec![0, 1, 2, 3];
    let mut free_cal: Vec<u8> = vec![4, 5, 6, 7, 8];
    let mut loc: HashMap<Vreg, Loc> = HashMap::new();
    let mut used: Vec<bool> = vec![false, false, false, false, false, false, false, false, false];
    proof {
        assert(ivs@.take(0) =~= Seq::empty());
        assert(actives(active@) =~= scan_start().active);
        assert(free_vol@ =~= scan_start().free_vol);
        assert(free_cal@ =~= scan_start().free_cal);
        assert(loc@.dom() =~= scan_start().loc.dom());
        assert(scan(ivs@.take(0)) == scan_start());
    }
    for k in 0..ivs.len()
        invariant
            actives(active@) == scan(ivs@.take(k as int)).active,
            free_vol@ == scan(ivs@.take(k as int)).free_vol,
            free_cal@ == scan(ivs@.take(k as int)).free_cal,
            locs_are(loc@, scan(ivs@.take(k as int)).loc),
            used@.len() == 9,
            forall|r: u8| r < 9 ==> #[trigger] used@[r as int] == scan(
                ivs@.take(k as int),
            ).used.contains(r),
            regs_in_range(scan(ivs@.take(k as int))),
    {
        let ghost st = scan(ivs@.take(k as int));
        assert(ivs@.take(k + 1).drop_last() =~= ivs@.take(k as int));
        let itv: Interval = ivs[k];
        let ghost act0 = actives(active@);
        let ghost vol0 = free_vol@;
        let ghost cal0 = free_cal@;
        let mut kept: Vec<(usize, u8)> = Vec::new();
        assert(act0.take(0) =~= Seq::empty());
        assert(actives(kept@) =~= Seq::empty());
        for i in 0..active.len()
            invariant
                act0 == actives(active@),
                (actives(kept@), free_vol@, free_cal@) == expired(
                    act0.take(i as int),
                    itv.start as int,
                    vol0,
                    cal0,
                ),
        {
            let ghost kept0 = kept@;
            assert(act0.take(i + 1).drop_last() =~= act0.take(i as int));
            let (end, r) = active[i];
            assert(act0.take(i + 1).last() == (end as int, r));
            if end < itv.start {
                if 4 <= r && r < 9 {
                    free_cal.push(r);
                } else {
                    free_vol.push(r);
                }
            } else {
                kept.push((end, r));
                assert(actives(kept@) =~= actives(kept0).push((end as int, r)));
            }
        }
        assert(act0.take(act0.len() as int) =~= act0);
        active = kept;
        let ghost ex = expire(st, itv.start as int);
        proof {
            expire_in_range(st, itv.start as int);
        }
        assert(free_vol@ == ex.free_vol && free_cal@ == ex.free_cal);
        let mut reg: Option<u8> = None;
        if !itv.across_call && free_vol.len() > 0 {
            assert(free_vol@[free_vol@.len() - 1] < 4);
            reg = free_vol.pop();
        } else if free_cal.len() > 0 {
            assert(callee_saved(free_cal@[free_cal@.len() - 1]));
            reg = free_cal.pop();
        }
        let ghost act1 = active@;
        let ghost loc0 = loc@;
        match reg {
            Some(r) => {
                assert(r < 9);
                if 4 <= r {
                    used.set(r as usize, true);
                }
                loc.insert(itv.vreg, Loc::Reg(reg_str(r)));
                active.push((itv.end, r));
                assert(actives(active@) =~= actives(act1).push((itv.end as int, r)));
            },
            None => {
                loc.insert(itv.vreg, Loc::Spill);
            },
        }
        let ghost after = scan(ivs@.take(k + 1));
        assert(after == place(ex, itv));
        assert(actives(active@) =~= after.active);
        assert(free_vol@ =~= after.free_vol);
        assert(free_cal@ =~= after.free_cal);
        assert(loc@.dom() =~= after.loc.dom());
    }
    assert(ivs@.take(ivs@.len() as int) =~= ivs@);
    let ghost st = scan(ivs@);
    let mut names: Vec<&'static str> = Vec::new();
    let mut r: u8 = 9;
    let mut rev: Vec<&'static str> = Vec::new();
    assert(Seq::new(rev@.len(), |i: int| rev@[rev@.len() - 1 - i]@) =~= Seq::<Seq<char>>::empty());
    while r > 4
        invariant
            4 <= r <= 9,
            used@.len() == 9,
            forall|q: u8| q < 9 ==> #[trigger] used@[q as int] == st.used.contains(q),
            Seq::new(rev@.len(), |i: int| rev@[rev@.len() - 1 - i]@) == used_names(
                st.used,
                r as int,
            ),
        decreases r,
    {
        r -= 1;
        let ghost rev0 = rev@;
        if used[r as usize] {
            rev.push(reg_str(r));
            assert(Seq::new(rev@.len(), |i: int| rev@[rev@.len() - 1 - i]@) =~= seq![
                reg_name(r),
            ] + Seq::new(rev0.len(), |i: int| rev0[rev0.len() - 1 - i]@));
        }
    }
    let n: usize = rev.len();
    let mut k: usize = n;
    while k > 0
        invariant
            k <= n,
            n == rev@.len(),
            names@.len() == n - k,
            forall|i: int| 0 <= i < names@.len() ==> #[trigger] names@[i] == rev@[n - 1 - i],
        decreases k,
    {
        k -= 1;
        names.push(rev[k]);
    }
    assert(Seq::new(names@.len(), |i: int| names@[i]@) =~= Seq::new(
        rev@.len(),
        |i: int| rev@[rev@.len() - 1 - i]@
    ));
    RegAlloc { loc, callee_saved_used: names }
}

/// Gives every register of `m` a place. Values that live across a call get a
/// register that calls preserve; the others first one that calls do not.
pub fn regalloc(m: &MirFn) -> (r: RegAlloc)
    requires
        graph_ok(m@),
        total_insts(m@.blocks) <= usize::MAX,
    ensures
        is_allocation(m@, r),
{
    let (lin, lout) = liveness(m);
    let ghost li = sets_view(lin@);
    let ghost bs = m@.blocks;
    let mut iv: Vec<(Vreg, usize, usize)> = Vec::new();
    let mut calls: Vec<usize> = Vec::new();
    let mut starts: Vec<usize> = Vec::new();
    let mut base: usize = 0;
    assert(bs.take(0) =~= Seq::empty());
    assert(block_events(bs.take(0)) =~= Set::empty());
    for b in 0..m.blocks.len()
        invariant
            bs == m@.blocks,
            total_insts(bs) <= usize::MAX,
            base == total_insts(bs.take(b as int)),
            starts@.len() == b,
            forall|k: int| 0 <= k < b ==> #[trigger] starts@[k] == total_insts(bs.take(k)),
            tracks(iv@, block_events(bs.take(b as int))),
            forall|c: usize| #[trigger]
                calls@.contains(c) <==> call_sites(bs.take(b as int)).contains(c as int),
    {
        let ghost e0 = block_events(bs.take(b as int));
        assert(bs.take(b + 1).drop_last() =~= bs.take(b as int));
        let block: &Block = &m.blocks[b];
        assert(bs.take(b + 1).last() == block@);
        proof {
            total_insts_take(bs, b + 1);
        }
        note_block(block, base, &mut iv, &mut calls, Ghost(e0));
        starts.push(base);
        base = base + block.insts.len();
    }
    assert(bs.take(bs.len() as int) =~= bs);
    let ghost e1 = block_events(bs);
    assert(e1 =~= e1.union(border_events(m@, li, 0)));
    for b in 0..m.blocks.len()
        invariant
            bs == m@.blocks,
            li == sets_view(lin@),
            lin@.len() == m.blocks@.len(),
            lout@.len() == m.blocks@.len(),
            starts@.len() == m.blocks@.len(),
            total_insts(bs) <= usize::MAX,
            forall|k: int|
                0 <= k < m.blocks@.len() ==> (#[trigger] lout@[k])@ == live_out_of(m@, li, k),
            forall|k: int|
                0 <= k < m.blocks@.len() ==> #[trigger] starts@[k] == total_insts(bs.take(k)),
            tracks(iv@, e1.union(border_events(m@, li, b as nat))),
    {
        let ghost e2 = e1.union(border_events(m@, li, b as nat));
        let first: usize = starts[b];
        proof {
            total_insts_take(bs, b + 1);
            assert(bs.take(b + 1).drop_last() =~= bs.take(b as int));
            assert(bs.take(b + 1).last() == m.blocks@[b as int]@);
        }
        let end: usize = first + m.blocks[b].insts.len();
        let last: usize = if end == 0 {
            0
        } else {
            end - 1
        };
        note_set(&mut iv, &lin[b], first, Ghost(e2));
        let ghost e3 = e2.union(at_index(li[b as int], first as int));
        note_set(&mut iv, &lout[b], last, Ghost(e3));
        assert(e3.union(at_index(live_out_of(m@, li, b as int), last as int)) =~= e1.union(
            border_events(m@, li, (b + 1) as nat)
        ));
    }
    let ghost ev = events(m@, li);
    let ghost sites = call_sites(bs);
    proof {
        call_sites_range(bs);
    }
    let ivs = build_intervals(&iv, &calls, Ghost(ev), Ghost(sites));
    run_scan(&ivs)
}

proof fn run_calls_range(insts: Seq<InstView>, base: int)
    ensures
        forall|c: int| #[trigger]
            run_calls(insts, base).contains(c) ==> base <= c < base + insts.len(),
    decreases insts.len(),
{
    if insts.len() > 0 {
        let init = insts.drop_last();
        run_calls_range(init, base);
        assert forall|c: int| #[trigger] run_calls(insts, base).contains(c) implies base <= c < base
            + insts.len() by {
            if c != base + insts.len() - 1 {
                assert(run_calls(init, base).contains(c));
            }
        }
    }
}

proof fn call_sites_range(blocks: Seq<BlockView>)
    ensures
        forall|c: int| #[trigger]
            call_sites(blocks).contains(c) ==> 0 <= c < total_insts(blocks),
    decreases blocks.len(),
{
    if blocks.len() > 0 {
        let init = blocks.drop_last();
        let base = total_insts(init) as int;
        call_sites_range(init);
        run_calls_range(blocks.last().insts, base);
        assert forall|c: int| #[trigger] call_sites(blocks).contains(c) implies 0 <= c
            < total_insts(blocks) by {
            assert(call_sites(init).contains(c) || run_calls(blocks.last().insts, base).contains(
                c
            ));
        }
    }
}

pub open spec fn all_volatile(s: Seq<u8>) -> bool {
    forall|i: int| 0 <= i < s.len() ==> (#[trigger] s[i]) < 4
}

pub open spec fn all_callee_saved(s: Seq<u8>) -> bool {
    forall|i: int| 0 <= i < s.len() ==> callee_saved(#[trigger] s[i])
}

pub open spec fn all_machine(s: Seq<(int, u8)>) -> bool {
    forall|i: int| 0 <= i < s.len() ==> (#[trigger] s[i]).1 < 9
}

/// Free and held machine registers keep to their kinds.
pub open spec fn regs_in_range(st: Scan) -> bool {
    all_volatile(st.free_vol) && all_callee_saved(st.free_cal) && all_machine(st.active)
}

proof fn expired_in_range(active: Seq<(int, u8)>, start: int, vol: Seq<u8>, cal: Seq<u8>)
    requires
        all_volatile(vol),
        all_callee_saved(cal),
        all_machine(active),
    ensures
        all_machine(expired(active, start, vol, cal).0),
        all_volatile(expired(active, start, vol, cal).1),
        all_callee_saved(expired(active, start, vol, cal).2),
    decreases active.len(),
{
    if active.len() > 0 {
        let init = active.drop_last();
        assert forall|i: int| 0 <= i < init.len() implies (#[trigger] init[i]).1 < 9 by {
            assert(init[i] == active[i]);
        }
        expired_in_range(init, start, vol, cal);
        let (kept, vol1, cal1) = expired(init, start, vol, cal);
        let (end, r) = active[active.len() - 1];
        assert(r < 9);
        assert(callee_saved(r) ==> all_callee_saved(cal1.push(r)));
        assert(!callee_saved(r) ==> all_volatile(vol1.push(r)));
        assert(all_machine(kept.push((end, r))));
    }
}

proof fn expire_in_range(st: Scan, start: int)
    requires
        regs_in_range(st),
    ensures
        regs_in_range(expire(st, start)),
{
    expired_in_range(st.active, start, st.free_vol, st.free_cal);
}

pub open spec fn held(active: Seq<(int, u8)>, r: u8) -> bool {
    exists|a: int| 0 <= a < active.len() && (#[trigger] active[a]).1 == r
}

/// Every machine register is free once or held once at most.
pub open spec fn pools_ok(active: Seq<(int, u8)>, vol: Seq<u8>, cal: Seq<u8>) -> bool {
    &&& all_volatile(vol)
    &&& all_callee_saved(cal)
    &&& all_machine(active)
    &&& vol.no_duplicates()
    &&& cal.no_duplicates()
    &&& forall|i: int, j: int|
        0 <= i < j < active.len() ==> (#[trigger] active[i]).1 != (#[trigger] active[j]).1
    &&& forall|i: int|
        0 <= i < active.len() ==> !vol.contains((#[trigger] active[i]).1) && !cal.contains(
            active[i].1,
        )
}

proof fn push_contains(s: Seq<u8>, x: u8)
    ensures
        forall|y: u8| #[trigger] s.push(x).contains(y) <==> s.contains(y) || y == x,
{
    take_contains(s.push(x), s.len() as int);
    assert(s.push(x).take(s.len() as int) =~= s);
    assert(s.push(x).take(s.len() as int + 1) =~= s.push(x));
}

proof fn expired_sound(active: Seq<(int, u8)>, start: int, vol: Seq<u8>, cal: Seq<u8>)
    requires
        pools_ok(active, vol, cal),
    ensures
        ({
            let x = expired(active, start, vol, cal);
            &&& pools_ok(x.0, x.1, x.2)
            &&& forall|i: int|
                0 <= i < active.len() && (#[trigger] active[i]).0 >= start ==> x.0.contains(
                    active[i],
                )
            &&& forall|i: int| 0 <= i < x.0.len() ==> active.contains(#[trigger] x.0[i])
            &&& forall|r: u8| #[trigger] x.1.contains(r) ==> vol.contains(r) || held(active, r)
            &&& forall|r: u8| #[trigger] x.2.contains(r) ==> cal.contains(r) || held(active, r)
        }),
    decreases active.len(),
{
    if active.len() > 0 {
        let init = active.drop_last();
        let n = init.len();
        assert forall|i: int| 0 <= i < init.len() implies (#[trigger] init[i]).1 < 9
            && !vol.contains(init[i].1) && !cal.contains(init[i].1) by {
            assert(init[i] == active[i]);
        }
        assert forall|i: int, j: int| 0 <= i < j < init.len() implies (#[trigger] init[i]).1 != (
        #[trigger] init[j]).1 by {
            assert(active[i].1 != active[j].1);
        }
        expired_sound(init, start, vol, cal);
        let (kept, vol1, cal1) = expired(init, start, vol, cal);
        let (end, r) = active[n as int];
        let x = expired(active, start, vol, cal);
        assert(!held(init, r)) by {
            if held(init, r) {
                let a = choose|a: int| 0 <= a < init.len() && (#[trigger] init[a]).1 == r;
                assert(active[a].1 != active[n as int].1);
            }
        }
        assert(!vol1.contains(r) && !cal1.contains(r));
        assert forall|i: int| 0 <= i < kept.len() implies (#[trigger] kept[i]).1 != r by {
            let a = init.index_of(kept[i]);
            assert(init[a].1 == kept[i].1);
        }
        push_contains(vol1, r);
        push_contains(cal1, r);
        assert forall|q: u8| held(init, q) implies #[trigger] held(active, q) by {
            let a = choose|a: int| 0 <= a < init.len() && (#[trigger] init[a]).1 == q;
            assert(active[a].1 == q);
        }
        assert(held(active, r));
        assert forall|i: int| 0 <= i < x.0.len() implies active.contains(#[trigger] x.0[i]) by {
            if i < kept.len() {
                let a = init.index_of(kept[i]);
                assert(active[a] == x.0[i]);
            } else {
                assert(active[n as int] == x.0[i]);
            }
        }
        assert forall|i: int|
            0 <= i < active.len() && (#[trigger] active[i]).0 >= start implies x.0.contains(
            active[i],
        ) by {
            if i < n {
                assert(init[i] == active[i]);
                let a = kept.index_of(init[i]);
                assert(x.0[a] == active[i]);
            } else {
                assert(x.0[kept.len() as int] == active[i]);
            }
        }
        if end < start {
            if callee_saved(r) {
                assert(x == (kept, vol1, cal1.push(r)));
            } else {
                assert(x == (kept, vol1.push(r), cal1));
            }
        } else {
            assert(x == (kept.push((end, r)), vol1, cal1));
        }
    }
}

pub open spec fn distinct(ivs: Seq<Interval>) -> bool {
    forall|i: int, j: int|
        0 <= i < j < ivs.len() ==> (#[trigger] ivs[i]).vreg != (#[trigger] ivs[j]).vreg
}

/// Behind the scan up to number `now`, the interval still holds its register or is over.
pub open spec fn holds_or_over(st: Scan, i: Interval, now: int) -> bool {
    match st.loc[i.vreg] {
        Some(r) => st.active.contains((i.end as int, r)) || i.end < now,
        None => true,
    }
}

/// The scan of ordered intervals puts every register somewhere, never gives one
/// machine register to two values at once, keeps values that live across a call out
/// of registers that a call overwrites, and lists the callee-saved ones it used.
pub proof fn scan_sound(ivs: Seq<Interval>)
    requires
        ordered(ivs),
        distinct(ivs),
    ensures
        pools_ok(scan(ivs).active, scan(ivs).free_vol, scan(ivs).free_cal),
        forall|v: Vreg| #[trigger]
            scan(ivs).loc.contains_key(v) <==> exists|i: int|
                0 <= i < ivs.len() && (#[trigger] ivs[i]).vreg == v,
        forall|i: int|
            0 <= i < ivs.len() && scan(ivs).loc[(#[trigger] ivs[i]).vreg] is Some ==> scan(
                ivs,
            ).loc[ivs[i].vreg]->Some_0 < 9 && (ivs[i].across_call ==> callee_saved(
                scan(ivs).loc[ivs[i].vreg]->Some_0,
            )),
        forall|i: int, j: int|
            0 <= i < j < ivs.len() && scan(ivs).loc[(#[trigger] ivs[i]).vreg] is Some && scan(
                ivs,
            ).loc[ivs[i].vreg] == scan(ivs).loc[(#[trigger] ivs[j]).vreg] ==> ivs[i].end
                < ivs[j].start,
        forall|r: u8| #[trigger]
            scan(ivs).used.contains(r) <==> callee_saved(r) && exists|i: int|
                0 <= i < ivs.len() && scan(ivs).loc[(#[trigger] ivs[i]).vreg] == Some(r),
        forall|i: int|
            0 <= i < ivs.len() ==> holds_or_over(
                scan(ivs),
                #[trigger] ivs[i],
                ivs.last().start as int,
            ),
    decreases ivs.len(),
{
    if ivs.len() == 0 {
        assert(scan(ivs) == scan_start());
    } else {
        let init = ivs.drop_last();
        let n = init.len() as int;
        let x = ivs[n];
        assert forall|i: int, j: int| 0 <= i < j < init.len() implies earlier(
            #[trigger] init[i],
            #[trigger] init[j],
        ) && init[i].vreg != init[j].vreg by {
            assert(earlier(ivs[i], ivs[j]));
            assert(ivs[i].vreg != ivs[j].vreg);
        }
        scan_sound(init);
        let s0 = scan(init);
        expired_sound(s0.active, x.start as int, s0.free_vol, s0.free_cal);
        let s1 = expire(s0, x.start as int);
        let s2 = scan(ivs);
        assert(s2 == place(s1, x));
        assert forall|i: int| 0 <= i < n implies init[i] == #[trigger] ivs[i] && ivs[i].vreg
            != x.vreg && ivs[i].start <= x.start by {
            assert(earlier(ivs[i], ivs[n]));
        }
        let took = s2.loc[x.vreg];
        // whoever held the register before is over
        assert forall|i: int|
            0 <= i < n && took is Some
                && s2.loc[(#[trigger] ivs[i]).vreg] == took implies ivs[i].end
            < x.start by {
            assert(init[i] == ivs[i]);
            let r = took->Some_0;
            assert(s0.loc[ivs[i].vreg] == Some(r));
            assert(holds_or_over(s0, init[i], init.last().start as int));
            assert(init.last() == ivs[n - 1]);
            if !(ivs[i].end < x.start) {
                assert(s0.active.contains((ivs[i].end as int, r)));
                let a = s0.active.index_of((ivs[i].end as int, r));
                assert(s1.active.contains(s0.active[a]));
                let b = s1.active.index_of(s0.active[a]);
                assert(s1.active[b].1 == r);
                assert(!s1.free_vol.contains(r) && !s1.free_cal.contains(r));
                if !x.across_call && s1.free_vol.len() > 0 {
                    assert(s1.free_vol.contains(s1.free_vol.last()));
                } else if s1.free_cal.len() > 0 {
                    assert(s1.free_cal.contains(s1.free_cal.last()));
                }
            }
        }
        place_keeps_pools(s1, x);
        assert forall|i: int| 0 <= i < ivs.len() implies holds_or_over(
            s2,
            #[trigger] ivs[i],
            ivs.last().start as int,
        ) by {
            if i < n {
                assert(init[i] == ivs[i]);
                assert(holds_or_over(s0, init[i], init.last().start as int));
                assert(s2.loc[ivs[i].vreg] == s0.loc[ivs[i].vreg]);
                assert(init.last() == ivs[n - 1]);
                if let Some(r) = s0.loc[ivs[i].vreg] {
                    if ivs[i].end >= x.start {
                        let a = s0.active.index_of((ivs[i].end as int, r));
                        assert(s1.active.contains(s0.active[a]));
                        let b = s1.active.index_of(s0.active[a]);
                        assert(s2.active[b] == (ivs[i].end as int, r));
                    }
                }
            } else {
                if let Some(r) = took {
                    assert(s2.active.last() == (x.end as int, r));
                    assert(s2.active[s2.active.len() - 1] == (x.end as int, r));
                }
            }
        }
        assert forall|v: Vreg| #[trigger]
            s2.loc.contains_key(v) <==> exists|i: int|
                0 <= i < ivs.len() && (#[trigger] ivs[i]).vreg == v by {
            if s2.loc.contains_key(v) {
                if v == x.vreg {
                    assert(ivs[n].vreg == v);
                } else {
                    assert(s0.loc.contains_key(v));
                    let i = choose|i: int| 0 <= i < init.len() && (#[trigger] init[i]).vreg == v;
                    assert(ivs[i].vreg == v);
                }
            }
            if exists|i: int| 0 <= i < ivs.len() && (#[trigger] ivs[i]).vreg == v {
                let i = choose|i: int| 0 <= i < ivs.len() && (#[trigger] ivs[i]).vreg == v;
                if i < n {
                    assert(init[i].vreg == v);
                    assert(s0.loc.contains_key(v));
                }
            }
        }
        assert forall|r: u8| #[trigger]
            s2.used.contains(r) <==> callee_saved(r) && exists|i: int|
                0 <= i < ivs.len() && s2.loc[(#[trigger] ivs[i]).vreg] == Some(r) by {
            if s0.used.contains(r) {
                let i = choose|i: int|
                    0 <= i < init.len() && s0.loc[(#[trigger] init[i]).vreg] == Some(r);
                assert(s2.loc[ivs[i].vreg] == Some(r));
            }
            if took == Some(r) {
                assert(s2.loc[ivs[n].vreg] == Some(r));
            }
            if exists|i: int| 0 <= i < ivs.len() && s2.loc[(#[trigger] ivs[i]).vreg] == Some(r) {
                let i = choose|i: int|
                    0 <= i < ivs.len() && s2.loc[(#[trigger] ivs[i]).vreg] == Some(r);
                if i < n {
                    assert(s0.loc[init[i].vreg] == Some(r));
                }
            }
        }
        assert forall|i: int|
            0 <= i < ivs.len()
                && s2.loc[(#[trigger] ivs[i]).vreg] is Some implies s2.loc[ivs[i].vreg]->Some_0
            < 9 && (ivs[i].across_call ==> callee_saved(s2.loc[ivs[i].vreg]->Some_0)) by {
            if i < n {
                assert(s0.loc[init[i].vreg] is Some);
            }
        }
        assert forall|i: int, j: int|
            0 <= i < j < ivs.len() && s2.loc[(#[trigger] ivs[i]).vreg] is Some
                && s2.loc[ivs[i].vreg] == s2.loc[(#[trigger] ivs[j]).vreg] implies ivs[i].end
            < ivs[j].start by {
            if j < n {
                assert(s0.loc[init[i].vreg] == s0.loc[init[j].vreg]);
            }
        }
    }
}

proof fn place_keeps_pools(st: Scan, x: Interval)
    requires
        pools_ok(st.active, st.free_vol, st.free_cal),
    ensures
        pools_ok(place(st, x).active, place(st, x).free_vol, place(st, x).free_cal),
        place(st, x).loc[x.vreg] is Some ==> place(st, x).loc[x.vreg]->Some_0 < 9 && (x.across_call
            ==> callee_saved(place(st, x).loc[x.vreg]->Some_0)),
        place(st, x).used == (if place(st, x).loc[x.vreg] is Some && callee_saved(
            place(st, x).loc[x.vreg]->Some_0,
        ) {
            st.used.insert(place(st, x).loc[x.vreg]->Some_0)
        } else {
            st.used
        }),
{
    let s2 = place(st, x);
    if !x.across_call && st.free_vol.len() > 0 {
        let r = st.free_vol[st.free_vol.len() - 1];
        assert(r < 4);
        let vol = st.free_vol.drop_last();
        assert(st.free_vol.contains(r));
        assert(!vol.contains(r));
        assert forall|q: u8| #[trigger] vol.contains(q) implies st.free_vol.contains(q) by {
            assert(st.free_vol[vol.index_of(q)] == q);
        }
        assert(!st.free_cal.contains(r)) by {
            if st.free_cal.contains(r) {
                assert(callee_saved(st.free_cal[st.free_cal.index_of(r)]));
            }
        }
    } else if st.free_cal.len() > 0 {
        let r = st.free_cal[st.free_cal.len() - 1];
        assert(callee_saved(r));
        let cal = st.free_cal.drop_last();
        assert(st.free_cal.contains(r));
        assert(!cal.contains(r));
        assert forall|q: u8| #[trigger] cal.contains(q) implies st.free_cal.contains(q) by {
            assert(st.free_cal[cal.index_of(q)] == q);
        }
        assert(!st.free_vol.contains(r)) by {
            if st.free_vol.contains(r) {
                assert(st.free_vol[st.free_vol.index_of(r)] < 4);
            }
        }
    }
}

proof fn intervals_distinct(ev: Set<Event>, calls: Set<int>, ivs: Seq<Interval>)
    requires
        intervals_of(ev, calls, ivs),
    ensures
        distinct(ivs),
{
    assert forall|i: int, j: int| 0 <= i < j < ivs.len() implies (#[trigger] ivs[i]).vreg != (
    #[trigger] ivs[j]).vreg by {
        if ivs[i].vreg == ivs[j].vreg {
            let v = ivs[i].vreg;
            assert(spans(ev, ivs[i].vreg, ivs[i].start as int, ivs[i].end as int));
            assert(spans(ev, ivs[j].vreg, ivs[j].start as int, ivs[j].end as int));
            assert(ev.contains((v, ivs[i].start as int)));
            assert(ev.contains((v, ivs[j].start as int)));
            assert(earlier(ivs[i], ivs[j]));
        }
    }
}

proof fn block_events_cover(blocks: Seq<BlockView>, b: int, k: int, v: Vreg)
    requires
        0 <= b < blocks.len(),
        0 <= k < blocks[b].insts.len(),
        mentions(blocks[b].insts[k], v),
    ensures
        block_events(blocks).contains((v, total_insts(blocks.take(b)) + k)),
    decreases blocks.len(),
{
    let init = blocks.drop_last();
    if b < init.len() {
        block_events_cover(init, b, k, v);
        assert(init.take(b) =~= blocks.take(b));
    } else {
        assert(blocks.take(b) =~= init);
        run_events_cover(blocks[b].insts, total_insts(init) as int, k, v);
    }
}

proof fn run_events_cover(insts: Seq<InstView>, base: int, k: int, v: Vreg)
    requires
        0 <= k < insts.len(),
        mentions(insts[k], v),
    ensures
        run_events(insts, base).contains((v, base + k)),
    decreases insts.len(),
{
    if k < insts.len() - 1 {
        run_events_cover(insts.drop_last(), base, k, v);
    }
}

proof fn border_events_cover(m: MirFnView, lin: Seq<Set<Vreg>>, n: nat, b: int, v: Vreg)
    requires
        0 <= b < n,
    ensures
        lin[b].contains(v) ==> border_events(m, lin, n).contains((v, first_index(m, b))),
        live_out_of(m, lin, b).contains(v) ==> border_events(m, lin, n).contains(
            (v, last_index(m, b)),
        ),
    decreases n,
{
    if b < n - 1 {
        border_events_cover(m, lin, (n - 1) as nat, b, v);
    }
}

/// Every register that an instruction writes or reads is given a place.
pub proof fn allocation_total(m: MirFnView, r: RegAlloc, b: int, k: int, v: Vreg)
    requires
        is_allocation(m, r),
        0 <= b < m.blocks.len(),
        0 <= k < m.blocks[b].insts.len(),
        mentions(m.blocks[b].insts[k], v),
    ensures
        r.loc@.contains_key(v),
{
    let (lin, ivs) = choose|lin: Seq<Set<Vreg>>, ivs: Seq<Interval>| #[trigger]
        least_liveness(m, lin) && #[trigger] is_scan_of(r, ivs) && intervals_of(
            events(m, lin),
            call_sites(m.blocks),
            ivs,
        );
    block_events_cover(m.blocks, b, k, v);
    intervals_distinct(events(m, lin), call_sites(m.blocks), ivs);
    scan_sound(ivs);
    let e = (v, total_insts(m.blocks.take(b)) + k);
    assert(events(m, lin).contains(e));
    let i = choose|i: int| 0 <= i < ivs.len() && (#[trigger] ivs[i]).vreg == e.0;
    assert(scan(ivs).loc.contains_key(v));
    assert(r.loc@.dom().contains(v));
}

/// What is live before the `k`-th instruction of block `b`.
pub open spec fn live_before(m: MirFnView, lin: Seq<Set<Vreg>>, b: int, k: int) -> Set<Vreg> {
    flow(m.blocks[b].insts.skip(k), live_out_of(m, lin, b))
}

/// A register that is live in the middle of a run of instructions is live before it or
/// mentioned before, and mentioned later or live behind it.
proof fn live_inside(insts: Seq<InstView>, out: Set<Vreg>, k: int, v: Vreg)
    requires
        0 <= k <= insts.len(),
        flow(insts.skip(k), out).contains(v),
    ensures
        flow(insts, out).contains(v) || exists|j: int| 0 <= j < k && mentions(insts[j], v),
        out.contains(v) || exists|j: int| k <= j < insts.len() && mentions(insts[j], v),
    decreases insts.len(),
{
    if k > 0 {
        let rest = insts.drop_first();
        assert(rest.skip(k - 1) =~= insts.skip(k));
        live_inside(rest, out, k - 1, v);
        if flow(rest, out).contains(v) {
            assert(flow(insts, out).contains(v) || mentions(insts[0], v));
        } else {
            let j = choose|j: int| 0 <= j < k - 1 && mentions(rest[j], v);
            assert(mentions(insts[j + 1], v));
        }
        if !out.contains(v) {
            let j = choose|j: int| k - 1 <= j < rest.len() && mentions(rest[j], v);
            assert(mentions(insts[j + 1], v));
        }
    } else {
        assert(insts.skip(0) =~= insts);
        if insts.len() > 0 && !out.contains(v) {
            if !mentions(insts[0], v) {
                let rest = insts.drop_first();
                assert(flow(rest, out).contains(v));
                assert(rest.skip(0) =~= rest);
                live_inside(rest, out, 0, v);
                let j = choose|j: int| 0 <= j < rest.len() && mentions(rest[j], v);
                assert(mentions(insts[j + 1], v));
            }
        }
    }
}

/// The numbers at which a register that is live before an instruction counts lie on both
/// sides of it.
proof fn live_is_spanned(
    m: MirFnView,
    lin: Seq<Set<Vreg>>,
    b: int,
    k: int,
    v: Vreg,
    s: int,
    e: int,
)
    requires
        solves(m, lin),
        0 <= b < m.blocks.len(),
        0 <= k < m.blocks[b].insts.len(),
        live_before(m, lin, b, k).contains(v),
        spans(events(m, lin), v, s, e),
    ensures
        s <= first_index(m, b) + k <= e,
{
    let insts = m.blocks[b].insts;
    let out = live_out_of(m, lin, b);
    let ev = events(m, lin);
    live_inside(insts, out, k, v);
    border_events_cover(m, lin, m.blocks.len(), b, v);
    assert(lin[b] == flow(insts, out));
    assert(m.blocks.take(b + 1).drop_last() =~= m.blocks.take(b));
    assert(m.blocks.take(b + 1).last() == m.blocks[b]);
    assert(first_index(m, b) + k <= last_index(m, b));
    if lin[b].contains(v) {
        assert(ev.contains((v, first_index(m, b))));
    } else {
        let j = choose|j: int| 0 <= j < k && mentions(insts[j], v);
        block_events_cover(m.blocks, b, j, v);
        assert(ev.contains((v, total_insts(m.blocks.take(b)) + j)));
    }
    if out.contains(v) {
        assert(ev.contains((v, last_index(m, b))));
    } else {
        let j = choose|j: int| k <= j < insts.len() && mentions(insts[j], v);
        block_events_cover(m.blocks, b, j, v);
        assert(ev.contains((v, total_insts(m.blocks.take(b)) + j)));
    }
}

/// Two registers that share a machine register are nowhere live together: neither
/// before a block, nor behind one, nor before any instruction, and no instruction
/// mentions both.
pub proof fn allocation_disjoint(
    m: MirFnView,
    r: RegAlloc,
    lin: Seq<Set<Vreg>>,
    v: Vreg,
    w: Vreg,
    b: int,
    k: int,
)
    requires
        is_allocation(m, r),
        least_liveness(m, lin),
        v != w,
        r.spec_reg_of(v) is Some,
        r.spec_reg_of(v) == r.spec_reg_of(w),
        0 <= b < m.blocks.len(),
    ensures
        !(lin[b].contains(v) && lin[b].contains(w)),
        !(live_out_of(m, lin, b).contains(v) && live_out_of(m, lin, b).contains(w)),
        0 <= k < m.blocks[b].insts.len() ==> !(mentions(m.blocks[b].insts[k], v) && mentions(
            m.blocks[b].insts[k],
            w,
        )),
        0 <= k < m.blocks[b].insts.len() ==> !(live_before(m, lin, b, k).contains(v)
            && live_before(m, lin, b, k).contains(w)),
{
    let (lin1, ivs) = choose|lin: Seq<Set<Vreg>>, ivs: Seq<Interval>| #[trigger]
        least_liveness(m, lin) && #[trigger] is_scan_of(r, ivs) && intervals_of(
            events(m, lin),
            call_sites(m.blocks),
            ivs,
        );
    crate::liveness::least_liveness_unique(m, lin, lin1);
    let ev = events(m, lin);
    intervals_distinct(ev, call_sites(m.blocks), ivs);
    scan_sound(ivs);
    let st = scan(ivs);
    assert(st.loc.dom().contains(v) && st.loc.dom().contains(w));
    assert(st.loc.contains_key(v) && st.loc.contains_key(w));
    let i = choose|i: int| 0 <= i < ivs.len() && (#[trigger] ivs[i]).vreg == v;
    let j = choose|j: int| 0 <= j < ivs.len() && (#[trigger] ivs[j]).vreg == w;
    assert(loc_is(r.loc@[v], st.loc[v]) && loc_is(r.loc@[w], st.loc[w]));
    assert(st.loc[ivs[i].vreg] is Some && st.loc[ivs[j].vreg] is Some);
    reg_name_injective(st.loc[v]->Some_0, st.loc[w]->Some_0);
    assert(st.loc[ivs[i].vreg] == st.loc[ivs[j].vreg]);
    assert(ivs[i].end < ivs[j].start || ivs[j].end < ivs[i].start) by {
        if i < j {
            assert(ivs[i].end < ivs[j].start);
        } else {
            assert(ivs[j].end < ivs[i].start);
        }
    }
    assert(spans(ev, ivs[i].vreg, ivs[i].start as int, ivs[i].end as int));
    assert(spans(ev, ivs[j].vreg, ivs[j].start as int, ivs[j].end as int));
    assert forall|t: int| !(#[trigger] ev.contains((v, t)) && ev.contains((w, t))) by {}
    border_events_cover(m, lin, m.blocks.len(), b, v);
    border_events_cover(m, lin, m.blocks.len(), b, w);
    let f = first_index(m, b);
    let l = last_index(m, b);
    assert(!(ev.contains((v, f)) && ev.contains((w, f))));
    assert(!(ev.contains((v, l)) && ev.contains((w, l))));
    if 0 <= k < m.blocks[b].insts.len() {
        let t = f + k;
        if mentions(m.blocks[b].insts[k], v) && mentions(m.blocks[b].insts[k], w) {
            block_events_cover(m.blocks, b, k, v);
            block_events_cover(m.blocks, b, k, w);
            assert(ev.contains((v, t)) && ev.contains((w, t)));
        }
        if live_before(m, lin, b, k).contains(v) && live_before(m, lin, b, k).contains(w) {
            live_is_spanned(m, lin, b, k, v, ivs[i].start as int, ivs[i].end as int);
            live_is_spanned(m, lin, b, k, w, ivs[j].start as int, ivs[j].end as int);
        }
    }
}

/// A register that is live across a call stands in the frame or in a machine
/// register that calls preserve.
pub proof fn allocation_spares_calls(
    m: MirFnView,
    r: RegAlloc,
    lin: Seq<Set<Vreg>>,
    v: Vreg,
    s: int,
    c: int,
    e: int,
)
    requires
        is_allocation(m, r),
        least_liveness(m, lin),
        events(m, lin).contains((v, s)),
        events(m, lin).contains((v, e)),
        s <= c <= e,
        call_sites(m.blocks).contains(c),
    ensures
        r.spec_reg_of(v) is Some ==> exists|q: u8|
            callee_saved(q) && r.spec_reg_of(v) == Some(#[trigger] reg_name(q)),
{
    let (lin1, ivs) = choose|lin: Seq<Set<Vreg>>, ivs: Seq<Interval>| #[trigger]
        least_liveness(m, lin) && #[trigger] is_scan_of(r, ivs) && intervals_of(
            events(m, lin),
            call_sites(m.blocks),
            ivs,
        );
    crate::liveness::least_liveness_unique(m, lin, lin1);
    let ev = events(m, lin);
    intervals_distinct(ev, call_sites(m.blocks), ivs);
    scan_sound(ivs);
    let x = (v, s);
    assert(ev.contains(x));
    let i = choose|i: int| 0 <= i < ivs.len() && (#[trigger] ivs[i]).vreg == x.0;
    assert(spans(ev, ivs[i].vreg, ivs[i].start as int, ivs[i].end as int));
    assert(covers_call(call_sites(m.blocks), ivs[i].start as int, ivs[i].end as int));
    assert(ivs[i].across_call);
    let st = scan(ivs);
    if r.spec_reg_of(v) is Some {
        assert(st.loc.dom().contains(v));
        assert(st.loc.contains_key(v));
        assert(loc_is(r.loc@[v], st.loc[v]));
        let q = st.loc[ivs[i].vreg]->Some_0;
        assert(callee_saved(q));
        assert(r.spec_reg_of(v) == Some(reg_name(q)));
    }
}

spec fn names_used(used: Set<u8>, from: int, name: Seq<char>) -> bool {
    exists|p: u8| from <= p < 9 && used.contains(p) && name == #[trigger] reg_name(p)
}

proof fn used_names_cover(used: Set<u8>, from: int, q: u8)
    requires
        4 <= from,
    ensures
        from <= q < 9 && used.contains(q) ==> used_names(used, from).contains(reg_name(q)),
        forall|i: int|
            0 <= i < used_names(used, from).len() ==> names_used(
                used,
                from,
                #[trigger] used_names(used, from)[i],
            ),
    decreases 9 - from,
{
    if from < 9 {
        used_names_cover(used, from + 1, q);
        let rest = used_names(used, from + 1);
        let all = used_names(used, from);
        let head = reg_name(from as u8);
        let shift: int = if used.contains(from as u8) {
            1
        } else {
            0
        };
        if q > from && used.contains(q) && q < 9 {
            let i = rest.index_of(reg_name(q));
            assert(all[i + shift] == reg_name(q));
        }
        if q == from && used.contains(q) {
            assert(all[0] == reg_name(q));
        }
        assert forall|i: int| 0 <= i < all.len() implies names_used(
            used,
            from,
            #[trigger] all[i],
        ) by {
            if shift == 1 && i == 0 {
                assert(all[i] == reg_name(from as u8));
            } else {
                assert(all[i] == rest[i - shift]);
                assert(names_used(used, from + 1, rest[i - shift]));
            }
        }
    }
}

/// The callee-saved registers that are reported are those that hold some register.
pub proof fn allocation_reports_callee_saved(m: MirFnView, r: RegAlloc, q: u8)
    requires
        is_allocation(m, r),
        callee_saved(q),
    ensures
        (exists|i: int|
            0 <= i < r.callee_saved_used@.len() && (#[trigger] r.callee_saved_used@[i])@
                == reg_name(q)) <==> (exists|v: Vreg| #[trigger]
            r.spec_reg_of(v) == Some(reg_name(q))),
{
    let (lin, ivs) = choose|lin: Seq<Set<Vreg>>, ivs: Seq<Interval>| #[trigger]
        least_liveness(m, lin) && #[trigger] is_scan_of(r, ivs) && intervals_of(
            events(m, lin),
            call_sites(m.blocks),
            ivs,
        );
    intervals_distinct(events(m, lin), call_sites(m.blocks), ivs);
    scan_sound(ivs);
    let st = scan(ivs);
    let names = Seq::new(r.callee_saved_used@.len(), |i: int| r.callee_saved_used@[i]@);
    used_names_cover(st.used, 4, q);
    if exists|i: int|
        0 <= i < r.callee_saved_used@.len() && (#[trigger] r.callee_saved_used@[i])@ == reg_name(
            q,
        ) {
        let i = choose|i: int|
            0 <= i < r.callee_saved_used@.len() && (#[trigger] r.callee_saved_used@[i])@
                == reg_name(q);
        assert(names[i] == reg_name(q));
        assert(names_used(st.used, 4, used_names(st.used, 4)[i]));
        let p = choose|p: u8| 4 <= p < 9 && st.used.contains(p)
            && names[i] == #[trigger] reg_name(p);
        reg_name_injective(p, q);
        assert(st.used.contains(q));
        let k = choose|k: int| 0 <= k < ivs.len() && st.loc[(#[trigger] ivs[k]).vreg] == Some(q);
        let v = ivs[k].vreg;
        assert(st.loc.contains_key(v));
        assert(r.loc@.dom().contains(v));
        assert(loc_is(r.loc@[v], st.loc[v]));
        assert(r.spec_reg_of(v) == Some(reg_name(q)));
    }
    if exists|v: Vreg| #[trigger] r.spec_reg_of(v) == Some(reg_name(q)) {
        let v = choose|v: Vreg| #[trigger] r.spec_reg_of(v) == Some(reg_name(q));
        assert(st.loc.dom().contains(v));
        assert(st.loc.contains_key(v));
        let k = choose|k: int| 0 <= k < ivs.len() && (#[trigger] ivs[k]).vreg == v;
        assert(loc_is(r.loc@[v], st.loc[v]));
        assert(st.loc[ivs[k].vreg] is Some);
        reg_name_injective(st.loc[v]->Some_0, q);
        assert(st.loc[ivs[k].vreg] == Some(q));
        assert(st.used.contains(q));
        let i = names.index_of(reg_name(q));
        assert(r.callee_saved_used@[i]@ == reg_name(q));
    }
}

/// Whether a function calls nothing.
pub open spec fn call_free(m: MirFnView) -> bool {
    forall|b: int, k: int|
        0 <= b < m.blocks.len() && 0 <= k < m.blocks[b].insts.len() ==> !((
        #[trigger] m.blocks[b].insts[k]) is Call)
}

proof fn no_run_calls(insts: Seq<InstView>, base: int)
    requires
        forall|k: int| 0 <= k < insts.len() ==> !((#[trigger] insts[k]) is Call),
    ensures
        run_calls(insts, base) == Set::<int>::empty(),
    decreases insts.len(),
{
    if insts.len() > 0 {
        let init = insts.drop_last();
        assert forall|k: int| 0 <= k < init.len() implies !((#[trigger] init[k]) is Call) by {
            assert(init[k] == insts[k]);
        }
        no_run_calls(init, base);
        assert(!(insts[insts.len() - 1] is Call));
    }
}

proof fn no_call_sites(blocks: Seq<BlockView>)
    requires
        forall|b: int, k: int|
            0 <= b < blocks.len() && 0 <= k < blocks[b].insts.len() ==> !((
            #[trigger] blocks[b].insts[k]) is Call),
    ensures
        call_sites(blocks) == Set::<int>::empty(),
    decreases blocks.len(),
{
    if blocks.len() > 0 {
        let init = blocks.drop_last();
        assert forall|b: int, k: int|
            0 <= b < init.len() && 0 <= k < init[b].insts.len() implies !((
        #[trigger] init[b].insts[k]) is Call) by {
            assert(init[b] == blocks[b]);
            assert(!(blocks[b].insts[k] is Call));
        }
        no_call_sites(init);
        let n = blocks.len() - 1;
        assert forall|k: int| 0 <= k < blocks.last().insts.len() implies !((
        #[trigger] blocks.last().insts[k]) is Call) by {
            assert(!(blocks[n].insts[k] is Call));
        }
        no_run_calls(blocks.last().insts, total_insts(init) as int);
        assert(call_sites(blocks) =~= Set::<int>::empty());
    }
}

proof fn expiring_frees(active: Seq<(int, u8)>, start: int, vol: Seq<u8>, cal: Seq<u8>)
    ensures
        expired(active, start, vol, cal).1.len() >= vol.len(),
    decreases active.len(),
{
    if active.len() > 0 {
        expiring_frees(active.drop_last(), start, vol, cal);
    }
}

/// Up to four values that live across no call all find a register that calls may
/// overwrite.
proof fn few_fit(ivs: Seq<Interval>)
    requires
        ivs.len() <= 4,
        forall|i: int| 0 <= i < ivs.len() ==> !(#[trigger] ivs[i]).across_call,
    ensures
        scan(ivs).free_vol.len() >= 4 - ivs.len(),
        scan(ivs).used == Set::<u8>::empty(),
        forall|v: Vreg| #[trigger] scan(ivs).loc.contains_key(v) ==> scan(ivs).loc[v] is Some,
    decreases ivs.len(),
{
    if ivs.len() > 0 {
        let init = ivs.drop_last();
        assert forall|i: int| 0 <= i < init.len() implies !(#[trigger] init[i]).across_call by {
            assert(init[i] == ivs[i]);
        }
        few_fit(init);
        let s0 = scan(init);
        let x = ivs[ivs.len() - 1];
        expiring_frees(s0.active, x.start as int, s0.free_vol, s0.free_cal);
    }
}

/// A function that calls nothing and has at most four registers spills none, and needs no
/// register that it would have to save.
pub proof fn small_functions_save_nothing(m: MirFnView, r: RegAlloc)
    requires
        is_allocation(m, r),
        call_free(m),
        r.loc@.dom().finite(),
        r.loc@.dom().len() <= 4,
    ensures
        r.callee_saved_used@.len() == 0,
        forall|v: Vreg| #[trigger] r.loc@.contains_key(v) ==> r.spec_reg_of(v) is Some,
{
    let (lin, ivs) = choose|lin: Seq<Set<Vreg>>, ivs: Seq<Interval>| #[trigger]
        least_liveness(m, lin) && #[trigger] is_scan_of(r, ivs) && intervals_of(
            events(m, lin),
            call_sites(m.blocks),
            ivs,
        );
    intervals_distinct(events(m, lin), call_sites(m.blocks), ivs);
    scan_sound(ivs);
    no_call_sites(m.blocks);
    let names = Seq::new(ivs.len(), |i: int| ivs[i].vreg);
    assert(names.no_duplicates()) by {
        assert forall|i: int, j: int|
            0 <= i < names.len() && 0 <= j < names.len() && i != j implies names[i] != names[j] by {
            if i < j {
                assert(ivs[i].vreg != ivs[j].vreg);
            } else {
                assert(ivs[j].vreg != ivs[i].vreg);
            }
        }
    }
    names.unique_seq_to_set();
    assert(names.to_set() =~= r.loc@.dom()) by {
        assert forall|v: Vreg| names.to_set().contains(v) <==> r.loc@.dom().contains(v) by {
            if names.contains(v) {
                let i = choose|i: int| 0 <= i < names.len() && names[i] == v;
                assert(ivs[i].vreg == v);
                assert(scan(ivs).loc.contains_key(v));
                assert(scan(ivs).loc.dom().contains(v));
            }
            if r.loc@.dom().contains(v) {
                assert(scan(ivs).loc.dom().contains(v));
                assert(scan(ivs).loc.contains_key(v));
                let i = choose|i: int| 0 <= i < ivs.len() && (#[trigger] ivs[i]).vreg == v;
                assert(names[i] == v);
            }
        }
    }
    few_fit(ivs);
    nothing_used(4);
    assert forall|v: Vreg| #[trigger] r.loc@.contains_key(v) implies r.spec_reg_of(v) is Some by {
        assert(r.loc@.dom().contains(v));
        assert(scan(ivs).loc.dom().contains(v));
        assert(scan(ivs).loc.contains_key(v));
        assert(loc_is(r.loc@[v], scan(ivs).loc[v]));
    }
    let saved = Seq::new(r.callee_saved_used@.len(), |i: int| r.callee_saved_used@[i]@);
    assert(saved.len() == 0);
}

proof fn nothing_used(n: int)
    requires
        n <= 9,
    ensures
        used_names(Set::empty(), n).len() == 0,
    decreases 9 - n,
{
    if n < 9 {
        nothing_used(n + 1);
    }
}

/// An allocation as the back end reads it: the machine register of each register that
/// has one, and the callee-saved ones in use.
pub struct AllocView {
    pub regs: Map<Vreg, Seq<char>>,
    pub saved: Seq<Seq<char>>,
}

pub open spec fn scan_view(st: Scan) -> AllocView {
    AllocView {
        regs: Map::new(
            |v: Vreg| st.loc.contains_key(v) && st.loc[v] is Some,
            |v: Vreg| reg_name(st.loc[v]->Some_0),
        ),
        saved: used_names(st.used, 4),
    }
}

impl View for RegAlloc {
    type V = AllocView;

    open spec fn view(&self) -> AllocView {
        AllocView {
            regs: Map::new(
                |v: Vreg| self.spec_reg_of(v) is Some,
                |v: Vreg| self.spec_reg_of(v)->Some_0,
            ),
            saved: Seq::new(
                self.callee_saved_used@.len(),
                |i: int| self.callee_saved_used@[i]@,
            ),
        }
    }
}

/// `ivs` are the intervals of the registers of `m`.
pub open spec fn live_intervals(m: MirFnView, ivs: Seq<Interval>) -> bool {
    exists|lin: Seq<Set<Vreg>>| #[trigger]
        least_liveness(m, lin) && intervals_of(events(m, lin), call_sites(m.blocks), ivs)
}

/// The intervals of the registers of `m`.
pub open spec fn intervals(m: MirFnView) -> Seq<Interval> {
    choose|ivs: Seq<Interval>| live_intervals(m, ivs)
}

/// The allocation of `m`.
pub open spec fn allocated(m: MirFnView) -> AllocView {
    scan_view(scan(intervals(m)))
}

proof fn same_interval(ev: Set<Event>, calls: Set<int>, a: Interval, b: Interval)
    requires
        interval_ok(ev, calls, a),
        interval_ok(ev, calls, b),
        a.vreg == b.vreg,
    ensures
        a == b,
{
    let v = a.vreg;
    assert(ev.contains((v, a.start as int)) && ev.contains((v, b.start as int)));
    assert(ev.contains((v, a.end as int)) && ev.contains((v, b.end as int)));
}

proof fn member_of_other(
    ev: Set<Event>,
    calls: Set<int>,
    a: Seq<Interval>,
    b: Seq<Interval>,
    i: int,
) -> (j: int)
    requires
        intervals_of(ev, calls, a),
        intervals_of(ev, calls, b),
        0 <= i < a.len(),
    ensures
        0 <= j < b.len(),
        b[j] == a[i],
{
    let e = (a[i].vreg, a[i].start as int);
    assert(spans(ev, a[i].vreg, a[i].start as int, a[i].end as int));
    assert(ev.contains(e));
    let j = choose|j: int| 0 <= j < b.len() && (#[trigger] b[j]).vreg == e.0;
    assert(spans(ev, b[j].vreg, b[j].start as int, b[j].end as int));
    same_interval(ev, calls, a[i], b[j]);
    j
}

proof fn intervals_agree(
    ev: Set<Event>,
    calls: Set<int>,
    a: Seq<Interval>,
    b: Seq<Interval>,
    n: int,
)
    requires
        intervals_of(ev, calls, a),
        intervals_of(ev, calls, b),
        0 <= n <= a.len(),
        n <= b.len(),
    ensures
        forall|i: int| 0 <= i < n ==> #[trigger] a[i] == b[i],
    decreases n,
{
    if n > 0 {
        intervals_agree(ev, calls, a, b, n - 1);
        let i = n - 1;
        let j = member_of_other(ev, calls, a, b, i);
        let k = member_of_other(ev, calls, b, a, i);
        if j != i {
            if j < i {
                assert(a[j] == b[j]);
                assert(earlier(a[j], a[i]));
            } else {
                assert(earlier(b[i], b[j]));
                if k < i {
                    assert(a[k] == b[k]);
                    assert(earlier(b[k], b[i]));
                } else if k > i {
                    assert(earlier(a[i], a[k]));
                }
            }
        }
    }
}

proof fn intervals_unique(ev: Set<Event>, calls: Set<int>, a: Seq<Interval>, b: Seq<Interval>)
    requires
        intervals_of(ev, calls, a),
        intervals_of(ev, calls, b),
    ensures
        a == b,
{
    if a.len() < b.len() {
        intervals_agree(ev, calls, a, b, a.len() as int);
        let j = member_of_other(ev, calls, b, a, a.len() as int);
        assert(b[j] == a[j]);
        assert(earlier(b[j], b[a.len() as int]));
    } else if b.len() < a.len() {
        intervals_agree(ev, calls, a, b, b.len() as int);
        let j = member_of_other(ev, calls, a, b, b.len() as int);
        assert(b[j] == a[j]);
        assert(earlier(a[j], a[b.len() as int]));
    } else {
        intervals_agree(ev, calls, a, b, a.len() as int);
        assert(a =~= b);
    }
}

/// A function has one allocation only.
pub proof fn allocation_unique(m: MirFnView, r: RegAlloc)
    requires
        is_allocation(m, r),
    ensures
        r@ == allocated(m),
{
    let (lin, ivs) = choose|lin: Seq<Set<Vreg>>, ivs: Seq<Interval>| #[trigger]
        least_liveness(m, lin) && #[trigger] is_scan_of(r, ivs) && intervals_of(
            events(m, lin),
            call_sites(m.blocks),
            ivs,
        );
    let iv2 = intervals(m);
    assert(live_intervals(m, ivs));
    assert(live_intervals(m, iv2));
    let lin2 = choose|lin2: Seq<Set<Vreg>>| #[trigger]
        least_liveness(m, lin2) && intervals_of(events(m, lin2), call_sites(m.blocks), iv2);
    crate::liveness::least_liveness_unique(m, lin, lin2);
    intervals_unique(events(m, lin), call_sites(m.blocks), ivs, iv2);
    let st = scan(ivs);
    assert(locs_are(r.loc@, st.loc));
    let a = scan_view(st);
    assert forall|v: Vreg| r.spec_reg_of(v) is Some <==> st.loc.contains_key(v) && st.loc[v] is Some by {
        assert(r.loc@.dom().contains(v) == st.loc.dom().contains(v));
        if st.loc.contains_key(v) {
            assert(loc_is(r.loc@[v], st.loc[v]));
        }
    }
    assert forall|v: Vreg| r.spec_reg_of(v) is Some implies r.spec_reg_of(v)->Some_0 == reg_name(
        st.loc[v]->Some_0,
    ) by {
        assert(r.loc@.dom().contains(v) == st.loc.dom().contains(v));
        assert(st.loc.contains_key(v));
        assert(loc_is(r.loc@[v], st.loc[v]));
    }
    assert(r@.regs =~= a.regs);
}

} // verus!
