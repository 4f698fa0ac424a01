//! Which registers are live at the borders of each block.
//!
//! A register is live where some path leads to a use of it before it is written
//! again. The operands of a phi count as uses on the edge that they arrive by.

use crate::mir::{Block, BlockView, Inst, InstView, MirFn, MirFnView, Val, Vreg};
use crate::regset::RegSet;
use vstd::prelude::*;

verus! {

/// What is live before an instruction, given what is live behind it.
pub open spec fn before(i: InstView, l: Set<Vreg>) -> Set<Vreg> {
    (match i.def() {
        Some(d) => l.remove(d),
        None => l,
    }).union(i.uses().to_set())
}

/// What is live before a run of instructions, given what is live behind it.
pub open spec fn flow(insts: Seq<InstView>, out: Set<Vreg>) -> Set<Vreg>
    decreases insts.len(),
{
    if insts.len() == 0 {
        out
    } else {
        before(insts[0], flow(insts.drop_first(), out))
    }
}

/// Whether a phi of `b` writes `v`.
pub open spec fn writes_phi(b: BlockView, v: Vreg) -> bool {
    exists|k: int|
        0 <= k < b.insts.len() && (#[trigger] b.insts[k]) is Phi && b.insts[k].def() == Some(v)
}

/// Whether `i` is a phi that reads `v` on the edge from block `p`.
pub open spec fn phi_reads(i: InstView, p: u32, v: Vreg) -> bool {
    match i {
        InstView::Phi { srcs, .. } => srcs.contains((p, Val::Vreg(v))),
        _ => false,
    }
}

pub open spec fn edge_reads(b: BlockView, p: u32, v: Vreg) -> bool {
    exists|k: int| 0 <= k < b.insts.len() && phi_reads(#[trigger] b.insts[k], p, v)
}

/// What is live on the edge from block `p` to block `s`.
pub open spec fn edge_live(m: MirFnView, lin: Seq<Set<Vreg>>, p: int, s: int) -> Set<Vreg> {
    Set::new(
        |v: Vreg|
            (lin[s].contains(v) && !writes_phi(m.blocks[s], v)) || edge_reads(
                m.blocks[s],
                p as u32,
                v,
            ),
    )
}

/// What is live behind block `b`, given what is live before each block.
pub open spec fn live_out_of(m: MirFnView, lin: Seq<Set<Vreg>>, b: int) -> Set<Vreg> {
    let insts = m.blocks[b].insts;
    if insts.len() == 0 {
        Set::empty()
    } else {
        match insts.last() {
            InstView::Br { t, f, .. } => edge_live(m, lin, b, t as int).union(
                edge_live(m, lin, b, f as int),
            ),
            InstView::Jmp(t) => edge_live(m, lin, b, t as int),
            _ => Set::empty(),
        }
    }
}

pub open spec fn live_in_of(m: MirFnView, lin: Seq<Set<Vreg>>, b: int) -> Set<Vreg> {
    flow(m.blocks[b].insts, live_out_of(m, lin, b))
}

/// `lin` solves the equations that tie what is live before a block to what is live
/// before its successors.
pub open spec fn solves(m: MirFnView, lin: Seq<Set<Vreg>>) -> bool {
    &&& lin.len() == m.blocks.len()
    &&& forall|b: int| 0 <= b < lin.len() ==> #[trigger] lin[b] == live_in_of(m, lin, b)
}

pub open spec fn below(a: Seq<Set<Vreg>>, b: Seq<Set<Vreg>>) -> bool {
    a.len() == b.len() && forall|i: int| 0 <= i < a.len() ==> (#[trigger] a[i]).subset_of(b[i])
}

/// `lin` is the least solution: nothing counts as live without a use.
pub open spec fn least_liveness(m: MirFnView, lin: Seq<Set<Vreg>>) -> bool {
    &&& solves(m, lin)
    &&& forall|l: Seq<Set<Vreg>>| #[trigger] solves(m, l) ==> below(lin, l)
}

/// Blocks are numbered by their place, and every block ends in a jump to blocks
/// that exist, or in no jump.
pub open spec fn graph_ok(m: MirFnView) -> bool {
    &&& m.blocks.len() <= u32::MAX
    &&& forall|b: int| 0 <= b < m.blocks.len() ==> (#[trigger] m.blocks[b]).id == b
    &&& forall|b: int|
        0 <= b < m.blocks.len() && (#[trigger] m.blocks[b]).insts.len() > 0
            ==> match m.blocks[b].insts.last() {
            InstView::Br { t, f, .. } => t < m.blocks.len() && f < m.blocks.len(),
            InstView::Jmp(t) => t < m.blocks.len(),
            _ => true,
        }
}

/// The least solution is the only least one.
pub proof fn least_liveness_unique(m: MirFnView, a: Seq<Set<Vreg>>, b: Seq<Set<Vreg>>)
    requires
        least_liveness(m, a),
        least_liveness(m, b),
    ensures
        a == b,
{
    assert forall|i: int| 0 <= i < a.len() implies a[i] == b[i] by {
        assert(a[i].subset_of(b[i]));
        assert(b[i].subset_of(a[i]));
        assert(a[i] =~= b[i]);
    }
    assert(a =~= b);
}

proof fn flow_monotone(insts: Seq<InstView>, a: Set<Vreg>, b: Set<Vreg>)
    requires
        a.subset_of(b),
    ensures
        flow(insts, a).subset_of(flow(insts, b)),
    decreases insts.len(),
{
    if insts.len() > 0 {
        flow_monotone(insts.drop_first(), a, b);
    }
}

proof fn out_monotone(m: MirFnView, a: Seq<Set<Vreg>>, c: Seq<Set<Vreg>>, b: int)
    requires
        graph_ok(m),
        a.len() == m.blocks.len(),
        below(a, c),
        0 <= b < m.blocks.len(),
    ensures
        live_out_of(m, a, b).subset_of(live_out_of(m, c, b)),
        live_in_of(m, a, b).subset_of(live_in_of(m, c, b)),
{
    let insts = m.blocks[b].insts;
    if insts.len() > 0 {
        match insts.last() {
            InstView::Br { t, f, .. } => {
                assert(a[t as int].subset_of(c[t as int]));
                assert(a[f as int].subset_of(c[f as int]));
            },
            InstView::Jmp(t) => {
                assert(a[t as int].subset_of(c[t as int]));
            },
            _ => {},
        }
    }
    flow_monotone(insts, live_out_of(m, a, b), live_out_of(m, c, b));
}

pub open spec fn sets_view(s: Seq<RegSet>) -> Seq<Set<Vreg>> {
    Seq::new(s.len(), |i: int| s[i]@)
}

spec fn total(s: Seq<Set<Vreg>>) -> nat
    decreases s.len(),
{
    if s.len() == 0 {
        0
    } else {
        total(s.drop_last()) + s.last().len()
    }
}

proof fn full_len()
    ensures
        Set::<u32>::full().finite(),
        Set::<u32>::full().len() == 0x1_0000_0000,
{
    let all = Set::range_inclusive(u32::MIN, u32::MAX);
    vstd::set_lib::range_set_properties::<u32>(u32::MIN, u32::MAX);
    assert(Set::<u32>::full() =~= all);
}

/// One more element of a list is one more member of its prefix.
pub proof fn take_contains<T>(s: Seq<T>, j: int)
    requires
        0 <= j < s.len(),
    ensures
        forall|x: T| #[trigger] s.take(j + 1).contains(x) <==> s.take(j).contains(x) || x == s[j],
{
    assert(s.take(j + 1) =~= s.take(j).push(s[j]));
    assert forall|x: T| #[trigger]
        s.take(j + 1).contains(x) <==> s.take(j).contains(x) || x == s[j] by {
        let a = s.take(j);
        let b = s.take(j + 1);
        if a.contains(x) {
            assert(b[a.index_of(x)] == x);
        }
        if x == s[j] {
            assert(b[j] == x);
        }
        if b.contains(x) && x != s[j] {
            assert(a[b.index_of(x)] == x);
        }
    }
}

proof fn total_bound(s: Seq<Set<Vreg>>)
    requires
        forall|i: int| 0 <= i < s.len() ==> (#[trigger] s[i]).finite(),
    ensures
        total(s) <= s.len() * 0x1_0000_0000,
    decreases s.len(),
{
    if s.len() > 0 {
        let init = s.drop_last();
        assert forall|i: int| 0 <= i < init.len() implies (#[trigger] init[i]).finite() by {
            assert(init[i] == s[i]);
        }
        total_bound(init);
        assert(s.last() == s[s.len() - 1]);
        full_len();
        vstd::set_lib::lemma_len_subset(s.last(), Set::<u32>::full());
    }
}

proof fn total_update(s: Seq<Set<Vreg>>, i: int, x: Set<Vreg>)
    requires
        0 <= i < s.len(),
    ensures
        total(s.update(i, x)) + s[i].len() == total(s) + x.len(),
    decreases s.len(),
{
    let u = s.update(i, x);
    if i == s.len() - 1 {
        assert(u.drop_last() =~= s.drop_last());
    } else {
        assert(u.drop_last() =~= s.drop_last().update(i, x));
        total_update(s.drop_last(), i, x);
    }
}

proof fn grows(a: Set<Vreg>, b: Set<Vreg>)
    requires
        a.subset_of(b),
        a != b,
        b.finite(),
    ensures
        a.len() < b.len(),
{
    vstd::set_lib::lemma_len_subset(a, b);
    if a.len() == b.len() {
        vstd::set_lib::lemma_subset_equality(a, b);
    }
}

fn has_phi_for(b: &Block, v: Vreg) -> (r: bool)
    ensures
        r == writes_phi(b@, v),
{
    for i in 0..b.insts.len()
        invariant
            forall|k: int|
                0 <= k < i && (#[trigger] b@.insts[k]) is Phi ==> b@.insts[k].def() != Some(v),
    {
        assert(b@.insts[i as int] == b.insts@[i as int]@);
        if let Inst::Phi { dst, .. } = &b.insts[i] {
            if *dst == v {
                return true;
            }
        }
    }
    false
}

fn add_edge_reads(b: &Block, p: u32, out: &mut RegSet)
    ensures
        forall|v: Vreg|
            final(out)@.contains(v) <==> old(out)@.contains(v) || edge_reads(b@, p, v),
{
    let ghost o0 = out@;
    for i in 0..b.insts.len()
        invariant
            forall|v: Vreg| #[trigger]
                out@.contains(v) <==> o0.contains(v) || exists|k: int|
                    0 <= k < i && phi_reads(#[trigger] b@.insts[k], p, v),
    {
        let ghost o1 = out@;
        assert(b@.insts[i as int] == b.insts@[i as int]@);
        if let Inst::Phi { srcs, .. } = &b.insts[i] {
            for j in 0..srcs.len()
                invariant
                    forall|v: Vreg| #[trigger]
                        out@.contains(v) <==> o1.contains(v) || srcs@.take(j as int).contains(
                            (p, Val::Vreg(v)),
                        ),
            {
                proof {
                    take_contains(srcs@, j as int);
                }
                let (q, val) = srcs[j];
                if let Val::Vreg(r) = val {
                    if q == p {
                        out.insert(r);
                    }
                }
            }
            assert(srcs@.take(srcs@.len() as int) =~= srcs@);
        }
        assert forall|v: Vreg| #[trigger]
            out@.contains(v) <==> o0.contains(v) || exists|k: int|
                0 <= k < i + 1 && phi_reads(#[trigger] b@.insts[k], p, v) by {
            assert(out@.contains(v) <==> o1.contains(v) || phi_reads(b@.insts[i as int], p, v));
        }
    }
}

fn add_edge_live(m: &MirFn, lin: &Vec<RegSet>, p: usize, s: usize, out: &mut RegSet)
    requires
        lin@.len() == m.blocks@.len(),
        p < m.blocks@.len(),
        s < m.blocks@.len(),
        m.blocks@.len() <= u32::MAX,
    ensures
        final(out)@ == old(out)@.union(
            edge_live(m@, sets_view(lin@), p as int, s as int),
        ),
{
    let ghost o0 = out@;
    let here: &RegSet = &lin[s];
    proof {
        here.lists_members();
    }
    let b: &Block = &m.blocks[s];
    assert(m@.blocks[s as int] == b@);
    let n: usize = here.len();
    for i in 0..n
        invariant
            n == here.listed().len(),
            forall|v: Vreg| #[trigger]
                out@.contains(v) <==> o0.contains(v) || (!writes_phi(b@, v)
                    && here.listed().take(i as int).contains(v)),
    {
        proof {
            take_contains(here.listed(), i as int);
        }
        let v: Vreg = here.at(i);
        if !has_phi_for(b, v) {
            out.insert(v);
        }
    }
    assert(here.listed().take(n as int) =~= here.listed());
    add_edge_reads(b, p as u32, out);
    assert(out@ =~= o0.union(edge_live(m@, sets_view(lin@), p as int, s as int)));
}

fn compute_out(m: &MirFn, lin: &Vec<RegSet>, b: usize) -> (r: RegSet)
    requires
        graph_ok(m@),
        lin@.len() == m.blocks@.len(),
        b < m.blocks@.len(),
    ensures
        r@ == live_out_of(m@, sets_view(lin@), b as int),
{
    let mut out = RegSet::new();
    let block: &Block = &m.blocks[b];
    assert(m@.blocks[b as int] == block@);
    let n: usize = block.insts.len();
    if n > 0 {
        assert(block@.insts.last() == block.insts@.last()@);
        match &block.insts[n - 1] {
            Inst::Br { t, f, .. } => {
                add_edge_live(m, lin, b, *t as usize, &mut out);
                add_edge_live(m, lin, b, *f as usize, &mut out);
                assert(out@ =~= live_out_of(m@, sets_view(lin@), b as int));
            },
            Inst::Jmp(t) => {
                add_edge_live(m, lin, b, *t as usize, &mut out);
                assert(out@ =~= live_out_of(m@, sets_view(lin@), b as int));
            },
            _ => {},
        }
    }
    out
}

fn compute_in(b: &Block, out: &RegSet) -> (r: RegSet)
    ensures
        r@ == flow(b@.insts, out@),
{
    let mut live = out.copy();
    let n: usize = b.insts.len();
    let mut k: usize = n;
    let ghost is = b@.insts;
    assert(is.skip(n as int) =~= Seq::empty());
    while k > 0
        invariant
            k <= n,
            n == b.insts@.len(),
            is == b@.insts,
            live@ == flow(is.skip(k as int), out@),
        decreases k,
    {
        k -= 1;
        assert(is.skip(k as int).drop_first() =~= is.skip(k + 1));
        assert(is.skip(k as int)[0] == b.insts@[k as int]@);
        let inst: &Inst = &b.insts[k];
        if let Some(d) = inst.def() {
            live.remove(d);
        }
        let ghost l0 = live@;
        let us = inst.uses();
        for j in 0..us.len()
            invariant
                forall|v: Vreg| #[trigger]
                    live@.contains(v) <==> l0.contains(v) || us@.take(j as int).contains(v),
        {
            proof {
                take_contains(us@, j as int);
            }
            live.insert(us[j]);
        }
        assert(us@.take(us@.len() as int) =~= us@);
        assert(live@ =~= l0.union(us@.to_set()));
    }
    assert(is.skip(0) =~= is);
    live
}

/// What is live before each block and what is live behind it.
pub fn liveness(m: &MirFn) -> (r: (Vec<RegSet>, Vec<RegSet>))
    requires
        graph_ok(m@),
    ensures
        least_liveness(m@, sets_view(r.0@)),
        r.1@.len() == m.blocks@.len(),
        forall|b: int|
            0 <= b < m.blocks@.len() ==> (#[trigger] r.1@[b])@ == live_out_of(
                m@,
                sets_view(r.0@),
                b,
            ),
{
    let n: usize = m.blocks.len();
    let mut lin: Vec<RegSet> = Vec::new();
    let mut lout: Vec<RegSet> = Vec::new();
    for i in 0..n
        invariant
            lin@.len() == i,
            lout@.len() == i,
            forall|k: int| 0 <= k < i ==> (#[trigger] lin@[k])@ == Set::<Vreg>::empty(),
            forall|k: int| 0 <= k < i ==> (#[trigger] lout@[k])@ == Set::<Vreg>::empty(),
    {
        lin.push(RegSet::new());
        lout.push(RegSet::new());
    }
    let mut changed = true;
    while changed
        invariant
            n == m.blocks@.len(),
            graph_ok(m@),
            lin@.len() == n,
            lout@.len() == n,
            forall|k: int|
                0 <= k < n ==> (#[trigger] sets_view(lin@)[k]).subset_of(
                    live_in_of(m@, sets_view(lin@), k),
                ),
            forall|k: int|
                0 <= k < n ==> (#[trigger] sets_view(lout@)[k]).subset_of(
                    live_out_of(m@, sets_view(lin@), k),
                ),
            forall|l: Seq<Set<Vreg>>| #[trigger] solves(m@, l) ==> below(sets_view(lin@), l),
            !changed ==> forall|k: int|
                0 <= k < n ==> #[trigger] sets_view(lin@)[k] == live_in_of(
                    m@,
                    sets_view(lin@),
                    k,
                ),
            !changed ==> forall|k: int|
                0 <= k < n ==> #[trigger] sets_view(lout@)[k] == live_out_of(
                    m@,
                    sets_view(lin@),
                    k,
                ),
        decreases
            2 * n * 0x1_0000_0000 - total(sets_view(lin@)) - total(sets_view(lout@)),
            if changed { 1int } else { 0int },
    {
        changed = false;
        let ghost t0 = total(sets_view(lin@)) + total(sets_view(lout@));
        proof {
            totals_bounded(lin@);
            totals_bounded(lout@);
        }
        let mut b: usize = n;
        while b > 0
            invariant
                b <= n,
                n == m.blocks@.len(),
                graph_ok(m@),
                lin@.len() == n,
                lout@.len() == n,
                forall|k: int|
                    0 <= k < n ==> (#[trigger] sets_view(lin@)[k]).subset_of(
                        live_in_of(m@, sets_view(lin@), k),
                    ),
                forall|k: int|
                    0 <= k < n ==> (#[trigger] sets_view(lout@)[k]).subset_of(
                        live_out_of(m@, sets_view(lin@), k),
                    ),
                forall|l: Seq<Set<Vreg>>| #[trigger] solves(m@, l) ==> below(sets_view(lin@), l),
                !changed ==> forall|k: int|
                    b <= k < n ==> #[trigger] sets_view(lin@)[k] == live_in_of(
                        m@,
                        sets_view(lin@),
                        k,
                    ),
                !changed ==> forall|k: int|
                    b <= k < n ==> #[trigger] sets_view(lout@)[k] == live_out_of(
                        m@,
                        sets_view(lin@),
                        k,
                    ),
                !changed ==> t0 == total(sets_view(lin@)) + total(sets_view(lout@)),
                changed ==> t0 < total(sets_view(lin@)) + total(sets_view(lout@)),
            decreases b,
        {
            b -= 1;
            let ghost a = sets_view(lin@);
            let ghost o = sets_view(lout@);
            let new_out = compute_out(m, &lin, b);
            let new_in = compute_in(&m.blocks[b], &new_out);
            assert(m@.blocks[b as int] == m.blocks@[b as int]@);
            proof {
                new_out.lists_members();
                new_in.lists_members();
            }
            if !new_out.same(&lout[b]) {
                proof {
                    grows(o[b as int], new_out@);
                    total_update(o, b as int, new_out@);
                }
                lout.set(b, new_out);
                changed = true;
                assert(sets_view(lout@) =~= o.update(b as int, new_out@));
            }
            if !new_in.same(&lin[b]) {
                let ghost c = a.update(b as int, new_in@);
                proof {
                    grows(a[b as int], new_in@);
                    total_update(a, b as int, new_in@);
                    assert(below(a, c));
                    assert forall|k: int| 0 <= k < n implies (#[trigger] c[k]).subset_of(
                        live_in_of(m@, c, k),
                    ) by {
                        out_monotone(m@, a, c, k);
                        assert(a[k].subset_of(live_in_of(m@, a, k)));
                    }
                    assert forall|k: int| 0 <= k < n implies (#[trigger] sets_view(
                        lout@,
                    )[k]).subset_of(live_out_of(m@, c, k)) by {
                        out_monotone(m@, a, c, k);
                    }
                    assert forall|l: Seq<Set<Vreg>>| #[trigger] solves(m@, l) implies below(
                        c,
                        l,
                    ) by {
                        out_monotone(m@, a, l, b as int);
                    }
                }
                lin.set(b, new_in);
                changed = true;
                assert(sets_view(lin@) =~= c);
            }
        }
        proof {
            totals_bounded(lin@);
            totals_bounded(lout@);
        }
    }
    assert(sets_view(lin@).len() == m@.blocks.len());
    assert forall|b: int| 0 <= b < n implies (#[trigger] lout@[b])@ == live_out_of(
        m@,
        sets_view(lin@),
        b,
    ) by {
        assert(sets_view(lout@)[b] == lout@[b]@);
    }
    (lin, lout)
}

proof fn totals_bounded(s: Seq<RegSet>)
    ensures
        total(sets_view(s)) <= s.len() * 0x1_0000_0000,
{
    assert forall|i: int| 0 <= i < s.len() implies (#[trigger] sets_view(s)[i]).finite() by {
        s[i].lists_members();
    }
    total_bound(sets_view(s));
}

} // verus!
