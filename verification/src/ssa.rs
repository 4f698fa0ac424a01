//! Lowering gives SSA form: every register is written by one instruction, and every
//! jump goes to a block of the function.

use crate::ast::{ExprView, FnDefView, ParamView, StmtView, BinOp, UnOp};
use crate::liveness::graph_ok;
use crate::lower::{
    bin_kind_spec, bind_params, branch, dom_of, entry_state, finish_arm, float_or_int, is_condition,
    leave_loop, lower_args, lower_binary, lower_block, lower_cond, lower_expr, lower_if,
    lower_range, lower_shortcct, lower_start, lower_stmt, lower_while, lowered, returns_float, write_here,
};
use crate::lowstate::{
    find_phi, is_phi_of, lead_phis, operands_of, subst_blocks, subst_insts, Dom, Low, Operands,
};
use crate::mir::{named, BinKind, BlockView, InstView, MirFnView, UnKind, Val, Vreg};
use crate::text::dec_nat;
use vstd::prelude::*;

verus! {

/// How many of the instructions write `d`.
pub open spec fn writes(s: Seq<InstView>, d: Vreg) -> nat
    decreases s.len(),
{
    if s.len() == 0 {
        0
    } else {
        writes(s.drop_last(), d) + writes_one(s.last(), d)
    }
}

pub open spec fn writes_one(i: InstView, d: Vreg) -> nat {
    if i.def() == Some(d) {
        1
    } else {
        0
    }
}

/// How many instructions of the blocks write `d`.
pub open spec fn writes_all(s: Seq<BlockView>, d: Vreg) -> nat
    decreases s.len(),
{
    if s.len() == 0 {
        0
    } else {
        writes_all(s.drop_last(), d) + writes(s.last().insts, d)
    }
}

/// Every register is written at most once, and none that has not been taken.
pub open spec fn single_def(f: MirFnView) -> bool {
    forall|d: Vreg| #[trigger]
        writes_all(f.blocks, d) <= (if d < f.next_vreg {
            1nat
        } else {
            0
        })
}

/// Whether an instruction jumps only to the first `n` blocks.
pub open spec fn jumps_within(i: InstView, n: nat) -> bool {
    match i {
        InstView::Br { t, f, .. } => t < n && f < n,
        InstView::Jmp(t) => t < n,
        _ => true,
    }
}

pub open spec fn all_within(s: Seq<InstView>, n: nat) -> bool {
    forall|k: int| 0 <= k < s.len() ==> jumps_within(#[trigger] s[k], n)
}

/// Blocks are numbered by their place, and every jump is to one of them.
#[verifier::opaque]
pub open spec fn targets_known(s: Seq<BlockView>) -> bool {
    &&& s.len() <= u32::MAX
    &&& forall|b: int|
        0 <= b < s.len() ==> (#[trigger] s[b]).id == b && all_within(s[b].insts, s.len())
}

/// What one step of lowering keeps: the signature, and unless it gets stuck single
/// definitions and jumps to known blocks.
pub open spec fn keeps(s: Low, t: Low) -> bool {
    &&& s.stuck ==> t.stuck
    &&& (s.stuck || single_def(s.f)) ==> (t.stuck || single_def(t.f))
    &&& (s.stuck || targets_known(s.f.blocks)) ==> (t.stuck || targets_known(t.f.blocks))
    &&& same_signature(s.f, t.f)
}

/// Whether two functions have one name, take the same parameters and return alike.
pub open spec fn same_signature(a: MirFnView, b: MirFnView) -> bool {
    &&& a.name == b.name
    &&& a.n_params == b.n_params
    &&& a.param_is_float == b.param_is_float
    &&& a.ret_is_float == b.ret_is_float
    &&& a.entry == b.entry
}

/// Other instructions for a block, with jumps to known blocks.
proof fn targets_update(s: Seq<BlockView>, b: int, x: BlockView)
    requires
        0 <= b < s.len(),
        x.id == s[b].id,
        targets_known(s) ==> all_within(x.insts, s.len()),
    ensures
        targets_known(s) ==> targets_known(s.update(b, x)),
{
    reveal(targets_known);
}

proof fn targets_of(s: Seq<BlockView>, b: int)
    requires
        0 <= b < s.len(),
        targets_known(s),
    ensures
        all_within(s[b].insts, s.len()),
{
    reveal(targets_known);
}

proof fn filter_within(s: Seq<InstView>, p: spec_fn(InstView) -> bool, n: nat)
    requires
        all_within(s, n),
    ensures
        all_within(s.filter(p), n),
    decreases s.len(),
{
    reveal(Seq::filter);
    if s.len() > 0 {
        assert(all_within(s.drop_last(), n));
        filter_within(s.drop_last(), p, n);
    }
}

proof fn writes_push(s: Seq<InstView>, i: InstView, d: Vreg)
    ensures
        writes(s.push(i), d) == writes(s, d) + writes_one(i, d),
{
    assert(s.push(i).drop_last() =~= s);
}

proof fn writes_insert(s: Seq<InstView>, k: int, i: InstView, d: Vreg)
    requires
        0 <= k <= s.len(),
    ensures
        writes(s.insert(k, i), d) == writes(s, d) + writes_one(i, d),
    decreases s.len(),
{
    let t = s.insert(k, i);
    if k == s.len() {
        assert(t =~= s.push(i));
        writes_push(s, i, d);
    } else {
        assert(t.drop_last() =~= s.drop_last().insert(k, i));
        writes_insert(s.drop_last(), k, i, d);
    }
}

proof fn writes_update(s: Seq<InstView>, k: int, i: InstView, d: Vreg)
    requires
        0 <= k < s.len(),
        i.def() == s[k].def(),
    ensures
        writes(s.update(k, i), d) == writes(s, d),
    decreases s.len(),
{
    let t = s.update(k, i);
    if k == s.len() - 1 {
        assert(t.drop_last() =~= s.drop_last());
    } else {
        assert(t.drop_last() =~= s.drop_last().update(k, i));
        writes_update(s.drop_last(), k, i, d);
    }
}

proof fn writes_subst(s: Seq<InstView>, o: Val, n: Val, d: Vreg)
    ensures
        writes(subst_insts(s, o, n), d) == writes(s, d),
    decreases s.len(),
{
    if s.len() > 0 {
        assert(subst_insts(s, o, n).drop_last() =~= subst_insts(s.drop_last(), o, n));
        writes_subst(s.drop_last(), o, n, d);
    }
}

proof fn writes_filter(s: Seq<InstView>, p: spec_fn(InstView) -> bool, d: Vreg)
    ensures
        writes(s.filter(p), d) <= writes(s, d),
    decreases s.len(),
{
    reveal(Seq::filter);
    if s.len() > 0 {
        writes_filter(s.drop_last(), p, d);
        if p(s.last()) {
            writes_push(s.drop_last().filter(p), s.last(), d);
        }
    }
}

proof fn writes_block(s: Seq<BlockView>, b: int, x: BlockView, d: Vreg)
    requires
        0 <= b < s.len(),
    ensures
        writes_all(s.update(b, x), d) + writes(s[b].insts, d) == writes_all(s, d)
            + writes(x.insts, d),
    decreases s.len(),
{
    let t = s.update(b, x);
    if b == s.len() - 1 {
        assert(t.drop_last() =~= s.drop_last());
    } else {
        assert(t.drop_last() =~= s.drop_last().update(b, x));
        writes_block(s.drop_last(), b, x, d);
    }
}

proof fn writes_all_subst(s: Seq<BlockView>, o: Val, n: Val, d: Vreg)
    ensures
        writes_all(subst_blocks(s, o, n), d) == writes_all(s, d),
    decreases s.len(),
{
    if s.len() > 0 {
        assert(subst_blocks(s, o, n).drop_last() =~= subst_blocks(s.drop_last(), o, n));
        writes_all_subst(s.drop_last(), o, n, d);
        writes_subst(s.last().insts, o, n, d);
    }
}

proof fn find_phi_finds(s: Seq<InstView>, phi: Vreg)
    ensures
        find_phi(s, phi) < s.len() ==> is_phi_of(s[find_phi(s, phi) as int], phi),
    decreases s.len(),
{
    if s.len() > 0 && !is_phi_of(s[0], phi) {
        find_phi_finds(s.drop_first(), phi);
    }
}

proof fn lead_phis_bound(s: Seq<InstView>)
    ensures
        lead_phis(s) <= s.len(),
    decreases s.len(),
{
    if s.len() > 0 && s[0] is Phi {
        lead_phis_bound(s.drop_first());
    }
}

proof fn add_block_keeps(s: Low)
    ensures
        keeps(s, s.add_block().0),
{
    reveal(Low::add_block);
    let t = s.add_block().0;
    if s.f.blocks.len() < u32::MAX {
        assert forall|d: Vreg| #[trigger] writes_all(t.f.blocks, d) == writes_all(s.f.blocks, d) by {
            assert(t.f.blocks.drop_last() =~= s.f.blocks);
            assert(writes(Seq::<InstView>::empty(), d) == 0);
        }
        assert(targets_known(s.f.blocks) ==> targets_known(t.f.blocks)) by {
            reveal(targets_known);
            let n = s.f.blocks.len();
            if targets_known(s.f.blocks) {
                assert forall|b: int| 0 <= b <= n implies (#[trigger] t.f.blocks[b]).id == b
                    && all_within(t.f.blocks[b].insts, n + 1) by {
                    if b < n {
                        assert(t.f.blocks[b] == s.f.blocks[b]);
                        assert(all_within(s.f.blocks[b].insts, n));
                    }
                }
            }
        }
    }
}

/// Instructions that write nothing may be added anywhere.
proof fn emit_keeps(s: Low, i: InstView)
    requires
        i.def() is None,
        s.stuck || jumps_within(i, s.f.blocks.len()),
    ensures
        keeps(s, s.emit(i)),
{
    reveal(Low::emit);
    let t = s.emit(i);
    match s.cur {
        Some(b) => if s.has(b) {
            let insts = s.f.blocks[b as int].insts;
            let x = BlockView { id: s.f.blocks[b as int].id, insts: insts.push(i) };
            assert forall|d: Vreg| #[trigger] writes_all(t.f.blocks, d) == writes_all(s.f.blocks, d) by {
                writes_block(s.f.blocks, b as int, x, d);
                writes_push(insts, i, d);
            }
            if !s.stuck && targets_known(s.f.blocks) {
                targets_of(s.f.blocks, b as int);
                targets_update(s.f.blocks, b as int, x);
            }
        },
        None => {},
    }
}

/// A register that was just taken may be written.
proof fn emit_fresh_keeps(s: Low, i: InstView)
    requires
        i.def() == Some(s.fresh().1),
    ensures
        keeps(s, s.fresh().0.emit(i)),
{
    reveal(Low::emit);
    reveal(Low::fresh);
    let (s1, dst) = s.fresh();
    let t = s1.emit(i);
    if s.f.next_vreg < u32::MAX && !s.stuck && targets_known(s.f.blocks) {
        if let Some(b) = s1.cur {
            if s1.has(b) {
                let insts = s1.f.blocks[b as int].insts;
                let x = BlockView { id: s1.f.blocks[b as int].id, insts: insts.push(i) };
                targets_of(s.f.blocks, b as int);
                targets_update(s.f.blocks, b as int, x);
            }
        }
    }
    if s.f.next_vreg < u32::MAX && !s.stuck && single_def(s.f) {
        match s1.cur {
            Some(b) => if s1.has(b) {
                let insts = s1.f.blocks[b as int].insts;
                let x = BlockView { id: s1.f.blocks[b as int].id, insts: insts.push(i) };
                assert forall|d: Vreg| #[trigger]
                    writes_all(t.f.blocks, d) <= (if d < t.f.next_vreg {
                        1nat
                    } else {
                        0
                    }) by {
                    writes_block(s.f.blocks, b as int, x, d);
                    writes_push(insts, i, d);
                    assert(writes_all(s.f.blocks, d) <= (if d < s.f.next_vreg {
                        1nat
                    } else {
                        0
                    }));
                }
            },
            None => {},
        }
    }
}

proof fn fresh_phi_keeps(s: Low, b: u32)
    ensures
        keeps(s, s.fresh_phi(b).0),
{
    reveal(Low::fresh_phi);
    reveal(Low::fresh);
    let t = s.fresh_phi(b).0;
    if s.has(b) && s.f.next_vreg < u32::MAX && !s.stuck && targets_known(s.f.blocks) {
        let insts = s.f.blocks[b as int].insts;
        let i = InstView::Phi { dst: s.fresh().1, srcs: Seq::empty() };
        let k = lead_phis(insts) as int;
        lead_phis_bound(insts);
        let x = BlockView { id: s.f.blocks[b as int].id, insts: insts.insert(k, i) };
        targets_of(s.f.blocks, b as int);
        assert forall|j: int| 0 <= j < x.insts.len() implies jumps_within(
            #[trigger] x.insts[j],
            s.f.blocks.len(),
        ) by {
            if j < k {
                assert(x.insts[j] == insts[j]);
            } else if j > k {
                assert(x.insts[j] == insts[j - 1]);
            }
        }
        targets_update(s.f.blocks, b as int, x);
    }
    if s.has(b) && s.f.next_vreg < u32::MAX && !s.stuck && single_def(s.f) {
        let (s1, dst) = s.fresh();
        let insts = s.f.blocks[b as int].insts;
        let i = InstView::Phi { dst, srcs: Seq::empty() };
        let k = lead_phis(insts) as int;
        lead_phis_bound(insts);
        let x = BlockView { id: s.f.blocks[b as int].id, insts: insts.insert(k, i) };
        assert forall|d: Vreg| #[trigger]
            writes_all(t.f.blocks, d) <= (if d < t.f.next_vreg {
                1nat
            } else {
                0
            }) by {
            writes_block(s.f.blocks, b as int, x, d);
            writes_insert(insts, k, i, d);
            assert(writes_all(s.f.blocks, d) <= (if d < s.f.next_vreg {
                1nat
            } else {
                0
            }));
        }
    }
}

proof fn set_srcs_keeps(s: Low, b: u32, phi: Vreg, srcs: Seq<(u32, Val)>)
    ensures
        keeps(s, s.set_srcs(b, phi, srcs)),
{
    reveal(Low::set_srcs);
    let t = s.set_srcs(b, phi, srcs);
    if s.has(b) {
        let insts = s.f.blocks[b as int].insts;
        let k = find_phi(insts, phi);
        if k < insts.len() {
            find_phi_finds(insts, phi);
            let i = InstView::Phi { dst: phi, srcs };
            let x = BlockView { id: s.f.blocks[b as int].id, insts: insts.update(k as int, i) };
            assert forall|d: Vreg| #[trigger] writes_all(t.f.blocks, d) == writes_all(s.f.blocks, d) by {
                writes_block(s.f.blocks, b as int, x, d);
                writes_update(insts, k as int, i, d);
            }
            if targets_known(s.f.blocks) {
                targets_of(s.f.blocks, b as int);
                targets_update(s.f.blocks, b as int, x);
            }
        }
    }
}

proof fn replace_keeps(s: Low, o: Val, n: Val)
    ensures
        keeps(s, s.replace(o, n)),
{
    reveal(Low::replace);
    let t = s.replace(o, n);
    assert forall|d: Vreg| #[trigger] writes_all(t.f.blocks, d) == writes_all(s.f.blocks, d) by {
        writes_all_subst(s.f.blocks, o, n, d);
    }
    if targets_known(s.f.blocks) {
        reveal(targets_known);
        let len = s.f.blocks.len();
        assert forall|b: int| 0 <= b < len implies (#[trigger] t.f.blocks[b]).id == b
            && all_within(t.f.blocks[b].insts, len) by {
            let insts = s.f.blocks[b].insts;
            assert(all_within(insts, len));
            assert forall|k: int| 0 <= k < insts.len() implies jumps_within(
                #[trigger] t.f.blocks[b].insts[k],
                len,
            ) by {
                assert(jumps_within(insts[k], len));
            }
        }
    }
}

proof fn drop_phi_keeps(s: Low, b: u32, phi: Vreg)
    ensures
        keeps(s, s.drop_phi(b, phi).0),
{
    reveal(Low::drop_phi);
    if s.has(b) {
        let o = operands_of(s.srcs_of(b, phi), phi);
        if !(o is Many) {
            let n = match o {
                Operands::One(v) => v,
                _ => Val::Vreg(phi),
            };
            let insts = s.f.blocks[b as int].insts;
            let p = |i: InstView| !is_phi_of(i, phi);
            let x = BlockView { id: s.f.blocks[b as int].id, insts: insts.filter(p) };
            let u = s.with_insts(b, insts.filter(p));
            assert forall|d: Vreg| #[trigger] writes_all(u.f.blocks, d) <= writes_all(s.f.blocks, d) by {
                writes_block(s.f.blocks, b as int, x, d);
                writes_filter(insts, p, d);
            }
            assert(keeps(s, u)) by {
                if targets_known(s.f.blocks) {
                    targets_of(s.f.blocks, b as int);
                    filter_within(insts, p, s.f.blocks.len());
                    targets_update(s.f.blocks, b as int, x);
                }
                if single_def(s.f) {
                    assert forall|d: Vreg| #[trigger]
                        writes_all(u.f.blocks, d) <= (if d < u.f.next_vreg {
                            1nat
                        } else {
                            0
                        }) by {
                        assert(writes_all(s.f.blocks, d) <= (if d < s.f.next_vreg {
                            1nat
                        } else {
                            0
                        }));
                    }
                }
            }
            replace_keeps(u, Val::Vreg(phi), n);
        }
    }
}

proof fn write_keeps(s: Low, name: Seq<char>, b: u32, v: Val)
    ensures
        keeps(s, s.write(name, b, v)),
        s.write(name, b, v).f == s.f,
        s.write(name, b, v).stuck == s.stuck,
{
    reveal(Low::write);
}

proof fn read_var_keeps(s: Low, name: Seq<char>, b: u32, fuel: nat)
    ensures
        keeps(s, s.read_var(name, b, fuel).0),
    decreases fuel, 0nat,
{
    if s.defs.contains_key((name, b)) {
    } else if fuel == 0 || !s.has(b) {
    } else if !s.sealed[b as int] {
        let (s1, phi) = s.fresh_phi(b);
        fresh_phi_keeps(s, b);
        if s1.has(b) {
            let t = Low {
                parked: s1.parked.update(b as int, s1.parked[b as int].push((name, phi))),
                ..s1
            };
            write_keeps(t, name, b, Val::Vreg(phi));
        }
    } else if s.preds[b as int].len() == 1 {
        let p = s.preds[b as int][0];
        read_var_keeps(s, name, p, (fuel - 1) as nat);
        let (s1, v) = s.read_var(name, p, (fuel - 1) as nat);
        write_keeps(s1, name, b, v);
    } else if s.preds[b as int].len() == 0 {
        write_keeps(s, name, b, s.read_var(name, b, fuel).1);
    } else {
        let (s1, phi) = s.fresh_phi(b);
        fresh_phi_keeps(s, b);
        let s2 = s1.write(name, b, Val::Vreg(phi));
        write_keeps(s1, name, b, Val::Vreg(phi));
        let ps = s.preds[b as int];
        read_all_keeps(s2, name, ps, (fuel - 1) as nat);
        let (t, srcs) = s2.read_all(name, ps, (fuel - 1) as nat);
        set_srcs_keeps(t, b, phi, srcs);
        let t2 = t.set_srcs(b, phi, srcs);
        drop_phi_keeps(t2, b, phi);
        let (u, v) = t2.drop_phi(b, phi);
        write_keeps(u, name, b, v);
    }
}

proof fn read_all_keeps(s: Low, name: Seq<char>, ps: Seq<u32>, fuel: nat)
    ensures
        keeps(s, s.read_all(name, ps, fuel).0),
    decreases fuel, ps.len() + 1,
{
    if ps.len() > 0 {
        read_all_keeps(s, name, ps.drop_last(), fuel);
        let s1 = s.read_all(name, ps.drop_last(), fuel).0;
        read_var_keeps(s1, name, ps.last(), fuel);
    }
}

proof fn read_keeps(s: Low, name: Seq<char>, b: u32)
    ensures
        keeps(s, s.read(name, b).0),
{
    reveal(Low::read);
    read_var_keeps(s, name, b, crate::lowstate::reach(s.f.blocks.len()));
}

proof fn fill_phi_keeps(s: Low, name: Seq<char>, b: u32, phi: Vreg)
    ensures
        keeps(s, s.fill_phi(name, b, phi)),
{
    reveal(Low::fill_phi);
    if s.has(b) {
        let n = crate::lowstate::reach(s.f.blocks.len());
        read_all_keeps(s, name, s.preds[b as int], n);
        let (s1, srcs) = s.read_all(name, s.preds[b as int], n);
        set_srcs_keeps(s1, b, phi, srcs);
        let s2 = s1.set_srcs(b, phi, srcs);
        drop_phi_keeps(s2, b, phi);
        let (t, v) = s2.drop_phi(b, phi);
        write_keeps(t, name, b, v);
    }
}

proof fn fill_phis_keeps(s: Low, b: u32, phis: Seq<(Seq<char>, Vreg)>)
    ensures
        keeps(s, s.fill_phis(b, phis)),
    decreases phis.len(),
{
    if phis.len() > 0 {
        fill_phis_keeps(s, b, phis.drop_last());
        fill_phi_keeps(s.fill_phis(b, phis.drop_last()), phis.last().0, b, phis.last().1);
    }
}

proof fn seal_keeps(s: Low, b: u32)
    ensures
        keeps(s, s.seal(b)),
{
    reveal(Low::seal);
    if s.has(b) && !s.sealed[b as int] {
        let s1 = Low { parked: s.parked.update(b as int, Seq::empty()), ..s };
        fill_phis_keeps(s1, b, s.parked[b as int]);
    }
}

proof fn edge_keeps(s: Low, from: u32, to: u32)
    ensures
        keeps(s, s.edge(from, to)),
        s.edge(from, to).f == s.f,
        s.edge(from, to).stuck || to < s.f.blocks.len(),
{
    reveal(Low::edge);
}

proof fn terminate_keeps(s: Low, i: InstView)
    requires
        i.def() is None,
        s.stuck || jumps_within(i, s.f.blocks.len()),
    ensures
        keeps(s, s.terminate(i)),
{
    reveal(Low::terminate);
    emit_keeps(s, i);
}

proof fn jump_keeps(s: Low, b: u32)
    ensures
        keeps(s, s.jump(b)),
{
    reveal(Low::jump);
    match s.cur {
        Some(c) => {
            edge_keeps(s, c, b);
            terminate_keeps(s.edge(c, b), InstView::Jmp(b));
        },
        None => {},
    }
}

proof fn emit_bin_keeps(s: Low, op: BinKind, a: Val, b: Val, wrap: bool)
    ensures
        keeps(s, s.emit_bin(op, a, b, wrap).0),
{
    reveal(Low::emit_bin);
    emit_fresh_keeps(s, InstView::Bin { dst: s.fresh().1, op, a, b, wrap });
}

proof fn branch_keeps(s: Low, cond: Val, t: u32, f: u32)
    ensures
        keeps(s, branch(s, cond, t, f)),
{
    if let Some(cur) = s.cur {
        edge_keeps(s, cur, t);
        edge_keeps(s.edge(cur, t), cur, f);
        terminate_keeps(s.edge(cur, t).edge(cur, f), InstView::Br { cond, t, f });
    }
}

proof fn finish_arm_keeps(s: Low, tmp: Seq<char>, v: Val, join_b: u32)
    ensures
        keeps(s, finish_arm(s, tmp, v, join_b)),
{
    match s.cur {
        Some(b) => {
            write_keeps(s, tmp, b, v);
            edge_keeps(s.write(tmp, b, v), b, join_b);
            terminate_keeps(s.write(tmp, b, v).edge(b, join_b), InstView::Jmp(join_b));
        },
        None => {},
    }
}

proof fn lower_expr_keeps(s: Low, e: ExprView)
    ensures
        keeps(s, lower_expr(s, e).0),
    decreases e, 2nat,
{
    match e {
        ExprView::Ident(n) => match s.cur {
            Some(b) => read_keeps(s, n, b),
            None => {},
        },
        ExprView::Unary { op, expr } => {
            lower_expr_keeps(s, *expr);
            let (s1, a) = lower_expr(s, *expr);
            match op {
                UnOp::Neg => {
                    let (s2, dst) = s1.fresh();
                    let float = dom_of(s2.doms, s2.sigs, *expr) is Float;
                    emit_fresh_keeps(
                        s1,
                        InstView::Un {
                            dst,
                            op: if float {
                                UnKind::FNeg
                            } else {
                                UnKind::INeg
                            },
                            a,
                            wrap: !float,
                        },
                    );
                },
                UnOp::Not => emit_bin_keeps(s1, BinKind::IEq, a, Val::IntConst(0), false),
            }
        },
        ExprView::Binary { op, .. } => if op == BinOp::And || op == BinOp::Or {
            lower_shortcct_keeps(s, e);
        } else {
            lower_binary_keeps(s, e);
        },
        ExprView::Call { callee, args } => match *callee {
            ExprView::Ident(n) => {
                lower_args_keeps(s, args);
                let (s1, vals) = lower_args(s, args);
                let is_float = returns_float(s1.sigs, n);
                emit_fresh_keeps(
                    s1,
                    InstView::Call { dst: s1.fresh().1, callee: n, args: vals, is_float },
                );
            },
            _ => {},
        },
        ExprView::IfElse { .. } => lower_choice_keeps(s, e),
        _ => {},
    }
}

proof fn lower_choice_keeps(s: Low, e: ExprView)
    requires
        e is IfElse,
    ensures
        keeps(s, lower_expr(s, e).0),
    decreases e, 1nat,
{
    match e {
        ExprView::IfElse { cond, then, els } => {
            let dom = dom_of(s.doms, s.sigs, e);
            let (s1, then_b) = s.add_block();
            let (s2, else_b) = s1.add_block();
            let (s3, join_b) = s2.add_block();
            add_block_keeps(s);
            add_block_keeps(s1);
            add_block_keeps(s2);
            match s3.cur {
                Some(cur) => {
                    lower_cond_keeps(s3, *cond);
                    let (s4, cv) = lower_cond(s3, *cond);
                    branch_keeps(s4, cv, then_b, else_b);
                    let b = branch(s4, cv, then_b, else_b);
                    seal_keeps(b, then_b);
                    seal_keeps(b.seal(then_b), else_b);
                    let s5 = b.seal(then_b).seal(else_b);
                    let tmp = "__ifx"@ + dec_nat(s5.f.next_vreg as nat);
                    let s6 = Low { doms: s5.doms.insert(tmp, dom), ..s5 };
                    lower_expr_keeps(s6.at(then_b), *then);
                    let (s7, tv) = lower_expr(s6.at(then_b), *then);
                    finish_arm_keeps(s7, tmp, tv, join_b);
                    let s8 = finish_arm(s7, tmp, tv, join_b);
                    lower_expr_keeps(s8.at(else_b), *els);
                    let (s9, ev) = lower_expr(s8.at(else_b), *els);
                    finish_arm_keeps(s9, tmp, ev, join_b);
                    let s10 = finish_arm(s9, tmp, ev, join_b);
                    seal_keeps(s10, join_b);
                    read_keeps(s10.seal(join_b).at(join_b), tmp, join_b);
                },
                None => {},
            }
        },
        _ => {},
    }
}

proof fn lower_args_keeps(s: Low, args: Seq<ExprView>)
    ensures
        keeps(s, lower_args(s, args).0),
    decreases args, 0nat,
{
    if args.len() > 0 {
        lower_args_keeps(s, args.drop_last());
        lower_expr_keeps(lower_args(s, args.drop_last()).0, args.last());
    }
}

proof fn lower_binary_keeps(s: Low, e: ExprView)
    ensures
        keeps(s, lower_binary(s, e).0),
    decreases e, 1nat,
{
    match e {
        ExprView::Binary { op, lhs, rhs } => {
            let float = dom_of(s.doms, s.sigs, *lhs) is Float
                || dom_of(s.doms, s.sigs, *rhs) is Float;
            lower_expr_keeps(s, *lhs);
            let (s1, a) = lower_expr(s, *lhs);
            lower_expr_keeps(s1, *rhs);
            let (s2, b) = lower_expr(s1, *rhs);
            match bin_kind_spec(op, float, *rhs) {
                Some((kind, wrap)) => emit_bin_keeps(s2, kind, a, b, wrap),
                None => {},
            }
        },
        _ => {},
    }
}

proof fn lower_shortcct_keeps(s: Low, e: ExprView)
    ensures
        keeps(s, lower_shortcct(s, e).0),
    decreases e, 1nat,
{
    match e {
        ExprView::Binary { op, lhs, rhs } => {
            let (s1, rhs_b) = s.add_block();
            let (s2, join_b) = s1.add_block();
            add_block_keeps(s);
            add_block_keeps(s1);
            match s2.cur {
                Some(cur) => {
                    lower_cond_keeps(s2, *lhs);
                    let (s3, lv) = lower_cond(s2, *lhs);
                    let tmp = "__scx"@ + dec_nat(s3.f.next_vreg as nat);
                    let s4 = Low { doms: s3.doms.insert(tmp, Dom::Int), ..s3 };
                    let decided: i64 = if op == BinOp::And {
                        0
                    } else {
                        1
                    };
                    let here = write_here(s4, tmp, Val::IntConst(decided));
                    if let Some(c) = s4.cur {
                        write_keeps(s4, tmp, c, Val::IntConst(decided));
                    }
                    branch_keeps(here, lv, rhs_b, join_b);
                    branch_keeps(here, lv, join_b, rhs_b);
                    let left = if op == BinOp::And {
                        branch(here, lv, rhs_b, join_b)
                    } else {
                        branch(here, lv, join_b, rhs_b)
                    };
                    seal_keeps(left, rhs_b);
                    let s5 = left.seal(rhs_b).at(rhs_b);
                    lower_cond_keeps(s5, *rhs);
                    let (s6, rv) = lower_cond(s5, *rhs);
                    finish_arm_keeps(s6, tmp, rv, join_b);
                    let s7 = finish_arm(s6, tmp, rv, join_b);
                    seal_keeps(s7, join_b);
                    read_keeps(s7.seal(join_b).at(join_b), tmp, join_b);
                },
                None => {},
            }
        },
        _ => {},
    }
}

proof fn lower_cond_keeps(s: Low, e: ExprView)
    ensures
        keeps(s, lower_cond(s, e).0),
    decreases e, 3nat,
{
    lower_expr_keeps(s, e);
    if !(e is Binary && is_condition(e->Binary_op)) {
        let (s1, v) = lower_expr(s, e);
        emit_bin_keeps(s1, BinKind::FNe, v, Val::FloatConst(0), false);
        emit_bin_keeps(s1, BinKind::INe, v, Val::IntConst(0), false);
    }
}

proof fn lower_block_keeps(s: Low, body: Seq<StmtView>)
    ensures
        keeps(s, lower_block(s, body)),
    decreases body, 0nat, 0nat,
{
    if body.len() > 0 {
        lower_block_keeps(s, body.drop_last());
        lower_stmt_keeps(lower_block(s, body.drop_last()), body.last());
    }
}

proof fn lower_stmt_keeps(s: Low, st: StmtView)
    ensures
        keeps(s, lower_stmt(s, st)),
    decreases st, 1nat, 0nat,
{
    match st {
        StmtView::Break => if s.loops.len() > 0 {
            jump_keeps(s, s.loops.last().1);
        },
        StmtView::Continue => if s.loops.len() > 0 {
            jump_keeps(s, s.loops.last().0);
        },
        StmtView::Let { name, value, .. } => {
            let dom = dom_of(s.doms, s.sigs, value);
            lower_expr_keeps(s, value);
            let (s1, v) = lower_expr(s, value);
            let s2 = Low { doms: s1.doms.insert(name, dom), ..s1 };
            match s2.cur {
                Some(b) => write_keeps(s2, name, b, v),
                None => {},
            }
        },
        StmtView::Assign { target, value } => match target {
            ExprView::Ident(name) => {
                lower_expr_keeps(s, value);
                let (s1, v) = lower_expr(s, value);
                match s1.cur {
                    Some(b) => write_keeps(s1, name, b, v),
                    None => {},
                }
            },
            _ => {},
        },
        StmtView::ExprStmt(e) => lower_expr_keeps(s, e),
        StmtView::Return(o) => match o {
            Some(e) => {
                lower_expr_keeps(s, e);
                let (s1, v) = lower_expr(s, e);
                terminate_keeps(s1, InstView::Ret(Some(v)));
            },
            None => terminate_keeps(s, InstView::Ret(None)),
        },
        StmtView::If { .. } => lower_if_keeps(s, st, 0),
        StmtView::While { .. } => lower_while_keeps(s, st),
        StmtView::For { .. } => lower_range_keeps(s, st),
        _ => {},
    }
}

proof fn lower_if_keeps(s: Low, st: StmtView, k: nat)
    ensures
        keeps(s, lower_if(s, st, k)),
    decreases
            st,
            0nat,
            (if st is If {
                st->If_elifs.len() - k
            } else {
                0
            }),
{
    match st {
        StmtView::If { cond, then, elifs, els } => if k <= elifs.len() {
            let (s1, then_b) = s.add_block();
            let (s2, else_b) = s1.add_block();
            let (s3, join_b) = s2.add_block();
            add_block_keeps(s);
            add_block_keeps(s1);
            add_block_keeps(s2);
            match s3.cur {
                Some(cur) => {
                    let test = if k == 0 {
                        cond
                    } else {
                        elifs[k - 1].0
                    };
                    lower_cond_keeps(s3, test);
                    let (s4, cv) = lower_cond(s3, test);
                    branch_keeps(s4, cv, then_b, else_b);
                    let b = branch(s4, cv, then_b, else_b);
                    seal_keeps(b, then_b);
                    seal_keeps(b.seal(then_b), else_b);
                    let s5 = b.seal(then_b).seal(else_b).at(then_b);
                    let arm = if k == 0 {
                        then
                    } else {
                        elifs[k - 1].1
                    };
                    lower_block_keeps(s5, arm);
                    let c = lower_block(s5, arm);
                    jump_keeps(c, join_b);
                    let s6 = c.jump(join_b).at(else_b);
                    let s7 = if k < elifs.len() {
                        lower_if(s6, st, k + 1)
                    } else {
                        match els {
                            Some(b) => lower_block(s6, b),
                            None => s6,
                        }
                    };
                    if k < elifs.len() {
                        lower_if_keeps(s6, st, k + 1);
                    } else {
                        match els {
                            Some(b) => lower_block_keeps(s6, b),
                            None => {},
                        }
                    }
                    jump_keeps(s7, join_b);
                    seal_keeps(s7.jump(join_b), join_b);
                },
                None => {},
            }
        },
        _ => {},
    }
}

proof fn lower_while_keeps(s: Low, st: StmtView)
    ensures
        keeps(s, lower_while(s, st)),
    decreases st, 0nat, 0nat,
{
    match st {
        StmtView::While { cond, body } => {
            let (s1, header) = s.add_block();
            let (s2, body_b) = s1.add_block();
            let (s3, exit_b) = s2.add_block();
            add_block_keeps(s);
            add_block_keeps(s1);
            add_block_keeps(s2);
            match s3.cur {
                Some(_) => {
                    jump_keeps(s3, header);
                    let a = s3.jump(header).at(header);
                    lower_cond_keeps(a, cond);
                    let (s4, cv) = lower_cond(a, cond);
                    branch_keeps(s4, cv, body_b, exit_b);
                    let b = branch(s4, cv, body_b, exit_b);
                    seal_keeps(b, body_b);
                    let s5 = b.seal(body_b);
                    let s6 = Low { loops: s5.loops.push((header, exit_b)), ..s5 }.at(body_b);
                    lower_block_keeps(s6, body);
                    let c = lower_block(s6, body);
                    jump_keeps(c, header);
                    let s7 = c.jump(header);
                    let s8 = leave_loop(s7);
                    seal_keeps(s8, header);
                    seal_keeps(s8.seal(header), exit_b);
                },
                None => {},
            }
        },
        _ => {},
    }
}

proof fn lower_range_keeps(s: Low, st: StmtView)
    ensures
        keeps(s, lower_range(s, st)),
    decreases st, 0nat, 0nat,
{
    match st {
        StmtView::For { var, iter, body } => match iter {
            ExprView::Range { lo, hi } => {
                lower_expr_keeps(s, *lo);
                let (s1, lo_v) = lower_expr(s, *lo);
                lower_expr_keeps(s1, *hi);
                let (s2, hi_v) = lower_expr(s1, *hi);
                let limit = "__lim"@ + dec_nat(s2.f.next_vreg as nat);
                let s3 = Low {
                    doms: s2.doms.insert(var, Dom::Int).insert(limit, Dom::Int),
                    ..s2
                };
                let (s4, header) = s3.add_block();
                let (s5, body_b) = s4.add_block();
                let (s6, cont_b) = s5.add_block();
                let (s7, exit_b) = s6.add_block();
                add_block_keeps(s3);
                add_block_keeps(s4);
                add_block_keeps(s5);
                add_block_keeps(s6);
                match s7.cur {
                    Some(cur) => {
                        write_keeps(s7, var, cur, lo_v);
                        write_keeps(s7.write(var, cur, lo_v), limit, cur, hi_v);
                        let a = s7.write(var, cur, lo_v).write(limit, cur, hi_v);
                        jump_keeps(a, header);
                        let s8 = a.jump(header).at(header);
                        read_keeps(s8, var, header);
                        let (s9, vv) = s8.read(var, header);
                        read_keeps(s9, limit, header);
                        let (s10, lv) = s9.read(limit, header);
                        emit_bin_keeps(s10, BinKind::ILt, vv, lv, false);
                        let (s11, cv) = s10.emit_bin(BinKind::ILt, vv, lv, false);
                        branch_keeps(s11, cv, body_b, exit_b);
                        let b = branch(s11, cv, body_b, exit_b);
                        seal_keeps(b, body_b);
                        let s12 = b.seal(body_b);
                        let s13 = Low { loops: s12.loops.push((cont_b, exit_b)), ..s12 }.at(
                            body_b,
                        );
                        lower_block_keeps(s13, body);
                        let c = lower_block(s13, body);
                        jump_keeps(c, cont_b);
                        let s14 = c.jump(cont_b);
                        seal_keeps(leave_loop(s14), cont_b);
                        let s15 = leave_loop(s14).seal(cont_b).at(cont_b);
                        read_keeps(s15, var, cont_b);
                        let (s16, cvv) = s15.read(var, cont_b);
                        emit_bin_keeps(s16, BinKind::IAdd, cvv, Val::IntConst(1), true);
                        let (s17, nv) = s16.emit_bin(BinKind::IAdd, cvv, Val::IntConst(1), true);
                        write_keeps(s17, var, cont_b, nv);
                        let d = s17.write(var, cont_b, nv);
                        jump_keeps(d, header);
                        let x = d.jump(header);
                        seal_keeps(x, header);
                        seal_keeps(x.seal(header), exit_b);
                    },
                    None => {},
                }
            },
            _ => {},
        },
        _ => {},
    }
}

proof fn bind_params_keeps(s: Low, ps: Seq<ParamView>)
    ensures
        keeps(s, bind_params(s, ps)),
    decreases ps.len(),
{
    if ps.len() > 0 {
        bind_params_keeps(s, ps.drop_last());
        let s1 = bind_params(s, ps.drop_last());
        let p = ps.last();
        let s2 = Low { doms: s1.doms.insert(p.name, float_or_int(named(p.ty, "f64"@))), ..s1 };
        write_keeps(s2, p.name, 0, Val::Param(((ps.len() - 1) % 0x1_0000_0000) as u32));
    }
}

/// Lowering gives SSA form: in the lowering of a function every register is written by
/// one instruction at most.
pub proof fn lowering_is_ssa(f: FnDefView, sigs: Map<Seq<char>, bool>)
    requires
        !lowered(f, sigs).stuck,
    ensures
        single_def(lowered(f, sigs).f),
{
    let first = entry_state(f, sigs);
    assert(single_def(first.f)) by {
        assert forall|d: Vreg| #[trigger] writes_all(first.f.blocks, d) == 0 by {
            let b = first.f.blocks;
            assert(b.drop_last() =~= Seq::<BlockView>::empty());
            assert(b.last().insts =~= Seq::<InstView>::empty());
            assert(writes_all(b.drop_last(), d) == 0);
            assert(writes(b.last().insts, d) == 0);
        }
    }
    lowering_keeps(f, sigs);
}

/// Lowering gives a graph: blocks are numbered by their place, and every jump goes to one
/// of them.
pub proof fn lowering_gives_graph(f: FnDefView, sigs: Map<Seq<char>, bool>)
    requires
        !lowered(f, sigs).stuck,
    ensures
        targets_known(lowered(f, sigs).f.blocks),
        graph_ok(lowered(f, sigs).f),
{
    let first = entry_state(f, sigs);
    let blocks = lowered(f, sigs).f.blocks;
    assert(targets_known(first.f.blocks)) by {
        reveal(targets_known);
    }
    lowering_keeps(f, sigs);
    assert forall|b: int| 0 <= b < blocks.len() && (#[trigger] blocks[b]).insts.len() > 0 implies
        jumps_within(blocks[b].insts.last(), blocks.len()) by {
        targets_of(blocks, b);
    }
    assert(graph_ok(lowered(f, sigs).f)) by {
        reveal(targets_known);
    }
}

/// The lowering of a function has its name and its parameters, and returns what it
/// returns.
pub proof fn lowering_keeps_signature(f: FnDefView, sigs: Map<Seq<char>, bool>)
    requires
        !lowered(f, sigs).stuck,
    ensures
        ({
            let m = lowered(f, sigs).f;
            &&& m.name == f.name
            &&& m.n_params == f.params.len()
            &&& m.param_is_float.len() == f.params.len()
            &&& forall|i: int|
                0 <= i < f.params.len() ==> #[trigger] m.param_is_float[i] == named(
                    f.params[i].ty,
                    "f64"@,
                )
            &&& m.ret_is_float == named(f.ret, "f64"@)
            &&& m.entry == 0
        }),
{
    lowering_keeps(f, sigs);
}

proof fn lowering_keeps(f: FnDefView, sigs: Map<Seq<char>, bool>)
    ensures
        keeps(entry_state(f, sigs), lowered(f, sigs)),
{
    bind_params_keeps(entry_state(f, sigs), f.params);
    let s0 = lower_start(f, sigs);
    lower_block_keeps(s0, f.body);
    let s = lower_block(s0, f.body);
    match s.cur {
        Some(_) => terminate_keeps(
            s,
            InstView::Ret(
                Some(
                    if s.f.ret_is_float {
                        Val::FloatConst(0)
                    } else {
                        Val::IntConst(0)
                    },
                ),
            ),
        ),
        None => {},
    }
}

} // verus!
