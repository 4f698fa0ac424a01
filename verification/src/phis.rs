//! Every source of a phi is a block that jumps to the block of the phi.

use crate::ast::{BinOp, ExprView, FnDefView, ParamView, StmtView, UnOp};
use crate::lower::{
    bin_kind_spec, bind_params, branch, dom_of, entry_state, finish_arm, float_or_int,
    is_condition, leave_loop, lower_args, lower_binary, lower_block, lower_cond, lower_expr,
    lower_if, lower_range, lower_shortcct, lower_start, lower_stmt, lower_while, lowered,
    returns_float, write_here,
};
use crate::lowstate::{
    find_phi, is_phi_of, lead_phis, operands_of, subst_inst, subst_insts, Dom, Low, Operands,
};
use crate::mir::{named, BinKind, BlockView, InstView, MirFnView, UnKind, Val, Vreg};
use crate::text::dec_nat;
use vstd::prelude::*;

verus! {

/// Whether an instruction may go on at block `b`.
pub open spec fn jumps_to(i: InstView, b: int) -> bool {
    match i {
        InstView::Br { t, f, .. } => t == b || f == b,
        InstView::Jmp(t) => t == b,
        _ => false,
    }
}

/// Whether a block ends in a jump to block `b`.
pub open spec fn ends_at(insts: Seq<InstView>, b: int) -> bool {
    insts.len() > 0 && jumps_to(insts.last(), b)
}

/// Whether the blocks that an instruction of block `b` takes values from all end in a jump
/// to it.
pub open spec fn sources_jump(blocks: Seq<BlockView>, b: int, i: InstView) -> bool {
    match i {
        InstView::Phi { srcs, .. } => forall|j: int|
            0 <= j < srcs.len() ==> (#[trigger] srcs[j]).0 < blocks.len() && ends_at(
                blocks[srcs[j].0 as int].insts,
                b,
            ),
        _ => true,
    }
}

/// Whether every source of a phi is a block that jumps to the block of the phi.
pub open spec fn phis_follow_jumps(f: MirFnView) -> bool {
    forall|b: int, k: int|
        0 <= b < f.blocks.len() && 0 <= k < f.blocks[b].insts.len() ==> sources_jump(
            f.blocks,
            b,
            #[trigger] f.blocks[b].insts[k],
        )
}

spec fn is_end(i: InstView) -> bool {
    i is Br || i is Jmp || i is Ret
}

spec fn open_block(s: Seq<InstView>) -> bool {
    forall|k: int| 0 <= k < s.len() ==> !is_end(#[trigger] s[k])
}

spec fn only_phis(s: Seq<InstView>) -> bool {
    forall|k: int| 0 <= k < s.len() ==> (#[trigger] s[k]) is Phi
}

spec fn srcs_in(i: InstView, ps: Seq<u32>) -> bool {
    match i {
        InstView::Phi { srcs, .. } => forall|j: int|
            0 <= j < srcs.len() ==> ps.contains((#[trigger] srcs[j]).0),
        _ => true,
    }
}

spec fn all_srcs_in(s: Seq<InstView>, ps: Seq<u32>) -> bool {
    forall|k: int| 0 <= k < s.len() ==> srcs_in(#[trigger] s[k], ps)
}

/// Whether the edges noted so far are jumps, the phis go by them, and the current block is
/// still open.
#[verifier::opaque]
spec fn good(blocks: Seq<BlockView>, preds: Seq<Seq<u32>>, cur: Option<u32>) -> bool {
    &&& preds.len() == blocks.len()
    &&& forall|b: int, i: int|
        0 <= b < preds.len() && 0 <= i < preds[b].len() ==> (#[trigger] preds[b][i]) < blocks.len()
            && ends_at(blocks[preds[b][i] as int].insts, b)
    &&& forall|b: int| 0 <= b < blocks.len() ==> all_srcs_in((#[trigger] blocks[b]).insts, preds[b])
    &&& cur is Some ==> cur->Some_0 < blocks.len() && open_block(
        blocks[cur->Some_0 as int].insts,
    )
}

/// Whether nothing but phis stands in a block.
#[verifier::opaque]
spec fn idle(blocks: Seq<BlockView>, b: u32) -> bool {
    b < blocks.len() && only_phis(blocks[b as int].insts)
}

spec fn fine(s: Low) -> bool {
    good(s.f.blocks, s.preds, s.cur)
}

/// What a step leaves alone: blocks that wait for their code still wait, and work goes on
/// in the current block or in a new one.
spec fn frame(s: Low, t: Low) -> bool {
    &&& s.f.blocks.len() <= t.f.blocks.len()
    &&& t.cur is None || t.cur == s.cur || t.cur->Some_0 >= s.f.blocks.len()
    &&& forall|b: u32| #[trigger]
        idle(s.f.blocks, b) && s.cur != Some(b) ==> idle(t.f.blocks, b)
}

/// What one step of lowering keeps, unless it gets stuck.
spec fn links(s: Low, t: Low) -> bool {
    t.stuck || (!s.stuck && (fine(s) ==> fine(t) && frame(s, t)))
}

/// What a step keeps that only reads variables.
spec fn reads(s: Low, t: Low) -> bool {
    t.stuck || {
        &&& !s.stuck
        &&& t.preds == s.preds
        &&& t.cur == s.cur
        &&& t.f.blocks.len() == s.f.blocks.len()
        &&& fine(s) ==> fine(t)
        &&& forall|b: u32| #[trigger] idle(s.f.blocks, b) ==> idle(t.f.blocks, b)
    }
}

proof fn follow(s: Low, t: Low, u: Low)
    requires
        links(s, t),
        links(t, u),
    ensures
        links(s, u),
{
    if !u.stuck && fine(s) {
        assert forall|b: u32| #[trigger]
            idle(s.f.blocks, b) && s.cur != Some(b) implies idle(u.f.blocks, b) by {
            assert(idle(t.f.blocks, b));
            reveal(idle);
        }
    }
}

/// Work goes on in a block that waited for it.
proof fn at_links(s: Low, t: Low, b: u32)
    requires
        links(s, t),
        b >= s.f.blocks.len(),
        idle(t.f.blocks, b),
    ensures
        links(s, t.at(b)),
{
    reveal(good);
    reveal(idle);
}

proof fn filter_all(s: Seq<InstView>, p: spec_fn(InstView) -> bool, q: spec_fn(InstView) -> bool)
    requires
        forall|k: int| 0 <= k < s.len() ==> q(#[trigger] s[k]),
    ensures
        forall|k: int| 0 <= k < s.filter(p).len() ==> q(#[trigger] s.filter(p)[k]),
    decreases s.len(),
{
    reveal(Seq::filter);
    if s.len() > 0 {
        let d = s.drop_last();
        assert forall|k: int| 0 <= k < d.len() implies q(#[trigger] d[k]) by {
            assert(q(s[k]));
        }
        filter_all(d, p, q);
        assert(q(s[s.len() - 1]));
        let r = s.filter(p);
        assert forall|k: int| 0 <= k < r.len() implies q(#[trigger] r[k]) by {
            if k < d.filter(p).len() {
                assert(r[k] == d.filter(p)[k]);
            } else {
                assert(r[k] == s.last());
            }
        }
    }
}

proof fn lead_phis_are(s: Seq<InstView>)
    ensures
        lead_phis(s) <= s.len(),
        forall|j: int| 0 <= j < lead_phis(s) ==> (#[trigger] s[j]) is Phi,
    decreases s.len(),
{
    if s.len() > 0 && s[0] is Phi {
        lead_phis_are(s.drop_first());
        assert forall|j: int| 0 <= j < lead_phis(s) implies (#[trigger] s[j]) is Phi by {
            if j > 0 {
                assert(s[j] == s.drop_first()[j - 1]);
            }
        }
    }
}

proof fn find_phi_finds(s: Seq<InstView>, phi: Vreg)
    ensures
        find_phi(s, phi) < s.len() ==> is_phi_of(s[find_phi(s, phi) as int], phi),
    decreases s.len(),
{
    if s.len() > 0 && !is_phi_of(s[0], phi) {
        find_phi_finds(s.drop_first(), phi);
    }
}

/// Whether other instructions can stand for those of a block where only its phis differ.
spec fn like(x: Seq<InstView>, y: Seq<InstView>, ps: Seq<u32>) -> bool {
    &&& forall|b: int| #[trigger] ends_at(x, b) ==> ends_at(y, b)
    &&& open_block(x) ==> open_block(y)
    &&& only_phis(x) ==> only_phis(y)
    &&& all_srcs_in(x, ps) ==> all_srcs_in(y, ps)
}

/// A change of phis.
proof fn change_reads(s: Low, t: Low)
    requires
        !t.stuck ==> !s.stuck && t.preds == s.preds && t.cur == s.cur && t.f.blocks.len()
            == s.f.blocks.len(),
        !t.stuck && s.preds.len() == s.f.blocks.len() ==> forall|b: int|
            0 <= b < s.f.blocks.len() ==> like(
                s.f.blocks[b].insts,
                (#[trigger] t.f.blocks[b]).insts,
                s.preds[b],
            ),
        !t.stuck ==> forall|b: int|
            0 <= b < s.f.blocks.len() ==> (only_phis(s.f.blocks[b].insts) ==> only_phis(
                (#[trigger] t.f.blocks[b]).insts,
            )),
    ensures
        reads(s, t),
        links(s, t),
{
    if !t.stuck {
        let (x, y, ps) = (s.f.blocks, t.f.blocks, s.preds);
        assert forall|b: u32| #[trigger] idle(x, b) implies idle(y, b) by {
            reveal(idle);
            assert(only_phis(y[b as int].insts));
        }
        if fine(s) {
            reveal(good);
            assert forall|b: int, i: int| 0 <= b < ps.len() && 0 <= i < ps[b].len() implies (
            #[trigger] ps[b][i]) < y.len() && ends_at(y[ps[b][i] as int].insts, b) by {
                let p = ps[b][i] as int;
                assert(ends_at(x[p].insts, b));
                assert(like(x[p].insts, y[p].insts, ps[p]));
            }
            assert forall|b: int| 0 <= b < y.len() implies all_srcs_in(
                (#[trigger] y[b]).insts,
                ps[b],
            ) by {
                assert(all_srcs_in(x[b].insts, ps[b]));
                assert(like(x[b].insts, y[b].insts, ps[b]));
            }
            if let Some(c) = s.cur {
                assert(like(x[c as int].insts, y[c as int].insts, ps[c as int]));
            }
        }
    }
}

proof fn reads_follow(s: Low, t: Low, u: Low)
    requires
        reads(s, t),
        reads(t, u),
    ensures
        reads(s, u),
        links(s, u),
{
}

proof fn fresh_phi_reads(s: Low, b: u32)
    ensures
        reads(s, s.fresh_phi(b).0),
{
    reveal(Low::fresh_phi);
    reveal(Low::fresh);
    let t = s.fresh_phi(b).0;
    if !t.stuck {
        let x = s.f.blocks[b as int].insts;
        let k = lead_phis(x) as int;
        let i = InstView::Phi { dst: s.fresh().1, srcs: Seq::empty() };
        let y = x.insert(k, i);
        lead_phis_are(x);
        assert forall|c: int| #[trigger] ends_at(x, c) implies ends_at(y, c) by {
            if k == x.len() {
                assert(x[k - 1] is Phi);
            }
        }
        assert forall|j: int| 0 <= j < y.len() implies (#[trigger] y[j] == if j < k {
            x[j]
        } else if j == k {
            i
        } else {
            x[j - 1]
        }) by {}
        assert(t.f.blocks[b as int].insts == y);
        assert forall|c: int| 0 <= c < s.f.blocks.len() implies (only_phis(
            s.f.blocks[c].insts,
        ) ==> only_phis((#[trigger] t.f.blocks[c]).insts)) by {}
    }
    change_reads(s, t);
}

proof fn set_srcs_reads(s: Low, b: u32, phi: Vreg, srcs: Seq<(u32, Val)>)
    requires
        s.stuck || !s.has(b) || forall|j: int|
            0 <= j < srcs.len() ==> s.preds[b as int].contains((#[trigger] srcs[j]).0),
    ensures
        reads(s, s.set_srcs(b, phi, srcs)),
{
    reveal(Low::set_srcs);
    let t = s.set_srcs(b, phi, srcs);
    if !t.stuck {
        let x = s.f.blocks[b as int].insts;
        let k = find_phi(x, phi) as int;
        find_phi_finds(x, phi);
        if k < x.len() {
            let y = x.update(k, InstView::Phi { dst: phi, srcs });
            assert forall|c: int| #[trigger] ends_at(x, c) implies ends_at(y, c) by {
                assert(x.last() == x[x.len() - 1]);
            }
            assert forall|j: int| 0 <= j < y.len() implies (#[trigger] y[j] == if j == k {
                InstView::Phi { dst: phi, srcs }
            } else {
                x[j]
            }) by {}
            assert(t.f.blocks[b as int].insts == y);
        }
    }
    change_reads(s, t);
}

proof fn replace_reads(s: Low, o: Val, n: Val)
    ensures
        reads(s, s.replace(o, n)),
{
    reveal(Low::replace);
    let t = s.replace(o, n);
    assert forall|b: int| 0 <= b < s.f.blocks.len() implies ({
        &&& only_phis(s.f.blocks[b].insts) ==> only_phis((#[trigger] t.f.blocks[b]).insts)
        &&& forall|ps: Seq<u32>| like(s.f.blocks[b].insts, t.f.blocks[b].insts, ps)
    }) by {
        let x = s.f.blocks[b].insts;
        let y = t.f.blocks[b].insts;
        assert(y == subst_insts(x, o, n));
        assert forall|j: int| 0 <= j < x.len() implies ({
            &&& is_end(#[trigger] y[j]) == is_end(x[j])
            &&& (y[j] is Phi) == (x[j] is Phi)
        }) by {
            assert(y[j] == subst_inst(x[j], o, n));
        }
        assert forall|ps: Seq<u32>| like(x, y, ps) by {
            assert forall|c: int| #[trigger] ends_at(x, c) implies ends_at(y, c) by {
                assert(y.last() == subst_inst(x.last(), o, n));
            }
            if all_srcs_in(x, ps) {
                assert forall|j: int| 0 <= j < y.len() implies srcs_in(#[trigger] y[j], ps) by {
                    assert(y[j] == subst_inst(x[j], o, n));
                    assert(srcs_in(x[j], ps));
                    if let InstView::Phi { srcs, .. } = x[j] {
                        let zs = y[j]->Phi_srcs;
                        assert forall|m: int| 0 <= m < zs.len() implies ps.contains(
                            (#[trigger] zs[m]).0,
                        ) by {
                            assert(zs[m].0 == srcs[m].0);
                        }
                    }
                }
            }
            if only_phis(x) {
                assert forall|j: int| 0 <= j < y.len() implies (#[trigger] y[j]) is Phi by {
                    assert(x[j] is Phi);
                }
            }
            if open_block(x) {
                assert forall|j: int| 0 <= j < y.len() implies !is_end(#[trigger] y[j]) by {
                    assert(!is_end(x[j]));
                }
            }
        }
        assert(like(x, y, Seq::empty()));
    }
    change_reads(s, t);
}

proof fn drop_phi_reads(s: Low, b: u32, phi: Vreg)
    ensures
        reads(s, s.drop_phi(b, phi).0),
{
    reveal(Low::drop_phi);
    if s.has(b) {
        let o = operands_of(s.srcs_of(b, phi), phi);
        if !(o is Many) {
            let n = match o {
                Operands::One(v) => v,
                _ => Val::Vreg(phi),
            };
            let x = s.f.blocks[b as int].insts;
            let p = |i: InstView| !is_phi_of(i, phi);
            let y = x.filter(p);
            let u = s.with_insts(b, y);
            assert forall|ps: Seq<u32>| like(x, y, ps) by {
                if open_block(x) {
                    filter_all(x, p, |i: InstView| !is_end(i));
                }
                if only_phis(x) {
                    filter_all(x, p, |i: InstView| i is Phi);
                }
                if all_srcs_in(x, ps) {
                    filter_all(x, p, |i: InstView| srcs_in(i, ps));
                }
                assert forall|c: int| #[trigger] ends_at(x, c) implies ends_at(y, c) by {
                    reveal(Seq::filter);
                    assert(y == x.drop_last().filter(p).push(x.last()));
                }
            }
            assert(like(x, y, Seq::empty()));
            assert(u.f.blocks[b as int].insts == y);
            assert forall|c: int| 0 <= c < s.f.blocks.len() implies (only_phis(
                s.f.blocks[c].insts,
            ) ==> only_phis((#[trigger] u.f.blocks[c]).insts)) by {}
            assert forall|c: int| 0 <= c < s.f.blocks.len() implies like(
                s.f.blocks[c].insts,
                (#[trigger] u.f.blocks[c]).insts,
                s.preds[c],
            ) by {}
            change_reads(s, u);
            replace_reads(u, Val::Vreg(phi), n);
            reads_follow(s, u, u.replace(Val::Vreg(phi), n));
        }
    }
}

proof fn write_reads(s: Low, name: Seq<char>, b: u32, v: Val)
    ensures
        reads(s, s.write(name, b, v)),
        s.write(name, b, v).f == s.f,
        s.write(name, b, v).cur == s.cur,
        s.write(name, b, v).preds == s.preds,
        s.write(name, b, v).stuck == s.stuck,
{
    reveal(Low::write);
}

proof fn read_var_reads(s: Low, name: Seq<char>, b: u32, fuel: nat)
    ensures
        reads(s, s.read_var(name, b, fuel).0),
    decreases fuel, 0nat,
{
    if s.defs.contains_key((name, b)) {
    } else if fuel == 0 || !s.has(b) {
    } else if !s.sealed[b as int] {
        let (s1, phi) = s.fresh_phi(b);
        fresh_phi_reads(s, b);
        if s1.has(b) {
            let t = Low {
                parked: s1.parked.update(b as int, s1.parked[b as int].push((name, phi))),
                ..s1
            };
            write_reads(t, name, b, Val::Vreg(phi));
        }
    } else if s.preds[b as int].len() == 1 {
        let p = s.preds[b as int][0];
        read_var_reads(s, name, p, (fuel - 1) as nat);
        let (s1, v) = s.read_var(name, p, (fuel - 1) as nat);
        write_reads(s1, name, b, v);
        reads_follow(s, s1, s1.write(name, b, v));
    } else if s.preds[b as int].len() == 0 {
        write_reads(s, name, b, s.read_var(name, b, fuel).1);
    } else {
        let (s1, phi) = s.fresh_phi(b);
        fresh_phi_reads(s, b);
        let s2 = s1.write(name, b, Val::Vreg(phi));
        write_reads(s1, name, b, Val::Vreg(phi));
        reads_follow(s, s1, s2);
        let ps = s.preds[b as int];
        read_all_reads(s2, name, ps, (fuel - 1) as nat);
        let (t, srcs) = s2.read_all(name, ps, (fuel - 1) as nat);
        reads_follow(s, s2, t);
        set_srcs_reads(t, b, phi, srcs);
        let t2 = t.set_srcs(b, phi, srcs);
        reads_follow(s, t, t2);
        drop_phi_reads(t2, b, phi);
        let (u, v) = t2.drop_phi(b, phi);
        reads_follow(s, t2, u);
        write_reads(u, name, b, v);
        reads_follow(s, u, u.write(name, b, v));
    }
}

proof fn read_all_reads(s: Low, name: Seq<char>, ps: Seq<u32>, fuel: nat)
    ensures
        reads(s, s.read_all(name, ps, fuel).0),
        s.read_all(name, ps, fuel).1.len() == ps.len(),
        forall|j: int|
            0 <= j < ps.len() ==> ps.contains((#[trigger] s.read_all(name, ps, fuel).1[j]).0),
    decreases fuel, ps.len() + 1,
{
    if ps.len() > 0 {
        let before = ps.drop_last();
        read_all_reads(s, name, before, fuel);
        let (s1, srcs) = s.read_all(name, before, fuel);
        read_var_reads(s1, name, ps.last(), fuel);
        reads_follow(s, s1, s1.read_var(name, ps.last(), fuel).0);
        let all = s.read_all(name, ps, fuel).1;
        assert forall|j: int| 0 <= j < ps.len() implies ps.contains((#[trigger] all[j]).0) by {
            if j < before.len() {
                assert(before.contains(srcs[j].0));
                let m = choose|m: int| 0 <= m < before.len() && before[m] == srcs[j].0;
                assert(ps[m] == srcs[j].0);
            } else {
                assert(ps[ps.len() - 1] == all[j].0);
            }
        }
    }
}

proof fn read_links(s: Low, name: Seq<char>, b: u32)
    ensures
        reads(s, s.read(name, b).0),
        links(s, s.read(name, b).0),
{
    reveal(Low::read);
    let t = s.read(name, b).0;
    read_var_reads(s, name, b, crate::lowstate::reach(s.f.blocks.len()));
}

proof fn fill_phi_reads(s: Low, name: Seq<char>, b: u32, phi: Vreg)
    ensures
        reads(s, s.fill_phi(name, b, phi)),
{
    reveal(Low::fill_phi);
    if s.has(b) {
        let n = crate::lowstate::reach(s.f.blocks.len());
        read_all_reads(s, name, s.preds[b as int], n);
        let (s1, srcs) = s.read_all(name, s.preds[b as int], n);
        set_srcs_reads(s1, b, phi, srcs);
        let s2 = s1.set_srcs(b, phi, srcs);
        reads_follow(s, s1, s2);
        drop_phi_reads(s2, b, phi);
        let (t, v) = s2.drop_phi(b, phi);
        reads_follow(s, s2, t);
        write_reads(t, name, b, v);
        reads_follow(s, t, t.write(name, b, v));
    }
}

proof fn fill_phis_reads(s: Low, b: u32, phis: Seq<(Seq<char>, Vreg)>)
    ensures
        reads(s, s.fill_phis(b, phis)),
    decreases phis.len(),
{
    if phis.len() > 0 {
        fill_phis_reads(s, b, phis.drop_last());
        let t = s.fill_phis(b, phis.drop_last());
        fill_phi_reads(t, phis.last().0, b, phis.last().1);
        reads_follow(s, t, s.fill_phis(b, phis));
    }
}

proof fn seal_links(s: Low, b: u32)
    ensures
        reads(s, s.seal(b)),
        links(s, s.seal(b)),
{
    reveal(Low::seal);
    if s.has(b) && !s.sealed[b as int] {
        let s1 = Low { parked: s.parked.update(b as int, Seq::empty()), ..s };
        fill_phis_reads(s1, b, s.parked[b as int]);
    }
}

proof fn add_block_links(s: Low)
    ensures
        links(s, s.add_block().0),
        ({
            let (t, id) = s.add_block();
            t.stuck || {
                &&& id == s.f.blocks.len()
                &&& t.f.blocks.len() == s.f.blocks.len() + 1
                &&& t.cur == s.cur
                &&& idle(t.f.blocks, id)
            }
        }),
{
    reveal(Low::add_block);
    reveal(idle);
    let (t, id) = s.add_block();
    if !t.stuck && fine(s) {
        reveal(good);
        let (x, y) = (s.f.blocks, t.f.blocks);
        assert forall|b: int, i: int| 0 <= b < t.preds.len() && 0 <= i < t.preds[b].len() implies (
        #[trigger] t.preds[b][i]) < y.len() && ends_at(y[t.preds[b][i] as int].insts, b) by {
            assert(t.preds[b] == s.preds[b]);
            assert(s.preds[b][i] < x.len());
            assert(y[t.preds[b][i] as int] == x[t.preds[b][i] as int]);
        }
        assert forall|b: int| 0 <= b < y.len() implies all_srcs_in(
            (#[trigger] y[b]).insts,
            t.preds[b],
        ) by {
            if b < x.len() {
                assert(all_srcs_in(x[b].insts, s.preds[b]));
            }
        }
    }
}

/// One more instruction in the current block.
proof fn emit_links(s: Low, i: InstView)
    requires
        !is_end(i),
        !(i is Phi),
    ensures
        links(s, s.emit(i)),
        s.emit(i).cur == s.cur,
        s.emit(i).stuck || s.emit(i).f.blocks.len() == s.f.blocks.len(),
{
    reveal(Low::emit);
    let t = s.emit(i);
    if !t.stuck {
        let c = s.cur->Some_0 as int;
        let (x, y) = (s.f.blocks, t.f.blocks);
        assert forall|b: u32| #[trigger] idle(x, b) && s.cur != Some(b) implies idle(y, b) by {
            reveal(idle);
        }
        if fine(s) {
            reveal(good);
            let z = x[c].insts.push(i);
            assert(y[c].insts == z);
            assert forall|b: int, j: int| 0 <= b < t.preds.len() && 0 <= j
                < t.preds[b].len() implies (#[trigger] t.preds[b][j]) < y.len() && ends_at(
                y[t.preds[b][j] as int].insts,
                b,
            ) by {
                let p = s.preds[b][j] as int;
                assert(ends_at(x[p].insts, b));
                if p == c {
                    assert(is_end(x[c].insts[x[c].insts.len() - 1]));
                }
            }
            assert forall|b: int| 0 <= b < y.len() implies all_srcs_in(
                (#[trigger] y[b]).insts,
                t.preds[b],
            ) by {
                assert(all_srcs_in(x[b].insts, s.preds[b]));
            }
        }
    }
}

proof fn emit_fresh_links(s: Low, i: InstView)
    requires
        i.def() == Some(s.fresh().1),
        !(i is Phi),
    ensures
        links(s, s.fresh().0.emit(i)),
        s.fresh().0.emit(i).cur == s.cur,
{
    reveal(Low::fresh);
    let u = s.fresh().0;
    emit_links(u, i);
    assert(links(s, u));
    follow(s, u, u.emit(i));
}

proof fn emit_bin_links(s: Low, op: BinKind, a: Val, b: Val, wrap: bool)
    ensures
        links(s, s.emit_bin(op, a, b, wrap).0),
        s.emit_bin(op, a, b, wrap).0.cur == s.cur,
{
    reveal(Low::emit_bin);
    emit_fresh_links(s, InstView::Bin { dst: s.fresh().1, op, a, b, wrap });
}

/// The end of the current block: the edges that are noted with it are those that it has.
proof fn end_links(s: Low, t: Low, i: InstView)
    requires
        !(i is Phi),
        !t.stuck ==> {
            &&& !s.stuck
            &&& s.cur is Some
            &&& s.cur->Some_0 < s.f.blocks.len()
            &&& t.cur is None
            &&& t.f.blocks == s.f.blocks.update(
                s.cur->Some_0 as int,
                BlockView {
                    id: s.f.blocks[s.cur->Some_0 as int].id,
                    insts: s.f.blocks[s.cur->Some_0 as int].insts.push(i),
                },
            )
            &&& t.preds.len() == s.preds.len()
            &&& forall|b: int, j: int|
                0 <= b < s.preds.len() && 0 <= j < s.preds[b].len() ==> t.preds[b].contains(
                    #[trigger] s.preds[b][j],
                )
            &&& forall|b: int, j: int|
                0 <= b < t.preds.len() && 0 <= j < t.preds[b].len() ==> s.preds[b].contains(
                    #[trigger] t.preds[b][j],
                ) || (t.preds[b][j] == s.cur->Some_0 && jumps_to(i, b))
        },
    ensures
        links(s, t),
{
    if !t.stuck {
        let c = s.cur->Some_0 as int;
        let (x, y) = (s.f.blocks, t.f.blocks);
        assert forall|b: u32| #[trigger] idle(x, b) && s.cur != Some(b) implies idle(y, b) by {
            reveal(idle);
        }
        if fine(s) {
            reveal(good);
            assert(y[c].insts.last() == i);
            assert forall|b: int, j: int| 0 <= b < t.preds.len() && 0 <= j
                < t.preds[b].len() implies (#[trigger] t.preds[b][j]) < y.len() && ends_at(
                y[t.preds[b][j] as int].insts,
                b,
            ) by {
                if s.preds[b].contains(t.preds[b][j]) {
                    let m = choose|m: int|
                        0 <= m < s.preds[b].len() && s.preds[b][m] == t.preds[b][j];
                    let p = s.preds[b][m] as int;
                    assert(ends_at(x[p].insts, b));
                    if p == c {
                        assert(is_end(x[c].insts[x[c].insts.len() - 1]));
                    }
                }
            }
            assert forall|b: int| 0 <= b < y.len() implies all_srcs_in(
                (#[trigger] y[b]).insts,
                t.preds[b],
            ) by {
                assert(all_srcs_in(x[b].insts, s.preds[b]));
                assert forall|k: int| 0 <= k < y[b].insts.len() implies srcs_in(
                    #[trigger] y[b].insts[k],
                    t.preds[b],
                ) by {
                    if k < x[b].insts.len() {
                        assert(y[b].insts[k] == x[b].insts[k]);
                        assert(srcs_in(x[b].insts[k], s.preds[b]));
                        if let InstView::Phi { srcs, .. } = x[b].insts[k] {
                            assert forall|j: int| 0 <= j < srcs.len() implies t.preds[b].contains(
                                (#[trigger] srcs[j]).0,
                            ) by {
                                assert(s.preds[b].contains(srcs[j].0));
                                let m = choose|m: int|
                                    0 <= m < s.preds[b].len() && s.preds[b][m] == srcs[j].0;
                                assert(t.preds[b].contains(s.preds[b][m]));
                            }
                        }
                    }
                }
            }
        }
    }
}

proof fn push_contains(s: Seq<u32>, x: u32)
    ensures
        forall|j: int| 0 <= j < s.len() ==> s.push(x).contains(#[trigger] s[j]),
        forall|j: int|
            0 <= j < s.push(x).len() ==> s.contains(#[trigger] s.push(x)[j]) || s.push(x)[j] == x,
        s.push(x).contains(x),
{
    assert forall|j: int| 0 <= j < s.len() implies s.push(x).contains(#[trigger] s[j]) by {
        assert(s.push(x)[j] == s[j]);
    }
    assert(s.push(x)[s.len() as int] == x);
    assert forall|j: int| 0 <= j < s.push(x).len() implies s.contains(#[trigger] s.push(x)[j])
        || s.push(x)[j] == x by {
        if j < s.len() {
            assert(s.push(x)[j] == s[j]);
        }
    }
}

proof fn ret_links(s: Low, o: Option<Val>)
    ensures
        links(s, s.terminate(InstView::Ret(o))),
{
    reveal(Low::terminate);
    reveal(Low::emit);
    let t = s.terminate(InstView::Ret(o));
    if !t.stuck {
        assert forall|b: int, j: int|
            0 <= b < s.preds.len() && 0 <= j < s.preds[b].len() implies t.preds[b].contains(
            #[trigger] s.preds[b][j],
        ) by {}
    }
    end_links(s, t, InstView::Ret(o));
}

proof fn jump_links(s: Low, b: u32)
    ensures
        links(s, s.jump(b)),
        s.jump(b).stuck || s.jump(b).cur is None,
{
    reveal(Low::jump);
    reveal(Low::edge);
    reveal(Low::terminate);
    reveal(Low::emit);
    let t = s.jump(b);
    if let Some(c) = s.cur {
        if !t.stuck {
            push_contains(s.preds[b as int], c);
            assert(t.preds == s.preds.update(b as int, s.preds[b as int].push(c)));
        }
        end_links(s, t, InstView::Jmp(b));
    }
}

proof fn branch_links(s: Low, cond: Val, a: u32, b: u32)
    ensures
        links(s, branch(s, cond, a, b)),
        branch(s, cond, a, b).stuck || {
            &&& branch(s, cond, a, b).cur is None
            &&& branch(s, cond, a, b).f.blocks.len() == s.f.blocks.len()
        },
{
    reveal(Low::edge);
    reveal(Low::terminate);
    reveal(Low::emit);
    let t = branch(s, cond, a, b);
    let i = InstView::Br { cond, t: a, f: b };
    if let Some(c) = s.cur {
        if !t.stuck {
            let one = s.preds.update(a as int, s.preds[a as int].push(c));
            push_contains(s.preds[a as int], c);
            push_contains(one[b as int], c);
            assert(t.preds == one.update(b as int, one[b as int].push(c)));
            assert forall|k: int, j: int|
                0 <= k < s.preds.len() && 0 <= j < s.preds[k].len() implies t.preds[k].contains(
                #[trigger] s.preds[k][j],
            ) by {
                assert(one[k].contains(s.preds[k][j]));
                let m = choose|m: int| 0 <= m < one[k].len() && one[k][m] == s.preds[k][j];
                assert(t.preds[k].contains(one[k][m]));
            }
            assert forall|k: int, j: int|
                0 <= k < t.preds.len() && 0 <= j < t.preds[k].len() implies s.preds[k].contains(
                #[trigger] t.preds[k][j],
            ) || (t.preds[k][j] == c && jumps_to(i, k)) by {
                if one[k].contains(t.preds[k][j]) {
                    let m = choose|m: int| 0 <= m < one[k].len() && one[k][m] == t.preds[k][j];
                    assert(s.preds[k].contains(one[k][m]) || one[k][m] == c);
                }
                if k != a && k != b {
                    assert(t.preds[k] == s.preds[k]);
                } else if k != b {
                    assert(t.preds[k] == one[k]);
                }
            }
        }
        end_links(s, t, i);
    }
}

proof fn finish_arm_links(s: Low, tmp: Seq<char>, v: Val, join_b: u32)
    ensures
        links(s, finish_arm(s, tmp, v, join_b)),
        finish_arm(s, tmp, v, join_b).stuck || finish_arm(s, tmp, v, join_b).cur is None,
{
    if let Some(b) = s.cur {
        write_reads(s, tmp, b, v);
        let w = s.write(tmp, b, v);
        reveal(Low::jump);
        assert(w.jump(join_b) == finish_arm(s, tmp, v, join_b));
        jump_links(w, join_b);
        follow(s, w, w.jump(join_b));
    }
}

proof fn write_here_links(s: Low, name: Seq<char>, v: Val)
    ensures
        links(s, write_here(s, name, v)),
        write_here(s, name, v).stuck || write_here(s, name, v).cur == s.cur,
{
    if let Some(b) = s.cur {
        write_reads(s, name, b, v);
    }
}

proof fn cur_below(s: Low)
    requires
        fine(s),
    ensures
        s.cur is Some ==> s.cur->Some_0 < s.f.blocks.len(),
{
    reveal(good);
}

proof fn lower_expr_links(s: Low, e: ExprView)
    ensures
        links(s, lower_expr(s, e).0),
    decreases e, 2nat,
{
    match e {
        ExprView::Ident(n) => match s.cur {
            Some(b) => read_links(s, n, b),
            None => {},
        },
        ExprView::Unary { op, expr } => {
            lower_expr_links(s, *expr);
            let (s1, a) = lower_expr(s, *expr);
            match op {
                UnOp::Neg => {
                    let (s2, dst) = s1.fresh();
                    let float = dom_of(s2.doms, s2.sigs, *expr) is Float;
                    let i = InstView::Un {
                        dst,
                        op: if float {
                            UnKind::FNeg
                        } else {
                            UnKind::INeg
                        },
                        a,
                        wrap: !float,
                    };
                    emit_fresh_links(s1, i);
                    follow(s, s1, s2.emit(i));
                },
                UnOp::Not => {
                    emit_bin_links(s1, BinKind::IEq, a, Val::IntConst(0), false);
                    follow(s, s1, lower_expr(s, e).0);
                },
            }
        },
        ExprView::Binary { op, .. } => if op == BinOp::And || op == BinOp::Or {
            lower_shortcct_links(s, e);
        } else {
            lower_binary_links(s, e);
        },
        ExprView::Call { callee, args } => match *callee {
            ExprView::Ident(n) => {
                lower_args_links(s, args);
                let (s1, vals) = lower_args(s, args);
                let is_float = returns_float(s1.sigs, n);
                emit_fresh_links(
                    s1,
                    InstView::Call { dst: s1.fresh().1, callee: n, args: vals, is_float },
                );
                follow(s, s1, lower_expr(s, e).0);
            },
            _ => {},
        },
        ExprView::IfElse { .. } => lower_choice_links(s, e),
        _ => {},
    }
}

proof fn lower_choice_links(s: Low, e: ExprView)
    requires
        e is IfElse,
    ensures
        links(s, lower_expr(s, e).0),
    decreases e, 1nat,
{
    match e {
        ExprView::IfElse { cond, then, els } => {
            let dom = dom_of(s.doms, s.sigs, e);
            let (s1, then_b) = s.add_block();
            let (s2, else_b) = s1.add_block();
            let (s3, join_b) = s2.add_block();
            add_block_links(s);
            add_block_links(s1);
            add_block_links(s2);
            follow(s, s1, s2);
            follow(s, s2, s3);
            let last = lower_expr(s, e).0;
            if s3.cur is Some {
                lower_cond_links(s3, *cond);
                let (s4, cv) = lower_cond(s3, *cond);
                branch_links(s4, cv, then_b, else_b);
                let b = branch(s4, cv, then_b, else_b);
                seal_links(b, then_b);
                seal_links(b.seal(then_b), else_b);
                let s5 = b.seal(then_b).seal(else_b);
                let tmp = "__ifx"@ + dec_nat(s5.f.next_vreg as nat);
                let s6 = Low { doms: s5.doms.insert(tmp, dom), ..s5 };
                lower_expr_links(s6.at(then_b), *then);
                let (s7, tv) = lower_expr(s6.at(then_b), *then);
                finish_arm_links(s7, tmp, tv, join_b);
                let s8 = finish_arm(s7, tmp, tv, join_b);
                lower_expr_links(s8.at(else_b), *els);
                let (s9, ev) = lower_expr(s8.at(else_b), *els);
                finish_arm_links(s9, tmp, ev, join_b);
                let s10 = finish_arm(s9, tmp, ev, join_b);
                seal_links(s10, join_b);
                let s11 = s10.seal(join_b);
                read_links(s11.at(join_b), tmp, join_b);
                if !last.stuck && fine(s) {
                    cur_below(s);
                    follow(s, s3, s4);
                    follow(s, s4, b);
                    follow(s, b, b.seal(then_b));
                    follow(s, b.seal(then_b), s5);
                    assert(links(s, s6));
                    at_links(s, s6, then_b);
                    follow(s, s6.at(then_b), s7);
                    follow(s, s7, s8);
                    at_links(s, s8, else_b);
                    follow(s, s8.at(else_b), s9);
                    follow(s, s9, s10);
                    follow(s, s10, s11);
                    at_links(s, s11, join_b);
                    follow(s, s11.at(join_b), last);
                }
            }
        },
        _ => {},
    }
}

proof fn lower_args_links(s: Low, args: Seq<ExprView>)
    ensures
        links(s, lower_args(s, args).0),
    decreases args, 0nat,
{
    if args.len() > 0 {
        lower_args_links(s, args.drop_last());
        let t = lower_args(s, args.drop_last()).0;
        lower_expr_links(t, args.last());
        follow(s, t, lower_args(s, args).0);
    }
}

proof fn lower_binary_links(s: Low, e: ExprView)
    ensures
        links(s, lower_binary(s, e).0),
    decreases e, 1nat,
{
    match e {
        ExprView::Binary { op, lhs, rhs } => {
            let float = dom_of(s.doms, s.sigs, *lhs) is Float
                || dom_of(s.doms, s.sigs, *rhs) is Float;
            lower_expr_links(s, *lhs);
            let (s1, a) = lower_expr(s, *lhs);
            lower_expr_links(s1, *rhs);
            let (s2, b) = lower_expr(s1, *rhs);
            follow(s, s1, s2);
            match bin_kind_spec(op, float, *rhs) {
                Some((kind, wrap)) => {
                    emit_bin_links(s2, kind, a, b, wrap);
                    follow(s, s2, s2.emit_bin(kind, a, b, wrap).0);
                },
                None => {},
            }
        },
        _ => {},
    }
}

proof fn lower_shortcct_links(s: Low, e: ExprView)
    ensures
        links(s, lower_shortcct(s, e).0),
    decreases e, 1nat,
{
    match e {
        ExprView::Binary { op, lhs, rhs } => {
            let (s1, rhs_b) = s.add_block();
            let (s2, join_b) = s1.add_block();
            add_block_links(s);
            add_block_links(s1);
            follow(s, s1, s2);
            let last = lower_shortcct(s, e).0;
            if s2.cur is Some {
                lower_cond_links(s2, *lhs);
                let (s3, lv) = lower_cond(s2, *lhs);
                let tmp = "__scx"@ + dec_nat(s3.f.next_vreg as nat);
                let s4 = Low { doms: s3.doms.insert(tmp, Dom::Int), ..s3 };
                let decided: i64 = if op == BinOp::And {
                    0
                } else {
                    1
                };
                let here = write_here(s4, tmp, Val::IntConst(decided));
                write_here_links(s4, tmp, Val::IntConst(decided));
                branch_links(here, lv, rhs_b, join_b);
                branch_links(here, lv, join_b, rhs_b);
                let left = if op == BinOp::And {
                    branch(here, lv, rhs_b, join_b)
                } else {
                    branch(here, lv, join_b, rhs_b)
                };
                seal_links(left, rhs_b);
                let s5 = left.seal(rhs_b);
                lower_cond_links(s5.at(rhs_b), *rhs);
                let (s6, rv) = lower_cond(s5.at(rhs_b), *rhs);
                finish_arm_links(s6, tmp, rv, join_b);
                let s7 = finish_arm(s6, tmp, rv, join_b);
                seal_links(s7, join_b);
                let s8 = s7.seal(join_b);
                read_links(s8.at(join_b), tmp, join_b);
                if !last.stuck && fine(s) {
                    cur_below(s);
                    follow(s, s2, s3);
                    assert(links(s, s4));
                    follow(s, s4, here);
                    follow(s, here, left);
                    follow(s, left, s5);
                    at_links(s, s5, rhs_b);
                    follow(s, s5.at(rhs_b), s6);
                    follow(s, s6, s7);
                    follow(s, s7, s8);
                    at_links(s, s8, join_b);
                    follow(s, s8.at(join_b), last);
                }
            }
        },
        _ => {},
    }
}

proof fn lower_cond_links(s: Low, e: ExprView)
    ensures
        links(s, lower_cond(s, e).0),
    decreases e, 3nat,
{
    lower_expr_links(s, e);
    if !(e is Binary && is_condition(e->Binary_op)) {
        let (s1, v) = lower_expr(s, e);
        emit_bin_links(s1, BinKind::FNe, v, Val::FloatConst(0), false);
        emit_bin_links(s1, BinKind::INe, v, Val::IntConst(0), false);
        follow(s, s1, lower_cond(s, e).0);
    }
}

proof fn lower_block_links(s: Low, body: Seq<StmtView>)
    ensures
        links(s, lower_block(s, body)),
    decreases body, 0nat, 0nat,
{
    if body.len() > 0 {
        lower_block_links(s, body.drop_last());
        let t = lower_block(s, body.drop_last());
        lower_stmt_links(t, body.last());
        follow(s, t, lower_stmt(t, body.last()));
    }
}

proof fn lower_stmt_links(s: Low, st: StmtView)
    ensures
        links(s, lower_stmt(s, st)),
    decreases st, 1nat, 0nat,
{
    match st {
        StmtView::Break => if s.loops.len() > 0 {
            jump_links(s, s.loops.last().1);
        },
        StmtView::Continue => if s.loops.len() > 0 {
            jump_links(s, s.loops.last().0);
        },
        StmtView::Let { name, value, .. } => {
            let dom = dom_of(s.doms, s.sigs, value);
            lower_expr_links(s, value);
            let (s1, v) = lower_expr(s, value);
            let s2 = Low { doms: s1.doms.insert(name, dom), ..s1 };
            match s2.cur {
                Some(b) => write_reads(s2, name, b, v),
                None => {},
            }
        },
        StmtView::Assign { target, value } => match target {
            ExprView::Ident(name) => {
                lower_expr_links(s, value);
                let (s1, v) = lower_expr(s, value);
                match s1.cur {
                    Some(b) => write_reads(s1, name, b, v),
                    None => {},
                }
            },
            _ => {},
        },
        StmtView::ExprStmt(e) => lower_expr_links(s, e),
        StmtView::Return(o) => match o {
            Some(e) => {
                lower_expr_links(s, e);
                let (s1, v) = lower_expr(s, e);
                ret_links(s1, Some(v));
                follow(s, s1, s1.terminate(InstView::Ret(Some(v))));
            },
            None => ret_links(s, None),
        },
        StmtView::If { .. } => lower_if_links(s, st, 0),
        StmtView::While { .. } => lower_while_links(s, st),
        StmtView::For { .. } => lower_range_links(s, st),
        _ => {},
    }
}

proof fn lower_if_links(s: Low, st: StmtView, k: nat)
    ensures
        links(s, lower_if(s, st, k)),
    decreases
            st,
            0nat,
            (if st is If {
                st->If_elifs.len() - k
            } else {
                0
            }),
{
    match st {
        StmtView::If { cond, then, elifs, els } => if k <= elifs.len() {
            let (s1, then_b) = s.add_block();
            let (s2, else_b) = s1.add_block();
            let (s3, join_b) = s2.add_block();
            add_block_links(s);
            add_block_links(s1);
            add_block_links(s2);
            follow(s, s1, s2);
            follow(s, s2, s3);
            let last = lower_if(s, st, k);
            if s3.cur is Some {
                let test = if k == 0 {
                    cond
                } else {
                    elifs[k - 1].0
                };
                lower_cond_links(s3, test);
                let (s4, cv) = lower_cond(s3, test);
                branch_links(s4, cv, then_b, else_b);
                let b = branch(s4, cv, then_b, else_b);
                seal_links(b, then_b);
                seal_links(b.seal(then_b), else_b);
                let s5 = b.seal(then_b).seal(else_b);
                let arm = if k == 0 {
                    then
                } else {
                    elifs[k - 1].1
                };
                lower_block_links(s5.at(then_b), arm);
                let c = lower_block(s5.at(then_b), arm);
                jump_links(c, join_b);
                let d = c.jump(join_b);
                let s6 = d.at(else_b);
                let s7 = if k < elifs.len() {
                    lower_if(s6, st, k + 1)
                } else {
                    match els {
                        Some(b) => lower_block(s6, b),
                        None => s6,
                    }
                };
                if k < elifs.len() {
                    lower_if_links(s6, st, k + 1);
                } else {
                    match els {
                        Some(b) => lower_block_links(s6, b),
                        None => {},
                    }
                }
                assert(links(s6, s7));
                jump_links(s7, join_b);
                let s8 = s7.jump(join_b);
                seal_links(s8, join_b);
                let s9 = s8.seal(join_b);
                assert(last == s9.at(join_b));
                if !last.stuck && fine(s) {
                    cur_below(s);
                    follow(s, s3, s4);
                    follow(s, s4, b);
                    follow(s, b, b.seal(then_b));
                    follow(s, b.seal(then_b), s5);
                    at_links(s, s5, then_b);
                    follow(s, s5.at(then_b), c);
                    follow(s, c, d);
                    at_links(s, d, else_b);
                    follow(s, s6, s7);
                    follow(s, s7, s8);
                    follow(s, s8, s9);
                    at_links(s, s9, join_b);
                }
            }
        },
        _ => {},
    }
}

proof fn lower_while_links(s: Low, st: StmtView)
    ensures
        links(s, lower_while(s, st)),
    decreases st, 0nat, 0nat,
{
    match st {
        StmtView::While { cond, body } => {
            let (s1, header) = s.add_block();
            let (s2, body_b) = s1.add_block();
            let (s3, exit_b) = s2.add_block();
            add_block_links(s);
            add_block_links(s1);
            add_block_links(s2);
            follow(s, s1, s2);
            follow(s, s2, s3);
            let last = lower_while(s, st);
            if s3.cur is Some {
                jump_links(s3, header);
                let a = s3.jump(header);
                lower_cond_links(a.at(header), cond);
                let (s4, cv) = lower_cond(a.at(header), cond);
                branch_links(s4, cv, body_b, exit_b);
                let b = branch(s4, cv, body_b, exit_b);
                seal_links(b, body_b);
                let s5 = b.seal(body_b);
                let inside = Low { loops: s5.loops.push((header, exit_b)), ..s5 };
                let s6 = inside.at(body_b);
                lower_block_links(s6, body);
                let c = lower_block(s6, body);
                jump_links(c, header);
                let s7 = c.jump(header);
                let s8 = leave_loop(s7);
                seal_links(s8, header);
                let s9 = s8.seal(header);
                seal_links(s9, exit_b);
                let s10 = s9.seal(exit_b);
                assert(last == s10.at(exit_b));
                if !last.stuck && fine(s) {
                    cur_below(s);
                    follow(s, s3, a);
                    at_links(s, a, header);
                    follow(s, a.at(header), s4);
                    follow(s, s4, b);
                    follow(s, b, s5);
                    assert(links(s, inside));
                    at_links(s, inside, body_b);
                    follow(s, s6, c);
                    follow(s, c, s7);
                    assert(links(s, s8));
                    follow(s, s8, s9);
                    follow(s, s9, s10);
                    at_links(s, s10, exit_b);
                }
            }
        },
        _ => {},
    }
}

proof fn lower_range_links(s: Low, st: StmtView)
    ensures
        links(s, lower_range(s, st)),
    decreases st, 0nat, 0nat,
{
    match st {
        StmtView::For { var, iter, body } => match iter {
            ExprView::Range { lo, hi } => {
                lower_expr_links(s, *lo);
                let (s1, lo_v) = lower_expr(s, *lo);
                lower_expr_links(s1, *hi);
                let (s2, hi_v) = lower_expr(s1, *hi);
                follow(s, s1, s2);
                let limit = "__lim"@ + dec_nat(s2.f.next_vreg as nat);
                let s3 = Low {
                    doms: s2.doms.insert(var, Dom::Int).insert(limit, Dom::Int),
                    ..s2
                };
                assert(links(s, s3));
                let (s4, header) = s3.add_block();
                let (s5, body_b) = s4.add_block();
                let (s6, cont_b) = s5.add_block();
                let (s7, exit_b) = s6.add_block();
                add_block_links(s3);
                add_block_links(s4);
                add_block_links(s5);
                add_block_links(s6);
                follow(s3, s4, s5);
                follow(s3, s5, s6);
                follow(s3, s6, s7);
                let last = lower_range(s, st);
                if let Some(cur) = s7.cur {
                    write_reads(s7, var, cur, lo_v);
                    let a1 = s7.write(var, cur, lo_v);
                    write_reads(a1, limit, cur, hi_v);
                    let a2 = a1.write(limit, cur, hi_v);
                    jump_links(a2, header);
                    let a = a2.jump(header);
                    let s8 = a.at(header);
                    read_links(s8, var, header);
                    let (s9, vv) = s8.read(var, header);
                    read_links(s9, limit, header);
                    let (s10, lv) = s9.read(limit, header);
                    emit_bin_links(s10, BinKind::ILt, vv, lv, false);
                    let (s11, cv) = s10.emit_bin(BinKind::ILt, vv, lv, false);
                    branch_links(s11, cv, body_b, exit_b);
                    let b = branch(s11, cv, body_b, exit_b);
                    seal_links(b, body_b);
                    let s12 = b.seal(body_b);
                    let inside = Low { loops: s12.loops.push((cont_b, exit_b)), ..s12 };
                    let s13 = inside.at(body_b);
                    lower_block_links(s13, body);
                    let c = lower_block(s13, body);
                    jump_links(c, cont_b);
                    let s14 = c.jump(cont_b);
                    let out = leave_loop(s14);
                    seal_links(out, cont_b);
                    let d = out.seal(cont_b);
                    let s15 = d.at(cont_b);
                    read_links(s15, var, cont_b);
                    let (s16, cvv) = s15.read(var, cont_b);
                    emit_bin_links(s16, BinKind::IAdd, cvv, Val::IntConst(1), true);
                    let (s17, nv) = s16.emit_bin(BinKind::IAdd, cvv, Val::IntConst(1), true);
                    write_reads(s17, var, cont_b, nv);
                    let x1 = s17.write(var, cont_b, nv);
                    jump_links(x1, header);
                    let x2 = x1.jump(header);
                    seal_links(x2, header);
                    let x3 = x2.seal(header);
                    seal_links(x3, exit_b);
                    let x4 = x3.seal(exit_b);
                    assert(last == x4.at(exit_b));
                    if !last.stuck && fine(s3) {
                        cur_below(s3);
                        follow(s3, s7, a1);
                        follow(s3, a1, a2);
                        follow(s3, a2, a);
                        at_links(s3, a, header);
                        follow(s3, s8, s9);
                        follow(s3, s9, s10);
                        follow(s3, s10, s11);
                        follow(s3, s11, b);
                        follow(s3, b, s12);
                        assert(links(s3, inside));
                        at_links(s3, inside, body_b);
                        follow(s3, s13, c);
                        follow(s3, c, s14);
                        assert(links(s3, out));
                        follow(s3, out, d);
                        at_links(s3, d, cont_b);
                        follow(s3, s15, s16);
                        follow(s3, s16, s17);
                        follow(s3, s17, x1);
                        follow(s3, x1, x2);
                        follow(s3, x2, x3);
                        follow(s3, x3, x4);
                        at_links(s3, x4, exit_b);
                    }
                    assert(links(s3, last));
                    follow(s, s3, last);
                }
            },
            _ => {},
        },
        _ => {},
    }
}

proof fn bind_params_links(s: Low, ps: Seq<ParamView>)
    ensures
        links(s, bind_params(s, ps)),
    decreases ps.len(),
{
    if ps.len() > 0 {
        bind_params_links(s, ps.drop_last());
        let s1 = bind_params(s, ps.drop_last());
        let p = ps.last();
        let s2 = Low { doms: s1.doms.insert(p.name, float_or_int(named(p.ty, "f64"@))), ..s1 };
        write_reads(s2, p.name, 0, Val::Param(((ps.len() - 1) % 0x1_0000_0000) as u32));
    }
}

/// A phi takes its values along jumps: in the lowering of a function every source of a
/// phi is a block that ends in a jump to the block of the phi.
pub proof fn lowering_links_phis(f: FnDefView, sigs: Map<Seq<char>, bool>)
    requires
        !lowered(f, sigs).stuck,
    ensures
        phis_follow_jumps(lowered(f, sigs).f),
{
    let first = entry_state(f, sigs);
    assert(fine(first)) by {
        reveal(good);
        assert(first.f.blocks[0].insts =~= Seq::empty());
        assert(first.preds[0] =~= Seq::empty());
    }
    bind_params_links(first, f.params);
    let s0 = lower_start(f, sigs);
    lower_block_links(s0, f.body);
    let s = lower_block(s0, f.body);
    follow(first, s0, s);
    let t = lowered(f, sigs);
    if s.cur is Some {
        let v = if s.f.ret_is_float {
            Val::FloatConst(0)
        } else {
            Val::IntConst(0)
        };
        ret_links(s, Some(v));
        follow(first, s, t);
    }
    reveal(good);
    let blocks = t.f.blocks;
    assert forall|b: int, k: int|
        0 <= b < blocks.len() && 0 <= k < blocks[b].insts.len() implies sources_jump(
        blocks,
        b,
        #[trigger] blocks[b].insts[k],
    ) by {
        assert(all_srcs_in(blocks[b].insts, t.preds[b]));
        assert(srcs_in(blocks[b].insts[k], t.preds[b]));
        if let InstView::Phi { srcs, .. } = blocks[b].insts[k] {
            assert forall|j: int| 0 <= j < srcs.len() implies (#[trigger] srcs[j]).0 < blocks.len()
                && ends_at(blocks[srcs[j].0 as int].insts, b) by {
                assert(t.preds[b].contains(srcs[j].0));
                let m = choose|m: int| 0 <= m < t.preds[b].len() && t.preds[b][m] == srcs[j].0;
                assert(t.preds[b][m] < blocks.len());
            }
        }
    }
}

} // verus!
