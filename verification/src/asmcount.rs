//! Counting loops in the code of the x86-64 back end.

use crate::analysis::{assigns_block, no_alloc_block, used_block};
use crate::asmbranch::slot_text;
use crate::asmexpr::gen_expr;
use crate::asmflow::{
    add_one_line, branch_goes, cmp_line, exit_text, frame_operand, hold_passes, jump_goes,
    label_local, label_passes, line_passes, load_line, loop_hangs, move_passes, number_flat,
    operand, place_operand, plain, poll_passes, release_passes, second_line, store_line, words,
    x86, Cpu,
};
use crate::asmkeep::{
    entered, gen_expr_kept, gen_stmt_kept, gen_stmts_kept, hold_ints_kept, kept, kept_self,
    range_opened, release_floats_kept, release_ints_kept,
};
use crate::asmops::{HeldView, LoopView, RangeRegs};
use crate::asmstate::{callee_reg, Asm, FnEnv};
use crate::asmstmt::{float_names, gen_stmt, gen_stmts, int_names};
use crate::ast::{ExprView, StmtView};
use crate::coderun::{comes, comes_on, flat, goes, goes_nowhere, goes_on, local, once, part_of};
use crate::text::dec;
use vstd::prelude::*;

verus! {

proof fn load_int_text(a: Seq<char>, off: int, r: Seq<char>)
    requires
        flat(r),
    ensures
        ({
            let s = "    mov "@ + r + ", [rbp"@ + dec(off) + "]"@;
            &&& plain(s)
            &&& a + "    mov "@ + r + ", [rbp"@ + dec(off) + "]\n"@ == a + s + "\n"@
        }),
{
    reveal_strlit("    mov ");
    reveal_strlit(", [rbp");
    reveal_strlit("]");
    reveal_strlit("]\n");
    reveal_strlit("\n");
    number_flat(off);
    let n = dec(off);
    let s = "    mov "@ + r + ", [rbp"@ + n + "]"@;
    let k = 8 + r.len();
    assert forall|i: int| 0 <= i < s.len() implies #[trigger] s[i] != '\n' by {
        if 8 <= i < k {
            assert(s[i] == r[i - 8]);
        } else if k + 6 <= i < k + 6 + n.len() {
            assert(s[i] == n[i - k - 6]);
        }
    }
    assert(a + "    mov "@ + r + ", [rbp"@ + n + "]\n"@ =~= a + s + "\n"@);
}

proof fn store_int_text(a: Seq<char>, off: int, r: Seq<char>)
    requires
        flat(r),
    ensures
        ({
            let s = "    mov [rbp"@ + dec(off) + "], "@ + r;
            &&& plain(s)
            &&& a + "    mov [rbp"@ + dec(off) + "], "@ + r + "\n"@ == a + s + "\n"@
        }),
{
    reveal_strlit("    mov [rbp");
    reveal_strlit("], ");
    number_flat(off);
    let n = dec(off);
    let s = "    mov [rbp"@ + n + "], "@ + r;
    let k = 12 + n.len();
    assert forall|i: int| 0 <= i < s.len() implies #[trigger] s[i] != '\n' by {
        if 12 <= i < k {
            assert(s[i] == n[i - 12]);
        } else if k + 3 <= i {
            assert(s[i] == r[i - k - 3]);
        }
    }
    assert(a + "    mov [rbp"@ + n + "], "@ + r =~= a + s);
}

/// The moves of integer variables into registers are passed.
proof fn hold_ints_pass<D>(c: Cpu<D>, t: Seq<char>, g: Asm, names: Seq<Seq<char>>, k: nat, d: D)
    requires
        x86(c),
        g.hold_ints(names, k).0.out.is_prefix_of(t),
    ensures
        comes(t, c.run, g.out, d, g.hold_ints(names, k).0.out),
        words(g.hold_ints(names, k).1),
    decreases k,
{
    if k == 0 || k > names.len() {
        goes_nowhere(t, c.run, g.out, d);
    } else {
        let (g1, held) = g.hold_ints(names, (k - 1) as nat);
        let (h, reg) = g1.acquire_callee();
        let z = g.hold_ints(names, k).0;
        reveal(Asm::acquire_callee);
        reveal(Asm::grow);
        reveal(Asm::fail);
        assert(h.out == g1.out);
        if reg is Some && h.local_of(names[k - 1]) is Some {
            reveal(Asm::p);
            reveal(Asm::n);
            reveal(Asm::set_int_loc);
            callee_flat(g1.callee_saves.len() as int);
            let r = reg->Some_0;
            let off = h.local_of(names[k - 1])->Some_0 as int;
            let a = g1.out;
            load_int_text(a, off, r);
            let s = "    mov "@ + r + ", [rbp"@ + dec(off) + "]"@;
            assert(z.out == a + s + "\n"@);
            assert(a.is_prefix_of(a + s + "\n"@));
            part_of(t, a, z.out);
            hold_ints_pass(c, t, g, names, (k - 1) as nat, d);
            let d1 = choose|e: D| #[trigger] goes(t, c.run, g.out, d, a, e);
            move_passes(c, t, a, s, d1);
            goes_on(t, c.run, g.out, d, a, d1, z.out, (c.run)(s, d1).0);
        } else {
            assert(z.out == g1.out);
            hold_ints_pass(c, t, g, names, (k - 1) as nat, d);
        }
    }
}

proof fn callee_flat(i: int)
    ensures
        place_operand(callee_reg(i)),
{
    reveal_strlit("r12");
    reveal_strlit("r13");
    reveal_strlit("r14");
    reveal_strlit("r15");
}

/// The moves of integer variables back to their slots are passed.
proof fn release_ints_pass<D>(c: Cpu<D>, t: Seq<char>, g: Asm, held: Seq<HeldView>, k: nat, d: D)
    requires
        x86(c),
        words(held),
        g.release_ints(held, k).out.is_prefix_of(t),
    ensures
        comes(t, c.run, g.out, d, g.release_ints(held, k).out),
    decreases k,
{
    if k == 0 || k > held.len() {
        goes_nowhere(t, c.run, g.out, d);
    } else {
        let g1 = g.release_ints(held, (k - 1) as nat);
        let z = g.release_ints(held, k);
        reveal(Asm::p);
        reveal(Asm::n);
        reveal(Asm::del_int_loc);
        let r = held[k - 1].1;
        let off = held[k - 1].2 as int;
        let a = g1.out;
        store_int_text(a, off, r);
        let s = "    mov [rbp"@ + dec(off) + "], "@ + r;
        assert(z.out == a + s + "\n"@);
        assert(a.is_prefix_of(a + s + "\n"@));
        part_of(t, a, z.out);
        release_ints_pass(c, t, g, held, (k - 1) as nat, d);
        let d1 = choose|e: D| #[trigger] goes(t, c.run, g.out, d, a, e);
        move_passes(c, t, a, s, d1);
        goes_on(t, c.run, g.out, d, a, d1, z.out, (c.run)(s, d1).0);
    }
}

/// The registers or slots of a counting loop are operands.
proof fn regs_operands(g: Asm)
    ensures
        ({
            let r = g.range_regs().1;
            &&& place_operand(r.counter)
            &&& operand(r.limit)
            &&& !r.in_regs ==> frame_operand(r.counter) && frame_operand(r.limit)
        }),
{
    reveal(Asm::range_regs);
    reveal(Asm::acquire_callee);
    callee_flat(0);
    callee_flat(1);
    callee_flat(2);
    callee_flat(3);
    let (g1, ci) = g.acquire_callee();
    let (g2, li) = g1.acquire_callee();
    callee_flat(g.callee_saves.len() as int);
    callee_flat(g1.callee_saves.len() as int);
    let (g3, a) = g2.temp();
    let (g4, b) = g3.temp();
    crate::asmbranch::slot_facts(g.out, a as int);
    crate::asmbranch::slot_facts(g.out, b as int);
}

/// The test of a counting loop.
spec fn test_text(a: Seq<char>, r: RangeRegs, end: Seq<char>) -> Seq<char> {
    if r.in_regs {
        a + "    cmp "@ + r.counter + ", "@ + r.limit + "\n    jge "@ + end + "\n    mov rax, "@
            + r.counter + "\n"@
    } else {
        a + "    mov rax, "@ + r.counter + "\n    mov rcx, "@ + r.limit
            + "\n    cmp rax, rcx\n    jge "@ + end + "\n"@
    }
}

proof fn test_lines(a: Seq<char>, r: RangeRegs, end: Seq<char>)
    requires
        operand(r.counter),
        operand(r.limit),
    ensures
        r.in_regs ==> ({
            let s = cmp_line(r.counter, r.limit);
            let b = a + (s + "\n"@);
            let e = b + "    "@ + "jge"@ + " "@ + end + "\n"@;
            &&& flat(s)
            &&& test_text(a, r, end) == e + (load_line(r.counter) + "\n"@)
            &&& plain(load_line(r.counter))
            &&& b.is_prefix_of(e)
            &&& e.is_prefix_of(test_text(a, r, end))
        }),
        !r.in_regs ==> ({
            let s1 = load_line(r.counter);
            let s2 = second_line(r.limit);
            let s3 = cmp_line("rax"@, "rcx"@);
            let b1 = a + (s1 + "\n"@);
            let b2 = b1 + (s2 + "\n"@);
            let b3 = b2 + (s3 + "\n"@);
            &&& flat(s3)
            &&& plain(s1)
            &&& plain(s2)
            &&& operand("rax"@)
            &&& operand("rcx"@)
            &&& test_text(a, r, end) == b3 + "    "@ + "jge"@ + " "@ + end + "\n"@
            &&& b1.is_prefix_of(b2)
            &&& b2.is_prefix_of(b3)
            &&& b3.is_prefix_of(test_text(a, r, end))
        }),
        a.is_prefix_of(test_text(a, r, end)),
{
    reveal_strlit("    cmp ");
    reveal_strlit(", ");
    reveal_strlit("\n    jge ");
    reveal_strlit("\n    mov rax, ");
    reveal_strlit("    mov rax, ");
    reveal_strlit("\n    mov rcx, ");
    reveal_strlit("    mov rcx, ");
    reveal_strlit("\n    cmp rax, rcx\n    jge ");
    reveal_strlit("rax");
    reveal_strlit("rcx");
    reveal_strlit("jge");
    reveal_strlit("    ");
    reveal_strlit(" ");
    reveal_strlit("\n");
    let x = r.counter;
    let y = r.limit;
    let l = load_line(x);
    let q = second_line(y);
    assert forall|i: int| 0 <= i < l.len() implies #[trigger] l[i] != '\n' by {
        if i >= 13 {
            assert(l[i] == x[i - 13]);
        }
    }
    assert forall|i: int| 0 <= i < q.len() implies #[trigger] q[i] != '\n' by {
        if i >= 13 {
            assert(q[i] == y[i - 13]);
        }
    }
    let s = cmp_line(x, y);
    assert forall|i: int| 0 <= i < s.len() implies #[trigger] s[i] != '\n' by {
        if 8 <= i < 8 + x.len() {
            assert(s[i] == x[i - 8]);
        } else if 10 + x.len() <= i {
            assert(s[i] == y[i - 10 - x.len()]);
        }
    }
    if r.in_regs {
        let b = a + (s + "\n"@);
        let e = b + "    "@ + "jge"@ + " "@ + end + "\n"@;
        assert(test_text(a, r, end) =~= e + (l + "\n"@));
    } else {
        let b1 = a + (l + "\n"@);
        let b2 = b1 + (q + "\n"@);
        let b3 = b2 + (cmp_line("rax"@, "rcx"@) + "\n"@);
        assert(a + "    mov rax, "@ + x + "\n    mov rcx, "@ + y =~= b1 + q);
        assert(b1 + q + "\n    cmp rax, rcx\n    jge "@ =~= b3 + "    "@ + "jge"@ + " "@);
    }
}

/// The test goes on where the counter is below the limit, and to the end of the loop where
/// it is not.
proof fn test_goes<D>(
    c: Cpu<D>,
    t: Seq<char>,
    a: Seq<char>,
    r: RangeRegs,
    end: Seq<char>,
    tail: Seq<char>,
    d: D
)
    requires
        x86(c),
        once(t),
        operand(r.counter),
        operand(r.limit),
        !r.in_regs ==> frame_operand(r.counter) && frame_operand(r.limit),
        local(end),
        flat(end),
        test_text(a, r, end).is_prefix_of(t),
        (tail + end + ":\n"@).is_prefix_of(t),
    ensures
        (c.reg)(r.counter, d) < (c.reg)(r.limit, d) ==> comes(
            t,
            c.run,
            a,
            d,
            test_text(a, r, end),
        ),
        (c.reg)(r.counter, d) >= (c.reg)(r.limit, d) ==> comes(t, c.run, a, d, tail + end + ":\n"@),
{
    test_lines(a, r, end);
    let z = test_text(a, r, end);
    if r.in_regs {
        let s = cmp_line(r.counter, r.limit);
        let b = a + (s + "\n"@);
        let e = b + "    "@ + "jge"@ + " "@ + end + "\n"@;
        part_of(t, e, z);
        part_of(t, b, e);
        assert((c.run)(cmp_line(r.counter, r.limit), d).1 is None);
        let d1 = (c.run)(s, d).0;
        line_passes(c, t, a, s, s + "\n"@, d);
        branch_goes(c, t, b, "jge"@, end, tail, d1);
        if (c.takes)("jge"@, d1) {
            goes_on(t, c.run, a, d, b, d1, tail + end + ":\n"@, d1);
        } else {
            goes_on(t, c.run, a, d, b, d1, e, d1);
            let l = load_line(r.counter);
            assert((c.run)(l, d1).1 is None);
            line_passes(c, t, e, l, l + "\n"@, d1);
            goes_on(t, c.run, a, d, e, d1, z, (c.run)(l, d1).0);
        }
    } else {
        let s1 = load_line(r.counter);
        let s2 = second_line(r.limit);
        let s3 = cmp_line("rax"@, "rcx"@);
        let b1 = a + (s1 + "\n"@);
        let b2 = b1 + (s2 + "\n"@);
        let b3 = b2 + (s3 + "\n"@);
        part_of(t, b3, z);
        part_of(t, b2, b3);
        part_of(t, b1, b2);
        assert((c.run)(s1, d).1 is None);
        let d1 = (c.run)(s1, d).0;
        line_passes(c, t, a, s1, s1 + "\n"@, d);
        assert((c.run)(s2, d1).1 is None);
        let d2 = (c.run)(s2, d1).0;
        line_passes(c, t, b1, s2, s2 + "\n"@, d1);
        assert((c.run)(cmp_line("rax"@, "rcx"@), d2).1 is None);
        let d3 = (c.run)(s3, d2).0;
        line_passes(c, t, b2, s3, s3 + "\n"@, d2);
        goes_on(t, c.run, a, d, b1, d1, b2, d2);
        goes_on(t, c.run, a, d, b2, d2, b3, d3);
        assert((c.reg)(r.limit, (c.run)(load_line(r.counter), d).0) == (c.reg)(r.limit, d));
        branch_goes(c, t, b3, "jge"@, end, tail, d3);
        if (c.takes)("jge"@, d3) {
            goes_on(t, c.run, a, d, b3, d3, tail + end + ":\n"@, d3);
        } else {
            goes_on(t, c.run, a, d, b3, d3, z, d3);
        }
    }
}

/// The step of a counting loop.
spec fn step_text(a: Seq<char>, r: RangeRegs) -> Seq<char> {
    if r.in_regs {
        a + "    add "@ + r.counter + ", 1\n"@
    } else {
        a + "    mov rax, "@ + r.counter + "\n    add rax, 1\n    mov "@ + r.counter + ", rax\n"@
    }
}

/// The step goes on with the counter one higher.
proof fn step_goes<D>(c: Cpu<D>, t: Seq<char>, a: Seq<char>, r: RangeRegs, d: D) -> (e: D)
    requires
        x86(c),
        place_operand(r.counter),
        !r.in_regs ==> frame_operand(r.counter),
        step_text(a, r).is_prefix_of(t),
    ensures
        goes(t, c.run, a, d, step_text(a, r), e),
        (c.reg)(r.counter, d) < 0x7fff_ffff_ffff_ffff ==> (c.reg)(r.counter, e) == (c.reg)(
            r.counter,
            d,
        ) + 1,
{
    step_lines(a, r);
    let x = r.counter;
    if r.in_regs {
        let s = add_one_line(x);
        assert((c.run)(s, d).1 is None);
        line_passes(c, t, a, s, s + "\n"@, d);
        assert((c.run)(add_one_line(x), d).0 == (c.run)(s, d).0);
        (c.run)(s, d).0
    } else {
        let s1 = load_line(x);
        let s2 = add_one_line("rax"@);
        let s3 = store_line(x);
        let b1 = a + (s1 + "\n"@);
        let b2 = b1 + (s2 + "\n"@);
        let z = step_text(a, r);
        part_of(t, b2, z);
        part_of(t, b1, b2);
        assert((c.run)(s1, d).1 is None);
        let d1 = (c.run)(s1, d).0;
        line_passes(c, t, a, s1, s1 + "\n"@, d);
        assert((c.run)(s2, d1).1 is None);
        let d2 = (c.run)(s2, d1).0;
        line_passes(c, t, b1, s2, s2 + "\n"@, d1);
        assert((c.run)(s3, d2).1 is None);
        let d3 = (c.run)(s3, d2).0;
        line_passes(c, t, b2, s3, s3 + "\n"@, d2);
        goes_on(t, c.run, a, d, b1, d1, b2, d2);
        goes_on(t, c.run, a, d, b2, d2, z, d3);
        d3
    }
}

proof fn step_lines(a: Seq<char>, r: RangeRegs)
    requires
        operand(r.counter),
    ensures
        r.in_regs ==> plain(add_one_line(r.counter)) && step_text(a, r) == a + (add_one_line(
            r.counter,
        ) + "\n"@),
        !r.in_regs ==> ({
            let s1 = load_line(r.counter);
            let s2 = add_one_line("rax"@);
            let s3 = store_line(r.counter);
            let b1 = a + (s1 + "\n"@);
            let b2 = b1 + (s2 + "\n"@);
            &&& plain(s1)
            &&& plain(s2)
            &&& plain(s3)
            &&& place_operand("rax"@)
            &&& step_text(a, r) == b2 + (s3 + "\n"@)
            &&& b1.is_prefix_of(b2)
            &&& b2.is_prefix_of(step_text(a, r))
        }),
        a.is_prefix_of(step_text(a, r)),
{
    reveal_strlit("    add ");
    reveal_strlit(", 1");
    reveal_strlit(", 1\n");
    reveal_strlit("    mov rax, ");
    reveal_strlit("\n    add rax, 1\n    mov ");
    reveal_strlit(", rax\n");
    reveal_strlit(", rax");
    reveal_strlit("    mov ");
    reveal_strlit("rax");
    reveal_strlit("\n");
    let x = r.counter;
    let s1 = load_line(x);
    let s2 = add_one_line("rax"@);
    let s3 = store_line(x);
    let s4 = add_one_line(x);
    assert forall|i: int| 0 <= i < s1.len() implies #[trigger] s1[i] != '\n' by {
        if i >= 13 {
            assert(s1[i] == x[i - 13]);
        }
    }
    assert forall|i: int| 0 <= i < s3.len() implies #[trigger] s3[i] != '\n' by {
        if 8 <= i < 8 + x.len() {
            assert(s3[i] == x[i - 8]);
        }
    }
    assert forall|i: int| 0 <= i < s4.len() implies #[trigger] s4[i] != '\n' by {
        if 8 <= i < 8 + x.len() {
            assert(s4[i] == x[i - 8]);
        }
    }
    if r.in_regs {
        assert(step_text(a, r) =~= a + (s4 + "\n"@));
    } else {
        let b1 = a + (s1 + "\n"@);
        let b2 = b1 + (s2 + "\n"@);
        assert(a + "    mov rax, "@ + x =~= a + s1);
        assert(a + s1 + "\n    add rax, 1\n    mov "@ =~= b2 + "    mov "@);
        assert(b2 + "    mov "@ + x + ", rax\n"@ =~= b2 + (s3 + "\n"@));
    }
}

proof fn box_texts(a: Seq<char>)
    ensures
        ({
            let s1 = "    mov rcx, 0xFFFFFFFFFFFF"@;
            let s2 = "    and rax, rcx"@;
            let s3 = "    mov rcx, 0x7FF9000000000000"@;
            let s4 = "    or rax, rcx"@;
            let b1 = a + s1 + "\n"@;
            let b2 = b1 + s2 + "\n"@;
            let b3 = b2 + s3 + "\n"@;
            &&& plain(s1) && plain(s2) && plain(s3) && plain(s4)
            &&& a + "    mov rcx, 0xFFFFFFFFFFFF\n    and rax, rcx\n"@
                + "    mov rcx, 0x7FF9000000000000\n    or rax, rcx\n"@ == b3 + s4 + "\n"@
            &&& b1.is_prefix_of(b2) && b2.is_prefix_of(b3) && b3.is_prefix_of(b3 + s4 + "\n"@)
        }),
{
    reveal_strlit("    mov rcx, 0xFFFFFFFFFFFF");
    reveal_strlit("    and rax, rcx");
    reveal_strlit("    mov rcx, 0x7FF9000000000000");
    reveal_strlit("    or rax, rcx");
    reveal_strlit("    mov rcx, 0xFFFFFFFFFFFF\n    and rax, rcx\n");
    reveal_strlit("    mov rcx, 0x7FF9000000000000\n    or rax, rcx\n");
    reveal_strlit("\n");
    let s1 = "    mov rcx, 0xFFFFFFFFFFFF"@;
    let s2 = "    and rax, rcx"@;
    let s3 = "    mov rcx, 0x7FF9000000000000"@;
    let s4 = "    or rax, rcx"@;
    let b2 = a + s1 + "\n"@ + s2 + "\n"@;
    assert(a + "    mov rcx, 0xFFFFFFFFFFFF\n    and rax, rcx\n"@ =~= b2);
    assert(b2 + "    mov rcx, 0x7FF9000000000000\n    or rax, rcx\n"@ =~= b2 + s3 + "\n"@ + s4
        + "\n"@);
}

proof fn box_passes<D>(c: Cpu<D>, t: Seq<char>, g: Asm, d: D)
    requires
        x86(c),
        g.box_int().out.is_prefix_of(t),
    ensures
        comes(t, c.run, g.out, d, g.box_int().out),
{
    reveal(Asm::box_int);
    reveal(Asm::p);
    box_texts(g.out);
    let a = g.out;
    let s1 = "    mov rcx, 0xFFFFFFFFFFFF"@;
    let s2 = "    and rax, rcx"@;
    let s3 = "    mov rcx, 0x7FF9000000000000"@;
    let s4 = "    or rax, rcx"@;
    let b1 = a + s1 + "\n"@;
    let b2 = b1 + s2 + "\n"@;
    let b3 = b2 + s3 + "\n"@;
    let z = g.box_int().out;
    assert(z == b3 + s4 + "\n"@);
    part_of(t, b3, z);
    part_of(t, b2, b3);
    part_of(t, b1, b2);
    move_passes(c, t, a, s1, d);
    let d1 = (c.run)(s1, d).0;
    move_passes(c, t, b1, s2, d1);
    let d2 = (c.run)(s2, d1).0;
    move_passes(c, t, b2, s3, d2);
    let d3 = (c.run)(s3, d2).0;
    move_passes(c, t, b3, s4, d3);
    goes_on(t, c.run, a, d, b1, d1, b2, d2);
    goes_on(t, c.run, a, d, b2, d2, b3, d3);
    goes_on(t, c.run, a, d, b3, d3, z, (c.run)(s4, d3).0);
}

/// What stands between the test and the body.
#[verifier::opaque]
spec fn open_tail(
    g8: Asm,
    r: RangeRegs,
    var: Seq<char>,
    raw: bool,
    used: bool,
    assigned: bool,
    poll: bool,
    ioff: i64,
) -> Asm {
    let mapped = raw && r.in_regs && used && !assigned;
    let g9 = if mapped {
        g8.set_int_loc(var, r.counter)
    } else if used {
        (if raw {
            g8
        } else {
            g8.box_int()
        }).p("    mov [rbp"@).n(ioff as int).p("], rax\n"@)
    } else {
        g8
    };
    if poll {
        g9.gc_poll()
    } else {
        g9
    }
}

proof fn open_tail_passes<D>(
    c: Cpu<D>,
    t: Seq<char>,
    g8: Asm,
    r: RangeRegs,
    var: Seq<char>,
    raw: bool,
    used: bool,
    assigned: bool,
    poll: bool,
    ioff: i64,
    d: D
)
    requires
        x86(c),
        once(t),
        open_tail(g8, r, var, raw, used, assigned, poll, ioff).out.is_prefix_of(t),
    ensures
        comes(t, c.run, g8.out, d, open_tail(g8, r, var, raw, used, assigned, poll, ioff).out),
{
    reveal(open_tail);
    let mapped = raw && r.in_regs && used && !assigned;
    let gb = if raw {
        g8
    } else {
        g8.box_int()
    };
    let gs = gb.p("    mov [rbp"@).n(ioff as int).p("], rax\n"@);
    let g9 = if mapped {
        g8.set_int_loc(var, r.counter)
    } else if used {
        gs
    } else {
        g8
    };
    let z = if poll {
        g9.gc_poll()
    } else {
        g9
    };
    assert(g9.out.is_prefix_of(z.out)) by {
        broadcast use crate::asmkeep::ops;

        kept_self(g9);
        reveal(kept);
    }
    part_of(t, g9.out, z.out);
    assert(comes(t, c.run, g8.out, d, g9.out)) by {
        if mapped {
            reveal(Asm::set_int_loc);
            goes_nowhere(t, c.run, g8.out, d);
        } else if used {
            crate::asmbranch::slot_facts(gb.out, ioff as int);
            let s = store_line(slot_text(ioff as int));
            assert(gs.out == gb.out + (s + "\n"@)) by {
                reveal(Asm::p);
                reveal(Asm::n);
            }
            assert(gb.out.is_prefix_of(gs.out));
            part_of(t, gb.out, gs.out);
            if raw {
                goes_nowhere(t, c.run, g8.out, d);
            } else {
                box_passes(c, t, g8, d);
            }
            let d1 = choose|e: D| #[trigger] goes(t, c.run, g8.out, d, gb.out, e);
            assert((c.run)(s, d1).1 is None);
            line_passes(c, t, gb.out, s, s + "\n"@, d1);
            goes_on(t, c.run, g8.out, d, gb.out, d1, gs.out, (c.run)(s, d1).0);
        } else {
            goes_nowhere(t, c.run, g8.out, d);
        }
    }
    let d2 = choose|e: D| #[trigger] goes(t, c.run, g8.out, d, g9.out, e);
    if poll {
        poll_passes(c, t, g9, d2);
        comes_on(t, c.run, g8.out, d, g9.out, d2, z.out);
    }
}

/// The code of a loop over a range: while the counter is below the limit the body follows
/// the test, else control comes to behind the loop; a round ends with the counter one
/// higher, at the test again.
pub open spec fn count_hangs<D>(
    c: Cpu<D>,
    t: Seq<char>,
    g: Asm,
    env: FnEnv,
    var: Seq<char>,
    lo: ExprView,
    hi: ExprView,
    body: Seq<StmtView>,
    test: Seq<char>,
    start: Asm,
    step: Seq<char>
) -> bool {
    let h = gen_stmt(
        g,
        env,
        StmtView::For {
            var,
            iter: ExprView::Range { lo: Box::new(lo), hi: Box::new(hi) },
            body,
        },
    );
    let r = g.range_regs().1;
    &&& loop_hangs(c, t, env, body, test, start, step, h, g)
    &&& forall|d: D|
        (c.reg)(r.counter, d) < (c.reg)(r.limit, d) ==> #[trigger] comes(
            t,
            c.run,
            test,
            d,
            start.out,
        )
    &&& forall|d: D|
        (c.reg)(r.counter, d) >= (c.reg)(r.limit, d) ==> #[trigger] comes(
            t,
            c.run,
            test,
            d,
            h.out,
        )
    &&& forall|d: D|
        (c.reg)(r.counter, d) < 0x7fff_ffff_ffff_ffff ==> #[trigger] counts(
            c,
            t,
            step,
            test,
            r.counter,
            d,
        )
}

/// Control comes from the one place to the other with the counter one higher.
pub open spec fn counts<D>(
    c: Cpu<D>,
    t: Seq<char>,
    a: Seq<char>,
    b: Seq<char>,
    x: Seq<char>,
    d: D
) -> bool {
    exists|e: D| #[trigger] goes(t, c.run, a, d, b, e) && (c.reg)(x, e) == (c.reg)(x, d) + 1
}

proof fn open_shape(
    g: Asm,
    r: RangeRegs,
    var: Seq<char>,
    raw: bool,
    used: bool,
    assigned: bool,
    poll: bool,
    fnames: Seq<Seq<char>>,
    inames: Seq<Seq<char>>,
) -> (z: (Asm, Asm, Asm, Asm, Asm, Seq<char>, Seq<char>, Seq<char>))
    ensures
        ({
            let (g1, g2, g3, g7, g10, top, end, cont) = z;
            let (h, l) = g.range_open(r, var, raw, used, assigned, poll, fnames, inames);
            &&& g1.out == g.out
            &&& (g2, l.floats) == g1.hold_floats(fnames, fnames.len())
            &&& (g3, l.ints) == g2.hold_ints(inames, inames.len())
            &&& g7.out == g3.out + top + ":\n"@
            &&& exists|g8: Asm, ioff: i64|
                g8.out == test_text(g7.out, r, end) && g10 == #[trigger] open_tail(
                    g8,
                    r,
                    var,
                    raw,
                    used,
                    assigned,
                    poll,
                    ioff,
                )
            &&& h == g10.push_loop(cont, end)
            &&& l.top == top && l.end == end && l.cont == cont
            &&& local(top) && flat(top) && local(end) && flat(end) && local(cont) && flat(cont)
        }),
{
    reveal(Asm::range_open);
    let (g1, ioff) = g.slot(var);
    let (g2, floats) = g1.hold_floats(fnames, fnames.len());
    let (g3, ints) = g2.hold_ints(inames, inames.len());
    let (g4, top) = g3.new_label("ftop"@);
    let (g5, end) = g4.new_label("fend"@);
    let (g6, cont) = g5.new_label("fcont"@);
    let g7 = g6.p(top).p(":\n"@);
    let g8 = if r.in_regs {
        g7.p("    cmp "@).p(r.counter).p(", "@).p(r.limit).p("\n    jge "@).p(end).p(
            "\n    mov rax, "@,
        ).p(r.counter).p("\n"@)
    } else {
        g7.p("    mov rax, "@).p(r.counter).p("\n    mov rcx, "@).p(r.limit).p(
            "\n    cmp rax, rcx\n    jge "@,
        ).p(end).p("\n"@)
    };
    let g10 = open_tail(g8, r, var, raw, used, assigned, poll, ioff);
    reveal_strlit("ftop");
    reveal_strlit("fend");
    reveal_strlit("fcont");
    label_local(g3, "ftop"@);
    label_local(g4, "fend"@);
    label_local(g5, "fcont"@);
    assert(g1.out == g.out) by {
        reveal(Asm::slot);
        reveal(Asm::grow);
        reveal(Asm::fail);
    }
    assert(g6.out == g3.out) by {
        reveal(Asm::new_label);
    }
    assert(g7.out == g3.out + top + ":\n"@ && g8.out == test_text(g7.out, r, end)) by {
        reveal(Asm::p);
    }
    assert(g.range_open(r, var, raw, used, assigned, poll, fnames, inames).0 == g10.push_loop(
        cont,
        end,
    )) by {
        reveal(open_tail);
    }
    (g1, g2, g3, g7, g10, top, end, cont)
}

/// The law of `for` over a range.
#[verifier::spinoff_prover]
#[verifier::rlimit(40)]
pub proof fn count_code<D>(
    c: Cpu<D>,
    t: Seq<char>,
    g: Asm,
    env: FnEnv,
    var: Seq<char>,
    lo: ExprView,
    hi: ExprView,
    body: Seq<StmtView>
)
    requires
        x86(c),
        once(t),
        gen_stmt(
            g,
            env,
            StmtView::For {
                var,
                iter: ExprView::Range { lo: Box::new(lo), hi: Box::new(hi) },
                body,
            },
        ).out.is_prefix_of(t),
    ensures
        exists|test: Seq<char>, start: Asm, step: Seq<char>| #[trigger]
            count_hangs(c, t, g, env, var, lo, hi, body, test, start, step),
{
    let s = StmtView::For {
        var,
        iter: ExprView::Range { lo: Box::new(lo), hi: Box::new(hi) },
        body,
    };
    let h = gen_stmt(g, env, s);
    let (g3, r) = g.range_regs();
    let g4 = gen_expr(g3, env, lo);
    let g6 = g4.unbox_int().set_counter(r);
    let g7 = gen_expr(g6, env, hi);
    let g9 = g7.unbox_int().set_limit(r);
    let fnames = float_names(g9, env, body, body.len(), Some(var), None);
    let inames = int_names(g9, env, body, body.len(), var);
    let raw = env.raw_int.contains(var);
    let used = used_block(body, var);
    let assigned = assigns_block(body, var);
    let poll = !no_alloc_block(body);
    let (start, l) = g9.range_open(r, var, raw, used, assigned, poll, fnames, inames);
    let b = gen_stmts(start, env, body, body.len());
    assert(h == b.range_close(r, l, var)) by {
        assert(h == crate::asmstmt::stmt_for(g, env, s));
    }
    regs_operands(g);
    let (o1, o2, o3, o7, o10, top, end, cont) = open_shape(
        g9,
        r,
        var,
        raw,
        used,
        assigned,
        poll,
        fnames,
        inames,
    );
    count_flows(
        c,
        t,
        g,
        env,
        body,
        r,
        l,
        var,
        start,
        h,
        o1,
        o2,
        o3,
        o7,
        o10,
        top,
        end,
        cont,
        fnames,
        inames,
        raw,
        used,
        assigned,
        poll,
    );
    kept_self(g);
    gen_stmt_kept(g, g, env, s);
    assert(kept(g, g9)) by {
        broadcast use crate::asmkeep::ops;

        gen_expr_kept(g, g3, env, lo);
        gen_expr_kept(g, g6, env, hi);
    }
    range_opened(g, g9, r, var, raw, used, assigned, poll, fnames, inames);
    assert(start.loops.len() == g.loops.len() + 1) by {
        reveal(entered);
    }
    let step = b.out + cont + ":\n"@;
    assert(count_hangs(c, t, g, env, var, lo, hi, body, o7.out, start, step));
}

/// Where control goes in a counting loop, told of its parts.
#[verifier::spinoff_prover]
#[verifier::rlimit(60)]
proof fn count_flows<D>(
    c: Cpu<D>,
    t: Seq<char>,
    g: Asm,
    env: FnEnv,
    body: Seq<StmtView>,
    r: RangeRegs,
    l: LoopView,
    var: Seq<char>,
    start: Asm,
    h: Asm,
    o1: Asm,
    o2: Asm,
    o3: Asm,
    o7: Asm,
    o10: Asm,
    top: Seq<char>,
    end: Seq<char>,
    cont: Seq<char>,
    fnames: Seq<Seq<char>>,
    inames: Seq<Seq<char>>,
    raw: bool,
    used: bool,
    assigned: bool,
    poll: bool
)
    requires
        x86(c),
        once(t),
        place_operand(r.counter),
        operand(r.limit),
        !r.in_regs ==> frame_operand(r.counter) && frame_operand(r.limit),
        h == gen_stmts(start, env, body, body.len()).range_close(r, l, var),
        h.out.is_prefix_of(t),
        (o2, l.floats) == o1.hold_floats(fnames, fnames.len()),
        (o3, l.ints) == o2.hold_ints(inames, inames.len()),
        o7.out == o3.out + top + ":\n"@,
        exists|g8: Asm, ioff: i64|
            g8.out == test_text(o7.out, r, end) && o10 == #[trigger] open_tail(
                g8,
                r,
                var,
                raw,
                used,
                assigned,
                poll,
                ioff,
            ),
        start == o10.push_loop(cont, end),
        l.top == top,
        l.end == end,
        l.cont == cont,
        local(top),
        flat(top),
        local(end),
        flat(end),
        local(cont),
        flat(cont),
    ensures
        ({
            let b = gen_stmts(start, env, body, body.len());
            let step = b.out + cont + ":\n"@;
            let test = o7.out;
            &&& kept(start, b)
            &&& test.is_prefix_of(start.out)
            &&& b.out.is_prefix_of(h.out)
            &&& forall|d: D|
                #![trigger comes(t, c.run, gen_stmts(start, env, body, body.len()).out, d, test)]
                comes(t, c.run, gen_stmts(start, env, body, body.len()).out, d, test)
            &&& forall|d: D| #[trigger] comes(t, c.run, step, d, test)
            &&& forall|x: Asm, d: D|
                x.loops == start.loops && (#[trigger] gen_stmt(
                    x,
                    env,
                    StmtView::Break,
                )).out.is_prefix_of(t) ==> #[trigger] comes(t, c.run, x.out, d, h.out)
            &&& forall|x: Asm, d: D|
                x.loops == start.loops && (#[trigger] gen_stmt(
                    x,
                    env,
                    StmtView::Continue,
                )).out.is_prefix_of(t) ==> #[trigger] goes(t, c.run, x.out, d, step, d)
            &&& forall|d: D|
                (c.reg)(r.counter, d) < (c.reg)(r.limit, d) ==> #[trigger] comes(
                    t,
                    c.run,
                    test,
                    d,
                    start.out,
                )
            &&& forall|d: D|
                (c.reg)(r.counter, d) >= (c.reg)(r.limit, d) ==> #[trigger] comes(
                    t,
                    c.run,
                    test,
                    d,
                    h.out,
                )
            &&& forall|d: D|
                (c.reg)(r.counter, d) < 0x7fff_ffff_ffff_ffff ==> #[trigger] counts(
                    c,
                    t,
                    step,
                    test,
                    r.counter,
                    d,
                )
        }),
{
    let b = gen_stmts(start, env, body, body.len());
    let (g8, ioff) = choose|g8: Asm, ioff: i64|
        g8.out == test_text(o7.out, r, end) && o10 == #[trigger] open_tail(
            g8,
            r,
            var,
            raw,
            used,
            assigned,
            poll,
            ioff,
        );
    let test = o7.out;
    let (c4, c5, c6) = close_shape(b, r, l, var);
    let step = b.out + cont + ":\n"@;
    let tail = c4.out + "    jmp "@ + top + "\n"@;
    kept_self(start);
    gen_stmts_kept(start, start, env, body, body.len());
    assert(start.out == o10.out && start.loops.len() > 0 && start.loops.last() == (cont, end)) by {
        reveal(Asm::push_loop);
    }
    assert(g8.out.is_prefix_of(o10.out)) by {
        broadcast use crate::asmkeep::ops;

        reveal(open_tail);
        kept_self(g8);
        assert(kept(g8, o10));
        reveal(kept);
    }
    kept_self(c5);
    release_floats_kept(c5, c5, l.floats, l.floats.len());
    kept_self(c6);
    release_ints_kept(c6, c6, l.ints, l.ints.len());
    assert(start.out.is_prefix_of(b.out) && c5.out.is_prefix_of(c6.out) && c6.out.is_prefix_of(
        h.out,
    )) by {
        reveal(kept);
    }
    step_lines(step, r);
    test_lines(test, r, end);
    assert(tail.is_prefix_of(c5.out) && c4.out.is_prefix_of(tail) && b.out.is_prefix_of(step));
    part_of(t, c6.out, h.out);
    part_of(t, c5.out, c6.out);
    part_of(t, tail, c5.out);
    part_of(t, c4.out, tail);
    part_of(t, step, c4.out);
    part_of(t, b.out, step);
    part_of(t, start.out, b.out);
    part_of(t, g8.out, o10.out);
    part_of(t, test, g8.out);
    part_of(start.out, test, g8.out);
    part_of(h.out, c5.out, c6.out);
    part_of(h.out, tail, c5.out);
    part_of(h.out, c4.out, tail);
    part_of(h.out, step, c4.out);
    part_of(h.out, b.out, step);
    assert(o3.out.is_prefix_of(test));
    part_of(t, o3.out, test);
    assert(o2.out.is_prefix_of(o3.out)) by {
        kept_self(o2);
        hold_ints_kept(o2, o2, inames, inames.len());
        reveal(kept);
    }
    part_of(t, o2.out, o3.out);
    assert(words(l.floats) && words(l.ints)) by {
        let d = arbitrary::<D>();
        hold_passes(c, t, o1, fnames, fnames.len(), d);
        hold_ints_pass(c, t, o2, inames, inames.len(), d);
    }
    assert forall|d: D| #[trigger] comes(t, c.run, c5.out, d, h.out) by {
        release_passes(c, t, c5, l.floats, l.floats.len(), d);
        let d1 = choose|e: D| #[trigger] goes(t, c.run, c5.out, d, c6.out, e);
        release_ints_pass(c, t, c6, l.ints, l.ints.len(), d1);
        comes_on(t, c.run, c5.out, d, c6.out, d1, h.out);
    }
    assert forall|d: D| (c.reg)(r.counter, d) < 0x7fff_ffff_ffff_ffff implies #[trigger] counts(
        c,
        t,
        step,
        test,
        r.counter,
        d,
    ) by {
        let d1 = step_goes(c, t, step, r, d);
        jump_goes(c, t, c4.out, top, o3.out, d1);
        goes_on(t, c.run, step, d, c4.out, d1, test, d1);
    }
    assert forall|d: D| #[trigger] comes(t, c.run, step, d, test) by {
        let d1 = step_goes(c, t, step, r, d);
        jump_goes(c, t, c4.out, top, o3.out, d1);
        goes_on(t, c.run, step, d, c4.out, d1, test, d1);
    }
    assert forall|d: D|
        #![trigger comes(t, c.run, gen_stmts(start, env, body, body.len()).out, d, test)]
        comes(t, c.run, gen_stmts(start, env, body, body.len()).out, d, test) by {
        label_passes(c, t, b.out, cont, d);
        assert(comes(t, c.run, step, d, test));
        comes_on(t, c.run, b.out, d, step, d, test);
    }
    assert forall|x: Asm, d: D|
        x.loops == start.loops && (#[trigger] gen_stmt(x, env, StmtView::Break)).out.is_prefix_of(
            t,
        ) implies #[trigger] comes(t, c.run, x.out, d, h.out) by {
        exit_text(x, env);
        jump_goes(c, t, x.out, end, tail, d);
        assert(comes(t, c.run, c5.out, d, h.out));
        comes_on(t, c.run, x.out, d, c5.out, d, h.out);
    }
    assert forall|x: Asm, d: D|
        x.loops == start.loops && (#[trigger] gen_stmt(
            x,
            env,
            StmtView::Continue,
        )).out.is_prefix_of(t) implies #[trigger] goes(t, c.run, x.out, d, step, d) by {
        exit_text(x, env);
        jump_goes(c, t, x.out, cont, b.out, d);
    }
    assert forall|d: D| (c.reg)(r.counter, d) < (c.reg)(r.limit, d) implies #[trigger] comes(
        t,
        c.run,
        test,
        d,
        start.out,
    ) by {
        test_goes(c, t, test, r, end, tail, d);
        let d1 = choose|e: D| #[trigger] goes(t, c.run, test, d, g8.out, e);
        open_tail_passes(c, t, g8, r, var, raw, used, assigned, poll, ioff, d1);
        comes_on(t, c.run, test, d, g8.out, d1, start.out);
    }
    assert forall|d: D| (c.reg)(r.counter, d) >= (c.reg)(r.limit, d) implies #[trigger] comes(
        t,
        c.run,
        test,
        d,
        h.out,
    ) by {
        test_goes(c, t, test, r, end, tail, d);
        let d1 = choose|e: D| #[trigger] goes(t, c.run, test, d, c5.out, e);
        assert(comes(t, c.run, c5.out, d1, h.out));
        comes_on(t, c.run, test, d, c5.out, d1, h.out);
    }
}

proof fn close_shape(b: Asm, r: RangeRegs, l: LoopView, var: Seq<char>) -> (z: (Asm, Asm, Asm))
    ensures
        z.0.out == step_text(b.out + l.cont + ":\n"@, r),
        z.1.out == z.0.out + "    jmp "@ + l.top + "\n"@ + l.end + ":\n"@,
        z.2 == z.1.release_floats(l.floats, l.floats.len()),
        b.range_close(r, l, var) == z.2.release_ints(l.ints, l.ints.len()),
{
    reveal(Asm::range_close);
    reveal(Asm::p);
    let g1 = b.pop_loop();
    let g2 = if l.mapped {
        g1.del_int_loc(var)
    } else {
        g1
    };
    assert(g2.out == b.out) by {
        reveal(Asm::pop_loop);
        reveal(Asm::del_int_loc);
    }
    let g3 = g2.p(l.cont).p(":\n"@);
    let g4 = if r.in_regs {
        g3.p("    add "@).p(r.counter).p(", 1\n"@)
    } else {
        g3.p("    mov rax, "@).p(r.counter).p("\n    add rax, 1\n    mov "@).p(r.counter).p(
            ", rax\n"@,
        )
    };
    let g5 = g4.p("    jmp "@).p(l.top).p("\n"@).p(l.end).p(":\n"@);
    (g4, g5, g5.release_floats(l.floats, l.floats.len()))
}

} // verus!
