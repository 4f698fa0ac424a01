//! Where control goes in the code of the x86-64 back end: loops, branches, `break` and
//! `continue`. The laws hold of every machine that runs jumps, labels, comparisons and moves
//! as an x86-64 does.

use crate::analysis::{gives_bool, no_alloc_block};
use crate::asmexpr::{cond_false, gen_expr, int_operands};
use crate::asmkeep::{
    cond_false_kept, gen_stmt_kept, gen_stmts_kept, hold_floats_kept, kept, kept_self,
    release_floats_kept,
};
use crate::asmops::HeldView;
use crate::asmquery::{is_int_comparison, jcc_false};
use crate::asmstate::{Asm, FnEnv};
use crate::asmstmt::{float_names, gen_stmt, gen_stmts};
use crate::ast::{BinOp, ExprView, StmtView};
use crate::coderun::{
    comes, comes_on, flat, goes, goes_nowhere, goes_on, joined, jumps, line_joined, local, once,
    part_of, passes, Run,
};
use crate::text::{dec, dec_nat};
use vstd::prelude::*;

verus! {

/// A machine that runs assembly: what its lines do, what an operand holds, which conditional
/// jumps it would take, the lowest bit of `rax`, which values the runtime takes for true, and what
/// its functions of two values give.
#[verifier::reject_recursive_types(D)]
pub struct Cpu<D> {
    pub run: Run<D>,
    pub reg: spec_fn(Seq<char>, D) -> int,
    pub takes: spec_fn(Seq<char>, D) -> bool,
    pub low: spec_fn(D) -> bool,
    pub truthy: spec_fn(int) -> bool,
    pub rt: spec_fn(Seq<char>, int, int) -> int,
}

pub open spec fn jmp_line(l: Seq<char>) -> Seq<char> {
    "    jmp "@ + l
}

pub open spec fn label_line(l: Seq<char>) -> Seq<char> {
    l + ":"@
}

pub open spec fn jcc_line(j: Seq<char>, l: Seq<char>) -> Seq<char> {
    "    "@ + j + " "@ + l
}

pub open spec fn cmp_line(a: Seq<char>, b: Seq<char>) -> Seq<char> {
    "    cmp "@ + a + ", "@ + b
}

/// A conditional jump.
pub open spec fn jump_word(j: Seq<char>) -> bool {
    j == "je"@ || j == "jz"@ || j == "jne"@ || j == "jl"@ || j == "jle"@ || j == "jg"@ || j
        == "jge"@
}

/// One operand: no comma, no line end.
pub open spec fn operand(s: Seq<char>) -> bool {
    flat(s) && forall|i: int| 0 <= i < s.len() ==> #[trigger] s[i] != ','
}

/// A move, an addition or another operation on bits.
pub open spec fn plain(s: Seq<char>) -> bool {
    &&& s.len() > 5
    &&& s[0] == ' ' && s[1] == ' ' && s[2] == ' ' && s[3] == ' '
    &&& s[4] == 'm' || s[4] == 'a' || s[4] == 'o'
    &&& flat(s)
}

/// Whether a machine jumps, compares and moves as an x86-64 does.
pub open spec fn x86<D>(c: Cpu<D>) -> bool {
    &&& forall|l: Seq<char>, d: D|
        flat(l) ==> #[trigger] (c.run)(jmp_line(l), d) == (d, Some(l))
    &&& forall|l: Seq<char>, d: D|
        flat(l) && local(l) ==> #[trigger] (c.run)(label_line(l), d) == (d, None::<Seq<char>>)
    &&& forall|j: Seq<char>, l: Seq<char>, d: D|
        jump_word(j) && flat(l) ==> #[trigger] (c.run)(jcc_line(j, l), d) == (
            d,
            if (c.takes)(j, d) {
                Some(l)
            } else {
                None
            }
        )
    &&& forall|s: Seq<char>, d: D| plain(s) ==> (#[trigger] (c.run)(s, d)).1 is None
    &&& forall|a: Seq<char>, b: Seq<char>, d: D|
        operand(a) && operand(b) ==> (#[trigger] (c.run)(cmp_line(a, b), d)).1 is None && compared(
            c,
            (c.reg)(a, d),
            (c.reg)(b, d),
            (c.run)(cmp_line(a, b), d).0,
        )
    &&& forall|d: D| (#[trigger] (c.run)("    test al, 1"@, d)).1 is None && (c.takes)(
        "jz"@,
        (c.run)("    test al, 1"@, d).0,
    ) == !(c.low)(d)
    &&& forall|d: D| (#[trigger] (c.run)("    call lumen_truthy"@, d)).1 is None && ((c.reg)(
        "rax"@,
        (c.run)("    call lumen_truthy"@, d).0,
    ) == 0) == !(c.truthy)((c.reg)("rcx"@, d))
    &&& forall|d: D| (#[trigger] (c.run)("    call lumen_gc_collect"@, d)).1 is None
    &&& forall|d: D|
        (c.reg)("rcx"@, (#[trigger] (c.run)("    mov rcx, rax"@, d)).0) == (c.reg)("rax"@, d)
    &&& forall|d: D| #[trigger] (c.reg)("0"@, d) == 0
    &&& frames_hold(c)
}

/// A slot of the frame.
pub open spec fn frame_operand(s: Seq<char>) -> bool {
    operand(s) && s.len() > 4 && s[0] == '[' && s[1] == 'r' && s[2] == 'b' && s[3] == 'p'
}

pub open spec fn store_line(x: Seq<char>) -> Seq<char> {
    "    mov "@ + x + ", rax"@
}

pub open spec fn load_line(x: Seq<char>) -> Seq<char> {
    "    mov rax, "@ + x
}

pub open spec fn second_line(x: Seq<char>) -> Seq<char> {
    "    mov rcx, "@ + x
}

pub open spec fn add_one_line(x: Seq<char>) -> Seq<char> {
    "    add "@ + x + ", 1"@
}

/// An operand that can be written to: a register or a slot, no number.
pub open spec fn place_operand(s: Seq<char>) -> bool {
    operand(s) && s.len() > 1 && (s[0] == 'r' || s[0] == '[')
}

/// Whether slots hold what is stored in them, also over a question to the runtime.
pub open spec fn frames_hold<D>(c: Cpu<D>) -> bool {
    &&& forall|x: Seq<char>, d: D|
        frame_operand(x) ==> (#[trigger] (c.run)(store_line(x), d)).1 is None && (c.reg)(
            x,
            (c.run)(store_line(x), d).0,
        ) == (c.reg)("rax"@, d) && (c.reg)("rax"@, (c.run)(store_line(x), d).0) == (c.reg)(
            "rax"@,
            d,
        )
    &&& forall|x: Seq<char>, d: D|
        frame_operand(x) ==> (#[trigger] (c.run)(load_line(x), d)).1 is None && (c.reg)(
            "rax"@,
            (c.run)(load_line(x), d).0,
        ) == (c.reg)(x, d)
    &&& forall|x: Seq<char>, d: D|
        frame_operand(x) ==> #[trigger] (c.reg)(x, (c.run)("    mov rcx, rax"@, d).0) == (c.reg)(
            x,
            d,
        )
    &&& forall|x: Seq<char>, d: D|
        frame_operand(x) ==> #[trigger] (c.reg)(x, (c.run)("    call lumen_truthy"@, d).0)
            == (c.reg)(x, d)
    &&& forall|x: Seq<char>, d: D|
        frame_operand(x) ==> #[trigger] (c.reg)(x, (c.run)("    cmp rax, 0"@, d).0) == (c.reg)(
            x,
            d,
        )
    &&& forall|x: Seq<char>, y: Seq<char>, d: D|
        frame_operand(x) && frame_operand(y) ==> #[trigger] (c.reg)(
            y,
            (c.run)(load_line(x), d).0,
        ) == (c.reg)(y, d)
    &&& forall|x: Seq<char>, d: D|
        frame_operand(x) ==> (c.reg)("rcx"@, (#[trigger] (c.run)(second_line(x), d)).0) == (c.reg)(
            x,
            d,
        ) && (c.reg)("rax"@, (c.run)(second_line(x), d).0) == (c.reg)("rax"@, d)
    &&& forall|x: Seq<char>, d: D|
        place_operand(x) && (c.reg)(x, d) < 0x7fff_ffff_ffff_ffff ==> (c.reg)(
            x,
            (#[trigger] (c.run)(add_one_line(x), d)).0,
        ) == (c.reg)(x, d) + 1
}

/// The jumps that are taken after a comparison of `x` with `y`.
pub open spec fn compared<D>(c: Cpu<D>, x: int, y: int, e: D) -> bool {
    &&& (c.takes)("je"@, e) == (x == y)
    &&& (c.takes)("jne"@, e) == (x != y)
    &&& (c.takes)("jl"@, e) == (x < y)
    &&& (c.takes)("jle"@, e) == (x <= y)
    &&& (c.takes)("jg"@, e) == (x > y)
    &&& (c.takes)("jge"@, e) == (x >= y)
}

/// Whether a comparison holds of two integers.
pub open spec fn relates(op: BinOp, x: int, y: int) -> bool {
    match op {
        BinOp::Lt => x < y,
        BinOp::Le => x <= y,
        BinOp::Gt => x > y,
        BinOp::Ge => x >= y,
        BinOp::Eq => x == y,
        _ => x != y,
    }
}

proof fn numeral_flat(n: nat)
    ensures
        operand(dec_nat(n)),
    decreases n,
{
    if n >= 10 {
        numeral_flat(n / 10);
        let a = dec_nat(n / 10);
        assert forall|i: int| 0 <= i < dec_nat(n).len() implies dec_nat(n)[i] != '\n' && dec_nat(
            n,
        )[i] != ',' by {
            if i < a.len() {
                assert(dec_nat(n)[i] == a[i]);
            }
        }
    }
}

pub(crate) proof fn number_flat(n: int)
    ensures
        operand(dec(n)),
{
    numeral_flat(if n < 0 {
        (-n) as nat
    } else {
        n as nat
    });
}

/// A new label is a local one.
pub(crate) proof fn label_local(g: Asm, base: Seq<char>)
    requires
        flat(base),
    ensures
        local(g.new_label(base).1),
        flat(g.new_label(base).1),
{
    reveal(Asm::new_label);
    reveal_strlit(".L");
    reveal_strlit("_");
    let n = crate::asmstate::next64(g.label_count) as nat;
    numeral_flat(n);
    let l = ".L"@ + base + "_"@ + dec_nat(n);
    assert(l[0] == ".L"@[0] && l[1] == ".L"@[1]);
    assert forall|i: int| 0 <= i < l.len() implies #[trigger] l[i] != '\n' by {
        let k = 2 + base.len();
        if i < 2 {
            assert(l[i] == ".L"@[i]);
        } else if i < k {
            assert(l[i] == base[i - 2]);
        } else if i == k {
            assert(l[i] == "_"@[0]);
        } else {
            assert(l[i] == dec_nat(n)[i - k - 1]);
        }
    }
}

pub(crate) proof fn jump_goes<D>(
    c: Cpu<D>,
    t: Seq<char>,
    a: Seq<char>,
    l: Seq<char>,
    b: Seq<char>,
    d: D
)
    requires
        x86(c),
        once(t),
        (a + "    jmp "@ + l + "\n"@).is_prefix_of(t),
        (b + l + ":\n"@).is_prefix_of(t),
        local(l),
        flat(l),
    ensures
        goes(t, c.run, a, d, b + l + ":\n"@, d),
{
    reveal_strlit("    jmp ");
    joined(a, "    jmp "@, l);
    let s = jmp_line(l);
    assert((c.run)(s, d) == (d, Some(l)));
    assert forall|i: int| 0 <= i < s.len() implies #[trigger] s[i] != '\n' by {
        if i >= 8 {
            assert(s[i] == l[i - 8]);
        }
    }
    jumps(t, c.run, a, s, d, l, b);
    label_passes(c, t, b, l, d);
    goes_on(t, c.run, a, d, b, d, b + l + ":\n"@, d);
}

pub(crate) proof fn label_passes<D>(c: Cpu<D>, t: Seq<char>, a: Seq<char>, l: Seq<char>, d: D)
    requires
        x86(c),
        (a + l + ":\n"@).is_prefix_of(t),
        local(l),
        flat(l),
    ensures
        goes(t, c.run, a, d, a + l + ":\n"@, d),
{
    reveal_strlit(":");
    let s = label_line(l);
    line_joined(a, l);
    assert((c.run)(s, d) == (d, None::<Seq<char>>));
    assert forall|i: int| 0 <= i < s.len() implies #[trigger] s[i] != '\n' by {
        if i < l.len() {
            assert(s[i] == l[i]);
        }
    }
    passes(t, c.run, a, s, d);
}

/// A conditional jump goes to its label where it is taken, and on where it is not.
pub(crate) proof fn branch_goes<D>(
    c: Cpu<D>,
    t: Seq<char>,
    a: Seq<char>,
    j: Seq<char>,
    l: Seq<char>,
    b: Seq<char>,
    d: D
)
    requires
        x86(c),
        once(t),
        jump_word(j),
        (a + "    "@ + j + " "@ + l + "\n"@).is_prefix_of(t),
        (b + l + ":\n"@).is_prefix_of(t),
        local(l),
        flat(l),
    ensures
        (c.takes)(j, d) ==> goes(t, c.run, a, d, b + l + ":\n"@, d),
        !(c.takes)(j, d) ==> goes(t, c.run, a, d, a + "    "@ + j + " "@ + l + "\n"@, d),
{
    reveal_strlit("    ");
    reveal_strlit(" ");
    reveal_strlit("je");
    reveal_strlit("jz");
    reveal_strlit("jne");
    reveal_strlit("jl");
    reveal_strlit("jle");
    reveal_strlit("jg");
    reveal_strlit("jge");
    let s = jcc_line(j, l);
    assert(a + "    "@ + j + " "@ + l =~= a + s);
    assert forall|i: int| 0 <= i < s.len() implies #[trigger] s[i] != '\n' by {
        let k = 4 + j.len();
        if i < 4 {
            assert(s[i] == "    "@[i]);
        } else if i < k {
            assert(s[i] == j[i - 4]);
        } else if i == k {
            assert(s[i] == " "@[0]);
        } else {
            assert(s[i] == l[i - k - 1]);
        }
    }
    if (c.takes)(j, d) {
        jumps(t, c.run, a, s, d, l, b);
        label_passes(c, t, b, l, d);
        goes_on(t, c.run, a, d, b, d, b + l + ":\n"@, d);
    } else {
        passes(t, c.run, a, s, d);
    }
}

/// A line of the text is passed; here it ends the piece `w`.
pub(crate) proof fn line_passes<D>(
    c: Cpu<D>,
    t: Seq<char>,
    a: Seq<char>,
    s: Seq<char>,
    w: Seq<char>,
    d: D
)
    requires
        w == s + "\n"@,
        (a + w).is_prefix_of(t),
        flat(s),
        (c.run)(s, d).1 is None,
    ensures
        goes(t, c.run, a, d, a + w, (c.run)(s, d).0),
{
    joined(a, s, "\n"@);
    passes(t, c.run, a, s, d);
}

/// A poll of the collector goes on behind it, whether it collects or not.
pub(crate) proof fn poll_passes<D>(c: Cpu<D>, t: Seq<char>, g: Asm, d: D)
    requires
        x86(c),
        once(t),
        g.gc_poll().out.is_prefix_of(t),
    ensures
        comes(t, c.run, g.out, d, g.gc_poll().out),
{
    reveal(Asm::gc_poll);
    reveal(Asm::p);
    reveal(Asm::new_label);
    reveal_strlit("gcskip");
    label_local(g, "gcskip"@);
    let l = g.new_label("gcskip"@).1;
    let w = "    cmp qword ptr [rip + lumen_allocs_since_gc], 512\n"@;
    let s = "    cmp qword ptr [rip + lumen_allocs_since_gc], 512"@;
    let v = "    call lumen_gc_collect\n"@;
    let u = "    call lumen_gc_collect"@;
    reveal_strlit("    cmp qword ptr [rip + lumen_allocs_since_gc], 512\n");
    reveal_strlit("    cmp qword ptr [rip + lumen_allocs_since_gc], 512");
    reveal_strlit("    call lumen_gc_collect\n");
    reveal_strlit("    call lumen_gc_collect");
    reveal_strlit("\n");
    assert(w =~= s + "\n"@);
    assert(v =~= u + "\n"@);
    let a = g.out;
    let b = a + w;
    let e = b + "    jl "@ + l + "\n"@;
    let f = e + v;
    let h = f + l + ":\n"@;
    assert(h == g.gc_poll().out);
    assert(f.is_prefix_of(h));
    assert(e.is_prefix_of(f));
    assert(b.is_prefix_of(e));
    part_of(t, f, h);
    part_of(t, e, f);
    part_of(t, b, e);
    let x = "qword ptr [rip + lumen_allocs_since_gc]"@;
    reveal_strlit("qword ptr [rip + lumen_allocs_since_gc]");
    reveal_strlit("512");
    reveal_strlit("    cmp ");
    reveal_strlit(", ");
    assert(s =~= cmp_line(x, "512"@));
    let d1 = (c.run)(s, d).0;
    assert((c.run)(cmp_line(x, "512"@), d).1 is None);
    line_passes(c, t, a, s, w, d);
    reveal_strlit("    jl ");
    reveal_strlit("    ");
    reveal_strlit("jl");
    reveal_strlit(" ");
    assert("    jl "@ =~= "    "@ + "jl"@ + " "@);
    assert(b + "    jl "@ + l + "\n"@ =~= b + "    "@ + "jl"@ + " "@ + l + "\n"@);
    branch_goes(c, t, b, "jl"@, l, f, d1);
    if (c.takes)("jl"@, d1) {
        goes_on(t, c.run, a, d, b, d1, h, d1);
    } else {
        let d2 = (c.run)(u, d1).0;
        goes_on(t, c.run, a, d, b, d1, e, d1);
        line_passes(c, t, e, u, v, d1);
        goes_on(t, c.run, a, d, e, d1, f, d2);
        label_passes(c, t, f, l, d2);
        goes_on(t, c.run, a, d, f, d2, h, d2);
    }
}

/// Where the operands of a condition have been evaluated, just before it is decided.
pub open spec fn decision(g: Asm, env: FnEnv, e: ExprView) -> Seq<char> {
    if is_int_comparison(env, e) {
        int_operands(g, env, e).out
    } else {
        gen_expr(g, env, e).out
    }
}

/// Whether a condition holds of what its operands left in the registers: a comparison of
/// integers of those in `r8` and `r9`, any other by the value in `rax`.
pub open spec fn says_yes<D>(c: Cpu<D>, env: FnEnv, e: ExprView, d: D) -> bool {
    if is_int_comparison(env, e) {
        relates(e->Binary_op, (c.reg)("r8"@, d), (c.reg)("r9"@, d))
    } else if gives_bool(e) {
        (c.low)(d)
    } else {
        (c.truthy)((c.reg)("rax"@, d))
    }
}

/// A comparison of `r8` with `r9` and the jump where it fails.
proof fn compare_goes<D>(
    c: Cpu<D>,
    t: Seq<char>,
    a: Seq<char>,
    op: BinOp,
    l: Seq<char>,
    b: Seq<char>,
    d: D
)
    requires
        x86(c),
        once(t),
        local(l),
        flat(l),
        (a + "    cmp r8, r9\n"@ + "    "@ + jcc_false(op) + " "@ + l + "\n"@).is_prefix_of(t),
        (b + l + ":\n"@).is_prefix_of(t),
    ensures
        relates(op, (c.reg)("r8"@, d), (c.reg)("r9"@, d)) ==> comes(
            t,
            c.run,
            a,
            d,
            a + "    cmp r8, r9\n"@ + "    "@ + jcc_false(op) + " "@ + l + "\n"@,
        ),
        !relates(op, (c.reg)("r8"@, d), (c.reg)("r9"@, d)) ==> comes(
            t,
            c.run,
            a,
            d,
            b + l + ":\n"@,
        ),
{
    let w = "    cmp r8, r9\n"@;
    let s = "    cmp r8, r9"@;
    compare_text();
    let f = a + w;
    let j = jcc_false(op);
    let h = f + "    "@ + j + " "@ + l + "\n"@;
    prefixes(t, f, "    "@, j, " "@, l, "\n"@);
    assert((c.run)(cmp_line("r8"@, "r9"@), d).1 is None);
    let d1 = (c.run)(s, d).0;
    line_passes(c, t, a, s, w, d);
    branch_goes(c, t, f, j, l, b, d1);
    if (c.takes)(j, d1) {
        goes_on(t, c.run, a, d, f, d1, b + l + ":\n"@, d1);
    } else {
        goes_on(t, c.run, a, d, f, d1, h, d1);
    }
}

proof fn compare_text()
    ensures
        "    cmp r8, r9\n"@ == "    cmp r8, r9"@ + "\n"@,
        "    cmp r8, r9"@ == cmp_line("r8"@, "r9"@),
        flat("    cmp r8, r9"@),
        operand("r8"@),
        operand("r9"@),
{
    reveal_strlit("    cmp r8, r9\n");
    reveal_strlit("    cmp r8, r9");
    reveal_strlit("    cmp ");
    reveal_strlit(", ");
    reveal_strlit("r8");
    reveal_strlit("r9");
    reveal_strlit("\n");
    assert("    cmp r8, r9\n"@ =~= "    cmp r8, r9"@ + "\n"@);
    assert("    cmp r8, r9"@ =~= cmp_line("r8"@, "r9"@));
}

/// A text that a longer one begins with is a part of the whole.
pub(crate) proof fn prefixes(
    t: Seq<char>,
    f: Seq<char>,
    a: Seq<char>,
    b: Seq<char>,
    c: Seq<char>,
    d: Seq<char>,
    e: Seq<char>,
)
    requires
        (f + a + b + c + d + e).is_prefix_of(t),
    ensures
        f.is_prefix_of(t),
{
    assert(f.is_prefix_of(f + a + b + c + d + e));
    part_of(t, f, f + a + b + c + d + e);
}

/// A test of the lowest bit and the jump where it is clear.
proof fn bit_goes<D>(
    c: Cpu<D>,
    t: Seq<char>,
    a: Seq<char>,
    l: Seq<char>,
    b: Seq<char>,
    d: D
)
    requires
        x86(c),
        once(t),
        local(l),
        flat(l),
        (a + "    test al, 1\n"@ + "    jz "@ + l + "\n"@).is_prefix_of(t),
        (b + l + ":\n"@).is_prefix_of(t),
    ensures
        (c.low)(d) ==> comes(t, c.run, a, d, a + "    test al, 1\n"@ + "    jz "@ + l + "\n"@),
        !(c.low)(d) ==> comes(t, c.run, a, d, b + l + ":\n"@),
{
    let w = "    test al, 1\n"@;
    let s = "    test al, 1"@;
    reveal_strlit("    test al, 1\n");
    reveal_strlit("    test al, 1");
    reveal_strlit("\n");
    assert(w =~= s + "\n"@);
    assert(flat(s));
    let f = a + w;
    let h = f + "    jz "@ + l + "\n"@;
    jump_text(f, l);
    prefixes(t, f, "    "@, "jz"@, " "@, l, "\n"@);
    let d1 = (c.run)(s, d).0;
    line_passes(c, t, a, s, w, d);
    branch_goes(c, t, f, "jz"@, l, b, d1);
    if (c.takes)("jz"@, d1) {
        goes_on(t, c.run, a, d, f, d1, b + l + ":\n"@, d1);
    } else {
        goes_on(t, c.run, a, d, f, d1, h, d1);
    }
}

pub(crate) proof fn jump_text(f: Seq<char>, l: Seq<char>)
    ensures
        f + "    jz "@ + l + "\n"@ == f + "    "@ + "jz"@ + " "@ + l + "\n"@,
        f + "    je "@ + l + "\n"@ == f + "    "@ + "je"@ + " "@ + l + "\n"@,
        f + "    jge "@ + l + "\n"@ == f + "    "@ + "jge"@ + " "@ + l + "\n"@,
{
    reveal_strlit("    jz ");
    reveal_strlit("    je ");
    reveal_strlit("    jge ");
    reveal_strlit("jz");
    reveal_strlit("je");
    reveal_strlit("jge");
    reveal_strlit(" ");
    reveal_strlit("    ");
    assert("    jz "@ =~= "    "@ + "jz"@ + " "@);
    assert("    je "@ =~= "    "@ + "je"@ + " "@);
    assert("    jge "@ =~= "    "@ + "jge"@ + " "@);
    assert(f + "    jz "@ =~= f + "    "@ + "jz"@ + " "@);
    assert(f + "    je "@ =~= f + "    "@ + "je"@ + " "@);
    assert(f + "    jge "@ =~= f + "    "@ + "jge"@ + " "@);
}

pub(crate) proof fn truth_text(a: Seq<char>)
    ensures
        "    mov rcx, rax\n    call lumen_truthy\n"@ == ("    mov rcx, rax"@ + "\n"@) + (
        "    call lumen_truthy"@ + "\n"@),
        "    cmp rax, 0\n"@ == "    cmp rax, 0"@ + "\n"@,
        "    cmp rax, 0"@ == cmp_line("rax"@, "0"@),
        plain("    mov rcx, rax"@),
        flat("    call lumen_truthy"@),
        flat("    cmp rax, 0"@),
        operand("rax"@),
        operand("0"@),
        a + "    mov rcx, rax\n    call lumen_truthy\n"@ == a + ("    mov rcx, rax"@ + "\n"@) + (
        "    call lumen_truthy"@ + "\n"@),
{
    reveal_strlit("    mov rcx, rax\n    call lumen_truthy\n");
    reveal_strlit("    mov rcx, rax");
    reveal_strlit("    call lumen_truthy");
    reveal_strlit("    cmp rax, 0\n");
    reveal_strlit("    cmp rax, 0");
    reveal_strlit("    cmp ");
    reveal_strlit(", ");
    reveal_strlit("rax");
    reveal_strlit("0");
    reveal_strlit("\n");
    assert("    mov rcx, rax\n    call lumen_truthy\n"@ =~= ("    mov rcx, rax"@ + "\n"@) + (
    "    call lumen_truthy"@ + "\n"@));
    assert("    cmp rax, 0\n"@ =~= "    cmp rax, 0"@ + "\n"@);
    assert("    cmp rax, 0"@ =~= cmp_line("rax"@, "0"@));
    joined(a, "    mov rcx, rax"@ + "\n"@, "    call lumen_truthy"@ + "\n"@);
}

/// A question to the runtime and the jump where it says no.
proof fn truth_goes<D>(
    c: Cpu<D>,
    t: Seq<char>,
    a: Seq<char>,
    l: Seq<char>,
    b: Seq<char>,
    d: D
)
    requires
        x86(c),
        once(t),
        local(l),
        flat(l),
        (a + "    mov rcx, rax\n    call lumen_truthy\n"@ + "    cmp rax, 0\n"@ + "    je "@ + l
            + "\n"@).is_prefix_of(t),
        (b + l + ":\n"@).is_prefix_of(t),
    ensures
        (c.truthy)((c.reg)("rax"@, d)) ==> comes(
            t,
            c.run,
            a,
            d,
            a + "    mov rcx, rax\n    call lumen_truthy\n"@ + "    cmp rax, 0\n"@ + "    je "@
                + l + "\n"@,
        ),
        !(c.truthy)((c.reg)("rax"@, d)) ==> comes(t, c.run, a, d, b + l + ":\n"@),
{
    let s1 = "    mov rcx, rax"@;
    let s2 = "    call lumen_truthy"@;
    let v = "    cmp rax, 0\n"@;
    let s3 = "    cmp rax, 0"@;
    truth_text(a);
    let b1 = a + (s1 + "\n"@);
    let b2 = b1 + (s2 + "\n"@);
    let b3 = b2 + v;
    let h = b3 + "    je "@ + l + "\n"@;
    jump_text(b3, l);
    prefixes(t, b3, "    "@, "je"@, " "@, l, "\n"@);
    assert(b1.is_prefix_of(b2) && b2.is_prefix_of(b3));
    part_of(t, b2, b3);
    part_of(t, b1, b2);
    let d1 = (c.run)(s1, d).0;
    let d2 = (c.run)(s2, d1).0;
    let d3 = (c.run)(s3, d2).0;
    assert((c.run)(s1, d).1 is None);
    line_passes(c, t, a, s1, s1 + "\n"@, d);
    line_passes(c, t, b1, s2, s2 + "\n"@, d1);
    assert((c.run)(cmp_line("rax"@, "0"@), d2).1 is None);
    line_passes(c, t, b2, s3, v, d2);
    goes_on(t, c.run, a, d, b1, d1, b2, d2);
    goes_on(t, c.run, a, d, b2, d2, b3, d3);
    branch_goes(c, t, b3, "je"@, l, b, d3);
    assert((c.reg)("0"@, d2) == 0);
    if (c.takes)("je"@, d3) {
        goes_on(t, c.run, a, d, b3, d3, b + l + ":\n"@, d3);
    } else {
        goes_on(t, c.run, a, d, b3, d3, h, d3);
    }
}

/// A condition goes on behind its code where it holds, and to the target where it does not.
pub proof fn condition_branches<D>(
    c: Cpu<D>,
    t: Seq<char>,
    g: Asm,
    env: FnEnv,
    e: ExprView,
    l: Seq<char>,
    b: Seq<char>,
    d: D
)
    requires
        x86(c),
        once(t),
        local(l),
        flat(l),
        cond_false(g, env, e, l).out.is_prefix_of(t),
        (b + l + ":\n"@).is_prefix_of(t),
    ensures
        says_yes(c, env, e, d) ==> comes(
            t,
            c.run,
            decision(g, env, e),
            d,
            cond_false(g, env, e, l).out,
        ),
        !says_yes(c, env, e, d) ==> comes(t, c.run, decision(g, env, e), d, b + l + ":\n"@),
{
    reveal(Asm::p);
    let a = decision(g, env, e);
    if is_int_comparison(env, e) {
        compare_goes(c, t, a, e->Binary_op, l, b, d);
    } else if gives_bool(e) {
        bit_goes(c, t, a, l, b, d);
    } else {
        truth_goes(c, t, a, l, b, d);
    }
}

/// A move is passed.
pub(crate) proof fn move_passes<D>(c: Cpu<D>, t: Seq<char>, a: Seq<char>, s: Seq<char>, d: D)
    requires
        x86(c),
        plain(s),
        (a + s + "\n"@).is_prefix_of(t),
    ensures
        goes(t, c.run, a, d, a + s + "\n"@, (c.run)(s, d).0),
{
    assert((c.run)(s, d).1 is None);
    passes(t, c.run, a, s, d);
}

/// Whether the registers of held variables are words.
pub(crate) open spec fn words(held: Seq<HeldView>) -> bool {
    forall|i: int| 0 <= i < held.len() ==> flat((#[trigger] held[i]).1)
}

proof fn load_text(a: Seq<char>, off: int, r: Seq<char>)
    requires
        flat(r),
    ensures
        ({
            let s = "    movsd xmm0, qword ptr [rbp"@ + dec(off) + "]"@;
            let u = "    movapd "@ + r + ", xmm0"@;
            &&& plain(s)
            &&& plain(u)
            &&& a + "    movsd xmm0, qword ptr [rbp"@ + dec(off) + "]\n"@ + "    movapd "@ + r
                + ", xmm0\n"@ == (a + s + "\n"@) + u + "\n"@
        }),
{
    reveal_strlit("    movsd xmm0, qword ptr [rbp");
    reveal_strlit("]");
    reveal_strlit("]\n");
    reveal_strlit("\n");
    reveal_strlit("    movapd ");
    reveal_strlit(", xmm0");
    reveal_strlit(", xmm0\n");
    number_flat(off);
    let x = "    movsd xmm0, qword ptr [rbp"@;
    let s = x + dec(off) + "]"@;
    let u = "    movapd "@ + r + ", xmm0"@;
    assert forall|i: int| 0 <= i < s.len() implies #[trigger] s[i] != '\n' by {
        if i >= x.len() && i < x.len() + dec(off).len() {
            assert(s[i] == dec(off)[i - x.len()]);
        }
    }
    assert forall|i: int| 0 <= i < u.len() implies #[trigger] u[i] != '\n' by {
        if i >= 11 && i < 11 + r.len() {
            assert(u[i] == r[i - 11]);
        }
    }
    assert("]\n"@ =~= "]"@ + "\n"@);
    assert(", xmm0\n"@ =~= ", xmm0"@ + "\n"@);
    assert(a + x + dec(off) + "]\n"@ =~= a + s + "\n"@);
    let b = a + s + "\n"@;
    assert(b + "    movapd "@ + r + ", xmm0\n"@ =~= b + u + "\n"@);
}

/// The moves of variables into registers before a loop are passed.
pub(crate) proof fn hold_passes<D>(c: Cpu<D>, t: Seq<char>, g: Asm, names: Seq<Seq<char>>, k: nat, d: D)
    requires
        x86(c),
        g.hold_floats(names, k).0.out.is_prefix_of(t),
    ensures
        comes(t, c.run, g.out, d, g.hold_floats(names, k).0.out),
        words(g.hold_floats(names, k).1),
    decreases k,
{
    if k == 0 || k > names.len() {
        goes_nowhere(t, c.run, g.out, d);
    } else {
        let (g1, held) = g.hold_floats(names, (k - 1) as nat);
        let (h, reg) = g1.acquire_xmm();
        let z = g.hold_floats(names, k).0;
        reveal(Asm::acquire_xmm);
        reveal(Asm::grow);
        reveal(Asm::fail);
        assert(h.out == g1.out);
        if reg is Some && h.local_of(names[k - 1]) is Some {
            reveal(Asm::p);
            reveal(Asm::n);
            reveal(Asm::set_float_loc);
            reveal_strlit("xmm6");
            reveal_strlit("xmm7");
            reveal_strlit("xmm8");
            reveal_strlit("xmm9");
            let r = reg->Some_0;
            let off = h.local_of(names[k - 1])->Some_0 as int;
            assert(flat(r));
            let a = g1.out;
            load_text(a, off, r);
            let s = "    movsd xmm0, qword ptr [rbp"@ + dec(off) + "]"@;
            let u = "    movapd "@ + r + ", xmm0"@;
            let b = a + s + "\n"@;
            assert(z.out == b + u + "\n"@);
            assert(b.is_prefix_of(b + u + "\n"@));
            part_of(t, b, z.out);
            assert(a.is_prefix_of(b));
            part_of(t, a, b);
            hold_passes(c, t, g, names, (k - 1) as nat, d);
            let d1 = choose|e: D| #[trigger] goes(t, c.run, g.out, d, a, e);
            move_passes(c, t, a, s, d1);
            let d2 = (c.run)(s, d1).0;
            move_passes(c, t, b, u, d2);
            goes_on(t, c.run, g.out, d, a, d1, b, d2);
            goes_on(t, c.run, g.out, d, b, d2, z.out, (c.run)(u, d2).0);
        } else {
            assert(z.out == g1.out);
            hold_passes(c, t, g, names, (k - 1) as nat, d);
        }
    }
}

proof fn store_text(a: Seq<char>, off: int, r: Seq<char>)
    requires
        flat(r),
    ensures
        ({
            let s = "    movsd qword ptr [rbp"@ + dec(off) + "], "@ + r;
            &&& plain(s)
            &&& a + "    movsd qword ptr [rbp"@ + dec(off) + "], "@ + r + "\n"@ == a + s + "\n"@
        }),
{
    reveal_strlit("    movsd qword ptr [rbp");
    reveal_strlit("], ");
    number_flat(off);
    let x = "    movsd qword ptr [rbp"@;
    let s = x + dec(off) + "], "@ + r;
    let k = x.len() + dec(off).len();
    assert forall|i: int| 0 <= i < s.len() implies #[trigger] s[i] != '\n' by {
        if i >= x.len() && i < k {
            assert(s[i] == dec(off)[i - x.len()]);
        } else if i >= k + 3 {
            assert(s[i] == r[i - k - 3]);
        }
    }
    assert(a + x + dec(off) + "], "@ + r =~= a + s);
}

/// The moves back behind a loop are passed.
pub(crate) proof fn release_passes<D>(c: Cpu<D>, t: Seq<char>, g: Asm, held: Seq<HeldView>, k: nat, d: D)
    requires
        x86(c),
        words(held),
        g.release_floats(held, k).out.is_prefix_of(t),
    ensures
        comes(t, c.run, g.out, d, g.release_floats(held, k).out),
    decreases k,
{
    if k == 0 || k > held.len() {
        goes_nowhere(t, c.run, g.out, d);
    } else {
        let g1 = g.release_floats(held, (k - 1) as nat);
        let z = g.release_floats(held, k);
        reveal(Asm::p);
        reveal(Asm::n);
        reveal(Asm::del_float_loc);
        let r = held[k - 1].1;
        let off = held[k - 1].2 as int;
        let a = g1.out;
        store_text(a, off, r);
        let s = "    movsd qword ptr [rbp"@ + dec(off) + "], "@ + r;
        assert(z.out == a + s + "\n"@);
        assert(a.is_prefix_of(a + s + "\n"@));
        part_of(t, a, z.out);
        release_passes(c, t, g, held, (k - 1) as nat, d);
        let d1 = choose|e: D| #[trigger] goes(t, c.run, g.out, d, a, e);
        move_passes(c, t, a, s, d1);
        goes_on(t, c.run, g.out, d, a, d1, z.out, (c.run)(s, d1).0);
    }
}

/// How the parts of a loop hang together. The test starts behind `test`, the body is the
/// block from `start` on; `step` is where a round ends, and `behind` is the end of the loop.
/// A `break` anywhere in the body, where the innermost loop is this one, comes to behind the
/// loop, and a `continue` to the end of the round.
pub open spec fn loop_hangs<D>(
    c: Cpu<D>,
    t: Seq<char>,
    env: FnEnv,
    body: Seq<StmtView>,
    test: Seq<char>,
    start: Asm,
    step: Seq<char>,
    behind: Asm,
    enclosing: Asm
) -> bool {
    &&& start.loops.len() == enclosing.loops.len() + 1
    &&& kept(start, gen_stmts(start, env, body, body.len()))
    &&& kept(enclosing, behind)
    &&& test.is_prefix_of(start.out)
    &&& gen_stmts(start, env, body, body.len()).out.is_prefix_of(behind.out)
    &&& forall|d: D|
        #![trigger comes(t, c.run, gen_stmts(start, env, body, body.len()).out, d, test)]
        comes(t, c.run, gen_stmts(start, env, body, body.len()).out, d, test)
    &&& forall|d: D| #[trigger] comes(t, c.run, step, d, test)
    &&& forall|b: Asm, d: D|
        b.loops == start.loops && (#[trigger] gen_stmt(b, env, StmtView::Break)).out.is_prefix_of(t)
            ==> #[trigger] comes(t, c.run, b.out, d, behind.out)
    &&& forall|b: Asm, d: D|
        b.loops == start.loops && (#[trigger] gen_stmt(
            b,
            env,
            StmtView::Continue,
        )).out.is_prefix_of(t) ==> #[trigger] goes(t, c.run, b.out, d, step, d)
}

/// The code of a `while` loop: it is entered at its test; where the condition holds the body
/// follows, and behind the body the test again; where it does not hold, or at a `break`,
/// control comes to behind the loop. A `continue` goes to the test.
pub open spec fn while_hangs<D>(
    c: Cpu<D>,
    t: Seq<char>,
    g: Asm,
    env: FnEnv,
    cond: ExprView,
    body: Seq<StmtView>,
    test: Asm,
    start: Asm
) -> bool {
    let h = gen_stmt(g, env, StmtView::While { cond, body });
    &&& loop_hangs(c, t, env, body, test.out, start, test.out, h, g)
    &&& forall|d: D| #[trigger] comes(t, c.run, g.out, d, test.out)
    &&& forall|d: D|
        says_yes(c, env, cond, d) ==> #[trigger] comes(
            t,
            c.run,
            decision(test, env, cond),
            d,
            start.out,
        )
    &&& forall|d: D|
        !says_yes(c, env, cond, d) ==> #[trigger] comes(
            t,
            c.run,
            decision(test, env, cond),
            d,
            h.out,
        )
}

/// A `break` or `continue` jumps to a label of the innermost loop.
pub(crate) proof fn exit_text(b: Asm, env: FnEnv)
    requires
        b.loops.len() > 0,
    ensures
        gen_stmt(b, env, StmtView::Break).out == b.out + "    jmp "@ + b.loops.last().1 + "\n"@,
        gen_stmt(b, env, StmtView::Continue).out == b.out + "    jmp "@ + b.loops.last().0 + "\n"@,
{
    reveal(Asm::p);
}

pub(crate) proof fn loop_text(g: Asm, top: Seq<char>, end: Seq<char>)
    ensures
        g.p("    jmp "@).p(top).p("\n"@).p(end).p(":\n"@).out == g.out + "    jmp "@ + top
            + "\n"@ + end + ":\n"@,
        (g.out + "    jmp "@ + top + "\n"@).is_prefix_of(
            g.out + "    jmp "@ + top + "\n"@ + end + ":\n"@,
        ),
        g.out.is_prefix_of(g.out + "    jmp "@ + top + "\n"@ + end + ":\n"@),
        g.p(top).p(":\n"@).out == g.out + top + ":\n"@,
{
    reveal(Asm::p);
}

pub(crate) proof fn while_parts<D>(
    c: Cpu<D>,
    t: Seq<char>,
    g: Asm,
    env: FnEnv,
    cond: ExprView,
    body: Seq<StmtView>
) -> (r: (Asm, Asm))
    requires
        x86(c),
        once(t),
        gen_stmt(g, env, StmtView::While { cond, body }).out.is_prefix_of(t),
    ensures
        while_hangs(c, t, g, env, cond, body, r.0, r.1),
{
    let h = gen_stmt(g, env, StmtView::While { cond, body });
    let names = float_names(g, env, body, body.len(), None, Some(cond));
    let (g2, held) = g.hold_floats(names, names.len());
    let (g3, top) = g2.new_label("wtop"@);
    let (g4, end) = g3.new_label("wend"@);
    let g5 = g4.p(top).p(":\n"@);
    let g6 = cond_false(g5, env, cond, end);
    let g7 = if !no_alloc_block(body) {
        let g8 = g6.gc_poll();
        g8
    } else {
        g6
    };
    let g9 = g7.push_loop(top, end);
    let g10 = gen_stmts(g9, env, body, body.len());
    let g11 = g10.pop_loop();
    let g12 = g11.p("    jmp "@).p(top).p("\n"@).p(end).p(":\n"@);
    let g13 = g12.release_floats(held, held.len());
    assert(h == g13);
    kept_self(g);
    gen_stmt_kept(g, g, env, StmtView::While { cond, body });
    kept_self(g2);
    kept_self(g5);
    kept_self(g6);
    kept_self(g9);
    kept_self(g12);
    cond_false_kept(g5, g5, env, cond, end);
    gen_stmts_kept(g9, g9, env, body, body.len());
    release_floats_kept(g12, g12, held, held.len());
    reveal_strlit("wtop");
    reveal_strlit("wend");
    label_local(g2, "wtop"@);
    label_local(g3, "wend"@);
    loop_text(g11, top, end);
    loop_text(g4, top, end);
    let tail = g11.out + "    jmp "@ + top + "\n"@;
    assert(g9.out == g7.out && g9.loops == g7.loops.push((top, end))) by {
        reveal(Asm::push_loop);
    }
    assert(g11.out == g10.out) by {
        reveal(Asm::pop_loop);
    }
    assert(g4.out == g2.out && g4.loops == g2.loops) by {
        reveal(Asm::new_label);
    }
    assert(g6.out.is_prefix_of(g7.out) && g7.loops == g6.loops) by {
        reveal(kept);
        broadcast use crate::asmkeep::ops;
    }
    assert(g12.out.is_prefix_of(h.out) && g9.out.is_prefix_of(g10.out) && g5.out.is_prefix_of(
        g6.out,
    ) && g6.loops == g5.loops && g10.loops == g9.loops) by {
        reveal(kept);
    }
    assert(g5.loops == g4.loops) by {
        reveal(Asm::p);
    }
    hold_floats_kept(g, g, names, names.len());
    assert(g2.loops == g.loops) by {
        reveal(kept);
    }
    part_of(t, g12.out, h.out);
    part_of(t, g10.out, g12.out);
    part_of(t, tail, g12.out);
    part_of(t, g9.out, g10.out);
    part_of(t, g6.out, g7.out);
    part_of(t, g5.out, g6.out);
    assert(g2.out.is_prefix_of(g5.out));
    part_of(t, g2.out, g5.out);
    part_of(g9.out, g5.out, g6.out);
    part_of(h.out, g10.out, g12.out);
    assert(words(held)) by {
        let d = arbitrary::<D>();
        hold_passes(c, t, g, names, names.len(), d);
    }
    let n = gen_stmts(g9, env, body, body.len());
    assert forall|d: D| #[trigger] comes(t, c.run, g12.out, d, h.out) by {
        release_passes(c, t, g12, held, held.len(), d);
    }
    assert forall|d: D| #[trigger] comes(t, c.run, g.out, d, g5.out) by {
        hold_passes(c, t, g, names, names.len(), d);
        let d1 = choose|e: D| #[trigger] goes(t, c.run, g.out, d, g2.out, e);
        label_passes(c, t, g4.out, top, d1);
        goes_on(t, c.run, g.out, d, g2.out, d1, g5.out, d1);
    }
    assert forall|d: D|
        #![trigger comes(t, c.run, gen_stmts(g9, env, body, body.len()).out, d, g5.out)]
        comes(t, c.run, gen_stmts(g9, env, body, body.len()).out, d, g5.out) by {
        jump_goes(c, t, g11.out, top, g4.out, d);
    }
    assert forall|d: D| #[trigger] comes(t, c.run, g5.out, d, g5.out) by {
        goes_nowhere(t, c.run, g5.out, d);
    }
    assert forall|b: Asm, d: D|
        b.loops == g9.loops && (#[trigger] gen_stmt(b, env, StmtView::Break)).out.is_prefix_of(
            t,
        ) implies #[trigger] comes(t, c.run, b.out, d, h.out) by {
        exit_text(b, env);
        jump_goes(c, t, b.out, end, tail, d);
        assert(comes(t, c.run, g12.out, d, h.out));
        comes_on(t, c.run, b.out, d, g12.out, d, h.out);
    }
    assert forall|b: Asm, d: D|
        b.loops == g9.loops && (#[trigger] gen_stmt(b, env, StmtView::Continue)).out.is_prefix_of(
            t,
        ) implies #[trigger] goes(t, c.run, b.out, d, g5.out, d) by {
        exit_text(b, env);
        jump_goes(c, t, b.out, top, g4.out, d);
    }
    let q = decision(g5, env, cond);
    assert forall|d: D| says_yes(c, env, cond, d) implies #[trigger] comes(
        t,
        c.run,
        q,
        d,
        g9.out,
    ) by {
        condition_branches(c, t, g5, env, cond, end, tail, d);
        let d1 = choose|e: D| #[trigger] goes(t, c.run, q, d, g6.out, e);
        if !no_alloc_block(body) {
            poll_passes(c, t, g6, d1);
        } else {
            goes_nowhere(t, c.run, g6.out, d1);
        }
        comes_on(t, c.run, q, d, g6.out, d1, g9.out);
    }
    assert forall|d: D| !says_yes(c, env, cond, d) implies #[trigger] comes(
        t,
        c.run,
        q,
        d,
        h.out,
    ) by {
        condition_branches(c, t, g5, env, cond, end, tail, d);
        let d1 = choose|e: D| #[trigger] goes(t, c.run, q, d, g12.out, e);
        assert(comes(t, c.run, g12.out, d1, h.out));
        comes_on(t, c.run, q, d, g12.out, d1, h.out);
    }
    (g5, g9)
}

/// The law of `while`: its code hangs together as a loop.
pub proof fn while_code<D>(
    c: Cpu<D>,
    t: Seq<char>,
    g: Asm,
    env: FnEnv,
    cond: ExprView,
    body: Seq<StmtView>
)
    requires
        x86(c),
        once(t),
        gen_stmt(g, env, StmtView::While { cond, body }).out.is_prefix_of(t),
    ensures
        exists|test: Asm, start: Asm| #[trigger]
            while_hangs(c, t, g, env, cond, body, test, start),
{
    let (test, start) = while_parts(c, t, g, env, cond, body);
}

/// Generating a block leaves the stack of loops as it was, at every statement of it: a loop
/// inside is over when the next statement is generated.
pub proof fn loops_are_nested(g: Asm, env: FnEnv, s: Seq<StmtView>, k: nat)
    requires
        k <= s.len(),
    ensures
        gen_stmts(g, env, s, k).loops == g.loops,
        g.out.is_prefix_of(gen_stmts(g, env, s, k).out),
{
    kept_self(g);
    gen_stmts_kept(g, g, env, s, k);
    reveal(kept);
}

} // verus!
