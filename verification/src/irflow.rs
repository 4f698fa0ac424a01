//! Where control goes in the code of the LLVM back end, and which values it leaves: `and`
//! and `or`, conditional expressions, branches, loops, `break` and `continue`. The laws hold
//! of every machine that runs branches, labels, stores and loads as LLVM does.

use crate::ast::{BinOp, ExprView, StmtView};
use crate::coderun::{
    comes, comes_on, flat, goes, goes_nowhere, goes_on, jumps, line_joined, lined, once, part_of,
    passes, Run,
};
use crate::irexpr::{gc_poll, gen_binary, gen_expr, gen_truthy, loop_step};
use crate::irkeep::{
    gen_expr_kept, gen_stmt_grown, gen_stmts_grown, gen_truthy_kept, grown, grown_self, kept,
    kept_self, label_word, pushed, register_word, word,
};
use crate::irstate::{stmts_alloc, Ir, IrEnvView, IrLoopView};
use crate::irstmt::{gen_stmt, gen_stmts};
use vstd::prelude::*;

verus! {

/// A machine that runs LLVM code: what its lines do, what an operand is worth, what a slot
/// holds, which values the runtime takes for true, what its functions of two values give, and the
/// boxed truth values.
#[verifier::reject_recursive_types(D)]
pub struct Vm<D> {
    pub run: Run<D>,
    pub val: spec_fn(Seq<char>, D) -> int,
    pub mem: spec_fn(Seq<char>, D) -> int,
    pub truthy: spec_fn(int) -> bool,
    pub rt: spec_fn(Seq<char>, int, int) -> int,
    pub boxed: spec_fn(bool) -> int,
}

pub open spec fn br_line(l: Seq<char>) -> Seq<char> {
    "  br label %"@ + l
}

pub open spec fn cbr_line(c: Seq<char>, x: Seq<char>, y: Seq<char>) -> Seq<char> {
    "  br i1 "@ + c + ", label %"@ + x + ", label %"@ + y
}

pub open spec fn name_line(l: Seq<char>) -> Seq<char> {
    l + ":"@
}

pub open spec fn alloca_line(s: Seq<char>) -> Seq<char> {
    "  "@ + s + " = alloca i64"@
}

pub open spec fn store_line(x: Seq<char>, s: Seq<char>) -> Seq<char> {
    "  store i64 "@ + x + ", ptr "@ + s
}

pub open spec fn load_line(r: Seq<char>, s: Seq<char>) -> Seq<char> {
    "  "@ + r + " = load i64, ptr "@ + s
}

pub open spec fn truthy_line(r: Seq<char>, x: Seq<char>) -> Seq<char> {
    "  "@ + r + " = call i32 @lumen_truthy(i64 "@ + x + ")"@
}

pub open spec fn test_line(r: Seq<char>, x: Seq<char>) -> Seq<char> {
    "  "@ + r + " = icmp ne i32 "@ + x + ", 0"@
}

pub open spec fn full_line(r: Seq<char>, x: Seq<char>) -> Seq<char> {
    "  "@ + r + " = icmp sge i64 "@ + x + ", 512"@
}

pub open spec fn add_line(r: Seq<char>, x: Seq<char>) -> Seq<char> {
    "  "@ + r + " = add i64 "@ + x + ", 1"@
}

pub open spec fn less_line(r: Seq<char>, x: Seq<char>, y: Seq<char>) -> Seq<char> {
    "  "@ + r + " = icmp slt i64 "@ + x + ", "@ + y
}

pub open spec fn box_line(r: Seq<char>, x: Seq<char>) -> Seq<char> {
    "  "@ + r + " = call i64 @lumen_from_int(i64 "@ + x + ")"@
}

/// Whether a machine branches, stores and loads as LLVM code does.
pub open spec fn llvm<D>(m: Vm<D>) -> bool {
    &&& forall|l: Seq<char>, d: D|
        word(l) ==> #[trigger] (m.run)(br_line(l), d) == (d, Some(l))
    &&& forall|c: Seq<char>, a: Seq<char>, b: Seq<char>, d: D|
        word(c) && word(a) && word(b) ==> #[trigger] (m.run)(cbr_line(c, a, b), d) == (
            d,
            Some(if (m.val)(c, d) != 0 {
                a
            } else {
                b
            })
        )
    &&& forall|l: Seq<char>, d: D|
        word(l) ==> #[trigger] (m.run)(name_line(l), d) == (d, None::<Seq<char>>)
    &&& forall|s: Seq<char>, d: D| word(s) ==> (#[trigger] (m.run)(alloca_line(s), d)).1 is None
    &&& forall|x: Seq<char>, s: Seq<char>, d: D|
        word(x) && word(s) ==> stored(m, x, s, d, #[trigger] (m.run)(store_line(x, s), d))
    &&& forall|r: Seq<char>, s: Seq<char>, d: D|
        word(r) && word(s) ==> loaded(m, r, s, d, #[trigger] (m.run)(load_line(r, s), d))
    &&& forall|r: Seq<char>, x: Seq<char>, d: D|
        word(r) && word(x) ==> asked(
            m,
            r,
            (m.truthy)((m.val)(x, d)),
            d,
            #[trigger] (m.run)(truthy_line(r, x), d),
        )
    &&& forall|r: Seq<char>, x: Seq<char>, d: D|
        word(r) && word(x) ==> asked(
            m,
            r,
            (m.val)(x, d) != 0,
            d,
            #[trigger] (m.run)(test_line(r, x), d),
        )
    &&& forall|r: Seq<char>, x: Seq<char>, d: D|
        word(r) && word(x) ==> (#[trigger] (m.run)(full_line(r, x), d)).1 is None
    &&& forall|d: D| (#[trigger] (m.run)("  call void @lumen_gc_collect()"@, d)).1 is None
    &&& forall|r: Seq<char>, x: Seq<char>, d: D|
        word(r) && word(x) && (m.val)(x, d) < 0x7fff_ffff_ffff_ffff ==> added(
            m,
            r,
            (m.val)(x, d),
            d,
            #[trigger] (m.run)(add_line(r, x), d),
        )
    &&& forall|r: Seq<char>, x: Seq<char>, d: D|
        word(r) && word(x) ==> (#[trigger] (m.run)(add_line(r, x), d)).1 is None
    &&& forall|r: Seq<char>, x: Seq<char>, y: Seq<char>, d: D|
        word(r) && word(x) && word(y) ==> asked(
            m,
            r,
            (m.val)(x, d) < (m.val)(y, d),
            d,
            #[trigger] (m.run)(less_line(r, x, y), d),
        )
    &&& forall|r: Seq<char>, x: Seq<char>, d: D|
        word(r) && word(x) ==> (#[trigger] (m.run)(box_line(r, x), d)).1 is None
}

/// A store goes on, and the slot holds the value.
pub open spec fn stored<D>(
    m: Vm<D>,
    x: Seq<char>,
    s: Seq<char>,
    d: D,
    r: (D, Option<Seq<char>>)
) -> bool {
    &&& r.1 is None
    &&& (m.mem)(s, r.0) == (m.val)(x, d)
    &&& forall|y: Seq<char>| #[trigger] (m.val)(y, r.0) == (m.val)(y, d)
}

/// A load goes on, and the register has what the slot holds; nothing else changes.
pub open spec fn loaded<D>(
    m: Vm<D>,
    x: Seq<char>,
    s: Seq<char>,
    d: D,
    r: (D, Option<Seq<char>>)
) -> bool {
    &&& r.1 is None
    &&& (m.val)(x, r.0) == (m.mem)(s, d)
    &&& forall|y: Seq<char>| y != x ==> #[trigger] (m.val)(y, r.0) == (m.val)(y, d)
    &&& forall|u: Seq<char>| #[trigger] (m.mem)(u, r.0) == (m.mem)(u, d)
}

/// One more: the register has the value and one, and the slots stay.
pub open spec fn added<D>(
    m: Vm<D>,
    x: Seq<char>,
    n: int,
    d: D,
    r: (D, Option<Seq<char>>)
) -> bool {
    &&& r.1 is None
    &&& (m.val)(x, r.0) == n + 1
    &&& forall|u: Seq<char>| #[trigger] (m.mem)(u, r.0) == (m.mem)(u, d)
}

/// A question goes on, the register has the answer, and the slots stay.
pub open spec fn asked<D>(
    m: Vm<D>,
    x: Seq<char>,
    yes: bool,
    d: D,
    r: (D, Option<Seq<char>>)
) -> bool {
    &&& r.1 is None
    &&& ((m.val)(x, r.0) != 0) == yes
    &&& forall|s: Seq<char>| #[trigger] (m.mem)(s, r.0) == (m.mem)(s, d)
}

pub(crate) proof fn word_flat(s: Seq<char>)
    requires
        word(s),
    ensures
        flat(s),
{
    reveal(word);
}

proof fn br_line_text(a: Seq<char>, l: Seq<char>)
    requires
        word(l),
    ensures
        flat(br_line(l)),
        a + "  br label %"@ + l + "\n"@ == a + br_line(l) + "\n"@,
{
    reveal_strlit("  br label %");
    reveal_strlit("\n");
    reveal(word);
    let w = br_line(l);
    assert forall|i: int| 0 <= i < w.len() implies #[trigger] w[i] != '\n' by {
        if i < "  br label %"@.len() {
            assert(w[i] == "  br label %"@[i - (0)]);
        }         else if i < "  br label %"@.len() + l.len() {
            assert(w[i] == l[i - ("  br label %"@.len())]);
        }
    }
    assert(a + "  br label %"@ + l + "\n"@ =~= a + w + "\n"@);
}

proof fn cbr_line_text(a: Seq<char>, c: Seq<char>, x: Seq<char>, y: Seq<char>)
    requires
        word(c),
        word(x),
        word(y),
    ensures
        flat(cbr_line(c, x, y)),
        a + "  br i1 "@ + c + ", label %"@ + x + ", label %"@ + y + "\n"@ == a + cbr_line(c, x, y)
            + "\n"@,
{
    reveal_strlit("  br i1 ");
    reveal_strlit(", label %");
    reveal_strlit("\n");
    reveal(word);
    let w = cbr_line(c, x, y);
    assert forall|i: int| 0 <= i < w.len() implies #[trigger] w[i] != '\n' by {
        if i < "  br i1 "@.len() {
            assert(w[i] == "  br i1 "@[i - (0)]);
        }         else if i < "  br i1 "@.len() + c.len() {
            assert(w[i] == c[i - ("  br i1 "@.len())]);
        }         else if i < "  br i1 "@.len() + c.len() + ", label %"@.len() {
            assert(w[i] == ", label %"@[i - ("  br i1 "@.len() + c.len())]);
        }         else if i < "  br i1 "@.len() + c.len() + ", label %"@.len() + x.len() {
            assert(w[i] == x[i - ("  br i1 "@.len() + c.len() + ", label %"@.len())]);
        }         else if i < "  br i1 "@.len() + c.len() + ", label %"@.len() + x.len() + ", label %"@.len() {
            assert(
                w[i] == ", label %"@[i - ("  br i1 "@.len() + c.len() + ", label %"@.len() + x.len())]
            );
        }         else if i < "  br i1 "@.len() + c.len() + ", label %"@.len() + x.len() + ", label %"@.len() + y.len() {
            assert(
                w[i] == y[i - ("  br i1 "@.len() + c.len() + ", label %"@.len() + x.len() + ", label %"@.len())]
            );
        }
    }
    assert(a + "  br i1 "@ + c + ", label %"@ + x + ", label %"@ + y + "\n"@ =~= a + w + "\n"@);
}

proof fn alloca_line_text(a: Seq<char>, s: Seq<char>)
    requires
        word(s),
    ensures
        flat(alloca_line(s)),
        a + "  "@ + s + " = alloca i64\n"@ == a + alloca_line(s) + "\n"@,
{
    reveal_strlit("  ");
    reveal_strlit(" = alloca i64");
    reveal_strlit(" = alloca i64\n");
    reveal_strlit("\n");
    reveal(word);
    let w = alloca_line(s);
    assert forall|i: int| 0 <= i < w.len() implies #[trigger] w[i] != '\n' by {
        if i < "  "@.len() {
            assert(w[i] == "  "@[i - (0)]);
        }         else if i < "  "@.len() + s.len() {
            assert(w[i] == s[i - ("  "@.len())]);
        }         else if i < "  "@.len() + s.len() + " = alloca i64"@.len() {
            assert(w[i] == " = alloca i64"@[i - ("  "@.len() + s.len())]);
        }
    }
    assert(" = alloca i64\n"@ =~= " = alloca i64"@ + "\n"@);
    assert(a + "  "@ + s + " = alloca i64\n"@ =~= a + w + "\n"@);
}

pub(crate) proof fn alloca_passes<D>(m: Vm<D>, t: Seq<char>, a: Seq<char>, s: Seq<char>, d: D)
    requires
        llvm(m),
        word(s),
        (a + "  "@ + s + " = alloca i64\n"@).is_prefix_of(t),
    ensures
        goes(t, m.run, a, d, a + "  "@ + s + " = alloca i64\n"@, (m.run)(alloca_line(s), d).0),
{
    alloca_line_text(a, s);
    let done = (m.run)(alloca_line(s), d);
    assert(done.1 is None);
    passes(t, m.run, a, alloca_line(s), d);
}

proof fn store_line_text(a: Seq<char>, x: Seq<char>, s: Seq<char>)
    requires
        word(x),
        word(s),
    ensures
        flat(store_line(x, s)),
        a + "  store i64 "@ + x + ", ptr "@ + s + "\n"@ == a + store_line(x, s) + "\n"@,
{
    reveal_strlit("  store i64 ");
    reveal_strlit(", ptr ");
    reveal_strlit("\n");
    reveal(word);
    let w = store_line(x, s);
    assert forall|i: int| 0 <= i < w.len() implies #[trigger] w[i] != '\n' by {
        if i < "  store i64 "@.len() {
            assert(w[i] == "  store i64 "@[i - (0)]);
        }         else if i < "  store i64 "@.len() + x.len() {
            assert(w[i] == x[i - ("  store i64 "@.len())]);
        }         else if i < "  store i64 "@.len() + x.len() + ", ptr "@.len() {
            assert(w[i] == ", ptr "@[i - ("  store i64 "@.len() + x.len())]);
        }         else if i < "  store i64 "@.len() + x.len() + ", ptr "@.len() + s.len() {
            assert(w[i] == s[i - ("  store i64 "@.len() + x.len() + ", ptr "@.len())]);
        }
    }
    assert(a + "  store i64 "@ + x + ", ptr "@ + s + "\n"@ =~= a + w + "\n"@);
}

pub(crate) proof fn store_passes<D>(m: Vm<D>, t: Seq<char>, a: Seq<char>, x: Seq<char>, s: Seq<char>, d: D)
    requires
        llvm(m),
        word(x),
        word(s),
        (a + "  store i64 "@ + x + ", ptr "@ + s + "\n"@).is_prefix_of(t),
    ensures
        goes(
            t,
            m.run,
            a,
            d,
            a + "  store i64 "@ + x + ", ptr "@ + s + "\n"@,
            (m.run)(store_line(x, s), d).0,
        ),
{
    store_line_text(a, x, s);
    let done = (m.run)(store_line(x, s), d);
    assert(done.1 is None);
    passes(t, m.run, a, store_line(x, s), d);
}

proof fn load_line_text(a: Seq<char>, r: Seq<char>, s: Seq<char>)
    requires
        word(r),
        word(s),
    ensures
        flat(load_line(r, s)),
        a + "  "@ + r + " = load i64, ptr "@ + s + "\n"@ == a + load_line(r, s) + "\n"@,
{
    reveal_strlit("  ");
    reveal_strlit(" = load i64, ptr ");
    reveal_strlit("\n");
    reveal(word);
    let w = load_line(r, s);
    assert forall|i: int| 0 <= i < w.len() implies #[trigger] w[i] != '\n' by {
        if i < "  "@.len() {
            assert(w[i] == "  "@[i - (0)]);
        }         else if i < "  "@.len() + r.len() {
            assert(w[i] == r[i - ("  "@.len())]);
        }         else if i < "  "@.len() + r.len() + " = load i64, ptr "@.len() {
            assert(w[i] == " = load i64, ptr "@[i - ("  "@.len() + r.len())]);
        }         else if i < "  "@.len() + r.len() + " = load i64, ptr "@.len() + s.len() {
            assert(w[i] == s[i - ("  "@.len() + r.len() + " = load i64, ptr "@.len())]);
        }
    }
    assert(a + "  "@ + r + " = load i64, ptr "@ + s + "\n"@ =~= a + w + "\n"@);
}

proof fn load_passes<D>(m: Vm<D>, t: Seq<char>, a: Seq<char>, r: Seq<char>, s: Seq<char>, d: D)
    requires
        llvm(m),
        word(r),
        word(s),
        (a + "  "@ + r + " = load i64, ptr "@ + s + "\n"@).is_prefix_of(t),
    ensures
        goes(
            t,
            m.run,
            a,
            d,
            a + "  "@ + r + " = load i64, ptr "@ + s + "\n"@,
            (m.run)(load_line(r, s), d).0,
        ),
{
    load_line_text(a, r, s);
    let done = (m.run)(load_line(r, s), d);
    assert(done.1 is None);
    passes(t, m.run, a, load_line(r, s), d);
}

proof fn truthy_line_text(a: Seq<char>, r: Seq<char>, x: Seq<char>)
    requires
        word(r),
        word(x),
    ensures
        flat(truthy_line(r, x)),
        a + "  "@ + r + " = call i32 @lumen_truthy(i64 "@ + x + ")\n"@ == a + truthy_line(r, x)
            + "\n"@,
{
    reveal_strlit("  ");
    reveal_strlit(" = call i32 @lumen_truthy(i64 ");
    reveal_strlit(")");
    reveal_strlit(")\n");
    reveal_strlit("\n");
    reveal(word);
    let w = truthy_line(r, x);
    assert forall|i: int| 0 <= i < w.len() implies #[trigger] w[i] != '\n' by {
        if i < "  "@.len() {
            assert(w[i] == "  "@[i - (0)]);
        }         else if i < "  "@.len() + r.len() {
            assert(w[i] == r[i - ("  "@.len())]);
        }         else if i < "  "@.len() + r.len() + " = call i32 @lumen_truthy(i64 "@.len() {
            assert(w[i] == " = call i32 @lumen_truthy(i64 "@[i - ("  "@.len() + r.len())]);
        }         else if i < "  "@.len() + r.len() + " = call i32 @lumen_truthy(i64 "@.len() + x.len() {
            assert(
                w[i] == x[i - ("  "@.len() + r.len() + " = call i32 @lumen_truthy(i64 "@.len())]
            );
        }         else if i < "  "@.len() + r.len() + " = call i32 @lumen_truthy(i64 "@.len() + x.len() + ")"@.len() {
            assert(
                w[i] == ")"@[i - ("  "@.len() + r.len() + " = call i32 @lumen_truthy(i64 "@.len() + x.len())]
            );
        }
    }
    assert(")\n"@ =~= ")"@ + "\n"@);
    assert(a + "  "@ + r + " = call i32 @lumen_truthy(i64 "@ + x + ")\n"@ =~= a + w + "\n"@);
}

pub(crate) proof fn truthy_passes<D>(m: Vm<D>, t: Seq<char>, a: Seq<char>, r: Seq<char>, x: Seq<char>, d: D)
    requires
        llvm(m),
        word(r),
        word(x),
        (a + "  "@ + r + " = call i32 @lumen_truthy(i64 "@ + x + ")\n"@).is_prefix_of(t),
    ensures
        goes(
            t,
            m.run,
            a,
            d,
            a + "  "@ + r + " = call i32 @lumen_truthy(i64 "@ + x + ")\n"@,
            (m.run)(truthy_line(r, x), d).0,
        ),
{
    truthy_line_text(a, r, x);
    let done = (m.run)(truthy_line(r, x), d);
    assert(done.1 is None);
    passes(t, m.run, a, truthy_line(r, x), d);
}

proof fn test_line_text(a: Seq<char>, r: Seq<char>, x: Seq<char>)
    requires
        word(r),
        word(x),
    ensures
        flat(test_line(r, x)),
        a + "  "@ + r + " = icmp ne i32 "@ + x + ", 0\n"@ == a + test_line(r, x) + "\n"@,
{
    reveal_strlit("  ");
    reveal_strlit(" = icmp ne i32 ");
    reveal_strlit(", 0");
    reveal_strlit(", 0\n");
    reveal_strlit("\n");
    reveal(word);
    let w = test_line(r, x);
    assert forall|i: int| 0 <= i < w.len() implies #[trigger] w[i] != '\n' by {
        if i < "  "@.len() {
            assert(w[i] == "  "@[i - (0)]);
        }         else if i < "  "@.len() + r.len() {
            assert(w[i] == r[i - ("  "@.len())]);
        }         else if i < "  "@.len() + r.len() + " = icmp ne i32 "@.len() {
            assert(w[i] == " = icmp ne i32 "@[i - ("  "@.len() + r.len())]);
        }         else if i < "  "@.len() + r.len() + " = icmp ne i32 "@.len() + x.len() {
            assert(w[i] == x[i - ("  "@.len() + r.len() + " = icmp ne i32 "@.len())]);
        }         else if i < "  "@.len() + r.len() + " = icmp ne i32 "@.len() + x.len() + ", 0"@.len() {
            assert(
                w[i] == ", 0"@[i - ("  "@.len() + r.len() + " = icmp ne i32 "@.len() + x.len())]
            );
        }
    }
    assert(", 0\n"@ =~= ", 0"@ + "\n"@);
    assert(a + "  "@ + r + " = icmp ne i32 "@ + x + ", 0\n"@ =~= a + w + "\n"@);
}

proof fn test_passes<D>(m: Vm<D>, t: Seq<char>, a: Seq<char>, r: Seq<char>, x: Seq<char>, d: D)
    requires
        llvm(m),
        word(r),
        word(x),
        (a + "  "@ + r + " = icmp ne i32 "@ + x + ", 0\n"@).is_prefix_of(t),
    ensures
        goes(
            t,
            m.run,
            a,
            d,
            a + "  "@ + r + " = icmp ne i32 "@ + x + ", 0\n"@,
            (m.run)(test_line(r, x), d).0,
        ),
{
    test_line_text(a, r, x);
    let done = (m.run)(test_line(r, x), d);
    assert(done.1 is None);
    passes(t, m.run, a, test_line(r, x), d);
}

proof fn full_line_text(a: Seq<char>, r: Seq<char>, x: Seq<char>)
    requires
        word(r),
        word(x),
    ensures
        flat(full_line(r, x)),
        a + "  "@ + r + " = icmp sge i64 "@ + x + ", 512\n"@ == a + full_line(r, x) + "\n"@,
{
    reveal_strlit("  ");
    reveal_strlit(" = icmp sge i64 ");
    reveal_strlit(", 512");
    reveal_strlit(", 512\n");
    reveal_strlit("\n");
    reveal(word);
    let w = full_line(r, x);
    assert forall|i: int| 0 <= i < w.len() implies #[trigger] w[i] != '\n' by {
        if i < "  "@.len() {
            assert(w[i] == "  "@[i - (0)]);
        }         else if i < "  "@.len() + r.len() {
            assert(w[i] == r[i - ("  "@.len())]);
        }         else if i < "  "@.len() + r.len() + " = icmp sge i64 "@.len() {
            assert(w[i] == " = icmp sge i64 "@[i - ("  "@.len() + r.len())]);
        }         else if i < "  "@.len() + r.len() + " = icmp sge i64 "@.len() + x.len() {
            assert(w[i] == x[i - ("  "@.len() + r.len() + " = icmp sge i64 "@.len())]);
        }         else if i < "  "@.len() + r.len() + " = icmp sge i64 "@.len() + x.len() + ", 512"@.len() {
            assert(
                w[i] == ", 512"@[i - ("  "@.len() + r.len() + " = icmp sge i64 "@.len() + x.len())]
            );
        }
    }
    assert(", 512\n"@ =~= ", 512"@ + "\n"@);
    assert(a + "  "@ + r + " = icmp sge i64 "@ + x + ", 512\n"@ =~= a + w + "\n"@);
}

proof fn full_passes<D>(m: Vm<D>, t: Seq<char>, a: Seq<char>, r: Seq<char>, x: Seq<char>, d: D)
    requires
        llvm(m),
        word(r),
        word(x),
        (a + "  "@ + r + " = icmp sge i64 "@ + x + ", 512\n"@).is_prefix_of(t),
    ensures
        goes(
            t,
            m.run,
            a,
            d,
            a + "  "@ + r + " = icmp sge i64 "@ + x + ", 512\n"@,
            (m.run)(full_line(r, x), d).0,
        ),
{
    full_line_text(a, r, x);
    let done = (m.run)(full_line(r, x), d);
    assert(done.1 is None);
    passes(t, m.run, a, full_line(r, x), d);
}

proof fn add_line_text(a: Seq<char>, r: Seq<char>, x: Seq<char>)
    requires
        word(r),
        word(x),
    ensures
        flat(add_line(r, x)),
        a + "  "@ + r + " = add i64 "@ + x + ", 1\n"@ == a + add_line(r, x) + "\n"@,
{
    reveal_strlit("  ");
    reveal_strlit(" = add i64 ");
    reveal_strlit(", 1");
    reveal_strlit(", 1\n");
    reveal_strlit("\n");
    reveal(word);
    let w = add_line(r, x);
    assert forall|i: int| 0 <= i < w.len() implies #[trigger] w[i] != '\n' by {
        if i < "  "@.len() {
            assert(w[i] == "  "@[i - (0)]);
        }         else if i < "  "@.len() + r.len() {
            assert(w[i] == r[i - ("  "@.len())]);
        }         else if i < "  "@.len() + r.len() + " = add i64 "@.len() {
            assert(w[i] == " = add i64 "@[i - ("  "@.len() + r.len())]);
        }         else if i < "  "@.len() + r.len() + " = add i64 "@.len() + x.len() {
            assert(w[i] == x[i - ("  "@.len() + r.len() + " = add i64 "@.len())]);
        }         else if i < "  "@.len() + r.len() + " = add i64 "@.len() + x.len() + ", 1"@.len() {
            assert(w[i] == ", 1"@[i - ("  "@.len() + r.len() + " = add i64 "@.len() + x.len())]);
        }
    }
    assert(", 1\n"@ =~= ", 1"@ + "\n"@);
    assert(a + "  "@ + r + " = add i64 "@ + x + ", 1\n"@ =~= a + w + "\n"@);
}

proof fn add_passes<D>(m: Vm<D>, t: Seq<char>, a: Seq<char>, r: Seq<char>, x: Seq<char>, d: D)
    requires
        llvm(m),
        word(r),
        word(x),
        (a + "  "@ + r + " = add i64 "@ + x + ", 1\n"@).is_prefix_of(t),
    ensures
        goes(
            t,
            m.run,
            a,
            d,
            a + "  "@ + r + " = add i64 "@ + x + ", 1\n"@,
            (m.run)(add_line(r, x), d).0,
        ),
{
    add_line_text(a, r, x);
    let done = (m.run)(add_line(r, x), d);
    assert(done.1 is None);
    passes(t, m.run, a, add_line(r, x), d);
}

proof fn less_line_text(a: Seq<char>, r: Seq<char>, x: Seq<char>, y: Seq<char>)
    requires
        word(r),
        word(x),
        word(y),
    ensures
        flat(less_line(r, x, y)),
        a + "  "@ + r + " = icmp slt i64 "@ + x + ", "@ + y + "\n"@ == a + less_line(r, x, y)
            + "\n"@,
{
    reveal_strlit("  ");
    reveal_strlit(" = icmp slt i64 ");
    reveal_strlit(", ");
    reveal_strlit("\n");
    reveal(word);
    let w = less_line(r, x, y);
    assert forall|i: int| 0 <= i < w.len() implies #[trigger] w[i] != '\n' by {
        if i < "  "@.len() {
            assert(w[i] == "  "@[i - (0)]);
        }         else if i < "  "@.len() + r.len() {
            assert(w[i] == r[i - ("  "@.len())]);
        }         else if i < "  "@.len() + r.len() + " = icmp slt i64 "@.len() {
            assert(w[i] == " = icmp slt i64 "@[i - ("  "@.len() + r.len())]);
        }         else if i < "  "@.len() + r.len() + " = icmp slt i64 "@.len() + x.len() {
            assert(w[i] == x[i - ("  "@.len() + r.len() + " = icmp slt i64 "@.len())]);
        }         else if i < "  "@.len() + r.len() + " = icmp slt i64 "@.len() + x.len() + ", "@.len() {
            assert(
                w[i] == ", "@[i - ("  "@.len() + r.len() + " = icmp slt i64 "@.len() + x.len())]
            );
        }         else if i < "  "@.len() + r.len() + " = icmp slt i64 "@.len() + x.len() + ", "@.len() + y.len() {
            assert(
                w[i] == y[i - ("  "@.len() + r.len() + " = icmp slt i64 "@.len() + x.len() + ", "@.len())]
            );
        }
    }
    assert(a + "  "@ + r + " = icmp slt i64 "@ + x + ", "@ + y + "\n"@ =~= a + w + "\n"@);
}

proof fn less_passes<D>(
    m: Vm<D>,
    t: Seq<char>,
    a: Seq<char>,
    r: Seq<char>,
    x: Seq<char>,
    y: Seq<char>,
    d: D
)
    requires
        llvm(m),
        word(r),
        word(x),
        word(y),
        (a + "  "@ + r + " = icmp slt i64 "@ + x + ", "@ + y + "\n"@).is_prefix_of(t),
    ensures
        goes(
            t,
            m.run,
            a,
            d,
            a + "  "@ + r + " = icmp slt i64 "@ + x + ", "@ + y + "\n"@,
            (m.run)(less_line(r, x, y), d).0,
        ),
{
    less_line_text(a, r, x, y);
    let done = (m.run)(less_line(r, x, y), d);
    assert(done.1 is None);
    passes(t, m.run, a, less_line(r, x, y), d);
}

proof fn box_line_text(a: Seq<char>, r: Seq<char>, x: Seq<char>)
    requires
        word(r),
        word(x),
    ensures
        flat(box_line(r, x)),
        a + "  "@ + r + " = call i64 @lumen_from_int(i64 "@ + x + ")\n"@ == a + box_line(r, x)
            + "\n"@,
{
    reveal_strlit("  ");
    reveal_strlit(" = call i64 @lumen_from_int(i64 ");
    reveal_strlit(")");
    reveal_strlit(")\n");
    reveal_strlit("\n");
    reveal(word);
    let w = box_line(r, x);
    assert forall|i: int| 0 <= i < w.len() implies #[trigger] w[i] != '\n' by {
        if i < "  "@.len() {
            assert(w[i] == "  "@[i - (0)]);
        }         else if i < "  "@.len() + r.len() {
            assert(w[i] == r[i - ("  "@.len())]);
        }         else if i < "  "@.len() + r.len() + " = call i64 @lumen_from_int(i64 "@.len() {
            assert(w[i] == " = call i64 @lumen_from_int(i64 "@[i - ("  "@.len() + r.len())]);
        }         else if i < "  "@.len() + r.len() + " = call i64 @lumen_from_int(i64 "@.len() + x.len() {
            assert(
                w[i] == x[i - ("  "@.len() + r.len() + " = call i64 @lumen_from_int(i64 "@.len())]
            );
        }         else if i < "  "@.len() + r.len() + " = call i64 @lumen_from_int(i64 "@.len() + x.len() + ")"@.len() {
            assert(
                w[i] == ")"@[i - ("  "@.len() + r.len() + " = call i64 @lumen_from_int(i64 "@.len() + x.len())]
            );
        }
    }
    assert(")\n"@ =~= ")"@ + "\n"@);
    assert(a + "  "@ + r + " = call i64 @lumen_from_int(i64 "@ + x + ")\n"@ =~= a + w + "\n"@);
}

proof fn box_passes<D>(m: Vm<D>, t: Seq<char>, a: Seq<char>, r: Seq<char>, x: Seq<char>, d: D)
    requires
        llvm(m),
        word(r),
        word(x),
        (a + "  "@ + r + " = call i64 @lumen_from_int(i64 "@ + x + ")\n"@).is_prefix_of(t),
    ensures
        goes(
            t,
            m.run,
            a,
            d,
            a + "  "@ + r + " = call i64 @lumen_from_int(i64 "@ + x + ")\n"@,
            (m.run)(box_line(r, x), d).0,
        ),
{
    box_line_text(a, r, x);
    let done = (m.run)(box_line(r, x), d);
    assert(done.1 is None);
    passes(t, m.run, a, box_line(r, x), d);
}

pub(crate) proof fn name_passes<D>(m: Vm<D>, t: Seq<char>, a: Seq<char>, l: Seq<char>, d: D)
    requires
        llvm(m),
        word(l),
        (a + l + ":\n"@).is_prefix_of(t),
    ensures
        goes(t, m.run, a, d, a + l + ":\n"@, d),
{
    reveal_strlit(":");
    reveal(word);
    let s = name_line(l);
    line_joined(a, l);
    assert((m.run)(s, d) == (d, None::<Seq<char>>));
    assert forall|i: int| 0 <= i < s.len() implies #[trigger] s[i] != '\n' by {
        if i < l.len() {
            assert(s[i] == l[i]);
        }
    }
    passes(t, m.run, a, s, d);
}

/// A branch goes to behind its label.
pub(crate) proof fn br_goes<D>(
    m: Vm<D>,
    t: Seq<char>,
    a: Seq<char>,
    l: Seq<char>,
    b: Seq<char>,
    d: D
)
    requires
        llvm(m),
        once(t),
        word(l),
        (a + "  br label %"@ + l + "\n"@).is_prefix_of(t),
        (b + l + ":\n"@).is_prefix_of(t),
        lined(b),
    ensures
        goes(t, m.run, a, d, b + l + ":\n"@, d),
{
    br_line_text(a, l);
    word_flat(l);
    assert((m.run)(br_line(l), d) == (d, Some(l)));
    jumps(t, m.run, a, br_line(l), d, l, b);
    name_passes(m, t, b, l, d);
    goes_on(t, m.run, a, d, b, d, b + l + ":\n"@, d);
}

/// A conditional branch goes to behind the one label or the other.
pub(crate) proof fn cbr_goes<D>(
    m: Vm<D>,
    t: Seq<char>,
    a: Seq<char>,
    c: Seq<char>,
    x: Seq<char>,
    y: Seq<char>,
    l: Seq<char>,
    b: Seq<char>,
    d: D
)
    requires
        llvm(m),
        once(t),
        word(c),
        word(x),
        word(y),
        (a + "  br i1 "@ + c + ", label %"@ + x + ", label %"@ + y + "\n"@).is_prefix_of(t),
        l == (if (m.val)(c, d) != 0 {
            x
        } else {
            y
        }),
        (b + l + ":\n"@).is_prefix_of(t),
        lined(b),
    ensures
        goes(t, m.run, a, d, b + l + ":\n"@, d),
{
    cbr_line_text(a, c, x, y);
    word_flat(l);
    assert((m.run)(cbr_line(c, x, y), d) == (d, Some(l)));
    jumps(t, m.run, a, cbr_line(c, x, y), d, l, b);
    name_passes(m, t, b, l, d);
    goes_on(t, m.run, a, d, b, d, b + l + ":\n"@, d);
}

pub(crate) proof fn ends_line(a: Seq<char>)
    ensures
        lined(a + "\n"@),
        lined(a + ":\n"@),
{
    reveal_strlit("\n");
    reveal_strlit(":\n");
}

/// Control comes to behind the code of an expression, and its value is `x`.
pub open spec fn comes_with<D>(m: Vm<D>, t: Seq<char>, a: Seq<char>, d: D, h: Ir, x: int) -> bool {
    exists|e: D| #[trigger] goes(t, m.run, a, d, h.out, e) && (m.val)(h.val, e) == x
}

/// How the parts of `a and b` or `a or b` hang together. The left side is the expression
/// from `first` on, the right side the one from `second` on. Behind the left side, if its
/// value decides, control comes to the end with that value; if not, it comes to the right
/// side, and from there to the end with the value of the right side.
pub open spec fn short_hangs<D>(
    m: Vm<D>,
    t: Seq<char>,
    g: Ir,
    env: IrEnvView,
    op: BinOp,
    lhs: ExprView,
    rhs: ExprView,
    first: Ir,
    second: Ir
) -> bool {
    let h = gen_expr(g, env, ExprView::Binary { op, lhs: Box::new(lhs), rhs: Box::new(rhs) });
    let l = gen_expr(first, env, lhs);
    let r = gen_expr(second, env, rhs);
    &&& forall|d: D| #[trigger] comes(t, m.run, g.out, d, first.out)
    &&& forall|d: D|
        (m.truthy)((m.val)(l.val, d)) == (op == BinOp::Or) ==> #[trigger] comes_with(
            m,
            t,
            l.out,
            d,
            h,
            (m.val)(l.val, d),
        )
    &&& forall|d: D|
        (m.truthy)((m.val)(l.val, d)) == (op == BinOp::And) ==> #[trigger] comes(
            t,
            m.run,
            l.out,
            d,
            second.out,
        )
    &&& forall|d: D| #[trigger] comes_with(m, t, r.out, d, h, (m.val)(r.val, d))
}

/// The texts that make up `and` and `or`, from behind the left side on.
spec fn short_head(
    a: Seq<char>,
    l: Seq<char>,
    slot: Seq<char>,
    q: Seq<char>,
    c: Seq<char>,
) -> Seq<char> {
    a + "  store i64 "@ + l + ", ptr "@ + slot + "\n"@ + "  "@ + q
        + " = call i32 @lumen_truthy(i64 "@ + l + ")\n"@ + "  "@ + c + " = icmp ne i32 "@ + q
        + ", 0\n"@
}

/// From behind the left side to the branch: the slot holds its value, and the test register
/// says whether it is true.
proof fn short_head_goes<D>(
    m: Vm<D>,
    t: Seq<char>,
    a: Seq<char>,
    l: Seq<char>,
    slot: Seq<char>,
    q: Seq<char>,
    c: Seq<char>,
    d: D
) -> (e: D)
    requires
        llvm(m),
        word(l),
        word(slot),
        word(q),
        word(c),
        short_head(a, l, slot, q, c).is_prefix_of(t),
    ensures
        goes(t, m.run, a, d, short_head(a, l, slot, q, c), e),
        (m.mem)(slot, e) == (m.val)(l, d),
        ((m.val)(c, e) != 0) == (m.truthy)((m.val)(l, d)),
{
    let b1 = a + "  store i64 "@ + l + ", ptr "@ + slot + "\n"@;
    let b2 = b1 + "  "@ + q + " = call i32 @lumen_truthy(i64 "@ + l + ")\n"@;
    let b3 = b2 + "  "@ + c + " = icmp ne i32 "@ + q + ", 0\n"@;
    assert(b3 == short_head(a, l, slot, q, c));
    assert(b2.is_prefix_of(b3) && b1.is_prefix_of(b2));
    part_of(t, b2, b3);
    part_of(t, b1, b2);
    store_passes(m, t, a, l, slot, d);
    let d1 = (m.run)(store_line(l, slot), d).0;
    assert(stored(m, l, slot, d, (m.run)(store_line(l, slot), d)));
    truthy_passes(m, t, b1, q, l, d1);
    let d2 = (m.run)(truthy_line(q, l), d1).0;
    assert(asked(m, q, (m.truthy)((m.val)(l, d1)), d1, (m.run)(truthy_line(q, l), d1)));
    test_passes(m, t, b2, c, q, d2);
    let d3 = (m.run)(test_line(c, q), d2).0;
    assert(asked(m, c, (m.val)(q, d2) != 0, d2, (m.run)(test_line(c, q), d2)));
    goes_on(t, m.run, a, d, b1, d1, b2, d2);
    goes_on(t, m.run, a, d, b2, d2, b3, d3);
    d3
}

/// The end of `and` and `or`: the slot is loaded.
pub(crate) proof fn load_ends<D>(
    m: Vm<D>,
    t: Seq<char>,
    a: Seq<char>,
    b: Seq<char>,
    h: Ir,
    slot: Seq<char>,
    d: D,
    e: D,
    x: int
)
    requires
        llvm(m),
        word(h.val),
        word(slot),
        h.out == b + "  "@ + h.val + " = load i64, ptr "@ + slot + "\n"@,
        h.out.is_prefix_of(t),
        goes(t, m.run, a, d, b, e),
        (m.mem)(slot, e) == x,
    ensures
        comes_with(m, t, a, d, h, x),
{
    load_passes(m, t, b, h.val, slot, e);
    let f = (m.run)(load_line(h.val, slot), e).0;
    assert(loaded(m, h.val, slot, e, (m.run)(load_line(h.val, slot), e)));
    goes_on(t, m.run, a, d, b, e, h.out, f);
}

pub(crate) proof fn short_labels()
    ensures
        word("sc_rhs"@),
        word("sc_end"@),
        word("wtop"@),
        word("wbody"@),
        word("wend"@),
        word("gc"@),
        word("gcskip"@),
        word("ifend"@),
        word("then"@),
        word("next"@),
        word("tern_t"@),
        word("tern_f"@),
        word("tern_e"@),
        word("ftop"@),
        word("fbody"@),
        word("fcont"@),
        word("fend"@),
{
    reveal(word);
    reveal_strlit("sc_rhs");
    reveal_strlit("sc_end");
    reveal_strlit("wtop");
    reveal_strlit("wbody");
    reveal_strlit("wend");
    reveal_strlit("gc");
    reveal_strlit("gcskip");
    reveal_strlit("ifend");
    reveal_strlit("then");
    reveal_strlit("next");
    reveal_strlit("tern_t");
    reveal_strlit("tern_f");
    reveal_strlit("tern_e");
    reveal_strlit("ftop");
    reveal_strlit("fbody");
    reveal_strlit("fcont");
    reveal_strlit("fend");
}

/// Where control goes in `and` and `or`, told of the texts of their parts.
proof fn short_flow<D>(
    m: Vm<D>,
    t: Seq<char>,
    op: BinOp,
    go: Seq<char>,
    g4: Seq<char>,
    g5: Seq<char>,
    l: Seq<char>,
    slot: Seq<char>,
    q: Seq<char>,
    c: Seq<char>,
    rhsl: Seq<char>,
    end: Seq<char>,
    g14: Seq<char>,
    g17: Seq<char>,
    g18: Seq<char>,
    rv: Seq<char>,
    g19: Seq<char>,
    g20: Seq<char>,
    g21: Seq<char>,
    h: Ir
)
    requires
        llvm(m),
        once(t),
        op == BinOp::And || op == BinOp::Or,
        word(l),
        word(slot),
        word(q),
        word(c),
        word(rhsl),
        word(end),
        word(rv),
        word(h.val),
        g4 == go + "  "@ + slot + " = alloca i64\n"@,
        g4.is_prefix_of(t),
        short_head(g5, l, slot, q, c).is_prefix_of(t),
        g14 == short_head(g5, l, slot, q, c) + "  br i1 "@ + c + ", label %"@ + (
        if op == BinOp::And {
            rhsl
        } else {
            end
        }) + ", label %"@ + (if op == BinOp::And {
            end
        } else {
            rhsl
        }) + "\n"@,
        g14.is_prefix_of(t),
        lined(g14),
        g17 == g14 + rhsl + ":\n"@,
        g17.is_prefix_of(t),
        g19 == g18 + "  store i64 "@ + rv + ", ptr "@ + slot + "\n"@,
        g19.is_prefix_of(t),
        g20 == g19 + "  br label %"@ + end + "\n"@,
        g20.is_prefix_of(t),
        lined(g20),
        g21 == g20 + end + ":\n"@,
        g21.is_prefix_of(t),
        h.out == g21 + "  "@ + h.val + " = load i64, ptr "@ + slot + "\n"@,
        h.out.is_prefix_of(t),
    ensures
        forall|d: D| #[trigger] comes(t, m.run, go, d, g4),
        forall|d: D|
            (m.truthy)((m.val)(l, d)) == (op == BinOp::Or) ==> #[trigger] comes_with(
                m,
                t,
                g5,
                d,
                h,
                (m.val)(l, d),
            ),
        forall|d: D|
            (m.truthy)((m.val)(l, d)) == (op == BinOp::And) ==> #[trigger] comes(
                t,
                m.run,
                g5,
                d,
                g17,
            ),
        forall|d: D| #[trigger] comes_with(m, t, g18, d, h, (m.val)(rv, d)),
{
    let b = short_head(g5, l, slot, q, c);
    let yes = if op == BinOp::And {
        rhsl
    } else {
        end
    };
    let no = if op == BinOp::And {
        end
    } else {
        rhsl
    };
    assert forall|d: D| #[trigger] comes(t, m.run, go, d, g4) by {
        alloca_passes(m, t, go, slot, d);
    }
    assert forall|d: D|
        (m.truthy)((m.val)(l, d)) == (op == BinOp::Or) implies #[trigger] comes_with(
        m,
        t,
        g5,
        d,
        h,
        (m.val)(l, d),
    ) by {
        let f = short_head_goes(m, t, g5, l, slot, q, c, d);
        cbr_goes(m, t, b, c, yes, no, end, g20, f);
        goes_on(t, m.run, g5, d, b, f, g21, f);
        load_ends(m, t, g5, g21, h, slot, d, f, (m.val)(l, d));
    }
    assert forall|d: D|
        (m.truthy)((m.val)(l, d)) == (op == BinOp::And) implies #[trigger] comes(
        t,
        m.run,
        g5,
        d,
        g17,
    ) by {
        let f = short_head_goes(m, t, g5, l, slot, q, c, d);
        cbr_goes(m, t, b, c, yes, no, rhsl, g14, f);
        goes_on(t, m.run, g5, d, b, f, g17, f);
    }
    assert forall|d: D| #[trigger] comes_with(m, t, g18, d, h, (m.val)(rv, d)) by {
        store_passes(m, t, g18, rv, slot, d);
        let f = (m.run)(store_line(rv, slot), d).0;
        assert(stored(m, rv, slot, d, (m.run)(store_line(rv, slot), d)));
        br_goes(m, t, g19, end, g20, f);
        goes_on(t, m.run, g18, d, g19, f, g21, f);
        load_ends(m, t, g18, g21, h, slot, d, f, (m.val)(rv, d));
    }
}

/// `and` and `or` up to their left side.
#[verifier::opaque]
spec fn short_begin(g: Ir) -> Ir {
    let (g3, slot) = g.vreg();
    g3.p("  "@).p(slot).p(" = alloca i64\n"@)
}

/// Between the sides: the state, the registers of the question and of the test, and the
/// labels.
#[verifier::opaque]
spec fn short_between(g5: Ir, slot: Seq<char>, op: BinOp) -> (
    Ir,
    Seq<char>,
    Seq<char>,
    Seq<char>,
    Seq<char>
) {
    let l = g5.val;
    let g6 = g5.p("  store i64 "@).p(l).p(", ptr "@).p(slot).p("\n"@);
    let g7 = g6.need("lumen_truthy"@, "i32 @lumen_truthy(i64)"@);
    let (g8, q) = g7.vreg();
    let g9 = g8.p("  "@).p(q).p(" = call i32 @lumen_truthy(i64 "@).p(l).p(")\n"@);
    let (g10, c) = g9.vreg();
    let g11 = g10.p("  "@).p(c).p(" = icmp ne i32 "@).p(q).p(", 0\n"@);
    let (g12, rhsl) = g11.label("sc_rhs"@);
    let (g13, end) = g12.label("sc_end"@);
    let g14 = if op == BinOp::And {
        g13.p("  br i1 "@).p(c).p(", label %"@).p(rhsl).p(", label %"@).p(end).p("\n"@)
    } else {
        g13.p("  br i1 "@).p(c).p(", label %"@).p(end).p(", label %"@).p(rhsl).p("\n"@)
    };
    (g14.p(rhsl).p(":\n"@), q, c, rhsl, end)
}

/// Behind the right side.
#[verifier::opaque]
spec fn short_end(g18: Ir, slot: Seq<char>, end: Seq<char>) -> Ir {
    let rv = g18.val;
    let g19 = g18.p("  store i64 "@).p(rv).p(", ptr "@).p(slot).p("\n"@);
    let g20 = g19.p("  br label %"@).p(end).p("\n"@);
    let g21 = g20.p(end).p(":\n"@);
    let (g22, r) = g21.vreg();
    let g23 = g22.p("  "@).p(r).p(" = load i64, ptr "@).p(slot).p("\n"@);
    g23.give(r)
}

proof fn short_shape(g: Ir, env: IrEnvView, op: BinOp, lhs: ExprView, rhs: ExprView)
    requires
        op == BinOp::And || op == BinOp::Or,
    ensures
        ({
            let slot = g.vreg().1;
            let g5 = gen_expr(short_begin(g), env, lhs);
            let (g17, _, _, _, end) = short_between(g5, slot, op);
            gen_expr(
                g,
                env,
                ExprView::Binary { op, lhs: Box::new(lhs), rhs: Box::new(rhs) },
            ) == short_end(gen_expr(g17, env, rhs), slot, end)
        }),
{
    reveal(short_begin);
    reveal(short_between);
    reveal(short_end);
    let e = ExprView::Binary { op, lhs: Box::new(lhs), rhs: Box::new(rhs) };
    assert(gen_expr(g, env, e) == gen_binary(g, env, e));
}

proof fn short_begin_text(g: Ir)
    ensures
        short_begin(g).out == g.out + "  "@ + g.vreg().1 + " = alloca i64\n"@,
        short_begin(g).val == g.val,
        word(g.vreg().1),
{
    reveal(short_begin);
    reveal(Ir::p);
    register_word(g);
    reveal(Ir::vreg);
}

proof fn short_between_text(g5: Ir, slot: Seq<char>, op: BinOp)
    ensures
        ({
            let (g17, q, c, rhsl, end) = short_between(g5, slot, op);
            let yes = if op == BinOp::And {
                rhsl
            } else {
                end
            };
            let no = if op == BinOp::And {
                end
            } else {
                rhsl
            };
            let b = short_head(g5.out, g5.val, slot, q, c);
            let g14 = b + "  br i1 "@ + c + ", label %"@ + yes + ", label %"@ + no + "\n"@;
            &&& word(q) && word(c) && word(rhsl) && word(end)
            &&& g17.out == g14 + rhsl + ":\n"@
            &&& g17.val == g5.val
            &&& lined(g14)
            &&& b.is_prefix_of(g14)
            &&& g14.is_prefix_of(g17.out)
            &&& g5.out.is_prefix_of(b)
        }),
{
    reveal(short_between);
    reveal(Ir::p);
    let l = g5.val;
    let g6 = g5.p("  store i64 "@).p(l).p(", ptr "@).p(slot).p("\n"@);
    let g7 = g6.need("lumen_truthy"@, "i32 @lumen_truthy(i64)"@);
    assert(g7.out == g6.out && g7.val == g6.val) by {
        reveal(Ir::need);
        reveal(Ir::need_line);
    }
    let (g8, q) = g7.vreg();
    register_word(g7);
    let g9 = g8.p("  "@).p(q).p(" = call i32 @lumen_truthy(i64 "@).p(l).p(")\n"@);
    let (g10, c) = g9.vreg();
    register_word(g9);
    let g11 = g10.p("  "@).p(c).p(" = icmp ne i32 "@).p(q).p(", 0\n"@);
    let (g12, rhsl) = g11.label("sc_rhs"@);
    let (g13, end) = g12.label("sc_end"@);
    short_labels();
    label_word(g11, "sc_rhs"@);
    label_word(g12, "sc_end"@);
    assert(g13.out == g11.out && g13.val == g11.val) by {
        reveal(Ir::label);
    }
    assert(g8.out == g7.out && g10.out == g9.out && g8.val == g7.val && g10.val == g9.val) by {
        reveal(Ir::vreg);
    }
    let yes = if op == BinOp::And {
        rhsl
    } else {
        end
    };
    let no = if op == BinOp::And {
        end
    } else {
        rhsl
    };
    ends_line(g13.out + "  br i1 "@ + c + ", label %"@ + yes + ", label %"@ + no);
}

proof fn short_end_text(g18: Ir, slot: Seq<char>, end: Seq<char>)
    ensures
        ({
            let h = short_end(g18, slot, end);
            let g19 = g18.out + "  store i64 "@ + g18.val + ", ptr "@ + slot + "\n"@;
            let g20 = g19 + "  br label %"@ + end + "\n"@;
            let g21 = g20 + end + ":\n"@;
            &&& h.out == g21 + "  "@ + h.val + " = load i64, ptr "@ + slot + "\n"@
            &&& word(h.val)
            &&& lined(g20)
            &&& g18.out.is_prefix_of(g19)
            &&& g19.is_prefix_of(g20)
            &&& g20.is_prefix_of(g21)
            &&& g21.is_prefix_of(h.out)
        }),
{
    reveal(short_end);
    reveal(Ir::p);
    let rv = g18.val;
    let g19 = g18.p("  store i64 "@).p(rv).p(", ptr "@).p(slot).p("\n"@);
    let g20 = g19.p("  br label %"@).p(end).p("\n"@);
    let g21 = g20.p(end).p(":\n"@);
    let (g22, r) = g21.vreg();
    register_word(g21);
    assert(g22.out == g21.out) by {
        reveal(Ir::vreg);
    }
    let g23 = g22.p("  "@).p(r).p(" = load i64, ptr "@).p(slot).p("\n"@);
    assert(g23.give(r).out == g23.out && g23.give(r).val == r) by {
        reveal(Ir::give);
    }
    ends_line(g19.out + "  br label %"@ + end);
}

/// The laws of `and` and `or`: the value of `a and b` is that of `b` where `a` is true and
/// that of `a` where it is not, and `b` is evaluated only in the first case; `or` is the
/// other way round.
pub proof fn short_code<D>(
    m: Vm<D>,
    t: Seq<char>,
    g: Ir,
    env: IrEnvView,
    op: BinOp,
    lhs: ExprView,
    rhs: ExprView
)
    requires
        llvm(m),
        once(t),
        op == BinOp::And || op == BinOp::Or,
        word(g.val),
        gen_expr(
            g,
            env,
            ExprView::Binary { op, lhs: Box::new(lhs), rhs: Box::new(rhs) },
        ).out.is_prefix_of(t),
    ensures
        exists|first: Ir, second: Ir| #[trigger]
            short_hangs(m, t, g, env, op, lhs, rhs, first, second),
{
    let h = gen_expr(g, env, ExprView::Binary { op, lhs: Box::new(lhs), rhs: Box::new(rhs) });
    let slot = g.vreg().1;
    let g4 = short_begin(g);
    let g5 = gen_expr(g4, env, lhs);
    let l = g5.val;
    let (g17, q, c, rhsl, end) = short_between(g5, slot, op);
    let g18 = gen_expr(g17, env, rhs);
    let rv = g18.val;
    short_shape(g, env, op, lhs, rhs);
    short_begin_text(g);
    short_between_text(g5, slot, op);
    short_end_text(g18, slot, end);
    kept_self(g4);
    kept_self(g17);
    gen_expr_kept(g4, g4, env, lhs);
    gen_expr_kept(g17, g17, env, rhs);
    reveal(kept);
    let yes = if op == BinOp::And {
        rhsl
    } else {
        end
    };
    let no = if op == BinOp::And {
        end
    } else {
        rhsl
    };
    let b = short_head(g5.out, l, slot, q, c);
    let g14 = b + "  br i1 "@ + c + ", label %"@ + yes + ", label %"@ + no + "\n"@;
    let g19 = g18.out + "  store i64 "@ + rv + ", ptr "@ + slot + "\n"@;
    let g20 = g19 + "  br label %"@ + end + "\n"@;
    let g21 = g20 + end + ":\n"@;
    part_of(t, g21, h.out);
    part_of(t, g20, g21);
    part_of(t, g19, g20);
    part_of(t, g18.out, g19);
    part_of(t, g17.out, g18.out);
    part_of(t, g14, g17.out);
    part_of(t, b, g14);
    part_of(t, g5.out, b);
    part_of(t, g4.out, g5.out);
    short_flow(
        m,
        t,
        op,
        g.out,
        g4.out,
        g5.out,
        l,
        slot,
        q,
        c,
        rhsl,
        end,
        g14,
        g17.out,
        g18.out,
        rv,
        g19,
        g20,
        g21,
        h,
    );
    assert(short_hangs(m, t, g, env, op, lhs, rhs, g4, g17));
}

/// A statement that ends its block ends a line.
pub(crate) proof fn stmt_ends(g: Ir, env: IrEnvView, s: StmtView)
    requires
        !g.term,
    ensures
        gen_stmt(g, env, s).term ==> lined(gen_stmt(g, env, s).out),
{
    broadcast use crate::irkeep::ops;

    kept_self(g);
    match s {
        StmtView::Return(o) => {
            return_ends(g, env, o);
        },
        StmtView::Break => {
            reveal(Ir::p);
            reveal(Ir::set_term);
            reveal(Ir::fail);
            if g.loops.len() > 0 {
                ends_line(g.out + "  br label %"@ + g.loops.last().1);
            }
        },
        StmtView::Continue => {
            reveal(Ir::p);
            reveal(Ir::set_term);
            reveal(Ir::fail);
            if g.loops.len() > 0 {
                ends_line(g.out + "  br label %"@ + g.loops.last().0);
            }
        },
        StmtView::Let { name, value, .. } => {
            gen_expr_kept(g, g, env, value);
            reveal(kept);
        },
        StmtView::Assign { target, value } => {
            gen_expr_kept(g, g, env, value);
            assign_keeps(g, env, target, value);
        },
        StmtView::ExprStmt(x) => {
            gen_expr_kept(g, g, env, x);
            reveal(kept);
        },
        StmtView::SrcLine(n) => {
            reveal(kept);
        },
        StmtView::Raise(x) => {
            gen_expr_kept(g, g, env, x);
            raise_keeps(g, env, x);
        },
        _ => {
            reveal(Ir::set_term);
        },
    }
}

proof fn return_ends(g: Ir, env: IrEnvView, o: Option<ExprView>)
    ensures
        lined(gen_stmt(g, env, StmtView::Return(o)).out),
{
    reveal(Ir::p);
    reveal(Ir::set_term);
    let g2 = match o {
        Some(x) => gen_expr(g, env, x),
        None => crate::irexpr::nil_value(
            g.need("lumen_nil"@, "i64 @lumen_nil()"@),
            env,
        ),
    };
    ends_line(g2.out + "  ret i64 "@ + g2.val);
}

proof fn raise_keeps(g: Ir, env: IrEnvView, x: ExprView)
    requires
        kept(g, gen_expr(g, env, x)),
    ensures
        gen_stmt(g, env, StmtView::Raise(x)).term == g.term,
{
    reveal(kept);
    reveal(Ir::p);
    reveal(Ir::vreg);
    reveal(Ir::need);
    reveal(Ir::need_line);
    reveal(Ir::give);
}

proof fn assign_keeps(g: Ir, env: IrEnvView, target: ExprView, value: ExprView)
    requires
        kept(g, gen_expr(g, env, value)),
    ensures
        gen_stmt(g, env, StmtView::Assign { target, value }).term == g.term,
{
    broadcast use crate::irkeep::ops;

    let g2 = gen_expr(g, env, value);
    match target {
        ExprView::Index { obj, index } => {
            let g4 = g2.need("lumen_index_set"@, "void @lumen_index_set(i64, i64, i64)"@);
            gen_expr_kept(g, g4, env, *obj);
            let g5 = gen_expr(g4, env, *obj);
            gen_expr_kept(g, g5, env, *index);
        },
        ExprView::Field { obj, name } => {
            let g8 = g2.need("lumen_struct_set"@, "void @lumen_struct_set(i64, ptr, i64)"@);
            gen_expr_kept(g, g8, env, *obj);
        },
        _ => {},
    }
    assert(kept(g, gen_stmt(g, env, StmtView::Assign { target, value })));
    reveal(kept);
}

pub(crate) proof fn block_ends(g: Ir, env: IrEnvView, s: Seq<StmtView>, k: nat)
    requires
        !g.term,
        k <= s.len(),
    ensures
        gen_stmts(g, env, s, k).term ==> lined(gen_stmts(g, env, s, k).out),
    decreases k,
{
    if k > 0 {
        block_ends(g, env, s, (k - 1) as nat);
        let g0 = gen_stmts(g, env, s, (k - 1) as nat);
        if !g0.term {
            stmt_ends(g0, env, s[k - 1]);
        }
    }
}

/// A branch to `end` where the block has not ended, and a label.
pub(crate) open spec fn closed(g: Ir, end: Seq<char>) -> Ir {
    if !g.term {
        g.p("  br label %"@).p(end).p("\n"@)
    } else {
        g
    }
}

proof fn closed_text(g: Ir, end: Seq<char>)
    requires
        g.term ==> lined(g.out),
    ensures
        lined(closed(g, end).out),
        g.out.is_prefix_of(closed(g, end).out),
        !g.term ==> closed(g, end).out == g.out + "  br label %"@ + end + "\n"@,
        closed(g, end).loops == g.loops,
{
    reveal(Ir::p);
    ends_line(g.out + "  br label %"@ + end);
}

pub(crate) proof fn label_text(g: Ir, l: Seq<char>)
    ensures
        g.p(l).p(":\n"@).out == g.out + l + ":\n"@,
        g.out.is_prefix_of(g.out + l + ":\n"@),
        lined(g.out + l + ":\n"@),
        g.p("  br label %"@).p(l).p("\n"@).out == g.out + "  br label %"@ + l + "\n"@,
        g.out.is_prefix_of(g.out + "  br label %"@ + l + "\n"@),
        lined(g.out + "  br label %"@ + l + "\n"@),
        g.p(l).p(":\n"@).loops == g.loops,
        g.p(l).p(":\n"@).val == g.val,
        g.p("  br label %"@).p(l).p("\n"@).loops == g.loops,
        g.p("  br label %"@).p(l).p("\n"@).val == g.val,
{
    reveal(Ir::p);
    ends_line(g.out + l);
    ends_line(g.out + "  br label %"@ + l);
}

pub(crate) proof fn branch_text(g: Ir, c: Seq<char>, x: Seq<char>, y: Seq<char>)
    ensures
        ({
            let h = g.p("  br i1 "@).p(c).p(", label %"@).p(x).p(", label %"@).p(y).p("\n"@);
            let w = g.out + "  br i1 "@ + c + ", label %"@ + x + ", label %"@ + y + "\n"@;
            h.out == w && h.loops == g.loops && h.val == g.val && lined(w) && g.out.is_prefix_of(w)
        }),
{
    reveal(Ir::p);
    ends_line(g.out + "  br i1 "@ + c + ", label %"@ + x + ", label %"@ + y);
}

/// How the parts of a loop hang together, as in the x86-64 back end: the test starts behind
/// `test`, the body is the block from `start` on, `step` is where a round ends.
pub open spec fn loop_hangs<D>(
    m: Vm<D>,
    t: Seq<char>,
    env: IrEnvView,
    body: Seq<StmtView>,
    start: Ir,
    step: Seq<char>,
    behind: Ir,
    enclosing: Ir
) -> bool {
    &&& start.loops.len() == enclosing.loops.len() + 1
    &&& !start.term
    &&& grown(start, gen_stmts(start, env, body, body.len()))
    &&& grown(enclosing, behind)
    &&& forall|d: D|
        !gen_stmts(start, env, body, body.len()).term ==> #[trigger] goes(
            t,
            m.run,
            gen_stmts(start, env, body, body.len()).out,
            d,
            step,
            d,
        )
    &&& forall|b: Ir, d: D|
        b.loops == start.loops && (#[trigger] gen_stmt(b, env, StmtView::Break)).out.is_prefix_of(t)
            ==> #[trigger] goes(t, m.run, b.out, d, behind.out, d)
    &&& forall|b: Ir, d: D|
        b.loops == start.loops && (#[trigger] gen_stmt(
            b,
            env,
            StmtView::Continue,
        )).out.is_prefix_of(t) ==> #[trigger] goes(t, m.run, b.out, d, step, d)
}

/// The code of a `while` loop: it is entered at its test; where the condition holds the body
/// follows, and behind the body the test again; where it does not hold, or at a `break`,
/// control comes to behind the loop. A `continue` goes to the test.
pub open spec fn while_hangs<D>(
    m: Vm<D>,
    t: Seq<char>,
    g: Ir,
    env: IrEnvView,
    cond: ExprView,
    body: Seq<StmtView>,
    test: Ir,
    start: Ir
) -> bool {
    let h = gen_stmt(g, env, StmtView::While { cond, body });
    let q = gen_truthy(test, env, cond);
    &&& loop_hangs(m, t, env, body, start, test.out, h, g)
    &&& forall|d: D| #[trigger] goes(t, m.run, g.out, d, test.out, d)
    &&& forall|d: D| (m.val)(q.val, d) != 0 ==> #[trigger] goes(t, m.run, q.out, d, start.out, d)
    &&& forall|d: D| (m.val)(q.val, d) == 0 ==> #[trigger] goes(t, m.run, q.out, d, h.out, d)
}

proof fn exit_text(b: Ir, env: IrEnvView)
    requires
        b.loops.len() > 0,
    ensures
        gen_stmt(b, env, StmtView::Break).out == b.out + "  br label %"@ + b.loops.last().1 + "\n"@,
        gen_stmt(b, env, StmtView::Continue).out == b.out + "  br label %"@ + b.loops.last().0
            + "\n"@,
{
    reveal(Ir::p);
    reveal(Ir::set_term);
}

/// The law of `while`: its code hangs together as a loop.
pub proof fn while_code<D>(
    m: Vm<D>,
    t: Seq<char>,
    g: Ir,
    env: IrEnvView,
    cond: ExprView,
    body: Seq<StmtView>
)
    requires
        llvm(m),
        once(t),
        word(g.val),
        gen_stmt(g, env, StmtView::While { cond, body }).out.is_prefix_of(t),
    ensures
        exists|test: Ir, start: Ir| #[trigger]
            while_hangs(m, t, g, env, cond, body, test, start),
{
    let s = StmtView::While { cond, body };
    let h = gen_stmt(g, env, s);
    let (g2, top) = g.label("wtop"@);
    let (g3, bodyl) = g2.label("wbody"@);
    let (g4, end) = g3.label("wend"@);
    let g5 = g4.p("  br label %"@).p(top).p("\n"@);
    let g6 = g5.p(top).p(":\n"@);
    let g7 = gen_truthy(g6, env, cond);
    let c = g7.val;
    let g8 = g7.p("  br i1 "@).p(c).p(", label %"@).p(bodyl).p(", label %"@).p(end).p("\n"@);
    let g9 = g8.p(bodyl).p(":\n"@);
    let g10 = g9.push_loop(top, end);
    let g11 = g10.set_term(false);
    let g12 = gen_stmts(g11, env, body, body.len());
    let g13 = g12.pop_loop();
    let g14 = closed(g13, top);
    let g16 = g14.p(end).p(":\n"@);
    let g17 = g16.set_term(false);
    assert(h == g17);
    short_labels();
    label_word(g, "wtop"@);
    label_word(g2, "wbody"@);
    label_word(g3, "wend"@);
    assert(g4.out == g.out && g4.loops == g.loops && g4.val == g.val) by {
        reveal(Ir::label);
    }
    label_text(g4, top);
    label_text(g5, top);
    branch_text(g7, c, bodyl, end);
    label_text(g8, bodyl);
    pushed(g9, top, end);
    assert(g11.out == g10.out && g11.loops == g10.loops && !g11.term && g17.out == g16.out) by {
        reveal(Ir::set_term);
    }
    block_ends(g11, env, body, body.len());
    assert(g13.out == g12.out && g13.term == g12.term) by {
        reveal(Ir::pop_loop);
    }
    closed_text(g13, top);
    label_text(g14, end);
    kept_self(g6);
    gen_truthy_kept(g6, g6, env, cond);
    assert(word(c) && g6.out.is_prefix_of(g7.out) && g7.loops == g6.loops) by {
        reveal(kept);
    }
    grown_self(g11);
    gen_stmts_grown(g11, g11, env, body, body.len());
    grown_self(g);
    gen_stmt_grown(g, g, env, s);
    assert(g11.out.is_prefix_of(g12.out)) by {
        reveal(grown);
    }
    part_of(t, g14.out, h.out);
    part_of(t, g12.out, g14.out);
    part_of(t, g11.out, g12.out);
    part_of(t, g8.out, g9.out);
    part_of(t, g7.out, g8.out);
    part_of(t, g6.out, g7.out);
    part_of(t, g5.out, g6.out);
    assert forall|d: D| #[trigger] goes(t, m.run, g.out, d, g6.out, d) by {
        br_goes(m, t, g.out, top, g5.out, d);
    }
    assert forall|d: D| (m.val)(c, d) != 0 implies #[trigger] goes(
        t,
        m.run,
        g7.out,
        d,
        g11.out,
        d,
    ) by {
        cbr_goes(m, t, g7.out, c, bodyl, end, bodyl, g8.out, d);
    }
    assert forall|d: D| (m.val)(c, d) == 0 implies #[trigger] goes(
        t,
        m.run,
        g7.out,
        d,
        h.out,
        d,
    ) by {
        cbr_goes(m, t, g7.out, c, bodyl, end, end, g14.out, d);
    }
    assert forall|d: D| !g12.term implies #[trigger] goes(t, m.run, g12.out, d, g6.out, d) by {
        br_goes(m, t, g12.out, top, g5.out, d);
    }
    assert forall|b: Ir, d: D|
        b.loops == g11.loops && (#[trigger] gen_stmt(b, env, StmtView::Break)).out.is_prefix_of(
            t,
        ) implies #[trigger] goes(t, m.run, b.out, d, h.out, d) by {
        exit_text(b, env);
        br_goes(m, t, b.out, end, g14.out, d);
    }
    assert forall|b: Ir, d: D|
        b.loops == g11.loops && (#[trigger] gen_stmt(b, env, StmtView::Continue)).out.is_prefix_of(
            t,
        ) implies #[trigger] goes(t, m.run, b.out, d, g6.out, d) by {
        exit_text(b, env);
        br_goes(m, t, b.out, top, g5.out, d);
    }
    assert(loop_hangs(m, t, env, body, g11, g6.out, h, g));
    assert(while_hangs(m, t, g, env, cond, body, g6, g11));
}

/// How an arm of an `if` hangs together: where its condition, tested from `test` on, holds,
/// its block from `start` on is run, and control then comes to behind the `if`; where it
/// does not hold, control comes to what follows the arm.
pub open spec fn arm_hangs<D>(
    m: Vm<D>,
    t: Seq<char>,
    env: IrEnvView,
    cond: ExprView,
    body: Seq<StmtView>,
    test: Ir,
    start: Ir,
    other: Seq<char>,
    behind: Seq<char>
) -> bool {
    let q = gen_truthy(test, env, cond);
    let b = gen_stmts(start, env, body, body.len());
    &&& forall|d: D| (m.val)(q.val, d) != 0 ==> #[trigger] goes(t, m.run, q.out, d, start.out, d)
    &&& forall|d: D| (m.val)(q.val, d) == 0 ==> #[trigger] goes(t, m.run, q.out, d, other, d)
    &&& forall|d: D| !b.term ==> #[trigger] goes(t, m.run, b.out, d, behind, d)
}

/// The code of one arm.
pub(crate) open spec fn arm_code(
    g: Ir,
    env: IrEnvView,
    cond: ExprView,
    body: Seq<StmtView>,
    thenl: Seq<char>,
    nextl: Seq<char>,
    end: Seq<char>,
) -> (Ir, Ir) {
    let g5 = gen_truthy(g, env, cond);
    let cv = g5.val;
    let g6 = g5.p("  br i1 "@).p(cv).p(", label %"@).p(thenl).p(", label %"@).p(nextl).p("\n"@);
    let g7 = g6.p(thenl).p(":\n"@);
    let g8 = g7.set_term(false);
    let g9 = gen_stmts(g8, env, body, body.len());
    (g8, closed(g9, end).p(nextl).p(":\n"@))
}

pub(crate) proof fn arm_flows<D>(
    m: Vm<D>,
    t: Seq<char>,
    g: Ir,
    env: IrEnvView,
    cond: ExprView,
    body: Seq<StmtView>,
    thenl: Seq<char>,
    nextl: Seq<char>,
    end: Seq<char>,
    tail: Seq<char>
)
    requires
        llvm(m),
        once(t),
        word(g.val),
        word(thenl),
        word(nextl),
        word(end),
        arm_code(g, env, cond, body, thenl, nextl, end).1.out.is_prefix_of(t),
        (tail + end + ":\n"@).is_prefix_of(t),
        lined(tail),
    ensures
        ({
            let (start, other) = arm_code(g, env, cond, body, thenl, nextl, end);
            &&& arm_hangs(
                m,
                t,
                env,
                cond,
                body,
                g,
                start,
                other.out,
                tail + end + ":\n"@,
            )
            &&& g.out.is_prefix_of(other.out)
            &&& lined(other.out)
            &&& start.loops == g.loops
        }),
{
    let (start, other) = arm_code(g, env, cond, body, thenl, nextl, end);
    let g5 = gen_truthy(g, env, cond);
    let c = g5.val;
    let g6 = g5.p("  br i1 "@).p(c).p(", label %"@).p(thenl).p(", label %"@).p(nextl).p("\n"@);
    let g7 = g6.p(thenl).p(":\n"@);
    let g9 = gen_stmts(start, env, body, body.len());
    let g10 = closed(g9, end);
    kept_self(g);
    gen_truthy_kept(g, g, env, cond);
    branch_text(g5, c, thenl, nextl);
    label_text(g6, thenl);
    assert(start.out == g7.out && !start.term && start.loops == g7.loops) by {
        reveal(Ir::set_term);
    }
    block_ends(start, env, body, body.len());
    closed_text(g9, end);
    label_text(g10, nextl);
    grown_self(start);
    gen_stmts_grown(start, start, env, body, body.len());
    assert(g.out.is_prefix_of(g5.out) && word(c) && g5.loops == g.loops) by {
        reveal(kept);
    }
    assert(start.out.is_prefix_of(g9.out)) by {
        reveal(grown);
    }
    part_of(t, g10.out, other.out);
    part_of(t, g9.out, g10.out);
    part_of(t, start.out, g9.out);
    part_of(t, g6.out, start.out);
    part_of(t, g5.out, g6.out);
    part_of(other.out, g9.out, g10.out);
    part_of(other.out, start.out, g9.out);
    part_of(other.out, g6.out, start.out);
    part_of(other.out, g5.out, g6.out);
    part_of(other.out, g.out, g5.out);
    let behind = tail + end + ":\n"@;
    assert forall|d: D| (m.val)(c, d) != 0 implies #[trigger] goes(
        t,
        m.run,
        g5.out,
        d,
        start.out,
        d,
    ) by {
        cbr_goes(m, t, g5.out, c, thenl, nextl, thenl, g6.out, d);
    }
    assert forall|d: D| (m.val)(c, d) == 0 implies #[trigger] goes(
        t,
        m.run,
        g5.out,
        d,
        other.out,
        d,
    ) by {
        cbr_goes(m, t, g5.out, c, thenl, nextl, nextl, g10.out, d);
    }
    assert forall|d: D| !g9.term implies #[trigger] goes(t, m.run, g9.out, d, behind, d) by {
        br_goes(m, t, g9.out, end, tail, d);
    }
}

/// The code of an `if`: its own arm comes first, where its condition fails the code from
/// `rest` on follows, and what ends goes to behind the whole `if`. Without `elif` the rest
/// is the `else` block, or nothing.
pub open spec fn if_hangs<D>(
    m: Vm<D>,
    t: Seq<char>,
    g: Ir,
    env: IrEnvView,
    cond: ExprView,
    body: Seq<StmtView>,
    els: Option<Seq<StmtView>>,
    test: Ir,
    start: Ir,
    rest: Ir
) -> bool {
    let h = gen_stmt(
        g,
        env,
        StmtView::If { cond, then: body, elifs: Seq::empty(), els },
    );
    &&& test.out == g.out
    &&& test.loops == g.loops
    &&& start.loops == g.loops
    &&& arm_hangs(m, t, env, cond, body, test, start, rest.out, h.out)
    &&& match els {
        Some(b) => forall|d: D|
            !gen_stmts(rest, env, b, b.len()).term ==> #[trigger] goes(
                t,
                m.run,
                gen_stmts(rest, env, b, b.len()).out,
                d,
                h.out,
                d,
            ),
        None => forall|d: D| #[trigger] goes(t, m.run, rest.out, d, h.out, d),
    }
}

/// The law of `if` and `else`.
pub proof fn if_code<D>(
    m: Vm<D>,
    t: Seq<char>,
    g: Ir,
    env: IrEnvView,
    cond: ExprView,
    body: Seq<StmtView>,
    els: Option<Seq<StmtView>>
)
    requires
        llvm(m),
        once(t),
        word(g.val),
        gen_stmt(
            g,
            env,
            StmtView::If { cond, then: body, elifs: Seq::empty(), els },
        ).out.is_prefix_of(t),
    ensures
        exists|test: Ir, start: Ir, rest: Ir| #[trigger]
            if_hangs(m, t, g, env, cond, body, els, test, start, rest),
{
    let none = Seq::<(ExprView, Seq<StmtView>)>::empty();
    let s = StmtView::If { cond, then: body, elifs: none, els };
    let h = gen_stmt(g, env, s);
    let (g2, end) = g.label("ifend"@);
    let (g3, thenl) = g2.label("then"@);
    let (g4, nextl) = g3.label("next"@);
    let (start, g12) = arm_code(g4, env, cond, body, thenl, nextl, end);
    assert(crate::irstmt::gen_elifs(g12, env, none, none.len(), end) == g12);
    let rest = match els {
        Some(_) => g12.set_term(false),
        None => g12,
    };
    let g16 = match els {
        Some(b) => gen_stmts(rest, env, b, b.len()),
        None => rest,
    };
    let g14 = match els {
        Some(b) => closed(g16, end),
        None => rest.p("  br label %"@).p(end).p("\n"@),
    };
    let g20 = g14.p(end).p(":\n"@);
    assert(h == g20.set_term(false)) by {
        if_shape(g, env, cond, body, els);
    }
    assert(h.out == g20.out && rest.out == g12.out) by {
        reveal(Ir::set_term);
    }
    short_labels();
    label_word(g, "ifend"@);
    label_word(g2, "then"@);
    label_word(g3, "next"@);
    assert(g4.out == g.out && g4.loops == g.loops && g4.val == g.val) by {
        reveal(Ir::label);
    }
    label_text(g14, end);
    match els {
        Some(b) => {
            assert(!rest.term) by {
                reveal(Ir::set_term);
            }
            block_ends(rest, env, b, b.len());
            closed_text(g16, end);
            grown_self(rest);
            gen_stmts_grown(rest, rest, env, b, b.len());
            assert(rest.out.is_prefix_of(g16.out)) by {
                reveal(grown);
            }
        },
        None => {
            label_text(rest, end);
        },
    }
    part_of(t, g14.out, h.out);
    part_of(t, g16.out, g14.out);
    part_of(t, g12.out, g16.out);
    arm_flows(m, t, g4, env, cond, body, thenl, nextl, end, g14.out);
    match els {
        Some(b) => {
            assert forall|d: D| !g16.term implies #[trigger] goes(
                t,
                m.run,
                gen_stmts(rest, env, b, b.len()).out,
                d,
                h.out,
                d,
            ) by {
                br_goes(m, t, g16.out, end, g14.out, d);
            }
        },
        None => {
            assert forall|d: D| #[trigger] goes(t, m.run, rest.out, d, h.out, d) by {
                br_goes(m, t, rest.out, end, g14.out, d);
            }
        },
    }
    assert(if_hangs(m, t, g, env, cond, body, els, g4, start, rest));
}

proof fn if_shape(
    g: Ir,
    env: IrEnvView,
    cond: ExprView,
    body: Seq<StmtView>,
    els: Option<Seq<StmtView>>,
)
    ensures
        ({
            let none = Seq::<(ExprView, Seq<StmtView>)>::empty();
            let (g2, end) = g.label("ifend"@);
            let (g3, thenl) = g2.label("then"@);
            let (g4, nextl) = g3.label("next"@);
            let (start, g12) = arm_code(g4, env, cond, body, thenl, nextl, end);
            let g14 = match els {
                Some(b) => closed(
                    gen_stmts(g12.set_term(false), env, b, b.len()),
                    end,
                ),
                None => g12.p("  br label %"@).p(end).p("\n"@),
            };
            gen_stmt(g, env, StmtView::If { cond, then: body, elifs: none, els }) == g14.p(end).p(
                ":\n"@,
            ).set_term(false)
        }),
{
    let none = Seq::<(ExprView, Seq<StmtView>)>::empty();
    let s = StmtView::If { cond, then: body, elifs: none, els };
    assert(gen_stmt(g, env, s) == crate::irstmt::stmt_if(g, env, s));
    let (g2, end) = g.label("ifend"@);
    let (g3, thenl) = g2.label("then"@);
    let (g4, nextl) = g3.label("next"@);
    let g12 = arm_code(g4, env, cond, body, thenl, nextl, end).1;
    assert(crate::irstmt::gen_elifs(g12, env, none, 0, end) == g12);
}

/// A poll of the collector goes on behind it, whether it collects or not.
proof fn poll_passes<D>(m: Vm<D>, t: Seq<char>, g: Ir, env: IrEnvView, d: D)
    requires
        llvm(m),
        once(t),
        gc_poll(g, env).out.is_prefix_of(t),
    ensures
        comes(t, m.run, g.out, d, gc_poll(g, env).out),
{
    let g1 = g.need("lumen_gc_collect"@, "void @lumen_gc_collect()"@);
    let g2 = g1.need_line(
        "@lumen_allocs_since_gc"@,
        "@lumen_allocs_since_gc = external global i64"@,
    );
    let (g3, c) = g2.vreg();
    let g4 = g3.p("  "@).p(c).p(" = load i64, ptr @lumen_allocs_since_gc\n"@);
    let (g5, hit) = g4.vreg();
    let g6 = g5.p("  "@).p(hit).p(" = icmp sge i64 "@).p(c).p(", 512\n"@);
    let (g7, gl) = g6.label("gc"@);
    let (g8, sk) = g7.label("gcskip"@);
    let g9 = g8.p("  br i1 "@).p(hit).p(", label %"@).p(gl).p(", label %"@).p(sk).p("\n"@);
    let g10 = g9.p(gl).p(":\n"@);
    let g11 = g10.p("  call void @lumen_gc_collect()\n"@);
    let g12 = g11.p("  br label %"@).p(sk).p("\n"@);
    let g13 = g12.p(sk).p(":\n"@);
    register_word(g2);
    register_word(g4);
    short_labels();
    label_word(g6, "gc"@);
    label_word(g7, "gcskip"@);
    assert(g3.out == g.out && g5.out == g4.out) by {
        reveal(Ir::vreg);
        reveal(Ir::need);
        reveal(Ir::need_line);
    }
    assert(g8.out == g6.out) by {
        reveal(Ir::label);
    }
    branch_text(g8, hit, gl, sk);
    label_text(g9, gl);
    label_text(g11, sk);
    label_text(g12, sk);
    poll_texts(g3, g5, g10, c, hit);
    part_of(t, g12.out, g13.out);
    part_of(t, g11.out, g12.out);
    part_of(t, g10.out, g11.out);
    part_of(t, g9.out, g10.out);
    part_of(t, g6.out, g9.out);
    part_of(t, g4.out, g6.out);
    let x = "@lumen_allocs_since_gc"@;
    load_passes(m, t, g.out, c, x, d);
    let d1 = (m.run)(load_line(c, x), d).0;
    full_passes(m, t, g4.out, hit, c, d1);
    let d2 = (m.run)(full_line(hit, c), d1).0;
    goes_on(t, m.run, g.out, d, g4.out, d1, g6.out, d2);
    if (m.val)(hit, d2) != 0 {
        cbr_goes(m, t, g6.out, hit, gl, sk, gl, g9.out, d2);
        goes_on(t, m.run, g.out, d, g6.out, d2, g10.out, d2);
        let s = "  call void @lumen_gc_collect()"@;
        let d3 = (m.run)(s, d2).0;
        passes(t, m.run, g10.out, s, d2);
        goes_on(t, m.run, g.out, d, g10.out, d2, g11.out, d3);
        br_goes(m, t, g11.out, sk, g12.out, d3);
        goes_on(t, m.run, g.out, d, g11.out, d3, g13.out, d3);
    } else {
        cbr_goes(m, t, g6.out, hit, gl, sk, sk, g12.out, d2);
        goes_on(t, m.run, g.out, d, g6.out, d2, g13.out, d2);
    }
}

proof fn poll_texts(g3: Ir, g5: Ir, g10: Ir, c: Seq<char>, hit: Seq<char>)
    ensures
        g3.p("  "@).p(c).p(" = load i64, ptr @lumen_allocs_since_gc\n"@).out == g3.out + "  "@ + c
            + " = load i64, ptr "@ + "@lumen_allocs_since_gc"@ + "\n"@,
        g3.out.is_prefix_of(
            g3.out + "  "@ + c + " = load i64, ptr "@ + "@lumen_allocs_since_gc"@ + "\n"@,
        ),
        g5.p("  "@).p(hit).p(" = icmp sge i64 "@).p(c).p(", 512\n"@).out == g5.out + "  "@ + hit
            + " = icmp sge i64 "@ + c + ", 512\n"@,
        g5.out.is_prefix_of(g5.out + "  "@ + hit + " = icmp sge i64 "@ + c + ", 512\n"@),
        g10.p("  call void @lumen_gc_collect()\n"@).out == g10.out
            + "  call void @lumen_gc_collect()"@ + "\n"@,
        g10.out.is_prefix_of(g10.out + "  call void @lumen_gc_collect()"@ + "\n"@),
        flat("  call void @lumen_gc_collect()"@),
        word("@lumen_allocs_since_gc"@),
{
    reveal(Ir::p);
    reveal(word);
    reveal_strlit(" = load i64, ptr @lumen_allocs_since_gc\n");
    reveal_strlit(" = load i64, ptr ");
    reveal_strlit("@lumen_allocs_since_gc");
    reveal_strlit("\n");
    reveal_strlit("  call void @lumen_gc_collect()\n");
    reveal_strlit("  call void @lumen_gc_collect()");
    let a = g3.out + "  "@ + c;
    assert(a + " = load i64, ptr @lumen_allocs_since_gc\n"@ =~= a + " = load i64, ptr "@
        + "@lumen_allocs_since_gc"@ + "\n"@);
    assert(g10.out + "  call void @lumen_gc_collect()\n"@ =~= g10.out
        + "  call void @lumen_gc_collect()"@ + "\n"@);
}

/// The step of a counting loop: the counter goes up by one, and the test follows.
pub open spec fn steps_up<D>(
    m: Vm<D>,
    t: Seq<char>,
    step: Seq<char>,
    test: Seq<char>,
    slot: Seq<char>
) -> bool {
    forall|d: D|
        (m.mem)(slot, d) < 0x7fff_ffff_ffff_ffff ==> exists|e: D| #[trigger]
            goes(t, m.run, step, d, test, e) && (m.mem)(slot, e) == #[trigger] (m.mem)(slot, d) + 1
}

/// The body and the step of a loop that counts in a slot.
proof fn tail_flows<D>(
    m: Vm<D>,
    t: Seq<char>,
    env: IrEnvView,
    body: Seq<StmtView>,
    g: Ir,
    g8: Ir,
    lp: IrLoopView,
    head: Seq<char>,
    h: Ir
) -> (r: (Ir, Seq<char>, Seq<char>))
    requires
        llvm(m),
        once(t),
        word(lp.slot),
        word(lp.top),
        word(lp.cont),
        word(lp.end),
        grown(g, g8),
        grown(g, h),
        h == loop_step(
            closed(
                gen_stmts(
                    g8.push_loop(lp.cont, lp.end).set_term(false),
                    env,
                    body,
                    body.len(),
                ).pop_loop(),
                lp.cont,
            ),
            env,
            lp,
        ).set_term(false),
        h.out.is_prefix_of(t),
        (head + lp.top + ":\n"@).is_prefix_of(t),
        lined(head),
    ensures
        loop_hangs(m, t, env, body, r.0, r.1, h, g),
        r.0.out == g8.out,
        g8.out.is_prefix_of(t),
        steps_up(m, t, r.1, head + lp.top + ":\n"@, lp.slot),
        h.out == r.2 + lp.end + ":\n"@,
        lined(r.2),
{
    let g10 = g8.push_loop(lp.cont, lp.end);
    let g11 = g10.set_term(false);
    let g12 = gen_stmts(g11, env, body, body.len());
    let g13 = g12.pop_loop();
    let g14 = closed(g13, lp.cont);
    let s1 = g14.p(lp.cont).p(":\n"@);
    let (s2, i) = s1.vreg();
    let s3 = s2.p("  "@).p(i).p(" = load i64, ptr "@).p(lp.slot).p("\n"@);
    let (s4, inc) = s3.vreg();
    let s5 = s4.p("  "@).p(inc).p(" = add i64 "@).p(i).p(", 1\n"@);
    let s6 = s5.p("  store i64 "@).p(inc).p(", ptr "@).p(lp.slot).p("\n"@);
    let s7 = s6.p("  br label %"@).p(lp.top).p("\n"@);
    let s8 = s7.p(lp.end).p(":\n"@);
    assert(h.out == s8.out && g11.out == g10.out && g11.loops == g10.loops && !g11.term) by {
        reveal(Ir::set_term);
    }
    pushed(g8, lp.cont, lp.end);
    assert(g11.loops.len() == g.loops.len() + 1) by {
        reveal(grown);
    }
    block_ends(g11, env, body, body.len());
    assert(g13.out == g12.out && g13.term == g12.term) by {
        reveal(Ir::pop_loop);
    }
    closed_text(g13, lp.cont);
    label_text(g14, lp.cont);
    register_word(s1);
    register_word(s3);
    assert(s2.out == s1.out && s4.out == s3.out) by {
        reveal(Ir::vreg);
    }
    step_texts(s2, s4, s5, i, inc, lp.slot);
    label_text(s6, lp.top);
    label_text(s7, lp.end);
    grown_self(g11);
    gen_stmts_grown(g11, g11, env, body, body.len());
    assert(g11.out.is_prefix_of(g12.out)) by {
        reveal(grown);
    }
    part_of(t, s7.out, h.out);
    part_of(t, s6.out, s7.out);
    part_of(t, s5.out, s6.out);
    part_of(t, s3.out, s5.out);
    part_of(t, s1.out, s3.out);
    part_of(t, g14.out, s1.out);
    part_of(t, g12.out, g14.out);
    part_of(t, g11.out, g12.out);
    let test = head + lp.top + ":\n"@;
    assert forall|d: D| (m.mem)(lp.slot, d) < 0x7fff_ffff_ffff_ffff implies exists|e: D| #[trigger]
        goes(t, m.run, s1.out, d, test, e) && (m.mem)(lp.slot, e) == #[trigger] (m.mem)(
            lp.slot,
            d,
        ) + 1 by {
        load_passes(m, t, s1.out, i, lp.slot, d);
        let d1 = (m.run)(load_line(i, lp.slot), d).0;
        assert(loaded(m, i, lp.slot, d, (m.run)(load_line(i, lp.slot), d)));
        add_passes(m, t, s3.out, inc, i, d1);
        let d2 = (m.run)(add_line(inc, i), d1).0;
        assert(added(m, inc, (m.val)(i, d1), d1, (m.run)(add_line(inc, i), d1)));
        store_passes(m, t, s5.out, inc, lp.slot, d2);
        let d3 = (m.run)(store_line(inc, lp.slot), d2).0;
        assert(stored(m, inc, lp.slot, d2, (m.run)(store_line(inc, lp.slot), d2)));
        br_goes(m, t, s6.out, lp.top, head, d3);
        goes_on(t, m.run, s1.out, d, s3.out, d1, s5.out, d2);
        goes_on(t, m.run, s1.out, d, s5.out, d2, s6.out, d3);
        goes_on(t, m.run, s1.out, d, s6.out, d3, test, d3);
    }
    assert forall|d: D| !g12.term implies #[trigger] goes(t, m.run, g12.out, d, s1.out, d) by {
        br_goes(m, t, g12.out, lp.cont, g14.out, d);
    }
    assert forall|b: Ir, d: D|
        b.loops == g11.loops && (#[trigger] gen_stmt(b, env, StmtView::Break)).out.is_prefix_of(
            t,
        ) implies #[trigger] goes(t, m.run, b.out, d, h.out, d) by {
        exit_text(b, env);
        br_goes(m, t, b.out, lp.end, s7.out, d);
    }
    assert forall|b: Ir, d: D|
        b.loops == g11.loops && (#[trigger] gen_stmt(b, env, StmtView::Continue)).out.is_prefix_of(
            t,
        ) implies #[trigger] goes(t, m.run, b.out, d, s1.out, d) by {
        exit_text(b, env);
        br_goes(m, t, b.out, lp.cont, g14.out, d);
    }
    (g11, s1.out, s7.out)
}

pub(crate) proof fn step_texts(
    s2: Ir,
    s4: Ir,
    s5: Ir,
    i: Seq<char>,
    inc: Seq<char>,
    slot: Seq<char>,
)
    ensures
        s2.p("  "@).p(i).p(" = load i64, ptr "@).p(slot).p("\n"@).out == s2.out + "  "@ + i
            + " = load i64, ptr "@ + slot + "\n"@,
        s2.out.is_prefix_of(s2.out + "  "@ + i + " = load i64, ptr "@ + slot + "\n"@),
        s4.p("  "@).p(inc).p(" = add i64 "@).p(i).p(", 1\n"@).out == s4.out + "  "@ + inc
            + " = add i64 "@ + i + ", 1\n"@,
        s4.out.is_prefix_of(s4.out + "  "@ + inc + " = add i64 "@ + i + ", 1\n"@),
        s5.p("  store i64 "@).p(inc).p(", ptr "@).p(slot).p("\n"@).out == s5.out + "  store i64 "@
            + inc + ", ptr "@ + slot + "\n"@,
        s5.out.is_prefix_of(s5.out + "  store i64 "@ + inc + ", ptr "@ + slot + "\n"@),
{
    reveal(Ir::p);
}

/// The code of a loop over a range, from where its bounds are stored: while the counter in
/// `slot` is below the limit in `limit`, the body follows the test, else control comes to
/// behind the loop; a round ends with the counter one higher, at the test again.
pub open spec fn count_hangs<D>(
    m: Vm<D>,
    t: Seq<char>,
    g: Ir,
    env: IrEnvView,
    var: Seq<char>,
    lo: ExprView,
    hi: ExprView,
    body: Seq<StmtView>,
    start: Ir,
    step: Seq<char>,
    test: Seq<char>,
    slot: Seq<char>,
    limit: Seq<char>
) -> bool {
    let h = gen_stmt(
        g,
        env,
        StmtView::For {
            var,
            iter: ExprView::Range { lo: Box::new(lo), hi: Box::new(hi) },
            body,
        },
    );
    &&& loop_hangs(m, t, env, body, start, step, h, g)
    &&& steps_up(m, t, step, test, slot)
    &&& forall|d: D|
        (m.mem)(slot, d) < (m.mem)(limit, d) ==> #[trigger] comes(t, m.run, test, d, start.out)
    &&& forall|d: D|
        (m.mem)(slot, d) >= (m.mem)(limit, d) ==> #[trigger] comes(t, m.run, test, d, h.out)
}

proof fn registers_differ(g: Ir, h: Ir)
    requires
        h.tmp == g.vreg().0.tmp,
    ensures
        g.vreg().1 != h.vreg().1,
{
    reveal(Ir::vreg);
    reveal_strlit("%v");
    let a = crate::asmstate::next64(g.tmp) as nat;
    let b = crate::asmstate::next64(h.tmp) as nat;
    if "%v"@ + crate::text::dec_nat(a) == "%v"@ + crate::text::dec_nat(b) {
        assert(("%v"@ + crate::text::dec_nat(a)).skip(2) =~= crate::text::dec_nat(a));
        assert(("%v"@ + crate::text::dec_nat(b)).skip(2) =~= crate::text::dec_nat(b));
        crate::desugar::dec_nat_injective(a, b);
    }
}

/// The head of a loop over a range.
proof fn head_flows<D>(
    m: Vm<D>,
    t: Seq<char>,
    g17: Ir,
    slot: Seq<char>,
    lslot: Seq<char>,
    vslot: Seq<char>,
    body: Seq<char>,
    end: Seq<char>,
    tail: Seq<char>
) -> (r: Ir)
    requires
        llvm(m),
        once(t),
        word(slot),
        word(lslot),
        word(vslot),
        word(body),
        word(end),
        range_head(g17, slot, lslot, vslot, body, end).out.is_prefix_of(t),
        (tail + end + ":\n"@).is_prefix_of(t),
        lined(tail),
    ensures
        r == range_head(g17, slot, lslot, vslot, body, end),
        g17.out.is_prefix_of(t),
        forall|d: D|
            (m.mem)(slot, d) < (m.mem)(lslot, d) ==> #[trigger] comes(t, m.run, g17.out, d, r.out),
        forall|d: D|
            (m.mem)(slot, d) >= (m.mem)(lslot, d) ==> #[trigger] comes(
                t,
                m.run,
                g17.out,
                d,
                tail + end + ":\n"@,
            ),
{
    let (g18, cur) = g17.vreg();
    let g19 = g18.p("  "@).p(cur).p(" = load i64, ptr "@).p(slot).p("\n"@);
    let (g20, lim) = g19.vreg();
    let g21 = g20.p("  "@).p(lim).p(" = load i64, ptr "@).p(lslot).p("\n"@);
    let (g22, q) = g21.vreg();
    let g23 = g22.p("  "@).p(q).p(" = icmp slt i64 "@).p(cur).p(", "@).p(lim).p("\n"@);
    let g24 = g23.p("  br i1 "@).p(q).p(", label %"@).p(body).p(", label %"@).p(end).p("\n"@);
    let g25 = g24.p(body).p(":\n"@);
    let (g26, boxed) = g25.vreg();
    let g27 = g26.p("  "@).p(boxed).p(" = call i64 @lumen_from_int(i64 "@).p(cur).p(")\n"@);
    let g28 = g27.p("  store i64 "@).p(boxed).p(", ptr "@).p(vslot).p("\n"@);
    register_word(g17);
    register_word(g19);
    register_word(g21);
    register_word(g25);
    assert(g19.tmp == g18.tmp) by {
        reveal(Ir::p);
    }
    registers_differ(g17, g19);
    assert(
        g18.out == g17.out && g20.out == g19.out && g22.out == g21.out && g26.out == g25.out
    ) by {
        reveal(Ir::vreg);
    }
    step_texts(g18, g18, g18, cur, cur, slot);
    step_texts(g20, g20, g20, lim, lim, lslot);
    step_texts(g27, g27, g27, boxed, boxed, vslot);
    less_texts(g22, g26, q, cur, lim, boxed);
    branch_text(g23, q, body, end);
    label_text(g24, body);
    part_of(t, g27.out, g28.out);
    part_of(t, g25.out, g27.out);
    part_of(t, g24.out, g25.out);
    part_of(t, g23.out, g24.out);
    part_of(t, g21.out, g23.out);
    part_of(t, g19.out, g21.out);
    part_of(t, g17.out, g19.out);
    assert forall|d: D| true implies #[trigger] head_asks(
        m,
        t,
        g17.out,
        d,
        g23.out,
        q,
        slot,
        lslot,
    ) by {
        load_passes(m, t, g17.out, cur, slot, d);
        let d1 = (m.run)(load_line(cur, slot), d).0;
        assert(loaded(m, cur, slot, d, (m.run)(load_line(cur, slot), d)));
        load_passes(m, t, g19.out, lim, lslot, d1);
        let d2 = (m.run)(load_line(lim, lslot), d1).0;
        assert(loaded(m, lim, lslot, d1, (m.run)(load_line(lim, lslot), d1)));
        less_passes(m, t, g21.out, q, cur, lim, d2);
        let d3 = (m.run)(less_line(q, cur, lim), d2).0;
        assert(asked(
            m,
            q,
            (m.val)(cur, d2) < (m.val)(lim, d2),
            d2,
            (m.run)(less_line(q, cur, lim), d2),
        ));
        goes_on(t, m.run, g17.out, d, g19.out, d1, g21.out, d2);
        goes_on(t, m.run, g17.out, d, g21.out, d2, g23.out, d3);
    }
    assert forall|d: D| (m.mem)(slot, d) < (m.mem)(lslot, d) implies #[trigger] comes(
        t,
        m.run,
        g17.out,
        d,
        g28.out,
    ) by {
        assert(head_asks(m, t, g17.out, d, g23.out, q, slot, lslot));
        let d3 = choose|e: D| #[trigger]
            goes(t, m.run, g17.out, d, g23.out, e) && ((m.val)(q, e) != 0) == ((m.mem)(slot, d)
                < (m.mem)(lslot, d));
        cbr_goes(m, t, g23.out, q, body, end, body, g24.out, d3);
        goes_on(t, m.run, g17.out, d, g23.out, d3, g25.out, d3);
        box_passes(m, t, g25.out, boxed, cur, d3);
        let d4 = (m.run)(box_line(boxed, cur), d3).0;
        goes_on(t, m.run, g17.out, d, g25.out, d3, g27.out, d4);
        store_passes(m, t, g27.out, boxed, vslot, d4);
        goes_on(
            t,
            m.run,
            g17.out,
            d,
            g27.out,
            d4,
            g28.out,
            (m.run)(store_line(boxed, vslot), d4).0,
        );
    }
    assert forall|d: D| (m.mem)(slot, d) >= (m.mem)(lslot, d) implies #[trigger] comes(
        t,
        m.run,
        g17.out,
        d,
        tail + end + ":\n"@,
    ) by {
        assert(head_asks(m, t, g17.out, d, g23.out, q, slot, lslot));
        let d3 = choose|e: D| #[trigger]
            goes(t, m.run, g17.out, d, g23.out, e) && ((m.val)(q, e) != 0) == ((m.mem)(slot, d)
                < (m.mem)(lslot, d));
        cbr_goes(m, t, g23.out, q, body, end, end, tail, d3);
        goes_on(t, m.run, g17.out, d, g23.out, d3, tail + end + ":\n"@, d3);
    }
    g28
}

spec fn head_asks<D>(
    m: Vm<D>,
    t: Seq<char>,
    a: Seq<char>,
    d: D,
    b: Seq<char>,
    q: Seq<char>,
    slot: Seq<char>,
    lslot: Seq<char>
) -> bool {
    exists|e: D| #[trigger]
        goes(t, m.run, a, d, b, e) && ((m.val)(q, e) != 0) == ((m.mem)(slot, d) < (m.mem)(lslot, d))
}

proof fn less_texts(
    g22: Ir,
    g26: Ir,
    q: Seq<char>,
    cur: Seq<char>,
    lim: Seq<char>,
    boxed: Seq<char>,
)
    ensures
        g22.p("  "@).p(q).p(" = icmp slt i64 "@).p(cur).p(", "@).p(lim).p("\n"@).out == g22.out
            + "  "@ + q + " = icmp slt i64 "@ + cur + ", "@ + lim + "\n"@,
        g22.out.is_prefix_of(
            g22.out + "  "@ + q + " = icmp slt i64 "@ + cur + ", "@ + lim + "\n"@,
        ),
        g26.p("  "@).p(boxed).p(" = call i64 @lumen_from_int(i64 "@).p(cur).p(")\n"@).out
            == g26.out + "  "@ + boxed + " = call i64 @lumen_from_int(i64 "@ + cur + ")\n"@,
        g26.out.is_prefix_of(
            g26.out + "  "@ + boxed + " = call i64 @lumen_from_int(i64 "@ + cur + ")\n"@,
        ),
{
    reveal(Ir::p);
}

spec fn range_head(
    g17: Ir,
    slot: Seq<char>,
    lslot: Seq<char>,
    vslot: Seq<char>,
    body: Seq<char>,
    end: Seq<char>,
) -> Ir {
    let (g18, cur) = g17.vreg();
    let g19 = g18.p("  "@).p(cur).p(" = load i64, ptr "@).p(slot).p("\n"@);
    let (g20, lim) = g19.vreg();
    let g21 = g20.p("  "@).p(lim).p(" = load i64, ptr "@).p(lslot).p("\n"@);
    let (g22, t) = g21.vreg();
    let g23 = g22.p("  "@).p(t).p(" = icmp slt i64 "@).p(cur).p(", "@).p(lim).p("\n"@);
    let g24 = g23.p("  br i1 "@).p(t).p(", label %"@).p(body).p(", label %"@).p(end).p("\n"@);
    let g25 = g24.p(body).p(":\n"@);
    let (g26, boxed) = g25.vreg();
    let g27 = g26.p("  "@).p(boxed).p(" = call i64 @lumen_from_int(i64 "@).p(cur).p(")\n"@);
    g27.p("  store i64 "@).p(boxed).p(", ptr "@).p(vslot).p("\n"@)
}

/// The law of `for` over a range.
pub proof fn count_code<D>(
    m: Vm<D>,
    t: Seq<char>,
    g: Ir,
    env: IrEnvView,
    var: Seq<char>,
    lo: ExprView,
    hi: ExprView,
    body: Seq<StmtView>
)
    requires
        llvm(m),
        once(t),
        word(g.val),
        gen_stmt(
            g,
            env,
            StmtView::For {
                var,
                iter: ExprView::Range { lo: Box::new(lo), hi: Box::new(hi) },
                body,
            },
        ).out.is_prefix_of(t),
        word(slot_of(g, env, var, lo, hi)),
    ensures
        exists|
            start: Ir,
            step: Seq<char>,
            test: Seq<char>,
            slot: Seq<char>,
            limit: Seq<char>,
        | #[trigger]
            count_hangs(
                m,
                t,
                g,
                env,
                var,
                lo,
                hi,
                body,
                start,
                step,
                test,
                slot,
                limit,
            ),
{
    let s = StmtView::For {
        var,
        iter: ExprView::Range { lo: Box::new(lo), hi: Box::new(hi) },
        body,
    };
    let h = gen_stmt(g, env, s);
    let g3 = g.need("lumen_to_int"@, "i64 @lumen_to_int(i64)"@);
    let g4 = g3.need("lumen_from_int"@, "i64 @lumen_from_int(i64)"@);
    let b5 = gen_expr(g4, env, lo);
    let b6 = gen_expr(b5, env, hi);
    let lov = b5.val;
    let hiv = b6.val;
    let (g1, ci) = b6.vreg();
    let g2 = g1.p("  "@).p(ci).p(" = call i64 @lumen_to_int(i64 "@).p(lov).p(")\n"@);
    let (a3, hiu) = g2.vreg();
    let a4 = a3.p("  "@).p(hiu).p(" = call i64 @lumen_to_int(i64 "@).p(hiv).p(")\n"@);
    let (g5, slot) = a4.vreg();
    let g6 = g5.p("  "@).p(slot).p(" = alloca i64\n"@);
    let g7 = g6.p("  store i64 "@).p(ci).p(", ptr "@).p(slot).p("\n"@);
    let (g8, lslot) = g7.vreg();
    let g9 = g8.p("  "@).p(lslot).p(" = alloca i64\n"@);
    let g10 = g9.p("  store i64 "@).p(hiu).p(", ptr "@).p(lslot).p("\n"@);
    let (g11, vslot) = g10.slot(var);
    let (g12, top) = g11.label("ftop"@);
    let (g13, bodyl) = g12.label("fbody"@);
    let (g14, cont) = g13.label("fcont"@);
    let (g15, end) = g14.label("fend"@);
    let g16 = g15.p("  br label %"@).p(top).p("\n"@);
    let g17 = g16.p(top).p(":\n"@);
    let g28 = range_head(g17, slot, lslot, vslot, bodyl, end);
    let lp = IrLoopView { slot, top, cont, end };
    assert(crate::irexpr::range_begin(b6, env, var, lov, hiv) == (g28, lp));
    let c8 = if stmts_alloc(env, body) {
        gc_poll(g28, env)
    } else {
        g28
    };
    let c10 = c8.push_loop(cont, end);
    let c14 = closed(
        gen_stmts(c10.set_term(false), env, body, body.len()).pop_loop(),
        cont,
    );
    assert(h == loop_step(c14, env, lp).set_term(false)) by {
        assert(h == crate::irstmt::stmt_for(g, env, s));
    }
    grown_self(g);
    gen_stmt_grown(g, g, env, s);
    kept_self(g);
    assert(kept(g, c8) && kept(g28, c8)) by {
        broadcast use crate::irkeep::ops;

        kept_self(g28);
        crate::irkeep::gen_expr_kept(g, g4, env, lo);
        crate::irkeep::gen_expr_kept(g, b5, env, hi);
        crate::irkeep::range_begin_kept(g, b6, env, var, lov, hiv);
        crate::irkeep::gc_poll_kept(g, g28, env);
        crate::irkeep::gc_poll_kept(g28, g28, env);
    }
    crate::irkeep::grown_on(g, g, c8);
    register_word(a4);
    register_word(g7);
    short_labels();
    label_word(g11, "ftop"@);
    label_word(g12, "fbody"@);
    label_word(g13, "fcont"@);
    label_word(g14, "fend"@);
    label_text(g15, top);
    label_text(g16, top);
    assert(vslot == slot_of(g, env, var, lo, hi)) by {
        reveal(Ir::slot);
        reveal(Ir::p);
        reveal(Ir::vreg);
    }
    assert(g28.out.is_prefix_of(c8.out)) by {
        reveal(kept);
    }
    assert(c8.out.is_prefix_of(h.out)) by {
        pushed(c8, cont, end);
        let c11 = c10.set_term(false);
        assert(c11.out == c10.out) by {
            reveal(Ir::set_term);
        }
        grown_self(c11);
        gen_stmts_grown(c11, c11, env, body, body.len());
        let c12 = gen_stmts(c11, env, body, body.len());
        reveal(grown);
        reveal(Ir::pop_loop);
        block_closed(c12.pop_loop(), cont, env, lp);
        part_of(h.out, c8.out, c12.out);
    }
    part_of(t, c8.out, h.out);
    part_of(t, g28.out, c8.out);
    let head = g16.out;
    assert(g17.out.is_prefix_of(g28.out)) by {
        head_grows(g17, slot, lslot, vslot, bodyl, end);
    }
    part_of(t, g17.out, g28.out);
    let (start, step, tail) = tail_flows(m, t, env, body, g, c8, lp, head, h);
    let r = head_flows(m, t, g17, slot, lslot, vslot, bodyl, end, tail);
    assert forall|d: D| (m.mem)(slot, d) < (m.mem)(lslot, d) implies #[trigger] comes(
        t,
        m.run,
        g17.out,
        d,
        start.out,
    ) by {
        assert(comes(t, m.run, g17.out, d, g28.out));
        let d1 = choose|e: D| #[trigger] goes(t, m.run, g17.out, d, g28.out, e);
        if stmts_alloc(env, body) {
            poll_passes(m, t, g28, env, d1);
        } else {
            goes_nowhere(t, m.run, g28.out, d1);
        }
        comes_on(t, m.run, g17.out, d, g28.out, d1, c8.out);
    }
    assert(count_hangs(
        m,
        t,
        g,
        env,
        var,
        lo,
        hi,
        body,
        start,
        step,
        g17.out,
        slot,
        lslot,
    ));
}

proof fn head_grows(
    g17: Ir,
    slot: Seq<char>,
    lslot: Seq<char>,
    vslot: Seq<char>,
    body: Seq<char>,
    end: Seq<char>,
)
    ensures
        g17.out.is_prefix_of(range_head(g17, slot, lslot, vslot, body, end).out),
{
    broadcast use crate::irkeep::ops;

    kept_self(g17);
    assert(kept(g17, range_head(g17, slot, lslot, vslot, body, end)));
    reveal(kept);
}

proof fn block_closed(g: Ir, cont: Seq<char>, env: IrEnvView, lp: IrLoopView)
    ensures
        g.out.is_prefix_of(loop_step(closed(g, cont), env, lp).set_term(false).out),
{
    broadcast use crate::irkeep::ops;

    kept_self(g);
    let c = closed(g, cont);
    assert(kept(g, c));
    crate::irkeep::loop_step_kept(g, c, env, lp);
    reveal(kept);
    reveal(Ir::set_term);
}

/// The slot of the loop variable.
pub open spec fn slot_of(
    g: Ir,
    env: IrEnvView,
    var: Seq<char>,
    lo: ExprView,
    hi: ExprView,
) -> Seq<char> {
    let g4 = g.need("lumen_to_int"@, "i64 @lumen_to_int(i64)"@).need(
        "lumen_from_int"@,
        "i64 @lumen_from_int(i64)"@,
    );
    let locals = gen_expr(gen_expr(g4, env, lo), env, hi).locals;
    if locals.contains_key(var) {
        locals[var]
    } else {
        "%l."@ + crate::irstate::sanitized(var)
    }
}

} // verus!
