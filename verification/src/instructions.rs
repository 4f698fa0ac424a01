//! What the instructions that the back ends pick mean: each agrees with what the interpreter
//! makes of the same operation.

use crate::algebra::answer;
use crate::asmflow::relates;
use crate::asmquery::{fast_op, float_ins, jcc_false, runtime_op, set_cc};
use crate::analysis::is_comparison;
use crate::ast::{wrap48_spec, BinOp, ExprView};
use crate::divide::{quotient, remainder};
use crate::irstate::{fcc, float_ins_of, icc, int_ins, IrEnvView};
use crate::operate::{int_binop, op_name, OutView};
use crate::value::ValueView;
use vstd::prelude::*;

verus! {

/// What a condition code of the x86-64 says after `x` was compared with `y`.
pub open spec fn flags_say(cc: Seq<char>, x: int, y: int) -> Option<bool> {
    if cc == "e"@ {
        Some(x == y)
    } else if cc == "ne"@ {
        Some(x != y)
    } else if cc == "l"@ {
        Some(x < y)
    } else if cc == "le"@ {
        Some(x <= y)
    } else if cc == "g"@ {
        Some(x > y)
    } else if cc == "ge"@ {
        Some(x >= y)
    } else {
        None
    }
}

/// What an integer comparison of LLVM says of `x` and `y`.
pub open spec fn test_says(cc: Seq<char>, x: int, y: int) -> Option<bool> {
    if cc == "eq"@ {
        Some(x == y)
    } else if cc == "ne"@ {
        Some(x != y)
    } else if cc == "slt"@ {
        Some(x < y)
    } else if cc == "sle"@ {
        Some(x <= y)
    } else if cc == "sgt"@ {
        Some(x > y)
    } else if cc == "sge"@ {
        Some(x >= y)
    } else {
        None
    }
}

/// What an instruction on integers computes.
pub open spec fn computes(ins: Seq<char>, x: int, y: int) -> Option<int> {
    if ins == "add"@ {
        Some(x + y)
    } else if ins == "sub"@ {
        Some(x - y)
    } else if ins == "mul"@ || ins == "imul"@ {
        Some(x * y)
    } else if ins == "sdiv"@ && y != 0 {
        Some(quotient(x, y))
    } else if ins == "srem"@ && y != 0 {
        Some(remainder(x, y))
    } else {
        None
    }
}

proof fn flag_names()
    ensures
        "e"@ != "ne"@,
        "e"@ != "l"@,
        "e"@ != "le"@,
        "e"@ != "g"@,
        "e"@ != "ge"@,
        "ne"@ != "l"@,
        "ne"@ != "le"@,
        "ne"@ != "g"@,
        "ne"@ != "ge"@,
        "l"@ != "le"@,
        "l"@ != "g"@,
        "l"@ != "ge"@,
        "le"@ != "g"@,
        "le"@ != "ge"@,
        "g"@ != "ge"@,
{
    reveal_strlit("e");
    reveal_strlit("ne");
    reveal_strlit("l");
    reveal_strlit("le");
    reveal_strlit("g");
    reveal_strlit("ge");
    assert("e"@.len() == 1);
    assert("ne"@.len() == 2);
    assert("l"@.len() == 1);
    assert("le"@.len() == 2);
    assert("g"@.len() == 1);
    assert("ge"@.len() == 2);
    assert("e"@[0] != "l"@[0]);
    assert("e"@[0] != "g"@[0]);
    assert("ne"@[0] != "le"@[0]);
    assert("ne"@[0] != "ge"@[0]);
    assert("l"@[0] != "g"@[0]);
    assert("le"@[0] != "ge"@[0]);
}

proof fn test_names()
    ensures
        "eq"@ != "ne"@,
        "eq"@ != "slt"@,
        "eq"@ != "sle"@,
        "eq"@ != "sgt"@,
        "eq"@ != "sge"@,
        "ne"@ != "slt"@,
        "ne"@ != "sle"@,
        "ne"@ != "sgt"@,
        "ne"@ != "sge"@,
        "slt"@ != "sle"@,
        "slt"@ != "sgt"@,
        "slt"@ != "sge"@,
        "sle"@ != "sgt"@,
        "sle"@ != "sge"@,
        "sgt"@ != "sge"@,
{
    reveal_strlit("eq");
    reveal_strlit("ne");
    reveal_strlit("slt");
    reveal_strlit("sle");
    reveal_strlit("sgt");
    reveal_strlit("sge");
    assert("eq"@.len() == 2);
    assert("ne"@.len() == 2);
    assert("slt"@.len() == 3);
    assert("sle"@.len() == 3);
    assert("sgt"@.len() == 3);
    assert("sge"@.len() == 3);
    assert("eq"@[0] != "ne"@[0]);
    assert("slt"@[2] != "sle"@[2]);
    assert("slt"@[1] != "sgt"@[1]);
    assert("slt"@[1] != "sge"@[1]);
    assert("sle"@[1] != "sgt"@[1]);
    assert("sle"@[1] != "sge"@[1]);
    assert("sgt"@[2] != "sge"@[2]);
}

proof fn ins_names()
    ensures
        "add"@ != "sub"@,
        "add"@ != "mul"@,
        "add"@ != "imul"@,
        "add"@ != "sdiv"@,
        "add"@ != "srem"@,
        "sub"@ != "mul"@,
        "sub"@ != "imul"@,
        "sub"@ != "sdiv"@,
        "sub"@ != "srem"@,
        "mul"@ != "imul"@,
        "mul"@ != "sdiv"@,
        "mul"@ != "srem"@,
        "imul"@ != "sdiv"@,
        "imul"@ != "srem"@,
        "sdiv"@ != "srem"@,
{
    reveal_strlit("add");
    reveal_strlit("sub");
    reveal_strlit("mul");
    reveal_strlit("imul");
    reveal_strlit("sdiv");
    reveal_strlit("srem");
    assert("add"@.len() == 3);
    assert("sub"@.len() == 3);
    assert("mul"@.len() == 3);
    assert("imul"@.len() == 4);
    assert("sdiv"@.len() == 4);
    assert("srem"@.len() == 4);
    assert("add"@[0] != "sub"@[0]);
    assert("add"@[0] != "mul"@[0]);
    assert("sub"@[0] != "mul"@[0]);
    assert("imul"@[0] != "sdiv"@[0]);
    assert("imul"@[0] != "srem"@[0]);
    assert("sdiv"@[1] != "srem"@[1]);
}

/// The comparisons of the interpreter, of the x86-64 code and of the LLVM code are the same:
/// the one sets its result where the interpreter says yes and jumps away where it says no,
/// the other has a code that says the same.
pub proof fn comparisons_mean(op: BinOp, a: i64, b: i64)
    requires
        is_comparison(op),
    ensures
        int_binop(op, a, b) == answer(relates(op, a as int, b as int)),
        exists|cc: Seq<char>|
            set_cc(op) =~= "set"@ + cc && #[trigger] flags_say(cc, a as int, b as int) == Some(
                relates(op, a as int, b as int),
            ),
        exists|cc: Seq<char>|
            jcc_false(op) =~= "j"@ + cc && #[trigger] flags_say(cc, a as int, b as int) == Some(
                !relates(op, a as int, b as int),
            ),
        icc(op) matches Some(cc) && test_says(cc, a as int, b as int) == Some(
            relates(op, a as int, b as int),
        ),
        fcc(op) matches Some(cc) && cc =~= "o"@ + op_name(op).map_values(|c: char| small(c)),
{
    flag_names();
    test_names();
    reveal_strlit("set");
    reveal_strlit("j");
    reveal_strlit("e");
    reveal_strlit("sete");
    reveal_strlit("je");
    reveal_strlit("g");
    reveal_strlit("setg");
    reveal_strlit("jg");
    reveal_strlit("ge");
    reveal_strlit("setge");
    reveal_strlit("jge");
    reveal_strlit("l");
    reveal_strlit("setl");
    reveal_strlit("jl");
    reveal_strlit("le");
    reveal_strlit("setle");
    reveal_strlit("jle");
    reveal_strlit("ne");
    reveal_strlit("setne");
    reveal_strlit("jne");
    reveal_strlit("o");
    reveal_strlit("olt");
    reveal_strlit("Lt");
    reveal_strlit("ole");
    reveal_strlit("Le");
    reveal_strlit("ogt");
    reveal_strlit("Gt");
    reveal_strlit("oge");
    reveal_strlit("Ge");
    reveal_strlit("oeq");
    reveal_strlit("Eq");
    reveal_strlit("one");
    reveal_strlit("Ne");
    let x = a as int;
    let y = b as int;
    let (yes, no) = match op {
        BinOp::Lt => ("l"@, "ge"@),
        BinOp::Le => ("le"@, "g"@),
        BinOp::Gt => ("g"@, "le"@),
        BinOp::Ge => ("ge"@, "l"@),
        BinOp::Eq => ("e"@, "ne"@),
        _ => ("ne"@, "e"@),
    };
    assert(set_cc(op) =~= "set"@ + yes);
    assert(jcc_false(op) =~= "j"@ + no);
    assert(fcc(op)->0 =~= "o"@ + op_name(op).map_values(|c: char| small(c)));
    assert(flags_say(yes, x, y) == Some(relates(op, x, y)));
    assert(flags_say(no, x, y) == Some(!relates(op, x, y)));
}

/// The instructions for integers compute what the interpreter computes, up to the wrapping
/// that follows them.
pub proof fn instructions_compute(
    env: IrEnvView,
    op: BinOp,
    lhs: ExprView,
    rhs: ExprView,
    a: i64,
    b: i64,
)
    ensures
        int_ins(env, op, lhs, rhs) matches Some(ins) ==> (b != 0 || op == BinOp::Add || op
            == BinOp::Sub
                || op == BinOp::Mul) ==> (computes(ins, a as int, b as int) matches Some(n)
            && int_binop(op, a, b) == OutView::Give(ValueView::Int(wrap48_spec(n) as i64))),
        op == BinOp::Add || op == BinOp::Sub || op == BinOp::Mul ==> (computes(
            fast_op(op),
            a as int,
            b as int,
        ) matches Some(n) && int_binop(op, a, b) == OutView::Give(
            ValueView::Int(wrap48_spec(n) as i64),
        )),
{
    ins_names();
}

/// Both back ends pick the same operation on floats.
pub proof fn float_instructions_agree(env: IrEnvView, op: BinOp, lhs: ExprView, rhs: ExprView)
    requires
        float_ins_of(env, op, lhs, rhs) is Some,
    ensures
        exists|x: Seq<char>|
            float_ins_of(env, op, lhs, rhs)->0 =~= "f"@ + x && float_ins(op) =~= #[trigger] (x
                + "sd"@) && (x == "add"@ <==> op == BinOp::Add) && (x == "sub"@ <==> op == BinOp::Sub)
                && (x == "mul"@ <==> op == BinOp::Mul) && (x == "div"@ <==> op == BinOp::Div),
{
    reveal_strlit("add");
    reveal_strlit("sub");
    reveal_strlit("mul");
    reveal_strlit("div");
    assert("add"@.len() == 3);
    assert("sub"@.len() == 3);
    assert("mul"@.len() == 3);
    assert("div"@.len() == 3);
    assert("add"@[0] != "sub"@[0]);
    assert("add"@[0] != "mul"@[0]);
    assert("add"@[0] != "div"@[0]);
    assert("sub"@[0] != "mul"@[0]);
    assert("sub"@[0] != "div"@[0]);
    assert("mul"@[0] != "div"@[0]);
    reveal_strlit("fadd");
    reveal_strlit("addsd");
    reveal_strlit("fsub");
    reveal_strlit("subsd");
    reveal_strlit("fmul");
    reveal_strlit("mulsd");
    reveal_strlit("fdiv");
    reveal_strlit("divsd");
    reveal_strlit("f");
    reveal_strlit("sd");
    let x = match op {
        BinOp::Add => "add"@,
        BinOp::Sub => "sub"@,
        BinOp::Mul => "mul"@,
        _ => "div"@,
    };
    assert(float_ins_of(env, op, lhs, rhs)->0 =~= "f"@ + x);
    assert(float_ins(op) =~= x + "sd"@);
}

/// A small letter for a capital one.
pub open spec fn small(c: char) -> char {
    if 'A' <= c && c <= 'Z' {
        (c as u8 + 32) as u8 as char
    } else {
        c
    }
}

/// The function of the runtime for an operator is named after the operator.
pub proof fn runtime_named_after_operator(op: BinOp)
    requires
        op != BinOp::And,
        op != BinOp::Or,
        op != BinOp::NotIn,
    ensures
        runtime_op(op) =~= "lumen_"@ + op_name(op).map_values(|c: char| small(c)),
        runtime_op(BinOp::NotIn) =~= "lumen_not_"@ + op_name(BinOp::In).map_values(
            |c: char| small(c),
        ),
{
    reveal_strlit("lumen_");
    reveal_strlit("lumen_not_");
    reveal_strlit("lumen_not_in");
    reveal_strlit("Add");
    reveal_strlit("lumen_add");
    reveal_strlit("Sub");
    reveal_strlit("lumen_sub");
    reveal_strlit("Mul");
    reveal_strlit("lumen_mul");
    reveal_strlit("Pow");
    reveal_strlit("lumen_pow");
    reveal_strlit("Div");
    reveal_strlit("lumen_div");
    reveal_strlit("Mod");
    reveal_strlit("lumen_mod");
    reveal_strlit("Eq");
    reveal_strlit("lumen_eq");
    reveal_strlit("Ne");
    reveal_strlit("lumen_ne");
    reveal_strlit("Lt");
    reveal_strlit("lumen_lt");
    reveal_strlit("Le");
    reveal_strlit("lumen_le");
    reveal_strlit("Gt");
    reveal_strlit("lumen_gt");
    reveal_strlit("Ge");
    reveal_strlit("lumen_ge");
    reveal_strlit("In");
    reveal_strlit("lumen_in");
    assert(runtime_op(op) =~= "lumen_"@ + op_name(op).map_values(|c: char| small(c)));
}

} // verus!
