//! What the x86-64 back end asks before it writes an expression: which of its forms
//! applies, and which operands, symbols and constants it needs.

use crate::analysis::{arith, compares, is_arith, is_comparison};
use crate::asmops::slot_text;
use crate::asmstate::{pair_view, text_opt, Asm, Emitter, Env, FnEnv};
use crate::ast::{
    expr_view, exprs_view, fields_view, wrap48, wrap48_spec, BinOp, Expr, ExprView, ExternFnView,
    Field, FieldView, StructDefView, Type, TypeView, UnOp,
};
use crate::builtins::{is_module, is_module_spec};
use crate::divide::{excess, magic_exponent, magic_signed, unsigned};
use crate::mir::{named, type_is};
use crate::text::{concat, dec, push_i64, starts_with, starts_with_spec, str_eq};
use crate::typeinfo::in_table;
use vstd::arithmetic::power2::pow2;
use vstd::prelude::*;

verus! {

/// The runtime function of a method without arguments.
pub open spec fn plain_method(n: Seq<char>) -> Seq<char> {
    if n == "upper"@ {
        "lumen_str_upper"@
    } else if n == "lower"@ {
        "lumen_str_lower"@
    } else if n == "trim"@ {
        "lumen_str_trim"@
    } else if n == "title"@ {
        "lumen_str_title"@
    } else if n == "lstrip"@ {
        "lumen_str_lstrip"@
    } else if n == "rstrip"@ {
        "lumen_str_rstrip"@
    } else if n == "pop"@ {
        "lumen_list_pop"@
    } else if n == "keys"@ {
        "lumen_map_keys"@
    } else if n == "values"@ {
        "lumen_map_values"@
    } else {
        ""@
    }
}

pub fn find_plain_method(n: &str) -> (r: &'static str)
    ensures
        r@ == plain_method(n@),
{
    if str_eq(n, "upper") {
        "lumen_str_upper"
    } else if str_eq(n, "lower") {
        "lumen_str_lower"
    } else if str_eq(n, "trim") {
        "lumen_str_trim"
    } else if str_eq(n, "title") {
        "lumen_str_title"
    } else if str_eq(n, "lstrip") {
        "lumen_str_lstrip"
    } else if str_eq(n, "rstrip") {
        "lumen_str_rstrip"
    } else if str_eq(n, "pop") {
        "lumen_list_pop"
    } else if str_eq(n, "keys") {
        "lumen_map_keys"
    } else if str_eq(n, "values") {
        "lumen_map_values"
    } else {
        ""
    }
}

/// The runtime function of a method with one argument.
pub open spec fn one_arg_method(n: Seq<char>) -> Seq<char> {
    if n == "split"@ {
        "lumen_str_split"@
    } else if n == "contains"@ {
        "lumen_contains"@
    } else if n == "starts_with"@ {
        "lumen_str_starts_with"@
    } else if n == "ends_with"@ {
        "lumen_str_ends_with"@
    } else if n == "find"@ {
        "lumen_str_find"@
    } else if n == "repeat"@ {
        "lumen_str_repeat"@
    } else if n == "join"@ {
        "lumen_join"@
    } else if n == "has"@ {
        "lumen_map_has"@
    } else if n == "remove"@ {
        "lumen_map_remove"@
    } else if n == "index"@ {
        "lumen_list_index"@
    } else if n == "count"@ {
        "lumen_list_count"@
    } else {
        ""@
    }
}

pub fn find_one_arg_method(n: &str) -> (r: &'static str)
    ensures
        r@ == one_arg_method(n@),
{
    if str_eq(n, "split") {
        "lumen_str_split"
    } else if str_eq(n, "contains") {
        "lumen_contains"
    } else if str_eq(n, "starts_with") {
        "lumen_str_starts_with"
    } else if str_eq(n, "ends_with") {
        "lumen_str_ends_with"
    } else if str_eq(n, "find") {
        "lumen_str_find"
    } else if str_eq(n, "repeat") {
        "lumen_str_repeat"
    } else if str_eq(n, "join") {
        "lumen_join"
    } else if str_eq(n, "has") {
        "lumen_map_has"
    } else if str_eq(n, "remove") {
        "lumen_map_remove"
    } else if str_eq(n, "index") {
        "lumen_list_index"
    } else if str_eq(n, "count") {
        "lumen_list_count"
    } else {
        ""
    }
}

/// Whether a method without arguments has a runtime function.
pub open spec fn is_plain(n: Seq<char>) -> bool {
    n == "upper"@ || n == "lower"@ || n == "trim"@ || n == "title"@ || n == "lstrip"@
        || n == "rstrip"@ || n == "pop"@ || n == "keys"@ || n == "values"@
}

pub fn has_plain_method(n: &str) -> (r: bool)
    ensures
        r == is_plain(n@),
{
    str_eq(n, "upper") || str_eq(n, "lower") || str_eq(n, "trim") || str_eq(n, "title")
        || str_eq(n, "lstrip") || str_eq(n, "rstrip") || str_eq(n, "pop") || str_eq(n, "keys")
        || str_eq(n, "values")
}

/// Whether a method with one argument has a runtime function.
pub open spec fn is_one_arg(n: Seq<char>) -> bool {
    n == "split"@ || n == "contains"@ || n == "starts_with"@ || n == "ends_with"@ || n == "find"@
        || n == "repeat"@ || n == "join"@ || n == "has"@ || n == "remove"@ || n == "index"@
        || n == "count"@
}

pub fn has_one_arg_method(n: &str) -> (r: bool)
    ensures
        r == is_one_arg(n@),
{
    str_eq(n, "split") || str_eq(n, "contains") || str_eq(n, "starts_with")
        || str_eq(n, "ends_with") || str_eq(n, "find") || str_eq(n, "repeat") || str_eq(n, "join")
        || str_eq(n, "has") || str_eq(n, "remove") || str_eq(n, "index") || str_eq(n, "count")
}

/// What a built-in function of one argument does with it.
pub open spec fn builtin_tail(n: Seq<char>) -> Seq<char> {
    if n == "len"@ {
        "    call lumen_len\n    mov rcx, rax\n    call lumen_from_int\n"@
    } else if n == "str"@ {
        "    call lumen_to_str\n"@
    } else if n == "int"@ {
        "    call lumen_to_int_val\n"@
    } else if n == "float"@ {
        "    call lumen_to_float_val\n"@
    } else if n == "sum"@ {
        "    call lumen_sum\n"@
    } else if n == "min"@ {
        "    call lumen_min\n"@
    } else if n == "max"@ {
        "    call lumen_max\n"@
    } else if n == "abs"@ {
        "    call lumen_abs\n"@
    } else if n == "round"@ {
        "    call lumen_round\n"@
    } else if n == "type"@ {
        "    call lumen_type\n"@
    } else if n == "ord"@ {
        "    call lumen_ord\n"@
    } else if n == "chr"@ {
        "    call lumen_chr\n"@
    } else if n == "is_digit"@ {
        "    call lumen_is_digit\n"@
    } else if n == "is_alpha"@ {
        "    call lumen_is_alpha\n"@
    } else if n == "is_space"@ {
        "    call lumen_is_space\n"@
    } else if n == "assert"@ {
        "    call lumen_assert\n    call lumen_nil\n"@
    } else if n == "drop"@ {
        "    call lumen_release\n    call lumen_nil\n"@
    } else {
        ""@
    }
}

pub fn find_builtin_tail(n: &str) -> (r: &'static str)
    ensures
        r@ == builtin_tail(n@),
{
    if str_eq(n, "len") {
        "    call lumen_len\n    mov rcx, rax\n    call lumen_from_int\n"
    } else if str_eq(n, "str") {
        "    call lumen_to_str\n"
    } else if str_eq(n, "int") {
        "    call lumen_to_int_val\n"
    } else if str_eq(n, "float") {
        "    call lumen_to_float_val\n"
    } else if str_eq(n, "sum") {
        "    call lumen_sum\n"
    } else if str_eq(n, "min") {
        "    call lumen_min\n"
    } else if str_eq(n, "max") {
        "    call lumen_max\n"
    } else if str_eq(n, "abs") {
        "    call lumen_abs\n"
    } else if str_eq(n, "round") {
        "    call lumen_round\n"
    } else if str_eq(n, "type") {
        "    call lumen_type\n"
    } else if str_eq(n, "ord") {
        "    call lumen_ord\n"
    } else if str_eq(n, "chr") {
        "    call lumen_chr\n"
    } else if str_eq(n, "is_digit") {
        "    call lumen_is_digit\n"
    } else if str_eq(n, "is_alpha") {
        "    call lumen_is_alpha\n"
    } else if str_eq(n, "is_space") {
        "    call lumen_is_space\n"
    } else if str_eq(n, "assert") {
        "    call lumen_assert\n    call lumen_nil\n"
    } else if str_eq(n, "drop") {
        "    call lumen_release\n    call lumen_nil\n"
    } else {
        ""
    }
}

/// Whether a name is a function of the language itself.
pub open spec fn is_builtin_fn(n: Seq<char>) -> bool {
    n == "print"@ || n == "input"@ || n == "range"@ || n == "len"@ || n == "str"@ || n == "int"@
        || n == "float"@ || n == "sum"@ || n == "min"@ || n == "max"@ || n == "abs"@
        || n == "round"@ || n == "type"@ || n == "ord"@ || n == "chr"@ || n == "is_digit"@
        || n == "is_alpha"@ || n == "is_space"@ || n == "assert"@ || n == "drop"@
}

pub fn builtin_fn(n: &str) -> (r: bool)
    ensures
        r == is_builtin_fn(n@),
{
    str_eq(n, "print") || str_eq(n, "input") || str_eq(n, "range") || str_eq(n, "len")
        || str_eq(n, "str") || str_eq(n, "int") || str_eq(n, "float") || str_eq(n, "sum")
        || str_eq(n, "min") || str_eq(n, "max") || str_eq(n, "abs") || str_eq(n, "round")
        || str_eq(n, "type") || str_eq(n, "ord") || str_eq(n, "chr") || str_eq(n, "is_digit")
        || str_eq(n, "is_alpha") || str_eq(n, "is_space") || str_eq(n, "assert")
        || str_eq(n, "drop")
}

/// The instruction that sets a byte by a comparison.
pub open spec fn set_cc(op: BinOp) -> Seq<char> {
    match op {
        BinOp::Lt => "setl"@,
        BinOp::Le => "setle"@,
        BinOp::Gt => "setg"@,
        BinOp::Ge => "setge"@,
        BinOp::Eq => "sete"@,
        _ => "setne"@,
    }
}

pub fn set_cc_str(op: BinOp) -> (r: &'static str)
    ensures
        r@ == set_cc(op),
{
    match op {
        BinOp::Lt => "setl",
        BinOp::Le => "setle",
        BinOp::Gt => "setg",
        BinOp::Ge => "setge",
        BinOp::Eq => "sete",
        _ => "setne",
    }
}

/// The jump that is taken where a comparison fails.
pub open spec fn jcc_false(op: BinOp) -> Seq<char> {
    match op {
        BinOp::Lt => "jge"@,
        BinOp::Le => "jg"@,
        BinOp::Gt => "jle"@,
        BinOp::Ge => "jl"@,
        BinOp::Eq => "jne"@,
        _ => "je"@,
    }
}

pub fn jcc_false_str(op: BinOp) -> (r: &'static str)
    ensures
        r@ == jcc_false(op),
{
    match op {
        BinOp::Lt => "jge",
        BinOp::Le => "jg",
        BinOp::Gt => "jle",
        BinOp::Ge => "jl",
        BinOp::Eq => "jne",
        _ => "je",
    }
}

/// The instruction of an operation on integers.
pub open spec fn fast_op(op: BinOp) -> Seq<char> {
    match op {
        BinOp::Add => "add"@,
        BinOp::Sub => "sub"@,
        _ => "imul"@,
    }
}

pub fn fast_op_str(op: BinOp) -> (r: &'static str)
    ensures
        r@ == fast_op(op),
{
    match op {
        BinOp::Add => "add",
        BinOp::Sub => "sub",
        _ => "imul",
    }
}

/// The instruction of an operation on floats.
pub open spec fn float_ins(op: BinOp) -> Seq<char> {
    match op {
        BinOp::Add => "addsd"@,
        BinOp::Sub => "subsd"@,
        BinOp::Mul => "mulsd"@,
        _ => "divsd"@,
    }
}

pub fn float_ins_str(op: BinOp) -> (r: &'static str)
    ensures
        r@ == float_ins(op),
{
    match op {
        BinOp::Add => "addsd",
        BinOp::Sub => "subsd",
        BinOp::Mul => "mulsd",
        _ => "divsd",
    }
}

/// The runtime function of an operation.
pub open spec fn runtime_op(op: BinOp) -> Seq<char> {
    match op {
        BinOp::Add => "lumen_add"@,
        BinOp::Sub => "lumen_sub"@,
        BinOp::Mul => "lumen_mul"@,
        BinOp::Pow => "lumen_pow"@,
        BinOp::Div => "lumen_div"@,
        BinOp::Mod => "lumen_mod"@,
        BinOp::Eq => "lumen_eq"@,
        BinOp::Ne => "lumen_ne"@,
        BinOp::Lt => "lumen_lt"@,
        BinOp::Le => "lumen_le"@,
        BinOp::Gt => "lumen_gt"@,
        BinOp::Ge => "lumen_ge"@,
        BinOp::In => "lumen_in"@,
        BinOp::NotIn => "lumen_not_in"@,
        _ => ""@,
    }
}

pub fn runtime_op_name(op: BinOp) -> (r: &'static str)
    ensures
        r@ == runtime_op(op),
{
    match op {
        BinOp::Add => "lumen_add",
        BinOp::Sub => "lumen_sub",
        BinOp::Mul => "lumen_mul",
        BinOp::Pow => "lumen_pow",
        BinOp::Div => "lumen_div",
        BinOp::Mod => "lumen_mod",
        BinOp::Eq => "lumen_eq",
        BinOp::Ne => "lumen_ne",
        BinOp::Lt => "lumen_lt",
        BinOp::Le => "lumen_le",
        BinOp::Gt => "lumen_gt",
        BinOp::Ge => "lumen_ge",
        BinOp::In => "lumen_in",
        BinOp::NotIn => "lumen_not_in",
        _ => "",
    }
}

/// Whether an operation on two integers needs no call.
pub open spec fn is_fast(op: BinOp) -> bool {
    op == BinOp::Add || op == BinOp::Sub || op == BinOp::Mul || is_comparison(op)
}

pub fn fast(op: BinOp) -> (r: bool)
    ensures
        r == is_fast(op),
{
    op == BinOp::Add || op == BinOp::Sub || op == BinOp::Mul || compares(op)
}

/// The absolute value of a word.
pub open spec fn magnitude(d: i64) -> nat {
    if d < 0 {
        (-(d as int)) as nat
    } else {
        d as nat
    }
}

pub fn abs64(d: i64) -> (r: u64)
    ensures
        r == magnitude(d),
{
    if d < 0 {
        (-(d as i128)) as u64
    } else {
        d as u64
    }
}

/// The exponent of a power of two.
pub open spec fn log2_exact(n: nat) -> Option<nat>
    decreases n,
{
    if n == 1 {
        Some(0)
    } else if n == 0 || n % 2 == 1 {
        None
    } else {
        match log2_exact(n / 2) {
            Some(k) => Some(k + 1),
            None => None,
        }
    }
}

pub fn exact_log2(n: u64) -> (r: Option<u64>)
    ensures
        r is Some <==> log2_exact(n as nat) is Some,
        r is Some ==> r->Some_0 == log2_exact(n as nat)->Some_0,
        r is Some ==> r->Some_0 < 64 && pow2(r->Some_0 as nat) == n,
    decreases n,
{
    proof {
        vstd::arithmetic::power2::lemma2_to64();
    }
    if n == 1 {
        Some(0)
    } else if n == 0 || n % 2 == 1 {
        None
    } else {
        match exact_log2(n / 2) {
            Some(k) => {
                proof {
                    vstd::arithmetic::power2::lemma_pow2_unfold((k + 1) as nat);
                    if k == 63 {
                        vstd::arithmetic::power2::lemma2_to64_rest();
                    }
                }
                Some(k + 1)
            },
            None => None,
        }
    }
}

/// The shift of the division by a constant.
pub open spec fn magic_shift(d: int) -> nat {
    ((choose|p: nat| magic_exponent(d, p)) - 64) as nat
}

/// The multiplier of the division by a constant.
pub open spec fn magic_multiplier(d: int) -> i64 {
    choose|m: i64|
        unsigned(m) * d == pow2(64 + magic_shift(d)) + excess(64 + magic_shift(d), d)
}

pub fn magic_pair(d: u64) -> (r: (i64, u32))
    requires
        2 <= d <= 0x8000_0000_0000_0000,
    ensures
        r.0 == magic_multiplier(d as int),
        r.1 == magic_shift(d as int),
{
    let r = magic_signed(d);
    proof {
        let di = d as int;
        let p = choose|p: nat| magic_exponent(di, p);
        assert(magic_exponent(di, (64 + r.1) as nat));
        assert(p == 64 + r.1) by {
            if p < 64 + r.1 {
                assert(!crate::divide::near_enough(p, di));
            } else if p > 64 + r.1 {
                assert(!crate::divide::near_enough((64 + r.1) as nat, di));
            }
        }
        let m = magic_multiplier(di);
        assert(unsigned(r.0) * di == pow2(64 + magic_shift(di)) + excess(64 + magic_shift(di), di));
        assert(unsigned(m) == unsigned(r.0)) by (nonlinear_arith)
            requires
                unsigned(m) * di == unsigned(r.0) * di,
                di >= 2,
        ;
    }
    r
}

/// The word that an integer constant is boxed to.
pub open spec fn boxed_int(n: i64) -> nat {
    (0x7FF9_0000_0000_0000 + n as int % 0x1_0000_0000_0000) as nat
}

pub fn box_const(n: i64) -> (r: u64)
    ensures
        r == boxed_int(n),
{
    let low: u128 = (n as i128 + 0x1_0000_0000_0000_0000) as u128 % 0x1_0000_0000_0000;
    0x7FF9_0000_0000_0000 + low as u64
}

/// The bytes below the arguments of a call with `n` of them, kept a multiple of 16.
pub open spec fn stack_bytes(n: nat) -> nat {
    let b = (32 + (n - 4) * 8) as nat;
    if b % 16 != 0 {
        b + 8
    } else {
        b
    }
}

pub fn frame_bytes(n: u64) -> (r: u64)
    requires
        4 <= n <= 0x1000_0000,
    ensures
        r == stack_bytes(n as nat),
{
    let b: u64 = 32 + (n - 4) * 8;
    if b % 16 != 0 {
        b + 8
    } else {
        b
    }
}

/// The bytes for the arguments of a foreign call with `n` of them.
pub open spec fn ffi_bytes(n: nat) -> nat {
    ((32 + (n - 4) * 8 + 15) / 16 * 16) as nat
}

pub fn ffi_frame_bytes(n: u64) -> (r: u64)
    requires
        4 <= n <= 0x1000_0000,
    ensures
        r == ffi_bytes(n as nat),
{
    (32 + (n - 4) * 8 + 15) / 16 * 16
}

/// What a foreign function returns.
#[derive(Debug, Clone, Copy, PartialEq, Eq, Structural)]
pub enum FfiRet {
    Nil,
    Float,
    Int,
}

pub open spec fn ffi_ret(t: TypeView) -> FfiRet {
    if t is Nil {
        FfiRet::Nil
    } else if named(t, "f64"@) || named(t, "f32"@) {
        FfiRet::Float
    } else {
        FfiRet::Int
    }
}

pub fn find_ffi_ret(t: &Type) -> (r: FfiRet)
    ensures
        r == ffi_ret(t@),
{
    match t {
        Type::Nil => FfiRet::Nil,
        _ => {
            if type_is(t, "f64") || type_is(t, "f32") {
                FfiRet::Float
            } else {
                FfiRet::Int
            }
        },
    }
}

pub open spec fn arity_of(env: FnEnv, n: Seq<char>) -> Option<nat> {
    if env.fns.contains_key(n) {
        Some(env.fns[n].params.len())
    } else {
        None
    }
}

pub fn find_arity(env: &Env, n: &str) -> (r: Option<u64>)
    ensures
        r is Some <==> arity_of(env@, n@) is Some,
        r is Some ==> r->Some_0 == arity_of(env@, n@)->Some_0,
{
    match env.decls.fns.get(n) {
        Some(f) => Some(f.params.len() as u64),
        None => None,
    }
}

pub open spec fn struct_of(env: FnEnv, n: Seq<char>) -> Option<StructDefView> {
    if env.structs.contains_key(n) {
        Some(env.structs[n])
    } else {
        None
    }
}

pub open spec fn extern_of(env: FnEnv, n: Seq<char>) -> Option<ExternFnView> {
    if env.externs.contains_key(n) {
        Some(env.externs[n])
    } else {
        None
    }
}

pub open spec fn fields_of(env: FnEnv, n: Seq<char>) -> Seq<FieldView> {
    env.structs[n].fields
}

pub fn find_fields<'a>(env: &'a Env, n: &str) -> (r: &'a Vec<Field>)
    requires
        env@.structs.contains_key(n@),
    ensures
        fields_view(r@) == fields_of(env@, n@),
{
    &env.decls.structs.get(n).unwrap().fields
}

pub open spec fn field_name(fields: Seq<FieldView>, i: int) -> Seq<char> {
    if 0 <= i < fields.len() {
        fields[i].name
    } else {
        ""@
    }
}

pub fn nth_field(fields: &Vec<Field>, i: usize) -> (r: &str)
    ensures
        r@ == field_name(fields_view(fields@), i as int),
{
    if i < fields.len() {
        fields[i].name.as_str()
    } else {
        ""
    }
}

pub open spec fn ident_name(e: ExprView) -> Seq<char> {
    match e {
        ExprView::Ident(n) => n,
        _ => ""@,
    }
}

pub fn get_ident(e: &Expr) -> (r: &str)
    ensures
        r@ == ident_name(e@),
{
    match e {
        Expr::Ident(n) => n.as_str(),
        _ => "",
    }
}

pub open spec fn int_value(e: ExprView) -> i64 {
    match e {
        ExprView::Int(n) => wrap48_spec(n as int) as i64,
        _ => 0,
    }
}

pub fn get_int(e: &Expr) -> (r: i64)
    ensures
        r == int_value(e@),
{
    match e {
        Expr::Int(n) => wrap48(*n),
        _ => 0,
    }
}

pub open spec fn float_bits(e: ExprView) -> u64 {
    match e {
        ExprView::Float(b) => b,
        _ => 0,
    }
}

pub fn get_float(e: &Expr) -> (r: u64)
    ensures
        r == float_bits(e@),
{
    match e {
        Expr::Float(b) => *b,
        _ => 0,
    }
}

/// The value of a constant divisor, 0 where it is none.
pub open spec fn const_of(e: ExprView) -> i64 {
    int_value(e)
}

pub fn find_const(e: &Expr) -> (r: i64)
    ensures
        r == const_of(e@),
{
    get_int(e)
}

/// An integer constant that fits in an instruction.
pub open spec fn imm32(e: ExprView) -> Option<i64> {
    match e {
        ExprView::Int(n) => if -0x8000_0000 <= n <= 0x7fff_ffff {
            Some(n)
        } else {
            None
        },
        _ => None,
    }
}

pub fn find_imm32(e: &Expr) -> (r: Option<i64>)
    ensures
        r == imm32(e@),
{
    match e {
        Expr::Int(n) => {
            if -0x8000_0000 <= *n && *n <= 0x7fff_ffff {
                Some(*n)
            } else {
                None
            }
        },
        _ => None,
    }
}

/// The bits of a modulus that is a power of two from 2 up to `2^31`.
pub open spec fn mask_bits(d: i64) -> Option<nat> {
    if 1 < d <= 0x8000_0000 {
        log2_exact(d as nat)
    } else {
        None
    }
}

pub fn mask_of(d: i64) -> (r: Option<u64>)
    ensures
        r is Some <==> mask_bits(d) is Some,
        r is Some ==> r->Some_0 == mask_bits(d)->Some_0 && r->Some_0 < 64,
{
    if 1 < d && d <= 0x8000_0000 {
        exact_log2(d as u64)
    } else {
        None
    }
}

/// A constant exponent that is written out as products.
pub open spec fn is_small_exp(e: ExprView) -> bool {
    e is Int && 0 <= e->Int_0 <= 8
}

pub open spec fn small_exp(e: ExprView) -> i64 {
    if is_small_exp(e) {
        e->Int_0
    } else {
        0
    }
}

pub fn find_small_exp(e: &Expr) -> (r: i64)
    ensures
        r == small_exp(e@),
        0 <= r <= 8,
{
    match e {
        Expr::Int(n) => {
            if 0 <= *n && *n <= 8 {
                *n
            } else {
                0
            }
        },
        _ => 0,
    }
}

/// Whether an index is sure to be an integer.
pub open spec fn idx_intish(env: FnEnv, e: ExprView) -> bool
    decreases e,
{
    match e {
        ExprView::Int(_) => true,
        ExprView::Ident(n) => in_table(env.info.int_vars, env.func, n) || env.raw_int.contains(n),
        ExprView::Binary { op, lhs, rhs } => is_arith(op) && idx_intish(env, *lhs) && idx_intish(
            env,
            *rhs,
        ),
        _ => false,
    }
}

pub fn is_idx_intish(env: &Env, e: &Expr) -> (r: bool)
    ensures
        r == idx_intish(env@, e@),
    decreases e,
{
    match e {
        Expr::Int(_) => true,
        Expr::Ident(n) => env.info.is_int_var(env.func, n.as_str()) || env.raw_int.contains(
            n.as_str(),
        ),
        Expr::Binary { op, lhs, rhs } => arith(*op) && is_idx_intish(env, lhs) && is_idx_intish(
            env,
            rhs,
        ),
        _ => false,
    }
}

/// Whether `e` is a variable that the table has of this function.
pub open spec fn var_in(
    m: Map<Seq<char>, Set<Seq<char>>>,
    f: Seq<char>,
    e: ExprView,
) -> bool {
    match e {
        ExprView::Ident(n) => in_table(m, f, n),
        _ => false,
    }
}

pub open spec fn fn_in(s: Set<Seq<char>>, e: ExprView) -> bool {
    match e {
        ExprView::Ident(n) => s.contains(n),
        _ => false,
    }
}

/// Whether an expression is sure to be an integer.
pub open spec fn known_int(env: FnEnv, e: ExprView) -> bool
    decreases e,
{
    match e {
        ExprView::Int(_) => true,
        ExprView::Ident(n) => in_table(env.info.int_vars, env.func, n),
        ExprView::Unary { op, expr } => op == UnOp::Neg && known_int(env, *expr),
        ExprView::Binary { op, lhs, rhs } => is_arith(op) && known_int(env, *lhs) && known_int(
            env,
            *rhs,
        ),
        ExprView::Call { callee, .. } => fn_in(env.info.int_ret, *callee),
        ExprView::Index { obj, index } => var_in(env.info.int_list_vars, env.func, *obj)
            && idx_intish(env, *index),
        _ => false,
    }
}

pub fn is_known_int(env: &Env, e: &Expr) -> (r: bool)
    ensures
        r == known_int(env@, e@),
    decreases e,
{
    match e {
        Expr::Int(_) => true,
        Expr::Ident(n) => env.info.is_int_var(env.func, n.as_str()),
        Expr::Unary { op, expr } => *op == UnOp::Neg && is_known_int(env, expr),
        Expr::Binary { op, lhs, rhs } => arith(*op) && is_known_int(env, lhs) && is_known_int(
            env,
            rhs,
        ),
        Expr::Call { callee, .. } => {
            assert(callee@ == expr_view(**callee));
            match &**callee {
                Expr::Ident(n) => env.info.int_ret.contains(n.as_str()),
                _ => false,
            }
        },
        Expr::Index { obj, index } => {
            assert(obj@ == expr_view(**obj));
            is_int_list(env, obj) && is_idx_intish(env, index)
        },
        _ => false,
    }
}

fn is_int_list(env: &Env, e: &Expr) -> (r: bool)
    ensures
        r == var_in(env@.info.int_list_vars, env@.func, e@),
{
    match e {
        Expr::Ident(n) => env.info.is_int_list_var(env.func, n.as_str()),
        _ => false,
    }
}

fn is_float_list(env: &Env, e: &Expr) -> (r: bool)
    ensures
        r == var_in(env@.info.float_list_vars, env@.func, e@),
{
    match e {
        Expr::Ident(n) => env.info.is_float_list_var(env.func, n.as_str()),
        _ => false,
    }
}

/// Whether an expression is sure to be a float.
pub open spec fn known_float(env: FnEnv, e: ExprView) -> bool
    decreases e,
{
    match e {
        ExprView::Float(_) => true,
        ExprView::Ident(n) => in_table(env.info.float_vars, env.func, n),
        ExprView::Unary { op, expr } => op == UnOp::Neg && known_float(env, *expr),
        ExprView::Binary { op, lhs, rhs } => is_arith(op) && known_float(env, *lhs) && known_float(
            env,
            *rhs,
        ),
        ExprView::Call { callee, .. } => fn_in(env.info.float_ret, *callee),
        ExprView::Index { obj, index } => var_in(env.info.float_list_vars, env.func, *obj)
            && idx_intish(env, *index),
        _ => false,
    }
}

pub fn is_known_float(env: &Env, e: &Expr) -> (r: bool)
    ensures
        r == known_float(env@, e@),
    decreases e,
{
    match e {
        Expr::Float(_) => true,
        Expr::Ident(n) => env.info.is_float_var(env.func, n.as_str()),
        Expr::Unary { op, expr } => *op == UnOp::Neg && is_known_float(env, expr),
        Expr::Binary { op, lhs, rhs } => arith(*op) && is_known_float(env, lhs) && is_known_float(
            env,
            rhs,
        ),
        Expr::Call { callee, .. } => {
            assert(callee@ == expr_view(**callee));
            match &**callee {
                Expr::Ident(n) => env.info.float_ret.contains(n.as_str()),
                _ => false,
            }
        },
        Expr::Index { obj, index } => {
            assert(obj@ == expr_view(**obj));
            is_float_list(env, obj) && is_idx_intish(env, index)
        },
        _ => false,
    }
}

/// Whether a condition compares two known integers.
pub open spec fn is_int_comparison(env: FnEnv, e: ExprView) -> bool {
    match e {
        ExprView::Binary { op, lhs, rhs } => is_comparison(op) && known_int(env, *lhs)
            && known_int(env, *rhs),
        _ => false,
    }
}

pub fn int_comparison(env: &Env, e: &Expr) -> (r: bool)
    ensures
        r == is_int_comparison(env@, e@),
{
    match e {
        Expr::Binary { op, lhs, rhs } => compares(*op) && is_known_int(env, lhs) && is_known_int(
            env,
            rhs,
        ),
        _ => false,
    }
}

pub fn jcc_false_of(e: &Expr) -> (r: &'static str)
    requires
        e is Binary,
    ensures
        r@ == jcc_false(e@->Binary_op),
{
    match e {
        Expr::Binary { op, .. } => jcc_false_str(*op),
        _ => "",
    }
}

/// An operand that needs no code: a constant or an unboxed variable.
pub open spec fn raw_operand(g: Asm, env: FnEnv, e: ExprView) -> Option<Seq<char>> {
    match e {
        ExprView::Int(_) => Some(dec(int_value(e) as int)),
        ExprView::Ident(n) => if env.raw_int.contains(n) {
            match g.int_loc_of(n) {
                Some(r) => Some(r),
                None => match g.local_of(n) {
                    Some(off) => Some("[rbp"@ + dec(off as int) + "]"@),
                    None => None,
                },
            }
        } else {
            None
        },
        _ => None,
    }
}

pub open spec fn float_operand(g: Asm, env: FnEnv, e: ExprView) -> Option<Seq<char>> {
    match e {
        ExprView::Ident(n) => if env.raw_float.contains(n) {
            match g.float_loc_of(n) {
                Some(r) => Some(r),
                None => match g.local_of(n) {
                    Some(off) => Some("[rbp"@ + dec(off as int) + "]"@),
                    None => None,
                },
            }
        } else {
            None
        },
        _ => None,
    }
}

/// A float operand as the source of an instruction.
pub open spec fn xmm_src(op: Seq<char>) -> Seq<char> {
    if starts_with_spec(op, "xmm"@) {
        op
    } else {
        "qword ptr "@ + op
    }
}

pub fn fmt_xmm_src(op: &str) -> (r: String)
    ensures
        r@ == xmm_src(op@),
{
    if starts_with(op, "xmm") {
        op.to_owned()
    } else {
        concat("qword ptr ", op)
    }
}

impl Emitter {
    pub fn find_raw_operand(&self, env: &Env, e: &Expr) -> (r: Option<String>)
        ensures
            text_opt(r) == raw_operand(self@, env@, e@),
    {
        match e {
            Expr::Int(_) => {
                let n: i64 = get_int(e);
                let mut s = String::new();
                push_i64(&mut s, n);
                assert(s@ =~= dec(n as int));
                Some(s)
            },
            Expr::Ident(n) => {
                if env.raw_int.contains(n.as_str()) {
                    match self.int_loc_of(n.as_str()) {
                        Some(r) => Some(r),
                        None => match self.local_of(n.as_str()) {
                            Some(off) => Some(slot_text(off)),
                            None => None,
                        },
                    }
                } else {
                    None
                }
            },
            _ => None,
        }
    }

    pub fn find_float_operand(&self, env: &Env, e: &Expr) -> (r: Option<String>)
        ensures
            text_opt(r) == float_operand(self@, env@, e@),
    {
        match e {
            Expr::Ident(n) => {
                if env.raw_float.contains(n.as_str()) {
                    match self.float_loc_of(n.as_str()) {
                        Some(r) => Some(r),
                        None => match self.local_of(n.as_str()) {
                            Some(off) => Some(slot_text(off)),
                            None => None,
                        },
                    }
                } else {
                    None
                }
            },
            _ => None,
        }
    }
}

/// The ways to evaluate an unboxed integer.
#[derive(Debug, Clone, Copy, PartialEq, Eq, Structural)]
pub enum RawForm {
    Const,
    Var,
    Neg,
    Arith,
    Power,
    Element,
    Call,
    Boxed,
}

pub open spec fn has_raw_entry(env: FnEnv, callee: ExprView, n: nat) -> bool {
    match callee {
        ExprView::Ident(f) => env.info.int_ret.contains(f) && env.raw_entry.contains(f) && arity_of(
            env,
            f,
        ) == Some(n),
        _ => false,
    }
}

pub open spec fn raw_form(env: FnEnv, e: ExprView) -> RawForm {
    match e {
        ExprView::Int(_) => RawForm::Const,
        ExprView::Ident(n) => if env.raw_int.contains(n) {
            RawForm::Var
        } else {
            RawForm::Boxed
        },
        ExprView::Unary { op, expr } => if op == UnOp::Neg && known_int(env, *expr) {
            RawForm::Neg
        } else {
            RawForm::Boxed
        },
        ExprView::Binary { op, lhs, rhs } => if is_arith(op) && known_int(env, *lhs) && known_int(
            env,
            *rhs,
        ) {
            RawForm::Arith
        } else if op == BinOp::Pow && known_int(env, *lhs) && is_small_exp(*rhs) {
            RawForm::Power
        } else {
            RawForm::Boxed
        },
        ExprView::Index { obj, index } => if var_in(env.info.int_list_vars, env.func, *obj)
            && idx_intish(env, *index) {
            RawForm::Element
        } else {
            RawForm::Boxed
        },
        ExprView::Call { callee, args } => if has_raw_entry(env, *callee, args.len()) {
            RawForm::Call
        } else {
            RawForm::Boxed
        },
        _ => RawForm::Boxed,
    }
}

pub fn find_raw_form(env: &Env, e: &Expr) -> (r: RawForm)
    ensures
        r == raw_form(env@, e@),
{
    match e {
        Expr::Int(_) => RawForm::Const,
        Expr::Ident(n) => {
            if env.raw_int.contains(n.as_str()) {
                RawForm::Var
            } else {
                RawForm::Boxed
            }
        },
        Expr::Unary { op, expr } => {
            if *op == UnOp::Neg && is_known_int(env, expr) {
                RawForm::Neg
            } else {
                RawForm::Boxed
            }
        },
        Expr::Binary { op, lhs, rhs } => {
            assert(rhs@ == expr_view(**rhs));
            let small = match &**rhs {
                Expr::Int(n) => 0 <= *n && *n <= 8,
                _ => false,
            };
            if arith(*op) && is_known_int(env, lhs) && is_known_int(env, rhs) {
                RawForm::Arith
            } else if *op == BinOp::Pow && is_known_int(env, lhs) && small {
                RawForm::Power
            } else {
                RawForm::Boxed
            }
        },
        Expr::Index { obj, index } => {
            if is_int_list(env, obj) && is_idx_intish(env, index) {
                RawForm::Element
            } else {
                RawForm::Boxed
            }
        },
        Expr::Call { callee, args } => {
            assert(callee@ == expr_view(**callee));
            assert(exprs_view(args@).len() == args@.len());
            match &**callee {
                Expr::Ident(f) => {
                    let fits = match find_arity(env, f.as_str()) {
                        Some(n) => n == args.len() as u64,
                        None => false,
                    };
                    if env.info.int_ret.contains(f.as_str()) && env.decls.raw_entry.contains(
                        f.as_str(),
                    ) && fits {
                        RawForm::Call
                    } else {
                        RawForm::Boxed
                    }
                },
                _ => RawForm::Boxed,
            }
        },
        _ => RawForm::Boxed,
    }
}

/// The ways to evaluate a float.
#[derive(Debug, Clone, Copy, PartialEq, Eq, Structural)]
pub enum FloatForm {
    Const,
    Var,
    Neg,
    Arith,
    Element,
    Boxed,
}

pub open spec fn float_form(env: FnEnv, e: ExprView) -> FloatForm {
    match e {
        ExprView::Float(_) => FloatForm::Const,
        ExprView::Ident(n) => if env.raw_float.contains(n) {
            FloatForm::Var
        } else {
            FloatForm::Boxed
        },
        ExprView::Unary { op, expr } => if op == UnOp::Neg && known_float(env, *expr) {
            FloatForm::Neg
        } else {
            FloatForm::Boxed
        },
        ExprView::Binary { op, lhs, rhs } => if is_arith(op) && known_float(env, *lhs)
            && known_float(env, *rhs) {
            FloatForm::Arith
        } else {
            FloatForm::Boxed
        },
        ExprView::Index { obj, index } => if var_in(env.info.float_list_vars, env.func, *obj)
            && idx_intish(env, *index) {
            FloatForm::Element
        } else {
            FloatForm::Boxed
        },
        _ => FloatForm::Boxed,
    }
}

pub fn find_float_form(env: &Env, e: &Expr) -> (r: FloatForm)
    ensures
        r == float_form(env@, e@),
{
    match e {
        Expr::Float(_) => FloatForm::Const,
        Expr::Ident(n) => {
            if env.raw_float.contains(n.as_str()) {
                FloatForm::Var
            } else {
                FloatForm::Boxed
            }
        },
        Expr::Unary { op, expr } => {
            if *op == UnOp::Neg && is_known_float(env, expr) {
                FloatForm::Neg
            } else {
                FloatForm::Boxed
            }
        },
        Expr::Binary { op, lhs, rhs } => {
            if arith(*op) && is_known_float(env, lhs) && is_known_float(env, rhs) {
                FloatForm::Arith
            } else {
                FloatForm::Boxed
            }
        },
        Expr::Index { obj, index } => {
            if is_float_list(env, obj) && is_idx_intish(env, index) {
                FloatForm::Element
            } else {
                FloatForm::Boxed
            }
        },
        _ => FloatForm::Boxed,
    }
}

/// The structs that have a method of this name.
pub open spec fn owners(methods: Seq<(Seq<char>, Seq<char>)>, m: Seq<char>) -> Seq<Seq<char>>
    decreases methods.len(),
{
    if methods.len() == 0 {
        Seq::empty()
    } else {
        let init = owners(methods.drop_last(), m);
        if methods.last().1 == m {
            init.push(methods.last().0)
        } else {
            init
        }
    }
}

pub open spec fn has_method(
    methods: Seq<(Seq<char>, Seq<char>)>,
    s: Seq<char>,
    m: Seq<char>,
) -> bool {
    exists|i: int| 0 <= i < methods.len() && #[trigger] methods[i] == (s, m)
}

/// The struct whose method a call means: the enclosing one for `self`, else the only
/// one that has the method.
pub open spec fn resolve(env: FnEnv, obj: ExprView, name: Seq<char>) -> Option<Seq<char>> {
    if obj is SelfExpr && env.struct_hint is Some && has_method(
        env.methods,
        env.struct_hint->Some_0,
        name,
    ) {
        env.struct_hint
    } else if owners(env.methods, name).len() == 1 {
        Some(owners(env.methods, name)[0])
    } else {
        None
    }
}

fn find_method(methods: &Vec<(String, String)>, s: &str, m: &str) -> (r: bool)
    ensures
        r == has_method(pair_view(methods@), s@, m@),
{
    let ghost pv = pair_view(methods@);
    for i in 0..methods.len()
        invariant
            pv == pair_view(methods@),
            forall|k: int| 0 <= k < i ==> #[trigger] pv[k] != (s@, m@),
    {
        assert(pv[i as int] == (methods@[i as int].0@, methods@[i as int].1@));
        if str_eq(methods[i].0.as_str(), s) && str_eq(methods[i].1.as_str(), m) {
            return true;
        }
    }
    false
}

fn only_owner(methods: &Vec<(String, String)>, m: &str) -> (r: Option<String>)
    ensures
        text_opt(r) == (if owners(pair_view(methods@), m@).len() == 1 {
            Some(owners(pair_view(methods@), m@)[0])
        } else {
            None
        }),
{
    let ghost pv = pair_view(methods@);
    let mut found: Option<usize> = None;
    let mut many = false;
    assert(pv.take(0) =~= Seq::empty());
    for i in 0..methods.len()
        invariant
            pv == pair_view(methods@),
            many ==> owners(pv.take(i as int), m@).len() > 1,
            !many && found is None ==> owners(pv.take(i as int), m@).len() == 0,
            !many && found is Some ==> found->Some_0 < i && owners(pv.take(i as int), m@) == seq![
                pv[found->Some_0 as int].0,
            ],
    {
        assert(pv.take(i + 1).drop_last() =~= pv.take(i as int));
        assert(pv[i as int] == (methods@[i as int].0@, methods@[i as int].1@));
        if str_eq(methods[i].1.as_str(), m) {
            if found.is_some() {
                many = true;
            } else {
                found = Some(i);
                assert(!many ==> owners(pv.take(i + 1), m@) =~= seq![pv[i as int].0]);
            }
        }
    }
    assert(pv.take(pv.len() as int) =~= pv);
    if many {
        return None;
    }
    match found {
        Some(i) => Some(methods[i].0.clone()),
        None => None,
    }
}

fn find_resolve(env: &Env, obj: &Expr, name: &str) -> (r: Option<String>)
    ensures
        text_opt(r) == resolve(env@, obj@, name@),
{
    let own = match obj {
        Expr::SelfExpr => match &env.struct_hint {
            Some(h) => find_method(&env.decls.methods, h.as_str(), name),
            None => false,
        },
        _ => false,
    };
    if own {
        match &env.struct_hint {
            Some(h) => Some(h.clone()),
            None => None,
        }
    } else {
        only_owner(&env.decls.methods, name)
    }
}

/// The ways to write a method call.
#[derive(Debug, Clone, Copy, PartialEq, Eq, Structural)]
pub enum MethodForm {
    Module,
    Len,
    Push,
    InPlace,
    Plain,
    Get,
    Insert,
    Replace,
    OneArg,
    User,
    Unknown,
}

pub open spec fn names_module(e: ExprView) -> bool {
    match e {
        ExprView::Ident(m) => is_module_spec(m),
        _ => false,
    }
}

pub open spec fn method_form(env: FnEnv, e: ExprView) -> MethodForm {
    match e {
        ExprView::Method { obj, name, args } => if names_module(*obj) {
            MethodForm::Module
        } else if name == "len"@ && args.len() == 0 {
            MethodForm::Len
        } else if name == "push"@ {
            MethodForm::Push
        } else if name == "reverse"@ || name == "sort"@ {
            MethodForm::InPlace
        } else if is_plain(name) {
            MethodForm::Plain
        } else if name == "get"@ && args.len() > 0 {
            MethodForm::Get
        } else if name == "insert"@ && args.len() == 2 {
            MethodForm::Insert
        } else if name == "replace"@ && args.len() == 2 {
            MethodForm::Replace
        } else if is_one_arg(name) && args.len() == 1 {
            MethodForm::OneArg
        } else if resolve(env, *obj, name) is Some {
            MethodForm::User
        } else {
            MethodForm::Unknown
        },
        _ => MethodForm::Unknown,
    }
}

pub fn find_method_form(env: &Env, e: &Expr) -> (r: MethodForm)
    ensures
        r == method_form(env@, e@),
{
    match e {
        Expr::Method { obj, name, args } => {
            assert(obj@ == expr_view(**obj));
            assert(exprs_view(args@).len() == args@.len());
            let module = match &**obj {
                Expr::Ident(m) => is_module(m.as_str()),
                _ => false,
            };
            let n = name.as_str();
            let k: usize = args.len();
            if module {
                MethodForm::Module
            } else if str_eq(n, "len") && k == 0 {
                MethodForm::Len
            } else if str_eq(n, "push") {
                MethodForm::Push
            } else if str_eq(n, "reverse") || str_eq(n, "sort") {
                MethodForm::InPlace
            } else if has_plain_method(n) {
                MethodForm::Plain
            } else if str_eq(n, "get") && k > 0 {
                MethodForm::Get
            } else if str_eq(n, "insert") && k == 2 {
                MethodForm::Insert
            } else if str_eq(n, "replace") && k == 2 {
                MethodForm::Replace
            } else if has_one_arg_method(n) && k == 1 {
                MethodForm::OneArg
            } else if find_resolve(env, obj, n).is_some() {
                MethodForm::User
            } else {
                MethodForm::Unknown
            }
        },
        _ => MethodForm::Unknown,
    }
}

/// The struct whose method a call of a user's method means.
pub open spec fn resolved(env: FnEnv, e: ExprView) -> Seq<char> {
    match e {
        ExprView::Method { obj, name, .. } => match resolve(env, *obj, name) {
            Some(s) => s,
            None => ""@,
        },
        _ => ""@,
    }
}

pub fn find_resolved(env: &Env, e: &Expr) -> (r: String)
    ensures
        r@ == resolved(env@, e@),
{
    match e {
        Expr::Method { obj, name, .. } => {
            assert(obj@ == expr_view(**obj));
            match find_resolve(env, obj, name.as_str()) {
                Some(s) => s,
                None => "".to_owned(),
            }
        },
        _ => "".to_owned(),
    }
}

/// One slot in front of others.
pub fn with_first(first: i64, rest: Vec<i64>) -> (r: Vec<i64>)
    ensures
        r@ == seq![first] + rest@,
{
    let mut all: Vec<i64> = vec![first];
    let mut rest = rest;
    all.append(&mut rest);
    all
}

/// The ways to write a call.
#[derive(Debug, Clone, Copy, PartialEq, Eq, Structural)]
pub enum CallForm {
    Indirect,
    Builtin,
    Struct,
    Foreign,
    Direct,
    Unknown,
}

pub open spec fn call_form(g: Asm, env: FnEnv, e: ExprView) -> CallForm {
    match e {
        ExprView::Call { callee, .. } => match *callee {
            ExprView::Ident(n) => if g.locals.contains_key(n) && !env.fns.contains_key(n) {
                CallForm::Indirect
            } else if is_builtin_fn(n) {
                CallForm::Builtin
            } else if env.structs.contains_key(n) {
                CallForm::Struct
            } else if env.externs.contains_key(n) {
                CallForm::Foreign
            } else if env.fns.contains_key(n) {
                CallForm::Direct
            } else {
                CallForm::Unknown
            },
            _ => CallForm::Indirect,
        },
        _ => CallForm::Unknown,
    }
}

impl Emitter {
    pub fn find_call_form(&self, env: &Env, e: &Expr) -> (r: CallForm)
        ensures
            r == call_form(self@, env@, e@),
    {
        match e {
            Expr::Call { callee, .. } => {
                assert(callee@ == expr_view(**callee));
                match &**callee {
                    Expr::Ident(name) => {
                        let n = name.as_str();
                        if self.locals.contains(n) && !env.decls.fns.contains(n) {
                            CallForm::Indirect
                        } else if builtin_fn(n) {
                            CallForm::Builtin
                        } else if env.decls.structs.contains(n) {
                            CallForm::Struct
                        } else if env.decls.externs.contains(n) {
                            CallForm::Foreign
                        } else if env.decls.fns.contains(n) {
                            CallForm::Direct
                        } else {
                            CallForm::Unknown
                        }
                    },
                    _ => CallForm::Indirect,
                }
            },
            _ => CallForm::Unknown,
        }
    }
}

} // verus!
