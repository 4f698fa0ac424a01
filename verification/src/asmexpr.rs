//! The x86-64 back end, expressions.
//!
//! A boxed value is a 64-bit word: a float as it is, anything else under a tag in the
//! upper 16 bits. Expressions that are known to be integers or floats are evaluated
//! unboxed. A value that must survive a call stands in a slot of the frame, where the
//! garbage collector finds it.

use crate::analysis::{
    arith, compares, expr_is_bool, gives_bool, is_arith, is_comparison, is_used_expr,
    is_used_optbox, used_expr, used_optbox,
};
use crate::asmops::{arg_reg, arg_reg_str, ffi_float, ffi_is_float};
use crate::asmquery::{
    abs64, arity_of, box_const, boxed_int, builtin_tail, call_form, const_of, exact_log2,
    extern_of, fast, fast_op, fast_op_str, ffi_bytes, ffi_frame_bytes, ffi_ret, field_name,
    fields_of, find_arity, find_builtin_tail, find_const, find_ffi_ret, find_fields,
    find_float_form, find_imm32, find_method_form, find_one_arg_method, find_plain_method,
    find_raw_form, find_resolved, find_small_exp, float_bits, float_form, float_ins, float_ins_str,
    float_operand, fmt_xmm_src, frame_bytes, get_float, get_ident, get_int, ident_name, imm32,
    int_comparison, int_value, is_fast, is_int_comparison, is_known_float, is_known_int, jcc_false,
    jcc_false_of, known_float, known_int, log2_exact, magic_multiplier, magic_pair, magic_shift,
    magnitude, mask_bits, mask_of, method_form, nth_field, one_arg_method, plain_method, raw_form,
    raw_operand, resolved, runtime_op, runtime_op_name, set_cc, set_cc_str, small_exp, stack_bytes,
    struct_of, with_first, xmm_src, CallForm, FfiRet, FloatForm, MethodForm, RawForm,
};
use crate::asmstate::{Asm, Emitter, Env, FnEnv};
use crate::ast::{
    expr_view, exprs_facts, exprs_view, fields_view, named_facts, named_view, optbox_view,
    pairs_facts, pairs_view, params_view, parts_facts, parts_view, BinOp, Expr, ExprView, ExternFn,
    ExternFnView, FStrPart, FStrPartView, Field, FieldView, Param, ParamView, UnOp,
};
use crate::builtins::{lookup, lookup_spec};
use crate::text::{dec_nat, push_u64, starts_with, starts_with_spec, str_eq, texts_view};
use vstd::prelude::*;
use vstd::string::StringExecFns;

verus! {

/// Divides `rax` by a constant, rounding towards zero.
pub open spec fn const_div(g: Asm, env: FnEnv, d: i64) -> Asm {
    let g1 = if d == 1 {
        g
    } else {
        let g2 = if d == -1 {
            let g3 = g.p("    neg rax\n"@);
            g3
        } else {
            let ad = magnitude(d);
            let g4 = match log2_exact(ad) {
                Some(k) => {
                    let g5 = if k == 0 {
                        g
                    } else {
                        let g6 = g.p("    mov rcx, rax\n"@);
                        let g7 = g6.p("    sar rcx, 63\n"@);
                        let c = 64 - k;
                        let g8 = g7.p("    shr rcx, "@).u(c as nat).p("\n"@);
                        let g9 = g8.p("    add rax, rcx\n"@);
                        let g10 = g9.p("    sar rax, "@).u(k as nat).p("\n"@);
                        g10
                    };
                    let g11 = if d < 0 {
                        let g12 = g5.p("    neg rax\n"@);
                        g12
                    } else {
                        g5
                    };
                    g11
                },
                None => {
                    let m = magic_multiplier(ad as int);
                    let s = magic_shift(ad as int);
                    let g13 = g.p("    mov rcx, rax\n"@);
                    let g14 = g13.p("    movabs rdx, "@).n(m as int).p("\n"@);
                    let g15 = g14.p("    imul rdx\n"@);
                    let g16 = g15.p("    mov rax, rdx\n"@);
                    let g17 = if m < 0 {
                        let g18 = g16.p("    add rax, rcx\n"@);
                        g18
                    } else {
                        g16
                    };
                    let g19 = if s > 0 {
                        let g20 = g17.p("    sar rax, "@).u(s as nat).p("\n"@);
                        g20
                    } else {
                        g17
                    };
                    let g21 = g19.p("    mov rcx, rax\n"@);
                    let g22 = g21.p("    shr rcx, 63\n"@);
                    let g23 = g22.p("    add rax, rcx\n"@);
                    let g24 = if d < 0 {
                        let g25 = g23.p("    neg rax\n"@);
                        g25
                    } else {
                        g23
                    };
                    g24
                },
            };
            g4
        };
        g2
    };
    g1
}

/// Puts the boxed value of a variable, or a function as a value, into `rax`.
pub open spec fn load_ident(g: Asm, env: FnEnv, n: Seq<char>) -> Asm {
    let g1 = match g.int_loc_of(n) {
        Some(reg) => {
            let g2 = g.p("    mov rax, "@).p(reg).p("\n"@);
            let g3 = g2.box_int();
            g3
        },
        None => {
            let g4 = match g.local_of(n) {
                Some(off) => {
                    let g5 = g.p("    mov rax, [rbp"@).n(off as int).p("]\n"@);
                    let g6 = if env.raw_int.contains(n) {
                        let g7 = g5.box_int();
                        g7
                    } else {
                        g5
                    };
                    g6
                },
                None => {
                    let g8 = match arity_of(env, n) {
                        Some(arity) => {
                            let g9 = g.p("    lea rcx, [rip + lm_"@).p(n).p("]\n"@);
                            let g10 = g9.p("    mov rdx, "@).u(arity as nat).p("\n"@);
                            let g11 = g10.p("    call lumen_func_new\n"@);
                            g11
                        },
                        None => {
                            let m = "undefined variable '"@ + n
                                + "' - is it spelled correctly and in scope?"@;
                            let g12 = g.fail_here(m);
                            g12
                        },
                    };
                    g8
                },
            };
            g4
        },
    };
    g1
}

pub open spec fn range_loop(g: Asm, env: FnEnv, loff: i64, ioff: i64, hoff: i64) -> Asm {
    let (g1, top) = g.new_label("rtop"@);
    let (g2, end) = g1.new_label("rend"@);
    let g3 = g2.p(top).p(":\n"@);
    let g4 = g3.p("    mov rax, [rbp"@).n(ioff as int).p("]\n    mov rcx, [rbp"@).n(hoff as int)
        .p("]\n    cmp rax, rcx\n    jge "@).p(end).p("\n"@);
    let g5 = g4.p("    mov rcx, [rbp"@).n(ioff as int)
        .p("]\n    call lumen_from_int\n    mov rdx, rax\n    mov rcx, [rbp"@).n(loff as int)
        .p("]\n    call lumen_list_push\n"@);
    let g6 = g5.p("    mov rax, [rbp"@).n(ioff as int).p("]\n    add rax, 1\n    mov [rbp"@)
        .n(ioff as int).p("], rax\n    jmp "@).p(top).p("\n"@);
    let g7 = g6.p(end).p(":\n"@);
    let g8 = g7.p("    mov rax, [rbp"@).n(loff as int).p("]\n"@);
    g8
}

pub open spec fn slow_index(g: Asm, env: FnEnv, objt: i64, idxt: i64) -> Asm {
    let g1 = g.p("    mov rax, [rbp"@).n(idxt as int).p("]\n"@);
    let g2 = g1.box_int();
    let g3 = g2.p("    mov rdx, rax\n"@);
    let g4 = g3.p("    mov rcx, [rbp"@).n(objt as int).p("]\n"@);
    let g5 = g4.p("    call lumen_index_get\n"@);
    g5
}

/// The items of a list in `r8` and the checked index in `r9`.
pub open spec fn list_addr(g: Asm, env: FnEnv, objt: i64, idxt: i64, slow: Seq<char>) -> Asm {
    let g1 = g.p("    mov r8, [rbp"@).n(objt as int).p("]\n"@);
    let g2 = g1.p("    mov r11, 0xFFFFFFFFFFFF\n    and r8, r11\n"@);
    let g3 = g2.p("    mov r9, [rbp"@).n(idxt as int).p("]\n"@);
    let g4 = g3.p("    test r9, r9\n"@);
    let g5 = g4.p("    js "@).p(slow).p("\n"@);
    let g6 = g5.p("    cmp r9, qword ptr [r8+16]\n"@);
    let g7 = g6.p("    jae "@).p(slow).p("\n"@);
    let g8 = g7.p("    mov r8, qword ptr [r8+32]\n"@);
    g8
}

/// Divides the slot by `rax`; a zero divisor goes to the runtime, which raises.
pub open spec fn var_div(g: Asm, env: FnEnv, lt: i64, is_mod: bool) -> Asm {
    let (g1, nz) = g.new_label("divnz"@);
    let (g2, done) = g1.new_label("divdone"@);
    let g3 = g2.p("    test rax, rax\n"@);
    let g4 = g3.p("    jne "@).p(nz).p("\n"@);
    let g5 = g4.box_int();
    let g6 = g5.p("    mov rdx, rax\n"@);
    let g7 = g6.p("    mov rax, [rbp"@).n(lt as int).p("]\n"@);
    let g8 = g7.box_int();
    let g9 = g8.p("    mov rcx, rax\n"@);
    let g10 = if is_mod {
        let g11 = g9.p("    call lumen_mod\n"@);
        g11
    } else {
        let g12 = g9.p("    call lumen_div\n"@);
        g12
    };
    let g13 = g10.unbox_int();
    let g14 = g13.p("    jmp "@).p(done).p("\n"@);
    let g15 = g14.p(nz).p(":\n"@);
    let g16 = g15.p("    mov rcx, rax\n"@);
    let g17 = g16.p("    mov rax, [rbp"@).n(lt as int).p("]\n"@);
    let g18 = g17.p("    cqo\n    idiv rcx\n"@);
    let g19 = if is_mod {
        let g20 = g18.p("    mov rax, rdx\n"@);
        g20
    } else {
        g18
    };
    let g21 = g19.p(done).p(":\n"@);
    g21
}

pub open spec fn compare_set(g: Asm, env: FnEnv, op: BinOp) -> Asm {
    let g1 = g.p("    cmp r8, r9\n"@);
    let cc = set_cc(op);
    let g2 = g1.p("    "@).p(cc).p(" al\n    movzx rax, al\n"@);
    let g3 = g2.p("    mov rcx, 0x7FFA000000000000\n    or rax, rcx\n"@);
    g3
}

pub open spec fn int_op(g: Asm, env: FnEnv, op: BinOp) -> Asm {
    let g1 = if is_comparison(op) {
        let g2 = compare_set(g, env, op);
        g2
    } else {
        let kind = fast_op(op);
        let g3 = g.p("    "@).p(kind).p(" r8, r9\n"@);
        let g4 = g3.p("    mov rax, r8\n"@);
        let g5 = g4.box_int();
        g5
    };
    g1
}

pub open spec fn float_apply(g: Asm, env: FnEnv, op: BinOp) -> Asm {
    let g1 = if op == BinOp::Mod {
        let g2 = g.p("    movapd xmm2, xmm0\n"@);
        let g3 = g2.p("    divsd xmm0, xmm1\n"@);
        let g4 = g3.p("    cvttsd2si rax, xmm0\n"@);
        let g5 = g4.p("    cvtsi2sd xmm0, rax\n"@);
        let g6 = g5.p("    mulsd xmm0, xmm1\n"@);
        let g7 = g6.p("    subsd xmm2, xmm0\n"@);
        let g8 = g7.p("    movapd xmm0, xmm2\n"@);
        g8
    } else {
        let ins = float_ins(op);
        let g9 = g.p("    "@).p(ins).p(" xmm0, xmm1\n"@);
        g9
    };
    g1
}

/// A call with the arguments in the given slots: four in registers, the rest on the
/// stack above the shadow space, with `rsp` kept aligned.
pub open spec fn load_args(g: Asm, env: FnEnv, slots: Seq<i64>, sym: Seq<char>) -> Asm {
    let n = slots.len();
    let g1 = if n <= 4 {
        let g2 = g.load_regs(slots, slots.len(), 0);
        let g3 = g2.p("    call "@).p(sym).p("\n"@);
        g3
    } else {
        let g4 = if n > 0x1000_0000 {
            let g5 = g.fail("too many arguments"@);
            g5
        } else {
            let bytes = stack_bytes(n);
            let g6 = g.p("    sub rsp, "@).u(bytes as nat).p("\n"@);
            let g7 = g6.push_stack(slots, slots.len());
            let g8 = g7.load_regs(slots, 4, 0);
            let g9 = g8.p("    call "@).p(sym).p("\n"@);
            let g10 = g9.p("    add rsp, "@).u(bytes as nat).p("\n"@);
            g10
        };
        g4
    };
    g1
}

/// Evaluates the first `k` expressions into slots.
pub open spec fn slots_of(g: Asm, env: FnEnv, s: Seq<ExprView>, k: nat) -> (Asm, Seq<i64>)
    decreases s, 9nat, k,
{
    if k == 0 || k > s.len() {
        (g, Seq::empty())
    } else {
        let (g0, slots) = slots_of(g, env, s, (k - 1) as nat);
        let i = k - 1;
        let e = s[i];
        let g1 = gen_expr(g0, env, e);
        let (g2, t) = g1.temp();
        let g3 = g2.p("    mov [rbp"@).n(t as int).p("], rax\n"@);
        (g3, slots.push(t))
    }
}

pub open spec fn raw_slots_of(g: Asm, env: FnEnv, s: Seq<ExprView>, k: nat) -> (Asm, Seq<i64>)
    decreases s, 9nat, k,
{
    if k == 0 || k > s.len() {
        (g, Seq::empty())
    } else {
        let (g0, slots) = raw_slots_of(g, env, s, (k - 1) as nat);
        let i = k - 1;
        let e = s[i];
        let g1 = eval_raw(g0, env, e);
        let (g2, t) = g1.temp();
        let g3 = g2.p("    mov [rbp"@).n(t as int).p("], rax\n"@);
        (g3, slots.push(t))
    }
}

pub open spec fn list_items(g: Asm, env: FnEnv, s: Seq<ExprView>, k: nat, off: i64) -> Asm
    decreases s, 9nat, k,
{
    if k == 0 || k > s.len() {
        g
    } else {
        let g0 = list_items(g, env, s, (k - 1) as nat, off);
        let i = k - 1;
        let e = s[i];
        let g1 = gen_expr(g0, env, e);
        let g2 = g1.p("    mov rdx, rax\n    mov rcx, [rbp"@).n(off as int).p("]\n"@);
        let g3 = g2.p("    call lumen_list_push\n"@);
        g3
    }
}

pub open spec fn print_parts(g: Asm, env: FnEnv, s: Seq<ExprView>, k: nat) -> Asm
    decreases s, 9nat, k,
{
    if k == 0 || k > s.len() {
        g
    } else {
        let g0 = print_parts(g, env, s, (k - 1) as nat);
        let i = k - 1;
        let e = s[i];
        let g1 = if i > 0 {
            let g2 = g0.p("    call lumen_print_space\n"@);
            g2
        } else {
            g0
        };
        let g3 = gen_expr(g1, env, e);
        let g4 = g3.p("    mov rcx, rax\n    call lumen_print_part\n"@);
        g4
    }
}

pub open spec fn closure_caps(g: Asm, env: FnEnv, s: Seq<ExprView>, k: nat, off: i64) -> Asm
    decreases s, 9nat, k,
{
    if k == 0 || k > s.len() {
        g
    } else {
        let g0 = closure_caps(g, env, s, (k - 1) as nat, off);
        let i = k - 1;
        let e = s[i];
        let g1 = gen_expr(g0, env, e);
        let g2 = g1.p("    mov r8, rax\n"@);
        let g3 = g2.p("    mov rdx, "@).u(i as nat).p("\n"@);
        let g4 = g3.p("    mov rcx, [rbp"@).n(off as int).p("]\n"@);
        let g5 = g4.p("    call lumen_closure_set_cap\n"@);
        g5
    }
}

pub open spec fn map_entries(
    g: Asm,
    env: FnEnv,
    s: Seq<(ExprView, ExprView)>,
    k: nat,
    off: i64,
) -> Asm
    decreases s, 9nat, k,
{
    if k == 0 || k > s.len() {
        g
    } else {
        let g0 = map_entries(g, env, s, (k - 1) as nat, off);
        let i = k - 1;
        let (a, b) = s[i];
        let g1 = gen_expr(g0, env, a);
        let (g2, koff) = g1.temp();
        let g3 = g2.p("    mov [rbp"@).n(koff as int).p("], rax\n"@);
        let g4 = gen_expr(g3, env, b);
        let g5 = g4.p("    mov r8, rax\n"@);
        let g6 = g5.p("    mov rdx, [rbp"@).n(koff as int).p("]\n"@);
        let g7 = g6.p("    mov rcx, [rbp"@).n(off as int).p("]\n"@);
        let g8 = g7.p("    call lumen_map_set\n"@);
        g8
    }
}

pub open spec fn fstr_parts(g: Asm, env: FnEnv, s: Seq<FStrPartView>, k: nat, acc: i64) -> Asm
    decreases s, 9nat, k,
{
    if k == 0 || k > s.len() {
        g
    } else {
        let g0 = fstr_parts(g, env, s, (k - 1) as nat, acc);
        let i = k - 1;
        let part = s[i];
        let g1 = match part {
            FStrPartView::Lit(l) => {
                let (g2, lbl) = g0.add_string(l);
                let g3 = g2.p("    lea rcx, [rip + "@).p(lbl).p("]\n"@);
                let g4 = g3.p("    call lumen_str_new\n"@);
                g4
            },
            FStrPartView::Expr(x) => {
                let g5 = gen_expr(g0, env, x);
                let g6 = g5.p("    mov rcx, rax\n    call lumen_to_str\n"@);
                g6
            },
        };
        let g7 = g1.p("    mov rdx, rax\n"@);
        let g8 = g7.p("    mov rcx, [rbp"@).n(acc as int).p("]\n"@);
        let g9 = g8.p("    call lumen_str_concat\n"@);
        let g10 = g9.p("    mov [rbp"@).n(acc as int).p("], rax\n"@);
        g10
    }
}

pub open spec fn set_fields(
    g: Asm,
    env: FnEnv,
    s: Seq<(Seq<char>, ExprView)>,
    k: nat,
    soff: i64,
) -> Asm
    decreases s, 9nat, k,
{
    if k == 0 || k > s.len() {
        g
    } else {
        let g0 = set_fields(g, env, s, (k - 1) as nat, soff);
        let i = k - 1;
        let (name, e) = s[i];
        let g1 = gen_expr(g0, env, e);
        let (g2, v) = g1.temp();
        let g3 = g2.p("    mov [rbp"@).n(v as int).p("], rax\n"@);
        let (g4, fl) = g3.add_string(name);
        let g5 = g4.p("    mov rcx, [rbp"@).n(soff as int).p("]\n"@);
        let g6 = g5.p("    lea rdx, [rip + "@).p(fl).p("]\n"@);
        let g7 = g6.p("    mov r8, [rbp"@).n(v as int).p("]\n"@);
        let g8 = g7.p("    call lumen_struct_set\n"@);
        g8
    }
}

pub open spec fn set_positional(
    g: Asm,
    env: FnEnv,
    s: Seq<ExprView>,
    k: nat,
    soff: i64,
    fields: Seq<FieldView>,
) -> Asm
    decreases s, 9nat, k,
{
    if k == 0 || k > s.len() {
        g
    } else {
        let g0 = set_positional(g, env, s, (k - 1) as nat, soff, fields);
        let i = k - 1;
        let e = s[i];
        let g1 = gen_expr(g0, env, e);
        let (g2, v) = g1.temp();
        let g3 = g2.p("    mov [rbp"@).n(v as int).p("], rax\n"@);
        let fname = field_name(fields, i as int);
        let (g4, fl) = g3.add_string(fname);
        let g5 = g4.p("    mov rcx, [rbp"@).n(soff as int).p("]\n"@);
        let g6 = g5.p("    lea rdx, [rip + "@).p(fl).p("]\n"@);
        let g7 = g6.p("    mov r8, [rbp"@).n(v as int).p("]\n"@);
        let g8 = g7.p("    call lumen_struct_set\n"@);
        g8
    }
}

pub open spec fn ffi_slots(
    g: Asm,
    env: FnEnv,
    s: Seq<ExprView>,
    k: nat,
    params: Seq<ParamView>,
) -> (Asm, Seq<i64>)
    decreases s, 9nat, k,
{
    if k == 0 || k > s.len() {
        (g, Seq::empty())
    } else {
        let (g0, slots) = ffi_slots(g, env, s, (k - 1) as nat, params);
        let i = k - 1;
        let e = s[i];
        let g1 = gen_expr(g0, env, e);
        let g2 = if ffi_float(params, i as int) {
            let g3 = g1.p("    mov rcx, rax\n    call lumen_ffi_argdouble\n"@);
            g3
        } else {
            let g4 = g1.p("    mov rcx, rax\n    call lumen_ffi_argint\n"@);
            g4
        };
        let (g5, t) = g2.temp();
        let g6 = g5.p("    mov [rbp"@).n(t as int).p("], rax\n"@);
        (g6, slots.push(t))
    }
}

/// Evaluates the operands of an operation on known integers into `r8` and `r9`.
pub open spec fn int_operands(g: Asm, env: FnEnv, e: ExprView) -> Asm
    decreases e, 1nat, 0nat,
{
    let g1 = match e {
        ExprView::Binary { op: _, lhs, rhs } => {
            let l = raw_operand(g, env, *lhs);
            let r = raw_operand(g, env, *rhs);
            let g2 = match r {
                Some(rr) => {
                    let g3 = match l {
                        Some(ll) => {
                            let g4 = g.p("    mov r8, "@).p(ll).p("\n"@);
                            let g5 = g4.p("    mov r9, "@).p(rr).p("\n"@);
                            g5
                        },
                        None => {
                            let g6 = eval_raw(g, env, *lhs);
                            let g7 = g6.p("    mov r8, rax\n"@);
                            let g8 = g7.p("    mov r9, "@).p(rr).p("\n"@);
                            g8
                        },
                    };
                    g3
                },
                None => {
                    let g9 = match l {
                        Some(ll) => {
                            let g10 = eval_raw(g, env, *rhs);
                            let g11 = g10.p("    mov r9, rax\n"@);
                            let g12 = g11.p("    mov r8, "@).p(ll).p("\n"@);
                            g12
                        },
                        None => {
                            let g13 = eval_raw(g, env, *lhs);
                            let (g14, lt) = g13.temp();
                            let g15 = g14.p("    mov [rbp"@).n(lt as int).p("], rax\n"@);
                            let g16 = eval_raw(g15, env, *rhs);
                            let g17 = g16.p("    mov r9, rax\n"@);
                            let g18 = g17.p("    mov r8, [rbp"@).n(lt as int).p("]\n"@);
                            g18
                        },
                    };
                    g9
                },
            };
            g2
        },
        _ => {
            g
        },
    };
    g1
}

/// Jumps to `target` where a condition is false.
pub open spec fn cond_false(g: Asm, env: FnEnv, e: ExprView, target: Seq<char>) -> Asm
    decreases e, 6nat, 0nat,
{
    let g1 = if is_int_comparison(env, e) {
        let g2 = int_operands(g, env, e);
        let g3 = g2.p("    cmp r8, r9\n"@);
        let jcc = jcc_false(e->Binary_op);
        let g4 = g3.p("    "@).p(jcc).p(" "@).p(target).p("\n"@);
        g4
    } else {
        let g5 = gen_expr(g, env, e);
        let g6 = if gives_bool(e) {
            let g7 = g5.p("    test al, 1\n"@);
            let g8 = g7.p("    jz "@).p(target).p("\n"@);
            g8
        } else {
            let g9 = g5.p("    mov rcx, rax\n    call lumen_truthy\n"@);
            let g10 = g9.p("    cmp rax, 0\n"@);
            let g11 = g10.p("    je "@).p(target).p("\n"@);
            g11
        };
        g6
    };
    g1
}

pub open spec fn expr_lambda(g: Asm, env: FnEnv, e: ExprView) -> Asm
    decreases e, 2nat, 0nat,
{
    let g1 = match e {
        ExprView::Lambda { .. } => {
            let g2 = g.fail("internal: unlifted lambda in codegen"@);
            g2
        },
        _ => {
            g
        },
    };
    g1
}

pub open spec fn expr_closure(g: Asm, env: FnEnv, e: ExprView) -> Asm
    decreases e, 2nat, 0nat,
{
    let g1 = match e {
        ExprView::Closure { fn_name, captures } => {
            let g2 = match arity_of(env, fn_name) {
                Some(total) => {
                    let g3 = if total < captures.len() {
                        let g4 = g.fail("internal: closure captures more than its parameters"@);
                        g4
                    } else {
                        let ncap = captures.len();
                        let user = total - ncap;
                        let g5 = g.p("    lea rcx, [rip + lm_"@).p(fn_name).p("]\n"@);
                        let g6 = g5.p("    mov rdx, "@).u(user as nat).p("\n"@);
                        let g7 = g6.p("    mov r8, "@).u(ncap as nat).p("\n"@);
                        let g8 = g7.p("    call lumen_closure_new\n"@);
                        let (g9, coff) = g8.temp();
                        let g10 = g9.p("    mov [rbp"@).n(coff as int).p("], rax\n"@);
                        let g11 = closure_caps(g10, env, captures, captures.len(), coff);
                        let g12 = g11.p("    mov rax, [rbp"@).n(coff as int).p("]\n"@);
                        g12
                    };
                    g3
                },
                None => {
                    let m = "internal: unknown closure '"@ + fn_name + "'"@;
                    let g13 = g.fail_here(m);
                    g13
                },
            };
            g2
        },
        _ => {
            g
        },
    };
    g1
}

pub open spec fn expr_int(g: Asm, env: FnEnv, e: ExprView) -> Asm
    decreases e, 2nat, 0nat,
{
    let g1 = match e {
        ExprView::Int(n) => {
            let boxed = boxed_int(n);
            let g2 = g.p("    mov rax, "@).u(boxed as nat).p("\n"@);
            g2
        },
        _ => {
            g
        },
    };
    g1
}

pub open spec fn expr_float(g: Asm, env: FnEnv, e: ExprView) -> Asm
    decreases e, 2nat, 0nat,
{
    let g1 = match e {
        ExprView::Float(b) => {
            let g2 = g.p("    mov rax, "@).u(b as nat).p("\n"@);
            let g3 = g2.p("    movq xmm0, rax\n    call lumen_from_double\n"@);
            g3
        },
        _ => {
            g
        },
    };
    g1
}

pub open spec fn expr_bool(g: Asm, env: FnEnv, e: ExprView) -> Asm
    decreases e, 2nat, 0nat,
{
    let g1 = match e {
        ExprView::Bool(b) => {
            let g2 = if b {
                let g3 = g.p("    mov rax, 9221401712017801217\n"@);
                g3
            } else {
                let g4 = g.p("    mov rax, 9221401712017801216\n"@);
                g4
            };
            g2
        },
        _ => {
            g
        },
    };
    g1
}

pub open spec fn expr_nil(g: Asm, env: FnEnv, e: ExprView) -> Asm
    decreases e, 2nat, 0nat,
{
    let g1 = match e {
        ExprView::Nil => {
            let g2 = g.p("    mov rax, 9221683186994511872\n"@);
            g2
        },
        _ => {
            g
        },
    };
    g1
}

pub open spec fn expr_str(g: Asm, env: FnEnv, e: ExprView) -> Asm
    decreases e, 2nat, 0nat,
{
    let g1 = match e {
        ExprView::Str(s) => {
            let (g2, lbl) = g.add_string(s);
            let g3 = g2.p("    lea rcx, [rip + "@).p(lbl).p("]\n"@);
            let g4 = g3.p("    call lumen_str_new\n"@);
            g4
        },
        _ => {
            g
        },
    };
    g1
}

pub open spec fn expr_f_str(g: Asm, env: FnEnv, e: ExprView) -> Asm
    decreases e, 2nat, 0nat,
{
    let g1 = match e {
        ExprView::FStr(ps) => {
            let g2 = g.p("    lea rcx, [rip + .empty_str]\n    call lumen_str_new\n"@);
            let g3 = g2.want_empty_str();
            let (g4, acc) = g3.temp();
            let g5 = g4.p("    mov [rbp"@).n(acc as int).p("], rax\n"@);
            let g6 = fstr_parts(g5, env, ps, ps.len(), acc);
            let g7 = g6.p("    mov rax, [rbp"@).n(acc as int).p("]\n"@);
            g7
        },
        _ => {
            g
        },
    };
    g1
}

pub open spec fn expr_ident(g: Asm, env: FnEnv, e: ExprView) -> Asm
    decreases e, 2nat, 0nat,
{
    let g1 = match e {
        ExprView::Ident(n) => {
            let g2 = load_ident(g, env, n);
            g2
        },
        _ => {
            g
        },
    };
    g1
}

pub open spec fn expr_self_expr(g: Asm, env: FnEnv, e: ExprView) -> Asm
    decreases e, 2nat, 0nat,
{
    let g1 = match e {
        ExprView::SelfExpr => {
            let g2 = match g.local_of("self"@) {
                Some(off) => {
                    let g3 = g.p("    mov rax, [rbp"@).n(off as int).p("]\n"@);
                    g3
                },
                None => {
                    let g4 = g.fail("native: self not in scope"@);
                    g4
                },
            };
            g2
        },
        _ => {
            g
        },
    };
    g1
}

pub open spec fn expr_list(g: Asm, env: FnEnv, e: ExprView) -> Asm
    decreases e, 2nat, 0nat,
{
    let g1 = match e {
        ExprView::List(xs) => {
            let n = xs.len();
            let g2 = g.p("    mov rcx, "@).u(n as nat).p("\n"@);
            let g3 = g2.p("    call lumen_list_new\n"@);
            let (g4, loff) = g3.temp();
            let g5 = g4.p("    mov [rbp"@).n(loff as int).p("], rax\n"@);
            let g6 = list_items(g5, env, xs, xs.len(), loff);
            let g7 = g6.p("    mov rax, [rbp"@).n(loff as int).p("]\n"@);
            g7
        },
        _ => {
            g
        },
    };
    g1
}

pub open spec fn expr_map_lit(g: Asm, env: FnEnv, e: ExprView) -> Asm
    decreases e, 2nat, 0nat,
{
    let g1 = match e {
        ExprView::MapLit(kvs) => {
            let g2 = g.p("    call lumen_map_new\n"@);
            let (g3, moff) = g2.temp();
            let g4 = g3.p("    mov [rbp"@).n(moff as int).p("], rax\n"@);
            let g5 = map_entries(g4, env, kvs, kvs.len(), moff);
            let g6 = g5.p("    mov rax, [rbp"@).n(moff as int).p("]\n"@);
            g6
        },
        _ => {
            g
        },
    };
    g1
}

pub open spec fn expr_range(g: Asm, env: FnEnv, e: ExprView) -> Asm
    decreases e, 2nat, 0nat,
{
    let g1 = match e {
        ExprView::Range { lo, hi } => {
            let g2 = g.p("    mov rcx, 0\n    call lumen_list_new\n"@);
            let (g3, loff) = g2.temp();
            let g4 = g3.p("    mov [rbp"@).n(loff as int).p("], rax\n"@);
            let g5 = gen_expr(g4, env, *lo);
            let g6 = g5.p("    mov rcx, rax\n    call lumen_to_int\n"@);
            let (g7, ioff) = g6.temp();
            let g8 = g7.p("    mov [rbp"@).n(ioff as int).p("], rax\n"@);
            let g9 = gen_expr(g8, env, *hi);
            let g10 = g9.p("    mov rcx, rax\n    call lumen_to_int\n"@);
            let (g11, hoff) = g10.temp();
            let g12 = g11.p("    mov [rbp"@).n(hoff as int).p("], rax\n"@);
            let g13 = range_loop(g12, env, loff, ioff, hoff);
            g13
        },
        _ => {
            g
        },
    };
    g1
}

pub open spec fn expr_if_else(g: Asm, env: FnEnv, e: ExprView) -> Asm
    decreases e, 2nat, 0nat,
{
    let g1 = match e {
        ExprView::IfElse { cond, then, els } => {
            let (g2, else_lbl) = g.new_label("cond_else"@);
            let (g3, end_lbl) = g2.new_label("cond_end"@);
            let g4 = gen_expr(g3, env, *cond);
            let g5 = g4.p("    mov rcx, rax\n    call lumen_truthy\n    cmp rax, 0\n"@);
            let g6 = g5.p("    je "@).p(else_lbl).p("\n"@);
            let g7 = gen_expr(g6, env, *then);
            let g8 = g7.p("    jmp "@).p(end_lbl).p("\n"@);
            let g9 = g8.p(else_lbl).p(":\n"@);
            let g10 = gen_expr(g9, env, *els);
            let g11 = g10.p(end_lbl).p(":\n"@);
            g11
        },
        _ => {
            g
        },
    };
    g1
}

pub open spec fn expr_index(g: Asm, env: FnEnv, e: ExprView) -> Asm
    decreases e, 2nat, 0nat,
{
    let g1 = match e {
        ExprView::Index { obj, index } => {
            let g2 = gen_expr(g, env, *obj);
            let (g3, o) = g2.temp();
            let g4 = g3.p("    mov [rbp"@).n(o as int).p("], rax\n"@);
            let g5 = gen_expr(g4, env, *index);
            let g6 = g5.p("    mov rdx, rax\n"@);
            let g7 = g6.p("    mov rcx, [rbp"@).n(o as int).p("]\n"@);
            let g8 = g7.p("    call lumen_index_get\n"@);
            g8
        },
        _ => {
            g
        },
    };
    g1
}

pub open spec fn expr_slice(g: Asm, env: FnEnv, e: ExprView) -> Asm
    decreases e, 2nat, 0nat,
{
    let g1 = match e {
        ExprView::Slice { obj, lo, hi } => {
            let g2 = gen_expr(g, env, *obj);
            let (g3, o) = g2.temp();
            let g4 = g3.p("    mov [rbp"@).n(o as int).p("], rax\n"@);
            let g5 = gen_opt(g4, env, lo);
            let (g6, lt) = g5.temp();
            let g7 = g6.p("    mov [rbp"@).n(lt as int).p("], rax\n"@);
            let g8 = gen_opt(g7, env, hi);
            let (g9, ht) = g8.temp();
            let g10 = g9.p("    mov [rbp"@).n(ht as int).p("], rax\n"@);
            let g11 = g10.p("    mov rcx, [rbp"@).n(o as int).p("]\n"@);
            let g12 = g11.p("    mov rdx, [rbp"@).n(lt as int).p("]\n"@);
            let g13 = g12.p("    mov r8, [rbp"@).n(ht as int).p("]\n"@);
            let g14 = g13.p("    call lumen_slice\n"@);
            g14
        },
        _ => {
            g
        },
    };
    g1
}

pub open spec fn expr_field(g: Asm, env: FnEnv, e: ExprView) -> Asm
    decreases e, 2nat, 0nat,
{
    let g1 = match e {
        ExprView::Field { obj, name } => {
            let g2 = gen_expr(g, env, *obj);
            let (g3, lbl) = g2.add_string(name);
            let g4 = g3.p("    mov rcx, rax\n"@);
            let g5 = g4.p("    lea rdx, [rip + "@).p(lbl).p("]\n"@);
            let g6 = g5.p("    call lumen_struct_get\n"@);
            g6
        },
        _ => {
            g
        },
    };
    g1
}

pub open spec fn expr_unary(g: Asm, env: FnEnv, e: ExprView) -> Asm
    decreases e, 2nat, 0nat,
{
    let g1 = match e {
        ExprView::Unary { op, expr } => {
            let g2 = if op == UnOp::Neg && known_float(env, *expr) {
                let g3 = float_neg(g, env, e);
                let g4 = g3.p("    movq rax, xmm0\n"@);
                g4
            } else {
                let g5 = gen_expr(g, env, *expr);
                let g6 = if op == UnOp::Neg {
                    let g7 = g5.p("    mov rcx, rax\n    call lumen_neg\n"@);
                    g7
                } else {
                    let g8 = g5.p("    mov rcx, rax\n    call lumen_truthy\n"@);
                    let g9 = g8.p(
                        "    cmp rax, 0\n    sete cl\n    movzx rcx, cl\n    call lumen_bool\n"@,
                    );
                    g9
                };
                g6
            };
            g2
        },
        _ => {
            g
        },
    };
    g1
}

/// The code that puts the boxed value of an expression into `rax`.
pub open spec fn gen_expr(g: Asm, env: FnEnv, e: ExprView) -> Asm
    decreases e, 3nat, 0nat,
{
    let g1 = match e {
        ExprView::Lambda { .. } => {
            let g2 = expr_lambda(g, env, e);
            g2
        },
        ExprView::Closure { .. } => {
            let g3 = expr_closure(g, env, e);
            g3
        },
        ExprView::Int(_) => {
            let g4 = expr_int(g, env, e);
            g4
        },
        ExprView::Float(_) => {
            let g5 = expr_float(g, env, e);
            g5
        },
        ExprView::Bool(_) => {
            let g6 = expr_bool(g, env, e);
            g6
        },
        ExprView::Nil => {
            let g7 = expr_nil(g, env, e);
            g7
        },
        ExprView::Str(_) => {
            let g8 = expr_str(g, env, e);
            g8
        },
        ExprView::FStr(_) => {
            let g9 = expr_f_str(g, env, e);
            g9
        },
        ExprView::Ident(_) => {
            let g10 = expr_ident(g, env, e);
            g10
        },
        ExprView::SelfExpr => {
            let g11 = expr_self_expr(g, env, e);
            g11
        },
        ExprView::List(_) => {
            let g12 = expr_list(g, env, e);
            g12
        },
        ExprView::ListComp { .. } => {
            let g13 = gen_comp(g, env, e);
            g13
        },
        ExprView::MapLit(_) => {
            let g14 = expr_map_lit(g, env, e);
            g14
        },
        ExprView::Range { .. } => {
            let g15 = expr_range(g, env, e);
            g15
        },
        ExprView::IfElse { .. } => {
            let g16 = expr_if_else(g, env, e);
            g16
        },
        ExprView::Index { .. } => {
            let g17 = expr_index(g, env, e);
            g17
        },
        ExprView::Slice { .. } => {
            let g18 = expr_slice(g, env, e);
            g18
        },
        ExprView::Field { .. } => {
            let g19 = expr_field(g, env, e);
            g19
        },
        ExprView::Unary { .. } => {
            let g20 = expr_unary(g, env, e);
            g20
        },
        ExprView::Binary { .. } => {
            let g21 = gen_binary(g, env, e);
            g21
        },
        ExprView::Method { .. } => {
            let g22 = gen_method(g, env, e);
            g22
        },
        ExprView::Call { .. } => {
            let g23 = gen_call(g, env, e);
            g23
        },
        ExprView::NamedCall { .. } => {
            let g24 = gen_named_call(g, env, e);
            g24
        },
    };
    g1
}

pub open spec fn gen_opt(g: Asm, env: FnEnv, o: Option<Box<ExprView>>) -> Asm
    decreases o, 0nat, 0nat,
{
    let g1 = match o {
        Some(x) => {
            let g2 = gen_expr(g, env, *x);
            g2
        },
        None => {
            let g3 = g.p("    call lumen_nil\n"@);
            g3
        },
    };
    g1
}

pub open spec fn float_neg(g: Asm, env: FnEnv, e: ExprView) -> Asm
    decreases e, 1nat, 0nat,
{
    let g1 = match e {
        ExprView::Unary { expr, .. } => {
            let g2 = eval_raw_float(g, env, *expr);
            let g3 = g2.p("    movq rax, xmm0\n"@);
            let g4 = g3.p("    mov rcx, 0x8000000000000000\n    xor rax, rcx\n"@);
            let g5 = g4.p("    movq xmm0, rax\n"@);
            g5
        },
        _ => {
            g
        },
    };
    g1
}

pub open spec fn float_binary(g: Asm, env: FnEnv, e: ExprView) -> Asm
    decreases e, 1nat, 0nat,
{
    let g1 = match e {
        ExprView::Binary { op, lhs, rhs } => {
            let r = if op == BinOp::Mod {
                None
            } else {
                float_operand(g, env, *rhs)
            };
            let l = if op == BinOp::Mod {
                None
            } else {
                float_operand(g, env, *lhs)
            };
            let g2 = match r {
                Some(rr) => {
                    let g3 = eval_raw_float(g, env, *lhs);
                    let ins = float_ins(op);
                    let src = xmm_src(rr);
                    let g4 = g3.p("    "@).p(ins).p(" xmm0, "@).p(src).p("\n"@);
                    g4
                },
                None => {
                    let g5 = match l {
                        Some(ll) => {
                            let g6 = eval_raw_float(g, env, *rhs);
                            let ins = float_ins(op);
                            let g7 = if op == BinOp::Add || op == BinOp::Mul {
                                let src = xmm_src(ll);
                                let g8 = g6.p("    "@).p(ins).p(" xmm0, "@).p(src).p("\n"@);
                                g8
                            } else {
                                let g9 = g6.p("    movapd xmm1, xmm0\n"@);
                                let g10 = if starts_with_spec(ll, "xmm"@) {
                                    let g11 = g9.p("    movapd xmm0, "@).p(ll).p("\n"@);
                                    g11
                                } else {
                                    let g12 = g9.p("    movsd xmm0, qword ptr "@).p(ll).p("\n"@);
                                    g12
                                };
                                let g13 = g10.p("    "@).p(ins).p(" xmm0, xmm1\n"@);
                                g13
                            };
                            g7
                        },
                        None => {
                            let g14 = eval_raw_float(g, env, *lhs);
                            let (g15, lt) = g14.temp();
                            let g16 = g15.p("    movsd qword ptr [rbp"@).n(lt as int)
                                .p("], xmm0\n"@);
                            let g17 = eval_raw_float(g16, env, *rhs);
                            let g18 = g17.p("    movapd xmm1, xmm0\n"@);
                            let g19 = g18.p("    movsd xmm0, qword ptr [rbp"@).n(lt as int)
                                .p("]\n"@);
                            let g20 = float_apply(g19, env, op);
                            g20
                        },
                    };
                    g5
                },
            };
            g2
        },
        _ => {
            g
        },
    };
    g1
}

pub open spec fn gen_binary(g: Asm, env: FnEnv, e: ExprView) -> Asm
    decreases e, 2nat, 0nat,
{
    let g1 = match e {
        ExprView::Binary { op, lhs, rhs } => {
            let g2 = if is_arith(op) && known_float(env, *lhs) && known_float(env, *rhs) {
                let g3 = float_binary(g, env, e);
                let g4 = g3.p("    movq rax, xmm0\n"@);
                g4
            } else {
                let g5 = if op == BinOp::And || op == BinOp::Or {
                    let (g6, lbl) = g.new_label("sc"@);
                    let g7 = gen_expr(g6, env, *lhs);
                    let (g8, lt) = g7.temp();
                    let g9 = g8.p("    mov [rbp"@).n(lt as int).p("], rax\n"@);
                    let g10 = g9.p("    mov rcx, rax\n    call lumen_truthy\n    cmp rax, 0\n"@);
                    let g11 = if op == BinOp::And {
                        let g12 = g10.p("    je "@).p(lbl).p("\n"@);
                        g12
                    } else {
                        let g13 = g10.p("    jne "@).p(lbl).p("\n"@);
                        g13
                    };
                    let g14 = gen_expr(g11, env, *rhs);
                    let g15 = g14.p("    jmp "@).p(lbl).p("_end\n"@);
                    let g16 = g15.p(lbl).p(":\n    mov rax, [rbp"@).n(lt as int).p("]\n"@)
                        .p(lbl).p("_end:\n"@);
                    g16
                } else {
                    let g17 = if is_fast(op) && known_int(env, *lhs) && known_int(env, *rhs) {
                        let g18 = int_operands(g, env, e);
                        let g19 = int_op(g18, env, op);
                        g19
                    } else {
                        let g20 = gen_expr(g, env, *lhs);
                        let (g21, lt) = g20.temp();
                        let g22 = g21.p("    mov [rbp"@).n(lt as int).p("], rax\n"@);
                        let g23 = gen_expr(g22, env, *rhs);
                        let g24 = g23.p("    mov rdx, rax\n"@);
                        let g25 = g24.p("    mov rcx, [rbp"@).n(lt as int).p("]\n"@);
                        let f = runtime_op(op);
                        let g26 = if is_fast(op) {
                            let (g27, slow) = g25.new_label("bin_slow"@);
                            let (g28, done) = g27.new_label("bin_done"@);
                            let g29 = g28.p(
                                "    mov r8, rcx\n    shr r8, 48\n    cmp r8, 0x7FF9\n"@,
                            );
                            let g30 = g29.p("    jne "@).p(slow).p("\n"@);
                            let g31 = g30.p(
                                "    mov r9, rdx\n    shr r9, 48\n    cmp r9, 0x7FF9\n"@,
                            );
                            let g32 = g31.p("    jne "@).p(slow).p("\n"@);
                            let g33 = g32.p("    mov r8, rcx\n    shl r8, 16\n    sar r8, 16\n"@);
                            let g34 = g33.p("    mov r9, rdx\n    shl r9, 16\n    sar r9, 16\n"@);
                            let g35 = int_op(g34, env, op);
                            let g36 = g35.p("    jmp "@).p(done).p("\n"@);
                            let g37 = g36.p(slow).p(":\n"@);
                            let g38 = g37.p("    mov rcx, [rbp"@).n(lt as int).p("]\n"@);
                            let g39 = g38.p("    call "@).p(f).p("\n"@);
                            let g40 = g39.p(done).p(":\n"@);
                            g40
                        } else {
                            let g41 = g25.p("    call "@).p(f).p("\n"@);
                            g41
                        };
                        g26
                    };
                    g17
                };
                g5
            };
            g2
        },
        _ => {
            g
        },
    };
    g1
}

pub open spec fn raw_binary(g: Asm, env: FnEnv, e: ExprView) -> Asm
    decreases e, 1nat, 0nat,
{
    let g1 = match e {
        ExprView::Binary { op, lhs, rhs } => {
            let div = op == BinOp::Div || op == BinOp::Mod;
            let d = const_of(*rhs);
            let g2 = if div && d != 0 {
                let g3 = eval_raw(g, env, *lhs);
                let g4 = if op == BinOp::Mod {
                    let g5 = if mask_bits(d) is Some {
                        let k = mask_bits(d)->Some_0;
                        let c = 64 - k;
                        let mask = (d - 1) as i64;
                        let g6 = g3.p("    mov rcx, rax\n"@);
                        let g7 = g6.p("    sar rcx, 63\n"@);
                        let g8 = g7.p("    shr rcx, "@).u(c as nat).p("\n"@);
                        let g9 = g8.p("    add rax, rcx\n"@);
                        let g10 = g9.p("    and rax, "@).n(mask as int).p("\n"@);
                        let g11 = g10.p("    sub rax, rcx\n"@);
                        g11
                    } else {
                        let (g12, nt) = g3.temp();
                        let g13 = g12.p("    mov [rbp"@).n(nt as int).p("], rax\n"@);
                        let g14 = const_div(g13, env, d);
                        let g15 = g14.p("    movabs rcx, "@).n(d as int).p("\n"@);
                        let g16 = g15.p("    imul rax, rcx\n"@);
                        let g17 = g16.p("    mov rcx, rax\n"@);
                        let g18 = g17.p("    mov rax, [rbp"@).n(nt as int).p("]\n"@);
                        let g19 = g18.p("    sub rax, rcx\n"@);
                        g19
                    };
                    g5
                } else {
                    let g20 = const_div(g3, env, d);
                    g20
                };
                g4
            } else {
                let r = if div {
                    None
                } else {
                    raw_operand(g, env, *rhs)
                };
                let l = if div {
                    None
                } else {
                    raw_operand(g, env, *lhs)
                };
                let g21 = match r {
                    Some(rr) => {
                        let g22 = eval_raw(g, env, *lhs);
                        let g23 = match imm32(*rhs) {
                            Some(n) => {
                                let g24 = if op == BinOp::Add {
                                    let g25 = g22.p("    add rax, "@).n(n as int).p("\n"@);
                                    g25
                                } else {
                                    let g26 = if op == BinOp::Sub {
                                        let g27 = g22.p("    sub rax, "@).n(n as int).p("\n"@);
                                        g27
                                    } else {
                                        let g28 = g22.p("    imul rax, rax, "@).n(n as int)
                                            .p("\n"@);
                                        g28
                                    };
                                    g26
                                };
                                g24
                            },
                            None => {
                                let g29 = g22.p("    mov rcx, "@).p(rr).p("\n"@);
                                let g30 = if op == BinOp::Add {
                                    let g31 = g29.p("    add rax, rcx\n"@);
                                    g31
                                } else {
                                    let g32 = if op == BinOp::Sub {
                                        let g33 = g29.p("    sub rax, rcx\n"@);
                                        g33
                                    } else {
                                        let g34 = g29.p("    imul rax, rcx\n"@);
                                        g34
                                    };
                                    g32
                                };
                                g30
                            },
                        };
                        g23
                    },
                    None => {
                        let g35 = match l {
                            Some(ll) => {
                                let g36 = eval_raw(g, env, *rhs);
                                let g37 = if op == BinOp::Sub {
                                    let g38 = g36.p("    mov rcx, rax\n"@);
                                    let g39 = g38.p("    mov rax, "@).p(ll).p("\n"@);
                                    let g40 = g39.p("    sub rax, rcx\n"@);
                                    g40
                                } else {
                                    let g41 = g36.p("    mov rcx, "@).p(ll).p("\n"@);
                                    let g42 = if op == BinOp::Add {
                                        let g43 = g41.p("    add rax, rcx\n"@);
                                        g43
                                    } else {
                                        let g44 = g41.p("    imul rax, rcx\n"@);
                                        g44
                                    };
                                    g42
                                };
                                g37
                            },
                            None => {
                                let g45 = eval_raw(g, env, *lhs);
                                let (g46, lt) = g45.temp();
                                let g47 = g46.p("    mov [rbp"@).n(lt as int).p("], rax\n"@);
                                let g48 = eval_raw(g47, env, *rhs);
                                let g49 = if div {
                                    let g50 = var_div(g48, env, lt, op == BinOp::Mod);
                                    g50
                                } else {
                                    let g51 = if op == BinOp::Sub {
                                        let g52 = g48.p("    mov rcx, rax\n"@);
                                        let g53 = g52.p("    mov rax, [rbp"@).n(lt as int)
                                            .p("]\n"@);
                                        let g54 = g53.p("    sub rax, rcx\n"@);
                                        g54
                                    } else {
                                        let g55 = g48.p("    mov rcx, [rbp"@).n(lt as int)
                                            .p("]\n"@);
                                        let g56 = if op == BinOp::Add {
                                            let g57 = g55.p("    add rax, rcx\n"@);
                                            g57
                                        } else {
                                            let g58 = g55.p("    imul rax, rcx\n"@);
                                            g58
                                        };
                                        g56
                                    };
                                    g51
                                };
                                g49
                            },
                        };
                        g35
                    },
                };
                g21
            };
            g2
        },
        _ => {
            g
        },
    };
    g1
}

pub open spec fn raw_list_index(g: Asm, env: FnEnv, e: ExprView) -> Asm
    decreases e, 1nat, 0nat,
{
    let g1 = match e {
        ExprView::Index { obj, index } => {
            let g2 = gen_expr(g, env, *obj);
            let (g3, objt) = g2.temp();
            let g4 = g3.p("    mov [rbp"@).n(objt as int).p("], rax\n"@);
            let g5 = eval_raw(g4, env, *index);
            let (g6, idxt) = g5.temp();
            let g7 = g6.p("    mov [rbp"@).n(idxt as int).p("], rax\n"@);
            let (g8, slow) = g7.new_label("ilidx_slow"@);
            let (g9, done) = g8.new_label("ilidx_done"@);
            let g10 = list_addr(g9, env, objt, idxt, slow);
            let g11 = g10.p("    mov rax, qword ptr [r8+r9*8]\n"@);
            let g12 = g11.unbox_int();
            let g13 = g12.p("    jmp "@).p(done).p("\n"@);
            let g14 = g13.p(slow).p(":\n"@);
            let g15 = slow_index(g14, env, objt, idxt);
            let g16 = g15.unbox_int();
            let g17 = g16.p(done).p(":\n"@);
            g17
        },
        _ => {
            g
        },
    };
    g1
}

pub open spec fn float_list_index(g: Asm, env: FnEnv, e: ExprView) -> Asm
    decreases e, 1nat, 0nat,
{
    let g1 = match e {
        ExprView::Index { obj, index } => {
            let g2 = gen_expr(g, env, *obj);
            let (g3, objt) = g2.temp();
            let g4 = g3.p("    mov [rbp"@).n(objt as int).p("], rax\n"@);
            let g5 = eval_raw(g4, env, *index);
            let (g6, idxt) = g5.temp();
            let g7 = g6.p("    mov [rbp"@).n(idxt as int).p("], rax\n"@);
            let (g8, slow) = g7.new_label("flidx_slow"@);
            let (g9, done) = g8.new_label("flidx_done"@);
            let g10 = list_addr(g9, env, objt, idxt, slow);
            let g11 = g10.p("    movsd xmm0, qword ptr [r8+r9*8]\n"@);
            let g12 = g11.p("    jmp "@).p(done).p("\n"@);
            let g13 = g12.p(slow).p(":\n"@);
            let g14 = slow_index(g13, env, objt, idxt);
            let g15 = g14.p("    movq xmm0, rax\n"@);
            let g16 = g15.p(done).p(":\n"@);
            g16
        },
        _ => {
            g
        },
    };
    g1
}

pub open spec fn raw_power(g: Asm, env: FnEnv, e: ExprView) -> Asm
    decreases e, 1nat, 0nat,
{
    let g1 = match e {
        ExprView::Binary { lhs, rhs, .. } => {
            let exp = small_exp(*rhs);
            let g2 = if exp == 0 {
                let g3 = g.p("    mov rax, 1\n"@);
                g3
            } else {
                let g4 = eval_raw(g, env, *lhs);
                let (g5, bt) = g4.temp();
                let g6 = g5.p("    mov [rbp"@).n(bt as int).p("], rax\n"@);
                let g7 = g6.mul_times(bt, (exp - 1) as nat);
                g7
            };
            g2
        },
        _ => {
            g
        },
    };
    g1
}

pub open spec fn raw_call(g: Asm, env: FnEnv, e: ExprView) -> Asm
    decreases e, 1nat, 0nat,
{
    let g1 = match e {
        ExprView::Call { callee, args } => {
            let g2 = match *callee {
                ExprView::Ident(n) => {
                    let g3 = if args.len() == 1 {
                        let g4 = eval_raw(g, env, args[0]);
                        let g5 = g4.p("    mov rcx, rax\n"@);
                        let g6 = g5.p("    call lm_"@).p(n).p(".raw\n"@);
                        g6
                    } else {
                        let (g7, slots) = raw_slots_of(g, env, args, args.len());
                        let sym = "lm_"@ + n + ".raw"@;
                        let g8 = load_args(g7, env, slots, sym);
                        g8
                    };
                    g3
                },
                _ => {
                    g
                },
            };
            g2
        },
        _ => {
            g
        },
    };
    g1
}

/// The code that puts the unboxed integer value of an expression into `rax`. What a sum,
/// a product or the like gives is brought back into 48 bits.
pub open spec fn eval_raw(g: Asm, env: FnEnv, e: ExprView) -> Asm
    decreases e, 4nat, 0nat,
{
    let how = raw_form(env, e);
    let g1 = match how {
        RawForm::Const => {
            let n = int_value(e);
            let g2 = g.p("    mov rax, "@).n(n as int).p("\n"@);
            g2
        },
        RawForm::Var => {
            let n = ident_name(e);
            let g3 = match g.int_loc_of(n) {
                Some(reg) => {
                    let g4 = g.p("    mov rax, "@).p(reg).p("\n"@);
                    g4
                },
                None => {
                    let g5 = match g.local_of(n) {
                        Some(off) => {
                            let g6 = g.p("    mov rax, [rbp"@).n(off as int).p("]\n"@);
                            g6
                        },
                        None => {
                            let g7 = g.fail("native: raw ident not in scope"@);
                            g7
                        },
                    };
                    g5
                },
            };
            g3
        },
        RawForm::Neg => {
            let g8 = raw_neg(g, env, e).unbox_int();
            g8
        },
        RawForm::Arith => {
            let g9 = raw_binary(g, env, e).unbox_int();
            g9
        },
        RawForm::Power => {
            let g10 = raw_power(g, env, e).unbox_int();
            g10
        },
        RawForm::Element => {
            let g11 = raw_list_index(g, env, e);
            g11
        },
        RawForm::Call => {
            let g12 = raw_call(g, env, e);
            g12
        },
        RawForm::Boxed => {
            let g13 = gen_expr(g, env, e);
            let g14 = g13.unbox_int();
            g14
        },
    };
    g1
}

pub open spec fn raw_neg(g: Asm, env: FnEnv, e: ExprView) -> Asm
    decreases e, 1nat, 0nat,
{
    let g1 = match e {
        ExprView::Unary { expr, .. } => {
            let g2 = eval_raw(g, env, *expr);
            let g3 = g2.p("    neg rax\n"@);
            g3
        },
        _ => {
            g
        },
    };
    g1
}

/// The code that puts the float value of an expression into `xmm0`.
pub open spec fn eval_raw_float(g: Asm, env: FnEnv, e: ExprView) -> Asm
    decreases e, 4nat, 0nat,
{
    let how = float_form(env, e);
    let g1 = match how {
        FloatForm::Const => {
            let b = float_bits(e);
            let (g2, lbl) = g.add_double(b);
            let g3 = g2.p("    movsd xmm0, qword ptr [rip + "@).p(lbl).p("]\n"@);
            g3
        },
        FloatForm::Var => {
            let n = ident_name(e);
            let g4 = match g.float_loc_of(n) {
                Some(reg) => {
                    let g5 = g.p("    movapd xmm0, "@).p(reg).p("\n"@);
                    g5
                },
                None => {
                    let g6 = match g.local_of(n) {
                        Some(off) => {
                            let g7 = g.p("    movsd xmm0, qword ptr [rbp"@).n(off as int).p("]\n"@);
                            g7
                        },
                        None => {
                            let g8 = g.fail("native: raw-float ident not in scope"@);
                            g8
                        },
                    };
                    g6
                },
            };
            g4
        },
        FloatForm::Neg => {
            let g9 = float_neg(g, env, e);
            g9
        },
        FloatForm::Arith => {
            let g10 = float_binary(g, env, e);
            g10
        },
        FloatForm::Element => {
            let g11 = float_list_index(g, env, e);
            g11
        },
        FloatForm::Boxed => {
            let g12 = gen_expr(g, env, e);
            let g13 = g12.p("    movq xmm0, rax\n"@);
            g13
        },
    };
    g1
}

pub open spec fn module_call(g: Asm, env: FnEnv, e: ExprView) -> Asm
    decreases e, 1nat, 0nat,
{
    let g1 = match e {
        ExprView::Method { obj, name, args } => {
            let g2 = match *obj {
                ExprView::Ident(m) => {
                    let g3 = match lookup_spec(m, name, 0) {
                        None => {
                            let msg = "native "@ + m + ": no fn '"@ + name + "'"@;
                            let g4 = g.fail(msg);
                            g4
                        },
                        Some(bf) => {
                            let arity = bf.arity as nat;
                            let symbol = bf.symbol;
                            let g5 = if arity == 0 || arity > 4 {
                                let g6 = g.p("    call "@).p(symbol).p("\n"@);
                                g6
                            } else {
                                let g7 = if args.len() < arity {
                                    let msg = "native "@ + m + ": too few arguments for '"@ + name
                                        + "'"@;
                                    let g8 = g.fail(msg);
                                    g8
                                } else {
                                    let (g9, slots) = slots_of(g, env, args, (arity - 1) as nat);
                                    let g10 = gen_expr(g9, env, args[arity - 1]);
                                    let last = arg_reg(arity - 1);
                                    let g11 = g10.p("    mov "@).p(last).p(", rax\n"@);
                                    let g12 = g11.load_regs_down(slots, slots.len());
                                    let g13 = g12.p("    call "@).p(symbol).p("\n"@);
                                    g13
                                };
                                g7
                            };
                            g5
                        },
                    };
                    g3
                },
                _ => {
                    g
                },
            };
            g2
        },
        _ => {
            g
        },
    };
    g1
}

/// A method call: of a module, of a built-in type, or of a struct.
pub open spec fn gen_method(g: Asm, env: FnEnv, e: ExprView) -> Asm
    decreases e, 2nat, 0nat,
{
    let how = method_form(env, e);
    let g1 = match e {
        ExprView::Method { obj, name, args } => {
            let g2 = match how {
                MethodForm::Module => {
                    let g3 = module_call(g, env, e);
                    g3
                },
                MethodForm::Len => {
                    let g4 = gen_expr(g, env, *obj);
                    let g5 = g4.p(
                        "    mov rcx, rax\n    call lumen_len\n    mov rcx, rax\n    call lumen_from_int\n"@,
                    );
                    g5
                },
                MethodForm::Push => {
                    let g6 = gen_expr(g, env, *obj);
                    let (g7, o) = g6.temp();
                    let g8 = g7.p("    mov [rbp"@).n(o as int).p("], rax\n"@);
                    let g9 = list_items(g8, env, args, args.len(), o);
                    let g10 = g9.p("    call lumen_nil\n"@);
                    g10
                },
                MethodForm::InPlace => {
                    let g11 = gen_expr(g, env, *obj);
                    let g12 = g11.p("    mov rcx, rax\n"@);
                    let g13 = if name == "reverse"@ {
                        let g14 = g12.p("    call lumen_list_reverse\n"@);
                        g14
                    } else {
                        let g15 = g12.p("    call lumen_list_sort\n"@);
                        g15
                    };
                    let g16 = g13.p("    call lumen_nil\n"@);
                    g16
                },
                MethodForm::Plain => {
                    let rt = plain_method(name);
                    let g17 = gen_expr(g, env, *obj);
                    let g18 = g17.p("    mov rcx, rax\n"@);
                    let g19 = g18.p("    call "@).p(rt).p("\n"@);
                    g19
                },
                MethodForm::Get => {
                    let g20 = gen_expr(g, env, *obj);
                    let (g21, r) = g20.temp();
                    let g22 = g21.p("    mov [rbp"@).n(r as int).p("], rax\n"@);
                    let g23 = gen_expr(g22, env, args[0]);
                    let (g24, k) = g23.temp();
                    let g25 = g24.p("    mov [rbp"@).n(k as int).p("], rax\n"@);
                    let g26 = if args.len() > 1 {
                        let g27 = gen_expr(g25, env, args[1]);
                        let g28 = g27.p("    mov r8, rax\n"@);
                        let g29 = g28.p("    mov rdx, [rbp"@).n(k as int).p("]\n"@);
                        let g30 = g29.p("    mov rcx, [rbp"@).n(r as int).p("]\n"@);
                        let g31 = g30.p("    call lumen_map_get_or\n"@);
                        g31
                    } else {
                        let g32 = g25.p("    mov rdx, [rbp"@).n(k as int).p("]\n"@);
                        let g33 = g32.p("    mov rcx, [rbp"@).n(r as int).p("]\n"@);
                        let g34 = g33.p("    call lumen_map_get\n"@);
                        g34
                    };
                    g26
                },
                MethodForm::Insert => {
                    let g35 = gen_expr(g, env, *obj);
                    let (g36, r) = g35.temp();
                    let g37 = g36.p("    mov [rbp"@).n(r as int).p("], rax\n"@);
                    let g38 = gen_expr(g37, env, args[0]);
                    let g39 = g38.p("    mov rcx, rax\n    call lumen_to_int\n"@);
                    let (g40, idx) = g39.temp();
                    let g41 = g40.p("    mov [rbp"@).n(idx as int).p("], rax\n"@);
                    let g42 = gen_expr(g41, env, args[1]);
                    let (g43, v) = g42.temp();
                    let g44 = g43.p("    mov [rbp"@).n(v as int).p("], rax\n"@);
                    let g45 = g44.p("    mov rcx, [rbp"@).n(r as int).p("]\n"@);
                    let g46 = g45.p("    mov rdx, [rbp"@).n(idx as int).p("]\n"@);
                    let g47 = g46.p("    mov r8, [rbp"@).n(v as int).p("]\n"@);
                    let g48 = g47.p("    call lumen_list_insert\n    call lumen_nil\n"@);
                    g48
                },
                MethodForm::Replace => {
                    let g49 = gen_expr(g, env, *obj);
                    let (g50, r) = g49.temp();
                    let g51 = g50.p("    mov [rbp"@).n(r as int).p("], rax\n"@);
                    let g52 = gen_expr(g51, env, args[0]);
                    let (g53, oldv) = g52.temp();
                    let g54 = g53.p("    mov [rbp"@).n(oldv as int).p("], rax\n"@);
                    let g55 = gen_expr(g54, env, args[1]);
                    let (g56, newv) = g55.temp();
                    let g57 = g56.p("    mov [rbp"@).n(newv as int).p("], rax\n"@);
                    let g58 = g57.p("    mov rcx, [rbp"@).n(r as int).p("]\n"@);
                    let g59 = g58.p("    mov rdx, [rbp"@).n(oldv as int).p("]\n"@);
                    let g60 = g59.p("    mov r8, [rbp"@).n(newv as int).p("]\n"@);
                    let g61 = g60.p("    call lumen_str_replace\n"@);
                    g61
                },
                MethodForm::OneArg => {
                    let rt = one_arg_method(name);
                    let g62 = gen_expr(g, env, *obj);
                    let (g63, r) = g62.temp();
                    let g64 = g63.p("    mov [rbp"@).n(r as int).p("], rax\n"@);
                    let g65 = gen_expr(g64, env, args[0]);
                    let g66 = g65.p("    mov rdx, rax\n"@);
                    let g67 = g66.p("    mov rcx, [rbp"@).n(r as int).p("]\n"@);
                    let g68 = g67.p("    call "@).p(rt).p("\n"@);
                    g68
                },
                MethodForm::User => {
                    let sn = resolved(env, e);
                    let sym = "lm_"@ + sn + "__"@ + name;
                    let g69 = gen_expr(g, env, *obj);
                    let (g70, recv) = g69.temp();
                    let g71 = g70.p("    mov [rbp"@).n(recv as int).p("], rax\n"@);
                    let (g72, slots) = slots_of(g71, env, args, args.len());
                    let all = seq![recv] + slots;
                    let g73 = load_args(g72, env, all, sym);
                    g73
                },
                MethodForm::Unknown => {
                    let msg = "cannot resolve method '"@ + name
                        + "' - no method or builtin with that name applies here"@;
                    let g74 = g.fail_here(msg);
                    g74
                },
            };
            g2
        },
        _ => {
            g
        },
    };
    g1
}

pub open spec fn gen_indirect(g: Asm, env: FnEnv, e: ExprView) -> Asm
    decreases e, 1nat, 0nat,
{
    let g1 = match e {
        ExprView::Call { callee, args } => {
            let g2 = if args.len() > 3 {
                let g3 = g.fail("native: indirect call supports up to 3 args"@);
                g3
            } else {
                let g4 = gen_expr(g, env, *callee);
                let (g5, fslot) = g4.temp();
                let g6 = g5.p("    mov [rbp"@).n(fslot as int).p("], rax\n"@);
                let (g7, slots) = slots_of(g6, env, args, args.len());
                let g8 = g7.p("    mov rcx, [rbp"@).n(fslot as int).p("]\n"@);
                let g9 = g8.load_regs(slots, slots.len(), 1);
                let n = slots.len();
                let g10 = g9.p("    call lumen_call"@).u(n as nat).p("\n"@);
                g10
            };
            g2
        },
        _ => {
            g
        },
    };
    g1
}

/// A call of a function that is part of the language.
pub open spec fn builtin_call(g: Asm, env: FnEnv, e: ExprView) -> Asm
    decreases e, 1nat, 0nat,
{
    let g1 = match e {
        ExprView::Call { callee, args } => {
            let g2 = match *callee {
                ExprView::Ident(name) => {
                    let g3 = if name == "print"@ {
                        let g4 = if args.len() == 0 {
                            let g5 = g.p("    call lumen_print_nl\n    call lumen_nil\n"@);
                            g5
                        } else {
                            let g6 = if args.len() == 1 {
                                let g7 = gen_expr(g, env, args[0]);
                                let g8 = g7.p(
                                    "    mov rcx, rax\n    call lumen_print\n    call lumen_nil\n"@,
                                );
                                g8
                            } else {
                                let g9 = print_parts(g, env, args, args.len());
                                let g10 = g9.p("    call lumen_print_nl\n    call lumen_nil\n"@);
                                g10
                            };
                            g6
                        };
                        g4
                    } else {
                        let g11 = if name == "input"@ {
                            let g12 = if args.len() > 0 {
                                let g13 = gen_expr(g, env, args[0]);
                                let g14 = g13.p("    mov rcx, rax\n"@);
                                g14
                            } else {
                                let g15 = g.p("    call lumen_nil\n    mov rcx, rax\n"@);
                                g15
                            };
                            let g16 = g12.p("    call lumen_input\n"@);
                            g16
                        } else {
                            let g17 = if name == "range"@ {
                                let g18 = if args.len() == 1 || args.len() == 2 {
                                    let g19 = g.p("    mov rcx, 0\n    call lumen_list_new\n"@);
                                    let (g20, loff) = g19.temp();
                                    let g21 = g20.p("    mov [rbp"@).n(loff as int).p("], rax\n"@);
                                    let g22 = if args.len() == 1 {
                                        let zero = boxed_int(0);
                                        let g23 = g21.p("    mov rax, "@).u(zero as nat).p("\n"@);
                                        g23
                                    } else {
                                        let g24 = gen_expr(g21, env, args[0]);
                                        g24
                                    };
                                    let g25 = g22.p("    mov rcx, rax\n    call lumen_to_int\n"@);
                                    let (g26, ioff) = g25.temp();
                                    let g27 = g26.p("    mov [rbp"@).n(ioff as int).p("], rax\n"@);
                                    let g28 = gen_expr(g27, env, args[args.len() - 1]);
                                    let g29 = g28.p("    mov rcx, rax\n    call lumen_to_int\n"@);
                                    let (g30, hoff) = g29.temp();
                                    let g31 = g30.p("    mov [rbp"@).n(hoff as int).p("], rax\n"@);
                                    let g32 = range_loop(g31, env, loff, ioff, hoff);
                                    g32
                                } else {
                                    let g33 = g.fail("range() takes 1 or 2 args"@);
                                    g33
                                };
                                g18
                            } else {
                                let g34 = if args.len() == 0 {
                                    let msg = "native: too few arguments for '"@ + name + "'"@;
                                    let g35 = g.fail(msg);
                                    g35
                                } else {
                                    let g36 = gen_expr(g, env, args[0]);
                                    let tail = builtin_tail(name);
                                    let g37 = g36.p("    mov rcx, rax\n"@);
                                    let g38 = g37.p(tail);
                                    g38
                                };
                                g34
                            };
                            g17
                        };
                        g11
                    };
                    g3
                },
                _ => {
                    g
                },
            };
            g2
        },
        _ => {
            g
        },
    };
    g1
}

pub open spec fn struct_begin(
    g: Asm,
    env: FnEnv,
    name: Seq<char>,
    fields: Seq<FieldView>,
) -> (Asm, i64) {
    let (g1, name_lbl) = g.add_string(name);
    let (g2, table_lbl) = g1.field_table(name, fields);
    let n = fields.len();
    let g3 = g2.p("    lea rcx, [rip + "@).p(name_lbl).p("]\n"@);
    let g4 = g3.p("    mov rdx, "@).u(n as nat).p("\n"@);
    let g5 = g4.p("    lea r8, [rip + "@).p(table_lbl).p("]\n"@);
    let g6 = g5.p("    call lumen_struct_new\n"@);
    let (g7, soff) = g6.temp();
    let g8 = g7.p("    mov [rbp"@).n(soff as int).p("], rax\n"@);
    (g8, soff)
}

pub open spec fn ffi_call(g: Asm, env: FnEnv, ef: ExternFnView, slots: Seq<i64>) -> Asm {
    let n = slots.len();
    let fname = ef.name;
    let g1 = if n > 4 {
        let bytes = ffi_bytes(n);
        let g2 = g.p("    sub rsp, "@).u(bytes as nat).p("\n"@);
        let g3 = g2.push_stack(slots, slots.len());
        let g4 = g3.ffi_regs(slots, 4, ef.params);
        let g5 = g4.p("    call "@).p(fname).p("\n"@);
        let g6 = g5.p("    add rsp, "@).u(bytes as nat).p("\n"@);
        g6
    } else {
        let g7 = g.ffi_regs(slots, slots.len(), ef.params);
        let g8 = g7.p("    call "@).p(fname).p("\n"@);
        g8
    };
    let g9 = match ffi_ret(ef.ret) {
        FfiRet::Nil => {
            let g10 = g1.p("    call lumen_nil\n"@);
            g10
        },
        FfiRet::Float => {
            let g11 = g1.p("    call lumen_from_double\n"@);
            g11
        },
        FfiRet::Int => {
            let g12 = g1.p("    mov rcx, rax\n    call lumen_from_int\n"@);
            g12
        },
    };
    g9
}

/// A call: of a value, a built-in function, a struct, a foreign function or a function of
/// the program.
pub open spec fn gen_call(g: Asm, env: FnEnv, e: ExprView) -> Asm
    decreases e, 2nat, 0nat,
{
    let how = call_form(g, env, e);
    let g1 = match e {
        ExprView::Call { callee, args } => {
            let g2 = match how {
                CallForm::Indirect => {
                    let g3 = gen_indirect(g, env, e);
                    g3
                },
                CallForm::Builtin => {
                    let g4 = builtin_call(g, env, e);
                    g4
                },
                CallForm::Struct => {
                    let name = ident_name(*callee);
                    let fields = fields_of(env, name);
                    let g5 = if args.len() > fields.len() {
                        let nf = fields.len();
                        let na = args.len();
                        let msg = "too many arguments for struct '"@ + name + "': it has "@
                            + dec_nat(nf as nat) + " field(s) but "@ + dec_nat(na as nat)
                            + " were given"@;
                        let g6 = g.fail(msg);
                        g6
                    } else {
                        let (g7, soff) = struct_begin(g, env, name, fields);
                        let g8 = set_positional(g7, env, args, args.len(), soff, fields);
                        let g9 = g8.p("    mov rax, [rbp"@).n(soff as int).p("]\n"@);
                        g9
                    };
                    g5
                },
                CallForm::Foreign => {
                    let name = ident_name(*callee);
                    let g10 = if args.len() > 16 {
                        let g11 = g.fail_here("FFI: at most 16 arguments are supported"@);
                        g11
                    } else {
                        let g12 = match extern_of(env, name) {
                            Some(ef) => {
                                let (g13, slots) = ffi_slots(g, env, args, args.len(), ef.params);
                                let g14 = ffi_call(g13, env, ef, slots);
                                g14
                            },
                            None => {
                                g
                            },
                        };
                        g12
                    };
                    g10
                },
                CallForm::Direct => {
                    let name = ident_name(*callee);
                    let g15 = if args.len() == 1 {
                        let g16 = gen_expr(g, env, args[0]);
                        let g17 = g16.p("    mov rcx, rax\n"@);
                        let g18 = g17.p("    call lm_"@).p(name).p("\n"@);
                        g18
                    } else {
                        let (g19, slots) = slots_of(g, env, args, args.len());
                        let sym = "lm_"@ + name;
                        let g20 = load_args(g19, env, slots, sym);
                        g20
                    };
                    g15
                },
                CallForm::Unknown => {
                    let name = ident_name(*callee);
                    let msg = "undefined function '"@ + name
                        + "' - no such function, method, or builtin"@;
                    let g21 = g.fail_here(msg);
                    g21
                },
            };
            g2
        },
        _ => {
            g
        },
    };
    g1
}

pub open spec fn gen_named_call(g: Asm, env: FnEnv, e: ExprView) -> Asm
    decreases e, 2nat, 0nat,
{
    let g1 = match e {
        ExprView::NamedCall { callee, args } => {
            let g2 = match *callee {
                ExprView::Ident(name) => {
                    let g3 = match struct_of(env, name) {
                        Some(sd) => {
                            let (g4, soff) = struct_begin(g, env, name, sd.fields);
                            let g5 = set_fields(g4, env, args, args.len(), soff);
                            let g6 = g5.p("    mov rax, [rbp"@).n(soff as int).p("]\n"@);
                            g6
                        },
                        None => {
                            let msg = "no struct type named '"@ + name + "'"@;
                            let g7 = g.fail_here(msg);
                            g7
                        },
                    };
                    g3
                },
                _ => {
                    let g8 = g.fail_here("a constructor call must name a struct type"@);
                    g8
                },
            };
            g2
        },
        _ => {
            g
        },
    };
    g1
}

pub open spec fn comp_push(g: Asm, env: FnEnv, acc: Seq<char>, elem: ExprView) -> Asm
    decreases elem, 7nat, 0nat,
{
    let g1 = load_ident(g, env, acc);
    let (g2, o) = g1.temp();
    let g3 = g2.p("    mov [rbp"@).n(o as int).p("], rax\n"@);
    let g4 = gen_expr(g3, env, elem);
    let g5 = g4.p("    mov rdx, rax\n    mov rcx, [rbp"@).n(o as int)
        .p("]\n    call lumen_list_push\n"@);
    let g6 = g5.p("    call lumen_nil\n"@);
    g6
}

pub open spec fn comp_body(g: Asm, env: FnEnv, e: ExprView, acc: Seq<char>) -> Asm
    decreases e, 0nat, 0nat,
{
    let g1 = match e {
        ExprView::ListComp { elem, cond, .. } => {
            let g2 = match cond {
                Some(c) => {
                    let (g3, end) = g.new_label("ifend"@);
                    let (g4, next) = g3.new_label("ifnext"@);
                    let g5 = cond_false(g4, env, *c, next);
                    let g6 = comp_push(g5, env, acc, *elem);
                    let g7 = g6.p("    jmp "@).p(end).p("\n"@).p(next).p(":\n"@);
                    let g8 = g7.p(end).p(":\n"@);
                    g8
                },
                None => {
                    let g9 = comp_push(g, env, acc, *elem);
                    g9
                },
            };
            g2
        },
        _ => {
            g
        },
    };
    g1
}

/// A list comprehension: a loop that pushes to a new list; its variable is restored.
pub open spec fn gen_comp(g: Asm, env: FnEnv, e: ExprView) -> Asm
    decreases e, 1nat, 0nat,
{
    let g1 = match e {
        ExprView::ListComp { elem, var, iter, cond } => {
            let (g2, id) = g.new_unique();
            let acc = "__lc_acc_"@ + dec_nat(id as nat);
            let g3 = g2.p("    mov rcx, 0\n    call lumen_list_new\n"@);
            let (g4, accoff) = g3.slot(acc);
            let g5 = g4.p("    mov [rbp"@).n(accoff as int).p("], rax\n"@);
            let (g6, voff) = g5.slot(var);
            let (g7, saveoff) = g6.temp();
            let g8 = g7.p("    mov rax, [rbp"@).n(voff as int).p("]\n"@);
            let g9 = g8.p("    mov [rbp"@).n(saveoff as int).p("], rax\n"@);
            let g10 = match *iter {
                ExprView::Range { lo, hi } => {
                    let (g11, fr) = g9.range_regs();
                    let g12 = gen_expr(g11, env, *lo);
                    let g13 = g12.unbox_int();
                    let g14 = g13.set_counter(fr);
                    let g15 = gen_expr(g14, env, *hi);
                    let g16 = g15.unbox_int();
                    let g17 = g16.set_limit(fr);
                    let used = acc == var || used_expr(*elem, var) || used_optbox(cond, var);
                    let (g18, fo) = g17.range_open(
                        fr,
                        var,
                        env.raw_int.contains(var),
                        used,
                        false,
                        true,
                        Seq::empty(),
                        Seq::empty(),
                    );
                    let g19 = comp_body(g18, env, e, acc);
                    let g20 = g19.range_close(fr, fo, var);
                    g20
                },
                _ => {
                    let g21 = gen_expr(g9, env, *iter);
                    let (g22, lo2) = g21.list_open(var);
                    let g23 = comp_body(g22, env, e, acc);
                    let g24 = g23.list_close(lo2);
                    g24
                },
            };
            let g25 = g10.p("    mov rax, [rbp"@).n(saveoff as int).p("]\n"@);
            let g26 = g25.p("    mov [rbp"@).n(voff as int).p("], rax\n"@);
            let g27 = g26.p("    mov rax, [rbp"@).n(accoff as int).p("]\n"@);
            g27
        },
        _ => {
            g
        },
    };
    g1
}

impl Emitter {
    pub fn const_div(&mut self, env: &Env, d: i64)
        requires
            d != 0,
        ensures
            final(self)@ == const_div(old(self)@, env@, d),
    {
        if d == 1 {
        } else {
            if d == -1 {
                self.p("    neg rax\n");
            } else {
                let ad: u64 = abs64(d);
                match exact_log2(ad) {
                    Some(k) => {
                        if k == 0 {
                        } else {
                            self.p("    mov rcx, rax\n");
                            self.p("    sar rcx, 63\n");
                            let c: u64 = 64 - k;
                            self.p("    shr rcx, ");
                            self.u(c as u64);
                            self.p("\n");
                            self.p("    add rax, rcx\n");
                            self.p("    sar rax, ");
                            self.u(k as u64);
                            self.p("\n");
                        }
                        if d < 0 {
                            self.p("    neg rax\n");
                        }
                    },
                    None => {
                        let m: i64 = magic_pair(ad).0;
                        let s: u64 = magic_pair(ad).1 as u64;
                        self.p("    mov rcx, rax\n");
                        self.p("    movabs rdx, ");
                        self.n(m as i64);
                        self.p("\n");
                        self.p("    imul rdx\n");
                        self.p("    mov rax, rdx\n");
                        if m < 0 {
                            self.p("    add rax, rcx\n");
                        }
                        if s > 0 {
                            self.p("    sar rax, ");
                            self.u(s as u64);
                            self.p("\n");
                        }
                        self.p("    mov rcx, rax\n");
                        self.p("    shr rcx, 63\n");
                        self.p("    add rax, rcx\n");
                        if d < 0 {
                            self.p("    neg rax\n");
                        }
                    },
                }
            }
        }
    }

    pub fn load_ident(&mut self, env: &Env, n: &str)
        ensures
            final(self)@ == load_ident(old(self)@, env@, n@),
    {
        match self.int_loc_of(n) {
            Some(reg) => {
                self.p("    mov rax, ");
                self.p(reg.as_str());
                self.p("\n");
                self.box_int();
            },
            None => {
                match self.local_of(n) {
                    Some(off) => {
                        self.p("    mov rax, [rbp");
                        self.n(off as i64);
                        self.p("]\n");
                        if env.raw_int.contains(n) {
                            self.box_int();
                        }
                    },
                    None => {
                        match find_arity(env, n) {
                            Some(arity) => {
                                self.p("    lea rcx, [rip + lm_");
                                self.p(n);
                                self.p("]\n");
                                self.p("    mov rdx, ");
                                self.u(arity as u64);
                                self.p("\n");
                                self.p("    call lumen_func_new\n");
                            },
                            None => {
                                let mut m = "undefined variable '".to_owned();
                                m.append(n);
                                m.append("' - is it spelled correctly and in scope?");
                                self.fail_here(m.as_str());
                            },
                        }
                    },
                }
            },
        }
    }

    pub fn range_loop(&mut self, env: &Env, loff: i64, ioff: i64, hoff: i64)
        ensures
            final(self)@ == range_loop(old(self)@, env@, loff, ioff, hoff),
    {
        let top = self.new_label("rtop");
        let end = self.new_label("rend");
        self.p(top.as_str());
        self.p(":\n");
        self.p("    mov rax, [rbp");
        self.n(ioff as i64);
        self.p("]\n    mov rcx, [rbp");
        self.n(hoff as i64);
        self.p("]\n    cmp rax, rcx\n    jge ");
        self.p(end.as_str());
        self.p("\n");
        self.p("    mov rcx, [rbp");
        self.n(ioff as i64);
        self.p("]\n    call lumen_from_int\n    mov rdx, rax\n    mov rcx, [rbp");
        self.n(loff as i64);
        self.p("]\n    call lumen_list_push\n");
        self.p("    mov rax, [rbp");
        self.n(ioff as i64);
        self.p("]\n    add rax, 1\n    mov [rbp");
        self.n(ioff as i64);
        self.p("], rax\n    jmp ");
        self.p(top.as_str());
        self.p("\n");
        self.p(end.as_str());
        self.p(":\n");
        self.p("    mov rax, [rbp");
        self.n(loff as i64);
        self.p("]\n");
    }

    pub fn slow_index(&mut self, env: &Env, objt: i64, idxt: i64)
        ensures
            final(self)@ == slow_index(old(self)@, env@, objt, idxt),
    {
        self.p("    mov rax, [rbp");
        self.n(idxt as i64);
        self.p("]\n");
        self.box_int();
        self.p("    mov rdx, rax\n");
        self.p("    mov rcx, [rbp");
        self.n(objt as i64);
        self.p("]\n");
        self.p("    call lumen_index_get\n");
    }

    pub fn list_addr(&mut self, env: &Env, objt: i64, idxt: i64, slow: &str)
        ensures
            final(self)@ == list_addr(old(self)@, env@, objt, idxt, slow@),
    {
        self.p("    mov r8, [rbp");
        self.n(objt as i64);
        self.p("]\n");
        self.p("    mov r11, 0xFFFFFFFFFFFF\n    and r8, r11\n");
        self.p("    mov r9, [rbp");
        self.n(idxt as i64);
        self.p("]\n");
        self.p("    test r9, r9\n");
        self.p("    js ");
        self.p(slow);
        self.p("\n");
        self.p("    cmp r9, qword ptr [r8+16]\n");
        self.p("    jae ");
        self.p(slow);
        self.p("\n");
        self.p("    mov r8, qword ptr [r8+32]\n");
    }

    pub fn var_div(&mut self, env: &Env, lt: i64, is_mod: bool)
        ensures
            final(self)@ == var_div(old(self)@, env@, lt, is_mod),
    {
        let nz = self.new_label("divnz");
        let done = self.new_label("divdone");
        self.p("    test rax, rax\n");
        self.p("    jne ");
        self.p(nz.as_str());
        self.p("\n");
        self.box_int();
        self.p("    mov rdx, rax\n");
        self.p("    mov rax, [rbp");
        self.n(lt as i64);
        self.p("]\n");
        self.box_int();
        self.p("    mov rcx, rax\n");
        if is_mod {
            self.p("    call lumen_mod\n");
        } else {
            self.p("    call lumen_div\n");
        }
        self.unbox_int();
        self.p("    jmp ");
        self.p(done.as_str());
        self.p("\n");
        self.p(nz.as_str());
        self.p(":\n");
        self.p("    mov rcx, rax\n");
        self.p("    mov rax, [rbp");
        self.n(lt as i64);
        self.p("]\n");
        self.p("    cqo\n    idiv rcx\n");
        if is_mod {
            self.p("    mov rax, rdx\n");
        }
        self.p(done.as_str());
        self.p(":\n");
    }

    pub fn compare_set(&mut self, env: &Env, op: BinOp)
        ensures
            final(self)@ == compare_set(old(self)@, env@, op),
    {
        self.p("    cmp r8, r9\n");
        let cc = set_cc_str(op);
        self.p("    ");
        self.p(cc);
        self.p(" al\n    movzx rax, al\n");
        self.p("    mov rcx, 0x7FFA000000000000\n    or rax, rcx\n");
    }

    pub fn int_op(&mut self, env: &Env, op: BinOp)
        ensures
            final(self)@ == int_op(old(self)@, env@, op),
    {
        if compares(op) {
            self.compare_set(env, op);
        } else {
            let kind = fast_op_str(op);
            self.p("    ");
            self.p(kind);
            self.p(" r8, r9\n");
            self.p("    mov rax, r8\n");
            self.box_int();
        }
    }

    pub fn float_apply(&mut self, env: &Env, op: BinOp)
        ensures
            final(self)@ == float_apply(old(self)@, env@, op),
    {
        if op == BinOp::Mod {
            self.p("    movapd xmm2, xmm0\n");
            self.p("    divsd xmm0, xmm1\n");
            self.p("    cvttsd2si rax, xmm0\n");
            self.p("    cvtsi2sd xmm0, rax\n");
            self.p("    mulsd xmm0, xmm1\n");
            self.p("    subsd xmm2, xmm0\n");
            self.p("    movapd xmm0, xmm2\n");
        } else {
            let ins = float_ins_str(op);
            self.p("    ");
            self.p(ins);
            self.p(" xmm0, xmm1\n");
        }
    }

    pub fn load_args(&mut self, env: &Env, slots: &Vec<i64>, sym: &str)
        ensures
            final(self)@ == load_args(old(self)@, env@, slots@, sym@),
    {
        let n: u64 = slots.len() as u64;
        if n <= 4 {
            self.load_regs(slots, slots.len(), 0);
            self.p("    call ");
            self.p(sym);
            self.p("\n");
        } else {
            if n > 0x1000_0000 {
                self.fail("too many arguments");
            } else {
                let bytes: u64 = frame_bytes(n);
                self.p("    sub rsp, ");
                self.u(bytes as u64);
                self.p("\n");
                self.push_stack(slots, slots.len());
                self.load_regs(slots, 4, 0);
                self.p("    call ");
                self.p(sym);
                self.p("\n");
                self.p("    add rsp, ");
                self.u(bytes as u64);
                self.p("\n");
            }
        }
    }

    pub fn slots_of(&mut self, env: &Env, s: &Vec<Expr>, k: usize) -> (r: Vec<i64>)
        requires
            k <= s@.len(),
        ensures
            (final(self)@, r@) == slots_of(old(self)@, env@, exprs_view(s@), k as nat),
            r@.len() == k,
        decreases s, 9nat, 0nat,
    {
        let mut slots: Vec<i64> = Vec::new();
        let ghost s0 = exprs_view(s@);
        let ghost g0 = self@;
        for i in 0..k
            invariant
                k <= s@.len(),
                s0 == exprs_view(s@),
                (self@, slots@) == slots_of(g0, env@, s0, i as nat),
                slots@.len() == i,
        {
            proof {
                exprs_facts(s@);
            }
            assert(s0[i as int] == s@[i as int]@);
            let e: &Expr = &s[i];
            self.gen_expr(env, e);
            let t: i64 = self.temp();
            self.p("    mov [rbp");
            self.n(t as i64);
            self.p("], rax\n");
            slots.push(t);
        }
        slots
    }

    pub fn raw_slots_of(&mut self, env: &Env, s: &Vec<Expr>, k: usize) -> (r: Vec<i64>)
        requires
            k <= s@.len(),
        ensures
            (final(self)@, r@) == raw_slots_of(old(self)@, env@, exprs_view(s@), k as nat),
            r@.len() == k,
        decreases s, 9nat, 0nat,
    {
        let mut slots: Vec<i64> = Vec::new();
        let ghost s0 = exprs_view(s@);
        let ghost g0 = self@;
        for i in 0..k
            invariant
                k <= s@.len(),
                s0 == exprs_view(s@),
                (self@, slots@) == raw_slots_of(g0, env@, s0, i as nat),
                slots@.len() == i,
        {
            proof {
                exprs_facts(s@);
            }
            assert(s0[i as int] == s@[i as int]@);
            let e: &Expr = &s[i];
            self.eval_raw(env, e);
            let t: i64 = self.temp();
            self.p("    mov [rbp");
            self.n(t as i64);
            self.p("], rax\n");
            slots.push(t);
        }
        slots
    }

    pub fn list_items(&mut self, env: &Env, s: &Vec<Expr>, k: usize, off: i64)
        requires
            k <= s@.len(),
        ensures
            final(self)@ == list_items(old(self)@, env@, exprs_view(s@), k as nat, off),
        decreases s, 9nat, 0nat,
    {
        let ghost s0 = exprs_view(s@);
        let ghost g0 = self@;
        for i in 0..k
            invariant
                k <= s@.len(),
                s0 == exprs_view(s@),
                self@ == list_items(g0, env@, s0, i as nat, off),
        {
            proof {
                exprs_facts(s@);
            }
            assert(s0[i as int] == s@[i as int]@);
            let e: &Expr = &s[i];
            self.gen_expr(env, e);
            self.p("    mov rdx, rax\n    mov rcx, [rbp");
            self.n(off as i64);
            self.p("]\n");
            self.p("    call lumen_list_push\n");
        }
    }

    pub fn print_parts(&mut self, env: &Env, s: &Vec<Expr>, k: usize)
        requires
            k <= s@.len(),
        ensures
            final(self)@ == print_parts(old(self)@, env@, exprs_view(s@), k as nat),
        decreases s, 9nat, 0nat,
    {
        let ghost s0 = exprs_view(s@);
        let ghost g0 = self@;
        for i in 0..k
            invariant
                k <= s@.len(),
                s0 == exprs_view(s@),
                self@ == print_parts(g0, env@, s0, i as nat),
        {
            proof {
                exprs_facts(s@);
            }
            assert(s0[i as int] == s@[i as int]@);
            let e: &Expr = &s[i];
            if i > 0 {
                self.p("    call lumen_print_space\n");
            }
            self.gen_expr(env, e);
            self.p("    mov rcx, rax\n    call lumen_print_part\n");
        }
    }

    pub fn closure_caps(&mut self, env: &Env, s: &Vec<Expr>, k: usize, off: i64)
        requires
            k <= s@.len(),
        ensures
            final(self)@ == closure_caps(old(self)@, env@, exprs_view(s@), k as nat, off),
        decreases s, 9nat, 0nat,
    {
        let ghost s0 = exprs_view(s@);
        let ghost g0 = self@;
        for i in 0..k
            invariant
                k <= s@.len(),
                s0 == exprs_view(s@),
                self@ == closure_caps(g0, env@, s0, i as nat, off),
        {
            proof {
                exprs_facts(s@);
            }
            assert(s0[i as int] == s@[i as int]@);
            let e: &Expr = &s[i];
            self.gen_expr(env, e);
            self.p("    mov r8, rax\n");
            self.p("    mov rdx, ");
            self.u(i as u64);
            self.p("\n");
            self.p("    mov rcx, [rbp");
            self.n(off as i64);
            self.p("]\n");
            self.p("    call lumen_closure_set_cap\n");
        }
    }

    pub fn map_entries(&mut self, env: &Env, s: &Vec<(Expr, Expr)>, k: usize, off: i64)
        requires
            k <= s@.len(),
        ensures
            final(self)@ == map_entries(old(self)@, env@, pairs_view(s@), k as nat, off),
        decreases s, 9nat, 0nat,
    {
        let ghost s0 = pairs_view(s@);
        let ghost g0 = self@;
        for i in 0..k
            invariant
                k <= s@.len(),
                s0 == pairs_view(s@),
                self@ == map_entries(g0, env@, s0, i as nat, off),
        {
            proof {
                pairs_facts(s@);
            }
            assert(s0[i as int] == (s@[i as int].0@, s@[i as int].1@));
            let a: &Expr = &s[i].0;
            let b: &Expr = &s[i].1;
            self.gen_expr(env, a);
            let koff: i64 = self.temp();
            self.p("    mov [rbp");
            self.n(koff as i64);
            self.p("], rax\n");
            self.gen_expr(env, b);
            self.p("    mov r8, rax\n");
            self.p("    mov rdx, [rbp");
            self.n(koff as i64);
            self.p("]\n");
            self.p("    mov rcx, [rbp");
            self.n(off as i64);
            self.p("]\n");
            self.p("    call lumen_map_set\n");
        }
    }

    pub fn fstr_parts(&mut self, env: &Env, s: &Vec<FStrPart>, k: usize, acc: i64)
        requires
            k <= s@.len(),
        ensures
            final(self)@ == fstr_parts(old(self)@, env@, parts_view(s@), k as nat, acc),
        decreases s, 9nat, 0nat,
    {
        let ghost s0 = parts_view(s@);
        let ghost g0 = self@;
        for i in 0..k
            invariant
                k <= s@.len(),
                s0 == parts_view(s@),
                self@ == fstr_parts(g0, env@, s0, i as nat, acc),
        {
            proof {
                parts_facts(s@);
            }
            assert(s0[i as int] == s@[i as int]@);
            let part: &FStrPart = &s[i];
            match part {
                FStrPart::Lit(l) => {
                    let lbl = self.add_string(l.as_str());
                    self.p("    lea rcx, [rip + ");
                    self.p(lbl.as_str());
                    self.p("]\n");
                    self.p("    call lumen_str_new\n");
                },
                FStrPart::Expr(x) => {
                    self.gen_expr(env, x);
                    self.p("    mov rcx, rax\n    call lumen_to_str\n");
                },
            }
            self.p("    mov rdx, rax\n");
            self.p("    mov rcx, [rbp");
            self.n(acc as i64);
            self.p("]\n");
            self.p("    call lumen_str_concat\n");
            self.p("    mov [rbp");
            self.n(acc as i64);
            self.p("], rax\n");
        }
    }

    pub fn set_fields(&mut self, env: &Env, s: &Vec<(String, Expr)>, k: usize, soff: i64)
        requires
            k <= s@.len(),
        ensures
            final(self)@ == set_fields(old(self)@, env@, named_view(s@), k as nat, soff),
        decreases s, 9nat, 0nat,
    {
        let ghost s0 = named_view(s@);
        let ghost g0 = self@;
        for i in 0..k
            invariant
                k <= s@.len(),
                s0 == named_view(s@),
                self@ == set_fields(g0, env@, s0, i as nat, soff),
        {
            proof {
                named_facts(s@);
            }
            assert(s0[i as int] == (s@[i as int].0@, s@[i as int].1@));
            let name: &String = &s[i].0;
            let e: &Expr = &s[i].1;
            self.gen_expr(env, e);
            let v: i64 = self.temp();
            self.p("    mov [rbp");
            self.n(v as i64);
            self.p("], rax\n");
            let fl = self.add_string(name.as_str());
            self.p("    mov rcx, [rbp");
            self.n(soff as i64);
            self.p("]\n");
            self.p("    lea rdx, [rip + ");
            self.p(fl.as_str());
            self.p("]\n");
            self.p("    mov r8, [rbp");
            self.n(v as i64);
            self.p("]\n");
            self.p("    call lumen_struct_set\n");
        }
    }

    pub fn set_positional(
        &mut self,
        env: &Env,
        s: &Vec<Expr>,
        k: usize,
        soff: i64,
        fields: &Vec<Field>,
    )
        requires
            k <= s@.len(),
        ensures
            final(self)@ == set_positional(
                old(self)@,
                env@,
                exprs_view(s@),
                k as nat,
                soff,
                fields_view(fields@),
            ),
        decreases s, 9nat, 0nat,
    {
        let ghost s0 = exprs_view(s@);
        let ghost g0 = self@;
        for i in 0..k
            invariant
                k <= s@.len(),
                s0 == exprs_view(s@),
                self@ == set_positional(g0, env@, s0, i as nat, soff, fields_view(fields@)),
        {
            proof {
                exprs_facts(s@);
            }
            assert(s0[i as int] == s@[i as int]@);
            let e: &Expr = &s[i];
            self.gen_expr(env, e);
            let v: i64 = self.temp();
            self.p("    mov [rbp");
            self.n(v as i64);
            self.p("], rax\n");
            let fname = nth_field(fields, i);
            let fl = self.add_string(fname);
            self.p("    mov rcx, [rbp");
            self.n(soff as i64);
            self.p("]\n");
            self.p("    lea rdx, [rip + ");
            self.p(fl.as_str());
            self.p("]\n");
            self.p("    mov r8, [rbp");
            self.n(v as i64);
            self.p("]\n");
            self.p("    call lumen_struct_set\n");
        }
    }

    pub fn ffi_slots(
        &mut self,
        env: &Env,
        s: &Vec<Expr>,
        k: usize,
        params: &Vec<Param>,
    ) -> (r: Vec<i64>)
        requires
            k <= s@.len(),
        ensures
            (final(self)@, r@) == ffi_slots(
                old(self)@,
                env@,
                exprs_view(s@),
                k as nat,
                params_view(params@),
            ),
            r@.len() == k,
        decreases s, 9nat, 0nat,
    {
        let mut slots: Vec<i64> = Vec::new();
        let ghost s0 = exprs_view(s@);
        let ghost g0 = self@;
        for i in 0..k
            invariant
                k <= s@.len(),
                s0 == exprs_view(s@),
                (self@, slots@) == ffi_slots(g0, env@, s0, i as nat, params_view(params@)),
                slots@.len() == i,
        {
            proof {
                exprs_facts(s@);
            }
            assert(s0[i as int] == s@[i as int]@);
            let e: &Expr = &s[i];
            self.gen_expr(env, e);
            if ffi_is_float(params, i) {
                self.p("    mov rcx, rax\n    call lumen_ffi_argdouble\n");
            } else {
                self.p("    mov rcx, rax\n    call lumen_ffi_argint\n");
            }
            let t: i64 = self.temp();
            self.p("    mov [rbp");
            self.n(t as i64);
            self.p("], rax\n");
            slots.push(t);
        }
        slots
    }

    pub fn int_operands(&mut self, env: &Env, e: &Expr)
        ensures
            final(self)@ == int_operands(old(self)@, env@, e@),
        decreases e, 1nat, 0nat,
    {
        match e {
            Expr::Binary { op: _, lhs, rhs } => {
                assert(lhs@ == expr_view(**lhs) && rhs@ == expr_view(**rhs));
                let l = self.find_raw_operand(env, lhs);
                let r = self.find_raw_operand(env, rhs);
                match r {
                    Some(rr) => {
                        match l {
                            Some(ll) => {
                                self.p("    mov r8, ");
                                self.p(ll.as_str());
                                self.p("\n");
                                self.p("    mov r9, ");
                                self.p(rr.as_str());
                                self.p("\n");
                            },
                            None => {
                                self.eval_raw(env, lhs);
                                self.p("    mov r8, rax\n");
                                self.p("    mov r9, ");
                                self.p(rr.as_str());
                                self.p("\n");
                            },
                        }
                    },
                    None => {
                        match l {
                            Some(ll) => {
                                self.eval_raw(env, rhs);
                                self.p("    mov r9, rax\n");
                                self.p("    mov r8, ");
                                self.p(ll.as_str());
                                self.p("\n");
                            },
                            None => {
                                self.eval_raw(env, lhs);
                                let lt: i64 = self.temp();
                                self.p("    mov [rbp");
                                self.n(lt as i64);
                                self.p("], rax\n");
                                self.eval_raw(env, rhs);
                                self.p("    mov r9, rax\n");
                                self.p("    mov r8, [rbp");
                                self.n(lt as i64);
                                self.p("]\n");
                            },
                        }
                    },
                }
            },
            _ => {
            },
        }
    }

    pub fn cond_false(&mut self, env: &Env, e: &Expr, target: &str)
        ensures
            final(self)@ == cond_false(old(self)@, env@, e@, target@),
        decreases e, 6nat, 0nat,
    {
        if int_comparison(env, e) {
            self.int_operands(env, e);
            self.p("    cmp r8, r9\n");
            let jcc = jcc_false_of(e);
            self.p("    ");
            self.p(jcc);
            self.p(" ");
            self.p(target);
            self.p("\n");
        } else {
            self.gen_expr(env, e);
            if expr_is_bool(e) {
                self.p("    test al, 1\n");
                self.p("    jz ");
                self.p(target);
                self.p("\n");
            } else {
                self.p("    mov rcx, rax\n    call lumen_truthy\n");
                self.p("    cmp rax, 0\n");
                self.p("    je ");
                self.p(target);
                self.p("\n");
            }
        }
    }

    pub fn expr_lambda(&mut self, env: &Env, e: &Expr)
        ensures
            final(self)@ == expr_lambda(old(self)@, env@, e@),
        decreases e, 2nat, 0nat,
    {
        match e {
            Expr::Lambda { .. } => {
                self.fail("internal: unlifted lambda in codegen");
            },
            _ => {
            },
        }
    }

    pub fn expr_closure(&mut self, env: &Env, e: &Expr)
        ensures
            final(self)@ == expr_closure(old(self)@, env@, e@),
        decreases e, 2nat, 0nat,
    {
        match e {
            Expr::Closure { fn_name, captures } => {
                proof {
                    exprs_facts(captures@);
                }
                match find_arity(env, fn_name.as_str()) {
                    Some(total) => {
                        if total < captures.len() as u64 {
                            self.fail("internal: closure captures more than its parameters");
                        } else {
                            let ncap: u64 = captures.len() as u64;
                            let user: u64 = total - ncap;
                            self.p("    lea rcx, [rip + lm_");
                            self.p(fn_name.as_str());
                            self.p("]\n");
                            self.p("    mov rdx, ");
                            self.u(user as u64);
                            self.p("\n");
                            self.p("    mov r8, ");
                            self.u(ncap as u64);
                            self.p("\n");
                            self.p("    call lumen_closure_new\n");
                            let coff: i64 = self.temp();
                            self.p("    mov [rbp");
                            self.n(coff as i64);
                            self.p("], rax\n");
                            self.closure_caps(env, captures, captures.len(), coff);
                            self.p("    mov rax, [rbp");
                            self.n(coff as i64);
                            self.p("]\n");
                        }
                    },
                    None => {
                        let mut m = "internal: unknown closure '".to_owned();
                        m.append(fn_name.as_str());
                        m.append("'");
                        self.fail_here(m.as_str());
                    },
                }
            },
            _ => {
            },
        }
    }

    pub fn expr_int(&mut self, env: &Env, e: &Expr)
        ensures
            final(self)@ == expr_int(old(self)@, env@, e@),
        decreases e, 2nat, 0nat,
    {
        match e {
            Expr::Int(n) => {
                let boxed: u64 = box_const(*n);
                self.p("    mov rax, ");
                self.u(boxed as u64);
                self.p("\n");
            },
            _ => {
            },
        }
    }

    pub fn expr_float(&mut self, env: &Env, e: &Expr)
        ensures
            final(self)@ == expr_float(old(self)@, env@, e@),
        decreases e, 2nat, 0nat,
    {
        match e {
            Expr::Float(b) => {
                self.p("    mov rax, ");
                self.u(*b as u64);
                self.p("\n");
                self.p("    movq xmm0, rax\n    call lumen_from_double\n");
            },
            _ => {
            },
        }
    }

    pub fn expr_bool(&mut self, env: &Env, e: &Expr)
        ensures
            final(self)@ == expr_bool(old(self)@, env@, e@),
        decreases e, 2nat, 0nat,
    {
        match e {
            Expr::Bool(b) => {
                if *b {
                    self.p("    mov rax, 9221401712017801217\n");
                } else {
                    self.p("    mov rax, 9221401712017801216\n");
                }
            },
            _ => {
            },
        }
    }

    pub fn expr_nil(&mut self, env: &Env, e: &Expr)
        ensures
            final(self)@ == expr_nil(old(self)@, env@, e@),
        decreases e, 2nat, 0nat,
    {
        match e {
            Expr::Nil => {
                self.p("    mov rax, 9221683186994511872\n");
            },
            _ => {
            },
        }
    }

    pub fn expr_str(&mut self, env: &Env, e: &Expr)
        ensures
            final(self)@ == expr_str(old(self)@, env@, e@),
        decreases e, 2nat, 0nat,
    {
        match e {
            Expr::Str(s) => {
                let lbl = self.add_string(s.as_str());
                self.p("    lea rcx, [rip + ");
                self.p(lbl.as_str());
                self.p("]\n");
                self.p("    call lumen_str_new\n");
            },
            _ => {
            },
        }
    }

    pub fn expr_f_str(&mut self, env: &Env, e: &Expr)
        ensures
            final(self)@ == expr_f_str(old(self)@, env@, e@),
        decreases e, 2nat, 0nat,
    {
        match e {
            Expr::FStr(ps) => {
                proof {
                    parts_facts(ps@);
                }
                self.p("    lea rcx, [rip + .empty_str]\n    call lumen_str_new\n");
                self.want_empty_str();
                let acc: i64 = self.temp();
                self.p("    mov [rbp");
                self.n(acc as i64);
                self.p("], rax\n");
                self.fstr_parts(env, ps, ps.len(), acc);
                self.p("    mov rax, [rbp");
                self.n(acc as i64);
                self.p("]\n");
            },
            _ => {
            },
        }
    }

    pub fn expr_ident(&mut self, env: &Env, e: &Expr)
        ensures
            final(self)@ == expr_ident(old(self)@, env@, e@),
        decreases e, 2nat, 0nat,
    {
        match e {
            Expr::Ident(n) => {
                self.load_ident(env, n.as_str());
            },
            _ => {
            },
        }
    }

    pub fn expr_self_expr(&mut self, env: &Env, e: &Expr)
        ensures
            final(self)@ == expr_self_expr(old(self)@, env@, e@),
        decreases e, 2nat, 0nat,
    {
        match e {
            Expr::SelfExpr => {
                match self.local_of("self") {
                    Some(off) => {
                        self.p("    mov rax, [rbp");
                        self.n(off as i64);
                        self.p("]\n");
                    },
                    None => {
                        self.fail("native: self not in scope");
                    },
                }
            },
            _ => {
            },
        }
    }

    pub fn expr_list(&mut self, env: &Env, e: &Expr)
        ensures
            final(self)@ == expr_list(old(self)@, env@, e@),
        decreases e, 2nat, 0nat,
    {
        match e {
            Expr::List(xs) => {
                proof {
                    exprs_facts(xs@);
                }
                let n: u64 = xs.len() as u64;
                self.p("    mov rcx, ");
                self.u(n as u64);
                self.p("\n");
                self.p("    call lumen_list_new\n");
                let loff: i64 = self.temp();
                self.p("    mov [rbp");
                self.n(loff as i64);
                self.p("], rax\n");
                self.list_items(env, xs, xs.len(), loff);
                self.p("    mov rax, [rbp");
                self.n(loff as i64);
                self.p("]\n");
            },
            _ => {
            },
        }
    }

    pub fn expr_map_lit(&mut self, env: &Env, e: &Expr)
        ensures
            final(self)@ == expr_map_lit(old(self)@, env@, e@),
        decreases e, 2nat, 0nat,
    {
        match e {
            Expr::MapLit(kvs) => {
                proof {
                    pairs_facts(kvs@);
                }
                self.p("    call lumen_map_new\n");
                let moff: i64 = self.temp();
                self.p("    mov [rbp");
                self.n(moff as i64);
                self.p("], rax\n");
                self.map_entries(env, kvs, kvs.len(), moff);
                self.p("    mov rax, [rbp");
                self.n(moff as i64);
                self.p("]\n");
            },
            _ => {
            },
        }
    }

    pub fn expr_range(&mut self, env: &Env, e: &Expr)
        ensures
            final(self)@ == expr_range(old(self)@, env@, e@),
        decreases e, 2nat, 0nat,
    {
        match e {
            Expr::Range { lo, hi } => {
                self.p("    mov rcx, 0\n    call lumen_list_new\n");
                let loff: i64 = self.temp();
                self.p("    mov [rbp");
                self.n(loff as i64);
                self.p("], rax\n");
                self.gen_expr(env, lo);
                self.p("    mov rcx, rax\n    call lumen_to_int\n");
                let ioff: i64 = self.temp();
                self.p("    mov [rbp");
                self.n(ioff as i64);
                self.p("], rax\n");
                self.gen_expr(env, hi);
                self.p("    mov rcx, rax\n    call lumen_to_int\n");
                let hoff: i64 = self.temp();
                self.p("    mov [rbp");
                self.n(hoff as i64);
                self.p("], rax\n");
                self.range_loop(env, loff, ioff, hoff);
            },
            _ => {
            },
        }
    }

    pub fn expr_if_else(&mut self, env: &Env, e: &Expr)
        ensures
            final(self)@ == expr_if_else(old(self)@, env@, e@),
        decreases e, 2nat, 0nat,
    {
        match e {
            Expr::IfElse { cond, then, els } => {
                let else_lbl = self.new_label("cond_else");
                let end_lbl = self.new_label("cond_end");
                self.gen_expr(env, cond);
                self.p("    mov rcx, rax\n    call lumen_truthy\n    cmp rax, 0\n");
                self.p("    je ");
                self.p(else_lbl.as_str());
                self.p("\n");
                self.gen_expr(env, then);
                self.p("    jmp ");
                self.p(end_lbl.as_str());
                self.p("\n");
                self.p(else_lbl.as_str());
                self.p(":\n");
                self.gen_expr(env, els);
                self.p(end_lbl.as_str());
                self.p(":\n");
            },
            _ => {
            },
        }
    }

    pub fn expr_index(&mut self, env: &Env, e: &Expr)
        ensures
            final(self)@ == expr_index(old(self)@, env@, e@),
        decreases e, 2nat, 0nat,
    {
        match e {
            Expr::Index { obj, index } => {
                self.gen_expr(env, obj);
                let o: i64 = self.temp();
                self.p("    mov [rbp");
                self.n(o as i64);
                self.p("], rax\n");
                self.gen_expr(env, index);
                self.p("    mov rdx, rax\n");
                self.p("    mov rcx, [rbp");
                self.n(o as i64);
                self.p("]\n");
                self.p("    call lumen_index_get\n");
            },
            _ => {
            },
        }
    }

    pub fn expr_slice(&mut self, env: &Env, e: &Expr)
        ensures
            final(self)@ == expr_slice(old(self)@, env@, e@),
        decreases e, 2nat, 0nat,
    {
        match e {
            Expr::Slice { obj, lo, hi } => {
                self.gen_expr(env, obj);
                let o: i64 = self.temp();
                self.p("    mov [rbp");
                self.n(o as i64);
                self.p("], rax\n");
                self.gen_opt(env, lo);
                let lt: i64 = self.temp();
                self.p("    mov [rbp");
                self.n(lt as i64);
                self.p("], rax\n");
                self.gen_opt(env, hi);
                let ht: i64 = self.temp();
                self.p("    mov [rbp");
                self.n(ht as i64);
                self.p("], rax\n");
                self.p("    mov rcx, [rbp");
                self.n(o as i64);
                self.p("]\n");
                self.p("    mov rdx, [rbp");
                self.n(lt as i64);
                self.p("]\n");
                self.p("    mov r8, [rbp");
                self.n(ht as i64);
                self.p("]\n");
                self.p("    call lumen_slice\n");
            },
            _ => {
            },
        }
    }

    pub fn expr_field(&mut self, env: &Env, e: &Expr)
        ensures
            final(self)@ == expr_field(old(self)@, env@, e@),
        decreases e, 2nat, 0nat,
    {
        match e {
            Expr::Field { obj, name } => {
                self.gen_expr(env, obj);
                let lbl = self.add_string(name.as_str());
                self.p("    mov rcx, rax\n");
                self.p("    lea rdx, [rip + ");
                self.p(lbl.as_str());
                self.p("]\n");
                self.p("    call lumen_struct_get\n");
            },
            _ => {
            },
        }
    }

    pub fn expr_unary(&mut self, env: &Env, e: &Expr)
        ensures
            final(self)@ == expr_unary(old(self)@, env@, e@),
        decreases e, 2nat, 0nat,
    {
        match e {
            Expr::Unary { op, expr } => {
                if *op == UnOp::Neg && is_known_float(env, expr) {
                    self.float_neg(env, e);
                    self.p("    movq rax, xmm0\n");
                } else {
                    self.gen_expr(env, expr);
                    if *op == UnOp::Neg {
                        self.p("    mov rcx, rax\n    call lumen_neg\n");
                    } else {
                        self.p("    mov rcx, rax\n    call lumen_truthy\n");
                        self.p(
                            "    cmp rax, 0\n    sete cl\n    movzx rcx, cl\n    call lumen_bool\n",
                        );
                    }
                }
            },
            _ => {
            },
        }
    }

    pub fn gen_expr(&mut self, env: &Env, e: &Expr)
        ensures
            final(self)@ == gen_expr(old(self)@, env@, e@),
        decreases e, 3nat, 0nat,
    {
        match e {
            Expr::Lambda { .. } => {
                self.expr_lambda(env, e);
            },
            Expr::Closure { .. } => {
                self.expr_closure(env, e);
            },
            Expr::Int(_) => {
                self.expr_int(env, e);
            },
            Expr::Float(_) => {
                self.expr_float(env, e);
            },
            Expr::Bool(_) => {
                self.expr_bool(env, e);
            },
            Expr::Nil => {
                self.expr_nil(env, e);
            },
            Expr::Str(_) => {
                self.expr_str(env, e);
            },
            Expr::FStr(_) => {
                self.expr_f_str(env, e);
            },
            Expr::Ident(_) => {
                self.expr_ident(env, e);
            },
            Expr::SelfExpr => {
                self.expr_self_expr(env, e);
            },
            Expr::List(_) => {
                self.expr_list(env, e);
            },
            Expr::ListComp { .. } => {
                self.gen_comp(env, e);
            },
            Expr::MapLit(_) => {
                self.expr_map_lit(env, e);
            },
            Expr::Range { .. } => {
                self.expr_range(env, e);
            },
            Expr::IfElse { .. } => {
                self.expr_if_else(env, e);
            },
            Expr::Index { .. } => {
                self.expr_index(env, e);
            },
            Expr::Slice { .. } => {
                self.expr_slice(env, e);
            },
            Expr::Field { .. } => {
                self.expr_field(env, e);
            },
            Expr::Unary { .. } => {
                self.expr_unary(env, e);
            },
            Expr::Binary { .. } => {
                self.gen_binary(env, e);
            },
            Expr::Method { .. } => {
                self.gen_method(env, e);
            },
            Expr::Call { .. } => {
                self.gen_call(env, e);
            },
            Expr::NamedCall { .. } => {
                self.gen_named_call(env, e);
            },
        }
    }

    pub fn gen_opt(&mut self, env: &Env, o: &Option<Box<Expr>>)
        ensures
            final(self)@ == gen_opt(old(self)@, env@, optbox_view(*o)),
        decreases o, 0nat, 0nat,
    {
        match o {
            Some(x) => {
                self.gen_expr(env, x);
            },
            None => {
                self.p("    call lumen_nil\n");
            },
        }
    }

    pub fn float_neg(&mut self, env: &Env, e: &Expr)
        ensures
            final(self)@ == float_neg(old(self)@, env@, e@),
        decreases e, 1nat, 0nat,
    {
        match e {
            Expr::Unary { expr, .. } => {
                self.eval_raw_float(env, expr);
                self.p("    movq rax, xmm0\n");
                self.p("    mov rcx, 0x8000000000000000\n    xor rax, rcx\n");
                self.p("    movq xmm0, rax\n");
            },
            _ => {
            },
        }
    }

    pub fn float_binary(&mut self, env: &Env, e: &Expr)
        ensures
            final(self)@ == float_binary(old(self)@, env@, e@),
        decreases e, 1nat, 0nat,
    {
        match e {
            Expr::Binary { op, lhs, rhs } => {
                let op: BinOp = *op;
                assert(lhs@ == expr_view(**lhs) && rhs@ == expr_view(**rhs));
                let r = if op == BinOp::Mod {
                    None
                } else {
                    self.find_float_operand(env, rhs)
                };
                let l = if op == BinOp::Mod {
                    None
                } else {
                    self.find_float_operand(env, lhs)
                };
                match r {
                    Some(rr) => {
                        self.eval_raw_float(env, lhs);
                        let ins = float_ins_str(op);
                        let src = fmt_xmm_src(rr.as_str());
                        self.p("    ");
                        self.p(ins);
                        self.p(" xmm0, ");
                        self.p(src.as_str());
                        self.p("\n");
                    },
                    None => {
                        match l {
                            Some(ll) => {
                                self.eval_raw_float(env, rhs);
                                let ins = float_ins_str(op);
                                if op == BinOp::Add || op == BinOp::Mul {
                                    let src = fmt_xmm_src(ll.as_str());
                                    self.p("    ");
                                    self.p(ins);
                                    self.p(" xmm0, ");
                                    self.p(src.as_str());
                                    self.p("\n");
                                } else {
                                    self.p("    movapd xmm1, xmm0\n");
                                    if starts_with(ll.as_str(), "xmm") {
                                        self.p("    movapd xmm0, ");
                                        self.p(ll.as_str());
                                        self.p("\n");
                                    } else {
                                        self.p("    movsd xmm0, qword ptr ");
                                        self.p(ll.as_str());
                                        self.p("\n");
                                    }
                                    self.p("    ");
                                    self.p(ins);
                                    self.p(" xmm0, xmm1\n");
                                }
                            },
                            None => {
                                self.eval_raw_float(env, lhs);
                                let lt: i64 = self.temp();
                                self.p("    movsd qword ptr [rbp");
                                self.n(lt as i64);
                                self.p("], xmm0\n");
                                self.eval_raw_float(env, rhs);
                                self.p("    movapd xmm1, xmm0\n");
                                self.p("    movsd xmm0, qword ptr [rbp");
                                self.n(lt as i64);
                                self.p("]\n");
                                self.float_apply(env, op);
                            },
                        }
                    },
                }
            },
            _ => {
            },
        }
    }

    pub fn gen_binary(&mut self, env: &Env, e: &Expr)
        ensures
            final(self)@ == gen_binary(old(self)@, env@, e@),
        decreases e, 2nat, 0nat,
    {
        match e {
            Expr::Binary { op, lhs, rhs } => {
                let op: BinOp = *op;
                if arith(op) && is_known_float(env, lhs) && is_known_float(env, rhs) {
                    self.float_binary(env, e);
                    self.p("    movq rax, xmm0\n");
                } else {
                    if op == BinOp::And || op == BinOp::Or {
                        let lbl = self.new_label("sc");
                        self.gen_expr(env, lhs);
                        let lt: i64 = self.temp();
                        self.p("    mov [rbp");
                        self.n(lt as i64);
                        self.p("], rax\n");
                        self.p("    mov rcx, rax\n    call lumen_truthy\n    cmp rax, 0\n");
                        if op == BinOp::And {
                            self.p("    je ");
                            self.p(lbl.as_str());
                            self.p("\n");
                        } else {
                            self.p("    jne ");
                            self.p(lbl.as_str());
                            self.p("\n");
                        }
                        self.gen_expr(env, rhs);
                        self.p("    jmp ");
                        self.p(lbl.as_str());
                        self.p("_end\n");
                        self.p(lbl.as_str());
                        self.p(":\n    mov rax, [rbp");
                        self.n(lt as i64);
                        self.p("]\n");
                        self.p(lbl.as_str());
                        self.p("_end:\n");
                    } else {
                        if fast(op) && is_known_int(env, lhs) && is_known_int(env, rhs) {
                            self.int_operands(env, e);
                            self.int_op(env, op);
                        } else {
                            self.gen_expr(env, lhs);
                            let lt: i64 = self.temp();
                            self.p("    mov [rbp");
                            self.n(lt as i64);
                            self.p("], rax\n");
                            self.gen_expr(env, rhs);
                            self.p("    mov rdx, rax\n");
                            self.p("    mov rcx, [rbp");
                            self.n(lt as i64);
                            self.p("]\n");
                            let f = runtime_op_name(op);
                            if fast(op) {
                                let slow = self.new_label("bin_slow");
                                let done = self.new_label("bin_done");
                                self.p("    mov r8, rcx\n    shr r8, 48\n    cmp r8, 0x7FF9\n");
                                self.p("    jne ");
                                self.p(slow.as_str());
                                self.p("\n");
                                self.p("    mov r9, rdx\n    shr r9, 48\n    cmp r9, 0x7FF9\n");
                                self.p("    jne ");
                                self.p(slow.as_str());
                                self.p("\n");
                                self.p("    mov r8, rcx\n    shl r8, 16\n    sar r8, 16\n");
                                self.p("    mov r9, rdx\n    shl r9, 16\n    sar r9, 16\n");
                                self.int_op(env, op);
                                self.p("    jmp ");
                                self.p(done.as_str());
                                self.p("\n");
                                self.p(slow.as_str());
                                self.p(":\n");
                                self.p("    mov rcx, [rbp");
                                self.n(lt as i64);
                                self.p("]\n");
                                self.p("    call ");
                                self.p(f);
                                self.p("\n");
                                self.p(done.as_str());
                                self.p(":\n");
                            } else {
                                self.p("    call ");
                                self.p(f);
                                self.p("\n");
                            }
                        }
                    }
                }
            },
            _ => {
            },
        }
    }

    pub fn raw_binary(&mut self, env: &Env, e: &Expr)
        ensures
            final(self)@ == raw_binary(old(self)@, env@, e@),
        decreases e, 1nat, 0nat,
    {
        match e {
            Expr::Binary { op, lhs, rhs } => {
                let op: BinOp = *op;
                assert(lhs@ == expr_view(**lhs) && rhs@ == expr_view(**rhs));
                let div = op == BinOp::Div || op == BinOp::Mod;
                let d: i64 = find_const(rhs);
                if div && d != 0 {
                    self.eval_raw(env, lhs);
                    if op == BinOp::Mod {
                        if mask_of(d).is_some() {
                            let k: u64 = mask_of(d).unwrap();
                            let c: u64 = 64 - k;
                            let mask: i64 = d - 1;
                            self.p("    mov rcx, rax\n");
                            self.p("    sar rcx, 63\n");
                            self.p("    shr rcx, ");
                            self.u(c as u64);
                            self.p("\n");
                            self.p("    add rax, rcx\n");
                            self.p("    and rax, ");
                            self.n(mask as i64);
                            self.p("\n");
                            self.p("    sub rax, rcx\n");
                        } else {
                            let nt: i64 = self.temp();
                            self.p("    mov [rbp");
                            self.n(nt as i64);
                            self.p("], rax\n");
                            self.const_div(env, d);
                            self.p("    movabs rcx, ");
                            self.n(d as i64);
                            self.p("\n");
                            self.p("    imul rax, rcx\n");
                            self.p("    mov rcx, rax\n");
                            self.p("    mov rax, [rbp");
                            self.n(nt as i64);
                            self.p("]\n");
                            self.p("    sub rax, rcx\n");
                        }
                    } else {
                        self.const_div(env, d);
                    }
                } else {
                    let r = if div {
                        None
                    } else {
                        self.find_raw_operand(env, rhs)
                    };
                    let l = if div {
                        None
                    } else {
                        self.find_raw_operand(env, lhs)
                    };
                    match r {
                        Some(rr) => {
                            self.eval_raw(env, lhs);
                            match find_imm32(rhs) {
                                Some(n) => {
                                    if op == BinOp::Add {
                                        self.p("    add rax, ");
                                        self.n(n as i64);
                                        self.p("\n");
                                    } else {
                                        if op == BinOp::Sub {
                                            self.p("    sub rax, ");
                                            self.n(n as i64);
                                            self.p("\n");
                                        } else {
                                            self.p("    imul rax, rax, ");
                                            self.n(n as i64);
                                            self.p("\n");
                                        }
                                    }
                                },
                                None => {
                                    self.p("    mov rcx, ");
                                    self.p(rr.as_str());
                                    self.p("\n");
                                    if op == BinOp::Add {
                                        self.p("    add rax, rcx\n");
                                    } else {
                                        if op == BinOp::Sub {
                                            self.p("    sub rax, rcx\n");
                                        } else {
                                            self.p("    imul rax, rcx\n");
                                        }
                                    }
                                },
                            }
                        },
                        None => {
                            match l {
                                Some(ll) => {
                                    self.eval_raw(env, rhs);
                                    if op == BinOp::Sub {
                                        self.p("    mov rcx, rax\n");
                                        self.p("    mov rax, ");
                                        self.p(ll.as_str());
                                        self.p("\n");
                                        self.p("    sub rax, rcx\n");
                                    } else {
                                        self.p("    mov rcx, ");
                                        self.p(ll.as_str());
                                        self.p("\n");
                                        if op == BinOp::Add {
                                            self.p("    add rax, rcx\n");
                                        } else {
                                            self.p("    imul rax, rcx\n");
                                        }
                                    }
                                },
                                None => {
                                    self.eval_raw(env, lhs);
                                    let lt: i64 = self.temp();
                                    self.p("    mov [rbp");
                                    self.n(lt as i64);
                                    self.p("], rax\n");
                                    self.eval_raw(env, rhs);
                                    if div {
                                        self.var_div(env, lt, op == BinOp::Mod);
                                    } else {
                                        if op == BinOp::Sub {
                                            self.p("    mov rcx, rax\n");
                                            self.p("    mov rax, [rbp");
                                            self.n(lt as i64);
                                            self.p("]\n");
                                            self.p("    sub rax, rcx\n");
                                        } else {
                                            self.p("    mov rcx, [rbp");
                                            self.n(lt as i64);
                                            self.p("]\n");
                                            if op == BinOp::Add {
                                                self.p("    add rax, rcx\n");
                                            } else {
                                                self.p("    imul rax, rcx\n");
                                            }
                                        }
                                    }
                                },
                            }
                        },
                    }
                }
            },
            _ => {
            },
        }
    }

    pub fn raw_list_index(&mut self, env: &Env, e: &Expr)
        ensures
            final(self)@ == raw_list_index(old(self)@, env@, e@),
        decreases e, 1nat, 0nat,
    {
        match e {
            Expr::Index { obj, index } => {
                self.gen_expr(env, obj);
                let objt: i64 = self.temp();
                self.p("    mov [rbp");
                self.n(objt as i64);
                self.p("], rax\n");
                self.eval_raw(env, index);
                let idxt: i64 = self.temp();
                self.p("    mov [rbp");
                self.n(idxt as i64);
                self.p("], rax\n");
                let slow = self.new_label("ilidx_slow");
                let done = self.new_label("ilidx_done");
                self.list_addr(env, objt, idxt, slow.as_str());
                self.p("    mov rax, qword ptr [r8+r9*8]\n");
                self.unbox_int();
                self.p("    jmp ");
                self.p(done.as_str());
                self.p("\n");
                self.p(slow.as_str());
                self.p(":\n");
                self.slow_index(env, objt, idxt);
                self.unbox_int();
                self.p(done.as_str());
                self.p(":\n");
            },
            _ => {
            },
        }
    }

    pub fn float_list_index(&mut self, env: &Env, e: &Expr)
        ensures
            final(self)@ == float_list_index(old(self)@, env@, e@),
        decreases e, 1nat, 0nat,
    {
        match e {
            Expr::Index { obj, index } => {
                self.gen_expr(env, obj);
                let objt: i64 = self.temp();
                self.p("    mov [rbp");
                self.n(objt as i64);
                self.p("], rax\n");
                self.eval_raw(env, index);
                let idxt: i64 = self.temp();
                self.p("    mov [rbp");
                self.n(idxt as i64);
                self.p("], rax\n");
                let slow = self.new_label("flidx_slow");
                let done = self.new_label("flidx_done");
                self.list_addr(env, objt, idxt, slow.as_str());
                self.p("    movsd xmm0, qword ptr [r8+r9*8]\n");
                self.p("    jmp ");
                self.p(done.as_str());
                self.p("\n");
                self.p(slow.as_str());
                self.p(":\n");
                self.slow_index(env, objt, idxt);
                self.p("    movq xmm0, rax\n");
                self.p(done.as_str());
                self.p(":\n");
            },
            _ => {
            },
        }
    }

    pub fn raw_power(&mut self, env: &Env, e: &Expr)
        ensures
            final(self)@ == raw_power(old(self)@, env@, e@),
        decreases e, 1nat, 0nat,
    {
        match e {
            Expr::Binary { lhs, rhs, .. } => {
                let exp: i64 = find_small_exp(rhs);
                if exp == 0 {
                    self.p("    mov rax, 1\n");
                } else {
                    self.eval_raw(env, lhs);
                    let bt: i64 = self.temp();
                    self.p("    mov [rbp");
                    self.n(bt as i64);
                    self.p("], rax\n");
                    self.mul_times(bt, exp - 1);
                }
            },
            _ => {
            },
        }
    }

    pub fn raw_call(&mut self, env: &Env, e: &Expr)
        ensures
            final(self)@ == raw_call(old(self)@, env@, e@),
        decreases e, 1nat, 0nat,
    {
        match e {
            Expr::Call { callee, args } => {
                proof {
                    exprs_facts(args@);
                }
                assert(callee@ == expr_view(**callee));
                match &**callee {
                    Expr::Ident(n) => {
                        if args.len() == 1 {
                            self.eval_raw(env, &args[0]);
                            self.p("    mov rcx, rax\n");
                            self.p("    call lm_");
                            self.p(n.as_str());
                            self.p(".raw\n");
                        } else {
                            let slots = self.raw_slots_of(env, args, args.len());
                            let mut sym = "lm_".to_owned();
                            sym.append(n.as_str());
                            sym.append(".raw");
                            self.load_args(env, &slots, sym.as_str());
                        }
                    },
                    _ => {
                    },
                }
            },
            _ => {
            },
        }
    }

    pub fn eval_raw(&mut self, env: &Env, e: &Expr)
        ensures
            final(self)@ == eval_raw(old(self)@, env@, e@),
        decreases e, 4nat, 0nat,
    {
        let how = find_raw_form(env, e);
        match how {
            RawForm::Const => {
                let n: i64 = get_int(e);
                self.p("    mov rax, ");
                self.n(n as i64);
                self.p("\n");
            },
            RawForm::Var => {
                let n = get_ident(e);
                match self.int_loc_of(n) {
                    Some(reg) => {
                        self.p("    mov rax, ");
                        self.p(reg.as_str());
                        self.p("\n");
                    },
                    None => {
                        match self.local_of(n) {
                            Some(off) => {
                                self.p("    mov rax, [rbp");
                                self.n(off as i64);
                                self.p("]\n");
                            },
                            None => {
                                self.fail("native: raw ident not in scope");
                            },
                        }
                    },
                }
            },
            RawForm::Neg => {
                self.raw_neg(env, e);
                self.unbox_int();
            },
            RawForm::Arith => {
                self.raw_binary(env, e);
                self.unbox_int();
            },
            RawForm::Power => {
                self.raw_power(env, e);
                self.unbox_int();
            },
            RawForm::Element => {
                self.raw_list_index(env, e);
            },
            RawForm::Call => {
                self.raw_call(env, e);
            },
            RawForm::Boxed => {
                self.gen_expr(env, e);
                self.unbox_int();
            },
        }
    }

    pub fn raw_neg(&mut self, env: &Env, e: &Expr)
        ensures
            final(self)@ == raw_neg(old(self)@, env@, e@),
        decreases e, 1nat, 0nat,
    {
        match e {
            Expr::Unary { expr, .. } => {
                self.eval_raw(env, expr);
                self.p("    neg rax\n");
            },
            _ => {
            },
        }
    }

    pub fn eval_raw_float(&mut self, env: &Env, e: &Expr)
        ensures
            final(self)@ == eval_raw_float(old(self)@, env@, e@),
        decreases e, 4nat, 0nat,
    {
        let how = find_float_form(env, e);
        match how {
            FloatForm::Const => {
                let b: u64 = get_float(e);
                let lbl = self.add_double(b);
                self.p("    movsd xmm0, qword ptr [rip + ");
                self.p(lbl.as_str());
                self.p("]\n");
            },
            FloatForm::Var => {
                let n = get_ident(e);
                match self.float_loc_of(n) {
                    Some(reg) => {
                        self.p("    movapd xmm0, ");
                        self.p(reg.as_str());
                        self.p("\n");
                    },
                    None => {
                        match self.local_of(n) {
                            Some(off) => {
                                self.p("    movsd xmm0, qword ptr [rbp");
                                self.n(off as i64);
                                self.p("]\n");
                            },
                            None => {
                                self.fail("native: raw-float ident not in scope");
                            },
                        }
                    },
                }
            },
            FloatForm::Neg => {
                self.float_neg(env, e);
            },
            FloatForm::Arith => {
                self.float_binary(env, e);
            },
            FloatForm::Element => {
                self.float_list_index(env, e);
            },
            FloatForm::Boxed => {
                self.gen_expr(env, e);
                self.p("    movq xmm0, rax\n");
            },
        }
    }

    pub fn module_call(&mut self, env: &Env, e: &Expr)
        ensures
            final(self)@ == module_call(old(self)@, env@, e@),
        decreases e, 1nat, 0nat,
    {
        match e {
            Expr::Method { obj, name, args } => {
                proof {
                    exprs_facts(args@);
                }
                assert(obj@ == expr_view(**obj));
                match &**obj {
                    Expr::Ident(m) => {
                        match lookup(m.as_str(), name.as_str()) {
                            None => {
                                let mut msg = "native ".to_owned();
                                msg.append(m.as_str());
                                msg.append(": no fn '");
                                msg.append(name.as_str());
                                msg.append("'");
                                self.fail(msg.as_str());
                            },
                            Some(bf) => {
                                let arity: usize = bf.arity as usize;
                                let symbol = bf.symbol;
                                if arity == 0 || arity > 4 {
                                    self.p("    call ");
                                    self.p(symbol);
                                    self.p("\n");
                                } else {
                                    if args.len() < arity {
                                        let mut msg = "native ".to_owned();
                                        msg.append(m.as_str());
                                        msg.append(": too few arguments for '");
                                        msg.append(name.as_str());
                                        msg.append("'");
                                        self.fail(msg.as_str());
                                    } else {
                                        let slots = self.slots_of(env, args, arity - 1);
                                        self.gen_expr(env, &args[arity - 1]);
                                        let last = arg_reg_str(arity - 1);
                                        self.p("    mov ");
                                        self.p(last);
                                        self.p(", rax\n");
                                        self.load_regs_down(&slots, slots.len());
                                        self.p("    call ");
                                        self.p(symbol);
                                        self.p("\n");
                                    }
                                }
                            },
                        }
                    },
                    _ => {
                    },
                }
            },
            _ => {
            },
        }
    }

    pub fn gen_method(&mut self, env: &Env, e: &Expr)
        ensures
            final(self)@ == gen_method(old(self)@, env@, e@),
        decreases e, 2nat, 0nat,
    {
        let how = find_method_form(env, e);
        match e {
            Expr::Method { obj, name, args } => {
                proof {
                    exprs_facts(args@);
                }
                match how {
                    MethodForm::Module => {
                        self.module_call(env, e);
                    },
                    MethodForm::Len => {
                        self.gen_expr(env, obj);
                        self.p(
                            "    mov rcx, rax\n    call lumen_len\n    mov rcx, rax\n    call lumen_from_int\n",
                        );
                    },
                    MethodForm::Push => {
                        self.gen_expr(env, obj);
                        let o: i64 = self.temp();
                        self.p("    mov [rbp");
                        self.n(o as i64);
                        self.p("], rax\n");
                        self.list_items(env, args, args.len(), o);
                        self.p("    call lumen_nil\n");
                    },
                    MethodForm::InPlace => {
                        self.gen_expr(env, obj);
                        self.p("    mov rcx, rax\n");
                        if str_eq(name.as_str(), "reverse") {
                            self.p("    call lumen_list_reverse\n");
                        } else {
                            self.p("    call lumen_list_sort\n");
                        }
                        self.p("    call lumen_nil\n");
                    },
                    MethodForm::Plain => {
                        let rt = find_plain_method(name.as_str());
                        self.gen_expr(env, obj);
                        self.p("    mov rcx, rax\n");
                        self.p("    call ");
                        self.p(rt);
                        self.p("\n");
                    },
                    MethodForm::Get => {
                        self.gen_expr(env, obj);
                        let r: i64 = self.temp();
                        self.p("    mov [rbp");
                        self.n(r as i64);
                        self.p("], rax\n");
                        self.gen_expr(env, &args[0]);
                        let k: i64 = self.temp();
                        self.p("    mov [rbp");
                        self.n(k as i64);
                        self.p("], rax\n");
                        if args.len() > 1 {
                            self.gen_expr(env, &args[1]);
                            self.p("    mov r8, rax\n");
                            self.p("    mov rdx, [rbp");
                            self.n(k as i64);
                            self.p("]\n");
                            self.p("    mov rcx, [rbp");
                            self.n(r as i64);
                            self.p("]\n");
                            self.p("    call lumen_map_get_or\n");
                        } else {
                            self.p("    mov rdx, [rbp");
                            self.n(k as i64);
                            self.p("]\n");
                            self.p("    mov rcx, [rbp");
                            self.n(r as i64);
                            self.p("]\n");
                            self.p("    call lumen_map_get\n");
                        }
                    },
                    MethodForm::Insert => {
                        self.gen_expr(env, obj);
                        let r: i64 = self.temp();
                        self.p("    mov [rbp");
                        self.n(r as i64);
                        self.p("], rax\n");
                        self.gen_expr(env, &args[0]);
                        self.p("    mov rcx, rax\n    call lumen_to_int\n");
                        let idx: i64 = self.temp();
                        self.p("    mov [rbp");
                        self.n(idx as i64);
                        self.p("], rax\n");
                        self.gen_expr(env, &args[1]);
                        let v: i64 = self.temp();
                        self.p("    mov [rbp");
                        self.n(v as i64);
                        self.p("], rax\n");
                        self.p("    mov rcx, [rbp");
                        self.n(r as i64);
                        self.p("]\n");
                        self.p("    mov rdx, [rbp");
                        self.n(idx as i64);
                        self.p("]\n");
                        self.p("    mov r8, [rbp");
                        self.n(v as i64);
                        self.p("]\n");
                        self.p("    call lumen_list_insert\n    call lumen_nil\n");
                    },
                    MethodForm::Replace => {
                        self.gen_expr(env, obj);
                        let r: i64 = self.temp();
                        self.p("    mov [rbp");
                        self.n(r as i64);
                        self.p("], rax\n");
                        self.gen_expr(env, &args[0]);
                        let oldv: i64 = self.temp();
                        self.p("    mov [rbp");
                        self.n(oldv as i64);
                        self.p("], rax\n");
                        self.gen_expr(env, &args[1]);
                        let newv: i64 = self.temp();
                        self.p("    mov [rbp");
                        self.n(newv as i64);
                        self.p("], rax\n");
                        self.p("    mov rcx, [rbp");
                        self.n(r as i64);
                        self.p("]\n");
                        self.p("    mov rdx, [rbp");
                        self.n(oldv as i64);
                        self.p("]\n");
                        self.p("    mov r8, [rbp");
                        self.n(newv as i64);
                        self.p("]\n");
                        self.p("    call lumen_str_replace\n");
                    },
                    MethodForm::OneArg => {
                        let rt = find_one_arg_method(name.as_str());
                        self.gen_expr(env, obj);
                        let r: i64 = self.temp();
                        self.p("    mov [rbp");
                        self.n(r as i64);
                        self.p("], rax\n");
                        self.gen_expr(env, &args[0]);
                        self.p("    mov rdx, rax\n");
                        self.p("    mov rcx, [rbp");
                        self.n(r as i64);
                        self.p("]\n");
                        self.p("    call ");
                        self.p(rt);
                        self.p("\n");
                    },
                    MethodForm::User => {
                        let sn = find_resolved(env, e);
                        let mut sym = "lm_".to_owned();
                        sym.append(sn.as_str());
                        sym.append("__");
                        sym.append(name.as_str());
                        self.gen_expr(env, obj);
                        let recv: i64 = self.temp();
                        self.p("    mov [rbp");
                        self.n(recv as i64);
                        self.p("], rax\n");
                        let slots = self.slots_of(env, args, args.len());
                        let all = with_first(recv, slots);
                        self.load_args(env, &all, sym.as_str());
                    },
                    MethodForm::Unknown => {
                        let mut msg = "cannot resolve method '".to_owned();
                        msg.append(name.as_str());
                        msg.append("' - no method or builtin with that name applies here");
                        self.fail_here(msg.as_str());
                    },
                }
            },
            _ => {
            },
        }
    }

    pub fn gen_indirect(&mut self, env: &Env, e: &Expr)
        ensures
            final(self)@ == gen_indirect(old(self)@, env@, e@),
        decreases e, 1nat, 0nat,
    {
        match e {
            Expr::Call { callee, args } => {
                proof {
                    exprs_facts(args@);
                }
                if args.len() > 3 {
                    self.fail("native: indirect call supports up to 3 args");
                } else {
                    self.gen_expr(env, callee);
                    let fslot: i64 = self.temp();
                    self.p("    mov [rbp");
                    self.n(fslot as i64);
                    self.p("], rax\n");
                    let slots = self.slots_of(env, args, args.len());
                    self.p("    mov rcx, [rbp");
                    self.n(fslot as i64);
                    self.p("]\n");
                    self.load_regs(&slots, slots.len(), 1);
                    let n: u64 = slots.len() as u64;
                    self.p("    call lumen_call");
                    self.u(n as u64);
                    self.p("\n");
                }
            },
            _ => {
            },
        }
    }

    pub fn builtin_call(&mut self, env: &Env, e: &Expr)
        ensures
            final(self)@ == builtin_call(old(self)@, env@, e@),
        decreases e, 1nat, 0nat,
    {
        match e {
            Expr::Call { callee, args } => {
                proof {
                    exprs_facts(args@);
                }
                assert(callee@ == expr_view(**callee));
                match &**callee {
                    Expr::Ident(name) => {
                        if str_eq(name.as_str(), "print") {
                            if args.len() == 0 {
                                self.p("    call lumen_print_nl\n    call lumen_nil\n");
                            } else {
                                if args.len() == 1 {
                                    self.gen_expr(env, &args[0]);
                                    self.p(
                                        "    mov rcx, rax\n    call lumen_print\n    call lumen_nil\n",
                                    );
                                } else {
                                    self.print_parts(env, args, args.len());
                                    self.p("    call lumen_print_nl\n    call lumen_nil\n");
                                }
                            }
                        } else {
                            if str_eq(name.as_str(), "input") {
                                if args.len() > 0 {
                                    self.gen_expr(env, &args[0]);
                                    self.p("    mov rcx, rax\n");
                                } else {
                                    self.p("    call lumen_nil\n    mov rcx, rax\n");
                                }
                                self.p("    call lumen_input\n");
                            } else {
                                if str_eq(name.as_str(), "range") {
                                    if args.len() == 1 || args.len() == 2 {
                                        self.p("    mov rcx, 0\n    call lumen_list_new\n");
                                        let loff: i64 = self.temp();
                                        self.p("    mov [rbp");
                                        self.n(loff as i64);
                                        self.p("], rax\n");
                                        if args.len() == 1 {
                                            let zero: u64 = box_const(0);
                                            self.p("    mov rax, ");
                                            self.u(zero as u64);
                                            self.p("\n");
                                        } else {
                                            self.gen_expr(env, &args[0]);
                                        }
                                        self.p("    mov rcx, rax\n    call lumen_to_int\n");
                                        let ioff: i64 = self.temp();
                                        self.p("    mov [rbp");
                                        self.n(ioff as i64);
                                        self.p("], rax\n");
                                        self.gen_expr(env, &args[args.len() - 1]);
                                        self.p("    mov rcx, rax\n    call lumen_to_int\n");
                                        let hoff: i64 = self.temp();
                                        self.p("    mov [rbp");
                                        self.n(hoff as i64);
                                        self.p("], rax\n");
                                        self.range_loop(env, loff, ioff, hoff);
                                    } else {
                                        self.fail("range() takes 1 or 2 args");
                                    }
                                } else {
                                    if args.len() == 0 {
                                        let mut msg = "native: too few arguments for '".to_owned();
                                        msg.append(name.as_str());
                                        msg.append("'");
                                        self.fail(msg.as_str());
                                    } else {
                                        self.gen_expr(env, &args[0]);
                                        let tail = find_builtin_tail(name.as_str());
                                        self.p("    mov rcx, rax\n");
                                        self.p(tail);
                                    }
                                }
                            }
                        }
                    },
                    _ => {
                    },
                }
            },
            _ => {
            },
        }
    }

    pub fn struct_begin(&mut self, env: &Env, name: &str, fields: &Vec<Field>) -> (r: i64)
        ensures
            (final(self)@, r) == struct_begin(old(self)@, env@, name@, fields_view(fields@)),
    {
        let name_lbl = self.add_string(name);
        let table_lbl = self.field_table(name, fields);
        let n: u64 = fields.len() as u64;
        self.p("    lea rcx, [rip + ");
        self.p(name_lbl.as_str());
        self.p("]\n");
        self.p("    mov rdx, ");
        self.u(n as u64);
        self.p("\n");
        self.p("    lea r8, [rip + ");
        self.p(table_lbl.as_str());
        self.p("]\n");
        self.p("    call lumen_struct_new\n");
        let soff: i64 = self.temp();
        self.p("    mov [rbp");
        self.n(soff as i64);
        self.p("], rax\n");
        soff
    }

    pub fn ffi_call(&mut self, env: &Env, ef: &ExternFn, slots: &Vec<i64>)
        requires
            slots@.len() <= 16,
        ensures
            final(self)@ == ffi_call(old(self)@, env@, ef@, slots@),
    {
        let n: u64 = slots.len() as u64;
        let fname = ef.name.as_str();
        if n > 4 {
            let bytes: u64 = ffi_frame_bytes(n);
            self.p("    sub rsp, ");
            self.u(bytes as u64);
            self.p("\n");
            self.push_stack(slots, slots.len());
            self.ffi_regs(slots, 4, &ef.params);
            self.p("    call ");
            self.p(fname);
            self.p("\n");
            self.p("    add rsp, ");
            self.u(bytes as u64);
            self.p("\n");
        } else {
            self.ffi_regs(slots, slots.len(), &ef.params);
            self.p("    call ");
            self.p(fname);
            self.p("\n");
        }
        match find_ffi_ret(&ef.ret) {
            FfiRet::Nil => {
                self.p("    call lumen_nil\n");
            },
            FfiRet::Float => {
                self.p("    call lumen_from_double\n");
            },
            FfiRet::Int => {
                self.p("    mov rcx, rax\n    call lumen_from_int\n");
            },
        }
    }

    pub fn gen_call(&mut self, env: &Env, e: &Expr)
        ensures
            final(self)@ == gen_call(old(self)@, env@, e@),
        decreases e, 2nat, 0nat,
    {
        let how = self.find_call_form(env, e);
        match e {
            Expr::Call { callee, args } => {
                proof {
                    exprs_facts(args@);
                }
                assert(callee@ == expr_view(**callee));
                match how {
                    CallForm::Indirect => {
                        self.gen_indirect(env, e);
                    },
                    CallForm::Builtin => {
                        self.builtin_call(env, e);
                    },
                    CallForm::Struct => {
                        let name = get_ident(callee);
                        let fields = find_fields(env, name);
                        if args.len() > fields.len() {
                            let nf: u64 = fields.len() as u64;
                            let na: u64 = args.len() as u64;
                            let mut msg = "too many arguments for struct '".to_owned();
                            msg.append(name);
                            msg.append("': it has ");
                            push_u64(&mut msg, nf as u64);
                            msg.append(" field(s) but ");
                            push_u64(&mut msg, na as u64);
                            msg.append(" were given");
                            self.fail(msg.as_str());
                        } else {
                            let soff: i64 = self.struct_begin(env, name, fields);
                            self.set_positional(env, args, args.len(), soff, fields);
                            self.p("    mov rax, [rbp");
                            self.n(soff as i64);
                            self.p("]\n");
                        }
                    },
                    CallForm::Foreign => {
                        let name = get_ident(callee);
                        if args.len() > 16 {
                            self.fail_here("FFI: at most 16 arguments are supported");
                        } else {
                            match env.decls.externs.get(name) {
                                Some(ef) => {
                                    let slots = self.ffi_slots(env, args, args.len(), &ef.params);
                                    self.ffi_call(env, ef, &slots);
                                },
                                None => {
                                },
                            }
                        }
                    },
                    CallForm::Direct => {
                        let name = get_ident(callee);
                        if args.len() == 1 {
                            self.gen_expr(env, &args[0]);
                            self.p("    mov rcx, rax\n");
                            self.p("    call lm_");
                            self.p(name);
                            self.p("\n");
                        } else {
                            let slots = self.slots_of(env, args, args.len());
                            let mut sym = "lm_".to_owned();
                            sym.append(name);
                            self.load_args(env, &slots, sym.as_str());
                        }
                    },
                    CallForm::Unknown => {
                        let name = get_ident(callee);
                        let mut msg = "undefined function '".to_owned();
                        msg.append(name);
                        msg.append("' - no such function, method, or builtin");
                        self.fail_here(msg.as_str());
                    },
                }
            },
            _ => {
            },
        }
    }

    pub fn gen_named_call(&mut self, env: &Env, e: &Expr)
        ensures
            final(self)@ == gen_named_call(old(self)@, env@, e@),
        decreases e, 2nat, 0nat,
    {
        match e {
            Expr::NamedCall { callee, args } => {
                proof {
                    named_facts(args@);
                }
                assert(callee@ == expr_view(**callee));
                match &**callee {
                    Expr::Ident(name) => {
                        match env.decls.structs.get(name.as_str()) {
                            Some(sd) => {
                                let soff: i64 = self.struct_begin(env, name.as_str(), &sd.fields);
                                self.set_fields(env, args, args.len(), soff);
                                self.p("    mov rax, [rbp");
                                self.n(soff as i64);
                                self.p("]\n");
                            },
                            None => {
                                let mut msg = "no struct type named '".to_owned();
                                msg.append(name.as_str());
                                msg.append("'");
                                self.fail_here(msg.as_str());
                            },
                        }
                    },
                    _ => {
                        self.fail_here("a constructor call must name a struct type");
                    },
                }
            },
            _ => {
            },
        }
    }

    pub fn comp_push(&mut self, env: &Env, acc: &str, elem: &Expr)
        ensures
            final(self)@ == comp_push(old(self)@, env@, acc@, elem@),
        decreases elem, 7nat, 0nat,
    {
        self.load_ident(env, acc);
        let o: i64 = self.temp();
        self.p("    mov [rbp");
        self.n(o as i64);
        self.p("], rax\n");
        self.gen_expr(env, elem);
        self.p("    mov rdx, rax\n    mov rcx, [rbp");
        self.n(o as i64);
        self.p("]\n    call lumen_list_push\n");
        self.p("    call lumen_nil\n");
    }

    pub fn comp_body(&mut self, env: &Env, e: &Expr, acc: &str)
        ensures
            final(self)@ == comp_body(old(self)@, env@, e@, acc@),
        decreases e, 0nat, 0nat,
    {
        match e {
            Expr::ListComp { elem, cond, .. } => {
                assert(optbox_view(*cond) is Some == cond is Some);
                match cond {
                    Some(c) => {
                        let end = self.new_label("ifend");
                        let next = self.new_label("ifnext");
                        self.cond_false(env, c, next.as_str());
                        self.comp_push(env, acc, elem);
                        self.p("    jmp ");
                        self.p(end.as_str());
                        self.p("\n");
                        self.p(next.as_str());
                        self.p(":\n");
                        self.p(end.as_str());
                        self.p(":\n");
                    },
                    None => {
                        self.comp_push(env, acc, elem);
                    },
                }
            },
            _ => {
            },
        }
    }

    pub fn gen_comp(&mut self, env: &Env, e: &Expr)
        ensures
            final(self)@ == gen_comp(old(self)@, env@, e@),
        decreases e, 1nat, 0nat,
    {
        match e {
            Expr::ListComp { elem, var, iter, cond } => {
                let id: u64 = self.new_unique();
                let mut acc = "__lc_acc_".to_owned();
                push_u64(&mut acc, id as u64);
                self.p("    mov rcx, 0\n    call lumen_list_new\n");
                let accoff: i64 = self.slot(acc.as_str());
                self.p("    mov [rbp");
                self.n(accoff as i64);
                self.p("], rax\n");
                let voff: i64 = self.slot(var.as_str());
                let saveoff: i64 = self.temp();
                self.p("    mov rax, [rbp");
                self.n(voff as i64);
                self.p("]\n");
                self.p("    mov [rbp");
                self.n(saveoff as i64);
                self.p("], rax\n");
                assert(iter@ == expr_view(**iter));
                match &**iter {
                    Expr::Range { lo, hi } => {
                        let fr = self.range_regs();
                        self.gen_expr(env, lo);
                        self.unbox_int();
                        self.set_counter(&fr);
                        self.gen_expr(env, hi);
                        self.unbox_int();
                        self.set_limit(&fr);
                        let used = str_eq(acc.as_str(), var.as_str())
                            || is_used_expr(elem, var.as_str())
                            || is_used_optbox(cond, var.as_str());
                        let none: Vec<String> = Vec::new();
                        assert(texts_view(none@) =~= Seq::empty());
                        let fo = self.range_open(
                            &fr,
                            var.as_str(),
                            env.raw_int.contains(var.as_str()),
                            used,
                            false,
                            true,
                            &none,
                            &none,
                        );
                        self.comp_body(env, e, acc.as_str());
                        self.range_close(&fr, &fo, var.as_str());
                    },
                    _ => {
                        self.gen_expr(env, iter);
                        let lo2 = self.list_open(var.as_str());
                        self.comp_body(env, e, acc.as_str());
                        self.list_close(&lo2);
                    },
                }
                self.p("    mov rax, [rbp");
                self.n(saveoff as i64);
                self.p("]\n");
                self.p("    mov [rbp");
                self.n(voff as i64);
                self.p("], rax\n");
                self.p("    mov rax, [rbp");
                self.n(accoff as i64);
                self.p("]\n");
            },
            _ => {
            },
        }
    }
}

} // verus!
