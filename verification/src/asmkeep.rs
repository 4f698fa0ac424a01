//! The x86-64 back end only adds to its text, and leaves the stack of loops as it found it.

use crate::analysis::{
    assigns_block, gives_bool, is_arith, is_comparison, no_alloc_block, used_block, used_expr,
    used_optbox,
};
use crate::asmexpr::{
    builtin_call, closure_caps, comp_body, comp_push, compare_set, cond_false, const_div, eval_raw,
    eval_raw_float, expr_bool, expr_closure, expr_f_str, expr_field, expr_float, expr_ident,
    expr_if_else, expr_index, expr_int, expr_lambda, expr_list, expr_map_lit, expr_nil, expr_range,
    expr_self_expr, expr_slice, expr_str, expr_unary, ffi_call, ffi_slots, float_apply,
    float_binary, float_list_index, float_neg, fstr_parts, gen_binary, gen_call, gen_comp,
    gen_expr, gen_indirect, gen_method, gen_named_call, gen_opt, int_op, int_operands, list_addr,
    list_items, load_args, load_ident, map_entries, module_call, print_parts, range_loop,
    raw_binary, raw_call, raw_list_index, raw_neg, raw_power, raw_slots_of, set_fields,
    set_positional, slots_of, slow_index, struct_begin, var_div,
};
use crate::asmops::{HeldView, LoopView, RangeRegs, arg_reg, ffi_float};
use crate::asmquery::{
    CallForm, FfiRet, FloatForm, MethodForm, RawForm, arity_of, boxed_int, builtin_tail, call_form,
    const_of, extern_of, fast_op, ffi_bytes, ffi_ret, field_name, fields_of, float_bits,
    float_form, float_ins, float_operand, ident_name, imm32, int_value, is_fast, is_int_comparison,
    jcc_false, known_float, known_int, mask_bits, method_form, one_arg_method, plain_method,
    raw_form, raw_operand, resolved, runtime_op, small_exp, stack_bytes, struct_of, xmm_src,
};
use crate::asmstate::{Asm, FnEnv};
use crate::asmstmt::{
    call_args, float_names, gen_elifs, gen_stmt, gen_stmts, int_names, is_tail_call, raw_param,
    stmt_assign, stmt_break, stmt_continue, stmt_expr_stmt, stmt_for, stmt_if, stmt_let,
    stmt_raise, stmt_return, stmt_src_line, stmt_try, stmt_while, store_float, store_raw,
    tail_slots,
};
use crate::ast::{
    BinOp, Expr, ExprView, ExternFnView, FStrPartView, Field, FieldView, ParamView, StmtView, UnOp,
};
use crate::builtins::{lookup_spec};
use crate::machops::{index};
use crate::text::{dec_nat, starts_with_spec};
use vstd::prelude::*;

verus! {

/// What generating code keeps: the text so far, and the loops that enclose it.
#[verifier::opaque]
pub open spec fn kept(b: Asm, g: Asm) -> bool {
    b.out.is_prefix_of(g.out) && g.loops == b.loops
}

/// Inside a loop: the text so far, and one loop more.
#[verifier::opaque]
pub open spec fn entered(b: Asm, g: Asm) -> bool {
    b.out.is_prefix_of(g.out) && g.loops.len() > 0 && g.loops.drop_last() == b.loops
}

pub(crate) proof fn kept_self(g: Asm)
    ensures
        kept(g, g),
{
    reveal(kept);
}

proof fn labels_same(g: Asm, fields: Seq<FieldView>)
    ensures
        g.field_labels(fields).0.out == g.out,
        g.field_labels(fields).0.loops == g.loops,
    decreases fields.len(),
{
    reveal(Asm::add_string);
    if fields.len() > 0 {
        labels_same(g, fields.drop_last());
    }
}

/// A loop that is left is gone from the stack.
proof fn loop_left(b: Asm, m: Asm, n: Asm, j: Asm)
    requires
        kept(b, m),
        m.out == n.out,
        n.loops.len() > 0,
        n.loops.drop_last() == m.loops,
        kept(n, j),
    ensures
        kept(b, j.pop_loop()),
{
    reveal(kept);
    reveal(Asm::pop_loop);
    crate::coderun::part_of(j.out, b.out, m.out);
}

proof fn pushed(m: Asm, cont: Seq<char>, brk: Seq<char>)
    ensures
        m.push_loop(cont, brk).out == m.out,
        m.push_loop(cont, brk).loops.len() > 0,
        m.push_loop(cont, brk).loops.drop_last() == m.loops,
        m.push_loop(cont, brk).loops.last() == (cont, brk),
{
    reveal(Asm::push_loop);
    assert(m.loops.push((cont, brk)).drop_last() =~= m.loops);
}

pub(crate) proof fn range_opened(
    b: Asm,
    g: Asm,
    r: RangeRegs,
    var: Seq<char>,
    raw: bool,
    used: bool,
    assigned: bool,
    poll: bool,
    fnames: Seq<Seq<char>>,
    inames: Seq<Seq<char>>,
)
    requires
        kept(b, g),
    ensures
        entered(b, g.range_open(r, var, raw, used, assigned, poll, fnames, inames).0),
{
    broadcast use ops;
    reveal(Asm::range_open);
    let (g1, ioff) = g.slot(var);
    let (g2, floats) = g1.hold_floats(fnames, fnames.len());
    hold_floats_kept(b, g1, fnames, fnames.len());
    hold_ints_kept(b, g2, inames, inames.len());
    let (g3, ints) = g2.hold_ints(inames, inames.len());
    let (g4, top) = g3.new_label("ftop"@);
    let (g5, end) = g4.new_label("fend"@);
    let (g6, cont) = g5.new_label("fcont"@);
    let g7 = g6.p(top).p(":\n"@);
    let g8 = if r.in_regs {
        g7.p("    cmp "@).p(r.counter).p(", "@).p(r.limit).p("\n    jge "@).p(end).p(
            "\n    mov rax, "@,
        ).p(r.counter).p("\n"@)
    } else {
        g7.p("    mov rax, "@).p(r.counter).p("\n    mov rcx, "@).p(r.limit).p(
            "\n    cmp rax, rcx\n    jge "@,
        ).p(end).p("\n"@)
    };
    let mapped = raw && r.in_regs && used && !assigned;
    let g9 = if mapped {
        g8.set_int_loc(var, r.counter)
    } else if used {
        (if raw {
            g8
        } else {
            g8.box_int()
        }).p("    mov [rbp"@).n(ioff as int).p("], rax\n"@)
    } else {
        g8
    };
    let g10 = if poll {
        g9.gc_poll()
    } else {
        g9
    };
    open_from(b, g10, cont, end);
}

proof fn open_from(b: Asm, m: Asm, cont: Seq<char>, brk: Seq<char>)
    requires
        kept(b, m),
    ensures
        entered(b, m.push_loop(cont, brk)),
{
    reveal(kept);
    reveal(entered);
    pushed(m, cont, brk);
}

proof fn range_closed(b: Asm, n: Asm, g: Asm, r: RangeRegs, l: LoopView, var: Seq<char>)
    requires
        entered(b, n),
        kept(n, g),
    ensures
        kept(b, g.range_close(r, l, var)),
{
    broadcast use ops;
    reveal(Asm::range_close);
    let g1 = g.pop_loop();
    left(b, n, g);
    let g2 = if l.mapped {
        g1.del_int_loc(var)
    } else {
        g1
    };
    let g3 = g2.p(l.cont).p(":\n"@);
    let g4 = if r.in_regs {
        g3.p("    add "@).p(r.counter).p(", 1\n"@)
    } else {
        g3.p("    mov rax, "@).p(r.counter).p("\n    add rax, 1\n    mov "@).p(r.counter).p(
            ", rax\n"@,
        )
    };
    let g5 = g4.p("    jmp "@).p(l.top).p("\n"@).p(l.end).p(":\n"@);
    release_floats_kept(b, g5, l.floats, l.floats.len());
    release_ints_kept(b, g5.release_floats(l.floats, l.floats.len()), l.ints, l.ints.len());
}

proof fn left(b: Asm, n: Asm, g: Asm)
    requires
        entered(b, n),
        kept(n, g),
    ensures
        kept(b, g.pop_loop()),
{
    reveal(kept);
    reveal(entered);
    reveal(Asm::pop_loop);
    crate::coderun::part_of(g.out, b.out, n.out);
}

proof fn list_opened(b: Asm, g: Asm, var: Seq<char>)
    requires
        kept(b, g),
    ensures
        entered(b, g.list_open(var).0),
{
    broadcast use ops;
    reveal(Asm::list_open);
    let (g1, listoff) = g.p("    mov rcx, rax\n    call lumen_iter_prep\n"@).temp();
    let g2 = g1.p("    mov [rbp"@).n(listoff as int).p("], rax\n    mov rcx, [rbp"@).n(
        listoff as int,
    ).p("]\n    call lumen_len\n"@);
    let (g3, lenoff) = g2.temp();
    let (g4, idxoff) = g3.p("    mov [rbp"@).n(lenoff as int).p("], rax\n"@).temp();
    let (g5, voff) = g4.p("    mov qword ptr [rbp"@).n(idxoff as int).p("], 0\n"@).slot(var);
    let (g6, top) = g5.new_label("ltop"@);
    let (g7, end) = g6.new_label("lend"@);
    let (g8, cont) = g7.new_label("lcont"@);
    let g9 = g8.p(top).p(":\n    mov rax, [rbp"@).n(lenoff as int).p("]\n    mov rcx, [rbp"@).n(
        idxoff as int,
    ).p("]\n    cmp rcx, rax\n    jge "@).p(end).p("\n    mov rcx, [rbp"@).n(
        listoff as int,
    ).p("]\n    mov rdx, [rbp"@).n(idxoff as int).p(
        "]\n    call lumen_list_get\n    mov [rbp"@,
    ).n(voff as int).p("], rax\n"@);
    open_from(b, g9.gc_poll(), cont, end);
}

proof fn list_closed(b: Asm, n: Asm, g: Asm, l: LoopView)
    requires
        entered(b, n),
        kept(n, g),
    ensures
        kept(b, g.list_close(l)),
{
    broadcast use ops;
    reveal(Asm::list_close);
    left(b, n, g);
}

pub(crate) broadcast proof fn p_op(origin: Asm, g: Asm, s: Seq<char>)
    requires
        #[trigger] kept(origin, g),
    ensures
        kept(origin, (#[trigger] g.p(s))),
{
    reveal(kept);
    reveal(Asm::p);
}

pub(crate) broadcast proof fn n_op(origin: Asm, g: Asm, v: int)
    requires
        #[trigger] kept(origin, g),
    ensures
        kept(origin, (#[trigger] g.n(v))),
{
    reveal(kept);
    reveal(Asm::n);
}

pub(crate) broadcast proof fn u_op(origin: Asm, g: Asm, v: nat)
    requires
        #[trigger] kept(origin, g),
    ensures
        kept(origin, (#[trigger] g.u(v))),
{
    reveal(kept);
    reveal(Asm::u);
}

pub(crate) broadcast proof fn fail_op(origin: Asm, g: Asm, m: Seq<char>)
    requires
        #[trigger] kept(origin, g),
    ensures
        kept(origin, (#[trigger] g.fail(m))),
{
    reveal(kept);
    reveal(Asm::fail);
}

pub(crate) broadcast proof fn fail_here_op(origin: Asm, g: Asm, m: Seq<char>)
    requires
        #[trigger] kept(origin, g),
    ensures
        kept(origin, (#[trigger] g.fail_here(m))),
{
    reveal(kept);
    reveal(Asm::fail);
    reveal(Asm::fail_here);
}

pub(crate) broadcast proof fn new_label_op(origin: Asm, g: Asm, base: Seq<char>)
    requires
        #[trigger] kept(origin, g),
    ensures
        kept(origin, (#[trigger] g.new_label(base)).0),
{
    reveal(kept);
    reveal(Asm::new_label);
}

pub(crate) broadcast proof fn new_unique_op(origin: Asm, g: Asm)
    requires
        #[trigger] kept(origin, g),
    ensures
        kept(origin, (#[trigger] g.new_unique()).0),
{
    reveal(kept);
    reveal(Asm::new_unique);
}

pub(crate) broadcast proof fn grow_op(origin: Asm, g: Asm, k: i64)
    requires
        #[trigger] kept(origin, g),
    ensures
        kept(origin, (#[trigger] g.grow(k)).0),
{
    reveal(kept);
    reveal(Asm::fail);
    reveal(Asm::grow);
}

pub(crate) broadcast proof fn temp_op(origin: Asm, g: Asm)
    requires
        #[trigger] kept(origin, g),
    ensures
        kept(origin, (#[trigger] g.temp()).0),
{
    reveal(kept);
    reveal(Asm::fail);
    reveal(Asm::grow);
    reveal(Asm::temp);
}

pub(crate) broadcast proof fn slot_op(origin: Asm, g: Asm, name: Seq<char>)
    requires
        #[trigger] kept(origin, g),
    ensures
        kept(origin, (#[trigger] g.slot(name)).0),
{
    reveal(kept);
    reveal(Asm::fail);
    reveal(Asm::grow);
    reveal(Asm::slot);
}

pub(crate) broadcast proof fn vslot_op(origin: Asm, g: Asm, v: u32)
    requires
        #[trigger] kept(origin, g),
    ensures
        kept(origin, (#[trigger] g.vslot(v)).0),
{
    reveal(kept);
    reveal(Asm::fail);
    reveal(Asm::grow);
    reveal(Asm::vslot);
}

pub(crate) broadcast proof fn bind_local_op(origin: Asm, g: Asm, name: Seq<char>, off: i64)
    requires
        #[trigger] kept(origin, g),
    ensures
        kept(origin, (#[trigger] g.bind_local(name, off))),
{
    reveal(kept);
    reveal(Asm::bind_local);
}

pub(crate) broadcast proof fn add_string_op(origin: Asm, g: Asm, b: Seq<char>)
    requires
        #[trigger] kept(origin, g),
    ensures
        kept(origin, (#[trigger] g.add_string(b)).0),
{
    reveal(kept);
    reveal(Asm::add_string);
}

pub(crate) broadcast proof fn add_double_op(origin: Asm, g: Asm, bits: u64)
    requires
        #[trigger] kept(origin, g),
    ensures
        kept(origin, (#[trigger] g.add_double(bits)).0),
{
    reveal(kept);
    reveal(Asm::add_double);
}

pub(crate) broadcast proof fn want_empty_str_op(origin: Asm, g: Asm)
    requires
        #[trigger] kept(origin, g),
    ensures
        kept(origin, (#[trigger] g.want_empty_str())),
{
    reveal(kept);
    reveal(Asm::want_empty_str);
}

pub(crate) broadcast proof fn field_table_op(origin: Asm, g: Asm, name: Seq<char>, fields: Seq<FieldView>)
    requires
        #[trigger] kept(origin, g),
    ensures
        kept(origin, (#[trigger] g.field_table(name, fields)).0),
{
    reveal(kept);
    reveal(Asm::field_table);
    labels_same(Asm { tables: g.tables, ..g }, fields);
}

pub(crate) broadcast proof fn acquire_callee_op(origin: Asm, g: Asm)
    requires
        #[trigger] kept(origin, g),
    ensures
        kept(origin, (#[trigger] g.acquire_callee()).0),
{
    reveal(kept);
    reveal(Asm::acquire_callee);
    reveal(Asm::fail);
    reveal(Asm::grow);
}

pub(crate) broadcast proof fn acquire_xmm_op(origin: Asm, g: Asm)
    requires
        #[trigger] kept(origin, g),
    ensures
        kept(origin, (#[trigger] g.acquire_xmm()).0),
{
    reveal(kept);
    reveal(Asm::acquire_xmm);
    reveal(Asm::fail);
    reveal(Asm::grow);
}

pub(crate) broadcast proof fn set_line_op(origin: Asm, g: Asm, n: u32)
    requires
        #[trigger] kept(origin, g),
    ensures
        kept(origin, (#[trigger] g.set_line(n))),
{
    reveal(kept);
    reveal(Asm::set_line);
}

pub(crate) broadcast proof fn set_int_loc_op(origin: Asm, g: Asm, name: Seq<char>, reg: Seq<char>)
    requires
        #[trigger] kept(origin, g),
    ensures
        kept(origin, (#[trigger] g.set_int_loc(name, reg))),
{
    reveal(kept);
    reveal(Asm::set_int_loc);
}

pub(crate) broadcast proof fn del_int_loc_op(origin: Asm, g: Asm, name: Seq<char>)
    requires
        #[trigger] kept(origin, g),
    ensures
        kept(origin, (#[trigger] g.del_int_loc(name))),
{
    reveal(kept);
    reveal(Asm::del_int_loc);
}

pub(crate) broadcast proof fn set_float_loc_op(origin: Asm, g: Asm, name: Seq<char>, reg: Seq<char>)
    requires
        #[trigger] kept(origin, g),
    ensures
        kept(origin, (#[trigger] g.set_float_loc(name, reg))),
{
    reveal(kept);
    reveal(Asm::set_float_loc);
}

pub(crate) broadcast proof fn del_float_loc_op(origin: Asm, g: Asm, name: Seq<char>)
    requires
        #[trigger] kept(origin, g),
    ensures
        kept(origin, (#[trigger] g.del_float_loc(name))),
{
    reveal(kept);
    reveal(Asm::del_float_loc);
}

pub(crate) broadcast proof fn box_int_op(origin: Asm, g: Asm)
    requires
        #[trigger] kept(origin, g),
    ensures
        kept(origin, (#[trigger] g.box_int())),
{
    reveal(kept);
    reveal(Asm::box_int);
    reveal(Asm::p);
}

pub(crate) broadcast proof fn unbox_int_op(origin: Asm, g: Asm)
    requires
        #[trigger] kept(origin, g),
    ensures
        kept(origin, (#[trigger] g.unbox_int())),
{
    reveal(kept);
    reveal(Asm::p);
    reveal(Asm::unbox_int);
}

pub(crate) broadcast proof fn gc_poll_op(origin: Asm, g: Asm)
    requires
        #[trigger] kept(origin, g),
    ensures
        kept(origin, (#[trigger] g.gc_poll())),
{
    reveal(kept);
    reveal(Asm::gc_poll);
    reveal(Asm::new_label);
    reveal(Asm::p);
}

pub(crate) broadcast proof fn range_regs_op(origin: Asm, g: Asm)
    requires
        #[trigger] kept(origin, g),
    ensures
        kept(origin, (#[trigger] g.range_regs()).0),
{
    reveal(kept);
    reveal(Asm::acquire_callee);
    reveal(Asm::fail);
    reveal(Asm::grow);
    reveal(Asm::range_regs);
    reveal(Asm::temp);
}

pub(crate) broadcast proof fn set_counter_op(origin: Asm, g: Asm, r: RangeRegs)
    requires
        #[trigger] kept(origin, g),
    ensures
        kept(origin, (#[trigger] g.set_counter(r))),
{
    reveal(kept);
    reveal(Asm::p);
    reveal(Asm::set_counter);
}

pub(crate) broadcast proof fn set_limit_op(origin: Asm, g: Asm, r: RangeRegs)
    requires
        #[trigger] kept(origin, g),
    ensures
        kept(origin, (#[trigger] g.set_limit(r))),
{
    reveal(kept);
    reveal(Asm::p);
    reveal(Asm::set_limit);
}

pub(crate) broadcast group ops {
    p_op,
    n_op,
    u_op,
    fail_op,
    fail_here_op,
    new_label_op,
    new_unique_op,
    grow_op,
    temp_op,
    slot_op,
    vslot_op,
    bind_local_op,
    add_string_op,
    add_double_op,
    want_empty_str_op,
    field_table_op,
    acquire_callee_op,
    acquire_xmm_op,
    set_line_op,
    set_int_loc_op,
    del_int_loc_op,
    set_float_loc_op,
    del_float_loc_op,
    box_int_op,
    unbox_int_op,
    gc_poll_op,
    range_regs_op,
    set_counter_op,
    set_limit_op,
}

pub(crate) proof fn load_regs_kept(origin: Asm, g: Asm, slots: Seq<i64>, k: nat, from: int)
    requires
        kept(origin, g),
    ensures
        kept(origin, g.load_regs(slots, k, from)),
    decreases k,
{
    broadcast use ops;
    if k > 0 {
        load_regs_kept(origin, g, slots, (k - 1) as nat, from);
    }
}

pub(crate) proof fn load_regs_down_kept(origin: Asm, g: Asm, slots: Seq<i64>, k: nat)
    requires
        kept(origin, g),
    ensures
        kept(origin, g.load_regs_down(slots, k)),
    decreases k,
{
    broadcast use ops;
    if k > 0 && k <= slots.len() {
        let h = g.p("    mov "@).p(arg_reg(k - 1)).p(", [rbp"@).n(slots[k - 1] as int).p("]\n"@);
        load_regs_down_kept(origin, h, slots, (k - 1) as nat);
    }
}

pub(crate) proof fn push_stack_kept(origin: Asm, g: Asm, slots: Seq<i64>, k: nat)
    requires
        kept(origin, g),
    ensures
        kept(origin, g.push_stack(slots, k)),
    decreases k,
{
    broadcast use ops;
    if k > 0 {
        push_stack_kept(origin, g, slots, (k - 1) as nat);
    }
}

pub(crate) proof fn mul_times_kept(origin: Asm, g: Asm, bt: i64, n: nat)
    requires
        kept(origin, g),
    ensures
        kept(origin, g.mul_times(bt, n)),
    decreases n,
{
    broadcast use ops;
    if n > 0 {
        mul_times_kept(origin, g, bt, (n - 1) as nat);
    }
}

pub(crate) proof fn ffi_regs_kept(origin: Asm, g: Asm, slots: Seq<i64>, k: nat, params: Seq<ParamView>)
    requires
        kept(origin, g),
    ensures
        kept(origin, g.ffi_regs(slots, k, params)),
    decreases k,
{
    broadcast use ops;
    if k > 0 {
        ffi_regs_kept(origin, g, slots, (k - 1) as nat, params);
    }
}

pub(crate) proof fn hold_floats_kept(origin: Asm, g: Asm, names: Seq<Seq<char>>, k: nat)
    requires
        kept(origin, g),
    ensures
        kept(origin, g.hold_floats(names, k).0),
    decreases k,
{
    broadcast use ops;
    if k > 0 {
        hold_floats_kept(origin, g, names, (k - 1) as nat);
    }
}

pub(crate) proof fn hold_ints_kept(origin: Asm, g: Asm, names: Seq<Seq<char>>, k: nat)
    requires
        kept(origin, g),
    ensures
        kept(origin, g.hold_ints(names, k).0),
    decreases k,
{
    broadcast use ops;
    if k > 0 {
        hold_ints_kept(origin, g, names, (k - 1) as nat);
    }
}

pub(crate) proof fn release_floats_kept(origin: Asm, g: Asm, held: Seq<HeldView>, k: nat)
    requires
        kept(origin, g),
    ensures
        kept(origin, g.release_floats(held, k)),
    decreases k,
{
    broadcast use ops;
    if k > 0 {
        release_floats_kept(origin, g, held, (k - 1) as nat);
    }
}

pub(crate) proof fn release_ints_kept(origin: Asm, g: Asm, held: Seq<HeldView>, k: nat)
    requires
        kept(origin, g),
    ensures
        kept(origin, g.release_ints(held, k)),
    decreases k,
{
    broadcast use ops;
    if k > 0 {
        release_ints_kept(origin, g, held, (k - 1) as nat);
    }
}

pub(crate) proof fn move_slots_to_kept(origin: Asm, g: Asm, tmps: Seq<i64>, ps: Seq<(i64, bool)>, k: nat)
    requires
        kept(origin, g),
    ensures
        kept(origin, g.move_slots_to(tmps, ps, k)),
    decreases k,
{
    broadcast use ops;
    if k > 0 {
        move_slots_to_kept(origin, g, tmps, ps, (k - 1) as nat);
    }
}

pub(crate) proof fn move_slots_kept(origin: Asm, g: Asm, tmps: Seq<i64>, ps: Seq<(i64, bool)>)
    requires
        kept(origin, g),
    ensures
        kept(origin, g.move_slots(tmps, ps)),
{
    broadcast use ops;
    move_slots_to_kept(origin, g, tmps, ps, tmps.len());
}

pub(crate) proof fn const_div_kept(origin: Asm, g: Asm, env: FnEnv, d: i64)
    requires
        kept(origin, g),
    ensures
        kept(origin, const_div(g, env, d)),
{
    broadcast use ops;
}

pub(crate) proof fn load_ident_kept(origin: Asm, g: Asm, env: FnEnv, n: Seq<char>)
    requires
        kept(origin, g),
    ensures
        kept(origin, load_ident(g, env, n)),
{
    broadcast use ops;
}

pub(crate) proof fn range_loop_kept(origin: Asm, g: Asm, env: FnEnv, loff: i64, ioff: i64, hoff: i64)
    requires
        kept(origin, g),
    ensures
        kept(origin, range_loop(g, env, loff, ioff, hoff)),
{
    broadcast use ops;
}

pub(crate) proof fn slow_index_kept(origin: Asm, g: Asm, env: FnEnv, objt: i64, idxt: i64)
    requires
        kept(origin, g),
    ensures
        kept(origin, slow_index(g, env, objt, idxt)),
{
    broadcast use ops;
}

pub(crate) proof fn list_addr_kept(origin: Asm, g: Asm, env: FnEnv, objt: i64, idxt: i64, slow: Seq<char>)
    requires
        kept(origin, g),
    ensures
        kept(origin, list_addr(g, env, objt, idxt, slow)),
{
    broadcast use ops;
}

pub(crate) proof fn var_div_kept(origin: Asm, g: Asm, env: FnEnv, lt: i64, is_mod: bool)
    requires
        kept(origin, g),
    ensures
        kept(origin, var_div(g, env, lt, is_mod)),
{
    broadcast use ops;
}

pub(crate) proof fn compare_set_kept(origin: Asm, g: Asm, env: FnEnv, op: BinOp)
    requires
        kept(origin, g),
    ensures
        kept(origin, compare_set(g, env, op)),
{
    broadcast use ops;
}

pub(crate) proof fn int_op_kept(origin: Asm, g: Asm, env: FnEnv, op: BinOp)
    requires
        kept(origin, g),
    ensures
        kept(origin, int_op(g, env, op)),
{
    broadcast use ops;
    let r = {
    let g1 = if is_comparison(op) {
        let g2 = compare_set(g, env, op);
        compare_set_kept(origin, g, env, op);
        g2
    } else {
        let kind = fast_op(op);
        let g3 = g.p("    "@).p(kind).p(" r8, r9\n"@);
        let g4 = g3.p("    mov rax, r8\n"@);
        let g5 = g4.box_int();
        g5
    };
    g1
};
}

pub(crate) proof fn float_apply_kept(origin: Asm, g: Asm, env: FnEnv, op: BinOp)
    requires
        kept(origin, g),
    ensures
        kept(origin, float_apply(g, env, op)),
{
    broadcast use ops;
}

pub(crate) proof fn load_args_kept(origin: Asm, g: Asm, env: FnEnv, slots: Seq<i64>, sym: Seq<char>)
    requires
        kept(origin, g),
    ensures
        kept(origin, load_args(g, env, slots, sym)),
{
    broadcast use ops;
    let r = {
    let n = slots.len();
    let g1 = if n <= 4 {
        let g2 = g.load_regs(slots, slots.len(), 0);
        load_regs_kept(origin, g, slots, slots.len(), 0);
        let g3 = g2.p("    call "@).p(sym).p("\n"@);
        g3
    } else {
        let g4 = if n > 0x1000_0000 {
            let g5 = g.fail("too many arguments"@);
            g5
        } else {
            let bytes = stack_bytes(n);
            let g6 = g.p("    sub rsp, "@).u(bytes as nat).p("\n"@);
            let g7 = g6.push_stack(slots, slots.len());
            push_stack_kept(origin, g6, slots, slots.len());
            let g8 = g7.load_regs(slots, 4, 0);
            load_regs_kept(origin, g7, slots, 4, 0);
            let g9 = g8.p("    call "@).p(sym).p("\n"@);
            let g10 = g9.p("    add rsp, "@).u(bytes as nat).p("\n"@);
            g10
        };
        g4
    };
    g1
};
}

pub(crate) proof fn slots_of_kept(origin: Asm, g: Asm, env: FnEnv, s: Seq<ExprView>, k: nat)
    requires
        kept(origin, g),
    ensures
        kept(origin, slots_of(g, env, s, k).0),
    decreases s, 9nat, k,
{
    broadcast use ops;
    let r = {
    if k == 0 || k > s.len() {
        (g, Seq::empty())
    } else {
        let (g0, slots) = slots_of(g, env, s, (k - 1) as nat);
        slots_of_kept(origin, g, env, s, (k - 1) as nat);
        let i = k - 1;
        let e = s[i];
        let g1 = gen_expr(g0, env, e);
        gen_expr_kept(origin, g0, env, e);
        let (g2, t) = g1.temp();
        let g3 = g2.p("    mov [rbp"@).n(t as int).p("], rax\n"@);
        (g3, slots.push(t))
    }
};
}

pub(crate) proof fn raw_slots_of_kept(origin: Asm, g: Asm, env: FnEnv, s: Seq<ExprView>, k: nat)
    requires
        kept(origin, g),
    ensures
        kept(origin, raw_slots_of(g, env, s, k).0),
    decreases s, 9nat, k,
{
    broadcast use ops;
    let r = {
    if k == 0 || k > s.len() {
        (g, Seq::empty())
    } else {
        let (g0, slots) = raw_slots_of(g, env, s, (k - 1) as nat);
        raw_slots_of_kept(origin, g, env, s, (k - 1) as nat);
        let i = k - 1;
        let e = s[i];
        let g1 = eval_raw(g0, env, e);
        eval_raw_kept(origin, g0, env, e);
        let (g2, t) = g1.temp();
        let g3 = g2.p("    mov [rbp"@).n(t as int).p("], rax\n"@);
        (g3, slots.push(t))
    }
};
}

pub(crate) proof fn list_items_kept(origin: Asm, g: Asm, env: FnEnv, s: Seq<ExprView>, k: nat, off: i64)
    requires
        kept(origin, g),
    ensures
        kept(origin, list_items(g, env, s, k, off)),
    decreases s, 9nat, k,
{
    broadcast use ops;
    let r = {
    if k == 0 || k > s.len() {
        g
    } else {
        let g0 = list_items(g, env, s, (k - 1) as nat, off);
        list_items_kept(origin, g, env, s, (k - 1) as nat, off);
        let i = k - 1;
        let e = s[i];
        let g1 = gen_expr(g0, env, e);
        gen_expr_kept(origin, g0, env, e);
        let g2 = g1.p("    mov rdx, rax\n    mov rcx, [rbp"@).n(off as int).p("]\n"@);
        let g3 = g2.p("    call lumen_list_push\n"@);
        g3
    }
};
}

pub(crate) proof fn print_parts_kept(origin: Asm, g: Asm, env: FnEnv, s: Seq<ExprView>, k: nat)
    requires
        kept(origin, g),
    ensures
        kept(origin, print_parts(g, env, s, k)),
    decreases s, 9nat, k,
{
    broadcast use ops;
    let r = {
    if k == 0 || k > s.len() {
        g
    } else {
        let g0 = print_parts(g, env, s, (k - 1) as nat);
        print_parts_kept(origin, g, env, s, (k - 1) as nat);
        let i = k - 1;
        let e = s[i];
        let g1 = if i > 0 {
            let g2 = g0.p("    call lumen_print_space\n"@);
            g2
        } else {
            g0
        };
        let g3 = gen_expr(g1, env, e);
        gen_expr_kept(origin, g1, env, e);
        let g4 = g3.p("    mov rcx, rax\n    call lumen_print_part\n"@);
        g4
    }
};
}

pub(crate) proof fn closure_caps_kept(origin: Asm, g: Asm, env: FnEnv, s: Seq<ExprView>, k: nat, off: i64)
    requires
        kept(origin, g),
    ensures
        kept(origin, closure_caps(g, env, s, k, off)),
    decreases s, 9nat, k,
{
    broadcast use ops;
    let r = {
    if k == 0 || k > s.len() {
        g
    } else {
        let g0 = closure_caps(g, env, s, (k - 1) as nat, off);
        closure_caps_kept(origin, g, env, s, (k - 1) as nat, off);
        let i = k - 1;
        let e = s[i];
        let g1 = gen_expr(g0, env, e);
        gen_expr_kept(origin, g0, env, e);
        let g2 = g1.p("    mov r8, rax\n"@);
        let g3 = g2.p("    mov rdx, "@).u(i as nat).p("\n"@);
        let g4 = g3.p("    mov rcx, [rbp"@).n(off as int).p("]\n"@);
        let g5 = g4.p("    call lumen_closure_set_cap\n"@);
        g5
    }
};
}

pub(crate) proof fn map_entries_kept(origin: Asm, g: Asm, env: FnEnv, s: Seq<(ExprView, ExprView)>, k: nat, off: i64)
    requires
        kept(origin, g),
    ensures
        kept(origin, map_entries(g, env, s, k, off)),
    decreases s, 9nat, k,
{
    broadcast use ops;
    let r = {
    if k == 0 || k > s.len() {
        g
    } else {
        let g0 = map_entries(g, env, s, (k - 1) as nat, off);
        map_entries_kept(origin, g, env, s, (k - 1) as nat, off);
        let i = k - 1;
        let (a, b) = s[i];
        let g1 = gen_expr(g0, env, a);
        gen_expr_kept(origin, g0, env, a);
        let (g2, koff) = g1.temp();
        let g3 = g2.p("    mov [rbp"@).n(koff as int).p("], rax\n"@);
        let g4 = gen_expr(g3, env, b);
        gen_expr_kept(origin, g3, env, b);
        let g5 = g4.p("    mov r8, rax\n"@);
        let g6 = g5.p("    mov rdx, [rbp"@).n(koff as int).p("]\n"@);
        let g7 = g6.p("    mov rcx, [rbp"@).n(off as int).p("]\n"@);
        let g8 = g7.p("    call lumen_map_set\n"@);
        g8
    }
};
}

pub(crate) proof fn fstr_parts_kept(origin: Asm, g: Asm, env: FnEnv, s: Seq<FStrPartView>, k: nat, acc: i64)
    requires
        kept(origin, g),
    ensures
        kept(origin, fstr_parts(g, env, s, k, acc)),
    decreases s, 9nat, k,
{
    broadcast use ops;
    let r = {
    if k == 0 || k > s.len() {
        g
    } else {
        let g0 = fstr_parts(g, env, s, (k - 1) as nat, acc);
        fstr_parts_kept(origin, g, env, s, (k - 1) as nat, acc);
        let i = k - 1;
        let part = s[i];
        let g1 = match part {
            FStrPartView::Lit(l) => {
                let (g2, lbl) = g0.add_string(l);
                let g3 = g2.p("    lea rcx, [rip + "@).p(lbl).p("]\n"@);
                let g4 = g3.p("    call lumen_str_new\n"@);
                g4
            },
            FStrPartView::Expr(x) => {
                let g5 = gen_expr(g0, env, x);
                gen_expr_kept(origin, g0, env, x);
                let g6 = g5.p("    mov rcx, rax\n    call lumen_to_str\n"@);
                g6
            },
        };
        let g7 = g1.p("    mov rdx, rax\n"@);
        let g8 = g7.p("    mov rcx, [rbp"@).n(acc as int).p("]\n"@);
        let g9 = g8.p("    call lumen_str_concat\n"@);
        let g10 = g9.p("    mov [rbp"@).n(acc as int).p("], rax\n"@);
        g10
    }
};
}

pub(crate) proof fn set_fields_kept(origin: Asm, g: Asm, env: FnEnv, s: Seq<(Seq<char>, ExprView)>, k: nat, soff: i64)
    requires
        kept(origin, g),
    ensures
        kept(origin, set_fields(g, env, s, k, soff)),
    decreases s, 9nat, k,
{
    broadcast use ops;
    let r = {
    if k == 0 || k > s.len() {
        g
    } else {
        let g0 = set_fields(g, env, s, (k - 1) as nat, soff);
        set_fields_kept(origin, g, env, s, (k - 1) as nat, soff);
        let i = k - 1;
        let (name, e) = s[i];
        let g1 = gen_expr(g0, env, e);
        gen_expr_kept(origin, g0, env, e);
        let (g2, v) = g1.temp();
        let g3 = g2.p("    mov [rbp"@).n(v as int).p("], rax\n"@);
        let (g4, fl) = g3.add_string(name);
        let g5 = g4.p("    mov rcx, [rbp"@).n(soff as int).p("]\n"@);
        let g6 = g5.p("    lea rdx, [rip + "@).p(fl).p("]\n"@);
        let g7 = g6.p("    mov r8, [rbp"@).n(v as int).p("]\n"@);
        let g8 = g7.p("    call lumen_struct_set\n"@);
        g8
    }
};
}

pub(crate) proof fn set_positional_kept(origin: Asm, g: Asm, env: FnEnv, s: Seq<ExprView>, k: nat, soff: i64, fields: Seq<FieldView>)
    requires
        kept(origin, g),
    ensures
        kept(origin, set_positional(g, env, s, k, soff, fields)),
    decreases s, 9nat, k,
{
    broadcast use ops;
    let r = {
    if k == 0 || k > s.len() {
        g
    } else {
        let g0 = set_positional(g, env, s, (k - 1) as nat, soff, fields);
        set_positional_kept(origin, g, env, s, (k - 1) as nat, soff, fields);
        let i = k - 1;
        let e = s[i];
        let g1 = gen_expr(g0, env, e);
        gen_expr_kept(origin, g0, env, e);
        let (g2, v) = g1.temp();
        let g3 = g2.p("    mov [rbp"@).n(v as int).p("], rax\n"@);
        let fname = field_name(fields, i as int);
        let (g4, fl) = g3.add_string(fname);
        let g5 = g4.p("    mov rcx, [rbp"@).n(soff as int).p("]\n"@);
        let g6 = g5.p("    lea rdx, [rip + "@).p(fl).p("]\n"@);
        let g7 = g6.p("    mov r8, [rbp"@).n(v as int).p("]\n"@);
        let g8 = g7.p("    call lumen_struct_set\n"@);
        g8
    }
};
}

pub(crate) proof fn ffi_slots_kept(origin: Asm, g: Asm, env: FnEnv, s: Seq<ExprView>, k: nat, params: Seq<ParamView>)
    requires
        kept(origin, g),
    ensures
        kept(origin, ffi_slots(g, env, s, k, params).0),
    decreases s, 9nat, k,
{
    broadcast use ops;
    let r = {
    if k == 0 || k > s.len() {
        (g, Seq::empty())
    } else {
        let (g0, slots) = ffi_slots(g, env, s, (k - 1) as nat, params);
        ffi_slots_kept(origin, g, env, s, (k - 1) as nat, params);
        let i = k - 1;
        let e = s[i];
        let g1 = gen_expr(g0, env, e);
        gen_expr_kept(origin, g0, env, e);
        let g2 = if ffi_float(params, i as int) {
            let g3 = g1.p("    mov rcx, rax\n    call lumen_ffi_argdouble\n"@);
            g3
        } else {
            let g4 = g1.p("    mov rcx, rax\n    call lumen_ffi_argint\n"@);
            g4
        };
        let (g5, t) = g2.temp();
        let g6 = g5.p("    mov [rbp"@).n(t as int).p("], rax\n"@);
        (g6, slots.push(t))
    }
};
}

pub(crate) proof fn int_operands_kept(origin: Asm, g: Asm, env: FnEnv, e: ExprView)
    requires
        kept(origin, g),
    ensures
        kept(origin, int_operands(g, env, e)),
    decreases e, 1nat, 0nat,
{
    broadcast use ops;
    let r = {
    let g1 = match e {
        ExprView::Binary { op: _, lhs, rhs } => {
            let l = raw_operand(g, env, *lhs);
            let r = raw_operand(g, env, *rhs);
            let g2 = match r {
                Some(rr) => {
                    let g3 = match l {
                        Some(ll) => {
                            let g4 = g.p("    mov r8, "@).p(ll).p("\n"@);
                            let g5 = g4.p("    mov r9, "@).p(rr).p("\n"@);
                            g5
                        },
                        None => {
                            let g6 = eval_raw(g, env, *lhs);
                            eval_raw_kept(origin, g, env, *lhs);
                            let g7 = g6.p("    mov r8, rax\n"@);
                            let g8 = g7.p("    mov r9, "@).p(rr).p("\n"@);
                            g8
                        },
                    };
                    g3
                },
                None => {
                    let g9 = match l {
                        Some(ll) => {
                            let g10 = eval_raw(g, env, *rhs);
                            eval_raw_kept(origin, g, env, *rhs);
                            let g11 = g10.p("    mov r9, rax\n"@);
                            let g12 = g11.p("    mov r8, "@).p(ll).p("\n"@);
                            g12
                        },
                        None => {
                            let g13 = eval_raw(g, env, *lhs);
                            eval_raw_kept(origin, g, env, *lhs);
                            let (g14, lt) = g13.temp();
                            let g15 = g14.p("    mov [rbp"@).n(lt as int).p("], rax\n"@);
                            let g16 = eval_raw(g15, env, *rhs);
                            eval_raw_kept(origin, g15, env, *rhs);
                            let g17 = g16.p("    mov r9, rax\n"@);
                            let g18 = g17.p("    mov r8, [rbp"@).n(lt as int).p("]\n"@);
                            g18
                        },
                    };
                    g9
                },
            };
            g2
        },
        _ => {
            g
        },
    };
    g1
};
}

pub(crate) proof fn cond_false_kept(origin: Asm, g: Asm, env: FnEnv, e: ExprView, target: Seq<char>)
    requires
        kept(origin, g),
    ensures
        kept(origin, cond_false(g, env, e, target)),
    decreases e, 6nat, 0nat,
{
    broadcast use ops;
    let r = {
    let g1 = if is_int_comparison(env, e) {
        let g2 = int_operands(g, env, e);
        int_operands_kept(origin, g, env, e);
        let g3 = g2.p("    cmp r8, r9\n"@);
        let jcc = jcc_false(e->Binary_op);
        let g4 = g3.p("    "@).p(jcc).p(" "@).p(target).p("\n"@);
        g4
    } else {
        let g5 = gen_expr(g, env, e);
        gen_expr_kept(origin, g, env, e);
        let g6 = if gives_bool(e) {
            let g7 = g5.p("    test al, 1\n"@);
            let g8 = g7.p("    jz "@).p(target).p("\n"@);
            g8
        } else {
            let g9 = g5.p("    mov rcx, rax\n    call lumen_truthy\n"@);
            let g10 = g9.p("    cmp rax, 0\n"@);
            let g11 = g10.p("    je "@).p(target).p("\n"@);
            g11
        };
        g6
    };
    g1
};
}

pub(crate) proof fn expr_lambda_kept(origin: Asm, g: Asm, env: FnEnv, e: ExprView)
    requires
        kept(origin, g),
    ensures
        kept(origin, expr_lambda(g, env, e)),
    decreases e, 2nat, 0nat,
{
    broadcast use ops;
}

pub(crate) proof fn expr_closure_kept(origin: Asm, g: Asm, env: FnEnv, e: ExprView)
    requires
        kept(origin, g),
    ensures
        kept(origin, expr_closure(g, env, e)),
    decreases e, 2nat, 0nat,
{
    broadcast use ops;
    let r = {
    let g1 = match e {
        ExprView::Closure { fn_name, captures } => {
            let g2 = match arity_of(env, fn_name) {
                Some(total) => {
                    let g3 = if total < captures.len() {
                        let g4 = g.fail("internal: closure captures more than its parameters"@);
                        g4
                    } else {
                        let ncap = captures.len();
                        let user = total - ncap;
                        let g5 = g.p("    lea rcx, [rip + lm_"@).p(fn_name).p("]\n"@);
                        let g6 = g5.p("    mov rdx, "@).u(user as nat).p("\n"@);
                        let g7 = g6.p("    mov r8, "@).u(ncap as nat).p("\n"@);
                        let g8 = g7.p("    call lumen_closure_new\n"@);
                        let (g9, coff) = g8.temp();
                        let g10 = g9.p("    mov [rbp"@).n(coff as int).p("], rax\n"@);
                        let g11 = closure_caps(g10, env, captures, captures.len(), coff);
                        closure_caps_kept(origin, g10, env, captures, captures.len(), coff);
                        let g12 = g11.p("    mov rax, [rbp"@).n(coff as int).p("]\n"@);
                        g12
                    };
                    g3
                },
                None => {
                    let m = "internal: unknown closure '"@ + fn_name + "'"@;
                    let g13 = g.fail_here(m);
                    g13
                },
            };
            g2
        },
        _ => {
            g
        },
    };
    g1
};
}

pub(crate) proof fn expr_int_kept(origin: Asm, g: Asm, env: FnEnv, e: ExprView)
    requires
        kept(origin, g),
    ensures
        kept(origin, expr_int(g, env, e)),
    decreases e, 2nat, 0nat,
{
    broadcast use ops;
}

pub(crate) proof fn expr_float_kept(origin: Asm, g: Asm, env: FnEnv, e: ExprView)
    requires
        kept(origin, g),
    ensures
        kept(origin, expr_float(g, env, e)),
    decreases e, 2nat, 0nat,
{
    broadcast use ops;
}

pub(crate) proof fn expr_bool_kept(origin: Asm, g: Asm, env: FnEnv, e: ExprView)
    requires
        kept(origin, g),
    ensures
        kept(origin, expr_bool(g, env, e)),
    decreases e, 2nat, 0nat,
{
    broadcast use ops;
}

pub(crate) proof fn expr_nil_kept(origin: Asm, g: Asm, env: FnEnv, e: ExprView)
    requires
        kept(origin, g),
    ensures
        kept(origin, expr_nil(g, env, e)),
    decreases e, 2nat, 0nat,
{
    broadcast use ops;
}

pub(crate) proof fn expr_str_kept(origin: Asm, g: Asm, env: FnEnv, e: ExprView)
    requires
        kept(origin, g),
    ensures
        kept(origin, expr_str(g, env, e)),
    decreases e, 2nat, 0nat,
{
    broadcast use ops;
}

pub(crate) proof fn expr_f_str_kept(origin: Asm, g: Asm, env: FnEnv, e: ExprView)
    requires
        kept(origin, g),
    ensures
        kept(origin, expr_f_str(g, env, e)),
    decreases e, 2nat, 0nat,
{
    broadcast use ops;
    let r = {
    let g1 = match e {
        ExprView::FStr(ps) => {
            let g2 = g.p("    lea rcx, [rip + .empty_str]\n    call lumen_str_new\n"@);
            let g3 = g2.want_empty_str();
            let (g4, acc) = g3.temp();
            let g5 = g4.p("    mov [rbp"@).n(acc as int).p("], rax\n"@);
            let g6 = fstr_parts(g5, env, ps, ps.len(), acc);
            fstr_parts_kept(origin, g5, env, ps, ps.len(), acc);
            let g7 = g6.p("    mov rax, [rbp"@).n(acc as int).p("]\n"@);
            g7
        },
        _ => {
            g
        },
    };
    g1
};
}

pub(crate) proof fn expr_ident_kept(origin: Asm, g: Asm, env: FnEnv, e: ExprView)
    requires
        kept(origin, g),
    ensures
        kept(origin, expr_ident(g, env, e)),
    decreases e, 2nat, 0nat,
{
    broadcast use ops;
    let r = {
    let g1 = match e {
        ExprView::Ident(n) => {
            let g2 = load_ident(g, env, n);
            load_ident_kept(origin, g, env, n);
            g2
        },
        _ => {
            g
        },
    };
    g1
};
}

pub(crate) proof fn expr_self_expr_kept(origin: Asm, g: Asm, env: FnEnv, e: ExprView)
    requires
        kept(origin, g),
    ensures
        kept(origin, expr_self_expr(g, env, e)),
    decreases e, 2nat, 0nat,
{
    broadcast use ops;
}

pub(crate) proof fn expr_list_kept(origin: Asm, g: Asm, env: FnEnv, e: ExprView)
    requires
        kept(origin, g),
    ensures
        kept(origin, expr_list(g, env, e)),
    decreases e, 2nat, 0nat,
{
    broadcast use ops;
    let r = {
    let g1 = match e {
        ExprView::List(xs) => {
            let n = xs.len();
            let g2 = g.p("    mov rcx, "@).u(n as nat).p("\n"@);
            let g3 = g2.p("    call lumen_list_new\n"@);
            let (g4, loff) = g3.temp();
            let g5 = g4.p("    mov [rbp"@).n(loff as int).p("], rax\n"@);
            let g6 = list_items(g5, env, xs, xs.len(), loff);
            list_items_kept(origin, g5, env, xs, xs.len(), loff);
            let g7 = g6.p("    mov rax, [rbp"@).n(loff as int).p("]\n"@);
            g7
        },
        _ => {
            g
        },
    };
    g1
};
}

pub(crate) proof fn expr_map_lit_kept(origin: Asm, g: Asm, env: FnEnv, e: ExprView)
    requires
        kept(origin, g),
    ensures
        kept(origin, expr_map_lit(g, env, e)),
    decreases e, 2nat, 0nat,
{
    broadcast use ops;
    let r = {
    let g1 = match e {
        ExprView::MapLit(kvs) => {
            let g2 = g.p("    call lumen_map_new\n"@);
            let (g3, moff) = g2.temp();
            let g4 = g3.p("    mov [rbp"@).n(moff as int).p("], rax\n"@);
            let g5 = map_entries(g4, env, kvs, kvs.len(), moff);
            map_entries_kept(origin, g4, env, kvs, kvs.len(), moff);
            let g6 = g5.p("    mov rax, [rbp"@).n(moff as int).p("]\n"@);
            g6
        },
        _ => {
            g
        },
    };
    g1
};
}

pub(crate) proof fn expr_range_kept(origin: Asm, g: Asm, env: FnEnv, e: ExprView)
    requires
        kept(origin, g),
    ensures
        kept(origin, expr_range(g, env, e)),
    decreases e, 2nat, 0nat,
{
    broadcast use ops;
    let r = {
    let g1 = match e {
        ExprView::Range { lo, hi } => {
            let g2 = g.p("    mov rcx, 0\n    call lumen_list_new\n"@);
            let (g3, loff) = g2.temp();
            let g4 = g3.p("    mov [rbp"@).n(loff as int).p("], rax\n"@);
            let g5 = gen_expr(g4, env, *lo);
            gen_expr_kept(origin, g4, env, *lo);
            let g6 = g5.p("    mov rcx, rax\n    call lumen_to_int\n"@);
            let (g7, ioff) = g6.temp();
            let g8 = g7.p("    mov [rbp"@).n(ioff as int).p("], rax\n"@);
            let g9 = gen_expr(g8, env, *hi);
            gen_expr_kept(origin, g8, env, *hi);
            let g10 = g9.p("    mov rcx, rax\n    call lumen_to_int\n"@);
            let (g11, hoff) = g10.temp();
            let g12 = g11.p("    mov [rbp"@).n(hoff as int).p("], rax\n"@);
            let g13 = range_loop(g12, env, loff, ioff, hoff);
            range_loop_kept(origin, g12, env, loff, ioff, hoff);
            g13
        },
        _ => {
            g
        },
    };
    g1
};
}

pub(crate) proof fn expr_if_else_kept(origin: Asm, g: Asm, env: FnEnv, e: ExprView)
    requires
        kept(origin, g),
    ensures
        kept(origin, expr_if_else(g, env, e)),
    decreases e, 2nat, 0nat,
{
    broadcast use ops;
    let r = {
    let g1 = match e {
        ExprView::IfElse { cond, then, els } => {
            let (g2, else_lbl) = g.new_label("cond_else"@);
            let (g3, end_lbl) = g2.new_label("cond_end"@);
            let g4 = gen_expr(g3, env, *cond);
            gen_expr_kept(origin, g3, env, *cond);
            let g5 = g4.p("    mov rcx, rax\n    call lumen_truthy\n    cmp rax, 0\n"@);
            let g6 = g5.p("    je "@).p(else_lbl).p("\n"@);
            let g7 = gen_expr(g6, env, *then);
            gen_expr_kept(origin, g6, env, *then);
            let g8 = g7.p("    jmp "@).p(end_lbl).p("\n"@);
            let g9 = g8.p(else_lbl).p(":\n"@);
            let g10 = gen_expr(g9, env, *els);
            gen_expr_kept(origin, g9, env, *els);
            let g11 = g10.p(end_lbl).p(":\n"@);
            g11
        },
        _ => {
            g
        },
    };
    g1
};
}

pub(crate) proof fn expr_index_kept(origin: Asm, g: Asm, env: FnEnv, e: ExprView)
    requires
        kept(origin, g),
    ensures
        kept(origin, expr_index(g, env, e)),
    decreases e, 2nat, 0nat,
{
    broadcast use ops;
    let r = {
    let g1 = match e {
        ExprView::Index { obj, index } => {
            let g2 = gen_expr(g, env, *obj);
            gen_expr_kept(origin, g, env, *obj);
            let (g3, o) = g2.temp();
            let g4 = g3.p("    mov [rbp"@).n(o as int).p("], rax\n"@);
            let g5 = gen_expr(g4, env, *index);
            gen_expr_kept(origin, g4, env, *index);
            let g6 = g5.p("    mov rdx, rax\n"@);
            let g7 = g6.p("    mov rcx, [rbp"@).n(o as int).p("]\n"@);
            let g8 = g7.p("    call lumen_index_get\n"@);
            g8
        },
        _ => {
            g
        },
    };
    g1
};
}

pub(crate) proof fn expr_slice_kept(origin: Asm, g: Asm, env: FnEnv, e: ExprView)
    requires
        kept(origin, g),
    ensures
        kept(origin, expr_slice(g, env, e)),
    decreases e, 2nat, 0nat,
{
    broadcast use ops;
    let r = {
    let g1 = match e {
        ExprView::Slice { obj, lo, hi } => {
            let g2 = gen_expr(g, env, *obj);
            gen_expr_kept(origin, g, env, *obj);
            let (g3, o) = g2.temp();
            let g4 = g3.p("    mov [rbp"@).n(o as int).p("], rax\n"@);
            let g5 = gen_opt(g4, env, lo);
            gen_opt_kept(origin, g4, env, lo);
            let (g6, lt) = g5.temp();
            let g7 = g6.p("    mov [rbp"@).n(lt as int).p("], rax\n"@);
            let g8 = gen_opt(g7, env, hi);
            gen_opt_kept(origin, g7, env, hi);
            let (g9, ht) = g8.temp();
            let g10 = g9.p("    mov [rbp"@).n(ht as int).p("], rax\n"@);
            let g11 = g10.p("    mov rcx, [rbp"@).n(o as int).p("]\n"@);
            let g12 = g11.p("    mov rdx, [rbp"@).n(lt as int).p("]\n"@);
            let g13 = g12.p("    mov r8, [rbp"@).n(ht as int).p("]\n"@);
            let g14 = g13.p("    call lumen_slice\n"@);
            g14
        },
        _ => {
            g
        },
    };
    g1
};
}

pub(crate) proof fn expr_field_kept(origin: Asm, g: Asm, env: FnEnv, e: ExprView)
    requires
        kept(origin, g),
    ensures
        kept(origin, expr_field(g, env, e)),
    decreases e, 2nat, 0nat,
{
    broadcast use ops;
    let r = {
    let g1 = match e {
        ExprView::Field { obj, name } => {
            let g2 = gen_expr(g, env, *obj);
            gen_expr_kept(origin, g, env, *obj);
            let (g3, lbl) = g2.add_string(name);
            let g4 = g3.p("    mov rcx, rax\n"@);
            let g5 = g4.p("    lea rdx, [rip + "@).p(lbl).p("]\n"@);
            let g6 = g5.p("    call lumen_struct_get\n"@);
            g6
        },
        _ => {
            g
        },
    };
    g1
};
}

pub(crate) proof fn expr_unary_kept(origin: Asm, g: Asm, env: FnEnv, e: ExprView)
    requires
        kept(origin, g),
    ensures
        kept(origin, expr_unary(g, env, e)),
    decreases e, 2nat, 0nat,
{
    broadcast use ops;
    let r = {
    let g1 = match e {
        ExprView::Unary { op, expr } => {
            let g2 = if op == UnOp::Neg && known_float(env, *expr) {
                let g3 = float_neg(g, env, e);
                float_neg_kept(origin, g, env, e);
                let g4 = g3.p("    movq rax, xmm0\n"@);
                g4
            } else {
                let g5 = gen_expr(g, env, *expr);
                gen_expr_kept(origin, g, env, *expr);
                let g6 = if op == UnOp::Neg {
                    let g7 = g5.p("    mov rcx, rax\n    call lumen_neg\n"@);
                    g7
                } else {
                    let g8 = g5.p("    mov rcx, rax\n    call lumen_truthy\n"@);
                    let g9 = g8.p(
                        "    cmp rax, 0\n    sete cl\n    movzx rcx, cl\n    call lumen_bool\n"@,
                    );
                    g9
                };
                g6
            };
            g2
        },
        _ => {
            g
        },
    };
    g1
};
}

pub(crate) proof fn gen_expr_kept(origin: Asm, g: Asm, env: FnEnv, e: ExprView)
    requires
        kept(origin, g),
    ensures
        kept(origin, gen_expr(g, env, e)),
    decreases e, 3nat, 0nat,
{
    broadcast use ops;
    let r = {
    let g1 = match e {
        ExprView::Lambda { .. } => {
            let g2 = expr_lambda(g, env, e);
            expr_lambda_kept(origin, g, env, e);
            g2
        },
        ExprView::Closure { .. } => {
            let g3 = expr_closure(g, env, e);
            expr_closure_kept(origin, g, env, e);
            g3
        },
        ExprView::Int(_) => {
            let g4 = expr_int(g, env, e);
            expr_int_kept(origin, g, env, e);
            g4
        },
        ExprView::Float(_) => {
            let g5 = expr_float(g, env, e);
            expr_float_kept(origin, g, env, e);
            g5
        },
        ExprView::Bool(_) => {
            let g6 = expr_bool(g, env, e);
            expr_bool_kept(origin, g, env, e);
            g6
        },
        ExprView::Nil => {
            let g7 = expr_nil(g, env, e);
            expr_nil_kept(origin, g, env, e);
            g7
        },
        ExprView::Str(_) => {
            let g8 = expr_str(g, env, e);
            expr_str_kept(origin, g, env, e);
            g8
        },
        ExprView::FStr(_) => {
            let g9 = expr_f_str(g, env, e);
            expr_f_str_kept(origin, g, env, e);
            g9
        },
        ExprView::Ident(_) => {
            let g10 = expr_ident(g, env, e);
            expr_ident_kept(origin, g, env, e);
            g10
        },
        ExprView::SelfExpr => {
            let g11 = expr_self_expr(g, env, e);
            expr_self_expr_kept(origin, g, env, e);
            g11
        },
        ExprView::List(_) => {
            let g12 = expr_list(g, env, e);
            expr_list_kept(origin, g, env, e);
            g12
        },
        ExprView::ListComp { .. } => {
            let g13 = gen_comp(g, env, e);
            gen_comp_kept(origin, g, env, e);
            g13
        },
        ExprView::MapLit(_) => {
            let g14 = expr_map_lit(g, env, e);
            expr_map_lit_kept(origin, g, env, e);
            g14
        },
        ExprView::Range { .. } => {
            let g15 = expr_range(g, env, e);
            expr_range_kept(origin, g, env, e);
            g15
        },
        ExprView::IfElse { .. } => {
            let g16 = expr_if_else(g, env, e);
            expr_if_else_kept(origin, g, env, e);
            g16
        },
        ExprView::Index { .. } => {
            let g17 = expr_index(g, env, e);
            expr_index_kept(origin, g, env, e);
            g17
        },
        ExprView::Slice { .. } => {
            let g18 = expr_slice(g, env, e);
            expr_slice_kept(origin, g, env, e);
            g18
        },
        ExprView::Field { .. } => {
            let g19 = expr_field(g, env, e);
            expr_field_kept(origin, g, env, e);
            g19
        },
        ExprView::Unary { .. } => {
            let g20 = expr_unary(g, env, e);
            expr_unary_kept(origin, g, env, e);
            g20
        },
        ExprView::Binary { .. } => {
            let g21 = gen_binary(g, env, e);
            gen_binary_kept(origin, g, env, e);
            g21
        },
        ExprView::Method { .. } => {
            let g22 = gen_method(g, env, e);
            gen_method_kept(origin, g, env, e);
            g22
        },
        ExprView::Call { .. } => {
            let g23 = gen_call(g, env, e);
            gen_call_kept(origin, g, env, e);
            g23
        },
        ExprView::NamedCall { .. } => {
            let g24 = gen_named_call(g, env, e);
            gen_named_call_kept(origin, g, env, e);
            g24
        },
    };
    g1
};
}

pub(crate) proof fn gen_opt_kept(origin: Asm, g: Asm, env: FnEnv, o: Option<Box<ExprView>>)
    requires
        kept(origin, g),
    ensures
        kept(origin, gen_opt(g, env, o)),
    decreases o, 0nat, 0nat,
{
    broadcast use ops;
    let r = {
    let g1 = match o {
        Some(x) => {
            let g2 = gen_expr(g, env, *x);
            gen_expr_kept(origin, g, env, *x);
            g2
        },
        None => {
            let g3 = g.p("    call lumen_nil\n"@);
            g3
        },
    };
    g1
};
}

pub(crate) proof fn float_neg_kept(origin: Asm, g: Asm, env: FnEnv, e: ExprView)
    requires
        kept(origin, g),
    ensures
        kept(origin, float_neg(g, env, e)),
    decreases e, 1nat, 0nat,
{
    broadcast use ops;
    let r = {
    let g1 = match e {
        ExprView::Unary { expr, .. } => {
            let g2 = eval_raw_float(g, env, *expr);
            eval_raw_float_kept(origin, g, env, *expr);
            let g3 = g2.p("    movq rax, xmm0\n"@);
            let g4 = g3.p("    mov rcx, 0x8000000000000000\n    xor rax, rcx\n"@);
            let g5 = g4.p("    movq xmm0, rax\n"@);
            g5
        },
        _ => {
            g
        },
    };
    g1
};
}

pub(crate) proof fn float_binary_kept(origin: Asm, g: Asm, env: FnEnv, e: ExprView)
    requires
        kept(origin, g),
    ensures
        kept(origin, float_binary(g, env, e)),
    decreases e, 1nat, 0nat,
{
    broadcast use ops;
    let r = {
    let g1 = match e {
        ExprView::Binary { op, lhs, rhs } => {
            let r = if op == BinOp::Mod {
                None
            } else {
                float_operand(g, env, *rhs)
            };
            let l = if op == BinOp::Mod {
                None
            } else {
                float_operand(g, env, *lhs)
            };
            let g2 = match r {
                Some(rr) => {
                    let g3 = eval_raw_float(g, env, *lhs);
                    eval_raw_float_kept(origin, g, env, *lhs);
                    let ins = float_ins(op);
                    let src = xmm_src(rr);
                    let g4 = g3.p("    "@).p(ins).p(" xmm0, "@).p(src).p("\n"@);
                    g4
                },
                None => {
                    let g5 = match l {
                        Some(ll) => {
                            let g6 = eval_raw_float(g, env, *rhs);
                            eval_raw_float_kept(origin, g, env, *rhs);
                            let ins = float_ins(op);
                            let g7 = if op == BinOp::Add || op == BinOp::Mul {
                                let src = xmm_src(ll);
                                let g8 = g6.p("    "@).p(ins).p(" xmm0, "@).p(src).p("\n"@);
                                g8
                            } else {
                                let g9 = g6.p("    movapd xmm1, xmm0\n"@);
                                let g10 = if starts_with_spec(ll, "xmm"@) {
                                    let g11 = g9.p("    movapd xmm0, "@).p(ll).p("\n"@);
                                    g11
                                } else {
                                    let g12 = g9.p("    movsd xmm0, qword ptr "@).p(ll).p("\n"@);
                                    g12
                                };
                                let g13 = g10.p("    "@).p(ins).p(" xmm0, xmm1\n"@);
                                g13
                            };
                            g7
                        },
                        None => {
                            let g14 = eval_raw_float(g, env, *lhs);
                            eval_raw_float_kept(origin, g, env, *lhs);
                            let (g15, lt) = g14.temp();
                            let g16 = g15.p("    movsd qword ptr [rbp"@).n(lt as int)
                                .p("], xmm0\n"@);
                            let g17 = eval_raw_float(g16, env, *rhs);
                            eval_raw_float_kept(origin, g16, env, *rhs);
                            let g18 = g17.p("    movapd xmm1, xmm0\n"@);
                            let g19 = g18.p("    movsd xmm0, qword ptr [rbp"@).n(lt as int)
                                .p("]\n"@);
                            let g20 = float_apply(g19, env, op);
                            float_apply_kept(origin, g19, env, op);
                            g20
                        },
                    };
                    g5
                },
            };
            g2
        },
        _ => {
            g
        },
    };
    g1
};
}

pub(crate) proof fn gen_binary_kept(origin: Asm, g: Asm, env: FnEnv, e: ExprView)
    requires
        kept(origin, g),
    ensures
        kept(origin, gen_binary(g, env, e)),
    decreases e, 2nat, 0nat,
{
    broadcast use ops;
    let r = {
    let g1 = match e {
        ExprView::Binary { op, lhs, rhs } => {
            let g2 = if is_arith(op) && known_float(env, *lhs) && known_float(env, *rhs) {
                let g3 = float_binary(g, env, e);
                float_binary_kept(origin, g, env, e);
                let g4 = g3.p("    movq rax, xmm0\n"@);
                g4
            } else {
                let g5 = if op == BinOp::And || op == BinOp::Or {
                    let (g6, lbl) = g.new_label("sc"@);
                    let g7 = gen_expr(g6, env, *lhs);
                    gen_expr_kept(origin, g6, env, *lhs);
                    let (g8, lt) = g7.temp();
                    let g9 = g8.p("    mov [rbp"@).n(lt as int).p("], rax\n"@);
                    let g10 = g9.p("    mov rcx, rax\n    call lumen_truthy\n    cmp rax, 0\n"@);
                    let g11 = if op == BinOp::And {
                        let g12 = g10.p("    je "@).p(lbl).p("\n"@);
                        g12
                    } else {
                        let g13 = g10.p("    jne "@).p(lbl).p("\n"@);
                        g13
                    };
                    let g14 = gen_expr(g11, env, *rhs);
                    gen_expr_kept(origin, g11, env, *rhs);
                    let g15 = g14.p("    jmp "@).p(lbl).p("_end\n"@);
                    let g16 = g15.p(lbl).p(":\n    mov rax, [rbp"@).n(lt as int).p("]\n"@)
                        .p(lbl).p("_end:\n"@);
                    g16
                } else {
                    let g17 = if is_fast(op) && known_int(env, *lhs) && known_int(env, *rhs) {
                        let g18 = int_operands(g, env, e);
                        int_operands_kept(origin, g, env, e);
                        let g19 = int_op(g18, env, op);
                        int_op_kept(origin, g18, env, op);
                        g19
                    } else {
                        let g20 = gen_expr(g, env, *lhs);
                        gen_expr_kept(origin, g, env, *lhs);
                        let (g21, lt) = g20.temp();
                        let g22 = g21.p("    mov [rbp"@).n(lt as int).p("], rax\n"@);
                        let g23 = gen_expr(g22, env, *rhs);
                        gen_expr_kept(origin, g22, env, *rhs);
                        let g24 = g23.p("    mov rdx, rax\n"@);
                        let g25 = g24.p("    mov rcx, [rbp"@).n(lt as int).p("]\n"@);
                        let f = runtime_op(op);
                        let g26 = if is_fast(op) {
                            let (g27, slow) = g25.new_label("bin_slow"@);
                            let (g28, done) = g27.new_label("bin_done"@);
                            let g29 = g28.p(
                                "    mov r8, rcx\n    shr r8, 48\n    cmp r8, 0x7FF9\n"@,
                            );
                            let g30 = g29.p("    jne "@).p(slow).p("\n"@);
                            let g31 = g30.p(
                                "    mov r9, rdx\n    shr r9, 48\n    cmp r9, 0x7FF9\n"@,
                            );
                            let g32 = g31.p("    jne "@).p(slow).p("\n"@);
                            let g33 = g32.p("    mov r8, rcx\n    shl r8, 16\n    sar r8, 16\n"@);
                            let g34 = g33.p("    mov r9, rdx\n    shl r9, 16\n    sar r9, 16\n"@);
                            let g35 = int_op(g34, env, op);
                            int_op_kept(origin, g34, env, op);
                            let g36 = g35.p("    jmp "@).p(done).p("\n"@);
                            let g37 = g36.p(slow).p(":\n"@);
                            let g38 = g37.p("    mov rcx, [rbp"@).n(lt as int).p("]\n"@);
                            let g39 = g38.p("    call "@).p(f).p("\n"@);
                            let g40 = g39.p(done).p(":\n"@);
                            g40
                        } else {
                            let g41 = g25.p("    call "@).p(f).p("\n"@);
                            g41
                        };
                        g26
                    };
                    g17
                };
                g5
            };
            g2
        },
        _ => {
            g
        },
    };
    g1
};
}

pub(crate) proof fn raw_binary_kept(origin: Asm, g: Asm, env: FnEnv, e: ExprView)
    requires
        kept(origin, g),
    ensures
        kept(origin, raw_binary(g, env, e)),
    decreases e, 1nat, 0nat,
{
    broadcast use ops;
    let r = {
    let g1 = match e {
        ExprView::Binary { op, lhs, rhs } => {
            let div = op == BinOp::Div || op == BinOp::Mod;
            let d = const_of(*rhs);
            let g2 = if div && d != 0 {
                let g3 = eval_raw(g, env, *lhs);
                eval_raw_kept(origin, g, env, *lhs);
                let g4 = if op == BinOp::Mod {
                    let g5 = if mask_bits(d) is Some {
                        let k = mask_bits(d)->Some_0;
                        let c = 64 - k;
                        let mask = (d - 1) as i64;
                        let g6 = g3.p("    mov rcx, rax\n"@);
                        let g7 = g6.p("    sar rcx, 63\n"@);
                        let g8 = g7.p("    shr rcx, "@).u(c as nat).p("\n"@);
                        let g9 = g8.p("    add rax, rcx\n"@);
                        let g10 = g9.p("    and rax, "@).n(mask as int).p("\n"@);
                        let g11 = g10.p("    sub rax, rcx\n"@);
                        g11
                    } else {
                        let (g12, nt) = g3.temp();
                        let g13 = g12.p("    mov [rbp"@).n(nt as int).p("], rax\n"@);
                        let g14 = const_div(g13, env, d);
                        const_div_kept(origin, g13, env, d);
                        let g15 = g14.p("    movabs rcx, "@).n(d as int).p("\n"@);
                        let g16 = g15.p("    imul rax, rcx\n"@);
                        let g17 = g16.p("    mov rcx, rax\n"@);
                        let g18 = g17.p("    mov rax, [rbp"@).n(nt as int).p("]\n"@);
                        let g19 = g18.p("    sub rax, rcx\n"@);
                        g19
                    };
                    g5
                } else {
                    let g20 = const_div(g3, env, d);
                    const_div_kept(origin, g3, env, d);
                    g20
                };
                g4
            } else {
                let r = if div {
                    None
                } else {
                    raw_operand(g, env, *rhs)
                };
                let l = if div {
                    None
                } else {
                    raw_operand(g, env, *lhs)
                };
                let g21 = match r {
                    Some(rr) => {
                        let g22 = eval_raw(g, env, *lhs);
                        eval_raw_kept(origin, g, env, *lhs);
                        let g23 = match imm32(*rhs) {
                            Some(n) => {
                                let g24 = if op == BinOp::Add {
                                    let g25 = g22.p("    add rax, "@).n(n as int).p("\n"@);
                                    g25
                                } else {
                                    let g26 = if op == BinOp::Sub {
                                        let g27 = g22.p("    sub rax, "@).n(n as int).p("\n"@);
                                        g27
                                    } else {
                                        let g28 = g22.p("    imul rax, rax, "@).n(n as int)
                                            .p("\n"@);
                                        g28
                                    };
                                    g26
                                };
                                g24
                            },
                            None => {
                                let g29 = g22.p("    mov rcx, "@).p(rr).p("\n"@);
                                let g30 = if op == BinOp::Add {
                                    let g31 = g29.p("    add rax, rcx\n"@);
                                    g31
                                } else {
                                    let g32 = if op == BinOp::Sub {
                                        let g33 = g29.p("    sub rax, rcx\n"@);
                                        g33
                                    } else {
                                        let g34 = g29.p("    imul rax, rcx\n"@);
                                        g34
                                    };
                                    g32
                                };
                                g30
                            },
                        };
                        g23
                    },
                    None => {
                        let g35 = match l {
                            Some(ll) => {
                                let g36 = eval_raw(g, env, *rhs);
                                eval_raw_kept(origin, g, env, *rhs);
                                let g37 = if op == BinOp::Sub {
                                    let g38 = g36.p("    mov rcx, rax\n"@);
                                    let g39 = g38.p("    mov rax, "@).p(ll).p("\n"@);
                                    let g40 = g39.p("    sub rax, rcx\n"@);
                                    g40
                                } else {
                                    let g41 = g36.p("    mov rcx, "@).p(ll).p("\n"@);
                                    let g42 = if op == BinOp::Add {
                                        let g43 = g41.p("    add rax, rcx\n"@);
                                        g43
                                    } else {
                                        let g44 = g41.p("    imul rax, rcx\n"@);
                                        g44
                                    };
                                    g42
                                };
                                g37
                            },
                            None => {
                                let g45 = eval_raw(g, env, *lhs);
                                eval_raw_kept(origin, g, env, *lhs);
                                let (g46, lt) = g45.temp();
                                let g47 = g46.p("    mov [rbp"@).n(lt as int).p("], rax\n"@);
                                let g48 = eval_raw(g47, env, *rhs);
                                eval_raw_kept(origin, g47, env, *rhs);
                                let g49 = if div {
                                    let g50 = var_div(g48, env, lt, op == BinOp::Mod);
                                    var_div_kept(origin, g48, env, lt, op == BinOp::Mod);
                                    g50
                                } else {
                                    let g51 = if op == BinOp::Sub {
                                        let g52 = g48.p("    mov rcx, rax\n"@);
                                        let g53 = g52.p("    mov rax, [rbp"@).n(lt as int)
                                            .p("]\n"@);
                                        let g54 = g53.p("    sub rax, rcx\n"@);
                                        g54
                                    } else {
                                        let g55 = g48.p("    mov rcx, [rbp"@).n(lt as int)
                                            .p("]\n"@);
                                        let g56 = if op == BinOp::Add {
                                            let g57 = g55.p("    add rax, rcx\n"@);
                                            g57
                                        } else {
                                            let g58 = g55.p("    imul rax, rcx\n"@);
                                            g58
                                        };
                                        g56
                                    };
                                    g51
                                };
                                g49
                            },
                        };
                        g35
                    },
                };
                g21
            };
            g2
        },
        _ => {
            g
        },
    };
    g1
};
}

pub(crate) proof fn raw_list_index_kept(origin: Asm, g: Asm, env: FnEnv, e: ExprView)
    requires
        kept(origin, g),
    ensures
        kept(origin, raw_list_index(g, env, e)),
    decreases e, 1nat, 0nat,
{
    broadcast use ops;
    let r = {
    let g1 = match e {
        ExprView::Index { obj, index } => {
            let g2 = gen_expr(g, env, *obj);
            gen_expr_kept(origin, g, env, *obj);
            let (g3, objt) = g2.temp();
            let g4 = g3.p("    mov [rbp"@).n(objt as int).p("], rax\n"@);
            let g5 = eval_raw(g4, env, *index);
            eval_raw_kept(origin, g4, env, *index);
            let (g6, idxt) = g5.temp();
            let g7 = g6.p("    mov [rbp"@).n(idxt as int).p("], rax\n"@);
            let (g8, slow) = g7.new_label("ilidx_slow"@);
            let (g9, done) = g8.new_label("ilidx_done"@);
            let g10 = list_addr(g9, env, objt, idxt, slow);
            list_addr_kept(origin, g9, env, objt, idxt, slow);
            let g11 = g10.p("    mov rax, qword ptr [r8+r9*8]\n"@);
            let g12 = g11.unbox_int();
            let g13 = g12.p("    jmp "@).p(done).p("\n"@);
            let g14 = g13.p(slow).p(":\n"@);
            let g15 = slow_index(g14, env, objt, idxt);
            slow_index_kept(origin, g14, env, objt, idxt);
            let g16 = g15.unbox_int();
            let g17 = g16.p(done).p(":\n"@);
            g17
        },
        _ => {
            g
        },
    };
    g1
};
}

pub(crate) proof fn float_list_index_kept(origin: Asm, g: Asm, env: FnEnv, e: ExprView)
    requires
        kept(origin, g),
    ensures
        kept(origin, float_list_index(g, env, e)),
    decreases e, 1nat, 0nat,
{
    broadcast use ops;
    let r = {
    let g1 = match e {
        ExprView::Index { obj, index } => {
            let g2 = gen_expr(g, env, *obj);
            gen_expr_kept(origin, g, env, *obj);
            let (g3, objt) = g2.temp();
            let g4 = g3.p("    mov [rbp"@).n(objt as int).p("], rax\n"@);
            let g5 = eval_raw(g4, env, *index);
            eval_raw_kept(origin, g4, env, *index);
            let (g6, idxt) = g5.temp();
            let g7 = g6.p("    mov [rbp"@).n(idxt as int).p("], rax\n"@);
            let (g8, slow) = g7.new_label("flidx_slow"@);
            let (g9, done) = g8.new_label("flidx_done"@);
            let g10 = list_addr(g9, env, objt, idxt, slow);
            list_addr_kept(origin, g9, env, objt, idxt, slow);
            let g11 = g10.p("    movsd xmm0, qword ptr [r8+r9*8]\n"@);
            let g12 = g11.p("    jmp "@).p(done).p("\n"@);
            let g13 = g12.p(slow).p(":\n"@);
            let g14 = slow_index(g13, env, objt, idxt);
            slow_index_kept(origin, g13, env, objt, idxt);
            let g15 = g14.p("    movq xmm0, rax\n"@);
            let g16 = g15.p(done).p(":\n"@);
            g16
        },
        _ => {
            g
        },
    };
    g1
};
}

pub(crate) proof fn raw_power_kept(origin: Asm, g: Asm, env: FnEnv, e: ExprView)
    requires
        kept(origin, g),
    ensures
        kept(origin, raw_power(g, env, e)),
    decreases e, 1nat, 0nat,
{
    broadcast use ops;
    let r = {
    let g1 = match e {
        ExprView::Binary { lhs, rhs, .. } => {
            let exp = small_exp(*rhs);
            let g2 = if exp == 0 {
                let g3 = g.p("    mov rax, 1\n"@);
                g3
            } else {
                let g4 = eval_raw(g, env, *lhs);
                eval_raw_kept(origin, g, env, *lhs);
                let (g5, bt) = g4.temp();
                let g6 = g5.p("    mov [rbp"@).n(bt as int).p("], rax\n"@);
                let g7 = g6.mul_times(bt, (exp - 1) as nat);
                mul_times_kept(origin, g6, bt, (exp - 1) as nat);
                g7
            };
            g2
        },
        _ => {
            g
        },
    };
    g1
};
}

pub(crate) proof fn raw_call_kept(origin: Asm, g: Asm, env: FnEnv, e: ExprView)
    requires
        kept(origin, g),
    ensures
        kept(origin, raw_call(g, env, e)),
    decreases e, 1nat, 0nat,
{
    broadcast use ops;
    let r = {
    let g1 = match e {
        ExprView::Call { callee, args } => {
            let g2 = match *callee {
                ExprView::Ident(n) => {
                    let g3 = if args.len() == 1 {
                        let g4 = eval_raw(g, env, args[0]);
                        eval_raw_kept(origin, g, env, args[0]);
                        let g5 = g4.p("    mov rcx, rax\n"@);
                        let g6 = g5.p("    call lm_"@).p(n).p(".raw\n"@);
                        g6
                    } else {
                        let (g7, slots) = raw_slots_of(g, env, args, args.len());
                        raw_slots_of_kept(origin, g, env, args, args.len());
                        let sym = "lm_"@ + n + ".raw"@;
                        let g8 = load_args(g7, env, slots, sym);
                        load_args_kept(origin, g7, env, slots, sym);
                        g8
                    };
                    g3
                },
                _ => {
                    g
                },
            };
            g2
        },
        _ => {
            g
        },
    };
    g1
};
}

pub(crate) proof fn eval_raw_kept(origin: Asm, g: Asm, env: FnEnv, e: ExprView)
    requires
        kept(origin, g),
    ensures
        kept(origin, eval_raw(g, env, e)),
    decreases e, 4nat, 0nat,
{
    broadcast use ops;
    let r = {
    let how = raw_form(env, e);
    let g1 = match how {
        RawForm::Const => {
            let n = int_value(e);
            let g2 = g.p("    mov rax, "@).n(n as int).p("\n"@);
            g2
        },
        RawForm::Var => {
            let n = ident_name(e);
            let g3 = match g.int_loc_of(n) {
                Some(reg) => {
                    let g4 = g.p("    mov rax, "@).p(reg).p("\n"@);
                    g4
                },
                None => {
                    let g5 = match g.local_of(n) {
                        Some(off) => {
                            let g6 = g.p("    mov rax, [rbp"@).n(off as int).p("]\n"@);
                            g6
                        },
                        None => {
                            let g7 = g.fail("native: raw ident not in scope"@);
                            g7
                        },
                    };
                    g5
                },
            };
            g3
        },
        RawForm::Neg => {
            let g8 = raw_neg(g, env, e).unbox_int();
            raw_neg_kept(origin, g, env, e);
            g8
        },
        RawForm::Arith => {
            let g9 = raw_binary(g, env, e).unbox_int();
            raw_binary_kept(origin, g, env, e);
            g9
        },
        RawForm::Power => {
            let g10 = raw_power(g, env, e).unbox_int();
            raw_power_kept(origin, g, env, e);
            g10
        },
        RawForm::Element => {
            let g11 = raw_list_index(g, env, e);
            raw_list_index_kept(origin, g, env, e);
            g11
        },
        RawForm::Call => {
            let g12 = raw_call(g, env, e);
            raw_call_kept(origin, g, env, e);
            g12
        },
        RawForm::Boxed => {
            let g13 = gen_expr(g, env, e);
            gen_expr_kept(origin, g, env, e);
            let g14 = g13.unbox_int();
            g14
        },
    };
    g1
};
}

pub(crate) proof fn raw_neg_kept(origin: Asm, g: Asm, env: FnEnv, e: ExprView)
    requires
        kept(origin, g),
    ensures
        kept(origin, raw_neg(g, env, e)),
    decreases e, 1nat, 0nat,
{
    broadcast use ops;
    let r = {
    let g1 = match e {
        ExprView::Unary { expr, .. } => {
            let g2 = eval_raw(g, env, *expr);
            eval_raw_kept(origin, g, env, *expr);
            let g3 = g2.p("    neg rax\n"@);
            g3
        },
        _ => {
            g
        },
    };
    g1
};
}

pub(crate) proof fn eval_raw_float_kept(origin: Asm, g: Asm, env: FnEnv, e: ExprView)
    requires
        kept(origin, g),
    ensures
        kept(origin, eval_raw_float(g, env, e)),
    decreases e, 4nat, 0nat,
{
    broadcast use ops;
    let r = {
    let how = float_form(env, e);
    let g1 = match how {
        FloatForm::Const => {
            let b = float_bits(e);
            let (g2, lbl) = g.add_double(b);
            let g3 = g2.p("    movsd xmm0, qword ptr [rip + "@).p(lbl).p("]\n"@);
            g3
        },
        FloatForm::Var => {
            let n = ident_name(e);
            let g4 = match g.float_loc_of(n) {
                Some(reg) => {
                    let g5 = g.p("    movapd xmm0, "@).p(reg).p("\n"@);
                    g5
                },
                None => {
                    let g6 = match g.local_of(n) {
                        Some(off) => {
                            let g7 = g.p("    movsd xmm0, qword ptr [rbp"@).n(off as int).p("]\n"@);
                            g7
                        },
                        None => {
                            let g8 = g.fail("native: raw-float ident not in scope"@);
                            g8
                        },
                    };
                    g6
                },
            };
            g4
        },
        FloatForm::Neg => {
            let g9 = float_neg(g, env, e);
            float_neg_kept(origin, g, env, e);
            g9
        },
        FloatForm::Arith => {
            let g10 = float_binary(g, env, e);
            float_binary_kept(origin, g, env, e);
            g10
        },
        FloatForm::Element => {
            let g11 = float_list_index(g, env, e);
            float_list_index_kept(origin, g, env, e);
            g11
        },
        FloatForm::Boxed => {
            let g12 = gen_expr(g, env, e);
            gen_expr_kept(origin, g, env, e);
            let g13 = g12.p("    movq xmm0, rax\n"@);
            g13
        },
    };
    g1
};
}

pub(crate) proof fn module_call_kept(origin: Asm, g: Asm, env: FnEnv, e: ExprView)
    requires
        kept(origin, g),
    ensures
        kept(origin, module_call(g, env, e)),
    decreases e, 1nat, 0nat,
{
    broadcast use ops;
    let r = {
    let g1 = match e {
        ExprView::Method { obj, name, args } => {
            let g2 = match *obj {
                ExprView::Ident(m) => {
                    let g3 = match lookup_spec(m, name, 0) {
                        None => {
                            let msg = "native "@ + m + ": no fn '"@ + name + "'"@;
                            let g4 = g.fail(msg);
                            g4
                        },
                        Some(bf) => {
                            let arity = bf.arity as nat;
                            let symbol = bf.symbol;
                            let g5 = if arity == 0 || arity > 4 {
                                let g6 = g.p("    call "@).p(symbol).p("\n"@);
                                g6
                            } else {
                                let g7 = if args.len() < arity {
                                    let msg = "native "@ + m + ": too few arguments for '"@ + name
                                        + "'"@;
                                    let g8 = g.fail(msg);
                                    g8
                                } else {
                                    let (g9, slots) = slots_of(g, env, args, (arity - 1) as nat);
                                    slots_of_kept(origin, g, env, args, (arity - 1) as nat);
                                    let g10 = gen_expr(g9, env, args[arity - 1]);
                                    gen_expr_kept(origin, g9, env, args[arity - 1]);
                                    let last = arg_reg(arity - 1);
                                    let g11 = g10.p("    mov "@).p(last).p(", rax\n"@);
                                    let g12 = g11.load_regs_down(slots, slots.len());
                                    load_regs_down_kept(origin, g11, slots, slots.len());
                                    let g13 = g12.p("    call "@).p(symbol).p("\n"@);
                                    g13
                                };
                                g7
                            };
                            g5
                        },
                    };
                    g3
                },
                _ => {
                    g
                },
            };
            g2
        },
        _ => {
            g
        },
    };
    g1
};
}

pub(crate) proof fn gen_method_kept(origin: Asm, g: Asm, env: FnEnv, e: ExprView)
    requires
        kept(origin, g),
    ensures
        kept(origin, gen_method(g, env, e)),
    decreases e, 2nat, 0nat,
{
    broadcast use ops;
    let r = {
    let how = method_form(env, e);
    let g1 = match e {
        ExprView::Method { obj, name, args } => {
            let g2 = match how {
                MethodForm::Module => {
                    let g3 = module_call(g, env, e);
                    module_call_kept(origin, g, env, e);
                    g3
                },
                MethodForm::Len => {
                    let g4 = gen_expr(g, env, *obj);
                    gen_expr_kept(origin, g, env, *obj);
                    let g5 = g4.p(
                        "    mov rcx, rax\n    call lumen_len\n    mov rcx, rax\n    call lumen_from_int\n"@,
                    );
                    g5
                },
                MethodForm::Push => {
                    let g6 = gen_expr(g, env, *obj);
                    gen_expr_kept(origin, g, env, *obj);
                    let (g7, o) = g6.temp();
                    let g8 = g7.p("    mov [rbp"@).n(o as int).p("], rax\n"@);
                    let g9 = list_items(g8, env, args, args.len(), o);
                    list_items_kept(origin, g8, env, args, args.len(), o);
                    let g10 = g9.p("    call lumen_nil\n"@);
                    g10
                },
                MethodForm::InPlace => {
                    let g11 = gen_expr(g, env, *obj);
                    gen_expr_kept(origin, g, env, *obj);
                    let g12 = g11.p("    mov rcx, rax\n"@);
                    let g13 = if name == "reverse"@ {
                        let g14 = g12.p("    call lumen_list_reverse\n"@);
                        g14
                    } else {
                        let g15 = g12.p("    call lumen_list_sort\n"@);
                        g15
                    };
                    let g16 = g13.p("    call lumen_nil\n"@);
                    g16
                },
                MethodForm::Plain => {
                    let rt = plain_method(name);
                    let g17 = gen_expr(g, env, *obj);
                    gen_expr_kept(origin, g, env, *obj);
                    let g18 = g17.p("    mov rcx, rax\n"@);
                    let g19 = g18.p("    call "@).p(rt).p("\n"@);
                    g19
                },
                MethodForm::Get => {
                    let g20 = gen_expr(g, env, *obj);
                    gen_expr_kept(origin, g, env, *obj);
                    let (g21, r) = g20.temp();
                    let g22 = g21.p("    mov [rbp"@).n(r as int).p("], rax\n"@);
                    let g23 = gen_expr(g22, env, args[0]);
                    gen_expr_kept(origin, g22, env, args[0]);
                    let (g24, k) = g23.temp();
                    let g25 = g24.p("    mov [rbp"@).n(k as int).p("], rax\n"@);
                    let g26 = if args.len() > 1 {
                        let g27 = gen_expr(g25, env, args[1]);
                        gen_expr_kept(origin, g25, env, args[1]);
                        let g28 = g27.p("    mov r8, rax\n"@);
                        let g29 = g28.p("    mov rdx, [rbp"@).n(k as int).p("]\n"@);
                        let g30 = g29.p("    mov rcx, [rbp"@).n(r as int).p("]\n"@);
                        let g31 = g30.p("    call lumen_map_get_or\n"@);
                        g31
                    } else {
                        let g32 = g25.p("    mov rdx, [rbp"@).n(k as int).p("]\n"@);
                        let g33 = g32.p("    mov rcx, [rbp"@).n(r as int).p("]\n"@);
                        let g34 = g33.p("    call lumen_map_get\n"@);
                        g34
                    };
                    g26
                },
                MethodForm::Insert => {
                    let g35 = gen_expr(g, env, *obj);
                    gen_expr_kept(origin, g, env, *obj);
                    let (g36, r) = g35.temp();
                    let g37 = g36.p("    mov [rbp"@).n(r as int).p("], rax\n"@);
                    let g38 = gen_expr(g37, env, args[0]);
                    gen_expr_kept(origin, g37, env, args[0]);
                    let g39 = g38.p("    mov rcx, rax\n    call lumen_to_int\n"@);
                    let (g40, idx) = g39.temp();
                    let g41 = g40.p("    mov [rbp"@).n(idx as int).p("], rax\n"@);
                    let g42 = gen_expr(g41, env, args[1]);
                    gen_expr_kept(origin, g41, env, args[1]);
                    let (g43, v) = g42.temp();
                    let g44 = g43.p("    mov [rbp"@).n(v as int).p("], rax\n"@);
                    let g45 = g44.p("    mov rcx, [rbp"@).n(r as int).p("]\n"@);
                    let g46 = g45.p("    mov rdx, [rbp"@).n(idx as int).p("]\n"@);
                    let g47 = g46.p("    mov r8, [rbp"@).n(v as int).p("]\n"@);
                    let g48 = g47.p("    call lumen_list_insert\n    call lumen_nil\n"@);
                    g48
                },
                MethodForm::Replace => {
                    let g49 = gen_expr(g, env, *obj);
                    gen_expr_kept(origin, g, env, *obj);
                    let (g50, r) = g49.temp();
                    let g51 = g50.p("    mov [rbp"@).n(r as int).p("], rax\n"@);
                    let g52 = gen_expr(g51, env, args[0]);
                    gen_expr_kept(origin, g51, env, args[0]);
                    let (g53, oldv) = g52.temp();
                    let g54 = g53.p("    mov [rbp"@).n(oldv as int).p("], rax\n"@);
                    let g55 = gen_expr(g54, env, args[1]);
                    gen_expr_kept(origin, g54, env, args[1]);
                    let (g56, newv) = g55.temp();
                    let g57 = g56.p("    mov [rbp"@).n(newv as int).p("], rax\n"@);
                    let g58 = g57.p("    mov rcx, [rbp"@).n(r as int).p("]\n"@);
                    let g59 = g58.p("    mov rdx, [rbp"@).n(oldv as int).p("]\n"@);
                    let g60 = g59.p("    mov r8, [rbp"@).n(newv as int).p("]\n"@);
                    let g61 = g60.p("    call lumen_str_replace\n"@);
                    g61
                },
                MethodForm::OneArg => {
                    let rt = one_arg_method(name);
                    let g62 = gen_expr(g, env, *obj);
                    gen_expr_kept(origin, g, env, *obj);
                    let (g63, r) = g62.temp();
                    let g64 = g63.p("    mov [rbp"@).n(r as int).p("], rax\n"@);
                    let g65 = gen_expr(g64, env, args[0]);
                    gen_expr_kept(origin, g64, env, args[0]);
                    let g66 = g65.p("    mov rdx, rax\n"@);
                    let g67 = g66.p("    mov rcx, [rbp"@).n(r as int).p("]\n"@);
                    let g68 = g67.p("    call "@).p(rt).p("\n"@);
                    g68
                },
                MethodForm::User => {
                    let sn = resolved(env, e);
                    let sym = "lm_"@ + sn + "__"@ + name;
                    let g69 = gen_expr(g, env, *obj);
                    gen_expr_kept(origin, g, env, *obj);
                    let (g70, recv) = g69.temp();
                    let g71 = g70.p("    mov [rbp"@).n(recv as int).p("], rax\n"@);
                    let (g72, slots) = slots_of(g71, env, args, args.len());
                    slots_of_kept(origin, g71, env, args, args.len());
                    let all = seq![recv] + slots;
                    let g73 = load_args(g72, env, all, sym);
                    load_args_kept(origin, g72, env, all, sym);
                    g73
                },
                MethodForm::Unknown => {
                    let msg = "cannot resolve method '"@ + name
                        + "' - no method or builtin with that name applies here"@;
                    let g74 = g.fail_here(msg);
                    g74
                },
            };
            g2
        },
        _ => {
            g
        },
    };
    g1
};
}

pub(crate) proof fn gen_indirect_kept(origin: Asm, g: Asm, env: FnEnv, e: ExprView)
    requires
        kept(origin, g),
    ensures
        kept(origin, gen_indirect(g, env, e)),
    decreases e, 1nat, 0nat,
{
    broadcast use ops;
    let r = {
    let g1 = match e {
        ExprView::Call { callee, args } => {
            let g2 = if args.len() > 3 {
                let g3 = g.fail("native: indirect call supports up to 3 args"@);
                g3
            } else {
                let g4 = gen_expr(g, env, *callee);
                gen_expr_kept(origin, g, env, *callee);
                let (g5, fslot) = g4.temp();
                let g6 = g5.p("    mov [rbp"@).n(fslot as int).p("], rax\n"@);
                let (g7, slots) = slots_of(g6, env, args, args.len());
                slots_of_kept(origin, g6, env, args, args.len());
                let g8 = g7.p("    mov rcx, [rbp"@).n(fslot as int).p("]\n"@);
                let g9 = g8.load_regs(slots, slots.len(), 1);
                load_regs_kept(origin, g8, slots, slots.len(), 1);
                let n = slots.len();
                let g10 = g9.p("    call lumen_call"@).u(n as nat).p("\n"@);
                g10
            };
            g2
        },
        _ => {
            g
        },
    };
    g1
};
}

pub(crate) proof fn builtin_call_kept(origin: Asm, g: Asm, env: FnEnv, e: ExprView)
    requires
        kept(origin, g),
    ensures
        kept(origin, builtin_call(g, env, e)),
    decreases e, 1nat, 0nat,
{
    broadcast use ops;
    let r = {
    let g1 = match e {
        ExprView::Call { callee, args } => {
            let g2 = match *callee {
                ExprView::Ident(name) => {
                    let g3 = if name == "print"@ {
                        let g4 = if args.len() == 0 {
                            let g5 = g.p("    call lumen_print_nl\n    call lumen_nil\n"@);
                            g5
                        } else {
                            let g6 = if args.len() == 1 {
                                let g7 = gen_expr(g, env, args[0]);
                                gen_expr_kept(origin, g, env, args[0]);
                                let g8 = g7.p(
                                    "    mov rcx, rax\n    call lumen_print\n    call lumen_nil\n"@,
                                );
                                g8
                            } else {
                                let g9 = print_parts(g, env, args, args.len());
                                print_parts_kept(origin, g, env, args, args.len());
                                let g10 = g9.p("    call lumen_print_nl\n    call lumen_nil\n"@);
                                g10
                            };
                            g6
                        };
                        g4
                    } else {
                        let g11 = if name == "input"@ {
                            let g12 = if args.len() > 0 {
                                let g13 = gen_expr(g, env, args[0]);
                                gen_expr_kept(origin, g, env, args[0]);
                                let g14 = g13.p("    mov rcx, rax\n"@);
                                g14
                            } else {
                                let g15 = g.p("    call lumen_nil\n    mov rcx, rax\n"@);
                                g15
                            };
                            let g16 = g12.p("    call lumen_input\n"@);
                            g16
                        } else {
                            let g17 = if name == "range"@ {
                                let g18 = if args.len() == 1 || args.len() == 2 {
                                    let g19 = g.p("    mov rcx, 0\n    call lumen_list_new\n"@);
                                    let (g20, loff) = g19.temp();
                                    let g21 = g20.p("    mov [rbp"@).n(loff as int).p("], rax\n"@);
                                    let g22 = if args.len() == 1 {
                                        let zero = boxed_int(0);
                                        let g23 = g21.p("    mov rax, "@).u(zero as nat).p("\n"@);
                                        g23
                                    } else {
                                        let g24 = gen_expr(g21, env, args[0]);
                                        gen_expr_kept(origin, g21, env, args[0]);
                                        g24
                                    };
                                    let g25 = g22.p("    mov rcx, rax\n    call lumen_to_int\n"@);
                                    let (g26, ioff) = g25.temp();
                                    let g27 = g26.p("    mov [rbp"@).n(ioff as int).p("], rax\n"@);
                                    let g28 = gen_expr(g27, env, args[args.len() - 1]);
                                    gen_expr_kept(origin, g27, env, args[args.len() - 1]);
                                    let g29 = g28.p("    mov rcx, rax\n    call lumen_to_int\n"@);
                                    let (g30, hoff) = g29.temp();
                                    let g31 = g30.p("    mov [rbp"@).n(hoff as int).p("], rax\n"@);
                                    let g32 = range_loop(g31, env, loff, ioff, hoff);
                                    range_loop_kept(origin, g31, env, loff, ioff, hoff);
                                    g32
                                } else {
                                    let g33 = g.fail("range() takes 1 or 2 args"@);
                                    g33
                                };
                                g18
                            } else {
                                let g34 = if args.len() == 0 {
                                    let msg = "native: too few arguments for '"@ + name + "'"@;
                                    let g35 = g.fail(msg);
                                    g35
                                } else {
                                    let g36 = gen_expr(g, env, args[0]);
                                    gen_expr_kept(origin, g, env, args[0]);
                                    let tail = builtin_tail(name);
                                    let g37 = g36.p("    mov rcx, rax\n"@);
                                    let g38 = g37.p(tail);
                                    g38
                                };
                                g34
                            };
                            g17
                        };
                        g11
                    };
                    g3
                },
                _ => {
                    g
                },
            };
            g2
        },
        _ => {
            g
        },
    };
    g1
};
}

pub(crate) proof fn struct_begin_kept(origin: Asm, g: Asm, env: FnEnv, name: Seq<char>, fields: Seq<FieldView>)
    requires
        kept(origin, g),
    ensures
        kept(origin, struct_begin(g, env, name, fields).0),
{
    broadcast use ops;
}

pub(crate) proof fn ffi_call_kept(origin: Asm, g: Asm, env: FnEnv, ef: ExternFnView, slots: Seq<i64>)
    requires
        kept(origin, g),
    ensures
        kept(origin, ffi_call(g, env, ef, slots)),
{
    broadcast use ops;
    let r = {
    let n = slots.len();
    let fname = ef.name;
    let g1 = if n > 4 {
        let bytes = ffi_bytes(n);
        let g2 = g.p("    sub rsp, "@).u(bytes as nat).p("\n"@);
        let g3 = g2.push_stack(slots, slots.len());
        push_stack_kept(origin, g2, slots, slots.len());
        let g4 = g3.ffi_regs(slots, 4, ef.params);
        ffi_regs_kept(origin, g3, slots, 4, ef.params);
        let g5 = g4.p("    call "@).p(fname).p("\n"@);
        let g6 = g5.p("    add rsp, "@).u(bytes as nat).p("\n"@);
        g6
    } else {
        let g7 = g.ffi_regs(slots, slots.len(), ef.params);
        ffi_regs_kept(origin, g, slots, slots.len(), ef.params);
        let g8 = g7.p("    call "@).p(fname).p("\n"@);
        g8
    };
    let g9 = match ffi_ret(ef.ret) {
        FfiRet::Nil => {
            let g10 = g1.p("    call lumen_nil\n"@);
            g10
        },
        FfiRet::Float => {
            let g11 = g1.p("    call lumen_from_double\n"@);
            g11
        },
        FfiRet::Int => {
            let g12 = g1.p("    mov rcx, rax\n    call lumen_from_int\n"@);
            g12
        },
    };
    g9
};
}

pub(crate) proof fn gen_call_kept(origin: Asm, g: Asm, env: FnEnv, e: ExprView)
    requires
        kept(origin, g),
    ensures
        kept(origin, gen_call(g, env, e)),
    decreases e, 2nat, 0nat,
{
    broadcast use ops;
    let r = {
    let how = call_form(g, env, e);
    let g1 = match e {
        ExprView::Call { callee, args } => {
            let g2 = match how {
                CallForm::Indirect => {
                    let g3 = gen_indirect(g, env, e);
                    gen_indirect_kept(origin, g, env, e);
                    g3
                },
                CallForm::Builtin => {
                    let g4 = builtin_call(g, env, e);
                    builtin_call_kept(origin, g, env, e);
                    g4
                },
                CallForm::Struct => {
                    let name = ident_name(*callee);
                    let fields = fields_of(env, name);
                    let g5 = if args.len() > fields.len() {
                        let nf = fields.len();
                        let na = args.len();
                        let msg = "too many arguments for struct '"@ + name + "': it has "@
                            + dec_nat(nf as nat) + " field(s) but "@ + dec_nat(na as nat)
                            + " were given"@;
                        let g6 = g.fail(msg);
                        g6
                    } else {
                        let (g7, soff) = struct_begin(g, env, name, fields);
                        struct_begin_kept(origin, g, env, name, fields);
                        let g8 = set_positional(g7, env, args, args.len(), soff, fields);
                        set_positional_kept(origin, g7, env, args, args.len(), soff, fields);
                        let g9 = g8.p("    mov rax, [rbp"@).n(soff as int).p("]\n"@);
                        g9
                    };
                    g5
                },
                CallForm::Foreign => {
                    let name = ident_name(*callee);
                    let g10 = if args.len() > 16 {
                        let g11 = g.fail_here("FFI: at most 16 arguments are supported"@);
                        g11
                    } else {
                        let g12 = match extern_of(env, name) {
                            Some(ef) => {
                                let (g13, slots) = ffi_slots(g, env, args, args.len(), ef.params);
                                ffi_slots_kept(origin, g, env, args, args.len(), ef.params);
                                let g14 = ffi_call(g13, env, ef, slots);
                                ffi_call_kept(origin, g13, env, ef, slots);
                                g14
                            },
                            None => {
                                g
                            },
                        };
                        g12
                    };
                    g10
                },
                CallForm::Direct => {
                    let name = ident_name(*callee);
                    let g15 = if args.len() == 1 {
                        let g16 = gen_expr(g, env, args[0]);
                        gen_expr_kept(origin, g, env, args[0]);
                        let g17 = g16.p("    mov rcx, rax\n"@);
                        let g18 = g17.p("    call lm_"@).p(name).p("\n"@);
                        g18
                    } else {
                        let (g19, slots) = slots_of(g, env, args, args.len());
                        slots_of_kept(origin, g, env, args, args.len());
                        let sym = "lm_"@ + name;
                        let g20 = load_args(g19, env, slots, sym);
                        load_args_kept(origin, g19, env, slots, sym);
                        g20
                    };
                    g15
                },
                CallForm::Unknown => {
                    let name = ident_name(*callee);
                    let msg = "undefined function '"@ + name
                        + "' - no such function, method, or builtin"@;
                    let g21 = g.fail_here(msg);
                    g21
                },
            };
            g2
        },
        _ => {
            g
        },
    };
    g1
};
}

pub(crate) proof fn gen_named_call_kept(origin: Asm, g: Asm, env: FnEnv, e: ExprView)
    requires
        kept(origin, g),
    ensures
        kept(origin, gen_named_call(g, env, e)),
    decreases e, 2nat, 0nat,
{
    broadcast use ops;
    let r = {
    let g1 = match e {
        ExprView::NamedCall { callee, args } => {
            let g2 = match *callee {
                ExprView::Ident(name) => {
                    let g3 = match struct_of(env, name) {
                        Some(sd) => {
                            let (g4, soff) = struct_begin(g, env, name, sd.fields);
                            struct_begin_kept(origin, g, env, name, sd.fields);
                            let g5 = set_fields(g4, env, args, args.len(), soff);
                            set_fields_kept(origin, g4, env, args, args.len(), soff);
                            let g6 = g5.p("    mov rax, [rbp"@).n(soff as int).p("]\n"@);
                            g6
                        },
                        None => {
                            let msg = "no struct type named '"@ + name + "'"@;
                            let g7 = g.fail_here(msg);
                            g7
                        },
                    };
                    g3
                },
                _ => {
                    let g8 = g.fail_here("a constructor call must name a struct type"@);
                    g8
                },
            };
            g2
        },
        _ => {
            g
        },
    };
    g1
};
}

pub(crate) proof fn comp_push_kept(origin: Asm, g: Asm, env: FnEnv, acc: Seq<char>, elem: ExprView)
    requires
        kept(origin, g),
    ensures
        kept(origin, comp_push(g, env, acc, elem)),
    decreases elem, 7nat, 0nat,
{
    broadcast use ops;
    let r = {
    let g1 = load_ident(g, env, acc);
    load_ident_kept(origin, g, env, acc);
    let (g2, o) = g1.temp();
    let g3 = g2.p("    mov [rbp"@).n(o as int).p("], rax\n"@);
    let g4 = gen_expr(g3, env, elem);
    gen_expr_kept(origin, g3, env, elem);
    let g5 = g4.p("    mov rdx, rax\n    mov rcx, [rbp"@).n(o as int)
        .p("]\n    call lumen_list_push\n"@);
    let g6 = g5.p("    call lumen_nil\n"@);
    g6
};
}

pub(crate) proof fn comp_body_kept(origin: Asm, g: Asm, env: FnEnv, e: ExprView, acc: Seq<char>)
    requires
        kept(origin, g),
    ensures
        kept(origin, comp_body(g, env, e, acc)),
    decreases e, 0nat, 0nat,
{
    broadcast use ops;
    let r = {
    let g1 = match e {
        ExprView::ListComp { elem, cond, .. } => {
            let g2 = match cond {
                Some(c) => {
                    let (g3, end) = g.new_label("ifend"@);
                    let (g4, next) = g3.new_label("ifnext"@);
                    let g5 = cond_false(g4, env, *c, next);
                    cond_false_kept(origin, g4, env, *c, next);
                    let g6 = comp_push(g5, env, acc, *elem);
                    comp_push_kept(origin, g5, env, acc, *elem);
                    let g7 = g6.p("    jmp "@).p(end).p("\n"@).p(next).p(":\n"@);
                    let g8 = g7.p(end).p(":\n"@);
                    g8
                },
                None => {
                    let g9 = comp_push(g, env, acc, *elem);
                    comp_push_kept(origin, g, env, acc, *elem);
                    g9
                },
            };
            g2
        },
        _ => {
            g
        },
    };
    g1
};
}

pub(crate) proof fn gen_comp_kept(origin: Asm, g: Asm, env: FnEnv, e: ExprView)
    requires
        kept(origin, g),
    ensures
        kept(origin, gen_comp(g, env, e)),
    decreases e, 1nat, 0nat,
{
    broadcast use ops;
    let r = {
    let g1 = match e {
        ExprView::ListComp { elem, var, iter, cond } => {
            let (g2, id) = g.new_unique();
            let acc = "__lc_acc_"@ + dec_nat(id as nat);
            let g3 = g2.p("    mov rcx, 0\n    call lumen_list_new\n"@);
            let (g4, accoff) = g3.slot(acc);
            let g5 = g4.p("    mov [rbp"@).n(accoff as int).p("], rax\n"@);
            let (g6, voff) = g5.slot(var);
            let (g7, saveoff) = g6.temp();
            let g8 = g7.p("    mov rax, [rbp"@).n(voff as int).p("]\n"@);
            let g9 = g8.p("    mov [rbp"@).n(saveoff as int).p("], rax\n"@);
            let g10 = match *iter {
                ExprView::Range { lo, hi } => {
                    let (g11, fr) = g9.range_regs();
                    let g12 = gen_expr(g11, env, *lo);
                    gen_expr_kept(origin, g11, env, *lo);
                    let g13 = g12.unbox_int();
                    let g14 = g13.set_counter(fr);
                    let g15 = gen_expr(g14, env, *hi);
                    gen_expr_kept(origin, g14, env, *hi);
                    let g16 = g15.unbox_int();
                    let g17 = g16.set_limit(fr);
                    let used = acc == var || used_expr(*elem, var) || used_optbox(cond, var);
                    let (g18, fo) = g17.range_open(
                        fr,
                        var,
                        env.raw_int.contains(var),
                        used,
                        false,
                        true,
                        Seq::empty(),
                        Seq::empty(),
                    );
                    range_opened(
                        origin,
                        g17,
                        fr,
                        var,
                        env.raw_int.contains(var),
                        used,
                        false,
                        true,
                        Seq::empty(),
                        Seq::empty(),
                    );
                    kept_self(g18);
                    let g19 = comp_body(g18, env, e, acc);
                    comp_body_kept(g18, g18, env, e, acc);
                    let g20 = g19.range_close(fr, fo, var);
                    range_closed(origin, g18, g19, fr, fo, var);
                    g20
                },
                _ => {
                    let g21 = gen_expr(g9, env, *iter);
                    gen_expr_kept(origin, g9, env, *iter);
                    let (g22, lo2) = g21.list_open(var);
                    list_opened(origin, g21, var);
                    kept_self(g22);
                    let g23 = comp_body(g22, env, e, acc);
                    comp_body_kept(g22, g22, env, e, acc);
                    let g24 = g23.list_close(lo2);
                    list_closed(origin, g22, g23, lo2);
                    g24
                },
            };
            let g25 = g10.p("    mov rax, [rbp"@).n(saveoff as int).p("]\n"@);
            let g26 = g25.p("    mov [rbp"@).n(voff as int).p("], rax\n"@);
            let g27 = g26.p("    mov rax, [rbp"@).n(accoff as int).p("]\n"@);
            g27
        },
        _ => {
            g
        },
    };
    g1
};
}

pub(crate) proof fn tail_slots_kept(origin: Asm, g: Asm, env: FnEnv, s: Seq<ExprView>, k: nat)
    requires
        kept(origin, g),
    ensures
        kept(origin, tail_slots(g, env, s, k).0),
    decreases s, 9nat, k,
{
    broadcast use ops;
    let r = {
    if k == 0 || k > s.len() {
        (g, Seq::empty())
    } else {
        let (g0, slots) = tail_slots(g, env, s, (k - 1) as nat);
        tail_slots_kept(origin, g, env, s, (k - 1) as nat);
        let i = k - 1;
        let e = s[i];
        let g1 = if raw_param(env, i as int) {
            let g2 = eval_raw(g0, env, e);
            eval_raw_kept(origin, g0, env, e);
            g2
        } else {
            let g3 = gen_expr(g0, env, e);
            gen_expr_kept(origin, g0, env, e);
            g3
        };
        let (g4, t) = g1.temp();
        let g5 = g4.p("    mov [rbp"@).n(t as int).p("], rax\n"@);
        (g5, slots.push(t))
    }
};
}

pub(crate) proof fn store_float_kept(origin: Asm, g: Asm, env: FnEnv, name: Seq<char>, off: i64)
    requires
        kept(origin, g),
    ensures
        kept(origin, store_float(g, env, name, off)),
{
    broadcast use ops;
}

pub(crate) proof fn store_raw_kept(origin: Asm, g: Asm, env: FnEnv, name: Seq<char>, off: i64)
    requires
        kept(origin, g),
    ensures
        kept(origin, store_raw(g, env, name, off)),
{
    broadcast use ops;
}

pub(crate) proof fn gen_stmts_kept(origin: Asm, g: Asm, env: FnEnv, s: Seq<StmtView>, k: nat)
    requires
        kept(origin, g),
    ensures
        kept(origin, gen_stmts(g, env, s, k)),
    decreases s, 0nat, k,
{
    broadcast use ops;
    let r = {
    if k == 0 || k > s.len() {
        g
    } else {
        let g0 = gen_stmts(g, env, s, (k - 1) as nat);
        gen_stmts_kept(origin, g, env, s, (k - 1) as nat);
        let i = k - 1;
        let e = s[i];
        let g1 = gen_stmt(g0, env, e);
        gen_stmt_kept(origin, g0, env, e);
        g1
    }
};
}

pub(crate) proof fn gen_elifs_kept(origin: Asm, g: Asm, env: FnEnv, s: Seq<(ExprView, Seq<StmtView>)>, k: nat, end: Seq<char>)
    requires
        kept(origin, g),
    ensures
        kept(origin, gen_elifs(g, env, s, k, end)),
    decreases s, 0nat, k,
{
    broadcast use ops;
    let r = {
    if k == 0 || k > s.len() {
        g
    } else {
        let g0 = gen_elifs(g, env, s, (k - 1) as nat, end);
        gen_elifs_kept(origin, g, env, s, (k - 1) as nat, end);
        let i = k - 1;
        let (c, b) = s[i];
        let (g1, n2) = g0.new_label("ifnext"@);
        let g2 = cond_false(g1, env, c, n2);
        cond_false_kept(origin, g1, env, c, n2);
        let g3 = gen_stmts(g2, env, b, b.len());
        gen_stmts_kept(origin, g2, env, b, b.len());
        let g4 = g3.p("    jmp "@).p(end).p("\n"@).p(n2).p(":\n"@);
        g4
    }
};
}

pub(crate) proof fn stmt_let_kept(origin: Asm, g: Asm, env: FnEnv, e: StmtView)
    requires
        kept(origin, g),
    ensures
        kept(origin, stmt_let(g, env, e)),
    decreases e, 2nat, 0nat,
{
    broadcast use ops;
    let r = {
    let g1 = match e {
        StmtView::Let { name, value, .. } => {
            let (g2, off) = g.slot(name);
            let g3 = if env.raw_int.contains(name) {
                let g4 = eval_raw(g2, env, value);
                eval_raw_kept(origin, g2, env, value);
                let g5 = g4.p("    mov [rbp"@).n(off as int).p("], rax\n"@);
                g5
            } else {
                let g6 = if env.raw_float.contains(name) {
                    let g7 = eval_raw_float(g2, env, value);
                    eval_raw_float_kept(origin, g2, env, value);
                    let g8 = store_float(g7, env, name, off);
                    store_float_kept(origin, g7, env, name, off);
                    g8
                } else {
                    let g9 = gen_expr(g2, env, value);
                    gen_expr_kept(origin, g2, env, value);
                    let g10 = g9.p("    mov [rbp"@).n(off as int).p("], rax\n"@);
                    g10
                };
                g6
            };
            g3
        },
        _ => {
            g
        },
    };
    g1
};
}

pub(crate) proof fn stmt_assign_kept(origin: Asm, g: Asm, env: FnEnv, e: StmtView)
    requires
        kept(origin, g),
    ensures
        kept(origin, stmt_assign(g, env, e)),
    decreases e, 2nat, 0nat,
{
    broadcast use ops;
    let r = {
    let g1 = match e {
        StmtView::Assign { target, value } => {
            let g2 = match target {
                ExprView::Ident(n) => {
                    let (g3, off) = g.slot(n);
                    let g4 = if env.raw_int.contains(n) {
                        let g5 = eval_raw(g3, env, value);
                        eval_raw_kept(origin, g3, env, value);
                        let g6 = store_raw(g5, env, n, off);
                        store_raw_kept(origin, g5, env, n, off);
                        g6
                    } else {
                        let g7 = if env.raw_float.contains(n) {
                            let g8 = eval_raw_float(g3, env, value);
                            eval_raw_float_kept(origin, g3, env, value);
                            let g9 = store_float(g8, env, n, off);
                            store_float_kept(origin, g8, env, n, off);
                            g9
                        } else {
                            let g10 = gen_expr(g3, env, value);
                            gen_expr_kept(origin, g3, env, value);
                            let g11 = g10.p("    mov [rbp"@).n(off as int).p("], rax\n"@);
                            g11
                        };
                        g7
                    };
                    g4
                },
                ExprView::Field { obj, name } => {
                    let g12 = gen_expr(g, env, *obj);
                    gen_expr_kept(origin, g, env, *obj);
                    let (g13, o) = g12.temp();
                    let g14 = g13.p("    mov [rbp"@).n(o as int).p("], rax\n"@);
                    let g15 = gen_expr(g14, env, value);
                    gen_expr_kept(origin, g14, env, value);
                    let (g16, v) = g15.temp();
                    let g17 = g16.p("    mov [rbp"@).n(v as int).p("], rax\n"@);
                    let (g18, lbl) = g17.add_string(name);
                    let g19 = g18.p("    mov rcx, [rbp"@).n(o as int).p("]\n"@);
                    let g20 = g19.p("    lea rdx, [rip + "@).p(lbl).p("]\n"@);
                    let g21 = g20.p("    mov r8, [rbp"@).n(v as int).p("]\n"@);
                    let g22 = g21.p("    call lumen_struct_set\n"@);
                    g22
                },
                ExprView::Index { obj, index } => {
                    let g23 = gen_expr(g, env, *obj);
                    gen_expr_kept(origin, g, env, *obj);
                    let (g24, o) = g23.temp();
                    let g25 = g24.p("    mov [rbp"@).n(o as int).p("], rax\n"@);
                    let g26 = gen_expr(g25, env, *index);
                    gen_expr_kept(origin, g25, env, *index);
                    let (g27, i) = g26.temp();
                    let g28 = g27.p("    mov [rbp"@).n(i as int).p("], rax\n"@);
                    let g29 = gen_expr(g28, env, value);
                    gen_expr_kept(origin, g28, env, value);
                    let (g30, v) = g29.temp();
                    let g31 = g30.p("    mov [rbp"@).n(v as int).p("], rax\n"@);
                    let g32 = g31.p("    mov rcx, [rbp"@).n(o as int).p("]\n"@);
                    let g33 = g32.p("    mov rdx, [rbp"@).n(i as int).p("]\n"@);
                    let g34 = g33.p("    mov r8, [rbp"@).n(v as int).p("]\n"@);
                    let g35 = g34.p("    call lumen_index_set\n"@);
                    g35
                },
                _ => {
                    let g36 = g.fail("native: invalid assignment target"@);
                    g36
                },
            };
            g2
        },
        _ => {
            g
        },
    };
    g1
};
}

pub(crate) proof fn stmt_expr_stmt_kept(origin: Asm, g: Asm, env: FnEnv, e: StmtView)
    requires
        kept(origin, g),
    ensures
        kept(origin, stmt_expr_stmt(g, env, e)),
    decreases e, 2nat, 0nat,
{
    broadcast use ops;
    let r = {
    let g1 = match e {
        StmtView::ExprStmt(x) => {
            let g2 = gen_expr(g, env, x);
            gen_expr_kept(origin, g, env, x);
            g2
        },
        _ => {
            g
        },
    };
    g1
};
}

pub(crate) proof fn stmt_return_kept(origin: Asm, g: Asm, env: FnEnv, e: StmtView)
    requires
        kept(origin, g),
    ensures
        kept(origin, stmt_return(g, env, e)),
    decreases e, 2nat, 0nat,
{
    broadcast use ops;
    let r = {
    let g1 = match e {
        StmtView::Return(o) => {
            let g2 = if is_tail_call(env, o) {
                let args = call_args(o);
                let (g3, tmps) = tail_slots(g, env, args, args.len());
                tail_slots_kept(origin, g, env, args, args.len());
                let g4 = g3.move_slots(tmps, env.tail_params);
                move_slots_kept(origin, g3, tmps, env.tail_params);
                let g5 = g4.gc_poll();
                let lbl = env.tail_label->Some_0;
                let g6 = g5.p("    jmp "@).p(lbl).p("\n"@);
                g6
            } else {
                let g7 = match o {
                    Some(x) => {
                        let g8 = if env.raw_return {
                            let g9 = eval_raw(g, env, x);
                            eval_raw_kept(origin, g, env, x);
                            g9
                        } else {
                            let g10 = gen_expr(g, env, x);
                            gen_expr_kept(origin, g, env, x);
                            g10
                        };
                        g8
                    },
                    None => {
                        let g11 = if env.raw_return {
                            let g12 = g.p("    xor eax, eax\n"@);
                            g12
                        } else {
                            let g13 = g.p("    call lumen_nil\n"@);
                            g13
                        };
                        g11
                    },
                };
                let g14 = g7.p("    mov rsp, rbp\n    pop rbp\n    ret\n"@);
                g14
            };
            g2
        },
        _ => {
            g
        },
    };
    g1
};
}

pub(crate) proof fn stmt_if_kept(origin: Asm, g: Asm, env: FnEnv, e: StmtView)
    requires
        kept(origin, g),
    ensures
        kept(origin, stmt_if(g, env, e)),
    decreases e, 2nat, 0nat,
{
    broadcast use ops;
    let r = {
    let g1 = match e {
        StmtView::If { cond, then, elifs, els } => {
            let (g2, end) = g.new_label("ifend"@);
            let (g3, next) = g2.new_label("ifnext"@);
            let g4 = cond_false(g3, env, cond, next);
            cond_false_kept(origin, g3, env, cond, next);
            let g5 = gen_stmts(g4, env, then, then.len());
            gen_stmts_kept(origin, g4, env, then, then.len());
            let g6 = g5.p("    jmp "@).p(end).p("\n"@).p(next).p(":\n"@);
            let g7 = gen_elifs(g6, env, elifs, elifs.len(), end);
            gen_elifs_kept(origin, g6, env, elifs, elifs.len(), end);
            let g8 = match els {
                Some(b) => {
                    let g9 = gen_stmts(g7, env, b, b.len());
                    gen_stmts_kept(origin, g7, env, b, b.len());
                    g9
                },
                None => {
                    g7
                },
            };
            let g10 = g8.p(end).p(":\n"@);
            g10
        },
        _ => {
            g
        },
    };
    g1
};
}

pub(crate) proof fn stmt_while_kept(origin: Asm, g: Asm, env: FnEnv, e: StmtView)
    requires
        kept(origin, g),
    ensures
        kept(origin, stmt_while(g, env, e)),
    decreases e, 2nat, 0nat,
{
    broadcast use ops;
    let r = {
    let g1 = match e {
        StmtView::While { cond, body } => {
            let names = float_names(g, env, body, body.len(), None, Some(cond));
            let (g2, held) = g.hold_floats(names, names.len());
            hold_floats_kept(origin, g, names, names.len());
            let (g3, top) = g2.new_label("wtop"@);
            let (g4, end) = g3.new_label("wend"@);
            let g5 = g4.p(top).p(":\n"@);
            let g6 = cond_false(g5, env, cond, end);
            cond_false_kept(origin, g5, env, cond, end);
            let g7 = if !no_alloc_block(body) {
                let g8 = g6.gc_poll();
                g8
            } else {
                g6
            };
            let g9 = g7.push_loop(top, end);
            pushed(g7, top, end);
            kept_self(g9);
            let g10 = gen_stmts(g9, env, body, body.len());
            gen_stmts_kept(g9, g9, env, body, body.len());
            let g11 = g10.pop_loop();
            loop_left(origin, g7, g9, g10);
            let g12 = g11.p("    jmp "@).p(top).p("\n"@).p(end).p(":\n"@);
            let g13 = g12.release_floats(held, held.len());
            release_floats_kept(origin, g12, held, held.len());
            g13
        },
        _ => {
            g
        },
    };
    g1
};
}

pub(crate) proof fn stmt_for_kept(origin: Asm, g: Asm, env: FnEnv, e: StmtView)
    requires
        kept(origin, g),
    ensures
        kept(origin, stmt_for(g, env, e)),
    decreases e, 2nat, 0nat,
{
    broadcast use ops;
    let r = {
    let g1 = match e {
        StmtView::For { var, iter, body } => {
            let g2 = match iter {
                ExprView::Range { lo, hi } => {
                    let (g3, fr) = g.range_regs();
                    let g4 = gen_expr(g3, env, *lo);
                    gen_expr_kept(origin, g3, env, *lo);
                    let g5 = g4.unbox_int();
                    let g6 = g5.set_counter(fr);
                    let g7 = gen_expr(g6, env, *hi);
                    gen_expr_kept(origin, g6, env, *hi);
                    let g8 = g7.unbox_int();
                    let g9 = g8.set_limit(fr);
                    let fnames = float_names(g9, env, body, body.len(), Some(var), None);
                    let inames = int_names(g9, env, body, body.len(), var);
                    let (g10, fo) = g9.range_open(
                        fr,
                        var,
                        env.raw_int.contains(var),
                        used_block(body, var),
                        assigns_block(body, var),
                        !no_alloc_block(body),
                        fnames,
                        inames,
                    );
                    range_opened(
                        origin,
                        g9,
                        fr,
                        var,
                        env.raw_int.contains(var),
                        used_block(body, var),
                        assigns_block(body, var),
                        !no_alloc_block(body),
                        fnames,
                        inames,
                    );
                    kept_self(g10);
                    let g11 = gen_stmts(g10, env, body, body.len());
                    gen_stmts_kept(g10, g10, env, body, body.len());
                    let g12 = g11.range_close(fr, fo, var);
                    range_closed(origin, g10, g11, fr, fo, var);
                    g12
                },
                _ => {
                    let g13 = gen_expr(g, env, iter);
                    gen_expr_kept(origin, g, env, iter);
                    let (g14, lo) = g13.list_open(var);
                    list_opened(origin, g13, var);
                    kept_self(g14);
                    let g15 = gen_stmts(g14, env, body, body.len());
                    gen_stmts_kept(g14, g14, env, body, body.len());
                    let g16 = g15.list_close(lo);
                    list_closed(origin, g14, g15, lo);
                    g16
                },
            };
            g2
        },
        _ => {
            g
        },
    };
    g1
};
}

pub(crate) proof fn stmt_break_kept(origin: Asm, g: Asm, env: FnEnv, e: StmtView)
    requires
        kept(origin, g),
    ensures
        kept(origin, stmt_break(g, env, e)),
    decreases e, 2nat, 0nat,
{
    broadcast use ops;
}

pub(crate) proof fn stmt_continue_kept(origin: Asm, g: Asm, env: FnEnv, e: StmtView)
    requires
        kept(origin, g),
    ensures
        kept(origin, stmt_continue(g, env, e)),
    decreases e, 2nat, 0nat,
{
    broadcast use ops;
}

pub(crate) proof fn stmt_raise_kept(origin: Asm, g: Asm, env: FnEnv, e: StmtView)
    requires
        kept(origin, g),
    ensures
        kept(origin, stmt_raise(g, env, e)),
    decreases e, 2nat, 0nat,
{
    broadcast use ops;
    let r = {
    let g1 = match e {
        StmtView::Raise(x) => {
            let g2 = gen_expr(g, env, x);
            gen_expr_kept(origin, g, env, x);
            let g3 = g2.p("    mov rcx, rax\n    call lumen_to_str\n"@);
            let g4 = g3.p("    mov rcx, rax\n    call lumen_raise\n"@);
            g4
        },
        _ => {
            g
        },
    };
    g1
};
}

pub(crate) proof fn stmt_try_kept(origin: Asm, g: Asm, env: FnEnv, e: StmtView)
    requires
        kept(origin, g),
    ensures
        kept(origin, stmt_try(g, env, e)),
    decreases e, 2nat, 0nat,
{
    broadcast use ops;
    let r = {
    let g1 = match e {
        StmtView::Try { body, catch_var, catch_body } => {
            let (g2, catch_lbl) = g.new_label("catch"@);
            let (g3, end_lbl) = g2.new_label("tryend"@);
            let g4 = g3.p("    call lumen_try_push\n"@);
            let g5 = g4.p("    mov rcx, rax\n"@);
            let g6 = g5.p("    call lumen_setjmp\n"@);
            let g7 = g6.p("    test eax, eax\n"@);
            let g8 = g7.p("    jnz "@).p(catch_lbl).p("\n"@);
            let g9 = gen_stmts(g8, env, body, body.len());
            gen_stmts_kept(origin, g8, env, body, body.len());
            let g10 = g9.p("    call lumen_try_pop\n"@);
            let g11 = g10.p("    jmp "@).p(end_lbl).p("\n"@);
            let g12 = g11.p(catch_lbl).p(":\n"@);
            let (g13, off) = g12.slot(catch_var);
            let g14 = g13.p("    call lumen_caught_msg\n"@);
            let g15 = g14.p("    mov [rbp"@).n(off as int).p("], rax\n"@);
            let g16 = gen_stmts(g15, env, catch_body, catch_body.len());
            gen_stmts_kept(origin, g15, env, catch_body, catch_body.len());
            let g17 = g16.p(end_lbl).p(":\n"@);
            g17
        },
        _ => {
            g
        },
    };
    g1
};
}

pub(crate) proof fn stmt_src_line_kept(origin: Asm, g: Asm, env: FnEnv, e: StmtView)
    requires
        kept(origin, g),
    ensures
        kept(origin, stmt_src_line(g, env, e)),
    decreases e, 2nat, 0nat,
{
    broadcast use ops;
}

pub(crate) proof fn gen_stmt_kept(origin: Asm, g: Asm, env: FnEnv, e: StmtView)
    requires
        kept(origin, g),
    ensures
        kept(origin, gen_stmt(g, env, e)),
    decreases e, 3nat, 0nat,
{
    broadcast use ops;
    let r = {
    let g1 = match e {
        StmtView::Let { .. } => {
            let g2 = stmt_let(g, env, e);
            stmt_let_kept(origin, g, env, e);
            g2
        },
        StmtView::Assign { .. } => {
            let g3 = stmt_assign(g, env, e);
            stmt_assign_kept(origin, g, env, e);
            g3
        },
        StmtView::ExprStmt(_) => {
            let g4 = stmt_expr_stmt(g, env, e);
            stmt_expr_stmt_kept(origin, g, env, e);
            g4
        },
        StmtView::Return(_) => {
            let g5 = stmt_return(g, env, e);
            stmt_return_kept(origin, g, env, e);
            g5
        },
        StmtView::If { .. } => {
            let g6 = stmt_if(g, env, e);
            stmt_if_kept(origin, g, env, e);
            g6
        },
        StmtView::While { .. } => {
            let g7 = stmt_while(g, env, e);
            stmt_while_kept(origin, g, env, e);
            g7
        },
        StmtView::For { .. } => {
            let g8 = stmt_for(g, env, e);
            stmt_for_kept(origin, g, env, e);
            g8
        },
        StmtView::Break => {
            let g9 = stmt_break(g, env, e);
            stmt_break_kept(origin, g, env, e);
            g9
        },
        StmtView::Continue => {
            let g10 = stmt_continue(g, env, e);
            stmt_continue_kept(origin, g, env, e);
            g10
        },
        StmtView::Raise(_) => {
            let g11 = stmt_raise(g, env, e);
            stmt_raise_kept(origin, g, env, e);
            g11
        },
        StmtView::Try { .. } => {
            let g12 = stmt_try(g, env, e);
            stmt_try_kept(origin, g, env, e);
            g12
        },
        StmtView::SrcLine(_) => {
            let g13 = stmt_src_line(g, env, e);
            stmt_src_line_kept(origin, g, env, e);
            g13
        },
    };
    g1
};
}

} // verus!
