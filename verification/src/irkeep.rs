//! The LLVM back end only adds to its text, and leaves the stack of loops as it found it.

use crate::asmquery::{field_name, runtime_op};
use crate::asmstate::{next64};
use crate::ast::{
    BinOp, Expr, ExprView, FStrPartView, Field, FieldView, StmtView, UnOp, wrap48_spec,
};
use crate::builtins::{lookup_spec};
use crate::irexpr::{
    args_text, box_bool, box_int, call_direct, call_input, call_len, call_one, call_print,
    call_quiet, call_range, call_struct, closure_caps, closure_open, comp_body, comp_push,
    eval_float, eval_int, expr_bool, expr_closure, expr_f_str, expr_field, expr_float, expr_ident,
    expr_if_else, expr_index, expr_int, expr_lambda, expr_list, expr_map_lit, expr_named_call,
    expr_nil, expr_range, expr_self_expr, expr_slice, expr_str, expr_unary, float_arith,
    float_test, fstr_parts, gc_poll, gen_binary, gen_call, gen_comp, gen_expr, gen_method,
    gen_truthy, indirect, int_arith, int_lit, int_test, list_begin, list_items, loop_step,
    map_entries, nil_value, print_parts, range_begin, range_list, range_needs, restore_slot,
    save_slot, set_entry, set_field, set_named, set_positional, struct_open, to_test, wrap_int,
};
use crate::irstate::{
    BinForm, Ir, IrCall, IrEnvView, IrLoopView, TestForm, bin_form, builtin_method, call_kind,
    double_text, fcc, float_ins_of, hex_text, icc, int_ins, ir_arity, ir_fields, method_owner,
    missing_field, module_name, named_arg, one_value_fn, ring_op, sanitized, stmts_alloc,
    test_form, with_arg,
};
use crate::irstmt::{
    assign_to, gen_elifs, gen_stmt, gen_stmts, stmt_assign, stmt_break, stmt_continue,
    stmt_expr_stmt, stmt_for, stmt_if, stmt_let, stmt_raise, stmt_return, stmt_src_line, stmt_try,
    stmt_while,
};
use crate::text::{dec, dec_nat};
use vstd::prelude::*;

verus! {

/// One word: no blank, no comma, no line end.
#[verifier::opaque]
pub open spec fn word(s: Seq<char>) -> bool {
    forall|i: int| 0 <= i < s.len() ==> #[trigger] s[i] != '\n' && s[i] != ',' && s[i] != ' '
}

/// What generating an expression keeps: the text so far, the loops that enclose it, whether
/// the block has ended, and that the operand with the value is one word.
#[verifier::opaque]
pub open spec fn kept(b: Ir, g: Ir) -> bool {
    &&& b.out.is_prefix_of(g.out)
    &&& g.loops == b.loops
    &&& g.term == b.term
    &&& word(b.val) ==> word(g.val)
}

pub(crate) proof fn numeral_word(n: nat)
    ensures
        word(dec_nat(n)),
    decreases n,
{
    reveal(word);
    if n >= 10 {
        numeral_word(n / 10);
        let a = dec_nat(n / 10);
        assert forall|i: int| 0 <= i < dec_nat(n).len() implies #[trigger] dec_nat(n)[i] != '\n'
            && dec_nat(n)[i] != ',' && dec_nat(n)[i] != ' ' by {
            if i < a.len() {
                assert(dec_nat(n)[i] == a[i]);
            }
        }
    }
}

pub(crate) broadcast proof fn number_word(n: int)
    ensures
        word(#[trigger] dec(n)),
{
    reveal(word);
    numeral_word(if n < 0 {
        (-n) as nat
    } else {
        n as nat
    });
    if n < 0 {
        let a = dec_nat((-n) as nat);
        assert forall|i: int| 0 <= i < dec(n).len() implies #[trigger] dec(n)[i] != '\n' && dec(
            n,
        )[i] != ',' && dec(n)[i] != ' ' by {
            if i > 0 {
                assert(dec(n)[i] == a[i - 1]);
            }
        }
    }
}

proof fn hex_word(n: nat, k: nat)
    ensures
        word(hex_text(n, k)),
    decreases k,
{
    reveal(word);
    if k > 0 {
        hex_word(n / 16, (k - 1) as nat);
        let a = hex_text(n / 16, (k - 1) as nat);
        let r = hex_text(n, k);
        assert forall|i: int| 0 <= i < r.len() implies #[trigger] r[i] != '\n' && r[i] != ',' && r[i]
            != ' ' by {
            if i < a.len() {
                assert(r[i] == a[i]);
            }
        }
    }
}

proof fn double_word(bits: u64)
    ensures
        word(double_text(bits)),
{
    reveal(word);
    hex_word(bits as nat, 16);
    reveal_strlit("0x");
    let a = hex_text(bits as nat, 16);
    let r = double_text(bits);
    assert forall|i: int| 0 <= i < r.len() implies #[trigger] r[i] != '\n' && r[i] != ',' && r[i]
        != ' ' by {
        if i >= 2 {
            assert(r[i] == a[i - 2]);
        }
    }
}

/// A new register is one word.
pub(crate) broadcast proof fn register_word(g: Ir)
    ensures
        word((#[trigger] g.vreg()).1),
{
    reveal(Ir::vreg);
    reveal(word);
    reveal_strlit("%v");
    let n = next64(g.tmp) as nat;
    numeral_word(n);
    let r = "%v"@ + dec_nat(n);
    assert forall|i: int| 0 <= i < r.len() implies #[trigger] r[i] != '\n' && r[i] != ',' && r[i]
        != ' ' by {
        if i >= 2 {
            assert(r[i] == dec_nat(n)[i - 2]);
        }
    }
}

/// A new label is one word.
pub(crate) proof fn label_word(g: Ir, base: Seq<char>)
    requires
        word(base),
    ensures
        word(g.label(base).1),
{
    reveal(Ir::label);
    reveal(word);
    let n = next64(g.lbl) as nat;
    numeral_word(n);
    let r = base + dec_nat(n);
    assert forall|i: int| 0 <= i < r.len() implies #[trigger] r[i] != '\n' && r[i] != ',' && r[i]
        != ' ' by {
        if i >= base.len() {
            assert(r[i] == dec_nat(n)[i - base.len()]);
        } else {
            assert(r[i] == base[i]);
        }
    }
}

/// What generating a statement keeps.
#[verifier::opaque]
pub open spec fn grown(b: Ir, g: Ir) -> bool {
    b.out.is_prefix_of(g.out) && g.loops == b.loops
}

pub(crate) proof fn kept_self(g: Ir)
    ensures
        kept(g, g),
{
    reveal(kept);
}

pub(crate) proof fn grown_self(g: Ir)
    ensures
        grown(g, g),
{
    reveal(grown);
}

pub(crate) proof fn grown_on(a: Ir, b: Ir, c: Ir)
    requires
        grown(a, b),
        kept(b, c),
    ensures
        grown(a, c),
{
    reveal(kept);
    reveal(grown);
    crate::coderun::part_of(c.out, a.out, b.out);
}

proof fn consts_same(g: Ir, fields: Seq<FieldView>)
    ensures
        g.field_consts(fields).0.out == g.out,
        g.field_consts(fields).0.loops == g.loops,
        g.field_consts(fields).0.term == g.term,
        g.field_consts(fields).0.val == g.val,
    decreases fields.len(),
{
    reveal(Ir::add_const);
    if fields.len() > 0 {
        consts_same(g, fields.drop_last());
    }
}

/// A loop that is left is gone from the stack.
proof fn loop_left(b: Ir, m: Ir, n: Ir, j: Ir)
    requires
        grown(b, m),
        m.out == n.out,
        n.loops.len() > 0,
        n.loops.drop_last() == m.loops,
        grown(n, j),
    ensures
        grown(b, j.pop_loop()),
{
    reveal(grown);
    reveal(Ir::pop_loop);
    crate::coderun::part_of(j.out, b.out, m.out);
}

pub(crate) proof fn pushed(m: Ir, cont: Seq<char>, brk: Seq<char>)
    ensures
        m.push_loop(cont, brk).out == m.out,
        m.push_loop(cont, brk).loops.len() > 0,
        m.push_loop(cont, brk).loops.drop_last() == m.loops,
        m.push_loop(cont, brk).loops.last() == (cont, brk),
{
    reveal(Ir::push_loop);
    assert(m.loops.push((cont, brk)).drop_last() =~= m.loops);
}

pub(crate) broadcast proof fn p_op(origin: Ir, g: Ir, s: Seq<char>)
    requires
        #[trigger] kept(origin, g),
    ensures
        kept(origin, (#[trigger] g.p(s))),
{
    reveal(kept);
    reveal(Ir::p);
}

pub(crate) broadcast proof fn n_op(origin: Ir, g: Ir, v: int)
    requires
        #[trigger] kept(origin, g),
    ensures
        kept(origin, (#[trigger] g.n(v))),
{
    reveal(kept);
    reveal(Ir::n);
}

pub(crate) broadcast proof fn u_op(origin: Ir, g: Ir, v: nat)
    requires
        #[trigger] kept(origin, g),
    ensures
        kept(origin, (#[trigger] g.u(v))),
{
    reveal(kept);
    reveal(Ir::u);
}

pub(crate) broadcast proof fn fail_op(origin: Ir, g: Ir, m: Seq<char>)
    requires
        #[trigger] kept(origin, g),
    ensures
        kept(origin, (#[trigger] g.fail(m))),
{
    reveal(kept);
    reveal(Ir::fail);
}

pub(crate) broadcast proof fn vreg_op(origin: Ir, g: Ir)
    requires
        #[trigger] kept(origin, g),
    ensures
        kept(origin, (#[trigger] g.vreg()).0),
{
    reveal(kept);
    reveal(Ir::vreg);
}

pub(crate) broadcast proof fn number_op(origin: Ir, g: Ir)
    requires
        #[trigger] kept(origin, g),
    ensures
        kept(origin, (#[trigger] g.number()).0),
{
    reveal(kept);
    reveal(Ir::number);
}

pub(crate) broadcast proof fn label_op(origin: Ir, g: Ir, base: Seq<char>)
    requires
        #[trigger] kept(origin, g),
    ensures
        kept(origin, (#[trigger] g.label(base)).0),
{
    reveal(kept);
    reveal(Ir::label);
}

pub(crate) broadcast proof fn give_op(origin: Ir, g: Ir, v: Seq<char>)
    requires
        #[trigger] kept(origin, g),
        word(v),
    ensures
        kept(origin, (#[trigger] g.give(v))),
{
    reveal(kept);
    reveal(Ir::give);
}

pub(crate) broadcast proof fn need_line_op(origin: Ir, g: Ir, sym: Seq<char>, line: Seq<char>)
    requires
        #[trigger] kept(origin, g),
    ensures
        kept(origin, (#[trigger] g.need_line(sym, line))),
{
    reveal(kept);
    reveal(Ir::need_line);
}

pub(crate) broadcast proof fn need_op(origin: Ir, g: Ir, sym: Seq<char>, sig: Seq<char>)
    requires
        #[trigger] kept(origin, g),
    ensures
        kept(origin, (#[trigger] g.need(sym, sig))),
{
    reveal(kept);
    reveal(Ir::need);
    reveal(Ir::need_line);
}

pub(crate) broadcast proof fn need_call_op(origin: Ir, g: Ir, sym: Seq<char>, n: nat)
    requires
        #[trigger] kept(origin, g),
    ensures
        kept(origin, (#[trigger] g.need_call(sym, n))),
{
    reveal(kept);
    reveal(Ir::need);
    reveal(Ir::need_call);
    reveal(Ir::need_line);
}

pub(crate) broadcast proof fn add_const_op(origin: Ir, g: Ir, base: Seq<char>, s: Seq<char>)
    requires
        #[trigger] kept(origin, g),
    ensures
        kept(origin, (#[trigger] g.add_const(base, s)).0),
{
    reveal(kept);
    reveal(Ir::add_const);
}

pub(crate) broadcast proof fn add_str_op(origin: Ir, g: Ir, s: Seq<char>)
    requires
        #[trigger] kept(origin, g),
    ensures
        kept(origin, (#[trigger] g.add_str(s)).0),
{
    reveal(kept);
    reveal(Ir::add_const);
    reveal(Ir::add_str);
}

pub(crate) broadcast proof fn field_table_op(origin: Ir, g: Ir, name: Seq<char>, fields: Seq<FieldView>)
    requires
        #[trigger] kept(origin, g),
    ensures
        kept(origin, (#[trigger] g.field_table(name, fields)).0),
{
    reveal(kept);
    reveal(Ir::field_table);
    consts_same(Ir { declared: g.declared.insert("@.fields."@ + sanitized(name)), ..g }, fields);
}

pub(crate) broadcast proof fn slot_op(origin: Ir, g: Ir, name: Seq<char>)
    requires
        #[trigger] kept(origin, g),
    ensures
        kept(origin, (#[trigger] g.slot(name)).0),
{
    reveal(kept);
    reveal(Ir::slot);
}

pub(crate) broadcast proof fn bind_local_op(origin: Ir, g: Ir, name: Seq<char>, slot: Seq<char>)
    requires
        #[trigger] kept(origin, g),
    ensures
        kept(origin, (#[trigger] g.bind_local(name, slot))),
{
    reveal(kept);
    reveal(Ir::bind_local);
}

pub(crate) broadcast proof fn p_grows(origin: Ir, g: Ir, s: Seq<char>)
    requires
        #[trigger] grown(origin, g),
    ensures
        grown(origin, (#[trigger] g.p(s))),
{
    reveal(grown);
    reveal(Ir::p);
}

pub(crate) broadcast proof fn n_grows(origin: Ir, g: Ir, v: int)
    requires
        #[trigger] grown(origin, g),
    ensures
        grown(origin, (#[trigger] g.n(v))),
{
    reveal(grown);
    reveal(Ir::n);
}

pub(crate) broadcast proof fn u_grows(origin: Ir, g: Ir, v: nat)
    requires
        #[trigger] grown(origin, g),
    ensures
        grown(origin, (#[trigger] g.u(v))),
{
    reveal(grown);
    reveal(Ir::u);
}

pub(crate) broadcast proof fn fail_grows(origin: Ir, g: Ir, m: Seq<char>)
    requires
        #[trigger] grown(origin, g),
    ensures
        grown(origin, (#[trigger] g.fail(m))),
{
    reveal(grown);
    reveal(Ir::fail);
}

pub(crate) broadcast proof fn vreg_grows(origin: Ir, g: Ir)
    requires
        #[trigger] grown(origin, g),
    ensures
        grown(origin, (#[trigger] g.vreg()).0),
{
    reveal(grown);
    reveal(Ir::vreg);
}

pub(crate) broadcast proof fn number_grows(origin: Ir, g: Ir)
    requires
        #[trigger] grown(origin, g),
    ensures
        grown(origin, (#[trigger] g.number()).0),
{
    reveal(grown);
    reveal(Ir::number);
}

pub(crate) broadcast proof fn label_grows(origin: Ir, g: Ir, base: Seq<char>)
    requires
        #[trigger] grown(origin, g),
    ensures
        grown(origin, (#[trigger] g.label(base)).0),
{
    reveal(grown);
    reveal(Ir::label);
}

pub(crate) broadcast proof fn give_grows(origin: Ir, g: Ir, v: Seq<char>)
    requires
        #[trigger] grown(origin, g),
    ensures
        grown(origin, (#[trigger] g.give(v))),
{
    reveal(grown);
    reveal(Ir::give);
}

pub(crate) broadcast proof fn need_line_grows(origin: Ir, g: Ir, sym: Seq<char>, line: Seq<char>)
    requires
        #[trigger] grown(origin, g),
    ensures
        grown(origin, (#[trigger] g.need_line(sym, line))),
{
    reveal(grown);
    reveal(Ir::need_line);
}

pub(crate) broadcast proof fn need_grows(origin: Ir, g: Ir, sym: Seq<char>, sig: Seq<char>)
    requires
        #[trigger] grown(origin, g),
    ensures
        grown(origin, (#[trigger] g.need(sym, sig))),
{
    reveal(grown);
    reveal(Ir::need);
    reveal(Ir::need_line);
}

pub(crate) broadcast proof fn need_call_grows(origin: Ir, g: Ir, sym: Seq<char>, n: nat)
    requires
        #[trigger] grown(origin, g),
    ensures
        grown(origin, (#[trigger] g.need_call(sym, n))),
{
    reveal(grown);
    reveal(Ir::need);
    reveal(Ir::need_call);
    reveal(Ir::need_line);
}

pub(crate) broadcast proof fn add_const_grows(origin: Ir, g: Ir, base: Seq<char>, s: Seq<char>)
    requires
        #[trigger] grown(origin, g),
    ensures
        grown(origin, (#[trigger] g.add_const(base, s)).0),
{
    reveal(grown);
    reveal(Ir::add_const);
}

pub(crate) broadcast proof fn add_str_grows(origin: Ir, g: Ir, s: Seq<char>)
    requires
        #[trigger] grown(origin, g),
    ensures
        grown(origin, (#[trigger] g.add_str(s)).0),
{
    reveal(grown);
    reveal(Ir::add_const);
    reveal(Ir::add_str);
}

pub(crate) broadcast proof fn field_table_grows(origin: Ir, g: Ir, name: Seq<char>, fields: Seq<FieldView>)
    requires
        #[trigger] grown(origin, g),
    ensures
        grown(origin, (#[trigger] g.field_table(name, fields)).0),
{
    reveal(grown);
    reveal(Ir::field_table);
    consts_same(Ir { declared: g.declared.insert("@.fields."@ + sanitized(name)), ..g }, fields);
}

pub(crate) broadcast proof fn slot_grows(origin: Ir, g: Ir, name: Seq<char>)
    requires
        #[trigger] grown(origin, g),
    ensures
        grown(origin, (#[trigger] g.slot(name)).0),
{
    reveal(grown);
    reveal(Ir::slot);
}

pub(crate) broadcast proof fn bind_local_grows(origin: Ir, g: Ir, name: Seq<char>, slot: Seq<char>)
    requires
        #[trigger] grown(origin, g),
    ensures
        grown(origin, (#[trigger] g.bind_local(name, slot))),
{
    reveal(grown);
    reveal(Ir::bind_local);
}

pub(crate) broadcast proof fn set_term_grows(origin: Ir, g: Ir, b: bool)
    requires
        #[trigger] grown(origin, g),
    ensures
        grown(origin, #[trigger] g.set_term(b)),
{
    reveal(grown);
    reveal(Ir::set_term);
}

pub(crate) broadcast group ops {
    p_op,
    n_op,
    u_op,
    fail_op,
    vreg_op,
    number_op,
    label_op,
    give_op,
    need_line_op,
    need_op,
    need_call_op,
    add_const_op,
    add_str_op,
    field_table_op,
    slot_op,
    bind_local_op,
    register_word,
    number_word,
}

pub(crate) broadcast group grows {
    p_grows,
    n_grows,
    u_grows,
    fail_grows,
    vreg_grows,
    number_grows,
    label_grows,
    give_grows,
    need_line_grows,
    need_grows,
    need_call_grows,
    add_const_grows,
    add_str_grows,
    field_table_grows,
    slot_grows,
    bind_local_grows,
    set_term_grows,
}

pub(crate) proof fn int_lit_kept(origin: Ir, g: Ir, env: IrEnvView, n: i64)
    requires
        kept(origin, g),
    ensures
        kept(origin, int_lit(g, env, n)),
{
    broadcast use ops;
}

pub(crate) proof fn nil_value_kept(origin: Ir, g: Ir, env: IrEnvView)
    requires
        kept(origin, g),
    ensures
        kept(origin, nil_value(g, env)),
{
    broadcast use ops;
}

pub(crate) proof fn wrap_int_kept(origin: Ir, g: Ir, env: IrEnvView)
    requires
        kept(origin, g),
    ensures
        kept(origin, wrap_int(g, env)),
{
    broadcast use ops;
}

pub(crate) proof fn box_int_kept(origin: Ir, g: Ir, env: IrEnvView)
    requires
        kept(origin, g),
    ensures
        kept(origin, box_int(g, env)),
{
    broadcast use ops;
}

pub(crate) proof fn box_bool_kept(origin: Ir, g: Ir, env: IrEnvView)
    requires
        kept(origin, g),
    ensures
        kept(origin, box_bool(g, env)),
{
    broadcast use ops;
}

pub(crate) proof fn to_test_kept(origin: Ir, g: Ir, env: IrEnvView)
    requires
        kept(origin, g),
    ensures
        kept(origin, to_test(g, env)),
{
    broadcast use ops;
}

pub(crate) proof fn gc_poll_kept(origin: Ir, g: Ir, env: IrEnvView)
    requires
        kept(origin, g),
    ensures
        kept(origin, gc_poll(g, env)),
{
    broadcast use ops;
}

pub(crate) proof fn range_begin_kept(origin: Ir, g: Ir, env: IrEnvView, var: Seq<char>, lov: Seq<char>, hiv: Seq<char>)
    requires
        kept(origin, g),
    ensures
        kept(origin, range_begin(g, env, var, lov, hiv).0),
{
    broadcast use ops;
}

pub(crate) proof fn list_begin_kept(origin: Ir, g: Ir, env: IrEnvView, var: Seq<char>, it: Seq<char>)
    requires
        kept(origin, g),
    ensures
        kept(origin, list_begin(g, env, var, it).0),
{
    broadcast use ops;
}

pub(crate) proof fn loop_step_kept(origin: Ir, g: Ir, env: IrEnvView, lp: IrLoopView)
    requires
        kept(origin, g),
    ensures
        kept(origin, loop_step(g, env, lp)),
{
    broadcast use ops;
}

pub(crate) proof fn range_list_kept(origin: Ir, g: Ir, env: IrEnvView, lov: Seq<char>, hiv: Seq<char>)
    requires
        kept(origin, g),
    ensures
        kept(origin, range_list(g, env, lov, hiv)),
{
    broadcast use ops;
    let (g1, lo_i) = g.vreg();
    let g2 = g1.p("  "@).p(lo_i).p(" = call i64 @lumen_to_int(i64 "@).p(lov).p(")\n"@);
    let (g3, hi_i) = g2.vreg();
    let g4 = g3.p("  "@).p(hi_i).p(" = call i64 @lumen_to_int(i64 "@).p(hiv).p(")\n"@);
    let (g5, lst) = g4.vreg();
    let g6 = g5.p("  "@).p(lst).p(" = call i64 @lumen_list_new(i64 0)\n"@);
    let (g7, lslot) = g6.vreg();
    let g8 = g7.p("  "@).p(lslot).p(" = alloca i64\n"@);
    let g9 = g8.p("  store i64 "@).p(lst).p(", ptr "@).p(lslot).p("\n"@);
    assert(kept(origin, g9));
    let (g10, islot) = g9.vreg();
    let g11 = g10.p("  "@).p(islot).p(" = alloca i64\n"@);
    let g12 = g11.p("  store i64 "@).p(lo_i).p(", ptr "@).p(islot).p("\n"@);
    let (g13, limslot) = g12.vreg();
    let g14 = g13.p("  "@).p(limslot).p(" = alloca i64\n"@);
    let g15 = g14.p("  store i64 "@).p(hi_i).p(", ptr "@).p(limslot).p("\n"@);
    assert(kept(origin, g15));
    let (g16, top) = g15.label("rtop"@);
    let (g17, body) = g16.label("rbody"@);
    let (g18, end) = g17.label("rend"@);
    let g19 = g18.p("  br label %"@).p(top).p("\n"@);
    let g20 = g19.p(top).p(":\n"@);
    assert(kept(origin, g20));
    let (g21, i) = g20.vreg();
    let g22 = g21.p("  "@).p(i).p(" = load i64, ptr "@).p(islot).p("\n"@);
    let (g23, lim) = g22.vreg();
    let g24 = g23.p("  "@).p(lim).p(" = load i64, ptr "@).p(limslot).p("\n"@);
    let (g25, t) = g24.vreg();
    let g26 = g25.p("  "@).p(t).p(" = icmp slt i64 "@).p(i).p(", "@).p(lim).p("\n"@);
    let g27 = g26.p("  br i1 "@).p(t).p(", label %"@).p(body).p(", label %"@).p(end).p("\n"@);
    let g28 = g27.p(body).p(":\n"@);
    assert(kept(origin, g28));
    let (g29, bx) = g28.vreg();
    let g30 = g29.p("  "@).p(bx).p(" = call i64 @lumen_from_int(i64 "@).p(i).p(")\n"@);
    let (g31, ll) = g30.vreg();
    let g32 = g31.p("  "@).p(ll).p(" = load i64, ptr "@).p(lslot).p("\n"@);
    let g33 = g32.p("  call void @lumen_list_push(i64 "@).p(ll).p(", i64 "@).p(bx).p(")\n"@);
    let (g34, i2) = g33.vreg();
    let g35 = g34.p("  "@).p(i2).p(" = add i64 "@).p(i).p(", 1\n"@);
    let g36 = g35.p("  store i64 "@).p(i2).p(", ptr "@).p(islot).p("\n"@);
    assert(kept(origin, g36));
    let g37 = g36.p("  br label %"@).p(top).p("\n"@);
    let g38 = g37.p(end).p(":\n"@);
    let (g39, r) = g38.vreg();
    let g40 = g39.p("  "@).p(r).p(" = load i64, ptr "@).p(lslot).p("\n"@);
    let g41 = g40.give(r);
    assert(kept(origin, g41));
}

pub(crate) proof fn range_needs_kept(origin: Ir, g: Ir, env: IrEnvView)
    requires
        kept(origin, g),
    ensures
        kept(origin, range_needs(g, env)),
{
    broadcast use ops;
}

pub(crate) proof fn closure_open_kept(origin: Ir, g: Ir, env: IrEnvView, name: Seq<char>, total: nat, user: nat, ncap: nat)
    requires
        kept(origin, g),
    ensures
        kept(origin, closure_open(g, env, name, total, user, ncap).0),
{
    broadcast use ops;
}

pub(crate) proof fn struct_open_kept(origin: Ir, g: Ir, env: IrEnvView, name: Seq<char>, fields: Seq<FieldView>)
    requires
        kept(origin, g),
    ensures
        kept(origin, struct_open(g, env, name, fields).0),
{
    broadcast use ops;
}

pub(crate) proof fn set_field_kept(origin: Ir, g: Ir, env: IrEnvView, svslot: Seq<char>, name: Seq<char>, v: Seq<char>)
    requires
        kept(origin, g),
    ensures
        kept(origin, set_field(g, env, svslot, name, v)),
{
    broadcast use ops;
}

pub(crate) proof fn args_text_kept(origin: Ir, g: Ir, env: IrEnvView, s: Seq<ExprView>, k: nat, first: Seq<char>)
    requires
        kept(origin, g),
    ensures
        kept(origin, args_text(g, env, s, k, first).0),
    decreases s, 9nat, k,
{
    broadcast use ops;
    let r = {
    if k == 0 || k > s.len() {
        (g, first)
    } else {
        let (g0, text) = args_text(g, env, s, (k - 1) as nat, first);
        args_text_kept(origin, g, env, s, (k - 1) as nat, first);
        let i = k - 1;
        let e = s[i];
        let g1 = gen_expr(g0, env, e);
        gen_expr_kept(origin, g0, env, e);
        let v = g1.val;
        (g1, with_arg(text, v))
    }
};
}

pub(crate) proof fn list_items_kept(origin: Ir, g: Ir, env: IrEnvView, s: Seq<ExprView>, k: nat, slot: Seq<char>)
    requires
        kept(origin, g),
    ensures
        kept(origin, list_items(g, env, s, k, slot)),
    decreases s, 9nat, k,
{
    broadcast use ops;
    let r = {
    if k == 0 || k > s.len() {
        g
    } else {
        let g0 = list_items(g, env, s, (k - 1) as nat, slot);
        list_items_kept(origin, g, env, s, (k - 1) as nat, slot);
        let i = k - 1;
        let e = s[i];
        let g1 = gen_expr(g0, env, e);
        gen_expr_kept(origin, g0, env, e);
        let v = g1.val;
        let (g2, l) = g1.vreg();
        let g3 = g2.p("  "@).p(l).p(" = load i64, ptr "@).p(slot).p("\n"@);
        let g4 = g3.p("  call void @lumen_list_push(i64 "@).p(l).p(", i64 "@).p(v).p(")\n"@);
        g4
    }
};
}

pub(crate) proof fn set_entry_kept(origin: Ir, g: Ir, env: IrEnvView, slot: Seq<char>, kv: Seq<char>, vv: Seq<char>)
    requires
        kept(origin, g),
    ensures
        kept(origin, set_entry(g, env, slot, kv, vv)),
{
    broadcast use ops;
}

pub(crate) proof fn map_entries_kept(origin: Ir, g: Ir, env: IrEnvView, s: Seq<(ExprView, ExprView)>, k: nat, slot: Seq<char>)
    requires
        kept(origin, g),
    ensures
        kept(origin, map_entries(g, env, s, k, slot)),
    decreases s, 9nat, k,
{
    broadcast use ops;
    let r = {
    if k == 0 || k > s.len() {
        g
    } else {
        let g0 = map_entries(g, env, s, (k - 1) as nat, slot);
        map_entries_kept(origin, g, env, s, (k - 1) as nat, slot);
        let i = k - 1;
        let (a, b) = s[i];
        let g1 = gen_expr(g0, env, a);
        gen_expr_kept(origin, g0, env, a);
        let kv = g1.val;
        let g2 = gen_expr(g1, env, b);
        gen_expr_kept(origin, g1, env, b);
        let vv = g2.val;
        let g3 = set_entry(g2, env, slot, kv, vv);
        set_entry_kept(origin, g2, env, slot, kv, vv);
        g3
    }
};
}

pub(crate) proof fn fstr_parts_kept(origin: Ir, g: Ir, env: IrEnvView, s: Seq<FStrPartView>, k: nat, slot: Seq<char>)
    requires
        kept(origin, g),
    ensures
        kept(origin, fstr_parts(g, env, s, k, slot)),
    decreases s, 9nat, k,
{
    broadcast use ops;
    let r = {
    if k == 0 || k > s.len() {
        g
    } else {
        let g0 = fstr_parts(g, env, s, (k - 1) as nat, slot);
        fstr_parts_kept(origin, g, env, s, (k - 1) as nat, slot);
        let i = k - 1;
        let part = s[i];
        let g1 = match part {
            FStrPartView::Lit(l) => {
                let (g2, c) = g0.add_str(l);
                let (g3, pp) = g2.vreg();
                let g4 = g3.p("  "@).p(pp).p(" = "@).p(c).p("\n"@);
                let (g5, r) = g4.vreg();
                let g6 = g5.p("  "@).p(r).p(" = call i64 @lumen_str_new(ptr "@).p(pp).p(")\n"@);
                let g7 = g6.give(r);
                g7
            },
            FStrPartView::Expr(x) => {
                let g8 = gen_expr(g0, env, x);
                gen_expr_kept(origin, g0, env, x);
                let v = g8.val;
                let (g9, r) = g8.vreg();
                let g10 = g9.p("  "@).p(r).p(" = call i64 @lumen_to_str(i64 "@).p(v).p(")\n"@);
                let g11 = g10.give(r);
                g11
            },
        };
        let piece = g1.val;
        let (g12, acc) = g1.vreg();
        let g13 = g12.p("  "@).p(acc).p(" = load i64, ptr "@).p(slot).p("\n"@);
        let (g14, cat) = g13.vreg();
        let g15 = g14.p("  "@).p(cat).p(" = call i64 @lumen_str_concat(i64 "@).p(acc)
            .p(", i64 "@).p(piece).p(")\n"@);
        let g16 = g15.p("  store i64 "@).p(cat).p(", ptr "@).p(slot).p("\n"@);
        g16
    }
};
}

pub(crate) proof fn print_parts_kept(origin: Ir, g: Ir, env: IrEnvView, s: Seq<ExprView>, k: nat)
    requires
        kept(origin, g),
    ensures
        kept(origin, print_parts(g, env, s, k)),
    decreases s, 9nat, k,
{
    broadcast use ops;
    let r = {
    if k == 0 || k > s.len() {
        g
    } else {
        let g0 = print_parts(g, env, s, (k - 1) as nat);
        print_parts_kept(origin, g, env, s, (k - 1) as nat);
        let i = k - 1;
        let e = s[i];
        let g1 = if i > 0 {
            let g2 = g0.p("  call void @lumen_print_space()\n"@);
            g2
        } else {
            g0
        };
        let g3 = gen_expr(g1, env, e);
        gen_expr_kept(origin, g1, env, e);
        let v = g3.val;
        let g4 = g3.p("  call void @lumen_print_part(i64 "@).p(v).p(")\n"@);
        g4
    }
};
}

pub(crate) proof fn closure_caps_kept(origin: Ir, g: Ir, env: IrEnvView, s: Seq<ExprView>, k: nat, slot: Seq<char>)
    requires
        kept(origin, g),
    ensures
        kept(origin, closure_caps(g, env, s, k, slot)),
    decreases s, 9nat, k,
{
    broadcast use ops;
    let r = {
    if k == 0 || k > s.len() {
        g
    } else {
        let g0 = closure_caps(g, env, s, (k - 1) as nat, slot);
        closure_caps_kept(origin, g, env, s, (k - 1) as nat, slot);
        let i = k - 1;
        let e = s[i];
        let g1 = gen_expr(g0, env, e);
        gen_expr_kept(origin, g0, env, e);
        let v = g1.val;
        let (g2, c) = g1.vreg();
        let g3 = g2.p("  "@).p(c).p(" = load i64, ptr "@).p(slot).p("\n"@);
        let g4 = g3.p("  call void @lumen_closure_set_cap(i64 "@).p(c).p(", i64 "@).u(i as nat)
            .p(", i64 "@).p(v).p(")\n"@);
        g4
    }
};
}

pub(crate) proof fn set_positional_kept(origin: Ir, g: Ir, env: IrEnvView, s: Seq<ExprView>, k: nat, slot: Seq<char>, fields: Seq<FieldView>)
    requires
        kept(origin, g),
    ensures
        kept(origin, set_positional(g, env, s, k, slot, fields)),
    decreases s, 9nat, k,
{
    broadcast use ops;
    let r = {
    if k == 0 || k > s.len() {
        g
    } else {
        let g0 = set_positional(g, env, s, (k - 1) as nat, slot, fields);
        set_positional_kept(origin, g, env, s, (k - 1) as nat, slot, fields);
        let i = k - 1;
        let e = s[i];
        let g1 = gen_expr(g0, env, e);
        gen_expr_kept(origin, g0, env, e);
        let v = g1.val;
        let name = field_name(fields, i as int);
        let g2 = set_field(g1, env, slot, name, v);
        set_field_kept(origin, g1, env, slot, name, v);
        g2
    }
};
}

pub(crate) proof fn int_arith_kept(origin: Ir, g: Ir, env: IrEnvView, e: ExprView)
    requires
        kept(origin, g),
    ensures
        kept(origin, int_arith(g, env, e)),
    decreases e, 1nat, 0nat,
{
    broadcast use ops;
    let r = {
    let g1 = match e {
        ExprView::Binary { op, lhs, rhs } => {
            let g2 = match int_ins(env, op, *lhs, *rhs) {
                Some(ins) => {
                    let g3 = eval_int(g, env, *lhs);
                    eval_int_kept(origin, g, env, *lhs);
                    let a = g3.val;
                    let g4 = eval_int(g3, env, *rhs);
                    eval_int_kept(origin, g3, env, *rhs);
                    let b = g4.val;
                    let (g5, r) = g4.vreg();
                    let g6 = g5.p("  "@).p(r).p(" = "@).p(ins).p(" i64 "@).p(a).p(", "@).p(b)
                        .p("\n"@);
                    let g7 = g6.give(r);
                    let g8 = if ring_op(op) {
                        let g9 = wrap_int(g7, env);
                        wrap_int_kept(origin, g7, env);
                        g9
                    } else {
                        g7
                    };
                    g8
                },
                None => {
                    g
                },
            };
            g2
        },
        _ => {
            g
        },
    };
    g1
};
}

pub(crate) proof fn int_test_kept(origin: Ir, g: Ir, env: IrEnvView, e: ExprView)
    requires
        kept(origin, g),
    ensures
        kept(origin, int_test(g, env, e)),
    decreases e, 1nat, 0nat,
{
    broadcast use ops;
    let r = {
    let g1 = match e {
        ExprView::Binary { op, lhs, rhs } => {
            let g2 = eval_int(g, env, *lhs);
            eval_int_kept(origin, g, env, *lhs);
            let a = g2.val;
            let g3 = eval_int(g2, env, *rhs);
            eval_int_kept(origin, g2, env, *rhs);
            let b = g3.val;
            let g4 = match icc(op) {
                Some(cc) => {
                    let (g5, r) = g3.vreg();
                    let g6 = g5.p("  "@).p(r).p(" = icmp "@).p(cc).p(" i64 "@).p(a).p(", "@)
                        .p(b).p("\n"@);
                    let g7 = g6.give(r);
                    g7
                },
                None => {
                    g3
                },
            };
            g4
        },
        _ => {
            g
        },
    };
    g1
};
}

pub(crate) proof fn eval_int_kept(origin: Ir, g: Ir, env: IrEnvView, e: ExprView)
    requires
        kept(origin, g),
    ensures
        kept(origin, eval_int(g, env, e)),
    decreases e, 6nat, 0nat,
{
    broadcast use ops;
    let r = {
    let g1 = match e {
        ExprView::Int(n) => {
            let t = dec(wrap48_spec(n as int));
            let g2 = g.give(t);
            g2
        },
        ExprView::Unary { op, expr } => {
            let g3 = if op == UnOp::Neg {
                let g4 = eval_int(g, env, *expr);
                eval_int_kept(origin, g, env, *expr);
                let a = g4.val;
                let (g5, r) = g4.vreg();
                let g6 = g5.p("  "@).p(r).p(" = sub i64 0, "@).p(a).p("\n"@);
                let g7 = g6.give(r);
                let g8 = wrap_int(g7, env);
                wrap_int_kept(origin, g7, env);
                g8
            } else {
                let g9 = gen_expr(g, env, e);
                gen_expr_kept(origin, g, env, e);
                let g10 = wrap_int(g9, env);
                wrap_int_kept(origin, g9, env);
                g10
            };
            g3
        },
        ExprView::Binary { op, lhs, rhs } => {
            let g11 = if int_ins(env, op, *lhs, *rhs) is Some {
                let g12 = int_arith(g, env, e);
                int_arith_kept(origin, g, env, e);
                g12
            } else {
                let g13 = gen_expr(g, env, e);
                gen_expr_kept(origin, g, env, e);
                let g14 = wrap_int(g13, env);
                wrap_int_kept(origin, g13, env);
                g14
            };
            g11
        },
        _ => {
            let g15 = gen_expr(g, env, e);
            gen_expr_kept(origin, g, env, e);
            let g16 = wrap_int(g15, env);
            wrap_int_kept(origin, g15, env);
            g16
        },
    };
    g1
};
}

pub(crate) proof fn float_arith_kept(origin: Ir, g: Ir, env: IrEnvView, e: ExprView)
    requires
        kept(origin, g),
    ensures
        kept(origin, float_arith(g, env, e)),
    decreases e, 1nat, 0nat,
{
    broadcast use ops;
    let r = {
    let g1 = match e {
        ExprView::Binary { op, lhs, rhs } => {
            let g2 = match float_ins_of(env, op, *lhs, *rhs) {
                Some(ins) => {
                    let g3 = eval_float(g, env, *lhs);
                    eval_float_kept(origin, g, env, *lhs);
                    let a = g3.val;
                    let g4 = eval_float(g3, env, *rhs);
                    eval_float_kept(origin, g3, env, *rhs);
                    let b = g4.val;
                    let (g5, r) = g4.vreg();
                    let g6 = g5.p("  "@).p(r).p(" = "@).p(ins).p(" double "@).p(a).p(", "@).p(b)
                        .p("\n"@);
                    let g7 = g6.give(r);
                    g7
                },
                None => {
                    g
                },
            };
            g2
        },
        _ => {
            g
        },
    };
    g1
};
}

pub(crate) proof fn float_test_kept(origin: Ir, g: Ir, env: IrEnvView, e: ExprView)
    requires
        kept(origin, g),
    ensures
        kept(origin, float_test(g, env, e)),
    decreases e, 1nat, 0nat,
{
    broadcast use ops;
    let r = {
    let g1 = match e {
        ExprView::Binary { op, lhs, rhs } => {
            let g2 = eval_float(g, env, *lhs);
            eval_float_kept(origin, g, env, *lhs);
            let a = g2.val;
            let g3 = eval_float(g2, env, *rhs);
            eval_float_kept(origin, g2, env, *rhs);
            let b = g3.val;
            let g4 = match fcc(op) {
                Some(cc) => {
                    let (g5, r) = g3.vreg();
                    let g6 = g5.p("  "@).p(r).p(" = fcmp "@).p(cc).p(" double "@).p(a).p(", "@)
                        .p(b).p("\n"@);
                    let g7 = g6.give(r);
                    g7
                },
                None => {
                    g3
                },
            };
            g4
        },
        _ => {
            g
        },
    };
    g1
};
}

pub(crate) proof fn eval_float_kept(origin: Ir, g: Ir, env: IrEnvView, e: ExprView)
    requires
        kept(origin, g),
    ensures
        kept(origin, eval_float(g, env, e)),
    decreases e, 6nat, 0nat,
{
    broadcast use ops;
    let r = {
    let g1 = match e {
        ExprView::Float(b) => {
            let t = double_text(b); double_word(b);
            let g2 = g.give(t);
            g2
        },
        ExprView::Unary { op, expr } => {
            let g3 = if op == UnOp::Neg {
                let g4 = eval_float(g, env, *expr);
                eval_float_kept(origin, g, env, *expr);
                let a = g4.val;
                let (g5, r) = g4.vreg();
                let g6 = g5.p("  "@).p(r).p(" = fneg double "@).p(a).p("\n"@);
                let g7 = g6.give(r);
                g7
            } else {
                let g8 = gen_expr(g, env, e);
                gen_expr_kept(origin, g, env, e);
                let v = g8.val;
                let (g9, r) = g8.vreg();
                let g10 = g9.p("  "@).p(r).p(" = bitcast i64 "@).p(v).p(" to double\n"@);
                let g11 = g10.give(r);
                g11
            };
            g3
        },
        ExprView::Binary { op, lhs, rhs } => {
            let g12 = if float_ins_of(env, op, *lhs, *rhs) is Some {
                let g13 = float_arith(g, env, e);
                float_arith_kept(origin, g, env, e);
                g13
            } else {
                let g14 = gen_expr(g, env, e);
                gen_expr_kept(origin, g, env, e);
                let v = g14.val;
                let (g15, r) = g14.vreg();
                let g16 = g15.p("  "@).p(r).p(" = bitcast i64 "@).p(v).p(" to double\n"@);
                let g17 = g16.give(r);
                g17
            };
            g12
        },
        _ => {
            let g18 = gen_expr(g, env, e);
            gen_expr_kept(origin, g, env, e);
            let v = g18.val;
            let (g19, r) = g18.vreg();
            let g20 = g19.p("  "@).p(r).p(" = bitcast i64 "@).p(v).p(" to double\n"@);
            let g21 = g20.give(r);
            g21
        },
    };
    g1
};
}

pub(crate) proof fn gen_truthy_kept(origin: Ir, g: Ir, env: IrEnvView, e: ExprView)
    requires
        kept(origin, g),
    ensures
        kept(origin, gen_truthy(g, env, e)),
    decreases e, 6nat, 0nat,
{
    broadcast use ops;
    let r = {
    let g1 = match test_form(env, e) {
        TestForm::Int => {
            let g2 = int_test(g, env, e);
            int_test_kept(origin, g, env, e);
            g2
        },
        TestForm::Float => {
            let g3 = float_test(g, env, e);
            float_test_kept(origin, g, env, e);
            g3
        },
        TestForm::Boxed => {
            let g4 = gen_expr(g, env, e);
            gen_expr_kept(origin, g, env, e);
            let g5 = to_test(g4, env);
            to_test_kept(origin, g4, env);
            g5
        },
    };
    g1
};
}

pub(crate) proof fn gen_binary_kept(origin: Ir, g: Ir, env: IrEnvView, e: ExprView)
    requires
        kept(origin, g),
    ensures
        kept(origin, gen_binary(g, env, e)),
    decreases e, 2nat, 0nat,
{
    broadcast use ops;
    let r = {
    let g1 = match e {
        ExprView::Binary { op, lhs, rhs } => {
            let g2 = match bin_form(env, op, *lhs, *rhs) {
                BinForm::Short => {
                    let (g3, slot) = g.vreg();
                    let g4 = g3.p("  "@).p(slot).p(" = alloca i64\n"@);
                    let g5 = gen_expr(g4, env, *lhs);
                    gen_expr_kept(origin, g4, env, *lhs);
                    let l = g5.val;
                    let g6 = g5.p("  store i64 "@).p(l).p(", ptr "@).p(slot).p("\n"@);
                    let g7 = g6.need("lumen_truthy"@, "i32 @lumen_truthy(i64)"@);
                    let (g8, t) = g7.vreg();
                    let g9 = g8.p("  "@).p(t).p(" = call i32 @lumen_truthy(i64 "@).p(l).p(")\n"@);
                    let (g10, c) = g9.vreg();
                    let g11 = g10.p("  "@).p(c).p(" = icmp ne i32 "@).p(t).p(", 0\n"@);
                    let (g12, rhsl) = g11.label("sc_rhs"@);
                    let (g13, end) = g12.label("sc_end"@);
                    let g14 = if op == BinOp::And {
                        let g15 = g13.p("  br i1 "@).p(c).p(", label %"@).p(rhsl)
                            .p(", label %"@).p(end).p("\n"@);
                        g15
                    } else {
                        let g16 = g13.p("  br i1 "@).p(c).p(", label %"@).p(end).p(", label %"@)
                            .p(rhsl).p("\n"@);
                        g16
                    };
                    let g17 = g14.p(rhsl).p(":\n"@);
                    let g18 = gen_expr(g17, env, *rhs);
                    gen_expr_kept(origin, g17, env, *rhs);
                    let rv = g18.val;
                    let g19 = g18.p("  store i64 "@).p(rv).p(", ptr "@).p(slot).p("\n"@);
                    let g20 = g19.p("  br label %"@).p(end).p("\n"@);
                    let g21 = g20.p(end).p(":\n"@);
                    let (g22, r) = g21.vreg();
                    let g23 = g22.p("  "@).p(r).p(" = load i64, ptr "@).p(slot).p("\n"@);
                    let g24 = g23.give(r);
                    g24
                },
                BinForm::Int => {
                    let g25 = int_arith(g, env, e);
                    int_arith_kept(origin, g, env, e);
                    let g26 = box_int(g25, env);
                    box_int_kept(origin, g25, env);
                    g26
                },
                BinForm::IntTest => {
                    let g27 = int_test(g, env, e);
                    int_test_kept(origin, g, env, e);
                    let g28 = box_bool(g27, env);
                    box_bool_kept(origin, g27, env);
                    g28
                },
                BinForm::Float => {
                    let g29 = float_arith(g, env, e);
                    float_arith_kept(origin, g, env, e);
                    let v = g29.val;
                    let (g30, r) = g29.vreg();
                    let g31 = g30.p("  "@).p(r).p(" = bitcast double "@).p(v).p(" to i64\n"@);
                    let g32 = g31.give(r);
                    g32
                },
                BinForm::FloatTest => {
                    let g33 = float_test(g, env, e);
                    float_test_kept(origin, g, env, e);
                    let g34 = box_bool(g33, env);
                    box_bool_kept(origin, g33, env);
                    g34
                },
                BinForm::Boxed => {
                    let g35 = gen_expr(g, env, *lhs);
                    gen_expr_kept(origin, g, env, *lhs);
                    let l = g35.val;
                    let g36 = gen_expr(g35, env, *rhs);
                    gen_expr_kept(origin, g35, env, *rhs);
                    let rv = g36.val;
                    let f = runtime_op(op);
                    let g37 = g36.need_call(f, 2);
                    let (g38, r) = g37.vreg();
                    let g39 = g38.p("  "@).p(r).p(" = call i64 @"@).p(f).p("(i64 "@).p(l)
                        .p(", i64 "@).p(rv).p(")\n"@);
                    let g40 = g39.give(r);
                    g40
                },
            };
            g2
        },
        _ => {
            g
        },
    };
    g1
};
}

pub(crate) proof fn indirect_kept(origin: Ir, g: Ir, env: IrEnvView, e: ExprView)
    requires
        kept(origin, g),
    ensures
        kept(origin, indirect(g, env, e)),
    decreases e, 1nat, 0nat,
{
    broadcast use ops;
    let r = {
    let g1 = match e {
        ExprView::Call { callee, args } => {
            let g2 = if args.len() > 4 {
                let g3 = g.fail("indirect call supports up to 4 args"@);
                g3
            } else {
                let g4 = gen_expr(g, env, *callee);
                gen_expr_kept(origin, g, env, *callee);
                let f = g4.val;
                let first = "i64 "@ + f;
                let (g5, sig) = args_text(g4, env, args, args.len(), first);
                args_text_kept(origin, g4, env, args, args.len(), first);
                let n = args.len();
                let sym = "lumen_call"@ + dec_nat(n as nat);
                let m = n + 1;
                let g6 = g5.need_call(sym, m);
                let (g7, r) = g6.vreg();
                let g8 = g7.p("  "@).p(r).p(" = call i64 @"@).p(sym).p("("@).p(sig).p(")\n"@);
                let g9 = g8.give(r);
                g9
            };
            g2
        },
        _ => {
            g
        },
    };
    g1
};
}

pub(crate) proof fn call_print_kept(origin: Ir, g: Ir, env: IrEnvView, e: ExprView)
    requires
        kept(origin, g),
    ensures
        kept(origin, call_print(g, env, e)),
    decreases e, 1nat, 0nat,
{
    broadcast use ops;
    let r = {
    let g1 = match e {
        ExprView::Call { callee: _, args } => {
            let g2 = if args.len() == 0 {
                let g3 = g.need("lumen_print_nl"@, "void @lumen_print_nl()"@);
                let g4 = g3.need("lumen_nil"@, "i64 @lumen_nil()"@);
                let g5 = g4.p("  call void @lumen_print_nl()\n"@);
                let g6 = nil_value(g5, env);
                nil_value_kept(origin, g5, env);
                g6
            } else {
                let g7 = if args.len() == 1 {
                    let g8 = g.need("lumen_print"@, "void @lumen_print(i64)"@);
                    let g9 = g8.need("lumen_nil"@, "i64 @lumen_nil()"@);
                    let g10 = gen_expr(g9, env, args[0]);
                    gen_expr_kept(origin, g9, env, args[0]);
                    let v = g10.val;
                    let g11 = g10.p("  call void @lumen_print(i64 "@).p(v).p(")\n"@);
                    let g12 = nil_value(g11, env);
                    nil_value_kept(origin, g11, env);
                    g12
                } else {
                    let g13 = g.need("lumen_print_part"@, "void @lumen_print_part(i64)"@);
                    let g14 = g13.need("lumen_print_space"@, "void @lumen_print_space()"@);
                    let g15 = g14.need("lumen_print_nl"@, "void @lumen_print_nl()"@);
                    let g16 = g15.need("lumen_nil"@, "i64 @lumen_nil()"@);
                    let g17 = print_parts(g16, env, args, args.len());
                    print_parts_kept(origin, g16, env, args, args.len());
                    let g18 = g17.p("  call void @lumen_print_nl()\n"@);
                    let g19 = nil_value(g18, env);
                    nil_value_kept(origin, g18, env);
                    g19
                };
                g7
            };
            g2
        },
        _ => {
            g
        },
    };
    g1
};
}

pub(crate) proof fn call_len_kept(origin: Ir, g: Ir, env: IrEnvView, e: ExprView)
    requires
        kept(origin, g),
    ensures
        kept(origin, call_len(g, env, e)),
    decreases e, 1nat, 0nat,
{
    broadcast use ops;
    let r = {
    let g1 = match e {
        ExprView::Call { callee: _, args } => {
            let g2 = if args.len() == 0 {
                let g3 = g.fail("missing argument"@);
                g3
            } else {
                let g4 = g.need("lumen_len"@, "i64 @lumen_len(i64)"@);
                let g5 = g4.need("lumen_from_int"@, "i64 @lumen_from_int(i64)"@);
                let g6 = gen_expr(g5, env, args[0]);
                gen_expr_kept(origin, g5, env, args[0]);
                let v = g6.val;
                let (g7, k) = g6.vreg();
                let g8 = g7.p("  "@).p(k).p(" = call i64 @lumen_len(i64 "@).p(v).p(")\n"@);
                let (g9, r) = g8.vreg();
                let g10 = g9.p("  "@).p(r).p(" = call i64 @lumen_from_int(i64 "@).p(k).p(")\n"@);
                let g11 = g10.give(r);
                g11
            };
            g2
        },
        _ => {
            g
        },
    };
    g1
};
}

pub(crate) proof fn call_range_kept(origin: Ir, g: Ir, env: IrEnvView, e: ExprView)
    requires
        kept(origin, g),
    ensures
        kept(origin, call_range(g, env, e)),
    decreases e, 1nat, 0nat,
{
    broadcast use ops;
    let r = {
    let g1 = match e {
        ExprView::Call { callee: _, args } => {
            let g2 = if args.len() == 1 {
                let g3 = range_needs(g, env);
                range_needs_kept(origin, g, env);
                let g4 = int_lit(g3, env, 0);
                int_lit_kept(origin, g3, env, 0);
                let lov = g4.val;
                let g5 = gen_expr(g4, env, args[0]);
                gen_expr_kept(origin, g4, env, args[0]);
                let hiv = g5.val;
                let g6 = range_list(g5, env, lov, hiv);
                range_list_kept(origin, g5, env, lov, hiv);
                g6
            } else {
                let g7 = if args.len() == 2 {
                    let g8 = range_needs(g, env);
                    range_needs_kept(origin, g, env);
                    let g9 = gen_expr(g8, env, args[0]);
                    gen_expr_kept(origin, g8, env, args[0]);
                    let lov = g9.val;
                    let g10 = gen_expr(g9, env, args[1]);
                    gen_expr_kept(origin, g9, env, args[1]);
                    let hiv = g10.val;
                    let g11 = range_list(g10, env, lov, hiv);
                    range_list_kept(origin, g10, env, lov, hiv);
                    g11
                } else {
                    let g12 = g.fail("range() takes 1 or 2 args"@);
                    g12
                };
                g7
            };
            g2
        },
        _ => {
            g
        },
    };
    g1
};
}

pub(crate) proof fn call_input_kept(origin: Ir, g: Ir, env: IrEnvView, e: ExprView)
    requires
        kept(origin, g),
    ensures
        kept(origin, call_input(g, env, e)),
    decreases e, 1nat, 0nat,
{
    broadcast use ops;
    let r = {
    let g1 = match e {
        ExprView::Call { callee: _, args } => {
            let g2 = g.need_call("lumen_input"@, 1);
            let g3 = g2.need("lumen_nil"@, "i64 @lumen_nil()"@);
            let g4 = if args.len() == 0 {
                let g5 = nil_value(g3, env);
                nil_value_kept(origin, g3, env);
                g5
            } else {
                let g6 = gen_expr(g3, env, args[0]);
                gen_expr_kept(origin, g3, env, args[0]);
                g6
            };
            let v = g4.val;
            let (g7, r) = g4.vreg();
            let g8 = g7.p("  "@).p(r).p(" = call i64 @lumen_input(i64 "@).p(v).p(")\n"@);
            let g9 = g8.give(r);
            g9
        },
        _ => {
            g
        },
    };
    g1
};
}

pub(crate) proof fn call_quiet_kept(origin: Ir, g: Ir, env: IrEnvView, e: ExprView, n: Seq<char>)
    requires
        kept(origin, g),
    ensures
        kept(origin, call_quiet(g, env, e, n)),
    decreases e, 1nat, 0nat,
{
    broadcast use ops;
    let r = {
    let g1 = match e {
        ExprView::Call { callee: _, args } => {
            let g2 = if args.len() == 0 {
                let g3 = g.fail("missing argument"@);
                g3
            } else {
                let sym = (if n == "assert"@ { "lumen_assert"@ } else { "lumen_release"@ });
                let sig = "void @"@ + sym + "(i64)"@;
                let g4 = g.need(sym, sig);
                let g5 = g4.need("lumen_nil"@, "i64 @lumen_nil()"@);
                let g6 = gen_expr(g5, env, args[0]);
                gen_expr_kept(origin, g5, env, args[0]);
                let v = g6.val;
                let g7 = g6.p("  call void @"@).p(sym).p("(i64 "@).p(v).p(")\n"@);
                let g8 = nil_value(g7, env);
                nil_value_kept(origin, g7, env);
                g8
            };
            g2
        },
        _ => {
            g
        },
    };
    g1
};
}

pub(crate) proof fn call_one_kept(origin: Ir, g: Ir, env: IrEnvView, e: ExprView, n: Seq<char>)
    requires
        kept(origin, g),
    ensures
        kept(origin, call_one(g, env, e, n)),
    decreases e, 1nat, 0nat,
{
    broadcast use ops;
    let r = {
    let g1 = match e {
        ExprView::Call { callee: _, args } => {
            let g2 = if args.len() == 0 {
                let g3 = g.fail("missing argument"@);
                g3
            } else {
                let g4 = match one_value_fn(n) {
                    Some(sym) => {
                        let g5 = g.need_call(sym, 1);
                        let g6 = gen_expr(g5, env, args[0]);
                        gen_expr_kept(origin, g5, env, args[0]);
                        let v = g6.val;
                        let (g7, r) = g6.vreg();
                        let g8 = g7.p("  "@).p(r).p(" = call i64 @"@).p(sym).p("(i64 "@).p(v)
                            .p(")\n"@);
                        let g9 = g8.give(r);
                        g9
                    },
                    None => {
                        g
                    },
                };
                g4
            };
            g2
        },
        _ => {
            g
        },
    };
    g1
};
}

pub(crate) proof fn call_struct_kept(origin: Ir, g: Ir, env: IrEnvView, e: ExprView, n: Seq<char>)
    requires
        kept(origin, g),
    ensures
        kept(origin, call_struct(g, env, e, n)),
    decreases e, 1nat, 0nat,
{
    broadcast use ops;
    let r = {
    let g1 = match e {
        ExprView::Call { callee: _, args } => {
            let g2 = match ir_fields(env, n) {
                Some(fields) => {
                    let (g3, slot) = struct_open(g, env, n, fields);
                    struct_open_kept(origin, g, env, n, fields);
                    let g4 = set_positional(
                        g3,
                        env,
                        args,
                        (if args.len() <= fields.len() { args.len() } else { fields.len() }),
                        slot,
                        fields,
                    );
                    set_positional_kept(
                        origin,
                        g3,
                        env,
                        args,
                        (if args.len() <= fields.len() { args.len() } else { fields.len() }),
                        slot,
                        fields,
                    );
                    let (g5, r) = g4.vreg();
                    let g6 = g5.p("  "@).p(r).p(" = load i64, ptr "@).p(slot).p("\n"@);
                    let g7 = g6.give(r);
                    g7
                },
                None => {
                    g
                },
            };
            g2
        },
        _ => {
            g
        },
    };
    g1
};
}

pub(crate) proof fn call_direct_kept(origin: Ir, g: Ir, env: IrEnvView, e: ExprView, n: Seq<char>)
    requires
        kept(origin, g),
    ensures
        kept(origin, call_direct(g, env, e, n)),
    decreases e, 1nat, 0nat,
{
    broadcast use ops;
    let r = {
    let g1 = match e {
        ExprView::Call { callee: _, args } => {
            let sym = "lm_"@ + n;
            let (g2, sig) = args_text(g, env, args, args.len(), ""@);
            args_text_kept(origin, g, env, args, args.len(), ""@);
            let k = args.len();
            let g3 = g2.need_call(sym, k);
            let (g4, r) = g3.vreg();
            let g5 = g4.p("  "@).p(r).p(" = call i64 @"@).p(sym).p("("@).p(sig).p(")\n"@);
            let g6 = g5.give(r);
            g6
        },
        _ => {
            g
        },
    };
    g1
};
}

pub(crate) proof fn gen_call_kept(origin: Ir, g: Ir, env: IrEnvView, e: ExprView)
    requires
        kept(origin, g),
    ensures
        kept(origin, gen_call(g, env, e)),
    decreases e, 2nat, 0nat,
{
    broadcast use ops;
    let r = {
    let g1 = match e {
        ExprView::Call { callee, args } => {
            let g2 = match *callee {
                ExprView::Ident(n) => {
                    let g3 = match call_kind(g, env, n) {
                        IrCall::Value => {
                            let g4 = indirect(g, env, e);
                            indirect_kept(origin, g, env, e);
                            g4
                        },
                        IrCall::Print => {
                            let g5 = call_print(g, env, e);
                            call_print_kept(origin, g, env, e);
                            g5
                        },
                        IrCall::Len => {
                            let g6 = call_len(g, env, e);
                            call_len_kept(origin, g, env, e);
                            g6
                        },
                        IrCall::Range => {
                            let g7 = call_range(g, env, e);
                            call_range_kept(origin, g, env, e);
                            g7
                        },
                        IrCall::Input => {
                            let g8 = call_input(g, env, e);
                            call_input_kept(origin, g, env, e);
                            g8
                        },
                        IrCall::Quiet => {
                            let g9 = call_quiet(g, env, e, n);
                            call_quiet_kept(origin, g, env, e, n);
                            g9
                        },
                        IrCall::One => {
                            let g10 = call_one(g, env, e, n);
                            call_one_kept(origin, g, env, e, n);
                            g10
                        },
                        IrCall::Struct => {
                            let g11 = call_struct(g, env, e, n);
                            call_struct_kept(origin, g, env, e, n);
                            g11
                        },
                        IrCall::Extern => {
                            let g12 = g.fail(
                                "LLVM backend: extern/FFI not yet supported (use --backend asm)"@,
                            );
                            g12
                        },
                        IrCall::Direct => {
                            let g13 = call_direct(g, env, e, n);
                            call_direct_kept(origin, g, env, e, n);
                            g13
                        },
                        IrCall::Unknown => {
                            let m = "undefined function '"@ + n + "'"@;
                            let g14 = g.fail(m);
                            g14
                        },
                    };
                    g3
                },
                _ => {
                    let g15 = indirect(g, env, e);
                    indirect_kept(origin, g, env, e);
                    g15
                },
            };
            g2
        },
        _ => {
            g
        },
    };
    g1
};
}

pub(crate) proof fn gen_method_kept(origin: Ir, g: Ir, env: IrEnvView, e: ExprView)
    requires
        kept(origin, g),
    ensures
        kept(origin, gen_method(g, env, e)),
    decreases e, 2nat, 0nat,
{
    broadcast use ops;
    let r = {
    let g1 = match e {
        ExprView::Method { obj, name, args } => {
            let g2 = match module_name(*obj) {
                Some(md) => {
                    let g3 = match lookup_spec(md, name, 0) {
                        Some(bf) => {
                            let sym = bf.symbol;
                            let (g4, sig) = args_text(g, env, args, args.len(), ""@);
                            args_text_kept(origin, g, env, args, args.len(), ""@);
                            let k = args.len();
                            let g5 = g4.need_call(sym, k);
                            let (g6, r) = g5.vreg();
                            let g7 = g6.p("  "@).p(r).p(" = call i64 @"@).p(sym).p("("@).p(sig)
                                .p(")\n"@);
                            let g8 = g7.give(r);
                            g8
                        },
                        None => {
                            let m = "native "@ + md + ": no fn '"@ + name + "'"@;
                            let g9 = g.fail(m);
                            g9
                        },
                    };
                    g3
                },
                None => {
                    let g10 = match method_owner(env.methods, name, 0) {
                        Some(owner) => {
                            let g11 = gen_expr(g, env, *obj);
                            gen_expr_kept(origin, g, env, *obj);
                            let recv = g11.val;
                            let first = "i64 "@ + recv;
                            let (g12, sig) = args_text(g11, env, args, args.len(), first);
                            args_text_kept(origin, g11, env, args, args.len(), first);
                            let sym = "lm_"@ + owner + "__"@ + name;
                            let k = next64(args.len() as u64) as nat;
                            let g13 = g12.need_call(sym, k);
                            let (g14, r) = g13.vreg();
                            let g15 = g14.p("  "@).p(r).p(" = call i64 @"@).p(sym).p("("@)
                                .p(sig).p(")\n"@);
                            let g16 = g15.give(r);
                            g16
                        },
                        None => {
                            let g17 = if name == "get"@ {
                                let g18 = gen_expr(g, env, *obj);
                                gen_expr_kept(origin, g, env, *obj);
                                let recv = g18.val;
                                let first = "i64 "@ + recv;
                                let (g19, sig) = args_text(g18, env, args, args.len(), first);
                                args_text_kept(origin, g18, env, args, args.len(), first);
                                let sym = (
                                    if args.len() == 2 { "lumen_map_get_or"@ } else { "lumen_map_get"@ }
                                );
                                let k = next64(args.len() as u64) as nat;
                                let g20 = g19.need_call(sym, k);
                                let (g21, r) = g20.vreg();
                                let g22 = g21.p("  "@).p(r).p(" = call i64 @"@).p(sym).p("("@)
                                    .p(sig).p(")\n"@);
                                let g23 = g22.give(r);
                                g23
                            } else {
                                let g24 = if name == "len"@ && args.len() == 0 {
                                    let g25 = g.need("lumen_len"@, "i64 @lumen_len(i64)"@);
                                    let g26 = g25.need(
                                        "lumen_from_int"@,
                                        "i64 @lumen_from_int(i64)"@,
                                    );
                                    let g27 = gen_expr(g26, env, *obj);
                                    gen_expr_kept(origin, g26, env, *obj);
                                    let v = g27.val;
                                    let (g28, k) = g27.vreg();
                                    let g29 = g28.p("  "@).p(k)
                                        .p(" = call i64 @lumen_len(i64 "@).p(v).p(")\n"@);
                                    let (g30, r) = g29.vreg();
                                    let g31 = g30.p("  "@).p(r)
                                        .p(" = call i64 @lumen_from_int(i64 "@).p(k).p(")\n"@);
                                    let g32 = g31.give(r);
                                    g32
                                } else {
                                    let g33 = gen_expr(g, env, *obj);
                                    gen_expr_kept(origin, g, env, *obj);
                                    let recv = g33.val;
                                    let first = "i64 "@ + recv;
                                    let g34 = match builtin_method(name) {
                                        Some(sym) => {
                                            let k = next64(args.len() as u64) as nat;
                                            let g35 = g33.need_call(sym, k);
                                            let (g36, sig) = args_text(
                                                g35,
                                                env,
                                                args,
                                                args.len(),
                                                first,
                                            );
                                            args_text_kept(
                                                origin,
                                                g35,
                                                env,
                                                args,
                                                args.len(),
                                                first,
                                            );
                                            let (g37, r) = g36.vreg();
                                            let g38 = g37.p("  "@).p(r).p(" = call i64 @"@)
                                                .p(sym).p("("@).p(sig).p(")\n"@);
                                            let g39 = g38.give(r);
                                            g39
                                        },
                                        None => {
                                            let m = "unknown method '"@ + name + "'"@;
                                            let g40 = g33.fail(m);
                                            g40
                                        },
                                    };
                                    g34
                                };
                                g24
                            };
                            g17
                        },
                    };
                    g10
                },
            };
            g2
        },
        _ => {
            g
        },
    };
    g1
};
}

pub(crate) proof fn comp_push_kept(origin: Ir, g: Ir, env: IrEnvView, e: ExprView, slot: Seq<char>)
    requires
        kept(origin, g),
    ensures
        kept(origin, comp_push(g, env, e, slot)),
    decreases e, 7nat, 0nat,
{
    broadcast use ops;
    let r = {
    let g1 = match method_owner(env.methods, "push"@, 0) {
        Some(owner) => {
            let (g2, recv) = g.vreg();
            let g3 = g2.p("  "@).p(recv).p(" = load i64, ptr "@).p(slot).p("\n"@);
            let g4 = gen_expr(g3, env, e);
            gen_expr_kept(origin, g3, env, e);
            let v = g4.val;
            let sym = "lm_"@ + owner + "__push"@;
            let g5 = g4.need_call(sym, 2);
            let (g6, r) = g5.vreg();
            let g7 = g6.p("  "@).p(r).p(" = call i64 @"@).p(sym).p("(i64 "@).p(recv)
                .p(", i64 "@).p(v).p(")\n"@);
            let g8 = g7.give(r);
            g8
        },
        None => {
            let (g9, recv) = g.vreg();
            let g10 = g9.p("  "@).p(recv).p(" = load i64, ptr "@).p(slot).p("\n"@);
            let g11 = g10.need_call("lumen_list_push"@, 2);
            let g12 = gen_expr(g11, env, e);
            gen_expr_kept(origin, g11, env, e);
            let v = g12.val;
            let (g13, r) = g12.vreg();
            let g14 = g13.p("  "@).p(r).p(" = call i64 @lumen_list_push(i64 "@).p(recv)
                .p(", i64 "@).p(v).p(")\n"@);
            let g15 = g14.give(r);
            g15
        },
    };
    g1
};
}

pub(crate) proof fn comp_body_kept(origin: Ir, g: Ir, env: IrEnvView, e: ExprView, slot: Seq<char>)
    requires
        kept(origin, g),
    ensures
        kept(origin, comp_body(g, env, e, slot)),
    decreases e, 1nat, 0nat,
{
    broadcast use ops;
    let r = {
    let g1 = match e {
        ExprView::ListComp { elem, var: _, iter: _, cond } => {
            let g2 = gc_poll(g, env);
            gc_poll_kept(origin, g, env);
            let g3 = match cond {
                Some(c) => {
                    let (g4, end) = g2.label("ifend"@);
                    let (g5, thenl) = g4.label("then"@);
                    let (g6, nextl) = g5.label("next"@);
                    let g7 = gen_truthy(g6, env, *c);
                    gen_truthy_kept(origin, g6, env, *c);
                    let cv = g7.val;
                    let g8 = g7.p("  br i1 "@).p(cv).p(", label %"@).p(thenl).p(", label %"@)
                        .p(nextl).p("\n"@);
                    let g9 = g8.p(thenl).p(":\n"@);
                    let g10 = comp_push(g9, env, *elem, slot);
                    comp_push_kept(origin, g9, env, *elem, slot);
                    let g11 = g10.p("  br label %"@).p(end).p("\n"@);
                    let g12 = g11.p(nextl).p(":\n"@);
                    let g13 = g12.p("  br label %"@).p(end).p("\n"@);
                    let g14 = g13.p(end).p(":\n"@);
                    g14
                },
                None => {
                    let g15 = comp_push(g2, env, *elem, slot);
                    comp_push_kept(origin, g2, env, *elem, slot);
                    g15
                },
            };
            g3
        },
        _ => {
            g
        },
    };
    g1
};
}

pub(crate) proof fn save_slot_kept(origin: Ir, g: Ir, var: Seq<char>)
    requires
        kept(origin, g),
    ensures
        kept(origin, save_slot(g, var).0),
{
    broadcast use ops;
}

pub(crate) proof fn restore_slot_kept(origin: Ir, g: Ir, saved: Option<(Seq<char>, Seq<char>)>)
    requires
        kept(origin, g),
    ensures
        kept(origin, restore_slot(g, saved)),
{
    broadcast use ops;
}

pub(crate) proof fn gen_comp_kept(origin: Ir, g: Ir, env: IrEnvView, e: ExprView)
    requires
        kept(origin, g),
    ensures
        kept(origin, gen_comp(g, env, e)),
    decreases e, 2nat, 0nat,
{
    broadcast use ops;
    let r = {
    let g1 = match e {
        ExprView::ListComp { elem: _, var, iter, cond: _ } => {
            let g2 = g.need("lumen_list_new"@, "i64 @lumen_list_new(i64)"@);
            let (g3, k) = g2.number();
            let acc = "__lc_acc_"@ + dec_nat(k as nat);
            let (g4, lst) = g3.vreg();
            let g5 = g4.p("  "@).p(lst).p(" = call i64 @lumen_list_new(i64 0)\n"@);
            let plain = sanitized(acc);
            let slot = "%l."@ + plain;
            let g6 = g5.p("  "@).p(slot).p(" = alloca i64\n"@);
            let g7 = g6.p("  store i64 "@).p(lst).p(", ptr "@).p(slot).p("\n"@);
            let g7b = g7.bind_local(acc, slot);
            let (g8, saved) = save_slot(g7b, var);
            save_slot_kept(origin, g7b, var);
            let g9 = match *iter {
                ExprView::Range { lo, hi } => {
                    let g10 = g8.need("lumen_to_int"@, "i64 @lumen_to_int(i64)"@);
                    let g11 = g10.need("lumen_from_int"@, "i64 @lumen_from_int(i64)"@);
                    let g12 = gen_expr(g11, env, *lo);
                    gen_expr_kept(origin, g11, env, *lo);
                    let lov = g12.val;
                    let g13 = gen_expr(g12, env, *hi);
                    gen_expr_kept(origin, g12, env, *hi);
                    let hiv = g13.val;
                    let (g14, lp) = range_begin(g13, env, var, lov, hiv);
                    range_begin_kept(origin, g13, env, var, lov, hiv);
                    let g15 = comp_body(g14, env, e, slot);
                    comp_body_kept(origin, g14, env, e, slot);
                    let cont = lp.cont;
                    let g16 = g15.p("  br label %"@).p(cont).p("\n"@);
                    let g17 = loop_step(g16, env, lp);
                    loop_step_kept(origin, g16, env, lp);
                    g17
                },
                _ => {
                    let g18 = g8.need("lumen_iter_prep"@, "i64 @lumen_iter_prep(i64)"@);
                    let g19 = g18.need("lumen_len"@, "i64 @lumen_len(i64)"@);
                    let g20 = g19.need("lumen_list_get"@, "i64 @lumen_list_get(i64, i64)"@);
                    let g21 = gen_expr(g20, env, *iter);
                    gen_expr_kept(origin, g20, env, *iter);
                    let it = g21.val;
                    let (g22, lp) = list_begin(g21, env, var, it);
                    list_begin_kept(origin, g21, env, var, it);
                    let g23 = comp_body(g22, env, e, slot);
                    comp_body_kept(origin, g22, env, e, slot);
                    let cont = lp.cont;
                    let g24 = g23.p("  br label %"@).p(cont).p("\n"@);
                    let g25 = loop_step(g24, env, lp);
                    loop_step_kept(origin, g24, env, lp);
                    g25
                },
            };
            let g25b = restore_slot(g9, saved);
            restore_slot_kept(origin, g9, saved);
            let (g26, r) = g25b.vreg();
            let g27 = g26.p("  "@).p(r).p(" = load i64, ptr "@).p(slot).p("\n"@);
            let g28 = g27.give(r);
            g28
        },
        _ => {
            g
        },
    };
    g1
};
}

pub(crate) proof fn expr_int_kept(origin: Ir, g: Ir, env: IrEnvView, e: ExprView)
    requires
        kept(origin, g),
    ensures
        kept(origin, expr_int(g, env, e)),
    decreases e, 3nat, 0nat,
{
    broadcast use ops;
    let r = {
    let g1 = match e {
        ExprView::Int(n) => {
            let g2 = int_lit(g, env, n);
            int_lit_kept(origin, g, env, n);
            g2
        },
        _ => {
            g
        },
    };
    g1
};
}

pub(crate) proof fn expr_float_kept(origin: Ir, g: Ir, env: IrEnvView, e: ExprView)
    requires
        kept(origin, g),
    ensures
        kept(origin, expr_float(g, env, e)),
    decreases e, 3nat, 0nat,
{
    broadcast use ops;
}

pub(crate) proof fn expr_bool_kept(origin: Ir, g: Ir, env: IrEnvView, e: ExprView)
    requires
        kept(origin, g),
    ensures
        kept(origin, expr_bool(g, env, e)),
    decreases e, 3nat, 0nat,
{
    broadcast use ops;
}

pub(crate) proof fn expr_nil_kept(origin: Ir, g: Ir, env: IrEnvView, e: ExprView)
    requires
        kept(origin, g),
    ensures
        kept(origin, expr_nil(g, env, e)),
    decreases e, 3nat, 0nat,
{
    broadcast use ops;
    let r = {
    let g1 = match e {
        ExprView::Nil => {
            let g2 = g.need("lumen_nil"@, "i64 @lumen_nil()"@);
            let g3 = nil_value(g2, env);
            nil_value_kept(origin, g2, env);
            g3
        },
        _ => {
            g
        },
    };
    g1
};
}

pub(crate) proof fn expr_str_kept(origin: Ir, g: Ir, env: IrEnvView, e: ExprView)
    requires
        kept(origin, g),
    ensures
        kept(origin, expr_str(g, env, e)),
    decreases e, 3nat, 0nat,
{
    broadcast use ops;
}

pub(crate) proof fn expr_f_str_kept(origin: Ir, g: Ir, env: IrEnvView, e: ExprView)
    requires
        kept(origin, g),
    ensures
        kept(origin, expr_f_str(g, env, e)),
    decreases e, 3nat, 0nat,
{
    broadcast use ops;
    let r = {
    let g1 = match e {
        ExprView::FStr(ps) => {
            let g2 = g.need("lumen_str_new"@, "i64 @lumen_str_new(ptr)"@);
            let g3 = g2.need("lumen_str_concat"@, "i64 @lumen_str_concat(i64, i64)"@);
            let g4 = g3.need("lumen_to_str"@, "i64 @lumen_to_str(i64)"@);
            let (g5, c) = g4.add_str(""@);
            let (g6, ep) = g5.vreg();
            let g7 = g6.p("  "@).p(ep).p(" = "@).p(c).p("\n"@);
            let (g8, acc0) = g7.vreg();
            let g9 = g8.p("  "@).p(acc0).p(" = call i64 @lumen_str_new(ptr "@).p(ep).p(")\n"@);
            let (g10, slot) = g9.vreg();
            let g11 = g10.p("  "@).p(slot).p(" = alloca i64\n"@);
            let g12 = g11.p("  store i64 "@).p(acc0).p(", ptr "@).p(slot).p("\n"@);
            let g13 = fstr_parts(g12, env, ps, ps.len(), slot);
            fstr_parts_kept(origin, g12, env, ps, ps.len(), slot);
            let (g14, r) = g13.vreg();
            let g15 = g14.p("  "@).p(r).p(" = load i64, ptr "@).p(slot).p("\n"@);
            let g16 = g15.give(r);
            g16
        },
        _ => {
            g
        },
    };
    g1
};
}

pub(crate) proof fn expr_ident_kept(origin: Ir, g: Ir, env: IrEnvView, e: ExprView)
    requires
        kept(origin, g),
    ensures
        kept(origin, expr_ident(g, env, e)),
    decreases e, 3nat, 0nat,
{
    broadcast use ops;
    let r = {
    let g1 = match e {
        ExprView::Ident(n) => {
            let g2 = match g.local_of(n) {
                Some(slot) => {
                    let (g3, r) = g.vreg();
                    let g4 = g3.p("  "@).p(r).p(" = load i64, ptr "@).p(slot).p("\n"@);
                    let g5 = g4.give(r);
                    g5
                },
                None => {
                    let g6 = match ir_arity(env, n) {
                        Some(total) => {
                            let (g7, cs) = closure_open(g, env, n, total, total, 0);
                            closure_open_kept(origin, g, env, n, total, total, 0);
                            let (g8, r) = g7.vreg();
                            let g9 = g8.p("  "@).p(r).p(" = load i64, ptr "@).p(cs).p("\n"@);
                            let g10 = g9.give(r);
                            g10
                        },
                        None => {
                            let m = "undefined name '"@ + n + "'"@;
                            let g11 = g.fail(m);
                            g11
                        },
                    };
                    g6
                },
            };
            g2
        },
        _ => {
            g
        },
    };
    g1
};
}

pub(crate) proof fn expr_self_expr_kept(origin: Ir, g: Ir, env: IrEnvView, e: ExprView)
    requires
        kept(origin, g),
    ensures
        kept(origin, expr_self_expr(g, env, e)),
    decreases e, 3nat, 0nat,
{
    broadcast use ops;
}

pub(crate) proof fn expr_unary_kept(origin: Ir, g: Ir, env: IrEnvView, e: ExprView)
    requires
        kept(origin, g),
    ensures
        kept(origin, expr_unary(g, env, e)),
    decreases e, 3nat, 0nat,
{
    broadcast use ops;
    let r = {
    let g1 = match e {
        ExprView::Unary { op, expr } => {
            let g2 = gen_expr(g, env, *expr);
            gen_expr_kept(origin, g, env, *expr);
            let v = g2.val;
            let g3 = if op == UnOp::Neg {
                let g4 = g2.need("lumen_neg"@, "i64 @lumen_neg(i64)"@);
                let (g5, r) = g4.vreg();
                let g6 = g5.p("  "@).p(r).p(" = call i64 @lumen_neg(i64 "@).p(v).p(")\n"@);
                let g7 = g6.give(r);
                g7
            } else {
                let g8 = g2.need("lumen_truthy"@, "i32 @lumen_truthy(i64)"@);
                let g9 = g8.need("lumen_bool"@, "i64 @lumen_bool(i32)"@);
                let (g10, t) = g9.vreg();
                let g11 = g10.p("  "@).p(t).p(" = call i32 @lumen_truthy(i64 "@).p(v).p(")\n"@);
                let (g12, z) = g11.vreg();
                let g13 = g12.p("  "@).p(z).p(" = icmp eq i32 "@).p(t).p(", 0\n"@);
                let (g14, zi) = g13.vreg();
                let g15 = g14.p("  "@).p(zi).p(" = zext i1 "@).p(z).p(" to i32\n"@);
                let (g16, r) = g15.vreg();
                let g17 = g16.p("  "@).p(r).p(" = call i64 @lumen_bool(i32 "@).p(zi).p(")\n"@);
                let g18 = g17.give(r);
                g18
            };
            g3
        },
        _ => {
            g
        },
    };
    g1
};
}

pub(crate) proof fn expr_if_else_kept(origin: Ir, g: Ir, env: IrEnvView, e: ExprView)
    requires
        kept(origin, g),
    ensures
        kept(origin, expr_if_else(g, env, e)),
    decreases e, 3nat, 0nat,
{
    broadcast use ops;
    let r = {
    let g1 = match e {
        ExprView::IfElse { cond, then, els } => {
            let (g2, slot) = g.vreg();
            let g3 = g2.p("  "@).p(slot).p(" = alloca i64\n"@);
            let g4 = gen_truthy(g3, env, *cond);
            gen_truthy_kept(origin, g3, env, *cond);
            let c = g4.val;
            let (g5, tl) = g4.label("tern_t"@);
            let (g6, fl) = g5.label("tern_f"@);
            let (g7, end) = g6.label("tern_e"@);
            let g8 = g7.p("  br i1 "@).p(c).p(", label %"@).p(tl).p(", label %"@).p(fl).p("\n"@);
            let g9 = g8.p(tl).p(":\n"@);
            let g10 = gen_expr(g9, env, *then);
            gen_expr_kept(origin, g9, env, *then);
            let tv = g10.val;
            let g11 = g10.p("  store i64 "@).p(tv).p(", ptr "@).p(slot).p("\n"@);
            let g12 = g11.p("  br label %"@).p(end).p("\n"@);
            let g13 = g12.p(fl).p(":\n"@);
            let g14 = gen_expr(g13, env, *els);
            gen_expr_kept(origin, g13, env, *els);
            let fv = g14.val;
            let g15 = g14.p("  store i64 "@).p(fv).p(", ptr "@).p(slot).p("\n"@);
            let g16 = g15.p("  br label %"@).p(end).p("\n"@);
            let g17 = g16.p(end).p(":\n"@);
            let (g18, r) = g17.vreg();
            let g19 = g18.p("  "@).p(r).p(" = load i64, ptr "@).p(slot).p("\n"@);
            let g20 = g19.give(r);
            g20
        },
        _ => {
            g
        },
    };
    g1
};
}

pub(crate) proof fn expr_list_kept(origin: Ir, g: Ir, env: IrEnvView, e: ExprView)
    requires
        kept(origin, g),
    ensures
        kept(origin, expr_list(g, env, e)),
    decreases e, 3nat, 0nat,
{
    broadcast use ops;
    let r = {
    let g1 = match e {
        ExprView::List(xs) => {
            let g2 = g.need("lumen_list_new"@, "i64 @lumen_list_new(i64)"@);
            let g3 = g2.need("lumen_list_push"@, "void @lumen_list_push(i64, i64)"@);
            let n = xs.len();
            let (g4, lst) = g3.vreg();
            let g5 = g4.p("  "@).p(lst).p(" = call i64 @lumen_list_new(i64 "@).u(n as nat)
                .p(")\n"@);
            let (g6, slot) = g5.vreg();
            let g7 = g6.p("  "@).p(slot).p(" = alloca i64\n"@);
            let g8 = g7.p("  store i64 "@).p(lst).p(", ptr "@).p(slot).p("\n"@);
            let g9 = list_items(g8, env, xs, xs.len(), slot);
            list_items_kept(origin, g8, env, xs, xs.len(), slot);
            let (g10, r) = g9.vreg();
            let g11 = g10.p("  "@).p(r).p(" = load i64, ptr "@).p(slot).p("\n"@);
            let g12 = g11.give(r);
            g12
        },
        _ => {
            g
        },
    };
    g1
};
}

pub(crate) proof fn expr_map_lit_kept(origin: Ir, g: Ir, env: IrEnvView, e: ExprView)
    requires
        kept(origin, g),
    ensures
        kept(origin, expr_map_lit(g, env, e)),
    decreases e, 3nat, 0nat,
{
    broadcast use ops;
    let r = {
    let g1 = match e {
        ExprView::MapLit(kvs) => {
            let g2 = g.need("lumen_map_new"@, "i64 @lumen_map_new()"@);
            let g3 = g2.need("lumen_map_set"@, "void @lumen_map_set(i64, i64, i64)"@);
            let (g4, m) = g3.vreg();
            let g5 = g4.p("  "@).p(m).p(" = call i64 @lumen_map_new()\n"@);
            let (g6, slot) = g5.vreg();
            let g7 = g6.p("  "@).p(slot).p(" = alloca i64\n"@);
            let g8 = g7.p("  store i64 "@).p(m).p(", ptr "@).p(slot).p("\n"@);
            let g9 = map_entries(g8, env, kvs, kvs.len(), slot);
            map_entries_kept(origin, g8, env, kvs, kvs.len(), slot);
            let (g10, r) = g9.vreg();
            let g11 = g10.p("  "@).p(r).p(" = load i64, ptr "@).p(slot).p("\n"@);
            let g12 = g11.give(r);
            g12
        },
        _ => {
            g
        },
    };
    g1
};
}

pub(crate) proof fn expr_index_kept(origin: Ir, g: Ir, env: IrEnvView, e: ExprView)
    requires
        kept(origin, g),
    ensures
        kept(origin, expr_index(g, env, e)),
    decreases e, 3nat, 0nat,
{
    broadcast use ops;
    let r = {
    let g1 = match e {
        ExprView::Index { obj, index } => {
            let g2 = g.need("lumen_index_get"@, "i64 @lumen_index_get(i64, i64)"@);
            let g3 = gen_expr(g2, env, *obj);
            gen_expr_kept(origin, g2, env, *obj);
            let o = g3.val;
            let g4 = gen_expr(g3, env, *index);
            gen_expr_kept(origin, g3, env, *index);
            let k = g4.val;
            let (g5, r) = g4.vreg();
            let g6 = g5.p("  "@).p(r).p(" = call i64 @lumen_index_get(i64 "@).p(o).p(", i64 "@)
                .p(k).p(")\n"@);
            let g7 = g6.give(r);
            g7
        },
        _ => {
            g
        },
    };
    g1
};
}

pub(crate) proof fn expr_slice_kept(origin: Ir, g: Ir, env: IrEnvView, e: ExprView)
    requires
        kept(origin, g),
    ensures
        kept(origin, expr_slice(g, env, e)),
    decreases e, 3nat, 0nat,
{
    broadcast use ops;
    let r = {
    let g1 = match e {
        ExprView::Slice { obj, lo, hi } => {
            let g2 = g.need("lumen_slice"@, "i64 @lumen_slice(i64, i64, i64)"@);
            let g3 = g2.need("lumen_nil"@, "i64 @lumen_nil()"@);
            let g4 = gen_expr(g3, env, *obj);
            gen_expr_kept(origin, g3, env, *obj);
            let o = g4.val;
            let g5 = match lo {
                Some(x) => {
                    let g6 = gen_expr(g4, env, *x);
                    gen_expr_kept(origin, g4, env, *x);
                    g6
                },
                None => {
                    let g7 = nil_value(g4, env);
                    nil_value_kept(origin, g4, env);
                    g7
                },
            };
            let lov = g5.val;
            let g8 = match hi {
                Some(x) => {
                    let g9 = gen_expr(g5, env, *x);
                    gen_expr_kept(origin, g5, env, *x);
                    g9
                },
                None => {
                    let g10 = nil_value(g5, env);
                    nil_value_kept(origin, g5, env);
                    g10
                },
            };
            let hiv = g8.val;
            let (g11, r) = g8.vreg();
            let g12 = g11.p("  "@).p(r).p(" = call i64 @lumen_slice(i64 "@).p(o).p(", i64 "@)
                .p(lov).p(", i64 "@).p(hiv).p(")\n"@);
            let g13 = g12.give(r);
            g13
        },
        _ => {
            g
        },
    };
    g1
};
}

pub(crate) proof fn expr_range_kept(origin: Ir, g: Ir, env: IrEnvView, e: ExprView)
    requires
        kept(origin, g),
    ensures
        kept(origin, expr_range(g, env, e)),
    decreases e, 3nat, 0nat,
{
    broadcast use ops;
    let r = {
    let g1 = match e {
        ExprView::Range { lo, hi } => {
            let g2 = range_needs(g, env);
            range_needs_kept(origin, g, env);
            let g3 = gen_expr(g2, env, *lo);
            gen_expr_kept(origin, g2, env, *lo);
            let lov = g3.val;
            let g4 = gen_expr(g3, env, *hi);
            gen_expr_kept(origin, g3, env, *hi);
            let hiv = g4.val;
            let g5 = range_list(g4, env, lov, hiv);
            range_list_kept(origin, g4, env, lov, hiv);
            g5
        },
        _ => {
            g
        },
    };
    g1
};
}

pub(crate) proof fn expr_field_kept(origin: Ir, g: Ir, env: IrEnvView, e: ExprView)
    requires
        kept(origin, g),
    ensures
        kept(origin, expr_field(g, env, e)),
    decreases e, 3nat, 0nat,
{
    broadcast use ops;
    let r = {
    let g1 = match e {
        ExprView::Field { obj, name } => {
            let g2 = g.need("lumen_struct_get"@, "i64 @lumen_struct_get(i64, ptr)"@);
            let g3 = gen_expr(g2, env, *obj);
            gen_expr_kept(origin, g2, env, *obj);
            let o = g3.val;
            let (g4, nm) = g3.add_str(name);
            let (g5, p) = g4.vreg();
            let g6 = g5.p("  "@).p(p).p(" = "@).p(nm).p("\n"@);
            let (g7, r) = g6.vreg();
            let g8 = g7.p("  "@).p(r).p(" = call i64 @lumen_struct_get(i64 "@).p(o).p(", ptr "@)
                .p(p).p(")\n"@);
            let g9 = g8.give(r);
            g9
        },
        _ => {
            g
        },
    };
    g1
};
}

pub(crate) proof fn expr_closure_kept(origin: Ir, g: Ir, env: IrEnvView, e: ExprView)
    requires
        kept(origin, g),
    ensures
        kept(origin, expr_closure(g, env, e)),
    decreases e, 3nat, 0nat,
{
    broadcast use ops;
    let r = {
    let g1 = match e {
        ExprView::Closure { fn_name, captures } => {
            let g2 = match ir_arity(env, fn_name) {
                Some(total) => {
                    let g3 = if total < captures.len() {
                        let g4 = g.fail("internal: closure captures more than its parameters"@);
                        g4
                    } else {
                        let ncap = captures.len();
                        let user = (total - ncap) as nat;
                        let (g5, cs) = closure_open(g, env, fn_name, total, user, ncap);
                        closure_open_kept(origin, g, env, fn_name, total, user, ncap);
                        let g6 = closure_caps(g5, env, captures, captures.len(), cs);
                        closure_caps_kept(origin, g5, env, captures, captures.len(), cs);
                        let (g7, r) = g6.vreg();
                        let g8 = g7.p("  "@).p(r).p(" = load i64, ptr "@).p(cs).p("\n"@);
                        let g9 = g8.give(r);
                        g9
                    };
                    g3
                },
                None => {
                    let m = "unknown closure '"@ + fn_name + "'"@;
                    let g10 = g.fail(m);
                    g10
                },
            };
            g2
        },
        _ => {
            g
        },
    };
    g1
};
}

pub(crate) proof fn expr_lambda_kept(origin: Ir, g: Ir, env: IrEnvView, e: ExprView)
    requires
        kept(origin, g),
    ensures
        kept(origin, expr_lambda(g, env, e)),
    decreases e, 3nat, 0nat,
{
    broadcast use ops;
}

pub(crate) proof fn expr_named_call_kept(origin: Ir, g: Ir, env: IrEnvView, e: ExprView)
    requires
        kept(origin, g),
    ensures
        kept(origin, expr_named_call(g, env, e)),
    decreases e, 3nat, 0nat,
{
    broadcast use ops;
    let r = {
    let g1 = match e {
        ExprView::NamedCall { callee, args } => {
            let g2 = match *callee {
                ExprView::Ident(n) => {
                    let g3 = match ir_fields(env, n) {
                        Some(fields) => {
                            let g4 = match missing_field(fields, args, 0) {
                                Some(f) => {
                                    let m = "missing field '"@ + f + "' for struct '"@ + n + "'"@;
                                    let g5 = g.fail(m);
                                    g5
                                },
                                None => {
                                    let (g6, slot) = struct_open(g, env, n, fields);
                                    struct_open_kept(origin, g, env, n, fields);
                                    let g7 = set_named(g6, env, args, fields, fields.len(), slot);
                                    set_named_kept(
                                        origin,
                                        g6,
                                        env,
                                        args,
                                        fields,
                                        fields.len(),
                                        slot,
                                    );
                                    let (g8, r) = g7.vreg();
                                    let g9 = g8.p("  "@).p(r).p(" = load i64, ptr "@).p(slot)
                                        .p("\n"@);
                                    let g10 = g9.give(r);
                                    g10
                                },
                            };
                            g4
                        },
                        None => {
                            let m = "no struct type named '"@ + n + "'"@;
                            let g11 = g.fail(m);
                            g11
                        },
                    };
                    g3
                },
                _ => {
                    let g12 = g.fail("a constructor call must name a struct type"@);
                    g12
                },
            };
            g2
        },
        _ => {
            g
        },
    };
    g1
};
}

pub(crate) proof fn gen_expr_kept(origin: Ir, g: Ir, env: IrEnvView, e: ExprView)
    requires
        kept(origin, g),
    ensures
        kept(origin, gen_expr(g, env, e)),
    decreases e, 4nat, 0nat,
{
    broadcast use ops;
    let r = {
    let g1 = match e {
        ExprView::Int(_) => {
            let g2 = expr_int(g, env, e);
            expr_int_kept(origin, g, env, e);
            g2
        },
        ExprView::Float(_) => {
            let g3 = expr_float(g, env, e);
            expr_float_kept(origin, g, env, e);
            g3
        },
        ExprView::Bool(_) => {
            let g4 = expr_bool(g, env, e);
            expr_bool_kept(origin, g, env, e);
            g4
        },
        ExprView::Nil => {
            let g5 = expr_nil(g, env, e);
            expr_nil_kept(origin, g, env, e);
            g5
        },
        ExprView::Str(_) => {
            let g6 = expr_str(g, env, e);
            expr_str_kept(origin, g, env, e);
            g6
        },
        ExprView::FStr(_) => {
            let g7 = expr_f_str(g, env, e);
            expr_f_str_kept(origin, g, env, e);
            g7
        },
        ExprView::Ident(_) => {
            let g8 = expr_ident(g, env, e);
            expr_ident_kept(origin, g, env, e);
            g8
        },
        ExprView::SelfExpr => {
            let g9 = expr_self_expr(g, env, e);
            expr_self_expr_kept(origin, g, env, e);
            g9
        },
        ExprView::Unary { .. } => {
            let g10 = expr_unary(g, env, e);
            expr_unary_kept(origin, g, env, e);
            g10
        },
        ExprView::Binary { .. } => {
            let g11 = gen_binary(g, env, e);
            gen_binary_kept(origin, g, env, e);
            g11
        },
        ExprView::IfElse { .. } => {
            let g12 = expr_if_else(g, env, e);
            expr_if_else_kept(origin, g, env, e);
            g12
        },
        ExprView::List(_) => {
            let g13 = expr_list(g, env, e);
            expr_list_kept(origin, g, env, e);
            g13
        },
        ExprView::MapLit(_) => {
            let g14 = expr_map_lit(g, env, e);
            expr_map_lit_kept(origin, g, env, e);
            g14
        },
        ExprView::Index { .. } => {
            let g15 = expr_index(g, env, e);
            expr_index_kept(origin, g, env, e);
            g15
        },
        ExprView::Slice { .. } => {
            let g16 = expr_slice(g, env, e);
            expr_slice_kept(origin, g, env, e);
            g16
        },
        ExprView::Range { .. } => {
            let g17 = expr_range(g, env, e);
            expr_range_kept(origin, g, env, e);
            g17
        },
        ExprView::Field { .. } => {
            let g18 = expr_field(g, env, e);
            expr_field_kept(origin, g, env, e);
            g18
        },
        ExprView::Call { .. } => {
            let g19 = gen_call(g, env, e);
            gen_call_kept(origin, g, env, e);
            g19
        },
        ExprView::Method { .. } => {
            let g20 = gen_method(g, env, e);
            gen_method_kept(origin, g, env, e);
            g20
        },
        ExprView::Closure { .. } => {
            let g21 = expr_closure(g, env, e);
            expr_closure_kept(origin, g, env, e);
            g21
        },
        ExprView::Lambda { .. } => {
            let g22 = expr_lambda(g, env, e);
            expr_lambda_kept(origin, g, env, e);
            g22
        },
        ExprView::NamedCall { .. } => {
            let g23 = expr_named_call(g, env, e);
            expr_named_call_kept(origin, g, env, e);
            g23
        },
        ExprView::ListComp { .. } => {
            let g24 = gen_comp(g, env, e);
            gen_comp_kept(origin, g, env, e);
            g24
        },
    };
    g1
};
}

pub(crate) proof fn set_named_kept(origin: Ir, g: Ir, env: IrEnvView, s: Seq<(Seq<char>, ExprView)>, fields: Seq<FieldView>, k: nat, slot: Seq<char>)
    requires
        kept(origin, g),
    ensures
        kept(origin, set_named(g, env, s, fields, k, slot)),
    decreases s, 9nat, k,
{
    broadcast use ops;
    let r = {
    if k == 0 || k > fields.len() {
        g
    } else {
        let g0 = set_named(g, env, s, fields, (k - 1) as nat, slot);
        set_named_kept(origin, g, env, s, fields, (k - 1) as nat, slot);
        let i = named_arg(s, fields[k - 1].name, 0);
        if i is Some && 0 <= i->Some_0 < s.len() {
            let g1 = gen_expr(g0, env, s[i->Some_0].1);
            gen_expr_kept(origin, g0, env, s[i->Some_0].1);
            set_field(g1, env, slot, fields[k - 1].name, g1.val)
        } else {
            g0
        }
    }
};
}

pub(crate) proof fn gen_stmts_grown(origin: Ir, g: Ir, env: IrEnvView, s: Seq<StmtView>, k: nat)
    requires
        grown(origin, g),
    ensures
        grown(origin, gen_stmts(g, env, s, k)),
    decreases s, 0nat, k,
{
    broadcast use grows;
    let r = {
    if k == 0 || k > s.len() {
        g
    } else {
        let g0 = gen_stmts(g, env, s, (k - 1) as nat);
        gen_stmts_grown(origin, g, env, s, (k - 1) as nat);
        let i = k - 1;
        let e = s[i];
        let g1 = if !g0.term {
            let g2 = gen_stmt(g0, env, e);
            gen_stmt_grown(origin, g0, env, e);
            g2
        } else {
            g0
        };
        g1
    }
};
}

pub(crate) proof fn gen_elifs_grown(origin: Ir, g: Ir, env: IrEnvView, s: Seq<(ExprView, Seq<StmtView>)>, k: nat, end: Seq<char>)
    requires
        grown(origin, g),
    ensures
        grown(origin, gen_elifs(g, env, s, k, end)),
    decreases s, 0nat, k,
{
    broadcast use grows;
    let r = {
    if k == 0 || k > s.len() {
        g
    } else {
        let g0 = gen_elifs(g, env, s, (k - 1) as nat, end);
        gen_elifs_grown(origin, g, env, s, (k - 1) as nat, end);
        let i = k - 1;
        let (c, b) = s[i];
        let (g1, thenl) = g0.label("then"@);
        let (g2, nextl) = g1.label("next"@);
        let g3 = gen_truthy(g2, env, c);
        kept_self(g2);
        gen_truthy_kept(g2, g2, env, c);
        grown_on(origin, g2, g3);
        let cv = g3.val;
        let g4 = g3.p("  br i1 "@).p(cv).p(", label %"@).p(thenl).p(", label %"@).p(nextl).p("\n"@);
        let g5 = g4.p(thenl).p(":\n"@);
        let g6 = g5.set_term(false);
        let g7 = gen_stmts(g6, env, b, b.len());
        gen_stmts_grown(origin, g6, env, b, b.len());
        let g8 = if !g7.term {
            let g9 = g7.p("  br label %"@).p(end).p("\n"@);
            g9
        } else {
            g7
        };
        let g10 = g8.p(nextl).p(":\n"@);
        g10
    }
};
}

pub(crate) proof fn assign_to_grown(origin: Ir, g: Ir, env: IrEnvView, e: ExprView, v: Seq<char>)
    requires
        grown(origin, g),
    ensures
        grown(origin, assign_to(g, env, e, v)),
{
    broadcast use grows;
    let r = {
    let g1 = match e {
        ExprView::Ident(n) => {
            let (g2, slot) = g.slot(n);
            let g3 = g2.p("  store i64 "@).p(v).p(", ptr "@).p(slot).p("\n"@);
            g3
        },
        ExprView::Index { obj, index } => {
            let g4 = g.need("lumen_index_set"@, "void @lumen_index_set(i64, i64, i64)"@);
            let g5 = gen_expr(g4, env, *obj);
            kept_self(g4);
            gen_expr_kept(g4, g4, env, *obj);
            grown_on(origin, g4, g5);
            let o = g5.val;
            let g6 = gen_expr(g5, env, *index);
            kept_self(g5);
            gen_expr_kept(g5, g5, env, *index);
            grown_on(origin, g5, g6);
            let k = g6.val;
            let g7 = g6.p("  call void @lumen_index_set(i64 "@).p(o).p(", i64 "@).p(k)
                .p(", i64 "@).p(v).p(")\n"@);
            g7
        },
        ExprView::Field { obj, name } => {
            let g8 = g.need("lumen_struct_set"@, "void @lumen_struct_set(i64, ptr, i64)"@);
            let g9 = gen_expr(g8, env, *obj);
            kept_self(g8);
            gen_expr_kept(g8, g8, env, *obj);
            grown_on(origin, g8, g9);
            let o = g9.val;
            let (g10, nm) = g9.add_str(name);
            let (g11, p) = g10.vreg();
            let g12 = g11.p("  "@).p(p).p(" = "@).p(nm).p("\n"@);
            let g13 = g12.p("  call void @lumen_struct_set(i64 "@).p(o).p(", ptr "@).p(p)
                .p(", i64 "@).p(v).p(")\n"@);
            g13
        },
        _ => {
            let g14 = g.fail("invalid assignment target"@);
            g14
        },
    };
    g1
};
}

pub(crate) proof fn stmt_src_line_grown(origin: Ir, g: Ir, env: IrEnvView, e: StmtView)
    requires
        grown(origin, g),
    ensures
        grown(origin, stmt_src_line(g, env, e)),
    decreases e, 2nat, 0nat,
{
    broadcast use grows;
}

pub(crate) proof fn stmt_let_grown(origin: Ir, g: Ir, env: IrEnvView, e: StmtView)
    requires
        grown(origin, g),
    ensures
        grown(origin, stmt_let(g, env, e)),
    decreases e, 2nat, 0nat,
{
    broadcast use grows;
    let r = {
    let g1 = match e {
        StmtView::Let { name, value, .. } => {
            let g2 = gen_expr(g, env, value);
            kept_self(g);
            gen_expr_kept(g, g, env, value);
            grown_on(origin, g, g2);
            let v = g2.val;
            let (g3, slot) = g2.slot(name);
            let g4 = g3.p("  store i64 "@).p(v).p(", ptr "@).p(slot).p("\n"@);
            g4
        },
        _ => {
            g
        },
    };
    g1
};
}

pub(crate) proof fn stmt_assign_grown(origin: Ir, g: Ir, env: IrEnvView, e: StmtView)
    requires
        grown(origin, g),
    ensures
        grown(origin, stmt_assign(g, env, e)),
    decreases e, 2nat, 0nat,
{
    broadcast use grows;
    let r = {
    let g1 = match e {
        StmtView::Assign { target, value } => {
            let g2 = gen_expr(g, env, value);
            kept_self(g);
            gen_expr_kept(g, g, env, value);
            grown_on(origin, g, g2);
            let v = g2.val;
            let g3 = assign_to(g2, env, target, v);
            assign_to_grown(origin, g2, env, target, v);
            g3
        },
        _ => {
            g
        },
    };
    g1
};
}

pub(crate) proof fn stmt_expr_stmt_grown(origin: Ir, g: Ir, env: IrEnvView, e: StmtView)
    requires
        grown(origin, g),
    ensures
        grown(origin, stmt_expr_stmt(g, env, e)),
    decreases e, 2nat, 0nat,
{
    broadcast use grows;
    let r = {
    let g1 = match e {
        StmtView::ExprStmt(x) => {
            let g2 = gen_expr(g, env, x);
            kept_self(g);
            gen_expr_kept(g, g, env, x);
            grown_on(origin, g, g2);
            g2
        },
        _ => {
            g
        },
    };
    g1
};
}

pub(crate) proof fn stmt_return_grown(origin: Ir, g: Ir, env: IrEnvView, e: StmtView)
    requires
        grown(origin, g),
    ensures
        grown(origin, stmt_return(g, env, e)),
    decreases e, 2nat, 0nat,
{
    broadcast use grows;
    let r = {
    let g1 = match e {
        StmtView::Return(o) => {
            let g2 = match o {
                Some(x) => {
                    let g3 = gen_expr(g, env, x);
                    kept_self(g);
                    gen_expr_kept(g, g, env, x);
                    grown_on(origin, g, g3);
                    g3
                },
                None => {
                    let g4 = g.need("lumen_nil"@, "i64 @lumen_nil()"@);
                    let g5 = nil_value(g4, env);
                    kept_self(g4);
                    nil_value_kept(g4, g4, env);
                    grown_on(origin, g4, g5);
                    g5
                },
            };
            let v = g2.val;
            let g6 = g2.p("  ret i64 "@).p(v).p("\n"@);
            let g7 = g6.set_term(true);
            g7
        },
        _ => {
            g
        },
    };
    g1
};
}

pub(crate) proof fn stmt_if_grown(origin: Ir, g: Ir, env: IrEnvView, e: StmtView)
    requires
        grown(origin, g),
    ensures
        grown(origin, stmt_if(g, env, e)),
    decreases e, 2nat, 0nat,
{
    broadcast use grows;
    let r = {
    let g1 = match e {
        StmtView::If { cond, then, elifs, els } => {
            let (g2, end) = g.label("ifend"@);
            let (g3, thenl) = g2.label("then"@);
            let (g4, nextl) = g3.label("next"@);
            let g5 = gen_truthy(g4, env, cond);
            kept_self(g4);
            gen_truthy_kept(g4, g4, env, cond);
            grown_on(origin, g4, g5);
            let cv = g5.val;
            let g6 = g5.p("  br i1 "@).p(cv).p(", label %"@).p(thenl).p(", label %"@).p(nextl)
                .p("\n"@);
            let g7 = g6.p(thenl).p(":\n"@);
            let g8 = g7.set_term(false);
            let g9 = gen_stmts(g8, env, then, then.len());
            gen_stmts_grown(origin, g8, env, then, then.len());
            let g10 = if !g9.term {
                let g11 = g9.p("  br label %"@).p(end).p("\n"@);
                g11
            } else {
                g9
            };
            let g12 = g10.p(nextl).p(":\n"@);
            let g13 = gen_elifs(g12, env, elifs, elifs.len(), end);
            gen_elifs_grown(origin, g12, env, elifs, elifs.len(), end);
            let g14 = match els {
                Some(b) => {
                    let g15 = g13.set_term(false);
                    let g16 = gen_stmts(g15, env, b, b.len());
                    gen_stmts_grown(origin, g15, env, b, b.len());
                    let g17 = if !g16.term {
                        let g18 = g16.p("  br label %"@).p(end).p("\n"@);
                        g18
                    } else {
                        g16
                    };
                    g17
                },
                None => {
                    let g19 = g13.p("  br label %"@).p(end).p("\n"@);
                    g19
                },
            };
            let g20 = g14.p(end).p(":\n"@);
            let g21 = g20.set_term(false);
            g21
        },
        _ => {
            g
        },
    };
    g1
};
}

pub(crate) proof fn stmt_while_grown(origin: Ir, g: Ir, env: IrEnvView, e: StmtView)
    requires
        grown(origin, g),
    ensures
        grown(origin, stmt_while(g, env, e)),
    decreases e, 2nat, 0nat,
{
    broadcast use grows;
    let r = {
    let g1 = match e {
        StmtView::While { cond, body } => {
            let (g2, top) = g.label("wtop"@);
            let (g3, bodyl) = g2.label("wbody"@);
            let (g4, end) = g3.label("wend"@);
            let g5 = g4.p("  br label %"@).p(top).p("\n"@);
            let g6 = g5.p(top).p(":\n"@);
            let g7 = gen_truthy(g6, env, cond);
            kept_self(g6);
            gen_truthy_kept(g6, g6, env, cond);
            grown_on(origin, g6, g7);
            let c = g7.val;
            let g8 = g7.p("  br i1 "@).p(c).p(", label %"@).p(bodyl).p(", label %"@).p(end)
                .p("\n"@);
            let g9 = g8.p(bodyl).p(":\n"@);
            let g10 = g9.push_loop(top, end);
            pushed(g9, top, end);
            grown_self(g10);
            let g11 = g10.set_term(false);
            let g12 = gen_stmts(g11, env, body, body.len());
            gen_stmts_grown(g10, g11, env, body, body.len());
            let g13 = g12.pop_loop();
            loop_left(origin, g9, g10, g12);
            let g14 = if !g13.term {
                let g15 = g13.p("  br label %"@).p(top).p("\n"@);
                g15
            } else {
                g13
            };
            let g16 = g14.p(end).p(":\n"@);
            let g17 = g16.set_term(false);
            g17
        },
        _ => {
            g
        },
    };
    g1
};
}

pub(crate) proof fn stmt_for_grown(origin: Ir, g: Ir, env: IrEnvView, e: StmtView)
    requires
        grown(origin, g),
    ensures
        grown(origin, stmt_for(g, env, e)),
    decreases e, 2nat, 0nat,
{
    broadcast use grows;
    let r = {
    let g1 = match e {
        StmtView::For { var, iter, body } => {
            let g2 = match iter {
                ExprView::Range { lo, hi } => {
                    let g3 = g.need("lumen_to_int"@, "i64 @lumen_to_int(i64)"@);
                    let g4 = g3.need("lumen_from_int"@, "i64 @lumen_from_int(i64)"@);
                    let g5 = gen_expr(g4, env, *lo);
                    kept_self(g4);
                    gen_expr_kept(g4, g4, env, *lo);
                    grown_on(origin, g4, g5);
                    let lov = g5.val;
                    let g6 = gen_expr(g5, env, *hi);
                    kept_self(g5);
                    gen_expr_kept(g5, g5, env, *hi);
                    grown_on(origin, g5, g6);
                    let hiv = g6.val;
                    let (g7, lp) = range_begin(g6, env, var, lov, hiv);
                    kept_self(g6);
                    range_begin_kept(g6, g6, env, var, lov, hiv);
                    grown_on(origin, g6, g7);
                    let g8 = if stmts_alloc(env, body) {
                        let g9 = gc_poll(g7, env);
                        kept_self(g7);
                        gc_poll_kept(g7, g7, env);
                        grown_on(origin, g7, g9);
                        g9
                    } else {
                        g7
                    };
                    let cont = lp.cont;
                    let end = lp.end;
                    let g10 = g8.push_loop(cont, end);
                    pushed(g8, cont, end);
                    grown_self(g10);
                    let g11 = g10.set_term(false);
                    let g12 = gen_stmts(g11, env, body, body.len());
                    gen_stmts_grown(g10, g11, env, body, body.len());
                    let g13 = g12.pop_loop();
                    loop_left(origin, g8, g10, g12);
                    let g14 = if !g13.term {
                        let g15 = g13.p("  br label %"@).p(cont).p("\n"@);
                        g15
                    } else {
                        g13
                    };
                    let g16 = loop_step(g14, env, lp);
                    kept_self(g14);
                    loop_step_kept(g14, g14, env, lp);
                    grown_on(origin, g14, g16);
                    let g17 = g16.set_term(false);
                    g17
                },
                _ => {
                    let g18 = g.need("lumen_iter_prep"@, "i64 @lumen_iter_prep(i64)"@);
                    let g19 = g18.need("lumen_len"@, "i64 @lumen_len(i64)"@);
                    let g20 = g19.need("lumen_list_get"@, "i64 @lumen_list_get(i64, i64)"@);
                    let g21 = gen_expr(g20, env, iter);
                    kept_self(g20);
                    gen_expr_kept(g20, g20, env, iter);
                    grown_on(origin, g20, g21);
                    let it = g21.val;
                    let (g22, lp) = list_begin(g21, env, var, it);
                    kept_self(g21);
                    list_begin_kept(g21, g21, env, var, it);
                    grown_on(origin, g21, g22);
                    let g23 = if stmts_alloc(env, body) {
                        let g24 = gc_poll(g22, env);
                        kept_self(g22);
                        gc_poll_kept(g22, g22, env);
                        grown_on(origin, g22, g24);
                        g24
                    } else {
                        g22
                    };
                    let cont = lp.cont;
                    let end = lp.end;
                    let g25 = g23.push_loop(cont, end);
                    pushed(g23, cont, end);
                    grown_self(g25);
                    let g26 = g25.set_term(false);
                    let g27 = gen_stmts(g26, env, body, body.len());
                    gen_stmts_grown(g25, g26, env, body, body.len());
                    let g28 = g27.pop_loop();
                    loop_left(origin, g23, g25, g27);
                    let g29 = if !g28.term {
                        let g30 = g28.p("  br label %"@).p(cont).p("\n"@);
                        g30
                    } else {
                        g28
                    };
                    let g31 = loop_step(g29, env, lp);
                    kept_self(g29);
                    loop_step_kept(g29, g29, env, lp);
                    grown_on(origin, g29, g31);
                    let g32 = g31.set_term(false);
                    g32
                },
            };
            g2
        },
        _ => {
            g
        },
    };
    g1
};
}

pub(crate) proof fn stmt_break_grown(origin: Ir, g: Ir, env: IrEnvView, e: StmtView)
    requires
        grown(origin, g),
    ensures
        grown(origin, stmt_break(g, env, e)),
    decreases e, 2nat, 0nat,
{
    broadcast use grows;
}

pub(crate) proof fn stmt_continue_grown(origin: Ir, g: Ir, env: IrEnvView, e: StmtView)
    requires
        grown(origin, g),
    ensures
        grown(origin, stmt_continue(g, env, e)),
    decreases e, 2nat, 0nat,
{
    broadcast use grows;
}

pub(crate) proof fn stmt_raise_grown(origin: Ir, g: Ir, env: IrEnvView, e: StmtView)
    requires
        grown(origin, g),
    ensures
        grown(origin, stmt_raise(g, env, e)),
    decreases e, 2nat, 0nat,
{
    broadcast use grows;
    let r = {
    let g1 = match e {
        StmtView::Raise(x) => {
            let g2 = gen_expr(g, env, x);
            kept_self(g);
            gen_expr_kept(g, g, env, x);
            grown_on(origin, g, g2);
            let v = g2.val;
            let g3 = g2.need("lumen_to_str"@, "i64 @lumen_to_str(i64)"@);
            let g4 = g3.need("lumen_raise"@, "i64 @lumen_raise(i64)"@);
            let (g5, s) = g4.vreg();
            let g6 = g5.p("  "@).p(s).p(" = call i64 @lumen_to_str(i64 "@).p(v).p(")\n"@);
            let (g7, r) = g6.vreg();
            let g8 = g7.p("  "@).p(r).p(" = call i64 @lumen_raise(i64 "@).p(s).p(")\n"@);
            let g9 = g8.give(r);
            g9
        },
        _ => {
            g
        },
    };
    g1
};
}

pub(crate) proof fn stmt_try_grown(origin: Ir, g: Ir, env: IrEnvView, e: StmtView)
    requires
        grown(origin, g),
    ensures
        grown(origin, stmt_try(g, env, e)),
    decreases e, 2nat, 0nat,
{
    broadcast use grows;
    let r = {
    let g1 = match e {
        StmtView::Try { body, catch_var, catch_body } => {
            let g2 = g.need("lumen_try_push"@, "ptr @lumen_try_push()"@);
            let g3 = g2.need("lumen_try_pop"@, "void @lumen_try_pop()"@);
            let g4 = g3.need("lumen_setjmp"@, "i32 @lumen_setjmp(ptr) returns_twice"@);
            let g5 = g4.need("lumen_caught_msg"@, "i64 @lumen_caught_msg()"@);
            let (g6, catchl) = g5.label("catch"@);
            let (g7, bodyl) = g6.label("trybody"@);
            let (g8, end) = g7.label("tryend"@);
            let (g9, buf) = g8.vreg();
            let g10 = g9.p("  "@).p(buf).p(" = call ptr @lumen_try_push()\n"@);
            let (g11, t) = g10.vreg();
            let g12 = g11.p("  "@).p(t).p(" = call i32 @lumen_setjmp(ptr "@).p(buf).p(")\n"@);
            let (g13, nz) = g12.vreg();
            let g14 = g13.p("  "@).p(nz).p(" = icmp ne i32 "@).p(t).p(", 0\n"@);
            let g15 = g14.p("  br i1 "@).p(nz).p(", label %"@).p(catchl).p(", label %"@)
                .p(bodyl).p("\n"@);
            let g16 = g15.p(bodyl).p(":\n"@);
            let g17 = g16.set_term(false);
            let g18 = gen_stmts(g17, env, body, body.len());
            gen_stmts_grown(origin, g17, env, body, body.len());
            let g19 = if !g18.term {
                let g20 = g18.p("  call void @lumen_try_pop()\n"@);
                let g21 = g20.p("  br label %"@).p(end).p("\n"@);
                g21
            } else {
                g18
            };
            let g22 = g19.p(catchl).p(":\n"@);
            let (g23, msg) = g22.vreg();
            let g24 = g23.p("  "@).p(msg).p(" = call i64 @lumen_caught_msg()\n"@);
            let (g25, slot) = g24.slot(catch_var);
            let g26 = g25.p("  store i64 "@).p(msg).p(", ptr "@).p(slot).p("\n"@);
            let g27 = g26.set_term(false);
            let g28 = gen_stmts(g27, env, catch_body, catch_body.len());
            gen_stmts_grown(origin, g27, env, catch_body, catch_body.len());
            let g29 = if !g28.term {
                let g30 = g28.p("  br label %"@).p(end).p("\n"@);
                g30
            } else {
                g28
            };
            let g31 = g29.p(end).p(":\n"@);
            let g32 = g31.set_term(false);
            g32
        },
        _ => {
            g
        },
    };
    g1
};
}

pub(crate) proof fn gen_stmt_grown(origin: Ir, g: Ir, env: IrEnvView, e: StmtView)
    requires
        grown(origin, g),
    ensures
        grown(origin, gen_stmt(g, env, e)),
    decreases e, 3nat, 0nat,
{
    broadcast use grows;
    let r = {
    let g1 = match e {
        StmtView::SrcLine(_) => {
            let g2 = stmt_src_line(g, env, e);
            stmt_src_line_grown(origin, g, env, e);
            g2
        },
        StmtView::Let { .. } => {
            let g3 = stmt_let(g, env, e);
            stmt_let_grown(origin, g, env, e);
            g3
        },
        StmtView::Assign { .. } => {
            let g4 = stmt_assign(g, env, e);
            stmt_assign_grown(origin, g, env, e);
            g4
        },
        StmtView::ExprStmt(_) => {
            let g5 = stmt_expr_stmt(g, env, e);
            stmt_expr_stmt_grown(origin, g, env, e);
            g5
        },
        StmtView::Return(_) => {
            let g6 = stmt_return(g, env, e);
            stmt_return_grown(origin, g, env, e);
            g6
        },
        StmtView::If { .. } => {
            let g7 = stmt_if(g, env, e);
            stmt_if_grown(origin, g, env, e);
            g7
        },
        StmtView::While { .. } => {
            let g8 = stmt_while(g, env, e);
            stmt_while_grown(origin, g, env, e);
            g8
        },
        StmtView::For { .. } => {
            let g9 = stmt_for(g, env, e);
            stmt_for_grown(origin, g, env, e);
            g9
        },
        StmtView::Break => {
            let g10 = stmt_break(g, env, e);
            stmt_break_grown(origin, g, env, e);
            g10
        },
        StmtView::Continue => {
            let g11 = stmt_continue(g, env, e);
            stmt_continue_grown(origin, g, env, e);
            g11
        },
        StmtView::Raise(_) => {
            let g12 = stmt_raise(g, env, e);
            stmt_raise_grown(origin, g, env, e);
            g12
        },
        StmtView::Try { .. } => {
            let g13 = stmt_try(g, env, e);
            stmt_try_grown(origin, g, env, e);
            g13
        },
    };
    g1
};
}

} // verus!
