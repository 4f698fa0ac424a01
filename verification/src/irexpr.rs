//! The LLVM back end, expressions.
//!
//! Every value is a 64-bit word, boxed as in the x86-64 back end, and lives in a slot.
//! Expressions that are known to be integers or floats are computed unboxed, except in
//! a function with a `try`.

use crate::asmquery::{field_name, nth_field, runtime_op, runtime_op_name};
use crate::asmstate::{next64, succ64};
use crate::ast::{
    expr_view, exprs_facts, exprs_view, fields_view, named_facts, named_view, optbox_view,
    pairs_facts, pairs_view, parts_facts, parts_view, wrap48, wrap48_spec, BinOp, Expr, ExprView,
    FStrPart, FStrPartView, Field, FieldView, UnOp,
};
use crate::builtins::{lookup, lookup_spec};
use crate::irstate::{
    bin_form, builtin_method, call_kind, double_text, fcc, find_bin_form, find_builtin_method,
    find_fcc, find_float_ins, find_icc, find_int_ins, find_ir_arity, find_ir_fields,
    find_method_owner, find_missing_field, find_module_name, find_named_arg, find_one_value_fn,
    find_test_form, float_ins_of, fmt_double, icc, int_ins, ir_arity, ir_fields, method_owner,
    missing_field, module_name, named_arg, one_value_fn, push_arg, ring_op, sanitize, sanitized,
    test_form, with_arg, BinForm, Ir, IrCall, IrEmitter, IrEnv, IrEnvView, IrLoop, IrLoopView,
    TestForm,
};
use crate::text::{dec, dec_nat, push_i64, push_u64, str_eq};
use vstd::prelude::*;
use vstd::string::StringExecFns;

verus! {

/// An integer.
pub open spec fn int_lit(g: Ir, env: IrEnvView, n: i64) -> Ir {
    let g1 = g.need("lumen_from_int"@, "i64 @lumen_from_int(i64)"@);
    let (g2, r) = g1.vreg();
    let g3 = g2.p("  "@).p(r).p(" = call i64 @lumen_from_int(i64 "@).n(n as int).p(")\n"@);
    let g4 = g3.give(r);
    g4
}

pub open spec fn nil_value(g: Ir, env: IrEnvView) -> Ir {
    let (g1, r) = g.vreg();
    let g2 = g1.p("  "@).p(r).p(" = call i64 @lumen_nil()\n"@);
    let g3 = g2.give(r);
    g3
}

/// Sign-extends the low 48 bits: the value of an integer, boxed or not.
pub open spec fn wrap_int(g: Ir, env: IrEnvView) -> Ir {
    let v = g.val;
    let (g1, s) = g.vreg();
    let g2 = g1.p("  "@).p(s).p(" = shl i64 "@).p(v).p(", 16\n"@);
    let (g3, r) = g2.vreg();
    let g4 = g3.p("  "@).p(r).p(" = ashr i64 "@).p(s).p(", 16\n"@);
    let g5 = g4.give(r);
    g5
}

/// Boxes an integer: its low 48 bits under the integer tag.
pub open spec fn box_int(g: Ir, env: IrEnvView) -> Ir {
    let v = g.val;
    let (g1, m) = g.vreg();
    let g2 = g1.p("  "@).p(m).p(" = and i64 "@).p(v).p(", 281474976710655\n"@);
    let (g3, r) = g2.vreg();
    let g4 = g3.p("  "@).p(r).p(" = or i64 "@).p(m).p(", 9221401712017801216\n"@);
    let g5 = g4.give(r);
    g5
}

pub open spec fn box_bool(g: Ir, env: IrEnvView) -> Ir {
    let c = g.val;
    let (g1, z) = g.vreg();
    let g2 = g1.p("  "@).p(z).p(" = zext i1 "@).p(c).p(" to i32\n"@);
    let g3 = g2.need("lumen_bool"@, "i64 @lumen_bool(i32)"@);
    let (g4, r) = g3.vreg();
    let g5 = g4.p("  "@).p(r).p(" = call i64 @lumen_bool(i32 "@).p(z).p(")\n"@);
    let g6 = g5.give(r);
    g6
}

pub open spec fn to_test(g: Ir, env: IrEnvView) -> Ir {
    let v = g.val;
    let g1 = g.need("lumen_truthy"@, "i32 @lumen_truthy(i64)"@);
    let (g2, t) = g1.vreg();
    let g3 = g2.p("  "@).p(t).p(" = call i32 @lumen_truthy(i64 "@).p(v).p(")\n"@);
    let (g4, r) = g3.vreg();
    let g5 = g4.p("  "@).p(r).p(" = icmp ne i32 "@).p(t).p(", 0\n"@);
    let g6 = g5.give(r);
    g6
}

/// Collects garbage here once enough has been allocated.
pub open spec fn gc_poll(g: Ir, env: IrEnvView) -> Ir {
    let g1 = g.need("lumen_gc_collect"@, "void @lumen_gc_collect()"@);
    let g2 = g1.need_line(
        "@lumen_allocs_since_gc"@,
        "@lumen_allocs_since_gc = external global i64"@,
    );
    let (g3, c) = g2.vreg();
    let g4 = g3.p("  "@).p(c).p(" = load i64, ptr @lumen_allocs_since_gc\n"@);
    let (g5, hit) = g4.vreg();
    let g6 = g5.p("  "@).p(hit).p(" = icmp sge i64 "@).p(c).p(", 512\n"@);
    let (g7, gl) = g6.label("gc"@);
    let (g8, sk) = g7.label("gcskip"@);
    let g9 = g8.p("  br i1 "@).p(hit).p(", label %"@).p(gl).p(", label %"@).p(sk).p("\n"@);
    let g10 = g9.p(gl).p(":\n"@);
    let g11 = g10.p("  call void @lumen_gc_collect()\n"@);
    let g12 = g11.p("  br label %"@).p(sk).p("\n"@);
    let g13 = g12.p(sk).p(":\n"@);
    g13
}

/// The head of a loop over a range.
pub open spec fn range_begin(
    g: Ir,
    env: IrEnvView,
    var: Seq<char>,
    lov: Seq<char>,
    hiv: Seq<char>,
) -> (Ir, IrLoopView) {
    let (g1, ci) = g.vreg();
    let g2 = g1.p("  "@).p(ci).p(" = call i64 @lumen_to_int(i64 "@).p(lov).p(")\n"@);
    let (g3, hiu) = g2.vreg();
    let g4 = g3.p("  "@).p(hiu).p(" = call i64 @lumen_to_int(i64 "@).p(hiv).p(")\n"@);
    let (g5, slot) = g4.vreg();
    let g6 = g5.p("  "@).p(slot).p(" = alloca i64\n"@);
    let g7 = g6.p("  store i64 "@).p(ci).p(", ptr "@).p(slot).p("\n"@);
    let (g8, lslot) = g7.vreg();
    let g9 = g8.p("  "@).p(lslot).p(" = alloca i64\n"@);
    let g10 = g9.p("  store i64 "@).p(hiu).p(", ptr "@).p(lslot).p("\n"@);
    let (g11, vslot) = g10.slot(var);
    let (g12, top) = g11.label("ftop"@);
    let (g13, body) = g12.label("fbody"@);
    let (g14, cont) = g13.label("fcont"@);
    let (g15, end) = g14.label("fend"@);
    let g16 = g15.p("  br label %"@).p(top).p("\n"@);
    let g17 = g16.p(top).p(":\n"@);
    let (g18, cur) = g17.vreg();
    let g19 = g18.p("  "@).p(cur).p(" = load i64, ptr "@).p(slot).p("\n"@);
    let (g20, lim) = g19.vreg();
    let g21 = g20.p("  "@).p(lim).p(" = load i64, ptr "@).p(lslot).p("\n"@);
    let (g22, t) = g21.vreg();
    let g23 = g22.p("  "@).p(t).p(" = icmp slt i64 "@).p(cur).p(", "@).p(lim).p("\n"@);
    let g24 = g23.p("  br i1 "@).p(t).p(", label %"@).p(body).p(", label %"@).p(end).p("\n"@);
    let g25 = g24.p(body).p(":\n"@);
    let (g26, boxed) = g25.vreg();
    let g27 = g26.p("  "@).p(boxed).p(" = call i64 @lumen_from_int(i64 "@).p(cur).p(")\n"@);
    let g28 = g27.p("  store i64 "@).p(boxed).p(", ptr "@).p(vslot).p("\n"@);
    (g28, IrLoopView { slot, top, cont, end })
}

/// The head of a loop over a list.
pub open spec fn list_begin(
    g: Ir,
    env: IrEnvView,
    var: Seq<char>,
    it: Seq<char>,
) -> (Ir, IrLoopView) {
    let (g1, lst) = g.vreg();
    let g2 = g1.p("  "@).p(lst).p(" = call i64 @lumen_iter_prep(i64 "@).p(it).p(")\n"@);
    let (g3, lslot) = g2.vreg();
    let g4 = g3.p("  "@).p(lslot).p(" = alloca i64\n"@);
    let g5 = g4.p("  store i64 "@).p(lst).p(", ptr "@).p(lslot).p("\n"@);
    let (g6, len) = g5.vreg();
    let g7 = g6.p("  "@).p(len).p(" = call i64 @lumen_len(i64 "@).p(lst).p(")\n"@);
    let (g8, lenslot) = g7.vreg();
    let g9 = g8.p("  "@).p(lenslot).p(" = alloca i64\n"@);
    let g10 = g9.p("  store i64 "@).p(len).p(", ptr "@).p(lenslot).p("\n"@);
    let (g11, slot) = g10.vreg();
    let g12 = g11.p("  "@).p(slot).p(" = alloca i64\n"@);
    let g13 = g12.p("  store i64 0, ptr "@).p(slot).p("\n"@);
    let (g14, vslot) = g13.slot(var);
    let (g15, top) = g14.label("ltop"@);
    let (g16, body) = g15.label("lbody"@);
    let (g17, cont) = g16.label("lcont"@);
    let (g18, end) = g17.label("lend"@);
    let g19 = g18.p("  br label %"@).p(top).p("\n"@);
    let g20 = g19.p(top).p(":\n"@);
    let (g21, i) = g20.vreg();
    let g22 = g21.p("  "@).p(i).p(" = load i64, ptr "@).p(slot).p("\n"@);
    let (g23, ln) = g22.vreg();
    let g24 = g23.p("  "@).p(ln).p(" = load i64, ptr "@).p(lenslot).p("\n"@);
    let (g25, t) = g24.vreg();
    let g26 = g25.p("  "@).p(t).p(" = icmp slt i64 "@).p(i).p(", "@).p(ln).p("\n"@);
    let g27 = g26.p("  br i1 "@).p(t).p(", label %"@).p(body).p(", label %"@).p(end).p("\n"@);
    let g28 = g27.p(body).p(":\n"@);
    let (g29, l2) = g28.vreg();
    let g30 = g29.p("  "@).p(l2).p(" = load i64, ptr "@).p(lslot).p("\n"@);
    let (g31, el) = g30.vreg();
    let g32 = g31.p("  "@).p(el).p(" = call i64 @lumen_list_get(i64 "@).p(l2).p(", i64 "@).p(i)
        .p(")\n"@);
    let g33 = g32.p("  store i64 "@).p(el).p(", ptr "@).p(vslot).p("\n"@);
    (g33, IrLoopView { slot, top, cont, end })
}

/// The step of a loop.
pub open spec fn loop_step(g: Ir, env: IrEnvView, lp: IrLoopView) -> Ir {
    let slot = lp.slot;
    let top = lp.top;
    let cont = lp.cont;
    let end = lp.end;
    let g1 = g.p(cont).p(":\n"@);
    let (g2, i) = g1.vreg();
    let g3 = g2.p("  "@).p(i).p(" = load i64, ptr "@).p(slot).p("\n"@);
    let (g4, inc) = g3.vreg();
    let g5 = g4.p("  "@).p(inc).p(" = add i64 "@).p(i).p(", 1\n"@);
    let g6 = g5.p("  store i64 "@).p(inc).p(", ptr "@).p(slot).p("\n"@);
    let g7 = g6.p("  br label %"@).p(top).p("\n"@);
    let g8 = g7.p(end).p(":\n"@);
    g8
}

/// The list of the integers of a range.
pub open spec fn range_list(g: Ir, env: IrEnvView, lov: Seq<char>, hiv: Seq<char>) -> Ir {
    let (g1, lo_i) = g.vreg();
    let g2 = g1.p("  "@).p(lo_i).p(" = call i64 @lumen_to_int(i64 "@).p(lov).p(")\n"@);
    let (g3, hi_i) = g2.vreg();
    let g4 = g3.p("  "@).p(hi_i).p(" = call i64 @lumen_to_int(i64 "@).p(hiv).p(")\n"@);
    let (g5, lst) = g4.vreg();
    let g6 = g5.p("  "@).p(lst).p(" = call i64 @lumen_list_new(i64 0)\n"@);
    let (g7, lslot) = g6.vreg();
    let g8 = g7.p("  "@).p(lslot).p(" = alloca i64\n"@);
    let g9 = g8.p("  store i64 "@).p(lst).p(", ptr "@).p(lslot).p("\n"@);
    let (g10, islot) = g9.vreg();
    let g11 = g10.p("  "@).p(islot).p(" = alloca i64\n"@);
    let g12 = g11.p("  store i64 "@).p(lo_i).p(", ptr "@).p(islot).p("\n"@);
    let (g13, limslot) = g12.vreg();
    let g14 = g13.p("  "@).p(limslot).p(" = alloca i64\n"@);
    let g15 = g14.p("  store i64 "@).p(hi_i).p(", ptr "@).p(limslot).p("\n"@);
    let (g16, top) = g15.label("rtop"@);
    let (g17, body) = g16.label("rbody"@);
    let (g18, end) = g17.label("rend"@);
    let g19 = g18.p("  br label %"@).p(top).p("\n"@);
    let g20 = g19.p(top).p(":\n"@);
    let (g21, i) = g20.vreg();
    let g22 = g21.p("  "@).p(i).p(" = load i64, ptr "@).p(islot).p("\n"@);
    let (g23, lim) = g22.vreg();
    let g24 = g23.p("  "@).p(lim).p(" = load i64, ptr "@).p(limslot).p("\n"@);
    let (g25, t) = g24.vreg();
    let g26 = g25.p("  "@).p(t).p(" = icmp slt i64 "@).p(i).p(", "@).p(lim).p("\n"@);
    let g27 = g26.p("  br i1 "@).p(t).p(", label %"@).p(body).p(", label %"@).p(end).p("\n"@);
    let g28 = g27.p(body).p(":\n"@);
    let (g29, bx) = g28.vreg();
    let g30 = g29.p("  "@).p(bx).p(" = call i64 @lumen_from_int(i64 "@).p(i).p(")\n"@);
    let (g31, ll) = g30.vreg();
    let g32 = g31.p("  "@).p(ll).p(" = load i64, ptr "@).p(lslot).p("\n"@);
    let g33 = g32.p("  call void @lumen_list_push(i64 "@).p(ll).p(", i64 "@).p(bx).p(")\n"@);
    let (g34, i2) = g33.vreg();
    let g35 = g34.p("  "@).p(i2).p(" = add i64 "@).p(i).p(", 1\n"@);
    let g36 = g35.p("  store i64 "@).p(i2).p(", ptr "@).p(islot).p("\n"@);
    let g37 = g36.p("  br label %"@).p(top).p("\n"@);
    let g38 = g37.p(end).p(":\n"@);
    let (g39, r) = g38.vreg();
    let g40 = g39.p("  "@).p(r).p(" = load i64, ptr "@).p(lslot).p("\n"@);
    let g41 = g40.give(r);
    g41
}

pub open spec fn range_needs(g: Ir, env: IrEnvView) -> Ir {
    let g1 = g.need("lumen_to_int"@, "i64 @lumen_to_int(i64)"@);
    let g2 = g1.need("lumen_from_int"@, "i64 @lumen_from_int(i64)"@);
    let g3 = g2.need("lumen_list_new"@, "i64 @lumen_list_new(i64)"@);
    let g4 = g3.need("lumen_list_push"@, "void @lumen_list_push(i64, i64)"@);
    g4
}

/// A closure without its captured values.
pub open spec fn closure_open(
    g: Ir,
    env: IrEnvView,
    name: Seq<char>,
    total: nat,
    user: nat,
    ncap: nat,
) -> (Ir, Seq<char>) {
    let sym = "lm_"@ + name;
    let g1 = g.need_call(sym, total);
    let g2 = g1.need("lumen_closure_new"@, "i64 @lumen_closure_new(ptr, i64, i64)"@);
    let g3 = g2.need("lumen_closure_set_cap"@, "void @lumen_closure_set_cap(i64, i64, i64)"@);
    let (g4, clo) = g3.vreg();
    let g5 = g4.p("  "@).p(clo).p(" = call i64 @lumen_closure_new(ptr @"@).p(sym).p(", i64 "@)
        .u(user as nat).p(", i64 "@).u(ncap as nat).p(")\n"@);
    let (g6, cslot) = g5.vreg();
    let g7 = g6.p("  "@).p(cslot).p(" = alloca i64\n"@);
    let g8 = g7.p("  store i64 "@).p(clo).p(", ptr "@).p(cslot).p("\n"@);
    (g8, cslot)
}

/// A struct without its fields.
pub open spec fn struct_open(
    g: Ir,
    env: IrEnvView,
    name: Seq<char>,
    fields: Seq<FieldView>,
) -> (Ir, Seq<char>) {
    let g1 = g.need("lumen_struct_new"@, "i64 @lumen_struct_new(ptr, i64, ptr)"@);
    let g2 = g1.need("lumen_struct_set"@, "void @lumen_struct_set(i64, ptr, i64)"@);
    let (g3, arr) = g2.field_table(name, fields);
    let (g4, nm) = g3.add_str(name);
    let (g5, np) = g4.vreg();
    let g6 = g5.p("  "@).p(np).p(" = "@).p(nm).p("\n"@);
    let n = fields.len();
    let (g7, sv) = g6.vreg();
    let g8 = g7.p("  "@).p(sv).p(" = call i64 @lumen_struct_new(ptr "@).p(np).p(", i64 "@)
        .u(n as nat).p(", ptr "@).p(arr).p(")\n"@);
    let (g9, svslot) = g8.vreg();
    let g10 = g9.p("  "@).p(svslot).p(" = alloca i64\n"@);
    let g11 = g10.p("  store i64 "@).p(sv).p(", ptr "@).p(svslot).p("\n"@);
    (g11, svslot)
}

pub open spec fn set_field(
    g: Ir,
    env: IrEnvView,
    svslot: Seq<char>,
    name: Seq<char>,
    v: Seq<char>,
) -> Ir {
    let (g1, c) = g.add_str(name);
    let (g2, fp) = g1.vreg();
    let g3 = g2.p("  "@).p(fp).p(" = "@).p(c).p("\n"@);
    let (g4, s) = g3.vreg();
    let g5 = g4.p("  "@).p(s).p(" = load i64, ptr "@).p(svslot).p("\n"@);
    let g6 = g5.p("  call void @lumen_struct_set(i64 "@).p(s).p(", ptr "@).p(fp).p(", i64 "@)
        .p(v).p(")\n"@);
    g6
}

/// Evaluates the first `k` expressions: the arguments of a call, after `first`.
pub open spec fn args_text(
    g: Ir,
    env: IrEnvView,
    s: Seq<ExprView>,
    k: nat,
    first: Seq<char>,
) -> (Ir, Seq<char>)
    decreases s, 9nat, k,
{
    if k == 0 || k > s.len() {
        (g, first)
    } else {
        let (g0, text) = args_text(g, env, s, (k - 1) as nat, first);
        let i = k - 1;
        let e = s[i];
        let g1 = gen_expr(g0, env, e);
        let v = g1.val;
        (g1, with_arg(text, v))
    }
}

pub open spec fn list_items(g: Ir, env: IrEnvView, s: Seq<ExprView>, k: nat, slot: Seq<char>) -> Ir
    decreases s, 9nat, k,
{
    if k == 0 || k > s.len() {
        g
    } else {
        let g0 = list_items(g, env, s, (k - 1) as nat, slot);
        let i = k - 1;
        let e = s[i];
        let g1 = gen_expr(g0, env, e);
        let v = g1.val;
        let (g2, l) = g1.vreg();
        let g3 = g2.p("  "@).p(l).p(" = load i64, ptr "@).p(slot).p("\n"@);
        let g4 = g3.p("  call void @lumen_list_push(i64 "@).p(l).p(", i64 "@).p(v).p(")\n"@);
        g4
    }
}

pub open spec fn set_entry(
    g: Ir,
    env: IrEnvView,
    slot: Seq<char>,
    kv: Seq<char>,
    vv: Seq<char>,
) -> Ir {
    let (g1, m) = g.vreg();
    let g2 = g1.p("  "@).p(m).p(" = load i64, ptr "@).p(slot).p("\n"@);
    let g3 = g2.p("  call void @lumen_map_set(i64 "@).p(m).p(", i64 "@).p(kv).p(", i64 "@).p(vv)
        .p(")\n"@);
    g3
}

pub open spec fn map_entries(
    g: Ir,
    env: IrEnvView,
    s: Seq<(ExprView, ExprView)>,
    k: nat,
    slot: Seq<char>,
) -> Ir
    decreases s, 9nat, k,
{
    if k == 0 || k > s.len() {
        g
    } else {
        let g0 = map_entries(g, env, s, (k - 1) as nat, slot);
        let i = k - 1;
        let (a, b) = s[i];
        let g1 = gen_expr(g0, env, a);
        let kv = g1.val;
        let g2 = gen_expr(g1, env, b);
        let vv = g2.val;
        let g3 = set_entry(g2, env, slot, kv, vv);
        g3
    }
}

pub open spec fn fstr_parts(
    g: Ir,
    env: IrEnvView,
    s: Seq<FStrPartView>,
    k: nat,
    slot: Seq<char>,
) -> Ir
    decreases s, 9nat, k,
{
    if k == 0 || k > s.len() {
        g
    } else {
        let g0 = fstr_parts(g, env, s, (k - 1) as nat, slot);
        let i = k - 1;
        let part = s[i];
        let g1 = match part {
            FStrPartView::Lit(l) => {
                let (g2, c) = g0.add_str(l);
                let (g3, pp) = g2.vreg();
                let g4 = g3.p("  "@).p(pp).p(" = "@).p(c).p("\n"@);
                let (g5, r) = g4.vreg();
                let g6 = g5.p("  "@).p(r).p(" = call i64 @lumen_str_new(ptr "@).p(pp).p(")\n"@);
                let g7 = g6.give(r);
                g7
            },
            FStrPartView::Expr(x) => {
                let g8 = gen_expr(g0, env, x);
                let v = g8.val;
                let (g9, r) = g8.vreg();
                let g10 = g9.p("  "@).p(r).p(" = call i64 @lumen_to_str(i64 "@).p(v).p(")\n"@);
                let g11 = g10.give(r);
                g11
            },
        };
        let piece = g1.val;
        let (g12, acc) = g1.vreg();
        let g13 = g12.p("  "@).p(acc).p(" = load i64, ptr "@).p(slot).p("\n"@);
        let (g14, cat) = g13.vreg();
        let g15 = g14.p("  "@).p(cat).p(" = call i64 @lumen_str_concat(i64 "@).p(acc)
            .p(", i64 "@).p(piece).p(")\n"@);
        let g16 = g15.p("  store i64 "@).p(cat).p(", ptr "@).p(slot).p("\n"@);
        g16
    }
}

pub open spec fn print_parts(g: Ir, env: IrEnvView, s: Seq<ExprView>, k: nat) -> Ir
    decreases s, 9nat, k,
{
    if k == 0 || k > s.len() {
        g
    } else {
        let g0 = print_parts(g, env, s, (k - 1) as nat);
        let i = k - 1;
        let e = s[i];
        let g1 = if i > 0 {
            let g2 = g0.p("  call void @lumen_print_space()\n"@);
            g2
        } else {
            g0
        };
        let g3 = gen_expr(g1, env, e);
        let v = g3.val;
        let g4 = g3.p("  call void @lumen_print_part(i64 "@).p(v).p(")\n"@);
        g4
    }
}

pub open spec fn closure_caps(
    g: Ir,
    env: IrEnvView,
    s: Seq<ExprView>,
    k: nat,
    slot: Seq<char>,
) -> Ir
    decreases s, 9nat, k,
{
    if k == 0 || k > s.len() {
        g
    } else {
        let g0 = closure_caps(g, env, s, (k - 1) as nat, slot);
        let i = k - 1;
        let e = s[i];
        let g1 = gen_expr(g0, env, e);
        let v = g1.val;
        let (g2, c) = g1.vreg();
        let g3 = g2.p("  "@).p(c).p(" = load i64, ptr "@).p(slot).p("\n"@);
        let g4 = g3.p("  call void @lumen_closure_set_cap(i64 "@).p(c).p(", i64 "@).u(i as nat)
            .p(", i64 "@).p(v).p(")\n"@);
        g4
    }
}

pub open spec fn set_positional(
    g: Ir,
    env: IrEnvView,
    s: Seq<ExprView>,
    k: nat,
    slot: Seq<char>,
    fields: Seq<FieldView>,
) -> Ir
    decreases s, 9nat, k,
{
    if k == 0 || k > s.len() {
        g
    } else {
        let g0 = set_positional(g, env, s, (k - 1) as nat, slot, fields);
        let i = k - 1;
        let e = s[i];
        let g1 = gen_expr(g0, env, e);
        let v = g1.val;
        let name = field_name(fields, i as int);
        let g2 = set_field(g1, env, slot, name, v);
        g2
    }
}

/// An operation on unboxed integers.
pub open spec fn int_arith(g: Ir, env: IrEnvView, e: ExprView) -> Ir
    decreases e, 1nat, 0nat,
{
    let g1 = match e {
        ExprView::Binary { op, lhs, rhs } => {
            let g2 = match int_ins(env, op, *lhs, *rhs) {
                Some(ins) => {
                    let g3 = eval_int(g, env, *lhs);
                    let a = g3.val;
                    let g4 = eval_int(g3, env, *rhs);
                    let b = g4.val;
                    let (g5, r) = g4.vreg();
                    let g6 = g5.p("  "@).p(r).p(" = "@).p(ins).p(" i64 "@).p(a).p(", "@).p(b)
                        .p("\n"@);
                    let g7 = g6.give(r);
                    let g8 = if ring_op(op) {
                        let g9 = wrap_int(g7, env);
                        g9
                    } else {
                        g7
                    };
                    g8
                },
                None => {
                    g
                },
            };
            g2
        },
        _ => {
            g
        },
    };
    g1
}

pub open spec fn int_test(g: Ir, env: IrEnvView, e: ExprView) -> Ir
    decreases e, 1nat, 0nat,
{
    let g1 = match e {
        ExprView::Binary { op, lhs, rhs } => {
            let g2 = eval_int(g, env, *lhs);
            let a = g2.val;
            let g3 = eval_int(g2, env, *rhs);
            let b = g3.val;
            let g4 = match icc(op) {
                Some(cc) => {
                    let (g5, r) = g3.vreg();
                    let g6 = g5.p("  "@).p(r).p(" = icmp "@).p(cc).p(" i64 "@).p(a).p(", "@)
                        .p(b).p("\n"@);
                    let g7 = g6.give(r);
                    g7
                },
                None => {
                    g3
                },
            };
            g4
        },
        _ => {
            g
        },
    };
    g1
}

/// A known integer, unboxed.
pub open spec fn eval_int(g: Ir, env: IrEnvView, e: ExprView) -> Ir
    decreases e, 6nat, 0nat,
{
    let g1 = match e {
        ExprView::Int(n) => {
            let t = dec(wrap48_spec(n as int));
            let g2 = g.give(t);
            g2
        },
        ExprView::Unary { op, expr } => {
            let g3 = if op == UnOp::Neg {
                let g4 = eval_int(g, env, *expr);
                let a = g4.val;
                let (g5, r) = g4.vreg();
                let g6 = g5.p("  "@).p(r).p(" = sub i64 0, "@).p(a).p("\n"@);
                let g7 = g6.give(r);
                let g8 = wrap_int(g7, env);
                g8
            } else {
                let g9 = gen_expr(g, env, e);
                let g10 = wrap_int(g9, env);
                g10
            };
            g3
        },
        ExprView::Binary { op, lhs, rhs } => {
            let g11 = if int_ins(env, op, *lhs, *rhs) is Some {
                let g12 = int_arith(g, env, e);
                g12
            } else {
                let g13 = gen_expr(g, env, e);
                let g14 = wrap_int(g13, env);
                g14
            };
            g11
        },
        _ => {
            let g15 = gen_expr(g, env, e);
            let g16 = wrap_int(g15, env);
            g16
        },
    };
    g1
}

/// An operation on unboxed floats.
pub open spec fn float_arith(g: Ir, env: IrEnvView, e: ExprView) -> Ir
    decreases e, 1nat, 0nat,
{
    let g1 = match e {
        ExprView::Binary { op, lhs, rhs } => {
            let g2 = match float_ins_of(env, op, *lhs, *rhs) {
                Some(ins) => {
                    let g3 = eval_float(g, env, *lhs);
                    let a = g3.val;
                    let g4 = eval_float(g3, env, *rhs);
                    let b = g4.val;
                    let (g5, r) = g4.vreg();
                    let g6 = g5.p("  "@).p(r).p(" = "@).p(ins).p(" double "@).p(a).p(", "@).p(b)
                        .p("\n"@);
                    let g7 = g6.give(r);
                    g7
                },
                None => {
                    g
                },
            };
            g2
        },
        _ => {
            g
        },
    };
    g1
}

pub open spec fn float_test(g: Ir, env: IrEnvView, e: ExprView) -> Ir
    decreases e, 1nat, 0nat,
{
    let g1 = match e {
        ExprView::Binary { op, lhs, rhs } => {
            let g2 = eval_float(g, env, *lhs);
            let a = g2.val;
            let g3 = eval_float(g2, env, *rhs);
            let b = g3.val;
            let g4 = match fcc(op) {
                Some(cc) => {
                    let (g5, r) = g3.vreg();
                    let g6 = g5.p("  "@).p(r).p(" = fcmp "@).p(cc).p(" double "@).p(a).p(", "@)
                        .p(b).p("\n"@);
                    let g7 = g6.give(r);
                    g7
                },
                None => {
                    g3
                },
            };
            g4
        },
        _ => {
            g
        },
    };
    g1
}

/// A known float, unboxed.
pub open spec fn eval_float(g: Ir, env: IrEnvView, e: ExprView) -> Ir
    decreases e, 6nat, 0nat,
{
    let g1 = match e {
        ExprView::Float(b) => {
            let t = double_text(b);
            let g2 = g.give(t);
            g2
        },
        ExprView::Unary { op, expr } => {
            let g3 = if op == UnOp::Neg {
                let g4 = eval_float(g, env, *expr);
                let a = g4.val;
                let (g5, r) = g4.vreg();
                let g6 = g5.p("  "@).p(r).p(" = fneg double "@).p(a).p("\n"@);
                let g7 = g6.give(r);
                g7
            } else {
                let g8 = gen_expr(g, env, e);
                let v = g8.val;
                let (g9, r) = g8.vreg();
                let g10 = g9.p("  "@).p(r).p(" = bitcast i64 "@).p(v).p(" to double\n"@);
                let g11 = g10.give(r);
                g11
            };
            g3
        },
        ExprView::Binary { op, lhs, rhs } => {
            let g12 = if float_ins_of(env, op, *lhs, *rhs) is Some {
                let g13 = float_arith(g, env, e);
                g13
            } else {
                let g14 = gen_expr(g, env, e);
                let v = g14.val;
                let (g15, r) = g14.vreg();
                let g16 = g15.p("  "@).p(r).p(" = bitcast i64 "@).p(v).p(" to double\n"@);
                let g17 = g16.give(r);
                g17
            };
            g12
        },
        _ => {
            let g18 = gen_expr(g, env, e);
            let v = g18.val;
            let (g19, r) = g18.vreg();
            let g20 = g19.p("  "@).p(r).p(" = bitcast i64 "@).p(v).p(" to double\n"@);
            let g21 = g20.give(r);
            g21
        },
    };
    g1
}

/// A condition, as a bit.
pub open spec fn gen_truthy(g: Ir, env: IrEnvView, e: ExprView) -> Ir
    decreases e, 6nat, 0nat,
{
    let g1 = match test_form(env, e) {
        TestForm::Int => {
            let g2 = int_test(g, env, e);
            g2
        },
        TestForm::Float => {
            let g3 = float_test(g, env, e);
            g3
        },
        TestForm::Boxed => {
            let g4 = gen_expr(g, env, e);
            let g5 = to_test(g4, env);
            g5
        },
    };
    g1
}

/// A binary operation, boxed.
pub open spec fn gen_binary(g: Ir, env: IrEnvView, e: ExprView) -> Ir
    decreases e, 2nat, 0nat,
{
    let g1 = match e {
        ExprView::Binary { op, lhs, rhs } => {
            let g2 = match bin_form(env, op, *lhs, *rhs) {
                BinForm::Short => {
                    let (g3, slot) = g.vreg();
                    let g4 = g3.p("  "@).p(slot).p(" = alloca i64\n"@);
                    let g5 = gen_expr(g4, env, *lhs);
                    let l = g5.val;
                    let g6 = g5.p("  store i64 "@).p(l).p(", ptr "@).p(slot).p("\n"@);
                    let g7 = g6.need("lumen_truthy"@, "i32 @lumen_truthy(i64)"@);
                    let (g8, t) = g7.vreg();
                    let g9 = g8.p("  "@).p(t).p(" = call i32 @lumen_truthy(i64 "@).p(l).p(")\n"@);
                    let (g10, c) = g9.vreg();
                    let g11 = g10.p("  "@).p(c).p(" = icmp ne i32 "@).p(t).p(", 0\n"@);
                    let (g12, rhsl) = g11.label("sc_rhs"@);
                    let (g13, end) = g12.label("sc_end"@);
                    let g14 = if op == BinOp::And {
                        let g15 = g13.p("  br i1 "@).p(c).p(", label %"@).p(rhsl)
                            .p(", label %"@).p(end).p("\n"@);
                        g15
                    } else {
                        let g16 = g13.p("  br i1 "@).p(c).p(", label %"@).p(end).p(", label %"@)
                            .p(rhsl).p("\n"@);
                        g16
                    };
                    let g17 = g14.p(rhsl).p(":\n"@);
                    let g18 = gen_expr(g17, env, *rhs);
                    let rv = g18.val;
                    let g19 = g18.p("  store i64 "@).p(rv).p(", ptr "@).p(slot).p("\n"@);
                    let g20 = g19.p("  br label %"@).p(end).p("\n"@);
                    let g21 = g20.p(end).p(":\n"@);
                    let (g22, r) = g21.vreg();
                    let g23 = g22.p("  "@).p(r).p(" = load i64, ptr "@).p(slot).p("\n"@);
                    let g24 = g23.give(r);
                    g24
                },
                BinForm::Int => {
                    let g25 = int_arith(g, env, e);
                    let g26 = box_int(g25, env);
                    g26
                },
                BinForm::IntTest => {
                    let g27 = int_test(g, env, e);
                    let g28 = box_bool(g27, env);
                    g28
                },
                BinForm::Float => {
                    let g29 = float_arith(g, env, e);
                    let v = g29.val;
                    let (g30, r) = g29.vreg();
                    let g31 = g30.p("  "@).p(r).p(" = bitcast double "@).p(v).p(" to i64\n"@);
                    let g32 = g31.give(r);
                    g32
                },
                BinForm::FloatTest => {
                    let g33 = float_test(g, env, e);
                    let g34 = box_bool(g33, env);
                    g34
                },
                BinForm::Boxed => {
                    let g35 = gen_expr(g, env, *lhs);
                    let l = g35.val;
                    let g36 = gen_expr(g35, env, *rhs);
                    let rv = g36.val;
                    let f = runtime_op(op);
                    let g37 = g36.need_call(f, 2);
                    let (g38, r) = g37.vreg();
                    let g39 = g38.p("  "@).p(r).p(" = call i64 @"@).p(f).p("(i64 "@).p(l)
                        .p(", i64 "@).p(rv).p(")\n"@);
                    let g40 = g39.give(r);
                    g40
                },
            };
            g2
        },
        _ => {
            g
        },
    };
    g1
}

/// A call of a value.
pub open spec fn indirect(g: Ir, env: IrEnvView, e: ExprView) -> Ir
    decreases e, 1nat, 0nat,
{
    let g1 = match e {
        ExprView::Call { callee, args } => {
            let g2 = if args.len() > 4 {
                let g3 = g.fail("indirect call supports up to 4 args"@);
                g3
            } else {
                let g4 = gen_expr(g, env, *callee);
                let f = g4.val;
                let first = "i64 "@ + f;
                let (g5, sig) = args_text(g4, env, args, args.len(), first);
                let n = args.len();
                let sym = "lumen_call"@ + dec_nat(n as nat);
                let m = n + 1;
                let g6 = g5.need_call(sym, m);
                let (g7, r) = g6.vreg();
                let g8 = g7.p("  "@).p(r).p(" = call i64 @"@).p(sym).p("("@).p(sig).p(")\n"@);
                let g9 = g8.give(r);
                g9
            };
            g2
        },
        _ => {
            g
        },
    };
    g1
}

pub open spec fn call_print(g: Ir, env: IrEnvView, e: ExprView) -> Ir
    decreases e, 1nat, 0nat,
{
    let g1 = match e {
        ExprView::Call { callee: _, args } => {
            let g2 = if args.len() == 0 {
                let g3 = g.need("lumen_print_nl"@, "void @lumen_print_nl()"@);
                let g4 = g3.need("lumen_nil"@, "i64 @lumen_nil()"@);
                let g5 = g4.p("  call void @lumen_print_nl()\n"@);
                let g6 = nil_value(g5, env);
                g6
            } else {
                let g7 = if args.len() == 1 {
                    let g8 = g.need("lumen_print"@, "void @lumen_print(i64)"@);
                    let g9 = g8.need("lumen_nil"@, "i64 @lumen_nil()"@);
                    let g10 = gen_expr(g9, env, args[0]);
                    let v = g10.val;
                    let g11 = g10.p("  call void @lumen_print(i64 "@).p(v).p(")\n"@);
                    let g12 = nil_value(g11, env);
                    g12
                } else {
                    let g13 = g.need("lumen_print_part"@, "void @lumen_print_part(i64)"@);
                    let g14 = g13.need("lumen_print_space"@, "void @lumen_print_space()"@);
                    let g15 = g14.need("lumen_print_nl"@, "void @lumen_print_nl()"@);
                    let g16 = g15.need("lumen_nil"@, "i64 @lumen_nil()"@);
                    let g17 = print_parts(g16, env, args, args.len());
                    let g18 = g17.p("  call void @lumen_print_nl()\n"@);
                    let g19 = nil_value(g18, env);
                    g19
                };
                g7
            };
            g2
        },
        _ => {
            g
        },
    };
    g1
}

pub open spec fn call_len(g: Ir, env: IrEnvView, e: ExprView) -> Ir
    decreases e, 1nat, 0nat,
{
    let g1 = match e {
        ExprView::Call { callee: _, args } => {
            let g2 = if args.len() == 0 {
                let g3 = g.fail("missing argument"@);
                g3
            } else {
                let g4 = g.need("lumen_len"@, "i64 @lumen_len(i64)"@);
                let g5 = g4.need("lumen_from_int"@, "i64 @lumen_from_int(i64)"@);
                let g6 = gen_expr(g5, env, args[0]);
                let v = g6.val;
                let (g7, k) = g6.vreg();
                let g8 = g7.p("  "@).p(k).p(" = call i64 @lumen_len(i64 "@).p(v).p(")\n"@);
                let (g9, r) = g8.vreg();
                let g10 = g9.p("  "@).p(r).p(" = call i64 @lumen_from_int(i64 "@).p(k).p(")\n"@);
                let g11 = g10.give(r);
                g11
            };
            g2
        },
        _ => {
            g
        },
    };
    g1
}

pub open spec fn call_range(g: Ir, env: IrEnvView, e: ExprView) -> Ir
    decreases e, 1nat, 0nat,
{
    let g1 = match e {
        ExprView::Call { callee: _, args } => {
            let g2 = if args.len() == 1 {
                let g3 = range_needs(g, env);
                let g4 = int_lit(g3, env, 0);
                let lov = g4.val;
                let g5 = gen_expr(g4, env, args[0]);
                let hiv = g5.val;
                let g6 = range_list(g5, env, lov, hiv);
                g6
            } else {
                let g7 = if args.len() == 2 {
                    let g8 = range_needs(g, env);
                    let g9 = gen_expr(g8, env, args[0]);
                    let lov = g9.val;
                    let g10 = gen_expr(g9, env, args[1]);
                    let hiv = g10.val;
                    let g11 = range_list(g10, env, lov, hiv);
                    g11
                } else {
                    let g12 = g.fail("range() takes 1 or 2 args"@);
                    g12
                };
                g7
            };
            g2
        },
        _ => {
            g
        },
    };
    g1
}

pub open spec fn call_input(g: Ir, env: IrEnvView, e: ExprView) -> Ir
    decreases e, 1nat, 0nat,
{
    let g1 = match e {
        ExprView::Call { callee: _, args } => {
            let g2 = g.need_call("lumen_input"@, 1);
            let g3 = g2.need("lumen_nil"@, "i64 @lumen_nil()"@);
            let g4 = if args.len() == 0 {
                let g5 = nil_value(g3, env);
                g5
            } else {
                let g6 = gen_expr(g3, env, args[0]);
                g6
            };
            let v = g4.val;
            let (g7, r) = g4.vreg();
            let g8 = g7.p("  "@).p(r).p(" = call i64 @lumen_input(i64 "@).p(v).p(")\n"@);
            let g9 = g8.give(r);
            g9
        },
        _ => {
            g
        },
    };
    g1
}

pub open spec fn call_quiet(g: Ir, env: IrEnvView, e: ExprView, n: Seq<char>) -> Ir
    decreases e, 1nat, 0nat,
{
    let g1 = match e {
        ExprView::Call { callee: _, args } => {
            let g2 = if args.len() == 0 {
                let g3 = g.fail("missing argument"@);
                g3
            } else {
                let sym = (if n == "assert"@ { "lumen_assert"@ } else { "lumen_release"@ });
                let sig = "void @"@ + sym + "(i64)"@;
                let g4 = g.need(sym, sig);
                let g5 = g4.need("lumen_nil"@, "i64 @lumen_nil()"@);
                let g6 = gen_expr(g5, env, args[0]);
                let v = g6.val;
                let g7 = g6.p("  call void @"@).p(sym).p("(i64 "@).p(v).p(")\n"@);
                let g8 = nil_value(g7, env);
                g8
            };
            g2
        },
        _ => {
            g
        },
    };
    g1
}

pub open spec fn call_one(g: Ir, env: IrEnvView, e: ExprView, n: Seq<char>) -> Ir
    decreases e, 1nat, 0nat,
{
    let g1 = match e {
        ExprView::Call { callee: _, args } => {
            let g2 = if args.len() == 0 {
                let g3 = g.fail("missing argument"@);
                g3
            } else {
                let g4 = match one_value_fn(n) {
                    Some(sym) => {
                        let g5 = g.need_call(sym, 1);
                        let g6 = gen_expr(g5, env, args[0]);
                        let v = g6.val;
                        let (g7, r) = g6.vreg();
                        let g8 = g7.p("  "@).p(r).p(" = call i64 @"@).p(sym).p("(i64 "@).p(v)
                            .p(")\n"@);
                        let g9 = g8.give(r);
                        g9
                    },
                    None => {
                        g
                    },
                };
                g4
            };
            g2
        },
        _ => {
            g
        },
    };
    g1
}

pub open spec fn call_struct(g: Ir, env: IrEnvView, e: ExprView, n: Seq<char>) -> Ir
    decreases e, 1nat, 0nat,
{
    let g1 = match e {
        ExprView::Call { callee: _, args } => {
            let g2 = match ir_fields(env, n) {
                Some(fields) => {
                    let (g3, slot) = struct_open(g, env, n, fields);
                    let g4 = set_positional(
                        g3,
                        env,
                        args,
                        (if args.len() <= fields.len() { args.len() } else { fields.len() }),
                        slot,
                        fields,
                    );
                    let (g5, r) = g4.vreg();
                    let g6 = g5.p("  "@).p(r).p(" = load i64, ptr "@).p(slot).p("\n"@);
                    let g7 = g6.give(r);
                    g7
                },
                None => {
                    g
                },
            };
            g2
        },
        _ => {
            g
        },
    };
    g1
}

pub open spec fn call_direct(g: Ir, env: IrEnvView, e: ExprView, n: Seq<char>) -> Ir
    decreases e, 1nat, 0nat,
{
    let g1 = match e {
        ExprView::Call { callee: _, args } => {
            let sym = "lm_"@ + n;
            let (g2, sig) = args_text(g, env, args, args.len(), ""@);
            let k = args.len();
            let g3 = g2.need_call(sym, k);
            let (g4, r) = g3.vreg();
            let g5 = g4.p("  "@).p(r).p(" = call i64 @"@).p(sym).p("("@).p(sig).p(")\n"@);
            let g6 = g5.give(r);
            g6
        },
        _ => {
            g
        },
    };
    g1
}

/// A call.
pub open spec fn gen_call(g: Ir, env: IrEnvView, e: ExprView) -> Ir
    decreases e, 2nat, 0nat,
{
    let g1 = match e {
        ExprView::Call { callee, args } => {
            let g2 = match *callee {
                ExprView::Ident(n) => {
                    let g3 = match call_kind(g, env, n) {
                        IrCall::Value => {
                            let g4 = indirect(g, env, e);
                            g4
                        },
                        IrCall::Print => {
                            let g5 = call_print(g, env, e);
                            g5
                        },
                        IrCall::Len => {
                            let g6 = call_len(g, env, e);
                            g6
                        },
                        IrCall::Range => {
                            let g7 = call_range(g, env, e);
                            g7
                        },
                        IrCall::Input => {
                            let g8 = call_input(g, env, e);
                            g8
                        },
                        IrCall::Quiet => {
                            let g9 = call_quiet(g, env, e, n);
                            g9
                        },
                        IrCall::One => {
                            let g10 = call_one(g, env, e, n);
                            g10
                        },
                        IrCall::Struct => {
                            let g11 = call_struct(g, env, e, n);
                            g11
                        },
                        IrCall::Extern => {
                            let g12 = g.fail(
                                "LLVM backend: extern/FFI not yet supported (use --backend asm)"@,
                            );
                            g12
                        },
                        IrCall::Direct => {
                            let g13 = call_direct(g, env, e, n);
                            g13
                        },
                        IrCall::Unknown => {
                            let m = "undefined function '"@ + n + "'"@;
                            let g14 = g.fail(m);
                            g14
                        },
                    };
                    g3
                },
                _ => {
                    let g15 = indirect(g, env, e);
                    g15
                },
            };
            g2
        },
        _ => {
            g
        },
    };
    g1
}

/// A call of a method or of a function of a module.
pub open spec fn gen_method(g: Ir, env: IrEnvView, e: ExprView) -> Ir
    decreases e, 2nat, 0nat,
{
    let g1 = match e {
        ExprView::Method { obj, name, args } => {
            let g2 = match module_name(*obj) {
                Some(md) => {
                    let g3 = match lookup_spec(md, name, 0) {
                        Some(bf) => {
                            let sym = bf.symbol;
                            let (g4, sig) = args_text(g, env, args, args.len(), ""@);
                            let k = args.len();
                            let g5 = g4.need_call(sym, k);
                            let (g6, r) = g5.vreg();
                            let g7 = g6.p("  "@).p(r).p(" = call i64 @"@).p(sym).p("("@).p(sig)
                                .p(")\n"@);
                            let g8 = g7.give(r);
                            g8
                        },
                        None => {
                            let m = "native "@ + md + ": no fn '"@ + name + "'"@;
                            let g9 = g.fail(m);
                            g9
                        },
                    };
                    g3
                },
                None => {
                    let g10 = match method_owner(env.methods, name, 0) {
                        Some(owner) => {
                            let g11 = gen_expr(g, env, *obj);
                            let recv = g11.val;
                            let first = "i64 "@ + recv;
                            let (g12, sig) = args_text(g11, env, args, args.len(), first);
                            let sym = "lm_"@ + owner + "__"@ + name;
                            let k = next64(args.len() as u64) as nat;
                            let g13 = g12.need_call(sym, k);
                            let (g14, r) = g13.vreg();
                            let g15 = g14.p("  "@).p(r).p(" = call i64 @"@).p(sym).p("("@)
                                .p(sig).p(")\n"@);
                            let g16 = g15.give(r);
                            g16
                        },
                        None => {
                            let g17 = if name == "get"@ {
                                let g18 = gen_expr(g, env, *obj);
                                let recv = g18.val;
                                let first = "i64 "@ + recv;
                                let (g19, sig) = args_text(g18, env, args, args.len(), first);
                                let sym = (
                                    if args.len() == 2 { "lumen_map_get_or"@ } else { "lumen_map_get"@ }
                                );
                                let k = next64(args.len() as u64) as nat;
                                let g20 = g19.need_call(sym, k);
                                let (g21, r) = g20.vreg();
                                let g22 = g21.p("  "@).p(r).p(" = call i64 @"@).p(sym).p("("@)
                                    .p(sig).p(")\n"@);
                                let g23 = g22.give(r);
                                g23
                            } else {
                                let g24 = if name == "len"@ && args.len() == 0 {
                                    let g25 = g.need("lumen_len"@, "i64 @lumen_len(i64)"@);
                                    let g26 = g25.need(
                                        "lumen_from_int"@,
                                        "i64 @lumen_from_int(i64)"@,
                                    );
                                    let g27 = gen_expr(g26, env, *obj);
                                    let v = g27.val;
                                    let (g28, k) = g27.vreg();
                                    let g29 = g28.p("  "@).p(k)
                                        .p(" = call i64 @lumen_len(i64 "@).p(v).p(")\n"@);
                                    let (g30, r) = g29.vreg();
                                    let g31 = g30.p("  "@).p(r)
                                        .p(" = call i64 @lumen_from_int(i64 "@).p(k).p(")\n"@);
                                    let g32 = g31.give(r);
                                    g32
                                } else {
                                    let g33 = gen_expr(g, env, *obj);
                                    let recv = g33.val;
                                    let first = "i64 "@ + recv;
                                    let g34 = match builtin_method(name) {
                                        Some(sym) => {
                                            let k = next64(args.len() as u64) as nat;
                                            let g35 = g33.need_call(sym, k);
                                            let (g36, sig) = args_text(
                                                g35,
                                                env,
                                                args,
                                                args.len(),
                                                first,
                                            );
                                            let (g37, r) = g36.vreg();
                                            let g38 = g37.p("  "@).p(r).p(" = call i64 @"@)
                                                .p(sym).p("("@).p(sig).p(")\n"@);
                                            let g39 = g38.give(r);
                                            g39
                                        },
                                        None => {
                                            let m = "unknown method '"@ + name + "'"@;
                                            let g40 = g33.fail(m);
                                            g40
                                        },
                                    };
                                    g34
                                };
                                g24
                            };
                            g17
                        },
                    };
                    g10
                },
            };
            g2
        },
        _ => {
            g
        },
    };
    g1
}

/// Adds an item to the list of a comprehension, as `push` does.
pub open spec fn comp_push(g: Ir, env: IrEnvView, e: ExprView, slot: Seq<char>) -> Ir
    decreases e, 7nat, 0nat,
{
    let g1 = match method_owner(env.methods, "push"@, 0) {
        Some(owner) => {
            let (g2, recv) = g.vreg();
            let g3 = g2.p("  "@).p(recv).p(" = load i64, ptr "@).p(slot).p("\n"@);
            let g4 = gen_expr(g3, env, e);
            let v = g4.val;
            let sym = "lm_"@ + owner + "__push"@;
            let g5 = g4.need_call(sym, 2);
            let (g6, r) = g5.vreg();
            let g7 = g6.p("  "@).p(r).p(" = call i64 @"@).p(sym).p("(i64 "@).p(recv)
                .p(", i64 "@).p(v).p(")\n"@);
            let g8 = g7.give(r);
            g8
        },
        None => {
            let (g9, recv) = g.vreg();
            let g10 = g9.p("  "@).p(recv).p(" = load i64, ptr "@).p(slot).p("\n"@);
            let g11 = g10.need_call("lumen_list_push"@, 2);
            let g12 = gen_expr(g11, env, e);
            let v = g12.val;
            let (g13, r) = g12.vreg();
            let g14 = g13.p("  "@).p(r).p(" = call i64 @lumen_list_push(i64 "@).p(recv)
                .p(", i64 "@).p(v).p(")\n"@);
            let g15 = g14.give(r);
            g15
        },
    };
    g1
}

pub open spec fn comp_body(g: Ir, env: IrEnvView, e: ExprView, slot: Seq<char>) -> Ir
    decreases e, 1nat, 0nat,
{
    let g1 = match e {
        ExprView::ListComp { elem, var: _, iter: _, cond } => {
            let g2 = gc_poll(g, env);
            let g3 = match cond {
                Some(c) => {
                    let (g4, end) = g2.label("ifend"@);
                    let (g5, thenl) = g4.label("then"@);
                    let (g6, nextl) = g5.label("next"@);
                    let g7 = gen_truthy(g6, env, *c);
                    let cv = g7.val;
                    let g8 = g7.p("  br i1 "@).p(cv).p(", label %"@).p(thenl).p(", label %"@)
                        .p(nextl).p("\n"@);
                    let g9 = g8.p(thenl).p(":\n"@);
                    let g10 = comp_push(g9, env, *elem, slot);
                    let g11 = g10.p("  br label %"@).p(end).p("\n"@);
                    let g12 = g11.p(nextl).p(":\n"@);
                    let g13 = g12.p("  br label %"@).p(end).p("\n"@);
                    let g14 = g13.p(end).p(":\n"@);
                    g14
                },
                None => {
                    let g15 = comp_push(g2, env, *elem, slot);
                    g15
                },
            };
            g3
        },
        _ => {
            g
        },
    };
    g1
}

/// Keeps what a variable holds, if it has a slot: the slot, and where its value is kept.
pub open spec fn save_slot(g: Ir, var: Seq<char>) -> (Ir, Option<(Seq<char>, Seq<char>)>) {
    match g.local_of(var) {
        Some(slot) => {
            let (g1, v) = g.vreg();
            let g2 = g1.p("  "@).p(v).p(" = load i64, ptr "@).p(slot).p("\n"@);
            let (g3, kept) = g2.vreg();
            let g4 = g3.p("  "@).p(kept).p(" = alloca i64\n"@);
            let g5 = g4.p("  store i64 "@).p(v).p(", ptr "@).p(kept).p("\n"@);
            (g5, Some((slot, kept)))
        },
        None => (g, None),
    }
}

pub open spec fn slots_opt(o: Option<(String, String)>) -> Option<(Seq<char>, Seq<char>)> {
    match o {
        Some((a, b)) => Some((a@, b@)),
        None => None,
    }
}

/// Puts a value that was kept back into its slot.
pub open spec fn restore_slot(g: Ir, saved: Option<(Seq<char>, Seq<char>)>) -> Ir {
    match saved {
        Some((slot, kept)) => {
            let (g1, v) = g.vreg();
            let g2 = g1.p("  "@).p(v).p(" = load i64, ptr "@).p(kept).p("\n"@);
            g2.p("  store i64 "@).p(v).p(", ptr "@).p(slot).p("\n"@)
        },
        None => g,
    }
}

/// A list comprehension: a loop that pushes to a new list; its variable is restored.
pub open spec fn gen_comp(g: Ir, env: IrEnvView, e: ExprView) -> Ir
    decreases e, 2nat, 0nat,
{
    let g1 = match e {
        ExprView::ListComp { elem: _, var, iter, cond: _ } => {
            let g2 = g.need("lumen_list_new"@, "i64 @lumen_list_new(i64)"@);
            let (g3, k) = g2.number();
            let acc = "__lc_acc_"@ + dec_nat(k as nat);
            let (g4, lst) = g3.vreg();
            let g5 = g4.p("  "@).p(lst).p(" = call i64 @lumen_list_new(i64 0)\n"@);
            let plain = sanitized(acc);
            let slot = "%l."@ + plain;
            let g6 = g5.p("  "@).p(slot).p(" = alloca i64\n"@);
            let g7 = g6.p("  store i64 "@).p(lst).p(", ptr "@).p(slot).p("\n"@);
            let g7b = g7.bind_local(acc, slot);
            let (g8, saved) = save_slot(g7b, var);
            let g9 = match *iter {
                ExprView::Range { lo, hi } => {
                    let g10 = g8.need("lumen_to_int"@, "i64 @lumen_to_int(i64)"@);
                    let g11 = g10.need("lumen_from_int"@, "i64 @lumen_from_int(i64)"@);
                    let g12 = gen_expr(g11, env, *lo);
                    let lov = g12.val;
                    let g13 = gen_expr(g12, env, *hi);
                    let hiv = g13.val;
                    let (g14, lp) = range_begin(g13, env, var, lov, hiv);
                    let g15 = comp_body(g14, env, e, slot);
                    let cont = lp.cont;
                    let g16 = g15.p("  br label %"@).p(cont).p("\n"@);
                    let g17 = loop_step(g16, env, lp);
                    g17
                },
                _ => {
                    let g18 = g8.need("lumen_iter_prep"@, "i64 @lumen_iter_prep(i64)"@);
                    let g19 = g18.need("lumen_len"@, "i64 @lumen_len(i64)"@);
                    let g20 = g19.need("lumen_list_get"@, "i64 @lumen_list_get(i64, i64)"@);
                    let g21 = gen_expr(g20, env, *iter);
                    let it = g21.val;
                    let (g22, lp) = list_begin(g21, env, var, it);
                    let g23 = comp_body(g22, env, e, slot);
                    let cont = lp.cont;
                    let g24 = g23.p("  br label %"@).p(cont).p("\n"@);
                    let g25 = loop_step(g24, env, lp);
                    g25
                },
            };
            let g25b = restore_slot(g9, saved);
            let (g26, r) = g25b.vreg();
            let g27 = g26.p("  "@).p(r).p(" = load i64, ptr "@).p(slot).p("\n"@);
            let g28 = g27.give(r);
            g28
        },
        _ => {
            g
        },
    };
    g1
}

pub open spec fn expr_int(g: Ir, env: IrEnvView, e: ExprView) -> Ir
    decreases e, 3nat, 0nat,
{
    let g1 = match e {
        ExprView::Int(n) => {
            let g2 = int_lit(g, env, n);
            g2
        },
        _ => {
            g
        },
    };
    g1
}

pub open spec fn expr_float(g: Ir, env: IrEnvView, e: ExprView) -> Ir
    decreases e, 3nat, 0nat,
{
    let g1 = match e {
        ExprView::Float(b) => {
            let g2 = g.need("lumen_from_double"@, "i64 @lumen_from_double(double)"@);
            let t = double_text(b);
            let (g3, r) = g2.vreg();
            let g4 = g3.p("  "@).p(r).p(" = call i64 @lumen_from_double(double "@).p(t).p(")\n"@);
            let g5 = g4.give(r);
            g5
        },
        _ => {
            g
        },
    };
    g1
}

pub open spec fn expr_bool(g: Ir, env: IrEnvView, e: ExprView) -> Ir
    decreases e, 3nat, 0nat,
{
    let g1 = match e {
        ExprView::Bool(b) => {
            let g2 = g.need("lumen_bool"@, "i64 @lumen_bool(i32)"@);
            let g3 = if b {
                let (g4, r) = g2.vreg();
                let g5 = g4.p("  "@).p(r).p(" = call i64 @lumen_bool(i32 1)\n"@);
                let g6 = g5.give(r);
                g6
            } else {
                let (g7, r) = g2.vreg();
                let g8 = g7.p("  "@).p(r).p(" = call i64 @lumen_bool(i32 0)\n"@);
                let g9 = g8.give(r);
                g9
            };
            g3
        },
        _ => {
            g
        },
    };
    g1
}

pub open spec fn expr_nil(g: Ir, env: IrEnvView, e: ExprView) -> Ir
    decreases e, 3nat, 0nat,
{
    let g1 = match e {
        ExprView::Nil => {
            let g2 = g.need("lumen_nil"@, "i64 @lumen_nil()"@);
            let g3 = nil_value(g2, env);
            g3
        },
        _ => {
            g
        },
    };
    g1
}

pub open spec fn expr_str(g: Ir, env: IrEnvView, e: ExprView) -> Ir
    decreases e, 3nat, 0nat,
{
    let g1 = match e {
        ExprView::Str(s) => {
            let g2 = g.need("lumen_str_new"@, "i64 @lumen_str_new(ptr)"@);
            let (g3, c) = g2.add_str(s);
            let (g4, p) = g3.vreg();
            let g5 = g4.p("  "@).p(p).p(" = "@).p(c).p("\n"@);
            let (g6, r) = g5.vreg();
            let g7 = g6.p("  "@).p(r).p(" = call i64 @lumen_str_new(ptr "@).p(p).p(")\n"@);
            let g8 = g7.give(r);
            g8
        },
        _ => {
            g
        },
    };
    g1
}

pub open spec fn expr_f_str(g: Ir, env: IrEnvView, e: ExprView) -> Ir
    decreases e, 3nat, 0nat,
{
    let g1 = match e {
        ExprView::FStr(ps) => {
            let g2 = g.need("lumen_str_new"@, "i64 @lumen_str_new(ptr)"@);
            let g3 = g2.need("lumen_str_concat"@, "i64 @lumen_str_concat(i64, i64)"@);
            let g4 = g3.need("lumen_to_str"@, "i64 @lumen_to_str(i64)"@);
            let (g5, c) = g4.add_str(""@);
            let (g6, ep) = g5.vreg();
            let g7 = g6.p("  "@).p(ep).p(" = "@).p(c).p("\n"@);
            let (g8, acc0) = g7.vreg();
            let g9 = g8.p("  "@).p(acc0).p(" = call i64 @lumen_str_new(ptr "@).p(ep).p(")\n"@);
            let (g10, slot) = g9.vreg();
            let g11 = g10.p("  "@).p(slot).p(" = alloca i64\n"@);
            let g12 = g11.p("  store i64 "@).p(acc0).p(", ptr "@).p(slot).p("\n"@);
            let g13 = fstr_parts(g12, env, ps, ps.len(), slot);
            let (g14, r) = g13.vreg();
            let g15 = g14.p("  "@).p(r).p(" = load i64, ptr "@).p(slot).p("\n"@);
            let g16 = g15.give(r);
            g16
        },
        _ => {
            g
        },
    };
    g1
}

pub open spec fn expr_ident(g: Ir, env: IrEnvView, e: ExprView) -> Ir
    decreases e, 3nat, 0nat,
{
    let g1 = match e {
        ExprView::Ident(n) => {
            let g2 = match g.local_of(n) {
                Some(slot) => {
                    let (g3, r) = g.vreg();
                    let g4 = g3.p("  "@).p(r).p(" = load i64, ptr "@).p(slot).p("\n"@);
                    let g5 = g4.give(r);
                    g5
                },
                None => {
                    let g6 = match ir_arity(env, n) {
                        Some(total) => {
                            let (g7, cs) = closure_open(g, env, n, total, total, 0);
                            let (g8, r) = g7.vreg();
                            let g9 = g8.p("  "@).p(r).p(" = load i64, ptr "@).p(cs).p("\n"@);
                            let g10 = g9.give(r);
                            g10
                        },
                        None => {
                            let m = "undefined name '"@ + n + "'"@;
                            let g11 = g.fail(m);
                            g11
                        },
                    };
                    g6
                },
            };
            g2
        },
        _ => {
            g
        },
    };
    g1
}

pub open spec fn expr_self_expr(g: Ir, env: IrEnvView, e: ExprView) -> Ir
    decreases e, 3nat, 0nat,
{
    let g1 = match e {
        ExprView::SelfExpr => {
            let g2 = match env.self_slot {
                Some(slot) => {
                    let (g3, r) = g.vreg();
                    let g4 = g3.p("  "@).p(r).p(" = load i64, ptr "@).p(slot).p("\n"@);
                    let g5 = g4.give(r);
                    g5
                },
                None => {
                    let g6 = g.fail("self outside method"@);
                    g6
                },
            };
            g2
        },
        _ => {
            g
        },
    };
    g1
}

pub open spec fn expr_unary(g: Ir, env: IrEnvView, e: ExprView) -> Ir
    decreases e, 3nat, 0nat,
{
    let g1 = match e {
        ExprView::Unary { op, expr } => {
            let g2 = gen_expr(g, env, *expr);
            let v = g2.val;
            let g3 = if op == UnOp::Neg {
                let g4 = g2.need("lumen_neg"@, "i64 @lumen_neg(i64)"@);
                let (g5, r) = g4.vreg();
                let g6 = g5.p("  "@).p(r).p(" = call i64 @lumen_neg(i64 "@).p(v).p(")\n"@);
                let g7 = g6.give(r);
                g7
            } else {
                let g8 = g2.need("lumen_truthy"@, "i32 @lumen_truthy(i64)"@);
                let g9 = g8.need("lumen_bool"@, "i64 @lumen_bool(i32)"@);
                let (g10, t) = g9.vreg();
                let g11 = g10.p("  "@).p(t).p(" = call i32 @lumen_truthy(i64 "@).p(v).p(")\n"@);
                let (g12, z) = g11.vreg();
                let g13 = g12.p("  "@).p(z).p(" = icmp eq i32 "@).p(t).p(", 0\n"@);
                let (g14, zi) = g13.vreg();
                let g15 = g14.p("  "@).p(zi).p(" = zext i1 "@).p(z).p(" to i32\n"@);
                let (g16, r) = g15.vreg();
                let g17 = g16.p("  "@).p(r).p(" = call i64 @lumen_bool(i32 "@).p(zi).p(")\n"@);
                let g18 = g17.give(r);
                g18
            };
            g3
        },
        _ => {
            g
        },
    };
    g1
}

pub open spec fn expr_if_else(g: Ir, env: IrEnvView, e: ExprView) -> Ir
    decreases e, 3nat, 0nat,
{
    let g1 = match e {
        ExprView::IfElse { cond, then, els } => {
            let (g2, slot) = g.vreg();
            let g3 = g2.p("  "@).p(slot).p(" = alloca i64\n"@);
            let g4 = gen_truthy(g3, env, *cond);
            let c = g4.val;
            let (g5, tl) = g4.label("tern_t"@);
            let (g6, fl) = g5.label("tern_f"@);
            let (g7, end) = g6.label("tern_e"@);
            let g8 = g7.p("  br i1 "@).p(c).p(", label %"@).p(tl).p(", label %"@).p(fl).p("\n"@);
            let g9 = g8.p(tl).p(":\n"@);
            let g10 = gen_expr(g9, env, *then);
            let tv = g10.val;
            let g11 = g10.p("  store i64 "@).p(tv).p(", ptr "@).p(slot).p("\n"@);
            let g12 = g11.p("  br label %"@).p(end).p("\n"@);
            let g13 = g12.p(fl).p(":\n"@);
            let g14 = gen_expr(g13, env, *els);
            let fv = g14.val;
            let g15 = g14.p("  store i64 "@).p(fv).p(", ptr "@).p(slot).p("\n"@);
            let g16 = g15.p("  br label %"@).p(end).p("\n"@);
            let g17 = g16.p(end).p(":\n"@);
            let (g18, r) = g17.vreg();
            let g19 = g18.p("  "@).p(r).p(" = load i64, ptr "@).p(slot).p("\n"@);
            let g20 = g19.give(r);
            g20
        },
        _ => {
            g
        },
    };
    g1
}

pub open spec fn expr_list(g: Ir, env: IrEnvView, e: ExprView) -> Ir
    decreases e, 3nat, 0nat,
{
    let g1 = match e {
        ExprView::List(xs) => {
            let g2 = g.need("lumen_list_new"@, "i64 @lumen_list_new(i64)"@);
            let g3 = g2.need("lumen_list_push"@, "void @lumen_list_push(i64, i64)"@);
            let n = xs.len();
            let (g4, lst) = g3.vreg();
            let g5 = g4.p("  "@).p(lst).p(" = call i64 @lumen_list_new(i64 "@).u(n as nat)
                .p(")\n"@);
            let (g6, slot) = g5.vreg();
            let g7 = g6.p("  "@).p(slot).p(" = alloca i64\n"@);
            let g8 = g7.p("  store i64 "@).p(lst).p(", ptr "@).p(slot).p("\n"@);
            let g9 = list_items(g8, env, xs, xs.len(), slot);
            let (g10, r) = g9.vreg();
            let g11 = g10.p("  "@).p(r).p(" = load i64, ptr "@).p(slot).p("\n"@);
            let g12 = g11.give(r);
            g12
        },
        _ => {
            g
        },
    };
    g1
}

pub open spec fn expr_map_lit(g: Ir, env: IrEnvView, e: ExprView) -> Ir
    decreases e, 3nat, 0nat,
{
    let g1 = match e {
        ExprView::MapLit(kvs) => {
            let g2 = g.need("lumen_map_new"@, "i64 @lumen_map_new()"@);
            let g3 = g2.need("lumen_map_set"@, "void @lumen_map_set(i64, i64, i64)"@);
            let (g4, m) = g3.vreg();
            let g5 = g4.p("  "@).p(m).p(" = call i64 @lumen_map_new()\n"@);
            let (g6, slot) = g5.vreg();
            let g7 = g6.p("  "@).p(slot).p(" = alloca i64\n"@);
            let g8 = g7.p("  store i64 "@).p(m).p(", ptr "@).p(slot).p("\n"@);
            let g9 = map_entries(g8, env, kvs, kvs.len(), slot);
            let (g10, r) = g9.vreg();
            let g11 = g10.p("  "@).p(r).p(" = load i64, ptr "@).p(slot).p("\n"@);
            let g12 = g11.give(r);
            g12
        },
        _ => {
            g
        },
    };
    g1
}

pub open spec fn expr_index(g: Ir, env: IrEnvView, e: ExprView) -> Ir
    decreases e, 3nat, 0nat,
{
    let g1 = match e {
        ExprView::Index { obj, index } => {
            let g2 = g.need("lumen_index_get"@, "i64 @lumen_index_get(i64, i64)"@);
            let g3 = gen_expr(g2, env, *obj);
            let o = g3.val;
            let g4 = gen_expr(g3, env, *index);
            let k = g4.val;
            let (g5, r) = g4.vreg();
            let g6 = g5.p("  "@).p(r).p(" = call i64 @lumen_index_get(i64 "@).p(o).p(", i64 "@)
                .p(k).p(")\n"@);
            let g7 = g6.give(r);
            g7
        },
        _ => {
            g
        },
    };
    g1
}

pub open spec fn expr_slice(g: Ir, env: IrEnvView, e: ExprView) -> Ir
    decreases e, 3nat, 0nat,
{
    let g1 = match e {
        ExprView::Slice { obj, lo, hi } => {
            let g2 = g.need("lumen_slice"@, "i64 @lumen_slice(i64, i64, i64)"@);
            let g3 = g2.need("lumen_nil"@, "i64 @lumen_nil()"@);
            let g4 = gen_expr(g3, env, *obj);
            let o = g4.val;
            let g5 = match lo {
                Some(x) => {
                    let g6 = gen_expr(g4, env, *x);
                    g6
                },
                None => {
                    let g7 = nil_value(g4, env);
                    g7
                },
            };
            let lov = g5.val;
            let g8 = match hi {
                Some(x) => {
                    let g9 = gen_expr(g5, env, *x);
                    g9
                },
                None => {
                    let g10 = nil_value(g5, env);
                    g10
                },
            };
            let hiv = g8.val;
            let (g11, r) = g8.vreg();
            let g12 = g11.p("  "@).p(r).p(" = call i64 @lumen_slice(i64 "@).p(o).p(", i64 "@)
                .p(lov).p(", i64 "@).p(hiv).p(")\n"@);
            let g13 = g12.give(r);
            g13
        },
        _ => {
            g
        },
    };
    g1
}

pub open spec fn expr_range(g: Ir, env: IrEnvView, e: ExprView) -> Ir
    decreases e, 3nat, 0nat,
{
    let g1 = match e {
        ExprView::Range { lo, hi } => {
            let g2 = range_needs(g, env);
            let g3 = gen_expr(g2, env, *lo);
            let lov = g3.val;
            let g4 = gen_expr(g3, env, *hi);
            let hiv = g4.val;
            let g5 = range_list(g4, env, lov, hiv);
            g5
        },
        _ => {
            g
        },
    };
    g1
}

pub open spec fn expr_field(g: Ir, env: IrEnvView, e: ExprView) -> Ir
    decreases e, 3nat, 0nat,
{
    let g1 = match e {
        ExprView::Field { obj, name } => {
            let g2 = g.need("lumen_struct_get"@, "i64 @lumen_struct_get(i64, ptr)"@);
            let g3 = gen_expr(g2, env, *obj);
            let o = g3.val;
            let (g4, nm) = g3.add_str(name);
            let (g5, p) = g4.vreg();
            let g6 = g5.p("  "@).p(p).p(" = "@).p(nm).p("\n"@);
            let (g7, r) = g6.vreg();
            let g8 = g7.p("  "@).p(r).p(" = call i64 @lumen_struct_get(i64 "@).p(o).p(", ptr "@)
                .p(p).p(")\n"@);
            let g9 = g8.give(r);
            g9
        },
        _ => {
            g
        },
    };
    g1
}

pub open spec fn expr_closure(g: Ir, env: IrEnvView, e: ExprView) -> Ir
    decreases e, 3nat, 0nat,
{
    let g1 = match e {
        ExprView::Closure { fn_name, captures } => {
            let g2 = match ir_arity(env, fn_name) {
                Some(total) => {
                    let g3 = if total < captures.len() {
                        let g4 = g.fail("internal: closure captures more than its parameters"@);
                        g4
                    } else {
                        let ncap = captures.len();
                        let user = (total - ncap) as nat;
                        let (g5, cs) = closure_open(g, env, fn_name, total, user, ncap);
                        let g6 = closure_caps(g5, env, captures, captures.len(), cs);
                        let (g7, r) = g6.vreg();
                        let g8 = g7.p("  "@).p(r).p(" = load i64, ptr "@).p(cs).p("\n"@);
                        let g9 = g8.give(r);
                        g9
                    };
                    g3
                },
                None => {
                    let m = "unknown closure '"@ + fn_name + "'"@;
                    let g10 = g.fail(m);
                    g10
                },
            };
            g2
        },
        _ => {
            g
        },
    };
    g1
}

pub open spec fn expr_lambda(g: Ir, env: IrEnvView, e: ExprView) -> Ir
    decreases e, 3nat, 0nat,
{
    let g1 = match e {
        ExprView::Lambda { .. } => {
            let g2 = g.fail("internal: lambda should be lifted before codegen"@);
            g2
        },
        _ => {
            g
        },
    };
    g1
}

pub open spec fn expr_named_call(g: Ir, env: IrEnvView, e: ExprView) -> Ir
    decreases e, 3nat, 0nat,
{
    let g1 = match e {
        ExprView::NamedCall { callee, args } => {
            let g2 = match *callee {
                ExprView::Ident(n) => {
                    let g3 = match ir_fields(env, n) {
                        Some(fields) => {
                            let g4 = match missing_field(fields, args, 0) {
                                Some(f) => {
                                    let m = "missing field '"@ + f + "' for struct '"@ + n + "'"@;
                                    let g5 = g.fail(m);
                                    g5
                                },
                                None => {
                                    let (g6, slot) = struct_open(g, env, n, fields);
                                    let g7 = set_named(g6, env, args, fields, fields.len(), slot);
                                    let (g8, r) = g7.vreg();
                                    let g9 = g8.p("  "@).p(r).p(" = load i64, ptr "@).p(slot)
                                        .p("\n"@);
                                    let g10 = g9.give(r);
                                    g10
                                },
                            };
                            g4
                        },
                        None => {
                            let m = "no struct type named '"@ + n + "'"@;
                            let g11 = g.fail(m);
                            g11
                        },
                    };
                    g3
                },
                _ => {
                    let g12 = g.fail("a constructor call must name a struct type"@);
                    g12
                },
            };
            g2
        },
        _ => {
            g
        },
    };
    g1
}

/// An expression: its boxed value.
pub open spec fn gen_expr(g: Ir, env: IrEnvView, e: ExprView) -> Ir
    decreases e, 4nat, 0nat,
{
    let g1 = match e {
        ExprView::Int(_) => {
            let g2 = expr_int(g, env, e);
            g2
        },
        ExprView::Float(_) => {
            let g3 = expr_float(g, env, e);
            g3
        },
        ExprView::Bool(_) => {
            let g4 = expr_bool(g, env, e);
            g4
        },
        ExprView::Nil => {
            let g5 = expr_nil(g, env, e);
            g5
        },
        ExprView::Str(_) => {
            let g6 = expr_str(g, env, e);
            g6
        },
        ExprView::FStr(_) => {
            let g7 = expr_f_str(g, env, e);
            g7
        },
        ExprView::Ident(_) => {
            let g8 = expr_ident(g, env, e);
            g8
        },
        ExprView::SelfExpr => {
            let g9 = expr_self_expr(g, env, e);
            g9
        },
        ExprView::Unary { .. } => {
            let g10 = expr_unary(g, env, e);
            g10
        },
        ExprView::Binary { .. } => {
            let g11 = gen_binary(g, env, e);
            g11
        },
        ExprView::IfElse { .. } => {
            let g12 = expr_if_else(g, env, e);
            g12
        },
        ExprView::List(_) => {
            let g13 = expr_list(g, env, e);
            g13
        },
        ExprView::MapLit(_) => {
            let g14 = expr_map_lit(g, env, e);
            g14
        },
        ExprView::Index { .. } => {
            let g15 = expr_index(g, env, e);
            g15
        },
        ExprView::Slice { .. } => {
            let g16 = expr_slice(g, env, e);
            g16
        },
        ExprView::Range { .. } => {
            let g17 = expr_range(g, env, e);
            g17
        },
        ExprView::Field { .. } => {
            let g18 = expr_field(g, env, e);
            g18
        },
        ExprView::Call { .. } => {
            let g19 = gen_call(g, env, e);
            g19
        },
        ExprView::Method { .. } => {
            let g20 = gen_method(g, env, e);
            g20
        },
        ExprView::Closure { .. } => {
            let g21 = expr_closure(g, env, e);
            g21
        },
        ExprView::Lambda { .. } => {
            let g22 = expr_lambda(g, env, e);
            g22
        },
        ExprView::NamedCall { .. } => {
            let g23 = expr_named_call(g, env, e);
            g23
        },
        ExprView::ListComp { .. } => {
            let g24 = gen_comp(g, env, e);
            g24
        },
    };
    g1
}

/// Sets the first `k` fields to the arguments that name them.
pub open spec fn set_named(
    g: Ir,
    env: IrEnvView,
    s: Seq<(Seq<char>, ExprView)>,
    fields: Seq<FieldView>,
    k: nat,
    slot: Seq<char>,
) -> Ir
    decreases s, 9nat, k,
{
    if k == 0 || k > fields.len() {
        g
    } else {
        let g0 = set_named(g, env, s, fields, (k - 1) as nat, slot);
        let i = named_arg(s, fields[k - 1].name, 0);
        if i is Some && 0 <= i->Some_0 < s.len() {
            let g1 = gen_expr(g0, env, s[i->Some_0].1);
            set_field(g1, env, slot, fields[k - 1].name, g1.val)
        } else {
            g0
        }
    }
}

impl IrEmitter {
    pub fn int_lit(&mut self, env: &IrEnv, n: i64)
        ensures
            final(self)@ == int_lit(old(self)@, env@, n),
    {
        self.need("lumen_from_int", "i64 @lumen_from_int(i64)");
        let r = self.vreg();
        self.p("  ");
        self.p(r.as_str());
        self.p(" = call i64 @lumen_from_int(i64 ");
        self.n(n as i64);
        self.p(")\n");
        self.give(r.as_str());
    }

    pub fn nil_value(&mut self, env: &IrEnv)
        ensures
            final(self)@ == nil_value(old(self)@, env@),
    {
        let r = self.vreg();
        self.p("  ");
        self.p(r.as_str());
        self.p(" = call i64 @lumen_nil()\n");
        self.give(r.as_str());
    }

    pub fn wrap_int(&mut self, env: &IrEnv)
        ensures
            final(self)@ == wrap_int(old(self)@, env@),
    {
        let v = self.val.clone();
        let s = self.vreg();
        self.p("  ");
        self.p(s.as_str());
        self.p(" = shl i64 ");
        self.p(v.as_str());
        self.p(", 16\n");
        let r = self.vreg();
        self.p("  ");
        self.p(r.as_str());
        self.p(" = ashr i64 ");
        self.p(s.as_str());
        self.p(", 16\n");
        self.give(r.as_str());
    }

    pub fn box_int(&mut self, env: &IrEnv)
        ensures
            final(self)@ == box_int(old(self)@, env@),
    {
        let v = self.val.clone();
        let m = self.vreg();
        self.p("  ");
        self.p(m.as_str());
        self.p(" = and i64 ");
        self.p(v.as_str());
        self.p(", 281474976710655\n");
        let r = self.vreg();
        self.p("  ");
        self.p(r.as_str());
        self.p(" = or i64 ");
        self.p(m.as_str());
        self.p(", 9221401712017801216\n");
        self.give(r.as_str());
    }

    pub fn box_bool(&mut self, env: &IrEnv)
        ensures
            final(self)@ == box_bool(old(self)@, env@),
    {
        let c = self.val.clone();
        let z = self.vreg();
        self.p("  ");
        self.p(z.as_str());
        self.p(" = zext i1 ");
        self.p(c.as_str());
        self.p(" to i32\n");
        self.need("lumen_bool", "i64 @lumen_bool(i32)");
        let r = self.vreg();
        self.p("  ");
        self.p(r.as_str());
        self.p(" = call i64 @lumen_bool(i32 ");
        self.p(z.as_str());
        self.p(")\n");
        self.give(r.as_str());
    }

    pub fn to_test(&mut self, env: &IrEnv)
        ensures
            final(self)@ == to_test(old(self)@, env@),
    {
        let v = self.val.clone();
        self.need("lumen_truthy", "i32 @lumen_truthy(i64)");
        let t = self.vreg();
        self.p("  ");
        self.p(t.as_str());
        self.p(" = call i32 @lumen_truthy(i64 ");
        self.p(v.as_str());
        self.p(")\n");
        let r = self.vreg();
        self.p("  ");
        self.p(r.as_str());
        self.p(" = icmp ne i32 ");
        self.p(t.as_str());
        self.p(", 0\n");
        self.give(r.as_str());
    }

    pub fn gc_poll(&mut self, env: &IrEnv)
        ensures
            final(self)@ == gc_poll(old(self)@, env@),
    {
        self.need("lumen_gc_collect", "void @lumen_gc_collect()");
        self.need_line("@lumen_allocs_since_gc", "@lumen_allocs_since_gc = external global i64");
        let c = self.vreg();
        self.p("  ");
        self.p(c.as_str());
        self.p(" = load i64, ptr @lumen_allocs_since_gc\n");
        let hit = self.vreg();
        self.p("  ");
        self.p(hit.as_str());
        self.p(" = icmp sge i64 ");
        self.p(c.as_str());
        self.p(", 512\n");
        let gl = self.label("gc");
        let sk = self.label("gcskip");
        self.p("  br i1 ");
        self.p(hit.as_str());
        self.p(", label %");
        self.p(gl.as_str());
        self.p(", label %");
        self.p(sk.as_str());
        self.p("\n");
        self.p(gl.as_str());
        self.p(":\n");
        self.p("  call void @lumen_gc_collect()\n");
        self.p("  br label %");
        self.p(sk.as_str());
        self.p("\n");
        self.p(sk.as_str());
        self.p(":\n");
    }

    pub fn range_begin(&mut self, env: &IrEnv, var: &str, lov: &str, hiv: &str) -> (r: IrLoop)
        ensures
            (final(self)@, r@) == range_begin(old(self)@, env@, var@, lov@, hiv@),
    {
        let ci = self.vreg();
        self.p("  ");
        self.p(ci.as_str());
        self.p(" = call i64 @lumen_to_int(i64 ");
        self.p(lov);
        self.p(")\n");
        let hiu = self.vreg();
        self.p("  ");
        self.p(hiu.as_str());
        self.p(" = call i64 @lumen_to_int(i64 ");
        self.p(hiv);
        self.p(")\n");
        let slot = self.vreg();
        self.p("  ");
        self.p(slot.as_str());
        self.p(" = alloca i64\n");
        self.p("  store i64 ");
        self.p(ci.as_str());
        self.p(", ptr ");
        self.p(slot.as_str());
        self.p("\n");
        let lslot = self.vreg();
        self.p("  ");
        self.p(lslot.as_str());
        self.p(" = alloca i64\n");
        self.p("  store i64 ");
        self.p(hiu.as_str());
        self.p(", ptr ");
        self.p(lslot.as_str());
        self.p("\n");
        let vslot = self.slot(var);
        let top = self.label("ftop");
        let body = self.label("fbody");
        let cont = self.label("fcont");
        let end = self.label("fend");
        self.p("  br label %");
        self.p(top.as_str());
        self.p("\n");
        self.p(top.as_str());
        self.p(":\n");
        let cur = self.vreg();
        self.p("  ");
        self.p(cur.as_str());
        self.p(" = load i64, ptr ");
        self.p(slot.as_str());
        self.p("\n");
        let lim = self.vreg();
        self.p("  ");
        self.p(lim.as_str());
        self.p(" = load i64, ptr ");
        self.p(lslot.as_str());
        self.p("\n");
        let t = self.vreg();
        self.p("  ");
        self.p(t.as_str());
        self.p(" = icmp slt i64 ");
        self.p(cur.as_str());
        self.p(", ");
        self.p(lim.as_str());
        self.p("\n");
        self.p("  br i1 ");
        self.p(t.as_str());
        self.p(", label %");
        self.p(body.as_str());
        self.p(", label %");
        self.p(end.as_str());
        self.p("\n");
        self.p(body.as_str());
        self.p(":\n");
        let boxed = self.vreg();
        self.p("  ");
        self.p(boxed.as_str());
        self.p(" = call i64 @lumen_from_int(i64 ");
        self.p(cur.as_str());
        self.p(")\n");
        self.p("  store i64 ");
        self.p(boxed.as_str());
        self.p(", ptr ");
        self.p(vslot.as_str());
        self.p("\n");
        IrLoop { slot, top, cont, end }
    }

    pub fn list_begin(&mut self, env: &IrEnv, var: &str, it: &str) -> (r: IrLoop)
        ensures
            (final(self)@, r@) == list_begin(old(self)@, env@, var@, it@),
    {
        let lst = self.vreg();
        self.p("  ");
        self.p(lst.as_str());
        self.p(" = call i64 @lumen_iter_prep(i64 ");
        self.p(it);
        self.p(")\n");
        let lslot = self.vreg();
        self.p("  ");
        self.p(lslot.as_str());
        self.p(" = alloca i64\n");
        self.p("  store i64 ");
        self.p(lst.as_str());
        self.p(", ptr ");
        self.p(lslot.as_str());
        self.p("\n");
        let len = self.vreg();
        self.p("  ");
        self.p(len.as_str());
        self.p(" = call i64 @lumen_len(i64 ");
        self.p(lst.as_str());
        self.p(")\n");
        let lenslot = self.vreg();
        self.p("  ");
        self.p(lenslot.as_str());
        self.p(" = alloca i64\n");
        self.p("  store i64 ");
        self.p(len.as_str());
        self.p(", ptr ");
        self.p(lenslot.as_str());
        self.p("\n");
        let slot = self.vreg();
        self.p("  ");
        self.p(slot.as_str());
        self.p(" = alloca i64\n");
        self.p("  store i64 0, ptr ");
        self.p(slot.as_str());
        self.p("\n");
        let vslot = self.slot(var);
        let top = self.label("ltop");
        let body = self.label("lbody");
        let cont = self.label("lcont");
        let end = self.label("lend");
        self.p("  br label %");
        self.p(top.as_str());
        self.p("\n");
        self.p(top.as_str());
        self.p(":\n");
        let i = self.vreg();
        self.p("  ");
        self.p(i.as_str());
        self.p(" = load i64, ptr ");
        self.p(slot.as_str());
        self.p("\n");
        let ln = self.vreg();
        self.p("  ");
        self.p(ln.as_str());
        self.p(" = load i64, ptr ");
        self.p(lenslot.as_str());
        self.p("\n");
        let t = self.vreg();
        self.p("  ");
        self.p(t.as_str());
        self.p(" = icmp slt i64 ");
        self.p(i.as_str());
        self.p(", ");
        self.p(ln.as_str());
        self.p("\n");
        self.p("  br i1 ");
        self.p(t.as_str());
        self.p(", label %");
        self.p(body.as_str());
        self.p(", label %");
        self.p(end.as_str());
        self.p("\n");
        self.p(body.as_str());
        self.p(":\n");
        let l2 = self.vreg();
        self.p("  ");
        self.p(l2.as_str());
        self.p(" = load i64, ptr ");
        self.p(lslot.as_str());
        self.p("\n");
        let el = self.vreg();
        self.p("  ");
        self.p(el.as_str());
        self.p(" = call i64 @lumen_list_get(i64 ");
        self.p(l2.as_str());
        self.p(", i64 ");
        self.p(i.as_str());
        self.p(")\n");
        self.p("  store i64 ");
        self.p(el.as_str());
        self.p(", ptr ");
        self.p(vslot.as_str());
        self.p("\n");
        IrLoop { slot, top, cont, end }
    }

    pub fn loop_step(&mut self, env: &IrEnv, lp: &IrLoop)
        ensures
            final(self)@ == loop_step(old(self)@, env@, lp@),
    {
        let slot = lp.slot.as_str();
        let top = lp.top.as_str();
        let cont = lp.cont.as_str();
        let end = lp.end.as_str();
        self.p(cont);
        self.p(":\n");
        let i = self.vreg();
        self.p("  ");
        self.p(i.as_str());
        self.p(" = load i64, ptr ");
        self.p(slot);
        self.p("\n");
        let inc = self.vreg();
        self.p("  ");
        self.p(inc.as_str());
        self.p(" = add i64 ");
        self.p(i.as_str());
        self.p(", 1\n");
        self.p("  store i64 ");
        self.p(inc.as_str());
        self.p(", ptr ");
        self.p(slot);
        self.p("\n");
        self.p("  br label %");
        self.p(top);
        self.p("\n");
        self.p(end);
        self.p(":\n");
    }

    pub fn range_list(&mut self, env: &IrEnv, lov: &str, hiv: &str)
        ensures
            final(self)@ == range_list(old(self)@, env@, lov@, hiv@),
    {
        let lo_i = self.vreg();
        self.p("  ");
        self.p(lo_i.as_str());
        self.p(" = call i64 @lumen_to_int(i64 ");
        self.p(lov);
        self.p(")\n");
        let hi_i = self.vreg();
        self.p("  ");
        self.p(hi_i.as_str());
        self.p(" = call i64 @lumen_to_int(i64 ");
        self.p(hiv);
        self.p(")\n");
        let lst = self.vreg();
        self.p("  ");
        self.p(lst.as_str());
        self.p(" = call i64 @lumen_list_new(i64 0)\n");
        let lslot = self.vreg();
        self.p("  ");
        self.p(lslot.as_str());
        self.p(" = alloca i64\n");
        self.p("  store i64 ");
        self.p(lst.as_str());
        self.p(", ptr ");
        self.p(lslot.as_str());
        self.p("\n");
        let islot = self.vreg();
        self.p("  ");
        self.p(islot.as_str());
        self.p(" = alloca i64\n");
        self.p("  store i64 ");
        self.p(lo_i.as_str());
        self.p(", ptr ");
        self.p(islot.as_str());
        self.p("\n");
        let limslot = self.vreg();
        self.p("  ");
        self.p(limslot.as_str());
        self.p(" = alloca i64\n");
        self.p("  store i64 ");
        self.p(hi_i.as_str());
        self.p(", ptr ");
        self.p(limslot.as_str());
        self.p("\n");
        let top = self.label("rtop");
        let body = self.label("rbody");
        let end = self.label("rend");
        self.p("  br label %");
        self.p(top.as_str());
        self.p("\n");
        self.p(top.as_str());
        self.p(":\n");
        let i = self.vreg();
        self.p("  ");
        self.p(i.as_str());
        self.p(" = load i64, ptr ");
        self.p(islot.as_str());
        self.p("\n");
        let lim = self.vreg();
        self.p("  ");
        self.p(lim.as_str());
        self.p(" = load i64, ptr ");
        self.p(limslot.as_str());
        self.p("\n");
        let t = self.vreg();
        self.p("  ");
        self.p(t.as_str());
        self.p(" = icmp slt i64 ");
        self.p(i.as_str());
        self.p(", ");
        self.p(lim.as_str());
        self.p("\n");
        self.p("  br i1 ");
        self.p(t.as_str());
        self.p(", label %");
        self.p(body.as_str());
        self.p(", label %");
        self.p(end.as_str());
        self.p("\n");
        self.p(body.as_str());
        self.p(":\n");
        let bx = self.vreg();
        self.p("  ");
        self.p(bx.as_str());
        self.p(" = call i64 @lumen_from_int(i64 ");
        self.p(i.as_str());
        self.p(")\n");
        let ll = self.vreg();
        self.p("  ");
        self.p(ll.as_str());
        self.p(" = load i64, ptr ");
        self.p(lslot.as_str());
        self.p("\n");
        self.p("  call void @lumen_list_push(i64 ");
        self.p(ll.as_str());
        self.p(", i64 ");
        self.p(bx.as_str());
        self.p(")\n");
        let i2 = self.vreg();
        self.p("  ");
        self.p(i2.as_str());
        self.p(" = add i64 ");
        self.p(i.as_str());
        self.p(", 1\n");
        self.p("  store i64 ");
        self.p(i2.as_str());
        self.p(", ptr ");
        self.p(islot.as_str());
        self.p("\n");
        self.p("  br label %");
        self.p(top.as_str());
        self.p("\n");
        self.p(end.as_str());
        self.p(":\n");
        let r = self.vreg();
        self.p("  ");
        self.p(r.as_str());
        self.p(" = load i64, ptr ");
        self.p(lslot.as_str());
        self.p("\n");
        self.give(r.as_str());
    }

    pub fn range_needs(&mut self, env: &IrEnv)
        ensures
            final(self)@ == range_needs(old(self)@, env@),
    {
        self.need("lumen_to_int", "i64 @lumen_to_int(i64)");
        self.need("lumen_from_int", "i64 @lumen_from_int(i64)");
        self.need("lumen_list_new", "i64 @lumen_list_new(i64)");
        self.need("lumen_list_push", "void @lumen_list_push(i64, i64)");
    }

    pub fn closure_open(
        &mut self,
        env: &IrEnv,
        name: &str,
        total: u64,
        user: u64,
        ncap: u64,
    ) -> (r: String)
        ensures
            (final(self)@, r@) == closure_open(
                old(self)@,
                env@,
                name@,
                total as nat,
                user as nat,
                ncap as nat,
            ),
    {
        let mut sym = "lm_".to_owned();
        sym.append(name);
        self.need_call(sym.as_str(), total);
        self.need("lumen_closure_new", "i64 @lumen_closure_new(ptr, i64, i64)");
        self.need("lumen_closure_set_cap", "void @lumen_closure_set_cap(i64, i64, i64)");
        let clo = self.vreg();
        self.p("  ");
        self.p(clo.as_str());
        self.p(" = call i64 @lumen_closure_new(ptr @");
        self.p(sym.as_str());
        self.p(", i64 ");
        self.u(user as u64);
        self.p(", i64 ");
        self.u(ncap as u64);
        self.p(")\n");
        let cslot = self.vreg();
        self.p("  ");
        self.p(cslot.as_str());
        self.p(" = alloca i64\n");
        self.p("  store i64 ");
        self.p(clo.as_str());
        self.p(", ptr ");
        self.p(cslot.as_str());
        self.p("\n");
        cslot
    }

    pub fn struct_open(&mut self, env: &IrEnv, name: &str, fields: &Vec<Field>) -> (r: String)
        ensures
            (final(self)@, r@) == struct_open(old(self)@, env@, name@, fields_view(fields@)),
    {
        self.need("lumen_struct_new", "i64 @lumen_struct_new(ptr, i64, ptr)");
        self.need("lumen_struct_set", "void @lumen_struct_set(i64, ptr, i64)");
        let arr = self.field_table(name, fields);
        let nm = self.add_str(name);
        let np = self.vreg();
        self.p("  ");
        self.p(np.as_str());
        self.p(" = ");
        self.p(nm.as_str());
        self.p("\n");
        let n: u64 = fields.len() as u64;
        let sv = self.vreg();
        self.p("  ");
        self.p(sv.as_str());
        self.p(" = call i64 @lumen_struct_new(ptr ");
        self.p(np.as_str());
        self.p(", i64 ");
        self.u(n as u64);
        self.p(", ptr ");
        self.p(arr.as_str());
        self.p(")\n");
        let svslot = self.vreg();
        self.p("  ");
        self.p(svslot.as_str());
        self.p(" = alloca i64\n");
        self.p("  store i64 ");
        self.p(sv.as_str());
        self.p(", ptr ");
        self.p(svslot.as_str());
        self.p("\n");
        svslot
    }

    pub fn set_field(&mut self, env: &IrEnv, svslot: &str, name: &str, v: &str)
        ensures
            final(self)@ == set_field(old(self)@, env@, svslot@, name@, v@),
    {
        let c = self.add_str(name);
        let fp = self.vreg();
        self.p("  ");
        self.p(fp.as_str());
        self.p(" = ");
        self.p(c.as_str());
        self.p("\n");
        let s = self.vreg();
        self.p("  ");
        self.p(s.as_str());
        self.p(" = load i64, ptr ");
        self.p(svslot);
        self.p("\n");
        self.p("  call void @lumen_struct_set(i64 ");
        self.p(s.as_str());
        self.p(", ptr ");
        self.p(fp.as_str());
        self.p(", i64 ");
        self.p(v);
        self.p(")\n");
    }

    pub fn args_text(&mut self, env: &IrEnv, s: &Vec<Expr>, k: usize, first: &str) -> (r: String)
        requires
            k <= s@.len(),
        ensures
            (final(self)@, r@) == args_text(old(self)@, env@, exprs_view(s@), k as nat, first@),
        decreases s, 9nat, 0nat,
    {
        let mut text = first.to_owned();
        let ghost s0 = exprs_view(s@);
        let ghost g0 = self@;
        for i in 0..k
            invariant
                k <= s@.len(),
                s0 == exprs_view(s@),
                (self@, text@) == args_text(g0, env@, s0, i as nat, first@),
        {
            proof {
                exprs_facts(s@);
            }
            assert(s0[i as int] == s@[i as int]@);
            let e: &Expr = &s[i];
            self.gen_expr(env, e);
            let v = self.val.clone();
            push_arg(&mut text, v.as_str());
        }
        text
    }

    pub fn list_items(&mut self, env: &IrEnv, s: &Vec<Expr>, k: usize, slot: &str)
        requires
            k <= s@.len(),
        ensures
            final(self)@ == list_items(old(self)@, env@, exprs_view(s@), k as nat, slot@),
        decreases s, 9nat, 0nat,
    {
        let ghost s0 = exprs_view(s@);
        let ghost g0 = self@;
        for i in 0..k
            invariant
                k <= s@.len(),
                s0 == exprs_view(s@),
                self@ == list_items(g0, env@, s0, i as nat, slot@),
        {
            proof {
                exprs_facts(s@);
            }
            assert(s0[i as int] == s@[i as int]@);
            let e: &Expr = &s[i];
            self.gen_expr(env, e);
            let v = self.val.clone();
            let l = self.vreg();
            self.p("  ");
            self.p(l.as_str());
            self.p(" = load i64, ptr ");
            self.p(slot);
            self.p("\n");
            self.p("  call void @lumen_list_push(i64 ");
            self.p(l.as_str());
            self.p(", i64 ");
            self.p(v.as_str());
            self.p(")\n");
        }
    }

    pub fn set_entry(&mut self, env: &IrEnv, slot: &str, kv: &str, vv: &str)
        ensures
            final(self)@ == set_entry(old(self)@, env@, slot@, kv@, vv@),
    {
        let m = self.vreg();
        self.p("  ");
        self.p(m.as_str());
        self.p(" = load i64, ptr ");
        self.p(slot);
        self.p("\n");
        self.p("  call void @lumen_map_set(i64 ");
        self.p(m.as_str());
        self.p(", i64 ");
        self.p(kv);
        self.p(", i64 ");
        self.p(vv);
        self.p(")\n");
    }

    pub fn map_entries(&mut self, env: &IrEnv, s: &Vec<(Expr, Expr)>, k: usize, slot: &str)
        requires
            k <= s@.len(),
        ensures
            final(self)@ == map_entries(old(self)@, env@, pairs_view(s@), k as nat, slot@),
        decreases s, 9nat, 0nat,
    {
        let ghost s0 = pairs_view(s@);
        let ghost g0 = self@;
        for i in 0..k
            invariant
                k <= s@.len(),
                s0 == pairs_view(s@),
                self@ == map_entries(g0, env@, s0, i as nat, slot@),
        {
            proof {
                pairs_facts(s@);
            }
            assert(s0[i as int] == (s@[i as int].0@, s@[i as int].1@));
            let a: &Expr = &s[i].0;
            let b: &Expr = &s[i].1;
            self.gen_expr(env, a);
            let kv = self.val.clone();
            self.gen_expr(env, b);
            let vv = self.val.clone();
            self.set_entry(env, slot, kv.as_str(), vv.as_str());
        }
    }

    pub fn fstr_parts(&mut self, env: &IrEnv, s: &Vec<FStrPart>, k: usize, slot: &str)
        requires
            k <= s@.len(),
        ensures
            final(self)@ == fstr_parts(old(self)@, env@, parts_view(s@), k as nat, slot@),
        decreases s, 9nat, 0nat,
    {
        let ghost s0 = parts_view(s@);
        let ghost g0 = self@;
        for i in 0..k
            invariant
                k <= s@.len(),
                s0 == parts_view(s@),
                self@ == fstr_parts(g0, env@, s0, i as nat, slot@),
        {
            proof {
                parts_facts(s@);
            }
            assert(s0[i as int] == s@[i as int]@);
            let part: &FStrPart = &s[i];
            match part {
                FStrPart::Lit(l) => {
                    let c = self.add_str(l.as_str());
                    let pp = self.vreg();
                    self.p("  ");
                    self.p(pp.as_str());
                    self.p(" = ");
                    self.p(c.as_str());
                    self.p("\n");
                    let r = self.vreg();
                    self.p("  ");
                    self.p(r.as_str());
                    self.p(" = call i64 @lumen_str_new(ptr ");
                    self.p(pp.as_str());
                    self.p(")\n");
                    self.give(r.as_str());
                },
                FStrPart::Expr(x) => {
                    self.gen_expr(env, x);
                    let v = self.val.clone();
                    let r = self.vreg();
                    self.p("  ");
                    self.p(r.as_str());
                    self.p(" = call i64 @lumen_to_str(i64 ");
                    self.p(v.as_str());
                    self.p(")\n");
                    self.give(r.as_str());
                },
            }
            let piece = self.val.clone();
            let acc = self.vreg();
            self.p("  ");
            self.p(acc.as_str());
            self.p(" = load i64, ptr ");
            self.p(slot);
            self.p("\n");
            let cat = self.vreg();
            self.p("  ");
            self.p(cat.as_str());
            self.p(" = call i64 @lumen_str_concat(i64 ");
            self.p(acc.as_str());
            self.p(", i64 ");
            self.p(piece.as_str());
            self.p(")\n");
            self.p("  store i64 ");
            self.p(cat.as_str());
            self.p(", ptr ");
            self.p(slot);
            self.p("\n");
        }
    }

    pub fn print_parts(&mut self, env: &IrEnv, s: &Vec<Expr>, k: usize)
        requires
            k <= s@.len(),
        ensures
            final(self)@ == print_parts(old(self)@, env@, exprs_view(s@), k as nat),
        decreases s, 9nat, 0nat,
    {
        let ghost s0 = exprs_view(s@);
        let ghost g0 = self@;
        for i in 0..k
            invariant
                k <= s@.len(),
                s0 == exprs_view(s@),
                self@ == print_parts(g0, env@, s0, i as nat),
        {
            proof {
                exprs_facts(s@);
            }
            assert(s0[i as int] == s@[i as int]@);
            let e: &Expr = &s[i];
            if i > 0 {
                self.p("  call void @lumen_print_space()\n");
            }
            self.gen_expr(env, e);
            let v = self.val.clone();
            self.p("  call void @lumen_print_part(i64 ");
            self.p(v.as_str());
            self.p(")\n");
        }
    }

    pub fn closure_caps(&mut self, env: &IrEnv, s: &Vec<Expr>, k: usize, slot: &str)
        requires
            k <= s@.len(),
        ensures
            final(self)@ == closure_caps(old(self)@, env@, exprs_view(s@), k as nat, slot@),
        decreases s, 9nat, 0nat,
    {
        let ghost s0 = exprs_view(s@);
        let ghost g0 = self@;
        for i in 0..k
            invariant
                k <= s@.len(),
                s0 == exprs_view(s@),
                self@ == closure_caps(g0, env@, s0, i as nat, slot@),
        {
            proof {
                exprs_facts(s@);
            }
            assert(s0[i as int] == s@[i as int]@);
            let e: &Expr = &s[i];
            self.gen_expr(env, e);
            let v = self.val.clone();
            let c = self.vreg();
            self.p("  ");
            self.p(c.as_str());
            self.p(" = load i64, ptr ");
            self.p(slot);
            self.p("\n");
            self.p("  call void @lumen_closure_set_cap(i64 ");
            self.p(c.as_str());
            self.p(", i64 ");
            self.u(i as u64);
            self.p(", i64 ");
            self.p(v.as_str());
            self.p(")\n");
        }
    }

    pub fn set_positional(
        &mut self,
        env: &IrEnv,
        s: &Vec<Expr>,
        k: usize,
        slot: &str,
        fields: &Vec<Field>,
    )
        requires
            k <= s@.len(),
        ensures
            final(self)@ == set_positional(
                old(self)@,
                env@,
                exprs_view(s@),
                k as nat,
                slot@,
                fields_view(fields@),
            ),
        decreases s, 9nat, 0nat,
    {
        let ghost s0 = exprs_view(s@);
        let ghost g0 = self@;
        for i in 0..k
            invariant
                k <= s@.len(),
                s0 == exprs_view(s@),
                self@ == set_positional(g0, env@, s0, i as nat, slot@, fields_view(fields@)),
        {
            proof {
                exprs_facts(s@);
            }
            assert(s0[i as int] == s@[i as int]@);
            let e: &Expr = &s[i];
            self.gen_expr(env, e);
            let v = self.val.clone();
            let name = nth_field(fields, i);
            self.set_field(env, slot, name, v.as_str());
        }
    }

    pub fn int_arith(&mut self, env: &IrEnv, e: &Expr)
        ensures
            final(self)@ == int_arith(old(self)@, env@, e@),
        decreases e, 1nat, 0nat,
    {
        match e {
            Expr::Binary { op, lhs, rhs } => {
                assert(lhs@ == expr_view(**lhs) && rhs@ == expr_view(**rhs));
                match find_int_ins(env, *op, lhs, rhs) {
                    Some(ins) => {
                        self.eval_int(env, lhs);
                        let a = self.val.clone();
                        self.eval_int(env, rhs);
                        let b = self.val.clone();
                        let r = self.vreg();
                        self.p("  ");
                        self.p(r.as_str());
                        self.p(" = ");
                        self.p(ins);
                        self.p(" i64 ");
                        self.p(a.as_str());
                        self.p(", ");
                        self.p(b.as_str());
                        self.p("\n");
                        self.give(r.as_str());
                        if *op == BinOp::Add || *op == BinOp::Sub || *op == BinOp::Mul {
                            self.wrap_int(env);
                        }
                    },
                    None => {
                    },
                }
            },
            _ => {
            },
        }
    }

    pub fn int_test(&mut self, env: &IrEnv, e: &Expr)
        ensures
            final(self)@ == int_test(old(self)@, env@, e@),
        decreases e, 1nat, 0nat,
    {
        match e {
            Expr::Binary { op, lhs, rhs } => {
                assert(lhs@ == expr_view(**lhs) && rhs@ == expr_view(**rhs));
                self.eval_int(env, lhs);
                let a = self.val.clone();
                self.eval_int(env, rhs);
                let b = self.val.clone();
                match find_icc(*op) {
                    Some(cc) => {
                        let r = self.vreg();
                        self.p("  ");
                        self.p(r.as_str());
                        self.p(" = icmp ");
                        self.p(cc);
                        self.p(" i64 ");
                        self.p(a.as_str());
                        self.p(", ");
                        self.p(b.as_str());
                        self.p("\n");
                        self.give(r.as_str());
                    },
                    None => {
                    },
                }
            },
            _ => {
            },
        }
    }

    pub fn eval_int(&mut self, env: &IrEnv, e: &Expr)
        ensures
            final(self)@ == eval_int(old(self)@, env@, e@),
        decreases e, 6nat, 0nat,
    {
        match e {
            Expr::Int(n) => {
                let mut t = String::new();
                push_i64(&mut t, wrap48(*n));
                self.give(t.as_str());
            },
            Expr::Unary { op, expr } => {
                assert(expr@ == expr_view(**expr));
                if *op == UnOp::Neg {
                    self.eval_int(env, expr);
                    let a = self.val.clone();
                    let r = self.vreg();
                    self.p("  ");
                    self.p(r.as_str());
                    self.p(" = sub i64 0, ");
                    self.p(a.as_str());
                    self.p("\n");
                    self.give(r.as_str());
                    self.wrap_int(env);
                } else {
                    self.gen_expr(env, e);
                    self.wrap_int(env);
                }
            },
            Expr::Binary { op, lhs, rhs } => {
                assert(lhs@ == expr_view(**lhs) && rhs@ == expr_view(**rhs));
                if find_int_ins(env, *op, lhs, rhs).is_some() {
                    self.int_arith(env, e);
                } else {
                    self.gen_expr(env, e);
                    self.wrap_int(env);
                }
            },
            _ => {
                self.gen_expr(env, e);
                self.wrap_int(env);
            },
        }
    }

    pub fn float_arith(&mut self, env: &IrEnv, e: &Expr)
        ensures
            final(self)@ == float_arith(old(self)@, env@, e@),
        decreases e, 1nat, 0nat,
    {
        match e {
            Expr::Binary { op, lhs, rhs } => {
                assert(lhs@ == expr_view(**lhs) && rhs@ == expr_view(**rhs));
                match find_float_ins(env, *op, lhs, rhs) {
                    Some(ins) => {
                        self.eval_float(env, lhs);
                        let a = self.val.clone();
                        self.eval_float(env, rhs);
                        let b = self.val.clone();
                        let r = self.vreg();
                        self.p("  ");
                        self.p(r.as_str());
                        self.p(" = ");
                        self.p(ins);
                        self.p(" double ");
                        self.p(a.as_str());
                        self.p(", ");
                        self.p(b.as_str());
                        self.p("\n");
                        self.give(r.as_str());
                    },
                    None => {
                    },
                }
            },
            _ => {
            },
        }
    }

    pub fn float_test(&mut self, env: &IrEnv, e: &Expr)
        ensures
            final(self)@ == float_test(old(self)@, env@, e@),
        decreases e, 1nat, 0nat,
    {
        match e {
            Expr::Binary { op, lhs, rhs } => {
                assert(lhs@ == expr_view(**lhs) && rhs@ == expr_view(**rhs));
                self.eval_float(env, lhs);
                let a = self.val.clone();
                self.eval_float(env, rhs);
                let b = self.val.clone();
                match find_fcc(*op) {
                    Some(cc) => {
                        let r = self.vreg();
                        self.p("  ");
                        self.p(r.as_str());
                        self.p(" = fcmp ");
                        self.p(cc);
                        self.p(" double ");
                        self.p(a.as_str());
                        self.p(", ");
                        self.p(b.as_str());
                        self.p("\n");
                        self.give(r.as_str());
                    },
                    None => {
                    },
                }
            },
            _ => {
            },
        }
    }

    pub fn eval_float(&mut self, env: &IrEnv, e: &Expr)
        ensures
            final(self)@ == eval_float(old(self)@, env@, e@),
        decreases e, 6nat, 0nat,
    {
        match e {
            Expr::Float(b) => {
                let t = fmt_double(*b);
                self.give(t.as_str());
            },
            Expr::Unary { op, expr } => {
                assert(expr@ == expr_view(**expr));
                if *op == UnOp::Neg {
                    self.eval_float(env, expr);
                    let a = self.val.clone();
                    let r = self.vreg();
                    self.p("  ");
                    self.p(r.as_str());
                    self.p(" = fneg double ");
                    self.p(a.as_str());
                    self.p("\n");
                    self.give(r.as_str());
                } else {
                    self.gen_expr(env, e);
                    let v = self.val.clone();
                    let r = self.vreg();
                    self.p("  ");
                    self.p(r.as_str());
                    self.p(" = bitcast i64 ");
                    self.p(v.as_str());
                    self.p(" to double\n");
                    self.give(r.as_str());
                }
            },
            Expr::Binary { op, lhs, rhs } => {
                assert(lhs@ == expr_view(**lhs) && rhs@ == expr_view(**rhs));
                if find_float_ins(env, *op, lhs, rhs).is_some() {
                    self.float_arith(env, e);
                } else {
                    self.gen_expr(env, e);
                    let v = self.val.clone();
                    let r = self.vreg();
                    self.p("  ");
                    self.p(r.as_str());
                    self.p(" = bitcast i64 ");
                    self.p(v.as_str());
                    self.p(" to double\n");
                    self.give(r.as_str());
                }
            },
            _ => {
                self.gen_expr(env, e);
                let v = self.val.clone();
                let r = self.vreg();
                self.p("  ");
                self.p(r.as_str());
                self.p(" = bitcast i64 ");
                self.p(v.as_str());
                self.p(" to double\n");
                self.give(r.as_str());
            },
        }
    }

    pub fn gen_truthy(&mut self, env: &IrEnv, e: &Expr)
        ensures
            final(self)@ == gen_truthy(old(self)@, env@, e@),
        decreases e, 6nat, 0nat,
    {
        match find_test_form(env, e) {
            TestForm::Int => {
                self.int_test(env, e);
            },
            TestForm::Float => {
                self.float_test(env, e);
            },
            TestForm::Boxed => {
                self.gen_expr(env, e);
                self.to_test(env);
            },
        }
    }

    pub fn gen_binary(&mut self, env: &IrEnv, e: &Expr)
        ensures
            final(self)@ == gen_binary(old(self)@, env@, e@),
        decreases e, 2nat, 0nat,
    {
        match e {
            Expr::Binary { op, lhs, rhs } => {
                assert(lhs@ == expr_view(**lhs) && rhs@ == expr_view(**rhs));
                match find_bin_form(env, *op, lhs, rhs) {
                    BinForm::Short => {
                        let slot = self.vreg();
                        self.p("  ");
                        self.p(slot.as_str());
                        self.p(" = alloca i64\n");
                        self.gen_expr(env, lhs);
                        let l = self.val.clone();
                        self.p("  store i64 ");
                        self.p(l.as_str());
                        self.p(", ptr ");
                        self.p(slot.as_str());
                        self.p("\n");
                        self.need("lumen_truthy", "i32 @lumen_truthy(i64)");
                        let t = self.vreg();
                        self.p("  ");
                        self.p(t.as_str());
                        self.p(" = call i32 @lumen_truthy(i64 ");
                        self.p(l.as_str());
                        self.p(")\n");
                        let c = self.vreg();
                        self.p("  ");
                        self.p(c.as_str());
                        self.p(" = icmp ne i32 ");
                        self.p(t.as_str());
                        self.p(", 0\n");
                        let rhsl = self.label("sc_rhs");
                        let end = self.label("sc_end");
                        if *op == BinOp::And {
                            self.p("  br i1 ");
                            self.p(c.as_str());
                            self.p(", label %");
                            self.p(rhsl.as_str());
                            self.p(", label %");
                            self.p(end.as_str());
                            self.p("\n");
                        } else {
                            self.p("  br i1 ");
                            self.p(c.as_str());
                            self.p(", label %");
                            self.p(end.as_str());
                            self.p(", label %");
                            self.p(rhsl.as_str());
                            self.p("\n");
                        }
                        self.p(rhsl.as_str());
                        self.p(":\n");
                        self.gen_expr(env, rhs);
                        let rv = self.val.clone();
                        self.p("  store i64 ");
                        self.p(rv.as_str());
                        self.p(", ptr ");
                        self.p(slot.as_str());
                        self.p("\n");
                        self.p("  br label %");
                        self.p(end.as_str());
                        self.p("\n");
                        self.p(end.as_str());
                        self.p(":\n");
                        let r = self.vreg();
                        self.p("  ");
                        self.p(r.as_str());
                        self.p(" = load i64, ptr ");
                        self.p(slot.as_str());
                        self.p("\n");
                        self.give(r.as_str());
                    },
                    BinForm::Int => {
                        self.int_arith(env, e);
                        self.box_int(env);
                    },
                    BinForm::IntTest => {
                        self.int_test(env, e);
                        self.box_bool(env);
                    },
                    BinForm::Float => {
                        self.float_arith(env, e);
                        let v = self.val.clone();
                        let r = self.vreg();
                        self.p("  ");
                        self.p(r.as_str());
                        self.p(" = bitcast double ");
                        self.p(v.as_str());
                        self.p(" to i64\n");
                        self.give(r.as_str());
                    },
                    BinForm::FloatTest => {
                        self.float_test(env, e);
                        self.box_bool(env);
                    },
                    BinForm::Boxed => {
                        self.gen_expr(env, lhs);
                        let l = self.val.clone();
                        self.gen_expr(env, rhs);
                        let rv = self.val.clone();
                        let f = runtime_op_name(*op);
                        self.need_call(f, 2);
                        let r = self.vreg();
                        self.p("  ");
                        self.p(r.as_str());
                        self.p(" = call i64 @");
                        self.p(f);
                        self.p("(i64 ");
                        self.p(l.as_str());
                        self.p(", i64 ");
                        self.p(rv.as_str());
                        self.p(")\n");
                        self.give(r.as_str());
                    },
                }
            },
            _ => {
            },
        }
    }

    pub fn indirect(&mut self, env: &IrEnv, e: &Expr)
        ensures
            final(self)@ == indirect(old(self)@, env@, e@),
        decreases e, 1nat, 0nat,
    {
        match e {
            Expr::Call { callee, args } => {
                proof {
                    exprs_facts(args@);
                }
                assert(callee@ == expr_view(**callee));
                if args.len() > 4 {
                    self.fail("indirect call supports up to 4 args");
                } else {
                    self.gen_expr(env, callee);
                    let f = self.val.clone();
                    let mut first = "i64 ".to_owned();
                    first.append(f.as_str());
                    let sig = self.args_text(env, args, args.len(), first.as_str());
                    let n: u64 = args.len() as u64;
                    let mut sym = "lumen_call".to_owned();
                    push_u64(&mut sym, n as u64);
                    let m: u64 = n + 1;
                    self.need_call(sym.as_str(), m);
                    let r = self.vreg();
                    self.p("  ");
                    self.p(r.as_str());
                    self.p(" = call i64 @");
                    self.p(sym.as_str());
                    self.p("(");
                    self.p(sig.as_str());
                    self.p(")\n");
                    self.give(r.as_str());
                }
            },
            _ => {
            },
        }
    }

    pub fn call_print(&mut self, env: &IrEnv, e: &Expr)
        ensures
            final(self)@ == call_print(old(self)@, env@, e@),
        decreases e, 1nat, 0nat,
    {
        match e {
            Expr::Call { callee: _, args } => {
                proof {
                    exprs_facts(args@);
                }
                if args.len() == 0 {
                    self.need("lumen_print_nl", "void @lumen_print_nl()");
                    self.need("lumen_nil", "i64 @lumen_nil()");
                    self.p("  call void @lumen_print_nl()\n");
                    self.nil_value(env);
                } else {
                    if args.len() == 1 {
                        assert(exprs_view(args@)[0] == args@[0]@);
                        self.need("lumen_print", "void @lumen_print(i64)");
                        self.need("lumen_nil", "i64 @lumen_nil()");
                        self.gen_expr(env, &args[0]);
                        let v = self.val.clone();
                        self.p("  call void @lumen_print(i64 ");
                        self.p(v.as_str());
                        self.p(")\n");
                        self.nil_value(env);
                    } else {
                        self.need("lumen_print_part", "void @lumen_print_part(i64)");
                        self.need("lumen_print_space", "void @lumen_print_space()");
                        self.need("lumen_print_nl", "void @lumen_print_nl()");
                        self.need("lumen_nil", "i64 @lumen_nil()");
                        self.print_parts(env, args, args.len());
                        self.p("  call void @lumen_print_nl()\n");
                        self.nil_value(env);
                    }
                }
            },
            _ => {
            },
        }
    }

    pub fn call_len(&mut self, env: &IrEnv, e: &Expr)
        ensures
            final(self)@ == call_len(old(self)@, env@, e@),
        decreases e, 1nat, 0nat,
    {
        match e {
            Expr::Call { callee: _, args } => {
                proof {
                    exprs_facts(args@);
                }
                if args.len() == 0 {
                    self.fail("missing argument");
                } else {
                    assert(exprs_view(args@)[0] == args@[0]@);
                    self.need("lumen_len", "i64 @lumen_len(i64)");
                    self.need("lumen_from_int", "i64 @lumen_from_int(i64)");
                    self.gen_expr(env, &args[0]);
                    let v = self.val.clone();
                    let k = self.vreg();
                    self.p("  ");
                    self.p(k.as_str());
                    self.p(" = call i64 @lumen_len(i64 ");
                    self.p(v.as_str());
                    self.p(")\n");
                    let r = self.vreg();
                    self.p("  ");
                    self.p(r.as_str());
                    self.p(" = call i64 @lumen_from_int(i64 ");
                    self.p(k.as_str());
                    self.p(")\n");
                    self.give(r.as_str());
                }
            },
            _ => {
            },
        }
    }

    pub fn call_range(&mut self, env: &IrEnv, e: &Expr)
        ensures
            final(self)@ == call_range(old(self)@, env@, e@),
        decreases e, 1nat, 0nat,
    {
        match e {
            Expr::Call { callee: _, args } => {
                proof {
                    exprs_facts(args@);
                }
                if args.len() == 1 {
                    assert(exprs_view(args@)[0] == args@[0]@);
                    self.range_needs(env);
                    self.int_lit(env, 0);
                    let lov = self.val.clone();
                    self.gen_expr(env, &args[0]);
                    let hiv = self.val.clone();
                    self.range_list(env, lov.as_str(), hiv.as_str());
                } else {
                    if args.len() == 2 {
                        assert(
                            exprs_view(args@)[0] == args@[0]@ && exprs_view(args@)[1] == args@[1]@
                        );
                        self.range_needs(env);
                        self.gen_expr(env, &args[0]);
                        let lov = self.val.clone();
                        self.gen_expr(env, &args[1]);
                        let hiv = self.val.clone();
                        self.range_list(env, lov.as_str(), hiv.as_str());
                    } else {
                        self.fail("range() takes 1 or 2 args");
                    }
                }
            },
            _ => {
            },
        }
    }

    pub fn call_input(&mut self, env: &IrEnv, e: &Expr)
        ensures
            final(self)@ == call_input(old(self)@, env@, e@),
        decreases e, 1nat, 0nat,
    {
        match e {
            Expr::Call { callee: _, args } => {
                proof {
                    exprs_facts(args@);
                }
                self.need_call("lumen_input", 1);
                self.need("lumen_nil", "i64 @lumen_nil()");
                if args.len() == 0 {
                    self.nil_value(env);
                } else {
                    assert(exprs_view(args@)[0] == args@[0]@);
                    self.gen_expr(env, &args[0]);
                }
                let v = self.val.clone();
                let r = self.vreg();
                self.p("  ");
                self.p(r.as_str());
                self.p(" = call i64 @lumen_input(i64 ");
                self.p(v.as_str());
                self.p(")\n");
                self.give(r.as_str());
            },
            _ => {
            },
        }
    }

    pub fn call_quiet(&mut self, env: &IrEnv, e: &Expr, n: &str)
        ensures
            final(self)@ == call_quiet(old(self)@, env@, e@, n@),
        decreases e, 1nat, 0nat,
    {
        match e {
            Expr::Call { callee: _, args } => {
                proof {
                    exprs_facts(args@);
                }
                if args.len() == 0 {
                    self.fail("missing argument");
                } else {
                    assert(exprs_view(args@)[0] == args@[0]@);
                    let sym = if str_eq(n, "assert") { "lumen_assert" } else { "lumen_release" };
                    let mut sig = "void @".to_owned();
                    sig.append(sym);
                    sig.append("(i64)");
                    self.need(sym, sig.as_str());
                    self.need("lumen_nil", "i64 @lumen_nil()");
                    self.gen_expr(env, &args[0]);
                    let v = self.val.clone();
                    self.p("  call void @");
                    self.p(sym);
                    self.p("(i64 ");
                    self.p(v.as_str());
                    self.p(")\n");
                    self.nil_value(env);
                }
            },
            _ => {
            },
        }
    }

    pub fn call_one(&mut self, env: &IrEnv, e: &Expr, n: &str)
        ensures
            final(self)@ == call_one(old(self)@, env@, e@, n@),
        decreases e, 1nat, 0nat,
    {
        match e {
            Expr::Call { callee: _, args } => {
                proof {
                    exprs_facts(args@);
                }
                if args.len() == 0 {
                    self.fail("missing argument");
                } else {
                    assert(exprs_view(args@)[0] == args@[0]@);
                    match find_one_value_fn(n) {
                        Some(sym) => {
                            self.need_call(sym, 1);
                            self.gen_expr(env, &args[0]);
                            let v = self.val.clone();
                            let r = self.vreg();
                            self.p("  ");
                            self.p(r.as_str());
                            self.p(" = call i64 @");
                            self.p(sym);
                            self.p("(i64 ");
                            self.p(v.as_str());
                            self.p(")\n");
                            self.give(r.as_str());
                        },
                        None => {
                        },
                    }
                }
            },
            _ => {
            },
        }
    }

    pub fn call_struct(&mut self, env: &IrEnv, e: &Expr, n: &str)
        ensures
            final(self)@ == call_struct(old(self)@, env@, e@, n@),
        decreases e, 1nat, 0nat,
    {
        match e {
            Expr::Call { callee: _, args } => {
                proof {
                    exprs_facts(args@);
                }
                match find_ir_fields(env, n) {
                    Some(fields) => {
                        let slot = self.struct_open(env, n, fields);
                        assert(fields_view(fields@).len() == fields@.len());
                        self.set_positional(
                            env,
                            args,
                            if args.len() <= fields.len() { args.len() } else { fields.len() },
                            slot.as_str(),
                            fields,
                        );
                        let r = self.vreg();
                        self.p("  ");
                        self.p(r.as_str());
                        self.p(" = load i64, ptr ");
                        self.p(slot.as_str());
                        self.p("\n");
                        self.give(r.as_str());
                    },
                    None => {
                    },
                }
            },
            _ => {
            },
        }
    }

    pub fn call_direct(&mut self, env: &IrEnv, e: &Expr, n: &str)
        ensures
            final(self)@ == call_direct(old(self)@, env@, e@, n@),
        decreases e, 1nat, 0nat,
    {
        match e {
            Expr::Call { callee: _, args } => {
                proof {
                    exprs_facts(args@);
                }
                let mut sym = "lm_".to_owned();
                sym.append(n);
                let sig = self.args_text(env, args, args.len(), "");
                let k: u64 = args.len() as u64;
                self.need_call(sym.as_str(), k);
                let r = self.vreg();
                self.p("  ");
                self.p(r.as_str());
                self.p(" = call i64 @");
                self.p(sym.as_str());
                self.p("(");
                self.p(sig.as_str());
                self.p(")\n");
                self.give(r.as_str());
            },
            _ => {
            },
        }
    }

    pub fn gen_call(&mut self, env: &IrEnv, e: &Expr)
        ensures
            final(self)@ == gen_call(old(self)@, env@, e@),
        decreases e, 2nat, 0nat,
    {
        match e {
            Expr::Call { callee, args } => {
                proof {
                    exprs_facts(args@);
                }
                assert(callee@ == expr_view(**callee));
                match &**callee {
                    Expr::Ident(n) => {
                        match self.find_call_kind(env, n.as_str()) {
                            IrCall::Value => {
                                self.indirect(env, e);
                            },
                            IrCall::Print => {
                                self.call_print(env, e);
                            },
                            IrCall::Len => {
                                self.call_len(env, e);
                            },
                            IrCall::Range => {
                                self.call_range(env, e);
                            },
                            IrCall::Input => {
                                self.call_input(env, e);
                            },
                            IrCall::Quiet => {
                                self.call_quiet(env, e, n.as_str());
                            },
                            IrCall::One => {
                                self.call_one(env, e, n.as_str());
                            },
                            IrCall::Struct => {
                                self.call_struct(env, e, n.as_str());
                            },
                            IrCall::Extern => {
                                self.fail(
                                    "LLVM backend: extern/FFI not yet supported (use --backend asm)",
                                );
                            },
                            IrCall::Direct => {
                                self.call_direct(env, e, n.as_str());
                            },
                            IrCall::Unknown => {
                                let mut m = "undefined function '".to_owned();
                                m.append(n.as_str());
                                m.append("'");
                                self.fail(m.as_str());
                            },
                        }
                    },
                    _ => {
                        self.indirect(env, e);
                    },
                }
            },
            _ => {
            },
        }
    }

    pub fn gen_method(&mut self, env: &IrEnv, e: &Expr)
        ensures
            final(self)@ == gen_method(old(self)@, env@, e@),
        decreases e, 2nat, 0nat,
    {
        match e {
            Expr::Method { obj, name, args } => {
                proof {
                    exprs_facts(args@);
                }
                assert(obj@ == expr_view(**obj));
                match find_module_name(obj) {
                    Some(md) => {
                        match lookup(md, name.as_str()) {
                            Some(bf) => {
                                let sym = bf.symbol;
                                let sig = self.args_text(env, args, args.len(), "");
                                let k: u64 = args.len() as u64;
                                self.need_call(sym, k);
                                let r = self.vreg();
                                self.p("  ");
                                self.p(r.as_str());
                                self.p(" = call i64 @");
                                self.p(sym);
                                self.p("(");
                                self.p(sig.as_str());
                                self.p(")\n");
                                self.give(r.as_str());
                            },
                            None => {
                                let mut m = "native ".to_owned();
                                m.append(md);
                                m.append(": no fn '");
                                m.append(name.as_str());
                                m.append("'");
                                self.fail(m.as_str());
                            },
                        }
                    },
                    None => {
                        match find_method_owner(env, name.as_str()) {
                            Some(owner) => {
                                self.gen_expr(env, obj);
                                let recv = self.val.clone();
                                let mut first = "i64 ".to_owned();
                                first.append(recv.as_str());
                                let sig = self.args_text(env, args, args.len(), first.as_str());
                                let mut sym = "lm_".to_owned();
                                sym.append(owner);
                                sym.append("__");
                                sym.append(name.as_str());
                                let k: u64 = succ64(args.len() as u64);
                                self.need_call(sym.as_str(), k);
                                let r = self.vreg();
                                self.p("  ");
                                self.p(r.as_str());
                                self.p(" = call i64 @");
                                self.p(sym.as_str());
                                self.p("(");
                                self.p(sig.as_str());
                                self.p(")\n");
                                self.give(r.as_str());
                            },
                            None => {
                                if str_eq(name.as_str(), "get") {
                                    self.gen_expr(env, obj);
                                    let recv = self.val.clone();
                                    let mut first = "i64 ".to_owned();
                                    first.append(recv.as_str());
                                    let sig = self.args_text(env, args, args.len(), first.as_str());
                                    let sym = if args.len() == 2 { "lumen_map_get_or" } else { "lumen_map_get" };
                                    let k: u64 = succ64(args.len() as u64);
                                    self.need_call(sym, k);
                                    let r = self.vreg();
                                    self.p("  ");
                                    self.p(r.as_str());
                                    self.p(" = call i64 @");
                                    self.p(sym);
                                    self.p("(");
                                    self.p(sig.as_str());
                                    self.p(")\n");
                                    self.give(r.as_str());
                                } else {
                                    if str_eq(name.as_str(), "len") && args.len() == 0 {
                                        self.need("lumen_len", "i64 @lumen_len(i64)");
                                        self.need("lumen_from_int", "i64 @lumen_from_int(i64)");
                                        self.gen_expr(env, obj);
                                        let v = self.val.clone();
                                        let k = self.vreg();
                                        self.p("  ");
                                        self.p(k.as_str());
                                        self.p(" = call i64 @lumen_len(i64 ");
                                        self.p(v.as_str());
                                        self.p(")\n");
                                        let r = self.vreg();
                                        self.p("  ");
                                        self.p(r.as_str());
                                        self.p(" = call i64 @lumen_from_int(i64 ");
                                        self.p(k.as_str());
                                        self.p(")\n");
                                        self.give(r.as_str());
                                    } else {
                                        self.gen_expr(env, obj);
                                        let recv = self.val.clone();
                                        let mut first = "i64 ".to_owned();
                                        first.append(recv.as_str());
                                        match find_builtin_method(name.as_str()) {
                                            Some(sym) => {
                                                let k: u64 = succ64(args.len() as u64);
                                                self.need_call(sym, k);
                                                let sig = self.args_text(
                                                    env,
                                                    args,
                                                    args.len(),
                                                    first.as_str(),
                                                );
                                                let r = self.vreg();
                                                self.p("  ");
                                                self.p(r.as_str());
                                                self.p(" = call i64 @");
                                                self.p(sym);
                                                self.p("(");
                                                self.p(sig.as_str());
                                                self.p(")\n");
                                                self.give(r.as_str());
                                            },
                                            None => {
                                                let mut m = "unknown method '".to_owned();
                                                m.append(name.as_str());
                                                m.append("'");
                                                self.fail(m.as_str());
                                            },
                                        }
                                    }
                                }
                            },
                        }
                    },
                }
            },
            _ => {
            },
        }
    }

    pub fn comp_push(&mut self, env: &IrEnv, e: &Expr, slot: &str)
        ensures
            final(self)@ == comp_push(old(self)@, env@, e@, slot@),
        decreases e, 7nat, 0nat,
    {
        match find_method_owner(env, "push") {
            Some(owner) => {
                let recv = self.vreg();
                self.p("  ");
                self.p(recv.as_str());
                self.p(" = load i64, ptr ");
                self.p(slot);
                self.p("\n");
                self.gen_expr(env, e);
                let v = self.val.clone();
                let mut sym = "lm_".to_owned();
                sym.append(owner);
                sym.append("__push");
                self.need_call(sym.as_str(), 2);
                let r = self.vreg();
                self.p("  ");
                self.p(r.as_str());
                self.p(" = call i64 @");
                self.p(sym.as_str());
                self.p("(i64 ");
                self.p(recv.as_str());
                self.p(", i64 ");
                self.p(v.as_str());
                self.p(")\n");
                self.give(r.as_str());
            },
            None => {
                let recv = self.vreg();
                self.p("  ");
                self.p(recv.as_str());
                self.p(" = load i64, ptr ");
                self.p(slot);
                self.p("\n");
                self.need_call("lumen_list_push", 2);
                self.gen_expr(env, e);
                let v = self.val.clone();
                let r = self.vreg();
                self.p("  ");
                self.p(r.as_str());
                self.p(" = call i64 @lumen_list_push(i64 ");
                self.p(recv.as_str());
                self.p(", i64 ");
                self.p(v.as_str());
                self.p(")\n");
                self.give(r.as_str());
            },
        }
    }

    pub fn comp_body(&mut self, env: &IrEnv, e: &Expr, slot: &str)
        ensures
            final(self)@ == comp_body(old(self)@, env@, e@, slot@),
        decreases e, 1nat, 0nat,
    {
        match e {
            Expr::ListComp { elem, var: _, iter: _, cond } => {
                assert(elem@ == expr_view(**elem));
                assert(optbox_view(*cond) is Some == cond is Some);
                self.gc_poll(env);
                match cond {
                    Some(c) => {
                        assert(optbox_view(*cond) == Some(Box::new(c@)) && c@ == expr_view(**c));
                        let end = self.label("ifend");
                        let thenl = self.label("then");
                        let nextl = self.label("next");
                        self.gen_truthy(env, c);
                        let cv = self.val.clone();
                        self.p("  br i1 ");
                        self.p(cv.as_str());
                        self.p(", label %");
                        self.p(thenl.as_str());
                        self.p(", label %");
                        self.p(nextl.as_str());
                        self.p("\n");
                        self.p(thenl.as_str());
                        self.p(":\n");
                        self.comp_push(env, elem, slot);
                        self.p("  br label %");
                        self.p(end.as_str());
                        self.p("\n");
                        self.p(nextl.as_str());
                        self.p(":\n");
                        self.p("  br label %");
                        self.p(end.as_str());
                        self.p("\n");
                        self.p(end.as_str());
                        self.p(":\n");
                    },
                    None => {
                        self.comp_push(env, elem, slot);
                    },
                }
            },
            _ => {
            },
        }
    }

    pub fn save_slot(&mut self, var: &str) -> (r: Option<(String, String)>)
        ensures
            (final(self)@, slots_opt(r)) == save_slot(old(self)@, var@),
    {
        match self.local_of(var) {
            Some(slot) => {
                let v = self.vreg();
                self.p("  ");
                self.p(v.as_str());
                self.p(" = load i64, ptr ");
                self.p(slot.as_str());
                self.p("\n");
                let kept = self.vreg();
                self.p("  ");
                self.p(kept.as_str());
                self.p(" = alloca i64\n");
                self.p("  store i64 ");
                self.p(v.as_str());
                self.p(", ptr ");
                self.p(kept.as_str());
                self.p("\n");
                Some((slot, kept))
            },
            None => None,
        }
    }

    pub fn restore_slot(&mut self, saved: &Option<(String, String)>)
        ensures
            final(self)@ == restore_slot(old(self)@, slots_opt(*saved)),
    {
        match saved {
            Some((slot, kept)) => {
                let v = self.vreg();
                self.p("  ");
                self.p(v.as_str());
                self.p(" = load i64, ptr ");
                self.p(kept.as_str());
                self.p("\n");
                self.p("  store i64 ");
                self.p(v.as_str());
                self.p(", ptr ");
                self.p(slot.as_str());
                self.p("\n");
            },
            None => {},
        }
    }

    pub fn gen_comp(&mut self, env: &IrEnv, e: &Expr)
        ensures
            final(self)@ == gen_comp(old(self)@, env@, e@),
        decreases e, 2nat, 0nat,
    {
        match e {
            Expr::ListComp { elem: _, var, iter, cond: _ } => {
                assert(iter@ == expr_view(**iter));
                self.need("lumen_list_new", "i64 @lumen_list_new(i64)");
                let k: u64 = self.number();
                let mut acc = "__lc_acc_".to_owned();
                push_u64(&mut acc, k as u64);
                let lst = self.vreg();
                self.p("  ");
                self.p(lst.as_str());
                self.p(" = call i64 @lumen_list_new(i64 0)\n");
                let plain = sanitize(acc.as_str());
                let mut slot = "%l.".to_owned();
                slot.append(plain.as_str());
                self.p("  ");
                self.p(slot.as_str());
                self.p(" = alloca i64\n");
                self.p("  store i64 ");
                self.p(lst.as_str());
                self.p(", ptr ");
                self.p(slot.as_str());
                self.p("\n");
                self.bind_local(acc.as_str(), slot.as_str());
                let saved = self.save_slot(var.as_str());
                match &**iter {
                    Expr::Range { lo, hi } => {
                        assert(lo@ == expr_view(**lo) && hi@ == expr_view(**hi));
                        self.need("lumen_to_int", "i64 @lumen_to_int(i64)");
                        self.need("lumen_from_int", "i64 @lumen_from_int(i64)");
                        self.gen_expr(env, lo);
                        let lov = self.val.clone();
                        self.gen_expr(env, hi);
                        let hiv = self.val.clone();
                        let lp = self.range_begin(env, var.as_str(), lov.as_str(), hiv.as_str());
                        self.comp_body(env, e, slot.as_str());
                        let cont = lp.cont.as_str();
                        self.p("  br label %");
                        self.p(cont);
                        self.p("\n");
                        self.loop_step(env, &lp);
                    },
                    _ => {
                        self.need("lumen_iter_prep", "i64 @lumen_iter_prep(i64)");
                        self.need("lumen_len", "i64 @lumen_len(i64)");
                        self.need("lumen_list_get", "i64 @lumen_list_get(i64, i64)");
                        self.gen_expr(env, iter);
                        let it = self.val.clone();
                        let lp = self.list_begin(env, var.as_str(), it.as_str());
                        self.comp_body(env, e, slot.as_str());
                        let cont = lp.cont.as_str();
                        self.p("  br label %");
                        self.p(cont);
                        self.p("\n");
                        self.loop_step(env, &lp);
                    },
                }
                self.restore_slot(&saved);
                let r = self.vreg();
                self.p("  ");
                self.p(r.as_str());
                self.p(" = load i64, ptr ");
                self.p(slot.as_str());
                self.p("\n");
                self.give(r.as_str());
            },
            _ => {
            },
        }
    }

    pub fn expr_int(&mut self, env: &IrEnv, e: &Expr)
        ensures
            final(self)@ == expr_int(old(self)@, env@, e@),
        decreases e, 3nat, 0nat,
    {
        match e {
            Expr::Int(n) => {
                self.int_lit(env, *n);
            },
            _ => {
            },
        }
    }

    pub fn expr_float(&mut self, env: &IrEnv, e: &Expr)
        ensures
            final(self)@ == expr_float(old(self)@, env@, e@),
        decreases e, 3nat, 0nat,
    {
        match e {
            Expr::Float(b) => {
                self.need("lumen_from_double", "i64 @lumen_from_double(double)");
                let t = fmt_double(*b);
                let r = self.vreg();
                self.p("  ");
                self.p(r.as_str());
                self.p(" = call i64 @lumen_from_double(double ");
                self.p(t.as_str());
                self.p(")\n");
                self.give(r.as_str());
            },
            _ => {
            },
        }
    }

    pub fn expr_bool(&mut self, env: &IrEnv, e: &Expr)
        ensures
            final(self)@ == expr_bool(old(self)@, env@, e@),
        decreases e, 3nat, 0nat,
    {
        match e {
            Expr::Bool(b) => {
                self.need("lumen_bool", "i64 @lumen_bool(i32)");
                if *b {
                    let r = self.vreg();
                    self.p("  ");
                    self.p(r.as_str());
                    self.p(" = call i64 @lumen_bool(i32 1)\n");
                    self.give(r.as_str());
                } else {
                    let r = self.vreg();
                    self.p("  ");
                    self.p(r.as_str());
                    self.p(" = call i64 @lumen_bool(i32 0)\n");
                    self.give(r.as_str());
                }
            },
            _ => {
            },
        }
    }

    pub fn expr_nil(&mut self, env: &IrEnv, e: &Expr)
        ensures
            final(self)@ == expr_nil(old(self)@, env@, e@),
        decreases e, 3nat, 0nat,
    {
        match e {
            Expr::Nil => {
                self.need("lumen_nil", "i64 @lumen_nil()");
                self.nil_value(env);
            },
            _ => {
            },
        }
    }

    pub fn expr_str(&mut self, env: &IrEnv, e: &Expr)
        ensures
            final(self)@ == expr_str(old(self)@, env@, e@),
        decreases e, 3nat, 0nat,
    {
        match e {
            Expr::Str(s) => {
                self.need("lumen_str_new", "i64 @lumen_str_new(ptr)");
                let c = self.add_str(s.as_str());
                let p = self.vreg();
                self.p("  ");
                self.p(p.as_str());
                self.p(" = ");
                self.p(c.as_str());
                self.p("\n");
                let r = self.vreg();
                self.p("  ");
                self.p(r.as_str());
                self.p(" = call i64 @lumen_str_new(ptr ");
                self.p(p.as_str());
                self.p(")\n");
                self.give(r.as_str());
            },
            _ => {
            },
        }
    }

    pub fn expr_f_str(&mut self, env: &IrEnv, e: &Expr)
        ensures
            final(self)@ == expr_f_str(old(self)@, env@, e@),
        decreases e, 3nat, 0nat,
    {
        match e {
            Expr::FStr(ps) => {
                proof {
                    parts_facts(ps@);
                }
                self.need("lumen_str_new", "i64 @lumen_str_new(ptr)");
                self.need("lumen_str_concat", "i64 @lumen_str_concat(i64, i64)");
                self.need("lumen_to_str", "i64 @lumen_to_str(i64)");
                let c = self.add_str("");
                let ep = self.vreg();
                self.p("  ");
                self.p(ep.as_str());
                self.p(" = ");
                self.p(c.as_str());
                self.p("\n");
                let acc0 = self.vreg();
                self.p("  ");
                self.p(acc0.as_str());
                self.p(" = call i64 @lumen_str_new(ptr ");
                self.p(ep.as_str());
                self.p(")\n");
                let slot = self.vreg();
                self.p("  ");
                self.p(slot.as_str());
                self.p(" = alloca i64\n");
                self.p("  store i64 ");
                self.p(acc0.as_str());
                self.p(", ptr ");
                self.p(slot.as_str());
                self.p("\n");
                self.fstr_parts(env, ps, ps.len(), slot.as_str());
                let r = self.vreg();
                self.p("  ");
                self.p(r.as_str());
                self.p(" = load i64, ptr ");
                self.p(slot.as_str());
                self.p("\n");
                self.give(r.as_str());
            },
            _ => {
            },
        }
    }

    pub fn expr_ident(&mut self, env: &IrEnv, e: &Expr)
        ensures
            final(self)@ == expr_ident(old(self)@, env@, e@),
        decreases e, 3nat, 0nat,
    {
        match e {
            Expr::Ident(n) => {
                match self.local_of(n.as_str()) {
                    Some(slot) => {
                        let r = self.vreg();
                        self.p("  ");
                        self.p(r.as_str());
                        self.p(" = load i64, ptr ");
                        self.p(slot.as_str());
                        self.p("\n");
                        self.give(r.as_str());
                    },
                    None => {
                        match find_ir_arity(env, n.as_str()) {
                            Some(total) => {
                                let cs = self.closure_open(env, n.as_str(), total, total, 0);
                                let r = self.vreg();
                                self.p("  ");
                                self.p(r.as_str());
                                self.p(" = load i64, ptr ");
                                self.p(cs.as_str());
                                self.p("\n");
                                self.give(r.as_str());
                            },
                            None => {
                                let mut m = "undefined name '".to_owned();
                                m.append(n.as_str());
                                m.append("'");
                                self.fail(m.as_str());
                            },
                        }
                    },
                }
            },
            _ => {
            },
        }
    }

    pub fn expr_self_expr(&mut self, env: &IrEnv, e: &Expr)
        ensures
            final(self)@ == expr_self_expr(old(self)@, env@, e@),
        decreases e, 3nat, 0nat,
    {
        match e {
            Expr::SelfExpr => {
                match env.self_text() {
                    Some(slot) => {
                        let r = self.vreg();
                        self.p("  ");
                        self.p(r.as_str());
                        self.p(" = load i64, ptr ");
                        self.p(slot);
                        self.p("\n");
                        self.give(r.as_str());
                    },
                    None => {
                        self.fail("self outside method");
                    },
                }
            },
            _ => {
            },
        }
    }

    pub fn expr_unary(&mut self, env: &IrEnv, e: &Expr)
        ensures
            final(self)@ == expr_unary(old(self)@, env@, e@),
        decreases e, 3nat, 0nat,
    {
        match e {
            Expr::Unary { op, expr } => {
                self.gen_expr(env, expr);
                let v = self.val.clone();
                if *op == UnOp::Neg {
                    self.need("lumen_neg", "i64 @lumen_neg(i64)");
                    let r = self.vreg();
                    self.p("  ");
                    self.p(r.as_str());
                    self.p(" = call i64 @lumen_neg(i64 ");
                    self.p(v.as_str());
                    self.p(")\n");
                    self.give(r.as_str());
                } else {
                    self.need("lumen_truthy", "i32 @lumen_truthy(i64)");
                    self.need("lumen_bool", "i64 @lumen_bool(i32)");
                    let t = self.vreg();
                    self.p("  ");
                    self.p(t.as_str());
                    self.p(" = call i32 @lumen_truthy(i64 ");
                    self.p(v.as_str());
                    self.p(")\n");
                    let z = self.vreg();
                    self.p("  ");
                    self.p(z.as_str());
                    self.p(" = icmp eq i32 ");
                    self.p(t.as_str());
                    self.p(", 0\n");
                    let zi = self.vreg();
                    self.p("  ");
                    self.p(zi.as_str());
                    self.p(" = zext i1 ");
                    self.p(z.as_str());
                    self.p(" to i32\n");
                    let r = self.vreg();
                    self.p("  ");
                    self.p(r.as_str());
                    self.p(" = call i64 @lumen_bool(i32 ");
                    self.p(zi.as_str());
                    self.p(")\n");
                    self.give(r.as_str());
                }
            },
            _ => {
            },
        }
    }

    pub fn expr_if_else(&mut self, env: &IrEnv, e: &Expr)
        ensures
            final(self)@ == expr_if_else(old(self)@, env@, e@),
        decreases e, 3nat, 0nat,
    {
        match e {
            Expr::IfElse { cond, then, els } => {
                let slot = self.vreg();
                self.p("  ");
                self.p(slot.as_str());
                self.p(" = alloca i64\n");
                self.gen_truthy(env, cond);
                let c = self.val.clone();
                let tl = self.label("tern_t");
                let fl = self.label("tern_f");
                let end = self.label("tern_e");
                self.p("  br i1 ");
                self.p(c.as_str());
                self.p(", label %");
                self.p(tl.as_str());
                self.p(", label %");
                self.p(fl.as_str());
                self.p("\n");
                self.p(tl.as_str());
                self.p(":\n");
                self.gen_expr(env, then);
                let tv = self.val.clone();
                self.p("  store i64 ");
                self.p(tv.as_str());
                self.p(", ptr ");
                self.p(slot.as_str());
                self.p("\n");
                self.p("  br label %");
                self.p(end.as_str());
                self.p("\n");
                self.p(fl.as_str());
                self.p(":\n");
                self.gen_expr(env, els);
                let fv = self.val.clone();
                self.p("  store i64 ");
                self.p(fv.as_str());
                self.p(", ptr ");
                self.p(slot.as_str());
                self.p("\n");
                self.p("  br label %");
                self.p(end.as_str());
                self.p("\n");
                self.p(end.as_str());
                self.p(":\n");
                let r = self.vreg();
                self.p("  ");
                self.p(r.as_str());
                self.p(" = load i64, ptr ");
                self.p(slot.as_str());
                self.p("\n");
                self.give(r.as_str());
            },
            _ => {
            },
        }
    }

    pub fn expr_list(&mut self, env: &IrEnv, e: &Expr)
        ensures
            final(self)@ == expr_list(old(self)@, env@, e@),
        decreases e, 3nat, 0nat,
    {
        match e {
            Expr::List(xs) => {
                proof {
                    exprs_facts(xs@);
                }
                self.need("lumen_list_new", "i64 @lumen_list_new(i64)");
                self.need("lumen_list_push", "void @lumen_list_push(i64, i64)");
                let n: u64 = xs.len() as u64;
                let lst = self.vreg();
                self.p("  ");
                self.p(lst.as_str());
                self.p(" = call i64 @lumen_list_new(i64 ");
                self.u(n as u64);
                self.p(")\n");
                let slot = self.vreg();
                self.p("  ");
                self.p(slot.as_str());
                self.p(" = alloca i64\n");
                self.p("  store i64 ");
                self.p(lst.as_str());
                self.p(", ptr ");
                self.p(slot.as_str());
                self.p("\n");
                self.list_items(env, xs, xs.len(), slot.as_str());
                let r = self.vreg();
                self.p("  ");
                self.p(r.as_str());
                self.p(" = load i64, ptr ");
                self.p(slot.as_str());
                self.p("\n");
                self.give(r.as_str());
            },
            _ => {
            },
        }
    }

    pub fn expr_map_lit(&mut self, env: &IrEnv, e: &Expr)
        ensures
            final(self)@ == expr_map_lit(old(self)@, env@, e@),
        decreases e, 3nat, 0nat,
    {
        match e {
            Expr::MapLit(kvs) => {
                proof {
                    pairs_facts(kvs@);
                }
                self.need("lumen_map_new", "i64 @lumen_map_new()");
                self.need("lumen_map_set", "void @lumen_map_set(i64, i64, i64)");
                let m = self.vreg();
                self.p("  ");
                self.p(m.as_str());
                self.p(" = call i64 @lumen_map_new()\n");
                let slot = self.vreg();
                self.p("  ");
                self.p(slot.as_str());
                self.p(" = alloca i64\n");
                self.p("  store i64 ");
                self.p(m.as_str());
                self.p(", ptr ");
                self.p(slot.as_str());
                self.p("\n");
                self.map_entries(env, kvs, kvs.len(), slot.as_str());
                let r = self.vreg();
                self.p("  ");
                self.p(r.as_str());
                self.p(" = load i64, ptr ");
                self.p(slot.as_str());
                self.p("\n");
                self.give(r.as_str());
            },
            _ => {
            },
        }
    }

    pub fn expr_index(&mut self, env: &IrEnv, e: &Expr)
        ensures
            final(self)@ == expr_index(old(self)@, env@, e@),
        decreases e, 3nat, 0nat,
    {
        match e {
            Expr::Index { obj, index } => {
                self.need("lumen_index_get", "i64 @lumen_index_get(i64, i64)");
                self.gen_expr(env, obj);
                let o = self.val.clone();
                self.gen_expr(env, index);
                let k = self.val.clone();
                let r = self.vreg();
                self.p("  ");
                self.p(r.as_str());
                self.p(" = call i64 @lumen_index_get(i64 ");
                self.p(o.as_str());
                self.p(", i64 ");
                self.p(k.as_str());
                self.p(")\n");
                self.give(r.as_str());
            },
            _ => {
            },
        }
    }

    pub fn expr_slice(&mut self, env: &IrEnv, e: &Expr)
        ensures
            final(self)@ == expr_slice(old(self)@, env@, e@),
        decreases e, 3nat, 0nat,
    {
        match e {
            Expr::Slice { obj, lo, hi } => {
                self.need("lumen_slice", "i64 @lumen_slice(i64, i64, i64)");
                self.need("lumen_nil", "i64 @lumen_nil()");
                self.gen_expr(env, obj);
                let o = self.val.clone();
                assert(
                    optbox_view(*lo) is Some == lo is Some
                        && optbox_view(*hi) is Some == hi is Some
                );
                match lo {
                    Some(x) => {
                        self.gen_expr(env, x);
                    },
                    None => {
                        self.nil_value(env);
                    },
                }
                let lov = self.val.clone();
                match hi {
                    Some(x) => {
                        self.gen_expr(env, x);
                    },
                    None => {
                        self.nil_value(env);
                    },
                }
                let hiv = self.val.clone();
                let r = self.vreg();
                self.p("  ");
                self.p(r.as_str());
                self.p(" = call i64 @lumen_slice(i64 ");
                self.p(o.as_str());
                self.p(", i64 ");
                self.p(lov.as_str());
                self.p(", i64 ");
                self.p(hiv.as_str());
                self.p(")\n");
                self.give(r.as_str());
            },
            _ => {
            },
        }
    }

    pub fn expr_range(&mut self, env: &IrEnv, e: &Expr)
        ensures
            final(self)@ == expr_range(old(self)@, env@, e@),
        decreases e, 3nat, 0nat,
    {
        match e {
            Expr::Range { lo, hi } => {
                self.range_needs(env);
                self.gen_expr(env, lo);
                let lov = self.val.clone();
                self.gen_expr(env, hi);
                let hiv = self.val.clone();
                self.range_list(env, lov.as_str(), hiv.as_str());
            },
            _ => {
            },
        }
    }

    pub fn expr_field(&mut self, env: &IrEnv, e: &Expr)
        ensures
            final(self)@ == expr_field(old(self)@, env@, e@),
        decreases e, 3nat, 0nat,
    {
        match e {
            Expr::Field { obj, name } => {
                self.need("lumen_struct_get", "i64 @lumen_struct_get(i64, ptr)");
                self.gen_expr(env, obj);
                let o = self.val.clone();
                let nm = self.add_str(name.as_str());
                let p = self.vreg();
                self.p("  ");
                self.p(p.as_str());
                self.p(" = ");
                self.p(nm.as_str());
                self.p("\n");
                let r = self.vreg();
                self.p("  ");
                self.p(r.as_str());
                self.p(" = call i64 @lumen_struct_get(i64 ");
                self.p(o.as_str());
                self.p(", ptr ");
                self.p(p.as_str());
                self.p(")\n");
                self.give(r.as_str());
            },
            _ => {
            },
        }
    }

    pub fn expr_closure(&mut self, env: &IrEnv, e: &Expr)
        ensures
            final(self)@ == expr_closure(old(self)@, env@, e@),
        decreases e, 3nat, 0nat,
    {
        match e {
            Expr::Closure { fn_name, captures } => {
                proof {
                    exprs_facts(captures@);
                }
                match find_ir_arity(env, fn_name.as_str()) {
                    Some(total) => {
                        if total < captures.len() as u64 {
                            self.fail("internal: closure captures more than its parameters");
                        } else {
                            let ncap: u64 = captures.len() as u64;
                            let user: u64 = total - ncap;
                            let cs = self.closure_open(env, fn_name.as_str(), total, user, ncap);
                            self.closure_caps(env, captures, captures.len(), cs.as_str());
                            let r = self.vreg();
                            self.p("  ");
                            self.p(r.as_str());
                            self.p(" = load i64, ptr ");
                            self.p(cs.as_str());
                            self.p("\n");
                            self.give(r.as_str());
                        }
                    },
                    None => {
                        let mut m = "unknown closure '".to_owned();
                        m.append(fn_name.as_str());
                        m.append("'");
                        self.fail(m.as_str());
                    },
                }
            },
            _ => {
            },
        }
    }

    pub fn expr_lambda(&mut self, env: &IrEnv, e: &Expr)
        ensures
            final(self)@ == expr_lambda(old(self)@, env@, e@),
        decreases e, 3nat, 0nat,
    {
        match e {
            Expr::Lambda { .. } => {
                self.fail("internal: lambda should be lifted before codegen");
            },
            _ => {
            },
        }
    }

    pub fn expr_named_call(&mut self, env: &IrEnv, e: &Expr)
        ensures
            final(self)@ == expr_named_call(old(self)@, env@, e@),
        decreases e, 3nat, 0nat,
    {
        match e {
            Expr::NamedCall { callee, args } => {
                proof {
                    named_facts(args@);
                }
                assert(callee@ == expr_view(**callee));
                match &**callee {
                    Expr::Ident(n) => {
                        match find_ir_fields(env, n.as_str()) {
                            Some(fields) => {
                                match find_missing_field(fields, args) {
                                    Some(f) => {
                                        let mut m = "missing field '".to_owned();
                                        m.append(f);
                                        m.append("' for struct '");
                                        m.append(n.as_str());
                                        m.append("'");
                                        self.fail(m.as_str());
                                    },
                                    None => {
                                        let slot = self.struct_open(env, n.as_str(), fields);
                                        assert(fields_view(fields@).len() == fields@.len());
                                        self.set_named(
                                            env,
                                            args,
                                            fields,
                                            fields.len(),
                                            slot.as_str(),
                                        );
                                        let r = self.vreg();
                                        self.p("  ");
                                        self.p(r.as_str());
                                        self.p(" = load i64, ptr ");
                                        self.p(slot.as_str());
                                        self.p("\n");
                                        self.give(r.as_str());
                                    },
                                }
                            },
                            None => {
                                let mut m = "no struct type named '".to_owned();
                                m.append(n.as_str());
                                m.append("'");
                                self.fail(m.as_str());
                            },
                        }
                    },
                    _ => {
                        self.fail("a constructor call must name a struct type");
                    },
                }
            },
            _ => {
            },
        }
    }

    pub fn gen_expr(&mut self, env: &IrEnv, e: &Expr)
        ensures
            final(self)@ == gen_expr(old(self)@, env@, e@),
        decreases e, 4nat, 0nat,
    {
        match e {
            Expr::Int(_) => {
                self.expr_int(env, e);
            },
            Expr::Float(_) => {
                self.expr_float(env, e);
            },
            Expr::Bool(_) => {
                self.expr_bool(env, e);
            },
            Expr::Nil => {
                self.expr_nil(env, e);
            },
            Expr::Str(_) => {
                self.expr_str(env, e);
            },
            Expr::FStr(_) => {
                self.expr_f_str(env, e);
            },
            Expr::Ident(_) => {
                self.expr_ident(env, e);
            },
            Expr::SelfExpr => {
                self.expr_self_expr(env, e);
            },
            Expr::Unary { .. } => {
                self.expr_unary(env, e);
            },
            Expr::Binary { .. } => {
                self.gen_binary(env, e);
            },
            Expr::IfElse { .. } => {
                self.expr_if_else(env, e);
            },
            Expr::List(_) => {
                self.expr_list(env, e);
            },
            Expr::MapLit(_) => {
                self.expr_map_lit(env, e);
            },
            Expr::Index { .. } => {
                self.expr_index(env, e);
            },
            Expr::Slice { .. } => {
                self.expr_slice(env, e);
            },
            Expr::Range { .. } => {
                self.expr_range(env, e);
            },
            Expr::Field { .. } => {
                self.expr_field(env, e);
            },
            Expr::Call { .. } => {
                self.gen_call(env, e);
            },
            Expr::Method { .. } => {
                self.gen_method(env, e);
            },
            Expr::Closure { .. } => {
                self.expr_closure(env, e);
            },
            Expr::Lambda { .. } => {
                self.expr_lambda(env, e);
            },
            Expr::NamedCall { .. } => {
                self.expr_named_call(env, e);
            },
            Expr::ListComp { .. } => {
                self.gen_comp(env, e);
            },
        }
    }

    pub fn set_named(
        &mut self,
        env: &IrEnv,
        s: &Vec<(String, Expr)>,
        fields: &Vec<Field>,
        k: usize,
        slot: &str,
    )
        requires
            k <= fields@.len(),
        ensures
            final(self)@ == set_named(
                old(self)@,
                env@,
                named_view(s@),
                fields_view(fields@),
                k as nat,
                slot@,
            ),
        decreases s, 9nat, 0nat,
    {
        let ghost g0 = self@;
        let ghost s0 = named_view(s@);
        let ghost fv = fields_view(fields@);
        for j in 0..k
            invariant
                k <= fields@.len(),
                s0 == named_view(s@),
                fv == fields_view(fields@),
                self@ == set_named(g0, env@, s0, fv, j as nat, slot@),
        {
            assert(fv[j as int] == fields@[j as int]@);
            proof {
                named_facts(s@);
            }
            let name = fields[j].name.as_str();
            if let Some(i) = find_named_arg(s, name) {
                assert(s0[i as int] == (s@[i as int].0@, s@[i as int].1@));
                self.gen_expr(env, &s[i].1);
                let v = self.val.clone();
                self.set_field(env, slot, name, v.as_str());
            }
        }
    }
}

} // verus!
