//! The x86-64 back end, statements.
//!
//! Loops keep variables that they both read and write in registers, where nothing else
//! can see the difference, and write them back when they end.

use crate::analysis::{
    accum_safe, allocates_nothing_block, assigns_block, is_accum_safe, is_assigned_block,
    is_used_block, is_used_expr, no_alloc_block, used_block, used_expr,
};
use crate::asmexpr::{cond_false, eval_raw, eval_raw_float, gen_expr};
use crate::asmstate::{Asm, Emitter, Env, FnEnv};
use crate::ast::{
    elifs_facts, elifs_view, expr_view, exprs_facts, exprs_view, opt_view, optblock_view,
    stmts_facts, stmts_view, Expr, ExprView, Stmt, StmtView,
};
use crate::text::{insert_sorted, sorted_insert, str_eq, texts_view};
use vstd::prelude::*;

verus! {

/// Whether the `i`-th parameter of a function that calls itself is unboxed.
pub open spec fn raw_param(env: FnEnv, i: int) -> bool {
    0 <= i < env.tail_params.len() && env.tail_params[i].1
}

fn is_raw_param(env: &Env, i: usize) -> (r: bool)
    ensures
        r == raw_param(env@, i as int),
{
    i < env.tail_params.len() && env.tail_params[i].1
}

/// Whether a return calls its own function and can jump to its start instead.
pub open spec fn is_tail_call(env: FnEnv, o: Option<ExprView>) -> bool {
    match o {
        Some(ExprView::Call { callee, args }) => env.tail_label is Some && *callee
            == ExprView::Ident(env.func) && args.len() == env.tail_params.len(),
        _ => false,
    }
}

fn tail_call(env: &Env, o: &Option<Expr>) -> (r: bool)
    ensures
        r == is_tail_call(env@, opt_view(*o)),
{
    match o {
        Some(Expr::Call { callee, args }) => {
            assert(callee@ == expr_view(**callee));
            proof {
                exprs_facts(args@);
            }
            env.tail_label.is_some() && args.len() == env.tail_params.len() && match &**callee {
                Expr::Ident(n) => str_eq(n.as_str(), env.func),
                _ => false,
            }
        },
        _ => false,
    }
}

pub open spec fn call_args(o: Option<ExprView>) -> Seq<ExprView> {
    match o {
        Some(ExprView::Call { callee, args }) => args,
        _ => Seq::empty(),
    }
}

fn get_call_args(o: &Option<Expr>) -> (r: &Vec<Expr>)
    requires
        o is Some,
        o->Some_0 is Call,
    ensures
        exprs_view(r@) == call_args(opt_view(*o)),
        o->Some_0->Call_args == *r,
{
    match o {
        Some(Expr::Call { args, .. }) => args,
        _ => vstd::pervasive::unreached(),
    }
}

impl Asm {
    /// Moves the first `k` temporaries into the parameters' slots.
    pub open spec fn move_slots_to(self, tmps: Seq<i64>, ps: Seq<(i64, bool)>, k: nat) -> Asm
        decreases k,
    {
        if k == 0 || k > tmps.len() || k > ps.len() {
            self
        } else {
            self.move_slots_to(tmps, ps, (k - 1) as nat).p("    mov rax, [rbp"@).n(
                tmps[k - 1] as int,
            ).p("]\n    mov [rbp"@).n(ps[k - 1].0 as int).p("], rax\n"@)
        }
    }

    pub open spec fn move_slots(self, tmps: Seq<i64>, ps: Seq<(i64, bool)>) -> Asm {
        self.move_slots_to(tmps, ps, tmps.len())
    }
}

/// The variable that a statement assigns, where a loop may hold it as a float.
pub open spec fn float_name(
    g: Asm,
    env: FnEnv,
    s: StmtView,
    body: Seq<StmtView>,
    skip: Option<Seq<char>>,
    cond: Option<ExprView>,
) -> Option<Seq<char>> {
    match s {
        StmtView::Assign { target: ExprView::Ident(v), .. } => if env.raw_float.contains(v)
            && !g.float_loc.contains_key(v) && skip != Some(v) && (cond is Some ==> !used_expr(
            cond->Some_0,
            v,
        )) && accum_safe(body, v, false) {
            Some(v)
        } else {
            None
        },
        _ => None,
    }
}

/// The variables among the first `k` statements that a loop holds as floats, in order.
pub open spec fn float_names(
    g: Asm,
    env: FnEnv,
    body: Seq<StmtView>,
    k: nat,
    skip: Option<Seq<char>>,
    cond: Option<ExprView>,
) -> Seq<Seq<char>>
    decreases k,
{
    if k == 0 || k > body.len() {
        Seq::empty()
    } else {
        let init = float_names(g, env, body, (k - 1) as nat, skip, cond);
        match float_name(g, env, body[k - 1], body, skip, cond) {
            Some(v) => sorted_insert(init, v),
            None => init,
        }
    }
}

pub open spec fn int_name(
    g: Asm,
    env: FnEnv,
    s: StmtView,
    body: Seq<StmtView>,
    skip: Seq<char>,
) -> Option<Seq<char>> {
    match s {
        StmtView::Assign { target: ExprView::Ident(v), .. } => if env.raw_int.contains(v)
            && !g.int_loc.contains_key(v) && skip != v && accum_safe(body, v, true) {
            Some(v)
        } else {
            None
        },
        _ => None,
    }
}

/// The variables among the first `k` statements that a loop holds as integers, in
/// order.
pub open spec fn int_names(
    g: Asm,
    env: FnEnv,
    body: Seq<StmtView>,
    k: nat,
    skip: Seq<char>,
) -> Seq<Seq<char>>
    decreases k,
{
    if k == 0 || k > body.len() {
        Seq::empty()
    } else {
        let init = int_names(g, env, body, (k - 1) as nat, skip);
        match int_name(g, env, body[k - 1], body, skip) {
            Some(v) => sorted_insert(init, v),
            None => init,
        }
    }
}

impl Emitter {
    pub fn move_slots(&mut self, tmps: &Vec<i64>, ps: &Vec<(i64, bool)>)
        requires
            tmps@.len() == ps@.len(),
        ensures
            final(self)@ == old(self)@.move_slots(tmps@, ps@),
    {
        let ghost s0 = self@;
        for i in 0..tmps.len()
            invariant
                tmps@.len() == ps@.len(),
                self@ == s0.move_slots_to(tmps@, ps@, i as nat),
        {
            self.p("    mov rax, [rbp");
            self.n(tmps[i]);
            self.p("]\n    mov [rbp");
            self.n(ps[i].0);
            self.p("], rax\n");
        }
    }

    fn find_float_names(
        &self,
        env: &Env,
        body: &Vec<Stmt>,
        skip: Option<&str>,
        cond: Option<&Expr>,
    ) -> (r: Vec<String>)
        ensures
            texts_view(r@) == float_names(
                self@,
                env@,
                stmts_view(body@),
                body@.len(),
                (match skip {
                    Some(s) => Some(s@),
                    None => None,
                }),
                (match cond {
                    Some(c) => Some(c@),
                    None => None,
                }),
            ),
    {
        let mut out: Vec<String> = Vec::new();
        let ghost bv = stmts_view(body@);
        let ghost sk = match skip {
            Some(s) => Some(s@),
            None => None,
        };
        let ghost cd = match cond {
            Some(c) => Some(c@),
            None => None,
        };
        assert(texts_view(out@) =~= Seq::empty());
        for i in 0..body.len()
            invariant
                bv == stmts_view(body@),
                sk == (match skip {
                    Some(s) => Some(s@),
                    None => None,
                }),
                cd == (match cond {
                    Some(c) => Some(c@),
                    None => None,
                }),
                texts_view(out@) == float_names(self@, env@, bv, i as nat, sk, cd),
        {
            proof {
                stmts_facts(body@);
            }
            assert(bv[i as int] == body@[i as int]@);
            if let Stmt::Assign { target: Expr::Ident(v), .. } = &body[i] {
                let n = v.as_str();
                let skipped = match skip {
                    Some(s) => str_eq(s, n),
                    None => false,
                };
                let tested = match cond {
                    Some(c) => is_used_expr(c, n),
                    None => false,
                };
                if env.raw_float.contains(n) && !self.float_loc.contains(n) && !skipped && !tested
                    && is_accum_safe(body, n, false) {
                    insert_sorted(&mut out, n);
                }
            }
        }
        out
    }

    fn find_int_names(&self, env: &Env, body: &Vec<Stmt>, skip: &str) -> (r: Vec<String>)
        ensures
            texts_view(r@) == int_names(self@, env@, stmts_view(body@), body@.len(), skip@),
    {
        let mut out: Vec<String> = Vec::new();
        let ghost bv = stmts_view(body@);
        assert(texts_view(out@) =~= Seq::empty());
        for i in 0..body.len()
            invariant
                bv == stmts_view(body@),
                texts_view(out@) == int_names(self@, env@, bv, i as nat, skip@),
        {
            proof {
                stmts_facts(body@);
            }
            assert(bv[i as int] == body@[i as int]@);
            if let Stmt::Assign { target: Expr::Ident(v), .. } = &body[i] {
                let n = v.as_str();
                if env.raw_int.contains(n) && !self.int_loc.contains(n) && !str_eq(skip, n)
                    && is_accum_safe(body, n, true) {
                    insert_sorted(&mut out, n);
                }
            }
        }
        out
    }
}

/// Evaluates the arguments of a tail call into temporaries.
pub open spec fn tail_slots(g: Asm, env: FnEnv, s: Seq<ExprView>, k: nat) -> (Asm, Seq<i64>)
    decreases s, 9nat, k,
{
    if k == 0 || k > s.len() {
        (g, Seq::empty())
    } else {
        let (g0, slots) = tail_slots(g, env, s, (k - 1) as nat);
        let i = k - 1;
        let e = s[i];
        let g1 = if raw_param(env, i as int) {
            let g2 = eval_raw(g0, env, e);
            g2
        } else {
            let g3 = gen_expr(g0, env, e);
            g3
        };
        let (g4, t) = g1.temp();
        let g5 = g4.p("    mov [rbp"@).n(t as int).p("], rax\n"@);
        (g5, slots.push(t))
    }
}

pub open spec fn store_float(g: Asm, env: FnEnv, name: Seq<char>, off: i64) -> Asm {
    let g1 = match g.float_loc_of(name) {
        Some(reg) => {
            let g2 = g.p("    movapd "@).p(reg).p(", xmm0\n"@);
            g2
        },
        None => {
            let g3 = g.p("    movsd [rbp"@).n(off as int).p("], xmm0\n"@);
            g3
        },
    };
    g1
}

pub open spec fn store_raw(g: Asm, env: FnEnv, name: Seq<char>, off: i64) -> Asm {
    let g1 = match g.int_loc_of(name) {
        Some(reg) => {
            let g2 = g.p("    mov "@).p(reg).p(", rax\n"@);
            g2
        },
        None => {
            let g3 = g.p("    mov [rbp"@).n(off as int).p("], rax\n"@);
            g3
        },
    };
    g1
}

/// The code of the first `k` statements.
pub open spec fn gen_stmts(g: Asm, env: FnEnv, s: Seq<StmtView>, k: nat) -> Asm
    decreases s, 0nat, k,
{
    if k == 0 || k > s.len() {
        g
    } else {
        let g0 = gen_stmts(g, env, s, (k - 1) as nat);
        let i = k - 1;
        let e = s[i];
        let g1 = gen_stmt(g0, env, e);
        g1
    }
}

pub open spec fn gen_elifs(
    g: Asm,
    env: FnEnv,
    s: Seq<(ExprView, Seq<StmtView>)>,
    k: nat,
    end: Seq<char>,
) -> Asm
    decreases s, 0nat, k,
{
    if k == 0 || k > s.len() {
        g
    } else {
        let g0 = gen_elifs(g, env, s, (k - 1) as nat, end);
        let i = k - 1;
        let (c, b) = s[i];
        let (g1, n2) = g0.new_label("ifnext"@);
        let g2 = cond_false(g1, env, c, n2);
        let g3 = gen_stmts(g2, env, b, b.len());
        let g4 = g3.p("    jmp "@).p(end).p("\n"@).p(n2).p(":\n"@);
        g4
    }
}

pub open spec fn stmt_let(g: Asm, env: FnEnv, e: StmtView) -> Asm
    decreases e, 2nat, 0nat,
{
    let g1 = match e {
        StmtView::Let { name, value, .. } => {
            let (g2, off) = g.slot(name);
            let g3 = if env.raw_int.contains(name) {
                let g4 = eval_raw(g2, env, value);
                let g5 = g4.p("    mov [rbp"@).n(off as int).p("], rax\n"@);
                g5
            } else {
                let g6 = if env.raw_float.contains(name) {
                    let g7 = eval_raw_float(g2, env, value);
                    let g8 = store_float(g7, env, name, off);
                    g8
                } else {
                    let g9 = gen_expr(g2, env, value);
                    let g10 = g9.p("    mov [rbp"@).n(off as int).p("], rax\n"@);
                    g10
                };
                g6
            };
            g3
        },
        _ => {
            g
        },
    };
    g1
}

pub open spec fn stmt_assign(g: Asm, env: FnEnv, e: StmtView) -> Asm
    decreases e, 2nat, 0nat,
{
    let g1 = match e {
        StmtView::Assign { target, value } => {
            let g2 = match target {
                ExprView::Ident(n) => {
                    let (g3, off) = g.slot(n);
                    let g4 = if env.raw_int.contains(n) {
                        let g5 = eval_raw(g3, env, value);
                        let g6 = store_raw(g5, env, n, off);
                        g6
                    } else {
                        let g7 = if env.raw_float.contains(n) {
                            let g8 = eval_raw_float(g3, env, value);
                            let g9 = store_float(g8, env, n, off);
                            g9
                        } else {
                            let g10 = gen_expr(g3, env, value);
                            let g11 = g10.p("    mov [rbp"@).n(off as int).p("], rax\n"@);
                            g11
                        };
                        g7
                    };
                    g4
                },
                ExprView::Field { obj, name } => {
                    let g12 = gen_expr(g, env, *obj);
                    let (g13, o) = g12.temp();
                    let g14 = g13.p("    mov [rbp"@).n(o as int).p("], rax\n"@);
                    let g15 = gen_expr(g14, env, value);
                    let (g16, v) = g15.temp();
                    let g17 = g16.p("    mov [rbp"@).n(v as int).p("], rax\n"@);
                    let (g18, lbl) = g17.add_string(name);
                    let g19 = g18.p("    mov rcx, [rbp"@).n(o as int).p("]\n"@);
                    let g20 = g19.p("    lea rdx, [rip + "@).p(lbl).p("]\n"@);
                    let g21 = g20.p("    mov r8, [rbp"@).n(v as int).p("]\n"@);
                    let g22 = g21.p("    call lumen_struct_set\n"@);
                    g22
                },
                ExprView::Index { obj, index } => {
                    let g23 = gen_expr(g, env, *obj);
                    let (g24, o) = g23.temp();
                    let g25 = g24.p("    mov [rbp"@).n(o as int).p("], rax\n"@);
                    let g26 = gen_expr(g25, env, *index);
                    let (g27, i) = g26.temp();
                    let g28 = g27.p("    mov [rbp"@).n(i as int).p("], rax\n"@);
                    let g29 = gen_expr(g28, env, value);
                    let (g30, v) = g29.temp();
                    let g31 = g30.p("    mov [rbp"@).n(v as int).p("], rax\n"@);
                    let g32 = g31.p("    mov rcx, [rbp"@).n(o as int).p("]\n"@);
                    let g33 = g32.p("    mov rdx, [rbp"@).n(i as int).p("]\n"@);
                    let g34 = g33.p("    mov r8, [rbp"@).n(v as int).p("]\n"@);
                    let g35 = g34.p("    call lumen_index_set\n"@);
                    g35
                },
                _ => {
                    let g36 = g.fail("native: invalid assignment target"@);
                    g36
                },
            };
            g2
        },
        _ => {
            g
        },
    };
    g1
}

pub open spec fn stmt_expr_stmt(g: Asm, env: FnEnv, e: StmtView) -> Asm
    decreases e, 2nat, 0nat,
{
    let g1 = match e {
        StmtView::ExprStmt(x) => {
            let g2 = gen_expr(g, env, x);
            g2
        },
        _ => {
            g
        },
    };
    g1
}

pub open spec fn stmt_return(g: Asm, env: FnEnv, e: StmtView) -> Asm
    decreases e, 2nat, 0nat,
{
    let g1 = match e {
        StmtView::Return(o) => {
            let g2 = if is_tail_call(env, o) {
                let args = call_args(o);
                let (g3, tmps) = tail_slots(g, env, args, args.len());
                let g4 = g3.move_slots(tmps, env.tail_params);
                let g5 = g4.gc_poll();
                let lbl = env.tail_label->Some_0;
                let g6 = g5.p("    jmp "@).p(lbl).p("\n"@);
                g6
            } else {
                let g7 = match o {
                    Some(x) => {
                        let g8 = if env.raw_return {
                            let g9 = eval_raw(g, env, x);
                            g9
                        } else {
                            let g10 = gen_expr(g, env, x);
                            g10
                        };
                        g8
                    },
                    None => {
                        let g11 = if env.raw_return {
                            let g12 = g.p("    xor eax, eax\n"@);
                            g12
                        } else {
                            let g13 = g.p("    call lumen_nil\n"@);
                            g13
                        };
                        g11
                    },
                };
                let g14 = g7.p("    mov rsp, rbp\n    pop rbp\n    ret\n"@);
                g14
            };
            g2
        },
        _ => {
            g
        },
    };
    g1
}

pub open spec fn stmt_if(g: Asm, env: FnEnv, e: StmtView) -> Asm
    decreases e, 2nat, 0nat,
{
    let g1 = match e {
        StmtView::If { cond, then, elifs, els } => {
            let (g2, end) = g.new_label("ifend"@);
            let (g3, next) = g2.new_label("ifnext"@);
            let g4 = cond_false(g3, env, cond, next);
            let g5 = gen_stmts(g4, env, then, then.len());
            let g6 = g5.p("    jmp "@).p(end).p("\n"@).p(next).p(":\n"@);
            let g7 = gen_elifs(g6, env, elifs, elifs.len(), end);
            let g8 = match els {
                Some(b) => {
                    let g9 = gen_stmts(g7, env, b, b.len());
                    g9
                },
                None => {
                    g7
                },
            };
            let g10 = g8.p(end).p(":\n"@);
            g10
        },
        _ => {
            g
        },
    };
    g1
}

pub open spec fn stmt_while(g: Asm, env: FnEnv, e: StmtView) -> Asm
    decreases e, 2nat, 0nat,
{
    let g1 = match e {
        StmtView::While { cond, body } => {
            let names = float_names(g, env, body, body.len(), None, Some(cond));
            let (g2, held) = g.hold_floats(names, names.len());
            let (g3, top) = g2.new_label("wtop"@);
            let (g4, end) = g3.new_label("wend"@);
            let g5 = g4.p(top).p(":\n"@);
            let g6 = cond_false(g5, env, cond, end);
            let g7 = if !no_alloc_block(body) {
                let g8 = g6.gc_poll();
                g8
            } else {
                g6
            };
            let g9 = g7.push_loop(top, end);
            let g10 = gen_stmts(g9, env, body, body.len());
            let g11 = g10.pop_loop();
            let g12 = g11.p("    jmp "@).p(top).p("\n"@).p(end).p(":\n"@);
            let g13 = g12.release_floats(held, held.len());
            g13
        },
        _ => {
            g
        },
    };
    g1
}

pub open spec fn stmt_for(g: Asm, env: FnEnv, e: StmtView) -> Asm
    decreases e, 2nat, 0nat,
{
    let g1 = match e {
        StmtView::For { var, iter, body } => {
            let g2 = match iter {
                ExprView::Range { lo, hi } => {
                    let (g3, fr) = g.range_regs();
                    let g4 = gen_expr(g3, env, *lo);
                    let g5 = g4.unbox_int();
                    let g6 = g5.set_counter(fr);
                    let g7 = gen_expr(g6, env, *hi);
                    let g8 = g7.unbox_int();
                    let g9 = g8.set_limit(fr);
                    let fnames = float_names(g9, env, body, body.len(), Some(var), None);
                    let inames = int_names(g9, env, body, body.len(), var);
                    let (g10, fo) = g9.range_open(
                        fr,
                        var,
                        env.raw_int.contains(var),
                        used_block(body, var),
                        assigns_block(body, var),
                        !no_alloc_block(body),
                        fnames,
                        inames,
                    );
                    let g11 = gen_stmts(g10, env, body, body.len());
                    let g12 = g11.range_close(fr, fo, var);
                    g12
                },
                _ => {
                    let g13 = gen_expr(g, env, iter);
                    let (g14, lo) = g13.list_open(var);
                    let g15 = gen_stmts(g14, env, body, body.len());
                    let g16 = g15.list_close(lo);
                    g16
                },
            };
            g2
        },
        _ => {
            g
        },
    };
    g1
}

pub open spec fn stmt_break(g: Asm, env: FnEnv, e: StmtView) -> Asm
    decreases e, 2nat, 0nat,
{
    let g1 = match e {
        StmtView::Break => {
            let g2 = if g.loops.len() > 0 {
                let l = g.loops.last().1;
                let g3 = g.p("    jmp "@).p(l).p("\n"@);
                g3
            } else {
                let g4 = g.fail("break outside loop"@);
                g4
            };
            g2
        },
        _ => {
            g
        },
    };
    g1
}

pub open spec fn stmt_continue(g: Asm, env: FnEnv, e: StmtView) -> Asm
    decreases e, 2nat, 0nat,
{
    let g1 = match e {
        StmtView::Continue => {
            let g2 = if g.loops.len() > 0 {
                let l = g.loops.last().0;
                let g3 = g.p("    jmp "@).p(l).p("\n"@);
                g3
            } else {
                let g4 = g.fail("continue outside loop"@);
                g4
            };
            g2
        },
        _ => {
            g
        },
    };
    g1
}

pub open spec fn stmt_raise(g: Asm, env: FnEnv, e: StmtView) -> Asm
    decreases e, 2nat, 0nat,
{
    let g1 = match e {
        StmtView::Raise(x) => {
            let g2 = gen_expr(g, env, x);
            let g3 = g2.p("    mov rcx, rax\n    call lumen_to_str\n"@);
            let g4 = g3.p("    mov rcx, rax\n    call lumen_raise\n"@);
            g4
        },
        _ => {
            g
        },
    };
    g1
}

pub open spec fn stmt_try(g: Asm, env: FnEnv, e: StmtView) -> Asm
    decreases e, 2nat, 0nat,
{
    let g1 = match e {
        StmtView::Try { body, catch_var, catch_body } => {
            let (g2, catch_lbl) = g.new_label("catch"@);
            let (g3, end_lbl) = g2.new_label("tryend"@);
            let g4 = g3.p("    call lumen_try_push\n"@);
            let g5 = g4.p("    mov rcx, rax\n"@);
            let g6 = g5.p("    call lumen_setjmp\n"@);
            let g7 = g6.p("    test eax, eax\n"@);
            let g8 = g7.p("    jnz "@).p(catch_lbl).p("\n"@);
            let g9 = gen_stmts(g8, env, body, body.len());
            let g10 = g9.p("    call lumen_try_pop\n"@);
            let g11 = g10.p("    jmp "@).p(end_lbl).p("\n"@);
            let g12 = g11.p(catch_lbl).p(":\n"@);
            let (g13, off) = g12.slot(catch_var);
            let g14 = g13.p("    call lumen_caught_msg\n"@);
            let g15 = g14.p("    mov [rbp"@).n(off as int).p("], rax\n"@);
            let g16 = gen_stmts(g15, env, catch_body, catch_body.len());
            let g17 = g16.p(end_lbl).p(":\n"@);
            g17
        },
        _ => {
            g
        },
    };
    g1
}

pub open spec fn stmt_src_line(g: Asm, env: FnEnv, e: StmtView) -> Asm
    decreases e, 2nat, 0nat,
{
    let g1 = match e {
        StmtView::SrcLine(n) => {
            let g2 = g.set_line(n);
            let g3 = g2.p("    mov dword ptr [rip + lumen_current_line], "@).u(n as nat).p("\n"@);
            g3
        },
        _ => {
            g
        },
    };
    g1
}

/// The code of a statement.
pub open spec fn gen_stmt(g: Asm, env: FnEnv, e: StmtView) -> Asm
    decreases e, 3nat, 0nat,
{
    let g1 = match e {
        StmtView::Let { .. } => {
            let g2 = stmt_let(g, env, e);
            g2
        },
        StmtView::Assign { .. } => {
            let g3 = stmt_assign(g, env, e);
            g3
        },
        StmtView::ExprStmt(_) => {
            let g4 = stmt_expr_stmt(g, env, e);
            g4
        },
        StmtView::Return(_) => {
            let g5 = stmt_return(g, env, e);
            g5
        },
        StmtView::If { .. } => {
            let g6 = stmt_if(g, env, e);
            g6
        },
        StmtView::While { .. } => {
            let g7 = stmt_while(g, env, e);
            g7
        },
        StmtView::For { .. } => {
            let g8 = stmt_for(g, env, e);
            g8
        },
        StmtView::Break => {
            let g9 = stmt_break(g, env, e);
            g9
        },
        StmtView::Continue => {
            let g10 = stmt_continue(g, env, e);
            g10
        },
        StmtView::Raise(_) => {
            let g11 = stmt_raise(g, env, e);
            g11
        },
        StmtView::Try { .. } => {
            let g12 = stmt_try(g, env, e);
            g12
        },
        StmtView::SrcLine(_) => {
            let g13 = stmt_src_line(g, env, e);
            g13
        },
    };
    g1
}

impl Emitter {
    pub fn tail_slots(&mut self, env: &Env, s: &Vec<Expr>, k: usize) -> (r: Vec<i64>)
        requires
            k <= s@.len(),
        ensures
            (final(self)@, r@) == tail_slots(old(self)@, env@, exprs_view(s@), k as nat),
            r@.len() == k,
        decreases s, 9nat, 0nat,
    {
        let mut slots: Vec<i64> = Vec::new();
        let ghost s0 = exprs_view(s@);
        let ghost g0 = self@;
        for i in 0..k
            invariant
                k <= s@.len(),
                s0 == exprs_view(s@),
                (self@, slots@) == tail_slots(g0, env@, s0, i as nat),
                slots@.len() == i,
        {
            proof {
                exprs_facts(s@);
            }
            assert(s0[i as int] == s@[i as int]@);
            let e: &Expr = &s[i];
            if is_raw_param(env, i) {
                self.eval_raw(env, e);
            } else {
                self.gen_expr(env, e);
            }
            let t: i64 = self.temp();
            self.p("    mov [rbp");
            self.n(t as i64);
            self.p("], rax\n");
            slots.push(t);
        }
        slots
    }

    pub fn store_float(&mut self, env: &Env, name: &str, off: i64)
        ensures
            final(self)@ == store_float(old(self)@, env@, name@, off),
    {
        match self.float_loc_of(name) {
            Some(reg) => {
                self.p("    movapd ");
                self.p(reg.as_str());
                self.p(", xmm0\n");
            },
            None => {
                self.p("    movsd [rbp");
                self.n(off as i64);
                self.p("], xmm0\n");
            },
        }
    }

    pub fn store_raw(&mut self, env: &Env, name: &str, off: i64)
        ensures
            final(self)@ == store_raw(old(self)@, env@, name@, off),
    {
        match self.int_loc_of(name) {
            Some(reg) => {
                self.p("    mov ");
                self.p(reg.as_str());
                self.p(", rax\n");
            },
            None => {
                self.p("    mov [rbp");
                self.n(off as i64);
                self.p("], rax\n");
            },
        }
    }

    pub fn gen_stmts(&mut self, env: &Env, s: &Vec<Stmt>, k: usize)
        requires
            k <= s@.len(),
        ensures
            final(self)@ == gen_stmts(old(self)@, env@, stmts_view(s@), k as nat),
        decreases s, 0nat, 0nat,
    {
        let ghost s0 = stmts_view(s@);
        let ghost g0 = self@;
        for i in 0..k
            invariant
                k <= s@.len(),
                s0 == stmts_view(s@),
                self@ == gen_stmts(g0, env@, s0, i as nat),
        {
            proof {
                stmts_facts(s@);
            }
            assert(s0[i as int] == s@[i as int]@);
            let e: &Stmt = &s[i];
            self.gen_stmt(env, e);
        }
    }

    pub fn gen_elifs(&mut self, env: &Env, s: &Vec<(Expr, Vec<Stmt>)>, k: usize, end: &str)
        requires
            k <= s@.len(),
        ensures
            final(self)@ == gen_elifs(old(self)@, env@, elifs_view(s@), k as nat, end@),
        decreases s, 0nat, 0nat,
    {
        let ghost s0 = elifs_view(s@);
        let ghost g0 = self@;
        for i in 0..k
            invariant
                k <= s@.len(),
                s0 == elifs_view(s@),
                self@ == gen_elifs(g0, env@, s0, i as nat, end@),
        {
            proof {
                elifs_facts(s@);
            }
            assert(s0[i as int] == (s@[i as int].0@, stmts_view(s@[i as int].1@)));
            let c: &Expr = &s[i].0;
            let b: &Vec<Stmt> = &s[i].1;
            let n2 = self.new_label("ifnext");
            self.cond_false(env, c, n2.as_str());
            self.gen_stmts(env, b, b.len());
            self.p("    jmp ");
            self.p(end);
            self.p("\n");
            self.p(n2.as_str());
            self.p(":\n");
        }
    }

    pub fn stmt_let(&mut self, env: &Env, e: &Stmt)
        ensures
            final(self)@ == stmt_let(old(self)@, env@, e@),
        decreases e, 2nat, 0nat,
    {
        match e {
            Stmt::Let { name, value, .. } => {
                let off: i64 = self.slot(name.as_str());
                if env.raw_int.contains(name.as_str()) {
                    self.eval_raw(env, value);
                    self.p("    mov [rbp");
                    self.n(off as i64);
                    self.p("], rax\n");
                } else {
                    if env.raw_float.contains(name.as_str()) {
                        self.eval_raw_float(env, value);
                        self.store_float(env, name.as_str(), off);
                    } else {
                        self.gen_expr(env, value);
                        self.p("    mov [rbp");
                        self.n(off as i64);
                        self.p("], rax\n");
                    }
                }
            },
            _ => {
            },
        }
    }

    pub fn stmt_assign(&mut self, env: &Env, e: &Stmt)
        ensures
            final(self)@ == stmt_assign(old(self)@, env@, e@),
        decreases e, 2nat, 0nat,
    {
        match e {
            Stmt::Assign { target, value } => {
                match target {
                    Expr::Ident(n) => {
                        let off: i64 = self.slot(n.as_str());
                        if env.raw_int.contains(n.as_str()) {
                            self.eval_raw(env, value);
                            self.store_raw(env, n.as_str(), off);
                        } else {
                            if env.raw_float.contains(n.as_str()) {
                                self.eval_raw_float(env, value);
                                self.store_float(env, n.as_str(), off);
                            } else {
                                self.gen_expr(env, value);
                                self.p("    mov [rbp");
                                self.n(off as i64);
                                self.p("], rax\n");
                            }
                        }
                    },
                    Expr::Field { obj, name } => {
                        self.gen_expr(env, obj);
                        let o: i64 = self.temp();
                        self.p("    mov [rbp");
                        self.n(o as i64);
                        self.p("], rax\n");
                        self.gen_expr(env, value);
                        let v: i64 = self.temp();
                        self.p("    mov [rbp");
                        self.n(v as i64);
                        self.p("], rax\n");
                        let lbl = self.add_string(name.as_str());
                        self.p("    mov rcx, [rbp");
                        self.n(o as i64);
                        self.p("]\n");
                        self.p("    lea rdx, [rip + ");
                        self.p(lbl.as_str());
                        self.p("]\n");
                        self.p("    mov r8, [rbp");
                        self.n(v as i64);
                        self.p("]\n");
                        self.p("    call lumen_struct_set\n");
                    },
                    Expr::Index { obj, index } => {
                        self.gen_expr(env, obj);
                        let o: i64 = self.temp();
                        self.p("    mov [rbp");
                        self.n(o as i64);
                        self.p("], rax\n");
                        self.gen_expr(env, index);
                        let i: i64 = self.temp();
                        self.p("    mov [rbp");
                        self.n(i as i64);
                        self.p("], rax\n");
                        self.gen_expr(env, value);
                        let v: i64 = self.temp();
                        self.p("    mov [rbp");
                        self.n(v as i64);
                        self.p("], rax\n");
                        self.p("    mov rcx, [rbp");
                        self.n(o as i64);
                        self.p("]\n");
                        self.p("    mov rdx, [rbp");
                        self.n(i as i64);
                        self.p("]\n");
                        self.p("    mov r8, [rbp");
                        self.n(v as i64);
                        self.p("]\n");
                        self.p("    call lumen_index_set\n");
                    },
                    _ => {
                        self.fail("native: invalid assignment target");
                    },
                }
            },
            _ => {
            },
        }
    }

    pub fn stmt_expr_stmt(&mut self, env: &Env, e: &Stmt)
        ensures
            final(self)@ == stmt_expr_stmt(old(self)@, env@, e@),
        decreases e, 2nat, 0nat,
    {
        match e {
            Stmt::ExprStmt(x) => {
                self.gen_expr(env, x);
            },
            _ => {
            },
        }
    }

    pub fn stmt_return(&mut self, env: &Env, e: &Stmt)
        ensures
            final(self)@ == stmt_return(old(self)@, env@, e@),
        decreases e, 2nat, 0nat,
    {
        match e {
            Stmt::Return(o) => {
                if tail_call(env, o) {
                    let args = get_call_args(o);
                    proof { exprs_facts(args@); }
                    let tmps = self.tail_slots(env, &args, args.len());
                    self.move_slots(&tmps, &env.tail_params);
                    self.gc_poll();
                    let lbl = env.tail_label.as_ref().unwrap().as_str();
                    self.p("    jmp ");
                    self.p(lbl);
                    self.p("\n");
                } else {
                    assert(opt_view(*o) is Some == o is Some);
                    match o {
                        Some(x) => {
                            if env.raw_return {
                                self.eval_raw(env, x);
                            } else {
                                self.gen_expr(env, x);
                            }
                        },
                        None => {
                            if env.raw_return {
                                self.p("    xor eax, eax\n");
                            } else {
                                self.p("    call lumen_nil\n");
                            }
                        },
                    }
                    self.p("    mov rsp, rbp\n    pop rbp\n    ret\n");
                }
            },
            _ => {
            },
        }
    }

    pub fn stmt_if(&mut self, env: &Env, e: &Stmt)
        ensures
            final(self)@ == stmt_if(old(self)@, env@, e@),
        decreases e, 2nat, 0nat,
    {
        match e {
            Stmt::If { cond, then, elifs, els } => {
                proof {
                    stmts_facts(then@);
                    elifs_facts(elifs@);
                }
                let end = self.new_label("ifend");
                let next = self.new_label("ifnext");
                self.cond_false(env, cond, next.as_str());
                self.gen_stmts(env, then, then.len());
                self.p("    jmp ");
                self.p(end.as_str());
                self.p("\n");
                self.p(next.as_str());
                self.p(":\n");
                self.gen_elifs(env, elifs, elifs.len(), end.as_str());
                assert(optblock_view(*els) is Some == els is Some);
                match els {
                    Some(b) => {
                        proof {
                            stmts_facts(b@);
                        }
                        self.gen_stmts(env, b, b.len());
                    },
                    None => {
                    },
                }
                self.p(end.as_str());
                self.p(":\n");
            },
            _ => {
            },
        }
    }

    pub fn stmt_while(&mut self, env: &Env, e: &Stmt)
        ensures
            final(self)@ == stmt_while(old(self)@, env@, e@),
        decreases e, 2nat, 0nat,
    {
        match e {
            Stmt::While { cond, body } => {
                proof {
                    stmts_facts(body@);
                }
                let names = self.find_float_names(env, body, None, Some(cond));
                let held = self.hold_floats(&names);
                let top = self.new_label("wtop");
                let end = self.new_label("wend");
                self.p(top.as_str());
                self.p(":\n");
                self.cond_false(env, cond, end.as_str());
                if !allocates_nothing_block(body) {
                    self.gc_poll();
                }
                self.push_loop(top.as_str(), end.as_str());
                self.gen_stmts(env, body, body.len());
                self.pop_loop();
                self.p("    jmp ");
                self.p(top.as_str());
                self.p("\n");
                self.p(end.as_str());
                self.p(":\n");
                self.release_floats(&held);
            },
            _ => {
            },
        }
    }

    pub fn stmt_for(&mut self, env: &Env, e: &Stmt)
        ensures
            final(self)@ == stmt_for(old(self)@, env@, e@),
        decreases e, 2nat, 0nat,
    {
        match e {
            Stmt::For { var, iter, body } => {
                proof {
                    stmts_facts(body@);
                }
                match iter {
                    Expr::Range { lo, hi } => {
                        let fr = self.range_regs();
                        self.gen_expr(env, lo);
                        self.unbox_int();
                        self.set_counter(&fr);
                        self.gen_expr(env, hi);
                        self.unbox_int();
                        self.set_limit(&fr);
                        let fnames = self.find_float_names(env, body, Some(var.as_str()), None);
                        let inames = self.find_int_names(env, body, var.as_str());
                        let fo = self.range_open(
                            &fr,
                            var.as_str(),
                            env.raw_int.contains(var.as_str()),
                            is_used_block(body, var.as_str()),
                            is_assigned_block(body, var.as_str()),
                            !allocates_nothing_block(body),
                            &fnames,
                            &inames,
                        );
                        self.gen_stmts(env, body, body.len());
                        self.range_close(&fr, &fo, var.as_str());
                    },
                    _ => {
                        self.gen_expr(env, iter);
                        let lo = self.list_open(var.as_str());
                        self.gen_stmts(env, body, body.len());
                        self.list_close(&lo);
                    },
                }
            },
            _ => {
            },
        }
    }

    pub fn stmt_break(&mut self, env: &Env, e: &Stmt)
        ensures
            final(self)@ == stmt_break(old(self)@, env@, e@),
        decreases e, 2nat, 0nat,
    {
        match e {
            Stmt::Break => {
                if self.loops.len() > 0 {
                    let l = self.loops[self.loops.len() - 1].1.clone();
                    self.p("    jmp ");
                    self.p(l.as_str());
                    self.p("\n");
                } else {
                    self.fail("break outside loop");
                }
            },
            _ => {
            },
        }
    }

    pub fn stmt_continue(&mut self, env: &Env, e: &Stmt)
        ensures
            final(self)@ == stmt_continue(old(self)@, env@, e@),
        decreases e, 2nat, 0nat,
    {
        match e {
            Stmt::Continue => {
                if self.loops.len() > 0 {
                    let l = self.loops[self.loops.len() - 1].0.clone();
                    self.p("    jmp ");
                    self.p(l.as_str());
                    self.p("\n");
                } else {
                    self.fail("continue outside loop");
                }
            },
            _ => {
            },
        }
    }

    pub fn stmt_raise(&mut self, env: &Env, e: &Stmt)
        ensures
            final(self)@ == stmt_raise(old(self)@, env@, e@),
        decreases e, 2nat, 0nat,
    {
        match e {
            Stmt::Raise(x) => {
                self.gen_expr(env, x);
                self.p("    mov rcx, rax\n    call lumen_to_str\n");
                self.p("    mov rcx, rax\n    call lumen_raise\n");
            },
            _ => {
            },
        }
    }

    pub fn stmt_try(&mut self, env: &Env, e: &Stmt)
        ensures
            final(self)@ == stmt_try(old(self)@, env@, e@),
        decreases e, 2nat, 0nat,
    {
        match e {
            Stmt::Try { body, catch_var, catch_body } => {
                proof {
                    stmts_facts(body@);
                    stmts_facts(catch_body@);
                }
                let catch_lbl = self.new_label("catch");
                let end_lbl = self.new_label("tryend");
                self.p("    call lumen_try_push\n");
                self.p("    mov rcx, rax\n");
                self.p("    call lumen_setjmp\n");
                self.p("    test eax, eax\n");
                self.p("    jnz ");
                self.p(catch_lbl.as_str());
                self.p("\n");
                self.gen_stmts(env, body, body.len());
                self.p("    call lumen_try_pop\n");
                self.p("    jmp ");
                self.p(end_lbl.as_str());
                self.p("\n");
                self.p(catch_lbl.as_str());
                self.p(":\n");
                let off: i64 = self.slot(catch_var.as_str());
                self.p("    call lumen_caught_msg\n");
                self.p("    mov [rbp");
                self.n(off as i64);
                self.p("], rax\n");
                self.gen_stmts(env, catch_body, catch_body.len());
                self.p(end_lbl.as_str());
                self.p(":\n");
            },
            _ => {
            },
        }
    }

    pub fn stmt_src_line(&mut self, env: &Env, e: &Stmt)
        ensures
            final(self)@ == stmt_src_line(old(self)@, env@, e@),
        decreases e, 2nat, 0nat,
    {
        match e {
            Stmt::SrcLine(n) => {
                self.set_line(*n);
                self.p("    mov dword ptr [rip + lumen_current_line], ");
                self.u(*n as u64);
                self.p("\n");
            },
            _ => {
            },
        }
    }

    pub fn gen_stmt(&mut self, env: &Env, e: &Stmt)
        ensures
            final(self)@ == gen_stmt(old(self)@, env@, e@),
        decreases e, 3nat, 0nat,
    {
        match e {
            Stmt::Let { .. } => {
                self.stmt_let(env, e);
            },
            Stmt::Assign { .. } => {
                self.stmt_assign(env, e);
            },
            Stmt::ExprStmt(_) => {
                self.stmt_expr_stmt(env, e);
            },
            Stmt::Return(_) => {
                self.stmt_return(env, e);
            },
            Stmt::If { .. } => {
                self.stmt_if(env, e);
            },
            Stmt::While { .. } => {
                self.stmt_while(env, e);
            },
            Stmt::For { .. } => {
                self.stmt_for(env, e);
            },
            Stmt::Break => {
                self.stmt_break(env, e);
            },
            Stmt::Continue => {
                self.stmt_continue(env, e);
            },
            Stmt::Raise(_) => {
                self.stmt_raise(env, e);
            },
            Stmt::Try { .. } => {
                self.stmt_try(env, e);
            },
            Stmt::SrcLine(_) => {
                self.stmt_src_line(env, e);
            },
        }
    }
}

} // verus!
