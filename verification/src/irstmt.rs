//! The LLVM back end, statements.
//!
//! Every value is a 64-bit word, boxed as in the x86-64 back end, and lives in a slot.
//! Expressions that are known to be integers or floats are computed unboxed, except in
//! a function with a `try`.

use crate::ast::{
    elifs_facts, elifs_view, expr_view, opt_view, optblock_view, stmts_facts, stmts_view, Expr,
    ExprView, Stmt, StmtView,
};
use crate::irexpr::{gc_poll, gen_expr, gen_truthy, list_begin, loop_step, nil_value, range_begin};
use crate::irstate::{may_alloc, stmts_alloc, Ir, IrEmitter, IrEnv, IrEnvView};
use vstd::prelude::*;

verus! {

/// The first `k` statements of a block, up to one that ends it.
pub open spec fn gen_stmts(g: Ir, env: IrEnvView, s: Seq<StmtView>, k: nat) -> Ir
    decreases s, 0nat, k,
{
    if k == 0 || k > s.len() {
        g
    } else {
        let g0 = gen_stmts(g, env, s, (k - 1) as nat);
        let i = k - 1;
        let e = s[i];
        let g1 = if !g0.term {
            let g2 = gen_stmt(g0, env, e);
            g2
        } else {
            g0
        };
        g1
    }
}

pub open spec fn gen_elifs(
    g: Ir,
    env: IrEnvView,
    s: Seq<(ExprView, Seq<StmtView>)>,
    k: nat,
    end: Seq<char>,
) -> Ir
    decreases s, 0nat, k,
{
    if k == 0 || k > s.len() {
        g
    } else {
        let g0 = gen_elifs(g, env, s, (k - 1) as nat, end);
        let i = k - 1;
        let (c, b) = s[i];
        let (g1, thenl) = g0.label("then"@);
        let (g2, nextl) = g1.label("next"@);
        let g3 = gen_truthy(g2, env, c);
        let cv = g3.val;
        let g4 = g3.p("  br i1 "@).p(cv).p(", label %"@).p(thenl).p(", label %"@).p(nextl).p("\n"@);
        let g5 = g4.p(thenl).p(":\n"@);
        let g6 = g5.set_term(false);
        let g7 = gen_stmts(g6, env, b, b.len());
        let g8 = if !g7.term {
            let g9 = g7.p("  br label %"@).p(end).p("\n"@);
            g9
        } else {
            g7
        };
        let g10 = g8.p(nextl).p(":\n"@);
        g10
    }
}

/// Stores a value in a variable, an element or a field.
pub open spec fn assign_to(g: Ir, env: IrEnvView, e: ExprView, v: Seq<char>) -> Ir {
    let g1 = match e {
        ExprView::Ident(n) => {
            let (g2, slot) = g.slot(n);
            let g3 = g2.p("  store i64 "@).p(v).p(", ptr "@).p(slot).p("\n"@);
            g3
        },
        ExprView::Index { obj, index } => {
            let g4 = g.need("lumen_index_set"@, "void @lumen_index_set(i64, i64, i64)"@);
            let g5 = gen_expr(g4, env, *obj);
            let o = g5.val;
            let g6 = gen_expr(g5, env, *index);
            let k = g6.val;
            let g7 = g6.p("  call void @lumen_index_set(i64 "@).p(o).p(", i64 "@).p(k)
                .p(", i64 "@).p(v).p(")\n"@);
            g7
        },
        ExprView::Field { obj, name } => {
            let g8 = g.need("lumen_struct_set"@, "void @lumen_struct_set(i64, ptr, i64)"@);
            let g9 = gen_expr(g8, env, *obj);
            let o = g9.val;
            let (g10, nm) = g9.add_str(name);
            let (g11, p) = g10.vreg();
            let g12 = g11.p("  "@).p(p).p(" = "@).p(nm).p("\n"@);
            let g13 = g12.p("  call void @lumen_struct_set(i64 "@).p(o).p(", ptr "@).p(p)
                .p(", i64 "@).p(v).p(")\n"@);
            g13
        },
        _ => {
            let g14 = g.fail("invalid assignment target"@);
            g14
        },
    };
    g1
}

pub open spec fn stmt_src_line(g: Ir, env: IrEnvView, e: StmtView) -> Ir
    decreases e, 2nat, 0nat,
{
    let g1 = match e {
        StmtView::SrcLine(n) => {
            let g2 = if env.has_try {
                let g3 = g.need("lumen_set_line"@, "void @lumen_set_line(i32)"@);
                let g4 = g3.p("  call void @lumen_set_line(i32 "@).u(n as nat).p(")\n"@);
                g4
            } else {
                let g5 = g.need_line(
                    "@lumen_current_line"@,
                    "@lumen_current_line = external global i32"@,
                );
                let g6 = g5.p("  store i32 "@).u(n as nat).p(", ptr @lumen_current_line\n"@);
                g6
            };
            g2
        },
        _ => {
            g
        },
    };
    g1
}

pub open spec fn stmt_let(g: Ir, env: IrEnvView, e: StmtView) -> Ir
    decreases e, 2nat, 0nat,
{
    let g1 = match e {
        StmtView::Let { name, value, .. } => {
            let g2 = gen_expr(g, env, value);
            let v = g2.val;
            let (g3, slot) = g2.slot(name);
            let g4 = g3.p("  store i64 "@).p(v).p(", ptr "@).p(slot).p("\n"@);
            g4
        },
        _ => {
            g
        },
    };
    g1
}

pub open spec fn stmt_assign(g: Ir, env: IrEnvView, e: StmtView) -> Ir
    decreases e, 2nat, 0nat,
{
    let g1 = match e {
        StmtView::Assign { target, value } => {
            let g2 = gen_expr(g, env, value);
            let v = g2.val;
            let g3 = assign_to(g2, env, target, v);
            g3
        },
        _ => {
            g
        },
    };
    g1
}

pub open spec fn stmt_expr_stmt(g: Ir, env: IrEnvView, e: StmtView) -> Ir
    decreases e, 2nat, 0nat,
{
    let g1 = match e {
        StmtView::ExprStmt(x) => {
            let g2 = gen_expr(g, env, x);
            g2
        },
        _ => {
            g
        },
    };
    g1
}

pub open spec fn stmt_return(g: Ir, env: IrEnvView, e: StmtView) -> Ir
    decreases e, 2nat, 0nat,
{
    let g1 = match e {
        StmtView::Return(o) => {
            let g2 = match o {
                Some(x) => {
                    let g3 = gen_expr(g, env, x);
                    g3
                },
                None => {
                    let g4 = g.need("lumen_nil"@, "i64 @lumen_nil()"@);
                    let g5 = nil_value(g4, env);
                    g5
                },
            };
            let v = g2.val;
            let g6 = g2.p("  ret i64 "@).p(v).p("\n"@);
            let g7 = g6.set_term(true);
            g7
        },
        _ => {
            g
        },
    };
    g1
}

pub open spec fn stmt_if(g: Ir, env: IrEnvView, e: StmtView) -> Ir
    decreases e, 2nat, 0nat,
{
    let g1 = match e {
        StmtView::If { cond, then, elifs, els } => {
            let (g2, end) = g.label("ifend"@);
            let (g3, thenl) = g2.label("then"@);
            let (g4, nextl) = g3.label("next"@);
            let g5 = gen_truthy(g4, env, cond);
            let cv = g5.val;
            let g6 = g5.p("  br i1 "@).p(cv).p(", label %"@).p(thenl).p(", label %"@).p(nextl)
                .p("\n"@);
            let g7 = g6.p(thenl).p(":\n"@);
            let g8 = g7.set_term(false);
            let g9 = gen_stmts(g8, env, then, then.len());
            let g10 = if !g9.term {
                let g11 = g9.p("  br label %"@).p(end).p("\n"@);
                g11
            } else {
                g9
            };
            let g12 = g10.p(nextl).p(":\n"@);
            let g13 = gen_elifs(g12, env, elifs, elifs.len(), end);
            let g14 = match els {
                Some(b) => {
                    let g15 = g13.set_term(false);
                    let g16 = gen_stmts(g15, env, b, b.len());
                    let g17 = if !g16.term {
                        let g18 = g16.p("  br label %"@).p(end).p("\n"@);
                        g18
                    } else {
                        g16
                    };
                    g17
                },
                None => {
                    let g19 = g13.p("  br label %"@).p(end).p("\n"@);
                    g19
                },
            };
            let g20 = g14.p(end).p(":\n"@);
            let g21 = g20.set_term(false);
            g21
        },
        _ => {
            g
        },
    };
    g1
}

pub open spec fn stmt_while(g: Ir, env: IrEnvView, e: StmtView) -> Ir
    decreases e, 2nat, 0nat,
{
    let g1 = match e {
        StmtView::While { cond, body } => {
            let (g2, top) = g.label("wtop"@);
            let (g3, bodyl) = g2.label("wbody"@);
            let (g4, end) = g3.label("wend"@);
            let g5 = g4.p("  br label %"@).p(top).p("\n"@);
            let g6 = g5.p(top).p(":\n"@);
            let g7 = gen_truthy(g6, env, cond);
            let c = g7.val;
            let g8 = g7.p("  br i1 "@).p(c).p(", label %"@).p(bodyl).p(", label %"@).p(end)
                .p("\n"@);
            let g9 = g8.p(bodyl).p(":\n"@);
            let g10 = g9.push_loop(top, end);
            let g11 = g10.set_term(false);
            let g12 = gen_stmts(g11, env, body, body.len());
            let g13 = g12.pop_loop();
            let g14 = if !g13.term {
                let g15 = g13.p("  br label %"@).p(top).p("\n"@);
                g15
            } else {
                g13
            };
            let g16 = g14.p(end).p(":\n"@);
            let g17 = g16.set_term(false);
            g17
        },
        _ => {
            g
        },
    };
    g1
}

pub open spec fn stmt_for(g: Ir, env: IrEnvView, e: StmtView) -> Ir
    decreases e, 2nat, 0nat,
{
    let g1 = match e {
        StmtView::For { var, iter, body } => {
            let g2 = match iter {
                ExprView::Range { lo, hi } => {
                    let g3 = g.need("lumen_to_int"@, "i64 @lumen_to_int(i64)"@);
                    let g4 = g3.need("lumen_from_int"@, "i64 @lumen_from_int(i64)"@);
                    let g5 = gen_expr(g4, env, *lo);
                    let lov = g5.val;
                    let g6 = gen_expr(g5, env, *hi);
                    let hiv = g6.val;
                    let (g7, lp) = range_begin(g6, env, var, lov, hiv);
                    let g8 = if stmts_alloc(env, body) {
                        let g9 = gc_poll(g7, env);
                        g9
                    } else {
                        g7
                    };
                    let cont = lp.cont;
                    let end = lp.end;
                    let g10 = g8.push_loop(cont, end);
                    let g11 = g10.set_term(false);
                    let g12 = gen_stmts(g11, env, body, body.len());
                    let g13 = g12.pop_loop();
                    let g14 = if !g13.term {
                        let g15 = g13.p("  br label %"@).p(cont).p("\n"@);
                        g15
                    } else {
                        g13
                    };
                    let g16 = loop_step(g14, env, lp);
                    let g17 = g16.set_term(false);
                    g17
                },
                _ => {
                    let g18 = g.need("lumen_iter_prep"@, "i64 @lumen_iter_prep(i64)"@);
                    let g19 = g18.need("lumen_len"@, "i64 @lumen_len(i64)"@);
                    let g20 = g19.need("lumen_list_get"@, "i64 @lumen_list_get(i64, i64)"@);
                    let g21 = gen_expr(g20, env, iter);
                    let it = g21.val;
                    let (g22, lp) = list_begin(g21, env, var, it);
                    let g23 = if stmts_alloc(env, body) {
                        let g24 = gc_poll(g22, env);
                        g24
                    } else {
                        g22
                    };
                    let cont = lp.cont;
                    let end = lp.end;
                    let g25 = g23.push_loop(cont, end);
                    let g26 = g25.set_term(false);
                    let g27 = gen_stmts(g26, env, body, body.len());
                    let g28 = g27.pop_loop();
                    let g29 = if !g28.term {
                        let g30 = g28.p("  br label %"@).p(cont).p("\n"@);
                        g30
                    } else {
                        g28
                    };
                    let g31 = loop_step(g29, env, lp);
                    let g32 = g31.set_term(false);
                    g32
                },
            };
            g2
        },
        _ => {
            g
        },
    };
    g1
}

pub open spec fn stmt_break(g: Ir, env: IrEnvView, e: StmtView) -> Ir
    decreases e, 2nat, 0nat,
{
    let g1 = match e {
        StmtView::Break => {
            let g2 = match g.loop_end() {
                Some(l) => {
                    let g3 = g.p("  br label %"@).p(l).p("\n"@);
                    let g4 = g3.set_term(true);
                    g4
                },
                None => {
                    let g5 = g.fail("break outside loop"@);
                    g5
                },
            };
            g2
        },
        _ => {
            g
        },
    };
    g1
}

pub open spec fn stmt_continue(g: Ir, env: IrEnvView, e: StmtView) -> Ir
    decreases e, 2nat, 0nat,
{
    let g1 = match e {
        StmtView::Continue => {
            let g2 = match g.loop_next() {
                Some(l) => {
                    let g3 = g.p("  br label %"@).p(l).p("\n"@);
                    let g4 = g3.set_term(true);
                    g4
                },
                None => {
                    let g5 = g.fail("continue outside loop"@);
                    g5
                },
            };
            g2
        },
        _ => {
            g
        },
    };
    g1
}

pub open spec fn stmt_raise(g: Ir, env: IrEnvView, e: StmtView) -> Ir
    decreases e, 2nat, 0nat,
{
    let g1 = match e {
        StmtView::Raise(x) => {
            let g2 = gen_expr(g, env, x);
            let v = g2.val;
            let g3 = g2.need("lumen_to_str"@, "i64 @lumen_to_str(i64)"@);
            let g4 = g3.need("lumen_raise"@, "i64 @lumen_raise(i64)"@);
            let (g5, s) = g4.vreg();
            let g6 = g5.p("  "@).p(s).p(" = call i64 @lumen_to_str(i64 "@).p(v).p(")\n"@);
            let (g7, r) = g6.vreg();
            let g8 = g7.p("  "@).p(r).p(" = call i64 @lumen_raise(i64 "@).p(s).p(")\n"@);
            let g9 = g8.give(r);
            g9
        },
        _ => {
            g
        },
    };
    g1
}

pub open spec fn stmt_try(g: Ir, env: IrEnvView, e: StmtView) -> Ir
    decreases e, 2nat, 0nat,
{
    let g1 = match e {
        StmtView::Try { body, catch_var, catch_body } => {
            let g2 = g.need("lumen_try_push"@, "ptr @lumen_try_push()"@);
            let g3 = g2.need("lumen_try_pop"@, "void @lumen_try_pop()"@);
            let g4 = g3.need("lumen_setjmp"@, "i32 @lumen_setjmp(ptr) returns_twice"@);
            let g5 = g4.need("lumen_caught_msg"@, "i64 @lumen_caught_msg()"@);
            let (g6, catchl) = g5.label("catch"@);
            let (g7, bodyl) = g6.label("trybody"@);
            let (g8, end) = g7.label("tryend"@);
            let (g9, buf) = g8.vreg();
            let g10 = g9.p("  "@).p(buf).p(" = call ptr @lumen_try_push()\n"@);
            let (g11, t) = g10.vreg();
            let g12 = g11.p("  "@).p(t).p(" = call i32 @lumen_setjmp(ptr "@).p(buf).p(")\n"@);
            let (g13, nz) = g12.vreg();
            let g14 = g13.p("  "@).p(nz).p(" = icmp ne i32 "@).p(t).p(", 0\n"@);
            let g15 = g14.p("  br i1 "@).p(nz).p(", label %"@).p(catchl).p(", label %"@)
                .p(bodyl).p("\n"@);
            let g16 = g15.p(bodyl).p(":\n"@);
            let g17 = g16.set_term(false);
            let g18 = gen_stmts(g17, env, body, body.len());
            let g19 = if !g18.term {
                let g20 = g18.p("  call void @lumen_try_pop()\n"@);
                let g21 = g20.p("  br label %"@).p(end).p("\n"@);
                g21
            } else {
                g18
            };
            let g22 = g19.p(catchl).p(":\n"@);
            let (g23, msg) = g22.vreg();
            let g24 = g23.p("  "@).p(msg).p(" = call i64 @lumen_caught_msg()\n"@);
            let (g25, slot) = g24.slot(catch_var);
            let g26 = g25.p("  store i64 "@).p(msg).p(", ptr "@).p(slot).p("\n"@);
            let g27 = g26.set_term(false);
            let g28 = gen_stmts(g27, env, catch_body, catch_body.len());
            let g29 = if !g28.term {
                let g30 = g28.p("  br label %"@).p(end).p("\n"@);
                g30
            } else {
                g28
            };
            let g31 = g29.p(end).p(":\n"@);
            let g32 = g31.set_term(false);
            g32
        },
        _ => {
            g
        },
    };
    g1
}

/// A statement.
pub open spec fn gen_stmt(g: Ir, env: IrEnvView, e: StmtView) -> Ir
    decreases e, 3nat, 0nat,
{
    let g1 = match e {
        StmtView::SrcLine(_) => {
            let g2 = stmt_src_line(g, env, e);
            g2
        },
        StmtView::Let { .. } => {
            let g3 = stmt_let(g, env, e);
            g3
        },
        StmtView::Assign { .. } => {
            let g4 = stmt_assign(g, env, e);
            g4
        },
        StmtView::ExprStmt(_) => {
            let g5 = stmt_expr_stmt(g, env, e);
            g5
        },
        StmtView::Return(_) => {
            let g6 = stmt_return(g, env, e);
            g6
        },
        StmtView::If { .. } => {
            let g7 = stmt_if(g, env, e);
            g7
        },
        StmtView::While { .. } => {
            let g8 = stmt_while(g, env, e);
            g8
        },
        StmtView::For { .. } => {
            let g9 = stmt_for(g, env, e);
            g9
        },
        StmtView::Break => {
            let g10 = stmt_break(g, env, e);
            g10
        },
        StmtView::Continue => {
            let g11 = stmt_continue(g, env, e);
            g11
        },
        StmtView::Raise(_) => {
            let g12 = stmt_raise(g, env, e);
            g12
        },
        StmtView::Try { .. } => {
            let g13 = stmt_try(g, env, e);
            g13
        },
    };
    g1
}

impl IrEmitter {
    pub fn gen_stmts(&mut self, env: &IrEnv, s: &Vec<Stmt>, k: usize)
        requires
            k <= s@.len(),
        ensures
            final(self)@ == gen_stmts(old(self)@, env@, stmts_view(s@), k as nat),
        decreases s, 0nat, 0nat,
    {
        let ghost s0 = stmts_view(s@);
        let ghost g0 = self@;
        for i in 0..k
            invariant
                k <= s@.len(),
                s0 == stmts_view(s@),
                self@ == gen_stmts(g0, env@, s0, i as nat),
        {
            proof {
                stmts_facts(s@);
            }
            assert(s0[i as int] == s@[i as int]@);
            let e: &Stmt = &s[i];
            if !self.term {
                self.gen_stmt(env, e);
            }
        }
    }

    pub fn gen_elifs(&mut self, env: &IrEnv, s: &Vec<(Expr, Vec<Stmt>)>, k: usize, end: &str)
        requires
            k <= s@.len(),
        ensures
            final(self)@ == gen_elifs(old(self)@, env@, elifs_view(s@), k as nat, end@),
        decreases s, 0nat, 0nat,
    {
        let ghost s0 = elifs_view(s@);
        let ghost g0 = self@;
        for i in 0..k
            invariant
                k <= s@.len(),
                s0 == elifs_view(s@),
                self@ == gen_elifs(g0, env@, s0, i as nat, end@),
        {
            proof {
                elifs_facts(s@);
            }
            assert(s0[i as int] == (s@[i as int].0@, stmts_view(s@[i as int].1@)));
            let c: &Expr = &s[i].0;
            let b: &Vec<Stmt> = &s[i].1;
            let thenl = self.label("then");
            let nextl = self.label("next");
            self.gen_truthy(env, c);
            let cv = self.val.clone();
            self.p("  br i1 ");
            self.p(cv.as_str());
            self.p(", label %");
            self.p(thenl.as_str());
            self.p(", label %");
            self.p(nextl.as_str());
            self.p("\n");
            self.p(thenl.as_str());
            self.p(":\n");
            self.set_term(false);
            self.gen_stmts(env, b, b.len());
            if !self.term {
                self.p("  br label %");
                self.p(end);
                self.p("\n");
            }
            self.p(nextl.as_str());
            self.p(":\n");
        }
    }

    pub fn assign_to(&mut self, env: &IrEnv, e: &Expr, v: &str)
        ensures
            final(self)@ == assign_to(old(self)@, env@, e@, v@),
    {
        match e {
            Expr::Ident(n) => {
                let slot = self.slot(n.as_str());
                self.p("  store i64 ");
                self.p(v);
                self.p(", ptr ");
                self.p(slot.as_str());
                self.p("\n");
            },
            Expr::Index { obj, index } => {
                self.need("lumen_index_set", "void @lumen_index_set(i64, i64, i64)");
                self.gen_expr(env, obj);
                let o = self.val.clone();
                self.gen_expr(env, index);
                let k = self.val.clone();
                self.p("  call void @lumen_index_set(i64 ");
                self.p(o.as_str());
                self.p(", i64 ");
                self.p(k.as_str());
                self.p(", i64 ");
                self.p(v);
                self.p(")\n");
            },
            Expr::Field { obj, name } => {
                self.need("lumen_struct_set", "void @lumen_struct_set(i64, ptr, i64)");
                self.gen_expr(env, obj);
                let o = self.val.clone();
                let nm = self.add_str(name.as_str());
                let p = self.vreg();
                self.p("  ");
                self.p(p.as_str());
                self.p(" = ");
                self.p(nm.as_str());
                self.p("\n");
                self.p("  call void @lumen_struct_set(i64 ");
                self.p(o.as_str());
                self.p(", ptr ");
                self.p(p.as_str());
                self.p(", i64 ");
                self.p(v);
                self.p(")\n");
            },
            _ => {
                self.fail("invalid assignment target");
            },
        }
    }

    pub fn stmt_src_line(&mut self, env: &IrEnv, e: &Stmt)
        ensures
            final(self)@ == stmt_src_line(old(self)@, env@, e@),
        decreases e, 2nat, 0nat,
    {
        match e {
            Stmt::SrcLine(n) => {
                if env.has_try {
                    self.need("lumen_set_line", "void @lumen_set_line(i32)");
                    self.p("  call void @lumen_set_line(i32 ");
                    self.u(*n as u64);
                    self.p(")\n");
                } else {
                    self.need_line(
                        "@lumen_current_line",
                        "@lumen_current_line = external global i32",
                    );
                    self.p("  store i32 ");
                    self.u(*n as u64);
                    self.p(", ptr @lumen_current_line\n");
                }
            },
            _ => {
            },
        }
    }

    pub fn stmt_let(&mut self, env: &IrEnv, e: &Stmt)
        ensures
            final(self)@ == stmt_let(old(self)@, env@, e@),
        decreases e, 2nat, 0nat,
    {
        match e {
            Stmt::Let { name, value, .. } => {
                self.gen_expr(env, value);
                let v = self.val.clone();
                let slot = self.slot(name.as_str());
                self.p("  store i64 ");
                self.p(v.as_str());
                self.p(", ptr ");
                self.p(slot.as_str());
                self.p("\n");
            },
            _ => {
            },
        }
    }

    pub fn stmt_assign(&mut self, env: &IrEnv, e: &Stmt)
        ensures
            final(self)@ == stmt_assign(old(self)@, env@, e@),
        decreases e, 2nat, 0nat,
    {
        match e {
            Stmt::Assign { target, value } => {
                self.gen_expr(env, value);
                let v = self.val.clone();
                self.assign_to(env, target, v.as_str());
            },
            _ => {
            },
        }
    }

    pub fn stmt_expr_stmt(&mut self, env: &IrEnv, e: &Stmt)
        ensures
            final(self)@ == stmt_expr_stmt(old(self)@, env@, e@),
        decreases e, 2nat, 0nat,
    {
        match e {
            Stmt::ExprStmt(x) => {
                self.gen_expr(env, x);
            },
            _ => {
            },
        }
    }

    pub fn stmt_return(&mut self, env: &IrEnv, e: &Stmt)
        ensures
            final(self)@ == stmt_return(old(self)@, env@, e@),
        decreases e, 2nat, 0nat,
    {
        match e {
            Stmt::Return(o) => {
                assert(opt_view(*o) is Some == o is Some);
                match o {
                    Some(x) => {
                        self.gen_expr(env, x);
                    },
                    None => {
                        self.need("lumen_nil", "i64 @lumen_nil()");
                        self.nil_value(env);
                    },
                }
                let v = self.val.clone();
                self.p("  ret i64 ");
                self.p(v.as_str());
                self.p("\n");
                self.set_term(true);
            },
            _ => {
            },
        }
    }

    pub fn stmt_if(&mut self, env: &IrEnv, e: &Stmt)
        ensures
            final(self)@ == stmt_if(old(self)@, env@, e@),
        decreases e, 2nat, 0nat,
    {
        match e {
            Stmt::If { cond, then, elifs, els } => {
                proof {
                    stmts_facts(then@);
                    elifs_facts(elifs@);
                }
                assert(optblock_view(*els) is Some == els is Some);
                let end = self.label("ifend");
                let thenl = self.label("then");
                let nextl = self.label("next");
                self.gen_truthy(env, cond);
                let cv = self.val.clone();
                self.p("  br i1 ");
                self.p(cv.as_str());
                self.p(", label %");
                self.p(thenl.as_str());
                self.p(", label %");
                self.p(nextl.as_str());
                self.p("\n");
                self.p(thenl.as_str());
                self.p(":\n");
                self.set_term(false);
                self.gen_stmts(env, then, then.len());
                if !self.term {
                    self.p("  br label %");
                    self.p(end.as_str());
                    self.p("\n");
                }
                self.p(nextl.as_str());
                self.p(":\n");
                self.gen_elifs(env, elifs, elifs.len(), end.as_str());
                match els {
                    Some(b) => {
                        proof {
                            stmts_facts(b@);
                        }
                        self.set_term(false);
                        self.gen_stmts(env, b, b.len());
                        if !self.term {
                            self.p("  br label %");
                            self.p(end.as_str());
                            self.p("\n");
                        }
                    },
                    None => {
                        self.p("  br label %");
                        self.p(end.as_str());
                        self.p("\n");
                    },
                }
                self.p(end.as_str());
                self.p(":\n");
                self.set_term(false);
            },
            _ => {
            },
        }
    }

    pub fn stmt_while(&mut self, env: &IrEnv, e: &Stmt)
        ensures
            final(self)@ == stmt_while(old(self)@, env@, e@),
        decreases e, 2nat, 0nat,
    {
        match e {
            Stmt::While { cond, body } => {
                proof {
                    stmts_facts(body@);
                }
                let top = self.label("wtop");
                let bodyl = self.label("wbody");
                let end = self.label("wend");
                self.p("  br label %");
                self.p(top.as_str());
                self.p("\n");
                self.p(top.as_str());
                self.p(":\n");
                self.gen_truthy(env, cond);
                let c = self.val.clone();
                self.p("  br i1 ");
                self.p(c.as_str());
                self.p(", label %");
                self.p(bodyl.as_str());
                self.p(", label %");
                self.p(end.as_str());
                self.p("\n");
                self.p(bodyl.as_str());
                self.p(":\n");
                self.push_loop(top.as_str(), end.as_str());
                self.set_term(false);
                self.gen_stmts(env, body, body.len());
                self.pop_loop();
                if !self.term {
                    self.p("  br label %");
                    self.p(top.as_str());
                    self.p("\n");
                }
                self.p(end.as_str());
                self.p(":\n");
                self.set_term(false);
            },
            _ => {
            },
        }
    }

    pub fn stmt_for(&mut self, env: &IrEnv, e: &Stmt)
        ensures
            final(self)@ == stmt_for(old(self)@, env@, e@),
        decreases e, 2nat, 0nat,
    {
        match e {
            Stmt::For { var, iter, body } => {
                proof {
                    stmts_facts(body@);
                }
                match iter {
                    Expr::Range { lo, hi } => {
                        assert(lo@ == expr_view(**lo) && hi@ == expr_view(**hi));
                        self.need("lumen_to_int", "i64 @lumen_to_int(i64)");
                        self.need("lumen_from_int", "i64 @lumen_from_int(i64)");
                        self.gen_expr(env, lo);
                        let lov = self.val.clone();
                        self.gen_expr(env, hi);
                        let hiv = self.val.clone();
                        let lp = self.range_begin(env, var.as_str(), lov.as_str(), hiv.as_str());
                        if may_alloc(env, body) {
                            self.gc_poll(env);
                        }
                        let cont = lp.cont.as_str();
                        let end = lp.end.as_str();
                        self.push_loop(cont, end);
                        self.set_term(false);
                        self.gen_stmts(env, body, body.len());
                        self.pop_loop();
                        if !self.term {
                            self.p("  br label %");
                            self.p(cont);
                            self.p("\n");
                        }
                        self.loop_step(env, &lp);
                        self.set_term(false);
                    },
                    _ => {
                        self.need("lumen_iter_prep", "i64 @lumen_iter_prep(i64)");
                        self.need("lumen_len", "i64 @lumen_len(i64)");
                        self.need("lumen_list_get", "i64 @lumen_list_get(i64, i64)");
                        self.gen_expr(env, iter);
                        let it = self.val.clone();
                        let lp = self.list_begin(env, var.as_str(), it.as_str());
                        if may_alloc(env, body) {
                            self.gc_poll(env);
                        }
                        let cont = lp.cont.as_str();
                        let end = lp.end.as_str();
                        self.push_loop(cont, end);
                        self.set_term(false);
                        self.gen_stmts(env, body, body.len());
                        self.pop_loop();
                        if !self.term {
                            self.p("  br label %");
                            self.p(cont);
                            self.p("\n");
                        }
                        self.loop_step(env, &lp);
                        self.set_term(false);
                    },
                }
            },
            _ => {
            },
        }
    }

    pub fn stmt_break(&mut self, env: &IrEnv, e: &Stmt)
        ensures
            final(self)@ == stmt_break(old(self)@, env@, e@),
        decreases e, 2nat, 0nat,
    {
        match e {
            Stmt::Break => {
                match self.loop_end() {
                    Some(l) => {
                        self.p("  br label %");
                        self.p(l.as_str());
                        self.p("\n");
                        self.set_term(true);
                    },
                    None => {
                        self.fail("break outside loop");
                    },
                }
            },
            _ => {
            },
        }
    }

    pub fn stmt_continue(&mut self, env: &IrEnv, e: &Stmt)
        ensures
            final(self)@ == stmt_continue(old(self)@, env@, e@),
        decreases e, 2nat, 0nat,
    {
        match e {
            Stmt::Continue => {
                match self.loop_next() {
                    Some(l) => {
                        self.p("  br label %");
                        self.p(l.as_str());
                        self.p("\n");
                        self.set_term(true);
                    },
                    None => {
                        self.fail("continue outside loop");
                    },
                }
            },
            _ => {
            },
        }
    }

    pub fn stmt_raise(&mut self, env: &IrEnv, e: &Stmt)
        ensures
            final(self)@ == stmt_raise(old(self)@, env@, e@),
        decreases e, 2nat, 0nat,
    {
        match e {
            Stmt::Raise(x) => {
                self.gen_expr(env, x);
                let v = self.val.clone();
                self.need("lumen_to_str", "i64 @lumen_to_str(i64)");
                self.need("lumen_raise", "i64 @lumen_raise(i64)");
                let s = self.vreg();
                self.p("  ");
                self.p(s.as_str());
                self.p(" = call i64 @lumen_to_str(i64 ");
                self.p(v.as_str());
                self.p(")\n");
                let r = self.vreg();
                self.p("  ");
                self.p(r.as_str());
                self.p(" = call i64 @lumen_raise(i64 ");
                self.p(s.as_str());
                self.p(")\n");
                self.give(r.as_str());
            },
            _ => {
            },
        }
    }

    pub fn stmt_try(&mut self, env: &IrEnv, e: &Stmt)
        ensures
            final(self)@ == stmt_try(old(self)@, env@, e@),
        decreases e, 2nat, 0nat,
    {
        match e {
            Stmt::Try { body, catch_var, catch_body } => {
                proof {
                    stmts_facts(body@);
                    stmts_facts(catch_body@);
                }
                self.need("lumen_try_push", "ptr @lumen_try_push()");
                self.need("lumen_try_pop", "void @lumen_try_pop()");
                self.need("lumen_setjmp", "i32 @lumen_setjmp(ptr) returns_twice");
                self.need("lumen_caught_msg", "i64 @lumen_caught_msg()");
                let catchl = self.label("catch");
                let bodyl = self.label("trybody");
                let end = self.label("tryend");
                let buf = self.vreg();
                self.p("  ");
                self.p(buf.as_str());
                self.p(" = call ptr @lumen_try_push()\n");
                let t = self.vreg();
                self.p("  ");
                self.p(t.as_str());
                self.p(" = call i32 @lumen_setjmp(ptr ");
                self.p(buf.as_str());
                self.p(")\n");
                let nz = self.vreg();
                self.p("  ");
                self.p(nz.as_str());
                self.p(" = icmp ne i32 ");
                self.p(t.as_str());
                self.p(", 0\n");
                self.p("  br i1 ");
                self.p(nz.as_str());
                self.p(", label %");
                self.p(catchl.as_str());
                self.p(", label %");
                self.p(bodyl.as_str());
                self.p("\n");
                self.p(bodyl.as_str());
                self.p(":\n");
                self.set_term(false);
                self.gen_stmts(env, body, body.len());
                if !self.term {
                    self.p("  call void @lumen_try_pop()\n");
                    self.p("  br label %");
                    self.p(end.as_str());
                    self.p("\n");
                }
                self.p(catchl.as_str());
                self.p(":\n");
                let msg = self.vreg();
                self.p("  ");
                self.p(msg.as_str());
                self.p(" = call i64 @lumen_caught_msg()\n");
                let slot = self.slot(catch_var.as_str());
                self.p("  store i64 ");
                self.p(msg.as_str());
                self.p(", ptr ");
                self.p(slot.as_str());
                self.p("\n");
                self.set_term(false);
                self.gen_stmts(env, catch_body, catch_body.len());
                if !self.term {
                    self.p("  br label %");
                    self.p(end.as_str());
                    self.p("\n");
                }
                self.p(end.as_str());
                self.p(":\n");
                self.set_term(false);
            },
            _ => {
            },
        }
    }

    pub fn gen_stmt(&mut self, env: &IrEnv, e: &Stmt)
        ensures
            final(self)@ == gen_stmt(old(self)@, env@, e@),
        decreases e, 3nat, 0nat,
    {
        match e {
            Stmt::SrcLine(_) => {
                self.stmt_src_line(env, e);
            },
            Stmt::Let { .. } => {
                self.stmt_let(env, e);
            },
            Stmt::Assign { .. } => {
                self.stmt_assign(env, e);
            },
            Stmt::ExprStmt(_) => {
                self.stmt_expr_stmt(env, e);
            },
            Stmt::Return(_) => {
                self.stmt_return(env, e);
            },
            Stmt::If { .. } => {
                self.stmt_if(env, e);
            },
            Stmt::While { .. } => {
                self.stmt_while(env, e);
            },
            Stmt::For { .. } => {
                self.stmt_for(env, e);
            },
            Stmt::Break => {
                self.stmt_break(env, e);
            },
            Stmt::Continue => {
                self.stmt_continue(env, e);
            },
            Stmt::Raise(_) => {
                self.stmt_raise(env, e);
            },
            Stmt::Try { .. } => {
                self.stmt_try(env, e);
            },
        }
    }
}

} // verus!
