//! The interpreter. Each step is small and ends; what only the outside can do, such as
//! output and arithmetic on floats, is handed out as a request, and the answer is handed
//! back.

pub use crate::machstate::Interp;
pub use crate::value::{lumen_map, LumenMap, Value};
use crate::ast::{
    elifs_facts, elifs_view, expr_view, exprs_facts, exprs_view, extern_fns_view, fns_view,
    opt_view, optblock_view, optbox_view, parts_facts, parts_view, prog_view, stmts_facts,
    stmts_view, wrap48, wrap48_spec, BinOp, Expr, ExprView, ExternFn, ExternFnView, FStrPart,
    FStrPartView, Field, FnDef, FnDefView, Item, ItemView, Stmt, StmtView,
};
use crate::builtins::{lookup, lookup_spec};
use crate::calls::{
    builtin_call, call_builtin, call_list_method, call_method_now, call_text_method, list_method,
    method_now, text_method,
};
use crate::irstate::{find_module_name, module_name};
use crate::machops::{
    by_name, by_place, chain, field_out, fields_by_name, fields_by_place, find_func, find_struct,
    find_way, func_value, get_expr, get_field, get_items, get_pairs, get_range, index, index_out,
    items_of, method_way, nth_expr, pair_up, range_items, slice, slice_out, struct_of, unary,
    unary_out, MethodWay,
};
use crate::machstate::{
    method_def, Ctrl, CtrlView, Flow, FlowView, Frame, FrameView, Kind, KindView, Mach, Src,
    SrcView, Use, UseView,
};
use crate::operate::{
    binop, binop_spec, task_out, Action, ActionView, Goal, Out, OutView, Task, TaskView,
};
use crate::program::{calls_main, is_main_call, top_of};
use crate::text::{from_range, replace_spec, replace_text, str_eq, to_chars};
use crate::value::{
    dict_at, entry_at, entry_get, get_dict, get_list, list_at, map_of, opt_value, text_value,
    truth, values_push, values_view, Obj, ObjView, ValueView,
};
use vstd::prelude::*;
use vstd::string::StringExecFns;

verus! {

/// A new list as the value.
pub open spec fn new_list(g: Mach, s: Seq<ValueView>) -> Mach {
    let (g1, a) = g.add_obj(ObjView::List(s));
    g1.give(ValueView::List(a))
}

/// A new closure as the value.
pub open spec fn new_func(g: Mach, def: usize, caps: Seq<ValueView>) -> Mach {
    let (g1, a) = g.add_obj(ObjView::Func { def, name: g.def_name(def), caps });
    g1.give(ValueView::Func(a))
}

/// Goes on with what an operation came to.
pub open spec fn settle(g: Mach, o: OutView) -> Mach {
    match o {
        OutView::Give(v) => g.give(v),
        OutView::List(s) => new_list(g, s),
        OutView::Fail(m) => g.fail(m),
        OutView::Do(t) => g.task(t),
        OutView::Ask(a) => g.request(a),
        OutView::Wait(a) => g.request(a),
    }
}

impl<'a> Interp<'a> {
    fn new_list(&mut self, s: Vec<Value>)
        ensures
            final(self)@ == new_list(old(self)@, values_view(s@)),
    {
        let a: usize = self.add_obj(Obj::List(s));
        self.give(Value::List(a));
    }

    fn new_func(&mut self, def: usize, caps: Vec<Value>)
        ensures
            final(self)@ == new_func(old(self)@, def, values_view(caps@)),
    {
        let name = self.def_name(def);
        let a: usize = self.add_obj(Obj::Func { def, name, caps });
        self.give(Value::Func(a));
    }

    fn settle(&mut self, o: Out)
        ensures
            final(self)@ == settle(old(self)@, o@),
    {
        match o {
            Out::Give(v) => self.give(v),
            Out::List(s) => self.new_list(s),
            Out::Fail(m) => self.fail(m.as_str()),
            Out::Do(t) => self.task(t),
            Out::Ask(a) => self.request(a),
            Out::Wait(a) => self.request(a),
        }
    }

    fn find_tail_args(&self, x: &'a Expr) -> (r: Option<&'a Vec<Expr>>)
        ensures
            match r {
                Some(args) => tail_args(self@.tail, x@) == Some(exprs_view(args@)),
                None => tail_args(self@.tail, x@) is None,
            },
    {
        match x {
            Expr::Call { callee, args } => {
                assert(callee@ == expr_view(**callee));
                proof {
                    exprs_facts(args@);
                }
                match &**callee {
                    Expr::Ident(n) => if self.is_tail(n.as_str(), args.len()) {
                        Some(args)
                    } else {
                        None
                    },
                    _ => None,
                }
            },
            _ => None,
        }
    }
}

/// The arguments of a call of the current function to itself.
pub open spec fn tail_args(tail: Option<(Seq<char>, usize)>, x: ExprView) -> Option<Seq<ExprView>> {
    match x {
        ExprView::Call { callee, args } => match (*callee, tail) {
            (ExprView::Ident(n), Some((f, k))) => if n == f && args.len() == k {
                Some(args)
            } else {
                None
            },
            _ => None,
        },
        _ => None,
    }
}

/// The next round of a loop over items.
pub open spec fn for_next(
    g: Mach,
    var: Seq<char>,
    body: Seq<StmtView>,
    items: Seq<ValueView>,
    i: usize,
) -> Mach {
    let g1 = if i < items.len() {
        let g2 = g.set_env(var, items[i as int]);
        let g3 = g2.push(FrameView::ForBody { var, body, items, i: (i + 1) as usize });
        let g4 = g3.run_from(body, 0);
        g4
    } else {
        let g5 = g.flow(FlowView::Normal);
        g5
    };
    g1
}

/// The next round of a comprehension. At its end the variable is what it was.
pub open spec fn comp_next(
    g: Mach,
    elem: ExprView,
    var: Seq<char>,
    cond: Option<Box<ExprView>>,
    items: Seq<ValueView>,
    i: usize,
    out: Seq<ValueView>,
    saved: Option<ValueView>,
) -> Mach {
    let g1 = if i < items.len() {
        let g2 = g.set_env(var, items[i as int]);
        let g3 = match cond {
            Some(c) => {
                let g4 = g2.push(FrameView::CompCond { elem, var, cond, items, i, out, saved });
                let g5 = g4.eval(*c);
                g5
            },
            None => {
                let g6 = g2.push(FrameView::CompElem { elem, var, cond, items, i, out, saved });
                let g7 = g6.eval(elem);
                g7
            },
        };
        g3
    } else {
        let g8 = match saved {
            Some(x) => {
                let g9 = g.set_env(var, x);
                g9
            },
            None => {
                let g10 = g.del_env(var);
                g10
            },
        };
        let g11 = new_list(g8, out);
        g11
    };
    g1
}

pub open spec fn got_items(g: Mach, use_: UseView, items: Seq<ValueView>) -> Mach {
    let g1 = match use_ {
        UseView::List => {
            let g2 = new_list(g, items);
            g2
        },
        UseView::For { var, body } => {
            let g3 = for_next(g, var, body, items, 0);
            g3
        },
        UseView::Comp { elem, var, cond } => {
            let saved = g.env_of(var);
            let g4 = comp_next(g, elem, var, cond, items, 0, Seq::empty(), saved);
            g4
        },
    };
    g1
}

/// Runs through what an expression gives.
pub open spec fn iterate(g: Mach, e: ExprView, use_: UseView) -> Mach {
    let g1 = match e {
        ExprView::Range { lo, hi } => {
            let g2 = g.push(FrameView::RangeLo { hi: *hi, use_ });
            let g3 = g2.eval(*lo);
            g3
        },
        _ => {
            let g4 = g.push(FrameView::Iter { use_ });
            let g5 = g4.eval(e);
            g5
        },
    };
    g1
}

/// Calls a value: what it captured comes before the arguments.
pub open spec fn call_value(g: Mach, f: ValueView, vals: Seq<ValueView>) -> Mach {
    let g1 = match func_value(g.heap, f) {
        Some((def, caps)) => {
            let g2 = g.enter(def, caps + vals, false);
            g2
        },
        None => {
            let g3 = g.fail("attempted to call a non-function value"@);
            g3
        },
    };
    g1
}

/// Calls a function by its name: a built-in one, a struct, a foreign function, a
/// function of the program, or a variable that holds one.
pub open spec fn call_named(g: Mach, name: Seq<char>, vals: Seq<ValueView>) -> Mach {
    let g1 = match builtin_call(g.heap, name, vals) {
        Some(o) => {
            let g2 = settle(g, o);
            g2
        },
        None => {
            let g3 = match g.fields_of(name) {
                Some(fs) => {
                    let (g4, a) = g.add_obj(ObjView::Struct { name, fields: by_place(fs, vals) });
                    let g5 = g4.give(ValueView::Struct(a));
                    g5
                },
                None => {
                    let g6 = if g.externs.contains(name) {
                        let g7 = g.request(ActionView::Extern { name, args: vals });
                        g7
                    } else {
                        let g8 = match g.func_of(name) {
                            Some(d) => {
                                let g9 = g.enter(d, vals, true);
                                g9
                            },
                            None => {
                                let g10 = match g.var_of(name) {
                                    Some(f) => {
                                        let g11 = match f {
                                            ValueView::Func(_) => {
                                                let g12 = call_value(g, f, vals);
                                                g12
                                            },
                                            _ => {
                                                let m = "undefined function: "@ + name;
                                                let g13 = g.fail(m);
                                                g13
                                            },
                                        };
                                        g11
                                    },
                                    None => {
                                        let m = "undefined function: "@ + name;
                                        let g14 = g.fail(m);
                                        g14
                                    },
                                };
                                g10
                            },
                        };
                        g8
                    };
                    g6
                },
            };
            g3
        },
    };
    g1
}

/// Goes on with values that have all been evaluated.
pub open spec fn finish(g: Mach, kind: KindView, vals: Seq<ValueView>) -> Mach {
    let g1 = match kind {
        KindView::List => {
            let g2 = new_list(g, vals);
            g2
        },
        KindView::MapLit => {
            let (g3, a) = g.add_obj(ObjView::Dict(map_of(pair_up(vals))));
            let g4 = g3.give(ValueView::Dict(a));
            g4
        },
        KindView::Closure { def } => {
            let g5 = new_func(g, def, vals);
            g5
        },
        KindView::Module { module, name } => {
            let g6 = match lookup_spec(module, name, 0) {
                Some(_) => {
                    let g7 = g.request(ActionView::Module { module, name, args: vals });
                    g7
                },
                None => {
                    let m = module + ": no function '"@ + name + "'"@;
                    let g8 = g.fail(m);
                    g8
                },
            };
            g6
        },
        KindView::Call { name } => {
            let g9 = call_named(g, name, vals);
            g9
        },
        KindView::CallValue { f } => {
            let g10 = call_value(g, f, vals);
            g10
        },
        KindView::Method { def, recv } => {
            let g11 = g.enter(def, seq![recv] + vals, true);
            g11
        },
        KindView::Push { .. } => {
            let g12 = g.give(ValueView::Nil);
            g12
        },
        KindView::Named { name, args } => {
            let g13 = match g.fields_of(name) {
                Some(fs) => {
                    let (g14, a) = g.add_obj(
                        ObjView::Struct { name, fields: by_name(fs, args, vals) },
                    );
                    let g15 = g14.give(ValueView::Struct(a));
                    g15
                },
                None => {
                    let m = "no struct named '"@ + name + "'"@;
                    let g16 = g.fail(m);
                    g16
                },
            };
            g13
        },
        KindView::Tail { saved } => {
            let g17 = g.set_tail(saved);
            let g18 = g17.flow(FlowView::TailCall { vals });
            g18
        },
    };
    g1
}

/// Evaluates the next of several expressions.
pub open spec fn collect_next(g: Mach, kind: KindView, src: SrcView, vals: Seq<ValueView>) -> Mach {
    let g1 = match nth_expr(src, vals.len()) {
        Some(e) => {
            let g2 = g.push(FrameView::Args { kind, src, vals });
            let g3 = g2.eval(e);
            g3
        },
        None => {
            let g4 = finish(g, kind, vals);
            g4
        },
    };
    g1
}

pub open spec fn text_next(g: Mach, parts: Seq<FStrPartView>, i: usize, acc: Seq<char>) -> Mach {
    let g1 = if i < parts.len() {
        let g2 = match parts[i as int] {
            FStrPartView::Lit(l) => {
                let t = acc + l;
                let g3 = g.text_parts(parts, (i + 1) as usize, t);
                g3
            },
            FStrPartView::Expr(x) => {
                let g4 = g.push(FrameView::FStr { parts, i: (i + 1) as usize, acc });
                let g5 = g4.eval(x);
                g5
            },
        };
        g2
    } else {
        let g6 = g.give(ValueView::Str(acc));
        g6
    };
    g1
}

/// Calls a method of a value that is known.
pub open spec fn method_call(
    g: Mach,
    recv: ValueView,
    name: Seq<char>,
    args: Seq<ExprView>,
) -> Mach {
    let g1 = match method_way(recv, name) {
        MethodWay::Now => {
            let g2 = match method_now(g.heap, recv, name) {
                Some(o) => {
                    let g3 = settle(g, o);
                    g3
                },
                None => {
                    let m = "no method '"@ + name + "' on value"@;
                    let g4 = g.fail(m);
                    g4
                },
            };
            g2
        },
        MethodWay::Push => {
            let g5 = match recv {
                ValueView::List(a) => {
                    let g6 = g.collect(
                        KindView::Push { list: a },
                        SrcView::Exprs { s: args },
                        Seq::empty(),
                    );
                    g6
                },
                _ => {
                    let m = "no method '"@ + name + "' on value"@;
                    let g7 = g.fail(m);
                    g7
                },
            };
            g5
        },
        MethodWay::Reverse => {
            let g8 = match recv {
                ValueView::List(a) => {
                    let g9 = g.list_reverse(a);
                    let g10 = g9.give(ValueView::Nil);
                    g10
                },
                _ => {
                    let m = "no method '"@ + name + "' on value"@;
                    let g11 = g.fail(m);
                    g11
                },
            };
            g8
        },
        MethodWay::Sort => {
            let g12 = match recv {
                ValueView::List(a) => {
                    let g13 = g.task(TaskView::Sort { list: a });
                    g13
                },
                _ => {
                    let m = "no method '"@ + name + "' on value"@;
                    let g14 = g.fail(m);
                    g14
                },
            };
            g12
        },
        MethodWay::Pop => {
            let g15 = match recv {
                ValueView::List(a) => {
                    let (g16, last) = g.list_pop(a);
                    let g17 = match last {
                        Some(x) => {
                            let g18 = g16.give(x);
                            g18
                        },
                        None => {
                            let g19 = g16.fail("pop from empty list"@);
                            g19
                        },
                    };
                    g17
                },
                _ => {
                    let m = "no method '"@ + name + "' on value"@;
                    let g20 = g.fail(m);
                    g20
                },
            };
            g15
        },
        MethodWay::First => {
            let g21 = if args.len() == 0 {
                let g22 = g.fail("missing argument"@);
                g22
            } else {
                let g23 = g.push(FrameView::Meth1 { recv, name, args });
                let g24 = g23.eval(args[0]);
                g24
            };
            g21
        },
        MethodWay::Other => {
            let g25 = match struct_of(g.heap, recv) {
                Some(owner) => {
                    let g26 = match method_def(g.methods, owner, name, g.methods.len()) {
                        Some(def) => {
                            let g27 = g.collect(
                                KindView::Method { def, recv },
                                SrcView::Exprs { s: args },
                                Seq::empty(),
                            );
                            g27
                        },
                        None => {
                            let m = "no method '"@ + name + "' on value"@;
                            let g28 = g.fail(m);
                            g28
                        },
                    };
                    g26
                },
                None => {
                    let m = "no method '"@ + name + "' on value"@;
                    let g29 = g.fail(m);
                    g29
                },
            };
            g25
        },
    };
    g1
}

pub open spec fn list_one(
    g: Mach,
    a: usize,
    name: Seq<char>,
    args: Seq<ExprView>,
    v: ValueView,
) -> Mach {
    let g1 = if name == "insert"@ {
        let g2 = match v {
            ValueView::Int(_) => {
                let g3 = if args.len() < 2 {
                    let g4 = g.fail("missing argument"@);
                    g4
                } else {
                    let g5 = g.push(FrameView::Meth2 { recv: ValueView::List(a), first: v });
                    let g6 = g5.eval(args[1]);
                    g6
                };
                g3
            },
            _ => {
                let g7 = g.fail("insert index must be int"@);
                g7
            },
        };
        g2
    } else {
        let g8 = match list_at(g.heap, a) {
            Some(s) => {
                let g9 = match list_method(s, name, v) {
                    Some(o) => {
                        let g10 = settle(g, o);
                        g10
                    },
                    None => {
                        let m = "no method '"@ + name + "' on value"@;
                        let g11 = g.fail(m);
                        g11
                    },
                };
                g9
            },
            None => {
                let m = "no method '"@ + name + "' on value"@;
                let g12 = g.fail(m);
                g12
            },
        };
        g8
    };
    g1
}

pub open spec fn dict_one(
    g: Mach,
    a: usize,
    name: Seq<char>,
    args: Seq<ExprView>,
    v: ValueView,
) -> Mach {
    let g1 = if name == "remove"@ {
        let (g2, old_value) = g.dict_remove(a, v);
        let g3 = match old_value {
            Some(x) => {
                let g4 = g2.give(x);
                g4
            },
            None => {
                let g5 = g2.give(ValueView::Nil);
                g5
            },
        };
        g3
    } else {
        let g6 = match dict_at(g.heap, a) {
            Some(s) => {
                let g7 = if name == "get"@ {
                    let g8 = match entry_get(s, v) {
                        Some(x) => {
                            let g9 = g.give(x);
                            g9
                        },
                        None => {
                            let g10 = if args.len() > 1 {
                                let g11 = g.eval(args[1]);
                                g11
                            } else {
                                let g12 = g.give(ValueView::Nil);
                                g12
                            };
                            g10
                        },
                    };
                    g8
                } else {
                    let found = entry_at(s, v, 0) is Some;
                    let g13 = g.give(ValueView::Bool(found));
                    g13
                };
                g7
            },
            None => {
                let m = "no method '"@ + name + "' on value"@;
                let g14 = g.fail(m);
                g14
            },
        };
        g6
    };
    g1
}

pub open spec fn text_one(
    g: Mach,
    t: ValueView,
    name: Seq<char>,
    args: Seq<ExprView>,
    v: ValueView,
) -> Mach {
    let g1 = match t {
        ValueView::Str(s) => {
            let g2 = if name == "replace"@ {
                let g3 = match v {
                    ValueView::Str(_) => {
                        let g4 = if args.len() < 2 {
                            let g5 = g.fail("missing argument"@);
                            g5
                        } else {
                            let g6 = g.push(FrameView::Meth2 { recv: t, first: v });
                            let g7 = g6.eval(args[1]);
                            g7
                        };
                        g4
                    },
                    _ => {
                        let g8 = g.fail("replace arg must be a string"@);
                        g8
                    },
                };
                g3
            } else {
                let g9 = match text_method(g.heap, s, name, v) {
                    Some(o) => {
                        let g10 = settle(g, o);
                        g10
                    },
                    None => {
                        let m = "no method '"@ + name + "' on value"@;
                        let g11 = g.fail(m);
                        g11
                    },
                };
                g9
            };
            g2
        },
        _ => {
            let m = "no method '"@ + name + "' on value"@;
            let g12 = g.fail(m);
            g12
        },
    };
    g1
}

/// Goes on with a method once its first argument is known.
pub open spec fn method_one(
    g: Mach,
    recv: ValueView,
    name: Seq<char>,
    args: Seq<ExprView>,
    v: ValueView,
) -> Mach {
    let g1 = match recv {
        ValueView::List(a) => {
            let g2 = list_one(g, a, name, args, v);
            g2
        },
        ValueView::Dict(a) => {
            let g3 = dict_one(g, a, name, args, v);
            g3
        },
        _ => {
            let g4 = text_one(g, recv, name, args, v);
            g4
        },
    };
    g1
}

/// Ends a method of two arguments.
pub open spec fn method_two(g: Mach, recv: ValueView, first: ValueView, v: ValueView) -> Mach {
    let g1 = match (recv, first) {
        (ValueView::List(a), ValueView::Int(i)) => {
            let g2 = match list_at(g.heap, a) {
                Some(s) => {
                    let g3 = if 0 <= i <= s.len() {
                        let g4 = g.list_insert(a, i as usize, v);
                        let g5 = g4.give(ValueView::Nil);
                        g5
                    } else {
                        let g6 = g.fail("insert index out of range"@);
                        g6
                    };
                    g3
                },
                None => {
                    let g7 = g.fail("insert index out of range"@);
                    g7
                },
            };
            g2
        },
        (ValueView::Str(s), ValueView::Str(p)) => {
            let g8 = match v {
                ValueView::Str(rep) => {
                    let g9 = g.give(ValueView::Str(replace_spec(s, p, rep)));
                    g9
                },
                _ => {
                    let g10 = g.fail("replace arg must be a string"@);
                    g10
                },
            };
            g8
        },
        _ => {
            let g11 = g.fail("internal: no such method"@);
            g11
        },
    };
    g1
}

/// Starts on an expression.
pub open spec fn step_eval(g: Mach, e: ExprView) -> Mach {
    let g1 = match e {
        ExprView::Lambda { .. } => {
            let g2 = g.fail("internal: unlifted lambda in interpreter"@);
            g2
        },
        ExprView::Closure { fn_name, captures } => {
            let g3 = match g.func_of(fn_name) {
                Some(def) => {
                    let g4 = g.collect(
                        KindView::Closure { def },
                        SrcView::Exprs { s: captures },
                        Seq::empty(),
                    );
                    g4
                },
                None => {
                    let m = "internal: unknown closure fn "@ + fn_name;
                    let g5 = g.fail(m);
                    g5
                },
            };
            g3
        },
        ExprView::Int(n) => {
            let g6 = g.give(ValueView::Int(wrap48_spec(n as int) as i64));
            g6
        },
        ExprView::Float(b) => {
            let g7 = g.give(ValueView::Float(b));
            g7
        },
        ExprView::Str(s) => {
            let g8 = g.give(ValueView::Str(s));
            g8
        },
        ExprView::Bool(b) => {
            let g9 = g.give(ValueView::Bool(b));
            g9
        },
        ExprView::Nil => {
            let g10 = g.give(ValueView::Nil);
            g10
        },
        ExprView::SelfExpr => {
            let g11 = match g.env_of("self"@) {
                Some(v) => {
                    let g12 = g.give(v);
                    g12
                },
                None => {
                    let g13 = g.fail("self not in scope"@);
                    g13
                },
            };
            g11
        },
        ExprView::Ident(n) => {
            let g14 = match g.var_of(n) {
                Some(v) => {
                    let g15 = g.give(v);
                    g15
                },
                None => {
                    let g16 = match g.func_of(n) {
                        Some(d) => {
                            let g17 = new_func(g, d, Seq::empty());
                            g17
                        },
                        None => {
                            let m = "undefined variable: "@ + n;
                            let g18 = g.fail(m);
                            g18
                        },
                    };
                    g16
                },
            };
            g14
        },
        ExprView::FStr(ps) => {
            let g19 = g.text_parts(ps, 0, ""@);
            g19
        },
        ExprView::List(xs) => {
            let g20 = g.collect(KindView::List, SrcView::Exprs { s: xs }, Seq::empty());
            g20
        },
        ExprView::MapLit(kvs) => {
            let g21 = g.collect(KindView::MapLit, SrcView::Pairs { s: kvs }, Seq::empty());
            g21
        },
        ExprView::Range { .. } => {
            let g22 = iterate(g, e, UseView::List);
            g22
        },
        ExprView::IfElse { cond, then, els } => {
            let g23 = g.push(FrameView::Cond { then: *then, els: *els });
            let g24 = g23.eval(*cond);
            g24
        },
        ExprView::ListComp { elem, var, iter, cond } => {
            let g25 = iterate(g, *iter, UseView::Comp { elem: *elem, var, cond });
            g25
        },
        ExprView::Unary { op, expr } => {
            let g26 = g.push(FrameView::Unary { op });
            let g27 = g26.eval(*expr);
            g27
        },
        ExprView::Binary { op, lhs, rhs } => {
            let g28 = if op == BinOp::And || op == BinOp::Or {
                let g29 = g.push(FrameView::ShortL { op, rhs: *rhs });
                let g30 = g29.eval(*lhs);
                g30
            } else {
                let g31 = g.push(FrameView::BinL { op, rhs: *rhs });
                let g32 = g31.eval(*lhs);
                g32
            };
            g28
        },
        ExprView::Index { obj, index } => {
            let g33 = g.push(FrameView::IndexObj { index: *index });
            let g34 = g33.eval(*obj);
            g34
        },
        ExprView::Slice { obj, lo, hi } => {
            let g35 = g.push(FrameView::SliceObj { lo, hi });
            let g36 = g35.eval(*obj);
            g36
        },
        ExprView::Field { obj, name } => {
            let g37 = g.push(FrameView::Field { name });
            let g38 = g37.eval(*obj);
            g38
        },
        ExprView::Method { obj, name, args } => {
            let g39 = match module_name(*obj) {
                Some(md) => {
                    let g40 = g.collect(
                        KindView::Module { module: md, name },
                        SrcView::Exprs { s: args },
                        Seq::empty(),
                    );
                    g40
                },
                None => {
                    let g41 = g.push(FrameView::Recv { name, args });
                    let g42 = g41.eval(*obj);
                    g42
                },
            };
            g39
        },
        ExprView::Call { callee, args } => {
            let g43 = match *callee {
                ExprView::Ident(n) => {
                    let g44 = g.collect(
                        KindView::Call { name: n },
                        SrcView::Exprs { s: args },
                        Seq::empty(),
                    );
                    g44
                },
                _ => {
                    let g45 = g.push(FrameView::Callee { args });
                    let g46 = g45.eval(*callee);
                    g46
                },
            };
            g43
        },
        ExprView::NamedCall { callee, args } => {
            let g47 = match *callee {
                ExprView::Ident(n) => {
                    let g48 = match g.fields_of(n) {
                        Some(_) => {
                            let g49 = g.collect(
                                KindView::Named { name: n, args },
                                SrcView::Named { s: args },
                                Seq::empty(),
                            );
                            g49
                        },
                        None => {
                            let m = "no struct named '"@ + n + "'"@;
                            let g50 = g.fail(m);
                            g50
                        },
                    };
                    g48
                },
                _ => {
                    let g51 = g.fail("named call requires a type name"@);
                    g51
                },
            };
            g47
        },
    };
    g1
}

pub open spec fn slice_upper(
    g: Mach,
    obj: ValueView,
    lo: Option<i64>,
    hi: Option<Box<ExprView>>,
) -> Mach {
    let g1 = match hi {
        Some(x) => {
            let g2 = g.push(FrameView::SliceHi { obj, lo });
            let g3 = g2.eval(*x);
            g3
        },
        None => {
            let o = slice_out(g.heap, obj, lo, None);
            let g4 = settle(g, o);
            g4
        },
    };
    g1
}

/// Assigns a value. A variable that is not in the current call is a global one.
pub open spec fn assign_to(g: Mach, target: ExprView, v: ValueView) -> Mach {
    let g1 = match target {
        ExprView::Ident(n) => {
            let g2 = if g.env.contains_key(n) {
                let g3 = g.set_env(n, v);
                g3
            } else {
                let g4 = g.set_global(n, v);
                g4
            };
            let g5 = g2.flow(FlowView::Normal);
            g5
        },
        ExprView::Field { obj, name } => {
            let g6 = g.push(FrameView::AssignField { name, val: v });
            let g7 = g6.eval(*obj);
            g7
        },
        ExprView::Index { obj, index } => {
            let g8 = g.push(FrameView::AssignIdx { index: *index, val: v });
            let g9 = g8.eval(*obj);
            g9
        },
        _ => {
            let g10 = g.fail("invalid assignment target"@);
            g10
        },
    };
    g1
}

/// Assigns to an element of a list or a map.
pub open spec fn assign_at(g: Mach, obj: ValueView, key: ValueView, val: ValueView) -> Mach {
    let g1 = match obj {
        ValueView::List(a) => {
            let g2 = match key {
                ValueView::Int(i) => {
                    let g3 = match list_at(g.heap, a) {
                        Some(s) => {
                            let g4 = if 0 <= i < s.len() {
                                let g5 = g.list_set(a, i as usize, val);
                                let g6 = g5.flow(FlowView::Normal);
                                g6
                            } else {
                                let g7 = g.fail("index out of range"@);
                                g7
                            };
                            g4
                        },
                        None => {
                            let g8 = g.fail("index out of range"@);
                            g8
                        },
                    };
                    g3
                },
                _ => {
                    let g9 = g.fail("bad index assignment"@);
                    g9
                },
            };
            g2
        },
        ValueView::Dict(a) => {
            let g10 = g.dict_set(a, key, val);
            let g11 = g10.flow(FlowView::Normal);
            g11
        },
        _ => {
            let g12 = g.fail("bad index assignment"@);
            g12
        },
    };
    g1
}

pub open spec fn if_next(
    g: Mach,
    elifs: Seq<(ExprView, Seq<StmtView>)>,
    i: usize,
    els: Option<Seq<StmtView>>,
) -> Mach {
    let g1 = if i < elifs.len() {
        let g2 = g.push(FrameView::If { then: elifs[i as int].1, elifs, i: (i + 1) as usize, els });
        let g3 = g2.eval(elifs[i as int].0);
        g3
    } else {
        let g4 = match els {
            Some(b) => {
                let g5 = g.run_from(b, 0);
                g5
            },
            None => {
                let g6 = g.flow(FlowView::Normal);
                g6
            },
        };
        g4
    };
    g1
}

pub open spec fn value_args(
    g: Mach,
    kind: KindView,
    src: SrcView,
    vals: Seq<ValueView>,
    v: ValueView,
) -> Mach {
    let g1 = match kind {
        KindView::Push { list } => {
            let g2 = g.list_push(list, v);
            g2
        },
        _ => {
            g
        },
    };
    let g3 = g1.collect(kind, src, vals.push(v));
    g3
}

/// A value inside a comprehension.
pub open spec fn value_comp(g: Mach, fr: FrameView, v: ValueView) -> Mach {
    let g1 = match fr {
        FrameView::CompCond { elem, var, cond, items, i, out, saved } => {
            let g2 = match truth(v) {
                Some(true) => {
                    let g3 = g.push(FrameView::CompElem { elem, var, cond, items, i, out, saved });
                    let g4 = g3.eval(elem);
                    g4
                },
                Some(false) => {
                    let g5 = comp_next(
                        g,
                        elem,
                        var,
                        cond,
                        items,
                        (if i < items.len() { (i + 1) as usize } else { i }),
                        out,
                        saved,
                    );
                    g5
                },
                None => {
                    let g6 = g.fail("condition must be a bool (Lumen has strict truthiness)"@);
                    g6
                },
            };
            g2
        },
        FrameView::CompElem { elem, var, cond, items, i, out, saved } => {
            let g7 = comp_next(
                g,
                elem,
                var,
                cond,
                items,
                (if i < items.len() { (i + 1) as usize } else { i }),
                out.push(v),
                saved,
            );
            g7
        },
        _ => {
            let g8 = g.fail("internal: stray value"@);
            g8
        },
    };
    g1
}

/// A value that a statement waits for.
pub open spec fn value_stmt(g: Mach, fr: FrameView, v: ValueView) -> Mach {
    let g1 = match fr {
        FrameView::Let { name } => {
            let g2 = g.set_env(name, v);
            let g3 = g2.flow(FlowView::Normal);
            g3
        },
        FrameView::AssignTo { target } => {
            let g4 = assign_to(g, target, v);
            g4
        },
        FrameView::AssignField { name, val } => {
            let g5 = match v {
                ValueView::Struct(a) => {
                    let g6 = g.field_set(a, name, val);
                    let g7 = g6.flow(FlowView::Normal);
                    g7
                },
                _ => {
                    let g8 = g.fail("field assignment on non-struct"@);
                    g8
                },
            };
            g5
        },
        FrameView::AssignIdx { index, val } => {
            let g9 = g.push(FrameView::AssignAt { obj: v, val });
            let g10 = g9.eval(index);
            g10
        },
        FrameView::AssignAt { obj, val } => {
            let g11 = assign_at(g, obj, v, val);
            g11
        },
        FrameView::Drop => {
            let g12 = g.flow(FlowView::Normal);
            g12
        },
        FrameView::Ret => {
            let g13 = g.flow(FlowView::Return { v });
            g13
        },
        FrameView::If { then, elifs, i, els } => {
            let g14 = match truth(v) {
                Some(true) => {
                    let g15 = g.run_from(then, 0);
                    g15
                },
                Some(false) => {
                    let g16 = if_next(g, elifs, i, els);
                    g16
                },
                None => {
                    let g17 = g.fail("condition must be a bool (Lumen has strict truthiness)"@);
                    g17
                },
            };
            g14
        },
        FrameView::While { cond, body } => {
            let g18 = match truth(v) {
                Some(true) => {
                    let g19 = g.push(FrameView::WhileBody { cond, body });
                    let g20 = g19.run_from(body, 0);
                    g20
                },
                Some(false) => {
                    let g21 = g.flow(FlowView::Normal);
                    g21
                },
                None => {
                    let g22 = g.fail("condition must be a bool (Lumen has strict truthiness)"@);
                    g22
                },
            };
            g18
        },
        FrameView::Raise => {
            let g23 = g.task(
                TaskView::Show { vals: seq![v], sep: ""@, quoted: false, goal: Goal::Raise },
            );
            g23
        },
        FrameView::TopEnd => {
            let g24 = g.done(None);
            g24
        },
        _ => {
            let g25 = g.fail("internal: stray value"@);
            g25
        },
    };
    g1
}

/// A value that an expression waits for.
pub open spec fn value_expr(g: Mach, fr: FrameView, v: ValueView) -> Mach {
    let g1 = match fr {
        FrameView::FStr { parts, i, acc } => {
            let g2 = g.push(FrameView::FStrText { parts, i, acc });
            let g3 = g2.task(
                TaskView::Show { vals: seq![v], sep: ""@, quoted: false, goal: Goal::Text },
            );
            g3
        },
        FrameView::FStrText { parts, i, acc } => {
            let g4 = match v {
                ValueView::Str(s) => {
                    let t = acc + s;
                    let g5 = g.text_parts(parts, i, t);
                    g5
                },
                _ => {
                    let g6 = g.fail("internal: not a text"@);
                    g6
                },
            };
            g4
        },
        FrameView::Unary { op } => {
            let o = unary_out(op, v);
            let g7 = settle(g, o);
            g7
        },
        FrameView::BinL { op, rhs } => {
            let g8 = g.push(FrameView::BinR { op, left: v });
            let g9 = g8.eval(rhs);
            g9
        },
        FrameView::BinR { op, left } => {
            let o = binop_spec(g.heap, op, left, v);
            let g10 = settle(g, o);
            g10
        },
        FrameView::ShortL { op, rhs } => {
            let g11 = match truth(v) {
                Some(b) => {
                    let g12 = if b == (op == BinOp::Or) {
                        let g13 = g.give(ValueView::Bool(b));
                        g13
                    } else {
                        let g14 = g.push(FrameView::ShortR);
                        let g15 = g14.eval(rhs);
                        g15
                    };
                    g12
                },
                None => {
                    let g16 = g.fail("condition must be a bool (Lumen has strict truthiness)"@);
                    g16
                },
            };
            g11
        },
        FrameView::ShortR => {
            let g17 = match truth(v) {
                Some(b) => {
                    let g18 = g.give(ValueView::Bool(b));
                    g18
                },
                None => {
                    let g19 = g.fail("condition must be a bool (Lumen has strict truthiness)"@);
                    g19
                },
            };
            g17
        },
        FrameView::IndexObj { index } => {
            let g20 = g.push(FrameView::IndexAt { obj: v });
            let g21 = g20.eval(index);
            g21
        },
        FrameView::IndexAt { obj } => {
            let o = index_out(g.heap, obj, v);
            let g22 = settle(g, o);
            g22
        },
        FrameView::SliceObj { lo, hi } => {
            let g23 = match lo {
                Some(x) => {
                    let g24 = g.push(FrameView::SliceLo { obj: v, hi });
                    let g25 = g24.eval(*x);
                    g25
                },
                None => {
                    let g26 = slice_upper(g, v, None, hi);
                    g26
                },
            };
            g23
        },
        FrameView::SliceLo { obj, hi } => {
            let g27 = match v {
                ValueView::Int(n) => {
                    let g28 = slice_upper(g, obj, Some(n), hi);
                    g28
                },
                _ => {
                    let g29 = g.fail("slice bounds must be integers"@);
                    g29
                },
            };
            g27
        },
        FrameView::SliceHi { obj, lo } => {
            let g30 = match v {
                ValueView::Int(n) => {
                    let o = slice_out(g.heap, obj, lo, Some(n));
                    let g31 = settle(g, o);
                    g31
                },
                _ => {
                    let g32 = g.fail("slice bounds must be integers"@);
                    g32
                },
            };
            g30
        },
        FrameView::Field { name } => {
            let o = field_out(g.heap, v, name);
            let g33 = settle(g, o);
            g33
        },
        FrameView::Cond { then, els } => {
            let g34 = match truth(v) {
                Some(true) => {
                    let g35 = g.eval(then);
                    g35
                },
                Some(false) => {
                    let g36 = g.eval(els);
                    g36
                },
                None => {
                    let g37 = g.fail("condition must be a bool (Lumen has strict truthiness)"@);
                    g37
                },
            };
            g34
        },
        _ => {
            let g38 = g.fail("internal: stray value"@);
            g38
        },
    };
    g1
}

/// Goes on with a value.
pub open spec fn step_value(g: Mach, fr: FrameView, v: ValueView) -> Mach {
    let g1 = match fr {
        FrameView::Args { kind, src, vals } => {
            let g2 = value_args(g, kind, src, vals, v);
            g2
        },
        FrameView::Recv { name, args } => {
            let g3 = method_call(g, v, name, args);
            g3
        },
        FrameView::Meth1 { recv, name, args } => {
            let g4 = method_one(g, recv, name, args, v);
            g4
        },
        FrameView::Meth2 { recv, first } => {
            let g5 = method_two(g, recv, first, v);
            g5
        },
        FrameView::Callee { args } => {
            let g6 = g.collect(
                KindView::CallValue { f: v },
                SrcView::Exprs { s: args },
                Seq::empty(),
            );
            g6
        },
        FrameView::RangeLo { hi, use_ } => {
            let g7 = g.push(FrameView::RangeHi { lo: v, use_ });
            let g8 = g7.eval(hi);
            g8
        },
        FrameView::RangeHi { lo, use_ } => {
            let g9 = match range_items(lo, v) {
                Some(items) => {
                    let g10 = got_items(g, use_, items);
                    g10
                },
                None => {
                    let g11 = g.fail("range bounds must be ints"@);
                    g11
                },
            };
            g9
        },
        FrameView::Iter { use_ } => {
            let g12 = match items_of(g.heap, v) {
                Some(items) => {
                    let g13 = got_items(g, use_, items);
                    g13
                },
                None => {
                    let g14 = g.fail("for-loop target is not iterable"@);
                    g14
                },
            };
            g12
        },
        FrameView::CompCond { .. } => {
            let g15 = value_comp(g, fr, v);
            g15
        },
        FrameView::CompElem { .. } => {
            let g16 = value_comp(g, fr, v);
            g16
        },
        FrameView::Let { .. } => {
            let g17 = value_stmt(g, fr, v);
            g17
        },
        FrameView::AssignTo { .. } => {
            let g18 = value_stmt(g, fr, v);
            g18
        },
        FrameView::AssignField { .. } => {
            let g19 = value_stmt(g, fr, v);
            g19
        },
        FrameView::AssignIdx { .. } => {
            let g20 = value_stmt(g, fr, v);
            g20
        },
        FrameView::AssignAt { .. } => {
            let g21 = value_stmt(g, fr, v);
            g21
        },
        FrameView::Drop => {
            let g22 = value_stmt(g, fr, v);
            g22
        },
        FrameView::Ret => {
            let g23 = value_stmt(g, fr, v);
            g23
        },
        FrameView::If { .. } => {
            let g24 = value_stmt(g, fr, v);
            g24
        },
        FrameView::While { .. } => {
            let g25 = value_stmt(g, fr, v);
            g25
        },
        FrameView::Raise => {
            let g26 = value_stmt(g, fr, v);
            g26
        },
        FrameView::TopEnd => {
            let g27 = value_stmt(g, fr, v);
            g27
        },
        _ => {
            let g28 = value_expr(g, fr, v);
            g28
        },
    };
    g1
}

/// A `return`. A call of the current function to itself becomes a jump, once its
/// arguments are known.
pub open spec fn step_return(g: Mach, o: Option<ExprView>) -> Mach {
    let g1 = match o {
        Some(x) => {
            let g2 = match tail_args(g.tail, x) {
                Some(args) => {
                    let saved = g.tail;
                    let g3 = g.set_tail(None);
                    let g4 = g3.collect(
                        KindView::Tail { saved },
                        SrcView::Exprs { s: args },
                        Seq::empty(),
                    );
                    g4
                },
                None => {
                    let g5 = g.push(FrameView::Ret);
                    let g6 = g5.eval(x);
                    g6
                },
            };
            g2
        },
        None => {
            let g7 = g.flow(FlowView::Return { v: ValueView::Nil });
            g7
        },
    };
    g1
}

/// Starts on a statement.
pub open spec fn step_exec(g: Mach, s: StmtView) -> Mach {
    let g1 = match s {
        StmtView::Let { name, value, .. } => {
            let g2 = g.push(FrameView::Let { name });
            let g3 = g2.eval(value);
            g3
        },
        StmtView::Assign { target, value } => {
            let g4 = g.push(FrameView::AssignTo { target });
            let g5 = g4.eval(value);
            g5
        },
        StmtView::ExprStmt(x) => {
            let g6 = g.push(FrameView::Drop);
            let g7 = g6.eval(x);
            g7
        },
        StmtView::Return(o) => {
            let g8 = step_return(g, o);
            g8
        },
        StmtView::If { cond, then, elifs, els } => {
            let g9 = g.push(FrameView::If { then, elifs, i: 0, els });
            let g10 = g9.eval(cond);
            g10
        },
        StmtView::While { cond, body } => {
            let g11 = g.push(FrameView::While { cond, body });
            let g12 = g11.eval(cond);
            g12
        },
        StmtView::For { var, iter, body } => {
            let g13 = iterate(g, iter, UseView::For { var, body });
            g13
        },
        StmtView::Break => {
            let g14 = g.flow(FlowView::Break);
            g14
        },
        StmtView::Continue => {
            let g15 = g.flow(FlowView::Continue);
            g15
        },
        StmtView::Raise(x) => {
            let g16 = g.push(FrameView::Raise);
            let g17 = g16.eval(x);
            g17
        },
        StmtView::Try { body, catch_var, catch_body } => {
            let g18 = g.push(FrameView::Try { var: catch_var, body: catch_body });
            let g19 = g18.run_from(body, 0);
            g19
        },
        StmtView::SrcLine(n) => {
            let g20 = g.set_line(n);
            let g21 = g20.flow(FlowView::Normal);
            g21
        },
    };
    g1
}

/// The next statement of a block.
pub open spec fn step_run(g: Mach, stmts: Seq<StmtView>, i: usize) -> Mach {
    let g1 = if i < stmts.len() {
        let g2 = g.push(FrameView::Block { stmts, i: (i + 1) as usize });
        let g3 = g2.exec(stmts[i as int]);
        g3
    } else {
        let g4 = g.flow(FlowView::Normal);
        g4
    };
    g1
}

/// The next statement outside of functions; after the last one, `main`, unless one of
/// them has called it.
pub open spec fn step_top(g: Mach, prog: Seq<ItemView>, i: usize, called: bool) -> Mach {
    let g1 = if i < prog.len() {
        let g2 = match prog[i as int] {
            ItemView::Stmt(s) => {
                let now = called || calls_main(s);
                let g3 = g.push(FrameView::Top { prog, i: (i + 1) as usize, called: now });
                let g4 = g3.exec(s);
                g4
            },
            _ => {
                let g5 = g.next_top(prog, (i + 1) as usize, called);
                g5
            },
        };
        g2
    } else {
        let g6 = match g.func_of("main"@) {
            Some(d) => {
                let g7 = if called {
                    let g8 = g.done(None);
                    g8
                } else {
                    let g9 = g.push(FrameView::TopEnd);
                    let g10 = g9.enter(d, Seq::empty(), true);
                    g10
                };
                g7
            },
            None => {
                let g11 = g.done(None);
                g11
            },
        };
        g6
    };
    g1
}

/// Goes on after a statement.
pub open spec fn step_flow(g: Mach, fr: FrameView, f: FlowView) -> Mach {
    let g1 = match fr {
        FrameView::Block { stmts, i } => {
            let g2 = match f {
                FlowView::Normal => {
                    let g3 = g.run_from(stmts, i);
                    g3
                },
                _ => {
                    let g4 = g.flow(f);
                    g4
                },
            };
            g2
        },
        FrameView::ForBody { var, body, items, i } => {
            let g5 = match f {
                FlowView::Break => {
                    let g6 = g.flow(FlowView::Normal);
                    g6
                },
                FlowView::Normal => {
                    let g7 = for_next(g, var, body, items, i);
                    g7
                },
                FlowView::Continue => {
                    let g8 = for_next(g, var, body, items, i);
                    g8
                },
                _ => {
                    let g9 = g.flow(f);
                    g9
                },
            };
            g5
        },
        FrameView::WhileBody { cond, body } => {
            let g10 = match f {
                FlowView::Break => {
                    let g11 = g.flow(FlowView::Normal);
                    g11
                },
                FlowView::Normal => {
                    let g12 = g.push(FrameView::While { cond, body });
                    let g13 = g12.eval(cond);
                    g13
                },
                FlowView::Continue => {
                    let g14 = g.push(FrameView::While { cond, body });
                    let g15 = g14.eval(cond);
                    g15
                },
                _ => {
                    let g16 = g.flow(f);
                    g16
                },
            };
            g10
        },
        FrameView::Call { env, tail, tramp } => {
            let g17 = match f {
                FlowView::Return { v } => {
                    let g18 = g.leave(env, tail);
                    let g19 = g18.give(v);
                    g19
                },
                FlowView::TailCall { vals } => {
                    let g20 = match tramp {
                        Some(d) => {
                            let g21 = g.again(d, vals, env, tail);
                            g21
                        },
                        None => {
                            let g22 = g.leave(env, tail);
                            let g23 = g22.give(ValueView::Nil);
                            g23
                        },
                    };
                    g20
                },
                _ => {
                    let g24 = g.leave(env, tail);
                    let g25 = g24.give(ValueView::Nil);
                    g25
                },
            };
            g17
        },
        FrameView::Top { prog, i, called } => {
            let g26 = g.next_top(prog, i, called);
            g26
        },
        _ => {
            let g27 = g.flow(f);
            g27
        },
    };
    g1
}

/// Leaves what was being done, up to a `try`.
pub open spec fn step_error(g: Mach, fr: FrameView, m: Seq<char>) -> Mach {
    let g1 = match fr {
        FrameView::Try { var, body } => {
            let g2 = g.set_env(var, ValueView::Str(m));
            let g3 = g2.run_from(body, 0);
            g3
        },
        FrameView::Call { env, tail, tramp } => {
            let g4 = g.leave(env, tail);
            let g5 = g4.fail(m);
            g5
        },
        _ => {
            let g6 = g.fail(m);
            g6
        },
    };
    g1
}

/// Tries a task by what is known of floats.
pub open spec fn step_task(g: Mach, t: TaskView) -> Mach {
    let g1 = match task_out(g.heap, g.texts, g.nums, t) {
        OutView::Wait(a) => {
            let g2 = g.request_for(a, t);
            g2
        },
        OutView::List(s) => {
            let g3 = match t {
                TaskView::Sort { list } => {
                    let g4 = g.set_items(list, s);
                    let g5 = g4.give(ValueView::Nil);
                    g5
                },
                _ => {
                    let g6 = new_list(g, s);
                    g6
                },
            };
            g3
        },
        o => {
            let g7 = settle(g, o);
            g7
        },
    };
    g1
}

/// One step.
pub open spec fn step_ctrl(g: Mach, c: CtrlView) -> Mach {
    let g1 = match c {
        CtrlView::Eval { e } => {
            let g2 = step_eval(g, e);
            g2
        },
        CtrlView::Exec { s } => {
            let g3 = step_exec(g, s);
            g3
        },
        CtrlView::Run { stmts, i } => {
            let g4 = step_run(g, stmts, i);
            g4
        },
        CtrlView::Collect { kind, src, vals } => {
            let g5 = collect_next(g, kind, src, vals);
            g5
        },
        CtrlView::FStr { parts, i, acc } => {
            let g6 = text_next(g, parts, i, acc);
            g6
        },
        CtrlView::Value { v } => {
            let (g7, fr0) = g.pop_frame();
            let g8 = match fr0 {
                Some(fr) => {
                    let g9 = step_value(g7, fr, v);
                    g9
                },
                None => {
                    let g10 = g7.done(Some(v));
                    g10
                },
            };
            g8
        },
        CtrlView::Flow { f } => {
            let (g11, fr0) = g.pop_frame();
            let g12 = match fr0 {
                Some(fr) => {
                    let g13 = step_flow(g11, fr, f);
                    g13
                },
                None => {
                    let g14 = g11.done(None);
                    g14
                },
            };
            g12
        },
        CtrlView::Error { m } => {
            let (g15, fr0) = g.pop_frame();
            let g16 = match fr0 {
                Some(fr) => {
                    let g17 = step_error(g15, fr, m);
                    g17
                },
                None => {
                    let g18 = g15.failed(m);
                    g18
                },
            };
            g16
        },
        CtrlView::Task { t } => {
            let g19 = step_task(g, t);
            g19
        },
        CtrlView::NextTop { prog, i, called } => {
            let g20 = step_top(g, prog, i, called);
            g20
        },
        CtrlView::Await => {
            g
        },
        CtrlView::Done { val } => {
            let g21 = g.done(val);
            g21
        },
        CtrlView::Failed { m } => {
            let g22 = g.failed(m);
            g22
        },
    };
    g1
}

impl<'a> Interp<'a> {
    fn for_next(&mut self, var: &'a str, body: &'a Vec<Stmt>, items: Vec<Value>, i: usize)
        ensures
            final(self)@ == for_next(old(self)@, var@, stmts_view(body@), values_view(items@), i),
    {
        assert(values_view(items@).len() == items@.len());
        if i < items.len() {
            assert(values_view(items@)[i as int] == items@[i as int]@);
            self.set_env(var, items[i].clone());
            self.push(Frame::ForBody { var, body, items, i: i + 1 });
            self.run_from(body, 0);
        } else {
            self.flow(Flow::Normal);
        }
    }

    fn comp_next(
        &mut self,
        elem: &'a Expr,
        var: &'a str,
        cond: &'a Option<Box<Expr>>,
        items: Vec<Value>,
        i: usize,
        out: Vec<Value>,
        saved: Option<Value>,
    )
        ensures
            final(self)@ == comp_next(
                old(self)@,
                elem@,
                var@,
                optbox_view(*cond),
                values_view(items@),
                i,
                values_view(out@),
                opt_value(saved),
            ),
    {
        assert(values_view(items@).len() == items@.len());
        if i < items.len() {
            assert(values_view(items@)[i as int] == items@[i as int]@);
            self.set_env(var, items[i].clone());
            assert(optbox_view(*cond) is Some == cond is Some);
            match cond {
                Some(c) => {
                    self.push(Frame::CompCond { elem, var, cond, items, i, out, saved });
                    self.eval(&**c);
                },
                None => {
                    self.push(Frame::CompElem { elem, var, cond, items, i, out, saved });
                    self.eval(elem);
                },
            }
        } else {
            match saved {
                Some(x) => {
                    self.set_env(var, x);
                },
                None => {
                    self.del_env(var);
                },
            }
            self.new_list(out);
        }
    }

    fn got_items(&mut self, use_: Use<'a>, items: Vec<Value>)
        ensures
            final(self)@ == got_items(old(self)@, use_@, values_view(items@)),
    {
        match use_ {
            Use::List => {
                self.new_list(items);
            },
            Use::For { var, body } => {
                self.for_next(var, body, items, 0);
            },
            Use::Comp { elem, var, cond } => {
                let saved = self.env_of(var);
                let none: Vec<Value> = Vec::new();
                assert(values_view(none@) =~= Seq::empty());
                self.comp_next(elem, var, cond, items, 0, none, saved);
            },
        }
    }

    fn iterate(&mut self, e: &'a Expr, use_: Use<'a>)
        ensures
            final(self)@ == iterate(old(self)@, e@, use_@),
    {
        match e {
            Expr::Range { lo, hi } => {
                assert(lo@ == expr_view(**lo) && hi@ == expr_view(**hi));
                self.push(Frame::RangeLo { hi: &**hi, use_ });
                self.eval(&**lo);
            },
            _ => {
                self.push(Frame::Iter { use_ });
                self.eval(e);
            },
        }
    }

    fn call_value(&mut self, f: Value, vals: Vec<Value>)
        ensures
            final(self)@ == call_value(old(self)@, f@, values_view(vals@)),
    {
        match find_func(self.heap(), &f) {
            Some((def, caps)) => {
                self.enter(def, chain(caps, vals), false);
            },
            None => {
                self.fail("attempted to call a non-function value");
            },
        }
    }

    fn call_named(&mut self, name: &'a str, vals: Vec<Value>)
        ensures
            final(self)@ == call_named(old(self)@, name@, values_view(vals@)),
    {
        match call_builtin(self.heap(), name, &vals) {
            Some(o) => {
                self.settle(o);
            },
            None => {
                match self.fields_of(name) {
                    Some(fs) => {
                        let a = self.add_obj(
                            Obj::Struct {
                                name: name.to_owned(),
                                fields: fields_by_place(fs, vals),
                            },
                        );
                        self.give(Value::Struct(a));
                    },
                    None => {
                        if self.is_extern(name) {
                            self.request(Action::Extern { name: name.to_owned(), args: vals });
                        } else {
                            match self.func_of(name) {
                                Some(d) => {
                                    self.enter(d, vals, true);
                                },
                                None => {
                                    match self.var_of(name) {
                                        Some(f) => {
                                            match &f {
                                                Value::Func(_) => {
                                                    self.call_value(f, vals);
                                                },
                                                _ => {
                                                    let mut m = "undefined function: ".to_owned();
                                                    m.append(name);
                                                    self.fail(m.as_str());
                                                },
                                            }
                                        },
                                        None => {
                                            let mut m = "undefined function: ".to_owned();
                                            m.append(name);
                                            self.fail(m.as_str());
                                        },
                                    }
                                },
                            }
                        }
                    },
                }
            },
        }
    }

    fn finish(&mut self, kind: Kind<'a>, vals: Vec<Value>)
        ensures
            final(self)@ == finish(old(self)@, kind@, values_view(vals@)),
    {
        match kind {
            Kind::List => {
                self.new_list(vals);
            },
            Kind::MapLit => {
                let a = self.add_obj(Obj::Dict(lumen_map(get_pairs(vals))));
                self.give(Value::Dict(a));
            },
            Kind::Closure { def } => {
                self.new_func(def, vals);
            },
            Kind::Module { module, name } => {
                match lookup(module, name) {
                    Some(_) => {
                        self.request(
                            Action::Module {
                                module: module.to_owned(),
                                name: name.to_owned(),
                                args: vals,
                            },
                        );
                    },
                    None => {
                        let mut m = module.to_owned();
                        m.append(": no function '");
                        m.append(name);
                        m.append("'");
                        self.fail(m.as_str());
                    },
                }
            },
            Kind::Call { name } => {
                self.call_named(name, vals);
            },
            Kind::CallValue { f } => {
                self.call_value(f, vals);
            },
            Kind::Method { def, recv } => {
                let mut all: Vec<Value> = Vec::new();
                all.push(recv);
                assert(values_view(all@) =~= seq![recv@]);
                self.enter(def, chain(all, vals), true);
            },
            Kind::Push { .. } => {
                self.give(Value::Nil);
            },
            Kind::Named { name, args } => {
                match self.fields_of(name) {
                    Some(fs) => {
                        let a = self.add_obj(
                            Obj::Struct {
                                name: name.to_owned(),
                                fields: fields_by_name(fs, args, vals),
                            },
                        );
                        self.give(Value::Struct(a));
                    },
                    None => {
                        let mut m = "no struct named '".to_owned();
                        m.append(name);
                        m.append("'");
                        self.fail(m.as_str());
                    },
                }
            },
            Kind::Tail { saved } => {
                self.set_tail(saved);
                self.flow(Flow::TailCall { vals });
            },
        }
    }

    fn collect_next(&mut self, kind: Kind<'a>, src: Src<'a>, vals: Vec<Value>)
        ensures
            final(self)@ == collect_next(old(self)@, kind@, src@, values_view(vals@)),
    {
        assert(values_view(vals@).len() == vals@.len());
        match get_expr(&src, vals.len()) {
            Some(e) => {
                self.push(Frame::Args { kind, src, vals });
                self.eval(e);
            },
            None => {
                self.finish(kind, vals);
            },
        }
    }

    fn text_next(&mut self, parts: &'a Vec<FStrPart>, i: usize, acc: String)
        ensures
            final(self)@ == text_next(old(self)@, parts_view(parts@), i, acc@),
    {
        proof { parts_facts(parts@); }
        if i < parts.len() {
            assert(parts_view(parts@)[i as int] == parts@[i as int]@);
            match &parts[i] {
                FStrPart::Lit(l) => {
                    let mut t = acc.as_str().to_owned();
                    t.append(l.as_str());
                    self.text_parts(parts, i + 1, t);
                },
                FStrPart::Expr(x) => {
                    self.push(Frame::FStr { parts, i: i + 1, acc });
                    self.eval(x);
                },
            }
        } else {
            self.give(text_value(acc));
        }
    }

    fn method_call(&mut self, recv: Value, name: &'a str, args: &'a Vec<Expr>)
        ensures
            final(self)@ == method_call(old(self)@, recv@, name@, exprs_view(args@)),
    {
        proof { exprs_facts(args@); }
        match find_way(&recv, name) {
            MethodWay::Now => {
                match call_method_now(self.heap(), &recv, name) {
                    Some(o) => {
                        self.settle(o);
                    },
                    None => {
                        let mut m = "no method '".to_owned();
                        m.append(name);
                        m.append("' on value");
                        self.fail(m.as_str());
                    },
                }
            },
            MethodWay::Push => {
                match recv {
                    Value::List(a) => {
                        let none: Vec<Value> = Vec::new();
                        assert(values_view(none@) =~= Seq::empty());
                        self.collect(Kind::Push { list: a }, Src::Exprs { s: args }, none);
                    },
                    _ => {
                        let mut m = "no method '".to_owned();
                        m.append(name);
                        m.append("' on value");
                        self.fail(m.as_str());
                    },
                }
            },
            MethodWay::Reverse => {
                match recv {
                    Value::List(a) => {
                        self.list_reverse(a);
                        self.give(Value::Nil);
                    },
                    _ => {
                        let mut m = "no method '".to_owned();
                        m.append(name);
                        m.append("' on value");
                        self.fail(m.as_str());
                    },
                }
            },
            MethodWay::Sort => {
                match recv {
                    Value::List(a) => {
                        self.task(Task::Sort { list: a });
                    },
                    _ => {
                        let mut m = "no method '".to_owned();
                        m.append(name);
                        m.append("' on value");
                        self.fail(m.as_str());
                    },
                }
            },
            MethodWay::Pop => {
                match recv {
                    Value::List(a) => {
                        let last = self.list_pop(a);
                        match last {
                            Some(x) => {
                                self.give(x);
                            },
                            None => {
                                self.fail("pop from empty list");
                            },
                        }
                    },
                    _ => {
                        let mut m = "no method '".to_owned();
                        m.append(name);
                        m.append("' on value");
                        self.fail(m.as_str());
                    },
                }
            },
            MethodWay::First => {
                if args.len() == 0 {
                    self.fail("missing argument");
                } else {
                    assert(exprs_view(args@)[0] == args@[0]@);
                    self.push(Frame::Meth1 { recv, name, args });
                    self.eval(&args[0]);
                }
            },
            MethodWay::Other => {
                match find_struct(self.heap(), &recv) {
                    Some(owner) => {
                        match self.find_method_def(owner.as_str(), name) {
                            Some(def) => {
                                let none: Vec<Value> = Vec::new();
                                assert(values_view(none@) =~= Seq::empty());
                                self.collect(
                                    Kind::Method { def, recv },
                                    Src::Exprs { s: args },
                                    none,
                                );
                            },
                            None => {
                                let mut m = "no method '".to_owned();
                                m.append(name);
                                m.append("' on value");
                                self.fail(m.as_str());
                            },
                        }
                    },
                    None => {
                        let mut m = "no method '".to_owned();
                        m.append(name);
                        m.append("' on value");
                        self.fail(m.as_str());
                    },
                }
            },
        }
    }

    fn list_one(&mut self, a: usize, name: &'a str, args: &'a Vec<Expr>, v: Value)
        ensures
            final(self)@ == list_one(old(self)@, a, name@, exprs_view(args@), v@),
    {
        proof { exprs_facts(args@); }
        if str_eq(name, "insert") {
            match &v {
                Value::Int(_) => {
                    if args.len() < 2 {
                        self.fail("missing argument");
                    } else {
                        assert(exprs_view(args@)[1] == args@[1]@);
                        self.push(Frame::Meth2 { recv: Value::List(a), first: v });
                        self.eval(&args[1]);
                    }
                },
                _ => {
                    self.fail("insert index must be int");
                },
            }
        } else {
            match get_list(self.heap(), a) {
                Some(s) => {
                    match call_list_method(s, name, &v) {
                        Some(o) => {
                            self.settle(o);
                        },
                        None => {
                            let mut m = "no method '".to_owned();
                            m.append(name);
                            m.append("' on value");
                            self.fail(m.as_str());
                        },
                    }
                },
                None => {
                    let mut m = "no method '".to_owned();
                    m.append(name);
                    m.append("' on value");
                    self.fail(m.as_str());
                },
            }
        }
    }

    fn dict_one(&mut self, a: usize, name: &'a str, args: &'a Vec<Expr>, v: Value)
        ensures
            final(self)@ == dict_one(old(self)@, a, name@, exprs_view(args@), v@),
    {
        proof { exprs_facts(args@); }
        if str_eq(name, "remove") {
            let old_value = self.dict_remove(a, &v);
            match old_value {
                Some(x) => {
                    self.give(x);
                },
                None => {
                    self.give(Value::Nil);
                },
            }
        } else {
            match get_dict(self.heap(), a) {
                Some(s) => {
                    if str_eq(name, "get") {
                        match s.get(&v) {
                            Some(x) => {
                                self.give(x);
                            },
                            None => {
                                if args.len() > 1 {
                                    assert(exprs_view(args@)[1] == args@[1]@);
                                    self.eval(&args[1]);
                                } else {
                                    self.give(Value::Nil);
                                }
                            },
                        }
                    } else {
                        let found = s.has(&v);
                        self.give(Value::Bool(found));
                    }
                },
                None => {
                    let mut m = "no method '".to_owned();
                    m.append(name);
                    m.append("' on value");
                    self.fail(m.as_str());
                },
            }
        }
    }

    fn text_one(&mut self, t: Value, name: &'a str, args: &'a Vec<Expr>, v: Value)
        ensures
            final(self)@ == text_one(old(self)@, t@, name@, exprs_view(args@), v@),
    {
        proof { exprs_facts(args@); }
        match &t {
            Value::Str(s) => {
                if str_eq(name, "replace") {
                    match &v {
                        Value::Str(_) => {
                            if args.len() < 2 {
                                self.fail("missing argument");
                            } else {
                                assert(exprs_view(args@)[1] == args@[1]@);
                                self.push(Frame::Meth2 { recv: t.clone(), first: v });
                                self.eval(&args[1]);
                            }
                        },
                        _ => {
                            self.fail("replace arg must be a string");
                        },
                    }
                } else {
                    match call_text_method(self.heap(), s.as_str(), name, &v) {
                        Some(o) => {
                            self.settle(o);
                        },
                        None => {
                            let mut m = "no method '".to_owned();
                            m.append(name);
                            m.append("' on value");
                            self.fail(m.as_str());
                        },
                    }
                }
            },
            _ => {
                let mut m = "no method '".to_owned();
                m.append(name);
                m.append("' on value");
                self.fail(m.as_str());
            },
        }
    }

    fn method_one(&mut self, recv: Value, name: &'a str, args: &'a Vec<Expr>, v: Value)
        ensures
            final(self)@ == method_one(old(self)@, recv@, name@, exprs_view(args@), v@),
    {
        match &recv {
            Value::List(a) => {
                self.list_one(*a, name, args, v);
            },
            Value::Dict(a) => {
                self.dict_one(*a, name, args, v);
            },
            _ => {
                self.text_one(recv, name, args, v);
            },
        }
    }

    fn method_two(&mut self, recv: Value, first: Value, v: Value)
        ensures
            final(self)@ == method_two(old(self)@, recv@, first@, v@),
    {
        match (&recv, &first) {
            (Value::List(a), Value::Int(i)) => {
                match get_list(self.heap(), *a) {
                    Some(s) => {
                        let n: usize = s.len();
                        if 0 <= *i && *i as u64 <= n as u64 {
                            self.list_insert(*a, *i as usize, v);
                            self.give(Value::Nil);
                        } else {
                            self.fail("insert index out of range");
                        }
                    },
                    None => {
                        self.fail("insert index out of range");
                    },
                }
            },
            (Value::Str(s), Value::Str(p)) => {
                match &v {
                    Value::Str(rep) => {
                        self.give(text_value(replace_text(s.as_str(), p.as_str(), rep.as_str())));
                    },
                    _ => {
                        self.fail("replace arg must be a string");
                    },
                }
            },
            _ => {
                self.fail("internal: no such method");
            },
        }
    }

    fn step_eval(&mut self, e: &'a Expr)
        ensures
            final(self)@ == step_eval(old(self)@, e@),
    {
        match e {
            Expr::Lambda { .. } => {
                self.fail("internal: unlifted lambda in interpreter");
            },
            Expr::Closure { fn_name, captures } => {
                match self.func_of(fn_name.as_str()) {
                    Some(def) => {
                        let none: Vec<Value> = Vec::new();
                        assert(values_view(none@) =~= Seq::empty());
                        self.collect(Kind::Closure { def }, Src::Exprs { s: captures }, none);
                    },
                    None => {
                        let mut m = "internal: unknown closure fn ".to_owned();
                        m.append(fn_name.as_str());
                        self.fail(m.as_str());
                    },
                }
            },
            Expr::Int(n) => {
                self.give(Value::Int(wrap48(*n)));
            },
            Expr::Float(b) => {
                self.give(Value::Float(*b));
            },
            Expr::Str(s) => {
                self.give(Value::Str(s.clone()));
            },
            Expr::Bool(b) => {
                self.give(Value::Bool(*b));
            },
            Expr::Nil => {
                self.give(Value::Nil);
            },
            Expr::SelfExpr => {
                match self.env_of("self") {
                    Some(v) => {
                        self.give(v);
                    },
                    None => {
                        self.fail("self not in scope");
                    },
                }
            },
            Expr::Ident(n) => {
                match self.var_of(n.as_str()) {
                    Some(v) => {
                        self.give(v);
                    },
                    None => {
                        match self.func_of(n.as_str()) {
                            Some(d) => {
                                let none: Vec<Value> = Vec::new();
                                assert(values_view(none@) =~= Seq::empty());
                                self.new_func(d, none);
                            },
                            None => {
                                let mut m = "undefined variable: ".to_owned();
                                m.append(n.as_str());
                                self.fail(m.as_str());
                            },
                        }
                    },
                }
            },
            Expr::FStr(ps) => {
                self.text_parts(ps, 0, "".to_owned());
            },
            Expr::List(xs) => {
                let none: Vec<Value> = Vec::new();
                assert(values_view(none@) =~= Seq::empty());
                self.collect(Kind::List, Src::Exprs { s: xs }, none);
            },
            Expr::MapLit(kvs) => {
                let none: Vec<Value> = Vec::new();
                assert(values_view(none@) =~= Seq::empty());
                self.collect(Kind::MapLit, Src::Pairs { s: kvs }, none);
            },
            Expr::Range { .. } => {
                self.iterate(e, Use::List);
            },
            Expr::IfElse { cond, then, els } => {
                self.push(Frame::Cond { then: &**then, els: &**els });
                self.eval(&**cond);
            },
            Expr::ListComp { elem, var, iter, cond } => {
                self.iterate(&**iter, Use::Comp { elem: &**elem, var: var.as_str(), cond });
            },
            Expr::Unary { op, expr } => {
                self.push(Frame::Unary { op: *op });
                self.eval(&**expr);
            },
            Expr::Binary { op, lhs, rhs } => {
                if *op == BinOp::And || *op == BinOp::Or {
                    self.push(Frame::ShortL { op: *op, rhs: &**rhs });
                    self.eval(&**lhs);
                } else {
                    self.push(Frame::BinL { op: *op, rhs: &**rhs });
                    self.eval(&**lhs);
                }
            },
            Expr::Index { obj, index } => {
                self.push(Frame::IndexObj { index: &**index });
                self.eval(&**obj);
            },
            Expr::Slice { obj, lo, hi } => {
                self.push(Frame::SliceObj { lo, hi });
                self.eval(&**obj);
            },
            Expr::Field { obj, name } => {
                self.push(Frame::Field { name: name.as_str() });
                self.eval(&**obj);
            },
            Expr::Method { obj, name, args } => {
                match find_module_name(obj) {
                    Some(md) => {
                        let none: Vec<Value> = Vec::new();
                        assert(values_view(none@) =~= Seq::empty());
                        self.collect(
                            Kind::Module { module: md, name: name.as_str() },
                            Src::Exprs { s: args },
                            none,
                        );
                    },
                    None => {
                        self.push(Frame::Recv { name: name.as_str(), args });
                        self.eval(&**obj);
                    },
                }
            },
            Expr::Call { callee, args } => {
                assert(callee@ == expr_view(**callee));
                match &**callee {
                    Expr::Ident(n) => {
                        let none: Vec<Value> = Vec::new();
                        assert(values_view(none@) =~= Seq::empty());
                        self.collect(Kind::Call { name: n.as_str() }, Src::Exprs { s: args }, none);
                    },
                    _ => {
                        self.push(Frame::Callee { args });
                        self.eval(&**callee);
                    },
                }
            },
            Expr::NamedCall { callee, args } => {
                assert(callee@ == expr_view(**callee));
                match &**callee {
                    Expr::Ident(n) => {
                        match self.fields_of(n.as_str()) {
                            Some(_) => {
                                let none: Vec<Value> = Vec::new();
                                assert(values_view(none@) =~= Seq::empty());
                                self.collect(
                                    Kind::Named { name: n.as_str(), args },
                                    Src::Named { s: args },
                                    none,
                                );
                            },
                            None => {
                                let mut m = "no struct named '".to_owned();
                                m.append(n.as_str());
                                m.append("'");
                                self.fail(m.as_str());
                            },
                        }
                    },
                    _ => {
                        self.fail("named call requires a type name");
                    },
                }
            },
        }
    }

    fn slice_upper(&mut self, obj: Value, lo: Option<i64>, hi: &'a Option<Box<Expr>>)
        ensures
            final(self)@ == slice_upper(old(self)@, obj@, lo, optbox_view(*hi)),
    {
        assert(optbox_view(*hi) is Some == hi is Some);
        match hi {
            Some(x) => {
                self.push(Frame::SliceHi { obj, lo });
                self.eval(&**x);
            },
            None => {
                let o = slice(self.heap(), &obj, lo, None);
                self.settle(o);
            },
        }
    }

    fn assign_to(&mut self, target: &'a Expr, v: Value)
        ensures
            final(self)@ == assign_to(old(self)@, target@, v@),
    {
        match target {
            Expr::Ident(n) => {
                if self.has_env(n.as_str()) {
                    self.set_env(n.as_str(), v);
                } else {
                    self.set_global(n.as_str(), v);
                }
                self.flow(Flow::Normal);
            },
            Expr::Field { obj, name } => {
                self.push(Frame::AssignField { name: name.as_str(), val: v });
                self.eval(&**obj);
            },
            Expr::Index { obj, index } => {
                self.push(Frame::AssignIdx { index: &**index, val: v });
                self.eval(&**obj);
            },
            _ => {
                self.fail("invalid assignment target");
            },
        }
    }

    fn assign_at(&mut self, obj: Value, key: Value, val: Value)
        ensures
            final(self)@ == assign_at(old(self)@, obj@, key@, val@),
    {
        match obj {
            Value::List(a) => {
                match key {
                    Value::Int(i) => {
                        match get_list(self.heap(), a) {
                            Some(s) => {
                                let n: usize = s.len();
                                if 0 <= i && (i as u64) < n as u64 {
                                    self.list_set(a, i as usize, val);
                                    self.flow(Flow::Normal);
                                } else {
                                    self.fail("index out of range");
                                }
                            },
                            None => {
                                self.fail("index out of range");
                            },
                        }
                    },
                    _ => {
                        self.fail("bad index assignment");
                    },
                }
            },
            Value::Dict(a) => {
                self.dict_set(a, key, val);
                self.flow(Flow::Normal);
            },
            _ => {
                self.fail("bad index assignment");
            },
        }
    }

    fn if_next(&mut self, elifs: &'a Vec<(Expr, Vec<Stmt>)>, i: usize, els: &'a Option<Vec<Stmt>>)
        ensures
            final(self)@ == if_next(old(self)@, elifs_view(elifs@), i, optblock_view(*els)),
    {
        proof { elifs_facts(elifs@); }
        if i < elifs.len() {
            assert(
                elifs_view(elifs@)[i as int] == (
                    elifs@[i as int].0@,
                    stmts_view(elifs@[i as int].1@),
                )
            );
            self.push(Frame::If { then: &elifs[i].1, elifs, i: i + 1, els });
            self.eval(&elifs[i].0);
        } else {
            assert(optblock_view(*els) is Some == els is Some);
            match els {
                Some(b) => {
                    self.run_from(b, 0);
                },
                None => {
                    self.flow(Flow::Normal);
                },
            }
        }
    }

    fn value_args(&mut self, kind: Kind<'a>, src: Src<'a>, vals: Vec<Value>, v: Value)
        ensures
            final(self)@ == value_args(old(self)@, kind@, src@, values_view(vals@), v@),
    {
        match &kind {
            Kind::Push { list } => {
                self.list_push(*list, v.clone());
            },
            _ => {
            },
        }
        let mut all = vals;
        proof { values_push(all@, v); }
        all.push(v);
        self.collect(kind, src, all);
    }

    fn value_comp(&mut self, fr: Frame<'a>, v: Value)
        ensures
            final(self)@ == value_comp(old(self)@, fr@, v@),
    {
        match fr {
            Frame::CompCond { elem, var, cond, items, i, out, saved } => {
                match v.truthy() {
                    Some(true) => {
                        self.push(Frame::CompElem { elem, var, cond, items, i, out, saved });
                        self.eval(elem);
                    },
                    Some(false) => {
                        let j: usize = if i < items.len() { i + 1 } else { i };
                        self.comp_next(elem, var, cond, items, j, out, saved);
                    },
                    None => {
                        self.fail("condition must be a bool (Lumen has strict truthiness)");
                    },
                }
            },
            Frame::CompElem { elem, var, cond, items, i, out, saved } => {
                let mut all = out;
                proof { values_push(all@, v); }
                all.push(v);
                let j: usize = if i < items.len() { i + 1 } else { i };
                self.comp_next(elem, var, cond, items, j, all, saved);
            },
            _ => {
                self.fail("internal: stray value");
            },
        }
    }

    fn value_stmt(&mut self, fr: Frame<'a>, v: Value)
        ensures
            final(self)@ == value_stmt(old(self)@, fr@, v@),
    {
        match fr {
            Frame::Let { name } => {
                self.set_env(name, v);
                self.flow(Flow::Normal);
            },
            Frame::AssignTo { target } => {
                self.assign_to(target, v);
            },
            Frame::AssignField { name, val } => {
                match v {
                    Value::Struct(a) => {
                        self.field_set(a, name, val);
                        self.flow(Flow::Normal);
                    },
                    _ => {
                        self.fail("field assignment on non-struct");
                    },
                }
            },
            Frame::AssignIdx { index, val } => {
                self.push(Frame::AssignAt { obj: v, val });
                self.eval(index);
            },
            Frame::AssignAt { obj, val } => {
                self.assign_at(obj, v, val);
            },
            Frame::Drop => {
                self.flow(Flow::Normal);
            },
            Frame::Ret => {
                self.flow(Flow::Return { v });
            },
            Frame::If { then, elifs, i, els } => {
                match v.truthy() {
                    Some(true) => {
                        self.run_from(then, 0);
                    },
                    Some(false) => {
                        self.if_next(elifs, i, els);
                    },
                    None => {
                        self.fail("condition must be a bool (Lumen has strict truthiness)");
                    },
                }
            },
            Frame::While { cond, body } => {
                match v.truthy() {
                    Some(true) => {
                        self.push(Frame::WhileBody { cond, body });
                        self.run_from(body, 0);
                    },
                    Some(false) => {
                        self.flow(Flow::Normal);
                    },
                    None => {
                        self.fail("condition must be a bool (Lumen has strict truthiness)");
                    },
                }
            },
            Frame::Raise => {
                let mut vals: Vec<Value> = Vec::new();
                vals.push(v);
                assert(values_view(vals@) =~= seq![v@]);
                self.task(
                    Task::Show { vals, sep: "".to_owned(), quoted: false, goal: Goal::Raise },
                );
            },
            Frame::TopEnd => {
                self.done(None);
            },
            _ => {
                self.fail("internal: stray value");
            },
        }
    }

    fn value_expr(&mut self, fr: Frame<'a>, v: Value)
        ensures
            final(self)@ == value_expr(old(self)@, fr@, v@),
    {
        match fr {
            Frame::FStr { parts, i, acc } => {
                self.push(Frame::FStrText { parts, i, acc });
                let mut vals: Vec<Value> = Vec::new();
                vals.push(v);
                assert(values_view(vals@) =~= seq![v@]);
                self.task(Task::Show { vals, sep: "".to_owned(), quoted: false, goal: Goal::Text });
            },
            Frame::FStrText { parts, i, acc } => {
                match v {
                    Value::Str(s) => {
                        let mut t = acc.as_str().to_owned();
                        t.append(s.as_str());
                        self.text_parts(parts, i, t);
                    },
                    _ => {
                        self.fail("internal: not a text");
                    },
                }
            },
            Frame::Unary { op } => {
                let o = unary(op, v);
                self.settle(o);
            },
            Frame::BinL { op, rhs } => {
                self.push(Frame::BinR { op, left: v });
                self.eval(rhs);
            },
            Frame::BinR { op, left } => {
                let o = binop(self.heap(), op, left, v);
                self.settle(o);
            },
            Frame::ShortL { op, rhs } => {
                match v.truthy() {
                    Some(b) => {
                        if b == (op == BinOp::Or) {
                            self.give(Value::Bool(b));
                        } else {
                            self.push(Frame::ShortR);
                            self.eval(rhs);
                        }
                    },
                    None => {
                        self.fail("condition must be a bool (Lumen has strict truthiness)");
                    },
                }
            },
            Frame::ShortR => {
                match v.truthy() {
                    Some(b) => {
                        self.give(Value::Bool(b));
                    },
                    None => {
                        self.fail("condition must be a bool (Lumen has strict truthiness)");
                    },
                }
            },
            Frame::IndexObj { index } => {
                self.push(Frame::IndexAt { obj: v });
                self.eval(index);
            },
            Frame::IndexAt { obj } => {
                let o = index(self.heap(), &obj, v);
                self.settle(o);
            },
            Frame::SliceObj { lo, hi } => {
                assert(optbox_view(*lo) is Some == lo is Some);
                match lo {
                    Some(x) => {
                        self.push(Frame::SliceLo { obj: v, hi });
                        self.eval(&**x);
                    },
                    None => {
                        self.slice_upper(v, None, hi);
                    },
                }
            },
            Frame::SliceLo { obj, hi } => {
                match v {
                    Value::Int(n) => {
                        self.slice_upper(obj, Some(n), hi);
                    },
                    _ => {
                        self.fail("slice bounds must be integers");
                    },
                }
            },
            Frame::SliceHi { obj, lo } => {
                match v {
                    Value::Int(n) => {
                        let o = slice(self.heap(), &obj, lo, Some(n));
                        self.settle(o);
                    },
                    _ => {
                        self.fail("slice bounds must be integers");
                    },
                }
            },
            Frame::Field { name } => {
                let o = get_field(self.heap(), &v, name);
                self.settle(o);
            },
            Frame::Cond { then, els } => {
                match v.truthy() {
                    Some(true) => {
                        self.eval(then);
                    },
                    Some(false) => {
                        self.eval(els);
                    },
                    None => {
                        self.fail("condition must be a bool (Lumen has strict truthiness)");
                    },
                }
            },
            _ => {
                self.fail("internal: stray value");
            },
        }
    }

    fn step_value(&mut self, fr: Frame<'a>, v: Value)
        ensures
            final(self)@ == step_value(old(self)@, fr@, v@),
    {
        match fr {
            Frame::Args { kind, src, vals } => {
                self.value_args(kind, src, vals, v);
            },
            Frame::Recv { name, args } => {
                self.method_call(v, name, args);
            },
            Frame::Meth1 { recv, name, args } => {
                self.method_one(recv, name, args, v);
            },
            Frame::Meth2 { recv, first } => {
                self.method_two(recv, first, v);
            },
            Frame::Callee { args } => {
                let none: Vec<Value> = Vec::new();
                assert(values_view(none@) =~= Seq::empty());
                self.collect(Kind::CallValue { f: v }, Src::Exprs { s: args }, none);
            },
            Frame::RangeLo { hi, use_ } => {
                self.push(Frame::RangeHi { lo: v, use_ });
                self.eval(hi);
            },
            Frame::RangeHi { lo, use_ } => {
                match get_range(&lo, &v) {
                    Some(items) => {
                        self.got_items(use_, items);
                    },
                    None => {
                        self.fail("range bounds must be ints");
                    },
                }
            },
            Frame::Iter { use_ } => {
                match get_items(self.heap(), &v) {
                    Some(items) => {
                        self.got_items(use_, items);
                    },
                    None => {
                        self.fail("for-loop target is not iterable");
                    },
                }
            },
            Frame::CompCond { .. } => {
                self.value_comp(fr, v);
            },
            Frame::CompElem { .. } => {
                self.value_comp(fr, v);
            },
            Frame::Let { .. } => {
                self.value_stmt(fr, v);
            },
            Frame::AssignTo { .. } => {
                self.value_stmt(fr, v);
            },
            Frame::AssignField { .. } => {
                self.value_stmt(fr, v);
            },
            Frame::AssignIdx { .. } => {
                self.value_stmt(fr, v);
            },
            Frame::AssignAt { .. } => {
                self.value_stmt(fr, v);
            },
            Frame::Drop => {
                self.value_stmt(fr, v);
            },
            Frame::Ret => {
                self.value_stmt(fr, v);
            },
            Frame::If { .. } => {
                self.value_stmt(fr, v);
            },
            Frame::While { .. } => {
                self.value_stmt(fr, v);
            },
            Frame::Raise => {
                self.value_stmt(fr, v);
            },
            Frame::TopEnd => {
                self.value_stmt(fr, v);
            },
            _ => {
                self.value_expr(fr, v);
            },
        }
    }

    fn step_return(&mut self, o: &'a Option<Expr>)
        ensures
            final(self)@ == step_return(old(self)@, opt_view(*o)),
    {
        assert(opt_view(*o) is Some == o is Some);
        match o {
            Some(x) => {
                match self.find_tail_args(x) {
                    Some(args) => {
                        let saved = self.take_tail();
                        ();
                        let none: Vec<Value> = Vec::new();
                        assert(values_view(none@) =~= Seq::empty());
                        self.collect(Kind::Tail { saved }, Src::Exprs { s: args }, none);
                    },
                    None => {
                        self.push(Frame::Ret);
                        self.eval(x);
                    },
                }
            },
            None => {
                self.flow(Flow::Return { v: Value::Nil });
            },
        }
    }

    fn step_exec(&mut self, s: &'a Stmt)
        ensures
            final(self)@ == step_exec(old(self)@, s@),
    {
        match s {
            Stmt::Let { name, value, .. } => {
                self.push(Frame::Let { name: name.as_str() });
                self.eval(value);
            },
            Stmt::Assign { target, value } => {
                self.push(Frame::AssignTo { target });
                self.eval(value);
            },
            Stmt::ExprStmt(x) => {
                self.push(Frame::Drop);
                self.eval(x);
            },
            Stmt::Return(o) => {
                self.step_return(o);
            },
            Stmt::If { cond, then, elifs, els } => {
                self.push(Frame::If { then, elifs, i: 0, els });
                self.eval(cond);
            },
            Stmt::While { cond, body } => {
                self.push(Frame::While { cond, body });
                self.eval(cond);
            },
            Stmt::For { var, iter, body } => {
                self.iterate(iter, Use::For { var: var.as_str(), body });
            },
            Stmt::Break => {
                self.flow(Flow::Break);
            },
            Stmt::Continue => {
                self.flow(Flow::Continue);
            },
            Stmt::Raise(x) => {
                self.push(Frame::Raise);
                self.eval(x);
            },
            Stmt::Try { body, catch_var, catch_body } => {
                self.push(Frame::Try { var: catch_var.as_str(), body: catch_body });
                self.run_from(body, 0);
            },
            Stmt::SrcLine(n) => {
                self.set_line(*n);
                self.flow(Flow::Normal);
            },
        }
    }

    fn step_run(&mut self, stmts: &'a Vec<Stmt>, i: usize)
        ensures
            final(self)@ == step_run(old(self)@, stmts_view(stmts@), i),
    {
        proof { stmts_facts(stmts@); }
        if i < stmts.len() {
            assert(stmts_view(stmts@)[i as int] == stmts@[i as int]@);
            self.push(Frame::Block { stmts, i: i + 1 });
            self.exec(&stmts[i]);
        } else {
            self.flow(Flow::Normal);
        }
    }

    fn step_top(&mut self, prog: &'a Vec<Item>, i: usize, called: bool)
        ensures
            final(self)@ == step_top(old(self)@, prog_view(prog@), i, called),
    {
        assert(prog_view(prog@).len() == prog@.len());
        if i < prog.len() {
            assert(prog_view(prog@)[i as int] == prog@[i as int]@);
            match &prog[i] {
                Item::Stmt(s) => {
                    let now = called || is_main_call(s);
                    self.push(Frame::Top { prog, i: i + 1, called: now });
                    self.exec(s);
                },
                _ => {
                    self.next_top(prog, i + 1, called);
                },
            }
        } else {
            match self.func_of("main") {
                Some(d) => {
                    if called {
                        self.done(None);
                    } else {
                        self.push(Frame::TopEnd);
                        let none: Vec<Value> = Vec::new();
                        assert(values_view(none@) =~= Seq::empty());
                        self.enter(d, none, true);
                    }
                },
                None => {
                    self.done(None);
                },
            }
        }
    }

    fn step_flow(&mut self, fr: Frame<'a>, f: Flow)
        ensures
            final(self)@ == step_flow(old(self)@, fr@, f@),
    {
        match fr {
            Frame::Block { stmts, i } => {
                match &f {
                    Flow::Normal => {
                        self.run_from(stmts, i);
                    },
                    _ => {
                        self.flow(f);
                    },
                }
            },
            Frame::ForBody { var, body, items, i } => {
                match &f {
                    Flow::Break => {
                        self.flow(Flow::Normal);
                    },
                    Flow::Normal => {
                        self.for_next(var, body, items, i);
                    },
                    Flow::Continue => {
                        self.for_next(var, body, items, i);
                    },
                    _ => {
                        self.flow(f);
                    },
                }
            },
            Frame::WhileBody { cond, body } => {
                match &f {
                    Flow::Break => {
                        self.flow(Flow::Normal);
                    },
                    Flow::Normal => {
                        self.push(Frame::While { cond, body });
                        self.eval(cond);
                    },
                    Flow::Continue => {
                        self.push(Frame::While { cond, body });
                        self.eval(cond);
                    },
                    _ => {
                        self.flow(f);
                    },
                }
            },
            Frame::Call { env, tail, tramp } => {
                match f {
                    Flow::Return { v } => {
                        self.leave(env, tail);
                        self.give(v);
                    },
                    Flow::TailCall { vals } => {
                        match tramp {
                            Some(d) => {
                                self.again(d, vals, env, tail);
                            },
                            None => {
                                self.leave(env, tail);
                                self.give(Value::Nil);
                            },
                        }
                    },
                    _ => {
                        self.leave(env, tail);
                        self.give(Value::Nil);
                    },
                }
            },
            Frame::Top { prog, i, called } => {
                self.next_top(prog, i, called);
            },
            _ => {
                self.flow(f);
            },
        }
    }

    fn step_error(&mut self, fr: Frame<'a>, m: String)
        ensures
            final(self)@ == step_error(old(self)@, fr@, m@),
    {
        match fr {
            Frame::Try { var, body } => {
                self.set_env(var, text_value(m));
                self.run_from(body, 0);
            },
            Frame::Call { env, tail, tramp } => {
                self.leave(env, tail);
                self.fail(m.as_str());
            },
            _ => {
                self.fail(m.as_str());
            },
        }
    }

    fn step_task(&mut self, t: Task)
        ensures
            final(self)@ == step_task(old(self)@, t@),
    {
        match self.try_task(&t) {
            Out::Wait(a) => {
                self.request_for(a, t);
            },
            Out::List(s) => {
                match t {
                    Task::Sort { list } => {
                        self.set_items(list, s);
                        self.give(Value::Nil);
                    },
                    _ => {
                        self.new_list(s);
                    },
                }
            },
            o => {
                self.settle(o);
            },
        }
    }

    fn step_ctrl(&mut self, c: Ctrl<'a>)
        ensures
            final(self)@ == step_ctrl(old(self)@, c@),
    {
        match c {
            Ctrl::Eval { e } => {
                self.step_eval(e);
            },
            Ctrl::Exec { s } => {
                self.step_exec(s);
            },
            Ctrl::Run { stmts, i } => {
                self.step_run(stmts, i);
            },
            Ctrl::Collect { kind, src, vals } => {
                self.collect_next(kind, src, vals);
            },
            Ctrl::FStr { parts, i, acc } => {
                self.text_next(parts, i, acc);
            },
            Ctrl::Value { v } => {
                let fr0 = self.pop_frame();
                match fr0 {
                    Some(fr) => {
                        self.step_value(fr, v);
                    },
                    None => {
                        self.done(Some(v));
                    },
                }
            },
            Ctrl::Flow { f } => {
                let fr0 = self.pop_frame();
                match fr0 {
                    Some(fr) => {
                        self.step_flow(fr, f);
                    },
                    None => {
                        self.done(None);
                    },
                }
            },
            Ctrl::Error { m } => {
                let fr0 = self.pop_frame();
                match fr0 {
                    Some(fr) => {
                        self.step_error(fr, m);
                    },
                    None => {
                        self.failed(m);
                    },
                }
            },
            Ctrl::Task { t } => {
                self.step_task(t);
            },
            Ctrl::NextTop { prog, i, called } => {
                self.step_top(prog, i, called);
            },
            Ctrl::Await => {
            },
            Ctrl::Done { val } => {
                self.done(val);
            },
            Ctrl::Failed { m } => {
                self.failed(m);
            },
        }
    }
}

/// One step of the machine; none while it waits for an answer.
pub open spec fn step_spec(m: Mach) -> Mach {
    if m.ask is Some {
        m
    } else {
        step_ctrl(m.idle(), m.ctrl)
    }
}

/// The first `k` methods of a struct declared.
pub open spec fn with_methods(m: Mach, owner: Seq<char>, fs: Seq<FnDefView>, k: nat) -> Mach
    decreases k,
{
    if k == 0 || k > fs.len() {
        m
    } else {
        with_methods(m, owner, fs, (k - 1) as nat).add_method(owner, fs[k - 1])
    }
}

pub open spec fn with_externs(m: Mach, fs: Seq<ExternFnView>, k: nat) -> Mach
    decreases k,
{
    if k == 0 || k > fs.len() {
        m
    } else {
        with_externs(m, fs, (k - 1) as nat).add_extern(fs[k - 1].name)
    }
}

/// The machine with what the first `k` items declare.
pub open spec fn declared(m: Mach, items: Seq<ItemView>, k: nat) -> Mach
    decreases k,
{
    if k == 0 || k > items.len() {
        m
    } else {
        let g = declared(m, items, (k - 1) as nat);
        match items[k - 1] {
            ItemView::Fn(f) => g.add_fn(f),
            ItemView::Struct(s) => with_methods(
                g.add_struct(s.name, s.fields),
                s.name,
                s.methods,
                s.methods.len(),
            ),
            ItemView::ExternBlock(b) => with_externs(g, b.fns, b.fns.len()),
            _ => g,
        }
    }
}

/// An answer to a request.
#[derive(Debug)]
pub enum Reply {
    /// A text, such as that of a float.
    Text(String),
    /// A float by its bits.
    Float(u64),
    Int(i64),
    /// The float that a text is, if it is one.
    Parsed(Option<u64>),
    /// A line of input with its end, or the end of the input.
    Line(Option<String>),
    Value(Value),
    Fail(String),
    Unit,
}

pub enum ReplyView {
    Text(Seq<char>),
    Float(u64),
    Int(i64),
    Parsed(Option<u64>),
    Line(Option<Seq<char>>),
    Value(ValueView),
    Fail(Seq<char>),
    Unit,
}

impl View for Reply {
    type V = ReplyView;

    open spec fn view(&self) -> ReplyView {
        match *self {
            Reply::Text(s) => ReplyView::Text(s@),
            Reply::Float(b) => ReplyView::Float(b),
            Reply::Int(n) => ReplyView::Int(n),
            Reply::Parsed(o) => ReplyView::Parsed(o),
            Reply::Line(o) => ReplyView::Line(
                match o {
                    Some(s) => Some(s@),
                    None => None,
                },
            ),
            Reply::Value(v) => ReplyView::Value(v@),
            Reply::Fail(s) => ReplyView::Fail(s@),
            Reply::Unit => ReplyView::Unit,
        }
    }
}

/// A line without the characters that end it.
pub open spec fn line_text(s: Seq<char>) -> Seq<char>
    decreases s.len(),
{
    if s.len() > 0 && (s.last() == '\n' || s.last() == '\r') {
        line_text(s.drop_last())
    } else {
        s
    }
}

fn trim_line(s: &str) -> (r: String)
    ensures
        r@ == line_text(s@),
{
    let v = to_chars(s);
    let mut n: usize = v.len();
    assert(v@.take(n as int) =~= v@);
    while n > 0 && (v[n - 1] == '\n' || v[n - 1] == '\r')
        invariant
            n <= v@.len(),
            line_text(v@) == line_text(v@.take(n as int)),
        decreases n,
    {
        assert(v@.take(n as int).drop_last() =~= v@.take(n - 1));
        n -= 1;
    }
    let r = from_range(&v, 0, n);
    assert(r@ =~= v@.take(n as int));
    r
}

/// The value, or the error, that an answer is.
pub open spec fn reply_value(g: Mach, r: ReplyView) -> Mach {
    match r {
        ReplyView::Text(s) => g.give(ValueView::Str(s)),
        ReplyView::Float(b) => g.give(ValueView::Float(b)),
        ReplyView::Int(n) => g.give(ValueView::Int(wrap48_spec(n as int) as i64)),
        ReplyView::Parsed(o) => match o {
            Some(b) => g.give(ValueView::Float(b)),
            None => g.fail("float() parse error"@),
        },
        ReplyView::Line(o) => match o {
            Some(s) => g.give(ValueView::Str(line_text(s))),
            None => g.give(ValueView::Nil),
        },
        ReplyView::Value(v) => g.give(
            match v {
                ValueView::Int(n) => ValueView::Int(wrap48_spec(n as int) as i64),
                _ => v,
            },
        ),
        ReplyView::Fail(s) => g.fail(s),
        ReplyView::Unit => g.give(ValueView::Nil),
    }
}

/// The machine after an answer. The text of a float, and a float for an integer, are
/// kept, and the task that asked for them is tried again; any other answer is the value.
pub open spec fn reply_spec(m: Mach, r: ReplyView) -> Mach {
    let g = m.answered();
    match m.ask {
        None => g,
        Some(a) => match (a, r) {
            (ActionView::FloatText { bits }, ReplyView::Text(s)) => g.learn_text(bits, s),
            (ActionView::FloatOf { n }, ReplyView::Float(b)) => g.learn_float(n, b),
            _ => reply_value(g, r),
        },
    }
}

impl<'a> Interp<'a> {
    /// Takes one step. It does nothing while a request waits for its answer.
    pub fn step(&mut self)
        ensures
            final(self)@ == step_spec(old(self)@),
    {
        if self.waits() {
            return;
        }
        let c = self.idle();
        self.step_ctrl(c);
    }

    fn reply_value(&mut self, r: Reply)
        ensures
            final(self)@ == reply_value(old(self)@, r@),
    {
        match r {
            Reply::Text(s) => self.give(text_value(s)),
            Reply::Float(b) => self.give(Value::Float(b)),
            Reply::Int(n) => self.give(Value::Int(wrap48(n))),
            Reply::Parsed(o) => match o {
                Some(b) => self.give(Value::Float(b)),
                None => self.fail("float() parse error"),
            },
            Reply::Line(o) => match o {
                Some(s) => self.give(text_value(trim_line(s.as_str()))),
                None => self.give(Value::Nil),
            },
            Reply::Value(v) => match v {
                Value::Int(n) => self.give(Value::Int(wrap48(n))),
                o => self.give(o),
            },
            Reply::Fail(s) => self.fail(s.as_str()),
            Reply::Unit => self.give(Value::Nil),
        }
    }

    /// Answers the request that waits.
    pub fn reply(&mut self, r: Reply)
        ensures
            final(self)@ == reply_spec(old(self)@, r@),
    {
        match self.answered() {
            None => {},
            Some(a) => match (a, r) {
                (Action::FloatText { bits }, Reply::Text(s)) => self.learn_text(bits, s),
                (Action::FloatOf { n }, Reply::Float(b)) => self.learn_float(n, b),
                (_, r) => self.reply_value(r),
            },
        }
    }

    fn declare_methods(&mut self, owner: &str, fs: &'a Vec<FnDef>)
        ensures
            final(self)@ == with_methods(old(self)@, owner@, fns_view(fs@), fs@.len()),
    {
        let ghost m0 = self@;
        let ghost fv = fns_view(fs@);
        for i in 0..fs.len()
            invariant
                fv == fns_view(fs@),
                self@ == with_methods(m0, owner@, fv, i as nat),
        {
            assert(fv[i as int] == fs@[i as int]@);
            self.add_method(owner, &fs[i]);
        }
    }

    fn declare_externs(&mut self, fs: &'a Vec<ExternFn>)
        ensures
            final(self)@ == with_externs(old(self)@, extern_fns_view(fs@), fs@.len()),
    {
        let ghost m0 = self@;
        let ghost fv = extern_fns_view(fs@);
        for i in 0..fs.len()
            invariant
                fv == extern_fns_view(fs@),
                self@ == with_externs(m0, fv, i as nat),
        {
            assert(fv[i as int] == fs@[i as int]@);
            self.add_extern(fs[i].name.as_str());
        }
    }

    /// Declares what a program declares, and gives its statements outside of functions.
    pub fn register_decls(&mut self, prog: &'a Vec<Item>) -> (r: Vec<&'a Stmt>)
        ensures
            final(self)@ == declared(old(self)@, prog_view(prog@), prog@.len()),
            stmt_refs(r@) == top_of(prog_view(prog@)),
    {
        let ghost m0 = self@;
        let ghost pv = prog_view(prog@);
        let mut r: Vec<&'a Stmt> = Vec::new();
        assert(pv.take(0) =~= Seq::empty());
        assert(stmt_refs(r@) =~= Seq::empty());
        for i in 0..prog.len()
            invariant
                pv == prog_view(prog@),
                self@ == declared(m0, pv, i as nat),
                stmt_refs(r@) == top_of(pv.take(i as int)),
        {
            assert(pv[i as int] == prog@[i as int]@);
            assert(pv.take(i + 1).drop_last() =~= pv.take(i as int));
            match &prog[i] {
                Item::Fn(f) => self.add_fn(f),
                Item::Struct(s) => {
                    self.add_struct(s.name.as_str(), &s.fields);
                    self.declare_methods(s.name.as_str(), &s.methods);
                },
                Item::ExternBlock(b) => self.declare_externs(&b.fns),
                Item::Import(_) => {},
                Item::Stmt(s) => {
                    let ghost r0 = r@;
                    r.push(s);
                    assert(stmt_refs(r@) =~= stmt_refs(r0).push(s@));
                },
            }
        }
        assert(pv.take(prog@.len() as int) =~= pv);
        r
    }

    /// Starts on a program: its statements outside of functions, and then `main`. The
    /// program runs by steps.
    pub fn run(&mut self, prog: &'a Vec<Item>)
        ensures
            final(self)@ == declared(
                old(self)@,
                prog_view(prog@),
                prog@.len(),
            ).clear_env().next_top(prog_view(prog@), 0, false),
    {
        let _ = self.register_decls(prog);
        self.clear_env();
        self.next_top(prog, 0, false);
    }

    /// Starts on a statement; one that is an expression gives its value.
    pub fn repl_exec(&mut self, s: &'a Stmt)
        ensures
            final(self)@ == (match s@ {
                StmtView::ExprStmt(e) => old(self)@.eval(e),
                _ => old(self)@.exec(s@),
            }),
    {
        match s {
            Stmt::ExprStmt(e) => self.eval(e),
            _ => self.exec(s),
        }
    }
}

pub open spec fn stmt_refs<'a>(s: Seq<&'a Stmt>) -> Seq<StmtView> {
    Seq::new(s.len(), |i: int| s[i]@)
}

/// A machine that has come to an end stays there.
pub proof fn end_stays(m: Mach)
    requires
        m.ask is None,
        m.ctrl is Done || m.ctrl is Failed,
    ensures
        step_spec(m) == m,
{
    reveal(Mach::idle);
    reveal(Mach::done);
    reveal(Mach::failed);
}

/// A function that calls itself in a `return` does not grow the stack: the step that
/// takes the call leaves as many frames as there were.
pub proof fn tail_call_keeps_depth(
    m: Mach,
    env: Map<Seq<char>, ValueView>,
    tail: Option<(Seq<char>, usize)>,
    d: usize,
    vals: Seq<ValueView>,
)
    requires
        m.ask is None,
        m.frames.len() > 0,
        m.frames.last() == (FrameView::Call { env, tail, tramp: Some(d) }),
        m.ctrl == (CtrlView::Flow { f: FlowView::TailCall { vals } }),
        d < m.defs.len(),
    ensures
        step_spec(m).frames == m.frames,
        step_spec(m).env == crate::machstate::frame_env(m.defs[d as int].params, vals),
{
    reveal(Mach::idle);
    reveal(Mach::pop_frame);
    reveal(Mach::again);
    assert(m.frames.drop_last().push(m.frames.last()) =~= m.frames);
}

/// A call gives back the variables of its caller, whether it returns or fails.
pub proof fn call_restores_caller(
    m: Mach,
    env: Map<Seq<char>, ValueView>,
    tail: Option<(Seq<char>, usize)>,
    tramp: Option<usize>,
)
    requires
        m.ask is None,
        m.frames.len() > 0,
        m.frames.last() == (FrameView::Call { env, tail, tramp }),
        match m.ctrl {
            CtrlView::Flow { f } => !(f is TailCall),
            CtrlView::Error { .. } => true,
            _ => false,
        },
    ensures
        step_spec(m).env == env,
        step_spec(m).tail == tail,
        step_spec(m).frames == m.frames.drop_last(),
{
    reveal(Mach::idle);
    reveal(Mach::pop_frame);
    reveal(Mach::leave);
    reveal(Mach::give);
    reveal(Mach::fail);
}

/// A condition that is neither a truth value nor `nil` is an error; nothing is taken for
/// true or false.
pub proof fn conditions_are_strict(m: Mach, f: FrameView, v: ValueView)
    requires
        m.ask is None,
        m.frames.len() > 0,
        m.frames.last() == f,
        f is If || f is While || f is Cond || f is CompCond || f is ShortL || f is ShortR,
        m.ctrl == (CtrlView::Value { v }),
        truth(v) is None,
    ensures
        step_spec(m).ctrl == (CtrlView::Error {
            m: "condition must be a bool (Lumen has strict truthiness)"@,
        }),
{
    reveal(Mach::idle);
    reveal(Mach::pop_frame);
    reveal(Mach::fail);
}

/// The right side of `and` and `or` is evaluated only where the left side does not
/// decide.
pub proof fn short_circuit(m: Mach, op: BinOp, rhs: ExprView, b: bool)
    requires
        m.ask is None,
        m.frames.len() > 0,
        m.frames.last() == (FrameView::ShortL { op, rhs }),
        op == BinOp::And || op == BinOp::Or,
        m.ctrl == (CtrlView::Value { v: ValueView::Bool(b) }),
    ensures
        b == (op == BinOp::Or) ==> step_spec(m).ctrl == (CtrlView::Value {
            v: ValueView::Bool(b),
        }),
        b != (op == BinOp::Or) ==> step_spec(m).ctrl == (CtrlView::Eval { e: rhs }),
{
    reveal(Mach::idle);
    reveal(Mach::pop_frame);
    reveal(Mach::push);
    reveal(Mach::give);
    reveal(Mach::eval);
}

/// A `try` catches an error: its variable holds the message, and what was caught is
/// gone.
pub proof fn try_catches(m: Mach, var: Seq<char>, body: Seq<StmtView>, msg: Seq<char>)
    requires
        m.ask is None,
        m.frames.len() > 0,
        m.frames.last() == (FrameView::Try { var, body }),
        m.ctrl == (CtrlView::Error { m: msg }),
    ensures
        step_spec(m).ctrl == (CtrlView::Run { stmts: body, i: 0 }),
        step_spec(m).env == m.env.insert(var, ValueView::Str(msg)),
        step_spec(m).frames == m.frames.drop_last(),
{
    reveal(Mach::idle);
    reveal(Mach::pop_frame);
    reveal(Mach::set_env);
    reveal(Mach::run_from);
}

} // verus!
