//! Whole programs through the passes, the back ends and the interpreter. A small reader
//! turns sources into programs.

use lumenc::asmstate::escape;
use lumenc::ast::{BinOp, Expr, Field, FnDef, Item, Param, Stmt, StructDef, Type, UnOp};
use lumenc::codegen::Codegen;
use lumenc::interp::Reply;
use lumenc::lexer::{Lexer, Tok};
use lumenc::llvmgen::LlvmGen;
use lumenc::lower::lower_fn;
use lumenc::machstate::Interp;
use lumenc::mir::{mir_eligible, BlockId, BinKind, Inst, MirFn, SigMap, Val};
use lumenc::names::NameSet;
use lumenc::operate::Action;
use lumenc::regalloc::{regalloc, Loc};
use lumenc::typeinfo::IntInfo;
use lumenc::value::{Obj, Value};
use std::collections::HashSet;
use std::rc::Rc;

struct Reader {
    toks: Vec<Tok>,
    pos: usize,
}

impl Reader {
    fn peek(&self) -> &Tok {
        &self.toks[self.pos]
    }
    fn next(&mut self) -> Tok {
        self.pos += 1;
        self.toks[self.pos - 1].clone()
    }
    fn eat(&mut self, t: Tok) -> bool {
        if *self.peek() == t {
            self.pos += 1;
            true
        } else {
            false
        }
    }
    fn want(&mut self, t: Tok) {
        let got = self.next();
        assert_eq!(got, t);
    }
    fn name(&mut self) -> String {
        match self.next() {
            Tok::Ident(n) => n,
            Tok::SelfKw => "self".to_string(),
            t => panic!("a name was expected, not {:?}", t),
        }
    }
    fn ty(&mut self) -> Type {
        Type::Named(self.name())
    }
    fn program(&mut self) -> Vec<Item> {
        let mut items = Vec::new();
        loop {
            match self.peek() {
                Tok::Eof => return items,
                Tok::Newline => {
                    self.next();
                }
                Tok::Fn => items.push(Item::Fn(self.function(false))),
                Tok::Struct => {
                    self.next();
                    let name = self.name();
                    self.want(Tok::Colon);
                    self.want(Tok::Newline);
                    self.want(Tok::Indent);
                    let mut fields = Vec::new();
                    let mut methods = Vec::new();
                    while !self.eat(Tok::Dedent) {
                        if *self.peek() == Tok::Fn {
                            methods.push(self.function(true));
                        } else {
                            fields.push(Field { name: self.name(), ty: Type::Unknown });
                            self.want(Tok::Newline);
                        }
                    }
                    items.push(Item::Struct(StructDef { name, fields, methods }));
                }
                _ => items.push(Item::Stmt(self.stmt())),
            }
        }
    }
    fn function(&mut self, is_method: bool) -> FnDef {
        self.want(Tok::Fn);
        let name = self.name();
        self.want(Tok::LParen);
        let mut params = Vec::new();
        while !self.eat(Tok::RParen) {
            let name = self.name();
            let ty = if self.eat(Tok::Colon) { self.ty() } else { Type::Unknown };
            params.push(Param { name, ty, default: None });
            self.eat(Tok::Comma);
        }
        let ret = if self.eat(Tok::Arrow) { self.ty() } else { Type::Unknown };
        let body = self.block();
        FnDef { name, params, ret, body, exported: false, is_method }
    }
    fn block(&mut self) -> Vec<Stmt> {
        self.want(Tok::Colon);
        self.want(Tok::Newline);
        self.want(Tok::Indent);
        let mut out = Vec::new();
        while !self.eat(Tok::Dedent) {
            out.push(self.stmt());
        }
        out
    }
    fn stmt(&mut self) -> Stmt {
        match self.peek().clone() {
            Tok::Let => {
                self.next();
                let name = self.name();
                self.want(Tok::Assign);
                let value = self.expr();
                self.want(Tok::Newline);
                Stmt::Let { name, mutable: true, ty: Type::Unknown, value }
            }
            Tok::Return => {
                self.next();
                let e = if *self.peek() == Tok::Newline { None } else { Some(self.expr()) };
                self.want(Tok::Newline);
                Stmt::Return(e)
            }
            Tok::Break => {
                self.next();
                self.want(Tok::Newline);
                Stmt::Break
            }
            Tok::Continue => {
                self.next();
                self.want(Tok::Newline);
                Stmt::Continue
            }
            Tok::Raise => {
                self.next();
                let e = self.expr();
                self.want(Tok::Newline);
                Stmt::Raise(e)
            }
            Tok::If => {
                self.next();
                let cond = self.expr();
                let then = self.block();
                let mut elifs = Vec::new();
                while self.eat(Tok::Elif) {
                    let c = self.expr();
                    elifs.push((c, self.block()));
                }
                let els = if self.eat(Tok::Else) { Some(self.block()) } else { None };
                Stmt::If { cond, then, elifs, els }
            }
            Tok::While => {
                self.next();
                let cond = self.expr();
                Stmt::While { cond, body: self.block() }
            }
            Tok::For => {
                self.next();
                let var = self.name();
                self.want(Tok::In);
                let iter = self.expr();
                Stmt::For { var, iter, body: self.block() }
            }
            Tok::Try => {
                self.next();
                let body = self.block();
                self.want(Tok::Catch);
                let catch_var = self.name();
                Stmt::Try { body, catch_var, catch_body: self.block() }
            }
            _ => {
                let e = self.expr();
                let s = if self.eat(Tok::Assign) {
                    Stmt::Assign { target: e, value: self.expr() }
                } else {
                    Stmt::ExprStmt(e)
                };
                self.want(Tok::Newline);
                s
            }
        }
    }
    fn expr(&mut self) -> Expr {
        let first = self.level(0);
        if self.eat(Tok::If) {
            let cond = self.level(0);
            self.want(Tok::Else);
            let els = self.expr();
            return Expr::IfElse { cond: Box::new(cond), then: Box::new(first), els: Box::new(els) };
        }
        first
    }
    fn op(&self, level: usize) -> Option<BinOp> {
        let t = self.peek();
        match level {
            0 => if *t == Tok::Or { Some(BinOp::Or) } else { None },
            1 => if *t == Tok::And { Some(BinOp::And) } else { None },
            2 => match t {
                Tok::EqEq => Some(BinOp::Eq),
                Tok::NotEq => Some(BinOp::Ne),
                Tok::Lt => Some(BinOp::Lt),
                Tok::LtEq => Some(BinOp::Le),
                Tok::Gt => Some(BinOp::Gt),
                Tok::GtEq => Some(BinOp::Ge),
                Tok::In => Some(BinOp::In),
                _ => None,
            },
            4 => match t {
                Tok::Plus => Some(BinOp::Add),
                Tok::Minus => Some(BinOp::Sub),
                _ => None,
            },
            5 => match t {
                Tok::Star => Some(BinOp::Mul),
                Tok::Slash => Some(BinOp::Div),
                Tok::Percent => Some(BinOp::Mod),
                _ => None,
            },
            _ => None,
        }
    }
    fn level(&mut self, n: usize) -> Expr {
        if n == 6 {
            return self.unary();
        }
        let mut lhs = self.level(n + 1);
        if n == 3 {
            if self.eat(Tok::DotDot) {
                let hi = self.level(n + 1);
                return Expr::Range { lo: Box::new(lhs), hi: Box::new(hi) };
            }
            return lhs;
        }
        while let Some(op) = self.op(n) {
            self.next();
            let rhs = self.level(n + 1);
            lhs = Expr::Binary { op, lhs: Box::new(lhs), rhs: Box::new(rhs) };
        }
        lhs
    }
    fn unary(&mut self) -> Expr {
        if self.eat(Tok::Minus) {
            return Expr::Unary { op: UnOp::Neg, expr: Box::new(self.unary()) };
        }
        if self.eat(Tok::Not) {
            return Expr::Unary { op: UnOp::Not, expr: Box::new(self.unary()) };
        }
        let base = self.postfix();
        if self.eat(Tok::StarStar) {
            let e = self.unary();
            return Expr::Binary { op: BinOp::Pow, lhs: Box::new(base), rhs: Box::new(e) };
        }
        base
    }
    fn args(&mut self) -> Vec<Expr> {
        let mut out = Vec::new();
        while !self.eat(Tok::RParen) {
            out.push(self.expr());
            self.eat(Tok::Comma);
        }
        out
    }
    fn postfix(&mut self) -> Expr {
        let mut e = self.primary();
        loop {
            if self.eat(Tok::LParen) {
                e = Expr::Call { callee: Box::new(e), args: self.args() };
            } else if self.eat(Tok::LBracket) {
                if self.eat(Tok::Colon) {
                    let hi = self.expr();
                    self.want(Tok::RBracket);
                    e = Expr::Slice { obj: Box::new(e), lo: None, hi: Some(Box::new(hi)) };
                } else {
                    let i = self.expr();
                    if self.eat(Tok::Colon) {
                        let hi = if *self.peek() == Tok::RBracket { None } else { Some(Box::new(self.expr())) };
                        self.want(Tok::RBracket);
                        e = Expr::Slice { obj: Box::new(e), lo: Some(Box::new(i)), hi };
                    } else {
                        self.want(Tok::RBracket);
                        e = Expr::Index { obj: Box::new(e), index: Box::new(i) };
                    }
                }
            } else if self.eat(Tok::Dot) {
                let name = self.name();
                if self.eat(Tok::LParen) {
                    e = Expr::Method { obj: Box::new(e), name, args: self.args() };
                } else {
                    e = Expr::Field { obj: Box::new(e), name };
                }
            } else {
                return e;
            }
        }
    }
    fn primary(&mut self) -> Expr {
        match self.next() {
            Tok::Int(n) => Expr::Int(n),
            Tok::Float(s) => Expr::Float(s.parse::<f64>().unwrap().to_bits()),
            Tok::Str(s) => Expr::Str(Rc::new(s)),
            Tok::Ident(n) => Expr::Ident(n),
            Tok::SelfKw => Expr::SelfExpr,
            Tok::True => Expr::Bool(true),
            Tok::False => Expr::Bool(false),
            Tok::Nil => Expr::Nil,
            Tok::LParen => {
                let e = self.expr();
                self.want(Tok::RParen);
                e
            }
            Tok::LBracket => {
                let mut xs = Vec::new();
                while !self.eat(Tok::RBracket) {
                    let x = self.expr();
                    if self.eat(Tok::For) {
                        let var = self.name();
                        self.want(Tok::In);
                        let iter = self.level(2);
                        let cond = if self.eat(Tok::If) { Some(Box::new(self.level(0))) } else { None };
                        self.want(Tok::RBracket);
                        return Expr::ListComp { elem: Box::new(x), var, iter: Box::new(iter), cond };
                    }
                    xs.push(x);
                    self.eat(Tok::Comma);
                }
                Expr::List(xs)
            }
            Tok::LBrace => {
                let mut kvs = Vec::new();
                while !self.eat(Tok::RBrace) {
                    let k = self.expr();
                    self.want(Tok::Colon);
                    kvs.push((k, self.expr()));
                    self.eat(Tok::Comma);
                }
                Expr::MapLit(kvs)
            }
            Tok::Fn => {
                self.want(Tok::LParen);
                let mut params = Vec::new();
                while !self.eat(Tok::RParen) {
                    params.push(self.name());
                    self.eat(Tok::Comma);
                }
                self.want(Tok::FatArrow);
                let e = self.expr();
                Expr::Lambda { params, body: vec![Stmt::Return(Some(e))] }
            }
            t => panic!("unexpected {:?}", t),
        }
    }
}

fn read(src: &str) -> Vec<Item> {
    let toks = Lexer::new(src).tokenize().expect("lex").into_iter().map(|t| t.tok).collect();
    Reader { toks, pos: 0 }.program()
}

fn read_fn(src: &str) -> FnDef {
    for it in read(src) {
        if let Item::Fn(f) = it {
            return f;
        }
    }
    panic!("no function")
}

const FIB: &str = "fn fib(n: i64) -> i64:\n    if n < 2:\n        return n\n    return fib(n - 1) + fib(n - 2)\n";
const SUM: &str = "fn s(n: i64) -> i64:\n    let t = 0\n    for i in 0..n:\n        t = t + i\n    return t\n";

#[test]
fn eligible_fib() {
    assert!(mir_eligible(&read_fn(FIB)));
}

#[test]
fn eligible_for_range_sum() {
    assert!(mir_eligible(&read_fn(SUM)));
}

#[test]
fn inelig_uses_list() {
    let f = read_fn("fn f(n: i64) -> i64:\n    let xs = [1, 2, 3]\n    return n\n");
    assert!(!mir_eligible(&f));
}

#[test]
fn inelig_non_numeric() {
    let f = read_fn("fn f(s: str) -> i64:\n    return 1\n");
    assert!(!mir_eligible(&f));
}

#[test]
fn inelig_for_over_list() {
    let f = read_fn("fn f(n: i64) -> i64:\n    let t = 0\n    for x in [1, 2]:\n        t = t + x\n    return t\n");
    assert!(!mir_eligible(&f));
}

fn lower(src: &str) -> MirFn {
    let prog = read(src);
    let sigs = SigMap::from_program(&prog);
    let f = read_fn(src);
    lower_fn(&f, &sigs).expect("lowering succeeds")
}

fn insts(m: &MirFn) -> Vec<&Inst> {
    m.blocks.iter().flat_map(|b| &b.insts).collect()
}

fn count_phis(m: &MirFn) -> usize {
    insts(m).iter().filter(|i| matches!(i, Inst::Phi { .. })).count()
}

#[test]
fn lower_add() {
    let m = lower("fn add(a: i64, b: i64) -> i64:\n    return a + b\n");
    assert!(m.validate().is_ok());
    assert_eq!(m.n_params, 2);
    assert!(!m.ret_is_float);
    assert_eq!(count_phis(&m), 0);
    let all = insts(&m);
    let adds: Vec<_> = all.iter().filter(|i| matches!(i, Inst::Bin { op: BinKind::IAdd, .. })).collect();
    assert_eq!(adds.len(), 1);
    if let Inst::Bin { a, b, wrap, .. } = adds[0] {
        assert_eq!(*a, Val::Param(0));
        assert_eq!(*b, Val::Param(1));
        assert!(*wrap, "integer add must carry the 48-bit wrap marker");
    }
}

#[test]
fn lower_float_add() {
    let m = lower("fn fadd(a: f64, b: f64) -> f64:\n    return a + b\n");
    assert!(m.ret_is_float);
    let has_fadd = insts(&m).iter().any(|i| matches!(i, Inst::Bin { op: BinKind::FAdd, wrap: false, .. }));
    assert!(has_fadd, "float add must use FAdd with no wrap");
}

#[test]
fn lower_fib() {
    let m = lower(FIB);
    assert!(m.validate().is_ok());
    assert!(insts(&m).iter().any(|i| matches!(i, Inst::Br { .. })));
    let calls = insts(&m).iter().filter(|i| matches!(i, Inst::Call { callee, .. } if callee == "fib")).count();
    assert_eq!(calls, 2);
    let rets = insts(&m).iter().filter(|i| matches!(i, Inst::Ret(_))).count();
    assert!(rets >= 2);
}

#[test]
fn lower_for_range_phi() {
    let m = lower(SUM);
    assert!(m.validate().is_ok());
    assert!(
        count_phis(&m) >= 2,
        "expected loop-carried phis for counter + accumulator, got {}",
        count_phis(&m)
    );
    let wrapped = insts(&m)
        .iter()
        .filter(|i| matches!(i, Inst::Bin { op: BinKind::IAdd, wrap: true, .. }))
        .count();
    assert!(wrapped >= 2);
}

#[test]
fn lower_while_ok() {
    let m = lower(
        "fn countdown(n: i64) -> i64:\n    let acc = 0\n    while n > 0:\n        acc = acc + n\n        n = n - 1\n    return acc\n",
    );
    assert!(m.validate().is_ok());
    assert!(count_phis(&m) >= 1, "loop-carried vars need phis");
}

#[test]
fn lower_const_div_magic() {
    let m = lower("fn r(x: i64) -> i64:\n    return x % 7\n");
    let has = insts(&m).iter().any(|i| matches!(i, Inst::Bin { op: BinKind::ModConst(7), .. }));
    assert!(has, "constant modulo must use ModConst");
}

#[test]
fn lower_runtime_div_idiv() {
    let m = lower("fn d(x: i64, y: i64) -> i64:\n    return x / y\n");
    assert!(insts(&m).iter().any(|i| matches!(i, Inst::Bin { op: BinKind::IDiv, .. })));
}

#[test]
fn phis_follow_jumps() {
    let jumps = |i: &Inst, b: u32| match i {
        Inst::Br { t, f, .. } => *t == b || *f == b,
        Inst::Jmp(t) => *t == b,
        _ => false,
    };
    for src in [
        "fn f(a: i64, b: i64, c: i64) -> i64:\n    if a < b and b < c and a < c:\n        return a\n    return b\n",
        "fn f(a: i64, b: i64) -> i64:\n    let n = 0\n    while a < b and n < b:\n        if n == 7:\n            break\n        n = n + 1\n    return n\n",
        "fn f(a: i64, b: i64) -> i64:\n    let n = 0\n    if a < b or b < 3:\n        n = a\n    else:\n        n = b\n    return n\n",
    ] {
        let m = lower_fn(&read_fn(src), &SigMap::new()).expect("lowering");
        let mut phis = 0;
        for b in &m.blocks {
            for i in &b.insts {
                if let Inst::Phi { srcs, .. } = i {
                    phis += 1;
                    for (p, _) in srcs {
                        let last = m.blocks[*p as usize].insts.last().expect("an end");
                        assert!(jumps(last, b.id), "{src}");
                    }
                }
            }
        }
        assert!(phis > 0, "{src}");
    }
}

#[test]
fn lower_ssa_single_def() {
    let srcs = [
        "fn add(a: i64, b: i64) -> i64:\n    return a + b\n",
        "fn fib(n: i64) -> i64:\n    if n < 2:\n        return n\n    return fib(n - 1) + fib(n - 2)\n",
        "fn s(n: i64) -> i64:\n    let t = 0\n    for i in 0..n:\n        t = t + i\n    return t\n",
        "fn cd(n: i64) -> i64:\n    let acc = 0\n    while n > 0:\n        acc = acc + n\n        n = n - 1\n    return acc\n",
        "fn g(a: i64, b: i64) -> i64:\n    if a > 0 and b > 0:\n        return a + b\n    return 0\n",
        "fn nested(n: i64) -> i64:\n    let t = 0\n    for i in 0..n:\n        for j in 0..i:\n            t = t + j\n    return t\n",
    ];
    for src in srcs {
        let m = lower(src);
        assert!(m.validate().is_ok(), "validate failed for: {src}");
        let mut seen = HashSet::new();
        for b in &m.blocks {
            for i in &b.insts {
                if let Some(d) = i.def() {
                    assert!(seen.insert(d), "vreg v{d} defined more than once in: {src}");
                }
            }
        }
        for b in &m.blocks {
            let pset: HashSet<BlockId> = m
                .blocks
                .iter()
                .filter(|p| {
                    p.insts.iter().any(|i| match i {
                        Inst::Br { t, f, .. } => *t == b.id || *f == b.id,
                        Inst::Jmp(t) => *t == b.id,
                        _ => false,
                    })
                })
                .map(|p| p.id)
                .collect();
            for i in &b.insts {
                if let Inst::Phi { srcs, .. } = i {
                    for (pb, _) in srcs {
                        assert!(
                            pset.contains(pb),
                            "phi in block {} names non-predecessor {} in: {src}",
                            b.id,
                            pb
                        );
                    }
                }
            }
        }
    }
}

const CALLEE: [&str; 5] = ["rbx", "r12", "r13", "r14", "r15"];

#[test]
fn regalloc_sound() {
    let srcs = [
        "fn add(a: i64, b: i64) -> i64:\n    return a + b\n",
        "fn fib(n: i64) -> i64:\n    if n < 2:\n        return n\n    return fib(n - 1) + fib(n - 2)\n",
        "fn s(n: i64) -> i64:\n    let t = 0\n    for i in 0..n:\n        t = t + i\n    return t\n",
        "fn cd(n: i64) -> i64:\n    let acc = 0\n    while n > 0:\n        acc = acc + n\n        n = n - 1\n    return acc\n",
    ];
    for src in srcs {
        let m = lower(src);
        let ra = regalloc(&m);
        for b in &m.blocks {
            for i in &b.insts {
                if let Some(d) = i.def() {
                    assert!(ra.loc.contains_key(&d), "vreg v{d} unassigned in: {src}");
                }
            }
        }
        let assigned: HashSet<&str> = ra
            .loc
            .values()
            .filter_map(|l| match l {
                Loc::Reg(r) if CALLEE.contains(r) => Some(*r),
                _ => None,
            })
            .collect();
        let reported: HashSet<&str> = ra.callee_saved_used.iter().copied().collect();
        assert_eq!(assigned, reported, "callee set mismatch in: {src}");
    }
}

#[test]
fn regalloc_fib_callee_saved() {
    let m = lower(FIB);
    let ra = regalloc(&m);
    assert!(
        !ra.callee_saved_used.is_empty(),
        "fib should park a cross-call value in a callee-saved register"
    );
}

#[test]
fn small_functions_save_nothing() {
    for src in [
        "fn f(a: i64, b: i64) -> i64:\n    return (a + b) * (a - b)\n",
        "fn f(a: i64) -> i64:\n    if a < 0:\n        return -a\n    return a + 1\n",
    ] {
        let m = lower(src);
        assert_eq!(m.n_params as usize, read_fn(src).params.len());
        let ra = regalloc(&m);
        assert!(ra.loc.len() <= 4);
        assert!(ra.callee_saved_used.is_empty());
        assert!(ra.loc.values().all(|l| matches!(l, Loc::Reg(_))));
    }
}

#[test]
fn regalloc_prefers_volatile() {
    let m = lower("fn add(a: i64, b: i64) -> i64:\n    return a + b\n");
    let ra = regalloc(&m);
    assert!(
        ra.callee_saved_used.is_empty(),
        "call-free fn should not need callee-saved registers"
    );
}

// ---- the x86-64 back end ----

fn code_of(src: &str, info: &IntInfo, mir: bool) -> Result<String, String> {
    Codegen::new().generate(&lumenc::compile(read(src), Vec::new(), &NameSet::new()).unwrap(), info, mir)
}

#[test]
fn code_of_empty_program() {
    let code = code_of("", &IntInfo::new(), false).unwrap();
    let want = "    .intel_syntax noprefix\n    .text\n    .globl main\n\nlumen_user_main:\n    push rbp\n    mov rbp, rsp\n    sub rsp, 32\n    call lumen_nil\n    mov rsp, rbp\n    pop rbp\n    ret\n\nmain:\n    push rbp\n    mov rbp, rsp\n    sub rsp, 32\n    call lumen_set_args\n    mov rcx, rbp\n    call lumen_gc_init\n    call lumen_user_main\n    xor eax, eax\n    add rsp, 32\n    pop rbp\n    ret\n\n\n    .section .rodata\n";
    assert_eq!(code, want);
}

#[test]
fn code_calls_main_once() {
    let code = code_of("fn main():\n    print(1)\n", &IntInfo::new(), false).unwrap();
    assert_eq!(code.matches("call lm_main").count(), 1);
    let called = code_of("fn main():\n    print(1)\nmain()\n", &IntInfo::new(), false).unwrap();
    assert_eq!(called.matches("call lm_main").count(), 1);
}

fn int_info() -> IntInfo {
    let mut info = IntInfo::new();
    let mut vars = NameSet::new();
    vars.insert("n");
    info.int_vars.insert("fib", vars);
    info.int_ret.insert("fib");
    info
}

#[test]
fn raw_entry_has_guard() {
    let code = code_of(FIB, &int_info(), false).unwrap();
    assert!(code.contains("lm_fib.raw:\n    cmp rcx, 2\n    jge .Lnoskip_"));
    assert!(code.contains("    mov rax, rcx\n    ret\n"));
    assert!(code.contains("call lm_fib.raw"));
}

#[test]
fn raw_entry_from_ssa_form() {
    let plain = code_of(FIB, &int_info(), false).unwrap();
    let ssa = code_of(FIB, &int_info(), true).unwrap();
    assert!(ssa.contains(".Lmb_"));
    assert!(!plain.contains(".Lmb_"));
    assert!(ssa.contains("    mov r15, [rbp"));
}

#[test]
fn tail_call_is_a_jump() {
    let code = code_of(
        "fn down(n):\n    if n == 0:\n        return 0\n    return down(n - 1)\n",
        &IntInfo::new(),
        false,
    )
    .unwrap();
    assert!(code.contains("jmp .Ltailtop_"));
    assert!(!code.contains("call lm_down\n"));
}

#[test]
fn code_reports_errors() {
    let e = code_of("print(nope)\n", &IntInfo::new(), false).unwrap_err();
    assert_eq!(e, "undefined variable 'nope' - is it spelled correctly and in scope?");
    let r = code_of("let x = range(1, 2, 3)\n", &IntInfo::new(), false).unwrap_err();
    assert_eq!(r, "range() takes 1 or 2 args");
}

#[test]
fn strings_are_escaped() {
    assert_eq!(escape("a\"b\\c\n\t\r\u{1}"), "a\\\"b\\\\c\\n\\t\\r\\001");
    let code = code_of("print(\"a\\nb\")\n", &IntInfo::new(), false).unwrap();
    assert!(code.contains(".str0: .asciz \"a\\nb\"\n"));
}

#[test]
fn lambdas_are_lifted() {
    let code = code_of("fn main():\n    let k = 2\n    let f = fn(x) => x + k\n    print(f(1))\n", &IntInfo::new(), false)
        .unwrap();
    assert!(code.contains("call lumen_closure_new"));
    assert!(code.contains("call lumen_closure_set_cap"));
}

// ---- the LLVM back end ----

fn module_of(src: &str, info: &IntInfo) -> Result<String, String> {
    LlvmGen::new().generate(&lumenc::compile(read(src), Vec::new(), &NameSet::new()).unwrap(), info)
}

#[test]
fn module_of_empty_program() {
    let got = module_of("", &IntInfo::new()).unwrap();
    let want = "; Lumen LLVM backend output\ntarget triple = \"x86_64-w64-windows-gnu\"\n\ndeclare i64 @lumen_nil()\ndeclare void @lumen_set_args(i32, ptr)\ndeclare void @lumen_gc_init(ptr)\ndeclare ptr @llvm.frameaddress.p0(i32)\n\n\ndefine i64 @lumen_user_main() {\nentry:\n  %v1 = call i64 @lumen_nil()\n  ret i64 %v1\n}\n\ndefine i32 @main(i32 %argc, ptr %argv) {\nentry:\n  call void @lumen_set_args(i32 %argc, ptr %argv)\n  %fb = call ptr @llvm.frameaddress.p0(i32 0)\n  call void @lumen_gc_init(ptr %fb)\n  %_r = call i64 @lumen_user_main()\n  ret i32 0\n}\n";
    assert_eq!(got, want);
}

#[test]
fn module_of_function() {
    let got = module_of("fn add(a, b):\n    return a + b\n", &IntInfo::new()).unwrap();
    let want = "define i64 @lm_add(i64 %a0, i64 %a1) {\nentry:\n  %p0.slot = alloca i64\n  store i64 %a0, ptr %p0.slot\n  %p1.slot = alloca i64\n  store i64 %a1, ptr %p1.slot\n  %v1 = load i64, ptr %p0.slot\n  %v2 = load i64, ptr %p1.slot\n  %v3 = call i64 @lumen_add(i64 %v1, i64 %v2)\n  ret i64 %v3\n}\n\n";
    assert!(got.contains(want));
    assert!(got.contains("declare i64 @lumen_add(i64, i64)\n"));
}

#[test]
fn module_unboxes_known_integers() {
    let got = module_of(FIB, &int_info()).unwrap();
    assert!(got.contains("icmp slt i64"));
    assert!(got.contains("or i64 %v"));
    let boxed = module_of(FIB, &IntInfo::new()).unwrap();
    assert!(boxed.contains("call i64 @lumen_lt(i64"));
}

#[test]
fn module_slots_come_first() {
    let got = module_of("if true:\n    let x = 1\n", &IntInfo::new()).unwrap();
    let slot = got.find("%l.x = alloca i64").unwrap();
    let branch = got.find("br i1").unwrap();
    assert!(slot < branch);
}

#[test]
fn module_with_try_is_volatile() {
    let src = "let x = 1\ntry:\n    x = 2\ncatch e:\n    print(e)\n";
    let got = module_of(src, &IntInfo::new()).unwrap();
    assert!(got.contains("  store volatile i64 "));
    assert!(!got.contains("  store i64 "));
    assert!(got.contains("declare i32 @lumen_setjmp(ptr) returns_twice\n"));
}

#[test]
fn module_strings() {
    let got = module_of("print(\"a\\\"b\")\n", &IntInfo::new()).unwrap();
    assert!(got.contains("@.str0 = private unnamed_addr constant [4 x i8] c\"a\\22b\\00\"\n"));
    let float = module_of("print(1.5)\n", &IntInfo::new()).unwrap();
    assert!(float.contains("call i64 @lumen_from_double(double 0x3FF8000000000000)"));
}

#[test]
fn module_reports_errors() {
    assert_eq!(module_of("break\n", &IntInfo::new()).unwrap_err(), "break outside loop");
    assert_eq!(module_of("continue\n", &IntInfo::new()).unwrap_err(), "continue outside loop");
    assert_eq!(module_of("print(nope)\n", &IntInfo::new()).unwrap_err(), "undefined name 'nope'");
    assert_eq!(module_of("nope()\n", &IntInfo::new()).unwrap_err(), "undefined function 'nope'");
    assert_eq!(module_of("let x = [1]\nx.nope()\n", &IntInfo::new()).unwrap_err(), "unknown method 'nope'");
    assert_eq!(module_of("math.nope()\n", &IntInfo::new()).unwrap_err(), "native math: no fn 'nope'");
    assert_eq!(module_of("1 = 2\n", &IntInfo::new()).unwrap_err(), "invalid assignment target");
    assert_eq!(module_of("let x = range(1, 2, 3)\n", &IntInfo::new()).unwrap_err(), "range() takes 1 or 2 args");
}

// ---- the interpreter ----

fn number(v: &Value) -> f64 {
    match v {
        Value::Int(n) => *n as f64,
        Value::Float(b) => f64::from_bits(*b),
        _ => 0.0,
    }
}

fn answer(a: &Action, out: &mut Vec<String>, input: &mut Vec<String>) -> Reply {
    match a {
        Action::FloatText { bits } => {
            let x = f64::from_bits(*bits);
            Reply::Text(if x.fract() == 0.0 && x.is_finite() { format!("{:.1}", x) } else { format!("{}", x) })
        }
        Action::FloatOf { n } => Reply::Float((*n as f64).to_bits()),
        Action::Arith { op, a, b } => {
            let (x, y) = (f64::from_bits(*a), f64::from_bits(*b));
            let r = match op {
                BinOp::Add => x + y,
                BinOp::Sub => x - y,
                BinOp::Mul => x * y,
                BinOp::Div => x / y,
                BinOp::Mod => x % y,
                _ => x.powf(y),
            };
            Reply::Float(r.to_bits())
        }
        Action::Truncate { bits } => Reply::Int(f64::from_bits(*bits) as i64),
        Action::Round { bits } => Reply::Int(f64::from_bits(*bits).round() as i64),
        Action::ParseFloat { text } => Reply::Parsed(text.parse::<f64>().ok().map(|x| x.to_bits())),
        Action::Sum { items } => Reply::Float(items.iter().map(number).sum::<f64>().to_bits()),
        Action::Print { text } => {
            out.push(text.clone());
            Reply::Unit
        }
        Action::Input { prompt } => {
            if let Some(p) = prompt {
                out.push(p.clone());
            }
            Reply::Line(if input.is_empty() { None } else { Some(input.remove(0)) })
        }
        Action::Module { module, name, .. } => Reply::Fail(format!("{module}.{name} is not here")),
        Action::Extern { name, .. } => Reply::Fail(format!("{name} is not here")),
    }
}

fn run_with(src: &str, input: Vec<String>) -> (Vec<String>, Result<(), String>) {
    run_items(read(src), input)
}

fn run_items(items: Vec<Item>, mut input: Vec<String>) -> (Vec<String>, Result<(), String>) {
    let prog = lumenc::compile(items, Vec::new(), &NameSet::new()).unwrap();
    let mut m = Interp::new();
    m.run(&prog);
    let mut out = Vec::new();
    loop {
        if let Some(a) = m.asked() {
            let r = answer(a, &mut out, &mut input);
            m.reply(r);
        } else if let Some(r) = m.outcome() {
            return (out, r.map(|_| ()));
        } else {
            m.step();
        }
    }
}

fn run(src: &str) -> Vec<String> {
    let (out, r) = run_with(src, Vec::new());
    assert_eq!(r, Ok(()));
    out
}

fn fails(src: &str) -> String {
    run_with(src, Vec::new()).1.unwrap_err()
}

#[test]
fn runs_fib() {
    assert_eq!(run("fn fib(n):\n    if n < 2:\n        return n\n    return fib(n - 1) + fib(n - 2)\nprint(fib(15))\n"), ["610"]);
}

#[test]
fn runs_main_after_statements() {
    assert_eq!(run("fn main():\n    print(\"main\")\nprint(\"first\")\n"), ["first", "main"]);
    assert_eq!(run("fn main():\n    print(\"main\")\nmain()\nprint(\"last\")\n"), ["main", "last"]);
}

#[test]
fn counter_closure() {
    let src = "fn make(k):\n    return fn(x) => x + k\nlet f = make(10)\nprint(f(1), f(2))\n";
    assert_eq!(run(src), ["11 12"]);
}

fn ident(n: &str) -> Expr {
    Expr::Ident(n.to_string())
}

fn let_(n: &str, value: Expr) -> Stmt {
    Stmt::Let { name: n.to_string(), mutable: true, ty: Type::Unknown, value }
}

fn call_of(f: Expr, args: Vec<Expr>) -> Expr {
    Expr::Call { callee: Box::new(f), args }
}

fn lambda(params: &[&str], body: Vec<Stmt>) -> Expr {
    Expr::Lambda { params: params.iter().map(|p| p.to_string()).collect(), body }
}

/// `fn(): n = n + 1; return n`
fn counting(n: &str) -> Expr {
    let more = Expr::Binary { op: BinOp::Add, lhs: Box::new(ident(n)), rhs: Box::new(Expr::Int(1)) };
    lambda(&[], vec![Stmt::Assign { target: ident(n), value: more }, Stmt::Return(Some(ident(n)))])
}

fn runs_body(body: Vec<Stmt>) -> Vec<String> {
    let main = FnDef {
        name: "main".to_string(),
        params: vec![],
        ret: Type::Unknown,
        body,
        exported: false,
        is_method: false,
    };
    let (out, r) = run_items(vec![Item::Fn(main)], vec![]);
    assert_eq!(r, Ok(()));
    out
}

#[test]
fn nested_counters() {
    let twice = |f: &str| {
        let once = || call_of(ident(f), vec![]);
        Stmt::ExprStmt(call_of(ident("print"), vec![once(), once()]))
    };
    // A variable of a lambda that an inner lambda counts up.
    let make = lambda(&[], vec![let_("n", Expr::Int(0)), Stmt::Return(Some(counting("n")))]);
    let body = vec![let_("make", make), let_("c", call_of(ident("make"), vec![])), twice("c"), twice("c")];
    assert_eq!(runs_body(body), ["1 2", "3 4"]);
    // A parameter of a lambda.
    let from = lambda(&["n"], vec![Stmt::Return(Some(counting("n")))]);
    let body = vec![let_("make", from), let_("c", call_of(ident("make"), vec![Expr::Int(5)])), twice("c")];
    assert_eq!(runs_body(body), ["6 7"]);
    // The variable of a loop in a lambda.
    let keep = Stmt::Assign { target: ident("last"), value: counting("i") };
    let over = Expr::List(vec![Expr::Int(7), Expr::Int(8)]);
    let looped = lambda(
        &[],
        vec![
            let_("last", Expr::Nil),
            Stmt::For { var: "i".to_string(), iter: over, body: vec![keep] },
            Stmt::Return(Some(ident("last"))),
        ],
    );
    let body = vec![let_("make", looped), let_("c", call_of(ident("make"), vec![])), twice("c")];
    assert_eq!(runs_body(body), ["9 10"]);
    // The variable of a comprehension.
    let over = Expr::List(vec![Expr::Int(1), Expr::Int(10)]);
    let comp = Expr::ListComp {
        elem: Box::new(counting("x")),
        var: "x".to_string(),
        iter: Box::new(over),
        cond: None,
    };
    let pick = Expr::Index { obj: Box::new(ident("cs")), index: Box::new(Expr::Int(1)) };
    let body = vec![let_("cs", comp), let_("c", pick), twice("c")];
    assert_eq!(runs_body(body), ["11 12"]);
}

#[test]
fn comprehension_variables_are_restored() {
    let src = "fn main():\n    let x = 7\n    let ys = [x * 2 for x in [1, 2]]\n    print(x, ys)\n";
    assert_eq!(run(src), ["7 [2, 4]"]);
    let ir = module_of(src, &IntInfo::new()).unwrap();
    let comp = &ir[ir.find("@lumen_list_new(i64 0)").unwrap()..];
    let kept = comp.find("load i64, ptr %l.x").unwrap();
    assert!(comp[kept..].contains(", ptr %l.x\n"));
    assert_eq!(comp.matches(", ptr %l.x\n").count(), 5);
}

#[test]
fn conditions_of_the_fast_path_are_truth_values() {
    let ok = |src: &str| mir_eligible(&read_fn(src));
    assert!(ok("fn f(n: i64) -> i64:\n    if n < 3 and not (n == 2):\n        return n\n    return 0\n"));
    assert!(ok("fn f(n: i64) -> i64:\n    while true:\n        return n\n    return 0\n"));
    assert!(!ok("fn f(n: i64) -> i64:\n    if n:\n        return n\n    return 0\n"));
    assert!(!ok("fn f(n: i64) -> i64:\n    while n - 1:\n        return n\n    return 0\n"));
    assert!(!ok("fn f(n: i64) -> i64:\n    if n < 3 and n:\n        return n\n    return 0\n"));
    assert!(!ok("fn f(n: i64) -> i64:\n    if not n:\n        return n\n    return 0\n"));
    assert_eq!(
        fails("fn f(n: i64) -> i64:\n    if n:\n        return n\n    return 0\nprint(f(1))\n"),
        "condition must be a bool (Lumen has strict truthiness)"
    );
}

#[test]
fn integers_wrap_at_48_bits() {
    assert_eq!(run("print(140737488355327 + 1)\n"), ["-140737488355328"]);
    assert_eq!(run("print(2 ** 10, 2 ** 47, 3 ** 40)\n")[0], format!("1024 -140737488355328 {}", {
        let mut a: i64 = 1;
        for _ in 0..40 {
            a = (a.wrapping_mul(3) << 16) >> 16;
        }
        a
    }));
    assert_eq!(run("print(0 - 7 / 2, (0 - 7) / 2, (0 - 7) % 2)\n"), ["-3 -3 -1"]);
}

#[test]
fn floats_through_requests() {
    assert_eq!(run("print(1.5 + 2, 7.0 / 2.0, 2.0 ** 0.5 < 1.5, 1 == 1.0)\n"), ["3.5 3.5 true true"]);
    assert_eq!(run("print([1.0, 2.5], {1: 0.1})\n"), ["[1.0, 2.5] {1: 0.1}"]);
    assert_eq!(run("print(2 ** -1, round(2.6), int(2.9), float(3), -1.5, abs(-1.5))\n"), ["0.5 3 2 3.0 -1.5 1.5"]);
    assert_eq!(run("print(float(\" 2.5 \"))\n"), ["2.5"]);
    assert_eq!(fails("print(float(\"x\"))\n"), "float() parse error");
    assert_eq!(run("print(sum([1, 2.5]), min([3, 1.5, 2]), max([3, 1.5, 2]))\n"), ["3.5 1.5 3"]);
}

#[test]
fn lists_and_maps() {
    let src = "let xs = [3, 1, 2]\nxs.push(5)\nxs.sort()\nprint(xs, xs.len(), xs[0], xs[1:3])\nxs.reverse()\nprint(xs, xs.pop(), xs)\nxs.insert(0, 9)\nprint(xs, xs.contains(9), xs.index(3), xs.count(3), xs.join(\"-\"))\n";
    assert_eq!(run(src), ["[1, 2, 3, 5] 4 1 [2, 3]", "[5, 3, 2] 1 [5, 3, 2]", "[9, 5, 3, 2] true 2 1 9-5-3-2"]);
    let maps = "let m = {\"a\": 1, 1: \"x\"}\nm[\"b\"] = 2\nm[1.0] = \"y\"\nprint(m, m.len(), m.keys(), m.values())\nprint(m.has(\"a\"), m.get(\"z\"), m.get(\"z\", 7), m.remove(\"a\"), m)\n";
    assert_eq!(
        run(maps),
        ["{\"a\": 1, 1: \"y\", \"b\": 2} 3 [\"a\", 1, \"b\"] [1, \"y\", 2]", "true nil 7 1 {1: \"y\", \"b\": 2}"]
    );
}

#[test]
fn lists_are_shared() {
    assert_eq!(run("let a = [1]\nlet b = a\nb.push(2)\nprint(a)\n"), ["[1, 2]"]);
    assert_eq!(run("let a = [1]\nlet b = a\nprint(b.push(2), a)\n"), ["nil [1, 2]"]);
}

#[test]
fn string_methods() {
    let src = "let s = \"  Hello World \"\nprint(s.trim(), s.lstrip().len(), s.rstrip().len(), s.upper(), s.lower())\nlet t = \"a,b,,c\"\nprint(t.split(\",\"), t.replace(\",\", \";\"), t.find(\"b\"), t.find(\"z\"), t.starts_with(\"a,\"), t.ends_with(\"c\"), t.contains(\",,\"))\nprint(\"ab\".repeat(3), \"hello wORLD\".title(), \"-\".join([1, 2]), \"hello\"[1], \"hello\"[1:3], \"ell\" in \"hello\")\n";
    assert_eq!(
        run(src),
        [
            "Hello World 12 13   HELLO WORLD    hello world ",
            "[\"a\", \"b\", \"\", \"c\"] a;b;;c 2 -1 true true true",
            "ababab Hello World 1-2 e el true"
        ]
    );
}

#[test]
fn builtin_functions() {
    assert_eq!(
        run("print(len(\"abc\"), str(5), int(\" 42 \"), ord(\"A\"), chr(66), is_digit(\"1\"), is_alpha(\"1\"), is_space(\" \"))\n"),
        ["3 5 42 65 B true false true"]
    );
    assert_eq!(run("print(type(1), type(1.0), type(\"\"), type([]), type({}), type(nil), type(true))\n"), [
        "i64 f64 str list map nil bool"
    ]);
    assert_eq!(run("print(range(3), range(1, 3), sum([1, 2, 3]), min([2, 1]), max([2, 1]), abs(-3))\n"), [
        "[0, 1, 2] [1, 2] 6 1 2 3"
    ]);
}

#[test]
fn comprehension_restores_variable() {
    assert_eq!(run("let x = 5\nprint([x * x for x in 0..4 if x % 2 == 0], x)\n"), ["[0, 4] 5"]);
}

#[test]
fn loops_and_flow() {
    let src = "let t = 0\nfor i in 0..10:\n    if i == 3:\n        continue\n    if i == 6:\n        break\n    t = t + i\nprint(t)\nlet n = 3\nwhile n > 0:\n    n = n - 1\nprint(n)\nfor c in \"ab\":\n    print(c)\nfor k in {1: 2, 3: 4}:\n    print(k)\n";
    assert_eq!(run(src), ["12", "0", "a", "b", "1", "3"]);
}

#[test]
fn try_and_raise() {
    let src = "fn f(x):\n    if x > 1:\n        raise x\n    return x\ntry:\n    print(f(1))\n    print(f(404))\ncatch e:\n    print(\"caught\", e)\nprint(\"after\")\n";
    assert_eq!(run(src), ["1", "caught 404", "after"]);
    assert_eq!(fails("raise \"bad\"\n"), "bad");
}

#[test]
fn deep_tail_calls() {
    let src = "fn down(n, acc):\n    if n == 0:\n        return acc\n    return down(n - 1, acc + 1)\nprint(down(20000, 0))\n";
    assert_eq!(run(src), ["20000"]);
}

#[test]
fn structs_and_methods() {
    let src = "struct Point:\n    x\n    y\n    fn sum(self):\n        return self.x + self.y\nlet p = Point(1, 2)\np.x = 10\nprint(p.sum(), p, p.x)\n";
    assert_eq!(run(src), ["12 Point(x: 10, y: 2) 10"]);
}

#[test]
fn short_circuit_skips() {
    let src = "fn f():\n    print(\"called\")\n    return true\nprint(false and f(), true or f(), true and f())\n";
    assert_eq!(run(src), ["called", "false true true"]);
}

#[test]
fn input_lines() {
    let (out, r) = run_with("print(input(\"? \"), input())\nprint(input())\n", vec!["one\r\n".to_string(), "two\n".to_string()]);
    assert_eq!(r, Ok(()));
    assert_eq!(out, ["? ", "one two", "nil"]);
}

#[test]
fn interpreter_errors() {
    assert_eq!(fails("print(nope)\n"), "undefined variable: nope");
    assert_eq!(fails("nope()\n"), "undefined function: nope");
    assert_eq!(fails("if 1:\n    print(1)\n"), "condition must be a bool (Lumen has strict truthiness)");
    assert_eq!(fails("print(1 / 0)\n"), "division by zero");
    assert_eq!(fails("print(1 % 0)\n"), "modulo by zero");
    assert_eq!(fails("print([1][3])\n"), "index out of range");
    assert_eq!(fails("print({}[\"k\"])\n"), "key not found: \"k\"");
    assert_eq!(fails("print(1 + \"a\")\n"), "unsupported operands for Add");
    assert_eq!(fails("print(not 1)\n"), "bad operand to unary operator");
    assert_eq!(fails("print(1 in 2)\n"), "'in' requires a list, map, or string on the right");
    assert_eq!(fails("print(1 in \"a\")\n"), "'in' on a string requires a string on the left");
    assert_eq!(fails("[].pop()\n"), "pop from empty list");
    assert_eq!(fails("[].nope()\n"), "no method 'nope' on value");
    assert_eq!(fails("math.nope()\n"), "math: no function 'nope'");
    assert_eq!(fails("assert(false)\n"), "assertion failed");
    assert_eq!(fails("print(min([]))\n"), "min() of empty list");
    assert_eq!(fails("for x in 5:\n    print(x)\n"), "for-loop target is not iterable");
    assert_eq!(fails("for x in 0..\"a\":\n    print(x)\n"), "range bounds must be ints");
    assert_eq!(fails("print(int(\"x\"))\n"), "int() parse error");
    assert_eq!(fails("1 = 2\n"), "invalid assignment target");
    assert_eq!(fails("let x = 1\nx.y = 2\n"), "field assignment on non-struct");
    assert_eq!(fails("let x = 1\nx[0] = 2\n"), "bad index assignment");
    assert_eq!(fails("print(5[0])\n"), "bad index operation");
    assert_eq!(fails("print(5[0:1])\n"), "can only slice a list or string");
    assert_eq!(fails("print(\"a\"[\"b\":])\n"), "slice bounds must be integers");
    assert_eq!(fails("let a = []\na.push(a)\nprint(a)\n"), "value contains itself");
}

#[test]
fn repl_gives_values() {
    let prog = read("fn f(x):\n    return x * 2\nlet a = 4\nf(a)\n");
    let mut m = Interp::new();
    let stmts = m.register_decls(&prog);
    assert_eq!(stmts.len(), 2);
    m.repl_exec(stmts[0]);
    while m.outcome().is_none() {
        m.step();
    }
    assert!(matches!(m.outcome(), Some(Ok(None))));
    m.repl_exec(stmts[1]);
    while m.outcome().is_none() {
        m.step();
    }
    assert!(matches!(m.outcome(), Some(Ok(Some(Value::Int(8))))));
    assert_eq!(m.current_line(), 0);
    assert!(m.heap().is_empty());
    let a = m.add_obj(Obj::List(Vec::new()));
    assert_eq!(a, 0);
}
