//! The LLVM back end, functions and programs: a module in LLVM's textual form, on top
//! of the Lumen runtime.

use crate::asmstate::{pair_view, text_map, text_opt, Decls};
use crate::ast::{
    params_view, prog_view, stmts_facts, FnDef, FnDefView, Item, ItemView, Param, ParamView,
};
use crate::irstate::{body_has_try, tries, Ir, IrEmitter, IrEnv, IrEnvView};
use crate::irstmt::gen_stmts;
use crate::names::{NameMap, NameSet};
use crate::program::{collect, decls_of, entry_fn, entry_of, methods_of, methods_view, DeclsView};
use crate::text::{
    concat, contains_text, dec_nat, from_range, has_text, lines, lines_spec, push_u64,
    replace_spec, replace_text, skip_white, str_eq, texts_view, to_chars, trim_start_spec,
};
use crate::typeinfo::{IntInfo, IntInfoView};
use vstd::prelude::*;
use vstd::string::StringExecFns;

verus! {

/// The slot of the `i`-th parameter.
pub open spec fn param_slot(i: nat) -> Seq<char> {
    "%p"@ + dec_nat(i) + ".slot"@
}

/// The first `k` parameters in a signature.
pub open spec fn param_list(k: nat) -> Seq<char>
    decreases k,
{
    if k == 0 {
        Seq::empty()
    } else if k == 1 {
        "i64 %a0"@
    } else {
        param_list((k - 1) as nat) + ", i64 %a"@ + dec_nat((k - 1) as nat)
    }
}

/// Stores the first `k` parameters in their slots.
pub open spec fn param_stores(k: nat) -> Seq<char>
    decreases k,
{
    if k == 0 {
        Seq::empty()
    } else {
        let i = (k - 1) as nat;
        param_stores(i) + "  "@ + param_slot(i) + " = alloca i64\n  store i64 %a"@ + dec_nat(i)
            + ", ptr "@ + param_slot(i) + "\n"@
    }
}

/// Where the first `k` parameters live.
pub open spec fn param_locals(ps: Seq<ParamView>, k: nat) -> Map<Seq<char>, Seq<char>>
    decreases k,
{
    if k == 0 || k > ps.len() {
        Map::empty()
    } else {
        param_locals(ps, (k - 1) as nat).insert(ps[k - 1].name, param_slot((k - 1) as nat))
    }
}

/// Where `self` lives.
pub open spec fn self_slot(ps: Seq<ParamView>, k: nat) -> Option<Seq<char>>
    decreases k,
{
    if k == 0 || k > ps.len() {
        None
    } else if ps[k - 1].name == "self"@ {
        Some(param_slot((k - 1) as nat))
    } else {
        self_slot(ps, (k - 1) as nat)
    }
}

pub open spec fn is_alloca(line: Seq<char>) -> bool {
    contains_text(trim_start_spec(line), " = alloca "@)
}

/// The lines that reserve slots, or the others.
pub open spec fn pick_lines(ls: Seq<Seq<char>>, allocas: bool) -> Seq<char>
    decreases ls.len(),
{
    if ls.len() == 0 {
        Seq::empty()
    } else if is_alloca(ls.last()) == allocas {
        pick_lines(ls.drop_last(), allocas) + ls.last() + "\n"@
    } else {
        pick_lines(ls.drop_last(), allocas)
    }
}

/// Loads and stores that no register may stand for: a register does not survive a jump
/// to a `catch`.
pub open spec fn volatile_text(s: Seq<char>) -> Seq<char> {
    replace_spec(
        replace_spec(s, "  store i64 "@, "  store volatile i64 "@),
        " = load i64, ptr "@,
        " = load volatile i64, ptr "@,
    )
}

pub open spec fn ir_env(d: DeclsView, info: IntInfoView, f: FnDefView) -> IrEnvView {
    IrEnvView {
        externs: d.externs,
        fns: d.fns,
        structs: d.structs,
        methods: d.methods,
        info,
        func: f.name,
        self_slot: self_slot(f.params, f.params.len()),
        has_try: tries(f.body),
    }
}

/// The state in which the body of a function is written.
pub open spec fn begin_ir(g: Ir, f: FnDefView) -> Ir {
    Ir {
        out: Seq::empty(),
        tmp: 0,
        lbl: 0,
        locals: param_locals(f.params, f.params.len()),
        loops: Seq::empty(),
        term: false,
        ..g
    }
}

/// A function. Its slots are reserved at its start, wherever the code first uses them.
#[verifier::opaque]
pub open spec fn ir_fn(g: Ir, d: DeclsView, info: IntInfoView, sym: Seq<char>, f: FnDefView) -> (
    Ir,
    Seq<char>,
) {
    let g1 = gen_stmts(begin_ir(g, f), ir_env(d, info, f), f.body, f.body.len());
    let ls = lines_spec(g1.out, Seq::empty());
    let rest = pick_lines(ls, false);
    let text = "define i64 @"@ + sym + "("@ + param_list(f.params.len()) + ") {\n"@ + "entry:\n"@
        + param_stores(f.params.len()) + pick_lines(ls, true) + (if tries(f.body) {
        volatile_text(rest)
    } else {
        rest
    });
    if g1.term {
        (g1, text + "}\n\n"@)
    } else {
        let (g2, n) = g1.need("lumen_nil"@, "i64 @lumen_nil()"@).vreg();
        (
            g2,
            text + "  "@ + n + " = call i64 @lumen_nil()\n  ret i64 "@ + n + "\n"@ + "}\n\n"@,
        )
    }
}

/// The names of the functions that a module defines.
pub open spec fn defined(
    items: Seq<ItemView>,
    ms: Seq<(Seq<char>, FnDefView)>,
) -> Set<Seq<char>> {
    fn_symbols(items).union(method_symbols(ms)).insert("lumen_user_main"@)
}

pub open spec fn fn_symbols(items: Seq<ItemView>) -> Set<Seq<char>>
    decreases items.len(),
{
    if items.len() == 0 {
        Set::empty()
    } else {
        let init = fn_symbols(items.drop_last());
        match items.last() {
            ItemView::Fn(f) => init.insert("lm_"@ + f.name),
            _ => init,
        }
    }
}

pub open spec fn method_symbol(owner: Seq<char>, name: Seq<char>) -> Seq<char> {
    "lm_"@ + owner + "__"@ + name
}

pub open spec fn method_symbols(ms: Seq<(Seq<char>, FnDefView)>) -> Set<Seq<char>>
    decreases ms.len(),
{
    if ms.len() == 0 {
        Set::empty()
    } else {
        method_symbols(ms.drop_last()).insert(method_symbol(ms.last().0, ms.last().1.name))
    }
}

/// The code of the functions among the first `k` items.
pub open spec fn ir_fns(
    g: Ir,
    d: DeclsView,
    info: IntInfoView,
    items: Seq<ItemView>,
    k: nat,
) -> (Ir, Seq<char>)
    decreases k,
{
    if k == 0 || k > items.len() {
        (g, Seq::empty())
    } else {
        let (g1, t) = ir_fns(g, d, info, items, (k - 1) as nat);
        match items[k - 1] {
            ItemView::Fn(f) => {
                let (g2, a) = ir_fn(g1, d, info, "lm_"@ + f.name, f);
                (g2, t + a)
            },
            _ => (g1, t),
        }
    }
}

/// The code of the first `k` methods.
pub open spec fn ir_methods(
    g: Ir,
    d: DeclsView,
    info: IntInfoView,
    ms: Seq<(Seq<char>, FnDefView)>,
    k: nat,
) -> (Ir, Seq<char>)
    decreases k,
{
    if k == 0 || k > ms.len() {
        (g, Seq::empty())
    } else {
        let (g1, t) = ir_methods(g, d, info, ms, (k - 1) as nat);
        let (g2, a) = ir_fn(
            g1,
            d,
            info,
            method_symbol(ms[k - 1].0, ms[k - 1].1.name),
            ms[k - 1].1,
        );
        (g2, t + a)
    }
}

pub open spec fn main_text() -> Seq<char> {
    "define i32 @main(i32 %argc, ptr %argv) {\nentry:\n"@
        + "  call void @lumen_set_args(i32 %argc, ptr %argv)\n"@
        + "  %fb = call ptr @llvm.frameaddress.p0(i32 0)\n"@
        + "  call void @lumen_gc_init(ptr %fb)\n"@ + "  %_r = call i64 @lumen_user_main()\n"@
        + "  ret i32 0\n}\n"@
}

/// The back end before it has written anything of a module that defines `names`.
pub open spec fn blank_ir(names: Set<Seq<char>>) -> Ir {
    Ir {
        out: Seq::empty(),
        decls: Seq::empty(),
        globals: Seq::empty(),
        declared: names,
        str_count: 0,
        tmp: 0,
        lbl: 0,
        locals: Map::empty(),
        loops: Seq::empty(),
        val: Seq::empty(),
        term: false,
        err: None,
    }
}

/// The module of a program, and the first error if there is one.
pub open spec fn module_text(items: Seq<ItemView>, info: IntInfoView) -> (
    Option<Seq<char>>,
    Seq<char>,
) {
    let d = decls_of(items, info);
    let ms = methods_of(items);
    let (g1, fns) = ir_fns(blank_ir(defined(items, ms)), d, info, items, items.len());
    let (g2, methods) = ir_methods(g1, d, info, ms, ms.len());
    let (g3, entry) = ir_fn(g2, d, info, "lumen_user_main"@, entry_fn(items));
    let g = g3.need("lumen_set_args"@, "void @lumen_set_args(i32, ptr)"@).need(
        "lumen_gc_init"@,
        "void @lumen_gc_init(ptr)"@,
    ).need("lumen_user_main"@, "i64 @lumen_user_main()"@).need(
        "llvm.frameaddress.p0"@,
        "ptr @llvm.frameaddress.p0(i32)"@,
    );
    (
        g.err,
        "; Lumen LLVM backend output\n"@ + "target triple = \"x86_64-w64-windows-gnu\"\n\n"@
            + g.decls + "\n"@ + g.globals + "\n"@ + fns + methods + entry + main_text(),
    )
}

fn push_slot(s: &mut String, i: u64)
    ensures
        final(s)@ == old(s)@ + param_slot(i as nat),
{
    let ghost s0 = s@;
    s.append("%p");
    push_u64(s, i);
    s.append(".slot");
    assert(s@ =~= s0 + param_slot(i as nat));
}

fn push_params(s: &mut String, n: u64)
    ensures
        final(s)@ == old(s)@ + param_list(n as nat),
    decreases n,
{
    let ghost s0 = s@;
    if n == 1 {
        s.append("i64 %a0");
    } else if n > 1 {
        push_params(s, n - 1);
        s.append(", i64 %a");
        push_u64(s, n - 1);
    }
    assert(s@ =~= s0 + param_list(n as nat));
}

fn push_stores(s: &mut String, n: u64)
    ensures
        final(s)@ == old(s)@ + param_stores(n as nat),
    decreases n,
{
    let ghost s0 = s@;
    if n > 0 {
        push_stores(s, n - 1);
        s.append("  ");
        push_slot(s, n - 1);
        s.append(" = alloca i64\n  store i64 %a");
        push_u64(s, n - 1);
        s.append(", ptr ");
        push_slot(s, n - 1);
        s.append("\n");
    }
    assert(s@ =~= s0 + param_stores(n as nat));
}

fn bind_params(ps: &Vec<Param>) -> (r: (NameMap<String>, Option<String>))
    ensures
        text_map(r.0@) == param_locals(params_view(ps@), ps@.len()),
        text_opt(r.1) == self_slot(params_view(ps@), ps@.len()),
{
    let mut m: NameMap<String> = NameMap::new();
    let mut own: Option<String> = None;
    let ghost pv = params_view(ps@);
    assert(text_map(m@) =~= Map::empty());
    for i in 0..ps.len()
        invariant
            pv == params_view(ps@),
            text_map(m@) == param_locals(pv, i as nat),
            text_opt(own) == self_slot(pv, i as nat),
    {
        assert(pv[i as int] == ps@[i as int]@);
        let mut slot = String::new();
        push_slot(&mut slot, i as u64);
        assert(slot@ =~= param_slot(i as nat));
        let ghost m0 = m@;
        if str_eq(ps[i].name.as_str(), "self") {
            own = Some(slot.clone());
        }
        m.insert(ps[i].name.as_str(), slot);
        assert(text_map(m@) =~= text_map(m0).insert(pv[i as int].name, slot@));
    }
    (m, own)
}

fn line_is_alloca(line: &str) -> (r: bool)
    ensures
        r == is_alloca(line@),
{
    let v = to_chars(line);
    let i: usize = skip_white(&v);
    let rest = from_range(&v, i, v.len());
    assert(rest@ =~= v@.skip(i as int));
    has_text(rest.as_str(), " = alloca ")
}

fn choose_lines(ls: &Vec<String>, allocas: bool) -> (r: String)
    ensures
        r@ == pick_lines(texts_view(ls@), allocas),
{
    let mut s = String::new();
    let ghost lv = texts_view(ls@);
    assert(lv.take(0) =~= Seq::empty());
    assert(s@ =~= Seq::empty());
    for i in 0..ls.len()
        invariant
            lv == texts_view(ls@),
            s@ == pick_lines(lv.take(i as int), allocas),
    {
        assert(lv.take(i + 1).drop_last() =~= lv.take(i as int));
        assert(lv.take(i + 1).last() == ls@[i as int]@);
        if line_is_alloca(ls[i].as_str()) == allocas {
            s.append(ls[i].as_str());
            s.append("\n");
        }
    }
    assert(lv.take(ls@.len() as int) =~= lv);
    s
}

impl IrEmitter {
    fn begin_ir(&mut self, locals: NameMap<String>, Ghost(f): Ghost<FnDefView>)
        requires
            text_map(locals@) == param_locals(f.params, f.params.len()),
        ensures
            final(self)@ == begin_ir(old(self)@, f),
    {
        self.out = String::new();
        self.tmp = 0;
        self.lbl = 0;
        self.locals = locals;
        self.loops = Vec::new();
        self.term = false;
        assert(pair_view(self.loops@) =~= Seq::empty());
    }

    fn ir_fn(&mut self, d: &Decls, info: &IntInfo, sym: &str, f: &FnDef) -> (r: String)
        ensures
            (final(self)@, r@) == ir_fn(old(self)@, d@, info@, sym@, f@),
    {
        proof {
            reveal(ir_fn);
            stmts_facts(f.body@);
        }
        let (locals, own) = bind_params(&f.params);
        let held = body_has_try(&f.body);
        self.begin_ir(locals, Ghost(f@));
        let env = IrEnv { decls: d, info, func: f.name.as_str(), self_slot: own, has_try: held };
        assert(env@ == ir_env(d@, info@, f@));
        self.gen_stmts(&env, &f.body, f.body.len());
        let ls = lines(self.out.as_str());
        let first = choose_lines(&ls, true);
        let mut rest = choose_lines(&ls, false);
        if held {
            let once = replace_text(rest.as_str(), "  store i64 ", "  store volatile i64 ");
            rest = replace_text(once.as_str(), " = load i64, ptr ", " = load volatile i64, ptr ");
        }
        let mut s = "define i64 @".to_owned();
        s.append(sym);
        s.append("(");
        push_params(&mut s, f.params.len() as u64);
        s.append(") {\n");
        s.append("entry:\n");
        push_stores(&mut s, f.params.len() as u64);
        s.append(first.as_str());
        s.append(rest.as_str());
        if !self.term {
            self.need("lumen_nil", "i64 @lumen_nil()");
            let n = self.vreg();
            s.append("  ");
            s.append(n.as_str());
            s.append(" = call i64 @lumen_nil()\n  ret i64 ");
            s.append(n.as_str());
            s.append("\n");
        }
        s.append("}\n\n");
        s
    }

    fn ir_fns(&mut self, d: &Decls, info: &IntInfo, prog: &Vec<Item>) -> (out: String)
        ensures
            (final(self)@, out@) == ir_fns(
                old(self)@,
                d@,
                info@,
                prog_view(prog@),
                prog@.len(),
            ),
    {
        let ghost g0 = self@;
        let ghost pv = prog_view(prog@);
        let mut out = String::new();
        assert(out@ =~= Seq::empty());
        for i in 0..prog.len()
            invariant
                pv == prog_view(prog@),
                (self@, out@) == ir_fns(g0, d@, info@, pv, i as nat),
        {
            assert(pv[i as int] == prog@[i as int]@);
            if let Item::Fn(f) = &prog[i] {
                let sym = concat("lm_", f.name.as_str());
                let a = self.ir_fn(d, info, sym.as_str(), f);
                out.append(a.as_str());
            }
        }
        out
    }

    fn ir_methods(&mut self, d: &Decls, info: &IntInfo, ms: &Vec<(String, FnDef)>) -> (out: String)
        ensures
            (final(self)@, out@) == ir_methods(
                old(self)@,
                d@,
                info@,
                methods_view(ms@),
                ms@.len(),
            ),
    {
        let ghost g0 = self@;
        let ghost mv = methods_view(ms@);
        let mut out = String::new();
        assert(out@ =~= Seq::empty());
        for i in 0..ms.len()
            invariant
                mv == methods_view(ms@),
                (self@, out@) == ir_methods(g0, d@, info@, mv, i as nat),
        {
            let (owner, f) = &ms[i];
            assert(mv[i as int] == (owner@, f@));
            let mut sym = concat("lm_", owner.as_str());
            sym.append("__");
            sym.append(f.name.as_str());
            let a = self.ir_fn(d, info, sym.as_str(), f);
            out.append(a.as_str());
        }
        out
    }
}

fn symbols(prog: &Vec<Item>, ms: &Vec<(String, FnDef)>) -> (r: NameSet)
    ensures
        r@ == defined(prog_view(prog@), methods_view(ms@)),
{
    let mut r = NameSet::new();
    let ghost pv = prog_view(prog@);
    assert(pv.take(0) =~= Seq::empty());
    for i in 0..prog.len()
        invariant
            pv == prog_view(prog@),
            r@ == fn_symbols(pv.take(i as int)),
    {
        assert(pv.take(i + 1).drop_last() =~= pv.take(i as int));
        assert(pv.take(i + 1).last() == prog@[i as int]@);
        if let Item::Fn(f) = &prog[i] {
            let sym = concat("lm_", f.name.as_str());
            r.insert(sym.as_str());
        }
    }
    assert(pv.take(prog@.len() as int) =~= pv);
    let ghost mv = methods_view(ms@);
    assert(mv.take(0) =~= Seq::empty());
    assert(r@ =~= fn_symbols(pv).union(method_symbols(mv.take(0))));
    for i in 0..ms.len()
        invariant
            mv == methods_view(ms@),
            r@ == fn_symbols(pv).union(method_symbols(mv.take(i as int))),
    {
        assert(mv.take(i + 1).drop_last() =~= mv.take(i as int));
        let (owner, f) = &ms[i];
        assert(mv.take(i + 1).last() == (owner@, f@));
        let mut sym = concat("lm_", owner.as_str());
        sym.append("__");
        sym.append(f.name.as_str());
        r.insert(sym.as_str());
        assert(r@ =~= fn_symbols(pv).union(method_symbols(mv.take(i + 1))));
    }
    assert(mv.take(ms@.len() as int) =~= mv);
    r.insert("lumen_user_main");
    r
}

/// The back end. One value writes one module.
pub struct LlvmGen {
    emitter: IrEmitter,
}

impl LlvmGen {
    /// The state of the back end.
    pub closed spec fn state(&self) -> Ir {
        self.emitter@
    }

    pub fn new() -> (r: LlvmGen)
        ensures
            r.state() == blank_ir(Set::empty()),
    {
        let r = LlvmGen {
            emitter: IrEmitter {
                out: String::new(),
                decls: String::new(),
                globals: String::new(),
                declared: NameSet::new(),
                str_count: 0,
                tmp: 0,
                lbl: 0,
                locals: NameMap::new(),
                loops: Vec::new(),
                val: String::new(),
                term: false,
                err: None,
            },
        };
        proof {
            let g = r.emitter@;
            assert(
                g.out =~= Seq::empty() && g.decls =~= Seq::empty() && g.globals =~= Seq::empty()
            );
            assert(g.locals =~= Map::empty() && g.loops =~= Seq::empty() && g.val =~= Seq::empty());
        }
        r
    }

    /// The LLVM module of `prog`, or the first error. `info` is what is known of the
    /// program's types.
    pub fn generate(self, prog: &Vec<Item>, info: &IntInfo) -> (r: Result<String, String>)
        requires
            self.state() == blank_ir(Set::empty()),
        ensures
            ({
                let (err, text) = module_text(prog_view(prog@), info@);
                match r {
                    Ok(s) => err is None && s@ == text,
                    Err(m) => err == Some(m@),
                }
            }),
    {
        let mut em = self.emitter;
        let c = collect(prog, info);
        let ghost pv = prog_view(prog@);
        em.declared = symbols(prog, &c.methods);
        assert(em@ == blank_ir(defined(pv, methods_of(pv))));
        let fns = em.ir_fns(&c.decls, info, prog);
        let methods = em.ir_methods(&c.decls, info, &c.methods);
        let entry = entry_of(c.top, &c.decls.fns, Ghost(pv));
        let e = em.ir_fn(&c.decls, info, "lumen_user_main", &entry);
        em.need("lumen_set_args", "void @lumen_set_args(i32, ptr)");
        em.need("lumen_gc_init", "void @lumen_gc_init(ptr)");
        em.need("lumen_user_main", "i64 @lumen_user_main()");
        em.need("llvm.frameaddress.p0", "ptr @llvm.frameaddress.p0(i32)");
        let mut out = "; Lumen LLVM backend output\n".to_owned();
        out.append("target triple = \"x86_64-w64-windows-gnu\"\n\n");
        out.append(em.decls.as_str());
        out.append("\n");
        out.append(em.globals.as_str());
        out.append("\n");
        out.append(fns.as_str());
        out.append(methods.as_str());
        out.append(e.as_str());
        out.append("define i32 @main(i32 %argc, ptr %argv) {\nentry:\n");
        out.append("  call void @lumen_set_args(i32 %argc, ptr %argv)\n");
        out.append("  %fb = call ptr @llvm.frameaddress.p0(i32 0)\n");
        out.append("  call void @lumen_gc_init(ptr %fb)\n");
        out.append("  %_r = call i64 @lumen_user_main()\n");
        out.append("  ret i32 0\n}\n");
        assert(out@ =~= module_text(pv, info@).1);
        match em.err {
            Some(m) => Err(m),
            None => Ok(out),
        }
    }
}

} // verus!
