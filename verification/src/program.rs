//! What a program declares, and what it runs.

use crate::asmstate::{extern_map, fn_map, pair_view, struct_map, Decls};
use crate::ast::{
    copy_fields, copy_stmt, expr_view, exprs_view, extern_fns_view, fns_view, prog_view,
    stmts_facts, stmts_view, Expr, ExprView, ExternFn, ExternFnView, FnDef, FnDefView, Item,
    ItemView, Stmt, StmtView, StructDef, StructDefView, Type, TypeView,
};
use crate::names::{NameMap, NameSet};
use crate::text::str_eq;
use crate::typeinfo::{in_table, IntInfo, IntInfoView};
use vstd::prelude::*;

verus! {

/// The declarations of a program.
pub struct DeclsView {
    pub externs: Map<Seq<char>, ExternFnView>,
    pub fns: Map<Seq<char>, FnDefView>,
    pub structs: Map<Seq<char>, StructDefView>,
    pub methods: Seq<(Seq<char>, Seq<char>)>,
    pub raw_entry: Set<Seq<char>>,
}

impl View for Decls {
    type V = DeclsView;

    open spec fn view(&self) -> DeclsView {
        DeclsView {
            externs: extern_map(self.externs@),
            fns: fn_map(self.fns@),
            structs: struct_map(self.structs@),
            methods: pair_view(self.methods@),
            raw_entry: self.raw_entry@,
        }
    }
}

/// The functions of a program; a later one of a name counts.
pub open spec fn fns_of(items: Seq<ItemView>) -> Map<Seq<char>, FnDefView>
    decreases items.len(),
{
    if items.len() == 0 {
        Map::empty()
    } else {
        let init = fns_of(items.drop_last());
        match items.last() {
            ItemView::Fn(f) => init.insert(f.name, f),
            _ => init,
        }
    }
}

/// `m` with the first `k` of the functions.
pub open spec fn with_externs(
    m: Map<Seq<char>, ExternFnView>,
    fs: Seq<ExternFnView>,
    k: nat,
) -> Map<Seq<char>, ExternFnView>
    decreases k,
{
    if k == 0 || k > fs.len() {
        m
    } else {
        with_externs(m, fs, (k - 1) as nat).insert(fs[k - 1].name, fs[k - 1])
    }
}

pub open spec fn externs_of(items: Seq<ItemView>) -> Map<Seq<char>, ExternFnView>
    decreases items.len(),
{
    if items.len() == 0 {
        Map::empty()
    } else {
        let init = externs_of(items.drop_last());
        match items.last() {
            ItemView::ExternBlock(b) => with_externs(init, b.fns, b.fns.len()),
            _ => init,
        }
    }
}

/// The structs of a program. A declaration without fields, which only adds methods,
/// leaves the fields of an earlier one as they are.
pub open spec fn structs_of(items: Seq<ItemView>) -> Map<Seq<char>, StructDefView>
    decreases items.len(),
{
    if items.len() == 0 {
        Map::empty()
    } else {
        let init = structs_of(items.drop_last());
        match items.last() {
            ItemView::Struct(s) => if s.fields.len() == 0 && init.contains_key(s.name) {
                init
            } else {
                init.insert(
                    s.name,
                    (StructDefView { name: s.name, fields: s.fields, methods: Seq::empty() }),
                )
            },
            _ => init,
        }
    }
}

pub open spec fn is_method_of(
    p: (Seq<char>, FnDefView),
    owner: Seq<char>,
    name: Seq<char>,
) -> bool {
    p.0 == owner && p.1.name == name
}

/// `s` with a method of the struct `owner`, in place of one of that name.
pub open spec fn put_method(
    s: Seq<(Seq<char>, FnDefView)>,
    owner: Seq<char>,
    f: FnDefView,
) -> Seq<(Seq<char>, FnDefView)> {
    if exists|i: int| 0 <= i < s.len() && #[trigger] is_method_of(s[i], owner, f.name) {
        Seq::new(
            s.len(),
            |i: int|
                if is_method_of(s[i], owner, f.name) {
                    (owner, f)
                } else {
                    s[i]
                },
        )
    } else {
        s.push((owner, f))
    }
}

/// `s` with the first `k` of the methods.
pub open spec fn put_methods(
    s: Seq<(Seq<char>, FnDefView)>,
    owner: Seq<char>,
    fs: Seq<FnDefView>,
    k: nat,
) -> Seq<(Seq<char>, FnDefView)>
    decreases k,
{
    if k == 0 || k > fs.len() {
        s
    } else {
        put_method(put_methods(s, owner, fs, (k - 1) as nat), owner, fs[k - 1])
    }
}

/// The methods of a program with the structs that they belong to.
pub open spec fn methods_of(items: Seq<ItemView>) -> Seq<(Seq<char>, FnDefView)>
    decreases items.len(),
{
    if items.len() == 0 {
        Seq::empty()
    } else {
        let init = methods_of(items.drop_last());
        match items.last() {
            ItemView::Struct(s) => put_methods(init, s.name, s.methods, s.methods.len()),
            _ => init,
        }
    }
}

/// The statements outside of functions.
pub open spec fn top_of(items: Seq<ItemView>) -> Seq<StmtView>
    decreases items.len(),
{
    if items.len() == 0 {
        Seq::empty()
    } else {
        let init = top_of(items.drop_last());
        match items.last() {
            ItemView::Stmt(s) => init.push(s),
            _ => init,
        }
    }
}

/// Whether a function gets a second entry, for unboxed arguments.
pub open spec fn has_raw_entry(f: FnDefView, info: IntInfoView) -> bool {
    &&& !f.is_method
    &&& f.params.len() > 0
    &&& info.int_ret.contains(f.name)
    &&& forall|i: int|
        0 <= i < f.params.len() ==> in_table(info.int_vars, f.name, (#[trigger] f.params[i]).name)
}

pub open spec fn raw_entries(items: Seq<ItemView>, info: IntInfoView) -> Set<Seq<char>>
    decreases items.len(),
{
    if items.len() == 0 {
        Set::empty()
    } else {
        let init = raw_entries(items.drop_last(), info);
        match items.last() {
            ItemView::Fn(f) => if has_raw_entry(f, info) {
                init.insert(f.name)
            } else {
                init
            },
            _ => init,
        }
    }
}

pub open spec fn keys_of(s: Seq<(Seq<char>, FnDefView)>) -> Seq<(Seq<char>, Seq<char>)> {
    Seq::new(s.len(), |i: int| (s[i].0, s[i].1.name))
}

pub open spec fn decls_of(items: Seq<ItemView>, info: IntInfoView) -> DeclsView {
    DeclsView {
        externs: externs_of(items),
        fns: fns_of(items),
        structs: structs_of(items),
        methods: keys_of(methods_of(items)),
        raw_entry: raw_entries(items, info),
    }
}

/// Whether a statement calls `main`.
pub open spec fn calls_main(s: StmtView) -> bool {
    match s {
        StmtView::ExprStmt(ExprView::Call { callee, .. }) => *callee == ExprView::Ident("main"@),
        _ => false,
    }
}

pub open spec fn main_call() -> StmtView {
    StmtView::ExprStmt(
        ExprView::Call { callee: Box::new(ExprView::Ident("main"@)), args: Seq::empty() },
    )
}

/// What a program runs: the statements outside of functions, and then `main`, unless
/// one of them has called it.
pub open spec fn entry_body(items: Seq<ItemView>) -> Seq<StmtView> {
    let top = top_of(items);
    if !(exists|i: int| 0 <= i < top.len() && #[trigger] calls_main(top[i])) && fns_of(
        items,
    ).contains_key("main"@) {
        top.push(main_call())
    } else {
        top
    }
}

pub open spec fn entry_fn(items: Seq<ItemView>) -> FnDefView {
    FnDefView {
        name: "__lumen_entry__"@,
        params: Seq::empty(),
        ret: TypeView::Unknown,
        body: entry_body(items),
        exported: false,
        is_method: false,
    }
}

pub open spec fn methods_view(s: Seq<(String, FnDef)>) -> Seq<(Seq<char>, FnDefView)> {
    Seq::new(s.len(), |i: int| (s[i].0@, s[i].1@))
}

fn add_method(v: &mut Vec<(String, FnDef)>, owner: &str, f: &FnDef)
    ensures
        methods_view(final(v)@) == put_method(methods_view(old(v)@), owner@, f@),
{
    let ghost s0 = methods_view(v@);
    let ghost name = f@.name;
    let mut found = false;
    let n: usize = v.len();
    for i in 0..n
        invariant
            n == s0.len(),
            v@.len() == n,
            name == f@.name,
            found == (exists|j: int| 0 <= j < i && #[trigger] is_method_of(s0[j], owner@, name)),
            methods_view(v@) == Seq::new(
                n as nat,
                |j: int|
                    if j < i && is_method_of(s0[j], owner@, name) {
                        (owner@, f@)
                    } else {
                        s0[j]
                    },
            ),
    {
        assert(methods_view(v@)[i as int] == s0[i as int]);
        let ghost v1 = methods_view(v@);
        if str_eq(v[i].0.as_str(), owner) && str_eq(v[i].1.name.as_str(), f.name.as_str()) {
            assert(is_method_of(s0[i as int], owner@, name));
            v[i] = (owner.to_owned(), f.clone());
            found = true;
            assert(methods_view(v@) =~= v1.update(i as int, (owner@, f@)));
        }
        assert(methods_view(v@) =~= Seq::new(
            n as nat,
            |j: int|
                if j < i + 1 && is_method_of(s0[j], owner@, name) {
                    (owner@, f@)
                } else {
                    s0[j]
                }
        ));
    }
    if found {
        assert(methods_view(v@) =~= put_method(s0, owner@, f@));
    } else {
        assert(methods_view(v@) =~= s0);
        v.push((owner.to_owned(), f.clone()));
        assert(methods_view(v@) =~= s0.push((owner@, f@)));
    }
}

fn takes_raw(f: &FnDef, info: &IntInfo) -> (r: bool)
    ensures
        r == has_raw_entry(f@, info@),
{
    if f.is_method || f.params.len() == 0 || !info.int_ret.contains(f.name.as_str()) {
        return false;
    }
    for i in 0..f.params.len()
        invariant
            forall|j: int|
                0 <= j < i ==> in_table(info@.int_vars, f@.name, (#[trigger] f@.params[j]).name),
    {
        assert(f@.params[i as int] == f.params@[i as int]@);
        if !info.is_int_var(f.name.as_str(), f.params[i].name.as_str()) {
            return false;
        }
    }
    true
}

pub fn is_main_call(s: &Stmt) -> (r: bool)
    ensures
        r == calls_main(s@),
{
    match s {
        Stmt::ExprStmt(Expr::Call { callee, .. }) => {
            assert(callee@ == expr_view(**callee));
            match &**callee {
                Expr::Ident(n) => str_eq(n.as_str(), "main"),
                _ => false,
            }
        },
        _ => false,
    }
}

/// What a program declares.
pub struct Collected {
    pub decls: Decls,
    pub methods: Vec<(String, FnDef)>,
    pub top: Vec<Stmt>,
}

fn add_externs(m: &mut NameMap<ExternFn>, fs: &Vec<ExternFn>)
    ensures
        extern_map(final(m)@) == with_externs(
            extern_map(old(m)@),
            extern_fns_view(fs@),
            fs@.len(),
        ),
{
    let ghost m0 = extern_map(m@);
    let ghost fv = extern_fns_view(fs@);
    for i in 0..fs.len()
        invariant
            fv == extern_fns_view(fs@),
            extern_map(m@) == with_externs(m0, fv, i as nat),
    {
        assert(fv[i as int] == fs@[i as int]@);
        let ghost m1 = m@;
        m.insert(fs[i].name.as_str(), fs[i].clone());
        assert(extern_map(m@) =~= extern_map(m1).insert(fv[i as int].name, fv[i as int]));
    }
}

fn add_methods(v: &mut Vec<(String, FnDef)>, owner: &str, fs: &Vec<FnDef>)
    ensures
        methods_view(final(v)@) == put_methods(
            methods_view(old(v)@),
            owner@,
            fns_view(fs@),
            fs@.len(),
        ),
{
    let ghost s0 = methods_view(v@);
    let ghost fv = fns_view(fs@);
    for i in 0..fs.len()
        invariant
            fv == fns_view(fs@),
            methods_view(v@) == put_methods(s0, owner@, fv, i as nat),
    {
        assert(fv[i as int] == fs@[i as int]@);
        add_method(v, owner, &fs[i]);
    }
}

fn add_struct(m: &mut NameMap<StructDef>, s: &StructDef)
    ensures
        struct_map(final(m)@) == (if s@.fields.len() == 0 && struct_map(old(m)@).contains_key(
            s@.name,
        ) {
            struct_map(old(m)@)
        } else {
            struct_map(old(m)@).insert(
                s@.name,
                (StructDefView { name: s@.name, fields: s@.fields, methods: Seq::empty() }),
            )
        }),
{
    let ghost m1 = m@;
    if s.fields.len() == 0 && m.contains(s.name.as_str()) {
        return ;
    }
    let e = StructDef { name: s.name.clone(), fields: copy_fields(&s.fields), methods: Vec::new() };
    assert(e@.methods =~= Seq::empty());
    m.insert(s.name.as_str(), e);
    assert(struct_map(m@) =~= struct_map(m1).insert(s@.name, e@));
}

pub fn collect(prog: &Vec<Item>, info: &IntInfo) -> (r: Collected)
    ensures
        r.decls@ == decls_of(prog_view(prog@), info@),
        methods_view(r.methods@) == methods_of(prog_view(prog@)),
        stmts_view(r.top@) == top_of(prog_view(prog@)),
{
    let ghost pv = prog_view(prog@);
    let mut c = Collected {
        decls: Decls {
            externs: NameMap::new(),
            fns: NameMap::new(),
            structs: NameMap::new(),
            methods: Vec::new(),
            raw_entry: NameSet::new(),
        },
        methods: Vec::new(),
        top: Vec::new(),
    };
    assert(pv.take(0) =~= Seq::empty());
    assert(extern_map(c.decls.externs@) =~= Map::empty());
    assert(fn_map(c.decls.fns@) =~= Map::empty());
    assert(struct_map(c.decls.structs@) =~= Map::empty());
    assert(methods_view(c.methods@) =~= Seq::empty());
    assert(stmts_view(c.top@) =~= Seq::empty());
    for i in 0..prog.len()
        invariant
            pv == prog_view(prog@),
            extern_map(c.decls.externs@) == externs_of(pv.take(i as int)),
            fn_map(c.decls.fns@) == fns_of(pv.take(i as int)),
            struct_map(c.decls.structs@) == structs_of(pv.take(i as int)),
            c.decls.raw_entry@ == raw_entries(pv.take(i as int), info@),
            methods_view(c.methods@) == methods_of(pv.take(i as int)),
            stmts_view(c.top@) == top_of(pv.take(i as int)),
            c.decls.methods@.len() == 0,
    {
        assert(pv.take(i + 1).drop_last() =~= pv.take(i as int));
        assert(pv.take(i + 1).last() == prog@[i as int]@);
        match &prog[i] {
            Item::Fn(f) => {
                let ghost m1 = c.decls.fns@;
                c.decls.fns.insert(f.name.as_str(), f.clone());
                assert(fn_map(c.decls.fns@) =~= fn_map(m1).insert(f@.name, f@));
                if takes_raw(f, info) {
                    c.decls.raw_entry.insert(f.name.as_str());
                }
            },
            Item::ExternBlock(b) => {
                add_externs(&mut c.decls.externs, &b.fns);
            },
            Item::Struct(s) => {
                add_struct(&mut c.decls.structs, s);
                add_methods(&mut c.methods, s.name.as_str(), &s.methods);
            },
            Item::Stmt(s) => {
                let ghost t1 = c.top@;
                proof {
                    stmts_facts(c.top@);
                }
                c.top.push(copy_stmt(s));
                proof {
                    stmts_facts(c.top@);
                }
                assert(stmts_view(c.top@) =~= stmts_view(t1).push(s@));
            },
            Item::Import(_) => {},
        }
    }
    assert(pv.take(prog@.len() as int) =~= pv);
    let ghost ms = methods_of(pv);
    let n: usize = c.methods.len();
    for i in 0..n
        invariant
            n == c.methods@.len(),
            methods_view(c.methods@) == ms,
            pair_view(c.decls.methods@) == keys_of(ms).take(i as int),
            extern_map(c.decls.externs@) == externs_of(pv),
            fn_map(c.decls.fns@) == fns_of(pv),
            struct_map(c.decls.structs@) == structs_of(pv),
            c.decls.raw_entry@ == raw_entries(pv, info@),
            stmts_view(c.top@) == top_of(pv),
    {
        assert(ms[i as int] == (c.methods@[i as int].0@, c.methods@[i as int].1@));
        let key = (c.methods[i].0.clone(), c.methods[i].1.name.clone());
        let ghost k1 = c.decls.methods@;
        c.decls.methods.push(key);
        assert(pair_view(c.decls.methods@) =~= pair_view(k1).push(keys_of(ms)[i as int]));
        assert(pair_view(c.decls.methods@) =~= keys_of(ms).take(i + 1));
    }
    assert(pair_view(c.decls.methods@) =~= keys_of(ms));
    c
}

/// The function that a program runs.
pub fn entry_of(
    top_stmts: Vec<Stmt>,
    fns: &NameMap<FnDef>,
    Ghost(pv): Ghost<Seq<ItemView>>,
) -> (r: FnDef)
    requires
        stmts_view(top_stmts@) == top_of(pv),
        fn_map(fns@) == fns_of(pv),
    ensures
        r@ == entry_fn(pv),
{
    let mut body = top_stmts;
    let mut called = false;
    let ghost top = top_of(pv);
    proof {
        stmts_facts(body@);
    }
    for i in 0..body.len()
        invariant
            stmts_view(body@) == top,
            top.len() == body@.len(),
            forall|j: int| 0 <= j < body@.len() ==> top[j] == (#[trigger] body@[j])@,
            called == (exists|j: int| 0 <= j < i && #[trigger] calls_main(top[j])),
    {
        assert(top[i as int] == body@[i as int]@);
        if is_main_call(&body[i]) {
            assert(calls_main(top[i as int]));
            called = true;
        }
    }
    assert(fn_map(fns@).contains_key("main"@) == fns@.contains_key("main"@));
    if !called && fns.contains("main") {
        let ghost b1 = body@;
        let args: Vec<Expr> = Vec::new();
        let callee = Expr::Ident("main".to_owned());
        assert(callee@ == ExprView::Ident("main"@));
        let call = Expr::Call { callee: Box::new(callee), args };
        assert(exprs_view(args@) =~= Seq::empty());
        assert(call@ == ExprView::Call { callee: Box::new(callee@), args: exprs_view(args@) });
        let s = Stmt::ExprStmt(call);
        assert(s@ == main_call());
        body.push(s);
        proof {
            stmts_facts(b1);
            stmts_facts(body@);
        }
        assert(stmts_view(body@) =~= top.push(main_call()));
    }
    let entry = FnDef {
        name: "__lumen_entry__".to_owned(),
        params: Vec::new(),
        ret: Type::Unknown,
        body,
        exported: false,
        is_method: false,
    };
    assert(entry@.params =~= Seq::empty());
    assert(entry@ == entry_fn(pv));
    entry
}

} // verus!
