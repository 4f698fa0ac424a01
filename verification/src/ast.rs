//! Abstract syntax of Lumen programs: the nodes that every pass walks, their
//! mathematical views, and the 48-bit wrapping that all integer arithmetic shares.
//!
//! A view replaces every `Vec` by a `Seq` and every `String` by its characters, so
//! that two programs with the same contents have the same view.

use std::rc::Rc;
use vstd::prelude::*;

verus! {

/// A type annotation.
#[derive(Debug)]
pub enum Type {
    Named(String),
    Dynamic,
    Nil,
    Unknown,
}

pub enum TypeView {
    Named(Seq<char>),
    Dynamic,
    Nil,
    Unknown,
}

/// A parameter; `default` stands in for an omitted trailing argument.
#[derive(Debug)]
pub struct Param {
    pub name: String,
    pub ty: Type,
    pub default: Option<Expr>,
}

pub struct ParamView {
    pub name: Seq<char>,
    pub ty: TypeView,
    pub default: Option<ExprView>,
}

#[derive(Debug)]
pub struct Field {
    pub name: String,
    pub ty: Type,
}

pub struct FieldView {
    pub name: Seq<char>,
    pub ty: TypeView,
}

#[derive(Debug)]
pub enum Item {
    Fn(FnDef),
    Struct(StructDef),
    ExternBlock(ExternBlock),
    Import(ImportDef),
    Stmt(Stmt),
}

pub enum ItemView {
    Fn(FnDefView),
    Struct(StructDefView),
    ExternBlock(ExternBlockView),
    Import(ImportDefView),
    Stmt(StmtView),
}

#[derive(Debug)]
pub struct FnDef {
    pub name: String,
    pub params: Vec<Param>,
    pub ret: Type,
    pub body: Vec<Stmt>,
    pub exported: bool,
    pub is_method: bool,
}

pub struct FnDefView {
    pub name: Seq<char>,
    pub params: Seq<ParamView>,
    pub ret: TypeView,
    pub body: Seq<StmtView>,
    pub exported: bool,
    pub is_method: bool,
}

#[derive(Debug)]
pub struct StructDef {
    pub name: String,
    pub fields: Vec<Field>,
    pub methods: Vec<FnDef>,
}

pub struct StructDefView {
    pub name: Seq<char>,
    pub fields: Seq<FieldView>,
    pub methods: Seq<FnDefView>,
}

#[derive(Debug)]
pub struct ExternFn {
    pub name: String,
    pub params: Vec<Param>,
    pub ret: Type,
}

pub struct ExternFnView {
    pub name: Seq<char>,
    pub params: Seq<ParamView>,
    pub ret: TypeView,
}

#[derive(Debug)]
pub struct ExternBlock {
    pub abi: String,
    pub lib: String,
    pub fns: Vec<ExternFn>,
}

pub struct ExternBlockView {
    pub abi: Seq<char>,
    pub lib: Seq<char>,
    pub fns: Seq<ExternFnView>,
}

/// An import. `level` counts the leading dots of a relative one: 0 is absolute,
/// 1 the same directory, n goes n - 1 directories up.
#[derive(Debug)]
pub struct ImportDef {
    pub module: String,
    pub alias: Option<String>,
    pub names: Vec<String>,
    pub level: u8,
}

pub struct ImportDefView {
    pub module: Seq<char>,
    pub alias: Option<Seq<char>>,
    pub names: Seq<Seq<char>>,
    pub level: u8,
}

#[allow(inconsistent_fields)]
#[derive(Debug)]
pub enum Stmt {
    Let { name: String, mutable: bool, ty: Type, value: Expr },
    Assign { target: Expr, value: Expr },
    ExprStmt(Expr),
    Return(Option<Expr>),
    If { cond: Expr, then: Vec<Stmt>, elifs: Vec<(Expr, Vec<Stmt>)>, els: Option<Vec<Stmt>> },
    While { cond: Expr, body: Vec<Stmt> },
    For { var: String, iter: Expr, body: Vec<Stmt> },
    Break,
    Continue,
    Try { body: Vec<Stmt>, catch_var: String, catch_body: Vec<Stmt> },
    Raise(Expr),
    SrcLine(u32),
}

#[allow(inconsistent_fields)]
pub enum StmtView {
    Let { name: Seq<char>, mutable: bool, ty: TypeView, value: ExprView },
    Assign { target: ExprView, value: ExprView },
    ExprStmt(ExprView),
    Return(Option<ExprView>),
    If {
        cond: ExprView,
        then: Seq<StmtView>,
        elifs: Seq<(ExprView, Seq<StmtView>)>,
        els: Option<Seq<StmtView>>,
    },
    While { cond: ExprView, body: Seq<StmtView> },
    For { var: Seq<char>, iter: ExprView, body: Seq<StmtView> },
    Break,
    Continue,
    Try { body: Seq<StmtView>, catch_var: Seq<char>, catch_body: Seq<StmtView> },
    Raise(ExprView),
    SrcLine(u32),
}

/// An expression. A float literal is held by the bits of its IEEE double.
#[allow(inconsistent_fields)]
#[derive(Debug)]
pub enum Expr {
    Int(i64),
    Float(u64),
    Str(Rc<String>),
    FStr(Vec<FStrPart>),
    Bool(bool),
    Nil,
    Ident(String),
    SelfExpr,
    Unary { op: UnOp, expr: Box<Expr> },
    Binary { op: BinOp, lhs: Box<Expr>, rhs: Box<Expr> },
    Call { callee: Box<Expr>, args: Vec<Expr> },
    NamedCall { callee: Box<Expr>, args: Vec<(String, Expr)> },
    Field { obj: Box<Expr>, name: String },
    Method { obj: Box<Expr>, name: String, args: Vec<Expr> },
    List(Vec<Expr>),
    MapLit(Vec<(Expr, Expr)>),
    Range { lo: Box<Expr>, hi: Box<Expr> },
    IfElse { cond: Box<Expr>, then: Box<Expr>, els: Box<Expr> },
    ListComp { elem: Box<Expr>, var: String, iter: Box<Expr>, cond: Option<Box<Expr>> },
    Index { obj: Box<Expr>, index: Box<Expr> },
    Slice { obj: Box<Expr>, lo: Option<Box<Expr>>, hi: Option<Box<Expr>> },
    Lambda { params: Vec<String>, body: Vec<Stmt> },
    Closure { fn_name: String, captures: Vec<Expr> },
}

#[allow(inconsistent_fields)]
pub enum ExprView {
    Int(i64),
    Float(u64),
    Str(Seq<char>),
    FStr(Seq<FStrPartView>),
    Bool(bool),
    Nil,
    Ident(Seq<char>),
    SelfExpr,
    Unary { op: UnOp, expr: Box<ExprView> },
    Binary { op: BinOp, lhs: Box<ExprView>, rhs: Box<ExprView> },
    Call { callee: Box<ExprView>, args: Seq<ExprView> },
    NamedCall { callee: Box<ExprView>, args: Seq<(Seq<char>, ExprView)> },
    Field { obj: Box<ExprView>, name: Seq<char> },
    Method { obj: Box<ExprView>, name: Seq<char>, args: Seq<ExprView> },
    List(Seq<ExprView>),
    MapLit(Seq<(ExprView, ExprView)>),
    Range { lo: Box<ExprView>, hi: Box<ExprView> },
    IfElse { cond: Box<ExprView>, then: Box<ExprView>, els: Box<ExprView> },
    ListComp {
        elem: Box<ExprView>,
        var: Seq<char>,
        iter: Box<ExprView>,
        cond: Option<Box<ExprView>>,
    },
    Index { obj: Box<ExprView>, index: Box<ExprView> },
    Slice { obj: Box<ExprView>, lo: Option<Box<ExprView>>, hi: Option<Box<ExprView>> },
    Lambda { params: Seq<Seq<char>>, body: Seq<StmtView> },
    Closure { fn_name: Seq<char>, captures: Seq<ExprView> },
}

#[derive(Debug)]
pub enum FStrPart {
    Lit(String),
    Expr(Expr),
}

pub enum FStrPartView {
    Lit(Seq<char>),
    Expr(ExprView),
}

#[derive(Debug, Clone, Copy, PartialEq, Eq, Structural)]
pub enum UnOp {
    Neg,
    Not,
}

#[derive(Debug, Clone, Copy, PartialEq, Eq, Structural)]
pub enum BinOp {
    Add,
    Sub,
    Mul,
    Pow,
    Div,
    Mod,
    Eq,
    Ne,
    Lt,
    Le,
    Gt,
    Ge,
    And,
    Or,
    In,
    NotIn,
}

pub type Program = Vec<Item>;

/// What a named declaration declares.
#[derive(Debug, Clone, Copy, PartialEq, Eq, Structural)]
pub enum DeclKind {
    Fn,
    Method,
    Struct,
    Field,
    Param,
    Import,
}

/// Where the name of a declaration stands. Positions count from 1 and `end_col`
/// is one past the last column; `parent` names the enclosing declaration.
#[derive(Debug)]
pub struct DeclSpan {
    pub name: String,
    pub kind: DeclKind,
    pub line: usize,
    pub col: usize,
    pub end_col: usize,
    pub parent: Option<String>,
}

pub open spec fn type_view(t: Type) -> TypeView {
    match t {
        Type::Named(n) => TypeView::Named(n@),
        Type::Dynamic => TypeView::Dynamic,
        Type::Nil => TypeView::Nil,
        Type::Unknown => TypeView::Unknown,
    }
}

pub open spec fn strs_view(s: Seq<String>) -> Seq<Seq<char>> {
    Seq::new(s.len(), |i: int| s[i]@)
}

pub open spec fn expr_view(e: Expr) -> ExprView
    decreases e,
{
    match e {
        Expr::Int(n) => ExprView::Int(n),
        Expr::Float(b) => ExprView::Float(b),
        Expr::Str(s) => ExprView::Str(s@),
        Expr::FStr(ps) => ExprView::FStr(parts_view(ps@)),
        Expr::Bool(b) => ExprView::Bool(b),
        Expr::Nil => ExprView::Nil,
        Expr::Ident(n) => ExprView::Ident(n@),
        Expr::SelfExpr => ExprView::SelfExpr,
        Expr::Unary { op, expr } => ExprView::Unary { op, expr: Box::new(expr_view(*expr)) },
        Expr::Binary { op, lhs, rhs } => ExprView::Binary {
            op,
            lhs: Box::new(expr_view(*lhs)),
            rhs: Box::new(expr_view(*rhs)),
        },
        Expr::Call { callee, args } => ExprView::Call {
            callee: Box::new(expr_view(*callee)),
            args: exprs_view(args@),
        },
        Expr::NamedCall { callee, args } => ExprView::NamedCall {
            callee: Box::new(expr_view(*callee)),
            args: named_view(args@),
        },
        Expr::Field { obj, name } => ExprView::Field {
            obj: Box::new(expr_view(*obj)),
            name: name@,
        },
        Expr::Method { obj, name, args } => ExprView::Method {
            obj: Box::new(expr_view(*obj)),
            name: name@,
            args: exprs_view(args@),
        },
        Expr::List(xs) => ExprView::List(exprs_view(xs@)),
        Expr::MapLit(kvs) => ExprView::MapLit(pairs_view(kvs@)),
        Expr::Range { lo, hi } => ExprView::Range {
            lo: Box::new(expr_view(*lo)),
            hi: Box::new(expr_view(*hi)),
        },
        Expr::IfElse { cond, then, els } => ExprView::IfElse {
            cond: Box::new(expr_view(*cond)),
            then: Box::new(expr_view(*then)),
            els: Box::new(expr_view(*els)),
        },
        Expr::ListComp { elem, var, iter, cond } => ExprView::ListComp {
            elem: Box::new(expr_view(*elem)),
            var: var@,
            iter: Box::new(expr_view(*iter)),
            cond: optbox_view(cond),
        },
        Expr::Index { obj, index } => ExprView::Index {
            obj: Box::new(expr_view(*obj)),
            index: Box::new(expr_view(*index)),
        },
        Expr::Slice { obj, lo, hi } => ExprView::Slice {
            obj: Box::new(expr_view(*obj)),
            lo: optbox_view(lo),
            hi: optbox_view(hi),
        },
        Expr::Lambda { params, body } => ExprView::Lambda {
            params: strs_view(params@),
            body: stmts_view(body@),
        },
        Expr::Closure { fn_name, captures } => ExprView::Closure {
            fn_name: fn_name@,
            captures: exprs_view(captures@),
        },
    }
}

pub open spec fn optbox_view(o: Option<Box<Expr>>) -> Option<Box<ExprView>>
    decreases o,
{
    match o {
        Some(e) => Some(Box::new(expr_view(*e))),
        None => None,
    }
}

pub open spec fn opt_view(o: Option<Expr>) -> Option<ExprView>
    decreases o,
{
    match o {
        Some(e) => Some(expr_view(e)),
        None => None,
    }
}

pub open spec fn optblock_view(o: Option<Vec<Stmt>>) -> Option<Seq<StmtView>>
    decreases o,
{
    match o {
        Some(b) => Some(stmts_view(b@)),
        None => None,
    }
}

pub open spec fn exprs_view(s: Seq<Expr>) -> Seq<ExprView>
    decreases s,
{
    Seq::new(
        s.len(),
        |i: int|
            if 0 <= i < s.len() {
                expr_view(s[i])
            } else {
                arbitrary()
            },
    )
}

pub open spec fn named_view(s: Seq<(String, Expr)>) -> Seq<(Seq<char>, ExprView)>
    decreases s,
{
    Seq::new(
        s.len(),
        |i: int|
            if 0 <= i < s.len() {
                (s[i].0@, expr_view(s[i].1))
            } else {
                arbitrary()
            },
    )
}

pub open spec fn pairs_view(s: Seq<(Expr, Expr)>) -> Seq<(ExprView, ExprView)>
    decreases s,
{
    Seq::new(
        s.len(),
        |i: int|
            if 0 <= i < s.len() {
                (expr_view(s[i].0), expr_view(s[i].1))
            } else {
                arbitrary()
            },
    )
}

pub open spec fn part_view(p: FStrPart) -> FStrPartView
    decreases p,
{
    match p {
        FStrPart::Lit(s) => FStrPartView::Lit(s@),
        FStrPart::Expr(e) => FStrPartView::Expr(expr_view(e)),
    }
}

pub open spec fn parts_view(s: Seq<FStrPart>) -> Seq<FStrPartView>
    decreases s,
{
    Seq::new(
        s.len(),
        |i: int|
            if 0 <= i < s.len() {
                part_view(s[i])
            } else {
                arbitrary()
            },
    )
}

pub open spec fn stmt_view(s: Stmt) -> StmtView
    decreases s,
{
    match s {
        Stmt::Let { name, mutable, ty, value } => StmtView::Let {
            name: name@,
            mutable,
            ty: type_view(ty),
            value: expr_view(value),
        },
        Stmt::Assign { target, value } => StmtView::Assign {
            target: expr_view(target),
            value: expr_view(value),
        },
        Stmt::ExprStmt(e) => StmtView::ExprStmt(expr_view(e)),
        Stmt::Return(o) => StmtView::Return(opt_view(o)),
        Stmt::If { cond, then, elifs, els } => StmtView::If {
            cond: expr_view(cond),
            then: stmts_view(then@),
            elifs: elifs_view(elifs@),
            els: optblock_view(els),
        },
        Stmt::While { cond, body } => StmtView::While {
            cond: expr_view(cond),
            body: stmts_view(body@),
        },
        Stmt::For { var, iter, body } => StmtView::For {
            var: var@,
            iter: expr_view(iter),
            body: stmts_view(body@),
        },
        Stmt::Break => StmtView::Break,
        Stmt::Continue => StmtView::Continue,
        Stmt::Try { body, catch_var, catch_body } => StmtView::Try {
            body: stmts_view(body@),
            catch_var: catch_var@,
            catch_body: stmts_view(catch_body@),
        },
        Stmt::Raise(e) => StmtView::Raise(expr_view(e)),
        Stmt::SrcLine(n) => StmtView::SrcLine(n),
    }
}

pub open spec fn stmts_view(s: Seq<Stmt>) -> Seq<StmtView>
    decreases s,
{
    Seq::new(
        s.len(),
        |i: int|
            if 0 <= i < s.len() {
                stmt_view(s[i])
            } else {
                arbitrary()
            },
    )
}

pub open spec fn elifs_view(s: Seq<(Expr, Vec<Stmt>)>) -> Seq<(ExprView, Seq<StmtView>)>
    decreases s,
{
    Seq::new(
        s.len(),
        |i: int|
            if 0 <= i < s.len() {
                (expr_view(s[i].0), stmts_view(s[i].1@))
            } else {
                arbitrary()
            },
    )
}

pub open spec fn param_view(p: Param) -> ParamView {
    ParamView {
        name: p.name@,
        ty: type_view(p.ty),
        default: opt_view(p.default),
    }
}

pub open spec fn params_view(s: Seq<Param>) -> Seq<ParamView> {
    Seq::new(s.len(), |i: int| param_view(s[i]))
}

pub open spec fn field_view(f: Field) -> FieldView {
    FieldView { name: f.name@, ty: type_view(f.ty) }
}

pub open spec fn fields_view(s: Seq<Field>) -> Seq<FieldView> {
    Seq::new(s.len(), |i: int| field_view(s[i]))
}

pub open spec fn fn_view(f: FnDef) -> FnDefView {
    FnDefView {
        name: f.name@,
        params: params_view(f.params@),
        ret: type_view(f.ret),
        body: stmts_view(f.body@),
        exported: f.exported,
        is_method: f.is_method,
    }
}

pub open spec fn fns_view(s: Seq<FnDef>) -> Seq<FnDefView> {
    Seq::new(s.len(), |i: int| fn_view(s[i]))
}

pub open spec fn struct_view(s: StructDef) -> StructDefView {
    StructDefView {
        name: s.name@,
        fields: fields_view(s.fields@),
        methods: fns_view(s.methods@),
    }
}

pub open spec fn extern_fn_view(f: ExternFn) -> ExternFnView {
    ExternFnView { name: f.name@, params: params_view(f.params@), ret: type_view(f.ret) }
}

pub open spec fn extern_fns_view(s: Seq<ExternFn>) -> Seq<ExternFnView> {
    Seq::new(s.len(), |i: int| extern_fn_view(s[i]))
}

pub open spec fn extern_block_view(b: ExternBlock) -> ExternBlockView {
    ExternBlockView { abi: b.abi@, lib: b.lib@, fns: extern_fns_view(b.fns@) }
}

pub open spec fn import_view(d: ImportDef) -> ImportDefView {
    ImportDefView {
        module: d.module@,
        alias: match d.alias {
            Some(a) => Some(a@),
            None => None,
        },
        names: strs_view(d.names@),
        level: d.level,
    }
}

pub open spec fn item_view(i: Item) -> ItemView {
    match i {
        Item::Fn(f) => ItemView::Fn(fn_view(f)),
        Item::Struct(s) => ItemView::Struct(struct_view(s)),
        Item::ExternBlock(b) => ItemView::ExternBlock(extern_block_view(b)),
        Item::Import(d) => ItemView::Import(import_view(d)),
        Item::Stmt(s) => ItemView::Stmt(stmt_view(s)),
    }
}

/// The view of a whole program.
pub open spec fn prog_view(s: Seq<Item>) -> Seq<ItemView> {
    Seq::new(s.len(), |i: int| item_view(s[i]))
}

impl View for Type {
    type V = TypeView;

    open spec fn view(&self) -> TypeView {
        type_view(*self)
    }
}

impl View for Expr {
    type V = ExprView;

    open spec fn view(&self) -> ExprView {
        expr_view(*self)
    }
}

impl View for Stmt {
    type V = StmtView;

    open spec fn view(&self) -> StmtView {
        stmt_view(*self)
    }
}

impl View for FStrPart {
    type V = FStrPartView;

    open spec fn view(&self) -> FStrPartView {
        part_view(*self)
    }
}

impl View for Param {
    type V = ParamView;

    open spec fn view(&self) -> ParamView {
        param_view(*self)
    }
}

impl View for Field {
    type V = FieldView;

    open spec fn view(&self) -> FieldView {
        field_view(*self)
    }
}

impl View for FnDef {
    type V = FnDefView;

    open spec fn view(&self) -> FnDefView {
        fn_view(*self)
    }
}

impl View for StructDef {
    type V = StructDefView;

    open spec fn view(&self) -> StructDefView {
        struct_view(*self)
    }
}

impl View for ExternFn {
    type V = ExternFnView;

    open spec fn view(&self) -> ExternFnView {
        extern_fn_view(*self)
    }
}

impl View for ExternBlock {
    type V = ExternBlockView;

    open spec fn view(&self) -> ExternBlockView {
        extern_block_view(*self)
    }
}

impl View for ImportDef {
    type V = ImportDefView;

    open spec fn view(&self) -> ImportDefView {
        import_view(*self)
    }
}

impl View for Item {
    type V = ItemView;

    open spec fn view(&self) -> ItemView {
        item_view(*self)
    }
}

impl Clone for Type {
    fn clone(&self) -> (r: Type)
        ensures
            r@ == self@,
    {
        match self {
            Type::Named(n) => Type::Named(n.clone()),
            Type::Dynamic => Type::Dynamic,
            Type::Nil => Type::Nil,
            Type::Unknown => Type::Unknown,
        }
    }
}

pub fn copy_strings(v: &Vec<String>) -> (r: Vec<String>)
    ensures
        strs_view(r@) == strs_view(v@),
{
    let mut r: Vec<String> = Vec::new();
    for i in 0..v.len()
        invariant
            r@.len() == i,
            forall|j: int| 0 <= j < i ==> strs_view(r@)[j] == #[trigger] strs_view(v@)[j],
    {
        let x = v[i].clone();
        let ghost r0 = r@;
        r.push(x);
        assert forall|j: int| 0 <= j < i + 1 implies strs_view(r@)[j] == #[trigger] strs_view(
            v@,
        )[j] by {
            if j < i {
                assert(strs_view(r0)[j] == strs_view(v@)[j]);
            }
        }
    }
    assert(strs_view(r@) =~= strs_view(v@));
    r
}

/// A copy of `e` with the same view.
pub fn copy_expr(e: &Expr) -> (r: Expr)
    ensures
        r@ == e@,
    decreases e,
{
    match e {
        Expr::Int(n) => Expr::Int(*n),
        Expr::Float(b) => Expr::Float(*b),
        Expr::Str(s) => Expr::Str(Rc::new((**s).clone())),
        Expr::FStr(ps) => Expr::FStr(copy_parts(ps)),
        Expr::Bool(b) => Expr::Bool(*b),
        Expr::Nil => Expr::Nil,
        Expr::Ident(n) => Expr::Ident(n.clone()),
        Expr::SelfExpr => Expr::SelfExpr,
        Expr::Unary { op, expr } => Expr::Unary { op: *op, expr: Box::new(copy_expr(expr)) },
        Expr::Binary { op, lhs, rhs } => Expr::Binary {
            op: *op,
            lhs: Box::new(copy_expr(lhs)),
            rhs: Box::new(copy_expr(rhs)),
        },
        Expr::Call { callee, args } => Expr::Call {
            callee: Box::new(copy_expr(callee)),
            args: copy_exprs(args),
        },
        Expr::NamedCall { callee, args } => Expr::NamedCall {
            callee: Box::new(copy_expr(callee)),
            args: copy_named(args),
        },
        Expr::Field { obj, name } => Expr::Field {
            obj: Box::new(copy_expr(obj)),
            name: name.clone(),
        },
        Expr::Method { obj, name, args } => Expr::Method {
            obj: Box::new(copy_expr(obj)),
            name: name.clone(),
            args: copy_exprs(args),
        },
        Expr::List(xs) => Expr::List(copy_exprs(xs)),
        Expr::MapLit(kvs) => Expr::MapLit(copy_pairs(kvs)),
        Expr::Range { lo, hi } => Expr::Range {
            lo: Box::new(copy_expr(lo)),
            hi: Box::new(copy_expr(hi)),
        },
        Expr::IfElse { cond, then, els } => Expr::IfElse {
            cond: Box::new(copy_expr(cond)),
            then: Box::new(copy_expr(then)),
            els: Box::new(copy_expr(els)),
        },
        Expr::ListComp { elem, var, iter, cond } => Expr::ListComp {
            elem: Box::new(copy_expr(elem)),
            var: var.clone(),
            iter: Box::new(copy_expr(iter)),
            cond: copy_optbox(cond),
        },
        Expr::Index { obj, index } => Expr::Index {
            obj: Box::new(copy_expr(obj)),
            index: Box::new(copy_expr(index)),
        },
        Expr::Slice { obj, lo, hi } => Expr::Slice {
            obj: Box::new(copy_expr(obj)),
            lo: copy_optbox(lo),
            hi: copy_optbox(hi),
        },
        Expr::Lambda { params, body } => Expr::Lambda {
            params: copy_strings(params),
            body: copy_stmts(body),
        },
        Expr::Closure { fn_name, captures } => Expr::Closure {
            fn_name: fn_name.clone(),
            captures: copy_exprs(captures),
        },
    }
}

fn copy_optbox(o: &Option<Box<Expr>>) -> (r: Option<Box<Expr>>)
    ensures
        optbox_view(r) == optbox_view(*o),
    decreases o,
{
    match o {
        Some(e) => Some(Box::new(copy_expr(e))),
        None => None,
    }
}

/// A copy of `o` with the same view.
pub fn copy_opt(o: &Option<Expr>) -> (r: Option<Expr>)
    ensures
        opt_view(r) == opt_view(*o),
    decreases o,
{
    match o {
        Some(e) => Some(copy_expr(e)),
        None => None,
    }
}

fn copy_optblock(o: &Option<Vec<Stmt>>) -> (r: Option<Vec<Stmt>>)
    ensures
        optblock_view(r) == optblock_view(*o),
    decreases o,
{
    match o {
        Some(b) => Some(copy_stmts(b)),
        None => None,
    }
}

/// A copy of every expression in `v`, in order.
pub fn copy_exprs(v: &Vec<Expr>) -> (r: Vec<Expr>)
    ensures
        exprs_view(r@) == exprs_view(v@),
    decreases v,
{
    let mut r: Vec<Expr> = Vec::new();
    for i in 0..v.len()
        invariant
            r@.len() == i,
            forall|j: int| 0 <= j < i ==> exprs_view(r@)[j] == #[trigger] exprs_view(v@)[j],
    {
        let x = copy_expr(&v[i]);
        let ghost r0 = r@;
        r.push(x);
        assert forall|j: int| 0 <= j < i + 1 implies exprs_view(r@)[j] == #[trigger] exprs_view(
            v@,
        )[j] by {
            if j < i {
                assert(exprs_view(r0)[j] == exprs_view(v@)[j]);
            }
        }
    }
    assert(exprs_view(r@) =~= exprs_view(v@));
    r
}

fn copy_named(v: &Vec<(String, Expr)>) -> (r: Vec<(String, Expr)>)
    ensures
        named_view(r@) == named_view(v@),
    decreases v,
{
    let mut r: Vec<(String, Expr)> = Vec::new();
    for i in 0..v.len()
        invariant
            r@.len() == i,
            forall|j: int| 0 <= j < i ==> named_view(r@)[j] == #[trigger] named_view(v@)[j],
    {
        let x = (v[i].0.clone(), copy_expr(&v[i].1));
        let ghost r0 = r@;
        r.push(x);
        assert forall|j: int| 0 <= j < i + 1 implies named_view(r@)[j] == #[trigger] named_view(
            v@,
        )[j] by {
            if j < i {
                assert(named_view(r0)[j] == named_view(v@)[j]);
            }
        }
    }
    assert(named_view(r@) =~= named_view(v@));
    r
}

fn copy_pairs(v: &Vec<(Expr, Expr)>) -> (r: Vec<(Expr, Expr)>)
    ensures
        pairs_view(r@) == pairs_view(v@),
    decreases v,
{
    let mut r: Vec<(Expr, Expr)> = Vec::new();
    for i in 0..v.len()
        invariant
            r@.len() == i,
            forall|j: int| 0 <= j < i ==> pairs_view(r@)[j] == #[trigger] pairs_view(v@)[j],
    {
        let x = (copy_expr(&v[i].0), copy_expr(&v[i].1));
        let ghost r0 = r@;
        r.push(x);
        assert forall|j: int| 0 <= j < i + 1 implies pairs_view(r@)[j] == #[trigger] pairs_view(
            v@,
        )[j] by {
            if j < i {
                assert(pairs_view(r0)[j] == pairs_view(v@)[j]);
            }
        }
    }
    assert(pairs_view(r@) =~= pairs_view(v@));
    r
}

fn copy_parts(v: &Vec<FStrPart>) -> (r: Vec<FStrPart>)
    ensures
        parts_view(r@) == parts_view(v@),
    decreases v,
{
    let mut r: Vec<FStrPart> = Vec::new();
    for i in 0..v.len()
        invariant
            r@.len() == i,
            forall|j: int| 0 <= j < i ==> parts_view(r@)[j] == #[trigger] parts_view(v@)[j],
    {
        let x = match &v[i] {
            FStrPart::Lit(s) => FStrPart::Lit(s.clone()),
            FStrPart::Expr(e) => FStrPart::Expr(copy_expr(e)),
        };
        let ghost r0 = r@;
        r.push(x);
        assert forall|j: int| 0 <= j < i + 1 implies parts_view(r@)[j] == #[trigger] parts_view(
            v@,
        )[j] by {
            if j < i {
                assert(parts_view(r0)[j] == parts_view(v@)[j]);
            }
        }
    }
    assert(parts_view(r@) =~= parts_view(v@));
    r
}

/// A copy of `s` with the same view.
pub fn copy_stmt(s: &Stmt) -> (r: Stmt)
    ensures
        r@ == s@,
    decreases s,
{
    match s {
        Stmt::Let { name, mutable, ty, value } => Stmt::Let {
            name: name.clone(),
            mutable: *mutable,
            ty: ty.clone(),
            value: copy_expr(value),
        },
        Stmt::Assign { target, value } => Stmt::Assign {
            target: copy_expr(target),
            value: copy_expr(value),
        },
        Stmt::ExprStmt(e) => Stmt::ExprStmt(copy_expr(e)),
        Stmt::Return(o) => Stmt::Return(copy_opt(o)),
        Stmt::If { cond, then, elifs, els } => Stmt::If {
            cond: copy_expr(cond),
            then: copy_stmts(then),
            elifs: copy_elifs(elifs),
            els: copy_optblock(els),
        },
        Stmt::While { cond, body } => Stmt::While {
            cond: copy_expr(cond),
            body: copy_stmts(body),
        },
        Stmt::For { var, iter, body } => Stmt::For {
            var: var.clone(),
            iter: copy_expr(iter),
            body: copy_stmts(body),
        },
        Stmt::Break => Stmt::Break,
        Stmt::Continue => Stmt::Continue,
        Stmt::Try { body, catch_var, catch_body } => Stmt::Try {
            body: copy_stmts(body),
            catch_var: catch_var.clone(),
            catch_body: copy_stmts(catch_body),
        },
        Stmt::Raise(e) => Stmt::Raise(copy_expr(e)),
        Stmt::SrcLine(n) => Stmt::SrcLine(*n),
    }
}

/// A copy of every statement in `v`, in order.
pub fn copy_stmts(v: &Vec<Stmt>) -> (r: Vec<Stmt>)
    ensures
        stmts_view(r@) == stmts_view(v@),
    decreases v,
{
    let mut r: Vec<Stmt> = Vec::new();
    for i in 0..v.len()
        invariant
            r@.len() == i,
            forall|j: int| 0 <= j < i ==> stmts_view(r@)[j] == #[trigger] stmts_view(v@)[j],
    {
        let x = copy_stmt(&v[i]);
        let ghost r0 = r@;
        r.push(x);
        assert forall|j: int| 0 <= j < i + 1 implies stmts_view(r@)[j] == #[trigger] stmts_view(
            v@,
        )[j] by {
            if j < i {
                assert(stmts_view(r0)[j] == stmts_view(v@)[j]);
            }
        }
    }
    assert(stmts_view(r@) =~= stmts_view(v@));
    r
}

fn copy_elifs(v: &Vec<(Expr, Vec<Stmt>)>) -> (r: Vec<(Expr, Vec<Stmt>)>)
    ensures
        elifs_view(r@) == elifs_view(v@),
    decreases v,
{
    let mut r: Vec<(Expr, Vec<Stmt>)> = Vec::new();
    for i in 0..v.len()
        invariant
            r@.len() == i,
            forall|j: int| 0 <= j < i ==> elifs_view(r@)[j] == #[trigger] elifs_view(v@)[j],
    {
        let x = (copy_expr(&v[i].0), copy_stmts(&v[i].1));
        let ghost r0 = r@;
        r.push(x);
        assert forall|j: int| 0 <= j < i + 1 implies elifs_view(r@)[j] == #[trigger] elifs_view(
            v@,
        )[j] by {
            if j < i {
                assert(elifs_view(r0)[j] == elifs_view(v@)[j]);
            }
        }
    }
    assert(elifs_view(r@) =~= elifs_view(v@));
    r
}

impl Clone for Expr {
    fn clone(&self) -> (r: Expr)
        ensures
            r@ == self@,
    {
        copy_expr(self)
    }
}

impl Clone for Stmt {
    fn clone(&self) -> (r: Stmt)
        ensures
            r@ == self@,
    {
        copy_stmt(self)
    }
}

impl Clone for Param {
    fn clone(&self) -> (r: Param)
        ensures
            r@ == self@,
    {
        Param {
            name: self.name.clone(),
            ty: self.ty.clone(),
            default: copy_opt(&self.default),
        }
    }
}

fn copy_params(v: &Vec<Param>) -> (r: Vec<Param>)
    ensures
        params_view(r@) == params_view(v@),
{
    let mut r: Vec<Param> = Vec::new();
    for i in 0..v.len()
        invariant
            r@.len() == i,
            forall|j: int| 0 <= j < i ==> params_view(r@)[j] == #[trigger] params_view(v@)[j],
    {
        let x = v[i].clone();
        let ghost r0 = r@;
        r.push(x);
        assert forall|j: int| 0 <= j < i + 1 implies params_view(r@)[j] == #[trigger] params_view(
            v@,
        )[j] by {
            if j < i {
                assert(params_view(r0)[j] == params_view(v@)[j]);
            }
        }
    }
    assert(params_view(r@) =~= params_view(v@));
    r
}

impl Clone for Field {
    fn clone(&self) -> (r: Field)
        ensures
            r@ == self@,
    {
        Field { name: self.name.clone(), ty: self.ty.clone() }
    }
}

pub fn copy_fields(v: &Vec<Field>) -> (r: Vec<Field>)
    ensures
        fields_view(r@) == fields_view(v@),
{
    let mut r: Vec<Field> = Vec::new();
    for i in 0..v.len()
        invariant
            r@.len() == i,
            forall|j: int| 0 <= j < i ==> fields_view(r@)[j] == #[trigger] fields_view(v@)[j],
    {
        let x = v[i].clone();
        let ghost r0 = r@;
        r.push(x);
        assert forall|j: int| 0 <= j < i + 1 implies fields_view(r@)[j] == #[trigger] fields_view(
            v@,
        )[j] by {
            if j < i {
                assert(fields_view(r0)[j] == fields_view(v@)[j]);
            }
        }
    }
    assert(fields_view(r@) =~= fields_view(v@));
    r
}

impl Clone for FnDef {
    fn clone(&self) -> (r: FnDef)
        ensures
            r@ == self@,
    {
        FnDef {
            name: self.name.clone(),
            params: copy_params(&self.params),
            ret: self.ret.clone(),
            body: copy_stmts(&self.body),
            exported: self.exported,
            is_method: self.is_method,
        }
    }
}

fn copy_fns(v: &Vec<FnDef>) -> (r: Vec<FnDef>)
    ensures
        fns_view(r@) == fns_view(v@),
{
    let mut r: Vec<FnDef> = Vec::new();
    for i in 0..v.len()
        invariant
            r@.len() == i,
            forall|j: int| 0 <= j < i ==> fns_view(r@)[j] == #[trigger] fns_view(v@)[j],
    {
        let x = v[i].clone();
        let ghost r0 = r@;
        r.push(x);
        assert forall|j: int| 0 <= j < i + 1 implies fns_view(r@)[j] == #[trigger] fns_view(
            v@,
        )[j] by {
            if j < i {
                assert(fns_view(r0)[j] == fns_view(v@)[j]);
            }
        }
    }
    assert(fns_view(r@) =~= fns_view(v@));
    r
}

impl Clone for StructDef {
    fn clone(&self) -> (r: StructDef)
        ensures
            r@ == self@,
    {
        StructDef {
            name: self.name.clone(),
            fields: copy_fields(&self.fields),
            methods: copy_fns(&self.methods),
        }
    }
}

impl Clone for ExternFn {
    fn clone(&self) -> (r: ExternFn)
        ensures
            r@ == self@,
    {
        ExternFn {
            name: self.name.clone(),
            params: copy_params(&self.params),
            ret: self.ret.clone(),
        }
    }
}

/// A view has the elements of the list, one for one.
pub proof fn exprs_facts(v: Seq<Expr>)
    ensures
        exprs_view(v).len() == v.len(),
        forall|i: int| 0 <= i < v.len() ==> #[trigger] exprs_view(v)[i] == v[i]@,
{
}

/// A view has the elements of the list, one for one.
pub proof fn named_facts(v: Seq<(String, Expr)>)
    ensures
        named_view(v).len() == v.len(),
        forall|i: int| 0 <= i < v.len() ==> #[trigger] named_view(v)[i] == (v[i].0@, v[i].1@),
{
}

/// A view has the elements of the list, one for one.
pub proof fn pairs_facts(v: Seq<(Expr, Expr)>)
    ensures
        pairs_view(v).len() == v.len(),
        forall|i: int| 0 <= i < v.len() ==> #[trigger] pairs_view(v)[i] == (v[i].0@, v[i].1@),
{
}

/// A view has the elements of the list, one for one.
pub proof fn parts_facts(v: Seq<FStrPart>)
    ensures
        parts_view(v).len() == v.len(),
        forall|i: int| 0 <= i < v.len() ==> #[trigger] parts_view(v)[i] == v[i]@,
{
}

/// A view has the elements of the list, one for one.
pub proof fn stmts_facts(v: Seq<Stmt>)
    ensures
        stmts_view(v).len() == v.len(),
        forall|i: int| 0 <= i < v.len() ==> #[trigger] stmts_view(v)[i] == v[i]@,
{
}

/// A view has the elements of the list, one for one.
pub proof fn elifs_facts(v: Seq<(Expr, Vec<Stmt>)>)
    ensures
        elifs_view(v).len() == v.len(),
        forall|i: int| 0 <= i < v.len() ==> #[trigger] elifs_view(v)[i] == (v[i].0@, stmts_view(v[i].1@)),
{
}

/// From place `i` on, `a` is still what `b` was.
pub open spec fn tail_kept<T>(a: Seq<T>, b: Seq<T>, i: int) -> bool {
    forall|j: int| i <= j < b.len() ==> #[trigger] a[j] == b[j]
}

/// Width of a Lumen integer.
pub const LUMEN_INT_BITS: u32 = 48;

/// The integer in `-2^47 .. 2^47` that agrees with `n` modulo `2^48`.
pub open spec fn wrap48_spec(n: int) -> int {
    (n + 0x8000_0000_0000) % 0x1_0000_0000_0000 - 0x8000_0000_0000
}

/// Sign-extends the low 48 bits of `n`. Every integer operation ends in this, so
/// that all ways of running a program overflow alike.
pub fn wrap48(n: i64) -> (r: i64)
    ensures
        r == wrap48_spec(n as int),
{
    let shifted: u128 = (n as i128 + 0x8000_8000_0000_0000) as u128;
    let low: u128 = shifted % 0x1_0000_0000_0000;
    low as i64 - 0x8000_0000_0000
}

/// A wrapped integer lies in the 48-bit range, and integers in the range are fixed.
pub proof fn wrap48_range(n: int)
    ensures
        -0x8000_0000_0000 <= wrap48_spec(n) < 0x8000_0000_0000,
        -0x8000_0000_0000 <= n < 0x8000_0000_0000 ==> wrap48_spec(n) == n,
        wrap48_spec(wrap48_spec(n)) == wrap48_spec(n),
{
}

/// Two integers wrap alike exactly when they agree modulo `2^48`.
pub proof fn wrap48_congruent(a: int, b: int)
    ensures
        wrap48_spec(a) == wrap48_spec(b) <==> a % 0x1_0000_0000_0000 == b % 0x1_0000_0000_0000,
{
}

/// Wrapping the operands first changes neither a wrapped sum, a wrapped difference,
/// a wrapped negation nor a wrapped product.
pub proof fn wrap48_ring(a: int, b: int)
    ensures
        wrap48_spec(wrap48_spec(a) + wrap48_spec(b)) == wrap48_spec(a + b),
        wrap48_spec(wrap48_spec(a) - wrap48_spec(b)) == wrap48_spec(a - b),
        wrap48_spec(-wrap48_spec(a)) == wrap48_spec(-a),
        wrap48_spec(wrap48_spec(a) * wrap48_spec(b)) == wrap48_spec(a * b),
{
    let m: int = 0x1_0000_0000_0000;
    let qa: int = (a + 0x8000_0000_0000) / m;
    let qb: int = (b + 0x8000_0000_0000) / m;
    let wa: int = wrap48_spec(a);
    let wb: int = wrap48_spec(b);
    assert(a == wa + m * qa);
    assert(b == wb + m * qb);
    let k: int = wa * qb + wb * qa + m * qa * qb;
    assert(a * b == wa * wb + m * k) by (nonlinear_arith)
        requires
            a == wa + m * qa,
            b == wb + m * qb,
            k == wa * qb + wb * qa + m * qa * qb,
    ;
    assert(wrap48_spec(wa * wb + m * k) == wrap48_spec(wa * wb));
}

} // verus!
