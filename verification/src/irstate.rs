//! The state of the LLVM back end while it writes a function, and what it asks of the
//! program.

use crate::asmstate::{
    extern_map, fn_map, next64, pair_view, struct_map, succ64, text_map, text_opt, Decls,
};
use crate::ast::{
    elifs_view, expr_view, fields_view, named_view, opt_view, optblock_view, stmts_view, wrap48,
    wrap48_spec, BinOp, Expr, ExprView, ExternFnView, Field, FieldView, FnDefView, Stmt, StmtView,
    StructDefView, UnOp,
};
use crate::builtins::{is_module, is_module_spec};
use crate::names::{NameMap, NameSet};
use crate::text::{dec, dec_nat, push_char, push_i64, push_u64, str_eq, to_chars};
use crate::typeinfo::{in_table, IntInfo, IntInfoView};
use vstd::prelude::*;
use vstd::string::{StringExecFns, StringSliceAdditionalSpecFns};

verus! {

/// An upper-case hexadecimal digit.
pub open spec fn hex_digit(n: int) -> char {
    if n < 10 {
        (48 + n) as u8 as char
    } else {
        (55 + n) as u8 as char
    }
}

/// The `k` lowest hexadecimal digits of `n`.
pub open spec fn hex_text(n: nat, k: nat) -> Seq<char>
    decreases k,
{
    if k == 0 {
        Seq::empty()
    } else {
        hex_text(n / 16, (k - 1) as nat).push(hex_digit((n % 16) as int))
    }
}

fn push_hex(s: &mut String, n: u64, k: usize)
    ensures
        final(s)@ == old(s)@ + hex_text(n as nat, k as nat),
    decreases k,
{
    let ghost s0 = s@;
    if k > 0 {
        push_hex(s, n / 16, k - 1);
        let d: u8 = (n % 16) as u8;
        push_char(
            s,
            if d < 10 {
                (48 + d) as char
            } else {
                (55 + d) as char
            },
        );
    }
    assert(s@ =~= s0 + hex_text(n as nat, k as nat));
}

/// A byte of a string constant as LLVM reads it.
pub open spec fn cstr_byte(c: u8) -> Seq<char> {
    if 0x20 <= c <= 0x7e && c != 0x22 && c != 0x5c {
        seq![c as char]
    } else {
        "\\"@ + hex_text(c as nat, 2)
    }
}

pub open spec fn cstr_bytes(b: Seq<u8>) -> Seq<char>
    decreases b.len(),
{
    if b.len() == 0 {
        Seq::empty()
    } else {
        cstr_bytes(b.drop_last()) + cstr_byte(b.last())
    }
}

/// A string constant with its final zero byte.
pub open spec fn cstr_text(s: Seq<char>) -> Seq<char> {
    cstr_bytes(vstd::utf8::encode_utf8(s)) + "\\00"@
}

/// The size of a string constant in bytes.
pub open spec fn cstr_size(s: Seq<char>) -> nat {
    next64(vstd::utf8::encode_utf8(s).len() as u64) as nat
}

/// The text of a string constant and its size.
fn encode_cstr(s: &str) -> (r: (String, u64))
    ensures
        r.0@ == cstr_text(s@),
        r.1 as nat == cstr_size(s@),
{
    let b = s.as_bytes();
    let mut out = String::new();
    assert(b@.take(0) =~= Seq::empty());
    for i in 0..b.len()
        invariant
            out@ == cstr_bytes(b@.take(i as int)),
    {
        assert(b@.take(i + 1).drop_last() =~= b@.take(i as int));
        let ghost o0 = out@;
        let c: u8 = b[i];
        if 0x20 <= c && c <= 0x7e && c != 0x22 && c != 0x5c {
            push_char(&mut out, c as char);
        } else {
            out.append("\\");
            push_hex(&mut out, c as u64, 2);
        }
        assert(out@ =~= o0 + cstr_byte(c));
    }
    assert(b@.take(b@.len() as int) =~= b@);
    out.append("\\00");
    let n: usize = b.len();
    (out, succ64(n as u64))
}

/// A double by its bits.
pub open spec fn double_text(bits: u64) -> Seq<char> {
    "0x"@ + hex_text(bits as nat, 16)
}

pub fn fmt_double(bits: u64) -> (r: String)
    ensures
        r@ == double_text(bits),
{
    let mut s = "0x".to_owned();
    push_hex(&mut s, bits, 16);
    s
}

pub open spec fn plain_char(c: char) -> bool {
    ('a' <= c && c <= 'z') || ('A' <= c && c <= 'Z') || ('0' <= c && c <= '9') || c == '_' || c
        == '.'
}

/// A name as it can stand in a name of LLVM.
pub open spec fn sanitized(s: Seq<char>) -> Seq<char> {
    s.map_values(
        |c: char|
            if plain_char(c) {
                c
            } else {
                '_'
            },
    )
}

pub fn sanitize(s: &str) -> (r: String)
    ensures
        r@ == sanitized(s@),
{
    let v = to_chars(s);
    let mut out = String::new();
    for i in 0..v.len()
        invariant
            v@ == s@,
            out@ == sanitized(s@.take(i as int)),
    {
        let c: char = v[i];
        let plain = ('a' <= c && c <= 'z') || ('A' <= c && c <= 'Z') || ('0' <= c && c <= '9') || c
            == '_' || c == '.';
        push_char(
            &mut out,
            if plain {
                c
            } else {
                '_'
            },
        );
        assert(out@ =~= sanitized(s@.take(i + 1)));
    }
    assert(s@.take(s@.len() as int) =~= s@);
    out
}

/// `n` times the type of a value.
pub open spec fn word_types(n: nat) -> Seq<char>
    decreases n,
{
    if n == 0 {
        Seq::empty()
    } else if n == 1 {
        "i64"@
    } else {
        word_types((n - 1) as nat) + ", i64"@
    }
}

pub fn push_word_types(s: &mut String, n: u64)
    ensures
        final(s)@ == old(s)@ + word_types(n as nat),
    decreases n,
{
    let ghost s0 = s@;
    if n == 1 {
        s.append("i64");
    } else if n > 1 {
        push_word_types(s, n - 1);
        s.append(", i64");
    }
    assert(s@ =~= s0 + word_types(n as nat));
}

/// What a function's code is generated from: the declarations, the type facts, the
/// slot of `self`, and whether the function holds a `try`.
pub struct IrEnvView {
    pub externs: Map<Seq<char>, ExternFnView>,
    pub fns: Map<Seq<char>, FnDefView>,
    pub structs: Map<Seq<char>, StructDefView>,
    pub methods: Seq<(Seq<char>, Seq<char>)>,
    pub info: IntInfoView,
    pub func: Seq<char>,
    pub self_slot: Option<Seq<char>>,
    pub has_try: bool,
}

pub struct IrEnv<'a> {
    pub decls: &'a Decls,
    pub info: &'a IntInfo,
    pub func: &'a str,
    pub self_slot: Option<String>,
    pub has_try: bool,
}

impl<'a> View for IrEnv<'a> {
    type V = IrEnvView;

    open spec fn view(&self) -> IrEnvView {
        IrEnvView {
            externs: extern_map(self.decls.externs@),
            fns: fn_map(self.decls.fns@),
            structs: struct_map(self.decls.structs@),
            methods: pair_view(self.decls.methods@),
            info: self.info@,
            func: self.func@,
            self_slot: text_opt(self.self_slot),
            has_try: self.has_try,
        }
    }
}

impl<'a> IrEnv<'a> {
    pub fn self_text(&self) -> (r: Option<&str>)
        ensures
            match r {
                Some(s) => self@.self_slot == Some(s@),
                None => self@.self_slot is None,
            },
    {
        match &self.self_slot {
            Some(s) => Some(s.as_str()),
            None => None,
        }
    }
}

/// The state of the back end. `val` is the operand with the value that was computed
/// last, `term` whether the current block has ended.
pub struct Ir {
    pub out: Seq<char>,
    pub decls: Seq<char>,
    pub globals: Seq<char>,
    pub declared: Set<Seq<char>>,
    pub str_count: u64,
    pub tmp: u64,
    pub lbl: u64,
    pub locals: Map<Seq<char>, Seq<char>>,
    pub loops: Seq<(Seq<char>, Seq<char>)>,
    pub val: Seq<char>,
    pub term: bool,
    pub err: Option<Seq<char>>,
}

impl Ir {
    #[verifier::opaque]
    pub open spec fn p(self, s: Seq<char>) -> Ir {
        Ir { out: self.out + s, ..self }
    }

    #[verifier::opaque]
    pub open spec fn n(self, v: int) -> Ir {
        Ir { out: self.out + dec(v), ..self }
    }

    #[verifier::opaque]
    pub open spec fn u(self, v: nat) -> Ir {
        Ir { out: self.out + dec_nat(v), ..self }
    }

    /// Notes an error; the first one counts.
    #[verifier::opaque]
    pub open spec fn fail(self, m: Seq<char>) -> Ir {
        if self.err is None {
            Ir { err: Some(m), ..self }
        } else {
            self
        }
    }

    /// A new register.
    #[verifier::opaque]
    pub open spec fn vreg(self) -> (Ir, Seq<char>) {
        let n = next64(self.tmp);
        (Ir { tmp: n, ..self }, "%v"@ + dec_nat(n as nat))
    }

    /// A new number, taken from those of the registers.
    #[verifier::opaque]
    pub open spec fn number(self) -> (Ir, u64) {
        let n = next64(self.tmp);
        (Ir { tmp: n, ..self }, n)
    }

    #[verifier::opaque]
    pub open spec fn label(self, base: Seq<char>) -> (Ir, Seq<char>) {
        let n = next64(self.lbl);
        (Ir { lbl: n, ..self }, base + dec_nat(n as nat))
    }

    #[verifier::opaque]
    pub open spec fn give(self, v: Seq<char>) -> Ir {
        Ir { val: v, ..self }
    }

    #[verifier::opaque]
    pub open spec fn set_term(self, b: bool) -> Ir {
        Ir { term: b, ..self }
    }

    /// Adds a line to the declarations, once for each symbol.
    #[verifier::opaque]
    pub open spec fn need_line(self, sym: Seq<char>, line: Seq<char>) -> Ir {
        if self.declared.contains(sym) {
            self
        } else {
            Ir {
                declared: self.declared.insert(sym),
                decls: self.decls + line + "\n"@,
                ..self
            }
        }
    }

    /// Declares a function of the runtime.
    #[verifier::opaque]
    pub open spec fn need(self, sym: Seq<char>, sig: Seq<char>) -> Ir {
        self.need_line(sym, "declare "@ + sig)
    }

    /// Declares a function that takes `n` values and gives one.
    #[verifier::opaque]
    pub open spec fn need_call(self, sym: Seq<char>, n: nat) -> Ir {
        self.need(sym, "i64 @"@ + sym + "("@ + word_types(n) + ")"@)
    }

    /// Adds a string constant under a name that starts with `base`.
    #[verifier::opaque]
    pub open spec fn add_const(self, base: Seq<char>, s: Seq<char>) -> (Ir, Seq<char>) {
        let g = base + dec_nat(self.str_count as nat);
        (
            Ir {
                globals: self.globals + g + " = private unnamed_addr constant ["@ + dec_nat(
                    cstr_size(s),
                ) + " x i8] c\""@ + cstr_text(s) + "\"\n"@,
                str_count: next64(self.str_count),
                ..self
            },
            g,
        )
    }

    /// Adds a string constant and gives the expression for its address.
    #[verifier::opaque]
    pub open spec fn add_str(self, s: Seq<char>) -> (Ir, Seq<char>) {
        let (g, name) = self.add_const("@.str"@, s);
        (
            g,
            "getelementptr inbounds ["@ + dec_nat(cstr_size(s)) + " x i8], ptr "@ + name
                + ", i64 0, i64 0"@,
        )
    }

    pub open spec fn field_consts(self, fields: Seq<FieldView>) -> (Ir, Seq<char>)
        decreases fields.len(),
    {
        if fields.len() == 0 {
            (self, Seq::empty())
        } else {
            let (g, text) = self.field_consts(fields.drop_last());
            let (h, c) = g.add_const("@.fstr"@, fields.last().name);
            (
                h,
                if fields.len() == 1 {
                    "ptr "@ + c
                } else {
                    text + ", ptr "@ + c
                },
            )
        }
    }

    /// The table of a struct's field names, written once.
    #[verifier::opaque]
    pub open spec fn field_table(self, name: Seq<char>, fields: Seq<FieldView>) -> (Ir, Seq<char>) {
        let sym = "@.fields."@ + sanitized(name);
        if self.declared.contains(sym) {
            (self, sym)
        } else {
            let (g, text) = (Ir { declared: self.declared.insert(sym), ..self }).field_consts(
                fields,
            );
            (
                Ir {
                    globals: g.globals + sym + " = private unnamed_addr constant ["@ + dec_nat(
                        fields.len(),
                    ) + " x ptr] ["@ + text + "]\n"@,
                    ..g
                },
                sym,
            )
        }
    }

    /// The slot of a variable, a new one where it has none.
    #[verifier::opaque]
    pub open spec fn slot(self, name: Seq<char>) -> (Ir, Seq<char>) {
        if self.locals.contains_key(name) {
            (self, self.locals[name])
        } else {
            let s = "%l."@ + sanitized(name);
            (
                Ir {
                    out: self.out + "  "@ + s + " = alloca i64\n"@,
                    locals: self.locals.insert(name, s),
                    ..self
                },
                s,
            )
        }
    }

    #[verifier::opaque]
    pub open spec fn bind_local(self, name: Seq<char>, slot: Seq<char>) -> Ir {
        Ir { locals: self.locals.insert(name, slot), ..self }
    }

    #[verifier::opaque]
    pub open spec fn push_loop(self, cont: Seq<char>, brk: Seq<char>) -> Ir {
        Ir { loops: self.loops.push((cont, brk)), ..self }
    }

    #[verifier::opaque]
    pub open spec fn pop_loop(self) -> Ir {
        if self.loops.len() > 0 {
            Ir { loops: self.loops.drop_last(), ..self }
        } else {
            self
        }
    }

    pub open spec fn local_of(self, name: Seq<char>) -> Option<Seq<char>> {
        if self.locals.contains_key(name) {
            Some(self.locals[name])
        } else {
            None
        }
    }

    /// Where `continue` goes.
    pub open spec fn loop_next(self) -> Option<Seq<char>> {
        if self.loops.len() > 0 {
            Some(self.loops.last().0)
        } else {
            None
        }
    }

    /// Where `break` goes.
    pub open spec fn loop_end(self) -> Option<Seq<char>> {
        if self.loops.len() > 0 {
            Some(self.loops.last().1)
        } else {
            None
        }
    }
}

pub struct IrEmitter {
    pub out: String,
    pub decls: String,
    pub globals: String,
    pub declared: NameSet,
    pub str_count: u64,
    pub tmp: u64,
    pub lbl: u64,
    pub locals: NameMap<String>,
    pub loops: Vec<(String, String)>,
    pub val: String,
    pub term: bool,
    pub err: Option<String>,
}

impl View for IrEmitter {
    type V = Ir;

    open spec fn view(&self) -> Ir {
        Ir {
            out: self.out@,
            decls: self.decls@,
            globals: self.globals@,
            declared: self.declared@,
            str_count: self.str_count,
            tmp: self.tmp,
            lbl: self.lbl,
            locals: text_map(self.locals@),
            loops: pair_view(self.loops@),
            val: self.val@,
            term: self.term,
            err: text_opt(self.err),
        }
    }
}

impl IrEmitter {
    pub fn p(&mut self, s: &str)
        ensures
            final(self)@ == old(self)@.p(s@),
    {
        proof {
            reveal(Ir::p);
        }
        self.out.append(s);
    }

    pub fn n(&mut self, v: i64)
        ensures
            final(self)@ == old(self)@.n(v as int),
    {
        proof {
            reveal(Ir::n);
        }
        push_i64(&mut self.out, v);
    }

    pub fn u(&mut self, v: u64)
        ensures
            final(self)@ == old(self)@.u(v as nat),
    {
        proof {
            reveal(Ir::u);
        }
        push_u64(&mut self.out, v);
    }

    pub fn fail(&mut self, m: &str)
        ensures
            final(self)@ == old(self)@.fail(m@),
    {
        proof {
            reveal(Ir::fail);
        }
        if self.err.is_none() {
            self.err = Some(m.to_owned());
        }
    }

    pub fn vreg(&mut self) -> (r: String)
        ensures
            (final(self)@, r@) == old(self)@.vreg(),
    {
        proof {
            reveal(Ir::vreg);
        }
        self.tmp = succ64(self.tmp);
        let mut s = "%v".to_owned();
        push_u64(&mut s, self.tmp);
        s
    }

    pub fn number(&mut self) -> (r: u64)
        ensures
            (final(self)@, r) == old(self)@.number(),
    {
        proof {
            reveal(Ir::number);
        }
        self.tmp = succ64(self.tmp);
        self.tmp
    }

    pub fn label(&mut self, base: &str) -> (r: String)
        ensures
            (final(self)@, r@) == old(self)@.label(base@),
    {
        proof {
            reveal(Ir::label);
        }
        self.lbl = succ64(self.lbl);
        let mut s = base.to_owned();
        push_u64(&mut s, self.lbl);
        s
    }

    pub fn give(&mut self, v: &str)
        ensures
            final(self)@ == old(self)@.give(v@),
    {
        proof {
            reveal(Ir::give);
        }
        self.val = v.to_owned();
    }

    pub fn set_term(&mut self, b: bool)
        ensures
            final(self)@ == old(self)@.set_term(b),
    {
        proof {
            reveal(Ir::set_term);
        }
        self.term = b;
    }

    pub fn need_line(&mut self, sym: &str, line: &str)
        ensures
            final(self)@ == old(self)@.need_line(sym@, line@),
    {
        proof {
            reveal(Ir::need_line);
        }
        if !self.declared.contains(sym) {
            self.declared.insert(sym);
            self.decls.append(line);
            self.decls.append("\n");
        }
    }

    pub fn need(&mut self, sym: &str, sig: &str)
        ensures
            final(self)@ == old(self)@.need(sym@, sig@),
    {
        proof {
            reveal(Ir::need);
        }
        let mut line = "declare ".to_owned();
        line.append(sig);
        self.need_line(sym, line.as_str());
    }

    pub fn need_call(&mut self, sym: &str, n: u64)
        ensures
            final(self)@ == old(self)@.need_call(sym@, n as nat),
    {
        proof {
            reveal(Ir::need_call);
        }
        let mut sig = "i64 @".to_owned();
        sig.append(sym);
        sig.append("(");
        push_word_types(&mut sig, n);
        sig.append(")");
        self.need(sym, sig.as_str());
    }

    pub fn add_const(&mut self, base: &str, s: &str) -> (r: String)
        ensures
            (final(self)@, r@) == old(self)@.add_const(base@, s@),
    {
        proof {
            reveal(Ir::add_const);
        }
        let mut name = base.to_owned();
        push_u64(&mut name, self.str_count);
        self.str_count = succ64(self.str_count);
        let (text, size) = encode_cstr(s);
        self.globals.append(name.as_str());
        self.globals.append(" = private unnamed_addr constant [");
        push_u64(&mut self.globals, size);
        self.globals.append(" x i8] c\"");
        self.globals.append(text.as_str());
        self.globals.append("\"\n");
        name
    }

    pub fn add_str(&mut self, s: &str) -> (r: String)
        ensures
            (final(self)@, r@) == old(self)@.add_str(s@),
    {
        proof {
            reveal(Ir::add_str);
        }
        let name = self.add_const("@.str", s);
        let (_, size) = encode_cstr(s);
        let mut r = "getelementptr inbounds [".to_owned();
        push_u64(&mut r, size);
        r.append(" x i8], ptr ");
        r.append(name.as_str());
        r.append(", i64 0, i64 0");
        r
    }

    pub fn field_table(&mut self, name: &str, fields: &Vec<Field>) -> (r: String)
        ensures
            (final(self)@, r@) == old(self)@.field_table(name@, fields_view(fields@)),
    {
        proof {
            reveal(Ir::field_table);
        }
        let mut sym = "@.fields.".to_owned();
        let plain = sanitize(name);
        sym.append(plain.as_str());
        if !self.declared.contains(sym.as_str()) {
            self.declared.insert(sym.as_str());
            let mut text = String::new();
            let ghost s0 = self@;
            let ghost fv = fields_view(fields@);
            assert(fv.take(0) =~= Seq::empty());
            assert(text@ =~= Seq::empty());
            for i in 0..fields.len()
                invariant
                    fv == fields_view(fields@),
                    (self@, text@) == s0.field_consts(fv.take(i as int)),
            {
                assert(fv.take(i + 1).drop_last() =~= fv.take(i as int));
                assert(fv.take(i + 1).last() == fields@[i as int]@);
                let c = self.add_const("@.fstr", fields[i].name.as_str());
                if i == 0 {
                    text = "ptr ".to_owned();
                } else {
                    text.append(", ptr ");
                }
                text.append(c.as_str());
            }
            assert(fv.take(fv.len() as int) =~= fv);
            self.globals.append(sym.as_str());
            self.globals.append(" = private unnamed_addr constant [");
            push_u64(&mut self.globals, fields.len() as u64);
            self.globals.append(" x ptr] [");
            self.globals.append(text.as_str());
            self.globals.append("]\n");
        }
        sym
    }

    pub fn slot(&mut self, name: &str) -> (r: String)
        ensures
            (final(self)@, r@) == old(self)@.slot(name@),
    {
        proof {
            reveal(Ir::slot);
        }
        if let Some(s) = self.locals.get(name) {
            return s.clone();
        }
        let mut s = "%l.".to_owned();
        let plain = sanitize(name);
        s.append(plain.as_str());
        self.out.append("  ");
        self.out.append(s.as_str());
        self.out.append(" = alloca i64\n");
        let ghost m0 = self.locals@;
        self.locals.insert(name, s.clone());
        assert(text_map(self.locals@) =~= text_map(m0).insert(name@, s@));
        s
    }

    pub fn bind_local(&mut self, name: &str, slot: &str)
        ensures
            final(self)@ == old(self)@.bind_local(name@, slot@),
    {
        proof {
            reveal(Ir::bind_local);
        }
        let ghost m0 = self.locals@;
        self.locals.insert(name, slot.to_owned());
        assert(text_map(self.locals@) =~= text_map(m0).insert(name@, slot@));
    }

    pub fn push_loop(&mut self, cont: &str, brk: &str)
        ensures
            final(self)@ == old(self)@.push_loop(cont@, brk@),
    {
        proof {
            reveal(Ir::push_loop);
        }
        let ghost s0 = self.loops@;
        self.loops.push((cont.to_owned(), brk.to_owned()));
        assert(pair_view(self.loops@) =~= pair_view(s0).push((cont@, brk@)));
    }

    pub fn pop_loop(&mut self)
        ensures
            final(self)@ == old(self)@.pop_loop(),
    {
        proof {
            reveal(Ir::pop_loop);
        }
        let ghost s0 = self.loops@;
        let _ = self.loops.pop();
        proof {
            if s0.len() > 0 {
                assert(pair_view(self.loops@) =~= pair_view(s0).drop_last());
            } else {
                assert(pair_view(self.loops@) =~= pair_view(s0));
            }
        }
    }

    pub fn local_of(&self, name: &str) -> (r: Option<String>)
        ensures
            text_opt(r) == self@.local_of(name@),
    {
        match self.locals.get(name) {
            Some(s) => Some(s.clone()),
            None => None,
        }
    }

    pub fn loop_next(&self) -> (r: Option<String>)
        ensures
            text_opt(r) == self@.loop_next(),
    {
        let n: usize = self.loops.len();
        if n > 0 {
            Some(self.loops[n - 1].0.clone())
        } else {
            None
        }
    }

    pub fn loop_end(&self) -> (r: Option<String>)
        ensures
            text_opt(r) == self@.loop_end(),
    {
        let n: usize = self.loops.len();
        if n > 0 {
            Some(self.loops[n - 1].1.clone())
        } else {
            None
        }
    }
}

/// A loop that has been opened: the slot of its counter and its labels.
pub struct IrLoopView {
    pub slot: Seq<char>,
    pub top: Seq<char>,
    pub cont: Seq<char>,
    pub end: Seq<char>,
}

pub struct IrLoop {
    pub slot: String,
    pub top: String,
    pub cont: String,
    pub end: String,
}

impl View for IrLoop {
    type V = IrLoopView;

    open spec fn view(&self) -> IrLoopView {
        IrLoopView { slot: self.slot@, top: self.top@, cont: self.cont@, end: self.end@ }
    }
}

/// One more argument of a call.
pub open spec fn with_arg(t: Seq<char>, v: Seq<char>) -> Seq<char> {
    if t.len() == 0 {
        "i64 "@ + v
    } else {
        t + ", i64 "@ + v
    }
}

pub fn push_arg(t: &mut String, v: &str)
    ensures
        final(t)@ == with_arg(old(t)@, v@),
{
    if t.as_str().unicode_len() == 0 {
        t.append("i64 ");
        t.append(v);
        assert(t@ =~= "i64 "@ + v@);
    } else {
        t.append(", i64 ");
        t.append(v);
    }
}

/// A literal by which a division cannot fail and its quotient needs no more bits.
pub open spec fn safe_divisor(e: ExprView) -> bool {
    match e {
        ExprView::Int(n) => wrap48_spec(n as int) != 0 && wrap48_spec(n as int) != -1,
        _ => false,
    }
}

fn is_safe_divisor(e: &Expr) -> (r: bool)
    ensures
        r == safe_divisor(e@),
{
    match e {
        Expr::Int(n) => wrap48(*n) != 0 && wrap48(*n) != -1,
        _ => false,
    }
}

pub open spec fn ring_op(op: BinOp) -> bool {
    op == BinOp::Add || op == BinOp::Sub || op == BinOp::Mul
}

pub open spec fn named_in(s: Set<Seq<char>>, e: ExprView) -> bool {
    match e {
        ExprView::Ident(n) => s.contains(n),
        _ => false,
    }
}

fn is_named_in(s: &NameSet, e: &Expr) -> (r: bool)
    ensures
        r == named_in(s@, e@),
{
    match e {
        Expr::Ident(n) => s.contains(n.as_str()),
        _ => false,
    }
}

/// Whether an expression is sure to be an integer. A division counts where the divisor
/// is a literal, so that it cannot fail.
pub open spec fn sure_int(env: IrEnvView, e: ExprView) -> bool
    decreases e,
{
    match e {
        ExprView::Int(_) => true,
        ExprView::Ident(n) => in_table(env.info.int_vars, env.func, n),
        ExprView::Unary { op, expr } => op == UnOp::Neg && sure_int(env, *expr),
        ExprView::Binary { op, lhs, rhs } => (ring_op(op) || ((op == BinOp::Div || op == BinOp::Mod)
            && safe_divisor(*rhs))) && sure_int(env, *lhs) && sure_int(env, *rhs),
        ExprView::Call { callee, .. } => named_in(env.info.int_ret, *callee),
        _ => false,
    }
}

pub fn is_sure_int(env: &IrEnv, e: &Expr) -> (r: bool)
    ensures
        r == sure_int(env@, e@),
    decreases e,
{
    match e {
        Expr::Int(_) => true,
        Expr::Ident(n) => env.info.is_int_var(env.func, n.as_str()),
        Expr::Unary { op, expr } => *op == UnOp::Neg && is_sure_int(env, expr),
        Expr::Binary { op, lhs, rhs } => {
            assert(rhs@ == expr_view(**rhs));
            (*op == BinOp::Add || *op == BinOp::Sub || *op == BinOp::Mul || ((*op == BinOp::Div
                || *op == BinOp::Mod) && is_safe_divisor(rhs))) && is_sure_int(env, lhs)
                && is_sure_int(env, rhs)
        },
        Expr::Call { callee, .. } => {
            assert(callee@ == expr_view(**callee));
            is_named_in(&env.info.int_ret, callee)
        },
        _ => false,
    }
}

/// Whether an expression is sure to be a float.
pub open spec fn sure_float(env: IrEnvView, e: ExprView) -> bool
    decreases e,
{
    match e {
        ExprView::Float(_) => true,
        ExprView::Ident(n) => in_table(env.info.float_vars, env.func, n),
        ExprView::Unary { op, expr } => op == UnOp::Neg && sure_float(env, *expr),
        ExprView::Binary { op, lhs, rhs } => (ring_op(op) || op == BinOp::Div) && sure_float(
            env,
            *lhs,
        ) && sure_float(env, *rhs),
        ExprView::Call { callee, .. } => named_in(env.info.float_ret, *callee),
        _ => false,
    }
}

pub fn is_sure_float(env: &IrEnv, e: &Expr) -> (r: bool)
    ensures
        r == sure_float(env@, e@),
    decreases e,
{
    match e {
        Expr::Float(_) => true,
        Expr::Ident(n) => env.info.is_float_var(env.func, n.as_str()),
        Expr::Unary { op, expr } => *op == UnOp::Neg && is_sure_float(env, expr),
        Expr::Binary { op, lhs, rhs } => (*op == BinOp::Add || *op == BinOp::Sub || *op
            == BinOp::Mul || *op == BinOp::Div) && is_sure_float(env, lhs) && is_sure_float(
            env,
            rhs,
        ),
        Expr::Call { callee, .. } => {
            assert(callee@ == expr_view(**callee));
            is_named_in(&env.info.float_ret, callee)
        },
        _ => false,
    }
}

/// What a binary operation is written as.
pub enum BinForm {
    /// `and` and `or`.
    Short,
    /// On unboxed integers.
    Int,
    /// On unboxed integers, with a truth value.
    IntTest,
    /// On unboxed floats.
    Float,
    FloatTest,
    /// By the runtime.
    Boxed,
}

/// The operation on unboxed integers that an expression is, if it is one.
pub open spec fn int_ins(env: IrEnvView, op: BinOp, lhs: ExprView, rhs: ExprView) -> Option<
    Seq<char>,
> {
    if ring_op(op) {
        if sure_int(env, lhs) && sure_int(env, rhs) {
            Some(
                if op == BinOp::Add {
                    "add"@
                } else if op == BinOp::Sub {
                    "sub"@
                } else {
                    "mul"@
                },
            )
        } else {
            None
        }
    } else if (op == BinOp::Div || op == BinOp::Mod) && safe_divisor(rhs) && sure_int(env, lhs) {
        Some(
            if op == BinOp::Div {
                "sdiv"@
            } else {
                "srem"@
            },
        )
    } else {
        None
    }
}

pub fn find_int_ins(env: &IrEnv, op: BinOp, lhs: &Expr, rhs: &Expr) -> (r: Option<&'static str>)
    ensures
        match r {
            Some(s) => int_ins(env@, op, lhs@, rhs@) == Some(s@),
            None => int_ins(env@, op, lhs@, rhs@) is None,
        },
{
    if op == BinOp::Add || op == BinOp::Sub || op == BinOp::Mul {
        if is_sure_int(env, lhs) && is_sure_int(env, rhs) {
            Some(
                if op == BinOp::Add {
                    "add"
                } else if op == BinOp::Sub {
                    "sub"
                } else {
                    "mul"
                },
            )
        } else {
            None
        }
    } else if (op == BinOp::Div || op == BinOp::Mod) && is_safe_divisor(rhs) && is_sure_int(env, lhs) {
        Some(
            if op == BinOp::Div {
                "sdiv"
            } else {
                "srem"
            },
        )
    } else {
        None
    }
}

pub open spec fn float_ins_of(env: IrEnvView, op: BinOp, lhs: ExprView, rhs: ExprView) -> Option<
    Seq<char>,
> {
    if (ring_op(op) || op == BinOp::Div) && sure_float(env, lhs) && sure_float(env, rhs) {
        Some(
            if op == BinOp::Add {
                "fadd"@
            } else if op == BinOp::Sub {
                "fsub"@
            } else if op == BinOp::Mul {
                "fmul"@
            } else {
                "fdiv"@
            },
        )
    } else {
        None
    }
}

pub fn find_float_ins(env: &IrEnv, op: BinOp, lhs: &Expr, rhs: &Expr) -> (r: Option<&'static str>)
    ensures
        match r {
            Some(s) => float_ins_of(env@, op, lhs@, rhs@) == Some(s@),
            None => float_ins_of(env@, op, lhs@, rhs@) is None,
        },
{
    if (op == BinOp::Add || op == BinOp::Sub || op == BinOp::Mul || op == BinOp::Div)
        && is_sure_float(env, lhs) && is_sure_float(env, rhs) {
        Some(
            if op == BinOp::Add {
                "fadd"
            } else if op == BinOp::Sub {
                "fsub"
            } else if op == BinOp::Mul {
                "fmul"
            } else {
                "fdiv"
            },
        )
    } else {
        None
    }
}

/// The condition code of a comparison of integers.
pub open spec fn icc(op: BinOp) -> Option<Seq<char>> {
    match op {
        BinOp::Eq => Some("eq"@),
        BinOp::Ne => Some("ne"@),
        BinOp::Lt => Some("slt"@),
        BinOp::Le => Some("sle"@),
        BinOp::Gt => Some("sgt"@),
        BinOp::Ge => Some("sge"@),
        _ => None,
    }
}

pub fn find_icc(op: BinOp) -> (r: Option<&'static str>)
    ensures
        match r {
            Some(s) => icc(op) == Some(s@),
            None => icc(op) is None,
        },
{
    match op {
        BinOp::Eq => Some("eq"),
        BinOp::Ne => Some("ne"),
        BinOp::Lt => Some("slt"),
        BinOp::Le => Some("sle"),
        BinOp::Gt => Some("sgt"),
        BinOp::Ge => Some("sge"),
        _ => None,
    }
}

/// The condition code of an ordered comparison of floats.
pub open spec fn fcc(op: BinOp) -> Option<Seq<char>> {
    match op {
        BinOp::Eq => Some("oeq"@),
        BinOp::Ne => Some("one"@),
        BinOp::Lt => Some("olt"@),
        BinOp::Le => Some("ole"@),
        BinOp::Gt => Some("ogt"@),
        BinOp::Ge => Some("oge"@),
        _ => None,
    }
}

pub fn find_fcc(op: BinOp) -> (r: Option<&'static str>)
    ensures
        match r {
            Some(s) => fcc(op) == Some(s@),
            None => fcc(op) is None,
        },
{
    match op {
        BinOp::Eq => Some("oeq"),
        BinOp::Ne => Some("one"),
        BinOp::Lt => Some("olt"),
        BinOp::Le => Some("ole"),
        BinOp::Gt => Some("ogt"),
        BinOp::Ge => Some("oge"),
        _ => None,
    }
}

/// How an operation is written. In a function with a `try` everything stays boxed.
pub open spec fn bin_form(env: IrEnvView, op: BinOp, lhs: ExprView, rhs: ExprView) -> BinForm {
    let ints = !env.has_try && sure_int(env, lhs) && sure_int(env, rhs);
    let floats = !env.has_try && sure_float(env, lhs) && sure_float(env, rhs);
    if op == BinOp::And || op == BinOp::Or {
        BinForm::Short
    } else if ints && int_ins(env, op, lhs, rhs) is Some {
        BinForm::Int
    } else if ints && icc(op) is Some {
        BinForm::IntTest
    } else if floats && float_ins_of(env, op, lhs, rhs) is Some {
        BinForm::Float
    } else if floats && fcc(op) is Some {
        BinForm::FloatTest
    } else {
        BinForm::Boxed
    }
}

pub fn find_bin_form(env: &IrEnv, op: BinOp, lhs: &Expr, rhs: &Expr) -> (r: BinForm)
    ensures
        r == bin_form(env@, op, lhs@, rhs@),
{
    if op == BinOp::And || op == BinOp::Or {
        return BinForm::Short;
    }
    if !env.has_try && is_sure_int(env, lhs) && is_sure_int(env, rhs) {
        if find_int_ins(env, op, lhs, rhs).is_some() {
            return BinForm::Int;
        }
        if find_icc(op).is_some() {
            return BinForm::IntTest;
        }
    }
    if !env.has_try && is_sure_float(env, lhs) && is_sure_float(env, rhs) {
        if find_float_ins(env, op, lhs, rhs).is_some() {
            return BinForm::Float;
        }
        if find_fcc(op).is_some() {
            return BinForm::FloatTest;
        }
    }
    BinForm::Boxed
}

/// How a condition is written.
pub enum TestForm {
    Int,
    Float,
    Boxed,
}

pub open spec fn test_form(env: IrEnvView, e: ExprView) -> TestForm {
    match e {
        ExprView::Binary { op, lhs, rhs } => if env.has_try || icc(op) is None {
            TestForm::Boxed
        } else if sure_int(env, *lhs) && sure_int(env, *rhs) {
            TestForm::Int
        } else if sure_float(env, *lhs) && sure_float(env, *rhs) {
            TestForm::Float
        } else {
            TestForm::Boxed
        },
        _ => TestForm::Boxed,
    }
}

pub fn find_test_form(env: &IrEnv, e: &Expr) -> (r: TestForm)
    ensures
        r == test_form(env@, e@),
{
    match e {
        Expr::Binary { op, lhs, rhs } => {
            assert(lhs@ == expr_view(**lhs) && rhs@ == expr_view(**rhs));
            if env.has_try || find_icc(*op).is_none() {
                TestForm::Boxed
            } else if is_sure_int(env, lhs) && is_sure_int(env, rhs) {
                TestForm::Int
            } else if is_sure_float(env, lhs) && is_sure_float(env, rhs) {
                TestForm::Float
            } else {
                TestForm::Boxed
            }
        },
        _ => TestForm::Boxed,
    }
}

/// Whether an expression may allocate.
pub open spec fn expr_allocs(env: IrEnvView, e: ExprView) -> bool
    decreases e,
{
    match e {
        ExprView::Int(_)
        | ExprView::Float(_)
        | ExprView::Bool(_)
        | ExprView::Nil
        | ExprView::Ident(_)
        | ExprView::SelfExpr => false,
        ExprView::Unary { expr, .. } => expr_allocs(env, *expr),
        ExprView::Binary { lhs, rhs, .. } => !((sure_int(env, *lhs) && sure_int(env, *rhs)) || (
        sure_float(env, *lhs) && sure_float(env, *rhs))) || expr_allocs(env, *lhs) || expr_allocs(
            env,
            *rhs,
        ),
        ExprView::Index { obj, index } => expr_allocs(env, *obj) || expr_allocs(env, *index),
        ExprView::Field { obj, .. } => expr_allocs(env, *obj),
        _ => true,
    }
}

fn may_expr_alloc(env: &IrEnv, e: &Expr) -> (r: bool)
    ensures
        r == expr_allocs(env@, e@),
    decreases e,
{
    match e {
        Expr::Int(_) => false,
        Expr::Float(_) => false,
        Expr::Bool(_) => false,
        Expr::Nil => false,
        Expr::Ident(_) => false,
        Expr::SelfExpr => false,
        Expr::Unary { expr, .. } => may_expr_alloc(env, expr),
        Expr::Binary { lhs, rhs, .. } => {
            assert(lhs@ == expr_view(**lhs) && rhs@ == expr_view(**rhs));
            !((is_sure_int(env, lhs) && is_sure_int(env, rhs)) || (is_sure_float(env, lhs)
                && is_sure_float(env, rhs))) || may_expr_alloc(env, lhs) || may_expr_alloc(env, rhs)
        },
        Expr::Index { obj, index } => may_expr_alloc(env, obj) || may_expr_alloc(env, index),
        Expr::Field { obj, .. } => may_expr_alloc(env, obj),
        _ => true,
    }
}

/// Whether a statement may allocate. A loop inside polls by itself.
pub open spec fn stmt_allocs(env: IrEnvView, s: StmtView) -> bool
    decreases s,
{
    match s {
        StmtView::SrcLine(_) | StmtView::Break | StmtView::Continue => false,
        StmtView::Let { value, .. } => expr_allocs(env, value),
        StmtView::Assign { value, .. } => expr_allocs(env, value),
        StmtView::ExprStmt(e) => expr_allocs(env, e),
        StmtView::Return(o) => match o {
            Some(e) => expr_allocs(env, e),
            None => false,
        },
        StmtView::If { cond, then, elifs, els } => expr_allocs(env, cond) || stmts_alloc(env, then)
            || elifs_alloc(env, elifs) || match els {
            Some(b) => stmts_alloc(env, b),
            None => false,
        },
        _ => true,
    }
}

pub open spec fn stmts_alloc(env: IrEnvView, s: Seq<StmtView>) -> bool
    decreases s,
{
    exists|i: int| 0 <= i < s.len() && stmt_allocs(env, #[trigger] s[i])
}

pub open spec fn elifs_alloc(env: IrEnvView, s: Seq<(ExprView, Seq<StmtView>)>) -> bool
    decreases s,
{
    exists|i: int|
        0 <= i < s.len() && (expr_allocs(env, (#[trigger] s[i]).0) || stmts_alloc(env, s[i].1))
}

fn may_stmt_alloc(env: &IrEnv, s: &Stmt) -> (r: bool)
    ensures
        r == stmt_allocs(env@, s@),
    decreases s,
{
    match s {
        Stmt::SrcLine(_) => false,
        Stmt::Break => false,
        Stmt::Continue => false,
        Stmt::Let { value, .. } => may_expr_alloc(env, value),
        Stmt::Assign { value, .. } => may_expr_alloc(env, value),
        Stmt::ExprStmt(e) => may_expr_alloc(env, e),
        Stmt::Return(o) => {
            assert(opt_view(*o) is Some == o is Some);
            match o {
                Some(e) => may_expr_alloc(env, e),
                None => false,
            }
        },
        Stmt::If { cond, then, elifs, els } => {
            assert(optblock_view(*els) is Some == els is Some);
            may_expr_alloc(env, cond) || may_alloc(env, then) || may_elifs_alloc(env, elifs)
                || match els {
                Some(b) => may_alloc(env, b),
                None => false,
            }
        },
        _ => true,
    }
}

pub fn may_alloc(env: &IrEnv, v: &Vec<Stmt>) -> (r: bool)
    ensures
        r == stmts_alloc(env@, stmts_view(v@)),
    decreases v,
{
    let ghost s0 = stmts_view(v@);
    for i in 0..v.len()
        invariant
            s0 == stmts_view(v@),
            forall|k: int| 0 <= k < i ==> !stmt_allocs(env@, #[trigger] s0[k]),
    {
        assert(s0[i as int] == v@[i as int]@);
        if may_stmt_alloc(env, &v[i]) {
            return true;
        }
    }
    false
}

fn may_elifs_alloc(env: &IrEnv, v: &Vec<(Expr, Vec<Stmt>)>) -> (r: bool)
    ensures
        r == elifs_alloc(env@, elifs_view(v@)),
    decreases v,
{
    let ghost s0 = elifs_view(v@);
    for i in 0..v.len()
        invariant
            s0 == elifs_view(v@),
            forall|k: int|
                0 <= k < i ==> !expr_allocs(env@, (#[trigger] s0[k]).0) && !stmts_alloc(
                    env@,
                    s0[k].1,
                ),
    {
        assert(s0[i as int] == (v@[i as int].0@, stmts_view(v@[i as int].1@)));
        if may_expr_alloc(env, &v[i].0) || may_alloc(env, &v[i].1) {
            return true;
        }
    }
    false
}

/// Whether a statement holds a `try`.
pub open spec fn tries_stmt(s: StmtView) -> bool
    decreases s,
{
    match s {
        StmtView::Try { .. } => true,
        StmtView::If { then, elifs, els, .. } => tries(then) || elifs_try(elifs) || match els {
            Some(b) => tries(b),
            None => false,
        },
        StmtView::While { body, .. } => tries(body),
        StmtView::For { body, .. } => tries(body),
        _ => false,
    }
}

pub open spec fn tries(s: Seq<StmtView>) -> bool
    decreases s,
{
    exists|i: int| 0 <= i < s.len() && tries_stmt(#[trigger] s[i])
}

pub open spec fn elifs_try(s: Seq<(ExprView, Seq<StmtView>)>) -> bool
    decreases s,
{
    exists|i: int| 0 <= i < s.len() && tries((#[trigger] s[i]).1)
}

fn stmt_has_try(s: &Stmt) -> (r: bool)
    ensures
        r == tries_stmt(s@),
    decreases s,
{
    match s {
        Stmt::Try { .. } => true,
        Stmt::If { then, elifs, els, .. } => {
            assert(optblock_view(*els) is Some == els is Some);
            body_has_try(then) || elifs_have_try(elifs) || match els {
                Some(b) => body_has_try(b),
                None => false,
            }
        },
        Stmt::While { body, .. } => body_has_try(body),
        Stmt::For { body, .. } => body_has_try(body),
        _ => false,
    }
}

pub fn body_has_try(v: &Vec<Stmt>) -> (r: bool)
    ensures
        r == tries(stmts_view(v@)),
    decreases v,
{
    let ghost s0 = stmts_view(v@);
    for i in 0..v.len()
        invariant
            s0 == stmts_view(v@),
            forall|k: int| 0 <= k < i ==> !tries_stmt(#[trigger] s0[k]),
    {
        assert(s0[i as int] == v@[i as int]@);
        if stmt_has_try(&v[i]) {
            return true;
        }
    }
    false
}

fn elifs_have_try(v: &Vec<(Expr, Vec<Stmt>)>) -> (r: bool)
    ensures
        r == elifs_try(elifs_view(v@)),
    decreases v,
{
    let ghost s0 = elifs_view(v@);
    for i in 0..v.len()
        invariant
            s0 == elifs_view(v@),
            forall|k: int| 0 <= k < i ==> !tries((#[trigger] s0[k]).1),
    {
        assert(s0[i as int] == (v@[i as int].0@, stmts_view(v@[i as int].1@)));
        if body_has_try(&v[i].1) {
            return true;
        }
    }
    false
}

/// How a call of a named function is written.
pub enum IrCall {
    /// By the value of the variable of that name.
    Value,
    Print,
    Len,
    Range,
    Input,
    /// A runtime function without a result.
    Quiet,
    /// A runtime function of one value.
    One,
    Struct,
    Extern,
    Direct,
    Unknown,
}

/// The runtime function of a built-in function of one value.
pub open spec fn one_value_fn(n: Seq<char>) -> Option<Seq<char>> {
    if n == "str"@ {
        Some("lumen_to_str"@)
    } else if n == "int"@ {
        Some("lumen_to_int_val"@)
    } else if n == "float"@ {
        Some("lumen_to_float_val"@)
    } else if n == "sum"@ {
        Some("lumen_sum"@)
    } else if n == "min"@ {
        Some("lumen_min"@)
    } else if n == "max"@ {
        Some("lumen_max"@)
    } else if n == "abs"@ {
        Some("lumen_abs"@)
    } else if n == "round"@ {
        Some("lumen_round"@)
    } else if n == "type"@ {
        Some("lumen_type"@)
    } else if n == "ord"@ {
        Some("lumen_ord"@)
    } else if n == "chr"@ {
        Some("lumen_chr"@)
    } else if n == "is_digit"@ {
        Some("lumen_is_digit"@)
    } else if n == "is_alpha"@ {
        Some("lumen_is_alpha"@)
    } else if n == "is_space"@ {
        Some("lumen_is_space"@)
    } else {
        None
    }
}

pub fn find_one_value_fn(n: &str) -> (r: Option<&'static str>)
    ensures
        match r {
            Some(s) => one_value_fn(n@) == Some(s@),
            None => one_value_fn(n@) is None,
        },
{
    if str_eq(n, "str") {
        Some("lumen_to_str")
    } else if str_eq(n, "int") {
        Some("lumen_to_int_val")
    } else if str_eq(n, "float") {
        Some("lumen_to_float_val")
    } else if str_eq(n, "sum") {
        Some("lumen_sum")
    } else if str_eq(n, "min") {
        Some("lumen_min")
    } else if str_eq(n, "max") {
        Some("lumen_max")
    } else if str_eq(n, "abs") {
        Some("lumen_abs")
    } else if str_eq(n, "round") {
        Some("lumen_round")
    } else if str_eq(n, "type") {
        Some("lumen_type")
    } else if str_eq(n, "ord") {
        Some("lumen_ord")
    } else if str_eq(n, "chr") {
        Some("lumen_chr")
    } else if str_eq(n, "is_digit") {
        Some("lumen_is_digit")
    } else if str_eq(n, "is_alpha") {
        Some("lumen_is_alpha")
    } else if str_eq(n, "is_space") {
        Some("lumen_is_space")
    } else {
        None
    }
}

/// The runtime function of a built-in method.
pub open spec fn builtin_method(n: Seq<char>) -> Option<Seq<char>> {
    if n == "push"@ {
        Some("lumen_list_push"@)
    } else if n == "pop"@ {
        Some("lumen_list_pop"@)
    } else if n == "insert"@ {
        Some("lumen_list_insert"@)
    } else if n == "reverse"@ {
        Some("lumen_list_reverse"@)
    } else if n == "sort"@ {
        Some("lumen_list_sort"@)
    } else if n == "index"@ {
        Some("lumen_list_index"@)
    } else if n == "count"@ {
        Some("lumen_list_count"@)
    } else if n == "contains"@ {
        Some("lumen_contains"@)
    } else if n == "keys"@ {
        Some("lumen_map_keys"@)
    } else if n == "values"@ {
        Some("lumen_map_values"@)
    } else if n == "has"@ {
        Some("lumen_map_has"@)
    } else if n == "get"@ {
        Some("lumen_map_get"@)
    } else if n == "remove"@ {
        Some("lumen_map_remove"@)
    } else if n == "upper"@ {
        Some("lumen_str_upper"@)
    } else if n == "lower"@ {
        Some("lumen_str_lower"@)
    } else if n == "strip"@ {
        Some("lumen_str_trim"@)
    } else if n == "trim"@ {
        Some("lumen_str_trim"@)
    } else if n == "lstrip"@ {
        Some("lumen_str_lstrip"@)
    } else if n == "rstrip"@ {
        Some("lumen_str_rstrip"@)
    } else if n == "split"@ {
        Some("lumen_str_split"@)
    } else if n == "find"@ {
        Some("lumen_str_find"@)
    } else if n == "replace"@ {
        Some("lumen_str_replace"@)
    } else if n == "starts_with"@ {
        Some("lumen_str_starts_with"@)
    } else if n == "ends_with"@ {
        Some("lumen_str_ends_with"@)
    } else if n == "repeat"@ {
        Some("lumen_str_repeat"@)
    } else if n == "title"@ {
        Some("lumen_str_title"@)
    } else if n == "join"@ {
        Some("lumen_join"@)
    } else {
        None
    }
}

pub fn find_builtin_method(n: &str) -> (r: Option<&'static str>)
    ensures
        match r {
            Some(s) => builtin_method(n@) == Some(s@),
            None => builtin_method(n@) is None,
        },
{
    if str_eq(n, "push") {
        Some("lumen_list_push")
    } else if str_eq(n, "pop") {
        Some("lumen_list_pop")
    } else if str_eq(n, "insert") {
        Some("lumen_list_insert")
    } else if str_eq(n, "reverse") {
        Some("lumen_list_reverse")
    } else if str_eq(n, "sort") {
        Some("lumen_list_sort")
    } else if str_eq(n, "index") {
        Some("lumen_list_index")
    } else if str_eq(n, "count") {
        Some("lumen_list_count")
    } else if str_eq(n, "contains") {
        Some("lumen_contains")
    } else if str_eq(n, "keys") {
        Some("lumen_map_keys")
    } else if str_eq(n, "values") {
        Some("lumen_map_values")
    } else if str_eq(n, "has") {
        Some("lumen_map_has")
    } else if str_eq(n, "get") {
        Some("lumen_map_get")
    } else if str_eq(n, "remove") {
        Some("lumen_map_remove")
    } else if str_eq(n, "upper") {
        Some("lumen_str_upper")
    } else if str_eq(n, "lower") {
        Some("lumen_str_lower")
    } else if str_eq(n, "strip") {
        Some("lumen_str_trim")
    } else if str_eq(n, "trim") {
        Some("lumen_str_trim")
    } else if str_eq(n, "lstrip") {
        Some("lumen_str_lstrip")
    } else if str_eq(n, "rstrip") {
        Some("lumen_str_rstrip")
    } else if str_eq(n, "split") {
        Some("lumen_str_split")
    } else if str_eq(n, "find") {
        Some("lumen_str_find")
    } else if str_eq(n, "replace") {
        Some("lumen_str_replace")
    } else if str_eq(n, "starts_with") {
        Some("lumen_str_starts_with")
    } else if str_eq(n, "ends_with") {
        Some("lumen_str_ends_with")
    } else if str_eq(n, "repeat") {
        Some("lumen_str_repeat")
    } else if str_eq(n, "title") {
        Some("lumen_str_title")
    } else if str_eq(n, "join") {
        Some("lumen_join")
    } else {
        None
    }
}

pub open spec fn call_kind(g: Ir, env: IrEnvView, n: Seq<char>) -> IrCall {
    if g.locals.contains_key(n) && !env.fns.contains_key(n) {
        IrCall::Value
    } else if n == "print"@ {
        IrCall::Print
    } else if n == "len"@ {
        IrCall::Len
    } else if n == "range"@ {
        IrCall::Range
    } else if n == "input"@ {
        IrCall::Input
    } else if n == "assert"@ || n == "drop"@ {
        IrCall::Quiet
    } else if one_value_fn(n) is Some {
        IrCall::One
    } else if env.structs.contains_key(n) {
        IrCall::Struct
    } else if env.externs.contains_key(n) {
        IrCall::Extern
    } else if env.fns.contains_key(n) {
        IrCall::Direct
    } else {
        IrCall::Unknown
    }
}

impl IrEmitter {
    pub fn find_call_kind(&self, env: &IrEnv, n: &str) -> (r: IrCall)
        ensures
            r == call_kind(self@, env@, n@),
    {
        if self.locals.contains(n) && !env.decls.fns.contains(n) {
            IrCall::Value
        } else if str_eq(n, "print") {
            IrCall::Print
        } else if str_eq(n, "len") {
            IrCall::Len
        } else if str_eq(n, "range") {
            IrCall::Range
        } else if str_eq(n, "input") {
            IrCall::Input
        } else if str_eq(n, "assert") || str_eq(n, "drop") {
            IrCall::Quiet
        } else if find_one_value_fn(n).is_some() {
            IrCall::One
        } else if env.decls.structs.contains(n) {
            IrCall::Struct
        } else if env.decls.externs.contains(n) {
            IrCall::Extern
        } else if env.decls.fns.contains(n) {
            IrCall::Direct
        } else {
            IrCall::Unknown
        }
    }
}

/// The struct that has a method of the name `name`; the first one declared counts.
pub open spec fn method_owner(ms: Seq<(Seq<char>, Seq<char>)>, name: Seq<char>, i: int) -> Option<
    Seq<char>,
>
    decreases ms.len() - i,
{
    if i < 0 || i >= ms.len() {
        None
    } else if ms[i].1 == name {
        Some(ms[i].0)
    } else {
        method_owner(ms, name, i + 1)
    }
}

pub fn find_method_owner<'a>(env: &'a IrEnv, name: &str) -> (r: Option<&'a str>)
    ensures
        match r {
            Some(s) => method_owner(env@.methods, name@, 0) == Some(s@),
            None => method_owner(env@.methods, name@, 0) is None,
        },
{
    let ghost mv = env@.methods;
    for i in 0..env.decls.methods.len()
        invariant
            mv == pair_view(env.decls.methods@),
            method_owner(mv, name@, 0) == method_owner(mv, name@, i as int),
    {
        assert(mv[i as int] == (env.decls.methods@[i as int].0@, env.decls.methods@[i as int].1@));
        if str_eq(env.decls.methods[i].1.as_str(), name) {
            return Some(env.decls.methods[i].0.as_str());
        }
    }
    None
}

/// The built-in module that an expression names, if it names one.
pub open spec fn module_name(e: ExprView) -> Option<Seq<char>> {
    match e {
        ExprView::Ident(m) => if is_module_spec(m) {
            Some(m)
        } else {
            None
        },
        _ => None,
    }
}

pub fn find_module_name<'a>(e: &'a Expr) -> (r: Option<&'a str>)
    ensures
        match r {
            Some(s) => module_name(e@) == Some(s@),
            None => module_name(e@) is None,
        },
{
    match e {
        Expr::Ident(m) => if is_module(m.as_str()) {
            Some(m.as_str())
        } else {
            None
        },
        _ => None,
    }
}

/// The arity of a function.
pub open spec fn ir_arity(env: IrEnvView, n: Seq<char>) -> Option<nat> {
    if env.fns.contains_key(n) {
        Some(env.fns[n].params.len())
    } else {
        None
    }
}

pub fn find_ir_arity(env: &IrEnv, n: &str) -> (r: Option<u64>)
    ensures
        r is Some <==> ir_arity(env@, n@) is Some,
        r is Some ==> r->Some_0 == ir_arity(env@, n@)->Some_0,
{
    match env.decls.fns.get(n) {
        Some(f) => Some(f.params.len() as u64),
        None => None,
    }
}

/// The fields of a struct; none where there is no such struct.
pub open spec fn ir_fields(env: IrEnvView, n: Seq<char>) -> Option<Seq<FieldView>> {
    if env.structs.contains_key(n) {
        Some(env.structs[n].fields)
    } else {
        None
    }
}

pub fn find_ir_fields<'a>(env: &'a IrEnv, n: &str) -> (r: Option<&'a Vec<Field>>)
    ensures
        match r {
            Some(f) => ir_fields(env@, n@) == Some(fields_view(f@)),
            None => ir_fields(env@, n@) is None,
        },
{
    match env.decls.structs.get(n) {
        Some(s) => Some(&s.fields),
        None => None,
    }
}

/// The place of the argument of the name `n`.
pub open spec fn named_arg(s: Seq<(Seq<char>, ExprView)>, n: Seq<char>, i: int) -> Option<int>
    decreases s.len() - i,
{
    if i < 0 || i >= s.len() {
        None
    } else if s[i].0 == n {
        Some(i)
    } else {
        named_arg(s, n, i + 1)
    }
}

pub fn find_named_arg(v: &Vec<(String, Expr)>, n: &str) -> (r: Option<usize>)
    ensures
        match r {
            Some(i) => named_arg(named_view(v@), n@, 0) == Some(i as int) && i < v@.len(),
            None => named_arg(named_view(v@), n@, 0) is None,
        },
{
    let ghost s0 = named_view(v@);
    for i in 0..v.len()
        invariant
            s0 == named_view(v@),
            named_arg(s0, n@, 0) == named_arg(s0, n@, i as int),
    {
        assert(s0[i as int] == (v@[i as int].0@, v@[i as int].1@));
        if str_eq(v[i].0.as_str(), n) {
            return Some(i);
        }
    }
    None
}

/// The first field that no argument names.
pub open spec fn missing_field(fs: Seq<FieldView>, s: Seq<(Seq<char>, ExprView)>, i: int) -> Option<
    Seq<char>,
>
    decreases fs.len() - i,
{
    if i < 0 || i >= fs.len() {
        None
    } else if named_arg(s, fs[i].name, 0) is None {
        Some(fs[i].name)
    } else {
        missing_field(fs, s, i + 1)
    }
}

pub fn find_missing_field<'a>(fs: &'a Vec<Field>, v: &Vec<(String, Expr)>) -> (r: Option<&'a str>)
    ensures
        match r {
            Some(n) => missing_field(fields_view(fs@), named_view(v@), 0) == Some(n@),
            None => missing_field(fields_view(fs@), named_view(v@), 0) is None,
        },
{
    let ghost fv = fields_view(fs@);
    let ghost s0 = named_view(v@);
    for i in 0..fs.len()
        invariant
            fv == fields_view(fs@),
            s0 == named_view(v@),
            missing_field(fv, s0, 0) == missing_field(fv, s0, i as int),
    {
        assert(fv[i as int] == fs@[i as int]@);
        if find_named_arg(v, fs[i].name.as_str()).is_none() {
            return Some(fs[i].name.as_str());
        }
    }
    None
}

} // verus!
