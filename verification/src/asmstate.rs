//! The state of the x86-64 back end while it writes a function: the text so far, the
//! constants, the frame, and where variables live.

use crate::ast::{
    fields_view, ExternFn, ExternFnView, Field, FieldView, FnDef, FnDefView, StructDef,
    StructDefView,
};
use crate::names::{NameMap, NameSet};
use crate::text::{contains_text, dec, dec_nat, has_text, push_char, push_i64, push_u64};
use crate::typeinfo::{IntInfo, IntInfoView};
use std::collections::HashMap;
use vstd::prelude::*;
use vstd::string::{StringExecFns, StringSliceAdditionalSpecFns};

verus! {

broadcast use vstd::std_specs::hash::group_hash_axioms;

/// A byte of a string constant as the assembler reads it: printable ones as they
/// are, the others as escapes.
pub open spec fn escape_byte(c: u8) -> Seq<char> {
    if c == 0x22 {
        seq!['\\', '"']
    } else if c == 0x5c {
        seq!['\\', '\\']
    } else if c == 0x0a {
        seq!['\\', 'n']
    } else if c == 0x09 {
        seq!['\\', 't']
    } else if c == 0x0d {
        seq!['\\', 'r']
    } else if 0x20 <= c <= 0x7e {
        seq![c as char]
    } else {
        seq!['\\', octal(c as int / 64), octal(c as int / 8 % 8), octal(c as int % 8)]
    }
}

pub open spec fn octal(n: int) -> char {
    (48 + n) as u8 as char
}

pub open spec fn escape_spec(b: Seq<u8>) -> Seq<char>
    decreases b.len(),
{
    if b.len() == 0 {
        Seq::empty()
    } else {
        escape_spec(b.drop_last()) + escape_byte(b.last())
    }
}

/// The text of a string constant between its quotes.
pub fn escape(s: &str) -> (r: String)
    ensures
        r@ == escape_spec(s.spec_bytes()),
{
    let b = s.as_bytes();
    let mut out = String::new();
    assert(b@.take(0) =~= Seq::empty());
    for i in 0..b.len()
        invariant
            out@ == escape_spec(b@.take(i as int)),
    {
        assert(b@.take(i + 1).drop_last() =~= b@.take(i as int));
        let ghost o0 = out@;
        let c: u8 = b[i];
        match c {
            0x22 => {
                push_char(&mut out, '\\');
                push_char(&mut out, '"');
            },
            0x5c => {
                push_char(&mut out, '\\');
                push_char(&mut out, '\\');
            },
            0x0a => {
                push_char(&mut out, '\\');
                push_char(&mut out, 'n');
            },
            0x09 => {
                push_char(&mut out, '\\');
                push_char(&mut out, 't');
            },
            0x0d => {
                push_char(&mut out, '\\');
                push_char(&mut out, 'r');
            },
            _ => {
                if 0x20 <= c && c <= 0x7e {
                    push_char(&mut out, c as char);
                } else {
                    push_char(&mut out, '\\');
                    push_char(&mut out, (48 + c / 64) as char);
                    push_char(&mut out, (48 + c / 8 % 8) as char);
                    push_char(&mut out, (48 + c % 8) as char);
                }
            },
        }
        assert(out@ =~= o0 + escape_byte(c));
    }
    assert(b@.take(b@.len() as int) =~= b@);
    out
}

/// What a function's code is generated from, besides the code itself: the program's
/// declarations, the type facts, and how the function is entered and left.
pub struct FnEnv {
    pub externs: Map<Seq<char>, ExternFnView>,
    pub fns: Map<Seq<char>, FnDefView>,
    pub structs: Map<Seq<char>, StructDefView>,
    pub methods: Seq<(Seq<char>, Seq<char>)>,
    pub info: IntInfoView,
    pub raw_entry: Set<Seq<char>>,
    pub func: Seq<char>,
    pub raw_int: Set<Seq<char>>,
    pub raw_float: Set<Seq<char>>,
    pub raw_return: bool,
    pub tail_label: Option<Seq<char>>,
    pub tail_params: Seq<(i64, bool)>,
    pub struct_hint: Option<Seq<char>>,
}

pub open spec fn extern_map(m: Map<Seq<char>, ExternFn>) -> Map<Seq<char>, ExternFnView> {
    m.map_values(|f: ExternFn| f@)
}

pub open spec fn fn_map(m: Map<Seq<char>, FnDef>) -> Map<Seq<char>, FnDefView> {
    m.map_values(|f: FnDef| f@)
}

pub open spec fn struct_map(m: Map<Seq<char>, StructDef>) -> Map<Seq<char>, StructDefView> {
    m.map_values(|f: StructDef| f@)
}

pub open spec fn pair_view(s: Seq<(String, String)>) -> Seq<(Seq<char>, Seq<char>)> {
    Seq::new(s.len(), |i: int| (s[i].0@, s[i].1@))
}

/// The declarations of a program that code refers to.
pub struct Decls {
    pub externs: NameMap<ExternFn>,
    pub fns: NameMap<FnDef>,
    pub structs: NameMap<StructDef>,
    pub methods: Vec<(String, String)>,
    pub raw_entry: NameSet,
}

pub struct Env<'a> {
    pub decls: &'a Decls,
    pub info: &'a IntInfo,
    pub func: &'a str,
    pub raw_int: NameSet,
    pub raw_float: NameSet,
    pub raw_return: bool,
    pub tail_label: Option<String>,
    pub tail_params: Vec<(i64, bool)>,
    pub struct_hint: Option<String>,
}

pub open spec fn text_opt(o: Option<String>) -> Option<Seq<char>> {
    match o {
        Some(s) => Some(s@),
        None => None,
    }
}

impl<'a> View for Env<'a> {
    type V = FnEnv;

    open spec fn view(&self) -> FnEnv {
        FnEnv {
            externs: extern_map(self.decls.externs@),
            fns: fn_map(self.decls.fns@),
            structs: struct_map(self.decls.structs@),
            methods: pair_view(self.decls.methods@),
            info: self.info@,
            raw_entry: self.decls.raw_entry@,
            func: self.func@,
            raw_int: self.raw_int@,
            raw_float: self.raw_float@,
            raw_return: self.raw_return,
            tail_label: text_opt(self.tail_label),
            tail_params: self.tail_params@,
            struct_hint: text_opt(self.struct_hint),
        }
    }
}

/// Registers that a function keeps loop variables in, by number.
pub open spec fn callee_reg(i: int) -> Seq<char> {
    if i == 0 {
        "r12"@
    } else if i == 1 {
        "r13"@
    } else if i == 2 {
        "r14"@
    } else {
        "r15"@
    }
}

pub open spec fn xmm_reg(i: int) -> Seq<char> {
    if i == 0 {
        "xmm6"@
    } else if i == 1 {
        "xmm7"@
    } else if i == 2 {
        "xmm8"@
    } else {
        "xmm9"@
    }
}

/// The state of the back end. A frame slot is given by its offset from `rbp`.
pub struct Asm {
    pub out: Seq<char>,
    pub rodata: Seq<char>,
    pub tables: Seq<char>,
    pub str_count: u64,
    pub label_count: u64,
    pub line: u32,
    pub err: Option<Seq<char>>,
    pub locals: Map<Seq<char>, i64>,
    pub stack: i64,
    pub loops: Seq<(Seq<char>, Seq<char>)>,
    pub int_loc: Map<Seq<char>, Seq<char>>,
    pub float_loc: Map<Seq<char>, Seq<char>>,
    pub callee_saves: Seq<i64>,
    pub xmm_saves: Seq<i64>,
    pub vslots: Map<u32, i64>,
}

/// The largest frame that is laid out.
pub const MAX_FRAME: i64 = 0x7fff_0000;

pub open spec fn next64(n: u64) -> u64 {
    if n == u64::MAX {
        0
    } else {
        (n + 1) as u64
    }
}

pub fn succ64(n: u64) -> (r: u64)
    ensures
        r == next64(n),
{
    if n == u64::MAX {
        0
    } else {
        n + 1
    }
}

impl Asm {
    #[verifier::opaque]
    pub open spec fn p(self, s: Seq<char>) -> Asm {
        Asm { out: self.out + s, ..self }
    }

    #[verifier::opaque]
    pub open spec fn n(self, v: int) -> Asm {
        Asm { out: self.out + dec(v), ..self }
    }

    #[verifier::opaque]
    pub open spec fn u(self, v: nat) -> Asm {
        Asm { out: self.out + dec_nat(v), ..self }
    }

    /// Notes an error. The first one counts.
    #[verifier::opaque]
    pub open spec fn fail(self, m: Seq<char>) -> Asm {
        match self.err {
            Some(_) => self,
            None => Asm { err: Some(m), ..self },
        }
    }

    /// An error that names the source line, where one is known.
    #[verifier::opaque]
    pub open spec fn fail_here(self, m: Seq<char>) -> Asm {
        if self.line > 0 {
            self.fail(m + " (line "@ + dec_nat(self.line as nat) + ")"@)
        } else {
            self.fail(m)
        }
    }

    #[verifier::opaque]
    pub open spec fn new_label(self, base: Seq<char>) -> (Asm, Seq<char>) {
        let n = next64(self.label_count);
        (Asm { label_count: n, ..self }, ".L"@ + base + "_"@ + dec_nat(n as nat))
    }

    #[verifier::opaque]
    pub open spec fn new_unique(self) -> (Asm, u64) {
        let n = next64(self.label_count);
        (Asm { label_count: n, ..self }, n)
    }

    /// Makes the frame larger and gives the offset of what was added.
    #[verifier::opaque]
    pub open spec fn grow(self, k: i64) -> (Asm, i64) {
        if 0 <= self.stack <= MAX_FRAME {
            let s = (self.stack + k) as i64;
            (Asm { stack: s, ..self }, (-s) as i64)
        } else {
            (self.fail("frame too large"@), 0)
        }
    }

    #[verifier::opaque]
    pub open spec fn temp(self) -> (Asm, i64) {
        self.grow(8)
    }

    /// The slot of a variable, a new one where it has none.
    #[verifier::opaque]
    pub open spec fn slot(self, name: Seq<char>) -> (Asm, i64) {
        if self.locals.contains_key(name) {
            (self, self.locals[name])
        } else {
            let (g, off) = self.grow(8);
            (Asm { locals: g.locals.insert(name, off), ..g }, off)
        }
    }

    /// The slot of an SSA register, a new one where it has none.
    #[verifier::opaque]
    pub open spec fn vslot(self, v: u32) -> (Asm, i64) {
        if self.vslots.contains_key(v) {
            (self, self.vslots[v])
        } else {
            let (g, off) = self.grow(8);
            (Asm { vslots: g.vslots.insert(v, off), ..g }, off)
        }
    }

    #[verifier::opaque]
    pub open spec fn bind_local(self, name: Seq<char>, off: i64) -> Asm {
        Asm { locals: self.locals.insert(name, off), ..self }
    }

    /// Adds a string constant, given by its bytes, and names it.
    #[verifier::opaque]
    pub open spec fn add_string(self, b: Seq<char>) -> (Asm, Seq<char>) {
        let label = ".str"@ + dec_nat(self.str_count as nat);
        (
            Asm {
                rodata: self.rodata + label + ": .asciz \""@ + escape_spec(
                    vstd::utf8::encode_utf8(b),
                ) + "\"\n"@,
                str_count: next64(self.str_count),
                ..self
            },
            label,
        )
    }

    #[verifier::opaque]
    pub open spec fn add_double(self, bits: u64) -> (Asm, Seq<char>) {
        let label = ".fconst"@ + dec_nat(self.str_count as nat);
        (
            Asm {
                rodata: self.rodata + label + ": .quad "@ + dec_nat(bits as nat) + "\n"@,
                str_count: next64(self.str_count),
                ..self
            },
            label,
        )
    }

    #[verifier::opaque]
    pub open spec fn want_empty_str(self) -> Asm {
        if contains_text(self.tables, ".empty_str:"@) {
            self
        } else {
            Asm { tables: self.tables + ".empty_str: .asciz \"\"\n"@, ..self }
        }
    }

    pub open spec fn field_labels(self, fields: Seq<FieldView>) -> (Asm, Seq<char>)
        decreases fields.len(),
    {
        if fields.len() == 0 {
            (self, Seq::empty())
        } else {
            let (g, text) = self.field_labels(fields.drop_last());
            let (h, l) = g.add_string(fields.last().name);
            (
                h,
                if fields.len() == 1 {
                    l
                } else {
                    text + ", "@ + l
                },
            )
        }
    }

    /// The table of a struct's field names, written once.
    #[verifier::opaque]
    pub open spec fn field_table(
        self,
        name: Seq<char>,
        fields: Seq<FieldView>,
    ) -> (Asm, Seq<char>) {
        let label = ".fields_"@ + name;
        if contains_text(self.tables, label + ":"@) {
            (self, label)
        } else {
            let (g, text) = self.field_labels(fields);
            (Asm { tables: g.tables + label + ": .quad "@ + text + "\n"@, ..g }, label)
        }
    }

    #[verifier::opaque]
    pub open spec fn acquire_callee(self) -> (Asm, Option<Seq<char>>) {
        if self.callee_saves.len() >= 4 {
            (self, None)
        } else {
            let (g, off) = self.grow(8);
            (
                Asm { callee_saves: g.callee_saves.push(off), ..g },
                Some(callee_reg(self.callee_saves.len() as int)),
            )
        }
    }

    #[verifier::opaque]
    pub open spec fn acquire_xmm(self) -> (Asm, Option<Seq<char>>) {
        if self.xmm_saves.len() >= 4 {
            (self, None)
        } else {
            let (g, off) = self.grow(16);
            (
                Asm { xmm_saves: g.xmm_saves.push(off), ..g },
                Some(xmm_reg(self.xmm_saves.len() as int)),
            )
        }
    }

    #[verifier::opaque]
    pub open spec fn push_loop(self, cont: Seq<char>, brk: Seq<char>) -> Asm {
        Asm { loops: self.loops.push((cont, brk)), ..self }
    }

    #[verifier::opaque]
    pub open spec fn pop_loop(self) -> Asm {
        if self.loops.len() > 0 {
            Asm { loops: self.loops.drop_last(), ..self }
        } else {
            self
        }
    }

    #[verifier::opaque]
    pub open spec fn set_line(self, n: u32) -> Asm {
        Asm { line: n, ..self }
    }

    #[verifier::opaque]
    pub open spec fn set_int_loc(self, name: Seq<char>, reg: Seq<char>) -> Asm {
        Asm { int_loc: self.int_loc.insert(name, reg), ..self }
    }

    #[verifier::opaque]
    pub open spec fn del_int_loc(self, name: Seq<char>) -> Asm {
        Asm { int_loc: self.int_loc.remove(name), ..self }
    }

    #[verifier::opaque]
    pub open spec fn set_float_loc(self, name: Seq<char>, reg: Seq<char>) -> Asm {
        Asm { float_loc: self.float_loc.insert(name, reg), ..self }
    }

    #[verifier::opaque]
    pub open spec fn del_float_loc(self, name: Seq<char>) -> Asm {
        Asm { float_loc: self.float_loc.remove(name), ..self }
    }

    pub open spec fn local_of(self, name: Seq<char>) -> Option<i64> {
        if self.locals.contains_key(name) {
            Some(self.locals[name])
        } else {
            None
        }
    }

    pub open spec fn int_loc_of(self, name: Seq<char>) -> Option<Seq<char>> {
        if self.int_loc.contains_key(name) {
            Some(self.int_loc[name])
        } else {
            None
        }
    }

    pub open spec fn float_loc_of(self, name: Seq<char>) -> Option<Seq<char>> {
        if self.float_loc.contains_key(name) {
            Some(self.float_loc[name])
        } else {
            None
        }
    }
}

pub open spec fn text_map(m: Map<Seq<char>, String>) -> Map<Seq<char>, Seq<char>> {
    m.map_values(|s: String| s@)
}

pub struct Emitter {
    pub out: String,
    pub rodata: String,
    pub tables: String,
    pub str_count: u64,
    pub label_count: u64,
    pub line: u32,
    pub err: Option<String>,
    pub locals: NameMap<i64>,
    pub stack: i64,
    pub loops: Vec<(String, String)>,
    pub int_loc: NameMap<String>,
    pub float_loc: NameMap<String>,
    pub callee_saves: Vec<i64>,
    pub xmm_saves: Vec<i64>,
    pub vslots: HashMap<u32, i64>,
}

impl View for Emitter {
    type V = Asm;

    open spec fn view(&self) -> Asm {
        Asm {
            out: self.out@,
            rodata: self.rodata@,
            tables: self.tables@,
            str_count: self.str_count,
            label_count: self.label_count,
            line: self.line,
            err: text_opt(self.err),
            locals: self.locals@,
            stack: self.stack,
            loops: pair_view(self.loops@),
            int_loc: text_map(self.int_loc@),
            float_loc: text_map(self.float_loc@),
            callee_saves: self.callee_saves@,
            xmm_saves: self.xmm_saves@,
            vslots: self.vslots@,
        }
    }
}

pub fn callee_str(i: usize) -> (r: &'static str)
    ensures
        r@ == callee_reg(i as int),
{
    match i {
        0 => "r12",
        1 => "r13",
        2 => "r14",
        _ => "r15",
    }
}

pub fn xmm_str(i: usize) -> (r: &'static str)
    ensures
        r@ == xmm_reg(i as int),
{
    match i {
        0 => "xmm6",
        1 => "xmm7",
        2 => "xmm8",
        _ => "xmm9",
    }
}

impl Emitter {
    pub fn p(&mut self, s: &str)
        ensures
            final(self)@ == old(self)@.p(s@),
    {
        proof {
            reveal(Asm::p);
        }
        self.out.append(s);
    }

    pub fn n(&mut self, v: i64)
        ensures
            final(self)@ == old(self)@.n(v as int),
    {
        proof {
            reveal(Asm::n);
        }
        push_i64(&mut self.out, v);
    }

    pub fn u(&mut self, v: u64)
        ensures
            final(self)@ == old(self)@.u(v as nat),
    {
        proof {
            reveal(Asm::u);
        }
        push_u64(&mut self.out, v);
    }

    pub fn fail(&mut self, m: &str)
        ensures
            final(self)@ == old(self)@.fail(m@),
    {
        proof {
            reveal(Asm::fail);
        }
        if self.err.is_none() {
            self.err = Some(m.to_owned());
        }
    }

    pub fn fail_here(&mut self, m: &str)
        ensures
            final(self)@ == old(self)@.fail_here(m@),
    {
        proof {
            reveal(Asm::fail_here);
        }
        if self.line > 0 {
            let mut s = m.to_owned();
            s.append(" (line ");
            push_u64(&mut s, self.line as u64);
            s.append(")");
            self.fail(s.as_str());
        } else {
            self.fail(m);
        }
    }

    pub fn new_label(&mut self, base: &str) -> (r: String)
        ensures
            (final(self)@, r@) == old(self)@.new_label(base@),
    {
        proof {
            reveal(Asm::new_label);
        }
        self.label_count = succ64(self.label_count);
        let mut s = ".L".to_owned();
        s.append(base);
        s.append("_");
        push_u64(&mut s, self.label_count);
        s
    }

    pub fn new_unique(&mut self) -> (r: u64)
        ensures
            (final(self)@, r) == old(self)@.new_unique(),
    {
        proof {
            reveal(Asm::new_unique);
        }
        self.label_count = succ64(self.label_count);
        self.label_count
    }

    pub fn grow(&mut self, k: i64) -> (r: i64)
        requires
            0 <= k <= 16,
        ensures
            (final(self)@, r) == old(self)@.grow(k),
    {
        proof {
            reveal(Asm::grow);
        }
        if 0 <= self.stack && self.stack <= MAX_FRAME {
            self.stack = self.stack + k;
            -self.stack
        } else {
            self.fail("frame too large");
            0
        }
    }

    pub fn temp(&mut self) -> (r: i64)
        ensures
            (final(self)@, r) == old(self)@.temp(),
    {
        proof {
            reveal(Asm::temp);
        }
        self.grow(8)
    }

    pub fn slot(&mut self, name: &str) -> (r: i64)
        ensures
            (final(self)@, r) == old(self)@.slot(name@),
    {
        proof {
            reveal(Asm::slot);
        }
        if let Some(o) = self.locals.get(name) {
            return *o;
        }
        let off: i64 = self.grow(8);
        self.locals.insert(name, off);
        off
    }

    pub fn vslot(&mut self, v: u32) -> (r: i64)
        ensures
            (final(self)@, r) == old(self)@.vslot(v),
    {
        proof {
            reveal(Asm::vslot);
        }
        if let Some(o) = self.vslots.get(&v) {
            return *o;
        }
        let off: i64 = self.grow(8);
        self.vslots.insert(v, off);
        off
    }

    pub fn bind_local(&mut self, name: &str, off: i64)
        ensures
            final(self)@ == old(self)@.bind_local(name@, off),
    {
        proof {
            reveal(Asm::bind_local);
        }
        self.locals.insert(name, off);
    }

    pub fn add_string(&mut self, s: &str) -> (r: String)
        ensures
            (final(self)@, r@) == old(self)@.add_string(s@),
    {
        proof {
            reveal(Asm::add_string);
        }
        let mut label = ".str".to_owned();
        push_u64(&mut label, self.str_count);
        self.str_count = succ64(self.str_count);
        let text = escape(s);
        self.rodata.append(label.as_str());
        self.rodata.append(": .asciz \"");
        self.rodata.append(text.as_str());
        self.rodata.append("\"\n");
        label
    }

    pub fn add_double(&mut self, bits: u64) -> (r: String)
        ensures
            (final(self)@, r@) == old(self)@.add_double(bits),
    {
        proof {
            reveal(Asm::add_double);
        }
        let mut label = ".fconst".to_owned();
        push_u64(&mut label, self.str_count);
        self.str_count = succ64(self.str_count);
        self.rodata.append(label.as_str());
        self.rodata.append(": .quad ");
        push_u64(&mut self.rodata, bits);
        self.rodata.append("\n");
        label
    }

    pub fn want_empty_str(&mut self)
        ensures
            final(self)@ == old(self)@.want_empty_str(),
    {
        proof {
            reveal(Asm::want_empty_str);
        }
        if !has_text(self.tables.as_str(), ".empty_str:") {
            self.tables.append(".empty_str: .asciz \"\"\n");
        }
    }

    pub fn field_table(&mut self, name: &str, fields: &Vec<Field>) -> (r: String)
        ensures
            (final(self)@, r@) == old(self)@.field_table(name@, fields_view(fields@)),
    {
        proof {
            reveal(Asm::field_table);
        }
        let mut label = ".fields_".to_owned();
        label.append(name);
        let mut head = label.clone();
        head.append(":");
        if !has_text(self.tables.as_str(), head.as_str()) {
            let mut text = String::new();
            let ghost s0 = self@;
            let ghost fv = fields_view(fields@);
            assert(fv.take(0) =~= Seq::empty());
            for i in 0..fields.len()
                invariant
                    fv == fields_view(fields@),
                    (self@, text@) == s0.field_labels(fv.take(i as int)),
            {
                assert(fv.take(i + 1).drop_last() =~= fv.take(i as int));
                assert(fv.take(i + 1).last() == fields@[i as int]@);
                let l = self.add_string(fields[i].name.as_str());
                if i == 0 {
                    text = l;
                } else {
                    text.append(", ");
                    text.append(l.as_str());
                }
            }
            assert(fv.take(fv.len() as int) =~= fv);
            self.tables.append(label.as_str());
            self.tables.append(": .quad ");
            self.tables.append(text.as_str());
            self.tables.append("\n");
        }
        label
    }

    pub fn acquire_callee(&mut self) -> (r: Option<&'static str>)
        ensures
            (
                final(self)@,
                match r {
                    Some(s) => Some(s@),
                    None => None,
                },
            ) == old(self)@.acquire_callee(),
    {
        proof {
            reveal(Asm::acquire_callee);
        }
        let n: usize = self.callee_saves.len();
        if n >= 4 {
            return None;
        }
        let off: i64 = self.grow(8);
        self.callee_saves.push(off);
        proof {
            reveal(Asm::grow);
            reveal(Asm::fail);
        }
        Some(callee_str(n))
    }

    pub fn acquire_xmm(&mut self) -> (r: Option<&'static str>)
        ensures
            (
                final(self)@,
                match r {
                    Some(s) => Some(s@),
                    None => None,
                },
            ) == old(self)@.acquire_xmm(),
    {
        proof {
            reveal(Asm::acquire_xmm);
        }
        let n: usize = self.xmm_saves.len();
        if n >= 4 {
            return None;
        }
        let off: i64 = self.grow(16);
        self.xmm_saves.push(off);
        Some(xmm_str(n))
    }

    pub fn push_loop(&mut self, cont: &str, brk: &str)
        ensures
            final(self)@ == old(self)@.push_loop(cont@, brk@),
    {
        proof {
            reveal(Asm::push_loop);
        }
        let ghost l0 = self.loops@;
        self.loops.push((cont.to_owned(), brk.to_owned()));
        assert(pair_view(self.loops@) =~= pair_view(l0).push((cont@, brk@)));
    }

    pub fn pop_loop(&mut self)
        ensures
            final(self)@ == old(self)@.pop_loop(),
    {
        proof {
            reveal(Asm::pop_loop);
        }
        let ghost l0 = self.loops@;
        let _ = self.loops.pop();
        assert(l0.len() > 0 ==> pair_view(self.loops@) =~= pair_view(l0).drop_last());
        assert(l0.len() == 0 ==> self.loops@ =~= l0);
    }

    pub fn set_line(&mut self, n: u32)
        ensures
            final(self)@ == old(self)@.set_line(n),
    {
        proof {
            reveal(Asm::set_line);
        }
        self.line = n;
    }

    pub fn set_int_loc(&mut self, name: &str, reg: &str)
        ensures
            final(self)@ == old(self)@.set_int_loc(name@, reg@),
    {
        proof {
            reveal(Asm::set_int_loc);
        }
        let ghost m0 = self.int_loc@;
        self.int_loc.insert(name, reg.to_owned());
        assert(text_map(self.int_loc@) =~= text_map(m0).insert(name@, reg@));
    }

    pub fn del_int_loc(&mut self, name: &str)
        ensures
            final(self)@ == old(self)@.del_int_loc(name@),
    {
        proof {
            reveal(Asm::del_int_loc);
        }
        let ghost m0 = self.int_loc@;
        self.int_loc.remove(name);
        assert(text_map(self.int_loc@) =~= text_map(m0).remove(name@));
    }

    pub fn set_float_loc(&mut self, name: &str, reg: &str)
        ensures
            final(self)@ == old(self)@.set_float_loc(name@, reg@),
    {
        proof {
            reveal(Asm::set_float_loc);
        }
        let ghost m0 = self.float_loc@;
        self.float_loc.insert(name, reg.to_owned());
        assert(text_map(self.float_loc@) =~= text_map(m0).insert(name@, reg@));
    }

    pub fn del_float_loc(&mut self, name: &str)
        ensures
            final(self)@ == old(self)@.del_float_loc(name@),
    {
        proof {
            reveal(Asm::del_float_loc);
        }
        let ghost m0 = self.float_loc@;
        self.float_loc.remove(name);
        assert(text_map(self.float_loc@) =~= text_map(m0).remove(name@));
    }

    pub fn local_of(&self, name: &str) -> (r: Option<i64>)
        ensures
            r == self@.local_of(name@),
    {
        match self.locals.get(name) {
            Some(o) => Some(*o),
            None => None,
        }
    }

    pub fn int_loc_of(&self, name: &str) -> (r: Option<String>)
        ensures
            text_opt(r) == self@.int_loc_of(name@),
    {
        match self.int_loc.get(name) {
            Some(s) => Some(s.clone()),
            None => None,
        }
    }

    pub fn float_loc_of(&self, name: &str) -> (r: Option<String>)
        ensures
            text_opt(r) == self@.float_loc_of(name@),
    {
        match self.float_loc.get(name) {
            Some(s) => Some(s.clone()),
            None => None,
        }
    }
}

} // verus!
