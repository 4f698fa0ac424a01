//! Verified core of the Lumen compiler.

use crate::ast::{prog_view, Item, ItemView};
use crate::defaults::{expand_program, expanded, first_gap, gap_message};
use crate::desugar::{desugar_program, ds_items};
use crate::imports::{rewrite_program, rw_items};
use crate::lift::{lift_program, lifted};
use crate::names::NameSet;
use crate::text::concat;
use vstd::prelude::*;

pub mod algebra;
pub mod analysis;
pub mod applied;
pub mod arena;
pub mod asmbranch;
pub mod asmcount;
pub mod asmexpr;
pub mod asmflow;
pub mod asmkeep;
pub mod asmmir;
pub mod asmops;
pub mod asmquery;
pub mod asmstate;
pub mod asmstmt;
pub mod ast;
pub mod bigstep;
pub mod builtins;
pub mod calendar;
pub mod calls;
pub mod captures;
pub mod cbuf;
pub mod cli;
pub mod codegen;
pub mod coderun;
pub mod constdiv;
pub mod defaults;
pub mod desugar;
pub mod divide;
pub mod escape;
pub mod floatbits;
pub mod http;
pub mod imports;
pub mod instructions;
pub mod interp;
pub mod irbranch;
pub mod irexpr;
pub mod irflow;
pub mod irkeep;
pub mod irstate;
pub mod irstmt;
pub mod json;
pub mod jsonback;
pub mod lambdas;
pub mod lexer;
pub mod library;
pub mod lift;
pub mod liveness;
pub mod llvm;
pub mod llvmgen;
pub mod lower;
pub mod lowstate;
pub mod machine;
pub mod machops;
pub mod machstate;
pub mod margins;
pub mod methods;
pub mod mir;
pub mod names;
pub mod net;
pub mod numbers;
pub mod opcalls;
pub mod operate;
pub mod peephole;
pub mod phis;
pub mod program;
pub mod quoting;
pub mod rawcode;
pub mod regalloc;
pub mod regset;
pub mod resolve;
pub mod spelling;
pub mod ssa;
pub mod strings;
pub mod symbols;
pub mod text;
pub mod timetext;
pub mod typeinfo;
pub mod value;
pub mod walk;

verus! {

/// Why a source could not be compiled.
#[derive(Debug)]
pub enum CompileError {
    Lex(String),
    Parse(String),
    Import(String),
}

impl CompileError {
    pub open spec fn spec_message(&self) -> Seq<char> {
        match *self {
            CompileError::Lex(m) => "lex error: "@ + m@,
            CompileError::Parse(m) => "parse error: "@ + m@,
            CompileError::Import(m) => "import error: "@ + m@,
        }
    }

    /// The error as it is shown to the user.
    pub fn message(&self) -> (r: String)
        ensures
            r@ == self.spec_message(),
    {
        match self {
            CompileError::Lex(m) => concat("lex error: ", m.as_str()),
            CompileError::Parse(m) => concat("parse error: ", m.as_str()),
            CompileError::Import(m) => concat("import error: ", m.as_str()),
        }
    }
}

/// A program with what it imports before it, the names of its modules resolved.
pub open spec fn merged(
    prog: Seq<ItemView>,
    imported: Seq<ItemView>,
    aliases: Set<Seq<char>>,
) -> Seq<ItemView> {
    imported + rw_items(prog, aliases)
}

/// What a merged program becomes before the back ends: arguments that were left out are
/// filled in, and what the back ends do not know is written out.
pub open spec fn compiled(items: Seq<ItemView>) -> Seq<ItemView> {
    lifted(ds_items(expanded(items), 0).0)
}

/// Prepares a program for the back ends. `imported` holds the items of the modules that
/// it imports, `aliases` the names under which it knows them. A parameter without a
/// default behind one with a default is an error.
pub fn compile(program: Vec<Item>, imported: Vec<Item>, aliases: &NameSet) -> (r: Result<
    Vec<Item>,
    CompileError,
>)
    ensures
        ({
            let items = merged(prog_view(program@), prog_view(imported@), aliases@);
            match r {
                Ok(v) => first_gap(items) is None && prog_view(v@) == compiled(items),
                Err(e) => match first_gap(items) {
                    Some(n) => e is Parse && e->Parse_0@ == gap_message(n),
                    None => false,
                },
            }
        }),
{
    let mut prog = program;
    rewrite_program(aliases, &mut prog);
    let ghost own = prog@;
    let mut all = imported;
    all.append(&mut prog);
    assert(prog_view(all@) =~= prog_view(imported@) + prog_view(own));
    match expand_program(&mut all) {
        Ok(_) => {},
        Err(e) => {
            return Err(e);
        },
    }
    desugar_program(&mut all);
    lift_program(&mut all);
    Ok(all)
}

} // verus!
