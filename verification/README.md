# lumenc

The core of the compiler for Lumen, a small indentation-based language, written in Verus.
Every function under `src/` states what it returns and is proved to do so.

## Layout

- Reading: `lexer` turns source text into tokens; `ast` holds the tree; `resolve` says which
  modules are read, and in which order.
- Passes on the tree: `imports` resolves the names of modules, `defaults` fills in arguments
  that were left out, `desugar` writes `map` and `filter` as comprehensions, `lift` turns
  lambdas into functions (`lambdas` shows that none is left, `captures` what they capture).
  `compile` in `lib.rs` runs them in this order.
- What is known of a program: `typeinfo`, `analysis`, `escape`, `builtins`.
- The mid-level representation: `mir`, `lower`, `lowstate`, `ssa`, `liveness`, `regset`,
  `regalloc`.
- The assembly back end: `codegen` over `asmstate`, `asmops`, `asmquery`, `asmexpr`,
  `asmstmt`, `asmmir`, with `divide` for division by constants and `peephole` at the end;
  `machine`, `constdiv` and `rawcode` show what its arithmetic does.
- The LLVM back end: `llvmgen` over `irstate`, `irexpr`, `irstmt`; `llvm` finds the tools.
- The interpreter: `interp` over `machstate`, `machops`, `operate`, `calls`, `value`,
  `strings`, `floatbits`. It runs step by step. What it cannot do itself (floating point
  arithmetic, input and output, calls into native libraries) it asks of its host.
- Parts of the standard modules: `numbers`, `calendar`, `timetext`, `cbuf`, `json`,
  `jsonback`, `net`, `http`.
- The command line: `cli`.

`app/` is the program around the library: files, processes, sockets and the floating point
arithmetic. `tests/` runs the library on programs and values.

## What is proved

The contracts say exactly what text the back ends write and what the interpreter does in
each step. Public proof functions state what holds across functions. Among them:

- the passes reach every expression: no alias (`imports`), no `map` or `filter` (`desugar`),
  no lambda (`lambdas`) and no call that could be filled in (`applied`) is left;
- lowering writes each virtual register once (`ssa`), and phis take their values along jumps
  (`phis`);
- two registers that are live together never share a machine register (`regalloc`);
- the instructions for arithmetic and comparisons on unboxed integers give what the
  interpreter gives (`rawcode`, over the model of `machine`), divisions by a constant among
  them (`constdiv`, `divide`); elements of lists, calls and what is written from SSA form
  are not part of this;
- what lives in the arena of a function is bound once and handed on nowhere in it (`escape`,
  `arena`);
- a value that was written as JSON is read back (`jsonback`).

The few functions of the standard library that the proofs rely on without having proved
them are marked `external_body`; each one's comment says what is taken to hold of it.
