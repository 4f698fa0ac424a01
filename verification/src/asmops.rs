//! Instruction sequences that the x86-64 back end writes again and again: boxing,
//! argument passing, and the frames of loops.

use crate::asmstate::{Asm, Emitter};
use crate::ast::{params_view, Param, ParamView};
use crate::mir::{named, type_is};
use crate::text::{dec, push_i64, texts_view};
use vstd::prelude::*;
use vstd::string::StringExecFns;

verus! {

/// The register of the `i`-th argument of a call.
pub open spec fn arg_reg(i: int) -> Seq<char> {
    if i == 0 {
        "rcx"@
    } else if i == 1 {
        "rdx"@
    } else if i == 2 {
        "r8"@
    } else {
        "r9"@
    }
}

pub fn arg_reg_str(i: usize) -> (r: &'static str)
    ensures
        r@ == arg_reg(i as int),
{
    match i {
        0 => "rcx",
        1 => "rdx",
        2 => "r8",
        _ => "r9",
    }
}

pub open spec fn arg_xmm(i: int) -> Seq<char> {
    if i == 0 {
        "xmm0"@
    } else if i == 1 {
        "xmm1"@
    } else if i == 2 {
        "xmm2"@
    } else {
        "xmm3"@
    }
}

fn arg_xmm_str(i: usize) -> (r: &'static str)
    ensures
        r@ == arg_xmm(i as int),
{
    match i {
        0 => "xmm0",
        1 => "xmm1",
        2 => "xmm2",
        _ => "xmm3",
    }
}

/// Whether a foreign function takes its `i`-th argument as a float.
pub open spec fn ffi_float(params: Seq<ParamView>, i: int) -> bool {
    0 <= i < params.len() && (named(params[i].ty, "f64"@) || named(params[i].ty, "f32"@))
}

pub fn ffi_is_float(params: &Vec<Param>, i: usize) -> (r: bool)
    ensures
        r == ffi_float(params_view(params@), i as int),
{
    i < params.len() && (type_is(&params[i].ty, "f64") || type_is(&params[i].ty, "f32"))
}

/// Where a counting loop keeps its counter and its limit.
pub struct RangeRegs {
    pub counter: Seq<char>,
    pub limit: Seq<char>,
    pub in_regs: bool,
}

pub struct Regs {
    pub counter: String,
    pub limit: String,
    pub in_regs: bool,
}

impl View for Regs {
    type V = RangeRegs;

    open spec fn view(&self) -> RangeRegs {
        RangeRegs { counter: self.counter@, limit: self.limit@, in_regs: self.in_regs }
    }
}

/// A variable that a loop keeps in a register: its name, the register, its slot.
pub type HeldView = (Seq<char>, Seq<char>, i64);

pub open spec fn held_view(s: Seq<(String, &'static str, i64)>) -> Seq<HeldView> {
    Seq::new(s.len(), |i: int| (s[i].0@, s[i].1@, s[i].2))
}

/// An open loop: its labels, whether its variable is read from the counter, and the
/// variables held in registers.
pub struct LoopView {
    pub top: Seq<char>,
    pub end: Seq<char>,
    pub cont: Seq<char>,
    pub mapped: bool,
    pub floats: Seq<HeldView>,
    pub ints: Seq<HeldView>,
    pub index: i64,
}

pub struct OpenLoop {
    pub top: String,
    pub end: String,
    pub cont: String,
    pub mapped: bool,
    pub floats: Vec<(String, &'static str, i64)>,
    pub ints: Vec<(String, &'static str, i64)>,
    pub index: i64,
}

impl View for OpenLoop {
    type V = LoopView;

    open spec fn view(&self) -> LoopView {
        LoopView {
            top: self.top@,
            end: self.end@,
            cont: self.cont@,
            mapped: self.mapped,
            floats: held_view(self.floats@),
            ints: held_view(self.ints@),
            index: self.index,
        }
    }
}

impl Asm {
    /// Boxes the integer in `rax`: its low 48 bits under the integer tag.
    #[verifier::opaque]
    pub open spec fn box_int(self) -> Asm {
        self.p("    mov rcx, 0xFFFFFFFFFFFF\n    and rax, rcx\n"@).p(
            "    mov rcx, 0x7FF9000000000000\n    or rax, rcx\n"@,
        )
    }

    /// Unboxes the integer in `rax`: sign-extends its low 48 bits.
    #[verifier::opaque]
    pub open spec fn unbox_int(self) -> Asm {
        self.p("    shl rax, 16\n    sar rax, 16\n"@)
    }

    /// Collects garbage here once enough has been allocated.
    #[verifier::opaque]
    pub open spec fn gc_poll(self) -> Asm {
        let (g, skip) = self.new_label("gcskip"@);
        g.p("    cmp qword ptr [rip + lumen_allocs_since_gc], 512\n"@).p("    jl "@).p(skip).p(
            "\n"@,
        ).p("    call lumen_gc_collect\n"@).p(skip).p(":\n"@)
    }

    /// Loads the first `k` slots into the argument registers from number `from` on.
    pub open spec fn load_regs(self, slots: Seq<i64>, k: nat, from: int) -> Asm
        decreases k,
    {
        if k == 0 || k > slots.len() {
            self
        } else {
            self.load_regs(slots, (k - 1) as nat, from).p("    mov "@).p(arg_reg(from + k - 1)).p(
                ", [rbp"@,
            ).n(slots[k - 1] as int).p("]\n"@)
        }
    }

    /// Loads the first `k` slots into their argument registers, the last one first.
    pub open spec fn load_regs_down(self, slots: Seq<i64>, k: nat) -> Asm
        decreases k,
    {
        if k == 0 || k > slots.len() {
            self
        } else {
            self.p("    mov "@).p(arg_reg(k - 1)).p(", [rbp"@).n(slots[k - 1] as int).p(
                "]\n"@,
            ).load_regs_down(slots, (k - 1) as nat)
        }
    }

    /// Stores the slots from the fifth up to the `k`-th above the shadow space.
    pub open spec fn push_stack(self, slots: Seq<i64>, k: nat) -> Asm
        decreases k,
    {
        if k <= 4 || k > slots.len() {
            self
        } else {
            self.push_stack(slots, (k - 1) as nat).p("    mov rax, [rbp"@).n(
                slots[k - 1] as int,
            ).p("]\n"@).p("    mov [rsp+"@).u((32 + (k - 5) * 8) as nat).p("], rax\n"@)
        }
    }

    /// Multiplies `rax` by a slot, `n` times.
    pub open spec fn mul_times(self, bt: i64, n: nat) -> Asm
        decreases n,
    {
        if n == 0 {
            self
        } else {
            self.mul_times(bt, (n - 1) as nat).p("    mov rcx, [rbp"@).n(bt as int).p("]\n"@).p(
                "    imul rax, rcx\n"@,
            )
        }
    }

    /// Loads the arguments of a foreign function, floats into float registers.
    pub open spec fn ffi_regs(self, slots: Seq<i64>, k: nat, params: Seq<ParamView>) -> Asm
        decreases k,
    {
        if k == 0 || k > slots.len() {
            self
        } else {
            let g = self.ffi_regs(slots, (k - 1) as nat, params);
            let h = if ffi_float(params, k - 1) {
                g.p("    movq "@).p(arg_xmm(k - 1))
            } else {
                g.p("    mov "@).p(arg_reg(k - 1))
            };
            h.p(", [rbp"@).n(slots[k - 1] as int).p("]\n"@)
        }
    }

    /// Chooses registers for a counting loop, or slots where they have run out.
    #[verifier::opaque]
    pub open spec fn range_regs(self) -> (Asm, RangeRegs) {
        let (g1, ci) = self.acquire_callee();
        let (g2, li) = g1.acquire_callee();
        if ci is Some && li is Some {
            (g2, RangeRegs { counter: ci->Some_0, limit: li->Some_0, in_regs: true })
        } else {
            let (g3, a) = g2.temp();
            let (g4, b) = g3.temp();
            (
                g4,
                RangeRegs {
                    counter: "[rbp"@ + dec(a as int) + "]"@,
                    limit: "[rbp"@ + dec(b as int) + "]"@,
                    in_regs: false,
                },
            )
        }
    }

    #[verifier::opaque]
    pub open spec fn set_counter(self, r: RangeRegs) -> Asm {
        self.p("    mov "@).p(r.counter).p(", rax\n"@)
    }

    #[verifier::opaque]
    pub open spec fn set_limit(self, r: RangeRegs) -> Asm {
        self.p("    mov "@).p(r.limit).p(", rax\n"@)
    }

    /// Moves the first `k` of the float variables into registers, as long as there
    /// are any.
    pub open spec fn hold_floats(self, names: Seq<Seq<char>>, k: nat) -> (Asm, Seq<HeldView>)
        decreases k,
    {
        if k == 0 || k > names.len() {
            (self, Seq::empty())
        } else {
            let (g, held) = self.hold_floats(names, (k - 1) as nat);
            let (h, reg) = g.acquire_xmm();
            match reg {
                None => (h, held),
                Some(r) => match h.local_of(names[k - 1]) {
                    None => (h.fail("internal: loop variable without a slot"@), held),
                    Some(off) => (
                        h.p("    movsd xmm0, qword ptr [rbp"@).n(off as int).p("]\n"@).p(
                            "    movapd "@,
                        ).p(r).p(", xmm0\n"@).set_float_loc(names[k - 1], r),
                        held.push((names[k - 1], r, off)),
                    ),
                },
            }
        }
    }

    /// Moves the first `k` of the integer variables into registers, as long as there
    /// are any.
    pub open spec fn hold_ints(self, names: Seq<Seq<char>>, k: nat) -> (Asm, Seq<HeldView>)
        decreases k,
    {
        if k == 0 || k > names.len() {
            (self, Seq::empty())
        } else {
            let (g, held) = self.hold_ints(names, (k - 1) as nat);
            let (h, reg) = g.acquire_callee();
            match reg {
                None => (h, held),
                Some(r) => match h.local_of(names[k - 1]) {
                    None => (h.fail("internal: loop variable without a slot"@), held),
                    Some(off) => (
                        h.p("    mov "@).p(r).p(", [rbp"@).n(off as int).p("]\n"@).set_int_loc(
                            names[k - 1],
                            r,
                        ),
                        held.push((names[k - 1], r, off)),
                    ),
                },
            }
        }
    }

    /// Writes the first `k` held floats back to their slots.
    pub open spec fn release_floats(self, held: Seq<HeldView>, k: nat) -> Asm
        decreases k,
    {
        if k == 0 || k > held.len() {
            self
        } else {
            let h = held[k - 1];
            self.release_floats(held, (k - 1) as nat).p("    movsd qword ptr [rbp"@).n(
                h.2 as int,
            ).p("], "@).p(h.1).p("\n"@).del_float_loc(h.0)
        }
    }

    pub open spec fn release_ints(self, held: Seq<HeldView>, k: nat) -> Asm
        decreases k,
    {
        if k == 0 || k > held.len() {
            self
        } else {
            let h = held[k - 1];
            self.release_ints(held, (k - 1) as nat).p("    mov [rbp"@).n(h.2 as int).p("], "@).p(
                h.1,
            ).p("\n"@).del_int_loc(h.0)
        }
    }

    /// The head of a counting loop: the test, and the loop variable for the body.
    #[verifier::opaque]
    pub open spec fn range_open(
        self,
        r: RangeRegs,
        var: Seq<char>,
        raw: bool,
        used: bool,
        assigned: bool,
        poll: bool,
        fnames: Seq<Seq<char>>,
        inames: Seq<Seq<char>>,
    ) -> (Asm, LoopView) {
        let (g1, ioff) = self.slot(var);
        let (g2, floats) = g1.hold_floats(fnames, fnames.len());
        let (g3, ints) = g2.hold_ints(inames, inames.len());
        let (g4, top) = g3.new_label("ftop"@);
        let (g5, end) = g4.new_label("fend"@);
        let (g6, cont) = g5.new_label("fcont"@);
        let g7 = g6.p(top).p(":\n"@);
        let g8 = if r.in_regs {
            g7.p("    cmp "@).p(r.counter).p(", "@).p(r.limit).p("\n    jge "@).p(end).p(
                "\n    mov rax, "@,
            ).p(r.counter).p("\n"@)
        } else {
            g7.p("    mov rax, "@).p(r.counter).p("\n    mov rcx, "@).p(r.limit).p(
                "\n    cmp rax, rcx\n    jge "@,
            ).p(end).p("\n"@)
        };
        let mapped = raw && r.in_regs && used && !assigned;
        let g9 = if mapped {
            g8.set_int_loc(var, r.counter)
        } else if used {
            (if raw {
                g8
            } else {
                g8.box_int()
            }).p("    mov [rbp"@).n(ioff as int).p("], rax\n"@)
        } else {
            g8
        };
        let g10 = if poll {
            g9.gc_poll()
        } else {
            g9
        };
        (
            g10.push_loop(cont, end),
            LoopView { top, end, cont, mapped, floats, ints, index: ioff },
        )
    }

    /// The end of a counting loop: the step, and held variables go back to their slots.
    #[verifier::opaque]
    pub open spec fn range_close(self, r: RangeRegs, l: LoopView, var: Seq<char>) -> Asm {
        let g1 = self.pop_loop();
        let g2 = if l.mapped {
            g1.del_int_loc(var)
        } else {
            g1
        };
        let g3 = g2.p(l.cont).p(":\n"@);
        let g4 = if r.in_regs {
            g3.p("    add "@).p(r.counter).p(", 1\n"@)
        } else {
            g3.p("    mov rax, "@).p(r.counter).p("\n    add rax, 1\n    mov "@).p(r.counter).p(
                ", rax\n"@,
            )
        };
        let g5 = g4.p("    jmp "@).p(l.top).p("\n"@).p(l.end).p(":\n"@);
        g5.release_floats(l.floats, l.floats.len()).release_ints(l.ints, l.ints.len())
    }

    /// The head of a loop over the value in `rax`.
    #[verifier::opaque]
    pub open spec fn list_open(self, var: Seq<char>) -> (Asm, LoopView) {
        let (g1, listoff) = self.p("    mov rcx, rax\n    call lumen_iter_prep\n"@).temp();
        let g2 = g1.p("    mov [rbp"@).n(listoff as int).p("], rax\n    mov rcx, [rbp"@).n(
            listoff as int,
        ).p("]\n    call lumen_len\n"@);
        let (g3, lenoff) = g2.temp();
        let (g4, idxoff) = g3.p("    mov [rbp"@).n(lenoff as int).p("], rax\n"@).temp();
        let (g5, voff) = g4.p("    mov qword ptr [rbp"@).n(idxoff as int).p("], 0\n"@).slot(var);
        let (g6, top) = g5.new_label("ltop"@);
        let (g7, end) = g6.new_label("lend"@);
        let (g8, cont) = g7.new_label("lcont"@);
        let g9 = g8.p(top).p(":\n    mov rax, [rbp"@).n(lenoff as int).p("]\n    mov rcx, [rbp"@).n(
            idxoff as int,
        ).p("]\n    cmp rcx, rax\n    jge "@).p(end).p("\n    mov rcx, [rbp"@).n(
            listoff as int,
        ).p("]\n    mov rdx, [rbp"@).n(idxoff as int).p(
            "]\n    call lumen_list_get\n    mov [rbp"@,
        ).n(voff as int).p("], rax\n"@);
        (
            g9.gc_poll().push_loop(cont, end),
            LoopView {
                top,
                end,
                cont,
                mapped: false,
                floats: Seq::empty(),
                ints: Seq::empty(),
                index: idxoff,
            },
        )
    }

    #[verifier::opaque]
    pub open spec fn list_close(self, l: LoopView) -> Asm {
        self.pop_loop().p(l.cont).p(":\n    mov rax, [rbp"@).n(l.index as int).p(
            "]\n    add rax, 1\n    mov [rbp"@,
        ).n(l.index as int).p("], rax\n    jmp "@).p(l.top).p("\n"@).p(l.end).p(":\n"@)
    }
}

impl Emitter {
    pub fn box_int(&mut self)
        ensures
            final(self)@ == old(self)@.box_int(),
    {
        proof {
            reveal(Asm::box_int);
        }
        self.p("    mov rcx, 0xFFFFFFFFFFFF\n    and rax, rcx\n");
        self.p("    mov rcx, 0x7FF9000000000000\n    or rax, rcx\n");
    }

    pub fn unbox_int(&mut self)
        ensures
            final(self)@ == old(self)@.unbox_int(),
    {
        proof {
            reveal(Asm::unbox_int);
        }
        self.p("    shl rax, 16\n    sar rax, 16\n");
    }

    pub fn gc_poll(&mut self)
        ensures
            final(self)@ == old(self)@.gc_poll(),
    {
        proof {
            reveal(Asm::gc_poll);
        }
        let skip = self.new_label("gcskip");
        self.p("    cmp qword ptr [rip + lumen_allocs_since_gc], 512\n");
        self.p("    jl ");
        self.p(skip.as_str());
        self.p("\n");
        self.p("    call lumen_gc_collect\n");
        self.p(skip.as_str());
        self.p(":\n");
    }

    pub fn load_regs(&mut self, slots: &Vec<i64>, k: usize, from: usize)
        requires
            k <= slots@.len(),
            k <= 4,
            from <= 1,
        ensures
            final(self)@ == old(self)@.load_regs(slots@, k as nat, from as int),
    {
        let ghost s0 = self@;
        for i in 0..k
            invariant
                k <= slots@.len(),
                k <= 4,
                from <= 1,
                self@ == s0.load_regs(slots@, i as nat, from as int),
        {
            self.p("    mov ");
            self.p(arg_reg_str(from + i));
            self.p(", [rbp");
            self.n(slots[i]);
            self.p("]\n");
        }
    }

    pub fn load_regs_down(&mut self, slots: &Vec<i64>, k: usize)
        requires
            k <= slots@.len(),
        ensures
            final(self)@ == old(self)@.load_regs_down(slots@, k as nat),
        decreases k,
    {
        if k > 0 {
            self.p("    mov ");
            self.p(arg_reg_str(k - 1));
            self.p(", [rbp");
            self.n(slots[k - 1]);
            self.p("]\n");
            self.load_regs_down(slots, k - 1);
        }
    }

    pub fn push_stack(&mut self, slots: &Vec<i64>, k: usize)
        requires
            4 <= k <= slots@.len(),
            k <= 0x1000_0000,
        ensures
            final(self)@ == old(self)@.push_stack(slots@, k as nat),
    {
        let ghost s0 = self@;
        for i in 4..k
            invariant
                4 <= k <= slots@.len(),
                k <= 0x1000_0000,
                self@ == s0.push_stack(slots@, i as nat),
        {
            self.p("    mov rax, [rbp");
            self.n(slots[i]);
            self.p("]\n");
            self.p("    mov [rsp+");
            self.u(32 + (i as u64 - 4) * 8);
            self.p("], rax\n");
        }
    }

    pub fn mul_times(&mut self, bt: i64, n: i64)
        requires
            n >= 0,
        ensures
            final(self)@ == old(self)@.mul_times(bt, n as nat),
    {
        let ghost s0 = self@;
        for i in 0..n
            invariant
                n >= 0,
                self@ == s0.mul_times(bt, i as nat),
        {
            self.p("    mov rcx, [rbp");
            self.n(bt);
            self.p("]\n");
            self.p("    imul rax, rcx\n");
        }
    }

    pub fn ffi_regs(&mut self, slots: &Vec<i64>, k: usize, params: &Vec<Param>)
        requires
            k <= slots@.len(),
        ensures
            final(self)@ == old(self)@.ffi_regs(slots@, k as nat, params_view(params@)),
    {
        let ghost s0 = self@;
        for i in 0..k
            invariant
                k <= slots@.len(),
                self@ == s0.ffi_regs(slots@, i as nat, params_view(params@)),
        {
            if ffi_is_float(params, i) {
                self.p("    movq ");
                self.p(arg_xmm_str(i));
            } else {
                self.p("    mov ");
                self.p(arg_reg_str(i));
            }
            self.p(", [rbp");
            self.n(slots[i]);
            self.p("]\n");
        }
    }

    pub fn range_regs(&mut self) -> (r: Regs)
        ensures
            (final(self)@, r@) == old(self)@.range_regs(),
    {
        proof {
            reveal(Asm::range_regs);
        }
        let ci = self.acquire_callee();
        let li = self.acquire_callee();
        match (ci, li) {
            (Some(c), Some(l)) => Regs {
                counter: c.to_owned(),
                limit: l.to_owned(),
                in_regs: true,
            },
            _ => {
                let a: i64 = self.temp();
                let b: i64 = self.temp();
                Regs { counter: slot_text(a), limit: slot_text(b), in_regs: false }
            },
        }
    }

    pub fn set_counter(&mut self, r: &Regs)
        ensures
            final(self)@ == old(self)@.set_counter(r@),
    {
        proof {
            reveal(Asm::set_counter);
        }
        self.p("    mov ");
        self.p(r.counter.as_str());
        self.p(", rax\n");
    }

    pub fn set_limit(&mut self, r: &Regs)
        ensures
            final(self)@ == old(self)@.set_limit(r@),
    {
        proof {
            reveal(Asm::set_limit);
        }
        self.p("    mov ");
        self.p(r.limit.as_str());
        self.p(", rax\n");
    }

    pub fn hold_floats(&mut self, names: &Vec<String>) -> (r: Vec<(String, &'static str, i64)>)
        ensures
            (final(self)@, held_view(r@)) == old(self)@.hold_floats(
                texts_view(names@),
                names@.len(),
            ),
    {
        let ghost s0 = self@;
        let ghost nv = texts_view(names@);
        let mut held: Vec<(String, &'static str, i64)> = Vec::new();
        assert(held_view(held@) =~= Seq::empty());
        for i in 0..names.len()
            invariant
                nv == texts_view(names@),
                (self@, held_view(held@)) == s0.hold_floats(nv, i as nat),
        {
            let ghost h0 = held@;
            assert(nv[i as int] == names@[i as int]@);
            if let Some(reg) = self.acquire_xmm() {
                match self.local_of(names[i].as_str()) {
                    None => {
                        self.fail("internal: loop variable without a slot");
                    },
                    Some(off) => {
                        self.p("    movsd xmm0, qword ptr [rbp");
                        self.n(off);
                        self.p("]\n");
                        self.p("    movapd ");
                        self.p(reg);
                        self.p(", xmm0\n");
                        self.set_float_loc(names[i].as_str(), reg);
                        held.push((names[i].clone(), reg, off));
                        assert(held_view(held@) =~= held_view(h0).push(
                            (nv[i as int], reg@, off)
                        ));
                    },
                }
            }
        }
        held
    }

    pub fn hold_ints(&mut self, names: &Vec<String>) -> (r: Vec<(String, &'static str, i64)>)
        ensures
            (final(self)@, held_view(r@)) == old(self)@.hold_ints(texts_view(names@), names@.len()),
    {
        let ghost s0 = self@;
        let ghost nv = texts_view(names@);
        let mut held: Vec<(String, &'static str, i64)> = Vec::new();
        assert(held_view(held@) =~= Seq::empty());
        for i in 0..names.len()
            invariant
                nv == texts_view(names@),
                (self@, held_view(held@)) == s0.hold_ints(nv, i as nat),
        {
            let ghost h0 = held@;
            assert(nv[i as int] == names@[i as int]@);
            if let Some(reg) = self.acquire_callee() {
                match self.local_of(names[i].as_str()) {
                    None => {
                        self.fail("internal: loop variable without a slot");
                    },
                    Some(off) => {
                        self.p("    mov ");
                        self.p(reg);
                        self.p(", [rbp");
                        self.n(off);
                        self.p("]\n");
                        self.set_int_loc(names[i].as_str(), reg);
                        held.push((names[i].clone(), reg, off));
                        assert(held_view(held@) =~= held_view(h0).push(
                            (nv[i as int], reg@, off)
                        ));
                    },
                }
            }
        }
        held
    }

    pub fn release_floats(&mut self, held: &Vec<(String, &'static str, i64)>)
        ensures
            final(self)@ == old(self)@.release_floats(held_view(held@), held@.len()),
    {
        let ghost s0 = self@;
        let ghost hv = held_view(held@);
        for i in 0..held.len()
            invariant
                hv == held_view(held@),
                self@ == s0.release_floats(hv, i as nat),
        {
            assert(hv[i as int] == (held@[i as int].0@, held@[i as int].1@, held@[i as int].2));
            self.p("    movsd qword ptr [rbp");
            self.n(held[i].2);
            self.p("], ");
            self.p(held[i].1);
            self.p("\n");
            self.del_float_loc(held[i].0.as_str());
        }
    }

    pub fn release_ints(&mut self, held: &Vec<(String, &'static str, i64)>)
        ensures
            final(self)@ == old(self)@.release_ints(held_view(held@), held@.len()),
    {
        let ghost s0 = self@;
        let ghost hv = held_view(held@);
        for i in 0..held.len()
            invariant
                hv == held_view(held@),
                self@ == s0.release_ints(hv, i as nat),
        {
            assert(hv[i as int] == (held@[i as int].0@, held@[i as int].1@, held@[i as int].2));
            self.p("    mov [rbp");
            self.n(held[i].2);
            self.p("], ");
            self.p(held[i].1);
            self.p("\n");
            self.del_int_loc(held[i].0.as_str());
        }
    }

    pub fn range_open(
        &mut self,
        r: &Regs,
        var: &str,
        raw: bool,
        used: bool,
        assigned: bool,
        poll: bool,
        fnames: &Vec<String>,
        inames: &Vec<String>,
    ) -> (l: OpenLoop)
        ensures
            (final(self)@, l@) == old(self)@.range_open(
                r@,
                var@,
                raw,
                used,
                assigned,
                poll,
                texts_view(fnames@),
                texts_view(inames@),
            ),
    {
        proof {
            reveal(Asm::range_open);
        }
        let ioff: i64 = self.slot(var);
        let floats = self.hold_floats(fnames);
        let ints = self.hold_ints(inames);
        let top = self.new_label("ftop");
        let end = self.new_label("fend");
        let cont = self.new_label("fcont");
        self.p(top.as_str());
        self.p(":\n");
        if r.in_regs {
            self.p("    cmp ");
            self.p(r.counter.as_str());
            self.p(", ");
            self.p(r.limit.as_str());
            self.p("\n    jge ");
            self.p(end.as_str());
            self.p("\n    mov rax, ");
            self.p(r.counter.as_str());
            self.p("\n");
        } else {
            self.p("    mov rax, ");
            self.p(r.counter.as_str());
            self.p("\n    mov rcx, ");
            self.p(r.limit.as_str());
            self.p("\n    cmp rax, rcx\n    jge ");
            self.p(end.as_str());
            self.p("\n");
        }
        let mapped = raw && r.in_regs && used && !assigned;
        if mapped {
            self.set_int_loc(var, r.counter.as_str());
        } else if used {
            if !raw {
                self.box_int();
            }
            self.p("    mov [rbp");
            self.n(ioff);
            self.p("], rax\n");
        }
        if poll {
            self.gc_poll();
        }
        self.push_loop(cont.as_str(), end.as_str());
        OpenLoop { top, end, cont, mapped, floats, ints, index: ioff }
    }

    pub fn range_close(&mut self, r: &Regs, l: &OpenLoop, var: &str)
        ensures
            final(self)@ == old(self)@.range_close(r@, l@, var@),
    {
        proof {
            reveal(Asm::range_close);
        }
        self.pop_loop();
        if l.mapped {
            self.del_int_loc(var);
        }
        self.p(l.cont.as_str());
        self.p(":\n");
        if r.in_regs {
            self.p("    add ");
            self.p(r.counter.as_str());
            self.p(", 1\n");
        } else {
            self.p("    mov rax, ");
            self.p(r.counter.as_str());
            self.p("\n    add rax, 1\n    mov ");
            self.p(r.counter.as_str());
            self.p(", rax\n");
        }
        self.p("    jmp ");
        self.p(l.top.as_str());
        self.p("\n");
        self.p(l.end.as_str());
        self.p(":\n");
        self.release_floats(&l.floats);
        self.release_ints(&l.ints);
    }

    pub fn list_open(&mut self, var: &str) -> (l: OpenLoop)
        ensures
            (final(self)@, l@) == old(self)@.list_open(var@),
    {
        proof {
            reveal(Asm::list_open);
        }
        self.p("    mov rcx, rax\n    call lumen_iter_prep\n");
        let listoff: i64 = self.temp();
        self.p("    mov [rbp");
        self.n(listoff);
        self.p("], rax\n    mov rcx, [rbp");
        self.n(listoff);
        self.p("]\n    call lumen_len\n");
        let lenoff: i64 = self.temp();
        self.p("    mov [rbp");
        self.n(lenoff);
        self.p("], rax\n");
        let idxoff: i64 = self.temp();
        self.p("    mov qword ptr [rbp");
        self.n(idxoff);
        self.p("], 0\n");
        let voff: i64 = self.slot(var);
        let top = self.new_label("ltop");
        let end = self.new_label("lend");
        let cont = self.new_label("lcont");
        self.p(top.as_str());
        self.p(":\n    mov rax, [rbp");
        self.n(lenoff);
        self.p("]\n    mov rcx, [rbp");
        self.n(idxoff);
        self.p("]\n    cmp rcx, rax\n    jge ");
        self.p(end.as_str());
        self.p("\n    mov rcx, [rbp");
        self.n(listoff);
        self.p("]\n    mov rdx, [rbp");
        self.n(idxoff);
        self.p("]\n    call lumen_list_get\n    mov [rbp");
        self.n(voff);
        self.p("], rax\n");
        self.gc_poll();
        self.push_loop(cont.as_str(), end.as_str());
        let l = OpenLoop {
            top,
            end,
            cont,
            mapped: false,
            floats: Vec::new(),
            ints: Vec::new(),
            index: idxoff,
        };
        assert(l@.floats =~= Seq::empty());
        assert(l@.ints =~= Seq::empty());
        l
    }

    pub fn list_close(&mut self, l: &OpenLoop)
        ensures
            final(self)@ == old(self)@.list_close(l@),
    {
        proof {
            reveal(Asm::list_close);
        }
        self.pop_loop();
        self.p(l.cont.as_str());
        self.p(":\n    mov rax, [rbp");
        self.n(l.index);
        self.p("]\n    add rax, 1\n    mov [rbp");
        self.n(l.index);
        self.p("], rax\n    jmp ");
        self.p(l.top.as_str());
        self.p("\n");
        self.p(l.end.as_str());
        self.p(":\n");
    }
}

/// A slot as an operand.
pub fn slot_text(off: i64) -> (r: String)
    ensures
        r@ == "[rbp"@ + dec(off as int) + "]"@,
{
    let mut s = "[rbp".to_owned();
    push_i64(&mut s, off);
    s.append("]");
    s
}

} // verus!
