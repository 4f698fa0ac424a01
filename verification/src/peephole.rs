//! A pass over finished assembly: where a slot is reloaded right after `rax` was stored
//! in it, the reload becomes a move between registers, or goes.

use crate::text::{
    concat, found_at, from_range, lines, lines_spec, push_char, stands_at, starts_with_spec,
    str_eq, texts_view, to_chars, trim, trim_spec,
};
use vstd::prelude::*;
use vstd::string::StringExecFns;

verus! {

/// The general-purpose registers.
pub open spec fn is_gpr_spec(s: Seq<char>) -> bool {
    s == "rax"@ || s == "rbx"@ || s == "rcx"@ || s == "rdx"@ || s == "rsi"@ || s == "rdi"@ || s
        == "rbp"@ || s == "rsp"@ || s == "r8"@ || s == "r9"@ || s == "r10"@ || s == "r11"@ || s
        == "r12"@ || s == "r13"@ || s == "r14"@ || s == "r15"@
}

pub fn is_gpr(s: &str) -> (r: bool)
    ensures
        r == is_gpr_spec(s@),
{
    str_eq(s, "rax") || str_eq(s, "rbx") || str_eq(s, "rcx") || str_eq(s, "rdx") || str_eq(s, "rsi")
        || str_eq(s, "rdi") || str_eq(s, "rbp") || str_eq(s, "rsp") || str_eq(s, "r8") || str_eq(
        s,
        "r9",
    ) || str_eq(s, "r10") || str_eq(s, "r11") || str_eq(s, "r12") || str_eq(s, "r13") || str_eq(
        s,
        "r14",
    ) || str_eq(s, "r15")
}

/// Where `pat` first stands from place `i` on.
pub open spec fn first_at(s: Seq<char>, pat: Seq<char>, i: int) -> Option<int>
    decreases s.len() + 1 - i,
{
    if i > s.len() {
        None
    } else if stands_at(s, pat, i) {
        Some(i)
    } else {
        first_at(s, pat, i + 1)
    }
}

/// The two operands of a `mov`.
pub open spec fn mov_operands(line: Seq<char>) -> Option<(Seq<char>, Seq<char>)> {
    let t = trim_spec(line);
    if !starts_with_spec(t, "mov "@) {
        None
    } else {
        let rest = t.skip("mov "@.len() as int);
        match first_at(rest, ", "@, 0) {
            Some(i) => Some((rest.take(i), rest.skip(i + ", "@.len()))),
            None => None,
        }
    }
}

pub open spec fn is_memory(s: Seq<char>) -> bool {
    s.len() > 0 && s[0] == '[' && s.last() == ']'
}

/// The slot that a line stores `rax` in.
pub open spec fn store_of(line: Seq<char>) -> Option<Seq<char>> {
    match mov_operands(line) {
        Some((lhs, rhs)) => if rhs == "rax"@ && is_memory(lhs) {
            Some(lhs)
        } else {
            None
        },
        None => None,
    }
}

/// The register that a line loads and the memory that it loads it from.
pub open spec fn load_of(line: Seq<char>) -> Option<(Seq<char>, Seq<char>)> {
    match mov_operands(line) {
        Some((lhs, rhs)) => if is_gpr_spec(lhs) && is_memory(rhs) {
            Some((lhs, rhs))
        } else {
            None
        },
        None => None,
    }
}

/// Whether the second line reloads what the first one stores.
pub open spec fn reloads(a: Seq<char>, b: Seq<char>) -> bool {
    match (store_of(a), load_of(b)) {
        (Some(mem), Some((_, src))) => mem == src,
        _ => false,
    }
}

/// What is left of a reload.
pub open spec fn reload_move(b: Seq<char>) -> Seq<Seq<char>> {
    let dst = load_of(b)->Some_0.0;
    if dst == "rax"@ {
        Seq::empty()
    } else {
        seq!["    mov "@ + dst + ", rax"@]
    }
}

/// The lines of the code once reloads are replaced.
pub open spec fn peep(ls: Seq<Seq<char>>) -> Seq<Seq<char>>
    decreases ls.len(),
{
    if ls.len() == 0 {
        ls
    } else if ls.len() >= 2 && reloads(ls[0], ls[1]) {
        seq![ls[0]] + reload_move(ls[1]) + peep(ls.skip(2))
    } else {
        seq![ls[0]] + peep(ls.skip(1))
    }
}

/// Every line followed by a line end.
pub open spec fn join_lines(ls: Seq<Seq<char>>) -> Seq<char>
    decreases ls.len(),
{
    if ls.len() == 0 {
        Seq::empty()
    } else {
        join_lines(ls.drop_last()) + ls.last() + "\n"@
    }
}

pub open spec fn peephole_spec(code: Seq<char>) -> Seq<char> {
    let ls = peep(lines_spec(code, Seq::empty()));
    if ls.len() == 0 {
        "\n"@
    } else {
        join_lines(ls)
    }
}

fn find_operands(line: &str) -> (r: Option<(String, String)>)
    ensures
        match r {
            Some((a, b)) => mov_operands(line@) == Some((a@, b@)),
            None => mov_operands(line@) is None,
        },
{
    let t = trim(line);
    let tv = to_chars(t.as_str());
    let mov = to_chars("mov ");
    if !found_at(&tv, &mov, 0) {
        return None;
    }
    let k: usize = mov.len();
    let comma = to_chars(", ");
    let ghost rest = tv@.skip(k as int);
    let mut i: usize = k;
    while i < tv.len()
        invariant
            k <= i <= tv@.len(),
            k == mov@.len(),
            mov@ == "mov "@,
            comma@ == ", "@,
            tv@ == trim_spec(line@),
            starts_with_spec(tv@, "mov "@),
            rest == tv@.skip(k as int),
            first_at(rest, ", "@, 0) == first_at(rest, ", "@, i - k),
        decreases tv@.len() - i,
    {
        let hit = found_at(&tv, &comma, i);
        assert(stands_at(rest, ", "@, i - k) == stands_at(tv@, ", "@, i as int)) by {
            if i + ", "@.len() <= tv@.len() {
                assert(rest.subrange(i - k, i - k + ", "@.len()) =~= tv@.subrange(
                    i as int,
                    i + ", "@.len()
                ));
            }
        }
        if hit {
            let lhs = from_range(&tv, k, i);
            let rhs = from_range(&tv, i + comma.len(), tv.len());
            assert(lhs@ =~= rest.take(i - k));
            assert(rhs@ =~= rest.skip(i - k + ", "@.len()));
            return Some((lhs, rhs));
        }
        i += 1;
    }
    proof {
        reveal_strlit(", ");
        assert(first_at(rest, ", "@, rest.len() as int + 1) is None);
    }
    None
}

fn memory(s: &str) -> (r: bool)
    ensures
        r == is_memory(s@),
{
    let v = to_chars(s);
    v.len() > 0 && v[0] == '[' && v[v.len() - 1] == ']'
}

fn parse_store_rax(line: &str) -> (r: Option<String>)
    ensures
        match r {
            Some(m) => store_of(line@) == Some(m@),
            None => store_of(line@) is None,
        },
{
    match find_operands(line) {
        Some((lhs, rhs)) => {
            if str_eq(rhs.as_str(), "rax") && memory(lhs.as_str()) {
                Some(lhs)
            } else {
                None
            }
        },
        None => None,
    }
}

fn parse_mov_reg_mem(line: &str) -> (r: Option<(String, String)>)
    ensures
        match r {
            Some((d, m)) => load_of(line@) == Some((d@, m@)),
            None => load_of(line@) is None,
        },
{
    match find_operands(line) {
        Some((lhs, rhs)) => {
            if is_gpr(lhs.as_str()) && memory(rhs.as_str()) {
                Some((lhs, rhs))
            } else {
                None
            }
        },
        None => None,
    }
}

proof fn join_lines_push(ls: Seq<Seq<char>>, x: Seq<char>)
    ensures
        join_lines(ls.push(x)) == join_lines(ls) + x + "\n"@,
{
    assert(ls.push(x).drop_last() =~= ls);
}

/// Replaces the reloads of slots that were just stored.
pub fn peephole(code: &str) -> (r: String)
    ensures
        r@ == peephole_spec(code@),
{
    let ls = lines(code);
    let ghost lv = texts_view(ls@);
    let mut out = String::new();
    let mut i: usize = 0;
    let ghost mut done: Seq<Seq<char>> = Seq::empty();
    assert(lv.skip(0) =~= lv);
    assert(done + peep(lv) =~= peep(lv));
    assert(out@ =~= join_lines(done));
    while i < ls.len()
        invariant
            i <= ls@.len(),
            lv == texts_view(ls@),
            out@ == join_lines(done),
            done + peep(lv.skip(i as int)) == peep(lv),
        decreases ls@.len() - i,
    {
        let ghost here = lv.skip(i as int);
        let ghost d0 = done;
        assert(here[0] == ls@[i as int]@);
        let cur = ls[i].as_str();
        out.append(cur);
        out.append("\n");
        proof {
            join_lines_push(done, cur@);
            done = done.push(cur@);
        }
        let mut pair = false;
        if ls.len() - i > 1 {
            assert(here[1] == ls@[i + 1]@);
            if let Some(mem) = parse_store_rax(cur) {
                if let Some((dst, src)) = parse_mov_reg_mem(ls[i + 1].as_str()) {
                    if str_eq(mem.as_str(), src.as_str()) {
                        pair = true;
                        if !str_eq(dst.as_str(), "rax") {
                            let mut m = concat("    mov ", dst.as_str());
                            m.append(", rax");
                            out.append(m.as_str());
                            out.append("\n");
                            proof {
                                join_lines_push(done, m@);
                                done = done.push(m@);
                            }
                        }
                    }
                }
            }
        }
        if pair {
            assert(here.skip(2) =~= lv.skip(i + 2));
            assert(done =~= d0 + (seq![here[0]] + reload_move(here[1])));
            assert(d0 + (seq![here[0]] + reload_move(here[1]) + peep(here.skip(2))) =~= done + peep(
                here.skip(2)
            ));
            i += 2;
        } else {
            assert(here.skip(1) =~= lv.skip(i + 1));
            assert(d0 + (seq![here[0]] + peep(here.skip(1))) =~= d0.push(here[0]) + peep(
                here.skip(1)
            ));
            i += 1;
        }
    }
    assert(lv.skip(i as int) =~= Seq::empty());
    assert(done + Seq::empty() =~= done);
    if ls.len() == 0 {
        push_char(&mut out, '\n');
        proof {
            reveal_strlit("\n");
            assert(out@ =~= "\n"@);
        }
    } else {
        proof {
            peep_nonempty(lv);
        }
    }
    out
}

proof fn peep_nonempty(ls: Seq<Seq<char>>)
    ensures
        ls.len() > 0 ==> peep(ls).len() > 0,
        ls.len() == 0 ==> peep(ls).len() == 0,
{
}

/// Code without a reload of a slot that was just stored is left as it is.
pub proof fn other_code_stays(ls: Seq<Seq<char>>)
    requires
        forall|i: int| 0 <= i < ls.len() - 1 ==> !reloads(#[trigger] ls[i], ls[i + 1]),
    ensures
        peep(ls) == ls,
    decreases ls.len(),
{
    if ls.len() > 0 {
        let rest = ls.skip(1);
        assert forall|i: int| 0 <= i < rest.len() - 1 implies !reloads(
            #[trigger] rest[i],
            rest[i + 1],
        ) by {
            assert(rest[i] == ls[i + 1] && rest[i + 1] == ls[i + 2]);
        }
        other_code_stays(rest);
        assert(seq![ls[0]] + rest =~= ls);
    }
}

} // verus!
