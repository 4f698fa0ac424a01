//! Raw byte buffers: numbers in them, lowest byte first.

use crate::text::{dec, dec_nat, push_i64, push_u64, to_chars};
use vstd::prelude::*;
use vstd::string::StringExecFns;

verus! {

/// The `w` lowest bytes of a number, the lowest first.
pub open spec fn low_bytes(n: nat, w: nat) -> Seq<u8>
    decreases w,
{
    if w == 0 {
        Seq::empty()
    } else {
        seq![(n % 256) as u8] + low_bytes(n / 256, (w - 1) as nat)
    }
}

/// The number that bytes stand for, the lowest first.
pub open spec fn bytes_value(b: Seq<u8>) -> nat
    decreases b.len(),
{
    if b.len() == 0 {
        0
    } else {
        b[0] as nat + 256 * bytes_value(b.drop_first())
    }
}

/// How many numbers `w` bytes can hold.
pub open spec fn span(w: nat) -> nat
    decreases w,
{
    if w == 0 {
        1
    } else {
        256 * span((w - 1) as nat)
    }
}

/// A number of `w` bytes in two's complement.
pub open spec fn signed(n: int, w: nat) -> int {
    if 2 * n >= span(w) {
        n - span(w)
    } else {
        n
    }
}

/// An integer as 64 bits.
pub open spec fn bits64(v: i64) -> nat {
    (v as int % 0x1_0000_0000_0000_0000) as nat
}

proof fn low_bytes_len(n: nat, w: nat)
    ensures
        low_bytes(n, w).len() == w,
    decreases w,
{
    if w > 0 {
        low_bytes_len(n / 256, (w - 1) as nat);
    }
}

/// What is written as bytes is read back, as far as the bytes can hold it.
pub proof fn bytes_round_trip(n: nat, w: nat)
    ensures
        bytes_value(low_bytes(n, w)) == n % span(w),
        low_bytes(n, w).len() == w,
    decreases w,
{
    if w > 0 {
        let k = (w - 1) as nat;
        bytes_round_trip(n / 256, k);
        let b = low_bytes(n, w);
        assert(b.drop_first() =~= low_bytes(n / 256, k));
        let s = span(k);
        span_positive(k);
        assert(n % (256 * s) == n % 256 + 256 * ((n / 256) % s)) by {
            vstd::arithmetic::div_mod::lemma_mod_breakdown(n as int, 256, s as int);
        }
    }
}

pub(crate) proof fn span_positive(w: nat)
    ensures
        span(w) > 0,
    decreases w,
{
    if w > 0 {
        span_positive((w - 1) as nat);
    }
}

/// Whether `w` bytes at `off` lie in a buffer.
pub open spec fn in_buffer(len: nat, off: i64, w: nat) -> bool {
    0 <= off && off + w <= len
}

pub open spec fn outside_text(who: Seq<char>, off: i64, len: nat) -> Seq<char> {
    who + ": offset "@ + dec(off as int) + " out of bounds (size "@ + dec_nat(len) + ")"@
}

pub fn cbuf_bounds(len: usize, off: i64, width: usize, who: &str) -> (r: Result<usize, String>)
    ensures
        match r {
            Ok(o) => in_buffer(len as nat, off, width as nat) && o == off,
            Err(m) => !in_buffer(len as nat, off, width as nat) && m@ == outside_text(
                who@,
                off,
                len as nat,
            ),
        },
{
    if off < 0 || off as u128 + width as u128 > len as u128 {
        let mut m = who.to_owned();
        m.append(": offset ");
        push_i64(&mut m, off);
        m.append(" out of bounds (size ");
        push_u64(&mut m, len as u64);
        m.append(")");
        return Err(m);
    }
    Ok(off as usize)
}

/// A buffer with bytes written at `o`.
pub open spec fn written(s: Seq<u8>, o: int, b: Seq<u8>) -> Seq<u8> {
    s.take(o) + b + s.skip(o + b.len())
}

/// Writes the `width` lowest bytes of an integer at an offset.
pub fn cset(data: &mut Vec<u8>, off: i64, width: usize, v: i64, who: &str) -> (r: Result<
    (),
    String,
>)
    ensures
        match r {
            Ok(_) => in_buffer(old(data)@.len(), off, width as nat) && final(data)@ == written(
                old(data)@,
                off as int,
                low_bytes(bits64(v), width as nat),
            ),
            Err(m) => !in_buffer(old(data)@.len(), off, width as nat) && m@ == outside_text(
                who@,
                off,
                old(data)@.len(),
            ) && final(data)@ == old(data)@,
        },
{
    let o: usize = match cbuf_bounds(data.len(), off, width, who) {
        Ok(o) => o,
        Err(m) => {
            return Err(m);
        },
    };
    let mut n: u64 = if v < 0 {
        (v as i128 + 0x1_0000_0000_0000_0000) as u64
    } else {
        v as u64
    };
    let len: usize = data.len();
    let ghost s = data@;
    let ghost all = low_bytes(bits64(v), width as nat);
    proof {
        low_bytes_len(bits64(v), width as nat);
        assert(all.skip(0) =~= all);
    }
    for i in 0..width
        invariant
            o + width <= s.len(),
            len == s.len(),
            data@.len() == s.len(),
            all.len() == width,
            all.skip(i as int) == low_bytes(n as nat, (width - i) as nat),
            forall|j: int|
                0 <= j < s.len() ==> data@[j] == (if o <= j < o + i {
                    all[j - o]
                } else {
                    s[j]
                }),
    {
        assert(all.skip(i as int)[0] == (n as nat % 256) as u8);
        data[o + i] = (n % 256) as u8;
        assert(all.skip(i as int).drop_first() =~= all.skip(i + 1));
        assert(all.skip(i as int).drop_first() =~= low_bytes(
            n as nat / 256,
            (width - i - 1) as nat
        ));
        n = n / 256;
    }
    assert(data@ =~= written(s, o as int, all));
    Ok(())
}

/// The number in `width` bytes at an offset.
pub fn cget(data: &Vec<u8>, off: i64, width: usize, who: &str) -> (r: Result<u64, String>)
    requires
        width <= 8,
    ensures
        match r {
            Ok(n) => in_buffer(data@.len(), off, width as nat) && n == bytes_value(
                data@.subrange(off as int, off + width),
            ),
            Err(m) => !in_buffer(data@.len(), off, width as nat) && m@ == outside_text(
                who@,
                off,
                data@.len(),
            ),
        },
{
    let o: usize = match cbuf_bounds(data.len(), off, width, who) {
        Ok(o) => o,
        Err(m) => {
            return Err(m);
        },
    };
    let mut n: u64 = 0;
    let mut i: usize = width;
    let len: usize = data.len();
    let ghost b = data@.subrange(o as int, o + width);
    proof {
        assert(b.skip(width as int) =~= Seq::empty());
        span_values();
    }
    while i > 0
        invariant
            i <= width <= 8,
            len == data@.len(),
            o + width <= data@.len(),
            b == data@.subrange(o as int, o + width),
            n == bytes_value(b.skip(i as int)),
            n < span((width - i) as nat),
            span(8) == 0x1_0000_0000_0000_0000,
            forall|k: nat| #![trigger span(k)] k <= 8 ==> span(k) <= span(8),
        decreases i,
    {
        let ghost t = b.skip(i - 1);
        assert(t.drop_first() =~= b.skip(i as int));
        assert(t[0] == data@[o + i - 1]);
        let ghost k = (width - i) as nat;
        assert(span(k + 1) == 256 * span(k));
        assert(span(k + 1) <= span(8));
        n = n * 256 + data[o + i - 1] as u64;
        i -= 1;
    }
    assert(b.skip(0) =~= b);
    Ok(n)
}

proof fn span_values()
    ensures
        span(8) == 0x1_0000_0000_0000_0000,
        span(0) == 1,
        forall|k: nat| #![trigger span(k)] k <= 8 ==> span(k) <= span(8),
{
    reveal_with_fuel(span, 9);
    assert forall|k: nat| #![trigger span(k)] k <= 8 implies span(k) <= span(8) by {
        assert(k == 0 || k == 1 || k == 2 || k == 3 || k == 4 || k == 5 || k == 6 || k == 7 || k
            == 8);
    }
}

/// A number of `width` bytes as an integer with a sign.
pub fn sign_extend(n: u64, width: usize) -> (r: i64)
    requires
        1 <= width <= 8,
        n < span(width as nat),
    ensures
        r == signed(n as int, width as nat),
{
    proof {
        reveal_with_fuel(span, 9);
    }
    let full: i128 = match width {
        1 => 0x100,
        2 => 0x1_0000,
        3 => 0x100_0000,
        4 => 0x1_0000_0000,
        5 => 0x100_0000_0000,
        6 => 0x1_0000_0000_0000,
        7 => 0x100_0000_0000_0000,
        _ => 0x1_0000_0000_0000_0000,
    };
    assert(full == span(width as nat));
    if 2 * (n as i128) >= full {
        (n as i128 - full) as i64
    } else {
        n as i64
    }
}

/// What was written at an offset is read back there: all that the bytes can hold of it.
pub proof fn get_after_set(s: Seq<u8>, off: i64, w: nat, v: i64)
    requires
        in_buffer(s.len(), off, w),
    ensures
        ({
            let t = written(s, off as int, low_bytes(bits64(v), w));
            &&& t.len() == s.len()
            &&& bytes_value(t.subrange(off as int, off + w)) == bits64(v) % span(w)
            &&& forall|j: int|
                0 <= j < s.len() && !(off <= j < off + w) ==> #[trigger] t[j] == s[j]
        }),
{
    let b = low_bytes(bits64(v), w);
    bytes_round_trip(bits64(v), w);
    let t = written(s, off as int, b);
    assert(t.subrange(off as int, off + w) =~= b);
}

/// A hexadecimal digit.
pub open spec fn hex_value(c: char) -> Option<u8> {
    if '0' <= c && c <= '9' {
        Some((c as int - 48) as u8)
    } else if 'a' <= c && c <= 'f' {
        Some((c as int - 87) as u8)
    } else if 'A' <= c && c <= 'F' {
        Some((c as int - 55) as u8)
    } else {
        None
    }
}

pub fn hex_of(c: char) -> (r: Option<u8>)
    ensures
        r == hex_value(c),
{
    if '0' <= c && c <= '9' {
        Some((c as u32 - 48) as u8)
    } else if 'a' <= c && c <= 'f' {
        Some((c as u32 - 87) as u8)
    } else if 'A' <= c && c <= 'F' {
        Some((c as u32 - 55) as u8)
    } else {
        None
    }
}

/// The hexadecimal digits in a text.
pub open spec fn nibbles(s: Seq<char>) -> Seq<u8>
    decreases s.len(),
{
    if s.len() == 0 {
        Seq::empty()
    } else {
        match hex_value(s.last()) {
            Some(d) => nibbles(s.drop_last()).push(d),
            None => nibbles(s.drop_last()),
        }
    }
}

/// Where each byte of a GUID stands in its text: the first three groups are numbers,
/// lowest byte first.
pub open spec fn guid_place(i: int) -> int {
    if i < 4 {
        3 - i
    } else if i < 6 {
        9 - i
    } else if i < 8 {
        13 - i
    } else {
        i
    }
}

pub open spec fn guid_bytes(n: Seq<u8>) -> Seq<u8> {
    Seq::new(
        16,
        |i: int| (n[2 * guid_place(i)] * 16 + n[2 * guid_place(i) + 1]) as u8,
    )
}

proof fn nibbles_small(s: Seq<char>)
    ensures
        forall|i: int| 0 <= i < nibbles(s).len() ==> #[trigger] nibbles(s)[i] < 16,
        nibbles(s).len() <= s.len(),
    decreases s.len(),
{
    if s.len() > 0 {
        nibbles_small(s.drop_last());
    }
}

/// The bytes of a GUID, from its 32 digits; other characters are skipped.
pub fn guid(s: &str) -> (r: Result<Vec<u8>, String>)
    ensures
        match r {
            Ok(b) => nibbles(s@).len() == 32 && b@ == guid_bytes(nibbles(s@)),
            Err(m) => nibbles(s@).len() != 32 && m@ == "guid: expected 32 hex digits"@,
        },
{
    let v = to_chars(s);
    let mut n: Vec<u8> = Vec::new();
    assert(v@.take(0) =~= Seq::empty());
    for i in 0..v.len()
        invariant
            n@ == nibbles(v@.take(i as int)),
    {
        assert(v@.take(i + 1).drop_last() =~= v@.take(i as int));
        if let Some(d) = hex_of(v[i]) {
            n.push(d);
        }
    }
    assert(v@.take(v@.len() as int) =~= v@);
    if n.len() != 32 {
        return Err("guid: expected 32 hex digits".to_owned());
    }
    proof {
        nibbles_small(s@);
    }
    let mut b: Vec<u8> = Vec::new();
    for i in 0..16
        invariant
            n@ == nibbles(s@),
            n@.len() == 32,
            forall|j: int| 0 <= j < 32 ==> #[trigger] n@[j] < 16,
            b@ == guid_bytes(n@).take(i as int),
    {
        let p: usize = if i < 4 {
            3 - i
        } else if i < 6 {
            9 - i
        } else if i < 8 {
            13 - i
        } else {
            i
        };
        b.push(n[2 * p] * 16 + n[2 * p + 1]);
        assert(b@ =~= guid_bytes(n@).take(i + 1));
    }
    assert(b@ =~= guid_bytes(n@));
    Ok(b)
}

} // verus!
