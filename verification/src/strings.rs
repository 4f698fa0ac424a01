//! What the string methods of the language compute.

use crate::text::{found_at, from_range, push_char, stands_at, texts_view, to_chars};
use vstd::prelude::*;
use vstd::string::{StringExecFns, StringSliceAdditionalSpecFns};

verus! {

pub(crate) proof fn texts_push(s: Seq<String>, x: String)
    ensures
        texts_view(s.push(x)) == texts_view(s).push(x@),
{
    assert(texts_view(s.push(x)) =~= texts_view(s).push(x@));
}

/// A byte as a text of one character.
pub open spec fn byte_text(b: u8) -> Seq<char> {
    seq![b as char]
}

pub open spec fn byte_texts(b: Seq<u8>) -> Seq<Seq<char>> {
    b.map_values(|x: u8| byte_text(x))
}

/// The bytes of a text, each as a text.
pub fn bytes_apart(s: &str) -> (r: Vec<String>)
    ensures
        texts_view(r@) == byte_texts(vstd::utf8::encode_utf8(s@)),
{
    let b = s.as_bytes();
    let mut r: Vec<String> = Vec::new();
    for i in 0..b.len()
        invariant
            texts_view(r@) == byte_texts(b@.take(i as int)),
    {
        let mut t = String::new();
        push_char(&mut t, b[i] as char);
        proof {
            texts_push(r@, t);
        }
        r.push(t);
        assert(t@ =~= byte_text(b@[i as int]));
        assert(texts_view(r@) =~= byte_texts(b@.take(i + 1)));
    }
    assert(b@.take(b@.len() as int) =~= b@);
    r
}

/// Where `pat` first stands in `s`, from `i` on.
pub open spec fn first_at(s: Seq<char>, pat: Seq<char>, i: int) -> Option<int>
    decreases s.len() + 1 - i,
{
    if i < 0 || i > s.len() {
        None
    } else if stands_at(s, pat, i) {
        Some(i)
    } else {
        first_at(s, pat, i + 1)
    }
}

/// `first_at` finds a place, the first one, or there is none.
pub proof fn first_at_is_first(s: Seq<char>, pat: Seq<char>, i: int)
    requires
        0 <= i,
    ensures
        match first_at(s, pat, i) {
            Some(k) => i <= k && stands_at(s, pat, k) && forall|j: int|
                i <= j < k ==> !stands_at(s, pat, j),
            None => forall|j: int| i <= j ==> !stands_at(s, pat, j),
        },
    decreases s.len() + 1 - i,
{
    if i <= s.len() && !stands_at(s, pat, i) {
        first_at_is_first(s, pat, i + 1);
    }
}

fn find_from(s: &Vec<char>, pat: &Vec<char>, from: usize) -> (r: Option<usize>)
    requires
        from <= s@.len(),
    ensures
        match r {
            Some(k) => first_at(s@, pat@, from as int) == Some(k as int) && k
                + pat@.len() <= s@.len(),
            None => first_at(s@, pat@, from as int) is None,
        },
{
    let mut i: usize = from;
    loop
        invariant
            i <= s@.len(),
            first_at(s@, pat@, from as int) == first_at(s@, pat@, i as int),
        decreases s@.len() - i,
    {
        if found_at(s, pat, i) {
            return Some(i);
        }
        if i == s.len() {
            assert(first_at(s@, pat@, i + 1) is None);
            return None;
        }
        i += 1;
    }
}

/// The pieces of `s` between the occurrences of `sep`.
pub open spec fn pieces(s: Seq<char>, sep: Seq<char>, from: int) -> Seq<Seq<char>>
    decreases s.len() - from,
{
    if from < 0 || from > s.len() || sep.len() == 0 {
        seq![s]
    } else {
        match first_at(s, sep, from) {
            Some(k) => if from <= k && k + sep.len() <= s.len() {
                seq![s.subrange(from, k)] + pieces(s, sep, k + sep.len())
            } else {
                seq![s.skip(from)]
            },
            None => seq![s.skip(from)],
        }
    }
}

/// Splits a text at every occurrence of `sep`; not at all where that is empty.
pub fn split(s: &str, sep: &str) -> (r: Vec<String>)
    ensures
        texts_view(r@) == pieces(s@, sep@, 0),
{
    let sv = to_chars(s);
    let pv = to_chars(sep);
    let mut r: Vec<String> = Vec::new();
    if pv.len() == 0 {
        r.push(s.to_owned());
        assert(texts_view(r@) =~= seq![s@]);
        return r;
    }
    let ghost all = pieces(s@, sep@, 0);
    let mut from: usize = 0;
    let n: usize = sv.len();
    assert(texts_view(r@) + all =~= all);
    loop
        invariant
            n == sv@.len(),
            sv@ == s@,
            pv@ == sep@,
            pv@.len() > 0,
            from <= sv@.len(),
            texts_view(r@) + pieces(s@, sep@, from as int) == all,
            all == pieces(s@, sep@, 0),
        decreases sv@.len() - from,
    {
        let ghost t0 = texts_view(r@);
        match find_from(&sv, &pv, from) {
            Some(k) => {
                proof {
                    first_at_is_first(s@, sep@, from as int);
                }
                let piece = from_range(&sv, from, k);
                proof {
                    texts_push(r@, piece);
                }
                r.push(piece);
                let next: usize = k + pv.len();
                assert(t0 + (seq![piece@] + pieces(s@, sep@, next as int)) =~= texts_view(r@)
                    + pieces(s@, sep@, next as int));
                from = next;
            },
            None => {
                let piece = from_range(&sv, from, sv.len());
                assert(piece@ =~= s@.skip(from as int));
                proof {
                    texts_push(r@, piece);
                }
                r.push(piece);
                assert(texts_view(r@) =~= t0 + seq![piece@]);
                return r;
            },
        }
    }
}

/// The byte at which `pat` first stands in `s`; 0 for an empty one, -1 for none.
pub open spec fn byte_position(s: Seq<char>, pat: Seq<char>) -> int {
    if pat.len() == 0 {
        0
    } else {
        match first_at(s, pat, 0) {
            Some(k) => vstd::utf8::encode_utf8(s.take(k)).len() as int,
            None => -1,
        }
    }
}

pub fn find(s: &str, pat: &str) -> (r: Option<usize>)
    ensures
        match r {
            Some(k) => byte_position(s@, pat@) == k,
            None => byte_position(s@, pat@) == -1,
        },
{
    let sv = to_chars(s);
    let pv = to_chars(pat);
    if pv.len() == 0 {
        return Some(0);
    }
    match find_from(&sv, &pv, 0) {
        Some(k) => {
            let head = from_range(&sv, 0, k);
            assert(head@ =~= s@.take(k as int));
            Some(head.as_str().as_bytes().len())
        },
        None => None,
    }
}

pub open spec fn ends_with_spec(s: Seq<char>, pat: Seq<char>) -> bool {
    pat.len() <= s.len() && stands_at(s, pat, s.len() - pat.len())
}

pub fn ends_with(s: &str, pat: &str) -> (r: bool)
    ensures
        r == ends_with_spec(s@, pat@),
{
    let sv = to_chars(s);
    let pv = to_chars(pat);
    pv.len() <= sv.len() && found_at(&sv, &pv, sv.len() - pv.len())
}

pub open spec fn is_blank(c: char) -> bool {
    c == ' ' || c == '\t' || c == '\n' || c == '\r'
}

/// How many blanks a text starts with.
pub open spec fn blanks(s: Seq<char>, i: int) -> int
    decreases s.len() - i,
{
    if 0 <= i < s.len() && is_blank(s[i]) {
        blanks(s, i + 1)
    } else {
        i
    }
}

pub open spec fn lstrip_spec(s: Seq<char>) -> Seq<char> {
    s.skip(blanks(s, 0))
}

pub open spec fn rstrip_spec(s: Seq<char>) -> Seq<char>
    decreases s.len(),
{
    if s.len() > 0 && is_blank(s.last()) {
        rstrip_spec(s.drop_last())
    } else {
        s
    }
}

fn blank(c: char) -> (r: bool)
    ensures
        r == is_blank(c),
{
    c == ' ' || c == '\t' || c == '\n' || c == '\r'
}

pub fn lstrip(s: &str) -> (r: String)
    ensures
        r@ == lstrip_spec(s@),
{
    let v = to_chars(s);
    let mut i: usize = 0;
    while i < v.len() && blank(v[i])
        invariant
            i <= v@.len(),
            blanks(v@, 0) == blanks(v@, i as int),
        decreases v@.len() - i,
    {
        i += 1;
    }
    let r = from_range(&v, i, v.len());
    assert(r@ =~= lstrip_spec(s@));
    r
}

pub fn rstrip(s: &str) -> (r: String)
    ensures
        r@ == rstrip_spec(s@),
{
    let v = to_chars(s);
    let mut i: usize = v.len();
    assert(v@.take(i as int) =~= v@);
    while i > 0 && blank(v[i - 1])
        invariant
            i <= v@.len(),
            rstrip_spec(v@) == rstrip_spec(v@.take(i as int)),
        decreases i,
    {
        assert(v@.take(i as int).drop_last() =~= v@.take(i - 1));
        i -= 1;
    }
    let r = from_range(&v, 0, i);
    assert(r@ =~= v@.take(i as int));
    r
}

pub open spec fn repeated(s: Seq<char>, n: nat) -> Seq<char>
    decreases n,
{
    if n == 0 {
        Seq::empty()
    } else {
        repeated(s, (n - 1) as nat) + s
    }
}

pub fn repeat(s: &str, n: u64) -> (r: String)
    ensures
        r@ == repeated(s@, n as nat),
{
    let mut r = String::new();
    assert(r@ =~= Seq::empty());
    for i in 0..n
        invariant
            r@ == repeated(s@, i as nat),
    {
        r.append(s);
    }
    r
}

/// A byte of a title: upper case at the start of a word, lower case inside.
pub open spec fn title_byte(b: u8, start: bool) -> u8 {
    if start {
        if 0x61 <= b <= 0x7a {
            (b - 32) as u8
        } else {
            b
        }
    } else if 0x41 <= b <= 0x5a {
        (b + 32) as u8
    } else {
        b
    }
}

pub open spec fn blank_byte(b: u8) -> bool {
    b == 0x20 || b == 0x09 || b == 0x0a || b == 0x0d
}

pub open spec fn title_spec(b: Seq<u8>) -> Seq<char> {
    Seq::new(b.len(), |i: int| title_byte(b[i], i == 0 || blank_byte(b[i - 1])) as char)
}

pub fn title(s: &str) -> (r: String)
    ensures
        r@ == title_spec(vstd::utf8::encode_utf8(s@)),
{
    let b = s.as_bytes();
    let mut r = String::new();
    let mut start = true;
    assert(r@ =~= title_spec(b@).take(0));
    for i in 0..b.len()
        invariant
            r@ == title_spec(b@).take(i as int),
            start == (i == 0 || blank_byte(b@[i - 1])),
    {
        let x: u8 = b[i];
        let c: u8 = if start {
            if 0x61 <= x && x <= 0x7a {
                x - 32
            } else {
                x
            }
        } else if 0x41 <= x && x <= 0x5a {
            x + 32
        } else {
            x
        };
        push_char(&mut r, c as char);
        start = x == 0x20 || x == 0x09 || x == 0x0a || x == 0x0d;
        assert(r@ =~= title_spec(b@).take(i + 1));
    }
    assert(title_spec(b@).take(b@.len() as int) =~= title_spec(b@));
    r
}

pub open spec fn is_digit(c: char) -> bool {
    '0' <= c && c <= '9'
}

/// The number that decimal digits stand for.
pub open spec fn digits_value(d: Seq<char>) -> nat
    decreases d.len(),
{
    if d.len() == 0 {
        0
    } else {
        (digits_value(d.drop_last()) * 10 + (d.last() as int - 48)) as nat
    }
}

pub open spec fn signed_text(s: Seq<char>) -> bool {
    s.len() > 0 && (s[0] == '-' || s[0] == '+')
}

pub open spec fn digits_of(s: Seq<char>) -> Seq<char> {
    if signed_text(s) {
        s.skip(1)
    } else {
        s
    }
}

pub open spec fn all_digits(d: Seq<char>) -> bool {
    forall|i: int| 0 <= i < d.len() ==> is_digit(#[trigger] d[i])
}

/// The integer that a text is: a sign or none, and digits, in the range of 64 bits.
pub open spec fn parsed_int(s: Seq<char>) -> Option<int> {
    let d = digits_of(s);
    let v = digits_value(d) as int;
    let n = if s.len() > 0 && s[0] == '-' {
        -v
    } else {
        v
    };
    if d.len() > 0 && all_digits(d) && i64::MIN <= n <= i64::MAX {
        Some(n)
    } else {
        None
    }
}

pub fn parse_int(s: &str) -> (r: Option<i64>)
    ensures
        match r {
            Some(n) => parsed_int(s@) == Some(n as int),
            None => parsed_int(s@) is None,
        },
{
    let v = to_chars(s);
    let signed = v.len() > 0 && (v[0] == '-' || v[0] == '+');
    let neg = v.len() > 0 && v[0] == '-';
    let from: usize = if signed {
        1
    } else {
        0
    };
    let ghost d = digits_of(s@);
    assert(d =~= v@.skip(from as int));
    if v.len() == from {
        return None;
    }
    let mut n: i128 = 0;
    let mut big = false;
    assert(d.take(0) =~= Seq::empty());
    for i in from..v.len()
        invariant
            v@ == s@,
            from <= v@.len(),
            d == v@.skip(from as int),
            d == digits_of(s@),
            0 <= n <= 0x8000_0000_0000_0000,
            !big ==> n == digits_value(d.take(i - from)),
            big ==> digits_value(d.take(i - from)) > 0x8000_0000_0000_0000,
            forall|j: int| 0 <= j < i - from ==> is_digit(#[trigger] d[j]),
    {
        let c: char = v[i];
        assert(c == d[i - from]);
        if !('0' <= c && c <= '9') {
            return None;
        }
        let ghost k = i - from;
        assert(d.take(k + 1).drop_last() =~= d.take(k));
        if !big {
            let m: i128 = n * 10 + (c as u32 as i128 - 48);
            if m > 0x8000_0000_0000_0000 {
                big = true;
            } else {
                n = m;
            }
        }
    }
    assert(d.take(d.len() as int) =~= d);
    if big {
        return None;
    }
    let m: i128 = if neg {
        -n
    } else {
        n
    };
    if m <= 0x7fff_ffff_ffff_ffff {
        Some(m as i64)
    } else {
        None
    }
}

/// A bound of a slice, counted from the end where it is negative, and kept in range.
pub open spec fn slice_index(i: int, n: int) -> int {
    let k = if i < 0 {
        i + n
    } else {
        i
    };
    if k < 0 {
        0
    } else if k > n {
        n
    } else {
        k
    }
}

/// Where a slice starts and ends.
pub open spec fn slice_range(lo: int, hi: int, n: int) -> (int, int) {
    let a = slice_index(lo, n);
    let z = slice_index(hi, n);
    if a >= z {
        (a, a)
    } else {
        (a, z)
    }
}

pub fn slice_bounds(lo: i64, hi: i64, len: usize) -> (r: (usize, usize))
    ensures
        (r.0 as int, r.1 as int) == slice_range(lo as int, hi as int, len as int),
        r.0 <= r.1 <= len,
{
    let n: i128 = len as i128;
    let l: i128 = if lo < 0 {
        lo as i128 + n
    } else {
        lo as i128
    };
    let a: i128 = if l < 0 {
        0
    } else if l > n {
        n
    } else {
        l
    };
    let h: i128 = if hi < 0 {
        hi as i128 + n
    } else {
        hi as i128
    };
    let z: i128 = if h < 0 {
        0
    } else if h > n {
        n
    } else {
        h
    };
    if a >= z {
        (a as usize, a as usize)
    } else {
        (a as usize, z as usize)
    }
}

/// A slice lies in the list, whatever its bounds.
pub proof fn slice_in_range(lo: int, hi: int, n: int)
    requires
        0 <= n,
    ensures
        ({
            let (a, z) = slice_range(lo, hi, n);
            0 <= a <= z <= n
        }),
{
}

/// What `str::to_uppercase` gives for a text.
pub uninterp spec fn upper_text(s: Seq<char>) -> Seq<char>;

/// Calls `str::to_uppercase`, the upper case by Unicode's tables. The result depends
/// on the text alone.
#[verifier::external_body]
pub(crate) fn upper(s: &str) -> (r: String)
    ensures
        r@ == upper_text(s@),
{
    s.to_uppercase()
}

/// What `str::to_lowercase` gives for a text.
pub uninterp spec fn lower_text(s: Seq<char>) -> Seq<char>;

/// Calls `str::to_lowercase`, the lower case by Unicode's tables. The result depends
/// on the text alone.
#[verifier::external_body]
pub(crate) fn lower(s: &str) -> (r: String)
    ensures
        r@ == lower_text(s@),
{
    s.to_lowercase()
}

/// What `String::from_utf8_lossy` gives for bytes.
pub uninterp spec fn lossy_text(b: Seq<u8>) -> Seq<char>;

/// Calls `String::from_utf8_lossy`: the text of the bytes, with a replacement
/// character for what is not UTF-8. The result depends on the bytes alone.
#[verifier::external_body]
pub(crate) fn lossy(b: &Vec<u8>) -> (r: String)
    ensures
        r@ == lossy_text(b@),
{
    String::from_utf8_lossy(b).into_owned()
}

/// A part of a text, by bytes.
pub open spec fn byte_slice(s: Seq<char>, lo: int, hi: int) -> Seq<char> {
    lossy_text(vstd::utf8::encode_utf8(s).subrange(lo, hi))
}

pub fn slice_bytes(s: &str, lo: Option<i64>, hi: Option<i64>) -> (r: String)
    ensures
        ({
            let n = vstd::utf8::encode_utf8(s@).len() as int;
            let (a, z) = slice_range(
                match lo {
                    Some(k) => k as int,
                    None => 0,
                },
                match hi {
                    Some(k) => k as int,
                    None => n,
                },
                n,
            );
            r@ == byte_slice(s@, a, z)
        }),
{
    let b = s.as_bytes();
    let n: usize = b.len();
    let (a, z) = bounds_of(lo, hi, n);
    let mut part: Vec<u8> = Vec::new();
    for i in a..z
        invariant
            a <= z <= b@.len(),
            part@ == b@.subrange(a as int, i as int),
    {
        part.push(b[i]);
        assert(part@ =~= b@.subrange(a as int, i + 1));
    }
    lossy(&part)
}

/// The range of a slice with bounds that may be left out.
pub fn bounds_of(lo: Option<i64>, hi: Option<i64>, n: usize) -> (r: (usize, usize))
    ensures
        r.0 <= r.1 <= n,
        (r.0 as int, r.1 as int) == slice_range(
            match lo {
                Some(k) => k as int,
                None => 0,
            },
            match hi {
                Some(k) => k as int,
                None => n as int,
            },
            n as int,
        ),
{
    let l: i64 = match lo {
        Some(k) => k,
        None => 0,
    };
    match hi {
        Some(h) => slice_bounds(l, h, n),
        None => {
            let (a, _) = slice_bounds(l, 0, n);
            (a, n)
        },
    }
}

} // verus!
