//! Text: decimal numerals, comparison and concatenation of strings.

use vstd::prelude::*;
use vstd::string::StringExecFns;

verus! {

pub open spec fn digit(n: int) -> char {
    (48 + n) as u8 as char
}

/// The decimal numeral of `n`.
pub open spec fn dec_nat(n: nat) -> Seq<char>
    decreases n,
{
    if n < 10 {
        seq![digit(n as int)]
    } else {
        dec_nat(n / 10).push(digit((n % 10) as int))
    }
}

/// The decimal numeral of `n`, with a minus sign in front of a negative one.
pub open spec fn dec(n: int) -> Seq<char> {
    if n < 0 {
        seq!['-'] + dec_nat((-n) as nat)
    } else {
        dec_nat(n as nat)
    }
}

/// `String::push`: the string grows by one character at its end.
#[verifier::external_body]
pub(crate) fn push_char(s: &mut String, c: char)
    ensures
        final(s)@ == old(s)@.push(c),
{
    s.push(c)
}

/// `==` on `str`: whether two strings hold the same characters.
#[verifier::external_body]
pub(crate) fn str_eq(a: &str, b: &str) -> (r: bool)
    ensures
        r == (a@ == b@),
{
    a == b
}

/// Appends the decimal numeral of `n`.
pub fn push_u64(s: &mut String, n: u64)
    ensures
        final(s)@ == old(s)@ + dec_nat(n as nat),
    decreases n,
{
    let ghost s0 = s@;
    if n >= 10 {
        push_u64(s, n / 10);
    }
    let c: u8 = 48 + (n % 10) as u8;
    push_char(s, c as char);
    assert(s@ =~= s0 + dec_nat(n as nat));
}

/// Appends the numeral of `n`, signed where it is negative.
pub fn push_i64(s: &mut String, n: i64)
    ensures
        final(s)@ == old(s)@ + dec(n as int),
{
    let ghost s0 = s@;
    if n < 0 {
        push_char(s, '-');
        push_u64(s, (-(n as i128)) as u64);
    } else {
        push_u64(s, n as u64);
    }
    assert(s@ =~= s0 + dec(n as int));
}

/// `a` followed by `b`.
pub fn concat(a: &str, b: &str) -> (r: String)
    ensures
        r@ == a@ + b@,
{
    let mut s = a.to_owned();
    s.append(b);
    s
}

/// The characters of a string.
pub fn to_chars(s: &str) -> (r: Vec<char>)
    ensures
        r@ == s@,
{
    let mut v: Vec<char> = Vec::new();
    for c in it: s.chars()
        invariant
            it.seq() == s@,
            v@ == s@.take(it.index() as int),
    {
        v.push(c);
        assert(v@ =~= s@.take(it.index() + 1));
    }
    assert(s@.take(s@.len() as int) =~= s@);
    v
}

/// Appends the characters from `i` to `j`.
pub fn push_range(s: &mut String, v: &Vec<char>, i: usize, j: usize)
    requires
        i <= j <= v@.len(),
    ensures
        final(s)@ == old(s)@ + v@.subrange(i as int, j as int),
{
    let ghost s0 = s@;
    assert(s@ =~= s0 + v@.subrange(i as int, i as int));
    for k in i..j
        invariant
            i <= j <= v@.len(),
            s@ == s0 + v@.subrange(i as int, k as int),
    {
        push_char(s, v[k]);
        assert(s@ =~= s0 + v@.subrange(i as int, k + 1));
    }
}

/// The characters from `i` to `j` as a string.
pub fn from_range(v: &Vec<char>, i: usize, j: usize) -> (r: String)
    requires
        i <= j <= v@.len(),
    ensures
        r@ == v@.subrange(i as int, j as int),
{
    let mut s = String::new();
    push_range(&mut s, v, i, j);
    assert(s@ =~= v@.subrange(i as int, j as int));
    s
}

/// Whether `pat` stands in `s` at place `i`.
pub open spec fn stands_at(s: Seq<char>, pat: Seq<char>, i: int) -> bool {
    0 <= i && i + pat.len() <= s.len() && s.subrange(i, i + pat.len()) == pat
}

pub open spec fn contains_text(s: Seq<char>, pat: Seq<char>) -> bool {
    exists|i: int| stands_at(s, pat, i)
}

pub fn found_at(s: &Vec<char>, pat: &Vec<char>, i: usize) -> (r: bool)
    requires
        i <= s@.len(),
    ensures
        r == stands_at(s@, pat@, i as int),
{
    let n: usize = s.len();
    if n - i < pat.len() {
        return false;
    }
    for k in 0..pat.len()
        invariant
            n == s@.len(),
            i + pat@.len() <= n,
            forall|q: int| 0 <= q < k ==> s@[i + q] == #[trigger] pat@[q],
    {
        if s[i + k] != pat[k] {
            assert(s@.subrange(i as int, i + pat@.len())[k as int] != pat@[k as int]);
            return false;
        }
    }
    assert(s@.subrange(i as int, i + pat@.len()) =~= pat@);
    true
}

/// Whether `pat` stands anywhere in `s`.
pub fn has_text(s: &str, pat: &str) -> (r: bool)
    ensures
        r == contains_text(s@, pat@),
{
    let sv = to_chars(s);
    let pv = to_chars(pat);
    let n: usize = sv.len();
    let mut i: usize = 0;
    while i < n
        invariant
            n == sv@.len(),
            i <= n,
            sv@ == s@,
            pv@ == pat@,
            forall|k: int| 0 <= k < i ==> !stands_at(s@, pat@, k),
        decreases n - i,
    {
        if found_at(&sv, &pv, i) {
            return true;
        }
        i += 1;
    }
    found_at(&sv, &pv, n)
}

pub open spec fn starts_with_spec(s: Seq<char>, pat: Seq<char>) -> bool {
    stands_at(s, pat, 0)
}

pub fn starts_with(s: &str, pat: &str) -> (r: bool)
    ensures
        r == starts_with_spec(s@, pat@),
{
    let sv = to_chars(s);
    let pv = to_chars(pat);
    found_at(&sv, &pv, 0)
}

/// `s` with every occurrence of `pat`, from the left, replaced.
pub open spec fn replace_spec(s: Seq<char>, pat: Seq<char>, rep: Seq<char>) -> Seq<char>
    decreases s.len(),
{
    if s.len() == 0 || pat.len() == 0 {
        s
    } else if stands_at(s, pat, 0) {
        rep + replace_spec(s.skip(pat.len() as int), pat, rep)
    } else {
        seq![s[0]] + replace_spec(s.skip(1), pat, rep)
    }
}

/// Replaces every occurrence of a text that is not empty.
pub fn replace_text(s: &str, pat: &str, rep: &str) -> (r: String)
    ensures
        r@ == replace_spec(s@, pat@, rep@),
{
    let sv = to_chars(s);
    let pv = to_chars(pat);
    if pv.len() == 0 {
        return s.to_owned();
    }
    let mut out = String::new();
    let mut i: usize = 0;
    assert(sv@.skip(0) =~= sv@);
    assert(out@ + replace_spec(sv@, pat@, rep@) =~= replace_spec(sv@, pat@, rep@));
    while i < sv.len()
        invariant
            i <= sv@.len(),
            sv@ == s@,
            pv@ == pat@,
            pv@.len() > 0,
            out@ + replace_spec(sv@.skip(i as int), pat@, rep@) == replace_spec(s@, pat@, rep@),
        decreases sv@.len() - i,
    {
        let ghost here = sv@.skip(i as int);
        let ghost o0 = out@;
        let hit = found_at(&sv, &pv, i);
        assert(stands_at(here, pat@, 0) == stands_at(sv@, pat@, i as int)) by {
            if here.len() >= pat@.len() {
                assert(here.subrange(0, pat@.len() as int) =~= sv@.subrange(
                    i as int,
                    i + pat@.len()
                ));
            }
        }
        if hit {
            out.append(rep);
            assert(here.skip(pat@.len() as int) =~= sv@.skip(i + pat@.len()));
            assert(o0 + (rep@ + replace_spec(sv@.skip(i + pat@.len()), pat@, rep@)) =~= (o0 + rep@)
                + replace_spec(sv@.skip(i + pat@.len()), pat@, rep@));
            i += pv.len();
        } else {
            push_char(&mut out, sv[i]);
            assert(here.skip(1) =~= sv@.skip(i + 1));
            assert(o0 + (seq![here[0]] + replace_spec(sv@.skip(i + 1), pat@, rep@)) =~= o0.push(
                here[0]
            ) + replace_spec(sv@.skip(i + 1), pat@, rep@));
            i += 1;
        }
    }
    assert(sv@.skip(i as int) =~= Seq::empty());
    assert(out@ + Seq::empty() =~= out@);
    out
}

/// White space: the characters of Unicode's `White_Space` property.
pub open spec fn is_white_spec(c: char) -> bool {
    ('\u{9}' <= c && c <= '\u{d}') || c == ' ' || c == '\u{85}' || c == '\u{a0}' || c == '\u{1680}'
        || ('\u{2000}' <= c && c <= '\u{200a}') || c == '\u{2028}' || c == '\u{2029}' || c
        == '\u{202f}' || c == '\u{205f}' || c == '\u{3000}'
}

pub fn is_white(c: char) -> (r: bool)
    ensures
        r == is_white_spec(c),
{
    ('\u{9}' <= c && c <= '\u{d}') || c == ' ' || c == '\u{85}' || c == '\u{a0}' || c == '\u{1680}'
        || ('\u{2000}' <= c && c <= '\u{200a}') || c == '\u{2028}' || c == '\u{2029}' || c
        == '\u{202f}' || c == '\u{205f}' || c == '\u{3000}'
}

/// `s` without the white space at its start.
pub open spec fn trim_start_spec(s: Seq<char>) -> Seq<char>
    decreases s.len(),
{
    if s.len() > 0 && is_white_spec(s[0]) {
        trim_start_spec(s.drop_first())
    } else {
        s
    }
}

/// `s` without the white space at its end.
pub open spec fn trim_end_spec(s: Seq<char>) -> Seq<char>
    decreases s.len(),
{
    if s.len() > 0 && is_white_spec(s.last()) {
        trim_end_spec(s.drop_last())
    } else {
        s
    }
}

pub open spec fn trim_spec(s: Seq<char>) -> Seq<char> {
    trim_end_spec(trim_start_spec(s))
}

/// The place behind the leading white space.
pub fn skip_white(v: &Vec<char>) -> (r: usize)
    ensures
        r <= v@.len(),
        v@.skip(r as int) == trim_start_spec(v@),
{
    let mut i: usize = 0;
    assert(v@.skip(0) =~= v@);
    while i < v.len() && is_white(v[i])
        invariant
            i <= v@.len(),
            trim_start_spec(v@.skip(i as int)) == trim_start_spec(v@),
        decreases v@.len() - i,
    {
        assert(v@.skip(i as int).drop_first() =~= v@.skip(i + 1));
        i += 1;
    }
    if i < v.len() {
        assert(v@.skip(i as int)[0] == v@[i as int]);
    }
    i
}

/// `s` without the white space at both ends.
pub fn trim(s: &str) -> (r: String)
    ensures
        r@ == trim_spec(s@),
{
    let v = to_chars(s);
    let i: usize = skip_white(&v);
    let mut j: usize = v.len();
    let ghost t = v@.skip(i as int);
    assert(t =~= v@.subrange(i as int, j as int));
    while j > i && is_white(v[j - 1])
        invariant
            i <= j <= v@.len(),
            t == trim_start_spec(v@),
            trim_end_spec(v@.subrange(i as int, j as int)) == trim_end_spec(t),
        decreases j,
    {
        assert(v@.subrange(i as int, j as int).drop_last() =~= v@.subrange(i as int, j - 1));
        j -= 1;
    }
    from_range(&v, i, j)
}

/// `s` without the white space at its end.
pub fn trim_end(s: &str) -> (r: String)
    ensures
        r@ == trim_end_spec(s@),
{
    let v = to_chars(s);
    let mut j: usize = v.len();
    assert(v@.take(j as int) =~= v@);
    while j > 0 && is_white(v[j - 1])
        invariant
            j <= v@.len(),
            trim_end_spec(v@.take(j as int)) == trim_end_spec(v@),
        decreases j,
    {
        assert(v@.take(j as int).drop_last() =~= v@.take(j - 1));
        j -= 1;
    }
    let r = from_range(&v, 0, j);
    assert(r@ =~= v@.take(j as int));
    r
}

/// A line without a carriage return at its end.
pub open spec fn strip_cr(s: Seq<char>) -> Seq<char> {
    if s.len() > 0 && s.last() == '\r' {
        s.drop_last()
    } else {
        s
    }
}

/// The lines of a text: `part` is what was read of the first. A line ends with a
/// line feed, before which a carriage return is dropped; behind the last line feed a
/// line stands only where there is text.
pub open spec fn lines_spec(s: Seq<char>, part: Seq<char>) -> Seq<Seq<char>>
    decreases s.len(),
{
    if s.len() == 0 {
        if part.len() == 0 {
            Seq::empty()
        } else {
            seq![part]
        }
    } else if s[0] == '\n' {
        seq![strip_cr(part)] + lines_spec(s.drop_first(), Seq::empty())
    } else {
        lines_spec(s.drop_first(), part.push(s[0]))
    }
}

pub open spec fn texts_view(s: Seq<String>) -> Seq<Seq<char>> {
    Seq::new(s.len(), |i: int| s[i]@)
}

/// The lines of a text.
pub fn lines(s: &str) -> (r: Vec<String>)
    ensures
        texts_view(r@) == lines_spec(s@, Seq::empty()),
{
    let v = to_chars(s);
    let mut out: Vec<String> = Vec::new();
    let mut start: usize = 0;
    assert(v@.skip(0) =~= v@);
    assert(v@.subrange(0, 0) =~= Seq::empty());
    assert(texts_view(out@) + lines_spec(v@, Seq::empty()) =~= lines_spec(v@, Seq::empty()));
    for i in 0..v.len()
        invariant
            v@ == s@,
            start <= i,
            texts_view(out@) + lines_spec(v@.skip(i as int), v@.subrange(start as int, i as int))
                == lines_spec(s@, Seq::empty()),
    {
        let ghost here = v@.skip(i as int);
        let ghost part = v@.subrange(start as int, i as int);
        let ghost o0 = out@;
        assert(here.drop_first() =~= v@.skip(i + 1));
        if v[i] == '\n' {
            let mut j: usize = i;
            if j > start && v[j - 1] == '\r' {
                j -= 1;
            }
            let line = from_range(&v, start, j);
            assert(line@ =~= strip_cr(part));
            out.push(line);
            assert(texts_view(out@) =~= texts_view(o0).push(strip_cr(part)));
            start = i + 1;
            assert(v@.subrange(i + 1, i + 1) =~= Seq::empty());
            assert(texts_view(o0) + (seq![strip_cr(part)] + lines_spec(
                here.drop_first(),
                Seq::empty()
            )) =~= texts_view(o0).push(strip_cr(part)) + lines_spec(
                here.drop_first(),
                Seq::empty(),
            ));
        } else {
            assert(v@.subrange(start as int, i + 1) =~= part.push(v@[i as int]));
        }
    }
    let n: usize = v.len();
    assert(v@.skip(n as int) =~= Seq::empty());
    let ghost part = v@.subrange(start as int, n as int);
    if start < n {
        let ghost o0 = out@;
        let line = from_range(&v, start, n);
        out.push(line);
        assert(texts_view(out@) =~= texts_view(o0) + seq![part]);
    } else {
        assert(part =~= Seq::empty());
        assert(texts_view(out@) + Seq::empty() =~= texts_view(out@));
    }
    out
}

/// Whether `a` comes before `b` in the order of code points.
pub open spec fn text_less(a: Seq<char>, b: Seq<char>) -> bool
    decreases a.len(),
{
    if b.len() == 0 {
        false
    } else if a.len() == 0 {
        true
    } else if a[0] != b[0] {
        a[0] < b[0]
    } else {
        text_less(a.drop_first(), b.drop_first())
    }
}

pub fn is_less(a: &str, b: &str) -> (r: bool)
    ensures
        r == text_less(a@, b@),
{
    let av = to_chars(a);
    let bv = to_chars(b);
    let mut i: usize = 0;
    assert(av@.skip(0) =~= av@);
    assert(bv@.skip(0) =~= bv@);
    while i < av.len() && i < bv.len()
        invariant
            av@ == a@,
            bv@ == b@,
            i <= av@.len(),
            i <= bv@.len(),
            text_less(av@.skip(i as int), bv@.skip(i as int)) == text_less(av@, bv@),
        decreases av@.len() - i,
    {
        assert(av@.skip(i as int).drop_first() =~= av@.skip(i + 1));
        assert(bv@.skip(i as int).drop_first() =~= bv@.skip(i + 1));
        assert(av@.skip(i as int)[0] == av@[i as int] && bv@.skip(i as int)[0] == bv@[i as int]);
        if av[i] != bv[i] {
            return av[i] < bv[i];
        }
        i += 1;
    }
    i < bv.len()
}

/// An ordered list with `x` in its place, unless it is there already.
pub open spec fn sorted_insert(s: Seq<Seq<char>>, x: Seq<char>) -> Seq<Seq<char>>
    decreases s.len(),
{
    if s.len() == 0 {
        seq![x]
    } else if s[0] == x {
        s
    } else if text_less(s[0], x) {
        seq![s[0]] + sorted_insert(s.drop_first(), x)
    } else {
        seq![x] + s
    }
}

proof fn sorted_insert_behind(s: Seq<Seq<char>>, x: Seq<char>, j: int)
    requires
        0 <= j <= s.len(),
        forall|i: int| 0 <= i < j ==> #[trigger] s[i] != x && text_less(s[i], x),
    ensures
        sorted_insert(s, x) == s.take(j) + sorted_insert(s.skip(j), x),
    decreases j,
{
    if j > 0 {
        let t = s.drop_first();
        assert forall|i: int| 0 <= i < j - 1 implies #[trigger] t[i] != x && text_less(t[i], x) by {
            assert(t[i] == s[i + 1]);
        }
        sorted_insert_behind(t, x, j - 1);
        assert(t.skip(j - 1) =~= s.skip(j));
        assert(s[0] != x && text_less(s[0], x));
        assert(seq![s[0]] + (t.take(j - 1) + sorted_insert(s.skip(j), x)) =~= s.take(j)
            + sorted_insert(s.skip(j), x));
    } else {
        assert(s.skip(0) =~= s);
        assert(s.take(0) + sorted_insert(s, x) =~= sorted_insert(s, x));
    }
}

/// Puts `x` into an ordered list.
pub fn insert_sorted(v: &mut Vec<String>, x: &str)
    ensures
        texts_view(final(v)@) == sorted_insert(texts_view(old(v)@), x@),
{
    let ghost s0 = texts_view(v@);
    let ghost v0 = v@;
    let mut j: usize = 0;
    while j < v.len() && !str_eq(v[j].as_str(), x) && is_less(v[j].as_str(), x)
        invariant
            v@ == v0,
            s0 == texts_view(v0),
            j <= v0.len(),
            forall|i: int| 0 <= i < j ==> #[trigger] s0[i] != x@ && text_less(s0[i], x@),
        decreases v0.len() - j,
    {
        assert(s0[j as int] == v0[j as int]@);
        j += 1;
    }
    proof {
        sorted_insert_behind(s0, x@, j as int);
    }
    let ghost rest = s0.skip(j as int);
    if j < v.len() && str_eq(v[j].as_str(), x) {
        assert(rest[0] == v0[j as int]@);
        assert(s0.take(j as int) + rest =~= s0);
    } else {
        if j < v.len() {
            assert(rest[0] == v0[j as int]@);
        } else {
            assert(rest =~= Seq::empty());
        }
        v.insert(j, x.to_owned());
        assert(sorted_insert(rest, x@) =~= seq![x@] + rest);
        assert(texts_view(v@) =~= s0.take(j as int) + (seq![x@] + rest));
    }
}

} // verus!
