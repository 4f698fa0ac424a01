//! Running a text of instructions: a machine takes up the text line by line, and a line may
//! send it to a label. What the lines do is left to the machine; this module follows where
//! control goes.

use crate::text::stands_at;
use vstd::prelude::*;

verus! {

/// What a line does: how it changes the data, and the label that it goes to, if it goes to
/// one.
pub type Run<D> = spec_fn(Seq<char>, D) -> (D, Option<Seq<char>>);

/// The end of the line that a place is in.
pub open spec fn line_end(t: Seq<char>, p: int) -> int
    decreases t.len() - p,
{
    if p < 0 || p >= t.len() || t[p] == '\n' {
        p
    } else {
        line_end(t, p + 1)
    }
}

/// Whether a label is a local one of the assembler, which nothing else is written like.
pub open spec fn local(l: Seq<char>) -> bool {
    l.len() > 1 && l[0] == '.' && l[1] == 'L'
}

/// Whether a label is defined at a place: its line stands there.
pub open spec fn label_at(t: Seq<char>, l: Seq<char>, q: int) -> bool {
    &&& stands_at(t, l + ":\n"@, q)
    &&& q == 0 || t[q - 1] == '\n' || local(l)
}

/// Whether no label is defined twice.
pub open spec fn once(t: Seq<char>) -> bool {
    forall|l: Seq<char>, q: int, r: int|
        flat(l) && #[trigger] label_at(t, l, q) && #[trigger] label_at(t, l, r) ==> q == r
}

/// Where a label is defined.
pub open spec fn place_of_label(t: Seq<char>, l: Seq<char>) -> int {
    choose|q: int| label_at(t, l, q)
}

/// Whether a text has no line end in it.
pub open spec fn flat(s: Seq<char>) -> bool {
    forall|i: int| 0 <= i < s.len() ==> #[trigger] s[i] != '\n'
}

/// Whether a text ends where a line ends.
pub open spec fn lined(s: Seq<char>) -> bool {
    s.len() == 0 || s.last() == '\n'
}

/// One line run: the place and the data after it.
pub open spec fn line_run<D>(t: Seq<char>, m: Run<D>, p: int, d: D) -> (int, D) {
    let q = line_end(t, p);
    let (e, to) = m(t.subrange(p, q), d);
    (
        match to {
            Some(l) => place_of_label(t, l),
            None => q + 1,
        },
        e,
    )
}

pub open spec fn lines_run<D>(t: Seq<char>, m: Run<D>, p: int, d: D, n: nat) -> (int, D)
    decreases n,
{
    if n == 0 {
        (p, d)
    } else {
        let (q, e) = line_run(t, m, p, d);
        lines_run(t, m, q, e, (n - 1) as nat)
    }
}

/// Whether control, just behind the part `a` of the text and with the data `d`, comes to
/// just behind the part `b`, with the data `e`.
#[verifier::opaque]
pub open spec fn goes<D>(t: Seq<char>, m: Run<D>, a: Seq<char>, d: D, b: Seq<char>, e: D) -> bool {
    exists|n: nat| lines_run(t, m, a.len() as int, d, n) == (b.len() as int, e)
}

/// Whether control comes there with whatever data.
pub open spec fn comes<D>(t: Seq<char>, m: Run<D>, a: Seq<char>, d: D, b: Seq<char>) -> bool {
    exists|e: D| #[trigger] goes(t, m, a, d, b, e)
}

pub(crate) proof fn goes_nowhere<D>(t: Seq<char>, m: Run<D>, a: Seq<char>, d: D)
    ensures
        goes(t, m, a, d, a, d),
        comes(t, m, a, d, a),
{
    reveal(goes);
    assert(lines_run(t, m, a.len() as int, d, 0) == (a.len() as int, d));
}

proof fn lines_run_on<D>(t: Seq<char>, m: Run<D>, p: int, d: D, n: nat, k: nat)
    ensures
        ({
            let (q, e) = lines_run(t, m, p, d, n);
            lines_run(t, m, p, d, n + k) == lines_run(t, m, q, e, k)
        }),
    decreases n,
{
    if n > 0 {
        let (q, e) = line_run(t, m, p, d);
        lines_run_on(t, m, q, e, (n - 1) as nat, k);
    }
}

pub(crate) proof fn goes_on<D>(
    t: Seq<char>,
    m: Run<D>,
    a: Seq<char>,
    d: D,
    b: Seq<char>,
    e: D,
    c: Seq<char>,
    f: D
)
    requires
        goes(t, m, a, d, b, e),
        goes(t, m, b, e, c, f),
    ensures
        goes(t, m, a, d, c, f),
{
    reveal(goes);
    let n = choose|n: nat| lines_run(t, m, a.len() as int, d, n) == (b.len() as int, e);
    let k = choose|k: nat| lines_run(t, m, b.len() as int, e, k) == (c.len() as int, f);
    lines_run_on(t, m, a.len() as int, d, n, k);
}

pub(crate) proof fn comes_on<D>(
    t: Seq<char>,
    m: Run<D>,
    a: Seq<char>,
    d: D,
    b: Seq<char>,
    e: D,
    c: Seq<char>
)
    requires
        goes(t, m, a, d, b, e),
        comes(t, m, b, e, c),
    ensures
        comes(t, m, a, d, c),
{
    let f = choose|f: D| #[trigger] goes(t, m, b, e, c, f);
    goes_on(t, m, a, d, b, e, c, f);
}

proof fn line_ends_at(t: Seq<char>, p: int, q: int)
    requires
        0 <= p <= q < t.len(),
        forall|i: int| p <= i < q ==> t[i] != '\n',
        t[q] == '\n',
    ensures
        line_end(t, p) == q,
    decreases q - p,
{
    if p < q {
        line_ends_at(t, p + 1, q);
    }
}

/// The line behind a part of the text is run.
pub(crate) proof fn takes_line<D>(t: Seq<char>, m: Run<D>, a: Seq<char>, s: Seq<char>, d: D)
    requires
        (a + s + "\n"@).is_prefix_of(t),
        flat(s),
    ensures
        line_run(t, m, a.len() as int, d) == (
            match m(s, d).1 {
                Some(l) => place_of_label(t, l),
                None => (a + s + "\n"@).len() as int,
            },
            m(s, d).0
        ),
{
    reveal_strlit("\n");
    let w = a + s + "\n"@;
    let p = a.len() as int;
    let q = p + s.len();
    assert forall|i: int| p <= i < q implies t[i] != '\n' by {
        assert(t[i] == w[i]);
        assert(w[i] == s[i - p]);
    }
    assert(t[q] == w[q]);
    line_ends_at(t, p, q);
    assert(t.subrange(p, q) =~= s) by {
        assert forall|i: int| 0 <= i < s.len() implies t.subrange(p, q)[i] == s[i] by {
            assert(t[p + i] == w[p + i]);
        }
    }
}

/// A line that goes to no label is passed.
pub(crate) proof fn passes<D>(t: Seq<char>, m: Run<D>, a: Seq<char>, s: Seq<char>, d: D)
    requires
        (a + s + "\n"@).is_prefix_of(t),
        flat(s),
        m(s, d).1 is None,
    ensures
        goes(t, m, a, d, a + s + "\n"@, m(s, d).0),
{
    reveal(goes);
    takes_line(t, m, a, s, d);
    let (q, e) = line_run(t, m, a.len() as int, d);
    assert(lines_run(t, m, q, e, 0) == (q, e));
    assert(lines_run(t, m, a.len() as int, d, 1) == (q, e));
}

/// A line that goes to a label comes to where the label is defined.
pub(crate) proof fn jumps<D>(
    t: Seq<char>,
    m: Run<D>,
    a: Seq<char>,
    s: Seq<char>,
    d: D,
    l: Seq<char>,
    b: Seq<char>
)
    requires
        (a + s + "\n"@).is_prefix_of(t),
        flat(s),
        m(s, d).1 == Some(l),
        (b + l + ":\n"@).is_prefix_of(t),
        flat(l),
        lined(b) || local(l),
        once(t),
    ensures
        goes(t, m, a, d, b, m(s, d).0),
{
    reveal(goes);
    takes_line(t, m, a, s, d);
    label_placed(t, l, b);
    let (q, e) = line_run(t, m, a.len() as int, d);
    assert(lines_run(t, m, q, e, 0) == (q, e));
    assert(lines_run(t, m, a.len() as int, d, 1) == (q, e));
}

pub(crate) proof fn label_placed(t: Seq<char>, l: Seq<char>, b: Seq<char>)
    requires
        (b + l + ":\n"@).is_prefix_of(t),
        flat(l),
        lined(b) || local(l),
        once(t),
    ensures
        place_of_label(t, l) == b.len(),
{
    reveal_strlit(":\n");
    let w = b + l + ":\n"@;
    let k = l + ":\n"@;
    let q = b.len() as int;
    assert(t.subrange(q, q + k.len()) =~= k) by {
        assert forall|i: int| 0 <= i < k.len() implies t[q + i] == #[trigger] k[i] by {
            assert(t[q + i] == w[q + i]);
        }
    }
    assert(stands_at(t, k, q));
    if q > 0 && lined(b) {
        assert(t[q - 1] == w[q - 1]);
        assert(w[q - 1] == b.last());
    }
    assert(label_at(t, l, q));
}

/// A shorter part of the text is a part too.
pub(crate) proof fn part_of(t: Seq<char>, a: Seq<char>, b: Seq<char>)
    requires
        a.is_prefix_of(b),
        b.is_prefix_of(t),
    ensures
        a.is_prefix_of(t),
{
    assert forall|i: int| 0 <= i < a.len() implies a[i] == t[i] by {
        assert(a[i] == b[i]);
        assert(b[i] == t[i]);
    }
}

/// The end of a line follows its text.
pub(crate) proof fn line_joined(a: Seq<char>, s: Seq<char>)
    ensures
        a + s + ":\n"@ == a + (s + ":"@) + "\n"@,
{
    reveal_strlit(":\n");
    reveal_strlit(":");
    reveal_strlit("\n");
    assert(a + s + ":\n"@ =~= a + (s + ":"@) + "\n"@);
}

/// Texts joined in any grouping.
pub(crate) proof fn joined(a: Seq<char>, b: Seq<char>, c: Seq<char>)
    ensures
        a + b + c == a + (b + c),
{
    assert(a + b + c =~= a + (b + c));
}

} // verus!
