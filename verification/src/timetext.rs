//! The texts of points in time are in the order of time.

use crate::calendar::{
    date_unique, day_number, in_year, is_date, is_time_text, leap, month_table, padded, time_text,
    years_grow, zeros,
};
use crate::text::{dec_nat, digit};
use vstd::prelude::*;

verus! {

/// The order of texts, by the first character in which they differ.
pub open spec fn before(s: Seq<char>, t: Seq<char>) -> bool {
    exists|k: int|
        0 <= k < s.len() && k < t.len() && #[trigger] s[k] < t[k] && s.take(k) == t.take(k)
}

proof fn before_inside(p: Seq<char>, s: Seq<char>, t: Seq<char>, x: Seq<char>, y: Seq<char>)
    requires
        before(s, t),
    ensures
        before(p + s + x, p + t + y),
{
    let k = choose|k: int|
        0 <= k < s.len() && k < t.len() && #[trigger] s[k] < t[k] && s.take(k) == t.take(k);
    let (a, b) = (p + s + x, p + t + y);
    let j = p.len() + k;
    assert(a[j] == s[k] && b[j] == t[k]);
    assert(a.take(j) =~= p + s.take(k));
    assert(b.take(j) =~= p + t.take(k));
}

#[verifier::opaque]
spec fn two(n: int) -> Seq<char> {
    padded(n, 2)
}

#[verifier::opaque]
spec fn four(n: int) -> Seq<char> {
    padded(n, 4)
}

proof fn two_digits(n: int)
    requires
        0 <= n < 100,
    ensures
        two(n) == seq![digit(n / 10), digit(n % 10)],
{
    reveal(two);
    reveal_with_fuel(dec_nat, 3);
    reveal_with_fuel(zeros, 3);
    assert(two(n) =~= seq![digit(n / 10), digit(n % 10)]);
}

proof fn four_digits(n: int)
    requires
        0 <= n < 10_000,
    ensures
        four(n) == seq![digit(n / 1000), digit(n / 100 % 10), digit(n / 10 % 10), digit(n % 10)],
{
    reveal(four);
    reveal_with_fuel(dec_nat, 5);
    reveal_with_fuel(zeros, 5);
    assert(four(n) =~= seq![
        digit(n / 1000),
        digit(n / 100 % 10),
        digit(n / 10 % 10),
        digit(n % 10),
    ]);
}

proof fn two_before(m: int, n: int)
    requires
        0 <= m < n < 100,
    ensures
        before(two(m), two(n)),
{
    two_digits(m);
    two_digits(n);
    let (s, t) = (two(m), two(n));
    if m / 10 < n / 10 {
        assert(s[0] < t[0]);
        assert(s.take(0) =~= t.take(0));
    } else {
        assert(s[1] < t[1]);
        assert(s.take(1) =~= t.take(1));
    }
}

proof fn digits_before(
    a: int,
    b: int,
    c: int,
    d: int,
    a2: int,
    b2: int,
    c2: int,
    d2: int,
)
    requires
        0 <= a <= 9 && 0 <= b <= 9 && 0 <= c <= 9 && 0 <= d <= 9,
        0 <= a2 <= 9 && 0 <= b2 <= 9 && 0 <= c2 <= 9 && 0 <= d2 <= 9,
        1000 * a + 100 * b + 10 * c + d < 1000 * a2 + 100 * b2 + 10 * c2 + d2,
    ensures
        before(
            seq![digit(a), digit(b), digit(c), digit(d)],
            seq![digit(a2), digit(b2), digit(c2), digit(d2)],
        ),
{
    let s = seq![digit(a), digit(b), digit(c), digit(d)];
    let t = seq![digit(a2), digit(b2), digit(c2), digit(d2)];
    if a < a2 {
        assert(s[0] < t[0]);
        assert(s.take(0) =~= t.take(0));
    } else if b < b2 {
        assert(s[1] < t[1]);
        assert(s.take(1) =~= t.take(1));
    } else if c < c2 {
        assert(s[2] < t[2]);
        assert(s.take(2) =~= t.take(2));
    } else {
        assert(s[3] < t[3]);
        assert(s.take(3) =~= t.take(3));
    }
}

proof fn in_digits(n: int)
    requires
        0 <= n < 10_000,
    ensures
        n == 1000 * (n / 1000) + 100 * (n / 100 % 10) + 10 * (n / 10 % 10) + n % 10,
        0 <= n / 1000 <= 9,
{
    let a = n / 10;
    let b = a / 10;
    assert(n == 10 * a + n % 10);
    assert(a == 10 * b + a % 10);
    assert(n / 100 == b);
    assert(b == 10 * (b / 10) + b % 10);
    assert(n / 1000 == b / 10);
}

proof fn four_before(m: int, n: int)
    requires
        0 <= m < n < 10_000,
    ensures
        before(four(m), four(n)),
{
    four_digits(m);
    four_digits(n);
    in_digits(m);
    in_digits(n);
    digits_before(
        m / 1000,
        m / 100 % 10,
        m / 10 % 10,
        m % 10,
        n / 1000,
        n / 100 % 10,
        n / 10 % 10,
        n % 10,
    );
}

/// A later day has a later date.
proof fn dates_grow(y: int, m: int, d: int, y2: int, m2: int, d2: int)
    requires
        is_date(y, m, d),
        is_date(y2, m2, d2),
        day_number(y, m, d) < day_number(y2, m2, d2),
    ensures
        y <= y2,
        y == y2 ==> m <= m2,
        y == y2 && m == m2 ==> d < d2,
{
    in_year(y, m, d);
    in_year(y2, m2, d2);
    if y2 < y {
        years_grow(y2 + 1, y);
    }
    month_table(
        y,
        if leap(y) {
            1int
        } else {
            0
        },
    );
}

proof fn year_in_range(y: int, m: int, d: int)
    requires
        is_date(y, m, d),
        -719_528 <= day_number(y, m, d) <= 2_932_896,
    ensures
        0 <= y < 10_000,
{
    in_year(y, m, d);
    if y < 0 {
        years_grow(y + 1, 0);
    }
    if y >= 10_000 {
        years_grow(10_000, y);
    }
}

proof fn marks()
    ensures
        "-"@ =~= seq!['-'],
        " "@ =~= seq![' '],
        ":"@ =~= seq![':'],
{
    reveal_strlit("-");
    reveal_strlit(" ");
    reveal_strlit(":");
}

proof fn is_numeral(n: int)
    requires
        0 <= n <= 9,
    ensures
        '0' <= digit(n) <= '9',
{
}

proof fn day_shape(y: int, m: int, d: int)
    requires
        0 <= y < 10_000 && 0 <= m < 100 && 0 <= d < 100,
    ensures
        ({
            let t = day_text(y, m, d);
            &&& t.len() == 11
            &&& t[4] == '-' && t[7] == '-' && t[10] == ' '
            &&& forall|i: int|
                0 <= i < 10 && i != 4 && i != 7 ==> '0' <= #[trigger] t[i] <= '9'
        }),
{
    marks();
    four_digits(y);
    two_digits(m);
    two_digits(d);
    in_digits(y);
    let t = day_text(y, m, d);
    let (a, b, c, e) = (y / 1000, y / 100 % 10, y / 10 % 10, y % 10);
    let (f, g, h, k) = (m / 10, m % 10, d / 10, d % 10);
    is_numeral(a);
    is_numeral(b);
    is_numeral(c);
    is_numeral(e);
    is_numeral(f);
    is_numeral(g);
    is_numeral(h);
    is_numeral(k);
    assert(t =~= seq![
        digit(a),
        digit(b),
        digit(c),
        digit(e),
        '-',
        digit(f),
        digit(g),
        '-',
        digit(h),
        digit(k),
        ' ',
    ]);
}

proof fn clock_shape(h: int, i: int, x: int)
    requires
        0 <= h < 100 && 0 <= i < 100 && 0 <= x < 100,
    ensures
        ({
            let t = clock_text(h, i, x);
            &&& t.len() == 8
            &&& t[2] == ':' && t[5] == ':'
            &&& forall|i: int| 0 <= i < 8 && i != 2 && i != 5 ==> '0' <= #[trigger] t[i] <= '9'
        }),
{
    marks();
    two_digits(h);
    two_digits(i);
    two_digits(x);
    let t = clock_text(h, i, x);
    let (a, b, c, d, e, f) = (h / 10, h % 10, i / 10, i % 10, x / 10, x % 10);
    is_numeral(a);
    is_numeral(b);
    is_numeral(c);
    is_numeral(d);
    is_numeral(e);
    is_numeral(f);
    assert(t =~= seq![digit(a), digit(b), ':', digit(c), digit(d), ':', digit(e), digit(f)]);
}

/// A text of the years 0000 to 9999 has 19 characters, of the shape `dddd-dd-dd dd:dd:dd`.
proof fn time_parts(y: int, m: int, d: int, h: int, i: int, x: int, t: Seq<char>)
    requires
        0 <= y < 10_000 && 0 <= m < 100 && 0 <= d < 100,
        0 <= h < 100 && 0 <= i < 100 && 0 <= x < 100,
        t == day_text(y, m, d) + clock_text(h, i, x),
    ensures
        t.len() == 19,
        t[4] == '-' && t[7] == '-' && t[10] == ' ' && t[13] == ':' && t[16] == ':',
        forall|i: int|
            0 <= i < 19 && i != 4 && i != 7 && i != 10 && i != 13 && i != 16 ==> '0'
                <= #[trigger] t[i] <= '9',
{
    day_shape(y, m, d);
    clock_shape(h, i, x);
    let (a, b) = (day_text(y, m, d), clock_text(h, i, x));
    assert forall|i: int|
        0 <= i < 19 && i != 4 && i != 7 && i != 10 && i != 13 && i != 16 implies '0'
        <= #[trigger] t[i] <= '9' by {
        if i < 11 {
            assert(t[i] == a[i]);
        } else {
            assert(t[i] == b[i - 11]);
        }
    }
    assert(t[13] == b[2] && t[16] == b[5]);
}

proof fn in_two_parts(y: int, m: int, d: int, secs: int)
    ensures
        time_text(y, m, d, secs) == day_text(y, m, d) + clock_text(
            secs / 3600,
            secs % 3600 / 60,
            secs % 60,
        ),
{
    reveal(two);
    reveal(four);
    assert(time_text(y, m, d, secs) =~= day_text(y, m, d) + clock_text(
        secs / 3600,
        secs % 3600 / 60,
        secs % 60,
    ));
}

proof fn in_a_day(u: int)
    requires
        0 <= u < 86_400,
    ensures
        0 <= u / 3600 < 24,
        0 <= u % 3600 / 60 < 60,
        0 <= u % 60 < 60,
{
}

proof fn small_date(y: int, m: int, d: int)
    requires
        is_date(y, m, d),
    ensures
        1 <= m <= 12,
        1 <= d <= 31,
{
}

spec fn day_text(y: int, m: int, d: int) -> Seq<char> {
    four(y) + "-"@ + two(m) + "-"@ + two(d) + " "@
}

spec fn clock_text(h: int, i: int, x: int) -> Seq<char> {
    two(h) + ":"@ + two(i) + ":"@ + two(x)
}

proof fn day_before(y: int, m: int, d: int, y2: int, m2: int, d2: int)
    requires
        0 <= y < 10_000 && 0 <= m < 100 && 0 <= d < 100,
        0 <= y2 < 10_000 && 0 <= m2 < 100 && 0 <= d2 < 100,
        y < y2 || (y == y2 && (m < m2 || (m == m2 && d < d2))),
    ensures
        before(day_text(y, m, d), day_text(y2, m2, d2)),
{
    let none = Seq::<char>::empty();
    let (s, t) = (day_text(y, m, d), day_text(y2, m2, d2));
    let (r1, q1) = ("-"@ + two(d) + " "@, "-"@ + two(d2) + " "@);
    if y < y2 {
        four_before(y, y2);
        let (r, q) = ("-"@ + two(m) + r1, "-"@ + two(m2) + q1);
        before_inside(none, four(y), four(y2), r, q);
        assert(s =~= none + four(y) + r);
        assert(t =~= none + four(y2) + q);
    } else if m < m2 {
        let p = four(y) + "-"@;
        two_before(m, m2);
        before_inside(p, two(m), two(m2), r1, q1);
        assert(s =~= p + two(m) + r1);
        assert(t =~= p + two(m2) + q1);
    } else {
        let p = four(y) + "-"@ + two(m) + "-"@;
        two_before(d, d2);
        before_inside(p, two(d), two(d2), " "@, " "@);
        assert(s =~= p + two(d) + " "@);
        assert(t =~= p + two(d2) + " "@);
    }
}

proof fn clock_before(h: int, i: int, x: int, h2: int, i2: int, x2: int)
    requires
        0 <= h < 100 && 0 <= i < 100 && 0 <= x < 100,
        0 <= h2 < 100 && 0 <= i2 < 100 && 0 <= x2 < 100,
        h < h2 || (h == h2 && (i < i2 || (i == i2 && x < x2))),
    ensures
        before(clock_text(h, i, x), clock_text(h2, i2, x2)),
{
    let none = Seq::<char>::empty();
    let (s, t) = (clock_text(h, i, x), clock_text(h2, i2, x2));
    let (r1, q1) = (":"@ + two(x), ":"@ + two(x2));
    if h < h2 {
        two_before(h, h2);
        let (r, q) = (":"@ + two(i) + r1, ":"@ + two(i2) + q1);
        before_inside(none, two(h), two(h2), r, q);
        assert(s =~= none + two(h) + r);
        assert(t =~= none + two(h2) + q);
    } else if i < i2 {
        let p = two(h) + ":"@;
        two_before(i, i2);
        before_inside(p, two(i), two(i2), r1, q1);
        assert(s =~= p + two(i) + r1);
        assert(t =~= p + two(i2) + q1);
    } else {
        let p = two(h) + ":"@ + two(i) + ":"@;
        two_before(x, x2);
        before_inside(p, two(x), two(x2), none, none);
        assert(s =~= p + two(x) + none);
        assert(t =~= p + two(x2) + none);
    }
}

proof fn clock_order(u: int, v: int)
    requires
        0 <= u < v < 86_400,
    ensures
        u / 3600 < v / 3600 || (u / 3600 == v / 3600 && (u % 3600 / 60 < v % 3600 / 60 || (u % 3600
            / 60 == v % 3600 / 60 && u % 60 < v % 60))),
{
}

/// The texts of the seconds of the years 0000 to 9999 have 19 characters, of the shape
/// `dddd-dd-dd dd:dd:dd`, and are in the order of the seconds.
pub proof fn texts_grow_with_time(s: Seq<char>, a: int, t: Seq<char>, b: int)
    requires
        -62_167_219_200 <= a < b <= 253_402_300_799,
        is_time_text(s, a),
        is_time_text(t, b),
    ensures
        before(s, t),
        s.len() == 19,
        s[4] == '-' && s[7] == '-' && s[10] == ' ' && s[13] == ':' && s[16] == ':',
        forall|i: int|
            0 <= i < 19 && i != 4 && i != 7 && i != 10 && i != 13 && i != 16 ==> '0'
                <= #[trigger] s[i] <= '9',
        t.len() == 19,
{
    let (y, m, d) = choose|y: int, m: int, d: int|
        is_date(y, m, d) && day_number(y, m, d) == a / 86_400 && s == #[trigger] time_text(
            y,
            m,
            d,
            a % 86_400,
        );
    let (y2, m2, d2) = choose|y: int, m: int, d: int|
        is_date(y, m, d) && day_number(y, m, d) == b / 86_400 && t == #[trigger] time_text(
            y,
            m,
            d,
            b % 86_400,
        );
    year_in_range(y, m, d);
    year_in_range(y2, m2, d2);
    small_date(y, m, d);
    small_date(y2, m2, d2);
    let (u, v) = (a % 86_400, b % 86_400);
    in_a_day(u);
    in_a_day(v);
    let (h, h2) = (u / 3600, v / 3600);
    let (i, i2) = (u % 3600 / 60, v % 3600 / 60);
    let (x, x2) = (u % 60, v % 60);
    in_two_parts(y, m, d, u);
    in_two_parts(y2, m2, d2, v);
    time_parts(y, m, d, h, i, x, s);
    time_parts(y2, m2, d2, h2, i2, x2, t);
    if a / 86_400 < b / 86_400 {
        dates_grow(y, m, d, y2, m2, d2);
    } else {
        date_unique(y, m, d, y2, m2, d2);
        assert(u < v);
    }
    let none = Seq::<char>::empty();
    let (day, day2) = (day_text(y, m, d), day_text(y2, m2, d2));
    let (clock, clock2) = (clock_text(h, i, x), clock_text(h2, i2, x2));
    assert(s =~= none + day + clock);
    assert(t =~= none + day2 + clock2);
    if a / 86_400 < b / 86_400 {
        day_before(y, m, d, y2, m2, d2);
        before_inside(none, day, day2, clock, clock2);
    } else {
        clock_order(u, v);
        clock_before(h, i, x, h2, i2, x2);
        before_inside(day, clock, clock2, none, none);
        assert(s =~= day + clock + none);
        assert(t =~= day + clock2 + none);
    }
}

} // verus!
