//! Points in time as dates of the Gregorian calendar.

use crate::text::{dec_nat, push_char, push_u64};
use vstd::arithmetic::div_mod::{lemma_hoist_over_denominator, lemma_mod_multiples_vanish};
use vstd::prelude::*;
use vstd::string::StringExecFns;

verus! {

pub open spec fn leap(y: int) -> bool {
    y % 4 == 0 && (y % 100 != 0 || y % 400 == 0)
}

pub open spec fn month_days(y: int, m: int) -> int {
    if m == 2 {
        if leap(y) {
            29
        } else {
            28
        }
    } else if m == 4 || m == 6 || m == 9 || m == 11 {
        30
    } else {
        31
    }
}

/// The days of a year before a month.
pub open spec fn month_start(y: int, m: int) -> int
    decreases m,
{
    if m <= 1 {
        0
    } else {
        month_start(y, m - 1) + month_days(y, m - 1)
    }
}

/// The days from the first day of the year 0 to the first day of a year.
pub open spec fn year_start(y: int) -> int {
    365 * y + (y + 3) / 4 - (y + 99) / 100 + (y + 399) / 400
}

/// A year has 365 days, and a leap year one more.
pub proof fn year_length(y: int)
    ensures
        year_start(y + 1) - year_start(y) == 365 + (if leap(y) {
            1int
        } else {
            0
        }),
        month_start(y, 13) == year_start(y + 1) - year_start(y),
{
    reveal_with_fuel(month_start, 14);
}

/// The days from the first of January 1970 to a day.
pub open spec fn day_number(y: int, m: int, d: int) -> int {
    year_start(y) + month_start(y, m) + d - 1 - 719_528
}

pub open spec fn is_date(y: int, m: int, d: int) -> bool {
    1 <= m <= 12 && 1 <= d <= month_days(y, m)
}

/// The date of a day, counted from the first of January 1970.
pub struct Date {
    pub year: i64,
    pub month: i64,
    pub day: i64,
}

/// The year, counted from March, that a day of a cycle of 400 years lies in.
proof fn year_of_cycle(doe: int, yoe: int)
    requires
        0 <= doe < 146_097,
        yoe == (doe - doe / 1460 + doe / 36524 - doe / 146096) / 365,
    ensures
        0 <= yoe < 400,
        0 <= doe - (365 * yoe + yoe / 4 - yoe / 100) < 365 + (if leap(yoe + 1) {
            1int
        } else {
            0
        }),
{
    let c = doe / 36524;
    let r = doe % 36524;
    if c == 4 {
        assert(doe == 146096);
    } else {
        let q = doe / 1460;
        assert(0 <= c <= 3);
        let a = doe - q + c;
        assert(yoe == a / 365);
    }
}

pub fn date_of(days: i64) -> (r: Date)
    requires
        -0x1000_0000_0000_0000 <= days <= 0x1000_0000_0000_0000,
    ensures
        is_date(r.year as int, r.month as int, r.day as int),
        day_number(r.year as int, r.month as int, r.day as int) == days,
{
    let z: i128 = days as i128 + 719_468;
    let shifted: u128 = (z + 146_097 * 0x1000_0000_0000_0000) as u128;
    let era: i128 = (shifted / 146_097) as i128 - 0x1000_0000_0000_0000;
    let doe: i64 = (shifted % 146_097) as i64;
    assert(z == era * 146_097 + doe && 0 <= doe < 146_097);
    let yoe: i64 = (doe - doe / 1460 + doe / 36524 - doe / 146096) / 365;
    proof {
        year_of_cycle(doe as int, yoe as int);
    }
    let doy: i64 = doe - (365 * yoe + yoe / 4 - yoe / 100);
    let mp: i64 = (5 * doy + 2) / 153;
    let d: i64 = doy - (153 * mp + 2) / 5 + 1;
    let m: i64 = if mp < 10 {
        mp + 3
    } else {
        mp - 9
    };
    let y: i128 = yoe as i128 + era * 400 + (if m <= 2 {
        1i128
    } else {
        0i128
    });
    let year: i64 = y as i64;
    proof {
        day_of_cycle(era as int, yoe as int, doy as int, mp as int, d as int, m as int, y as int);
    }
    Date { year, month: m, day: d }
}

/// The days of a year before each month.
pub proof fn month_table(y: int, f: int)
    requires
        f == (if leap(y) {
            1int
        } else {
            0
        }),
    ensures
        month_start(y, 1) == 0,
        month_start(y, 2) == 31,
        month_start(y, 3) == 59 + f,
        month_start(y, 4) == 90 + f,
        month_start(y, 5) == 120 + f,
        month_start(y, 6) == 151 + f,
        month_start(y, 7) == 181 + f,
        month_start(y, 8) == 212 + f,
        month_start(y, 9) == 243 + f,
        month_start(y, 10) == 273 + f,
        month_start(y, 11) == 304 + f,
        month_start(y, 12) == 334 + f,
{
    reveal_with_fuel(month_start, 13);
}

/// A year from March on: where its months start, and how the day and the month follow
/// from the day of the year.
proof fn month_of_year(doy: int, mp: int)
    requires
        0 <= doy <= 365,
        mp == (5 * doy + 2) / 153,
    ensures
        0 <= mp <= 11,
        mp == 0 ==> 0 <= doy < 31,
        mp == 1 ==> 31 <= doy < 61,
        mp == 2 ==> 61 <= doy < 92,
        mp == 3 ==> 92 <= doy < 122,
        mp == 4 ==> 122 <= doy < 153,
        mp == 5 ==> 153 <= doy < 184,
        mp == 6 ==> 184 <= doy < 214,
        mp == 7 ==> 214 <= doy < 245,
        mp == 8 ==> 245 <= doy < 275,
        mp == 9 ==> 275 <= doy < 306,
        mp == 10 ==> 306 <= doy < 337,
        mp == 11 ==> 337 <= doy,
{
}

/// From March on a day is 59 days after its day of the year, or 60 in a leap year.
proof fn after_february(y: int, f: int, doy: int, mp: int, d: int)
    requires
        f == (if leap(y) {
            1int
        } else {
            0
        }),
        0 <= doy <= 365,
        mp == (5 * doy + 2) / 153,
        mp < 10,
        d == doy - (153 * mp + 2) / 5 + 1,
    ensures
        0 <= mp,
        1 <= d <= month_days(y, mp + 3),
        month_start(y, mp + 3) + d - 1 == doy + 59 + f,
{
    month_of_year(doy, mp);
    month_table(y, f);
}

/// January and February end the year that starts in March.
proof fn before_march(y: int, f: int, doy: int, mp: int, d: int)
    requires
        f == (if leap(y) {
            1int
        } else {
            0
        }),
        0 <= doy < 365 + f,
        mp == (5 * doy + 2) / 153,
        mp >= 10,
        d == doy - (153 * mp + 2) / 5 + 1,
    ensures
        mp <= 11,
        1 <= d <= month_days(y, mp - 9),
        month_start(y, mp - 9) + d - 1 == doy - 306,
{
    month_of_year(doy, mp);
    month_table(y, f);
}

/// The calendar repeats after 400 years.
proof fn cycles(era: int, yoe: int)
    requires
        0 <= yoe < 400,
    ensures
        leap(yoe + era * 400 + 1) == leap(yoe + 1),
        year_start(yoe + era * 400 + 1) == era * 146_097 + 365 * yoe + 365 + yoe / 4 - yoe / 100
            + 1,
{
    let y = yoe + era * 400 + 1;
    assert(y + 3 == yoe + 4 * (100 * era + 1));
    assert(y + 99 == yoe + 100 * (4 * era + 1));
    assert(y + 399 == yoe + 400 * (era + 1));
    lemma_hoist_over_denominator(yoe, 100 * era + 1, 4);
    lemma_hoist_over_denominator(yoe, 4 * era + 1, 100);
    lemma_hoist_over_denominator(yoe, era + 1, 400);
    lemma_mod_multiples_vanish(100 * era, yoe + 1, 4);
    lemma_mod_multiples_vanish(4 * era, yoe + 1, 100);
    lemma_mod_multiples_vanish(era, yoe + 1, 400);
}

/// A day of a cycle by its date.
proof fn day_of_cycle(era: int, yoe: int, doy: int, mp: int, d: int, m: int, y: int)
    requires
        0 <= yoe < 400,
        0 <= doy < 365 + (if leap(yoe + 1) {
            1int
        } else {
            0
        }),
        mp == (5 * doy + 2) / 153,
        d == doy - (153 * mp + 2) / 5 + 1,
        m == (if mp < 10 {
            mp + 3
        } else {
            mp - 9
        }),
        y == yoe + era * 400 + (if m <= 2 {
            1int
        } else {
            0
        }),
    ensures
        is_date(y, m, d),
        day_number(y, m, d) == era * 146_097 + 365 * yoe + yoe / 4 - yoe / 100 + doy - 719_468,
{
    let b = yoe + era * 400;
    cycles(era, yoe);
    if mp < 10 {
        let f = if leap(b) {
            1int
        } else {
            0
        };
        after_february(b, f, doy, mp, d);
        year_length(b);
        assert(y == b);
    } else {
        let g = if leap(b + 1) {
            1int
        } else {
            0
        };
        before_march(b + 1, g, doy, mp, d);
        assert(y == b + 1);
    }
}

pub(crate) proof fn years_grow(a: int, b: int)
    requires
        a <= b,
    ensures
        year_start(a) <= year_start(b),
    decreases b - a,
{
    if a < b {
        years_grow(a, b - 1);
        year_length(b - 1);
    }
}

/// The days of a month lie in its year.
pub proof fn in_year(y: int, m: int, d: int)
    requires
        is_date(y, m, d),
    ensures
        0 <= month_start(y, m) + d - 1 < year_start(y + 1) - year_start(y),
{
    year_length(y);
    month_table(
        y,
        if leap(y) {
            1int
        } else {
            0
        },
    );
}

/// A day has one date.
pub proof fn date_unique(y: int, m: int, d: int, y2: int, m2: int, d2: int)
    requires
        is_date(y, m, d),
        is_date(y2, m2, d2),
        day_number(y, m, d) == day_number(y2, m2, d2),
    ensures
        y == y2 && m == m2 && d == d2,
{
    in_year(y, m, d);
    in_year(y2, m2, d2);
    if y < y2 {
        years_grow(y + 1, y2);
    }
    if y2 < y {
        years_grow(y2 + 1, y);
    }
    month_table(
        y,
        if leap(y) {
            1int
        } else {
            0
        },
    );
}

pub open spec fn zeros(n: int) -> Seq<char>
    decreases n,
{
    if n <= 0 {
        Seq::empty()
    } else {
        zeros(n - 1).push('0')
    }
}

/// A number in at least `w` characters, with zeros in front.
pub open spec fn padded(n: int, w: int) -> Seq<char> {
    if n < 0 {
        "-"@ + zeros(w - 1 - dec_nat((-n) as nat).len()) + dec_nat((-n) as nat)
    } else {
        zeros(w - dec_nat(n as nat).len()) + dec_nat(n as nat)
    }
}

fn push_padded(s: &mut String, n: i64, w: usize)
    requires
        1 <= w <= 20,
    ensures
        final(s)@ == old(s)@ + padded(n as int, w as int),
{
    let ghost s0 = s@;
    let m: u64 = if n < 0 {
        (-(n as i128)) as u64
    } else {
        n as u64
    };
    let mut t = String::new();
    push_u64(&mut t, m);
    assert(t@ =~= dec_nat(m as nat));
    let len: usize = t.as_str().unicode_len();
    let room: usize = if n < 0 {
        s.append("-");
        w - 1
    } else {
        w
    };
    let ghost s1 = s@;
    let k: usize = if len < room {
        room - len
    } else {
        0
    };
    assert(s1 + zeros(0) =~= s1);
    for i in 0..k
        invariant
            s@ == s1 + zeros(i as int),
    {
        push_char(s, '0');
        assert(s@ =~= s1 + zeros(i + 1));
    }
    s.append(t.as_str());
    assert(zeros(room - len) =~= zeros(k as int));
    assert(s@ =~= s0 + padded(n as int, w as int));
}

/// A point in time: a date and the seconds of its day.
pub open spec fn time_text(y: int, m: int, d: int, secs: int) -> Seq<char> {
    padded(y, 4) + "-"@ + padded(m, 2) + "-"@ + padded(d, 2) + " "@ + padded(secs / 3600, 2) + ":"@
        + padded(secs % 3600 / 60, 2) + ":"@ + padded(secs % 60, 2)
}

/// Whether a text is that of the second `n` since the start of 1970.
pub open spec fn is_time_text(t: Seq<char>, n: int) -> bool {
    exists|y: int, m: int, d: int|
        is_date(y, m, d) && day_number(y, m, d) == n / 86_400 && t == #[trigger] time_text(
            y,
            m,
            d,
            n % 86_400,
        )
}

/// A point in time, given by the seconds since the start of 1970, as date and time.
pub fn fmt_epoch_utc(epoch_secs: i64) -> (r: String)
    ensures
        is_time_text(r@, epoch_secs as int),
{
    let shifted: u128 = (epoch_secs as i128 + 86_400 * 0x1_0000_0000_0000) as u128;
    let days: i64 = ((shifted / 86_400) as i128 - 0x1_0000_0000_0000) as i64;
    let secs: i64 = (shifted % 86_400) as i64;
    assert(days == epoch_secs as int / 86_400 && secs == epoch_secs as int % 86_400);
    let date = date_of(days);
    let mut s = String::new();
    push_padded(&mut s, date.year, 4);
    s.append("-");
    push_padded(&mut s, date.month, 2);
    s.append("-");
    push_padded(&mut s, date.day, 2);
    s.append(" ");
    push_padded(&mut s, secs / 3600, 2);
    s.append(":");
    push_padded(&mut s, secs % 3600 / 60, 2);
    s.append(":");
    push_padded(&mut s, secs % 60, 2);
    assert(s@ =~= time_text(
        date.year as int,
        date.month as int,
        date.day as int,
        epoch_secs as int % 86_400
    ));
    s
}

} // verus!
