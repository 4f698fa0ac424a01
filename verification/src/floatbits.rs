//! Floating-point numbers by their bits: how two of them compare, and which of them
//! are whole. A number is held as the 64 bits of the IEEE 754 double format.

use vstd::arithmetic::power2::{
    lemma2_to64, lemma2_to64_rest, lemma_pow2_pos, lemma_pow2_strictly_increases,
    lemma_pow2_unfold, pow2,
};
use vstd::prelude::*;

verus! {

pub const SIGN: u64 = 0x8000_0000_0000_0000;

pub const FRACTION: u64 = 0x10_0000_0000_0000;

/// The number without its sign.
pub open spec fn magnitude(b: u64) -> u64 {
    b % SIGN
}

pub open spec fn exponent(b: u64) -> int {
    magnitude(b) as int / FRACTION as int
}

pub open spec fn fraction(b: u64) -> int {
    magnitude(b) as int % FRACTION as int
}

pub open spec fn is_nan(b: u64) -> bool {
    magnitude(b) > 0x7ff0_0000_0000_0000
}

/// The place of a number in the order of the numbers; both zeros are at 0.
pub open spec fn place(b: u64) -> int {
    if b >= SIGN {
        -(magnitude(b) as int)
    } else {
        magnitude(b) as int
    }
}

pub open spec fn float_eq(a: u64, b: u64) -> bool {
    !is_nan(a) && !is_nan(b) && place(a) == place(b)
}

pub open spec fn float_lt(a: u64, b: u64) -> bool {
    !is_nan(a) && !is_nan(b) && place(a) < place(b)
}

/// The absolute value of a whole number, if it is one and at most `limit`.
pub open spec fn whole_magnitude(b: u64, limit: int) -> Option<int> {
    let e = exponent(b);
    let s = fraction(b) + FRACTION;
    if magnitude(b) == 0 {
        Some(0)
    } else if e < 1023 || e > 1085 {
        None
    } else if e <= 1075 {
        let unit = pow2((1075 - e) as nat) as int;
        if s % unit == 0 {
            Some(s / unit)
        } else {
            None
        }
    } else {
        let v = s * pow2((e - 1075) as nat);
        if v <= limit {
            Some(v)
        } else {
            None
        }
    }
}

/// Past this a float is not taken for an integer.
pub const WHOLE_LIMIT: u64 = 9_200_000_000_000_000_000;

/// The integer that a float equals, if it equals one within the limit.
pub open spec fn whole(b: u64) -> Option<int> {
    match whole_magnitude(b, WHOLE_LIMIT as int) {
        Some(v) => Some(
            if b >= SIGN {
                -v
            } else {
                v
            },
        ),
        None => None,
    }
}

pub open spec fn negated(b: u64) -> u64 {
    if b >= SIGN {
        (b - SIGN) as u64
    } else {
        (b + SIGN) as u64
    }
}

/// Negating twice gives the number back, and mirrors its place.
pub proof fn negated_twice(b: u64)
    ensures
        negated(negated(b)) == b,
        place(negated(b)) == -place(b),
{
}

/// The numbers other than NaN are in a total order.
pub proof fn float_order(a: u64, b: u64, c: u64)
    requires
        !is_nan(a),
        !is_nan(b),
        !is_nan(c),
    ensures
        float_lt(a, b) || float_eq(a, b) || float_lt(b, a),
        !(float_lt(a, b) && float_lt(b, a)),
        float_lt(a, b) && float_lt(b, c) ==> float_lt(a, c),
{
}

pub fn nan(b: u64) -> (r: bool)
    ensures
        r == is_nan(b),
{
    b % SIGN > 0x7ff0_0000_0000_0000
}

fn place_of(b: u64) -> (r: i128)
    ensures
        r == place(b),
{
    if b >= SIGN {
        -((b % SIGN) as i128)
    } else {
        (b % SIGN) as i128
    }
}

pub fn equal(a: u64, b: u64) -> (r: bool)
    ensures
        r == float_eq(a, b),
{
    !nan(a) && !nan(b) && place_of(a) == place_of(b)
}

pub fn less(a: u64, b: u64) -> (r: bool)
    ensures
        r == float_lt(a, b),
{
    !nan(a) && !nan(b) && place_of(a) < place_of(b)
}

pub fn negate(b: u64) -> (r: u64)
    ensures
        r == negated(b),
{
    if b >= SIGN {
        b - SIGN
    } else {
        b + SIGN
    }
}

fn power(k: u64) -> (r: u64)
    requires
        k <= 52,
    ensures
        r == pow2(k as nat),
{
    let mut r: u64 = 1;
    proof {
        lemma2_to64();
        lemma2_to64_rest();
    }
    for i in 0..k
        invariant
            k <= 52,
            r == pow2(i as nat),
            r <= pow2(52),
            pow2(52) == 0x10_0000_0000_0000,
    {
        proof {
            lemma_pow2_unfold((i + 1) as nat);
            if i + 1 < 52 {
                lemma_pow2_strictly_increases((i + 1) as nat, 52);
            }
        }
        r = r * 2;
    }
    r
}

pub fn to_whole(b: u64) -> (r: Option<i64>)
    ensures
        match r {
            Some(n) => whole(b) == Some(n as int),
            None => whole(b) is None,
        },
{
    let m: u64 = b % SIGN;
    if m == 0 {
        return Some(0);
    }
    let e: u64 = m / FRACTION;
    let s: u64 = m % FRACTION + FRACTION;
    if e < 1023 || e > 1085 {
        return None;
    }
    let v: u64 = if e <= 1075 {
        let unit: u64 = power(1075 - e);
        proof {
            lemma_pow2_pos((1075 - e) as nat);
        }
        if s % unit != 0 {
            return None;
        }
        assert(s / unit <= s) by (nonlinear_arith)
            requires
                unit >= 1,
        ;
        s / unit
    } else {
        let unit: u64 = power(e - 1075);
        proof {
            lemma2_to64();
            if e - 1075 < 10 {
                lemma_pow2_strictly_increases((e - 1075) as nat, 10);
            }
        }
        assert(s * unit < 0x20_0000_0000_0000 * 1025) by (nonlinear_arith)
            requires
                s < 0x20_0000_0000_0000,
                unit <= 1024,
        ;
        let v: u64 = s * unit;
        if v > WHOLE_LIMIT {
            return None;
        }
        v
    };
    if b >= SIGN {
        Some(-(v as i64))
    } else {
        Some(v as i64)
    }
}

} // verus!
