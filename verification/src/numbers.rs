//! The integer functions of the built-in modules: divisors, factorials and random
//! numbers.

use vstd::arithmetic::div_mod::{lemma_fundamental_div_mod, lemma_mod_multiples_vanish};
use vstd::prelude::*;

verus! {

pub open spec fn divides(d: int, n: int) -> bool {
    exists|k: int| n == #[trigger] (d * k)
}

/// The greatest common divisor by Euclid's rule.
pub open spec fn gcd_spec(x: nat, y: nat) -> nat
    decreases y,
{
    if y == 0 {
        x
    } else {
        gcd_spec(y, x % y)
    }
}

/// What `gcd` gives divides both numbers, and every common divisor divides it.
pub proof fn gcd_is_greatest(x: nat, y: nat)
    ensures
        divides(gcd_spec(x, y) as int, x as int),
        divides(gcd_spec(x, y) as int, y as int),
        forall|d: int|
            divides(d, x as int) && divides(d, y as int) ==> #[trigger] divides(
                d,
                gcd_spec(x, y) as int,
            ),
    decreases y,
{
    let g = gcd_spec(x, y) as int;
    if y == 0 {
        assert(x as int == g * 1);
        assert(0 == g * 0);
    } else {
        let r = x % y;
        gcd_is_greatest(y, r);
        let q = x as int / y as int;
        lemma_fundamental_div_mod(x as int, y as int);
        let a = choose|k: int| y as int == #[trigger] (g * k);
        let b = choose|k: int| r as int == #[trigger] (g * k);
        assert(x as int == g * (a * q + b)) by (nonlinear_arith)
            requires
                x as int == y as int * q + r as int,
                y as int == g * a,
                r as int == g * b,
        ;
        assert forall|d: int| divides(d, x as int) && divides(d, y as int) implies #[trigger] divides(
            d,
            g,
        ) by {
            let m = choose|k: int| x as int == #[trigger] (d * k);
            let n = choose|k: int| y as int == #[trigger] (d * k);
            assert(r as int == d * (m - n * q)) by (nonlinear_arith)
                requires
                    x as int == y as int * q + r as int,
                    x as int == d * m,
                    y as int == d * n,
            ;
            assert(divides(d, r as int));
        }
    }
}

/// The absolute value of an integer.
pub open spec fn size(n: int) -> nat {
    if n < 0 {
        (-n) as nat
    } else {
        n as nat
    }
}

fn abs_of(n: i64) -> (r: u64)
    ensures
        r == size(n as int),
{
    if n < 0 {
        (-(n as i128)) as u64
    } else {
        n as u64
    }
}

/// The greatest common divisor of two integers, whatever their signs.
pub fn gcd(a: i64, b: i64) -> (r: u64)
    ensures
        r == gcd_spec(size(a as int), size(b as int)),
{
    let mut x: u64 = abs_of(a);
    let mut y: u64 = abs_of(b);
    while y != 0
        invariant
            gcd_spec(x as nat, y as nat) == gcd_spec(size(a as int), size(b as int)),
        decreases y,
    {
        let t: u64 = x % y;
        x = y;
        y = t;
    }
    x
}

/// A number in two's complement: what is left of it in 64 bits.
pub open spec fn wrap64(n: int) -> int {
    (n + 0x8000_0000_0000_0000) % 0x1_0000_0000_0000_0000 - 0x8000_0000_0000_0000
}

fn wrapped(n: u128) -> (r: i64)
    requires
        n <= 0xffff_ffff_ffff_ffff_0000_0000_0000_0000,
    ensures
        r == wrap64(n as int),
{
    let low: u128 = (n + 0x8000_0000_0000_0000) % 0x1_0000_0000_0000_0000;
    (low as i128 - 0x8000_0000_0000_0000) as i64
}

/// The least common multiple of two integers, in 64 bits; 0 where one of them is 0.
pub open spec fn lcm_spec(x: nat, y: nat) -> int {
    if x == 0 || y == 0 {
        0
    } else {
        wrap64(x as int / gcd_spec(x, y) as int * y as int)
    }
}

pub fn lcm(a: i64, b: i64) -> (r: i64)
    ensures
        r == lcm_spec(size(a as int), size(b as int)),
{
    let x: u64 = abs_of(a);
    let y: u64 = abs_of(b);
    if x == 0 || y == 0 {
        return 0;
    }
    let g: u64 = gcd(a, b);
    proof {
        gcd_is_greatest(x as nat, y as nat);
        let k = choose|k: int| x as int == #[trigger] (g as int * k);
        assert(g != 0) by (nonlinear_arith)
            requires
                x as int == g as int * k,
                x != 0,
        ;
    }
    let q: u64 = x / g;
    assert(
        q as int * y as int <= 0x8000_0000_0000_0000 * 0x8000_0000_0000_0000
    ) by (nonlinear_arith)
        requires
            0 <= q <= 0x8000_0000_0000_0000,
            0 <= y <= 0x8000_0000_0000_0000,
    ;
    wrapped(q as u128 * y as u128)
}

/// The factorial of `n`, in 64 bits at every step.
pub open spec fn factorial_spec(n: int) -> int
    decreases n,
{
    if n < 0 {
        0
    } else if n <= 1 {
        1
    } else {
        wrap64(factorial_spec(n - 1) * n)
    }
}

/// The factorial; 0 below 0.
pub fn factorial(n: i64) -> (r: i64)
    ensures
        r == factorial_spec(n as int),
{
    if n < 0 {
        return 0;
    }
    let mut r: i64 = 1;
    let mut i: i64 = 1;
    while i < n
        invariant
            1 <= i,
            i <= n || i == 1,
            r == factorial_spec(i as int),
            n >= 0,
        decreases n - i,
    {
        i += 1;
        r = times64(r, i);
    }
    assert(n <= 1 ==> factorial_spec(n as int) == 1);
    r
}

fn times64(a: i64, b: i64) -> (r: i64)
    ensures
        r == wrap64(a as int * b as int),
{
    assert(-0x4000_0000_0000_0000_0000_0000_0000_0000 <= a as int * b as int
        <= 0x4000_0000_0000_0000_0000_0000_0000_0000) by (nonlinear_arith)
        requires
            -0x8000_0000_0000_0000 <= a < 0x8000_0000_0000_0000,
            -0x8000_0000_0000_0000 <= b < 0x8000_0000_0000_0000,
    ;
    let m: i128 = a as i128 * b as i128;
    if m >= 0 {
        wrapped(m as u128)
    } else {
        let k: i128 = 0x4000_0000_0000_0000_0000_0000_0000_0000;
        proof {
            lemma_mod_multiples_vanish(
                0x4000_0000_0000_0000int,
                m as int + 0x8000_0000_0000_0000,
                0x1_0000_0000_0000_0000,
            );
            assert(k as int == 0x1_0000_0000_0000_0000int * 0x4000_0000_0000_0000int);
        }
        wrapped((m + k) as u128)
    }
}

/// By how much the state of the generator grows.
pub const RNG_STEP: u64 = 0x9E37_79B9_7F4A_7C15;

pub open spec fn add64(a: u64, b: u64) -> u64 {
    ((a as int + b as int) % 0x1_0000_0000_0000_0000) as u64
}

pub open spec fn mul64(a: u64, b: u64) -> u64 {
    ((a as int * b as int) % 0x1_0000_0000_0000_0000) as u64
}

/// The number that a state of the generator gives: SplitMix64.
pub open spec fn rng_mix(s: u64) -> u64 {
    let a = mul64(s ^ (s >> 30), 0xBF58_476D_1CE4_E5B9);
    let b = mul64(a ^ (a >> 27), 0x94D0_49BB_1331_11EB);
    b ^ (b >> 31)
}

fn mul_low(a: u64, b: u64) -> (r: u64)
    ensures
        r == mul64(a, b),
{
    assert(
        a as int * b as int <= 0xffff_ffff_ffff_ffff * 0xffff_ffff_ffff_ffff
    ) by (nonlinear_arith)
        requires
            0 <= a <= 0xffff_ffff_ffff_ffff,
            0 <= b <= 0xffff_ffff_ffff_ffff,
    ;
    assert(a as int * b as int >= 0) by (nonlinear_arith)
        requires
            a >= 0,
            b >= 0,
    ;
    (a as u128 * b as u128 % 0x1_0000_0000_0000_0000) as u64
}

/// A generator of random numbers. One seed gives one sequence.
#[derive(Debug)]
pub struct Rng {
    pub state: u64,
}

impl Rng {
    pub fn new() -> (r: Rng)
        ensures
            r.state == RNG_STEP,
    {
        Rng { state: RNG_STEP }
    }

    /// Starts the sequence of a seed.
    pub fn seed(&mut self, seed: u64)
        ensures
            final(self).state == seed,
    {
        self.state = seed;
    }

    /// The next number of the sequence.
    pub fn next(&mut self) -> (r: u64)
        ensures
            final(self).state == add64(old(self).state, RNG_STEP),
            r == rng_mix(final(self).state),
    {
        self.state = ((self.state as u128 + RNG_STEP as u128) % 0x1_0000_0000_0000_0000) as u64;
        let s: u64 = self.state;
        let a: u64 = mul_low(s ^ (s >> 30), 0xBF58_476D_1CE4_E5B9);
        let b: u64 = mul_low(a ^ (a >> 27), 0x94D0_49BB_1331_11EB);
        b ^ (b >> 31)
    }

    /// A number from `lo` to `hi`; `lo`, with no number taken, where that is empty.
    pub fn between(&mut self, lo: i64, hi: i64) -> (r: i64)
        ensures
            hi < lo ==> r == lo && final(self).state == old(self).state,
            lo <= hi ==> lo <= r <= hi,
            lo <= hi ==> final(self).state == add64(old(self).state, RNG_STEP),
            lo <= hi ==> r as int == lo + rng_mix(final(self).state) as int % (hi - lo + 1),
    {
        if hi < lo {
            return lo;
        }
        let span: u128 = (hi as i128 - lo as i128 + 1) as u128;
        let n: u64 = self.next();
        (lo as i128 + (n as u128 % span) as i128) as i64
    }

    /// The upper 53 bits of a number: a fraction of `2^53`.
    pub fn fraction(&mut self) -> (r: u64)
        ensures
            final(self).state == add64(old(self).state, RNG_STEP),
            r == rng_mix(final(self).state) >> 11,
            r < 0x20_0000_0000_0000,
    {
        let n: u64 = self.next();
        assert(n >> 11 < 0x20_0000_0000_0000) by (bit_vector);
        n >> 11
    }
}

} // verus!
