//! Division by a constant without a division: shifts for powers of two, a product
//! with a precomputed number for all other divisors.

use vstd::arithmetic::power2::{
    lemma2_to64, lemma2_to64_rest, lemma_pow2_adds, lemma_pow2_pos, lemma_pow2_strictly_increases,
    pow2,
};
use vstd::prelude::*;

verus! {

/// The quotient of a machine division: rounded towards zero.
pub open spec fn quotient(n: int, d: int) -> int
    recommends
        d != 0,
{
    if n >= 0 {
        if d > 0 {
            n / d
        } else {
            -(n / (-d))
        }
    } else {
        if d > 0 {
            -((-n) / d)
        } else {
            (-n) / (-d)
        }
    }
}

/// The remainder of a machine division: it has the sign of the dividend.
pub open spec fn remainder(n: int, d: int) -> int
    recommends
        d != 0,
{
    n - d * quotient(n, d)
}

/// The greatest number below `2^63` that leaves the remainder `d - 1`.
pub open spec fn critical(d: int) -> int {
    0x8000_0000_0000_0000 - 1 - 0x8000_0000_0000_0000int % d
}

/// How far `2^p` lies below the next multiple of `d`.
pub open spec fn excess(p: nat, d: int) -> int {
    d - pow2(p) as int % d
}

/// Whether the multiple of `d` behind `2^p` is near enough to divide by.
pub open spec fn near_enough(p: nat, d: int) -> bool {
    pow2(p) > critical(d) * excess(p, d)
}

/// `p` is the least exponent from 64 on that is near enough.
pub open spec fn magic_exponent(d: int, p: nat) -> bool {
    &&& 64 <= p
    &&& near_enough(p, d)
    &&& forall|q: nat| 64 <= q < p ==> !#[trigger] near_enough(q, d)
}

/// The bits of a word read without a sign.
pub open spec fn unsigned(m: i64) -> int {
    if m < 0 {
        m + 0x1_0000_0000_0000_0000
    } else {
        m as int
    }
}

proof fn powers_of_two()
    ensures
        pow2(63) == 0x8000_0000_0000_0000,
        pow2(64) == 0x1_0000_0000_0000_0000,
        pow2(126) == 0x4000_0000_0000_0000_0000_0000_0000_0000,
{
    lemma2_to64();
    lemma2_to64_rest();
    lemma_pow2_adds(63, 63);
    assert(0x8000_0000_0000_0000int * 0x8000_0000_0000_0000int
        == 0x4000_0000_0000_0000_0000_0000_0000_0000int);
}

/// The critical number is at least half the range, and at least `d - 1`.
proof fn critical_bounds(d: int)
    requires
        2 <= d <= 0x8000_0000_0000_0000,
    ensures
        0x4000_0000_0000_0000 - 1 <= critical(d) < 0x8000_0000_0000_0000,
        critical(d) >= d - 1,
        critical(d) % d == d - 1,
        critical(d) * d >= 0x8000_0000_0000_0000,
{
    let t: int = 0x8000_0000_0000_0000;
    let r = t % d;
    let q = t / d;
    vstd::arithmetic::div_mod::lemma_fundamental_div_mod(t, d);
    assert(t == d * q + r);
    assert(q >= 1) by {
        if q < 1 {
            assert(d * q <= 0) by (nonlinear_arith)
                requires
                    q < 1,
                    d >= 2,
            ;
        }
    }
    let nc = critical(d);
    assert(nc == d * (q - 1) + (d - 1)) by (nonlinear_arith)
        requires
            nc == t - 1 - r,
            t == d * q + r,
    ;
    vstd::arithmetic::div_mod::lemma_fundamental_div_mod_converse(nc, d, q - 1, d - 1);
    assert(d * (q - 1) >= 0) by (nonlinear_arith)
        requires
            q >= 1,
            d >= 2,
    ;
    if q == 1 {
        assert(d * q == d) by (nonlinear_arith)
            requires
                q == 1,
        ;
        assert(nc == d - 1);
        assert(2 * d > t);
        assert(nc * d >= t) by (nonlinear_arith)
            requires
                nc == d - 1,
                2 * d > t,
                t == 0x8000_0000_0000_0000,
        ;
    } else {
        assert(nc >= 0x4000_0000_0000_0000 - 1) by {
            assert(d * q >= 2 * d) by (nonlinear_arith)
                requires
                    q >= 2,
                    d >= 2,
            ;
        }
        if d == 2 {
            assert(r == 0);
            assert(nc == t - 1);
            assert(nc * d >= t) by (nonlinear_arith)
                requires
                    nc == t - 1,
                    d == 2,
                    t == 0x8000_0000_0000_0000,
            ;
        } else {
            assert(nc * d >= t) by (nonlinear_arith)
                requires
                    nc >= 0x4000_0000_0000_0000 - 1,
                    d >= 3,
                    t == 0x8000_0000_0000_0000,
            ;
        }
    }
}

/// The multiplier and the shift for the division by `d_abs`: the quotient of the
/// multiple of `d_abs` behind `2^p`, and `p - 64`, for the least `p` that will do.
pub fn magic_signed(d_abs: u64) -> (r: (i64, u32))
    requires
        2 <= d_abs <= 0x8000_0000_0000_0000,
    ensures
        magic_exponent(d_abs as int, (64 + r.1) as nat),
        unsigned(r.0) * d_abs == pow2((64 + r.1) as nat) + excess(
            (64 + r.1) as nat,
            d_abs as int,
        ),
        r.1 < 64,
{
    let two63: u64 = 0x8000_0000_0000_0000;
    let ad: u64 = d_abs;
    let ghost d = d_abs as int;
    proof {
        powers_of_two();
        critical_bounds(d);
    }
    let anc: u64 = two63 - 1 - two63 % ad;
    let ghost nc = anc as int;
    let mut p: u32 = 63;
    let mut q1: u64 = two63 / anc;
    let mut r1: u64 = two63 % anc;
    let mut q2: u64 = two63 / ad;
    let mut r2: u64 = two63 % ad;
    proof {
        vstd::arithmetic::div_mod::lemma_fundamental_div_mod(two63 as int, nc);
        vstd::arithmetic::div_mod::lemma_fundamental_div_mod(two63 as int, d);
    }
    loop
        invariant_except_break
            63 <= p < 126,
            pow2(p as nat) == nc * q1 + r1,
            r1 < nc,
            pow2(p as nat) == d * q2 + r2,
            r2 < d,
            pow2(p as nat) <= nc * d,
            forall|q: nat| 64 <= q <= p ==> !#[trigger] near_enough(q, d),
        invariant
            2 <= ad <= 0x8000_0000_0000_0000,
            d == ad,
            nc == anc,
            nc == critical(d),
            0x4000_0000_0000_0000 - 1 <= nc < 0x8000_0000_0000_0000,
        ensures
            64 <= p <= 126,
            magic_exponent(d, p as nat),
            pow2(p as nat) == d * q2 + r2,
            r2 < d,
            q2 < 0xffff_ffff_ffff_ffff,
        decreases nc * d - pow2(p as nat),
    {
        let ghost p0 = p as nat;
        let ghost pw = pow2(p0) as int;
        proof {
            powers_of_two();
            assert(nc * d < 0x4000_0000_0000_0000_0000_0000_0000_0000) by (nonlinear_arith)
                requires
                    0 <= nc < 0x8000_0000_0000_0000,
                    0 < d <= 0x8000_0000_0000_0000,
            ;
            lemma_pow2_adds(p0, 1);
            lemma_pow2_adds(125, 1);
            lemma2_to64();
            lemma_pow2_pos(p0);
            if p0 < 125 {
                lemma_pow2_strictly_increases(p0, 125);
            }
            assert(pw <= 0x2000_0000_0000_0000_0000_0000_0000_0000);
            assert(q1 < 0x8000_0000_0000_0000) by {
                if q1 >= 0x8000_0000_0000_0000 {
                    assert(d == 0x8000_0000_0000_0000) by (nonlinear_arith)
                        requires
                            pw == nc * q1 + r1,
                            pw <= nc * d,
                            r1 >= 0,
                            nc > 0,
                            q1 >= 0x8000_0000_0000_0000,
                            d <= 0x8000_0000_0000_0000,
                    ;
                    assert(nc == 0x7fff_ffff_ffff_ffff);
                    assert(pw >= 0x7fff_ffff_ffff_ffff * 0x8000_0000_0000_0000) by (nonlinear_arith)
                        requires
                            pw == nc * q1 + r1,
                            nc == 0x7fff_ffff_ffff_ffff,
                            r1 >= 0,
                            q1 >= 0x8000_0000_0000_0000,
                    ;
                }
            }
            assert(q1 <= d) by (nonlinear_arith)
                requires
                    pw == nc * q1 + r1,
                    pw <= nc * d,
                    r1 >= 0,
                    nc > 0,
            ;
            assert(q2 <= nc) by (nonlinear_arith)
                requires
                    pw == d * q2 + r2,
                    pw <= nc * d,
                    r2 >= 0,
                    d > 0,
            ;
        }
        p = p + 1;
        let ghost a1 = q1 as int;
        let ghost b1 = r1 as int;
        let ghost a2 = q2 as int;
        let ghost b2 = r2 as int;
        q1 = q1.wrapping_mul(2);
        r1 = r1.wrapping_mul(2);
        if r1 >= anc {
            q1 = q1.wrapping_add(1);
            r1 = r1.wrapping_sub(anc);
        }
        q2 = q2.wrapping_mul(2);
        if ad == 0x8000_0000_0000_0000 {
            // `r2` stays 0 here
            proof {
                powers_of_two();
                if p0 > 63 {
                    lemma_pow2_adds(63, (p0 - 63) as nat);
                } else {
                    assert(pow2(0) == 1) by {
                        lemma2_to64();
                    }
                }
                let k = pow2((p0 - 63) as nat) as int;
                assert(pw == d * k) by (nonlinear_arith)
                    requires
                        pw == 0x8000_0000_0000_0000 * k,
                        d == 0x8000_0000_0000_0000,
                ;
                assert(b2 == 0) by (nonlinear_arith)
                    requires
                        pw == d * k,
                        pw == d * a2 + b2,
                        0 <= b2 < d,
                ;
            }
        }
        r2 = r2.wrapping_mul(2);
        if r2 >= ad {
            q2 = q2.wrapping_add(1);
            r2 = r2.wrapping_sub(ad);
        }
        proof {
            let pw1 = pow2(p as nat) as int;
            assert(pw1 == 2 * pw);
            assert(pw1 == nc * q1 + r1) by (nonlinear_arith)
                requires
                    pw1 == 2 * pw,
                    pw == nc * a1 + b1,
                    (q1 == 2 * a1 && r1 == 2 * b1) || (q1 == 2 * a1 + 1 && r1 == 2 * b1 - nc),
            ;
            assert(pw1 == d * q2 + r2) by (nonlinear_arith)
                requires
                    pw1 == 2 * pw,
                    pw == d * a2 + b2,
                    (q2 == 2 * a2 && r2 == 2 * b2) || (q2 == 2 * a2 + 1 && r2 == 2 * b2 - d),
            ;
            vstd::arithmetic::div_mod::lemma_fundamental_div_mod_converse(
                pw1,
                d,
                q2 as int,
                r2 as int,
            );
            assert(excess(p as nat, d) == d - r2);
            let delta = d - r2;
            if q1 > delta {
                assert(pw1 > nc * delta) by (nonlinear_arith)
                    requires
                        pw1 == nc * q1 + r1,
                        r1 >= 0,
                        q1 > delta,
                        nc > 0,
                ;
            } else if q1 < delta {
                assert(pw1 <= nc * delta) by (nonlinear_arith)
                    requires
                        pw1 == nc * q1 + r1,
                        r1 < nc,
                        q1 < delta,
                        nc > 0,
                ;
            }
            assert(q2 <= 2 * nc) by (nonlinear_arith)
                requires
                    pw1 == d * q2 + r2,
                    pw1 == 2 * pw,
                    pw <= nc * d,
                    r2 >= 0,
                    d > 0,
            ;
            assert(nc * delta <= nc * d) by (nonlinear_arith)
                requires
                    nc > 0,
                    delta <= d,
            ;
        }
        let delta: u64 = ad - r2;
        if !(q1 < delta || (q1 == delta && r1 == 0)) {
            assert(near_enough(p as nat, d));
            break;
        }
        assert(!near_enough(p as nat, d));
        proof {
            if p == 126 {
                powers_of_two();
            }
        }
    }
    let m: u64 = q2.wrapping_add(1);
    let s: u32 = p - 64;
    proof {
        let pw = pow2(p as nat) as int;
        assert(pw == q2 * d + r2) by (nonlinear_arith)
            requires
                pw == d * q2 + r2,
        ;
        vstd::arithmetic::div_mod::lemma_fundamental_div_mod_converse(
            pw,
            d,
            q2 as int,
            r2 as int,
        );
        assert((q2 + 1) * d == pw + (d - r2)) by (nonlinear_arith)
            requires
                pw == d * q2 + r2,
        ;
        assert(unsigned(m as i64) == m) by {
            assert((m as i64) < 0 <==> m >= 0x8000_0000_0000_0000) by (bit_vector);
            assert(m >= 0x8000_0000_0000_0000 ==> (m as i64) == m - 0x1_0000_0000_0000_0000) by (bit_vector);
            assert(m < 0x8000_0000_0000_0000 ==> (m as i64) == m) by (bit_vector);
        }
    }
    #[verifier::truncate]
    let word: i64 = m as i64;
    (word, s)
}

proof fn floor_is(x: int, y: int, k: int)
    requires
        y > 0,
        k * y <= x < (k + 1) * y,
    ensures
        x / y == k,
{
    let r = x - k * y;
    assert((k + 1) * y == k * y + y) by (nonlinear_arith);
    vstd::arithmetic::div_mod::lemma_fundamental_div_mod_converse(x, y, k, r);
}

/// What the code for a division by a constant computes: the upper word of the
/// product with the multiplier, corrected where the multiplier reads as negative,
/// shifted, and with its sign bit added.
pub open spec fn magic_steps(n: int, m: i64, s: nat) -> int {
    let hi = n * m / 0x1_0000_0000_0000_0000;
    let a = if m < 0 {
        hi + n
    } else {
        hi
    };
    let b = a / pow2(s) as int;
    b + if b < 0 {
        1int
    } else {
        0int
    }
}

/// A number up to `2^63` keeps its distance from the next quotient.
proof fn distance(k: int, d: int, p: nat)
    requires
        3 <= d < 0x8000_0000_0000_0000,
        magic_exponent(d, p),
        0 <= k <= 0x8000_0000_0000_0000,
    ensures
        k < 0x8000_0000_0000_0000 ==> k * excess(p, d) < (d - k % d) * pow2(p),
        k * excess(p, d) <= (d - k % d) * pow2(p),
{
    let t: int = 0x8000_0000_0000_0000;
    let nc = critical(d);
    let delta = excess(p, d);
    let pw = pow2(p) as int;
    let b = k % d;
    let r = t % d;
    critical_bounds(d);
    lemma_pow2_pos(p);
    assert(1 <= delta <= d);
    if k <= nc {
        assert(k * delta <= nc * delta) by (nonlinear_arith)
            requires
                k <= nc,
                delta >= 1,
        ;
        assert(pw <= (d - b) * pw) by (nonlinear_arith)
            requires
                d - b >= 1,
                pw > 0,
        ;
    } else {
        // k = nc + 1 + b
        let j = k - nc - 1;
        assert(0 <= j <= r);
        let c = nc / d;
        vstd::arithmetic::div_mod::lemma_fundamental_div_mod(nc, d);
        assert(k == d * (c + 1) + j) by (nonlinear_arith)
            requires
                k == nc + 1 + j,
                nc == d * c + (d - 1),
        ;
        assert(k == (c + 1) * d + j) by (nonlinear_arith)
            requires
                k == d * (c + 1) + j,
        ;
        vstd::arithmetic::div_mod::lemma_fundamental_div_mod_converse(k, d, c + 1, j);
        assert(b == j);
        if b <= d - 2 {
            assert(k * delta == nc * delta + (1 + b) * delta) by (nonlinear_arith)
                requires
                    k == nc + 1 + b,
            ;
            assert((1 + b) * delta <= nc * delta) by (nonlinear_arith)
                requires
                    1 + b <= nc,
                    delta >= 1,
            ;
            assert(2 * pw <= (d - b) * pw) by (nonlinear_arith)
                requires
                    d - b >= 2,
                    pw > 0,
            ;
        } else {
            // the remainder of 2^63 is d - 1, so that 2^64 will do
            assert(r == d - 1 && k == t);
            powers_of_two();
            let tq = t / d;
            vstd::arithmetic::div_mod::lemma_fundamental_div_mod(t, d);
            assert(2 * t == (2 * tq + 1) * d + (d - 2)) by (nonlinear_arith)
                requires
                    t == d * tq + (d - 1),
            ;
            vstd::arithmetic::div_mod::lemma_fundamental_div_mod_converse(
                2 * t,
                d,
                2 * tq + 1,
                d - 2,
            );
            assert(excess(64, d) == 2);
            assert(near_enough(64, d));
            assert(p == 64);
            assert(k * delta == 2 * t);
            assert((d - b) * pw == pw) by (nonlinear_arith)
                requires
                    d - b == 1,
            ;
        }
    }
}

/// Multiplying by the precomputed number divides: the steps give the quotient of
/// every word, for every divisor from 3 on.
pub proof fn magic_division(n: int, d: int, m: i64, s: nat)
    requires
        -0x8000_0000_0000_0000 <= n < 0x8000_0000_0000_0000,
        3 <= d < 0x8000_0000_0000_0000,
        magic_exponent(d, 64 + s),
        unsigned(m) * d == pow2(64 + s) + excess(64 + s, d),
    ensures
        magic_steps(n, m, s) == quotient(n, d),
{
    let w: int = 0x1_0000_0000_0000_0000;
    let p = 64 + s;
    let pw = pow2(p) as int;
    let ps = pow2(s) as int;
    let delta = excess(p, d);
    let mu = unsigned(m);
    let x = n * mu;
    powers_of_two();
    lemma_pow2_adds(64, s);
    lemma_pow2_pos(s);
    lemma_pow2_pos(p);
    assert(pw == w * ps);
    let k: int = if n >= 0 {
        n
    } else {
        -n
    };
    let a = k / d;
    let b = k % d;
    vstd::arithmetic::div_mod::lemma_fundamental_div_mod(k, d);
    distance(k, d, p);
    // d * k * mu == k * 2^p + k * delta
    assert(d * (k * mu) == k * pw + k * delta) by (nonlinear_arith)
        requires
            mu * d == pw + delta,
    ;
    assert(k * pw == d * (a * pw) + b * pw) by (nonlinear_arith)
        requires
            k == d * a + b,
    ;
    assert((d - b) * pw == d * pw - b * pw) by (nonlinear_arith);
    assert(d * ((a + 1) * pw) == d * (a * pw) + d * pw) by (nonlinear_arith);
    assert(b * pw >= 0) by (nonlinear_arith)
        requires
            b >= 0,
            pw > 0,
    ;
    assert(k * delta >= 0) by (nonlinear_arith)
        requires
            k >= 0,
            delta >= 1,
    ;
    assert(a * pw <= k * mu) by (nonlinear_arith)
        requires
            d * (a * pw) <= d * (k * mu),
            d > 0,
    ;
    let f: int = if n >= 0 {
        assert(k * mu < (a + 1) * pw) by (nonlinear_arith)
            requires
                d * (k * mu) < d * ((a + 1) * pw),
                d > 0,
        ;
        a
    } else {
        assert(k * delta >= 1) by (nonlinear_arith)
            requires
                k >= 1,
                delta >= 1,
        ;
        assert(a * pw < k * mu) by (nonlinear_arith)
            requires
                d * (a * pw) < d * (k * mu),
                d > 0,
        ;
        assert(k * mu <= (a + 1) * pw) by (nonlinear_arith)
            requires
                d * (k * mu) <= d * ((a + 1) * pw),
                d > 0,
        ;
        assert(x == -(k * mu)) by (nonlinear_arith)
            requires
                x == n * mu,
                n == -k,
        ;
        assert((-(a + 1)) * pw == -((a + 1) * pw)) by (nonlinear_arith);
        assert((-(a + 1) + 1) * pw == -(a * pw)) by (nonlinear_arith);
        -(a + 1)
    };
    assert(f * pw <= x < (f + 1) * pw);
    // two shifts in a row
    let h = x / w;
    vstd::arithmetic::div_mod::lemma_fundamental_div_mod(x, w);
    assert(w * h <= x < w * h + w);
    assert(f * ps <= h) by (nonlinear_arith)
        requires
            f * pw <= x,
            x < w * h + w,
            pw == w * ps,
            w > 0,
    ;
    assert(h < (f + 1) * ps) by (nonlinear_arith)
        requires
            x < (f + 1) * pw,
            w * h <= x,
            pw == w * ps,
            w > 0,
    ;
    floor_is(h, ps, f);
    // the multiplier as a signed word
    let hi = n * m / w;
    if m < 0 {
        assert(n * m == x - n * w) by (nonlinear_arith)
            requires
                x == n * mu,
                mu == m + w,
        ;
        assert((h - n) * w <= n * m < (h - n + 1) * w) by (nonlinear_arith)
            requires
                w * h <= x < w * h + w,
                n * m == x - n * w,
        ;
        floor_is(n * m, w, h - n);
    }
}

/// Division by `2^k` by shifts: a negative dividend is first raised by `2^k - 1`, so
/// that the shift rounds towards zero.
pub proof fn shift_division(n: int, k: nat)
    ensures
        (n + if n < 0 {
            pow2(k) - 1
        } else {
            0
        }) / pow2(k) as int == quotient(n, pow2(k) as int),
{
    let d = pow2(k) as int;
    lemma_pow2_pos(k);
    if n < 0 {
        let a = (-n) / d;
        let b = (-n) % d;
        vstd::arithmetic::div_mod::lemma_fundamental_div_mod(-n, d);
        let x = n + d - 1;
        assert((-a) * d <= x < (-a + 1) * d) by (nonlinear_arith)
            requires
                -n == d * a + b,
                0 <= b < d,
                x == n + d - 1,
        ;
        floor_is(x, d, -a);
    }
}

/// The remainder by `2^k` by a mask: raise a negative dividend, keep the low `k`
/// bits, take back what was added.
pub proof fn mask_remainder(n: int, k: nat)
    ensures
        ({
            let bias = if n < 0 {
                pow2(k) - 1
            } else {
                0
            };
            (n + bias) % (pow2(k) as int) - bias == remainder(n, pow2(k) as int)
        }),
{
    let d = pow2(k) as int;
    lemma_pow2_pos(k);
    let bias: int = if n < 0 {
        d - 1
    } else {
        0
    };
    shift_division(n, k);
    vstd::arithmetic::div_mod::lemma_fundamental_div_mod(n + bias, d);
}

} // verus!
