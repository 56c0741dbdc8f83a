//! Integers as double-precision numbers.
//!
//! A double holds 53 significant bits. An integer that needs more is rounded to
//! the nearest that can be held, to the even one of two equally near.

use vstd::prelude::*;

verus! {

/// 2 to the power of 53.
pub const TWO_53: u128 = 9007199254740992;

/// The distance of neighbouring doubles around `n`: the smallest power of two
/// that counts `n` in fewer than 2^53 steps.
pub open spec fn step(n: nat) -> nat
    decreases n,
{
    if n < TWO_53 {
        1
    } else {
        2 * step(n / 2)
    }
}

/// `n / unit` rounded to the nearest number, of two to the even one.
pub open spec fn quotient(n: nat, unit: nat) -> nat {
    let q = n / unit;
    let r = n % unit;
    if 2 * r > unit || (2 * r == unit && q % 2 == 1) {
        q + 1
    } else {
        q
    }
}

/// The multiple of `unit` nearest to `n`.
pub open spec fn nearest_multiple(n: nat, unit: nat) -> nat {
    quotient(n, unit) * unit
}

/// The double nearest to `n`.
pub open spec fn nearest_double(n: nat) -> nat {
    nearest_multiple(n, step(n))
}

proof fn lemma_step(n: nat)
    ensures
        step(n) >= 1,
        step(n) <= n + 1,
        n < step(n) * TWO_53,
        step(n) > 1 ==> step(n) <= n,
    decreases n,
{
    if n >= TWO_53 {
        lemma_step(n / 2);
    }
}

fn step_of(n: u128) -> (u: u128)
    ensures
        u == step(n as nat),
        1 <= u,
        n < u * TWO_53,
        u > 1 ==> u <= n,
    decreases n,
{
    proof {
        lemma_step(n as nat);
    }
    if n < TWO_53 {
        1
    } else {
        2 * step_of(n / 2)
    }
}

/// `n / unit` rounded to the nearest number, of two to the even one.
pub fn nearest_quotient(n: u128, unit: u128) -> (q: u128)
    requires
        unit > 0,
        n <= u128::MAX / 4,
        unit <= u128::MAX / 4,
    ensures
        q == quotient(n as nat, unit as nat),
        q <= n / unit + 1,
{
    let q: u128 = n / unit;
    let r: u128 = n % unit;
    proof {
        assert(q <= n) by (nonlinear_arith)
            requires
                q == n / unit,
                unit > 0,
        ;
    }
    if 2 * r > unit || (2 * r == unit && q % 2 == 1) {
        q + 1
    } else {
        q
    }
}

/// The double nearest to `n`.
pub fn round_to_double(n: u128) -> (r: u128)
    requires
        n <= u128::MAX / 4,
    ensures
        r == nearest_double(n as nat),
        r <= 2 * n,
{
    let unit: u128 = step_of(n);
    proof {
        assert(unit <= u128::MAX / 4);
    }
    let q: u128 = nearest_quotient(n, unit);
    proof {
        lemma_nearest_bound(n as nat, unit as nat);
    }
    q * unit
}

proof fn lemma_nearest_bound(n: nat, unit: nat)
    requires
        unit > 0,
        unit > 1 ==> unit <= n,
    ensures
        nearest_multiple(n, unit) <= 2 * n,
{
    let q = n / unit;
    let r = n % unit;
    vstd::arithmetic::div_mod::lemma_fundamental_div_mod(n as int, unit as int);
    assert(q * unit <= n) by (nonlinear_arith)
        requires
            n == unit * q + r,
            r >= 0,
    ;
    assert((q + 1) * unit == q * unit + unit) by (nonlinear_arith);
    if unit == 1 {
        assert(r == 0);
    }
}

/// A number of at most 53 bits is a double.
pub proof fn law_small_numbers_are_exact(n: nat)
    requires
        n < TWO_53,
    ensures
        nearest_double(n) == n,
{
    assert(step(n) == 1);
    assert(nearest_multiple(n, 1) == n);
}

/// Rounding moves a number by at most one part in 2^52.
pub proof fn lemma_nearest_close(n: nat)
    ensures
        nearest_double(n) <= n + n / 4503599627370496 + 1,
{
    let unit = step(n);
    lemma_step_small(n);
    let q = n / unit;
    let r = n % unit;
    vstd::arithmetic::div_mod::lemma_fundamental_div_mod(n as int, unit as int);
    assert((q + 1) * unit == q * unit + unit) by (nonlinear_arith);
    assert(q * unit == n - r) by (nonlinear_arith)
        requires
            n == unit * q + r,
    ;
}

proof fn lemma_step_small(n: nat)
    ensures
        step(n) >= 1,
        step(n) <= n / 4503599627370496 + 1,
        step(n) > 1 ==> step(n) * 4503599627370496 <= n,
        n < step(n) * TWO_53,
    decreases n,
{
    if n >= TWO_53 {
        lemma_step_small(n / 2);
    }
}

pub proof fn lemma_nearest_positive(n: nat)
    requires
        n > 0,
    ensures
        nearest_double(n) > 0,
{
    let unit = step(n);
    lemma_step_small(n);
    assert(n / unit >= 1) by (nonlinear_arith)
        requires
            n >= unit,
            unit >= 1,
    ;
    let q = n / unit;
    assert(q * unit > 0 && (q + 1) * unit > 0) by (nonlinear_arith)
        requires
            q >= 1,
            unit >= 1,
    ;
}

proof fn lemma_step_doubles(n: nat, m: nat)
    requires
        n <= m,
    ensures
        step(n) == step(m) || 2 * step(n) <= step(m),
    decreases m,
{
    lemma_step_small(m);
    if m >= TWO_53 {
        if n >= TWO_53 {
            lemma_step_doubles(n / 2, m / 2);
        } else {
            lemma_step_small(m / 2);
        }
    }
}

/// Rounding keeps the order of numbers.
pub proof fn lemma_nearest_monotone(n: nat, m: nat)
    requires
        n <= m,
    ensures
        nearest_double(n) <= nearest_double(m),
{
    let u = step(n);
    let v = step(m);
    lemma_step_doubles(n, m);
    lemma_step_small(n);
    lemma_step_small(m);
    let (q, r) = (n / u, n % u);
    let (p, t) = (m / v, m % v);
    vstd::arithmetic::div_mod::lemma_fundamental_div_mod(n as int, u as int);
    vstd::arithmetic::div_mod::lemma_fundamental_div_mod(m as int, v as int);
    vstd::arithmetic::div_mod::lemma_mod_bound(n as int, u as int);
    vstd::arithmetic::div_mod::lemma_mod_bound(m as int, v as int);
    if u == v {
        vstd::arithmetic::div_mod::lemma_div_is_ordered(n as int, m as int, u as int);
        if q < p {
            assert((q + 1) * u <= p * v && q * u <= p * v && p * v <= (p + 1) * v)
                by (nonlinear_arith)
                requires
                    q + 1 <= p,
                    u == v,
                    u >= 1,
            ;
        } else {
            assert(q == p);
            assert(r <= t);
            assert(q * u <= (q + 1) * u) by (nonlinear_arith)
                requires
                    u >= 1,
            ;
        }
    } else {
        // n rounds to at most 2^53 steps of its own, m to at least 2^52 of its own
        assert(q < TWO_53) by (nonlinear_arith)
            requires
                n == u * q + r,
                r >= 0,
                n < u * TWO_53,
                u >= 1,
        ;
        assert((q + 1) * u <= TWO_53 * u && q * u <= TWO_53 * u) by (nonlinear_arith)
            requires
                q + 1 <= TWO_53,
                u >= 1,
        ;
        assert(p >= 4503599627370496) by (nonlinear_arith)
            requires
                m == v * p + t,
                t < v,
                v * 4503599627370496 <= m,
                v >= 1,
        ;
        assert(p * v >= 4503599627370496 * v && (p + 1) * v >= 4503599627370496 * v)
            by (nonlinear_arith)
            requires
                p >= 4503599627370496,
                v >= 1,
        ;
        assert(4503599627370496 * v >= TWO_53 * u) by (nonlinear_arith)
            requires
                v >= 2 * u,
                TWO_53 == 9007199254740992,
        ;
    }
}

/// A quotient is rounded to the nearest number: it is off by at most half a unit, and by
/// half a unit only where it is even.
pub proof fn law_quotients_are_nearest(n: nat, unit: nat)
    requires
        unit > 0,
    ensures
        2 * (quotient(n, unit) * unit - n) <= unit,
        2 * (n - quotient(n, unit) * unit) <= unit,
        2 * (quotient(n, unit) * unit - n) == unit || 2 * (n - quotient(n, unit) * unit) == unit
            ==> quotient(n, unit) % 2 == 0,
{
    let q = n / unit;
    let r = n % unit;
    vstd::arithmetic::div_mod::lemma_fundamental_div_mod(n as int, unit as int);
    assert((q + 1) * unit == q * unit + unit) by (nonlinear_arith);
    assert(q * unit == unit * q) by (nonlinear_arith);
}

/// A number of 53 + `k` bits is rounded to the nearest multiple of 2 to the power of `k`,
/// of two to the one with an even quotient.
pub proof fn law_doubles_are_nearest(n: nat, k: nat)
    requires
        4503599627370496 * vstd::arithmetic::power2::pow2(k) <= n,
        n < 9007199254740992 * vstd::arithmetic::power2::pow2(k),
    ensures
        ({
            let unit = vstd::arithmetic::power2::pow2(k);
            let d = nearest_double(n);
            &&& exists|q: nat| #![trigger q * unit] d == q * unit && (2 * (d - n) == unit || 2 * (n
                - d) == unit ==> q % 2 == 0)
            &&& 2 * (d - n) <= unit
            &&& 2 * (n - d) <= unit
        }),
{
    lemma_step_is_power(n, k);
    vstd::arithmetic::power2::lemma_pow2_pos(k);
    let unit = vstd::arithmetic::power2::pow2(k);
    law_quotients_are_nearest(n, unit);
    assert(nearest_double(n) == quotient(n, unit) * unit);
}

proof fn lemma_step_is_power(n: nat, k: nat)
    requires
        4503599627370496 * vstd::arithmetic::power2::pow2(k) <= n,
        n < 9007199254740992 * vstd::arithmetic::power2::pow2(k),
    ensures
        step(n) == vstd::arithmetic::power2::pow2(k),
    decreases k,
{
    vstd::arithmetic::power2::lemma2_to64();
    if k > 0 {
        vstd::arithmetic::power2::lemma_pow2_unfold(k);
        vstd::arithmetic::power2::lemma_pow2_pos((k - 1) as nat);
        lemma_step_is_power(n / 2, (k - 1) as nat);
    }
}

/// A number of at most 53 bits with zeros behind it is a double.
pub proof fn law_shifted_numbers_are_exact(c: nat, k: nat)
    requires
        c < 9007199254740992,
    ensures
        nearest_double(c * vstd::arithmetic::power2::pow2(k)) == c * vstd::arithmetic::power2::pow2(
            k,
        ),
{
    let n = c * vstd::arithmetic::power2::pow2(k);
    lemma_whole_steps(c, k);
    lemma_step(n);
    let unit = step(n);
    vstd::arithmetic::div_mod::lemma_fundamental_div_mod(n as int, unit as int);
    assert((n / unit) * unit == n) by (nonlinear_arith)
        requires
            n == unit * (n / unit) + 0,
    ;
}

proof fn lemma_whole_steps(c: nat, k: nat)
    requires
        c < 9007199254740992,
    ensures
        (c * vstd::arithmetic::power2::pow2(k)) % step(c * vstd::arithmetic::power2::pow2(k)) == 0,
    decreases k,
{
    let n = c * vstd::arithmetic::power2::pow2(k);
    vstd::arithmetic::power2::lemma2_to64();
    if k == 0 {
        assert(n == c) by (nonlinear_arith)
            requires
                n == c * 1,
        ;
    } else if n >= TWO_53 {
        vstd::arithmetic::power2::lemma_pow2_unfold(k);
        let half = vstd::arithmetic::power2::pow2((k - 1) as nat);
        let m = c * half;
        assert(n == 2 * m) by (nonlinear_arith)
            requires
                n == c * (2 * half),
                m == c * half,
        ;
        lemma_whole_steps(c, (k - 1) as nat);
        lemma_step(m);
        let unit = step(m);
        assert(n / 2 == m);
        assert(step(n) == 2 * unit);
        vstd::arithmetic::div_mod::lemma_fundamental_div_mod(m as int, unit as int);
        let q = m / unit;
        assert(n == q * (2 * unit)) by (nonlinear_arith)
            requires
                n == 2 * m,
                m == unit * q + 0,
        ;
        vstd::arithmetic::div_mod::lemma_mod_multiples_basic(q as int, (2 * unit) as int);
    }
}

/// Numbers are rounded so: to the nearest quotient, and to the nearest double.
pub proof fn law_numbers_are_rounded(n: u128, unit: u128, q: u128, r: u128)
    requires
        call_ensures(nearest_quotient, (n, unit), q),
        call_ensures(round_to_double, (n,), r),
        unit > 0,
    ensures
        2 * (q * unit - n) <= unit && 2 * (n - q * unit) <= unit,
        2 * (q * unit - n) == unit || 2 * (n - q * unit) == unit ==> q % 2 == 0,
        r == nearest_double(n as nat),
{
    law_quotients_are_nearest(n as nat, unit as nat);
}

}
