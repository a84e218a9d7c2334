//! Exact integer model of `a as f64 / b as f64 >= c` for unsigned integers
//! `a`, `b` and a double `c` between one half and one.

use vstd::prelude::*;
use vstd::arithmetic::div_mod::{lemma_div_denominator, lemma_fundamental_div_mod, lemma_div_is_ordered};

verus! {

/// 2^53: integers below it are doubles exactly.
pub open spec fn two_53() -> nat {
    0x20_0000_0000_0000
}

/// The spacing of the doubles around the integer `v`: 1 below 2^53, and
/// doubling with each binade above it.
pub open spec fn f64_unit(v: nat) -> nat
    decreases v,
{
    if v < two_53() {
        1
    } else {
        2 * f64_unit(v / 2)
    }
}

/// `v as f64`: the multiple of `f64_unit(v)` nearest to `v`, ties going to
/// the even multiple.
pub open spec fn as_f64(v: nat) -> nat {
    let u = f64_unit(v);
    let q = v / u;
    let r = v % u;
    if 2 * r > u || (2 * r == u && q % 2 == 1) {
        (q + 1) * u
    } else {
        q * u
    }
}

/// `a / b`, rounded to the nearest double, is at least the double
/// `k / 2^53`, for integers `a`, `b` that are doubles and `2^52 < k <= 2^53`.
///
/// Below `k / 2^53` the nearest double is `(k - 1) / 2^53`, so the quotient
/// rounds up to `k / 2^53` or beyond exactly when it lies above the midpoint
/// `(2k - 1) / 2^54`, or on it when `k` is even (ties go to the even
/// significand). A zero divisor gives infinity for a positive `a`, which is
/// above every double, and NaN for a zero `a`, which compares false.
pub open spec fn quotient_reaches(a: nat, b: nat, k: nat) -> bool {
    if b == 0 {
        a > 0
    } else if k % 2 == 0 {
        0x40_0000_0000_0000 * a >= (2 * k - 1) * b
    } else {
        0x40_0000_0000_0000 * a > (2 * k - 1) * b
    }
}

/// The significand of `1.0` over 2^53.
pub open spec fn k_one() -> nat {
    0x20_0000_0000_0000
}

/// The significand of the double nearest to `0.9`, over 2^53.
pub open spec fn k_ninety() -> nat {
    8106479329266893
}

/// The significand of `0.75`, over 2^53.
pub open spec fn k_three_quarters() -> nat {
    6755399441055744
}

proof fn lemma_unit_facts(v: nat)
    ensures
        f64_unit(v) >= 1,
        v < two_53() ==> f64_unit(v) == 1,
        v / f64_unit(v) < two_53(),
        v >= two_53() ==> v / f64_unit(v) >= two_53() / 2,
    decreases v,
{
    if v >= two_53() {
        let h = v / 2;
        lemma_unit_facts(h);
        let u = f64_unit(h);
        lemma_div_denominator(v as int, 2, u as int);
        assert(v / (2 * u) == h / u) by {
            assert(2 * u == u * 2) by (nonlinear_arith);
        }
    }
}

proof fn lemma_unit_monotone(v1: nat, v2: nat)
    requires
        v1 <= v2,
    ensures
        f64_unit(v1) <= f64_unit(v2),
        f64_unit(v1) < f64_unit(v2) ==> 2 * f64_unit(v1) <= f64_unit(v2),
    decreases v2,
{
    lemma_unit_facts(v1);
    lemma_unit_facts(v2);
    if v2 >= two_53() {
        if v1 >= two_53() {
            lemma_unit_monotone(v1 / 2, v2 / 2);
        } else {
            lemma_unit_facts(v2 / 2);
        }
    }
}

/// Rounding to a double never reverses the order of two integers.
pub proof fn lemma_as_f64_monotone(v1: nat, v2: nat)
    requires
        v1 <= v2,
    ensures
        as_f64(v1) <= as_f64(v2),
{
    lemma_unit_monotone(v1, v2);
    lemma_unit_facts(v1);
    lemma_unit_facts(v2);
    let u1 = f64_unit(v1);
    let u2 = f64_unit(v2);
    let q1 = v1 / u1;
    let q2 = v2 / u2;
    let r1 = v1 % u1;
    let r2 = v2 % u2;
    lemma_fundamental_div_mod(v1 as int, u1 as int);
    lemma_fundamental_div_mod(v2 as int, u2 as int);
    assert(as_f64(v1) <= (q1 + 1) * u1) by (nonlinear_arith)
        requires
            as_f64(v1) == (if 2 * r1 > u1 || (2 * r1 == u1 && q1 % 2 == 1) {
                (q1 + 1) * u1
            } else {
                q1 * u1
            }),
            u1 >= 1,
    ;
    assert(as_f64(v2) >= q2 * u2) by (nonlinear_arith)
        requires
            as_f64(v2) == (if 2 * r2 > u2 || (2 * r2 == u2 && q2 % 2 == 1) {
                (q2 + 1) * u2
            } else {
                q2 * u2
            }),
            u2 >= 1,
    ;
    if u1 == u2 {
        lemma_div_is_ordered(v1 as int, v2 as int, u1 as int);
        if q1 == q2 {
            assert(r1 <= r2);
        } else {
            assert((q1 + 1) * u1 <= q2 * u2) by (nonlinear_arith)
                requires
                    q1 + 1 <= q2,
                    u1 == u2,
                    u1 >= 1,
            ;
        }
    } else {
        assert(v2 >= two_53());
        assert((q1 + 1) * u1 <= q2 * u2) by (nonlinear_arith)
            requires
                q1 + 1 <= two_53(),
                q2 >= two_53() / 2,
                2 * u1 <= u2,
                u1 >= 1,
        ;
    }
}

/// Integers below 2^53 convert to `f64` without rounding.
pub proof fn lemma_as_f64_exact(v: nat)
    requires
        v < two_53(),
    ensures
        as_f64(v) == v,
{
    assert(f64_unit(v) == 1);
    assert(v / 1 == v && v % 1 == 0);
}

/// `v as f64`, as an exact integer.
pub(crate) fn to_f64_value(v: usize) -> (a: u128)
    ensures
        a == as_f64(v as nat),
        a < 0x1_0000_0000_0000_1000,
{
    let mut unit: u128 = 1;
    let mut q: u128 = v as u128;
    while q >= 0x20_0000_0000_0000
        invariant
            1 <= unit < 0x1000,
            q == v as nat / unit as nat,
            f64_unit(v as nat) == unit * f64_unit(q as nat),
        decreases q,
    {
        proof {
            lemma_fundamental_div_mod(v as int, unit as int);
            assert(unit * 2 < 0x1000) by (nonlinear_arith)
                requires
                    unit * q <= v,
                    q >= 0x20_0000_0000_0000,
                    v < 0x1_0000_0000_0000_0000,
                    unit >= 1,
            ;
            lemma_div_denominator(v as int, unit as int, 2);
            assert(f64_unit(q as nat) == 2 * f64_unit((q / 2) as nat));
            assert(unit * f64_unit(q as nat) == (unit * 2) * f64_unit((q / 2) as nat)) by (nonlinear_arith)
                requires
                    f64_unit(q as nat) == 2 * f64_unit((q / 2) as nat),
            ;
        }
        q = q / 2;
        unit = unit * 2;
    }
    proof {
        lemma_fundamental_div_mod(v as int, unit as int);
        lemma_unit_facts(q as nat);
        assert(f64_unit(q as nat) == 1);
        assert(f64_unit(v as nat) == unit) by (nonlinear_arith)
            requires
                f64_unit(v as nat) == unit * f64_unit(q as nat),
                f64_unit(q as nat) == 1,
        ;
    }
    let r: u128 = v as u128 % unit;
    let n: u128 = if 2 * r > unit || (2 * r == unit && q % 2 == 1) {
        q + 1
    } else {
        q
    };
    assert(n * unit < 0x1_0000_0000_0000_1000) by (nonlinear_arith)
        requires
            n <= q + 1,
            unit * q <= v,
            v < 0x1_0000_0000_0000_0000,
            unit < 0x1000,
    ;
    let a = n * unit;
    assert(a == as_f64(v as nat)) by {
        let u = f64_unit(v as nat);
        assert(u == unit);
        assert(v as nat / u == q);
        assert(v as nat % u == r);
    }
    a
}

/// Whether `a / b`, rounded to a double, is at least `k / 2^53`.
pub(crate) fn reaches(a: u128, b: u128, k: u128) -> (res: bool)
    requires
        a < 0x1_0000_0000_0000_1000,
        b < 0x1_0000_0000_0000_1000,
        0x10_0000_0000_0000 < k <= 0x20_0000_0000_0000,
    ensures
        res == quotient_reaches(a as nat, b as nat, k as nat),
{
    if b == 0 {
        a > 0
    } else {
        assert(0x40_0000_0000_0000 * a <= 0x40_0000_0000_0000 * 0x1_0000_0000_0000_1000) by (nonlinear_arith)
            requires
                a < 0x1_0000_0000_0000_1000,
        ;
        assert((2 * k - 1) * b <= 0x40_0000_0000_0000 * 0x1_0000_0000_0000_1000) by (nonlinear_arith)
            requires
                b < 0x1_0000_0000_0000_1000,
                2 * k - 1 <= 0x40_0000_0000_0000,
        ;
        let lhs = 0x40_0000_0000_0000 * a;
        let rhs = (2 * k - 1) * b;
        if k % 2 == 0 {
            lhs >= rhs
        } else {
            lhs > rhs
        }
    }
}

} // verus!
