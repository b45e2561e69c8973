//! Quotients of whole numbers as 64-bit floating point arithmetic delivers them, computed and
//! described on integers.
//!
//! A 64-bit float carries 53 significant bits. The result of an operation is the float nearest
//! to the exact value, the one with an even last bit where two are equally near. All values here
//! are far from the smallest and the largest exponent, so nothing underflows or becomes infinite.
use vstd::prelude::*;

verus! {

/// Two to the power of 53: significands of 64-bit floats lie below it.
pub const PRECISION: u128 = 0x20_0000_0000_0000;

/// The integer nearest to `num / den`, the even one of two that are equally near.
pub open spec fn nearest_even(num: nat, den: nat) -> nat {
    let q = num / den;
    let r = num % den;
    if 2 * r < den || (2 * r == den && q % 2 == 0) {
        q
    } else {
        q + 1
    }
}

/// The integer part of the 64-bit float nearest to `num / den`.
///
/// The quotient is brought between 2^52 and 2^53 by doublings of one side, rounded to an integer
/// there, and the doublings are undone.
pub open spec fn float_quotient(num: nat, den: nat) -> nat
    decreases steps_left(num, den),
{
    if num == 0 || den == 0 {
        0
    } else if num >= PRECISION * den {
        2 * float_quotient(num, 2 * den)
    } else if 2 * num < PRECISION * den {
        float_quotient(2 * num, den) / 2
    } else {
        nearest_even(num, den)
    }
}

/// How far `num / den` is from the range in which it is rounded.
pub open spec fn steps_left(num: nat, den: nat) -> int {
    if num >= PRECISION * den {
        num - PRECISION * den + 1
    } else if 2 * num < PRECISION * den {
        PRECISION * den - 2 * num + 1
    } else {
        0
    }
}

/// Divides and rounds to the nearest integer, to the even one in a tie.
fn divide_nearest_even(num: u128, den: u128) -> (q: u128)
    requires
        0 < den < 0x1_0000_0000_0000_0000_0000,
        num < PRECISION * den,
    ensures
        q == nearest_even(num as nat, den as nat),
{
    let q: u128 = num / den;
    let r: u128 = num % den;
    if 2 * r < den || (2 * r == den && q % 2 == 0) {
        q
    } else {
        proof {
            assert(q < PRECISION) by (nonlinear_arith)
                requires
                    q == num / den,
                    num < PRECISION * den,
                    0 < den,
            ;
        }
        q + 1
    }
}

/// Divides as 64-bit floats do and drops the fraction of the result.
pub fn divide_as_float(num: u128, den: u128) -> (q: u128)
    requires
        0 < den <= 0x1_0000_0000_0000_0000,
        num < 0x10_0000_0000_0000_0000_0000_0000_0000 || num < PRECISION * den,
    ensures
        q == float_quotient(num as nat, den as nat),
    decreases steps_left(num as nat, den as nat),
{
    proof {
        lemma_float_quotient_bound(num as nat, den as nat);
    }
    if num == 0 {
        0
    } else if num >= PRECISION * den {
        let half: u128 = divide_as_float(num, 2 * den);
        2 * half
    } else if 2 * num < PRECISION * den {
        let double: u128 = divide_as_float(2 * num, den);
        double / 2
    } else {
        divide_nearest_even(num, den)
    }
}

proof fn lemma_nearest_even_mono(a: nat, b: nat, den: nat)
    requires
        a <= b,
        0 < den,
    ensures
        nearest_even(a, den) <= nearest_even(b, den),
{
    vstd::arithmetic::div_mod::lemma_div_is_ordered(a as int, b as int, den as int);
    vstd::arithmetic::div_mod::lemma_fundamental_div_mod(a as int, den as int);
    vstd::arithmetic::div_mod::lemma_fundamental_div_mod(b as int, den as int);
    if a / den == b / den {
        assert(a % den <= b % den);
    }
}

/// A quotient below 2^53 is not rounded beyond 2^53.
proof fn lemma_upper(num: nat, den: nat)
    requires
        num < PRECISION * den,
    ensures
        float_quotient(num, den) <= PRECISION,
    decreases steps_left(num, den),
{
    if num != 0 && den != 0 {
        if 2 * num < PRECISION * den {
            lemma_upper(2 * num, den);
        } else {
            assert(num / den < PRECISION) by (nonlinear_arith)
                requires
                    num < PRECISION * den,
                    0 < den,
            ;
        }
    }
}

/// A quotient of at least 2^52 is not rounded below 2^52, and one of at least 2^53 not below 2^53.
proof fn lemma_lower(num: nat, den: nat)
    requires
        0 < den,
        2 * num >= PRECISION * den,
    ensures
        2 * float_quotient(num, den) >= PRECISION,
        num >= PRECISION * den ==> float_quotient(num, den) >= PRECISION,
    decreases steps_left(num, den),
{
    if num >= PRECISION * den {
        lemma_lower(num, 2 * den);
    } else {
        assert(2 * (num / den) >= PRECISION) by (nonlinear_arith)
            requires
                2 * num >= PRECISION * den,
                0 < den,
                PRECISION == 0x20_0000_0000_0000,
        ;
    }
}

/// Rounding keeps order: a larger dividend never gives a smaller quotient.
pub proof fn lemma_float_quotient_mono(a: nat, b: nat, den: nat)
    requires
        a <= b,
        0 < den,
    ensures
        float_quotient(a, den) <= float_quotient(b, den),
    decreases steps_left(a, den) + steps_left(b, den),
{
    if a == 0 {
    } else if a >= PRECISION * den {
        lemma_float_quotient_mono(a, b, 2 * den);
    } else if b >= PRECISION * den {
        lemma_upper(a, den);
        lemma_lower(b, den);
    } else if 2 * b < PRECISION * den {
        lemma_float_quotient_mono(2 * a, 2 * b, den);
    } else if 2 * a < PRECISION * den {
        lemma_upper(2 * a, den);
        lemma_lower(b, den);
    } else {
        lemma_nearest_even_mono(a, b, den);
    }
}

/// Rounding at most doubles a quotient.
pub proof fn lemma_float_quotient_bound(num: nat, den: nat)
    requires
        0 < den,
    ensures
        float_quotient(num, den) * den <= 2 * num,
        float_quotient(num, den) <= 2 * num,
    decreases steps_left(num, den),
{
    let f = float_quotient(num, den);
    if num == 0 {
        assert(f * den == 0) by (nonlinear_arith)
            requires
                f == 0,
        ;
    } else if num >= PRECISION * den {
        lemma_float_quotient_bound(num, 2 * den);
        let g = float_quotient(num, 2 * den);
        assert(f * den == g * (2 * den)) by (nonlinear_arith)
            requires
                f == 2 * g,
        ;
    } else if 2 * num < PRECISION * den {
        lemma_float_quotient_bound(2 * num, den);
        let g = float_quotient(2 * num, den);
        assert(2 * (f * den) <= g * den) by (nonlinear_arith)
            requires
                f == g / 2,
                g >= 0,
                den > 0,
        ;
    } else {
        vstd::arithmetic::div_mod::lemma_fundamental_div_mod(num as int, den as int);
        assert(f * den <= num + den) by (nonlinear_arith)
            requires
                f <= num / den + 1,
                num == den * (num / den) + num % den,
                num % den >= 0,
                den > 0,
        ;
    }
    assert(f <= f * den) by (nonlinear_arith)
        requires
            den >= 1,
            f >= 0,
    ;
}

/// With `scale` doublings behind it, a dividend below 2^53 still gives the exact integer part.
proof fn lemma_exact_scaled(num: nat, scale: nat, den: nat)
    requires
        0 < num < PRECISION,
        0 < scale,
        0 < den,
        scale * num < PRECISION * den,
    ensures
        float_quotient(scale * num, den) / scale == num / den,
    decreases steps_left(scale * num, den),
{
    let n = scale * num;
    assert(n > 0) by (nonlinear_arith)
        requires
            n == scale * num,
            scale > 0,
            num > 0,
    ;
    if 2 * n < PRECISION * den {
        assert((2 * scale) * num == 2 * n) by (nonlinear_arith)
            requires
                n == scale * num,
        ;
        lemma_exact_scaled(num, 2 * scale, den);
        let g = float_quotient(2 * n, den);
        vstd::arithmetic::div_mod::lemma_div_denominator(g as int, 2, scale as int);
    } else {
        // The whole part of num / den, scaled, is at most the whole part of n / den ...
        let k = num / den;
        let q = n / den;
        let m = nearest_even(n, den);
        vstd::arithmetic::div_mod::lemma_fundamental_div_mod(num as int, den as int);
        vstd::arithmetic::div_mod::lemma_fundamental_div_mod(n as int, den as int);
        assert(2 * scale > den) by (nonlinear_arith)
            requires
                2 * n >= PRECISION * den,
                n == scale * num,
                num < PRECISION,
                den > 0,
                scale > 0,
        ;
        assert(scale * k <= q) by (nonlinear_arith)
            requires
                n == scale * num,
                num >= den * k,
                n == den * q + n % den,
                0 <= n % den < den,
                den > 0,
                scale > 0,
        ;
        // ... and the next multiple of scale is more than half a unit away.
        let gap = den * (k + 1) - num;
        assert(den * (k + 1) == den * k + den) by (nonlinear_arith);
        assert(den * (scale * (k + 1)) == n + scale * gap) by (nonlinear_arith)
            requires
                n == scale * num,
                gap == den * (k + 1) - num,
        ;
        assert(scale * gap >= scale) by (nonlinear_arith)
            requires
                gap >= 1,
                scale > 0,
        ;
        assert(m < scale * (k + 1)) by (nonlinear_arith)
            requires
                den * (scale * (k + 1)) >= n + scale,
                2 * scale > den,
                n == den * q + n % den,
                0 <= n % den < den,
                m == q || (m == q + 1 && 2 * (n % den) >= den),
                den > 0,
        ;
        assert(m >= scale * k);
        assert(m / scale == k) by (nonlinear_arith)
            requires
                scale * k <= m < scale * (k + 1),
                scale > 0,
        ;
    }
}

/// A dividend below 2^53 gives a quotient that has lost nothing but its fraction.
pub proof fn lemma_exact(num: nat, den: nat)
    requires
        num < PRECISION,
        0 < den,
    ensures
        float_quotient(num, den) == num / den,
{
    if num > 0 {
        assert(num < PRECISION * den) by (nonlinear_arith)
            requires
                num < PRECISION,
                den >= 1,
        ;
        lemma_exact_scaled(num, 1, den);
    } else {
        assert(0nat / den == 0) by (nonlinear_arith)
            requires
                den > 0,
        ;
    }
}

/// Where a quotient lies between 2^52 and 2^53 it becomes the nearest integer, the even one where two
/// are equally near. A larger one is rounded as half of it is, and a smaller one as twice it is.
pub proof fn quotient_is_the_nearest_float(num: nat, den: nat)
    requires
        0 < den,
    ensures
        0x10_0000_0000_0000 * den <= num < 0x20_0000_0000_0000 * den ==> {
            let error = float_quotient(num, den) * den - num;
            &&& -den <= 2 * error <= den
            &&& (2 * error == den || 2 * error == -den) ==> float_quotient(num, den) % 2 == 0
        },
        num >= 0x20_0000_0000_0000 * den ==> float_quotient(num, den) == 2 * float_quotient(num, 2 * den),
        num < 0x10_0000_0000_0000 * den ==> float_quotient(num, den) == float_quotient(2 * num, den) / 2,
{
    if 0x10_0000_0000_0000 * den <= num < 0x20_0000_0000_0000 * den {
        let q = num / den;
        let f = float_quotient(num, den);
        vstd::arithmetic::div_mod::lemma_fundamental_div_mod(num as int, den as int);
        assert((q + 1) * den == q * den + den) by (nonlinear_arith);
        assert(q * den == den * q) by (nonlinear_arith);
        assert(f == q || f == q + 1);
    }
}

/// A quotient of nothing is nothing.
pub proof fn nothing_stays_nothing(den: nat)
    ensures
        float_quotient(0, den) == 0,
{
}

} // verus!
