//! The tip paid to the block builder.
use vstd::prelude::*;
use crate::rounding::{divide_as_float, float_quotient, lemma_exact, lemma_float_quotient_bound, lemma_float_quotient_mono, PRECISION};

verus! {

/// A twentieth of `tip` for every level of difficulty above twenty, as 64-bit floats compute it:
/// the tip, its product with the levels and the quotient are rounded in turn, the fraction is
/// dropped, and what exceeds 64 bits becomes the largest 64-bit value.
pub open spec fn rounded_bonus(difficulty: u32, tip: u64) -> nat
    recommends
        difficulty >= 20,
{
    let product = float_quotient(float_quotient(tip as nat, 1) * (difficulty - 20) as nat, 1);
    let quotient = float_quotient(product, 20);
    if quotient <= u64::MAX {
        quotient
    } else {
        u64::MAX as nat
    }
}

/// A twentieth of `tip` for every level of difficulty above twenty, without its fraction: exact
/// while the product stays below 2^53, rounded as 64-bit floats are from there on.
pub open spec fn bonus(difficulty: u32, tip: u64) -> nat
    recommends
        difficulty >= 20,
{
    if tip * (difficulty - 20) < PRECISION {
        (tip * (difficulty - 20) / 20) as nat
    } else {
        rounded_bonus(difficulty, tip)
    }
}

/// The tip after `times` bonuses, but at most `cap` times the tip.
pub open spec fn raised(difficulty: u32, tip: u64, times: nat, cap: nat) -> nat {
    let sum = tip + times * bonus(difficulty, tip);
    if sum <= cap * tip {
        sum as nat
    } else {
        cap * tip as nat
    }
}

/// The tip for a solution of this difficulty.
pub open spec fn adjusted_fee(difficulty: u32, tip: u64) -> nat {
    if difficulty > 25 {
        raised(difficulty, tip, 6, 5)
    } else if difficulty > 22 {
        raised(difficulty, tip, 4, 3)
    } else {
        tip as nat
    }
}

/// Whether every sum and product on the way to the tip fits in 64 bits.
pub open spec fn fee_fits(difficulty: u32, tip: u64) -> bool {
    if difficulty > 25 {
        tip + 6 * bonus(difficulty, tip) <= u64::MAX && 5 * tip <= u64::MAX
    } else if difficulty > 22 {
        tip + 4 * bonus(difficulty, tip) <= u64::MAX && 3 * tip <= u64::MAX
    } else {
        true
    }
}

/// Computes the bonus.
fn compute_bonus(difficulty: u32, tip: u64) -> (b: u64)
    requires
        difficulty >= 20,
    ensures
        b == bonus(difficulty, tip),
{
    let levels: u128 = (difficulty - 20) as u128;
    let rounded: u128 = divide_as_float(tip as u128, 1);
    proof {
        lemma_float_quotient_bound(tip as nat, 1);
        assert(0 <= rounded * levels < 0x2_0000_0000_0000_0000 * 0x1_0000_0000) by (nonlinear_arith)
            requires
                0 <= rounded < 0x2_0000_0000_0000_0000,
                0 <= levels < 0x1_0000_0000,
        ;
        lemma_float_quotient_bound((rounded * levels) as nat, 1);
        bonus_is_computed_in_floating_point(difficulty, tip);
    }
    let product: u128 = divide_as_float(rounded * levels, 1);
    let quotient: u128 = divide_as_float(product, 20);
    if quotient <= u64::MAX as u128 {
        quotient as u64
    } else {
        u64::MAX
    }
}

/// Tells whether `adjust_fee` can be computed in 64 bits.
pub fn fee_in_range(difficulty: u32, jito_tip_lamports: u64) -> (fits: bool)
    ensures
        fits == fee_fits(difficulty, jito_tip_lamports),
{
    if difficulty > 25 {
        let b: u64 = compute_bonus(difficulty, jito_tip_lamports);
        let sum: u128 = jito_tip_lamports as u128 + 6 * b as u128;
        sum <= u64::MAX as u128 && 5 * jito_tip_lamports as u128 <= u64::MAX as u128
    } else if difficulty > 22 {
        let b: u64 = compute_bonus(difficulty, jito_tip_lamports);
        let sum: u128 = jito_tip_lamports as u128 + 4 * b as u128;
        sum <= u64::MAX as u128 && 3 * jito_tip_lamports as u128 <= u64::MAX as u128
    } else {
        true
    }
}

/// Raises the tip for a hard solution: above difficulty 22 by four bonuses, to at most three times
/// the tip; above difficulty 25 by six, to at most five times the tip.
pub fn adjust_fee(difficulty: u32, jito_tip_lamports: u64) -> (fee: u64)
    requires
        fee_fits(difficulty, jito_tip_lamports),
    ensures
        fee == adjusted_fee(difficulty, jito_tip_lamports),
        difficulty <= 22 ==> fee == jito_tip_lamports,
        jito_tip_lamports <= fee <= 5 * jito_tip_lamports,
{
    let mut extra_fee: u64 = jito_tip_lamports;
    if difficulty > 25 {
        extra_fee += compute_bonus(difficulty, extra_fee) * 6;
        if extra_fee > 5 * jito_tip_lamports {
            extra_fee = 5 * jito_tip_lamports;
        }
    } else if difficulty > 22 {
        extra_fee += compute_bonus(difficulty, extra_fee) * 4;
        if extra_fee > 3 * jito_tip_lamports {
            extra_fee = 3 * jito_tip_lamports;
        }
    }
    extra_fee
}

/// The tip is never lowered and never more than five times as large; up to difficulty 22 it stays
/// as it is.
pub proof fn fee_stays_within_bounds(difficulty: u32, tip: u64)
    ensures
        tip <= adjusted_fee(difficulty, tip) <= 5 * tip,
        difficulty <= 25 ==> adjusted_fee(difficulty, tip) <= 3 * tip,
        difficulty <= 22 ==> adjusted_fee(difficulty, tip) == tip,
{
}

proof fn lemma_bonus_mono(d1: u32, d2: u32, tip1: u64, tip2: u64)
    requires
        20 <= d1 <= d2,
        tip1 <= tip2,
    ensures
        bonus(d1, tip1) <= bonus(d2, tip2),
{
    bonus_is_computed_in_floating_point(d1, tip1);
    bonus_is_computed_in_floating_point(d2, tip2);
    let t1 = float_quotient(tip1 as nat, 1);
    let t2 = float_quotient(tip2 as nat, 1);
    lemma_float_quotient_mono(tip1 as nat, tip2 as nat, 1);
    let k1 = (d1 - 20) as nat;
    let k2 = (d2 - 20) as nat;
    assert(t1 * k1 <= t2 * k2) by (nonlinear_arith)
        requires
            0 <= t1 <= t2,
            0 <= k1 <= k2,
    ;
    lemma_float_quotient_mono(t1 * k1, t2 * k2, 1);
    lemma_float_quotient_mono(float_quotient(t1 * k1, 1), float_quotient(t2 * k2, 1), 20);
}

/// A harder solution never carries a smaller tip.
pub proof fn fee_grows_with_difficulty(d1: u32, d2: u32, tip: u64)
    requires
        d1 <= d2,
    ensures
        adjusted_fee(d1, tip) <= adjusted_fee(d2, tip),
{
    if d1 > 22 {
        lemma_bonus_mono(d1, d2, tip, tip);
    }
}

/// A larger base tip never gives a smaller one in the end.
pub proof fn fee_grows_with_tip(difficulty: u32, tip1: u64, tip2: u64)
    requires
        tip1 <= tip2,
    ensures
        adjusted_fee(difficulty, tip1) <= adjusted_fee(difficulty, tip2),
{
    if difficulty > 22 {
        lemma_bonus_mono(difficulty, difficulty, tip1, tip2);
    }
}

/// The bonus is what floating point arithmetic computes, whatever the tip: below 2^53 it loses
/// nothing but the fraction.
pub proof fn bonus_is_computed_in_floating_point(difficulty: u32, tip: u64)
    requires
        20 <= difficulty,
    ensures
        bonus(difficulty, tip) == rounded_bonus(difficulty, tip),
{
    let k = (difficulty - 20) as nat;
    let t = float_quotient(tip as nat, 1);
    if k == 0 {
        assert(t * k == 0 && tip * k == 0) by (nonlinear_arith)
            requires
                k == 0,
        ;
    } else if tip * k < PRECISION {
        assert(tip <= tip * k) by (nonlinear_arith)
            requires
                k >= 1,
                tip >= 0,
        ;
        lemma_exact(tip as nat, 1);
        lemma_exact(tip as nat * k, 1);
        lemma_exact(tip as nat * k, 20);
    }
}

/// The tip in plain numbers. Up to difficulty 22 it is the base tip. Up to 25 it is the base tip and
/// four twentieths of it for every level above 20, but at most three times the base tip; beyond, six
/// twentieths, but at most five times. The twentieths lose their fraction.
pub proof fn tip_in_plain_numbers(difficulty: u32, tip: u64)
    requires
        difficulty > 22 ==> tip * (difficulty - 20) < 0x20_0000_0000_0000,
    ensures
        difficulty <= 22 ==> adjusted_fee(difficulty, tip) == tip,
        22 < difficulty <= 25 ==> {
            let sum = tip + 4 * (tip * (difficulty - 20) / 20);
            &&& sum <= 3 * tip ==> adjusted_fee(difficulty, tip) == sum
            &&& sum > 3 * tip ==> adjusted_fee(difficulty, tip) == 3 * tip
        },
        difficulty > 25 ==> {
            let sum = tip + 6 * (tip * (difficulty - 20) / 20);
            &&& sum <= 5 * tip ==> adjusted_fee(difficulty, tip) == sum
            &&& sum > 5 * tip ==> adjusted_fee(difficulty, tip) == 5 * tip
        },
{
}

/// The tip as floating point arithmetic comes to it, however large: with the base tip, its product
/// with the levels above 20 and a twentieth of that rounded in turn, and cut off at 64 bits.
pub proof fn tip_in_floating_point(difficulty: u32, tip: u64)
    requires
        difficulty > 22,
    ensures
        ({
            let product = float_quotient(float_quotient(tip as nat, 1) * (difficulty - 20) as nat, 1);
            let quotient = float_quotient(product, 20);
            let twentieths: int = if quotient <= 0xffff_ffff_ffff_ffff {
                quotient as int
            } else {
                0xffff_ffff_ffff_ffff
            };
            let times: int = if difficulty > 25 {
                6
            } else {
                4
            };
            let cap: int = if difficulty > 25 {
                5
            } else {
                3
            };
            &&& tip + times * twentieths <= cap * tip ==> adjusted_fee(difficulty, tip) == tip + times
                * twentieths
            &&& tip + times * twentieths > cap * tip ==> adjusted_fee(difficulty, tip) == cap * tip
            &&& fee_fits(difficulty, tip) <==> tip + times * twentieths <= u64::MAX && cap * tip <= u64::MAX
        }),
{
    bonus_is_computed_in_floating_point(difficulty, tip);
}

/// A tip can be computed in 64 bits wherever the raised tip, before it is cut to three or five times
/// the base tip, and that multiple both fit; up to difficulty 22 always.
pub proof fn only_huge_tips_do_not_fit(difficulty: u32, tip: u64)
    requires
        difficulty > 22 ==> tip * (difficulty - 20) < 0x20_0000_0000_0000,
    ensures
        difficulty <= 22 ==> fee_fits(difficulty, tip),
        22 < difficulty <= 25 ==> (fee_fits(difficulty, tip) <==> tip + 4 * (tip * (difficulty - 20) / 20)
            <= u64::MAX && 3 * tip <= u64::MAX),
        difficulty > 25 ==> (fee_fits(difficulty, tip) <==> tip + 6 * (tip * (difficulty - 20) / 20)
            <= u64::MAX && 5 * tip <= u64::MAX),
{
}

} // verus!
