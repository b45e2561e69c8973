use ore_pool::fee::{adjust_fee, fee_in_range};
use ore_pool::rounding::divide_as_float;

/// The bonus in floating point arithmetic.
fn float_bonus(difficulty: u32, tip: u64) -> u64 {
    (tip as f64 * (difficulty as f64 - 20f64) / 20f64) as u64
}

/// The tip in floating point arithmetic, where nothing overflows.
fn float_fee(difficulty: u32, tip: u64) -> Option<u64> {
    if difficulty > 25 {
        let sum = tip.checked_add(float_bonus(difficulty, tip).checked_mul(6)?)?;
        Some(sum.min(tip.checked_mul(5)?))
    } else if difficulty > 22 {
        let sum = tip.checked_add(float_bonus(difficulty, tip).checked_mul(4)?)?;
        Some(sum.min(tip.checked_mul(3)?))
    } else {
        Some(tip)
    }
}

fn agrees(difficulty: u32, tip: u64) {
    match float_fee(difficulty, tip) {
        Some(fee) => {
            assert!(fee_in_range(difficulty, tip), "{difficulty} {tip}");
            assert_eq!(adjust_fee(difficulty, tip), fee, "{difficulty} {tip}");
        }
        None => assert!(!fee_in_range(difficulty, tip), "{difficulty} {tip}"),
    }
}

#[test]
fn fee_on_given_values() {
    assert_eq!(adjust_fee(0, 10_000), 10_000);
    assert_eq!(adjust_fee(22, 10_000), 10_000);
    assert_eq!(adjust_fee(23, 10_000), 16_000);
    assert_eq!(adjust_fee(25, 10_000), 20_000);
    assert_eq!(adjust_fee(26, 10_000), 28_000);
    assert_eq!(adjust_fee(30, 10_000), 40_000);
    assert_eq!(adjust_fee(34, 10_000), 50_000);
    assert_eq!(adjust_fee(256, 10_000), 50_000);
    assert_eq!(adjust_fee(30, 1), 1);
    assert_eq!(adjust_fee(30, 0), 0);
    assert_eq!(adjust_fee(u32::MAX, 7), 35);
}

#[test]
fn fee_agrees_with_floating_point_on_small_tips() {
    for difficulty in 0..60 {
        for tip in 0..2_000 {
            agrees(difficulty, tip);
        }
    }
}

#[test]
fn fee_agrees_with_floating_point_on_all_scales() {
    let mut state: u64 = 0x9e37_79b9_7f4a_7c15;
    for _ in 0..200_000 {
        state = state.wrapping_mul(6364136223846793005).wrapping_add(1442695040888963407);
        let shift = (state >> 58) as u32;
        state = state.wrapping_mul(6364136223846793005).wrapping_add(1442695040888963407);
        let tip = state >> shift;
        let difficulty = (state % 97) as u32;
        agrees(difficulty, tip);
    }
}

#[test]
fn fee_agrees_with_floating_point_near_powers_of_two() {
    for exponent in 0..64u32 {
        for delta in 0..40u64 {
            for difficulty in [23, 24, 25, 26, 27, 29, 33, 34, 35, 52, 255, u32::MAX] {
                agrees(difficulty, (1u64 << exponent).wrapping_add(delta));
                agrees(difficulty, (1u64 << exponent).wrapping_sub(delta));
            }
        }
    }
}

#[test]
fn quotients_round_like_floats() {
    // A tie goes to the even neighbour.
    assert_eq!(divide_as_float((1 << 53) + 1, 1), 1 << 53);
    assert_eq!(divide_as_float((1 << 53) + 3, 1), (1 << 53) + 4);
    // 19 / 20 above a large whole number is lost.
    let n = 20 * (1u128 << 50) + 19;
    assert_eq!(divide_as_float(n, 20), (1 << 50) + 1);
    assert_eq!(divide_as_float(n, 20), (n as f64 / 20f64) as u128);
    assert_eq!(divide_as_float(0, 20), 0);
    assert_eq!(divide_as_float(19, 20), 0);
    let mut state: u64 = 1;
    for _ in 0..200_000 {
        state = state.wrapping_mul(6364136223846793005).wrapping_add(1442695040888963407);
        let n = state >> (state % 20);
        assert_eq!(divide_as_float(n as u128, 1), n as f64 as u128);
        let exact = (n >> 11) as u128;
        assert_eq!(divide_as_float(exact, 20), (exact as f64 / 20f64) as u128);
    }
}

#[test]
fn range_of_fees() {
    assert!(fee_in_range(22, u64::MAX));
    assert!(!fee_in_range(23, u64::MAX));
    assert!(!fee_in_range(26, u64::MAX / 5 + 1));
    assert!(fee_in_range(26, u64::MAX / 5 - 4096));
}

#[test]
fn fee_grows_with_difficulty_and_tip() {
    for tip in [1, 19, 1_000, 123_456_789, (1 << 55) + 12_345] {
        for difficulty in 0..33 {
            let fee = adjust_fee(difficulty, tip);
            assert!(tip <= fee && fee <= 5 * tip);
            assert!(fee <= adjust_fee(difficulty + 1, tip));
            assert!(fee <= adjust_fee(difficulty, tip + 1));
        }
    }
}
