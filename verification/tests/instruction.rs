use ore_pool::bus::{are_comparable, best_bus, choose_bus, random_bus};
use ore_pool::instruction::{
    bribe_ix_to, build_bribe_ix, submission_instructions, submission_with_recipient, AccountMeta,
    Instruction, COMPUTE_BUDGET_PROGRAM, JITO_RECIPIENTS,
};
use ore_pool::ore_utils::{get_auth_ix, get_mine_ix};
use ore_pool::wire::Solution;
use solana_sdk::pubkey::Pubkey;
use std::str::FromStr;

const SIGNER: [u8; 32] = [5; 32];

const SOLUTION: Solution = Solution { d: [3; 16], n: [4; 8] };

fn expected_transfer(to: [u8; 32], lamports: u64) -> Instruction {
    let mut data = vec![2, 0, 0, 0];
    data.extend_from_slice(&lamports.to_le_bytes());
    Instruction {
        program_id: [0; 32],
        accounts: vec![
            AccountMeta { pubkey: SIGNER, is_signer: true, is_writable: true },
            AccountMeta { pubkey: to, is_signer: false, is_writable: true },
        ],
        data,
    }
}

#[test]
fn addresses_are_those_published() {
    let recipients = [
        "96gYZGLnJYVFmbjzopPSU6QiEV5fGqZNyN9nmNhvrZU5",
        "HFqU5x63VTqvQss8hp11i4wVV8bD44PvwucfZ2bU7gRe",
        "Cw8CFyM9FkoMi7K7Crf6HNQqf4uEMzpKw6QNghXLvLkY",
        "ADaUMid9yfUytqMBgopwjb2DTLSokTSzL1zt6iGPaS49",
        "DfXygSm4jCyNCybVYYK6DwvWqjKee8pbDmJGcLWNDXjh",
        "ADuUkR4vqLUMWXxW9gh6D6L8pMSawimctcNZ5pGwDcEt",
        "DttWaMuVvTiduZRnguLF7jNxTgiMBZ1hyAumKUiL2KRL",
        "3AVi9Tg9Uo68tJfuvoKvqKNWKkC5wPdSSdeBnizKZ6jT",
    ];
    for (bytes, text) in JITO_RECIPIENTS.iter().zip(recipients) {
        assert_eq!(Pubkey::from_str(text).unwrap().to_bytes(), *bytes);
    }
    let program = Pubkey::from_str("ComputeBudget111111111111111111111111111111").unwrap();
    assert_eq!(program.to_bytes(), COMPUTE_BUDGET_PROGRAM);
}

#[test]
fn bribe_is_a_transfer() {
    for i in 0..8 {
        assert_eq!(
            bribe_ix_to(i, &SIGNER, 0x0102_0304_0506_0708),
            expected_transfer(JITO_RECIPIENTS[i], 0x0102_0304_0506_0708)
        );
    }
}

#[test]
fn bribe_goes_to_any_recipient() {
    let mut seen = [false; 8];
    for _ in 0..2_000 {
        let ix = build_bribe_ix(&SIGNER, 77);
        let i = JITO_RECIPIENTS.iter().position(|r| *r == ix.accounts[1].pubkey).unwrap();
        assert_eq!(ix, expected_transfer(JITO_RECIPIENTS[i], 77));
        seen[i] = true;
    }
    assert_eq!(seen, [true; 8]);
}

#[test]
fn submission_has_five_instructions() {
    let ixs = submission_with_recipient(3, &SIGNER, 9, 26, 10_000, &SOLUTION, 6);
    assert_eq!(ixs.len(), 5);
    let limit = 480000u32.to_le_bytes();
    assert_eq!(
        ixs[0],
        Instruction {
            program_id: COMPUTE_BUDGET_PROGRAM,
            accounts: vec![],
            data: vec![2, limit[0], limit[1], limit[2], limit[3]],
        }
    );
    assert_eq!(
        ixs[1],
        Instruction {
            program_id: COMPUTE_BUDGET_PROGRAM,
            accounts: vec![],
            data: vec![3, 9, 0, 0, 0, 0, 0, 0, 0],
        }
    );
    assert_eq!(ixs[2], get_auth_ix(&SIGNER));
    assert_eq!(ixs[3], expected_transfer(JITO_RECIPIENTS[3], 28_000));
    assert_eq!(ixs[4], get_mine_ix(&SIGNER, &SOLUTION, 6));
}

#[test]
fn submission_tips_a_known_recipient() {
    let ixs = submission_instructions(&SIGNER, 0, 8, 500, &SOLUTION, 0);
    let to = ixs[3].accounts[1].pubkey;
    assert!(JITO_RECIPIENTS.contains(&to));
    assert_eq!(ixs[3], expected_transfer(to, 500));
    assert_eq!(ixs.len(), 5);
    assert_eq!(ixs[4], get_mine_ix(&SIGNER, &SOLUTION, 0));
}

#[test]
fn richest_bus_wins() {
    assert_eq!(best_bus(&vec![]), 0);
    assert_eq!(best_bus(&vec![Some(4)]), 0);
    assert_eq!(best_bus(&vec![Some(4), Some(9), None, Some(9), Some(1)]), 1);
    assert_eq!(best_bus(&vec![Some(4), None, Some(4)]), 0);
    assert_eq!(best_bus(&vec![None, None]), 0);
}

#[test]
fn busses_compare_with_the_first() {
    assert!(are_comparable(&vec![]));
    assert!(are_comparable(&vec![Some(1), None]));
    assert!(are_comparable(&vec![None, None]));
    assert!(!are_comparable(&vec![None, Some(1)]));
}

#[test]
fn bus_is_fetched_or_random() {
    assert_eq!(choose_bus(6, &None), 6);
    assert_eq!(choose_bus(6, &Some(vec![Some(1), Some(2)])), 1);
    let mut seen = [false; 8];
    for _ in 0..2_000 {
        seen[random_bus()] = true;
    }
    assert_eq!(seen, [true; 8]);
}
