use ore_pool::instruction::{AccountMeta, Instruction};
use ore_pool::ore_utils::{
    are_readable, get_auth_ix, get_cutoff, get_mine_ix, get_register_ix, is_readable, proof_address,
    read_busses, read_proof, rewards_to_compare, BUS_ACCOUNT, BUS_ADDRESSES, CONFIG_ACCOUNT,
    CONFIG_ADDRESS, NOOP_PROGRAM, ONE_MINUTE, ORE_PROGRAM, PROOF_ACCOUNT, SYSVAR_INSTRUCTIONS,
    SYSVAR_SLOT_HASHES,
};
use ore_pool::proof_account::Proof;
use ore_pool::wire::Solution;
use solana_sdk::pubkey::Pubkey;
use std::str::FromStr;

const SIGNER: [u8; 32] = [5; 32];

fn meta(pubkey: [u8; 32], is_signer: bool, is_writable: bool) -> AccountMeta {
    AccountMeta { pubkey, is_signer, is_writable }
}

fn solution() -> Solution {
    let mut d = [0u8; 16];
    for i in 0..16 {
        d[i] = i as u8 + 1;
    }
    Solution { d, n: [21, 22, 23, 24, 25, 26, 27, 28] }
}

/// The data of an account, eight bytes of header and then the body.
fn account_data(kind: u8, body: &[u8]) -> Vec<u8> {
    let mut data = vec![kind, 0, 0, 0, 0, 0, 0, 0];
    data.extend_from_slice(body);
    data
}

fn bus_data(id: u64, rewards: u64) -> Vec<u8> {
    let mut body = Vec::new();
    for number in [id, rewards, 91, 92] {
        body.extend_from_slice(&number.to_le_bytes());
    }
    account_data(BUS_ACCOUNT, &body)
}

fn proof_data() -> Vec<u8> {
    let mut body = Vec::new();
    body.extend_from_slice(&[1; 32]);
    body.extend_from_slice(&0x0102_0304_0506_0708u64.to_le_bytes());
    body.extend_from_slice(&[2; 32]);
    body.extend_from_slice(&[3; 32]);
    body.extend_from_slice(&(-4i64).to_le_bytes());
    body.extend_from_slice(&5i64.to_le_bytes());
    body.extend_from_slice(&[6; 32]);
    body.extend_from_slice(&7u64.to_le_bytes());
    body.extend_from_slice(&8u64.to_le_bytes());
    account_data(PROOF_ACCOUNT, &body)
}

#[test]
fn addresses_are_those_of_the_program() {
    for i in 0..8 {
        assert_eq!(BUS_ADDRESSES[i], ore_api::consts::BUS_ADDRESSES[i].to_bytes());
    }
    assert_eq!(CONFIG_ADDRESS, ore_api::consts::CONFIG_ADDRESS.to_bytes());
    assert_eq!(NOOP_PROGRAM, ore_api::consts::NOOP_PROGRAM_ID.to_bytes());
    assert_eq!(ORE_PROGRAM, ore_api::ID.to_bytes());
    assert_eq!(ONE_MINUTE, ore_api::consts::ONE_MINUTE);
    let published = [
        ("Sysvar1nstructions1111111111111111111111111", SYSVAR_INSTRUCTIONS),
        ("SysvarS1otHashes111111111111111111111111111", SYSVAR_SLOT_HASHES),
        ("oreV2ZymfyeXgNgBdqMkumTqqAprVqgBWQfoYkrtKWQ", ORE_PROGRAM),
        ("noop8ytexvkpCuqbf6FB89BSuNemHtPRqaNC31GWivW", NOOP_PROGRAM),
    ];
    for (text, bytes) in published {
        assert_eq!(Pubkey::from_str(text).unwrap().to_bytes(), bytes);
    }
}

#[test]
fn proof_account_has_a_derived_address() {
    let signer = Pubkey::new_from_array(SIGNER);
    let (expected, _) =
        Pubkey::find_program_address(&[b"proof", signer.as_ref()], &Pubkey::new_from_array(ORE_PROGRAM));
    assert_eq!(proof_address(&SIGNER), expected.to_bytes());
    assert_ne!(proof_address(&SIGNER), SIGNER);
    assert_ne!(proof_address(&SIGNER), proof_address(&[6; 32]));
}

#[test]
fn auth_names_the_proof_account() {
    assert_eq!(
        get_auth_ix(&SIGNER),
        Instruction {
            program_id: NOOP_PROGRAM,
            accounts: vec![],
            data: proof_address(&SIGNER).to_vec(),
        }
    );
}

#[test]
fn mine_carries_the_solution() {
    for bus in 0..8 {
        let mut data = vec![2];
        data.extend_from_slice(&solution().d);
        data.extend_from_slice(&solution().n);
        assert_eq!(
            get_mine_ix(&SIGNER, &solution(), bus),
            Instruction {
                program_id: ORE_PROGRAM,
                accounts: vec![
                    meta(SIGNER, true, true),
                    meta(BUS_ADDRESSES[bus], false, true),
                    meta(CONFIG_ADDRESS, false, false),
                    meta(proof_address(&SIGNER), false, true),
                    meta(SYSVAR_INSTRUCTIONS, false, false),
                    meta(SYSVAR_SLOT_HASHES, false, false),
                ],
                data,
            }
        );
    }
}

#[test]
fn register_opens_the_proof_account() {
    let signer = Pubkey::new_from_array(SIGNER);
    let (_, bump) =
        Pubkey::find_program_address(&[b"proof", signer.as_ref()], &Pubkey::new_from_array(ORE_PROGRAM));
    assert_eq!(
        get_register_ix(&SIGNER),
        Instruction {
            program_id: ORE_PROGRAM,
            accounts: vec![
                meta(SIGNER, true, true),
                meta(SIGNER, false, false),
                meta(SIGNER, true, true),
                meta(proof_address(&SIGNER), false, true),
                meta([0; 32], false, false),
                meta(SYSVAR_SLOT_HASHES, false, false),
            ],
            data: vec![3, bump],
        }
    );
}

#[test]
fn cutoff_is_a_minute_after_the_last_hash() {
    assert_eq!(get_cutoff(1_000, 0, 1_010), 50);
    assert_eq!(get_cutoff(1_000, 5, 1_010), 45);
    assert_eq!(get_cutoff(1_000, 0, 1_061), -1);
    assert_eq!(get_cutoff(i64::MAX, 0, 0), i64::MAX);
    assert_eq!(get_cutoff(i64::MAX, 1, 1), i64::MAX - 2);
    assert_eq!(get_cutoff(i64::MIN, 61, 1), i64::MIN);
    assert_eq!(get_cutoff(0, 0, i64::MIN), i64::MAX);
}

#[test]
fn proof_account_is_read_field_by_field() {
    assert_eq!(
        read_proof(&proof_data()),
        Some(Proof {
            authority: [1; 32],
            balance: 0x0102_0304_0506_0708,
            challenge: [2; 32],
            last_hash: [3; 32],
            last_hash_at: -4,
            last_stake_at: 5,
            miner: [6; 32],
            total_hashes: 7,
            total_rewards: 8,
        })
    );
    let mut longer = proof_data();
    longer.push(0);
    assert_eq!(read_proof(&longer), None);
    let mut other = proof_data();
    other[0] = BUS_ACCOUNT;
    assert_eq!(read_proof(&other), None);
    assert_eq!(read_proof(&vec![BUS_ACCOUNT]), None);
}

#[test]
fn readable_data_have_a_header() {
    assert!(!is_readable(&vec![], PROOF_ACCOUNT));
    assert!(!is_readable(&vec![PROOF_ACCOUNT; 7], PROOF_ACCOUNT));
    assert!(is_readable(&vec![PROOF_ACCOUNT; 8], PROOF_ACCOUNT));
    assert!(is_readable(&vec![0], PROOF_ACCOUNT));
    let short = |kind: u8| Some(vec![kind; 3]);
    assert!(are_readable(&vec![]));
    assert!(are_readable(&vec![None, None, None]));
    assert!(are_readable(&vec![short(BUS_ACCOUNT), short(BUS_ACCOUNT), short(CONFIG_ACCOUNT)]));
    assert!(!are_readable(&vec![short(PROOF_ACCOUNT)]));
    assert!(!are_readable(&vec![None, short(CONFIG_ACCOUNT)]));
    assert!(!are_readable(&vec![None, None, None, short(BUS_ACCOUNT)]));
}

#[test]
fn busses_are_read_with_their_rewards() {
    let config = account_data(CONFIG_ACCOUNT, &[9; 32]);
    let mut accounts = vec![Some(proof_data()), Some(config)];
    for i in 0..8 {
        accounts.push(Some(bus_data(i, 100 + i)));
    }
    accounts[4] = None;
    accounts[5] = Some(proof_data());
    assert!(are_readable(&accounts));
    assert_eq!(
        read_busses(&accounts),
        Some(vec![
            Some(100),
            Some(101),
            None,
            None,
            Some(104),
            Some(105),
            Some(106),
            Some(107),
        ])
    );
    let mut without_proof = accounts.clone();
    without_proof[0] = None;
    assert_eq!(read_busses(&without_proof), None);
    let mut without_config = accounts.clone();
    without_config[1] = Some(bus_data(0, 1));
    assert_eq!(read_busses(&without_config), None);
    accounts.pop();
    assert_eq!(read_busses(&accounts), None);
}

#[test]
fn rewards_need_proof_and_settings() {
    let rewards = vec![Some(1), None];
    assert_eq!(rewards_to_compare(true, true, rewards.clone()), Some(rewards.clone()));
    assert_eq!(rewards_to_compare(true, false, rewards.clone()), None);
    assert_eq!(rewards_to_compare(false, true, rewards), None);
}
