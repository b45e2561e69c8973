//! The ORE program: its instructions, its accounts and its clock.
use vstd::prelude::*;
use crate::bytes::le_bytes;
use crate::dispatch::unsigned;
use crate::instruction::{AccountMeta, Instruction};
use crate::proof_account::Proof;
use crate::wire::Solution;

verus! {

/// The program that pays for solutions,
/// oreV2ZymfyeXgNgBdqMkumTqqAprVqgBWQfoYkrtKWQ.
pub const ORE_PROGRAM: [u8; 32] = [
    0x0c, 0x00, 0xda, 0x38, 0x8d, 0x68, 0xe7, 0x75, 0xb1, 0xb5, 0xc5, 0x6d, 0x01, 0x8d, 0x3e, 0x4c,
    0xd6, 0x86, 0x74, 0x0c, 0xf1, 0xc7, 0x11, 0x81, 0xa7, 0x51, 0x31, 0x50, 0xcb, 0x51, 0x1f, 0xd9,
];

/// The program that does nothing,
/// noop8ytexvkpCuqbf6FB89BSuNemHtPRqaNC31GWivW.
pub const NOOP_PROGRAM: [u8; 32] = [
    0x0b, 0xbc, 0x0f, 0xb6, 0xcb, 0x1d, 0xdd, 0x1c, 0xe3, 0xf2, 0xf2, 0xab, 0x1a, 0x0e, 0xbc, 0xb1,
    0x9d, 0x6b, 0x8a, 0x03, 0x12, 0x52, 0x74, 0x14, 0x5b, 0x1f, 0x80, 0x8b, 0xb9, 0x9a, 0xf0, 0x5b,
];

/// The account that holds the settings of the program,
/// 2G3WKgP9Eemzgbzk5B4w2JSAizjWfEmEwa4JMfzLyXzM.
pub const CONFIG_ADDRESS: [u8; 32] = [
    0x12, 0xb6, 0x3b, 0x6a, 0xe5, 0x56, 0xba, 0x85, 0xb9, 0x36, 0x6b, 0xe2, 0x91, 0xb4, 0x4e, 0x69,
    0x57, 0x98, 0x9d, 0x12, 0x31, 0xc8, 0xf7, 0x3d, 0x89, 0xcd, 0x30, 0xa0, 0x00, 0x48, 0x5b, 0x46,
];

/// The account through which a program sees its transaction,
/// Sysvar1nstructions1111111111111111111111111.
pub const SYSVAR_INSTRUCTIONS: [u8; 32] = [
    0x06, 0xa7, 0xd5, 0x17, 0x18, 0x7b, 0xd1, 0x66, 0x35, 0xda, 0xd4, 0x04, 0x55, 0xfd, 0xc2, 0xc0,
    0xc1, 0x24, 0xc6, 0x8f, 0x21, 0x56, 0x75, 0xa5, 0xdb, 0xba, 0xcb, 0x5f, 0x08, 0x00, 0x00, 0x00,
];

/// The account with the latest slot hashes,
/// SysvarS1otHashes111111111111111111111111111.
pub const SYSVAR_SLOT_HASHES: [u8; 32] = [
    0x06, 0xa7, 0xd5, 0x17, 0x19, 0x2f, 0x0a, 0xaf, 0xc6, 0xf2, 0x65, 0xe3, 0xfb, 0x77, 0xcc, 0x7a,
    0xda, 0x82, 0xc5, 0x29, 0xd0, 0xbe, 0x3b, 0x13, 0x6e, 0x2d, 0x00, 0x55, 0x20, 0x00, 0x00, 0x00,
];

/// The accounts of the busses.
pub const BUS_ADDRESSES: [[u8; 32]; 8] = [
    // C8cEcoWJh6yMEZCm5Pga2PEMVpFq96YM5EBnb7eSVFAi
    [
        0xa5, 0x63, 0x76, 0x42, 0x25, 0x2f, 0xe1, 0x64, 0xd5, 0xbe, 0x9a, 0x46, 0x44, 0xea, 0x5c, 0x56,
        0xc6, 0x1f, 0xc7, 0x69, 0x5d, 0x82, 0x17, 0x37, 0xfa, 0x2b, 0x10, 0x89, 0x98, 0x45, 0x2c, 0xbb,
    ],
    // 4Sykpy3XtAyTQUddVeSeXwx2pWQqz8jUJS582mVY5hFd
    [
        0x33, 0x3a, 0xc1, 0x3b, 0x41, 0x7d, 0x13, 0xfe, 0xd4, 0x01, 0x28, 0x26, 0xfa, 0x8f, 0x8d, 0x34,
        0xd2, 0xbb, 0xfa, 0x18, 0x73, 0xf6, 0xa7, 0x38, 0x52, 0xd1, 0x88, 0xcc, 0x4a, 0x0c, 0x34, 0x80,
    ],
    // M9MspudY8SgTXBq78XTJBoNKF2Z9pHcuY2Jti7YzbFd
    [
        0x05, 0x29, 0x11, 0x9c, 0x55, 0x45, 0x5e, 0x2c, 0x1c, 0x2a, 0x13, 0x03, 0xc2, 0xe6, 0xed, 0x52,
        0xd5, 0xfb, 0x73, 0x49, 0x6a, 0x56, 0xa8, 0xab, 0x1c, 0xad, 0x9c, 0x84, 0x96, 0x68, 0xda, 0x70,
    ],
    // 7PaX43nkYDySeHZndWHNNznqMrPZ7Rkmmo735iHJFyY1
    [
        0x5e, 0xee, 0xcc, 0x67, 0x15, 0x6a, 0x0e, 0x43, 0x15, 0x7e, 0x96, 0x1a, 0x1b, 0x63, 0xe6, 0x32,
        0x5d, 0xb4, 0x38, 0xf1, 0x91, 0x30, 0xcd, 0x76, 0xa1, 0x71, 0x24, 0xa4, 0x3e, 0x6e, 0x4d, 0x66,
    ],
    // AbCULZaMMB1TqzFkLMG2Tika6P1B52Q1mkjHnSWXiksC
    [
        0x8e, 0x7b, 0xe6, 0x88, 0xa3, 0x5a, 0x97, 0xda, 0xb6, 0x9d, 0xc0, 0x62, 0x87, 0x6c, 0xcb, 0x76,
        0x48, 0x65, 0x0f, 0xe6, 0x6a, 0xb7, 0x18, 0x07, 0x95, 0x57, 0x68, 0x80, 0xf7, 0xbe, 0x80, 0x93,
    ],
    // AbaPgzLdr1SppgPBX1WwrrJamhtJVAyMv6GZQ3mQEw6i
    [
        0x8e, 0x94, 0xaf, 0x75, 0xed, 0x49, 0x94, 0xd9, 0x30, 0x51, 0xc4, 0x64, 0x07, 0x75, 0x21, 0x18,
        0xb6, 0x87, 0xc2, 0x77, 0xa8, 0x99, 0x1d, 0x67, 0x9a, 0xc7, 0x58, 0x14, 0x85, 0x1c, 0x1e, 0xdb,
    ],
    // 2oLNTQKRb4a2117kFi6BYTUDu3RPrMVAHFhCfPKMosxX
    [
        0x1a, 0xba, 0x4e, 0x47, 0x8b, 0xa1, 0x84, 0x46, 0x80, 0xb6, 0x6b, 0x70, 0x8c, 0x90, 0xec, 0x25,
        0x84, 0x5a, 0xe0, 0x2b, 0x46, 0x4d, 0x8a, 0x93, 0x28, 0x3f, 0xc8, 0x97, 0x4d, 0x1f, 0x76, 0xcc,
    ],
    // 5HngGmYzvSuh3XyU11brHDpMTHXQQRQQT4udGFtQSjgR
    [
        0x3f, 0xbb, 0xb0, 0x1b, 0x19, 0x31, 0xa4, 0x31, 0x95, 0xe0, 0x50, 0x33, 0x49, 0x4b, 0x76, 0x90,
        0x49, 0x1a, 0xf3, 0xe3, 0x2f, 0x16, 0xb7, 0x4a, 0xb2, 0x4a, 0x31, 0x2c, 0x49, 0x2a, 0xa7, 0x0e,
    ],
];

/// The seconds from one hash of an account to its next.
pub const ONE_MINUTE: i64 = 60;

/// The byte that opens the data of a bus account.
pub const BUS_ACCOUNT: u8 = 100;

/// The byte that opens the data of the settings.
pub const CONFIG_ACCOUNT: u8 = 101;

/// The byte that opens the data of a proof account.
pub const PROOF_ACCOUNT: u8 = 102;

/// The address of the proof account of an authority, and the bump seed that leads to it.
pub uninterp spec fn proof_pda(authority: Seq<u8>) -> (Seq<u8>, u8);

/// The instruction names the proof account of the signer to a program that does nothing.
pub open spec fn is_auth(ix: Instruction, signer: [u8; 32]) -> bool {
    &&& ix.program_id == NOOP_PROGRAM
    &&& ix.accounts@ == Seq::<AccountMeta>::empty()
    &&& ix.data@ == proof_pda(signer@).0
}

/// The instruction hands in a solution for the proof account of the signer, to be paid for by a bus:
/// variant two of the program, the digest and the nonce.
pub open spec fn is_mine(ix: Instruction, signer: [u8; 32], bus: int, solution: Solution) -> bool {
    &&& ix.program_id == ORE_PROGRAM
    &&& ix.accounts@.len() == 6
    &&& ix.accounts@[0] == (AccountMeta { pubkey: signer, is_signer: true, is_writable: true })
    &&& ix.accounts@[1] == (AccountMeta { pubkey: BUS_ADDRESSES@[bus], is_signer: false, is_writable: true })
    &&& ix.accounts@[2] == (AccountMeta { pubkey: CONFIG_ADDRESS, is_signer: false, is_writable: false })
    &&& ix.accounts@[3].pubkey@ == proof_pda(signer@).0
    &&& !ix.accounts@[3].is_signer
    &&& ix.accounts@[3].is_writable
    &&& ix.accounts@[4] == (AccountMeta { pubkey: SYSVAR_INSTRUCTIONS, is_signer: false, is_writable: false })
    &&& ix.accounts@[5] == (AccountMeta { pubkey: SYSVAR_SLOT_HASHES, is_signer: false, is_writable: false })
    &&& ix.data@ == seq![2u8] + solution.d@ + solution.n@
}

/// The instruction opens the proof account of the signer, who mines and pays for it: variant three
/// of the program and the bump seed of the account. The system program's address is all zeros.
pub open spec fn is_register(ix: Instruction, signer: [u8; 32]) -> bool {
    &&& ix.program_id == ORE_PROGRAM
    &&& ix.accounts@.len() == 6
    &&& ix.accounts@[0] == (AccountMeta { pubkey: signer, is_signer: true, is_writable: true })
    &&& ix.accounts@[1] == (AccountMeta { pubkey: signer, is_signer: false, is_writable: false })
    &&& ix.accounts@[2] == (AccountMeta { pubkey: signer, is_signer: true, is_writable: true })
    &&& ix.accounts@[3].pubkey@ == proof_pda(signer@).0
    &&& !ix.accounts@[3].is_signer
    &&& ix.accounts@[3].is_writable
    &&& ix.accounts@[4].pubkey@ == Seq::new(32, |i: int| 0u8)
    &&& !ix.accounts@[4].is_signer
    &&& !ix.accounts@[4].is_writable
    &&& ix.accounts@[5] == (AccountMeta { pubkey: SYSVAR_SLOT_HASHES, is_signer: false, is_writable: false })
    &&& ix.data@ == seq![3u8, proof_pda(signer@).1]
}

/// Calls `ore_api::state::proof_pda`, which derives the account's address from the authority's. It
/// depends on the authority alone and is known here by name only. The function panics where none of
/// the 255 bump seeds that it tries gives an address; no such authority is known.
#[verifier::external_body]
fn derive_proof_account(authority: &[u8; 32]) -> (pda: ([u8; 32], u8))
    ensures
        (pda.0@, pda.1) == proof_pda(authority@),
{
    let (address, bump) = ore_api::state::proof_pda(solana_sdk::pubkey::Pubkey::new_from_array(*authority));
    (address.to_bytes(), bump)
}

/// Calls `ore_api::sdk::auth`, which addresses the program that does nothing, without accounts, and
/// passes the 32 bytes of the account's address.
#[verifier::external_body]
fn auth(proof_address: &[u8; 32]) -> (ix: Instruction)
    ensures
        ix.program_id == NOOP_PROGRAM,
        ix.accounts@ == Seq::<AccountMeta>::empty(),
        ix.data@ == proof_address@,
{
    let ix = ore_api::sdk::auth(solana_sdk::pubkey::Pubkey::new_from_array(*proof_address));
    Instruction {
        program_id: ix.program_id.to_bytes(),
        accounts: ix.accounts.into_iter().map(|a| AccountMeta {
            pubkey: a.pubkey.to_bytes(), is_signer: a.is_signer, is_writable: a.is_writable,
        }).collect(),
        data: ix.data,
    }
}

/// Calls `ore_api::sdk::mine` with the signer as the authority, the address that
/// `ore_api::consts::BUS_ADDRESSES` has for the bus, and no boosts. It lists the signer, the bus, the
/// settings, the proof account of the authority and two system accounts, and packs the variant, the
/// digest and the nonce. Like `ore_api::state::proof_pda`, which it calls, it panics where the
/// authority has no such address.
#[verifier::external_body]
fn mine(signer: &[u8; 32], bus: usize, solution: &Solution) -> (ix: Instruction)
    requires
        bus < 8,
    ensures
        is_mine(ix, *signer, bus as int, *solution),
{
    let signer = solana_sdk::pubkey::Pubkey::new_from_array(*signer);
    let solution = drillx::Solution::new(solution.d, solution.n);
    let bus = ore_api::consts::BUS_ADDRESSES[bus];
    let ix = ore_api::sdk::mine(signer, signer, bus, solution, Vec::new());
    Instruction {
        program_id: ix.program_id.to_bytes(),
        accounts: ix.accounts.into_iter().map(|a| AccountMeta {
            pubkey: a.pubkey.to_bytes(), is_signer: a.is_signer, is_writable: a.is_writable,
        }).collect(),
        data: ix.data,
    }
}

/// Calls `ore_api::sdk::open` with the signer as the miner and the payer. It lists the three of them,
/// the proof account of the signer and two system accounts, and packs the variant and the bump seed.
/// Like `ore_api::state::proof_pda`, which it calls, it panics where the signer has no such address.
#[verifier::external_body]
fn open_account(signer: &[u8; 32]) -> (ix: Instruction)
    ensures
        is_register(ix, *signer),
{
    let signer = solana_sdk::pubkey::Pubkey::new_from_array(*signer);
    let ix = ore_api::sdk::open(signer, signer, signer);
    Instruction {
        program_id: ix.program_id.to_bytes(),
        accounts: ix.accounts.into_iter().map(|a| AccountMeta {
            pubkey: a.pubkey.to_bytes(), is_signer: a.is_signer, is_writable: a.is_writable,
        }).collect(),
        data: ix.data,
    }
}

/// The address of the proof account of an authority.
pub fn proof_address(authority: &[u8; 32]) -> (address: [u8; 32])
    ensures
        address@ == proof_pda(authority@).0,
{
    derive_proof_account(authority).0
}

/// Builds the instruction that identifies the miner.
pub fn get_auth_ix(signer: &[u8; 32]) -> (ix: Instruction)
    ensures
        is_auth(ix, *signer),
        ix.program_id == NOOP_PROGRAM,
        ix.data@ == proof_pda(signer@).0,
{
    auth(&proof_address(signer))
}

/// Builds the instruction that hands in a solution.
pub fn get_mine_ix(signer: &[u8; 32], solution: &Solution, bus: usize) -> (ix: Instruction)
    requires
        bus < 8,
    ensures
        is_mine(ix, *signer, bus as int, *solution),
        ix.program_id == ORE_PROGRAM,
        ix.accounts@[0] == (AccountMeta { pubkey: *signer, is_signer: true, is_writable: true }),
        ix.accounts@[1].pubkey == BUS_ADDRESSES@[bus as int],
        ix.accounts@[3].pubkey@ == proof_pda(signer@).0,
        ix.data@ == seq![2u8] + solution.d@ + solution.n@,
{
    mine(signer, bus, solution)
}

/// Builds the instruction that opens the signer's proof account.
pub fn get_register_ix(signer: &[u8; 32]) -> (ix: Instruction)
    ensures
        is_register(ix, *signer),
        ix.program_id == ORE_PROGRAM,
        ix.accounts@[0] == (AccountMeta { pubkey: *signer, is_signer: true, is_writable: true }),
        ix.accounts@[3].pubkey@ == proof_pda(signer@).0,
        ix.data@ == seq![3u8, proof_pda(signer@).1],
{
    open_account(signer)
}

/// The nearest number that 64 bits can hold.
pub open spec fn saturated(value: int) -> int {
    if value > i64::MAX {
        i64::MAX as int
    } else if value < i64::MIN {
        i64::MIN as int
    } else {
        value
    }
}

/// Takes the nearest number that 64 bits can hold.
fn saturate(value: i128) -> (result: i64)
    ensures
        result == saturated(value as int),
{
    if value > i64::MAX as i128 {
        i64::MAX
    } else if value < i64::MIN as i128 {
        i64::MIN
    } else {
        value as i64
    }
}

/// The seconds that are left at `now` until an account may hand in its next hash, less a margin.
pub fn get_cutoff(last_hash_at: i64, margin_secs: i64, now: i64) -> (cutoff: i64)
    ensures
        cutoff == saturated(saturated(saturated(last_hash_at + ONE_MINUTE) - margin_secs) - now),
        i64::MIN <= last_hash_at + 60 <= i64::MAX && i64::MIN <= last_hash_at + 60 - margin_secs <= i64::MAX
            && i64::MIN <= last_hash_at + 60 - margin_secs - now <= i64::MAX ==> cutoff == last_hash_at + 60
            - margin_secs - now,
{
    let due: i64 = saturate(last_hash_at as i128 + ONE_MINUTE as i128);
    let early: i64 = saturate(due as i128 - margin_secs as i128);
    saturate(early as i128 - now as i128)
}

/// The data of an account can be read as one of the given kind, if only to find that it is none: the
/// opening byte is there, and where it is that of the kind, the other seven of the header are too.
pub open spec fn readable(data: Seq<u8>, kind: u8) -> bool {
    data.len() > 0 && (data[0] == kind ==> data.len() >= 8)
}

/// The data are those of a proof account: a header and the fields in their order.
pub open spec fn holds_proof(data: Seq<u8>, account: Proof) -> bool {
    &&& data.len() == 176
    &&& data[0] == PROOF_ACCOUNT
    &&& data.subrange(8, 40) == account.authority@
    &&& data.subrange(40, 48) == le_bytes(account.balance as nat, 8)
    &&& data.subrange(48, 80) == account.challenge@
    &&& data.subrange(80, 112) == account.last_hash@
    &&& data.subrange(112, 120) == le_bytes(unsigned(account.last_hash_at), 8)
    &&& data.subrange(120, 128) == le_bytes(unsigned(account.last_stake_at), 8)
    &&& data.subrange(128, 160) == account.miner@
    &&& data.subrange(160, 168) == le_bytes(account.total_hashes as nat, 8)
    &&& data.subrange(168, 176) == le_bytes(account.total_rewards as nat, 8)
}

/// The data are those of a bus with the given rewards: a header, the number of the bus, the rewards
/// and two more numbers.
pub open spec fn holds_bus(data: Seq<u8>, rewards: u64) -> bool {
    &&& data.len() == 40
    &&& data[0] == BUS_ACCOUNT
    &&& data.subrange(16, 24) == le_bytes(rewards as nat, 8)
}

/// The data are those of the settings: a header and four numbers.
pub open spec fn holds_config(data: Seq<u8>) -> bool {
    &&& data.len() == 40
    &&& data[0] == CONFIG_ACCOUNT
}

/// Calls `steel::AccountDeserialize::try_from_bytes` of `ore_api::state::Proof`, which checks the
/// opening byte and the length and lays the struct over the rest. It also turns down data whose
/// address in memory is not aligned for the struct, which the data themselves do not show, so success
/// is not promised. The numbers are read in the byte order of the machine; the contract speaks of
/// little-endian machines.
#[verifier::external_body]
fn parse_proof(data: &Vec<u8>) -> (parsed: Option<Proof>)
    requires
        readable(data@, PROOF_ACCOUNT),
    ensures
        parsed matches Some(account) ==> holds_proof(data@, account),
{
    match <ore_api::state::Proof as steel::AccountDeserialize>::try_from_bytes(data) {
        Ok(p) => Some(Proof {
            authority: p.authority.to_bytes(), balance: p.balance, challenge: p.challenge,
            last_hash: p.last_hash, last_hash_at: p.last_hash_at, last_stake_at: p.last_stake_at,
            miner: p.miner.to_bytes(), total_hashes: p.total_hashes, total_rewards: p.total_rewards,
        }),
        Err(_) => None,
    }
}

/// Calls `steel::AccountDeserialize::try_from_bytes` of `ore_api::state::Bus` and takes the rewards
/// out of the result. Success is not promised, and the machine is a little-endian one, as above.
#[verifier::external_body]
fn parse_bus(data: &Vec<u8>) -> (parsed: Option<u64>)
    requires
        readable(data@, BUS_ACCOUNT),
    ensures
        parsed matches Some(rewards) ==> holds_bus(data@, rewards),
{
    match <ore_api::state::Bus as steel::AccountDeserialize>::try_from_bytes(data) {
        Ok(bus) => Some(bus.rewards),
        Err(_) => None,
    }
}

/// Calls `steel::AccountDeserialize::try_from_bytes` of `ore_api::state::Config` and tells whether it
/// succeeded. Success is not promised, as above.
#[verifier::external_body]
fn parse_config(data: &Vec<u8>) -> (parsed: bool)
    requires
        readable(data@, CONFIG_ACCOUNT),
    ensures
        parsed ==> holds_config(data@),
{
    <ore_api::state::Config as steel::AccountDeserialize>::try_from_bytes(data).is_ok()
}

/// Tells whether the data can be read as those of an account of the given kind.
pub fn is_readable(data: &Vec<u8>, kind: u8) -> (ok: bool)
    ensures
        ok == readable(data@, kind),
        !ok <==> data@.len() == 0 || (data@[0] == kind && data@.len() < 8),
{
    data.len() > 0 && (data[0] != kind || data.len() >= 8)
}

/// Reads a proof account.
pub fn read_proof(data: &Vec<u8>) -> (account: Option<Proof>)
    requires
        readable(data@, PROOF_ACCOUNT),
    ensures
        account matches Some(a) ==> holds_proof(data@, a),
{
    parse_proof(data)
}

/// The accounts that were fetched for a submission, those that exist: the proof account, the
/// settings and the busses.
pub open spec fn all_readable(accounts: Seq<Option<Vec<u8>>>) -> bool {
    forall|i: int|
        0 <= i < accounts.len() ==> ((#[trigger] accounts[i]) matches Some(data) ==> readable(
            data@,
            kind_at(i),
        ))
}

/// The kind of the account at a place in that list.
pub open spec fn kind_at(i: int) -> u8 {
    if i == 0 {
        PROOF_ACCOUNT
    } else if i == 1 {
        CONFIG_ACCOUNT
    } else {
        BUS_ACCOUNT
    }
}

/// Tells whether `read_busses` can take these accounts.
pub fn are_readable(accounts: &Vec<Option<Vec<u8>>>) -> (ok: bool)
    ensures
        ok == all_readable(accounts@),
{
    let mut i: usize = 0;
    while i < accounts.len()
        invariant
            i <= accounts@.len(),
            forall|j: int|
                0 <= j < i ==> ((#[trigger] accounts@[j]) matches Some(data) ==> readable(
                    data@,
                    kind_at(j),
                )),
        decreases accounts@.len() - i,
    {
        let kind: u8 = if i == 0 {
            PROOF_ACCOUNT
        } else if i == 1 {
            CONFIG_ACCOUNT
        } else {
            BUS_ACCOUNT
        };
        if let Some(data) = &accounts[i] {
            if !is_readable(data, kind) {
                assert(!readable(accounts@[i as int]->0@, kind_at(i as int)));
                return false;
            }
        }
        i += 1;
    }
    true
}

/// The rewards of the busses count only where the proof account and the settings were loaded too.
pub fn rewards_to_compare(proof_loaded: bool, config_loaded: bool, rewards: Vec<Option<u64>>) -> (fetched:
    Option<Vec<Option<u64>>>)
    ensures
        fetched == (if proof_loaded && config_loaded {
            Some(rewards)
        } else {
            None
        }),
{
    if proof_loaded && config_loaded {
        Some(rewards)
    } else {
        None
    }
}

/// Reads the rewards of the eight busses, those that were loaded, from the accounts fetched for a
/// submission.
pub fn read_busses(accounts: &Vec<Option<Vec<u8>>>) -> (fetched: Option<Vec<Option<u64>>>)
    requires
        all_readable(accounts@),
    ensures
        accounts@.len() != 10 ==> fetched is None,
        fetched matches Some(rewards) ==> {
            &&& exists|account: Proof|
                accounts@[0] is Some && #[trigger] holds_proof(accounts@[0]->0@, account)
            &&& accounts@[1] is Some && holds_config(accounts@[1]->0@)
            &&& rewards@.len() == 8
            &&& forall|i: int|
                0 <= i < 8 ==> ((#[trigger] rewards@[i]) matches Some(r) ==> accounts@[i + 2] is Some
                    && holds_bus(accounts@[i + 2]->0@, r))
        },
{
    if accounts.len() != 10 {
        return None;
    }
    assert(accounts@[0] matches Some(data) ==> readable(data@, kind_at(0)));
    let proof_loaded: bool = match &accounts[0] {
        Some(data) => parse_proof(data).is_some(),
        None => false,
    };
    assert(accounts@[1] matches Some(data) ==> readable(data@, kind_at(1)));
    let config_loaded: bool = match &accounts[1] {
        Some(data) => parse_config(data),
        None => false,
    };
    let mut rewards: Vec<Option<u64>> = Vec::new();
    let mut i: usize = 2;
    while i < 10
        invariant
            2 <= i <= 10,
            accounts@.len() == 10,
            all_readable(accounts@),
            rewards@.len() == i - 2,
            forall|j: int|
                0 <= j < i - 2 ==> ((#[trigger] rewards@[j]) matches Some(r) ==> accounts@[j + 2] is Some
                    && holds_bus(accounts@[j + 2]->0@, r)),
        decreases 10 - i,
    {
        assert(accounts@[i as int] matches Some(data) ==> readable(data@, kind_at(i as int)));
        let found: Option<u64> = match &accounts[i] {
            Some(data) => parse_bus(data),
            None => None,
        };
        rewards.push(found);
        i += 1;
    }
    rewards_to_compare(proof_loaded, config_loaded, rewards)
}

/// A number that 64 bits can hold stays as it is; one beyond becomes the nearest that they can.
pub proof fn saturation_is_nearest(value: int)
    ensures
        i64::MIN <= value <= i64::MAX ==> saturated(value) == value,
        value > i64::MAX ==> saturated(value) == i64::MAX,
        value < i64::MIN ==> saturated(value) == i64::MIN,
{
}

/// Data cannot be read only where they are empty, or open as those of the kind and end before the
/// eighth byte.
pub proof fn only_cut_off_data_are_unreadable(data: Seq<u8>, kind: u8)
    ensures
        !readable(data, kind) <==> data.len() == 0 || (data[0] == kind && data.len() < 8),
{
}

/// The accounts of a submission are the proof account, the settings and then the busses; they can be
/// read unless one of them is empty or cut off in its header.
pub proof fn only_cut_off_accounts_are_unreadable(accounts: Seq<Option<Vec<u8>>>)
    ensures
        all_readable(accounts) <==> forall|i: int|
            0 <= i < accounts.len() && (#[trigger] accounts[i]) is Some ==> {
                let data = accounts[i]->0@;
                &&& data.len() > 0
                &&& i == 0 && data[0] == 102 ==> data.len() >= 8
                &&& i == 1 && data[0] == 101 ==> data.len() >= 8
                &&& i > 1 && data[0] == 100 ==> data.len() >= 8
            },
{
    if forall|i: int|
        0 <= i < accounts.len() && (#[trigger] accounts[i]) is Some ==> {
            let data = accounts[i]->0@;
            &&& data.len() > 0
            &&& i == 0 && data[0] == 102 ==> data.len() >= 8
            &&& i == 1 && data[0] == 101 ==> data.len() >= 8
            &&& i > 1 && data[0] == 100 ==> data.len() >= 8
        } {
        assert forall|i: int| 0 <= i < accounts.len() implies ((#[trigger] accounts[i]) matches Some(data)
            ==> readable(data@, kind_at(i))) by {}
    }
}

} // verus!
