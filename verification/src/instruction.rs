//! The instructions of a submission.
use vstd::prelude::*;
use crate::bytes::le_bytes;
use crate::chance::random_index;
use crate::fee::{adjust_fee, adjusted_fee, fee_fits};
use crate::ore_utils::{get_auth_ix, get_mine_ix, is_auth, is_mine, proof_pda, BUS_ADDRESSES, NOOP_PROGRAM, ORE_PROGRAM};
use crate::wire::Solution;

verus! {

/// An account that an instruction reads or writes.
#[derive(Clone, Copy, Debug, PartialEq, Eq)]
pub struct AccountMeta {
    pub pubkey: [u8; 32],
    pub is_signer: bool,
    pub is_writable: bool,
}

/// A call of an on-chain program.
#[derive(Clone, Debug, PartialEq, Eq)]
pub struct Instruction {
    pub program_id: [u8; 32],
    pub accounts: Vec<AccountMeta>,
    pub data: Vec<u8>,
}

/// The compute units that a submission may use up.
pub const COMPUTE_UNIT_LIMIT: u32 = 480000;

/// The program that sets limits and prices of compute units,
/// ComputeBudget111111111111111111111111111111.
pub const COMPUTE_BUDGET_PROGRAM: [u8; 32] = [
    0x03, 0x06, 0x46, 0x6f, 0xe5, 0x21, 0x17, 0x32, 0xff, 0xec, 0xad, 0xba, 0x72, 0xc3, 0x9b, 0xe7,
    0xbc, 0x8c, 0xe5, 0xbb, 0xc5, 0xf7, 0x12, 0x6b, 0x2c, 0x43, 0x9b, 0x3a, 0x40, 0x00, 0x00, 0x00,
];

/// The accounts of the block builder that take tips.
pub const JITO_RECIPIENTS: [[u8; 32]; 8] = [
    // 96gYZGLnJYVFmbjzopPSU6QiEV5fGqZNyN9nmNhvrZU5
    [
        0x78, 0x52, 0x1c, 0xb1, 0x79, 0xce, 0xbb, 0x85, 0x89, 0xb5, 0x56, 0xa2, 0xd5, 0xec, 0x94, 0xd2,
        0x49, 0x86, 0x82, 0xfd, 0xf9, 0xbb, 0x2a, 0xf5, 0xad, 0x64, 0xe4, 0x91, 0xcc, 0x41, 0x53, 0xda,
    ],
    // HFqU5x63VTqvQss8hp11i4wVV8bD44PvwucfZ2bU7gRe
    [
        0xf1, 0x87, 0xec, 0x87, 0xd1, 0xf7, 0x45, 0xcb, 0x3a, 0x03, 0x38, 0x4a, 0x26, 0xa6, 0x9e, 0xda,
        0x0c, 0xa2, 0xd1, 0xaa, 0x0f, 0x41, 0xe4, 0x24, 0x16, 0x37, 0x7e, 0x91, 0xff, 0x5b, 0x5d, 0x31,
    ],
    // Cw8CFyM9FkoMi7K7Crf6HNQqf4uEMzpKw6QNghXLvLkY
    [
        0xb1, 0x4e, 0x0d, 0xe5, 0x5e, 0x9f, 0xba, 0x86, 0x39, 0x6e, 0xbf, 0xd5, 0x48, 0xcf, 0xf8, 0xc9,
        0x20, 0x11, 0xea, 0xc7, 0xb7, 0x5b, 0xaa, 0x9b, 0x2d, 0x9c, 0x6a, 0x86, 0xf5, 0xa1, 0x71, 0x41,
    ],
    // ADaUMid9yfUytqMBgopwjb2DTLSokTSzL1zt6iGPaS49
    [
        0x88, 0xf1, 0xff, 0xa3, 0xa2, 0xdf, 0xe6, 0x17, 0xbd, 0xc4, 0xe3, 0x57, 0x32, 0x51, 0xa3, 0x22,
        0xe3, 0xfc, 0xae, 0x81, 0xe5, 0xa4, 0x57, 0x39, 0x0e, 0x64, 0x75, 0x1c, 0x00, 0xa4, 0x65, 0xe2,
    ],
    // DfXygSm4jCyNCybVYYK6DwvWqjKee8pbDmJGcLWNDXjh
    [
        0xbc, 0x2b, 0x57, 0x06, 0x5e, 0xf1, 0xdd, 0x66, 0x54, 0x30, 0xbe, 0x60, 0x6b, 0xa6, 0x59, 0x6c,
        0x02, 0x95, 0x30, 0x1b, 0xad, 0xef, 0x8b, 0x5a, 0xfc, 0x41, 0x01, 0x41, 0x50, 0xf4, 0x12, 0x74,
    ],
    // ADuUkR4vqLUMWXxW9gh6D6L8pMSawimctcNZ5pGwDcEt
    [
        0x89, 0x07, 0x7d, 0x55, 0xa5, 0xbb, 0x13, 0x30, 0x76, 0x3e, 0xb7, 0x67, 0xf5, 0x5e, 0xc0, 0x77,
        0xb4, 0x1a, 0x0d, 0x07, 0x5f, 0x7d, 0xe1, 0xd7, 0x3f, 0xba, 0xca, 0x3c, 0x63, 0xd5, 0x54, 0x71,
    ],
    // DttWaMuVvTiduZRnguLF7jNxTgiMBZ1hyAumKUiL2KRL
    [
        0xbf, 0x97, 0x1b, 0x59, 0x10, 0x8b, 0x5b, 0x85, 0xa0, 0x4f, 0xb0, 0x93, 0xf1, 0xe2, 0x1b, 0x4e,
        0x3f, 0xd4, 0xc4, 0xc8, 0xf4, 0x87, 0xdd, 0x09, 0xb9, 0x57, 0x52, 0x76, 0x9f, 0x0d, 0xd8, 0xc3,
    ],
    // 3AVi9Tg9Uo68tJfuvoKvqKNWKkC5wPdSSdeBnizKZ6jT
    [
        0x20, 0x26, 0x10, 0x1e, 0xc2, 0x03, 0x28, 0x96, 0x4a, 0x32, 0xab, 0xab, 0x13, 0x6c, 0x54, 0x05,
        0xb9, 0x1f, 0x3a, 0xe3, 0x8e, 0xe4, 0xf6, 0x4c, 0xb6, 0xbd, 0xe8, 0x79, 0xb8, 0x68, 0x38, 0xd2,
    ],
];

/// The instruction moves `lamports` from one account, which signs for it, to another: variant two
/// of the system program, whose address is all zeros.
pub open spec fn is_transfer(ix: Instruction, from: [u8; 32], to: [u8; 32], lamports: nat) -> bool {
    &&& ix.program_id@ == Seq::new(32, |i: int| 0u8)
    &&& ix.accounts@ == seq![
        AccountMeta { pubkey: from, is_signer: true, is_writable: true },
        AccountMeta { pubkey: to, is_signer: false, is_writable: true },
    ]
    &&& ix.data@ == le_bytes(2, 4) + le_bytes(lamports, 8)
}

/// The instruction limits the compute units: variant two of the compute budget program.
pub open spec fn is_compute_unit_limit(ix: Instruction, units: u32) -> bool {
    &&& ix.program_id == COMPUTE_BUDGET_PROGRAM
    &&& ix.accounts@ == Seq::<AccountMeta>::empty()
    &&& ix.data@ == seq![2u8] + le_bytes(units as nat, 4)
}

/// The instruction prices a compute unit: variant three of the compute budget program.
pub open spec fn is_compute_unit_price(ix: Instruction, micro_lamports: u64) -> bool {
    &&& ix.program_id == COMPUTE_BUDGET_PROGRAM
    &&& ix.accounts@ == Seq::<AccountMeta>::empty()
    &&& ix.data@ == seq![3u8] + le_bytes(micro_lamports as nat, 8)
}

/// Calls `solana_sdk::system_instruction::transfer`, which addresses the system program, lists the
/// payer as a writable signer and the recipient as writable, and packs the variant and the amount.
#[verifier::external_body]
fn transfer(from: &[u8; 32], to: &[u8; 32], lamports: u64) -> (ix: Instruction)
    ensures
        is_transfer(ix, *from, *to, lamports as nat),
{
    let from = solana_sdk::pubkey::Pubkey::new_from_array(*from);
    let to = solana_sdk::pubkey::Pubkey::new_from_array(*to);
    let ix = solana_sdk::system_instruction::transfer(&from, &to, lamports);
    Instruction {
        program_id: ix.program_id.to_bytes(),
        accounts: ix.accounts.into_iter().map(|a| AccountMeta {
            pubkey: a.pubkey.to_bytes(), is_signer: a.is_signer, is_writable: a.is_writable,
        }).collect(),
        data: ix.data,
    }
}

/// Calls `ComputeBudgetInstruction::set_compute_unit_limit`, which addresses the compute budget
/// program, without accounts, and packs the variant and the limit.
#[verifier::external_body]
fn set_compute_unit_limit(units: u32) -> (ix: Instruction)
    ensures
        is_compute_unit_limit(ix, units),
{
    let ix = solana_sdk::compute_budget::ComputeBudgetInstruction::set_compute_unit_limit(units);
    Instruction {
        program_id: ix.program_id.to_bytes(),
        accounts: ix.accounts.into_iter().map(|a| AccountMeta {
            pubkey: a.pubkey.to_bytes(), is_signer: a.is_signer, is_writable: a.is_writable,
        }).collect(),
        data: ix.data,
    }
}

/// Calls `ComputeBudgetInstruction::set_compute_unit_price`, which addresses the compute budget
/// program, without accounts, and packs the variant and the price.
#[verifier::external_body]
fn set_compute_unit_price(micro_lamports: u64) -> (ix: Instruction)
    ensures
        is_compute_unit_price(ix, micro_lamports),
{
    let ix = solana_sdk::compute_budget::ComputeBudgetInstruction::set_compute_unit_price(micro_lamports);
    Instruction {
        program_id: ix.program_id.to_bytes(),
        accounts: ix.accounts.into_iter().map(|a| AccountMeta {
            pubkey: a.pubkey.to_bytes(), is_signer: a.is_signer, is_writable: a.is_writable,
        }).collect(),
        data: ix.data,
    }
}

/// Builds the transfer of a tip to one of the recipients.
pub fn bribe_ix_to(recipient: usize, pubkey: &[u8; 32], value: u64) -> (ix: Instruction)
    requires
        recipient < 8,
    ensures
        is_transfer(ix, *pubkey, JITO_RECIPIENTS@[recipient as int], value as nat),
        ix.accounts@.len() == 2,
        ix.accounts@[0] == (AccountMeta { pubkey: *pubkey, is_signer: true, is_writable: true }),
        ix.accounts@[1].pubkey == JITO_RECIPIENTS@[recipient as int],
        ix.data@ == le_bytes(2, 4) + le_bytes(value as nat, 8),
{
    let recipients = JITO_RECIPIENTS;
    transfer(pubkey, &recipients[recipient], value)
}

/// Builds the transfer of a tip to a recipient picked at random.
pub fn build_bribe_ix(pubkey: &[u8; 32], value: u64) -> (ix: Instruction)
    ensures
        exists|i: int|
            0 <= i < 8 && is_transfer(ix, *pubkey, #[trigger] JITO_RECIPIENTS@[i], value as nat),
        ix.accounts@.len() == 2,
        ix.accounts@[0] == (AccountMeta { pubkey: *pubkey, is_signer: true, is_writable: true }),
        exists|i: int| 0 <= i < 8 && ix.accounts@[1].pubkey == #[trigger] JITO_RECIPIENTS@[i],
        ix.data@ == le_bytes(2, 4) + le_bytes(value as nat, 8),
{
    bribe_ix_to(random_index(8), pubkey, value)
}

/// The instructions of a submission in their order: the limit and the price of compute units, the
/// instruction that identifies the miner, the tip to one of the recipients, and the solution.
pub open spec fn is_submission(
    ixs: Seq<Instruction>,
    signer: [u8; 32],
    prio_fee: u64,
    recipient: [u8; 32],
    tip: nat,
    solution: Solution,
    bus: int,
) -> bool {
    &&& ixs.len() == 5
    &&& is_compute_unit_limit(ixs[0], COMPUTE_UNIT_LIMIT)
    &&& is_compute_unit_price(ixs[1], prio_fee)
    &&& is_auth(ixs[2], signer)
    &&& is_transfer(ixs[3], signer, recipient, tip)
    &&& is_mine(ixs[4], signer, bus, solution)
}

/// Puts the instructions of a submission together around the transfer of the tip.
fn assemble(signer: &[u8; 32], prio_fee: u64, bribe: Instruction, solution: &Solution, bus: usize) -> (ixs: Vec<
    Instruction,
>)
    requires
        bus < 8,
    ensures
        ixs@.len() == 5,
        is_compute_unit_limit(ixs@[0], COMPUTE_UNIT_LIMIT),
        is_compute_unit_price(ixs@[1], prio_fee),
        is_auth(ixs@[2], *signer),
        ixs@[3] == bribe,
        is_mine(ixs@[4], *signer, bus as int, *solution),
{
    let mut ixs: Vec<Instruction> = Vec::new();
    ixs.push(set_compute_unit_limit(COMPUTE_UNIT_LIMIT));
    ixs.push(set_compute_unit_price(prio_fee));
    ixs.push(get_auth_ix(signer));
    ixs.push(bribe);
    ixs.push(get_mine_ix(signer, solution, bus));
    ixs
}

/// Puts the instructions of a submission together, with the tip that its difficulty calls for, paid
/// to the given recipient.
pub fn submission_with_recipient(
    recipient: usize,
    signer: &[u8; 32],
    prio_fee: u64,
    difficulty: u32,
    jito_tip_lamports: u64,
    solution: &Solution,
    bus: usize,
) -> (ixs: Vec<Instruction>)
    requires
        recipient < 8,
        bus < 8,
        fee_fits(difficulty, jito_tip_lamports),
    ensures
        is_submission(
            ixs@,
            *signer,
            prio_fee,
            JITO_RECIPIENTS@[recipient as int],
            adjusted_fee(difficulty, jito_tip_lamports),
            *solution,
            bus as int,
        ),
        ixs@.len() == 5,
        is_compute_unit_limit(ixs@[0], 480000),
        is_compute_unit_price(ixs@[1], prio_fee),
        is_auth(ixs@[2], *signer),
        is_mine(ixs@[4], *signer, bus as int, *solution),
        is_transfer(
            ixs@[3],
            *signer,
            JITO_RECIPIENTS@[recipient as int],
            adjusted_fee(difficulty, jito_tip_lamports),
        ),
{
    let fee: u64 = adjust_fee(difficulty, jito_tip_lamports);
    assemble(signer, prio_fee, bribe_ix_to(recipient, signer, fee), solution, bus)
}

/// Puts the instructions of a submission together, with the tip that its difficulty calls for, paid
/// to a recipient picked at random.
pub fn submission_instructions(
    signer: &[u8; 32],
    prio_fee: u64,
    difficulty: u32,
    jito_tip_lamports: u64,
    solution: &Solution,
    bus: usize,
) -> (ixs: Vec<Instruction>)
    requires
        bus < 8,
        fee_fits(difficulty, jito_tip_lamports),
    ensures
        exists|i: int|
            0 <= i < 8 && is_submission(
                ixs@,
                *signer,
                prio_fee,
                #[trigger] JITO_RECIPIENTS@[i],
                adjusted_fee(difficulty, jito_tip_lamports),
                *solution,
                bus as int,
            ),
        ixs@.len() == 5,
        is_compute_unit_limit(ixs@[0], 480000),
        is_compute_unit_price(ixs@[1], prio_fee),
        is_auth(ixs@[2], *signer),
        is_mine(ixs@[4], *signer, bus as int, *solution),
        exists|i: int|
            0 <= i < 8 && is_transfer(
                ixs@[3],
                *signer,
                #[trigger] JITO_RECIPIENTS@[i],
                adjusted_fee(difficulty, jito_tip_lamports),
            ),
{
    let fee: u64 = adjust_fee(difficulty, jito_tip_lamports);
    assemble(signer, prio_fee, build_bribe_ix(signer, fee), solution, bus)
}

/// A submission holds five instructions, in this order: 480000 compute units at most, their price,
/// the address of the signer's proof account, the tip of the signer to the recipient, and the
/// solution, signed by the signer and paid for by the bus.
pub proof fn submission_pays_and_hands_in(
    ixs: Seq<Instruction>,
    signer: [u8; 32],
    prio_fee: u64,
    recipient: [u8; 32],
    tip: nat,
    solution: Solution,
    bus: int,
)
    requires
        is_submission(ixs, signer, prio_fee, recipient, tip, solution, bus),
    ensures
        ixs.len() == 5,
        ixs[0].program_id == COMPUTE_BUDGET_PROGRAM,
        ixs[1].program_id == COMPUTE_BUDGET_PROGRAM,
        ixs[2].program_id == NOOP_PROGRAM,
        ixs[3].program_id@ == Seq::new(32, |i: int| 0u8),
        ixs[4].program_id == ORE_PROGRAM,
        ixs[0].data@ == seq![2u8] + le_bytes(480000, 4),
        ixs[1].data@ == seq![3u8] + le_bytes(prio_fee as nat, 8),
        ixs[2].data@ == proof_pda(signer@).0,
        ixs[3].accounts@[0].pubkey == signer,
        ixs[3].accounts@[1].pubkey == recipient,
        ixs[3].data@ == le_bytes(2, 4) + le_bytes(tip, 8),
        ixs[4].accounts@[0].pubkey == signer,
        ixs[4].accounts@[1].pubkey == BUS_ADDRESSES@[bus],
        ixs[4].data@ == seq![2u8] + solution.d@ + solution.n@,
{
}

} // verus!
