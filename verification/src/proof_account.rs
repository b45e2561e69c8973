//! The miner's proof account.
use vstd::prelude::*;

verus! {

/// The account that holds a miner's challenge and balance.
#[derive(Clone, Copy, Debug, PartialEq, Eq)]
pub struct Proof {
    /// The signer that may use the account.
    pub authority: [u8; 32],
    /// What the miner has staked or earned, in the smallest unit of the token.
    pub balance: u64,
    /// What the next solution has to answer.
    pub challenge: [u8; 32],
    /// The last hash that was submitted.
    pub last_hash: [u8; 32],
    /// When that was.
    pub last_hash_at: i64,
    /// When stake was last deposited.
    pub last_stake_at: i64,
    /// The key that may submit hashes.
    pub miner: [u8; 32],
    /// How many hashes were submitted in all.
    pub total_hashes: u64,
    /// How much was earned in all.
    pub total_rewards: u64,
}

/// Compares two keys or hashes.
pub fn same_bytes(a: &[u8; 32], b: &[u8; 32]) -> (same: bool)
    ensures
        same == (*a == *b),
{
    let mut i: usize = 0;
    while i < 32
        invariant
            i <= 32,
            forall|j: int| 0 <= j < i ==> a@[j] == b@[j],
        decreases 32 - i,
    {
        if a[i] != b[i] {
            return false;
        }
        i += 1;
    }
    assert(*a =~= *b);
    true
}

impl Proof {
    /// Tells whether two accounts agree in everything.
    pub fn same_as(&self, other: &Proof) -> (same: bool)
        ensures
            same == (*self == *other),
    {
        self.balance == other.balance && self.last_hash_at == other.last_hash_at
            && self.last_stake_at == other.last_stake_at && self.total_hashes == other.total_hashes
            && self.total_rewards == other.total_rewards && same_bytes(
            &self.authority,
            &other.authority,
        ) && same_bytes(&self.challenge, &other.challenge) && same_bytes(
            &self.last_hash,
            &other.last_hash,
        ) && same_bytes(&self.miner, &other.miner)
    }
}

} // verus!
