//! Judging solutions and keeping the best one.
use vstd::prelude::*;
use crate::wire::Solution;

verus! {

/// The difficulty from which on a solution is kept.
pub const MIN_DIFF: u32 = 8;

/// Whether a digest is a valid equihash construction for a challenge and a nonce.
pub uninterp spec fn is_valid_digest(digest: Seq<u8>, nonce: Seq<u8>, challenge: Seq<u8>) -> bool;

/// The keccak hash of a digest, with its items sorted, and a nonce.
pub uninterp spec fn solution_hash(digest: Seq<u8>, nonce: Seq<u8>) -> Seq<u8>;

/// The zero bits at the front of a byte.
pub open spec fn leading_zeros_of_byte(byte: u8) -> nat {
    if byte >= 0x80 {
        0
    } else if byte >= 0x40 {
        1
    } else if byte >= 0x20 {
        2
    } else if byte >= 0x10 {
        3
    } else if byte >= 0x08 {
        4
    } else if byte >= 0x04 {
        5
    } else if byte >= 0x02 {
        6
    } else if byte >= 0x01 {
        7
    } else {
        8
    }
}

/// The zero bits at the front of a byte sequence.
pub open spec fn leading_zero_bits(hash: Seq<u8>) -> nat
    decreases hash.len(),
{
    if hash.len() == 0 {
        0
    } else if hash[0] == 0 {
        8 + leading_zero_bits(hash.drop_first())
    } else {
        leading_zeros_of_byte(hash[0])
    }
}

/// The difficulty of a solution.
pub open spec fn solution_difficulty(solution: Solution) -> nat {
    leading_zero_bits(solution_hash(solution.d@, solution.n@))
}

/// Calls `drillx::Solution::is_valid`. The answer depends on the digest, the nonce and the
/// challenge alone; it is known here by name only.
#[verifier::external_body]
fn check_digest(solution: &Solution, challenge: &[u8; 32]) -> (valid: bool)
    ensures
        valid == is_valid_digest(solution.d@, solution.n@, challenge@),
{
    drillx::Solution::new(solution.d, solution.n).is_valid(challenge)
}

/// Calls `drillx::Solution::to_hash` and takes the hash out of the result. It depends on the digest
/// and the nonce alone; it is known here by name only. The items of the digest are sorted as 16-bit
/// numbers of the machine; the name stands for the hash that little-endian machines compute.
#[verifier::external_body]
fn hash_solution(solution: &Solution) -> (hash: [u8; 32])
    ensures
        hash@ == solution_hash(solution.d@, solution.n@),
{
    drillx::Solution::new(solution.d, solution.n).to_hash().h
}

/// Calls `drillx::difficulty`, the function behind `drillx::Hash::difficulty`, which counts the zero
/// bits in front of the first one bit.
#[verifier::external_body]
fn count_leading_zeros(hash: [u8; 32]) -> (count: u32)
    ensures
        count == leading_zero_bits(hash@),
{
    drillx::difficulty(hash)
}

/// What a solution is worth.
#[derive(Clone, Copy, Debug, PartialEq, Eq, Structural)]
pub enum Verdict {
    /// It does not answer the challenge.
    Invalid,
    /// It answers the challenge with too low a difficulty.
    TooLow(u32),
    /// It answers the challenge with this difficulty.
    Good(u32),
}

/// The verdict that a solution deserves, given whether it is valid and how difficult.
pub open spec fn deserves(valid: bool, difficulty: nat, verdict: Verdict) -> bool {
    match verdict {
        Verdict::Invalid => !valid,
        Verdict::TooLow(d) => valid && d == difficulty && difficulty < MIN_DIFF,
        Verdict::Good(d) => valid && d == difficulty && difficulty >= MIN_DIFF,
    }
}

/// Grades a valid solution by its hash.
pub fn grade(hash: [u8; 32]) -> (verdict: Verdict)
    ensures
        deserves(true, leading_zero_bits(hash@), verdict),
        match verdict {
            Verdict::Good(d) => d >= 8 && d == leading_zero_bits(hash@),
            Verdict::TooLow(d) => d < 8 && d == leading_zero_bits(hash@),
            Verdict::Invalid => false,
        },
{
    let difficulty: u32 = count_leading_zeros(hash);
    if difficulty >= MIN_DIFF {
        Verdict::Good(difficulty)
    } else {
        Verdict::TooLow(difficulty)
    }
}

/// The difficulty of a solution.
pub fn difficulty_of(solution: &Solution) -> (difficulty: u32)
    ensures
        difficulty == solution_difficulty(*solution),
        difficulty == leading_zero_bits(solution_hash(solution.d@, solution.n@)),
{
    count_leading_zeros(hash_solution(solution))
}

/// Judges a solution by the challenge that it has to answer.
pub fn assess(challenge: &[u8; 32], solution: &Solution) -> (verdict: Verdict)
    ensures
        deserves(
            is_valid_digest(solution.d@, solution.n@, challenge@),
            solution_difficulty(*solution),
            verdict,
        ),
        verdict is Invalid <==> !is_valid_digest(solution.d@, solution.n@, challenge@),
        verdict matches Verdict::Good(d) ==> d >= 8 && d == leading_zero_bits(
            solution_hash(solution.d@, solution.n@),
        ),
        verdict matches Verdict::TooLow(d) ==> d < 8 && d == leading_zero_bits(
            solution_hash(solution.d@, solution.n@),
        ),
{
    if check_digest(solution, challenge) {
        grade(hash_solution(solution))
    } else {
        Verdict::Invalid
    }
}

/// The better one of the solution kept and a new one: the new one only if it is harder.
pub open spec fn better(kept: Option<(Solution, nat)>, solution: Solution, difficulty: nat) -> Option<(Solution, nat)> {
    match kept {
        Some((_, d)) if d >= difficulty => kept,
        _ => Some((solution, difficulty)),
    }
}

/// The difficulty that a solution has to exceed in order to be kept.
pub open spec fn level(kept: Option<(Solution, nat)>) -> nat {
    match kept {
        Some((_, difficulty)) => difficulty,
        None => 0,
    }
}

/// The best solution since the last submission.
#[derive(Clone, Copy, Debug, PartialEq, Eq)]
pub struct BestHash {
    solution: Option<Solution>,
    difficulty: u32,
}

impl View for BestHash {
    type V = Option<(Solution, nat)>;

    /// The solution kept and its difficulty.
    closed spec fn view(&self) -> Option<(Solution, nat)> {
        match self.solution {
            Some(s) => Some((s, self.difficulty as nat)),
            None => None,
        }
    }
}

impl BestHash {
    /// A solution kept has at least the smallest difficulty that is worth keeping, and without
    /// one the difficulty is zero.
    pub closed spec fn wf(&self) -> bool {
        if self.solution is Some {
            self.difficulty >= MIN_DIFF
        } else {
            self.difficulty == 0
        }
    }

    /// Nothing is kept.
    pub fn new() -> (best: Self)
        ensures
            best.wf(),
            best@ is None,
    {
        BestHash { solution: None, difficulty: 0 }
    }

    /// The solution kept.
    pub fn solution(&self) -> (solution: Option<Solution>)
        ensures
            solution == (match self@ {
                Some((s, _)) => Some(s),
                None => None,
            }),
    {
        self.solution
    }

    /// The difficulty of the solution kept, zero without one.
    pub fn difficulty(&self) -> (difficulty: u32)
        requires
            self.wf(),
        ensures
            difficulty == level(self@),
            self@ is None ==> difficulty == 0,
            self@ matches Some((_, d)) ==> difficulty == d,
    {
        self.difficulty
    }

    /// Keeps a solution that is harder than the one before.
    pub fn offer(&mut self, solution: Solution, difficulty: u32)
        requires
            old(self).wf(),
            difficulty >= MIN_DIFF,
        ensures
            final(self).wf(),
            final(self)@ == better(old(self)@, solution, difficulty as nat),
            old(self)@ is None || (old(self)@->0).1 < difficulty ==> final(self)@ == Some(
                (solution, difficulty as nat),
            ),
            old(self)@ is Some && (old(self)@->0).1 >= difficulty ==> final(self)@ == old(self)@,
    {
        if difficulty > self.difficulty {
            self.difficulty = difficulty;
            self.solution = Some(solution);
        }
    }

    /// Forgets the solution.
    pub fn reset(&mut self)
        ensures
            final(self).wf(),
            final(self)@ is None,
    {
        self.solution = None;
        self.difficulty = 0;
    }
}

/// Exactly one verdict fits a solution: that it is not valid, or that its difficulty is below eight,
/// or that it is eight or more, each with the difficulty that the solution has.
pub proof fn verdict_follows_from_validity_and_difficulty(valid: bool, difficulty: nat, verdict: Verdict)
    requires
        deserves(valid, difficulty, verdict),
    ensures
        verdict is Invalid <==> !valid,
        verdict is TooLow <==> valid && difficulty < 8,
        verdict is Good <==> valid && difficulty >= 8,
        verdict matches Verdict::TooLow(d) ==> d == difficulty,
        verdict matches Verdict::Good(d) ==> d == difficulty,
{
}

/// Of two solutions the harder one is kept, and the one that was there first where they are equal.
pub proof fn harder_solution_is_kept(kept: Option<(Solution, nat)>, solution: Solution, difficulty: nat)
    ensures
        better(kept, solution, difficulty) is Some,
        (better(kept, solution, difficulty)->0).1 >= difficulty,
        kept matches Some((_, d)) ==> (better(kept, solution, difficulty)->0).1 >= d,
        better(kept, solution, difficulty) == kept <==> kept is Some && ((kept->0).1 >= difficulty || kept
            == Some((solution, difficulty))),
        better(kept, solution, difficulty) != kept ==> better(kept, solution, difficulty) == Some(
            (solution, difficulty),
        ),
{
}

/// The zero bits at the front are eight for every zero byte at the front, and those of the byte
/// after them; each doubling takes one off a byte, until its highest bit is set.
pub proof fn leading_zeros_end_at_the_first_one(hash: Seq<u8>, k: int)
    requires
        0 <= k <= hash.len(),
        forall|i: int| 0 <= i < k ==> #[trigger] hash[i] == 0,
    ensures
        leading_zero_bits(hash) >= 8 * k,
        k == hash.len() ==> leading_zero_bits(hash) == 8 * k,
        k < hash.len() && hash[k] >= 128 ==> leading_zero_bits(hash) == 8 * k,
        k < hash.len() && 0 < hash[k] < 128 ==> leading_zero_bits(hash) == 1 + leading_zero_bits(
            hash.update(k, (2 * hash[k]) as u8),
        ),
    decreases k,
{
    if k > 0 {
        let rest = hash.drop_first();
        assert(hash[0] == 0);
        assert forall|i: int| 0 <= i < k - 1 implies #[trigger] rest[i] == 0 by {
            assert(rest[i] == hash[i + 1]);
        }
        leading_zeros_end_at_the_first_one(rest, k - 1);
        if k < hash.len() && 0 < hash[k] < 128 {
            let shifted = hash.update(k, (2 * hash[k]) as u8);
            assert(shifted.drop_first() =~= rest.update(k - 1, (2 * hash[k]) as u8));
        }
    }
}

} // verus!
