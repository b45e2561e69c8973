use ore_pool::handler::{handle_best_solution, settle};
use ore_pool::proof_account::Proof;
use ore_pool::solution::{assess, difficulty_of, grade, BestHash, Verdict, MIN_DIFF};
use ore_pool::submit::{best_to_submit, commit};
use ore_pool::wire::Solution;

const CHALLENGE: [u8; 32] = [7; 32];

/// The first nonces for which the challenge has a solution.
fn solved(count: usize) -> Vec<Solution> {
    let mut found = Vec::new();
    let mut nonce: u64 = 0;
    while found.len() < count {
        let n = nonce.to_le_bytes();
        if let Ok(hash) = drillx::hash(&CHALLENGE, &n) {
            found.push(Solution { d: hash.d, n });
        }
        nonce += 1;
    }
    found
}

fn other(d: u8) -> Solution {
    Solution { d: [d; 16], n: [d; 8] }
}

fn account(balance: u64) -> Proof {
    Proof {
        authority: [1; 32],
        balance,
        challenge: [2; 32],
        last_hash: [3; 32],
        last_hash_at: 4,
        last_stake_at: 5,
        miner: [6; 32],
        total_hashes: 7,
        total_rewards: 8,
    }
}

#[test]
fn solutions_of_the_solver_are_valid() {
    for solution in solved(3) {
        let difficulty = drillx::Solution::new(solution.d, solution.n).to_hash().difficulty();
        assert_eq!(difficulty_of(&solution), difficulty);
        let expected = if difficulty < MIN_DIFF {
            Verdict::TooLow(difficulty)
        } else {
            Verdict::Good(difficulty)
        };
        assert_eq!(assess(&CHALLENGE, &solution), expected);
        assert_eq!(assess(&[8; 32], &solution), Verdict::Invalid);
    }
}

#[test]
fn made_up_solutions_are_invalid() {
    let mut best = BestHash::new();
    assert_eq!(assess(&CHALLENGE, &other(1)), Verdict::Invalid);
    assert_eq!(handle_best_solution(&CHALLENGE, other(1), &mut best), Verdict::Invalid);
    assert_eq!(best, BestHash::new());
}

#[test]
fn handler_keeps_what_is_good() {
    for solution in solved(2) {
        let mut best = BestHash::new();
        match handle_best_solution(&CHALLENGE, solution, &mut best) {
            Verdict::Good(difficulty) => {
                assert_eq!(best.solution(), Some(solution));
                assert_eq!(best.difficulty(), difficulty);
            }
            verdict => {
                assert_eq!(verdict, Verdict::TooLow(difficulty_of(&solution)));
                assert_eq!(best.solution(), None);
            }
        }
    }
}

#[test]
fn grades_count_leading_zero_bits() {
    let mut hash = [0xffu8; 32];
    assert_eq!(grade(hash), Verdict::TooLow(0));
    hash[0] = 0x01;
    assert_eq!(grade(hash), Verdict::TooLow(7));
    hash[0] = 0x00;
    assert_eq!(grade(hash), Verdict::Good(8));
    hash[1] = 0x10;
    assert_eq!(grade(hash), Verdict::Good(11));
    hash[1] = 0x00;
    hash[2] = 0x00;
    hash[3] = 0x3f;
    assert_eq!(grade(hash), Verdict::Good(26));
    assert_eq!(grade([0; 32]), Verdict::Good(256));
}

#[test]
fn hardest_solution_stays() {
    let mut best = BestHash::new();
    assert_eq!(best.solution(), None);
    assert_eq!(best.difficulty(), 0);
    for (name, difficulty) in [(1, 9), (2, 12), (3, 12), (4, 8), (5, 11)] {
        best.offer(other(name), difficulty);
    }
    assert_eq!(best.solution(), Some(other(2)));
    assert_eq!(best.difficulty(), 12);
    best.reset();
    assert_eq!(best, BestHash::new());
}

#[test]
fn verdicts_are_settled() {
    let mut best = BestHash::new();
    settle(Verdict::Invalid, other(1), &mut best);
    settle(Verdict::TooLow(7), other(1), &mut best);
    assert_eq!(best.solution(), None);
    settle(Verdict::Good(8), other(1), &mut best);
    assert_eq!(best.solution(), Some(other(1)));
    settle(Verdict::Good(8), other(2), &mut best);
    assert_eq!(best.solution(), Some(other(1)));
}

#[test]
fn submission_takes_the_best_with_its_difficulty() {
    let mut best = BestHash::new();
    assert_eq!(best_to_submit(&best), None);
    best.offer(other(3), 20);
    let difficulty = drillx::Solution::new([3; 16], [3; 8]).to_hash().difficulty();
    assert_eq!(best_to_submit(&best), Some((other(3), difficulty)));
}

#[test]
fn commit_begins_anew() {
    let mut current = account(1);
    let mut nonce = 8_000_000;
    let mut best = BestHash::new();
    best.offer(other(1), 10);
    commit(account(2), &mut current, &mut nonce, &mut best);
    assert_eq!(current, account(2));
    assert_eq!(nonce, 0);
    assert_eq!(best, BestHash::new());
}

#[test]
fn proof_accounts_differ_in_every_part() {
    let p = account(1);
    assert!(p.same_as(&account(1)));
    let changed = [
        Proof { authority: [0; 32], ..p },
        Proof { balance: 2, ..p },
        Proof { challenge: [0; 32], ..p },
        Proof { last_hash: [0; 32], ..p },
        Proof { last_hash_at: 0, ..p },
        Proof { last_stake_at: 0, ..p },
        Proof { miner: [0; 32], ..p },
        Proof { total_hashes: 0, ..p },
        Proof { total_rewards: 0, ..p },
    ];
    for q in changed {
        assert!(!p.same_as(&q));
        assert!(!q.same_as(&p));
    }
}
