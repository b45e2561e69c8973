use ore_pool::proof_account::Proof;
use ore_pool::startup::{advance, Action, Event, Phase, StartupError};

fn account(balance: u64) -> Proof {
    Proof {
        authority: [1; 32],
        balance,
        challenge: [2; 32],
        last_hash: [3; 32],
        last_hash_at: 4,
        last_stake_at: 5,
        miner: [6; 32],
        total_hashes: 7,
        total_rewards: 8,
    }
}

#[test]
fn startup_with_a_proof_account() {
    let (phase, action) = advance(Phase::AwaitWallet, Event::Wallet(true));
    assert_eq!((phase, action), (Phase::AwaitBalance, Action::QueryBalance));
    let (phase, action) = advance(phase, Event::Balance(Some(1_000_000)));
    assert_eq!((phase, action), (Phase::AwaitProof, Action::LoadProof));
    let (phase, action) = advance(phase, Event::Proof(Some(account(1))));
    assert_eq!((phase, action), (Phase::Over, Action::Start(account(1))));
}

#[test]
fn startup_with_a_registration() {
    let (phase, action) = advance(Phase::AwaitProof, Event::Proof(None));
    assert_eq!((phase, action), (Phase::AwaitBlockhash, Action::FetchBlockhash));
    let (phase, action) = advance(phase, Event::Blockhash(true));
    assert_eq!((phase, action), (Phase::AwaitRegistration, Action::Register));
    let (phase, action) = advance(phase, Event::Registered(true));
    assert_eq!((phase, action), (Phase::AwaitNewProof, Action::LoadProof));
    let (phase, action) = advance(phase, Event::Proof(Some(account(0))));
    assert_eq!((phase, action), (Phase::Over, Action::Start(account(0))));
}

#[test]
fn startup_without_a_blockhash_still_looks_for_the_account() {
    assert_eq!(
        advance(Phase::AwaitBlockhash, Event::Blockhash(false)),
        (Phase::AwaitNewProof, Action::LoadProof)
    );
}

#[test]
fn startup_failures() {
    let cases = [
        (Phase::AwaitWallet, Event::Wallet(false), StartupError::NoWallet, "找不到钱包路径"),
        (Phase::AwaitBalance, Event::Balance(None), StartupError::NoBalance, "查询sol余额失败"),
        (Phase::AwaitBalance, Event::Balance(Some(999_999)), StartupError::LowBalance, "sol余额过低!"),
        (
            Phase::AwaitRegistration,
            Event::Registered(false),
            StartupError::NotRegistered,
            "Failed to create proof account",
        ),
        (
            Phase::AwaitNewProof,
            Event::Proof(None),
            StartupError::NoProof,
            "Failed to get newly created proof",
        ),
    ];
    for (phase, event, error, message) in cases {
        assert_eq!(advance(phase, event), (Phase::Over, Action::Fail(error)));
        assert_eq!(error.message(), message);
    }
}
