use ore_pool::jito::BundleStatus;
use ore_pool::proof_account::Proof;
use ore_pool::submit;
use ore_pool::submit::{Action, Event, Job, MessageInternalMineSuccess, Pause, Phase};
use ore_pool::wire::Solution;

fn account(balance: u64) -> Proof {
    Proof {
        authority: [1; 32],
        balance,
        challenge: [2; 32],
        last_hash: [3; 32],
        last_hash_at: 4,
        last_stake_at: 5,
        miner: [6; 32],
        total_hashes: 7,
        total_rewards: 8,
    }
}

fn job() -> Job {
    Job { proof: account(10), solution: Solution { d: [1; 16], n: [2; 8] }, difficulty: 21 }
}

fn confirmed() -> Event {
    Event::Statuses(Some(vec![BundleStatus {
        bundle_id: "b".to_string(),
        confirmation_status: "confirmed".to_string(),
    }]))
}

/// Runs the events and returns the last phase and all actions.
fn run(mut phase: Phase, events: Vec<Event>) -> (Phase, Vec<Action>) {
    let mut actions = Vec::new();
    for event in events {
        assert!(submit::is_acceptable(&phase, &event));
        let (then, action) = submit::advance(phase, event);
        phase = then;
        actions.push(action);
    }
    (phase, actions)
}

#[test]
fn clock_decides_on_submission() {
    let (phase, actions) = run(Phase::AwaitClock, vec![
        Event::Clock { proof: account(1), cutoff: 12 },
        Event::Slept,
        Event::Clock { proof: account(1), cutoff: 0 },
        Event::Best(None),
        Event::Clock { proof: account(1), cutoff: -5 },
    ]);
    assert_eq!(phase, Phase::AwaitBest { proof: account(1) });
    assert_eq!(actions, vec![
        Action::Sleep(Pause::Seconds(12)),
        Action::ReadClock,
        Action::ReadBest,
        Action::ReadClock,
        Action::ReadBest,
    ]);
}

#[test]
fn submission_that_lands() {
    let best = Some((job().solution, job().difficulty));
    let (phase, actions) = run(Phase::AwaitBest { proof: account(10) }, vec![
        Event::Best(best),
        Event::Busses { fetched: Some(vec![Some(1), Some(5), Some(2)]), fallback: 7 },
        Event::Blockhash(true),
        Event::Sent(None),
        Event::Slept,
        Event::Sent(Some("b".to_string())),
        Event::Statuses(None),
        Event::Slept,
        confirmed(),
        Event::Loaded(None),
        Event::Slept,
        Event::Loaded(Some(account(10))),
        Event::Loaded(Some(account(13))),
        Event::Committed,
    ]);
    assert_eq!(phase, Phase::AwaitClock);
    let ask = Action::AskStatuses { bundle_id: "b".to_string() };
    assert_eq!(actions, vec![
        Action::FetchBusses,
        Action::FetchBlockhash { bus: 1 },
        Action::SendBundle,
        Action::Sleep(Pause::Seconds(1)),
        Action::SendBundle,
        ask.clone(),
        Action::Sleep(Pause::Seconds(1)),
        ask,
        Action::LoadProof,
        Action::Sleep(Pause::Millis(500)),
        Action::LoadProof,
        Action::LoadProof,
        Action::Commit {
            proof: account(13),
            success: Some(MessageInternalMineSuccess {
                difficulty: 21,
                total_balance: 13,
                rewards: 3,
            }),
        },
        Action::ReadClock,
    ]);
}

#[test]
fn submission_without_busses_uses_the_fallback() {
    let (_, actions) = run(Phase::AwaitBusses { job: job() }, vec![
        Event::Busses { fetched: None, fallback: 7 },
        Event::Blockhash(false),
        Event::Slept,
    ]);
    assert_eq!(actions, vec![
        Action::FetchBlockhash { bus: 7 },
        Action::Sleep(Pause::Millis(1000)),
        Action::ReadClock,
    ]);
}

/// The events of a round in which the bundle does not land.
fn lost_round() -> Vec<Event> {
    let mut events = vec![Event::Sent(Some("b".to_string()))];
    for _ in 0..8 {
        events.push(Event::Statuses(Some(vec![])));
        events.push(Event::Slept);
    }
    events.push(Event::Statuses(None));
    events
}

#[test]
fn submission_that_never_lands() {
    let mut events = vec![Event::Blockhash(true)];
    for _ in 0..2 {
        events.extend(lost_round());
        events.push(Event::Slept);
    }
    events.extend(lost_round());
    events.push(Event::Loaded(Some(account(10))));
    events.push(Event::Committed);
    events.push(Event::Slept);
    let (phase, actions) = run(Phase::AwaitBlockhash { job: job() }, events);
    assert_eq!(phase, Phase::AwaitClock);
    assert_eq!(actions.iter().filter(|a| **a == Action::SendBundle).count(), 3);
    let ask = Action::AskStatuses { bundle_id: "b".to_string() };
    assert_eq!(actions.iter().filter(|a| **a == ask).count(), 27);
    let n = actions.len();
    assert_eq!(actions[n - 4..], [
        Action::LoadProof,
        Action::Commit { proof: account(10), success: None },
        Action::Sleep(Pause::Millis(500)),
        Action::ReadClock,
    ]);
    // The pause between two rounds.
    assert_eq!(actions[18], Action::Sleep(Pause::Millis(500)));
    assert_eq!(actions[19], Action::SendBundle);
}

#[test]
fn recovery_without_a_proof_account() {
    let (phase, actions) = run(Phase::AwaitRecovery, vec![Event::Loaded(None), Event::Slept]);
    assert_eq!(phase, Phase::AwaitClock);
    assert_eq!(actions, vec![Action::Sleep(Pause::Millis(500)), Action::ReadClock]);
}

#[test]
fn submission_that_cannot_be_sent() {
    let mut events = vec![Event::Blockhash(true)];
    for _ in 0..3 {
        events.push(Event::Sent(None));
        events.push(Event::Slept);
    }
    let (phase, actions) = run(Phase::AwaitBlockhash { job: job() }, events);
    assert_eq!(phase, Phase::AwaitClock);
    assert_eq!(actions, vec![
        Action::SendBundle,
        Action::Sleep(Pause::Seconds(1)),
        Action::SendBundle,
        Action::Sleep(Pause::Seconds(1)),
        Action::SendBundle,
        Action::Sleep(Pause::Seconds(1)),
        Action::ReadClock,
    ]);
}

#[test]
fn events_that_cannot_be_taken() {
    let change = Phase::AwaitChange { job: job() };
    assert!(submit::is_acceptable(&change, &Event::Loaded(Some(account(10)))));
    assert!(submit::is_acceptable(&change, &Event::Loaded(Some(account(11)))));
    assert!(!submit::is_acceptable(&change, &Event::Loaded(Some(account(9)))));
    let busses = Phase::AwaitBusses { job: job() };
    let fetched = Some(vec![None, Some(1)]);
    assert!(!submit::is_acceptable(&busses, &Event::Busses { fetched, fallback: 0 }));
}
