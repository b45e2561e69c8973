//! The way of a solution to the chain.
//!
//! The program performs an action and hands back the event that came of it; `advance` decides what
//! comes next. A submission is sent in up to three rounds. In each the block builder is asked up
//! to nine times whether the bundle has landed. When it has, the proof account is reloaded until
//! it has changed, and the pool goes on with the new one; when it has not after the last round, the
//! pool takes the proof account as it finds it.
use vstd::prelude::*;
use crate::bus::{are_comparable, bus_to_use, choose_bus, comparable, fetched_busses_decide};
use crate::jito::{is_confirmed, landed, BundleStatus};
use crate::proof_account::Proof;
use crate::solution::{difficulty_of, solution_difficulty, BestHash};
use crate::wire::Solution;

verus! {

/// How often a bundle is sent.
pub const ROUNDS: u32 = 3;

/// After more attempts than this a bundle is given up.
pub const MAX_ATTEMPTS: u32 = 8;

/// What the pool's clients are told of a submission, in the smallest unit of the token.
#[derive(Clone, Copy, Debug, PartialEq, Eq, Structural)]
pub struct MessageInternalMineSuccess {
    pub difficulty: u32,
    pub total_balance: u64,
    pub rewards: u64,
}

/// A solution on its way to the chain.
#[derive(Clone, Copy, Debug, PartialEq, Eq)]
pub struct Job {
    /// The proof account that it was found for.
    pub proof: Proof,
    pub solution: Solution,
    pub difficulty: u32,
}

/// How long to sleep.
#[derive(Clone, Copy, Debug, PartialEq, Eq, Structural)]
pub enum Pause {
    Seconds(u64),
    Millis(u64),
}

/// What the program waits for.
#[derive(Clone, Debug, PartialEq, Eq)]
pub enum Phase {
    /// The proof account and the seconds until its cutoff.
    AwaitClock,
    /// The best solution so far.
    AwaitBest { proof: Proof },
    /// The busses.
    AwaitBusses { job: Job },
    /// The latest blockhash.
    AwaitBlockhash { job: Job },
    /// The answer to a bundle.
    AwaitSent { job: Job, round: u32 },
    /// The end of a pause after a bundle that could not be sent.
    AwaitResend { job: Job, round: u32 },
    /// The answer to the question whether the bundle has landed.
    AwaitStatuses { job: Job, round: u32, bundle_id: String, attempts: u32 },
    /// The end of a pause before the next question.
    AwaitAsk { job: Job, round: u32, bundle_id: String, attempts: u32 },
    /// The proof account, after the last bundle was given up.
    AwaitRecovery,
    /// That the pool has taken the proof account over, after the last bundle was given up.
    AwaitRecovered,
    /// The end of a pause after a bundle that was given up.
    AwaitRound { job: Job, round: u32 },
    /// The proof account, after a bundle has landed.
    AwaitChange { job: Job },
    /// The end of a pause before the proof account is loaded again.
    AwaitReload { job: Job },
    /// That the pool has taken the new proof account over.
    AwaitCommitted,
    /// The end of a pause before the next look at the clock.
    AwaitRest,
}

/// What happened.
#[derive(Clone, Debug, PartialEq, Eq)]
pub enum Event {
    /// The proof account and the seconds until its cutoff.
    Clock { proof: Proof, cutoff: i64 },
    /// The best solution so far and its difficulty.
    Best(Option<(Solution, u32)>),
    /// The rewards of the busses, where they could be fetched, those that could be loaded; and the
    /// bus to use otherwise.
    Busses { fetched: Option<Vec<Option<u64>>>, fallback: usize },
    /// The latest blockhash was fetched, or not.
    Blockhash(bool),
    /// The id of the bundle, if it was accepted.
    Sent(Option<String>),
    /// The statuses of the bundle, if they could be had.
    Statuses(Option<Vec<BundleStatus>>),
    /// The proof account, if it could be loaded.
    Loaded(Option<Proof>),
    /// The pool has taken the proof account over.
    Committed,
    /// The pause is over.
    Slept,
}

/// What to do.
#[derive(Clone, Debug, PartialEq, Eq)]
pub enum Action {
    ReadClock,
    ReadBest,
    FetchBusses,
    /// Put the transaction together, with this bus, once there is a blockhash to sign it with.
    FetchBlockhash { bus: usize },
    SendBundle,
    AskStatuses { bundle_id: String },
    LoadProof,
    /// Go on with this proof account; tell the clients, where there is something to tell.
    Commit { proof: Proof, success: Option<MessageInternalMineSuccess> },
    Sleep(Pause),
}

/// After a change of the proof account the balance has not fallen, and fetched busses can be
/// compared.
pub open spec fn acceptable(phase: Phase, event: Event) -> bool {
    match (phase, event) {
        (Phase::AwaitBusses { .. }, Event::Busses { fetched: Some(rewards), .. }) => comparable(
            rewards@,
        ),
        (Phase::AwaitChange { job }, Event::Loaded(Some(loaded))) => loaded != job.proof
            ==> loaded.balance >= job.proof.balance,
        _ => true,
    }
}

/// What comes after a round: the next one, or another look at the clock.
pub open spec fn next_round(job: Job, round: u32) -> (Phase, Action) {
    if round + 1 < ROUNDS {
        (Phase::AwaitSent { job, round: (round + 1) as u32 }, Action::SendBundle)
    } else {
        (Phase::AwaitClock, Action::ReadClock)
    }
}

/// What comes after an answer that does not confirm the bundle: a pause before the next question,
/// or the end of the round.
pub open spec fn unconfirmed(job: Job, round: u32, bundle_id: String, attempts: u32) -> (Phase, Action) {
    if attempts < MAX_ATTEMPTS {
        (
            Phase::AwaitAsk { job, round, bundle_id, attempts: (attempts + 1) as u32 },
            Action::Sleep(Pause::Seconds(1)),
        )
    } else if round + 1 == ROUNDS {
        (Phase::AwaitRecovery, Action::LoadProof)
    } else {
        (Phase::AwaitRound { job, round }, Action::Sleep(Pause::Millis(500)))
    }
}

/// What comes next. An event that answers nothing leads back to the clock.
pub open spec fn next(phase: Phase, event: Event) -> (Phase, Action) {
    match (phase, event) {
        (Phase::AwaitClock, Event::Clock { proof, cutoff }) => if cutoff <= 0 {
            (Phase::AwaitBest { proof }, Action::ReadBest)
        } else {
            (Phase::AwaitRest, Action::Sleep(Pause::Seconds(cutoff as u64)))
        },
        (Phase::AwaitBest { proof }, Event::Best(Some((solution, difficulty)))) => (
            Phase::AwaitBusses { job: Job { proof, solution, difficulty } },
            Action::FetchBusses,
        ),
        (Phase::AwaitBest { proof }, Event::Best(None)) => (Phase::AwaitClock, Action::ReadClock),
        (Phase::AwaitBusses { job }, Event::Busses { fetched, fallback }) => (
            Phase::AwaitBlockhash { job },
            Action::FetchBlockhash { bus: bus_to_use(fallback, fetched) as usize },
        ),
        (Phase::AwaitBlockhash { job }, Event::Blockhash(true)) => (
            Phase::AwaitSent { job, round: 0 },
            Action::SendBundle,
        ),
        (Phase::AwaitBlockhash { job }, Event::Blockhash(false)) => (
            Phase::AwaitRest,
            Action::Sleep(Pause::Millis(1000)),
        ),
        (Phase::AwaitSent { job, round }, Event::Sent(Some(bundle_id))) => (
            Phase::AwaitStatuses { job, round, bundle_id, attempts: 0 },
            Action::AskStatuses { bundle_id },
        ),
        (Phase::AwaitSent { job, round }, Event::Sent(None)) => (
            Phase::AwaitResend { job, round },
            Action::Sleep(Pause::Seconds(1)),
        ),
        (Phase::AwaitResend { job, round }, Event::Slept) => next_round(job, round),
        (Phase::AwaitStatuses { job, round, bundle_id, attempts }, Event::Statuses(reply)) => {
            if reply matches Some(statuses) && landed(statuses@) {
                (Phase::AwaitChange { job }, Action::LoadProof)
            } else {
                unconfirmed(job, round, bundle_id, attempts)
            }
        },
        (Phase::AwaitAsk { job, round, bundle_id, attempts }, Event::Slept) => (
            Phase::AwaitStatuses { job, round, bundle_id, attempts },
            Action::AskStatuses { bundle_id },
        ),
        (Phase::AwaitRecovery, Event::Loaded(Some(proof))) => (
            Phase::AwaitRecovered,
            Action::Commit { proof, success: None },
        ),
        (Phase::AwaitRecovery, Event::Loaded(None)) => (
            Phase::AwaitRest,
            Action::Sleep(Pause::Millis(500)),
        ),
        (Phase::AwaitRecovered, Event::Committed) => (
            Phase::AwaitRest,
            Action::Sleep(Pause::Millis(500)),
        ),
        (Phase::AwaitRound { job, round }, Event::Slept) => next_round(job, round),
        (Phase::AwaitChange { job }, Event::Loaded(Some(loaded))) => if loaded != job.proof {
            (
                Phase::AwaitCommitted,
                Action::Commit {
                    proof: loaded,
                    success: Some(
                        MessageInternalMineSuccess {
                            difficulty: job.difficulty,
                            total_balance: loaded.balance,
                            rewards: (loaded.balance - job.proof.balance) as u64,
                        },
                    ),
                },
            )
        } else {
            (Phase::AwaitChange { job }, Action::LoadProof)
        },
        (Phase::AwaitChange { job }, Event::Loaded(None)) => (
            Phase::AwaitReload { job },
            Action::Sleep(Pause::Millis(500)),
        ),
        (Phase::AwaitReload { job }, Event::Slept) => (
            Phase::AwaitChange { job },
            Action::LoadProof,
        ),
        (Phase::AwaitCommitted, Event::Committed) => (Phase::AwaitClock, Action::ReadClock),
        (Phase::AwaitRest, Event::Slept) => (Phase::AwaitClock, Action::ReadClock),
        _ => (Phase::AwaitClock, Action::ReadClock),
    }
}

/// Tells whether `advance` can take the event.
pub fn is_acceptable(phase: &Phase, event: &Event) -> (ok: bool)
    ensures
        ok == acceptable(*phase, *event),
        phase matches Phase::AwaitChange { job } ==> event matches Event::Loaded(Some(loaded)) ==> ok == (
        loaded.balance >= job.proof.balance),
{
    match (phase, event) {
        (Phase::AwaitBusses { .. }, Event::Busses { fetched: Some(rewards), .. }) => are_comparable(
            rewards,
        ),
        (Phase::AwaitChange { job }, Event::Loaded(Some(loaded))) => loaded.same_as(&job.proof)
            || loaded.balance >= job.proof.balance,
        _ => true,
    }
}

/// Goes on to the next round, or back to the clock.
fn advance_round(job: Job, round: u32) -> (result: (Phase, Action))
    ensures
        result == next_round(job, round),
{
    if round < ROUNDS - 1 {
        (Phase::AwaitSent { job, round: round + 1 }, Action::SendBundle)
    } else {
        (Phase::AwaitClock, Action::ReadClock)
    }
}

/// Pauses before the next question, or ends the round.
fn advance_unconfirmed(job: Job, round: u32, bundle_id: String, attempts: u32) -> (result: (Phase, Action))
    ensures
        result == unconfirmed(job, round, bundle_id, attempts),
{
    if attempts < MAX_ATTEMPTS {
        (
            Phase::AwaitAsk { job, round, bundle_id, attempts: attempts + 1 },
            Action::Sleep(Pause::Seconds(1)),
        )
    } else if round == ROUNDS - 1 {
        (Phase::AwaitRecovery, Action::LoadProof)
    } else {
        (Phase::AwaitRound { job, round }, Action::Sleep(Pause::Millis(500)))
    }
}

/// Decides what comes next.
pub fn advance(phase: Phase, event: Event) -> (result: (Phase, Action))
    requires
        acceptable(phase, event),
    ensures
        result == next(phase, event),
{
    match (phase, event) {
        (Phase::AwaitClock, Event::Clock { proof, cutoff }) => if cutoff <= 0 {
            (Phase::AwaitBest { proof }, Action::ReadBest)
        } else {
            (Phase::AwaitRest, Action::Sleep(Pause::Seconds(cutoff as u64)))
        },
        (Phase::AwaitBest { proof }, Event::Best(best)) => match best {
            Some((solution, difficulty)) => (
                Phase::AwaitBusses { job: Job { proof, solution, difficulty } },
                Action::FetchBusses,
            ),
            None => (Phase::AwaitClock, Action::ReadClock),
        },
        (Phase::AwaitBusses { job }, Event::Busses { fetched, fallback }) => {
            let bus: usize = choose_bus(fallback, &fetched);
            (Phase::AwaitBlockhash { job }, Action::FetchBlockhash { bus })
        },
        (Phase::AwaitBlockhash { job }, Event::Blockhash(fetched)) => if fetched {
            (Phase::AwaitSent { job, round: 0 }, Action::SendBundle)
        } else {
            (Phase::AwaitRest, Action::Sleep(Pause::Millis(1000)))
        },
        (Phase::AwaitSent { job, round }, Event::Sent(sent)) => match sent {
            Some(bundle_id) => {
                let asked: String = bundle_id.clone();
                (
                    Phase::AwaitStatuses { job, round, bundle_id, attempts: 0 },
                    Action::AskStatuses { bundle_id: asked },
                )
            },
            None => (Phase::AwaitResend { job, round }, Action::Sleep(Pause::Seconds(1))),
        },
        (Phase::AwaitResend { job, round }, Event::Slept) => advance_round(job, round),
        (Phase::AwaitStatuses { job, round, bundle_id, attempts }, Event::Statuses(reply)) => {
            let confirmed: bool = match &reply {
                Some(statuses) => is_confirmed(statuses),
                None => false,
            };
            if confirmed {
                (Phase::AwaitChange { job }, Action::LoadProof)
            } else {
                advance_unconfirmed(job, round, bundle_id, attempts)
            }
        },
        (Phase::AwaitAsk { job, round, bundle_id, attempts }, Event::Slept) => {
            let asked: String = bundle_id.clone();
            (
                Phase::AwaitStatuses { job, round, bundle_id, attempts },
                Action::AskStatuses { bundle_id: asked },
            )
        },
        (Phase::AwaitRecovery, Event::Loaded(loaded)) => match loaded {
            Some(proof) => (Phase::AwaitRecovered, Action::Commit { proof, success: None }),
            None => (Phase::AwaitRest, Action::Sleep(Pause::Millis(500))),
        },
        (Phase::AwaitRecovered, Event::Committed) => (
            Phase::AwaitRest,
            Action::Sleep(Pause::Millis(500)),
        ),
        (Phase::AwaitRound { job, round }, Event::Slept) => advance_round(job, round),
        (Phase::AwaitChange { job }, Event::Loaded(loaded)) => match loaded {
            Some(proof) => if !proof.same_as(&job.proof) {
                let rewards: u64 = proof.balance - job.proof.balance;
                let success = MessageInternalMineSuccess {
                    difficulty: job.difficulty,
                    total_balance: proof.balance,
                    rewards,
                };
                (Phase::AwaitCommitted, Action::Commit { proof, success: Some(success) })
            } else {
                (Phase::AwaitChange { job }, Action::LoadProof)
            },
            None => (Phase::AwaitReload { job }, Action::Sleep(Pause::Millis(500))),
        },
        (Phase::AwaitReload { job }, Event::Slept) => (Phase::AwaitChange { job }, Action::LoadProof),
        _ => (Phase::AwaitClock, Action::ReadClock),
    }
}

/// The solution to submit, with its difficulty.
pub fn best_to_submit(best: &BestHash) -> (found: Option<(Solution, u32)>)
    ensures
        match (found, best@) {
            (Some((solution, difficulty)), Some((kept, _))) => solution == kept && difficulty
                == solution_difficulty(kept),
            (None, None) => true,
            _ => false,
        },
{
    match best.solution() {
        Some(solution) => {
            let difficulty: u32 = difficulty_of(&solution);
            Some((solution, difficulty))
        },
        None => None,
    }
}

/// Takes a proof account over: the nonces begin anew and the solution to the old challenge is
/// forgotten.
pub fn commit(loaded: Proof, proof: &mut Proof, nonce: &mut u64, best: &mut BestHash)
    ensures
        *final(proof) == loaded,
        *final(nonce) == 0,
        final(best).wf(),
        final(best)@ is None,
{
    *proof = loaded;
    *nonce = 0;
    best.reset();
}

/// The rounds after this one.
pub open spec fn rounds_left(round: u32) -> nat {
    if round + 1 < ROUNDS {
        (ROUNDS - 1 - round) as nat
    } else {
        0
    }
}

/// How often a bundle is sent in the course of `events`, until the next look at the clock.
pub open spec fn sends(phase: Phase, events: Seq<Event>) -> nat
    decreases events.len(),
{
    if events.len() == 0 {
        0
    } else {
        let (then, action) = next(phase, events[0]);
        let now: nat = if action is SendBundle {
            1
        } else {
            0
        };
        if then is AwaitClock {
            now
        } else {
            now + sends(then, events.drop_first())
        }
    }
}

/// How often a bundle may still be sent.
pub open spec fn sends_left(phase: Phase) -> nat {
    match phase {
        Phase::AwaitBlockhash { .. } => ROUNDS as nat,
        Phase::AwaitSent { round, .. } => rounds_left(round),
        Phase::AwaitResend { round, .. } => rounds_left(round),
        Phase::AwaitStatuses { round, .. } => rounds_left(round),
        Phase::AwaitAsk { round, .. } => rounds_left(round),
        Phase::AwaitRound { round, .. } => rounds_left(round),
        _ => 0,
    }
}

proof fn lemma_sends(phase: Phase, events: Seq<Event>)
    requires
        !(phase is AwaitClock),
        !(phase is AwaitBest),
        !(phase is AwaitBusses),
    ensures
        sends(phase, events) <= sends_left(phase),
    decreases events.len(),
{
    if events.len() > 0 {
        let then = next(phase, events[0]).0;
        if !(then is AwaitClock) {
            lemma_sends(then, events.drop_first());
        }
    }
}

/// However the block builder and the chain answer, a transaction is sent three times at most.
pub proof fn transaction_is_sent_three_times_at_most(job: Job, events: Seq<Event>)
    ensures
        sends(Phase::AwaitBlockhash { job }, events) <= 3,
{
    lemma_sends(Phase::AwaitBlockhash { job }, events);
}

/// How often the block builder is asked for a bundle in the course of `events`, until the pool stops
/// asking.
pub open spec fn asks(phase: Phase, events: Seq<Event>) -> nat
    decreases events.len(),
{
    if events.len() == 0 {
        0
    } else {
        let (then, action) = next(phase, events[0]);
        let now: nat = if action is AskStatuses {
            1
        } else {
            0
        };
        if then is AwaitStatuses || then is AwaitAsk {
            now + asks(then, events.drop_first())
        } else {
            now
        }
    }
}

proof fn lemma_asks(phase: Phase, events: Seq<Event>)
    ensures
        phase matches Phase::AwaitStatuses { attempts, .. } ==> asks(phase, events) <= (
        if attempts <= MAX_ATTEMPTS {
            MAX_ATTEMPTS - attempts
        } else {
            0
        }),
        phase matches Phase::AwaitAsk { attempts, .. } ==> asks(phase, events) <= 1 + (
        if attempts <= MAX_ATTEMPTS {
            MAX_ATTEMPTS - attempts
        } else {
            0
        }),
    decreases events.len(),
{
    if events.len() > 0 {
        lemma_asks(next(phase, events[0]).0, events.drop_first());
    }
}

/// However the block builder answers, it is asked for one bundle nine times at most.
pub proof fn bundle_is_asked_for_nine_times_at_most(job: Job, round: u32, events: Seq<Event>)
    ensures
        asks(Phase::AwaitSent { job, round }, events) <= 9,
{
    if events.len() > 0 {
        lemma_asks(next(Phase::AwaitSent { job, round }, events[0]).0, events.drop_first());
    }
}

/// The bundle that the pool is waiting for.
pub open spec fn bundle_in_question(phase: Phase) -> Option<String> {
    match phase {
        Phase::AwaitStatuses { bundle_id, .. } => Some(bundle_id),
        Phase::AwaitAsk { bundle_id, .. } => Some(bundle_id),
        _ => None,
    }
}

/// The pool asks for the bundle that was accepted last, and for no other.
pub proof fn questions_name_the_bundle_sent(phase: Phase, event: Event)
    ensures
        next(phase, event).1 matches Action::AskStatuses { bundle_id } ==> bundle_in_question(
            next(phase, event).0,
        ) == Some(bundle_id),
        bundle_in_question(next(phase, event).0) matches Some(bundle_id) ==> bundle_in_question(phase)
            == Some(bundle_id) || (phase is AwaitSent && event == Event::Sent(Some(bundle_id))),
{
}

/// An upper bound of the events before the next look at the clock, as long as no bundle lands.
pub open spec fn events_left(phase: Phase) -> nat {
    match phase {
        Phase::AwaitClock => 0,
        Phase::AwaitRest => 1,
        Phase::AwaitCommitted => 1,
        Phase::AwaitRecovered => 2,
        Phase::AwaitRecovery => 3,
        Phase::AwaitResend { round, .. } => 22 * rounds_left(round) + 4,
        Phase::AwaitRound { round, .. } => 22 * rounds_left(round) + 4,
        Phase::AwaitStatuses { round, attempts, .. } => 22 * rounds_left(round) + 5 + (
        if attempts < MAX_ATTEMPTS {
            2 * (MAX_ATTEMPTS - attempts) as nat
        } else {
            0
        }),
        Phase::AwaitAsk { round, attempts, .. } => 22 * rounds_left(round) + 6 + (
        if attempts < MAX_ATTEMPTS {
            2 * (MAX_ATTEMPTS - attempts) as nat
        } else {
            0
        }),
        Phase::AwaitSent { round, .. } => 22 * rounds_left(round) + 23,
        Phase::AwaitBlockhash { .. } => 68,
        Phase::AwaitBusses { .. } => 69,
        Phase::AwaitBest { .. } => 70,
        // A bundle has landed.
        Phase::AwaitChange { .. } => 0,
        Phase::AwaitReload { .. } => 0,
    }
}

/// In the course of `events` the pool looks at the clock again, or a bundle lands.
pub open spec fn settles(phase: Phase, events: Seq<Event>) -> bool
    decreases events.len(),
{
    phase is AwaitClock || phase is AwaitChange || phase is AwaitReload || (events.len() > 0 && settles(
        next(phase, events[0]).0,
        events.drop_first(),
    ))
}

proof fn lemma_settles(phase: Phase, events: Seq<Event>)
    requires
        events.len() >= events_left(phase),
    ensures
        settles(phase, events),
    decreases events.len(),
{
    if !(phase is AwaitClock || phase is AwaitChange || phase is AwaitReload) {
        lemma_settles(next(phase, events[0]).0, events.drop_first());
    }
}

/// A submission does not go on for ever: after seventy events at most a bundle has landed or the
/// pool looks at the clock again.
pub proof fn submission_settles(proof: Proof, events: Seq<Event>)
    requires
        events.len() >= 70,
    ensures
        settles(Phase::AwaitBest { proof }, events),
{
    lemma_settles(Phase::AwaitBest { proof }, events);
}

/// The pool takes a proof account over in two cases only: as it was loaded after a bundle landed,
/// provided that it differs from the one before, with the news that it brings; or as it was loaded
/// after the last bundle was given up, without news.
pub proof fn proof_account_changes_hands_only_after_a_submission(phase: Phase, event: Event)
    requires
        acceptable(phase, event),
    ensures
        next(phase, event).1 matches Action::Commit { proof, success } ==> {
            &&& event == Event::Loaded(Some(proof))
            &&& match success {
                Some(news) => {
                    &&& phase matches Phase::AwaitChange { job }
                    &&& proof != job.proof
                    &&& news.difficulty == job.difficulty
                    &&& news.total_balance == proof.balance
                    &&& news.rewards == proof.balance - job.proof.balance
                },
                None => phase is AwaitRecovery,
            }
        },
        next(phase, event).0 is AwaitRecovery ==> {
            &&& phase matches Phase::AwaitStatuses { round, attempts, .. }
            &&& round == 2
            &&& attempts >= 8
            &&& event matches Event::Statuses(reply)
            &&& !(reply matches Some(statuses) && landed(statuses@))
        },
{
}

/// The phase after a sequence of events.
pub open spec fn phase_after(events: Seq<Event>) -> Phase
    decreases events.len(),
{
    if events.len() == 0 {
        Phase::AwaitClock
    } else {
        next(phase_after(events.drop_last()), events.last()).0
    }
}

/// The event tells that a bundle has landed.
pub open spec fn tells_landing(event: Event) -> bool {
    event matches Event::Statuses(Some(statuses)) && landed(statuses@)
}

proof fn lemma_change_follows_landing(events: Seq<Event>)
    requires
        phase_after(events) is AwaitChange || phase_after(events) is AwaitReload,
    ensures
        exists|i: int| 0 <= i < events.len() && tells_landing(#[trigger] events[i]),
    decreases events.len(),
{
    let before = events.drop_last();
    if phase_after(before) is AwaitChange || phase_after(before) is AwaitReload {
        lemma_change_follows_landing(before);
        let i = choose|i: int| 0 <= i < before.len() && tells_landing(#[trigger] before[i]);
        assert(events[i] == before[i]);
    } else {
        assert(tells_landing(events[events.len() - 1]));
    }
}

/// The clients hear of success only after the block builder has confirmed a bundle.
pub proof fn success_follows_a_landing(events: Seq<Event>, event: Event)
    requires
        next(phase_after(events), event).1 matches Action::Commit { success: Some(_), .. },
    ensures
        exists|i: int| 0 <= i < events.len() && tells_landing(#[trigger] events[i]),
{
    lemma_change_follows_landing(events);
}

/// Whatever the round and the number of questions before, an answer whose first status is confirmed
/// ends the polling: the proof account is loaded, for the same job. Any other answer, or none, is
/// followed by another question up to the ninth, after a pause of a second; after the ninth by the
/// next round, after a pause of half a second; and in the third round by the recovery.
pub proof fn confirmation_ends_the_polling(
    job: Job,
    round: u32,
    bundle_id: String,
    attempts: u32,
    reply: Option<Vec<BundleStatus>>,
)
    ensures
        (reply matches Some(statuses) && statuses@.len() > 0 && statuses@[0].confirmation_status@
            == "confirmed"@) ==> next(
            Phase::AwaitStatuses { job, round, bundle_id, attempts },
            Event::Statuses(reply),
        ) == (Phase::AwaitChange { job }, Action::LoadProof),
        !(reply matches Some(statuses) && statuses@.len() > 0 && statuses@[0].confirmation_status@
            == "confirmed"@) ==> next(
            Phase::AwaitStatuses { job, round, bundle_id, attempts },
            Event::Statuses(reply),
        ) == (if attempts < 8 {
            (
                Phase::AwaitAsk { job, round, bundle_id, attempts: (attempts + 1) as u32 },
                Action::Sleep(Pause::Seconds(1)),
            )
        } else if round == 2 {
            (Phase::AwaitRecovery, Action::LoadProof)
        } else {
            (Phase::AwaitRound { job, round }, Action::Sleep(Pause::Millis(500)))
        }),
{
}

/// Nothing but a confirmation leads to the reload of the proof account that ends a submission, and
/// the job stays the one that was confirmed.
pub proof fn reload_follows_only_a_confirmation(phase: Phase, event: Event)
    ensures
        next(phase, event).0 matches Phase::AwaitChange { job } ==> {
            ||| phase == (Phase::AwaitChange { job })
            ||| phase == (Phase::AwaitReload { job })
            ||| {
                &&& phase matches Phase::AwaitStatuses { job: asked, .. }
                &&& asked == job
                &&& event matches Event::Statuses(Some(statuses))
                &&& statuses@.len() > 0
                &&& statuses@[0].confirmation_status@ == "confirmed"@
            }
        },
{
}

/// A submission begins if and only if the cutoff has come, with the proof account that it came for;
/// before it the pool sleeps for as many seconds as are left, and looks again.
pub proof fn submission_waits_for_the_cutoff(proof: Proof, cutoff: i64)
    ensures
        cutoff <= 0 ==> next(Phase::AwaitClock, Event::Clock { proof, cutoff }) == (
            Phase::AwaitBest { proof },
            Action::ReadBest,
        ),
        cutoff > 0 ==> {
            &&& next(Phase::AwaitClock, Event::Clock { proof, cutoff }).0 is AwaitRest
            &&& next(Phase::AwaitClock, Event::Clock { proof, cutoff }).1 matches Action::Sleep(
                Pause::Seconds(seconds),
            )
            &&& seconds == cutoff
        },
        next(Phase::AwaitRest, Event::Slept) == (Phase::AwaitClock, Action::ReadClock),
{
}

/// The best solution is taken on with its difficulty and the proof account that it was found for;
/// without one the pool looks at the clock again.
pub proof fn best_solution_is_taken_on(proof: Proof, best: Option<(Solution, u32)>)
    ensures
        best matches Some((solution, difficulty)) ==> {
            &&& next(Phase::AwaitBest { proof }, Event::Best(best)).1 is FetchBusses
            &&& next(Phase::AwaitBest { proof }, Event::Best(best)).0 matches Phase::AwaitBusses { job }
            &&& job.proof == proof
            &&& job.solution == solution
            &&& job.difficulty == difficulty
        },
        best is None ==> next(Phase::AwaitBest { proof }, Event::Best(best)) == (
            Phase::AwaitClock,
            Action::ReadClock,
        ),
{
}

/// The transaction is built with the richest bus that was loaded, the first of them where several
/// are equally rich, whichever bus was picked beforehand; with that one only where no busses could be
/// fetched; and with the first one where none was loaded. The job stays the same.
pub proof fn transaction_uses_the_richest_bus(job: Job, fetched: Option<Vec<Option<u64>>>, fallback: usize)
    requires
        fetched matches Some(rewards) ==> comparable(rewards@),
    ensures
        next(Phase::AwaitBusses { job }, Event::Busses { fetched, fallback }).0 == (Phase::AwaitBlockhash {
            job,
        }),
        next(Phase::AwaitBusses { job }, Event::Busses { fetched, fallback }).1 matches Action::FetchBlockhash {
            bus,
        } && match fetched {
            None => bus == fallback,
            Some(rewards) => if rewards@.len() > 0 && rewards@[0] is Some {
                &&& bus < rewards@.len()
                &&& rewards@[bus as int] is Some
                &&& forall|i: int|
                    0 <= i < rewards@.len() && (#[trigger] rewards@[i]) is Some ==> rewards@[i]->0
                        <= rewards@[bus as int]->0
                &&& forall|i: int|
                    0 <= i < bus && (#[trigger] rewards@[i]) is Some ==> rewards@[i]->0
                        < rewards@[bus as int]->0
            } else {
                bus == 0
            },
        },
{
    fetched_busses_decide(fallback, fetched);
    if let Some(rewards) = fetched {
        assert(rewards@.len() == rewards.len());
    }
}

/// With a blockhash the first bundle is sent; without one the pool looks at the clock again after a
/// second.
pub proof fn blockhash_lets_the_first_bundle_go(job: Job)
    ensures
        next(Phase::AwaitBlockhash { job }, Event::Blockhash(true)) == (
            Phase::AwaitSent { job, round: 0 },
            Action::SendBundle,
        ),
        next(Phase::AwaitBlockhash { job }, Event::Blockhash(false)) == (
            Phase::AwaitRest,
            Action::Sleep(Pause::Millis(1000)),
        ),
{
}

/// A bundle that was accepted is asked for at once, under its own id; one that was not is followed by
/// the next round after a second.
pub proof fn accepted_bundle_is_asked_for(job: Job, round: u32, sent: Option<String>)
    ensures
        sent matches Some(bundle_id) ==> next(Phase::AwaitSent { job, round }, Event::Sent(sent)) == (
            Phase::AwaitStatuses { job, round, bundle_id, attempts: 0 },
            Action::AskStatuses { bundle_id },
        ),
        sent is None ==> next(Phase::AwaitSent { job, round }, Event::Sent(sent)) == (
            Phase::AwaitResend { job, round },
            Action::Sleep(Pause::Seconds(1)),
        ),
{
}

/// After a pause the pool takes up what it had paused: it asks for the same bundle, sends the same
/// job in the next round, as long as there have not been three, or loads the account for it again.
pub proof fn pauses_change_nothing(job: Job, round: u32, bundle_id: String, attempts: u32)
    ensures
        next(Phase::AwaitAsk { job, round, bundle_id, attempts }, Event::Slept) == (
            Phase::AwaitStatuses { job, round, bundle_id, attempts },
            Action::AskStatuses { bundle_id },
        ),
        round < 2 ==> next(Phase::AwaitResend { job, round }, Event::Slept) == (
            Phase::AwaitSent { job, round: (round + 1) as u32 },
            Action::SendBundle,
        ),
        round < 2 ==> next(Phase::AwaitRound { job, round }, Event::Slept) == (
            Phase::AwaitSent { job, round: (round + 1) as u32 },
            Action::SendBundle,
        ),
        round >= 2 ==> next(Phase::AwaitResend { job, round }, Event::Slept) == (
            Phase::AwaitClock,
            Action::ReadClock,
        ),
        round >= 2 ==> next(Phase::AwaitRound { job, round }, Event::Slept) == (
            Phase::AwaitClock,
            Action::ReadClock,
        ),
        next(Phase::AwaitReload { job }, Event::Slept) == (Phase::AwaitChange { job }, Action::LoadProof),
{
}

/// After a confirmation the account is loaded until it differs from that of the job. Then the pool
/// goes on with it and tells the clients the difficulty of the job, the balance and how much it has
/// grown by. Before that nothing is taken over: an account that is still the same is loaded again at
/// once, one that could not be loaded after half a second.
pub proof fn changed_account_is_announced(job: Job, loaded: Option<Proof>)
    requires
        loaded matches Some(account) ==> account != job.proof ==> account.balance >= job.proof.balance,
    ensures
        loaded matches Some(account) ==> if account != job.proof {
            &&& next(Phase::AwaitChange { job }, Event::Loaded(loaded)).0 is AwaitCommitted
            &&& next(Phase::AwaitChange { job }, Event::Loaded(loaded)).1 matches Action::Commit {
                proof,
                success: Some(news),
            }
            &&& proof == account
            &&& news.difficulty == job.difficulty
            &&& news.total_balance == account.balance
            &&& job.proof.balance + news.rewards == account.balance
        } else {
            next(Phase::AwaitChange { job }, Event::Loaded(loaded)) == (
                Phase::AwaitChange { job },
                Action::LoadProof,
            )
        },
        loaded is None ==> next(Phase::AwaitChange { job }, Event::Loaded(loaded)) == (
            Phase::AwaitReload { job },
            Action::Sleep(Pause::Millis(500)),
        ),
        next(Phase::AwaitCommitted, Event::Committed) == (Phase::AwaitClock, Action::ReadClock),
{
}

/// After the last bundle was given up the account is taken over as it is loaded, without news; where
/// it cannot be loaded nothing is. Either way the pool looks at the clock again after half a second.
pub proof fn recovery_takes_the_account_as_it_is(loaded: Option<Proof>)
    ensures
        loaded matches Some(account) ==> next(Phase::AwaitRecovery, Event::Loaded(loaded)) == (
            Phase::AwaitRecovered,
            Action::Commit { proof: account, success: None },
        ),
        loaded is None ==> next(Phase::AwaitRecovery, Event::Loaded(loaded)) == (
            Phase::AwaitRest,
            Action::Sleep(Pause::Millis(500)),
        ),
        next(Phase::AwaitRecovered, Event::Committed) == (
            Phase::AwaitRest,
            Action::Sleep(Pause::Millis(500)),
        ),
{
}

/// A confirmation in any round, followed by a changed account, makes the pool go on with that account
/// and tell the clients what was earned.
pub proof fn confirmed_bundle_pays(
    job: Job,
    round: u32,
    bundle_id: String,
    attempts: u32,
    statuses: Vec<BundleStatus>,
    account: Proof,
)
    requires
        statuses@.len() > 0,
        statuses@[0].confirmation_status@ == "confirmed"@,
        account != job.proof,
        account.balance >= job.proof.balance,
    ensures
        next(
            next(
                Phase::AwaitStatuses { job, round, bundle_id, attempts },
                Event::Statuses(Some(statuses)),
            ).0,
            Event::Loaded(Some(account)),
        ).1 matches Action::Commit { proof, success: Some(news) } && proof == account && news.difficulty
            == job.difficulty && news.total_balance == account.balance && job.proof.balance + news.rewards
            == account.balance,
{
}

/// Two events are refused, and no others: busses of which the first was not loaded and another was,
/// and an account with a lower balance than before, after a bundle has landed.
pub proof fn only_two_events_are_refused(phase: Phase, event: Event)
    ensures
        acceptable(phase, event) <==> {
            &&& !(phase is AwaitBusses && (event matches Event::Busses { fetched: Some(rewards), .. }
                && rewards@.len() > 0 && rewards@[0] is None && exists|i: int|
                0 < i < rewards@.len() && (#[trigger] rewards@[i]) is Some))
            &&& !(phase is AwaitChange && (event matches Event::Loaded(Some(loaded))
                && loaded.balance < phase->AwaitChange_job.proof.balance))
        },
{
}

/// An event that the program does not wait for leads back to the clock.
pub proof fn stray_events_lead_to_the_clock(phase: Phase, event: Event)
    requires
        match phase {
            Phase::AwaitClock => !(event is Clock),
            Phase::AwaitBest { .. } => !(event is Best),
            Phase::AwaitBusses { .. } => !(event is Busses),
            Phase::AwaitBlockhash { .. } => !(event is Blockhash),
            Phase::AwaitSent { .. } => !(event is Sent),
            Phase::AwaitStatuses { .. } => !(event is Statuses),
            Phase::AwaitRecovery => !(event is Loaded),
            Phase::AwaitChange { .. } => !(event is Loaded),
            Phase::AwaitRecovered => !(event is Committed),
            Phase::AwaitCommitted => !(event is Committed),
            Phase::AwaitResend { .. } => !(event is Slept),
            Phase::AwaitAsk { .. } => !(event is Slept),
            Phase::AwaitRound { .. } => !(event is Slept),
            Phase::AwaitReload { .. } => !(event is Slept),
            Phase::AwaitRest => !(event is Slept),
        },
    ensures
        next(phase, event) == (Phase::AwaitClock, Action::ReadClock),
{
}

} // verus!
