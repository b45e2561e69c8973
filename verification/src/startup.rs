//! The way from a wallet to a running pool.
//!
//! The program performs an action and hands back the event that came of it; `advance` decides what
//! comes next.
use vstd::prelude::*;
use crate::proof_account::Proof;

verus! {

/// The lamports that the wallet must hold.
pub const MIN_BALANCE: u64 = 1_000_000;

/// What the program waits for.
#[derive(Clone, Copy, Debug, PartialEq, Eq, Structural)]
pub enum Phase {
    AwaitWallet,
    AwaitBalance,
    AwaitProof,
    AwaitBlockhash,
    AwaitRegistration,
    AwaitNewProof,
    Over,
}

/// What happened.
#[derive(Clone, Copy, Debug, PartialEq, Eq)]
pub enum Event {
    /// The wallet file is there, or not.
    Wallet(bool),
    /// The balance of the wallet, if it could be queried.
    Balance(Option<u64>),
    /// The proof account, if it could be loaded.
    Proof(Option<Proof>),
    /// The latest blockhash was fetched, or not.
    Blockhash(bool),
    /// The proof account was registered, or not.
    Registered(bool),
}

/// What to do.
#[derive(Clone, Copy, Debug, PartialEq, Eq)]
pub enum Action {
    QueryBalance,
    LoadProof,
    FetchBlockhash,
    Register,
    /// Run the pool with this proof account.
    Start(Proof),
    Fail(StartupError),
}

/// Why the pool does not start.
#[derive(Clone, Copy, Debug, PartialEq, Eq, Structural)]
pub enum StartupError {
    NoWallet,
    NoBalance,
    LowBalance,
    NotRegistered,
    NoProof,
}

impl StartupError {
    /// The message for the user.
    pub open spec fn text(self) -> Seq<char> {
        match self {
            StartupError::NoWallet => "找不到钱包路径"@,
            StartupError::NoBalance => "查询sol余额失败"@,
            StartupError::LowBalance => "sol余额过低!"@,
            StartupError::NotRegistered => "Failed to create proof account"@,
            StartupError::NoProof => "Failed to get newly created proof"@,
        }
    }

    /// The message for the user.
    pub fn message(&self) -> (message: String)
        ensures
            message@ == self.text(),
            message@ == (match self {
                StartupError::NoWallet => "找不到钱包路径"@,
                StartupError::NoBalance => "查询sol余额失败"@,
                StartupError::LowBalance => "sol余额过低!"@,
                StartupError::NotRegistered => "Failed to create proof account"@,
                StartupError::NoProof => "Failed to get newly created proof"@,
            }),
    {
        match self {
            StartupError::NoWallet => "找不到钱包路径".to_owned(),
            StartupError::NoBalance => "查询sol余额失败".to_owned(),
            StartupError::LowBalance => "sol余额过低!".to_owned(),
            StartupError::NotRegistered => "Failed to create proof account".to_owned(),
            StartupError::NoProof => "Failed to get newly created proof".to_owned(),
        }
    }
}

/// The event answers what the program waits for.
pub open spec fn answers(phase: Phase, event: Event) -> bool {
    match phase {
        Phase::AwaitWallet => event is Wallet,
        Phase::AwaitBalance => event is Balance,
        Phase::AwaitProof => event is Proof,
        Phase::AwaitBlockhash => event is Blockhash,
        Phase::AwaitRegistration => event is Registered,
        Phase::AwaitNewProof => event is Proof,
        Phase::Over => false,
    }
}

/// What comes next.
pub open spec fn next(phase: Phase, event: Event) -> (Phase, Action) {
    match event {
        Event::Wallet(true) => (Phase::AwaitBalance, Action::QueryBalance),
        Event::Wallet(false) => (Phase::Over, Action::Fail(StartupError::NoWallet)),
        Event::Balance(Some(balance)) => if balance >= MIN_BALANCE {
            (Phase::AwaitProof, Action::LoadProof)
        } else {
            (Phase::Over, Action::Fail(StartupError::LowBalance))
        },
        Event::Balance(None) => (Phase::Over, Action::Fail(StartupError::NoBalance)),
        Event::Proof(Some(proof)) => (Phase::Over, Action::Start(proof)),
        Event::Proof(None) => if phase is AwaitProof {
            (Phase::AwaitBlockhash, Action::FetchBlockhash)
        } else {
            (Phase::Over, Action::Fail(StartupError::NoProof))
        },
        Event::Blockhash(true) => (Phase::AwaitRegistration, Action::Register),
        // Without a blockhash nothing is registered; the account may be there all the same.
        Event::Blockhash(false) => (Phase::AwaitNewProof, Action::LoadProof),
        Event::Registered(true) => (Phase::AwaitNewProof, Action::LoadProof),
        Event::Registered(false) => (Phase::Over, Action::Fail(StartupError::NotRegistered)),
    }
}

/// Decides what comes next.
pub fn advance(phase: Phase, event: Event) -> (result: (Phase, Action))
    ensures
        result == next(phase, event),
{
    match event {
        Event::Wallet(found) => if found {
            (Phase::AwaitBalance, Action::QueryBalance)
        } else {
            (Phase::Over, Action::Fail(StartupError::NoWallet))
        },
        Event::Balance(queried) => match queried {
            Some(balance) => if balance < MIN_BALANCE {
                (Phase::Over, Action::Fail(StartupError::LowBalance))
            } else {
                (Phase::AwaitProof, Action::LoadProof)
            },
            None => (Phase::Over, Action::Fail(StartupError::NoBalance)),
        },
        Event::Proof(loaded) => match loaded {
            Some(proof) => (Phase::Over, Action::Start(proof)),
            None => match phase {
                Phase::AwaitProof => (Phase::AwaitBlockhash, Action::FetchBlockhash),
                _ => (Phase::Over, Action::Fail(StartupError::NoProof)),
            },
        },
        Event::Blockhash(fetched) => if fetched {
            (Phase::AwaitRegistration, Action::Register)
        } else {
            (Phase::AwaitNewProof, Action::LoadProof)
        },
        Event::Registered(done) => if done {
            (Phase::AwaitNewProof, Action::LoadProof)
        } else {
            (Phase::Over, Action::Fail(StartupError::NotRegistered))
        },
    }
}

/// The phase after a sequence of events.
pub open spec fn phase_after(events: Seq<Event>) -> Phase
    decreases events.len(),
{
    if events.len() == 0 {
        Phase::AwaitWallet
    } else {
        next(phase_after(events.drop_last()), events.last()).0
    }
}

/// Every event answered what the program was waiting for.
pub open spec fn in_order(events: Seq<Event>) -> bool
    decreases events.len(),
{
    events.len() == 0 || (in_order(events.drop_last()) && answers(
        phase_after(events.drop_last()),
        events.last(),
    ))
}

/// The wallet was found, and it held enough.
pub open spec fn funded(events: Seq<Event>) -> bool {
    &&& events.len() >= 2
    &&& events[0] == Event::Wallet(true)
    &&& events[1] matches Event::Balance(Some(balance))
    &&& balance >= MIN_BALANCE
}

proof fn lemma_phases_tell_the_past(events: Seq<Event>)
    requires
        in_order(events),
    ensures
        phase_after(events) is AwaitWallet ==> events.len() == 0,
        phase_after(events) is AwaitBalance ==> events.len() == 1 && events[0] == Event::Wallet(true),
        match phase_after(events) {
            Phase::AwaitProof => funded(events) && events.len() == 2,
            Phase::AwaitBlockhash => funded(events) && events.len() == 3,
            Phase::AwaitRegistration => funded(events) && events.len() == 4,
            Phase::AwaitNewProof => funded(events) && events.len() <= 5,
            Phase::Over => events.len() <= 6,
            _ => true,
        },
    decreases events.len(),
{
    if events.len() > 0 {
        let before = events.drop_last();
        lemma_phases_tell_the_past(before);
        assert forall|i: int| 0 <= i < before.len() implies #[trigger] events[i] == before[i] by {}
        if before.len() >= 2 {
            assert(events[0] == before[0] && events[1] == before[1]);
        }
        if before.len() >= 1 {
            assert(events[0] == before[0]);
        }
    }
}

/// The pool starts only with a proof account that was loaded, for a wallet that was found and held
/// at least the smallest balance.
pub proof fn pool_starts_only_when_funded(events: Seq<Event>)
    requires
        events.len() > 0,
        in_order(events),
        next(phase_after(events.drop_last()), events.last()).1 is Start,
    ensures
        funded(events),
        events.last() == Event::Proof(
            Some(next(phase_after(events.drop_last()), events.last()).1->Start_0),
        ),
{
    let before = events.drop_last();
    lemma_phases_tell_the_past(before);
    assert(events[0] == before[0] && events[1] == before[1]);
}

/// The way to a running pool ends after six events at most.
pub proof fn startup_is_short(events: Seq<Event>)
    requires
        in_order(events),
    ensures
        events.len() <= 6,
        events.len() == 6 ==> phase_after(events) is Over,
{
    lemma_phases_tell_the_past(events);
}

/// Every wallet that holds at least the smallest balance gets on to its proof account, and a low
/// balance is the reason of failure only below it.
pub proof fn funded_wallet_gets_on(phase: Phase, event: Event)
    ensures
        event matches Event::Balance(Some(balance)) && balance >= 1_000_000 ==> next(phase, event) == (
            Phase::AwaitProof,
            Action::LoadProof,
        ),
        next(phase, event).1 == Action::Fail(StartupError::LowBalance) <==> (event matches Event::Balance(
            Some(balance),
        ) && balance < 1_000_000),
        next(phase, event).1 == Action::Fail(StartupError::NoBalance) <==> event == Event::Balance(None),
{
}

/// The wallet file decides at first: the balance is queried if and only if it is there.
pub proof fn missing_wallet_ends_startup(phase: Phase, event: Event)
    ensures
        next(phase, event).1 is QueryBalance <==> event == Event::Wallet(true),
        next(phase, event).0 is AwaitBalance <==> event == Event::Wallet(true),
        next(phase, event).1 == Action::Fail(StartupError::NoWallet) <==> event == Event::Wallet(false),
{
}

/// A proof account that was loaded, old or new, starts the pool, which goes on with this account
/// and no other.
pub proof fn loaded_account_starts_the_pool(phase: Phase, event: Event, account: Proof)
    ensures
        next(phase, event).1 == Action::Start(account) <==> event == Event::Proof(Some(account)),
        event == Event::Proof(Some(account)) ==> next(phase, event).0 is Over,
{
}

/// A missing account is registered once: after the first failure to load it a blockhash is fetched,
/// with which it is registered; after the second the pool does not start.
pub proof fn missing_account_is_registered_once(phase: Phase, event: Event)
    ensures
        next(phase, event).1 is FetchBlockhash <==> phase is AwaitProof && event == Event::Proof(None),
        next(phase, event).0 is AwaitBlockhash <==> phase is AwaitProof && event == Event::Proof(None),
        next(phase, event).1 == Action::Fail(StartupError::NoProof) <==> !(phase is AwaitProof) && event
            == Event::Proof(None),
        next(phase, event).1 is Register <==> event == Event::Blockhash(true),
        next(phase, event).0 is AwaitRegistration <==> event == Event::Blockhash(true),
{
}

/// The account is loaded again after it was registered, and also where no blockhash could be had;
/// where registration failed the pool does not start.
pub proof fn registered_account_is_loaded(phase: Phase, event: Event)
    ensures
        next(phase, event) == (Phase::AwaitNewProof, Action::LoadProof) <==> event == Event::Registered(true)
            || event == Event::Blockhash(false),
        next(phase, event).1 == Action::Fail(StartupError::NotRegistered) <==> event == Event::Registered(
            false,
        ),
{
}

/// Startup is over if and only if the pool starts or fails.
pub proof fn startup_ends_with_start_or_failure(phase: Phase, event: Event)
    ensures
        next(phase, event).0 is Over <==> next(phase, event).1 is Start || next(phase, event).1 is Fail,
{
}

/// With a wallet that is there and holds enough, and an account that can be loaded, the pool starts.
pub proof fn good_wallet_starts_the_pool(balance: u64, account: Proof)
    requires
        balance >= 1_000_000,
    ensures
        next(
            next(
                next(Phase::AwaitWallet, Event::Wallet(true)).0,
                Event::Balance(Some(balance)),
            ).0,
            Event::Proof(Some(account)),
        ) == (Phase::Over, Action::Start(account)),
{
}

} // verus!
