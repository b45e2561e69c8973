use ore_pool::handler::{handle_client_message, Outcome};
use ore_pool::registry::{AppState, ReadyClients};
use ore_pool::solution::{difficulty_of, BestHash, Verdict};
use ore_pool::wire::{ClientMessage, SocketAddr, Solution};

const CHALLENGE: [u8; 32] = [7; 32];

const ALICE: SocketAddr = SocketAddr::V4 { ip: 1, port: 1 };
const BOB: SocketAddr = SocketAddr::V4 { ip: 1, port: 2 };
const STRANGER: SocketAddr = SocketAddr::V4 { ip: 9, port: 9 };

/// Solutions of the challenge, and their difficulties.
const FOUND: [(u64, [u8; 16], u32); 4] = [
    (870, [110, 51, 168, 136, 35, 30, 156, 219, 150, 143, 120, 225, 6, 232, 169, 232], 8),
    (887, [133, 67, 72, 137, 224, 162, 216, 211, 44, 178, 84, 200, 197, 126, 202, 243], 8),
    (645, [51, 43, 73, 81, 93, 56, 46, 159, 184, 2, 83, 167, 92, 30, 136, 222], 11),
    (1127, [215, 10, 238, 48, 50, 155, 227, 180, 187, 44, 223, 82, 240, 105, 127, 211], 10),
];

/// The first of those solutions.
fn good(count: usize) -> Vec<Solution> {
    FOUND.iter().take(count).map(|(nonce, d, _)| Solution { d: *d, n: nonce.to_le_bytes() }).collect()
}

/// The pool, with two clients connected.
struct Pool {
    state: AppState<()>,
    ready: ReadyClients,
    best: BestHash,
}

impl Pool {
    fn new() -> Self {
        let mut state = AppState::new();
        state.register(ALICE, ());
        state.register(BOB, ());
        Pool { state, ready: ReadyClients::new(), best: BestHash::new() }
    }

    fn handle(&mut self, message: ClientMessage) -> Outcome {
        handle_client_message(message, &self.state, &CHALLENGE, &mut self.ready, &mut self.best)
    }

    fn handle_all(messages: &[ClientMessage]) -> Self {
        let mut pool = Pool::new();
        for message in messages {
            pool.handle(*message);
        }
        pool
    }

    fn waiting(&self) -> Vec<bool> {
        let list = self.ready.snapshot();
        [ALICE, BOB, STRANGER].iter().map(|addr| list.contains(addr)).collect()
    }
}

#[test]
fn difficulties_are_those_found() {
    for (solution, (_, _, difficulty)) in good(4).iter().zip(FOUND) {
        assert_eq!(difficulty_of(solution), difficulty);
    }
}

#[test]
fn messages_go_to_their_handlers() {
    let mut pool = Pool::new();
    assert_eq!(
        pool.handle(ClientMessage::Ready(ALICE)),
        Outcome::Ready(Some("Client successfully added.".to_string()))
    );
    assert_eq!(pool.handle(ClientMessage::Ready(STRANGER)), Outcome::Ready(None));
    assert_eq!(pool.handle(ClientMessage::Mining(BOB)), Outcome::Mining);
    assert_eq!(pool.waiting(), vec![true, false, false]);
    assert_eq!(pool.best, BestHash::new());

    let solution = good(1)[0];
    assert_eq!(
        pool.handle(ClientMessage::BestSolution(STRANGER, solution)),
        Outcome::Judged(Verdict::Good(8))
    );
    assert_eq!(pool.best.solution(), Some(solution));
    assert_eq!(pool.best.difficulty(), 8);
    assert_eq!(pool.waiting(), vec![true, false, false]);

    let made_up = Solution { d: [1; 16], n: [1; 8] };
    assert_eq!(
        pool.handle(ClientMessage::BestSolution(ALICE, made_up)),
        Outcome::Judged(Verdict::Invalid)
    );
    assert_eq!(pool.best.solution(), Some(solution));
}

#[test]
fn order_of_messages_is_of_no_account() {
    let solutions = good(3);
    let mut messages: Vec<ClientMessage> =
        solutions.iter().map(|s| ClientMessage::BestSolution(ALICE, *s)).collect();
    messages.push(ClientMessage::Ready(BOB));
    messages.push(ClientMessage::Mining(ALICE));
    let pool = Pool::handle_all(&messages);
    assert_eq!(pool.best.difficulty(), 11);
    assert_eq!(pool.waiting(), vec![false, true, false]);

    messages.reverse();
    messages.push(messages[0]);
    let other = Pool::handle_all(&messages);
    assert_eq!(other.best.difficulty(), 11);
    assert_eq!(other.waiting(), pool.waiting());
}

#[test]
fn replayed_messages_change_nothing() {
    let mut messages: Vec<ClientMessage> =
        good(3).iter().map(|s| ClientMessage::BestSolution(ALICE, *s)).collect();
    messages.push(ClientMessage::Ready(BOB));
    let mut pool = Pool::handle_all(&messages);
    let best = pool.best;
    let waiting = pool.waiting();
    for message in messages.iter().rev() {
        pool.handle(*message);
    }
    assert_eq!(pool.best, best);
    assert_eq!(pool.waiting(), waiting);
}

#[test]
fn any_client_may_find_the_solution() {
    let solutions = good(2);
    let from = |addr: SocketAddr| {
        let messages: Vec<ClientMessage> =
            solutions.iter().map(|s| ClientMessage::BestSolution(addr, *s)).collect();
        Pool::handle_all(&messages).best
    };
    assert_eq!(from(ALICE), from(BOB));
    assert_eq!(from(ALICE), from(STRANGER));
}

#[test]
fn difficulty_kept_belongs_to_the_solution_kept() {
    let mut pool = Pool::new();
    for solution in good(4) {
        pool.handle(ClientMessage::BestSolution(BOB, solution));
        assert_eq!(pool.best.difficulty(), difficulty_of(&pool.best.solution().unwrap()));
    }
}

#[test]
fn first_of_the_hardest_solutions_stays() {
    let solutions = good(4);
    let kept = |picked: &[usize]| {
        let messages: Vec<ClientMessage> =
            picked.iter().map(|i| ClientMessage::BestSolution(ALICE, solutions[*i])).collect();
        Pool::handle_all(&messages).best.solution()
    };
    assert_eq!(kept(&[0, 1]), Some(solutions[0]));
    assert_eq!(kept(&[1, 0]), Some(solutions[1]));
    assert_eq!(kept(&[0, 1, 2, 3]), Some(solutions[2]));
    assert_eq!(kept(&[3, 0]), Some(solutions[3]));
    assert_eq!(kept(&[]), None);
}
