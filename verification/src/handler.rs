//! What the pool does with the messages of its clients.
use vstd::prelude::*;
use crate::registry::{AppState, ReadyClients};
use crate::solution::{
    assess, better, deserves, is_valid_digest, level, solution_difficulty, BestHash, Verdict, MIN_DIFF,
};
use crate::wire::{ClientMessage, SocketAddr, Solution};

verus! {

/// Puts a client on the waiting list, provided that it is connected, and returns the text to
/// greet it with.
pub fn handle_ready<S>(addr: SocketAddr, state: &AppState<S>, ready: &mut ReadyClients) -> (greeting: Option<String>)
    requires
        state.wf(),
        old(ready).wf(),
    ensures
        final(ready).wf(),
        if state@.dom().contains(addr) {
            &&& final(ready)@ == old(ready)@.insert(addr)
            &&& greeting matches Some(text)
            &&& text@ == "Client successfully added."@
        } else {
            &&& *final(ready) == *old(ready)
            &&& greeting is None
        },
{
    match state.get(&addr) {
        Some(_) => {
            ready.insert(addr);
            Some("Client successfully added.".to_owned())
        },
        None => None,
    }
}

/// Judges a solution by the current challenge and keeps it if it is good and harder than the best
/// one so far.
pub fn handle_best_solution(challenge: &[u8; 32], solution: Solution, best: &mut BestHash) -> (verdict: Verdict)
    requires
        old(best).wf(),
    ensures
        final(best).wf(),
        deserves(
            is_valid_digest(solution.d@, solution.n@, challenge@),
            solution_difficulty(solution),
            verdict,
        ),
        match verdict {
            Verdict::Good(difficulty) => final(best)@ == better(old(best)@, solution, difficulty as nat),
            _ => *final(best) == *old(best),
        },
{
    let verdict = assess(challenge, &solution);
    settle(verdict, solution, best);
    verdict
}

/// Keeps a solution on which the verdict is known, if it is good and harder than the best one.
pub fn settle(verdict: Verdict, solution: Solution, best: &mut BestHash)
    requires
        old(best).wf(),
        verdict matches Verdict::Good(difficulty) ==> difficulty >= MIN_DIFF,
    ensures
        final(best).wf(),
        match verdict {
            Verdict::Good(difficulty) => final(best)@ == better(old(best)@, solution, difficulty as nat),
            _ => *final(best) == *old(best),
        },
{
    if let Verdict::Good(difficulty) = verdict {
        best.offer(solution, difficulty);
    }
}

/// What a message has to offer: a solution that answers the challenge with enough difficulty.
pub open spec fn worth(message: ClientMessage, challenge: Seq<u8>) -> Option<(Solution, nat)> {
    match message {
        ClientMessage::BestSolution(_, solution) => if is_valid_digest(solution.d@, solution.n@, challenge)
            && solution_difficulty(solution) >= MIN_DIFF {
            Some((solution, solution_difficulty(solution)))
        } else {
            None
        },
        _ => None,
    }
}

/// What is kept after a message.
pub open spec fn best_after_one(
    kept: Option<(Solution, nat)>,
    message: ClientMessage,
    challenge: Seq<u8>,
) -> Option<(Solution, nat)> {
    match worth(message, challenge) {
        Some((solution, difficulty)) => better(kept, solution, difficulty),
        None => kept,
    }
}

/// Who waits after a message, given who is connected.
pub open spec fn waiting_after_one(
    waiting: Set<SocketAddr>,
    message: ClientMessage,
    connected: Set<SocketAddr>,
) -> Set<SocketAddr> {
    match message {
        ClientMessage::Ready(addr) if connected.contains(addr) => waiting.insert(addr),
        _ => waiting,
    }
}

/// What is kept after messages, one after the other.
pub open spec fn best_after(
    kept: Option<(Solution, nat)>,
    messages: Seq<ClientMessage>,
    challenge: Seq<u8>,
) -> Option<(Solution, nat)>
    decreases messages.len(),
{
    if messages.len() == 0 {
        kept
    } else {
        best_after_one(best_after(kept, messages.drop_last(), challenge), messages.last(), challenge)
    }
}

/// Who waits after messages, one after the other.
pub open spec fn waiting_after(
    waiting: Set<SocketAddr>,
    messages: Seq<ClientMessage>,
    connected: Set<SocketAddr>,
) -> Set<SocketAddr>
    decreases messages.len(),
{
    if messages.len() == 0 {
        waiting
    } else {
        waiting_after_one(
            waiting_after(waiting, messages.drop_last(), connected),
            messages.last(),
            connected,
        )
    }
}

/// What became of a message.
#[derive(Clone, Debug, PartialEq, Eq)]
pub enum Outcome {
    /// A client is ready: the text to greet it with, provided that it is connected.
    Ready(Option<String>),
    /// A client has begun to work.
    Mining,
    /// A solution was judged.
    Judged(Verdict),
}

/// What the sender of a message is owed.
pub open spec fn is_outcome(
    outcome: Outcome,
    message: ClientMessage,
    connected: Set<SocketAddr>,
    challenge: Seq<u8>,
) -> bool {
    match message {
        ClientMessage::Ready(addr) => match outcome {
            Outcome::Ready(Some(text)) => connected.contains(addr) && text@
                == "Client successfully added."@,
            Outcome::Ready(None) => !connected.contains(addr),
            _ => false,
        },
        ClientMessage::Mining(_) => outcome is Mining,
        ClientMessage::BestSolution(_, solution) => {
            &&& outcome matches Outcome::Judged(verdict)
            &&& deserves(
                is_valid_digest(solution.d@, solution.n@, challenge),
                solution_difficulty(solution),
                verdict,
            )
        },
    }
}

/// Handles the message of a client.
pub fn handle_client_message<S>(
    message: ClientMessage,
    state: &AppState<S>,
    challenge: &[u8; 32],
    ready: &mut ReadyClients,
    best: &mut BestHash,
) -> (outcome: Outcome)
    requires
        state.wf(),
        old(ready).wf(),
        old(best).wf(),
    ensures
        final(ready).wf(),
        final(best).wf(),
        is_outcome(outcome, message, state@.dom(), challenge@),
        final(ready)@ == waiting_after_one(old(ready)@, message, state@.dom()),
        final(best)@ == best_after_one(old(best)@, message, challenge@),
        outcome matches Outcome::Judged(Verdict::Good(d)) ==> final(best)@ is Some && (final(best)@->0).1
            >= d,
        message matches ClientMessage::BestSolution(_, solution) ==> {
            let valid = is_valid_digest(solution.d@, solution.n@, challenge@);
            let difficulty = solution_difficulty(solution);
            &&& outcome is Judged
            &&& outcome->Judged_0 is Invalid <==> !valid
            &&& outcome->Judged_0 is TooLow <==> valid && difficulty < MIN_DIFF
            &&& outcome->Judged_0 is Good <==> valid && difficulty >= MIN_DIFF
            &&& outcome matches Outcome::Judged(Verdict::TooLow(d)) ==> d == difficulty
            &&& outcome matches Outcome::Judged(Verdict::Good(d)) ==> d == difficulty
            &&& if valid && difficulty >= MIN_DIFF && (old(best)@ is None || (old(best)@->0).1 < difficulty) {
                final(best)@ == Some((solution, difficulty))
            } else {
                final(best)@ == old(best)@
            }
        },
        !(message is BestSolution) ==> final(best)@ == old(best)@,
        forall|addr: SocketAddr| #[trigger]
            final(ready)@.contains(addr) <==> old(ready)@.contains(addr) || (message
                == ClientMessage::Ready(addr) && state@.dom().contains(addr)),
        message matches ClientMessage::Ready(addr) ==> {
            &&& outcome is Ready
            &&& outcome->Ready_0 is Some <==> state@.dom().contains(addr)
            &&& outcome matches Outcome::Ready(Some(text)) ==> text@ == "Client successfully added."@
        },
        message is Mining <==> outcome is Mining,
{
    match message {
        ClientMessage::Ready(addr) => Outcome::Ready(handle_ready(addr, state, ready)),
        ClientMessage::Mining(_) => Outcome::Mining,
        ClientMessage::BestSolution(_, solution) => Outcome::Judged(
            handle_best_solution(challenge, solution, best),
        ),
    }
}

/// Of the solution kept at first and all good ones in the messages the hardest is kept: the one
/// that was there already, unless a message has a harder one; else the first of the hardest.
pub proof fn hardest_solution_is_kept(
    kept: Option<(Solution, nat)>,
    messages: Seq<ClientMessage>,
    challenge: Seq<u8>,
)
    ensures
        level(kept) <= level(best_after(kept, messages, challenge)),
        forall|i: int|
            0 <= i < messages.len() ==> level(worth(#[trigger] messages[i], challenge)) <= level(
                best_after(kept, messages, challenge),
            ),
        best_after(kept, messages, challenge) == kept || exists|k: int|
            {
                &&& 0 <= k < messages.len()
                &&& best_after(kept, messages, challenge) == worth(#[trigger] messages[k], challenge)
                &&& level(kept) < level(worth(messages[k], challenge))
                &&& forall|i: int|
                    0 <= i < k ==> level(worth(#[trigger] messages[i], challenge)) < level(
                        worth(messages[k], challenge),
                    )
            },
    decreases messages.len(),
{
    if messages.len() > 0 {
        let before = messages.drop_last();
        let last = messages.len() - 1;
        let earlier = best_after(kept, before, challenge);
        hardest_solution_is_kept(kept, before, challenge);
        assert forall|i: int| 0 <= i < last implies #[trigger] messages[i] == before[i] by {}
        if level(worth(messages[last], challenge)) > level(earlier) {
            assert(best_after(kept, messages, challenge) == worth(messages[last], challenge));
            assert forall|i: int| 0 <= i < last implies level(worth(#[trigger] messages[i], challenge))
                < level(worth(messages[last], challenge)) by {
                assert(messages[i] == before[i]);
            }
        } else {
            assert(best_after(kept, messages, challenge) == earlier);
            assert forall|i: int| 0 <= i < messages.len() implies level(
                worth(#[trigger] messages[i], challenge),
            ) <= level(earlier) by {
                if i < last {
                    assert(messages[i] == before[i]);
                }
            }
            if earlier != kept {
                let k = choose|k: int|
                    {
                        &&& 0 <= k < before.len()
                        &&& earlier == worth(#[trigger] before[k], challenge)
                        &&& level(kept) < level(worth(before[k], challenge))
                        &&& forall|i: int|
                            0 <= i < k ==> level(worth(#[trigger] before[i], challenge)) < level(
                                worth(before[k], challenge),
                            )
                    };
                assert(messages[k] == before[k]);
                assert forall|i: int| 0 <= i < k implies level(worth(#[trigger] messages[i], challenge))
                    < level(worth(messages[k], challenge)) by {
                    assert(messages[i] == before[i]);
                }
            }
        }
    }
}

/// After messages those wait who waited before and those who are connected and said that they are
/// ready, and nobody else.
pub proof fn ready_clients_wait(
    waiting: Set<SocketAddr>,
    messages: Seq<ClientMessage>,
    connected: Set<SocketAddr>,
    addr: SocketAddr,
)
    ensures
        waiting_after(waiting, messages, connected).contains(addr) <==> {
            ||| waiting.contains(addr)
            ||| connected.contains(addr) && messages.contains(ClientMessage::Ready(addr))
        },
    decreases messages.len(),
{
    if messages.len() > 0 {
        let before = messages.drop_last();
        let last = messages.len() - 1;
        ready_clients_wait(waiting, before, connected, addr);
        assert forall|i: int| 0 <= i < last implies #[trigger] messages[i] == before[i] by {}
        assert(messages[last] == messages.last());
        if before.contains(ClientMessage::Ready(addr)) {
            let k = choose|k: int|
                0 <= k < before.len() && before[k] == ClientMessage::Ready(addr);
            assert(messages[k] == before[k]);
        }
        if messages.contains(ClientMessage::Ready(addr)) && messages.last() != ClientMessage::Ready(addr) {
            let k = choose|k: int|
                0 <= k < messages.len() && messages[k] == ClientMessage::Ready(addr);
            assert(before[k] == messages[k]);
        }
    }
}

proof fn lemma_level_of_subset(
    kept: Option<(Solution, nat)>,
    fewer: Seq<ClientMessage>,
    more: Seq<ClientMessage>,
    challenge: Seq<u8>,
)
    requires
        forall|m: ClientMessage| fewer.contains(m) ==> #[trigger] more.contains(m),
    ensures
        level(best_after(kept, fewer, challenge)) <= level(best_after(kept, more, challenge)),
{
    hardest_solution_is_kept(kept, fewer, challenge);
    hardest_solution_is_kept(kept, more, challenge);
    if best_after(kept, fewer, challenge) != kept {
        let k = choose|k: int|
            {
                &&& 0 <= k < fewer.len()
                &&& best_after(kept, fewer, challenge) == worth(#[trigger] fewer[k], challenge)
            };
        assert(fewer.contains(fewer[k]));
        assert(more.contains(fewer[k]));
        let j = choose|j: int| 0 <= j < more.len() && more[j] == fewer[k];
        assert(level(worth(more[j], challenge)) <= level(best_after(kept, more, challenge)));
    }
}

/// Messages that differ only in their order, or in how often each was sent, lead to the same best
/// difficulty and the same waiting list.
pub proof fn order_of_messages_does_not_matter(
    kept: Option<(Solution, nat)>,
    waiting: Set<SocketAddr>,
    messages: Seq<ClientMessage>,
    others: Seq<ClientMessage>,
    challenge: Seq<u8>,
    connected: Set<SocketAddr>,
)
    requires
        forall|m: ClientMessage| #[trigger] messages.contains(m) <==> #[trigger] others.contains(m),
    ensures
        level(best_after(kept, messages, challenge)) == level(best_after(kept, others, challenge)),
        waiting_after(waiting, messages, connected) == waiting_after(waiting, others, connected),
{
    lemma_level_of_subset(kept, messages, others, challenge);
    lemma_level_of_subset(kept, others, messages, challenge);
    assert forall|addr: SocketAddr|
        waiting_after(waiting, messages, connected).contains(addr) <==> waiting_after(
            waiting,
            others,
            connected,
        ).contains(addr) by {
        ready_clients_wait(waiting, messages, connected, addr);
        ready_clients_wait(waiting, others, connected, addr);
    }
    assert(waiting_after(waiting, messages, connected) =~= waiting_after(waiting, others, connected));
}

/// Messages that were handled before change nothing when they come again, however many of them and
/// in whatever order.
pub proof fn replay_changes_nothing(
    kept: Option<(Solution, nat)>,
    waiting: Set<SocketAddr>,
    messages: Seq<ClientMessage>,
    again: Seq<ClientMessage>,
    challenge: Seq<u8>,
    connected: Set<SocketAddr>,
)
    requires
        forall|m: ClientMessage| again.contains(m) ==> #[trigger] messages.contains(m),
    ensures
        best_after(best_after(kept, messages, challenge), again, challenge) == best_after(
            kept,
            messages,
            challenge,
        ),
        waiting_after(waiting_after(waiting, messages, connected), again, connected)
            == waiting_after(waiting, messages, connected),
{
    let best = best_after(kept, messages, challenge);
    hardest_solution_is_kept(kept, messages, challenge);
    hardest_solution_is_kept(best, again, challenge);
    if best_after(best, again, challenge) != best {
        let k = choose|k: int|
            {
                &&& 0 <= k < again.len()
                &&& best_after(best, again, challenge) == worth(#[trigger] again[k], challenge)
                &&& level(best) < level(worth(again[k], challenge))
            };
        assert(again.contains(again[k]));
        assert(messages.contains(again[k]));
        let j = choose|j: int| 0 <= j < messages.len() && messages[j] == again[k];
        assert(level(worth(messages[j], challenge)) <= level(best));
    }
    let queue = waiting_after(waiting, messages, connected);
    assert forall|addr: SocketAddr|
        waiting_after(queue, again, connected).contains(addr) <==> queue.contains(addr) by {
        ready_clients_wait(queue, again, connected, addr);
        ready_clients_wait(waiting, messages, connected, addr);
    }
    assert(waiting_after(queue, again, connected) =~= queue);
}

/// Two messages say the same, except that two solutions may have come from different clients.
pub open spec fn same_but_for_finder(message: ClientMessage, other: ClientMessage) -> bool {
    match (message, other) {
        (ClientMessage::BestSolution(_, a), ClientMessage::BestSolution(_, b)) => a == b,
        _ => message == other,
    }
}

/// It does not matter which clients the solutions came from.
pub proof fn finder_of_a_solution_does_not_matter(
    kept: Option<(Solution, nat)>,
    waiting: Set<SocketAddr>,
    messages: Seq<ClientMessage>,
    others: Seq<ClientMessage>,
    challenge: Seq<u8>,
    connected: Set<SocketAddr>,
)
    requires
        messages.len() == others.len(),
        forall|i: int|
            0 <= i < messages.len() ==> same_but_for_finder(#[trigger] messages[i], others[i]),
    ensures
        best_after(kept, messages, challenge) == best_after(kept, others, challenge),
        waiting_after(waiting, messages, connected) == waiting_after(waiting, others, connected),
    decreases messages.len(),
{
    if messages.len() > 0 {
        let before = messages.drop_last();
        let last = messages.len() - 1;
        assert forall|i: int| 0 <= i < before.len() implies same_but_for_finder(
            #[trigger] before[i],
            others.drop_last()[i],
        ) by {
            assert(before[i] == messages[i]);
        }
        finder_of_a_solution_does_not_matter(
            kept,
            waiting,
            before,
            others.drop_last(),
            challenge,
            connected,
        );
        assert(same_but_for_finder(messages[last], others[last]));
    }
}

/// The difficulty kept is that of the solution kept.
pub open spec fn is_graded(kept: Option<(Solution, nat)>) -> bool {
    kept matches Some((solution, difficulty)) ==> difficulty == solution_difficulty(solution)
}

/// No message makes the difficulty kept another one than that of the solution kept.
pub proof fn difficulty_kept_is_that_of_the_solution(
    kept: Option<(Solution, nat)>,
    messages: Seq<ClientMessage>,
    challenge: Seq<u8>,
)
    requires
        is_graded(kept),
    ensures
        is_graded(best_after(kept, messages, challenge)),
    decreases messages.len(),
{
    if messages.len() > 0 {
        difficulty_kept_is_that_of_the_solution(kept, messages.drop_last(), challenge);
    }
}

/// After a solution that is valid for the challenge and hard enough, the difficulty kept is at least
/// that of the solution, and the solution itself is kept where it is harder than what was kept
/// before, or nothing was.
pub proof fn good_solution_is_kept_unless_a_harder_one_is(
    kept: Option<(Solution, nat)>,
    from: SocketAddr,
    solution: Solution,
    challenge: Seq<u8>,
)
    requires
        is_valid_digest(solution.d@, solution.n@, challenge),
        solution_difficulty(solution) >= MIN_DIFF,
    ensures
        best_after_one(kept, ClientMessage::BestSolution(from, solution), challenge) matches Some((_, d))
            && d >= solution_difficulty(solution),
        kept is None || (kept->0).1 < solution_difficulty(solution) ==> best_after_one(
            kept,
            ClientMessage::BestSolution(from, solution),
            challenge,
        ) == Some((solution, solution_difficulty(solution))),
        kept is Some && (kept->0).1 >= solution_difficulty(solution) ==> best_after_one(
            kept,
            ClientMessage::BestSolution(from, solution),
            challenge,
        ) == kept,
{
}

/// Whenever a message is answered with a good verdict, the difficulty kept afterwards is at least
/// that of the verdict.
pub proof fn good_verdict_raises_the_level(
    kept: Option<(Solution, nat)>,
    message: ClientMessage,
    outcome: Outcome,
    connected: Set<SocketAddr>,
    challenge: Seq<u8>,
)
    requires
        is_outcome(outcome, message, connected, challenge),
    ensures
        outcome matches Outcome::Judged(Verdict::Good(d)) ==> best_after_one(kept, message, challenge)
            is Some && (best_after_one(kept, message, challenge)->0).1 >= d,
{
}

/// What is kept changes only through a solution that is valid, hard enough and harder than what was
/// kept, and then to that solution with its difficulty.
pub proof fn only_good_solutions_are_kept(
    kept: Option<(Solution, nat)>,
    message: ClientMessage,
    challenge: Seq<u8>,
)
    ensures
        best_after_one(kept, message, challenge) != kept ==> {
            &&& message matches ClientMessage::BestSolution(_, solution)
            &&& is_valid_digest(solution.d@, solution.n@, challenge)
            &&& solution_difficulty(solution) >= MIN_DIFF
            &&& kept matches Some((_, d)) ==> d < solution_difficulty(solution)
            &&& best_after_one(kept, message, challenge) == Some((solution, solution_difficulty(solution)))
        },
{
}

/// After messages the difficulty kept is at least that of every solution among them that is valid
/// and hard enough.
pub proof fn no_good_solution_is_lost(
    kept: Option<(Solution, nat)>,
    messages: Seq<ClientMessage>,
    challenge: Seq<u8>,
    i: int,
)
    requires
        0 <= i < messages.len(),
        messages[i] is BestSolution,
        is_valid_digest(messages[i]->BestSolution_1.d@, messages[i]->BestSolution_1.n@, challenge),
        solution_difficulty(messages[i]->BestSolution_1) >= MIN_DIFF,
    ensures
        best_after(kept, messages, challenge) is Some,
        (best_after(kept, messages, challenge)->0).1 >= solution_difficulty(messages[i]->BestSolution_1),
    decreases messages.len(),
{
    let last = messages.len() - 1;
    if i < last {
        assert(messages.drop_last()[i] == messages[i]);
        no_good_solution_is_lost(kept, messages.drop_last(), challenge, i);
    }
}

/// One message puts at most one client on the waiting list: the one that says that it is ready, if
/// it is connected. Nobody is taken off.
pub proof fn ready_message_adds_its_sender(
    waiting: Set<SocketAddr>,
    message: ClientMessage,
    connected: Set<SocketAddr>,
    addr: SocketAddr,
)
    ensures
        waiting_after_one(waiting, message, connected).contains(addr) <==> waiting.contains(addr) || (
        message == ClientMessage::Ready(addr) && connected.contains(addr)),
{
}

/// The answer to a message is of the kind of the message; a client is greeted if and only if it is
/// connected, and a verdict says whether the solution is valid and how hard it is.
pub proof fn answers_fit_their_messages(
    outcome: Outcome,
    message: ClientMessage,
    connected: Set<SocketAddr>,
    challenge: Seq<u8>,
)
    requires
        is_outcome(outcome, message, connected, challenge),
    ensures
        message is Ready <==> outcome is Ready,
        message is Mining <==> outcome is Mining,
        message is BestSolution <==> outcome is Judged,
        message matches ClientMessage::Ready(addr) ==> (outcome->Ready_0 is Some <==> connected.contains(
            addr,
        )),
        outcome matches Outcome::Ready(Some(text)) ==> text@ == "Client successfully added."@,
        message matches ClientMessage::BestSolution(_, solution) ==> {
            let valid = is_valid_digest(solution.d@, solution.n@, challenge);
            &&& outcome->Judged_0 is Invalid <==> !valid
            &&& outcome->Judged_0 is TooLow <==> valid && solution_difficulty(solution) < MIN_DIFF
            &&& outcome->Judged_0 is Good <==> valid && solution_difficulty(solution) >= MIN_DIFF
        },
{
}

} // verus!
