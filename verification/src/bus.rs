//! Choosing the bus that pays out.
use vstd::prelude::*;
use crate::chance::random_index;

verus! {

/// Reads `ore_api::consts::BUS_COUNT`, which is eight.
#[verifier::external_body]
fn bus_count() -> (count: usize)
    ensures
        count == 8,
{
    ore_api::consts::BUS_COUNT
}

/// A bus picked at random.
pub fn random_bus() -> (bus: usize)
    ensures
        bus < 8,
{
    random_index(bus_count())
}

/// The busses can be compared when the first one was loaded, or none at all.
pub open spec fn comparable(rewards: Seq<Option<u64>>) -> bool {
    rewards.len() > 0 && rewards[0] is None ==> forall|i: int|
        0 <= i < rewards.len() ==> (#[trigger] rewards[i]) is None
}

/// The bus with the most rewards, the first one of several; busses that were not loaded do not count.
pub open spec fn richest_bus(rewards: Seq<Option<u64>>) -> int
    decreases rewards.len(),
{
    if rewards.len() == 0 {
        0
    } else {
        let best = richest_bus(rewards.drop_last());
        let last = rewards.len() - 1;
        match (rewards[last], rewards[best]) {
            (Some(r), Some(b)) if r > b => last,
            _ => best,
        }
    }
}

/// No bus that was loaded has more rewards than the richest one, and none before it has as many.
pub proof fn richest_bus_is_first_maximum(rewards: Seq<Option<u64>>)
    requires
        rewards.len() > 0,
        rewards[0] is Some,
    ensures
        0 <= richest_bus(rewards) < rewards.len(),
        rewards[richest_bus(rewards)] is Some,
        forall|i: int|
            0 <= i < rewards.len() && (#[trigger] rewards[i]) is Some ==> rewards[i]->0
                <= rewards[richest_bus(rewards)]->0,
        forall|i: int|
            0 <= i < richest_bus(rewards) && (#[trigger] rewards[i]) is Some ==> rewards[i]->0
                < rewards[richest_bus(rewards)]->0,
    decreases rewards.len(),
{
    let before = rewards.drop_last();
    if before.len() > 0 {
        richest_bus_is_first_maximum(before);
        assert forall|i: int| 0 <= i < before.len() implies #[trigger] rewards[i] == before[i] by {}
    } else {
        assert(richest_bus(before) == 0);
    }
}

proof fn lemma_richest_bus_in_range(rewards: Seq<Option<u64>>)
    ensures
        0 <= richest_bus(rewards),
        rewards.len() > 0 ==> richest_bus(rewards) < rewards.len(),
    decreases rewards.len(),
{
    if rewards.len() > 0 {
        lemma_richest_bus_in_range(rewards.drop_last());
    }
}

/// Tells whether `best_bus` can take these rewards.
pub fn are_comparable(rewards: &Vec<Option<u64>>) -> (ok: bool)
    ensures
        ok == comparable(rewards@),
{
    if rewards.len() == 0 || rewards[0].is_some() {
        return true;
    }
    let mut i: usize = 0;
    while i < rewards.len()
        invariant
            i <= rewards@.len(),
            rewards@.len() > 0,
            rewards@[0] is None,
            forall|j: int| 0 <= j < i ==> (#[trigger] rewards@[j]) is None,
        decreases rewards@.len() - i,
    {
        if rewards[i].is_some() {
            return false;
        }
        i += 1;
    }
    true
}

/// Finds the bus with the most rewards.
pub fn best_bus(rewards: &Vec<Option<u64>>) -> (bus: usize)
    requires
        comparable(rewards@),
    ensures
        bus == richest_bus(rewards@),
        rewards@.len() > 0 && rewards@[0] is Some ==> {
            &&& bus < rewards@.len()
            &&& rewards@[bus as int] is Some
            &&& forall|i: int|
                0 <= i < rewards@.len() && (#[trigger] rewards@[i]) is Some ==> rewards@[i]->0
                    <= rewards@[bus as int]->0
        },
{
    proof {
        if rewards@.len() > 0 && rewards@[0] is Some {
            richest_bus_is_first_maximum(rewards@);
        }
    }
    let mut best_bus: usize = 0;
    let mut i: usize = 0;
    while i < rewards.len()
        invariant
            i <= rewards@.len(),
            best_bus == richest_bus(rewards@.take(i as int)),
            best_bus < rewards@.len() || rewards@.len() == 0,
        decreases rewards@.len() - i,
    {
        let ghost next = rewards@.take(i + 1);
        proof {
            assert(next.drop_last() =~= rewards@.take(i as int));
            lemma_richest_bus_in_range(rewards@.take(i as int));
        }
        if let Some(here) = rewards[i] {
            if let Some(best) = rewards[best_bus] {
                if here > best {
                    best_bus = i;
                }
            }
        }
        i += 1;
    }
    assert(rewards@.take(i as int) =~= rewards@);
    best_bus
}

/// The bus to use: the richest one where the busses were fetched, else the one picked beforehand.
pub open spec fn bus_to_use(fallback: usize, fetched: Option<Vec<Option<u64>>>) -> int {
    match fetched {
        Some(rewards) => richest_bus(rewards@),
        None => fallback as int,
    }
}

/// Chooses the bus to use.
pub fn choose_bus(fallback: usize, fetched: &Option<Vec<Option<u64>>>) -> (bus: usize)
    requires
        *fetched matches Some(rewards) ==> comparable(rewards@),
    ensures
        bus == bus_to_use(fallback, *fetched),
        *fetched is None ==> bus == fallback,
        *fetched matches Some(rewards) ==> if rewards@.len() > 0 && rewards@[0] is Some {
            &&& bus < rewards@.len()
            &&& rewards@[bus as int] is Some
            &&& forall|i: int|
                0 <= i < rewards@.len() && (#[trigger] rewards@[i]) is Some ==> rewards@[i]->0
                    <= rewards@[bus as int]->0
            &&& forall|i: int|
                0 <= i < bus && (#[trigger] rewards@[i]) is Some ==> rewards@[i]->0
                    < rewards@[bus as int]->0
        } else {
            bus == 0
        },
{
    proof {
        fetched_busses_decide(fallback, *fetched);
    }
    match fetched {
        Some(rewards) => best_bus(rewards),
        None => fallback,
    }
}

/// The bus to use is one of the eight, as long as the one picked beforehand is, and no more than
/// eight were fetched.
pub proof fn bus_to_use_exists(fallback: usize, fetched: Option<Vec<Option<u64>>>)
    requires
        fallback < 8,
        fetched matches Some(rewards) ==> rewards@.len() <= 8,
    ensures
        0 <= bus_to_use(fallback, fetched) < 8,
{
    if let Some(rewards) = fetched {
        lemma_richest_bus_in_range(rewards@);
    }
}

proof fn lemma_nothing_loaded(rewards: Seq<Option<u64>>)
    requires
        forall|i: int| 0 <= i < rewards.len() ==> (#[trigger] rewards[i]) is None,
    ensures
        richest_bus(rewards) == 0,
    decreases rewards.len(),
{
    if rewards.len() > 0 {
        assert(rewards[rewards.len() - 1] is None);
        lemma_nothing_loaded(rewards.drop_last());
    }
}

/// Where busses were fetched and the first one was loaded, the bus to use is a loaded one, no loaded
/// bus has more rewards and none before it has as many, whichever bus was picked beforehand. Where
/// none was loaded it is the first. The one picked beforehand counts only where nothing was fetched.
pub proof fn fetched_busses_decide(fallback: usize, fetched: Option<Vec<Option<u64>>>)
    requires
        fetched matches Some(rewards) ==> comparable(rewards@),
    ensures
        fetched is None ==> bus_to_use(fallback, fetched) == fallback,
        fetched matches Some(rewards) ==> if rewards@.len() > 0 && rewards@[0] is Some {
            &&& 0 <= bus_to_use(fallback, fetched) < rewards@.len()
            &&& rewards@[bus_to_use(fallback, fetched)] is Some
            &&& forall|i: int|
                0 <= i < rewards@.len() && (#[trigger] rewards@[i]) is Some ==> rewards@[i]->0
                    <= rewards@[bus_to_use(fallback, fetched)]->0
            &&& forall|i: int|
                0 <= i < bus_to_use(fallback, fetched) && (#[trigger] rewards@[i]) is Some
                    ==> rewards@[i]->0 < rewards@[bus_to_use(fallback, fetched)]->0
        } else {
            bus_to_use(fallback, fetched) == 0
        },
{
    if let Some(rewards) = fetched {
        if rewards@.len() > 0 && rewards@[0] is Some {
            richest_bus_is_first_maximum(rewards@);
        } else {
            lemma_nothing_loaded(rewards@);
        }
    }
}

/// Busses cannot be compared only where the first one was not loaded and another one was.
pub proof fn first_bus_must_be_loaded(rewards: Seq<Option<u64>>)
    ensures
        comparable(rewards) <==> !(rewards.len() > 0 && rewards[0] is None && exists|i: int|
            0 < i < rewards.len() && (#[trigger] rewards[i]) is Some),
{
}

} // verus!
