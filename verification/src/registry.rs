//! Who is connected and who waits for work.
use vstd::prelude::*;
use crate::wire::SocketAddr;

verus! {

/// An address occurs among the entries.
pub open spec fn holds<S>(entries: Seq<(SocketAddr, S)>, addr: SocketAddr) -> bool {
    exists|i: int| 0 <= i < entries.len() && (#[trigger] entries[i]).0 == addr
}

/// The clients of which a ping was not sent.
pub open spec fn unreachable_clients(pings: Seq<(SocketAddr, bool)>) -> Set<SocketAddr> {
    Set::new(|addr: SocketAddr| pings.contains((addr, false)))
}

/// What a ping carries.
pub fn ping_payload() -> (payload: Vec<u8>)
    ensures
        payload@ == seq![1u8, 2, 3],
{
    vec![1, 2, 3]
}

/// The open sockets of the pool, each with what `S` is needed to write to it.
#[derive(Debug)]
pub struct AppState<S> {
    sockets: Vec<(SocketAddr, S)>,
}

impl<S> View for AppState<S> {
    type V = Map<SocketAddr, S>;

    /// The sockets by address.
    closed spec fn view(&self) -> Map<SocketAddr, S> {
        Map::new(
            |addr: SocketAddr| holds(self.sockets@, addr),
            |addr: SocketAddr|
                {
                    let i = choose|i: int|
                        0 <= i < self.sockets@.len() && (#[trigger] self.sockets@[i]).0 == addr;
                    self.sockets@[i].1
                },
        )
    }
}

impl<S> AppState<S> {
    /// The sockets in the order in which they are visited.
    pub closed spec fn entries(&self) -> Seq<(SocketAddr, S)> {
        self.sockets@
    }

    /// No address occurs twice.
    pub closed spec fn wf(&self) -> bool {
        forall|i: int, j: int|
            0 <= i < self.sockets@.len() && 0 <= j < self.sockets@.len() && i != j ==> (
            #[trigger] self.sockets@[i]).0 != (#[trigger] self.sockets@[j]).0
    }

    proof fn lemma_entry(&self, i: int)
        requires
            self.wf(),
            0 <= i < self.sockets@.len(),
        ensures
            self@.dom().contains(self.sockets@[i].0),
            self@[self.sockets@[i].0] == self.sockets@[i].1,
    {
        let addr = self.sockets@[i].0;
        assert(holds(self.sockets@, addr));
    }

    /// The entries are the sockets, each once.
    pub proof fn entries_are_the_sockets(&self)
        requires
            self.wf(),
        ensures
            forall|addr: SocketAddr| #[trigger]
                self@.dom().contains(addr) <==> holds(self.entries(), addr),
            forall|i: int|
                0 <= i < self.entries().len() ==> self@[(#[trigger] self.entries()[i]).0]
                    == self.entries()[i].1,
            forall|i: int, j: int|
                0 <= i < self.entries().len() && 0 <= j < self.entries().len() && i != j ==> (
                #[trigger] self.entries()[i]).0 != (#[trigger] self.entries()[j]).0,
    {
        assert forall|i: int| 0 <= i < self.entries().len() implies self@[(
        #[trigger] self.entries()[i]).0] == self.entries()[i].1 by {
            self.lemma_entry(i);
        }
    }

    /// Each client is visited: an address is connected if and only if it stands at one of the places
    /// of the entries, with its socket, and it stands at no other.
    pub proof fn every_client_is_visited(&self, addr: SocketAddr)
        requires
            self.wf(),
        ensures
            self@.dom().contains(addr) <==> exists|i: int|
                0 <= i < self.entries().len() && (#[trigger] self.entries()[i]).0 == addr,
            forall|i: int|
                0 <= i < self.entries().len() && (#[trigger] self.entries()[i]).0 == addr
                    ==> self.entries()[i].1 == self@[addr],
            forall|i: int, j: int|
                0 <= i < self.entries().len() && 0 <= j < self.entries().len() && (
                #[trigger] self.entries()[i]).0 == addr && (#[trigger] self.entries()[j]).0 == addr ==> i == j,
    {
        self.entries_are_the_sockets();
    }

    /// A pool without clients.
    pub fn new() -> (state: Self)
        ensures
            state.wf(),
            state@ == Map::<SocketAddr, S>::empty(),
    {
        let state = AppState { sockets: Vec::new() };
        assert(state@ =~= Map::empty());
        state
    }

    /// Finds the entry of an address.
    fn position(&self, addr: &SocketAddr) -> (found: Option<usize>)
        ensures
            match found {
                Some(i) => i < self.sockets@.len() && self.sockets@[i as int].0 == *addr,
                None => !self@.dom().contains(*addr),
            },
    {
        let mut i: usize = 0;
        while i < self.sockets.len()
            invariant
                i <= self.sockets@.len(),
                forall|j: int| 0 <= j < i ==> (#[trigger] self.sockets@[j]).0 != *addr,
            decreases self.sockets@.len() - i,
        {
            if self.sockets[i].0 == *addr {
                return Some(i);
            }
            i += 1;
        }
        None
    }

    /// Adds the socket of a client, unless the address already has one: then the old one stays and
    /// the new one is dropped. Tells whether it was added.
    pub fn register(&mut self, who: SocketAddr, socket: S) -> (added: bool)
        requires
            old(self).wf(),
        ensures
            final(self).wf(),
            added == !old(self)@.dom().contains(who),
            added ==> final(self)@ == old(self)@.insert(who, socket),
            !added ==> *final(self) == *old(self),
    {
        match self.position(&who) {
            Some(i) => {
                proof {
                    self.lemma_entry(i as int);
                }
                false
            },
            None => {
                let ghost before = *self;
                self.sockets.push((who, socket));
                proof {
                    let n = before.sockets@.len();
                    assert(!holds(before.sockets@, who));
                    assert forall|i: int, j: int|
                        0 <= i < self.sockets@.len() && 0 <= j < self.sockets@.len() && i
                            != j implies (#[trigger] self.sockets@[i]).0 != (
                    #[trigger] self.sockets@[j]).0 by {
                        if i < n && j < n {
                            assert(before.sockets@[i].0 != before.sockets@[j].0);
                        } else if i < n {
                            assert(before.sockets@[i].0 != who);
                        } else {
                            assert(before.sockets@[j].0 != who);
                        }
                    }
                    assert forall|addr: SocketAddr|
                        holds(self.sockets@, addr) == (holds(before.sockets@, addr) || addr
                            == who) by {
                        if holds(before.sockets@, addr) {
                            let i = choose|i: int|
                                0 <= i < before.sockets@.len() && (
                                #[trigger] before.sockets@[i]).0 == addr;
                            assert(self.sockets@[i].0 == addr);
                        }
                        if addr == who {
                            assert(self.sockets@[n as int].0 == who);
                        }
                        if holds(self.sockets@, addr) && addr != who {
                            let i = choose|i: int|
                                0 <= i < self.sockets@.len() && (#[trigger] self.sockets@[i]).0
                                    == addr;
                            assert(before.sockets@[i].0 == addr);
                        }
                    }
                    assert forall|addr: SocketAddr| #[trigger]
                        self@.dom().contains(addr) implies self@[addr] == before@.insert(
                        who,
                        socket,
                    )[addr] by {
                        let i = choose|i: int|
                            0 <= i < self.sockets@.len() && (#[trigger] self.sockets@[i]).0 == addr;
                        self.lemma_entry(i);
                        if i < n {
                            before.lemma_entry(i);
                            assert(before.sockets@[i].0 != who);
                        }
                    }
                    assert(self@ =~= before@.insert(who, socket));
                }
                true
            },
        }
    }

    /// The socket of a client, if it is connected.
    pub fn get(&self, who: &SocketAddr) -> (socket: Option<&S>)
        requires
            self.wf(),
        ensures
            match socket {
                Some(s) => self@.dom().contains(*who) && *s == self@[*who],
                None => !self@.dom().contains(*who),
            },
    {
        match self.position(who) {
            Some(i) => {
                proof {
                    self.lemma_entry(i as int);
                }
                Some(&self.sockets[i].1)
            },
            None => None,
        }
    }

    /// How many clients are connected.
    pub fn len(&self) -> (n: usize)
        ensures
            n == self.entries().len(),
    {
        self.sockets.len()
    }

    /// One of the entries.
    pub fn entry(&self, i: usize) -> (e: &(SocketAddr, S))
        requires
            i < self.entries().len(),
        ensures
            *e == self.entries()[i as int],
    {
        &self.sockets[i]
    }

    /// Forgets the socket of a client, if there is one.
    pub fn remove(&mut self, who: &SocketAddr)
        requires
            old(self).wf(),
        ensures
            final(self).wf(),
            final(self)@ == old(self)@.remove(*who),
    {
        let ghost before = *self;
        match self.position(who) {
            Some(i) => {
                let _ = self.sockets.remove(i);
                proof {
                    let k = i as int;
                    assert forall|j: int| 0 <= j < self.sockets@.len() implies #[trigger] self.sockets@[j]
                        == before.sockets@[if j < k { j } else { j + 1 }] by {}
                    assert forall|a: int, b: int|
                        0 <= a < self.sockets@.len() && 0 <= b < self.sockets@.len() && a
                            != b implies (#[trigger] self.sockets@[a]).0 != (
                    #[trigger] self.sockets@[b]).0 by {
                        let a2 = if a < k { a } else { a + 1 };
                        let b2 = if b < k { b } else { b + 1 };
                        assert(before.sockets@[a2].0 != before.sockets@[b2].0);
                    }
                    assert forall|addr: SocketAddr|
                        holds(self.sockets@, addr) == (holds(before.sockets@, addr) && addr
                            != *who) by {
                        if holds(self.sockets@, addr) {
                            let j = choose|j: int|
                                0 <= j < self.sockets@.len() && (#[trigger] self.sockets@[j]).0
                                    == addr;
                            let j2 = if j < k { j } else { j + 1 };
                            assert(before.sockets@[j2].0 == addr);
                            assert(before.sockets@[j2].0 != before.sockets@[k].0);
                        }
                        if holds(before.sockets@, addr) && addr != *who {
                            let j2 = choose|j: int|
                                0 <= j < before.sockets@.len() && (
                                #[trigger] before.sockets@[j]).0 == addr;
                            let j = if j2 < k { j2 } else { j2 - 1 };
                            assert(self.sockets@[j].0 == addr);
                        }
                    }
                    assert forall|addr: SocketAddr| #[trigger]
                        self@.dom().contains(addr) implies self@[addr] == before@.remove(
                        *who,
                    )[addr] by {
                        let j = choose|j: int|
                            0 <= j < self.sockets@.len() && (#[trigger] self.sockets@[j]).0 == addr;
                        self.lemma_entry(j);
                        let j2 = if j < k { j } else { j + 1 };
                        before.lemma_entry(j2);
                    }
                    assert(self@ =~= before@.remove(*who));
                }
            },
            None => {
                assert(self@ =~= before@.remove(*who));
            },
        }
    }

    /// Forgets the sockets to which a ping could not be sent.
    pub fn settle_pings(&mut self, pings: &Vec<(SocketAddr, bool)>)
        requires
            old(self).wf(),
        ensures
            final(self).wf(),
            final(self)@ == old(self)@.remove_keys(unreachable_clients(pings@)),
            forall|addr: SocketAddr| #[trigger]
                final(self)@.dom().contains(addr) <==> old(self)@.dom().contains(addr) && forall|i: int|
                    0 <= i < pings@.len() ==> #[trigger] pings@[i] != (addr, false),
            forall|addr: SocketAddr| #[trigger]
                final(self)@.dom().contains(addr) ==> final(self)@[addr] == old(self)@[addr],
    {
        let ghost before = self@;
        let mut i: usize = 0;
        assert(self@ =~= before.remove_keys(unreachable_clients(pings@.take(0))));
        while i < pings.len()
            invariant
                i <= pings@.len(),
                self.wf(),
                self@ == before.remove_keys(unreachable_clients(pings@.take(i as int))),
            decreases pings@.len() - i,
        {
            let (who, sent) = pings[i];
            if !sent {
                self.remove(&who);
            }
            proof {
                let done = pings@.take(i as int);
                let next = pings@.take(i + 1);
                assert(next =~= done.push((who, sent)));
                assert forall|addr: SocketAddr|
                    next.contains((addr, false)) == (done.contains((addr, false)) || (addr == who
                        && !sent)) by {
                    if done.contains((addr, false)) {
                        let j = choose|j: int| 0 <= j < done.len() && done[j] == (addr, false);
                        assert(next[j] == (addr, false));
                    }
                    assert(next[i as int] == (who, sent));
                }
                assert(self@ =~= before.remove_keys(unreachable_clients(next)));
            }
            i += 1;
        }
        assert(pings@.take(i as int) =~= pings@);
        proof {
            assert forall|addr: SocketAddr| #[trigger]
                self@.dom().contains(addr) <==> before.dom().contains(addr) && forall|k: int|
                    0 <= k < pings@.len() ==> #[trigger] pings@[k] != (addr, false) by {
                failed_pings_disconnect(before, pings@, addr);
            }
        }
    }
}

/// A client stays connected if and only if it was connected and none of the pings, from the first
/// to the last, failed to reach it; and one that stays keeps its socket.
pub proof fn failed_pings_disconnect<S>(
    before: Map<SocketAddr, S>,
    pings: Seq<(SocketAddr, bool)>,
    addr: SocketAddr,
)
    ensures
        before.remove_keys(unreachable_clients(pings)).dom().contains(addr) <==> before.dom().contains(
            addr,
        ) && forall|i: int| 0 <= i < pings.len() ==> #[trigger] pings[i] != (addr, false),
        before.remove_keys(unreachable_clients(pings)).dom().contains(addr) ==> before.remove_keys(
            unreachable_clients(pings),
        )[addr] == before[addr],
{
    if exists|i: int| 0 <= i < pings.len() && #[trigger] pings[i] == (addr, false) {
        assert(pings.contains((addr, false)));
    }
}

/// The clients that wait for work.
#[derive(Debug)]
pub struct ReadyClients {
    clients: Vec<SocketAddr>,
}

impl View for ReadyClients {
    type V = Set<SocketAddr>;

    closed spec fn view(&self) -> Set<SocketAddr> {
        self.clients@.to_set()
    }
}

impl ReadyClients {
    /// No client waits twice.
    pub closed spec fn wf(&self) -> bool {
        self.clients@.no_duplicates()
    }

    /// Nobody waits.
    pub fn new() -> (ready: Self)
        ensures
            ready.wf(),
            ready@ == Set::<SocketAddr>::empty(),
    {
        let ready = ReadyClients { clients: Vec::new() };
        assert(ready@ =~= Set::empty());
        ready
    }

    /// Finds a client.
    fn position(&self, who: &SocketAddr) -> (found: Option<usize>)
        ensures
            match found {
                Some(i) => i < self.clients@.len() && self.clients@[i as int] == *who,
                None => !self@.contains(*who),
            },
    {
        let mut i: usize = 0;
        while i < self.clients.len()
            invariant
                i <= self.clients@.len(),
                forall|j: int| 0 <= j < i ==> self.clients@[j] != *who,
            decreases self.clients@.len() - i,
        {
            if self.clients[i] == *who {
                return Some(i);
            }
            i += 1;
        }
        None
    }

    /// Lets a client wait for work.
    pub fn insert(&mut self, who: SocketAddr)
        requires
            old(self).wf(),
        ensures
            final(self).wf(),
            final(self)@ == old(self)@.insert(who),
    {
        let ghost before = self.clients@;
        match self.position(&who) {
            Some(i) => {
                assert(self.clients@.contains(who));
                assert(self@ =~= old(self)@.insert(who));
            },
            None => {
                self.clients.push(who);
                proof {
                    assert forall|a: SocketAddr|
                        self.clients@.contains(a) == (before.contains(a) || a == who) by {
                        assert(self.clients@[before.len() as int] == who);
                        if before.contains(a) {
                            let j = choose|j: int| 0 <= j < before.len() && before[j] == a;
                            assert(self.clients@[j] == a);
                        }
                    }
                    assert(self@ =~= old(self)@.insert(who));
                }
            },
        }
    }

    /// Takes a client off the waiting list.
    pub fn remove(&mut self, who: &SocketAddr)
        requires
            old(self).wf(),
        ensures
            final(self).wf(),
            final(self)@ == old(self)@.remove(*who),
    {
        let ghost before = self.clients@;
        match self.position(who) {
            Some(i) => {
                let _ = self.clients.remove(i);
                proof {
                    let k = i as int;
                    assert forall|a: SocketAddr|
                        self.clients@.contains(a) == (before.contains(a) && a != *who) by {
                        if self.clients@.contains(a) {
                            let j = choose|j: int|
                                0 <= j < self.clients@.len() && self.clients@[j] == a;
                            let j2 = if j < k { j } else { j + 1 };
                            assert(before[j2] == a);
                        }
                        if before.contains(a) && a != *who {
                            let j2 = choose|j: int| 0 <= j < before.len() && before[j] == a;
                            let j = if j2 < k { j2 } else { j2 - 1 };
                            assert(self.clients@[j] == a);
                        }
                    }
                    assert(self@ =~= old(self)@.remove(*who));
                }
            },
            None => {
                assert(self@ =~= old(self)@.remove(*who));
            },
        }
    }

    /// The clients that wait now, each once.
    pub fn snapshot(&self) -> (clients: Vec<SocketAddr>)
        requires
            self.wf(),
        ensures
            clients@.no_duplicates(),
            clients@.to_set() == self@,
    {
        let mut clients: Vec<SocketAddr> = Vec::new();
        let mut i: usize = 0;
        while i < self.clients.len()
            invariant
                i <= self.clients@.len(),
                clients@ == self.clients@.take(i as int),
            decreases self.clients@.len() - i,
        {
            clients.push(self.clients[i]);
            i += 1;
            assert(clients@ =~= self.clients@.take(i as int));
        }
        assert(clients@ =~= self.clients@);
        clients
    }
}

} // verus!
