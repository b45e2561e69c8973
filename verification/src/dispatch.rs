//! Handing out work.
//!
//! Every client that waits gets a stretch of nonces of its own, the challenge to try them on and
//! the seconds that are left for it.
use vstd::arithmetic::power::pow;
use vstd::prelude::*;
use crate::bytes::{bytes_are_digits, le_bytes, le_bytes_read_back, le_value, lemma_capacity_8, lemma_le_bytes_len, push_u64};
use crate::registry::{AppState, ReadyClients};
use crate::wire::SocketAddr;

verus! {

/// How many nonces a client gets to try.
pub const NONCE_SPAN: u64 = 2_000_000;

/// The nonces from `start` up to but without `end`.
#[derive(Clone, Copy, Debug, PartialEq, Eq, Structural)]
pub struct NonceRange {
    pub start: u64,
    pub end: u64,
}

/// Decides whether clients are to mine, and for how many seconds: as long as the cutoff has not
/// passed, until then; after it, without a limit, but only while there is no solution to submit.
pub fn mining_cutoff(cutoff: i64, has_solution: bool) -> (seconds: Option<i64>)
    ensures
        seconds == (if cutoff > 0 {
            Some(cutoff)
        } else if has_solution {
            None
        } else {
            Some(0i64)
        }),
{
    if cutoff <= 0 {
        if has_solution {
            None
        } else {
            Some(0)
        }
    } else {
        Some(cutoff)
    }
}

/// Takes the next stretch of nonces.
pub fn next_nonce_range(nonce: &mut u64) -> (range: NonceRange)
    requires
        *old(nonce) + NONCE_SPAN <= u64::MAX,
    ensures
        *final(nonce) == *old(nonce) + NONCE_SPAN,
        range == (NonceRange { start: *old(nonce), end: *final(nonce) }),
{
    let start: u64 = *nonce;
    *nonce = *nonce + NONCE_SPAN;
    let end: u64 = *nonce;
    NonceRange { start, end }
}

/// The stretches that were taken, one after the other, from a counter that began at `first`.
pub open spec fn handed_out(first: u64, ranges: Seq<NonceRange>) -> bool {
    forall|k: int|
        0 <= k < ranges.len() ==> {
            &&& (#[trigger] ranges[k]).start == (if k == 0 {
                first
            } else {
                ranges[k - 1].end
            })
            &&& ranges[k].end == ranges[k].start + NONCE_SPAN
        }
}

proof fn lemma_range_start(first: u64, ranges: Seq<NonceRange>, k: int)
    requires
        handed_out(first, ranges),
        0 <= k < ranges.len(),
    ensures
        ranges[k].start == first + k * NONCE_SPAN,
        ranges[k].end == first + (k + 1) * NONCE_SPAN,
    decreases k,
{
    if k > 0 {
        lemma_range_start(first, ranges, k - 1);
    }
}

/// Until the counter is set back no nonce is handed out twice.
pub proof fn nonce_ranges_do_not_overlap(first: u64, ranges: Seq<NonceRange>, i: int, j: int, nonce: u64)
    requires
        handed_out(first, ranges),
        0 <= i < ranges.len(),
        0 <= j < ranges.len(),
        ranges[i].start <= nonce < ranges[i].end,
        ranges[j].start <= nonce < ranges[j].end,
    ensures
        i == j,
{
    lemma_range_start(first, ranges, i);
    lemma_range_start(first, ranges, j);
}

/// Until the counter is set back no nonce is left out.
pub proof fn nonce_ranges_leave_no_gap(first: u64, ranges: Seq<NonceRange>, nonce: u64)
    requires
        handed_out(first, ranges),
        ranges.len() > 0,
        first <= nonce < ranges.last().end,
    ensures
        exists|i: int|
            0 <= i < ranges.len() && (#[trigger] ranges[i]).start <= nonce < ranges[i].end,
    decreases ranges.len(),
{
    let last = ranges.len() - 1;
    if nonce < ranges[last].start {
        let before = ranges.drop_last();
        assert forall|k: int| 0 <= k < before.len() implies #[trigger] before[k] == ranges[k] by {}
        assert(handed_out(first, before)) by {
            assert forall|k: int| 0 <= k < before.len() implies {
                &&& (#[trigger] before[k]).start == (if k == 0 {
                    first
                } else {
                    before[k - 1].end
                })
                &&& before[k].end == before[k].start + NONCE_SPAN
            } by {
                assert(ranges[k] == before[k]);
            }
        }
        nonce_ranges_leave_no_gap(first, before, nonce);
        let i = choose|i: int|
            0 <= i < before.len() && (#[trigger] before[i]).start <= nonce < before[i].end;
        assert(ranges[i] == before[i]);
    } else {
        assert(ranges[last].start <= nonce < ranges[last].end);
    }
}

/// The two's complement of a 64-bit number, read without a sign.
pub open spec fn unsigned(value: i64) -> nat {
    if value >= 0 {
        value as nat
    } else {
        (value + 0x1_0000_0000_0000_0000) as nat
    }
}

/// The message that hands out work: a zero byte, the challenge, the cutoff and the two ends of the
/// stretch of nonces.
pub open spec fn assignment(challenge: Seq<u8>, cutoff: i64, range: NonceRange) -> Seq<u8> {
    seq![0u8] + challenge + le_bytes(unsigned(cutoff), 8) + le_bytes(range.start as nat, 8)
        + le_bytes(range.end as nat, 8)
}

/// Writes the message that hands out work.
pub fn encode_assignment(challenge: &[u8; 32], cutoff: i64, range: NonceRange) -> (data: Vec<u8>)
    ensures
        data@ == assignment(challenge@, cutoff, range),
        data@.len() == 57,
{
    let mut data: Vec<u8> = Vec::new();
    data.push(0);
    let mut i: usize = 0;
    while i < 32
        invariant
            i <= 32,
            data@ == seq![0u8] + challenge@.take(i as int),
        decreases 32 - i,
    {
        data.push(challenge[i]);
        i += 1;
        assert(data@ =~= seq![0u8] + challenge@.take(i as int));
    }
    assert(challenge@.take(32) =~= challenge@);
    let bits: u64 = cutoff as u64;
    proof {
        assert(cutoff >= 0 ==> bits == cutoff) by (bit_vector)
            requires
                bits == cutoff as u64,
        ;
        assert(cutoff < 0 ==> bits == cutoff + 0x1_0000_0000_0000_0000) by (bit_vector)
            requires
                bits == cutoff as u64,
        ;
    }
    push_u64(&mut data, bits);
    push_u64(&mut data, range.start);
    push_u64(&mut data, range.end);
    proof {
        lemma_le_bytes_len(bits as nat, 8);
        lemma_le_bytes_len(range.start as nat, 8);
        lemma_le_bytes_len(range.end as nat, 8);
    }
    data
}

/// Takes a stretch of nonces for a client and writes the message that hands it out. A client that
/// is no longer connected gets no message; its stretch is spent all the same.
pub fn assign_work<S>(
    client: &SocketAddr,
    state: &AppState<S>,
    nonce: &mut u64,
    challenge: &[u8; 32],
    cutoff: i64,
) -> (work: Option<Vec<u8>>)
    requires
        state.wf(),
        *old(nonce) + NONCE_SPAN <= u64::MAX,
    ensures
        *final(nonce) == *old(nonce) + NONCE_SPAN,
        match work {
            Some(data) => {
                &&& state@.dom().contains(*client)
                &&& data@ == assignment(
                    challenge@,
                    cutoff,
                    (NonceRange { start: *old(nonce), end: *final(nonce) }),
                )
            },
            None => !state@.dom().contains(*client),
        },
{
    let range = next_nonce_range(nonce);
    match state.get(client) {
        Some(_) => Some(encode_assignment(challenge, cutoff, range)),
        None => None,
    }
}

/// Serves a client of the waiting list: takes a stretch of nonces for it, writes the message that
/// hands it out, and takes the client off the list. A client that is no longer connected gets no
/// message and stays on the list.
pub fn serve_client<S>(
    client: &SocketAddr,
    state: &AppState<S>,
    nonce: &mut u64,
    challenge: &[u8; 32],
    cutoff: i64,
    ready: &mut ReadyClients,
) -> (work: Option<Vec<u8>>)
    requires
        state.wf(),
        old(ready).wf(),
        *old(nonce) + NONCE_SPAN <= u64::MAX,
    ensures
        final(ready).wf(),
        *final(nonce) == *old(nonce) + NONCE_SPAN,
        match work {
            Some(data) => {
                &&& state@.dom().contains(*client)
                &&& data@ == assignment(
                    challenge@,
                    cutoff,
                    (NonceRange { start: *old(nonce), end: *final(nonce) }),
                )
                &&& final(ready)@ == old(ready)@.remove(*client)
            },
            None => !state@.dom().contains(*client) && *final(ready) == *old(ready),
        },
{
    let work = assign_work(client, state, nonce, challenge, cutoff);
    if work.is_some() {
        ready.remove(client);
    }
    work
}

/// A client finds in the message what the pool put there.
pub proof fn assignment_can_be_read_back(challenge: Seq<u8>, cutoff: i64, range: NonceRange)
    requires
        challenge.len() == 32,
    ensures
        assignment(challenge, cutoff, range).len() == 57,
        assignment(challenge, cutoff, range)[0] == 0,
        assignment(challenge, cutoff, range).subrange(1, 33) == challenge,
        le_value(assignment(challenge, cutoff, range).subrange(33, 41)) == unsigned(cutoff),
        le_value(assignment(challenge, cutoff, range).subrange(41, 49)) == range.start,
        le_value(assignment(challenge, cutoff, range).subrange(49, 57)) == range.end,
{
    let a = assignment(challenge, cutoff, range);
    lemma_capacity_8();
    lemma_le_bytes_len(unsigned(cutoff), 8);
    lemma_le_bytes_len(range.start as nat, 8);
    lemma_le_bytes_len(range.end as nat, 8);
    le_bytes_read_back(unsigned(cutoff), 8);
    le_bytes_read_back(range.start as nat, 8);
    le_bytes_read_back(range.end as nat, 8);
    assert(a.subrange(1, 33) =~= challenge);
    assert(a.subrange(33, 41) =~= le_bytes(unsigned(cutoff), 8));
    assert(a.subrange(41, 49) =~= le_bytes(range.start as nat, 8));
    assert(a.subrange(49, 57) =~= le_bytes(range.end as nat, 8));
}

/// The message that hands out work is made of 57 bytes: a zero, the challenge, and three numbers of
/// eight bytes, whose byte `i` is the digit of 256 to the power of `i`: the cutoff, which is counted
/// from 2^64 downwards where it is negative, and the first nonce of the stretch and the one after it.
pub proof fn assignment_is_laid_out_byte_by_byte(challenge: Seq<u8>, cutoff: i64, range: NonceRange, i: nat)
    requires
        challenge.len() == 32,
        i < 8,
    ensures
        assignment(challenge, cutoff, range).len() == 57,
        assignment(challenge, cutoff, range)[0] == 0,
        assignment(challenge, cutoff, range).subrange(1, 33) == challenge,
        cutoff >= 0 ==> assignment(challenge, cutoff, range)[33 + i as int] == (cutoff as int / pow(256, i)) % 256,
        cutoff < 0 ==> assignment(challenge, cutoff, range)[33 + i as int] == ((cutoff
            + 0x1_0000_0000_0000_0000) / pow(256, i)) % 256,
        assignment(challenge, cutoff, range)[41 + i as int] == (range.start as int / pow(256, i)) % 256,
        assignment(challenge, cutoff, range)[49 + i as int] == (range.end as int / pow(256, i)) % 256,
{
    assignment_can_be_read_back(challenge, cutoff, range);
    let a = assignment(challenge, cutoff, range);
    bytes_are_digits(unsigned(cutoff), 8, i);
    bytes_are_digits(range.start as nat, 8, i);
    bytes_are_digits(range.end as nat, 8, i);
    lemma_le_bytes_len(unsigned(cutoff), 8);
    lemma_le_bytes_len(range.start as nat, 8);
    assert(a[33 + i as int] == le_bytes(unsigned(cutoff), 8)[i as int]);
    assert(a[41 + i as int] == le_bytes(range.start as nat, 8)[i as int]);
    assert(a[49 + i as int] == le_bytes(range.end as nat, 8)[i as int]);
}

/// The number that stands for a cutoff is the cutoff itself, or lies 2^64 above it where it is
/// negative.
pub proof fn cutoff_keeps_its_value(cutoff: i64)
    ensures
        cutoff >= 0 ==> unsigned(cutoff) == cutoff,
        cutoff < 0 ==> unsigned(cutoff) == cutoff + 0x1_0000_0000_0000_0000,
{
}

/// Stretches that were handed out follow each other: the first begins where the counter stood, each
/// of the others where the one before it ends, and each holds two million nonces.
pub proof fn stretches_follow_each_other(first: u64, ranges: Seq<NonceRange>, k: int)
    requires
        handed_out(first, ranges),
        0 <= k < ranges.len(),
    ensures
        ranges[k].start == first + k * 2_000_000,
        ranges[k].end == ranges[k].start + 2_000_000,
{
    lemma_range_start(first, ranges, k);
}

} // verus!
