//! What clients send and what becomes of it.
use std::ops::ControlFlow;
use vstd::prelude::*;

verus! {

/// The address of a client's socket.
#[derive(Clone, Copy, Debug, PartialEq, Eq, Structural)]
pub enum SocketAddr {
    V4 { ip: u32, port: u16 },
    V6 { ip: u128, port: u16, flowinfo: u32, scope_id: u32 },
}

/// A proof of work: an equihash digest and the nonce that it was found with.
#[derive(Clone, Copy, Debug, PartialEq, Eq)]
pub struct Solution {
    pub d: [u8; 16],
    pub n: [u8; 8],
}

/// The reason that a peer gives for closing.
#[derive(Clone, Debug, PartialEq, Eq)]
pub struct CloseFrame {
    pub code: u16,
    pub reason: String,
}

/// A websocket message.
#[derive(Clone, Debug, PartialEq, Eq)]
pub enum Message {
    Text(String),
    Binary(Vec<u8>),
    Ping(Vec<u8>),
    Pong(Vec<u8>),
    Close(Option<CloseFrame>),
}

/// What a client tells the pool.
#[derive(Clone, Copy, Debug, PartialEq, Eq)]
pub enum ClientMessage {
    Ready(SocketAddr),
    Mining(SocketAddr),
    BestSolution(SocketAddr, Solution),
}

/// What the log has to say about a message.
#[derive(Clone, Debug, PartialEq, Eq)]
pub enum Notice {
    Nothing,
    Text(String),
    Invalid,
    Closed(Option<CloseFrame>),
}

/// The outcome of one websocket message.
#[derive(Debug)]
pub struct Reaction {
    /// What to log.
    pub notice: Notice,
    /// What to hand on to the pool.
    pub forward: Option<ClientMessage>,
    /// Whether to go on listening.
    pub flow: ControlFlow<(), ()>,
}

/// The byte that opens the message of a client that is ready for work.
pub const READY: u8 = 0;

/// The byte that opens the message of a client that has begun to work.
pub const MINING: u8 = 1;

/// The byte that opens a message with a solution.
pub const BEST_SOLUTION: u8 = 2;

/// The bytes of a message that carries a solution.
pub open spec fn solution_message(solution: Solution) -> Seq<u8> {
    seq![BEST_SOLUTION] + solution.d@ + solution.n@
}

/// A binary message needs its opening byte, and one that announces a solution needs the sixteen
/// bytes of the digest and the eight of the nonce.
pub open spec fn complete(msg: Message) -> bool {
    msg matches Message::Binary(data) ==> {
        &&& data@.len() >= 1
        &&& data@[0] == BEST_SOLUTION ==> data@.len() >= 25
    }
}

/// What the pool is told when `who` sends the binary message `data`.
pub open spec fn announces(data: Seq<u8>, who: SocketAddr, forward: Option<ClientMessage>) -> bool {
    if data[0] == READY {
        forward == Some(ClientMessage::Ready(who))
    } else if data[0] == MINING {
        forward == Some(ClientMessage::Mining(who))
    } else if data[0] == BEST_SOLUTION {
        &&& forward matches Some(ClientMessage::BestSolution(from, solution))
        &&& from == who
        &&& solution.d@ == data.subrange(1, 17)
        &&& solution.n@ == data.subrange(17, 25)
    } else {
        forward is None
    }
}

/// Tells whether `process_message` can take the message.
pub fn is_complete(msg: &Message) -> (whole: bool)
    ensures
        whole == complete(*msg),
        !whole <==> (msg matches Message::Binary(data) && (data@.len() == 0 || (data@[0] == 2 && data@.len()
            < 25))),
{
    match msg {
        Message::Binary(data) => data.len() >= 1 && (data[0] != BEST_SOLUTION || data.len() >= 25),
        _ => true,
    }
}

/// Copies a digest and a nonce out of a message.
fn read_solution(data: &Vec<u8>) -> (solution: Solution)
    requires
        data@.len() >= 25,
    ensures
        solution.d@ == data@.subrange(1, 17),
        solution.n@ == data@.subrange(17, 25),
{
    let mut d: [u8; 16] = [0u8;16];
    let mut n: [u8; 8] = [0u8;8];
    let mut i: usize = 0;
    while i < 16
        invariant
            i <= 16,
            data@.len() >= 25,
            forall|j: int| 0 <= j < i ==> d@[j] == data@[j + 1],
        decreases 16 - i,
    {
        d[i] = data[i + 1];
        i += 1;
    }
    i = 0;
    while i < 8
        invariant
            i <= 8,
            data@.len() >= 25,
            forall|j: int| 0 <= j < i ==> n@[j] == data@[j + 17],
        decreases 8 - i,
    {
        n[i] = data[i + 17];
        i += 1;
    }
    assert(d@ =~= data@.subrange(1, 17));
    assert(n@ =~= data@.subrange(17, 25));
    Solution { d, n }
}

/// Decides what to do with a websocket message from `who`.
pub fn process_message(msg: Message, who: SocketAddr) -> (reaction: Reaction)
    requires
        complete(msg),
    ensures
        reaction.flow == (if msg is Close {
            ControlFlow::<(), ()>::Break(())
        } else {
            ControlFlow::<(), ()>::Continue(())
        }),
        match msg {
            Message::Binary(data) => {
                &&& announces(data@, who, reaction.forward)
                &&& reaction.notice == (if data@[0] > BEST_SOLUTION {
                    Notice::Invalid
                } else {
                    Notice::Nothing
                })
            },
            Message::Text(text) => reaction.forward is None && reaction.notice == Notice::Text(text),
            Message::Close(frame) => reaction.forward is None && reaction.notice == Notice::Closed(frame),
            _ => reaction.forward is None && reaction.notice == Notice::Nothing,
        },
        msg matches Message::Binary(data) ==> {
            &&& data@[0] == 0 <==> reaction.forward == Some(ClientMessage::Ready(who))
            &&& data@[0] == 1 <==> reaction.forward == Some(ClientMessage::Mining(who))
            &&& data@[0] == 2 <==> (reaction.forward matches Some(message) && message is BestSolution)
            &&& data@[0] > 2 <==> reaction.forward is None
            &&& data@[0] > 2 <==> reaction.notice == Notice::Invalid
        },
        reaction.forward matches Some(ClientMessage::BestSolution(from, solution)) ==> {
            &&& from == who
            &&& msg is Binary
            &&& forall|i: int| 0 <= i < 16 ==> #[trigger] solution.d@[i] == msg->Binary_0@[i + 1]
            &&& forall|i: int| 0 <= i < 8 ==> #[trigger] solution.n@[i] == msg->Binary_0@[i + 17]
        },
{
    let mut notice: Notice = Notice::Nothing;
    let mut forward: Option<ClientMessage> = None;
    let mut flow: ControlFlow<(), ()> = ControlFlow::Continue(());
    match msg {
        Message::Text(text) => {
            notice = Notice::Text(text);
        },
        Message::Binary(data) => {
            let message_type: u8 = data[0];
            if message_type == READY {
                forward = Some(ClientMessage::Ready(who));
            } else if message_type == MINING {
                forward = Some(ClientMessage::Mining(who));
            } else if message_type == BEST_SOLUTION {
                forward = Some(ClientMessage::BestSolution(who, read_solution(&data)));
            } else {
                notice = Notice::Invalid;
            }
        },
        Message::Close(frame) => {
            notice = Notice::Closed(frame);
            flow = ControlFlow::Break(());
        },
        Message::Pong(_) => {},
        Message::Ping(_) => {},
    }
    Reaction { notice, forward, flow }
}

/// A solution arrives at the pool as the client packed it, under the client's address, whatever
/// follows it in the message.
pub proof fn solution_survives_the_wire(solution: Solution, tail: Seq<u8>, data: Vec<u8>, who: SocketAddr, forward: Option<ClientMessage>)
    requires
        data@ == solution_message(solution) + tail,
        announces(data@, who, forward),
    ensures
        complete(Message::Binary(data)),
        forward == Some(ClientMessage::BestSolution(who, solution)),
{
    let read = forward->0->BestSolution_1;
    assert(data@.subrange(1, 17) =~= solution.d@);
    assert(data@.subrange(17, 25) =~= solution.n@);
    assert(read.d =~= solution.d) by {
        assert forall|i: int| 0 <= i < 16 implies read.d[i] == solution.d[i] by {
            assert(read.d@[i] == solution.d@[i]);
        }
    }
    assert(read.n =~= solution.n) by {
        assert forall|i: int| 0 <= i < 8 implies read.n[i] == solution.n[i] by {
            assert(read.n@[i] == solution.n@[i]);
        }
    }
}

/// A client speaks for no one else: whatever a binary message announces carries the address that
/// it came from.
pub proof fn messages_carry_their_sender(data: Seq<u8>, who: SocketAddr, forward: Option<ClientMessage>)
    requires
        announces(data, who, forward),
    ensures
        match forward {
            Some(ClientMessage::Ready(from)) => from == who,
            Some(ClientMessage::Mining(from)) => from == who,
            Some(ClientMessage::BestSolution(from, _)) => from == who,
            None => true,
        },
{
}

/// The opening byte decides what a binary message announces: zero that the client is ready, one that
/// it has begun to work, two a solution, whose digest and nonce follow byte by byte; any other byte
/// announces nothing.
pub proof fn opening_byte_decides(data: Seq<u8>, who: SocketAddr, forward: Option<ClientMessage>)
    requires
        data.len() > 0,
        data[0] == 2 ==> data.len() >= 25,
        announces(data, who, forward),
    ensures
        forward == Some(ClientMessage::Ready(who)) <==> data[0] == 0,
        forward == Some(ClientMessage::Mining(who)) <==> data[0] == 1,
        (forward matches Some(message) && message is BestSolution) <==> data[0] == 2,
        forward is None <==> data[0] > 2,
        forward matches Some(ClientMessage::BestSolution(from, solution)) ==> {
            &&& from == who
            &&& forall|i: int| 0 <= i < 16 ==> #[trigger] solution.d@[i] == data[i + 1]
            &&& forall|i: int| 0 <= i < 8 ==> #[trigger] solution.n@[i] == data[i + 17]
        },
{
}

/// A message falls short only where it is binary and empty, or opens with a two and has fewer than
/// the 25 bytes of a solution.
pub proof fn only_short_messages_are_incomplete(msg: Message)
    ensures
        !complete(msg) <==> (msg matches Message::Binary(data) && (data@.len() == 0 || (data@[0] == 2
            && data@.len() < 25))),
{
}

} // verus!
