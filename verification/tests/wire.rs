use ore_pool::wire::{
    is_complete, process_message, ClientMessage, CloseFrame, Message, Notice, SocketAddr, Solution,
};
use std::ops::ControlFlow;

const WHO: SocketAddr = SocketAddr::V4 { ip: 0x7f00_0001, port: 3000 };

fn solution() -> Solution {
    let mut d = [0u8; 16];
    let mut n = [0u8; 8];
    for i in 0..16 {
        d[i] = 100 + i as u8;
    }
    for i in 0..8 {
        n[i] = 200 + i as u8;
    }
    Solution { d, n }
}

fn packed(solution: &Solution) -> Vec<u8> {
    let mut data = vec![2];
    data.extend_from_slice(&solution.d);
    data.extend_from_slice(&solution.n);
    data
}

#[test]
fn ready_and_mining_are_forwarded() {
    let r = process_message(Message::Binary(vec![0]), WHO);
    assert_eq!(r.forward, Some(ClientMessage::Ready(WHO)));
    assert_eq!(r.notice, Notice::Nothing);
    assert_eq!(r.flow, ControlFlow::Continue(()));
    let r = process_message(Message::Binary(vec![1, 9, 9]), WHO);
    assert_eq!(r.forward, Some(ClientMessage::Mining(WHO)));
    assert_eq!(r.flow, ControlFlow::Continue(()));
}

#[test]
fn solution_is_read_from_its_bytes() {
    let r = process_message(Message::Binary(packed(&solution())), WHO);
    assert_eq!(r.forward, Some(ClientMessage::BestSolution(WHO, solution())));
    assert_eq!(r.notice, Notice::Nothing);
}

#[test]
fn bytes_after_a_solution_are_ignored() {
    let mut data = packed(&solution());
    data.extend_from_slice(&[1, 2, 3]);
    let r = process_message(Message::Binary(data), WHO);
    assert_eq!(r.forward, Some(ClientMessage::BestSolution(WHO, solution())));
}

#[test]
fn unknown_types_are_invalid() {
    for kind in 3..=255u8 {
        let r = process_message(Message::Binary(vec![kind]), WHO);
        assert_eq!(r.forward, None);
        assert_eq!(r.notice, Notice::Invalid);
        assert_eq!(r.flow, ControlFlow::Continue(()));
    }
}

#[test]
fn text_is_only_noted() {
    let r = process_message(Message::Text("hello".to_string()), WHO);
    assert_eq!(r.forward, None);
    assert_eq!(r.notice, Notice::Text("hello".to_string()));
    assert_eq!(r.flow, ControlFlow::Continue(()));
}

#[test]
fn only_close_ends_the_conversation() {
    let frame = CloseFrame { code: 1000, reason: "bye".to_string() };
    let r = process_message(Message::Close(Some(frame.clone())), WHO);
    assert_eq!(r.notice, Notice::Closed(Some(frame)));
    assert_eq!(r.flow, ControlFlow::Break(()));
    assert_eq!(r.forward, None);
    assert_eq!(process_message(Message::Close(None), WHO).flow, ControlFlow::Break(()));
    assert_eq!(process_message(Message::Ping(vec![1]), WHO).flow, ControlFlow::Continue(()));
    assert_eq!(process_message(Message::Pong(vec![]), WHO).flow, ControlFlow::Continue(()));
}

#[test]
fn completeness_of_messages() {
    assert!(!is_complete(&Message::Binary(vec![])));
    assert!(is_complete(&Message::Binary(vec![0])));
    assert!(is_complete(&Message::Binary(vec![77])));
    assert!(!is_complete(&Message::Binary(vec![2; 24])));
    assert!(is_complete(&Message::Binary(vec![2; 25])));
    assert!(is_complete(&Message::Text(String::new())));
    assert!(is_complete(&Message::Ping(vec![])));
}
