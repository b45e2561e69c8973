use ore_pool::dispatch::{
    assign_work, encode_assignment, mining_cutoff, next_nonce_range, serve_client,
    NonceRange, NONCE_SPAN,
};
use ore_pool::registry::{AppState, ReadyClients};
use ore_pool::wire::SocketAddr;

#[test]
fn cutoff_decides_on_mining() {
    assert_eq!(mining_cutoff(7, false), Some(7));
    assert_eq!(mining_cutoff(7, true), Some(7));
    assert_eq!(mining_cutoff(0, false), Some(0));
    assert_eq!(mining_cutoff(-3, false), Some(0));
    assert_eq!(mining_cutoff(0, true), None);
    assert_eq!(mining_cutoff(-3, true), None);
}

#[test]
fn nonce_ranges_follow_each_other() {
    let mut nonce = 5;
    let a = next_nonce_range(&mut nonce);
    let b = next_nonce_range(&mut nonce);
    assert_eq!(a, NonceRange { start: 5, end: 2_000_005 });
    assert_eq!(b, NonceRange { start: 2_000_005, end: 4_000_005 });
    assert_eq!(nonce, 4_000_005);
    assert_eq!(NONCE_SPAN, 2_000_000);
}

#[test]
fn assignment_has_the_layout_that_clients_read() {
    let mut challenge = [0u8; 32];
    for i in 0..32 {
        challenge[i] = i as u8 + 1;
    }
    for cutoff in [0i64, 1, 55, 0x0102_0304_0506_0708, i64::MAX, -1, i64::MIN] {
        let range = NonceRange { start: 0x1122_3344_5566_7788, end: u64::MAX - 1 };
        let data = encode_assignment(&challenge, cutoff, range);
        let mut expected = [0u8; 57];
        expected[0..1].copy_from_slice(&0u8.to_le_bytes());
        expected[1..33].copy_from_slice(&challenge);
        expected[33..41].copy_from_slice(&cutoff.to_le_bytes());
        expected[41..49].copy_from_slice(&range.start.to_le_bytes());
        expected[49..57].copy_from_slice(&range.end.to_le_bytes());
        assert_eq!(data, expected.to_vec());
    }
}

#[test]
fn nonces_are_spent_on_absent_clients_too() {
    let here = SocketAddr::V4 { ip: 1, port: 1 };
    let gone = SocketAddr::V4 { ip: 1, port: 2 };
    let mut state: AppState<()> = AppState::new();
    state.register(here, ());
    let mut nonce = 0;
    assert_eq!(assign_work(&gone, &state, &mut nonce, &[9; 32], 3), None);
    assert_eq!(nonce, 2_000_000);
    let work = assign_work(&here, &state, &mut nonce, &[9; 32], 3);
    let range = NonceRange { start: 2_000_000, end: 4_000_000 };
    assert_eq!(work, Some(encode_assignment(&[9; 32], 3, range)));
    assert_eq!(nonce, 4_000_000);
}

#[test]
fn served_clients_leave_the_waiting_list() {
    let here = SocketAddr::V4 { ip: 1, port: 1 };
    let gone = SocketAddr::V4 { ip: 1, port: 2 };
    let mut state: AppState<()> = AppState::new();
    state.register(here, ());
    let mut ready = ReadyClients::new();
    ready.insert(here);
    ready.insert(gone);
    let mut nonce = 0;
    assert_eq!(serve_client(&gone, &state, &mut nonce, &[9; 32], 3, &mut ready), None);
    assert_eq!(ready.snapshot().len(), 2);
    let range = NonceRange { start: 2_000_000, end: 4_000_000 };
    assert_eq!(
        serve_client(&here, &state, &mut nonce, &[9; 32], 3, &mut ready),
        Some(encode_assignment(&[9; 32], 3, range))
    );
    assert_eq!(ready.snapshot(), vec![gone]);
    assert_eq!(nonce, 4_000_000);
}
