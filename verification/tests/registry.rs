use ore_pool::handler::handle_ready;
use ore_pool::registry::{ping_payload, AppState, ReadyClients};
use ore_pool::wire::SocketAddr;

fn client(port: u16) -> SocketAddr {
    SocketAddr::V4 { ip: 1, port }
}

#[test]
fn second_connection_of_an_address_is_refused() {
    let mut state: AppState<&str> = AppState::new();
    assert!(state.register(client(1), "first"));
    assert!(!state.register(client(1), "second"));
    assert_eq!(state.get(&client(1)), Some(&"first"));
    assert_eq!(state.len(), 1);
}

#[test]
fn addresses_differ_in_every_part() {
    let mut state: AppState<u32> = AppState::new();
    let parts = [
        SocketAddr::V4 { ip: 1, port: 1 },
        SocketAddr::V4 { ip: 1, port: 2 },
        SocketAddr::V4 { ip: 2, port: 1 },
        SocketAddr::V6 { ip: 1, port: 1, flowinfo: 0, scope_id: 0 },
        SocketAddr::V6 { ip: 1, port: 1, flowinfo: 1, scope_id: 0 },
        SocketAddr::V6 { ip: 1, port: 1, flowinfo: 0, scope_id: 1 },
    ];
    for (i, addr) in parts.iter().enumerate() {
        assert!(state.register(*addr, i as u32));
    }
    for (i, addr) in parts.iter().enumerate() {
        assert_eq!(state.get(addr), Some(&(i as u32)));
        assert_eq!(*state.entry(i), (*addr, i as u32));
    }
}

#[test]
fn failed_pings_remove_sockets() {
    let mut state: AppState<u16> = AppState::new();
    for port in 0..5 {
        state.register(client(port), port);
    }
    let pings = vec![
        (client(0), true),
        (client(1), false),
        (client(4), false),
        (client(9), false),
        (client(1), false),
    ];
    state.settle_pings(&pings);
    assert_eq!(state.len(), 3);
    assert_eq!(state.get(&client(0)), Some(&0));
    assert_eq!(state.get(&client(1)), None);
    assert_eq!(state.get(&client(2)), Some(&2));
    assert_eq!(state.get(&client(3)), Some(&3));
    assert_eq!(state.get(&client(4)), None);
    state.remove(&client(2));
    assert_eq!(state.get(&client(2)), None);
    assert_eq!(state.len(), 2);
}

#[test]
fn pings_carry_three_bytes() {
    assert_eq!(ping_payload(), vec![1, 2, 3]);
}

#[test]
fn waiting_list_is_a_set() {
    let mut ready = ReadyClients::new();
    assert!(ready.snapshot().is_empty());
    ready.insert(client(1));
    ready.insert(client(2));
    ready.insert(client(1));
    assert_eq!(ready.snapshot().len(), 2);
    ready.remove(&client(1));
    ready.remove(&client(7));
    assert_eq!(ready.snapshot(), vec![client(2)]);
}

#[test]
fn only_connected_clients_wait() {
    let mut state: AppState<()> = AppState::new();
    let mut ready = ReadyClients::new();
    assert_eq!(handle_ready(client(1), &state, &mut ready), None);
    assert!(ready.snapshot().is_empty());
    state.register(client(1), ());
    assert_eq!(
        handle_ready(client(1), &state, &mut ready),
        Some("Client successfully added.".to_string())
    );
    assert_eq!(ready.snapshot(), vec![client(1)]);
}
