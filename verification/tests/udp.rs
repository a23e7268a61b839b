use rfrp::addr::{PeerAddr, PeerIp};
use rfrp::limits::Limits;
use rfrp::rfrps::metrics::Metrics;
use rfrp::rfrps::packet::{alloc_udp_packet, recycle_packets};
use rfrp::rfrps::state::ServerState;
use rfrp::rfrps::udp::{
    count_down, end_work_conn, handle_datagram, handle_udp_work_conn, note_queueing, recycle,
    remove_pending, sweep, touch_session, DatagramAction, PendingUdp, Queueing, UdpProxy,
    UdpSession,
};

const MS: u128 = 1_000_000;
const SEC: u128 = 1_000_000_000;

fn limits() -> Limits {
    Limits {
        max_run_id_len: 64,
        max_token_len: 256,
        max_proxy_name_len: 64,
        max_custom_domains: 16,
        max_domain_len: 253,
        max_proxies_per_session: 8,
        max_pooled_work_conns: 8,
        max_pending_udp_sessions: 2,
        max_active_connections: 2,
        login_failure_limit: 5,
        login_failure_window: 60,
        work_conn_timeout: 10,
    }
}

fn peer(port: u16) -> PeerAddr {
    PeerAddr { ip: PeerIp::V4(0x7f00_0001), port }
}

fn name() -> String {
    "udp-x".to_string()
}

fn setup() -> ServerState {
    let mut state = ServerState::new(limits());
    state.udp.insert(name(), UdpProxy::new(1, 60 * SEC, 60 * SEC));
    state
}

#[test]
fn sweep_removes_expired_session_and_pending() {
    let mut proxy = UdpProxy::new(1, 50 * MS, 50 * MS);
    let now = 5 * SEC;
    let old = now - SEC;
    proxy.sessions.insert(peer(1), UdpSession { work_id: 10, last_active: old });
    proxy.pending_by_id.insert(1, PendingUdp { client: peer(2), created: old });
    proxy.pending_client.insert(peer(2), 1);
    proxy.sessions.insert(peer(3), UdpSession { work_id: 11, last_active: now });

    let (silent, late) = proxy.sweep(now);

    assert!(!proxy.sessions.contains_key(&peer(1)));
    assert!(proxy.sessions.contains_key(&peer(3)));
    assert_eq!(proxy.pending_by_id.len(), 0);
    assert_eq!(proxy.pending_client.len(), 0);
    assert_eq!(silent.len(), 1);
    assert_eq!(silent[0].1.work_id, 10);
    assert_eq!(late.len(), 1);
    assert_eq!(late[0].0, 1);
}

#[test]
fn datagram_forwarded_to_paired_session() {
    let mut state = setup();
    let mut proxy = UdpProxy::new(1, 60 * SEC, 60 * SEC);
    proxy.sessions.insert(peer(1001), UdpSession { work_id: 4, last_active: 0 });
    state.udp.insert(name(), proxy);
    match handle_datagram(&mut state, &name(), 1, peer(1001), b"hello", 7) {
        DatagramAction::Forward { work_id, packet } => {
            assert_eq!(work_id, 4);
            assert_eq!(&packet[..], b"hello");
        }
        _ => panic!("expected to forward"),
    }
    let u = state.udp.get(&name()).unwrap();
    assert_eq!(u.sessions.get(&peer(1001)).unwrap().last_active, 7);
    assert_eq!(u.pending_by_id.len(), 0);
    assert_eq!(state.metrics.bytes_up, 5);
    assert_eq!(state.work_id, 0);
}

#[test]
fn datagram_delivered_to_pending_session() {
    let mut state = setup();
    for _ in 0..5 {
        state.next_work_id();
    }
    let mut proxy = UdpProxy::new(1, 60 * SEC, 60 * SEC);
    proxy.pending_by_id.insert(5, PendingUdp { client: peer(1002), created: 0 });
    proxy.pending_client.insert(peer(1002), 5);
    state.udp.insert(name(), proxy);
    match handle_datagram(&mut state, &name(), 1, peer(1002), b"again", 7) {
        DatagramAction::Enqueue { work_id, packet } => {
            assert_eq!(work_id, 5);
            assert_eq!(packet.as_ref(), b"again");
        }
        _ => panic!("expected to queue"),
    }
    assert_eq!(state.metrics.bytes_up, 5);
}

#[test]
fn datagrams_that_no_queue_takes_are_dropped_and_counted() {
    let mut state = setup();
    for _ in 0..5 {
        state.next_work_id();
    }
    let mut proxy = UdpProxy::new(1, 60 * SEC, 60 * SEC);
    proxy.pending_by_id.insert(5, PendingUdp { client: peer(1002), created: 0 });
    proxy.pending_client.insert(peer(1002), 5);
    proxy.sessions.insert(peer(1001), UdpSession { work_id: 4, last_active: 0 });
    state.udp.insert(name(), proxy);
    // For a user that waits, only what the queue took counts in bytes.
    let waiting = [(Queueing::Taken, 5, 0), (Queueing::Refused, 5, 1), (Queueing::Missing, 5, 1)];
    for (outcome, bytes, dropped) in waiting {
        handle_datagram(&mut state, &name(), 1, peer(1002), b"again", 7);
        note_queueing(&mut state.metrics, true, outcome, 5);
        assert_eq!((state.metrics.bytes_up, state.metrics.udp_dropped_total), (bytes, dropped));
    }
    // For a paired user all counts.
    let paired = [(Queueing::Taken, 8, 1), (Queueing::Refused, 11, 2), (Queueing::Missing, 14, 3)];
    for (outcome, bytes, dropped) in paired {
        handle_datagram(&mut state, &name(), 1, peer(1001), b"abc", 7);
        note_queueing(&mut state.metrics, false, outcome, 3);
        assert_eq!((state.metrics.bytes_up, state.metrics.udp_dropped_total), (bytes, dropped));
    }
    assert_eq!(state.metrics.bytes_down, 0);
}

#[test]
fn first_datagram_creates_pending_and_requests_work_conn() {
    let mut state = setup();
    match handle_datagram(&mut state, &name(), 1, peer(1003), b"first", 7) {
        DatagramAction::Request { work_id, packet } => {
            assert_eq!(work_id, 1);
            assert_eq!(packet.as_ref(), b"first");
        }
        _ => panic!("expected a request"),
    }
    let u = state.udp.get(&name()).unwrap();
    assert_eq!(u.pending_client.get(&peer(1003)), Some(&1));
    assert_eq!(u.pending_by_id.get(&1).unwrap().client, peer(1003));
    assert_eq!(state.metrics.bytes_up, 5);
}

#[test]
fn new_users_beyond_the_limit_are_dropped() {
    let mut state = setup();
    for port in 1..=2 {
        assert!(matches!(
            handle_datagram(&mut state, &name(), 1, peer(port), b"x", 0),
            DatagramAction::Request { .. }
        ));
    }
    assert!(matches!(
        handle_datagram(&mut state, &name(), 1, peer(3), b"x", 0),
        DatagramAction::Dropped
    ));
    assert_eq!(state.metrics.udp_dropped_total, 1);
    // Giving up on one makes room.
    remove_pending(&mut state, &name(), 1, 1);
    assert!(matches!(
        handle_datagram(&mut state, &name(), 1, peer(3), b"x", 0),
        DatagramAction::Request { work_id: 3, .. }
    ));
}

#[test]
fn a_newer_request_of_an_address_is_kept() {
    let mut proxy = UdpProxy::new(1, SEC, SEC);
    proxy.pending_by_id.insert(1, PendingUdp { client: peer(9), created: 0 });
    proxy.pending_by_id.insert(2, PendingUdp { client: peer(9), created: 0 });
    proxy.pending_client.insert(peer(9), 2);
    assert!(proxy.remove_pending(1).is_some());
    assert_eq!(proxy.pending_client.get(&peer(9)), Some(&2));
    assert!(proxy.remove_pending(1).is_none());
    assert!(proxy.remove_pending(2).is_some());
    assert_eq!(proxy.pending_client.len(), 0);
}

#[test]
fn a_work_connection_pairs_the_waiting_user() {
    let mut state = setup();
    handle_datagram(&mut state, &name(), 1, peer(5), b"x", 0);
    assert_eq!(handle_udp_work_conn(&mut state, &name(), 9, 1), None);
    assert_eq!(handle_udp_work_conn(&mut state, &name(), 1, 1), Some((1, peer(5))));
    let u = state.udp.get(&name()).unwrap();
    assert_eq!(u.pending_by_id.len(), 0);
    assert_eq!(u.sessions.get(&peer(5)).unwrap().work_id, 1);
    assert!(matches!(
        handle_datagram(&mut state, &name(), 1, peer(5), b"y", 2),
        DatagramAction::Forward { work_id: 1, .. }
    ));
    // Activity keeps the user; silence does not.
    touch_session(&mut state, &name(), 1, peer(5), 30 * SEC);
    assert_eq!(sweep(&mut state, &name(), 1, 89 * SEC), Vec::<u64>::new());
    assert_eq!(sweep(&mut state, &name(), 1, 90 * SEC), vec![1]);
    assert_eq!(state.udp.get(&name()).unwrap().sessions.len(), 0);
}

#[test]
fn buffers_go_back_to_their_proxy() {
    let mut state = setup();
    let mut batch = Vec::new();
    for port in 1..=2 {
        if let DatagramAction::Request { packet, .. } =
            handle_datagram(&mut state, &name(), 1, peer(port), b"x", 0)
        {
            batch.push(packet);
        }
    }
    recycle(&mut state, &name(), 1, &mut batch);
    assert!(batch.is_empty());
    assert_eq!(state.udp.get(&name()).unwrap().packet_pool.len(), 2);
    handle_datagram(&mut state, &name(), 1, peer(1), b"y", 0);
    assert_eq!(state.udp.get(&name()).unwrap().packet_pool.len(), 1);
}

#[test]
fn an_ended_work_connection_leaves_no_user() {
    let mut state = setup();
    handle_datagram(&mut state, &name(), 1, peer(5), b"x", 0);
    handle_udp_work_conn(&mut state, &name(), 1, 1);
    // One of an earlier proxy of the same name does not count.
    end_work_conn(&mut state, &name(), 99, peer(5));
    assert_eq!(state.udp.get(&name()).unwrap().sessions.len(), 1);
    end_work_conn(&mut state, &name(), 1, peer(5));
    assert_eq!(state.udp.get(&name()).unwrap().sessions.len(), 0);
}

#[test]
fn datagrams_for_a_proxy_that_is_gone_are_let_go() {
    let mut state = setup();
    assert!(matches!(
        handle_datagram(&mut state, &name(), 2, peer(1), b"x", 0),
        DatagramAction::Ignored
    ));
    assert!(matches!(
        handle_datagram(&mut state, &"other".to_string(), 1, peer(1), b"x", 0),
        DatagramAction::Ignored
    ));
    assert_eq!(state.work_id, 0);
}

#[test]
fn packet_buffers_are_used_again() {
    let mut pool = Vec::new();
    let a = alloc_udp_packet(&mut pool, b"a longer datagram");
    let b = alloc_udp_packet(&mut pool, b"");
    assert_eq!(a.as_ref(), b"a longer datagram");
    assert!(b.is_empty());
    let mut batch = vec![a, b];
    recycle_packets(&mut pool, &mut batch);
    assert!(batch.is_empty());
    assert_eq!(pool.len(), 2);
    // What a buffer held before does not show.
    let c = alloc_udp_packet(&mut pool, b"c");
    let d = alloc_udp_packet(&mut pool, b"dd");
    assert_eq!(c.as_ref(), b"c");
    assert_eq!(d.as_ref(), b"dd");
    assert_eq!(pool.len(), 0);
}

#[test]
fn the_pool_of_buffers_is_bounded() {
    let mut pool = Vec::new();
    let mut batch = Vec::new();
    for i in 0..300u32 {
        let mut none = Vec::new();
        batch.push(alloc_udp_packet(&mut none, &i.to_be_bytes()));
    }
    recycle_packets(&mut pool, &mut batch);
    assert!(batch.is_empty());
    assert_eq!(pool.len(), 256);
}

#[test]
fn bytes_to_users_are_counted() {
    let mut m = Metrics::new();
    count_down(&mut m, &vec![vec![0; 3], vec![], vec![0; 4]]);
    assert_eq!(m.bytes_down, 7);
    assert_eq!(m.bytes_up, 0);
}
