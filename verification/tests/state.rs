use rfrp::addr::PeerIp;
use rfrp::limits::{Limits, WORK_ID_POOL_RESERVED};
use rfrp::msg::ProxyType;
use rfrp::rfrps::dashboard::health_response;
use rfrp::rfrps::metrics::{render_prometheus, render_prometheus_at, Metrics};
use rfrp::rfrps::session::{ProxyEntry, Session};
use rfrp::rfrps::state::{Gauges, PendingWork, ServerState};

const LOGIN_FAILURE_LIMIT: u32 = 5;

fn limits() -> Limits {
    Limits {
        max_run_id_len: 64,
        max_token_len: 256,
        max_proxy_name_len: 64,
        max_custom_domains: 16,
        max_domain_len: 253,
        max_proxies_per_session: 128,
        max_pooled_work_conns: 8,
        max_pending_udp_sessions: 64,
        max_active_connections: 1000,
        login_failure_limit: LOGIN_FAILURE_LIMIT,
        login_failure_window: 60,
        work_conn_timeout: 10,
    }
}

fn test_session(run_id: &str) -> Session {
    Session::new(run_id.into(), "sid".into(), PeerIp::V4(0x7f00_0001), "tok".into())
}

fn register(state: &mut ServerState, run_id: &str) -> u64 {
    let key = state.add_session(test_session(run_id));
    state.sessions.insert(run_id.into(), key);
    key
}

#[test]
fn next_work_id_starts_at_one_and_increments() {
    let mut state = ServerState::new(limits());
    assert_eq!(state.next_work_id(), 1);
    assert_eq!(state.next_work_id(), 2);
    assert_eq!(state.next_work_id(), 3);
    assert_ne!(state.work_id, WORK_ID_POOL_RESERVED);
}

#[test]
fn login_rate_limit_blocks_after_failures() {
    let mut state = ServerState::new(limits());
    let ip = PeerIp::V4(0xcb00_7107);
    assert!(state.login_allowed(ip));
    for _ in 0..LOGIN_FAILURE_LIMIT {
        assert!(state.login_allowed(ip), "still under the limit");
        state.record_login_failure(ip);
    }
    assert!(!state.login_allowed(ip), "must block after limit reached");
    state.clear_login_failures(ip);
    assert!(state.login_allowed(ip));
    assert!(state.login_allowed(PeerIp::V4(0xcb00_7108)));
}

#[test]
fn login_block_ends_with_the_window() {
    let mut state = ServerState::new(limits());
    let ip = PeerIp::V6(1);
    let second: u128 = 1_000_000_000;
    for i in 0..LOGIN_FAILURE_LIMIT {
        state.record_login_failure_at(ip, i as u128 * second);
    }
    assert_eq!(state.failures_of(ip), LOGIN_FAILURE_LIMIT);
    assert!(!state.login_allowed_at(ip, 60 * second - 1));
    assert!(state.login_allowed_at(ip, 60 * second));
    // The question has dropped the record.
    assert_eq!(state.failures_of(ip), 0);
    // A failure past the window starts a new one.
    state.record_login_failure_at(ip, 100 * second);
    state.record_login_failure_at(ip, 161 * second);
    assert_eq!(state.failures_of(ip), 1);
}

#[test]
fn login_limit_holds_for_each_address_alone() {
    let mut state = ServerState::new(limits());
    let (a, b) = (PeerIp::V4(1), PeerIp::V6(1));
    for i in 0..LOGIN_FAILURE_LIMIT as u128 {
        assert!(state.login_allowed_at(a, 3 * i));
        state.record_login_failure_at(a, 3 * i);
        assert!(state.login_allowed_at(b, 3 * i + 1));
        state.record_login_failure_at(b, 3 * i + 1);
        state.clear_login_failures(b);
    }
    assert!(!state.login_allowed_at(a, 100));
    assert!(state.login_allowed_at(b, 100));
}

#[test]
fn session_keys_are_given_out_again_at_the_end() {
    let mut state = ServerState::new(limits());
    assert_eq!(register(&mut state, "a"), 1);
    state.last_session = u64::MAX;
    assert_eq!(register(&mut state, "b"), 0);
    assert_eq!(register(&mut state, "c"), 2);
    assert_eq!(state.last_session, u64::MAX);
    assert_eq!(state.live.len(), 3);
}

#[test]
fn login_failures_are_cleared_when_too_many() {
    let mut state = ServerState::new(limits());
    let second: u128 = 1_000_000_000;
    for i in 0..4096u32 {
        state.record_login_failure_at(PeerIp::V4(i), 0);
    }
    assert_eq!(state.login_failures.len(), 4096);
    state.record_login_failure_at(PeerIp::V4(4096), 61 * second);
    assert_eq!(state.login_failures.len(), 1);
    assert_eq!(state.failures_of(PeerIp::V4(4096)), 1);
}

#[test]
fn proxy_index_roundtrip() {
    let mut state = ServerState::new(limits());
    let key = register(&mut state, "r1");

    assert!(state.session_for_proxy("web").is_none());

    state.index_proxy("web", "r1");
    state.index_proxy("udp-x", "r1");
    let found = state.session_for_proxy("web").expect("indexed");
    assert_eq!(found, key);
    assert_eq!(state.live.get(&found).unwrap().run_id, "r1");
    assert!(state.session_for_proxy("udp-x").is_some());

    state.unindex_proxies(&vec!["web".into(), "udp-x".into()]);
    assert!(state.session_for_proxy("web").is_none());
    assert!(state.session_for_proxy("udp-x").is_none());
}

#[test]
fn gauges_count_sessions_proxies_and_pools() {
    let mut state = ServerState::new(limits());
    let mut s1 = test_session("r1");
    s1.proxies.insert(
        "web".into(),
        ProxyEntry { handle: 1, kind: ProxyType::Tcp, remote_port: None, custom_domains: vec![] },
    );
    s1.pools.insert("web".into(), vec![7]);
    let key = state.add_session(s1);
    state.sessions.insert("r1".into(), key);
    state.pending.insert(
        1,
        PendingWork {
            proxy_name: "web".into(),
            session_id: "sid".into(),
            user: None,
            created: 0,
        },
    );

    let g = state.gauges();
    assert_eq!(g.sessions, 1);
    assert_eq!(g.proxies, 1);
    assert_eq!(g.pooled_work_conns, 1);
    assert_eq!(g.pending_work, 1);
    assert_eq!(g.udp_sessions, 0);
}

#[test]
fn gauges_of_an_empty_state_are_zero() {
    assert_eq!(ServerState::new(limits()).gauges(), Gauges::default());
}

#[test]
fn proxy_index_survives_session_replace_same_run_id() {
    let mut state = ServerState::new(limits());
    register(&mut state, "r1");
    state.index_proxy("web", "r1");

    let new = state.add_session(test_session("r1"));
    state.unindex_proxies(&vec!["web".into()]);
    state.sessions.insert("r1".into(), new);
    state.index_proxy("web", "r1");

    let found = state.session_for_proxy("web").expect("re-indexed");
    assert_eq!(found, new);
}

#[test]
fn render_contains_all_metrics() {
    let mut m = Metrics::new();
    m.total_connections += 3;
    let text = m.render();
    assert!(text.contains("rfrp_connections_total 3"));
    assert!(text.contains("rfrp_active_connections"));
    assert!(text.contains("rfrp_bytes_up_total"));
    assert!(text.contains("rfrp_bytes_down_total"));
}

#[test]
fn render_prometheus_includes_gauges_and_uptime() {
    let state = ServerState::new(limits());
    let text = render_prometheus(&state);
    for needle in [
        "rfrp_uptime_seconds",
        "rfrp_sessions 0",
        "rfrp_proxies 0",
        "rfrp_pending_work 0",
        "rfrp_udp_sessions 0",
        "rfrp_pooled_work_conns 0",
        "rfrp_connections_total",
        "rfrp_bytes_up_total",
    ] {
        assert!(text.contains(needle), "missing {needle} in:\n{text}");
    }
}

#[test]
fn render_reflects_all_counter_values() {
    let mut m = Metrics::new();
    m.total_connections += 10;
    m.active_connections += 4;
    m.bytes_up += 1024;
    m.bytes_down += 2048;
    let text = m.render();
    assert!(text.contains("rfrp_connections_total 10"));
    assert!(text.contains("rfrp_active_connections 4"));
    assert!(text.contains("rfrp_bytes_up_total 1024"));
    assert!(text.contains("rfrp_bytes_down_total 2048"));
    assert!(text.contains("# TYPE rfrp_connections_total counter"));
    assert!(text.contains("# TYPE rfrp_active_connections gauge"));
}

#[test]
fn metrics_text_is_exact() {
    let mut m = Metrics::default();
    m.total_connections = 1;
    m.active_connections = -2;
    m.bytes_up = 3;
    m.bytes_down = 4;
    m.set_rtt_ms(5);
    m.inc_accepted();
    m.inc_udp_dropped();
    m.inc_accept_error();
    assert_eq!(m.rtt_ms(), 5);
    assert!(!m.is_accepting());
    let expected = format!(
        "# HELP rfrp_connections_total Total accepted user connections.\n\
         # TYPE rfrp_connections_total counter\n\
         rfrp_connections_total {}\n\
         # TYPE rfrp_active_connections gauge\n\
         rfrp_active_connections {}\n\
         # TYPE rfrp_bytes_up_total counter\n\
         rfrp_bytes_up_total {}\n\
         # TYPE rfrp_bytes_down_total counter\n\
         rfrp_bytes_down_total {}\n\
         # HELP rfrp_rtt_ms Control connection round-trip time in milliseconds (0 = unknown).\n\
         # TYPE rfrp_rtt_ms gauge\n\
         rfrp_rtt_ms {}\n\
         # HELP rfrp_accepted_total Accepted TCP connections on the control port.\n\
         # TYPE rfrp_accepted_total counter\n\
         rfrp_accepted_total {}\n\
         # HELP rfrp_accept_errors_total Accept errors.\n\
         # TYPE rfrp_accept_errors_total counter\n\
         rfrp_accept_errors_total {}\n\
         # HELP rfrp_udp_dropped_total UDP datagrams dropped (pending session limit).\n\
         # TYPE rfrp_udp_dropped_total counter\n\
         rfrp_udp_dropped_total {}\n\
         # HELP rfrp_accepting Whether the accept loop is healthy (1/0).\n\
         # TYPE rfrp_accepting gauge\n\
         rfrp_accepting {}\n",
        1, -2, 3, 4, 5, 1, 1, 1, 0
    );
    assert_eq!(m.render(), expected);

    let mut state = ServerState::new(limits());
    state.metrics = m;
    let gauges = format!(
        "# HELP rfrp_uptime_seconds Process uptime in seconds.\n\
         # TYPE rfrp_uptime_seconds gauge\n\
         rfrp_uptime_seconds {}\n\
         # HELP rfrp_sessions Active control sessions.\n\
         # TYPE rfrp_sessions gauge\n\
         rfrp_sessions {}\n\
         # HELP rfrp_proxies Registered proxies.\n\
         # TYPE rfrp_proxies gauge\n\
         rfrp_proxies {}\n\
         # HELP rfrp_pending_work User connections waiting for a work connection.\n\
         # TYPE rfrp_pending_work gauge\n\
         rfrp_pending_work {}\n\
         # HELP rfrp_udp_sessions Active UDP sessions.\n\
         # TYPE rfrp_udp_sessions gauge\n\
         rfrp_udp_sessions {}\n\
         # HELP rfrp_pooled_work_conns Idle pooled work connections.\n\
         # TYPE rfrp_pooled_work_conns gauge\n\
         rfrp_pooled_work_conns {}\n",
        77, 0, 0, 0, 0, 0
    );
    assert_eq!(render_prometheus_at(&state, 77), format!("{expected}{gauges}"));
}

#[test]
fn counters_wrap_at_the_end_of_their_range() {
    let mut m = Metrics::new();
    m.accepted_total = u64::MAX;
    m.inc_accepted();
    assert_eq!(m.accepted_total, 0);
}

#[test]
fn uptime_is_that_of_a_process_that_has_just_started() {
    let m = Metrics::new();
    assert!(m.uptime_secs() < 5);
    let a = m.started.now();
    let b = m.started.now();
    assert!(a <= b && b > 0);
}

#[test]
fn healthz_reflects_accept_state() {
    let mut state = ServerState::new(limits());
    assert_eq!(health_response(&state).0, 200);
    state.metrics.inc_accept_error();
    assert_eq!(health_response(&state).0, 503);
    state.metrics.inc_accepted();
    assert_eq!(health_response(&state).0, 200);
}

#[test]
fn render_metrics_includes_session_gauge() {
    let mut state = ServerState::new(limits());
    register(&mut state, "r");
    let text = render_prometheus(&state);
    assert!(text.contains("rfrp_sessions 1"), "expected 1 session: {text}");
}

#[test]
fn domain_index_roundtrip() {
    let mut state = ServerState::new(limits());
    let key = register(&mut state, "r1");
    state.index_domain("a.example.com", "r1", "web");
    state.index_domain("b.example.com", "gone", "web");
    assert_eq!(state.session_for_domain("a.example.com"), Some((key, "web".to_string())));
    // The client of the second domain has no session.
    assert_eq!(state.session_for_domain("b.example.com"), None);
    state.unindex_domains(&vec!["a.example.com".into()]);
    assert_eq!(state.session_for_domain("a.example.com"), None);
}

#[test]
fn stats_of_a_proxy_are_made_once() {
    let mut state = ServerState::new(limits());
    assert_eq!(state.proxy_stats_for("web").connections_total, 0);
    let mut st = state.proxy_stats_for("web");
    st.connections_total = 9;
    state.proxy_stats.insert("web".into(), st);
    assert_eq!(state.proxy_stats_for("web").connections_total, 9);
    assert_eq!(state.proxy_stats.len(), 1);
}
