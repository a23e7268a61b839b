use rfrp::addr::PeerIp;
use rfrp::limits::{Limits, PROTOCOL_VERSION, WORK_ID_POOL_RESERVED};
use rfrp::msg::{Login, Message, NewProxy, ProxyError, ProxyType, StartWorkConn};
use rfrp::rfrps::listener::{
    admit_user, count_traffic, dispatch_user_connection, drop_pending, plan_proxy,
    pop_live_pooled, port_allowed, register_proxy, release_user, sweep_expired_pending,
    BindOutcome, DispatchAction, DispatchEvent, PoolStep, Probe,
};
use rfrp::rfrps::session::{ProxyEntry, Session};
use rfrp::rfrps::state::{PendingWork, ServerState};
use rfrp::rfrps::udp::{get_udp_proxy, is_udp_proxy};
use rfrp::rfrps::work::{handle_work_connection, WorkAction, WorkRefusal};

const MAX_PROXIES_PER_SESSION: usize = 12;
const MAX_POOLED_WORK_CONNS_PER_PROXY: usize = 4;
const WORK_CONN_TIMEOUT_RFRPS: u64 = 10;
const SEC: u128 = 1_000_000_000;

fn limits() -> Limits {
    Limits {
        max_run_id_len: 64,
        max_token_len: 256,
        max_proxy_name_len: 64,
        max_custom_domains: 16,
        max_domain_len: 253,
        max_proxies_per_session: MAX_PROXIES_PER_SESSION,
        max_pooled_work_conns: MAX_POOLED_WORK_CONNS_PER_PROXY,
        max_pending_udp_sessions: 64,
        max_active_connections: 2,
        login_failure_limit: 5,
        login_failure_window: 60,
        work_conn_timeout: WORK_CONN_TIMEOUT_RFRPS,
    }
}

fn test_session() -> Session {
    Session::new("r".into(), "s".into(), PeerIp::V4(0x7f00_0001), "tok".into())
}

// A state with a session that is held, and is current where `current`.
fn setup(current: bool) -> (ServerState, u64) {
    let mut state = ServerState::new(limits());
    let key = state.add_session(test_session());
    if current {
        state.sessions.insert("r".into(), key);
    }
    (state, key)
}

fn proxy(name: &str, kind: ProxyType, port: Option<u16>, domains: Option<&[&str]>) -> NewProxy {
    NewProxy {
        proxy_name: name.into(),
        kind,
        remote_port: port,
        custom_domains: domains.map(|d| d.iter().map(|x| x.to_string()).collect()),
    }
}

fn register(state: &mut ServerState, key: u64, np: &NewProxy) -> Result<(), ProxyError> {
    register_proxy(state, key, np, true, BindOutcome::Bound, 1, 60 * SEC)
}

fn start(name: &str, work_id: u64, token: Option<&str>) -> Message {
    Message::StartWorkConn(StartWorkConn {
        proxy_name: name.into(),
        work_id,
        work_conn_token: token.map(String::from),
    })
}

fn pooled(state: &ServerState, key: u64, name: &str) -> usize {
    state.live.get(&key).unwrap().pools.get(&name.to_string()).map(|v| v.len()).unwrap_or(0)
}

#[test]
fn register_udp_port_not_allowed_rejected() {
    let (mut state, key) = setup(false);
    let np = proxy("p", ProxyType::Udp, Some(18080), None);
    let r = register_proxy(&mut state, key, &np, false, BindOutcome::Bound, 1, 60 * SEC);
    assert!(r.is_err());
}

#[test]
fn register_rejects_missing_remote_port() {
    let (mut state, key) = setup(false);
    let np = proxy("p", ProxyType::Tcp, None, None);
    assert_eq!(register(&mut state, key, &np).unwrap_err(), ProxyError::InvalidField);
}

#[test]
fn register_rejects_port_not_allowed() {
    let (mut state, key) = setup(false);
    let np = proxy("p", ProxyType::Tcp, Some(18080), None);
    assert_eq!(plan_proxy(&state, key, &np, false), Err(ProxyError::PortNotAllowed));
    let err = register_proxy(&mut state, key, &np, false, BindOutcome::Bound, 1, 60 * SEC)
        .unwrap_err();
    assert_eq!(err, ProxyError::PortNotAllowed);
}

#[test]
fn unreadable_ranges_allow_no_port() {
    assert!(port_allowed(Some(true)));
    assert!(!port_allowed(Some(false)));
    assert!(!port_allowed(None));
}

#[test]
fn register_ok_then_duplicate_name_rejected() {
    let (mut state, key) = setup(false);
    let np1 = proxy("p", ProxyType::Tcp, Some(6001), None);
    assert_eq!(plan_proxy(&state, key, &np1, true), Ok(Some(6001)));
    assert!(register(&mut state, key, &np1).is_ok());
    let np2 = proxy("p", ProxyType::Tcp, Some(6002), None);
    assert_eq!(register(&mut state, key, &np2).unwrap_err(), ProxyError::NameExists);
}

#[test]
fn register_rejects_occupied_port() {
    let (mut state, key) = setup(false);
    let np = proxy("p", ProxyType::Tcp, Some(6001), None);
    let err = register_proxy(&mut state, key, &np, true, BindOutcome::InUse, 1, 60 * SEC)
        .unwrap_err();
    assert_eq!(err, ProxyError::PortOccupied);
    let err = register_proxy(&mut state, key, &np, true, BindOutcome::Failed, 1, 60 * SEC)
        .unwrap_err();
    assert_eq!(err, ProxyError::Internal);
    assert_eq!(state.live.get(&key).unwrap().proxies.len(), 0);
}

#[test]
fn pooled_work_connection_registered() {
    let (mut state, key) = setup(true);
    assert!(register(&mut state, key, &proxy("ssh", ProxyType::Tcp, Some(6001), None)).is_ok());
    let first = start("ssh", WORK_ID_POOL_RESERVED, Some("tok"));
    assert_eq!(handle_work_connection(&mut state, &first, 50, 0), Ok(WorkAction::Pooled));
    assert_eq!(pooled(&state, key, "ssh"), 1);
}

#[test]
fn register_udp_missing_remote_port_rejected() {
    let (mut state, key) = setup(false);
    assert!(register(&mut state, key, &proxy("p", ProxyType::Udp, None, None)).is_err());
}

#[test]
fn register_udp_proxy_ok() {
    let (mut state, key) = setup(false);
    assert!(register(&mut state, key, &proxy("dns", ProxyType::Udp, Some(6001), None)).is_ok());
    let entry = state.live.get(&key).unwrap().proxies.get(&"dns".to_string()).unwrap();
    assert_eq!(entry.kind, ProxyType::Udp);
    assert_eq!(entry.remote_port, Some(6001));
    assert!(is_udp_proxy(&state, &"dns".to_string()));
    let u = get_udp_proxy(&state, &"dns".to_string()).unwrap();
    assert_eq!(u.session_timeout, 60 * SEC);
    assert_eq!(u.pending_timeout, WORK_CONN_TIMEOUT_RFRPS as u128 * SEC);
    assert_eq!(u.sweep_period_secs(), 15);
    assert!(get_udp_proxy(&state, &"other".to_string()).is_none());
}

#[test]
fn register_http_proxy_registers_domains() {
    let (mut state, key) = setup(false);
    let np = proxy("web", ProxyType::Http, None, Some(&["dev.example.com"]));
    assert_eq!(plan_proxy(&state, key, &np, false), Ok(None));
    assert!(register(&mut state, key, &np).is_ok());
    let s = state.live.get(&key).unwrap();
    assert_eq!(
        s.proxy_domains.get(&"dev.example.com".to_string()).map(|s| s.as_str()),
        Some("web")
    );
    assert_eq!(s.proxies.get(&"web".to_string()).unwrap().kind, ProxyType::Http);
}

#[test]
fn register_http_duplicate_name_rejected() {
    let (mut state, key) = setup(false);
    let np1 = proxy("web", ProxyType::Http, None, Some(&["a.example.com"]));
    assert!(register(&mut state, key, &np1).is_ok());
    let np2 = proxy("web", ProxyType::Http, None, Some(&["b.example.com"]));
    assert_eq!(register(&mut state, key, &np2).unwrap_err(), ProxyError::NameExists);
    let domains = &state.live.get(&key).unwrap().proxy_domains;
    assert!(domains.contains_key(&"a.example.com".to_string()));
    assert!(!domains.contains_key(&"b.example.com".to_string()));
}

#[test]
fn register_https_proxy_registers_domains() {
    let (mut state, key) = setup(false);
    let np = proxy("web", ProxyType::Https, None, Some(&["secure.example.com"]));
    assert!(register(&mut state, key, &np).is_ok());
    let s = state.live.get(&key).unwrap();
    assert_eq!(s.proxies.get(&"web".to_string()).unwrap().kind, ProxyType::Https);
}

#[test]
fn register_http_domain_conflict_rejected() {
    let (mut state, key_a) = setup(true);
    let np1 = proxy("a", ProxyType::Http, None, Some(&["dev.example.com"]));
    assert!(register(&mut state, key_a, &np1).is_ok());
    let key_b = state.add_session(test_session());
    let np2 = proxy("b", ProxyType::Http, None, Some(&["dev.example.com"]));
    assert_eq!(register(&mut state, key_b, &np2).unwrap_err(), ProxyError::DomainConflict);
    // Whatever the case, and whatever the type.
    let np3 = proxy("c", ProxyType::Tcp, Some(6001), Some(&["DEV.Example.com"]));
    assert_eq!(register(&mut state, key_b, &np3).unwrap_err(), ProxyError::DomainConflict);
}

#[test]
fn register_vhost_without_domains_rejected() {
    let (mut state, key) = setup(false);
    assert!(register(&mut state, key, &proxy("web", ProxyType::Http, None, None)).is_err());
}

#[test]
fn pending_work_conn_cleaned_after_timeout() {
    let (mut state, key) = setup(true);
    for _ in 0..41 {
        state.next_work_id();
    }
    let name = "ssh".to_string();
    let a = dispatch_user_connection(&mut state, key, &name, 900, DispatchEvent::Arrived, 0);
    assert!(matches!(a, DispatchAction::Wait { request } if request.work_id == 42));
    let timeout = WORK_CONN_TIMEOUT_RFRPS as u128 * SEC;
    assert_eq!(sweep_expired_pending(&mut state, timeout, timeout - 1).len(), 0);
    assert!(state.pending.contains_key(&42));
    let gone = sweep_expired_pending(&mut state, timeout, timeout);
    assert_eq!(gone.len(), 1);
    assert_eq!(gone[0].1.user, Some(900));
    assert!(!state.pending.contains_key(&42));
}

#[test]
fn pooled_work_conn_without_token_rejected() {
    let (mut state, key) = setup(true);
    assert!(register(&mut state, key, &proxy("ssh", ProxyType::Tcp, Some(6001), None)).is_ok());
    for token in [None, Some("wrong-token")] {
        let first = start("ssh", WORK_ID_POOL_RESERVED, token);
        assert_eq!(
            handle_work_connection(&mut state, &first, 50, 0),
            Ok(WorkAction::Close(WorkRefusal::BadToken))
        );
    }
    assert_eq!(pooled(&state, key, "ssh"), 0, "unauthenticated work conns must not be pooled");
}

#[test]
fn pending_work_conn_proxy_name_mismatch_rejected() {
    let (mut state, key) = setup(true);
    for name in ["p1", "p2"] {
        assert!(register(&mut state, key, &proxy(name, ProxyType::Tcp, Some(6001), None)).is_ok());
    }
    for _ in 0..7 {
        state.next_work_id();
    }
    state.pending.insert(
        7,
        PendingWork {
            proxy_name: "p1".into(),
            session_id: "s".into(),
            user: Some(70),
            created: 0,
        },
    );
    let first = start("p2", 7, Some("tok"));
    assert_eq!(
        handle_work_connection(&mut state, &first, 50, 0),
        Ok(WorkAction::Close(WorkRefusal::NoMatch))
    );
    assert!(state.pending.contains_key(&7), "pending entry must be preserved on mismatch");
    // The right one claims it, once.
    let first = start("p1", 7, Some("tok"));
    assert_eq!(
        handle_work_connection(&mut state, &first, 50, 0),
        Ok(WorkAction::Bridge { user: 70 })
    );
    assert!(!state.pending.contains_key(&7));
    assert_eq!(
        handle_work_connection(&mut state, &first, 51, 0),
        Ok(WorkAction::Close(WorkRefusal::NoMatch))
    );
}

#[test]
fn register_rejects_beyond_proxy_limit() {
    let mut state = ServerState::new(limits());
    let mut session = test_session();
    for i in 0..MAX_PROXIES_PER_SESSION {
        session.proxies.insert(
            format!("p{i}"),
            ProxyEntry {
                handle: 0,
                kind: ProxyType::Tcp,
                remote_port: None,
                custom_domains: vec![],
            },
        );
    }
    let key = state.add_session(session);
    let np = proxy("extra", ProxyType::Tcp, Some(6001), None);
    assert_eq!(register(&mut state, key, &np).unwrap_err(), ProxyError::TooManyProxies);
}

#[test]
fn unknown_work_id_closes_without_panic() {
    let mut state = ServerState::new(limits());
    let first = start("ssh", 999, None);
    assert_eq!(
        handle_work_connection(&mut state, &first, 1, 0),
        Ok(WorkAction::Close(WorkRefusal::UnknownProxy))
    );
}

#[test]
fn pooled_work_conn_no_session_is_safe() {
    let mut state = ServerState::new(limits());
    let first = start("ghost", WORK_ID_POOL_RESERVED, None);
    assert!(handle_work_connection(&mut state, &first, 1, 0).is_ok());
}

#[test]
fn non_startworkconn_frame_errors() {
    let mut state = ServerState::new(limits());
    let first = Message::Login(Login {
        run_id: "x".into(),
        token: "".into(),
        version: PROTOCOL_VERSION,
    });
    assert_eq!(
        handle_work_connection(&mut state, &first, 1, 0),
        Err("expected StartWorkConn on work connection")
    );
}

#[test]
fn pooled_work_conn_rejected_when_pool_full() {
    let (mut state, key) = setup(true);
    state.index_proxy("ssh", "r");
    let first = start("ssh", WORK_ID_POOL_RESERVED, Some("tok"));
    for i in 0..MAX_POOLED_WORK_CONNS_PER_PROXY {
        assert_eq!(
            handle_work_connection(&mut state, &first, i as u64, 0),
            Ok(WorkAction::Pooled)
        );
        assert_eq!(pooled(&state, key, "ssh"), i + 1);
    }
    assert_eq!(
        handle_work_connection(&mut state, &first, 99, 0),
        Ok(WorkAction::Close(WorkRefusal::PoolFull))
    );
    assert_eq!(
        pooled(&state, key, "ssh"),
        MAX_POOLED_WORK_CONNS_PER_PROXY,
        "rejected connection must not be pooled"
    );
}

#[test]
fn pooled_work_conn_without_token_not_pooled() {
    let (mut state, key) = setup(true);
    state.index_proxy("ssh", "r");
    let first = start("ssh", WORK_ID_POOL_RESERVED, None);
    assert!(handle_work_connection(&mut state, &first, 1, 0).is_ok());
    assert_eq!(state.live.get(&key).unwrap().pools.len(), 0);
}

#[test]
fn a_waiting_user_that_is_gone_is_not_joined() {
    let (mut state, key) = setup(true);
    state.index_proxy("ssh", "r");
    let id = state.next_work_id();
    state.pending.insert(
        id,
        PendingWork { proxy_name: "ssh".into(), session_id: "s".into(), user: None, created: 0 },
    );
    let first = start("ssh", id, Some("tok"));
    assert_eq!(
        handle_work_connection(&mut state, &first, 1, 0),
        Ok(WorkAction::Close(WorkRefusal::NoUser))
    );
    assert!(!state.pending.contains_key(&id));
    assert!(state.live.contains_key(&key));
}

#[test]
fn udp_proxies_keep_no_idle_work_connections() {
    let (mut state, key) = setup(true);
    assert!(register(&mut state, key, &proxy("dns", ProxyType::Udp, Some(6001), None)).is_ok());
    let first = start("dns", WORK_ID_POOL_RESERVED, Some("tok"));
    assert_eq!(
        handle_work_connection(&mut state, &first, 1, 0),
        Ok(WorkAction::Close(WorkRefusal::UdpNotPooled))
    );
    let first = start("dns", 5, Some("tok"));
    assert_eq!(
        handle_work_connection(&mut state, &first, 1, 0),
        Ok(WorkAction::Close(WorkRefusal::NoUdpUser))
    );
}

#[test]
fn users_are_admitted_up_to_the_limit() {
    let (mut state, _) = setup(true);
    assert!(admit_user(&mut state, "ssh"));
    assert!(admit_user(&mut state, "ssh"));
    assert!(!admit_user(&mut state, "ssh"));
    assert_eq!(state.metrics.active_connections, 2);
    assert_eq!(state.metrics.total_connections, 2);
    release_user(&mut state, "ssh");
    assert!(admit_user(&mut state, "web"));
    count_traffic(&mut state, "web", 10, 20);
    assert_eq!(state.metrics.bytes_up, 10);
    assert_eq!(state.metrics.bytes_down, 20);
    let ssh = state.proxy_stats_for("ssh");
    assert_eq!((ssh.connections_total, ssh.active_connections), (2, 1));
    let web = state.proxy_stats_for("web");
    assert_eq!((web.bytes_up, web.bytes_down, web.connections_total), (10, 20, 1));
}

#[test]
fn dead_idle_work_connections_are_skipped() {
    let mut state = ServerState::new(limits());
    let mut session = test_session();
    let name = "ssh".to_string();
    session.pools.insert(name.clone(), vec![1, 2, 3]);
    let key = state.add_session(session);
    assert_eq!(pop_live_pooled(&mut state, key, &name, None), PoolStep::Probe(3));
    let dead = Some((3, Probe::Eof));
    assert_eq!(pop_live_pooled(&mut state, key, &name, dead), PoolStep::Probe(2));
    let dead = Some((2, Probe::Failed));
    assert_eq!(pop_live_pooled(&mut state, key, &name, dead), PoolStep::Probe(1));
    let live = Some((1, Probe::Data(7)));
    assert_eq!(
        pop_live_pooled(&mut state, key, &name, live),
        PoolStep::Use { work: 1, byte: Some(7) }
    );
    let live = Some((1, Probe::NoData));
    assert_eq!(
        pop_live_pooled(&mut state, key, &name, live),
        PoolStep::Use { work: 1, byte: None }
    );
    assert_eq!(pop_live_pooled(&mut state, key, &name, None), PoolStep::Empty);
}

#[test]
fn users_are_served_from_the_pool_or_wait() {
    let mut state = ServerState::new(limits());
    let mut session = test_session();
    let name = "ssh".to_string();
    session.pools.insert(name.clone(), vec![4, 5]);
    let key = state.add_session(session);
    let arrived = DispatchEvent::Arrived;
    let a = dispatch_user_connection(&mut state, key, &name, 100, arrived, 0);
    assert!(matches!(a, DispatchAction::Probe(5)));
    assert_eq!(state.metrics.active_connections, 1);
    let dead = DispatchEvent::Probed(5, Probe::Eof);
    let a = dispatch_user_connection(&mut state, key, &name, 100, dead, 0);
    assert!(matches!(a, DispatchAction::Probe(4)));
    let live = DispatchEvent::Probed(4, Probe::Data(9));
    match dispatch_user_connection(&mut state, key, &name, 100, live, 0) {
        DispatchAction::Bridge { work, byte, request } => {
            assert_eq!((work, byte), (4, Some(9)));
            assert_eq!(request.proxy_name, "ssh");
            assert_eq!(request.work_id, WORK_ID_POOL_RESERVED);
        }
        _ => panic!("expected the idle work connection"),
    }
    match dispatch_user_connection(&mut state, key, &name, 101, arrived, 0) {
        DispatchAction::Wait { request } => assert_eq!(request.work_id, 1),
        _ => panic!("expected to wait"),
    }
    assert_eq!(state.metrics.active_connections, 2);
    let a = dispatch_user_connection(&mut state, key, &name, 102, arrived, 0);
    assert!(matches!(a, DispatchAction::Reject));
    assert_eq!(state.metrics.total_connections, 2);
    assert_eq!(drop_pending(&mut state, 1), Some(101));
    assert_eq!(drop_pending(&mut state, 1), None);
}
