use rfrp::addr::{PeerAddr, PeerIp};
use rfrp::config::{ProxySection, ServerConfig, ServerSection};
use rfrp::limits::{Limits, PROTOCOL_VERSION};
use rfrp::msg::{Login, LoginResp, Message, NewProxy, ProxyError, ProxyType, StartWorkConn};
use rfrp::rfrps::control::{
    check_login, cleanup, close_reason, control_step, end_control, finish_session,
    handle_control_login, limited_login, new_proxy_invalid, note_answer, open_session,
    registration_reply, ControlAction, ControlEvent, HeartbeatAction, HeartbeatEvent,
    HeartbeatWatch, LoginCheck, LoginStep, Opened, WriterEnd,
};
use rfrp::rfrps::listener::{register_proxy, BindOutcome};
use rfrp::rfrps::session::{ProxyEntry, Session};
use rfrp::rfrps::state::{PendingWork, ServerState};
use rfrp::rfrps::udp::UdpProxy;

const MAX_TOKEN_LEN: usize = 256;
const IP: PeerIp = PeerIp::V4(0x7f00_0001);

fn limits() -> Limits {
    Limits {
        max_run_id_len: 64,
        max_token_len: MAX_TOKEN_LEN,
        max_proxy_name_len: 64,
        max_custom_domains: 2,
        max_domain_len: 20,
        max_proxies_per_session: 128,
        max_pooled_work_conns: 8,
        max_pending_udp_sessions: 64,
        max_active_connections: 1000,
        login_failure_limit: 5,
        login_failure_window: 60,
        work_conn_timeout: 10,
    }
}

fn config() -> ServerConfig {
    ServerConfig {
        server: ServerSection {
            bind_addr: "127.0.0.1".into(),
            bind_port: 0,
            token: "".into(),
            tls_enable: false,
            tls_cert: None,
            tls_key: None,
            work_conn_tls: false,
        },
        dashboard: None,
        proxy: ProxySection {
            allow_ports: "".into(),
            vhost_http_port: None,
            vhost_https_port: None,
            vhost_tls_cert: None,
            vhost_tls_key: None,
        },
    }
}

fn run_id(name: &str) -> String {
    let mut b = [0u8; 16];
    for (i, byte) in name.as_bytes().iter().take(16).enumerate() {
        b[i] = *byte;
    }
    uuid::Uuid::from_bytes(b).to_string()
}

fn login(name: &str) -> Login {
    Login { run_id: run_id(name), token: String::new(), version: PROTOCOL_VERSION }
}

fn opened(state: &mut ServerState, config: &ServerConfig, name: &str) -> Opened {
    match handle_control_login(Message::Login(login(name)), state, config, IP) {
        LoginStep::Opened(o) => o,
        _ => panic!("expected a session"),
    }
}

fn refused(state: &mut ServerState, config: &ServerConfig, login: Login) -> LoginResp {
    match handle_control_login(Message::Login(login), state, config, IP) {
        LoginStep::Refused(r) => r,
        _ => panic!("expected a refusal"),
    }
}

fn tcp(name: &str, port: u16) -> NewProxy {
    NewProxy {
        proxy_name: name.into(),
        kind: ProxyType::Tcp,
        remote_port: Some(port),
        custom_domains: None,
    }
}

fn received(msg: Message) -> ControlAction {
    control_step(ControlEvent::Received(msg), &limits())
}

#[test]
fn cleanup_clears_proxy_domains() {
    let mut state = ServerState::new(limits());
    let mut session = Session::new("r".into(), "s".into(), IP, "tok".into());
    session.proxy_domains.insert("dev.example.com".into(), "web".into());
    session.proxies.insert(
        "udp".into(),
        ProxyEntry { handle: 5, kind: ProxyType::Udp, remote_port: None, custom_domains: vec![] },
    );
    session.pools.insert("web".into(), vec![11, 12]);
    let key = state.add_session(session);
    state.udp.insert("udp".into(), UdpProxy::new(9, 60_000_000_000, 10_000_000_000));
    state.sessions.insert("r".into(), key);
    state.index_domain("dev.example.com", "r", "web");
    state.index_proxy("udp", "r");
    state.pending.insert(
        1,
        PendingWork { proxy_name: "web".into(), session_id: "s".into(), user: Some(3), created: 0 },
    );
    state.pending.insert(
        2,
        PendingWork { proxy_name: "web".into(), session_id: "t".into(), user: Some(4), created: 0 },
    );

    let c = cleanup(&mut state, key);
    assert_eq!(
        state.live.get(&key).unwrap().proxy_domains.len(),
        0,
        "cleanup must clear vhost domain mappings"
    );
    assert_eq!(state.udp.len(), 0, "cleanup must remove udp proxy registry");
    assert_eq!(state.live.get(&key).unwrap().proxies.len(), 0);
    assert_eq!(state.live.get(&key).unwrap().pools.len(), 0);
    assert!(state.session_for_domain("dev.example.com").is_none());
    assert!(state.session_for_proxy("udp").is_none());
    assert!(!state.pending.contains_key(&1));
    assert!(state.pending.contains_key(&2), "other sessions keep their users");
    assert_eq!(c.handles, vec![5]);
    assert_eq!(c.pooled, vec![11, 12]);
    assert_eq!(c.users, vec![3]);
    assert_eq!(c.udp, vec![9]);
}

#[test]
fn newproxy_heartbeat_close_flow() {
    let mut state = ServerState::new(limits());
    let config = config();
    let o = opened(&mut state, &config, "r1");
    assert!(o.resp.ok);
    let np = match received(Message::NewProxy(tcp("ssh", 6000))) {
        ControlAction::Register(np) => np,
        _ => panic!("expected a registration"),
    };
    let outcome = register_proxy(&mut state, o.key, &np, true, BindOutcome::Bound, 1, 60);
    let resp = registration_reply(np.proxy_name, outcome);
    assert!(resp.ok);
    match received(Message::Heartbeat(42)) {
        ControlAction::Pong(ts) => assert_eq!(ts, 42),
        _ => panic!("expected an answer"),
    }
    assert!(matches!(received(Message::HeartbeatResp(42)), ControlAction::Alive(42)));
    assert!(matches!(received(Message::Close(None)), ControlAction::Leave));
    let c = finish_session(&mut state, o.key);
    assert_eq!(c.handles, vec![1]);
    assert_eq!(state.sessions.len(), 0);
}

#[test]
fn heartbeat_timeout_disconnects() {
    let mut w = HeartbeatWatch::new();
    assert_eq!(w.step(HeartbeatEvent::Sent), HeartbeatAction::AwaitAnswer);
    assert_eq!(w.step(HeartbeatEvent::Overdue), HeartbeatAction::Disconnect);
    assert!(matches!(
        control_step(ControlEvent::HeartbeatTimeout, &limits()),
        ControlAction::Leave
    ));
}

#[test]
fn heartbeat_keeps_alive_when_client_responds() {
    let mut w = HeartbeatWatch::new();
    for _ in 0..5 {
        assert_eq!(w.step(HeartbeatEvent::Sent), HeartbeatAction::AwaitAnswer);
        assert_eq!(w.step(HeartbeatEvent::Answered), HeartbeatAction::AwaitTick);
    }
    // An answer that came early counts for the next sign of life.
    assert_eq!(w.step(HeartbeatEvent::Answered), HeartbeatAction::Continue);
    assert_eq!(w.step(HeartbeatEvent::Sent), HeartbeatAction::AwaitTick);
    assert_eq!(w.step(HeartbeatEvent::Sent), HeartbeatAction::AwaitAnswer);
    assert_eq!(w.step(HeartbeatEvent::SendFailed), HeartbeatAction::Stop);
}

#[test]
fn non_login_first_frame_errors() {
    let mut state = ServerState::new(limits());
    match handle_control_login(Message::Heartbeat(1), &mut state, &config(), IP) {
        LoginStep::NotLogin(e) => assert_eq!(e, "first frame must be Login"),
        _ => panic!("expected an error"),
    }
    assert_eq!(state.sessions.len(), 0);
}

#[test]
fn reconnect_same_run_id_replaces_old_session() {
    let mut state = ServerState::new(limits());
    let config = config();
    let first = opened(&mut state, &config, "rdup");
    assert!(first.replaced.is_none());
    let np = tcp("ssh", 6000);
    register_proxy(&mut state, first.key, &np, true, BindOutcome::Bound, 77, 60).unwrap();

    let second = opened(&mut state, &config, "rdup");
    assert!(second.resp.ok, "second login must succeed");
    let (old, cleaned) = second.replaced.expect("old control loop must stop");
    assert_eq!(old, first.key);
    assert_eq!(cleaned.handles, vec![77]);
    assert_ne!(first.resp.session_id, second.resp.session_id);
    assert_eq!(state.sessions.get(&run_id("rdup")), Some(&second.key));
    assert!(state.session_for_proxy("ssh").is_none());

    // The old control loop ends late: the new session stays.
    finish_session(&mut state, old);
    assert_eq!(state.sessions.get(&run_id("rdup")), Some(&second.key));
    assert!(!state.live.contains_key(&old));
    // The proxy can be registered again.
    assert!(register_proxy(&mut state, second.key, &np, true, BindOutcome::Bound, 78, 60).is_ok());
}

#[test]
fn login_version_mismatch_rejected() {
    let mut state = ServerState::new(limits());
    let r = refused(
        &mut state,
        &config(),
        Login { run_id: "x".into(), token: String::new(), version: PROTOCOL_VERSION + 1 },
    );
    assert!(!r.ok);
    assert_eq!(r.error.as_deref(), Some("version mismatch"));
    assert_eq!(state.sessions.len(), 0);
}

#[test]
fn auth_failure_rejects_without_echo() {
    let mut state = ServerState::new(limits());
    let mut config = config();
    config.server.token = "secret".into();
    let r = refused(
        &mut state,
        &config,
        Login { run_id: "rAuth".into(), token: "wrong".into(), version: PROTOCOL_VERSION },
    );
    assert!(!r.ok);
    assert!(r.error.is_none(), "auth failure must not echo reason");
    assert!(r.session_id.is_none());
    assert_eq!(state.sessions.len(), 0);
    // With a proper identity it is the token that is refused.
    let l = Login { token: "wrong".into(), ..login("rAuth") };
    assert_eq!(check_login(&l, &config, &limits()), LoginCheck::BadToken);
    let r = refused(&mut state, &config, l);
    assert!(!r.ok && r.error.is_none() && r.session_id.is_none());
    let l = Login { token: "secret".into(), ..login("rAuth") };
    assert_eq!(check_login(&l, &config, &limits()), LoginCheck::Accepted);
}

#[test]
fn control_control_loop_exits_on_shutdown() {
    assert!(matches!(control_step(ControlEvent::Shutdown, &limits()), ControlAction::Leave));
    assert_eq!(close_reason(WriterEnd::Shutdown, true), Some("server shutdown"));
    assert_eq!(close_reason(WriterEnd::Drained, true), Some("server shutdown"));
    assert_eq!(close_reason(WriterEnd::Drained, false), None);
    assert_eq!(close_reason(WriterEnd::Replaced, false), Some("session replaced"));
}

#[test]
fn login_ok_returns_session_id_and_registers() {
    let mut state = ServerState::new(limits());
    let o = opened(&mut state, &config(), "rOk");
    assert!(o.resp.ok);
    let sid = o.resp.session_id.expect("session id");
    assert_eq!(uuid::Uuid::parse_str(&sid).unwrap().get_version_num(), 4);
    assert_eq!(o.resp.work_conn_tls, Some(false));
    let s = state.live.get(&o.key).unwrap();
    assert_eq!(s.session_id, sid);
    assert_eq!(Some(s.work_conn_token.clone()), o.resp.work_conn_token);
    assert_ne!(Some(sid), o.resp.work_conn_token);
    assert_eq!(state.sessions.len(), 1);
}

#[test]
fn newproxy_rejection_routed_to_resp() {
    let mut state = ServerState::new(limits());
    let o = opened(&mut state, &config(), "rRej");
    let np = tcp("p", 18080);
    let outcome = register_proxy(&mut state, o.key, &np, false, BindOutcome::Bound, 1, 60);
    let r = registration_reply(np.proxy_name, outcome);
    assert_eq!(r.proxy_name, "p");
    assert!(!r.ok);
    assert_eq!(r.error.as_deref(), Some("port not allowed"));
}

#[test]
fn control_unknown_control_msg_ignored_keeps_loop_alive() {
    let a = received(Message::StartWorkConn(StartWorkConn {
        proxy_name: "p".into(),
        work_id: 5,
        work_conn_token: None,
    }));
    assert!(matches!(a, ControlAction::Ignore));
    assert!(matches!(received(Message::Heartbeat(1)), ControlAction::Pong(1)));
}

#[test]
fn malformed_frame_breaks_control_loop() {
    assert!(matches!(control_step(ControlEvent::FrameError, &limits()), ControlAction::Leave));
}

#[test]
fn undecodable_message_gives_the_session_up() {
    let mut state = ServerState::new(limits());
    let o = opened(&mut state, &config(), "a");
    let np = tcp("ssh", 7001);
    assert_eq!(register_proxy(&mut state, o.key, &np, true, BindOutcome::Bound, 5, 0), Ok(()));
    let idle = received(Message::Heartbeat(1));
    assert!(end_control(&mut state, o.key, &idle).is_none());
    assert_eq!(state.session_for_proxy("ssh"), Some(o.key));

    let action = control_step(ControlEvent::Undecodable, &limits());
    assert!(matches!(action, ControlAction::Fail));
    let c = end_control(&mut state, o.key, &action).expect("the session is given up");
    assert_eq!(c.handles, vec![5]);
    assert!(state.session_for_proxy("ssh").is_none());
    assert_eq!(state.sessions.len(), 0);
    assert_eq!(state.live.len(), 0);
    assert!(end_control(&mut state, o.key, &action).is_none());
}

#[test]
fn answers_to_signs_of_life_are_timed() {
    let mut state = ServerState::new(limits());
    assert_eq!(state.metrics.rtt_ms(), 0);
    note_answer(&mut state.metrics, 1000, 1017);
    assert_eq!(state.metrics.rtt_ms(), 17);
    note_answer(&mut state.metrics, 1000, 900);
    assert_eq!(state.metrics.rtt_ms(), 0);
}

#[test]
fn late_end_leaves_the_new_session_alone() {
    let mut state = ServerState::new(limits());
    let old = opened(&mut state, &config(), "a").key;
    let new = opened(&mut state, &config(), "a").key;
    let np = tcp("ssh", 7001);
    assert_eq!(register_proxy(&mut state, new, &np, true, BindOutcome::Bound, 5, 0), Ok(()));
    let c = end_control(&mut state, old, &ControlAction::Leave).expect("the old one ends");
    assert!(c.handles.is_empty());
    assert_eq!(state.sessions.get(&run_id("a")), Some(&new));
    assert_eq!(state.session_for_proxy("ssh"), Some(new));
    assert!(!state.live.contains_key(&old));
}

#[test]
fn logins_are_limited_by_address() {
    let mut state = ServerState::new(limits());
    let mut config = config();
    config.server.token = "secret".into();
    let with = |token: &str, version: u8| {
        Message::Login(Login { run_id: run_id("a"), token: token.into(), version })
    };
    // Only a login that is refused without a reason counts.
    for _ in 0..6 {
        let step =
            limited_login(with("secret", PROTOCOL_VERSION + 1), &mut state, &config, IP, 0);
        assert!(matches!(step, Some(LoginStep::Refused(r)) if r.error.is_some()));
        let step = limited_login(Message::Heartbeat(1), &mut state, &config, IP, 0);
        assert!(matches!(step, Some(LoginStep::NotLogin(_))));
    }
    assert_eq!(state.failures_of(IP), 0);
    for i in 0..4u32 {
        let step = limited_login(with("wrong", PROTOCOL_VERSION), &mut state, &config, IP, 0);
        assert!(matches!(step, Some(LoginStep::Refused(r)) if r.error.is_none()));
        assert_eq!(state.failures_of(IP), i + 1);
    }
    // A session that is opened wipes them out.
    let step = limited_login(with("secret", PROTOCOL_VERSION), &mut state, &config, IP, 0);
    assert!(matches!(step, Some(LoginStep::Opened(_))));
    assert_eq!(state.failures_of(IP), 0);
    for _ in 0..5 {
        limited_login(with("wrong", PROTOCOL_VERSION), &mut state, &config, IP, 1);
    }
    // The right token is not even looked at while the address is blocked.
    let sessions = state.live.len();
    assert!(limited_login(with("secret", PROTOCOL_VERSION), &mut state, &config, IP, 2).is_none());
    assert_eq!(state.live.len(), sessions);
    let other = PeerIp::V6(7);
    let step = limited_login(with("secret", PROTOCOL_VERSION), &mut state, &config, other, 2);
    assert!(matches!(step, Some(LoginStep::Opened(_))));
    let later: u128 = 61_000_000_000;
    let step = limited_login(with("secret", PROTOCOL_VERSION), &mut state, &config, IP, later);
    assert!(matches!(step, Some(LoginStep::Opened(_))));
}

#[test]
fn eof_closes_control_loop() {
    assert!(matches!(control_step(ControlEvent::Eof, &limits()), ControlAction::Leave));
    assert!(matches!(control_step(ControlEvent::Stopped, &limits()), ControlAction::Leave));
}

#[test]
fn login_invalid_run_id_rejected() {
    let mut state = ServerState::new(limits());
    let r = refused(
        &mut state,
        &config(),
        Login { run_id: "not-a-uuid".into(), token: String::new(), version: PROTOCOL_VERSION },
    );
    assert!(!r.ok);
    assert!(r.error.is_none());
}

#[test]
fn run_ids_have_the_forms_of_a_uuid() {
    let config = config();
    for (id, ok) in [
        ("550e8400-e29b-41d4-a716-446655440000", true),
        ("550E8400E29B41D4A716446655440000", true),
        ("{550e8400-e29b-41d4-a716-446655440000}", true),
        ("URN:uuid:550e8400-e29b-41d4-a716-446655440000", true),
        ("550e8400-e29b-41d4-a716-44665544000g", false),
        ("550e8400e29b-41d4-a716-4466554400000", false),
        ("(550e8400-e29b-41d4-a716-446655440000)", false),
        ("urn:uuie:550e8400-e29b-41d4-a716-446655440000", false),
        ("ä50e8400e29b41d4a71644665544000", false),
        ("", false),
    ] {
        let l = Login { run_id: id.into(), token: String::new(), version: PROTOCOL_VERSION };
        let expected = if ok { LoginCheck::Accepted } else { LoginCheck::InvalidFields };
        assert_eq!(check_login(&l, &config, &limits()), expected, "{id}");
        assert_eq!(uuid::Uuid::parse_str(id).is_ok(), ok, "{id}");
    }
}

#[test]
fn login_oversize_token_rejected() {
    let mut state = ServerState::new(limits());
    let l = Login { token: "x".repeat(MAX_TOKEN_LEN + 1), ..login("big") };
    assert_eq!(check_login(&l, &config(), &limits()), LoginCheck::InvalidFields);
    assert!(!refused(&mut state, &config(), l).ok);
}

#[test]
fn newproxy_invalid_name_rejected() {
    match received(Message::NewProxy(tcp("bad/name", 6000))) {
        ControlAction::RefuseProxy(r) => {
            assert!(!r.ok);
            assert_eq!(r.error.as_deref(), Some("invalid field"));
        }
        _ => panic!("expected a refusal"),
    }
}

#[test]
fn newproxy_fields_are_bounded() {
    let l = limits();
    for (name, ok) in [
        ("ssh".to_string(), true),
        ("".to_string(), false),
        ("a b".to_string(), false),
        ("a\u{3000}b".to_string(), false),
        ("x".repeat(64), true),
        ("x".repeat(65), false),
        ("ä".repeat(33), false),
    ] {
        assert_eq!(new_proxy_invalid(&tcp(&name, 1), &l).is_none(), ok, "{name}");
    }
    for (domains, ok) in [
        (vec!["a.example.com"], true),
        (vec!["a", "b"], true),
        (vec!["a", "b", "c"], false),
        (vec!["a", ""], false),
        (vec!["a-very-long-domain.example.com"], false),
    ] {
        let np = NewProxy {
            custom_domains: Some(domains.iter().map(|d| d.to_string()).collect()),
            ..tcp("web", 1)
        };
        assert_eq!(new_proxy_invalid(&np, &l).is_none(), ok, "{domains:?}");
    }
}

#[test]
fn replies_name_the_error() {
    let r = registration_reply("p".into(), Err(ProxyError::DomainConflict));
    assert_eq!(r.error.as_deref(), Some("domain conflict"));
    assert!(registration_reply("p".into(), Ok(())).error.is_none());
}

#[test]
fn sessions_of_other_clients_stay() {
    let mut state = ServerState::new(limits());
    let config = config();
    let a = opened(&mut state, &config, "a");
    let peer = PeerAddr { ip: IP, port: 1 };
    assert_eq!(peer.ip, IP);
    let b = open_session(
        &mut state,
        &login("b"),
        &config,
        IP,
        "sid-b".into(),
        "tok-b".into(),
    );
    assert_eq!(state.sessions.len(), 2);
    finish_session(&mut state, b.key);
    assert_eq!(state.sessions.get(&run_id("a")), Some(&a.key));
    assert_eq!(state.sessions.get(&run_id("b")), None);
}
