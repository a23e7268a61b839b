use rfrp::addr::{PeerAddr, PeerIp};
use rfrp::config::{ClientConfig, ClientProxy, ClientSection};
use rfrp::limits::{PROTOCOL_VERSION, WORK_ID_POOL_RESERVED};
use rfrp::msg::{
    LoginResp, Message, NewProxy, NewProxyResp, ProxyError, ProxyType, ReqWorkConn, StartWorkConn,
};
use rfrp::rfrpc::backoff::{should_reset_backoff, Backoff, ConnectOutcome, RunStep};
use rfrp::rfrpc::cli::{apply_cli_overrides, ServerArg};
use rfrp::rfrpc::client::{
    begin_register, finish_connection, finish_login, is_loopback, new_proxy_from_config, plan_tls,
    register_one_proxy, registration_hint, spawn_preheat, ClientState, LoginAnswer, LoginOutcome,
    RegisterAnswer, RegisterOutcome, RegisterPass,
};
use rfrp::rfrpc::control::{
    close_reason, control_loop, heartbeat_round, login_message, ControlAction, ControlEvent,
    PongClock, RoundState,
};
use rfrp::rfrpc::metrics::ClientMetrics;
use rfrp::rfrpc::retry::{RetryAction, RetryEvent, RetryLoop};
use rfrp::rfrpc::run_id::{load_or_create_run_id, resolve_run_id_path, stored_run_id};
use rfrp::rfrpc::status::{finish_reply, handle_request, render_html, status_json, Reply};
use rfrp::rfrpc::workconn::{handle_work_conn, StageResult, WorkStage, WorkStep};

const MAX_RUN_ID_LEN: usize = 64;
const SEC: u128 = 1_000_000_000;

fn proxy(name: &str, kind: ProxyType) -> ClientProxy {
    ClientProxy {
        name: name.into(),
        kind,
        local_ip: "127.0.0.1".into(),
        local_port: 22,
        remote_port: Some(8022),
        custom_domains: None,
        pool_size: 0,
    }
}

fn config() -> ClientConfig {
    ClientConfig {
        client: ClientSection {
            server_addr: "127.0.0.1".into(),
            server_port: 7000,
            token: "t".into(),
            tls_enable: false,
            tls_ca: None,
            tls_server_name: None,
            work_conn_tls: false,
            run_id_file: None,
            status_addr: None,
        },
        proxies: vec![proxy("ssh", ProxyType::Tcp), proxy("dns", ProxyType::Udp)],
    }
}

fn addr() -> PeerAddr {
    PeerAddr { ip: PeerIp::V4(0x7f00_0001), port: 7000 }
}

fn client() -> ClientState {
    ClientState::new(&config(), "rid", addr(), false, 1)
}

fn resp(ok: bool, error: Option<&str>) -> LoginResp {
    LoginResp {
        ok,
        error: error.map(String::from),
        session_id: None,
        work_conn_tls: None,
        work_conn_token: None,
    }
}

fn step(state: &mut ClientState, msg: Message) -> ControlAction {
    let mut pong = PongClock { ts: 0 };
    control_loop(state, &mut pong, &mut ClientMetrics::new(), ControlEvent::Received { msg, now_ms: 0 })
}

#[test]
fn counters_render_and_increment() {
    let mut m = ClientMetrics::new();
    let text = m.render();
    assert!(text.contains("rfrp_client_connected 0"));
    assert!(text.contains("rfrp_client_reconnects_total 0"));

    m.set_connected(true);
    m.inc_reconnect();
    m.inc_work_conn();
    m.inc_work_conn_failure();
    m.inc_proxy_register_failure();
    m.inc_proxy_register_retry_success();
    let text = m.render();
    assert!(text.contains("rfrp_client_connected 1"));
    assert!(text.contains("rfrp_client_reconnects_total 1"));
    assert!(text.contains("rfrp_client_work_conns_total 1"));
    assert!(text.contains("rfrp_client_work_conn_failures_total 1"));
    assert!(text.contains("rfrp_client_proxy_register_failures_total 1"));
    assert!(text.contains("rfrp_client_proxy_register_retry_success_total 1"));
}

#[test]
fn client_metrics_text_is_exact() {
    let mut m = ClientMetrics::default();
    m.set_rtt_ms(12);
    m.set_connected(true);
    m.reconnects_total = 3;
    m.work_conns_total = 4;
    m.work_conn_failures_total = 5;
    m.proxy_register_failures_total = 6;
    m.proxy_register_retry_success_total = 7;
    assert!(m.is_connected());
    assert_eq!(m.rtt_ms(), 12);
    assert!(m.uptime_secs() < 5);
    let expected = format!(
        "# HELP rfrp_client_uptime_seconds Client process uptime in seconds.\n\
         # TYPE rfrp_client_uptime_seconds gauge\n\
         rfrp_client_uptime_seconds {}\n\
         # HELP rfrp_client_rtt_ms Control connection round-trip time in milliseconds (0 = unknown).\n\
         # TYPE rfrp_client_rtt_ms gauge\n\
         rfrp_client_rtt_ms {}\n\
         # HELP rfrp_client_connected Whether the control connection is logged in (1/0).\n\
         # TYPE rfrp_client_connected gauge\n\
         rfrp_client_connected {}\n\
         # HELP rfrp_client_reconnects_total Control connection reconnects.\n\
         # TYPE rfrp_client_reconnects_total counter\n\
         rfrp_client_reconnects_total {}\n\
         # HELP rfrp_client_work_conns_total Work connections established.\n\
         # TYPE rfrp_client_work_conns_total counter\n\
         rfrp_client_work_conns_total {}\n\
         # HELP rfrp_client_work_conn_failures_total Work connection failures.\n\
         # TYPE rfrp_client_work_conn_failures_total counter\n\
         rfrp_client_work_conn_failures_total {}\n\
         # HELP rfrp_client_proxy_register_failures_total Proxy registration failures.\n\
         # TYPE rfrp_client_proxy_register_failures_total counter\n\
         rfrp_client_proxy_register_failures_total {}\n\
         # HELP rfrp_client_proxy_register_retry_success_total Proxies registered after retry.\n\
         # TYPE rfrp_client_proxy_register_retry_success_total counter\n\
         rfrp_client_proxy_register_retry_success_total {}\n",
        9, 12, 1, 3, 4, 5, 6, 7
    );
    assert_eq!(m.render_at(9), expected);
}

#[test]
fn cli_apply_cli_overrides_sets_fields() {
    let mut cfg = config();
    apply_cli_overrides(
        &mut cfg,
        Some(ServerArg {
            text: "127.0.0.1:9000".into(),
            parsed: Ok(("127.0.0.1".into(), 9000)),
        }),
        Some("token".into()),
        Some(true),
        Some(false),
    )
    .unwrap();
    assert_eq!(cfg.client.server_addr, "127.0.0.1");
    assert_eq!(cfg.client.server_port, 9000);
    assert_eq!(cfg.client.token, "token");
    assert!(cfg.client.tls_enable);
    assert!(!cfg.client.work_conn_tls);
}

#[test]
fn apply_cli_overrides_rejects_bad_server() {
    let mut cfg = config();
    let bad = ServerArg {
        text: "not-an-addr".into(),
        parsed: Err("invalid socket address syntax".into()),
    };
    assert_eq!(
        apply_cli_overrides(&mut cfg, Some(bad), None, None, None),
        Err("invalid --server 'not-an-addr': invalid socket address syntax".to_string())
    );
}

#[test]
fn new_proxy_from_config_maps_fields() {
    let p = ClientProxy {
        name: "web".into(),
        kind: ProxyType::Tcp,
        local_ip: "10.0.0.2".into(),
        local_port: 22,
        remote_port: Some(8022),
        custom_domains: Some(vec!["a.example.com".into()]),
        pool_size: 2,
    };
    let np: NewProxy = new_proxy_from_config(&p);
    assert_eq!(np.proxy_name, "web");
    assert_eq!(np.kind, ProxyType::Tcp);
    assert_eq!(np.remote_port, Some(8022));
    assert_eq!(np.custom_domains, Some(vec!["a.example.com".into()]));
    let ready: Vec<ReqWorkConn> = spawn_preheat(&p);
    assert_eq!(ready.len(), 2);
    assert!(ready.iter().all(|r| r.proxy_name == "web" && r.work_id == WORK_ID_POOL_RESERVED));
}

#[test]
fn run_id_persisted_and_reused() {
    let (r1, new) = load_or_create_run_id(None, MAX_RUN_ID_LEN);
    assert!(!r1.is_empty() && new);
    let (r2, new) = load_or_create_run_id(Some(&r1), MAX_RUN_ID_LEN);
    assert_eq!(r1, r2, "run_id must be reused across starts");
    assert!(!new);
    let (r3, _) = load_or_create_run_id(Some(&format!(" {r1}\n")), MAX_RUN_ID_LEN);
    assert_eq!(r1, r3);
    let (r4, _) = load_or_create_run_id(None, MAX_RUN_ID_LEN);
    assert_ne!(r1, r4);
}

#[test]
fn new_fails_fast_when_tls_required_but_unconfigurable() {
    let mut c = config().client;
    assert_eq!(plan_tls(&c), Ok(None));
    c.work_conn_tls = true;
    let err = plan_tls(&c).unwrap_err();
    assert!(err.contains("tls_server_name"), "{err}");
    c.tls_server_name = Some("example.com".into());
    assert_eq!(plan_tls(&c), Ok(Some("example.com".to_string())));
    c.work_conn_tls = false;
    assert_eq!(plan_tls(&c), Ok(Some("example.com".to_string())));
}

#[test]
fn run_id_empty_file_regenerates() {
    let (rid, new) = load_or_create_run_id(Some("   \n"), MAX_RUN_ID_LEN);
    assert!(!rid.trim().is_empty());
    assert_ne!(rid, "   \n");
    assert!(new);
}

#[test]
fn run_id_too_long_regenerates() {
    let long = "x".repeat(MAX_RUN_ID_LEN + 1);
    let (rid, _) = load_or_create_run_id(Some(&long), MAX_RUN_ID_LEN);
    assert_ne!(rid, long);
    assert!(rid.len() <= MAX_RUN_ID_LEN);
    let id = "550e8400-e29b-41d4-a716-446655440000";
    assert_eq!(stored_run_id(id, 36).as_deref(), Some(id));
    assert_eq!(stored_run_id(id, 35), None);
}

#[test]
fn run_id_non_uuid_regenerates() {
    let (rid, _) = load_or_create_run_id(Some("not-a-uuid"), MAX_RUN_ID_LEN);
    assert!(uuid::Uuid::parse_str(&rid).is_ok());
}

#[test]
fn run_id_empty_string_uses_default_path() {
    let none = resolve_run_id_path(&None);
    let empty = resolve_run_id_path(&Some(String::new()));
    let blank = resolve_run_id_path(&Some("   ".to_string()));
    assert_eq!(none, None);
    assert_eq!(empty, none);
    assert_eq!(blank, none);

    let custom = resolve_run_id_path(&Some("/tmp/custom-run-id".to_string()));
    assert_eq!(custom.as_deref(), Some("/tmp/custom-run-id"));
}

#[test]
fn newproxy_resp_routed_to_oneshot() {
    let mut state = client();
    let p = proxy("ssh", ProxyType::Tcp);
    assert_eq!(begin_register(&mut state, &p, 44).proxy_name, "ssh");
    let answer = NewProxyResp { proxy_name: "ssh".into(), ok: true, error: None };
    match step(&mut state, Message::NewProxyResp(answer.clone())) {
        ControlAction::DeliverRegistration { waiter, resp } => {
            assert_eq!(waiter, 44);
            assert!(resp.ok);
        }
        _ => panic!("expected a delivery"),
    }
    // A second answer finds no one who waits.
    assert!(matches!(step(&mut state, Message::NewProxyResp(answer)), ControlAction::Ignore));
}

#[test]
fn newproxy_resp_err_routed_to_oneshot() {
    let mut state = client();
    begin_register(&mut state, &proxy("ssh", ProxyType::Tcp), 44);
    let answer = NewProxyResp {
        proxy_name: "ssh".into(),
        ok: false,
        error: Some("port occupied".into()),
    };
    let resp = match step(&mut state, Message::NewProxyResp(answer)) {
        ControlAction::DeliverRegistration { resp, .. } => resp,
        _ => panic!("expected a delivery"),
    };
    let mut m = ClientMetrics::new();
    let name = "ssh".to_string();
    let r = register_one_proxy(&mut state, &name, RegisterAnswer::Came(resp), &vec![], &mut m);
    assert_eq!(r, RegisterOutcome::Retryable);
    assert_eq!(m.proxy_register_failures_total, 1);
}

#[test]
fn heartbeat_responds() {
    match step(&mut client(), Message::Heartbeat(7)) {
        ControlAction::SendIfRoom(Message::HeartbeatResp(ts)) => assert_eq!(ts, 7),
        _ => panic!("expected an answer"),
    }
}

#[test]
fn reqworkconn_keeps_loop_alive() {
    let req = ReqWorkConn { proxy_name: "ssh".into(), work_id: 3 };
    match step(&mut client(), Message::ReqWorkConn(req)) {
        ControlAction::OpenWork(r) => assert_eq!(r.work_id, 3),
        _ => panic!("expected a work connection"),
    }
    assert!(matches!(step(&mut client(), Message::Heartbeat(9)), ControlAction::SendIfRoom(_)));
}

#[test]
fn close_exits() {
    assert!(matches!(step(&mut client(), Message::Close(None)), ControlAction::Leave));
}

#[test]
fn tests_control_loop_exits_on_shutdown() {
    let mut pong = PongClock { ts: 0 };
    let mut m = ClientMetrics::new();
    for e in [
        ControlEvent::Shutdown,
        ControlEvent::Dead,
        ControlEvent::Eof,
        ControlEvent::FrameError,
        ControlEvent::OutboundClosed,
    ] {
        assert!(matches!(control_loop(&mut client(), &mut pong, &mut m, e), ControlAction::Leave));
    }
    assert!(matches!(
        control_loop(&mut client(), &mut pong, &mut m, ControlEvent::Undecodable),
        ControlAction::Fail
    ));
    assert_eq!(close_reason(true), Some("client shutdown"));
    assert_eq!(close_reason(false), None);
}

#[test]
fn login_resp_routed_to_state() {
    let mut state = client();
    match step(&mut state, Message::LoginResp(resp(false, Some("auth failed")))) {
        ControlAction::DeliverLogin { waiter, resp } => {
            assert_eq!(waiter, 1);
            assert!(!resp.ok);
            assert_eq!(resp.error.as_deref(), Some("auth failed"));
        }
        _ => panic!("expected a delivery"),
    }
    assert!(matches!(
        step(&mut state, Message::LoginResp(resp(true, None))),
        ControlAction::Ignore
    ));
}

#[test]
fn tests_unknown_control_msg_ignored_keeps_loop_alive() {
    let m = Message::StartWorkConn(StartWorkConn {
        proxy_name: "p".into(),
        work_id: 7,
        work_conn_token: None,
    });
    assert!(matches!(step(&mut client(), m), ControlAction::Ignore));
    match step(&mut client(), Message::Heartbeat(3)) {
        ControlAction::SendIfRoom(Message::HeartbeatResp(ts)) => assert_eq!(ts, 3),
        _ => panic!("expected an answer"),
    }
}

#[test]
fn outbound_messages_are_sent_or_end_the_loop() {
    let mut pong = PongClock { ts: 0 };
    let mut m = ClientMetrics::new();
    let mut state = client();
    let e = ControlEvent::Outbound(Message::HeartbeatResp(1));
    assert!(matches!(
        control_loop(&mut state, &mut pong, &mut m, e),
        ControlAction::SendIfRoom(Message::HeartbeatResp(1))
    ));
    let e = ControlEvent::Outbound(Message::Heartbeat(1));
    assert!(matches!(
        control_loop(&mut state, &mut pong, &mut m, e),
        ControlAction::SendOrLeave(Message::Heartbeat(1))
    ));
}

#[test]
fn heartbeat_answers_measure_the_round_trip() {
    let mut pong = PongClock { ts: 0 };
    let mut m = ClientMetrics::new();
    let e = ControlEvent::Received { msg: Message::HeartbeatResp(100), now_ms: 130 };
    assert!(matches!(control_loop(&mut client(), &mut pong, &mut m, e), ControlAction::Wake));
    assert_eq!(m.rtt_ms(), 30);
    assert_eq!(pong.ts, 100);
    let e = ControlEvent::Received { msg: Message::HeartbeatResp(200), now_ms: 130 };
    control_loop(&mut client(), &mut pong, &mut m, e);
    assert_eq!(m.rtt_ms(), 0);
    assert_eq!(heartbeat_round(200, &pong, 50, 60), RoundState::Answered);
    assert_eq!(heartbeat_round(201, &pong, 50, 20), RoundState::Waiting(30));
    assert_eq!(heartbeat_round(201, &pong, 50, 50), RoundState::Dead);
}

#[test]
fn logins_carry_identity_token_and_version() {
    let l = login_message(&client(), &config());
    assert_eq!((l.run_id.as_str(), l.token.as_str(), l.version), ("rid", "t", PROTOCOL_VERSION));
}

#[test]
fn fatal_logins_are_told_from_others() {
    let cfg = config();
    let mut m = ClientMetrics::new();
    for (error, fatal) in [
        (None, Some("auth failed")),
        (Some("Version Mismatch: 2"), Some("Version Mismatch: 2")),
        (Some("AUTH FAILED"), Some("AUTH FAILED")),
        (Some("busy"), None),
    ] {
        let mut state = client();
        let r = finish_login(&mut state, &cfg, LoginAnswer::Came(resp(false, error)), &mut m);
        match (r, fatal) {
            (LoginOutcome::Fatal(reason), Some(expected)) => assert_eq!(reason, expected),
            (LoginOutcome::Retry, None) => {}
            _ => panic!("{error:?}"),
        }
    }
    for answer in [LoginAnswer::Dropped, LoginAnswer::TimedOut] {
        assert!(matches!(finish_login(&mut client(), &cfg, answer, &mut m), LoginOutcome::Retry));
    }
    assert!(!m.is_connected());
}

#[test]
fn work_conn_tls_follows_server_preference() {
    let mut cfg = config();
    cfg.client.work_conn_tls = true;
    let mut m = ClientMetrics::new();
    let mut state = ClientState::new(&cfg, "rid", addr(), true, 1);
    assert!(state.work_conn_tls);
    let answer = LoginResp {
        work_conn_tls: Some(false),
        work_conn_token: Some("tok".into()),
        ..resp(true, None)
    };
    let r = finish_login(&mut state, &cfg, LoginAnswer::Came(answer), &mut m);
    assert!(matches!(r, LoginOutcome::LoggedIn));
    assert!(!state.work_conn_tls);
    assert_eq!(state.work_conn_token.as_deref(), Some("tok"));
    assert!(m.is_connected());
    // A server that says nothing leaves the choice to the client.
    let r = finish_login(&mut state, &cfg, LoginAnswer::Came(resp(true, None)), &mut m);
    assert!(matches!(r, LoginOutcome::LoggedIn));
    assert!(state.work_conn_tls);
    assert_eq!(state.work_conn_token, None);
    finish_connection(&mut state, &mut m);
    assert!(!m.is_connected());
}

#[test]
fn registrations_are_sorted_by_their_answers() {
    let curable = vec![ProxyError::PortNotAllowed];
    let name = "ssh".to_string();
    let came = |ok: bool, error: Option<&str>| {
        RegisterAnswer::Came(NewProxyResp {
            proxy_name: "ssh".into(),
            ok,
            error: error.map(String::from),
        })
    };
    let mut m = ClientMetrics::new();
    for (answer, expected, waits) in [
        (came(true, None), RegisterOutcome::Done, true),
        (came(false, Some("port occupied")), RegisterOutcome::Retryable, true),
        (came(false, Some("domain conflict")), RegisterOutcome::Retryable, true),
        (came(false, Some("port not allowed")), RegisterOutcome::Persistent, true),
        (came(false, Some("invalid field")), RegisterOutcome::Failed, true),
        (came(false, Some("?")), RegisterOutcome::Failed, true),
        (came(false, None), RegisterOutcome::Failed, true),
        (RegisterAnswer::NotSent, RegisterOutcome::ConnLost, false),
        (RegisterAnswer::Dropped, RegisterOutcome::Failed, false),
        (RegisterAnswer::TimedOut, RegisterOutcome::Retryable, false),
    ] {
        let mut state = client();
        begin_register(&mut state, &proxy("ssh", ProxyType::Tcp), 3);
        assert_eq!(register_one_proxy(&mut state, &name, answer, &curable, &mut m), expected);
        assert_eq!(state.resps.contains_key(&name), waits);
    }
    assert_eq!(m.proxy_register_failures_total, 6);

    let mut pass = RegisterPass::new();
    assert!(pass.note(0, RegisterOutcome::Done).is_ok());
    assert!(pass.note(1, RegisterOutcome::Retryable).is_ok());
    assert!(pass.note(2, RegisterOutcome::Persistent).is_ok());
    assert!(pass.note(3, RegisterOutcome::Failed).is_ok());
    assert_eq!((pass.retryable.clone(), pass.persistent.clone()), (vec![1], vec![2]));
    assert_eq!(
        pass.note(4, RegisterOutcome::ConnLost),
        Err("control connection closed or congested during proxy registration")
    );
}

#[test]
fn hints_tell_what_to_do() {
    assert_eq!(
        registration_hint(Some(ProxyError::PortNotAllowed)),
        "检查服务端 [proxy].allow_ports 是否放行该 remote_port"
    );
    assert_eq!(registration_hint(None), registration_hint(Some(ProxyError::Internal)));
    assert_eq!(registration_hint(Some(ProxyError::PortOccupied)), "端口被占用（通常可重试）");
}

#[test]
fn reconnect_delays_double_up_to_the_longest() {
    let mut b = Backoff::new();
    let mut m = ClientMetrics::new();
    let mut delays = Vec::new();
    for _ in 0..7 {
        match b.after_attempt(ConnectOutcome::Failed, 0, 60, false, &mut m) {
            RunStep::Wait(s) => delays.push(s),
            _ => panic!("expected a delay"),
        }
    }
    assert_eq!(delays, vec![1, 2, 4, 8, 16, 30, 30]);
    assert_eq!(m.reconnects_total, 7);
    // A connection that lasted makes the next delay short again; another does not.
    let lived = 59 * SEC;
    match b.after_attempt(ConnectOutcome::Reconnect { connected: true }, lived, 60, false, &mut m) {
        RunStep::Wait(s) => assert_eq!(s, 30),
        _ => panic!("expected a delay"),
    }
    let lived = 60 * SEC;
    match b.after_attempt(ConnectOutcome::Reconnect { connected: true }, lived, 60, false, &mut m) {
        RunStep::Wait(s) => assert_eq!(s, 1),
        _ => panic!("expected a delay"),
    }
    assert_eq!(b.secs, 2);
    assert!(!should_reset_backoff(false, lived, 60));
    assert!(matches!(
        b.after_attempt(ConnectOutcome::Failed, 0, 60, true, &mut m),
        RunStep::Stop
    ));
    match b.after_attempt(ConnectOutcome::Fatal("auth failed".into()), 0, 60, true, &mut m) {
        RunStep::Fail(e) => assert_eq!(e, "login fatal: auth failed"),
        _ => panic!("expected an error"),
    }
    assert_eq!(m.reconnects_total, 9);
}

#[test]
fn registrations_are_tried_again_in_rounds() {
    let mut m = ClientMetrics::new();
    let (mut l, first) = RetryLoop::new(vec![4, 7], 2, 5, 2);
    assert_eq!(first, RetryAction::Sleep(2));
    assert_eq!(l.step(RetryEvent::Slept, &mut m), RetryAction::Register(4));
    let done = RetryEvent::Registered(RegisterOutcome::Done);
    let failed = RetryEvent::Registered(RegisterOutcome::Failed);
    assert_eq!(l.step(done, &mut m), RetryAction::Register(7));
    assert_eq!(l.step(failed, &mut m), RetryAction::Sleep(4));
    assert_eq!(m.proxy_register_retry_success_total, 1);
    assert_eq!(l.step(RetryEvent::Slept, &mut m), RetryAction::Register(7));
    assert_eq!(l.delay, 5);
    assert_eq!(l.step(failed, &mut m), RetryAction::GiveUp);
    assert_eq!(l.queue, vec![7]);

    let (mut l, _) = RetryLoop::new(vec![1], 2, 5, 3);
    l.step(RetryEvent::Slept, &mut m);
    assert_eq!(l.step(done, &mut m), RetryAction::Finish);
    let (mut l, _) = RetryLoop::new(vec![1], 2, 5, 3);
    assert_eq!(l.step(RetryEvent::Shutdown, &mut m), RetryAction::Finish);
    l.step(RetryEvent::Slept, &mut m);
    let lost = RetryEvent::Registered(RegisterOutcome::ConnLost);
    assert_eq!(l.step(lost, &mut m), RetryAction::Finish);
    assert_eq!(RetryLoop::new(vec![], 2, 5, 3).1, RetryAction::Finish);
    assert_eq!(RetryLoop::new(vec![1], 2, 5, 0).1, RetryAction::GiveUp);
}

#[test]
fn unknown_proxy_returns_ok() {
    let req = ReqWorkConn { proxy_name: "nope".into(), work_id: 1 };
    let mut m = ClientMetrics::new();
    let r = handle_work_conn(&client(), &req, WorkStage::Asked, StageResult::Done, &mut m);
    assert!(matches!(r, WorkStep::Close));
    assert_eq!(m.work_conn_failures_total, 1);
}

#[test]
fn local_service_unreachable_closes_gracefully() {
    let req = ReqWorkConn { proxy_name: "ssh".into(), work_id: 1 };
    let mut m = ClientMetrics::new();
    for result in [StageResult::Failed, StageResult::TimedOut] {
        let r = handle_work_conn(&client(), &req, WorkStage::Local, result, &mut m);
        assert!(matches!(r, WorkStep::Close));
    }
    assert_eq!(m.work_conn_failures_total, 2);
}

#[test]
fn work_conn_tls_enabled_without_tls_errors() {
    let mut state = client();
    state.work_conn_tls = true;
    let req = ReqWorkConn { proxy_name: "ssh".into(), work_id: 7 };
    let mut m = ClientMetrics::new();
    match handle_work_conn(&state, &req, WorkStage::Connected, StageResult::Done, &mut m) {
        WorkStep::Error(e) => assert!(e.contains("TLS not initialized"), "{e}"),
        _ => panic!("expected an error"),
    }
    assert_eq!(m.work_conn_failures_total, 1);
    state.has_tls = true;
    assert!(matches!(
        handle_work_conn(&state, &req, WorkStage::Connected, StageResult::Done, &mut m),
        WorkStep::Handshake
    ));
    match handle_work_conn(&state, &req, WorkStage::Secured, StageResult::TimedOut, &mut m) {
        WorkStep::Error(e) => assert_eq!(e, "work connection TLS handshake timeout"),
        _ => panic!("expected an error"),
    }
}

#[test]
fn tcp_work_conn_sends_start_frame_and_bridges() {
    let mut state = client();
    state.work_conn_token = Some("tok".into());
    let req = ReqWorkConn { proxy_name: "ssh".into(), work_id: 42 };
    let mut m = ClientMetrics::new();
    let done = StageResult::Done;
    assert!(matches!(
        handle_work_conn(&state, &req, WorkStage::Asked, done, &mut m),
        WorkStep::Connect
    ));
    match handle_work_conn(&state, &req, WorkStage::Connected, done, &mut m) {
        WorkStep::ConnectLocal { ip, port } => assert_eq!((ip.as_str(), port), ("127.0.0.1", 22)),
        _ => panic!("expected the local service"),
    }
    match handle_work_conn(&state, &req, WorkStage::Local, done, &mut m) {
        WorkStep::Start(s) => {
            assert_eq!(s.proxy_name, "ssh");
            assert_eq!(s.work_id, 42);
            assert_eq!(s.work_conn_token.as_deref(), Some("tok"));
        }
        _ => panic!("expected the first message"),
    }
    assert_eq!(m.work_conns_total, 0);
    assert!(matches!(
        handle_work_conn(&state, &req, WorkStage::Started, done, &mut m),
        WorkStep::Bridge
    ));
    assert_eq!(m.work_conns_total, 1);
}

#[test]
fn udp_work_connections_open_a_socket_first() {
    let state = client();
    let req = ReqWorkConn { proxy_name: "dns".into(), work_id: 42 };
    let mut m = ClientMetrics::new();
    assert!(matches!(
        handle_work_conn(&state, &req, WorkStage::Connected, StageResult::Done, &mut m),
        WorkStep::OpenUdp
    ));
    assert!(matches!(
        handle_work_conn(&state, &req, WorkStage::Opened, StageResult::Done, &mut m),
        WorkStep::ConnectLocal { .. }
    ));
    assert!(matches!(
        handle_work_conn(&state, &req, WorkStage::Opened, StageResult::Failed, &mut m),
        WorkStep::Propagate
    ));
    assert_eq!(m.work_conn_failures_total, 1);
    match handle_work_conn(&state, &req, WorkStage::Connected, StageResult::TimedOut, &mut m) {
        WorkStep::Error(e) => assert_eq!(e, "work connection connect timeout"),
        _ => panic!("expected an error"),
    }
    assert_eq!(m.work_conn_failures_total, 2);
}

#[test]
fn every_failed_work_connection_is_counted() {
    let mut state = client();
    state.work_conn_tls = true;
    state.has_tls = true;
    let req = ReqWorkConn { proxy_name: "ssh".into(), work_id: 7 };
    let mut m = ClientMetrics::new();
    let stages = [WorkStage::Connected, WorkStage::Secured, WorkStage::Started];
    for (i, stage) in stages.into_iter().enumerate() {
        assert!(matches!(
            handle_work_conn(&state, &req, stage, StageResult::Failed, &mut m),
            WorkStep::Propagate
        ));
        assert_eq!(m.work_conn_failures_total, i as u64 + 1);
    }
    assert_eq!(m.work_conns_total, 0);
}

#[test]
fn conflicts_are_retried_with_growing_delays() {
    let mut m = ClientMetrics::new();
    let (mut l, mut action) = RetryLoop::for_conflicts(vec![3], 7);
    let failed = RetryEvent::Registered(RegisterOutcome::Retryable);
    let mut delays: Vec<u64> = Vec::new();
    while let RetryAction::Sleep(secs) = action {
        delays.push(secs);
        assert_eq!(l.step(RetryEvent::Slept, &mut m), RetryAction::Register(3));
        action = l.step(failed, &mut m);
    }
    assert_eq!(action, RetryAction::GiveUp);
    assert_eq!(delays, vec![2, 4, 8, 16, 30, 30, 30]);
    assert_eq!(RetryLoop::for_conflicts(vec![], 7).1, RetryAction::Finish);
    assert_eq!(RetryLoop::for_conflicts(vec![3], 0).1, RetryAction::GiveUp);
}

#[test]
fn each_client_metric_has_one_sample_line() {
    let mut m = ClientMetrics::new();
    m.set_connected(true);
    m.inc_work_conn_failure();
    let text = m.render_at(12);
    let samples = [
        ("uptime_seconds", "12"),
        ("connected", "1"),
        ("reconnects_total", "0"),
        ("work_conns_total", "0"),
        ("work_conn_failures_total", "1"),
        ("proxy_register_failures_total", "0"),
        ("proxy_register_retry_success_total", "0"),
    ];
    let lines: Vec<&str> = text.lines().collect();
    for (name, value) in samples {
        let name = format!("rfrp_client_{name}");
        let sample = format!("{name} {value}");
        let at: Vec<usize> =
            (0..lines.len()).filter(|i| lines[*i].split(' ').next() == Some(&name)).collect();
        assert_eq!(at.len(), 1, "{name}");
        assert_eq!(lines[at[0]], sample);
        let kind = if name.ends_with("_total") { "counter" } else { "gauge" };
        assert_eq!(lines[at[0] - 1], format!("# TYPE {name} {kind}"));
        assert!(lines[at[0] - 2].starts_with(&format!("# HELP {name} ")));
    }
}

#[test]
fn status_endpoint_serves_status_and_metrics() {
    let cfg = config();
    let m = ClientMetrics::new();
    match handle_request(b"GET /metrics HTTP/1.1\r\n\r\n", &cfg, &m, "1.0", 3) {
        Reply::Respond(r) => {
            assert_eq!(r.status, 200);
            assert!(r.body.contains("rfrp_client_uptime_seconds 3\n"));
        }
        _ => panic!("expected metrics"),
    }
    assert!(matches!(
        handle_request(b"GET /api/status HTTP/1.1\r\n\r\n", &cfg, &m, "1.0", 3),
        Reply::Status
    ));
    match handle_request(b"GET / HTTP/1.1\r\n\r\n", &cfg, &m, "1.0", 3) {
        Reply::Respond(r) => {
            assert_eq!((r.status, r.content_type), (200, "text/html; charset=utf-8"));
            assert_eq!(r.body, render_html(&cfg, &m, "1.0", 3))
        }
        _ => panic!("expected the page"),
    }
    let r = finish_reply(Reply::Status, "{}".into());
    assert_eq!((r.status, r.content_type, r.body.as_str()), (200, "application/json", "{}"));
    assert_eq!(r.headers, None);
    let missing = handle_request(b"GET /nope HTTP/1.1\r\n\r\n", &cfg, &m, "1.0", 3);
    assert_eq!(finish_reply(missing, "{}".into()).status, 404);
    let s = status_json(&cfg, &m, "1.0", 3);
    assert_eq!(s.server, "127.0.0.1:7000");
    assert_eq!(s.proxies.len(), 2);
    assert_eq!(s.proxies[1].name, "dns");
    assert_eq!(s.proxies[0].local, "127.0.0.1:22");
    assert!(!s.connected);
}

#[test]
fn status_endpoint_unknown_path_404() {
    match handle_request(b"GET /nope HTTP/1.1\r\n\r\n", &config(), &ClientMetrics::new(), "1", 0) {
        Reply::Respond(r) => assert_eq!((r.status, r.body.as_str()), (404, "Not Found\n")),
        _ => panic!("expected nothing"),
    }
    // A head that cannot be read asks for the page.
    match handle_request(b"nonsense\r\n\r\n", &config(), &ClientMetrics::new(), "1", 0) {
        Reply::Respond(r) => assert_eq!(r.status, 200),
        _ => panic!("expected the page"),
    }
}

#[test]
fn status_page_is_exact() {
    let mut cfg = config();
    cfg.proxies[1].remote_port = None;
    let m = ClientMetrics::new();
    let expected = format!(
        "<html><head><title>rfrp client status</title>\
         <meta http-equiv=\"refresh\" content=\"5\"></head><body>\
         <h1>rfrp client <small>v{}</small></h1>\
         <p>server: {}:{} | connected: {} | uptime: {}s</p>\
         <pre>{}</pre>\
         <h2>Proxies</h2>\
         <table border=1><tr><th>name</th><th>type</th><th>local</th><th>remote_port</th><th>pool</th></tr>{}</table>\
         </body></html>",
        "1.0",
        "127.0.0.1",
        7000,
        false,
        3,
        m.render_at(3),
        "<tr><td>ssh</td><td>Tcp</td><td>127.0.0.1:22</td><td>Some(8022)</td><td>0</td></tr>\
         <tr><td>dns</td><td>Udp</td><td>127.0.0.1:22</td><td>None</td><td>0</td></tr>"
    );
    assert_eq!(render_html(&cfg, &m, "1.0", 3), expected);
}

#[test]
fn loopback_addresses_are_known_by_their_text() {
    for (addr, expected) in [
        ("127.0.0.1:7400", true),
        ("localhost:7400", true),
        ("[::1]:7400", true),
        ("0.0.0.0:7400", false),
        ("[::]:7400", false),
    ] {
        assert_eq!(is_loopback(addr), expected);
    }
}

#[test]
fn proxies_of_one_name_are_the_later() {
    let mut cfg = config();
    let mut p = proxy("ssh", ProxyType::Tcp);
    p.local_port = 2222;
    cfg.proxies.push(p);
    let s = ClientState::new(&cfg, "rid", addr(), false, 1);
    assert_eq!(s.proxies.len(), 2);
    assert_eq!(s.proxies.get(&"ssh".to_string()).unwrap().local_port, 2222);
}
