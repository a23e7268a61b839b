use rfrp::addr::{PeerAddr, PeerIp};
use rfrp::config::{
    ClientConfig, ClientProxy, ClientSection, ProxySection, ServerConfig, ServerSection,
};
use rfrp::limits::Limits;
use rfrp::msg::{Message, NewProxy, NewProxyResp, ProxyError, ProxyType, ReqWorkConn};
use rfrp::rfrpc::backoff::ConnectOutcome;
use rfrp::rfrpc::client::{
    begin_register, finish_login, register_one_proxy, Client, ClientState, LoginAnswer,
    LoginOutcome, RegisterAnswer, RegisterOutcome,
};
use rfrp::rfrpc::connect::{Attempt, AttemptAction, AttemptEvent, Stage};
use rfrp::rfrpc::control::login_message;
use rfrp::rfrpc::metrics::ClientMetrics;
use rfrp::rfrpc::run_id::load_or_create_run_id;
use rfrp::rfrpc::workconn::{handle_work_conn, StageResult, WorkStage, WorkStep};
use rfrp::rfrps::control::{
    cleanup, control_step, finish_session, handle_control_login, registration_reply, ControlAction,
    ControlEvent, LoginStep, Opened,
};
use rfrp::rfrps::listener::{
    dispatch_user_connection, pop_live_pooled, register_proxy, release_user, BindOutcome,
    DispatchAction, DispatchEvent, PoolStep, Probe,
};
use rfrp::rfrps::state::ServerState;
use rfrp::rfrps::vhost::route;
use rfrp::rfrps::work::{handle_work_connection, WorkAction};

const IP: PeerIp = PeerIp::V4(0x7f00_0001);

fn limits() -> Limits {
    Limits {
        max_run_id_len: 64,
        max_token_len: 256,
        max_proxy_name_len: 64,
        max_custom_domains: 16,
        max_domain_len: 253,
        max_proxies_per_session: 8,
        max_pooled_work_conns: 8,
        max_pending_udp_sessions: 64,
        max_active_connections: 100,
        login_failure_limit: 5,
        login_failure_window: 60,
        work_conn_timeout: 10,
    }
}

fn server_config() -> ServerConfig {
    ServerConfig {
        server: ServerSection {
            bind_addr: "127.0.0.1".into(),
            bind_port: 7000,
            token: "secret".into(),
            tls_enable: false,
            tls_cert: None,
            tls_key: None,
            work_conn_tls: false,
        },
        dashboard: None,
        proxy: ProxySection {
            allow_ports: "".into(),
            vhost_http_port: None,
            vhost_https_port: None,
            vhost_tls_cert: None,
            vhost_tls_key: None,
        },
    }
}

fn client_config(token: &str) -> ClientConfig {
    ClientConfig {
        client: ClientSection {
            server_addr: "127.0.0.1".into(),
            server_port: 7000,
            token: token.into(),
            tls_enable: false,
            tls_ca: None,
            tls_server_name: None,
            work_conn_tls: true,
            run_id_file: None,
            status_addr: None,
        },
        proxies: vec![ClientProxy {
            name: "ssh".into(),
            kind: ProxyType::Tcp,
            local_ip: "127.0.0.1".into(),
            local_port: 22,
            remote_port: Some(6000),
            custom_domains: Some(vec!["DEV.example.com".into()]),
            pool_size: 1,
        }],
    }
}

struct Pair {
    server: ServerState,
    client: ClientState,
    metrics: ClientMetrics,
    opened: Opened,
    run_id: String,
}

fn log_in() -> Pair {
    let mut server = ServerState::new(limits());
    let config = client_config("secret");
    let (run_id, _) = load_or_create_run_id(None, 64);
    let addr = PeerAddr { ip: IP, port: 7000 };
    let mut client = ClientState::new(&config, &run_id, addr, false, 1);
    let mut metrics = ClientMetrics::new();
    let first = Message::Login(login_message(&client, &config));
    let opened = match handle_control_login(first, &mut server, &server_config(), IP) {
        LoginStep::Opened(o) => o,
        _ => panic!("expected a session"),
    };
    let answer = LoginAnswer::Came(opened.resp.clone());
    let outcome = finish_login(&mut client, &config, answer, &mut metrics);
    assert!(matches!(outcome, LoginOutcome::LoggedIn));
    Pair { server, client, metrics, opened, run_id }
}

fn register(p: &mut Pair, handle: u64) -> RegisterOutcome {
    let proxy = client_config("").proxies.remove(0);
    let np: NewProxy = begin_register(&mut p.client, &proxy, 5);
    let np = match control_step(ControlEvent::Received(Message::NewProxy(np)), &limits()) {
        ControlAction::Register(np) => np,
        _ => panic!("expected a registration"),
    };
    let outcome =
        register_proxy(&mut p.server, p.opened.key, &np, true, BindOutcome::Bound, handle, 60);
    let resp: NewProxyResp = registration_reply(np.proxy_name, outcome);
    let curable = vec![ProxyError::PortNotAllowed];
    let answer = RegisterAnswer::Came(resp);
    register_one_proxy(&mut p.client, &proxy.name, answer, &curable, &mut p.metrics)
}

fn start(p: &mut Pair, work_id: u64) -> Message {
    let req = ReqWorkConn { proxy_name: "ssh".into(), work_id };
    let stage = WorkStage::Local;
    match handle_work_conn(&p.client, &req, stage, StageResult::Done, &mut p.metrics) {
        WorkStep::Start(s) => Message::StartWorkConn(s),
        _ => panic!("expected the first message"),
    }
}

#[test]
fn a_client_with_the_token_logs_in_and_serves_users() {
    let mut p = log_in();
    assert!(p.metrics.is_connected());
    assert!(!p.client.work_conn_tls, "the server decides");
    assert_eq!(register(&mut p, 9), RegisterOutcome::Done);

    // Found by name, and by domain in any case.
    let key = p.opened.key;
    assert_eq!(p.server.session_for_proxy("ssh"), Some(key));
    assert_eq!(route(&p.server, "dev.EXAMPLE.com", ProxyType::Tcp), Some((key, "ssh".into())));
    assert_eq!(route(&p.server, "dev.EXAMPLE.com", ProxyType::Http), None);

    // A user comes, waits, and is joined.
    let name = "ssh".to_string();
    let arrived = DispatchEvent::Arrived;
    let work_id = match dispatch_user_connection(&mut p.server, key, &name, 70, arrived, 0) {
        DispatchAction::Wait { request } => request.work_id,
        _ => panic!("expected to wait"),
    };
    let first = start(&mut p, work_id);
    assert_eq!(
        handle_work_connection(&mut p.server, &first, 80, 0),
        Ok(WorkAction::Bridge { user: 70 })
    );

    // An idle work connection is kept and is the next to be used.
    let first = start(&mut p, 0);
    assert_eq!(handle_work_connection(&mut p.server, &first, 81, 0), Ok(WorkAction::Pooled));
    assert_eq!(pop_live_pooled(&mut p.server, key, &name, None), PoolStep::Probe(81));
    assert_eq!(
        pop_live_pooled(&mut p.server, key, &name, Some((81, Probe::NoData))),
        PoolStep::Use { work: 81, byte: None }
    );

    // The session ends: the user that was joined is not closed.
    let c = finish_session(&mut p.server, key);
    assert_eq!(c.handles, vec![9]);
    assert_eq!(c.users, Vec::<u64>::new());
    assert_eq!(p.server.session_for_proxy("ssh"), None);
    assert_eq!(route(&p.server, "dev.example.com", ProxyType::Tcp), None);
    release_user(&mut p.server, "ssh");
    assert_eq!(p.server.metrics.active_connections, 0);
}

#[test]
fn a_client_that_is_refused_gives_up() {
    let addr = PeerAddr { ip: IP, port: 7000 };
    for (version, token) in [(1u8, "wrong"), (2, "secret")] {
        let mut server = ServerState::new(limits());
        let config = client_config(token);
        let (run_id, _) = load_or_create_run_id(None, 64);
        let mut client = ClientState::new(&config, &run_id, addr, false, 1);
        let mut login = login_message(&client, &config);
        login.version = version;
        let resp =
            match handle_control_login(Message::Login(login), &mut server, &server_config(), IP) {
                LoginStep::Refused(r) => r,
                _ => panic!("expected a refusal"),
            };
        let mut m = ClientMetrics::new();
        let mut a = Attempt::new();
        for _ in 0..2 {
            a.connect_once(&mut client, &config, &mut m, AttemptEvent::Done);
        }
        assert_eq!(a.stage, Stage::LoggingIn);
        let answer = AttemptEvent::Answered(LoginAnswer::Came(resp));
        assert!(matches!(
            a.connect_once(&mut client, &config, &mut m, answer),
            AttemptAction::Finish(ConnectOutcome::Fatal(_))
        ));
    }
}

#[test]
fn a_second_registration_is_refused_and_a_conflict_is_retried() {
    let mut p = log_in();
    assert_eq!(register(&mut p, 9), RegisterOutcome::Done);
    assert_eq!(register(&mut p, 10), RegisterOutcome::Failed, "the name exists");

    // Another client wants the same domain.
    let mut other = log_in();
    std::mem::swap(&mut other.server, &mut p.server);
    let first = Message::Login(login_message(&other.client, &client_config("secret")));
    other.opened = match handle_control_login(first, &mut other.server, &server_config(), IP) {
        LoginStep::Opened(o) => o,
        _ => panic!("expected a session"),
    };
    assert_ne!(other.run_id, p.run_id);
    assert_eq!(register(&mut other, 11), RegisterOutcome::Retryable);

    // The first client logs in again: its domain is free for it.
    std::mem::swap(&mut other.server, &mut p.server);
    let first = Message::Login(login_message(&p.client, &client_config("secret")));
    p.opened = match handle_control_login(first, &mut p.server, &server_config(), IP) {
        LoginStep::Opened(o) => o,
        _ => panic!("expected a session"),
    };
    assert!(p.opened.replaced.is_some());
    assert_eq!(register(&mut p, 12), RegisterOutcome::Done);
    assert_eq!(p.server.session_for_proxy("ssh"), Some(p.opened.key));
    // The second client's session is still there.
    assert_eq!(p.server.sessions.get(&other.run_id), Some(&other.opened.key));
}

#[test]
fn ending_a_session_twice_is_ending_it_once() {
    let mut p = log_in();
    assert_eq!(register(&mut p, 9), RegisterOutcome::Done);
    let key = p.opened.key;
    assert_eq!(cleanup(&mut p.server, key).handles, vec![9]);
    let again = cleanup(&mut p.server, key);
    assert!(again.handles.is_empty() && again.users.is_empty() && again.pooled.is_empty());
    assert_eq!(p.server.sessions.get(&p.run_id), Some(&key));
}

#[test]
fn connections_go_from_step_to_step() {
    let mut config = client_config("t");
    let mut more = config.proxies[0].clone();
    more.name = "web".into();
    config.proxies.push(more.clone());
    more.name = "dns".into();
    config.proxies.push(more);
    config.client.tls_enable = true;
    let addr = PeerAddr { ip: IP, port: 7000 };
    let mut c = ClientState::new(&config, "rid", addr, true, 1);
    let mut m = ClientMetrics::new();
    let mut a = Attempt::new();
    let mut step = |a: &mut Attempt, e: AttemptEvent| a.connect_once(&mut c, &config, &mut m, e);
    assert!(matches!(step(&mut a, AttemptEvent::Done), AttemptAction::Connect));
    assert!(matches!(step(&mut a, AttemptEvent::Done), AttemptAction::Handshake));
    assert!(matches!(step(&mut a, AttemptEvent::Done), AttemptAction::Login));
    let resp = rfrp::msg::LoginResp {
        ok: true,
        error: None,
        session_id: None,
        work_conn_tls: Some(true),
        work_conn_token: Some("tok".into()),
    };
    let e = AttemptEvent::Answered(LoginAnswer::Came(resp));
    assert!(matches!(step(&mut a, e), AttemptAction::Register(0)));
    let e = AttemptEvent::Registered(RegisterOutcome::Retryable);
    assert!(matches!(step(&mut a, e), AttemptAction::Register(1)));
    let e = AttemptEvent::Registered(RegisterOutcome::Done);
    assert!(matches!(step(&mut a, e), AttemptAction::Register(2)));
    let e = AttemptEvent::Registered(RegisterOutcome::Persistent);
    assert!(matches!(step(&mut a, e), AttemptAction::Run { retry: true }));
    assert_eq!((a.pass.retryable.clone(), a.pass.persistent.clone()), (vec![0], vec![2]));
    assert!(matches!(
        step(&mut a, AttemptEvent::Ended),
        AttemptAction::Finish(ConnectOutcome::Reconnect { connected: true })
    ));
    assert!(!m.is_connected());
    assert_eq!(c.work_conn_token.as_deref(), Some("tok"));
}

#[test]
fn ends_of_connections_are_told_apart() {
    let config = client_config("t");
    let addr = PeerAddr { ip: IP, port: 7000 };
    let mut c = ClientState::new(&config, "rid", addr, true, 1);
    let mut m = ClientMetrics::new();
    let at = |stage: Stage| {
        let mut a = Attempt::new();
        a.stage = stage;
        a
    };
    let e = AttemptEvent::TlsRejected("bad certificate".into());
    assert!(matches!(
        at(Stage::Securing).connect_once(&mut c, &config, &mut m, e),
        AttemptAction::Finish(ConnectOutcome::Fatal(r)) if r == "bad certificate"
    ));
    for answer in [LoginAnswer::Dropped, LoginAnswer::TimedOut] {
        let e = AttemptEvent::Answered(answer);
        assert!(matches!(
            at(Stage::LoggingIn).connect_once(&mut c, &config, &mut m, e),
            AttemptAction::Finish(ConnectOutcome::Reconnect { connected: false })
        ));
    }
    for stage in [Stage::Resolving, Stage::Connecting, Stage::Securing] {
        assert!(matches!(
            at(stage).connect_once(&mut c, &config, &mut m, AttemptEvent::Failed),
            AttemptAction::Finish(ConnectOutcome::Failed)
        ));
    }
    m.set_connected(true);
    let e = AttemptEvent::Registered(RegisterOutcome::ConnLost);
    assert!(matches!(
        at(Stage::Registering).connect_once(&mut c, &config, &mut m, e),
        AttemptAction::Finish(ConnectOutcome::Failed)
    ));
    assert!(!m.is_connected());
    assert!(matches!(
        at(Stage::Connecting).connect_once(&mut c, &config, &mut m, AttemptEvent::Done),
        AttemptAction::Login
    ));
}

#[test]
fn clients_are_built_from_their_configuration() {
    let mut config = client_config("t");
    match Client::new(config.clone(), 30, 10) {
        Err(e) => assert!(e.contains("tls_server_name")),
        Ok(_) => panic!("expected an error"),
    }
    config.client.work_conn_tls = false;
    let c = match Client::new(config, 30, 10) {
        Ok(c) => c.with_heartbeat(3, 1),
        Err(e) => panic!("{e}"),
    };
    assert_eq!((c.heartbeat_interval, c.heartbeat_timeout), (3, 1));
    assert_eq!(c.tls_server_name, None);
    assert_eq!(c.metrics.reconnects_total, 0);
}
