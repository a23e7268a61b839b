use rfrp::addr::show_host_port;
use rfrp::config::{ProxySection, ServerConfig, ServerSection};
use rfrp::limits::Limits;
use rfrp::rfrps::cli::apply_cli_overrides;
use rfrp::rfrps::server::{
    accept_step, bind_error, bind_vhost_https, classify_first_byte, drain_step, handle_connection,
    listener_step, load_control_tls, AcceptAction, AcceptEvent, FirstAction, FirstByte, FirstFrame,
    Server, Timings,
};
use rfrp::rfrps::state::ServerState;

fn limits() -> Limits {
    Limits {
        max_run_id_len: 64,
        max_token_len: 256,
        max_proxy_name_len: 64,
        max_custom_domains: 16,
        max_domain_len: 253,
        max_proxies_per_session: 8,
        max_pooled_work_conns: 8,
        max_pending_udp_sessions: 64,
        max_active_connections: 5,
        login_failure_limit: 5,
        login_failure_window: 60,
        work_conn_timeout: 10,
    }
}

fn config() -> ServerConfig {
    ServerConfig {
        server: ServerSection {
            bind_addr: "127.0.0.1".into(),
            bind_port: 7000,
            token: "".into(),
            tls_enable: false,
            tls_cert: None,
            tls_key: None,
            work_conn_tls: false,
        },
        dashboard: None,
        proxy: ProxySection {
            allow_ports: "".into(),
            vhost_http_port: None,
            vhost_https_port: None,
            vhost_tls_cert: None,
            vhost_tls_key: None,
        },
    }
}

const TIMINGS: Timings = Timings { heartbeat_interval: 30, heartbeat_timeout: 10, grace: 5 };

#[test]
fn apply_cli_overrides_sets_fields() {
    let mut cfg = config();
    apply_cli_overrides(
        &mut cfg,
        Some(Ok(("0.0.0.0".into(), 8000))),
        Some("token".into()),
        Some(true),
        Some(false),
    )
    .unwrap();
    assert_eq!(cfg.server.bind_addr, "0.0.0.0");
    assert_eq!(cfg.server.bind_port, 8000);
    assert_eq!(cfg.server.token, "token");
    assert!(cfg.server.tls_enable);
    assert!(!cfg.server.work_conn_tls);
}

#[test]
fn apply_cli_overrides_rejects_bad_bind() {
    let mut cfg = config();
    let bad = Some(Err("not-an-addr".to_string()));
    let r = apply_cli_overrides(&mut cfg, bad, Some("x".into()), None, None);
    assert_eq!(r, Err("not-an-addr".to_string()));
    assert_eq!(cfg.server.token, "");
}

#[test]
fn apply_cli_overrides_accepts_hostname_bind() {
    let mut cfg = config();
    apply_cli_overrides(&mut cfg, Some(Ok(("localhost".into(), 7000))), None, None, None).unwrap();
    assert_eq!(cfg.server.bind_addr, "localhost");
    assert_eq!(cfg.server.bind_port, 7000);
}

#[test]
fn silent_connection_is_dropped_by_peek_timeout() {
    assert_eq!(classify_first_byte(None, false), FirstByte::Close);
    assert_eq!(classify_first_byte(None, true), FirstByte::Close);
}

#[test]
fn first_bytes_tell_tls_from_plain() {
    assert_eq!(classify_first_byte(Some(0x16), true), FirstByte::Tls);
    assert_eq!(classify_first_byte(Some(0x16), false), FirstByte::Plain);
    assert_eq!(classify_first_byte(Some(0x01), true), FirstByte::Plain);
}

#[test]
fn first_frames_are_served_as_configured() {
    let mut cfg = config();
    assert_eq!(handle_connection(FirstFrame::Login, false, &cfg), FirstAction::Control);
    assert_eq!(handle_connection(FirstFrame::Login, true, &cfg), FirstAction::Close);
    assert_eq!(handle_connection(FirstFrame::StartWorkConn, false, &cfg), FirstAction::Work);
    assert_eq!(handle_connection(FirstFrame::StartWorkConn, true, &cfg), FirstAction::Work);
    assert_eq!(handle_connection(FirstFrame::Other, false, &cfg), FirstAction::Close);
    cfg.server.tls_enable = true;
    cfg.server.work_conn_tls = true;
    assert_eq!(handle_connection(FirstFrame::Login, false, &cfg), FirstAction::Close);
    assert_eq!(handle_connection(FirstFrame::Login, true, &cfg), FirstAction::Control);
    assert_eq!(handle_connection(FirstFrame::StartWorkConn, false, &cfg), FirstAction::Close);
    assert_eq!(handle_connection(FirstFrame::StartWorkConn, true, &cfg), FirstAction::Work);
}

#[test]
fn tls_files_are_required_where_tls_is_used() {
    let mut cfg = config();
    assert_eq!(load_control_tls(&cfg), Ok(None));
    cfg.server.work_conn_tls = true;
    assert_eq!(
        load_control_tls(&cfg),
        Err("tls_cert is required when tls_enable or work_conn_tls is set".to_string())
    );
    cfg.server.tls_cert = Some("c.pem".into());
    assert_eq!(
        load_control_tls(&cfg),
        Err("tls_key is required when tls_enable or work_conn_tls is set".to_string())
    );
    cfg.server.tls_key = Some("k.pem".into());
    assert_eq!(load_control_tls(&cfg), Ok(Some(("c.pem".into(), "k.pem".into()))));

    assert_eq!(bind_vhost_https(&cfg), Ok(None));
    cfg.proxy.vhost_https_port = Some(443);
    cfg.proxy.vhost_tls_cert = Some("vc.pem".into());
    let missing = "vhost_https_port requires vhost_tls_cert and vhost_tls_key";
    assert_eq!(bind_vhost_https(&cfg), Err(missing));
    match Server::new(cfg.clone(), limits(), TIMINGS) {
        Err(e) => assert_eq!(e, missing),
        Ok(_) => panic!("expected an error"),
    }
    cfg.proxy.vhost_tls_key = Some("vk.pem".into());
    assert_eq!(
        bind_vhost_https(&cfg),
        Ok(Some((443, "vc.pem".to_string(), "vk.pem".to_string())))
    );
}

#[test]
fn servers_are_built_from_their_configuration() {
    let s = match Server::new(config(), limits(), TIMINGS) {
        Ok(s) => s.with_max_active(9).with_grace(77),
        Err(e) => panic!("{e}"),
    };
    assert_eq!(s.state.max_active, 9);
    assert_eq!(s.timings, Timings { grace: 77, ..TIMINGS });
    assert!(s.tls.is_none() && s.vhost_https.is_none());
    let mut cfg = config();
    cfg.server.tls_enable = true;
    assert!(Server::new(cfg, limits(), TIMINGS).is_err());
}

#[test]
fn bind_errors_name_the_address() {
    assert_eq!(
        bind_error("control listener", &show_host_port("0.0.0.0", 7000), "address already in use"),
        "failed to bind control listener 0.0.0.0:7000: address already in use"
    );
}

#[test]
fn accept_errors_end_the_main_loop_only_where_fatal() {
    let mut state = ServerState::new(limits());
    assert_eq!(accept_step(&mut state, AcceptEvent::Accepted), AcceptAction::Serve);
    assert!(state.metrics.is_accepting());
    let e = AcceptEvent::Failed { fatal: false };
    assert_eq!(accept_step(&mut state, e), AcceptAction::Retry);
    assert!(!state.metrics.is_accepting());
    assert_eq!(listener_step(e), AcceptAction::Retry);
    let e = AcceptEvent::Failed { fatal: true };
    assert_eq!(listener_step(e), AcceptAction::Retry);
    assert_eq!(accept_step(&mut state, e), AcceptAction::GiveUp);
    assert_eq!(state.metrics.accepted_total, 1);
    assert_eq!(state.metrics.accept_errors_total, 2);
    assert_eq!(accept_step(&mut state, AcceptEvent::Shutdown), AcceptAction::Drain);
    assert_eq!(listener_step(AcceptEvent::Shutdown), AcceptAction::Drain);
}

#[test]
fn open_connections_have_their_grace() {
    assert_eq!(drain_step(true, 10, 4), Some(6));
    assert_eq!(drain_step(true, 10, 10), None);
    assert_eq!(drain_step(true, 10, 11), None);
    assert_eq!(drain_step(false, 10, 4), None);
}
