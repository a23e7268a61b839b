use rfrp::addr::PeerIp;
use rfrp::limits::Limits;
use rfrp::msg::ProxyType;
use rfrp::rfrps::session::{ProxyEntry, Session};
use rfrp::rfrps::state::ServerState;
use rfrp::rfrps::vhost::{
    find_proxy_by_domain, https_host, judge_head, not_found, read_request_head, route, strip_port,
    HeadStep,
};

fn limits() -> Limits {
    Limits {
        max_run_id_len: 64,
        max_token_len: 256,
        max_proxy_name_len: 64,
        max_custom_domains: 16,
        max_domain_len: 253,
        max_proxies_per_session: 8,
        max_pooled_work_conns: 8,
        max_pending_udp_sessions: 64,
        max_active_connections: 2,
        login_failure_limit: 5,
        login_failure_window: 60,
        work_conn_timeout: 10,
    }
}

fn add(state: &mut ServerState, run_id: &str, domains: &[&str], kind: ProxyType) -> u64 {
    let mut s = Session::new(run_id.into(), "s".into(), PeerIp::V4(0), "tok".into());
    for d in domains {
        s.proxy_domains.insert(d.to_string(), "web".to_string());
    }
    s.proxies.insert(
        "web".into(),
        ProxyEntry { handle: 0, kind, remote_port: None, custom_domains: vec![] },
    );
    let key = state.add_session(s);
    state.sessions.insert(run_id.into(), key);
    key
}

#[test]
fn strip_port_handles_variants() {
    assert_eq!(strip_port("dev.example.com"), "dev.example.com");
    assert_eq!(strip_port("dev.example.com:8080"), "dev.example.com");
    assert_eq!(strip_port("[::1]:8080"), "[::1]:8080");
    assert_eq!(strip_port(""), "");
    assert_eq!(strip_port(":80"), "");
    assert_eq!(strip_port("ä.example:1:2"), "ä.example");
}

#[test]
fn find_proxy_by_domain_finds_and_skips() {
    let mut state = ServerState::new(limits());
    let s1 = add(&mut state, "r1", &["dev.example.com"], ProxyType::Http);
    add(&mut state, "r2", &["other.example.com"], ProxyType::Http);
    state.index_domain("dev.example.com", "r1", "web");
    state.index_domain("other.example.com", "r2", "web");

    let (session, proxy) = find_proxy_by_domain(&state, "dev.example.com").expect("indexed domain");
    assert_eq!(proxy, "web");
    assert_eq!(session, s1, "must resolve to the owner session");

    assert!(find_proxy_by_domain(&state, "missing.example.com").is_none());

    state.unindex_domains(&vec!["dev.example.com".to_string()]);
    assert!(find_proxy_by_domain(&state, "dev.example.com").is_none());
    assert!(find_proxy_by_domain(&state, "other.example.com").is_some());
}

#[test]
fn read_request_head_partial_eof_returns_none() {
    let r = read_request_head(&b"GET / HTTP/1.1\r\nHost: dev.example.com".to_vec());
    assert!(matches!(r, HeadStep::More));
}

#[test]
fn read_request_head_malformed_returns_none() {
    assert!(matches!(read_request_head(&b"garbage\r\n\r\n".to_vec()), HeadStep::Reject));
}

#[test]
fn heads_that_are_too_long_are_rejected() {
    let head = b"GET / HTTP/1.1\r\nX: ".to_vec();
    let mut long = head.clone();
    long.resize(64 * 1024, b'a');
    assert!(matches!(read_request_head(&long), HeadStep::More));
    long.push(b'a');
    assert!(matches!(read_request_head(&long), HeadStep::Reject));
    assert!(matches!(judge_head(&Ok(None), 65536), HeadStep::More));
    assert!(matches!(judge_head(&Ok(None), 65537), HeadStep::Reject));
    assert!(matches!(judge_head(&Err(()), 0), HeadStep::Reject));
    // More headers than there is room for.
    let mut many = String::from("GET / HTTP/1.1\r\n");
    for i in 0..33 {
        many.push_str(&format!("h{i}: x\r\n"));
    }
    many.push_str("\r\n");
    assert!(matches!(read_request_head(&many.into_bytes()), HeadStep::Reject));
}

#[test]
fn hosts_are_those_of_the_first_host_header() {
    for (head, expected) in [
        (&b"GET / HTTP/1.1\r\nA: b\r\nhOsT: Dev.example.com:81\r\nHost: other\r\n\r\n"[..], "Dev.example.com"),
        (&b"GET / HTTP/1.1\r\n\r\n"[..], ""),
        (&b"GET / HTTP/1.1\r\nHost: \xff\xfe\r\n\r\n"[..], ""),
        (&b"GET / HTTP/1.1\r\nHost: [::1]:80\r\n\r\nbody"[..], "[::1]:80"),
    ] {
        match read_request_head(&head.to_vec()) {
            HeadStep::Host(h) => assert_eq!(h, expected),
            _ => panic!("expected a host"),
        }
    }
}

#[test]
fn route_and_dispatch_type_mismatch_ok() {
    let mut state = ServerState::new(limits());
    let key = add(&mut state, "r", &["dev.example.com"], ProxyType::Tcp);
    state.index_domain("dev.example.com", "r", "web");
    assert!(route(&state, "dev.example.com", ProxyType::Http).is_none());
    assert_eq!(
        route(&state, "DEV.example.COM", ProxyType::Tcp),
        Some((key, "web".to_string()))
    );
    assert!(route(&state, "missing.example.com", ProxyType::Tcp).is_none());
    let r = not_found();
    assert_eq!(r.status, 404);
    assert_eq!(r.content_type, "text/plain; charset=utf-8");
    assert_eq!(r.body, "404 Not Found: no rfrp proxy matched this vhost\n");
}

#[test]
fn handshake_names_count_where_they_lead_to_a_proxy() {
    let mut state = ServerState::new(limits());
    add(&mut state, "r", &["a.example.com"], ProxyType::Https);
    state.index_domain("a.example.com", "r", "web");
    let host = || "b.example.com".to_string();
    assert_eq!(https_host(&state, Some("a.example.com".into()), host()), "a.example.com");
    assert_eq!(https_host(&state, Some("c.example.com".into()), host()), "b.example.com");
    assert_eq!(https_host(&state, None, host()), "b.example.com");
}
