use base64::Engine;
use rfrp::addr::PeerIp;
use rfrp::config::DashboardSection;
use rfrp::http::Response;
use rfrp::limits::Limits;
use rfrp::msg::ProxyType;
use rfrp::rfrps::basic::{basic_token, cookie_value, decode_basic, encode_basic};
use rfrp::rfrps::dashboard::{finish_reply, handle_request, login_reply, ParsedHead, Reply};
use rfrp::rfrps::form::{body_start, parse_login_form, percent_decode, read_body};
use rfrp::rfrps::pages::{html_escape, render_html, render_login_page, replace_all, script_escape};
use rfrp::rfrps::session::{ProxyEntry, Session};
use rfrp::rfrps::state::ServerState;
use rfrp::rfrps::status::status_json;

const SESSION_COOKIE: &str = "rfrp_dashboard";

fn limits() -> Limits {
    Limits {
        max_run_id_len: 64,
        max_token_len: 256,
        max_proxy_name_len: 64,
        max_custom_domains: 16,
        max_domain_len: 253,
        max_proxies_per_session: 8,
        max_pooled_work_conns: 8,
        max_pending_udp_sessions: 64,
        max_active_connections: 2,
        login_failure_limit: 5,
        login_failure_window: 60,
        work_conn_timeout: 10,
    }
}

fn cfg() -> DashboardSection {
    DashboardSection {
        addr: "127.0.0.1:7500".into(),
        user: "admin".into(),
        password: "secret123".into(),
    }
}

fn parsed(head: &str) -> ParsedHead {
    ParsedHead::parse(head.as_bytes())
}

fn encode(s: &str) -> String {
    base64::engine::general_purpose::STANDARD.encode(s)
}

fn respond(head: &str) -> Response {
    match handle_request(head.as_bytes(), &cfg(), &ServerState::new(limits()), true, 7) {
        Reply::Respond(r) => r,
        _ => panic!("expected a plain response to {head}"),
    }
}

fn get(path: &str, auth: bool) -> Reply {
    let auth = if auth {
        format!("Authorization: Basic {}\r\n", encode("admin:secret123"))
    } else {
        String::new()
    };
    let head = format!("GET {path} HTTP/1.1\r\n{auth}\r\n");
    handle_request(head.as_bytes(), &cfg(), &ServerState::new(limits()), true, 7)
}

#[test]
fn authorized_accepts_valid_credentials() {
    let auth = encode("admin:secret123");
    let head = format!("GET / HTTP/1.1\r\nAuthorization: Basic {auth}\r\n\r\n");
    assert!(parsed(&head).authorized(&cfg()));
}

#[test]
fn authorized_rejects_wrong_credentials() {
    let cfg = cfg();
    let auth = encode("admin:wrongpass");
    let head = format!("GET / HTTP/1.1\r\nAuthorization: Basic {auth}\r\n\r\n");
    assert!(!parsed(&head).authorized(&cfg));
}

#[test]
fn authorized_rejects_malformed() {
    let cfg = cfg();
    assert!(!parsed("GET / HTTP/1.1\r\n\r\n").authorized(&cfg), "no auth header");
    let head = "GET / HTTP/1.1\r\nAuthorization: Basic !!!\r\n\r\n";
    assert!(!parsed(head).authorized(&cfg), "invalid base64");
    let auth = encode("adminsecret123");
    let head = format!("GET / HTTP/1.1\r\nAuthorization: Basic {auth}\r\n\r\n");
    assert!(!parsed(&head).authorized(&cfg));
}

#[test]
fn authorized_accepts_session_cookie() {
    let cfg = cfg();
    let value = encode("admin:secret123");
    let head = format!("GET / HTTP/1.1\r\nCookie: theme=dark; {SESSION_COOKIE}={value}\r\n\r\n");
    assert!(parsed(&head).authorized(&cfg));
    let bad = encode("admin:wrong");
    let head = format!("GET / HTTP/1.1\r\nCookie: {SESSION_COOKIE}={bad}\r\n\r\n");
    assert!(!parsed(&head).authorized(&cfg));
}

#[test]
fn the_header_decides_before_the_cookie() {
    let cfg = cfg();
    let good = encode("admin:secret123");
    let bad = encode("admin:wrong");
    let head = format!(
        "GET / HTTP/1.1\r\nAuthorization: Basic {bad}\r\nCookie: {SESSION_COOKIE}={good}\r\n\r\n"
    );
    assert!(!parsed(&head).authorized(&cfg));
    let head = format!(
        "GET / HTTP/1.1\r\nAuthorization: Basic !!!\r\nCookie: {SESSION_COOKIE}={good}\r\n\r\n"
    );
    assert!(parsed(&head).authorized(&cfg));
    assert_eq!(basic_token(&Some("Basic  abc ".into())).as_deref(), Some("abc"));
    assert_eq!(basic_token(&Some("Bearer abc".into())), None);
    assert_eq!(basic_token(&None), None);
}

#[test]
fn credentials_are_cut_at_the_first_colon() {
    assert_eq!(decode_basic(&encode("a:b:c")), Some(("a".into(), "b:c".into())));
    assert_eq!(decode_basic(&encode(":")), Some(("".into(), "".into())));
    assert_eq!(decode_basic("/w=="), None, "not UTF-8");
    assert_eq!(encode_basic("admin", "secret123"), encode("admin:secret123"));
    assert_eq!(
        decode_basic(&encode_basic("admin", "secret123")),
        Some(("admin".into(), "secret123".into()))
    );
}

#[test]
fn cookies_are_found_by_name() {
    assert_eq!(cookie_value("a=1; b = 2 ;c=3=4", "b").as_deref(), Some("2"));
    assert_eq!(cookie_value("a=1; b = 2 ;c=3=4", "c").as_deref(), Some("3=4"));
    assert_eq!(cookie_value("novalue; a=1; a=2", "a").as_deref(), Some("1"));
    assert_eq!(cookie_value("a=1", "b"), None);
    assert_eq!(cookie_value("", "b"), None);
}

#[test]
fn login_form_parses_urlencoded_credentials() {
    let (u, p) = parse_login_form(b"user=admin&password=secret123");
    assert_eq!(u, "admin");
    assert_eq!(p, "secret123");
    let (u, p) = parse_login_form(b"username=a%40b.com&password=p%2Bq+r");
    assert_eq!(u, "a@b.com");
    assert_eq!(p, "p+q r");
    let (u, p) = parse_login_form(b"remember=1");
    assert!(u.is_empty() && p.is_empty());
    let (u, p) = parse_login_form(b"user=a&pass=b&user=c&novalue&us%65r=d");
    assert_eq!((u.as_str(), p.as_str()), ("d", "b"));
}

#[test]
fn form_texts_decode_to_what_was_written() {
    assert_eq!(percent_decode("a+b"), "a b");
    assert_eq!(percent_decode("%4+1"), "%4 1");
    assert_eq!(percent_decode("%+%+"), "% % ");
    // A plus sign parts the two sides, though neither is valid UTF-8.
    assert_eq!(percent_decode("%E7%94+%A8"), "\u{fffd} \u{fffd}");
    assert_eq!(
        percent_decode("%E7%94+%A8x%F0%90%80World"),
        format!("{} {}", percent_decode("%E7%94"), percent_decode("%A8x%F0%90%80World"))
    );
    assert_eq!(percent_decode("Hello+%F0%90%80World"), "Hello \u{fffd}World");
    assert_eq!(percent_decode("plain/用户-text"), "plain/用户-text");
    for written in ["p%2bq%25", "%70%2Bq%25"] {
        assert_eq!(percent_decode(written), "p+q%");
    }
}

#[test]
fn percent_signs_that_escape_nothing_stay() {
    assert_eq!(percent_decode("100%"), "100%");
    assert_eq!(percent_decode("%4"), "%4");
    assert_eq!(percent_decode("%zz%41"), "%zzA");
    assert_eq!(percent_decode("%E7%94%A8+%e6%88%b7"), "用 户");
    assert_eq!(percent_decode("%ff"), "\u{fffd}");
}

#[test]
fn login_page_has_form_and_no_raw_error() {
    let html = render_login_page(Some("<script>alert(1)</script>"));
    assert!(html.contains("method=\"post\" action=\"/login\""));
    assert!(
        !html.contains("<script>alert(1)</script>"),
        "error text must be escaped: {html}"
    );
    assert!(html.contains("<p class=\"error\">&lt;script&gt;alert(1)&lt;/script&gt;</p>"));
    assert!(!render_login_page(None).contains("class=\"error\""));
    assert_eq!(html_escape("a&b\"'"), "a&amp;b&quot;&#39;");
}

fn report_text(state: &ServerState) -> String {
    let r = status_json(state, "1.0", 0);
    let rows: Vec<serde_json::Value> = r
        .proxy_stats
        .iter()
        .map(|s| {
            let mut m = serde_json::Map::new();
            m.insert("name".into(), s.name.clone().into());
            m.insert("connections_total".into(), s.stats.connections_total.into());
            serde_json::Value::Object(m)
        })
        .collect();
    serde_json::to_string(&serde_json::Value::Array(rows)).unwrap()
}

#[test]
fn render_html_escapes_proxy_names() {
    let mut state = ServerState::new(limits());
    let evil = "<script>alert(1)</script>";
    let mut st = state.proxy_stats_for(evil);
    st.connections_total += 1;
    state.proxy_stats.insert(evil.into(), st);

    let template = "<h1>v__VERSION__</h1><script type=\"application/json\">__BOOTSTRAP__</script>";
    let text = report_text(&state);
    let html = render_html(template, "1.0", &text);
    assert!(
        !html.contains("<script>alert(1)</script>"),
        "raw proxy name must not be injected: {html}"
    );
    assert!(
        html.contains("\\u003cscript\\u003ealert(1)\\u003c/script\\u003e"),
        "escaped JSON proxy name expected: {html}"
    );
    assert!(html.starts_with("<h1>v1.0</h1>"));
    // The embedded text is still the same JSON.
    let embedded: serde_json::Value = serde_json::from_str(&script_escape(&text)).unwrap();
    let plain: serde_json::Value = serde_json::from_str(&text).unwrap();
    assert_eq!(embedded, plain);
    assert_eq!(script_escape("a<b>&"), "a\\u003cb\\u003e\\u0026");
}

#[test]
fn replacing_is_that_of_std() {
    for (s, from, to) in [("aaa", "aa", "b"), ("", "x", "y"), ("xyx", "x", ""), ("abc", "d", "e")] {
        assert_eq!(replace_all(s, from, to), s.replace(from, to));
    }
}

#[test]
fn status_json_includes_proxy_details() {
    let mut state = ServerState::new(limits());
    let mut session = Session::new("r".into(), "s".into(), PeerIp::V4(0), "tok".into());
    session.proxies.insert(
        "web".into(),
        ProxyEntry {
            handle: 0,
            kind: ProxyType::Http,
            remote_port: None,
            custom_domains: vec!["dev.example.com".into()],
        },
    );
    session.proxies.insert(
        "ssh".into(),
        ProxyEntry {
            handle: 0,
            kind: ProxyType::Tcp,
            remote_port: Some(6000),
            custom_domains: vec![],
        },
    );
    let key = state.add_session(session);
    state.sessions.insert("r".into(), key);

    let report = status_json(&state, "1.2.3", 9);
    let proxies = &report.sessions[0].proxies;
    let by_name = |n: &str| proxies.iter().find(|p| p.name == n).unwrap();
    assert_eq!(by_name("ssh").remote_port, Some(6000));
    assert_eq!(by_name("web").domains[0], "dev.example.com");
    assert_eq!(report.sessions[0].run_id, "r");
    assert_eq!(report.version, "1.2.3");
    assert_eq!(report.uptime_seconds, 9);
    assert_eq!(report.gauges.proxies, 2);
    assert!(report.accepting);
}

#[test]
fn status_lists_counters_by_name() {
    let mut state = ServerState::new(limits());
    for n in ["b", "a", "ab", "", "c"] {
        state.proxy_stats_for(n);
    }
    let report = status_json(&state, "", 0);
    let names: Vec<&str> = report.proxy_stats.iter().map(|s| s.name.as_str()).collect();
    assert_eq!(names, vec!["", "a", "ab", "b", "c"]);
}

#[test]
fn dashboard_requires_auth() {
    assert_eq!(respond("GET /api/status HTTP/1.1\r\n\r\n").status, 401);
    assert!(matches!(get("/api/status", true), Reply::Status));
}

#[test]
fn dashboard_metrics_and_page() {
    match get("/metrics", true) {
        Reply::Respond(r) => {
            assert_eq!(r.status, 200);
            assert_eq!(r.content_type, "text/plain; version=0.0.4");
            assert!(r.body.contains("rfrp_connections_total"));
            assert!(r.body.contains("rfrp_active_connections"));
            assert!(r.body.contains("rfrp_uptime_seconds 7\n"));
        }
        _ => panic!("expected metrics"),
    }
    assert!(matches!(get("/", true), Reply::Page));
    match get("/nope", true) {
        Reply::Respond(r) => assert_eq!((r.status, r.body.as_str()), (404, "Not Found\n")),
        _ => panic!("expected nothing"),
    }
}

#[test]
fn page_and_status_are_answered_with_their_types() {
    let r = finish_reply(get("/", true), "<p>".into()).expect("an answer");
    assert_eq!((r.status, r.content_type, r.body.as_str()), (200, "text/html; charset=utf-8", "<p>"));
    assert_eq!(r.headers, None);
    let r = finish_reply(get("/api/status", true), "{}".into()).expect("an answer");
    assert_eq!((r.status, r.content_type, r.body.as_str()), (200, "application/json", "{}"));
    assert!(finish_reply(Reply::ReadForm(3), String::new()).is_none());
    for (path, status) in [("/metrics", 200), ("/logout", 302), ("/nope", 404), ("/api", 404)] {
        let r = finish_reply(get(path, true), String::new()).expect("an answer");
        assert_eq!(r.status, status, "{path}");
        let r = finish_reply(get(path, false), String::new()).expect("an answer");
        assert_eq!((r.status, r.body.as_str()), (401, "Unauthorized\n"), "{path}");
    }
}

#[test]
fn dashboard_rate_limits_excess_requests() {
    let state = ServerState::new(limits());
    match handle_request(b"GET /healthz HTTP/1.1\r\n\r\n", &cfg(), &state, false, 0) {
        Reply::Respond(r) => {
            assert_eq!((r.status, r.body.as_str()), (429, "Too Many Requests\n"))
        }
        _ => panic!("expected a refusal"),
    }
}

#[test]
fn dashboard_browser_gets_login_page() {
    let r = respond("GET / HTTP/1.1\r\nAccept: Text/HTML,application/xml\r\n\r\n");
    assert_eq!(r.status, 401);
    assert!(r.body.contains("action=\"/login\"") && r.body.contains("type=\"password\""));
    assert_eq!(r.headers.as_deref(), Some("Cache-Control: no-store"));
    assert_eq!(respond("GET /login HTTP/1.1\r\n\r\n").content_type, "text/html; charset=utf-8");
}

#[test]
fn dashboard_unauthorized_api_keeps_basic_challenge() {
    let r = respond("GET /api/status HTTP/1.1\r\n\r\n");
    assert_eq!(r.status, 401);
    assert_eq!(r.body, "Unauthorized\n");
    assert_eq!(
        r.headers.as_deref(),
        Some("WWW-Authenticate: Basic realm=\"rfrp dashboard\"")
    );
}

#[test]
fn dashboard_form_login_grants_cookie_session() {
    let head = "POST /login HTTP/1.1\r\nContent-Length: 29\r\n\r\n";
    let state = ServerState::new(limits());
    let n = match handle_request(head.as_bytes(), &cfg(), &state, true, 0) {
        Reply::ReadForm(n) => n,
        _ => panic!("expected a form"),
    };
    assert_eq!(n, 29);
    let r = login_reply(&cfg(), b"user=admin&password=secret123");
    assert_eq!(r.status, 302);
    let value = encode("admin:secret123");
    assert_eq!(
        r.headers.as_deref(),
        Some(
            format!(
                "Location: /\r\nSet-Cookie: {SESSION_COOKIE}={value}; HttpOnly; SameSite=Strict; Path=/"
            )
            .as_str()
        )
    );
    let head = format!("GET / HTTP/1.1\r\nCookie: {SESSION_COOKIE}={value}\r\n\r\n");
    assert!(matches!(
        handle_request(head.as_bytes(), &cfg(), &state, true, 0),
        Reply::Page
    ));
    let r = login_reply(&cfg(), b"user=admin&password=wrong");
    assert_eq!(r.status, 401);
    assert!(r.body.contains("action=\"/login\""));
    assert!(r.body.contains("用户名或密码错误"));
    assert!(!r.headers.unwrap().contains("Set-Cookie"));
}

#[test]
fn other_requests_of_the_dashboard() {
    let r = respond("GET /healthz HTTP/1.1\r\n\r\n");
    assert_eq!((r.status, r.body.as_str()), (200, "ok\n"));
    let mut state = ServerState::new(limits());
    state.metrics.inc_accept_error();
    match handle_request(b"GET /healthz HTTP/1.1\r\n\r\n", &cfg(), &state, true, 0) {
        Reply::Respond(r) => {
            assert_eq!((r.status, r.body.as_str()), (503, "unhealthy: accept loop failing\n"))
        }
        _ => panic!("expected the health check"),
    }
    let r = respond("POST /login HTTP/1.1\r\nContent-Length: 4097\r\n\r\n");
    assert_eq!((r.status, r.body.as_str()), (400, "Bad Request\n"));
    match get("/login", true) {
        Reply::Respond(r) => assert_eq!(r.headers.as_deref(), Some("Location: /")),
        _ => panic!("expected a redirect"),
    }
    match get("/logout", true) {
        Reply::Respond(r) => {
            assert_eq!(r.status, 302);
            assert_eq!(
                r.headers.as_deref(),
                Some(
                    "Location: /\r\nSet-Cookie: rfrp_dashboard=; Max-Age=0; HttpOnly; SameSite=Strict; Path=/"
                )
            );
        }
        _ => panic!("expected a redirect"),
    }
}

#[test]
fn heads_are_read_with_their_last_headers() {
    let h = parsed(
        "PUT /x HTTP/1.1\r\nContent-Length: 1\r\ncontent-length:  +22 \r\nAccept: */*\r\nCOOKIE: a\r\n\r\n",
    );
    assert_eq!((h.method.as_str(), h.path.as_str()), ("PUT", "/x"));
    assert_eq!(h.content_length, 22);
    assert!(!h.accept_html);
    assert_eq!(h.cookie.as_deref(), Some("a"));
    let h = parsed("GET /y HTTP/1.1\r\nContent-Length: x\r\n\r\n");
    assert_eq!(h.content_length, 0);
    // What is not a complete head counts for nothing.
    for head in ["GET /y HTTP/1.1\r\nCookie: a\r\n", "nonsense\r\n\r\n", ""] {
        let h = parsed(head);
        assert_eq!((h.method.as_str(), h.path.as_str()), ("GET", "/"), "{head}");
        assert_eq!(h.cookie, None);
    }
}

#[test]
fn bodies_are_read_up_to_their_length() {
    let head = b"POST /login HTTP/1.1\r\n\r\nabc";
    assert_eq!(body_start(head), 24);
    assert_eq!(body_start(b"no end"), 6);
    assert_eq!(read_body(head, 2, &vec![]), b"ab");
    assert_eq!(read_body(head, 3, &vec![b"d".to_vec()]), b"abc");
    assert_eq!(read_body(head, 6, &vec![b"de".to_vec(), b"fgh".to_vec()]), b"abcdef");
    assert_eq!(read_body(head, 9, &vec![b"de".to_vec()]), b"abcde");
}
