//! The status endpoint of the client.

use vstd::prelude::*;

use super::metrics::{metrics_text, ClientMetrics};
use crate::addr::{host_port, show_host_port};
use crate::config::{ClientConfig, ClientProxy, ClientProxyView};
use crate::http::{
    head_view, page_response, parse_head, parsed_head, plain, respond, status_response, Head,
    HeadView, Response, ResponseView,
};
use crate::msg::ProxyType;
use crate::text::{decimal, has_part, lemma_has_part, same, show};

verus! {

/// What a request asks for.
#[derive(Clone, Copy, Debug, PartialEq, Eq, Structural)]
pub enum Route {
    /// The status page.
    Page,
    /// The state as JSON.
    Status,
    /// The metrics.
    Metrics,
    /// Nothing that there is.
    NotFound,
}

/// The target of a head that was parsed as `parsed`; that of the page where it is
/// not complete or has none.
pub open spec fn path_of(parsed: Result<Option<HeadView>, ()>) -> Seq<char> {
    match parsed {
        Ok(Some(head)) => match head.1 {
            Some(p) => p,
            None => "/"@,
        },
        _ => "/"@,
    }
}

/// What a request for this target asks for.
pub open spec fn route_of(path: Seq<char>) -> Route {
    if path == "/"@ {
        Route::Page
    } else if path == "/api/status"@ {
        Route::Status
    } else if path == "/metrics"@ {
        Route::Metrics
    } else {
        Route::NotFound
    }
}

/// What a request asks for whose head was parsed as `parsed`.
pub fn route_parsed(parsed: &Result<Option<Head>, ()>) -> (r: Route)
    ensures
        r == route_of(path_of(head_view(*parsed))),
{
    let path: &str = match parsed {
        Ok(Some(head)) => match &head.1 {
            Some(p) => p.as_str(),
            None => "/",
        },
        _ => "/",
    };
    if same(path, "/") {
        Route::Page
    } else if same(path, "/api/status") {
        Route::Status
    } else if same(path, "/metrics") {
        Route::Metrics
    } else {
        Route::NotFound
    }
}

/// How a request is answered.
pub enum Reply {
    /// With this.
    Respond(Response),
    /// With the state as JSON.
    Status,
}

/// The answer that is sent, where `json` is the state as JSON.
pub open spec fn sent_for(reply: Reply, json: Seq<char>) -> ResponseView {
    match reply {
        Reply::Respond(r) => r@,
        Reply::Status => plain(200, "application/json"@, json),
    }
}

/// Executable form of [`sent_for`].
pub fn finish_reply(reply: Reply, json: String) -> (r: Response)
    ensures
        r@ == sent_for(reply, json@),
{
    match reply {
        Reply::Respond(r) => r,
        Reply::Status => status_response(json),
    }
}

/// How a request is answered that asks for `route`, after `uptime` seconds.
pub open spec fn reply_for(
    reply: Reply,
    route: Route,
    cfg: ClientConfig,
    m: ClientMetrics,
    version: Seq<char>,
    uptime: u64,
) -> bool {
    match route {
        Route::Page => reply matches Reply::Respond(r) && r@ == plain(
            200,
            "text/html; charset=utf-8"@,
            page_text(cfg, m, version, uptime),
        ),
        Route::Status => reply is Status,
        Route::Metrics => reply matches Reply::Respond(r) && r@ == plain(
            200,
            "text/plain; version=0.0.4"@,
            metrics_text(m, uptime),
        ),
        Route::NotFound => reply matches Reply::Respond(r) && r@ == plain(
            404,
            "text/plain"@,
            "Not Found\n"@,
        ),
    }
}

/// Answers a request that asks for `route`.
pub fn answer(
    route: Route,
    cfg: &ClientConfig,
    metrics: &ClientMetrics,
    version: &str,
    uptime: u64,
) -> (r: Reply)
    ensures
        reply_for(r, route, *cfg, *metrics, version@, uptime),
{
    match route {
        Route::Page => Reply::Respond(page_response(render_html(cfg, metrics, version, uptime))),
        Route::Status => Reply::Status,
        Route::Metrics => Reply::Respond(
            respond(200, "text/plain; version=0.0.4", metrics.render_at(uptime)),
        ),
        Route::NotFound => Reply::Respond(respond(404, "text/plain", "Not Found\n".to_owned())),
    }
}

/// Answers a request with this head.
pub fn handle_request(
    head: &[u8],
    cfg: &ClientConfig,
    metrics: &ClientMetrics,
    version: &str,
    uptime: u64,
) -> (r: Reply)
    ensures
        reply_for(
            r,
            route_of(path_of(parsed_head(head@))),
            *cfg,
            *metrics,
            version@,
            uptime,
        ),
{
    let parsed = parse_head(head);
    answer(route_parsed(&parsed), cfg, metrics, version, uptime)
}

/// A proxy, as it is shown.
#[derive(Clone, Debug)]
pub struct ProxyReport {
    /// Name.
    pub name: String,
    /// What it carries.
    pub kind: ProxyType,
    /// The local service.
    pub local: String,
    /// Public port.
    pub remote_port: Option<u16>,
    /// Domains.
    pub domains: Option<Vec<String>>,
    /// Work connections that are kept ready.
    pub pool_size: u32,
}

/// The state, as it is shown.
#[derive(Clone, Debug)]
pub struct StatusReport {
    /// Version of the program.
    pub version: String,
    /// Seconds since the start.
    pub uptime_seconds: u64,
    /// Whether the control connection is logged in.
    pub connected: bool,
    /// Last round trip, in milliseconds.
    pub rtt_ms: u64,
    /// The server.
    pub server: String,
    /// Whether the control connection uses TLS.
    pub tls: bool,
    /// Whether work connections use TLS.
    pub work_conn_tls: bool,
    /// The proxies.
    pub proxies: Vec<ProxyReport>,
    /// Reconnects of the control connection.
    pub reconnects_total: u64,
    /// Work connections that were established.
    pub work_conns_total: u64,
    /// Work connections that failed.
    pub work_conn_failures_total: u64,
    /// Registrations that were refused.
    pub proxy_register_failures_total: u64,
    /// Proxies that were registered after a retry.
    pub proxy_register_retry_success_total: u64,
}

/// Whether the report shows this proxy.
pub open spec fn shows_proxy(r: ProxyReport, p: ClientProxyView) -> bool {
    &&& r.name@ == p.name
    &&& r.kind == p.kind
    &&& r.local@ == host_port(p.local_ip, p.local_port)
    &&& r.remote_port == p.remote_port
    &&& r.domains.deep_view() == p.custom_domains
    &&& r.pool_size == p.pool_size
}

/// Shows the state, after `uptime` seconds.
pub fn status_json(cfg: &ClientConfig, metrics: &ClientMetrics, version: &str, uptime: u64) -> (r:
    StatusReport)
    ensures
        r.version@ == version@,
        r.uptime_seconds == uptime,
        r.connected == metrics.connected,
        r.rtt_ms == metrics.rtt_ms,
        r.server@ == host_port(cfg.client.server_addr@, cfg.client.server_port),
        r.tls == cfg.client.tls_enable,
        r.work_conn_tls == cfg.client.work_conn_tls,
        r.proxies@.len() == cfg.proxies@.len(),
        forall|i: int|
            0 <= i < r.proxies@.len() ==> shows_proxy(
                #[trigger] r.proxies@[i],
                cfg.proxies@[i].deep_view(),
            ),
        r.reconnects_total == metrics.reconnects_total,
        r.work_conns_total == metrics.work_conns_total,
        r.work_conn_failures_total == metrics.work_conn_failures_total,
        r.proxy_register_failures_total == metrics.proxy_register_failures_total,
        r.proxy_register_retry_success_total == metrics.proxy_register_retry_success_total,
{
    let mut proxies: Vec<ProxyReport> = Vec::new();
    let mut i: usize = 0;
    while i < cfg.proxies.len()
        invariant
            i <= cfg.proxies@.len(),
            proxies@.len() == i,
            forall|j: int|
                0 <= j < i ==> shows_proxy(#[trigger] proxies@[j], cfg.proxies@[j].deep_view()),
        decreases cfg.proxies@.len() - i,
    {
        let p = &cfg.proxies[i];
        proxies.push(
            ProxyReport {
                name: p.name.clone(),
                kind: p.kind,
                local: show_host_port(p.local_ip.as_str(), p.local_port),
                remote_port: p.remote_port,
                domains: crate::config::copy_domains(&p.custom_domains),
                pool_size: p.pool_size,
            },
        );
        i += 1;
    }
    StatusReport {
        version: version.to_owned(),
        uptime_seconds: uptime,
        connected: metrics.is_connected(),
        rtt_ms: metrics.rtt_ms(),
        server: show_host_port(cfg.client.server_addr.as_str(), cfg.client.server_port),
        tls: cfg.client.tls_enable,
        work_conn_tls: cfg.client.work_conn_tls,
        proxies,
        reconnects_total: metrics.reconnects_total,
        work_conns_total: metrics.work_conns_total,
        work_conn_failures_total: metrics.work_conn_failures_total,
        proxy_register_failures_total: metrics.proxy_register_failures_total,
        proxy_register_retry_success_total: metrics.proxy_register_retry_success_total,
    }
}

/// An optional port, as the page shows it.
pub open spec fn port_text(port: Option<u16>) -> Seq<char> {
    match port {
        Some(p) => "Some("@ + decimal(p as nat) + ")"@,
        None => "None"@,
    }
}

/// The row of a proxy.
pub open spec fn row_text(p: ClientProxyView) -> Seq<char> {
    "<tr><td>"@ + p.name + "</td><td>"@ + p.kind.name_text() + "</td><td>"@ + host_port(
        p.local_ip,
        p.local_port,
    ) + "</td><td>"@ + port_text(p.remote_port) + "</td><td>"@ + decimal(p.pool_size as nat)
        + "</td></tr>"@
}

/// The rows of all proxies.
pub open spec fn rows_text(list: Seq<ClientProxyView>) -> Seq<char>
    decreases list.len(),
{
    if list.len() == 0 {
        Seq::empty()
    } else {
        rows_text(list.drop_last()) + row_text(list.last())
    }
}

/// The status page.
pub open spec fn page_text(
    cfg: ClientConfig,
    m: ClientMetrics,
    version: Seq<char>,
    uptime: u64,
) -> Seq<char> {
    "<html><head><title>rfrp client status</title>\
     <meta http-equiv=\"refresh\" content=\"5\"></head><body>\
     <h1>rfrp client <small>v"@
    + version
    + "</small></h1><p>server: "@
    + host_port(cfg.client.server_addr@, cfg.client.server_port)
    + " | connected: "@
    + (if m.connected { "true"@ } else { "false"@ })
    + " | uptime: "@
    + decimal(uptime as nat)
    + "s</p><pre>"@
    + metrics_text(m, uptime)
    + "</pre><h2>Proxies</h2>\
       <table border=1><tr><th>name</th><th>type</th><th>local</th><th>remote_port</th><th>pool</th></tr>"@
    + rows_text(cfg.proxies.deep_view())
    + "</table></body></html>"@
}

/// Executable form of [`row_text`].
fn render_row(p: &ClientProxy) -> (r: String)
    ensures
        r@ == row_text(p.deep_view()),
{
    let mut out = String::from_str("<tr><td>");
    out.append(p.name.as_str());
    out.append("</td><td>");
    out.append(p.kind.name());
    out.append("</td><td>");
    out.append(show_host_port(p.local_ip.as_str(), p.local_port).as_str());
    out.append("</td><td>");
    let port: String = match p.remote_port {
        Some(n) => {
            let mut t = String::from_str("Some(");
            t.append(show(n as u64).as_str());
            t.append(")");
            t
        },
        None => "None".to_owned(),
    };
    out.append(port.as_str());
    out.append("</td><td>");
    out.append(show(p.pool_size as u64).as_str());
    out.append("</td></tr>");
    out
}

/// Executable form of [`page_text`].
pub fn render_html(cfg: &ClientConfig, metrics: &ClientMetrics, version: &str, uptime: u64) -> (r:
    String)
    ensures
        r@ == page_text(*cfg, *metrics, version@, uptime),
{
    let mut rows = String::new();
    let ghost list = cfg.proxies.deep_view();
    let mut i: usize = 0;
    assert(rows@ =~= rows_text(list.take(0)));
    while i < cfg.proxies.len()
        invariant
            i <= cfg.proxies@.len(),
            list == cfg.proxies.deep_view(),
            rows@ == rows_text(list.take(i as int)),
        decreases cfg.proxies@.len() - i,
    {
        rows.append(render_row(&cfg.proxies[i]).as_str());
        assert(list.take(i + 1).drop_last() =~= list.take(i as int));
        assert(list.take(i + 1).last() == cfg.proxies@[i as int].deep_view());
        i += 1;
    }
    assert(list.take(i as int) =~= list);
    let mut out = String::from_str(
        "<html><head><title>rfrp client status</title>\
         <meta http-equiv=\"refresh\" content=\"5\"></head><body>\
         <h1>rfrp client <small>v",
    );
    out.append(version);
    out.append("</small></h1><p>server: ");
    out.append(show_host_port(cfg.client.server_addr.as_str(), cfg.client.server_port).as_str());
    out.append(" | connected: ");
    out.append(
        if metrics.is_connected() {
            "true"
        } else {
            "false"
        },
    );
    out.append(" | uptime: ");
    out.append(show(uptime).as_str());
    out.append("s</p><pre>");
    out.append(metrics.render_at(uptime).as_str());
    out.append(
        "</pre><h2>Proxies</h2>\
         <table border=1><tr><th>name</th><th>type</th><th>local</th><th>remote_port</th><th>pool</th></tr>",
    );
    out.append(rows.as_str());
    out.append("</table></body></html>");
    out
}

/// What the endpoint answers: the page, the state and the metrics at their paths, and
/// nothing else anywhere else.
pub proof fn law_paths_are_answered(
    path: Seq<char>,
    cfg: ClientConfig,
    m: ClientMetrics,
    version: Seq<char>,
    uptime: u64,
    reply: Reply,
    json: Seq<char>,
)
    requires
        reply_for(reply, route_of(path), cfg, m, version, uptime),
    ensures
        ({
            let r = sent_for(reply, json);
            &&& path == "/"@ ==> r == plain(
                200,
                "text/html; charset=utf-8"@,
                page_text(cfg, m, version, uptime),
            )
            &&& path == "/api/status"@ ==> r == plain(200, "application/json"@, json)
            &&& path == "/metrics"@ ==> r == plain(
                200,
                "text/plain; version=0.0.4"@,
                metrics_text(m, uptime),
            )
            &&& path != "/"@ && path != "/api/status"@ && path != "/metrics"@ ==> r.status == 404
        }),
{
    reveal_strlit("/");
    reveal_strlit("/api/status");
    reveal_strlit("/metrics");
    assert("/"@.len() == 1 && "/api/status"@.len() == 11 && "/metrics"@.len() == 8);
}

/// The page shows where the server is, whether the client is connected, the metrics, and
/// each proxy with its name, its local service, its port and its pool.
pub proof fn law_page_shows_client(
    cfg: ClientConfig,
    m: ClientMetrics,
    version: Seq<char>,
    uptime: u64,
    i: int,
)
    ensures
        ({
            let t = page_text(cfg, m, version, uptime);
            let list = cfg.proxies.deep_view();
            &&& has_part(
                t,
                "</small></h1><p>server: "@ + host_port(
                    cfg.client.server_addr@,
                    cfg.client.server_port,
                ) + " | connected: "@ + (if m.connected {
                    "true"@
                } else {
                    "false"@
                }),
            )
            &&& has_part(t, metrics_text(m, uptime))
            &&& 0 <= i < list.len() ==> has_part(
                t,
                "<tr><td>"@ + list[i].name + "</td><td>"@ + list[i].kind.name_text()
                    + "</td><td>"@ + host_port(list[i].local_ip, list[i].local_port)
                    + "</td><td>"@ + port_text(list[i].remote_port) + "</td><td>"@ + decimal(
                    list[i].pool_size as nat,
                ) + "</td></tr>"@,
            )
        }),
{
    let t = page_text(cfg, m, version, uptime);
    let list = cfg.proxies.deep_view();
    let head = "<html><head><title>rfrp client status</title>\
     <meta http-equiv=\"refresh\" content=\"5\"></head><body>\
     <h1>rfrp client <small>v"@ + version;
    let server = "</small></h1><p>server: "@ + host_port(
        cfg.client.server_addr@,
        cfg.client.server_port,
    ) + " | connected: "@ + (if m.connected {
        "true"@
    } else {
        "false"@
    });
    let up = " | uptime: "@ + decimal(uptime as nat) + "s</p><pre>"@;
    let shown = metrics_text(m, uptime);
    let table = "</pre><h2>Proxies</h2>\
       <table border=1><tr><th>name</th><th>type</th><th>local</th><th>remote_port</th><th>pool</th></tr>"@;
    let rows = rows_text(list);
    let end = "</table></body></html>"@;
    assert(t =~= head + server + (up + shown + table + rows + end));
    lemma_has_part(head, server, up + shown + table + rows + end);
    assert(t =~= (head + server + up) + shown + (table + rows + end));
    lemma_has_part(head + server + up, shown, table + rows + end);
    if 0 <= i < list.len() {
        lemma_row_shown(list, i);
        let (a, b) = choose|a: Seq<char>, b: Seq<char>|
            rows == #[trigger] (a + row_text(list[i]) + b);
        assert(t =~= (head + server + up + shown + table + a) + row_text(list[i]) + (b + end));
        lemma_has_part(head + server + up + shown + table + a, row_text(list[i]), b + end);
    }
}

/// The row of each proxy is among the rows.
proof fn lemma_row_shown(list: Seq<ClientProxyView>, i: int)
    requires
        0 <= i < list.len(),
    ensures
        exists|a: Seq<char>, b: Seq<char>| rows_text(list) == #[trigger] (a + row_text(list[i]) + b),
    decreases list.len(),
{
    let t = list.drop_last();
    let row = row_text(list[i]);
    if i == list.len() - 1 {
        assert(rows_text(list) =~= rows_text(t) + row + Seq::<char>::empty());
    } else {
        lemma_row_shown(t, i);
        let (a, b) = choose|a: Seq<char>, b: Seq<char>|
            rows_text(t) == #[trigger] (a + row_text(t[i]) + b);
        assert(rows_text(list) =~= a + row + (b + row_text(list.last())));
    }
}

/// A port is shown by its number, where there is one.
pub proof fn law_port_is_shown(port: u16)
    ensures
        has_part(port_text(Some(port)), decimal(port as nat)),
        port_text(None) == "None"@,
{
    lemma_has_part("Some("@, decimal(port as nat), ")"@);
}

} // verus!
