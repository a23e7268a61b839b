//! The main port: what a new connection is, and when the server stops.

use vstd::prelude::*;

use super::metrics::Metrics;
use super::state::{ServerState, StateView};
use crate::clock::elapsed_since;
use crate::config::ServerConfig;
use crate::counter::wrapped_sum;
use crate::limits::{Limits, TLS_HANDSHAKE_BYTE};

verus! {

/// How a new connection is read on.
#[derive(Clone, Copy, Debug, PartialEq, Eq, Structural)]
pub enum FirstByte {
    /// Nothing came: close.
    Close,
    /// As TLS.
    Tls,
    /// As it is.
    Plain,
}

/// How a connection is read on whose first byte is `first`, where one came in time.
pub open spec fn first_byte_means(first: Option<u8>, has_tls: bool) -> FirstByte {
    match first {
        None => FirstByte::Close,
        Some(b) => if has_tls && b == TLS_HANDSHAKE_BYTE {
            FirstByte::Tls
        } else {
            FirstByte::Plain
        },
    }
}

/// How a connection is read on whose first byte is `first`, where one came in time.
/// Only a server that has a certificate speaks TLS.
pub fn classify_first_byte(first: Option<u8>, has_tls: bool) -> (r: FirstByte)
    ensures
        r == first_byte_means(first, has_tls),
        r == (match first {
            None => FirstByte::Close,
            Some(b) => if has_tls && b == TLS_HANDSHAKE_BYTE {
                FirstByte::Tls
            } else {
                FirstByte::Plain
            },
        }),
{
    match first {
        None => FirstByte::Close,
        Some(b) => if has_tls && b == TLS_HANDSHAKE_BYTE {
            FirstByte::Tls
        } else {
            FirstByte::Plain
        },
    }
}

/// The type of a first frame.
#[derive(Clone, Copy, Debug, PartialEq, Eq, Structural)]
pub enum FirstFrame {
    /// A login.
    Login,
    /// The start of a work connection.
    StartWorkConn,
    /// Anything else.
    Other,
}

/// What a new connection is served as.
#[derive(Clone, Copy, Debug, PartialEq, Eq, Structural)]
pub enum FirstAction {
    /// As a control connection.
    Control,
    /// As a work connection.
    Work,
    /// Not at all.
    Close,
}

/// What a connection is served as, where `tls_enable` and `work_conn_tls` say what the
/// server asks of control and of work connections.
pub open spec fn served_as(
    frame: FirstFrame,
    is_tls: bool,
    tls_enable: bool,
    work_conn_tls: bool,
) -> FirstAction {
    match frame {
        FirstFrame::Login => if tls_enable == is_tls {
            FirstAction::Control
        } else {
            FirstAction::Close
        },
        FirstFrame::StartWorkConn => if work_conn_tls && !is_tls {
            FirstAction::Close
        } else {
            FirstAction::Work
        },
        FirstFrame::Other => FirstAction::Close,
    }
}

/// What a connection is served as: control connections use TLS exactly where the
/// configuration says so, and work connections at least where it says so.
pub fn handle_connection(frame: FirstFrame, is_tls: bool, config: &ServerConfig) -> (r: FirstAction)
    ensures
        r == served_as(frame, is_tls, config.server.tls_enable, config.server.work_conn_tls),
        r == (match frame {
            FirstFrame::Login => if config.server.tls_enable == is_tls {
                FirstAction::Control
            } else {
                FirstAction::Close
            },
            FirstFrame::StartWorkConn => if config.server.work_conn_tls && !is_tls {
                FirstAction::Close
            } else {
                FirstAction::Work
            },
            FirstFrame::Other => FirstAction::Close,
        }),
{
    match frame {
        FirstFrame::Login => {
            if config.server.tls_enable && !is_tls {
                return FirstAction::Close;
            }
            if !config.server.tls_enable && is_tls {
                return FirstAction::Close;
            }
            FirstAction::Control
        },
        FirstFrame::StartWorkConn => {
            if config.server.work_conn_tls && !is_tls {
                return FirstAction::Close;
            }
            FirstAction::Work
        },
        FirstFrame::Other => FirstAction::Close,
    }
}

/// The error of a missing TLS setting.
pub open spec fn missing_field(field: Seq<char>) -> Seq<char> {
    field + " is required when tls_enable or work_conn_tls is set"@
}

/// Executable form of [`missing_field`].
fn missing(field: &str) -> (r: String)
    ensures
        r@ == missing_field(field@),
{
    let mut out = field.to_owned();
    out.append(" is required when tls_enable or work_conn_tls is set");
    out
}

/// Whether these are the certificate and key files of the main port, or what is missing.
pub open spec fn control_files(
    r: Result<Option<(String, String)>, String>,
    s: crate::config::ServerSection,
) -> bool {
    let used = s.tls_enable || s.work_conn_tls;
    match r {
        Ok(None) => !used,
        Ok(Some(p)) => used && s.tls_cert.deep_view() == Some(p.0@) && s.tls_key.deep_view()
            == Some(p.1@),
        Err(e) => used && if s.tls_cert is None {
            e@ == missing_field("tls_cert"@)
        } else {
            s.tls_key is None && e@ == missing_field("tls_key"@)
        },
    }
}

/// Whether these are port, certificate and key file of the shared HTTPS listener, or what
/// is missing.
pub open spec fn vhost_files(
    r: Result<Option<(u16, String, String)>, &'static str>,
    p: crate::config::ProxySection,
) -> bool {
    match r {
        Ok(None) => p.vhost_https_port is None,
        Ok(Some(t)) => p.vhost_https_port == Some(t.0) && p.vhost_tls_cert.deep_view() == Some(t.1@)
            && p.vhost_tls_key.deep_view() == Some(t.2@),
        Err(e) => p.vhost_https_port is Some && (p.vhost_tls_cert is None || p.vhost_tls_key
            is None) && e@ == "vhost_https_port requires vhost_tls_cert and vhost_tls_key"@,
    }
}

/// The certificate and key files of the main port: none where neither kind of
/// connection uses TLS, and an error where they do and one is missing.
pub fn load_control_tls(config: &ServerConfig) -> (r: Result<Option<(String, String)>, String>)
    ensures
        control_files(r, config.server),
        ({
            let s = config.server;
            let used = s.tls_enable || s.work_conn_tls;
            match r {
                Ok(None) => !used,
                Ok(Some(p)) => used && s.tls_cert.deep_view() == Some(p.0@)
                    && s.tls_key.deep_view() == Some(p.1@),
                Err(e) => used && if s.tls_cert is None {
                    e@ == missing_field("tls_cert"@)
                } else {
                    s.tls_key is None && e@ == missing_field("tls_key"@)
                },
            }
        }),
{
    if !(config.server.tls_enable || config.server.work_conn_tls) {
        return Ok(None);
    }
    match &config.server.tls_cert {
        None => Err(missing("tls_cert")),
        Some(cert) => match &config.server.tls_key {
            None => Err(missing("tls_key")),
            Some(key) => Ok(Some((cert.clone(), key.clone()))),
        },
    }
}

/// Port, certificate and key file of the shared HTTPS listener: none where there is
/// no port, and an error where a file is missing.
pub fn bind_vhost_https(config: &ServerConfig) -> (r: Result<
    Option<(u16, String, String)>,
    &'static str,
>)
    ensures
        vhost_files(r, config.proxy),
        ({
            let p = config.proxy;
            match r {
                Ok(None) => p.vhost_https_port is None,
                Ok(Some(t)) => p.vhost_https_port == Some(t.0) && p.vhost_tls_cert.deep_view()
                    == Some(t.1@) && p.vhost_tls_key.deep_view() == Some(t.2@),
                Err(e) => p.vhost_https_port is Some && (p.vhost_tls_cert is None
                    || p.vhost_tls_key is None) && e@
                    == "vhost_https_port requires vhost_tls_cert and vhost_tls_key"@,
            }
        }),
{
    match config.proxy.vhost_https_port {
        None => Ok(None),
        Some(port) => match (&config.proxy.vhost_tls_cert, &config.proxy.vhost_tls_key) {
            (Some(cert), Some(key)) => Ok(Some((port, cert.clone(), key.clone()))),
            _ => Err("vhost_https_port requires vhost_tls_cert and vhost_tls_key"),
        },
    }
}

/// The error of a listener that could not be bound, with its address.
pub fn bind_error(what: &str, addr: &str, detail: &str) -> (r: String)
    ensures
        r@ == "failed to bind "@ + what@ + " "@ + addr@ + ": "@ + detail@,
{
    let mut out = String::from_str("failed to bind ");
    out.append(what);
    out.append(" ");
    out.append(addr);
    out.append(": ");
    out.append(detail);
    out
}

/// What happened on the main port.
#[derive(Clone, Copy, Debug, PartialEq, Eq, Structural)]
pub enum AcceptEvent {
    /// A connection came.
    Accepted,
    /// Accepting failed; `fatal` where it has failed too often in a row.
    Failed { fatal: bool },
    /// The server is to shut down.
    Shutdown,
}

/// What is done about it.
#[derive(Clone, Copy, Debug, PartialEq, Eq, Structural)]
pub enum AcceptAction {
    /// Serve the connection.
    Serve,
    /// Wait a little and go on.
    Retry,
    /// Give up: a supervisor is to start the server again.
    GiveUp,
    /// Accept no more and let open connections end.
    Drain,
}

/// The metrics after an event on the main port.
pub open spec fn accept_metrics(m: Metrics, event: AcceptEvent) -> Metrics {
    match event {
        AcceptEvent::Accepted => Metrics {
            accepted_total: wrapped_sum(m.accepted_total, 1),
            accepting: true,
            ..m
        },
        AcceptEvent::Failed { .. } => Metrics {
            accept_errors_total: wrapped_sum(m.accept_errors_total, 1),
            accepting: false,
            ..m
        },
        AcceptEvent::Shutdown => m,
    }
}

/// What is done about an event on the main port.
pub open spec fn accept_action(event: AcceptEvent) -> AcceptAction {
    match event {
        AcceptEvent::Accepted => AcceptAction::Serve,
        AcceptEvent::Failed { fatal } => if fatal {
            AcceptAction::GiveUp
        } else {
            AcceptAction::Retry
        },
        AcceptEvent::Shutdown => AcceptAction::Drain,
    }
}

/// What is done about an event on any other port.
pub open spec fn listener_action(event: AcceptEvent) -> AcceptAction {
    match event {
        AcceptEvent::Accepted => AcceptAction::Serve,
        AcceptEvent::Failed { .. } => AcceptAction::Retry,
        AcceptEvent::Shutdown => AcceptAction::Drain,
    }
}

/// How long to wait on for open connections.
pub open spec fn drain_wait(tasks_left: bool, deadline: u128, now: u128) -> Option<u128> {
    if tasks_left && now < deadline {
        Some((deadline - now) as u128)
    } else {
        None
    }
}

/// One step of the accept loop of the main port.
pub fn accept_step(state: &mut ServerState, event: AcceptEvent) -> (r: AcceptAction)
    ensures
        r == accept_action(event),
        final(state)@ == (StateView {
            metrics: accept_metrics(old(state)@.metrics, event),
            ..old(state)@
        }),
        r == (match event {
            AcceptEvent::Accepted => AcceptAction::Serve,
            AcceptEvent::Failed { fatal } => if fatal {
                AcceptAction::GiveUp
            } else {
                AcceptAction::Retry
            },
            AcceptEvent::Shutdown => AcceptAction::Drain,
        }),
        old(state)@.wf() ==> final(state)@.wf(),
{
    match event {
        AcceptEvent::Accepted => {
            state.metrics.inc_accepted();
            AcceptAction::Serve
        },
        AcceptEvent::Failed { fatal } => {
            state.metrics.inc_accept_error();
            if fatal {
                AcceptAction::GiveUp
            } else {
                AcceptAction::Retry
            }
        },
        AcceptEvent::Shutdown => AcceptAction::Drain,
    }
}

/// One step of any other accept loop: only a shutdown ends it.
pub fn listener_step(event: AcceptEvent) -> (r: AcceptAction)
    ensures
        r == listener_action(event),
        r == (match event {
            AcceptEvent::Accepted => AcceptAction::Serve,
            AcceptEvent::Failed { .. } => AcceptAction::Retry,
            AcceptEvent::Shutdown => AcceptAction::Drain,
        }),
{
    match event {
        AcceptEvent::Accepted => AcceptAction::Serve,
        AcceptEvent::Failed { .. } => AcceptAction::Retry,
        AcceptEvent::Shutdown => AcceptAction::Drain,
    }
}

/// How long to wait on for open connections at `now`, where `deadline` ends their
/// grace; `None` where there are none, or it is over.
pub fn drain_step(tasks_left: bool, deadline: u128, now: u128) -> (r: Option<u128>)
    ensures
        r == drain_wait(tasks_left, deadline, now),
        r == (if tasks_left && now < deadline {
            Some((deadline - now) as u128)
        } else {
            None
        }),
{
    let remaining: u128 = elapsed_since(now, deadline);
    if tasks_left && remaining > 0 {
        Some(remaining)
    } else {
        None
    }
}

/// Delays of the server, in nanoseconds.
#[derive(Clone, Copy, Debug, PartialEq, Eq, Structural)]
pub struct Timings {
    /// Between two signs of life.
    pub heartbeat_interval: u128,
    /// Until a sign of life has to be answered.
    pub heartbeat_timeout: u128,
    /// Until open connections have to end after a shutdown.
    pub grace: u128,
}

/// A server that is ready to listen.
pub struct Server {
    /// Its configuration.
    pub config: ServerConfig,
    /// Its state.
    pub state: ServerState,
    /// Its delays.
    pub timings: Timings,
    /// Certificate and key file of the main port, where it speaks TLS.
    pub tls: Option<(String, String)>,
    /// Port, certificate and key file of the shared HTTPS listener, where there is one.
    pub vhost_https: Option<(u16, String, String)>,
}

/// Whether the shared HTTPS listener lacks a file.
pub open spec fn vhost_https_incomplete(config: ServerConfig) -> bool {
    config.proxy.vhost_https_port is Some && (config.proxy.vhost_tls_cert is None
        || config.proxy.vhost_tls_key is None)
}

/// Whether the main port speaks TLS and lacks a file.
pub open spec fn control_tls_incomplete(config: ServerConfig) -> bool {
    (config.server.tls_enable || config.server.work_conn_tls) && (config.server.tls_cert is None
        || config.server.tls_key is None)
}

impl Server {
    /// A server with an empty state, or what its configuration lacks.
    pub fn new(config: ServerConfig, limits: Limits, timings: Timings) -> (r: Result<
        Server,
        String,
    >)
        ensures
            match r {
                Ok(s) => {
                    &&& !vhost_https_incomplete(config)
                    &&& !control_tls_incomplete(config)
                    &&& s.config == config
                    &&& s.timings == timings
                    &&& s.state@ == StateView::fresh(limits, s.state.metrics.started)
                    &&& s.state@.wf()
                    &&& match s.tls {
                        Some(f) => config.server.tls_cert.deep_view() == Some(f.0@)
                            && config.server.tls_key.deep_view() == Some(f.1@),
                        None => !config.server.tls_enable && !config.server.work_conn_tls,
                    }
                    &&& match s.vhost_https {
                        Some(f) => config.proxy.vhost_https_port == Some(f.0)
                            && config.proxy.vhost_tls_cert.deep_view() == Some(f.1@)
                            && config.proxy.vhost_tls_key.deep_view() == Some(f.2@),
                        None => config.proxy.vhost_https_port is None,
                    }
                    &&& s.tls is Some ==> config.server.tls_enable || config.server.work_conn_tls
                },
                Err(e) => if vhost_https_incomplete(config) {
                    e@ == "vhost_https_port requires vhost_tls_cert and vhost_tls_key"@
                } else {
                    control_tls_incomplete(config) && e@ == missing_field(
                        if config.server.tls_cert is None {
                            "tls_cert"@
                        } else {
                            "tls_key"@
                        },
                    )
                },
            },
    {
        let vhost_https = match bind_vhost_https(&config) {
            Ok(v) => v,
            Err(e) => {
                return Err(e.to_owned());
            },
        };
        let tls = match load_control_tls(&config) {
            Ok(t) => t,
            Err(e) => {
                return Err(e);
            },
        };
        Ok(Server { config, state: ServerState::new(limits), timings, tls, vhost_https })
    }

    /// The same server, with another bound on open user connections.
    pub fn with_max_active(self, max: i64) -> (r: Server)
        ensures
            r.state@ == (StateView { max_active: max, ..self.state@ }),
            r.config == self.config,
            r.timings == self.timings,
            r.tls == self.tls,
            r.vhost_https == self.vhost_https,
    {
        let mut s = self;
        s.state.max_active = max;
        s
    }

    /// The same server, with another grace after a shutdown.
    pub fn with_grace(self, grace: u128) -> (r: Server)
        ensures
            r == (Server { timings: Timings { grace, ..self.timings }, ..self }),
    {
        let mut s = self;
        s.timings.grace = grace;
        s
    }
}

/// A server that has a certificate reads a connection as TLS exactly where its first
/// byte begins a handshake, and one that has none never does. One that sends nothing is
/// closed.
pub proof fn law_first_byte_tells_tls(b: u8, has_tls: bool)
    ensures
        first_byte_means(Some(b), has_tls) == FirstByte::Tls <==> has_tls && b == 22,
        first_byte_means(Some(b), has_tls) == FirstByte::Plain <==> !has_tls || b != 22,
        first_byte_means(None, has_tls) == FirstByte::Close,
{
}

/// A login is served exactly where it came over TLS as the server asks; a work
/// connection is served over TLS always, and without it where the server does not ask
/// for it; anything else is closed.
pub proof fn law_security_is_enforced(is_tls: bool, tls_enable: bool, work_conn_tls: bool)
    ensures
        served_as(FirstFrame::Login, is_tls, tls_enable, work_conn_tls) == (if is_tls
            == tls_enable {
            FirstAction::Control
        } else {
            FirstAction::Close
        }),
        is_tls || !work_conn_tls ==> served_as(
            FirstFrame::StartWorkConn,
            is_tls,
            tls_enable,
            work_conn_tls,
        ) == FirstAction::Work,
        !is_tls && work_conn_tls ==> served_as(
            FirstFrame::StartWorkConn,
            is_tls,
            tls_enable,
            work_conn_tls,
        ) == FirstAction::Close,
        served_as(FirstFrame::Other, is_tls, tls_enable, work_conn_tls) == FirstAction::Close,
{
}

/// The server counts as healthy after a connection came, and as not after accepting
/// failed; each is counted, and nothing else changes.
pub proof fn law_accepting_is_noted(m: Metrics, fatal: bool)
    ensures
        ({
            let a = accept_metrics(m, AcceptEvent::Accepted);
            let f = accept_metrics(m, AcceptEvent::Failed { fatal });
            &&& a.accepting && !f.accepting
            &&& a.accepted_total as int == (m.accepted_total + 1) % 0x1_0000_0000_0000_0000
            &&& a.accept_errors_total == m.accept_errors_total
            &&& f.accept_errors_total as int == (m.accept_errors_total + 1)
                % 0x1_0000_0000_0000_0000
            &&& f.accepted_total == m.accepted_total
            &&& a.active_connections == m.active_connections && f.active_connections
                == m.active_connections
            &&& a.total_connections == m.total_connections && f.total_connections
                == m.total_connections
            &&& accept_metrics(m, AcceptEvent::Shutdown) == m
        }),
{
}

/// A connection that came is served; accepting goes on after a failure unless it is
/// fatal, and on other ports always; only a shutdown drains.
pub proof fn law_accepting_goes_on(fatal: bool)
    ensures
        accept_action(AcceptEvent::Accepted) == AcceptAction::Serve,
        listener_action(AcceptEvent::Accepted) == AcceptAction::Serve,
        accept_action(AcceptEvent::Failed { fatal: true }) == AcceptAction::GiveUp,
        accept_action(AcceptEvent::Failed { fatal: false }) == AcceptAction::Retry,
        listener_action(AcceptEvent::Failed { fatal }) == AcceptAction::Retry,
        accept_action(AcceptEvent::Shutdown) == AcceptAction::Drain,
        listener_action(AcceptEvent::Shutdown) == AcceptAction::Drain,
{
}

/// After a shutdown, open connections are waited for exactly until the end of their
/// grace, and not at all where there are none.
pub proof fn law_grace_is_kept(tasks_left: bool, deadline: u128, now: u128)
    ensures
        drain_wait(tasks_left, deadline, now) is Some <==> tasks_left && now < deadline,
        drain_wait(tasks_left, deadline, now) matches Some(t) ==> now + t == deadline,
{
}

/// The main port speaks TLS exactly where control or work connections are to use it, with
/// the configured files, and does not start where one of them is missing.
pub proof fn law_tls_needs_its_files(
    r: Result<Option<(String, String)>, String>,
    s: crate::config::ServerSection,
)
    requires
        control_files(r, s),
    ensures
        !s.tls_enable && !s.work_conn_tls ==> r matches Ok(None),
        (s.tls_enable || s.work_conn_tls) && s.tls_cert is Some && s.tls_key is Some ==> (r
            matches Ok(Some(p)) && s.tls_cert.deep_view() == Some(p.0@) && s.tls_key.deep_view()
            == Some(p.1@)),
        (s.tls_enable || s.work_conn_tls) && (s.tls_cert is None || s.tls_key is None) ==> (r
            matches Err(e) && e@ == (if s.tls_cert is None {
            "tls_cert"@
        } else {
            "tls_key"@
        }) + " is required when tls_enable or work_conn_tls is set"@),
{
}

/// The shared HTTPS listener is there exactly where it has a port, with the configured
/// files, and the server does not start where one of them is missing.
pub proof fn law_https_needs_its_files(
    r: Result<Option<(u16, String, String)>, &'static str>,
    p: crate::config::ProxySection,
)
    requires
        vhost_files(r, p),
    ensures
        p.vhost_https_port is None ==> r matches Ok(None),
        p.vhost_https_port matches Some(port) ==> if p.vhost_tls_cert is Some && p.vhost_tls_key
            is Some {
            r matches Ok(Some(t)) && t.0 == port && p.vhost_tls_cert.deep_view() == Some(t.1@)
                && p.vhost_tls_key.deep_view() == Some(t.2@)
        } else {
            r is Err
        },
{
}

} // verus!
