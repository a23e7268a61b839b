//! Server metrics, in the Prometheus text format.

use vstd::prelude::*;

use super::state::{Gauges, ServerState, StateView};
use crate::clock::{whole_secs, Clock};
use crate::counter::{bump, wrapped_sum};
use crate::exposition::{
    all_showable, append_metric, exposition, has_line, is_name, is_sample_of, is_total,
    law_each_metric_once, law_no_other_metric, lemma_decimal_one_line, lemma_exposition_concat,
    lemma_sample_shown, lemma_signed_one_line, lines_of, showable, shown_once, Metric,
};
use crate::limits::Limits;
use crate::table::map_sum;
use crate::text::{decimal, flag_text, show, show_flag, show_signed, signed_decimal};

verus! {

/// Counters of the server process.
pub struct Metrics {
    /// When the process started.
    pub started: Clock,
    /// Last round trip of a control connection, in milliseconds; 0 = unknown.
    pub rtt_ms: u64,
    /// Connections accepted on the main port.
    pub accepted_total: u64,
    /// Failed accepts.
    pub accept_errors_total: u64,
    /// Dropped UDP datagrams.
    pub udp_dropped_total: u64,
    /// Whether the last accept succeeded.
    pub accepting: bool,
    /// User connections taken on.
    pub total_connections: u64,
    /// User connections that are open.
    pub active_connections: i64,
    /// Bytes from users to local services.
    pub bytes_up: u64,
    /// Bytes from local services to users.
    pub bytes_down: u64,
}

/// Counters of one proxy.
#[derive(Clone, Copy, Debug)]
pub struct ProxyStats {
    /// User connections taken on.
    pub connections_total: u64,
    /// User connections that are open.
    pub active_connections: i64,
    /// Bytes from users to the local service.
    pub bytes_up: u64,
    /// Bytes from the local service to users.
    pub bytes_down: u64,
}

impl DeepView for ProxyStats {
    type V = ProxyStats;

    open spec fn deep_view(&self) -> ProxyStats {
        *self
    }
}

/// The counters of a proxy that nobody has used yet.
pub open spec fn fresh_stats() -> ProxyStats {
    ProxyStats { connections_total: 0, active_connections: 0, bytes_up: 0, bytes_down: 0 }
}

/// What is set by construction, whenever the clock was started.
pub open spec fn fresh_metrics(started: Clock) -> Metrics {
    Metrics {
        started,
        rtt_ms: 0,
        accepted_total: 0,
        accept_errors_total: 0,
        udp_dropped_total: 0,
        accepting: true,
        total_connections: 0,
        active_connections: 0,
        bytes_up: 0,
        bytes_down: 0,
    }
}

/// The process counters, as they are shown.
pub open spec fn shown_metrics(m: Metrics) -> Seq<Metric> {
    seq![
        Metric {
            name: "rfrp_connections_total"@,
            help: Some("Total accepted user connections."@),
            counter: true,
            value: decimal(m.total_connections as nat),
        },
        Metric {
            name: "rfrp_active_connections"@,
            help: None,
            counter: false,
            value: signed_decimal(m.active_connections as int),
        },
        Metric {
            name: "rfrp_bytes_up_total"@,
            help: None,
            counter: true,
            value: decimal(m.bytes_up as nat),
        },
        Metric {
            name: "rfrp_bytes_down_total"@,
            help: None,
            counter: true,
            value: decimal(m.bytes_down as nat),
        },
        Metric {
            name: "rfrp_rtt_ms"@,
            help: Some("Control connection round-trip time in milliseconds (0 = unknown)."@),
            counter: false,
            value: decimal(m.rtt_ms as nat),
        },
        Metric {
            name: "rfrp_accepted_total"@,
            help: Some("Accepted TCP connections on the control port."@),
            counter: true,
            value: decimal(m.accepted_total as nat),
        },
        Metric {
            name: "rfrp_accept_errors_total"@,
            help: Some("Accept errors."@),
            counter: true,
            value: decimal(m.accept_errors_total as nat),
        },
        Metric {
            name: "rfrp_udp_dropped_total"@,
            help: Some("UDP datagrams dropped (pending session limit)."@),
            counter: true,
            value: decimal(m.udp_dropped_total as nat),
        },
        Metric {
            name: "rfrp_accepting"@,
            help: Some("Whether the accept loop is healthy (1/0)."@),
            counter: false,
            value: flag_text(m.accepting),
        },
    ]
}

/// The text of [`Metrics::render`].
pub open spec fn metrics_text(m: Metrics) -> Seq<char> {
    exposition(shown_metrics(m))
}

impl Default for Metrics {
    fn default() -> (r: Metrics)
        ensures
            r == fresh_metrics(r.started),
    {
        Metrics::new()
    }
}

impl Metrics {
    /// Zeroed counters, with the clock started now.
    pub fn new() -> (r: Metrics)
        ensures
            r == fresh_metrics(r.started),
    {
        Metrics {
            started: Clock::start(),
            rtt_ms: 0,
            accepted_total: 0,
            accept_errors_total: 0,
            udp_dropped_total: 0,
            accepting: true,
            total_connections: 0,
            active_connections: 0,
            bytes_up: 0,
            bytes_down: 0,
        }
    }

    /// Notes a successful accept.
    pub fn inc_accepted(&mut self)
        ensures
            *final(self) == (Metrics {
                accepted_total: wrapped_sum(old(self).accepted_total, 1),
                accepting: true,
                ..*old(self)
            }),
    {
        self.accepted_total = bump(self.accepted_total);
        self.accepting = true;
    }

    /// Notes a failed accept.
    pub fn inc_accept_error(&mut self)
        ensures
            *final(self) == (Metrics {
                accept_errors_total: wrapped_sum(old(self).accept_errors_total, 1),
                accepting: false,
                ..*old(self)
            }),
    {
        self.accept_errors_total = bump(self.accept_errors_total);
        self.accepting = false;
    }

    /// Notes a dropped UDP datagram.
    pub fn inc_udp_dropped(&mut self)
        ensures
            *final(self) == (Metrics {
                udp_dropped_total: wrapped_sum(old(self).udp_dropped_total, 1),
                ..*old(self)
            }),
    {
        self.udp_dropped_total = bump(self.udp_dropped_total);
    }

    /// Whether the accept loop works.
    pub fn is_accepting(&self) -> (r: bool)
        ensures
            r == self.accepting,
    {
        self.accepting
    }

    /// Notes the round trip of a control connection.
    pub fn set_rtt_ms(&mut self, ms: u64)
        ensures
            *final(self) == (Metrics { rtt_ms: ms, ..*old(self) }),
    {
        self.rtt_ms = ms;
    }

    /// The last round trip; 0 = unknown.
    pub fn rtt_ms(&self) -> (r: u64)
        ensures
            r == self.rtt_ms,
    {
        self.rtt_ms
    }

    /// Whole seconds since the start. What the clock reads is not known here.
    pub fn uptime_secs(&self) -> u64 {
        whole_secs(self.started.now())
    }

    /// The process counters as text.
    pub fn render(&self) -> (r: String)
        ensures
            r@ == metrics_text(*self),
    {
        let mut out = String::new();
        let shown: Ghost<Seq<Metric>> = Ghost(Seq::empty());
        let shown = append_metric(
            &mut out,
            shown,
            "rfrp_connections_total",
            Some("Total accepted user connections."),
            true,
            show(self.total_connections).as_str(),
        );
        let shown = append_metric(
            &mut out,
            shown,
            "rfrp_active_connections",
            None,
            false,
            show_signed(self.active_connections).as_str(),
        );
        let shown = append_metric(
            &mut out,
            shown,
            "rfrp_bytes_up_total",
            None,
            true,
            show(self.bytes_up).as_str(),
        );
        let shown = append_metric(
            &mut out,
            shown,
            "rfrp_bytes_down_total",
            None,
            true,
            show(self.bytes_down).as_str(),
        );
        let shown = append_metric(
            &mut out,
            shown,
            "rfrp_rtt_ms",
            Some("Control connection round-trip time in milliseconds (0 = unknown)."),
            false,
            show(self.rtt_ms).as_str(),
        );
        let shown = append_metric(
            &mut out,
            shown,
            "rfrp_accepted_total",
            Some("Accepted TCP connections on the control port."),
            true,
            show(self.accepted_total).as_str(),
        );
        let shown = append_metric(
            &mut out,
            shown,
            "rfrp_accept_errors_total",
            Some("Accept errors."),
            true,
            show(self.accept_errors_total).as_str(),
        );
        let shown = append_metric(
            &mut out,
            shown,
            "rfrp_udp_dropped_total",
            Some("UDP datagrams dropped (pending session limit)."),
            true,
            show(self.udp_dropped_total).as_str(),
        );
        let shown = append_metric(
            &mut out,
            shown,
            "rfrp_accepting",
            Some("Whether the accept loop is healthy (1/0)."),
            false,
            show_flag(self.accepting),
        );
        assert(shown@ =~= shown_metrics(*self));
        out
    }
}

/// The gauges, as they are shown after `uptime` seconds.
pub open spec fn shown_gauges(g: Gauges, uptime: u64) -> Seq<Metric> {
    seq![
        Metric {
            name: "rfrp_uptime_seconds"@,
            help: Some("Process uptime in seconds."@),
            counter: false,
            value: decimal(uptime as nat),
        },
        Metric {
            name: "rfrp_sessions"@,
            help: Some("Active control sessions."@),
            counter: false,
            value: decimal(g.sessions as nat),
        },
        Metric {
            name: "rfrp_proxies"@,
            help: Some("Registered proxies."@),
            counter: false,
            value: decimal(g.proxies as nat),
        },
        Metric {
            name: "rfrp_pending_work"@,
            help: Some("User connections waiting for a work connection."@),
            counter: false,
            value: decimal(g.pending_work as nat),
        },
        Metric {
            name: "rfrp_udp_sessions"@,
            help: Some("Active UDP sessions."@),
            counter: false,
            value: decimal(g.udp_sessions as nat),
        },
        Metric {
            name: "rfrp_pooled_work_conns"@,
            help: Some("Idle pooled work connections."@),
            counter: false,
            value: decimal(g.pooled_work_conns as nat),
        },
    ]
}

/// The text of [`render_prometheus`] after `uptime` seconds: the process counters, then
/// the gauges.
pub open spec fn prometheus_text(m: Metrics, g: Gauges, uptime: u64) -> Seq<char> {
    metrics_text(m) + exposition(shown_gauges(g, uptime))
}

/// Counters and gauges as text, after `uptime` seconds.
pub fn render_prometheus_at(state: &ServerState, uptime: u64) -> (r: String)
    requires
        state@.wf(),
    ensures
        r@ == prometheus_text(state@.metrics, state@.gauges(), uptime),
{
    let g = state.gauges();
    let mut out = state.metrics.render();
    let ghost counters = shown_metrics(state.metrics);
    let shown: Ghost<Seq<Metric>> = Ghost(counters);
    let shown = append_metric(
        &mut out,
        shown,
        "rfrp_uptime_seconds",
        Some("Process uptime in seconds."),
        false,
        show(uptime).as_str(),
    );
    let shown = append_metric(
        &mut out,
        shown,
        "rfrp_sessions",
        Some("Active control sessions."),
        false,
        show(g.sessions as u64).as_str(),
    );
    let shown = append_metric(
        &mut out,
        shown,
        "rfrp_proxies",
        Some("Registered proxies."),
        false,
        show(g.proxies as u64).as_str(),
    );
    let shown = append_metric(
        &mut out,
        shown,
        "rfrp_pending_work",
        Some("User connections waiting for a work connection."),
        false,
        show(g.pending_work as u64).as_str(),
    );
    let shown = append_metric(
        &mut out,
        shown,
        "rfrp_udp_sessions",
        Some("Active UDP sessions."),
        false,
        show(g.udp_sessions as u64).as_str(),
    );
    let shown = append_metric(
        &mut out,
        shown,
        "rfrp_pooled_work_conns",
        Some("Idle pooled work connections."),
        false,
        show(g.pooled_work_conns as u64).as_str(),
    );
    proof {
        assert(shown@ =~= counters + shown_gauges(g, uptime));
        lemma_exposition_concat(counters, shown_gauges(g, uptime));
    }
    out
}

/// Counters and gauges as text, now. What the clock reads is not known here.
pub fn render_prometheus(state: &ServerState) -> (r: String)
    requires
        state@.wf(),
    ensures
        exists|uptime: u64| r@ == #[trigger] prometheus_text(
            state@.metrics,
            state@.gauges(),
            uptime,
        ),
{
    render_prometheus_at(state, state.metrics.uptime_secs())
}

/// The process counters can be shown, and no two have one name.
proof fn lemma_metrics_showable(m: Metrics)
    ensures
        all_showable(shown_metrics(m)),
{
    reveal_strlit("rfrp_connections_total");
    reveal_strlit("Total accepted user connections.");
    reveal_strlit("rfrp_active_connections");
    reveal_strlit("rfrp_bytes_up_total");
    reveal_strlit("rfrp_bytes_down_total");
    reveal_strlit("rfrp_rtt_ms");
    reveal_strlit("Control connection round-trip time in milliseconds (0 = unknown).");
    reveal_strlit("rfrp_accepted_total");
    reveal_strlit("Accepted TCP connections on the control port.");
    reveal_strlit("rfrp_accept_errors_total");
    reveal_strlit("Accept errors.");
    reveal_strlit("rfrp_udp_dropped_total");
    reveal_strlit("UDP datagrams dropped (pending session limit).");
    reveal_strlit("rfrp_accepting");
    reveal_strlit("Whether the accept loop is healthy (1/0).");
    reveal_strlit("1");
    reveal_strlit("0");
    lemma_decimal_one_line(m.total_connections as nat);
    lemma_signed_one_line(m.active_connections as int);
    lemma_decimal_one_line(m.bytes_up as nat);
    lemma_decimal_one_line(m.bytes_down as nat);
    lemma_decimal_one_line(m.rtt_ms as nat);
    lemma_decimal_one_line(m.accepted_total as nat);
    lemma_decimal_one_line(m.accept_errors_total as nat);
    lemma_decimal_one_line(m.udp_dropped_total as nat);
    let ms = shown_metrics(m);
    assert forall|i: int| 0 <= i < ms.len() implies showable(#[trigger] ms[i]) by {
    }
    assert forall|i: int, j: int|
        0 <= i < ms.len() && 0 <= j < ms.len() && i != j implies (#[trigger] ms[i]).name != (
    #[trigger] ms[j]).name by {
        assert(ms[i].name.len() != ms[j].name.len() || ms[i].name[5] != ms[j].name[5]);
    }
}

/// Each process counter is shown in exactly one line, behind the lines that explain it.
pub proof fn law_counters_shown_once(m: Metrics, k: int)
    requires
        0 <= k < shown_metrics(m).len(),
    ensures
        shown_once(metrics_text(m), shown_metrics(m)[k]),
{
    lemma_metrics_showable(m);
    law_each_metric_once(shown_metrics(m), k);
}

/// The text of the process counters shows nothing else: no uptime and no gauge of
/// sessions, say.
pub proof fn law_counters_shown_only(m: Metrics, other: Seq<char>, j: int)
    requires
        is_name(other),
        forall|o: int| 0 <= o < shown_metrics(m).len() ==> (#[trigger] shown_metrics(m)[o]).name
            != other,
        0 <= j < lines_of(metrics_text(m)).len(),
    ensures
        !is_sample_of(lines_of(metrics_text(m))[j], other),
{
    lemma_metrics_showable(m);
    law_no_other_metric(shown_metrics(m), other, j);
}

/// The process counters and the gauges, as they are shown after `uptime` seconds.
pub open spec fn shown_all(m: Metrics, g: Gauges, uptime: u64) -> Seq<Metric> {
    shown_metrics(m) + shown_gauges(g, uptime)
}

/// All metrics can be shown, and no two have one name.
#[verifier::rlimit(50)]
proof fn lemma_all_metrics_showable(m: Metrics, g: Gauges, uptime: u64)
    ensures
        all_showable(shown_all(m, g, uptime)),
        prometheus_text(m, g, uptime) == exposition(shown_all(m, g, uptime)),
{
    lemma_exposition_concat(shown_metrics(m), shown_gauges(g, uptime));
    lemma_metrics_showable(m);
    reveal_strlit("rfrp_connections_total");
    reveal_strlit("Total accepted user connections.");
    reveal_strlit("rfrp_active_connections");
    reveal_strlit("rfrp_bytes_up_total");
    reveal_strlit("rfrp_bytes_down_total");
    reveal_strlit("rfrp_rtt_ms");
    reveal_strlit("Control connection round-trip time in milliseconds (0 = unknown).");
    reveal_strlit("rfrp_accepted_total");
    reveal_strlit("Accepted TCP connections on the control port.");
    reveal_strlit("rfrp_accept_errors_total");
    reveal_strlit("Accept errors.");
    reveal_strlit("rfrp_udp_dropped_total");
    reveal_strlit("UDP datagrams dropped (pending session limit).");
    reveal_strlit("rfrp_accepting");
    reveal_strlit("Whether the accept loop is healthy (1/0).");
    reveal_strlit("rfrp_uptime_seconds");
    reveal_strlit("Process uptime in seconds.");
    reveal_strlit("rfrp_sessions");
    reveal_strlit("Active control sessions.");
    reveal_strlit("rfrp_proxies");
    reveal_strlit("Registered proxies.");
    reveal_strlit("rfrp_pending_work");
    reveal_strlit("User connections waiting for a work connection.");
    reveal_strlit("rfrp_udp_sessions");
    reveal_strlit("Active UDP sessions.");
    reveal_strlit("rfrp_pooled_work_conns");
    reveal_strlit("Idle pooled work connections.");
    lemma_decimal_one_line(uptime as nat);
    lemma_decimal_one_line(g.sessions as nat);
    lemma_decimal_one_line(g.proxies as nat);
    lemma_decimal_one_line(g.pending_work as nat);
    lemma_decimal_one_line(g.udp_sessions as nat);
    lemma_decimal_one_line(g.pooled_work_conns as nat);
    let a = shown_metrics(m);
    let b = shown_gauges(g, uptime);
    let ms = a + b;
    assert forall|i: int| 0 <= i < b.len() implies showable(#[trigger] b[i]) by {
    }
    assert forall|i: int| 0 <= i < ms.len() implies showable(#[trigger] ms[i]) by {
        if i < a.len() {
            assert(ms[i] == a[i]);
        } else {
            assert(ms[i] == b[i - a.len()]);
        }
    }
    assert forall|i: int, j: int|
        0 <= i < ms.len() && 0 <= j < ms.len() && i != j implies (#[trigger] ms[i]).name != (
    #[trigger] ms[j]).name by {
        assert(ms[i].name.len() != ms[j].name.len() || ms[i].name[5] != ms[j].name[5]);
    }
}

/// Each metric of the full text is shown in exactly one line, behind the lines that
/// explain it.
pub proof fn law_metrics_shown_once(m: Metrics, g: Gauges, uptime: u64, k: int)
    requires
        0 <= k < shown_all(m, g, uptime).len(),
    ensures
        shown_once(prometheus_text(m, g, uptime), shown_all(m, g, uptime)[k]),
{
    lemma_all_metrics_showable(m, g, uptime);
    law_each_metric_once(shown_all(m, g, uptime), k);
}

/// The full text shows no other metric.
pub proof fn law_metrics_shown_only(
    m: Metrics,
    g: Gauges,
    uptime: u64,
    other: Seq<char>,
    j: int,
)
    requires
        is_name(other),
        forall|o: int|
            0 <= o < shown_all(m, g, uptime).len() ==> (#[trigger] shown_all(m, g, uptime)[o]).name
                != other,
        0 <= j < lines_of(prometheus_text(m, g, uptime)).len(),
    ensures
        !is_sample_of(lines_of(prometheus_text(m, g, uptime))[j], other),
{
    lemma_all_metrics_showable(m, g, uptime);
    law_no_other_metric(shown_all(m, g, uptime), other, j);
}

/// A metric is shown as a counter exactly where its name ends in `_total`.
pub proof fn law_totals_are_counters(m: Metrics, g: Gauges, uptime: u64, k: int)
    requires
        0 <= k < shown_all(m, g, uptime).len(),
    ensures
        shown_all(m, g, uptime)[k].counter <==> is_total(shown_all(m, g, uptime)[k].name),
{
    reveal_strlit("_total");
    reveal_strlit("rfrp_connections_total");
    reveal_strlit("rfrp_active_connections");
    reveal_strlit("rfrp_bytes_up_total");
    reveal_strlit("rfrp_bytes_down_total");
    reveal_strlit("rfrp_rtt_ms");
    reveal_strlit("rfrp_accepted_total");
    reveal_strlit("rfrp_accept_errors_total");
    reveal_strlit("rfrp_udp_dropped_total");
    reveal_strlit("rfrp_accepting");
    reveal_strlit("rfrp_uptime_seconds");
    reveal_strlit("rfrp_sessions");
    reveal_strlit("rfrp_proxies");
    reveal_strlit("rfrp_pending_work");
    reveal_strlit("rfrp_udp_sessions");
    reveal_strlit("rfrp_pooled_work_conns");
    let a = shown_metrics(m);
    let b = shown_gauges(g, uptime);
    let x = shown_all(m, g, uptime)[k];
    if k < a.len() {
        assert(x == a[k]);
    } else {
        assert(x == b[k - a.len()]);
    }
    let n = x.name.len() as int;
    let end = x.name.subrange(n - 6, n);
    assert(end[5] == x.name[n - 1]);
    if x.counter {
        assert(end =~= "_total"@);
    } else {
        assert(end[5] != "_total"@[5]);
    }
}

/// All gauges of a server that has just started are zero.
pub proof fn law_gauges_start_at_zero(limits: Limits, started: Clock)
    ensures
        StateView::fresh(limits, started).gauges() == (Gauges {
            sessions: 0,
            proxies: 0,
            pending_work: 0,
            udp_sessions: 0,
            pooled_work_conns: 0,
        }),
{
}

/// Each process counter is shown under its own name.
pub proof fn law_counters_shown_by_name(m: Metrics)
    ensures
        ({
            let t = metrics_text(m);
            &&& has_line(t, "rfrp_connections_total"@ + seq![' '] + decimal(
                m.total_connections as nat,
            ))
            &&& has_line(t, "rfrp_active_connections"@ + seq![' '] + signed_decimal(
                m.active_connections as int,
            ))
            &&& has_line(t, "rfrp_bytes_up_total"@ + seq![' '] + decimal(m.bytes_up as nat))
            &&& has_line(t, "rfrp_bytes_down_total"@ + seq![' '] + decimal(m.bytes_down as nat))
            &&& has_line(t, "rfrp_rtt_ms"@ + seq![' '] + decimal(m.rtt_ms as nat))
            &&& has_line(t, "rfrp_accepted_total"@ + seq![' '] + decimal(m.accepted_total as nat))
            &&& has_line(t, "rfrp_accept_errors_total"@ + seq![' '] + decimal(
                m.accept_errors_total as nat,
            ))
            &&& has_line(t, "rfrp_udp_dropped_total"@ + seq![' '] + decimal(
                m.udp_dropped_total as nat,
            ))
            &&& has_line(t, "rfrp_accepting"@ + seq![' '] + (if m.accepting {
                "1"@
            } else {
                "0"@
            }))
        }),
{
    let ms = shown_metrics(m);
    assert(ms.len() == 9);
    assert forall|k: int| 0 <= k < 9 implies has_line(
        metrics_text(m),
        (#[trigger] ms[k]).name + seq![' '] + ms[k].value,
    ) by {
        law_counters_shown_once(m, k);
        lemma_sample_shown(metrics_text(m), ms[k]);
    }
    assert(ms[0].name == "rfrp_connections_total"@ && ms[1].name == "rfrp_active_connections"@
        && ms[2].name == "rfrp_bytes_up_total"@ && ms[3].name == "rfrp_bytes_down_total"@
        && ms[4].name == "rfrp_rtt_ms"@ && ms[5].name == "rfrp_accepted_total"@ && ms[6].name
        == "rfrp_accept_errors_total"@ && ms[7].name == "rfrp_udp_dropped_total"@ && ms[8].name
        == "rfrp_accepting"@);
}

/// What there is at the server is shown under its own name: the sessions, the proxies
/// and the idle work connections of all clients' current sessions, the users that wait
/// for a work connection, the paired users of all UDP proxies, and the uptime. The
/// process counters are shown too.
pub proof fn law_state_shown_by_name(v: StateView, uptime: u64)
    ensures
        ({
            let t = prometheus_text(v.metrics, v.gauges(), uptime);
            let proxies = map_sum(v.sessions, |r: Seq<char>, k: u64| v.live[k].proxies.len());
            let idle = map_sum(
                v.sessions,
                |r: Seq<char>, k: u64|
                    map_sum(v.live[k].pools, |n: Seq<char>, p: Seq<u64>| p.len()),
            );
            let paired = map_sum(
                v.udp,
                |n: Seq<char>, u: super::udp::UdpView| u.sessions.len(),
            );
            &&& has_line(t, "rfrp_uptime_seconds"@ + seq![' '] + decimal(uptime as nat))
            &&& v.sessions.len() <= usize::MAX ==> has_line(
                t,
                "rfrp_sessions"@ + seq![' '] + decimal(v.sessions.len()),
            )
            &&& proxies <= usize::MAX ==> has_line(
                t,
                "rfrp_proxies"@ + seq![' '] + decimal(proxies),
            )
            &&& v.pending.len() <= usize::MAX ==> has_line(
                t,
                "rfrp_pending_work"@ + seq![' '] + decimal(v.pending.len()),
            )
            &&& paired <= usize::MAX ==> has_line(
                t,
                "rfrp_udp_sessions"@ + seq![' '] + decimal(paired),
            )
            &&& idle <= usize::MAX ==> has_line(
                t,
                "rfrp_pooled_work_conns"@ + seq![' '] + decimal(idle),
            )
            &&& has_line(t, "rfrp_connections_total"@ + seq![' '] + decimal(
                v.metrics.total_connections as nat,
            ))
            &&& has_line(t, "rfrp_active_connections"@ + seq![' '] + signed_decimal(
                v.metrics.active_connections as int,
            ))
            &&& has_line(t, "rfrp_bytes_up_total"@ + seq![' '] + decimal(
                v.metrics.bytes_up as nat,
            ))
            &&& has_line(t, "rfrp_bytes_down_total"@ + seq![' '] + decimal(
                v.metrics.bytes_down as nat,
            ))
        }),
{
    let idle = |r: Seq<char>, k: u64| super::state::pooled(v.live[k]);
    let idle_by_proxy = |r: Seq<char>, k: u64|
        map_sum(v.live[k].pools, |n: Seq<char>, p: Seq<u64>| p.len());
    assert(idle =~= idle_by_proxy);
    assert(v.pooled_count() == map_sum(v.sessions, idle_by_proxy));
    let g = v.gauges();
    let t = prometheus_text(v.metrics, g, uptime);
    let ms = shown_all(v.metrics, g, uptime);
    let b = shown_gauges(g, uptime);
    let a = shown_metrics(v.metrics);
    assert(a.len() == 9 && b.len() == 6 && ms.len() == 15);
    assert forall|k: int| 0 <= k < 15 implies has_line(
        t,
        (#[trigger] ms[k]).name + seq![' '] + ms[k].value,
    ) by {
        law_metrics_shown_once(v.metrics, g, uptime, k);
        lemma_sample_shown(t, ms[k]);
    }
    assert(ms[0] == a[0] && ms[1] == a[1] && ms[2] == a[2] && ms[3] == a[3]);
    assert(ms[9] == b[0] && ms[10] == b[1] && ms[11] == b[2] && ms[12] == b[3] && ms[13] == b[4]
        && ms[14] == b[5]);
}

} // verus!
