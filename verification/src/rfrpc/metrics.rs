//! Client metrics, in the Prometheus text format.

use vstd::prelude::*;

use crate::clock::{whole_secs, Clock};
use crate::counter::{bump, wrapped_sum};
use crate::exposition::{
    all_showable, append_metric, exposition, has_line, is_name, is_sample_of, is_total,
    law_each_metric_once, law_no_other_metric, lemma_decimal_one_line, lemma_sample_shown,
    lines_of, showable, shown_once, Metric,
};
use crate::text::{decimal, flag_text, show, show_flag};

verus! {

/// Counters of the client process, kept across reconnects.
pub struct ClientMetrics {
    /// When the process started.
    pub started: Clock,
    /// Whether the control connection is logged in.
    pub connected: bool,
    /// Reconnects of the control connection.
    pub reconnects_total: u64,
    /// Work connections that were established.
    pub work_conns_total: u64,
    /// Work connections that failed.
    pub work_conn_failures_total: u64,
    /// Last round trip of the control connection, in milliseconds; 0 = unknown.
    pub rtt_ms: u64,
    /// Registrations that were refused.
    pub proxy_register_failures_total: u64,
    /// Proxies that were registered after a retry.
    pub proxy_register_retry_success_total: u64,
}

/// What is set by construction, whenever the clock was started.
pub open spec fn fresh_metrics(started: Clock) -> ClientMetrics {
    ClientMetrics {
        started,
        connected: false,
        reconnects_total: 0,
        work_conns_total: 0,
        work_conn_failures_total: 0,
        rtt_ms: 0,
        proxy_register_failures_total: 0,
        proxy_register_retry_success_total: 0,
    }
}

/// The metrics, as they are shown after `uptime` seconds.
pub open spec fn shown_metrics(m: ClientMetrics, uptime: u64) -> Seq<Metric> {
    seq![
        Metric {
            name: "rfrp_client_uptime_seconds"@,
            help: Some("Client process uptime in seconds."@),
            counter: false,
            value: decimal(uptime as nat),
        },
        Metric {
            name: "rfrp_client_rtt_ms"@,
            help: Some("Control connection round-trip time in milliseconds (0 = unknown)."@),
            counter: false,
            value: decimal(m.rtt_ms as nat),
        },
        Metric {
            name: "rfrp_client_connected"@,
            help: Some("Whether the control connection is logged in (1/0)."@),
            counter: false,
            value: flag_text(m.connected),
        },
        Metric {
            name: "rfrp_client_reconnects_total"@,
            help: Some("Control connection reconnects."@),
            counter: true,
            value: decimal(m.reconnects_total as nat),
        },
        Metric {
            name: "rfrp_client_work_conns_total"@,
            help: Some("Work connections established."@),
            counter: true,
            value: decimal(m.work_conns_total as nat),
        },
        Metric {
            name: "rfrp_client_work_conn_failures_total"@,
            help: Some("Work connection failures."@),
            counter: true,
            value: decimal(m.work_conn_failures_total as nat),
        },
        Metric {
            name: "rfrp_client_proxy_register_failures_total"@,
            help: Some("Proxy registration failures."@),
            counter: true,
            value: decimal(m.proxy_register_failures_total as nat),
        },
        Metric {
            name: "rfrp_client_proxy_register_retry_success_total"@,
            help: Some("Proxies registered after retry."@),
            counter: true,
            value: decimal(m.proxy_register_retry_success_total as nat),
        },
    ]
}

/// The text of [`ClientMetrics::render`] after `uptime` seconds.
pub open spec fn metrics_text(m: ClientMetrics, uptime: u64) -> Seq<char> {
    exposition(shown_metrics(m, uptime))
}

impl Default for ClientMetrics {
    fn default() -> (r: ClientMetrics)
        ensures
            r == fresh_metrics(r.started),
    {
        ClientMetrics::new()
    }
}

impl ClientMetrics {
    /// Zeroed counters, with the clock started now.
    pub fn new() -> (r: ClientMetrics)
        ensures
            r == fresh_metrics(r.started),
    {
        ClientMetrics {
            started: Clock::start(),
            connected: false,
            reconnects_total: 0,
            work_conns_total: 0,
            work_conn_failures_total: 0,
            rtt_ms: 0,
            proxy_register_failures_total: 0,
            proxy_register_retry_success_total: 0,
        }
    }

    /// Whole seconds since the start. What the clock reads is not known here.
    pub fn uptime_secs(&self) -> u64 {
        whole_secs(self.started.now())
    }

    /// Notes whether the control connection is logged in.
    pub fn set_connected(&mut self, v: bool)
        ensures
            *final(self) == (ClientMetrics { connected: v, ..*old(self) }),
    {
        self.connected = v;
    }

    /// Whether the control connection is logged in.
    pub fn is_connected(&self) -> (r: bool)
        ensures
            r == self.connected,
    {
        self.connected
    }

    /// Notes the round trip of the control connection.
    pub fn set_rtt_ms(&mut self, ms: u64)
        ensures
            *final(self) == (ClientMetrics { rtt_ms: ms, ..*old(self) }),
    {
        self.rtt_ms = ms;
    }

    /// The last round trip; 0 = unknown.
    pub fn rtt_ms(&self) -> (r: u64)
        ensures
            r == self.rtt_ms,
    {
        self.rtt_ms
    }

    /// Notes a reconnect.
    pub fn inc_reconnect(&mut self)
        ensures
            *final(self) == (ClientMetrics {
                reconnects_total: wrapped_sum(old(self).reconnects_total, 1),
                ..*old(self)
            }),
    {
        self.reconnects_total = bump(self.reconnects_total);
    }

    /// Notes a work connection that was established.
    pub fn inc_work_conn(&mut self)
        ensures
            *final(self) == (ClientMetrics {
                work_conns_total: wrapped_sum(old(self).work_conns_total, 1),
                ..*old(self)
            }),
    {
        self.work_conns_total = bump(self.work_conns_total);
    }

    /// Notes a work connection that failed.
    pub fn inc_work_conn_failure(&mut self)
        ensures
            *final(self) == (ClientMetrics {
                work_conn_failures_total: wrapped_sum(old(self).work_conn_failures_total, 1),
                ..*old(self)
            }),
    {
        self.work_conn_failures_total = bump(self.work_conn_failures_total);
    }

    /// Notes a registration that was refused.
    pub fn inc_proxy_register_failure(&mut self)
        ensures
            *final(self) == (ClientMetrics {
                proxy_register_failures_total: wrapped_sum(
                    old(self).proxy_register_failures_total,
                    1,
                ),
                ..*old(self)
            }),
    {
        self.proxy_register_failures_total = bump(self.proxy_register_failures_total);
    }

    /// Notes a proxy that was registered after a retry.
    pub fn inc_proxy_register_retry_success(&mut self)
        ensures
            *final(self) == (ClientMetrics {
                proxy_register_retry_success_total: wrapped_sum(
                    old(self).proxy_register_retry_success_total,
                    1,
                ),
                ..*old(self)
            }),
    {
        self.proxy_register_retry_success_total = bump(self.proxy_register_retry_success_total);
    }

    /// The counters as text, after `uptime` seconds.
    pub fn render_at(&self, uptime: u64) -> (r: String)
        ensures
            r@ == metrics_text(*self, uptime),
    {
        let mut out = String::new();
        let shown: Ghost<Seq<Metric>> = Ghost(Seq::empty());
        let shown = append_metric(
            &mut out,
            shown,
            "rfrp_client_uptime_seconds",
            Some("Client process uptime in seconds."),
            false,
            show(uptime).as_str(),
        );
        let shown = append_metric(
            &mut out,
            shown,
            "rfrp_client_rtt_ms",
            Some("Control connection round-trip time in milliseconds (0 = unknown)."),
            false,
            show(self.rtt_ms).as_str(),
        );
        let shown = append_metric(
            &mut out,
            shown,
            "rfrp_client_connected",
            Some("Whether the control connection is logged in (1/0)."),
            false,
            show_flag(self.connected),
        );
        let shown = append_metric(
            &mut out,
            shown,
            "rfrp_client_reconnects_total",
            Some("Control connection reconnects."),
            true,
            show(self.reconnects_total).as_str(),
        );
        let shown = append_metric(
            &mut out,
            shown,
            "rfrp_client_work_conns_total",
            Some("Work connections established."),
            true,
            show(self.work_conns_total).as_str(),
        );
        let shown = append_metric(
            &mut out,
            shown,
            "rfrp_client_work_conn_failures_total",
            Some("Work connection failures."),
            true,
            show(self.work_conn_failures_total).as_str(),
        );
        let shown = append_metric(
            &mut out,
            shown,
            "rfrp_client_proxy_register_failures_total",
            Some("Proxy registration failures."),
            true,
            show(self.proxy_register_failures_total).as_str(),
        );
        let shown = append_metric(
            &mut out,
            shown,
            "rfrp_client_proxy_register_retry_success_total",
            Some("Proxies registered after retry."),
            true,
            show(self.proxy_register_retry_success_total).as_str(),
        );
        assert(shown@ =~= shown_metrics(*self, uptime));
        out
    }

    /// The counters as text, now. What the clock reads is not known here.
    pub fn render(&self) -> (r: String)
        ensures
            exists|uptime: u64| r@ == #[trigger] metrics_text(*self, uptime),
    {
        self.render_at(self.uptime_secs())
    }
}

/// The metrics can be shown, and no two have one name.
proof fn lemma_metrics_showable(m: ClientMetrics, uptime: u64)
    ensures
        all_showable(shown_metrics(m, uptime)),
{
    reveal_strlit("rfrp_client_uptime_seconds");
    reveal_strlit("Client process uptime in seconds.");
    reveal_strlit("rfrp_client_rtt_ms");
    reveal_strlit("Control connection round-trip time in milliseconds (0 = unknown).");
    reveal_strlit("rfrp_client_connected");
    reveal_strlit("Whether the control connection is logged in (1/0).");
    reveal_strlit("rfrp_client_reconnects_total");
    reveal_strlit("Control connection reconnects.");
    reveal_strlit("rfrp_client_work_conns_total");
    reveal_strlit("Work connections established.");
    reveal_strlit("rfrp_client_work_conn_failures_total");
    reveal_strlit("Work connection failures.");
    reveal_strlit("rfrp_client_proxy_register_failures_total");
    reveal_strlit("Proxy registration failures.");
    reveal_strlit("rfrp_client_proxy_register_retry_success_total");
    reveal_strlit("Proxies registered after retry.");
    reveal_strlit("1");
    reveal_strlit("0");
    lemma_decimal_one_line(uptime as nat);
    lemma_decimal_one_line(m.rtt_ms as nat);
    lemma_decimal_one_line(m.reconnects_total as nat);
    lemma_decimal_one_line(m.work_conns_total as nat);
    lemma_decimal_one_line(m.work_conn_failures_total as nat);
    lemma_decimal_one_line(m.proxy_register_failures_total as nat);
    lemma_decimal_one_line(m.proxy_register_retry_success_total as nat);
    let ms = shown_metrics(m, uptime);
    assert forall|i: int| 0 <= i < ms.len() implies showable(#[trigger] ms[i]) by {
    }
    assert forall|i: int, j: int|
        0 <= i < ms.len() && 0 <= j < ms.len() && i != j implies (#[trigger] ms[i]).name != (
    #[trigger] ms[j]).name by {
        assert(ms[i].name.len() != ms[j].name.len() || ms[i].name[12] != ms[j].name[12]);
    }
}

/// Each metric is shown in exactly one line, behind the lines that explain it.
pub proof fn law_metrics_shown_once(m: ClientMetrics, uptime: u64, k: int)
    requires
        0 <= k < shown_metrics(m, uptime).len(),
    ensures
        shown_once(metrics_text(m, uptime), shown_metrics(m, uptime)[k]),
        shown_metrics(m, uptime)[k].help is Some,
{
    lemma_metrics_showable(m, uptime);
    law_each_metric_once(shown_metrics(m, uptime), k);
}

/// No other metric is shown.
pub proof fn law_metrics_shown_only(m: ClientMetrics, uptime: u64, other: Seq<char>, j: int)
    requires
        is_name(other),
        forall|o: int|
            0 <= o < shown_metrics(m, uptime).len() ==> (#[trigger] shown_metrics(m, uptime)[o]).name
                != other,
        0 <= j < lines_of(metrics_text(m, uptime)).len(),
    ensures
        !is_sample_of(lines_of(metrics_text(m, uptime))[j], other),
{
    lemma_metrics_showable(m, uptime);
    law_no_other_metric(shown_metrics(m, uptime), other, j);
}

/// A metric is shown as a counter exactly where its name ends in `_total`.
pub proof fn law_totals_are_counters(m: ClientMetrics, uptime: u64, k: int)
    requires
        0 <= k < shown_metrics(m, uptime).len(),
    ensures
        shown_metrics(m, uptime)[k].counter <==> is_total(shown_metrics(m, uptime)[k].name),
{
    reveal_strlit("_total");
    reveal_strlit("rfrp_client_uptime_seconds");
    reveal_strlit("rfrp_client_rtt_ms");
    reveal_strlit("rfrp_client_connected");
    reveal_strlit("rfrp_client_reconnects_total");
    reveal_strlit("rfrp_client_work_conns_total");
    reveal_strlit("rfrp_client_work_conn_failures_total");
    reveal_strlit("rfrp_client_proxy_register_failures_total");
    reveal_strlit("rfrp_client_proxy_register_retry_success_total");
    let x = shown_metrics(m, uptime)[k];
    let n = x.name.len() as int;
    let end = x.name.subrange(n - 6, n);
    assert(end[5] == x.name[n - 1]);
    if x.counter {
        assert(end =~= "_total"@);
    } else {
        assert(end[5] != "_total"@[5]);
    }
}

/// Each metric is shown under its own name.
pub proof fn law_metrics_shown_by_name(m: ClientMetrics, uptime: u64)
    ensures
        ({
            let t = metrics_text(m, uptime);
            &&& has_line(t, "rfrp_client_uptime_seconds"@ + seq![' '] + decimal(uptime as nat))
            &&& has_line(t, "rfrp_client_rtt_ms"@ + seq![' '] + decimal(
                m.rtt_ms as nat,
            ))
            &&& has_line(t, "rfrp_client_connected"@ + seq![' '] + (if m.connected {
                "1"@
            } else {
                "0"@
            }))
            &&& has_line(t, "rfrp_client_reconnects_total"@ + seq![' '] + decimal(
                m.reconnects_total as nat,
            ))
            &&& has_line(t, "rfrp_client_work_conns_total"@ + seq![' '] + decimal(
                m.work_conns_total as nat,
            ))
            &&& has_line(t, "rfrp_client_work_conn_failures_total"@ + seq![' '] + decimal(
                m.work_conn_failures_total as nat,
            ))
            &&& has_line(t, "rfrp_client_proxy_register_failures_total"@ + seq![' '] + decimal(
                m.proxy_register_failures_total as nat,
            ))
            &&& has_line(t, "rfrp_client_proxy_register_retry_success_total"@ + seq![' '] + decimal(
                m.proxy_register_retry_success_total as nat,
            ))
        }),
{
    let ms = shown_metrics(m, uptime);
    assert(ms.len() == 8);
    assert forall|k: int| 0 <= k < 8 implies has_line(
        metrics_text(m, uptime),
        (#[trigger] ms[k]).name + seq![' '] + ms[k].value,
    ) by {
        law_metrics_shown_once(m, uptime, k);
        lemma_sample_shown(metrics_text(m, uptime), ms[k]);
    }
    assert(ms[0].name == "rfrp_client_uptime_seconds"@ && ms[1].name == "rfrp_client_rtt_ms"@ && ms[2].name == "rfrp_client_connected"@ && ms[3].name == "rfrp_client_reconnects_total"@ && ms[4].name == "rfrp_client_work_conns_total"@ && ms[5].name == "rfrp_client_work_conn_failures_total"@ && ms[6].name == "rfrp_client_proxy_register_failures_total"@ && ms[7].name == "rfrp_client_proxy_register_retry_success_total"@);
}

} // verus!
