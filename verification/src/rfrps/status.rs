//! What the dashboard shows of the state.

use vstd::prelude::*;

use super::metrics::ProxyStats;
use super::session::{ProxyEntryView, Session, SessionView};
use super::state::{Gauges, ServerState, StateView};
use crate::msg::ProxyType;
use crate::order::{
    comes_before, lemma_before_total, lemma_before_transitive, text_before,
};
use crate::table::{lemma_map_of, Table};
use crate::text::copy_list;

verus! {

/// A proxy, as it is shown.
#[derive(Clone, Debug)]
pub struct ProxyReport {
    /// Name.
    pub name: String,
    /// What it carries.
    pub kind: ProxyType,
    /// Public port.
    pub remote_port: Option<u16>,
    /// Domains.
    pub domains: Vec<String>,
}

/// What a [`ProxyReport`] stands for.
pub struct ProxyReportView {
    pub name: Seq<char>,
    pub kind: ProxyType,
    pub remote_port: Option<u16>,
    pub domains: Seq<Seq<char>>,
}

impl DeepView for ProxyReport {
    type V = ProxyReportView;

    open spec fn deep_view(&self) -> ProxyReportView {
        ProxyReportView {
            name: self.name@,
            kind: self.kind,
            remote_port: self.remote_port,
            domains: self.domains.deep_view(),
        }
    }
}

/// A session, as it is shown.
#[derive(Clone, Debug)]
pub struct SessionReport {
    /// Identity of the client.
    pub run_id: String,
    /// Identity of the session.
    pub session_id: String,
    /// Its proxies.
    pub proxies: Vec<ProxyReport>,
}

/// The counters of a proxy, as they are shown.
#[derive(Clone, Debug)]
pub struct StatsReport {
    /// Name of the proxy.
    pub name: String,
    /// Its counters.
    pub stats: ProxyStats,
}

/// The state, as it is shown.
#[derive(Clone, Debug)]
pub struct StatusReport {
    /// Version of the program.
    pub version: String,
    /// Seconds since the start.
    pub uptime_seconds: u64,
    /// Current sessions.
    pub sessions: Vec<SessionReport>,
    /// Counts of what there is.
    pub gauges: Gauges,
    /// Last round trip, in milliseconds.
    pub rtt_ms: u64,
    /// Counters of each proxy, by name.
    pub proxy_stats: Vec<StatsReport>,
    /// User connections taken on.
    pub total_connections: u64,
    /// User connections that are open.
    pub active_connections: i64,
    /// Bytes from users.
    pub bytes_up: u64,
    /// Bytes to users.
    pub bytes_down: u64,
    /// Connections accepted on the main port.
    pub accepted_total: u64,
    /// Failed accepts.
    pub accept_errors_total: u64,
    /// Dropped UDP datagrams.
    pub udp_dropped_total: u64,
    /// Whether the last accept succeeded.
    pub accepting: bool,
}

/// How a proxy is shown.
pub open spec fn shown(name: Seq<char>, e: ProxyEntryView) -> ProxyReportView {
    ProxyReportView {
        name,
        kind: e.kind,
        remote_port: e.remote_port,
        domains: e.custom_domains,
    }
}

/// Whether the list shows each proxy once and nothing else.
pub open spec fn shows_proxies(
    list: Seq<ProxyReportView>,
    proxies: Map<Seq<char>, ProxyEntryView>,
) -> bool {
    &&& list.len() == proxies.len()
    &&& forall|i: int|
        0 <= i < list.len() ==> proxies.contains_key((#[trigger] list[i]).name) && list[i] == shown(
            list[i].name,
            proxies[list[i].name],
        )
    &&& forall|i: int, j: int|
        0 <= i < j < list.len() ==> (#[trigger] list[i]).name != (#[trigger] list[j]).name
}

/// Whether the report shows this session.
pub open spec fn shows_session(r: SessionReport, s: SessionView) -> bool {
    &&& r.run_id@ == s.run_id
    &&& r.session_id@ == s.session_id
    &&& shows_proxies(r.proxies.deep_view(), s.proxies)
}

/// Whether the list is in the order of names.
pub open spec fn in_order(list: Seq<StatsReport>) -> bool {
    forall|i: int, j: int|
        0 <= i < j < list.len() ==> text_before((#[trigger] list[i]).name@, (#[trigger] list[j]).name@)
}

/// Whether the list shows the counters of each proxy and nothing else.
pub open spec fn shows_stats(list: Seq<StatsReport>, stats: Map<Seq<char>, ProxyStats>) -> bool {
    &&& list.len() == stats.len()
    &&& forall|i: int|
        0 <= i < list.len() ==> stats.contains_key((#[trigger] list[i]).name@)
            && stats[list[i].name@] == list[i].stats
}

/// Shows the proxies of a session.
fn report_proxies(s: &Session) -> (r: Vec<ProxyReport>)
    ensures
        shows_proxies(r.deep_view(), s.proxies@),
{
    let ghost e = s.proxies.entries();
    let n: usize = s.proxies.len();
    proof {
        lemma_map_of(e);
    }
    let mut out: Vec<ProxyReport> = Vec::new();
    let mut i: usize = 0;
    while i < n
        invariant
            i <= n == e.len(),
            e == s.proxies.entries(),
            out.deep_view().len() == i,
            forall|j: int| 0 <= j < i ==> #[trigger] out.deep_view()[j] == shown(e[j].0, e[j].1),
        decreases n - i,
    {
        let (name, entry) = s.proxies.nth(i);
        let ghost before = out.deep_view();
        let report = ProxyReport {
            name: name.clone(),
            kind: entry.kind,
            remote_port: entry.remote_port,
            domains: copy_list(&entry.custom_domains),
        };
        out.push(report);
        assert(out.deep_view() =~= before.push(shown(e[i as int].0, e[i as int].1)));
        i += 1;
    }
    proof {
        let list = out.deep_view();
        assert forall|a: int| 0 <= a < list.len() implies s.proxies@.contains_key(
            (#[trigger] list[a]).name,
        ) && list[a] == shown(list[a].name, s.proxies@[list[a].name]) by {
            assert(s.proxies@.contains_key(e[a].0));
        }
        assert forall|a: int, b: int| 0 <= a < b < list.len() implies (#[trigger] list[a]).name != (
        #[trigger] list[b]).name by {
            assert(e[a].0 != e[b].0);
        }
    }
    out
}

/// Puts counters where the order of names wants them.
fn insert_stats(list: &mut Vec<StatsReport>, report: StatsReport)
    requires
        in_order(old(list)@),
        forall|i: int| 0 <= i < old(list)@.len() ==> (#[trigger] old(list)@[i]).name@ != report.name@,
    ensures
        in_order(final(list)@),
        exists|at: int|
            0 <= at <= old(list)@.len() && final(list)@ == #[trigger] old(list)@.insert(at, report),
{
    let ghost all = list@;
    let ghost name = report.name@;
    let mut at: usize = 0;
    while at < list.len() && comes_before(list[at].name.as_str(), report.name.as_str())
        invariant
            list@ == all,
            at <= all.len(),
            forall|j: int| 0 <= j < at ==> text_before((#[trigger] all[j]).name@, report.name@),
        decreases all.len() - at,
    {
        at += 1;
    }
    proof {
        assert forall|j: int| at <= j < all.len() implies text_before(
            name,
            (#[trigger] all[j]).name@,
        ) by {
            lemma_before_total(all[at as int].name@, name);
            if j > at {
                lemma_before_transitive(name, all[at as int].name@, all[j].name@);
            }
        }
        let new = all.insert(at as int, report);
        assert forall|i: int, j: int| 0 <= i < j < new.len() implies text_before(
            (#[trigger] new[i]).name@,
            (#[trigger] new[j]).name@,
        ) by {
            let i0 = if i < at { i } else { i - 1 };
            let j0 = if j < at { j } else { j - 1 };
            if i != at {
                assert(new[i] == all[i0]);
            }
            if j != at {
                assert(new[j] == all[j0]);
            }
        }
    }
    list.insert(at, report);
}

/// Shows the counters of all proxies, by name.
fn report_stats(table: &Table<String, ProxyStats>) -> (r: Vec<StatsReport>)
    ensures
        in_order(r@),
        shows_stats(r@, table@),
{
    let ghost e = table.entries();
    let n: usize = table.len();
    proof {
        lemma_map_of(e);
    }
    let mut out: Vec<StatsReport> = Vec::new();
    let mut i: usize = 0;
    while i < n
        invariant
            i <= n == e.len(),
            e == table.entries(),
            crate::table::unique_keys(e),
            out@.len() == i,
            in_order(out@),
            forall|a: int|
                0 <= a < out@.len() ==> exists|j: int|
                    0 <= j < i && (#[trigger] e[j]) == ((#[trigger] out@[a]).name@, out@[a].stats),
        decreases n - i,
    {
        let (name, stats) = table.nth(i);
        let ghost before = out@;
        let report = StatsReport { name: name.clone(), stats: *stats };
        proof {
            assert forall|a: int| 0 <= a < out@.len() implies (#[trigger] out@[a]).name@
                != report.name@ by {
                let j = choose|j: int|
                    0 <= j < i && (#[trigger] e[j]) == (out@[a].name@, out@[a].stats);
                assert(e[j].0 != e[i as int].0);
            }
        }
        insert_stats(&mut out, report);
        proof {
            let at = choose|at: int|
                0 <= at <= before.len() && out@ == #[trigger] before.insert(at, report);
            assert forall|a: int| 0 <= a < out@.len() implies exists|j: int|
                0 <= j < i + 1 && (#[trigger] e[j]) == ((#[trigger] out@[a]).name@, out@[a].stats) by {
                if a == at {
                    assert(e[i as int] == (out@[a].name@, out@[a].stats));
                } else {
                    let a0 = if a < at { a } else { a - 1 };
                    assert(out@[a] == before[a0]);
                    let j = choose|j: int|
                        0 <= j < i && (#[trigger] e[j]) == (before[a0].name@, before[a0].stats);
                    assert(e[j] == (out@[a].name@, out@[a].stats));
                }
            }
        }
        i += 1;
    }
    proof {
        assert forall|a: int| 0 <= a < out@.len() implies table@.contains_key(
            (#[trigger] out@[a]).name@,
        ) && table@[out@[a].name@] == out@[a].stats by {
            let j = choose|j: int|
                0 <= j < n && (#[trigger] e[j]) == (out@[a].name@, out@[a].stats);
            assert(table@.contains_key(e[j].0));
        }
    }
    out
}

/// Whether the report shows each client's current session, and no other.
pub open spec fn shows_sessions(r: Seq<SessionReport>, v: StateView) -> bool {
    &&& r.len() == v.sessions.len()
    &&& forall|run_id: Seq<char>| #[trigger]
        v.sessions.contains_key(run_id) ==> exists|i: int|
            0 <= i < r.len() && shows_session(#[trigger] r[i], v.live[v.sessions[run_id]])
}

/// Shows the state, after `uptime` seconds.
pub fn status_json(state: &ServerState, version: &str, uptime: u64) -> (r: StatusReport)
    requires
        state@.wf(),
    ensures
        r.version@ == version@,
        r.uptime_seconds == uptime,
        shows_sessions(r.sessions@, state@),
        r.sessions@.len() == state.sessions.entries().len(),
        forall|i: int|
            0 <= i < r.sessions@.len() ==> shows_session(
                #[trigger] r.sessions@[i],
                state@.live[state.sessions.entries()[i].1],
            ),
        r.gauges == state@.gauges(),
        r.rtt_ms == state@.metrics.rtt_ms,
        in_order(r.proxy_stats@),
        shows_stats(r.proxy_stats@, state@.proxy_stats),
        r.total_connections == state@.metrics.total_connections,
        r.active_connections == state@.metrics.active_connections,
        r.bytes_up == state@.metrics.bytes_up,
        r.bytes_down == state@.metrics.bytes_down,
        r.accepted_total == state@.metrics.accepted_total,
        r.accept_errors_total == state@.metrics.accept_errors_total,
        r.udp_dropped_total == state@.metrics.udp_dropped_total,
        r.accepting == state@.metrics.accepting,
{
    let ghost v = state@;
    let ghost e = state.sessions.entries();
    let n: usize = state.sessions.len();
    proof {
        lemma_map_of(e);
    }
    let mut sessions: Vec<SessionReport> = Vec::new();
    let mut i: usize = 0;
    while i < n
        invariant
            i <= n == e.len(),
            e == state.sessions.entries(),
            v == state@,
            v.wf(),
            forall|j: int|
                0 <= j < n ==> v.sessions.contains_key((#[trigger] e[j]).0) && v.sessions[e[j].0]
                    == e[j].1,
            sessions@.len() == i,
            forall|j: int|
                0 <= j < i ==> shows_session(#[trigger] sessions@[j], v.live[e[j].1]),
        decreases n - i,
    {
        let (_, key) = state.sessions.nth(i);
        assert(v.sessions.contains_key(e[i as int].0));
        if let Some(s) = state.live.get(key) {
            sessions.push(
                SessionReport {
                    run_id: s.run_id.clone(),
                    session_id: s.session_id.clone(),
                    proxies: report_proxies(s),
                },
            );
        }
        i += 1;
    }
    proof {
        assert forall|run_id: Seq<char>| #[trigger] v.sessions.contains_key(run_id) implies exists|
            j: int,
        | 0 <= j < sessions@.len() && shows_session(
            #[trigger] sessions@[j],
            v.live[v.sessions[run_id]],
        ) by {
            let j = choose|j: int| 0 <= j < e.len() && (#[trigger] e[j]).0 == run_id;
            assert(shows_session(sessions@[j], v.live[e[j].1]));
        }
    }
    let m = &state.metrics;
    StatusReport {
        version: version.to_owned(),
        uptime_seconds: uptime,
        sessions,
        gauges: state.gauges(),
        rtt_ms: m.rtt_ms(),
        proxy_stats: report_stats(&state.proxy_stats),
        total_connections: m.total_connections,
        active_connections: m.active_connections,
        bytes_up: m.bytes_up,
        bytes_down: m.bytes_down,
        accepted_total: m.accepted_total,
        accept_errors_total: m.accept_errors_total,
        udp_dropped_total: m.udp_dropped_total,
        accepting: m.is_accepting(),
    }
}

/// A report of a session lists every proxy that the session has, with its type, its port
/// and its domains, and no other.
pub proof fn law_every_proxy_is_listed(
    list: Seq<ProxyReportView>,
    proxies: Map<Seq<char>, ProxyEntryView>,
    name: Seq<char>,
)
    requires
        shows_proxies(list, proxies),
        proxies.dom().finite(),
    ensures
        proxies.contains_key(name) <==> exists|i: int|
            0 <= i < list.len() && (#[trigger] list[i]).name == name,
        forall|i: int|
            0 <= i < list.len() && (#[trigger] list[i]).name == name ==> list[i].kind
                == proxies[name].kind && list[i].remote_port == proxies[name].remote_port
                && list[i].domains == proxies[name].custom_domains,
{
    let names = Seq::new(list.len(), |i: int| list[i].name);
    assert(names.no_duplicates()) by {
        assert forall|i: int, j: int|
            0 <= i < names.len() && 0 <= j < names.len() && i != j implies names[i] != names[j] by {
            if i < j {
                assert(list[i].name != list[j].name);
            } else {
                assert(list[j].name != list[i].name);
            }
        }
    }
    names.unique_seq_to_set();
    let s = names.to_set();
    assert(s.subset_of(proxies.dom())) by {
        assert forall|n: Seq<char>| s.contains(n) implies proxies.dom().contains(n) by {
            let i = choose|i: int| 0 <= i < names.len() && names[i] == n;
            assert(proxies.contains_key(list[i].name));
        }
    }
    vstd::set_lib::lemma_subset_equality(s, proxies.dom());
    if proxies.contains_key(name) {
        assert(s.contains(name));
        let i = choose|i: int| 0 <= i < names.len() && names[i] == name;
        assert(list[i].name == name);
    }
    assert forall|i: int| 0 <= i < list.len() && (#[trigger] list[i]).name == name implies
        list[i].kind == proxies[name].kind && list[i].remote_port == proxies[name].remote_port
        && list[i].domains == proxies[name].custom_domains && proxies.contains_key(name) by {
    }
}

/// The status lists every client that has a session, and under it each of its proxies,
/// with its type, its port and its domains.
pub proof fn law_status_lists_registered(
    r: Seq<SessionReport>,
    v: StateView,
    run_id: Seq<char>,
    name: Seq<char>,
)
    requires
        v.wf(),
        shows_sessions(r, v),
        v.sessions.contains_key(run_id),
        v.live[v.sessions[run_id]].proxies.dom().finite(),
        v.live[v.sessions[run_id]].proxies.contains_key(name),
    ensures
        r.len() == v.sessions.len(),
        exists|i: int, j: int|
            #![trigger r[i].proxies.deep_view()[j]]
            0 <= i < r.len() && r[i].run_id@ == run_id && 0 <= j < r[i].proxies.deep_view().len()
                && {
                let p = r[i].proxies.deep_view()[j];
                let e = v.live[v.sessions[run_id]].proxies[name];
                p.name == name && p.kind == e.kind && p.remote_port == e.remote_port && p.domains
                    == e.custom_domains
            },
{
    let s = v.live[v.sessions[run_id]];
    let i = choose|i: int| 0 <= i < r.len() && shows_session(#[trigger] r[i], s);
    let list = r[i].proxies.deep_view();
    law_every_proxy_is_listed(list, s.proxies, name);
    let j = choose|j: int| 0 <= j < list.len() && (#[trigger] list[j]).name == name;
    assert(list[j].kind == s.proxies[name].kind);
    assert(r[i].proxies.deep_view()[j] == list[j]);
}

} // verus!
