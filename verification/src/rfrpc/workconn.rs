//! Work connections of the client.

use vstd::prelude::*;

use super::client::{ClientState, ClientStateView};
use super::metrics::ClientMetrics;
use crate::counter::wrapped_sum;
use crate::msg::{ProxyType, ReqWorkConn, StartWorkConn};
use crate::text::copy_optional;

verus! {

/// What has been done for a work connection so far.
#[derive(Clone, Copy, Debug, PartialEq, Eq, Structural)]
pub enum WorkStage {
    /// It was asked for.
    Asked,
    /// Connecting to the server was tried.
    Connected,
    /// The TLS handshake was tried.
    Secured,
    /// Making a socket for the local service was tried.
    Opened,
    /// Connecting to the local service was tried.
    Local,
    /// Saying what the connection is for was tried.
    Started,
}

/// How what was tried last went.
#[derive(Clone, Copy, Debug, PartialEq, Eq, Structural)]
pub enum StageResult {
    /// Well.
    Done,
    /// It failed.
    Failed,
    /// It took too long.
    TimedOut,
}

/// What is done next for a work connection.
pub enum WorkStep {
    /// Connect to the server.
    Connect,
    /// Do the TLS handshake.
    Handshake,
    /// Make a UDP socket.
    OpenUdp,
    /// Connect to the local service.
    ConnectLocal { ip: String, port: u16 },
    /// Say what the connection is for.
    Start(StartWorkConn),
    /// Join the connection with the local service.
    Bridge,
    /// Close, without an error.
    Close,
    /// Close, with this error.
    Error(&'static str),
    /// Close, with the error of what was tried.
    Propagate,
}

/// What is done next, without what goes with it.
#[derive(Clone, Copy, Debug, PartialEq, Eq, Structural)]
pub enum WorkPlan {
    /// Connect to the server.
    Connect,
    /// Do the TLS handshake.
    Handshake,
    /// Make a UDP socket.
    OpenUdp,
    /// Connect to the local service.
    ConnectLocal,
    /// Say what the connection is for.
    Start,
    /// Join the connection with the local service.
    Bridge,
    /// Close without an error: the proxy is unknown or its service not reachable.
    Close,
    /// Close: connecting took too long.
    ConnectTimeout,
    /// Close: TLS is asked for and not there.
    NoTls,
    /// Close: the handshake took too long.
    HandshakeTimeout,
    /// Close, with the error of what was tried.
    Propagate,
}

/// What is done next for a work connection of the proxy `name`. The local service is
/// connected before the server is told what the connection is for, so that the
/// server never keeps one that leads nowhere.
pub open spec fn work_plan(
    v: ClientStateView,
    name: Seq<char>,
    stage: WorkStage,
    result: StageResult,
) -> WorkPlan {
    let udp = v.proxies.contains_key(name) && v.proxies[name].kind == ProxyType::Udp;
    let to_local = if udp {
        WorkPlan::OpenUdp
    } else {
        WorkPlan::ConnectLocal
    };
    if !v.proxies.contains_key(name) {
        WorkPlan::Close
    } else {
        match stage {
            WorkStage::Asked => WorkPlan::Connect,
            WorkStage::Connected => match result {
                StageResult::TimedOut => WorkPlan::ConnectTimeout,
                StageResult::Failed => WorkPlan::Propagate,
                StageResult::Done => if !v.work_conn_tls {
                    to_local
                } else if v.has_tls {
                    WorkPlan::Handshake
                } else {
                    WorkPlan::NoTls
                },
            },
            WorkStage::Secured => match result {
                StageResult::TimedOut => WorkPlan::HandshakeTimeout,
                StageResult::Failed => WorkPlan::Propagate,
                StageResult::Done => to_local,
            },
            WorkStage::Opened => match result {
                StageResult::Done => WorkPlan::ConnectLocal,
                _ => WorkPlan::Propagate,
            },
            WorkStage::Local => match result {
                StageResult::Done => WorkPlan::Start,
                _ => WorkPlan::Close,
            },
            WorkStage::Started => match result {
                StageResult::Done => WorkPlan::Bridge,
                _ => WorkPlan::Propagate,
            },
        }
    }
}

/// Whether the step is the planned one, with what goes with it.
pub open spec fn step_is(
    step: WorkStep,
    plan: WorkPlan,
    v: ClientStateView,
    req: ReqWorkConn,
) -> bool {
    match plan {
        WorkPlan::Connect => step is Connect,
        WorkPlan::Handshake => step is Handshake,
        WorkPlan::OpenUdp => step is OpenUdp,
        WorkPlan::ConnectLocal => step matches WorkStep::ConnectLocal { ip, port } && ip@
            == v.proxies[req.proxy_name@].local_ip && port
            == v.proxies[req.proxy_name@].local_port,
        WorkPlan::Start => step matches WorkStep::Start(s) && s.proxy_name@ == req.proxy_name@
            && s.work_id == req.work_id && s.work_conn_token.deep_view() == v.work_conn_token,
        WorkPlan::Bridge => step is Bridge,
        WorkPlan::Close => step is Close,
        WorkPlan::ConnectTimeout => step matches WorkStep::Error(e) && e@
            == "work connection connect timeout"@,
        WorkPlan::NoTls => step matches WorkStep::Error(e) && e@
            == "work_conn_tls enabled but client TLS not initialized"@,
        WorkPlan::HandshakeTimeout => step matches WorkStep::Error(e) && e@
            == "work connection TLS handshake timeout"@,
        WorkPlan::Propagate => step is Propagate,
    }
}

/// The metrics after that: a connection that was joined is counted, and so is one that
/// failed, for whatever reason.
pub open spec fn work_metrics(m: ClientMetrics, plan: WorkPlan) -> ClientMetrics {
    match plan {
        WorkPlan::Bridge => ClientMetrics {
            work_conns_total: wrapped_sum(m.work_conns_total, 1),
            ..m
        },
        WorkPlan::Close | WorkPlan::ConnectTimeout | WorkPlan::NoTls
        | WorkPlan::HandshakeTimeout | WorkPlan::Propagate => ClientMetrics {
            work_conn_failures_total: wrapped_sum(m.work_conn_failures_total, 1),
            ..m
        },
        _ => m,
    }
}

/// One step towards a work connection.
pub fn handle_work_conn(
    state: &ClientState,
    req: &ReqWorkConn,
    stage: WorkStage,
    result: StageResult,
    metrics: &mut ClientMetrics,
) -> (r: WorkStep)
    ensures
        step_is(r, work_plan(state@, req.proxy_name@, stage, result), state@, *req),
        *final(metrics) == work_metrics(
            *old(metrics),
            work_plan(state@, req.proxy_name@, stage, result),
        ),
{
    let proxy = match state.proxies.get(&req.proxy_name) {
        Some(p) => p,
        None => {
            metrics.inc_work_conn_failure();
            return WorkStep::Close;
        },
    };
    let to_local: bool = match stage {
        WorkStage::Asked => {
            return WorkStep::Connect;
        },
        WorkStage::Connected => match result {
            StageResult::TimedOut => {
                metrics.inc_work_conn_failure();
                return WorkStep::Error("work connection connect timeout");
            },
            StageResult::Failed => {
                metrics.inc_work_conn_failure();
                return WorkStep::Propagate;
            },
            StageResult::Done => {
                if state.work_conn_tls {
                    if !state.has_tls {
                        metrics.inc_work_conn_failure();
                        return WorkStep::Error(
                            "work_conn_tls enabled but client TLS not initialized",
                        );
                    }
                    return WorkStep::Handshake;
                }
                true
            },
        },
        WorkStage::Secured => match result {
            StageResult::TimedOut => {
                metrics.inc_work_conn_failure();
                return WorkStep::Error("work connection TLS handshake timeout");
            },
            StageResult::Failed => {
                metrics.inc_work_conn_failure();
                return WorkStep::Propagate;
            },
            StageResult::Done => true,
        },
        WorkStage::Opened => match result {
            StageResult::Done => false,
            _ => {
                metrics.inc_work_conn_failure();
                return WorkStep::Propagate;
            },
        },
        WorkStage::Local => match result {
            StageResult::Done => {
                return WorkStep::Start(
                    StartWorkConn {
                        proxy_name: req.proxy_name.clone(),
                        work_id: req.work_id,
                        work_conn_token: copy_optional(&state.work_conn_token),
                    },
                );
            },
            _ => {
                metrics.inc_work_conn_failure();
                return WorkStep::Close;
            },
        },
        WorkStage::Started => match result {
            StageResult::Done => {
                metrics.inc_work_conn();
                return WorkStep::Bridge;
            },
            _ => {
                metrics.inc_work_conn_failure();
                return WorkStep::Propagate;
            },
        },
    };
    if to_local && proxy.kind == ProxyType::Udp {
        return WorkStep::OpenUdp;
    }
    WorkStep::ConnectLocal { ip: proxy.local_ip.clone(), port: proxy.local_port }
}

/// Every work connection that is asked for and comes to an end is counted once: as
/// established where it is joined, and as failed where it is not.
pub proof fn law_every_end_is_counted(
    v: ClientStateView,
    name: Seq<char>,
    stage: WorkStage,
    result: StageResult,
    m: ClientMetrics,
)
    ensures
        ({
            let p = work_plan(v, name, stage, result);
            let w = work_metrics(m, p);
            let goes_on = p == WorkPlan::Connect || p == WorkPlan::Handshake || p
                == WorkPlan::OpenUdp || p == WorkPlan::ConnectLocal || p == WorkPlan::Start;
            &&& w.work_conns_total == (if p == WorkPlan::Bridge {
                wrapped_sum(m.work_conns_total, 1)
            } else {
                m.work_conns_total
            })
            &&& w.work_conn_failures_total == (if goes_on || p == WorkPlan::Bridge {
                m.work_conn_failures_total
            } else {
                wrapped_sum(m.work_conn_failures_total, 1)
            })
        }),
{
}

/// The server is told what a work connection is for only after the local service has
/// been connected.
pub proof fn law_started_after_local(
    v: ClientStateView,
    name: Seq<char>,
    stage: WorkStage,
    result: StageResult,
)
    ensures
        work_plan(v, name, stage, result) == WorkPlan::Start ==> stage == WorkStage::Local && result
            == StageResult::Done,
        work_plan(v, name, stage, result) == WorkPlan::Bridge ==> stage == WorkStage::Started
            && result == StageResult::Done,
{
}

/// Where the server asks for TLS on work connections, no data goes over one without:
/// after connecting comes the handshake, or the end.
pub proof fn law_tls_is_not_skipped(v: ClientStateView, name: Seq<char>, result: StageResult)
    requires
        v.work_conn_tls,
    ensures
        ({
            let p = work_plan(v, name, WorkStage::Connected, result);
            p == WorkPlan::Handshake || p == WorkPlan::Close || p == WorkPlan::ConnectTimeout || p
                == WorkPlan::NoTls || p == WorkPlan::Propagate
        }),
{
}

/// The stage that a step leads to; none where it is the last one.
pub open spec fn stage_after(step: WorkStep) -> Option<WorkStage> {
    match step {
        WorkStep::Connect => Some(WorkStage::Connected),
        WorkStep::Handshake => Some(WorkStage::Secured),
        WorkStep::OpenUdp => Some(WorkStage::Opened),
        WorkStep::ConnectLocal { .. } => Some(WorkStage::Local),
        WorkStep::Start(_) => Some(WorkStage::Started),
        _ => None,
    }
}

/// Where all that is tried succeeds, a work connection of a known proxy is taken all the
/// way, step by step: the server is connected, secured where work connections use TLS,
/// the local service of the proxy is connected, by a socket of its own for UDP, the
/// server is told the proxy, the id and the token, and the two are joined. Nothing
/// counts as failed, and the joined connection counts as established.
pub proof fn law_work_connection_succeeds(
    v: ClientStateView,
    req: ReqWorkConn,
    stage: WorkStage,
    step: WorkStep,
    m: ClientMetrics,
)
    requires
        v.proxies.contains_key(req.proxy_name@),
        v.work_conn_tls ==> v.has_tls,
        step_is(step, work_plan(v, req.proxy_name@, stage, StageResult::Done), v, req),
    ensures
        ({
            let p = v.proxies[req.proxy_name@];
            let w = work_metrics(m, work_plan(v, req.proxy_name@, stage, StageResult::Done));
            let to_local = if p.kind == ProxyType::Udp {
                step is OpenUdp
            } else {
                step matches WorkStep::ConnectLocal { ip, port } && ip@ == p.local_ip && port
                    == p.local_port
            };
            &&& stage == WorkStage::Asked ==> step is Connect
            &&& stage == WorkStage::Connected ==> if v.work_conn_tls {
                step is Handshake
            } else {
                to_local
            }
            &&& stage == WorkStage::Secured ==> to_local
            &&& stage == WorkStage::Opened ==> (step matches WorkStep::ConnectLocal { ip, port }
                && ip@ == p.local_ip && port == p.local_port)
            &&& stage == WorkStage::Local ==> (step matches WorkStep::Start(s) && s.proxy_name@
                == req.proxy_name@ && s.work_id == req.work_id && s.work_conn_token.deep_view()
                == v.work_conn_token)
            &&& stage == WorkStage::Started ==> step is Bridge
            &&& w.work_conn_failures_total == m.work_conn_failures_total
            &&& w.work_conns_total as int == if stage == WorkStage::Started {
                (m.work_conns_total + 1) % 0x1_0000_0000_0000_0000
            } else {
                m.work_conns_total as int
            }
        }),
{
}

/// How many steps are left, at most, until a work connection is joined.
pub open spec fn steps_left(stage: WorkStage) -> nat {
    match stage {
        WorkStage::Asked => 5,
        WorkStage::Connected => 4,
        WorkStage::Secured => 3,
        WorkStage::Opened => 2,
        WorkStage::Local => 1,
        WorkStage::Started => 0,
    }
}

/// Each step that succeeds leads nearer to the join, so a work connection of a known
/// proxy for which all succeeds is joined in the end.
pub proof fn law_work_connection_is_joined(
    v: ClientStateView,
    req: ReqWorkConn,
    stage: WorkStage,
    step: WorkStep,
)
    requires
        v.proxies.contains_key(req.proxy_name@),
        v.work_conn_tls ==> v.has_tls,
        step_is(step, work_plan(v, req.proxy_name@, stage, StageResult::Done), v, req),
    ensures
        step is Bridge || (stage_after(step) matches Some(next) && steps_left(next) < steps_left(
            stage,
        )),
{
}

/// Where something that was tried fails, or no TLS is there that is asked for, the work
/// connection ends and is counted as failed. The server is told nothing, a local service
/// that cannot be reached is no error, and what took too long is said.
pub proof fn law_work_connection_fails(
    v: ClientStateView,
    req: ReqWorkConn,
    stage: WorkStage,
    result: StageResult,
    step: WorkStep,
    m: ClientMetrics,
)
    requires
        step_is(step, work_plan(v, req.proxy_name@, stage, result), v, req),
        !v.proxies.contains_key(req.proxy_name@) || (result != StageResult::Done && stage
            != WorkStage::Asked) || (stage == WorkStage::Connected && v.work_conn_tls
            && !v.has_tls),
    ensures
        ({
            let w = work_metrics(m, work_plan(v, req.proxy_name@, stage, result));
            &&& stage_after(step) is None && !(step is Bridge)
            &&& w.work_conn_failures_total as int == (m.work_conn_failures_total + 1)
                % 0x1_0000_0000_0000_0000
            &&& w.work_conns_total == m.work_conns_total
            &&& !v.proxies.contains_key(req.proxy_name@) ==> step is Close
            &&& v.proxies.contains_key(req.proxy_name@) ==> {
                &&& stage == WorkStage::Local ==> step is Close
                &&& stage == WorkStage::Connected && result == StageResult::Failed
                    ==> step is Propagate
                &&& stage == WorkStage::Connected && result == StageResult::TimedOut ==> (step
                    matches WorkStep::Error(e) && e@ == "work connection connect timeout"@)
                &&& stage == WorkStage::Connected && result == StageResult::Done ==> (step
                    matches WorkStep::Error(e) && e@
                    == "work_conn_tls enabled but client TLS not initialized"@)
                &&& stage == WorkStage::Secured && result == StageResult::Failed
                    ==> step is Propagate
                &&& stage == WorkStage::Secured && result == StageResult::TimedOut ==> (step
                    matches WorkStep::Error(e) && e@ == "work connection TLS handshake timeout"@)
                &&& stage == WorkStage::Opened || stage == WorkStage::Started
                    ==> step is Propagate
            }
        }),
{
}

} // verus!
