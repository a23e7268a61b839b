//! The control connection of the client.

use vstd::prelude::*;

use super::client::{ClientState, ClientStateView};
use super::metrics::ClientMetrics;
use crate::config::ClientConfig;
use crate::counter::{less, take_away};
use crate::limits::PROTOCOL_VERSION;
use crate::msg::{Login, LoginResp, Message, NewProxyResp, ReqWorkConn};

verus! {

/// The login of a client.
pub fn login_message(state: &ClientState, config: &ClientConfig) -> (r: Login)
    ensures
        r.run_id@ == state@.run_id,
        r.token@ == config.client.token@,
        r.version == PROTOCOL_VERSION,
{
    Login {
        run_id: state.run_id.clone(),
        token: config.client.token.clone(),
        version: PROTOCOL_VERSION,
    }
}

/// What happened on the control connection.
pub enum ControlEvent {
    /// A message came, at this time in milliseconds.
    Received { msg: Message, now_ms: u64 },
    /// A frame came that holds no message.
    Undecodable,
    /// The stream is broken.
    FrameError,
    /// The server closed the stream.
    Eof,
    /// A message is to be sent.
    Outbound(Message),
    /// No one sends any more.
    OutboundClosed,
    /// The server did not answer a sign of life.
    Dead,
    /// The client shuts down.
    Shutdown,
}

/// What is to be done about it.
pub enum ControlAction {
    /// Hand the answer to a registration to who waits for it.
    DeliverRegistration { waiter: u64, resp: NewProxyResp },
    /// Hand the answer to the login to who waits for it.
    DeliverLogin { waiter: u64, resp: LoginResp },
    /// Open a work connection.
    OpenWork(ReqWorkConn),
    /// Send this, unless there is no room.
    SendIfRoom(Message),
    /// Send this, or leave.
    SendOrLeave(Message),
    /// Wake who waits for an answer to a sign of life.
    Wake,
    /// Nothing.
    Ignore,
    /// Leave the loop.
    Leave,
    /// Leave with an error.
    Fail,
}

/// The last answer to a sign of life, by the clock in it.
#[derive(Clone, Copy, Debug, PartialEq, Eq, Structural)]
pub struct PongClock {
    /// The clock, in milliseconds; 0 before the first.
    pub ts: u64,
}

/// What is done about an event of the control loop.
pub open spec fn loop_action(r: ControlAction, v: ClientStateView, event: ControlEvent) -> bool {
    match event {
        ControlEvent::Received { msg, now_ms: _ } => match msg {
            Message::NewProxyResp(resp) => if v.resps.contains_key(resp.proxy_name@) {
                r == (ControlAction::DeliverRegistration {
                    waiter: v.resps[resp.proxy_name@],
                    resp,
                })
            } else {
                r is Ignore
            },
            Message::LoginResp(resp) => match v.login_tx {
                Some(waiter) => r == (ControlAction::DeliverLogin { waiter, resp }),
                None => r is Ignore,
            },
            Message::HeartbeatResp(_) => r is Wake,
            Message::ReqWorkConn(req) => r == ControlAction::OpenWork(req),
            Message::Heartbeat(ts) => r == ControlAction::SendIfRoom(Message::HeartbeatResp(ts)),
            Message::Close(_) => r is Leave,
            _ => r is Ignore,
        },
        ControlEvent::Outbound(m) => r == (if m is HeartbeatResp {
            ControlAction::SendIfRoom(m)
        } else {
            ControlAction::SendOrLeave(m)
        }),
        ControlEvent::Undecodable => r is Fail,
        _ => r is Leave,
    }
}

/// The state of the client after an event of the control loop.
pub open spec fn loop_state(v: ClientStateView, event: ControlEvent) -> ClientStateView {
    match event {
        ControlEvent::Received { msg: Message::NewProxyResp(resp), now_ms: _ } => ClientStateView {
            resps: v.resps.remove(resp.proxy_name@),
            ..v
        },
        ControlEvent::Received { msg: Message::LoginResp(_), now_ms: _ } => ClientStateView {
            login_tx: None,
            ..v
        },
        _ => v,
    }
}

/// Whether the sign of life with the clock `ts` was answered, at `now`.
pub open spec fn round_state(ts: u64, answered: u64, deadline: u128, now: u128) -> RoundState {
    if answered >= ts {
        RoundState::Answered
    } else if now < deadline {
        RoundState::Waiting((deadline - now) as u128)
    } else {
        RoundState::Dead
    }
}

/// One step of the control loop.
pub fn control_loop(
    state: &mut ClientState,
    pong: &mut PongClock,
    metrics: &mut ClientMetrics,
    event: ControlEvent,
) -> (r: ControlAction)
    ensures
        loop_action(r, old(state)@, event),
        final(state)@ == loop_state(old(state)@, event),
        match event {
            ControlEvent::Received { msg: Message::NewProxyResp(resp), now_ms: _ } => {
                let waits = old(state)@.resps.contains_key(resp.proxy_name@);
                &&& final(state)@ == (ClientStateView {
                    resps: old(state)@.resps.remove(resp.proxy_name@),
                    ..old(state)@
                })
                &&& r == (if waits {
                    ControlAction::DeliverRegistration {
                        waiter: old(state)@.resps[resp.proxy_name@],
                        resp,
                    }
                } else {
                    ControlAction::Ignore
                })
            },
            ControlEvent::Received { msg: Message::LoginResp(resp), now_ms: _ } => {
                &&& final(state)@ == (ClientStateView { login_tx: None, ..old(state)@ })
                &&& r == (match old(state)@.login_tx {
                    Some(waiter) => ControlAction::DeliverLogin { waiter, resp },
                    None => ControlAction::Ignore,
                })
            },
            _ => final(state)@ == old(state)@,
        },
        match event {
            ControlEvent::Received { msg: Message::HeartbeatResp(ts), now_ms } => {
                &&& r is Wake
                &&& final(pong).ts == ts
                &&& *final(metrics) == (ClientMetrics {
                    rtt_ms: less(now_ms, ts),
                    ..*old(metrics)
                })
            },
            _ => *final(pong) == *old(pong) && *final(metrics) == *old(metrics),
        },
        match event {
            ControlEvent::Received { msg, now_ms: _ } => match msg {
                Message::NewProxyResp(_) | Message::LoginResp(_) | Message::HeartbeatResp(_) => true,
                Message::ReqWorkConn(req) => r == ControlAction::OpenWork(req),
                Message::Heartbeat(ts) => r == ControlAction::SendIfRoom(
                    Message::HeartbeatResp(ts),
                ),
                Message::Close(_) => r is Leave,
                _ => r is Ignore,
            },
            ControlEvent::Outbound(m) => r == (if m is HeartbeatResp {
                ControlAction::SendIfRoom(m)
            } else {
                ControlAction::SendOrLeave(m)
            }),
            ControlEvent::Undecodable => r is Fail,
            _ => r is Leave,
        },
{
    match event {
        ControlEvent::Received { msg, now_ms } => match msg {
            Message::NewProxyResp(resp) => match state.resps.remove(&resp.proxy_name) {
                Some(waiter) => ControlAction::DeliverRegistration { waiter, resp },
                None => ControlAction::Ignore,
            },
            Message::ReqWorkConn(req) => ControlAction::OpenWork(req),
            Message::Heartbeat(ts) => ControlAction::SendIfRoom(Message::HeartbeatResp(ts)),
            Message::HeartbeatResp(ts) => {
                metrics.set_rtt_ms(take_away(now_ms, ts));
                pong.ts = ts;
                ControlAction::Wake
            },
            Message::LoginResp(resp) => {
                let waiter: Option<u64> = state.login_tx;
                state.login_tx = None;
                match waiter {
                    Some(waiter) => ControlAction::DeliverLogin { waiter, resp },
                    None => ControlAction::Ignore,
                }
            },
            Message::Close(_) => ControlAction::Leave,
            _ => ControlAction::Ignore,
        },
        ControlEvent::Outbound(m) => match m {
            Message::HeartbeatResp(ts) => ControlAction::SendIfRoom(Message::HeartbeatResp(ts)),
            other => ControlAction::SendOrLeave(other),
        },
        ControlEvent::Undecodable => ControlAction::Fail,
        ControlEvent::FrameError | ControlEvent::Eof | ControlEvent::OutboundClosed
        | ControlEvent::Dead | ControlEvent::Shutdown => ControlAction::Leave,
    }
}

/// Whether a sign of life was answered.
#[derive(Clone, Copy, Debug, PartialEq, Eq, Structural)]
pub enum RoundState {
    /// It was.
    Answered,
    /// Not yet; wait for so many nanoseconds.
    Waiting(u128),
    /// Not in time.
    Dead,
}

/// Whether the sign of life with the clock `ts` was answered at `now`, where
/// `deadline` is when it has to be. An answer to an earlier one does not count.
pub fn heartbeat_round(ts: u64, pong: &PongClock, deadline: u128, now: u128) -> (r: RoundState)
    ensures
        r == round_state(ts, pong.ts, deadline, now),
        r == (if pong.ts >= ts {
            RoundState::Answered
        } else if now < deadline {
            RoundState::Waiting((deadline - now) as u128)
        } else {
            RoundState::Dead
        }),
{
    if pong.ts >= ts {
        RoundState::Answered
    } else if now < deadline {
        RoundState::Waiting(deadline - now)
    } else {
        RoundState::Dead
    }
}

/// The reason that the server is given when the writer stops, where it is given one:
/// only where the client shuts down.
pub fn close_reason(shutting_down: bool) -> (r: Option<&'static str>)
    ensures
        match r {
            Some(s) => shutting_down && s@ == "client shutdown"@,
            None => !shutting_down,
        },
{
    if shutting_down {
        Some("client shutdown")
    } else {
        None
    }
}

/// What the client does for the server: it opens each work connection that is asked for,
/// answers each sign of life with its clock, and leaves when the server closes, is lost
/// or does not answer, or when the client shuts down.
pub proof fn law_server_is_served(r: ControlAction, v: ClientStateView, event: ControlEvent)
    requires
        loop_action(r, v, event),
    ensures
        event matches ControlEvent::Received { msg: Message::ReqWorkConn(req), now_ms: _ } ==> r
            == ControlAction::OpenWork(req),
        event matches ControlEvent::Received { msg: Message::Heartbeat(ts), now_ms: _ } ==> r
            == ControlAction::SendIfRoom(Message::HeartbeatResp(ts)),
        event matches ControlEvent::Received { msg: Message::HeartbeatResp(_), now_ms: _ }
            ==> r is Wake,
        event matches ControlEvent::Outbound(m) ==> r == ControlAction::SendIfRoom(m) || r
            == ControlAction::SendOrLeave(m),
        r is Leave || r is Fail <==> !(event is Received || event is Outbound) || (event
            matches ControlEvent::Received { msg, now_ms: _ } && msg is Close),
        r is Fail <==> event is Undecodable,
{
}

/// The answer to a registration goes to who waits for it, once; others keep waiting. One
/// that no one waits for is let go. The same holds of the answer to the login.
pub proof fn law_answers_reach_their_waiter(
    r: ControlAction,
    v: ClientStateView,
    resp: NewProxyResp,
    login: LoginResp,
    l: ControlAction,
    now_ms: u64,
    other: Seq<char>,
)
    requires
        loop_action(
            r,
            v,
            ControlEvent::Received { msg: Message::NewProxyResp(resp), now_ms },
        ),
        loop_action(l, v, ControlEvent::Received { msg: Message::LoginResp(login), now_ms }),
        other != resp.proxy_name@,
    ensures
        ({
            let w = loop_state(
                v,
                ControlEvent::Received { msg: Message::NewProxyResp(resp), now_ms },
            );
            let x = loop_state(v, ControlEvent::Received { msg: Message::LoginResp(login), now_ms });
            &&& v.resps.contains_key(resp.proxy_name@) ==> r == (
            ControlAction::DeliverRegistration { waiter: v.resps[resp.proxy_name@], resp })
            &&& !v.resps.contains_key(resp.proxy_name@) ==> r is Ignore
            &&& !w.resps.contains_key(resp.proxy_name@)
            &&& w.resps.contains_key(other) == v.resps.contains_key(other)
            &&& v.resps.contains_key(other) ==> w.resps[other] == v.resps[other]
            &&& v.login_tx matches Some(waiter) ==> l == (ControlAction::DeliverLogin {
                waiter,
                resp: login,
            })
            &&& v.login_tx is None ==> l is Ignore
            &&& x.login_tx is None && x.resps == v.resps
        }),
{
}

/// A sign of life is waited for until its deadline and no longer; only an answer to it,
/// or to a later one, counts.
pub proof fn law_silent_server_is_dead(ts: u64, answered: u64, deadline: u128, now: u128)
    ensures
        round_state(ts, answered, deadline, now) == RoundState::Answered <==> answered >= ts,
        round_state(ts, answered, deadline, now) == RoundState::Dead <==> answered < ts && now
            >= deadline,
        round_state(ts, answered, deadline, now) matches RoundState::Waiting(t) ==> now + t
            == deadline && t > 0,
{
}

} // verus!
