//! The dashboard: which request gets which answer.

use vstd::prelude::*;

use super::basic::{
    authorized, base64_text, basic_payload, check_credentials, decoded_payload, encode_basic,
    is_authorized, law_session_cookie_authorizes, session_payload,
};
use super::form::{login_form, parse_login_form};
use super::metrics::{prometheus_text, render_prometheus_at};
use super::pages::{login_page, render_login_page};
use super::state::{ServerState, StateView};
use crate::config::DashboardSection;
use crate::http::{
    has_header_name, head_view, header_text, is_named, page_response, parse_head, parsed_head,
    plain, respond, status_response, value_text, Head, HeadView, Response, ResponseView,
};
use crate::text::{
    ascii_lowered, contains, from_chars, has_part, parse_usize, parsed_usize, same,
    to_ascii_lowercase, to_chars, trim, trimmed,
};

verus! {

/// Name of the session cookie.
pub open spec fn session_cookie() -> Seq<char> {
    "rfrp_dashboard"@
}

/// Longest login form, in bytes.
pub const MAX_LOGIN_BODY: usize = 4096;

/// What the dashboard reads of a request.
#[derive(Clone, Debug)]
pub struct ParsedHead {
    /// Method.
    pub method: String,
    /// Target.
    pub path: String,
    /// Length of the body.
    pub content_length: usize,
    /// Whether the client accepts HTML.
    pub accept_html: bool,
    /// `Authorization` header.
    pub authorization: Option<String>,
    /// `Cookie` header.
    pub cookie: Option<String>,
}

/// What a [`ParsedHead`] stands for.
pub struct ParsedHeadView {
    pub method: Seq<char>,
    pub path: Seq<char>,
    pub content_length: usize,
    pub accept_html: bool,
    pub authorization: Option<Seq<char>>,
    pub cookie: Option<Seq<char>>,
}

impl View for ParsedHead {
    type V = ParsedHeadView;

    open spec fn view(&self) -> ParsedHeadView {
        ParsedHeadView {
            method: self.method@,
            path: self.path@,
            content_length: self.content_length,
            accept_html: self.accept_html,
            authorization: self.authorization.deep_view(),
            cookie: self.cookie.deep_view(),
        }
    }
}

/// The text of a header value without white space around it; nothing where it is
/// not valid UTF-8.
pub open spec fn clean_value(value: Seq<u8>) -> Seq<char> {
    match value_text(value) {
        Some(t) => trimmed(t),
        None => trimmed(Seq::empty()),
    }
}

/// What is read of a request after one more header.
pub open spec fn with_header(
    p: ParsedHeadView,
    name: Seq<char>,
    value: Seq<char>,
) -> ParsedHeadView {
    if is_named(name, "content-length"@) {
        ParsedHeadView {
            content_length: match parsed_usize(value) {
                Some(n) => n,
                None => 0,
            },
            ..p
        }
    } else if is_named(name, "accept"@) {
        ParsedHeadView { accept_html: has_part(ascii_lowered(value), "text/html"@), ..p }
    } else if is_named(name, "authorization"@) {
        ParsedHeadView { authorization: Some(value), ..p }
    } else if is_named(name, "cookie"@) {
        ParsedHeadView { cookie: Some(value), ..p }
    } else {
        p
    }
}

/// What is read of a request after all headers, a later one before an earlier.
pub open spec fn with_headers(
    p: ParsedHeadView,
    headers: Seq<(Seq<char>, Seq<u8>)>,
) -> ParsedHeadView
    decreases headers.len(),
{
    if headers.len() == 0 {
        p
    } else {
        with_header(
            with_headers(p, headers.drop_last()),
            headers.last().0,
            clean_value(headers.last().1),
        )
    }
}

/// What is read of a request of which nothing is known.
pub open spec fn default_head() -> ParsedHeadView {
    ParsedHeadView {
        method: "GET"@,
        path: "/"@,
        content_length: 0,
        accept_html: false,
        authorization: None,
        cookie: None,
    }
}

/// What is read of a head that was parsed as `parsed`; one that is not complete
/// counts for nothing.
pub open spec fn head_fields(parsed: Result<Option<HeadView>, ()>) -> ParsedHeadView {
    match parsed {
        Ok(Some(head)) => {
            let d = default_head();
            with_headers(
                ParsedHeadView {
                    method: match head.0 {
                        Some(m) => m,
                        None => d.method,
                    },
                    path: match head.1 {
                        Some(p) => p,
                        None => d.path,
                    },
                    ..d
                },
                head.2,
            )
        },
        _ => default_head(),
    }
}

/// The text of a header value without white space around it.
fn clean_text(value: &Vec<u8>) -> (r: String)
    ensures
        r@ == clean_value(value@),
{
    let text = match header_text(value) {
        Some(t) => t,
        None => String::new(),
    };
    from_chars(&trim(&to_chars(text.as_str())))
}

impl ParsedHead {
    /// A request of which nothing is known.
    fn unknown() -> (r: ParsedHead)
        ensures
            r@ == default_head(),
    {
        ParsedHead {
            method: "GET".to_owned(),
            path: "/".to_owned(),
            content_length: 0,
            accept_html: false,
            authorization: None,
            cookie: None,
        }
    }

    /// Takes one more header in.
    fn add_header(&mut self, name: &str, value: String)
        ensures
            final(self)@ == with_header(old(self)@, name@, value@),
    {
        if has_header_name(name, "content-length") {
            self.content_length = match parse_usize(&to_chars(value.as_str())) {
                Some(n) => n,
                None => 0,
            };
        } else if has_header_name(name, "accept") {
            self.accept_html = contains(
                &to_ascii_lowercase(&to_chars(value.as_str())),
                "text/html",
            );
        } else if has_header_name(name, "authorization") {
            self.authorization = Some(value);
        } else if has_header_name(name, "cookie") {
            self.cookie = Some(value);
        }
    }

    /// Reads a head that was parsed as `parsed`.
    pub fn from_parsed(parsed: &Result<Option<Head>, ()>) -> (r: ParsedHead)
        ensures
            r@ == head_fields(head_view(*parsed)),
    {
        let mut out = ParsedHead::unknown();
        if let Ok(Some(head)) = parsed {
            if let Some(m) = &head.0 {
                out.method = m.clone();
            }
            if let Some(p) = &head.1 {
                out.path = p.clone();
            }
            let ghost start = out@;
            let headers = &head.2;
            let ghost all = headers.deep_view();
            let mut i: usize = 0;
            assert(all.take(0) =~= Seq::empty());
            while i < headers.len()
                invariant
                    i <= headers@.len(),
                    all == headers.deep_view(),
                    out@ == with_headers(start, all.take(i as int)),
                decreases headers@.len() - i,
            {
                assert(all.take(i + 1).drop_last() =~= all.take(i as int));
                assert(headers@[i as int].1.deep_view() =~= headers@[i as int].1@);
                assert(all.take(i + 1).last() == headers@[i as int].deep_view());
                let value = clean_text(&headers[i].1);
                out.add_header(headers[i].0.as_str(), value);
                i += 1;
            }
            assert(all.take(i as int) =~= all);
        }
        out
    }

    /// Reads a request head.
    pub fn parse(head: &[u8]) -> (r: ParsedHead)
        ensures
            r@ == head_fields(parsed_head(head@)),
    {
        let parsed = parse_head(head);
        ParsedHead::from_parsed(&parsed)
    }

    /// Whether the request may see the dashboard.
    pub fn authorized(&self, cfg: &DashboardSection) -> (r: bool)
        ensures
            r == allowed_in(self@, *cfg),
    {
        authorized(&self.authorization, &self.cookie, "rfrp_dashboard", cfg)
    }
}

/// Whether a request may see the dashboard.
pub open spec fn allowed_in(req: ParsedHeadView, cfg: DashboardSection) -> bool {
    is_authorized(
        decoded_payload(basic_payload(req.authorization)),
        decoded_payload(session_payload(req.cookie, session_cookie())),
        cfg,
    )
}

/// Status and body of the health check.
pub fn health_response(state: &ServerState) -> (r: (u16, &'static str))
    ensures
        state@.metrics.accepting ==> r.0 == 200 && r.1@ == "ok\n"@,
        !state@.metrics.accepting ==> r.0 == 503 && r.1@ == "unhealthy: accept loop failing\n"@,
{
    if state.metrics.is_accepting() {
        (200, "ok\n")
    } else {
        (503, "unhealthy: accept loop failing\n")
    }
}

/// What a request asks for.
#[derive(Clone, Copy, Debug, PartialEq, Eq, Structural)]
pub enum Route {
    /// The health check.
    Health,
    /// A login form that is too long.
    FormTooLong,
    /// A login form of this length.
    Form(usize),
    /// The login page.
    LoginPage,
    /// Something that it may not see.
    Unauthorized,
    /// The login page, though logged in.
    Home,
    /// To log out.
    Logout,
    /// The dashboard page.
    Page,
    /// The state as JSON.
    Status,
    /// The metrics.
    Metrics,
    /// Nothing that there is.
    NotFound,
}

/// What a request asks for. The health check is open to all; a login form is read
/// whoever sends it; all else is for those who are logged in.
pub open spec fn route_of(req: ParsedHeadView, authenticated: bool) -> Route {
    if req.path == "/healthz"@ {
        Route::Health
    } else if ascii_lowered(req.method) == "post"@ && req.path == "/login"@ {
        if req.content_length > MAX_LOGIN_BODY {
            Route::FormTooLong
        } else {
            Route::Form(req.content_length)
        }
    } else if !authenticated {
        if req.accept_html || req.path == "/login"@ {
            Route::LoginPage
        } else {
            Route::Unauthorized
        }
    } else if req.path == "/login"@ {
        Route::Home
    } else if req.path == "/logout"@ {
        Route::Logout
    } else if req.path == "/"@ {
        Route::Page
    } else if req.path == "/api/status"@ {
        Route::Status
    } else if req.path == "/metrics"@ {
        Route::Metrics
    } else {
        Route::NotFound
    }
}

/// Executable form of [`route_of`].
pub fn route_request(req: &ParsedHead, authenticated: bool) -> (r: Route)
    ensures
        r == route_of(req@, authenticated),
{
    let path = req.path.as_str();
    if same(path, "/healthz") {
        return Route::Health;
    }
    if has_header_name(req.method.as_str(), "post") && same(path, "/login") {
        return if req.content_length > MAX_LOGIN_BODY {
            Route::FormTooLong
        } else {
            Route::Form(req.content_length)
        };
    }
    if !authenticated {
        return if req.accept_html || same(path, "/login") {
            Route::LoginPage
        } else {
            Route::Unauthorized
        };
    }
    if same(path, "/login") {
        Route::Home
    } else if same(path, "/logout") {
        Route::Logout
    } else if same(path, "/") {
        Route::Page
    } else if same(path, "/api/status") {
        Route::Status
    } else if same(path, "/metrics") {
        Route::Metrics
    } else {
        Route::NotFound
    }
}

/// The answer of the login page.
pub open spec fn login_page_response(error: Option<Seq<char>>) -> ResponseView {
    ResponseView {
        status: 401,
        content_type: "text/html; charset=utf-8"@,
        body: login_page(error),
        headers: Some("Cache-Control: no-store"@),
    }
}

/// Executable form of [`login_page_response`].
fn respond_login_page(error: Option<&str>) -> (r: Response)
    ensures
        r@ == login_page_response(
            match error {
                Some(e) => Some(e@),
                None => None,
            },
        ),
{
    Response {
        status: 401,
        content_type: "text/html; charset=utf-8",
        body: render_login_page(error),
        headers: Some("Cache-Control: no-store".to_owned()),
    }
}

/// The answer that sends the browser to another place.
pub open spec fn redirect(headers: Seq<char>) -> ResponseView {
    ResponseView {
        status: 302,
        content_type: "text/plain"@,
        body: ""@,
        headers: Some(headers),
    }
}

/// Executable form of [`redirect`].
fn respond_redirect(headers: String) -> (r: Response)
    ensures
        r@ == redirect(headers@),
{
    Response {
        status: 302,
        content_type: "text/plain",
        body: "".to_owned(),
        headers: Some(headers),
    }
}

/// How a request is answered.
pub enum Reply {
    /// With this.
    Respond(Response),
    /// With what [`login_reply`] says of the form of this length.
    ReadForm(usize),
    /// With the dashboard page.
    Page,
    /// With the state as JSON.
    Status,
}

/// The answer that is sent, where `body` is the text of the page or the state that it
/// is to hold; none as long as the form is still to be read.
pub open spec fn sent_for(reply: Reply, body: Seq<char>) -> Option<ResponseView> {
    match reply {
        Reply::Respond(r) => Some(r@),
        Reply::ReadForm(_) => None,
        Reply::Page => Some(plain(200, "text/html; charset=utf-8"@, body)),
        Reply::Status => Some(plain(200, "application/json"@, body)),
    }
}

/// Executable form of [`sent_for`].
pub fn finish_reply(reply: Reply, body: String) -> (r: Option<Response>)
    ensures
        match r {
            Some(resp) => sent_for(reply, body@) == Some(resp@),
            None => sent_for(reply, body@) is None,
        },
{
    match reply {
        Reply::Respond(r) => Some(r),
        Reply::ReadForm(_) => None,
        Reply::Page => Some(page_response(body)),
        Reply::Status => Some(status_response(body)),
    }
}

/// How a request is answered that asks for `route`, after `uptime` seconds.
pub open spec fn reply_for(reply: Reply, route: Route, v: StateView, uptime: u64) -> bool {
    match route {
        Route::Health => reply matches Reply::Respond(r) && r@ == (if v.metrics.accepting {
            plain(200, "text/plain"@, "ok\n"@)
        } else {
            plain(503, "text/plain"@, "unhealthy: accept loop failing\n"@)
        }),
        Route::FormTooLong => reply matches Reply::Respond(r) && r@ == plain(
            400,
            "text/plain"@,
            "Bad Request\n"@,
        ),
        Route::Form(n) => reply == Reply::ReadForm(n),
        Route::LoginPage => reply matches Reply::Respond(r) && r@ == login_page_response(None),
        Route::Unauthorized => reply matches Reply::Respond(r) && r@ == (ResponseView {
            status: 401,
            content_type: "text/plain"@,
            body: "Unauthorized\n"@,
            headers: Some("WWW-Authenticate: Basic realm=\"rfrp dashboard\""@),
        }),
        Route::Home => reply matches Reply::Respond(r) && r@ == redirect("Location: /"@),
        Route::Logout => reply matches Reply::Respond(r) && r@ == redirect(
            "Location: /\r\nSet-Cookie: rfrp_dashboard=; Max-Age=0; HttpOnly; SameSite=Strict; Path=/"@,
        ),
        Route::Page => reply is Page,
        Route::Status => reply is Status,
        Route::Metrics => reply matches Reply::Respond(r) && r@ == plain(
            200,
            "text/plain; version=0.0.4"@,
            prometheus_text(v.metrics, v.gauges(), uptime),
        ),
        Route::NotFound => reply matches Reply::Respond(r) && r@ == plain(
            404,
            "text/plain"@,
            "Not Found\n"@,
        ),
    }
}

/// Answers a request that asks for `route`, after `uptime` seconds.
pub fn answer(route: Route, state: &ServerState, uptime: u64) -> (r: Reply)
    requires
        state@.wf(),
    ensures
        reply_for(r, route, state@, uptime),
{
    match route {
        Route::Health => {
            let (status, body) = health_response(state);
            Reply::Respond(respond(status, "text/plain", body.to_owned()))
        },
        Route::FormTooLong => Reply::Respond(
            respond(400, "text/plain", "Bad Request\n".to_owned()),
        ),
        Route::Form(n) => Reply::ReadForm(n),
        Route::LoginPage => Reply::Respond(respond_login_page(None)),
        Route::Unauthorized => Reply::Respond(
            Response {
                status: 401,
                content_type: "text/plain",
                body: "Unauthorized\n".to_owned(),
                headers: Some("WWW-Authenticate: Basic realm=\"rfrp dashboard\"".to_owned()),
            },
        ),
        Route::Home => Reply::Respond(respond_redirect("Location: /".to_owned())),
        Route::Logout => Reply::Respond(
            respond_redirect(
                "Location: /\r\nSet-Cookie: rfrp_dashboard=; Max-Age=0; HttpOnly; SameSite=Strict; Path=/".to_owned(),
            ),
        ),
        Route::Page => Reply::Page,
        Route::Status => Reply::Status,
        Route::Metrics => Reply::Respond(
            respond(200, "text/plain; version=0.0.4", render_prometheus_at(state, uptime)),
        ),
        Route::NotFound => Reply::Respond(respond(404, "text/plain", "Not Found\n".to_owned())),
    }
}

/// How a request is answered of which this is read; `within_rate` says whether its
/// sender has not sent too many.
pub open spec fn request_answered(
    reply: Reply,
    req: ParsedHeadView,
    cfg: DashboardSection,
    v: StateView,
    within_rate: bool,
    uptime: u64,
) -> bool {
    if within_rate {
        reply_for(reply, route_of(req, allowed_in(req, cfg)), v, uptime)
    } else {
        reply matches Reply::Respond(r) && r@ == plain(
            429,
            "text/plain"@,
            "Too Many Requests\n"@,
        )
    }
}

/// Answers a request with this head. `within_rate` says whether its sender has not
/// sent too many.
pub fn handle_request(
    head: &[u8],
    cfg: &DashboardSection,
    state: &ServerState,
    within_rate: bool,
    uptime: u64,
) -> (r: Reply)
    requires
        state@.wf(),
    ensures
        request_answered(
            r,
            head_fields(parsed_head(head@)),
            *cfg,
            state@,
            within_rate,
            uptime,
        ),
        if within_rate {
            let req = head_fields(parsed_head(head@));
            reply_for(r, route_of(req, allowed_in(req, *cfg)), state@, uptime)
        } else {
            r matches Reply::Respond(resp) && resp@ == plain(
                429,
                "text/plain"@,
                "Too Many Requests\n"@,
            )
        },
{
    if !within_rate {
        return Reply::Respond(respond(429, "text/plain", "Too Many Requests\n".to_owned()));
    }
    let req = ParsedHead::parse(head);
    let authenticated = req.authorized(cfg);
    answer(route_request(&req, authenticated), state, uptime)
}

/// The header lines of a successful login.
pub open spec fn login_headers(value: Seq<char>) -> Seq<char> {
    "Location: /\r\nSet-Cookie: rfrp_dashboard="@ + value
        + "; HttpOnly; SameSite=Strict; Path=/"@
}

/// The answer to a login that succeeded: `value` is the session cookie.
pub fn grant_session(value: &str) -> (r: Response)
    ensures
        r@ == redirect(login_headers(value@)),
{
    let mut headers = String::from_str("Location: /\r\nSet-Cookie: rfrp_dashboard=");
    headers.append(value);
    headers.append("; HttpOnly; SameSite=Strict; Path=/");
    respond_redirect(headers)
}

/// The answer to a login form with this user name and password.
pub open spec fn login_answer(
    cfg: DashboardSection,
    user: Seq<char>,
    pass: Seq<char>,
) -> ResponseView {
    if cfg.user@ == user && cfg.password@ == pass {
        redirect(login_headers(base64_text(vstd::utf8::encode_utf8(user + seq![':'] + pass))))
    } else {
        login_page_response(Some("用户名或密码错误"@))
    }
}

/// The answer to a login form: the session cookie where user name and password are
/// right, and the login page with an error where they are not. A request that sends
/// the cookie back is let in, for a user name without a colon.
pub fn login_reply(cfg: &DashboardSection, body: &[u8]) -> (r: Response)
    requires
        vstd::utf8::encode_utf8(cfg.user@).len() + vstd::utf8::encode_utf8(cfg.password@).len()
            < usize::MAX / 4,
    ensures
        r@ == login_answer(*cfg, login_form(body@).0, login_form(body@).1),
        ({
            let (user, pass) = login_form(body@);
            if cfg.user@ == user && cfg.password@ == pass {
                r@ == redirect(
                    login_headers(
                        base64_text(vstd::utf8::encode_utf8(user + seq![':'] + pass)),
                    ),
                )
            } else {
                r@ == login_page_response(Some("用户名或密码错误"@))
            }
        }),
        ({
            let (user, pass) = login_form(body@);
            let cookie = session_cookie() + seq!['='] + base64_text(
                vstd::utf8::encode_utf8(user + seq![':'] + pass),
            );
            cfg.user@ == user && cfg.password@ == pass && !user.contains(':') ==> is_authorized(
                None,
                decoded_payload(session_payload(Some(cookie), session_cookie())),
                *cfg,
            )
        }),
{
    let (user, pass) = parse_login_form(body);
    if check_credentials(cfg, user.as_str(), pass.as_str()) {
        let value = encode_basic(user.as_str(), pass.as_str());
        proof {
            if !user@.contains(':') {
                reveal_strlit("rfrp_dashboard");
                law_session_cookie_authorizes(session_cookie(), value@, *cfg);
            }
        }
        return grant_session(value.as_str());
    }
    respond_login_page(Some("用户名或密码错误"))
}

/// A program that asks for anything but the health check and the login gets a Basic
/// challenge where it is not logged in, whatever the path. Where it is, the three
/// resources are answered with 200, logging out with a redirect, and all else is not
/// found.
pub proof fn law_program_is_answered(
    req: ParsedHeadView,
    cfg: DashboardSection,
    v: StateView,
    uptime: u64,
    reply: Reply,
    body: Seq<char>,
)
    requires
        req.path != "/healthz"@ && req.path != "/login"@,
        !req.accept_html,
        reply_for(reply, route_of(req, allowed_in(req, cfg)), v, uptime),
    ensures
        sent_for(reply, body) matches Some(r) && if !allowed_in(req, cfg) {
            r == (ResponseView {
                status: 401,
                content_type: "text/plain"@,
                body: "Unauthorized\n"@,
                headers: Some("WWW-Authenticate: Basic realm=\"rfrp dashboard\""@),
            })
        } else {
            &&& r.status == 200 <==> req.path == "/"@ || req.path == "/api/status"@ || req.path
                == "/metrics"@
            &&& r.status == 302 <==> req.path == "/logout"@
            &&& r.status == 200 || r.status == 302 || r.status == 404
            &&& req.path == "/"@ ==> r == plain(200, "text/html; charset=utf-8"@, body)
            &&& req.path == "/api/status"@ ==> r == plain(200, "application/json"@, body)
        },
{
    reveal_strlit("/");
    reveal_strlit("/api/status");
    reveal_strlit("/metrics");
    reveal_strlit("/logout");
    assert("/"@.len() == 1 && "/api/status"@.len() == 11 && "/metrics"@.len() == 8
        && "/logout"@.len() == 7);
}

/// The health check is answered to anyone, by whether connections are accepted.
pub proof fn law_health_is_open(
    req: ParsedHeadView,
    authenticated: bool,
    v: StateView,
    uptime: u64,
    reply: Reply,
    body: Seq<char>,
)
    requires
        req.path == "/healthz"@,
        reply_for(reply, route_of(req, authenticated), v, uptime),
    ensures
        sent_for(reply, body) matches Some(r) && r.status == (if v.metrics.accepting {
            200u16
        } else {
            503u16
        }) && (v.metrics.accepting ==> r.body == "ok\n"@) && r.headers is None,
{
}

/// A browser that is not logged in gets the login page, whatever it asks for but the
/// health check, without a challenge that would open a dialog.
pub proof fn law_browser_gets_login_page(
    req: ParsedHeadView,
    v: StateView,
    uptime: u64,
    reply: Reply,
    body: Seq<char>,
)
    requires
        req.accept_html || req.path == "/login"@,
        req.path != "/healthz"@,
        req.path != "/login"@ || ascii_lowered(req.method) != "post"@,
        reply_for(reply, route_of(req, false), v, uptime),
    ensures
        sent_for(reply, body) matches Some(r) && r.status == 401 && r.content_type
            == "text/html; charset=utf-8"@ && r.body == login_page(None) && r.headers == Some(
            "Cache-Control: no-store"@,
        ),
{
}

/// A login form is read whoever sends it, in its announced length, and refused where it is
/// too long.
pub proof fn law_login_form_is_read(
    req: ParsedHeadView,
    authenticated: bool,
    v: StateView,
    uptime: u64,
    reply: Reply,
    body: Seq<char>,
)
    requires
        ascii_lowered(req.method) == "post"@,
        req.path == "/login"@,
        reply_for(reply, route_of(req, authenticated), v, uptime),
    ensures
        req.content_length <= 4096 ==> reply == Reply::ReadForm(req.content_length),
        req.content_length > 4096 ==> (sent_for(reply, body) matches Some(r) && r.status == 400),
{
    reveal_strlit("/healthz");
    reveal_strlit("/login");
    assert("/healthz"@.len() == 8 && "/login"@.len() == 6);
}

/// Who is logged in is sent on from the login page, and is logged out by losing the
/// cookie; the metrics are those of the server.
pub proof fn law_logged_in_requests(
    req: ParsedHeadView,
    v: StateView,
    uptime: u64,
    reply: Reply,
    body: Seq<char>,
)
    requires
        ascii_lowered(req.method) != "post"@,
        reply_for(reply, route_of(req, true), v, uptime),
    ensures
        req.path == "/login"@ ==> (sent_for(reply, body) matches Some(
            r,
        ) && r.status == 302 && r.headers == Some("Location: /"@)),
        req.path == "/logout"@ ==> (sent_for(reply, body) matches Some(r) && r.status == 302
            && r.headers == Some(
            "Location: /\r\nSet-Cookie: rfrp_dashboard=; Max-Age=0; HttpOnly; SameSite=Strict; Path=/"@,
        )),
        req.path == "/metrics"@ ==> (sent_for(reply, body) matches Some(r) && r.body
            == prometheus_text(v.metrics, v.gauges(), uptime)),
{
    reveal_strlit("/logout");
    reveal_strlit("/metrics");
    reveal_strlit("/healthz");
    reveal_strlit("/login");
    assert("/logout"@.len() == 7 && "/metrics"@.len() == 8 && "/healthz"@.len() == 8
        && "/login"@.len() == 6);
    assert("/metrics"@[1] == 'm' && "/healthz"@[1] == 'h');
    reveal_strlit("/");
    reveal_strlit("/api/status");
    assert("/"@.len() == 1 && "/api/status"@.len() == 11);
}

/// A login form is answered with the session cookie exactly where user name and password
/// are the configured ones, and else with the login page and an error.
pub proof fn law_login_is_answered(cfg: DashboardSection, user: Seq<char>, pass: Seq<char>)
    ensures
        ({
            let r = login_answer(cfg, user, pass);
            &&& r.status == 302 <==> user == cfg.user@ && pass == cfg.password@
            &&& r.status == 302 || r.status == 401
            &&& r.status == 302 ==> r.headers == Some(
                "Location: /\r\nSet-Cookie: rfrp_dashboard="@ + base64_text(
                    vstd::utf8::encode_utf8(user + seq![':'] + pass),
                ) + "; HttpOnly; SameSite=Strict; Path=/"@,
            )
            &&& r.status == 401 ==> r.body == login_page(Some("用户名或密码错误"@))
        }),
{
}

/// What is read of a request: of each header that matters the last one, whatever the case
/// of its name and without white space around its value; no other header matters.
pub proof fn law_headers_are_read(
    p: ParsedHeadView,
    before: Seq<(Seq<char>, Seq<u8>)>,
    name: Seq<char>,
    text: Seq<char>,
)
    ensures
        ({
            let value = vstd::utf8::encode_utf8(text);
            let r = with_headers(p, before.push((name, value)));
            let b = with_headers(p, before);
            let n = ascii_lowered(name);
            &&& n == "cookie"@ ==> r.cookie == Some(trimmed(text))
            &&& n != "cookie"@ ==> r.cookie == b.cookie
            &&& n == "authorization"@ ==> r.authorization == Some(trimmed(text))
            &&& n != "authorization"@ ==> r.authorization == b.authorization
            &&& n == "accept"@ ==> r.accept_html == has_part(
                ascii_lowered(trimmed(text)),
                "text/html"@,
            )
            &&& n != "accept"@ ==> r.accept_html == b.accept_html
            &&& n == "content-length"@ ==> r.content_length == (match parsed_usize(
                trimmed(text),
            ) {
                Some(k) => k,
                None => 0,
            })
            &&& n != "content-length"@ ==> r.content_length == b.content_length
            &&& r.method == b.method && r.path == b.path
        }),
{
    vstd::utf8::encode_utf8_valid_utf8(text);
    vstd::utf8::encode_utf8_decode_utf8(text);
    let h = (name, vstd::utf8::encode_utf8(text));
    assert(before.push(h).drop_last() =~= before);
    reveal_strlit("cookie");
    reveal_strlit("authorization");
    reveal_strlit("accept");
    reveal_strlit("content-length");
    assert("cookie"@.len() == 6 && "authorization"@.len() == 13 && "accept"@.len() == 6
        && "content-length"@.len() == 14);
    assert("cookie"@[0] == 'c' && "accept"@[0] == 'a');
}

/// Who sends too many requests is turned away, whatever they ask for and whoever they are;
/// who does not is not.
pub proof fn law_requests_are_limited(
    req: ParsedHeadView,
    cfg: DashboardSection,
    v: StateView,
    within_rate: bool,
    uptime: u64,
    reply: Reply,
    body: Seq<char>,
)
    requires
        request_answered(reply, req, cfg, v, within_rate, uptime),
    ensures
        !within_rate ==> (sent_for(reply, body) matches Some(r) && r.status == 429 && r.body
            == "Too Many Requests\n"@),
        within_rate ==> (sent_for(reply, body) matches Some(r) ==> r.status != 429),
        within_rate ==> reply_for(reply, route_of(req, allowed_in(req, cfg)), v, uptime),
{
}

/// The method and the target of a request are those of its head; one that is not complete
/// counts as a request for the page, without credentials.
pub proof fn law_request_line_is_read(
    method: Seq<char>,
    path: Seq<char>,
    headers: Seq<(Seq<char>, Seq<u8>)>,
)
    ensures
        ({
            let r = head_fields(Ok(Some((Some(method), Some(path), headers))));
            r.method == method && r.path == path
        }),
        head_fields(Ok(None)) == head_fields(Err(())),
        head_fields(Ok(None)).path == "/"@ && head_fields(Ok(None)).method == "GET"@,
        head_fields(Ok(None)).authorization is None && head_fields(Ok(None)).cookie is None
            && !head_fields(Ok(None)).accept_html,
    decreases headers.len(),
{
    if headers.len() > 0 {
        law_request_line_is_read(method, path, headers.drop_last());
    }
}

} // verus!
