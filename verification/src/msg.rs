//! Control messages and what they stand for.

use vstd::prelude::*;

use crate::text::same;

verus! {

/// What a proxy carries.
#[derive(Clone, Copy, Debug, PartialEq, Eq, Structural)]
pub enum ProxyType {
    /// A TCP port.
    Tcp,
    /// A UDP port.
    Udp,
    /// HTTP by domain.
    Http,
    /// HTTPS by domain.
    Https,
}

impl ProxyType {
    /// The name of the type, as its variant is written.
    pub open spec fn name_text(self) -> Seq<char> {
        match self {
            ProxyType::Tcp => "Tcp"@,
            ProxyType::Udp => "Udp"@,
            ProxyType::Http => "Http"@,
            ProxyType::Https => "Https"@,
        }
    }

    /// Executable form of [`Self::name_text`].
    pub fn name(self) -> (r: &'static str)
        ensures
            r@ == self.name_text(),
    {
        match self {
            ProxyType::Tcp => "Tcp",
            ProxyType::Udp => "Udp",
            ProxyType::Http => "Http",
            ProxyType::Https => "Https",
        }
    }
}

/// Why a proxy was not registered.
#[derive(Clone, Copy, Debug, PartialEq, Eq, Structural)]
pub enum ProxyError {
    /// The type is not known.
    InvalidType,
    /// A field is missing or malformed.
    InvalidField,
    /// The session has a proxy of that name.
    NameExists,
    /// The port is outside the allowed ranges.
    PortNotAllowed,
    /// The port is in use.
    PortOccupied,
    /// A domain belongs to another proxy.
    DomainConflict,
    /// The session has as many proxies as it may.
    TooManyProxies,
    /// Anything else.
    Internal,
}

impl ProxyError {
    /// The stable code that travels in a response.
    pub open spec fn code_text(self) -> Seq<char> {
        match self {
            ProxyError::InvalidType => "invalid type"@,
            ProxyError::InvalidField => "invalid field"@,
            ProxyError::NameExists => "proxy_name exists"@,
            ProxyError::PortNotAllowed => "port not allowed"@,
            ProxyError::PortOccupied => "port occupied"@,
            ProxyError::DomainConflict => "domain conflict"@,
            ProxyError::TooManyProxies => "too many proxies"@,
            ProxyError::Internal => "internal error"@,
        }
    }

    /// The stable code that travels in a response.
    pub fn code(self) -> (r: &'static str)
        ensures
            r@ == self.code_text(),
    {
        match self {
            ProxyError::InvalidType => "invalid type",
            ProxyError::InvalidField => "invalid field",
            ProxyError::NameExists => "proxy_name exists",
            ProxyError::PortNotAllowed => "port not allowed",
            ProxyError::PortOccupied => "port occupied",
            ProxyError::DomainConflict => "domain conflict",
            ProxyError::TooManyProxies => "too many proxies",
            ProxyError::Internal => "internal error",
        }
    }

    /// The error that `code` names; `None` exactly where it names none.
    pub fn from_code(code: &str) -> (r: Option<ProxyError>)
        ensures
            match r {
                Some(e) => e.code_text() == code@,
                None => forall|e: ProxyError| #[trigger] e.code_text() != code@,
            },
    {
        if same(code, "invalid type") {
            Some(ProxyError::InvalidType)
        } else if same(code, "invalid field") {
            Some(ProxyError::InvalidField)
        } else if same(code, "proxy_name exists") {
            Some(ProxyError::NameExists)
        } else if same(code, "port not allowed") {
            Some(ProxyError::PortNotAllowed)
        } else if same(code, "port occupied") {
            Some(ProxyError::PortOccupied)
        } else if same(code, "domain conflict") {
            Some(ProxyError::DomainConflict)
        } else if same(code, "too many proxies") {
            Some(ProxyError::TooManyProxies)
        } else if same(code, "internal error") {
            Some(ProxyError::Internal)
        } else {
            None
        }
    }

    /// Whether the cause is a conflict that goes away by itself.
    pub open spec fn retryable(self) -> bool {
        self == ProxyError::PortOccupied || self == ProxyError::DomainConflict
    }

    /// Executable form of [`Self::retryable`].
    pub fn is_retryable(self) -> (r: bool)
        ensures
            r == self.retryable(),
    {
        match self {
            ProxyError::PortOccupied | ProxyError::DomainConflict => true,
            _ => false,
        }
    }
}

/// Different errors travel under different codes.
pub proof fn law_codes_distinct(a: ProxyError, b: ProxyError)
    ensures
        a.code_text() == b.code_text() <==> a == b,
{
    reveal_strlit("invalid type");
    reveal_strlit("invalid field");
    reveal_strlit("proxy_name exists");
    reveal_strlit("port not allowed");
    reveal_strlit("port occupied");
    reveal_strlit("domain conflict");
    reveal_strlit("too many proxies");
    reveal_strlit("internal error");
    let x = a.code_text();
    let y = b.code_text();
    if x == y {
        assert(x.len() == y.len() && x[0] == y[0] && x[5] == y[5] && x[7] == y[7] && x[8] == y[8]);
    }
}

/// First message of a control connection.
#[derive(Clone, Debug)]
pub struct Login {
    /// Identity of the client across reconnects.
    pub run_id: String,
    /// Shared secret.
    pub token: String,
    /// Protocol version of the client.
    pub version: u8,
}

/// Answer to [`Login`].
#[derive(Clone, Debug)]
pub struct LoginResp {
    /// Whether the session was opened.
    pub ok: bool,
    /// Why not, where that is said at all.
    pub error: Option<String>,
    /// The session, where it was opened.
    pub session_id: Option<String>,
    /// Whether work connections use TLS.
    pub work_conn_tls: Option<bool>,
    /// What work connections of the session must present.
    pub work_conn_token: Option<String>,
}

/// Request to register a proxy.
#[derive(Clone, Debug)]
pub struct NewProxy {
    /// Name, unique in the session.
    pub proxy_name: String,
    /// What it carries.
    pub kind: ProxyType,
    /// Public port, for TCP and UDP.
    pub remote_port: Option<u16>,
    /// Domains, for HTTP and HTTPS.
    pub custom_domains: Option<Vec<String>>,
}

/// Answer to [`NewProxy`].
#[derive(Clone, Debug)]
pub struct NewProxyResp {
    /// The proxy that was asked for.
    pub proxy_name: String,
    /// Whether it was registered.
    pub ok: bool,
    /// The error code, where it was not.
    pub error: Option<String>,
}

/// Request for a work connection.
#[derive(Clone, Debug)]
pub struct ReqWorkConn {
    /// The proxy that it is for.
    pub proxy_name: String,
    /// The waiting user connection, or the reserved id for the pool.
    pub work_id: u64,
}

/// First message of a work connection.
#[derive(Clone, Debug)]
pub struct StartWorkConn {
    /// The proxy that it is for.
    pub proxy_name: String,
    /// The waiting user connection, or the reserved id for the pool.
    pub work_id: u64,
    /// The session's token for work connections.
    pub work_conn_token: Option<String>,
}

/// A control message.
#[derive(Clone, Debug)]
pub enum Message {
    /// First message of a control connection.
    Login(Login),
    /// Answer to a login.
    LoginResp(LoginResp),
    /// Request to register a proxy.
    NewProxy(NewProxy),
    /// Answer to such a request.
    NewProxyResp(NewProxyResp),
    /// Request for a work connection.
    ReqWorkConn(ReqWorkConn),
    /// First message of a work connection.
    StartWorkConn(StartWorkConn),
    /// Sign of life, with the sender's clock.
    Heartbeat(u64),
    /// Answer to a sign of life, with its clock.
    HeartbeatResp(u64),
    /// End of the connection, with a reason.
    Close(Option<String>),
}

/// What a [`LoginResp`] stands for.
pub struct LoginRespView {
    pub ok: bool,
    pub error: Option<Seq<char>>,
    pub session_id: Option<Seq<char>>,
    pub work_conn_tls: Option<bool>,
    pub work_conn_token: Option<Seq<char>>,
}

/// What a [`NewProxy`] stands for.
pub struct NewProxyView {
    pub proxy_name: Seq<char>,
    pub kind: ProxyType,
    pub remote_port: Option<u16>,
    pub custom_domains: Option<Seq<Seq<char>>>,
}

/// What a [`NewProxyResp`] stands for.
pub struct NewProxyRespView {
    pub proxy_name: Seq<char>,
    pub ok: bool,
    pub error: Option<Seq<char>>,
}

impl DeepView for LoginResp {
    type V = LoginRespView;

    open spec fn deep_view(&self) -> LoginRespView {
        LoginRespView {
            ok: self.ok,
            error: self.error.deep_view(),
            session_id: self.session_id.deep_view(),
            work_conn_tls: self.work_conn_tls,
            work_conn_token: self.work_conn_token.deep_view(),
        }
    }
}

impl DeepView for NewProxy {
    type V = NewProxyView;

    open spec fn deep_view(&self) -> NewProxyView {
        NewProxyView {
            proxy_name: self.proxy_name@,
            kind: self.kind,
            remote_port: self.remote_port,
            custom_domains: self.custom_domains.deep_view(),
        }
    }
}

impl DeepView for NewProxyResp {
    type V = NewProxyRespView;

    open spec fn deep_view(&self) -> NewProxyRespView {
        NewProxyRespView {
            proxy_name: self.proxy_name@,
            ok: self.ok,
            error: self.error.deep_view(),
        }
    }
}

/// The codes that clients and operators know errors by do not change, and those of
/// conflicts are the ones that go away.
pub proof fn law_codes_are_stable(e: ProxyError)
    ensures
        ProxyError::InvalidType.code_text() == "invalid type"@,
        ProxyError::InvalidField.code_text() == "invalid field"@,
        ProxyError::NameExists.code_text() == "proxy_name exists"@,
        ProxyError::PortNotAllowed.code_text() == "port not allowed"@,
        ProxyError::PortOccupied.code_text() == "port occupied"@,
        ProxyError::DomainConflict.code_text() == "domain conflict"@,
        ProxyError::Internal.code_text() == "internal error"@,
        e.retryable() <==> e == ProxyError::PortOccupied || e == ProxyError::DomainConflict,
{
}

} // verus!
