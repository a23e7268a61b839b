//! Command line of the client.

use vstd::prelude::*;

use crate::config::{ClientConfig, ClientSection};

verus! {

/// `--server` of the command line.
pub struct ServerArg {
    /// As it was written.
    pub text: String,
    /// Its address and port, or why it has none.
    pub parsed: Result<(String, u16), String>,
}

/// The configuration with what the command line sets.
pub open spec fn overridden(
    cfg: ClientConfig,
    server: Option<(String, u16)>,
    token: Option<String>,
    tls_enable: Option<bool>,
    work_conn_tls: Option<bool>,
) -> ClientConfig {
    ClientConfig {
        client: ClientSection {
            server_addr: match server {
                Some(s) => s.0,
                None => cfg.client.server_addr,
            },
            server_port: match server {
                Some(s) => s.1,
                None => cfg.client.server_port,
            },
            token: match token {
                Some(t) => t,
                None => cfg.client.token,
            },
            tls_enable: match tls_enable {
                Some(v) => v,
                None => cfg.client.tls_enable,
            },
            work_conn_tls: match work_conn_tls {
                Some(v) => v,
                None => cfg.client.work_conn_tls,
            },
            ..cfg.client
        },
        ..cfg
    }
}

/// The error of a `--server` that is no address.
pub open spec fn bad_server(text: Seq<char>, why: Seq<char>) -> Seq<char> {
    "invalid --server '"@ + text + "': "@ + why
}

/// Lets the command line override the configuration. Where `--server` is no
/// address, nothing is changed.
pub fn apply_cli_overrides(
    cfg: &mut ClientConfig,
    server: Option<ServerArg>,
    token: Option<String>,
    tls_enable: Option<bool>,
    work_conn_tls: Option<bool>,
) -> (r: Result<(), String>)
    ensures
        match server {
            Some(ServerArg { text, parsed: Err(why) }) => r matches Err(e) && e@ == bad_server(
                text@,
                why@,
            ) && *final(cfg) == *old(cfg),
            Some(ServerArg { text: _, parsed: Ok(s) }) => r is Ok && *final(cfg) == overridden(
                *old(cfg),
                Some(s),
                token,
                tls_enable,
                work_conn_tls,
            ),
            None => r is Ok && *final(cfg) == overridden(
                *old(cfg),
                None,
                token,
                tls_enable,
                work_conn_tls,
            ),
        },
{
    if let Some(arg) = server {
        match arg.parsed {
            Ok((addr, port)) => {
                cfg.client.server_addr = addr;
                cfg.client.server_port = port;
            },
            Err(why) => {
                let mut e = String::from_str("invalid --server '");
                e.append(arg.text.as_str());
                e.append("': ");
                e.append(why.as_str());
                return Err(e);
            },
        }
    }
    if let Some(token) = token {
        cfg.client.token = token;
    }
    if let Some(v) = tls_enable {
        cfg.client.tls_enable = v;
    }
    if let Some(v) = work_conn_tls {
        cfg.client.work_conn_tls = v;
    }
    Ok(())
}

/// What the command line gives is used, and what it does not give stays as it is
/// configured.
pub proof fn law_command_line_overrides(
    cfg: ClientConfig,
    server: Option<(String, u16)>,
    token: Option<String>,
    tls_enable: Option<bool>,
    work_conn_tls: Option<bool>,
)
    ensures
        ({
            let r = overridden(cfg, server, token, tls_enable, work_conn_tls);
            &&& server matches Some(s) ==> r.client.server_addr == s.0 && r.client.server_port
                == s.1
            &&& server is None ==> r.client.server_addr == cfg.client.server_addr
                && r.client.server_port == cfg.client.server_port
            &&& token matches Some(t) ==> r.client.token == t
            &&& token is None ==> r.client.token == cfg.client.token
            &&& tls_enable matches Some(v) ==> r.client.tls_enable == v
            &&& tls_enable is None ==> r.client.tls_enable == cfg.client.tls_enable
            &&& work_conn_tls matches Some(v) ==> r.client.work_conn_tls == v
            &&& work_conn_tls is None ==> r.client.work_conn_tls == cfg.client.work_conn_tls
            &&& r.client.tls_server_name == cfg.client.tls_server_name
            &&& r.proxies == cfg.proxies
        }),
{
}

} // verus!
