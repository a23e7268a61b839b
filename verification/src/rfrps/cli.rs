//! Command line of the server.

use vstd::prelude::*;

use crate::config::ServerConfig;

verus! {

/// The configuration with what the command line sets.
pub open spec fn overridden(
    cfg: ServerConfig,
    bind: Option<(String, u16)>,
    token: Option<String>,
    tls_enable: Option<bool>,
    work_conn_tls: Option<bool>,
) -> ServerConfig {
    ServerConfig {
        server: crate::config::ServerSection {
            bind_addr: match bind {
                Some(b) => b.0,
                None => cfg.server.bind_addr,
            },
            bind_port: match bind {
                Some(b) => b.1,
                None => cfg.server.bind_port,
            },
            token: match token {
                Some(t) => t,
                None => cfg.server.token,
            },
            tls_enable: match tls_enable {
                Some(v) => v,
                None => cfg.server.tls_enable,
            },
            work_conn_tls: match work_conn_tls {
                Some(v) => v,
                None => cfg.server.work_conn_tls,
            },
            ..cfg.server
        },
        ..cfg
    }
}

/// Lets the command line override the configuration. `bind` is the host and the
/// port of `--bind`, or why it has none; in that case nothing is changed.
pub fn apply_cli_overrides(
    cfg: &mut ServerConfig,
    bind: Option<Result<(String, u16), String>>,
    token: Option<String>,
    tls_enable: Option<bool>,
    work_conn_tls: Option<bool>,
) -> (r: Result<(), String>)
    ensures
        match bind {
            Some(Err(e)) => r == Err::<(), String>(e) && *final(cfg) == *old(cfg),
            Some(Ok(b)) => r is Ok && *final(cfg) == overridden(
                *old(cfg),
                Some(b),
                token,
                tls_enable,
                work_conn_tls,
            ),
            None => r is Ok && *final(cfg) == overridden(
                *old(cfg),
                None,
                token,
                tls_enable,
                work_conn_tls,
            ),
        },
{
    match bind {
        Some(Ok((host, port))) => {
            cfg.server.bind_addr = host;
            cfg.server.bind_port = port;
        },
        Some(Err(e)) => {
            return Err(e);
        },
        None => {},
    }
    if let Some(token) = token {
        cfg.server.token = token;
    }
    if let Some(v) = tls_enable {
        cfg.server.tls_enable = v;
    }
    if let Some(v) = work_conn_tls {
        cfg.server.work_conn_tls = v;
    }
    Ok(())
}

/// What the command line gives is used, and what it does not give stays as it is
/// configured.
pub proof fn law_command_line_overrides(
    cfg: ServerConfig,
    bind: Option<(String, u16)>,
    token: Option<String>,
    tls_enable: Option<bool>,
    work_conn_tls: Option<bool>,
)
    ensures
        ({
            let r = overridden(cfg, bind, token, tls_enable, work_conn_tls);
            &&& bind matches Some(b) ==> r.server.bind_addr == b.0 && r.server.bind_port == b.1
            &&& bind is None ==> r.server.bind_addr == cfg.server.bind_addr && r.server.bind_port
                == cfg.server.bind_port
            &&& token matches Some(t) ==> r.server.token == t
            &&& token is None ==> r.server.token == cfg.server.token
            &&& tls_enable matches Some(v) ==> r.server.tls_enable == v
            &&& tls_enable is None ==> r.server.tls_enable == cfg.server.tls_enable
            &&& work_conn_tls matches Some(v) ==> r.server.work_conn_tls == v
            &&& work_conn_tls is None ==> r.server.work_conn_tls == cfg.server.work_conn_tls
            &&& r.server.tls_cert == cfg.server.tls_cert && r.server.tls_key == cfg.server.tls_key
            &&& r.dashboard == cfg.dashboard && r.proxy == cfg.proxy
        }),
{
}

} // verus!
