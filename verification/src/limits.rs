//! Bounds that an operator or a build picks; every rule holds for any value.

use vstd::prelude::*;

verus! {

/// Protocol version that both ends must speak.
pub const PROTOCOL_VERSION: u8 = 1;

/// The `work_id` of a pooled work connection; never given to a user connection.
pub const WORK_ID_POOL_RESERVED: u64 = 0;

/// First byte of a TLS handshake record.
pub const TLS_HANDSHAKE_BYTE: u8 = 0x16;

/// First delay before a reconnect, in seconds.
pub const RECONNECT_BACKOFF_INITIAL: u64 = 1;

/// Longest delay before a reconnect, in seconds.
pub const RECONNECT_BACKOFF_MAX: u64 = 30;

/// First delay before a registration that met a conflict is tried again, in seconds.
pub const PROXY_REGISTER_RETRY_INITIAL: u64 = 2;

/// Longest delay before such a registration is tried again, in seconds.
pub const PROXY_REGISTER_RETRY_MAX_DELAY: u64 = 30;

/// The server's bounds.
#[derive(Clone, Copy, Debug)]
pub struct Limits {
    /// Longest `run_id`, in bytes.
    pub max_run_id_len: usize,
    /// Longest token, in bytes.
    pub max_token_len: usize,
    /// Longest proxy name, in bytes.
    pub max_proxy_name_len: usize,
    /// Most custom domains of one proxy.
    pub max_custom_domains: usize,
    /// Longest domain, in bytes.
    pub max_domain_len: usize,
    /// Most proxies of one session.
    pub max_proxies_per_session: usize,
    /// Most idle work connections of one proxy.
    pub max_pooled_work_conns: usize,
    /// Most unpaired sessions of one UDP proxy.
    pub max_pending_udp_sessions: usize,
    /// Most user connections at one time.
    pub max_active_connections: i64,
    /// Failed logins of one address, within the window, that block it.
    pub login_failure_limit: u32,
    /// Length of that window, in seconds.
    pub login_failure_window: u64,
    /// How long a user waits for a work connection, in seconds.
    pub work_conn_timeout: u64,
}

} // verus!
