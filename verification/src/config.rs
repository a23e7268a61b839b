//! Configuration of the two sides.

use vstd::prelude::*;

use crate::msg::ProxyType;
use crate::text::copy_list;

verus! {

/// `[server]` of the server's configuration.
#[derive(Clone, Debug)]
pub struct ServerSection {
    /// Address to listen on.
    pub bind_addr: String,
    /// Port to listen on.
    pub bind_port: u16,
    /// Shared secret.
    pub token: String,
    /// Whether control connections use TLS.
    pub tls_enable: bool,
    /// Certificate file.
    pub tls_cert: Option<String>,
    /// Key file.
    pub tls_key: Option<String>,
    /// Whether work connections use TLS.
    pub work_conn_tls: bool,
}

/// `[proxy]` of the server's configuration.
#[derive(Clone, Debug)]
pub struct ProxySection {
    /// Ports that proxies may use.
    pub allow_ports: String,
    /// Port of the shared HTTP listener.
    pub vhost_http_port: Option<u16>,
    /// Port of the shared HTTPS listener.
    pub vhost_https_port: Option<u16>,
    /// Its certificate file.
    pub vhost_tls_cert: Option<String>,
    /// Its key file.
    pub vhost_tls_key: Option<String>,
}

/// `[dashboard]` of the server's configuration.
#[derive(Clone, Debug)]
pub struct DashboardSection {
    /// Address to listen on.
    pub addr: String,
    /// User name.
    pub user: String,
    /// Password.
    pub password: String,
}

/// The server's configuration.
#[derive(Clone, Debug)]
pub struct ServerConfig {
    /// The server itself.
    pub server: ServerSection,
    /// The dashboard, where there is one.
    pub dashboard: Option<DashboardSection>,
    /// Proxies.
    pub proxy: ProxySection,
}

/// `[client]` of the client's configuration.
#[derive(Clone, Debug)]
pub struct ClientSection {
    /// The server's address or host name.
    pub server_addr: String,
    /// The server's port.
    pub server_port: u16,
    /// Shared secret.
    pub token: String,
    /// Whether the control connection uses TLS.
    pub tls_enable: bool,
    /// Certificate authority file.
    pub tls_ca: Option<String>,
    /// Name that the server's certificate must have.
    pub tls_server_name: Option<String>,
    /// Whether work connections use TLS, unless the server says otherwise.
    pub work_conn_tls: bool,
    /// File that keeps the `run_id`.
    pub run_id_file: Option<String>,
    /// Address of the status endpoint.
    pub status_addr: Option<String>,
}

/// One `[[proxy]]` of the client's configuration.
#[derive(Clone, Debug)]
pub struct ClientProxy {
    /// Name.
    pub name: String,
    /// What it carries.
    pub kind: ProxyType,
    /// Address of the local service.
    pub local_ip: String,
    /// Port of the local service.
    pub local_port: u16,
    /// Public port.
    pub remote_port: Option<u16>,
    /// Domains.
    pub custom_domains: Option<Vec<String>>,
    /// Work connections that are kept ready.
    pub pool_size: u32,
}

/// What a [`ClientProxy`] stands for.
pub struct ClientProxyView {
    pub name: Seq<char>,
    pub kind: ProxyType,
    pub local_ip: Seq<char>,
    pub local_port: u16,
    pub remote_port: Option<u16>,
    pub custom_domains: Option<Seq<Seq<char>>>,
    pub pool_size: u32,
}

impl DeepView for ClientProxy {
    type V = ClientProxyView;

    open spec fn deep_view(&self) -> ClientProxyView {
        ClientProxyView {
            name: self.name@,
            kind: self.kind,
            local_ip: self.local_ip@,
            local_port: self.local_port,
            remote_port: self.remote_port,
            custom_domains: self.custom_domains.deep_view(),
            pool_size: self.pool_size,
        }
    }
}

/// A copy of an optional list of domains.
pub fn copy_domains(domains: &Option<Vec<String>>) -> (r: Option<Vec<String>>)
    ensures
        r.deep_view() == domains.deep_view(),
{
    match domains {
        Some(d) => Some(copy_list(d)),
        None => None,
    }
}

impl ClientProxy {
    /// A copy.
    pub fn copy(&self) -> (r: ClientProxy)
        ensures
            r.deep_view() == self.deep_view(),
    {
        ClientProxy {
            name: self.name.clone(),
            kind: self.kind,
            local_ip: self.local_ip.clone(),
            local_port: self.local_port,
            remote_port: self.remote_port,
            custom_domains: copy_domains(&self.custom_domains),
            pool_size: self.pool_size,
        }
    }
}

/// The client's configuration.
#[derive(Clone, Debug)]
pub struct ClientConfig {
    /// The client itself.
    pub client: ClientSection,
    /// Its proxies.
    pub proxies: Vec<ClientProxy>,
}

} // verus!
