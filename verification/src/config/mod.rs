use vstd::prelude::*;
use crate::text::{decimal, push_char, push_decimal, str_eq};

pub mod raw;
pub mod service;

pub use service::{
    ServiceConfig, ServiceConfigBuilder, ServiceConfigView, ServiceDiscoveryConfig,
    ServiceDiscoveryConfigBuilder,
};

verus! {

/// `url::Url`, a parsed URL; it is carried through the configuration and not read here.
#[verifier::external_type_specification]
#[verifier::external_body]
pub struct ExUrl(url::Url);

/// Calls `url::Url::clone`. `Url` derives `Clone`, so the copy equals the URL it was made from.
#[verifier::external_body]
pub(crate) fn clone_url(u: &url::Url) -> (res: url::Url)
    ensures
        res == *u,
{
    u.clone()
}

/// A network address made of a host name and a port.
pub struct HostAndPort {
    host: String,
    port: u16,
}

/// The abstract contents of a `HostAndPort`.
pub struct HostAndPortView {
    pub host: Seq<char>,
    pub port: u16,
}

impl View for HostAndPort {
    type V = HostAndPortView;

    closed spec fn view(&self) -> HostAndPortView {
        HostAndPortView { host: self.host@, port: self.port }
    }
}

impl HostAndPortView {
    /// The address written as `host:port`.
    pub open spec fn text(self) -> Seq<char> {
        self.host + seq![':'] + decimal(self.port as nat)
    }
}

impl HostAndPort {
    /// Creates an address from a host name and a port.
    pub fn new(host: &str, port: u16) -> (res: HostAndPort)
        ensures
            res@ == (HostAndPortView { host: host@, port }),
    {
        HostAndPort { host: host.to_string(), port }
    }

    /// Returns the host name.
    pub fn host(&self) -> (res: &str)
        ensures
            res@ == self@.host,
    {
        self.host.as_str()
    }

    /// Returns the port.
    pub fn port(&self) -> (res: u16)
        ensures
            res == self@.port,
    {
        self.port
    }

    /// Returns a copy of the address.
    pub fn copy(&self) -> (res: HostAndPort)
        ensures
            res@ == self@,
    {
        HostAndPort { host: self.host.clone(), port: self.port }
    }

    /// Formats the address as `host:port`.
    pub fn to_string(&self) -> (res: String)
        ensures
            res@ == self@.text(),
    {
        let mut s = self.host.clone();
        push_char(&mut s, ':');
        push_decimal(&mut s, self.port as u64);
        assert(self.host@.push(':') =~= self.host@ + seq![':']);
        s
    }
}

/// A user name and password for basic authentication.
pub struct BasicCredentials {
    username: String,
    password: String,
}

/// The abstract contents of `BasicCredentials`.
pub struct BasicCredentialsView {
    pub username: Seq<char>,
    pub password: Seq<char>,
}

impl View for BasicCredentials {
    type V = BasicCredentialsView;

    closed spec fn view(&self) -> BasicCredentialsView {
        BasicCredentialsView { username: self.username@, password: self.password@ }
    }
}

impl BasicCredentials {
    /// Creates credentials from a user name and a password.
    pub fn new(username: &str, password: &str) -> (res: BasicCredentials)
        ensures
            res@ == (BasicCredentialsView { username: username@, password: password@ }),
    {
        BasicCredentials { username: username.to_string(), password: password.to_string() }
    }

    /// Returns the user name.
    pub fn username(&self) -> (res: &str)
        ensures
            res@ == self@.username,
    {
        self.username.as_str()
    }

    /// Returns the password.
    pub fn password(&self) -> (res: &str)
        ensures
            res@ == self@.password,
    {
        self.password.as_str()
    }

    /// Returns a copy of the credentials.
    pub fn copy(&self) -> (res: BasicCredentials)
        ensures
            res@ == self@,
    {
        BasicCredentials { username: self.username.clone(), password: self.password.clone() }
    }
}

impl PartialEq for BasicCredentials {
    fn eq(&self, other: &Self) -> (res: bool) {
        str_eq(self.username.as_str(), other.username.as_str()) && str_eq(
            self.password.as_str(),
            other.password.as_str(),
        )
    }
}

impl vstd::std_specs::cmp::PartialEqSpecImpl for BasicCredentials {
    open spec fn obeys_eq_spec() -> bool {
        true
    }

    open spec fn eq_spec(&self, other: &Self) -> bool {
        self@ == other@
    }
}

/// The view of an optional value.
pub open spec fn opt_view<T: View>(o: Option<T>) -> Option<T::V> {
    match o {
        Some(v) => Some(v@),
        None => None,
    }
}

/// Copies optional credentials.
fn copy_credentials(c: &Option<BasicCredentials>) -> (res: Option<BasicCredentials>)
    ensures
        opt_view(res) == opt_view(*c),
{
    match c {
        Some(c) => Some(c.copy()),
        None => None,
    }
}

/// Copies an optional string.
fn copy_opt_string(s: &Option<String>) -> (res: Option<String>)
    ensures
        opt_view(res) == opt_view(*s),
{
    match s {
        Some(s) => Some(s.clone()),
        None => None,
    }
}

/// TLS settings of a service.
pub struct SecurityConfig {
    ca_file: Option<String>,
}

impl View for SecurityConfig {
    /// The path of the CA file, if one is set.
    type V = Option<Seq<char>>;

    closed spec fn view(&self) -> Option<Seq<char>> {
        opt_view(self.ca_file)
    }
}

impl SecurityConfig {
    /// Returns a builder with no CA file set.
    pub fn builder() -> (res: SecurityConfigBuilder)
        ensures
            res@ is None,
    {
        SecurityConfigBuilder(SecurityConfig { ca_file: None })
    }

    /// Returns the path of the CA file, if one is set.
    pub fn ca_file(&self) -> (res: Option<&str>)
        ensures
            opt_view(res) == self@,
    {
        match &self.ca_file {
            Some(p) => Some(p.as_str()),
            None => None,
        }
    }

    /// Returns a copy of the settings.
    pub fn copy(&self) -> (res: SecurityConfig)
        ensures
            res@ == self@,
    {
        SecurityConfig { ca_file: copy_opt_string(&self.ca_file) }
    }
}

/// Builds a `SecurityConfig`.
pub struct SecurityConfigBuilder(SecurityConfig);

impl View for SecurityConfigBuilder {
    type V = Option<Seq<char>>;

    closed spec fn view(&self) -> Option<Seq<char>> {
        self.0@
    }
}

impl SecurityConfigBuilder {
    /// Sets the path of the CA file.
    pub fn ca_file(&mut self, ca_file: Option<String>) -> (res: &mut Self)
        ensures
            res@ == opt_view(ca_file),
            final(self)@ == final(res)@,
    {
        self.0.ca_file = ca_file;
        self
    }

    /// Returns the settings built so far.
    pub fn build(&self) -> (res: SecurityConfig)
        ensures
            res@ == self@,
    {
        self.0.copy()
    }
}

/// Settings of an HTTP proxy.
pub struct HttpProxyConfig {
    host_and_port: HostAndPort,
    credentials: Option<BasicCredentials>,
}

/// The abstract contents of an `HttpProxyConfig`.
pub struct HttpProxyConfigView {
    pub host_and_port: HostAndPortView,
    pub credentials: Option<BasicCredentialsView>,
}

impl View for HttpProxyConfig {
    type V = HttpProxyConfigView;

    closed spec fn view(&self) -> HttpProxyConfigView {
        HttpProxyConfigView {
            host_and_port: self.host_and_port@,
            credentials: opt_view(self.credentials),
        }
    }
}

impl HttpProxyConfig {
    /// Returns a builder with nothing set.
    pub fn builder() -> (res: HttpProxyConfigBuilder)
        ensures
            res@.host_and_port is None,
            res@.credentials is None,
    {
        HttpProxyConfigBuilder { host_and_port: None, credentials: None }
    }

    /// Returns the address of the proxy.
    pub fn host_and_port(&self) -> (res: &HostAndPort)
        ensures
            res@ == self@.host_and_port,
    {
        &self.host_and_port
    }

    /// Returns the credentials presented to the proxy, if any.
    pub fn credentials(&self) -> (res: Option<&BasicCredentials>)
        ensures
            opt_view(res) == self@.credentials,
    {
        match &self.credentials {
            Some(c) => Some(c),
            None => None,
        }
    }

    /// Returns a copy of the settings.
    pub fn copy(&self) -> (res: HttpProxyConfig)
        ensures
            res@ == self@,
    {
        HttpProxyConfig {
            host_and_port: self.host_and_port.copy(),
            credentials: copy_credentials(&self.credentials),
        }
    }
}

/// Builds an `HttpProxyConfig`.
pub struct HttpProxyConfigBuilder {
    host_and_port: Option<HostAndPort>,
    credentials: Option<BasicCredentials>,
}

/// The abstract contents of an `HttpProxyConfigBuilder`.
pub struct HttpProxyConfigBuilderView {
    pub host_and_port: Option<HostAndPortView>,
    pub credentials: Option<BasicCredentialsView>,
}

impl View for HttpProxyConfigBuilder {
    type V = HttpProxyConfigBuilderView;

    closed spec fn view(&self) -> HttpProxyConfigBuilderView {
        HttpProxyConfigBuilderView {
            host_and_port: opt_view(self.host_and_port),
            credentials: opt_view(self.credentials),
        }
    }
}

impl HttpProxyConfigBuilder {
    /// Sets the address of the proxy.
    pub fn host_and_port(&mut self, host_and_port: HostAndPort) -> (res: &mut Self)
        ensures
            res@.host_and_port == Some(host_and_port@),
            res@.credentials == old(self)@.credentials,
            final(self)@ == final(res)@,
    {
        self.host_and_port = Some(host_and_port);
        self
    }

    /// Sets the credentials presented to the proxy.
    pub fn credentials(&mut self, credentials: Option<BasicCredentials>) -> (res: &mut Self)
        ensures
            res@.host_and_port == old(self)@.host_and_port,
            res@.credentials == opt_view(credentials),
            final(self)@ == final(res)@,
    {
        self.credentials = credentials;
        self
    }

    /// Builds the settings; the address must have been set.
    pub fn build(&self) -> (res: HttpProxyConfig)
        requires
            self@.host_and_port is Some,
        ensures
            res@ == (HttpProxyConfigView {
                host_and_port: self@.host_and_port->0,
                credentials: self@.credentials,
            }),
    {
        let host_and_port = match &self.host_and_port {
            Some(h) => h.copy(),
            None => {
                assert(false);
                HostAndPort::new("", 0)
            },
        };
        HttpProxyConfig { host_and_port, credentials: copy_credentials(&self.credentials) }
    }
}

/// Settings of a mesh proxy, which receives every request in place of the service's host.
pub struct MeshProxyConfig {
    host_and_port: HostAndPort,
}

/// The abstract contents of a `MeshProxyConfig`.
pub struct MeshProxyConfigView {
    pub host_and_port: HostAndPortView,
}

impl View for MeshProxyConfig {
    type V = MeshProxyConfigView;

    closed spec fn view(&self) -> MeshProxyConfigView {
        MeshProxyConfigView { host_and_port: self.host_and_port@ }
    }
}

impl MeshProxyConfig {
    /// Returns a builder with nothing set.
    pub fn builder() -> (res: MeshProxyConfigBuilder)
        ensures
            res@ is None,
    {
        MeshProxyConfigBuilder { host_and_port: None }
    }

    /// Returns the address of the proxy.
    pub fn host_and_port(&self) -> (res: &HostAndPort)
        ensures
            res@ == self@.host_and_port,
    {
        &self.host_and_port
    }

    /// Returns a copy of the settings.
    pub fn copy(&self) -> (res: MeshProxyConfig)
        ensures
            res@ == self@,
    {
        MeshProxyConfig { host_and_port: self.host_and_port.copy() }
    }
}

/// Builds a `MeshProxyConfig`.
pub struct MeshProxyConfigBuilder {
    host_and_port: Option<HostAndPort>,
}

impl View for MeshProxyConfigBuilder {
    /// The address set so far, if any.
    type V = Option<HostAndPortView>;

    closed spec fn view(&self) -> Option<HostAndPortView> {
        opt_view(self.host_and_port)
    }
}

impl MeshProxyConfigBuilder {
    /// Sets the address of the proxy.
    pub fn host_and_port(&mut self, host_and_port: HostAndPort) -> (res: &mut Self)
        ensures
            res@ == Some(host_and_port@),
            final(self)@ == final(res)@,
    {
        self.host_and_port = Some(host_and_port);
        self
    }

    /// Builds the settings; the address must have been set.
    pub fn build(&self) -> (res: MeshProxyConfig)
        requires
            self@ is Some,
        ensures
            res@ == (MeshProxyConfigView { host_and_port: self@->0 }),
    {
        match &self.host_and_port {
            Some(h) => MeshProxyConfig { host_and_port: h.copy() },
            None => {
                assert(false);
                MeshProxyConfig { host_and_port: HostAndPort::new("", 0) }
            },
        }
    }
}

/// How a client reaches a service.
pub enum ProxyConfig {
    /// Connect to the service directly.
    Direct,
    /// Connect through an HTTP proxy.
    Http(HttpProxyConfig),
    /// Send every request to a mesh proxy.
    Mesh(MeshProxyConfig),
}

/// The abstract contents of a `ProxyConfig`.
pub enum ProxyConfigView {
    Direct,
    Http(HttpProxyConfigView),
    Mesh(MeshProxyConfigView),
}

impl View for ProxyConfig {
    type V = ProxyConfigView;

    open spec fn view(&self) -> ProxyConfigView {
        match self {
            ProxyConfig::Direct => ProxyConfigView::Direct,
            ProxyConfig::Http(c) => ProxyConfigView::Http(c@),
            ProxyConfig::Mesh(c) => ProxyConfigView::Mesh(c@),
        }
    }
}

impl Default for ProxyConfig {
    /// The setting used where none is given: a direct connection.
    fn default() -> (res: ProxyConfig)
        ensures
            res@ == ProxyConfigView::Direct,
    {
        ProxyConfig::Direct
    }
}

impl ProxyConfig {
    /// Returns a copy of the settings.
    pub fn copy(&self) -> (res: ProxyConfig)
        ensures
            res@ == self@,
    {
        match self {
            ProxyConfig::Direct => ProxyConfig::Direct,
            ProxyConfig::Http(c) => ProxyConfig::Http(c.copy()),
            ProxyConfig::Mesh(c) => ProxyConfig::Mesh(c.copy()),
        }
    }
}

impl HostAndPort {
    /// Converts an address read from a configuration file.
    pub fn from_raw(raw: &raw::HostAndPort) -> (res: HostAndPort)
        ensures
            res@ == (HostAndPortView { host: raw.host@, port: raw.port }),
    {
        HostAndPort::new(raw.host.as_str(), raw.port)
    }
}

impl BasicCredentials {
    /// Converts credentials read from a configuration file.
    pub fn from_raw(raw: &raw::BasicCredentials) -> (res: BasicCredentials)
        ensures
            res@ == (BasicCredentialsView { username: raw.username@, password: raw.password@ }),
    {
        BasicCredentials::new(raw.username.as_str(), raw.password.as_str())
    }
}

impl SecurityConfig {
    /// Converts TLS settings read from a configuration file.
    pub fn from_raw(raw: &raw::SecurityConfig) -> (res: SecurityConfig)
        ensures
            res@ == opt_view(raw.ca_file),
    {
        let mut config = SecurityConfig::builder();
        match &raw.ca_file {
            Some(ca_file) => {
                config.ca_file(Some(ca_file.clone()));
            },
            None => {},
        }
        config.build()
    }
}

/// The proxy settings that settings read from a configuration file denote.
pub open spec fn proxy_from_raw(raw: raw::ProxyConfig) -> ProxyConfigView {
    match raw {
        raw::ProxyConfig::Http { host_and_port, credentials } => ProxyConfigView::Http(
            HttpProxyConfigView {
                host_and_port: HostAndPortView { host: host_and_port.host@, port: host_and_port.port },
                credentials: match credentials {
                    Some(c) => Some(BasicCredentialsView { username: c.username@, password: c.password@ }),
                    None => None,
                },
            },
        ),
        raw::ProxyConfig::Mesh { host_and_port } => ProxyConfigView::Mesh(
            MeshProxyConfigView {
                host_and_port: HostAndPortView { host: host_and_port.host@, port: host_and_port.port },
            },
        ),
        raw::ProxyConfig::Direct => ProxyConfigView::Direct,
    }
}

impl ProxyConfig {
    /// Converts proxy settings read from a configuration file.
    pub fn from_raw(raw: &raw::ProxyConfig) -> (res: ProxyConfig)
        ensures
            res@ == proxy_from_raw(*raw),
    {
        match raw {
            raw::ProxyConfig::Http { host_and_port, credentials } => {
                let mut builder = HttpProxyConfig::builder();
                builder.host_and_port(HostAndPort::from_raw(host_and_port));
                match credentials {
                    Some(credentials) => {
                        builder.credentials(Some(BasicCredentials::from_raw(credentials)));
                    },
                    None => {},
                }
                ProxyConfig::Http(builder.build())
            },
            raw::ProxyConfig::Mesh { host_and_port } => {
                let mut builder = MeshProxyConfig::builder();
                builder.host_and_port(HostAndPort::from_raw(host_and_port));
                ProxyConfig::Mesh(builder.build())
            },
            raw::ProxyConfig::Direct => ProxyConfig::Direct,
        }
    }
}

impl Default for SecurityConfig {
    /// Settings with no CA file.
    fn default() -> (res: SecurityConfig)
        ensures
            res@ is None,
    {
        SecurityConfig { ca_file: None }
    }
}

impl Default for SecurityConfigBuilder {
    /// A builder with no CA file set.
    fn default() -> (res: SecurityConfigBuilder)
        ensures
            res@ is None,
    {
        SecurityConfig::builder()
    }
}

impl From<SecurityConfig> for SecurityConfigBuilder {
    /// A builder that starts from the given settings.
    fn from(config: SecurityConfig) -> (res: SecurityConfigBuilder)
        ensures
            res@ == config@,
    {
        SecurityConfigBuilder(config)
    }
}

impl vstd::std_specs::convert::FromSpecImpl<SecurityConfig> for SecurityConfigBuilder {
    open spec fn obeys_from_spec() -> bool {
        true
    }

    closed spec fn from_spec(config: SecurityConfig) -> SecurityConfigBuilder {
        SecurityConfigBuilder(config)
    }
}

impl Default for HttpProxyConfigBuilder {
    /// A builder with nothing set.
    fn default() -> (res: HttpProxyConfigBuilder)
        ensures
            res@.host_and_port is None,
            res@.credentials is None,
    {
        HttpProxyConfig::builder()
    }
}

impl From<HttpProxyConfig> for HttpProxyConfigBuilder {
    /// A builder that starts from the given settings.
    fn from(config: HttpProxyConfig) -> (res: HttpProxyConfigBuilder)
        ensures
            res@.host_and_port == Some(config@.host_and_port),
            res@.credentials == config@.credentials,
    {
        HttpProxyConfigBuilder { host_and_port: Some(config.host_and_port), credentials: config.credentials }
    }
}

impl vstd::std_specs::convert::FromSpecImpl<HttpProxyConfig> for HttpProxyConfigBuilder {
    open spec fn obeys_from_spec() -> bool {
        true
    }

    closed spec fn from_spec(config: HttpProxyConfig) -> HttpProxyConfigBuilder {
        HttpProxyConfigBuilder { host_and_port: Some(config.host_and_port), credentials: config.credentials }
    }
}

impl Default for MeshProxyConfigBuilder {
    /// A builder with nothing set.
    fn default() -> (res: MeshProxyConfigBuilder)
        ensures
            res@ is None,
    {
        MeshProxyConfig::builder()
    }
}

impl From<MeshProxyConfig> for MeshProxyConfigBuilder {
    /// A builder that starts from the given settings.
    fn from(config: MeshProxyConfig) -> (res: MeshProxyConfigBuilder)
        ensures
            res@ == Some(config@.host_and_port),
    {
        MeshProxyConfigBuilder { host_and_port: Some(config.host_and_port) }
    }
}

impl vstd::std_specs::convert::FromSpecImpl<MeshProxyConfig> for MeshProxyConfigBuilder {
    open spec fn obeys_from_spec() -> bool {
        true
    }

    closed spec fn from_spec(config: MeshProxyConfig) -> MeshProxyConfigBuilder {
        MeshProxyConfigBuilder { host_and_port: Some(config.host_and_port) }
    }
}

} // verus!
