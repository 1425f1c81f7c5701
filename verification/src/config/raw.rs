use vstd::prelude::*;
use crate::config::HostAndPortView;
use crate::text::{decimal, lemma_first_index_of, lemma_parse_u16_decimal, chars_of, find_char, first_index_of, parse_u16, spec_parse_u16, substring};
use crate::time::Duration;

verus! {

/// TLS settings as written in a configuration file.
pub struct SecurityConfig {
    pub ca_file: Option<String>,
}

/// Proxy settings as written in a configuration file.
pub enum ProxyConfig {
    Http { host_and_port: HostAndPort, credentials: Option<BasicCredentials> },
    Mesh { host_and_port: HostAndPort },
    Direct,
}

/// An address as written in a configuration file.
pub struct HostAndPort {
    pub host: String,
    pub port: u16,
}

/// What `host:port` text denotes: the text before the first `:` as the host, and the text after
/// it read as a port number. Text without a `:`, or whose port is not a number that fits in 16
/// bits, denotes no address.
pub open spec fn spec_parse_host_and_port(s: Seq<char>) -> Option<(Seq<char>, u16)> {
    match first_index_of(s, ':') {
        None => None,
        Some(i) => match spec_parse_u16(s.subrange(i + 1, s.len() as int)) {
            None => None,
            Some(port) => Some((s.take(i), port)),
        },
    }
}

impl HostAndPort {
    /// Reads an address written as `host:port`.
    pub fn parse(s: &str) -> (res: Option<HostAndPort>)
        ensures
            match res {
                Some(h) => spec_parse_host_and_port(s@) == Some((h.host@, h.port)),
                None => spec_parse_host_and_port(s@) is None,
            },
    {
        let chars = chars_of(s);
        let n = chars.len();
        match find_char(&chars, ':') {
            None => None,
            Some(idx) => {
                let port_text = substring(chars.as_slice(), idx + 1, n);
                match parse_u16(port_text.as_str()) {
                    None => None,
                    Some(port) => {
                        let host = substring(chars.as_slice(), 0, idx);
                        assert(chars@.subrange(0, idx as int) =~= s@.take(idx as int));
                        Some(HostAndPort { host, port })
                    },
                }
            },
        }
    }
}

/// Credentials as written in a configuration file.
pub struct BasicCredentials {
    pub username: String,
    pub password: String,
}

/// The settings of one service as written in a configuration file; a setting left out is `None`.
pub struct ServiceConfig {
    pub security: Option<SecurityConfig>,
    pub uris: Vec<url::Url>,
    pub connect_timeout: Option<Duration>,
    pub read_timeout: Option<Duration>,
    pub write_timeout: Option<Duration>,
    pub max_num_retries: Option<u32>,
    pub backoff_slot_size: Option<Duration>,
    pub proxy: Option<ProxyConfig>,
    pub keep_alive: Option<bool>,
    pub experimental_assume_http2: Option<bool>,
}

/// One named service of a configuration file.
pub struct NamedServiceConfig {
    pub name: String,
    pub config: ServiceConfig,
}

/// A configuration file: the services, and the settings that apply to every service that does
/// not set them itself.
pub struct ServiceDiscoveryConfig {
    pub services: Vec<NamedServiceConfig>,
    pub security: Option<SecurityConfig>,
    pub proxy: Option<ProxyConfig>,
    pub connect_timeout: Option<Duration>,
    pub read_timeout: Option<Duration>,
    pub write_timeout: Option<Duration>,
    pub backoff_slot_size: Option<Duration>,
    pub keep_alive: Option<bool>,
    pub experimental_assume_http2: Option<bool>,
}

/// An address written as `host:port` reads back as the same address, where the host holds no
/// `:`.
pub proof fn lemma_host_and_port_round_trip(h: HostAndPortView)
    requires
        !h.host.contains(':'),
    ensures
        spec_parse_host_and_port(h.text()) == Some((h.host, h.port)),
{
    let t = h.text();
    let k = h.host.len() as int;
    assert(t[k] == ':');
    assert forall|j: int| 0 <= j < k implies t[j] != ':' by {
        assert(t[j] == h.host[j]);
    }
    lemma_first_index_of(t, ':', k);
    assert(t.subrange(k + 1, t.len() as int) =~= decimal(h.port as nat));
    assert(t.take(k) =~= h.host);
    lemma_parse_u16_decimal(h.port);
}

} // verus!
