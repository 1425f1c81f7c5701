use vstd::prelude::*;
use vstd::string::StringExecFns;
use crate::config::{opt_view, BasicCredentials, BasicCredentialsView, HostAndPort};
use crate::error::Error;
use crate::retry::internal_safe_error;
use crate::outgoing::{authority, authority_text};
use crate::socket::SocketConnector;
use crate::client::{status_display, status_text};
use crate::text::str_eq;

verus! {

broadcast use vstd::string::group_string_axioms;

/// The HTTP proxy that connections go through, and the `Proxy-Authorization` value of its
/// credentials, if it has any.
pub struct ProxyConnectorConfig {
    pub addr: HostAndPort,
    pub authorization: Option<String>,
}

/// Whether text holds an ASCII control character, which its UTF-8 encoding then holds as a byte.
pub open spec fn has_control(s: Seq<char>) -> bool {
    exists|i: int| 0 <= i < s.len() && ((s[i] as u32) < 0x20 || s[i] as u32 == 0x7f)
}

/// Whether a user name and a password can be encoded for Basic authentication: the user name
/// holds no `:`, and neither holds an ASCII control character.
pub open spec fn valid_basic_credentials(c: BasicCredentialsView) -> bool {
    !c.username.contains(':') && !has_control(c.username) && !has_control(c.password)
}

/// The header value of credentials for Basic authentication of a user name and a password.
pub uninterp spec fn basic_credentials_text(username: Seq<char>, password: Seq<char>) -> Seq<char>;

/// Encodes credentials for Basic authentication.
///
/// Calls `typed_headers::Credentials::basic`, which refuses a user name that holds `:` and either
/// part holding an ASCII control character, and otherwise encodes `user:password` in base64
/// after the scheme `Basic`; the value, as the credentials display it, is named here.
#[verifier::external_body]
fn basic_credentials(username: &str, password: &str) -> (res: Option<String>)
    ensures
        res is Some <==> valid_basic_credentials(BasicCredentialsView { username: username@, password: password@ }),
        res matches Some(v) ==> v@ == basic_credentials_text(username@, password@),
{
    match typed_headers::Credentials::basic(username, password) {
        Ok(c) => Some(c.to_string()),
        Err(_) => None,
    }
}

/// The `Proxy-Authorization` value of credentials, or the internal error `invalid header value`
/// where they cannot be encoded.
pub fn proxy_authorization(c: &BasicCredentials) -> (res: Result<String, Error>)
    ensures
        match res {
            Ok(v) => valid_basic_credentials(c@) && v@ == basic_credentials_text(c@.username, c@.password),
            Err(e) => !valid_basic_credentials(c@) && internal_safe_error(e@, "invalid header value"@),
        },
{
    match basic_credentials(c.username(), c.password()) {
        Some(v) => Ok(v),
        None => Err(Error::internal_safe("invalid header value")),
    }
}

/// Opens connections to services, through an HTTP proxy where one is configured.
pub struct ProxyConnector {
    pub connector: SocketConnector,
    pub proxy: Option<ProxyConnectorConfig>,
}

impl ProxyConnector {
    /// Creates a connector.
    pub fn new(connector: SocketConnector, proxy: Option<ProxyConnectorConfig>) -> (res: ProxyConnector)
        ensures
            res.connector == connector,
            res.proxy == proxy,
    {
        ProxyConnector { connector, proxy }
    }
}

/// How to reach a destination.
pub enum ConnectPlan {
    /// Connect to the destination itself.
    Direct { host: String, port: u16 },
    /// Connect to the proxy, which forwards plain HTTP requests.
    ViaProxy { host: String, port: u16 },
    /// Connect to the proxy and ask it, with a `CONNECT` request for `target` carrying the
    /// `Host` header `host_header` and the `Proxy-Authorization` value `authorization`, if the
    /// proxy has credentials, to open a tunnel to the destination.
    Tunnel { host: String, port: u16, target: String, host_header: String, authorization: Option<String> },
}

/// The port a scheme uses where a URI names none.
pub open spec fn default_port(scheme: Seq<char>) -> Option<u16> {
    if scheme == "http"@ {
        Some(80)
    } else if scheme == "https"@ {
        Some(443)
    } else {
        None
    }
}

/// A URI without a port reaches port 80 for `http` and 443 for `https`; any other scheme has no
/// port and is refused.
pub proof fn lemma_default_ports(scheme: Seq<char>)
    ensures
        default_port("http"@) == Some(80u16),
        default_port("https"@) == Some(443u16),
        default_port(scheme) is Some <==> (scheme == "http"@ || scheme == "https"@),
{
    reveal_strlit("http");
    reveal_strlit("https");
    assert("http"@.len() == 4 && "https"@.len() == 5);
}

/// Decides how to reach the destination `host`, at `port` if the URI names one, for a URI with
/// `scheme`: directly without a proxy; through the proxy for `http`; through a tunnel opened by
/// the proxy for `https`. A scheme other than `http` and `https` is refused.
pub fn plan_connection(proxy: &Option<ProxyConnectorConfig>, scheme: &str, host: &str, port: Option<u16>) -> (res: Result<ConnectPlan, String>)
    ensures
        match default_port(scheme@) {
            None => res matches Err(e) && e@ == "invalid URI scheme"@,
            Some(d) => match proxy {
                None => res matches Ok(ConnectPlan::Direct { host: h, port: p }) && h@ == host@ && p
                    == match port {
                    Some(p) => p,
                    None => d,
                },
                Some(c) => if scheme@ == "https"@ {
                    res matches Ok(ConnectPlan::Tunnel { host: h, port: p, target, host_header, authorization })
                        && opt_view(authorization) == opt_view(c.authorization) && h@ == c.addr@.host && p == c.addr@.port && target@ == authority_text(
                        host@,
                        Some(
                            match port {
                                Some(p) => p,
                                None => 443,
                            },
                        ),
                    ) && host_header@ == c.addr@.text()
                } else {
                    res matches Ok(ConnectPlan::ViaProxy { host: h, port: p }) && h@ == c.addr@.host
                        && p == c.addr@.port
                },
            },
        },
{
    let is_http = str_eq(scheme, "http");
    let is_https = str_eq(scheme, "https");
    if !is_http && !is_https {
        return Err("invalid URI scheme".to_string());
    }
    let default: u16 = if is_http {
        80
    } else {
        443
    };
    match proxy {
        None => {
            let p = match port {
                Some(p) => p,
                None => default,
            };
            Ok(ConnectPlan::Direct { host: host.to_string(), port: p })
        },
        Some(c) => {
            if is_https {
                let target_port = match port {
                    Some(p) => p,
                    None => 443,
                };
                let target = authority(host, Some(target_port));
                let host_header = c.addr.to_string();
                Ok(
                    ConnectPlan::Tunnel {
                        host: c.addr.host().to_string(),
                        port: c.addr.port(),
                        target,
                        host_header,
                        authorization: match &c.authorization {
                            Some(v) => Some(v.clone()),
                            None => None,
                        },
                    },
                )
            } else {
                Ok(ConnectPlan::ViaProxy { host: c.addr.host().to_string(), port: c.addr.port() })
            }
        },
    }
}

/// The outcome of the proxy's answer to a `CONNECT` request with `status`, a code from 100 to
/// 999: the tunnel is open on a 2xx status; otherwise the connection fails, naming the status as
/// it displays.
pub fn tunnel_outcome(status: u16) -> (res: Result<(), String>)
    requires
        100 <= status <= 999,
    ensures
        200 <= status <= 299 ==> res is Ok,
        !(200 <= status <= 299) ==> (res matches Err(e) && e@ == "got status "@ + status_display(status)
            + " from HTTPS proxy"@),
{
    if 200 <= status && status <= 299 {
        Ok(())
    } else {
        let mut e = String::from_str("got status ");
        let text = status_text(status);
        e.append(text.as_str());
        e.append(" from HTTPS proxy");
        Err(e)
    }
}

/// Checks the protocol a TLS connection agreed on: where HTTP/2 is required, a TLS connection
/// must have selected `h2`. A connection without TLS is not checked.
pub fn alpn_check(is_tls: bool, require_http2: bool, selected: Option<&[u8]>) -> (res: Result<(), String>)
    ensures
        res is Ok <==> (!(is_tls && require_http2) || (selected matches Some(p) && p@ == seq![104u8, 50u8])),
        res matches Err(e) ==> e@ == "failed to select h2 in ALPN"@,
{
    if is_tls && require_http2 {
        let ok = match selected {
            Some(p) => p.len() == 2 && p[0] == 104u8 && p[1] == 50u8,
            None => false,
        };
        if !ok {
            return Err("failed to select h2 in ALPN".to_string());
        }
        match selected {
            Some(p) => {
                assert(p@ =~= seq![104u8, 50u8]);
            },
            None => {},
        }
    }
    Ok(())
}

} // verus!
