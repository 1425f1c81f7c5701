use vstd::prelude::*;
use crate::config::{BasicCredentials, BasicCredentialsView, ProxyConfig, ProxyConfigView, ServiceConfigView, ServiceDiscoveryConfig};
use crate::error::{Error, ErrorView};
use crate::node::{trimmed_urls, NodeIter, NodeSelector};
use crate::outgoing::{Method, ProxyState, RequestBuilder};
use crate::retry::internal_safe_error;
use crate::proxy::{basic_credentials_text, proxy_authorization, valid_basic_credentials, ProxyConnector, ProxyConnectorConfig};
use crate::socket::{SocketConnector, Timeouts};
use crate::time::Duration;
use crate::user_agent::{Agent, UserAgent, UserAgentView, valid_agent_name, valid_agent_version};

verus! {

broadcast use vstd::string::group_string_axioms;

/// A value that can be replaced while it is in use, as a reloaded configuration is: whoever
/// takes it next gets the latest value set.
pub struct Reloadable<T> {
    slot: Option<T>,
}

impl<T> Reloadable<T> {
    /// Holds `value`.
    pub fn new(value: T) -> (res: Reloadable<T>)
        ensures
            res.value() == Some(value),
    {
        Reloadable { slot: Some(value) }
    }

    /// The value held, if any.
    pub closed spec fn value(&self) -> Option<T> {
        self.slot
    }

    /// Replaces the value held.
    pub fn set(&mut self, value: T)
        ensures
            final(self).value() == Some(value),
    {
        self.slot = Some(value);
    }

    /// Takes the value held, leaving nothing.
    pub fn take(&mut self) -> (res: Option<T>)
        ensures
            res == old(self).value(),
            final(self).value() is None,
    {
        let mut slot = None;
        std::mem::swap(&mut slot, &mut self.slot);
        slot
    }
}

/// How a client talks to one service, as its configuration says.
pub struct ClientSettings {
    pub nodes: NodeSelector,
    pub max_num_retries: u32,
    pub backoff_slot_size: Duration,
    pub proxy: Option<ProxyState>,
    pub connector: ProxyConnector,
    pub keep_alive: bool,
    pub http2_only: bool,
    pub ca_file: Option<String>,
}

/// Whether `authorization` is the `Proxy-Authorization` value of `credentials`, if there are any.
pub open spec fn authorization_matches(authorization: Option<String>, credentials: Option<BasicCredentialsView>) -> bool {
    match credentials {
        Some(c) => authorization matches Some(v) && v@ == basic_credentials_text(c.username, c.password),
        None => authorization is None,
    }
}

/// Whether the credentials of proxy settings, if any, can be encoded.
pub open spec fn proxy_credentials_valid(config: ProxyConfigView) -> bool {
    match config {
        ProxyConfigView::Http(c) => match c.credentials {
            Some(cred) => valid_basic_credentials(cred),
            None => true,
        },
        _ => true,
    }
}

/// The proxy state that proxy settings give.
pub open spec fn proxy_state_matches(state: Option<ProxyState>, config: ProxyConfigView) -> bool {
    match config {
        ProxyConfigView::Direct => state is None,
        ProxyConfigView::Http(c) => state matches Some(ProxyState::Http { authorization })
            && authorization_matches(authorization, c.credentials),
        ProxyConfigView::Mesh(c) => state matches Some(ProxyState::Mesh { host }) && host@
            == c.host_and_port,
    }
}

/// The proxy that connections go through under proxy settings: only an HTTP proxy is one.
pub open spec fn connector_proxy_matches(proxy: Option<ProxyConnectorConfig>, config: ProxyConfigView) -> bool {
    match config {
        ProxyConfigView::Http(c) => proxy matches Some(p) && p.addr@ == c.host_and_port
            && authorization_matches(p.authorization, c.credentials),
        _ => proxy is None,
    }
}

/// Whether `s` is how a client talks to a service with settings `c`: its nodes are the service's
/// URIs, each without its trailing empty path segment, in some order.
pub open spec fn settings_match(s: ClientSettings, c: ServiceConfigView) -> bool {
    &&& exists|t: Seq<url::Url>| trimmed_urls(t, c.uris) && #[trigger] t.to_multiset() == s.nodes.nodes().to_multiset()
    &&& s.nodes.nodes().len() == c.uris.len()
    &&& s.nodes.default_index() == 0
    &&& s.max_num_retries == c.max_num_retries
    &&& s.backoff_slot_size@ == c.backoff_slot_size
    &&& proxy_state_matches(s.proxy, c.proxy)
    &&& s.connector.connector.0.connect@ == c.connect_timeout
    &&& s.connector.connector.0.read@ == c.read_timeout
    &&& s.connector.connector.0.write@ == c.write_timeout
    &&& connector_proxy_matches(s.connector.proxy, c.proxy)
    &&& s.keep_alive == c.keep_alive
    &&& s.http2_only == c.experimental_assume_http2
    &&& match s.ca_file {
        Some(f) => c.security == Some(f@),
        None => c.security is None,
    }
}

/// The `Proxy-Authorization` value of optional credentials.
fn authorization_of(credentials: Option<&BasicCredentials>) -> (res: Result<Option<String>, Error>)
    ensures
        match credentials {
            Some(c) => match res {
                Ok(a) => valid_basic_credentials(c@) && authorization_matches(a, Some(c@)),
                Err(e) => !valid_basic_credentials(c@) && internal_safe_error(e@, "invalid header value"@),
            },
            None => res matches Ok(a) && a is None,
        },
{
    match credentials {
        Some(c) => match proxy_authorization(c) {
            Ok(v) => Ok(Some(v)),
            Err(e) => Err(e),
        },
        None => Ok(None),
    }
}

/// The proxy state and the proxy connections go through, from proxy settings whose credentials
/// are valid.
fn proxy_states(config: &ProxyConfig) -> (res: Result<(Option<ProxyState>, Option<ProxyConnectorConfig>), Error>)
    ensures
        match res {
            Ok((state, proxy)) => proxy_credentials_valid(config@) && proxy_state_matches(state, config@)
                && connector_proxy_matches(proxy, config@),
            Err(e) => !proxy_credentials_valid(config@) && internal_safe_error(e@, "invalid header value"@),
        },
{
    match config {
        ProxyConfig::Http(c) => {
            let authorization = match authorization_of(c.credentials()) {
                Ok(a) => a,
                Err(e) => {
                    return Err(e);
                },
            };
            let copy = match &authorization {
                Some(v) => Some(v.clone()),
                None => None,
            };
            Ok(
                (
                    Some(ProxyState::Http { authorization }),
                    Some(ProxyConnectorConfig { addr: c.host_and_port().copy(), authorization: copy }),
                ),
            )
        },
        ProxyConfig::Mesh(c) => Ok((Some(ProxyState::Mesh { host: c.host_and_port().copy() }), None)),
        ProxyConfig::Direct => Ok((None, None)),
    }
}

/// Works out how a client talks to `service`; a service that the configuration does not list is
/// an internal error with the service's name as a safe parameter, and proxy credentials that
/// cannot be encoded are the internal error `invalid header value`.
pub fn extract_config(service: &str, config: &ServiceDiscoveryConfig) -> (res: Result<ClientSettings, Error>)
    ensures
        !config@.contains_key(service@) ==> (res matches Err(e) && e@.safe_params == map![
            "service"@ => service@,
        ] && internal_safe_error(
            ErrorView { safe_params: Map::empty(), ..e@ },
            "service not found in configuration"@,
        )),
        config@.contains_key(service@) ==> match res {
            Ok(s) => proxy_credentials_valid(config@[service@].proxy) && settings_match(s, config@[service@]),
            Err(e) => !proxy_credentials_valid(config@[service@].proxy) && internal_safe_error(
                e@,
                "invalid header value"@,
            ),
        },
{
    let service_config = match config.service(service) {
        Some(c) => c,
        None => {
            let e = Error::internal_safe("service not found in configuration");
            let ghost before = e@;
            let e = e.with_safe_param("service", service);
            assert(e@.safe_params =~= map!["service"@ => service@]);
            assert(ErrorView { safe_params: Map::empty(), ..e@ } == before);
            return Err(e);
        },
    };
    let (proxy, connector_proxy) = match proxy_states(service_config.proxy()) {
        Ok(p) => p,
        Err(e) => {
            return Err(e);
        },
    };
    let nodes = NodeSelector::new(service_config.uris());
    let ca_file = match service_config.security().ca_file() {
        Some(f) => Some(f.to_string()),
        None => None,
    };
    let timeouts = Timeouts {
        connect: service_config.connect_timeout(),
        read: service_config.read_timeout(),
        write: service_config.write_timeout(),
    };
    Ok(ClientSettings {
        nodes,
        max_num_retries: service_config.max_num_retries(),
        backoff_slot_size: service_config.backoff_slot_size(),
        proxy,
        connector: ProxyConnector::new(SocketConnector(timeouts), connector_proxy),
        keep_alive: service_config.keep_alive(),
        http2_only: service_config.experimental_assume_http2(),
        ca_file,
    })
}

/// The version of this library, which a client names in its user agent.
pub const CHATTER_VERSION: &'static str = "0.1.0";

/// A client of one remote service.
pub struct Client {
    service: String,
    user_agent: String,
    reload: Option<Reloadable<ServiceDiscoveryConfig>>,
    state: ClientSettings,
}

impl Client {
    /// The name of the service.
    pub closed spec fn spec_service(&self) -> Seq<char> {
        self.service@
    }

    /// The `User-Agent` of the client's requests.
    pub closed spec fn spec_user_agent(&self) -> Seq<char> {
        self.user_agent@
    }

    /// The settings in use.
    pub closed spec fn settings(&self) -> ClientSettings {
        self.state
    }

    /// The configuration waiting to be applied, if any.
    pub closed spec fn pending(&self) -> Option<ServiceDiscoveryConfig> {
        match self.reload {
            Some(r) => r.value(),
            None => None,
        }
    }

    /// Creates a client of `service` from a fixed configuration. The user agent gets this
    /// library's agent appended.
    pub fn new_static(service: &str, user_agent: UserAgent, config: &ServiceDiscoveryConfig) -> (res: Result<Client, Error>)
        ensures
            match res {
                Ok(c) => {
                    &&& c.spec_service() == service@
                    &&& c.spec_user_agent() == (UserAgentView {
                        informational: user_agent@.informational.push(
                            crate::user_agent::AgentView { name: "chatter"@, version: CHATTER_VERSION@ },
                        ),
                        ..user_agent@
                    }).text()
                    &&& config@.contains_key(service@)
                    &&& proxy_credentials_valid(config@[service@].proxy)
                    &&& settings_match(c.settings(), config@[service@])
                    &&& c.pending() is None
                },
                Err(e) => !config@.contains_key(service@) || !proxy_credentials_valid(
                    config@[service@].proxy,
                ),
            },
    {
        let mut user_agent = user_agent;
        proof {
            reveal_strlit("chatter");
            reveal_strlit("0.1.0");
            assert(valid_agent_name("chatter"@)) by {
                assert("chatter"@ =~= seq!['c', 'h', 'a', 't', 't', 'e', 'r']);
            }
            assert(valid_agent_version("0.1.0"@)) by {
                assert("0.1.0"@ =~= seq!['0', '.', '1', '.', '0']);
                reveal_with_fuel(crate::user_agent::version_state, 6);
            }
        }
        user_agent.push_agent(Agent::new("chatter", CHATTER_VERSION));
        let state = match extract_config(service, config) {
            Ok(s) => s,
            Err(e) => {
                return Err(e);
            },
        };
        Ok(Client { service: service.to_string(), user_agent: user_agent.to_string(), reload: None, state })
    }

    /// Creates a client of `service` whose configuration may be replaced: each request takes the
    /// latest configuration set, if one is waiting. A configuration must be present.
    pub fn new(service: &str, user_agent: UserAgent, config: Reloadable<ServiceDiscoveryConfig>) -> (res: Result<Client, Error>)
        requires
            config.value() is Some,
        ensures
            match res {
                Ok(c) => {
                    &&& c.spec_service() == service@
                    &&& c.spec_user_agent() == (UserAgentView {
                        informational: user_agent@.informational.push(
                            crate::user_agent::AgentView { name: "chatter"@, version: CHATTER_VERSION@ },
                        ),
                        ..user_agent@
                    }).text()
                    &&& config.value()->0@.contains_key(service@)
                    &&& proxy_credentials_valid(config.value()->0@[service@].proxy)
                    &&& settings_match(c.settings(), config.value()->0@[service@])
                    &&& c.pending() is None
                },
                Err(e) => !config.value()->0@.contains_key(service@) || !proxy_credentials_valid(
                    config.value()->0@[service@].proxy,
                ),
            },
    {
        let mut config = config;
        let cur_config = match config.take() {
            Some(c) => c,
            None => {
                assert(false);
                return Err(Error::internal_safe("unreachable"));
            },
        };
        let mut client = match Client::new_static(service, user_agent, &cur_config) {
            Ok(c) => c,
            Err(e) => {
                return Err(e);
            },
        };
        client.reload = Some(config);
        Ok(client)
    }

    /// Returns the settings for the next request: those of the configuration waiting to be
    /// applied, which is consumed, if there is one, it lists the service and its proxy credentials
    /// can be encoded; else those in use.
    pub fn get_refresh(&mut self) -> (res: &ClientSettings)
        ensures
            final(self).spec_service() == old(self).spec_service(),
            final(self).spec_user_agent() == old(self).spec_user_agent(),
            final(self).pending() is None,
            *res == final(self).settings(),
            match old(self).pending() {
                Some(config) => if config@.contains_key(old(self).spec_service()) && proxy_credentials_valid(
                    config@[old(self).spec_service()].proxy,
                ) {
                    settings_match(final(self).settings(), config@[old(self).spec_service()])
                } else {
                    final(self).settings() == old(self).settings()
                },
                None => final(self).settings() == old(self).settings(),
            },
    {
        let pending = match &mut self.reload {
            Some(r) => r.take(),
            None => None,
        };
        match pending {
            Some(config) => match extract_config(self.service.as_str(), &config) {
                Ok(state) => {
                    self.state = state;
                },
                Err(_) => {},
            },
            None => {},
        }
        &self.state
    }

    /// Makes the node at `index` the one that later requests try first, as a request that
    /// succeeded there asks; nothing else changes.
    pub fn set_default_node(&mut self, index: usize)
        requires
            index < old(self).settings().nodes.nodes().len(),
        ensures
            final(self).spec_service() == old(self).spec_service(),
            final(self).spec_user_agent() == old(self).spec_user_agent(),
            final(self).pending() == old(self).pending(),
            final(self).settings().nodes.nodes() == old(self).settings().nodes.nodes(),
            final(self).settings().nodes.default_index() == index,
            final(self).settings() == (ClientSettings { nodes: final(self).settings().nodes, ..old(self).settings() }),
    {
        self.state.nodes.set_default(index);
    }

    /// Starts a request with `method` to the path `pattern`.
    pub fn request(&self, method: Method, pattern: &str) -> (res: RequestBuilder)
        ensures
            res@ == (crate::outgoing::RequestBuilderView {
                method,
                pattern: pattern@,
                params: Seq::empty(),
                headers: crate::outgoing::default_headers(self.spec_user_agent()),
                idempotent: method.spec_is_idempotent(),
            }),
    {
        RequestBuilder::new(self.user_agent.as_str(), pattern, method)
    }

    /// Starts a `GET` request.
    pub fn get(&self, pattern: &str) -> (res: RequestBuilder)
        ensures
            res@ == (crate::outgoing::RequestBuilderView {
                method: Method::Get,
                pattern: pattern@,
                params: Seq::empty(),
                headers: crate::outgoing::default_headers(self.spec_user_agent()),
                idempotent: Method::Get.spec_is_idempotent(),
            }),
    {
        self.request(Method::Get, pattern)
    }

    /// Starts a `POST` request.
    pub fn post(&self, pattern: &str) -> (res: RequestBuilder)
        ensures
            res@ == (crate::outgoing::RequestBuilderView {
                method: Method::Post,
                pattern: pattern@,
                params: Seq::empty(),
                headers: crate::outgoing::default_headers(self.spec_user_agent()),
                idempotent: Method::Post.spec_is_idempotent(),
            }),
    {
        self.request(Method::Post, pattern)
    }

    /// Starts a `PUT` request.
    pub fn put(&self, pattern: &str) -> (res: RequestBuilder)
        ensures
            res@ == (crate::outgoing::RequestBuilderView {
                method: Method::Put,
                pattern: pattern@,
                params: Seq::empty(),
                headers: crate::outgoing::default_headers(self.spec_user_agent()),
                idempotent: Method::Put.spec_is_idempotent(),
            }),
    {
        self.request(Method::Put, pattern)
    }

    /// Starts a `DELETE` request.
    pub fn delete(&self, pattern: &str) -> (res: RequestBuilder)
        ensures
            res@ == (crate::outgoing::RequestBuilderView {
                method: Method::Delete,
                pattern: pattern@,
                params: Seq::empty(),
                headers: crate::outgoing::default_headers(self.spec_user_agent()),
                idempotent: Method::Delete.spec_is_idempotent(),
            }),
    {
        self.request(Method::Delete, pattern)
    }

    /// Starts a `PATCH` request.
    pub fn patch(&self, pattern: &str) -> (res: RequestBuilder)
        ensures
            res@ == (crate::outgoing::RequestBuilderView {
                method: Method::Patch,
                pattern: pattern@,
                params: Seq::empty(),
                headers: crate::outgoing::default_headers(self.spec_user_agent()),
                idempotent: Method::Patch.spec_is_idempotent(),
            }),
    {
        self.request(Method::Patch, pattern)
    }
}

/// Starts sending a request to `service` with `settings`: the pass over its nodes begins at the
/// node requests try first. A service without nodes is an internal error naming the service.
pub fn start_send<'a>(settings: &'a ClientSettings, service: &str) -> (res: Result<NodeIter<'a>, Error>)
    ensures
        match res {
            Ok(it) => it.selector() == &settings.nodes && it.index() == settings.nodes.default_index(),
            Err(e) => settings.nodes.nodes().len() == 0 && e@.safe_params == map!["service"@ => service@]
                && internal_safe_error(
                ErrorView { safe_params: Map::empty(), ..e@ },
                "service has no configured URLs"@,
            ),
        },
{
    match settings.nodes.iter() {
        Some(it) => Ok(it),
        None => {
            let e = Error::internal_safe("service has no configured URLs");
            let ghost before = e@;
            let e = e.with_safe_param("service", service);
            assert(e@.safe_params =~= map!["service"@ => service@]);
            assert(ErrorView { safe_params: Map::empty(), ..e@ } == before);
            Err(e)
        },
    }
}

} // verus!
