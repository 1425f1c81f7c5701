use vstd::prelude::*;
use crate::config::raw;
use crate::config::{
    clone_url, opt_view, proxy_from_raw, ProxyConfig, ProxyConfigView, SecurityConfig,
};
use crate::text::str_eq;
use crate::time::Duration;

verus! {

/// The abstract contents of a `ServiceConfig`; durations are in nanoseconds.
pub struct ServiceConfigView {
    pub uris: Seq<url::Url>,
    pub security: Option<Seq<char>>,
    pub connect_timeout: nat,
    pub read_timeout: nat,
    pub write_timeout: nat,
    pub max_num_retries: u32,
    pub backoff_slot_size: nat,
    pub proxy: ProxyConfigView,
    pub keep_alive: bool,
    pub experimental_assume_http2: bool,
}

/// The settings of a service that sets nothing: no URIs, no CA file, a direct connection, a
/// 30 second connect timeout, 10 minute read and write timeouts, 3 retries with a 250 ms backoff
/// slot, keep-alive on and HTTP/2 not assumed.
pub open spec fn default_service() -> ServiceConfigView {
    ServiceConfigView {
        uris: Seq::empty(),
        security: None,
        connect_timeout: 30 * 1_000_000_000,
        read_timeout: 600 * 1_000_000_000,
        write_timeout: 600 * 1_000_000_000,
        max_num_retries: 3,
        backoff_slot_size: 250 * 1_000_000,
        proxy: ProxyConfigView::Direct,
        keep_alive: true,
        experimental_assume_http2: false,
    }
}

/// The settings of one service.
pub struct ServiceConfig {
    uris: Vec<url::Url>,
    security: SecurityConfig,
    connect_timeout: Duration,
    read_timeout: Duration,
    write_timeout: Duration,
    max_num_retries: u32,
    backoff_slot_size: Duration,
    proxy: ProxyConfig,
    keep_alive: bool,
    experimental_assume_http2: bool,
}

impl View for ServiceConfig {
    type V = ServiceConfigView;

    closed spec fn view(&self) -> ServiceConfigView {
        ServiceConfigView {
            uris: self.uris@,
            security: self.security@,
            connect_timeout: self.connect_timeout@,
            read_timeout: self.read_timeout@,
            write_timeout: self.write_timeout@,
            max_num_retries: self.max_num_retries,
            backoff_slot_size: self.backoff_slot_size@,
            proxy: self.proxy@,
            keep_alive: self.keep_alive,
            experimental_assume_http2: self.experimental_assume_http2,
        }
    }
}

/// Copies a list of URLs.
fn copy_urls(uris: &Vec<url::Url>) -> (res: Vec<url::Url>)
    ensures
        res@ == uris@,
{
    let mut out: Vec<url::Url> = Vec::new();
    let mut i: usize = 0;
    while i < uris.len()
        invariant
            i <= uris@.len(),
            out@ == uris@.take(i as int),
        decreases uris@.len() - i,
    {
        out.push(clone_url(&uris[i]));
        assert(uris@.take(i + 1) =~= uris@.take(i as int).push(uris@[i as int]));
        i = i + 1;
    }
    assert(uris@.take(uris@.len() as int) =~= uris@);
    out
}

impl Default for ServiceConfig {
    /// The settings of a service that sets nothing.
    fn default() -> (res: ServiceConfig)
        ensures
            res@ == default_service(),
    {
        ServiceConfig {
            uris: Vec::new(),
            security: SecurityConfig::builder().build(),
            connect_timeout: Duration::from_secs(30),
            read_timeout: Duration::from_secs(10 * 60),
            write_timeout: Duration::from_secs(10 * 60),
            max_num_retries: 3,
            backoff_slot_size: Duration::from_millis(250),
            proxy: ProxyConfig::Direct,
            keep_alive: true,
            experimental_assume_http2: false,
        }
    }
}

impl ServiceConfig {
    /// Returns a builder that starts from the default settings.
    pub fn builder() -> (res: ServiceConfigBuilder)
        ensures
            res@ == default_service(),
    {
        ServiceConfigBuilder(ServiceConfig::default())
    }

    /// Returns the URIs of the service's nodes.
    pub fn uris(&self) -> (res: &[url::Url])
        ensures
            res@ == self@.uris,
    {
        self.uris.as_slice()
    }

    /// Returns the TLS settings.
    pub fn security(&self) -> (res: &SecurityConfig)
        ensures
            res@ == self@.security,
    {
        &self.security
    }

    /// Returns the connect timeout.
    pub fn connect_timeout(&self) -> (res: Duration)
        ensures
            res@ == self@.connect_timeout,
    {
        self.connect_timeout
    }

    /// Returns the read timeout.
    pub fn read_timeout(&self) -> (res: Duration)
        ensures
            res@ == self@.read_timeout,
    {
        self.read_timeout
    }

    /// Returns the write timeout.
    pub fn write_timeout(&self) -> (res: Duration)
        ensures
            res@ == self@.write_timeout,
    {
        self.write_timeout
    }

    /// Returns how many times a failed request may be retried.
    pub fn max_num_retries(&self) -> (res: u32)
        ensures
            res == self@.max_num_retries,
    {
        self.max_num_retries
    }

    /// Returns the slot size of the exponential backoff between retries.
    pub fn backoff_slot_size(&self) -> (res: Duration)
        ensures
            res@ == self@.backoff_slot_size,
    {
        self.backoff_slot_size
    }

    /// Returns the proxy settings.
    pub fn proxy(&self) -> (res: &ProxyConfig)
        ensures
            res@ == self@.proxy,
    {
        &self.proxy
    }

    /// Returns whether connections are kept alive.
    pub fn keep_alive(&self) -> (res: bool)
        ensures
            res == self@.keep_alive,
    {
        self.keep_alive
    }

    /// Returns whether the service is assumed to speak HTTP/2.
    pub fn experimental_assume_http2(&self) -> (res: bool)
        ensures
            res == self@.experimental_assume_http2,
    {
        self.experimental_assume_http2
    }

    /// Returns a copy of the settings.
    pub fn copy(&self) -> (res: ServiceConfig)
        ensures
            res@ == self@,
    {
        ServiceConfig {
            uris: copy_urls(&self.uris),
            security: self.security.copy(),
            connect_timeout: self.connect_timeout,
            read_timeout: self.read_timeout,
            write_timeout: self.write_timeout,
            max_num_retries: self.max_num_retries,
            backoff_slot_size: self.backoff_slot_size,
            proxy: self.proxy.copy(),
            keep_alive: self.keep_alive,
            experimental_assume_http2: self.experimental_assume_http2,
        }
    }
}

/// Builds a `ServiceConfig`.
pub struct ServiceConfigBuilder(ServiceConfig);

impl View for ServiceConfigBuilder {
    type V = ServiceConfigView;

    closed spec fn view(&self) -> ServiceConfigView {
        self.0@
    }
}

impl ServiceConfigBuilder {
    /// Sets the URIs of the service's nodes.
    pub fn uris(&mut self, uris: Vec<url::Url>) -> (res: &mut Self)
        ensures
            res@ == (ServiceConfigView { uris: uris@, ..old(self)@ }),
            final(self)@ == final(res)@,
    {
        self.0.uris = uris;
        self
    }

    /// Sets the TLS settings.
    pub fn security(&mut self, security: SecurityConfig) -> (res: &mut Self)
        ensures
            res@ == (ServiceConfigView { security: security@, ..old(self)@ }),
            final(self)@ == final(res)@,
    {
        self.0.security = security;
        self
    }

    /// Sets the connect timeout.
    pub fn connect_timeout(&mut self, connect_timeout: Duration) -> (res: &mut Self)
        ensures
            res@ == (ServiceConfigView { connect_timeout: connect_timeout@, ..old(self)@ }),
            final(self)@ == final(res)@,
    {
        self.0.connect_timeout = connect_timeout;
        self
    }

    /// Sets the read timeout.
    pub fn read_timeout(&mut self, read_timeout: Duration) -> (res: &mut Self)
        ensures
            res@ == (ServiceConfigView { read_timeout: read_timeout@, ..old(self)@ }),
            final(self)@ == final(res)@,
    {
        self.0.read_timeout = read_timeout;
        self
    }

    /// Sets the write timeout.
    pub fn write_timeout(&mut self, write_timeout: Duration) -> (res: &mut Self)
        ensures
            res@ == (ServiceConfigView { write_timeout: write_timeout@, ..old(self)@ }),
            final(self)@ == final(res)@,
    {
        self.0.write_timeout = write_timeout;
        self
    }

    /// Sets how many times a failed request may be retried.
    pub fn max_num_retries(&mut self, max_num_retries: u32) -> (res: &mut Self)
        ensures
            res@ == (ServiceConfigView { max_num_retries, ..old(self)@ }),
            final(self)@ == final(res)@,
    {
        self.0.max_num_retries = max_num_retries;
        self
    }

    /// Sets the slot size of the exponential backoff between retries.
    pub fn backoff_slot_size(&mut self, backoff_slot_size: Duration) -> (res: &mut Self)
        ensures
            res@ == (ServiceConfigView { backoff_slot_size: backoff_slot_size@, ..old(self)@ }),
            final(self)@ == final(res)@,
    {
        self.0.backoff_slot_size = backoff_slot_size;
        self
    }

    /// Sets the proxy settings.
    pub fn proxy(&mut self, proxy: ProxyConfig) -> (res: &mut Self)
        ensures
            res@ == (ServiceConfigView { proxy: proxy@, ..old(self)@ }),
            final(self)@ == final(res)@,
    {
        self.0.proxy = proxy;
        self
    }

    /// Sets whether connections are kept alive.
    pub fn keep_alive(&mut self, keep_alive: bool) -> (res: &mut Self)
        ensures
            res@ == (ServiceConfigView { keep_alive, ..old(self)@ }),
            final(self)@ == final(res)@,
    {
        self.0.keep_alive = keep_alive;
        self
    }

    /// Sets whether the service is assumed to speak HTTP/2.
    pub fn experimental_assume_http2(&mut self, experimental_assume_http2: bool) -> (res: &mut Self)
        ensures
            res@ == (ServiceConfigView { experimental_assume_http2, ..old(self)@ }),
            final(self)@ == final(res)@,
    {
        self.0.experimental_assume_http2 = experimental_assume_http2;
        self
    }

    /// Returns the settings built so far.
    pub fn build(&self) -> (res: ServiceConfig)
        ensures
            res@ == self@,
    {
        self.0.copy()
    }
}

/// The first of two optional settings that is set.
pub open spec fn first_set<T>(own: Option<T>, shared: Option<T>) -> Option<T> {
    match own {
        Some(v) => Some(v),
        None => shared,
    }
}

/// The length of an optional duration, or `default` where it is not set.
pub open spec fn nanos_or(d: Option<Duration>, default: nat) -> nat {
    match d {
        Some(d) => d@,
        None => default,
    }
}

/// The settings that a service read from a configuration file gets: each setting the service
/// gives itself; where it gives none, the one the file gives for every service; where neither
/// is given, the default. The number of retries is taken from the service alone.
pub open spec fn service_from_raw(own: raw::ServiceConfig, shared: raw::ServiceDiscoveryConfig) -> ServiceConfigView {
    let d = default_service();
    ServiceConfigView {
        uris: own.uris@,
        security: match first_set(own.security, shared.security) {
            Some(s) => opt_view(s.ca_file),
            None => d.security,
        },
        connect_timeout: nanos_or(first_set(own.connect_timeout, shared.connect_timeout), d.connect_timeout),
        read_timeout: nanos_or(first_set(own.read_timeout, shared.read_timeout), d.read_timeout),
        write_timeout: nanos_or(first_set(own.write_timeout, shared.write_timeout), d.write_timeout),
        max_num_retries: match own.max_num_retries {
            Some(n) => n,
            None => d.max_num_retries,
        },
        backoff_slot_size: nanos_or(
            first_set(own.backoff_slot_size, shared.backoff_slot_size),
            d.backoff_slot_size,
        ),
        proxy: match first_set(own.proxy, shared.proxy) {
            Some(p) => proxy_from_raw(p),
            None => d.proxy,
        },
        keep_alive: match first_set(own.keep_alive, shared.keep_alive) {
            Some(b) => b,
            None => d.keep_alive,
        },
        experimental_assume_http2: match first_set(
            own.experimental_assume_http2,
            shared.experimental_assume_http2,
        ) {
            Some(b) => b,
            None => d.experimental_assume_http2,
        },
    }
}

/// Each setting of a service read from a configuration file is the one the service gives
/// itself; where it gives none, the one the file gives for every service; where neither is
/// given, the default (30 s to connect, 10 min to read and to write, a 250 ms backoff slot, a
/// direct connection, keep-alive on, HTTP/2 not assumed, no CA file). The number of retries comes
/// from the service alone, 3 by default, and the URIs are the service's.
pub proof fn lemma_service_settings_fall_back(own: raw::ServiceConfig, shared: raw::ServiceDiscoveryConfig)
    ensures
        service_from_raw(own, shared).uris == own.uris@,
        own.connect_timeout matches Some(t) ==> service_from_raw(own, shared).connect_timeout == t@,
        own.connect_timeout is None ==> (shared.connect_timeout matches Some(t) ==> service_from_raw(own, shared).connect_timeout == t@),
        own.connect_timeout is None && shared.connect_timeout is None ==> service_from_raw(own, shared).connect_timeout == 30_000_000_000,
        own.read_timeout matches Some(t) ==> service_from_raw(own, shared).read_timeout == t@,
        own.read_timeout is None ==> (shared.read_timeout matches Some(t) ==> service_from_raw(own, shared).read_timeout == t@),
        own.read_timeout is None && shared.read_timeout is None ==> service_from_raw(own, shared).read_timeout == 600_000_000_000,
        own.write_timeout matches Some(t) ==> service_from_raw(own, shared).write_timeout == t@,
        own.write_timeout is None ==> (shared.write_timeout matches Some(t) ==> service_from_raw(own, shared).write_timeout == t@),
        own.write_timeout is None && shared.write_timeout is None ==> service_from_raw(own, shared).write_timeout == 600_000_000_000,
        own.backoff_slot_size matches Some(t) ==> service_from_raw(own, shared).backoff_slot_size == t@,
        own.backoff_slot_size is None ==> (shared.backoff_slot_size matches Some(t) ==> service_from_raw(own, shared).backoff_slot_size == t@),
        own.backoff_slot_size is None && shared.backoff_slot_size is None ==> service_from_raw(own, shared).backoff_slot_size == 250_000_000,
        own.max_num_retries matches Some(n) ==> service_from_raw(own, shared).max_num_retries == n,
        own.max_num_retries is None ==> service_from_raw(own, shared).max_num_retries == 3,
        own.keep_alive matches Some(b) ==> service_from_raw(own, shared).keep_alive == b,
        own.keep_alive is None ==> (shared.keep_alive matches Some(b) ==> service_from_raw(own, shared).keep_alive == b),
        own.keep_alive is None && shared.keep_alive is None ==> service_from_raw(own, shared).keep_alive == true,
        own.experimental_assume_http2 matches Some(b) ==> service_from_raw(own, shared).experimental_assume_http2 == b,
        own.experimental_assume_http2 is None ==> (shared.experimental_assume_http2 matches Some(b) ==> service_from_raw(own, shared).experimental_assume_http2 == b),
        own.experimental_assume_http2 is None && shared.experimental_assume_http2 is None ==> service_from_raw(own, shared).experimental_assume_http2 == false,
        own.proxy matches Some(p) ==> service_from_raw(own, shared).proxy == proxy_from_raw(p),
        own.proxy is None ==> (shared.proxy matches Some(p) ==> service_from_raw(own, shared).proxy == proxy_from_raw(p)),
        own.proxy is None && shared.proxy is None ==> service_from_raw(own, shared).proxy == ProxyConfigView::Direct,
        own.security matches Some(c) ==> service_from_raw(own, shared).security == opt_view(c.ca_file),
        own.security is None ==> (shared.security matches Some(c) ==> service_from_raw(own, shared).security == opt_view(c.ca_file)),
        own.security is None && shared.security is None ==> service_from_raw(own, shared).security is None,
{
}

/// The services a configuration file lists are exactly those the configuration holds, and each
/// gets the settings of its last entry in the file.
pub proof fn lemma_services_from_raw(entries: Seq<raw::NamedServiceConfig>, shared: raw::ServiceDiscoveryConfig)
    ensures
        forall|n: Seq<char>|
            #[trigger] services_from_raw(entries, shared).contains_key(n) <==> exists|i: int|
                0 <= i < entries.len() && #[trigger] entries[i].name@ == n,
        forall|i: int|
            #![trigger entries[i]]
            0 <= i < entries.len() && (forall|j: int|
                i < j < entries.len() ==> #[trigger] entries[j].name@ != entries[i].name@)
                ==> services_from_raw(entries, shared)[entries[i].name@] == service_from_raw(
                entries[i].config,
                shared,
            ),
    decreases entries.len(),
{
    if entries.len() > 0 {
        let d = entries.drop_last();
        let last = entries.last();
        lemma_services_from_raw(d, shared);
        let m = services_from_raw(entries, shared);
        assert(m == services_from_raw(d, shared).insert(last.name@, service_from_raw(last.config, shared)));
        assert forall|n: Seq<char>| #[trigger] m.contains_key(n) <==> exists|i: int|
            0 <= i < entries.len() && #[trigger] entries[i].name@ == n by {
            if m.contains_key(n) {
                if n == last.name@ {
                    assert(entries[entries.len() - 1].name@ == n);
                } else {
                    assert(services_from_raw(d, shared).contains_key(n));
                    let i = choose|i: int| 0 <= i < d.len() && #[trigger] d[i].name@ == n;
                    assert(entries[i].name@ == n);
                }
            }
            if exists|i: int| 0 <= i < entries.len() && #[trigger] entries[i].name@ == n {
                let i = choose|i: int| 0 <= i < entries.len() && #[trigger] entries[i].name@ == n;
                if i < entries.len() - 1 {
                    assert(d[i].name@ == n);
                }
            }
        }
        assert forall|i: int|
            #![trigger entries[i]]
            0 <= i < entries.len() && (forall|j: int|
                i < j < entries.len() ==> #[trigger] entries[j].name@ != entries[i].name@)
                implies m[entries[i].name@] == service_from_raw(entries[i].config, shared) by {
            if i < entries.len() - 1 {
                assert(entries[entries.len() - 1].name@ != entries[i].name@);
                assert(d[i] == entries[i]);
                assert forall|j: int| i < j < d.len() implies #[trigger] d[j].name@ != d[i].name@ by {
                    assert(entries[j].name@ != entries[i].name@);
                }
            }
        }
    }
}

/// Picks the setting of a service, falling back to the shared one.
fn pick<'a, T>(own: &'a Option<T>, shared: &'a Option<T>) -> (res: &'a Option<T>)
    ensures
        *res == first_set(*own, *shared),
{
    match own {
        Some(_) => own,
        None => shared,
    }
}

impl ServiceConfig {
    /// Converts the settings of a service read from a configuration file, falling back to the
    /// settings the file gives for every service.
    fn from_raw(own: &raw::ServiceConfig, shared: &raw::ServiceDiscoveryConfig) -> (res: ServiceConfig)
        ensures
            res@ == service_from_raw(*own, *shared),
    {
        let mut service = ServiceConfig::builder();
        service.uris(copy_urls(&own.uris));
        match pick(&own.security, &shared.security) {
            Some(security) => {
                service.security(SecurityConfig::from_raw(security));
            },
            None => {},
        }
        match pick(&own.proxy, &shared.proxy) {
            Some(proxy) => {
                service.proxy(ProxyConfig::from_raw(proxy));
            },
            None => {},
        }
        match pick(&own.connect_timeout, &shared.connect_timeout) {
            Some(t) => {
                service.connect_timeout(*t);
            },
            None => {},
        }
        match pick(&own.read_timeout, &shared.read_timeout) {
            Some(t) => {
                service.read_timeout(*t);
            },
            None => {},
        }
        match pick(&own.write_timeout, &shared.write_timeout) {
            Some(t) => {
                service.write_timeout(*t);
            },
            None => {},
        }
        match own.max_num_retries {
            Some(n) => {
                service.max_num_retries(n);
            },
            None => {},
        }
        match pick(&own.backoff_slot_size, &shared.backoff_slot_size) {
            Some(t) => {
                service.backoff_slot_size(*t);
            },
            None => {},
        }
        match pick(&own.keep_alive, &shared.keep_alive) {
            Some(b) => {
                service.keep_alive(*b);
            },
            None => {},
        }
        match pick(&own.experimental_assume_http2, &shared.experimental_assume_http2) {
            Some(b) => {
                service.experimental_assume_http2(*b);
            },
            None => {},
        }
        service.build()
    }
}

/// One named service of a `ServiceDiscoveryConfig`.
pub struct NamedService {
    pub name: String,
    pub config: ServiceConfig,
}

/// The map that a list of named services denotes: a later entry for a name overrides an earlier
/// one.
pub open spec fn service_map(s: Seq<NamedService>) -> Map<Seq<char>, ServiceConfigView>
    decreases s.len(),
{
    if s.len() == 0 {
        Map::empty()
    } else {
        service_map(s.drop_last()).insert(s.last().name@, s.last().config@)
    }
}

/// No name occurs twice in the list.
pub open spec fn names_unique(s: Seq<NamedService>) -> bool {
    forall|i: int, j: int| 0 <= i < j < s.len() ==> s[i].name@ != s[j].name@
}

/// A name occurs in the denoted map exactly when some entry carries it.
proof fn lemma_service_map_contains(s: Seq<NamedService>, k: Seq<char>)
    ensures
        service_map(s).contains_key(k) <==> exists|i: int| 0 <= i < s.len() && s[i].name@ == k,
    decreases s.len(),
{
    if s.len() > 0 {
        lemma_service_map_contains(s.drop_last(), k);
        if service_map(s).contains_key(k) && s.last().name@ != k {
            let i = choose|i: int| 0 <= i < s.drop_last().len() && s.drop_last()[i].name@ == k;
            assert(s[i].name@ == k);
        }
        if exists|i: int| 0 <= i < s.len() && s[i].name@ == k {
            let i = choose|i: int| 0 <= i < s.len() && s[i].name@ == k;
            if i < s.len() - 1 {
                assert(s.drop_last()[i].name@ == k);
            }
        }
    }
}

/// With unique names, the map holds each entry's settings under its name.
proof fn lemma_service_map_value(s: Seq<NamedService>, i: int)
    requires
        names_unique(s),
        0 <= i < s.len(),
    ensures
        service_map(s).contains_key(s[i].name@),
        service_map(s)[s[i].name@] == s[i].config@,
    decreases s.len(),
{
    if i < s.len() - 1 {
        let t = s.drop_last();
        assert(t[i] == s[i]);
        lemma_service_map_value(t, i);
    }
}

/// Replacing the settings of an existing name changes only that name's settings.
proof fn lemma_service_map_update(s: Seq<NamedService>, i: int, e: NamedService)
    requires
        names_unique(s),
        0 <= i < s.len(),
        e.name@ == s[i].name@,
    ensures
        service_map(s.update(i, e)) == service_map(s).insert(e.name@, e.config@),
    decreases s.len(),
{
    let u = s.update(i, e);
    if i == s.len() - 1 {
        assert(u.drop_last() =~= s.drop_last());
        assert(service_map(u) =~= service_map(s).insert(e.name@, e.config@));
    } else {
        let t = s.drop_last();
        assert(u.drop_last() =~= t.update(i, e));
        lemma_service_map_update(t, i, e);
        assert(s.last().name@ != e.name@);
        assert(service_map(u) =~= service_map(s).insert(e.name@, e.config@));
    }
}

/// The settings of every service a client may call, by service name.
pub struct ServiceDiscoveryConfig {
    services: Vec<NamedService>,
}

impl View for ServiceDiscoveryConfig {
    type V = Map<Seq<char>, ServiceConfigView>;

    closed spec fn view(&self) -> Map<Seq<char>, ServiceConfigView> {
        service_map(self.services@)
    }
}

impl ServiceDiscoveryConfig {
    #[verifier::type_invariant]
    closed spec fn inv(self) -> bool {
        names_unique(self.services@)
    }

    /// Returns a builder with no services.
    pub fn builder() -> (res: ServiceDiscoveryConfigBuilder)
        ensures
            res@ == Map::<Seq<char>, ServiceConfigView>::empty(),
    {
        ServiceDiscoveryConfigBuilder(ServiceDiscoveryConfig { services: Vec::new() })
    }

    fn position(&self, name: &str) -> (res: Option<usize>)
        ensures
            match res {
                Some(i) => i < self.services@.len() && self.services@[i as int].name@ == name@,
                None => forall|j: int|
                    0 <= j < self.services@.len() ==> self.services@[j].name@ != name@,
            },
    {
        let mut i: usize = 0;
        while i < self.services.len()
            invariant
                i <= self.services@.len(),
                forall|j: int| 0 <= j < i ==> self.services@[j].name@ != name@,
            decreases self.services@.len() - i,
        {
            if str_eq(self.services[i].name.as_str(), name) {
                return Some(i);
            }
            i = i + 1;
        }
        None
    }

    /// Returns the settings of the named service, if it is configured.
    pub fn service(&self, service: &str) -> (res: Option<&ServiceConfig>)
        ensures
            match res {
                Some(c) => self@.contains_key(service@) && self@[service@] == c@,
                None => !self@.contains_key(service@),
            },
    {
        proof {
            use_type_invariant(self);
            lemma_service_map_contains(self.services@, service@);
        }
        match self.position(service) {
            Some(i) => {
                proof {
                    lemma_service_map_value(self.services@, i as int);
                }
                Some(&self.services[i].config)
            },
            None => None,
        }
    }

    /// Sets the settings of the named service, replacing any it had.
    fn insert(&mut self, name: &str, config: ServiceConfig)
        ensures
            final(self)@ == old(self)@.insert(name@, config@),
    {
        proof {
            use_type_invariant(&*self);
        }
        let e = NamedService { name: name.to_string(), config };
        match self.position(name) {
            Some(i) => {
                let ghost old_services = self.services@;
                proof {
                    lemma_service_map_update(old_services, i as int, e);
                }
                let mut services = Vec::new();
                std::mem::swap(&mut services, &mut self.services);
                services.set(i, e);
                assert(services@ == old_services.update(i as int, e));
                self.services = services;
            },
            None => {
                let ghost old_services = self.services@;
                let mut services = Vec::new();
                std::mem::swap(&mut services, &mut self.services);
                services.push(e);
                assert(services@.drop_last() =~= old_services);
                self.services = services;
            },
        }
    }

    /// Returns a copy of the settings.
    pub fn copy(&self) -> (res: ServiceDiscoveryConfig)
        ensures
            res@ == self@,
    {
        proof {
            use_type_invariant(self);
        }
        let mut out = ServiceDiscoveryConfig { services: Vec::new() };
        let mut i: usize = 0;
        while i < self.services.len()
            invariant
                i <= self.services@.len(),
                out@ == service_map(self.services@.take(i as int)),
            decreases self.services@.len() - i,
        {
            let e = &self.services[i];
            out.insert(e.name.as_str(), e.config.copy());
            assert(self.services@.take(i + 1).drop_last() =~= self.services@.take(i as int));
            i = i + 1;
        }
        assert(self.services@.take(self.services@.len() as int) =~= self.services@);
        out
    }
}

/// The services that a configuration file lists, each with the settings it gets; where a name
/// is listed twice, the later entry counts.
pub open spec fn services_from_raw(entries: Seq<raw::NamedServiceConfig>, shared: raw::ServiceDiscoveryConfig) -> Map<Seq<char>, ServiceConfigView>
    decreases entries.len(),
{
    if entries.len() == 0 {
        Map::empty()
    } else {
        services_from_raw(entries.drop_last(), shared).insert(
            entries.last().name@,
            service_from_raw(entries.last().config, shared),
        )
    }
}

impl ServiceDiscoveryConfig {
    /// Converts a configuration file read into its raw form.
    pub fn from_raw(raw: &raw::ServiceDiscoveryConfig) -> (res: ServiceDiscoveryConfig)
        ensures
            res@ == services_from_raw(raw.services@, *raw),
    {
        let mut config = ServiceDiscoveryConfig::builder();
        let mut i: usize = 0;
        while i < raw.services.len()
            invariant
                i <= raw.services@.len(),
                config@ == services_from_raw(raw.services@.take(i as int), *raw),
            decreases raw.services@.len() - i,
        {
            let entry = &raw.services[i];
            let service = ServiceConfig::from_raw(&entry.config, raw);
            config.service(entry.name.as_str(), service);
            assert(raw.services@.take(i + 1).drop_last() =~= raw.services@.take(i as int));
            i = i + 1;
        }
        assert(raw.services@.take(raw.services@.len() as int) =~= raw.services@);
        config.build()
    }
}

/// Builds a `ServiceDiscoveryConfig`.
pub struct ServiceDiscoveryConfigBuilder(ServiceDiscoveryConfig);

impl View for ServiceDiscoveryConfigBuilder {
    type V = Map<Seq<char>, ServiceConfigView>;

    closed spec fn view(&self) -> Map<Seq<char>, ServiceConfigView> {
        self.0@
    }
}

impl ServiceDiscoveryConfigBuilder {
    /// Sets the settings of the named service, replacing any it had.
    pub fn service(&mut self, name: &str, config: ServiceConfig) -> (res: &mut Self)
        ensures
            res@ == old(self)@.insert(name@, config@),
            final(self)@ == final(res)@,
    {
        self.0.insert(name, config);
        self
    }

    /// Returns the settings built so far.
    pub fn build(&self) -> (res: ServiceDiscoveryConfig)
        ensures
            res@ == self@,
    {
        self.0.copy()
    }
}

impl Default for ServiceConfigBuilder {
    /// A builder that starts from the default settings.
    fn default() -> (res: ServiceConfigBuilder)
        ensures
            res@ == default_service(),
    {
        ServiceConfig::builder()
    }
}

impl From<ServiceConfig> for ServiceConfigBuilder {
    /// A builder that starts from the given settings.
    fn from(config: ServiceConfig) -> (res: ServiceConfigBuilder)
        ensures
            res@ == config@,
    {
        ServiceConfigBuilder(config)
    }
}

impl vstd::std_specs::convert::FromSpecImpl<ServiceConfig> for ServiceConfigBuilder {
    open spec fn obeys_from_spec() -> bool {
        true
    }

    closed spec fn from_spec(config: ServiceConfig) -> ServiceConfigBuilder {
        ServiceConfigBuilder(config)
    }
}

impl Default for ServiceDiscoveryConfig {
    /// A configuration with no services.
    fn default() -> (res: ServiceDiscoveryConfig)
        ensures
            res@ == Map::<Seq<char>, ServiceConfigView>::empty(),
    {
        ServiceDiscoveryConfig { services: Vec::new() }
    }
}

impl Default for ServiceDiscoveryConfigBuilder {
    /// A builder with no services.
    fn default() -> (res: ServiceDiscoveryConfigBuilder)
        ensures
            res@ == Map::<Seq<char>, ServiceConfigView>::empty(),
    {
        ServiceDiscoveryConfig::builder()
    }
}

impl From<ServiceDiscoveryConfig> for ServiceDiscoveryConfigBuilder {
    /// A builder that starts from the given configuration.
    fn from(config: ServiceDiscoveryConfig) -> (res: ServiceDiscoveryConfigBuilder)
        ensures
            res@ == config@,
    {
        ServiceDiscoveryConfigBuilder(config)
    }
}

impl vstd::std_specs::convert::FromSpecImpl<ServiceDiscoveryConfig> for ServiceDiscoveryConfigBuilder {
    open spec fn obeys_from_spec() -> bool {
        true
    }

    closed spec fn from_spec(config: ServiceDiscoveryConfig) -> ServiceDiscoveryConfigBuilder {
        ServiceDiscoveryConfigBuilder(config)
    }
}

} // verus!
