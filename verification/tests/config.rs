use conjure_verification::config::raw;
use conjure_verification::config::{
    BasicCredentials, HostAndPort, HttpProxyConfig, HttpProxyConfigBuilder, MeshProxyConfig,
    MeshProxyConfigBuilder, ProxyConfig, SecurityConfig, SecurityConfigBuilder, ServiceConfig,
    ServiceConfigBuilder, ServiceDiscoveryConfig, ServiceDiscoveryConfigBuilder,
};
use conjure_verification::time::Duration;

fn raw_service(uris: Vec<url::Url>) -> raw::ServiceConfig {
    raw::ServiceConfig {
        security: None,
        uris,
        connect_timeout: None,
        read_timeout: None,
        write_timeout: None,
        max_num_retries: None,
        backoff_slot_size: None,
        proxy: None,
        keep_alive: None,
        experimental_assume_http2: None,
    }
}

fn raw_discovery(services: Vec<raw::NamedServiceConfig>) -> raw::ServiceDiscoveryConfig {
    raw::ServiceDiscoveryConfig {
        services,
        security: None,
        proxy: None,
        connect_timeout: None,
        read_timeout: None,
        write_timeout: None,
        backoff_slot_size: None,
        keep_alive: None,
        experimental_assume_http2: None,
    }
}

#[test]
fn service_defaults() {
    let c = ServiceConfig::builder().build();
    assert!(c.uris().is_empty());
    assert_eq!(c.security().ca_file(), None);
    assert!(matches!(c.proxy(), ProxyConfig::Direct));
    assert_eq!(c.connect_timeout().as_secs(), 30);
    assert_eq!(c.read_timeout().as_secs(), 600);
    assert_eq!(c.write_timeout().as_secs(), 600);
    assert_eq!(c.backoff_slot_size().as_nanos(), 250_000_000);
    assert_eq!(c.max_num_retries(), 3);
    assert!(c.keep_alive());
    assert!(!c.experimental_assume_http2());
}

#[test]
fn service_builder_sets_each_field() {
    let url = url::Url::parse("https://foo.example.com/api").unwrap();
    let mut b = ServiceConfig::builder();
    b.uris(vec![url.clone()])
        .max_num_retries(7)
        .connect_timeout(Duration::from_secs(1))
        .read_timeout(Duration::from_secs(2))
        .write_timeout(Duration::from_secs(3))
        .backoff_slot_size(Duration::from_millis(10))
        .keep_alive(false)
        .experimental_assume_http2(true);
    let c = b.build();
    assert_eq!(c.uris(), &[url][..]);
    assert_eq!(c.max_num_retries(), 7);
    assert_eq!(c.connect_timeout().as_secs(), 1);
    assert_eq!(c.read_timeout().as_secs(), 2);
    assert_eq!(c.write_timeout().as_secs(), 3);
    assert_eq!(c.backoff_slot_size().as_nanos(), 10_000_000);
    assert!(!c.keep_alive());
    assert!(c.experimental_assume_http2());
}

#[test]
fn proxy_builders() {
    let mut b = HttpProxyConfig::builder();
    b.host_and_port(HostAndPort::new("localhost", 8080))
        .credentials(Some(BasicCredentials::new("admin", "palantir")));
    let http = b.build();
    assert_eq!(http.host_and_port().host(), "localhost");
    assert_eq!(http.host_and_port().port(), 8080);
    let creds = http.credentials().unwrap();
    assert_eq!(creds.username(), "admin");
    assert_eq!(creds.password(), "palantir");

    let mut m = MeshProxyConfig::builder();
    m.host_and_port(HostAndPort::new("mesh", 1234));
    let mesh = m.build();
    assert_eq!(mesh.host_and_port().to_string(), "mesh:1234");

    let mut s = SecurityConfig::builder();
    s.ca_file(Some("/etc/ca.pem".to_string()));
    assert_eq!(s.build().ca_file(), Some("/etc/ca.pem"));
}

#[test]
fn raw_host_and_port_parses() {
    let h = raw::HostAndPort::parse("www.google.com:1234").unwrap();
    assert_eq!(h.host, "www.google.com");
    assert_eq!(h.port, 1234);
    assert!(raw::HostAndPort::parse("no-port").is_none());
    assert!(raw::HostAndPort::parse("host:notanumber").is_none());
    assert!(raw::HostAndPort::parse("host:70000").is_none());
    let first = raw::HostAndPort::parse("a:1:2");
    assert!(first.is_none());
    let round = HostAndPort::new("localhost", 80).to_string();
    let back = raw::HostAndPort::parse(&round).unwrap();
    assert_eq!((back.host.as_str(), back.port), ("localhost", 80));
}

#[test]
fn discovery_from_raw_merges_settings() {
    let url = url::Url::parse("https://svc.example.com").unwrap();
    let mut own = raw_service(vec![url.clone()]);
    own.read_timeout = Some(Duration::from_secs(5));
    own.max_num_retries = Some(9);
    own.proxy = Some(raw::ProxyConfig::Mesh {
        host_and_port: raw::HostAndPort { host: "mesh".to_string(), port: 99 },
    });
    let other = raw_service(vec![]);
    let mut file = raw_discovery(vec![
        raw::NamedServiceConfig { name: "a".to_string(), config: own },
        raw::NamedServiceConfig { name: "b".to_string(), config: other },
    ]);
    file.read_timeout = Some(Duration::from_secs(50));
    file.connect_timeout = Some(Duration::from_secs(7));
    file.security = Some(raw::SecurityConfig { ca_file: Some("ca.pem".to_string()) });
    file.keep_alive = Some(false);

    let config = ServiceDiscoveryConfig::from_raw(&file);
    let a = config.service("a").unwrap();
    assert_eq!(a.uris(), &[url][..]);
    assert_eq!(a.read_timeout().as_secs(), 5);
    assert_eq!(a.connect_timeout().as_secs(), 7);
    assert_eq!(a.write_timeout().as_secs(), 600);
    assert_eq!(a.max_num_retries(), 9);
    assert_eq!(a.security().ca_file(), Some("ca.pem"));
    assert!(!a.keep_alive());
    match a.proxy() {
        ProxyConfig::Mesh(m) => assert_eq!(m.host_and_port().to_string(), "mesh:99"),
        _ => panic!("expected a mesh proxy"),
    }
    let b = config.service("b").unwrap();
    assert_eq!(b.read_timeout().as_secs(), 50);
    assert_eq!(b.max_num_retries(), 3);
    assert!(matches!(b.proxy(), ProxyConfig::Direct));
    assert!(config.service("c").is_none());
}

#[test]
fn discovery_builder_replaces_service() {
    let mut b = ServiceDiscoveryConfig::builder();
    let mut first = ServiceConfig::builder();
    first.max_num_retries(1);
    let mut second = ServiceConfig::builder();
    second.max_num_retries(2);
    b.service("svc", first.build()).service("svc", second.build());
    let c = b.build();
    assert_eq!(c.service("svc").unwrap().max_num_retries(), 2);
}

#[test]
fn raw_proxy_with_credentials() {
    let raw_proxy = raw::ProxyConfig::Http {
        host_and_port: raw::HostAndPort { host: "proxy".to_string(), port: 3128 },
        credentials: Some(raw::BasicCredentials {
            username: "u".to_string(),
            password: "p".to_string(),
        }),
    };
    match ProxyConfig::from_raw(&raw_proxy) {
        ProxyConfig::Http(h) => {
            assert_eq!(h.host_and_port().to_string(), "proxy:3128");
            assert_eq!(h.credentials().unwrap().username(), "u");
        }
        _ => panic!("expected an HTTP proxy"),
    }
    assert!(matches!(ProxyConfig::from_raw(&raw::ProxyConfig::Direct), ProxyConfig::Direct));
}

#[test]
fn builders_from_settings_and_defaults() {
    let mut b = HttpProxyConfig::builder();
    b.host_and_port(HostAndPort::new("p", 1));
    let again = HttpProxyConfigBuilder::from(b.build()).build();
    assert_eq!(again.host_and_port().to_string(), "p:1");
    let mut m = MeshProxyConfig::builder();
    m.host_and_port(HostAndPort::new("m", 2));
    assert_eq!(MeshProxyConfigBuilder::from(m.build()).build().host_and_port().port(), 2);
    let mut s = SecurityConfigBuilder::default();
    s.ca_file(Some("x".to_string()));
    assert_eq!(SecurityConfigBuilder::from(s.build()).build().ca_file(), Some("x"));
    assert_eq!(SecurityConfig::default().ca_file(), None);
    let mut c = ServiceConfigBuilder::default();
    c.max_num_retries(1);
    assert_eq!(ServiceConfigBuilder::from(c.build()).build().max_num_retries(), 1);
    assert_eq!(ServiceConfig::default().max_num_retries(), 3);
    assert!(matches!(ProxyConfig::default(), ProxyConfig::Direct));
    let mut d = ServiceDiscoveryConfigBuilder::default();
    d.service("x", ServiceConfig::default());
    let d = ServiceDiscoveryConfigBuilder::from(d.build()).build();
    assert!(d.service("x").is_some());
    assert!(ServiceDiscoveryConfig::default().service("x").is_none());
}
