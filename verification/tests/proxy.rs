use rockslide::address::HostAddr;
use rockslide::container::{PublishedContainer, RuntimeConfig};
use rockslide::location::{ImageLocation, ManifestReference, Reference};
use rockslide::proxy::{
    default_hostname, forwarded_headers, hop_by_hop, ProxyDecision, ReverseProxy, RoutingTable,
};

fn addr(port: u16) -> HostAddr {
    HostAddr { ip: [127, 0, 0, 1], port }
}

fn published(repository: &str, image: &str, port: u16, hosts: Option<&[&str]>) -> PublishedContainer {
    PublishedContainer::new(
        addr(port),
        ManifestReference::new(
            ImageLocation::new(repository.to_string(), image.to_string()),
            Reference::Tag("prod".to_string()),
        ),
        match hosts {
            Some(hosts) => hosts.iter().fold(RuntimeConfig::without_hosts(), |config, host| {
                config.with_host(host.to_string(), "main".to_string())
            }),
            None => RuntimeConfig::default(),
        },
    )
}

#[test]
fn default_hostnames() {
    assert_eq!(
        default_hostname(&ImageLocation::new("lib".to_string(), "hello".to_string())),
        "hello.lib"
    );
}

#[test]
fn empty_table_routes_nothing() {
    assert_eq!(RoutingTable::new().lookup("hello.lib"), None);
    assert_eq!(RoutingTable::from_containers(&Vec::new()).lookup(""), None);
    assert_eq!(ReverseProxy::new().serve(Some("hello.lib")), ProxyDecision::BadGateway);
}

#[test]
fn table_from_containers() {
    let table = RoutingTable::from_containers(&vec![
        published("lib", "hello", 40001, None),
        published("lib", "shop", 40002, Some(&["shop.example.com", "www.shop.example.com"])),
        published("lib", "idle", 40003, Some(&[])),
    ]);
    assert_eq!(table.lookup("hello.lib"), Some(addr(40001)));
    assert_eq!(table.lookup("shop.example.com"), Some(addr(40002)));
    assert_eq!(table.lookup("www.shop.example.com"), Some(addr(40002)));
    // settings that name hostnames replace the default one
    assert_eq!(table.lookup("shop.lib"), None);
    assert_eq!(table.lookup("idle.lib"), None);
    assert_eq!(table.lookup("HELLO.LIB"), None);
    assert_eq!(table.lookup("hello.lib:80"), None);
    assert_eq!(table.lookup(""), None);
}

#[test]
fn later_container_gets_a_shared_hostname() {
    let table = RoutingTable::from_containers(&vec![
        published("lib", "one", 40001, Some(&["a.example.com", "b.example.com"])),
        published("lib", "two", 40002, Some(&["b.example.com"])),
    ]);
    assert_eq!(table.lookup("a.example.com"), Some(addr(40001)));
    assert_eq!(table.lookup("b.example.com"), Some(addr(40002)));
}

#[test]
fn update_replaces_the_table() {
    let mut proxy = ReverseProxy::new();
    proxy.update_containers(&vec![
        published("lib", "hello", 40001, None),
        published("lib", "shop", 40002, None),
    ]);
    assert_eq!(proxy.serve(Some("hello.lib")), ProxyDecision::Forward(addr(40001)));
    assert_eq!(proxy.serve(Some("shop.lib")), ProxyDecision::Forward(addr(40002)));
    proxy.update_containers(&vec![published("lib", "hello", 40009, None)]);
    assert_eq!(proxy.serve(Some("hello.lib")), ProxyDecision::Forward(addr(40009)));
    // the stale route is gone
    assert_eq!(proxy.serve(Some("shop.lib")), ProxyDecision::BadGateway);
    proxy.update_containers(&Vec::new());
    assert_eq!(proxy.serve(Some("hello.lib")), ProxyDecision::BadGateway);
}

#[test]
fn only_published_hosts_are_forwarded() {
    let containers = vec![
        published("lib", "hello", 40001, None),
        published("lib", "shop", 40002, Some(&["shop.example.com"])),
    ];
    let mut proxy = ReverseProxy::new();
    proxy.update_containers(&containers);
    for (host, expected) in [
        (Some("hello.lib"), ProxyDecision::Forward(addr(40001))),
        (Some("shop.example.com"), ProxyDecision::Forward(addr(40002))),
        (Some("shop.lib"), ProxyDecision::BadGateway),
        (Some("lib.hello"), ProxyDecision::BadGateway),
        (Some("example.com"), ProxyDecision::BadGateway),
        (Some(""), ProxyDecision::BadGateway),
        (None, ProxyDecision::BadGateway),
    ] {
        assert_eq!(proxy.serve(host), expected, "{:?}", host);
    }
}

#[test]
fn deployed_container_is_served() {
    let mut proxy = ReverseProxy::new();
    proxy.update_containers(&vec![published("lib", "hello", 43210, None)]);
    let host = default_hostname(&ImageLocation::new("lib".to_string(), "hello".to_string()));
    assert_eq!(
        proxy.serve(Some(&host)),
        ProxyDecision::Forward(HostAddr { ip: [127, 0, 0, 1], port: 43210 })
    );
}

#[test]
fn hop_by_hop_headers() {
    for name in ["Connection", "keep-alive", "Proxy-Authenticate", "PROXY-AUTHORIZATION", "TE",
        "Trailer", "Transfer-Encoding", "upgrade"] {
        assert!(hop_by_hop(name), "{}", name);
    }
    for name in ["Host", "Content-Length", "Content-Type", "Authorization", "X-Connection",
        "Connection ", "", "T", "Trailers", "Keep_Alive"] {
        assert!(!hop_by_hop(name), "{}", name);
    }
}

#[test]
fn forwarded_headers_keep_their_order() {
    let headers: Vec<(String, String)> = [
        ("Host", "hello.lib"),
        ("Connection", "keep-alive"),
        ("Accept", "*/*"),
        ("transfer-encoding", "chunked"),
        ("Accept", "text/html"),
        ("Upgrade", "websocket"),
        ("X-Last", "1"),
    ]
    .iter()
    .map(|(name, value)| (name.to_string(), value.to_string()))
    .collect();
    let expected: Vec<(String, String)> =
        [("Host", "hello.lib"), ("Accept", "*/*"), ("Accept", "text/html"), ("X-Last", "1")]
            .iter()
            .map(|(name, value)| (name.to_string(), value.to_string()))
            .collect();
    assert_eq!(forwarded_headers(&headers), expected);
    assert_eq!(forwarded_headers(&Vec::new()), Vec::new());
    assert_eq!(forwarded_headers(&expected), expected);
}
