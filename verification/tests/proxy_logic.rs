use proxy_core::addr::SockAddrV4;
use proxy_core::conf::{TargetConnectionConfig, TcpConfig, DEFAULT_CONNECT_TIMEOUT_MS};
use proxy_core::dns_resolver::{ResolveError, SimpleCachingDnsResolver, JITTER_BOUND_MS};
use proxy_core::handshake_codec::HandshakeCodec;
use proxy_core::tcp_connector::{ConnectPlan, TcpConnector};
use proxy_core::tunnel::{connect_established, plan_http, plan_https, split_remote_addr};

fn sock(ip: [u8; 4], port: u16) -> SockAddrV4 {
    SockAddrV4 { ip, port }
}

#[test]
fn literal_host_bypasses_the_resolver() {
    let connector = TcpConnector::new(TargetConnectionConfig::default());
    match connector.to_socket_addr("192.168.31.8", 8080) {
        ConnectPlan::Direct(sa) => {
            assert_eq!(sa.ip, [192, 168, 31, 8]);
            assert_eq!(sa.port, 8080);
        },
        ConnectPlan::Resolve => panic!("a literal host must not reach the resolver"),
    }
    assert!(matches!(connector.to_socket_addr("www.baidu.com", 80), ConnectPlan::Resolve));
    assert!(matches!(connector.to_socket_addr("256.1.1.1", 80), ConnectPlan::Resolve));
    assert!(matches!(connector.to_socket_addr("01.2.3.4", 80), ConnectPlan::Resolve));
    assert!(matches!(connector.to_socket_addr("1.2.3", 80), ConnectPlan::Resolve));
    assert!(matches!(connector.to_socket_addr("1.2.3.4.5", 80), ConnectPlan::Resolve));
    assert!(matches!(connector.to_socket_addr("", 80), ConnectPlan::Resolve));
}

#[test]
fn choose_addr_picks_from_the_set() {
    let connector = TcpConnector::new(TargetConnectionConfig::default());
    assert!(connector.choose_addr(&Vec::new()).is_none());
    let single = vec![sock([10, 0, 0, 5], 22)];
    assert_eq!(connector.choose_addr(&single), Some(sock([10, 0, 0, 5], 22)));
    let many = vec![sock([10, 0, 0, 1], 80), sock([10, 0, 0, 2], 80), sock([10, 0, 0, 3], 80)];
    for _ in 0..32 {
        let picked = connector.choose_addr(&many).unwrap();
        assert!(many.contains(&picked));
    }
}

#[test]
fn connect_timeout_comes_from_the_config() {
    assert_eq!(TargetConnectionConfig::default().connect_timeout, DEFAULT_CONNECT_TIMEOUT_MS);
    let cfg = TargetConnectionConfig { dns_cache_ttl: Some(60_000), connect_timeout: 200 };
    assert_eq!(TcpConnector::new(cfg).connect_timeout_ms(), 200);
}

#[test]
fn cache_hit_within_ttl_serves_the_cached_set() {
    let mut resolver = SimpleCachingDnsResolver::new(60_000);
    assert!(resolver.try_find("example.com", 1_000).is_none());
    let set = vec![sock([93, 184, 216, 34], 0), sock([93, 184, 216, 35], 0)];
    let picked = resolver.resolve_with("example.com", set.clone(), 1_000).unwrap();
    assert!(set.contains(&picked));
    for _ in 0..16 {
        let again = resolver.try_find("example.com", 2_000).unwrap();
        assert!(set.contains(&again));
    }
    assert!(resolver.try_find("other.example", 2_000).is_none());
}

#[test]
fn cache_misses_once_expiry_and_jitter_have_passed() {
    let mut resolver = SimpleCachingDnsResolver::new(60_000);
    resolver.resolve_with("example.com", vec![sock([1, 2, 3, 4], 0)], 1_000).unwrap();
    let past = 1_000 + 60_000 + JITTER_BOUND_MS;
    assert!(resolver.try_find("example.com", past).is_none());
}

#[test]
fn empty_lookup_is_rejected_and_caches_nothing() {
    let mut resolver = SimpleCachingDnsResolver::new(60_000);
    assert_eq!(
        resolver.resolve_with("example.com", Vec::new(), 1_000),
        Err(ResolveError::AddrNotAvailable)
    );
    assert!(resolver.try_find("example.com", 1_001).is_none());
}

#[test]
fn a_new_resolution_overwrites_the_cached_set() {
    let mut resolver = SimpleCachingDnsResolver::new(60_000);
    resolver.resolve_with("example.com", vec![sock([1, 1, 1, 1], 0)], 1_000).unwrap();
    let fresh = vec![sock([2, 2, 2, 2], 0)];
    resolver.resolve_with("example.com", fresh.clone(), 5_000).unwrap();
    for _ in 0..8 {
        assert_eq!(resolver.try_find("example.com", 6_000), Some(sock([2, 2, 2, 2], 0)));
    }
}

#[test]
fn connect_plan_answers_the_client_and_sends_nothing_ahead() {
    let input = b"CONNECT example.com:443 HTTP/1.1\r\nHost: example.com:443\r\n\r\n";
    let mut buf = input.to_vec();
    buf.extend((1u8..=17).collect::<Vec<u8>>());
    let d = HandshakeCodec::new().decode(&mut buf).unwrap().unwrap();
    let relay_bytes = d.req_body_bytes.clone();
    let plan = plan_http(d);
    assert_eq!(plan.host, "example.com");
    assert_eq!(plan.port, 443);
    assert_eq!(plan.client_preamble, b"HTTP/1.1 200 Connection Established\r\n\r\n".to_vec());
    assert!(plan.target_preamble.is_empty());
    assert_eq!(relay_bytes, (1u8..=17).collect::<Vec<u8>>());
}

#[test]
fn get_plan_forwards_the_overread_bytes() {
    let mut buf = b"GET / HTTP/1.1\r\nHost: example.com\r\n\r\n".to_vec();
    let d = HandshakeCodec::new().decode(&mut buf).unwrap().unwrap();
    let plan = plan_http(d);
    assert_eq!(plan.host, "example.com");
    assert_eq!(plan.port, 80);
    assert!(plan.client_preamble.is_empty());
    assert!(plan.target_preamble.is_empty());
}

#[test]
fn https_plan_replays_the_record_on_port_443() {
    let raw = vec![0x16, 0x03, 0x01, 0x00, 0x01, 0x01];
    let plan = plan_https("www.example.org".to_string(), raw.clone());
    assert_eq!(plan.host, "www.example.org");
    assert_eq!(plan.port, 443);
    assert!(plan.client_preamble.is_empty());
    assert_eq!(plan.target_preamble, raw);
}

#[test]
fn established_response_is_the_exact_literal() {
    assert_eq!(connect_established(), b"HTTP/1.1 200 Connection Established\r\n\r\n".to_vec());
}

#[test]
fn static_mapping_splits_at_the_final_colon() {
    let cfg = TcpConfig { listen_port: 8082, remote_addr: "10.0.0.5:22".to_string() };
    assert_eq!(split_remote_addr(&cfg.remote_addr), Some(("10.0.0.5".to_string(), 22)));
    assert_eq!(split_remote_addr("host.example:2222"), Some(("host.example".to_string(), 2222)));
    assert_eq!(split_remote_addr("a:b:443"), Some(("a:b".to_string(), 443)));
    assert_eq!(split_remote_addr("no-port.example"), None);
    assert_eq!(split_remote_addr("host.example:"), None);
    assert_eq!(split_remote_addr("host.example:ssh"), None);
}
