use base64::engine::general_purpose::STANDARD_NO_PAD;
use base64::Engine;
use localsend::address::{
    pick_shared_addresses, EndpointAddress, SocketAddress, SocketAddressV4, SocketAddressV6,
    TransportAddress,
};
use localsend::provider::{ImportError, ImportStatus, LocalSendProvider, RelayChoice};
use localsend::receiver::LocalSendReceiver;
use localsend::ticket::TicketError;

fn v4(octets: [u8; 4], port: u16) -> SocketAddress {
    SocketAddress::V4(SocketAddressV4 { octets, port })
}

fn v6(segments: [u16; 8], port: u16, scope_id: u32) -> SocketAddress {
    SocketAddress::V6(SocketAddressV6 { segments, port, scope_id })
}

fn with_ends(first: u16, last: u16) -> [u16; 8] {
    [first, 0, 0, 0, 0, 0, 0, last]
}

fn iroh_address(ips: &[&str]) -> iroh::EndpointAddr {
    let addrs = ips.iter().map(|ip| iroh::TransportAddr::Ip(ip.parse().unwrap()));
    iroh::EndpointAddr::from_parts(endpoint_id(), addrs)
}

fn endpoint_id() -> iroh::EndpointId {
    iroh::SecretKey::from_bytes(&[7u8; 32]).public()
}

fn sample_address() -> EndpointAddress {
    EndpointAddress {
        id: endpoint_id(),
        addrs: vec![
            TransportAddress::Relay,
            TransportAddress::Other,
            TransportAddress::Ip(v4([127, 0, 0, 1], 4000)),
            TransportAddress::Ip(v4([192, 168, 1, 20], 4001)),
            TransportAddress::Ip(v4([172, 17, 0, 1], 4001)),
            TransportAddress::Ip(v4([100, 64, 3, 4], 4001)),
            TransportAddress::Ip(v4([10, 0, 0, 5], 4001)),
            TransportAddress::Ip(v6(with_ends(0, 1), 4002, 0)),
            TransportAddress::Ip(v6(with_ends(0xfe80, 9), 4002, 3)),
        ],
    }
}

#[test]
fn loopback_addresses() {
    assert!(v4([127, 0, 0, 1], 1).is_loopback());
    assert!(v4([127, 255, 0, 9], 1).is_loopback());
    assert!(!v4([128, 0, 0, 1], 1).is_loopback());
    assert!(v6(with_ends(0, 1), 1, 0).is_loopback());
    assert!(!v6(with_ends(0, 2), 1, 0).is_loopback());
    assert!(!v6(with_ends(1, 1), 1, 0).is_loopback());
}

#[test]
fn reachable_address_ranges() {
    assert!(v4([192, 168, 0, 1], 1).lan_reachable());
    assert!(v4([10, 1, 2, 3], 1).lan_reachable());
    assert!(v4([8, 8, 8, 8], 1).lan_reachable());
    assert!(v4([100, 63, 255, 255], 1).lan_reachable());
    assert!(!v4([100, 64, 0, 0], 1).lan_reachable());
    assert!(!v4([100, 127, 255, 255], 1).lan_reachable());
    assert!(v4([100, 128, 0, 0], 1).lan_reachable());
    assert!(v4([172, 15, 0, 1], 1).lan_reachable());
    assert!(!v4([172, 16, 0, 1], 1).lan_reachable());
    assert!(!v4([172, 31, 0, 1], 1).lan_reachable());
    assert!(v4([172, 32, 0, 1], 1).lan_reachable());
    assert!(v4([173, 20, 0, 1], 1).lan_reachable());
    assert!(!v4([127, 0, 0, 1], 1).lan_reachable());
    assert!(!v6(with_ends(0, 1), 1, 0).lan_reachable());
    assert!(v6(with_ends(0xfe80, 1), 1, 2).lan_reachable());
    assert!(v6(with_ends(0xfd00, 1), 1, 0).lan_reachable());
    assert!(v6(with_ends(0x2001, 1), 1, 0).lan_reachable());
}

#[test]
fn shared_addresses_keep_their_order() {
    let picked = pick_shared_addresses(&sample_address().addrs);
    assert_eq!(
        picked,
        vec![
            v4([192, 168, 1, 20], 4001),
            v4([10, 0, 0, 5], 4001),
            v6(with_ends(0xfe80, 9), 4002, 3),
        ]
    );
}

#[test]
fn ticket_text_is_hash_colon_base64_of_json() {
    let mut root = [0u8; 32];
    root[0] = 0xab;
    root[31] = 0x0f;
    let ticket = LocalSendProvider::new(false).create_ticket(&root, &sample_address()).unwrap();
    let (hash, addr) = ticket.split_once(':').unwrap();
    assert_eq!(hash, format!("ab{}0f", "00".repeat(30)));
    let json = String::from_utf8(STANDARD_NO_PAD.decode(addr).unwrap()).unwrap();
    assert_eq!(
        json,
        format!(
            "{{\"id\":\"{}\",\"addrs\":[{{\"Ip\":\"10.0.0.5:4001\"}},{{\"Ip\":\"192.168.1.20:4001\"}},{{\"Ip\":\"[fe80::9%3]:4002\"}}]}}",
            endpoint_id()
        )
    );
    assert!(!addr.contains('='));
}

#[test]
fn ticket_reads_back() {
    let mut root = [3u8; 32];
    root[5] = 0xfe;
    let ticket = LocalSendProvider::new(true).create_ticket(&root, &sample_address()).unwrap();
    let (hash, addr) = LocalSendReceiver::parse_ticket(&ticket).unwrap();
    assert_eq!(hash, root);
    assert_eq!(
        addr,
        iroh_address(&["10.0.0.5:4001", "192.168.1.20:4001", "[fe80::9%3]:4002"])
    );
}

#[test]
fn ticket_without_addresses_reads_back() {
    let empty = EndpointAddress { id: endpoint_id(), addrs: vec![] };
    let ticket = LocalSendProvider::new(false).create_ticket(&[9u8; 32], &empty).unwrap();
    assert_eq!(
        LocalSendReceiver::parse_ticket(&ticket).unwrap(),
        ([9u8; 32], iroh_address(&[]))
    );
}

#[test]
fn every_form_of_ipv6_address_reads_back() {
    let addrs = vec![
        TransportAddress::Ip(v6([0, 0, 0, 0, 0, 0xffff, 0x0a00, 1], 1, 0)),
        TransportAddress::Ip(v6([0xffff; 8], 65535, u32::MAX)),
        TransportAddress::Ip(v6([0; 8], 0, 0)),
        TransportAddress::Ip(v6([0x2001, 0xdb8, 0, 1, 0, 0, 0, 2], 443, 0)),
    ];
    let full = EndpointAddress { id: endpoint_id(), addrs };
    let ticket = LocalSendProvider::new(false).create_ticket(&[9u8; 32], &full).unwrap();
    assert_eq!(
        LocalSendReceiver::parse_ticket(&ticket).unwrap().1,
        iroh_address(&[
            "[::ffff:10.0.0.1]:1",
            "[ffff:ffff:ffff:ffff:ffff:ffff:ffff:ffff%4294967295]:65535",
            "[::]:0",
            "[2001:db8:0:1::2]:443",
        ])
    );
}

#[test]
fn repeated_addresses_are_read_once() {
    let ip = TransportAddress::Ip(v4([192, 168, 7, 7], 1));
    let full = EndpointAddress { id: endpoint_id(), addrs: vec![ip, ip] };
    let ticket = LocalSendProvider::new(false).create_ticket(&[9u8; 32], &full).unwrap();
    let (_, addr) = LocalSendReceiver::parse_ticket(&ticket).unwrap();
    assert_eq!(addr, iroh_address(&["192.168.7.7:1"]));
}

#[test]
fn addresses_of_any_kind_are_read() {
    let json = format!(
        "{{\"id\":\"{}\",\"addrs\":[{{\"Relay\":\"https://relay.example.org./\"}},{{\"Ip\":\"127.0.0.1:80\"}},{{\"Custom\":{{\"id\":7,\"data\":[1,2,255]}}}}]}}",
        endpoint_id()
    );
    let ticket = format!("{}:{}", "5a".repeat(32), STANDARD_NO_PAD.encode(json));
    let (hash, addr) = LocalSendReceiver::parse_ticket(&ticket).unwrap();
    assert_eq!(hash, [0x5a; 32]);
    let data: &[u8] = &[1, 2, 255];
    let expected = iroh_address(&["127.0.0.1:80"]).with_addrs(vec![
        iroh::TransportAddr::Relay("https://relay.example.org./".parse().unwrap()),
        iroh::TransportAddr::Custom((7u64, data).into()),
    ]);
    assert_eq!(addr, expected);
}

#[test]
fn base32_hash_is_read() {
    let json = format!("{{\"id\":\"{}\",\"addrs\":[]}}", endpoint_id());
    let ticket = format!("{}:{}", "a".repeat(52), STANDARD_NO_PAD.encode(json));
    assert_eq!(LocalSendReceiver::parse_ticket(&ticket).unwrap().0, [0u8; 32]);
}

#[test]
fn ticket_without_colon_has_no_format() {
    let error = LocalSendReceiver::parse_ticket("abc").unwrap_err();
    assert!(matches!(error, TicketError::Format));
    assert_eq!(error.message(), "invalid ticket format");
    assert!(LocalSendReceiver::split_ticket("").is_err());
    assert_eq!(LocalSendReceiver::split_ticket("a:b:c").unwrap(), ("a", "b:c"));
    assert_eq!(LocalSendReceiver::split_ticket(":").unwrap(), ("", ""));
}

#[test]
fn ticket_with_bad_hash() {
    let short = LocalSendReceiver::parse_ticket("abc:e30").unwrap_err();
    assert!(matches!(short, TicketError::Hash(_)));
    let upper = format!("{}:e30", "AB".repeat(32));
    let upper = LocalSendReceiver::parse_ticket(&upper).unwrap_err();
    assert!(matches!(upper, TicketError::Hash(_)));
    let expected = "AB".repeat(32).parse::<iroh_blobs::Hash>().unwrap_err().to_string();
    assert_eq!(upper.message(), expected);
}

#[test]
fn ticket_with_bad_base64() {
    let ticket = format!("{}:%%", "ab".repeat(32));
    let error = LocalSendReceiver::parse_ticket(&ticket).unwrap_err();
    assert!(matches!(error, TicketError::Base64(_)));
    assert_eq!(error.message(), STANDARD_NO_PAD.decode("%%").unwrap_err().to_string());
    let padded = format!("{}:e30=", "ab".repeat(32));
    let error = LocalSendReceiver::parse_ticket(&padded).unwrap_err();
    assert!(matches!(error, TicketError::Base64(_)));
}

#[test]
fn ticket_with_bad_address() {
    let ticket = format!("{}:{}", "ab".repeat(32), STANDARD_NO_PAD.encode("{}"));
    let error = LocalSendReceiver::parse_ticket(&ticket).unwrap_err();
    assert!(matches!(error, TicketError::Address(_)));
    let expected = serde_json::from_slice::<iroh::EndpointAddr>(b"{}").unwrap_err().to_string();
    assert_eq!(error.message(), expected);
}

#[test]
fn import_reports_hash_and_size() {
    let provider = LocalSendProvider::new(true);
    assert_eq!(provider.relay, RelayChoice::Public);
    assert_eq!(LocalSendProvider::new(false).relay, RelayChoice::Disabled);
    let mut hash = [0u8; 32];
    hash[0] = 0x1f;
    hash[31] = 0xe0;
    let hex = format!("1f{}e0", "00".repeat(30));
    assert_eq!(provider.import_file(&hash, ImportStatus::Complete(77)), Ok((hex.clone(), 77)));
    assert_eq!(provider.import_bytes(&hash, 5), (hex, 5));
}

#[test]
fn import_that_is_not_complete() {
    let provider = LocalSendProvider::new(true);
    let error = provider
        .import_file(&[0u8; 32], ImportStatus::Other("Ok(NotFound)".to_string()))
        .unwrap_err();
    assert_eq!(error, ImportError::Incomplete("Ok(NotFound)".to_string()));
    assert_eq!(error.message(), "blob not complete after import: Ok(NotFound)");
}

#[test]
fn receivers_have_directories_of_their_own() {
    let one = LocalSendReceiver::new(false);
    let two = LocalSendReceiver::new(true);
    assert_eq!(one.relay, RelayChoice::Disabled);
    assert_eq!(two.relay, RelayChoice::Public);
    assert_ne!(one.dir_name, two.dir_name);
    let session = one.dir_name.strip_prefix(".localsend-recv-").unwrap();
    assert_eq!(session.len(), 36);
    assert_eq!(session.as_bytes()[14], b'4');
    assert_eq!(session.matches('-').count(), 4);
    assert_eq!(localsend::receiver::session_dir_name("x"), ".localsend-recv-x");
}

#[test]
fn different_hashes_have_different_texts() {
    let provider = LocalSendProvider::new(false);
    let mut other = [0x10u8; 32];
    other[31] = 0x01;
    let (one, _) = provider.import_bytes(&[0x10; 32], 0);
    let (two, _) = provider.import_bytes(&other, 0);
    assert_ne!(one, two);
    assert_eq!(one, "10".repeat(32));
    assert_eq!(two, format!("{}01", "10".repeat(31)));
}

#[test]
fn ticket_is_the_same_each_time() {
    let provider = LocalSendProvider::new(false);
    let mut later = sample_address();
    later.addrs.remove(0);
    later.addrs.push(TransportAddress::Ip(v4([127, 0, 0, 1], 9)));
    let first = provider.create_ticket(&[3u8; 32], &sample_address()).unwrap();
    assert_eq!(first, provider.create_ticket(&[3u8; 32], &sample_address()).unwrap());
    assert_eq!(first, provider.create_ticket(&[3u8; 32], &later).unwrap());
    assert_ne!(first, provider.create_ticket(&[4u8; 32], &sample_address()).unwrap());
}
