use localsend::peer_resolver::{
    BurstStep, IrohMulticastMessage, ListenEvent, ListenStep, PeerResolver,
    DEFAULT_MULTICAST_GROUP, DEFAULT_MULTICAST_PORT,
};
use std::time::Duration;

fn message(alias: &str, fingerprint: &str, ticket: Option<&str>) -> IrohMulticastMessage {
    IrohMulticastMessage {
        alias: alias.to_string(),
        fingerprint: fingerprint.to_string(),
        version: "2.1".to_string(),
        device_model: None,
        device_type: None,
        port: 53317,
        protocol: None,
        announce: true,
        iroh_ticket: ticket.map(|t| t.to_string()),
    }
}

#[test]
fn test_parse_message_filters_own_fingerprint() {
    let msg = IrohMulticastMessage {
        alias: "Me".to_string(),
        fingerprint: "myfp".to_string(),
        version: "2.1".to_string(),
        device_model: None,
        device_type: None,
        port: 53317,
        protocol: None,
        announce: true,
        iroh_ticket: Some("ticket123".to_string()),
    };
    let src = "192.168.1.1".to_string();

    assert!(PeerResolver::parse_message(Some(msg.clone()), src.clone(), "myfp").is_none());
    assert!(PeerResolver::parse_message(Some(msg), src, "otherfp").is_some());
}

#[test]
fn test_parse_message_requires_ticket() {
    let msg = IrohMulticastMessage {
        alias: "Other".to_string(),
        fingerprint: "otherfp".to_string(),
        version: "2.1".to_string(),
        device_model: None,
        device_type: None,
        port: 53317,
        protocol: None,
        announce: true,
        iroh_ticket: None,
    };
    let src = "192.168.1.2".to_string();

    assert!(PeerResolver::parse_message(Some(msg), src, "myfp").is_none());
}

#[test]
fn undecodable_datagrams_announce_nobody() {
    assert!(PeerResolver::parse_message(None, "192.168.1.2".to_string(), "myfp").is_none());
}

#[test]
fn discovered_peer_carries_the_message() {
    let mut msg = message("Phone", "fp1", Some("t1"));
    msg.device_model = Some("Model".to_string());
    msg.device_type = Some("mobile".to_string());
    let peer =
        PeerResolver::parse_message(Some(msg), "192.168.1.9".to_string(), "myfp").unwrap();
    assert_eq!(peer.alias, "Phone");
    assert_eq!(peer.fingerprint, "fp1");
    assert_eq!(peer.version, "2.1");
    assert_eq!(peer.device_model, Some("Model".to_string()));
    assert_eq!(peer.device_type, Some("mobile".to_string()));
    assert_eq!(peer.iroh_ticket, "t1");
    assert_eq!(peer.source_ip, "192.168.1.9");
}

#[test]
fn default_multicast_address() {
    let resolver = PeerResolver::new();
    assert_eq!(resolver.group, [224, 0, 0, 167]);
    assert_eq!(resolver.port, 53317);
    assert_eq!(resolver.group, DEFAULT_MULTICAST_GROUP);
    assert_eq!(resolver.port, DEFAULT_MULTICAST_PORT);
    let custom = PeerResolver::with_addr([239, 1, 2, 3], 9);
    assert_eq!((custom.group, custom.port), ([239, 1, 2, 3], 9));
}

#[test]
fn burst_waits_between_announcements_only() {
    let ms = Duration::from_millis;
    let mut burst = PeerResolver::new().announce_burst(vec![ms(100), ms(500), ms(2000)]);
    assert_eq!(burst.next_step(false), BurstStep::Announce(Some(ms(100))));
    assert_eq!(burst.next_step(false), BurstStep::Announce(Some(ms(500))));
    assert_eq!(burst.next_step(false), BurstStep::Announce(None));
    assert_eq!(burst.next_step(false), BurstStep::Finished);
    let mut none = PeerResolver::new().announce_burst(Vec::<Duration>::new());
    assert_eq!(none.next_step(false), BurstStep::Finished);
}

#[test]
fn cancelled_burst_stops() {
    let mut burst = PeerResolver::new().announce_burst(vec![1u64, 2, 3]);
    assert_eq!(burst.next_step(false), BurstStep::Announce(Some(1)));
    assert_eq!(burst.next_step(true), BurstStep::Finished);
}

#[test]
fn listening_collects_foreign_tickets_in_order() {
    let mut session = PeerResolver::new().listen("myfp");
    let datagrams = vec![
        Some(message("B", "fp2", Some("t2"))),
        Some(message("Me", "myfp", Some("t0"))),
        None,
        Some(message("C", "fp3", None)),
        Some(message("A", "fp1", Some("t1"))),
        Some(message("B", "fp2", Some("t2"))),
    ];
    for message in datagrams {
        let event = ListenEvent::Datagram { message, source_ip: "10.0.0.1".to_string() };
        assert_eq!(session.on_event(event), ListenStep::Receive);
    }
    assert_eq!(session.on_event(ListenEvent::Failed), ListenStep::Receive);
    assert_eq!(session.on_event(ListenEvent::Cancelled), ListenStep::Stop);
    let tickets: Vec<&str> = session.peers.iter().map(|p| p.iroh_ticket.as_str()).collect();
    assert_eq!(tickets, vec!["t2", "t1", "t2"]);
}
