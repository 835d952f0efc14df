use alacrite::discovery::{handle_event, handle_service_event, DiscoveryEvent, Outcome};
use alacrite::registry::{PeerRecord, Registry};
use alacrite::shared::SharedRegistry;
use mdns_sd::{ServiceEvent, ServiceInfo};

const LOCAL: &str = "192.168.1.10";
const PEER1: &str = "Peer1._alacrite._tcp.local.";

fn text(s: &str) -> String {
    s.to_string()
}

fn resolved(name: &str, host: &str, port: u16) -> DiscoveryEvent {
    DiscoveryEvent::Resolved { name: text(name), host: text(host), port }
}

#[test]
fn own_advertisement_is_filtered() {
    let mut registry = Registry::new();
    let outcome = handle_event(
        &mut registry,
        resolved("Alacrite._alacrite._tcp.local.", "192.168.1.10.local.", 8080),
        Some(LOCAL),
    );
    assert_eq!(outcome, Outcome::OwnAdvertisement);
    assert!(!outcome.is_notice());
    assert!(registry.is_empty());
}

#[test]
fn own_advertisement_leaves_known_peers_alone() {
    let mut registry = Registry::new();
    registry.insert(text(PEER1), text("192.168.1.20.local."));
    let outcome = handle_event(&mut registry, resolved(PEER1, "192.168.1.10.local.", 1), Some(LOCAL));
    assert_eq!(outcome, Outcome::OwnAdvertisement);
    assert_eq!(
        registry.snapshot(),
        vec![PeerRecord { name: text(PEER1), host: text("192.168.1.20.local.") }]
    );
}

#[test]
fn resolved_peer_is_recorded() {
    let mut registry = Registry::new();
    let outcome = handle_event(&mut registry, resolved(PEER1, "192.168.1.20.local.", 8080), Some(LOCAL));
    assert_eq!(
        outcome,
        Outcome::PeerDiscovered { name: text(PEER1), host: text("192.168.1.20"), port: 8080 }
    );
    assert!(outcome.is_notice());
    assert_eq!(registry.get(PEER1), Some(text("192.168.1.20.local.")));
    assert_eq!(registry.len(), 1);
}

#[test]
fn recorded_host_is_the_identifier_as_reported() {
    let mut registry = Registry::new();
    let outcome = handle_event(&mut registry, resolved(PEER1, "box.local.extra", 9), Some(LOCAL));
    assert_eq!(outcome, Outcome::PeerDiscovered { name: text(PEER1), host: text("box"), port: 9 });
    assert_eq!(registry.get(PEER1), Some(text("box.local.extra")));
}

#[test]
fn second_resolution_overwrites_the_first() {
    let mut registry = Registry::new();
    handle_event(&mut registry, resolved(PEER1, "192.168.1.20.local.", 8080), Some(LOCAL));
    handle_event(&mut registry, resolved(PEER1, "192.168.1.21.local.", 8081), Some(LOCAL));
    assert_eq!(registry.len(), 1);
    assert_eq!(registry.get(PEER1), Some(text("192.168.1.21.local.")));
    handle_event(&mut registry, resolved(PEER1, "192.168.1.21.local.", 8081), Some(LOCAL));
    assert_eq!(
        registry.snapshot(),
        vec![PeerRecord { name: text(PEER1), host: text("192.168.1.21.local.") }]
    );
}

#[test]
fn removal_evicts_a_known_peer() {
    let mut registry = Registry::new();
    handle_event(&mut registry, resolved(PEER1, "192.168.1.20.local.", 8080), Some(LOCAL));
    handle_event(&mut registry, resolved("Peer2._alacrite._tcp.local.", "192.168.1.30.local.", 8080), Some(LOCAL));
    let outcome = handle_event(&mut registry, DiscoveryEvent::Removed { name: text(PEER1) }, Some(LOCAL));
    assert_eq!(outcome, Outcome::PeerRemoved { name: text(PEER1) });
    assert!(outcome.is_notice());
    assert!(!registry.contains(PEER1));
    assert_eq!(registry.get("Peer2._alacrite._tcp.local."), Some(text("192.168.1.30.local.")));
    assert_eq!(registry.len(), 1);
}

#[test]
fn removal_needs_no_local_address() {
    let mut registry = Registry::new();
    registry.insert(text(PEER1), text("192.168.1.20.local."));
    let event = DiscoveryEvent::Removed { name: text(PEER1) };
    assert!(!event.needs_local_address());
    let outcome = handle_event(&mut registry, event, None);
    assert_eq!(outcome, Outcome::PeerRemoved { name: text(PEER1) });
    assert!(registry.is_empty());
}

#[test]
fn removal_of_an_unknown_peer_is_reported_and_changes_nothing() {
    let mut registry = Registry::new();
    registry.insert(text(PEER1), text("192.168.1.20.local."));
    let outcome = handle_event(&mut registry, DiscoveryEvent::Removed { name: text("ghost") }, Some(LOCAL));
    assert_eq!(outcome, Outcome::PeerRemoved { name: text("ghost") });
    assert_eq!(registry.len(), 1);
}

#[test]
fn host_without_marker_is_discarded() {
    let mut registry = Registry::new();
    let outcome = handle_event(&mut registry, resolved(PEER1, "192.168.1.20", 8080), Some(LOCAL));
    assert_eq!(outcome, Outcome::Unusable);
    assert!(!outcome.is_notice());
    assert!(registry.is_empty());
    let outcome = handle_event(&mut registry, resolved(PEER1, "", 8080), Some(LOCAL));
    assert_eq!(outcome, Outcome::Unusable);
    assert!(registry.is_empty());
}

#[test]
fn resolution_without_local_address_is_reported_and_skipped() {
    let mut registry = Registry::new();
    let event = resolved(PEER1, "192.168.1.20.local.", 8080);
    assert!(event.needs_local_address());
    let outcome = handle_event(&mut registry, event, None);
    assert_eq!(outcome, Outcome::AddressUnavailable);
    assert!(outcome.is_notice());
    assert!(registry.is_empty());
}

#[test]
fn other_events_are_ignored() {
    let mut registry = Registry::new();
    registry.insert(text(PEER1), text("192.168.1.20.local."));
    assert!(!DiscoveryEvent::Other.needs_local_address());
    let outcome = handle_event(&mut registry, DiscoveryEvent::Other, Some(LOCAL));
    assert_eq!(outcome, Outcome::Ignored);
    assert!(!outcome.is_notice());
    assert_eq!(registry.get(PEER1), Some(text("192.168.1.20.local.")));
    assert_eq!(registry.len(), 1);
}

fn engine_resolution(instance: &str, host: &str, address: &str, port: u16) -> ServiceEvent {
    let info = ServiceInfo::new(
        "_alacrite._tcp.local.",
        instance,
        host,
        address,
        port,
        Vec::<mdns_sd::TxtProperty>::new(),
    )
    .unwrap();
    ServiceEvent::ServiceResolved(Box::new(info.as_resolved_service()))
}

#[test]
fn engine_resolution_of_a_peer_is_recorded() {
    let mut registry = Registry::new();
    let event = engine_resolution("Peer1", "192.168.1.20.local.", "192.168.1.20", 8080);
    let outcome = handle_service_event(&mut registry, event, Some(LOCAL));
    assert_eq!(
        outcome,
        Outcome::PeerDiscovered { name: text(PEER1), host: text("192.168.1.20"), port: 8080 }
    );
    assert_eq!(registry.get(PEER1), Some(text("192.168.1.20.local.")));
}

#[test]
fn engine_resolution_of_the_local_service_is_filtered() {
    let mut registry = Registry::new();
    let event = engine_resolution("Alacrite", "192.168.1.10.local.", "192.168.1.10", 8080);
    let outcome = handle_service_event(&mut registry, event, Some(LOCAL));
    assert_eq!(outcome, Outcome::OwnAdvertisement);
    assert!(registry.is_empty());
}

#[test]
fn engine_removal_evicts_by_full_name() {
    let mut registry = Registry::new();
    registry.insert(text(PEER1), text("192.168.1.20.local."));
    let event = ServiceEvent::ServiceRemoved(text("_alacrite._tcp.local."), text(PEER1));
    let outcome = handle_service_event(&mut registry, event, Some(LOCAL));
    assert_eq!(outcome, Outcome::PeerRemoved { name: text(PEER1) });
    assert!(registry.is_empty());
}

#[test]
fn engine_housekeeping_events_are_ignored() {
    let mut registry = Registry::new();
    registry.insert(text(PEER1), text("192.168.1.20.local."));
    let events = vec![
        ServiceEvent::SearchStarted(text("_alacrite._tcp.local.")),
        ServiceEvent::ServiceFound(text("_alacrite._tcp.local."), text(PEER1)),
        ServiceEvent::SearchStopped(text("_alacrite._tcp.local.")),
    ];
    for event in events {
        assert_eq!(handle_service_event(&mut registry, event, Some(LOCAL)), Outcome::Ignored);
    }
    assert_eq!(registry.get(PEER1), Some(text("192.168.1.20.local.")));
}

#[test]
fn shared_registry_follows_the_events() {
    let shared = SharedRegistry::new();
    let outcome = shared.handle_event(resolved(PEER1, "192.168.1.20.local.", 8080), Some(LOCAL));
    assert_eq!(
        outcome,
        Outcome::PeerDiscovered { name: text(PEER1), host: text("192.168.1.20"), port: 8080 }
    );
    assert_eq!(
        shared.handle_event(resolved("Self", "192.168.1.10.local.", 8080), Some(LOCAL)),
        Outcome::OwnAdvertisement
    );
    assert_eq!(
        shared.snapshot(),
        vec![PeerRecord { name: text(PEER1), host: text("192.168.1.20.local.") }]
    );
    let removal = ServiceEvent::ServiceRemoved(text("_alacrite._tcp.local."), text(PEER1));
    assert_eq!(
        shared.handle_service_event(removal, None),
        Outcome::PeerRemoved { name: text(PEER1) }
    );
    assert!(shared.snapshot().is_empty());
    let event = engine_resolution("Peer2", "192.168.1.30.local.", "192.168.1.30", 9000);
    shared.handle_service_event(event, Some(LOCAL));
    assert_eq!(
        shared.snapshot(),
        vec![PeerRecord { name: text("Peer2._alacrite._tcp.local."), host: text("192.168.1.30.local.") }]
    );
}
