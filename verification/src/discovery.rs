//! The discovery loop's decisions: how one event changes the registry and
//! what is reported for it.

use crate::engine::{observed_of, read_service_event};
use crate::host::{
    has_marker, host_identifier_of, host_token, host_token_of, lemma_identifier_round_trip, same_text,
};
use crate::registry::Registry;
use vstd::prelude::*;
use vstd::string::*;

verus! {

/// An event of the discovery engine, as far as the loop reads it.
#[derive(Debug, PartialEq, Eq)]
pub enum DiscoveryEvent {
    /// A service instance was resolved.
    Resolved { name: String, host: String, port: u16 },
    /// A service instance went away.
    Removed { name: String },
    /// Any other event of the engine.
    Other,
}

impl DiscoveryEvent {
    /// Whether handling this event takes the local address.
    pub fn needs_local_address(&self) -> (needed: bool)
        ensures
            needed == (self is Resolved),
    {
        match self {
            DiscoveryEvent::Resolved { .. } => true,
            _ => false,
        }
    }
}

/// What the loop did with one event.
#[derive(Debug, PartialEq, Eq)]
pub enum Outcome {
    /// An event the loop does not act on.
    Ignored,
    /// A resolution of the local advertisement, discarded silently.
    OwnAdvertisement,
    /// A resolution whose host identifier holds no marker, discarded.
    Unusable,
    /// A resolution that could not be judged because the local address was
    /// not available; the registry is left alone.
    AddressUnavailable,
    /// A peer was recorded. `host` is the bare token of its host identifier.
    PeerDiscovered { name: String, host: String, port: u16 },
    /// A peer was evicted.
    PeerRemoved { name: String },
}

/// The mathematical value of an [`Outcome`].
pub enum OutcomeView {
    Ignored,
    OwnAdvertisement,
    Unusable,
    AddressUnavailable,
    PeerDiscovered { name: Seq<char>, host: Seq<char>, port: u16 },
    PeerRemoved { name: Seq<char> },
}

impl View for Outcome {
    type V = OutcomeView;

    open spec fn view(&self) -> OutcomeView {
        match *self {
            Outcome::Ignored => OutcomeView::Ignored,
            Outcome::OwnAdvertisement => OutcomeView::OwnAdvertisement,
            Outcome::Unusable => OutcomeView::Unusable,
            Outcome::AddressUnavailable => OutcomeView::AddressUnavailable,
            Outcome::PeerDiscovered { name, host, port } => OutcomeView::PeerDiscovered {
                name: name@,
                host: host@,
                port,
            },
            Outcome::PeerRemoved { name } => OutcomeView::PeerRemoved { name: name@ },
        }
    }
}

/// Whether an outcome is reported to the observer.
pub open spec fn is_reported(outcome: OutcomeView) -> bool {
    outcome is PeerDiscovered || outcome is PeerRemoved || outcome is AddressUnavailable
}

impl Outcome {
    /// Whether this outcome is reported to the observer. Own advertisements,
    /// unusable resolutions and ignored events pass in silence.
    pub fn is_notice(&self) -> (reported: bool)
        ensures
            reported == is_reported(self@),
    {
        match self {
            Outcome::PeerDiscovered { .. } => true,
            Outcome::PeerRemoved { .. } => true,
            Outcome::AddressUnavailable => true,
            _ => false,
        }
    }
}

/// The local address as a plain value.
pub open spec fn address_view(local_address: Option<&str>) -> Option<Seq<char>> {
    match local_address {
        Some(address) => Some(address@),
        None => None,
    }
}

/// What is done with `event` when the local address is `local`.
pub open spec fn outcome_of(event: DiscoveryEvent, local: Option<Seq<char>>) -> OutcomeView {
    match event {
        DiscoveryEvent::Resolved { name, host, port } => match local {
            None => OutcomeView::AddressUnavailable,
            Some(own) => match host_token_of(host@) {
                None => OutcomeView::Unusable,
                Some(token) => if token == own {
                    OutcomeView::OwnAdvertisement
                } else {
                    OutcomeView::PeerDiscovered { name: name@, host: token, port }
                },
            },
        },
        DiscoveryEvent::Removed { name } => OutcomeView::PeerRemoved { name: name@ },
        DiscoveryEvent::Other => OutcomeView::Ignored,
    }
}

/// The registry's contents after `event`, when they were `peers` before it
/// and the local address is `local`. A resolved peer is recorded under its
/// service name with its host identifier as reported; a removed one is
/// evicted; nothing else changes the contents.
pub open spec fn registry_after(
    peers: Map<Seq<char>, Seq<char>>,
    event: DiscoveryEvent,
    local: Option<Seq<char>>,
) -> Map<Seq<char>, Seq<char>> {
    match event {
        DiscoveryEvent::Resolved { name, host, port } => if outcome_of(event, local)
            is PeerDiscovered {
            peers.insert(name@, host@)
        } else {
            peers
        },
        DiscoveryEvent::Removed { name } => peers.remove(name@),
        DiscoveryEvent::Other => peers,
    }
}

/// Handles one event: classifies it, updates the registry and says what was
/// done.
pub fn handle_event(
    registry: &mut Registry,
    event: DiscoveryEvent,
    local_address: Option<&str>,
) -> (outcome: Outcome)
    requires
        old(registry).wf(),
    ensures
        final(registry).wf(),
        final(registry)@ == registry_after(old(registry)@, event, address_view(local_address)),
        outcome@ == outcome_of(event, address_view(local_address)),
{
    match event {
        DiscoveryEvent::Resolved { name, host, port } => {
            let own = match local_address {
                Some(address) => address,
                None => {
                    return Outcome::AddressUnavailable;
                },
            };
            let token = match host_token(host.as_str()) {
                Some(token) => token.to_owned(),
                None => {
                    return Outcome::Unusable;
                },
            };
            if same_text(token.as_str(), own) {
                return Outcome::OwnAdvertisement;
            }
            let recorded = name.clone();
            registry.insert(name, host);
            Outcome::PeerDiscovered { name: recorded, host: token, port }
        },
        DiscoveryEvent::Removed { name } => {
            registry.remove(name.as_str());
            Outcome::PeerRemoved { name }
        },
        DiscoveryEvent::Other => Outcome::Ignored,
    }
}

/// Handles one event as the engine delivers it: the registry and the
/// outcome are those of handling what is read out of the event.
pub fn handle_service_event(
    registry: &mut Registry,
    event: mdns_sd::ServiceEvent,
    local_address: Option<&str>,
) -> (outcome: Outcome)
    requires
        old(registry).wf(),
    ensures
        final(registry).wf(),
        final(registry)@ == registry_after(
            old(registry)@,
            observed_of(event),
            address_view(local_address),
        ),
        outcome@ == outcome_of(observed_of(event), address_view(local_address)),
{
    let observed = read_service_event(event);
    handle_event(registry, observed, local_address)
}

/// A resolution whose host token is the local address is the local
/// advertisement coming back: it leaves the registry as it was and nothing
/// is reported.
pub proof fn lemma_self_filtering(
    peers: Map<Seq<char>, Seq<char>>,
    event: DiscoveryEvent,
    local: Seq<char>,
)
    requires
        event matches DiscoveryEvent::Resolved { host, .. } && host_token_of(host@) == Some(local),
    ensures
        registry_after(peers, event, Some(local)) == peers,
        outcome_of(event, Some(local)) == OutcomeView::OwnAdvertisement,
        !is_reported(outcome_of(event, Some(local))),
{
}

/// The local advertisement is always filtered: a resolution whose host
/// identifier is the one built from the local address, where that address
/// holds no letter `l` (every numeric address is one), changes nothing.
pub proof fn lemma_own_advertisement_filtered(
    peers: Map<Seq<char>, Seq<char>>,
    event: DiscoveryEvent,
    local: Seq<char>,
)
    requires
        event matches DiscoveryEvent::Resolved { host, .. } && host@ == host_identifier_of(local),
        forall|i: int| 0 <= i < local.len() ==> local[i] != 'l',
    ensures
        registry_after(peers, event, Some(local)) == peers,
        outcome_of(event, Some(local)) == OutcomeView::OwnAdvertisement,
{
    lemma_identifier_round_trip(local);
}

/// A resolution whose host token differs from the local address records the
/// peer: afterwards its service name maps to its host identifier as
/// reported, every other name maps to what it did before, and the peer is
/// reported with its name, token and port.
pub proof fn lemma_peer_upsert(
    peers: Map<Seq<char>, Seq<char>>,
    event: DiscoveryEvent,
    local: Seq<char>,
)
    requires
        event matches DiscoveryEvent::Resolved { host, .. } && host_token_of(host@) is Some
            && host_token_of(host@) != Some(local),
    ensures
        event matches DiscoveryEvent::Resolved { name, host, port } && {
            let after = registry_after(peers, event, Some(local));
            &&& after.contains_key(name@)
            &&& after[name@] == host@
            &&& forall|other: Seq<char>|
                other != name@ ==> (after.contains_key(other) == peers.contains_key(other))
                    && (peers.contains_key(other) ==> after[other] == peers[other])
            &&& outcome_of(event, Some(local)) == (OutcomeView::PeerDiscovered {
                name: name@,
                host: host_token_of(host@)->Some_0,
                port,
            })
        },
{
}

/// Two resolutions of one service name in a row overwrite: the registry
/// ends as if only the second had arrived, so the name has one entry, with
/// the second host identifier, and no other name is touched.
pub proof fn lemma_re_resolution_overwrites(
    peers: Map<Seq<char>, Seq<char>>,
    first: DiscoveryEvent,
    second: DiscoveryEvent,
    local: Seq<char>,
)
    requires
        outcome_of(first, Some(local)) is PeerDiscovered,
        outcome_of(second, Some(local)) is PeerDiscovered,
        first->Resolved_name@ == second->Resolved_name@,
    ensures
        registry_after(registry_after(peers, first, Some(local)), second, Some(local))
            == registry_after(peers, second, Some(local)),
        registry_after(registry_after(peers, first, Some(local)), second, Some(local)).dom()
            == peers.dom().insert(second->Resolved_name@),
        registry_after(peers, second, Some(local)).dom() == registry_after(
            peers,
            first,
            Some(local),
        ).dom(),
{
    let name = second->Resolved_name@;
    let once = registry_after(peers, first, Some(local));
    let twice = registry_after(once, second, Some(local));
    let direct = registry_after(peers, second, Some(local));
    assert(twice =~= direct);
    assert(twice.dom() =~= peers.dom().insert(name));
    assert(direct.dom() =~= once.dom());
}

/// Handling the same resolution twice is the same as handling it once.
pub proof fn lemma_resolution_idempotent(
    peers: Map<Seq<char>, Seq<char>>,
    event: DiscoveryEvent,
    local: Option<Seq<char>>,
)
    requires
        event is Resolved,
    ensures
        registry_after(registry_after(peers, event, local), event, local) == registry_after(
            peers,
            event,
            local,
        ),
{
    let once = registry_after(peers, event, local);
    assert(registry_after(once, event, local) =~= once);
}

/// After a removal the removed name has no entry, whatever the local
/// address is, and every other name keeps what it had.
pub proof fn lemma_removal_evicts(
    peers: Map<Seq<char>, Seq<char>>,
    event: DiscoveryEvent,
    local: Option<Seq<char>>,
)
    requires
        event is Removed,
    ensures
        !registry_after(peers, event, local).contains_key(event->Removed_name@),
        forall|other: Seq<char>|
            other != event->Removed_name@ ==> (registry_after(peers, event, local).contains_key(
                other,
            ) == peers.contains_key(other)) && (peers.contains_key(other) ==> registry_after(
                peers,
                event,
                local,
            )[other] == peers[other]),
        outcome_of(event, local) == (OutcomeView::PeerRemoved { name: event->Removed_name@ }),
{
}

/// A resolution whose host identifier holds no marker leaves the registry as
/// it was and is not recorded as a peer.
pub proof fn lemma_malformed_host_discarded(
    peers: Map<Seq<char>, Seq<char>>,
    event: DiscoveryEvent,
    local: Option<Seq<char>>,
)
    requires
        event matches DiscoveryEvent::Resolved { host, .. } && !has_marker(host@),
    ensures
        registry_after(peers, event, local) == peers,
        local is Some ==> outcome_of(event, local) == OutcomeView::Unusable,
        !(outcome_of(event, local) is PeerDiscovered),
{
}

/// Only a recorded peer or a removal changes the registry: every other
/// outcome leaves it as it was.
pub proof fn lemma_other_outcomes_keep_registry(
    peers: Map<Seq<char>, Seq<char>>,
    event: DiscoveryEvent,
    local: Option<Seq<char>>,
)
    requires
        !(outcome_of(event, local) is PeerDiscovered),
        !(outcome_of(event, local) is PeerRemoved),
    ensures
        registry_after(peers, event, local) == peers,
{
}

} // verus!
