//! The boundary with the discovery engine: its types, and the calls into it.
//! Nothing here is proved; each contract is a claim about the engine.

use crate::advertiser::ServiceIdentity;
use crate::discovery::DiscoveryEvent;
use vstd::prelude::*;

verus! {

/// `mdns_sd::ServiceEvent`, the engine's event type. Nothing is known of
/// what a value holds.
#[verifier::external_type_specification]
#[verifier::external_body]
pub struct ExServiceEvent(mdns_sd::ServiceEvent);

/// `mdns_sd::ServiceInfo`, the engine's advertisement record. Nothing is
/// known of what a value holds.
#[verifier::external_type_specification]
#[verifier::external_body]
pub struct ExServiceInfo(mdns_sd::ServiceInfo);

/// `mdns_sd::Error`, the engine's error type. Nothing is known of what a
/// value holds.
#[verifier::external_type_specification]
#[verifier::external_body]
pub struct ExEngineError(mdns_sd::Error);

/// `local_ip_address::Error`, the address resolver's error type. Nothing is
/// known of what a value holds.
#[verifier::external_type_specification]
#[verifier::external_body]
pub struct ExAddressError(local_ip_address::Error);

/// What the loop reads out of an `mdns_sd::ServiceEvent`. The reading
/// depends on the event alone; nothing is claimed here of which event gives
/// which reading.
pub uninterp spec fn observed_of(event: mdns_sd::ServiceEvent) -> DiscoveryEvent;

/// Reads an `mdns_sd::ServiceEvent`. A `ServiceResolved` gives a resolution
/// with what `ResolvedService::get_fullname`, `get_hostname` and `get_port`
/// return; a `ServiceRemoved` gives a removal of its full name (its second
/// field); every other variant gives `Other`. The contract claims only that
/// the reading is a function of the event.
#[verifier::external_body]
pub(crate) fn read_service_event(event: mdns_sd::ServiceEvent) -> (observed: DiscoveryEvent)
    ensures
        observed == observed_of(event),
{
    match event {
        mdns_sd::ServiceEvent::ServiceResolved(info) => DiscoveryEvent::Resolved {
            name: info.get_fullname().to_string(),
            host: info.get_hostname().to_string(),
            port: info.get_port(),
        },
        mdns_sd::ServiceEvent::ServiceRemoved(_, name) => DiscoveryEvent::Removed { name },
        _ => DiscoveryEvent::Other,
    }
}

/// Whether `mdns_sd::ServiceInfo::new` accepts an advertisement made of
/// these labels, host identifier, address and port, with no properties. The
/// engine parses the address as a list of IP addresses; nothing is claimed
/// here of which texts it takes.
pub uninterp spec fn engine_accepts(
    domain: Seq<char>,
    instance: Seq<char>,
    host: Seq<char>,
    address: Seq<char>,
    port: u16,
) -> bool;

/// Calls `mdns_sd::ServiceInfo::new` with the identity's domain label,
/// instance label, host identifier, address and port, and no properties.
/// The contract claims that the call's success is a function of these five
/// values alone, and nothing of the record that comes back.
#[verifier::external_body]
pub(crate) fn build_service_info(identity: &ServiceIdentity) -> (built: Result<
    mdns_sd::ServiceInfo,
    mdns_sd::Error,
>)
    ensures
        built is Ok == engine_accepts(
            identity.domain@,
            identity.instance@,
            identity.host@,
            identity.address@,
            identity.port,
        ),
{
    mdns_sd::ServiceInfo::new(
        identity.domain.as_str(),
        identity.instance.as_str(),
        identity.host.as_str(),
        identity.address.clone(),
        identity.port,
        Vec::<mdns_sd::TxtProperty>::new(),
    )
}

} // verus!
