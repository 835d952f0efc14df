//! The local service's identity and the errors that end startup.

use crate::engine::{build_service_info, engine_accepts};
use crate::host::{host_identifier, host_identifier_of};
use vstd::prelude::*;
use vstd::string::*;

verus! {

/// The service type and domain under which every instance is advertised.
pub const DOMAIN_LABEL: &'static str = "_alacrite._tcp.local.";

/// The instance label of the local advertisement.
pub const INSTANCE_LABEL: &'static str = "Alacrite";

/// The local service's public identity. It does not change once built.
#[derive(Debug, PartialEq, Eq)]
pub struct ServiceIdentity {
    pub domain: String,
    pub instance: String,
    pub host: String,
    pub address: String,
    pub port: u16,
}

impl ServiceIdentity {
    /// The labels are the fixed ones and the host identifier is derived from
    /// the address.
    pub open spec fn wf(&self) -> bool {
        &&& self.domain@ == DOMAIN_LABEL@
        &&& self.instance@ == INSTANCE_LABEL@
        &&& self.host@ == host_identifier_of(self.address@)
    }

    /// The identity of the service that listens on `port` at `address`.
    pub fn new(address: &str, port: u16) -> (identity: ServiceIdentity)
        ensures
            identity.wf(),
            identity.address@ == address@,
            identity.port == port,
    {
        ServiceIdentity {
            domain: DOMAIN_LABEL.to_owned(),
            instance: INSTANCE_LABEL.to_owned(),
            host: host_identifier(address),
            address: address.to_owned(),
            port,
        }
    }
}

/// Why startup was abandoned. Each variant carries the collaborator's own
/// error.
#[derive(Debug)]
pub enum StartupError {
    /// The local address could not be determined.
    AddressResolution(local_ip_address::Error),
    /// The discovery engine could not be started.
    EngineInit(mdns_sd::Error),
    /// The engine rejected the local advertisement.
    Registration(mdns_sd::Error),
    /// The engine refused the subscription to discovery events.
    BrowseSubscription(mdns_sd::Error),
}

/// Turns the engine's answer to an advertisement into the startup result: an
/// accepted advertisement is handed on, a rejection is a registration error
/// that carries the engine's own.
pub fn registration_result(built: Result<mdns_sd::ServiceInfo, mdns_sd::Error>) -> (result: Result<
    mdns_sd::ServiceInfo,
    StartupError,
>)
    ensures
        match built {
            Ok(info) => result == Ok::<mdns_sd::ServiceInfo, StartupError>(info),
            Err(e) => result == Err::<mdns_sd::ServiceInfo, StartupError>(
                StartupError::Registration(e),
            ),
        },
{
    match built {
        Ok(info) => Ok(info),
        Err(e) => Err(StartupError::Registration(e)),
    }
}

/// Builds the engine's advertisement record for `identity`. It succeeds
/// exactly when the engine accepts the identity; a rejection is always a
/// registration error.
pub fn advertisement(identity: &ServiceIdentity) -> (result: Result<
    mdns_sd::ServiceInfo,
    StartupError,
>)
    ensures
        result is Ok == engine_accepts(
            identity.domain@,
            identity.instance@,
            identity.host@,
            identity.address@,
            identity.port,
        ),
        result matches Err(e) ==> e is Registration,
{
    registration_result(build_service_info(identity))
}

} // verus!
