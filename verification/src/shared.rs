//! The registry as it is shared between the discovery loop and its readers:
//! every access goes through one lock, and the lock only ever holds a
//! well-formed registry.

use crate::discovery::{address_view, handle_event, outcome_of, DiscoveryEvent, Outcome};
use crate::engine::{observed_of, read_service_event};
use crate::registry::{distinct_names, PeerRecord, Registry};
use vstd::prelude::*;
use vstd::rwlock::{RwLock, RwLockPredicate};

verus! {

/// What the lock guarantees of the registry it holds.
pub struct RegistryInvariant;

impl RwLockPredicate<Registry> for RegistryInvariant {
    open spec fn inv(self, registry: Registry) -> bool {
        registry.wf()
    }
}

/// A registry behind a lock. Writers and readers on other threads may act
/// between any two calls, so a contract here speaks of what one call returns
/// and never of what the registry holds afterwards.
pub struct SharedRegistry {
    lock: RwLock<Registry, RegistryInvariant>,
}

impl SharedRegistry {
    /// A shared registry that holds no peer.
    pub fn new() -> (shared: SharedRegistry) {
        SharedRegistry { lock: RwLock::new(Registry::new(), Ghost(RegistryInvariant)) }
    }

    /// Records `host` for `name` under exclusive access.
    pub fn insert(&self, name: String, host: String) {
        let (mut registry, guard) = self.lock.acquire_write();
        registry.insert(name, host);
        guard.release_write(registry);
    }

    /// Forgets `name` under exclusive access.
    pub fn remove(&self, name: &str) {
        let (mut registry, guard) = self.lock.acquire_write();
        registry.remove(name);
        guard.release_write(registry);
    }

    /// A copy of what the lock holds when it is read. No name occurs twice
    /// in it.
    pub fn snapshot(&self) -> (records: Vec<PeerRecord>)
        ensures
            distinct_names(records@),
    {
        let guard = self.lock.acquire_read();
        let records = guard.borrow().snapshot();
        guard.release_read();
        records
    }

    /// Handles one event under exclusive access and says what was done.
    pub fn handle_event(&self, event: DiscoveryEvent, local_address: Option<&str>) -> (outcome:
        Outcome)
        ensures
            outcome@ == outcome_of(event, address_view(local_address)),
    {
        let (mut registry, guard) = self.lock.acquire_write();
        let outcome = handle_event(&mut registry, event, local_address);
        guard.release_write(registry);
        outcome
    }

    /// Handles one event as the engine delivers it, under exclusive access,
    /// and says what was done with what was read out of it.
    pub fn handle_service_event(
        &self,
        event: mdns_sd::ServiceEvent,
        local_address: Option<&str>,
    ) -> (outcome: Outcome)
        ensures
            outcome@ == outcome_of(observed_of(event), address_view(local_address)),
    {
        let observed = read_service_event(event);
        self.handle_event(observed, local_address)
    }
}

} // verus!
