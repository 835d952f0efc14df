//! Local-segment peer discovery: the rules by which discovery events from a
//! service-discovery engine are classified and folded into a registry of
//! currently known peers.

pub mod advertiser;
pub mod discovery;
pub mod engine;
pub mod host;
pub mod registry;
pub mod shared;
