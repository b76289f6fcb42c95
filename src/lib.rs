//! A registry of uniquely identified property records, each owned by one
//! account, with a global enumeration in mint order and a dense, compacting
//! enumeration per owner.

pub mod laws;
pub mod registry;
pub mod sink;
pub mod types;

pub use registry::{Registry, RegistryView};
pub use sink::{Config, EventLog};
pub use types::{AccountId, Error, Event, Property};
