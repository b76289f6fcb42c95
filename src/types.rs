use vstd::prelude::*;

verus! {

/// An account identity, already authenticated by the host.
pub type AccountId = u64;

/// The payload of a record: opaque bytes that the registry stores and hands back.
#[derive(Clone, Debug, PartialEq, Eq, Default)]
pub struct Property {
    pub id: u64,
    pub name: Vec<u8>,
    pub area: Vec<u8>,
    pub value: Vec<u8>,
}

impl Property {
    pub fn new(id: u64, name: Vec<u8>, area: Vec<u8>, value: Vec<u8>) -> (r: Property)
        ensures
            r.id == id,
            r.name@ == name@,
            r.area@ == area@,
            r.value@ == value@,
    {
        Property { id, name, area, value }
    }
}

/// Why a call of the registry failed.
#[derive(Clone, Copy, Debug, PartialEq, Eq, Structural)]
pub enum Error {
    /// A record with this id was minted before.
    AlreadyExists,
    /// No record with this id exists.
    NotFound,
    /// The caller does not own the record.
    Unauthorized,
    /// A count would pass `u64::MAX`.
    Overflow,
    /// A count would drop below zero.
    Underflow,
}

/// A notification that a successful call emits.
#[derive(Clone, Copy, Debug, PartialEq, Eq, Structural)]
pub enum Event {
    /// `Created(owner, id)`
    Created(AccountId, u64),
    /// `Transferred(from, to, id)`
    Transferred(AccountId, AccountId, u64),
}

} // verus!
