use crate::types::Event;
use vstd::prelude::*;

verus! {

/// What the registry needs from its host: a place to deposit the
/// notifications of successful calls.
pub trait Config {
    /// The notifications deposited so far, oldest first.
    spec fn events(&self) -> Seq<Event>;

    /// Appends one notification.
    fn deposit_event(&mut self, event: Event)
        ensures
            final(self).events() == old(self).events().push(event),
    ;
}

/// A sink that keeps every notification in order.
pub struct EventLog {
    pub log: Vec<Event>,
}

impl EventLog {
    pub fn new() -> (r: EventLog)
        ensures
            r.events() == Seq::<Event>::empty(),
    {
        EventLog { log: Vec::new() }
    }

    /// The notification at position `i`, if there is one.
    pub fn event_at(&self, i: usize) -> (r: Option<Event>)
        ensures
            r == (if i < self.events().len() { Some(self.events()[i as int]) } else { None }),
    {
        if i < self.log.len() {
            Some(self.log[i])
        } else {
            None
        }
    }

    pub fn len(&self) -> (r: usize)
        ensures
            r == self.events().len(),
    {
        self.log.len()
    }
}

impl Config for EventLog {
    open spec fn events(&self) -> Seq<Event> {
        self.log@
    }

    fn deposit_event(&mut self, event: Event) {
        self.log.push(event);
    }
}

} // verus!
