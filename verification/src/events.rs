//! Debouncing of named events: an event that is being processed is not
//! started again until it has been reset.

use vstd::prelude::*;
use vstd::string::StringSliceAdditionalSpecFns;
use crate::byte_map::{copy_bytes, ByteMap};

verus! {

/// For each registered event, by the bytes of its name, whether it is being
/// processed.
#[derive(Debug)]
pub struct EventManager {
    events: ByteMap<bool>,
}

impl View for EventManager {
    type V = Map<Seq<u8>, bool>;

    closed spec fn view(&self) -> Map<Seq<u8>, bool> {
        self.events@
    }
}

impl EventManager {
    /// The manager without events.
    pub fn new() -> (manager: Self)
        ensures
            manager@ == Map::<Seq<u8>, bool>::empty(),
    {
        EventManager { events: ByteMap::new() }
    }

    /// Registers the event as being processed, unless it is registered.
    pub fn add(&mut self, event_name: &str)
        ensures
            final(self)@ == if old(self)@.contains_key(event_name.spec_bytes()) {
                old(self)@
            } else {
                old(self)@.insert(event_name.spec_bytes(), true)
            },
    {
        let name = event_name.as_bytes();
        if self.events.contains_key(name) {
            return ;
        }
        self.events.insert(copy_bytes(name), true);
    }

    /// Whether the event is being processed. An event that was not, a new one
    /// included, is being processed from now on.
    pub fn is_processing(&mut self, event_name: &str) -> (processing: bool)
        ensures
            processing == (old(self)@.contains_key(event_name.spec_bytes()) && old(self)@[event_name.spec_bytes()]),
            final(self)@ == old(self)@.insert(event_name.spec_bytes(), true),
    {
        let name = event_name.as_bytes();
        let processing = match self.events.get(name) {
            Some(flag) => *flag,
            None => false,
        };
        if !processing {
            self.events.insert(copy_bytes(name), true);
        }
        proof {
            assert(self@ =~= old(self)@.insert(event_name.spec_bytes(), true));
        }
        processing
    }

    /// Marks a registered event as no longer being processed, where
    /// `processed` says that its processing is over.
    pub fn reset(&mut self, event_name: &str, processed: bool)
        ensures
            final(self)@ == if processed && old(self)@.contains_key(event_name.spec_bytes()) {
                old(self)@.insert(event_name.spec_bytes(), false)
            } else {
                old(self)@
            },
    {
        let name = event_name.as_bytes();
        if processed && self.events.contains_key(name) {
            self.events.insert(copy_bytes(name), false);
        }
    }
}

} // verus!
