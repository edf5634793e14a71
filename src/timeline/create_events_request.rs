//! Events to add to the timeline.
pub mod event_entry;

use vstd::prelude::*;

verus! {

/// An event to add to the timeline.
#[derive(Clone, Debug, PartialEq)]
pub struct EventEntry {
    pub timestamp: Option<prost_types::Timestamp>,
    pub entry: Option<event_entry::Entry>,
}

} // verus!
