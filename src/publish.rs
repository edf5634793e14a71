//! Publishing events to topics.
use vstd::prelude::*;
use crate::schema::TypeRef;

verus! {

/// An event to publish to a topic; the caller is a verb of the topic's module.
#[derive(Clone, Debug, PartialEq)]
pub struct PublishEventRequest {
    pub topic: Option<TypeRef>,
    pub body: Vec<u8>,
    pub key: String,
    pub caller: String,
}

#[derive(Clone, Copy, Debug, PartialEq)]
pub struct PublishEventResponse {}

} // verus!
