//! The entries of a timeline event.
use vstd::prelude::*;
use crate::timeline::{
    AsyncExecuteEvent, CallEvent, CronScheduledEvent, DeploymentCreatedEvent, DeploymentUpdatedEvent,
    IngressEvent, LogEvent, PubSubConsumeEvent, PubSubPublishEvent,
};

verus! {

/// What a timeline event records.
#[derive(Clone, Debug, PartialEq)]
pub enum Entry {
    Log(LogEvent),
    Call(CallEvent),
    DeploymentCreated(DeploymentCreatedEvent),
    DeploymentUpdated(DeploymentUpdatedEvent),
    Ingress(IngressEvent),
    CronScheduled(CronScheduledEvent),
    AsyncExecute(AsyncExecuteEvent),
    PubsubPublish(PubSubPublishEvent),
    PubsubConsume(PubSubConsumeEvent),
}

} // verus!
