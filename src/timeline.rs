//! Timeline events and queries.
pub mod create_events_request;
pub mod event;
pub mod get_timeline_request;

use vstd::prelude::*;
use std::collections::HashMap;

use crate::schema::TypeRef;
use crate::text::str_eq;

verus! {

#[verifier::external_type_specification]
#[verifier::external_body]
pub struct ExTimestamp(prost_types::Timestamp);

#[verifier::external_type_specification]
#[verifier::external_body]
pub struct ExDuration(prost_types::Duration);

#[verifier::external_type_specification]
#[verifier::external_body]
pub struct ExStruct(prost_types::Struct);

/// A log line of a deployment.
#[derive(Clone, Debug, PartialEq)]
pub struct LogEvent {
    pub deployment_key: String,
    pub request_key: Option<String>,
    pub timestamp: Option<prost_types::Timestamp>,
    pub log_level: i32,
    pub attributes: HashMap<String, String>,
    pub message: String,
    pub error: Option<String>,
    pub stack: Option<String>,
}

/// A verb call.
#[derive(Clone, Debug, PartialEq)]
pub struct CallEvent {
    pub request_key: Option<String>,
    pub deployment_key: String,
    pub timestamp: Option<prost_types::Timestamp>,
    pub source_verb_ref: Option<TypeRef>,
    pub destination_verb_ref: Option<TypeRef>,
    pub duration: Option<prost_types::Duration>,
    pub request: String,
    pub response: String,
    pub error: Option<String>,
    pub stack: Option<String>,
}

/// A deployment was created.
#[derive(Clone, Debug, PartialEq)]
pub struct DeploymentCreatedEvent {
    pub key: String,
    pub language: String,
    pub module_name: String,
    pub min_replicas: i32,
    pub replaced: Option<String>,
}

/// A deployment was scaled.
#[derive(Clone, Debug, PartialEq)]
pub struct DeploymentUpdatedEvent {
    pub key: String,
    pub min_replicas: i32,
    pub prev_min_replicas: i32,
}

/// An HTTP request reached a verb.
#[derive(Clone, Debug, PartialEq)]
pub struct IngressEvent {
    pub deployment_key: String,
    pub request_key: Option<String>,
    pub verb_ref: Option<TypeRef>,
    pub method: String,
    pub path: String,
    pub status_code: i32,
    pub timestamp: Option<prost_types::Timestamp>,
    pub duration: Option<prost_types::Duration>,
    pub request: String,
    pub request_header: String,
    pub response: String,
    pub response_header: String,
    pub error: Option<String>,
}

/// A cron job was scheduled.
#[derive(Clone, Debug, PartialEq)]
pub struct CronScheduledEvent {
    pub deployment_key: String,
    pub verb_ref: Option<TypeRef>,
    pub timestamp: Option<prost_types::Timestamp>,
    pub duration: Option<prost_types::Duration>,
    pub scheduled_at: Option<prost_types::Timestamp>,
    pub schedule: String,
    pub error: Option<String>,
}

/// An asynchronous call ran.
#[derive(Clone, Debug, PartialEq)]
pub struct AsyncExecuteEvent {
    pub deployment_key: String,
    pub request_key: Option<String>,
    pub verb_ref: Option<TypeRef>,
    pub timestamp: Option<prost_types::Timestamp>,
    pub duration: Option<prost_types::Duration>,
    pub async_event_type: i32,
    pub error: Option<String>,
}

/// An event was published to a topic.
#[derive(Clone, Debug, PartialEq)]
pub struct PubSubPublishEvent {
    pub deployment_key: String,
    pub request_key: Option<String>,
    pub verb_ref: Option<TypeRef>,
    pub timestamp: Option<prost_types::Timestamp>,
    pub duration: Option<prost_types::Duration>,
    pub topic: String,
    pub request: String,
    pub error: Option<String>,
    pub partition: i32,
    pub offset: i64,
}

/// An event was consumed from a topic.
#[derive(Clone, Debug, PartialEq)]
pub struct PubSubConsumeEvent {
    pub deployment_key: String,
    pub request_key: Option<String>,
    pub dest_verb_module: Option<String>,
    pub dest_verb_name: Option<String>,
    pub timestamp: Option<prost_types::Timestamp>,
    pub duration: Option<prost_types::Duration>,
    pub topic: String,
    pub error: Option<String>,
    pub partition: i32,
    pub offset: i64,
}

/// One entry of the timeline, with its unique id.
#[derive(Clone, Debug, PartialEq)]
pub struct Event {
    pub timestamp: Option<prost_types::Timestamp>,
    pub id: i64,
    pub entry: Option<event::Entry>,
}

/// The kinds of timeline event.
#[derive(Clone, Copy, Debug, PartialEq, Eq, Hash)]
pub enum EventType {
    Unspecified,
    Log,
    Call,
    DeploymentCreated,
    DeploymentUpdated,
    Ingress,
    CronScheduled,
    AsyncExecute,
    PubsubPublish,
    PubsubConsume,
}

/// The name of each value in the protocol definition.
pub open spec fn event_type_name(v: EventType) -> Seq<char> {
    match v {
        EventType::Unspecified => "EVENT_TYPE_UNSPECIFIED"@,
        EventType::Log => "EVENT_TYPE_LOG"@,
        EventType::Call => "EVENT_TYPE_CALL"@,
        EventType::DeploymentCreated => "EVENT_TYPE_DEPLOYMENT_CREATED"@,
        EventType::DeploymentUpdated => "EVENT_TYPE_DEPLOYMENT_UPDATED"@,
        EventType::Ingress => "EVENT_TYPE_INGRESS"@,
        EventType::CronScheduled => "EVENT_TYPE_CRON_SCHEDULED"@,
        EventType::AsyncExecute => "EVENT_TYPE_ASYNC_EXECUTE"@,
        EventType::PubsubPublish => "EVENT_TYPE_PUBSUB_PUBLISH"@,
        EventType::PubsubConsume => "EVENT_TYPE_PUBSUB_CONSUME"@,
    }
}

impl EventType {
    /// The name of this value in the protocol definition.
    pub fn as_str_name(&self) -> (r: &'static str)
        ensures
            r@ == event_type_name(*self),
    {
        match self {
            EventType::Unspecified => "EVENT_TYPE_UNSPECIFIED",
            EventType::Log => "EVENT_TYPE_LOG",
            EventType::Call => "EVENT_TYPE_CALL",
            EventType::DeploymentCreated => "EVENT_TYPE_DEPLOYMENT_CREATED",
            EventType::DeploymentUpdated => "EVENT_TYPE_DEPLOYMENT_UPDATED",
            EventType::Ingress => "EVENT_TYPE_INGRESS",
            EventType::CronScheduled => "EVENT_TYPE_CRON_SCHEDULED",
            EventType::AsyncExecute => "EVENT_TYPE_ASYNC_EXECUTE",
            EventType::PubsubPublish => "EVENT_TYPE_PUBSUB_PUBLISH",
            EventType::PubsubConsume => "EVENT_TYPE_PUBSUB_CONSUME",
        }
    }

    /// The value with this name in the protocol definition.
    pub fn from_str_name(value: &str) -> (r: Option<Self>)
        ensures
            match r {
                Some(v) => event_type_name(v) == value@,
                None => forall|v: EventType| event_type_name(v) != value@,
            },
    {
        if str_eq(value, "EVENT_TYPE_UNSPECIFIED") {
            Some(EventType::Unspecified)
        } else if str_eq(value, "EVENT_TYPE_LOG") {
            Some(EventType::Log)
        } else if str_eq(value, "EVENT_TYPE_CALL") {
            Some(EventType::Call)
        } else if str_eq(value, "EVENT_TYPE_DEPLOYMENT_CREATED") {
            Some(EventType::DeploymentCreated)
        } else if str_eq(value, "EVENT_TYPE_DEPLOYMENT_UPDATED") {
            Some(EventType::DeploymentUpdated)
        } else if str_eq(value, "EVENT_TYPE_INGRESS") {
            Some(EventType::Ingress)
        } else if str_eq(value, "EVENT_TYPE_CRON_SCHEDULED") {
            Some(EventType::CronScheduled)
        } else if str_eq(value, "EVENT_TYPE_ASYNC_EXECUTE") {
            Some(EventType::AsyncExecute)
        } else if str_eq(value, "EVENT_TYPE_PUBSUB_PUBLISH") {
            Some(EventType::PubsubPublish)
        } else if str_eq(value, "EVENT_TYPE_PUBSUB_CONSUME") {
            Some(EventType::PubsubConsume)
        } else {
            None
        }
    }
}

/// What started an asynchronous call.
#[derive(Clone, Copy, Debug, PartialEq, Eq, Hash)]
pub enum AsyncExecuteEventType {
    Unspecified,
    Cron,
    Pubsub,
}

/// The name of each value in the protocol definition.
pub open spec fn async_execute_event_type_name(v: AsyncExecuteEventType) -> Seq<char> {
    match v {
        AsyncExecuteEventType::Unspecified => "ASYNC_EXECUTE_EVENT_TYPE_UNSPECIFIED"@,
        AsyncExecuteEventType::Cron => "ASYNC_EXECUTE_EVENT_TYPE_CRON"@,
        AsyncExecuteEventType::Pubsub => "ASYNC_EXECUTE_EVENT_TYPE_PUBSUB"@,
    }
}

impl AsyncExecuteEventType {
    /// The name of this value in the protocol definition.
    pub fn as_str_name(&self) -> (r: &'static str)
        ensures
            r@ == async_execute_event_type_name(*self),
    {
        match self {
            AsyncExecuteEventType::Unspecified => "ASYNC_EXECUTE_EVENT_TYPE_UNSPECIFIED",
            AsyncExecuteEventType::Cron => "ASYNC_EXECUTE_EVENT_TYPE_CRON",
            AsyncExecuteEventType::Pubsub => "ASYNC_EXECUTE_EVENT_TYPE_PUBSUB",
        }
    }

    /// The value with this name in the protocol definition.
    pub fn from_str_name(value: &str) -> (r: Option<Self>)
        ensures
            match r {
                Some(v) => async_execute_event_type_name(v) == value@,
                None => forall|v: AsyncExecuteEventType| async_execute_event_type_name(v) != value@,
            },
    {
        if str_eq(value, "ASYNC_EXECUTE_EVENT_TYPE_UNSPECIFIED") {
            Some(AsyncExecuteEventType::Unspecified)
        } else if str_eq(value, "ASYNC_EXECUTE_EVENT_TYPE_CRON") {
            Some(AsyncExecuteEventType::Cron)
        } else if str_eq(value, "ASYNC_EXECUTE_EVENT_TYPE_PUBSUB") {
            Some(AsyncExecuteEventType::Pubsub)
        } else {
            None
        }
    }
}

/// The severity of a log line.
#[derive(Clone, Copy, Debug, PartialEq, Eq, Hash)]
pub enum LogLevel {
    Unspecified,
    Trace,
    Debug,
    Info,
    Warn,
    Error,
}

/// The name of each value in the protocol definition.
pub open spec fn log_level_name(v: LogLevel) -> Seq<char> {
    match v {
        LogLevel::Unspecified => "LOG_LEVEL_UNSPECIFIED"@,
        LogLevel::Trace => "LOG_LEVEL_TRACE"@,
        LogLevel::Debug => "LOG_LEVEL_DEBUG"@,
        LogLevel::Info => "LOG_LEVEL_INFO"@,
        LogLevel::Warn => "LOG_LEVEL_WARN"@,
        LogLevel::Error => "LOG_LEVEL_ERROR"@,
    }
}

impl LogLevel {
    /// The name of this value in the protocol definition.
    pub fn as_str_name(&self) -> (r: &'static str)
        ensures
            r@ == log_level_name(*self),
    {
        match self {
            LogLevel::Unspecified => "LOG_LEVEL_UNSPECIFIED",
            LogLevel::Trace => "LOG_LEVEL_TRACE",
            LogLevel::Debug => "LOG_LEVEL_DEBUG",
            LogLevel::Info => "LOG_LEVEL_INFO",
            LogLevel::Warn => "LOG_LEVEL_WARN",
            LogLevel::Error => "LOG_LEVEL_ERROR",
        }
    }

    /// The value with this name in the protocol definition.
    pub fn from_str_name(value: &str) -> (r: Option<Self>)
        ensures
            match r {
                Some(v) => log_level_name(v) == value@,
                None => forall|v: LogLevel| log_level_name(v) != value@,
            },
    {
        if str_eq(value, "LOG_LEVEL_UNSPECIFIED") {
            Some(LogLevel::Unspecified)
        } else if str_eq(value, "LOG_LEVEL_TRACE") {
            Some(LogLevel::Trace)
        } else if str_eq(value, "LOG_LEVEL_DEBUG") {
            Some(LogLevel::Debug)
        } else if str_eq(value, "LOG_LEVEL_INFO") {
            Some(LogLevel::Info)
        } else if str_eq(value, "LOG_LEVEL_WARN") {
            Some(LogLevel::Warn)
        } else if str_eq(value, "LOG_LEVEL_ERROR") {
            Some(LogLevel::Error)
        } else {
            None
        }
    }
}

/// A query of the timeline; ordering is by id, which follows publication order.
#[derive(Clone, Debug, PartialEq)]
pub struct GetTimelineRequest {
    pub filters: Vec<get_timeline_request::Filter>,
    pub limit: i32,
    pub order: i32,
}

/// A page of the timeline, with the cursor of the next page.
#[derive(Clone, Debug, PartialEq)]
pub struct GetTimelineResponse {
    pub events: Vec<Event>,
    pub cursor: Option<i64>,
}

/// A subscription to the timeline.
#[derive(Clone, Debug, PartialEq)]
pub struct StreamTimelineRequest {
    pub update_interval: Option<prost_types::Duration>,
    pub query: Option<GetTimelineRequest>,
}

#[derive(Clone, Debug, PartialEq)]
pub struct StreamTimelineResponse {
    pub events: Vec<Event>,
}

#[derive(Clone, Debug, PartialEq)]
pub struct CreateEventsRequest {
    pub entries: Vec<create_events_request::EventEntry>,
}

#[derive(Clone, Copy, Debug, PartialEq)]
pub struct CreateEventsResponse {}

#[derive(Clone, Debug, PartialEq)]
pub struct DeleteOldEventsRequest {
    pub event_type: i32,
    pub age_seconds: i64,
}

#[derive(Clone, Debug, PartialEq)]
pub struct DeleteOldEventsResponse {
    pub deleted_count: i64,
}

/// The number of each value on the wire.
pub open spec fn event_type_number(v: EventType) -> i32 {
    match v {
        EventType::Unspecified => 0,
        EventType::Log => 1,
        EventType::Call => 2,
        EventType::DeploymentCreated => 3,
        EventType::DeploymentUpdated => 4,
        EventType::Ingress => 5,
        EventType::CronScheduled => 6,
        EventType::AsyncExecute => 7,
        EventType::PubsubPublish => 8,
        EventType::PubsubConsume => 9,
    }
}

impl EventType {
    /// The number of this value on the wire.
    pub fn to_i32(&self) -> (r: i32)
        ensures
            r == event_type_number(*self),
    {
        match self {
            EventType::Unspecified => 0,
            EventType::Log => 1,
            EventType::Call => 2,
            EventType::DeploymentCreated => 3,
            EventType::DeploymentUpdated => 4,
            EventType::Ingress => 5,
            EventType::CronScheduled => 6,
            EventType::AsyncExecute => 7,
            EventType::PubsubPublish => 8,
            EventType::PubsubConsume => 9,
        }
    }

    /// The value with this number on the wire.
    pub fn from_i32(value: i32) -> (r: Option<Self>)
        ensures
            match r {
                Some(v) => event_type_number(v) == value,
                None => forall|v: EventType| event_type_number(v) != value,
            },
    {
        match value {
            0 => Some(EventType::Unspecified),
            1 => Some(EventType::Log),
            2 => Some(EventType::Call),
            3 => Some(EventType::DeploymentCreated),
            4 => Some(EventType::DeploymentUpdated),
            5 => Some(EventType::Ingress),
            6 => Some(EventType::CronScheduled),
            7 => Some(EventType::AsyncExecute),
            8 => Some(EventType::PubsubPublish),
            9 => Some(EventType::PubsubConsume),
            _ => None,
        }
    }
}

/// The number of each value on the wire.
pub open spec fn async_execute_event_type_number(v: AsyncExecuteEventType) -> i32 {
    match v {
        AsyncExecuteEventType::Unspecified => 0,
        AsyncExecuteEventType::Cron => 1,
        AsyncExecuteEventType::Pubsub => 2,
    }
}

impl AsyncExecuteEventType {
    /// The number of this value on the wire.
    pub fn to_i32(&self) -> (r: i32)
        ensures
            r == async_execute_event_type_number(*self),
    {
        match self {
            AsyncExecuteEventType::Unspecified => 0,
            AsyncExecuteEventType::Cron => 1,
            AsyncExecuteEventType::Pubsub => 2,
        }
    }

    /// The value with this number on the wire.
    pub fn from_i32(value: i32) -> (r: Option<Self>)
        ensures
            match r {
                Some(v) => async_execute_event_type_number(v) == value,
                None => forall|v: AsyncExecuteEventType| async_execute_event_type_number(v) != value,
            },
    {
        match value {
            0 => Some(AsyncExecuteEventType::Unspecified),
            1 => Some(AsyncExecuteEventType::Cron),
            2 => Some(AsyncExecuteEventType::Pubsub),
            _ => None,
        }
    }
}

/// The number of each value on the wire.
pub open spec fn log_level_number(v: LogLevel) -> i32 {
    match v {
        LogLevel::Unspecified => 0,
        LogLevel::Trace => 1,
        LogLevel::Debug => 5,
        LogLevel::Info => 9,
        LogLevel::Warn => 13,
        LogLevel::Error => 17,
    }
}

impl LogLevel {
    /// The number of this value on the wire.
    pub fn to_i32(&self) -> (r: i32)
        ensures
            r == log_level_number(*self),
    {
        match self {
            LogLevel::Unspecified => 0,
            LogLevel::Trace => 1,
            LogLevel::Debug => 5,
            LogLevel::Info => 9,
            LogLevel::Warn => 13,
            LogLevel::Error => 17,
        }
    }

    /// The value with this number on the wire.
    pub fn from_i32(value: i32) -> (r: Option<Self>)
        ensures
            match r {
                Some(v) => log_level_number(v) == value,
                None => forall|v: LogLevel| log_level_number(v) != value,
            },
    {
        match value {
            0 => Some(LogLevel::Unspecified),
            1 => Some(LogLevel::Trace),
            5 => Some(LogLevel::Debug),
            9 => Some(LogLevel::Info),
            13 => Some(LogLevel::Warn),
            17 => Some(LogLevel::Error),
            _ => None,
        }
    }
}

} // verus!
