use ftl::provisioner::provision_response::ProvisionResponseStatus;
use ftl::timeline::get_timeline_request::Order;
use ftl::timeline::{AsyncExecuteEventType, EventType, LogLevel};

#[test]
fn event_type_names_round_trip() {
    let all = [
        EventType::Unspecified,
        EventType::Log,
        EventType::Call,
        EventType::DeploymentCreated,
        EventType::DeploymentUpdated,
        EventType::Ingress,
        EventType::CronScheduled,
        EventType::AsyncExecute,
        EventType::PubsubPublish,
        EventType::PubsubConsume,
    ];
    for t in all {
        assert_eq!(EventType::from_str_name(t.as_str_name()), Some(t));
    }
    assert_eq!(EventType::Call.as_str_name(), "EVENT_TYPE_CALL");
    assert_eq!(EventType::from_str_name("EVENT_TYPE_NOPE"), None);
}

#[test]
fn async_execute_event_type_names() {
    assert_eq!(AsyncExecuteEventType::Cron.as_str_name(), "ASYNC_EXECUTE_EVENT_TYPE_CRON");
    assert_eq!(
        AsyncExecuteEventType::from_str_name("ASYNC_EXECUTE_EVENT_TYPE_PUBSUB"),
        Some(AsyncExecuteEventType::Pubsub)
    );
    assert_eq!(AsyncExecuteEventType::from_str_name(""), None);
}

#[test]
fn log_level_names() {
    for l in [LogLevel::Unspecified, LogLevel::Trace, LogLevel::Debug, LogLevel::Info, LogLevel::Warn, LogLevel::Error] {
        assert_eq!(LogLevel::from_str_name(l.as_str_name()), Some(l));
    }
    assert_eq!(LogLevel::Warn.as_str_name(), "LOG_LEVEL_WARN");
    assert_eq!(LogLevel::from_str_name("log_level_warn"), None);
}

#[test]
fn order_names() {
    assert_eq!(Order::Desc.as_str_name(), "ORDER_DESC");
    assert_eq!(Order::from_str_name("ORDER_ASC"), Some(Order::Asc));
    assert_eq!(Order::from_str_name("ORDER_"), None);
}

#[test]
fn provision_status_names() {
    assert_eq!(ProvisionResponseStatus::Submitted.as_str_name(), "SUBMITTED");
    assert_eq!(ProvisionResponseStatus::from_str_name("UNKNOWN"), Some(ProvisionResponseStatus::Unknown));
    assert_eq!(ProvisionResponseStatus::from_str_name("submitted"), None);
}

#[test]
fn enum_numbers_round_trip() {
    assert_eq!(LogLevel::Warn.to_i32(), 13);
    assert_eq!(LogLevel::from_i32(17), Some(LogLevel::Error));
    assert_eq!(LogLevel::from_i32(2), None);
    for l in [LogLevel::Unspecified, LogLevel::Trace, LogLevel::Debug, LogLevel::Info, LogLevel::Warn, LogLevel::Error] {
        assert_eq!(LogLevel::from_i32(l.to_i32()), Some(l));
    }
    assert_eq!(EventType::PubsubConsume.to_i32(), 9);
    assert_eq!(EventType::from_i32(10), None);
    assert_eq!(AsyncExecuteEventType::from_i32(2), Some(AsyncExecuteEventType::Pubsub));
    assert_eq!(Order::Desc.to_i32(), 2);
    assert_eq!(ProvisionResponseStatus::from_i32(1), Some(ProvisionResponseStatus::Submitted));
    assert_eq!(ProvisionResponseStatus::from_i32(-1), None);
}
