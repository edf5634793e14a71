use ftl::registration::{
    RegistrationAction, RegistrationEvent, RegistrationLoop, RunnerRegistration,
    REGISTRATION_INTERVAL_SECS,
};

fn runner() -> RegistrationLoop {
    RegistrationLoop::new(RunnerRegistration {
        key: "rnr-1".to_string(),
        endpoint: "http://127.0.0.1:1234".to_string(),
        labels: vec![("languages".to_string(), "rust".to_string())],
    })
}

#[test]
fn failures_are_retried_at_the_interval() {
    let n = 3;
    let mut l = runner();
    let mut attempts = 0;
    let mut waits = Vec::new();
    let mut action = l.step(RegistrationEvent::Started);
    for i in 0..n {
        assert!(matches!(action, RegistrationAction::Register(_)));
        attempts += 1;
        action = l.step(RegistrationEvent::Failed(format!("unavailable {}", i)));
        if let RegistrationAction::Wait(s) = action {
            waits.push(s);
        } else {
            panic!("expected a wait");
        }
        action = l.step(RegistrationEvent::Elapsed);
    }
    assert!(matches!(action, RegistrationAction::Register(_)));
    attempts += 1;
    assert_eq!(attempts, n + 1);
    assert_eq!(l.attempts, (n + 1) as u64);
    assert_eq!(l.consecutive_failures, n as u64);
    assert_eq!(waits, vec![REGISTRATION_INTERVAL_SECS; n]);
    assert_eq!(REGISTRATION_INTERVAL_SECS, 5);
}

#[test]
fn retry_carries_previous_error() {
    let mut l = runner();
    l.step(RegistrationEvent::Started);
    l.step(RegistrationEvent::Failed("refused".to_string()));
    match l.step(RegistrationEvent::Elapsed) {
        RegistrationAction::Register(r) => {
            assert_eq!(r.key, "rnr-1");
            assert_eq!(r.endpoint, "http://127.0.0.1:1234");
            assert_eq!(r.labels, vec![("languages".to_string(), "rust".to_string())]);
            assert_eq!(r.error, Some("refused".to_string()));
        }
        other => panic!("unexpected {:?}", other),
    }
}

#[test]
fn success_clears_failures() {
    let mut l = runner();
    l.step(RegistrationEvent::Started);
    l.step(RegistrationEvent::Failed("x".to_string()));
    l.step(RegistrationEvent::Elapsed);
    assert_eq!(l.step(RegistrationEvent::Registered), RegistrationAction::Wait(5));
    assert_eq!(l.consecutive_failures, 0);
    assert_eq!(l.last_error, None);
}
