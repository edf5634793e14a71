use ftl::runtime::{
    call_request, complete_call, handle_call, CallError, CallResponse, CallResult, Config,
    DispatchTable, RunnerService,
};

fn echo(body: Vec<u8>) -> Result<Vec<u8>, CallError> {
    let request: serde_json::Value =
        serde_json::from_slice(&body).map_err(|e| CallError::Deserialization(e.to_string()))?;
    let name = request
        .get("name")
        .and_then(|n| n.as_str())
        .ok_or_else(|| CallError::Deserialization("missing name".to_string()))?;
    let mut response = serde_json::Map::new();
    response.insert("message".to_string(), serde_json::Value::String(format!("Hello, {}!", name)));
    Ok(serde_json::to_vec(&serde_json::Value::Object(response)).unwrap())
}

fn failing(_body: Vec<u8>) -> Result<Vec<u8>, CallError> {
    Err(CallError::RemoteVerb("boom".to_string()))
}

fn table() -> DispatchTable<fn(Vec<u8>) -> Result<Vec<u8>, CallError>> {
    let mut t: DispatchTable<fn(Vec<u8>) -> Result<Vec<u8>, CallError>> = DispatchTable::new();
    t.register("echo", "echo", echo);
    t.register("echo", "fail_verb", failing);
    t
}

#[test]
fn dispatch_routes_to_echo() {
    let t = table();
    let out = t.dispatch("echo", "echo", br#"{"name":"world"}"#.to_vec()).unwrap();
    assert_eq!(String::from_utf8(out).unwrap(), r#"{"message":"Hello, world!"}"#);
}

#[test]
fn unknown_verb_is_not_found_and_process_continues() {
    let t = table();
    let r = t.dispatch("nomod", "noverb", b"{}".to_vec());
    assert_eq!(r, Err(CallError::NotFound { module: "nomod".to_string(), verb: "noverb".to_string() }));
    let again = t.dispatch("echo", "echo", br#"{"name":"again"}"#.to_vec()).unwrap();
    assert_eq!(String::from_utf8(again).unwrap(), r#"{"message":"Hello, again!"}"#);
}

#[test]
fn malformed_body_is_a_deserialization_error() {
    let t = table();
    assert!(matches!(t.dispatch("echo", "echo", b"not json".to_vec()), Err(CallError::Deserialization(_))));
}

#[test]
fn route_picks_the_first_entry() {
    let mut t = table();
    t.register("echo", "echo", failing);
    assert_eq!(t.route("echo", "echo"), Ok(0));
    assert_eq!(t.route("echo", "fail_verb"), Ok(1));
}

#[test]
fn nested_call_receives_callee_body() {
    let t = table();
    let req = call_request("echo", "echo", br#"{"name":"nested"}"#.to_vec());
    let resp = handle_call(&t, req);
    let body = complete_call(resp).unwrap();
    let v: serde_json::Value = serde_json::from_slice(&body).unwrap();
    assert_eq!(v["message"], "Hello, nested!");
}

#[test]
fn nested_call_failure_is_a_remote_verb_error() {
    let t = table();
    let resp = handle_call(&t, call_request("echo", "failVerb", b"{}".to_vec()));
    assert_eq!(resp, CallResponse { response: Some(CallResult::Error("boom".to_string())) });
    assert_eq!(complete_call(resp), Err(CallError::RemoteVerb("boom".to_string())));
}

#[test]
fn call_to_unknown_verb_answers_with_an_error() {
    let t = table();
    let resp = handle_call(&t, call_request("nomod", "noverb", b"{}".to_vec()));
    assert_eq!(
        resp,
        CallResponse { response: Some(CallResult::Error("verb not found: nomod.noverb".to_string())) }
    );
}

#[test]
fn call_without_verb_answers_with_an_error() {
    let t = table();
    let resp = handle_call(&t, ftl::runtime::CallRequest { verb: None, body: vec![] });
    assert!(matches!(resp.response, Some(CallResult::Error(_))));
}

#[test]
fn empty_response_is_an_error() {
    assert_eq!(complete_call(CallResponse { response: None }), Err(CallError::MissingResponse));
}

#[test]
fn call_request_names_the_verb() {
    let r = call_request("time", "time", b"{}".to_vec());
    let v = r.verb.unwrap();
    assert_eq!(v.module, "time");
    assert_eq!(v.name, "time");
    assert_eq!(r.body, b"{}".to_vec());
}

#[test]
fn bind_url_prefixes_scheme() {
    let c = Config { bind: "localhost:1234".to_string() };
    assert_eq!(c.bind_url(), "http://localhost:1234");
}

#[test]
fn runner_ping_is_ready() {
    assert!(!RunnerService {}.ping().not_ready);
}

#[test]
fn deadline_error_has_a_message() {
    assert_eq!(CallError::DeadlineExceeded.message(), "deadline exceeded");
}
