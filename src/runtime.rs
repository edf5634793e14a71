//! The verb dispatch runtime: routing a call to its handler, the call envelopes
//! exchanged between a calling context and a verb service, and the service's replies.
use vstd::prelude::*;

use crate::schema::TypeRef;
use crate::text::{snake_of, str_eq, to_snake_case};

verus! {

/// Why a call did not produce a response body.
#[derive(Debug, Clone, PartialEq, Eq)]
pub enum CallError {
    /// No handler is registered for this module and verb.
    NotFound { module: String, verb: String },
    /// A request or response body does not match the declared type.
    Deserialization(String),
    /// The called verb returned an application error.
    RemoteVerb(String),
    /// A call request named no verb.
    MissingVerb,
    /// A call response carried neither a body nor an error.
    MissingResponse,
    /// A call did not complete before its deadline.
    DeadlineExceeded,
}

/// The request half of a call envelope: the verb called and the serialized request.
#[derive(Debug, Clone, PartialEq, Eq)]
pub struct CallRequest {
    pub verb: Option<TypeRef>,
    pub body: Vec<u8>,
}

/// The outcome carried by a call response.
#[derive(Debug, Clone, PartialEq, Eq)]
pub enum CallResult {
    Body(Vec<u8>),
    Error(String),
}

/// The response half of a call envelope.
#[derive(Debug, Clone, PartialEq, Eq)]
pub struct CallResponse {
    pub response: Option<CallResult>,
}

/// The reply to a liveness probe.
#[derive(Debug, Clone, Copy, PartialEq, Eq)]
pub struct PingResponse {
    pub not_ready: bool,
}

/// One entry of a dispatch table: the module and verb it answers, and its handler.
pub struct DispatchEntry<H> {
    pub module: String,
    pub verb: String,
    pub handler: H,
}

/// The table that routes `(module, verb)` to a handler. A handler takes a serialized
/// request and returns a serialized response.
pub struct DispatchTable<H> {
    pub entries: Vec<DispatchEntry<H>>,
}

pub open spec fn entry_matches<H>(e: DispatchEntry<H>, module: Seq<char>, verb: Seq<char>) -> bool {
    e.module@ == module && e.verb@ == verb
}

pub open spec fn not_found(module: Seq<char>, verb: Seq<char>, e: CallError) -> bool {
    e matches CallError::NotFound { module: m, verb: v } && m@ == module && v@ == verb
}

impl<H> DispatchTable<H> {
    pub fn new() -> (r: Self)
        ensures
            r.entries@.len() == 0,
    {
        DispatchTable { entries: Vec::new() }
    }

    /// Adds a handler for a module and verb.
    pub fn register(&mut self, module: &str, verb: &str, handler: H)
        ensures
            final(self).entries@.len() == old(self).entries@.len() + 1,
            forall|i: int| 0 <= i < old(self).entries@.len() ==> final(self).entries@[i] == old(self).entries@[i],
            final(self).entries@.last().module@ == module@,
            final(self).entries@.last().verb@ == verb@,
            final(self).entries@.last().handler == handler,
    {
        self.entries.push(DispatchEntry { module: module.to_owned(), verb: verb.to_owned(), handler });
    }

    /// The index of the first entry for this module and verb, or a not-found error.
    pub fn route(&self, module: &str, verb: &str) -> (r: Result<usize, CallError>)
        ensures
            match r {
                Ok(i) => i < self.entries@.len() && entry_matches(self.entries@[i as int], module@, verb@)
                    && forall|j: int| 0 <= j < i ==> !entry_matches(#[trigger] self.entries@[j], module@, verb@),
                Err(e) => not_found(module@, verb@, e) && forall|j: int|
                    0 <= j < self.entries@.len() ==> !entry_matches(#[trigger] self.entries@[j], module@, verb@),
            },
    {
        let mut i: usize = 0;
        while i < self.entries.len()
            invariant
                i <= self.entries@.len(),
                forall|j: int| 0 <= j < i ==> !entry_matches(#[trigger] self.entries@[j], module@, verb@),
            decreases self.entries@.len() - i,
        {
            let e = &self.entries[i];
            if str_eq(e.module.as_str(), module) && str_eq(e.verb.as_str(), verb) {
                return Ok(i);
            }
            i = i + 1;
        }
        Err(CallError::NotFound { module: module.to_owned(), verb: verb.to_owned() })
    }
}

impl<H: Fn(Vec<u8>) -> Result<Vec<u8>, CallError>> DispatchTable<H> {
    /// Runs the handler of the first entry for this module and verb on the request
    /// body. An unknown pair is a not-found error returned to the caller.
    pub fn dispatch(&self, module: &str, verb: &str, body: Vec<u8>) -> (r: Result<Vec<u8>, CallError>)
        requires
            forall|i: int, b: Vec<u8>| 0 <= i < self.entries@.len() ==> #[trigger] self.entries@[i].handler.requires((b,)),
        ensures
            (exists|i: int| 0 <= i < self.entries@.len() && entry_matches(self.entries@[i], module@, verb@)) ==> exists|i: int|
                0 <= i < self.entries@.len() && entry_matches(self.entries@[i], module@, verb@)
                && (forall|j: int| 0 <= j < i ==> !entry_matches(#[trigger] self.entries@[j], module@, verb@))
                && self.entries@[i].handler.ensures((body,), r),
            (forall|i: int| 0 <= i < self.entries@.len() ==> !entry_matches(#[trigger] self.entries@[i], module@, verb@))
                ==> (r matches Err(e) && not_found(module@, verb@, e)),
    {
        match self.route(module, verb) {
            Ok(i) => {
                let ghost b = body;
                let r = (self.entries[i].handler)(body);
                assert(self.entries@[i as int].handler.ensures((b,), r));
                r
            },
            Err(e) => Err(e),
        }
    }
}

/// The request envelope for a call of `verb` in `module` with a serialized request.
pub fn call_request(module: &str, verb: &str, body: Vec<u8>) -> (r: CallRequest)
    ensures
        r.verb matches Some(v) && v.module@ == module@ && v.name@ == verb@,
        r.body@ == body@,
{
    CallRequest { verb: Some(TypeRef { module: module.to_owned(), name: verb.to_owned() }), body }
}

/// What a calling context makes of a call response: the callee's body when it
/// succeeded, and a remote verb error carrying the callee's error when it failed.
pub fn complete_call(response: CallResponse) -> (r: Result<Vec<u8>, CallError>)
    ensures
        match response.response {
            Some(CallResult::Body(b)) => r matches Ok(x) && x@ == b@,
            Some(CallResult::Error(e)) => r matches Err(CallError::RemoteVerb(m)) && m@ == e@,
            None => r matches Err(CallError::MissingResponse),
        },
{
    match response.response {
        Some(CallResult::Body(b)) => Ok(b),
        Some(CallResult::Error(e)) => Err(CallError::RemoteVerb(e)),
        None => Err(CallError::MissingResponse),
    }
}

/// The text that a call response carries for an error.
pub open spec fn message_of(e: CallError) -> Seq<char> {
    match e {
        CallError::NotFound { module, verb } => "verb not found: "@ + module@ + "."@ + verb@,
        CallError::Deserialization(m) => "invalid body: "@ + m@,
        CallError::RemoteVerb(m) => m@,
        CallError::MissingVerb => "call names no verb"@,
        CallError::MissingResponse => "call response is empty"@,
        CallError::DeadlineExceeded => "deadline exceeded"@,
    }
}

impl CallError {
    /// The text of this error as a call response carries it.
    pub fn message(&self) -> (r: String)
        ensures
            r@ == message_of(*self),
    {
        match self {
            CallError::NotFound { module, verb } => {
                let mut s = "verb not found: ".to_owned();
                s.append(module.as_str());
                s.append(".");
                s.append(verb.as_str());
                s
            },
            CallError::Deserialization(m) => {
                let mut s = "invalid body: ".to_owned();
                s.append(m.as_str());
                s
            },
            CallError::RemoteVerb(m) => m.clone(),
            CallError::MissingVerb => "call names no verb".to_owned(),
            CallError::MissingResponse => "call response is empty".to_owned(),
            CallError::DeadlineExceeded => "deadline exceeded".to_owned(),
        }
    }
}

/// The verb name that a call reference resolves to: handlers are registered under the
/// snake case names of their functions.
pub open spec fn handler_name_of(name: Seq<char>) -> Seq<char> {
    snake_of(name)
}

/// The verb service's answer to a call: it routes the named verb, in snake case, to its
/// handler, and wraps the handler's body or error into a call response.
pub fn handle_call<H: Fn(Vec<u8>) -> Result<Vec<u8>, CallError>>(table: &DispatchTable<H>, request: CallRequest) -> (r: CallResponse)
    requires
        forall|i: int, b: Vec<u8>| 0 <= i < table.entries@.len() ==> #[trigger] table.entries@[i].handler.requires((b,)),
    ensures
        match request.verb {
            None => r.response matches Some(CallResult::Error(m)) && m@ == message_of(CallError::MissingVerb),
            Some(v) => {
                &&& (forall|i: int| 0 <= i < table.entries@.len() ==> !entry_matches(#[trigger] table.entries@[i], v.module@, handler_name_of(v.name@)))
                    ==> (r.response matches Some(CallResult::Error(m)) && m@ == "verb not found: "@ + v.module@ + "."@ + handler_name_of(v.name@))
                &&& (exists|i: int| 0 <= i < table.entries@.len() && entry_matches(table.entries@[i], v.module@, handler_name_of(v.name@)))
                    ==> exists|i: int, out: Result<Vec<u8>, CallError>|
                    0 <= i < table.entries@.len() && entry_matches(table.entries@[i], v.module@, handler_name_of(v.name@))
                    && #[trigger] table.entries@[i].handler.ensures((request.body,), out)
                    && match out {
                        Ok(b) => r.response matches Some(CallResult::Body(x)) && x@ == b@,
                        Err(e) => r.response matches Some(CallResult::Error(m)) && m@ == message_of(e),
                    }
            },
        },
{
    let v = match request.verb {
        Some(v) => v,
        None => return CallResponse { response: Some(CallResult::Error(CallError::MissingVerb.message())) },
    };
    let name = to_snake_case(v.name.as_str());
    let out = table.dispatch(v.module.as_str(), name.as_str(), request.body);
    match out {
        Ok(b) => CallResponse { response: Some(CallResult::Body(b)) },
        Err(e) => CallResponse { response: Some(CallResult::Error(e.message())) },
    }
}

/// A runner's control service.
#[derive(Debug)]
pub struct RunnerService {}

impl RunnerService {
    /// A runner that answers is ready.
    pub fn ping(&self) -> (r: PingResponse)
        ensures
            !r.not_ready,
    {
        PingResponse { not_ready: false }
    }
}

/// Where a verb service listens.
#[derive(Debug, Clone, PartialEq, Eq)]
pub struct Config {
    pub bind: String,
}

impl Config {
    /// The URL under which the service is reached.
    pub fn bind_url(&self) -> (r: String)
        ensures
            r@ == "http://"@ + self.bind@,
    {
        let mut s = "http://".to_owned();
        s.append(self.bind.as_str());
        proof {
            reveal_strlit("http://");
        }
        s
    }
}

} // verus!
