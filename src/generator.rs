//! The dispatch generator: the cases of the generated dispatch routine, one per verb.
use vstd::prelude::*;

use crate::parser::{Parsed, TypeName, TypeNameV, VerbToken};

verus! {

/// How a generated case obtains the request that it passes to its handler.
#[derive(Debug, Clone, PartialEq, Eq)]
pub enum RequestDecoding {
    /// The handler takes the unit type: the body is not read.
    Unit,
    /// The body is deserialized into the named request type of the verb's module.
    Json(String),
}

/// One case of the generated dispatch routine, keyed by module and verb name.
#[derive(Debug, Clone, PartialEq, Eq)]
pub struct DispatchCase {
    pub module: String,
    pub verb: String,
    pub request: RequestDecoding,
}

/// The case that a verb yields: keyed by its module and function name, reading its body
/// unless the request type is the unit type.
pub open spec fn case_matches(c: DispatchCase, v: VerbToken) -> bool {
    &&& c.module@ == v.module.0@
    &&& c.verb@ == v.ident@
    &&& match v.request@ {
        TypeNameV::Unit => c.request is Unit,
        TypeNameV::Named(n) => c.request matches RequestDecoding::Json(t) && t@ == n,
    }
}

impl Parsed {
    pub fn to_call_immediate_case_token(verb_token: &VerbToken) -> (r: DispatchCase)
        ensures
            case_matches(r, *verb_token),
    {
        let request = match &verb_token.request {
            TypeName::Unit => RequestDecoding::Unit,
            TypeName::Named(n) => RequestDecoding::Json(n.clone()),
        };
        DispatchCase { module: verb_token.module.0.clone(), verb: verb_token.ident.clone(), request }
    }

    /// The cases of the dispatch routine, one per verb, in discovery order.
    pub fn call_immediate_cases(&self) -> (r: Vec<DispatchCase>)
        ensures
            r@.len() == self.verbs@.len(),
            forall|i: int| 0 <= i < r@.len() ==> case_matches(#[trigger] r@[i], self.verbs@[i]),
    {
        let mut cases: Vec<DispatchCase> = Vec::new();
        let mut i: usize = 0;
        while i < self.verbs.len()
            invariant
                i <= self.verbs@.len(),
                cases@.len() == i,
                forall|j: int| 0 <= j < i ==> case_matches(#[trigger] cases@[j], self.verbs@[j]),
            decreases self.verbs@.len() - i,
        {
            cases.push(Self::to_call_immediate_case_token(&self.verbs[i]));
            i = i + 1;
        }
        cases
    }
}

} // verus!
