//! What provisioning a module yields.
use vstd::prelude::*;

verus! {

/// What provisioning a module yields.
#[derive(Clone, Debug, PartialEq)]
pub struct ModuleResourceOutput {
    pub deployment_key: String,
}

} // verus!
