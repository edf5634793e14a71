//! The state of a provisioning run.
use vstd::prelude::*;
use crate::provisioner::Resource;

verus! {

#[derive(Clone, Copy, Debug, PartialEq)]
pub struct ProvisioningRunning {}

#[derive(Clone, Debug, PartialEq)]
pub struct ProvisioningFailed {
    pub error_message: String,
}

/// The resources as provisioning left them.
#[derive(Clone, Debug, PartialEq)]
pub struct ProvisioningSuccess {
    pub updated_resources: Vec<Resource>,
}

/// The state of a provisioning run.
#[derive(Clone, Debug, PartialEq)]
pub enum Status {
    Running(ProvisioningRunning),
    Success(ProvisioningSuccess),
}

} // verus!
