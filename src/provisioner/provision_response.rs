//! The state of a provisioning request.
use vstd::prelude::*;
use crate::text::str_eq;

verus! {

/// The state of a provisioning request.
#[derive(Clone, Copy, Debug, PartialEq, Eq, Hash)]
pub enum ProvisionResponseStatus {
    Unknown,
    Submitted,
}

/// The name of each value in the protocol definition.
pub open spec fn provision_response_status_name(v: ProvisionResponseStatus) -> Seq<char> {
    match v {
        ProvisionResponseStatus::Unknown => "UNKNOWN"@,
        ProvisionResponseStatus::Submitted => "SUBMITTED"@,
    }
}

impl ProvisionResponseStatus {
    /// The name of this value in the protocol definition.
    pub fn as_str_name(&self) -> (r: &'static str)
        ensures
            r@ == provision_response_status_name(*self),
    {
        match self {
            ProvisionResponseStatus::Unknown => "UNKNOWN",
            ProvisionResponseStatus::Submitted => "SUBMITTED",
        }
    }

    /// The value with this name in the protocol definition.
    pub fn from_str_name(value: &str) -> (r: Option<Self>)
        ensures
            match r {
                Some(v) => provision_response_status_name(v) == value@,
                None => forall|v: ProvisionResponseStatus| provision_response_status_name(v) != value@,
            },
    {
        if str_eq(value, "UNKNOWN") {
            Some(ProvisionResponseStatus::Unknown)
        } else if str_eq(value, "SUBMITTED") {
            Some(ProvisionResponseStatus::Submitted)
        } else {
            None
        }
    }
}

/// The number of each value on the wire.
pub open spec fn provision_response_status_number(v: ProvisionResponseStatus) -> i32 {
    match v {
        ProvisionResponseStatus::Unknown => 0,
        ProvisionResponseStatus::Submitted => 1,
    }
}

impl ProvisionResponseStatus {
    /// The number of this value on the wire.
    pub fn to_i32(&self) -> (r: i32)
        ensures
            r == provision_response_status_number(*self),
    {
        match self {
            ProvisionResponseStatus::Unknown => 0,
            ProvisionResponseStatus::Submitted => 1,
        }
    }

    /// The value with this number on the wire.
    pub fn from_i32(value: i32) -> (r: Option<Self>)
        ensures
            match r {
                Some(v) => provision_response_status_number(v) == value,
                None => forall|v: ProvisionResponseStatus| provision_response_status_number(v) != value,
            },
    {
        match value {
            0 => Some(ProvisionResponseStatus::Unknown),
            1 => Some(ProvisionResponseStatus::Submitted),
            _ => None,
        }
    }
}

} // verus!
