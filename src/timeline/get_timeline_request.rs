//! The filters and the order of a timeline query.
pub mod filter;

use vstd::prelude::*;
use crate::text::str_eq;

verus! {

#[derive(Clone, Copy, Debug, PartialEq)]
pub struct LogLevelFilter {
    pub log_level: i32,
}

/// Events of these deployments.
#[derive(Clone, Debug, PartialEq)]
pub struct DeploymentFilter {
    pub deployments: Vec<String>,
}

/// Events of these requests.
#[derive(Clone, Debug, PartialEq)]
pub struct RequestFilter {
    pub requests: Vec<String>,
}

/// Events of these kinds.
#[derive(Clone, Debug, PartialEq)]
pub struct EventTypeFilter {
    pub event_types: Vec<i32>,
}

/// Events in a time range; either end may be left open.
#[derive(Clone, Copy, Debug, PartialEq)]
pub struct TimeFilter {
    pub older_than: Option<prost_types::Timestamp>,
    pub newer_than: Option<prost_types::Timestamp>,
}

/// Events in an id range; either end may be left open.
#[derive(Clone, Copy, Debug, PartialEq)]
pub struct IdFilter {
    pub lower_than: Option<i64>,
    pub higher_than: Option<i64>,
}

/// Calls to a module, or to one of its verbs.
#[derive(Clone, Debug, PartialEq)]
pub struct CallFilter {
    pub dest_module: String,
    pub dest_verb: Option<String>,
    pub source_module: Option<String>,
}

/// Events of a module, or of one of its verbs.
#[derive(Clone, Debug, PartialEq)]
pub struct ModuleFilter {
    pub module: String,
    pub verb: Option<String>,
}

/// One filter of a timeline query.
#[derive(Clone, Debug, PartialEq)]
pub struct Filter {
    pub filter: Option<filter::Filter>,
}

/// The order of a timeline query.
#[derive(Clone, Copy, Debug, PartialEq, Eq, Hash)]
pub enum Order {
    Unspecified,
    Asc,
    Desc,
}

/// The name of each value in the protocol definition.
pub open spec fn order_name(v: Order) -> Seq<char> {
    match v {
        Order::Unspecified => "ORDER_UNSPECIFIED"@,
        Order::Asc => "ORDER_ASC"@,
        Order::Desc => "ORDER_DESC"@,
    }
}

impl Order {
    /// The name of this value in the protocol definition.
    pub fn as_str_name(&self) -> (r: &'static str)
        ensures
            r@ == order_name(*self),
    {
        match self {
            Order::Unspecified => "ORDER_UNSPECIFIED",
            Order::Asc => "ORDER_ASC",
            Order::Desc => "ORDER_DESC",
        }
    }

    /// The value with this name in the protocol definition.
    pub fn from_str_name(value: &str) -> (r: Option<Self>)
        ensures
            match r {
                Some(v) => order_name(v) == value@,
                None => forall|v: Order| order_name(v) != value@,
            },
    {
        if str_eq(value, "ORDER_UNSPECIFIED") {
            Some(Order::Unspecified)
        } else if str_eq(value, "ORDER_ASC") {
            Some(Order::Asc)
        } else if str_eq(value, "ORDER_DESC") {
            Some(Order::Desc)
        } else {
            None
        }
    }
}

/// The number of each value on the wire.
pub open spec fn order_number(v: Order) -> i32 {
    match v {
        Order::Unspecified => 0,
        Order::Asc => 1,
        Order::Desc => 2,
    }
}

impl Order {
    /// The number of this value on the wire.
    pub fn to_i32(&self) -> (r: i32)
        ensures
            r == order_number(*self),
    {
        match self {
            Order::Unspecified => 0,
            Order::Asc => 1,
            Order::Desc => 2,
        }
    }

    /// The value with this number on the wire.
    pub fn from_i32(value: i32) -> (r: Option<Self>)
        ensures
            match r {
                Some(v) => order_number(v) == value,
                None => forall|v: Order| order_number(v) != value,
            },
    {
        match value {
            0 => Some(Order::Unspecified),
            1 => Some(Order::Asc),
            2 => Some(Order::Desc),
            _ => None,
        }
    }
}

} // verus!
