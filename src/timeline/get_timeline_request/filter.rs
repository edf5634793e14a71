//! The kinds of timeline filter.
use vstd::prelude::*;
use crate::timeline::get_timeline_request::{
    CallFilter, DeploymentFilter, EventTypeFilter, IdFilter, LogLevelFilter, ModuleFilter,
    RequestFilter, TimeFilter,
};

verus! {

/// The kinds of filter.
#[derive(Clone, Debug, PartialEq)]
pub enum Filter {
    LogLevel(LogLevelFilter),
    Deployments(DeploymentFilter),
    Requests(RequestFilter),
    EventTypes(EventTypeFilter),
    Time(TimeFilter),
    Id(IdFilter),
    Call(CallFilter),
    Module(ModuleFilter),
}

} // verus!
