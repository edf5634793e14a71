//! The kinds of resource.
use vstd::prelude::*;
use crate::provisioner::{ModuleResource, MysqlResource, PostgresResource};

verus! {

/// The kinds of resource.
#[derive(Clone, Debug, PartialEq)]
pub enum Resource {
    Postgres(PostgresResource),
    Mysql(MysqlResource),
    Module(ModuleResource),
}

} // verus!
