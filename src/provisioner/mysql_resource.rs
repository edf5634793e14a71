//! What provisioning a MySQL database yields.
use vstd::prelude::*;

verus! {

/// What provisioning a MySQL database yields.
#[derive(Clone, Debug, PartialEq)]
pub struct MysqlResourceOutput {
    pub read_dsn: String,
    pub write_dsn: String,
}

} // verus!
