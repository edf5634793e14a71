//! What provisioning a Postgres database yields.
use vstd::prelude::*;

verus! {

/// What provisioning a Postgres database yields.
#[derive(Clone, Debug, PartialEq)]
pub struct PostgresResourceOutput {
    pub read_dsn: String,
    pub write_dsn: String,
}

} // verus!
