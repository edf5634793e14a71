//! Messages of the resource provisioner.
pub mod module_resource;
pub mod mysql_resource;
pub mod postgres_resource;
pub mod provision_response;
pub mod resource;
pub mod status_response;

use vstd::prelude::*;
use crate::schema::Module;

verus! {

/// A resource that a module needs; its id is unique within the module.
#[derive(Clone, Debug, PartialEq)]
pub struct Resource {
    pub resource_id: String,
    pub resource: Option<resource::Resource>,
}

/// A Postgres database.
#[derive(Clone, Debug, PartialEq)]
pub struct PostgresResource {
    pub output: Option<postgres_resource::PostgresResourceOutput>,
}

/// A MySQL database.
#[derive(Clone, Debug, PartialEq)]
pub struct MysqlResource {
    pub output: Option<mysql_resource::MysqlResourceOutput>,
}

/// A deployment of a module; its labels are those that a runner needs to run it.
#[derive(Clone, Debug, PartialEq)]
pub struct ModuleResource {
    pub output: Option<module_resource::ModuleResourceOutput>,
    pub schema: Option<Module>,
    pub artefacts: Vec<DeploymentArtefact>,
    pub labels: Option<prost_types::Struct>,
}

/// A file of a deployment.
#[derive(Clone, Debug, PartialEq)]
pub struct DeploymentArtefact {
    pub digest: String,
    pub path: String,
    pub executable: bool,
}

/// A resource to create, with the resources that it depends on.
#[derive(Clone, Debug, PartialEq)]
pub struct ResourceContext {
    pub resource: Option<Resource>,
    pub dependencies: Vec<Resource>,
}

/// A provisioning run: the resources that exist, and those that should exist after it.
#[derive(Clone, Debug, PartialEq)]
pub struct ProvisionRequest {
    pub ftl_cluster_id: String,
    pub module: String,
    pub existing_resources: Vec<Resource>,
    pub desired_resources: Vec<ResourceContext>,
}

#[derive(Clone, Debug, PartialEq)]
pub struct ProvisionResponse {
    pub provisioning_token: String,
    pub status: i32,
}

/// A status query of a provisioning run.
#[derive(Clone, Debug, PartialEq)]
pub struct StatusRequest {
    pub provisioning_token: String,
    pub desired_resources: Vec<Resource>,
}

#[derive(Clone, Debug, PartialEq)]
pub struct StatusResponse {
    pub status: Option<status_response::Status>,
}

#[derive(Clone, Debug, PartialEq)]
pub struct PlanRequest {
    pub provisioning: Option<ProvisionRequest>,
}

/// A description of the changes that a run would make.
#[derive(Clone, Debug, PartialEq)]
pub struct PlanResponse {
    pub plan: String,
}

} // verus!
