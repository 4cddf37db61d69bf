//! The manifest: `[project]`, optional `[app]`, repeated `[[sidecars]]` and
//! optional `[[inspect.endpoints]]`.
//!
//! The fields that a manifest file may leave out take the values of
//! `default_root`, `default_namespace` and `default_mode`.
use vstd::prelude::*;

use crate::stamp::{DEFAULT_MODE, DEFAULT_NAMESPACE};
use crate::text::copy_str;

verus! {

#[derive(Clone, Debug, PartialEq, Eq)]
pub struct Manifest {
    pub project: ProjectConfig,
    pub app: Option<AppConfig>,
    pub sidecars: Vec<SidecarConfig>,
    pub inspect: InspectConfig,
}

#[derive(Clone, Debug, PartialEq, Eq)]
pub struct ProjectConfig {
    pub name: String,
    pub namespace: String,
    pub root: String,
    pub data_dir: Option<String>,
}

#[derive(Clone, Debug, PartialEq, Eq)]
pub struct AppConfig {
    pub name: String,
    pub command: String,
    pub args: Vec<String>,
    pub cwd: String,
    pub health_url: Option<String>,
}

#[derive(Clone, Debug, PartialEq, Eq)]
pub struct SidecarConfig {
    pub name: String,
    pub command: String,
    pub args: Vec<String>,
    pub cwd: String,
    pub mode: String,
    pub inspect_socket: Option<String>,
    pub health_url: Option<String>,
}

#[derive(Clone, Debug, Default, PartialEq, Eq)]
pub struct InspectConfig {
    pub endpoints: Vec<InspectEndpointConfig>,
}

#[derive(Clone, Debug, PartialEq, Eq)]
pub struct InspectEndpointConfig {
    pub name: String,
    pub kind: String,
    pub url: String,
}

/// The working directory that a manifest leaves out: `.`.
pub fn default_root() -> (s: String)
    ensures
        s@ == "."@,
{
    copy_str(".")
}

/// The namespace that a manifest leaves out: `default`.
pub fn default_namespace() -> (s: String)
    ensures
        s@ == DEFAULT_NAMESPACE@,
{
    copy_str(DEFAULT_NAMESPACE)
}

/// The sidecar mode that a manifest leaves out: `dev`.
pub fn default_mode() -> (s: String)
    ensures
        s@ == DEFAULT_MODE@,
{
    copy_str(DEFAULT_MODE)
}

} // verus!
