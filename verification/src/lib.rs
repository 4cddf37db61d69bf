//! Sidecar lifecycle and inspect IPC: manifest checks, execution plans, the
//! stamp args protocol, socket endpoints, data paths, and the command lines
//! of the `sidecar` and `tauri-dev` tools.
pub mod cli;
pub mod commands;
pub mod config;
pub mod inspect;
pub mod output;
pub mod paths;
pub mod plan;
pub mod process;
pub mod socket;
pub mod stamp;
pub mod state;
pub mod tauri_dev;
pub mod text;

pub use config::{
    AppConfig, InspectConfig, InspectEndpointConfig, Manifest, ProjectConfig, SidecarConfig,
};
pub use inspect::{InspectRequest, InspectResponse};
pub use paths::{resolve_data_home, resolve_data_paths, DataHomeEnv, DataPaths};
pub use plan::{AppPlan, ExecutionPlan, InspectEndpointPlan, SidecarPlan};
pub use socket::{SocketEndpoint, SocketEndpointParseError};
pub use stamp::{
    read_flag as read_stamp_flag, read_stamp, Stamp, DEFAULT_MODE, DEFAULT_NAMESPACE,
    DEFAULT_SOURCE, STAMP_APP_FLAG, STAMP_MODE_FLAG, STAMP_NAMESPACE_FLAG, STAMP_SOURCE_FLAG,
};
pub use state::{DevState, Diagnostic, Severity};
