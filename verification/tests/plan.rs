use sidecar::config::{
    default_mode, default_namespace, default_root, AppConfig, InspectConfig, Manifest,
    ProjectConfig, SidecarConfig,
};
use sidecar::plan::ExecutionPlan;
use sidecar::stamp::read_stamp;

fn manifest() -> Manifest {
    Manifest {
        project: ProjectConfig {
            name: "proj".into(),
            namespace: "design".into(),
            root: default_root(),
            data_dir: None,
        },
        app: Some(AppConfig {
            name: "desktop".into(),
            command: "pnpm".into(),
            args: vec!["tauri".into(), "dev".into()],
            cwd: ".".into(),
            health_url: Some("http://127.0.0.1/health".into()),
        }),
        sidecars: vec![SidecarConfig {
            name: "api".into(),
            command: "cargo".into(),
            args: vec!["run".into()],
            cwd: "backend".into(),
            mode: default_mode(),
            inspect_socket: Some("unix:///tmp/api.sock".into()),
            health_url: None,
        }],
        inspect: InspectConfig::default(),
    }
}

#[test]
fn defaults_are_dot_default_and_dev() {
    assert_eq!(default_root(), ".");
    assert_eq!(default_namespace(), "default");
    assert_eq!(default_mode(), "dev");
}

#[test]
fn plan_stamps_sidecars_with_project_namespace() {
    let plan = ExecutionPlan::from_config(&manifest());
    assert_eq!(plan.project, "proj");
    assert_eq!(plan.namespace, "design");
    assert_eq!(plan.root, ".");
    let app = plan.app.clone().unwrap();
    assert_eq!(app.args, vec!["tauri", "dev"]);
    assert_eq!(app.health_url.as_deref(), Some("http://127.0.0.1/health"));
    let sidecar = &plan.sidecars[0];
    assert_eq!(sidecar.stamp.app, "api");
    assert_eq!(sidecar.stamp.namespace, "design");
    assert_eq!(sidecar.stamp.mode, "dev");
    assert_eq!(sidecar.stamp.source, "tool:sidecar");
    assert_eq!(sidecar.inspect_socket.as_deref(), Some("unix:///tmp/api.sock"));
    assert!(plan.inspect_endpoints.is_empty());
}

#[test]
fn spawn_args_append_stamp_and_read_back() {
    let plan = ExecutionPlan::from_config(&manifest());
    let sidecar = &plan.sidecars[0];
    let argv = sidecar.spawn_args();
    assert_eq!(
        argv,
        vec![
            "run",
            "--sidecar-stamp-app=api",
            "--sidecar-stamp-namespace=design",
            "--sidecar-stamp-mode=dev",
            "--sidecar-stamp-source=tool:sidecar",
        ]
    );
    assert_eq!(read_stamp(&argv), Some(sidecar.stamp.clone()));
}
