use sidecar::cli::OutputFormat;
use sidecar::inspect::InspectResponse;
use sidecar::output::{
    diagnostic_lines, inspect_header_line, inspect_outcome, list_lines, plan_lines, status_lines,
};
use sidecar::plan::{AppPlan, ExecutionPlan, InspectEndpointPlan, SidecarPlan};
use sidecar::stamp::Stamp;
use sidecar::state::Diagnostic;

#[test]
fn diagnostic_report_counts_and_lists() {
    assert_eq!(diagnostic_lines("tauri-dev", &[]), vec!["tauri-dev doctor found no issues"]);
    let lines = diagnostic_lines(
        "sidecar",
        &[
            Diagnostic::warning("app", "no app"),
            Diagnostic::error("project.name", "value must not be empty"),
        ],
    );
    assert_eq!(
        lines,
        vec![
            "sidecar doctor found 2 issue(s)",
            "warning app - no app",
            "error project.name - value must not be empty",
        ]
    );
}

#[test]
fn plan_report_lists_app_sidecars_and_endpoints() {
    let plan = ExecutionPlan {
        project: "example".into(),
        namespace: "default".into(),
        root: ".".into(),
        app: Some(AppPlan {
            name: "desktop".into(),
            command: "pnpm".into(),
            args: vec!["tauri".into(), "dev".into()],
            cwd: ".".into(),
            health_url: None,
        }),
        sidecars: vec![SidecarPlan {
            name: "api".into(),
            command: "cargo".into(),
            args: vec!["run".into()],
            cwd: ".".into(),
            stamp: Stamp {
                app: "api".into(),
                namespace: "default".into(),
                mode: "dev".into(),
                source: "tool:sidecar".into(),
            },
            inspect_socket: None,
            health_url: None,
        }],
        inspect_endpoints: vec![InspectEndpointPlan {
            name: "health".into(),
            kind: "http".into(),
            url: "http://127.0.0.1:3000/health".into(),
        }],
    };
    assert_eq!(
        plan_lines(&plan),
        vec![
            "project: example",
            "app: desktop -> pnpm tauri dev",
            "sidecars: 1",
            "- api -> cargo run",
            "inspect endpoints: 1",
            "- health http http://127.0.0.1:3000/health",
        ]
    );
    let bare = ExecutionPlan { app: None, sidecars: vec![], inspect_endpoints: vec![], ..plan };
    assert_eq!(
        plan_lines(&bare),
        vec!["project: example", "app: <none>", "sidecars: 0", "inspect endpoints: 0"]
    );
}

#[test]
fn status_report_shows_running_duplicates_and_stopped() {
    let rows = vec![
        ("api".to_string(), vec![120u32, 4071]),
        ("web".to_string(), vec![]),
    ];
    assert_eq!(
        status_lines("default", &rows),
        vec![
            "namespace: default",
            "- api: running (pid 120)",
            "  + duplicate (pid 4071)",
            "- web: stopped",
        ]
    );
}

#[test]
fn list_report_shows_processes_or_none() {
    assert_eq!(
        list_lines("default", &[]),
        vec!["namespace: default", "no stamped processes"]
    );
    assert_eq!(
        list_lines("ns", &[(7u32, "node a.js --sidecar-stamp-app=a".to_string())]),
        vec!["namespace: ns", "- pid=7 cmd=node a.js --sidecar-stamp-app=a"]
    );
}

#[test]
fn inspect_outcome_fails_on_endpoint_errors() {
    let ok = InspectResponse::Data(serde_json::Value::Null);
    assert!(inspect_outcome(&ok, OutputFormat::Text).is_ok());
    let err = InspectResponse::Error("boom".into());
    assert_eq!(inspect_outcome(&err, OutputFormat::Text).unwrap_err(), "inspect error: boom");
    assert_eq!(
        inspect_outcome(&err, OutputFormat::Json).unwrap_err(),
        "inspect endpoint returned ok=false"
    );
}

#[test]
fn inspect_header_names_sidecar_and_event() {
    assert_eq!(inspect_header_line("api", "state"), "ok api state");
}
