use sidecar::config::{
    AppConfig, InspectConfig, InspectEndpointConfig, Manifest, ProjectConfig, SidecarConfig,
};
use sidecar::state::{validate_required_name, DevState, Diagnostic, Severity};

fn project(name: &str) -> ProjectConfig {
    ProjectConfig {
        name: name.into(),
        namespace: "default".into(),
        root: ".".into(),
        data_dir: None,
    }
}

fn sidecar(name: &str, command: &str) -> SidecarConfig {
    SidecarConfig {
        name: name.into(),
        command: command.into(),
        args: vec![],
        cwd: ".".into(),
        mode: "dev".into(),
        inspect_socket: None,
        health_url: None,
    }
}

fn state(config: Manifest) -> DevState {
    DevState { config_path: "inline.toml".into(), config }
}

#[test]
fn reports_duplicate_sidecars() {
    let state = state(Manifest {
        project: project("app"),
        app: None,
        sidecars: vec![sidecar("api", "cargo"), sidecar("api", "cargo")],
        inspect: InspectConfig::default(),
    });

    let diagnostics = state.diagnostics();
    assert!(diagnostics
        .iter()
        .any(|diagnostic| diagnostic.message.contains("duplicate sidecar name")));
}

#[test]
fn builds_execution_plan() {
    let state = state(Manifest {
        project: project("app"),
        app: Some(AppConfig {
            name: "desktop".into(),
            command: "pnpm".into(),
            args: vec!["tauri".into(), "dev".into()],
            cwd: ".".into(),
            health_url: None,
        }),
        sidecars: vec![],
        inspect: InspectConfig {
            endpoints: vec![InspectEndpointConfig {
                name: "health".into(),
                kind: "http".into(),
                url: "http://127.0.0.1:3000/health".into(),
            }],
        },
    });

    let plan = state.execution_plan();
    assert_eq!(plan.project, "app");
    assert_eq!(plan.app.unwrap().command, "pnpm");
    assert_eq!(plan.inspect_endpoints.len(), 1);
}

#[test]
fn diagnostics_come_in_manifest_order_with_paths() {
    let mut bad_socket = sidecar("web", " ");
    bad_socket.inspect_socket = Some("127.0.0.1:9".into());
    let state = state(Manifest {
        project: project("  "),
        app: None,
        sidecars: vec![sidecar("api", "cargo"), bad_socket, sidecar("api", "x")],
        inspect: InspectConfig {
            endpoints: vec![
                InspectEndpointConfig { name: "h".into(), kind: "".into(), url: "u".into() },
                InspectEndpointConfig { name: "h".into(), kind: "k".into(), url: "u".into() },
            ],
        },
    });
    let got: Vec<(Severity, String, String)> = state
        .diagnostics()
        .into_iter()
        .map(|d| (d.severity, d.path, d.message))
        .collect();
    let want = vec![
        (Severity::Error, "project.name", "value must not be empty"),
        (
            Severity::Warning,
            "app",
            "no app command is configured; only sidecar and inspect plans can run",
        ),
        (Severity::Error, "sidecars[1].command", "value must not be empty"),
        (
            Severity::Error,
            "sidecars[1].socket",
            "socket endpoint must use unix:///path.sock form, or tcp://host:port on non-Unix platforms",
        ),
        (Severity::Error, "sidecars[2].name", "duplicate sidecar name `api`"),
        (Severity::Error, "inspect.endpoints[0].kind", "value must not be empty"),
        (Severity::Error, "inspect.endpoints[1].name", "duplicate inspect endpoint name `h`"),
    ];
    let want: Vec<(Severity, String, String)> = want
        .into_iter()
        .map(|(s, p, m)| (s, p.to_string(), m.to_string()))
        .collect();
    assert_eq!(got, want);
}

#[test]
fn blank_duplicate_names_are_not_reported_twice() {
    let state = state(Manifest {
        project: project("p"),
        app: Some(AppConfig {
            name: "a".into(),
            command: "\t".into(),
            args: vec![],
            cwd: ".".into(),
            health_url: None,
        }),
        sidecars: vec![sidecar("", "c"), sidecar("", "c")],
        inspect: InspectConfig::default(),
    });
    let paths: Vec<String> = state.diagnostics().into_iter().map(|d| d.path).collect();
    assert_eq!(paths, vec!["app.command", "sidecars[0].name", "sidecars[1].name"]);
}

#[test]
fn validate_required_name_reports_only_blank_values() {
    let mut diagnostics: Vec<Diagnostic> = Vec::new();
    validate_required_name(&mut diagnostics, "x", "ok");
    assert!(diagnostics.is_empty());
    validate_required_name(&mut diagnostics, "y", " \u{3000}");
    assert_eq!(diagnostics, vec![Diagnostic::error("y", "value must not be empty")]);
}

#[test]
fn sidecar_indices_above_nine_are_written_in_decimal() {
    let mut sidecars: Vec<SidecarConfig> = (0..12).map(|i| sidecar(&format!("s{i}"), "c")).collect();
    sidecars[11].command = "".into();
    let state = state(Manifest {
        project: project("p"),
        app: None,
        sidecars,
        inspect: InspectConfig::default(),
    });
    let diagnostics = state.diagnostics();
    assert_eq!(diagnostics.last().unwrap().path, "sidecars[11].command");
}
