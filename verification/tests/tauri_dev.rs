use sidecar::cli::OutputFormat;
use sidecar::state::Diagnostic;
use sidecar::tauri_dev::{command_line, decide, doctor_outcome, help_text, parse, version, Action};

fn args(words: &[&str]) -> Vec<String> {
    words.iter().map(|w| w.to_string()).collect()
}

#[test]
fn cli_help_exposes_issue_boundary() {
    let help = help_text();
    assert!(help.contains("https://github.com/PerishCode/tauri-dev/issues"));
    assert!(help.contains("--config <path>"));
}

#[test]
fn cli_parses_global_config_after_command() {
    let parsed = parse(vec![
        "tauri-dev".into(),
        "doctor".into(),
        "--config".into(),
        "examples/minimal.toml".into(),
        "--format=json".into(),
    ])
    .unwrap();

    assert_eq!(parsed.command, vec!["doctor"]);
    assert_eq!(parsed.config.as_deref(), Some("examples/minimal.toml"));
    assert_eq!(parsed.format, OutputFormat::Json);
}

#[test]
fn cli_parses_version_flags_as_commands() {
    let parsed = parse(vec!["tauri-dev".into(), "--version".into()]).unwrap();
    assert_eq!(parsed.command, vec!["--version"]);
}

#[test]
fn tauri_parse_refuses_sidecar_only_flags() {
    assert_eq!(
        parse(args(&["tauri-dev", "--data-home", "/x"])).unwrap_err(),
        "unknown option: --data-home"
    );
    assert_eq!(parse(args(&["tauri-dev", "--format", "xml"])).unwrap_err(), "unsupported output format: xml");
    assert_eq!(parse(args(&["tauri-dev", "--config"])).unwrap_err(), "--config requires a value");
}

#[test]
fn tauri_decide_maps_commands_to_actions() {
    let action = |words: &[&str]| decide(&parse(args(words)).unwrap());
    assert_eq!(action(&["tauri-dev"]), Ok(Action::Usage));
    assert_eq!(action(&["tauri-dev", "help"]), Ok(Action::Help));
    assert_eq!(action(&["tauri-dev", "-V"]), Ok(Action::Version));
    assert_eq!(action(&["tauri-dev", "doctor"]), Ok(Action::Doctor));
    assert_eq!(action(&["tauri-dev", "plan"]), Ok(Action::Plan));
    assert_eq!(action(&["tauri-dev", "inspect", "config"]), Ok(Action::InspectConfig));
    assert_eq!(
        action(&["tauri-dev", "status"]).unwrap_err(),
        "status is reserved for lifecycle execution; use `plan --config <path>` in this scaffold"
    );
    assert_eq!(
        action(&["tauri-dev", "help", "me"]).unwrap_err(),
        "unknown command: help me; run `tauri-dev help`"
    );
}

#[test]
fn tauri_doctor_fails_only_on_errors() {
    assert!(doctor_outcome(&[Diagnostic::warning("app", "none")]).is_ok());
    assert_eq!(
        doctor_outcome(&[Diagnostic::error("app.name", "value must not be empty")]).unwrap_err(),
        "tauri-dev doctor found configuration errors"
    );
}

#[test]
fn tauri_version_falls_back_to_package_version() {
    assert_eq!(version(None, "1.2.3"), "v1.2.3");
    assert_eq!(version(Some("v2"), "1.2.3"), "v2");
}

#[test]
fn command_line_joins_command_and_args() {
    assert_eq!(command_line("pnpm", &args(&["tauri", "dev"])), "pnpm tauri dev");
    assert_eq!(command_line("cargo", &[]), "cargo");
}
