use sidecar::cli::{
    channel, decide, doctor_outcome, help_text, optional_target, parse, parse_format,
    require_no_extra_args, version, Action, OutputFormat,
};
use sidecar::state::Diagnostic;

fn args(words: &[&str]) -> Vec<String> {
    words.iter().map(|w| w.to_string()).collect()
}

#[test]
fn help_exposes_issue_boundary() {
    let help = help_text();
    assert!(help.contains("Product-neutral sidecar lifecycle and inspect IPC manager."));
    assert!(help.contains("consumers own product semantics"));
    assert!(help.contains("doctor   --config <path>"));
    assert!(help.contains("inspect  <sidecar> <event> [<json-payload>]"));
    assert!(help.contains("explicit manifest path; no default filename is reserved"));
    assert!(help.contains("like docker compose -p"));
    assert!(help.contains("--sidecar-stamp-{app,namespace,mode,source}"));
    assert!(help.contains("README.md for usage/schema"));
    assert!(help.contains("AGENTS.md for boundaries and PR workflow"));
    assert!(help.contains("Source:  https://github.com/PerishCode/sidecar"));
    assert!(help.contains("https://github.com/PerishCode/sidecar/issues"));
    assert!(help.contains(
        "0 on success. 1 on config, diagnostic, lifecycle, inspect, or update failure."
    ));
    assert!(!help.contains("%LOCALAPPDATA%"));
    assert!(!help.contains("fully recover"));
}

#[test]
fn parses_global_config_after_command() {
    let parsed = parse(vec![
        "sidecar".into(),
        "doctor".into(),
        "--config".into(),
        "examples/minimal.toml".into(),
        "--format=json".into(),
    ])
    .unwrap();

    assert_eq!(parsed.command, vec!["doctor"]);
    assert_eq!(parsed.config.as_deref(), Some("examples/minimal.toml"));
    assert_eq!(parsed.format, OutputFormat::Json);
}

#[test]
fn parses_version_flags_as_commands() {
    let parsed = parse(vec!["sidecar".into(), "--version".into()]).unwrap();
    assert_eq!(parsed.command, vec!["--version"]);
}

#[test]
fn parses_inspect_with_payload_argument() {
    let parsed = parse(vec![
        "sidecar".into(),
        "inspect".into(),
        "controller".into(),
        "host".into(),
        "{\"window\":\"main\"}".into(),
        "--config".into(),
        "x.toml".into(),
    ])
    .unwrap();
    assert_eq!(
        parsed.command,
        vec!["inspect", "controller", "host", "{\"window\":\"main\"}"]
    );
    assert_eq!(parsed.config.as_deref(), Some("x.toml"));
}

#[test]
fn parses_project_short_and_long() {
    let parsed_short = parse(vec![
        "sidecar".into(),
        "-p".into(),
        "staging".into(),
        "status".into(),
        "--config=x.toml".into(),
    ])
    .unwrap();
    assert_eq!(parsed_short.project_override.as_deref(), Some("staging"));

    let parsed_long = parse(vec![
        "sidecar".into(),
        "--project=prod".into(),
        "list".into(),
        "--config".into(),
        "x.toml".into(),
    ])
    .unwrap();
    assert_eq!(parsed_long.project_override.as_deref(), Some("prod"));
}

#[test]
fn parses_data_home_and_reset_all() {
    let parsed = parse(vec![
        "sidecar".into(),
        "--data-home".into(),
        "/var/sidecar".into(),
        "reset".into(),
        "--all".into(),
        "--config".into(),
        "x.toml".into(),
    ])
    .unwrap();
    assert_eq!(parsed.data_home.as_deref(), Some("/var/sidecar"));
    assert!(parsed.reset_all);
}

#[test]
fn parse_refuses_unknown_options_and_missing_values() {
    assert_eq!(parse(args(&["sidecar", "--verbose"])).unwrap_err(), "unknown option: --verbose");
    assert_eq!(parse(args(&["sidecar", "-x"])).unwrap_err(), "unknown option: -x");
    assert_eq!(parse(args(&["sidecar", "--config"])).unwrap_err(), "--config requires a value");
    assert_eq!(parse(args(&["sidecar", "--format"])).unwrap_err(), "--format requires a value");
    assert_eq!(
        parse(args(&["sidecar", "--data-home"])).unwrap_err(),
        "--data-home requires a value"
    );
    assert_eq!(parse(args(&["sidecar", "-p"])).unwrap_err(), "--project requires a value");
    assert_eq!(
        parse(args(&["sidecar", "--format=yaml"])).unwrap_err(),
        "unsupported output format: yaml"
    );
}

#[test]
fn parse_strips_repeated_inline_prefixes_and_keeps_the_last_value() {
    let parsed = parse(args(&[
        "sidecar",
        "--config=--config=a.toml",
        "--config",
        "b.toml",
        "--config=c.toml",
        "-h",
        "--data-home=/d",
    ]))
    .unwrap();
    assert_eq!(parsed.config.as_deref(), Some("c.toml"));
    assert_eq!(parsed.command, vec!["-h"]);
    assert_eq!(parsed.data_home.as_deref(), Some("/d"));
    let repeated = parse(args(&["sidecar", "--config=--config=a.toml"])).unwrap();
    assert_eq!(repeated.config.as_deref(), Some("a.toml"));
    let empty = parse(args(&[])).unwrap();
    assert!(empty.command.is_empty());
    assert_eq!(empty.format, OutputFormat::Text);
}

#[test]
fn parse_format_accepts_text_and_json_only() {
    assert_eq!(parse_format("text"), Ok(OutputFormat::Text));
    assert_eq!(parse_format("json"), Ok(OutputFormat::Json));
    assert_eq!(parse_format("JSON").unwrap_err(), "unsupported output format: JSON");
}

#[test]
fn version_and_channel_fall_back_to_package_and_dev() {
    assert_eq!(version(None, "0.3.1"), "v0.3.1");
    assert_eq!(version(Some("v9.9.9"), "0.3.1"), "v9.9.9");
    assert_eq!(channel(None), "dev");
    assert_eq!(channel(Some("beta")), "beta");
}

#[test]
fn extra_arguments_are_refused_with_their_words() {
    let parsed = parse(args(&["sidecar", "doctor", "a", "b"])).unwrap();
    assert_eq!(
        require_no_extra_args(&parsed, 1, "doctor").unwrap_err(),
        "unsupported doctor arguments: a b"
    );
    assert!(require_no_extra_args(&parsed, 3, "doctor").is_ok());
    let start = parse(args(&["sidecar", "start"])).unwrap();
    assert_eq!(optional_target(&start, "start"), Ok(None));
    let one = parse(args(&["sidecar", "stop", "api"])).unwrap();
    assert_eq!(optional_target(&one, "stop"), Ok(Some("api".to_string())));
    let many = parse(args(&["sidecar", "stop", "api", "web", "db"])).unwrap();
    assert_eq!(
        optional_target(&many, "stop").unwrap_err(),
        "unsupported stop arguments: web db"
    );
}

#[test]
fn decide_maps_commands_to_actions() {
    let action = |words: &[&str]| decide(&parse(args(words)).unwrap());
    assert_eq!(action(&["sidecar"]), Ok(Action::Usage));
    assert_eq!(action(&["sidecar", "-h", "extra"]), Ok(Action::Help));
    assert_eq!(action(&["sidecar", "--version"]), Ok(Action::Version));
    assert_eq!(action(&["sidecar", "doctor"]), Ok(Action::Doctor));
    assert_eq!(action(&["sidecar", "plan", "x"]).unwrap_err(), "unsupported plan arguments: x");
    assert_eq!(action(&["sidecar", "inspect", "config"]), Ok(Action::InspectConfig));
    assert_eq!(
        action(&["sidecar", "inspect"]).unwrap_err(),
        "inspect requires `config` or `<sidecar> <event> [payload]`"
    );
    assert_eq!(
        action(&["sidecar", "inspect", "api"]).unwrap_err(),
        "inspect <sidecar> <event> [payload] \u{2014} event is required"
    );
    assert_eq!(
        action(&["sidecar", "inspect", "api", "host", "{}", "more", "words"]).unwrap_err(),
        "unsupported inspect arguments: more words"
    );
    assert_eq!(
        action(&["sidecar", "inspect", "api", "host"]),
        Ok(Action::Inspect { sidecar: "api".into(), event: "host".into(), payload: None })
    );
    assert_eq!(
        action(&["sidecar", "inspect", "api", "host", "{}"]),
        Ok(Action::Inspect {
            sidecar: "api".into(),
            event: "host".into(),
            payload: Some("{}".into())
        })
    );
    assert_eq!(action(&["sidecar", "restart", "api"]), Ok(Action::Restart(Some("api".into()))));
    assert_eq!(action(&["sidecar", "start"]), Ok(Action::Start(None)));
    assert_eq!(action(&["sidecar", "reset", "--all"]), Ok(Action::Reset));
    assert_eq!(
        action(&["sidecar", "launch", "now"]).unwrap_err(),
        "unknown command: launch now; run `sidecar help`"
    );
}

#[test]
fn doctor_fails_only_on_errors() {
    let warning = Diagnostic::warning("app", "no app");
    let error = Diagnostic::error("project.name", "value must not be empty");
    assert!(doctor_outcome(&[warning.clone()]).is_ok());
    assert_eq!(
        doctor_outcome(&[warning, error]).unwrap_err(),
        "sidecar doctor found configuration errors"
    );
}

#[test]
fn config_path_is_required() {
    let with = parse(args(&["sidecar", "plan", "--config=m.toml"])).unwrap();
    assert_eq!(sidecar::cli::config_path(&with).unwrap(), "m.toml");
    let without = parse(args(&["sidecar", "plan"])).unwrap();
    assert_eq!(
        sidecar::cli::config_path(&without).unwrap_err(),
        "--config <path> is required"
    );
    let tauri = sidecar::tauri_dev::parse(args(&["tauri-dev", "plan"])).unwrap();
    assert_eq!(
        sidecar::tauri_dev::config_path(&tauri).unwrap_err(),
        "--config <path> is required"
    );
}
