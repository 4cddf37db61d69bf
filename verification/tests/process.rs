use sidecar::process::{
    parse_process_line, parse_process_table, select_app_namespace, select_namespace, split_words, StampedProcess,
};
use sidecar::config::{ProjectConfig, SidecarConfig};
use sidecar::plan::SidecarPlan;
use sidecar::stamp::Stamp;

fn process(pid: u32, app: &str, namespace: &str) -> StampedProcess {
    StampedProcess {
        pid,
        command: format!("run --sidecar-stamp-app={app}"),
        stamp: Stamp {
            app: app.into(),
            namespace: namespace.into(),
            mode: "dev".into(),
            source: "tool:sidecar".into(),
        },
    }
}

#[test]
fn split_words_matches_split_whitespace() {
    for text in ["", "  a b\tc  ", "one", "\u{2003}x\u{3000}y\n", "a  b"] {
        let expected: Vec<String> = text.split_whitespace().map(String::from).collect();
        assert_eq!(split_words(text), expected);
    }
}

#[test]
fn process_line_needs_pid_and_full_stamp() {
    let line = "  4242 node server.js --sidecar-stamp-app=api --sidecar-stamp-namespace=default --sidecar-stamp-mode=dev --sidecar-stamp-source=tool:sidecar ";
    let found = parse_process_line(line).unwrap();
    assert_eq!(found.pid, 4242);
    assert_eq!(
        found.command,
        "node server.js --sidecar-stamp-app=api --sidecar-stamp-namespace=default --sidecar-stamp-mode=dev --sidecar-stamp-source=tool:sidecar"
    );
    assert_eq!(found.stamp.app, "api");
    assert_eq!(found.stamp.source, "tool:sidecar");
    assert!(parse_process_line("12 node server.js --sidecar-stamp-app=api").is_none());
    assert!(parse_process_line("x1 a --sidecar-stamp-app=a --sidecar-stamp-namespace=b --sidecar-stamp-mode=c --sidecar-stamp-source=d").is_none());
    assert!(parse_process_line("99999999999 a --sidecar-stamp-app=a --sidecar-stamp-namespace=b --sidecar-stamp-mode=c --sidecar-stamp-source=d").is_none());
    assert_eq!(
        parse_process_line("4294967295 a --sidecar-stamp-app=a --sidecar-stamp-namespace=b --sidecar-stamp-mode=c --sidecar-stamp-source=d").unwrap().pid,
        4294967295
    );
    assert!(parse_process_line("").is_none());
}

#[test]
fn selection_keeps_order_and_matches_labels() {
    let all = vec![
        process(1, "api", "default"),
        process(2, "web", "default"),
        process(3, "api", "staging"),
        process(4, "api", "default"),
    ];
    let pids = |v: Vec<StampedProcess>| v.into_iter().map(|p| p.pid).collect::<Vec<_>>();
    assert_eq!(pids(select_namespace(&all, "default")), vec![1, 2, 4]);
    assert_eq!(pids(select_app_namespace(&all, "api", "default")), vec![1, 4]);
    assert_eq!(pids(select_app_namespace(&all, "api", "prod")), Vec::<u32>::new());
}

#[test]
fn spawned_sidecar_line_is_discovered_with_its_stamp() {
    let project = ProjectConfig {
        name: "p".into(),
        namespace: "staging".into(),
        root: ".".into(),
        data_dir: None,
    };
    let config = SidecarConfig {
        name: "api".into(),
        command: "cargo".into(),
        args: vec!["run".into(), "--release".into()],
        cwd: ".".into(),
        mode: "dev".into(),
        inspect_socket: None,
        health_url: None,
    };
    let plan = SidecarPlan::from_config(&config, &project);
    let line = format!("{} {} {}", 31337, plan.command, plan.spawn_args().join(" "));
    let found = parse_process_line(&line).unwrap();
    assert_eq!(found.pid, 31337);
    assert_eq!(found.stamp, plan.stamp);
    assert_eq!(select_app_namespace(&[found], "api", "staging").len(), 1);
}

#[test]
fn process_table_skips_own_pid_and_unstamped_lines() {
    let stamp = "--sidecar-stamp-app=a --sidecar-stamp-namespace=n --sidecar-stamp-mode=m --sidecar-stamp-source=s";
    let lines = vec![
        format!("1 run {stamp}"),
        "2 plain process".to_string(),
        format!("3 run {stamp}"),
        format!("4 run {stamp}"),
    ];
    let pids: Vec<u32> = parse_process_table(&lines, 3).into_iter().map(|p| p.pid).collect();
    assert_eq!(pids, vec![1, 4]);
}
