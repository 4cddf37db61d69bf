use sidecar::commands::{
    check_not_running, idle_notice, resolve_cwd, resolve_inspect_endpoint, select_targets,
    stop_notice,
};
use sidecar::plan::{ExecutionPlan, SidecarPlan};
use sidecar::socket::SocketEndpoint;
use sidecar::stamp::Stamp;

fn sidecar(name: &str, socket: Option<&str>) -> SidecarPlan {
    SidecarPlan {
        name: name.into(),
        command: "cmd".into(),
        args: vec![],
        cwd: ".".into(),
        stamp: Stamp {
            app: name.into(),
            namespace: "default".into(),
            mode: "dev".into(),
            source: "tool:sidecar".into(),
        },
        inspect_socket: socket.map(String::from),
        health_url: None,
    }
}

fn plan(sidecars: Vec<SidecarPlan>) -> ExecutionPlan {
    ExecutionPlan {
        project: "p".into(),
        namespace: "default".into(),
        root: ".".into(),
        app: None,
        sidecars,
        inspect_endpoints: vec![],
    }
}

#[test]
fn select_targets_names_one_or_all() {
    let p = plan(vec![sidecar("api", None), sidecar("web", None)]);
    let one = select_targets(&p, Some("web")).unwrap();
    assert_eq!(one.len(), 1);
    assert_eq!(one[0].name, "web");
    let all = select_targets(&p, None).unwrap();
    assert_eq!(all.iter().map(|s| s.name.as_str()).collect::<Vec<_>>(), vec!["api", "web"]);
    assert_eq!(
        select_targets(&p, Some("db")).unwrap_err(),
        "unknown sidecar `db` in this manifest"
    );
    assert_eq!(select_targets(&plan(vec![]), None).unwrap_err(), "manifest declares no sidecars");
}

#[test]
fn resolve_cwd_joins_relative_dirs_to_the_manifest_dir() {
    assert_eq!(resolve_cwd(false, Some("/proj"), "backend"), "/proj/backend");
    assert_eq!(resolve_cwd(false, Some("/proj"), "/abs"), "/abs");
    assert_eq!(resolve_cwd(false, None, "backend"), "backend");
    assert_eq!(resolve_cwd(false, Some(""), "backend"), "backend");
}

#[test]
fn resolve_cwd_follows_windows_paths() {
    assert_eq!(resolve_cwd(true, Some("C:\\proj"), "backend"), "C:\\proj\\backend");
    assert_eq!(resolve_cwd(true, Some("C:\\proj"), "D:\\abs"), "D:\\abs");
    assert_eq!(resolve_cwd(true, Some("C:\\proj"), "\\abs"), "C:\\abs");
    assert_eq!(resolve_cwd(true, Some("C:\\proj"), "/abs"), "C:/abs");
    assert_eq!(resolve_cwd(true, None, "\\abs"), "\\abs");
}

#[test]
fn inspect_endpoint_comes_from_the_named_sidecar() {
    let p = plan(vec![
        sidecar("api", Some("unix:///tmp/api.sock")),
        sidecar("web", None),
        sidecar("bad", Some("api.sock")),
    ]);
    assert_eq!(
        resolve_inspect_endpoint(&p, "api"),
        Ok(SocketEndpoint::Unix("/tmp/api.sock".into()))
    );
    assert_eq!(
        resolve_inspect_endpoint(&p, "web").unwrap_err(),
        "sidecar `web` has no inspect_socket configured in this manifest"
    );
    assert_eq!(
        resolve_inspect_endpoint(&p, "x").unwrap_err(),
        "unknown sidecar `x` in this manifest"
    );
    assert!(resolve_inspect_endpoint(&p, "bad").unwrap_err().contains("unix:///path.sock"));
}

fn running(pid: u32) -> sidecar::process::StampedProcess {
    sidecar::process::StampedProcess {
        pid,
        command: "cmd".into(),
        stamp: sidecar("api", None).stamp,
    }
}

#[test]
fn start_is_refused_while_running() {
    assert!(check_not_running("api", &[]).is_ok());
    assert_eq!(
        check_not_running("api", &[running(77), running(78)]).unwrap_err(),
        "sidecar `api` is already running (pid 77); run `sidecar stop` first"
    );
}

#[test]
fn stop_and_reset_notices() {
    assert_eq!(stop_notice(0, None).as_deref(), Some("no sidecars were running"));
    assert_eq!(stop_notice(0, Some("api")), None);
    assert_eq!(stop_notice(2, None), None);
    assert_eq!(idle_notice("api", &[], false).as_deref(), Some("not running: api"));
    assert_eq!(
        idle_notice("default", &[], true).as_deref(),
        Some("namespace `default` has no stamped processes")
    );
    assert_eq!(idle_notice("api", &[running(1)], false), None);
}
