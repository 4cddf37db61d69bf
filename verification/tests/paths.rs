use sidecar::paths::{
    is_absolute_path, join_path, resolve_data_home, resolve_data_paths, DataHomeEnv,
};

fn clean_env() -> DataHomeEnv {
    DataHomeEnv {
        sidecar_data_home: None,
        xdg_data_home: None,
        home: Some("/tmp/fake-home".into()),
        local_app_data: None,
        user_profile: None,
        windows: false,
    }
}

#[test]
fn cli_override_wins() {
    let mut env = clean_env();
    env.sidecar_data_home = Some("/from/env".into());
    let paths = resolve_data_paths("default", Some("/from/cli"), None, &env);
    assert_eq!(paths.root, "/from/cli");
    assert_eq!(paths.state, "/from/cli/state");
    assert_eq!(paths.project, "/from/cli/projects/default");
}

#[test]
fn env_beats_default() {
    let mut env = clean_env();
    env.sidecar_data_home = Some("/from/env".into());
    let paths = resolve_data_paths("staging", None, None, &env);
    assert_eq!(paths.root, "/from/env");
    assert_eq!(paths.project, "/from/env/projects/staging");
}

#[test]
fn xdg_default_used_when_set() {
    let mut env = clean_env();
    env.xdg_data_home = Some("/xdg/data".into());
    let paths = resolve_data_paths("default", None, None, &env);
    assert_eq!(paths.root, "/xdg/data/sidecar");
}

#[test]
fn home_default_used_without_xdg() {
    let paths = resolve_data_paths("default", None, None, &clean_env());
    assert_eq!(paths.root, "/tmp/fake-home/.local/share/sidecar");
}

#[test]
fn manifest_data_dir_replaces_project_subdir_only() {
    let mut env = clean_env();
    env.sidecar_data_home = Some("/from/env".into());
    let paths = resolve_data_paths("default", None, Some("/elsewhere/proj"), &env);
    assert_eq!(paths.root, "/from/env");
    assert_eq!(paths.state, "/from/env/state");
    assert_eq!(paths.project, "/elsewhere/proj");
}

#[test]
fn empty_env_values_fall_through() {
    let mut env = clean_env();
    env.sidecar_data_home = Some("".into());
    env.xdg_data_home = Some("".into());
    assert_eq!(resolve_data_home(None, &env), "/tmp/fake-home/.local/share/sidecar");
    env.home = None;
    assert_eq!(resolve_data_home(None, &env), "sidecar");
}

#[test]
fn windows_defaults() {
    let mut env = clean_env();
    env.windows = true;
    assert_eq!(resolve_data_home(None, &env), "sidecar");
    env.user_profile = Some("C:\\Users\\me".into());
    assert_eq!(resolve_data_home(None, &env), "C:\\Users\\me\\AppData/Local/sidecar");
    env.local_app_data = Some("C:\\Users\\me\\AppData\\Local".into());
    assert_eq!(resolve_data_home(None, &env), "C:\\Users\\me\\AppData\\Local\\sidecar");
    let paths = resolve_data_paths("default", None, None, &env);
    assert_eq!(paths.state, "C:\\Users\\me\\AppData\\Local\\sidecar\\state");
    assert_eq!(
        paths.project,
        "C:\\Users\\me\\AppData\\Local\\sidecar\\projects\\default"
    );
}

#[test]
fn join_path_follows_path_join() {
    assert_eq!(join_path(false, "/a", "b"), "/a/b");
    assert_eq!(join_path(false, "/a/", "b"), "/a/b");
    assert_eq!(join_path(false, "", "b"), "b");
    assert_eq!(join_path(false, "/a", "/b"), "/b");
    assert_eq!(join_path(false, "/a", "C:b"), "/a/C:b");
    assert_eq!(join_path(false, "a\\", "b"), "a\\/b");
    assert_eq!(
        std::path::Path::new("/a").join("/b").to_str().unwrap(),
        join_path(false, "/a", "/b")
    );
    assert_eq!(
        std::path::Path::new("/a").join("b").to_str().unwrap(),
        join_path(false, "/a", "b")
    );
}

#[test]
fn windows_join_path_follows_path_join() {
    assert_eq!(join_path(true, "C:\\a", "b"), "C:\\a\\b");
    assert_eq!(join_path(true, "C:\\a/", "b"), "C:\\a/b");
    assert_eq!(join_path(true, "C:", "b"), "C:b");
    assert_eq!(join_path(true, "C:\\a", "\\b"), "C:\\b");
    assert_eq!(join_path(true, "C:\\a", "/b"), "C:/b");
    assert_eq!(join_path(true, "C:\\a", "D:\\b"), "D:\\b");
    assert_eq!(join_path(true, "C:\\a", "D:b"), "D:b");
    assert_eq!(join_path(true, "\\\\srv\\share\\x", "\\y"), "\\\\srv\\share\\y");
    assert_eq!(join_path(true, "C:\\a", "\\\\srv\\share"), "\\\\srv\\share");
    assert_eq!(join_path(true, "a", "\\\\srv"), "\\\\srv");
    assert_eq!(join_path(true, "", "b"), "b");
}

#[test]
fn absolute_paths_by_platform() {
    assert!(is_absolute_path(false, "/x"));
    assert!(!is_absolute_path(false, "x"));
    assert!(!is_absolute_path(false, "C:\\x"));
    assert!(is_absolute_path(true, "C:\\x"));
    assert!(is_absolute_path(true, "C:/x"));
    assert!(!is_absolute_path(true, "C:x"));
    assert!(!is_absolute_path(true, "\\x"));
    assert!(!is_absolute_path(true, "/x"));
    assert!(is_absolute_path(true, "\\\\srv\\share"));
}
