use sidecar::stamp::{read_flag, read_stamp, Stamp, STAMP_APP_FLAG, STAMP_NAMESPACE_FLAG};

#[test]
fn args_emit_canonical_flags() {
    let stamp = Stamp {
        app: "controller".into(),
        namespace: "default".into(),
        mode: "dev".into(),
        source: "tool:sidecar".into(),
    };
    let args = stamp.args();
    assert_eq!(args[0], "--sidecar-stamp-app=controller");
    assert_eq!(args[1], "--sidecar-stamp-namespace=default");
    assert_eq!(args[2], "--sidecar-stamp-mode=dev");
    assert_eq!(args[3], "--sidecar-stamp-source=tool:sidecar");
}

#[test]
fn read_flag_supports_inline_and_separated_forms() {
    let inline = vec!["--sidecar-stamp-app=api".to_string()];
    assert_eq!(read_flag(&inline, STAMP_APP_FLAG).as_deref(), Some("api"));

    let separated = vec![
        "--sidecar-stamp-namespace".to_string(),
        "design".to_string(),
    ];
    assert_eq!(
        read_flag(&separated, STAMP_NAMESPACE_FLAG).as_deref(),
        Some("design")
    );
}

#[test]
fn read_stamp_requires_all_four_flags() {
    let partial = vec!["--sidecar-stamp-app=api".to_string()];
    assert!(read_stamp(&partial).is_none());

    let full = vec![
        "--sidecar-stamp-app=api".into(),
        "--sidecar-stamp-namespace=default".into(),
        "--sidecar-stamp-mode=dev".into(),
        "--sidecar-stamp-source=tool:sidecar".into(),
    ];
    let stamp = read_stamp(&full).unwrap();
    assert_eq!(stamp.app, "api");
    assert_eq!(stamp.source, "tool:sidecar");
}

#[test]
fn stamp_args_read_back_as_the_same_stamp() {
    let stamp = Stamp {
        app: "api server".into(),
        namespace: "--sidecar-stamp-mode=x".into(),
        mode: "".into(),
        source: "tool:sidecar".into(),
    };
    assert_eq!(read_stamp(&stamp.args()), Some(stamp));
}

#[test]
fn read_flag_takes_the_first_occurrence() {
    let args = vec![
        "--other".to_string(),
        "--sidecar-stamp-app=first".to_string(),
        "--sidecar-stamp-app".to_string(),
        "second".to_string(),
    ];
    assert_eq!(read_flag(&args, STAMP_APP_FLAG).as_deref(), Some("first"));
}

#[test]
fn read_flag_without_a_following_value_is_none() {
    let args = vec!["--sidecar-stamp-app".to_string()];
    assert_eq!(read_flag(&args, STAMP_APP_FLAG), None);
    let prefixed = vec!["--sidecar-stamp-application=x".to_string()];
    assert_eq!(read_flag(&prefixed, STAMP_APP_FLAG), None);
}
