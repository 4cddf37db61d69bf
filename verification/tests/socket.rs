use sidecar::socket::{validate_tcp_address, SocketEndpoint};

#[test]
fn parses_unix_endpoint() {
    let endpoint = SocketEndpoint::parse("unix:///tmp/tauri-dev.sock").unwrap();
    assert_eq!(
        endpoint,
        SocketEndpoint::Unix("/tmp/tauri-dev.sock".to_string())
    );
    assert_eq!(endpoint.as_endpoint(), "unix:///tmp/tauri-dev.sock");
}

#[test]
fn rejects_bare_tcp_endpoint() {
    let error = SocketEndpoint::parse("127.0.0.1:3901").unwrap_err();
    assert!(error.to_string().contains("unix:///path.sock"));
}

#[test]
fn parses_tcp_endpoint_after_trimming() {
    let endpoint = SocketEndpoint::parse("  tcp://127.0.0.1:3901\n").unwrap();
    assert_eq!(endpoint, SocketEndpoint::Tcp("127.0.0.1:3901".to_string()));
    assert_eq!(endpoint.as_endpoint(), "tcp://127.0.0.1:3901");
}

#[test]
fn endpoint_text_parses_back_to_the_endpoint() {
    for text in ["unix:///run/a.sock", "  unix:///x y.sock\t", "tcp://localhost:1"] {
        let endpoint = SocketEndpoint::parse(text).unwrap();
        assert_eq!(SocketEndpoint::parse(&endpoint.as_endpoint()), Ok(endpoint.clone()));
        assert_eq!(endpoint.as_endpoint(), text.trim());
    }
}

#[test]
fn each_refusal_has_its_message() {
    let message = |text: &str| SocketEndpoint::parse(text).unwrap_err().to_string();
    assert_eq!(message(" \t "), "socket endpoint must not be empty");
    assert_eq!(message("unix://"), "unix socket endpoint must include a path");
    assert_eq!(
        message("unix://relative.sock"),
        "unix socket endpoint must use unix:///absolute/path.sock form"
    );
    assert_eq!(message("tcp:// "), "tcp socket endpoint must include host:port");
    assert_eq!(message("tcp://"), "tcp socket endpoint must include host:port");
    assert_eq!(message("tcp://localhost"), "tcp socket endpoint must include a port");
    assert_eq!(
        message("http://x"),
        "socket endpoint must use unix:///path.sock form, or tcp://host:port on non-Unix platforms"
    );
}

#[test]
fn tcp_address_needs_host_and_port() {
    assert!(validate_tcp_address("h:1").is_ok());
    assert_eq!(
        validate_tcp_address("   ").unwrap_err().to_string(),
        "tcp socket endpoint must include host:port"
    );
    assert_eq!(
        validate_tcp_address("host").unwrap_err().to_string(),
        "tcp socket endpoint must include a port"
    );
}
