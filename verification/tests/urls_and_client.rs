use reclaw_cli::{
    normalize_base_url, normalize_optional_secret, normalize_path, websocket_url, CliError,
    HttpGatewayClient,
};

#[test]
fn normalize_base_url_rejects_empty_input() {
    let result = normalize_base_url("   ".to_owned());
    assert!(result.is_err());
}

#[test]
fn normalize_base_url_rejects_invalid_scheme() {
    let result = normalize_base_url("ws://localhost".to_owned());
    assert!(result.is_err());
}

#[test]
fn normalize_base_url_strips_whitespace_and_trailing_slash() {
    let result = normalize_base_url("  http://example.com/  ".to_owned()).unwrap();
    assert_eq!(result, "http://example.com");
    let kept = normalize_base_url("https://example.com".to_owned()).unwrap();
    assert_eq!(kept, "https://example.com");
}

#[test]
fn normalize_base_url_error_messages_name_the_fault() {
    match normalize_base_url("".to_owned()) {
        Err(CliError::InvalidServer(m)) => assert_eq!(m, "server URL cannot be empty"),
        other => panic!("expected InvalidServer, got {other:?}"),
    }
    match normalize_base_url("ftp://x".to_owned()) {
        Err(CliError::InvalidServer(m)) => {
            assert_eq!(m, "server URL must start with http:// or https://")
        }
        other => panic!("expected InvalidServer, got {other:?}"),
    }
}

#[test]
fn websocket_url_maps_http_to_ws() {
    assert_eq!(
        websocket_url("http://127.0.0.1:18789"),
        "ws://127.0.0.1:18789/ws"
    );
    assert_eq!(websocket_url("https://example.com"), "wss://example.com/ws");
}

#[test]
fn normalize_optional_secret_trims_and_drops_blank_values() {
    assert_eq!(
        normalize_optional_secret(Some("  token-123  ".to_owned())).as_deref(),
        Some("token-123")
    );
    assert!(normalize_optional_secret(Some("   ".to_owned())).is_none());
    assert!(normalize_optional_secret(None).is_none());
}

#[test]
fn normalize_path_prefixes_a_slash() {
    assert_eq!(normalize_path("healthz"), "/healthz");
    assert_eq!(normalize_path("/healthz"), "/healthz");
}

#[test]
fn constructor_rejects_token_and_password_together() {
    let result = HttpGatewayClient::new_with_auth(
        "http://127.0.0.1:18789".to_owned(),
        Some("token-a".to_owned()),
        Some("password-b".to_owned()),
    );

    assert!(matches!(result, Err(CliError::InvalidAuth(_))));
}

#[test]
fn constructor_normalizes_base_url_and_secrets() {
    let client = HttpGatewayClient::new_with_auth(
        " http://127.0.0.1:18789/ ".to_owned(),
        Some("  token-123 ".to_owned()),
        Some("   ".to_owned()),
    )
    .unwrap();
    assert_eq!(client.base_url, "http://127.0.0.1:18789");
    assert_eq!(client.auth_token.as_deref(), Some("token-123"));
    assert!(client.auth_password.is_none());
}

#[test]
fn constructor_rejects_bad_server_before_auth_check() {
    let result = HttpGatewayClient::new_with_auth(
        "   ".to_owned(),
        Some("token-a".to_owned()),
        Some("password-b".to_owned()),
    );
    assert!(matches!(result, Err(CliError::InvalidServer(_))));
}

#[test]
fn error_describe_names_the_category() {
    let e = CliError::InvalidAuth("both supplied".to_owned());
    assert_eq!(e.describe(), "invalid auth options: both supplied");
    let t = CliError::Transport("connection refused".to_owned());
    assert_eq!(t.describe(), "transport failure: connection refused");
}

#[test]
fn normalize_base_url_trims_unicode_whitespace() {
    let result = normalize_base_url("\u{00A0}http://x\u{2003}".to_owned()).unwrap();
    assert_eq!(result, "http://x");
}
