use reclaw_cli::envelope::{build_connect_envelope, ClientIdentity, Credential};
use reclaw_cli::http::evaluate_http_response;
use reclaw_cli::json::{parse_json, to_json_string, JsonValue};
use reclaw_cli::session::{
    evaluate_response, read_response_payload, run_exchange, session_step, SessionEvent,
    SessionState, WsFrame,
};
use reclaw_cli::CliError;

fn text(frame: &str) -> WsFrame {
    WsFrame::Text(frame.to_owned())
}

fn connect_ack() -> WsFrame {
    text(r#"{"type":"res","id":"connect-1","ok":true,"payload":{"type":"hello-ok"}}"#)
}

#[test]
fn json_round_trip_keeps_the_document() {
    let source = r#"{"a":[1,2.5,-3e2],"b":"x\n\"y\\","c":{"d":null,"e":true,"f":false}}"#;
    let value = parse_json(source).expect("document should parse");
    let written = to_json_string(&value);
    let again = parse_json(&written).expect("written form should parse");
    assert_eq!(written, to_json_string(&again));
}

#[test]
fn json_parser_handles_escapes_and_rejects_malformed_text() {
    let value = parse_json(r#""a\u0041\ud83d\ude00b""#).expect("escapes should parse");
    match value {
        JsonValue::Str(s) => assert_eq!(s, "aA\u{1F600}b"),
        other => panic!("expected string, got {:?}", to_json_string(&other)),
    }
    assert!(parse_json("{invalid").is_none());
    assert!(parse_json("").is_none());
    assert!(parse_json("01").is_none());
    assert!(parse_json("{\"a\":1,}").is_none());
    assert!(parse_json("\"\\ud83d\"").is_none());
}

#[test]
fn json_serializer_writes_canonical_text() {
    let value = parse_json(" { \"k\" : [ true , null ] } ").expect("document should parse");
    assert_eq!(to_json_string(&value), r#"{"k":[true,null]}"#);
    let quote = JsonValue::Str("a\"b\\c\u{0001}".to_owned());
    assert_eq!(to_json_string(&quote), r#""a\"b\\c\u0001""#);
}

#[test]
fn evaluate_response_extracts_payload_and_errors() {
    let ok = parse_json(r#"{"type":"res","id":"rpc-1","ok":true,"payload":{"n":7}}"#).unwrap();
    match evaluate_response(ok, "rpc-1") {
        Some(Ok(p)) => assert_eq!(to_json_string(&p), r#"{"n":7}"#),
        other => panic!("expected payload, got {other:?}"),
    }

    let missing_payload = parse_json(r#"{"type":"res","id":"rpc-1","ok":true}"#).unwrap();
    match evaluate_response(missing_payload, "rpc-1") {
        Some(Ok(p)) => assert_eq!(to_json_string(&p), "null"),
        other => panic!("expected null payload, got {other:?}"),
    }

    let wrong_id = parse_json(r#"{"type":"res","id":"rpc-2","ok":true}"#).unwrap();
    assert!(evaluate_response(wrong_id, "rpc-1").is_none());

    let wrong_type = parse_json(r#"{"type":"event","id":"rpc-1","ok":true}"#).unwrap();
    assert!(evaluate_response(wrong_type, "rpc-1").is_none());
}

#[test]
fn failed_response_uses_error_message_with_generic_fallback() {
    let with_message = parse_json(
        r#"{"type":"res","id":"rpc-1","ok":false,"error":{"code":"INVALID_REQUEST","message":"bad params"}}"#,
    )
    .unwrap();
    match evaluate_response(with_message, "rpc-1") {
        Some(Err(CliError::Protocol(m))) => assert!(m.contains("bad params")),
        other => panic!("expected protocol error, got {other:?}"),
    }

    let without_message = parse_json(r#"{"type":"res","id":"rpc-1","ok":false}"#).unwrap();
    match evaluate_response(without_message, "rpc-1") {
        Some(Err(CliError::Protocol(m))) => assert_eq!(m, "rpc request failed"),
        other => panic!("expected protocol error, got {other:?}"),
    }
}

#[test]
fn reader_skips_unrelated_frames_until_match() {
    let frames = vec![
        text(r#"{"type":"event","id":"rpc-1","ok":true}"#),
        text(r#"{"type":"res","id":"other","ok":true}"#),
        WsFrame::Pong(vec![1]),
        WsFrame::Raw,
        text(r#"{"type":"res","id":"rpc-1","ok":true,"payload":{"done":true}}"#),
    ];
    let outcome = read_response_payload(&frames, 0, "rpc-1");
    assert_eq!(outcome.consumed, 5);
    match outcome.result {
        Ok(p) => assert_eq!(to_json_string(&p), r#"{"done":true}"#),
        other => panic!("expected payload, got {other:?}"),
    }
}

#[test]
fn reader_answers_ping_and_keeps_waiting() {
    let frames = vec![
        WsFrame::Ping(vec![9, 9]),
        text(r#"{"type":"res","id":"rpc-1","ok":true,"payload":1}"#),
    ];
    let outcome = read_response_payload(&frames, 0, "rpc-1");
    assert_eq!(outcome.pongs, vec![vec![9, 9]]);
    assert!(outcome.result.is_ok());
}

#[test]
fn reader_fails_on_close_before_response() {
    let frames = vec![WsFrame::Ping(vec![]), WsFrame::Close];
    let outcome = read_response_payload(&frames, 0, "rpc-1");
    match outcome.result {
        Err(CliError::Protocol(m)) => assert!(m.contains("closed before response")),
        other => panic!("expected protocol error, got {other:?}"),
    }
}

#[test]
fn reader_fails_on_binary_and_malformed_frames() {
    let binary = vec![WsFrame::Binary(vec![0, 1])];
    match read_response_payload(&binary, 0, "rpc-1").result {
        Err(CliError::Protocol(m)) => assert_eq!(m, "unexpected binary websocket frame"),
        other => panic!("expected protocol error, got {other:?}"),
    }
    let malformed = vec![text("{not json")];
    match read_response_payload(&malformed, 0, "rpc-1").result {
        Err(CliError::Protocol(m)) => assert_eq!(m, "invalid websocket frame JSON"),
        other => panic!("expected protocol error, got {other:?}"),
    }
    let exhausted: Vec<WsFrame> = Vec::new();
    match read_response_payload(&exhausted, 0, "rpc-1").result {
        Err(CliError::Transport(_)) => {}
        other => panic!("expected transport error, got {other:?}"),
    }
}

#[test]
fn connect_envelope_carries_token_auth_without_password() {
    let identity = ClientIdentity::operator_cli();
    let envelope = build_connect_envelope(&identity, &Credential::Token("token-123".to_owned()));
    let params = envelope.get("params").expect("params should exist");
    let auth = params.get("auth").expect("auth should exist");
    let token = auth.get("token").expect("token should exist");
    assert_eq!(token.as_str().map(|s| s.as_str()), Some("token-123"));
    assert!(auth.get("password").is_none());
    assert_eq!(
        params.get("role").and_then(|r| r.as_str()).map(|s| s.as_str()),
        Some("operator")
    );
}

#[test]
fn connect_envelope_anonymous_auth_is_null() {
    let identity = ClientIdentity::operator_cli();
    let envelope = build_connect_envelope(&identity, &Credential::Anonymous);
    let params = envelope.get("params").expect("params should exist");
    assert!(params.get("auth").expect("auth should exist").is_null());
}

#[test]
fn exchange_completes_handshake_then_returns_rpc_payload() {
    let identity = ClientIdentity::operator_cli();
    let frames = vec![
        connect_ack(),
        text(r#"{"type":"res","id":"rpc-1","ok":true,"payload":{"ok":true}}"#),
    ];
    let params = parse_json(r#"{"scope":"cli"}"#).unwrap();
    let run = run_exchange(&identity, &Credential::Anonymous, "health", params, &frames);
    assert_eq!(run.state, SessionState::Completed);
    assert_eq!(run.sent.len(), 2);
    let connect_frame = parse_json(&run.sent[0]).expect("connect frame should be JSON");
    assert_eq!(
        connect_frame.get("method").and_then(|m| m.as_str()).map(|s| s.as_str()),
        Some("connect")
    );
    let rpc_frame = parse_json(&run.sent[1]).expect("rpc frame should be JSON");
    assert_eq!(
        rpc_frame.get("id").and_then(|m| m.as_str()).map(|s| s.as_str()),
        Some("rpc-1")
    );
    assert_eq!(
        rpc_frame.get("params").and_then(|p| p.get("scope")).and_then(|s| s.as_str()).map(|s| s.as_str()),
        Some("cli")
    );
    match run.result {
        Ok(p) => assert_eq!(to_json_string(&p), r#"{"ok":true}"#),
        other => panic!("expected payload, got {other:?}"),
    }
}

#[test]
fn exchange_surfaces_gateway_error_frame() {
    let identity = ClientIdentity::operator_cli();
    let frames = vec![
        connect_ack(),
        text(
            r#"{"type":"res","id":"rpc-1","ok":false,"error":{"code":"INVALID_REQUEST","message":"bad params"}}"#,
        ),
    ];
    let params = parse_json("{}").unwrap();
    let run = run_exchange(&identity, &Credential::Anonymous, "health", params, &frames);
    assert_eq!(run.state, SessionState::Failed);
    match run.result {
        Err(CliError::Protocol(m)) => assert!(m.contains("bad params")),
        other => panic!("expected protocol error, got {other:?}"),
    }
}

#[test]
fn exchange_stops_after_failed_handshake() {
    let identity = ClientIdentity::operator_cli();
    let frames = vec![text(
        r#"{"type":"res","id":"connect-1","ok":false,"error":{"message":"denied"}}"#,
    )];
    let params = parse_json("{}").unwrap();
    let run = run_exchange(&identity, &Credential::Anonymous, "health", params, &frames);
    assert_eq!(run.sent.len(), 1, "no rpc frame may follow a failed handshake");
    assert_eq!(run.state, SessionState::Failed);
    match run.result {
        Err(CliError::Protocol(m)) => assert_eq!(m, "denied"),
        other => panic!("expected protocol error, got {other:?}"),
    }
}

#[test]
fn session_state_machine_follows_the_protocol_order() {
    let s = SessionState::Disconnected;
    let s = session_step(s, SessionEvent::ConnectSucceeded);
    assert_eq!(s, SessionState::Connected);
    let s = session_step(s, SessionEvent::HandshakeDelivered);
    assert_eq!(s, SessionState::HandshakeSent);
    let s = session_step(s, SessionEvent::ResponseMatched);
    assert_eq!(s, SessionState::HandshakeAcked);
    let s = session_step(s, SessionEvent::RequestDelivered);
    assert_eq!(s, SessionState::RequestSent);
    let s = session_step(s, SessionEvent::ResponseMatched);
    assert_eq!(s, SessionState::Completed);
    assert_eq!(
        session_step(SessionState::Connected, SessionEvent::Failure),
        SessionState::Failed
    );
    assert_eq!(
        session_step(SessionState::Disconnected, SessionEvent::ResponseMatched),
        SessionState::Failed
    );
}

#[test]
fn http_response_requires_status_200_and_json_body() {
    match evaluate_http_response("/healthz", 404, "{}") {
        Err(CliError::Protocol(m)) => assert_eq!(m, "unexpected status 404 for GET /healthz"),
        other => panic!("expected protocol error, got {other:?}"),
    }
    match evaluate_http_response("info", 200, r#"{"runtime":"reclaw-core"}"#) {
        Ok(v) => assert_eq!(
            v.get("runtime").and_then(|r| r.as_str()).map(|s| s.as_str()),
            Some("reclaw-core")
        ),
        other => panic!("expected payload, got {other:?}"),
    }
    match evaluate_http_response("/info", 200, "not json") {
        Err(CliError::Protocol(m)) => assert_eq!(m, "invalid response body JSON"),
        other => panic!("expected protocol error, got {other:?}"),
    }
}

#[test]
fn json_numbers_keep_their_source_text() {
    let value = parse_json("[1.50e+2,-0.5,0,10]").expect("numbers should parse");
    assert_eq!(to_json_string(&value), "[1.50e+2,-0.5,0,10]");
}

#[test]
fn json_parser_handles_deep_nesting() {
    let value = parse_json(r#"[[[[{"a":[1]}]]]]"#).expect("nesting should parse");
    assert_eq!(to_json_string(&value), r#"[[[[{"a":[1]}]]]]"#);
}

#[test]
fn reader_answers_every_ping_in_order() {
    let frames = vec![
        WsFrame::Ping(vec![1]),
        WsFrame::Ping(vec![2]),
        text(r#"{"type":"res","id":"rpc-1","ok":true}"#),
    ];
    let outcome = read_response_payload(&frames, 0, "rpc-1");
    assert_eq!(outcome.pongs, vec![vec![1], vec![2]]);
    assert_eq!(outcome.consumed, 3);
}
