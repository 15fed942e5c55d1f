use reclaw_cli::json::{parse_json, to_json_string, JsonValue};
use reclaw_cli::{run_with_client, CliArgs, CliCommand, CliError, GatewayClient};

struct StaticClient;

impl GatewayClient for StaticClient {
    fn healthz(&self) -> Result<JsonValue, CliError> {
        Ok(parse_json(r#"{"ok":true}"#).unwrap())
    }

    fn info(&self) -> Result<JsonValue, CliError> {
        Ok(parse_json(r#"{"runtime":"reclaw-core"}"#).unwrap())
    }

    fn rpc(&self, method: &str, params: JsonValue) -> Result<JsonValue, CliError> {
        let text = format!(
            r#"{{"method":"{}","params":{}}}"#,
            method,
            to_json_string(&params)
        );
        Ok(parse_json(&text).unwrap())
    }
}

struct MockClient {
    healthz_response: Option<JsonValue>,
    info_response: Option<JsonValue>,
    rpc_response: Option<JsonValue>,
}

impl GatewayClient for MockClient {
    fn healthz(&self) -> Result<JsonValue, CliError> {
        match &self.healthz_response {
            Some(v) => Ok(parse_json(&to_json_string(v)).unwrap()),
            None => Err(CliError::Transport(
                "healthz response fixture missing".to_owned(),
            )),
        }
    }

    fn info(&self) -> Result<JsonValue, CliError> {
        match &self.info_response {
            Some(v) => Ok(parse_json(&to_json_string(v)).unwrap()),
            None => Err(CliError::Transport(
                "info response fixture missing".to_owned(),
            )),
        }
    }

    fn rpc(&self, _method: &str, _params: JsonValue) -> Result<JsonValue, CliError> {
        match &self.rpc_response {
            Some(v) => Ok(parse_json(&to_json_string(v)).unwrap()),
            None => Err(CliError::Transport(
                "rpc response fixture missing".to_owned(),
            )),
        }
    }
}

fn args_for(command: CliCommand, json: bool) -> CliArgs {
    CliArgs {
        server: "http://127.0.0.1:18789".to_owned(),
        auth_token: None,
        auth_password: None,
        json,
        command,
    }
}

#[test]
fn rpc_command_accepts_object_params() {
    let args = args_for(
        CliCommand::Rpc {
            method: "system.healthz".to_owned(),
            params: "{\"scope\":\"node\"}".to_owned(),
        },
        false,
    );

    let output = run_with_client(&args, &StaticClient).expect("rpc should succeed");
    let scope = output
        .get("params")
        .and_then(|p| p.get("scope"))
        .and_then(|s| s.as_str())
        .map(|s| s.as_str());
    assert_eq!(scope, Some("node"));
}

#[test]
fn rpc_command_rejects_invalid_json() {
    let args = args_for(
        CliCommand::Rpc {
            method: "system.healthz".to_owned(),
            params: "{invalid".to_owned(),
        },
        false,
    );

    let result = run_with_client(&args, &StaticClient);
    assert!(matches!(result, Err(CliError::InvalidParams(_))));
}

#[test]
fn health_command_requires_ok_true() {
    let args = args_for(CliCommand::Health, false);

    let client = MockClient {
        healthz_response: Some(parse_json(r#"{"ok":false}"#).unwrap()),
        info_response: None,
        rpc_response: None,
    };

    let result = run_with_client(&args, &client);
    assert!(matches!(result, Err(CliError::Protocol(_))));
}

#[test]
fn info_command_returns_payload() {
    let args = args_for(CliCommand::Info, true);

    let client = MockClient {
        healthz_response: None,
        info_response: Some(parse_json(r#"{"runtime":"reclaw-core"}"#).unwrap()),
        rpc_response: None,
    };

    let output = run_with_client(&args, &client).expect("info command should succeed");
    assert_eq!(
        output.get("runtime").and_then(|r| r.as_str()).map(|s| s.as_str()),
        Some("reclaw-core")
    );
}

#[test]
fn rpc_command_rejects_non_object_params() {
    let args = args_for(
        CliCommand::Rpc {
            method: "system.healthz".to_owned(),
            params: "[]".to_owned(),
        },
        true,
    );

    let client = MockClient {
        healthz_response: None,
        info_response: None,
        rpc_response: Some(parse_json(r#"{"result":{}}"#).unwrap()),
    };

    let result = run_with_client(&args, &client);
    assert!(matches!(result, Err(CliError::InvalidParams(_))));
}

#[test]
fn health_command_passes_payload_through_on_success() {
    let args = args_for(CliCommand::Health, false);
    let output = run_with_client(&args, &StaticClient).expect("health should succeed");
    assert_eq!(output.get("ok").and_then(|b| b.as_bool()), Some(true));
}
