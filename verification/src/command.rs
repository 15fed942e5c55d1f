use vstd::prelude::*;
use vstd::string::StringExecFns;

use crate::error::CliError;
use crate::json::{parse_json, parse_spec, JsonValue};

verus! {

/// The command-line surface this core serves.  Argument parsing itself
/// belongs to the excluded CLI layer; these are its plain values.
#[derive(Debug, Clone)]
pub struct CliArgs {
    pub server: String,
    pub auth_token: Option<String>,
    pub auth_password: Option<String>,
    pub json: bool,
    pub command: CliCommand,
}

#[derive(Debug, Clone)]
pub enum CliCommand {
    /// Query /healthz and assert ok=true.
    Health,
    /// Query /info.
    Info,
    /// Invoke a JSON-RPC method over WebSocket RPC.
    Rpc { method: String, params: String },
}

/// The three operations a gateway offers.  Implementations own the
/// transport; this crate states only their shape.
pub trait GatewayClient {
    fn healthz(&self) -> Result<JsonValue, CliError>;

    fn info(&self) -> Result<JsonValue, CliError>;

    fn rpc(&self, method: &str, params: JsonValue) -> Result<JsonValue, CliError>;
}

/// Parses caller-supplied RPC params, which must be a JSON object;
/// anything else is refused before any network activity.
pub fn parse_params(raw: &str) -> (r: Result<JsonValue, CliError>)
    ensures
        match parse_spec(raw@) {
            Option::Some(v) => if v is Obj {
                r matches Result::Ok(p) && p@ == v
            } else {
                r matches Result::Err(e) && e matches CliError::InvalidParams(m) && m@
                    == "params JSON must be an object"@
            },
            Option::None => r matches Result::Err(e) && e matches CliError::InvalidParams(m) && m@
                == "invalid params JSON"@,
        },
{
    match parse_json(raw) {
        Option::Some(parsed) => {
            if parsed.is_object() {
                Result::Ok(parsed)
            } else {
                Result::Err(
                    CliError::InvalidParams(String::from_str("params JSON must be an object")),
                )
            }
        },
        Option::None => Result::Err(
            CliError::InvalidParams(String::from_str("invalid params JSON")),
        ),
    }
}

/// Judges a healthz payload: it must carry `ok` equal to `true`.
pub fn check_health_payload(payload: JsonValue) -> (r: Result<JsonValue, CliError>)
    ensures
        payload@.field_bool("ok"@) == Option::Some(true) ==> (r matches Result::Ok(p) && p
            == payload),
        payload@.field_bool("ok"@) != Option::Some(true) ==> (r matches Result::Err(e) && e
            matches CliError::Protocol(m) && m@ == "healthz response missing ok=true"@),
{
    let is_ok = match payload.get("ok") {
        Option::Some(v) => match v.as_bool() {
            Option::Some(b) => b,
            Option::None => false,
        },
        Option::None => false,
    };
    if is_ok {
        Result::Ok(payload)
    } else {
        Result::Err(CliError::Protocol(String::from_str("healthz response missing ok=true")))
    }
}

/// Dispatches one command against a gateway client.  Params that are
/// not a JSON object are refused here, before the client is consulted;
/// everything else is the client's answer, with the health check
/// applied on top for `Health`.
pub fn run_with_client<C: GatewayClient>(args: &CliArgs, client: &C) -> (r: Result<
    JsonValue,
    CliError,
>)
    ensures
        (args.command matches CliCommand::Rpc { method, params } && !(parse_spec(params@)
            matches Option::Some(v) && v is Obj)) ==> (r matches Result::Err(e)
            && e is InvalidParams),
{
    match &args.command {
        CliCommand::Health => {
            match client.healthz() {
                Result::Ok(payload) => check_health_payload(payload),
                Result::Err(e) => Result::Err(e),
            }
        },
        CliCommand::Info => client.info(),
        CliCommand::Rpc { method, params } => {
            match parse_params(params.as_str()) {
                Result::Ok(p) => client.rpc(method.as_str(), p),
                Result::Err(e) => Result::Err(e),
            }
        },
    }
}

} // verus!
