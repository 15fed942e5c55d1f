use vstd::prelude::*;
use vstd::string::StringExecFns;

verus! {

/// Typed failures of the gateway client, ordered from configuration
/// mistakes (detected before any network activity) to wire-level faults.
#[derive(Debug)]
pub enum CliError {
    /// Malformed or empty base URL, or a scheme other than http/https.
    InvalidServer(String),
    /// Connect, send or read failure at the socket or HTTP layer.
    Transport(String),
    /// Well-formed transport but invalid or unexpected content.
    Protocol(String),
    /// Caller-supplied RPC params are not valid JSON or not a JSON object.
    InvalidParams(String),
    /// Both a token and a password were supplied.
    InvalidAuth(String),
}

impl CliError {
    /// The detail message carried by the error.
    pub open spec fn spec_detail(&self) -> Seq<char> {
        match *self {
            CliError::InvalidServer(ref m) => m@,
            CliError::Transport(ref m) => m@,
            CliError::Protocol(ref m) => m@,
            CliError::InvalidParams(ref m) => m@,
            CliError::InvalidAuth(ref m) => m@,
        }
    }

    pub fn detail(&self) -> (r: &String)
        ensures
            r@ == self.spec_detail(),
    {
        match self {
            CliError::InvalidServer(m) => m,
            CliError::Transport(m) => m,
            CliError::Protocol(m) => m,
            CliError::InvalidParams(m) => m,
            CliError::InvalidAuth(m) => m,
        }
    }

    /// A full description in the shape `<category>: <detail>`.
    pub fn describe(&self) -> (r: String)
        ensures
            r@ == self.spec_describe(),
    {
        let head = match self {
            CliError::InvalidServer(_) => "invalid server URL: ",
            CliError::Transport(_) => "transport failure: ",
            CliError::Protocol(_) => "protocol error: ",
            CliError::InvalidParams(_) => "invalid rpc params: ",
            CliError::InvalidAuth(_) => "invalid auth options: ",
        };
        String::from_str(head).concat(self.detail().as_str())
    }

    pub open spec fn spec_describe(&self) -> Seq<char> {
        (match *self {
            CliError::InvalidServer(_) => "invalid server URL: "@,
            CliError::Transport(_) => "transport failure: "@,
            CliError::Protocol(_) => "protocol error: "@,
            CliError::InvalidParams(_) => "invalid rpc params: "@,
            CliError::InvalidAuth(_) => "invalid auth options: "@,
        }) + self.spec_detail()
    }
}

} // verus!
