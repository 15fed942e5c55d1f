use vstd::prelude::*;
use vstd::string::StringExecFns;

use crate::envelope::Credential;
use crate::error::CliError;
use crate::text::trim_spec;
use crate::urls::{
    has_scheme, normalize_base_url, normalize_optional_secret, normalized_base, secret_spec,
};

verus! {

/// The validated configuration of a gateway client: a normalized base
/// URL and at most one credential.  The network machinery that acts on
/// it lives outside this crate; everything here is decided before any
/// I/O.
pub struct HttpGatewayClient {
    pub base_url: String,
    pub auth_token: Option<String>,
    pub auth_password: Option<String>,
}

impl HttpGatewayClient {
    /// The invariant every constructed client carries: a scheme-bearing
    /// base URL without trailing slash material, and never both
    /// credentials at once.
    pub open spec fn wf(&self) -> bool {
        &&& has_scheme(self.base_url@)
        &&& !(self.auth_token is Some && self.auth_password is Some)
    }

    /// A client without credentials.
    pub fn new(base_url: String) -> (r: Result<HttpGatewayClient, CliError>)
        ensures
            ({
                let w = normalized_base(base_url@);
                if trim_spec(base_url@).len() == 0 || !has_scheme(w) {
                    r matches Err(e) && e is InvalidServer
                } else {
                    r matches Ok(c) && c.base_url@ == w && c.auth_token is None
                        && c.auth_password is None && c.wf()
                }
            }),
    {
        Self::new_with_auth(base_url, Option::None, Option::None)
    }

    /// Validates the whole configuration: the base URL is normalized,
    /// both secrets are trimmed, and a token together with a password is
    /// refused — all before any network activity.
    pub fn new_with_auth(
        base_url: String,
        auth_token: Option<String>,
        auth_password: Option<String>,
    ) -> (r: Result<HttpGatewayClient, CliError>)
        ensures
            ({
                let w = normalized_base(base_url@);
                if trim_spec(base_url@).len() == 0 || !has_scheme(w) {
                    r matches Err(e) && e is InvalidServer
                } else if secret_spec(auth_token) is Some && secret_spec(auth_password) is Some {
                    r matches Err(e) && e matches CliError::InvalidAuth(m) && m@
                        == "provide only one of --auth-token or --auth-password"@
                } else {
                    r matches Ok(c) && c.base_url@ == w && (match c.auth_token {
                        Some(x) => secret_spec(auth_token) == Option::Some(x@),
                        None => secret_spec(auth_token) is None,
                    }) && (match c.auth_password {
                        Some(x) => secret_spec(auth_password) == Option::Some(x@),
                        None => secret_spec(auth_password) is None,
                    }) && c.wf()
                }
            }),
    {
        let base_url = match normalize_base_url(base_url) {
            Ok(u) => u,
            Err(e) => {
                return Err(e);
            },
        };
        let auth_token = normalize_optional_secret(auth_token);
        let auth_password = normalize_optional_secret(auth_password);
        if auth_token.is_some() && auth_password.is_some() {
            return Err(
                CliError::InvalidAuth(
                    String::from_str("provide only one of --auth-token or --auth-password"),
                ),
            );
        }
        Ok(HttpGatewayClient { base_url, auth_token, auth_password })
    }

    /// The credential this client presents during the handshake.
    pub fn credential(&self) -> (r: Credential)
        ensures
            self.auth_token matches Some(t) ==> (r matches Credential::Token(x) && x@ == t@),
            self.auth_password matches Some(p) ==> (self.auth_token is Some || (r
                matches Credential::Password(x) && x@ == p@)),
            self.auth_token is None && self.auth_password is None ==> r is Anonymous,
    {
        match &self.auth_token {
            Option::Some(t) => Credential::Token(t.clone()),
            Option::None => match &self.auth_password {
                Option::Some(p) => Credential::Password(p.clone()),
                Option::None => Credential::Anonymous,
            },
        }
    }
}

} // verus!
