use vstd::prelude::*;
use vstd::string::StringExecFns;

use crate::json::{ser, view_obj, JsonSpec, JsonValue};

verus! {

/// The credential a session presents during the handshake.  A session
/// never holds both a token and a password; the client constructor
/// refuses such a pair before any network activity.
pub enum Credential {
    Anonymous,
    Token(String),
    Password(String),
}

/// The static descriptor sent as `params.client` during the handshake.
pub struct ClientIdentity {
    pub id: String,
    pub version: String,
    pub platform: String,
    pub mode: String,
}

/// The `auth` member of the connect envelope: exactly one of
/// `{token}`, `{password}` or null.
pub open spec fn auth_json(c: Credential) -> JsonSpec {
    match c {
        Credential::Anonymous => JsonSpec::Null,
        Credential::Token(t) => JsonSpec::Obj(seq![("token"@, JsonSpec::Str(t@))]),
        Credential::Password(p) => JsonSpec::Obj(seq![("password"@, JsonSpec::Str(p@))]),
    }
}

/// The identity descriptor as JSON.
pub open spec fn identity_json(id: ClientIdentity) -> JsonSpec {
    JsonSpec::Obj(
        seq![
            ("id"@, JsonSpec::Str(id.id@)),
            ("version"@, JsonSpec::Str(id.version@)),
            ("platform"@, JsonSpec::Str(id.platform@)),
            ("mode"@, JsonSpec::Str(id.mode@)),
        ],
    )
}

/// An outbound request envelope.
pub open spec fn req_envelope_json(id: Seq<char>, method: Seq<char>, params: JsonSpec) -> JsonSpec {
    JsonSpec::Obj(
        seq![
            ("type"@, JsonSpec::Str("req"@)),
            ("id"@, JsonSpec::Str(id)),
            ("method"@, JsonSpec::Str(method)),
            ("params"@, params),
        ],
    )
}

/// The fixed parameters of the connect request: protocol pinned to
/// version 3, role `operator`, the client identity, and the credential.
pub open spec fn connect_params_json(identity: ClientIdentity, cred: Credential) -> JsonSpec {
    JsonSpec::Obj(
        seq![
            ("minProtocol"@, JsonSpec::Num("3"@)),
            ("maxProtocol"@, JsonSpec::Num("3"@)),
            ("role"@, JsonSpec::Str("operator"@)),
            ("client"@, identity_json(identity)),
            ("auth"@, auth_json(cred)),
        ],
    )
}

/// The whole connect envelope, correlated under the fixed id
/// `connect-1`.
pub open spec fn connect_envelope_json(identity: ClientIdentity, cred: Credential) -> JsonSpec {
    req_envelope_json("connect-1"@, "connect"@, connect_params_json(identity, cred))
}

/// The call envelope, correlated under the fixed id `rpc-1`.
pub open spec fn rpc_envelope_json(method: Seq<char>, params: JsonSpec) -> JsonSpec {
    req_envelope_json("rpc-1"@, method, params)
}

/// The envelopes a session sends are correlated under the fixed ids:
/// the connect envelope is a `req` named `connect-1` calling `connect`,
/// and the call envelope is a `req` named `rpc-1` carrying the caller's
/// method and params.
pub proof fn lemma_envelope_correlation(
    identity: ClientIdentity,
    cred: Credential,
    method: Seq<char>,
    params: JsonSpec,
)
    ensures
        connect_envelope_json(identity, cred).field_str("type"@) == Option::Some("req"@),
        connect_envelope_json(identity, cred).field_str("id"@) == Option::Some("connect-1"@),
        connect_envelope_json(identity, cred).field_str("method"@) == Option::Some("connect"@),
        rpc_envelope_json(method, params).field_str("type"@) == Option::Some("req"@),
        rpc_envelope_json(method, params).field_str("id"@) == Option::Some("rpc-1"@),
        rpc_envelope_json(method, params).field_str("method"@) == Option::Some(method),
        rpc_envelope_json(method, params).get_field("params"@) == Option::Some(params),
{
    lemma_req_envelope_fields("connect-1"@, "connect"@, connect_params_json(identity, cred));
    lemma_req_envelope_fields("rpc-1"@, method, params);
}

proof fn lemma_req_envelope_fields(id: Seq<char>, method: Seq<char>, params: JsonSpec)
    ensures
        req_envelope_json(id, method, params).field_str("type"@) == Option::Some("req"@),
        req_envelope_json(id, method, params).field_str("id"@) == Option::Some(id),
        req_envelope_json(id, method, params).field_str("method"@) == Option::Some(method),
        req_envelope_json(id, method, params).get_field("params"@) == Option::Some(params),
{
    reveal_strlit("type");
    reveal_strlit("id");
    reveal_strlit("method");
    reveal_strlit("params");
    assert("type"@.len() == 4 && "id"@.len() == 2 && "method"@.len() == 6 && "params"@.len() == 6);
    assert("method"@[0] == 'm' && "params"@[0] == 'p');
    let fs = req_envelope_json(id, method, params)->Obj_0;
    assert(crate::json::lookup_from(fs, "id"@, 1) == Option::Some(JsonSpec::Str(id)));
    assert(crate::json::lookup_from(fs, "method"@, 2) == Option::Some(JsonSpec::Str(method)));
    assert(crate::json::lookup_from(fs, "method"@, 1) == Option::Some(JsonSpec::Str(method)));
    assert(crate::json::lookup_from(fs, "params"@, 3) == Option::Some(params));
    assert(crate::json::lookup_from(fs, "params"@, 2) == Option::Some(params));
    assert(crate::json::lookup_from(fs, "params"@, 1) == Option::Some(params));
}

/// The connect request's parameters carry the fixed role, the client
/// identity and the configured credential under their own members.
pub proof fn lemma_connect_params_fields(identity: ClientIdentity, cred: Credential)
    ensures
        connect_params_json(identity, cred).field_str("role"@) == Option::Some("operator"@),
        connect_params_json(identity, cred).get_field("client"@) == Option::Some(
            identity_json(identity),
        ),
        connect_params_json(identity, cred).get_field("auth"@) == Option::Some(auth_json(cred)),
{
    reveal_strlit("minProtocol");
    reveal_strlit("maxProtocol");
    reveal_strlit("role");
    reveal_strlit("client");
    reveal_strlit("auth");
    assert("minProtocol"@.len() == 11 && "maxProtocol"@.len() == 11 && "role"@.len() == 4
        && "client"@.len() == 6 && "auth"@.len() == 4);
    assert("role"@[0] == 'r' && "auth"@[0] == 'a');
    let fs = connect_params_json(identity, cred)->Obj_0;
    assert(crate::json::lookup_from(fs, "role"@, 2) == Option::Some(JsonSpec::Str("operator"@)));
    assert(crate::json::lookup_from(fs, "role"@, 1) == Option::Some(JsonSpec::Str("operator"@)));
    assert(crate::json::lookup_from(fs, "client"@, 3) == Option::Some(identity_json(identity)));
    assert(crate::json::lookup_from(fs, "client"@, 2) == Option::Some(identity_json(identity)));
    assert(crate::json::lookup_from(fs, "client"@, 1) == Option::Some(identity_json(identity)));
    assert(crate::json::lookup_from(fs, "auth"@, 4) == Option::Some(auth_json(cred)));
    assert(crate::json::lookup_from(fs, "auth"@, 3) == Option::Some(auth_json(cred)));
    assert(crate::json::lookup_from(fs, "auth"@, 2) == Option::Some(auth_json(cred)));
    assert(crate::json::lookup_from(fs, "auth"@, 1) == Option::Some(auth_json(cred)));
}

/// The handshake's `auth` member carries exactly the configured
/// credential: the token under `token` with no `password` member, the
/// password under `password` with no `token` member, and null for an
/// anonymous session.
pub proof fn lemma_auth_mapping(t: String)
    ensures
        auth_json(Credential::Token(t)).field_str("token"@) == Option::Some(t@),
        auth_json(Credential::Token(t)).get_field("password"@) is None,
        auth_json(Credential::Password(t)).field_str("password"@) == Option::Some(t@),
        auth_json(Credential::Password(t)).get_field("token"@) is None,
        auth_json(Credential::Anonymous) is Null,
{
    reveal_strlit("token");
    reveal_strlit("password");
    assert("token"@.len() == 5 && "password"@.len() == 8);
    assert(crate::json::lookup_from(auth_json(Credential::Token(t))->Obj_0, "password"@, 1)
        is None);
    assert(crate::json::lookup_from(auth_json(Credential::Password(t))->Obj_0, "token"@, 1)
        is None);
}

impl ClientIdentity {
    /// The identity this client presents: a fixed, process-wide constant.
    pub fn operator_cli() -> (r: ClientIdentity)
        ensures
            r.id@ == "reclaw-cli"@,
            r.version@ == "0.1.0"@,
            r.platform@ == "cli"@,
            r.mode@ == "operator"@,
    {
        ClientIdentity {
            id: String::from_str("reclaw-cli"),
            version: String::from_str("0.1.0"),
            platform: String::from_str("cli"),
            mode: String::from_str("operator"),
        }
    }
}

fn pair(key: &str, v: JsonValue) -> (r: (String, JsonValue))
    ensures
        r.0@ == key@,
        r.1 == v,
{
    (String::from_str(key), v)
}

/// Builds the `auth` value for the handshake.
pub fn build_auth(cred: &Credential) -> (r: JsonValue)
    ensures
        r@ == auth_json(*cred),
{
    match cred {
        Credential::Anonymous => JsonValue::Null,
        Credential::Token(t) => {
            let fields = vec![pair("token", JsonValue::Str(t.clone()))];
            let r = JsonValue::Obj(fields);
            proof {
                crate::json::lemma_view_obj(fields@);
                assert(view_obj(fields@) =~= seq![("token"@, JsonSpec::Str(t@))]);
            }
            r
        },
        Credential::Password(p) => {
            let fields = vec![pair("password", JsonValue::Str(p.clone()))];
            let r = JsonValue::Obj(fields);
            proof {
                crate::json::lemma_view_obj(fields@);
                assert(view_obj(fields@) =~= seq![("password"@, JsonSpec::Str(p@))]);
            }
            r
        },
    }
}

/// Builds the identity descriptor.
pub fn build_identity(identity: &ClientIdentity) -> (r: JsonValue)
    ensures
        r@ == identity_json(*identity),
{
    let fields = vec![
        pair("id", JsonValue::Str(identity.id.clone())),
        pair("version", JsonValue::Str(identity.version.clone())),
        pair("platform", JsonValue::Str(identity.platform.clone())),
        pair("mode", JsonValue::Str(identity.mode.clone())),
    ];
    let r = JsonValue::Obj(fields);
    proof {
        crate::json::lemma_view_obj(fields@);
        assert(view_obj(fields@) =~= identity_json(*identity)->Obj_0);
    }
    r
}

/// Builds a request envelope around already-built parameters.
pub fn build_envelope(id: &str, method: &str, params: JsonValue) -> (r: JsonValue)
    ensures
        r@ == req_envelope_json(id@, method@, params@),
{
    let ghost params_view = params@;
    let fields = vec![
        pair("type", JsonValue::Str(String::from_str("req"))),
        pair("id", JsonValue::Str(String::from_str(id))),
        pair("method", JsonValue::Str(String::from_str(method))),
        pair("params", params),
    ];
    let r = JsonValue::Obj(fields);
    proof {
        crate::json::lemma_view_obj(fields@);
        assert(view_obj(fields@) =~= req_envelope_json(id@, method@, params_view)->Obj_0);
    }
    r
}

/// Builds the connect envelope of the handshake.
pub fn build_connect_envelope(identity: &ClientIdentity, cred: &Credential) -> (r: JsonValue)
    ensures
        r@ == connect_envelope_json(*identity, *cred),
{
    let ghost goal = connect_params_json(*identity, *cred);
    let fields = vec![
        pair("minProtocol", JsonValue::Num(String::from_str("3"))),
        pair("maxProtocol", JsonValue::Num(String::from_str("3"))),
        pair("role", JsonValue::Str(String::from_str("operator"))),
        pair("client", build_identity(identity)),
        pair("auth", build_auth(cred)),
    ];
    let params = JsonValue::Obj(fields);
    proof {
        crate::json::lemma_view_obj(fields@);
        assert(view_obj(fields@) =~= goal->Obj_0);
    }
    build_envelope("connect-1", "connect", params)
}

/// Builds the call envelope for one RPC invocation.
pub fn build_rpc_envelope(method: &str, params: JsonValue) -> (r: JsonValue)
    ensures
        r@ == rpc_envelope_json(method@, params@),
{
    build_envelope("rpc-1", method, params)
}

/// The text frame that carries the connect envelope.
pub fn connect_frame_text(identity: &ClientIdentity, cred: &Credential) -> (r: String)
    ensures
        r@ == ser(connect_envelope_json(*identity, *cred)),
{
    let envelope = build_connect_envelope(identity, cred);
    crate::json::to_json_string(&envelope)
}

/// The text frame that carries one RPC call envelope.
pub fn rpc_frame_text(method: &str, params: JsonValue) -> (r: String)
    ensures
        r@ == ser(rpc_envelope_json(method@, params@)),
{
    let envelope = build_rpc_envelope(method, params);
    crate::json::to_json_string(&envelope)
}

} // verus!
