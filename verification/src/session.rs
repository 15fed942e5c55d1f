use vstd::prelude::*;
use vstd::string::StringExecFns;

use crate::envelope::{
    connect_envelope_json, rpc_envelope_json, ClientIdentity, Credential,
};
use crate::error::CliError;
use crate::json::{parse_spec, ser, JsonSpec, JsonValue};

verus! {

/// One inbound WebSocket frame, as plain data.
pub enum WsFrame {
    Text(String),
    Binary(Vec<u8>),
    Ping(Vec<u8>),
    Pong(Vec<u8>),
    Close,
    Raw,
}

/// Whether an envelope is the response correlated with `id`: its `type`
/// member is exactly `"res"` and its `id` member is exactly `id`.
pub open spec fn response_matches(v: JsonSpec, id: Seq<char>) -> bool {
    v.field_str("type"@) == Option::Some("res"@) && v.field_str("id"@) == Option::Some(id)
}

/// Whether a response reports success: an `ok` member that is exactly
/// `true`; a missing or non-boolean `ok` counts as failure.
pub open spec fn response_ok(v: JsonSpec) -> bool {
    v.field_bool("ok"@) == Option::Some(true)
}

/// The payload of a successful response, null when absent.
pub open spec fn response_payload(v: JsonSpec) -> JsonSpec {
    match v.get_field("payload"@) {
        Option::Some(p) => p,
        Option::None => JsonSpec::Null,
    }
}

/// The message of a failed response: `error.message` when it is a
/// string, else a generic fallback.
pub open spec fn response_error_message(v: JsonSpec) -> Seq<char> {
    match v.get_field("error"@) {
        Option::Some(e) => match e.field_str("message"@) {
            Option::Some(m) => m,
            Option::None => "rpc request failed"@,
        },
        Option::None => "rpc request failed"@,
    }
}

/// Judges one well-formed envelope against the awaited id: `None` when
/// the frame is not the correlated response (the caller keeps reading),
/// otherwise the call's outcome.
pub fn evaluate_response(frame: JsonValue, expected_id: &str) -> (r: Option<
    Result<JsonValue, CliError>,
>)
    ensures
        !response_matches(frame@, expected_id@) ==> r is None,
        response_matches(frame@, expected_id@) && response_ok(frame@) ==> (r matches Option::Some(
            x,
        ) && x matches Result::Ok(p) && p@ == response_payload(frame@)),
        response_matches(frame@, expected_id@) && !response_ok(frame@) ==> (r matches Option::Some(
            x,
        ) && x matches Result::Err(e) && e matches CliError::Protocol(m) && m@
            == response_error_message(frame@)),
{
    let res_lit = String::from_str("res");
    let id_expected = String::from_str(expected_id);
    let type_ok = match frame.get("type") {
        Option::Some(t) => match t.as_str() {
            Option::Some(s) => s.eq(&res_lit),
            Option::None => false,
        },
        Option::None => false,
    };
    let id_ok = match frame.get("id") {
        Option::Some(t) => match t.as_str() {
            Option::Some(s) => s.eq(&id_expected),
            Option::None => false,
        },
        Option::None => false,
    };
    if !(type_ok && id_ok) {
        return Option::None;
    }
    let ok_flag = match frame.get("ok") {
        Option::Some(v) => match v.as_bool() {
            Option::Some(b) => b,
            Option::None => false,
        },
        Option::None => false,
    };
    if ok_flag {
        match frame.take_field("payload") {
            Option::Some(p) => Option::Some(Result::Ok(p)),
            Option::None => Option::Some(Result::Ok(JsonValue::Null)),
        }
    } else {
        let msg = match frame.get("error") {
            Option::Some(e) => match e.get("message") {
                Option::Some(m) => match m.as_str() {
                    Option::Some(s) => s.clone(),
                    Option::None => String::from_str("rpc request failed"),
                },
                Option::None => String::from_str("rpc request failed"),
            },
            Option::None => String::from_str("rpc request failed"),
        };
        Option::Some(Result::Err(CliError::Protocol(msg)))
    }
}

/// What one correlated read yields from a frame script: the payload of
/// the matching successful response, a protocol failure, or exhaustion
/// of the script (a dead transport).
pub enum OutcomeSpec {
    Payload(JsonSpec),
    Protocol(Seq<char>),
    Exhausted,
}

/// The read loop over `frames` from position `i`, awaiting the response
/// correlated with `id`: keep-alive and unrelated frames are passed
/// over, a text frame must parse, a binary frame or an early close is a
/// protocol failure.  Yields the outcome and the position after the
/// frame that decided it.
pub open spec fn exchange_spec(frames: Seq<WsFrame>, i: int, id: Seq<char>) -> (OutcomeSpec, int)
    decreases frames.len() - i,
{
    if i < 0 || i >= frames.len() {
        (OutcomeSpec::Exhausted, frames.len() as int)
    } else {
        match frames[i] {
            WsFrame::Text(t) => match parse_spec(t@) {
                Option::Some(v) => if response_matches(v, id) {
                    if response_ok(v) {
                        (OutcomeSpec::Payload(response_payload(v)), i + 1)
                    } else {
                        (OutcomeSpec::Protocol(response_error_message(v)), i + 1)
                    }
                } else {
                    exchange_spec(frames, i + 1, id)
                },
                Option::None => (OutcomeSpec::Protocol("invalid websocket frame JSON"@), i + 1),
            },
            WsFrame::Binary(_) => (OutcomeSpec::Protocol("unexpected binary websocket frame"@), i
                + 1),
            WsFrame::Ping(_) => exchange_spec(frames, i + 1, id),
            WsFrame::Pong(_) => exchange_spec(frames, i + 1, id),
            WsFrame::Close => (OutcomeSpec::Protocol("websocket closed before response"@), i + 1),
            WsFrame::Raw => exchange_spec(frames, i + 1, id),
        }
    }
}

/// The pong replies owed for the ping frames among positions `a`
/// (inclusive) to `b` (exclusive): one echo of each ping payload, in
/// order.
pub open spec fn pongs_upto(frames: Seq<WsFrame>, a: int, b: int) -> Seq<Seq<u8>>
    decreases b - a,
{
    if a < 0 || a >= b || b > frames.len() {
        Seq::empty()
    } else {
        (match frames[a] {
            WsFrame::Ping(p) => seq![p@],
            _ => Seq::<Seq<u8>>::empty(),
        }) + pongs_upto(frames, a + 1, b)
    }
}

pub proof fn lemma_pongs_snoc(frames: Seq<WsFrame>, a: int, b: int)
    requires
        0 <= a <= b < frames.len(),
    ensures
        pongs_upto(frames, a, b + 1) == pongs_upto(frames, a, b) + (match frames[b] {
            WsFrame::Ping(p) => seq![p@],
            _ => Seq::<Seq<u8>>::empty(),
        }),
    decreases b - a,
{
    let tail = (match frames[b] {
        WsFrame::Ping(p) => seq![p@],
        _ => Seq::<Seq<u8>>::empty(),
    });
    if a < b {
        lemma_pongs_snoc(frames, a + 1, b);
        let head = (match frames[a] {
            WsFrame::Ping(p) => seq![p@],
            _ => Seq::<Seq<u8>>::empty(),
        });
        assert(head + (pongs_upto(frames, a + 1, b) + tail) =~= (head + pongs_upto(
            frames,
            a + 1,
            b,
        )) + tail);
    } else {
        assert(pongs_upto(frames, a, a) + tail =~= tail);
        assert(pongs_upto(frames, a + 1, a + 1) =~= Seq::<Seq<u8>>::empty());
        assert(tail + Seq::<Seq<u8>>::empty() =~= tail);
    }
}

/// A well-formed frame that is not the awaited response — its `type` is
/// not `"res"` or its `id` is not the expected one — changes nothing:
/// the read loop keeps reading past it.
pub proof fn lemma_unrelated_frame_ignored(frames: Seq<WsFrame>, i: int, id: Seq<char>)
    requires
        0 <= i < frames.len(),
        frames[i] matches WsFrame::Text(t) && parse_spec(t@) matches Option::Some(v)
            && !response_matches(v, id),
    ensures
        exchange_spec(frames, i, id) == exchange_spec(frames, i + 1, id),
{
}

/// A ping frame received mid-exchange does not short-circuit the wait —
/// the outcome is the one of the remaining frames — and its payload is
/// owed back first among the pong replies.
pub proof fn lemma_ping_answered(frames: Seq<WsFrame>, i: int, id: Seq<char>, payload: Vec<u8>)
    requires
        0 <= i < frames.len(),
        frames[i] == WsFrame::Ping(payload),
    ensures
        exchange_spec(frames, i, id) == exchange_spec(frames, i + 1, id),
        forall|b: int|
            i < b <= frames.len() ==> pongs_upto(frames, i, b) == seq![payload@] + pongs_upto(
                frames,
                i + 1,
                b,
            ),
{
}

/// A close frame received before the awaited response is terminal: the
/// outcome is a protocol failure naming the premature close.
pub proof fn lemma_close_before_response(frames: Seq<WsFrame>, i: int, id: Seq<char>)
    requires
        0 <= i < frames.len(),
        frames[i] is Close,
    ensures
        exchange_spec(frames, i, id) == (
            OutcomeSpec::Protocol("websocket closed before response"@),
            i + 1,
        ),
{
}

/// A verified copy of a byte vector.
fn copy_bytes(v: &Vec<u8>) -> (r: Vec<u8>)
    ensures
        r@ == v@,
{
    let n = v.len();
    let mut out: Vec<u8> = Vec::new();
    let mut i: usize = 0;
    while i < n
        invariant
            n == v@.len(),
            0 <= i <= n,
            out@ == v@.subrange(0, i as int),
        decreases n - i,
    {
        out.push(v[i]);
        proof {
            assert(v@.subrange(0, i as int + 1) =~= v@.subrange(0, i as int).push(v@[i as int]));
        }
        i = i + 1;
    }
    proof {
        assert(v@.subrange(0, n as int) =~= v@);
    }
    out
}

/// What one correlated read produced: the outcome, the pong replies
/// owed for absorbed pings, and the position after the deciding frame.
pub struct ExchangeOutcome {
    pub result: Result<JsonValue, CliError>,
    pub pongs: Vec<Vec<u8>>,
    pub consumed: usize,
}

/// Reads `frames` from `start` until the response correlated with
/// `expected_id` arrives, as `exchange_spec` describes: unrelated
/// responses and keep-alive frames are passed over (each ping owing a
/// pong), and the first deciding frame settles the result.  A script
/// that ends without a decision stands for a dead transport.
pub fn read_response_payload(frames: &Vec<WsFrame>, start: usize, expected_id: &str) -> (r:
    ExchangeOutcome)
    requires
        start <= frames@.len(),
    ensures
        start <= r.consumed <= frames@.len(),
        r.consumed as int == exchange_spec(frames@, start as int, expected_id@).1,
        (match exchange_spec(frames@, start as int, expected_id@).0 {
            OutcomeSpec::Payload(p) => r.result matches Result::Ok(v) && v@ == p,
            OutcomeSpec::Protocol(m) => r.result matches Result::Err(e) && e
                matches CliError::Protocol(mm) && mm@ == m,
            OutcomeSpec::Exhausted => r.result matches Result::Err(e) && e is Transport,
        }),
        r.pongs.deep_view() == pongs_upto(frames@, start as int, r.consumed as int),
{
    let n = frames.len();
    let mut i = start;
    let mut pongs: Vec<Vec<u8>> = Vec::new();
    loop
        invariant
            start <= i <= n,
            n == frames@.len(),
            exchange_spec(frames@, start as int, expected_id@) == exchange_spec(
                frames@,
                i as int,
                expected_id@,
            ),
            pongs.deep_view() == pongs_upto(frames@, start as int, i as int),
        decreases n - i,
    {
        if i >= n {
            return ExchangeOutcome {
                result: Result::Err(
                    CliError::Transport(
                        String::from_str("websocket stream ended before response"),
                    ),
                ),
                pongs,
                consumed: i,
            };
        }
        let ghost pre_pongs = pongs.deep_view();
        proof {
            lemma_pongs_snoc(frames@, start as int, i as int);
        }
        match &frames[i] {
            WsFrame::Text(t) => {
                match crate::json::parse_json(t.as_str()) {
                    Option::Some(v) => {
                        match evaluate_response(v, expected_id) {
                            Option::Some(outcome) => {
                                proof {
                                    assert(pongs.deep_view() =~~= pongs_upto(
                                        frames@,
                                        start as int,
                                        i as int + 1,
                                    ));
                                }
                                return ExchangeOutcome { result: outcome, pongs, consumed: i + 1 };
                            },
                            Option::None => {
                                proof {
                                    assert(pongs.deep_view() =~~= pongs_upto(
                                        frames@,
                                        start as int,
                                        i as int + 1,
                                    ));
                                }
                                i = i + 1;
                            },
                        }
                    },
                    Option::None => {
                        proof {
                            assert(pongs.deep_view() =~~= pongs_upto(
                                frames@,
                                start as int,
                                i as int + 1,
                            ));
                        }
                        return ExchangeOutcome {
                            result: Result::Err(
                                CliError::Protocol(
                                    String::from_str("invalid websocket frame JSON"),
                                ),
                            ),
                            pongs,
                            consumed: i + 1,
                        };
                    },
                }
            },
            WsFrame::Binary(_) => {
                proof {
                    assert(pongs.deep_view() =~~= pongs_upto(frames@, start as int, i as int + 1));
                }
                return ExchangeOutcome {
                    result: Result::Err(
                        CliError::Protocol(String::from_str("unexpected binary websocket frame")),
                    ),
                    pongs,
                    consumed: i + 1,
                };
            },
            WsFrame::Ping(p) => {
                let bytes = copy_bytes(p);
                pongs.push(bytes);
                proof {
                    assert(pongs.deep_view() =~~= pre_pongs.push(p@));
                    assert(pongs.deep_view() =~~= pongs_upto(frames@, start as int, i as int + 1));
                }
                i = i + 1;
            },
            WsFrame::Pong(_) => {
                proof {
                    assert(pongs.deep_view() =~~= pongs_upto(frames@, start as int, i as int + 1));
                }
                i = i + 1;
            },
            WsFrame::Close => {
                proof {
                    assert(pongs.deep_view() =~~= pongs_upto(frames@, start as int, i as int + 1));
                }
                return ExchangeOutcome {
                    result: Result::Err(
                        CliError::Protocol(String::from_str("websocket closed before response")),
                    ),
                    pongs,
                    consumed: i + 1,
                };
            },
            WsFrame::Raw => {
                proof {
                    assert(pongs.deep_view() =~~= pongs_upto(frames@, start as int, i as int + 1));
                }
                i = i + 1;
            },
        }
    }
}

/// The lifecycle of one RPC session; created fresh per call, never
/// reused.
#[derive(Debug, Clone, Copy, PartialEq, Eq, Structural)]
pub enum SessionState {
    Disconnected,
    Connected,
    HandshakeSent,
    HandshakeAcked,
    RequestSent,
    Completed,
    Failed,
}

/// What happened at a session's suspension point.
#[derive(Debug, Clone, Copy, PartialEq, Eq, Structural)]
pub enum SessionEvent {
    ConnectSucceeded,
    HandshakeDelivered,
    RequestDelivered,
    ResponseMatched,
    Failure,
}

/// The session state machine: connect, send the handshake, await its
/// response, send the request, await its response; any failure is
/// terminal, and so is an event outside the expected order.
pub open spec fn spec_session_step(s: SessionState, e: SessionEvent) -> SessionState {
    match (s, e) {
        (SessionState::Disconnected, SessionEvent::ConnectSucceeded) => SessionState::Connected,
        (SessionState::Connected, SessionEvent::HandshakeDelivered) => SessionState::HandshakeSent,
        (SessionState::HandshakeSent, SessionEvent::ResponseMatched) => SessionState::HandshakeAcked,
        (SessionState::HandshakeAcked, SessionEvent::RequestDelivered) => SessionState::RequestSent,
        (SessionState::RequestSent, SessionEvent::ResponseMatched) => SessionState::Completed,
        _ => SessionState::Failed,
    }
}

pub fn session_step(s: SessionState, e: SessionEvent) -> (r: SessionState)
    ensures
        r == spec_session_step(s, e),
{
    match (s, e) {
        (SessionState::Disconnected, SessionEvent::ConnectSucceeded) => SessionState::Connected,
        (SessionState::Connected, SessionEvent::HandshakeDelivered) => SessionState::HandshakeSent,
        (SessionState::HandshakeSent, SessionEvent::ResponseMatched) => SessionState::HandshakeAcked,
        (SessionState::HandshakeAcked, SessionEvent::RequestDelivered) => SessionState::RequestSent,
        (SessionState::RequestSent, SessionEvent::ResponseMatched) => SessionState::Completed,
        _ => SessionState::Failed,
    }
}

/// What a whole session produced: the text frames sent (the connect
/// envelope, then the call envelope once the handshake was acknowledged),
/// the pong replies owed, the call's outcome, and the final state.
pub struct SessionRun {
    pub sent: Vec<String>,
    pub pongs: Vec<Vec<u8>>,
    pub result: Result<JsonValue, CliError>,
    pub state: SessionState,
}

/// Runs one whole session against a script of inbound frames, starting
/// from an established connection: the handshake envelope is sent and
/// its response awaited under id `connect-1`; on acknowledgement the
/// call envelope is sent and its response awaited under id `rpc-1`.
pub fn run_exchange(
    identity: &ClientIdentity,
    cred: &Credential,
    method: &str,
    params: JsonValue,
    frames: &Vec<WsFrame>,
) -> (r: SessionRun)
    ensures
        ({
            let h = exchange_spec(frames@, 0, "connect-1"@);
            let x = exchange_spec(frames@, h.1, "rpc-1"@);
            &&& (match h.0 {
                OutcomeSpec::Payload(_) => {
                    &&& r.sent.deep_view() == seq![
                        ser(connect_envelope_json(*identity, *cred)),
                        ser(rpc_envelope_json(method@, params@)),
                    ]
                    &&& r.pongs.deep_view() == pongs_upto(frames@, 0, h.1) + pongs_upto(
                        frames@,
                        h.1,
                        x.1,
                    )
                    &&& (match x.0 {
                        OutcomeSpec::Payload(p) => r.result matches Result::Ok(v) && v@ == p
                            && r.state == SessionState::Completed,
                        OutcomeSpec::Protocol(m) => r.result matches Result::Err(e) && e
                            matches CliError::Protocol(mm) && mm@ == m && r.state
                            == SessionState::Failed,
                        OutcomeSpec::Exhausted => r.result matches Result::Err(e) && e is Transport
                            && r.state == SessionState::Failed,
                    })
                },
                OutcomeSpec::Protocol(m) => {
                    &&& r.sent.deep_view() == seq![ser(connect_envelope_json(*identity, *cred))]
                    &&& r.pongs.deep_view() == pongs_upto(frames@, 0, h.1)
                    &&& r.result matches Result::Err(e) && e matches CliError::Protocol(mm) && mm@
                        == m
                    &&& r.state == SessionState::Failed
                },
                OutcomeSpec::Exhausted => {
                    &&& r.sent.deep_view() == seq![ser(connect_envelope_json(*identity, *cred))]
                    &&& r.pongs.deep_view() == pongs_upto(frames@, 0, h.1)
                    &&& r.result matches Result::Err(e) && e is Transport
                    &&& r.state == SessionState::Failed
                },
            })
        }),
{
    let ghost params0 = params@;
    let mut state = SessionState::Connected;
    let connect_text = crate::envelope::connect_frame_text(identity, cred);
    let mut sent: Vec<String> = Vec::new();
    sent.push(connect_text);
    state = session_step(state, SessionEvent::HandshakeDelivered);
    let handshake = read_response_payload(frames, 0, "connect-1");
    let ghost h = exchange_spec(frames@, 0, "connect-1"@);
    proof {
        reveal_strlit("connect-1");
    }
    match handshake.result {
        Result::Err(e) => {
            state = session_step(state, SessionEvent::Failure);
            proof {
                assert(sent.deep_view() =~~= seq![ser(connect_envelope_json(*identity, *cred))]);
            }
            SessionRun { sent, pongs: handshake.pongs, result: Result::Err(e), state }
        },
        Result::Ok(_) => {
            state = session_step(state, SessionEvent::ResponseMatched);
            let rpc_text = crate::envelope::rpc_frame_text(method, params);
            sent.push(rpc_text);
            state = session_step(state, SessionEvent::RequestDelivered);
            let mut pongs = handshake.pongs;
            let exchange = read_response_payload(frames, handshake.consumed, "rpc-1");
            proof {
                reveal_strlit("rpc-1");
            }
            let mut more = exchange.pongs;
            let ghost pongs1 = pongs.deep_view();
            let ghost pongs2 = more.deep_view();
            pongs.append(&mut more);
            proof {
                assert(pongs.deep_view() =~~= pongs1 + pongs2);
                assert(sent.deep_view() =~~= seq![
                    ser(connect_envelope_json(*identity, *cred)),
                    ser(rpc_envelope_json(method@, params0)),
                ]);
            }
            match exchange.result {
                Result::Ok(p) => {
                    state = session_step(state, SessionEvent::ResponseMatched);
                    SessionRun { sent, pongs, result: Result::Ok(p), state }
                },
                Result::Err(e) => {
                    state = session_step(state, SessionEvent::Failure);
                    SessionRun { sent, pongs, result: Result::Err(e), state }
                },
            }
        },
    }
}

} // verus!
