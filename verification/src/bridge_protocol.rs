//! The bridge's request/response protocol: which requests are accepted,
//! what each refusal is answered, and the decisions taken while serving
//! one connection.

use vstd::prelude::*;

use crate::text::{concat_strs, decimal, decimal_string, is_blank, is_blank_str, str_eq};

verus! {

/// Declares `serde_json::Value`, the JSON payload that requests and
/// responses carry through the bridge untouched. Trusted as a type only:
/// nothing of a value's content is known or used here.
#[verifier::external_type_specification]
#[verifier::external_body]
pub struct ExJsonValue(serde_json::Value);

/// The protocol version this bridge speaks.
pub const BRIDGE_SCHEMA_VERSION: u8 = 2;

/// How long to wait for the editor when a request names no timeout.
pub const DEFAULT_TIMEOUT_MS: u64 = 1500;

/// The longest wait a request may ask for.
pub const MAX_TIMEOUT_MS: u64 = 10000;

/// A decoded bridge request.
#[derive(Debug)]
pub struct BridgeRequest {
    pub schema_version: u8,
    pub request_id: String,
    pub auth_token: String,
    pub action: String,
    pub timeout_ms: Option<u64>,
    pub payload: serde_json::Value,
}

/// Whether a response reports success.
#[derive(Debug, Clone, Copy, PartialEq, Eq, Structural)]
pub enum ResponseStatus {
    Success,
    Failure,
}

impl ResponseStatus {
    /// The status as it appears on the wire.
    pub fn as_str(&self) -> (s: &'static str)
        ensures
            s@ == (match self {
                ResponseStatus::Success => "ok"@,
                ResponseStatus::Failure => "error"@,
            }),
    {
        match self {
            ResponseStatus::Success => "ok",
            ResponseStatus::Failure => "error",
        }
    }
}

/// The error part of a response: a machine-readable class and a message.
#[derive(Debug)]
pub struct BridgeError {
    pub class: String,
    pub message: String,
}

/// A bridge response.
#[derive(Debug)]
pub struct BridgeResponse {
    pub schema_version: u8,
    pub request_id: String,
    pub status: ResponseStatus,
    pub data: Option<serde_json::Value>,
    pub error: Option<BridgeError>,
}

/// `r` is an error response for `request_id` with this class and message.
pub open spec fn is_error_response(
    r: BridgeResponse,
    request_id: Seq<char>,
    class: Seq<char>,
    message: Seq<char>,
) -> bool {
    &&& r.schema_version == BRIDGE_SCHEMA_VERSION
    &&& r.request_id@ == request_id
    &&& r.status == ResponseStatus::Failure
    &&& r.data is None
    &&& r.error matches Some(e) && e.class@ == class && e.message@ == message
}

impl BridgeResponse {
    /// A success response carrying `data`.
    pub fn ok(request_id: String, data: serde_json::Value) -> (r: BridgeResponse)
        ensures
            r.schema_version == BRIDGE_SCHEMA_VERSION,
            r.request_id == request_id,
            r.status == ResponseStatus::Success,
            r.data == Some(data),
            r.error is None,
    {
        BridgeResponse {
            schema_version: BRIDGE_SCHEMA_VERSION,
            request_id,
            status: ResponseStatus::Success,
            data: Some(data),
            error: None,
        }
    }

    /// An error response.
    pub fn error(request_id: String, class: &str, message: String) -> (r: BridgeResponse)
        ensures
            is_error_response(r, request_id@, class@, message@),
    {
        BridgeResponse {
            schema_version: BRIDGE_SCHEMA_VERSION,
            request_id,
            status: ResponseStatus::Failure,
            data: None,
            error: Some(BridgeError { class: String::from_str(class), message }),
        }
    }
}

/// Class of a malformed or unreadable request.
pub open spec fn invalid_payload() -> Seq<char> {
    "invalid_payload"@
}

/// Class of a request with the wrong auth token.
pub open spec fn permission_denied() -> Seq<char> {
    "permission_denied"@
}

/// Class of a request the editor no longer takes.
pub open spec fn stale_instance() -> Seq<char> {
    "stale_instance"@
}

/// The refusal owed to a request line, as (request id, class, message), or
/// `None` when the request is accepted. The checks run in this order:
/// decoding, schema version, request id, action, auth token.
pub open spec fn request_refusal(decoded: Result<BridgeRequest, String>, auth_token: Seq<char>) -> Option<
    (Seq<char>, Seq<char>, Seq<char>),
> {
    match decoded {
        Err(detail) => Some((Seq::empty(), invalid_payload(), "Invalid JSON request: "@ + detail@)),
        Ok(req) => if req.schema_version != BRIDGE_SCHEMA_VERSION {
            Some(
                (
                    req.request_id@,
                    invalid_payload(),
                    "Unsupported bridge schema version "@ + decimal(req.schema_version as nat)
                        + "; expected 2"@,
                ),
            )
        } else if is_blank(req.request_id@) {
            Some((Seq::empty(), invalid_payload(), "Bridge request_id must be non-empty"@))
        } else if is_blank(req.action@) {
            Some((req.request_id@, invalid_payload(), "Bridge action must be non-empty"@))
        } else if req.auth_token@ != auth_token {
            Some(
                (
                    req.request_id@,
                    permission_denied(),
                    "Bridge auth token did not match this Helix instance"@,
                ),
            )
        } else {
            None
        },
    }
}

/// Checks a decoded request line against this instance's auth token.
/// `decoded` is the request as decoded from JSON, or the decoder's message.
/// An accepted request is handed back unchanged; a refused one is answered
/// with the error response owed to it.
pub fn parse_request(decoded: Result<BridgeRequest, String>, auth_token: &str) -> (r: Result<
    BridgeRequest,
    BridgeResponse,
>)
    ensures
        match r {
            Ok(req) => request_refusal(decoded, auth_token@) is None && decoded == Ok::<
                BridgeRequest,
                String,
            >(req),
            Err(resp) => request_refusal(decoded, auth_token@) matches Some((id, class, msg))
                && is_error_response(resp, id, class, msg),
        },
{
    let request = match decoded {
        Ok(request) => request,
        Err(detail) => {
            return Err(
                BridgeResponse::error(
                    String::new(),
                    "invalid_payload",
                    concat_strs("Invalid JSON request: ", detail.as_str()),
                ),
            );
        },
    };
    if request.schema_version != BRIDGE_SCHEMA_VERSION {
        let mut m = String::from_str("Unsupported bridge schema version ");
        m.append(decimal_string(request.schema_version as u128).as_str());
        m.append("; expected 2");
        return Err(BridgeResponse::error(request.request_id, "invalid_payload", m));
    }
    if is_blank_str(request.request_id.as_str()) {
        return Err(
            BridgeResponse::error(
                String::new(),
                "invalid_payload",
                String::from_str("Bridge request_id must be non-empty"),
            ),
        );
    }
    if is_blank_str(request.action.as_str()) {
        return Err(
            BridgeResponse::error(
                request.request_id,
                "invalid_payload",
                String::from_str("Bridge action must be non-empty"),
            ),
        );
    }
    if !str_eq(request.auth_token.as_str(), auth_token) {
        return Err(
            BridgeResponse::error(
                request.request_id,
                "permission_denied",
                String::from_str("Bridge auth token did not match this Helix instance"),
            ),
        );
    }
    Ok(request)
}

/// The wait for the editor's reply: the requested timeout, or the default,
/// kept within `1..=MAX_TIMEOUT_MS`.
pub open spec fn timeout_for(timeout_ms: Option<u64>) -> u64 {
    let t = match timeout_ms {
        Some(t) => t,
        None => DEFAULT_TIMEOUT_MS,
    };
    if t < 1 {
        1
    } else if t > MAX_TIMEOUT_MS {
        MAX_TIMEOUT_MS
    } else {
        t
    }
}

/// How long to wait for the editor to answer a request.
pub fn request_timeout_ms(timeout_ms: Option<u64>) -> (t: u64)
    ensures
        t == timeout_for(timeout_ms),
        1 <= t <= MAX_TIMEOUT_MS,
{
    let t = match timeout_ms {
        Some(t) => t,
        None => DEFAULT_TIMEOUT_MS,
    };
    if t < 1 {
        1
    } else if t > MAX_TIMEOUT_MS {
        MAX_TIMEOUT_MS
    } else {
        t
    }
}

/// What waiting for the editor's reply gave.
#[derive(Debug)]
pub enum ReplyOutcome {
    /// The editor answered.
    Response(BridgeResponse),
    /// The wait ran out.
    TimedOut,
    /// The editor dropped the reply channel.
    Disconnected,
}

/// Where serving one connection stands.
#[derive(Debug)]
pub enum ConnectionState {
    /// Waiting for the request line.
    Reading,
    /// The request was accepted and is being handed to the editor.
    Dispatching { request_id: String },
    /// The editor has the request; waiting for its reply.
    AwaitingReply { request_id: String },
    /// The connection has been answered.
    Finished,
}

/// What happened while serving a connection.
#[derive(Debug)]
pub enum ConnectionEvent {
    /// The request line could not be read; the text describes why.
    ReadFailed(String),
    /// The request line was read and decoded (or its decoding failed).
    LineRead(Result<BridgeRequest, String>),
    /// Handing the request to the editor succeeded (`true`) or found the
    /// editor gone (`false`).
    Dispatched(bool),
    /// Waiting for the editor's reply ended.
    Reply(ReplyOutcome),
}

/// What to do next while serving a connection.
#[derive(Debug)]
pub enum ConnectionAction {
    /// Write this response and close.
    Respond(BridgeResponse),
    /// Hand this request to the editor, to be answered within `timeout_ms`.
    Dispatch { request_id: String, action: String, payload: serde_json::Value, timeout_ms: u64 },
    /// Wait for the editor's reply.
    AwaitReply,
}

/// Whether `event` can happen in `state`.
pub open spec fn accepts_event(state: ConnectionState, event: ConnectionEvent) -> bool {
    match state {
        ConnectionState::Reading => event is ReadFailed || event is LineRead,
        ConnectionState::Dispatching { .. } => event is Dispatched,
        ConnectionState::AwaitingReply { .. } => event is Reply,
        ConnectionState::Finished => false,
    }
}

/// The request id a dispatching or waiting connection answers for.
pub open spec fn pending_request_id(state: ConnectionState) -> Seq<char> {
    match state {
        ConnectionState::Dispatching { request_id } => request_id@,
        ConnectionState::AwaitingReply { request_id } => request_id@,
        _ => Seq::empty(),
    }
}

/// `action` writes an error response with this id, class and message.
pub open spec fn answers_error(
    action: ConnectionAction,
    request_id: Seq<char>,
    class: Seq<char>,
    message: Seq<char>,
) -> bool {
    action matches ConnectionAction::Respond(resp) && is_error_response(
        resp,
        request_id,
        class,
        message,
    )
}

/// The step hands the accepted request in `decoded` to the editor.
pub open spec fn dispatches(
    r: (ConnectionState, ConnectionAction),
    decoded: Result<BridgeRequest, String>,
) -> bool {
    &&& decoded matches Ok(req)
    &&& r.0 matches ConnectionState::Dispatching { request_id } && request_id@ == req.request_id@
    &&& r.1 matches ConnectionAction::Dispatch { request_id, action, payload, timeout_ms }
        && request_id@ == req.request_id@ && action@ == req.action@ && payload == req.payload
        && timeout_ms == timeout_for(req.timeout_ms)
}

/// The step waits for the editor's reply to `request_id`.
pub open spec fn awaits_reply(r: (ConnectionState, ConnectionAction), request_id: Seq<char>) -> bool {
    &&& r.0 matches ConnectionState::AwaitingReply { request_id: id } && id@ == request_id
    &&& r.1 is AwaitReply
}

/// One step of serving a connection: from where it stands and what just
/// happened, where it goes and what to do.
pub fn handle_connection(state: ConnectionState, event: ConnectionEvent, auth_token: &str) -> (r: (
    ConnectionState,
    ConnectionAction,
))
    requires
        accepts_event(state, event),
    ensures
        match event {
            ConnectionEvent::ReadFailed(detail) => r.0 is Finished && answers_error(
                r.1,
                Seq::empty(),
                invalid_payload(),
                "Could not read request: "@ + detail@,
            ),
            ConnectionEvent::LineRead(decoded) => match request_refusal(decoded, auth_token@) {
                Some((id, class, msg)) => r.0 is Finished && answers_error(r.1, id, class, msg),
                None => dispatches(r, decoded),
            },
            ConnectionEvent::Dispatched(sent) => if sent {
                awaits_reply(r, pending_request_id(state))
            } else {
                r.0 is Finished && answers_error(
                    r.1,
                    pending_request_id(state),
                    stale_instance(),
                    "Helix bridge is no longer accepting requests"@,
                )
            },
            ConnectionEvent::Reply(outcome) => r.0 is Finished && match outcome {
                ReplyOutcome::Response(reply) => r.1 == ConnectionAction::Respond(reply),
                ReplyOutcome::TimedOut => answers_error(
                    r.1,
                    pending_request_id(state),
                    "timeout"@,
                    "Timed out waiting for Helix to handle the bridge request"@,
                ),
                ReplyOutcome::Disconnected => answers_error(
                    r.1,
                    pending_request_id(state),
                    stale_instance(),
                    "Helix bridge response channel closed"@,
                ),
            },
        },
{
    match event {
        ConnectionEvent::ReadFailed(detail) => {
            let resp = BridgeResponse::error(
                String::new(),
                "invalid_payload",
                concat_strs("Could not read request: ", detail.as_str()),
            );
            (ConnectionState::Finished, ConnectionAction::Respond(resp))
        },
        ConnectionEvent::LineRead(decoded) => match parse_request(decoded, auth_token) {
            Err(resp) => (ConnectionState::Finished, ConnectionAction::Respond(resp)),
            Ok(request) => {
                let timeout_ms = request_timeout_ms(request.timeout_ms);
                let request_id = request.request_id.clone();
                (
                    ConnectionState::Dispatching { request_id },
                    ConnectionAction::Dispatch {
                        request_id: request.request_id,
                        action: request.action,
                        payload: request.payload,
                        timeout_ms,
                    },
                )
            },
        },
        ConnectionEvent::Dispatched(sent) => {
            let request_id = match state {
                ConnectionState::Dispatching { request_id } => request_id,
                _ => String::new(),
            };
            if sent {
                (ConnectionState::AwaitingReply { request_id }, ConnectionAction::AwaitReply)
            } else {
                let resp = BridgeResponse::error(
                    request_id,
                    "stale_instance",
                    String::from_str("Helix bridge is no longer accepting requests"),
                );
                (ConnectionState::Finished, ConnectionAction::Respond(resp))
            }
        },
        ConnectionEvent::Reply(outcome) => {
            let request_id = match state {
                ConnectionState::AwaitingReply { request_id } => request_id,
                _ => String::new(),
            };
            match outcome {
                ReplyOutcome::Response(reply) => (
                    ConnectionState::Finished,
                    ConnectionAction::Respond(reply),
                ),
                ReplyOutcome::TimedOut => {
                    let resp = BridgeResponse::error(
                        request_id,
                        "timeout",
                        String::from_str(
                            "Timed out waiting for Helix to handle the bridge request",
                        ),
                    );
                    (ConnectionState::Finished, ConnectionAction::Respond(resp))
                },
                ReplyOutcome::Disconnected => {
                    let resp = BridgeResponse::error(
                        request_id,
                        "stale_instance",
                        String::from_str("Helix bridge response channel closed"),
                    );
                    (ConnectionState::Finished, ConnectionAction::Respond(resp))
                },
            }
        },
    }
}

/// Only a well-formed request of the current schema that carries this
/// instance's auth token is accepted, and so handed to the editor by
/// [`handle_connection`]; any other request line is refused and answered
/// before it reaches the editor.
pub proof fn lemma_only_authorized_requests_accepted(
    decoded: Result<BridgeRequest, String>,
    auth_token: Seq<char>,
)
    ensures
        request_refusal(decoded, auth_token) is None <==> (decoded matches Ok(req) && {
            &&& req.schema_version == BRIDGE_SCHEMA_VERSION
            &&& !is_blank(req.request_id@)
            &&& !is_blank(req.action@)
            &&& req.auth_token@ == auth_token
        }),
{
}

/// A request with the wrong auth token is answered `permission_denied`
/// under its own request id, once its schema, id and action are valid.
pub proof fn lemma_wrong_token_denied(req: BridgeRequest, auth_token: Seq<char>)
    requires
        req.schema_version == BRIDGE_SCHEMA_VERSION,
        !is_blank(req.request_id@),
        !is_blank(req.action@),
        req.auth_token@ != auth_token,
    ensures
        request_refusal(Ok(req), auth_token) == Some(
            (
                req.request_id@,
                permission_denied(),
                "Bridge auth token did not match this Helix instance"@,
            ),
        ),
{
}

} // verus!
