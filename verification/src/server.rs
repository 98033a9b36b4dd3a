//! The decisions of the proxy server's endpoints: admitting a WebSocket
//! client, handling what a client sends, and the fixed-model generate
//! endpoint.  The server loop itself (sockets, tasks, timers) drives these.

use vstd::prelude::*;
use tokio::sync::mpsc::UnboundedSender;
use crate::auth::{default_user, valid_token};
use std::sync::Arc;
use crate::connection::{advanced, picked_connection, ConnectionPool, UserConnection};
use crate::headers::{collect_headers, header_text, header_value, text_header_map, RequestHeader};
use crate::json::{json_get, json_text, JsonValue};
use crate::message::{
    request_of,
    is_request_payload, type_error, type_http_response, type_ping, type_pong, type_stream_chunk,
    type_stream_end, type_stream_start, WSMessage,
};
use crate::proxy::new_request_id;
use crate::status::HttpStatus;
use crate::string_map::StringMap;
use crate::text::str_eq;

verus! {

/// The user that a WebSocket client with this `auth_token` connects as: the
/// one known token admits the default user, any other token is refused with
/// 401.
pub fn websocket_user(auth_token: &str) -> (r: Result<String, HttpStatus>)
    ensures
        r is Ok <==> auth_token@ == valid_token(),
        r matches Ok(u) ==> u@ == default_user(),
        r matches Err(s) ==> s@ == 401,
{
    if str_eq(auth_token, "valid-token-user-1") {
        Ok(String::from_str("user-1"))
    } else {
        Err(HttpStatus::unauthorized())
    }
}

/// What became of a message from a client.
#[derive(Debug)]
pub enum ClientMessageOutcome {
    /// A ping, answered with a pong of the same id.
    Ponged,
    /// An answer to a pending request, handed to that request's channel
    /// (`delivered` tells whether the channel took it).
    Forwarded { delivered: bool },
    /// A message of a type that the server does not handle.
    Ignored,
}

/// The types of the messages that answer a pending request.
pub open spec fn is_answer_type(t: Seq<char>) -> bool {
    t == type_http_response() || t == type_stream_start() || t == type_stream_chunk() || t
        == type_stream_end() || t == type_error()
}

/// What to do with a message from a client.
#[derive(Debug)]
pub enum ClientAction {
    /// Send this message back on the client's connection.
    Reply(WSMessage),
    /// Hand this message to the pending request with this id.
    Forward(String, WSMessage),
    /// Drop this message.
    Ignore(WSMessage),
}

/// `r` is what is to be done with `msg`: a ping is answered with a pong of
/// the same id and no payload; an answer (response, stream part or error) is
/// handed, unchanged, to the pending request that its id names; anything
/// else is dropped.
pub open spec fn is_client_action(msg: WSMessage, r: ClientAction) -> bool {
    if msg.message_type@ == type_ping() {
        r matches ClientAction::Reply(p) && p.id == msg.id && p.message_type@ == type_pong()
            && p.payload == JsonValue::Null
    } else if is_answer_type(msg.message_type@) {
        r matches ClientAction::Forward(id, m) && id@ == msg.id@ && m == msg
    } else {
        r matches ClientAction::Ignore(m) && m == msg
    }
}

/// Decides what to do with a message from a client (see `is_client_action`).
pub fn client_message_action(msg: WSMessage) -> (r: ClientAction)
    ensures
        is_client_action(msg, r),
{
    let t = msg.message_type.as_str();
    if str_eq(t, "ping") {
        ClientAction::Reply(WSMessage::pong(msg.id))
    } else if str_eq(t, "http_response") || str_eq(t, "stream_start") || str_eq(t, "stream_chunk")
        || str_eq(t, "stream_end") || str_eq(t, "error") {
        let id = msg.id.clone();
        ClientAction::Forward(id, msg)
    } else {
        ClientAction::Ignore(msg)
    }
}

/// Handles a message that a client sent on `connection`: carries out
/// `client_message_action`, sending the pong on `connection` or the answer
/// on the pending request's channel (`ConnectionPool::send_response`).
pub fn handle_client_message(
    pool: &ConnectionPool,
    connection: &UserConnection,
    msg: WSMessage,
) -> (r: ClientMessageOutcome)
    ensures
        msg.message_type@ == type_ping() ==> r is Ponged,
        msg.message_type@ != type_ping() && is_answer_type(msg.message_type@) ==> (r matches ClientMessageOutcome::Forwarded { delivered } && (!pool.pending().contains_key(msg.id@) ==> !delivered)),
        msg.message_type@ != type_ping() && !is_answer_type(msg.message_type@) ==> r is Ignored,
{
    match client_message_action(msg) {
        ClientAction::Reply(pong) => {
            let _ = connection.send_message(pong);
            ClientMessageOutcome::Ponged
        },
        ClientAction::Forward(id, answer) => {
            let delivered = pool.send_response(id.as_str(), answer);
            ClientMessageOutcome::Forwarded { delivered }
        },
        ClientAction::Ignore(_) => ClientMessageOutcome::Ignored,
    }
}

/// The URL that the generate endpoint sends every request to.
pub open spec fn generate_url() -> Seq<char> {
    "https://generativelanguage.googleapis.com/v1/models/gemini-pro:generate"@
}

/// The first `x-goog-api-key` header is the state's API key.
pub open spec fn api_key_matches(headers: Seq<RequestHeader>, api_key: Seq<char>) -> bool {
    header_text(headers, "x-goog-api-key"@) matches Some(k) && k@ == api_key
}

/// `m` is the generate endpoint's `http_request` message with id
/// `request_id`: a `POST` of `body` to the generate URL with every header
/// whose value is text.
pub open spec fn is_generate_request(
    m: WSMessage,
    request_id: String,
    headers: Seq<RequestHeader>,
    body: String,
) -> bool {
    &&& m.id == request_id
    &&& m.message_type@ == crate::message::type_http_request()
    &&& exists|method: String, url: String, all: StringMap|
        #[trigger] is_request_payload(m.payload, method, url, all, body) && method@ == "POST"@
            && url@ == generate_url() && all@ == text_header_map(headers, true)
}

/// The decisions of the first half of a call of the generate endpoint: the
/// first `x-goog-api-key` header must be the state's API key (401
/// otherwise); a connection of the default user is picked in round-robin
/// order (503 when there is none); the request is registered under a fresh
/// id with `reply` as its answer channel.  What comes back is the id, the
/// picked connection and the message to send it (see
/// `is_generate_request`).
pub fn prepare_generate_request(
    pool: &mut ConnectionPool,
    headers: &Vec<RequestHeader>,
    body: String,
    api_key: &str,
    reply: UnboundedSender<WSMessage>,
) -> (r: Result<(String, Arc<UserConnection>, WSMessage), HttpStatus>)
    requires
        old(pool).wf(),
    ensures
        final(pool).wf(),
        final(pool).handed() == old(pool).handed(),
        !api_key_matches(headers@, api_key@) ==> (r matches Err(s) && s@ == 401)
            && final(pool).users() == old(pool).users() && final(pool).pending() == old(pool).pending(),
        api_key_matches(headers@, api_key@) && !old(pool).users().contains_key(default_user()) ==> (r matches Err(s) && s@ == 503)
            && final(pool).users() == old(pool).users() && final(pool).pending() == old(pool).pending(),
        api_key_matches(headers@, api_key@) && old(pool).users().contains_key(default_user()) ==> advanced(old(pool).users(), final(pool).users(), default_user())
            && (r matches Ok((id, connection, message)) && id@.len() == 36
            && final(pool).pending() == old(pool).pending().insert(id@, reply)
            && connection == picked_connection(old(pool).users(), default_user())
            && is_generate_request(message, id, headers@, body)),
{
    let authorized = match header_value(headers, "x-goog-api-key") {
        Some(key) => str_eq(key.as_str(), api_key),
        None => false,
    };
    if !authorized {
        return Err(HttpStatus::unauthorized());
    }
    let user_id = String::from_str("user-1");
    let request_id = new_request_id();
    let connection = match pool.get_connection(user_id.as_str()) {
        Some(c) => c,
        None => return Err(HttpStatus::service_unavailable()),
    };
    pool.register_pending_request(request_id.clone(), reply);
    let message = generate_request_message(request_id.clone(), headers, body);
    Ok((request_id, connection, message))
}

/// The first half of a call of the generate endpoint:
/// `prepare_generate_request`, then the message goes to the picked
/// connection.  When the client's channel is closed the registration is
/// withdrawn and the answer is 502; otherwise the request id comes back, for
/// `finish_generate_request`.
pub fn send_generate_request(
    pool: &mut ConnectionPool,
    headers: &Vec<RequestHeader>,
    body: String,
    api_key: &str,
    reply: UnboundedSender<WSMessage>,
) -> (r: Result<String, HttpStatus>)
    requires
        old(pool).wf(),
    ensures
        final(pool).wf(),
        !api_key_matches(headers@, api_key@) ==> (r matches Err(s) && s@ == 401)
            && final(pool).users() == old(pool).users() && final(pool).pending() == old(pool).pending()
            && final(pool).handed() == old(pool).handed(),
        api_key_matches(headers@, api_key@) && !old(pool).users().contains_key(default_user()) ==> (r matches Err(s) && s@ == 503)
            && final(pool).users() == old(pool).users() && final(pool).pending() == old(pool).pending()
            && final(pool).handed() == old(pool).handed(),
        api_key_matches(headers@, api_key@) && old(pool).users().contains_key(default_user()) ==> advanced(old(pool).users(), final(pool).users(), default_user())
            && match r {
            Ok(id) => id@.len() == 36 && final(pool).pending() == old(pool).pending().insert(id@, reply),
            Err(s) => s@ == 502 && exists|id: Seq<char>|
                final(pool).pending() == #[trigger] old(pool).pending().insert(id, reply).remove(id),
        } && final(pool).handed() == old(pool).handed().push(
            (picked_connection(old(pool).users(), default_user()).sender, final(pool).handed().last().1),
        ) && is_generate_request(
            final(pool).handed().last().1,
            final(pool).handed().last().1.id,
            headers@,
            body,
        ) && (r matches Ok(id) ==> final(pool).handed().last().1.id == id),
{
    let (request_id, connection, message) = prepare_generate_request(pool, headers, body, api_key, reply)?;
    match pool.send_to(&connection, message) {
        Ok(()) => Ok(request_id),
        Err(_) => {
            pool.remove_pending_request(request_id.as_str());
            Err(HttpStatus::bad_gateway())
        },
    }
}

/// The second half of a call of the generate endpoint: the request stops
/// being pending, and the answer is `generate_answer` of what the client
/// sent (nothing when the channel closed or the wait timed out).
pub fn finish_generate_request(
    pool: &mut ConnectionPool,
    request_id: &str,
    received: Option<WSMessage>,
) -> (r: Result<String, HttpStatus>)
    requires
        old(pool).wf(),
    ensures
        final(pool).wf(),
        final(pool).users() == old(pool).users(),
        final(pool).pending() == old(pool).pending().remove(request_id@),
        match received {
            None => r matches Err(s) && s@ == 504,
            Some(m) => match generated_text(m) {
                Some(t) => r matches Ok(text) && text@ == t@,
                None => r matches Err(s) && s@ == 502,
            },
        },
{
    pool.remove_pending_request(request_id);
    generate_answer(received)
}

/// The `http_request` message of the generate endpoint: a `POST` of `body`
/// to the generate URL with every header whose value is text.
pub fn generate_request_message(request_id: String, headers: &Vec<RequestHeader>, body: String) -> (r:
    WSMessage)
    ensures
        is_generate_request(r, request_id, headers@, body),
{
    let method = String::from_str("POST");
    let url = String::from_str("https://generativelanguage.googleapis.com/v1/models/gemini-pro:generate");
    let all = collect_headers(headers, true);
    let ghost (m, u, a) = (method, url, all);
    let r = WSMessage::http_request(request_id, method, url, all, body);
    assert(is_request_payload(r.payload, m, u, a, body));
    r
}

/// The text that an answer to the generate endpoint carries: the `body`
/// member of an `http_response` payload, when it is a string.
pub open spec fn generated_text(m: WSMessage) -> Option<String> {
    if m.message_type@ == type_http_response() {
        match json_get(m.payload, "body"@) {
            Some(b) => json_text(b),
            None => None,
        }
    } else {
        None
    }
}

/// The answer of the generate endpoint to what the client sent: the `body`
/// member of an `http_response` when it is text, 502 for any other message,
/// 504 when nothing came (the channel closed or the wait timed out).
pub fn generate_answer(received: Option<WSMessage>) -> (r: Result<String, HttpStatus>)
    ensures
        match received {
            None => r matches Err(s) && s@ == 504,
            Some(m) => match generated_text(m) {
                Some(t) => r matches Ok(text) && text@ == t@,
                None => r matches Err(s) && s@ == 502,
            },
        },
{
    match received {
        Some(msg) => {
            if str_eq(msg.message_type.as_str(), "http_response") {
                match msg.payload.get("body") {
                    Some(b) => match b.as_str() {
                        Some(text) => Ok(String::from_str(text)),
                        None => Err(HttpStatus::bad_gateway()),
                    },
                    None => Err(HttpStatus::bad_gateway()),
                }
            } else {
                Err(HttpStatus::bad_gateway())
            }
        },
        None => Err(HttpStatus::gateway_timeout()),
    }
}

/// What the generate endpoint hands a client (see `send_generate_request`)
/// reads back as an HTTP request: a `POST` to the generate URL with every
/// text header of the incoming request and, as its body, the incoming body.
pub proof fn law_generate_request_carries_body(
    m: WSMessage,
    request_id: String,
    headers: Seq<RequestHeader>,
    body: String,
)
    requires
        is_generate_request(m, request_id, headers, body),
    ensures
        m.id == request_id,
        request_of(m) matches Some((method, url, sent_headers, sent_body)) && method@ == "POST"@
            && url@ == generate_url() && sent_headers == text_header_map(headers, true)
            && sent_body == body,
{
    let (method, url, all) = choose|method: String, url: String, all: StringMap|
        #[trigger] is_request_payload(m.payload, method, url, all, body) && method@ == "POST"@
            && url@ == generate_url() && all@ == text_header_map(headers, true);
    crate::message::law_request_round_trip(m, method, url, all, body);
}

} // verus!
