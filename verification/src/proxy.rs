//! Proxying HTTP requests to a browser client and turning its answer into an
//! HTTP response.
//!
//! A proxied request goes through these steps: the caller is authenticated
//! by API key; one of the user's connections is picked; the request is
//! registered under a fresh id with the channel that will carry the answer,
//! and sent to the client as an `http_request` message.  The waiting (for the
//! answer or for the timeout) is the caller's; what the answer means is
//! decided here.

use vstd::prelude::*;
use tokio::sync::mpsc::UnboundedSender;
use std::sync::Arc;
use crate::connection::{advanced, picked_connection, ConnectionPool, UserConnection};
use crate::headers::{header_text, header_value, headers_to_map, text_header_map, RequestHeader};
use crate::json::{json_get, json_u64, JsonValue};
use crate::message::{
    request_of,
    is_error_payload, is_response_payload, law_response_round_trip, is_text_member,
    is_request_payload, response_of, type_error, type_http_response, type_stream_chunk,
    type_stream_end, type_stream_start, chunk_of, HttpResponse, StreamChunk, WSMessage,
};
use crate::status::HttpStatus;
use crate::string_map::StringMap;
use crate::text::str_eq;

verus! {

/// The header that carries the API key.
pub open spec fn api_key_header() -> Seq<char> {
    "x-goog-api-key"@
}

/// The host that proxied requests are addressed to.
pub open spec fn upstream_origin() -> Seq<char> {
    "https://generativelanguage.googleapis.com"@
}

/// `q[a..b]` is one of the pieces of `q` split at `&`.
pub open spec fn is_piece(q: Seq<char>, a: int, b: int) -> bool {
    &&& 0 <= a <= b <= q.len()
    &&& a == 0 || q[a - 1] == '&'
    &&& b == q.len() || q[b] == '&'
    &&& forall|i: int| a <= i < b ==> q[i] != '&'
}

/// `piece` splits at its first `=` into `key` and `value`.
pub open spec fn param_is(piece: Seq<char>, key: Seq<char>, value: Seq<char>) -> bool {
    exists|e: int|
        0 <= e < piece.len() && #[trigger] piece[e] == '=' && (forall|i: int|
            0 <= i < e ==> piece[i] != '=') && piece.subrange(0, e) == key && piece.subrange(
            e + 1,
            piece.len() as int,
        ) == value
}

/// The query string holds the parameter `key` with the value `expected`.
pub open spec fn query_grants(q: Seq<char>, expected: Seq<char>) -> bool {
    exists|a: int, b: int| #[trigger] is_piece(q, a, b) && param_is(q.subrange(a, b), "key"@, expected)
}

/// A request is authenticated when its first `x-goog-api-key` header is the
/// expected key, or its query string holds `key=<expected key>`.
pub open spec fn request_authenticated(
    headers: Seq<RequestHeader>,
    query_string: Option<String>,
    expected_key: Seq<char>,
) -> bool {
    (header_text(headers, api_key_header()) matches Some(k) && k@ == expected_key) || (
    query_string matches Some(q) && query_grants(q@, expected_key))
}

/// Whether the piece `query[start..end]` is `key=<expected>`.
fn piece_grants(query: &str, start: usize, end: usize, expected: &str) -> (r: bool)
    requires
        start <= end <= query@.len(),
    ensures
        r == param_is(query@.subrange(start as int, end as int), "key"@, expected@),
{
    let ghost piece = query@.subrange(start as int, end as int);
    let mut e: usize = start;
    while e < end
        invariant
            start <= e <= end,
            end <= query@.len(),
            piece == query@.subrange(start as int, end as int),
            forall|i: int| start <= i < e ==> query@[i] != '=',
        decreases end - e,
    {
        if query.get_char(e) == '=' {
            let key = query.substring_char(start, e);
            let value = query.substring_char(e + 1, end);
            let r = str_eq(key, "key") && str_eq(value, expected);
            proof {
                let k = (e - start) as int;
                assert(piece[k] == '=');
                assert forall|i: int| 0 <= i < k implies piece[i] != '=' by {
                    assert(piece[i] == query@[start + i]);
                }
                assert(piece.subrange(0, k) =~= key@);
                assert(piece.subrange(k + 1, piece.len() as int) =~= value@);
                if !r {
                    assert forall|x: int|
                        0 <= x < piece.len() && #[trigger] piece[x] == '=' && (forall|i: int|
                            0 <= i < x ==> piece[i] != '=') implies !(piece.subrange(0, x)
                        == "key"@ && piece.subrange(x + 1, piece.len() as int) == expected@) by {
                        if x < k {
                            assert(piece[x] == query@[start + x]);
                        }
                        assert(x >= k);
                        assert(x == k);
                    }
                }
            }
            return r;
        }
        e = e + 1;
    }
    proof {
        assert forall|x: int|
            0 <= x < piece.len() && #[trigger] piece[x] == '=' implies false by {
            assert(piece[x] == query@[start + x]);
        }
    }
    false
}

/// Whether the query string holds `key=<expected>` (`split('&')`, then
/// `split_once('=')` on each piece).
fn query_holds_key(query: &str, expected: &str) -> (r: bool)
    ensures
        r == query_grants(query@, expected@),
{
    let n = query.unicode_len();
    let mut start: usize = 0;
    let mut i: usize = 0;
    while i < n
        invariant
            n == query@.len(),
            start <= i <= n,
            start == 0 || query@[start - 1] == '&',
            forall|j: int| start <= j < i ==> query@[j] != '&',
            forall|a: int, b: int|
                #[trigger] is_piece(query@, a, b) && b < i ==> !param_is(
                    query@.subrange(a, b),
                    "key"@,
                    expected@,
                ),
        decreases n - i,
    {
        if query.get_char(i) == '&' {
            assert(is_piece(query@, start as int, i as int));
            if piece_grants(query, start, i, expected) {
                return true;
            }
            proof {
                assert forall|a: int, b: int|
                    #[trigger] is_piece(query@, a, b) && b < i + 1 implies !param_is(
                        query@.subrange(a, b),
                        "key"@,
                        expected@,
                    ) by {
                    if b == i {
                        if a < start {
                            assert(query@[start - 1] == '&');
                        } else if a > start {
                            assert(query@[a - 1] == '&');
                        }
                        assert(a == start);
                    }
                }
            }
            start = i + 1;
        } else {
            proof {
                assert forall|a: int, b: int|
                    #[trigger] is_piece(query@, a, b) && b < i + 1 implies !param_is(
                        query@.subrange(a, b),
                        "key"@,
                        expected@,
                    ) by {
                    if b == i {
                        assert(query@[b] != '&');
                    }
                }
            }
        }
        i = i + 1;
    }
    // The last piece runs to the end of the query.
    assert(is_piece(query@, start as int, n as int));
    let last = piece_grants(query, start, n, expected);
    proof {
        if !last {
            assert forall|a: int, b: int|
                #[trigger] is_piece(query@, a, b) implies !param_is(
                    query@.subrange(a, b),
                    "key"@,
                    expected@,
                ) by {
                if b == n {
                    if a < start {
                        assert(query@[start - 1] == '&');
                    } else if a > start {
                        assert(query@[a - 1] == '&');
                    }
                    assert(a == start);
                }
            }
        }
    }
    last
}

/// Authenticates a proxied request by its API key: the first
/// `x-goog-api-key` header, else a `key` parameter of the query string, must
/// equal `expected_key`.  The user of an authenticated request is `user-1`.
pub fn authenticate_request(
    headers: &Vec<RequestHeader>,
    query_string: &Option<String>,
    expected_key: &str,
) -> (r: Result<String, HttpStatus>)
    ensures
        r is Ok <==> request_authenticated(headers@, *query_string, expected_key@),
        r matches Ok(u) ==> u@ == crate::auth::default_user(),
        r matches Err(s) ==> s@ == 401,
{
    if let Some(api_key) = header_value(headers, "x-goog-api-key") {
        if str_eq(api_key.as_str(), expected_key) {
            return Ok(String::from_str("user-1"));
        }
    }
    if let Some(query) = query_string {
        if query_holds_key(query.as_str(), expected_key) {
            return Ok(String::from_str("user-1"));
        }
    }
    Err(HttpStatus::unauthorized())
}

/// A character that an HTTP header name may hold: a letter (upper-case
/// letters are taken as lower case), a digit, or one of ``!#$%&'*+-.^_`|~``.
/// Every byte of a non-ASCII character's UTF-8 form is 128 or above, which
/// `http`'s table of header-name bytes refuses.
pub open spec fn header_name_char(c: char) -> bool {
    ('a' <= c && c <= 'z') || ('A' <= c && c <= 'Z') || ('0' <= c && c <= '9') || c == '!' || c
        == '#' || c == '$' || c == '%' || c == '&' || c == '\'' || c == '*' || c == '+' || c == '-'
        || c == '.' || c == '^' || c == '_' || c == '`' || c == '|' || c == '~'
}

/// What `http::HeaderName::from_bytes` accepts as a header name (the
/// response builder parses header names with it): from 1 to 65535 bytes,
/// each a header-name character.
pub open spec fn header_name_accepted(name: Seq<char>) -> bool {
    &&& 1 <= name.len() <= 65535
    &&& forall|i: int| 0 <= i < name.len() ==> header_name_char(#[trigger] name[i])
}

/// Whether `http::HeaderName::from_bytes` accepts the bytes of `name`.  Its
/// source maps every byte through a table of header-name bytes and refuses
/// an empty name, one longer than 65535 bytes, and one with a byte that the
/// table maps to 0; that table admits exactly the ASCII header-name
/// characters.
#[verifier::external_body]
fn header_name_valid(name: &str) -> (r: bool)
    ensures
        r == header_name_accepted(name@),
{
    axum::http::HeaderName::from_bytes(name.as_bytes()).is_ok()
}

/// A character that a header value may hold.  `http::HeaderValue` accepts
/// the bytes from 32 to 255 but 127, and the tab; every byte of a non-ASCII
/// character's UTF-8 form is 128 or above.
pub open spec fn header_value_char(c: char) -> bool {
    c == '\t' || (c as u32 >= 32 && c as u32 != 127)
}

/// Whether `http::HeaderValue::from_str` accepts `value`: exactly when every
/// byte is accepted (its source checks each byte).
#[verifier::external_body]
fn header_value_valid(value: &str) -> (r: bool)
    ensures
        r == forall|i: int| 0 <= i < value@.len() ==> header_value_char(#[trigger] value@[i]),
{
    axum::http::HeaderValue::from_str(value).is_ok()
}

/// An HTTP response with this status and these headers can be built: the
/// status is one that HTTP accepts and every header name and value parses.
pub open spec fn response_buildable(status: u16, headers: Map<Seq<char>, Seq<char>>) -> bool {
    &&& 100 <= status <= 999
    &&& forall|k: Seq<char>|
        #[trigger] headers.contains_key(k) ==> header_name_accepted(k) && forall|i: int|
            0 <= i < headers[k].len() ==> header_value_char(#[trigger] headers[k][i])
}

/// The status code that an `error` message asks for: its `status` member as
/// an unsigned integer cut to 16 bits, 500 when there is none.
pub open spec fn error_status_code(payload: JsonValue) -> int {
    match json_get(payload, "status"@) {
        Some(v) => match json_u64(v) {
            Some(n) => n as int % 65536,
            None => 500,
        },
        None => 500,
    }
}

/// The status that answers an `error` message: the code it asks for when
/// HTTP accepts that code, 502 otherwise.
pub open spec fn error_answer(payload: JsonValue) -> int {
    if 100 <= error_status_code(payload) <= 999 {
        error_status_code(payload)
    } else {
        502
    }
}

/// `r` answers the client's message `msg`:
/// - an `http_response` whose payload is a response record becomes that
///   response when it can be built, a 500 otherwise;
/// - an `http_response` without a response record is a 502;
/// - an `error` becomes the status it asks for (see `error_answer`);
/// - any other message is a 502.
pub open spec fn is_answer(msg: WSMessage, r: Result<HttpResponse, HttpStatus>) -> bool {
    if msg.message_type@ == type_http_response() {
        match response_of(msg) {
            Some((status, headers, body)) => if response_buildable(status, headers) {
                r matches Ok(x) && x.status == status && x.headers@ == headers && x.body == body
            } else {
                r matches Err(s) && s@ == 500
            },
            None => r matches Err(s) && s@ == 502,
        }
    } else if msg.message_type@ == type_error() {
        r matches Err(s) && s@ == error_answer(msg.payload)
    } else {
        r matches Err(s) && s@ == 502
    }
}

/// Whether every header of a response parses.
fn headers_buildable(headers: &StringMap) -> (r: bool)
    ensures
        r == forall|k: Seq<char>|
            #[trigger] headers@.contains_key(k) ==> header_name_accepted(k) && forall|i: int|
                0 <= i < headers@[k].len() ==> header_value_char(#[trigger] headers@[k][i]),
{
    let entries = headers.entries();
    proof {
        crate::string_map::lemma_entries_map(entries@);
    }
    let mut i: usize = 0;
    while i < entries.len()
        invariant
            entries@ == headers.entries_seq(),
            headers@ == crate::string_map::entries_to_map(entries@),
            crate::string_map::keys_distinct(entries@),
            forall|j: int|
                0 <= j < entries@.len() ==> headers@.contains_key(#[trigger] entries@[j].0@)
                    && headers@[entries@[j].0@] == entries@[j].1@,
            forall|k: Seq<char>|
                #[trigger] headers@.contains_key(k) ==> exists|j: int|
                    0 <= j < entries@.len() && #[trigger] entries@[j].0@ == k,
            0 <= i <= entries@.len(),
            forall|j: int|
                0 <= j < i ==> header_name_accepted(#[trigger] entries@[j].0@) && forall|c: int|
                    0 <= c < entries@[j].1@.len() ==> header_value_char(#[trigger] entries@[j].1@[c]),
        decreases entries@.len() - i,
    {
        let name = entries[i].0.as_str();
        let value = entries[i].1.as_str();
        let name_ok = header_name_valid(name);
        let value_ok = header_value_valid(value);
        assert(value@ == entries@[i as int].1@);
        if !(name_ok && value_ok) {
            proof {
                let k = entries@[i as int].0@;
                assert(headers@.contains_key(k));
            }
            return false;
        }
        i = i + 1;
    }
    proof {
        assert forall|k: Seq<char>| #[trigger] headers@.contains_key(k) implies header_name_accepted(k)
            && forall|c: int|
            0 <= c < headers@[k].len() ==> header_value_char(#[trigger] headers@[k][c]) by {
            let j = choose|j: int| 0 <= j < entries@.len() && #[trigger] entries@[j].0@ == k;
            assert(entries@[j].0@ == k);
        }
    }
    true
}

/// Turns the client's answer into the HTTP response to give (see
/// `is_answer`).
pub fn handle_websocket_response(msg: WSMessage) -> (r: Result<HttpResponse, HttpStatus>)
    ensures
        is_answer(msg, r),
{
    if str_eq(msg.message_type.as_str(), "http_response") {
        match HttpResponse::from_message(&msg) {
            Some(response) => {
                if HttpStatus::from_code(response.status).is_some() && headers_buildable(
                    &response.headers,
                ) {
                    Ok(response)
                } else {
                    Err(HttpStatus::internal_server_error())
                }
            },
            None => Err(HttpStatus::bad_gateway()),
        }
    } else if str_eq(msg.message_type.as_str(), "error") {
        let code: u16 = match msg.payload.get("status") {
            Some(v) => match v.as_u64() {
                Some(n) => {
                    let c = n as u16;
                    assert(c == n % 65536) by (bit_vector)
                        requires
                            c == n as u16,
                    ;
                    c
                },
                None => 500,
            },
            None => 500,
        };
        match HttpStatus::from_code(code) {
            Some(s) => Err(s),
            None => Err(HttpStatus::bad_gateway()),
        }
    } else {
        Err(HttpStatus::bad_gateway())
    }
}

/// The next event of a streamed response.
#[derive(Debug)]
pub enum StreamEvent {
    /// An event with this data.
    Data(String),
    /// The stream is over.
    End,
}

/// What a streamed response does with what its channel gave: the start of
/// the stream is announced with the data `stream_start`, a chunk passes its
/// data on (empty data when the chunk does not decode), the end of the
/// stream, an error or a closed channel end it, and any other message gives
/// an event with empty data.
pub open spec fn is_stream_event(received: Option<WSMessage>, r: StreamEvent) -> bool {
    match received {
        None => r is End,
        Some(m) => if m.message_type@ == type_stream_start() {
            r matches StreamEvent::Data(d) && d@ == "stream_start"@
        } else if m.message_type@ == type_stream_chunk() {
            r matches StreamEvent::Data(d) && match chunk_of(m) {
                Some(data) => d == data,
                None => d@ == Seq::<char>::empty(),
            }
        } else if m.message_type@ == type_stream_end() || m.message_type@ == type_error() {
            r is End
        } else {
            r matches StreamEvent::Data(d) && d@ == Seq::<char>::empty()
        },
    }
}

/// One step of a streamed response for the request `request_id`: the event
/// to emit for what the channel gave (see `is_stream_event`).  When the
/// stream ends, the request stops being pending.
pub fn next_stream_event(pool: &mut ConnectionPool, request_id: &str, received: Option<WSMessage>) -> (r:
    StreamEvent)
    requires
        old(pool).wf(),
    ensures
        final(pool).wf(),
        is_stream_event(received, r),
        final(pool).users() == old(pool).users(),
        r is End ==> final(pool).pending() == old(pool).pending().remove(request_id@),
        r is Data ==> final(pool).pending() == old(pool).pending(),
{
    match received {
        Some(msg) => {
            if str_eq(msg.message_type.as_str(), "stream_start") {
                StreamEvent::Data(String::from_str("stream_start"))
            } else if str_eq(msg.message_type.as_str(), "stream_chunk") {
                match StreamChunk::from_message(&msg) {
                    Some(chunk) => StreamEvent::Data(chunk.data),
                    None => StreamEvent::Data(String::new()),
                }
            } else if str_eq(msg.message_type.as_str(), "stream_end") || str_eq(
                msg.message_type.as_str(),
                "error",
            ) {
                pool.remove_pending_request(request_id);
                StreamEvent::End
            } else {
                StreamEvent::Data(String::new())
            }
        },
        None => {
            pool.remove_pending_request(request_id);
            StreamEvent::End
        },
    }
}

/// A lower-case hexadecimal digit.
pub open spec fn is_lower_hex(c: char) -> bool {
    ('0' <= c && c <= '9') || ('a' <= c && c <= 'f')
}

/// A fresh request id: `uuid::Uuid::new_v4()` written out with `to_string()`.
/// uuid's source writes a version-4 UUID as 36 characters: lower-case
/// hexadecimal digits with hyphens at 8, 13, 18 and 23, and the version digit
/// `4` at 14.  Which UUID comes out is not stated: it is random.
#[verifier::external_body]
pub(crate) fn new_request_id() -> (r: String)
    ensures
        r@.len() == 36,
        r@[8] == '-' && r@[13] == '-' && r@[18] == '-' && r@[23] == '-',
        r@[14] == '4',
        forall|i: int|
            0 <= i < 36 && i != 8 && i != 13 && i != 18 && i != 23 ==> is_lower_hex(#[trigger] r@[i]),
{
    uuid::Uuid::new_v4().to_string()
}

/// `m` is the `http_request` message with id `request_id` that asks the
/// client to perform the request: `method`, the path appended to the
/// upstream origin, the forwarded headers (see `headers_to_map`) and `body`.
pub open spec fn is_upstream_request(
    m: WSMessage,
    request_id: String,
    method: String,
    path: Seq<char>,
    headers: Seq<RequestHeader>,
    body: String,
) -> bool {
    &&& m.id == request_id
    &&& m.message_type@ == crate::message::type_http_request()
    &&& exists|url: String, forwarded: StringMap|
        #[trigger] is_request_payload(m.payload, method, url, forwarded, body) && url@
            == upstream_origin() + path && forwarded@ == text_header_map(headers, false)
}

/// The `http_request` message that asks the client to perform a request:
/// the path appended to the upstream origin, and the forwarded headers (see
/// `headers_to_map`).
pub fn build_request_message(
    request_id: String,
    method: String,
    path: &str,
    headers: &Vec<RequestHeader>,
    body: String,
) -> (r: WSMessage)
    ensures
        is_upstream_request(r, request_id, method, path@, headers@, body),
{
    let mut url = String::from_str("https://generativelanguage.googleapis.com");
    url.append(path);
    let forwarded = headers_to_map(headers);
    let ghost u = url;
    let ghost f = forwarded;
    let r = WSMessage::http_request(request_id, method, url, forwarded, body);
    assert(is_request_payload(r.payload, method, u, f, body));
    r
}

/// The decisions of the first half of a proxied request: authenticates it
/// (401 when that fails), picks a connection of the user in round-robin
/// order (503 when the user has none), and registers the request under a
/// fresh id with `reply` as its answer channel.  What comes back is the id,
/// the picked connection and the message to send it (see
/// `is_upstream_request`).
pub fn prepare_request(
    pool: &mut ConnectionPool,
    method: String,
    path: &str,
    query_string: &Option<String>,
    headers: &Vec<RequestHeader>,
    body: String,
    expected_key: &str,
    reply: UnboundedSender<WSMessage>,
) -> (r: Result<(String, Arc<UserConnection>, WSMessage), HttpStatus>)
    requires
        old(pool).wf(),
    ensures
        final(pool).wf(),
        final(pool).handed() == old(pool).handed(),
        !request_authenticated(headers@, *query_string, expected_key@) ==> (r matches Err(s) && s@
            == 401) && final(pool).users() == old(pool).users() && final(pool).pending() == old(
            pool).pending(),
        request_authenticated(headers@, *query_string, expected_key@) && !old(
            pool).users().contains_key(crate::auth::default_user()) ==> (r matches Err(s) && s@ == 503)
            && final(pool).users() == old(pool).users() && final(pool).pending() == old(pool).pending(),
        request_authenticated(headers@, *query_string, expected_key@) && old(
            pool).users().contains_key(crate::auth::default_user()) ==> advanced(
            old(pool).users(),
            final(pool).users(),
            crate::auth::default_user(),
        ) && (r matches Ok((id, connection, message)) && id@.len() == 36 && final(pool).pending()
            == old(pool).pending().insert(id@, reply) && connection == picked_connection(
            old(pool).users(),
            crate::auth::default_user(),
        ) && is_upstream_request(message, id, method, path@, headers@, body)),
{
    let user_id = match authenticate_request(headers, query_string, expected_key) {
        Ok(u) => u,
        Err(s) => return Err(s),
    };
    let connection = match pool.get_connection(user_id.as_str()) {
        Some(c) => c,
        None => return Err(HttpStatus::service_unavailable()),
    };
    let request_id = new_request_id();
    pool.register_pending_request(request_id.clone(), reply);
    let message = build_request_message(request_id.clone(), method, path, headers, body);
    Ok((request_id, connection, message))
}

/// The first half of a proxied request: `prepare_request`, then the
/// message goes to the picked connection.  When the client's channel is
/// closed the registration is withdrawn and the answer is 502; otherwise the
/// request id comes back, for `finish_request`.
pub fn send_request(
    pool: &mut ConnectionPool,
    method: String,
    path: &str,
    query_string: &Option<String>,
    headers: &Vec<RequestHeader>,
    body: String,
    expected_key: &str,
    reply: UnboundedSender<WSMessage>,
) -> (r: Result<String, HttpStatus>)
    requires
        old(pool).wf(),
    ensures
        final(pool).wf(),
        !request_authenticated(headers@, *query_string, expected_key@) ==> (r matches Err(s) && s@
            == 401) && final(pool).users() == old(pool).users() && final(pool).pending() == old(
            pool).pending() && final(pool).handed() == old(pool).handed(),
        request_authenticated(headers@, *query_string, expected_key@) && !old(
            pool).users().contains_key(crate::auth::default_user()) ==> (r matches Err(s) && s@ == 503)
            && final(pool).users() == old(pool).users() && final(pool).pending() == old(pool).pending()
            && final(pool).handed() == old(pool).handed(),
        request_authenticated(headers@, *query_string, expected_key@) && old(
            pool).users().contains_key(crate::auth::default_user()) ==> advanced(
            old(pool).users(),
            final(pool).users(),
            crate::auth::default_user(),
        ) && match r {
            Ok(id) => id@.len() == 36 && final(pool).pending() == old(pool).pending().insert(
                id@,
                reply,
            ),
            Err(s) => s@ == 502 && exists|id: Seq<char>|
                final(pool).pending() == #[trigger] old(pool).pending().insert(id, reply).remove(id),
        } && final(pool).handed() == old(pool).handed().push(
            (
                picked_connection(old(pool).users(), crate::auth::default_user()).sender,
                final(pool).handed().last().1,
            ),
        ) && is_upstream_request(
            final(pool).handed().last().1,
            final(pool).handed().last().1.id,
            method,
            path@,
            headers@,
            body,
        ) && (r matches Ok(id) ==> final(pool).handed().last().1.id == id),
{
    let (request_id, connection, message) = prepare_request(
        pool,
        method,
        path,
        query_string,
        headers,
        body,
        expected_key,
        reply,
    )?;
    match pool.send_to(&connection, message) {
        Ok(()) => Ok(request_id),
        Err(_) => {
            pool.remove_pending_request(request_id.as_str());
            Err(HttpStatus::bad_gateway())
        },
    }
}

/// The second half of a proxied request: the request stops being pending,
/// and its answer is what the client sent (see `is_answer`), or 504 when
/// nothing came (the channel closed or the wait timed out).
pub fn finish_request(pool: &mut ConnectionPool, request_id: &str, received: Option<WSMessage>) -> (r:
    Result<HttpResponse, HttpStatus>)
    requires
        old(pool).wf(),
    ensures
        final(pool).wf(),
        final(pool).users() == old(pool).users(),
        final(pool).pending() == old(pool).pending().remove(request_id@),
        match received {
            Some(m) => is_answer(m, r),
            None => r matches Err(s) && s@ == 504,
        },
{
    pool.remove_pending_request(request_id);
    match received {
        Some(msg) => handle_websocket_response(msg),
        None => Err(HttpStatus::gateway_timeout()),
    }
}

/// The state of the proxy: the connection pool and the API key.
pub struct AppState {
    pub connection_pool: ConnectionPool,
    pub auth_api_key: String,
}

impl AppState {
    /// A state with an empty pool.
    pub fn new(auth_api_key: String) -> (r: AppState)
        ensures
            r.connection_pool.wf(),
            r.connection_pool.users().dom() == Set::<Seq<char>>::empty(),
            r.connection_pool.pending().dom() == Set::<Seq<char>>::empty(),
            r.auth_api_key == auth_api_key,
    {
        AppState { connection_pool: ConnectionPool::new(), auth_api_key }
    }
}

/// A refused request is answered with the status it asks for: an `error`
/// message built with a status that HTTP accepts is answered with that
/// status, with any other status with 502, and without a status with 500.
pub proof fn law_error_answer(msg: WSMessage, error: String, status: Option<u16>)
    requires
        msg.message_type@ == type_error(),
        is_error_payload(msg.payload, error, status),
    ensures
        error_answer(msg.payload) == match status {
            Some(s) => if 100 <= s <= 999 {
                s as int
            } else {
                502
            },
            None => 500,
        },
{
    reveal_strlit("error");
    reveal_strlit("status");
    assert("error"@.len() == 5 && "status"@.len() == 6);
    let m = msg.payload->Object_0@;
    assert(m[0].0@ != "status"@);
    assert(crate::json::member(m, "status"@) == crate::json::member(m.drop_first(), "status"@));
    if status is Some {
        assert(m.drop_first()[0] == m[1]);
        assert((status.unwrap() as u64) as int % 65536 == status.unwrap() as int);
    } else {
        assert(crate::json::member(m.drop_first(), "status"@) is None);
    }
}

/// A response passes through the proxy unchanged: the answer to a message
/// built by `WSMessage::http_response` is that status, headers and body,
/// when they make a valid HTTP response.
pub proof fn law_response_passes_through(
    msg: WSMessage,
    status: u16,
    headers: StringMap,
    body: String,
    r: Result<HttpResponse, HttpStatus>,
)
    requires
        msg.message_type@ == type_http_response(),
        is_response_payload(msg.payload, status, headers, body),
        response_buildable(status, headers@),
        is_answer(msg, r),
    ensures
        r matches Ok(x) && x.status == status && x.headers@ == headers@ && x.body == body,
{
    law_response_round_trip(msg, status, headers, body);
}

/// A chunk passes through a stream unchanged: the event for a message built
/// by `WSMessage::stream_chunk` carries its data.
pub proof fn law_chunk_passes_through(msg: WSMessage, data: String, r: StreamEvent)
    requires
        msg.message_type@ == type_stream_chunk(),
        msg.payload matches JsonValue::Object(members) && members@.len() == 1 && is_text_member(
            members@[0],
            "data"@,
            data,
        ),
        is_stream_event(Some(msg), r),
    ensures
        r matches StreamEvent::Data(d) && d == data,
{
    reveal_strlit("stream_start");
    reveal_strlit("stream_chunk");
    assert(type_stream_start().len() == 12 && type_stream_chunk().len() == 12);
    assert(type_stream_start()[7] != type_stream_chunk()[7]);
    crate::message::law_chunk_round_trip(msg, data);
}

/// A proxied request leaves no registration behind: registering a request
/// id that was not pending (`send_request`, `send_generate_request`) and
/// then withdrawing it (`finish_request`, `finish_generate_request`, the end
/// of its stream in `next_stream_event`, or the failed send itself) gives
/// back the pending requests as they were.
pub proof fn law_request_leaves_no_trace(
    before: Map<Seq<char>, UnboundedSender<WSMessage>>,
    id: Seq<char>,
    reply: UnboundedSender<WSMessage>,
)
    requires
        !before.contains_key(id),
    ensures
        before.insert(id, reply).remove(id) == before,
{
    assert(before.insert(id, reply).remove(id) =~= before);
}

/// What a proxied request hands a client (see `send_request`) reads back
/// as an HTTP request: the incoming method, the path appended to the
/// upstream origin, the forwarded headers (every text header but the
/// hop-by-hop ones, see `law_forwards_all_but_hop_by_hop`) and the incoming
/// body.
pub proof fn law_upstream_request_carries_request(
    m: WSMessage,
    request_id: String,
    method: String,
    path: Seq<char>,
    headers: Seq<RequestHeader>,
    body: String,
)
    requires
        is_upstream_request(m, request_id, method, path, headers, body),
    ensures
        m.id == request_id,
        request_of(m) matches Some((sent_method, url, sent_headers, sent_body)) && sent_method
            == method && url@ == upstream_origin() + path && sent_headers == text_header_map(
            headers,
            false,
        ) && sent_body == body,
{
    let (url, forwarded) = choose|url: String, forwarded: StringMap|
        #[trigger] is_request_payload(m.payload, method, url, forwarded, body) && url@
            == upstream_origin() + path && forwarded@ == text_header_map(headers, false);
    crate::message::law_request_round_trip(m, method, url, forwarded, body);
}

} // verus!
