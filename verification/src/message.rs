//! The WebSocket message protocol between the proxy and its browser clients.
//!
//! Every message carries an id, a type name and a JSON payload.  The builders
//! below produce the payload shape of each type, and the decoders read the
//! typed views (`HttpRequest`, `HttpResponse`, `StreamChunk`) back out of a
//! payload.  A decoder accepts a payload in either of the two shapes that a
//! JSON record may take: an object holding the named fields (other members
//! are ignored), or an array holding exactly the fields in their declared
//! order.

use vstd::prelude::*;
use crate::json::{json_text, json_u16, member, JsonNumber, JsonValue};
use crate::string_map::{entries_to_map, StringMap};
use crate::text::str_eq;
use vstd::std_specs::convert::FromSpecImpl;
use vstd::std_specs::cmp::PartialEqSpecImpl;
use vstd::std_specs::cmp::PartialEqSpec;

verus! {

/// The type names of the protocol.
pub open spec fn type_ping() -> Seq<char> { "ping"@ }
pub open spec fn type_pong() -> Seq<char> { "pong"@ }
pub open spec fn type_http_request() -> Seq<char> { "http_request"@ }
pub open spec fn type_http_response() -> Seq<char> { "http_response"@ }
pub open spec fn type_stream_start() -> Seq<char> { "stream_start"@ }
pub open spec fn type_stream_chunk() -> Seq<char> { "stream_chunk"@ }
pub open spec fn type_stream_end() -> Seq<char> { "stream_end"@ }
pub open spec fn type_error() -> Seq<char> { "error"@ }

/// A message on the WebSocket.  On the wire the type name is the member
/// `type` of the JSON record.
#[derive(Debug)]
pub struct WSMessage {
    pub id: String,
    pub message_type: String,
    pub payload: JsonValue,
}

/// A JSON object member for a string.
pub open spec fn is_text_member(m: (String, JsonValue), key: Seq<char>, text: String) -> bool {
    m.0@ == key && m.1 == JsonValue::String(text)
}

/// `value` is the JSON object of the entries of `map`, in the same order,
/// each value a JSON string.
pub open spec fn is_map_object(value: JsonValue, map: StringMap) -> bool {
    &&& value matches JsonValue::Object(members)
    &&& members@.len() == map.entries_seq().len()
    &&& forall|i: int|
        0 <= i < members@.len() ==> #[trigger] members@[i].0 == map.entries_seq()[i].0
            && members@[i].1 == JsonValue::String(map.entries_seq()[i].1)
}

/// The payload of an HTTP request message.
pub open spec fn is_request_payload(
    payload: JsonValue,
    method: String,
    url: String,
    headers: StringMap,
    body: String,
) -> bool {
    &&& payload matches JsonValue::Object(members)
    &&& members@.len() == 4
    &&& is_text_member(members@[0], "method"@, method)
    &&& is_text_member(members@[1], "url"@, url)
    &&& members@[2].0@ == "headers"@ && is_map_object(members@[2].1, headers)
    &&& is_text_member(members@[3], "body"@, body)
}

/// The payload of an HTTP response message.
pub open spec fn is_response_payload(
    payload: JsonValue,
    status: u16,
    headers: StringMap,
    body: String,
) -> bool {
    &&& payload matches JsonValue::Object(members)
    &&& members@.len() == 3
    &&& members@[0].0@ == "status"@ && members@[0].1 == JsonValue::Number(
        JsonNumber::PosInt(status as u64),
    )
    &&& members@[1].0@ == "headers"@ && is_map_object(members@[1].1, headers)
    &&& is_text_member(members@[2], "body"@, body)
}

/// The payload of an error message.
pub open spec fn is_error_payload(payload: JsonValue, error: String, status: Option<u16>) -> bool {
    &&& payload matches JsonValue::Object(members)
    &&& is_text_member(members@[0], "error"@, error)
    &&& match status {
        None => members@.len() == 1,
        Some(s) => members@.len() == 2 && members@[1].0@ == "status"@ && members@[1].1
            == JsonValue::Number(JsonNumber::PosInt(s as u64)),
    }
}

/// A JSON object member for a string, built from a key literal.
fn text_member(key: &str, text: String) -> (r: (String, JsonValue))
    ensures
        is_text_member(r, key@, text),
{
    (String::from_str(key), JsonValue::String(text))
}

/// The JSON object of a string map.
pub(crate) fn map_object(map: StringMap) -> (r: JsonValue)
    ensures
        is_map_object(r, map),
{
    let entries = map.entries();
    let mut members: Vec<(String, JsonValue)> = Vec::new();
    let mut i: usize = 0;
    while i < entries.len()
        invariant
            entries@ == map.entries_seq(),
            0 <= i <= entries@.len(),
            members@.len() == i,
            forall|j: int|
                0 <= j < i ==> #[trigger] members@[j].0 == entries@[j].0 && members@[j].1
                    == JsonValue::String(entries@[j].1),
        decreases entries@.len() - i,
    {
        let key = entries[i].0.clone();
        let value = entries[i].1.clone();
        members.push((key, JsonValue::String(value)));
        i = i + 1;
    }
    JsonValue::Object(members)
}

impl WSMessage {
    /// A message from its three parts.
    pub fn new(id: String, message_type: String, payload: JsonValue) -> (r: WSMessage)
        ensures
            r.id == id,
            r.message_type == message_type,
            r.payload == payload,
    {
        WSMessage { id, message_type, payload }
    }

    /// A ping message.
    pub fn ping(id: String) -> (r: WSMessage)
        ensures
            r.id == id,
            r.message_type@ == type_ping(),
            r.payload == JsonValue::Null,
    {
        WSMessage { id, message_type: String::from_str("ping"), payload: JsonValue::Null }
    }

    /// A pong message.
    pub fn pong(id: String) -> (r: WSMessage)
        ensures
            r.id == id,
            r.message_type@ == type_pong(),
            r.payload == JsonValue::Null,
    {
        WSMessage { id, message_type: String::from_str("pong"), payload: JsonValue::Null }
    }

    /// A message that asks the client to perform an HTTP request.
    pub fn http_request(
        id: String,
        method: String,
        url: String,
        headers: StringMap,
        body: String,
    ) -> (r: WSMessage)
        ensures
            r.id == id,
            r.message_type@ == type_http_request(),
            is_request_payload(r.payload, method, url, headers, body),
    {
        let mut members: Vec<(String, JsonValue)> = Vec::new();
        members.push(text_member("method", method));
        members.push(text_member("url", url));
        members.push((String::from_str("headers"), map_object(headers)));
        members.push(text_member("body", body));
        WSMessage {
            id,
            message_type: String::from_str("http_request"),
            payload: JsonValue::Object(members),
        }
    }

    /// A message that carries the client's HTTP response.
    pub fn http_response(id: String, status: u16, headers: StringMap, body: String) -> (r:
        WSMessage)
        ensures
            r.id == id,
            r.message_type@ == type_http_response(),
            is_response_payload(r.payload, status, headers, body),
    {
        let mut members: Vec<(String, JsonValue)> = Vec::new();
        members.push(
            (String::from_str("status"), JsonValue::Number(JsonNumber::PosInt(status as u64))),
        );
        members.push((String::from_str("headers"), map_object(headers)));
        members.push(text_member("body", body));
        WSMessage {
            id,
            message_type: String::from_str("http_response"),
            payload: JsonValue::Object(members),
        }
    }

    /// A message that opens a streamed response with its headers.
    pub fn stream_start(id: String, headers: StringMap) -> (r: WSMessage)
        ensures
            r.id == id,
            r.message_type@ == type_stream_start(),
            r.payload matches JsonValue::Object(members) && members@.len() == 1 && members@[0].0@
                == "headers"@ && is_map_object(members@[0].1, headers),
    {
        let mut members: Vec<(String, JsonValue)> = Vec::new();
        members.push((String::from_str("headers"), map_object(headers)));
        WSMessage {
            id,
            message_type: String::from_str("stream_start"),
            payload: JsonValue::Object(members),
        }
    }

    /// A message that carries one piece of a streamed response.
    pub fn stream_chunk(id: String, data: String) -> (r: WSMessage)
        ensures
            r.id == id,
            r.message_type@ == type_stream_chunk(),
            r.payload matches JsonValue::Object(members) && members@.len() == 1
                && is_text_member(members@[0], "data"@, data),
    {
        let mut members: Vec<(String, JsonValue)> = Vec::new();
        members.push(text_member("data", data));
        WSMessage {
            id,
            message_type: String::from_str("stream_chunk"),
            payload: JsonValue::Object(members),
        }
    }

    /// A message that closes a streamed response.
    pub fn stream_end(id: String) -> (r: WSMessage)
        ensures
            r.id == id,
            r.message_type@ == type_stream_end(),
            r.payload == JsonValue::Null,
    {
        WSMessage { id, message_type: String::from_str("stream_end"), payload: JsonValue::Null }
    }

    /// An error message, with the HTTP status to answer with where one is
    /// given.
    pub fn error(id: String, error: String, status: Option<u16>) -> (r: WSMessage)
        ensures
            r.id == id,
            r.message_type@ == type_error(),
            is_error_payload(r.payload, error, status),
    {
        let mut members: Vec<(String, JsonValue)> = Vec::new();
        members.push(text_member("error", error));
        if let Some(s) = status {
            members.push(
                (String::from_str("status"), JsonValue::Number(JsonNumber::PosInt(s as u64))),
            );
        }
        WSMessage {
            id,
            message_type: String::from_str("error"),
            payload: JsonValue::Object(members),
        }
    }
}


/// The message kinds of the protocol.
#[derive(Debug, Clone)]
pub enum MessageType {
    Ping,
    Pong,
    HttpRequest,
    HttpResponse,
    StreamStart,
    StreamChunk,
    StreamEnd,
    Error,
    Unknown(String),
}

/// Two kinds are equal when they are the same kind, and, for `Unknown`,
/// name the same text.
pub open spec fn same_kind(a: MessageType, b: MessageType) -> bool {
    match (a, b) {
        (MessageType::Ping, MessageType::Ping) => true,
        (MessageType::Pong, MessageType::Pong) => true,
        (MessageType::HttpRequest, MessageType::HttpRequest) => true,
        (MessageType::HttpResponse, MessageType::HttpResponse) => true,
        (MessageType::StreamStart, MessageType::StreamStart) => true,
        (MessageType::StreamChunk, MessageType::StreamChunk) => true,
        (MessageType::StreamEnd, MessageType::StreamEnd) => true,
        (MessageType::Error, MessageType::Error) => true,
        (MessageType::Unknown(x), MessageType::Unknown(y)) => x@ == y@,
        _ => false,
    }
}

impl PartialEq for MessageType {
    fn eq(&self, other: &MessageType) -> (r: bool) {
        match (self, other) {
            (MessageType::Ping, MessageType::Ping) => true,
            (MessageType::Pong, MessageType::Pong) => true,
            (MessageType::HttpRequest, MessageType::HttpRequest) => true,
            (MessageType::HttpResponse, MessageType::HttpResponse) => true,
            (MessageType::StreamStart, MessageType::StreamStart) => true,
            (MessageType::StreamChunk, MessageType::StreamChunk) => true,
            (MessageType::StreamEnd, MessageType::StreamEnd) => true,
            (MessageType::Error, MessageType::Error) => true,
            (MessageType::Unknown(x), MessageType::Unknown(y)) => str_eq(x.as_str(), y.as_str()),
            _ => false,
        }
    }
}

impl PartialEqSpecImpl for MessageType {
    open spec fn obeys_eq_spec() -> bool {
        true
    }

    open spec fn eq_spec(&self, other: &MessageType) -> bool {
        same_kind(*self, *other)
    }
}

/// `t` is the kind that the type name `name` denotes.
pub open spec fn is_kind_of(name: Seq<char>, t: MessageType) -> bool {
    if name == type_ping() {
        t == MessageType::Ping
    } else if name == type_pong() {
        t == MessageType::Pong
    } else if name == type_http_request() {
        t == MessageType::HttpRequest
    } else if name == type_http_response() {
        t == MessageType::HttpResponse
    } else if name == type_stream_start() {
        t == MessageType::StreamStart
    } else if name == type_stream_chunk() {
        t == MessageType::StreamChunk
    } else if name == type_stream_end() {
        t == MessageType::StreamEnd
    } else if name == type_error() {
        t == MessageType::Error
    } else {
        t matches MessageType::Unknown(u) && u@ == name
    }
}

impl MessageType {
    /// The kind that a type name denotes; names outside the protocol are
    /// kept as `Unknown`.
    pub fn from_name(name: &str) -> (r: MessageType)
        ensures
            is_kind_of(name@, r),
    {
        if str_eq(name, "ping") {
            MessageType::Ping
        } else if str_eq(name, "pong") {
            MessageType::Pong
        } else if str_eq(name, "http_request") {
            MessageType::HttpRequest
        } else if str_eq(name, "http_response") {
            MessageType::HttpResponse
        } else if str_eq(name, "stream_start") {
            MessageType::StreamStart
        } else if str_eq(name, "stream_chunk") {
            MessageType::StreamChunk
        } else if str_eq(name, "stream_end") {
            MessageType::StreamEnd
        } else if str_eq(name, "error") {
            MessageType::Error
        } else {
            MessageType::Unknown(String::from_str(name))
        }
    }
}

impl<'a> From<&'a str> for MessageType {
    fn from(name: &'a str) -> (r: MessageType)
        ensures
            is_kind_of(name@, r),
    {
        MessageType::from_name(name)
    }
}

/// A type name denotes its kind only up to the text of an `Unknown` name, so
/// `from` is not claimed to equal a single value: its own `ensures` states
/// which kind comes back.
impl<'a> FromSpecImpl<&'a str> for MessageType {
    open spec fn obeys_from_spec() -> bool {
        false
    }

    open spec fn from_spec(name: &'a str) -> MessageType {
        choose|t: MessageType| #[trigger] is_kind_of(name@, t)
    }
}

impl<'a> From<&'a WSMessage> for MessageType {
    fn from(msg: &'a WSMessage) -> (r: MessageType)
        ensures
            is_kind_of(msg.message_type@, r),
    {
        MessageType::from_name(msg.message_type.as_str())
    }
}

impl<'a> FromSpecImpl<&'a WSMessage> for MessageType {
    open spec fn obeys_from_spec() -> bool {
        false
    }

    open spec fn from_spec(msg: &'a WSMessage) -> MessageType {
        choose|t: MessageType| #[trigger] is_kind_of(msg.message_type@, t)
    }
}

/// A field of a JSON record: the member `name` of an object, or the element
/// at `position` of an array that holds exactly `arity` elements.
pub open spec fn field_of(payload: JsonValue, name: Seq<char>, position: int, arity: int) -> Option<
    JsonValue,
> {
    match payload {
        JsonValue::Object(members) => member(members@, name),
        JsonValue::Array(items) => if items@.len() == arity {
            Some(items@[position])
        } else {
            None
        },
        _ => None,
    }
}

/// The string map that a JSON object of strings denotes (a later member
/// overriding an earlier one with the same key); nothing when a member value
/// is not a string.
pub open spec fn members_to_map(members: Seq<(String, JsonValue)>) -> Option<
    Map<Seq<char>, Seq<char>>,
>
    decreases members.len(),
{
    if members.len() == 0 {
        Some(Map::empty())
    } else {
        match (members_to_map(members.drop_last()), json_text(members.last().1)) {
            (Some(m), Some(t)) => Some(m.insert(members.last().0@, t@)),
            _ => None,
        }
    }
}

/// The string map that a JSON value denotes, if it is an object of strings.
pub open spec fn json_string_map(value: JsonValue) -> Option<Map<Seq<char>, Seq<char>>> {
    match value {
        JsonValue::Object(members) => members_to_map(members@),
        _ => None,
    }
}

/// Looks up a field of a JSON record.
fn find_field<'a>(payload: &'a JsonValue, name: &str, position: usize, arity: usize) -> (r: Option<
    &'a JsonValue,
>)
    requires
        position < arity,
    ensures
        match r {
            Some(v) => field_of(*payload, name@, position as int, arity as int) == Some(*v),
            None => field_of(*payload, name@, position as int, arity as int) is None,
        },
{
    match payload {
        JsonValue::Object(_) => payload.get(name),
        JsonValue::Array(items) => if items.len() == arity {
            Some(&items[position])
        } else {
            None
        },
        _ => None,
    }
}

/// A prefix of the members that is not a map of strings spoils the whole.
proof fn lemma_prefix_not_map(members: Seq<(String, JsonValue)>, i: int)
    requires
        0 <= i <= members.len(),
        members_to_map(members.take(i)) is None,
    ensures
        members_to_map(members) is None,
    decreases members.len(),
{
    if i < members.len() {
        assert(members.drop_last().take(i) =~= members.take(i));
        lemma_prefix_not_map(members.drop_last(), i);
    } else {
        assert(members.take(i) =~= members);
    }
}

/// Reads a JSON object of strings into a string map.
fn decode_string_map(value: &JsonValue) -> (r: Option<StringMap>)
    ensures
        match r {
            Some(m) => json_string_map(*value) == Some(m@),
            None => json_string_map(*value) is None,
        },
{
    match value {
        JsonValue::Object(members) => {
            let mut map = StringMap::new();
            let mut i: usize = 0;
            assert(members@.take(0) =~= Seq::<(String, JsonValue)>::empty());
            while i < members.len()
                invariant
                    json_string_map(*value) == members_to_map(members@),
                    0 <= i <= members@.len(),
                    members_to_map(members@.take(i as int)) == Some(map@),
                decreases members@.len() - i,
            {
                assert(members@.take(i + 1).drop_last() =~= members@.take(i as int));
                assert(members@.take(i + 1).last() == members@[i as int]);
                match &members[i].1 {
                    JsonValue::String(text) => {
                        map.insert(members[i].0.clone(), text.clone());
                    },
                    _ => {
                        proof {
                            lemma_prefix_not_map(members@, i + 1);
                        }
                        return None;
                    },
                }
                i = i + 1;
            }
            assert(members@.take(members@.len() as int) =~= members@);
            Some(map)
        },
        _ => None,
    }
}

/// Reads a string field.
fn text_field(field: Option<&JsonValue>) -> (r: Option<String>)
    ensures
        r == match field {
            Some(v) => json_text(*v),
            None => None,
        },
{
    match field {
        Some(JsonValue::String(s)) => Some(s.clone()),
        _ => None,
    }
}

/// Reads a `u16` field.
fn u16_field(field: Option<&JsonValue>) -> (r: Option<u16>)
    ensures
        r == match field {
            Some(v) => json_u16(*v),
            None => None,
        },
{
    match field {
        Some(JsonValue::Number(JsonNumber::PosInt(n))) => if *n <= 0xffff {
            Some(*n as u16)
        } else {
            None
        },
        Some(JsonValue::Number(JsonNumber::NegInt(n))) => if 0 <= *n && *n <= 0xffff {
            Some(*n as u16)
        } else {
            None
        },
        _ => None,
    }
}

/// Reads a string-map field.
fn map_field(field: Option<&JsonValue>) -> (r: Option<StringMap>)
    ensures
        match r {
            Some(m) => field matches Some(v) && json_string_map(*v) == Some(m@),
            None => field matches Some(v) ==> json_string_map(*v) is None,
        },
{
    match field {
        Some(v) => decode_string_map(v),
        None => None,
    }
}

/// An HTTP request as the client is asked to perform it.
#[derive(Debug, Clone)]
pub struct HttpRequest {
    pub method: String,
    pub url: String,
    pub headers: StringMap,
    pub body: String,
}

/// An HTTP response as the client reports it.
#[derive(Debug, Clone)]
pub struct HttpResponse {
    pub status: u16,
    pub headers: StringMap,
    pub body: String,
}

/// One piece of a streamed response.
#[derive(Debug, Clone)]
pub struct StreamChunk {
    pub data: String,
}

/// The fields (method, url, headers, body) that a request payload holds.
pub open spec fn request_fields(payload: JsonValue) -> Option<
    (String, String, Map<Seq<char>, Seq<char>>, String),
> {
    let method = field_of(payload, "method"@, 0, 4);
    let url = field_of(payload, "url"@, 1, 4);
    let headers = field_of(payload, "headers"@, 2, 4);
    let body = field_of(payload, "body"@, 3, 4);
    match (method, url, headers, body) {
        (Some(m), Some(u), Some(h), Some(b)) => match (
            json_text(m),
            json_text(u),
            json_string_map(h),
            json_text(b),
        ) {
            (Some(m), Some(u), Some(h), Some(b)) => Some((m, u, h, b)),
            _ => None,
        },
        _ => None,
    }
}

/// The fields (status, headers, body) that a response payload holds.
pub open spec fn response_fields(payload: JsonValue) -> Option<
    (u16, Map<Seq<char>, Seq<char>>, String),
> {
    let status = field_of(payload, "status"@, 0, 3);
    let headers = field_of(payload, "headers"@, 1, 3);
    let body = field_of(payload, "body"@, 2, 3);
    match (status, headers, body) {
        (Some(s), Some(h), Some(b)) => match (json_u16(s), json_string_map(h), json_text(b)) {
            (Some(s), Some(h), Some(b)) => Some((s, h, b)),
            _ => None,
        },
        _ => None,
    }
}

/// The data that a chunk payload holds.
pub open spec fn chunk_fields(payload: JsonValue) -> Option<String> {
    match field_of(payload, "data"@, 0, 1) {
        Some(d) => json_text(d),
        None => None,
    }
}

/// What `Option::<HttpRequest>::from(msg)` reads: the request of an
/// `http_request` message whose payload is a request record.
pub open spec fn request_of(msg: WSMessage) -> Option<
    (String, String, Map<Seq<char>, Seq<char>>, String),
> {
    if msg.message_type@ == type_http_request() {
        request_fields(msg.payload)
    } else {
        None
    }
}

/// What `Option::<HttpResponse>::from(msg)` reads.
pub open spec fn response_of(msg: WSMessage) -> Option<(u16, Map<Seq<char>, Seq<char>>, String)> {
    if msg.message_type@ == type_http_response() {
        response_fields(msg.payload)
    } else {
        None
    }
}

/// What `Option::<StreamChunk>::from(msg)` reads.
pub open spec fn chunk_of(msg: WSMessage) -> Option<String> {
    if msg.message_type@ == type_stream_chunk() {
        chunk_fields(msg.payload)
    } else {
        None
    }
}

/// `r` is what reading `msg` as a HttpRequest gives: the decoded record exactly
/// when the message carries one.
pub open spec fn reads_request(msg: WSMessage, r: Option<HttpRequest>) -> bool {
    match r {
        Some(x) => request_of(msg) == Some((x.method, x.url, x.headers@, x.body)),
        None => request_of(msg) is None,
    }
}

impl HttpRequest {
    /// The request that an `http_request` message carries.
    pub fn from_message(msg: &WSMessage) -> (r: Option<HttpRequest>)
        ensures
            reads_request(*msg, r),
    {
        if !str_eq(msg.message_type.as_str(), "http_request") {
            return None;
        }
        let p = &msg.payload;
        let method = text_field(find_field(p, "method", 0, 4));
        let url = text_field(find_field(p, "url", 1, 4));
        let headers = map_field(find_field(p, "headers", 2, 4));
        let body = text_field(find_field(p, "body", 3, 4));
        match (method, url, headers, body) {
            (Some(method), Some(url), Some(headers), Some(body)) => Some(
                HttpRequest { method, url, headers, body },
            ),
            _ => None,
        }
    }
}

/// `r` is what reading `msg` as a HttpResponse gives: the decoded record exactly
/// when the message carries one.
pub open spec fn reads_response(msg: WSMessage, r: Option<HttpResponse>) -> bool {
    match r {
        Some(x) => response_of(msg) == Some((x.status, x.headers@, x.body)),
        None => response_of(msg) is None,
    }
}

impl HttpResponse {
    /// The response that an `http_response` message carries.
    pub fn from_message(msg: &WSMessage) -> (r: Option<HttpResponse>)
        ensures
            reads_response(*msg, r),
    {
        if !str_eq(msg.message_type.as_str(), "http_response") {
            return None;
        }
        let p = &msg.payload;
        let status = u16_field(find_field(p, "status", 0, 3));
        let headers = map_field(find_field(p, "headers", 1, 3));
        let body = text_field(find_field(p, "body", 2, 3));
        match (status, headers, body) {
            (Some(status), Some(headers), Some(body)) => Some(
                HttpResponse { status, headers, body },
            ),
            _ => None,
        }
    }
}

/// `r` is what reading `msg` as a StreamChunk gives: the decoded record exactly
/// when the message carries one.
pub open spec fn reads_chunk(msg: WSMessage, r: Option<StreamChunk>) -> bool {
    match r {
        Some(x) => chunk_of(msg) == Some(x.data),
        None => chunk_of(msg) is None,
    }
}

impl StreamChunk {
    /// The chunk that a `stream_chunk` message carries.
    pub fn from_message(msg: &WSMessage) -> (r: Option<StreamChunk>)
        ensures
            reads_chunk(*msg, r),
    {
        if !str_eq(msg.message_type.as_str(), "stream_chunk") {
            return None;
        }
        match text_field(find_field(&msg.payload, "data", 0, 1)) {
            Some(data) => Some(StreamChunk { data }),
            None => None,
        }
    }
}

impl<'a> From<&'a WSMessage> for Option<HttpRequest> {
    fn from(msg: &'a WSMessage) -> (r: Option<HttpRequest>)
        ensures
            reads_request(*msg, r),
    {
        HttpRequest::from_message(msg)
    }
}

impl<'a> FromSpecImpl<&'a WSMessage> for Option<HttpRequest> {
    open spec fn obeys_from_spec() -> bool {
        false
    }

    open spec fn from_spec(msg: &'a WSMessage) -> Option<HttpRequest> {
        choose|r: Option<HttpRequest>| #[trigger] reads_request(*msg, r)
    }
}

impl<'a> From<&'a WSMessage> for Option<HttpResponse> {
    fn from(msg: &'a WSMessage) -> (r: Option<HttpResponse>)
        ensures
            reads_response(*msg, r),
    {
        HttpResponse::from_message(msg)
    }
}

impl<'a> FromSpecImpl<&'a WSMessage> for Option<HttpResponse> {
    open spec fn obeys_from_spec() -> bool {
        false
    }

    open spec fn from_spec(msg: &'a WSMessage) -> Option<HttpResponse> {
        choose|r: Option<HttpResponse>| #[trigger] reads_response(*msg, r)
    }
}

impl<'a> From<&'a WSMessage> for Option<StreamChunk> {
    fn from(msg: &'a WSMessage) -> (r: Option<StreamChunk>)
        ensures
            reads_chunk(*msg, r),
    {
        StreamChunk::from_message(msg)
    }
}

impl<'a> FromSpecImpl<&'a WSMessage> for Option<StreamChunk> {
    open spec fn obeys_from_spec() -> bool {
        false
    }

    open spec fn from_spec(msg: &'a WSMessage) -> Option<StreamChunk> {
        choose|r: Option<StreamChunk>| #[trigger] reads_chunk(*msg, r)
    }
}


/// A JSON object of strings built entry by entry reads back as the map of
/// those entries.
proof fn lemma_members_read_back(members: Seq<(String, JsonValue)>, entries: Seq<(String, String)>)
    requires
        members.len() == entries.len(),
        forall|i: int|
            0 <= i < members.len() ==> #[trigger] members[i].0 == entries[i].0 && members[i].1
                == JsonValue::String(entries[i].1),
    ensures
        members_to_map(members) == Some(entries_to_map(entries)),
    decreases members.len(),
{
    if members.len() > 0 {
        let mp = members.drop_last();
        let ep = entries.drop_last();
        assert forall|i: int| 0 <= i < mp.len() implies #[trigger] mp[i].0 == ep[i].0 && mp[i].1
            == JsonValue::String(ep[i].1) by {
            assert(mp[i] == members[i]);
            assert(ep[i] == entries[i]);
        }
        lemma_members_read_back(mp, ep);
        let k = members.len() - 1;
        assert(members.last() == members[k]);
        assert(entries.last() == entries[k]);
        assert(members[k].0 == entries[k].0);
        assert(json_text(members.last().1) == Some(entries.last().1));
        assert(members_to_map(members) == Some(
            entries_to_map(ep).insert(members.last().0@, entries.last().1@),
        ));
        assert(entries_to_map(entries) == entries_to_map(ep).insert(
            entries.last().0@,
            entries.last().1@,
        ));
    }
}

/// The JSON object of a string map reads back as that map.
pub proof fn lemma_map_object_reads_back(value: JsonValue, map: StringMap)
    requires
        is_map_object(value, map),
    ensures
        json_string_map(value) == Some(map@),
{
    let members = value->Object_0@;
    let entries = map.entries_seq();
    assert forall|i: int| 0 <= i < members.len() implies #[trigger] members[i].0 == entries[i].0
        && members[i].1 == JsonValue::String(entries[i].1) by {
        assert(value->Object_0@[i].0 == map.entries_seq()[i].0);
    }
    lemma_members_read_back(members, entries);
}

/// Round trip of a request: the message that `WSMessage::http_request`
/// builds reads back, through `Option::<HttpRequest>::from`, as the method,
/// URL, headers and body it was built from.
pub proof fn law_request_round_trip(
    msg: WSMessage,
    method: String,
    url: String,
    headers: StringMap,
    body: String,
)
    requires
        msg.message_type@ == type_http_request(),
        is_request_payload(msg.payload, method, url, headers, body),
    ensures
        request_of(msg) == Some((method, url, headers@, body)),
{
    reveal_strlit("method");
    reveal_strlit("url");
    reveal_strlit("headers");
    reveal_strlit("body");
    assert("method"@.len() == 6 && "url"@.len() == 3 && "headers"@.len() == 7 && "body"@.len() == 4);
    let m = msg.payload->Object_0@;
    assert(m.drop_first()[0] == m[1]);
    assert(m.drop_first().drop_first()[0] == m[2]);
    assert(m.drop_first().drop_first().drop_first()[0] == m[3]);
    assert(member(m, "method"@) == Some(m[0].1));
    assert(member(m, "url"@) == member(m.drop_first(), "url"@));
    assert(member(m, "url"@) == Some(m[1].1));
    assert(member(m.drop_first(), "headers"@) == member(m.drop_first().drop_first(), "headers"@));
    assert(member(m, "headers"@) == Some(m[2].1));
    assert(member(m.drop_first(), "body"@) == member(m.drop_first().drop_first(), "body"@));
    assert(member(m.drop_first().drop_first(), "body"@) == member(
        m.drop_first().drop_first().drop_first(),
        "body"@,
    ));
    assert(member(m, "body"@) == Some(m[3].1));
    lemma_map_object_reads_back(m[2].1, headers);
}

/// Round trip of a response: the message that `WSMessage::http_response`
/// builds reads back, through `Option::<HttpResponse>::from`, as the status,
/// headers and body it was built from.
pub proof fn law_response_round_trip(msg: WSMessage, status: u16, headers: StringMap, body: String)
    requires
        msg.message_type@ == type_http_response(),
        is_response_payload(msg.payload, status, headers, body),
    ensures
        response_of(msg) == Some((status, headers@, body)),
{
    reveal_strlit("status");
    reveal_strlit("headers");
    reveal_strlit("body");
    assert("status"@.len() == 6 && "headers"@.len() == 7 && "body"@.len() == 4);
    let m = msg.payload->Object_0@;
    assert(m.drop_first()[0] == m[1]);
    assert(m.drop_first().drop_first()[0] == m[2]);
    assert(member(m, "status"@) == Some(m[0].1));
    assert(member(m, "headers"@) == member(m.drop_first(), "headers"@));
    assert(member(m, "headers"@) == Some(m[1].1));
    assert(member(m.drop_first(), "body"@) == member(m.drop_first().drop_first(), "body"@));
    assert(member(m, "body"@) == Some(m[2].1));
    lemma_map_object_reads_back(m[1].1, headers);
}

/// Round trip of a chunk: the message that `WSMessage::stream_chunk` builds
/// reads back, through `Option::<StreamChunk>::from`, as its data.
pub proof fn law_chunk_round_trip(msg: WSMessage, data: String)
    requires
        msg.message_type@ == type_stream_chunk(),
        msg.payload matches JsonValue::Object(members) && members@.len() == 1 && is_text_member(
            members@[0],
            "data"@,
            data,
        ),
    ensures
        chunk_of(msg) == Some(data),
{
}

/// Each builder's type name denotes its own kind: `MessageType::from` of a
/// message built by `ping`, `pong`, `http_request`, `http_response`,
/// `stream_start`, `stream_chunk`, `stream_end` or `error` is that kind.
pub proof fn law_builder_kinds()
    ensures
        is_kind_of(type_ping(), MessageType::Ping),
        is_kind_of(type_pong(), MessageType::Pong),
        is_kind_of(type_http_request(), MessageType::HttpRequest),
        is_kind_of(type_http_response(), MessageType::HttpResponse),
        is_kind_of(type_stream_start(), MessageType::StreamStart),
        is_kind_of(type_stream_chunk(), MessageType::StreamChunk),
        is_kind_of(type_stream_end(), MessageType::StreamEnd),
        is_kind_of(type_error(), MessageType::Error),
{
    reveal_strlit("ping");
    reveal_strlit("pong");
    reveal_strlit("http_request");
    reveal_strlit("http_response");
    reveal_strlit("stream_start");
    reveal_strlit("stream_chunk");
    reveal_strlit("stream_end");
    reveal_strlit("error");
    assert(type_ping().len() == 4 && type_pong().len() == 4 && type_http_request().len() == 12);
    assert(type_http_response().len() == 13 && type_stream_start().len() == 12);
    assert(type_stream_chunk().len() == 12 && type_stream_end().len() == 10);
    assert(type_error().len() == 5);
    assert(type_ping()[1] != type_pong()[1]);
    assert(type_http_request()[0] != type_stream_start()[0]);
    assert(type_http_request()[0] != type_stream_chunk()[0]);
    assert(type_stream_start()[7] != type_stream_chunk()[7]);
}

/// Reading a message as a typed record needs its type name: a message of
/// any other type reads as no request, no response and no chunk.
pub proof fn law_typed_reads_need_their_type(msg: WSMessage)
    ensures
        msg.message_type@ != type_http_request() ==> request_of(msg) is None,
        msg.message_type@ != type_http_response() ==> response_of(msg) is None,
        msg.message_type@ != type_stream_chunk() ==> chunk_of(msg) is None,
{
}

/// Comparing kinds compares the type names they come from: two kinds read
/// from type names (`MessageType::from`) are equal under `==` exactly when
/// the names are the same text.  So different kinds of the protocol (a
/// ping and a pong, say) are never equal, and a kind equals itself.
pub proof fn law_kinds_equal_iff_same_name(n1: Seq<char>, n2: Seq<char>, a: MessageType, b: MessageType)
    requires
        is_kind_of(n1, a),
        is_kind_of(n2, b),
    ensures
        PartialEqSpec::eq_spec(&a, &b) <==> n1 == n2,
        PartialEqSpec::eq_spec(&a, &a),
{
    law_builder_kinds();
}

} // verus!
