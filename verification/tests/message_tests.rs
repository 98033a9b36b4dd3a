use aistudio_proxy::json::{JsonNumber, JsonValue};
use aistudio_proxy::message::{HttpRequest, HttpResponse, MessageType, StreamChunk, WSMessage};
use aistudio_proxy::string_map::StringMap;

fn headers(pairs: &[(&str, &str)]) -> StringMap {
    let mut m = StringMap::new();
    for (k, v) in pairs {
        m.insert(k.to_string(), v.to_string());
    }
    m
}

fn text(s: &str) -> JsonValue {
    JsonValue::String(s.to_string())
}

fn object(members: Vec<(&str, JsonValue)>) -> JsonValue {
    JsonValue::Object(members.into_iter().map(|(k, v)| (k.to_string(), v)).collect())
}

#[test]
fn ping_pong_and_end_have_no_payload() {
    for (m, t) in [
        (WSMessage::ping("1".to_string()), "ping"),
        (WSMessage::pong("2".to_string()), "pong"),
        (WSMessage::stream_end("3".to_string()), "stream_end"),
    ] {
        assert_eq!(m.message_type, t);
        assert!(matches!(m.payload, JsonValue::Null));
    }
}

#[test]
fn message_type_from_names() {
    assert!(matches!(MessageType::from("ping"), MessageType::Ping));
    assert!(matches!(MessageType::from("pong"), MessageType::Pong));
    assert!(matches!(MessageType::from("http_request"), MessageType::HttpRequest));
    assert!(matches!(MessageType::from("http_response"), MessageType::HttpResponse));
    assert!(matches!(MessageType::from("stream_start"), MessageType::StreamStart));
    assert!(matches!(MessageType::from("stream_chunk"), MessageType::StreamChunk));
    assert!(matches!(MessageType::from("stream_end"), MessageType::StreamEnd));
    assert!(matches!(MessageType::from("error"), MessageType::Error));
    match MessageType::from("Ping") {
        MessageType::Unknown(s) => assert_eq!(s, "Ping"),
        other => panic!("unexpected {:?}", other),
    }
}

#[test]
fn message_type_of_built_messages() {
    let m = WSMessage::error("x".to_string(), "boom".to_string(), None);
    assert!(matches!(MessageType::from(&m), MessageType::Error));
    let m = WSMessage::stream_chunk("x".to_string(), "d".to_string());
    assert!(matches!(MessageType::from(&m), MessageType::StreamChunk));
}

#[test]
fn request_round_trip() {
    let m = WSMessage::http_request(
        "r1".to_string(),
        "GET".to_string(),
        "https://example.com/a".to_string(),
        headers(&[("accept", "text/plain"), ("x-a", "1")]),
        "body".to_string(),
    );
    assert_eq!(m.id, "r1");
    assert_eq!(m.message_type, "http_request");
    let r: Option<HttpRequest> = Option::<HttpRequest>::from(&m);
    let r = r.unwrap();
    assert_eq!(r.method, "GET");
    assert_eq!(r.url, "https://example.com/a");
    assert_eq!(r.body, "body");
    assert_eq!(r.headers.len(), 2);
    assert_eq!(r.headers.get("accept").unwrap(), "text/plain");
    assert_eq!(r.headers.get("x-a").unwrap(), "1");
}

#[test]
fn response_round_trip() {
    let m = WSMessage::http_response("r2".to_string(), 201, headers(&[("k", "v")]), "done".to_string());
    let r = Option::<HttpResponse>::from(&m).unwrap();
    assert_eq!(r.status, 201);
    assert_eq!(r.headers.get("k").unwrap(), "v");
    assert_eq!(r.body, "done");
    // A response is not a request.
    assert!(Option::<HttpRequest>::from(&m).is_none());
    assert!(Option::<StreamChunk>::from(&m).is_none());
}

#[test]
fn chunk_round_trip() {
    let m = WSMessage::stream_chunk("c".to_string(), "piece".to_string());
    assert_eq!(Option::<StreamChunk>::from(&m).unwrap().data, "piece");
}

#[test]
fn response_decoding_from_array_form() {
    let payload = JsonValue::Array(vec![
        JsonValue::Number(JsonNumber::PosInt(404)),
        object(vec![("a", text("b"))]),
        text("missing"),
    ]);
    let m = WSMessage::new("i".to_string(), "http_response".to_string(), payload);
    let r = HttpResponse::from_message(&m).unwrap();
    assert_eq!(r.status, 404);
    assert_eq!(r.body, "missing");
    assert_eq!(r.headers.get("a").unwrap(), "b");

    let short = JsonValue::Array(vec![JsonValue::Number(JsonNumber::PosInt(404)), object(vec![])]);
    let m = WSMessage::new("i".to_string(), "http_response".to_string(), short);
    assert!(HttpResponse::from_message(&m).is_none());
}

#[test]
fn response_decoding_rejects_bad_fields() {
    let too_big = object(vec![
        ("status", JsonValue::Number(JsonNumber::PosInt(70000))),
        ("headers", object(vec![])),
        ("body", text("")),
    ]);
    let m = WSMessage::new("i".to_string(), "http_response".to_string(), too_big);
    assert!(HttpResponse::from_message(&m).is_none());

    let negative = object(vec![
        ("status", JsonValue::Number(JsonNumber::NegInt(-1))),
        ("headers", object(vec![])),
        ("body", text("")),
    ]);
    let m = WSMessage::new("i".to_string(), "http_response".to_string(), negative);
    assert!(HttpResponse::from_message(&m).is_none());

    let non_text_header = object(vec![
        ("status", JsonValue::Number(JsonNumber::PosInt(200))),
        ("headers", object(vec![("a", JsonValue::Bool(true))])),
        ("body", text("")),
    ]);
    let m = WSMessage::new("i".to_string(), "http_response".to_string(), non_text_header);
    assert!(HttpResponse::from_message(&m).is_none());

    let extra_member_is_ignored = object(vec![
        ("extra", JsonValue::Null),
        ("body", text("b")),
        ("headers", object(vec![])),
        ("status", JsonValue::Number(JsonNumber::PosInt(200))),
    ]);
    let m = WSMessage::new("i".to_string(), "http_response".to_string(), extra_member_is_ignored);
    assert_eq!(HttpResponse::from_message(&m).unwrap().body, "b");
}

#[test]
fn decoding_needs_the_message_type() {
    let m = WSMessage::new("i".to_string(), "stream_chunk".to_string(), object(vec![("data", text("x"))]));
    assert_eq!(StreamChunk::from_message(&m).unwrap().data, "x");
    let m = WSMessage::new("i".to_string(), "stream_start".to_string(), object(vec![("data", text("x"))]));
    assert!(StreamChunk::from_message(&m).is_none());
}

#[test]
fn later_header_member_overrides_earlier() {
    let payload = object(vec![
        ("method", text("POST")),
        ("url", text("u")),
        ("headers", object(vec![("a", text("1")), ("a", text("2"))])),
        ("body", text("")),
    ]);
    let m = WSMessage::new("i".to_string(), "http_request".to_string(), payload);
    let r = HttpRequest::from_message(&m).unwrap();
    assert_eq!(r.headers.len(), 1);
    assert_eq!(r.headers.get("a").unwrap(), "2");
}

#[test]
fn error_message_payload() {
    let m = WSMessage::error("e".to_string(), "bad".to_string(), Some(418));
    assert_eq!(m.message_type, "error");
    assert_eq!(m.payload.get("error").unwrap().as_str(), Some("bad"));
    assert_eq!(m.payload.get("status").unwrap().as_u64(), Some(418));
    let m = WSMessage::error("e".to_string(), "bad".to_string(), None);
    assert!(m.payload.get("status").is_none());
}

#[test]
fn stream_start_carries_headers() {
    let m = WSMessage::stream_start("s".to_string(), headers(&[("content-type", "text/event-stream")]));
    let h = m.payload.get("headers").unwrap();
    assert_eq!(h.get("content-type").unwrap().as_str(), Some("text/event-stream"));
}

#[test]
fn message_type_equality() {
    assert!(MessageType::from("ping") == MessageType::Ping);
    assert!(MessageType::from("stream_end") != MessageType::StreamStart);
    assert!(MessageType::from("x") == MessageType::Unknown("x".to_string()));
    assert!(MessageType::from("x") != MessageType::Unknown("y".to_string()));
    assert!(MessageType::Unknown("error".to_string()) != MessageType::Error);
}

#[test]
fn string_maps_and_typed_messages_clone() {
    let m = headers(&[("a", "1"), ("b", "2")]);
    let c = m.clone();
    assert_eq!(c.len(), 2);
    assert_eq!(c.get("a").unwrap(), "1");
    assert_eq!(c.get("b").unwrap(), "2");
    let r = HttpResponse { status: 204, headers: m, body: "x".to_string() };
    let rc = r.clone();
    assert_eq!(rc.status, 204);
    assert_eq!(rc.body, "x");
    assert_eq!(rc.headers.get("b").unwrap(), "2");
}
