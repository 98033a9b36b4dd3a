use aistudio_proxy::headers::{header_value, headers_to_json, headers_to_map, RequestHeader};
use aistudio_proxy::json::{JsonNumber, JsonValue};
use aistudio_proxy::message::WSMessage;
use aistudio_proxy::proxy::{
    authenticate_request, build_request_message, finish_request, handle_websocket_response,
    next_stream_event, prepare_request, send_request, AppState, StreamEvent,
};
use aistudio_proxy::connection::ConnectionPool;
use std::sync::Arc;
use aistudio_proxy::status::HttpStatus;
use aistudio_proxy::string_map::StringMap;
use tokio::sync::mpsc::unbounded_channel;

fn header(name: &str, value: Option<&str>) -> RequestHeader {
    RequestHeader { name: name.to_string(), value: value.map(|v| v.to_string()) }
}

fn map(pairs: &[(&str, &str)]) -> StringMap {
    let mut m = StringMap::new();
    for (k, v) in pairs {
        m.insert(k.to_string(), v.to_string());
    }
    m
}

#[test]
fn authenticate_by_header() {
    let h = vec![header("x-goog-api-key", Some("k1"))];
    assert_eq!(authenticate_request(&h, &None, "k1").unwrap(), "user-1");
    assert_eq!(authenticate_request(&h, &None, "k2").unwrap_err().code(), 401);
}

#[test]
fn authenticate_by_query_key() {
    let none: Vec<RequestHeader> = Vec::new();
    let q = |s: &str| Some(s.to_string());
    assert!(authenticate_request(&none, &q("key=k1"), "k1").is_ok());
    assert!(authenticate_request(&none, &q("alt=sse&key=k1"), "k1").is_ok());
    assert!(authenticate_request(&none, &q("key=k1&alt=sse"), "k1").is_ok());
    assert!(authenticate_request(&none, &q("key=k1=x"), "k1=x").is_ok());
    assert!(authenticate_request(&none, &q("key=k2"), "k1").is_err());
    assert!(authenticate_request(&none, &q("akey=k1"), "k1").is_err());
    assert!(authenticate_request(&none, &q("key"), "").is_err());
    assert!(authenticate_request(&none, &q("key="), "").is_ok());
    assert!(authenticate_request(&none, &q("&&key=k1&&"), "k1").is_ok());
    assert!(authenticate_request(&none, &q(""), "k1").is_err());
    assert!(authenticate_request(&none, &None, "k1").is_err());
}

#[test]
fn wrong_header_falls_back_to_query() {
    let h = vec![header("x-goog-api-key", Some("wrong"))];
    assert!(authenticate_request(&h, &Some("key=k1".to_string()), "k1").is_ok());
}

#[test]
fn header_lookup_takes_first() {
    let h = vec![header("a", None), header("a", Some("2")), header("b", Some("3"))];
    assert!(header_value(&h, "a").is_none());
    assert_eq!(header_value(&h, "b").unwrap(), "3");
    assert!(header_value(&h, "c").is_none());
}

#[test]
fn forwarded_headers_leave_out_hop_by_hop_and_binary() {
    let h = vec![
        header("connection", Some("keep-alive")),
        header("content-type", Some("application/json")),
        header("upgrade", Some("websocket")),
        header("x-bin", None),
        header("accept", Some("a")),
        header("accept", Some("b")),
        header("transfer-encoding", Some("chunked")),
    ];
    let m = headers_to_map(&h);
    assert_eq!(m.len(), 2);
    assert_eq!(m.get("content-type").unwrap(), "application/json");
    assert_eq!(m.get("accept").unwrap(), "b");
    assert!(m.get("connection").is_none());

    let all = headers_to_json(&h);
    assert_eq!(all.get("connection").unwrap().as_str(), Some("keep-alive"));
    assert_eq!(all.get("accept").unwrap().as_str(), Some("b"));
    assert!(all.get("x-bin").is_none());
}

#[test]
fn request_message_targets_upstream() {
    let h = vec![header("te", Some("trailers")), header("x-a", Some("1"))];
    let m = build_request_message("id".to_string(), "POST".to_string(), "/v1/models", &h, "{}".to_string());
    assert_eq!(m.id, "id");
    assert_eq!(m.message_type, "http_request");
    assert_eq!(
        m.payload.get("url").unwrap().as_str(),
        Some("https://generativelanguage.googleapis.com/v1/models")
    );
    assert_eq!(m.payload.get("method").unwrap().as_str(), Some("POST"));
    let hs = m.payload.get("headers").unwrap();
    assert!(hs.get("te").is_none());
    assert_eq!(hs.get("x-a").unwrap().as_str(), Some("1"));
}

#[test]
fn http_response_becomes_response() {
    let m = WSMessage::http_response("r".to_string(), 200, map(&[("content-type", "text/plain")]), "hi".to_string());
    let r = handle_websocket_response(m).unwrap();
    assert_eq!(r.status, 200);
    assert_eq!(r.body, "hi");
    assert_eq!(r.headers.get("content-type").unwrap(), "text/plain");
}

#[test]
fn unbuildable_response_is_internal_error() {
    let bad_status = WSMessage::http_response("r".to_string(), 42, StringMap::new(), String::new());
    assert_eq!(handle_websocket_response(bad_status).unwrap_err().code(), 500);
    let bad_name = WSMessage::http_response("r".to_string(), 200, map(&[("bad name", "v")]), String::new());
    assert_eq!(handle_websocket_response(bad_name).unwrap_err().code(), 500);
    let bad_value = WSMessage::http_response("r".to_string(), 200, map(&[("k", "a\nb")]), String::new());
    assert_eq!(handle_websocket_response(bad_value).unwrap_err().code(), 500);
    let fine_value = WSMessage::http_response("r".to_string(), 200, map(&[("k", "a\tb é")]), String::new());
    assert!(handle_websocket_response(fine_value).is_ok());
}

#[test]
fn undecodable_response_is_bad_gateway() {
    let m = WSMessage::new("r".to_string(), "http_response".to_string(), JsonValue::Null);
    assert_eq!(handle_websocket_response(m).unwrap_err().code(), 502);
}

#[test]
fn error_messages_choose_status() {
    let with = WSMessage::error("r".to_string(), "quota".to_string(), Some(429));
    assert_eq!(handle_websocket_response(with).unwrap_err().code(), 429);
    let without = WSMessage::error("r".to_string(), "oops".to_string(), None);
    assert_eq!(handle_websocket_response(without).unwrap_err().code(), 500);
    let invalid = WSMessage::error("r".to_string(), "x".to_string(), Some(42));
    assert_eq!(handle_websocket_response(invalid).unwrap_err().code(), 502);
    // A status beyond 16 bits is cut to its low 16 bits: 65536 + 404.
    let payload = JsonValue::Object(vec![(
        "status".to_string(),
        JsonValue::Number(JsonNumber::PosInt(65940)),
    )]);
    let wrapped = WSMessage::new("r".to_string(), "error".to_string(), payload);
    assert_eq!(handle_websocket_response(wrapped).unwrap_err().code(), 404);
    let text_status = JsonValue::Object(vec![(
        "status".to_string(),
        JsonValue::String("404".to_string()),
    )]);
    let m = WSMessage::new("r".to_string(), "error".to_string(), text_status);
    assert_eq!(handle_websocket_response(m).unwrap_err().code(), 500);
}

#[test]
fn other_messages_are_bad_gateway() {
    let m = WSMessage::stream_end("r".to_string());
    assert_eq!(handle_websocket_response(m).unwrap_err().code(), 502);
}

#[test]
fn status_codes() {
    assert!(HttpStatus::from_code(99).is_none());
    assert_eq!(HttpStatus::from_code(100).unwrap().code(), 100);
    assert_eq!(HttpStatus::from_code(999).unwrap().code(), 999);
    assert!(HttpStatus::from_code(1000).is_none());
}

#[test]
fn streaming_events() {
    let mut state = AppState::new("k".to_string());
    let pool = &mut state.connection_pool;
    let (tx, _rx) = unbounded_channel::<WSMessage>();
    pool.register_pending_request("s".to_string(), tx);
    match next_stream_event(pool, "s", Some(WSMessage::stream_start("s".to_string(), StringMap::new()))) {
        StreamEvent::Data(d) => assert_eq!(d, "stream_start"),
        StreamEvent::End => panic!("ended"),
    }
    match next_stream_event(pool, "s", Some(WSMessage::stream_chunk("s".to_string(), "abc".to_string()))) {
        StreamEvent::Data(d) => assert_eq!(d, "abc"),
        StreamEvent::End => panic!("ended"),
    }
    let broken = WSMessage::new("s".to_string(), "stream_chunk".to_string(), JsonValue::Null);
    match next_stream_event(pool, "s", Some(broken)) {
        StreamEvent::Data(d) => assert_eq!(d, ""),
        StreamEvent::End => panic!("ended"),
    }
    match next_stream_event(pool, "s", Some(WSMessage::ping("s".to_string()))) {
        StreamEvent::Data(d) => assert_eq!(d, ""),
        StreamEvent::End => panic!("ended"),
    }
    assert_eq!(pool.get_stats().pending_requests, 1);
    assert!(matches!(next_stream_event(pool, "s", Some(WSMessage::stream_end("s".to_string()))), StreamEvent::End));
    assert_eq!(pool.get_stats().pending_requests, 0);
}

#[test]
fn stream_ends_on_error_or_closed_channel() {
    let mut state = AppState::new("k".to_string());
    let pool = &mut state.connection_pool;
    let (tx, _rx) = unbounded_channel::<WSMessage>();
    pool.register_pending_request("s".to_string(), tx);
    let e = WSMessage::error("s".to_string(), "x".to_string(), None);
    assert!(matches!(next_stream_event(pool, "s", Some(e)), StreamEvent::End));
    assert_eq!(pool.get_stats().pending_requests, 0);
    assert!(matches!(next_stream_event(pool, "s", None), StreamEvent::End));
}

#[test]
fn proxied_request_end_to_end() {
    let mut state = AppState::new("secret".to_string());
    let (client_tx, mut client_rx) = unbounded_channel::<WSMessage>();
    state.connection_pool.add_connection("user-1".to_string(), client_tx);
    let h = vec![header("x-goog-api-key", Some("secret")), header("content-type", Some("application/json"))];
    let (reply_tx, _reply_rx) = unbounded_channel::<WSMessage>();
    let id = send_request(
        &mut state.connection_pool,
        "POST".to_string(),
        "/v1beta/models/x:generateContent",
        &None,
        &h,
        "{}".to_string(),
        &state.auth_api_key,
        reply_tx,
    )
    .unwrap();
    assert_eq!(id.len(), 36);
    assert_eq!(id.chars().nth(14), Some('4'));
    assert_eq!(state.connection_pool.get_stats().pending_requests, 1);
    let sent = client_rx.try_recv().unwrap();
    assert_eq!(sent.id, id);
    assert_eq!(sent.message_type, "http_request");
    assert_eq!(sent.payload.get("body").unwrap().as_str(), Some("{}"));

    let answer = WSMessage::http_response(id.clone(), 200, StringMap::new(), "ok".to_string());
    let r = finish_request(&mut state.connection_pool, &id, Some(answer)).unwrap();
    assert_eq!(r.body, "ok");
    assert_eq!(state.connection_pool.get_stats().pending_requests, 0);
}

#[test]
fn proxied_request_failures() {
    let mut state = AppState::new("secret".to_string());
    let h = vec![header("x-goog-api-key", Some("secret"))];
    let (reply_tx, _r) = unbounded_channel::<WSMessage>();
    let r = send_request(&mut state.connection_pool, "GET".to_string(), "/", &None, &h, String::new(), "secret", reply_tx);
    assert_eq!(r.unwrap_err().code(), 503);

    let (reply_tx, _r) = unbounded_channel::<WSMessage>();
    let r = send_request(&mut state.connection_pool, "GET".to_string(), "/", &None, &h, String::new(), "other", reply_tx);
    assert_eq!(r.unwrap_err().code(), 401);

    let (client_tx, client_rx) = unbounded_channel::<WSMessage>();
    drop(client_rx);
    state.connection_pool.add_connection("user-1".to_string(), client_tx);
    let (reply_tx, _r) = unbounded_channel::<WSMessage>();
    let r = send_request(&mut state.connection_pool, "GET".to_string(), "/", &None, &h, String::new(), "secret", reply_tx);
    assert_eq!(r.unwrap_err().code(), 502);
    assert_eq!(state.connection_pool.get_stats().pending_requests, 0);

    let t = finish_request(&mut state.connection_pool, "nothing", None);
    assert_eq!(t.unwrap_err().code(), 504);
}

#[test]
fn prepared_request_targets_the_picked_connection() {
    let mut pool = ConnectionPool::new();
    let (t1, _r1) = unbounded_channel::<WSMessage>();
    let (t2, _r2) = unbounded_channel::<WSMessage>();
    let first = pool.add_connection("user-1".to_string(), t1);
    let second = pool.add_connection("user-1".to_string(), t2);
    let h = vec![header("x-goog-api-key", Some("k")), header("connection", Some("close")), header("x-a", Some("1"))];
    let (reply, _rr) = unbounded_channel::<WSMessage>();
    let (id, conn, msg) = prepare_request(
        &mut pool,
        "PUT".to_string(),
        "/v1beta/models?x=1",
        &None,
        &h,
        "payload".to_string(),
        "k",
        reply,
    )
    .unwrap();
    assert!(Arc::ptr_eq(&conn, &first));
    assert_eq!(id.len(), 36);
    assert_eq!(msg.id, id);
    assert_eq!(msg.message_type, "http_request");
    assert_eq!(msg.payload.get("method").unwrap().as_str(), Some("PUT"));
    assert_eq!(msg.payload.get("body").unwrap().as_str(), Some("payload"));
    assert_eq!(
        msg.payload.get("url").unwrap().as_str(),
        Some("https://generativelanguage.googleapis.com/v1beta/models?x=1")
    );
    let hs = msg.payload.get("headers").unwrap();
    assert!(hs.get("connection").is_none());
    assert_eq!(hs.get("x-a").unwrap().as_str(), Some("1"));
    let (reply, _rr) = unbounded_channel::<WSMessage>();
    let (_, conn, _) =
        prepare_request(&mut pool, "GET".to_string(), "/", &None, &h, String::new(), "k", reply).unwrap();
    assert!(Arc::ptr_eq(&conn, &second));
    assert_eq!(pool.get_stats().pending_requests, 2);
    let (reply, _rr) = unbounded_channel::<WSMessage>();
    let refused = prepare_request(&mut pool, "GET".to_string(), "/", &None, &h, String::new(), "z", reply);
    assert_eq!(refused.unwrap_err().code(), 401);
    assert_eq!(pool.get_stats().pending_requests, 2);
}
