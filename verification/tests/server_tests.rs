use aistudio_proxy::connection::ConnectionPool;
use aistudio_proxy::headers::RequestHeader;
use aistudio_proxy::json::JsonValue;
use aistudio_proxy::message::WSMessage;
use aistudio_proxy::server::{
    client_message_action, finish_generate_request, generate_answer, handle_client_message,
    prepare_generate_request,
    send_generate_request, ClientAction, ClientMessageOutcome,
};
use std::sync::Arc;
use aistudio_proxy::string_map::StringMap;
use tokio::sync::mpsc::unbounded_channel;

fn header(name: &str, value: Option<&str>) -> RequestHeader {
    RequestHeader { name: name.to_string(), value: value.map(|v| v.to_string()) }
}

#[test]
fn ping_is_answered_with_pong() {
    let mut pool = ConnectionPool::new();
    let (tx, mut rx) = unbounded_channel::<WSMessage>();
    let conn = pool.add_connection("user-1".to_string(), tx);
    let r = handle_client_message(&mut pool, &conn, WSMessage::ping("42".to_string()));
    assert!(matches!(r, ClientMessageOutcome::Ponged));
    let pong = rx.try_recv().unwrap();
    assert_eq!(pong.id, "42");
    assert_eq!(pong.message_type, "pong");
}

#[test]
fn answers_go_to_pending_requests() {
    let mut pool = ConnectionPool::new();
    let (tx, _rx) = unbounded_channel::<WSMessage>();
    let conn = pool.add_connection("user-1".to_string(), tx);
    let (reply_tx, mut reply_rx) = unbounded_channel::<WSMessage>();
    pool.register_pending_request("req".to_string(), reply_tx);
    let m = WSMessage::stream_chunk("req".to_string(), "d".to_string());
    assert!(matches!(handle_client_message(&mut pool, &conn, m), ClientMessageOutcome::Forwarded { delivered: true }));
    assert_eq!(reply_rx.try_recv().unwrap().message_type, "stream_chunk");
    let m = WSMessage::error("other".to_string(), "x".to_string(), None);
    assert!(matches!(handle_client_message(&mut pool, &conn, m), ClientMessageOutcome::Forwarded { delivered: false }));
    let m = WSMessage::new("req".to_string(), "hello".to_string(), JsonValue::Null);
    assert!(matches!(handle_client_message(&mut pool, &conn, m), ClientMessageOutcome::Ignored));
    let m = WSMessage::pong("req".to_string());
    assert!(matches!(handle_client_message(&mut pool, &conn, m), ClientMessageOutcome::Ignored));
}

#[test]
fn generate_endpoint_flow() {
    let mut pool = ConnectionPool::new();
    let h = vec![header("x-goog-api-key", Some("k")), header("connection", Some("close"))];
    let (reply_tx, _r) = unbounded_channel::<WSMessage>();
    assert_eq!(send_generate_request(&mut pool, &h, "b".to_string(), "k", reply_tx).unwrap_err().code(), 503);
    let (reply_tx, _r) = unbounded_channel::<WSMessage>();
    assert_eq!(send_generate_request(&mut pool, &h, "b".to_string(), "x", reply_tx).unwrap_err().code(), 401);

    let (client_tx, mut client_rx) = unbounded_channel::<WSMessage>();
    pool.add_connection("user-1".to_string(), client_tx);
    let (reply_tx, _r) = unbounded_channel::<WSMessage>();
    let id = send_generate_request(&mut pool, &h, "b".to_string(), "k", reply_tx).unwrap();
    let sent = client_rx.try_recv().unwrap();
    assert_eq!(sent.id, id);
    assert_eq!(sent.payload.get("method").unwrap().as_str(), Some("POST"));
    assert_eq!(
        sent.payload.get("url").unwrap().as_str(),
        Some("https://generativelanguage.googleapis.com/v1/models/gemini-pro:generate")
    );
    // The generate endpoint forwards every text header.
    assert_eq!(sent.payload.get("headers").unwrap().get("connection").unwrap().as_str(), Some("close"));
}

#[test]
fn generate_answers() {
    let ok = WSMessage::http_response("i".to_string(), 500, StringMap::new(), "text".to_string());
    assert_eq!(generate_answer(Some(ok)).unwrap(), "text");
    let err = WSMessage::error("i".to_string(), "x".to_string(), Some(400));
    assert_eq!(generate_answer(Some(err)).unwrap_err().code(), 502);
    let no_body = WSMessage::new("i".to_string(), "http_response".to_string(), JsonValue::Null);
    assert_eq!(generate_answer(Some(no_body)).unwrap_err().code(), 502);
    assert_eq!(generate_answer(None).unwrap_err().code(), 504);
}

#[test]
fn ping_action_is_a_pong_with_the_same_id() {
    match client_message_action(WSMessage::ping("p-7".to_string())) {
        ClientAction::Reply(p) => {
            assert_eq!(p.id, "p-7");
            assert_eq!(p.message_type, "pong");
            assert!(matches!(p.payload, JsonValue::Null));
        }
        other => panic!("unexpected {:?}", other),
    }
}

#[test]
fn answer_actions_forward_the_message_unchanged() {
    let answers = vec![
        WSMessage::http_response("a".to_string(), 201, StringMap::new(), "body".to_string()),
        WSMessage::stream_start("b".to_string(), StringMap::new()),
        WSMessage::stream_chunk("c".to_string(), "piece".to_string()),
        WSMessage::stream_end("d".to_string()),
        WSMessage::error("e".to_string(), "bad".to_string(), Some(404)),
    ];
    for m in answers {
        let id = m.id.clone();
        let t = m.message_type.clone();
        match client_message_action(m) {
            ClientAction::Forward(target, fwd) => {
                assert_eq!(target, id);
                assert_eq!(fwd.id, id);
                assert_eq!(fwd.message_type, t);
            }
            other => panic!("unexpected {:?}", other),
        }
    }
    match client_message_action(WSMessage::stream_chunk("c".to_string(), "piece".to_string())) {
        ClientAction::Forward(_, fwd) => {
            assert_eq!(fwd.payload.get("data").unwrap().as_str(), Some("piece"));
        }
        other => panic!("unexpected {:?}", other),
    }
}

#[test]
fn other_actions_are_ignored() {
    for t in ["pong", "http_request", "hello", ""] {
        let m = WSMessage::new("x".to_string(), t.to_string(), JsonValue::Null);
        match client_message_action(m) {
            ClientAction::Ignore(kept) => {
                assert_eq!(kept.id, "x");
                assert_eq!(kept.message_type, t);
            }
            other => panic!("unexpected {:?}", other),
        }
    }
}

#[test]
fn prepared_generate_request_targets_the_picked_connection() {
    let mut pool = ConnectionPool::new();
    let (t1, _r1) = unbounded_channel::<WSMessage>();
    let (t2, _r2) = unbounded_channel::<WSMessage>();
    let first = pool.add_connection("user-1".to_string(), t1);
    let second = pool.add_connection("user-1".to_string(), t2);
    let h = vec![header("x-goog-api-key", Some("k")), header("accept", Some("*/*")), header("bin", None)];
    let (reply, _rr) = unbounded_channel::<WSMessage>();
    let (id, conn, msg) = prepare_generate_request(&mut pool, &h, "the body".to_string(), "k", reply).unwrap();
    assert!(Arc::ptr_eq(&conn, &first));
    assert_eq!(id.len(), 36);
    assert_eq!(msg.id, id);
    assert_eq!(msg.message_type, "http_request");
    assert_eq!(msg.payload.get("method").unwrap().as_str(), Some("POST"));
    assert_eq!(msg.payload.get("body").unwrap().as_str(), Some("the body"));
    assert_eq!(
        msg.payload.get("url").unwrap().as_str(),
        Some("https://generativelanguage.googleapis.com/v1/models/gemini-pro:generate")
    );
    let hs = msg.payload.get("headers").unwrap();
    assert_eq!(hs.get("accept").unwrap().as_str(), Some("*/*"));
    assert_eq!(hs.get("x-goog-api-key").unwrap().as_str(), Some("k"));
    assert!(hs.get("bin").is_none());
    assert_eq!(pool.get_stats().pending_requests, 1);
    let (reply, _rr) = unbounded_channel::<WSMessage>();
    let (_, conn, _) = prepare_generate_request(&mut pool, &h, String::new(), "k", reply).unwrap();
    assert!(Arc::ptr_eq(&conn, &second));
    let (reply, _rr) = unbounded_channel::<WSMessage>();
    assert_eq!(prepare_generate_request(&mut pool, &h, String::new(), "other", reply).unwrap_err().code(), 401);
    assert_eq!(pool.get_stats().pending_requests, 2);
}

#[test]
fn generate_request_to_closed_client_is_bad_gateway() {
    let mut pool = ConnectionPool::new();
    let (client_tx, client_rx) = unbounded_channel::<WSMessage>();
    pool.add_connection("user-1".to_string(), client_tx);
    drop(client_rx);
    let h = vec![header("x-goog-api-key", Some("k"))];
    let (reply_tx, _r) = unbounded_channel::<WSMessage>();
    assert_eq!(send_generate_request(&mut pool, &h, "b".to_string(), "k", reply_tx).unwrap_err().code(), 502);
    assert_eq!(pool.get_stats().pending_requests, 0);
}

#[test]
fn generate_request_leaves_nothing_pending() {
    let mut pool = ConnectionPool::new();
    let (client_tx, mut client_rx) = unbounded_channel::<WSMessage>();
    pool.add_connection("user-1".to_string(), client_tx);
    let h = vec![header("x-goog-api-key", Some("k"))];
    let (reply_tx, _r) = unbounded_channel::<WSMessage>();
    let id = send_generate_request(&mut pool, &h, "b".to_string(), "k", reply_tx).unwrap();
    assert_eq!(pool.get_stats().pending_requests, 1);
    assert_eq!(client_rx.try_recv().unwrap().id, id);
    let answer = WSMessage::http_response(id.clone(), 200, StringMap::new(), "generated".to_string());
    assert_eq!(finish_generate_request(&mut pool, &id, Some(answer)).unwrap(), "generated");
    assert_eq!(pool.get_stats().pending_requests, 0);

    let (reply_tx, _r) = unbounded_channel::<WSMessage>();
    let id = send_generate_request(&mut pool, &h, "b".to_string(), "k", reply_tx).unwrap();
    assert_eq!(finish_generate_request(&mut pool, &id, None).unwrap_err().code(), 504);
    assert_eq!(pool.get_stats().pending_requests, 0);
}
