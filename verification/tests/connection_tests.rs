use std::sync::Arc;

use aistudio_proxy::connection::{clock_now, ConnectionPool, UserConnection, UserConnections};
use aistudio_proxy::message::WSMessage;
use tokio::sync::mpsc::unbounded_channel;

fn connection(user: &str, last_active: i128) -> Arc<UserConnection> {
    let (tx, _rx) = unbounded_channel::<WSMessage>();
    Arc::new(UserConnection { user_id: user.to_string(), last_active, sender: tx })
}

#[test]
fn new_connection_is_active_now() {
    let (tx, _rx) = unbounded_channel::<WSMessage>();
    let c = UserConnection::new("u".to_string(), tx);
    assert_eq!(c.user_id, "u");
    assert!(c.last_active > 0);
    assert!(c.is_active(60_000_000_000));
    assert!(!c.is_active(0));
}

#[test]
fn activity_window() {
    let c = connection("u", 1_000);
    assert!(c.is_active_at(1_000, 1));
    assert!(c.is_active_at(1_009, 10));
    assert!(!c.is_active_at(1_010, 10));
    assert!(!c.is_active_at(999, 10));
    let old = connection("u", i128::MIN);
    assert!(!old.is_active_at(i128::MAX, u128::MAX));
    assert!(old.is_active_at(0, u128::MAX));
}

#[test]
fn update_activity_moves_clock_forward() {
    let (tx, _rx) = unbounded_channel::<WSMessage>();
    let mut c = UserConnection { user_id: "u".to_string(), last_active: 0, sender: tx };
    c.update_activity();
    assert!(c.last_active > 0);
    assert!(c.last_active <= clock_now());
}

#[test]
fn send_message_reaches_receiver() {
    let (tx, mut rx) = unbounded_channel::<WSMessage>();
    let c = UserConnection::new("u".to_string(), tx);
    assert!(c.send_message(WSMessage::ping("p".to_string())).is_ok());
    let got = rx.try_recv().unwrap();
    assert_eq!(got.id, "p");
    assert_eq!(got.message_type, "ping");
}

#[test]
fn send_message_to_closed_channel_gives_error_message() {
    let (tx, rx) = unbounded_channel::<WSMessage>();
    drop(rx);
    let c = UserConnection::new("u".to_string(), tx);
    let e = c.send_message(WSMessage::ping("p".to_string())).unwrap_err();
    assert_eq!(e.id, "");
    assert_eq!(e.message_type, "error");
}

#[test]
fn round_robin_over_user_connections() {
    let mut uc = UserConnections::new();
    assert!(uc.get_next_connection().is_none());
    let a = connection("a", 0);
    let b = connection("b", 0);
    let c = connection("c", 0);
    uc.add_connection(a.clone());
    uc.add_connection(b.clone());
    uc.add_connection(c.clone());
    assert_eq!(uc.len(), 3);
    let picks: Vec<String> = (0..7).map(|_| uc.get_next_connection().unwrap().user_id.clone()).collect();
    assert_eq!(picks, vec!["a", "b", "c", "a", "b", "c", "a"]);
    let picked = uc.get_next_connection().unwrap();
    assert!(Arc::ptr_eq(&picked, &b));
}

#[test]
fn round_robin_index_is_taken_modulo() {
    let mut uc = UserConnections::new();
    uc.add_connection(connection("a", 0));
    uc.add_connection(connection("b", 0));
    uc.add_connection(connection("c", 0));
    uc.next_index = 7;
    assert_eq!(uc.get_next_connection().unwrap().user_id, "b");
    assert_eq!(uc.next_index, 2);
}

#[test]
fn remove_connection_keeps_order_of_others() {
    let mut uc = UserConnections::new();
    for u in ["a", "x", "b", "x", "c"] {
        uc.add_connection(connection(u, 0));
    }
    uc.remove_connection("x");
    let left: Vec<String> = uc.connections.iter().map(|c| c.user_id.clone()).collect();
    assert_eq!(left, vec!["a", "b", "c"]);
    assert!(!uc.is_empty());
}

#[test]
fn cleanup_keeps_active_connections() {
    let mut uc = UserConnections::new();
    uc.add_connection(connection("old", 0));
    uc.add_connection(connection("new", 95));
    uc.add_connection(connection("future", 200));
    uc.cleanup_inactive_at(100, 10);
    let left: Vec<String> = uc.connections.iter().map(|c| c.user_id.clone()).collect();
    assert_eq!(left, vec!["new"]);
}

#[test]
fn pool_round_robin_per_user() {
    let mut pool = ConnectionPool::new();
    let (t1, _r1) = unbounded_channel::<WSMessage>();
    let (t2, _r2) = unbounded_channel::<WSMessage>();
    let (t3, _r3) = unbounded_channel::<WSMessage>();
    let c1 = pool.add_connection("user-1".to_string(), t1);
    let c2 = pool.add_connection("user-1".to_string(), t2);
    let c3 = pool.add_connection("user-2".to_string(), t3);
    assert!(Arc::ptr_eq(&pool.get_connection("user-1").unwrap(), &c1));
    assert!(Arc::ptr_eq(&pool.get_connection("user-1").unwrap(), &c2));
    assert!(Arc::ptr_eq(&pool.get_connection("user-1").unwrap(), &c1));
    assert!(Arc::ptr_eq(&pool.get_connection("user-2").unwrap(), &c3));
    assert!(pool.get_connection("user-3").is_none());
    let stats = pool.get_stats();
    assert_eq!(stats.total_connections, 3);
    assert_eq!(stats.total_users, 2);
    assert_eq!(stats.pending_requests, 0);
    let checked = pool.try_get_stats().unwrap();
    assert_eq!(checked.total_connections, 3);
    assert_eq!(checked.total_users, 2);
}

#[test]
fn pool_drops_user_without_connections() {
    let mut pool = ConnectionPool::new();
    let (t1, _r1) = unbounded_channel::<WSMessage>();
    pool.add_connection("user-1".to_string(), t1);
    pool.remove_connection("user-1", "someone-else");
    assert!(pool.get_connection("user-1").is_some());
    pool.remove_connection("user-1", "user-1");
    assert!(pool.get_connection("user-1").is_none());
    assert_eq!(pool.get_stats().total_users, 0);
    pool.remove_connection("nobody", "nobody");
    assert_eq!(pool.get_stats().total_connections, 0);
}

#[test]
fn pool_cleanup_drops_inactive_users() {
    let mut pool = ConnectionPool::new();
    let (t1, _r1) = unbounded_channel::<WSMessage>();
    let (t2, _r2) = unbounded_channel::<WSMessage>();
    pool.add_connection("a".to_string(), t1);
    pool.add_connection("b".to_string(), t2);
    let far_future = clock_now() + 1_000_000_000_000;
    pool.cleanup_inactive_at(far_future, 1);
    let stats = pool.get_stats();
    assert_eq!(stats.total_users, 0);
    assert_eq!(stats.total_connections, 0);

    let (t3, _r3) = unbounded_channel::<WSMessage>();
    pool.add_connection("c".to_string(), t3);
    pool.cleanup_inactive(3_600_000_000_000);
    assert_eq!(pool.get_stats().total_users, 1);
}

#[test]
fn pending_requests_receive_responses() {
    let mut pool = ConnectionPool::new();
    let (tx, mut rx) = unbounded_channel::<WSMessage>();
    assert!(!pool.send_response("r", WSMessage::stream_end("r".to_string())));
    pool.register_pending_request("r".to_string(), tx);
    assert_eq!(pool.get_stats().pending_requests, 1);
    assert!(pool.send_response("r", WSMessage::stream_end("r".to_string())));
    assert_eq!(rx.try_recv().unwrap().message_type, "stream_end");
    assert!(pool.send_response("r", WSMessage::stream_end("r".to_string())));
    pool.remove_pending_request("r");
    assert_eq!(pool.get_stats().pending_requests, 0);
    assert!(!pool.send_response("r", WSMessage::stream_end("r".to_string())));
}

#[test]
fn response_to_closed_request_channel_is_not_delivered() {
    let mut pool = ConnectionPool::new();
    let (tx, rx) = unbounded_channel::<WSMessage>();
    pool.register_pending_request("r".to_string(), tx);
    drop(rx);
    assert!(!pool.send_response("r", WSMessage::stream_end("r".to_string())));
    assert_eq!(pool.get_stats().pending_requests, 1);
}

#[test]
fn response_channel_is_the_registered_sender() {
    let mut pool = ConnectionPool::new();
    let (tx, mut rx) = unbounded_channel::<WSMessage>();
    assert!(pool.response_channel("r").is_none());
    pool.register_pending_request("r".to_string(), tx.clone());
    let found = pool.response_channel("r").unwrap();
    assert!(found.same_channel(&tx));
    found.send(WSMessage::stream_end("r".to_string())).unwrap();
    assert_eq!(rx.try_recv().unwrap().id, "r");
    assert!(pool.response_channel("s").is_none());
}

#[test]
fn closing_one_socket_keeps_the_users_other_connections() {
    let mut pool = ConnectionPool::new();
    let (t1, _r1) = unbounded_channel::<WSMessage>();
    let (t2, _r2) = unbounded_channel::<WSMessage>();
    let (t3, _r3) = unbounded_channel::<WSMessage>();
    let a = pool.add_connection("user-1".to_string(), t1);
    let b = pool.add_connection("user-1".to_string(), t2);
    let c = pool.add_connection("user-1".to_string(), t3);
    pool.drop_connection(&b);
    let stats = pool.get_stats();
    assert_eq!(stats.total_users, 1);
    assert_eq!(stats.total_connections, 2);
    let first = pool.get_connection("user-1").unwrap();
    let second = pool.get_connection("user-1").unwrap();
    assert!(Arc::ptr_eq(&first, &a));
    assert!(Arc::ptr_eq(&second, &c));
    pool.drop_connection(&b);
    assert_eq!(pool.get_stats().total_connections, 2);
    pool.drop_connection(&a);
    pool.drop_connection(&c);
    assert_eq!(pool.get_stats().total_users, 0);
    assert!(pool.get_connection("user-1").is_none());
}

#[test]
fn user_connections_drop_one_channel() {
    let mut uc = UserConnections::new();
    let (t1, _r1) = unbounded_channel::<WSMessage>();
    let (t2, _r2) = unbounded_channel::<WSMessage>();
    let x = Arc::new(UserConnection { user_id: "u".to_string(), last_active: 0, sender: t1.clone() });
    let y = Arc::new(UserConnection { user_id: "u".to_string(), last_active: 0, sender: t2 });
    uc.add_connection(x.clone());
    uc.add_connection(y.clone());
    uc.next_index = 1;
    uc.remove_channel(&t1);
    assert_eq!(uc.len(), 1);
    assert!(Arc::ptr_eq(&uc.connections[0], &y));
    assert_eq!(uc.next_index, 1);
}
