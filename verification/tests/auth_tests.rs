use aistudio_proxy::auth::{authenticate_http_request, authenticate_websocket, validate_jwt, AppState};
use aistudio_proxy::headers::RequestHeader;
use aistudio_proxy::server::websocket_user;

fn header(name: &str, value: Option<&str>) -> RequestHeader {
    RequestHeader { name: name.to_string(), value: value.map(|v| v.to_string()) }
}

#[test]
fn validate_jwt_missing_token() {
    assert_eq!(validate_jwt(""), Err("Missing auth_token".to_string()));
}

#[test]
fn validate_jwt_known_token() {
    assert_eq!(validate_jwt("valid-token-user-1"), Ok("user-1".to_string()));
}

#[test]
fn validate_jwt_unknown_token() {
    assert_eq!(validate_jwt("valid-token-user-2"), Err("Invalid token".to_string()));
}

#[test]
fn websocket_authentication_accepts_known_token() {
    let r = authenticate_websocket("valid-token-user-1").unwrap();
    assert_eq!(r.user_id, "user-1");
    assert!(r.is_authenticated);
}

#[test]
fn websocket_authentication_refuses_missing_and_unknown_tokens() {
    assert_eq!(authenticate_websocket("").unwrap_err().code(), 401);
    assert_eq!(authenticate_websocket("nope").unwrap_err().code(), 401);
}

#[test]
fn websocket_user_agrees_with_token_rules() {
    for token in ["", "valid-token-user-1", "valid-token-user-10", "x"] {
        assert_eq!(websocket_user(token).is_ok(), validate_jwt(token).is_ok());
        assert_eq!(websocket_user(token).is_ok(), authenticate_websocket(token).is_ok());
    }
    assert_eq!(websocket_user("valid-token-user-1").unwrap(), "user-1");
    assert_eq!(websocket_user("bad").unwrap_err().code(), 401);
}

#[test]
fn http_authentication_checks_first_api_key_header() {
    let state = AppState::new("secret".to_string());
    let ok = vec![header("accept", Some("*/*")), header("x-goog-api-key", Some("secret"))];
    let r = authenticate_http_request(&ok, &state).unwrap();
    assert_eq!(r.user_id, "user-1");
    assert!(r.is_authenticated);

    let wrong = vec![header("x-goog-api-key", Some("other")), header("x-goog-api-key", Some("secret"))];
    assert_eq!(authenticate_http_request(&wrong, &state).unwrap_err().code(), 401);

    let binary = vec![header("x-goog-api-key", None)];
    assert_eq!(authenticate_http_request(&binary, &state).unwrap_err().code(), 401);

    let none: Vec<RequestHeader> = Vec::new();
    assert_eq!(authenticate_http_request(&none, &state).unwrap_err().code(), 401);
}
