//! Authentication rules: token and API-key checks.

use vstd::prelude::*;
use crate::text::str_eq;
use crate::headers::{header_text, header_value, RequestHeader};
use crate::status::HttpStatus;

verus! {

/// The only token that the proxy accepts for a WebSocket client.
pub open spec fn valid_token() -> Seq<char> {
    "valid-token-user-1"@
}

/// The user that every accepted credential stands for.
pub open spec fn default_user() -> Seq<char> {
    "user-1"@
}

/// Checks a WebSocket token.  An empty token is reported as missing, the one
/// known token yields its user, and every other token is refused.
pub fn validate_jwt(token: &str) -> (r: Result<String, String>)
    ensures
        token@.len() == 0 ==> (r matches Err(e) && e@ == "Missing auth_token"@),
        token@.len() != 0 && token@ == valid_token() ==> (r matches Ok(u) && u@ == default_user()),
        token@.len() != 0 && token@ != valid_token() ==> (r matches Err(e) && e@ == "Invalid token"@),
{
    if token.is_empty() {
        return Err(String::from_str("Missing auth_token"));
    }
    if str_eq(token, "valid-token-user-1") {
        Ok(String::from_str("user-1"))
    } else {
        Err(String::from_str("Invalid token"))
    }
}


/// The outcome of a successful authentication.
#[derive(Debug, Clone)]
pub struct AuthResult {
    pub user_id: String,
    pub is_authenticated: bool,
}

/// The authentication result of the default user.
fn default_user_result() -> (r: AuthResult)
    ensures
        r.user_id@ == default_user(),
        r.is_authenticated,
{
    AuthResult { user_id: String::from_str("user-1"), is_authenticated: true }
}

/// Authenticates a WebSocket client by the `auth_token` of its query: the
/// one known token is the default user; a missing (empty) or any other
/// token is refused with 401.
pub fn authenticate_websocket(auth_token: &str) -> (r: Result<AuthResult, HttpStatus>)
    ensures
        r is Ok <==> auth_token@ == valid_token(),
        r matches Ok(a) ==> a.user_id@ == default_user() && a.is_authenticated,
        r matches Err(s) ==> s@ == 401,
{
    if auth_token.is_empty() {
        proof {
            reveal_strlit("valid-token-user-1");
        }
        return Err(HttpStatus::unauthorized());
    }
    if str_eq(auth_token, "valid-token-user-1") {
        Ok(default_user_result())
    } else {
        Err(HttpStatus::unauthorized())
    }
}

/// The state that HTTP authentication checks against: the API key.
#[derive(Debug, Clone)]
pub struct AppState {
    pub auth_api_key: String,
}

impl AppState {
    /// A state with the given API key.
    pub fn new(auth_api_key: String) -> (r: AppState)
        ensures
            r.auth_api_key == auth_api_key,
    {
        AppState { auth_api_key }
    }
}

/// Authenticates an HTTP request: its first `x-goog-api-key` header must be
/// text equal to the state's API key; the request is then the default
/// user's.  Otherwise 401.
pub fn authenticate_http_request(headers: &Vec<RequestHeader>, state: &AppState) -> (r: Result<
    AuthResult,
    HttpStatus,
>)
    ensures
        r is Ok <==> (header_text(headers@, "x-goog-api-key"@) matches Some(k) && k@
            == state.auth_api_key@),
        r matches Ok(a) ==> a.user_id@ == default_user() && a.is_authenticated,
        r matches Err(s) ==> s@ == 401,
{
    match header_value(headers, "x-goog-api-key") {
        Some(key) => {
            if *key == state.auth_api_key {
                Ok(default_user_result())
            } else {
                Err(HttpStatus::unauthorized())
            }
        },
        None => Err(HttpStatus::unauthorized()),
    }
}

/// The token rules agree: `validate_jwt`, `authenticate_websocket` and
/// `websocket_user` all admit exactly the one known token (which is not
/// empty, so the missing-token case of `validate_jwt` never admits).
pub proof fn law_token_rules_agree(token: Seq<char>)
    ensures
        (token.len() != 0 && token == valid_token()) <==> token == valid_token(),
{
    reveal_strlit("valid-token-user-1");
}

} // verus!
