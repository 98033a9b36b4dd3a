//! HTTP status codes as the proxy answers with them.

use vstd::prelude::*;

verus! {

/// An HTTP status code.  Only codes that HTTP accepts (100 to 999) can be
/// held.
#[derive(Debug, Clone, Copy)]
pub struct HttpStatus {
    code: u16,
}

/// Whether `http::StatusCode::from_u16` accepts `code`.  Its documentation
/// and its source accept exactly the codes from 100 to 999.
#[verifier::external_body]
fn status_code_accepts(code: u16) -> (r: bool)
    ensures
        r == (100 <= code <= 999),
{
    axum::http::StatusCode::from_u16(code).is_ok()
}

impl View for HttpStatus {
    type V = u16;

    closed spec fn view(&self) -> u16 {
        self.code
    }
}

impl HttpStatus {
    #[verifier::type_invariant]
    spec fn inv(self) -> bool {
        100 <= self.code <= 999
    }

    /// The status with the given code, if HTTP accepts the code.
    pub fn from_code(code: u16) -> (r: Option<HttpStatus>)
        ensures
            r is Some <==> 100 <= code <= 999,
            r matches Some(s) ==> s@ == code,
    {
        if status_code_accepts(code) {
            Some(HttpStatus { code })
        } else {
            None
        }
    }

    /// The numeric code.
    pub fn code(&self) -> (r: u16)
        ensures
            r == self@,
            100 <= r <= 999,
    {
        proof {
            use_type_invariant(self);
        }
        self.code
    }

    /// 401 Unauthorized.
    pub fn unauthorized() -> (r: HttpStatus)
        ensures
            r@ == 401,
    {
        HttpStatus { code: 401 }
    }

    /// 500 Internal Server Error.
    pub fn internal_server_error() -> (r: HttpStatus)
        ensures
            r@ == 500,
    {
        HttpStatus { code: 500 }
    }

    /// 502 Bad Gateway.
    pub fn bad_gateway() -> (r: HttpStatus)
        ensures
            r@ == 502,
    {
        HttpStatus { code: 502 }
    }

    /// 503 Service Unavailable.
    pub fn service_unavailable() -> (r: HttpStatus)
        ensures
            r@ == 503,
    {
        HttpStatus { code: 503 }
    }

    /// 504 Gateway Timeout.
    pub fn gateway_timeout() -> (r: HttpStatus)
        ensures
            r@ == 504,
    {
        HttpStatus { code: 504 }
    }
}

} // verus!
