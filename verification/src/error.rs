//! Errors as they are reported to clients.
use vstd::prelude::*;

verus! {

/// What `axum::http::StatusCode` shows for a status code: its number and its usual phrase.
pub uninterp spec fn status_text(code: u16) -> Seq<char>;

/// Calls `Display` of `axum::http::StatusCode`. The contract names the text; the code has to
/// be one that the type holds, which is a number of three digits.
#[verifier::external_body]
fn show_status(code: u16) -> (text: String)
    requires
        100 <= code <= 999,
    ensures
        text@ == status_text(code),
{
    axum::http::StatusCode::from_u16(code).unwrap().to_string()
}

/// An HTTP status code: a number of three digits.
#[derive(Debug)]
pub struct HttpStatus {
    code: u16,
}

impl View for HttpStatus {
    type V = u16;

    closed spec fn view(&self) -> u16 {
        self.code
    }
}

impl HttpStatus {
    #[verifier::type_invariant]
    spec fn has_three_digits(self) -> bool {
        100 <= self.code <= 999
    }

    /// The status with the given code, where there is one.
    pub fn new(code: u16) -> (r: Option<HttpStatus>)
        ensures
            r is Some <==> 100 <= code <= 999,
            r matches Some(status) ==> status@ == code,
    {
        if code >= 100 && code <= 999 {
            Some(HttpStatus { code })
        } else {
            None
        }
    }

    /// The number of the status.
    pub fn code(&self) -> (r: u16)
        ensures
            r == self@,
            100 <= r <= 999,
    {
        proof {
            use_type_invariant(self);
        }
        self.code
    }

    /// Whether the status reports success.
    pub fn is_success(&self) -> (r: bool)
        ensures
            r == is_success(self@),
    {
        self.code >= 200 && self.code < 300
    }

    /// The number of the status and its usual phrase.
    pub fn text(&self) -> (r: String)
        ensures
            r@ == status_text(self@),
    {
        proof {
            use_type_invariant(self);
        }
        show_status(self.code)
    }
}

/// Whether a status code reports success.
pub open spec fn is_success(code: u16) -> bool {
    200 <= code < 300
}

/// `400 Bad Request`.
pub const BAD_REQUEST: u16 = 400;

/// `401 Unauthorized`.
pub const UNAUTHORIZED: u16 = 401;

/// `404 Not Found`.
pub const NOT_FOUND: u16 = 404;

/// `500 Internal Server Error`.
pub const INTERNAL_SERVER_ERROR: u16 = 500;

/// Why a request was not served.
#[derive(Debug)]
pub struct ApiError {
    pub status: HttpStatus,
    pub message: String,
}

/// Why a request was not served, as a value of the model.
pub struct ApiErrorView {
    pub status: u16,
    pub message: Seq<char>,
}

impl View for ApiError {
    type V = ApiErrorView;

    open spec fn view(&self) -> ApiErrorView {
        ApiErrorView { status: self.status@, message: self.message@ }
    }
}

/// The body of an answer that reports an error.
#[derive(Debug)]
pub struct ErrorResponse {
    pub error: String,
}

/// An error of the server itself.
pub open spec fn internal(message: Seq<char>) -> ApiErrorView {
    ApiErrorView { status: INTERNAL_SERVER_ERROR, message }
}

/// An error of the request.
pub open spec fn bad_request(message: Seq<char>) -> ApiErrorView {
    ApiErrorView { status: BAD_REQUEST, message }
}

/// Something that was asked for does not exist.
pub open spec fn not_found(message: Seq<char>) -> ApiErrorView {
    ApiErrorView { status: NOT_FOUND, message }
}

impl ApiError {
    /// An error with the given status and message.
    pub fn new(status: HttpStatus, message: String) -> (r: ApiError)
        ensures
            r@ == (ApiErrorView { status: status@, message: message@ }),
    {
        ApiError { status, message }
    }

    /// An error of the server itself.
    pub fn internal(message: String) -> (r: ApiError)
        ensures
            r@ == internal(message@),
    {
        ApiError::new(HttpStatus { code: INTERNAL_SERVER_ERROR }, message)
    }

    /// An error of the request.
    pub fn bad_request(message: String) -> (r: ApiError)
        ensures
            r@ == bad_request(message@),
    {
        ApiError::new(HttpStatus { code: BAD_REQUEST }, message)
    }

    /// Something that was asked for does not exist.
    pub fn not_found(message: String) -> (r: ApiError)
        ensures
            r@ == not_found(message@),
    {
        ApiError::new(HttpStatus { code: NOT_FOUND }, message)
    }

    /// A request without the right secret.
    pub fn unauthorized(message: String) -> (r: ApiError)
        ensures
            r@ == (ApiErrorView { status: UNAUTHORIZED, message: message@ }),
    {
        ApiError::new(HttpStatus { code: UNAUTHORIZED }, message)
    }

    /// The status and the body that report this error.
    pub fn into_response(self) -> (r: (u16, ErrorResponse))
        ensures
            r.0 == self@.status,
            r.1.error@ == self@.message,
    {
        (self.status.code(), ErrorResponse { error: self.message })
    }
}

/// Errors of the server, of the request and of what is missing differ in their status, and hand
/// their message on as it is.
pub proof fn law_errors_bear_their_status(message: Seq<char>)
    ensures
        internal(message).status == 500,
        bad_request(message).status == 400,
        not_found(message).status == 404,
        internal(message).message == message,
        bad_request(message).message == message,
        not_found(message).message == message,
{
}

/// A status reports success exactly if it has three digits of which the first is a two.
pub proof fn law_success_starts_with_two(code: u16)
    ensures
        is_success(code) <==> code / 100 == 2,
{
}

} // verus!
