use vstd::prelude::*;

verus! {

/// Error answered to a request, by kind.
#[derive(Debug, PartialEq, Eq)]
pub enum ServiceError {
    BadRequest(String),
    Unauthorized,
    Forbidden,
    NotFound(String),
    InternalServerError(String),
    PayloadTooLarge(String),
}

/// Error with a fixed message, answered by the registration routes.
#[derive(Debug, PartialEq, Eq)]
pub struct DefaultError {
    pub message: String,
}

} // verus!

verus! {

/// `e` is a `BadRequest` carrying the message `msg`.
pub open spec fn is_bad_request(e: ServiceError, msg: Seq<char>) -> bool {
    e matches ServiceError::BadRequest(m) && m@ == msg
}

/// `e` is a `PayloadTooLarge` carrying the message `msg`.
pub open spec fn is_payload_too_large(e: ServiceError, msg: Seq<char>) -> bool {
    e matches ServiceError::PayloadTooLarge(m) && m@ == msg
}

/// `r` failed with a `BadRequest` carrying the message `msg`.
pub open spec fn fails_bad_request<T>(r: Result<T, ServiceError>, msg: Seq<char>) -> bool {
    r matches Err(e) && is_bad_request(e, msg)
}

/// A `BadRequest` carrying `msg`.
pub fn bad_request(msg: &str) -> (e: ServiceError)
    ensures
        is_bad_request(e, msg@),
{
    broadcast use vstd::string::group_string_axioms;
    ServiceError::BadRequest(msg.to_string())
}

/// A `BadRequest` carrying the characters of `msg`.
pub fn bad_request_chars(msg: &Vec<char>) -> (e: ServiceError)
    ensures
        is_bad_request(e, msg@),
{
    ServiceError::BadRequest(crate::text::string_from_chars(msg))
}

/// A `PayloadTooLarge` carrying `msg`.
pub fn payload_too_large(msg: &str) -> (e: ServiceError)
    ensures
        is_payload_too_large(e, msg@),
{
    broadcast use vstd::string::group_string_axioms;
    ServiceError::PayloadTooLarge(msg.to_string())
}

} // verus!
