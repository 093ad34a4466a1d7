//! What a request is answered when it cannot be served.
use vstd::prelude::*;

verus! {

/// The class of an answer that refuses a request.
#[derive(Clone, Copy, Debug, PartialEq, Eq, Structural)]
pub enum Status {
    BadRequest,
    Unauthorized,
    NotFound,
    TooManyRequests,
    Internal,
}

/// A refusal: its class and the message shown to the user.
#[derive(Debug)]
pub struct HandlerError {
    pub status: Status,
    pub message: String,
}

/// A refusal as a value: its class and the characters of its message.
pub struct ErrorView {
    pub status: Status,
    pub message: Seq<char>,
}

impl View for HandlerError {
    type V = ErrorView;

    open spec fn view(&self) -> ErrorView {
        ErrorView { status: self.status, message: self.message@ }
    }
}

pub type HandlerResult<T> = Result<T, HandlerError>;

/// The refusal of a request that is malformed or breaks a rule.
pub open spec fn bad(message: Seq<char>) -> ErrorView {
    ErrorView { status: Status::BadRequest, message }
}

/// The refusal of a request for something that is not there.
pub open spec fn missing(message: Seq<char>) -> ErrorView {
    ErrorView { status: Status::NotFound, message }
}

/// The refusal of a request that is not allowed without a key.
pub open spec fn denied(message: Seq<char>) -> ErrorView {
    ErrorView { status: Status::Unauthorized, message }
}

/// The refusal for a fault on this side.
pub open spec fn internal(message: Seq<char>) -> ErrorView {
    ErrorView { status: Status::Internal, message }
}

/// The refusal where decimal arithmetic has no result: a product, quotient or sum past what a
/// decimal number holds.
pub open spec fn overflowed() -> ErrorView {
    internal("金额计算超出范围"@)
}

/// The refusal of a text that is too long to be encrypted.
pub open spec fn too_long() -> ErrorView {
    internal("内容过长，无法加密"@)
}

/// The result of a function agrees with what its specification says: the same value, or a
/// refusal with the same class and message.
pub open spec fn agrees<T>(result: HandlerResult<T>, expected: Result<T, ErrorView>) -> bool {
    match (result, expected) {
        (Ok(value), Ok(wanted)) => value == wanted,
        (Err(error), Err(wanted)) => error@ == wanted,
        _ => false,
    }
}

pub fn bad_request(message: &str) -> (r: HandlerError)
    ensures
        r@ == bad(message@),
{
    HandlerError { status: Status::BadRequest, message: message.to_owned() }
}

pub fn not_found(message: &str) -> (r: HandlerError)
    ensures
        r@ == missing(message@),
{
    HandlerError { status: Status::NotFound, message: message.to_owned() }
}

pub fn unauthorized(message: &str) -> (r: HandlerError)
    ensures
        r@ == denied(message@),
{
    HandlerError { status: Status::Unauthorized, message: message.to_owned() }
}

pub fn err500(message: &str) -> (r: HandlerError)
    ensures
        r@ == internal(message@),
{
    HandlerError { status: Status::Internal, message: message.to_owned() }
}

pub fn arithmetic_overflow() -> (r: HandlerError)
    ensures
        r@ == overflowed(),
{
    err500("金额计算超出范围")
}

pub fn text_too_long() -> (r: HandlerError)
    ensures
        r@ == too_long(),
{
    err500("内容过长，无法加密")
}

} // verus!
