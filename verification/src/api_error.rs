//! How a request fails.

use vstd::prelude::*;
use vstd::string::StringExecFns;

verus! {

#[derive(Debug)]
pub enum ApiError {
    BadRequest(String),
    Unauthorized,
    Forbidden,
    NotFound,
    Conflict(String),
    /// Nobody shares the release any more.
    DeadTorrent,
    /// Something this service depends on failed.
    Upstream(String),
    Internal(String),
}

/// The model of [`ApiError`].
pub enum Failure {
    BadRequest(Seq<char>),
    Unauthorized,
    Forbidden,
    NotFound,
    Conflict(Seq<char>),
    DeadTorrent,
    Upstream(Seq<char>),
    Internal(Seq<char>),
}

impl View for ApiError {
    type V = Failure;

    open spec fn view(&self) -> Failure {
        match self {
            ApiError::BadRequest(m) => Failure::BadRequest(m@),
            ApiError::Unauthorized => Failure::Unauthorized,
            ApiError::Forbidden => Failure::Forbidden,
            ApiError::NotFound => Failure::NotFound,
            ApiError::Conflict(m) => Failure::Conflict(m@),
            ApiError::DeadTorrent => Failure::DeadTorrent,
            ApiError::Upstream(m) => Failure::Upstream(m@),
            ApiError::Internal(m) => Failure::Internal(m@),
        }
    }
}

pub fn bad_request(message: &str) -> (r: ApiError)
    ensures
        r@ == Failure::BadRequest(message@),
{
    ApiError::BadRequest(message.to_string())
}

pub fn internal(message: &str) -> (r: ApiError)
    ensures
        r@ == Failure::Internal(message@),
{
    ApiError::Internal(message.to_string())
}

pub fn conflict(message: &str) -> (r: ApiError)
    ensures
        r@ == Failure::Conflict(message@),
{
    ApiError::Conflict(message.to_string())
}

/// What was looked for, which has to be there.
pub fn found<T>(x: Option<T>) -> (r: Result<T, ApiError>)
    ensures
        match x {
            Some(v) => r == Ok::<T, ApiError>(v),
            None => r matches Err(e) && e@ == Failure::NotFound,
        },
{
    match x {
        Some(v) => Ok(v),
        None => Err(ApiError::NotFound),
    }
}

/// `head` and `body` one after the other.
pub fn prefixed(head: &str, body: &str) -> (r: String)
    ensures
        r@ == head@ + body@,
{
    let mut s = head.to_string();
    s.append(body);
    s
}

/// `head`, `body` and `tail` one after the other.
pub fn glued(head: &str, body: &str, tail: &str) -> (r: String)
    ensures
        r@ == head@ + body@ + tail@,
{
    let mut s = head.to_string();
    s.append(body);
    s.append(tail);
    s
}

// ---------------------------------------------------------------------------
// Laws
// ---------------------------------------------------------------------------

/// A failure is what it is called, with the words that it was given.
pub proof fn failures_keep_their_words(w: &str, a: ApiError, b: ApiError, c: ApiError)
    requires
        call_ensures(bad_request, (w,), a),
        call_ensures(internal, (w,), b),
        call_ensures(conflict, (w,), c),
    ensures
        a is BadRequest && a->BadRequest_0@ == w@,
        b is Internal && b->Internal_0@ == w@,
        c is Conflict && c->Conflict_0@ == w@,
{
}

/// What is there is found, and what is not is not.
pub proof fn what_is_there_is_found<T>(x: Option<T>, r: Result<T, ApiError>)
    requires
        call_ensures(found::<T>, (x,), r),
    ensures
        r is Ok <==> x is Some,
        r is Ok ==> r->Ok_0 == x->0,
        r is Err ==> r->Err_0 is NotFound,
{
}

/// Texts follow each other in the order in which they are given.
pub proof fn texts_follow_each_other(head: &str, body: &str, tail: &str, a: String, b: String)
    requires
        call_ensures(prefixed, (head, body), a),
        call_ensures(glued, (head, body, tail), b),
    ensures
        a@.take(head@.len() as int) == head@,
        a@.skip(head@.len() as int) == body@,
        b@ == a@ + tail@,
{
}

} // verus!
