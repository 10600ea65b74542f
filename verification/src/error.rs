//! The errors of the domain.

use vstd::prelude::*;
use vstd::string::StringExecFns;

verus! {

#[derive(Debug)]
pub enum Error {
    NotFound(String),
    InvalidInput(String),
    Unauthorized,
    Forbidden,
    Conflict(String),
    Provider(String),
    /// The provider answered and declined: the account is resolved, a policy
    /// said no.
    ProviderRefused(String),
    Internal(String),
}

pub type Result<T> = std::result::Result<T, Error>;

/// What an error says.
pub open spec fn message_of(e: Error) -> Seq<char> {
    match e {
        Error::NotFound(m) => "not found: "@ + m@,
        Error::InvalidInput(m) => "invalid input: "@ + m@,
        Error::Unauthorized => "unauthorized"@,
        Error::Forbidden => "forbidden"@,
        Error::Conflict(m) => "conflict: "@ + m@,
        Error::Provider(m) => "upstream provider error: "@ + m@,
        Error::ProviderRefused(m) => "provider refused the request: "@ + m@,
        Error::Internal(m) => "internal: "@ + m@,
    }
}

fn prefixed(prefix: &str, m: &String) -> (r: String)
    ensures
        r@ == prefix@ + m@,
{
    let mut s = prefix.to_string();
    s.append(m.as_str());
    s
}

impl Error {
    /// An internal error with the given description.
    pub fn internal(e: &str) -> (r: Error)
        ensures
            r is Internal,
            r->Internal_0@ == e@,
    {
        Error::Internal(e.to_string())
    }

    /// An invalid-input error with the given description.
    pub fn invalid(msg: &str) -> (r: Error)
        ensures
            r is InvalidInput,
            r->InvalidInput_0@ == msg@,
    {
        Error::InvalidInput(msg.to_string())
    }

    /// The text shown to the user.
    pub fn message(&self) -> (r: String)
        ensures
            r@ == message_of(*self),
    {
        match self {
            Error::NotFound(m) => prefixed("not found: ", m),
            Error::InvalidInput(m) => prefixed("invalid input: ", m),
            Error::Unauthorized => "unauthorized".to_string(),
            Error::Forbidden => "forbidden".to_string(),
            Error::Conflict(m) => prefixed("conflict: ", m),
            Error::Provider(m) => prefixed("upstream provider error: ", m),
            Error::ProviderRefused(m) => prefixed("provider refused the request: ", m),
            Error::Internal(m) => prefixed("internal: ", m),
        }
    }
}

// ---------------------------------------------------------------------------
// Laws
// ---------------------------------------------------------------------------

/// Every error says what it is, and ends in what it was given.
pub proof fn errors_say_what_they_are(e: &Error, m: String)
    requires
        call_ensures(Error::message, (e,), m),
    ensures
        e is NotFound ==> m@ == "not found: "@ + e->NotFound_0@,
        e is InvalidInput ==> m@ == "invalid input: "@ + e->InvalidInput_0@,
        e is Unauthorized ==> m@ == "unauthorized"@,
        e is Forbidden ==> m@ == "forbidden"@,
        e is Conflict ==> m@ == "conflict: "@ + e->Conflict_0@,
        e is Provider ==> m@ == "upstream provider error: "@ + e->Provider_0@,
        e is ProviderRefused ==> m@ == "provider refused the request: "@ + e->ProviderRefused_0@,
        e is Internal ==> m@ == "internal: "@ + e->Internal_0@,
{
}

/// An error made of words says them.
pub proof fn made_errors_say_their_words(w: &str, a: Error, b: Error, ma: String, mb: String)
    requires
        call_ensures(Error::internal, (w,), a),
        call_ensures(Error::invalid, (w,), b),
        call_ensures(Error::message, (&a,), ma),
        call_ensures(Error::message, (&b,), mb),
    ensures
        ma@ == "internal: "@ + w@,
        mb@ == "invalid input: "@ + w@,
{
}

} // verus!
