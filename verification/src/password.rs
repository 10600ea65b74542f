//! Passwords.

use vstd::prelude::*;

use crate::api_error;
use crate::text;

verus! {

#[derive(Debug)]
pub enum PasswordError {
    /// The hash function, or reading a stored hash, failed.
    Argon2(String),
}

impl PasswordError {
    /// What went wrong, in words.
    pub fn message(&self) -> (r: String)
        ensures
            self matches PasswordError::Argon2(m) ==> r@ == "argon2 error: "@ + m@,
    {
        match self {
            PasswordError::Argon2(m) => api_error::prefixed("argon2 error: ", m.as_str()),
        }
    }
}

/// Whether a password matches a stored hash; `None` for a text that is no
/// stored hash.
pub uninterp spec fn password_check(password: Seq<char>, hash: Seq<char>) -> Option<bool>;

/// What every new hash begins with: function, version and cost.
pub open spec fn hash_layout() -> Seq<char> {
    "$argon2id$v=19$m=19456,t=2,p=1$"@
}

/// Most bytes that a password can have.
pub const MAX_PASSWORD_BYTES: u64 = 0xFFFF_FFFF;

/// Why a password could not be hashed, in words: the machine had no random
/// bytes for a salt, or no memory, or the password is too long.
pub open spec fn hash_fault(password: Seq<char>, message: Seq<char>) -> bool {
    ||| message == "rng failure"@
    ||| message == "out of memory"@
    ||| text::byte_len(password) > MAX_PASSWORD_BYTES && message == "invalid password"@
}

/// `h` is a hash of `password` to store: one that it matches, with the layout
/// of every new hash.
pub open spec fn is_hash_of(password: Seq<char>, h: Seq<char>) -> bool {
    &&& text::byte_len(password) <= MAX_PASSWORD_BYTES
    &&& password_check(password, h) == Some(true)
    &&& hash_layout().is_prefix_of(h)
}

/// `message` says, behind `prefix`, why `password` could not be hashed.
pub open spec fn is_hash_fault(prefix: Seq<char>, password: Seq<char>, message: Seq<char>) -> bool {
    exists|m: Seq<char>| #[trigger] hash_fault(password, m) && message == prefix + m
}

/// `PasswordHasher::hash_password` of an `argon2::Argon2` for Argon2id, version
/// 0x13 and `Params::default()`, with a salt drawn at random. The text of the
/// result names these parameters, and the password matches it. It gives an
/// error for a password of more than `MAX_PWD_LEN` bytes. For any other it
/// gives one only where the salt cannot be drawn or the memory cannot be had,
/// which the machine decides.
#[verifier::external_body]
fn argon2_hash(password: &str) -> (r: Result<String, String>)
    ensures
        match r {
            Ok(h) => is_hash_of(password@, h@),
            Err(m) => hash_fault(password@, m@),
        },
{
    let params = argon2::Params::default();
    let a = argon2::Argon2::new(argon2::Algorithm::Argon2id, argon2::Version::V0x13, params);
    match argon2::PasswordHasher::hash_password(&a, password.as_bytes()) {
        Ok(h) => Ok(h.to_string()),
        Err(e) => Err(e.to_string()),
    }
}

/// `phc::PasswordHash::new` of a stored hash, and `verify_password` of an
/// `argon2::Argon2` against what was read. The outcome depends on the password
/// and the stored hash alone.
#[verifier::external_body]
fn argon2_verify(password: &str, hash: &str) -> (r: Result<bool, String>)
    ensures
        match r {
            Ok(b) => password_check(password@, hash@) == Some(b),
            Err(_) => password_check(password@, hash@) is None,
        },
{
    let params = argon2::Params::default();
    let a = argon2::Argon2::new(argon2::Algorithm::Argon2id, argon2::Version::V0x13, params);
    match argon2::password_hash::phc::PasswordHash::new(hash) {
        Ok(p) => Ok(argon2::PasswordVerifier::verify_password(&a, password.as_bytes(), &p).is_ok()),
        Err(e) => Err(e.to_string()),
    }
}

/// What comes of hashing a password, by what the hash function gave.
pub fn hash_outcome(given: Result<String, String>) -> (r: Result<String, PasswordError>)
    ensures
        r == match given {
            Ok(h) => Ok::<String, PasswordError>(h),
            Err(m) => Err::<String, PasswordError>(PasswordError::Argon2(m)),
        },
{
    match given {
        Ok(h) => Ok(h),
        Err(m) => Err(PasswordError::Argon2(m)),
    }
}

/// A hash of `password` to store: what [`hash_outcome`] makes of what the hash
/// function gives for it. A password that is too long has none; any other is
/// refused only where the machine has no random bytes or no memory.
pub fn hash_password(password: &str) -> (r: Result<String, PasswordError>)
    ensures
        match r {
            Ok(h) => is_hash_of(password@, h@),
            Err(PasswordError::Argon2(m)) => hash_fault(password@, m@),
        },
{
    hash_outcome(argon2_hash(password))
}

/// Whether `password` matches a stored hash. A stored text that is no hash is
/// an error, not a wrong password.
pub fn verify_password(password: &str, hash: &str) -> (r: Result<bool, PasswordError>)
    ensures
        match r {
            Ok(b) => password_check(password@, hash@) == Some(b),
            Err(_) => password_check(password@, hash@) is None,
        },
{
    match argon2_verify(password, hash) {
        Ok(b) => Ok(b),
        Err(e) => Err(PasswordError::Argon2(e)),
    }
}

// ---------------------------------------------------------------------------
// Laws
// ---------------------------------------------------------------------------

/// What was hashed matches its hash, and every hash names how it was made.
pub proof fn hashed_password_matches(
    password: &str,
    h: Result<String, PasswordError>,
    hash: &str,
    v: Result<bool, PasswordError>,
)
    requires
        call_ensures(hash_password, (password,), h),
        h is Ok,
        hash@ == h->Ok_0@,
        call_ensures(verify_password, (password, hash), v),
    ensures
        v == Ok::<bool, PasswordError>(true),
        "$argon2id$v=19$m=19456,t=2,p=1$"@.is_prefix_of(h->Ok_0@),
{
}

/// What the hash function gave is the outcome, a hash as a hash and a fault as
/// a fault.
pub proof fn outcome_is_what_was_given(given: Result<String, String>, r: Result<String, PasswordError>)
    requires
        call_ensures(hash_outcome, (given,), r),
    ensures
        r is Ok <==> given is Ok,
        r is Ok ==> r->Ok_0 == given->Ok_0,
        r is Err ==> r->Err_0->Argon2_0 == given->Err_0,
{
}

/// The words for a fault end in what the hash function said.
pub proof fn faults_are_told(e: &PasswordError, m: String)
    requires
        call_ensures(PasswordError::message, (e,), m),
    ensures
        m@ == "argon2 error: "@ + e->Argon2_0@,
{
}

} // verus!
