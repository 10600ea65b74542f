//! Users.

use vstd::prelude::*;

verus! {

/// Identifies a user: the bits of a UUID.
#[derive(Debug, Clone, Copy, PartialEq, Eq, Structural)]
pub struct UserId(pub u128);

#[derive(Debug, Clone)]
pub struct User {
    pub id: UserId,
    pub email: String,
    /// The handle that other users see; the local part of the address until
    /// its owner edits it.
    pub display_name: String,
    pub is_admin: bool,
    /// Milliseconds since the Unix epoch.
    pub created_at: i64,
}

#[derive(Debug, Clone, Copy, PartialEq, Eq, Structural)]
pub enum Role {
    Admin,
    User,
}

impl Role {
    pub fn from_is_admin(is_admin: bool) -> (r: Role)
        ensures
            r == if is_admin {
                Role::Admin
            } else {
                Role::User
            },
    {
        if is_admin {
            Role::Admin
        } else {
            Role::User
        }
    }
}

// ---------------------------------------------------------------------------
// Laws
// ---------------------------------------------------------------------------

/// An administrator is one, and nobody else is.
pub proof fn only_administrators_are(is_admin: bool, r: Role)
    requires
        call_ensures(Role::from_is_admin, (is_admin,), r),
    ensures
        r is Admin <==> is_admin,
        r is User <==> !is_admin,
{
}

} // verus!
