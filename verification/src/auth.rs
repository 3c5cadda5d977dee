//! The authenticated identity a request carries: token claims, and the
//! extraction of a bearer token from an authorization header. Decoding and
//! signing of the token itself is the caller's business; the claims value
//! handed to the handlers is built here.

use crate::role::UserRole;
use vstd::prelude::*;

verus! {

#[derive(Debug)]
pub struct Claims {
    /// Subject: the user's id.
    pub sub: String,
    pub email: String,
    pub role: UserRole,
    /// Expiry, seconds since the epoch.
    pub exp: usize,
    /// Issued at, seconds since the epoch.
    pub iat: usize,
}

impl Claims {
    /// Fresh claims for a user: issued now, expiring `expiration_seconds`
    /// later, with an empty email.
    pub fn new(user_id: String, role: UserRole, now: usize, expiration_seconds: usize) -> (c:
        Claims)
        requires
            now + expiration_seconds <= usize::MAX,
        ensures
            c.sub == user_id,
            c.role == role,
            c.iat == now,
            c.exp == now + expiration_seconds,
            c.email@.len() == 0,
    {
        Claims {
            sub: user_id,
            email: String::new(),
            role,
            iat: now,
            exp: now + expiration_seconds,
        }
    }
}

/// The token is whatever follows the prefix `"Bearer "`; a header without
/// that exact prefix carries no token.
pub fn extract_token_from_header(auth_header: &str) -> (r: Option<&str>)
    ensures
        match r {
            Some(t) => auth_header@.len() >= 7 && auth_header@.take(7) == "Bearer "@ && t@
                == auth_header@.skip(7),
            None => !(auth_header@.len() >= 7 && auth_header@.take(7) == "Bearer "@),
        },
{
    proof {
        reveal_strlit("Bearer ");
    }
    let prefix = "Bearer ";
    let n = auth_header.unicode_len();
    if n < 7 {
        return None;
    }
    let mut i: usize = 0;
    while i < 7
        invariant
            n == auth_header@.len(),
            n >= 7,
            i <= 7,
            prefix@ == "Bearer "@,
            prefix@.len() == 7,
            forall|j: int| 0 <= j < i ==> auth_header@[j] == prefix@[j],
        decreases 7 - i,
    {
        if auth_header.get_char(i) != prefix.get_char(i) {
            proof {
                assert(auth_header@.take(7)[i as int] != "Bearer "@[i as int]);
            }
            return None;
        }
        i += 1;
    }
    proof {
        assert(auth_header@.take(7) =~= "Bearer "@);
    }
    Some(auth_header.substring_char(7, n))
}

} // verus!
