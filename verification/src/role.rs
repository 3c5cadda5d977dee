//! The closed set of account roles. Every authorization decision in the
//! crate is gated on a value of this type; unknown role strings are rejected
//! rather than silently mapped to a default.

use crate::text::{eq_ignore_ascii_case, lower_seq_matches};
use vstd::prelude::*;

verus! {

#[derive(Clone, Copy, PartialEq, Eq, Structural, Debug)]
pub enum UserRole {
    Customer,
    Admin,
    Vendor,
}

/// Role parsing is case-insensitive and fail-closed: anything that is not
/// one of the three known names yields `None`.
pub open spec fn parse_role(s: Seq<char>) -> Option<UserRole> {
    if lower_seq_matches(s, "customer"@) {
        Some(UserRole::Customer)
    } else if lower_seq_matches(s, "admin"@) {
        Some(UserRole::Admin)
    } else if lower_seq_matches(s, "vendor"@) {
        Some(UserRole::Vendor)
    } else {
        None
    }
}

/// The canonical lower-case name of a role.
pub open spec fn role_name(r: UserRole) -> Seq<char> {
    match r {
        UserRole::Customer => "customer"@,
        UserRole::Admin => "admin"@,
        UserRole::Vendor => "vendor"@,
    }
}

impl UserRole {
    pub fn from_str(s: &str) -> (r: Option<UserRole>)
        ensures
            r == parse_role(s@),
    {
        if eq_ignore_ascii_case(s, "customer") {
            Some(UserRole::Customer)
        } else if eq_ignore_ascii_case(s, "admin") {
            Some(UserRole::Admin)
        } else if eq_ignore_ascii_case(s, "vendor") {
            Some(UserRole::Vendor)
        } else {
            None
        }
    }

    pub fn name(&self) -> (r: String)
        ensures
            r@ == role_name(*self),
    {
        match self {
            UserRole::Customer => "customer".to_owned(),
            UserRole::Admin => "admin".to_owned(),
            UserRole::Vendor => "vendor".to_owned(),
        }
    }
}

} // verus!
