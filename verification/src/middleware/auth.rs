//! The bearer token of a call.

use crate::utils::text::{has_prefix, without_first};
use vstd::prelude::*;

verus! {

/// What a bearer token claims: whom it stands for, when it was issued, and
/// until when it holds. The times are seconds since the epoch.
#[derive(Debug, PartialEq, Eq)]
pub struct Claims {
    pub sub: String,
    pub exp: usize,
    pub iat: usize,
}

/// What precedes the token in the header of a call.
pub open spec fn bearer_prefix() -> Seq<char> {
    "Bearer "@
}

/// The token that a header carries: what follows the word `Bearer` and one blank, in
/// a header that begins so.
pub open spec fn token_of(header: Seq<char>) -> Option<Seq<char>> {
    if bearer_prefix().is_prefix_of(header) {
        Some(header.skip(7))
    } else {
        None
    }
}

/// Takes the bearer token out of a header, where the header carries one.
pub fn bearer_token(header: &str) -> (r: Option<String>)
    ensures
        match token_of(header@) {
            Some(token) => r matches Some(found) && found@ == token,
            None => r is None,
        },
{
    proof {
        reveal_strlit("Bearer ");
    }
    if has_prefix(header, "Bearer ") {
        Some(without_first(header, 7))
    } else {
        None
    }
}

} // verus!
