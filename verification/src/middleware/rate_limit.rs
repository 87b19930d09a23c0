//! The limit on calls per caller and action.

use crate::error::{view_done, AppError, ErrorView};
use crate::models::secret::ref_text;
use crate::utils::text::{before, has_prefix, lowercase, replaced, up_to, with_replaced};
use vstd::prelude::*;

verus! {

/// How many calls one caller may make of one action within one window.
#[derive(Clone, Copy, Debug, PartialEq, Eq, Structural)]
pub struct RateLimitConfig {
    pub max_requests: i32,
    pub window_minutes: i64,
}

impl RateLimitConfig {
    /// A caller who has made `count` calls in the running window may make
    /// one more.
    pub open spec fn allows(self, count: i32) -> bool {
        count < self.max_requests
    }

    /// Decides whether a caller who has made `count` calls in the running
    /// window may make one more: fails with `RateLimitExceeded` once the
    /// count has reached the limit.
    pub fn check(&self, count: i32) -> (r: Result<(), AppError>)
        ensures
            view_done(r) == if self.allows(count) {
                Ok::<(), ErrorView>(())
            } else {
                Err::<(), ErrorView>(ErrorView::RateLimitExceeded)
            },
    {
        if count >= self.max_requests {
            Err(AppError::RateLimitExceeded)
        } else {
            Ok(())
        }
    }
}

/// The name under which the calls of one caller are counted: the user
/// where the call names one; else the first of the addresses through which
/// the call was forwarded; else a name for callers of whom nothing is known.
pub open spec fn identifier_of(user_id: Option<Seq<char>>, forwarded_for: Option<Seq<char>>)
    -> Seq<char> {
    match user_id {
        Some(user) => "user:"@ + user,
        None => match forwarded_for {
            Some(addresses) => "ip:"@ + up_to(addresses, ','),
            None => "ip:unknown"@,
        },
    }
}

/// The name under which calls of one kind are counted, given the method in
/// lower case and the path: all calls on secrets by one method count
/// together, and so do all calls on logins; any other call counts by its
/// method and its path.
pub open spec fn action_of(method: Seq<char>, path: Seq<char>) -> Seq<char> {
    if "/api/secrets"@.is_prefix_of(path) {
        "secret_"@ + method
    } else if "/api/auth"@.is_prefix_of(path) {
        "auth_"@ + method
    } else {
        method + "_"@ + with_replaced(path, '/', '_')
    }
}

/// The name under which the calls of one caller are counted, given the
/// user that the call names and the addresses through which it was
/// forwarded.
pub fn get_identifier(user_id: Option<&str>, forwarded_for: Option<&str>) -> (r: String)
    ensures
        r@ == identifier_of(ref_text(user_id), ref_text(forwarded_for)),
{
    match user_id {
        Some(user) => String::from_str("user:").concat(user),
        None => match forwarded_for {
            Some(addresses) => {
                let first = before(addresses, ',');
                String::from_str("ip:").concat(first.as_str())
            },
            None => String::from_str("ip:unknown"),
        },
    }
}

/// The name under which calls of one kind are counted, given the method
/// and the path of the call.
pub fn get_action(method: &str, path: &str) -> (r: String)
    ensures
        r@ == action_of(lowercase(method@), path@),
{
    let method = method.to_lowercase();
    if has_prefix(path, "/api/secrets") {
        String::from_str("secret_").concat(method.as_str())
    } else if has_prefix(path, "/api/auth") {
        String::from_str("auth_").concat(method.as_str())
    } else {
        let flat = replaced(path, '/', '_');
        method.concat("_").concat(flat.as_str())
    }
}

} // verus!
