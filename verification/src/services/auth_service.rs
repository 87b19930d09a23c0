//! What a bearer token says of its holder.

use crate::config::Config;
use crate::error::{AppError, ErrorView};
use crate::middleware::auth::Claims;
use crate::utils::time::Timestamp;
use vstd::prelude::*;

verus! {

/// What a login with Google needs of the settings.
#[derive(Debug, PartialEq, Eq)]
pub struct GoogleLogin {
    pub client_id: String,
    pub client_secret: String,
    pub redirect_url: String,
}

/// The address to which Google sends a user back after the login.
pub open spec fn google_redirect(frontend_url: Seq<char>) -> Seq<char> {
    frontend_url + "/api/auth/oauth/google/callback"@
}

/// Seconds in one minute.
pub const SECONDS_PER_MINUTE: u64 = 60;

/// The second at which a token issued at `now` ceases to hold, where it is
/// to hold for this many minutes.
pub open spec fn expiry_second(now: Timestamp, expiration_minutes: u64) -> int {
    now.secs + SECONDS_PER_MINUTE * expiration_minutes
}

/// What is done for a user who comes back from a login with a provider.
#[derive(Clone, Copy, Debug, PartialEq, Eq, Structural)]
pub enum OauthStep {
    /// The login is linked to this user already: the user is looked up.
    UseLinked(u128),
    /// The login is new and its address belongs to this user: the login is
    /// linked to the user.
    LinkExisting(u128),
    /// Neither the login nor its address is known: a user is made and the
    /// login is linked to it.
    CreateAndLink,
}

/// The step for a login, given the user to whom the login is linked and the
/// user who has the address of the login. A link counts before the address.
pub open spec fn step_of(linked: Option<u128>, by_email: Option<u128>) -> OauthStep {
    match (linked, by_email) {
        (Some(user), _) => OauthStep::UseLinked(user),
        (None, Some(user)) => OauthStep::LinkExisting(user),
        (None, None) => OauthStep::CreateAndLink,
    }
}

/// The operations on identities.
pub struct AuthService;

impl AuthService {
    /// Decides what is done for a user who comes back from a login, given
    /// the user to whom the login is linked and the user who has its
    /// address.
    pub fn oauth_step(linked: Option<u128>, by_email: Option<u128>) -> (r: OauthStep)
        ensures
            r == step_of(linked, by_email),
    {
        match linked {
            Some(user) => OauthStep::UseLinked(user),
            None => match by_email {
                Some(user) => OauthStep::LinkExisting(user),
                None => OauthStep::CreateAndLink,
            },
        }
    }

    /// What a login with Google needs of the settings. Fails with `OAuth`
    /// where the settings hold no client id or no client secret for Google.
    pub fn google_login(config: &Config) -> (r: Result<GoogleLogin, AppError>)
        ensures
            match (config.oauth_google_client_id, config.oauth_google_client_secret) {
                (Some(id), Some(secret)) => {
                    &&& r matches Ok(login)
                    &&& login.client_id@ == id@
                    &&& login.client_secret@ == secret@
                    &&& login.redirect_url@ == google_redirect(config.frontend_url@)
                },
                _ => r matches Err(error) && error@ == ErrorView::OAuth(
                    "Google OAuth not configured"@,
                ),
            },
    {
        let client_id = match &config.oauth_google_client_id {
            Some(id) => id.clone(),
            None => {
                return Err(AppError::OAuth(String::from_str("Google OAuth not configured")));
            },
        };
        let client_secret = match &config.oauth_google_client_secret {
            Some(secret) => secret.clone(),
            None => {
                return Err(AppError::OAuth(String::from_str("Google OAuth not configured")));
            },
        };
        let redirect_url = config.frontend_url.clone().concat("/api/auth/oauth/google/callback");
        Ok(GoogleLogin { client_id, client_secret, redirect_url })
    }

    /// The claims of a token issued to `subject` at `now`, to hold for
    /// `expiration_minutes`: none where `now` lies before the epoch or the
    /// expiry does not fit the field that holds it.
    pub fn claims_at(subject: &str, now: Timestamp, expiration_minutes: u64) -> (r: Option<Claims>)
        ensures
            match r {
                Some(claims) => {
                    &&& 0 <= now.secs
                    &&& claims.sub@ == subject@
                    &&& claims.iat == now.secs
                    &&& claims.exp == expiry_second(now, expiration_minutes)
                },
                None => now.secs < 0 || expiry_second(now, expiration_minutes) > usize::MAX,
            },
    {
        if now.secs < 0 {
            return None;
        }
        let issued: u64 = now.secs as u64;
        let span: u64 = match expiration_minutes.checked_mul(SECONDS_PER_MINUTE) {
            Some(span) => span,
            None => {
                return None;
            },
        };
        let expires: u64 = match issued.checked_add(span) {
            Some(expires) => expires,
            None => {
                return None;
            },
        };
        if expires > usize::MAX as u64 {
            return None;
        }
        Some(Claims { sub: String::from_str(subject), exp: expires as usize, iat: issued as usize })
    }
}

} // verus!
