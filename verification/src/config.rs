//! The settings of a running server.

use crate::error::AppError;
use crate::models::secret::{copy_text, text_of};
use crate::utils::text::{parse_decimal, unsigned_of};
use vstd::prelude::*;

verus! {

/// The port on which the server listens where none is set.
pub const DEFAULT_PORT: u16 = 3000;

/// The minutes for which a bearer token holds where none are set.
pub const DEFAULT_JWT_EXPIRATION_MINUTES: u64 = 30;

/// What the environment of the process holds of each setting: the text of
/// its variable, where the variable is set.
#[derive(Debug)]
pub struct Settings {
    pub database_url: Option<String>,
    pub port: Option<String>,
    pub jwt_secret: Option<String>,
    pub jwt_expiration_minutes: Option<String>,
    pub s3_endpoint: Option<String>,
    pub s3_region: Option<String>,
    pub s3_bucket: Option<String>,
    pub s3_access_key_id: Option<String>,
    pub s3_secret_access_key: Option<String>,
    pub oauth_google_client_id: Option<String>,
    pub oauth_google_client_secret: Option<String>,
    pub oauth_microsoft_client_id: Option<String>,
    pub oauth_microsoft_client_secret: Option<String>,
    pub oauth_github_client_id: Option<String>,
    pub oauth_github_client_secret: Option<String>,
    pub frontend_url: Option<String>,
    pub environment: Option<String>,
}

/// The variable of the first setting that has no default and is not set, if
/// there is one.
pub open spec fn first_missing(settings: Settings) -> Option<Seq<char>> {
    if settings.database_url is None {
        Some("DATABASE_URL"@)
    } else if settings.jwt_secret is None {
        Some("JWT_SECRET"@)
    } else if settings.s3_bucket is None {
        Some("S3_BUCKET"@)
    } else if settings.s3_access_key_id is None {
        Some("S3_ACCESS_KEY_ID"@)
    } else if settings.s3_secret_access_key is None {
        Some("S3_SECRET_ACCESS_KEY"@)
    } else {
        None
    }
}

impl Settings {
    /// Names the variable of the first setting that has no default and is
    /// not set, if there is one: `DATABASE_URL`, `JWT_SECRET`, `S3_BUCKET`,
    /// `S3_ACCESS_KEY_ID` and `S3_SECRET_ACCESS_KEY` are asked for, in this
    /// order.
    pub fn missing(&self) -> (r: Option<String>)
        ensures
            text_of(r) == first_missing(*self),
    {
        if self.database_url.is_none() {
            Some(String::from_str("DATABASE_URL"))
        } else if self.jwt_secret.is_none() {
            Some(String::from_str("JWT_SECRET"))
        } else if self.s3_bucket.is_none() {
            Some(String::from_str("S3_BUCKET"))
        } else if self.s3_access_key_id.is_none() {
            Some(String::from_str("S3_ACCESS_KEY_ID"))
        } else if self.s3_secret_access_key.is_none() {
            Some(String::from_str("S3_SECRET_ACCESS_KEY"))
        } else {
            None
        }
    }
}

/// The number up to `max` that a setting stands for, or `default` where the
/// setting is not set or is no such number.
pub open spec fn number_or(text: Option<Seq<char>>, max: nat, default: nat) -> nat {
    match text {
        Some(text) => match unsigned_of(text, max) {
            Some(value) => value,
            None => default,
        },
        None => default,
    }
}

/// The text of a setting, or `default` where the setting is not set.
pub open spec fn text_or(text: Option<Seq<char>>, default: Seq<char>) -> Seq<char> {
    match text {
        Some(text) => text,
        None => default,
    }
}

fn read_number(text: &Option<String>, max: u64, default: u64) -> (r: u64)
    requires
        default <= max,
    ensures
        r == number_or(text_of(*text), max as nat, default as nat),
        r <= max,
{
    match text {
        Some(text) => match parse_decimal(text.as_str(), max) {
            Some(value) => value,
            None => default,
        },
        None => default,
    }
}

fn read_text(text: Option<String>, default: &str) -> (r: String)
    ensures
        r@ == text_or(text_of(text), default@),
{
    match text {
        Some(text) => text,
        None => String::from_str(default),
    }
}

/// The settings of a running server, as its environment gives them.
#[derive(Debug)]
pub struct Config {
    pub database_url: String,
    pub port: u16,
    pub jwt_secret: String,
    pub jwt_expiration_minutes: u64,
    pub s3_endpoint: Option<String>,
    pub s3_region: String,
    pub s3_bucket: String,
    pub s3_access_key_id: String,
    pub s3_secret_access_key: String,
    pub oauth_google_client_id: Option<String>,
    pub oauth_google_client_secret: Option<String>,
    pub oauth_microsoft_client_id: Option<String>,
    pub oauth_microsoft_client_secret: Option<String>,
    pub oauth_github_client_id: Option<String>,
    pub oauth_github_client_secret: Option<String>,
    pub frontend_url: String,
    pub environment: String,
}

impl Clone for Config {
    fn clone(&self) -> (r: Self)
        ensures
            r.database_url@ == self.database_url@,
            r.port == self.port,
            r.jwt_secret@ == self.jwt_secret@,
            r.jwt_expiration_minutes == self.jwt_expiration_minutes,
            text_of(r.s3_endpoint) == text_of(self.s3_endpoint),
            r.s3_region@ == self.s3_region@,
            r.s3_bucket@ == self.s3_bucket@,
            r.s3_access_key_id@ == self.s3_access_key_id@,
            r.s3_secret_access_key@ == self.s3_secret_access_key@,
            text_of(r.oauth_google_client_id) == text_of(self.oauth_google_client_id),
            text_of(r.oauth_google_client_secret) == text_of(self.oauth_google_client_secret),
            text_of(r.oauth_microsoft_client_id) == text_of(self.oauth_microsoft_client_id),
            text_of(r.oauth_microsoft_client_secret) == text_of(
                self.oauth_microsoft_client_secret,
            ),
            text_of(r.oauth_github_client_id) == text_of(self.oauth_github_client_id),
            text_of(r.oauth_github_client_secret) == text_of(self.oauth_github_client_secret),
            r.frontend_url@ == self.frontend_url@,
            r.environment@ == self.environment@,
    {
        Config {
            database_url: self.database_url.clone(),
            port: self.port,
            jwt_secret: self.jwt_secret.clone(),
            jwt_expiration_minutes: self.jwt_expiration_minutes,
            s3_endpoint: copy_text(&self.s3_endpoint),
            s3_region: self.s3_region.clone(),
            s3_bucket: self.s3_bucket.clone(),
            s3_access_key_id: self.s3_access_key_id.clone(),
            s3_secret_access_key: self.s3_secret_access_key.clone(),
            oauth_google_client_id: copy_text(&self.oauth_google_client_id),
            oauth_google_client_secret: copy_text(&self.oauth_google_client_secret),
            oauth_microsoft_client_id: copy_text(&self.oauth_microsoft_client_id),
            oauth_microsoft_client_secret: copy_text(&self.oauth_microsoft_client_secret),
            oauth_github_client_id: copy_text(&self.oauth_github_client_id),
            oauth_github_client_secret: copy_text(&self.oauth_github_client_secret),
            frontend_url: self.frontend_url.clone(),
            environment: self.environment.clone(),
        }
    }
}

impl Config {
    /// The settings of the server, given what its environment holds. Every
    /// setting without default must be set: a server whose settings lack one
    /// does not start (see [`Settings::missing`]). The port and the minutes
    /// fall back to their defaults where they are not set or are no numbers
    /// of their range.
    pub fn from_settings(settings: Settings) -> (r: Result<Config, AppError>)
        requires
            first_missing(settings) is None,
        ensures
            r matches Ok(config) && {
                &&& config.database_url@ == settings.database_url->0@
                &&& config.port == number_or(
                    text_of(settings.port),
                    u16::MAX as nat,
                    DEFAULT_PORT as nat,
                )
                &&& config.jwt_secret@ == settings.jwt_secret->0@
                &&& config.jwt_expiration_minutes == number_or(
                    text_of(settings.jwt_expiration_minutes),
                    u64::MAX as nat,
                    DEFAULT_JWT_EXPIRATION_MINUTES as nat,
                )
                &&& text_of(config.s3_endpoint) == text_of(settings.s3_endpoint)
                &&& config.s3_region@ == text_or(text_of(settings.s3_region), "us-east-1"@)
                &&& config.s3_bucket@ == settings.s3_bucket->0@
                &&& config.s3_access_key_id@ == settings.s3_access_key_id->0@
                &&& config.s3_secret_access_key@ == settings.s3_secret_access_key->0@
                &&& text_of(config.oauth_google_client_id) == text_of(
                    settings.oauth_google_client_id,
                )
                &&& text_of(config.oauth_google_client_secret) == text_of(
                    settings.oauth_google_client_secret,
                )
                &&& text_of(config.oauth_microsoft_client_id) == text_of(
                    settings.oauth_microsoft_client_id,
                )
                &&& text_of(config.oauth_microsoft_client_secret) == text_of(
                    settings.oauth_microsoft_client_secret,
                )
                &&& text_of(config.oauth_github_client_id) == text_of(
                    settings.oauth_github_client_id,
                )
                &&& text_of(config.oauth_github_client_secret) == text_of(
                    settings.oauth_github_client_secret,
                )
                &&& config.frontend_url@ == text_or(
                    text_of(settings.frontend_url),
                    "http://localhost:5173"@,
                )
                &&& config.environment@ == text_or(text_of(settings.environment), "development"@)
            },
    {
        let port = read_number(&settings.port, u16::MAX as u64, DEFAULT_PORT as u64) as u16;
        let jwt_expiration_minutes = read_number(
            &settings.jwt_expiration_minutes,
            u64::MAX,
            DEFAULT_JWT_EXPIRATION_MINUTES,
        );
        Ok(
            Config {
                database_url: settings.database_url.unwrap(),
                port,
                jwt_secret: settings.jwt_secret.unwrap(),
                jwt_expiration_minutes,
                s3_endpoint: settings.s3_endpoint,
                s3_region: read_text(settings.s3_region, "us-east-1"),
                s3_bucket: settings.s3_bucket.unwrap(),
                s3_access_key_id: settings.s3_access_key_id.unwrap(),
                s3_secret_access_key: settings.s3_secret_access_key.unwrap(),
                oauth_google_client_id: settings.oauth_google_client_id,
                oauth_google_client_secret: settings.oauth_google_client_secret,
                oauth_microsoft_client_id: settings.oauth_microsoft_client_id,
                oauth_microsoft_client_secret: settings.oauth_microsoft_client_secret,
                oauth_github_client_id: settings.oauth_github_client_id,
                oauth_github_client_secret: settings.oauth_github_client_secret,
                frontend_url: read_text(settings.frontend_url, "http://localhost:5173"),
                environment: read_text(settings.environment, "development"),
            },
        )
    }

    /// The server runs in production: its environment is named
    /// `production`, letter for letter.
    pub open spec fn production(&self) -> bool {
        self.environment@ == "production"@
    }

    /// Tells whether the server runs in production.
    pub fn is_production(&self) -> (r: bool)
        ensures
            r == self.production(),
    {
        self.environment == String::from_str("production")
    }
}

} // verus!
