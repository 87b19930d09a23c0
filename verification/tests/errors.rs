use hyperswap::config::Config;
use hyperswap::error::AppError;
use hyperswap::middleware::rate_limit::RateLimitConfig;
use hyperswap::models::organization::CreateOrganizationRequest;
use hyperswap::services::organization_service::OrganizationService;

fn text(s: &str) -> String {
    s.to_string()
}

#[test]
fn failures_have_their_status() {
    let cases = vec![
        (AppError::Database(text("connection reset")), 500, "Database error"),
        (AppError::Config(text("no port")), 500, "Configuration error"),
        (AppError::Jwt(text("bad signature")), 401, "Invalid token"),
        (AppError::OAuth(text("Google OAuth not configured")), 400, "Google OAuth not configured"),
        (AppError::S3(text("bucket gone")), 500, "Storage error"),
        (AppError::Validation(text("IV too short")), 400, "IV too short"),
        (AppError::NotFound, 404, "Resource not found"),
        (AppError::Unauthorized, 401, "Unauthorized"),
        (AppError::Forbidden, 403, "Forbidden"),
        (AppError::RateLimitExceeded, 429, "Rate limit exceeded"),
        (AppError::SecretExpired, 410, "Secret expired"),
        (AppError::SecretAlreadyViewed, 410, "Secret already viewed"),
        (AppError::Conflict, 409, "Conflict"),
        (AppError::Internal(text("disk full")), 500, "Internal server error"),
    ];
    for (error, status, message) in cases {
        assert_eq!(error.status_and_message(), (status, text(message)), "{:?}", error);
    }
}

#[test]
fn failures_are_described_with_their_text() {
    assert_eq!(AppError::Database(text("x")).describe(), "Database error: x");
    assert_eq!(AppError::Config(text("x")).describe(), "Configuration error: x");
    assert_eq!(AppError::Jwt(text("x")).describe(), "JWT error: x");
    assert_eq!(AppError::OAuth(text("x")).describe(), "OAuth error: x");
    assert_eq!(AppError::S3(text("x")).describe(), "S3 error: x");
    assert_eq!(AppError::Validation(text("x")).describe(), "Validation error: x");
    assert_eq!(AppError::NotFound.describe(), "Not found");
    assert_eq!(AppError::Unauthorized.describe(), "Unauthorized");
    assert_eq!(AppError::Forbidden.describe(), "Forbidden");
    assert_eq!(AppError::RateLimitExceeded.describe(), "Rate limit exceeded");
    assert_eq!(AppError::SecretExpired.describe(), "Secret expired");
    assert_eq!(AppError::SecretAlreadyViewed.describe(), "Secret already viewed");
    assert_eq!(AppError::Conflict.describe(), "Conflict");
    assert_eq!(AppError::Internal(text("")).describe(), "Internal server error: ");
}

fn config(environment: &str) -> Config {
    Config {
        database_url: text("postgres://localhost/db"),
        port: 3000,
        jwt_secret: text("signing key"),
        jwt_expiration_minutes: 30,
        s3_endpoint: None,
        s3_region: text("us-east-1"),
        s3_bucket: text("bucket"),
        s3_access_key_id: text("id"),
        s3_secret_access_key: text("access key"),
        oauth_google_client_id: None,
        oauth_google_client_secret: None,
        oauth_microsoft_client_id: None,
        oauth_microsoft_client_secret: None,
        oauth_github_client_id: None,
        oauth_github_client_secret: None,
        frontend_url: text("http://localhost:5173"),
        environment: text(environment),
    }
}

#[test]
fn production_is_named_exactly() {
    assert!(config("production").is_production());
    assert!(!config("development").is_production());
    assert!(!config("Production").is_production());
    assert!(!config("production ").is_production());
    assert!(!config("").is_production());
}

#[test]
fn the_limit_is_reached_at_the_count() {
    let limit = RateLimitConfig { max_requests: 3, window_minutes: 15 };
    assert_eq!(limit.check(0), Ok(()));
    assert_eq!(limit.check(2), Ok(()));
    assert_eq!(limit.check(3), Err(AppError::RateLimitExceeded));
    assert_eq!(limit.check(i32::MAX), Err(AppError::RateLimitExceeded));
    let closed = RateLimitConfig { max_requests: 0, window_minutes: 1 };
    assert_eq!(closed.check(0), Err(AppError::RateLimitExceeded));
    assert_eq!(closed.check(-1), Ok(()));
}

#[test]
fn an_organization_is_found_under_the_slug_of_its_name() {
    let request = CreateOrganizationRequest { name: text("Acme Rockets, Inc.") };
    assert_eq!(OrganizationService::slug_for(&request), "acme-rockets-inc");
}

#[test]
fn a_slug_in_use_is_refused() {
    assert_eq!(OrganizationService::claim_slug("acme", false), Ok(()));
    assert_eq!(
        OrganizationService::claim_slug("acme", true),
        Err(AppError::Validation(text("Organization with slug 'acme' already exists")))
    );
    assert_eq!(
        OrganizationService::claim_slug("", true),
        Err(AppError::Validation(text("Organization with slug '' already exists")))
    );
}

fn nothing_set() -> hyperswap::config::Settings {
    hyperswap::config::Settings {
        database_url: None,
        port: None,
        jwt_secret: None,
        jwt_expiration_minutes: None,
        s3_endpoint: None,
        s3_region: None,
        s3_bucket: None,
        s3_access_key_id: None,
        s3_secret_access_key: None,
        oauth_google_client_id: None,
        oauth_google_client_secret: None,
        oauth_microsoft_client_id: None,
        oauth_microsoft_client_secret: None,
        oauth_github_client_id: None,
        oauth_github_client_secret: None,
        frontend_url: None,
        environment: None,
    }
}

fn needed_set() -> hyperswap::config::Settings {
    hyperswap::config::Settings {
        database_url: Some(text("postgres://localhost/db")),
        jwt_secret: Some(text("signing key")),
        s3_bucket: Some(text("bucket")),
        s3_access_key_id: Some(text("id")),
        s3_secret_access_key: Some(text("access key")),
        ..nothing_set()
    }
}

#[test]
fn settings_fall_back_to_their_defaults() {
    let config = Config::from_settings(needed_set()).unwrap();
    assert_eq!(config.database_url, "postgres://localhost/db");
    assert_eq!(config.port, 3000);
    assert_eq!(config.jwt_secret, "signing key");
    assert_eq!(config.jwt_expiration_minutes, 30);
    assert_eq!(config.s3_endpoint, None);
    assert_eq!(config.s3_region, "us-east-1");
    assert_eq!(config.s3_bucket, "bucket");
    assert_eq!(config.s3_access_key_id, "id");
    assert_eq!(config.s3_secret_access_key, "access key");
    assert_eq!(config.oauth_google_client_id, None);
    assert_eq!(config.oauth_github_client_secret, None);
    assert_eq!(config.frontend_url, "http://localhost:5173");
    assert_eq!(config.environment, "development");
    assert!(!config.is_production());
}

#[test]
fn settings_are_taken_as_they_are_set() {
    let settings = hyperswap::config::Settings {
        port: Some(text("8080")),
        jwt_expiration_minutes: Some(text("+45")),
        s3_endpoint: Some(text("http://minio:9000")),
        s3_region: Some(text("eu-west-1")),
        oauth_google_client_id: Some(text("g-id")),
        oauth_google_client_secret: Some(text("g-key")),
        oauth_microsoft_client_id: Some(text("m-id")),
        oauth_microsoft_client_secret: Some(text("m-key")),
        oauth_github_client_id: Some(text("h-id")),
        oauth_github_client_secret: Some(text("h-key")),
        frontend_url: Some(text("https://example.org")),
        environment: Some(text("production")),
        ..needed_set()
    };
    let config = Config::from_settings(settings).unwrap();
    assert_eq!(config.port, 8080);
    assert_eq!(config.jwt_expiration_minutes, 45);
    assert_eq!(config.s3_endpoint.as_deref(), Some("http://minio:9000"));
    assert_eq!(config.s3_region, "eu-west-1");
    assert_eq!(config.oauth_google_client_id.as_deref(), Some("g-id"));
    assert_eq!(config.oauth_google_client_secret.as_deref(), Some("g-key"));
    assert_eq!(config.oauth_microsoft_client_id.as_deref(), Some("m-id"));
    assert_eq!(config.oauth_microsoft_client_secret.as_deref(), Some("m-key"));
    assert_eq!(config.oauth_github_client_id.as_deref(), Some("h-id"));
    assert_eq!(config.oauth_github_client_secret.as_deref(), Some("h-key"));
    assert_eq!(config.frontend_url, "https://example.org");
    assert!(config.is_production());
    let copy = config.clone();
    assert_eq!(copy.port, 8080);
    assert_eq!(copy.environment, "production");
    assert_eq!(copy.s3_endpoint, config.s3_endpoint);
}

#[test]
fn a_number_that_cannot_be_read_falls_back() {
    for port in ["", "http", "65536", "-1", " 80", "80 ", "8_0", "+", "0x50", "99999999999999999999999"] {
        let settings = hyperswap::config::Settings { port: Some(text(port)), ..needed_set() };
        assert_eq!(Config::from_settings(settings).unwrap().port, 3000, "{:?}", port);
    }
    for (port, value) in [("0", 0), ("65535", 65535), ("+80", 80), ("0080", 80)] {
        let settings = hyperswap::config::Settings { port: Some(text(port)), ..needed_set() };
        assert_eq!(Config::from_settings(settings).unwrap().port, value, "{:?}", port);
    }
    let settings = hyperswap::config::Settings {
        jwt_expiration_minutes: Some(text("18446744073709551616")),
        ..needed_set()
    };
    assert_eq!(Config::from_settings(settings).unwrap().jwt_expiration_minutes, 30);
    let settings = hyperswap::config::Settings {
        jwt_expiration_minutes: Some(text("18446744073709551615")),
        ..needed_set()
    };
    assert_eq!(Config::from_settings(settings).unwrap().jwt_expiration_minutes, u64::MAX);
}

#[test]
fn the_first_missing_setting_is_named() {
    let named = |name: &str| Some(text(name));
    assert_eq!(nothing_set().missing(), named("DATABASE_URL"));
    assert_eq!(
        hyperswap::config::Settings { jwt_secret: None, s3_bucket: None, ..needed_set() }.missing(),
        named("JWT_SECRET")
    );
    assert_eq!(
        hyperswap::config::Settings { s3_bucket: None, ..needed_set() }.missing(),
        named("S3_BUCKET")
    );
    assert_eq!(
        hyperswap::config::Settings { s3_access_key_id: None, ..needed_set() }.missing(),
        named("S3_ACCESS_KEY_ID")
    );
    assert_eq!(
        hyperswap::config::Settings { s3_secret_access_key: None, ..needed_set() }.missing(),
        named("S3_SECRET_ACCESS_KEY")
    );
}

#[test]
fn settings_that_lack_nothing_name_nothing() {
    assert_eq!(needed_set().missing(), None);
    assert!(Config::from_settings(needed_set()).is_ok());
    let bare = hyperswap::config::Settings { port: Some(text("x")), ..needed_set() };
    assert_eq!(bare.missing(), None);
}
