use hyperswap::config::{Config, Settings};
use hyperswap::error::AppError;
use hyperswap::middleware::auth::{bearer_token, Claims};
use hyperswap::middleware::rate_limit::{get_action, get_identifier};
use hyperswap::services::auth_service::{AuthService, GoogleLogin, OauthStep};
use hyperswap::utils::text::{before, has_prefix, parse_decimal, replaced, without_first};
use hyperswap::utils::time::Timestamp;

#[test]
fn a_prefix_is_told() {
    assert!(has_prefix("Bearer abc", "Bearer "));
    assert!(has_prefix("abc", ""));
    assert!(has_prefix("", ""));
    assert!(has_prefix("abc", "abc"));
    assert!(!has_prefix("ab", "abc"));
    assert!(!has_prefix("", "a"));
    assert!(!has_prefix("abd", "abc"));
    assert!(!has_prefix("xbc", "abc"));
    assert!(has_prefix("\u{e9}t\u{e9}", "\u{e9}t"));
    assert!(!has_prefix("ete", "\u{e9}t"));
}

#[test]
fn the_first_characters_are_left_out() {
    assert_eq!(without_first("Bearer abc", 7), "abc");
    assert_eq!(without_first("abc", 0), "abc");
    assert_eq!(without_first("abc", 3), "");
    assert_eq!(without_first("abc", 4), "");
    assert_eq!(without_first("", 2), "");
    assert_eq!(without_first("\u{e9}t\u{e9}", 1), "t\u{e9}");
}

#[test]
fn text_is_cut_at_the_first_stop() {
    assert_eq!(before("1.2.3.4, 5.6.7.8", ','), "1.2.3.4");
    assert_eq!(before("1.2.3.4", ','), "1.2.3.4");
    assert_eq!(before(",a", ','), "");
    assert_eq!(before("", ','), "");
    assert_eq!(before("a,b,c", ','), "a");
}

#[test]
fn characters_are_replaced_one_for_one() {
    assert_eq!(replaced("/api/files/x", '/', '_'), "_api_files_x");
    assert_eq!(replaced("abc", '/', '_'), "abc");
    assert_eq!(replaced("", '/', '_'), "");
    assert_eq!(replaced("//", '/', '_'), "__");
}

#[test]
fn a_bearer_token_follows_its_prefix() {
    assert_eq!(bearer_token("Bearer abc.def.ghi"), Some("abc.def.ghi".to_string()));
    assert_eq!(bearer_token("Bearer "), Some(String::new()));
    assert_eq!(bearer_token("Bearer  x"), Some(" x".to_string()));
}

#[test]
fn a_header_without_the_prefix_carries_no_token() {
    assert_eq!(bearer_token("bearer abc"), None);
    assert_eq!(bearer_token("Bearer"), None);
    assert_eq!(bearer_token("Basic abc"), None);
    assert_eq!(bearer_token(""), None);
    assert_eq!(bearer_token(" Bearer abc"), None);
}

#[test]
fn a_caller_is_named_by_user_or_address() {
    assert_eq!(get_identifier(Some("u-1"), Some("1.2.3.4")), "user:u-1");
    assert_eq!(get_identifier(Some("u-1"), None), "user:u-1");
    assert_eq!(get_identifier(None, Some("1.2.3.4, 10.0.0.1")), "ip:1.2.3.4");
    assert_eq!(get_identifier(None, Some("1.2.3.4")), "ip:1.2.3.4");
    assert_eq!(get_identifier(None, Some("")), "ip:");
    assert_eq!(get_identifier(None, None), "ip:unknown");
}

#[test]
fn calls_are_counted_by_kind() {
    assert_eq!(get_action("GET", "/api/secrets/abc"), "secret_get");
    assert_eq!(get_action("POST", "/api/secrets"), "secret_post");
    assert_eq!(get_action("DELETE", "/api/secrets-extra"), "secret_delete");
    assert_eq!(get_action("GET", "/api/auth/me"), "auth_get");
    assert_eq!(get_action("GET", "/api/files/abc"), "get__api_files_abc");
    assert_eq!(get_action("POST", "/health"), "post__health");
    assert_eq!(get_action("GET", ""), "get_");
    assert_eq!(get_action("Patch", "/x"), "patch__x");
}

#[test]
fn claims_hold_from_now_for_the_minutes_given() {
    let now = Timestamp { secs: 1_700_000_000, nanos: 999 };
    assert_eq!(
        AuthService::claims_at("user-1", now, 30),
        Some(Claims { sub: "user-1".to_string(), exp: 1_700_001_800, iat: 1_700_000_000 })
    );
    assert_eq!(
        AuthService::claims_at("", Timestamp { secs: 0, nanos: 0 }, 0),
        Some(Claims { sub: String::new(), exp: 0, iat: 0 })
    );
}

#[test]
fn claims_that_do_not_fit_are_not_made() {
    assert_eq!(AuthService::claims_at("u", Timestamp { secs: -1, nanos: 0 }, 30), None);
    assert_eq!(AuthService::claims_at("u", Timestamp { secs: 10, nanos: 0 }, u64::MAX), None);
    assert_eq!(AuthService::claims_at("u", Timestamp { secs: i64::MAX, nanos: 0 }, u64::MAX / 60), None);
}

#[test]
fn decimal_numbers_are_read_as_the_standard_library_reads_them() {
    let mut texts: Vec<String> = (0..70_000u32).map(|n| n.to_string()).collect();
    for odd in ["", "+", "-", "-0", "+0", "+-1", "++1", "1+", "00", "007", "+065535", "65536",
        "1e3", "1.0", " 1", "1 ", "\u{661}", "12a", "a12", "4294967296", "18446744073709551615",
        "18446744073709551616", "000000000000000000000000000001"]
    {
        texts.push(odd.to_string());
    }
    for text in &texts {
        assert_eq!(parse_decimal(text, 65_535), text.parse::<u16>().ok().map(u64::from), "{:?}", text);
        assert_eq!(parse_decimal(text, u64::MAX), text.parse::<u64>().ok(), "{:?}", text);
        assert_eq!(parse_decimal(text, 255), text.parse::<u8>().ok().map(u64::from), "{:?}", text);
    }
    assert_eq!(parse_decimal("5", 4), None);
    assert_eq!(parse_decimal("4", 4), Some(4));
    assert_eq!(parse_decimal("0", 0), Some(0));
}

#[test]
fn a_login_with_google_needs_its_settings() {
    let settings = |id: Option<&str>, key: Option<&str>| Settings {
        database_url: Some("db".to_string()),
        port: None,
        jwt_secret: Some("signing key".to_string()),
        jwt_expiration_minutes: None,
        s3_endpoint: None,
        s3_region: None,
        s3_bucket: Some("bucket".to_string()),
        s3_access_key_id: Some("id".to_string()),
        s3_secret_access_key: Some("access key".to_string()),
        oauth_google_client_id: id.map(str::to_string),
        oauth_google_client_secret: key.map(str::to_string),
        oauth_microsoft_client_id: None,
        oauth_microsoft_client_secret: None,
        oauth_github_client_id: None,
        oauth_github_client_secret: None,
        frontend_url: Some("https://example.org".to_string()),
        environment: None,
    };
    let config = Config::from_settings(settings(Some("g-id"), Some("g-key"))).unwrap();
    assert_eq!(
        AuthService::google_login(&config),
        Ok(GoogleLogin {
            client_id: "g-id".to_string(),
            client_secret: "g-key".to_string(),
            redirect_url: "https://example.org/api/auth/oauth/google/callback".to_string(),
        })
    );
    for (id, key) in [(None, None), (Some("g-id"), None), (None, Some("g-key"))] {
        let config = Config::from_settings(settings(id, key)).unwrap();
        assert_eq!(
            AuthService::google_login(&config),
            Err(AppError::OAuth("Google OAuth not configured".to_string()))
        );
    }
}

#[test]
fn a_link_counts_before_the_address() {
    assert_eq!(AuthService::oauth_step(Some(1), Some(2)), OauthStep::UseLinked(1));
    assert_eq!(AuthService::oauth_step(Some(1), None), OauthStep::UseLinked(1));
    assert_eq!(AuthService::oauth_step(None, Some(2)), OauthStep::LinkExisting(2));
    assert_eq!(AuthService::oauth_step(None, None), OauthStep::CreateAndLink);
}
