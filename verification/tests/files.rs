use hyperswap::database::secret_repository::SecretRepository;
use hyperswap::error::AppError;
use hyperswap::models::secret::Secret;
use hyperswap::services::file_service::{Download, FileService};
use hyperswap::services::secret_service::SecretService;
use hyperswap::utils::time::Timestamp;

const PAYLOAD: &str =
    r#"{"v":1,"iv":"0123456789abcdef","ct":"c2VjcmV0","tag":"fedcba9876543210"}"#;

fn at(secs: i64) -> Timestamp {
    Timestamp { secs, nanos: 0 }
}

fn file_record(file_path: Option<&str>, mime_type: Option<&str>, is_file: bool) -> Secret {
    Secret {
        id: 1,
        creator_id: None,
        organization_id: None,
        token: "abc".to_string(),
        encrypted_data: PAYLOAD.to_string(),
        encrypted_metadata: None,
        max_views: None,
        current_views: 0,
        expires_at: None,
        burn_after_reading: false,
        is_file,
        file_path: file_path.map(str::to_string),
        file_size: Some(10),
        file_mime_type: mime_type.map(str::to_string),
        created_at: at(0),
        last_accessed_at: None,
    }
}

#[test]
fn a_blob_lies_under_the_token() {
    assert_eq!(FileService::blob_path("abc"), "files/abc");
    assert_eq!(FileService::blob_path(""), "files/");
}

#[test]
fn an_upload_is_planned_under_a_fresh_token() {
    let upload = FileService::plan_upload(PAYLOAD, Some(3)).unwrap();
    assert_eq!(upload.token.len(), 64);
    assert_eq!(upload.file_path, format!("files/{}", upload.token));
    assert_eq!(upload.content_type, "application/octet-stream");
    let again = FileService::plan_upload(PAYLOAD, Some(3)).unwrap();
    assert_ne!(upload.token, again.token);
}

#[test]
fn an_upload_under_a_token_names_its_path() {
    let upload = FileService::upload_under("abc".to_string());
    assert_eq!(upload.token, "abc");
    assert_eq!(upload.file_path, "files/abc");
    assert_eq!(upload.content_type, "application/octet-stream");
}

#[test]
fn a_malformed_file_is_not_uploaded() {
    assert_eq!(
        FileService::plan_upload(r#"{"v":1}"#, None),
        Err(AppError::Validation("Missing 'iv' (initialization vector) field".to_string()))
    );
    // The envelope is looked at before the policy.
    assert_eq!(
        FileService::plan_upload(r#"{"v":1}"#, Some(0)),
        Err(AppError::Validation("Missing 'iv' (initialization vector) field".to_string()))
    );
}

#[test]
fn a_file_record_names_its_blob() {
    let mut store = SecretRepository::new();
    let token = FileService::store_file(
        &mut store,
        Some(7),
        Some(2),
        PAYLOAD,
        Some("meta"),
        1_234,
        "image/png",
        Some(2),
        Some(1),
        false,
        "abc",
        at(100),
    )
    .unwrap();
    assert_eq!(token, "abc");
    let record = store.find_by_token("abc").unwrap().unwrap();
    assert!(record.is_file);
    assert_eq!(record.file_path.as_deref(), Some("files/abc"));
    assert_eq!(record.file_size, Some(1_234));
    assert_eq!(record.file_mime_type.as_deref(), Some("image/png"));
    assert_eq!(record.encrypted_data, PAYLOAD);
    assert_eq!(record.encrypted_metadata.as_deref(), Some("meta"));
    assert_eq!(record.max_views, Some(2));
    assert_eq!(record.expires_at, Some(at(100 + 86_400)));
    assert_eq!(record.creator_id, Some(7));
    assert_eq!(record.organization_id, Some(2));
    assert_eq!(record.current_views, 0);
    let shown = SecretService::get_secret_at(&mut store, "abc", at(200)).unwrap();
    assert!(shown.is_file);
    assert_eq!(shown.file_size, Some(1_234));
}

#[test]
fn a_file_record_fails_as_any_record() {
    let mut store = SecretRepository::new();
    let mut file = |token: &str, max_views, days, now| {
        FileService::store_file(&mut store, None, None, PAYLOAD, None, 1, "a/b", max_views, days, true, token, now)
    };
    assert_eq!(file("abc", None, None, at(1)), Ok("abc".to_string()));
    assert_eq!(file("abc", None, None, at(1)), Err(AppError::Conflict));
    assert_eq!(
        file("abd", Some(0), None, at(1)),
        Err(AppError::Validation("max_views must be positive".to_string()))
    );
    assert_eq!(
        file("abd", None, Some(1), Timestamp { secs: i64::MAX, nanos: 0 }),
        Err(AppError::Validation("expires_in_days is out of range".to_string()))
    );
}

#[test]
fn a_download_fetches_the_blob_of_the_record() {
    let found = file_record(Some("files/abc"), Some("image/png"), true);
    assert_eq!(
        FileService::locate_download(Some(found), at(5)),
        Ok(Download { file_path: "files/abc".to_string(), mime_type: "image/png".to_string() })
    );
}

#[test]
fn a_blob_without_type_is_handed_on_as_bytes() {
    let found = file_record(Some("files/abc"), None, true);
    assert_eq!(
        FileService::locate_download(Some(found), at(5)),
        Ok(Download {
            file_path: "files/abc".to_string(),
            mime_type: "application/octet-stream".to_string()
        })
    );
}

#[test]
fn a_download_needs_a_file_record() {
    assert_eq!(FileService::locate_download(None, at(5)), Err(AppError::NotFound));
    assert_eq!(
        FileService::locate_download(Some(file_record(Some("files/abc"), None, false)), at(5)),
        Err(AppError::Validation("Not a file secret".to_string()))
    );
    assert_eq!(
        FileService::locate_download(Some(file_record(None, Some("a/b"), true)), at(5)),
        Err(AppError::Internal("File path not found".to_string()))
    );
}

#[test]
fn the_blob_of_a_record_goes_with_it() {
    assert_eq!(FileService::locate_blob(None), Err(AppError::NotFound));
    assert_eq!(
        FileService::locate_blob(Some(file_record(Some("files/abc"), None, true))),
        Ok(Some("files/abc".to_string()))
    );
    assert_eq!(FileService::locate_blob(Some(file_record(None, None, false))), Ok(None));
}

#[test]
fn no_upload_is_planned_for_a_policy_that_cannot_be_stored() {
    for max_views in [0, -1, i32::MIN] {
        assert_eq!(
            FileService::plan_upload(PAYLOAD, Some(max_views)),
            Err(AppError::Validation("max_views must be positive".to_string()))
        );
    }
    assert!(FileService::plan_upload(PAYLOAD, Some(1)).is_ok());
    assert!(FileService::plan_upload(PAYLOAD, None).is_ok());
}

#[test]
fn no_blob_is_named_for_an_exhausted_record() {
    let mut spent = file_record(Some("files/abc"), Some("image/png"), true);
    spent.max_views = Some(2);
    spent.current_views = 2;
    assert_eq!(
        FileService::locate_download(Some(spent), at(5)),
        Err(AppError::SecretAlreadyViewed)
    );
    let mut over = file_record(Some("files/abc"), None, true);
    over.max_views = Some(2);
    over.current_views = 3;
    assert_eq!(FileService::locate_download(Some(over), at(5)), Err(AppError::SecretAlreadyViewed));
    let mut burnt = file_record(Some("files/abc"), None, true);
    burnt.burn_after_reading = true;
    burnt.current_views = 1;
    assert_eq!(FileService::locate_download(Some(burnt), at(5)), Err(AppError::SecretAlreadyViewed));
    let mut open = file_record(Some("files/abc"), None, true);
    open.max_views = Some(2);
    open.current_views = 1;
    assert!(FileService::locate_download(Some(open), at(5)).is_ok());
}

#[test]
fn no_blob_is_named_for_an_expired_record() {
    let mut old = file_record(Some("files/abc"), Some("image/png"), true);
    old.expires_at = Some(at(4));
    assert_eq!(FileService::locate_download(Some(old), at(5)), Err(AppError::SecretExpired));
    let mut due = file_record(Some("files/abc"), Some("image/png"), true);
    due.expires_at = Some(at(5));
    assert!(FileService::locate_download(Some(due), at(5)).is_ok());
    // Expiry counts before the quota, and both before the kind of the record.
    let mut both = file_record(None, None, false);
    both.expires_at = Some(at(4));
    both.max_views = Some(1);
    both.current_views = 1;
    assert_eq!(FileService::locate_download(Some(both), at(5)), Err(AppError::SecretExpired));
    let mut spent = file_record(None, None, false);
    spent.max_views = Some(1);
    spent.current_views = 1;
    assert_eq!(FileService::locate_download(Some(spent), at(5)), Err(AppError::SecretAlreadyViewed));
}

fn filed(store: &mut SecretRepository, token: &str, max_views: Option<i32>, days: Option<u32>, burn: bool) {
    FileService::store_file(store, None, None, PAYLOAD, None, 9, "image/png", max_views, days, burn, token, at(100))
        .unwrap();
}

fn png(token: &str) -> Download {
    Download { file_path: format!("files/{}", token), mime_type: "image/png".to_string() }
}

#[test]
fn a_file_is_downloaded_as_often_as_its_quota_allows() {
    let mut store = SecretRepository::new();
    filed(&mut store, "abc", Some(2), None, false);
    assert_eq!(FileService::download_file_at(&mut store, "abc", at(200)), Ok(png("abc")));
    assert_eq!(store.find_by_token("abc").unwrap().unwrap().current_views, 1);
    assert_eq!(store.find_by_token("abc").unwrap().unwrap().last_accessed_at, Some(at(200)));
    assert_eq!(FileService::download_file_at(&mut store, "abc", at(201)), Ok(png("abc")));
    assert_eq!(store.find_by_token("abc"), Ok(None));
    assert_eq!(FileService::download_file_at(&mut store, "abc", at(202)), Err(AppError::NotFound));
}

#[test]
fn a_spent_file_that_still_stands_is_not_downloaded() {
    let mut store = SecretRepository::new();
    filed(&mut store, "abc", Some(1), None, false);
    assert!(SecretService::consume(&mut store, "abc", at(200)).unwrap().remove_record);
    let standing = store.find_by_token("abc").unwrap().unwrap();
    assert_eq!(standing.current_views, 1);
    assert_eq!(
        FileService::download_file_at(&mut store, "abc", at(201)),
        Err(AppError::SecretAlreadyViewed)
    );
    assert_eq!(store.find_by_token("abc"), Ok(Some(standing)));
}

#[test]
fn a_burning_file_is_downloaded_once() {
    let mut store = SecretRepository::new();
    filed(&mut store, "abc", Some(5), None, true);
    assert_eq!(FileService::download_file_at(&mut store, "abc", at(200)), Ok(png("abc")));
    assert_eq!(store.find_by_token("abc"), Ok(None));
    assert_eq!(FileService::download_file_at(&mut store, "abc", at(200)), Err(AppError::NotFound));
}

#[test]
fn an_expired_file_is_refused_and_removed() {
    let mut store = SecretRepository::new();
    filed(&mut store, "abc", None, Some(1), false);
    assert_eq!(
        FileService::download_file_at(&mut store, "abc", at(100 + 86_401)),
        Err(AppError::SecretExpired)
    );
    assert_eq!(store.find_by_token("abc"), Ok(None));
    filed(&mut store, "abd", None, Some(1), false);
    assert_eq!(FileService::download_file(&mut store, "abd"), Err(AppError::SecretExpired));
    assert_eq!(store.find_by_token("abd"), Ok(None));
}

#[test]
fn a_download_of_what_is_no_file_counts_nothing() {
    let mut store = SecretRepository::new();
    store
        .create(None, None, "abc", PAYLOAD, None, Some(3), None, false, false, None, None, None, at(1))
        .unwrap();
    assert_eq!(
        FileService::download_file_at(&mut store, "abc", at(5)),
        Err(AppError::Validation("Not a file secret".to_string()))
    );
    assert_eq!(store.find_by_token("abc").unwrap().unwrap().current_views, 0);
    store
        .create(None, None, "abd", PAYLOAD, None, None, None, false, true, None, None, None, at(1))
        .unwrap();
    assert_eq!(
        FileService::download_file_at(&mut store, "abd", at(5)),
        Err(AppError::Internal("File path not found".to_string()))
    );
    assert_eq!(store.find_by_token("abd").unwrap().unwrap().current_views, 0);
    assert_eq!(FileService::download_file(&mut store, "nothing"), Err(AppError::NotFound));
}

#[test]
fn a_file_without_expiry_is_downloaded_now() {
    let mut store = SecretRepository::new();
    filed(&mut store, "abc", None, None, false);
    assert_eq!(FileService::download_file(&mut store, "abc"), Ok(png("abc")));
    assert_eq!(FileService::download_file(&mut store, "abc"), Ok(png("abc")));
    assert_eq!(store.find_by_token("abc").unwrap().unwrap().current_views, 2);
}
