use hyperswap::database::secret_request_repository::SecretRequestRepository;
use hyperswap::error::AppError;
use hyperswap::models::secret_request::{
    CreateSecretRequestRequest, SecretRequest, SecretRequestResponse, SubmitSecretRequest,
};
use hyperswap::services::secret_request_service::SecretRequestService;
use hyperswap::utils::time::Timestamp;

const PROMPT: &str =
    r#"{"v":1,"iv":"0123456789abcdef","ct":"cHJvbXB0","tag":"fedcba9876543210"}"#;
const ANSWER: &str =
    r#"{"v":1,"iv":"fedcba9876543210","ct":"YW5zd2Vy","tag":"0123456789abcdef"}"#;
const OTHER_ANSWER: &str =
    r#"{"v":1,"iv":"fedcba9876543210","ct":"b3RoZXI=","tag":"0123456789abcdef"}"#;

fn at(secs: i64) -> Timestamp {
    Timestamp { secs, nanos: 0 }
}

fn request(expires_in_days: u32) -> CreateSecretRequestRequest {
    CreateSecretRequestRequest {
        encrypted_prompt: PROMPT.to_string(),
        expires_in_days,
        organization_id: None,
    }
}

fn stored(store: &mut SecretRequestRepository, requester: u128, token: &str) -> SecretRequestResponse {
    SecretRequestService::store_request(store, requester, request(1), token, at(1_000)).unwrap()
}

fn answer(text: &str) -> SubmitSecretRequest {
    SubmitSecretRequest { encrypted_data: text.to_string() }
}

#[test]
fn a_request_is_answered_once() {
    let mut store = SecretRequestRepository::new();
    let created = SecretRequestService::create_request(&mut store, 7, request(1)).unwrap();
    assert_eq!(created.status, "pending");
    assert_eq!(created.encrypted_prompt.as_deref(), Some(PROMPT));
    assert_eq!(created.encrypted_data, None);
    assert_eq!(created.completed_at, None);
    assert_eq!(created.token.len(), 64);
    assert_eq!(created.expires_at.secs, created.created_at.secs + 86_400);
    assert_eq!(SecretRequestService::submit_secret(&mut store, &created.token, answer(ANSWER)), Ok(()));
    let shown = SecretRequestService::get_request_for_requester(&store, 7, created.id).unwrap();
    assert_eq!(shown.status, "completed");
    assert_eq!(shown.encrypted_data.as_deref(), Some(ANSWER));
    assert!(shown.completed_at.is_some());
    assert_eq!(
        SecretRequestService::submit_secret(&mut store, &created.token, answer(OTHER_ANSWER)),
        Err(AppError::NotFound)
    );
    let shown = SecretRequestService::get_request_for_requester(&store, 7, created.id).unwrap();
    assert_eq!(shown.encrypted_data.as_deref(), Some(ANSWER));
}

#[test]
fn of_many_answers_the_first_wins() {
    let mut store = SecretRequestRepository::new();
    let created = stored(&mut store, 7, "abc");
    let mut taken = 0;
    let mut refused = 0;
    for attempt in 0..10 {
        let text = format!(
            r#"{{"v":1,"iv":"fedcba9876543210","ct":"answer {}","tag":"0123456789abcdef"}}"#,
            attempt
        );
        match SecretRequestService::submit_answer(&mut store, "abc", &text, at(2_000 + attempt)) {
            Ok(()) => taken += 1,
            Err(error) => {
                assert_eq!(error, AppError::NotFound);
                refused += 1;
            }
        }
    }
    assert_eq!(taken, 1);
    assert_eq!(refused, 9);
    let shown = SecretRequestService::get_request_for_requester(&store, 7, created.id).unwrap();
    assert_eq!(
        shown.encrypted_data.as_deref(),
        Some(r#"{"v":1,"iv":"fedcba9876543210","ct":"answer 0","tag":"0123456789abcdef"}"#)
    );
    assert_eq!(shown.completed_at, Some(at(2_000)));
    assert_eq!(shown.current_views, 1);
}

#[test]
fn a_new_request_is_pending() {
    let mut store = SecretRequestRepository::new();
    let made = store.create(7, Some(3), "abc", "prompt", at(500), at(100)).unwrap();
    let expected = SecretRequest {
        id: 0,
        requester_id: 7,
        organization_id: Some(3),
        token: "abc".to_string(),
        encrypted_prompt: "prompt".to_string(),
        encrypted_data: None,
        max_views: Some(1),
        current_views: 0,
        expires_at: at(500),
        status: "pending".to_string(),
        created_at: at(100),
        completed_at: None,
    };
    assert_eq!(made, expected);
    assert!(made.is_pending());
    assert!(!made.is_completed());
    assert_eq!(store.find_by_token("abc"), Ok(Some(expected.clone())));
    assert_eq!(store.find_by_id(0), Ok(Some(expected)));
}

#[test]
fn an_answer_completes_the_request() {
    let mut store = SecretRequestRepository::new();
    store.create(7, None, "abc", "prompt", at(500), at(100)).unwrap();
    let updated = store.submit_secret("abc", "answer", at(200)).unwrap().unwrap();
    assert_eq!(updated.status, "completed");
    assert!(updated.is_completed());
    assert!(!updated.is_pending());
    assert_eq!(updated.encrypted_data.as_deref(), Some("answer"));
    assert_eq!(updated.completed_at, Some(at(200)));
    assert_eq!(updated.current_views, 1);
    assert_eq!(updated.encrypted_prompt, "prompt");
    assert_eq!(store.find_by_token("abc"), Ok(Some(updated.clone())));
    assert_eq!(store.submit_secret("abc", "again", at(300)), Ok(None));
    assert_eq!(store.find_by_token("abc"), Ok(Some(updated)));
    assert_eq!(store.submit_secret("abd", "answer", at(300)), Ok(None));
}

#[test]
fn an_answer_is_taken_after_the_expiry() {
    let mut store = SecretRequestRepository::new();
    stored(&mut store, 7, "abc");
    assert_eq!(
        SecretRequestService::submit_answer(&mut store, "abc", ANSWER, at(1_000 + 10 * 86_400)),
        Ok(())
    );
}

#[test]
fn a_malformed_answer_changes_nothing() {
    let mut store = SecretRequestRepository::new();
    let created = stored(&mut store, 7, "abc");
    assert_eq!(
        SecretRequestService::submit_secret(&mut store, "abc", answer("{}")),
        Err(AppError::Validation("Missing 'v' (version) field".to_string()))
    );
    let shown = SecretRequestService::get_request_for_requester(&store, 7, created.id).unwrap();
    assert_eq!(shown.status, "pending");
    assert_eq!(shown.encrypted_data, None);
    assert_eq!(SecretRequestService::submit_secret(&mut store, "abc", answer(ANSWER)), Ok(()));
}

#[test]
fn a_malformed_prompt_is_not_stored() {
    let mut store = SecretRequestRepository::new();
    let bad = CreateSecretRequestRequest {
        encrypted_prompt: "prompt".to_string(),
        expires_in_days: 1,
        organization_id: None,
    };
    match SecretRequestService::create_request(&mut store, 7, bad) {
        Err(AppError::Validation(reason)) => assert!(reason.starts_with("Invalid JSON format: ")),
        other => panic!("{:?}", other),
    }
    assert_eq!(SecretRequestService::list_user_requests(&store, 7), Ok(vec![]));
}

#[test]
fn the_holder_of_the_token_sees_the_prompt() {
    let mut store = SecretRequestRepository::new();
    let created = stored(&mut store, 7, "abc");
    let shown = SecretRequestService::get_request_for_client_at(&store, "abc", at(1_500)).unwrap();
    assert_eq!(shown.encrypted_prompt.as_deref(), Some(PROMPT));
    assert_eq!(shown.encrypted_data, None);
    assert_eq!(shown.status, "pending");
    assert_eq!(shown.id, created.id);
    assert_eq!(shown, created);
    assert!(SecretRequestService::get_request_for_client(&store, "abc").is_err());
}

#[test]
fn a_fresh_request_is_shown_now() {
    let mut store = SecretRequestRepository::new();
    let created = SecretRequestService::create_request(&mut store, 7, request(1)).unwrap();
    let shown = SecretRequestService::get_request_for_client(&store, &created.token).unwrap();
    assert_eq!(shown.encrypted_prompt.as_deref(), Some(PROMPT));
    assert_eq!(shown.encrypted_data, None);
}

#[test]
fn an_expired_request_shows_no_prompt() {
    let mut store = SecretRequestRepository::new();
    stored(&mut store, 7, "abc");
    assert!(SecretRequestService::get_request_for_client_at(&store, "abc", at(1_000 + 86_400)).is_ok());
    assert_eq!(
        SecretRequestService::get_request_for_client_at(&store, "abc", at(1_000 + 86_401)),
        Err(AppError::SecretExpired)
    );
    assert_eq!(
        SecretRequestService::get_request_for_client(&store, "abc"),
        Err(AppError::SecretExpired)
    );
}

#[test]
fn an_answered_request_shows_no_prompt() {
    let mut store = SecretRequestRepository::new();
    stored(&mut store, 7, "abc");
    SecretRequestService::submit_answer(&mut store, "abc", ANSWER, at(1_100)).unwrap();
    assert_eq!(
        SecretRequestService::get_request_for_client_at(&store, "abc", at(1_200)),
        Err(AppError::SecretAlreadyViewed)
    );
    // Expiry is looked at first.
    assert_eq!(
        SecretRequestService::get_request_for_client_at(&store, "abc", at(1_000 + 86_401)),
        Err(AppError::SecretExpired)
    );
}

#[test]
fn an_unknown_request_is_not_found() {
    let mut store = SecretRequestRepository::new();
    assert_eq!(
        SecretRequestService::get_request_for_client_at(&store, "abc", at(1)),
        Err(AppError::NotFound)
    );
    assert_eq!(SecretRequestService::get_request_for_requester(&store, 7, 0), Err(AppError::NotFound));
    assert_eq!(SecretRequestService::delete_request(&mut store, 7, 0), Err(AppError::NotFound));
    assert_eq!(
        SecretRequestService::submit_secret(&mut store, "abc", answer(ANSWER)),
        Err(AppError::NotFound)
    );
}

#[test]
fn a_status_that_is_not_pending_counts_as_answered() {
    let odd = SecretRequest {
        id: 1,
        requester_id: 7,
        organization_id: None,
        token: "abc".to_string(),
        encrypted_prompt: PROMPT.to_string(),
        encrypted_data: None,
        max_views: None,
        current_views: 0,
        expires_at: at(100),
        status: "Pending".to_string(),
        created_at: at(0),
        completed_at: None,
    };
    assert_eq!(
        SecretRequestService::show_prompt(Some(odd.clone()), at(50)),
        Err(AppError::SecretAlreadyViewed)
    );
    assert_eq!(
        SecretRequestService::confirm_answer(Some(odd)),
        Err(AppError::Internal("Failed to submit secret".to_string()))
    );
    assert_eq!(SecretRequestService::confirm_answer(None), Err(AppError::NotFound));
    assert_eq!(SecretRequestService::show_prompt(None, at(50)), Err(AppError::NotFound));
}

#[test]
fn only_the_requester_sees_the_request() {
    let mut store = SecretRequestRepository::new();
    let created = stored(&mut store, 7, "abc");
    assert_eq!(
        SecretRequestService::get_request_for_requester(&store, 8, created.id),
        Err(AppError::Forbidden)
    );
    assert_eq!(SecretRequestService::get_request_for_requester(&store, 7, created.id), Ok(created));
    let found = store.find_by_token("abc").unwrap().unwrap();
    assert!(SecretRequestService::is_owner(7, &found));
    assert!(!SecretRequestService::is_owner(8, &found));
    assert_eq!(SecretRequestService::show_request(Some(found), 8), Err(AppError::Forbidden));
    assert_eq!(SecretRequestService::show_request(None, 7), Err(AppError::NotFound));
}

#[test]
fn only_the_requester_removes_the_request() {
    let mut store = SecretRequestRepository::new();
    let created = stored(&mut store, 7, "abc");
    assert_eq!(SecretRequestService::delete_request(&mut store, 8, created.id), Err(AppError::Forbidden));
    assert!(store.find_by_id(created.id).unwrap().is_some());
    assert_eq!(SecretRequestService::delete_request(&mut store, 7, created.id), Ok(()));
    assert_eq!(store.find_by_id(created.id), Ok(None));
    assert_eq!(store.find_by_token("abc"), Ok(None));
    assert_eq!(SecretRequestService::delete_request(&mut store, 7, created.id), Err(AppError::NotFound));
}

#[test]
fn an_answered_request_is_removed_too() {
    let mut store = SecretRequestRepository::new();
    let created = stored(&mut store, 7, "abc");
    SecretRequestService::submit_answer(&mut store, "abc", ANSWER, at(1_100)).unwrap();
    assert_eq!(SecretRequestService::delete_request(&mut store, 7, created.id), Ok(()));
    assert_eq!(store.delete_by_id(created.id), Ok(false));
}

#[test]
fn requests_are_listed_newest_first() {
    let mut store = SecretRequestRepository::new();
    stored(&mut store, 7, "a");
    stored(&mut store, 8, "b");
    stored(&mut store, 7, "c");
    SecretRequestService::submit_answer(&mut store, "a", ANSWER, at(1_100)).unwrap();
    let listed = SecretRequestService::list_user_requests(&store, 7).unwrap();
    let tokens: Vec<&str> = listed.iter().map(|shown| shown.token.as_str()).collect();
    assert_eq!(tokens, vec!["c", "a"]);
    assert_eq!(listed[1].encrypted_data.as_deref(), Some(ANSWER));
    assert_eq!(listed[0].encrypted_data, None);
    let tokens: Vec<String> =
        store.find_by_requester(8).unwrap().into_iter().map(|request| request.token).collect();
    assert_eq!(tokens, vec!["b".to_string()]);
    assert_eq!(SecretRequestService::list_user_requests(&store, 9), Ok(vec![]));
}

#[test]
fn a_request_token_is_used_once() {
    let mut store = SecretRequestRepository::new();
    stored(&mut store, 7, "abc");
    assert_eq!(
        SecretRequestService::store_request(&mut store, 8, request(1), "abc", at(1)),
        Err(AppError::Conflict)
    );
    assert_eq!(store.find_by_token("abc").unwrap().unwrap().requester_id, 7);
}

#[test]
fn a_request_expiry_out_of_range_is_refused() {
    let mut store = SecretRequestRepository::new();
    let late = Timestamp { secs: i64::MAX, nanos: 0 };
    assert_eq!(
        SecretRequestService::store_request(&mut store, 7, request(1), "abc", late),
        Err(AppError::Validation("expires_in_days is out of range".to_string()))
    );
    assert!(SecretRequestService::store_request(&mut store, 7, request(0), "abc", late).is_ok());
}

#[test]
fn the_prompt_response_leaves_out_the_answer() {
    let mut store = SecretRequestRepository::new();
    store.create(7, None, "abc", "prompt", at(500), at(100)).unwrap();
    let answered = store.submit_secret("abc", "answer", at(200)).unwrap().unwrap();
    let whole = SecretRequestResponse::from_request(answered.clone());
    let prompt = SecretRequestResponse::prompt_of(answered);
    assert_eq!(whole.encrypted_data.as_deref(), Some("answer"));
    assert_eq!(prompt.encrypted_data, None);
    assert_eq!(SecretRequestResponse { encrypted_data: None, ..whole }, prompt);
}

#[test]
fn a_copy_of_a_request_equals_it() {
    let mut store = SecretRequestRepository::new();
    let made = store.create(7, None, "abc", "prompt", at(500), at(100)).unwrap();
    assert_eq!(made.clone(), made);
}
