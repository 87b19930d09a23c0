//! The exchange of a secret request: a requester publishes an encrypted
//! prompt, and whoever holds the token answers it, once.

use crate::crypto::json::json_parse;
use crate::crypto::validation::{validate_encrypted_format, verdict};
use crate::database::secret_request_repository::{
    new_request, requested_by, RequestTable, SecretRequestRepository,
};
use crate::error::{view_done, view_result, AppError, ErrorView};
use crate::models::secret::view_of;
use crate::models::secret_request::{
    CreateSecretRequestRequest, CreateSecretRequestRequestView, SecretRequest,
    SecretRequestResponse, SecretRequestResponseView, SecretRequestView, SubmitSecretRequest,
};
use crate::utils::time::{current_time, Timestamp};
use crate::utils::token::{generate_secret_token, is_token, SECRET_TOKEN_LENGTH};
use vstd::prelude::*;

verus! {

/// `requester_id` owns `record`: only the owner may see the answer or
/// remove the request.
pub open spec fn owns(requester_id: u128, record: SecretRequestView) -> bool {
    record.requester_id == requester_id
}

/// What the holder of the token is shown at `now`, given what the lookup
/// found: the prompt while the request is pending and not expired, and never
/// the answer. Expiry is looked at before the status.
pub open spec fn prompt_shown(found: Option<SecretRequestView>, now: Timestamp) -> Result<
    SecretRequestResponseView,
    ErrorView,
> {
    match found {
        None => Err(ErrorView::NotFound),
        Some(record) => if record.expired(now) {
            Err(ErrorView::SecretExpired)
        } else if !record.is_pending() {
            Err(ErrorView::SecretAlreadyViewed)
        } else {
            Ok(record.prompt_response())
        },
    }
}

/// What the requester `requester_id` is shown, given what the lookup by id
/// found: all of the request, if it is their own.
pub open spec fn request_shown(found: Option<SecretRequestView>, requester_id: u128) -> Result<
    SecretRequestResponseView,
    ErrorView,
> {
    match found {
        None => Err(ErrorView::NotFound),
        Some(record) => if owns(requester_id, record) {
            Ok(record.response())
        } else {
            Err(ErrorView::Forbidden)
        },
    }
}

/// What the sender of an answer is told, given the request as the store
/// left it: an answer that the store did not take found no pending request.
pub open spec fn answer_taken(updated: Option<SecretRequestView>) -> Result<(), ErrorView> {
    match updated {
        None => Err(ErrorView::NotFound),
        Some(record) => if record.is_completed() {
            Ok(())
        } else {
            Err(ErrorView::Internal("Failed to submit secret"@))
        },
    }
}

/// Storing the request of `request` under `token` at `now`: the store
/// afterwards, and what the requester gets.
pub open spec fn requesting(
    table: RequestTable,
    requester_id: u128,
    request: CreateSecretRequestRequestView,
    token: Seq<char>,
    now: Timestamp,
) -> (RequestTable, Result<SecretRequestResponseView, ErrorView>) {
    match now.later_by_days(request.expires_in_days) {
        None => (table, Err(ErrorView::Validation("expires_in_days is out of range"@))),
        Some(expires_at) => {
            let draft = new_request(
                table.next_id,
                requester_id,
                request.organization_id,
                token,
                request.encrypted_prompt,
                expires_at,
                now,
            );
            match table.insert(draft).1 {
                Ok(record) => (table.insert(draft).0, Ok(record.response())),
                Err(error) => (table.insert(draft).0, Err(error)),
            }
        },
    }
}

/// The answer `answer` to the request under `token` at `now`: the store
/// afterwards, and what the sender is told.
pub open spec fn answering(table: RequestTable, token: Seq<char>, answer: Seq<char>, now: Timestamp)
    -> (RequestTable, Result<(), ErrorView>) {
    match table.submit(token, answer, now).1 {
        Ok(updated) => (table.submit(token, answer, now).0, answer_taken(updated)),
        Err(error) => (table.submit(token, answer, now).0, Err(error)),
    }
}

/// The removal of the request `request_id` by `requester_id`: the store
/// afterwards, and what the requester is told.
pub open spec fn withdrawing(table: RequestTable, requester_id: u128, request_id: u128) -> (
    RequestTable,
    Result<(), ErrorView>,
) {
    match table.get_by_id(request_id) {
        None => (table, Err(ErrorView::NotFound)),
        Some(record) => if owns(requester_id, record) {
            (table.without_id(request_id), Ok(()))
        } else {
            (table, Err(ErrorView::Forbidden))
        },
    }
}

/// What requesters are shown of a list of requests.
pub open spec fn request_responses(records: Seq<SecretRequestView>) -> Seq<
    SecretRequestResponseView,
> {
    records.map_values(|record: SecretRequestView| record.response())
}

/// The operations on secret requests.
pub struct SecretRequestService;

impl SecretRequestService {
    /// Tells whether `requester_id` owns `record`.
    pub fn is_owner(requester_id: u128, record: &SecretRequest) -> (r: bool)
        ensures
            r == owns(requester_id, record@),
    {
        record.requester_id == requester_id
    }

    /// Decides what the holder of the token is shown at `now`, given what
    /// the lookup found.
    pub fn show_prompt(found: Option<SecretRequest>, now: Timestamp) -> (r: Result<
        SecretRequestResponse,
        AppError,
    >)
        ensures
            view_result(r) == prompt_shown(view_of(found), now),
    {
        match found {
            None => Err(AppError::NotFound),
            Some(record) => {
                if record.expires_at.before(&now) {
                    Err(AppError::SecretExpired)
                } else if !record.is_pending() {
                    Err(AppError::SecretAlreadyViewed)
                } else {
                    Ok(SecretRequestResponse::prompt_of(record))
                }
            },
        }
    }

    /// Decides what the requester `requester_id` is shown, given what the
    /// lookup by id found.
    pub fn show_request(found: Option<SecretRequest>, requester_id: u128) -> (r: Result<
        SecretRequestResponse,
        AppError,
    >)
        ensures
            view_result(r) == request_shown(view_of(found), requester_id),
    {
        match found {
            None => Err(AppError::NotFound),
            Some(record) => {
                if Self::is_owner(requester_id, &record) {
                    Ok(SecretRequestResponse::from_request(record))
                } else {
                    Err(AppError::Forbidden)
                }
            },
        }
    }

    /// Decides what the sender of an answer is told, given the request as
    /// the store left it.
    pub fn confirm_answer(updated: Option<SecretRequest>) -> (r: Result<(), AppError>)
        ensures
            view_done(r) == answer_taken(view_of(updated)),
    {
        match updated {
            None => Err(AppError::NotFound),
            Some(record) => {
                if record.is_completed() {
                    Ok(())
                } else {
                    Err(AppError::Internal(String::from_str("Failed to submit secret")))
                }
            },
        }
    }

    /// Stores the request of `request` under `token`, made at `now`, and
    /// shows the requester the stored request. The expiry is `now` plus the
    /// days that the request names. Fails with `Validation` where the days
    /// lead out of range, and with `Conflict` where `token` is in use; the
    /// store is then unchanged.
    pub fn store_request(
        store: &mut SecretRequestRepository,
        requester_id: u128,
        request: CreateSecretRequestRequest,
        token: &str,
        now: Timestamp,
    ) -> (r: Result<SecretRequestResponse, AppError>)
        requires
            old(store).wf(),
        ensures
            final(store).wf(),
            (final(store)@, view_result(r)) == requesting(
                old(store)@,
                requester_id,
                request@,
                token@,
                now,
            ),
            r matches Ok(shown) ==> final(store)@.get(token@) matches Some(record)
                && record.response() == shown@ && record.is_pending(),
            r matches Ok(shown) ==> final(store)@.get_by_id(shown.id) == final(store)@.get(token@),
            forall|other: Seq<char>|
                other != token@ ==> #[trigger] final(store)@.get(other) == old(store)@.get(other),
    {
        let expires_at = match now.plus_days(request.expires_in_days) {
            Some(limit) => limit,
            None => {
                return Err(
                    AppError::Validation(String::from_str("expires_in_days is out of range")),
                );
            },
        };
        let created = store.create(
            requester_id,
            request.organization_id,
            token,
            request.encrypted_prompt.as_str(),
            expires_at,
            now,
        );
        match created {
            Ok(record) => Ok(SecretRequestResponse::from_request(record)),
            Err(error) => Err(error),
        }
    }

    /// Takes a request into the store: checks the shape of the envelope of
    /// its prompt, draws a token, and stores it as of now. A prompt that is
    /// no envelope fails with `Validation` and the reason, and nothing is
    /// stored. Else the outcome is that of
    /// [`SecretRequestService::store_request`] for the token drawn, of 64
    /// digits, and the reading of the clock.
    pub fn create_request(
        store: &mut SecretRequestRepository,
        requester_id: u128,
        request: CreateSecretRequestRequest,
    ) -> (r: Result<SecretRequestResponse, AppError>)
        requires
            old(store).wf(),
        ensures
            final(store).wf(),
            match verdict(json_parse(request@.encrypted_prompt)) {
                Err(reason) => final(store)@ == old(store)@ && view_result(r) == Err::<
                    SecretRequestResponseView,
                    ErrorView,
                >(ErrorView::Validation(reason)),
                Ok(_) => exists|token: Seq<char>, now: Timestamp|
                    is_token(token, SECRET_TOKEN_LENGTH as nat) && now.is_clock_reading() && (
                        final(store)@,
                        view_result(r),
                    ) == #[trigger] requesting(old(store)@, requester_id, request@, token, now),
            },
    {
        match validate_encrypted_format(request.encrypted_prompt.as_str()) {
            Err(reason) => Err(AppError::Validation(reason)),
            Ok(_) => {
                let token = generate_secret_token();
                let now = current_time();
                Self::store_request(store, requester_id, request, token.as_str(), now)
            },
        }
    }

    /// Shows the prompt of the request under `token` at `now`. Fails with
    /// `NotFound` where no request is stored, with `SecretExpired` where its
    /// expiry has passed, and with `SecretAlreadyViewed` where it was
    /// answered already. The answer is never shown.
    pub fn get_request_for_client_at(
        store: &SecretRequestRepository,
        token: &str,
        now: Timestamp,
    ) -> (r: Result<SecretRequestResponse, AppError>)
        requires
            store.wf(),
        ensures
            view_result(r) == prompt_shown(store@.get(token@), now),
    {
        match store.find_by_token(token) {
            Ok(found) => Self::show_prompt(found, now),
            Err(error) => Err(error),
        }
    }

    /// Shows the prompt of the request under `token` now: see
    /// [`SecretRequestService::get_request_for_client_at`], which it calls
    /// with the reading of the clock.
    pub fn get_request_for_client(store: &SecretRequestRepository, token: &str) -> (r: Result<
        SecretRequestResponse,
        AppError,
    >)
        requires
            store.wf(),
        ensures
            exists|now: Timestamp| #[trigger]
                now.is_clock_reading() && view_result(r) == prompt_shown(store@.get(token@), now),
    {
        let now = current_time();
        Self::get_request_for_client_at(store, token, now)
    }

    /// Hands the answer `answer` to the request under `token`, at `now`.
    /// The store takes it if and only if the request is there and pending;
    /// else the call fails with `NotFound` and nothing changes.
    pub fn submit_answer(
        store: &mut SecretRequestRepository,
        token: &str,
        answer: &str,
        now: Timestamp,
    ) -> (r: Result<(), AppError>)
        requires
            old(store).wf(),
        ensures
            final(store).wf(),
            (final(store)@, view_done(r)) == answering(old(store)@, token@, answer@, now),
            r is Ok ==> final(store)@.get(token@) == Some(
                old(store)@.get(token@)->0.answered(answer@, now),
            ),
            r is Ok ==> final(store)@.get(token@) == final(store)@.get_by_id(
                old(store)@.get(token@)->0.id,
            ),
            r is Ok <==> (old(store)@.get(token@) matches Some(record) && record.is_pending()),
            forall|other: Seq<char>|
                other != token@ ==> #[trigger] final(store)@.get(other) == old(store)@.get(other),
    {
        proof {
            crate::models::secret_request::lemma_statuses_differ();
        }
        match store.submit_secret(token, answer, now) {
            Ok(updated) => Self::confirm_answer(updated),
            Err(error) => Err(error),
        }
    }

    /// Answers the request under `token`: checks the shape of the envelope
    /// of the answer, then hands it to the store as of now. An answer that
    /// is no envelope fails with `Validation` and the reason, and nothing
    /// changes. Else the outcome is that of
    /// [`SecretRequestService::submit_answer`] for the reading of the clock.
    pub fn submit_secret(
        store: &mut SecretRequestRepository,
        token: &str,
        submit: SubmitSecretRequest,
    ) -> (r: Result<(), AppError>)
        requires
            old(store).wf(),
        ensures
            final(store).wf(),
            match verdict(json_parse(submit.encrypted_data@)) {
                Err(reason) => final(store)@ == old(store)@ && view_done(r) == Err::<
                    (),
                    ErrorView,
                >(ErrorView::Validation(reason)),
                Ok(_) => exists|now: Timestamp| #[trigger]
                    now.is_clock_reading() && (final(store)@, view_done(r)) == answering(
                        old(store)@,
                        token@,
                        submit.encrypted_data@,
                        now,
                    ),
            },
    {
        match validate_encrypted_format(submit.encrypted_data.as_str()) {
            Err(reason) => Err(AppError::Validation(reason)),
            Ok(_) => {
                let now = current_time();
                Self::submit_answer(store, token, submit.encrypted_data.as_str(), now)
            },
        }
    }

    /// Shows the requester their request, whatever its status. Fails with
    /// `NotFound` where no request has this id, and with `Forbidden` where
    /// the request is not their own.
    pub fn get_request_for_requester(
        store: &SecretRequestRepository,
        requester_id: u128,
        request_id: u128,
    ) -> (r: Result<SecretRequestResponse, AppError>)
        requires
            store.wf(),
        ensures
            view_result(r) == request_shown(store@.get_by_id(request_id), requester_id),
    {
        match store.find_by_id(request_id) {
            Ok(found) => Self::show_request(found, requester_id),
            Err(error) => Err(error),
        }
    }

    /// What a requester is shown of their requests, the one stored last
    /// first.
    pub fn list_user_requests(store: &SecretRequestRepository, requester_id: u128) -> (r: Result<
        Vec<SecretRequestResponse>,
        AppError,
    >)
        requires
            store.wf(),
        ensures
            r matches Ok(list) && list@.map_values(|shown: SecretRequestResponse| shown@)
                == request_responses(requested_by(store@.records, requester_id)),
    {
        let found = match store.find_by_requester(requester_id) {
            Ok(found) => found,
            Err(error) => {
                return Err(error);
            },
        };
        let mut list: Vec<SecretRequestResponse> = Vec::new();
        let mut i: usize = 0;
        while i < found.len()
            invariant
                i <= found.len(),
                list@.len() == i,
                forall|j: int| 0 <= j < i ==> (#[trigger] list@[j])@ == found@[j]@.response(),
            decreases found.len() - i,
        {
            list.push(SecretRequestResponse::from_request(found[i].clone()));
            i += 1;
        }
        proof {
            assert(list@.map_values(|shown: SecretRequestResponse| shown@) =~= request_responses(
                found@.map_values(|r: SecretRequest| r@),
            ));
        }
        Ok(list)
    }

    /// Removes the request `request_id` for its owner, whatever its status.
    /// Fails with `NotFound` where no request has this id, and with
    /// `Forbidden` where the request is not the requester's own; the store
    /// is then unchanged.
    pub fn delete_request(
        store: &mut SecretRequestRepository,
        requester_id: u128,
        request_id: u128,
    ) -> (r: Result<(), AppError>)
        requires
            old(store).wf(),
        ensures
            final(store).wf(),
            (final(store)@, view_done(r)) == withdrawing(old(store)@, requester_id, request_id),
    {
        let found = match store.find_by_id(request_id) {
            Ok(found) => found,
            Err(error) => {
                return Err(error);
            },
        };
        match found {
            None => Err(AppError::NotFound),
            Some(record) => {
                if !Self::is_owner(requester_id, &record) {
                    return Err(AppError::Forbidden);
                }
                match store.delete_by_id(request_id) {
                    Ok(removed) => {
                        if removed {
                            Ok(())
                        } else {
                            Err(AppError::NotFound)
                        }
                    },
                    Err(error) => Err(error),
                }
            },
        }
    }
}

} // verus!
