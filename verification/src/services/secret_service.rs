//! The life of a secret: it is created, read as often as its policy allows,
//! and removed.

use crate::crypto::json::json_parse;
use crate::crypto::validation::{validate_encrypted_format, verdict};
use crate::database::secret_repository::{
    created_by, new_record, policy_defect, SecretRepository, SecretTable,
};
use crate::error::{view_done, view_result, AppError, ErrorView};
use crate::models::secret::{
    as_text, view_of, CreateSecretRequest, CreateSecretRequestView, Secret, SecretResponse,
    SecretResponseView, SecretView,
};
use crate::utils::time::{current_time, is_expired_at, Timestamp};
use crate::utils::token::{generate_secret_token, is_token, SECRET_TOKEN_LENGTH};
use vstd::prelude::*;

verus! {

/// What the lookup of a record decides of a read, before anything is
/// counted.
#[derive(Clone, Copy, Debug, PartialEq, Eq, Structural)]
pub enum Access {
    /// No record is stored under the token.
    Missing,
    /// The expiry of the record has passed: the record is to be removed.
    Expired,
    /// The quota of the record is used up.
    Exhausted,
    /// The read may be counted.
    Granted,
}

/// Whether a read at `now` may go on, given what the lookup found. Expiry
/// is looked at before the quota.
pub open spec fn access(found: Option<SecretView>, now: Timestamp) -> Access {
    match found {
        None => Access::Missing,
        Some(record) => if record.expired(now) {
            Access::Expired
        } else if record.exhausted() {
            Access::Exhausted
        } else {
            Access::Granted
        },
    }
}

/// A secret on its way to the caller, and what is to be done with its
/// record.
#[derive(Debug, PartialEq, Eq)]
pub struct Delivery {
    pub response: SecretResponse,
    /// The record is to be removed now that it has been handed out.
    pub remove_record: bool,
}

/// A [`Delivery`] with its texts as sequences of characters.
pub struct DeliveryView {
    pub response: SecretResponseView,
    pub remove_record: bool,
}

impl View for Delivery {
    type V = DeliveryView;

    open spec fn view(&self) -> DeliveryView {
        DeliveryView { response: self.response@, remove_record: self.remove_record }
    }
}

/// What comes of a read once the store has counted it: the record as it
/// stands after the count goes to the caller, and is to be removed where it
/// is spent. A store that counted nothing has no record for the caller.
pub open spec fn conclusion(counted: Option<SecretView>) -> Result<DeliveryView, ErrorView> {
    match counted {
        Some(record) => Ok(
            DeliveryView { response: record.response(), remove_record: record.spent() },
        ),
        None => Err(ErrorView::NotFound),
    }
}

/// What one read at `now`, up to the count, makes of the record that it
/// finds: the record that it leaves, and what the caller gets. An expired
/// record is removed; a record that is handed out stays, counted; a record
/// whose quota is used up stays as it is.
pub open spec fn consumed(found: Option<SecretView>, now: Timestamp) -> (
    Option<SecretView>,
    Result<DeliveryView, ErrorView>,
) {
    match access(found, now) {
        Access::Missing => (None, Err(ErrorView::NotFound)),
        Access::Expired => (None, Err(ErrorView::SecretExpired)),
        Access::Exhausted => (found, Err(ErrorView::SecretAlreadyViewed)),
        Access::Granted => if found->0.current_views == i32::MAX {
            (found, Err(ErrorView::Database("integer out of range"@)))
        } else {
            (Some(found->0.viewed(now)), conclusion(Some(found->0.viewed(now))))
        },
    }
}

/// What one read at `now` makes of the record that it finds, with the
/// removal of a spent record: the record that it leaves, and what the caller
/// gets.
pub open spec fn retrieved(found: Option<SecretView>, now: Timestamp) -> (
    Option<SecretView>,
    Result<SecretResponseView, ErrorView>,
) {
    match consumed(found, now).1 {
        Ok(delivery) => (
            if delivery.remove_record {
                None
            } else {
                consumed(found, now).0
            },
            Ok(delivery.response),
        ),
        Err(error) => (consumed(found, now).0, Err(error)),
    }
}

/// One read of the secret under `token` at `now`, up to the count: the
/// store afterwards, and what the caller gets. An expired record is removed;
/// a record that is handed out stays, counted.
pub open spec fn consumption(table: SecretTable, token: Seq<char>, now: Timestamp) -> (
    SecretTable,
    Result<DeliveryView, ErrorView>,
) {
    match access(table.get(token), now) {
        Access::Missing => (table, Err(ErrorView::NotFound)),
        Access::Expired => (table.without(token), Err(ErrorView::SecretExpired)),
        Access::Exhausted => (table, Err(ErrorView::SecretAlreadyViewed)),
        Access::Granted => match table.increment(token, now).1 {
            Ok(counted) => (table.increment(token, now).0, conclusion(counted)),
            Err(error) => (table.increment(token, now).0, Err(error)),
        },
    }
}

/// One read of the secret under `token` at `now`, with the removal of a
/// spent record: the store afterwards, and what the caller gets.
pub open spec fn retrieval(table: SecretTable, token: Seq<char>, now: Timestamp) -> (
    SecretTable,
    Result<SecretResponseView, ErrorView>,
) {
    match consumption(table, token, now).1 {
        Ok(delivery) => (
            if delivery.remove_record {
                consumption(table, token, now).0.without(token)
            } else {
                consumption(table, token, now).0
            },
            Ok(delivery.response),
        ),
        Err(error) => (consumption(table, token, now).0, Err(error)),
    }
}

/// The caller may remove `record`: no owner was named, or the owner named
/// is the creator of the record.
pub open spec fn may_remove(owner_id: Option<u128>, record: SecretView) -> bool {
    owner_id matches Some(owner) ==> record.creator_id == Some(owner)
}

/// The removal of the secret under `token` by its owner: the store
/// afterwards, and what the caller gets.
pub open spec fn removal(table: SecretTable, token: Seq<char>, owner_id: Option<u128>) -> (
    SecretTable,
    Result<(), ErrorView>,
) {
    match table.get(token) {
        None => (table, Err(ErrorView::NotFound)),
        Some(record) => if may_remove(owner_id, record) {
            (table.without(token), Ok(()))
        } else {
            (table, Err(ErrorView::Forbidden))
        },
    }
}

/// The expiry of a record made at `now` that is to live for this many days:
/// none where no number of days is given. A number of days that leads
/// beyond what an instant can hold is refused.
pub open spec fn expiry(expires_in_days: Option<u32>, now: Timestamp) -> Result<
    Option<Timestamp>,
    ErrorView,
> {
    match expires_in_days {
        None => Ok(None),
        Some(days) => match now.later_by_days(days) {
            Some(limit) => Ok(Some(limit)),
            None => Err(ErrorView::Validation("expires_in_days is out of range"@)),
        },
    }
}

/// The record that stands for `request` in the store: an inline secret
/// under `token`, made at `now`.
pub open spec fn drafted(
    table: SecretTable,
    creator_id: Option<u128>,
    request: CreateSecretRequestView,
    token: Seq<char>,
    expires_at: Option<Timestamp>,
    now: Timestamp,
) -> SecretView {
    new_record(
        table.next_id,
        creator_id,
        request.organization_id,
        token,
        request.encrypted_data,
        request.encrypted_metadata,
        request.max_views,
        expires_at,
        request.burn_after_reading,
        false,
        None,
        None,
        None,
        now,
    )
}

/// Storing the secret of `request` under `token` at `now`: the store
/// afterwards, and what the caller gets.
pub open spec fn storing(
    table: SecretTable,
    creator_id: Option<u128>,
    request: CreateSecretRequestView,
    token: Seq<char>,
    now: Timestamp,
) -> (SecretTable, Result<SecretResponseView, ErrorView>) {
    match expiry(request.expires_in_days, now) {
        Err(error) => (table, Err(error)),
        Ok(expires_at) => {
            let draft = drafted(table, creator_id, request, token, expires_at, now);
            match table.insert(draft).1 {
                Ok(record) => (table.insert(draft).0, Ok(record.response())),
                Err(error) => (table.insert(draft).0, Err(error)),
            }
        },
    }
}

/// What callers are shown of a list of records.
pub open spec fn responses(records: Seq<SecretView>) -> Seq<SecretResponseView> {
    records.map_values(|record: SecretView| record.response())
}

/// The operations on secrets.
pub struct SecretService;

impl SecretService {
    /// Decides whether a quota can be the policy of a secret: fails with
    /// `Validation` where `max_views` is set and not positive.
    pub fn check_policy(max_views: Option<i32>) -> (r: Result<(), AppError>)
        ensures
            match policy_defect(max_views) {
                Some(error) => r matches Err(e) && e@ == error,
                None => r is Ok,
            },
    {
        match max_views {
            Some(limit) => {
                if limit < 1 {
                    Err(AppError::Validation(String::from_str("max_views must be positive")))
                } else {
                    Ok(())
                }
            },
            None => Ok(()),
        }
    }

    /// Tells whether the caller may remove `record`: no owner was named, or
    /// the owner named is the creator of the record.
    pub fn may_delete(owner_id: Option<u128>, record: &Secret) -> (r: bool)
        ensures
            r == may_remove(owner_id, record@),
    {
        match owner_id {
            None => true,
            Some(owner) => match record.creator_id {
                Some(creator) => creator == owner,
                None => false,
            },
        }
    }

    /// Stores the secret of `request` under `token`, made at `now`, and
    /// shows the caller the stored record. The expiry is `now` plus the days
    /// that the request names. Fails with `Validation` where the days lead
    /// out of range or `max_views` is not positive, and with `Conflict`
    /// where `token` is in use; the store is then unchanged.
    pub fn store_secret(
        store: &mut SecretRepository,
        creator_id: Option<u128>,
        request: CreateSecretRequest,
        token: &str,
        now: Timestamp,
    ) -> (r: Result<SecretResponse, AppError>)
        requires
            old(store).wf(),
        ensures
            final(store).wf(),
            (final(store)@, view_result(r)) == storing(
                old(store)@,
                creator_id,
                request@,
                token@,
                now,
            ),
            r matches Ok(shown) ==> final(store)@.get(token@) matches Some(record)
                && record.response() == shown@ && record.current_views == 0,
            forall|other: Seq<char>|
                other != token@ ==> #[trigger] final(store)@.get(other) == old(store)@.get(other),
    {
        let expires_at = match request.expires_in_days {
            None => None,
            Some(days) => match now.plus_days(days) {
                Some(limit) => Some(limit),
                None => {
                    return Err(
                        AppError::Validation(String::from_str("expires_in_days is out of range")),
                    );
                },
            },
        };
        let created = store.create(
            creator_id,
            request.organization_id,
            token,
            request.encrypted_data.as_str(),
            as_text(&request.encrypted_metadata),
            request.max_views,
            expires_at,
            request.burn_after_reading,
            false,
            None,
            None,
            None,
            now,
        );
        match created {
            Ok(record) => Ok(SecretResponse::from_secret(record)),
            Err(error) => Err(error),
        }
    }

    /// Takes a secret into the store: checks the shape of its envelope,
    /// draws a token, and stores it as of now. A text that is no envelope
    /// fails with `Validation` and the reason, and nothing is stored. Else
    /// the outcome is that of [`SecretService::store_secret`] for the token
    /// drawn, of 64 digits, and the reading of the clock.
    pub fn create_secret(
        store: &mut SecretRepository,
        creator_id: Option<u128>,
        request: CreateSecretRequest,
    ) -> (r: Result<SecretResponse, AppError>)
        requires
            old(store).wf(),
        ensures
            final(store).wf(),
            match verdict(json_parse(request@.encrypted_data)) {
                Err(reason) => final(store)@ == old(store)@ && view_result(r) == Err::<
                    SecretResponseView,
                    ErrorView,
                >(ErrorView::Validation(reason)),
                Ok(_) => exists|token: Seq<char>, now: Timestamp|
                    is_token(token, SECRET_TOKEN_LENGTH as nat) && now.is_clock_reading() && (
                        final(store)@,
                        view_result(r),
                    ) == #[trigger] storing(old(store)@, creator_id, request@, token, now),
            },
    {
        match validate_encrypted_format(request.encrypted_data.as_str()) {
            Err(reason) => Err(AppError::Validation(reason)),
            Ok(_) => {
                let token = generate_secret_token();
                let now = current_time();
                Self::store_secret(store, creator_id, request, token.as_str(), now)
            },
        }
    }

    /// What callers are shown of the secrets of one creator, the one stored
    /// last first.
    pub fn list_user_secrets(store: &SecretRepository, creator_id: u128) -> (r: Result<
        Vec<SecretResponse>,
        AppError,
    >)
        requires
            store.wf(),
        ensures
            r matches Ok(list) && list@.map_values(|shown: SecretResponse| shown@) == responses(
                created_by(store@.records, creator_id),
            ),
    {
        let found = match store.find_by_creator(creator_id) {
            Ok(found) => found,
            Err(error) => {
                return Err(error);
            },
        };
        let mut list: Vec<SecretResponse> = Vec::new();
        let mut i: usize = 0;
        while i < found.len()
            invariant
                i <= found.len(),
                list@.len() == i,
                forall|j: int| 0 <= j < i ==> (#[trigger] list@[j])@ == found@[j]@.response(),
            decreases found.len() - i,
        {
            list.push(SecretResponse::from_secret(found[i].clone()));
            i += 1;
        }
        proof {
            assert(list@.map_values(|shown: SecretResponse| shown@) =~= responses(
                found@.map_values(|s: Secret| s@),
            ));
        }
        Ok(list)
    }

    /// Decides what a read at `now` meets, given what the lookup found.
    pub fn inspect(found: &Option<Secret>, now: Timestamp) -> (g: Access)
        ensures
            g == access(view_of(*found), now),
    {
        match found {
            None => Access::Missing,
            Some(record) => {
                if is_expired_at(record.expires_at, now) {
                    Access::Expired
                } else if record.is_exhausted() {
                    Access::Exhausted
                } else {
                    Access::Granted
                }
            },
        }
    }

    /// Decides what comes of a read, given the record as the store counted
    /// it.
    pub fn conclude(counted: Option<Secret>) -> (r: Result<Delivery, AppError>)
        ensures
            view_result(r) == conclusion(view_of(counted)),
    {
        match counted {
            Some(record) => {
                let remove_record = record.is_spent();
                Ok(Delivery { response: SecretResponse::from_secret(record), remove_record })
            },
            None => Err(AppError::NotFound),
        }
    }

    /// Reads the secret under `token` at `now` and leaves its record in the
    /// store, counted. Fails with `NotFound` where no record is stored, with
    /// `SecretExpired` where the expiry has passed, in which case the record
    /// is removed, and with `SecretAlreadyViewed` where the quota is used
    /// up. The result says whether the record is spent.
    pub fn consume(store: &mut SecretRepository, token: &str, now: Timestamp) -> (r: Result<
        Delivery,
        AppError,
    >)
        requires
            old(store).wf(),
        ensures
            final(store).wf(),
            (final(store)@, view_result(r)) == consumption(old(store)@, token@, now),
            (final(store)@.get(token@), view_result(r)) == consumed(old(store)@.get(token@), now),
            forall|other: Seq<char>|
                other != token@ ==> #[trigger] final(store)@.get(other) == old(store)@.get(other),
    {
        let found = match store.find_by_token(token) {
            Ok(found) => found,
            Err(error) => {
                return Err(error);
            },
        };
        match Self::inspect(&found, now) {
            Access::Missing => Err(AppError::NotFound),
            Access::Expired => {
                let _ = store.delete_by_token(token);
                Err(AppError::SecretExpired)
            },
            Access::Exhausted => Err(AppError::SecretAlreadyViewed),
            Access::Granted => match store.increment_views(token, now) {
                Ok(counted) => Self::conclude(counted),
                Err(error) => Err(error),
            },
        }
    }

    /// Reads the secret under `token` at `now`, and removes its record
    /// where this read has spent it. Fails as [`SecretService::consume`]
    /// does.
    pub fn get_secret_at(store: &mut SecretRepository, token: &str, now: Timestamp) -> (r: Result<
        SecretResponse,
        AppError,
    >)
        requires
            old(store).wf(),
        ensures
            final(store).wf(),
            (final(store)@, view_result(r)) == retrieval(old(store)@, token@, now),
            (final(store)@.get(token@), view_result(r)) == retrieved(old(store)@.get(token@), now),
            forall|other: Seq<char>|
                other != token@ ==> #[trigger] final(store)@.get(other) == old(store)@.get(other),
    {
        match Self::consume(store, token, now) {
            Ok(delivery) => {
                if delivery.remove_record {
                    let _ = store.delete_by_token(token);
                }
                Ok(delivery.response)
            },
            Err(error) => Err(error),
        }
    }

    /// Reads the secret under `token` now: see
    /// [`SecretService::get_secret_at`], which it calls with the reading of
    /// the clock.
    pub fn get_secret(store: &mut SecretRepository, token: &str) -> (r: Result<
        SecretResponse,
        AppError,
    >)
        requires
            old(store).wf(),
        ensures
            final(store).wf(),
            exists|now: Timestamp| #[trigger]
                now.is_clock_reading() && (final(store)@, view_result(r)) == retrieval(
                    old(store)@,
                    token@,
                    now,
                ),
    {
        let now = current_time();
        Self::get_secret_at(store, token, now)
    }

    /// Removes the secret under `token`. Where an owner is named, only the
    /// creator of the secret may do so. Fails with `NotFound` where no
    /// record is stored under `token`, and with `Forbidden` where the owner
    /// named is not the creator; the store is then unchanged.
    pub fn delete_secret(store: &mut SecretRepository, token: &str, owner_id: Option<u128>) -> (r:
        Result<(), AppError>)
        requires
            old(store).wf(),
        ensures
            final(store).wf(),
            (final(store)@, view_done(r)) == removal(old(store)@, token@, owner_id),
            r is Ok ==> final(store)@.get(token@) is None,
            forall|other: Seq<char>|
                other != token@ ==> #[trigger] final(store)@.get(other) == old(store)@.get(other),
    {
        let found = match store.find_by_token(token) {
            Ok(found) => found,
            Err(error) => {
                return Err(error);
            },
        };
        match found {
            None => Err(AppError::NotFound),
            Some(record) => {
                if !Self::may_delete(owner_id, &record) {
                    return Err(AppError::Forbidden);
                }
                let _ = store.delete_by_token(token);
                Ok(())
            },
        }
    }
}

} // verus!
