//! Secrets whose payload lies in the blob store.
//!
//! The blob store is not reached from here. The functions of this file
//! decide what is put there and what is fetched; the caller moves the bytes.

use crate::crypto::json::json_parse;
use crate::crypto::validation::{validate_encrypted_format, verdict};
use crate::database::secret_repository::{
    new_record, policy_defect, SecretRepository, SecretTable,
};
use crate::error::{view_result, AppError, ErrorView};
use crate::models::secret::{ref_text, view_of, Secret, SecretView};
use crate::services::secret_service::{
    access, expiry, retrieval, retrieved, Access, SecretService,
};
use crate::utils::time::{current_time, is_expired_at, Timestamp};
use crate::utils::token::{generate_secret_token, is_token, SECRET_TOKEN_LENGTH};
use vstd::prelude::*;

verus! {

/// The place in the blob store of the payload of the secret under `token`.
pub open spec fn blob_path_of(token: Seq<char>) -> Seq<char> {
    "files/"@ + token
}

/// The content type under which every blob is put: the blob is ciphertext.
pub open spec fn blob_content_type() -> Seq<char> {
    "application/octet-stream"@
}

/// A blob that is to be put in the blob store, and the token of its secret.
#[derive(Debug, PartialEq, Eq)]
pub struct Upload {
    pub token: String,
    pub file_path: String,
    pub content_type: String,
}

/// A blob that is to be fetched from the blob store, and the type under
/// which it is handed on.
#[derive(Debug, PartialEq, Eq)]
pub struct Download {
    pub file_path: String,
    pub mime_type: String,
}

/// A [`Download`] with its texts as sequences of characters.
pub struct DownloadView {
    pub file_path: Seq<char>,
    pub mime_type: Seq<char>,
}

impl View for Download {
    type V = DownloadView;

    open spec fn view(&self) -> DownloadView {
        DownloadView { file_path: self.file_path@, mime_type: self.mime_type@ }
    }
}

/// The blob of a file record, and the type under which it is handed on: its
/// own, or bytes of no named type where it has none. A record that is no
/// file has no blob, and the record of a file must name a path.
pub open spec fn blob_named(record: SecretView) -> Result<DownloadView, ErrorView> {
    if !record.is_file {
        Err(ErrorView::Validation("Not a file secret"@))
    } else {
        match record.file_path {
            None => Err(ErrorView::Internal("File path not found"@)),
            Some(file_path) => Ok(
                DownloadView {
                    file_path,
                    mime_type: match record.file_mime_type {
                        Some(mime_type) => mime_type,
                        None => blob_content_type(),
                    },
                },
            ),
        }
    }
}

/// The blob that a download at `now` may fetch, given what the lookup
/// found. A file secret is read as any secret is: no blob is fetched for a
/// record that is missing, expired or exhausted. Expiry and quota are looked
/// at before the record is asked for its blob.
pub open spec fn download_of(found: Option<SecretView>, now: Timestamp) -> Result<
    DownloadView,
    ErrorView,
> {
    match access(found, now) {
        Access::Missing => Err(ErrorView::NotFound),
        Access::Expired => Err(ErrorView::SecretExpired),
        Access::Exhausted => Err(ErrorView::SecretAlreadyViewed),
        Access::Granted => blob_named(found->0),
    }
}

/// What one download at `now` makes of the record that it finds: the
/// record that it leaves, and the blob that the caller may fetch. A download
/// that is refused counts nothing, and removes the record where it has
/// expired. A download that is granted is one read: it is counted, and the
/// record is removed where this read has spent it.
pub open spec fn downloaded(found: Option<SecretView>, now: Timestamp) -> (
    Option<SecretView>,
    Result<DownloadView, ErrorView>,
) {
    match download_of(found, now) {
        Err(error) => (
            if access(found, now) == Access::Expired {
                None
            } else {
                found
            },
            Err(error),
        ),
        Ok(download) => match retrieved(found, now).1 {
            Ok(_) => (retrieved(found, now).0, Ok(download)),
            Err(error) => (retrieved(found, now).0, Err(error)),
        },
    }
}

/// One download of the file secret under `token` at `now`: the store
/// afterwards, and the blob that the caller may fetch.
pub open spec fn downloading(table: SecretTable, token: Seq<char>, now: Timestamp) -> (
    SecretTable,
    Result<DownloadView, ErrorView>,
) {
    match download_of(table.get(token), now) {
        Err(error) => (
            if access(table.get(token), now) == Access::Expired {
                table.without(token)
            } else {
                table
            },
            Err(error),
        ),
        Ok(download) => match retrieval(table, token, now).1 {
            Ok(_) => (retrieval(table, token, now).0, Ok(download)),
            Err(error) => (retrieval(table, token, now).0, Err(error)),
        },
    }
}

/// The blob to remove along with a secret, given what the lookup found.
pub open spec fn blob_of(found: Option<SecretView>) -> Result<Option<Seq<char>>, ErrorView> {
    match found {
        None => Err(ErrorView::NotFound),
        Some(record) => Ok(record.file_path),
    }
}

/// Storing the record of a file secret under `token` at `now`, once its
/// blob lies in the blob store: the store afterwards, and the token that
/// the caller gets.
pub open spec fn filing(
    table: SecretTable,
    creator_id: Option<u128>,
    organization_id: Option<u128>,
    encrypted_data: Seq<char>,
    encrypted_metadata: Option<Seq<char>>,
    file_size: i64,
    file_mime_type: Seq<char>,
    max_views: Option<i32>,
    expires_in_days: Option<u32>,
    burn_after_reading: bool,
    token: Seq<char>,
    now: Timestamp,
) -> (SecretTable, Result<Seq<char>, ErrorView>) {
    match expiry(expires_in_days, now) {
        Err(error) => (table, Err(error)),
        Ok(expires_at) => {
            let draft = new_record(
                table.next_id,
                creator_id,
                organization_id,
                token,
                encrypted_data,
                encrypted_metadata,
                max_views,
                expires_at,
                burn_after_reading,
                true,
                Some(blob_path_of(token)),
                Some(file_size),
                Some(file_mime_type),
                now,
            );
            match table.insert(draft).1 {
                Ok(record) => (table.insert(draft).0, Ok(record.token)),
                Err(error) => (table.insert(draft).0, Err(error)),
            }
        },
    }
}

/// The result of storing a file record, with the token as a sequence of
/// characters.
pub open spec fn view_token(r: Result<String, AppError>) -> Result<Seq<char>, ErrorView> {
    match r {
        Ok(token) => Ok(token@),
        Err(error) => Err(error@),
    }
}

/// The operations on file secrets.
pub struct FileService;

impl FileService {
    /// The place in the blob store of the payload of the secret under
    /// `token`.
    pub fn blob_path(token: &str) -> (r: String)
        ensures
            r@ == blob_path_of(token@),
    {
        String::from_str("files/").concat(token)
    }

    /// Plans the upload of a file secret under `token`: where its blob goes,
    /// and under which content type.
    pub fn upload_under(token: String) -> (r: Upload)
        ensures
            r.token@ == token@,
            r.file_path@ == blob_path_of(token@),
            r.content_type@ == blob_content_type(),
    {
        let file_path = Self::blob_path(token.as_str());
        Upload { token, file_path, content_type: String::from_str("application/octet-stream") }
    }

    /// Plans the upload of a file secret: checks the shape of its envelope
    /// and its policy, and draws its token. A text that is no envelope fails
    /// with `Validation` and the reason, and so does a `max_views` that is
    /// set and not positive: nothing is put in the blob store for a secret
    /// that cannot be stored. Else the blob goes under the path of a token of
    /// 64 digits.
    pub fn plan_upload(encrypted_data: &str, max_views: Option<i32>) -> (r: Result<
        Upload,
        AppError,
    >)
        ensures
            match verdict(json_parse(encrypted_data@)) {
                Err(reason) => r matches Err(error) && error@ == ErrorView::Validation(reason),
                Ok(_) => match policy_defect(max_views) {
                    Some(defect) => r matches Err(error) && error@ == defect,
                    None => r matches Ok(upload) && is_token(
                        upload.token@,
                        SECRET_TOKEN_LENGTH as nat,
                    ) && upload.file_path@ == blob_path_of(upload.token@) && upload.content_type@
                        == blob_content_type(),
                },
            },
    {
        match validate_encrypted_format(encrypted_data) {
            Err(reason) => Err(AppError::Validation(reason)),
            Ok(_) => match SecretService::check_policy(max_views) {
                Err(error) => Err(error),
                Ok(_) => Ok(Self::upload_under(generate_secret_token())),
            },
        }
    }

    /// Stores the record of a file secret under `token`, made at `now`, once
    /// its blob lies in the blob store, and hands the token back. Fails as
    /// the storing of any secret does; the blob then stays where it is,
    /// without a record.
    pub fn store_file(
        store: &mut SecretRepository,
        creator_id: Option<u128>,
        organization_id: Option<u128>,
        encrypted_data: &str,
        encrypted_metadata: Option<&str>,
        file_size: i64,
        file_mime_type: &str,
        max_views: Option<i32>,
        expires_in_days: Option<u32>,
        burn_after_reading: bool,
        token: &str,
        now: Timestamp,
    ) -> (r: Result<String, AppError>)
        requires
            old(store).wf(),
        ensures
            final(store).wf(),
            (final(store)@, view_token(r)) == filing(
                old(store)@,
                creator_id,
                organization_id,
                encrypted_data@,
                ref_text(encrypted_metadata),
                file_size,
                file_mime_type@,
                max_views,
                expires_in_days,
                burn_after_reading,
                token@,
                now,
            ),
    {
        let expires_at = match expires_in_days {
            None => None,
            Some(days) => match now.plus_days(days) {
                Some(limit) => Some(limit),
                None => {
                    return Err(
                        AppError::Validation(String::from_str("expires_in_days is out of range")),
                    );
                },
            },
        };
        let file_path = Self::blob_path(token);
        let created = store.create(
            creator_id,
            organization_id,
            token,
            encrypted_data,
            encrypted_metadata,
            max_views,
            expires_at,
            burn_after_reading,
            true,
            Some(file_path.as_str()),
            Some(file_size),
            Some(file_mime_type),
            now,
        );
        match created {
            Ok(record) => Ok(record.token),
            Err(error) => Err(error),
        }
    }

    /// Decides which blob a download at `now` may fetch, given what the
    /// lookup found. Fails with `NotFound` where no record was found, with
    /// `SecretExpired` where its expiry has passed, and with
    /// `SecretAlreadyViewed` where its quota is used up; then with
    /// `Validation` where the secret is no file, and with `Internal` where
    /// the record of a file names no path.
    pub fn locate_download(found: Option<Secret>, now: Timestamp) -> (r: Result<
        Download,
        AppError,
    >)
        ensures
            view_result(r) == download_of(view_of(found), now),
    {
        match found {
            None => Err(AppError::NotFound),
            Some(record) => {
                if is_expired_at(record.expires_at, now) {
                    return Err(AppError::SecretExpired);
                }
                if record.is_exhausted() {
                    return Err(AppError::SecretAlreadyViewed);
                }
                if !record.is_file {
                    return Err(AppError::Validation(String::from_str("Not a file secret")));
                }
                match record.file_path {
                    None => Err(AppError::Internal(String::from_str("File path not found"))),
                    Some(file_path) => {
                        let mime_type = match record.file_mime_type {
                            Some(mime_type) => mime_type,
                            None => String::from_str("application/octet-stream"),
                        };
                        Ok(Download { file_path, mime_type })
                    },
                }
            },
        }
    }

    /// Grants or refuses the download of the file secret under `token` at
    /// `now`, and tells which blob the caller may fetch. A download is one
    /// read of the secret: it fails as a read fails, it is counted as a read
    /// is, and it removes the record that it has spent. A download that is
    /// refused counts nothing.
    pub fn download_file_at(store: &mut SecretRepository, token: &str, now: Timestamp) -> (r:
        Result<Download, AppError>)
        requires
            old(store).wf(),
        ensures
            final(store).wf(),
            (final(store)@, view_result(r)) == downloading(old(store)@, token@, now),
            (final(store)@.get(token@), view_result(r)) == downloaded(old(store)@.get(token@), now),
            forall|other: Seq<char>|
                other != token@ ==> #[trigger] final(store)@.get(other) == old(store)@.get(other),
    {
        let found = match store.find_by_token(token) {
            Ok(found) => found,
            Err(error) => {
                return Err(error);
            },
        };
        let expired = match SecretService::inspect(&found, now) {
            Access::Expired => true,
            _ => false,
        };
        match Self::locate_download(found, now) {
            Err(error) => {
                if expired {
                    let _ = store.delete_by_token(token);
                }
                Err(error)
            },
            Ok(download) => match SecretService::get_secret_at(store, token, now) {
                Ok(_) => Ok(download),
                Err(error) => Err(error),
            },
        }
    }

    /// Grants or refuses the download of the file secret under `token` now:
    /// see [`FileService::download_file_at`], which it calls with the
    /// reading of the clock.
    pub fn download_file(store: &mut SecretRepository, token: &str) -> (r: Result<
        Download,
        AppError,
    >)
        requires
            old(store).wf(),
        ensures
            final(store).wf(),
            exists|now: Timestamp| #[trigger]
                now.is_clock_reading() && (final(store)@, view_result(r)) == downloading(
                    old(store)@,
                    token@,
                    now,
                ),
    {
        let now = current_time();
        Self::download_file_at(store, token, now)
    }

    /// Decides which blob is removed along with a secret, given what the
    /// lookup found: the one that the record names, if it names one. Fails
    /// with `NotFound` where no record was found.
    pub fn locate_blob(found: Option<Secret>) -> (r: Result<Option<String>, AppError>)
        ensures
            match blob_of(view_of(found)) {
                Ok(Some(path)) => r matches Ok(Some(file_path)) && file_path@ == path,
                Ok(None) => r matches Ok(None),
                Err(error) => r matches Err(e) && e@ == error,
            },
    {
        match found {
            None => Err(AppError::NotFound),
            Some(record) => Ok(record.file_path),
        }
    }
}

} // verus!
