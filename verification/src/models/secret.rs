//! A secret: one encrypted payload and the policy by which it is consumed.

use crate::utils::time::{expired_at, Timestamp};
use vstd::prelude::*;

verus! {

/// The text of an optional string.
pub open spec fn text_of(text: Option<String>) -> Option<Seq<char>> {
    match text {
        Some(s) => Some(s@),
        None => None,
    }
}

/// Copies an optional string.
pub fn copy_text(text: &Option<String>) -> (r: Option<String>)
    ensures
        text_of(r) == text_of(*text),
{
    match text {
        Some(s) => Some(s.clone()),
        None => None,
    }
}

/// An optional value as its view.
pub open spec fn view_of<T: View>(value: Option<T>) -> Option<T::V> {
    match value {
        Some(v) => Some(v@),
        None => None,
    }
}

/// The text of an optional string slice.
pub open spec fn ref_text(text: Option<&str>) -> Option<Seq<char>> {
    match text {
        Some(s) => Some(s@),
        None => None,
    }
}

/// Borrows the text of an optional string.
pub fn as_text(text: &Option<String>) -> (r: Option<&str>)
    ensures
        ref_text(r) == text_of(*text),
{
    match text {
        Some(s) => Some(s.as_str()),
        None => None,
    }
}

/// Makes an owned copy of an optional string slice.
pub fn own_text(text: Option<&str>) -> (r: Option<String>)
    ensures
        text_of(r) == ref_text(text),
{
    match text {
        Some(s) => Some(String::from_str(s)),
        None => None,
    }
}

/// A stored secret. The server never reads `encrypted_data`: it stores it
/// and hands it out as the policy allows.
#[derive(Debug, PartialEq, Eq)]
pub struct Secret {
    pub id: u128,
    pub creator_id: Option<u128>,
    pub organization_id: Option<u128>,
    pub token: String,
    pub encrypted_data: String,
    pub encrypted_metadata: Option<String>,
    pub max_views: Option<i32>,
    pub current_views: i32,
    pub expires_at: Option<Timestamp>,
    pub burn_after_reading: bool,
    pub is_file: bool,
    pub file_path: Option<String>,
    pub file_size: Option<i64>,
    pub file_mime_type: Option<String>,
    pub created_at: Timestamp,
    pub last_accessed_at: Option<Timestamp>,
}

/// A [`Secret`] with its texts as sequences of characters.
pub struct SecretView {
    pub id: u128,
    pub creator_id: Option<u128>,
    pub organization_id: Option<u128>,
    pub token: Seq<char>,
    pub encrypted_data: Seq<char>,
    pub encrypted_metadata: Option<Seq<char>>,
    pub max_views: Option<i32>,
    pub current_views: i32,
    pub expires_at: Option<Timestamp>,
    pub burn_after_reading: bool,
    pub is_file: bool,
    pub file_path: Option<Seq<char>>,
    pub file_size: Option<i64>,
    pub file_mime_type: Option<Seq<char>>,
    pub created_at: Timestamp,
    pub last_accessed_at: Option<Timestamp>,
}

impl View for Secret {
    type V = SecretView;

    open spec fn view(&self) -> SecretView {
        SecretView {
            id: self.id,
            creator_id: self.creator_id,
            organization_id: self.organization_id,
            token: self.token@,
            encrypted_data: self.encrypted_data@,
            encrypted_metadata: text_of(self.encrypted_metadata),
            max_views: self.max_views,
            current_views: self.current_views,
            expires_at: self.expires_at,
            burn_after_reading: self.burn_after_reading,
            is_file: self.is_file,
            file_path: text_of(self.file_path),
            file_size: self.file_size,
            file_mime_type: text_of(self.file_mime_type),
            created_at: self.created_at,
            last_accessed_at: self.last_accessed_at,
        }
    }
}

impl SecretView {
    /// How often the secret may be read in all: once where it burns after
    /// reading, whatever `max_views` says; else `max_views`, where `None`
    /// sets no limit.
    pub open spec fn quota(self) -> Option<i32> {
        if self.burn_after_reading {
            Some(1i32)
        } else {
            self.max_views
        }
    }

    /// The quota is used up.
    pub open spec fn exhausted(self) -> bool {
        self.quota() matches Some(limit) && self.current_views >= limit
    }

    /// The expiry has passed at `now`.
    pub open spec fn expired(self, now: Timestamp) -> bool {
        expired_at(self.expires_at, now)
    }

    /// The record is to be removed once it has been handed out: it burns
    /// after reading, or its counter has reached `max_views`.
    pub open spec fn spent(self) -> bool {
        self.burn_after_reading || self.max_views == Some(self.current_views)
    }

    /// What holds of every record in the store: the counter is not negative
    /// and not beyond the quota, and a `max_views` that is set is positive.
    pub open spec fn wf(self) -> bool {
        &&& 0 <= self.current_views
        &&& self.max_views matches Some(limit) ==> 1 <= limit
        &&& self.quota() matches Some(limit) ==> self.current_views <= limit
    }

    /// The record after one more read at `now`.
    pub open spec fn viewed(self, now: Timestamp) -> SecretView {
        SecretView {
            current_views: (self.current_views + 1) as i32,
            last_accessed_at: Some(now),
            ..self
        }
    }

    /// What a caller is shown of the record.
    pub open spec fn response(self) -> SecretResponseView {
        SecretResponseView {
            id: self.id,
            token: self.token,
            encrypted_data: self.encrypted_data,
            encrypted_metadata: self.encrypted_metadata,
            max_views: self.max_views,
            current_views: self.current_views,
            expires_at: self.expires_at,
            burn_after_reading: self.burn_after_reading,
            is_file: self.is_file,
            file_size: self.file_size,
            file_mime_type: self.file_mime_type,
            created_at: self.created_at,
        }
    }
}

impl Clone for Secret {
    fn clone(&self) -> (r: Self)
        ensures
            r@ == self@,
    {
        Secret {
            id: self.id,
            creator_id: self.creator_id,
            organization_id: self.organization_id,
            token: self.token.clone(),
            encrypted_data: self.encrypted_data.clone(),
            encrypted_metadata: copy_text(&self.encrypted_metadata),
            max_views: self.max_views,
            current_views: self.current_views,
            expires_at: self.expires_at,
            burn_after_reading: self.burn_after_reading,
            is_file: self.is_file,
            file_path: copy_text(&self.file_path),
            file_size: self.file_size,
            file_mime_type: copy_text(&self.file_mime_type),
            created_at: self.created_at,
            last_accessed_at: self.last_accessed_at,
        }
    }
}

impl Secret {
    /// Tells whether the quota is used up.
    pub fn is_exhausted(&self) -> (r: bool)
        ensures
            r == self@.exhausted(),
    {
        if self.burn_after_reading {
            self.current_views >= 1
        } else {
            match self.max_views {
                Some(limit) => self.current_views >= limit,
                None => false,
            }
        }
    }

    /// Tells whether the record is to be removed once it has been handed
    /// out.
    pub fn is_spent(&self) -> (r: bool)
        ensures
            r == self@.spent(),
    {
        if self.burn_after_reading {
            true
        } else {
            match self.max_views {
                Some(limit) => self.current_views == limit,
                None => false,
            }
        }
    }
}

/// What a caller sends to have a secret stored.
#[derive(Debug, PartialEq, Eq)]
pub struct CreateSecretRequest {
    pub encrypted_data: String,
    pub encrypted_metadata: Option<String>,
    pub max_views: Option<i32>,
    pub expires_in_days: Option<u32>,
    pub burn_after_reading: bool,
    pub organization_id: Option<u128>,
}

/// A [`CreateSecretRequest`] with its texts as sequences of characters.
pub struct CreateSecretRequestView {
    pub encrypted_data: Seq<char>,
    pub encrypted_metadata: Option<Seq<char>>,
    pub max_views: Option<i32>,
    pub expires_in_days: Option<u32>,
    pub burn_after_reading: bool,
    pub organization_id: Option<u128>,
}

impl View for CreateSecretRequest {
    type V = CreateSecretRequestView;

    open spec fn view(&self) -> CreateSecretRequestView {
        CreateSecretRequestView {
            encrypted_data: self.encrypted_data@,
            encrypted_metadata: text_of(self.encrypted_metadata),
            max_views: self.max_views,
            expires_in_days: self.expires_in_days,
            burn_after_reading: self.burn_after_reading,
            organization_id: self.organization_id,
        }
    }
}

/// What a caller is shown of a secret: the record without the owner and
/// without the place of its blob.
#[derive(Debug, PartialEq, Eq)]
pub struct SecretResponse {
    pub id: u128,
    pub token: String,
    pub encrypted_data: String,
    pub encrypted_metadata: Option<String>,
    pub max_views: Option<i32>,
    pub current_views: i32,
    pub expires_at: Option<Timestamp>,
    pub burn_after_reading: bool,
    pub is_file: bool,
    pub file_size: Option<i64>,
    pub file_mime_type: Option<String>,
    pub created_at: Timestamp,
}

/// A [`SecretResponse`] with its texts as sequences of characters.
pub struct SecretResponseView {
    pub id: u128,
    pub token: Seq<char>,
    pub encrypted_data: Seq<char>,
    pub encrypted_metadata: Option<Seq<char>>,
    pub max_views: Option<i32>,
    pub current_views: i32,
    pub expires_at: Option<Timestamp>,
    pub burn_after_reading: bool,
    pub is_file: bool,
    pub file_size: Option<i64>,
    pub file_mime_type: Option<Seq<char>>,
    pub created_at: Timestamp,
}

impl View for SecretResponse {
    type V = SecretResponseView;

    open spec fn view(&self) -> SecretResponseView {
        SecretResponseView {
            id: self.id,
            token: self.token@,
            encrypted_data: self.encrypted_data@,
            encrypted_metadata: text_of(self.encrypted_metadata),
            max_views: self.max_views,
            current_views: self.current_views,
            expires_at: self.expires_at,
            burn_after_reading: self.burn_after_reading,
            is_file: self.is_file,
            file_size: self.file_size,
            file_mime_type: text_of(self.file_mime_type),
            created_at: self.created_at,
        }
    }
}

impl SecretResponse {
    /// What a caller is shown of `secret`.
    pub fn from_secret(secret: Secret) -> (r: SecretResponse)
        ensures
            r@ == secret@.response(),
    {
        SecretResponse {
            id: secret.id,
            token: secret.token,
            encrypted_data: secret.encrypted_data,
            encrypted_metadata: secret.encrypted_metadata,
            max_views: secret.max_views,
            current_views: secret.current_views,
            expires_at: secret.expires_at,
            burn_after_reading: secret.burn_after_reading,
            is_file: secret.is_file,
            file_size: secret.file_size,
            file_mime_type: secret.file_mime_type,
            created_at: secret.created_at,
        }
    }
}

} // verus!
