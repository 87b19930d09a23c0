//! A secret request: an encrypted prompt that is answered exactly once.

use crate::models::secret::{copy_text, text_of};
use crate::utils::time::Timestamp;
use vstd::prelude::*;

verus! {

/// The status of a request that waits for its answer.
pub open spec fn pending() -> Seq<char> {
    "pending"@
}

/// The status of a request that was answered.
pub open spec fn completed() -> Seq<char> {
    "completed"@
}

/// The two statuses differ.
pub proof fn lemma_statuses_differ()
    ensures
        pending() != completed(),
{
    reveal_strlit("pending");
    reveal_strlit("completed");
    assert(pending().len() == 7);
    assert(completed().len() == 9);
}

/// A stored secret request. The requester publishes the prompt; whoever holds
/// the token may answer it, once.
#[derive(Debug, PartialEq, Eq)]
pub struct SecretRequest {
    pub id: u128,
    pub requester_id: u128,
    pub organization_id: Option<u128>,
    pub token: String,
    pub encrypted_prompt: String,
    pub encrypted_data: Option<String>,
    pub max_views: Option<i32>,
    pub current_views: i32,
    pub expires_at: Timestamp,
    pub status: String,
    pub created_at: Timestamp,
    pub completed_at: Option<Timestamp>,
}

/// A [`SecretRequest`] with its texts as sequences of characters.
pub struct SecretRequestView {
    pub id: u128,
    pub requester_id: u128,
    pub organization_id: Option<u128>,
    pub token: Seq<char>,
    pub encrypted_prompt: Seq<char>,
    pub encrypted_data: Option<Seq<char>>,
    pub max_views: Option<i32>,
    pub current_views: i32,
    pub expires_at: Timestamp,
    pub status: Seq<char>,
    pub created_at: Timestamp,
    pub completed_at: Option<Timestamp>,
}

impl View for SecretRequest {
    type V = SecretRequestView;

    open spec fn view(&self) -> SecretRequestView {
        SecretRequestView {
            id: self.id,
            requester_id: self.requester_id,
            organization_id: self.organization_id,
            token: self.token@,
            encrypted_prompt: self.encrypted_prompt@,
            encrypted_data: text_of(self.encrypted_data),
            max_views: self.max_views,
            current_views: self.current_views,
            expires_at: self.expires_at,
            status: self.status@,
            created_at: self.created_at,
            completed_at: self.completed_at,
        }
    }
}

impl SecretRequestView {
    /// The request waits for its answer.
    pub open spec fn is_pending(self) -> bool {
        self.status == pending()
    }

    /// The request was answered.
    pub open spec fn is_completed(self) -> bool {
        self.status == completed()
    }

    /// The expiry has passed at `now`.
    pub open spec fn expired(self, now: Timestamp) -> bool {
        self.expires_at.is_before(now)
    }

    /// What holds of every request in the store: it is pending or completed;
    /// it holds an answer, and the time of the answer, if and only if it is
    /// completed; and it was answered once if completed and never if
    /// pending.
    pub open spec fn wf(self) -> bool {
        &&& self.is_pending() || self.is_completed()
        &&& self.encrypted_data is Some <==> self.is_completed()
        &&& self.completed_at is Some <==> self.is_completed()
        &&& self.current_views == if self.is_completed() {
            1i32
        } else {
            0i32
        }
    }

    /// The request once it is answered with `answer` at `now`.
    pub open spec fn answered(self, answer: Seq<char>, now: Timestamp) -> SecretRequestView {
        SecretRequestView {
            encrypted_data: Some(answer),
            status: completed(),
            completed_at: Some(now),
            current_views: (self.current_views + 1) as i32,
            ..self
        }
    }

    /// What the requester is shown of the request: all of it.
    pub open spec fn response(self) -> SecretRequestResponseView {
        SecretRequestResponseView {
            id: self.id,
            token: self.token,
            encrypted_prompt: Some(self.encrypted_prompt),
            encrypted_data: self.encrypted_data,
            max_views: self.max_views,
            current_views: self.current_views,
            expires_at: self.expires_at,
            status: self.status,
            created_at: self.created_at,
            completed_at: self.completed_at,
        }
    }

    /// What the holder of the token is shown of the request: all of it but
    /// the answer.
    pub open spec fn prompt_response(self) -> SecretRequestResponseView {
        SecretRequestResponseView { encrypted_data: None, ..self.response() }
    }
}

impl Clone for SecretRequest {
    fn clone(&self) -> (r: Self)
        ensures
            r@ == self@,
    {
        SecretRequest {
            id: self.id,
            requester_id: self.requester_id,
            organization_id: self.organization_id,
            token: self.token.clone(),
            encrypted_prompt: self.encrypted_prompt.clone(),
            encrypted_data: copy_text(&self.encrypted_data),
            max_views: self.max_views,
            current_views: self.current_views,
            expires_at: self.expires_at,
            status: self.status.clone(),
            created_at: self.created_at,
            completed_at: self.completed_at,
        }
    }
}

impl SecretRequest {
    /// Tells whether the request waits for its answer.
    pub fn is_pending(&self) -> (r: bool)
        ensures
            r == self@.is_pending(),
    {
        self.status == String::from_str("pending")
    }

    /// Tells whether the request was answered.
    pub fn is_completed(&self) -> (r: bool)
        ensures
            r == self@.is_completed(),
    {
        self.status == String::from_str("completed")
    }
}

/// What a requester sends to have a request stored.
#[derive(Debug, PartialEq, Eq)]
pub struct CreateSecretRequestRequest {
    pub encrypted_prompt: String,
    pub expires_in_days: u32,
    pub organization_id: Option<u128>,
}

/// A [`CreateSecretRequestRequest`] with its text as a sequence of
/// characters.
pub struct CreateSecretRequestRequestView {
    pub encrypted_prompt: Seq<char>,
    pub expires_in_days: u32,
    pub organization_id: Option<u128>,
}

impl View for CreateSecretRequestRequest {
    type V = CreateSecretRequestRequestView;

    open spec fn view(&self) -> CreateSecretRequestRequestView {
        CreateSecretRequestRequestView {
            encrypted_prompt: self.encrypted_prompt@,
            expires_in_days: self.expires_in_days,
            organization_id: self.organization_id,
        }
    }
}

/// The answer to a request, as its sender encrypted it.
#[derive(Debug, PartialEq, Eq)]
pub struct SubmitSecretRequest {
    pub encrypted_data: String,
}

/// What a caller is shown of a request.
#[derive(Debug, PartialEq, Eq)]
pub struct SecretRequestResponse {
    pub id: u128,
    pub token: String,
    pub encrypted_prompt: Option<String>,
    pub encrypted_data: Option<String>,
    pub max_views: Option<i32>,
    pub current_views: i32,
    pub expires_at: Timestamp,
    pub status: String,
    pub created_at: Timestamp,
    pub completed_at: Option<Timestamp>,
}

/// A [`SecretRequestResponse`] with its texts as sequences of characters.
pub struct SecretRequestResponseView {
    pub id: u128,
    pub token: Seq<char>,
    pub encrypted_prompt: Option<Seq<char>>,
    pub encrypted_data: Option<Seq<char>>,
    pub max_views: Option<i32>,
    pub current_views: i32,
    pub expires_at: Timestamp,
    pub status: Seq<char>,
    pub created_at: Timestamp,
    pub completed_at: Option<Timestamp>,
}

impl View for SecretRequestResponse {
    type V = SecretRequestResponseView;

    open spec fn view(&self) -> SecretRequestResponseView {
        SecretRequestResponseView {
            id: self.id,
            token: self.token@,
            encrypted_prompt: text_of(self.encrypted_prompt),
            encrypted_data: text_of(self.encrypted_data),
            max_views: self.max_views,
            current_views: self.current_views,
            expires_at: self.expires_at,
            status: self.status@,
            created_at: self.created_at,
            completed_at: self.completed_at,
        }
    }
}

impl SecretRequestResponse {
    /// What the requester is shown of `request`.
    pub fn from_request(request: SecretRequest) -> (r: SecretRequestResponse)
        ensures
            r@ == request@.response(),
    {
        SecretRequestResponse {
            id: request.id,
            token: request.token,
            encrypted_prompt: Some(request.encrypted_prompt),
            encrypted_data: request.encrypted_data,
            max_views: request.max_views,
            current_views: request.current_views,
            expires_at: request.expires_at,
            status: request.status,
            created_at: request.created_at,
            completed_at: request.completed_at,
        }
    }

    /// What the holder of the token is shown of `request`: the answer is
    /// left out.
    pub fn prompt_of(request: SecretRequest) -> (r: SecretRequestResponse)
        ensures
            r@ == request@.prompt_response(),
    {
        SecretRequestResponse {
            id: request.id,
            token: request.token,
            encrypted_prompt: Some(request.encrypted_prompt),
            encrypted_data: None,
            max_views: request.max_views,
            current_views: request.current_views,
            expires_at: request.expires_at,
            status: request.status,
            created_at: request.created_at,
            completed_at: request.completed_at,
        }
    }
}

} // verus!
