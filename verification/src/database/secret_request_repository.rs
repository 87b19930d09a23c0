//! The store of secret requests, held in memory.

use crate::error::{view_found, view_result, AppError, ErrorView};
use crate::models::secret_request::{
    completed, lemma_statuses_differ, pending, SecretRequest, SecretRequestView,
};
use crate::utils::time::Timestamp;
use vstd::prelude::*;

verus! {

/// What the store of secret requests holds: the requests in the order in
/// which they were stored, and the id that the next request gets.
pub struct RequestTable {
    pub records: Seq<SecretRequestView>,
    pub next_id: u128,
}

/// The request that `create` stores: what the requester gave, the id that
/// the store chose, no answer yet, and `now` as the time of creation.
pub open spec fn new_request(
    id: u128,
    requester_id: u128,
    organization_id: Option<u128>,
    token: Seq<char>,
    encrypted_prompt: Seq<char>,
    expires_at: Timestamp,
    now: Timestamp,
) -> SecretRequestView {
    SecretRequestView {
        id,
        requester_id,
        organization_id,
        token,
        encrypted_prompt,
        encrypted_data: None,
        max_views: Some(1i32),
        current_views: 0,
        expires_at,
        status: pending(),
        created_at: now,
        completed_at: None,
    }
}

/// The requests of one requester, the one stored last first.
pub open spec fn requested_by(records: Seq<SecretRequestView>, requester_id: u128) -> Seq<
    SecretRequestView,
>
    decreases records.len(),
{
    if records.len() == 0 {
        Seq::empty()
    } else if records.last().requester_id == requester_id {
        seq![records.last()] + requested_by(records.drop_last(), requester_id)
    } else {
        requested_by(records.drop_last(), requester_id)
    }
}

impl RequestTable {
    /// A request is stored under `token`.
    pub open spec fn holds(self, token: Seq<char>) -> bool {
        exists|i: int| 0 <= i < self.records.len() && (#[trigger] self.records[i]).token == token
    }

    /// The place of the request stored under `token`.
    pub open spec fn slot(self, token: Seq<char>) -> int {
        choose|i: int| 0 <= i < self.records.len() && (#[trigger] self.records[i]).token == token
    }

    /// The request stored under `token`.
    pub open spec fn get(self, token: Seq<char>) -> Option<SecretRequestView> {
        if self.holds(token) {
            Some(self.records[self.slot(token)])
        } else {
            None
        }
    }

    /// A request with this id is stored.
    pub open spec fn holds_id(self, id: u128) -> bool {
        exists|i: int| 0 <= i < self.records.len() && (#[trigger] self.records[i]).id == id
    }

    /// The place of the request with this id.
    pub open spec fn slot_of_id(self, id: u128) -> int {
        choose|i: int| 0 <= i < self.records.len() && (#[trigger] self.records[i]).id == id
    }

    /// The request with this id.
    pub open spec fn get_by_id(self, id: u128) -> Option<SecretRequestView> {
        if self.holds_id(id) {
            Some(self.records[self.slot_of_id(id)])
        } else {
            None
        }
    }

    /// What holds of the store in every state: each request is well formed,
    /// no two requests share a token or an id, and every id in use lies
    /// below the next one.
    pub open spec fn wf(self) -> bool {
        &&& forall|i: int|
            0 <= i < self.records.len() ==> (#[trigger] self.records[i]).wf() && self.records[i].id
                < self.next_id
        &&& forall|i: int, j: int|
            0 <= i < j < self.records.len() ==> (#[trigger] self.records[i]).token != (
            #[trigger] self.records[j]).token
        &&& forall|i: int, j: int|
            0 <= i < j < self.records.len() ==> (#[trigger] self.records[i]).id != (
            #[trigger] self.records[j]).id
    }

    /// The store without the request of this id.
    pub open spec fn without_id(self, id: u128) -> RequestTable {
        if self.holds_id(id) {
            RequestTable { records: self.records.remove(self.slot_of_id(id)), ..self }
        } else {
            self
        }
    }

    /// The store with `record` in the place of the request under its token.
    pub open spec fn with_record(self, record: SecretRequestView) -> RequestTable {
        if self.holds(record.token) {
            RequestTable { records: self.records.update(self.slot(record.token), record), ..self }
        } else {
            self
        }
    }

    /// Why `record` cannot be stored, if it cannot: a request is stored
    /// under its token already, or no id is left.
    pub open spec fn refusal(self, record: SecretRequestView) -> Option<ErrorView> {
        if self.holds(record.token) {
            Some(ErrorView::Conflict)
        } else if self.next_id == u128::MAX {
            Some(ErrorView::Internal("no id is left"@))
        } else {
            None
        }
    }

    /// Storing `record`: the store afterwards, and what the caller gets.
    pub open spec fn insert(self, record: SecretRequestView) -> (RequestTable, Result<
        SecretRequestView,
        ErrorView,
    >) {
        match self.refusal(record) {
            Some(error) => (self, Err(error)),
            None => (
                RequestTable {
                    records: self.records.push(record),
                    next_id: (self.next_id + 1) as u128,
                },
                Ok(record),
            ),
        }
    }

    /// The answer `answer` to the request under `token`, at `now`, taken if
    /// and only if the request is there and still pending: the store
    /// afterwards, and the request as it then stands. No request, or one
    /// that is not pending, gives `None` and changes nothing.
    pub open spec fn submit(self, token: Seq<char>, answer: Seq<char>, now: Timestamp) -> (
        RequestTable,
        Result<Option<SecretRequestView>, ErrorView>,
    ) {
        match self.get(token) {
            Some(record) => if record.is_pending() {
                (self.with_record(record.answered(answer, now)), Ok(Some(record.answered(answer, now))))
            } else {
                (self, Ok(None))
            },
            None => (self, Ok(None)),
        }
    }
}

/// In a well-formed store the request at place `i` is the one that its
/// token finds, and the one that its id finds.
pub proof fn lemma_request_slot(table: RequestTable, i: int)
    requires
        table.wf(),
        0 <= i < table.records.len(),
    ensures
        table.holds(table.records[i].token),
        table.slot(table.records[i].token) == i,
        table.get(table.records[i].token) == Some(table.records[i]),
        table.holds_id(table.records[i].id),
        table.slot_of_id(table.records[i].id) == i,
        table.get_by_id(table.records[i].id) == Some(table.records[i]),
{
    let token = table.records[i].token;
    assert(table.holds(token));
    let j = table.slot(token);
    assert(0 <= j < table.records.len() && table.records[j].token == token);
    if j < i {
        assert(table.records[j].token != table.records[i].token);
    } else if i < j {
        assert(table.records[i].token != table.records[j].token);
    }
    let id = table.records[i].id;
    assert(table.holds_id(id));
    let k = table.slot_of_id(id);
    assert(0 <= k < table.records.len() && table.records[k].id == id);
    if k < i {
        assert(table.records[k].id != table.records[i].id);
    } else if i < k {
        assert(table.records[i].id != table.records[k].id);
    }
}

/// Storing a request keeps the store well formed, and a request that was
/// stored is found under its token, unchanged.
pub proof fn lemma_request_insert(table: RequestTable, record: SecretRequestView)
    requires
        table.wf(),
        record.wf(),
        record.id == table.next_id,
    ensures
        table.insert(record).0.wf(),
        table.insert(record).1 is Ok ==> table.insert(record).0.get(record.token) == Some(record),
        forall|token: Seq<char>|
            token != record.token ==> table.insert(record).0.get(token) == table.get(token),
{
    let after = table.insert(record).0;
    if table.refusal(record) is None {
        assert(!table.holds(record.token));
        assert forall|i: int, j: int| 0 <= i < j < after.records.len() implies (
        #[trigger] after.records[i]).token != (#[trigger] after.records[j]).token by {
            if j == table.records.len() {
                assert(table.records[i].token != record.token);
            }
        }
        assert(after.wf());
        lemma_request_slot(after, table.records.len() as int);
        assert forall|token: Seq<char>| token != record.token implies after.get(token)
            == table.get(token) by {
            if table.holds(token) {
                let i = table.slot(token);
                lemma_request_slot(table, i);
                assert(after.records[i] == table.records[i]);
                lemma_request_slot(after, i);
            } else {
                if after.holds(token) {
                    let i = after.slot(token);
                    assert(after.records[i].token == token);
                    assert(table.records[i].token == token);
                }
            }
        }
    }
}

/// Putting a well-formed request in the place of the one under its token,
/// with the same id, keeps the store well formed; the request is then found
/// under its token, and every other token finds what it found before.
pub proof fn lemma_request_with_record(table: RequestTable, record: SecretRequestView)
    requires
        table.wf(),
        record.wf(),
        table.get(record.token) matches Some(old_record) && old_record.id == record.id,
    ensures
        table.with_record(record).wf(),
        table.with_record(record).get(record.token) == Some(record),
        forall|token: Seq<char>|
            token != record.token ==> table.with_record(record).get(token) == table.get(token),
{
    let after = table.with_record(record);
    let k = table.slot(record.token);
    lemma_request_slot(table, k);
    assert forall|i: int, j: int| 0 <= i < j < after.records.len() implies (
    #[trigger] after.records[i]).token != (#[trigger] after.records[j]).token by {
        assert(after.records[i].token == table.records[i].token);
        assert(after.records[j].token == table.records[j].token);
    }
    assert forall|i: int, j: int| 0 <= i < j < after.records.len() implies (
    #[trigger] after.records[i]).id != (#[trigger] after.records[j]).id by {
        assert(after.records[i].id == table.records[i].id);
        assert(after.records[j].id == table.records[j].id);
    }
    assert forall|i: int| 0 <= i < after.records.len() implies (#[trigger] after.records[i]).wf()
        && after.records[i].id < after.next_id by {
        if i != k {
            assert(after.records[i] == table.records[i]);
        }
    }
    lemma_request_slot(after, k);
    assert forall|token: Seq<char>| token != record.token implies after.get(token) == table.get(
        token,
    ) by {
        if table.holds(token) {
            let i = table.slot(token);
            lemma_request_slot(table, i);
            assert(after.records[i] == table.records[i]);
            lemma_request_slot(after, i);
        } else {
            if after.holds(token) {
                let i = after.slot(token);
                assert(after.records[i].token == token);
                assert(table.records[i].token == token);
            }
        }
    }
}

/// In every state of the store, a request holds an answer if and only if it
/// is completed, and is pending if it is not completed.
pub proof fn lemma_answer_iff_completed(table: RequestTable, token: Seq<char>)
    requires
        table.wf(),
        table.get(token) is Some,
    ensures
        ({
            let record = table.get(token)->0;
            &&& record.encrypted_data is Some <==> record.is_completed()
            &&& record.completed_at is Some <==> record.is_completed()
            &&& record.is_pending() <==> !record.is_completed()
        }),
{
    lemma_statuses_differ();
    let i = table.slot(token);
    assert(table.records[i].wf());
}

/// Removing the request of an id keeps the store well formed, and the id
/// then finds nothing.
pub proof fn lemma_request_without_id(table: RequestTable, id: u128)
    requires
        table.wf(),
    ensures
        table.without_id(id).wf(),
        table.without_id(id).get_by_id(id) is None,
{
    let after = table.without_id(id);
    if table.holds_id(id) {
        let k = table.slot_of_id(id);
        lemma_request_slot(table, k);
        assert forall|i: int| 0 <= i < after.records.len() implies (#[trigger] after.records[i])
            == table.records[if i < k {
            i
        } else {
            i + 1
        }] by {}
        assert forall|i: int, j: int| 0 <= i < j < after.records.len() implies (
        #[trigger] after.records[i]).token != (#[trigger] after.records[j]).token by {
            let a = if i < k { i } else { i + 1 };
            let b = if j < k { j } else { j + 1 };
            assert(table.records[a].token != table.records[b].token);
        }
        assert forall|i: int, j: int| 0 <= i < j < after.records.len() implies (
        #[trigger] after.records[i]).id != (#[trigger] after.records[j]).id by {
            let a = if i < k { i } else { i + 1 };
            let b = if j < k { j } else { j + 1 };
            assert(table.records[a].id != table.records[b].id);
        }
        assert forall|i: int| 0 <= i < after.records.len() implies (
        #[trigger] after.records[i]).wf() && after.records[i].id < after.next_id by {
            let a = if i < k { i } else { i + 1 };
            assert(table.records[a].wf());
        }
        if after.holds_id(id) {
            let i = after.slot_of_id(id);
            let a = if i < k { i } else { i + 1 };
            assert(after.records[i].id == id);
            assert(table.records[a].id == id);
            lemma_request_slot(table, a);
        }
    }
}

/// The store of secret requests, keyed by token.
pub struct SecretRequestRepository {
    records: Vec<SecretRequest>,
    next_id: u128,
}

impl View for SecretRequestRepository {
    type V = RequestTable;

    closed spec fn view(&self) -> RequestTable {
        RequestTable {
            records: self.records@.map_values(|r: SecretRequest| r@),
            next_id: self.next_id,
        }
    }
}

impl SecretRequestRepository {
    /// The store is well formed: see [`RequestTable::wf`].
    pub open spec fn wf(&self) -> bool {
        self@.wf()
    }

    /// An empty store.
    pub fn new() -> (r: SecretRequestRepository)
        ensures
            r.wf(),
            r@.records.len() == 0,
            r@.next_id == 0,
    {
        SecretRequestRepository { records: Vec::new(), next_id: 0 }
    }

    fn locate(&self, token: &str) -> (r: Option<usize>)
        requires
            self.wf(),
        ensures
            self@.records.len() == self.records.len(),
            match r {
                Some(i) => i < self.records.len() && self@.get(token@) == Some(
                    self.records[i as int]@,
                ) && self@.slot(token@) == i,
                None => !self@.holds(token@),
            },
    {
        let key = String::from_str(token);
        let mut i: usize = 0;
        while i < self.records.len()
            invariant
                self.wf(),
                i <= self.records.len(),
                key@ == token@,
                forall|j: int| 0 <= j < i ==> (#[trigger] self@.records[j]).token != token@,
            decreases self.records.len() - i,
        {
            if self.records[i].token == key {
                proof {
                    lemma_request_slot(self@, i as int);
                }
                return Some(i);
            }
            i += 1;
        }
        None
    }

    fn locate_id(&self, id: u128) -> (r: Option<usize>)
        requires
            self.wf(),
        ensures
            self@.records.len() == self.records.len(),
            match r {
                Some(i) => i < self.records.len() && self@.get_by_id(id) == Some(
                    self.records[i as int]@,
                ) && self@.slot_of_id(id) == i,
                None => !self@.holds_id(id),
            },
    {
        let mut i: usize = 0;
        while i < self.records.len()
            invariant
                self.wf(),
                i <= self.records.len(),
                forall|j: int| 0 <= j < i ==> (#[trigger] self@.records[j]).id != id,
            decreases self.records.len() - i,
        {
            if self.records[i].id == id {
                proof {
                    lemma_request_slot(self@, i as int);
                }
                return Some(i);
            }
            i += 1;
        }
        None
    }

    /// Stores a new request under `token`, pending, with `now` as its time
    /// of creation, and hands the stored request back. Fails with `Conflict`
    /// where a request is stored under `token` already, and with `Internal`
    /// where no id is left; the store is then unchanged.
    pub fn create(
        &mut self,
        requester_id: u128,
        organization_id: Option<u128>,
        token: &str,
        encrypted_prompt: &str,
        expires_at: Timestamp,
        now: Timestamp,
    ) -> (r: Result<SecretRequest, AppError>)
        requires
            old(self).wf(),
        ensures
            final(self).wf(),
            (final(self)@, view_result(r)) == old(self)@.insert(
                new_request(
                    old(self)@.next_id,
                    requester_id,
                    organization_id,
                    token@,
                    encrypted_prompt@,
                    expires_at,
                    now,
                ),
            ),
            r matches Ok(stored) ==> final(self)@.get(token@) == Some(stored@),
            r matches Ok(stored) ==> final(self)@.get_by_id(stored.id) == Some(stored@),
            forall|other: Seq<char>|
                other != token@ ==> #[trigger] final(self)@.get(other) == old(self)@.get(other),
    {
        if self.locate(token).is_some() {
            return Err(AppError::Conflict);
        }
        if self.next_id == u128::MAX {
            return Err(AppError::Internal(String::from_str("no id is left")));
        }
        let record = SecretRequest {
            id: self.next_id,
            requester_id,
            organization_id,
            token: String::from_str(token),
            encrypted_prompt: String::from_str(encrypted_prompt),
            encrypted_data: None,
            max_views: Some(1),
            current_views: 0,
            expires_at,
            status: String::from_str("pending"),
            created_at: now,
            completed_at: None,
        };
        let stored = record.clone();
        self.records.push(record);
        self.next_id = self.next_id + 1;
        proof {
            lemma_statuses_differ();
            assert(self@.records =~= old(self)@.records.push(stored@));
            lemma_request_insert(old(self)@, stored@);
            lemma_request_slot(self@, self@.records.len() - 1);
        }
        Ok(stored)
    }

    /// The request stored under `token`, if there is one. Nothing changes.
    pub fn find_by_token(&self, token: &str) -> (r: Result<Option<SecretRequest>, AppError>)
        requires
            self.wf(),
        ensures
            view_found(r) == Ok::<Option<SecretRequestView>, ErrorView>(self@.get(token@)),
    {
        match self.locate(token) {
            Some(i) => Ok(Some(self.records[i].clone())),
            None => Ok(None),
        }
    }

    /// Takes the answer to the request under `token`, at `now`, in one step,
    /// and hands back the request as it then stands: completed, with the
    /// answer and the time. Where no request is stored under `token`, or the
    /// request is not pending, nothing changes and the result is `None`: of
    /// any number of answers to one request, the store takes one.
    pub fn submit_secret(&mut self, token: &str, encrypted_data: &str, now: Timestamp) -> (r:
        Result<Option<SecretRequest>, AppError>)
        requires
            old(self).wf(),
        ensures
            final(self).wf(),
            (final(self)@, view_found(r)) == old(self)@.submit(token@, encrypted_data@, now),
            r matches Ok(Some(updated)) ==> final(self)@.get(token@) == Some(updated@),
            r matches Ok(Some(updated)) ==> final(self)@.get_by_id(updated.id) == Some(updated@),
            forall|other: Seq<char>|
                other != token@ ==> #[trigger] final(self)@.get(other) == old(self)@.get(other),
    {
        match self.locate(token) {
            None => Ok(None),
            Some(i) => {
                if !self.records[i].is_pending() {
                    return Ok(None);
                }
                proof {
                    lemma_statuses_differ();
                }
                let mut record = self.records[i].clone();
                record.encrypted_data = Some(String::from_str(encrypted_data));
                record.status = String::from_str("completed");
                record.completed_at = Some(now);
                record.current_views = record.current_views + 1;
                let updated = record.clone();
                self.records.set(i, record);
                proof {
                    assert(updated@ == old(self)@.get(token@)->0.answered(encrypted_data@, now));
                    assert(self@.records =~= old(self)@.records.update(i as int, updated@));
                    lemma_request_with_record(old(self)@, updated@);
                    lemma_request_slot(self@, i as int);
                }
                Ok(Some(updated))
            },
        }
    }

    /// The requests of one requester, the one stored last first.
    pub fn find_by_requester(&self, requester_id: u128) -> (r: Result<
        Vec<SecretRequest>,
        AppError,
    >)
        requires
            self.wf(),
        ensures
            r matches Ok(found) && found@.map_values(|r: SecretRequest| r@) == requested_by(
                self@.records,
                requester_id,
            ),
    {
        let mut found: Vec<SecretRequest> = Vec::new();
        let mut i: usize = self.records.len();
        proof {
            assert(self@.records.take(i as int) =~= self@.records);
        }
        while i > 0
            invariant
                i <= self.records.len(),
                self@.records.len() == self.records.len(),
                found@.map_values(|r: SecretRequest| r@) + requested_by(
                    self@.records.take(i as int),
                    requester_id,
                ) == requested_by(self@.records, requester_id),
            decreases i,
        {
            let ghost before = found@.map_values(|r: SecretRequest| r@);
            proof {
                assert(self@.records.take(i as int).drop_last() =~= self@.records.take(i - 1));
                assert(self@.records.take(i as int).last() == self@.records[i - 1]);
            }
            i -= 1;
            if self.records[i].requester_id == requester_id {
                found.push(self.records[i].clone());
                proof {
                    assert(found@.map_values(|r: SecretRequest| r@) =~= before + seq![
                        self@.records[i as int],
                    ]);
                    assert(before + seq![self@.records[i as int]] + requested_by(
                        self@.records.take(i as int),
                        requester_id,
                    ) =~= before + (seq![self@.records[i as int]] + requested_by(
                        self@.records.take(i as int),
                        requester_id,
                    )));
                }
            }
        }
        proof {
            assert(found@.map_values(|r: SecretRequest| r@) + Seq::<SecretRequestView>::empty()
                =~= found@.map_values(|r: SecretRequest| r@));
        }
        Ok(found)
    }

    /// The request with this id, if there is one.
    pub fn find_by_id(&self, id: u128) -> (r: Result<Option<SecretRequest>, AppError>)
        requires
            self.wf(),
        ensures
            view_found(r) == Ok::<Option<SecretRequestView>, ErrorView>(self@.get_by_id(id)),
    {
        match self.locate_id(id) {
            Some(i) => Ok(Some(self.records[i].clone())),
            None => Ok(None),
        }
    }

    /// Removes the request with this id and tells whether there was one.
    pub fn delete_by_id(&mut self, id: u128) -> (r: Result<bool, AppError>)
        requires
            old(self).wf(),
        ensures
            final(self).wf(),
            final(self)@ == old(self)@.without_id(id),
            r matches Ok(removed) && removed == old(self)@.holds_id(id),
            final(self)@.get_by_id(id) is None,
    {
        proof {
            lemma_request_without_id(old(self)@, id);
        }
        match self.locate_id(id) {
            None => Ok(false),
            Some(i) => {
                let _ = self.records.remove(i);
                proof {
                    assert(self@.records =~= old(self)@.records.remove(i as int));
                }
                Ok(true)
            },
        }
    }
}

} // verus!
