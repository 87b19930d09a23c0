//! The store of secrets, held in memory.

use crate::error::{view_found, view_result, AppError, ErrorView};
use crate::models::secret::{own_text, ref_text, Secret, SecretView};
use crate::utils::time::Timestamp;
use vstd::prelude::*;

verus! {

/// What the store of secrets holds: the records in the order in which they
/// were stored, and the id that the next record gets.
pub struct SecretTable {
    pub records: Seq<SecretView>,
    pub next_id: u128,
}

impl SecretTable {
    /// A record is stored under `token`.
    pub open spec fn holds(self, token: Seq<char>) -> bool {
        exists|i: int| 0 <= i < self.records.len() && (#[trigger] self.records[i]).token == token
    }

    /// The place of the record stored under `token`.
    pub open spec fn slot(self, token: Seq<char>) -> int {
        choose|i: int| 0 <= i < self.records.len() && (#[trigger] self.records[i]).token == token
    }

    /// The record stored under `token`.
    pub open spec fn get(self, token: Seq<char>) -> Option<SecretView> {
        if self.holds(token) {
            Some(self.records[self.slot(token)])
        } else {
            None
        }
    }

    /// What holds of the store in every state: each record is well formed,
    /// no two records share a token or an id, and every id in use lies below
    /// the next one.
    pub open spec fn wf(self) -> bool {
        &&& forall|i: int|
            0 <= i < self.records.len() ==> (#[trigger] self.records[i]).wf() && self.records[i].id
                < self.next_id
        &&& forall|i: int, j: int|
            0 <= i < j < self.records.len() ==> (#[trigger] self.records[i]).token != (
            #[trigger] self.records[j]).token
        &&& forall|i: int, j: int|
            0 <= i < j < self.records.len() ==> (#[trigger] self.records[i]).id != (
            #[trigger] self.records[j]).id
    }

    /// The store without the record under `token`.
    pub open spec fn without(self, token: Seq<char>) -> SecretTable {
        if self.holds(token) {
            SecretTable { records: self.records.remove(self.slot(token)), ..self }
        } else {
            self
        }
    }

    /// The store with `record` in the place of the record under its token.
    pub open spec fn with_record(self, record: SecretView) -> SecretTable {
        if self.holds(record.token) {
            SecretTable { records: self.records.update(self.slot(record.token), record), ..self }
        } else {
            self
        }
    }
}

/// In a well-formed store the record at place `i` is the one that its token
/// finds.
pub proof fn lemma_slot(table: SecretTable, i: int)
    requires
        table.wf(),
        0 <= i < table.records.len(),
    ensures
        table.holds(table.records[i].token),
        table.slot(table.records[i].token) == i,
        table.get(table.records[i].token) == Some(table.records[i]),
{
    let token = table.records[i].token;
    assert(table.holds(token));
    let j = table.slot(token);
    assert(0 <= j < table.records.len() && table.records[j].token == token);
    if j != i {
        if j < i {
            assert(table.records[j].token != table.records[i].token);
        } else {
            assert(table.records[i].token != table.records[j].token);
        }
    }
}

/// The record that `create` stores: what the caller gave, the id that the
/// store chose, a counter of zero, and `now` as the time of creation.
pub open spec fn new_record(
    id: u128,
    creator_id: Option<u128>,
    organization_id: Option<u128>,
    token: Seq<char>,
    encrypted_data: Seq<char>,
    encrypted_metadata: Option<Seq<char>>,
    max_views: Option<i32>,
    expires_at: Option<Timestamp>,
    burn_after_reading: bool,
    is_file: bool,
    file_path: Option<Seq<char>>,
    file_size: Option<i64>,
    file_mime_type: Option<Seq<char>>,
    now: Timestamp,
) -> SecretView {
    SecretView {
        id,
        creator_id,
        organization_id,
        token,
        encrypted_data,
        encrypted_metadata,
        max_views,
        current_views: 0,
        expires_at,
        burn_after_reading,
        is_file,
        file_path,
        file_size,
        file_mime_type,
        created_at: now,
        last_accessed_at: None,
    }
}

/// Why a quota cannot be the policy of a secret, if it cannot: a `max_views`
/// that is set is positive.
pub open spec fn policy_defect(max_views: Option<i32>) -> Option<ErrorView> {
    if max_views matches Some(limit) && limit < 1 {
        Some(ErrorView::Validation("max_views must be positive"@))
    } else {
        None
    }
}

impl SecretTable {
    /// Why `record` cannot be stored, if it cannot: its `max_views` is set
    /// and not positive, a record is stored under its token already, or no
    /// id is left.
    pub open spec fn refusal(self, record: SecretView) -> Option<ErrorView> {
        if policy_defect(record.max_views) is Some {
            policy_defect(record.max_views)
        } else if self.holds(record.token) {
            Some(ErrorView::Conflict)
        } else if self.next_id == u128::MAX {
            Some(ErrorView::Internal("no id is left"@))
        } else {
            None
        }
    }

    /// Storing `record`: the store afterwards, and what the caller gets.
    pub open spec fn insert(self, record: SecretView) -> (SecretTable, Result<
        SecretView,
        ErrorView,
    >) {
        match self.refusal(record) {
            Some(error) => (self, Err(error)),
            None => (
                SecretTable {
                    records: self.records.push(record),
                    next_id: (self.next_id + 1) as u128,
                },
                Ok(record),
            ),
        }
    }

    /// One read of the record under `token` at `now`, counted if and only
    /// if the record is there and its quota is not used up: the store
    /// afterwards, and the record as it then stands. No record, or a quota
    /// that is used up, gives `None` and changes nothing. A counter that
    /// cannot grow is a failure of the store.
    pub open spec fn increment(self, token: Seq<char>, now: Timestamp) -> (SecretTable, Result<
        Option<SecretView>,
        ErrorView,
    >) {
        match self.get(token) {
            None => (self, Ok(None)),
            Some(record) => if record.exhausted() {
                (self, Ok(None))
            } else if record.current_views == i32::MAX {
                (self, Err(ErrorView::Database("integer out of range"@)))
            } else {
                (self.with_record(record.viewed(now)), Ok(Some(record.viewed(now))))
            },
        }
    }
}

/// The records of one creator, the one stored last first.
pub open spec fn created_by(records: Seq<SecretView>, creator_id: u128) -> Seq<SecretView>
    decreases records.len(),
{
    if records.len() == 0 {
        Seq::empty()
    } else if records.last().creator_id == Some(creator_id) {
        seq![records.last()] + created_by(records.drop_last(), creator_id)
    } else {
        created_by(records.drop_last(), creator_id)
    }
}

impl SecretTable {
    /// A record with this id is stored.
    pub open spec fn holds_id(self, id: u128) -> bool {
        exists|i: int| 0 <= i < self.records.len() && (#[trigger] self.records[i]).id == id
    }

    /// The record with this id.
    pub open spec fn get_by_id(self, id: u128) -> Option<SecretView> {
        if self.holds_id(id) {
            Some(
                self.records[choose|i: int|
                    0 <= i < self.records.len() && (#[trigger] self.records[i]).id == id],
            )
        } else {
            None
        }
    }
}

/// Storing a record keeps the store well formed, and a record that was
/// stored is found under its token, unchanged.
pub proof fn lemma_insert(table: SecretTable, record: SecretView)
    requires
        table.wf(),
        record.id == table.next_id,
        record.current_views == 0,
    ensures
        table.insert(record).0.wf(),
        table.insert(record).1 is Ok ==> table.insert(record).0.get(record.token) == Some(record),
        forall|token: Seq<char>|
            token != record.token ==> table.insert(record).0.get(token) == table.get(token),
{
    let after = table.insert(record).0;
    if table.refusal(record) is None {
        assert(!table.holds(record.token));
        assert forall|i: int, j: int| 0 <= i < j < after.records.len() implies (
        #[trigger] after.records[i]).token != (#[trigger] after.records[j]).token by {
            if j == table.records.len() {
                assert(table.records[i].token != record.token);
            }
        }
        assert(after.wf());
        lemma_slot(after, table.records.len() as int);
        assert forall|token: Seq<char>| token != record.token implies after.get(token)
            == table.get(token) by {
            if table.holds(token) {
                let i = table.slot(token);
                lemma_slot(table, i);
                assert(after.records[i] == table.records[i]);
                lemma_slot(after, i);
            } else {
                if after.holds(token) {
                    let i = after.slot(token);
                    assert(after.records[i].token == token);
                    assert(table.records[i].token == token);
                }
            }
        }
    }
}

/// Putting a well-formed record in the place of the one under its token,
/// with the same id, keeps the store well formed; the record is then found
/// under its token, and every other token finds what it found before.
pub proof fn lemma_with_record(table: SecretTable, record: SecretView)
    requires
        table.wf(),
        record.wf(),
        table.get(record.token) matches Some(old_record) && old_record.id == record.id,
    ensures
        table.with_record(record).wf(),
        table.with_record(record).get(record.token) == Some(record),
        forall|token: Seq<char>|
            token != record.token ==> table.with_record(record).get(token) == table.get(token),
{
    let after = table.with_record(record);
    let k = table.slot(record.token);
    lemma_slot(table, k);
    assert forall|i: int, j: int| 0 <= i < j < after.records.len() implies (
    #[trigger] after.records[i]).token != (#[trigger] after.records[j]).token by {
        assert(after.records[i].token == table.records[i].token);
        assert(after.records[j].token == table.records[j].token);
    }
    assert forall|i: int, j: int| 0 <= i < j < after.records.len() implies (
    #[trigger] after.records[i]).id != (#[trigger] after.records[j]).id by {
        assert(after.records[i].id == table.records[i].id);
        assert(after.records[j].id == table.records[j].id);
    }
    assert forall|i: int| 0 <= i < after.records.len() implies (#[trigger] after.records[i]).wf()
        && after.records[i].id < after.next_id by {
        if i != k {
            assert(after.records[i] == table.records[i]);
        }
    }
    lemma_slot(after, k);
    assert forall|token: Seq<char>| token != record.token implies after.get(token) == table.get(
        token,
    ) by {
        if table.holds(token) {
            let i = table.slot(token);
            lemma_slot(table, i);
            assert(after.records[i] == table.records[i]);
            lemma_slot(after, i);
        } else {
            if after.holds(token) {
                let i = after.slot(token);
                assert(after.records[i].token == token);
                assert(table.records[i].token == token);
            }
        }
    }
}

/// In every state of the store, the counter of a record lies within its
/// quota: a record that `max_views` limits was read `max_views` times at
/// most, and one that burns after reading once at most.
pub proof fn lemma_counter_within_quota(table: SecretTable, token: Seq<char>)
    requires
        table.wf(),
        table.get(token) is Some,
    ensures
        ({
            let record = table.get(token)->0;
            &&& 0 <= record.current_views
            &&& record.max_views matches Some(limit) ==> record.current_views <= limit
            &&& record.burn_after_reading ==> record.current_views <= 1
        }),
{
    let i = table.slot(token);
    assert(table.records[i].wf());
}

/// Removing the record under a token keeps the store well formed; the token
/// then finds nothing, and every other token finds what it found before.
pub proof fn lemma_without(table: SecretTable, token: Seq<char>)
    requires
        table.wf(),
    ensures
        table.without(token).wf(),
        table.without(token).get(token) is None,
        forall|other: Seq<char>|
            other != token ==> table.without(token).get(other) == table.get(other),
{
    let after = table.without(token);
    if table.holds(token) {
        let k = table.slot(token);
        lemma_slot(table, k);
        assert forall|i: int| 0 <= i < after.records.len() implies (#[trigger] after.records[i])
            == table.records[if i < k {
            i
        } else {
            i + 1
        }] by {}
        assert forall|i: int, j: int| 0 <= i < j < after.records.len() implies (
        #[trigger] after.records[i]).token != (#[trigger] after.records[j]).token by {
            let a = if i < k { i } else { i + 1 };
            let b = if j < k { j } else { j + 1 };
            assert(table.records[a].token != table.records[b].token);
        }
        assert forall|i: int, j: int| 0 <= i < j < after.records.len() implies (
        #[trigger] after.records[i]).id != (#[trigger] after.records[j]).id by {
            let a = if i < k { i } else { i + 1 };
            let b = if j < k { j } else { j + 1 };
            assert(table.records[a].id != table.records[b].id);
        }
        assert forall|i: int| 0 <= i < after.records.len() implies (
        #[trigger] after.records[i]).wf() && after.records[i].id < after.next_id by {
            let a = if i < k { i } else { i + 1 };
            assert(table.records[a].wf());
        }
        if after.holds(token) {
            let i = after.slot(token);
            let a = if i < k { i } else { i + 1 };
            assert(after.records[i].token == token);
            assert(table.records[a].token == token);
            lemma_slot(table, a);
        }
        assert forall|other: Seq<char>| other != token implies after.get(other) == table.get(
            other,
        ) by {
            if table.holds(other) {
                let a = table.slot(other);
                lemma_slot(table, a);
                let i = if a < k { a } else { a - 1 };
                assert(after.records[i] == table.records[a]);
                lemma_slot(after, i);
            } else {
                if after.holds(other) {
                    let i = after.slot(other);
                    let a = if i < k { i } else { i + 1 };
                    assert(after.records[i].token == other);
                    assert(table.records[a].token == other);
                }
            }
        }
    }
}

/// The store of secrets, keyed by token.
pub struct SecretRepository {
    records: Vec<Secret>,
    next_id: u128,
}

impl View for SecretRepository {
    type V = SecretTable;

    closed spec fn view(&self) -> SecretTable {
        SecretTable { records: self.records@.map_values(|s: Secret| s@), next_id: self.next_id }
    }
}

impl SecretRepository {
    /// The store is well formed: see [`SecretTable::wf`].
    pub open spec fn wf(&self) -> bool {
        self@.wf()
    }

    /// An empty store.
    pub fn new() -> (r: SecretRepository)
        ensures
            r.wf(),
            r@.records.len() == 0,
            r@.next_id == 0,
    {
        SecretRepository { records: Vec::new(), next_id: 0 }
    }

    fn locate(&self, token: &str) -> (r: Option<usize>)
        requires
            self.wf(),
        ensures
            self@.records.len() == self.records.len(),
            match r {
                Some(i) => i < self.records.len() && self@.get(token@) == Some(
                    self.records[i as int]@,
                ) && self@.slot(token@) == i,
                None => !self@.holds(token@),
            },
    {
        let key = String::from_str(token);
        let mut i: usize = 0;
        while i < self.records.len()
            invariant
                self.wf(),
                i <= self.records.len(),
                key@ == token@,
                forall|j: int| 0 <= j < i ==> (#[trigger] self@.records[j]).token != token@,
            decreases self.records.len() - i,
        {
            if self.records[i].token == key {
                proof {
                    lemma_slot(self@, i as int);
                }
                return Some(i);
            }
            i += 1;
        }
        None
    }

    /// Stores a new secret under `token`, with a counter of zero and `now`
    /// as its time of creation, and hands the stored record back. Fails with
    /// `Validation` where `max_views` is set and not positive, with
    /// `Conflict` where a record is stored under `token` already, and with
    /// `Internal` where no id is left; the store is then unchanged.
    pub fn create(
        &mut self,
        creator_id: Option<u128>,
        organization_id: Option<u128>,
        token: &str,
        encrypted_data: &str,
        encrypted_metadata: Option<&str>,
        max_views: Option<i32>,
        expires_at: Option<Timestamp>,
        burn_after_reading: bool,
        is_file: bool,
        file_path: Option<&str>,
        file_size: Option<i64>,
        file_mime_type: Option<&str>,
        now: Timestamp,
    ) -> (r: Result<Secret, AppError>)
        requires
            old(self).wf(),
        ensures
            final(self).wf(),
            (final(self)@, view_result(r)) == old(self)@.insert(
                new_record(
                    old(self)@.next_id,
                    creator_id,
                    organization_id,
                    token@,
                    encrypted_data@,
                    ref_text(encrypted_metadata),
                    max_views,
                    expires_at,
                    burn_after_reading,
                    is_file,
                    ref_text(file_path),
                    file_size,
                    ref_text(file_mime_type),
                    now,
                ),
            ),
            r matches Ok(stored) ==> final(self)@.get(token@) == Some(stored@),
            forall|other: Seq<char>|
                other != token@ ==> #[trigger] final(self)@.get(other) == old(self)@.get(other),
    {
        if let Some(limit) = max_views {
            if limit < 1 {
                return Err(AppError::Validation(String::from_str("max_views must be positive")));
            }
        }
        if self.locate(token).is_some() {
            return Err(AppError::Conflict);
        }
        if self.next_id == u128::MAX {
            return Err(AppError::Internal(String::from_str("no id is left")));
        }
        let record = Secret {
            id: self.next_id,
            creator_id,
            organization_id,
            token: String::from_str(token),
            encrypted_data: String::from_str(encrypted_data),
            encrypted_metadata: own_text(encrypted_metadata),
            max_views,
            current_views: 0,
            expires_at,
            burn_after_reading,
            is_file,
            file_path: own_text(file_path),
            file_size,
            file_mime_type: own_text(file_mime_type),
            created_at: now,
            last_accessed_at: None,
        };
        let stored = record.clone();
        self.records.push(record);
        self.next_id = self.next_id + 1;
        proof {
            assert(self@.records =~= old(self)@.records.push(stored@));
            lemma_insert(old(self)@, stored@);
        }
        Ok(stored)
    }

    /// The record stored under `token`, if there is one. Nothing changes.
    pub fn find_by_token(&self, token: &str) -> (r: Result<Option<Secret>, AppError>)
        requires
            self.wf(),
        ensures
            view_found(r) == Ok::<Option<SecretView>, ErrorView>(self@.get(token@)),
    {
        match self.locate(token) {
            Some(i) => Ok(Some(self.records[i].clone())),
            None => Ok(None),
        }
    }

    /// Counts one read of the record under `token`, at `now`, in one step,
    /// and hands back the record as it then stands. Where no record is
    /// stored under `token`, or the quota of the record is used up, nothing
    /// changes and the result is `None`: no read beyond the quota is ever
    /// counted. Fails with `Database` where the counter of a record without
    /// quota cannot grow any more.
    pub fn increment_views(&mut self, token: &str, now: Timestamp) -> (r: Result<
        Option<Secret>,
        AppError,
    >)
        requires
            old(self).wf(),
        ensures
            final(self).wf(),
            (final(self)@, view_found(r)) == old(self)@.increment(token@, now),
            r matches Ok(Some(counted)) ==> final(self)@.get(token@) == Some(counted@),
            forall|other: Seq<char>|
                other != token@ ==> #[trigger] final(self)@.get(other) == old(self)@.get(other),
    {
        match self.locate(token) {
            None => Ok(None),
            Some(i) => {
                let mut record = self.records[i].clone();
                if record.is_exhausted() {
                    return Ok(None);
                }
                if record.current_views == i32::MAX {
                    return Err(AppError::Database(String::from_str("integer out of range")));
                }
                record.current_views = record.current_views + 1;
                record.last_accessed_at = Some(now);
                let updated = record.clone();
                self.records.set(i, record);
                proof {
                    assert(updated@ == old(self)@.get(token@)->0.viewed(now));
                    assert(self@.records =~= old(self)@.records.update(i as int, updated@));
                    lemma_with_record(old(self)@, updated@);
                }
                Ok(Some(updated))
            },
        }
    }

    /// Removes the record under `token` and tells whether there was one.
    pub fn delete_by_token(&mut self, token: &str) -> (r: Result<bool, AppError>)
        requires
            old(self).wf(),
        ensures
            final(self).wf(),
            final(self)@ == old(self)@.without(token@),
            r matches Ok(removed) && removed == old(self)@.holds(token@),
            final(self)@.get(token@) is None,
            forall|other: Seq<char>|
                other != token@ ==> #[trigger] final(self)@.get(other) == old(self)@.get(other),
    {
        proof {
            lemma_without(old(self)@, token@);
        }
        match self.locate(token) {
            None => Ok(false),
            Some(i) => {
                let _ = self.records.remove(i);
                proof {
                    assert(self@.records =~= old(self)@.records.remove(i as int));
                }
                Ok(true)
            },
        }
    }

    /// The records of one creator, the one stored last first.
    pub fn find_by_creator(&self, creator_id: u128) -> (r: Result<Vec<Secret>, AppError>)
        requires
            self.wf(),
        ensures
            r matches Ok(found) && found@.map_values(|s: Secret| s@) == created_by(
                self@.records,
                creator_id,
            ),
    {
        let mut found: Vec<Secret> = Vec::new();
        let mut i: usize = self.records.len();
        proof {
            assert(self@.records.take(i as int) =~= self@.records);
        }
        while i > 0
            invariant
                i <= self.records.len(),
                self@.records.len() == self.records.len(),
                found@.map_values(|s: Secret| s@) + created_by(
                    self@.records.take(i as int),
                    creator_id,
                ) == created_by(self@.records, creator_id),
            decreases i,
        {
            let ghost before = found@.map_values(|s: Secret| s@);
            proof {
                assert(self@.records.take(i as int).drop_last() =~= self@.records.take(i - 1));
                assert(self@.records.take(i as int).last() == self@.records[i - 1]);
            }
            i -= 1;
            let owned = match self.records[i].creator_id {
                Some(owner) => owner == creator_id,
                None => false,
            };
            if owned {
                found.push(self.records[i].clone());
                proof {
                    assert(found@.map_values(|s: Secret| s@) =~= before + seq![
                        self@.records[i as int],
                    ]);
                    assert(before + seq![self@.records[i as int]] + created_by(
                        self@.records.take(i as int),
                        creator_id,
                    ) =~= before + (seq![self@.records[i as int]] + created_by(
                        self@.records.take(i as int),
                        creator_id,
                    )));
                }
            }
        }
        proof {
            assert(found@.map_values(|s: Secret| s@) + Seq::<SecretView>::empty()
                =~= found@.map_values(|s: Secret| s@));
        }
        Ok(found)
    }

    /// The record with this id, if there is one.
    pub fn find_by_id(&self, id: u128) -> (r: Result<Option<Secret>, AppError>)
        requires
            self.wf(),
        ensures
            view_found(r) == Ok::<Option<SecretView>, ErrorView>(self@.get_by_id(id)),
    {
        let mut i: usize = 0;
        while i < self.records.len()
            invariant
                self.wf(),
                i <= self.records.len(),
                self@.records.len() == self.records.len(),
                forall|j: int| 0 <= j < i ==> (#[trigger] self@.records[j]).id != id,
            decreases self.records.len() - i,
        {
            if self.records[i].id == id {
                proof {
                    let k = choose|k: int|
                        0 <= k < self@.records.len() && (#[trigger] self@.records[k]).id == id;
                    assert(self@.records[i as int].id == id);
                    assert(k == i) by {
                        if k < i {
                            assert(self@.records[k].id != self@.records[i as int].id);
                        } else if k > i {
                            assert(self@.records[i as int].id != self@.records[k].id);
                        }
                    }
                }
                return Ok(Some(self.records[i].clone()));
            }
            i += 1;
        }
        Ok(None)
    }
}

} // verus!
