//! What holds of the life of a secret, whatever callers do: no read beyond
//! the quota, nothing after the expiry, and the payload as it was stored.

use crate::database::secret_repository::{
    lemma_insert, lemma_with_record, lemma_without, SecretTable,
};
use crate::error::ErrorView;
use crate::models::secret::{CreateSecretRequestView, SecretResponseView, SecretView};
use crate::services::file_service::{downloading, DownloadView};
use crate::services::secret_service::{
    consumption, drafted, expiry, access, retrieval, storing, Access,
};
use crate::utils::time::{expired_at, Timestamp};
use vstd::prelude::*;

verus! {

/// One read at `now`: with `cleanup`, the whole of it, in which a spent
/// record is removed; without, the read up to the count, as it stands while
/// the removal of the spent record is still to come.
pub open spec fn read(table: SecretTable, token: Seq<char>, now: Timestamp, cleanup: bool) -> (
    SecretTable,
    Result<SecretResponseView, ErrorView>,
) {
    if cleanup {
        retrieval(table, token, now)
    } else {
        match consumption(table, token, now).1 {
            Ok(delivery) => (consumption(table, token, now).0, Ok(delivery.response)),
            Err(error) => (consumption(table, token, now).0, Err(error)),
        }
    }
}

/// Reads in a row, one at each of `times`: the store after the last, and
/// what each caller got.
pub open spec fn reads(table: SecretTable, token: Seq<char>, times: Seq<Timestamp>, cleanup: bool)
    -> (SecretTable, Seq<Result<SecretResponseView, ErrorView>>)
    decreases times.len(),
{
    if times.len() == 0 {
        (table, Seq::empty())
    } else {
        let first = read(table, token, times[0], cleanup);
        let rest = reads(first.0, token, times.drop_first(), cleanup);
        (rest.0, seq![first.1] + rest.1)
    }
}

/// The error of a read that comes after the quota is used up: the record is
/// gone where spent records are removed, and stands exhausted where they
/// are not.
pub open spec fn after_quota(cleanup: bool) -> ErrorView {
    if cleanup {
        ErrorView::NotFound
    } else {
        ErrorView::SecretAlreadyViewed
    }
}

/// A read keeps the store well formed, and leaves every other token as it
/// was.
pub proof fn lemma_read_keeps_store(
    table: SecretTable,
    token: Seq<char>,
    now: Timestamp,
    cleanup: bool,
)
    requires
        table.wf(),
    ensures
        read(table, token, now, cleanup).0.wf(),
        forall|other: Seq<char>|
            other != token ==> read(table, token, now, cleanup).0.get(other) == table.get(other),
{
    lemma_without(table, token);
    match table.get(token) {
        None => {},
        Some(record) => {
            if access(table.get(token), now) == Access::Granted && record.current_views < i32::MAX {
                let counted = record.viewed(now);
                lemma_with_record(table, counted);
                lemma_without(table.with_record(counted), token);
            }
        },
    }
}

/// A secret whose expiry has passed is refused as expired, whatever is left
/// of its quota, and its record is removed.
pub proof fn lemma_expired_secret_is_refused(
    table: SecretTable,
    token: Seq<char>,
    now: Timestamp,
    cleanup: bool,
)
    requires
        table.wf(),
        table.get(token) matches Some(record) && record.expired(now),
    ensures
        read(table, token, now, cleanup).1 == Err::<SecretResponseView, ErrorView>(
            ErrorView::SecretExpired,
        ),
        read(table, token, now, cleanup).0.get(token) is None,
{
    lemma_without(table, token);
}

/// A token under which nothing is stored is not found, and the store stays
/// as it is.
pub proof fn lemma_unknown_token_is_not_found(
    table: SecretTable,
    token: Seq<char>,
    now: Timestamp,
    cleanup: bool,
)
    requires
        table.get(token) is None,
    ensures
        read(table, token, now, cleanup) == (
            table,
            Err::<SecretResponseView, ErrorView>(ErrorView::NotFound),
        ),
{
}

/// A secret with a quota is read exactly as often as the quota allows. Of
/// any number of reads in a row, none of them after the expiry, the first
/// ones succeed, as many as the quota has left: each hands out the payload
/// as stored, with the counter one higher than before. Every read after
/// them fails: with `NotFound` where the spent record was removed, and with
/// `SecretAlreadyViewed` while it still stands.
pub proof fn lemma_quota_is_exact(
    table: SecretTable,
    token: Seq<char>,
    times: Seq<Timestamp>,
    cleanup: bool,
)
    requires
        table.wf(),
        table.get(token) matches Some(record) && record.quota() is Some && !record.exhausted(),
        forall|i: int| 0 <= i < times.len() ==> !table.get(token)->0.expired(#[trigger] times[i]),
    ensures
        reads(table, token, times, cleanup).1.len() == times.len(),
        forall|i: int|
            #![trigger reads(table, token, times, cleanup).1[i]]
            0 <= i < times.len() ==> {
                let record = table.get(token)->0;
                let left = record.quota()->0 - record.current_views;
                let result = reads(table, token, times, cleanup).1[i];
                if i < left {
                    &&& result matches Ok(shown)
                    &&& shown.encrypted_data == record.encrypted_data
                    &&& shown.current_views == record.current_views + i + 1
                } else {
                    result == Err::<SecretResponseView, ErrorView>(after_quota(cleanup))
                }
            },
    decreases times.len(),
{
    if times.len() > 0 {
        let record = table.get(token)->0;
        let left = record.quota()->0 - record.current_views;
        let now = times[0];
        let first = read(table, token, now, cleanup);
        let rest_times = times.drop_first();
        let rest = reads(first.0, token, rest_times, cleanup);
        let counted = record.viewed(now);
        assert(!record.expired(times[0]));
        assert(access(table.get(token), now) == Access::Granted);
        lemma_with_record(table, counted);
        lemma_without(table.with_record(counted), token);
        lemma_read_keeps_store(table, token, now, cleanup);
        assert(first.1 matches Ok(shown) && shown == counted.response());
        assert forall|i: int| 0 <= i < rest_times.len() implies !counted.expired(
            #[trigger] rest_times[i],
        ) by {
            assert(rest_times[i] == times[i + 1]);
        }
        if left > 1 {
            assert(first.0.get(token) == Some(counted));
            lemma_quota_is_exact(first.0, token, rest_times, cleanup);
        } else {
            lemma_later_reads_fail(first.0, token, rest_times, cleanup);
        }
        assert forall|i: int| 0 <= i < times.len() implies {
            let result = #[trigger] reads(table, token, times, cleanup).1[i];
            if i < left {
                &&& result matches Ok(shown)
                &&& shown.encrypted_data == record.encrypted_data
                &&& shown.current_views == record.current_views + i + 1
            } else {
                result == Err::<SecretResponseView, ErrorView>(after_quota(cleanup))
            }
        } by {
            if i > 0 {
                assert(reads(table, token, times, cleanup).1[i] == rest.1[i - 1]);
            }
        }
    }
}

/// Once a secret is gone, or stands exhausted, every later read fails, in
/// the same way each time, and changes nothing.
pub proof fn lemma_later_reads_fail(
    table: SecretTable,
    token: Seq<char>,
    times: Seq<Timestamp>,
    cleanup: bool,
)
    requires
        table.wf(),
        match table.get(token) {
            None => cleanup,
            Some(record) => !cleanup && record.exhausted() && forall|i: int|
                0 <= i < times.len() ==> !record.expired(#[trigger] times[i]),
        },
    ensures
        reads(table, token, times, cleanup).0 == table,
        reads(table, token, times, cleanup).1.len() == times.len(),
        forall|i: int|
            0 <= i < times.len() ==> #[trigger] reads(table, token, times, cleanup).1[i] == Err::<
                SecretResponseView,
                ErrorView,
            >(after_quota(cleanup)),
    decreases times.len(),
{
    if times.len() > 0 {
        let rest_times = times.drop_first();
        if !cleanup {
            assert(!table.get(token)->0.expired(times[0]));
            assert forall|i: int| 0 <= i < rest_times.len() implies !table.get(token)->0.expired(
                #[trigger] rest_times[i],
            ) by {
                assert(rest_times[i] == times[i + 1]);
            }
        }
        let first = read(table, token, times[0], cleanup);
        assert(first.0 == table);
        lemma_later_reads_fail(table, token, rest_times, cleanup);
        let rest = reads(table, token, rest_times, cleanup);
        assert forall|i: int| 0 <= i < times.len() implies #[trigger] reads(
            table,
            token,
            times,
            cleanup,
        ).1[i] == Err::<SecretResponseView, ErrorView>(after_quota(cleanup)) by {
            if i > 0 {
                assert(reads(table, token, times, cleanup).1[i] == rest.1[i - 1]);
            }
        }
    }
}

/// Attempts to count a read, one at each of `times`, in the order in which
/// the store takes them: the store after the last, and how many of them the
/// store counted.
pub open spec fn counts(table: SecretTable, token: Seq<char>, times: Seq<Timestamp>) -> (
    SecretTable,
    nat,
)
    decreases times.len(),
{
    if times.len() == 0 {
        (table, 0)
    } else {
        let first = table.increment(token, times[0]);
        let rest = counts(first.0, token, times.drop_first());
        (
            rest.0,
            if first.1 matches Ok(Some(_)) {
                rest.1 + 1
            } else {
                rest.1
            },
        )
    }
}

/// Readers that race for a secret are told apart by the store alone: however
/// many of them were granted access before any of them was counted, the
/// store counts as many as the quota has left and no more, and leaves the
/// counter at the quota at most.
pub proof fn lemma_counts_stop_at_quota(table: SecretTable, token: Seq<char>, times: Seq<Timestamp>)
    requires
        table.wf(),
        table.get(token) matches Some(record) && record.quota() is Some,
    ensures
        ({
            let record = table.get(token)->0;
            let left = record.quota()->0 - record.current_views;
            let after = counts(table, token, times);
            &&& after.0.wf()
            &&& after.1 == if times.len() <= left {
                times.len() as int
            } else {
                left
            }
            &&& after.0.get(token) matches Some(last) && last.current_views
                == record.current_views + after.1 && last.current_views <= record.quota()->0
        }),
    decreases times.len(),
{
    if times.len() > 0 {
        let record = table.get(token)->0;
        if !record.exhausted() {
            lemma_with_record(table, record.viewed(times[0]));
        }
        lemma_counts_stop_at_quota(table.increment(token, times[0]).0, token, times.drop_first());
    }
}

/// A file secret is guarded as any secret is. No blob is named for a record
/// whose expiry has passed or whose quota is used up: the first is refused
/// as expired and removed, the second is refused as already viewed and stays
/// as it is, its counter where it was. A blob that is named was counted as
/// one read, and the store stays well formed.
pub proof fn lemma_download_is_guarded(table: SecretTable, token: Seq<char>, now: Timestamp)
    requires
        table.wf(),
        table.get(token) is Some,
    ensures
        downloading(table, token, now).0.wf(),
        table.get(token)->0.expired(now) ==> downloading(table, token, now).1 == Err::<
            DownloadView,
            ErrorView,
        >(ErrorView::SecretExpired) && downloading(table, token, now).0.get(token) is None,
        !table.get(token)->0.expired(now) && table.get(token)->0.exhausted() ==> downloading(
            table,
            token,
            now,
        ) == (table, Err::<DownloadView, ErrorView>(ErrorView::SecretAlreadyViewed)),
        downloading(table, token, now).1 is Ok ==> !table.get(token)->0.expired(now)
            && !table.get(token)->0.exhausted() && retrieval(table, token, now).1 is Ok
            && downloading(table, token, now).0 == retrieval(table, token, now).0,
{
    lemma_without(table, token);
    lemma_read_keeps_store(table, token, now, true);
}

/// `record` as it would stand with a quota of one read in place of the mark
/// that it burns after reading.
pub open spec fn as_single_view(record: SecretView) -> SecretView {
    SecretView { burn_after_reading: false, max_views: Some(1i32), ..record }
}

/// A secret that burns after reading behaves as one with `max_views` of one:
/// a read of either is granted or refused alike, both succeed or both fail with the
/// same error, a read that succeeds hands out the same payload and the same
/// counter, and after it the record is gone, so that every later read finds
/// nothing.
pub proof fn lemma_burn_is_single_view(
    table: SecretTable,
    token: Seq<char>,
    now: Timestamp,
    later: Timestamp,
)
    requires
        table.wf(),
        table.get(token) matches Some(record) && record.burn_after_reading,
    ensures
        ({
            let record = table.get(token)->0;
            let other = table.with_record(as_single_view(record));
            let burnt = retrieval(table, token, now);
            let single = retrieval(other, token, now);
            &&& other.wf()
            &&& access(Some(record), now) == access(Some(as_single_view(record)), now)
            &&& match (burnt.1, single.1) {
                (Ok(a), Ok(b)) => a == SecretResponseView {
                    burn_after_reading: true,
                    max_views: record.max_views,
                    ..b
                } && burnt.0.get(token) is None && single.0.get(token) is None && retrieval(
                    burnt.0,
                    token,
                    later,
                ).1 == Err::<SecretResponseView, ErrorView>(ErrorView::NotFound),
                (Err(a), Err(b)) => a == b,
                _ => false,
            }
        }),
{
    let record = table.get(token)->0;
    let single = as_single_view(record);
    let other = table.with_record(single);
    lemma_with_record(table, single);
    lemma_without(table, token);
    lemma_without(other, token);
    if access(Some(record), now) == Access::Granted {
        lemma_with_record(table, record.viewed(now));
        lemma_with_record(other, single.viewed(now));
        lemma_without(table.with_record(record.viewed(now)), token);
        lemma_without(other.with_record(single.viewed(now)), token);
    }
}

/// What is stored comes back unchanged: a secret that was stored, read
/// before its expiry, hands out the payload and the metadata of the request,
/// character by character, with a counter of one.
pub proof fn lemma_round_trip(
    table: SecretTable,
    creator_id: Option<u128>,
    request: CreateSecretRequestView,
    token: Seq<char>,
    now: Timestamp,
    later: Timestamp,
)
    requires
        table.wf(),
        storing(table, creator_id, request, token, now).1 is Ok,
        expiry(request.expires_in_days, now) matches Ok(limit) && !expired_at(limit, later),
    ensures
        storing(table, creator_id, request, token, now).0.wf(),
        retrieval(storing(table, creator_id, request, token, now).0, token, later).1 matches Ok(
            shown,
        ) && shown.encrypted_data == request.encrypted_data && shown.encrypted_metadata
            == request.encrypted_metadata && shown.current_views == 1 && shown.token == token,
{
    let limit = expiry(request.expires_in_days, now)->Ok_0;
    let draft = drafted(table, creator_id, request, token, limit, now);
    lemma_insert(table, draft);
    let stored = table.insert(draft).0;
    assert(stored.get(token) == Some(draft));
    lemma_with_record(stored, draft.viewed(later));
}

} // verus!
