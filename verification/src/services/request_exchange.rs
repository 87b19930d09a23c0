//! What holds of the exchange of a secret request, whatever callers do:
//! of all the answers sent to a request, exactly one is taken.

use crate::database::secret_request_repository::{lemma_request_with_record, RequestTable};
use crate::error::ErrorView;
use crate::models::secret_request::lemma_statuses_differ;
use crate::services::secret_request_service::answering;
use crate::utils::time::Timestamp;
use vstd::prelude::*;

verus! {

/// Answers to one request, each with the instant at which the store takes
/// it up, in that order: the store after the last, and what each sender was
/// told.
pub open spec fn answers(table: RequestTable, token: Seq<char>, sent: Seq<(Seq<char>, Timestamp)>)
    -> (RequestTable, Seq<Result<(), ErrorView>>)
    decreases sent.len(),
{
    if sent.len() == 0 {
        (table, Seq::empty())
    } else {
        let first = answering(table, token, sent[0].0, sent[0].1);
        let rest = answers(first.0, token, sent.drop_first());
        (rest.0, seq![first.1] + rest.1)
    }
}

/// A request that is not pending, or not there, takes no answer: every
/// sender is told that nothing was found, and the store stays as it is.
pub proof fn lemma_no_answer_after_the_first(
    table: RequestTable,
    token: Seq<char>,
    sent: Seq<(Seq<char>, Timestamp)>,
)
    requires
        table.get(token) matches Some(record) ==> !record.is_pending(),
    ensures
        answers(table, token, sent).0 == table,
        answers(table, token, sent).1.len() == sent.len(),
        forall|i: int|
            0 <= i < sent.len() ==> #[trigger] answers(table, token, sent).1[i] == Err::<
                (),
                ErrorView,
            >(ErrorView::NotFound),
    decreases sent.len(),
{
    if sent.len() > 0 {
        let rest = answers(table, token, sent.drop_first());
        lemma_no_answer_after_the_first(table, token, sent.drop_first());
        assert forall|i: int| 0 <= i < sent.len() implies #[trigger] answers(table, token, sent).1[i]
            == Err::<(), ErrorView>(ErrorView::NotFound) by {
            if i > 0 {
                assert(answers(table, token, sent).1[i] == rest.1[i - 1]);
            }
        }
    }
}

/// Of any number of answers sent to a pending request, exactly one is taken:
/// the one that the store takes up first. Its sender is told so, every other
/// sender is told that nothing was found, and the request ends completed,
/// holding the first answer and the instant at which it was taken.
pub proof fn lemma_one_answer_wins(
    table: RequestTable,
    token: Seq<char>,
    sent: Seq<(Seq<char>, Timestamp)>,
)
    requires
        table.wf(),
        table.get(token) matches Some(record) && record.is_pending(),
        sent.len() >= 1,
    ensures
        answers(table, token, sent).0.wf(),
        answers(table, token, sent).1.len() == sent.len(),
        answers(table, token, sent).1[0] == Ok::<(), ErrorView>(()),
        forall|i: int|
            1 <= i < sent.len() ==> #[trigger] answers(table, token, sent).1[i] == Err::<
                (),
                ErrorView,
            >(ErrorView::NotFound),
        answers(table, token, sent).0.get(token) == Some(
            table.get(token)->0.answered(sent[0].0, sent[0].1),
        ),
        answers(table, token, sent).0.get(token)->0.is_completed(),
        answers(table, token, sent).0.get(token)->0.encrypted_data == Some(sent[0].0),
{
    lemma_statuses_differ();
    let record = table.get(token)->0;
    let taken = record.answered(sent[0].0, sent[0].1);
    lemma_request_with_record(table, taken);
    let first = answering(table, token, sent[0].0, sent[0].1);
    assert(first.0.get(token) == Some(taken));
    lemma_no_answer_after_the_first(first.0, token, sent.drop_first());
    let rest = answers(first.0, token, sent.drop_first());
    assert forall|i: int| 1 <= i < sent.len() implies #[trigger] answers(table, token, sent).1[i]
        == Err::<(), ErrorView>(ErrorView::NotFound) by {
        assert(answers(table, token, sent).1[i] == rest.1[i - 1]);
    }
}

} // verus!
