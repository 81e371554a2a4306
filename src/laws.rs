//! Properties that hold across operations of the engine.
use vstd::prelude::*;

use crate::catalog::{question_index, Catalog};
use crate::error::ApiError;
use crate::session::{
    all_answered, answer_is_correct, completion_score, orders, slot_index, slot_index_from,
    AnswerParams, CreateTestParams, QuestionSlot, TestSession, TestStatus,
};
use crate::models::AnswerResultResponse;
use crate::store::{
    access_error, answer_error, answer_post, answered_state, create_error, created, has_active,
    params_fingerprint, review_error, session_index, session_index_from,
};

verus! {

/// The slots of every well-formed test carry the orders 1 to
/// `total_questions`, each exactly once.
pub proof fn lemma_orders_exactly_once(s: TestSession)
    requires
        s.wf(),
    ensures
        orders(s.slots@) == Seq::new(s.total_questions as nat, |k: int| k + 1),
        orders(s.slots@).no_duplicates(),
        forall|v: int| 1 <= v <= s.total_questions <==> #[trigger] orders(s.slots@).contains(v),
{
    let o = orders(s.slots@);
    assert(o =~= Seq::new(s.total_questions as nat, |k: int| k + 1));
    assert forall|v: int| 1 <= v <= s.total_questions implies #[trigger] o.contains(v) by {
        assert(o[v - 1] == v);
    }
}

/// While a user has an active test for a filter, creating another one for
/// the same user, filter type, filter identifier and language fails with a
/// conflict: in particular right after the first one was created.
pub proof fn lemma_second_active_conflicts(
    before: Seq<TestSession>,
    after: Seq<TestSession>,
    id: u128,
    id2: u128,
    user: u128,
    p: CreateTestParams,
    cat: Catalog,
    cat2: Catalog,
    favorites: Seq<u128>,
    favorites2: Seq<u128>,
    now: i64,
)
    requires
        create_error(before, id, user, p, cat, favorites) is None,
        created(before, after, id, user, p, cat, favorites, now),
    ensures
        has_active(after, user, params_fingerprint(p)),
        create_error(after, id2, user, p, cat2, favorites2) == Some(ApiError::AlreadyExists),
{
    let k = after.len() - 1;
    assert(after[k].user_id == user);
}

/// A well-formed test whose slots are all answered, and that was not
/// abandoned, is completed, scored as the share of correct answers among all
/// questions, rounded down.
pub proof fn lemma_all_answered_completes(s: TestSession)
    requires
        s.wf(),
        all_answered(s.slots@),
        s.status != TestStatus::Abandoned,
    ensures
        s.status == TestStatus::Completed,
        s.score_percent == Some(completion_score(s.correct_count as int, s.total_questions as int) as i16),
{
}

/// The answer that fills the last open slot of a test completes it, scored
/// over all questions.
pub proof fn lemma_last_answer_completes(
    before: TestSession,
    after: TestSession,
    q: u128,
    chosen: Seq<u128>,
    ok: bool,
    now: i64,
)
    requires
        answered_state(before, after, q, chosen, ok, now),
        all_answered(after.slots@),
    ensures
        after.status == TestStatus::Completed,
        after.score_percent == Some(completion_score(after.correct_count as int, after.total_questions as int) as i16),
        after.completed_at == Some(now),
{
}

/// A chosen set that is a strict subset or a strict superset of the correct
/// set is graded wrong.
pub proof fn lemma_partial_or_extra_is_wrong(chosen: Seq<u128>, correct: Seq<u128>)
    requires
        (chosen.to_set().subset_of(correct.to_set()) && chosen.to_set() != correct.to_set()) || (
        correct.to_set().subset_of(chosen.to_set()) && chosen.to_set() != correct.to_set()),
    ensures
        !answer_is_correct(chosen, correct),
{
}

/// Replacing a test by one with the same identifier and deletion mark leaves
/// every lookup by identifier where it was.
proof fn lemma_session_index_update(ss: Seq<TestSession>, k: int, x: TestSession, id: u128, i: int)
    requires
        0 <= k < ss.len(),
        0 <= i <= ss.len(),
        x.id == ss[k].id,
        x.is_deleted == ss[k].is_deleted,
    ensures
        session_index_from(ss.update(k, x), id, i) == session_index_from(ss, id, i),
    decreases ss.len() - i,
{
    if i < ss.len() {
        lemma_session_index_update(ss, k, x, id, i + 1);
    }
}

/// Replacing a slot by one for the same question leaves every lookup by
/// question where it was.
proof fn lemma_slot_index_update(s: Seq<QuestionSlot>, j: int, x: QuestionSlot, q: u128, i: int)
    requires
        0 <= j < s.len(),
        0 <= i <= s.len(),
        x.question_id == s[j].question_id,
    ensures
        slot_index_from(s.update(j, x), q, i) == slot_index_from(s, q, i),
    decreases s.len() - i,
{
    if i < s.len() {
        lemma_slot_index_update(s, j, x, q, i + 1);
    }
}

/// The slot found for a question holds that question.
proof fn lemma_slot_index_hit(s: Seq<QuestionSlot>, q: u128, i: int)
    requires
        0 <= i <= s.len(),
    ensures
        slot_index_from(s, q, i) matches Some(j) ==> i <= j < s.len() && s[j].question_id == q,
    decreases s.len() - i,
{
    if i < s.len() {
        lemma_slot_index_hit(s, q, i + 1);
    }
}

/// The test found for an identifier is live and has that identifier.
proof fn lemma_session_index_hit(ss: Seq<TestSession>, id: u128, i: int)
    requires
        0 <= i <= ss.len(),
    ensures
        session_index_from(ss, id, i) matches Some(k) ==> i <= k < ss.len() && ss[k].id == id,
    decreases ss.len() - i,
{
    if i < ss.len() {
        lemma_session_index_hit(ss, id, i + 1);
    }
}

/// Once a slot has been scored, any further submission for it is refused: a
/// Conflict while the test is still active, InvalidState once that answer
/// completed it. A refused submission changes nothing, so the correct count
/// reflects exactly one scoring of the slot.
pub proof fn lemma_second_submission_refused(
    before: Seq<TestSession>,
    after: Seq<TestSession>,
    user: u128,
    id: u128,
    p: AnswerParams,
    cat: Catalog,
    now: i64,
    r: Result<AnswerResultResponse, ApiError>,
    chosen2: Seq<u128>,
)
    requires
        answer_post(before, after, user, id, p, cat, now, r),
        r is Ok,
        chosen2.len() > 0,
    ensures
        answer_error(after, user, id, p.question_id, chosen2, cat) == Some(
            if after[session_index(before, id)->Some_0].status == TestStatus::Active {
                ApiError::Conflict
            } else {
                ApiError::InvalidState
            },
        ),
        after[session_index(before, id)->Some_0].correct_count <= before[session_index(
            before,
            id,
        )->Some_0].correct_count + 1,
{
    let k = session_index(before, id)->Some_0;
    lemma_session_index_hit(before, id, 0);
    let s0 = before[k];
    let s1 = after[k];
    lemma_session_index_update(before, k, s1, id, 0);
    let q = p.question_id;
    let j = slot_index(s0.slots@, q)->Some_0;
    lemma_slot_index_hit(s0.slots@, q, 0);
    let x = s1.slots@[j];
    lemma_slot_index_update(s0.slots@, j, x, q, 0);
    assert(s1.slots@ == s0.slots@.update(j, x));
    assert(access_error(after, user, id) is None);
}

/// A review of an active test is refused with InvalidState; a review of a
/// completed or abandoned test whose questions are all in the catalog is
/// granted to its owner.
pub proof fn lemma_review_gate(ss: Seq<TestSession>, user: u128, id: u128, cat: Catalog)
    requires
        access_error(ss, user, id) is None,
    ensures
        ss[session_index(ss, id)->Some_0].status == TestStatus::Active ==> review_error(ss, user, id, cat)
            == Some(ApiError::InvalidState),
        ss[session_index(ss, id)->Some_0].status != TestStatus::Active && (forall|m: int|
            0 <= m < ss[session_index(ss, id)->Some_0].slots@.len() ==> question_index(
                cat.questions@,
                (#[trigger] ss[session_index(ss, id)->Some_0].slots@[m]).question_id,
            ) is Some) ==> review_error(ss, user, id, cat) is None,
{
}

} // verus!
