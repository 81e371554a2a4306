use vstd::prelude::*;
use vstd::string::*;

use rand::seq::SliceRandom;

use crate::catalog::{
    answers_of, shows, shows_graded, correct_ids_of, filter_key, lemma_pool_from, pool_error, pool_from, question_index, Catalog,
};
use crate::error::ApiError;
use crate::filter::{filter_tag, filter_outcome, FilterType, fingerprint, generate_filter_hash, resolve_filter};
use crate::models::{
    copy_opt_text, same_opt_text, AnswerResultResponse, CompleteTestResponse, CurrentQuestionResponse,
    QuestionInfo, QuestionInfoWithExplanation, ReviewQuestionResponse, TestDetailResponse,
    TestQuestionInfo, TestResponse, TestReviewResponse,
};
use crate::session::{
    abandon_score, all_answered, fresh_slots, chosen_answers, chosen_for, next_open, next_open_slot, answer_is_correct, answered_count, answered_from, build_slots,
    completion_score, count_answered, find_slot, grade_answer, is_answered, lemma_answer_counts,
    lemma_answered_bounds, orders, params_valid, sample_questions, scored_from, selection_rows,
    selection_rows_for, slot_index, status_tag, AnswerParams, CreateTestParams, QuestionSlot,
    TestSession, TestStatus,
};

verus! {

/// All tests of all users. Tests are never removed; deletion only marks them.
pub struct SessionStore {
    sessions: Vec<TestSession>,
}

impl View for SessionStore {
    type V = Seq<TestSession>;

    closed spec fn view(&self) -> Seq<TestSession> {
        self.sessions@
    }
}

/// Every test is well formed and no two tests share an identifier.
pub open spec fn store_wf(ss: Seq<TestSession>) -> bool {
    &&& forall|k: int| 0 <= k < ss.len() ==> (#[trigger] ss[k]).wf()
    &&& forall|a: int, b: int| 0 <= a < ss.len() && 0 <= b < ss.len() && a != b ==> ss[a].id != ss[b].id
}

/// The first position from `i` on of the test with identifier `id` that is
/// not deleted.
pub open spec fn session_index_from(ss: Seq<TestSession>, id: u128, i: int) -> Option<int>
    decreases ss.len() - i,
{
    if i < 0 || i >= ss.len() {
        None
    } else if ss[i].id == id && !ss[i].is_deleted {
        Some(i)
    } else {
        session_index_from(ss, id, i + 1)
    }
}

/// The position of the test with identifier `id`, unless it is deleted.
pub open spec fn session_index(ss: Seq<TestSession>, id: u128) -> Option<int> {
    session_index_from(ss, id, 0)
}

/// The error met when `user` acts on test `id`: NotFound when there is no
/// such test (or it is deleted), Forbidden when another user owns it.
pub open spec fn access_error(ss: Seq<TestSession>, user: u128, id: u128) -> Option<ApiError> {
    match session_index(ss, id) {
        None => Some(ApiError::NotFound),
        Some(k) => if ss[k].user_id != user {
            Some(ApiError::Forbidden)
        } else {
            None
        },
    }
}

/// Whether `user` has a test that is active, not deleted, and has the
/// fingerprint `fp`.
pub open spec fn has_active(ss: Seq<TestSession>, user: u128, fp: Seq<char>) -> bool {
    exists|k: int|
        0 <= k < ss.len() && (#[trigger] ss[k]).user_id == user && !ss[k].is_deleted && ss[k].status
            == TestStatus::Active && ss[k].filter_hash@ == fp
}

/// Whether some test, deleted or not, has identifier `id`.
pub open spec fn id_taken(ss: Seq<TestSession>, id: u128) -> bool {
    exists|k: int| 0 <= k < ss.len() && (#[trigger] ss[k]).id == id
}

/// The fingerprint of a request for a new test.
pub open spec fn params_fingerprint(p: CreateTestParams) -> Seq<char> {
    fingerprint(p.filter_type@, p.filter_id, p.lang@)
}

/// The error met when creating test `id` for `user`, checked in this order:
/// field limits, filter descriptor, an active test with the same fingerprint,
/// a missing category or topic, a pool smaller than requested, an identifier
/// in use.
pub open spec fn create_error(
    ss: Seq<TestSession>,
    id: u128,
    user: u128,
    p: CreateTestParams,
    cat: Catalog,
    favorites: Seq<u128>,
) -> Option<ApiError> {
    if !params_valid(p) {
        Some(ApiError::ValidationFailed)
    } else {
        match filter_outcome(p.filter_type@, p.filter_id) {
            Err(e) => Some(e),
            Ok(t) => if has_active(ss, user, params_fingerprint(p)) {
                Some(ApiError::AlreadyExists)
            } else {
                match pool_error(cat, t, p.filter_id) {
                    Some(e) => Some(e),
                    None => if pool_from(
                        cat.questions@,
                        t,
                        filter_key(p.filter_id),
                        p.lang@,
                        favorites,
                        cat.question_categories@,
                        0,
                    ).len() < p.questions_count {
                        Some(ApiError::InvalidInput)
                    } else if id_taken(ss, id) {
                        Some(ApiError::DuplicateEntry)
                    } else {
                        None
                    },
                }
            },
        }
    }
}

/// The pool of a request for a new test: the catalog's questions that its
/// filter selects in its language.
pub open spec fn request_pool(p: CreateTestParams, cat: Catalog, favorites: Seq<u128>) -> Seq<u128> {
    pool_from(
        cat.questions@,
        filter_outcome(p.filter_type@, p.filter_id)->Ok_0,
        filter_key(p.filter_id),
        p.lang@,
        favorites,
        cat.question_categories@,
        0,
    )
}

/// Whether `draw` is an order of `pool`: as long, without repeats, and made
/// of pool members only.
pub open spec fn is_pool_order(draw: Seq<u128>, pool: Seq<u128>) -> bool {
    &&& draw.len() == pool.len()
    &&& draw.no_duplicates()
    &&& forall|k: int| 0 <= k < draw.len() ==> pool.contains(#[trigger] draw[k])
}

/// What a successful creation leaves: the earlier tests unchanged, and after
/// them one new active test of `user` whose slots are numbered 1 to the
/// requested count and hold distinct, unanswered questions of the pool.
pub open spec fn created(
    before: Seq<TestSession>,
    after: Seq<TestSession>,
    id: u128,
    user: u128,
    p: CreateTestParams,
    cat: Catalog,
    favorites: Seq<u128>,
    now: i64,
) -> bool {
    let s = after[after.len() - 1];
    let t = filter_outcome(p.filter_type@, p.filter_id)->Ok_0;
    let pool = pool_from(cat.questions@, t, filter_key(p.filter_id), p.lang@, favorites, cat.question_categories@, 0);
    &&& after.len() == before.len() + 1
    &&& after.subrange(0, before.len() as int) == before
    &&& s.id == id
    &&& s.user_id == user
    &&& s.filter_type == t
    &&& s.filter_id == p.filter_id
    &&& s.lang@ == p.lang@
    &&& s.filter_hash@ == params_fingerprint(p)
    &&& s.total_questions == p.questions_count
    &&& s.correct_count == 0
    &&& s.status == TestStatus::Active
    &&& s.score_percent is None
    &&& s.created_at == now
    &&& s.completed_at is None
    &&& !s.is_deleted
    &&& s.selections@.len() == 0
    &&& orders(s.slots@) == Seq::new(p.questions_count as nat, |k: int| k + 1)
    &&& forall|k: int| 0 <= k < s.slots@.len() ==> !is_answered(#[trigger] s.slots@[k]) && s.slots@[k].is_correct is None
        && pool.contains(s.slots@[k].question_id)
}

/// The header of a test: everything that no answer and no terminal
/// transition changes.
pub open spec fn same_header(a: TestSession, b: TestSession) -> bool {
    &&& a.id == b.id
    &&& a.user_id == b.user_id
    &&& a.filter_type == b.filter_type
    &&& a.filter_id == b.filter_id
    &&& a.lang@ == b.lang@
    &&& a.filter_hash@ == b.filter_hash@
    &&& a.total_questions == b.total_questions
    &&& a.created_at == b.created_at
    &&& a.is_deleted == b.is_deleted
}

/// The error met when `user` answers question `q` of test `id` with
/// `chosen`, checked in this order: no answer chosen, access, a test that is
/// not active, a question that is not in the test, a slot already answered,
/// a question missing from the catalog.
pub open spec fn answer_error(
    ss: Seq<TestSession>,
    user: u128,
    id: u128,
    q: u128,
    chosen: Seq<u128>,
    cat: Catalog,
) -> Option<ApiError> {
    if chosen.len() == 0 {
        Some(ApiError::ValidationFailed)
    } else {
        match access_error(ss, user, id) {
            Some(e) => Some(e),
            None => {
                let s = ss[session_index(ss, id)->Some_0];
                if s.status != TestStatus::Active {
                    Some(ApiError::InvalidState)
                } else {
                    match slot_index(s.slots@, q) {
                        None => Some(ApiError::NotFound),
                        Some(j) => if is_answered(s.slots@[j]) {
                            Some(ApiError::Conflict)
                        } else if question_index(cat.questions@, q) is None {
                            Some(ApiError::NotFound)
                        } else {
                            None
                        },
                    }
                }
            },
        }
    }
}

/// The slots of `s` once question `q` is answered at `now`, graded `ok`.
pub open spec fn slots_after_answer(s: TestSession, q: u128, ok: bool, now: i64) -> Seq<QuestionSlot> {
    let j = slot_index(s.slots@, q)->Some_0;
    s.slots@.update(
        j,
        QuestionSlot { question_id: q, order: s.slots@[j].order, is_correct: Some(ok), answered_at: Some(now) },
    )
}

/// Test `after` is test `before` once question `q` is answered at `now` with
/// `chosen`, graded `ok`: the slot is marked, the choices are recorded, the
/// correct count grows by one when the answer is correct, and the test
/// completes, with its score over all questions, when no slot is left open.
pub open spec fn answered_state(
    before: TestSession,
    after: TestSession,
    q: u128,
    chosen: Seq<u128>,
    ok: bool,
    now: i64,
) -> bool {
    let slots = slots_after_answer(before, q, ok, now);
    let correct = before.correct_count + if ok {
        1int
    } else {
        0int
    };
    &&& same_header(before, after)
    &&& after.slots@ == slots
    &&& after.selections@ == before.selections@ + selection_rows(q, chosen)
    &&& after.correct_count == correct
    &&& if all_answered(slots) {
        &&& after.status == TestStatus::Completed
        &&& after.score_percent == Some(completion_score(correct, before.total_questions as int) as i16)
        &&& after.completed_at == Some(now)
    } else {
        &&& after.status == TestStatus::Active
        &&& after.score_percent is None
        &&& after.completed_at is None
    }
}

/// The error met when `user` reads the next question of test `id`: access,
/// a test that is not active, no open slot left, a question missing from the
/// catalog.
pub open spec fn current_error(ss: Seq<TestSession>, user: u128, id: u128, cat: Catalog) -> Option<ApiError> {
    match abandon_error(ss, user, id) {
        Some(e) => Some(e),
        None => {
            let s = ss[session_index(ss, id)->Some_0];
            match next_open(s.slots@) {
                None => Some(ApiError::NotFound),
                Some(j) => if question_index(cat.questions@, s.slots@[j].question_id) is None {
                    Some(ApiError::NotFound)
                } else {
                    None
                },
            }
        },
    }
}

/// The error met when `user` reviews test `id`: access, a test that is still
/// active, a question of the test missing from the catalog.
pub open spec fn review_error(ss: Seq<TestSession>, user: u128, id: u128, cat: Catalog) -> Option<ApiError> {
    match access_error(ss, user, id) {
        Some(e) => Some(e),
        None => {
            let s = ss[session_index(ss, id)->Some_0];
            if s.status == TestStatus::Active {
                Some(ApiError::InvalidState)
            } else if exists|m: int|
                0 <= m < s.slots@.len() && question_index(cat.questions@, (#[trigger] s.slots@[m]).question_id) is None {
                Some(ApiError::NotFound)
            } else {
                None
            }
        },
    }
}

/// A review entry shows slot `slot` of test `s` in full: the question with
/// its explanation, every answer option with its correctness, the answers the
/// user chose, and whether the slot was answered correctly.
pub open spec fn review_entry(e: ReviewQuestionResponse, s: TestSession, slot: QuestionSlot, cat: Catalog) -> bool {
    let q = cat.questions@[question_index(cat.questions@, slot.question_id)->Some_0];
    let opts = answers_of(cat.answers@, slot.question_id);
    &&& e.order == slot.order
    &&& e.question.id == q.id
    &&& e.question.name@ == q.name@
    &&& same_opt_text(e.question.content, q.content)
    &&& e.question.lang@ == q.lang@
    &&& e.question.explanation@ == q.explanation@
    &&& e.answers@.len() == opts.len()
    &&& forall|a: int| 0 <= a < opts.len() ==> #[trigger] shows_graded(e.answers@[a], opts[a])
    &&& e.selected_answer_ids@ == chosen_for(s.selections@, slot.question_id)
    &&& e.is_correct == (slot.is_correct == Some(true))
}

/// A listing entry summarizes test `s`.
pub open spec fn summarizes(r: TestResponse, s: TestSession) -> bool {
    &&& r.id == s.id
    &&& r.filter_type@ == filter_tag(s.filter_type)
    &&& r.filter_id == s.filter_id
    &&& r.lang@ == s.lang@
    &&& r.total_questions == s.total_questions
    &&& r.answered_count == answered_count(s.slots@)
    &&& r.correct_count == s.correct_count
    &&& r.status@ == status_tag(s.status)
    &&& r.score_percent == s.score_percent
    &&& r.created_at == s.created_at
    &&& r.completed_at == s.completed_at
}

/// Whether a listing for `user` shows test `s`: it is the user's, not
/// deleted, has status `only` when one is given, and is finished when
/// `finished` asks for it.
pub open spec fn shown(s: TestSession, user: u128, only: Option<TestStatus>, finished: bool) -> bool {
    &&& s.user_id == user
    &&& !s.is_deleted
    &&& (only matches Some(st) ==> s.status == st)
    &&& (finished ==> s.status != TestStatus::Active)
}

/// The order key of a listing: the creation time, or, for a listing of
/// finished tests, the end time.
pub open spec fn listing_key(s: TestSession, finished: bool) -> int {
    if finished {
        match s.completed_at {
            Some(t) => t as int,
            None => 0,
        }
    } else {
        s.created_at as int
    }
}

/// Whether `idx` holds the positions of the tests that a listing shows, each
/// exactly once, ordered by the listing key, latest first.
pub open spec fn is_listing(
    ss: Seq<TestSession>,
    user: u128,
    only: Option<TestStatus>,
    finished: bool,
    idx: Seq<int>,
) -> bool {
    &&& forall|m: int| 0 <= m < idx.len() ==> 0 <= #[trigger] idx[m] < ss.len() && shown(ss[idx[m]], user, only, finished)
    &&& idx.no_duplicates()
    &&& forall|j: int| 0 <= j < ss.len() && #[trigger] shown(ss[j], user, only, finished) ==> idx.contains(j)
    &&& forall|a: int, b: int|
        0 <= a < b < idx.len() ==> listing_key(ss[#[trigger] idx[a]], finished) >= listing_key(ss[#[trigger] idx[b]], finished)
}

/// The error met when `user` abandons test `id`: access, then a test that is
/// not active.
pub open spec fn abandon_error(ss: Seq<TestSession>, user: u128, id: u128) -> Option<ApiError> {
    match access_error(ss, user, id) {
        Some(e) => Some(e),
        None => if ss[session_index(ss, id)->Some_0].status != TestStatus::Active {
            Some(ApiError::InvalidState)
        } else {
            None
        },
    }
}

/// Test `after` is test `before` abandoned at `now`: nothing changes but the
/// status, the end time and the score over the answered questions.
pub open spec fn abandoned_state(before: TestSession, after: TestSession, now: i64) -> bool {
    &&& same_header(before, after)
    &&& after.slots@ == before.slots@
    &&& after.selections@ == before.selections@
    &&& after.correct_count == before.correct_count
    &&& after.status == TestStatus::Abandoned
    &&& after.score_percent == Some(
        abandon_score(before.correct_count as int, answered_count(before.slots@)) as i16,
    )
    &&& after.completed_at == Some(now)
}

/// The outcome of creating test `id` at `now`: the error of
/// [`create_error`] with nothing stored, or the new test stored and
/// summarized.
pub open spec fn create_post(
    before: Seq<TestSession>,
    after: Seq<TestSession>,
    id: u128,
    user: u128,
    p: CreateTestParams,
    cat: Catalog,
    favorites: Seq<u128>,
    now: i64,
    r: Result<TestResponse, ApiError>,
) -> bool {
    match create_error(before, id, user, p, cat, favorites) {
        Some(e) => r == Err::<TestResponse, ApiError>(e) && after == before,
        None => {
            &&& created(before, after, id, user, p, cat, favorites, now)
            &&& r matches Ok(resp) && summarizes(resp, after[after.len() - 1])
        },
    }
}

/// The outcome of answering at `now`: the error of [`answer_error`] with
/// nothing changed, or the answered test and the result of the answer.
pub open spec fn answer_post(
    before: Seq<TestSession>,
    after: Seq<TestSession>,
    user: u128,
    id: u128,
    p: AnswerParams,
    cat: Catalog,
    now: i64,
    r: Result<AnswerResultResponse, ApiError>,
) -> bool {
    match answer_error(before, user, id, p.question_id, p.answer_ids@, cat) {
        Some(e) => r == Err::<AnswerResultResponse, ApiError>(e) && after == before,
        None => {
            let k = session_index(before, id)->Some_0;
            let q = p.question_id;
            let correct = correct_ids_of(cat.answers@, q);
            let ok = answer_is_correct(p.answer_ids@, correct);
            let s = after[k];
            &&& after == before.update(k, s)
            &&& answered_state(before[k], s, q, p.answer_ids@, ok, now)
            &&& r matches Ok(res) && res.is_correct == ok && res.correct_answer_ids@ == correct
                && res.explanation@ == cat.questions@[question_index(cat.questions@, q)->Some_0].explanation@
                && res.test_completed == (s.status == TestStatus::Completed) && res.answered_count
                == answered_count(s.slots@) && res.correct_count == s.correct_count && res.score_percent
                == s.score_percent
        },
    }
}

/// The outcome of abandoning at `now`: the error of [`abandon_error`] with
/// nothing changed, or the abandoned test and its final counts.
pub open spec fn abandon_post(
    before: Seq<TestSession>,
    after: Seq<TestSession>,
    user: u128,
    id: u128,
    now: i64,
    r: Result<CompleteTestResponse, ApiError>,
) -> bool {
    match abandon_error(before, user, id) {
        Some(e) => r == Err::<CompleteTestResponse, ApiError>(e) && after == before,
        None => {
            let k = session_index(before, id)->Some_0;
            let s = after[k];
            &&& after == before.update(k, s)
            &&& abandoned_state(before[k], s, now)
            &&& r matches Ok(res) && res.status@ == status_tag(TestStatus::Abandoned) && res.answered_count
                == answered_count(s.slots@) && res.correct_count == s.correct_count && Some(res.score_percent)
                == s.score_percent
        },
    }
}

/// Relies on `chrono::Utc::now`: the current time, in microseconds since the
/// Unix epoch. Nothing is promised of its value.
#[verifier::external_body]
fn now_micros() -> (r: i64) {
    chrono::Utc::now().timestamp_micros()
}

/// Relies on `uuid::Uuid::new_v4`: a random identifier, read as its 128-bit
/// value. Nothing is promised of its value.
#[verifier::external_body]
fn random_id() -> (r: u128) {
    uuid::Uuid::new_v4().as_u128()
}

/// Relies on rand's `SliceRandom::shuffle` over `thread_rng`: it only swaps
/// items, so the result is a permutation of its input.
#[verifier::external_body]
fn shuffle_ids(ids: Vec<u128>) -> (r: Vec<u128>)
    ensures
        r@.to_multiset() == ids@.to_multiset(),
{
    let mut v = ids;
    v.shuffle(&mut rand::thread_rng());
    v
}

/// Slots that nobody has answered count neither as answered nor as correct.
proof fn lemma_fresh_counts(s: Seq<QuestionSlot>, i: int)
    requires
        0 <= i <= s.len(),
        forall|k: int| 0 <= k < s.len() ==> (#[trigger] s[k]).answered_at is None && s[k].is_correct is None,
    ensures
        answered_from(s, i) == 0,
        scored_from(s, i) == 0,
    decreases s.len() - i,
{
    if i < s.len() {
        lemma_fresh_counts(s, i + 1);
    }
}

/// `order` lists, each once and latest key first, the positions below `i`
/// of the tests that a listing shows.
pub open spec fn listing_prefix(
    ss: Seq<TestSession>,
    user: u128,
    only: Option<TestStatus>,
    finished: bool,
    order: Seq<usize>,
    i: int,
) -> bool {
    &&& forall|m: int| 0 <= m < order.len() ==> #[trigger] order[m] < i && shown(ss[order[m] as int], user, only, finished)
    &&& order.no_duplicates()
    &&& forall|j: int| 0 <= j < i && #[trigger] shown(ss[j], user, only, finished) ==> order.contains(j as usize)
    &&& forall|a: int, b: int|
        0 <= a < b < order.len() ==> listing_key(ss[#[trigger] order[a] as int], finished) >= listing_key(
            ss[#[trigger] order[b] as int],
            finished,
        )
}

/// Inserting a shown position `i` where the keys stop being at least its own
/// extends a listing prefix by one position.
proof fn lemma_listing_insert(
    ss: Seq<TestSession>,
    user: u128,
    only: Option<TestStatus>,
    finished: bool,
    old_order: Seq<usize>,
    i: usize,
    p: int,
)
    requires
        listing_prefix(ss, user, only, finished, old_order, i as int),
        i < ss.len(),
        shown(ss[i as int], user, only, finished),
        0 <= p <= old_order.len(),
        forall|m: int| 0 <= m < p ==> listing_key(ss[#[trigger] old_order[m] as int], finished) >= listing_key(ss[i as int], finished),
        p < old_order.len() ==> listing_key(ss[old_order[p] as int], finished) < listing_key(ss[i as int], finished),
    ensures
        listing_prefix(ss, user, only, finished, old_order.insert(p, i), i + 1),
{
    let n = old_order.insert(p, i);
    let ki = listing_key(ss[i as int], finished);
    assert forall|m: int| p <= m < old_order.len() implies listing_key(ss[#[trigger] old_order[m] as int], finished) < ki by {
        if m > p {
            assert(listing_key(ss[old_order[p] as int], finished) >= listing_key(ss[old_order[m] as int], finished));
        }
    }
    assert(n.len() == old_order.len() + 1);
    assert forall|m: int| 0 <= m < n.len() implies (m < p ==> n[m] == old_order[m]) && (m == p ==> n[m] == i) && (m > p
        ==> n[m] == old_order[m - 1]) by {}
    assert forall|m: int| 0 <= m < n.len() implies #[trigger] n[m] < i + 1 && shown(ss[n[m] as int], user, only, finished) by {
        if m > p {
            assert(n[m] == old_order[m - 1]);
        } else if m < p {
            assert(n[m] == old_order[m]);
        }
    }
    assert forall|a: int, b: int| 0 <= a < n.len() && 0 <= b < n.len() && a != b implies n[a] != n[b] by {
        let a1 = if a < p { a } else { a - 1 };
        let b1 = if b < p { b } else { b - 1 };
        if a != p && b != p {
            assert(n[a] == old_order[a1]);
            assert(n[b] == old_order[b1]);
        } else if a == p {
            assert(n[b] == old_order[b1]);
        } else {
            assert(n[a] == old_order[a1]);
        }
    }
    assert forall|j: int| 0 <= j < i + 1 && #[trigger] shown(ss[j], user, only, finished) implies n.contains(j as usize) by {
        if j < i {
            assert(old_order.contains(j as usize));
            let m = choose|m: int| 0 <= m < old_order.len() && old_order[m] == j as usize;
            if m < p {
                assert(n[m] == j as usize);
            } else {
                assert(n[m + 1] == j as usize);
            }
        } else {
            assert(n[p] == j as usize);
        }
    }
    assert forall|a: int, b: int| 0 <= a < b < n.len() implies listing_key(ss[#[trigger] n[a] as int], finished) >= listing_key(
        ss[#[trigger] n[b] as int],
        finished,
    ) by {
        let a1 = if a < p { a } else { a - 1 };
        let b1 = if b < p { b } else { b - 1 };
        if a != p && b != p {
            assert(n[a] == old_order[a1]);
            assert(n[b] == old_order[b1]);
        } else if a == p {
            assert(n[b] == old_order[b1]);
        } else {
            assert(n[a] == old_order[a1]);
        }
    }
}

impl SessionStore {
    /// The store invariant.
    pub open spec fn wf(&self) -> bool {
        store_wf(self@)
    }

    /// An empty store.
    pub fn new() -> (r: SessionStore)
        ensures
            r@.len() == 0,
            r.wf(),
    {
        SessionStore { sessions: Vec::new() }
    }

    /// All tests, deleted ones included, in the order they were created.
    pub fn sessions(&self) -> (r: &Vec<TestSession>)
        ensures
            r@ == self@,
    {
        &self.sessions
    }

    /// The position of the live test with identifier `id`.
    fn locate(&self, id: u128) -> (r: Option<usize>)
        ensures
            r matches Some(k) ==> session_index(self@, id) == Some(k as int) && k < self@.len()
                && self@[k as int].id == id,
            r is None ==> session_index(self@, id) is None,
    {
        let ss = &self.sessions;
        let mut i: usize = 0;
        while i < ss.len()
            invariant
                i <= ss.len(),
                ss@ == self@,
                session_index(ss@, id) == session_index_from(ss@, id, i as int),
            decreases ss.len() - i,
        {
            if ss[i].id == id && !ss[i].is_deleted {
                assert(session_index_from(ss@, id, i as int) == Some(i as int));
                return Some(i);
            }
            assert(session_index_from(ss@, id, i as int) == session_index_from(ss@, id, i + 1));
            i = i + 1;
        }
        assert(session_index_from(ss@, id, i as int) is None);
        None
    }

    /// The position of test `id` when `user` may act on it.
    fn authorize(&self, user: u128, id: u128) -> (r: Result<usize, ApiError>)
        ensures
            match access_error(self@, user, id) {
                Some(e) => r == Err::<usize, ApiError>(e),
                None => r matches Ok(k) && session_index(self@, id) == Some(k as int) && k < self@.len(),
            },
    {
        match self.locate(id) {
            None => Err(ApiError::NotFound),
            Some(k) => {
                if self.sessions[k].user_id != user {
                    Err(ApiError::Forbidden)
                } else {
                    Ok(k)
                }
            },
        }
    }

    /// Whether `user` has an active, undeleted test with fingerprint `fp`.
    fn active_with(&self, user: u128, fp: &String) -> (r: bool)
        ensures
            r == has_active(self@, user, fp@),
    {
        let ss = &self.sessions;
        let mut i: usize = 0;
        while i < ss.len()
            invariant
                i <= ss.len(),
                ss@ == self@,
                forall|k: int|
                    0 <= k < i ==> !((#[trigger] ss@[k]).user_id == user && !ss@[k].is_deleted && ss@[k].status
                        == TestStatus::Active && ss@[k].filter_hash@ == fp@),
            decreases ss.len() - i,
        {
            let s = &ss[i];
            if s.user_id == user && !s.is_deleted && s.status == TestStatus::Active && s.filter_hash == *fp {
                assert(ss@[i as int].user_id == user);
                return true;
            }
            i = i + 1;
        }
        false
    }

    /// Whether some test has identifier `id`.
    fn id_in_use(&self, id: u128) -> (r: bool)
        ensures
            r == id_taken(self@, id),
    {
        let ss = &self.sessions;
        let mut i: usize = 0;
        while i < ss.len()
            invariant
                i <= ss.len(),
                ss@ == self@,
                forall|k: int| 0 <= k < i ==> (#[trigger] ss@[k]).id != id,
            decreases ss.len() - i,
        {
            if ss[i].id == id {
                assert(ss@[i as int].id == id);
                return true;
            }
            i = i + 1;
        }
        false
    }

    /// Checks a request for test `id`: the errors of [`create_error`], or
    /// the filter type, the fingerprint and the pool of the request.
    fn admit_request(
        &self,
        id: u128,
        user_id: u128,
        params: &CreateTestParams,
        catalog: &Catalog,
        favorites: &Vec<u128>,
    ) -> (r: Result<(FilterType, String, Vec<u128>), ApiError>)
        requires
            catalog.wf(),
        ensures
            match create_error(self@, id, user_id, *params, *catalog, favorites@) {
                Some(e) => r == Err::<(FilterType, String, Vec<u128>), ApiError>(e),
                None => r matches Ok((t, hash, pool)) && t == filter_outcome(params.filter_type@, params.filter_id)->Ok_0
                    && hash@ == params_fingerprint(*params) && pool@ == request_pool(*params, *catalog, favorites@)
                    && pool@.no_duplicates(),
            },
    {
        params.validate()?;
        let t = resolve_filter(params.filter_type.as_str(), params.filter_id)?;
        let hash = generate_filter_hash(params.filter_type.as_str(), params.filter_id, params.lang.as_str());
        if self.active_with(user_id, &hash) {
            return Err(ApiError::AlreadyExists);
        }
        let pool = catalog.question_pool(t, params.filter_id, params.lang.as_str(), favorites)?;
        let count = params.questions_count as usize;
        if pool.len() < count {
            return Err(ApiError::InvalidInput);
        }
        if self.id_in_use(id) {
            return Err(ApiError::DuplicateEntry);
        }
        proof {
            lemma_pool_from(
                catalog.questions@,
                t,
                filter_key(params.filter_id),
                params.lang@,
                favorites@,
                catalog.question_categories@,
                0,
            );
        }
        Ok((t, hash, pool))
    }

    /// Stores a new active test whose questions are the first ones of
    /// `draw`, an order of the request's pool.
    fn start_test(
        &mut self,
        id: u128,
        user_id: u128,
        params: &CreateTestParams,
        catalog: &Catalog,
        favorites: &Vec<u128>,
        t: FilterType,
        hash: String,
        draw: &Vec<u128>,
        now: i64,
    ) -> (r: TestResponse)
        requires
            old(self).wf(),
            create_error(old(self)@, id, user_id, *params, *catalog, favorites@) is None,
            t == filter_outcome(params.filter_type@, params.filter_id)->Ok_0,
            hash@ == params_fingerprint(*params),
            is_pool_order(draw@, request_pool(*params, *catalog, favorites@)),
        ensures
            final(self).wf(),
            created(old(self)@, final(self)@, id, user_id, *params, *catalog, favorites@, now),
            final(self)@[final(self)@.len() - 1].slots@ == fresh_slots(draw@.subrange(0, params.questions_count as int)),
            summarizes(r, final(self)@[final(self)@.len() - 1]),
    {
        let count = params.questions_count as usize;
        let ghost pool = request_pool(*params, *catalog, favorites@);
        let sampled = sample_questions(draw, count);
        let slots = build_slots(&sampled);
        proof {
            assert forall|k: int| 0 <= k < sampled@.len() implies pool.contains(#[trigger] sampled@[k]) by {
                assert(sampled@[k] == draw@[k]);
            }
            lemma_fresh_counts(slots@, 0);
        }
        let session = TestSession {
            id,
            user_id,
            filter_type: t,
            filter_id: params.filter_id,
            lang: params.lang.clone(),
            filter_hash: hash,
            total_questions: params.questions_count,
            correct_count: 0,
            status: TestStatus::Active,
            score_percent: None,
            created_at: now,
            completed_at: None,
            is_deleted: false,
            slots,
            selections: Vec::new(),
        };
        proof {
            assert(!is_answered(session.slots@[0]));
            assert(session.wf());
        }
        let ghost before = self@;
        self.sessions.push(session);
        proof {
            assert(self@.subrange(0, before.len() as int) =~= before);
            assert forall|k: int| 0 <= k < self@.len() implies (#[trigger] self@[k]).wf() by {
                if k < before.len() {
                    assert(self@[k] == before[k]);
                }
            }
        }
        TestResponse {
            id,
            filter_type: String::from_str(t.as_str()),
            filter_id: params.filter_id,
            lang: params.lang.clone(),
            total_questions: params.questions_count,
            answered_count: 0,
            correct_count: 0,
            status: String::from_str(TestStatus::Active.as_str()),
            score_percent: None,
            created_at: now,
            completed_at: None,
        }
    }

    /// Creates a test for `user`: checks the request, refuses a second active
    /// test with the same fingerprint, draws the requested number of distinct
    /// questions from the pool at random, and stores the test with one
    /// unanswered slot per question. On any error nothing is stored.
    pub fn create_test_at(
        &mut self,
        id: u128,
        user_id: u128,
        params: &CreateTestParams,
        catalog: &Catalog,
        favorites: &Vec<u128>,
        now: i64,
    ) -> (r: Result<TestResponse, ApiError>)
        requires
            old(self).wf(),
            catalog.wf(),
        ensures
            final(self).wf(),
            create_post(old(self)@, final(self)@, id, user_id, *params, *catalog, favorites@, now, r),
    {
        let (t, hash, pool) = self.admit_request(id, user_id, params, catalog, favorites)?;
        let shuffled = shuffle_ids(pool);
        proof {
            pool@.lemma_multiset_has_no_duplicates();
            shuffled@.to_multiset_ensures();
            pool@.to_multiset_ensures();
            shuffled@.lemma_multiset_has_no_duplicates_conv();
            assert forall|k: int| 0 <= k < shuffled@.len() implies pool@.contains(#[trigger] shuffled@[k]) by {
                let x = shuffled@[k];
                assert(shuffled@.contains(x));
                assert(shuffled@.to_multiset().count(x) > 0);
                assert(pool@.to_multiset().count(x) > 0);
            }
        }
        Ok(self.start_test(id, user_id, params, catalog, favorites, t, hash, &shuffled, now))
    }

    /// Creates a test exactly as [`SessionStore::create_test_at`] does, but
    /// with the draw given: `draw` is an order of the request's pool (for
    /// instance one that a seeded source produced), and the test holds its
    /// first `questions_count` questions, in that order.
    pub fn create_test_drawn(
        &mut self,
        id: u128,
        user_id: u128,
        params: &CreateTestParams,
        catalog: &Catalog,
        favorites: &Vec<u128>,
        now: i64,
        draw: &Vec<u128>,
    ) -> (r: Result<TestResponse, ApiError>)
        requires
            old(self).wf(),
            catalog.wf(),
            create_error(old(self)@, id, user_id, *params, *catalog, favorites@) is None ==> is_pool_order(
                draw@,
                request_pool(*params, *catalog, favorites@),
            ),
        ensures
            final(self).wf(),
            create_post(old(self)@, final(self)@, id, user_id, *params, *catalog, favorites@, now, r),
            r is Ok ==> final(self)@[final(self)@.len() - 1].slots@ == fresh_slots(
                draw@.subrange(0, params.questions_count as int),
            ),
    {
        let (t, hash, _pool) = self.admit_request(id, user_id, params, catalog, favorites)?;
        Ok(self.start_test(id, user_id, params, catalog, favorites, t, hash, draw, now))
    }

    /// Scores one answer: the chosen answers are recorded, the slot is marked
    /// correct exactly when the chosen set equals the question's correct set,
    /// and the test completes when this was its last open slot. A slot is
    /// scored at most once: a second submission for it is a Conflict and
    /// changes nothing.
    pub fn answer_question_at(
        &mut self,
        user_id: u128,
        test_id: u128,
        params: &AnswerParams,
        catalog: &Catalog,
        now: i64,
    ) -> (r: Result<AnswerResultResponse, ApiError>)
        requires
            old(self).wf(),
        ensures
            final(self).wf(),
            answer_post(old(self)@, final(self)@, user_id, test_id, *params, *catalog, now, r),
    {
        params.validate()?;
        let k = self.authorize(user_id, test_id)?;
        if self.sessions[k].status != TestStatus::Active {
            return Err(ApiError::InvalidState);
        }
        let q = params.question_id;
        let j = match find_slot(&self.sessions[k].slots, q) {
            None => return Err(ApiError::NotFound),
            Some(j) => j,
        };
        if self.sessions[k].slots[j].answered_at.is_some() {
            return Err(ApiError::Conflict);
        }
        let qi = match catalog.find_question(q) {
            None => return Err(ApiError::NotFound),
            Some(i) => i,
        };
        let correct_ids = catalog.correct_answer_ids(q);
        let ok = grade_answer(&params.answer_ids, &correct_ids);
        let ghost before = self@;
        let ghost old_s = self@[k as int];
        proof {
            assert(old_s.wf());
        }
        let mut s = self.sessions.remove(k);
        let slot = QuestionSlot { question_id: q, order: s.slots[j].order, is_correct: Some(ok), answered_at: Some(now) };
        s.slots.set(j, slot);
        let mut rows = selection_rows_for(q, &params.answer_ids);
        s.selections.append(&mut rows);
        proof {
            lemma_answer_counts(old_s.slots@, j as int, slot, 0);
            lemma_answered_bounds(old_s.slots@, 0);
            lemma_answered_bounds(s.slots@, 0);
        }
        if ok {
            s.correct_count = s.correct_count + 1;
        }
        let answered = count_answered(&s.slots);
        let completed = answered == s.total_questions;
        if completed {
            let score = ((s.correct_count as u32) * 100 / (s.total_questions as u32)) as i16;
            s.status = TestStatus::Completed;
            s.score_percent = Some(score);
            s.completed_at = Some(now);
        }
        proof {
            assert(s.slots@ == slots_after_answer(old_s, q, ok, now));
            assert forall|m: int| 0 <= m < s.slots@.len() implies ((#[trigger] s.slots@[m]).answered_at is Some
                <==> s.slots@[m].is_correct is Some) by {
                if m != j {
                    assert(s.slots@[m] == old_s.slots@[m]);
                }
            }
            assert forall|m: int| 0 <= m < s.slots@.len() implies (#[trigger] s.slots@[m]).order == m + 1 by {
                if m != j {
                    assert(s.slots@[m] == old_s.slots@[m]);
                }
            }
            assert forall|a: int, b: int| 0 <= a < s.slots@.len() && 0 <= b < s.slots@.len() && a != b implies s.slots@[a].question_id
                != s.slots@[b].question_id by {
                assert(old_s.slots@[a].question_id != old_s.slots@[b].question_id);
            }
            assert(s.wf());
        }
        let is_completed = s.status == TestStatus::Completed;
        let correct_count = s.correct_count;
        let score_percent = s.score_percent;
        self.sessions.insert(k, s);
        proof {
            assert(self@ =~= before.update(k as int, self@[k as int]));
            assert forall|m: int| 0 <= m < self@.len() implies (#[trigger] self@[m]).wf() by {
                if m != k {
                    assert(self@[m] == before[m]);
                }
            }
        }
        Ok(
            AnswerResultResponse {
                is_correct: ok,
                correct_answer_ids: correct_ids,
                explanation: catalog.questions[qi].explanation.clone(),
                test_completed: is_completed,
                answered_count: answered,
                correct_count,
                score_percent,
            },
        )
    }

    /// Abandons an active test: it becomes Abandoned, scored over the
    /// answered questions only (zero when none was answered).
    pub fn complete_test_at(&mut self, user_id: u128, test_id: u128, now: i64) -> (r: Result<
        CompleteTestResponse,
        ApiError,
    >)
        requires
            old(self).wf(),
        ensures
            final(self).wf(),
            abandon_post(old(self)@, final(self)@, user_id, test_id, now, r),
    {
        let k = self.authorize(user_id, test_id)?;
        if self.sessions[k].status != TestStatus::Active {
            return Err(ApiError::InvalidState);
        }
        let ghost before = self@;
        let ghost old_s = self@[k as int];
        proof {
            assert(old_s.wf());
            lemma_answered_bounds(old_s.slots@, 0);
        }
        let mut s = self.sessions.remove(k);
        let answered = count_answered(&s.slots);
        let score: i16 = if answered > 0 {
            ((s.correct_count as u32) * 100 / (answered as u32)) as i16
        } else {
            0
        };
        s.status = TestStatus::Abandoned;
        s.score_percent = Some(score);
        s.completed_at = Some(now);
        let correct_count = s.correct_count;
        proof {
            assert(s.wf());
        }
        self.sessions.insert(k, s);
        proof {
            assert(self@ =~= before.update(k as int, self@[k as int]));
            assert forall|m: int| 0 <= m < self@.len() implies (#[trigger] self@[m]).wf() by {
                if m != k {
                    assert(self@[m] == before[m]);
                }
            }
        }
        Ok(
            CompleteTestResponse {
                status: String::from_str(TestStatus::Abandoned.as_str()),
                answered_count: answered,
                correct_count,
                score_percent: score,
            },
        )
    }

    /// Creates a test for `user` under a fresh random identifier, stamped
    /// with the current time; see [`SessionStore::create_test_at`].
    pub fn create_test(&mut self, user_id: u128, params: &CreateTestParams, catalog: &Catalog, favorites: &Vec<u128>) -> (r:
        Result<TestResponse, ApiError>)
        requires
            old(self).wf(),
            catalog.wf(),
        ensures
            final(self).wf(),
            exists|id: u128, now: i64|
                create_post(old(self)@, final(self)@, id, user_id, *params, *catalog, favorites@, now, r),
    {
        let id = random_id();
        let now = now_micros();
        let r = self.create_test_at(id, user_id, params, catalog, favorites, now);
        assert(create_post(old(self)@, self@, id, user_id, *params, *catalog, favorites@, now, r));
        r
    }

    /// Scores one answer at the current time; see
    /// [`SessionStore::answer_question_at`].
    pub fn answer_question(&mut self, user_id: u128, test_id: u128, params: &AnswerParams, catalog: &Catalog) -> (r:
        Result<AnswerResultResponse, ApiError>)
        requires
            old(self).wf(),
        ensures
            final(self).wf(),
            exists|now: i64| answer_post(old(self)@, final(self)@, user_id, test_id, *params, *catalog, now, r),
    {
        let now = now_micros();
        let r = self.answer_question_at(user_id, test_id, params, catalog, now);
        assert(answer_post(old(self)@, self@, user_id, test_id, *params, *catalog, now, r));
        r
    }

    /// Abandons a test at the current time; see
    /// [`SessionStore::complete_test_at`].
    pub fn complete_test(&mut self, user_id: u128, test_id: u128) -> (r: Result<CompleteTestResponse, ApiError>)
        requires
            old(self).wf(),
        ensures
            final(self).wf(),
            exists|now: i64| abandon_post(old(self)@, final(self)@, user_id, test_id, now, r),
    {
        let now = now_micros();
        let r = self.complete_test_at(user_id, test_id, now);
        assert(abandon_post(old(self)@, self@, user_id, test_id, now, r));
        r
    }

    /// The next question to answer: the open slot with the lowest order, its
    /// question without the explanation, and its answer options without
    /// their correctness.
    pub fn get_current_question(&self, user_id: u128, test_id: u128, catalog: &Catalog) -> (r: Result<
        CurrentQuestionResponse,
        ApiError,
    >)
        requires
            self.wf(),
        ensures
            match current_error(self@, user_id, test_id, *catalog) {
                Some(e) => r == Err::<CurrentQuestionResponse, ApiError>(e),
                None => {
                    let s = self@[session_index(self@, test_id)->Some_0];
                    let slot = s.slots@[next_open(s.slots@)->Some_0];
                    let q = catalog.questions@[question_index(catalog.questions@, slot.question_id)->Some_0];
                    let opts = answers_of(catalog.answers@, slot.question_id);
                    r matches Ok(c) && c.order == slot.order && c.question.id == q.id && c.question.name@
                        == q.name@ && same_opt_text(c.question.content, q.content) && c.question.lang@
                        == q.lang@ && c.answers@.len() == opts.len() && (forall|a: int|
                        0 <= a < opts.len() ==> #[trigger] shows(c.answers@[a], opts[a]))
                        && c.multiple_answers == (correct_ids_of(catalog.answers@, slot.question_id).len() > 1)
                },
            },
    {
        let k = self.authorize(user_id, test_id)?;
        let s = &self.sessions[k];
        if s.status != TestStatus::Active {
            return Err(ApiError::InvalidState);
        }
        let j = match next_open_slot(&s.slots) {
            None => return Err(ApiError::NotFound),
            Some(j) => j,
        };
        let slot = s.slots[j];
        let qi = match catalog.find_question(slot.question_id) {
            None => return Err(ApiError::NotFound),
            Some(i) => i,
        };
        let q = &catalog.questions[qi];
        let correct = catalog.correct_answer_ids(slot.question_id);
        Ok(
            CurrentQuestionResponse {
                order: slot.order,
                question: QuestionInfo {
                    id: q.id,
                    name: q.name.clone(),
                    content: copy_opt_text(&q.content),
                    lang: q.lang.clone(),
                },
                answers: catalog.answer_options(slot.question_id),
                multiple_answers: correct.len() > 1,
            },
        )
    }

    /// The full review of a finished test: every slot in order, with its
    /// question and explanation, all answer options with their correctness,
    /// the answers chosen, and whether it was answered correctly. An active
    /// test cannot be reviewed.
    pub fn review(&self, user_id: u128, test_id: u128, catalog: &Catalog) -> (r: Result<TestReviewResponse, ApiError>)
        requires
            self.wf(),
        ensures
            match review_error(self@, user_id, test_id, *catalog) {
                Some(e) => r == Err::<TestReviewResponse, ApiError>(e),
                None => {
                    let s = self@[session_index(self@, test_id)->Some_0];
                    r matches Ok(rev) && rev.id == s.id && rev.filter_type@ == filter_tag(s.filter_type)
                        && rev.filter_id == s.filter_id && rev.lang@ == s.lang@ && rev.total_questions
                        == s.total_questions && rev.correct_count == s.correct_count && rev.status@
                        == status_tag(s.status) && Some(rev.score_percent) == s.score_percent
                        && rev.questions@.len() == s.slots@.len() && forall|m: int|
                        0 <= m < s.slots@.len() ==> #[trigger] review_entry(rev.questions@[m], s, s.slots@[m], *catalog)
                },
            },
    {
        let k = self.authorize(user_id, test_id)?;
        let s = &self.sessions[k];
        if s.status == TestStatus::Active {
            return Err(ApiError::InvalidState);
        }
        let ghost sv = self@[k as int];
        proof {
            assert(sv.wf());
        }
        let mut entries: Vec<ReviewQuestionResponse> = Vec::new();
        let mut m: usize = 0;
        while m < s.slots.len()
            invariant
                m <= s.slots@.len(),
                *s == sv,
                sv == self@[session_index(self@, test_id)->Some_0],
                access_error(self@, user_id, test_id) is None,
                sv.status != TestStatus::Active,
                entries@.len() == m,
                forall|p: int| 0 <= p < m ==> question_index(catalog.questions@, (#[trigger] sv.slots@[p]).question_id) is Some,
                forall|p: int| 0 <= p < m ==> #[trigger] review_entry(entries@[p], sv, sv.slots@[p], *catalog),
            decreases s.slots@.len() - m,
        {
            let slot = s.slots[m];
            let qi = match catalog.find_question(slot.question_id) {
                None => {
                    assert(question_index(catalog.questions@, sv.slots@[m as int].question_id) is None);
                    assert(self@[session_index(self@, test_id)->Some_0] == sv);
                    assert(exists|p: int|
                        0 <= p < sv.slots@.len() && question_index(catalog.questions@, (#[trigger] sv.slots@[p]).question_id)
                            is None);
                    return Err(ApiError::NotFound);
                },
                Some(i) => i,
            };
            let q = &catalog.questions[qi];
            let entry = ReviewQuestionResponse {
                order: slot.order,
                question: QuestionInfoWithExplanation {
                    id: q.id,
                    name: q.name.clone(),
                    content: copy_opt_text(&q.content),
                    lang: q.lang.clone(),
                    explanation: q.explanation.clone(),
                },
                answers: catalog.answer_options_with_correctness(slot.question_id),
                selected_answer_ids: chosen_answers(&s.selections, slot.question_id),
                is_correct: match slot.is_correct {
                    Some(b) => b,
                    None => false,
                },
            };
            entries.push(entry);
            proof {
                assert forall|p: int| 0 <= p < m + 1 implies #[trigger] review_entry(entries@[p], sv, sv.slots@[p], *catalog) by {
                    if p == m {
                        assert(entries@[p] == entry);
                    }
                }
            }
            m = m + 1;
        }
        let score = match s.score_percent {
            Some(v) => v,
            None => 0,
        };
        Ok(
            TestReviewResponse {
                id: s.id,
                filter_type: String::from_str(s.filter_type.as_str()),
                filter_id: s.filter_id,
                lang: s.lang.clone(),
                total_questions: s.total_questions,
                correct_count: s.correct_count,
                score_percent: score,
                status: String::from_str(s.status.as_str()),
                questions: entries,
            },
        )
    }

    /// Marks a test deleted; it disappears from every later read, whatever
    /// its status.
    pub fn delete(&mut self, user_id: u128, test_id: u128) -> (r: Result<(), ApiError>)
        requires
            old(self).wf(),
        ensures
            final(self).wf(),
            match access_error(old(self)@, user_id, test_id) {
                Some(e) => r == Err::<(), ApiError>(e) && final(self)@ == old(self)@,
                None => {
                    let k = session_index(old(self)@, test_id)->Some_0;
                    let before = old(self)@[k];
                    let after = final(self)@[k];
                    &&& r is Ok
                    &&& final(self)@ == old(self)@.update(k, after)
                    &&& after.is_deleted
                    &&& after.id == before.id && after.user_id == before.user_id && after.status == before.status
                    &&& after.slots@ == before.slots@ && after.selections@ == before.selections@
                    &&& after.correct_count == before.correct_count && after.score_percent == before.score_percent
                },
            },
    {
        let k = self.authorize(user_id, test_id)?;
        let ghost before = self@;
        proof {
            assert(before[k as int].wf());
        }
        let mut s = self.sessions.remove(k);
        s.is_deleted = true;
        self.sessions.insert(k, s);
        proof {
            assert(self@ =~= before.update(k as int, self@[k as int]));
            assert forall|m: int| 0 <= m < self@.len() implies (#[trigger] self@[m]).wf() by {
                if m != k {
                    assert(self@[m] == before[m]);
                }
            }
        }
        Ok(())
    }

    /// A test with the state of each of its slots.
    pub fn get(&self, user_id: u128, test_id: u128) -> (r: Result<TestDetailResponse, ApiError>)
        requires
            self.wf(),
        ensures
            match access_error(self@, user_id, test_id) {
                Some(e) => r == Err::<TestDetailResponse, ApiError>(e),
                None => {
                    let s = self@[session_index(self@, test_id)->Some_0];
                    r matches Ok(d) && d.id == s.id && d.filter_type@ == filter_tag(s.filter_type)
                        && d.filter_id == s.filter_id && d.lang@ == s.lang@ && d.total_questions
                        == s.total_questions && d.answered_count == answered_count(s.slots@)
                        && d.correct_count == s.correct_count && d.status@ == status_tag(s.status)
                        && d.score_percent == s.score_percent && d.questions@.len() == s.slots@.len()
                        && forall|m: int| 0 <= m < s.slots@.len() ==> #[trigger] d.questions@[m] == (TestQuestionInfo {
                            order: s.slots@[m].order,
                            question_id: s.slots@[m].question_id,
                            is_answered: is_answered(s.slots@[m]),
                            is_correct: s.slots@[m].is_correct,
                        })
                },
            },
    {
        let k = self.authorize(user_id, test_id)?;
        let s = &self.sessions[k];
        let ghost sv = self@[k as int];
        proof {
            assert(sv.wf());
        }
        let mut infos: Vec<TestQuestionInfo> = Vec::new();
        let mut m: usize = 0;
        while m < s.slots.len()
            invariant
                m <= s.slots@.len(),
                *s == sv,
                infos@.len() == m,
                forall|p: int| 0 <= p < m ==> #[trigger] infos@[p] == (TestQuestionInfo {
                    order: sv.slots@[p].order,
                    question_id: sv.slots@[p].question_id,
                    is_answered: is_answered(sv.slots@[p]),
                    is_correct: sv.slots@[p].is_correct,
                }),
            decreases s.slots@.len() - m,
        {
            let slot = s.slots[m];
            infos.push(
                TestQuestionInfo {
                    order: slot.order,
                    question_id: slot.question_id,
                    is_answered: slot.answered_at.is_some(),
                    is_correct: slot.is_correct,
                },
            );
            m = m + 1;
        }
        Ok(
            TestDetailResponse {
                id: s.id,
                filter_type: String::from_str(s.filter_type.as_str()),
                filter_id: s.filter_id,
                lang: s.lang.clone(),
                total_questions: s.total_questions,
                answered_count: count_answered(&s.slots),
                correct_count: s.correct_count,
                status: String::from_str(s.status.as_str()),
                score_percent: s.score_percent,
                questions: infos,
            },
        )
    }

    /// The order key of a test in a listing.
    fn key_of(s: &TestSession, finished: bool) -> (r: i64)
        ensures
            r as int == listing_key(*s, finished),
    {
        if finished {
            match s.completed_at {
                Some(t) => t,
                None => 0,
            }
        } else {
            s.created_at
        }
    }

    /// The positions of the tests that a listing for `user` shows, latest
    /// key first.
    fn listing_positions(&self, user_id: u128, only: Option<TestStatus>, finished: bool) -> (r: Vec<usize>)
        ensures
            is_listing(self@, user_id, only, finished, r@.map_values(|x: usize| x as int)),
    {
        let ss = &self.sessions;
        let mut order: Vec<usize> = Vec::new();
        let mut i: usize = 0;
        while i < ss.len()
            invariant
                i <= ss@.len(),
                ss@ == self@,
                listing_prefix(ss@, user_id, only, finished, order@, i as int),
            decreases ss@.len() - i,
        {
            let s = &ss[i];
            let show = s.user_id == user_id && !s.is_deleted && match only {
                Some(st) => s.status == st,
                None => true,
            } && (!finished || s.status != TestStatus::Active);
            if show {
                let k = Self::key_of(s, finished);
                let mut p: usize = 0;
                while p < order.len() && Self::key_of(&ss[order[p]], finished) >= k
                    invariant
                        p <= order@.len(),
                        i < ss@.len(),
                        ss@ == self@,
                        k as int == listing_key(ss@[i as int], finished),
                        forall|m: int| 0 <= m < order@.len() ==> #[trigger] order@[m] < i,
                        forall|m: int| 0 <= m < p ==> listing_key(ss@[#[trigger] order@[m] as int], finished) >= k,
                    decreases order@.len() - p,
                {
                    p = p + 1;
                }
                proof {
                    lemma_listing_insert(ss@, user_id, only, finished, order@, i, p as int);
                }
                order.insert(p, i);
            } else {
                proof {
                    let o = order@;
                    assert forall|j: int| 0 <= j < i + 1 && #[trigger] shown(ss@[j], user_id, only, finished) implies o.contains(j as usize) by {
                        if j == i {
                            assert(!shown(ss@[i as int], user_id, only, finished));
                        }
                    }
                }
            }
            i = i + 1;
        }
        proof {
            let idx = order@.map_values(|x: usize| x as int);
            assert forall|a: int, b: int| 0 <= a < idx.len() && 0 <= b < idx.len() && a != b implies idx[a] != idx[b] by {
                assert(order@[a] != order@[b]);
            }
            assert forall|j: int| 0 <= j < ss@.len() && #[trigger] shown(ss@[j], user_id, only, finished) implies idx.contains(j) by {
                let m = choose|m: int| 0 <= m < order@.len() && order@[m] == j as usize;
                assert(idx[m] == j);
            }
            assert forall|a: int, b: int| 0 <= a < b < idx.len() implies listing_key(ss@[#[trigger] idx[a]], finished)
                >= listing_key(ss@[#[trigger] idx[b]], finished) by {
                assert(listing_key(ss@[order@[a] as int], finished) >= listing_key(ss@[order@[b] as int], finished));
            }
        }
        order
    }

    /// The summaries of the tests that a listing for `user` shows, latest
    /// key first.
    fn collect(&self, user_id: u128, only: Option<TestStatus>, finished: bool) -> (r: Vec<TestResponse>)
        requires
            self.wf(),
        ensures
            exists|idx: Seq<int>|
                is_listing(self@, user_id, only, finished, idx) && idx.len() == r@.len() && forall|m: int|
                    0 <= m < r@.len() ==> #[trigger] summarizes(r@[m], self@[idx[m]]),
    {
        let order = self.listing_positions(user_id, only, finished);
        let ghost idx = order@.map_values(|x: usize| x as int);
        let ss = &self.sessions;
        let mut out: Vec<TestResponse> = Vec::new();
        let mut m: usize = 0;
        while m < order.len()
            invariant
                m <= order@.len(),
                ss@ == self@,
                store_wf(ss@),
                is_listing(ss@, user_id, only, finished, idx),
                idx == order@.map_values(|x: usize| x as int),
                out@.len() == m,
                forall|q: int| 0 <= q < m ==> #[trigger] summarizes(out@[q], ss@[idx[q]]),
            decreases order@.len() - m,
        {
            let k = order[m];
            proof {
                assert(idx[m as int] == k as int);
                assert(ss@[k as int].wf());
            }
            let s = &ss[k];
            out.push(TestResponse::from_model(s, count_answered(&s.slots)));
            m = m + 1;
        }
        out
    }

    /// The user's tests, latest created first, optionally only those with
    /// one status.
    pub fn list(&self, user_id: u128, status: Option<TestStatus>) -> (r: Vec<TestResponse>)
        requires
            self.wf(),
        ensures
            exists|idx: Seq<int>|
                is_listing(self@, user_id, status, false, idx) && idx.len() == r@.len() && forall|m: int|
                    0 <= m < r@.len() ==> #[trigger] summarizes(r@[m], self@[idx[m]]),
    {
        self.collect(user_id, status, false)
    }

    /// The user's finished tests (completed or abandoned), latest finished
    /// first.
    pub fn history(&self, user_id: u128) -> (r: Vec<TestResponse>)
        requires
            self.wf(),
        ensures
            exists|idx: Seq<int>|
                is_listing(self@, user_id, None, true, idx) && idx.len() == r@.len() && forall|m: int|
                    0 <= m < r@.len() ==> #[trigger] summarizes(r@[m], self@[idx[m]]),
    {
        self.collect(user_id, None, true)
    }
}

impl TestResponse {
    /// The summary of a test, with the number of its answered slots.
    pub fn from_model(model: &TestSession, answered_count: i16) -> (r: TestResponse)
        ensures
            r.id == model.id,
            r.filter_type@ == filter_tag(model.filter_type),
            r.filter_id == model.filter_id,
            r.lang@ == model.lang@,
            r.total_questions == model.total_questions,
            r.answered_count == answered_count,
            r.correct_count == model.correct_count,
            r.status@ == status_tag(model.status),
            r.score_percent == model.score_percent,
            r.created_at == model.created_at,
            r.completed_at == model.completed_at,
    {
        TestResponse {
            id: model.id,
            filter_type: String::from_str(model.filter_type.as_str()),
            filter_id: model.filter_id,
            lang: model.lang.clone(),
            total_questions: model.total_questions,
            answered_count,
            correct_count: model.correct_count,
            status: String::from_str(model.status.as_str()),
            score_percent: model.score_percent,
            created_at: model.created_at,
            completed_at: model.completed_at,
        }
    }
}

} // verus!
