use vstd::prelude::*;
use vstd::string::*;

use crate::error::ApiError;
use crate::filter::{filter_tag, fingerprint, FilterType};
use crate::text::same_text;

verus! {

/// The most questions a test may hold.
pub const MAX_QUESTIONS: i16 = 25;

/// Where a test stands. Completed and Abandoned are terminal.
#[derive(Clone, Copy, Debug, PartialEq, Eq, Structural)]
pub enum TestStatus {
    Active,
    Completed,
    Abandoned,
}

/// The name of a status as it is written in requests and responses.
pub open spec fn status_tag(s: TestStatus) -> Seq<char> {
    match s {
        TestStatus::Active => "active"@,
        TestStatus::Completed => "completed"@,
        TestStatus::Abandoned => "abandoned"@,
    }
}

/// The status that a name stands for, if any.
pub open spec fn status_named(s: Seq<char>) -> Option<TestStatus> {
    if s == "active"@ {
        Some(TestStatus::Active)
    } else if s == "completed"@ {
        Some(TestStatus::Completed)
    } else if s == "abandoned"@ {
        Some(TestStatus::Abandoned)
    } else {
        None
    }
}

impl TestStatus {
    /// The name of this status.
    pub fn as_str(&self) -> (r: &'static str)
        ensures
            r@ == status_tag(*self),
    {
        match self {
            TestStatus::Active => "active",
            TestStatus::Completed => "completed",
            TestStatus::Abandoned => "abandoned",
        }
    }

    /// Reads a status from its name; any other name is an invalid field value.
    pub fn parse(s: &str) -> (r: Result<TestStatus, ApiError>)
        ensures
            r == (match status_named(s@) {
                Some(t) => Ok(t),
                None => Err(ApiError::InvalidFieldValue),
            }),
    {
        if same_text(s, "active") {
            Ok(TestStatus::Active)
        } else if same_text(s, "completed") {
            Ok(TestStatus::Completed)
        } else if same_text(s, "abandoned") {
            Ok(TestStatus::Abandoned)
        } else {
            Err(ApiError::InvalidFieldValue)
        }
    }
}

/// One question position of a test, with its own answer state.
#[derive(Clone, Copy, Debug, PartialEq, Eq, Structural)]
pub struct QuestionSlot {
    pub question_id: u128,
    /// 1-based position in the test.
    pub order: i16,
    /// Set, together with `answered_at`, when the slot is answered.
    pub is_correct: Option<bool>,
    pub answered_at: Option<i64>,
}

/// One answer that the user chose for a question of a test.
#[derive(Clone, Copy, Debug, PartialEq, Eq, Structural)]
pub struct SelectedAnswer {
    pub question_id: u128,
    pub answer_id: u128,
}

/// One test taken by one user.
pub struct TestSession {
    pub id: u128,
    pub user_id: u128,
    pub filter_type: FilterType,
    pub filter_id: Option<u128>,
    pub lang: String,
    pub filter_hash: String,
    pub total_questions: i16,
    pub correct_count: i16,
    pub status: TestStatus,
    pub score_percent: Option<i16>,
    pub created_at: i64,
    pub completed_at: Option<i64>,
    pub is_deleted: bool,
    /// The slots, in order: the slot at position `k` has order `k + 1`.
    pub slots: Vec<QuestionSlot>,
    /// Every answer chosen so far, in the order submitted.
    pub selections: Vec<SelectedAnswer>,
}

/// Whether a slot has been answered.
pub open spec fn is_answered(s: QuestionSlot) -> bool {
    s.answered_at is Some
}

/// Whether a slot has been answered correctly.
pub open spec fn is_scored(s: QuestionSlot) -> bool {
    s.is_correct == Some(true)
}

/// The number of answered slots from position `i` on.
pub open spec fn answered_from(s: Seq<QuestionSlot>, i: int) -> int
    decreases s.len() - i,
{
    if i < 0 || i >= s.len() {
        0
    } else {
        (if is_answered(s[i]) {
            1int
        } else {
            0int
        }) + answered_from(s, i + 1)
    }
}

/// The number of correctly answered slots from position `i` on.
pub open spec fn scored_from(s: Seq<QuestionSlot>, i: int) -> int
    decreases s.len() - i,
{
    if i < 0 || i >= s.len() {
        0
    } else {
        (if is_scored(s[i]) {
            1int
        } else {
            0int
        }) + scored_from(s, i + 1)
    }
}

/// The number of answered slots.
pub open spec fn answered_count(s: Seq<QuestionSlot>) -> int {
    answered_from(s, 0)
}

/// The number of correctly answered slots.
pub open spec fn scored_count(s: Seq<QuestionSlot>) -> int {
    scored_from(s, 0)
}

/// Every slot has been answered.
pub open spec fn all_answered(s: Seq<QuestionSlot>) -> bool {
    forall|k: int| 0 <= k < s.len() ==> #[trigger] is_answered(s[k])
}

/// The score of a test that ran to its end: the share of correct answers
/// among all questions, in percent, rounded down.
pub open spec fn completion_score(correct: int, total: int) -> int {
    correct * 100 / total
}

/// The score of an abandoned test: the share of correct answers among the
/// answered questions, in percent, rounded down; zero when none was answered.
pub open spec fn abandon_score(correct: int, answered: int) -> int {
    if answered > 0 {
        correct * 100 / answered
    } else {
        0
    }
}

/// A submission is correct exactly when the chosen answers, as a set, are the
/// correct answers of the question.
pub open spec fn answer_is_correct(chosen: Seq<u128>, correct: Seq<u128>) -> bool {
    chosen.to_set() == correct.to_set()
}

/// The slots of a fresh test over the given questions, in the given order.
pub open spec fn fresh_slots(ids: Seq<u128>) -> Seq<QuestionSlot> {
    Seq::new(
        ids.len(),
        |k: int| QuestionSlot { question_id: ids[k], order: (k + 1) as i16, is_correct: None, answered_at: None },
    )
}

/// The orders of the slots, in slot order.
pub open spec fn orders(s: Seq<QuestionSlot>) -> Seq<int> {
    s.map_values(|x: QuestionSlot| x.order as int)
}

/// The first position from `i` on of the slot for question `q`.
pub open spec fn slot_index_from(s: Seq<QuestionSlot>, q: u128, i: int) -> Option<int>
    decreases s.len() - i,
{
    if i < 0 || i >= s.len() {
        None
    } else if s[i].question_id == q {
        Some(i)
    } else {
        slot_index_from(s, q, i + 1)
    }
}

/// The position of the slot for question `q`.
pub open spec fn slot_index(s: Seq<QuestionSlot>, q: u128) -> Option<int> {
    slot_index_from(s, q, 0)
}

/// The first position from `i` on of an unanswered slot.
pub open spec fn next_open_from(s: Seq<QuestionSlot>, i: int) -> Option<int>
    decreases s.len() - i,
{
    if i < 0 || i >= s.len() {
        None
    } else if !is_answered(s[i]) {
        Some(i)
    } else {
        next_open_from(s, i + 1)
    }
}

/// The position of the unanswered slot with the lowest order.
pub open spec fn next_open(s: Seq<QuestionSlot>) -> Option<int> {
    next_open_from(s, 0)
}

/// The answers chosen for question `q`, from position `i` on, in the order
/// submitted.
pub open spec fn chosen_from(sel: Seq<SelectedAnswer>, q: u128, i: int) -> Seq<u128>
    decreases sel.len() - i,
{
    if i < 0 || i >= sel.len() {
        Seq::empty()
    } else if sel[i].question_id == q {
        seq![sel[i].answer_id] + chosen_from(sel, q, i + 1)
    } else {
        chosen_from(sel, q, i + 1)
    }
}

/// The answers chosen for question `q`, in the order submitted.
pub open spec fn chosen_for(sel: Seq<SelectedAnswer>, q: u128) -> Seq<u128> {
    chosen_from(sel, q, 0)
}

/// The records that one submission appends.
pub open spec fn selection_rows(q: u128, ids: Seq<u128>) -> Seq<SelectedAnswer> {
    ids.map_values(|a: u128| SelectedAnswer { question_id: q, answer_id: a })
}

impl TestSession {
    /// The invariant of a test: its slots are numbered 1 to `total_questions`
    /// and hold distinct questions, each slot's answer fields are set
    /// together, the counters agree with the slots, the status agrees with
    /// the answered slots, the score and the end time, and the fingerprint is that of the
    /// filter.
    pub open spec fn wf(&self) -> bool {
        let s = self.slots@;
        &&& 1 <= self.total_questions <= MAX_QUESTIONS
        &&& s.len() == self.total_questions
        &&& forall|k: int| 0 <= k < s.len() ==> (#[trigger] s[k]).order == k + 1
        &&& forall|k: int| 0 <= k < s.len() ==> ((#[trigger] s[k]).answered_at is Some <==> s[k].is_correct is Some)
        &&& forall|a: int, b: int| 0 <= a < s.len() && 0 <= b < s.len() && a != b ==> s[a].question_id != s[b].question_id
        &&& self.correct_count == scored_count(s)
        &&& (self.status == TestStatus::Active ==> self.score_percent is None && self.completed_at is None
            && !all_answered(s))
        &&& (self.status != TestStatus::Active ==> self.completed_at is Some)
        &&& (self.status == TestStatus::Completed ==> all_answered(s) && self.score_percent == Some(
            completion_score(self.correct_count as int, self.total_questions as int) as i16,
        ))
        &&& (self.status == TestStatus::Abandoned ==> self.score_percent == Some(
            abandon_score(self.correct_count as int, answered_count(s)) as i16,
        ))
        &&& self.filter_hash@ == fingerprint(filter_tag(self.filter_type), self.filter_id, self.lang@)
    }
}

/// Counting answered slots from `i` on gives at most the number of slots
/// there, and exactly that number when all of them are answered.
pub proof fn lemma_answered_bounds(s: Seq<QuestionSlot>, i: int)
    requires
        0 <= i <= s.len(),
    ensures
        0 <= scored_from(s, i) <= s.len() - i,
        0 <= answered_from(s, i) <= s.len() - i,
        answered_from(s, i) == s.len() - i <==> forall|k: int| i <= k < s.len() ==> #[trigger] is_answered(s[k]),
    decreases s.len() - i,
{
    if i < s.len() {
        lemma_answered_bounds(s, i + 1);
        if answered_from(s, i) == s.len() - i {
            assert forall|k: int| i <= k < s.len() implies #[trigger] is_answered(s[k]) by {
                if k > i {
                }
            }
        }
    }
}

/// Answering slot `j` raises the answered count by one and the correct count
/// by one exactly when the new answer is correct.
pub proof fn lemma_answer_counts(s: Seq<QuestionSlot>, j: int, x: QuestionSlot, i: int)
    requires
        0 <= j < s.len(),
        0 <= i <= s.len(),
        !is_answered(s[j]),
        !is_scored(s[j]),
        is_answered(x),
    ensures
        answered_from(s.update(j, x), i) == answered_from(s, i) + (if i <= j {
            1int
        } else {
            0int
        }),
        scored_from(s.update(j, x), i) == scored_from(s, i) + (if i <= j && is_scored(x) {
            1int
        } else {
            0int
        }),
    decreases s.len() - i,
{
    if i < s.len() {
        lemma_answer_counts(s, j, x, i + 1);
    }
}

/// Parameters of a new test.
pub struct CreateTestParams {
    /// "favorites", "category" or "topic".
    pub filter_type: String,
    /// Required for "category" and "topic".
    pub filter_id: Option<u128>,
    pub lang: String,
    /// Between 1 and 25.
    pub questions_count: i16,
}

/// Field limits of a new test's parameters: a filter type of 1 to 50
/// characters, a language of 2 to 10 characters, 1 to 25 questions.
pub open spec fn params_valid(p: CreateTestParams) -> bool {
    &&& 1 <= p.filter_type@.len() <= 50
    &&& 2 <= p.lang@.len() <= 10
    &&& 1 <= p.questions_count <= MAX_QUESTIONS
}

impl CreateTestParams {
    /// Checks the field limits; a violation is a failed validation.
    pub fn validate(&self) -> (r: Result<(), ApiError>)
        ensures
            r is Ok <==> params_valid(*self),
            r is Err ==> r == Err::<(), ApiError>(ApiError::ValidationFailed),
    {
        let n = self.filter_type.as_str().unicode_len();
        let m = self.lang.as_str().unicode_len();
        if n < 1 || n > 50 || m < 2 || m > 10 || self.questions_count < 1 || self.questions_count
            > MAX_QUESTIONS {
            Err(ApiError::ValidationFailed)
        } else {
            Ok(())
        }
    }
}

/// Parameters of one submitted answer.
pub struct AnswerParams {
    pub question_id: u128,
    /// At least one.
    pub answer_ids: Vec<u128>,
}

impl AnswerParams {
    /// Checks that at least one answer was chosen.
    pub fn validate(&self) -> (r: Result<(), ApiError>)
        ensures
            r is Ok <==> self.answer_ids@.len() > 0,
            r is Err ==> r == Err::<(), ApiError>(ApiError::ValidationFailed),
    {
        if self.answer_ids.len() == 0 {
            Err(ApiError::ValidationFailed)
        } else {
            Ok(())
        }
    }
}

/// Whether every element of `a` is in `b`.
fn all_within(a: &Vec<u128>, b: &Vec<u128>) -> (r: bool)
    ensures
        r == (forall|x: u128| a@.contains(x) ==> b@.contains(x)),
{
    let mut i: usize = 0;
    while i < a.len()
        invariant
            i <= a.len(),
            forall|k: int| 0 <= k < i ==> b@.contains(#[trigger] a@[k]),
        decreases a.len() - i,
    {
        if !crate::catalog::contains_id(b, a[i]) {
            assert(a@.contains(a@[i as int]));
            return false;
        }
        i = i + 1;
    }
    assert forall|x: u128| a@.contains(x) implies b@.contains(x) by {
        let k = choose|k: int| 0 <= k < a@.len() && a@[k] == x;
        assert(b@.contains(a@[k]));
    }
    true
}

/// Exact-match scoring: the chosen answers are correct when, as sets, they
/// are the correct answers; a subset or a superset is wrong.
pub fn grade_answer(chosen: &Vec<u128>, correct: &Vec<u128>) -> (r: bool)
    ensures
        r == answer_is_correct(chosen@, correct@),
{
    let r = all_within(chosen, correct) && all_within(correct, chosen);
    if r {
        assert(chosen@.to_set() =~= correct@.to_set());
    } else {
        proof {
            if chosen@.to_set() == correct@.to_set() {
                assert forall|x: u128| chosen@.contains(x) implies correct@.contains(x) by {
                    assert(chosen@.to_set().contains(x));
                }
                assert forall|x: u128| correct@.contains(x) implies chosen@.contains(x) by {
                    assert(correct@.to_set().contains(x));
                }
            }
        }
    }
    r
}

/// The questions of a new test: the first `count` of an already shuffled
/// pool.
pub fn sample_questions(shuffled: &Vec<u128>, count: usize) -> (r: Vec<u128>)
    requires
        count <= shuffled@.len(),
    ensures
        r@ == shuffled@.subrange(0, count as int),
{
    let mut out: Vec<u128> = Vec::new();
    let mut i: usize = 0;
    while i < count
        invariant
            i <= count,
            count <= shuffled@.len(),
            out@ == shuffled@.subrange(0, i as int),
        decreases count - i,
    {
        out.push(shuffled[i]);
        assert(shuffled@.subrange(0, i + 1) =~= shuffled@.subrange(0, i as int).push(shuffled@[i as int]));
        i = i + 1;
    }
    out
}

/// The slots of a new test: one per question, numbered from 1 in the given
/// order, none answered.
pub fn build_slots(ids: &Vec<u128>) -> (r: Vec<QuestionSlot>)
    requires
        ids@.len() <= MAX_QUESTIONS,
    ensures
        r@ == fresh_slots(ids@),
        orders(r@) == Seq::new(ids@.len(), |k: int| k + 1),
{
    let mut out: Vec<QuestionSlot> = Vec::new();
    let mut i: usize = 0;
    while i < ids.len()
        invariant
            i <= ids@.len() <= MAX_QUESTIONS,
            out@ == fresh_slots(ids@).subrange(0, i as int),
        decreases ids.len() - i,
    {
        let slot = QuestionSlot { question_id: ids[i], order: (i + 1) as i16, is_correct: None, answered_at: None };
        out.push(slot);
        assert(out@ =~= fresh_slots(ids@).subrange(0, i + 1));
        i = i + 1;
    }
    assert(out@ =~= fresh_slots(ids@));
    assert(orders(out@) =~= Seq::new(ids@.len(), |k: int| k + 1));
    out
}

/// The position of the slot for question `q`.
pub fn find_slot(slots: &Vec<QuestionSlot>, q: u128) -> (r: Option<usize>)
    ensures
        r matches Some(j) ==> slot_index(slots@, q) == Some(j as int) && j < slots@.len()
            && slots@[j as int].question_id == q,
        r is None ==> slot_index(slots@, q) is None,
{
    let mut i: usize = 0;
    while i < slots.len()
        invariant
            i <= slots.len(),
            slot_index(slots@, q) == slot_index_from(slots@, q, i as int),
        decreases slots.len() - i,
    {
        if slots[i].question_id == q {
            assert(slot_index_from(slots@, q, i as int) == Some(i as int));
            return Some(i);
        }
        assert(slot_index_from(slots@, q, i as int) == slot_index_from(slots@, q, i + 1));
        i = i + 1;
    }
    assert(slot_index_from(slots@, q, i as int) is None);
    None
}

/// The position of the unanswered slot with the lowest order.
pub fn next_open_slot(slots: &Vec<QuestionSlot>) -> (r: Option<usize>)
    ensures
        r matches Some(j) ==> next_open(slots@) == Some(j as int) && j < slots@.len(),
        r is None ==> next_open(slots@) is None,
{
    let mut i: usize = 0;
    while i < slots.len()
        invariant
            i <= slots.len(),
            next_open(slots@) == next_open_from(slots@, i as int),
        decreases slots.len() - i,
    {
        if slots[i].answered_at.is_none() {
            assert(next_open_from(slots@, i as int) == Some(i as int));
            return Some(i);
        }
        assert(next_open_from(slots@, i as int) == next_open_from(slots@, i + 1));
        i = i + 1;
    }
    assert(next_open_from(slots@, i as int) is None);
    None
}

/// The number of answered slots.
pub fn count_answered(slots: &Vec<QuestionSlot>) -> (r: i16)
    requires
        slots@.len() <= MAX_QUESTIONS,
    ensures
        r == answered_count(slots@),
{
    let n = slots.len();
    let mut c: i16 = 0;
    let mut i: usize = n;
    proof {
        lemma_answered_bounds(slots@, 0);
    }
    while i > 0
        invariant
            i <= n == slots@.len() <= MAX_QUESTIONS,
            c == answered_from(slots@, i as int),
            0 <= c <= n - i,
        decreases i,
    {
        i = i - 1;
        if slots[i].answered_at.is_some() {
            c = c + 1;
        }
    }
    c
}

/// The records that one submission of `ids` for question `q` appends.
pub fn selection_rows_for(q: u128, ids: &Vec<u128>) -> (r: Vec<SelectedAnswer>)
    ensures
        r@ == selection_rows(q, ids@),
{
    let mut out: Vec<SelectedAnswer> = Vec::new();
    let mut i: usize = 0;
    while i < ids.len()
        invariant
            i <= ids.len(),
            out@ == selection_rows(q, ids@.subrange(0, i as int)),
        decreases ids.len() - i,
    {
        out.push(SelectedAnswer { question_id: q, answer_id: ids[i] });
        assert(out@ =~= selection_rows(q, ids@.subrange(0, i + 1)));
        i = i + 1;
    }
    assert(ids@.subrange(0, ids@.len() as int) =~= ids@);
    out
}

/// The answers chosen for question `q`, in the order submitted.
pub fn chosen_answers(sel: &Vec<SelectedAnswer>, q: u128) -> (r: Vec<u128>)
    ensures
        r@ == chosen_for(sel@, q),
{
    let mut out: Vec<u128> = Vec::new();
    let mut i: usize = 0;
    while i < sel.len()
        invariant
            i <= sel.len(),
            out@ + chosen_from(sel@, q, i as int) == chosen_for(sel@, q),
        decreases sel.len() - i,
    {
        let ghost rest = chosen_from(sel@, q, i + 1);
        if sel[i].question_id == q {
            assert(out@.push(sel@[i as int].answer_id) + rest =~= out@ + (seq![sel@[i as int].answer_id] + rest));
            out.push(sel[i].answer_id);
        }
        i = i + 1;
    }
    assert(out@ + Seq::<u128>::empty() =~= out@);
    out
}

} // verus!
