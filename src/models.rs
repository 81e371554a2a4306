use vstd::prelude::*;

use crate::catalog::{AnswerOption, AnswerOptionWithCorrectness};

verus! {

/// Language selection of a content query.
pub struct LangQuery {
    pub lang: String,
}

/// Status filter of a listing.
pub struct TestsQuery {
    pub status: Option<String>,
}

/// A test as it is listed.
pub struct TestResponse {
    pub id: u128,
    pub filter_type: String,
    pub filter_id: Option<u128>,
    pub lang: String,
    pub total_questions: i16,
    pub answered_count: i16,
    pub correct_count: i16,
    pub status: String,
    pub score_percent: Option<i16>,
    pub created_at: i64,
    pub completed_at: Option<i64>,
}

/// One slot of a test as its detail view shows it.
#[derive(Clone, Copy, Debug, PartialEq, Eq, Structural)]
pub struct TestQuestionInfo {
    pub order: i16,
    pub question_id: u128,
    pub is_answered: bool,
    pub is_correct: Option<bool>,
}

/// A test with the state of each of its slots.
pub struct TestDetailResponse {
    pub id: u128,
    pub filter_type: String,
    pub filter_id: Option<u128>,
    pub lang: String,
    pub total_questions: i16,
    pub answered_count: i16,
    pub correct_count: i16,
    pub status: String,
    pub score_percent: Option<i16>,
    pub questions: Vec<TestQuestionInfo>,
}

/// A question as it is shown while a test runs: without its explanation.
pub struct QuestionInfo {
    pub id: u128,
    pub name: String,
    pub content: Option<String>,
    pub lang: String,
}

/// A question as it is shown in a review: with its explanation.
pub struct QuestionInfoWithExplanation {
    pub id: u128,
    pub name: String,
    pub content: Option<String>,
    pub lang: String,
    pub explanation: String,
}

/// The next question to answer.
pub struct CurrentQuestionResponse {
    pub order: i16,
    pub question: QuestionInfo,
    pub answers: Vec<AnswerOption>,
    /// More than one answer option is correct.
    pub multiple_answers: bool,
}

/// The outcome of one submitted answer.
pub struct AnswerResultResponse {
    pub is_correct: bool,
    pub correct_answer_ids: Vec<u128>,
    pub explanation: String,
    pub test_completed: bool,
    pub answered_count: i16,
    pub correct_count: i16,
    /// Present when this answer completed the test.
    pub score_percent: Option<i16>,
}

/// The outcome of abandoning a test.
pub struct CompleteTestResponse {
    pub status: String,
    pub answered_count: i16,
    pub correct_count: i16,
    pub score_percent: i16,
}

/// One slot of a finished test, with everything needed to review it.
pub struct ReviewQuestionResponse {
    pub order: i16,
    pub question: QuestionInfoWithExplanation,
    pub answers: Vec<AnswerOptionWithCorrectness>,
    pub selected_answer_ids: Vec<u128>,
    pub is_correct: bool,
}

/// A finished test with all of its slots.
pub struct TestReviewResponse {
    pub id: u128,
    pub filter_type: String,
    pub filter_id: Option<u128>,
    pub lang: String,
    pub total_questions: i16,
    pub correct_count: i16,
    pub score_percent: i16,
    pub status: String,
    pub questions: Vec<ReviewQuestionResponse>,
}

/// Whether two optional texts hold the same text.
pub open spec fn same_opt_text(a: Option<String>, b: Option<String>) -> bool {
    match (a, b) {
        (Some(x), Some(y)) => x@ == y@,
        (None, None) => true,
        _ => false,
    }
}

/// A copy of an optional text.
pub fn copy_opt_text(o: &Option<String>) -> (r: Option<String>)
    ensures
        same_opt_text(r, *o),
{
    match o {
        Some(s) => Some(s.clone()),
        None => None,
    }
}

} // verus!
