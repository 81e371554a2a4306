use quiz_engine::catalog::{Answer, Catalog, Question, QuestionCategory};
use quiz_engine::error::ApiError;
use quiz_engine::filter::{generate_filter_hash, resolve_filter, FilterType};
use quiz_engine::session::{
    build_slots, grade_answer, sample_questions, AnswerParams, CreateTestParams, TestStatus,
};
use quiz_engine::store::SessionStore;

const TOPIC: u128 = 100;
const OTHER_TOPIC: u128 = 200;
const CATEGORY: u128 = 300;
const USER: u128 = 7;
const OTHER_USER: u128 = 8;

fn question(id: u128, topic: u128, lang: &str) -> Question {
    Question {
        id,
        topic_id: topic,
        name: format!("question {}", id),
        content: if id % 2 == 0 { Some(format!("body {}", id)) } else { None },
        lang: lang.to_string(),
        explanation: format!("because {}", id),
    }
}

fn answer(id: u128, question_id: u128, is_correct: bool) -> Answer {
    Answer { id, question_id, value: format!("answer {}", id), is_correct }
}

/// Topic TOPIC holds questions 1 to 5 in "en" and question 6 in "ru";
/// OTHER_TOPIC holds questions 7 to 9 in "en". Question `q` has answers
/// `10q+1` (correct) and `10q+2` (wrong); question 2 also has `23`, correct.
fn catalog() -> Catalog {
    let mut questions = Vec::new();
    for id in 1..=5u128 {
        questions.push(question(id, TOPIC, "en"));
    }
    questions.push(question(6, TOPIC, "ru"));
    for id in 7..=9u128 {
        questions.push(question(id, OTHER_TOPIC, "en"));
    }
    let mut answers = Vec::new();
    for q in 1..=9u128 {
        answers.push(answer(10 * q + 1, q, true));
        answers.push(answer(10 * q + 2, q, false));
    }
    answers.push(answer(23, 2, true));
    Catalog {
        questions,
        answers,
        categories: vec![CATEGORY],
        topics: vec![TOPIC, OTHER_TOPIC],
        question_categories: vec![
            QuestionCategory { question_id: 1, category_id: CATEGORY },
            QuestionCategory { question_id: 7, category_id: CATEGORY },
            QuestionCategory { question_id: 6, category_id: CATEGORY },
        ],
    }
}

fn params(filter_type: &str, filter_id: Option<u128>, lang: &str, count: i16) -> CreateTestParams {
    CreateTestParams {
        filter_type: filter_type.to_string(),
        filter_id,
        lang: lang.to_string(),
        questions_count: count,
    }
}

fn correct_ids(q: u128) -> Vec<u128> {
    if q == 2 { vec![21, 23] } else { vec![10 * q + 1] }
}

fn question_ids(store: &SessionStore, k: usize) -> Vec<u128> {
    store.sessions()[k].slots.iter().map(|s| s.question_id).collect()
}

fn topic_test(store: &mut SessionStore, cat: &Catalog, id: u128, count: i16) {
    let r = store.create_test_at(id, USER, &params("topic", Some(TOPIC), "en", count), cat, &vec![], 1000);
    assert!(r.is_ok());
}

fn submit(store: &mut SessionStore, cat: &Catalog, test: u128, q: u128, ids: Vec<u128>, now: i64)
    -> Result<quiz_engine::models::AnswerResultResponse, ApiError> {
    store.answer_question_at(USER, test, &AnswerParams { question_id: q, answer_ids: ids }, cat, now)
}

#[test]
fn topic_scenario_three_of_five_all_correct() {
    let cat = catalog();
    let mut store = SessionStore::new();
    let resp = store
        .create_test_at(1, USER, &params("topic", Some(TOPIC), "en", 3), &cat, &vec![], 1000)
        .ok()
        .unwrap();
    assert_eq!(resp.id, 1);
    assert_eq!(resp.status, "active");
    assert_eq!(resp.total_questions, 3);
    assert_eq!(resp.answered_count, 0);
    let ids = question_ids(&store, 0);
    assert_eq!(ids.len(), 3);
    for q in &ids {
        assert!((1..=5).contains(q));
    }
    let mut sorted = ids.clone();
    sorted.sort();
    sorted.dedup();
    assert_eq!(sorted.len(), 3);
    for (n, q) in ids.iter().enumerate() {
        let r = submit(&mut store, &cat, 1, *q, correct_ids(*q), 2000 + n as i64).ok().unwrap();
        assert!(r.is_correct);
        assert_eq!(r.answered_count, n as i16 + 1);
        assert_eq!(r.test_completed, n == 2);
    }
    let s = &store.sessions()[0];
    assert_eq!(s.status, TestStatus::Completed);
    assert_eq!(s.correct_count, 3);
    assert_eq!(s.score_percent, Some(100));
    assert_eq!(s.completed_at, Some(2002));
}

#[test]
fn pool_smaller_than_request_is_invalid_input() {
    let cat = catalog();
    let mut store = SessionStore::new();
    let r = store.create_test_at(1, USER, &params("topic", Some(OTHER_TOPIC), "en", 5), &cat, &vec![], 1000);
    assert_eq!(r.err(), Some(ApiError::InvalidInput));
    assert_eq!(store.sessions().len(), 0);
}

#[test]
fn answer_on_completed_test_is_invalid_state() {
    let cat = catalog();
    let mut store = SessionStore::new();
    topic_test(&mut store, &cat, 1, 1);
    let q = question_ids(&store, 0)[0];
    let r = submit(&mut store, &cat, 1, q, vec![10 * q + 2], 2000).ok().unwrap();
    assert!(r.test_completed);
    assert_eq!(r.score_percent, Some(0));
    let r2 = submit(&mut store, &cat, 1, q, correct_ids(q), 3000);
    assert_eq!(r2.err(), Some(ApiError::InvalidState));
    let s = &store.sessions()[0];
    assert_eq!(s.status, TestStatus::Completed);
    assert_eq!(s.correct_count, 0);
    assert_eq!(s.selections.len(), 1);
    assert_eq!(s.slots[0].answered_at, Some(2000));
}

#[test]
fn slot_orders_are_one_to_n() {
    let cat = catalog();
    let mut store = SessionStore::new();
    topic_test(&mut store, &cat, 1, 5);
    let orders: Vec<i16> = store.sessions()[0].slots.iter().map(|s| s.order).collect();
    assert_eq!(orders, vec![1, 2, 3, 4, 5]);
}

#[test]
fn second_active_test_for_same_filter_conflicts() {
    let cat = catalog();
    let mut store = SessionStore::new();
    topic_test(&mut store, &cat, 1, 2);
    let r = store.create_test_at(2, USER, &params("topic", Some(TOPIC), "en", 3), &cat, &vec![], 1500);
    assert_eq!(r.err(), Some(ApiError::AlreadyExists));
    assert_eq!(store.sessions().len(), 1);
    // another user, another language, or another filter is no conflict
    assert!(store.create_test_at(3, OTHER_USER, &params("topic", Some(TOPIC), "en", 3), &cat, &vec![], 1500).is_ok());
    assert!(store.create_test_at(4, USER, &params("topic", Some(TOPIC), "ru", 1), &cat, &vec![], 1500).is_ok());
    assert!(store.create_test_at(5, USER, &params("topic", Some(OTHER_TOPIC), "en", 1), &cat, &vec![], 1500).is_ok());
}

#[test]
fn new_test_allowed_after_abandon_or_delete() {
    let cat = catalog();
    let mut store = SessionStore::new();
    topic_test(&mut store, &cat, 1, 2);
    store.complete_test_at(USER, 1, 1100).ok().unwrap();
    topic_test(&mut store, &cat, 2, 2);
    store.delete(USER, 2).ok().unwrap();
    topic_test(&mut store, &cat, 3, 2);
    assert_eq!(store.sessions().len(), 3);
}

#[test]
fn completion_score_truncates() {
    let cat = catalog();
    let mut store = SessionStore::new();
    topic_test(&mut store, &cat, 1, 3);
    let ids = question_ids(&store, 0);
    submit(&mut store, &cat, 1, ids[0], correct_ids(ids[0]), 2000).ok().unwrap();
    submit(&mut store, &cat, 1, ids[1], correct_ids(ids[1]), 2001).ok().unwrap();
    let r = submit(&mut store, &cat, 1, ids[2], vec![10 * ids[2] + 2], 2002).ok().unwrap();
    assert!(!r.is_correct);
    assert!(r.test_completed);
    assert_eq!(r.correct_count, 2);
    assert_eq!(r.answered_count, 3);
    assert_eq!(r.score_percent, Some(66));
    assert_eq!(store.sessions()[0].status, TestStatus::Completed);
}

#[test]
fn subset_and_superset_are_wrong() {
    assert!(!grade_answer(&vec![21], &vec![21, 23]));
    assert!(!grade_answer(&vec![21, 23, 22], &vec![21, 23]));
    assert!(grade_answer(&vec![23, 21], &vec![21, 23]));
    assert!(grade_answer(&vec![23, 21, 23], &vec![21, 23]));
    assert!(!grade_answer(&vec![22], &vec![21]));
}

#[test]
fn multi_select_submission_exact_match() {
    let cat = catalog();
    let mut store = SessionStore::new();
    topic_test(&mut store, &cat, 1, 5);
    let r = submit(&mut store, &cat, 1, 2, vec![21], 2000).ok().unwrap();
    assert!(!r.is_correct);
    assert_eq!(r.correct_answer_ids, vec![21, 23]);
    assert_eq!(r.explanation, "because 2");
    assert_eq!(r.correct_count, 0);
    let r = submit(&mut store, &cat, 1, 3, vec![31], 2001).ok().unwrap();
    assert!(r.is_correct);
    assert_eq!(r.correct_count, 1);
    assert_eq!(r.score_percent, None);
}

#[test]
fn second_submission_for_slot_conflicts() {
    let cat = catalog();
    let mut store = SessionStore::new();
    topic_test(&mut store, &cat, 1, 3);
    let q = question_ids(&store, 0)[0];
    let first = submit(&mut store, &cat, 1, q, correct_ids(q), 2000);
    let second = submit(&mut store, &cat, 1, q, correct_ids(q), 2001);
    assert!(first.is_ok());
    assert_eq!(second.err(), Some(ApiError::Conflict));
    let s = &store.sessions()[0];
    assert_eq!(s.correct_count, 1);
    assert_eq!(s.selections.len(), correct_ids(q).len());
    assert_eq!(s.slots[0].answered_at, Some(2000));
}

#[test]
fn abandon_scores_over_answered() {
    let cat = catalog();
    let mut store = SessionStore::new();
    topic_test(&mut store, &cat, 1, 4);
    let r = store.complete_test_at(USER, 1, 1500).ok().unwrap();
    assert_eq!(r.status, "abandoned");
    assert_eq!(r.answered_count, 0);
    assert_eq!(r.score_percent, 0);

    topic_test(&mut store, &cat, 2, 5);
    let ids = question_ids(&store, 1);
    submit(&mut store, &cat, 2, ids[0], correct_ids(ids[0]), 2000).ok().unwrap();
    submit(&mut store, &cat, 2, ids[1], correct_ids(ids[1]), 2001).ok().unwrap();
    submit(&mut store, &cat, 2, ids[2], vec![10 * ids[2] + 2], 2002).ok().unwrap();
    let r = store.complete_test_at(USER, 2, 3000).ok().unwrap();
    assert_eq!(r.answered_count, 3);
    assert_eq!(r.correct_count, 2);
    assert_eq!(r.score_percent, 66);
    let s = &store.sessions()[1];
    assert_eq!(s.status, TestStatus::Abandoned);
    assert_eq!(s.completed_at, Some(3000));
    assert_eq!(store.complete_test_at(USER, 2, 3001).err(), Some(ApiError::InvalidState));
}

#[test]
fn review_only_after_terminal_status() {
    let cat = catalog();
    let mut store = SessionStore::new();
    topic_test(&mut store, &cat, 1, 2);
    assert_eq!(store.review(USER, 1, &cat).err(), Some(ApiError::InvalidState));
    let ids = question_ids(&store, 0);
    submit(&mut store, &cat, 1, ids[0], vec![10 * ids[0] + 2, 10 * ids[0] + 1], 2000).ok().unwrap();
    store.complete_test_at(USER, 1, 2500).ok().unwrap();
    let rev = store.review(USER, 1, &cat).ok().unwrap();
    assert_eq!(rev.status, "abandoned");
    assert_eq!(rev.score_percent, 0);
    assert_eq!(rev.filter_type, "topic");
    assert_eq!(rev.questions.len(), 2);
    let first = &rev.questions[0];
    assert_eq!(first.order, 1);
    assert_eq!(first.question.id, ids[0]);
    assert_eq!(first.question.explanation, format!("because {}", ids[0]));
    assert_eq!(first.selected_answer_ids, vec![10 * ids[0] + 2, 10 * ids[0] + 1]);
    assert!(!first.is_correct);
    assert!(first.answers.iter().any(|a| a.id == 10 * ids[0] + 1 && a.is_correct));
    assert!(first.answers.iter().any(|a| a.id == 10 * ids[0] + 2 && !a.is_correct));
    let second = &rev.questions[1];
    assert_eq!(second.order, 2);
    assert!(second.selected_answer_ids.is_empty());
    assert!(!second.is_correct);
    assert_eq!(store.review(OTHER_USER, 1, &cat).err(), Some(ApiError::Forbidden));
}

#[test]
fn current_question_is_lowest_open_slot() {
    let cat = catalog();
    let mut store = SessionStore::new();
    topic_test(&mut store, &cat, 1, 5);
    let ids = question_ids(&store, 0);
    let c = store.get_current_question(USER, 1, &cat).ok().unwrap();
    assert_eq!(c.order, 1);
    assert_eq!(c.question.id, ids[0]);
    submit(&mut store, &cat, 1, ids[0], correct_ids(ids[0]), 2000).ok().unwrap();
    let c = store.get_current_question(USER, 1, &cat).ok().unwrap();
    assert_eq!(c.order, 2);
    assert_eq!(c.question.id, ids[1]);
    assert_eq!(c.question.name, format!("question {}", ids[1]));
    assert_eq!(c.multiple_answers, ids[1] == 2);
    let expected = if ids[1] == 2 { 3 } else { 2 };
    assert_eq!(c.answers.len(), expected);
    assert_eq!(store.get_current_question(OTHER_USER, 1, &cat).err(), Some(ApiError::Forbidden));
    assert_eq!(store.get_current_question(USER, 99, &cat).err(), Some(ApiError::NotFound));
    store.complete_test_at(USER, 1, 3000).ok().unwrap();
    assert_eq!(store.get_current_question(USER, 1, &cat).err(), Some(ApiError::InvalidState));
}

#[test]
fn create_errors() {
    let cat = catalog();
    let mut store = SessionStore::new();
    let none: Vec<u128> = vec![];
    assert_eq!(
        store.create_test_at(1, USER, &params("lesson", Some(TOPIC), "en", 1), &cat, &none, 0).err(),
        Some(ApiError::InvalidFieldValue)
    );
    assert_eq!(
        store.create_test_at(1, USER, &params("topic", None, "en", 1), &cat, &none, 0).err(),
        Some(ApiError::MissingField)
    );
    assert_eq!(
        store.create_test_at(1, USER, &params("category", Some(999), "en", 1), &cat, &none, 0).err(),
        Some(ApiError::NotFound)
    );
    assert_eq!(
        store.create_test_at(1, USER, &params("topic", Some(999), "en", 1), &cat, &none, 0).err(),
        Some(ApiError::NotFound)
    );
    assert_eq!(
        store.create_test_at(1, USER, &params("topic", Some(TOPIC), "en", 0), &cat, &none, 0).err(),
        Some(ApiError::ValidationFailed)
    );
    assert_eq!(
        store.create_test_at(1, USER, &params("topic", Some(TOPIC), "en", 26), &cat, &none, 0).err(),
        Some(ApiError::ValidationFailed)
    );
    assert_eq!(
        store.create_test_at(1, USER, &params("topic", Some(TOPIC), "e", 1), &cat, &none, 0).err(),
        Some(ApiError::ValidationFailed)
    );
    assert_eq!(store.sessions().len(), 0);
    topic_test(&mut store, &cat, 1, 1);
    assert_eq!(
        store.create_test_at(1, USER, &params("topic", Some(OTHER_TOPIC), "en", 1), &cat, &none, 0).err(),
        Some(ApiError::DuplicateEntry)
    );
}

#[test]
fn favorites_and_category_pools() {
    let cat = catalog();
    let mut store = SessionStore::new();
    let favorites = vec![3, 6, 8];
    let r = store.create_test_at(1, USER, &params("favorites", None, "en", 2), &cat, &favorites, 0);
    assert!(r.is_ok());
    let mut ids = question_ids(&store, 0);
    ids.sort();
    assert_eq!(ids, vec![3, 8]);
    let r = store.create_test_at(2, USER, &params("favorites", None, "en", 3), &cat, &favorites, 0);
    assert_eq!(r.err(), Some(ApiError::AlreadyExists));
    let r = store.create_test_at(3, USER, &params("category", Some(CATEGORY), "en", 2), &cat, &vec![], 0);
    assert!(r.is_ok());
    let mut ids = question_ids(&store, 1);
    ids.sort();
    assert_eq!(ids, vec![1, 7]);
    let r = store.create_test_at(4, USER, &params("category", Some(CATEGORY), "ru", 2), &cat, &vec![], 0);
    assert_eq!(r.err(), Some(ApiError::InvalidInput));
}

#[test]
fn answer_errors() {
    let cat = catalog();
    let mut store = SessionStore::new();
    topic_test(&mut store, &cat, 1, 2);
    let q = question_ids(&store, 0)[0];
    assert_eq!(submit(&mut store, &cat, 1, q, vec![], 2000).err(), Some(ApiError::ValidationFailed));
    assert_eq!(submit(&mut store, &cat, 9, q, vec![1], 2000).err(), Some(ApiError::NotFound));
    assert_eq!(submit(&mut store, &cat, 1, 8, vec![81], 2000).err(), Some(ApiError::NotFound));
    let other = store.answer_question_at(OTHER_USER, 1, &AnswerParams { question_id: q, answer_ids: vec![1] }, &cat, 2000);
    assert_eq!(other.err(), Some(ApiError::Forbidden));
    assert_eq!(store.sessions()[0].correct_count, 0);
    assert!(store.sessions()[0].selections.is_empty());
}

#[test]
fn detail_list_history_and_delete() {
    let cat = catalog();
    let mut store = SessionStore::new();
    topic_test(&mut store, &cat, 1, 2);
    let r = store.create_test_at(2, USER, &params("topic", Some(OTHER_TOPIC), "en", 1), &cat, &vec![], 1200);
    assert!(r.is_ok());
    let q = question_ids(&store, 0)[0];
    submit(&mut store, &cat, 1, q, correct_ids(q), 2000).ok().unwrap();
    let d = store.get(USER, 1).ok().unwrap();
    assert_eq!(d.answered_count, 1);
    assert_eq!(d.correct_count, 1);
    assert_eq!(d.questions.len(), 2);
    assert!(d.questions[0].is_answered);
    assert_eq!(d.questions[0].is_correct, Some(true));
    assert!(!d.questions[1].is_answered);
    assert_eq!(d.questions[1].is_correct, None);
    assert_eq!(store.get(OTHER_USER, 1).err(), Some(ApiError::Forbidden));

    let all = store.list(USER, None);
    assert_eq!(all.iter().map(|t| t.id).collect::<Vec<_>>(), vec![2, 1]);
    assert_eq!(all[1].answered_count, 1);
    store.complete_test_at(USER, 2, 3000).ok().unwrap();
    let active = store.list(USER, Some(TestStatus::Active));
    assert_eq!(active.iter().map(|t| t.id).collect::<Vec<_>>(), vec![1]);
    let done = store.history(USER);
    assert_eq!(done.iter().map(|t| t.id).collect::<Vec<_>>(), vec![2]);
    assert_eq!(done[0].status, "abandoned");
    assert!(store.list(OTHER_USER, None).is_empty());

    assert_eq!(store.delete(OTHER_USER, 1).err(), Some(ApiError::Forbidden));
    store.delete(USER, 1).ok().unwrap();
    assert_eq!(store.get(USER, 1).err(), Some(ApiError::NotFound));
    assert_eq!(store.delete(USER, 1).err(), Some(ApiError::NotFound));
    assert_eq!(store.list(USER, None).len(), 1);
}

#[test]
fn random_create_and_clock_entry_points() {
    let cat = catalog();
    let mut store = SessionStore::new();
    let resp = store.create_test(USER, &params("topic", Some(TOPIC), "en", 5), &cat, &vec![]).ok().unwrap();
    let mut ids = question_ids(&store, 0);
    ids.sort();
    assert_eq!(ids, vec![1, 2, 3, 4, 5]);
    let q = store.sessions()[0].slots[0].question_id;
    let r = store.answer_question(USER, resp.id, &AnswerParams { question_id: q, answer_ids: correct_ids(q) }, &cat);
    assert!(r.ok().unwrap().is_correct);
    assert!(store.sessions()[0].slots[0].answered_at.is_some());
    let c = store.complete_test(USER, resp.id).ok().unwrap();
    assert_eq!(c.score_percent, 100);
    assert!(store.sessions()[0].completed_at.is_some());
}

#[test]
fn sampling_from_a_given_order() {
    let shuffled = vec![40, 10, 30, 20];
    let sampled = sample_questions(&shuffled, 3);
    assert_eq!(sampled, vec![40, 10, 30]);
    let slots = build_slots(&sampled);
    assert_eq!(slots.len(), 3);
    assert_eq!(slots[0].question_id, 40);
    assert_eq!(slots[2].order, 3);
    assert!(slots.iter().all(|s| s.is_correct.is_none() && s.answered_at.is_none()));
}

#[test]
fn filter_fingerprints() {
    assert_eq!(generate_filter_hash("favorites", None, "en"), "favorites:en");
    assert_eq!(
        generate_filter_hash("topic", Some(0x123e4567_e89b_12d3_a456_426614174000), "en"),
        "topic:123e4567-e89b-12d3-a456-426614174000:en"
    );
    assert_eq!(
        generate_filter_hash("category", Some(10), "ru"),
        "category:00000000-0000-0000-0000-00000000000a:ru"
    );
    assert_eq!(resolve_filter("topic", Some(1)), Ok(FilterType::Topic));
    assert_eq!(resolve_filter("favorites", None), Ok(FilterType::Favorites));
    assert_eq!(resolve_filter("category", None), Err(ApiError::MissingField));
    assert_eq!(resolve_filter("Topic", Some(1)), Err(ApiError::InvalidFieldValue));
}

#[test]
fn status_names() {
    assert_eq!(TestStatus::parse("completed"), Ok(TestStatus::Completed));
    assert_eq!(TestStatus::parse("done"), Err(ApiError::InvalidFieldValue));
    assert_eq!(TestStatus::Abandoned.as_str(), "abandoned");
    assert_eq!(FilterType::parse("category"), Ok(FilterType::Category));
}

#[test]
fn random_draws_vary_the_order() {
    let cat = catalog();
    let mut store = SessionStore::new();
    let mut orders = Vec::new();
    for user in 0..20u128 {
        let r = store.create_test(1000 + user, &params("topic", Some(TOPIC), "en", 5), &cat, &vec![]);
        assert!(r.is_ok());
        orders.push(question_ids(&store, user as usize));
    }
    assert!(orders.iter().any(|o| *o != orders[0]));
    for o in &orders {
        let mut s = o.clone();
        s.sort();
        assert_eq!(s, vec![1, 2, 3, 4, 5]);
    }
}

#[test]
fn list_orders_by_creation_time() {
    let cat = catalog();
    let mut store = SessionStore::new();
    assert!(store.create_test_at(1, USER, &params("topic", Some(TOPIC), "en", 1), &cat, &vec![], 5000).is_ok());
    assert!(store.create_test_at(2, USER, &params("topic", Some(OTHER_TOPIC), "en", 1), &cat, &vec![], 1000).is_ok());
    assert!(store.create_test_at(3, USER, &params("favorites", None, "en", 1), &cat, &vec![4], 3000).is_ok());
    let ids: Vec<u128> = store.list(USER, None).iter().map(|t| t.id).collect();
    assert_eq!(ids, vec![1, 3, 2]);
    let created: Vec<i64> = store.list(USER, None).iter().map(|t| t.created_at).collect();
    assert_eq!(created, vec![5000, 3000, 1000]);
}

#[test]
fn history_orders_by_end_time() {
    let cat = catalog();
    let mut store = SessionStore::new();
    topic_test(&mut store, &cat, 1, 1);
    assert!(store.create_test_at(2, USER, &params("topic", Some(OTHER_TOPIC), "en", 1), &cat, &vec![], 2000).is_ok());
    assert!(store.create_test_at(3, USER, &params("favorites", None, "en", 1), &cat, &vec![4], 3000).is_ok());
    store.complete_test_at(USER, 2, 4000).ok().unwrap();
    store.complete_test_at(USER, 1, 9000).ok().unwrap();
    let q = question_ids(&store, 2)[0];
    submit(&mut store, &cat, 3, q, correct_ids(q), 6000).ok().unwrap();
    let done = store.history(USER);
    assert_eq!(done.iter().map(|t| t.id).collect::<Vec<_>>(), vec![1, 3, 2]);
    assert_eq!(done[0].completed_at, Some(9000));
    assert_eq!(done[1].status, "completed");
}

#[test]
fn drawn_order_fixes_composition() {
    let cat = catalog();
    let mut store = SessionStore::new();
    let r = store.create_test_drawn(1, USER, &params("topic", Some(TOPIC), "en", 3), &cat, &vec![], 1000, &vec![4, 2, 5, 1, 3]);
    let resp = r.ok().unwrap();
    assert_eq!(resp.total_questions, 3);
    assert_eq!(question_ids(&store, 0), vec![4, 2, 5]);
    let orders: Vec<i16> = store.sessions()[0].slots.iter().map(|s| s.order).collect();
    assert_eq!(orders, vec![1, 2, 3]);
    let r = store.create_test_drawn(2, USER, &params("topic", Some(TOPIC), "en", 3), &cat, &vec![], 1000, &vec![1, 2, 3, 4, 5]);
    assert_eq!(r.err(), Some(ApiError::AlreadyExists));
    for (n, q) in [4u128, 2, 5].iter().enumerate() {
        let a = submit(&mut store, &cat, 1, *q, correct_ids(*q), 2000 + n as i64).ok().unwrap();
        assert_eq!(a.test_completed, n == 2);
    }
    let s = &store.sessions()[0];
    assert_eq!(s.status, TestStatus::Completed);
    assert_eq!(s.score_percent, Some(100));
}

#[test]
fn unfinished_answer_keeps_test_open() {
    let cat = catalog();
    let mut store = SessionStore::new();
    topic_test(&mut store, &cat, 1, 2);
    let q = question_ids(&store, 0)[0];
    let r = submit(&mut store, &cat, 1, q, correct_ids(q), 2000).ok().unwrap();
    assert!(!r.test_completed);
    assert_eq!(r.score_percent, None);
    let s = &store.sessions()[0];
    assert_eq!(s.status, TestStatus::Active);
    assert_eq!(s.completed_at, None);
    assert_eq!(s.score_percent, None);
}
