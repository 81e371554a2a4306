use vstd::prelude::*;
use vstd::string::*;

use crate::error::ApiError;
use crate::filter::FilterType;
use crate::text::same_text;

verus! {

/// A question of the catalog, in one language.
pub struct Question {
    pub id: u128,
    pub topic_id: u128,
    pub name: String,
    pub content: Option<String>,
    pub lang: String,
    pub explanation: String,
}

/// An answer option of a question; several options of one question may be
/// correct.
pub struct Answer {
    pub id: u128,
    pub question_id: u128,
    pub value: String,
    pub is_correct: bool,
}

/// Membership of a question in a category.
#[derive(Clone, Copy, Debug, PartialEq, Eq, Structural)]
pub struct QuestionCategory {
    pub question_id: u128,
    pub category_id: u128,
}

/// The read-only content that tests are drawn from.
pub struct Catalog {
    pub questions: Vec<Question>,
    pub answers: Vec<Answer>,
    pub categories: Vec<u128>,
    pub topics: Vec<u128>,
    pub question_categories: Vec<QuestionCategory>,
}

/// An answer option as it is shown while a test runs: without its correctness.
pub struct AnswerOption {
    pub id: u128,
    pub value: String,
}

/// An answer option as it is shown in a review: with its correctness.
pub struct AnswerOptionWithCorrectness {
    pub id: u128,
    pub value: String,
    pub is_correct: bool,
}

/// An option shown while a test runs carries the answer's identifier and text.
pub open spec fn shows(o: AnswerOption, a: Answer) -> bool {
    o.id == a.id && o.value@ == a.value@
}

/// An option shown in a review carries the answer's identifier, text and
/// correctness.
pub open spec fn shows_graded(o: AnswerOptionWithCorrectness, a: Answer) -> bool {
    o.id == a.id && o.value@ == a.value@ && o.is_correct == a.is_correct
}

/// No two questions share an identifier.
pub open spec fn ids_unique(qs: Seq<Question>) -> bool {
    forall|i: int, j: int| 0 <= i < qs.len() && 0 <= j < qs.len() && i != j ==> qs[i].id != qs[j].id
}

/// Whether question `q` belongs to category `c`.
pub open spec fn linked(links: Seq<QuestionCategory>, q: u128, c: u128) -> bool {
    exists|k: int| 0 <= k < links.len() && links[k].question_id == q && links[k].category_id == c
}

/// Whether a question belongs to the pool of a filter in a language.
pub open spec fn in_pool(
    q: Question,
    t: FilterType,
    id: u128,
    lang: Seq<char>,
    favorites: Seq<u128>,
    links: Seq<QuestionCategory>,
) -> bool {
    &&& q.lang@ == lang
    &&& match t {
        FilterType::Favorites => favorites.contains(q.id),
        FilterType::Category => linked(links, q.id, id),
        FilterType::Topic => q.topic_id == id,
    }
}

/// The identifiers of the questions from position `i` on that belong to the
/// pool, in catalog order.
pub open spec fn pool_from(
    qs: Seq<Question>,
    t: FilterType,
    id: u128,
    lang: Seq<char>,
    favorites: Seq<u128>,
    links: Seq<QuestionCategory>,
    i: int,
) -> Seq<u128>
    decreases qs.len() - i,
{
    if i < 0 || i >= qs.len() {
        Seq::empty()
    } else if in_pool(qs[i], t, id, lang, favorites, links) {
        seq![qs[i].id] + pool_from(qs, t, id, lang, favorites, links, i + 1)
    } else {
        pool_from(qs, t, id, lang, favorites, links, i + 1)
    }
}

/// The identifier that a filter selects by; favorites select by none.
pub open spec fn filter_key(filter_id: Option<u128>) -> u128 {
    match filter_id {
        Some(id) => id,
        None => 0,
    }
}

/// The first position from `i` on of the question with identifier `id`.
pub open spec fn question_index_from(qs: Seq<Question>, id: u128, i: int) -> Option<int>
    decreases qs.len() - i,
{
    if i < 0 || i >= qs.len() {
        None
    } else if qs[i].id == id {
        Some(i)
    } else {
        question_index_from(qs, id, i + 1)
    }
}

/// The position of the question with identifier `id`.
pub open spec fn question_index(qs: Seq<Question>, id: u128) -> Option<int> {
    question_index_from(qs, id, 0)
}

/// The answers of question `q`, from position `i` on, in catalog order.
pub open spec fn answers_from(ans: Seq<Answer>, q: u128, i: int) -> Seq<Answer>
    decreases ans.len() - i,
{
    if i < 0 || i >= ans.len() {
        Seq::empty()
    } else if ans[i].question_id == q {
        seq![ans[i]] + answers_from(ans, q, i + 1)
    } else {
        answers_from(ans, q, i + 1)
    }
}

/// The answers of question `q`, in catalog order.
pub open spec fn answers_of(ans: Seq<Answer>, q: u128) -> Seq<Answer> {
    answers_from(ans, q, 0)
}

/// The identifiers of the correct answers of question `q`, from position `i` on.
pub open spec fn correct_from(ans: Seq<Answer>, q: u128, i: int) -> Seq<u128>
    decreases ans.len() - i,
{
    if i < 0 || i >= ans.len() {
        Seq::empty()
    } else if ans[i].question_id == q && ans[i].is_correct {
        seq![ans[i].id] + correct_from(ans, q, i + 1)
    } else {
        correct_from(ans, q, i + 1)
    }
}

/// The identifiers of the correct answers of question `q`, in catalog order.
pub open spec fn correct_ids_of(ans: Seq<Answer>, q: u128) -> Seq<u128> {
    correct_from(ans, q, 0)
}

/// Each pool member is a matching question at or after `i`, and none repeats.
pub proof fn lemma_pool_from(
    qs: Seq<Question>,
    t: FilterType,
    id: u128,
    lang: Seq<char>,
    favorites: Seq<u128>,
    links: Seq<QuestionCategory>,
    i: int,
)
    requires
        ids_unique(qs),
        0 <= i <= qs.len(),
    ensures
        pool_from(qs, t, id, lang, favorites, links, i).no_duplicates(),
        forall|x: u128| #[trigger]
            pool_from(qs, t, id, lang, favorites, links, i).contains(x) ==> exists|j: int|
                i <= j < qs.len() && qs[j].id == x && in_pool(qs[j], t, id, lang, favorites, links),
    decreases qs.len() - i,
{
    if i < qs.len() {
        lemma_pool_from(qs, t, id, lang, favorites, links, i + 1);
        let rest = pool_from(qs, t, id, lang, favorites, links, i + 1);
        if in_pool(qs[i], t, id, lang, favorites, links) {
            let p = seq![qs[i].id] + rest;
            assert(!rest.contains(qs[i].id));
            assert forall|x: u128| #[trigger] p.contains(x) implies exists|j: int|
                i <= j < qs.len() && qs[j].id == x && in_pool(qs[j], t, id, lang, favorites, links) by {
                let k = choose|k: int| 0 <= k < p.len() && p[k] == x;
                if k > 0 {
                    assert(rest[k - 1] == x);
                    assert(rest.contains(x));
                }
            }
            assert forall|a: int, b: int| 0 <= a < p.len() && 0 <= b < p.len() && a != b implies p[a]
                != p[b] by {
                if a > 0 && b > 0 {
                    assert(p[a] == rest[a - 1]);
                    assert(p[b] == rest[b - 1]);
                } else if a == 0 {
                    assert(rest.contains(p[b]));
                } else {
                    assert(rest.contains(p[a]));
                }
            }
        }
    }
}

/// Whether `v` holds `x`.
pub fn contains_id(v: &Vec<u128>, x: u128) -> (r: bool)
    ensures
        r == v@.contains(x),
{
    let mut i: usize = 0;
    while i < v.len()
        invariant
            i <= v.len(),
            forall|k: int| 0 <= k < i ==> v@[k] != x,
        decreases v.len() - i,
    {
        if v[i] == x {
            return true;
        }
        i = i + 1;
    }
    false
}

impl Catalog {
    /// No two questions of the catalog share an identifier.
    pub open spec fn wf(&self) -> bool {
        ids_unique(self.questions@)
    }

    /// Whether question `q` belongs to category `c`.
    pub fn in_category(&self, q: u128, c: u128) -> (r: bool)
        ensures
            r == linked(self.question_categories@, q, c),
    {
        let links = &self.question_categories;
        let mut i: usize = 0;
        while i < links.len()
            invariant
                i <= links.len(),
                links@ == self.question_categories@,
                forall|k: int| 0 <= k < i ==> !(links@[k].question_id == q && links@[k].category_id == c),
            decreases links.len() - i,
        {
            if links[i].question_id == q && links[i].category_id == c {
                assert(0 <= i < links@.len() && links@[i as int].question_id == q
                    && links@[i as int].category_id == c);
                return true;
            }
            i = i + 1;
        }
        false
    }

    /// The position of the question with identifier `id`.
    pub fn find_question(&self, id: u128) -> (r: Option<usize>)
        ensures
            r matches Some(i) ==> question_index(self.questions@, id) == Some(i as int) && i
                < self.questions@.len(),
            r is None ==> question_index(self.questions@, id) is None,
    {
        let qs = &self.questions;
        let mut i: usize = 0;
        while i < qs.len()
            invariant
                i <= qs.len(),
                qs@ == self.questions@,
                question_index(qs@, id) == question_index_from(qs@, id, i as int),
            decreases qs.len() - i,
        {
            if qs[i].id == id {
                assert(question_index_from(qs@, id, i as int) == Some(i as int));
                return Some(i);
            }
            assert(question_index_from(qs@, id, i as int) == question_index_from(qs@, id, i + 1));
            i = i + 1;
        }
        assert(question_index_from(qs@, id, i as int) is None);
        None
    }

    /// The identifiers of the questions that a filter selects in a language,
    /// in catalog order. A category or topic that does not exist is NotFound.
    pub fn question_pool(
        &self,
        t: FilterType,
        filter_id: Option<u128>,
        lang: &str,
        favorites: &Vec<u128>,
    ) -> (r: Result<Vec<u128>, ApiError>)
        ensures
            match pool_error(*self, t, filter_id) {
                Some(e) => r == Err::<Vec<u128>, ApiError>(e),
                None => r matches Ok(p) && p@ == pool_from(
                    self.questions@,
                    t,
                    filter_key(filter_id),
                    lang@,
                    favorites@,
                    self.question_categories@,
                    0,
                ),
            },
    {
        let key = match filter_id {
            Some(id) => id,
            None => 0,
        };
        match t {
            FilterType::Category => {
                if !contains_id(&self.categories, key) {
                    return Err(ApiError::NotFound);
                }
            },
            FilterType::Topic => {
                if !contains_id(&self.topics, key) {
                    return Err(ApiError::NotFound);
                }
            },
            FilterType::Favorites => {},
        }
        let ghost links = self.question_categories@;
        let qs = &self.questions;
        let mut pool: Vec<u128> = Vec::new();
        let mut i: usize = 0;
        while i < qs.len()
            invariant
                i <= qs.len(),
                qs@ == self.questions@,
                links == self.question_categories@,
                pool@ + pool_from(qs@, t, key, lang@, favorites@, links, i as int) == pool_from(
                    qs@,
                    t,
                    key,
                    lang@,
                    favorites@,
                    links,
                    0,
                ),
            decreases qs.len() - i,
        {
            let q = &qs[i];
            let selected = same_text(q.lang.as_str(), lang) && match t {
                FilterType::Favorites => contains_id(favorites, q.id),
                FilterType::Category => self.in_category(q.id, key),
                FilterType::Topic => q.topic_id == key,
            };
            let ghost rest = pool_from(qs@, t, key, lang@, favorites@, links, i + 1);
            if selected {
                assert(pool@.push(q.id) + rest =~= pool@ + (seq![q.id] + rest));
                pool.push(q.id);
            }
            i = i + 1;
        }
        assert(pool@ + Seq::<u128>::empty() =~= pool@);
        Ok(pool)
    }

    /// The correct answers of question `q`, in catalog order.
    pub fn correct_answer_ids(&self, q: u128) -> (r: Vec<u128>)
        ensures
            r@ == correct_ids_of(self.answers@, q),
    {
        let ans = &self.answers;
        let mut ids: Vec<u128> = Vec::new();
        let mut i: usize = 0;
        while i < ans.len()
            invariant
                i <= ans.len(),
                ans@ == self.answers@,
                ids@ + correct_from(ans@, q, i as int) == correct_ids_of(ans@, q),
            decreases ans.len() - i,
        {
            let ghost rest = correct_from(ans@, q, i + 1);
            if ans[i].question_id == q && ans[i].is_correct {
                assert(ids@.push(ans@[i as int].id) + rest =~= ids@ + (seq![ans@[i as int].id] + rest));
                ids.push(ans[i].id);
            }
            i = i + 1;
        }
        assert(ids@ + Seq::<u128>::empty() =~= ids@);
        ids
    }

    /// The answer options of question `q` without their correctness, in
    /// catalog order.
    pub fn answer_options(&self, q: u128) -> (r: Vec<AnswerOption>)
        ensures
            r@.len() == answers_of(self.answers@, q).len(),
            forall|k: int|
                0 <= k < r@.len() ==> #[trigger] shows(r@[k], answers_of(self.answers@, q)[k]),
    {
        let ans = &self.answers;
        let mut out: Vec<AnswerOption> = Vec::new();
        let ghost taken: Seq<Answer> = Seq::empty();
        let mut i: usize = 0;
        while i < ans.len()
            invariant
                i <= ans.len(),
                ans@ == self.answers@,
                taken + answers_from(ans@, q, i as int) == answers_of(ans@, q),
                out@.len() == taken.len(),
                forall|k: int| 0 <= k < out@.len() ==> #[trigger] shows(out@[k], taken[k]),
            decreases ans.len() - i,
        {
            let ghost rest = answers_from(ans@, q, i + 1);
            if ans[i].question_id == q {
                proof {
                    assert(taken.push(ans@[i as int]) + rest =~= taken + (seq![ans@[i as int]] + rest));
                    taken = taken.push(ans@[i as int]);
                }
                out.push(AnswerOption { id: ans[i].id, value: ans[i].value.clone() });
            }
            i = i + 1;
        }
        assert(taken + Seq::<Answer>::empty() =~= taken);
        out
    }

    /// The answer options of question `q` with their correctness, in catalog
    /// order.
    pub fn answer_options_with_correctness(&self, q: u128) -> (r: Vec<AnswerOptionWithCorrectness>)
        ensures
            r@.len() == answers_of(self.answers@, q).len(),
            forall|k: int|
                0 <= k < r@.len() ==> #[trigger] shows_graded(r@[k], answers_of(self.answers@, q)[k]),
    {
        let ans = &self.answers;
        let mut out: Vec<AnswerOptionWithCorrectness> = Vec::new();
        let ghost taken: Seq<Answer> = Seq::empty();
        let mut i: usize = 0;
        while i < ans.len()
            invariant
                i <= ans.len(),
                ans@ == self.answers@,
                taken + answers_from(ans@, q, i as int) == answers_of(ans@, q),
                out@.len() == taken.len(),
                forall|k: int| 0 <= k < out@.len() ==> #[trigger] shows_graded(out@[k], taken[k]),
            decreases ans.len() - i,
        {
            let ghost rest = answers_from(ans@, q, i + 1);
            if ans[i].question_id == q {
                proof {
                    assert(taken.push(ans@[i as int]) + rest =~= taken + (seq![ans@[i as int]] + rest));
                    taken = taken.push(ans@[i as int]);
                }
                let opt = AnswerOptionWithCorrectness {
                    id: ans[i].id,
                    value: ans[i].value.clone(),
                    is_correct: ans[i].is_correct,
                };
                out.push(opt);
                assert forall|k: int| 0 <= k < out@.len() implies #[trigger] shows_graded(out@[k], taken[k]) by {
                    if k == out@.len() - 1 {
                        assert(out@[k] == opt);
                        assert(taken[k] == ans@[i as int]);
                    }
                }
            }
            i = i + 1;
        }
        assert(taken + Seq::<Answer>::empty() =~= taken);
        out
    }
}

/// The error that resolving a pool meets: a category or topic that the
/// catalog does not hold.
pub open spec fn pool_error(cat: Catalog, t: FilterType, filter_id: Option<u128>) -> Option<ApiError> {
    match t {
        FilterType::Favorites => None,
        FilterType::Category => if cat.categories@.contains(filter_key(filter_id)) {
            None
        } else {
            Some(ApiError::NotFound)
        },
        FilterType::Topic => if cat.topics@.contains(filter_key(filter_id)) {
            None
        } else {
            Some(ApiError::NotFound)
        },
    }
}

} // verus!
