//! Automatic grading of objective questions and the bookkeeping of per-question
//! scores.
use vstd::prelude::*;
use vstd::multiset::Multiset;
use crate::model::{QuestionType, uuid_text, uuid_text_of, ApiError, Status, api_error};
use crate::score::{Score, fits_at, max_scale, lemma_fits_at_fewer_places};
use crate::text::{to_uppercase, uppercase_of, same_text};

verus! {

broadcast use vstd::seq_lib::group_to_multiset_ensures, vstd::multiset::group_multiset_axioms;

/// One element of a JSON array answer: a string, or any other JSON value kept
/// as its JSON text.
#[derive(Debug)]
pub enum ListItem {
    Text(String),
    Other(String),
}

/// An answer as submitted or as stored for a question: a JSON string, a JSON
/// boolean, a JSON array, or any other JSON value kept as its JSON text.
#[derive(Debug)]
pub enum Answer {
    Text(String),
    Flag(bool),
    List(Vec<ListItem>),
    Other(String),
}

/// The string of a string answer; empty for any other answer.
pub open spec fn text_or_empty(a: Answer) -> Seq<char> {
    match a {
        Answer::Text(s) => s@,
        _ => Seq::empty(),
    }
}

/// The upper-cased strings among the items, in order (other items are skipped).
pub open spec fn upper_items(items: Seq<ListItem>) -> Seq<Seq<char>>
    decreases items.len(),
{
    if items.len() == 0 {
        Seq::empty()
    } else {
        let rest = upper_items(items.drop_last());
        match items.last() {
            ListItem::Text(s) => rest.push(uppercase_of(s@)),
            ListItem::Other(_) => rest,
        }
    }
}

/// The upper-cased strings of an array answer; empty for any other answer.
pub open spec fn list_items(a: Answer) -> Seq<Seq<char>> {
    match a {
        Answer::List(v) => upper_items(v@),
        _ => Seq::empty(),
    }
}

/// The views of a sequence of strings.
pub open spec fn views(v: Seq<String>) -> Seq<Seq<char>> {
    v.map_values(|s: String| s@)
}

/// When a student's answer counts as correct:
/// - single choice: a non-empty string equal to the correct one ignoring case;
/// - multiple choice: a non-empty set of strings equal to the correct ones
///   ignoring case and order (repetitions count);
/// - true/false: both booleans, and equal;
/// - essay: never (essays are graded by a teacher).
pub open spec fn answers_agree(student: Answer, correct: Answer, qt: QuestionType) -> bool {
    match qt {
        QuestionType::SingleChoice => text_or_empty(student).len() > 0 && uppercase_of(
            text_or_empty(student),
        ) == uppercase_of(text_or_empty(correct)),
        QuestionType::MultipleChoice => list_items(student).len() > 0
            && list_items(student).to_multiset() == list_items(correct).to_multiset(),
        QuestionType::TrueFalse => match (student, correct) {
            (Answer::Flag(s), Answer::Flag(c)) => s == c,
            _ => false,
        },
        QuestionType::Essay => false,
    }
}

/// The string of a string answer, or the empty string.
fn answer_text(a: &Answer) -> (r: String)
    ensures
        r@ == text_or_empty(*a),
{
    match a {
        Answer::Text(s) => s.clone(),
        _ => String::new(),
    }
}

/// The upper-cased strings among the items of an array answer.
fn upper_list(a: &Answer) -> (r: Vec<String>)
    ensures
        views(r@) == list_items(*a),
{
    let mut r: Vec<String> = Vec::new();
    match a {
        Answer::List(items) => {
            let mut i: usize = 0;
            while i < items.len()
                invariant
                    i <= items@.len(),
                    views(r@) == upper_items(items@.subrange(0, i as int)),
                decreases items@.len() - i,
            {
                let ghost before = r@;
                match &items[i] {
                    ListItem::Text(s) => {
                        let u = to_uppercase(s.as_str());
                        r.push(u);
                        assert(views(r@) =~= views(before).push(u@));
                    },
                    ListItem::Other(_) => {},
                }
                assert(items@.subrange(0, i + 1).drop_last() =~= items@.subrange(0, i as int));
                i = i + 1;
            }
            assert(items@.subrange(0, items@.len() as int) =~= items@);
        },
        _ => {
            assert(views(r@) =~= Seq::<Seq<char>>::empty());
        },
    }
    r
}

/// The two lists hold the same strings the same number of times.
fn same_bag(a: &Vec<String>, b: &Vec<String>) -> (r: bool)
    ensures
        r == (views(a@).to_multiset() == views(b@).to_multiset()),
{
    if a.len() != b.len() {
        proof {
            assert(views(a@).to_multiset().len() != views(b@).to_multiset().len());
        }
        return false;
    }
    let mut rest: Vec<String> = Vec::new();
    let mut k: usize = 0;
    while k < b.len()
        invariant
            k <= b@.len(),
            rest@.len() == k,
            views(rest@) == views(b@).subrange(0, k as int),
        decreases b@.len() - k,
    {
        let s = b[k].clone();
        assert(s@ == b@[k as int]@);
        let ghost before = rest@;
        rest.push(s);
        assert(views(rest@) =~= views(b@).subrange(0, k + 1));
        k = k + 1;
    }
    assert(views(rest@) =~= views(b@));
    let mut i: usize = 0;
    assert(views(a@.subrange(0, 0)) =~= Seq::<Seq<char>>::empty());
    assert(views(a@.subrange(0, 0)).to_multiset() =~= Multiset::<Seq<char>>::empty());
    while i < a.len()
        invariant
            a@.len() == b@.len(),
            i <= a@.len(),
            rest@.len() + i == a@.len(),
            views(a@.subrange(0, i as int)).to_multiset().add(views(rest@).to_multiset())
                == views(b@).to_multiset(),
        decreases a@.len() - i,
    {
        let ghost x = a@[i as int]@;
        let mut j: usize = 0;
        let mut found = false;
        while j < rest.len() && !found
            invariant
                j <= rest@.len(),
                found ==> j >= 1 && rest@[j - 1]@ == x,
                !found ==> forall|t: int| 0 <= t < j ==> rest@[t]@ != x,
                x == a@[i as int]@,
                i < a@.len(),
            decreases rest@.len() - j + (if found { 0int } else { 1int }),
        {
            if same_text(rest[j].as_str(), a[i].as_str()) {
                found = true;
            }
            j = j + 1;
        }
        if !found {
            proof {
                let va = views(a@);
                let pre = views(a@.subrange(0, i as int));
                let pre1 = views(a@.subrange(0, i + 1));
                let post = views(a@.subrange(i + 1, a@.len() as int));
                assert(!views(rest@).contains(x)) by {
                    if views(rest@).contains(x) {
                        let t = choose|t: int| 0 <= t < views(rest@).len() && views(rest@)[t] == x;
                        assert(rest@[t]@ == x);
                    }
                }
                assert(pre1 =~= pre.push(x));
                assert(va =~= pre1 + post);
                vstd::seq_lib::lemma_multiset_commutative(pre1, post);
                assert(views(b@).to_multiset().count(x) == pre.to_multiset().count(x));
                assert(va.to_multiset().count(x) >= pre1.to_multiset().count(x));
                assert(va.to_multiset().count(x) != views(b@).to_multiset().count(x));
            }
            return false;
        }
        let jj = j - 1;
        let ghost old_rest = rest@;
        rest.remove(jj);
        proof {
            assert(views(rest@) =~= views(old_rest).remove(jj as int));
            assert(views(old_rest)[jj as int] == x);
            let pre = views(a@.subrange(0, i as int));
            assert(views(a@.subrange(0, i + 1)) =~= pre.push(x));
            assert(views(old_rest).to_multiset().count(x) > 0);
            assert(pre.push(x).to_multiset().add(views(rest@).to_multiset()) =~= pre.to_multiset().add(
                views(old_rest).to_multiset(),
            ));
        }
        i = i + 1;
    }
    proof {
        assert(a@.subrange(0, a@.len() as int) =~= a@);
        assert(views(rest@) =~= Seq::<Seq<char>>::empty());
        assert(views(rest@).to_multiset() =~= Multiset::<Seq<char>>::empty());
        assert(views(a@).to_multiset().add(Multiset::<Seq<char>>::empty()) =~= views(a@).to_multiset());
    }
    true
}

/// Compares a student's answer with the correct answer of an objective question
/// (see `answers_agree`).
pub fn answers_match(student: &Answer, correct: &Answer, qt: &QuestionType) -> (r: bool)
    ensures
        r == answers_agree(*student, *correct, *qt),
{
    match qt {
        QuestionType::SingleChoice => {
            let s = answer_text(student);
            let c = answer_text(correct);
            let su = to_uppercase(s.as_str());
            let cu = to_uppercase(c.as_str());
            !su.as_str().is_empty() && su == cu
        },
        QuestionType::MultipleChoice => {
            let sa = upper_list(student);
            let ca = upper_list(correct);
            sa.len() > 0 && same_bag(&sa, &ca)
        },
        QuestionType::TrueFalse => match (student, correct) {
            (Answer::Flag(s), Answer::Flag(c)) => *s == *c,
            _ => false,
        },
        QuestionType::Essay => false,
    }
}


/// A question as placed in an exam, with what grading and display read of it.
#[derive(Debug)]
pub struct QuestionInExam {
    pub entry_id: u128,
    pub quiz_id: u128,
    pub question_id: u128,
    /// The score set for this exam; when absent the question's default applies.
    pub score: Option<Score>,
    pub sort_order: i32,
    pub question_type: QuestionType,
    pub content: String,
    /// The options as JSON text.
    pub options: Option<String>,
    pub correct_answer: Option<Answer>,
    pub explanation: Option<String>,
    pub default_score: Score,
    pub chapter_id: Option<u128>,
    pub video_id: Option<u128>,
}

impl QuestionInExam {
    /// The score that counts in this exam: the exam's own, else the default.
    pub open spec fn effective(&self) -> Score {
        match self.score {
            Some(s) => s,
            None => self.default_score,
        }
    }

    /// The score that counts in this exam: the exam's own, else the default.
    pub fn effective_score(&self) -> (r: Score)
        ensures
            r == self.effective(),
    {
        match &self.score {
            Some(s) => s.copy(),
            None => self.default_score.copy(),
        }
    }
}

/// What a per-question score entry holds: not yet graded (JSON `null`), points,
/// or a value that is neither (skipped when totals are formed).
#[derive(Debug)]
pub enum ScoreEntry {
    Pending,
    Points(Score),
    Ignored,
}

/// The outcome of automatic grading.
#[derive(Debug)]
pub struct Grading {
    /// One entry per exam question, keyed by the question id's text.
    pub question_scores: Vec<(String, ScoreEntry)>,
    /// The sum of the points earned on objective questions.
    pub total: Score,
    /// Some question is an essay and waits for a teacher.
    pub has_ungraded: bool,
}

/// The answer stored under `key`, if any (the first entry with that key).
pub open spec fn lookup(answers: Seq<(String, Answer)>, key: Seq<char>) -> Option<Answer>
    decreases answers.len(),
{
    if answers.len() == 0 {
        None
    } else if answers[0].0@ == key {
        Some(answers[0].1)
    } else {
        lookup(answers.drop_first(), key)
    }
}

/// The question is objective and the submitted answer agrees with its correct answer.
pub open spec fn is_correct(q: QuestionInExam, answers: Seq<(String, Answer)>) -> bool {
    q.question_type != QuestionType::Essay && match (
        lookup(answers, uuid_text_of(q.question_id)),
        q.correct_answer,
    ) {
        (Some(sa), Some(ca)) => answers_agree(sa, ca, q.question_type),
        _ => false,
    }
}

/// The entry grading gives a question: pending for an essay, its effective score
/// when answered correctly, zero (a whole number) otherwise.
pub open spec fn entry_for(e: ScoreEntry, q: QuestionInExam, answers: Seq<(String, Answer)>) -> bool {
    match e {
        ScoreEntry::Pending => q.question_type == QuestionType::Essay,
        ScoreEntry::Points(s) => q.question_type != QuestionType::Essay && (if is_correct(q, answers) {
            s == q.effective()
        } else {
            s.units() == 0 && s.scale_of() == 0
        }),
        ScoreEntry::Ignored => false,
    }
}

/// Sum, in units of 10^-28, of the effective scores of the correctly answered questions.
pub open spec fn correct_units(qs: Seq<QuestionInExam>, answers: Seq<(String, Answer)>) -> int
    decreases qs.len(),
{
    if qs.len() == 0 {
        0
    } else {
        correct_units(qs.drop_last(), answers) + if is_correct(qs.last(), answers) {
            qs.last().effective().units()
        } else {
            0
        }
    }
}

/// The largest number of decimal places among the effective scores.
pub open spec fn places(qs: Seq<QuestionInExam>) -> nat
    decreases qs.len(),
{
    if qs.len() == 0 {
        0
    } else {
        max_scale(places(qs.drop_last()), qs.last().effective().scale_of())
    }
}

/// Every running total of earned points is representable with the scores'
/// largest number of decimal places, so no addition overflows.
pub open spec fn sums_fit(qs: Seq<QuestionInExam>, answers: Seq<(String, Answer)>) -> bool {
    forall|j: int|
        0 <= j < qs.len() ==> fits_at(#[trigger] correct_units(qs.subrange(0, j + 1), answers), places(qs))
}

/// Some question is an essay.
pub open spec fn has_essay(qs: Seq<QuestionInExam>) -> bool {
    exists|i: int| 0 <= i < qs.len() && #[trigger] qs[i].question_type == QuestionType::Essay
}

/// The answer stored under `key`.
fn find_answer<'a>(answers: &'a Vec<(String, Answer)>, key: &String) -> (r: Option<&'a Answer>)
    ensures
        r matches Some(a) ==> lookup(answers@, key@) == Some(*a),
        r is None ==> lookup(answers@, key@) is None,
{
    let mut i: usize = 0;
    assert(answers@.subrange(0, answers@.len() as int) =~= answers@);
    while i < answers.len()
        invariant
            i <= answers@.len(),
            lookup(answers@, key@) == lookup(answers@.subrange(i as int, answers@.len() as int), key@),
        decreases answers@.len() - i,
    {
        let ghost rest = answers@.subrange(i as int, answers@.len() as int);
        if same_text(answers[i].0.as_str(), key.as_str()) {
            return Some(&answers[i].1);
        }
        assert(rest.drop_first() =~= answers@.subrange(i + 1, answers@.len() as int));
        i = i + 1;
    }
    None
}

proof fn lemma_places_bound(qs: Seq<QuestionInExam>)
    ensures
        forall|k: int| 0 <= k < qs.len() ==> #[trigger] qs[k].effective().scale_of() <= places(qs),
    decreases qs.len(),
{
    if qs.len() > 0 {
        lemma_places_bound(qs.drop_last());
        assert forall|k: int| 0 <= k < qs.len() implies #[trigger] qs[k].effective().scale_of() <= places(qs) by {
            if k < qs.len() - 1 {
                assert(qs.drop_last()[k] == qs[k]);
            }
        }
    }
}

/// The stored correct answer, submitted as it is, is graded correct: a
/// non-empty single-choice text, a non-empty multiple-choice list, or a
/// true/false boolean.
pub proof fn lemma_stored_answer_accepted(correct: Answer, qt: QuestionType)
    requires
        qt == QuestionType::SingleChoice ==> text_or_empty(correct).len() > 0,
        qt == QuestionType::MultipleChoice ==> list_items(correct).len() > 0,
        qt == QuestionType::TrueFalse ==> correct is Flag,
        qt != QuestionType::Essay,
    ensures
        answers_agree(correct, correct, qt),
{
}

/// Multiple-choice grading ignores the order of the chosen options: two
/// submissions choosing the same options (counted with repetition) are graded
/// alike.
pub proof fn lemma_choice_order_irrelevant(first: Answer, second: Answer, correct: Answer)
    requires
        list_items(first).to_multiset() == list_items(second).to_multiset(),
    ensures
        answers_agree(first, correct, QuestionType::MultipleChoice) == answers_agree(
            second,
            correct,
            QuestionType::MultipleChoice,
        ),
{
    assert(list_items(first).to_multiset().len() == list_items(first).len());
    assert(list_items(second).to_multiset().len() == list_items(second).len());
}

/// Single-choice grading ignores letter case: two submissions with the same
/// upper-case form are graded alike.
pub proof fn lemma_single_choice_case_blind(first: Answer, second: Answer, correct: Answer)
    requires
        text_or_empty(first).len() > 0,
        text_or_empty(second).len() > 0,
        uppercase_of(text_or_empty(first)) == uppercase_of(text_or_empty(second)),
    ensures
        answers_agree(first, correct, QuestionType::SingleChoice) == answers_agree(
            second,
            correct,
            QuestionType::SingleChoice,
        ),
{
}

/// An essay is never graded automatically.
pub proof fn lemma_essay_never_auto(student: Answer, correct: Answer)
    ensures
        !answers_agree(student, correct, QuestionType::Essay),
{
}

/// Sum, in units of 10^-28, of the effective scores of the questions.
pub open spec fn effective_units(qs: Seq<QuestionInExam>) -> int
    decreases qs.len(),
{
    if qs.len() == 0 {
        0
    } else {
        effective_units(qs.drop_last()) + qs.last().effective().units()
    }
}

/// Every running total of the effective scores is representable with the
/// scores' largest number of decimal places.
pub open spec fn totals_fit(qs: Seq<QuestionInExam>) -> bool {
    forall|j: int| 0 <= j < qs.len() ==> fits_at(#[trigger] effective_units(qs.subrange(0, j + 1)), places(qs))
}

/// The total score of an exam: the sum of its questions' effective scores.
/// `None` only when a running total overflowed the decimal range.
pub fn exam_total(questions: &Vec<QuestionInExam>) -> (r: Option<Score>)
    ensures
        r matches Some(t) ==> t.scale_of() <= places(questions@),
        totals_fit(questions@) ==> (r is Some && r.unwrap().units() == effective_units(questions@)),
{
    let ghost qs = questions@;
    let mut total = Score::zero();
    let ghost mut exact = true;
    let mut i: usize = 0;
    proof {
        lemma_places_bound(qs);
        assert(qs.subrange(0, 0) =~= Seq::<QuestionInExam>::empty());
    }
    while i < questions.len()
        invariant
            qs == questions@,
            i <= qs.len(),
            total.scale_of() <= places(qs),
            exact ==> total.units() == effective_units(qs.subrange(0, i as int)),
            !exact ==> !totals_fit(qs),
            forall|k: int| 0 <= k < qs.len() ==> #[trigger] qs[k].effective().scale_of() <= places(qs),
        decreases qs.len() - i,
    {
        let effective = questions[i].effective_score();
        assert(qs.subrange(0, i + 1).drop_last() =~= qs.subrange(0, i as int));
        assert(qs.subrange(0, i + 1).last() == qs[i as int]);
        let ghost before = total;
        let ghost target = effective_units(qs.subrange(0, i + 1));
        proof {
            if exact && totals_fit(qs) {
                assert(fits_at(target, places(qs)));
                lemma_fits_at_fewer_places(
                    target,
                    places(qs),
                    max_scale(before.scale_of(), effective.scale_of()),
                );
            }
        }
        match total.checked_add(&effective) {
            Some(t) => {
                total = t;
            },
            None => {
                return None;
            },
        }
        proof {
            if exact && !fits_at(target, max_scale(before.scale_of(), effective.scale_of())) {
                if totals_fit(qs) {
                    assert(fits_at(target, places(qs)));
                    lemma_fits_at_fewer_places(
                        target,
                        places(qs),
                        max_scale(before.scale_of(), effective.scale_of()),
                    );
                }
                exact = false;
            }
        }
        i = i + 1;
    }
    proof {
        assert(qs.subrange(0, qs.len() as int) =~= qs);
    }
    Some(total)
}

/// Grades the objective questions of a submission. Each question gets an entry
/// keyed by its id's text (`entry_for`); the total is the sum of the earned
/// points; `has_ungraded` tells whether an essay waits for a teacher. `None`
/// only when a running total overflowed the decimal range.
pub fn auto_grade(answers: &Vec<(String, Answer)>, exam_questions: &Vec<QuestionInExam>) -> (r: Option<Grading>)
    ensures
        r matches Some(g) ==> g.question_scores@.len() == exam_questions@.len(),
        r matches Some(g) ==> forall|i: int| 0 <= i < exam_questions@.len() ==> (#[trigger] g.question_scores@[i]).0@
            == uuid_text_of(exam_questions@[i].question_id),
        r matches Some(g) ==> forall|i: int| 0 <= i < exam_questions@.len() ==> entry_for(
            (#[trigger] g.question_scores@[i]).1,
            exam_questions@[i],
            answers@,
        ),
        r matches Some(g) ==> g.has_ungraded == has_essay(exam_questions@),
        sums_fit(exam_questions@, answers@) ==> (r is Some && r.unwrap().total.units() == correct_units(
            exam_questions@,
            answers@,
        )),
        r matches Some(g) ==> graded_entries(g.question_scores@, exam_questions@, answers@),
        sums_fit(exam_questions@, answers@) ==> (r matches Some(g) && points_fit(g.question_scores@)
            && points_units(g.question_scores@) == g.total.units()),
{
    let ghost qs = exam_questions@;
    let mut entries: Vec<(String, ScoreEntry)> = Vec::new();
    let mut total = Score::zero();
    let mut has_ungraded = false;
    let ghost mut exact = true;
    let mut i: usize = 0;
    proof {
        lemma_places_bound(qs);
        assert(qs.subrange(0, 0) =~= Seq::<QuestionInExam>::empty());
    }
    while i < exam_questions.len()
        invariant
            qs == exam_questions@,
            i <= qs.len(),
            entries@.len() == i,
            forall|k: int| 0 <= k < i ==> (#[trigger] entries@[k]).0@ == uuid_text_of(qs[k].question_id),
            forall|k: int| 0 <= k < i ==> entry_for((#[trigger] entries@[k]).1, qs[k], answers@),
            has_ungraded == (exists|k: int| 0 <= k < i && #[trigger] qs[k].question_type == QuestionType::Essay),
            total.scale_of() <= places(qs),
            exact ==> total.units() == correct_units(qs.subrange(0, i as int), answers@),
            !exact ==> !sums_fit(qs, answers@),
            forall|k: int| 0 <= k < qs.len() ==> #[trigger] qs[k].effective().scale_of() <= places(qs),
        decreases qs.len() - i,
    {
        let q = &exam_questions[i];
        let key = uuid_text(q.question_id);
        assert(qs.subrange(0, i + 1).drop_last() =~= qs.subrange(0, i as int));
        assert(qs.subrange(0, i + 1).last() == qs[i as int]);
        match q.question_type {
            QuestionType::Essay => {
                entries.push((key, ScoreEntry::Pending));
                has_ungraded = true;
            },
            _ => {
                let effective = q.effective_score();
                let student = find_answer(answers, &key);
                let correct = match (student, &q.correct_answer) {
                    (Some(sa), Some(ca)) => answers_match(sa, ca, &q.question_type),
                    _ => false,
                };
                assert(correct == is_correct(qs[i as int], answers@));
                if correct {
                    let ghost before = total;
                    let ghost target = correct_units(qs.subrange(0, i + 1), answers@);
                    proof {
                        if exact && sums_fit(qs, answers@) {
                            assert(fits_at(target, places(qs)));
                            lemma_fits_at_fewer_places(
                                target,
                                places(qs),
                                max_scale(before.scale_of(), effective.scale_of()),
                            );
                        }
                    }
                    match total.checked_add(&effective) {
                        Some(t) => {
                            total = t;
                        },
                        None => {
                            return None;
                        },
                    }
                    proof {
                        if exact && !fits_at(target, max_scale(before.scale_of(), effective.scale_of())) {
                            if sums_fit(qs, answers@) {
                                assert(fits_at(target, places(qs)));
                                lemma_fits_at_fewer_places(
                                    target,
                                    places(qs),
                                    max_scale(before.scale_of(), effective.scale_of()),
                                );
                            }
                            exact = false;
                        }
                    }
                    entries.push((key, ScoreEntry::Points(effective)));
                } else {
                    entries.push((key, ScoreEntry::Points(Score::zero())));
                }
            },
        }
        i = i + 1;
    }
    proof {
        assert(qs.subrange(0, qs.len() as int) =~= qs);
        lemma_regraded_sum_matches_total(entries@, qs, answers@);
    }
    Some(Grading { question_scores: entries, total, has_ungraded })
}

/// The stored per-question scores of an attempt: absent, a JSON object's entries,
/// or a JSON value that is not an object.
#[derive(Debug)]
pub enum ScoreSheet {
    Missing,
    Entries(Vec<(String, ScoreEntry)>),
    Malformed,
}

/// No key occurs twice.
pub open spec fn keys_unique(s: Seq<(String, ScoreEntry)>) -> bool {
    forall|i: int, j: int| 0 <= i < j < s.len() ==> (#[trigger] s[i]).0@ != (#[trigger] s[j]).0@
}

/// The entry under `k` (the last one, as a map insert would leave it).
pub open spec fn entry_of(s: Seq<(String, ScoreEntry)>, k: Seq<char>) -> Option<ScoreEntry>
    decreases s.len(),
{
    if s.len() == 0 {
        None
    } else if s.last().0@ == k {
        Some(s.last().1)
    } else {
        entry_of(s.drop_last(), k)
    }
}

/// The score a teacher gave under `k` (the last one given).
pub open spec fn essay_of(e: Seq<(String, Score)>, k: Seq<char>) -> Option<Score>
    decreases e.len(),
{
    if e.len() == 0 {
        None
    } else if e.last().0@ == k {
        Some(e.last().1)
    } else {
        essay_of(e.drop_last(), k)
    }
}

/// Sum, in units of 10^-28, of the points in the entries (other entries count 0).
pub open spec fn points_units(s: Seq<(String, ScoreEntry)>) -> int
    decreases s.len(),
{
    if s.len() == 0 {
        0
    } else {
        points_units(s.drop_last()) + match s.last().1 {
            ScoreEntry::Points(p) => p.units(),
            _ => 0,
        }
    }
}

/// The largest number of decimal places among the points.
pub open spec fn points_places(s: Seq<(String, ScoreEntry)>) -> nat
    decreases s.len(),
{
    if s.len() == 0 {
        0
    } else {
        match s.last().1 {
            ScoreEntry::Points(p) => max_scale(points_places(s.drop_last()), p.scale_of()),
            _ => points_places(s.drop_last()),
        }
    }
}

/// Every running total of the points fits with their largest number of places.
pub open spec fn points_fit(s: Seq<(String, ScoreEntry)>) -> bool {
    forall|j: int| 0 <= j < s.len() ==> fits_at(#[trigger] points_units(s.subrange(0, j + 1)), points_places(s))
}

/// Some entry still waits for grading.
pub open spec fn has_pending(s: Seq<(String, ScoreEntry)>) -> bool {
    exists|i: int| 0 <= i < s.len() && (#[trigger] s[i]).1 is Pending
}

proof fn lemma_entry_of_push(s: Seq<(String, ScoreEntry)>, x: (String, ScoreEntry), k: Seq<char>)
    ensures
        entry_of(s.push(x), k) == if x.0@ == k { Some(x.1) } else { entry_of(s, k) },
{
    assert(s.push(x).drop_last() =~= s);
}

proof fn lemma_entry_of_update(s: Seq<(String, ScoreEntry)>, j: int, e: ScoreEntry, k: Seq<char>)
    requires
        0 <= j < s.len(),
        keys_unique(s),
    ensures
        entry_of(s.update(j, (s[j].0, e)), k) == if s[j].0@ == k { Some(e) } else { entry_of(s, k) },
    decreases s.len(),
{
    let t = s.update(j, (s[j].0, e));
    if j == s.len() - 1 {
        assert(t.drop_last() =~= s.drop_last());
    } else {
        assert(t.drop_last() =~= s.drop_last().update(j, (s[j].0, e)));
        assert(s.drop_last()[j] == s[j]);
        lemma_entry_of_update(s.drop_last(), j, e, k);
        if s[j].0@ == k {
            assert(s.last().0@ != k);
        }
    }
}

/// Sets the entry under `key`, replacing an existing one or appending a new one.
fn put_entry(sheet: &mut Vec<(String, ScoreEntry)>, key: String, e: ScoreEntry)
    requires
        keys_unique(old(sheet)@),
    ensures
        keys_unique(final(sheet)@),
        forall|k: Seq<char>| #[trigger] entry_of(final(sheet)@, k) == if k == key@ {
            Some(e)
        } else {
            entry_of(old(sheet)@, k)
        },
{
    let ghost s0 = sheet@;
    let mut j: usize = 0;
    let mut found = false;
    while j < sheet.len() && !found
        invariant
            sheet@ == s0,
            keys_unique(s0),
            j <= s0.len(),
            found ==> j < s0.len() && s0[j as int].0@ == key@,
            !found ==> forall|t: int| 0 <= t < j ==> (#[trigger] s0[t]).0@ != key@,
        decreases s0.len() - j + (if found { 0int } else { 1int }),
    {
        if same_text(sheet[j].0.as_str(), key.as_str()) {
            found = true;
        } else {
            j = j + 1;
        }
    }
    if found {
        let old_key = sheet[j].0.clone();
        sheet.set(j, (old_key, e));
        proof {
            assert(sheet@ =~= s0.update(j as int, (s0[j as int].0, e)));
            assert forall|k: Seq<char>| #[trigger] entry_of(sheet@, k) == if k == key@ {
                Some(e)
            } else {
                entry_of(s0, k)
            } by {
                lemma_entry_of_update(s0, j as int, e, k);
            }
            assert forall|a: int, b: int| 0 <= a < b < sheet@.len() implies (#[trigger] sheet@[a]).0@
                != (#[trigger] sheet@[b]).0@ by {
                assert(sheet@[a].0@ == s0[a].0@);
                assert(sheet@[b].0@ == s0[b].0@);
            }
        }
    } else {
        let ghost kv = key@;
        sheet.push((key, e));
        proof {
            assert(sheet@ =~= s0.push((sheet@.last().0, e)));
            assert forall|k: Seq<char>| #[trigger] entry_of(sheet@, k) == if k == kv {
                Some(e)
            } else {
                entry_of(s0, k)
            } by {
                lemma_entry_of_push(s0, sheet@.last(), k);
            }
        }
    }
}

/// Merges the scores a teacher gave into the stored per-question scores: each
/// given score replaces the entry under its key, or is added. Stored scores that
/// are not a JSON object are an internal error.
pub fn merge_essay_scores(sheet: ScoreSheet, essay_scores: &Vec<(String, Score)>) -> (r: Result<
    Vec<(String, ScoreEntry)>,
    ApiError,
>)
    requires
        sheet matches ScoreSheet::Entries(v) ==> keys_unique(v@),
    ensures
        sheet is Malformed <==> r is Err,
        r matches Err(e) ==> e.status == Status::InternalServerError && e.message@
            == "question_scores 格式异常"@,
        r matches Ok(v) ==> keys_unique(v@),
        r matches Ok(v) ==> forall|k: Seq<char>| #[trigger] entry_of(v@, k) == match essay_of(essay_scores@, k) {
            Some(p) => Some(ScoreEntry::Points(p)),
            None => match sheet {
                ScoreSheet::Entries(base) => entry_of(base@, k),
                _ => None,
            },
        },
{
    let ghost sheet0 = sheet;
    let mut v: Vec<(String, ScoreEntry)> = match sheet {
        ScoreSheet::Missing => Vec::new(),
        ScoreSheet::Entries(base) => base,
        ScoreSheet::Malformed => {
            return Err(api_error(Status::InternalServerError, "question_scores 格式异常"));
        },
    };
    let ghost base = v@;
    let mut i: usize = 0;
    proof {
        assert forall|k: Seq<char>| #[trigger] entry_of(v@, k) == match essay_of(essay_scores@.subrange(0, 0), k) {
            Some(p) => Some(ScoreEntry::Points(p)),
            None => entry_of(base, k),
        } by {
            assert(essay_scores@.subrange(0, 0).len() == 0);
        }
    }
    while i < essay_scores.len()
        invariant
            i <= essay_scores@.len(),
            keys_unique(v@),
            forall|k: Seq<char>| #[trigger] entry_of(v@, k) == match essay_of(essay_scores@.subrange(0, i as int), k) {
                Some(p) => Some(ScoreEntry::Points(p)),
                None => entry_of(base, k),
            },
        decreases essay_scores@.len() - i,
    {
        let key = essay_scores[i].0.clone();
        let p = essay_scores[i].1.copy();
        let ghost before = v@;
        put_entry(&mut v, key, ScoreEntry::Points(p));
        proof {
            let pre = essay_scores@.subrange(0, i as int);
            let pre1 = essay_scores@.subrange(0, i + 1);
            assert(pre1.drop_last() =~= pre);
            assert(pre1.last() == essay_scores@[i as int]);
        }
        i = i + 1;
    }
    proof {
        assert(essay_scores@.subrange(0, essay_scores@.len() as int) =~= essay_scores@);
        match sheet0 {
            ScoreSheet::Missing => {
                assert(base.len() == 0);
            },
            _ => {},
        }
    }
    Ok(v)
}

/// Totals the points in the entries. `None` only when a running total
/// overflowed the decimal range.
pub fn sum_question_scores(entries: &Vec<(String, ScoreEntry)>) -> (r: Option<Score>)
    ensures
        points_fit(entries@) ==> (r is Some && r.unwrap().units() == points_units(entries@)),
{
    let ghost s = entries@;
    let mut total = Score::zero();
    let ghost mut exact = true;
    let mut i: usize = 0;
    proof {
        lemma_points_places_bound(s);
        assert(s.subrange(0, 0) =~= Seq::<(String, ScoreEntry)>::empty());
    }
    while i < entries.len()
        invariant
            s == entries@,
            i <= s.len(),
            total.scale_of() <= points_places(s),
            exact ==> total.units() == points_units(s.subrange(0, i as int)),
            !exact ==> !points_fit(s),
            forall|k: int| 0 <= k < s.len() ==> match (#[trigger] s[k]).1 {
                ScoreEntry::Points(p) => p.scale_of() <= points_places(s),
                _ => true,
            },
        decreases s.len() - i,
    {
        assert(s.subrange(0, i + 1).drop_last() =~= s.subrange(0, i as int));
        assert(s.subrange(0, i + 1).last() == s[i as int]);
        match &entries[i].1 {
            ScoreEntry::Points(p) => {
                let ghost before = total;
                let ghost target = points_units(s.subrange(0, i + 1));
                proof {
                    if exact && points_fit(s) {
                        assert(fits_at(target, points_places(s)));
                        lemma_fits_at_fewer_places(target, points_places(s), max_scale(before.scale_of(), p.scale_of()));
                    }
                }
                match total.checked_add(p) {
                    Some(t) => {
                        total = t;
                    },
                    None => {
                        return None;
                    },
                }
                proof {
                    if exact && !fits_at(target, max_scale(before.scale_of(), p.scale_of())) {
                        if points_fit(s) {
                            assert(fits_at(target, points_places(s)));
                            lemma_fits_at_fewer_places(target, points_places(s), max_scale(before.scale_of(), p.scale_of()));
                        }
                        exact = false;
                    }
                }
            },
            _ => {},
        }
        i = i + 1;
    }
    proof {
        assert(s.subrange(0, s.len() as int) =~= s);
    }
    Some(total)
}

proof fn lemma_points_places_bound(s: Seq<(String, ScoreEntry)>)
    ensures
        forall|k: int| 0 <= k < s.len() ==> match (#[trigger] s[k]).1 {
            ScoreEntry::Points(p) => p.scale_of() <= points_places(s),
            _ => true,
        },
    decreases s.len(),
{
    if s.len() > 0 {
        lemma_points_places_bound(s.drop_last());
        assert forall|k: int| 0 <= k < s.len() implies match (#[trigger] s[k]).1 {
            ScoreEntry::Points(p) => p.scale_of() <= points_places(s),
            _ => true,
        } by {
            if k < s.len() - 1 {
                assert(s.drop_last()[k] == s[k]);
            }
        }
    }
}

/// Each entry is the one grading gives the question at its position.
pub open spec fn graded_entries(
    entries: Seq<(String, ScoreEntry)>,
    qs: Seq<QuestionInExam>,
    answers: Seq<(String, Answer)>,
) -> bool {
    entries.len() == qs.len() && forall|i: int| 0 <= i < qs.len() ==> entry_for(#[trigger] entries[i].1, qs[i], answers)
}

proof fn lemma_graded_prefix(
    entries: Seq<(String, ScoreEntry)>,
    qs: Seq<QuestionInExam>,
    answers: Seq<(String, Answer)>,
    n: int,
)
    requires
        graded_entries(entries, qs, answers),
        0 <= n <= qs.len(),
    ensures
        graded_entries(entries.subrange(0, n), qs.subrange(0, n), answers),
{
    assert forall|i: int| 0 <= i < n implies entry_for(#[trigger] entries.subrange(0, n)[i].1, qs.subrange(0, n)[i], answers) by {
        assert(entries.subrange(0, n)[i] == entries[i]);
        assert(qs.subrange(0, n)[i] == qs[i]);
    }
}

proof fn lemma_graded_sums(
    entries: Seq<(String, ScoreEntry)>,
    qs: Seq<QuestionInExam>,
    answers: Seq<(String, Answer)>,
)
    requires
        graded_entries(entries, qs, answers),
    ensures
        points_units(entries) == correct_units(qs, answers),
        points_places(entries) <= places(qs),
    decreases qs.len(),
{
    if qs.len() > 0 {
        let n = qs.len() - 1;
        lemma_graded_prefix(entries, qs, answers, n);
        assert(entries.subrange(0, n) =~= entries.drop_last());
        assert(qs.subrange(0, n) =~= qs.drop_last());
        lemma_graded_sums(entries.drop_last(), qs.drop_last(), answers);
        assert(entries[n] == entries.last());
        assert(qs[n] == qs.last());
        assert(entry_for(entries.last().1, qs.last(), answers));
    }
}

/// Re-summing the points of the entries automatic grading stored gives the
/// total it reported: with `sum_question_scores`' contract, the sum is present
/// and equal to that total whenever grading's own running totals fit.
pub proof fn lemma_regraded_sum_matches_total(
    entries: Seq<(String, ScoreEntry)>,
    qs: Seq<QuestionInExam>,
    answers: Seq<(String, Answer)>,
)
    requires
        graded_entries(entries, qs, answers),
    ensures
        points_units(entries) == correct_units(qs, answers),
        sums_fit(qs, answers) ==> points_fit(entries),
{
    lemma_graded_sums(entries, qs, answers);
    if sums_fit(qs, answers) {
        assert forall|j: int| 0 <= j < entries.len() implies fits_at(
            #[trigger] points_units(entries.subrange(0, j + 1)),
            points_places(entries),
        ) by {
            lemma_graded_prefix(entries, qs, answers, j + 1);
            lemma_graded_sums(entries.subrange(0, j + 1), qs.subrange(0, j + 1), answers);
            assert(fits_at(correct_units(qs.subrange(0, j + 1), answers), places(qs)));
            lemma_fits_at_fewer_places(
                correct_units(qs.subrange(0, j + 1), answers),
                places(qs),
                points_places(entries),
            );
        }
    }
}

/// The stored entries of a sheet (none when it is missing or malformed).
pub open spec fn sheet_entries(sheet: ScoreSheet) -> Seq<(String, ScoreEntry)> {
    match sheet {
        ScoreSheet::Entries(v) => v@,
        _ => Seq::empty(),
    }
}

/// Every entry of `base` that waits for grading is given a score in `essay`.
pub open spec fn covers_pending(base: Seq<(String, ScoreEntry)>, essay: Seq<(String, Score)>) -> bool {
    forall|i: int| 0 <= i < base.len() && (#[trigger] base[i]).1 is Pending ==> essay_of(essay, base[i].0@) is Some
}

proof fn lemma_entry_of_index(s: Seq<(String, ScoreEntry)>, i: int)
    requires
        keys_unique(s),
        0 <= i < s.len(),
    ensures
        entry_of(s, s[i].0@) == Some(s[i].1),
    decreases s.len(),
{
    if i < s.len() - 1 {
        assert(s.last().0@ != s[i].0@);
        assert(s.drop_last()[i] == s[i]);
        assert forall|a: int, b: int| 0 <= a < b < s.drop_last().len() implies (#[trigger] s.drop_last()[a]).0@
            != (#[trigger] s.drop_last()[b]).0@ by {
            assert(s.drop_last()[a] == s[a]);
            assert(s.drop_last()[b] == s[b]);
        }
        lemma_entry_of_index(s.drop_last(), i);
    }
}

proof fn lemma_entry_of_member(s: Seq<(String, ScoreEntry)>, k: Seq<char>)
    requires
        entry_of(s, k) is Some,
    ensures
        exists|i: int| 0 <= i < s.len() && (#[trigger] s[i]).0@ == k && s[i].1 == entry_of(s, k).unwrap(),
    decreases s.len(),
{
    if s.last().0@ != k {
        lemma_entry_of_member(s.drop_last(), k);
        let i = choose|i: int| 0 <= i < s.drop_last().len() && (#[trigger] s.drop_last()[i]).0@ == k
            && s.drop_last()[i].1 == entry_of(s.drop_last(), k).unwrap();
        assert(s[i] == s.drop_last()[i]);
    } else {
        assert(s[s.len() - 1] == s.last());
    }
}

/// After a merge, an entry waits for grading exactly when some waiting entry
/// of the stored sheet was given no score.
pub(crate) proof fn lemma_merge_pending(
    base: Seq<(String, ScoreEntry)>,
    essay: Seq<(String, Score)>,
    merged: Seq<(String, ScoreEntry)>,
)
    requires
        keys_unique(base),
        keys_unique(merged),
        forall|k: Seq<char>| #[trigger] entry_of(merged, k) == match essay_of(essay, k) {
            Some(p) => Some(ScoreEntry::Points(p)),
            None => entry_of(base, k),
        },
    ensures
        has_pending(merged) <==> !covers_pending(base, essay),
{
    if has_pending(merged) {
        let i = choose|i: int| 0 <= i < merged.len() && (#[trigger] merged[i]).1 is Pending;
        let k = merged[i].0@;
        lemma_entry_of_index(merged, i);
        assert(entry_of(merged, k) == Some(merged[i].1));
        assert(essay_of(essay, k) is None);
        assert(entry_of(base, k) == Some(merged[i].1));
        lemma_entry_of_member(base, k);
        let j = choose|j: int| 0 <= j < base.len() && (#[trigger] base[j]).0@ == k && base[j].1
            == entry_of(base, k).unwrap();
        assert(base[j].1 is Pending && essay_of(essay, base[j].0@) is None);
    }
    if !covers_pending(base, essay) {
        let j = choose|j: int| !(0 <= j < base.len() && (#[trigger] base[j]).1 is Pending ==> essay_of(
            essay,
            base[j].0@,
        ) is Some);
        let k = base[j].0@;
        lemma_entry_of_index(base, j);
        assert(entry_of(merged, k) == Some(base[j].1));
        lemma_entry_of_member(merged, k);
        let i = choose|i: int| 0 <= i < merged.len() && (#[trigger] merged[i]).0@ == k && merged[i].1
            == entry_of(merged, k).unwrap();
        assert(merged[i].1 is Pending);
    }
}

/// Whether some entry still waits for grading (a JSON `null`).
pub fn has_null_scores(entries: &Vec<(String, ScoreEntry)>) -> (r: bool)
    ensures
        r == has_pending(entries@),
{
    let mut i: usize = 0;
    while i < entries.len()
        invariant
            i <= entries@.len(),
            forall|k: int| 0 <= k < i ==> !((#[trigger] entries@[k]).1 is Pending),
        decreases entries@.len() - i,
    {
        if let ScoreEntry::Pending = entries[i].1 {
            return true;
        }
        i = i + 1;
    }
    false
}

} // verus!
