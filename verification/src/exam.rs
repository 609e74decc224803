//! Exams and attempts: who may see and take an exam, what a student is shown,
//! and what grading leaves behind.
use vstd::prelude::*;
use crate::grading::{
    Answer, ListItem, QuestionInExam, ScoreEntry, ScoreSheet, entry_of, essay_of, has_pending,
    keys_unique, lookup, merge_essay_scores, points_fit, points_units, sum_question_scores,
    has_null_scores, covers_pending, sheet_entries, lemma_merge_pending,
};
use crate::model::{
    ApiError, AuthContext, QuestionType, Status, UserRole, api_error, uuid_text, uuid_text_of,
};
use crate::score::Score;
use crate::text::{int_text, int_text_of, trim, trimmed, same_text};

verus! {

/// An exam (quiz) with what the checks and the student view read of it.
#[derive(Debug)]
pub struct Quiz {
    pub id: u128,
    pub course_id: u128,
    pub chapter_id: Option<u128>,
    pub title: String,
    pub description: Option<String>,
    pub time_limit: Option<i32>,
    pub total_score: Score,
    pub pass_score: Score,
    pub max_attempts: Option<i32>,
    pub is_published: bool,
}

/// An attempt at an exam, with what the checks read of it.
#[derive(Debug)]
pub struct QuizAttempt {
    pub id: u128,
    pub user_id: u128,
    pub quiz_id: u128,
    pub submitted: bool,
}

/// A question as a student taking the exam sees it: no correct answer.
#[derive(Debug)]
pub struct ExamQuestionForStudent {
    pub question_id: u128,
    pub question_type: QuestionType,
    pub content: String,
    pub options: Option<String>,
    pub score: Score,
    pub sort_order: i32,
}

/// One question of an attempt's detail view.
#[derive(Debug)]
pub struct AttemptQuestionResult {
    pub question_id: u128,
    pub question_type: QuestionType,
    pub content: String,
    pub options: Option<String>,
    pub effective_score: Score,
    pub student_answer: Option<Answer>,
    pub earned_score: Option<Score>,
    pub is_correct: Option<bool>,
    pub correct_answer: Option<Answer>,
    pub explanation: Option<String>,
}

/// Scores after a teacher graded essays.
#[derive(Debug)]
pub struct Regrade {
    pub question_scores: Vec<(String, ScoreEntry)>,
    /// `None` only when the total overflowed the decimal range.
    pub total: Option<Score>,
    /// No entry waits for grading any more.
    pub all_graded: bool,
}

/// Teachers and administrators.
pub open spec fn staff(role: UserRole) -> bool {
    role == UserRole::Admin || role == UserRole::Teacher
}

/// Whether the role is a teacher's or an administrator's.
pub fn is_staff(role: &UserRole) -> (r: bool)
    ensures
        r == staff(*role),
{
    match role {
        UserRole::Admin | UserRole::Teacher => true,
        UserRole::Student => false,
    }
}

/// Teachers and administrators may take part in any exam; students only once enrolled.
pub fn ensure_enrolled_or_teacher(auth: &AuthContext, enrolled: bool) -> (r: Result<(), ApiError>)
    ensures
        r is Ok <==> (staff(auth.role) || enrolled),
        r matches Err(e) ==> e.status == Status::Forbidden && e.message@ == "请先选课才能参加测试"@,
{
    if is_staff(&auth.role) || enrolled {
        Ok(())
    } else {
        Err(api_error(Status::Forbidden, "请先选课才能参加测试"))
    }
}

/// The exam, when it exists, belongs to the course and is published.
pub fn published_exam(exam: Option<Quiz>, course_id: u128) -> (r: Result<Quiz, ApiError>)
    ensures
        r is Ok <==> (exam matches Some(q) && q.course_id == course_id && q.is_published),
        r matches Ok(q) ==> exam == Some(q),
        r matches Err(e) ==> e.status == Status::NotFound,
        exam is None ==> (r matches Err(e) && e.message@ == "试卷不存在"@),
        (exam matches Some(q) && q.course_id != course_id) ==> (r matches Err(e) && e.message@
            == "试卷不属于该课程"@),
        (exam matches Some(q) && q.course_id == course_id && !q.is_published) ==> (r matches Err(e)
            && e.message@ == "试卷不存在或尚未发布"@),
{
    match exam {
        None => Err(api_error(Status::NotFound, "试卷不存在")),
        Some(q) => {
            if q.course_id != course_id {
                Err(api_error(Status::NotFound, "试卷不属于该课程"))
            } else if !q.is_published {
                Err(api_error(Status::NotFound, "试卷不存在或尚未发布"))
            } else {
                Ok(q)
            }
        },
    }
}

/// The attempt exists and belongs to the exam; a student may only reach their own.
pub fn attempt_access(auth: &AuthContext, attempt: Option<QuizAttempt>, exam_id: u128) -> (r: Result<
    QuizAttempt,
    ApiError,
>)
    ensures
        r is Ok <==> (attempt matches Some(a) && a.quiz_id == exam_id && (auth.role
            != UserRole::Student || a.user_id == auth.user_id)),
        r matches Ok(a) ==> attempt == Some(a),
        r matches Err(e) ==> (e.status == Status::NotFound || e.status == Status::Forbidden),
        r matches Err(e) ==> (e.status == Status::Forbidden <==> (attempt matches Some(a) && a.quiz_id
            == exam_id)),
        attempt is None ==> (r matches Err(e) && e.message@ == "答题记录不存在"@),
        (attempt matches Some(a) && a.quiz_id != exam_id) ==> (r matches Err(e) && e.message@
            == "答题记录不属于该试卷"@),
        r matches Err(e) ==> (e.status == Status::Forbidden ==> e.message@ == "无权查看他人的答题记录"@),
{
    match attempt {
        None => Err(api_error(Status::NotFound, "答题记录不存在")),
        Some(a) => {
            if a.quiz_id != exam_id {
                Err(api_error(Status::NotFound, "答题记录不属于该试卷"))
            } else if auth.role == UserRole::Student && a.user_id != auth.user_id {
                Err(api_error(Status::Forbidden, "无权查看他人的答题记录"))
            } else {
                Ok(a)
            }
        },
    }
}

/// The text of the refusal when the attempt limit is reached.
pub open spec fn attempt_limit_message(max: int) -> Seq<char> {
    "已达最大答题次数限制（"@ + int_text_of(max) + " 次），无法再次作答"@
}

/// A new attempt may start when the limit (if any) is not reached by the
/// submitted attempts and none of the caller's attempts is still open.
pub fn start_attempt_check(max_attempts: Option<i32>, submitted_count: i64, my_attempts_submitted: &Vec<
    bool,
>) -> (r: Result<(), ApiError>)
    ensures
        r is Ok <==> ((max_attempts matches Some(m) ==> submitted_count < m) && forall|i: int|
            0 <= i < my_attempts_submitted@.len() ==> #[trigger] my_attempts_submitted@[i]),
        r matches Err(e) ==> e.status == Status::BadRequest,
        r matches Err(e) ==> ((max_attempts is None || submitted_count < max_attempts.unwrap())
            ==> e.message@ == "您有一次未完成的答题，请先提交或等待超时"@),
        r matches Err(e) ==> (max_attempts is Some && submitted_count >= max_attempts.unwrap() ==> e.message@
            == attempt_limit_message(max_attempts.unwrap() as int)),
{
    if let Some(max) = max_attempts {
        if submitted_count >= max as i64 {
            let mut msg = String::from_str("已达最大答题次数限制（");
            let n = int_text(max as i64);
            msg.append(n.as_str());
            msg.append(" 次），无法再次作答");
            return Err(ApiError { status: Status::BadRequest, message: msg });
        }
    }
    let mut i: usize = 0;
    while i < my_attempts_submitted.len()
        invariant
            i <= my_attempts_submitted@.len(),
            max_attempts is Some ==> submitted_count < max_attempts.unwrap(),
            forall|k: int| 0 <= k < i ==> #[trigger] my_attempts_submitted@[k],
        decreases my_attempts_submitted@.len() - i,
    {
        if !my_attempts_submitted[i] {
            return Err(api_error(Status::BadRequest, "您有一次未完成的答题，请先提交或等待超时"));
        }
        i = i + 1;
    }
    Ok(())
}

/// The exam's questions as a student taking it sees them: the effective score,
/// and no correct answer or explanation.
pub fn student_questions(questions: Vec<QuestionInExam>) -> (r: Vec<ExamQuestionForStudent>)
    ensures
        r@.len() == questions@.len(),
        forall|i: int| 0 <= i < r@.len() ==> {
            let q = questions@[i];
            let s = #[trigger] r@[i];
            &&& s.question_id == q.question_id
            &&& s.question_type == q.question_type
            &&& s.content == q.content
            &&& s.options == q.options
            &&& s.score == q.effective()
            &&& s.sort_order == q.sort_order
        },
{
    let ghost qs = questions@;
    let n = questions.len();
    let mut out: Vec<ExamQuestionForStudent> = Vec::new();
    let mut rest = questions;
    let mut i: usize = 0;
    assert(rest@ =~= qs.subrange(0, qs.len() as int));
    while rest.len() > 0
        invariant
            out@.len() == i,
            n == qs.len(),
            i + rest@.len() == qs.len(),
            rest@ =~= qs.subrange(i as int, qs.len() as int),
            forall|k: int| 0 <= k < i ==> {
                let q = qs[k];
                let s = #[trigger] out@[k];
                &&& s.question_id == q.question_id
                &&& s.question_type == q.question_type
                &&& s.content == q.content
                &&& s.options == q.options
                &&& s.score == q.effective()
                &&& s.sort_order == q.sort_order
            },
        decreases rest@.len(),
    {
        let q = rest.remove(0);
        assert(q == qs[i as int]);
        let score = q.effective_score();
        out.push(
            ExamQuestionForStudent {
                question_id: q.question_id,
                question_type: q.question_type,
                content: q.content,
                options: q.options,
                score,
                sort_order: q.sort_order,
            },
        );
        assert(rest@ =~= qs.subrange(i + 1, qs.len() as int));
        i = i + 1;
    }
    out
}

/// An attempt may be submitted once.
pub fn submit_check(attempt: &QuizAttempt) -> (r: Result<(), ApiError>)
    ensures
        r is Ok <==> !attempt.submitted,
        r matches Err(e) ==> e.status == Status::BadRequest && e.message@
            == "该答题记录已提交，不能重复提交"@,
{
    if attempt.submitted {
        Err(api_error(Status::BadRequest, "该答题记录已提交，不能重复提交"))
    } else {
        Ok(())
    }
}

/// A copy of a list item.
fn copy_item(x: &ListItem) -> (r: ListItem)
    ensures
        r == *x,
{
    match x {
        ListItem::Text(s) => ListItem::Text(s.clone()),
        ListItem::Other(s) => ListItem::Other(s.clone()),
    }
}

/// Two answers hold the same value.
pub open spec fn same_answer(x: Answer, y: Answer) -> bool {
    match (x, y) {
        (Answer::Text(a), Answer::Text(b)) => a == b,
        (Answer::Flag(a), Answer::Flag(b)) => a == b,
        (Answer::List(a), Answer::List(b)) => a@ == b@,
        (Answer::Other(a), Answer::Other(b)) => a == b,
        _ => false,
    }
}

/// Two optional answers are both absent, or both present with the same value.
pub open spec fn same_opt_answer(x: Option<Answer>, y: Option<Answer>) -> bool {
    match (x, y) {
        (Some(a), Some(b)) => same_answer(a, b),
        (None, None) => true,
        _ => false,
    }
}

/// A copy of an answer.
pub fn copy_answer(a: &Answer) -> (r: Answer)
    ensures
        same_answer(r, *a),
{
    match a {
        Answer::Text(s) => {
            let c = s.clone();
            assert(c == *s);
            Answer::Text(c)
        },
        Answer::Flag(b) => Answer::Flag(*b),
        Answer::Other(s) => Answer::Other(s.clone()),
        Answer::List(items) => {
            let mut v: Vec<ListItem> = Vec::new();
            let mut i: usize = 0;
            while i < items.len()
                invariant
                    i <= items@.len(),
                    v@ == items@.subrange(0, i as int),
                decreases items@.len() - i,
            {
                v.push(copy_item(&items[i]));
                assert(v@ =~= items@.subrange(0, i + 1));
                i = i + 1;
            }
            assert(v@ =~= items@);
            Answer::List(v)
        },
    }
}

/// The points an entry records, if it records points.
pub open spec fn points_of(e: Option<ScoreEntry>) -> Option<Score> {
    match e {
        Some(ScoreEntry::Points(p)) => Some(p),
        _ => None,
    }
}

/// The points recorded under `key` (the first entry with that key).
fn find_points(entries: &Vec<(String, ScoreEntry)>, key: &String) -> (r: Option<Score>)
    ensures
        r == points_of(first_entry(entries@, key@)),
{
    let mut i: usize = 0;
    assert(entries@.subrange(0, entries@.len() as int) =~= entries@);
    while i < entries.len()
        invariant
            i <= entries@.len(),
            first_entry(entries@, key@) == first_entry(entries@.subrange(i as int, entries@.len() as int), key@),
        decreases entries@.len() - i,
    {
        let ghost rest = entries@.subrange(i as int, entries@.len() as int);
        if same_text(entries[i].0.as_str(), key.as_str()) {
            return match &entries[i].1 {
                ScoreEntry::Points(p) => Some(p.copy()),
                _ => None,
            };
        }
        assert(rest.drop_first() =~= entries@.subrange(i + 1, entries@.len() as int));
        i = i + 1;
    }
    None
}

/// The first entry under `key`.
pub open spec fn first_entry(s: Seq<(String, ScoreEntry)>, key: Seq<char>) -> Option<ScoreEntry>
    decreases s.len(),
{
    if s.len() == 0 {
        None
    } else if s[0].0@ == key {
        Some(s[0].1)
    } else {
        first_entry(s.drop_first(), key)
    }
}

/// The answer stored under `key`.
fn find_answer_copy(answers: &Vec<(String, Answer)>, key: &String) -> (r: Option<Answer>)
    ensures
        same_opt_answer(r, lookup(answers@, key@)),
{
    let mut i: usize = 0;
    assert(answers@.subrange(0, answers@.len() as int) =~= answers@);
    while i < answers.len()
        invariant
            i <= answers@.len(),
            lookup(answers@, key@) == lookup(answers@.subrange(i as int, answers@.len() as int), key@),
        decreases answers@.len() - i,
    {
        let ghost rest = answers@.subrange(i as int, answers@.len() as int);
        if same_text(answers[i].0.as_str(), key.as_str()) {
            return Some(copy_answer(&answers[i].1));
        }
        assert(rest.drop_first() =~= answers@.subrange(i + 1, answers@.len() as int));
        i = i + 1;
    }
    None
}

/// What the detail view shows of one question: before submission only the
/// question and its effective score; after submission also the student's answer,
/// the points earned, whether an objective answer earned points, the correct
/// answer and the explanation.
pub open spec fn result_for(
    r: AttemptQuestionResult,
    q: QuestionInExam,
    submitted: bool,
    answers: Seq<(String, Answer)>,
    scores: Seq<(String, ScoreEntry)>,
) -> bool {
    let key = uuid_text_of(q.question_id);
    let earned = points_of(first_entry(scores, key));
    &&& r.question_id == q.question_id
    &&& r.question_type == q.question_type
    &&& r.content == q.content
    &&& r.options == q.options
    &&& r.effective_score == q.effective()
    &&& same_opt_answer(r.student_answer, if submitted { lookup(answers, key) } else { None })
    &&& r.earned_score == (if submitted { earned } else { None })
    &&& r.is_correct == (if submitted && q.question_type != QuestionType::Essay {
        match earned {
            Some(p) => Some(p.units() > 0),
            None => None,
        }
    } else {
        None
    })
    &&& r.correct_answer == (if submitted { q.correct_answer } else { None })
    &&& r.explanation == (if submitted { q.explanation } else { None })
}

/// The per-question detail of an attempt (see `result_for`).
pub fn attempt_results(
    submitted: bool,
    answers: &Vec<(String, Answer)>,
    scores: &Vec<(String, ScoreEntry)>,
    questions: Vec<QuestionInExam>,
) -> (r: Vec<AttemptQuestionResult>)
    ensures
        r@.len() == questions@.len(),
        forall|i: int| 0 <= i < r@.len() ==> result_for(#[trigger] r@[i], questions@[i], submitted, answers@, scores@),
{
    let ghost qs = questions@;
    let n = questions.len();
    let mut out: Vec<AttemptQuestionResult> = Vec::new();
    let mut rest = questions;
    let mut i: usize = 0;
    assert(rest@ =~= qs.subrange(0, qs.len() as int));
    while rest.len() > 0
        invariant
            out@.len() == i,
            n == qs.len(),
            i + rest@.len() == qs.len(),
            rest@ =~= qs.subrange(i as int, qs.len() as int),
            forall|k: int| 0 <= k < i ==> result_for(#[trigger] out@[k], qs[k], submitted, answers@, scores@),
        decreases rest@.len(),
    {
        let q = rest.remove(0);
        assert(q == qs[i as int]);
        let key = uuid_text(q.question_id);
        let effective = q.effective_score();
        let (student_answer, earned_score) = if submitted {
            (find_answer_copy(answers, &key), find_points(scores, &key))
        } else {
            (None, None)
        };
        let is_correct = if submitted {
            match q.question_type {
                QuestionType::Essay => None,
                _ => match &earned_score {
                    Some(p) => Some(p.is_positive()),
                    None => None,
                },
            }
        } else {
            None
        };
        let (correct_answer, explanation) = if submitted {
            (q.correct_answer, q.explanation)
        } else {
            (None, None)
        };
        out.push(
            AttemptQuestionResult {
                question_id: q.question_id,
                question_type: q.question_type,
                content: q.content,
                options: q.options,
                effective_score: effective,
                student_answer,
                earned_score,
                is_correct,
                correct_answer,
                explanation,
            },
        );
        assert(rest@ =~= qs.subrange(i + 1, qs.len() as int));
        i = i + 1;
    }
    out
}

/// Only the course's teacher or an administrator may act on a course's exams:
/// students are refused with `student_message`, a missing course is not found,
/// another teacher is refused with `other_message`.
pub fn staff_course_access(
    auth: &AuthContext,
    course_teacher_id: Option<u128>,
    student_message: &str,
    other_message: &str,
) -> (r: Result<(), ApiError>)
    ensures
        r is Ok <==> (auth.role != UserRole::Student && course_teacher_id is Some && (auth.role
            == UserRole::Admin || course_teacher_id == Some(auth.user_id))),
        r matches Err(e) ==> (auth.role == UserRole::Student ==> e.status == Status::Forbidden
            && e.message@ == student_message@),
        r matches Err(e) ==> (auth.role != UserRole::Student && course_teacher_id is None ==> e.status
            == Status::NotFound && e.message@ == "课程不存在"@),
        r matches Err(e) ==> (auth.role != UserRole::Student && course_teacher_id is Some ==> e.status
            == Status::Forbidden && e.message@ == other_message@),
{
    if auth.role == UserRole::Student {
        return Err(api_error(Status::Forbidden, student_message));
    }
    match course_teacher_id {
        None => Err(api_error(Status::NotFound, "课程不存在")),
        Some(t) => {
            if auth.role != UserRole::Admin && t != auth.user_id {
                Err(api_error(Status::Forbidden, other_message))
            } else {
                Ok(())
            }
        },
    }
}

/// The exam exists and belongs to the course.
pub fn exam_in_course(exam: Option<Quiz>, course_id: u128) -> (r: Result<Quiz, ApiError>)
    ensures
        r is Ok <==> (exam matches Some(q) && q.course_id == course_id),
        r matches Ok(q) ==> exam == Some(q),
        r matches Err(e) ==> e.status == Status::NotFound,
        exam is None ==> (r matches Err(e) && e.message@ == "试卷不存在"@),
        exam is Some ==> (r matches Err(e) ==> e.message@ == "试卷不属于该课程"@),
{
    match exam {
        None => Err(api_error(Status::NotFound, "试卷不存在")),
        Some(q) => {
            if q.course_id != course_id {
                Err(api_error(Status::NotFound, "试卷不属于该课程"))
            } else {
                Ok(q)
            }
        },
    }
}

/// A submitted attempt of this exam may be graded.
pub fn gradable_attempt(attempt: Option<QuizAttempt>, exam_id: u128) -> (r: Result<QuizAttempt, ApiError>)
    ensures
        r is Ok <==> (attempt matches Some(a) && a.quiz_id == exam_id && a.submitted),
        r matches Ok(a) ==> attempt == Some(a),
        r matches Err(e) ==> (e.status == Status::BadRequest <==> (attempt matches Some(a) && a.quiz_id
            == exam_id)),
        r matches Err(e) ==> (e.status == Status::BadRequest || e.status == Status::NotFound),
        attempt is None ==> (r matches Err(e) && e.message@ == "答题记录不存在"@),
        (attempt matches Some(a) && a.quiz_id != exam_id) ==> (r matches Err(e) && e.message@
            == "答题记录不属于该试卷"@),
        r matches Err(e) ==> (e.status == Status::BadRequest ==> e.message@
            == "该答题记录尚未提交，不能批改"@),
{
    match attempt {
        None => Err(api_error(Status::NotFound, "答题记录不存在")),
        Some(a) => {
            if a.quiz_id != exam_id {
                Err(api_error(Status::NotFound, "答题记录不属于该试卷"))
            } else if !a.submitted {
                Err(api_error(Status::BadRequest, "该答题记录尚未提交，不能批改"))
            } else {
                Ok(a)
            }
        },
    }
}

/// Merges a teacher's essay scores into the stored scores, then totals them and
/// tells whether nothing waits for grading any more.
pub fn regrade(sheet: ScoreSheet, essay_scores: &Vec<(String, Score)>) -> (r: Result<Regrade, ApiError>)
    requires
        sheet matches ScoreSheet::Entries(v) ==> keys_unique(v@),
    ensures
        sheet is Malformed <==> r is Err,
        r matches Err(e) ==> e.status == Status::InternalServerError,
        r matches Ok(g) ==> keys_unique(g.question_scores@),
        r matches Ok(g) ==> forall|k: Seq<char>| #[trigger] entry_of(g.question_scores@, k) == match essay_of(
            essay_scores@,
            k,
        ) {
            Some(p) => Some(ScoreEntry::Points(p)),
            None => match sheet {
                ScoreSheet::Entries(base) => entry_of(base@, k),
                _ => None,
            },
        },
        r matches Ok(g) ==> g.all_graded == !has_pending(g.question_scores@),
        r matches Ok(g) ==> (g.all_graded <==> covers_pending(sheet_entries(sheet), essay_scores@)),
        r matches Ok(g) ==> (points_fit(g.question_scores@) ==> (g.total is Some && g.total.unwrap().units()
            == points_units(g.question_scores@))),
{
    let ghost base = sheet_entries(sheet);
    let merged = merge_essay_scores(sheet, essay_scores)?;
    proof {
        lemma_merge_pending(base, essay_scores@, merged@);
    }
    let total = sum_question_scores(&merged);
    let all_graded = !has_null_scores(&merged);
    Ok(Regrade { question_scores: merged, total, all_graded })
}

/// Administrators may act on any course; others only on a course they teach.
pub fn ensure_course_teacher(auth: &AuthContext, course_teacher_id: Option<u128>) -> (r: Result<(), ApiError>)
    ensures
        r is Ok <==> (auth.role == UserRole::Admin || course_teacher_id == Some(auth.user_id)),
        r matches Err(e) ==> (course_teacher_id is None ==> e.status == Status::NotFound
            && e.message@ == "课程不存在"@),
        r matches Err(e) ==> (course_teacher_id is Some ==> e.status == Status::Forbidden
            && e.message@ == "仅课程教师或管理员可操作"@),
{
    if auth.role == UserRole::Admin {
        return Ok(());
    }
    match course_teacher_id {
        None => Err(api_error(Status::NotFound, "课程不存在")),
        Some(t) => {
            if t != auth.user_id {
                Err(api_error(Status::Forbidden, "仅课程教师或管理员可操作"))
            } else {
                Ok(())
            }
        },
    }
}

/// The exam exists, and the caller is an administrator or teaches its course.
pub fn ensure_exam_owner(auth: &AuthContext, exam: Option<Quiz>, course_teacher_id: Option<u128>) -> (r:
    Result<Quiz, ApiError>)
    ensures
        r is Ok <==> (exam is Some && (auth.role == UserRole::Admin || course_teacher_id == Some(
            auth.user_id,
        ))),
        r matches Ok(q) ==> exam == Some(q),
        r matches Err(e) ==> (exam is None ==> e.status == Status::NotFound && e.message@
            == "试卷不存在"@),
        r matches Err(e) ==> (exam is Some && course_teacher_id is None ==> e.status == Status::NotFound),
        r matches Err(e) ==> (exam is Some && course_teacher_id is Some ==> e.status == Status::Forbidden),
{
    match exam {
        None => Err(api_error(Status::NotFound, "试卷不存在")),
        Some(q) => {
            ensure_course_teacher(auth, course_teacher_id)?;
            Ok(q)
        },
    }
}

/// The question exists and belongs to the course.
pub fn question_in_course(question_course_id: Option<u128>, course_id: u128) -> (r: Result<(), ApiError>)
    ensures
        r is Ok <==> question_course_id == Some(course_id),
        r matches Err(e) ==> e.status == Status::NotFound,
        question_course_id is None ==> (r matches Err(e) && e.message@ == "题目不存在"@),
        question_course_id is Some ==> (r matches Err(e) ==> e.message@ == "题目不属于该课程"@),
{
    match question_course_id {
        None => Err(api_error(Status::NotFound, "题目不存在")),
        Some(c) => {
            if c != course_id {
                Err(api_error(Status::NotFound, "题目不属于该课程"))
            } else {
                Ok(())
            }
        },
    }
}

/// A question added to an exam must come from the exam's course.
pub fn same_course_question(question_course_id: u128, exam_course_id: u128) -> (r: Result<(), ApiError>)
    ensures
        r is Ok <==> question_course_id == exam_course_id,
        r matches Err(e) ==> e.status == Status::BadRequest && e.message@
            == "该题目不属于试卷所在课程，无法加入"@,
{
    if question_course_id != exam_course_id {
        Err(api_error(Status::BadRequest, "该题目不属于试卷所在课程，无法加入"))
    } else {
        Ok(())
    }
}

/// A required text field: refused when it is empty after trimming.
pub fn require_text(value: &str, message: &str) -> (r: Result<(), ApiError>)
    ensures
        r is Ok <==> trimmed(value@).len() > 0,
        r matches Err(e) ==> e.status == Status::BadRequest && e.message@ == message@,
{
    let t = trim(value);
    if t.as_str().is_empty() {
        Err(api_error(Status::BadRequest, message))
    } else {
        Ok(())
    }
}

/// The exams a caller sees in a course's list: all of them for staff, only the
/// published ones (in order) for students.
pub fn visible_exams(exams: Vec<Quiz>, staff_view: bool) -> (r: Vec<Quiz>)
    ensures
        staff_view ==> r@ == exams@,
        !staff_view ==> r@ == exams@.filter(|q: Quiz| q.is_published),
{
    if staff_view {
        return exams;
    }
    let ghost src = exams@;
    let n = exams.len();
    let mut out: Vec<Quiz> = Vec::new();
    let mut rest = exams;
    let mut i: usize = 0;
    assert(rest@ =~= src.subrange(0, src.len() as int));
    assert(src.subrange(0, 0).filter(|q: Quiz| q.is_published) =~= Seq::<Quiz>::empty());
    while rest.len() > 0
        invariant
            n == src.len(),
            i + rest@.len() == src.len(),
            rest@ =~= src.subrange(i as int, src.len() as int),
            out@ == src.subrange(0, i as int).filter(|q: Quiz| q.is_published),
        decreases rest@.len(),
    {
        let q = rest.remove(0);
        assert(q == src[i as int]);
        let ghost pre = src.subrange(0, i as int);
        assert(src.subrange(0, i + 1) =~= pre.push(q));
        reveal_with_fuel(Seq::filter, 1);
        assert(pre.push(q).drop_last() =~= pre);
        if q.is_published {
            out.push(q);
        }
        assert(rest@ =~= src.subrange(i + 1, src.len() as int));
        i = i + 1;
    }
    assert(src.subrange(0, src.len() as int) =~= src);
    out
}

/// Hides the correct answers and explanations from a student; every other
/// field of each question stays as it was.
pub fn hide_answers(questions: &mut Vec<QuestionInExam>)
    ensures
        final(questions)@.len() == old(questions)@.len(),
        forall|i: int| 0 <= i < final(questions)@.len() ==> {
            let a = old(questions)@[i];
            let b = #[trigger] final(questions)@[i];
            b == (QuestionInExam { correct_answer: None, explanation: None, ..a })
        },
{
    let ghost orig = questions@;
    let n = questions.len();
    let mut i: usize = 0;
    while i < n
        invariant
            n == orig.len(),
            questions@.len() == n,
            i <= n,
            forall|k: int| i <= k < n ==> #[trigger] questions@[k] == orig[k],
            forall|k: int| 0 <= k < i ==> {
                let a = orig[k];
                let b = #[trigger] questions@[k];
                b == (QuestionInExam { correct_answer: None, explanation: None, ..a })
            },
        decreases n - i,
    {
        let mut q = questions.remove(i);
        q.correct_answer = None;
        q.explanation = None;
        questions.insert(i, q);
        i = i + 1;
    }
}

/// The new publication state when the toggle is pressed, with its message.
pub fn toggle_publish(is_published: bool) -> (r: (bool, String))
    ensures
        r.0 == !is_published,
        r.0 ==> r.1@ == "试卷已发布"@,
        !r.0 ==> r.1@ == "试卷已取消发布"@,
{
    let new_state = !is_published;
    let message = if new_state {
        String::from_str("试卷已发布")
    } else {
        String::from_str("试卷已取消发布")
    };
    (new_state, message)
}

/// Removing an exam entry that did not exist is not found.
pub fn removed_entry(rows: u64) -> (r: Result<(), ApiError>)
    ensures
        r is Ok <==> rows > 0,
        r matches Err(e) ==> e.status == Status::NotFound && e.message@ == "组题记录不存在"@,
{
    if rows == 0 {
        Err(api_error(Status::NotFound, "组题记录不存在"))
    } else {
        Ok(())
    }
}

} // verus!
