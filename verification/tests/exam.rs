use microcourse::exam::{
    attempt_access, ensure_course_teacher, ensure_enrolled_or_teacher, ensure_exam_owner,
    exam_in_course, gradable_attempt, published_exam, question_in_course, regrade,
    require_text, same_course_question, staff_course_access, start_attempt_check,
    student_questions, submit_check, toggle_publish, visible_exams, Quiz, QuizAttempt,
};
use microcourse::grading::{QuestionInExam, ScoreEntry, ScoreSheet};
use microcourse::model::{AuthContext, QuestionType, Status, UserRole};
use microcourse::score::Score;

fn quiz(id: u128, course: u128, published: bool) -> Quiz {
    Quiz {
        id,
        course_id: course,
        chapter_id: None,
        title: "T".to_string(),
        description: None,
        time_limit: None,
        total_score: Score::whole(100),
        pass_score: Score::whole(60),
        max_attempts: None,
        is_published: published,
    }
}

fn student(id: u128) -> AuthContext {
    AuthContext { user_id: id, role: UserRole::Student }
}

fn teacher(id: u128) -> AuthContext {
    AuthContext { user_id: id, role: UserRole::Teacher }
}

fn admin() -> AuthContext {
    AuthContext { user_id: 99, role: UserRole::Admin }
}

#[test]
fn enrolment_gate() {
    assert!(ensure_enrolled_or_teacher(&student(1), true).is_ok());
    assert_eq!(ensure_enrolled_or_teacher(&student(1), false).unwrap_err().status, Status::Forbidden);
    assert!(ensure_enrolled_or_teacher(&teacher(2), false).is_ok());
}

#[test]
fn published_exam_checks() {
    assert_eq!(published_exam(None, 1).unwrap_err().message, "试卷不存在");
    assert_eq!(published_exam(Some(quiz(1, 2, true)), 1).unwrap_err().message, "试卷不属于该课程");
    assert_eq!(published_exam(Some(quiz(1, 1, false)), 1).unwrap_err().message, "试卷不存在或尚未发布");
    assert_eq!(published_exam(Some(quiz(1, 1, true)), 1).unwrap().id, 1);
}

#[test]
fn attempt_visibility() {
    let a = QuizAttempt { id: 5, user_id: 1, quiz_id: 7, submitted: false };
    assert!(attempt_access(&student(1), Some(a.clone_for_test()), 7).is_ok());
    let e = attempt_access(&student(2), Some(a.clone_for_test()), 7).unwrap_err();
    assert_eq!((e.status, e.message.as_str()), (Status::Forbidden, "无权查看他人的答题记录"));
    assert!(attempt_access(&teacher(3), Some(a.clone_for_test()), 7).is_ok());
    assert_eq!(attempt_access(&student(1), Some(a), 8).unwrap_err().status, Status::NotFound);
    assert_eq!(attempt_access(&student(1), None, 7).unwrap_err().status, Status::NotFound);
}

trait CloneForTest {
    fn clone_for_test(&self) -> Self;
}

impl CloneForTest for QuizAttempt {
    fn clone_for_test(&self) -> Self {
        QuizAttempt { id: self.id, user_id: self.user_id, quiz_id: self.quiz_id, submitted: self.submitted }
    }
}

#[test]
fn attempt_limits() {
    let e = start_attempt_check(Some(3), 3, &vec![true, true, true]).unwrap_err();
    assert_eq!(e.status, Status::BadRequest);
    assert_eq!(e.message, "已达最大答题次数限制（3 次），无法再次作答");
    let e = start_attempt_check(Some(3), 2, &vec![true, false]).unwrap_err();
    assert_eq!(e.message, "您有一次未完成的答题，请先提交或等待超时");
    assert!(start_attempt_check(Some(3), 2, &vec![true, true]).is_ok());
    assert!(start_attempt_check(None, 100, &vec![]).is_ok());
}

fn q(id: u128, score: Option<Score>) -> QuestionInExam {
    QuestionInExam {
        entry_id: id,
        quiz_id: 1,
        question_id: id,
        score,
        sort_order: id as i32,
        question_type: QuestionType::SingleChoice,
        content: "c".to_string(),
        options: Some("[]".to_string()),
        correct_answer: None,
        explanation: Some("e".to_string()),
        default_score: Score::whole(5),
        chapter_id: None,
        video_id: None,
    }
}

#[test]
fn student_view_of_questions() {
    let v = student_questions(vec![q(1, None), q(2, Some(Score::whole(2)))]);
    assert_eq!(v.len(), 2);
    assert_eq!(v[0].score.mantissa(), 5);
    assert_eq!(v[1].score.mantissa(), 2);
    assert_eq!(v[1].sort_order, 2);
}

#[test]
fn submission_once() {
    assert!(submit_check(&QuizAttempt { id: 1, user_id: 1, quiz_id: 1, submitted: false }).is_ok());
    assert_eq!(submit_check(&QuizAttempt { id: 1, user_id: 1, quiz_id: 1, submitted: true }).unwrap_err().status, Status::BadRequest);
}

#[test]
fn grading_needs_submitted_attempt() {
    let a = |submitted| Some(QuizAttempt { id: 1, user_id: 1, quiz_id: 4, submitted });
    assert!(gradable_attempt(a(true), 4).is_ok());
    assert_eq!(gradable_attempt(a(false), 4).unwrap_err().status, Status::BadRequest);
    assert_eq!(gradable_attempt(a(true), 5).unwrap_err().status, Status::NotFound);
    assert_eq!(gradable_attempt(None, 4).unwrap_err().status, Status::NotFound);
}

#[test]
fn regrading_totals() {
    let sheet = ScoreSheet::Entries(vec![("q1".to_string(), ScoreEntry::Points(Score::whole(3))), ("q2".to_string(), ScoreEntry::Pending)]);
    let g = regrade(sheet, &vec![("q2".to_string(), Score::whole(4))]).unwrap();
    assert!(g.all_graded);
    assert_eq!(g.total.unwrap().mantissa(), 7);
    let sheet = ScoreSheet::Entries(vec![("q2".to_string(), ScoreEntry::Pending), ("q3".to_string(), ScoreEntry::Pending)]);
    let g = regrade(sheet, &vec![("q2".to_string(), Score::whole(1))]).unwrap();
    assert!(!g.all_graded);
}

#[test]
fn course_staff_checks() {
    assert!(staff_course_access(&teacher(1), Some(1), "s", "o").is_ok());
    let e = staff_course_access(&student(1), Some(1), "学生不可", "o").unwrap_err();
    assert_eq!((e.status, e.message.as_str()), (Status::Forbidden, "学生不可"));
    assert_eq!(staff_course_access(&teacher(1), None, "s", "o").unwrap_err().status, Status::NotFound);
    assert_eq!(staff_course_access(&teacher(2), Some(1), "s", "other").unwrap_err().message, "other");
    assert!(staff_course_access(&admin(), Some(1), "s", "o").is_ok());
    assert!(ensure_course_teacher(&admin(), None).is_ok());
    assert_eq!(ensure_course_teacher(&teacher(1), None).unwrap_err().status, Status::NotFound);
    assert_eq!(ensure_course_teacher(&teacher(1), Some(2)).unwrap_err().message, "仅课程教师或管理员可操作");
    assert!(ensure_exam_owner(&teacher(1), Some(quiz(1, 1, true)), Some(1)).is_ok());
    assert_eq!(ensure_exam_owner(&teacher(1), None, Some(1)).unwrap_err().message, "试卷不存在");
}

#[test]
fn exam_and_question_belong_to_course() {
    assert!(exam_in_course(Some(quiz(1, 3, false)), 3).is_ok());
    assert_eq!(exam_in_course(Some(quiz(1, 3, false)), 4).unwrap_err().message, "试卷不属于该课程");
    assert!(question_in_course(Some(3), 3).is_ok());
    assert_eq!(question_in_course(Some(3), 4).unwrap_err().message, "题目不属于该课程");
    assert_eq!(question_in_course(None, 4).unwrap_err().message, "题目不存在");
    assert!(same_course_question(3, 3).is_ok());
    assert_eq!(same_course_question(3, 4).unwrap_err().status, Status::BadRequest);
}

#[test]
fn required_texts() {
    assert!(require_text(" x ", "m").is_ok());
    let e = require_text(" \t\n", "题目内容不能为空").unwrap_err();
    assert_eq!((e.status, e.message.as_str()), (Status::BadRequest, "题目内容不能为空"));
}

#[test]
fn students_see_published_exams_only() {
    let all = || vec![quiz(1, 1, true), quiz(2, 1, false), quiz(3, 1, true)];
    assert_eq!(visible_exams(all(), true).len(), 3);
    let ids: Vec<u128> = visible_exams(all(), false).iter().map(|q| q.id).collect();
    assert_eq!(ids, vec![1, 3]);
}

#[test]
fn publishing_toggles() {
    let (on, m) = toggle_publish(false);
    assert!(on);
    assert_eq!(m, "试卷已发布");
    let (off, m) = toggle_publish(on);
    assert!(!off);
    assert_eq!(m, "试卷已取消发布");
}
