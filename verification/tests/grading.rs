use microcourse::grading::{
    answers_match, auto_grade, exam_total, has_null_scores, merge_essay_scores,
    sum_question_scores, Answer, ListItem, QuestionInExam, ScoreEntry, ScoreSheet,
};
use microcourse::model::{QuestionType, Status};
use microcourse::score::Score;

fn text(s: &str) -> Answer {
    Answer::Text(s.to_string())
}

fn list(items: &[&str]) -> Answer {
    Answer::List(items.iter().map(|s| ListItem::Text(s.to_string())).collect())
}

fn dec(m: i128, s: u32) -> Score {
    Score::new(m, s).unwrap()
}

fn q(id: u128, qt: QuestionType, correct: Option<Answer>, score: Option<Score>, default: Score) -> QuestionInExam {
    QuestionInExam {
        entry_id: id + 100,
        quiz_id: 9,
        question_id: id,
        score,
        sort_order: 0,
        question_type: qt,
        content: format!("q{id}"),
        options: None,
        correct_answer: correct,
        explanation: None,
        default_score: default,
        chapter_id: None,
        video_id: None,
    }
}

fn id_text(id: u128) -> String {
    format!("{:08x}-{:04x}-{:04x}-{:04x}-{:012x}", (id >> 96) as u32, (id >> 80) as u16 & 0xffff, (id >> 64) as u16 & 0xffff, (id >> 48) as u16 & 0xffff, id & 0xffff_ffff_ffff)
}

#[test]
fn single_choice_ignores_case() {
    assert!(answers_match(&text("b"), &text("B"), &QuestionType::SingleChoice));
    assert!(!answers_match(&text("A"), &text("B"), &QuestionType::SingleChoice));
    assert!(!answers_match(&text(""), &text(""), &QuestionType::SingleChoice));
    assert!(!answers_match(&Answer::Flag(true), &text("A"), &QuestionType::SingleChoice));
}

#[test]
fn multiple_choice_ignores_order_not_repetition() {
    assert!(answers_match(&list(&["c", "a"]), &list(&["A", "C"]), &QuestionType::MultipleChoice));
    assert!(!answers_match(&list(&["A"]), &list(&["A", "C"]), &QuestionType::MultipleChoice));
    assert!(!answers_match(&list(&["A", "A", "C"]), &list(&["A", "C"]), &QuestionType::MultipleChoice));
    assert!(!answers_match(&list(&[]), &list(&[]), &QuestionType::MultipleChoice));
}

#[test]
fn true_false_and_essay() {
    assert!(answers_match(&Answer::Flag(true), &Answer::Flag(true), &QuestionType::TrueFalse));
    assert!(!answers_match(&Answer::Flag(false), &Answer::Flag(true), &QuestionType::TrueFalse));
    assert!(!answers_match(&text("true"), &Answer::Flag(true), &QuestionType::TrueFalse));
    assert!(!answers_match(&text("x"), &text("x"), &QuestionType::Essay));
}

#[test]
fn stored_answer_is_accepted() {
    for (a, qt) in [(text("C"), QuestionType::SingleChoice), (list(&["A", "B"]), QuestionType::MultipleChoice), (Answer::Flag(false), QuestionType::TrueFalse)] {
        assert!(answers_match(&a, &a, &qt));
    }
}

#[test]
fn auto_grading_totals_correct_answers() {
    let qs = vec![
        q(1, QuestionType::SingleChoice, Some(text("A")), None, dec(5, 0)),
        q(2, QuestionType::MultipleChoice, Some(list(&["A", "B"])), Some(dec(25, 1)), dec(5, 0)),
        q(3, QuestionType::TrueFalse, Some(Answer::Flag(true)), None, dec(3, 0)),
        q(4, QuestionType::Essay, None, None, dec(10, 0)),
    ];
    let answers = vec![
        (id_text(1), text("a")),
        (id_text(2), list(&["B", "A"])),
        (id_text(3), Answer::Flag(false)),
    ];
    let g = auto_grade(&answers, &qs).unwrap();
    assert_eq!(g.question_scores.len(), 4);
    assert_eq!(g.question_scores[0].0, id_text(1));
    assert!(matches!(&g.question_scores[0].1, ScoreEntry::Points(p) if p.mantissa() == 5));
    assert!(matches!(&g.question_scores[2].1, ScoreEntry::Points(p) if p.mantissa() == 0));
    assert!(matches!(&g.question_scores[3].1, ScoreEntry::Pending));
    assert!(g.has_ungraded);
    assert_eq!((g.total.mantissa(), g.total.scale()), (75, 1));
}

#[test]
fn resumming_graded_entries_gives_the_total() {
    let qs = vec![
        q(1, QuestionType::SingleChoice, Some(text("A")), Some(dec(125, 2)), dec(5, 0)),
        q(2, QuestionType::MultipleChoice, Some(list(&["A", "B"])), Some(dec(25, 1)), dec(5, 0)),
        q(3, QuestionType::Essay, None, None, dec(10, 0)),
        q(4, QuestionType::TrueFalse, Some(Answer::Flag(true)), None, dec(3, 0)),
    ];
    let answers = vec![
        (id_text(1), text("A")),
        (id_text(2), list(&["A", "B"])),
        (id_text(4), Answer::Flag(true)),
    ];
    let g = auto_grade(&answers, &qs).unwrap();
    let again = sum_question_scores(&g.question_scores).unwrap();
    assert_eq!(decimal_value(&again), decimal_value(&g.total));
    assert_eq!(decimal_value(&g.total), 675);
}

fn decimal_value(s: &microcourse::score::Score) -> i128 {
    let mut m = s.mantissa();
    for _ in s.scale()..2 {
        m *= 10;
    }
    m
}

#[test]
fn exam_total_sums_effective_scores() {
    let qs = vec![
        q(1, QuestionType::SingleChoice, None, None, dec(5, 0)),
        q(2, QuestionType::Essay, None, Some(dec(125, 2)), dec(5, 0)),
    ];
    let t = exam_total(&qs).unwrap();
    assert_eq!((t.mantissa(), t.scale()), (625, 2));
    assert_eq!(exam_total(&vec![]).unwrap().mantissa(), 0);
}

#[test]
fn essay_scores_merge_and_sum() {
    let base = vec![
        ("a".to_string(), ScoreEntry::Points(dec(5, 0))),
        ("b".to_string(), ScoreEntry::Pending),
    ];
    let merged = merge_essay_scores(ScoreSheet::Entries(base), &vec![("b".to_string(), dec(4, 0))]).unwrap();
    assert!(!has_null_scores(&merged));
    assert_eq!(sum_question_scores(&merged).unwrap().mantissa(), 9);
    let e = merge_essay_scores(ScoreSheet::Malformed, &vec![]).unwrap_err();
    assert_eq!(e.status, Status::InternalServerError);
    let fresh = merge_essay_scores(ScoreSheet::Missing, &vec![("c".to_string(), dec(1, 0))]).unwrap();
    assert_eq!(fresh.len(), 1);
    assert!(has_null_scores(&vec![("x".to_string(), ScoreEntry::Pending)]));
    assert!(!has_null_scores(&vec![("x".to_string(), ScoreEntry::Ignored)]));
}

#[test]
fn effective_score_prefers_exam_score() {
    let with = q(1, QuestionType::Essay, None, Some(dec(2, 0)), dec(5, 0));
    let without = q(2, QuestionType::Essay, None, None, dec(5, 0));
    assert_eq!(with.effective_score().mantissa(), 2);
    assert_eq!(without.effective_score().mantissa(), 5);
}
