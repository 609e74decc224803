use microcourse::grading::{Answer, ListItem};
use microcourse::model::QuestionType;
use microcourse::score::Score;
use microcourse::sheet::{
    cell_string, column_text, export_cells, import_result, import_row, import_sheet, pick_sheet,
    question_type_name, question_type_named, row_score, BankQuestion, Cell, ImportedQuestion, RowOutcome,
};

fn t(s: &str) -> Cell {
    Cell::Text(s.to_string())
}

fn row(cells: &[&str]) -> Vec<Cell> {
    cells.iter().map(|c| if c.is_empty() { Cell::Empty } else { t(c) }).collect()
}

fn question(o: RowOutcome) -> ImportedQuestion {
    match o {
        RowOutcome::Question(q) => q,
        RowOutcome::Invalid(m) => panic!("refused: {m}"),
        RowOutcome::Blank => panic!("blank"),
    }
}

fn refusal(o: RowOutcome) -> String {
    match o {
        RowOutcome::Invalid(m) => m,
        _ => panic!("expected a refusal"),
    }
}

#[test]
fn cell_texts() {
    assert_eq!(cell_string(&t("  a b ")), "a b");
    assert_eq!(cell_string(&Cell::Number("2.5".to_string())), "2.5");
    assert_eq!(cell_string(&Cell::Int(-12)), "-12");
    assert_eq!(cell_string(&Cell::Bool(true)), "TRUE");
    assert_eq!(cell_string(&Cell::Bool(false)), "FALSE");
    assert_eq!(cell_string(&Cell::Empty), "");
    assert_eq!(cell_string(&Cell::Other), "");
    assert_eq!(column_text(&row(&["x"]), 5), "");
}

#[test]
fn type_names_round_trip() {
    for qt in [QuestionType::SingleChoice, QuestionType::MultipleChoice, QuestionType::TrueFalse, QuestionType::Essay] {
        assert_eq!(question_type_named(&question_type_name(qt)), Some(qt));
    }
    assert_eq!(question_type_named("Essay"), None);
}

#[test]
fn blank_rows_are_skipped() {
    assert!(matches!(import_row(&vec![Cell::Empty, Cell::Empty], 3, Score::whole(5)), RowOutcome::Blank));
    assert!(matches!(import_row(&vec![], 3, Score::whole(5)), RowOutcome::Blank));
    assert!(!matches!(import_row(&vec![Cell::Other], 3, Score::whole(5)), RowOutcome::Blank));
}

#[test]
fn unknown_type_is_refused() {
    let m = refusal(import_row(&row(&["Quiz", "内容"]), 1, Score::whole(5)));
    assert_eq!(m, "第 3 行：无效题目类型 \"quiz\"，应为 single_choice / multiple_choice / true_false / essay");
}

#[test]
fn type_is_case_blind() {
    let q = question(import_row(&row(&["  ESSAY ", "Describe X"]), 1, Score::whole(5)));
    assert_eq!(q.question_type, QuestionType::Essay);
    assert!(q.correct_answer.is_none());
}

#[test]
fn empty_content_is_refused() {
    let m = refusal(import_row(&row(&["essay", "   "]), 4, Score::whole(5)));
    assert_eq!(m, "第 6 行：题目内容（B列）不能为空");
}

#[test]
fn choice_needs_options() {
    let m = refusal(import_row(&row(&["single_choice", "Q", "", "", "", "", "A"]), 2, Score::whole(5)));
    assert_eq!(m, "第 4 行：选择题必须在 C~F 列填写至少一个选项");
}

#[test]
fn single_choice_row() {
    let q = question(import_row(&row(&["single_choice", "1+1=?", "1", "", "2", "3", "C", " 因为 "]), 1, Score::whole(3)));
    assert_eq!(q.question_type, QuestionType::SingleChoice);
    assert_eq!(q.content, "1+1=?");
    let opts: Vec<(&str, &str)> = q.options.iter().map(|(k, v)| (k.as_str(), v.as_str())).collect();
    assert_eq!(opts, vec![("A", "1"), ("C", "2"), ("D", "3")]);
    match q.correct_answer {
        Some(Answer::Text(a)) => assert_eq!(a, "C"),
        _ => panic!("expected a text answer"),
    }
    assert_eq!(q.explanation.as_deref(), Some("因为"));
    assert_eq!(q.default_score.mantissa(), 3);
}

#[test]
fn multiple_choice_row() {
    let q = question(import_row(&row(&["multiple_choice", "Q", "x", "y", "z", "", "a, c ,D"]), 1, Score::whole(5)));
    match q.correct_answer {
        Some(Answer::List(items)) => {
            let v: Vec<String> = items
                .into_iter()
                .map(|i| match i {
                    ListItem::Text(s) => s,
                    ListItem::Other(s) => s,
                })
                .collect();
            assert_eq!(v, vec!["A", "C", "D"]);
        }
        _ => panic!("expected a list answer"),
    }
}

#[test]
fn true_false_rows() {
    for (text, expected) in [("TRUE", true), ("true", true), ("1", true), ("是", true), ("对", true), ("正确", true), ("FALSE", false), ("否", false)] {
        let q = question(import_row(&row(&["true_false", "S", "", "", "", "", text]), 1, Score::whole(5)));
        match q.correct_answer {
            Some(Answer::Flag(b)) => assert_eq!(b, expected, "{text}"),
            _ => panic!("expected a boolean answer"),
        }
    }
    let q = question(import_row(&vec![t("true_false"), t("S"), Cell::Empty, Cell::Empty, Cell::Empty, Cell::Empty, Cell::Bool(true)], 1, Score::whole(5)));
    assert!(matches!(q.correct_answer, Some(Answer::Flag(true))));
    let q = question(import_row(&vec![t("true_false"), t("S"), Cell::Empty, Cell::Empty, Cell::Empty, Cell::Empty, Cell::Int(1)], 1, Score::whole(5)));
    assert!(matches!(q.correct_answer, Some(Answer::Flag(true))));
}

#[test]
fn whole_sheet_import() {
    let rows = vec![
        row(&["题目类型", "题目内容"]),
        row(&["essay", "A"]),
        row(&["", ""]),
        row(&["bad", "B"]),
        row(&["single_choice", "C", "x", "", "", "", "A"]),
    ];
    let scores = vec![Score::whole(5), Score::whole(5), Score::whole(5), Score::whole(5), Score::whole(2)];
    let (valid, errors) = import_sheet(&rows, &scores);
    assert_eq!(valid.len(), 2);
    assert_eq!(valid[0].content, "A");
    assert_eq!(valid[1].content, "C");
    assert_eq!(valid[1].default_score.mantissa(), 2);
    assert_eq!(errors.len(), 1);
    assert_eq!(errors[0].index, 3);
    assert!(errors[0].message.starts_with("第 5 行："));
    let summary = import_result(valid.len(), errors);
    assert_eq!((summary.total, summary.imported, summary.failed), (3, 2, 1));
}

#[test]
fn header_only_sheet() {
    let (valid, errors) = import_sheet(&vec![row(&["h"])], &vec![Score::whole(5)]);
    assert!(valid.is_empty() && errors.is_empty());
    let (valid, errors) = import_sheet(&vec![], &vec![]);
    assert!(valid.is_empty() && errors.is_empty());
}

#[test]
fn sheet_choice() {
    assert_eq!(pick_sheet(&vec![]).unwrap_err(), "Excel 文件中没有工作表");
    assert_eq!(pick_sheet(&vec!["说明".to_string(), "题目列表".to_string()]).unwrap(), 1);
    assert_eq!(pick_sheet(&vec!["Sheet1".to_string(), "Sheet2".to_string()]).unwrap(), 0);
}

fn bank(qt: QuestionType, answer: Option<Answer>) -> BankQuestion {
    BankQuestion {
        question_type: qt,
        content: "What?".to_string(),
        options: Some(vec![Some("one".to_string()), None, Some(String::new()), Some("four".to_string()), Some("five".to_string())]),
        correct_answer: answer,
        explanation: Some(String::new()),
    }
}

#[test]
fn exported_row_cells() {
    let q = bank(
        QuestionType::MultipleChoice,
        Some(Answer::List(vec![ListItem::Text("A".into()), ListItem::Other("3".into()), ListItem::Text("D".into())])),
    );
    let cells = export_cells(&q);
    let expected: Vec<Option<&str>> = vec![Some("multiple_choice"), Some("What?"), Some("one"), None, None, Some("four"), Some("A,D"), None];
    assert_eq!(cells.iter().map(|c| c.as_deref()).collect::<Vec<_>>(), expected);
    let q = bank(QuestionType::TrueFalse, Some(Answer::Flag(false)));
    assert_eq!(export_cells(&q)[6].as_deref(), Some("FALSE"));
    let q = bank(QuestionType::Essay, Some(Answer::Other("42".into())));
    assert_eq!(export_cells(&q)[6], None);
    let mut q = bank(QuestionType::Essay, None);
    q.options = None;
    q.explanation = Some("why".into());
    let cells = export_cells(&q);
    assert_eq!(cells[2], None);
    assert_eq!(cells[7].as_deref(), Some("why"));
}

#[test]
fn export_then_import_round_trip() {
    let q = bank(
        QuestionType::MultipleChoice,
        Some(Answer::List(vec![ListItem::Text("a".into()), ListItem::Text("D".into())])),
    );
    let mut cells: Vec<Cell> = export_cells(&q)
        .into_iter()
        .map(|c| match c {
            Some(s) => Cell::Text(s),
            None => Cell::Empty,
        })
        .collect();
    cells.push(Cell::Number("5".to_string()));
    let back = question(import_row(&cells, 1, Score::whole(5)));
    assert_eq!(back.question_type, QuestionType::MultipleChoice);
    assert_eq!(back.content, "What?");
    let keys: Vec<(&str, &str)> = back.options.iter().map(|(k, v)| (k.as_str(), v.as_str())).collect();
    assert_eq!(keys, vec![("A", "one"), ("D", "four")]);
    match back.correct_answer {
        Some(Answer::List(items)) => {
            let texts: Vec<&str> = items
                .iter()
                .map(|i| match i {
                    ListItem::Text(t) => t.as_str(),
                    ListItem::Other(_) => panic!("expected text items"),
                })
                .collect();
            assert_eq!(texts, vec!["A", "D"]);
        }
        _ => panic!("expected a list answer"),
    }
    assert!(back.explanation.is_none());
}

#[test]
fn imported_scores() {
    let s = row_score(&Some("2.5".to_string()));
    assert_eq!((s.mantissa(), s.scale()), (25, 1));
    let s = row_score(&Some("10".to_string()));
    assert_eq!((s.mantissa(), s.scale()), (10, 0));
    let s = row_score(&Some("abc".to_string()));
    assert_eq!((s.mantissa(), s.scale()), (5, 0));
    let s = row_score(&None);
    assert_eq!((s.mantissa(), s.scale()), (5, 0));
}

#[test]
fn workbook_rows_are_read() {
    let mut wb = rust_xlsxwriter::Workbook::new();
    let other = wb.add_worksheet();
    other.set_name("说明").unwrap();
    other.write(0, 0, "x").unwrap();
    let ws = wb.add_worksheet();
    ws.set_name("题目列表").unwrap();
    ws.write(0, 0, "题目类型").unwrap();
    ws.write(1, 0, " essay ").unwrap();
    ws.write(1, 1, "Why?").unwrap();
    ws.write(1, 2, 2.5).unwrap();
    ws.write(1, 3, true).unwrap();
    let bytes = wb.save_to_buffer().unwrap();
    let rows = microcourse::sheet::read_question_sheet(&bytes).unwrap();
    assert_eq!(rows.len(), 2);
    assert!(matches!(&rows[0][0], Cell::Text(t) if t == "题目类型"));
    assert!(matches!(&rows[1][0], Cell::Text(t) if t == " essay "));
    assert!(matches!(&rows[1][2], Cell::Number(t) if t == "2.5"));
    assert!(matches!(&rows[1][3], Cell::Bool(true)));
    let (valid, errors) = import_sheet(&rows, &vec![Score::whole(5), Score::whole(5)]);
    assert_eq!((valid.len(), errors.len()), (1, 0));
    assert_eq!(valid[0].content, "Why?");
}

#[test]
fn unreadable_workbook_is_refused() {
    let e = microcourse::sheet::read_question_sheet(b"not a workbook").unwrap_err();
    assert!(e.starts_with("无法解析 Excel 文件: "), "{e}");
}
