//! The question bank's spreadsheet: the row written for each question on
//! export, and the question (or the error) read back from each row on import.
use vstd::prelude::*;
use calamine::{Data, Reader, Xlsx, XlsxError};
use std::io::Cursor;
use crate::grading::{Answer, ListItem};
use crate::model::QuestionType;
use crate::score::{Score, parsed_decimal};
use crate::text::{
    int_text, int_text_of, join_pieces, lemma_join_pieces_push, lower_case, lower_text, same_text,
    split_char, split_pieces, string_views, trim, trimmed, upper_case, upper_text, all_ascii,
    is_space,
};

verus! {

/// A spreadsheet cell as the importer reads it.
#[derive(Debug)]
pub enum Cell {
    Empty,
    /// Text (dates and durations kept as ISO text come as text too).
    Text(String),
    /// A floating-point number, given as the text of its shortest decimal form.
    Number(String),
    Int(i64),
    Bool(bool),
    /// An error value or a date-time serial: it is not empty but gives no text.
    Other,
}

/// The text a cell gives: strings trimmed, numbers in decimal, booleans as
/// `TRUE`/`FALSE`, nothing for empty and other cells.
pub open spec fn cell_text(c: Cell) -> Seq<char> {
    match c {
        Cell::Text(s) => trimmed(s@),
        Cell::Number(t) => t@,
        Cell::Int(i) => int_text_of(i as int),
        Cell::Bool(b) => if b {
            "TRUE"@
        } else {
            "FALSE"@
        },
        _ => Seq::empty(),
    }
}

/// The cell in column `col`, empty beyond the row's end.
pub open spec fn cell_at(row: Seq<Cell>, col: int) -> Cell {
    if 0 <= col < row.len() {
        row[col]
    } else {
        Cell::Empty
    }
}

/// The text of column `col`.
pub open spec fn text_at(row: Seq<Cell>, col: int) -> Seq<char> {
    cell_text(cell_at(row, col))
}

/// Every cell of the row is empty.
pub open spec fn is_blank(row: Seq<Cell>) -> bool {
    forall|i: int| 0 <= i < row.len() ==> #[trigger] row[i] is Empty
}

/// The text of one cell.
pub fn cell_string(c: &Cell) -> (r: String)
    ensures
        r@ == cell_text(*c),
{
    match c {
        Cell::Text(s) => trim(s.as_str()),
        Cell::Number(t) => t.clone(),
        Cell::Int(i) => int_text(*i),
        Cell::Bool(b) => if *b {
            String::from_str("TRUE")
        } else {
            String::from_str("FALSE")
        },
        _ => String::new(),
    }
}

/// The text of column `col` of a row.
pub fn column_text(row: &Vec<Cell>, col: usize) -> (r: String)
    ensures
        r@ == text_at(row@, col as int),
{
    if col < row.len() {
        cell_string(&row[col])
    } else {
        String::new()
    }
}

/// The name a question type is written as.
pub open spec fn kind_name(qt: QuestionType) -> Seq<char> {
    match qt {
        QuestionType::SingleChoice => "single_choice"@,
        QuestionType::MultipleChoice => "multiple_choice"@,
        QuestionType::TrueFalse => "true_false"@,
        QuestionType::Essay => "essay"@,
    }
}

/// The question type a (lower-case) name stands for.
pub open spec fn type_named(name: Seq<char>) -> Option<QuestionType> {
    if name == "single_choice"@ {
        Some(QuestionType::SingleChoice)
    } else if name == "multiple_choice"@ {
        Some(QuestionType::MultipleChoice)
    } else if name == "true_false"@ {
        Some(QuestionType::TrueFalse)
    } else if name == "essay"@ {
        Some(QuestionType::Essay)
    } else {
        None
    }
}

/// The name of a question type.
pub fn question_type_name(qt: QuestionType) -> (r: String)
    ensures
        r@ == kind_name(qt),
{
    match qt {
        QuestionType::SingleChoice => String::from_str("single_choice"),
        QuestionType::MultipleChoice => String::from_str("multiple_choice"),
        QuestionType::TrueFalse => String::from_str("true_false"),
        QuestionType::Essay => String::from_str("essay"),
    }
}

/// The question type a name stands for.
pub fn question_type_named(name: &str) -> (r: Option<QuestionType>)
    ensures
        r == type_named(name@),
{
    if same_text(name, "single_choice") {
        Some(QuestionType::SingleChoice)
    } else if same_text(name, "multiple_choice") {
        Some(QuestionType::MultipleChoice)
    } else if same_text(name, "true_false") {
        Some(QuestionType::TrueFalse)
    } else if same_text(name, "essay") {
        Some(QuestionType::Essay)
    } else {
        None
    }
}

/// The key of option column `i` (0 to 3): `A` to `D`.
pub open spec fn option_key(i: int) -> Seq<char> {
    if i == 0 {
        "A"@
    } else if i == 1 {
        "B"@
    } else if i == 2 {
        "C"@
    } else {
        "D"@
    }
}

/// The keyed options among the first `k` option columns (C onwards) that hold
/// text, in column order.
pub open spec fn options_upto(row: Seq<Cell>, k: nat) -> Seq<(Seq<char>, Seq<char>)>
    decreases k,
{
    if k == 0 {
        Seq::empty()
    } else {
        let rest = options_upto(row, (k - 1) as nat);
        let t = text_at(row, 2 + k - 1);
        if t.len() == 0 {
            rest
        } else {
            rest.push((option_key(k - 1), t))
        }
    }
}

/// The options a row gives: columns C to F, keyed `A` to `D`, blank ones left out.
pub open spec fn row_options(row: Seq<Cell>) -> Seq<(Seq<char>, Seq<char>)> {
    options_upto(row, 4)
}

/// Texts that read as "true" for a true/false answer (after upper-casing).
pub open spec fn truthy(u: Seq<char>) -> bool {
    u == "TRUE"@ || u == "1"@ || u == "是"@ || u == "对"@ || u == "正确"@
}

/// An answer as plain values.
pub enum AnswerShape {
    Text(Seq<char>),
    Flag(bool),
    Items(Seq<Seq<char>>),
    Raw(Seq<char>),
}

/// The text of an array item.
pub open spec fn item_text(i: ListItem) -> Seq<char> {
    match i {
        ListItem::Text(s) => s@,
        ListItem::Other(s) => s@,
    }
}

/// The plain values of an answer.
pub open spec fn answer_shape(a: Answer) -> AnswerShape {
    match a {
        Answer::Text(s) => AnswerShape::Text(s@),
        Answer::Flag(b) => AnswerShape::Flag(b),
        Answer::List(v) => AnswerShape::Items(v@.map_values(|i: ListItem| item_text(i))),
        Answer::Other(s) => AnswerShape::Raw(s@),
    }
}

/// The answer a row's answer text gives for a question type: the text for a
/// single choice; the comma-separated parts, trimmed and upper-cased, for a
/// multiple choice; whether it reads as true for true/false; none for an
/// essay or a blank answer.
pub open spec fn imported_answer(qt: QuestionType, ans: Seq<char>) -> Option<AnswerShape> {
    if ans.len() == 0 {
        None
    } else {
        match qt {
            QuestionType::SingleChoice => Some(AnswerShape::Text(ans)),
            QuestionType::MultipleChoice => Some(
                AnswerShape::Items(
                    split_pieces(ans, ',').map_values(|p: Seq<char>| upper_text(trimmed(p))),
                ),
            ),
            QuestionType::TrueFalse => Some(AnswerShape::Flag(truthy(upper_text(ans)))),
            QuestionType::Essay => None,
        }
    }
}

/// A question read from a row, as plain values.
pub struct QuestionFields {
    pub question_type: QuestionType,
    pub content: Seq<char>,
    pub options: Seq<(Seq<char>, Seq<char>)>,
    pub answer: Option<AnswerShape>,
    pub explanation: Option<Seq<char>>,
    pub score: Score,
}

/// A question read from a row. An empty option list stands for no options.
#[derive(Debug)]
pub struct ImportedQuestion {
    pub question_type: QuestionType,
    pub content: String,
    /// (key, text) pairs.
    pub options: Vec<(String, String)>,
    pub correct_answer: Option<Answer>,
    pub explanation: Option<String>,
    pub default_score: Score,
}

/// The plain values of a list of (key, text) options.
pub open spec fn option_views(v: Seq<(String, String)>) -> Seq<(Seq<char>, Seq<char>)> {
    v.map_values(|p: (String, String)| (p.0@, p.1@))
}

impl ImportedQuestion {
    /// The question's plain values.
    pub open spec fn fields(&self) -> QuestionFields {
        QuestionFields {
            question_type: self.question_type,
            content: self.content@,
            options: option_views(self.options@),
            answer: match self.correct_answer {
                Some(a) => Some(answer_shape(a)),
                None => None,
            },
            explanation: match self.explanation {
                Some(e) => Some(e@),
                None => None,
            },
            score: self.default_score,
        }
    }
}

/// What a row is, as plain values.
pub enum RowView {
    Blank,
    Question(QuestionFields),
    Invalid(Seq<char>),
}

/// What a row is.
#[derive(Debug)]
pub enum RowOutcome {
    /// Every cell empty: the row is skipped.
    Blank,
    Question(ImportedQuestion),
    /// The row is refused with this message.
    Invalid(String),
}

impl RowOutcome {
    /// The outcome's plain values.
    pub open spec fn shape(&self) -> RowView {
        match self {
            RowOutcome::Blank => RowView::Blank,
            RowOutcome::Question(q) => RowView::Question(q.fields()),
            RowOutcome::Invalid(m) => RowView::Invalid(m@),
        }
    }
}

/// The start of a row's error message: `第 {line} 行：`, where the line is the
/// spreadsheet's own row number (the header is line 1, row index 0).
pub open spec fn line_prefix(row_idx: int) -> Seq<char> {
    "第 "@ + int_text_of(row_idx + 2) + " 行："@
}

/// The message for an unknown question type.
pub open spec fn bad_type_message(row_idx: int, lower: Seq<char>) -> Seq<char> {
    line_prefix(row_idx) + "无效题目类型 \""@ + lower
        + "\"，应为 single_choice / multiple_choice / true_false / essay"@
}

/// What row `row_idx` of the sheet gives, with `score` as its default score.
/// A blank row is skipped. Otherwise the type (column A, compared in lower
/// case) must be known, the content (column B) must not be blank, and a
/// choice question needs at least one option (columns C to F); column G is
/// the answer, column H the explanation (absent when blank).
pub open spec fn row_view(row: Seq<Cell>, row_idx: int, score: Score) -> RowView {
    if is_blank(row) {
        RowView::Blank
    } else {
        let lower = lower_text(text_at(row, 0));
        match type_named(lower) {
            None => RowView::Invalid(bad_type_message(row_idx, lower)),
            Some(qt) => {
                let content = text_at(row, 1);
                let opts = row_options(row);
                if content.len() == 0 {
                    RowView::Invalid(line_prefix(row_idx) + "题目内容（B列）不能为空"@)
                } else if (qt == QuestionType::SingleChoice || qt == QuestionType::MultipleChoice)
                    && opts.len() == 0 {
                    RowView::Invalid(line_prefix(row_idx) + "选择题必须在 C~F 列填写至少一个选项"@)
                } else {
                    let e = text_at(row, 7);
                    RowView::Question(
                        QuestionFields {
                            question_type: qt,
                            content,
                            options: opts,
                            answer: imported_answer(qt, text_at(row, 6)),
                            explanation: if e.len() == 0 {
                                None
                            } else {
                                Some(e)
                            },
                            score,
                        },
                    )
                }
            },
        }
    }
}

/// `第 {row_idx + 2} 行：`.
fn line_label(row_idx: usize) -> (r: String)
    requires
        row_idx + 2 <= i64::MAX,
    ensures
        r@ == line_prefix(row_idx as int),
{
    let mut s = String::from_str("第 ");
    let n = int_text(row_idx as i64 + 2);
    s.append(n.as_str());
    s.append(" 行：");
    s
}

/// Whether every cell of the row is empty.
fn blank_row(row: &Vec<Cell>) -> (r: bool)
    ensures
        r == is_blank(row@),
{
    let mut i: usize = 0;
    while i < row.len()
        invariant
            i <= row@.len(),
            forall|k: int| 0 <= k < i ==> #[trigger] row@[k] is Empty,
        decreases row@.len() - i,
    {
        match &row[i] {
            Cell::Empty => {},
            _ => {
                assert(!(row@[i as int] is Empty));
                return false;
            },
        }
        i = i + 1;
    }
    true
}

/// The key of option column `i`.
fn key_of(i: usize) -> (r: String)
    requires
        i < 4,
    ensures
        r@ == option_key(i as int),
{
    match i {
        0 => String::from_str("A"),
        1 => String::from_str("B"),
        2 => String::from_str("C"),
        _ => String::from_str("D"),
    }
}

/// The options of a row.
fn read_options(row: &Vec<Cell>) -> (r: Vec<(String, String)>)
    ensures
        option_views(r@) == row_options(row@),
{
    let mut opts: Vec<(String, String)> = Vec::new();
    let mut k: usize = 0;
    while k < 4
        invariant
            k <= 4,
            option_views(opts@) == options_upto(row@, k as nat),
        decreases 4 - k,
    {
        let t = column_text(row, 2 + k);
        if !t.as_str().is_empty() {
            let key = key_of(k);
            let ghost before = option_views(opts@);
            opts.push((key, t));
            assert(option_views(opts@) =~= before.push((option_key(k as int), t@)));
        }
        k = k + 1;
    }
    opts
}

/// Every item of a list answer is a string.
pub open spec fn text_items(a: Option<Answer>) -> bool {
    a matches Some(Answer::List(v)) ==> forall|i: int| 0 <= i < v@.len() ==> #[trigger] v@[i] is Text
}

/// The answer of a row.
fn read_answer(qt: QuestionType, ans: String) -> (r: Option<Answer>)
    ensures
        (match r {
            Some(a) => Some(answer_shape(a)),
            None => None,
        }) == imported_answer(qt, ans@),
        text_items(r),
{
    if ans.as_str().is_empty() {
        return None;
    }
    match qt {
        QuestionType::SingleChoice => Some(Answer::Text(ans)),
        QuestionType::MultipleChoice => {
            let parts = split_char(ans.as_str(), ',');
            let ghost f = |p: Seq<char>| upper_text(trimmed(p));
            let mut items: Vec<ListItem> = Vec::new();
            let mut i: usize = 0;
            while i < parts.len()
                invariant
                    i <= parts@.len(),
                    f == (|p: Seq<char>| upper_text(trimmed(p))),
                    forall|k: int| 0 <= k < items@.len() ==> #[trigger] items@[k] is Text,
                    items@.map_values(|x: ListItem| item_text(x)) == string_views(
                        parts@.take(i as int),
                    ).map_values(f),
                decreases parts@.len() - i,
            {
                let t = trim(parts[i].as_str());
                let u = upper_case(t.as_str());
                let ghost before = items@.map_values(|x: ListItem| item_text(x));
                items.push(ListItem::Text(u));
                assert(string_views(parts@.take(i + 1)) =~= string_views(parts@.take(i as int)).push(
                    parts@[i as int]@,
                ));
                assert(items@.map_values(|x: ListItem| item_text(x)) =~= before.push(f(parts@[i as int]@)));
                assert(items@.map_values(|x: ListItem| item_text(x)) =~= string_views(
                    parts@.take(i + 1),
                ).map_values(f));
                i = i + 1;
            }
            assert(parts@.take(parts@.len() as int) =~= parts@);
            Some(Answer::List(items))
        },
        QuestionType::TrueFalse => {
            let u = upper_case(ans.as_str());
            let b = same_text(u.as_str(), "TRUE") || same_text(u.as_str(), "1") || same_text(
                u.as_str(),
                "是",
            ) || same_text(u.as_str(), "对") || same_text(u.as_str(), "正确");
            Some(Answer::Flag(b))
        },
        QuestionType::Essay => None,
    }
}

/// Reads one row of the sheet (`row_idx` counts from the header at 0), with
/// `score` as the question's default score.
pub fn import_row(row: &Vec<Cell>, row_idx: usize, score: Score) -> (r: RowOutcome)
    requires
        row_idx + 2 <= i64::MAX,
    ensures
        r.shape() == row_view(row@, row_idx as int, score),
        r matches RowOutcome::Question(q) ==> text_items(q.correct_answer),
{
    if blank_row(row) {
        return RowOutcome::Blank;
    }
    let first = column_text(row, 0);
    let lower = lower_case(first.as_str());
    let qt = match question_type_named(lower.as_str()) {
        Some(q) => q,
        None => {
            let mut m = line_label(row_idx);
            m.append("无效题目类型 \"");
            m.append(lower.as_str());
            m.append("\"，应为 single_choice / multiple_choice / true_false / essay");
            assert(m@ =~= bad_type_message(row_idx as int, lower@));
            return RowOutcome::Invalid(m);
        },
    };
    let content = column_text(row, 1);
    if content.as_str().is_empty() {
        let mut m = line_label(row_idx);
        m.append("题目内容（B列）不能为空");
        return RowOutcome::Invalid(m);
    }
    let options = read_options(row);
    let needs_options = match qt {
        QuestionType::SingleChoice | QuestionType::MultipleChoice => true,
        _ => false,
    };
    if needs_options && options.len() == 0 {
        let mut m = line_label(row_idx);
        m.append("选择题必须在 C~F 列填写至少一个选项");
        return RowOutcome::Invalid(m);
    }
    let ans = column_text(row, 6);
    let correct_answer = read_answer(qt, ans);
    let e = column_text(row, 7);
    let explanation = if e.as_str().is_empty() {
        None
    } else {
        Some(e)
    };
    RowOutcome::Question(
        ImportedQuestion {
            question_type: qt,
            content,
            options,
            correct_answer,
            explanation,
            default_score: score,
        },
    )
}

/// One refused row: its index among the sheet's rows (the header is 0) and why.
#[derive(Debug)]
pub struct ImportError {
    pub index: usize,
    pub message: String,
}

/// Summary of an import.
#[derive(Debug)]
pub struct ImportResult {
    /// Rows that were read (blank rows are not counted).
    pub total: usize,
    pub imported: usize,
    pub failed: usize,
    pub errors: Vec<ImportError>,
}

/// The decimal a parse gave, or 5 when the text was not a decimal.
pub fn score_or_default(parsed: Option<Score>) -> (r: Score)
    ensures
        parsed matches Some(p) ==> r == p,
        parsed is None ==> r.mantissa_of() == 5 && r.scale_of() == 0,
{
    match parsed {
        Some(p) => p,
        None => Score::whole(5),
    }
}

/// The default score of an imported row, from the decimal text of the score
/// column's number: that decimal when the text parses as one, 5 when it does
/// not or when the column holds no number.
pub fn row_score(number_text: &Option<String>) -> (r: Score)
    ensures
        number_text is None ==> r.mantissa_of() == 5 && r.scale_of() == 0,
        number_text matches Some(t) && parsed_decimal(t@) is Some ==> r == parsed_decimal(
            number_text.unwrap()@,
        ).unwrap(),
        number_text matches Some(t) && parsed_decimal(t@) is None ==> r.mantissa_of() == 5
            && r.scale_of() == 0,
{
    match number_text {
        None => Score::whole(5),
        Some(t) => score_or_default(Score::parse(t.as_str())),
    }
}

/// The questions read from rows `1..n` of a sheet, in order.
pub open spec fn sheet_questions(rows: Seq<Vec<Cell>>, scores: Seq<Score>, n: int) -> Seq<
    QuestionFields,
>
    decreases n,
{
    if n <= 1 {
        Seq::empty()
    } else {
        let rest = sheet_questions(rows, scores, n - 1);
        match row_view(rows[n - 1]@, n - 1, scores[n - 1]) {
            RowView::Question(f) => rest.push(f),
            _ => rest,
        }
    }
}

/// The refusals among rows `1..n` of a sheet, in order, with the row index.
pub open spec fn sheet_errors(rows: Seq<Vec<Cell>>, scores: Seq<Score>, n: int) -> Seq<
    (int, Seq<char>),
>
    decreases n,
{
    if n <= 1 {
        Seq::empty()
    } else {
        let rest = sheet_errors(rows, scores, n - 1);
        match row_view(rows[n - 1]@, n - 1, scores[n - 1]) {
            RowView::Invalid(m) => rest.push((n - 1, m)),
            _ => rest,
        }
    }
}

/// The plain values of imported questions.
pub open spec fn fields_of(v: Seq<ImportedQuestion>) -> Seq<QuestionFields> {
    v.map_values(|q: ImportedQuestion| q.fields())
}

/// The plain values of import errors.
pub open spec fn errors_of(v: Seq<ImportError>) -> Seq<(int, Seq<char>)> {
    v.map_values(|e: ImportError| (e.index as int, e.message@))
}

/// Reads every row after the header (row 0); `scores[i]` is the default
/// score of row `i`. Each row is read on its own: valid questions and refused
/// rows are collected in row order, blank rows skipped.
pub fn import_sheet(rows: &Vec<Vec<Cell>>, scores: &Vec<Score>) -> (r: (
    Vec<ImportedQuestion>,
    Vec<ImportError>,
))
    requires
        rows@.len() == scores@.len(),
        rows@.len() + 2 <= i64::MAX,
    ensures
        fields_of(r.0@) == sheet_questions(rows@, scores@, rows@.len() as int),
        errors_of(r.1@) == sheet_errors(rows@, scores@, rows@.len() as int),
        forall|i: int| 0 <= i < r.0@.len() ==> text_items(#[trigger] r.0@[i].correct_answer),
{
    let mut valid: Vec<ImportedQuestion> = Vec::new();
    let mut errors: Vec<ImportError> = Vec::new();
    let mut i: usize = 1;
    while i < rows.len()
        invariant
            rows@.len() == scores@.len(),
            rows@.len() + 2 <= i64::MAX,
            1 <= i,
            i <= rows@.len() || (rows@.len() == 0 && i == 1),
            fields_of(valid@) == sheet_questions(rows@, scores@, i as int),
            errors_of(errors@) == sheet_errors(rows@, scores@, i as int),
            forall|k: int| 0 <= k < valid@.len() ==> text_items(#[trigger] valid@[k].correct_answer),
        decreases rows@.len() - i,
    {
        let outcome = import_row(&rows[i], i, scores[i].copy());
        let ghost fv = fields_of(valid@);
        let ghost ev = errors_of(errors@);
        match outcome {
            RowOutcome::Blank => {},
            RowOutcome::Question(q) => {
                let ghost f = q.fields();
                valid.push(q);
                assert(fields_of(valid@) =~= fv.push(f));
            },
            RowOutcome::Invalid(m) => {
                let ghost mv = m@;
                errors.push(ImportError { index: i, message: m });
                assert(errors_of(errors@) =~= ev.push((i as int, mv)));
            },
        }
        assert(fields_of(valid@) == sheet_questions(rows@, scores@, i + 1));
        assert(errors_of(errors@) == sheet_errors(rows@, scores@, i + 1));
        i = i + 1;
    }
    proof {
        if rows@.len() == 0 {
            assert(sheet_questions(rows@, scores@, 0) == sheet_questions(rows@, scores@, 1));
            assert(sheet_errors(rows@, scores@, 0) == sheet_errors(rows@, scores@, 1));
        } else {
            assert(i == rows@.len());
        }
    }
    (valid, errors)
}

/// The counts reported for an import of `imported` questions with `errors`.
pub fn import_result(imported: usize, errors: Vec<ImportError>) -> (r: ImportResult)
    requires
        imported + errors@.len() <= usize::MAX,
    ensures
        r.total == imported + errors@.len(),
        r.imported == imported,
        r.failed == errors@.len(),
        r.errors@ == errors@,
{
    let failed = errors.len();
    ImportResult { total: imported + failed, imported, failed, errors }
}

/// The index of the sheet read on import, searching from `k`: the first one
/// named `题目列表`, else the first sheet.
pub open spec fn sheet_index(names: Seq<Seq<char>>, k: int) -> int
    decreases names.len() - k,
{
    if k < 0 || k >= names.len() {
        0
    } else if names[k] == "题目列表"@ {
        k
    } else {
        sheet_index(names, k + 1)
    }
}

proof fn lemma_sheet_index_bound(names: Seq<Seq<char>>, k: int)
    requires
        names.len() > 0,
    ensures
        0 <= sheet_index(names, k) < names.len(),
    decreases names.len() - k,
{
    if 0 <= k < names.len() && names[k] != "题目列表"@ {
        lemma_sheet_index_bound(names, k + 1);
    }
}

/// The sheet read on import: the one named `题目列表` if there is one, else
/// the first; a workbook without sheets is refused.
pub fn pick_sheet(names: &Vec<String>) -> (r: Result<usize, String>)
    ensures
        names@.len() == 0 ==> (r matches Err(m) && m@ == "Excel 文件中没有工作表"@),
        names@.len() > 0 ==> (r matches Ok(i) && i < names@.len() && i == sheet_index(
            string_views(names@),
            0,
        )),
        names@.len() > 0 ==> (r matches Ok(i) && ((names@[i as int]@ == "题目列表"@ && forall|k: int|
            0 <= k < i ==> names@[k]@ != "题目列表"@) || (i == 0 && forall|k: int|
            0 <= k < names@.len() ==> names@[k]@ != "题目列表"@))),
{
    if names.len() == 0 {
        return Err(String::from_str("Excel 文件中没有工作表"));
    }
    let ghost ns = string_views(names@);
    let mut i: usize = 0;
    while i < names.len()
        invariant
            i <= names@.len(),
            ns == string_views(names@),
            forall|k: int| 0 <= k < i ==> names@[k]@ != "题目列表"@,
            sheet_index(ns, 0) == sheet_index(ns, i as int),
        decreases names@.len() - i,
    {
        assert(ns[i as int] == names@[i as int]@);
        if same_text(names[i].as_str(), "题目列表") {
            return Ok(i);
        }
        i = i + 1;
    }
    Ok(0)
}

/// A workbook read from bytes in memory.
type Workbook = Xlsx<Cursor<Vec<u8>>>;

/// What `calamine` lists as the sheets of a workbook given as bytes, or the
/// text of the error when the bytes do not open as one.
pub uninterp spec fn workbook_sheet_names(bytes: Seq<u8>) -> Result<Seq<Seq<char>>, Seq<char>>;

/// What `calamine` reads as the rows of the named sheet of a workbook given as
/// bytes, each cell as the importer reads it, or the text of the error.
pub uninterp spec fn workbook_sheet_rows(bytes: Seq<u8>, sheet: Seq<char>) -> Result<Seq<Seq<Cell>>, Seq<char>>;

/// The plain values of a list of sheet names or an error.
pub open spec fn names_result(r: Result<Vec<String>, String>) -> Result<Seq<Seq<char>>, Seq<char>> {
    match r {
        Ok(v) => Ok(string_views(v@)),
        Err(e) => Err(e@),
    }
}

/// The plain values of rows of cells.
pub open spec fn rows_view(v: Seq<Vec<Cell>>) -> Seq<Seq<Cell>> {
    v.map_values(|row: Vec<Cell>| row@)
}

/// The plain values of rows of cells or an error.
pub open spec fn rows_result(r: Result<Vec<Vec<Cell>>, String>) -> Result<Seq<Seq<Cell>>, Seq<char>> {
    match r {
        Ok(v) => Ok(rows_view(v@)),
        Err(e) => Err(e@),
    }
}

/// Opens the bytes with `calamine::Xlsx::new` and lists the sheet names with
/// `Reader::sheet_names`; when the bytes do not open, the error's text. The
/// result is named by `workbook_sheet_names`.
#[verifier::external_body]
fn sheet_names_of(bytes: &[u8]) -> (r: Result<Vec<String>, String>)
    ensures
        names_result(r) == workbook_sheet_names(bytes@),
{
    let opened: Result<Workbook, XlsxError> = Reader::new(Cursor::new(bytes.to_vec()));
    match opened {
        Ok(wb) => Ok(wb.sheet_names()),
        Err(e) => Err(e.to_string()),
    }
}

/// Opens the bytes with `calamine::Xlsx::new` and reads the named sheet with
/// `Reader::worksheet_range`, row by row; text, ISO dates and durations become
/// text cells, a float the text of its shortest decimal form, date-time serials
/// and error values other cells. On failure, the error's text. The result is
/// named by `workbook_sheet_rows`.
#[verifier::external_body]
fn sheet_rows_of(bytes: &[u8], sheet: &str) -> (r: Result<Vec<Vec<Cell>>, String>)
    ensures
        rows_result(r) == workbook_sheet_rows(bytes@, sheet@),
{
    let mut wb: Workbook = Reader::new(Cursor::new(bytes.to_vec())).map_err(|e: XlsxError| e.to_string())?;
    Ok(wb.worksheet_range(sheet).map_err(|e| e.to_string())?.rows().map(|row| row.iter().map(|d| match d {
        Data::Empty => Cell::Empty,
        Data::String(t) | Data::DateTimeIso(t) | Data::DurationIso(t) => Cell::Text(t.clone()),
        Data::Float(f) => Cell::Number(f.to_string()),
        Data::Int(i) => Cell::Int(i.to_owned()),
        Data::Bool(b) => Cell::Bool(b.to_owned()),
        _ => Cell::Other,
    }).collect()).collect())
}

/// The rows of an uploaded workbook's question sheet (`题目列表`, else the
/// first sheet). Bytes that do not open as a workbook, a workbook without
/// sheets and a sheet that cannot be read are refused with their messages.
pub fn read_question_sheet(bytes: &[u8]) -> (r: Result<Vec<Vec<Cell>>, String>)
    ensures
        match workbook_sheet_names(bytes@) {
            Err(e) => r matches Err(m) && m@ == "无法解析 Excel 文件: "@ + e,
            Ok(ns) => if ns.len() == 0 {
                r matches Err(m) && m@ == "Excel 文件中没有工作表"@
            } else {
                let t = ns[sheet_index(ns, 0)];
                match workbook_sheet_rows(bytes@, t) {
                    Err(e) => r matches Err(m) && m@ == "读取工作表「"@ + t + "」失败: "@ + e,
                    Ok(rows) => r matches Ok(v) && rows_view(v@) == rows,
                }
            },
        },
{
    let names = match sheet_names_of(bytes) {
        Ok(ns) => ns,
        Err(e) => {
            let mut m = String::from_str("无法解析 Excel 文件: ");
            m.append(e.as_str());
            return Err(m);
        },
    };
    let i = pick_sheet(&names)?;
    let target = names[i].as_str();
    match sheet_rows_of(bytes, target) {
        Ok(rows) => Ok(rows),
        Err(e) => {
            let mut m = String::from_str("读取工作表「");
            m.append(target);
            m.append("」失败: ");
            m.append(e.as_str());
            Err(m)
        },
    }
}

/// A question of the bank as the export reads it.
#[derive(Debug)]
pub struct BankQuestion {
    pub question_type: QuestionType,
    pub content: String,
    /// When the stored options are a JSON array: for each element, its
    /// `text` member when that is a string.
    pub options: Option<Vec<Option<String>>>,
    pub correct_answer: Option<Answer>,
    pub explanation: Option<String>,
}

/// The string items of an array answer, in order (other items dropped).
pub open spec fn string_items(v: Seq<ListItem>) -> Seq<Seq<char>>
    decreases v.len(),
{
    if v.len() == 0 {
        Seq::empty()
    } else {
        let rest = string_items(v.drop_last());
        match v.last() {
            ListItem::Text(s) => rest.push(s@),
            ListItem::Other(_) => rest,
        }
    }
}

/// The answer column's text: a string answer as it is, the string items of an
/// array joined with `,`, a boolean as `TRUE`/`FALSE`; nothing otherwise.
pub open spec fn answer_cell(a: Option<Answer>) -> Seq<char> {
    match a {
        Some(Answer::Text(s)) => s@,
        Some(Answer::List(v)) => join_pieces(string_items(v@), ','),
        Some(Answer::Flag(b)) => if b {
            "TRUE"@
        } else {
            "FALSE"@
        },
        _ => Seq::empty(),
    }
}

/// The text of option `i` written to the sheet, if any: the `text` of array
/// element `i` (among the first four) when it is a non-empty string.
pub open spec fn option_cell(opts: Option<Vec<Option<String>>>, i: int) -> Option<Seq<char>> {
    match opts {
        Some(v) => if i < v@.len() {
            match v@[i] {
                Some(t) => if t@.len() > 0 {
                    Some(t@)
                } else {
                    None
                },
                None => None,
            }
        } else {
            None
        },
        None => None,
    }
}

/// The cell of column `col` (0 to 7) of a question's exported row; `None` is
/// a cell left empty. Column A is the type, B the content (always written),
/// C to F the options, G the answer and H the explanation, each written only
/// when not empty.
pub open spec fn exported_cell(q: BankQuestion, col: int) -> Option<Seq<char>> {
    if col == 0 {
        Some(kind_name(q.question_type))
    } else if col == 1 {
        Some(q.content@)
    } else if 2 <= col < 6 {
        option_cell(q.options, col - 2)
    } else if col == 6 {
        let a = answer_cell(q.correct_answer);
        if a.len() > 0 {
            Some(a)
        } else {
            None
        }
    } else {
        match q.explanation {
            Some(e) => if e@.len() > 0 {
                Some(e@)
            } else {
                None
            },
            None => None,
        }
    }
}

/// The string items of an array answer, joined with `,`.
fn joined_items(items: &Vec<ListItem>) -> (r: String)
    ensures
        r@ == join_pieces(string_items(items@), ','),
{
    let mut out = String::new();
    let mut count: usize = 0;
    let mut i: usize = 0;
    while i < items.len()
        invariant
            i <= items@.len(),
            count == string_items(items@.take(i as int)).len(),
            count <= i,
            out@ == join_pieces(string_items(items@.take(i as int)), ','),
        decreases items@.len() - i,
    {
        assert(items@.take(i + 1).drop_last() =~= items@.take(i as int));
        assert(items@.take(i + 1).last() == items@[i as int]);
        match &items[i] {
            ListItem::Text(s) => {
                let ghost prev = string_items(items@.take(i as int));
                if count > 0 {
                    out.append(",");
                }
                out.append(s.as_str());
                proof {
                    lemma_join_pieces_push(prev, s@, ',');
                    reveal_strlit(",");
                }
                assert(out@ =~= join_pieces(string_items(items@.take(i + 1)), ','));
                count = count + 1;
            },
            ListItem::Other(_) => {},
        }
        i = i + 1;
    }
    assert(items@.take(items@.len() as int) =~= items@);
    out
}

/// The answer column's text.
fn answer_text(a: &Option<Answer>) -> (r: String)
    ensures
        r@ == answer_cell(*a),
{
    match a {
        Some(Answer::Text(s)) => s.clone(),
        Some(Answer::List(v)) => joined_items(v),
        Some(Answer::Flag(b)) => if *b {
            String::from_str("TRUE")
        } else {
            String::from_str("FALSE")
        },
        _ => String::new(),
    }
}

/// A non-empty text as a written cell; an empty one leaves the cell empty.
fn written(t: String) -> (r: Option<String>)
    ensures
        t@.len() == 0 ==> r is None,
        t@.len() > 0 ==> (r matches Some(u) && u@ == t@),
{
    if t.as_str().is_empty() {
        None
    } else {
        Some(t)
    }
}

/// The text of option `i`, if it is written.
fn option_text(opts: &Option<Vec<Option<String>>>, i: usize) -> (r: Option<String>)
    ensures
        (match r {
            Some(t) => Some(t@),
            None => None,
        }) == option_cell(*opts, i as int),
{
    match opts {
        Some(v) => {
            if i < v.len() {
                match &v[i] {
                    Some(t) => written(t.clone()),
                    None => None,
                }
            } else {
                None
            }
        },
        None => None,
    }
}

/// The plain value of a written cell.
pub open spec fn cell_view(c: Option<String>) -> Option<Seq<char>> {
    match c {
        Some(t) => Some(t@),
        None => None,
    }
}

/// The plain values of a row of written cells.
pub open spec fn cell_views(v: Seq<Option<String>>) -> Seq<Option<Seq<char>>> {
    v.map_values(|c: Option<String>| cell_view(c))
}

/// Columns A to H of a question's exported row (the score column is written
/// apart).
pub fn export_cells(q: &BankQuestion) -> (r: Vec<Option<String>>)
    ensures
        r@.len() == 8,
        forall|col: int| 0 <= col < 8 ==> #[trigger] cell_views(r@)[col] == exported_cell(*q, col),
{
    let mut row: Vec<Option<String>> = Vec::new();
    row.push(Some(question_type_name(q.question_type)));
    row.push(Some(q.content.clone()));
    assert(cell_views(row@)[0] == exported_cell(*q, 0));
    assert(cell_views(row@)[1] == exported_cell(*q, 1));
    let mut i: usize = 0;
    while i < 4
        invariant
            i <= 4,
            row@.len() == 2 + i,
            forall|col: int| 0 <= col < 2 + i ==> #[trigger] cell_views(row@)[col] == exported_cell(
                *q,
                col,
            ),
        decreases 4 - i,
    {
        let t = option_text(&q.options, i);
        let ghost before = cell_views(row@);
        let ghost tv = cell_view(t);
        row.push(t);
        assert(cell_views(row@) =~= before.push(tv));
        assert(cell_views(row@)[2 + i] == exported_cell(*q, 2 + i));
        i = i + 1;
    }
    let a = answer_text(&q.correct_answer);
    let wa = written(a);
    let ghost before = cell_views(row@);
    let ghost av = cell_view(wa);
    row.push(wa);
    assert(cell_views(row@) =~= before.push(av));
    assert(cell_views(row@)[6] == exported_cell(*q, 6));
    let e = match &q.explanation {
        Some(x) => written(x.clone()),
        None => None,
    };
    let ghost before2 = cell_views(row@);
    let ghost ev = cell_view(e);
    row.push(e);
    assert(cell_views(row@) =~= before2.push(ev));
    assert(cell_views(row@)[7] == exported_cell(*q, 7));
    row
}

/// A row as the importer reads back what the export wrote for `q`: every
/// written text as a text cell, every unwritten cell empty (the score column
/// after them is any cell).
pub open spec fn reads_back(row: Seq<Cell>, q: BankQuestion) -> bool {
    row.len() >= 8 && forall|col: int|
        0 <= col < 8 ==> match #[trigger] exported_cell(q, col) {
            Some(t) => (row[col] matches Cell::Text(c) && c@ == t),
            None => row[col] is Empty,
        }
}

proof fn lemma_no_space_ends(s: Seq<char>)
    requires
        s.len() > 0,
        !is_space(s[0]),
        !is_space(s.last()),
    ensures
        trimmed(s) == s,
{
}

proof fn lemma_kind_name(qt: QuestionType)
    ensures
        trimmed(kind_name(qt)) == kind_name(qt),
        lower_text(kind_name(qt)) == kind_name(qt),
        type_named(kind_name(qt)) == Some(qt),
        kind_name(qt).len() > 0,
{
    reveal_strlit("single_choice");
    reveal_strlit("multiple_choice");
    reveal_strlit("true_false");
    reveal_strlit("essay");
    let n = kind_name(qt);
    assert(all_ascii(n));
    lemma_no_space_ends(n);
    assert forall|i: int| 0 <= i < n.len() implies 97 <= (#[trigger] n[i] as int) <= 122 || n[i]
        == '_' by {}
    assert(lower_text(n) =~= n);
}

proof fn lemma_flag_text(b: bool)
    ensures
        ({
            let t = if b {
                "TRUE"@
            } else {
                "FALSE"@
            };
            &&& t.len() > 0
            &&& trimmed(t) == t
            &&& upper_text(t) == t
            &&& truthy(t) == b
        }),
{
    reveal_strlit("TRUE");
    reveal_strlit("FALSE");
    reveal_strlit("1");
    reveal_strlit("是");
    reveal_strlit("对");
    reveal_strlit("正确");
    let t = if b {
        "TRUE"@
    } else {
        "FALSE"@
    };
    lemma_no_space_ends(t);
    assert(all_ascii(t));
    assert(upper_text(t) =~= t);
}

/// Some option column among the first `k` holds text, so the options read
/// are not empty.
proof fn lemma_some_option(row: Seq<Cell>, k: nat, i: int)
    requires
        0 <= i < k,
        text_at(row, 2 + i).len() > 0,
    ensures
        options_upto(row, k).len() > 0,
    decreases k,
{
    if i < k - 1 {
        lemma_some_option(row, (k - 1) as nat, i);
    }
}

/// Splitting text that holds no separator gives the text itself.
proof fn lemma_split_single(x: Seq<char>, sep: char)
    requires
        !x.contains(sep),
    ensures
        split_pieces(x, sep) == seq![x],
    decreases x.len(),
{
    if x.len() > 0 {
        assert(!x.drop_last().contains(sep)) by {
            if x.drop_last().contains(sep) {
                let j = choose|j: int| 0 <= j < x.drop_last().len() && x.drop_last()[j] == sep;
                assert(x[j] == sep);
            }
        }
        lemma_split_single(x.drop_last(), sep);
        assert(x.last() != sep) by {
            assert(x[x.len() - 1] == x.last());
        }
        assert(x.drop_last().push(x.last()) =~= x);
    } else {
        assert(x =~= Seq::<char>::empty());
    }
}

/// Splitting `a`, a separator and a separator-free `x` gives the pieces of
/// `a` followed by `x`.
proof fn lemma_split_append(a: Seq<char>, x: Seq<char>, sep: char)
    requires
        !x.contains(sep),
    ensures
        split_pieces(a + seq![sep] + x, sep) == split_pieces(a, sep).push(x),
    decreases x.len(),
{
    if x.len() == 0 {
        let whole = a + seq![sep] + x;
        assert(whole.drop_last() =~= a);
        assert(whole.last() == sep);
        assert(x =~= Seq::<char>::empty());
    } else {
        assert(!x.drop_last().contains(sep)) by {
            if x.drop_last().contains(sep) {
                let j = choose|j: int| 0 <= j < x.drop_last().len() && x.drop_last()[j] == sep;
                assert(x[j] == sep);
            }
        }
        lemma_split_append(a, x.drop_last(), sep);
        assert(x.last() != sep) by {
            assert(x[x.len() - 1] == x.last());
        }
        let whole = a + seq![sep] + x;
        assert(whole.drop_last() =~= a + seq![sep] + x.drop_last());
        assert(whole.last() == x.last());
        crate::text::lemma_split_pieces_nonempty(a, sep);
        assert(x.drop_last().push(x.last()) =~= x);
        assert(split_pieces(a, sep).push(x.drop_last()).update(
            split_pieces(a, sep).len() as int,
            x.drop_last().push(x.last()),
        ) =~= split_pieces(a, sep).push(x));
        assert(x.drop_last().push(x.last()) =~= x);
    }
}

/// Joining separator-free pieces and splitting again gives the pieces back.
proof fn lemma_split_join(ls: Seq<Seq<char>>, sep: char)
    requires
        ls.len() > 0,
        forall|i: int| 0 <= i < ls.len() ==> !(#[trigger] ls[i]).contains(sep),
    ensures
        split_pieces(join_pieces(ls, sep), sep) == ls,
    decreases ls.len(),
{
    if ls.len() == 1 {
        lemma_split_single(ls[0], sep);
        assert(seq![ls[0]] =~= ls);
    } else {
        let init = ls.drop_last();
        assert forall|i: int| 0 <= i < init.len() implies !(#[trigger] init[i]).contains(sep) by {
            assert(init[i] == ls[i]);
        }
        lemma_split_join(init, sep);
        assert(!ls.last().contains(sep)) by {
            assert(ls[ls.len() - 1] == ls.last());
        }
        lemma_split_append(join_pieces(init, sep), ls.last(), sep);
        assert(init.push(ls.last()) =~= ls);
    }
}

/// Items of a multiple-choice answer that survive being written to the sheet
/// and read back: strings, none empty, without commas and without surrounding
/// white space.
pub open spec fn portable_items(v: Seq<ListItem>) -> bool {
    v.len() > 0 && forall|i: int|
        0 <= i < v.len() ==> (#[trigger] v[i] matches ListItem::Text(s) && s@.len() > 0
            && !s@.contains(',') && trimmed(s@) == s@)
}

proof fn lemma_string_items_all_text(v: Seq<ListItem>)
    requires
        forall|i: int| 0 <= i < v.len() ==> #[trigger] v[i] is Text,
    ensures
        string_items(v) == v.map_values(|x: ListItem| item_text(x)),
    decreases v.len(),
{
    if v.len() > 0 {
        let init = v.drop_last();
        assert forall|i: int| 0 <= i < init.len() implies #[trigger] init[i] is Text by {
            assert(init[i] == v[i]);
        }
        lemma_string_items_all_text(init);
        assert(v[v.len() - 1] == v.last());
        assert(v.map_values(|x: ListItem| item_text(x)) =~= init.map_values(
            |x: ListItem| item_text(x),
        ).push(item_text(v.last())));
    }
}

/// A question the export wrote is read back by the import: the type, the
/// content and the explanation come back, a true/false answer keeps its
/// value, a single-choice answer its text, and a multiple-choice answer its
/// items upper-cased, provided the written texts carry no surrounding white space, the
/// content is not empty and a choice question has an option among its first
/// four.
pub proof fn lemma_export_then_import(q: BankQuestion, row: Seq<Cell>, row_idx: int, score: Score)
    requires
        reads_back(row, q),
        forall|col: int|
            0 <= col < 8 ==> (#[trigger] exported_cell(q, col) matches Some(t) ==> trimmed(t)
                == t),
        q.content@.len() > 0,
        (q.question_type == QuestionType::SingleChoice || q.question_type
            == QuestionType::MultipleChoice) ==> exists|i: int|
            0 <= i < 4 && #[trigger] option_cell(q.options, i) is Some,
    ensures
        match row_view(row, row_idx, score) {
            RowView::Question(f) => {
                &&& f.question_type == q.question_type
                &&& f.content == q.content@
                &&& f.explanation == exported_cell(q, 7)
                &&& f.score == score
                &&& match q.correct_answer {
                    Some(Answer::Flag(b)) => q.question_type == QuestionType::TrueFalse ==> f.answer
                        == Some(AnswerShape::Flag(b)),
                    Some(Answer::Text(t)) => (q.question_type == QuestionType::SingleChoice
                        && t@.len() > 0) ==> f.answer == Some(AnswerShape::Text(t@)),
                    Some(Answer::List(v)) => (q.question_type == QuestionType::MultipleChoice
                        && portable_items(v@)) ==> f.answer == Some(
                        AnswerShape::Items(v@.map_values(|x: ListItem| upper_text(item_text(x)))),
                    ),
                    _ => true,
                }
            },
            _ => false,
        },
{
    assert(exported_cell(q, 0) == Some(kind_name(q.question_type)));
    assert(exported_cell(q, 1) == Some(q.content@));
    assert(!is_blank(row)) by {
        assert(!(row[0] is Empty));
    }
    lemma_kind_name(q.question_type);
    assert(text_at(row, 0) == kind_name(q.question_type));
    assert(text_at(row, 1) == q.content@);
    if q.question_type == QuestionType::SingleChoice || q.question_type
        == QuestionType::MultipleChoice {
        let i = choose|i: int| 0 <= i < 4 && #[trigger] option_cell(q.options, i) is Some;
        assert(exported_cell(q, 2 + i) == option_cell(q.options, i));
        lemma_some_option(row, 4, i);
    }
    let e7 = exported_cell(q, 7);
    match e7 {
        Some(t) => {
            assert(text_at(row, 7) == t);
        },
        None => {
            assert(text_at(row, 7) == Seq::<char>::empty());
        },
    }
    let e6 = exported_cell(q, 6);
    match q.correct_answer {
        Some(Answer::Flag(b)) => {
            lemma_flag_text(b);
            assert(e6 == Some(answer_cell(q.correct_answer)));
            assert(text_at(row, 6) == answer_cell(q.correct_answer));
        },
        Some(Answer::Text(s)) => {
            if s@.len() > 0 {
                assert(text_at(row, 6) == s@);
            }
        },
        Some(Answer::List(v)) => {
            if q.question_type == QuestionType::MultipleChoice && portable_items(v@) {
                assert forall|i: int| 0 <= i < v@.len() implies #[trigger] v@[i] is Text by {}
                lemma_string_items_all_text(v@);
                let ls = v@.map_values(|x: ListItem| item_text(x));
                assert forall|i: int| 0 <= i < ls.len() implies !(#[trigger] ls[i]).contains(',') by {
                    assert(ls[i] == item_text(v@[i]));
                }
                lemma_split_join(ls, ',');
                let joined = join_pieces(ls, ',');
                assert(joined.len() > 0) by {
                    if joined.len() == 0 {
                        assert(split_pieces(joined, ',') == seq![Seq::<char>::empty()]);
                        assert(ls[0].len() > 0);
                    }
                }
                assert(answer_cell(q.correct_answer) == joined);
                assert(text_at(row, 6) == joined);
                let f = |p: Seq<char>| upper_text(trimmed(p));
                assert forall|i: int| 0 <= i < ls.len() implies f(ls[i]) == upper_text(item_text(v@[i])) by {
                    assert(ls[i] == item_text(v@[i]));
                }
                assert(ls.map_values(f) =~= v@.map_values(|x: ListItem| upper_text(item_text(x))));
            }
        },
        _ => {},
    }
}

} // verus!
