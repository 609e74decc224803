use microcourse::catalog::{
    chapter_in_course, course_title_check, create_chapter_check, create_major_check,
    create_video_check, major_write_error, optional_text_check, update_chapter_check,
    update_major_check, CreateChapterRequest, CreateMajor, CreateVideoRequest, UpdateChapter,
    UpdateMajor,
};
use microcourse::model::{api_error, AllowedRoles, Status, UserRole};
use microcourse::pagination::{
    clamp_i64, default_highlight_limit, default_limit, default_page_size, paginate,
    DiscoverLimitQuery, PageQuery, TopicHighlightQuery, TopicPageQuery,
};
use microcourse::score::Score;
use microcourse::text::{
    contains_char, contains_text, ends_with, int_text, same_text, split_char, starts_with, trim,
};

#[test]
fn allowed_roles_membership() {
    let roles = AllowedRoles::new(vec![UserRole::Teacher, UserRole::Admin]);
    assert!(roles.contains(&UserRole::Admin));
    assert!(!roles.contains(&UserRole::Student));
    assert!(!AllowedRoles::new(vec![]).contains(&UserRole::Admin));
}

#[test]
fn status_codes() {
    let all = [
        (Status::BadRequest, 400), (Status::Unauthorized, 401), (Status::Forbidden, 403),
        (Status::NotFound, 404), (Status::Conflict, 409), (Status::UnprocessableEntity, 422),
        (Status::InternalServerError, 500), (Status::BadGateway, 502),
    ];
    for (s, c) in all {
        assert_eq!(s.code(), c);
    }
    let e = api_error(Status::NotFound, "x");
    assert_eq!(e.message, "x");
}

#[test]
fn page_sizes_are_clamped() {
    assert_eq!(default_page_size(), 20);
    assert_eq!(default_highlight_limit(), 5);
    assert_eq!(default_limit(), 10);
    let q = |n| PageQuery { page_size: n, cursor_created_at: None, cursor_id: None };
    assert_eq!(q(0).page_size(), 1);
    assert_eq!(q(500).page_size(), 100);
    assert_eq!(q(37).page_size(), 37);
    assert_eq!(DiscoverLimitQuery { limit: 80 }.limit(), 50);
    assert_eq!(DiscoverLimitQuery { limit: -3 }.limit(), 1);
    assert_eq!(TopicHighlightQuery { limit: 11 }.limit(), 10);
    assert_eq!(TopicHighlightQuery { limit: 0 }.limit(), 1);
    assert_eq!(clamp_i64(7, 1, 5), 5);
    assert_eq!(clamp_i64(clamp_i64(-7, 1, 5), 1, 5), 1);
}

#[test]
fn cursors_need_every_part() {
    let q = PageQuery { page_size: 20, cursor_created_at: Some(5), cursor_id: None };
    assert_eq!(q.cursor(), None);
    let q = PageQuery { page_size: 20, cursor_created_at: Some(5), cursor_id: Some(9) };
    assert_eq!(q.cursor(), Some((5, 9)));
    let t = TopicPageQuery { page_size: 0, cursor_created_at: Some(5), cursor_id: Some(9), cursor_is_pinned: Some(true) };
    assert_eq!(t.cursor(), Some((true, 5, 9)));
    assert_eq!(t.page_size(), 1);
}

#[test]
fn pages_are_cut_from_fetched_rows() {
    let p = paginate(vec!['a', 'b', 'c'], vec![1, 2, 3], 2);
    assert!(p.has_more);
    assert_eq!(p.items, vec!['a', 'b']);
    assert_eq!(p.next_cursor, Some(2));
    let p = paginate(vec!['a', 'b'], vec![1, 2], 2);
    assert!(!p.has_more);
    assert_eq!(p.items.len(), 2);
    assert_eq!(p.next_cursor, None);
    assert_eq!(p.page_size, 2);
}

#[test]
fn decimal_scores() {
    assert!(Score::new(1, 29).is_none());
    let s = Score::new(-125, 2).unwrap();
    assert_eq!((s.mantissa(), s.scale()), (-125, 2));
    assert!(!s.is_positive());
    assert!(Score::whole(1).is_positive());
    assert!(!Score::zero().is_positive());
    assert_eq!(Score::whole(7).copy().mantissa(), 7);
}

#[test]
fn text_helpers() {
    assert_eq!(trim("\u{3000} 全角 \n"), "全角");
    assert!(starts_with("Bearer x", "Bearer "));
    assert!(!starts_with("Bear", "Bearer "));
    assert!(ends_with("a.m3u8", ".m3u8"));
    assert!(contains_char("a/b", '/'));
    assert!(contains_text("a..b", ".."));
    assert!(!contains_text("a.b", ".."));
    assert!(same_text("x", "x"));
    assert_eq!(int_text(-90), "-90");
    assert_eq!(int_text(0), "0");
    assert_eq!(int_text(i64::MIN), i64::MIN.to_string());
    assert_eq!(split_char("a,,b", ','), vec!["a", "", "b"]);
    assert_eq!(split_char("", ','), vec![""]);
}

#[test]
fn catalogue_checks() {
    assert!(optional_text_check(&None, "m").is_ok());
    assert_eq!(optional_text_check(&Some(" ".into()), "m").unwrap_err().status, Status::BadRequest);
    assert_eq!(create_major_check(&CreateMajor { name: " ".into(), code: None, description: None, sort_order: None }).unwrap_err().message, "专业名称不能为空");
    assert!(update_major_check(&UpdateMajor { name: None, code: None, description: None, sort_order: None }).is_ok());
    assert_eq!(update_major_check(&UpdateMajor { name: Some("".into()), code: None, description: None, sort_order: None }).unwrap_err().message, "专业名称不能为空");
    let e = major_write_error(&Some("23505".into()), "d".into());
    assert_eq!((e.status, e.message.as_str()), (Status::BadRequest, "专业代码已存在"));
    assert_eq!(major_write_error(&None, "d".into()).status, Status::InternalServerError);
    assert_eq!(course_title_check(&Some("  ".into())).unwrap_err().message, "课程标题不能为空");
    assert_eq!(create_chapter_check(&CreateChapterRequest { title: "".into(), description: None, sort_order: None }).unwrap_err().message, "章节标题不能为空");
    assert!(update_chapter_check(&UpdateChapter { title: Some("第一章".into()), description: None, sort_order: Some(1) }).is_ok());
    assert_eq!(chapter_in_course(1, 2).unwrap_err().message, "章节不存在");
    assert_eq!(create_video_check(&CreateVideoRequest { title: "\t".into(), description: None, sort_order: None }).unwrap_err().message, "视频标题不能为空");
}
