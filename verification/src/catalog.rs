//! Input checks of the catalogue: majors, courses, chapters and videos.
use vstd::prelude::*;
use crate::model::{ApiError, Status, api_error};
use crate::exam::require_text;
use crate::text::{same_text, trimmed};

verus! {

/// An optional text field: when it is given it may not be blank (400 with
/// `message`); when it is absent the request passes.
pub fn optional_text_check(value: &Option<String>, message: &str) -> (r: Result<(), ApiError>)
    ensures
        r is Ok <==> (match value {
            Some(v) => trimmed(v@).len() > 0,
            None => true,
        }),
        r matches Err(e) ==> e.status == Status::BadRequest && e.message@ == message@,
{
    match value {
        Some(v) => require_text(v.as_str(), message),
        None => Ok(()),
    }
}

/// A new major.
#[derive(Debug)]
pub struct CreateMajor {
    pub name: String,
    pub code: Option<String>,
    pub description: Option<String>,
    pub sort_order: Option<i32>,
}

/// Changes to a major; absent fields stay as they are.
#[derive(Debug)]
pub struct UpdateMajor {
    pub name: Option<String>,
    pub code: Option<String>,
    pub description: Option<String>,
    pub sort_order: Option<i32>,
}

/// A new major needs a name that is not blank.
pub fn create_major_check(req: &CreateMajor) -> (r: Result<(), ApiError>)
    ensures
        r is Ok <==> trimmed(req.name@).len() > 0,
        r matches Err(e) ==> e.status == Status::BadRequest && e.message@ == "专业名称不能为空"@,
{
    require_text(req.name.as_str(), "专业名称不能为空")
}

/// A renamed major needs a name that is not blank.
pub fn update_major_check(req: &UpdateMajor) -> (r: Result<(), ApiError>)
    ensures
        r is Ok <==> (match req.name {
            Some(n) => trimmed(n@).len() > 0,
            None => true,
        }),
        r matches Err(e) ==> e.status == Status::BadRequest && e.message@ == "专业名称不能为空"@,
{
    optional_text_check(&req.name, "专业名称不能为空")
}

/// A failed write of a major: a unique violation (SQLSTATE `23505`, a code
/// already taken) is a 400; anything else a 500 carrying the database's message.
pub fn major_write_error(code: &Option<String>, detail: String) -> (r: ApiError)
    ensures
        (code matches Some(c) && c@ == "23505"@) ==> r.status == Status::BadRequest && r.message@
            == "专业代码已存在"@,
        !(code matches Some(c) && c@ == "23505"@) ==> r.status == Status::InternalServerError
            && r.message@ == detail@,
{
    match code {
        Some(c) => {
            if same_text(c.as_str(), "23505") {
                return api_error(Status::BadRequest, "专业代码已存在");
            }
        },
        None => {},
    }
    ApiError { status: Status::InternalServerError, message: detail }
}

/// A course's title, when set, may not be blank.
pub fn course_title_check(title: &Option<String>) -> (r: Result<(), ApiError>)
    ensures
        r is Ok <==> (match title {
            Some(t) => trimmed(t@).len() > 0,
            None => true,
        }),
        r matches Err(e) ==> e.status == Status::BadRequest && e.message@ == "课程标题不能为空"@,
{
    optional_text_check(title, "课程标题不能为空")
}

/// A new chapter of a course (the course comes from the path).
#[derive(Debug)]
pub struct CreateChapterRequest {
    pub title: String,
    pub description: Option<String>,
    pub sort_order: Option<i32>,
}

/// Changes to a chapter; absent fields stay as they are.
#[derive(Debug)]
pub struct UpdateChapter {
    pub title: Option<String>,
    pub description: Option<String>,
    pub sort_order: Option<i32>,
}

/// A new chapter needs a title that is not blank.
pub fn create_chapter_check(req: &CreateChapterRequest) -> (r: Result<(), ApiError>)
    ensures
        r is Ok <==> trimmed(req.title@).len() > 0,
        r matches Err(e) ==> e.status == Status::BadRequest && e.message@ == "章节标题不能为空"@,
{
    require_text(req.title.as_str(), "章节标题不能为空")
}

/// A renamed chapter needs a title that is not blank.
pub fn update_chapter_check(req: &UpdateChapter) -> (r: Result<(), ApiError>)
    ensures
        r is Ok <==> (match req.title {
            Some(t) => trimmed(t@).len() > 0,
            None => true,
        }),
        r matches Err(e) ==> e.status == Status::BadRequest && e.message@ == "章节标题不能为空"@,
{
    optional_text_check(&req.title, "章节标题不能为空")
}

/// The chapter must belong to the course named in the path (404 otherwise).
pub fn chapter_in_course(chapter_course_id: u128, course_id: u128) -> (r: Result<(), ApiError>)
    ensures
        r is Ok <==> chapter_course_id == course_id,
        r matches Err(e) ==> e.status == Status::NotFound && e.message@ == "章节不存在"@,
{
    if chapter_course_id == course_id {
        Ok(())
    } else {
        Err(api_error(Status::NotFound, "章节不存在"))
    }
}

/// A new video in a chapter.
#[derive(Debug)]
pub struct CreateVideoRequest {
    pub title: String,
    pub description: Option<String>,
    pub sort_order: Option<i32>,
}

/// Changes to a video; absent fields stay as they are.
#[derive(Debug)]
pub struct UpdateVideoRequest {
    pub title: Option<String>,
    pub description: Option<String>,
    pub sort_order: Option<i32>,
}

/// A new video needs a title that is not blank.
pub fn create_video_check(req: &CreateVideoRequest) -> (r: Result<(), ApiError>)
    ensures
        r is Ok <==> trimmed(req.title@).len() > 0,
        r matches Err(e) ==> e.status == Status::BadRequest && e.message@ == "视频标题不能为空"@,
{
    require_text(req.title.as_str(), "视频标题不能为空")
}

} // verus!
