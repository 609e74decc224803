//! Who may see or change courses, chapters, users and community posts.
use vstd::prelude::*;
use crate::model::{ApiError, AuthContext, CourseStatus, Status, UserRole, api_error};
use crate::text::{trim, trimmed};

verus! {

/// A course, with what the checks and the responses read of it.
#[derive(Debug)]
pub struct Course {
    pub id: u128,
    pub title: String,
    pub description: Option<String>,
    pub cover_image_url: Option<String>,
    pub major_id: Option<u128>,
    pub teacher_id: u128,
    pub teacher_name: Option<String>,
    pub status: CourseStatus,
    pub vote_count: i64,
}

/// The caller is an administrator or the course's teacher.
pub open spec fn owns_course(auth: AuthContext, teacher_id: u128) -> bool {
    auth.role == UserRole::Admin || auth.user_id == teacher_id
}

/// A published course is visible to everyone; a draft or archived one only to
/// an administrator or its teacher.
pub open spec fn course_visible(status: CourseStatus, teacher_id: u128, auth: Option<AuthContext>) -> bool {
    status == CourseStatus::Published || (auth matches Some(a) && owns_course(a, teacher_id))
}

/// Whoever may change a course may also see it, whatever its state; an
/// administrator sees every course; a published course is seen even without
/// signing in.
pub proof fn lemma_editor_sees_course(status: CourseStatus, teacher_id: u128, auth: AuthContext)
    ensures
        owns_course(auth, teacher_id) ==> course_visible(status, teacher_id, Some(auth)),
        auth.role == UserRole::Admin ==> course_visible(status, teacher_id, Some(auth)),
        status == CourseStatus::Published ==> course_visible(status, teacher_id, None),
{
}

/// A published course is visible to everyone; a draft or archived one only to
/// an administrator or its teacher.
pub fn course_visible_to(status: CourseStatus, teacher_id: u128, auth: Option<AuthContext>) -> (r: bool)
    ensures
        r == course_visible(status, teacher_id, auth),
{
    if status == CourseStatus::Published {
        return true;
    }
    match auth {
        Some(a) => a.role == UserRole::Admin || a.user_id == teacher_id,
        None => false,
    }
}

/// Only an administrator or the course's teacher may change the course (or its
/// chapters); others are refused with `message`.
pub fn ensure_teacher_or_admin(auth: &AuthContext, teacher_id: u128, message: &str) -> (r: Result<(), ApiError>)
    ensures
        r is Ok <==> owns_course(*auth, teacher_id),
        r matches Err(e) ==> e.status == Status::Forbidden && e.message@ == message@,
{
    if auth.role == UserRole::Admin || auth.user_id == teacher_id {
        Ok(())
    } else {
        Err(api_error(Status::Forbidden, message))
    }
}

/// A user's own record is open to the user and to administrators.
pub fn ensure_self_or_admin(auth: &AuthContext, target_user_id: u128) -> (r: Result<(), ApiError>)
    ensures
        r is Ok <==> (auth.role == UserRole::Admin || auth.user_id == target_user_id),
        r matches Err(e) ==> e.status == Status::Forbidden && e.message@ == "仅本人或管理员可访问该用户资源"@,
{
    if auth.role == UserRole::Admin || auth.user_id == target_user_id {
        Ok(())
    } else {
        Err(api_error(Status::Forbidden, "仅本人或管理员可访问该用户资源"))
    }
}

/// Which user fields an update request sets.
#[derive(Debug)]
pub struct UserUpdateFields {
    pub sets_is_active: bool,
    pub sets_role: bool,
}

/// A user may update their own profile; only an administrator may update
/// another user's, enable or disable an account, or change a role.
pub fn check_user_update(auth: &AuthContext, target_user_id: u128, fields: &UserUpdateFields) -> (r: Result<
    (),
    ApiError,
>)
    ensures
        r is Ok <==> (auth.role == UserRole::Admin || (auth.user_id == target_user_id && !fields.sets_is_active
            && !fields.sets_role)),
        r matches Err(e) ==> e.status == Status::Forbidden,
        auth.role != UserRole::Admin && auth.user_id != target_user_id ==> (r matches Err(e)
            && e.message@ == "仅本人或管理员可访问该用户资源"@),
        auth.role != UserRole::Admin && auth.user_id == target_user_id && fields.sets_is_active ==> (
        r matches Err(e) && e.message@ == "仅管理员可修改账号启用状态"@),
        auth.role != UserRole::Admin && auth.user_id == target_user_id && !fields.sets_is_active
            && fields.sets_role ==> (r matches Err(e) && e.message@ == "仅管理员可修改用户角色"@),
{
    ensure_self_or_admin(auth, target_user_id)?;
    if fields.sets_is_active && auth.role != UserRole::Admin {
        return Err(api_error(Status::Forbidden, "仅管理员可修改账号启用状态"));
    }
    if fields.sets_role && auth.role != UserRole::Admin {
        return Err(api_error(Status::Forbidden, "仅管理员可修改用户角色"));
    }
    Ok(())
}

/// The course community is open to administrators, the course's teacher and
/// enrolled students (`enrolled` is only consulted for students).
pub fn ensure_community_access(auth: &AuthContext, course_teacher_id: u128, enrolled: bool) -> (r: Result<
    (),
    ApiError,
>)
    ensures
        r is Ok <==> (owns_course(*auth, course_teacher_id) || (auth.role == UserRole::Student
            && enrolled)),
        r matches Err(e) ==> e.status == Status::Forbidden && e.message@
            == "仅课程教师、已选课学生或管理员可访问课程社区"@,
{
    if auth.role == UserRole::Admin || auth.user_id == course_teacher_id {
        return Ok(());
    }
    if auth.role == UserRole::Student && enrolled {
        return Ok(());
    }
    Err(api_error(Status::Forbidden, "仅课程教师、已选课学生或管理员可访问课程社区"))
}

/// A course topic (or reply) may be deleted by an administrator, the course's
/// teacher or its author.
pub fn can_delete_course_post(auth: &AuthContext, course_teacher_id: u128, author_id: u128) -> (r: bool)
    ensures
        r == (owns_course(*auth, course_teacher_id) || auth.user_id == author_id),
{
    auth.role == UserRole::Admin || auth.user_id == course_teacher_id || auth.user_id == author_id
}

/// A standalone topic may be deleted by an administrator or its author.
pub fn can_delete_standalone_topic(auth: &AuthContext, author_id: u128) -> (r: bool)
    ensures
        r == (auth.role == UserRole::Admin || auth.user_id == author_id),
{
    auth.role == UserRole::Admin || auth.user_id == author_id
}

/// A standalone reply may be deleted by an administrator, its author or the
/// topic's author.
pub fn can_delete_standalone_reply(auth: &AuthContext, reply_author_id: u128, topic_author_id: u128) -> (r:
    bool)
    ensures
        r == (auth.role == UserRole::Admin || auth.user_id == reply_author_id || auth.user_id
            == topic_author_id),
{
    auth.role == UserRole::Admin || auth.user_id == reply_author_id || auth.user_id == topic_author_id
}

/// Refuses a deletion the caller may not make, with `message`.
pub fn permit(allowed: bool, message: &str) -> (r: Result<(), ApiError>)
    ensures
        r is Ok <==> allowed,
        r matches Err(e) ==> e.status == Status::Forbidden && e.message@ == message@,
{
    if allowed {
        Ok(())
    } else {
        Err(api_error(Status::Forbidden, message))
    }
}

/// Standalone-topic content is open to administrators and the topic's members.
pub fn ensure_standalone_topic_member(auth: &AuthContext, is_member: bool) -> (r: Result<(), ApiError>)
    ensures
        r is Ok <==> (auth.role == UserRole::Admin || is_member),
        r matches Err(e) ==> e.status == Status::Forbidden && e.message@ == "仅话题成员或管理员可访问此内容"@,
{
    if auth.role == UserRole::Admin || is_member {
        Ok(())
    } else {
        Err(api_error(Status::Forbidden, "仅话题成员或管理员可访问此内容"))
    }
}

/// A topic's author cannot leave it; leaving a topic one has not joined is refused.
pub fn leave_topic_check(auth: &AuthContext, topic_author_id: u128) -> (r: Result<(), ApiError>)
    ensures
        r is Ok <==> auth.user_id != topic_author_id,
        r matches Err(e) ==> e.status == Status::BadRequest && e.message@
            == "话题创建者不可退出自己开设的话题"@,
{
    if auth.user_id == topic_author_id {
        Err(api_error(Status::BadRequest, "话题创建者不可退出自己开设的话题"))
    } else {
        Ok(())
    }
}

/// Leaving succeeded only when the caller was a member.
pub fn left_topic(left: bool) -> (r: Result<(), ApiError>)
    ensures
        r is Ok <==> left,
        r matches Err(e) ==> e.status == Status::BadRequest && e.message@ == "您尚未加入该话题"@,
{
    if left {
        Ok(())
    } else {
        Err(api_error(Status::BadRequest, "您尚未加入该话题"))
    }
}

/// A topic exists and belongs to the course.
pub fn topic_in_course(topic_course_id: Option<u128>, course_id: u128) -> (r: Result<(), ApiError>)
    ensures
        r is Ok <==> topic_course_id == Some(course_id),
        r matches Err(e) ==> e.status == Status::NotFound && e.message@ == "话题不存在"@,
{
    match topic_course_id {
        Some(c) => {
            if c == course_id {
                Ok(())
            } else {
                Err(api_error(Status::NotFound, "话题不存在"))
            }
        },
        None => Err(api_error(Status::NotFound, "话题不存在")),
    }
}

/// A reply being answered exists and belongs to the same topic.
pub fn reply_target_check(target_topic_id: Option<u128>, topic_id: u128) -> (r: Result<(), ApiError>)
    ensures
        r is Ok <==> target_topic_id == Some(topic_id),
        r matches Err(e) ==> (target_topic_id is None ==> e.status == Status::NotFound && e.message@
            == "被回复的评论不存在"@),
        r matches Err(e) ==> (target_topic_id is Some ==> e.status == Status::BadRequest
            && e.message@ == "被回复的评论不属于该话题"@),
{
    match target_topic_id {
        None => Err(api_error(Status::NotFound, "被回复的评论不存在")),
        Some(t) => {
            if t != topic_id {
                Err(api_error(Status::BadRequest, "被回复的评论不属于该话题"))
            } else {
                Ok(())
            }
        },
    }
}

/// A reply exists and belongs to the topic.
pub fn reply_in_topic(reply_topic_id: Option<u128>, topic_id: u128) -> (r: Result<(), ApiError>)
    ensures
        r is Ok <==> reply_topic_id == Some(topic_id),
        r matches Err(e) ==> e.status == Status::NotFound && e.message@ == "回复不存在"@,
{
    match reply_topic_id {
        Some(t) => {
            if t == topic_id {
                Ok(())
            } else {
                Err(api_error(Status::NotFound, "回复不存在"))
            }
        },
        None => Err(api_error(Status::NotFound, "回复不存在")),
    }
}

/// The mentioned users that are not among the valid ones, in the order given.
pub fn invalid_mentions(user_ids: &Vec<u128>, valid_ids: &Vec<u128>) -> (r: Vec<u128>)
    ensures
        r@ == user_ids@.filter(|u: u128| !valid_ids@.contains(u)),
{
    let mut out: Vec<u128> = Vec::new();
    let mut i: usize = 0;
    assert(user_ids@.subrange(0, 0).filter(|u: u128| !valid_ids@.contains(u)) =~= Seq::<u128>::empty());
    while i < user_ids.len()
        invariant
            i <= user_ids@.len(),
            out@ == user_ids@.subrange(0, i as int).filter(|u: u128| !valid_ids@.contains(u)),
        decreases user_ids@.len() - i,
    {
        let u = user_ids[i];
        let mut j: usize = 0;
        let mut found = false;
        while j < valid_ids.len()
            invariant
                j <= valid_ids@.len(),
                found == (exists|k: int| 0 <= k < j && valid_ids@[k] == u),
            decreases valid_ids@.len() - j,
        {
            if valid_ids[j] == u {
                found = true;
            }
            j = j + 1;
        }
        assert(found == valid_ids@.contains(u));
        let ghost pre = user_ids@.subrange(0, i as int);
        assert(user_ids@.subrange(0, i + 1) =~= pre.push(u));
        reveal_with_fuel(Seq::filter, 1);
        assert(pre.push(u).drop_last() =~= pre);
        if !found {
            out.push(u);
        }
        i = i + 1;
    }
    assert(user_ids@.subrange(0, user_ids@.len() as int) =~= user_ids@);
    out
}

/// Mentions are accepted only when every mentioned user is valid.
pub fn mentions_check(invalid: &Vec<u128>, message: &str) -> (r: Result<(), ApiError>)
    ensures
        r is Ok <==> invalid@.len() == 0,
        r matches Err(e) ==> e.status == Status::BadRequest && e.message@ == message@,
{
    if invalid.len() == 0 {
        Ok(())
    } else {
        Err(api_error(Status::BadRequest, message))
    }
}

/// The name shown for an author: the real name when it is not blank, else the
/// user name.
pub fn author_display(real_name: &Option<String>, username: &String) -> (r: String)
    ensures
        (real_name matches Some(n) && trimmed(n@).len() > 0) ==> r@ == trimmed(real_name.unwrap()@),
        !(real_name matches Some(n) && trimmed(n@).len() > 0) ==> r@ == username@,
{
    match real_name {
        Some(n) => {
            let t = trim(n.as_str());
            if t.as_str().is_empty() {
                username.clone()
            } else {
                t
            }
        },
        None => username.clone(),
    }
}

/// Topic highlights are public only for published courses.
pub fn published_course(status: CourseStatus) -> (r: Result<(), ApiError>)
    ensures
        r is Ok <==> status == CourseStatus::Published,
        r matches Err(e) ==> e.status == Status::NotFound && e.message@ == "课程不存在"@,
{
    if status == CourseStatus::Published {
        Ok(())
    } else {
        Err(api_error(Status::NotFound, "课程不存在"))
    }
}

/// Only published courses take enrollments.
pub fn enrollable(status: CourseStatus) -> (r: Result<(), ApiError>)
    ensures
        r is Ok <==> status == CourseStatus::Published,
        r matches Err(e) ==> e.status == Status::UnprocessableEntity && e.message@
            == "该课程尚未发布，暂不可选课"@,
{
    if status == CourseStatus::Published {
        Ok(())
    } else {
        Err(api_error(Status::UnprocessableEntity, "该课程尚未发布，暂不可选课"))
    }
}

/// Dropping a course one is not enrolled in is not found.
pub fn unenrolled(deleted: bool) -> (r: Result<(), ApiError>)
    ensures
        r is Ok <==> deleted,
        r matches Err(e) ==> e.status == Status::NotFound && e.message@ == "未找到该选课记录"@,
{
    if deleted {
        Ok(())
    } else {
        Err(api_error(Status::NotFound, "未找到该选课记录"))
    }
}

/// Only students vote, and only on courses they are enrolled in.
pub fn vote_check(auth: &AuthContext, enrolled: bool) -> (r: Result<(), ApiError>)
    ensures
        r is Ok <==> (auth.role == UserRole::Student && enrolled),
        r matches Err(e) ==> e.status == Status::Forbidden,
        auth.role != UserRole::Student ==> (r matches Err(e) && e.message@ == "仅学生可以对课程投票"@),
        auth.role == UserRole::Student && !enrolled ==> (r matches Err(e) && e.message@
            == "仅已选课的学生可以投票"@),
{
    if auth.role != UserRole::Student {
        return Err(api_error(Status::Forbidden, "仅学生可以对课程投票"));
    }
    if !enrolled {
        return Err(api_error(Status::Forbidden, "仅已选课的学生可以投票"));
    }
    Ok(())
}

/// The management list shows an administrator every course, a teacher their own.
pub fn manage_filter(auth: &AuthContext) -> (r: Option<u128>)
    ensures
        auth.role == UserRole::Admin ==> r is None,
        auth.role != UserRole::Admin ==> r == Some(auth.user_id),
{
    if auth.role == UserRole::Admin {
        None
    } else {
        Some(auth.user_id)
    }
}

/// For each course, whether the caller's votes include it.
pub fn voted_flags(course_ids: &Vec<u128>, voted: &Vec<u128>) -> (r: Vec<bool>)
    ensures
        r@.len() == course_ids@.len(),
        forall|i: int| 0 <= i < r@.len() ==> #[trigger] r@[i] == voted@.contains(course_ids@[i]),
{
    let mut out: Vec<bool> = Vec::new();
    let mut i: usize = 0;
    while i < course_ids.len()
        invariant
            i <= course_ids@.len(),
            out@.len() == i,
            forall|k: int| 0 <= k < i ==> #[trigger] out@[k] == voted@.contains(course_ids@[k]),
        decreases course_ids@.len() - i,
    {
        let c = course_ids[i];
        let mut j: usize = 0;
        let mut found = false;
        while j < voted.len()
            invariant
                j <= voted@.len(),
                found == (exists|k: int| 0 <= k < j && voted@[k] == c),
            decreases voted@.len() - j,
        {
            if voted[j] == c {
                found = true;
            }
            j = j + 1;
        }
        out.push(found);
        i = i + 1;
    }
    out
}

/// An absent record is not found, with `message`.
pub fn found<T>(value: Option<T>, message: &str) -> (r: Result<T, ApiError>)
    ensures
        r is Ok <==> value is Some,
        r matches Ok(v) ==> value == Some(v),
        r matches Err(e) ==> e.status == Status::NotFound && e.message@ == message@,
{
    match value {
        Some(v) => Ok(v),
        None => Err(api_error(Status::NotFound, message)),
    }
}

/// Deleting a record that was not there is not found, with `message`.
pub fn deleted_rows(rows: u64, message: &str) -> (r: Result<(), ApiError>)
    ensures
        r is Ok <==> rows > 0,
        r matches Err(e) ==> e.status == Status::NotFound && e.message@ == message@,
{
    if rows == 0 {
        Err(api_error(Status::NotFound, message))
    } else {
        Ok(())
    }
}

/// The state of a student's vote after toggling it.
#[derive(Debug)]
pub struct VoteStatusResponse {
    pub voted: bool,
    pub vote_count: i64,
}

/// The answer to a vote toggle: the vote now stands exactly when the toggle
/// inserted a vote row (none existed); the count is the course's new count.
pub fn vote_outcome(inserted_rows: u64, vote_count: i64) -> (r: VoteStatusResponse)
    ensures
        r.voted == (inserted_rows == 1),
        r.vote_count == vote_count,
{
    VoteStatusResponse { voted: inserted_rows == 1, vote_count }
}

} // verus!
