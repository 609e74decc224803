use microcourse::access::{
    author_display, can_delete_course_post, can_delete_standalone_reply,
    can_delete_standalone_topic, check_user_update, course_visible_to, deleted_rows,
    enrollable, ensure_community_access, ensure_self_or_admin, ensure_standalone_topic_member,
    ensure_teacher_or_admin, found, invalid_mentions, leave_topic_check, left_topic,
    manage_filter, mentions_check, permit, published_course, reply_in_topic,
    reply_target_check, topic_in_course, unenrolled, vote_check, vote_outcome, voted_flags,
    UserUpdateFields,
};
use microcourse::model::{AuthContext, CourseStatus, Status, UserRole};

fn who(id: u128, role: UserRole) -> AuthContext {
    AuthContext { user_id: id, role }
}

#[test]
fn course_visibility() {
    assert!(course_visible_to(CourseStatus::Published, 1, None));
    assert!(!course_visible_to(CourseStatus::Draft, 1, None));
    assert!(course_visible_to(CourseStatus::Draft, 1, Some(who(1, UserRole::Teacher))));
    assert!(!course_visible_to(CourseStatus::Archived, 1, Some(who(2, UserRole::Teacher))));
    assert!(course_visible_to(CourseStatus::Archived, 1, Some(who(2, UserRole::Admin))));
    assert!(!course_visible_to(CourseStatus::Draft, 1, Some(who(2, UserRole::Student))));
}

#[test]
fn editors_can_see() {
    for status in [CourseStatus::Draft, CourseStatus::Published, CourseStatus::Archived] {
        for auth in [who(1, UserRole::Teacher), who(5, UserRole::Admin)] {
            if ensure_teacher_or_admin(&auth, 1, "m").is_ok() {
                assert!(course_visible_to(status, 1, Some(auth)));
            }
        }
    }
}

#[test]
fn teacher_or_admin() {
    assert!(ensure_teacher_or_admin(&who(1, UserRole::Teacher), 1, "m").is_ok());
    let e = ensure_teacher_or_admin(&who(2, UserRole::Teacher), 1, "仅课程教师或管理员可操作该课程").unwrap_err();
    assert_eq!((e.status, e.message.as_str()), (Status::Forbidden, "仅课程教师或管理员可操作该课程"));
    assert_eq!(e.status.code(), 403);
}

#[test]
fn user_records() {
    assert!(ensure_self_or_admin(&who(1, UserRole::Student), 1).is_ok());
    assert!(ensure_self_or_admin(&who(1, UserRole::Admin), 2).is_ok());
    assert_eq!(ensure_self_or_admin(&who(1, UserRole::Teacher), 2).unwrap_err().status, Status::Forbidden);
    let none = UserUpdateFields { sets_is_active: false, sets_role: false };
    let role = UserUpdateFields { sets_is_active: false, sets_role: true };
    let active = UserUpdateFields { sets_is_active: true, sets_role: false };
    assert!(check_user_update(&who(1, UserRole::Student), 1, &none).is_ok());
    assert_eq!(check_user_update(&who(1, UserRole::Student), 1, &role).unwrap_err().message, "仅管理员可修改用户角色");
    assert_eq!(check_user_update(&who(1, UserRole::Teacher), 1, &active).unwrap_err().message, "仅管理员可修改账号启用状态");
    assert!(check_user_update(&who(9, UserRole::Admin), 1, &role).is_ok());
}

#[test]
fn community_access() {
    assert!(ensure_community_access(&who(1, UserRole::Teacher), 1, false).is_ok());
    assert!(ensure_community_access(&who(2, UserRole::Student), 1, true).is_ok());
    assert_eq!(ensure_community_access(&who(2, UserRole::Student), 1, false).unwrap_err().status, Status::Forbidden);
    assert!(ensure_community_access(&who(2, UserRole::Teacher), 1, true).is_err());
    assert!(ensure_community_access(&who(3, UserRole::Admin), 1, false).is_ok());
}

#[test]
fn deletion_rights() {
    assert!(can_delete_course_post(&who(5, UserRole::Student), 1, 5));
    assert!(can_delete_course_post(&who(1, UserRole::Teacher), 1, 5));
    assert!(!can_delete_course_post(&who(6, UserRole::Student), 1, 5));
    assert!(can_delete_standalone_topic(&who(5, UserRole::Student), 5));
    assert!(!can_delete_standalone_topic(&who(6, UserRole::Teacher), 5));
    assert!(can_delete_standalone_reply(&who(7, UserRole::Student), 5, 7));
    assert!(!can_delete_standalone_reply(&who(8, UserRole::Student), 5, 7));
    assert!(permit(true, "m").is_ok());
    assert_eq!(permit(false, "不可").unwrap_err().message, "不可");
}

#[test]
fn standalone_topics() {
    assert!(ensure_standalone_topic_member(&who(1, UserRole::Student), true).is_ok());
    assert!(ensure_standalone_topic_member(&who(1, UserRole::Admin), false).is_ok());
    assert_eq!(ensure_standalone_topic_member(&who(1, UserRole::Student), false).unwrap_err().status, Status::Forbidden);
    assert_eq!(leave_topic_check(&who(1, UserRole::Student), 1).unwrap_err().message, "话题创建者不可退出自己开设的话题");
    assert!(leave_topic_check(&who(1, UserRole::Student), 2).is_ok());
    assert!(left_topic(true).is_ok());
    assert_eq!(left_topic(false).unwrap_err().message, "您尚未加入该话题");
}

#[test]
fn topics_and_replies_belong_together() {
    assert!(topic_in_course(Some(1), 1).is_ok());
    assert_eq!(topic_in_course(Some(2), 1).unwrap_err().status, Status::NotFound);
    assert_eq!(topic_in_course(None, 1).unwrap_err().message, "话题不存在");
    assert!(reply_target_check(Some(3), 3).is_ok());
    assert_eq!(reply_target_check(Some(4), 3).unwrap_err().message, "被回复的评论不属于该话题");
    assert_eq!(reply_target_check(None, 3).unwrap_err().status, Status::NotFound);
    assert!(reply_in_topic(Some(3), 3).is_ok());
    assert_eq!(reply_in_topic(Some(4), 3).unwrap_err().message, "回复不存在");
}

#[test]
fn mentions_must_be_members() {
    let bad = invalid_mentions(&vec![1, 2, 3, 2], &vec![1, 3]);
    assert_eq!(bad, vec![2, 2]);
    assert_eq!(mentions_check(&bad, "@提及的用户中存在非本课程成员").unwrap_err().message, "@提及的用户中存在非本课程成员");
    assert!(mentions_check(&vec![], "m").is_ok());
}

#[test]
fn author_names() {
    assert_eq!(author_display(&Some(" 张三 ".to_string()), &"zs".to_string()), "张三");
    assert_eq!(author_display(&Some("  ".to_string()), &"zs".to_string()), "zs");
    assert_eq!(author_display(&None, &"zs".to_string()), "zs");
}

#[test]
fn enrolment_rules() {
    assert!(published_course(CourseStatus::Published).is_ok());
    assert_eq!(published_course(CourseStatus::Draft).unwrap_err().message, "课程不存在");
    assert!(enrollable(CourseStatus::Published).is_ok());
    let e = enrollable(CourseStatus::Archived).unwrap_err();
    assert_eq!((e.status, e.message.as_str()), (Status::UnprocessableEntity, "该课程尚未发布，暂不可选课"));
    assert!(unenrolled(true).is_ok());
    assert_eq!(unenrolled(false).unwrap_err().message, "未找到该选课记录");
}

#[test]
fn voting() {
    assert!(vote_check(&who(1, UserRole::Student), true).is_ok());
    assert_eq!(vote_check(&who(1, UserRole::Teacher), true).unwrap_err().message, "仅学生可以对课程投票");
    assert_eq!(vote_check(&who(1, UserRole::Student), false).unwrap_err().message, "仅已选课的学生可以投票");
    let r = vote_outcome(1, 11);
    assert!(r.voted && r.vote_count == 11);
    let r = vote_outcome(0, 10);
    assert!(!r.voted && r.vote_count == 10);
    assert_eq!(voted_flags(&vec![1, 2, 3], &vec![3, 1]), vec![true, false, true]);
}

#[test]
fn management_list_filter() {
    assert_eq!(manage_filter(&who(1, UserRole::Admin)), None);
    assert_eq!(manage_filter(&who(4, UserRole::Teacher)), Some(4));
}

#[test]
fn not_found_helpers() {
    assert_eq!(found(Some(3), "m").unwrap(), 3);
    let e = found::<u8>(None, "课程不存在").unwrap_err();
    assert_eq!((e.status, e.message.as_str()), (Status::NotFound, "课程不存在"));
    assert!(deleted_rows(1, "m").is_ok());
    assert_eq!(deleted_rows(0, "用户不存在").unwrap_err().message, "用户不存在");
}
