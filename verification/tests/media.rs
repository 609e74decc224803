use microcourse::media::{
    confirm_cover_check, confirm_upload_check, cover_source, cover_upload_key,
    cover_upload_response, duration_to_store, has_image_extension, is_allowed_image_filename,
    is_managed_course_cover_key, managed_cover, sanitize_filename, stale_cover,
    upload_url_allowed, uploaded_object_found, video_raw_key, video_upload_response, CoverSource,
    UPLOAD_URL_TTL_SECS,
};
use microcourse::model::{Status, VideoStatus};

const COURSE: u128 = 0x123e4567_e89b_12d3_a456_426614174000;

#[test]
fn sanitize_keeps_plain_names() {
    assert_eq!(sanitize_filename("lecture-01.mp4"), "lecture-01.mp4");
    assert_eq!(sanitize_filename("第一讲.mp4"), "第一讲.mp4");
}

#[test]
fn sanitize_drops_directories() {
    assert_eq!(sanitize_filename("../../etc/passwd"), "passwd");
    assert_eq!(sanitize_filename("C:\\Users\\me\\clip.mov"), "clip.mov");
}

#[test]
fn sanitize_replaces_reserved_characters() {
    assert_eq!(sanitize_filename("a:b*c?d\"e<f>g|h.png"), "a_b_c_d_e_f_g_h.png");
    assert_eq!(sanitize_filename("tab\there.txt"), "tab_here.txt");
}

#[test]
fn sanitize_never_gives_an_unusable_name() {
    assert_eq!(sanitize_filename(""), "file");
    assert_eq!(sanitize_filename("dir/"), "file");
    assert_eq!(sanitize_filename(".."), "file");
    assert_eq!(sanitize_filename("x/."), "file");
    assert_eq!(sanitize_filename("...") , "...");
}

#[test]
fn sanitize_is_idempotent_on_examples() {
    for name in ["../a:b.mp4", "", "..", "x\\y|z", "ok.png"] {
        let once = sanitize_filename(name);
        assert_eq!(sanitize_filename(&once), once);
    }
}

#[test]
fn managed_cover_keys() {
    assert!(is_managed_course_cover_key("course-covers/abc/x.png"));
    assert!(!is_managed_course_cover_key("https://cdn.example.com/x.png"));
    assert!(!is_managed_course_cover_key("course-covers"));
}

#[test]
fn image_extensions_ignore_case() {
    assert!(is_allowed_image_filename("photo.JPG"));
    assert!(is_allowed_image_filename("a.jpeg"));
    assert!(is_allowed_image_filename("b.Png"));
    assert!(is_allowed_image_filename("c.webp"));
    assert!(is_allowed_image_filename("d.GIF"));
    assert!(!is_allowed_image_filename("e.bmp"));
    assert!(!is_allowed_image_filename("jpg"));
    assert!(has_image_extension("x.png"));
    assert!(!has_image_extension("x.PNG"));
}

#[test]
fn cover_upload_key_format() {
    let key = cover_upload_key(COURSE, "My Photo.PNG").unwrap();
    assert_eq!(key, "course-covers/123e4567-e89b-12d3-a456-426614174000/My Photo.PNG");
    assert!(is_managed_course_cover_key(&key));
}

#[test]
fn cover_upload_key_sanitizes_name() {
    let key = cover_upload_key(COURSE, "../x/y.gif").unwrap();
    assert_eq!(key, "course-covers/123e4567-e89b-12d3-a456-426614174000/y.gif");
}

#[test]
fn cover_upload_key_refuses_blank_name() {
    let e = cover_upload_key(COURSE, "   ").unwrap_err();
    assert_eq!(e.status, Status::BadRequest);
    assert_eq!(e.message, "filename 不能为空");
}

#[test]
fn cover_upload_key_refuses_non_image() {
    let e = cover_upload_key(COURSE, "notes.pdf").unwrap_err();
    assert_eq!(e.status, Status::BadRequest);
    assert_eq!(e.message, "仅支持 jpg、jpeg、png、webp、gif 作为封面");
}

#[test]
fn cover_source_cases() {
    assert!(matches!(cover_source(&None), CoverSource::Absent));
    assert!(matches!(cover_source(&Some("  ".to_string())), CoverSource::Absent));
    match cover_source(&Some(" https://x.org/a.png ".to_string())) {
        CoverSource::Direct(u) => assert_eq!(u, "https://x.org/a.png"),
        _ => panic!("expected a direct URL"),
    }
    match cover_source(&Some("http://x.org/a.png".to_string())) {
        CoverSource::Direct(u) => assert_eq!(u, "http://x.org/a.png"),
        _ => panic!("expected a direct URL"),
    }
    match cover_source(&Some("course-covers/k/a.png\n".to_string())) {
        CoverSource::Presign(k) => assert_eq!(k, "course-covers/k/a.png"),
        _ => panic!("expected a key to presign"),
    }
}

#[test]
fn stale_and_managed_covers() {
    let old = Some("course-covers/a/old.png".to_string());
    assert!(stale_cover(&old, "course-covers/a/new.png"));
    assert!(!stale_cover(&old, "course-covers/a/old.png"));
    assert!(!stale_cover(&Some("https://x/y.png".to_string()), "course-covers/a/new.png"));
    assert!(!stale_cover(&None, "course-covers/a/new.png"));
    assert!(managed_cover(&old));
    assert!(!managed_cover(&Some("http://x/y.png".to_string())));
    assert!(!managed_cover(&None));
}

#[test]
fn confirm_cover_errors() {
    let e = confirm_cover_check(&None, "k").unwrap_err();
    assert_eq!((e.status, e.message.as_str()), (Status::BadRequest, "请先申请封面上传 URL"));
    let e = confirm_cover_check(&Some("a".to_string()), "b").unwrap_err();
    assert_eq!((e.status, e.message.as_str()), (Status::BadRequest, "object_key 与记录不一致"));
    assert!(confirm_cover_check(&Some("a".to_string()), "a").is_ok());
}

#[test]
fn uploaded_object_must_exist() {
    assert!(uploaded_object_found(true, "m").is_ok());
    let e = uploaded_object_found(false, "对象存储中尚未找到该文件，请确认上传已完成").unwrap_err();
    assert_eq!(e.status, Status::UnprocessableEntity);
    assert_eq!(e.status.code(), 422);
}

#[test]
fn raw_key_format() {
    let id = 0x0000_0000_0000_0000_0000_0000_0000_0001u128;
    assert_eq!(
        video_raw_key(id, "a/b:c.mp4"),
        "raw/00000000-0000-0000-0000-000000000001/b_c.mp4"
    );
}

#[test]
fn upload_url_only_while_pending() {
    assert!(upload_url_allowed(VideoStatus::Pending).is_ok());
    for s in [VideoStatus::Processing, VideoStatus::Ready, VideoStatus::Failed] {
        let e = upload_url_allowed(s).unwrap_err();
        assert_eq!(e.status, Status::BadRequest);
        assert_eq!(e.message, "该视频已上传或正在转码，无法重复申请上传 URL");
    }
}

#[test]
fn confirm_upload_errors() {
    let key = Some("raw/x/a.mp4".to_string());
    let e = confirm_upload_check(VideoStatus::Ready, &key, "raw/x/a.mp4").unwrap_err();
    assert_eq!(e.message, "该视频状态不允许确认上传");
    let e = confirm_upload_check(VideoStatus::Pending, &None, "raw/x/a.mp4").unwrap_err();
    assert_eq!(e.message, "请先申请上传 URL");
    let e = confirm_upload_check(VideoStatus::Pending, &key, "raw/x/b.mp4").unwrap_err();
    assert_eq!(e.message, "object_key 与记录不一致");
    assert!(confirm_upload_check(VideoStatus::Pending, &key, "raw/x/a.mp4").is_ok());
}

#[test]
fn duration_prefers_probe() {
    assert_eq!(duration_to_store(Some(42), Some(7)), Some(42));
    assert_eq!(duration_to_store(None, Some(7)), Some(7));
    assert_eq!(duration_to_store(None, Some(0)), None);
    assert_eq!(duration_to_store(None, Some(-3)), None);
    assert_eq!(duration_to_store(None, None), None);
}

#[test]
fn upload_responses_last_an_hour() {
    let r = cover_upload_response("u".to_string(), "k".to_string());
    assert_eq!((r.upload_url.as_str(), r.object_key.as_str(), r.expires_in), ("u", "k", 3600));
    let r = video_upload_response("u2".to_string(), "k2".to_string());
    assert_eq!(r.expires_in, UPLOAD_URL_TTL_SECS);
}
