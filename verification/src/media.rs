//! Object-store keys and the checks around uploading videos and course covers.
use vstd::prelude::*;
use crate::model::{ApiError, Status, VideoStatus, api_error, uuid_text, uuid_text_of};
use crate::text::{
    chars_of, ends_with, has_prefix, has_suffix, lowercase_of, starts_with, string_of,
    to_lowercase, trim, trimmed,
};

verus! {

/// A path separator in a client-supplied file name.
pub open spec fn is_separator(c: char) -> bool {
    c == '/' || c == '\\'
}

/// Characters that a stored file name does not keep: control characters and
/// `: * ? " < > |`.
pub open spec fn is_reserved(c: char) -> bool {
    (c as int) < 32 || (c as int) == 127 || c == ':' || c == '*' || c == '?' || c == '"' || c
        == '<' || c == '>' || c == '|'
}

/// A reserved character becomes `_`; any other stays.
pub open spec fn safe_char(c: char) -> char {
    if is_reserved(c) {
        '_'
    } else {
        c
    }
}

/// What follows the last separator of a path (all of it when there is none).
pub open spec fn last_component(s: Seq<char>) -> Seq<char>
    decreases s.len(),
{
    if s.len() == 0 {
        s
    } else if is_separator(s.last()) {
        Seq::empty()
    } else {
        last_component(s.drop_last()).push(s.last())
    }
}

/// The file name stored for a client-supplied name: its last path component
/// with reserved characters replaced by `_`; `file` when that leaves nothing
/// usable (empty, `.` or `..`).
pub open spec fn sanitized(name: Seq<char>) -> Seq<char> {
    let b = last_component(name).map_values(|c: char| safe_char(c));
    if b.len() == 0 || b == seq!['.'] || b == seq!['.', '.'] {
        "file"@
    } else {
        b
    }
}

/// A stored file name is safe: never empty, never `.` or `..`, and free of
/// separators and reserved characters.
pub open spec fn safe_name(n: Seq<char>) -> bool {
    &&& n.len() > 0
    &&& n != seq!['.']
    &&& n != seq!['.', '.']
    &&& forall|i: int| 0 <= i < n.len() ==> !is_separator(#[trigger] n[i]) && !is_reserved(n[i])
}

proof fn lemma_last_component_no_separator(s: Seq<char>)
    ensures
        forall|i: int|
            0 <= i < last_component(s).len() ==> !is_separator(#[trigger] last_component(s)[i]),
    decreases s.len(),
{
    if s.len() > 0 && !is_separator(s.last()) {
        lemma_last_component_no_separator(s.drop_last());
        let p = last_component(s.drop_last());
        assert forall|i: int| 0 <= i < p.push(s.last()).len() implies !is_separator(
            #[trigger] p.push(s.last())[i],
        ) by {
            if i < p.len() {
                assert(p.push(s.last())[i] == p[i]);
            }
        }
    }
}

proof fn lemma_last_component_of_plain(s: Seq<char>)
    requires
        forall|i: int| 0 <= i < s.len() ==> !is_separator(#[trigger] s[i]),
    ensures
        last_component(s) == s,
    decreases s.len(),
{
    if s.len() > 0 {
        assert(!is_separator(s[s.len() - 1]));
        assert forall|i: int| 0 <= i < s.drop_last().len() implies !is_separator(
            #[trigger] s.drop_last()[i],
        ) by {
            assert(s.drop_last()[i] == s[i]);
        }
        lemma_last_component_of_plain(s.drop_last());
        assert(s.drop_last().push(s.last()) =~= s);
    }
}

/// Every stored file name is safe, whatever the client sent.
pub proof fn lemma_sanitized_safe(name: Seq<char>)
    ensures
        safe_name(sanitized(name)),
{
    let b = last_component(name).map_values(|c: char| safe_char(c));
    lemma_last_component_no_separator(name);
    if b.len() == 0 || b == seq!['.'] || b == seq!['.', '.'] {
        reveal_strlit("file");
        assert("file"@ != seq!['.']) by {
            assert("file"@[0] == 'f');
        }
        assert("file"@ != seq!['.', '.']) by {
            assert("file"@[0] == 'f');
        }
    } else {
        assert forall|i: int| 0 <= i < b.len() implies !is_separator(#[trigger] b[i]) && !is_reserved(
            b[i],
        ) by {
            assert(b[i] == safe_char(last_component(name)[i]));
        }
    }
}

/// Sanitizing a stored name again changes nothing.
pub proof fn lemma_sanitize_idempotent(name: Seq<char>)
    ensures
        sanitized(sanitized(name)) == sanitized(name),
{
    let r = sanitized(name);
    lemma_sanitized_safe(name);
    lemma_last_component_of_plain(r);
    assert(r.map_values(|c: char| safe_char(c)) =~= r);
}

/// Every key issued for a cover is under the managed prefix, so the service
/// may delete it when the cover is replaced or removed.
pub proof fn lemma_issued_cover_key_managed(course_id: u128, safe_name: Seq<char>)
    ensures
        is_managed_cover(cover_key_of(course_id, safe_name)),
{
    let k = cover_key_of(course_id, safe_name);
    let p = "course-covers/"@;
    assert(k.subrange(0, p.len() as int) =~= p);
}

/// Whether `c` is reserved in a stored file name.
fn reserved_char(c: char) -> (r: bool)
    ensures
        r == is_reserved(c),
{
    let n = c as u32;
    n < 32 || n == 127 || c == ':' || c == '*' || c == '?' || c == '"' || c == '<' || c == '>'
        || c == '|'
}

/// The file name under which a client's upload is stored: no directories, no
/// reserved characters, never empty, `.` or `..`.
pub fn sanitize_filename(name: &str) -> (r: String)
    ensures
        r@ == sanitized(name@),
{
    let v = chars_of(name);
    let n = v.len();
    let mut out: Vec<char> = Vec::new();
    let mut i: usize = 0;
    while i < n
        invariant
            n == v@.len(),
            v@ == name@,
            i <= n,
            out@ == last_component(v@.take(i as int)).map_values(|c: char| safe_char(c)),
        decreases n - i,
    {
        let c = v[i];
        assert(v@.take(i + 1).drop_last() =~= v@.take(i as int));
        assert(v@.take(i + 1).last() == c);
        if c == '/' || c == '\\' {
            out = Vec::new();
            assert(out@ =~= last_component(v@.take(i + 1)).map_values(|c: char| safe_char(c)));
        } else {
            let d = if reserved_char(c) {
                '_'
            } else {
                c
            };
            let ghost before = out@;
            out.push(d);
            assert(out@ =~= last_component(v@.take(i + 1)).map_values(|c: char| safe_char(c)));
        }
        i = i + 1;
    }
    assert(v@.take(n as int) =~= v@);
    if out.len() == 0 || (out.len() == 1 && out[0] == '.') || (out.len() == 2 && out[0] == '.'
        && out[1] == '.') {
        proof {
            if out@.len() == 1 {
                assert(out@ =~= seq!['.']);
            }
            if out@.len() == 2 {
                assert(out@ =~= seq!['.', '.']);
            }
        }
        String::from_str("file")
    } else {
        proof {
            if out@ == seq!['.'] {
                assert(out@[0] == '.');
            }
            if out@ == seq!['.', '.'] {
                assert(out@[0] == '.' && out@[1] == '.');
            }
        }
        string_of(&out)
    }
}

/// A key under the prefix of course covers that the service uploads and owns.
pub open spec fn is_managed_cover(key: Seq<char>) -> bool {
    has_prefix(key, "course-covers/"@)
}

/// Whether a stored cover is one the service uploaded itself, and so may
/// delete from the object store.
pub fn is_managed_course_cover_key(key: &str) -> (r: bool)
    ensures
        r == is_managed_cover(key@),
{
    starts_with(key, "course-covers/")
}

/// A lower-case file name with an image extension accepted for covers.
pub open spec fn image_extension(lower: Seq<char>) -> bool {
    has_suffix(lower, ".jpg"@) || has_suffix(lower, ".jpeg"@) || has_suffix(lower, ".png"@)
        || has_suffix(lower, ".webp"@) || has_suffix(lower, ".gif"@)
}

/// Whether an already lower-cased file name ends in `.jpg`, `.jpeg`, `.png`,
/// `.webp` or `.gif`.
pub fn has_image_extension(lower: &str) -> (r: bool)
    ensures
        r == image_extension(lower@),
{
    ends_with(lower, ".jpg") || ends_with(lower, ".jpeg") || ends_with(lower, ".png")
        || ends_with(lower, ".webp") || ends_with(lower, ".gif")
}

/// Whether a file name, compared without regard to case, has an image
/// extension accepted for covers.
pub fn is_allowed_image_filename(name: &str) -> (r: bool)
    ensures
        r == image_extension(lowercase_of(name@)),
{
    let lower = to_lowercase(name);
    has_image_extension(lower.as_str())
}

/// The object key of a course's cover image.
pub open spec fn cover_key_of(course_id: u128, safe_name: Seq<char>) -> Seq<char> {
    "course-covers/"@ + uuid_text_of(course_id) + "/"@ + safe_name
}

/// The message for an upload request without a file name.
pub open spec fn empty_filename_message() -> Seq<char> {
    "filename 不能为空"@
}

/// The message for a cover whose file name is not an accepted image.
pub open spec fn not_an_image_message() -> Seq<char> {
    "仅支持 jpg、jpeg、png、webp、gif 作为封面"@
}

/// The key a cover upload is stored under, or why the file name is refused:
/// a name that is blank after trimming, then a sanitized name without an image
/// extension, are refused with 400.
pub fn cover_upload_key(course_id: u128, filename: &str) -> (r: Result<String, ApiError>)
    ensures
        trimmed(filename@).len() == 0 ==> (r matches Err(e) && e.status == Status::BadRequest
            && e.message@ == empty_filename_message()),
        trimmed(filename@).len() > 0 && !image_extension(lowercase_of(sanitized(filename@))) ==> (
        r matches Err(e) && e.status == Status::BadRequest && e.message@
            == not_an_image_message()),
        trimmed(filename@).len() > 0 && image_extension(lowercase_of(sanitized(filename@))) ==> (
        r matches Ok(k) && k@ == cover_key_of(course_id, sanitized(filename@))),
{
    let t = trim(filename);
    if t.as_str().is_empty() {
        return Err(api_error(Status::BadRequest, "filename 不能为空"));
    }
    let safe = sanitize_filename(filename);
    if !is_allowed_image_filename(safe.as_str()) {
        return Err(api_error(Status::BadRequest, "仅支持 jpg、jpeg、png、webp、gif 作为封面"));
    }
    let mut key = String::from_str("course-covers/");
    let id = uuid_text(course_id);
    key.append(id.as_str());
    key.append("/");
    key.append(safe.as_str());
    Ok(key)
}

/// Where a course's cover is shown from.
#[derive(Debug)]
pub enum CoverSource {
    /// No cover.
    Absent,
    /// An absolute `http(s)` URL, shown as it is.
    Direct(String),
    /// An object key, shown through a presigned download URL.
    Presign(String),
}

/// The stored cover, trimmed: nothing when absent or blank, the URL itself when
/// it starts with `http://` or `https://`, otherwise an object key to presign.
pub fn cover_source(stored: &Option<String>) -> (r: CoverSource)
    ensures
        match stored {
            None => r is Absent,
            Some(s) => {
                let t = trimmed(s@);
                if t.len() == 0 {
                    r is Absent
                } else if has_prefix(t, "http://"@) || has_prefix(t, "https://"@) {
                    r matches CoverSource::Direct(u) && u@ == t
                } else {
                    r matches CoverSource::Presign(k) && k@ == t
                }
            },
        },
{
    match stored {
        None => CoverSource::Absent,
        Some(s) => {
            let t = trim(s.as_str());
            if t.as_str().is_empty() {
                CoverSource::Absent
            } else if starts_with(t.as_str(), "http://") || starts_with(t.as_str(), "https://") {
                CoverSource::Direct(t)
            } else {
                CoverSource::Presign(t)
            }
        },
    }
}

/// Whether the stored cover `old` is a managed object that a new cover key
/// replaces, so that the old object is to be deleted.
pub fn stale_cover(old: &Option<String>, new_key: &str) -> (r: bool)
    ensures
        r == (old matches Some(o) && o@ != new_key@ && is_managed_cover(o@)),
{
    match old {
        None => false,
        Some(o) => {
            let differs = !crate::text::same_text(o.as_str(), new_key);
            differs && is_managed_course_cover_key(o.as_str())
        },
    }
}

/// Whether a stored cover is a managed object, deleted with the course or when
/// the cover is removed.
pub fn managed_cover(stored: &Option<String>) -> (r: bool)
    ensures
        r == (stored matches Some(s) && is_managed_cover(s@)),
{
    match stored {
        None => false,
        Some(s) => is_managed_course_cover_key(s.as_str()),
    }
}

/// The message when a confirmed key differs from the recorded one.
pub open spec fn key_mismatch_message() -> Seq<char> {
    "object_key 与记录不一致"@
}

/// A confirmation names the key recorded when the upload URL was issued:
/// with none recorded it is refused with `missing_message`, with another key
/// recorded it is refused too (both 400).
fn recorded_key(stored: &Option<String>, object_key: &str, missing_message: &str) -> (r: Result<
    (),
    ApiError,
>)
    ensures
        stored is None ==> (r matches Err(e) && e.status == Status::BadRequest && e.message@
            == missing_message@),
        stored matches Some(k) && k@ == object_key@ ==> r is Ok,
        stored matches Some(k) && k@ != object_key@ ==> (r matches Err(e) && e.status
            == Status::BadRequest && e.message@ == key_mismatch_message()),
{
    match stored {
        None => Err(api_error(Status::BadRequest, missing_message)),
        Some(k) => {
            if crate::text::same_text(k.as_str(), object_key) {
                Ok(())
            } else {
                Err(api_error(Status::BadRequest, "object_key 与记录不一致"))
            }
        },
    }
}

/// Confirming a cover upload: the key must be the one recorded for the course.
pub fn confirm_cover_check(stored: &Option<String>, object_key: &str) -> (r: Result<(), ApiError>)
    ensures
        stored is None ==> (r matches Err(e) && e.status == Status::BadRequest && e.message@
            == "请先申请封面上传 URL"@),
        stored matches Some(k) && k@ == object_key@ ==> r is Ok,
        stored matches Some(k) && k@ != object_key@ ==> (r matches Err(e) && e.status
            == Status::BadRequest && e.message@ == key_mismatch_message()),
{
    recorded_key(stored, object_key, "请先申请封面上传 URL")
}

/// The uploaded object must exist in the store; otherwise 422 with `message`.
pub fn uploaded_object_found(exists: bool, message: &str) -> (r: Result<(), ApiError>)
    ensures
        r is Ok <==> exists,
        r matches Err(e) ==> e.status == Status::UnprocessableEntity && e.message@ == message@,
{
    if exists {
        Ok(())
    } else {
        Err(api_error(Status::UnprocessableEntity, message))
    }
}

/// The object key of a video's original upload.
pub open spec fn raw_key_of(video_id: u128, filename: Seq<char>) -> Seq<char> {
    "raw/"@ + uuid_text_of(video_id) + "/"@ + sanitized(filename)
}

/// Where a video's original upload is stored: `raw/{video id}/{sanitized name}`.
pub fn video_raw_key(video_id: u128, filename: &str) -> (r: String)
    ensures
        r@ == raw_key_of(video_id, filename@),
{
    let mut key = String::from_str("raw/");
    let id = uuid_text(video_id);
    key.append(id.as_str());
    key.append("/");
    let safe = sanitize_filename(filename);
    key.append(safe.as_str());
    key
}

/// An upload URL is issued only while the video is still pending.
pub fn upload_url_allowed(status: VideoStatus) -> (r: Result<(), ApiError>)
    ensures
        r is Ok <==> status == VideoStatus::Pending,
        r matches Err(e) ==> e.status == Status::BadRequest && e.message@
            == "该视频已上传或正在转码，无法重复申请上传 URL"@,
{
    if status == VideoStatus::Pending {
        Ok(())
    } else {
        Err(api_error(Status::BadRequest, "该视频已上传或正在转码，无法重复申请上传 URL"))
    }
}

/// Confirming a video upload: the video must still be pending, then the key
/// must be the one recorded when the upload URL was issued.
pub fn confirm_upload_check(status: VideoStatus, stored: &Option<String>, object_key: &str) -> (r:
    Result<(), ApiError>)
    ensures
        status != VideoStatus::Pending ==> (r matches Err(e) && e.status == Status::BadRequest
            && e.message@ == "该视频状态不允许确认上传"@),
        status == VideoStatus::Pending && stored is None ==> (r matches Err(e) && e.status
            == Status::BadRequest && e.message@ == "请先申请上传 URL"@),
        status == VideoStatus::Pending && (stored matches Some(k) && k@ == object_key@) ==> r is Ok,
        status == VideoStatus::Pending && (stored matches Some(k) && k@ != object_key@) ==> (
        r matches Err(e) && e.status == Status::BadRequest && e.message@
            == key_mismatch_message()),
{
    if status != VideoStatus::Pending {
        return Err(api_error(Status::BadRequest, "该视频状态不允许确认上传"));
    }
    recorded_key(stored, object_key, "请先申请上传 URL")
}

/// The duration recorded on confirmation: the probed one when probing
/// succeeded, else the client's when it is positive, else none.
pub fn duration_to_store(probed: Option<i32>, reported: Option<i32>) -> (r: Option<i32>)
    ensures
        probed is Some ==> r == probed,
        probed is None ==> r == (if reported matches Some(d) && d > 0 {
            reported
        } else {
            None
        }),
{
    match probed {
        Some(s) => Some(s),
        None => match reported {
            Some(d) => if d > 0 {
                Some(d)
            } else {
                None
            },
            None => None,
        },
    }
}

/// Seconds an upload URL stays valid.
pub const UPLOAD_URL_TTL_SECS: u64 = 3600;

/// Seconds a download URL handed to the duration probe stays valid.
pub const PROBE_URL_TTL_SECS: u64 = 600;

/// Seconds a presigned cover URL stays valid (seven days).
pub const COVER_URL_TTL_SECS: u64 = 604800;

/// A request for a course cover upload URL.
#[derive(Debug)]
pub struct CourseCoverUploadUrlRequest {
    pub filename: String,
}

/// Where and until when the client may upload a course cover.
#[derive(Debug)]
pub struct CourseCoverUploadUrlResponse {
    pub upload_url: String,
    pub object_key: String,
    pub expires_in: u64,
}

/// Confirmation that a cover was uploaded under the issued key.
#[derive(Debug)]
pub struct CourseCoverConfirmRequest {
    pub object_key: String,
}

/// A request for a video upload URL, naming the client's file.
#[derive(Debug)]
pub struct RequestUploadUrlRequest {
    pub filename: String,
}

/// Where and until when the client may upload a video.
#[derive(Debug)]
pub struct RequestUploadUrlResponse {
    pub upload_url: String,
    pub object_key: String,
    pub expires_in: u64,
}

/// Confirmation that a video was uploaded, with the duration the client saw.
#[derive(Debug)]
pub struct ConfirmUploadRequest {
    pub object_key: String,
    pub duration: Option<i32>,
}

/// The answer to a cover upload request: the URL and key, valid for an hour.
pub fn cover_upload_response(upload_url: String, object_key: String) -> (r: CourseCoverUploadUrlResponse)
    ensures
        r.upload_url == upload_url,
        r.object_key == object_key,
        r.expires_in == UPLOAD_URL_TTL_SECS,
{
    CourseCoverUploadUrlResponse { upload_url, object_key, expires_in: UPLOAD_URL_TTL_SECS }
}

/// The answer to a video upload request: the URL and key, valid for an hour.
pub fn video_upload_response(upload_url: String, object_key: String) -> (r: RequestUploadUrlResponse)
    ensures
        r.upload_url == upload_url,
        r.object_key == object_key,
        r.expires_in == UPLOAD_URL_TTL_SECS,
{
    RequestUploadUrlResponse { upload_url, object_key, expires_in: UPLOAD_URL_TTL_SECS }
}

} // verus!
