//! HLS playback: object keys, signed playback links and the playlist rewrite
//! that sends every segment request back through the service.
use vstd::prelude::*;
use crate::model::{ApiError, Status, VideoStatus, api_error, uuid_text, uuid_text_of};
use crate::text::{
    chars_of, contains_char, contains_text, ends_with, has_infix, has_suffix, push_char,
    same_text, string_from, string_of, trim, trimmed, split_pieces, lemma_split_pieces_nonempty,
    join_pieces, lemma_join_pieces_push,
};

verus! {

/// The object key of a file of one resolution's HLS output.
pub open spec fn hls_key_of(video_id: u128, resolution: Seq<char>, name: Seq<char>) -> Seq<char> {
    "hls/"@ + uuid_text_of(video_id) + "/"@ + resolution + "/"@ + name
}

/// `hls/{video id}/{resolution}/{name}`.
pub fn hls_object_key(video_id: u128, resolution: &str, name: &str) -> (r: String)
    ensures
        r@ == hls_key_of(video_id, resolution@, name@),
{
    let mut key = String::from_str("hls/");
    let id = uuid_text(video_id);
    key.append(id.as_str());
    key.append("/");
    key.append(resolution);
    key.append("/");
    key.append(name);
    key
}

/// The key of one resolution's playlist: `hls/{video id}/{resolution}/playlist.m3u8`.
pub fn playlist_object_key(video_id: u128, resolution: &str) -> (r: String)
    ensures
        r@ == hls_key_of(video_id, resolution@, "playlist.m3u8"@),
{
    hls_object_key(video_id, resolution, "playlist.m3u8")
}

/// The key of a video's extracted thumbnail: `covers/{video id}/thumbnail.jpg`.
pub fn thumbnail_key(video_id: u128) -> (r: String)
    ensures
        r@ == "covers/"@ + uuid_text_of(video_id) + "/thumbnail.jpg"@,
{
    let mut key = String::from_str("covers/");
    let id = uuid_text(video_id);
    key.append(id.as_str());
    key.append("/thumbnail.jpg");
    key
}

/// The three key prefixes under which a video's objects live: its original
/// upload, its HLS output and its thumbnail.
pub fn video_asset_prefixes(video_id: u128) -> (r: Vec<String>)
    ensures
        r@.len() == 3,
        r@[0]@ == "raw/"@ + uuid_text_of(video_id) + "/"@,
        r@[1]@ == "hls/"@ + uuid_text_of(video_id) + "/"@,
        r@[2]@ == "covers/"@ + uuid_text_of(video_id) + "/"@,
{
    let id = uuid_text(video_id);
    let mut raw = String::from_str("raw/");
    raw.append(id.as_str());
    raw.append("/");
    let mut hls = String::from_str("hls/");
    hls.append(id.as_str());
    hls.append("/");
    let mut covers = String::from_str("covers/");
    covers.append(id.as_str());
    covers.append("/");
    let mut v: Vec<String> = Vec::new();
    v.push(raw);
    v.push(hls);
    v.push(covers);
    v
}

/// A request for a playback link.
#[derive(Debug)]
pub struct CreateHlsUrlRequest {
    pub resolution: Option<String>,
    pub ttl_seconds: Option<u64>,
}

/// A playback link and the Unix time it expires at.
#[derive(Debug)]
pub struct CreateHlsUrlResponse {
    pub playlist_url: String,
    pub expires_at: usize,
}

/// The resolution and lifetime of a playback link: 720p and 600 seconds
/// unless the request names others.
pub fn hls_request(req: CreateHlsUrlRequest) -> (r: (String, u64))
    ensures
        r.0@ == (match req.resolution {
            Some(s) => s@,
            None => "720p"@,
        }),
        r.1 == (match req.ttl_seconds {
            Some(t) => t,
            None => 600,
        }),
{
    let CreateHlsUrlRequest { resolution, ttl_seconds } = req;
    let res = match resolution {
        Some(s) => s,
        None => String::from_str("720p"),
    };
    let ttl = match ttl_seconds {
        Some(t) => t,
        None => 600,
    };
    (res, ttl)
}

/// Only a video whose transcoding finished can be played; otherwise 422 with
/// `message`.
pub fn playback_ready(status: VideoStatus, message: &str) -> (r: Result<(), ApiError>)
    ensures
        r is Ok <==> status == VideoStatus::Ready,
        r matches Err(e) ==> e.status == Status::UnprocessableEntity && e.message@ == message@,
{
    if status == VideoStatus::Ready {
        Ok(())
    } else {
        Err(api_error(Status::UnprocessableEntity, message))
    }
}

/// The playlist URL handed to players.
pub open spec fn playlist_url_of(video_id: u128, resolution: Seq<char>, token: Seq<char>) -> Seq<
    char,
> {
    "/api/videos/"@ + uuid_text_of(video_id) + "/hls/"@ + resolution
        + "/playlist.m3u8?hls_token="@ + token
}

/// `/api/videos/{id}/hls/{resolution}/playlist.m3u8?hls_token={token}`.
pub fn hls_playlist_url(video_id: u128, resolution: &str, token: &str) -> (r: String)
    ensures
        r@ == playlist_url_of(video_id, resolution@, token@),
{
    let mut url = String::from_str("/api/videos/");
    let id = uuid_text(video_id);
    url.append(id.as_str());
    url.append("/hls/");
    url.append(resolution);
    url.append("/playlist.m3u8?hls_token=");
    url.append(token);
    url
}

/// The `hls_token` query parameter is required (400 without it).
pub fn required_token(token: Option<String>) -> (r: Result<String, ApiError>)
    ensures
        token matches Some(t) ==> (r matches Ok(u) && u@ == t@),
        token is None ==> (r matches Err(e) && e.status == Status::BadRequest && e.message@
            == "缺少 hls_token"@),
{
    match token {
        Some(t) => Ok(t),
        None => Err(api_error(Status::BadRequest, "缺少 hls_token")),
    }
}

/// A playback token is good only for the video and resolution it was issued
/// for (403 otherwise).
pub fn claims_match(claim_video: u128, claim_resolution: &str, video_id: u128, resolution: &str) -> (r:
    Result<(), ApiError>)
    ensures
        r is Ok <==> (claim_video == video_id && claim_resolution@ == resolution@),
        r matches Err(e) ==> e.status == Status::Forbidden && e.message@ == "播放链接与视频不匹配"@,
{
    if claim_video != video_id || !same_text(claim_resolution, resolution) {
        Err(api_error(Status::Forbidden, "播放链接与视频不匹配"))
    } else {
        Ok(())
    }
}

/// A segment name may not leave its directory: no `/` and no `..` (400).
pub fn segment_name_check(segment: &str) -> (r: Result<(), ApiError>)
    ensures
        r is Ok <==> (!segment@.contains('/') && !has_infix(segment@, ".."@)),
        r matches Err(e) ==> e.status == Status::BadRequest && e.message@ == "非法的分片名称"@,
{
    if contains_char(segment, '/') || contains_text(segment, "..") {
        Err(api_error(Status::BadRequest, "非法的分片名称"))
    } else {
        Ok(())
    }
}

/// The content type an HLS file is uploaded with: a playlist for `.m3u8`,
/// a transport-stream segment otherwise.
pub fn hls_content_type(filename: &str) -> (r: String)
    ensures
        has_suffix(filename@, ".m3u8"@) ==> r@ == "application/x-mpegURL"@,
        !has_suffix(filename@, ".m3u8"@) ==> r@ == "video/MP2T"@,
{
    if ends_with(filename, ".m3u8") {
        String::from_str("application/x-mpegURL")
    } else {
        String::from_str("video/MP2T")
    }
}

/// A line without the `\r` of a `\r\n` ending.
pub open spec fn strip_cr(l: Seq<char>) -> Seq<char> {
    if l.len() > 0 && l.last() == '\r' {
        l.drop_last()
    } else {
        l
    }
}

/// The lines of a text as `str::lines` yields them: split at `\n`, a `\r`
/// before a `\n` dropped, and no empty line after a final newline.
pub open spec fn text_lines(s: Seq<char>) -> Seq<Seq<char>> {
    let p = split_pieces(s, '\n');
    let done = p.drop_last().map_values(|l: Seq<char>| strip_cr(l));
    if p.last().len() == 0 {
        done
    } else {
        done.push(p.last())
    }
}

/// The service path of a segment, before the segment's name.
pub open spec fn segment_path_prefix(video_id: u128, resolution: Seq<char>) -> Seq<char> {
    "/api/videos/"@ + uuid_text_of(video_id) + "/hls/"@ + resolution + "/"@
}

/// The query that carries the playback token.
pub open spec fn token_query(token: Seq<char>) -> Seq<char> {
    "?hls_token="@ + token
}

/// A playlist line that names a segment: not blank, not a `#` tag, ending in
/// `.ts` (after trimming).
pub open spec fn is_segment_line(t: Seq<char>) -> bool {
    t.len() > 0 && t[0] != '#' && has_suffix(t, ".ts"@)
}

/// A segment line becomes the service's own segment URL carrying the token;
/// every other line is kept as it is.
pub open spec fn rewritten_line(line: Seq<char>, video_id: u128, resolution: Seq<char>, token: Seq<
    char,
>) -> Seq<char> {
    let t = trimmed(line);
    if is_segment_line(t) {
        segment_path_prefix(video_id, resolution) + t + token_query(token)
    } else {
        line
    }
}

/// The playlist served to players: every line rewritten, joined with `\n`.
pub open spec fn rewritten_playlist(content: Seq<char>, video_id: u128, resolution: Seq<char>, token: Seq<
    char,
>) -> Seq<char> {
    join_pieces(
        text_lines(content).map_values(|l: Seq<char>| rewritten_line(l, video_id, resolution, token)),
        '\n',
    )
}

/// One playlist line, rewritten.
fn rewrite_line(line: &str, video_id: u128, resolution: &str, token: &str) -> (r: String)
    ensures
        r@ == rewritten_line(line@, video_id, resolution@, token@),
{
    let t = trim(line);
    let tv = chars_of(t.as_str());
    if tv.len() > 0 && tv[0] != '#' && ends_with(t.as_str(), ".ts") {
        let mut url = String::from_str("/api/videos/");
        let id = uuid_text(video_id);
        url.append(id.as_str());
        url.append("/hls/");
        url.append(resolution);
        url.append("/");
        url.append(t.as_str());
        url.append("?hls_token=");
        url.append(token);
        proof {
            assert(url@ =~= segment_path_prefix(video_id, resolution@) + trimmed(line@) + token_query(
                token@,
            ));
        }
        url
    } else {
        line.to_owned()
    }
}

/// Rewrites a playlist so that each segment is fetched through the service,
/// with the same token: `seg.ts` becomes
/// `/api/videos/{id}/hls/{resolution}/seg.ts?hls_token={token}`; tags, blank
/// lines and other lines are kept; lines are joined with `\n`.
pub fn rewrite_playlist(content: &str, video_id: u128, resolution: &str, token: &str) -> (r: String)
    ensures
        r@ == rewritten_playlist(content@, video_id, resolution@, token@),
{
    let v = chars_of(content);
    let n = v.len();
    let mut out = String::new();
    let mut count: usize = 0;
    let mut cur: Vec<char> = Vec::new();
    let ghost f = |l: Seq<char>| rewritten_line(l, video_id, resolution@, token@);
    let ghost mut done: Seq<Seq<char>> = Seq::empty();
    let mut i: usize = 0;
    while i < n
        invariant
            n == v@.len(),
            v@ == content@,
            i <= n,
            count == done.len(),
            count <= i,
            f == (|l: Seq<char>| rewritten_line(l, video_id, resolution@, token@)),
            split_pieces(v@.take(i as int), '\n') == done.push(cur@),
            out@ == join_pieces(done.map_values(|l: Seq<char>| strip_cr(l)).map_values(f), '\n'),
        decreases n - i,
    {
        let c = v[i];
        assert(v@.take(i + 1).drop_last() =~= v@.take(i as int));
        assert(v@.take(i + 1).last() == c);
        if c == '\n' {
            let line = if cur.len() > 0 && cur[cur.len() - 1] == '\r' {
                string_from(&cur, 0, cur.len() - 1)
            } else {
                string_of(&cur)
            };
            proof {
                if cur@.len() > 0 && cur@.last() == '\r' {
                    assert(cur@.subrange(0, cur@.len() - 1) =~= cur@.drop_last());
                }
                assert(line@ == strip_cr(cur@));
            }
            let rl = rewrite_line(line.as_str(), video_id, resolution, token);
            let ghost old_done = done;
            let ghost mapped = old_done.map_values(|l: Seq<char>| strip_cr(l)).map_values(f);
            if count > 0 {
                out.append("\n");
            }
            out.append(rl.as_str());
            proof {
                done = done.push(cur@);
                assert(done.map_values(|l: Seq<char>| strip_cr(l)).map_values(f) =~= mapped.push(
                    f(strip_cr(cur@)),
                ));
                lemma_join_pieces_push(mapped, f(strip_cr(cur@)), '\n');
                reveal_strlit("\n");
                assert(out@ =~= join_pieces(done.map_values(|l: Seq<char>| strip_cr(l)).map_values(f), '\n'));
                assert(split_pieces(v@.take(i + 1), '\n') =~= done.push(Seq::<char>::empty()));
            }
            cur = Vec::new();
            count = count + 1;
        } else {
            let ghost before = cur@;
            proof {
                lemma_split_pieces_nonempty(v@.take(i as int), '\n');
            }
            cur.push(c);
            assert(split_pieces(v@.take(i + 1), '\n') =~= done.push(cur@));
        }
        i = i + 1;
    }
    assert(v@.take(n as int) =~= v@);
    let ghost mapped = done.map_values(|l: Seq<char>| strip_cr(l)).map_values(f);
    assert(done.push(cur@).drop_last() =~= done);
    if cur.len() > 0 {
        let last = string_of(&cur);
        let rl = rewrite_line(last.as_str(), video_id, resolution, token);
        if count > 0 {
            out.append("\n");
        }
        out.append(rl.as_str());
        proof {
            lemma_join_pieces_push(mapped, f(cur@), '\n');
            reveal_strlit("\n");
            assert(text_lines(content@).map_values(f) =~= mapped.push(f(cur@)));
        }
    } else {
        assert(text_lines(content@).map_values(f) =~= mapped);
    }
    out
}

} // verus!
