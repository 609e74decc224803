use microcourse::hls::{
    claims_match, hls_content_type, hls_object_key, hls_playlist_url, hls_request,
    playback_ready, playlist_object_key, required_token, rewrite_playlist, segment_name_check,
    thumbnail_key, video_asset_prefixes, CreateHlsUrlRequest,
};
use microcourse::model::{Status, VideoStatus};

const VIDEO: u128 = 0xa1b2c3d4_0000_4000_8000_00000000beef;
const VIDEO_TEXT: &str = "a1b2c3d4-0000-4000-8000-00000000beef";

#[test]
fn hls_keys() {
    assert_eq!(
        hls_object_key(VIDEO, "720p", "segment_0001.ts"),
        format!("hls/{VIDEO_TEXT}/720p/segment_0001.ts")
    );
    assert_eq!(playlist_object_key(VIDEO, "1080p"), format!("hls/{VIDEO_TEXT}/1080p/playlist.m3u8"));
    assert_eq!(thumbnail_key(VIDEO), format!("covers/{VIDEO_TEXT}/thumbnail.jpg"));
}

#[test]
fn asset_prefixes_of_a_video() {
    let p = video_asset_prefixes(VIDEO);
    assert_eq!(
        p,
        vec![
            format!("raw/{VIDEO_TEXT}/"),
            format!("hls/{VIDEO_TEXT}/"),
            format!("covers/{VIDEO_TEXT}/"),
        ]
    );
}

#[test]
fn playback_defaults() {
    let (res, ttl) = hls_request(CreateHlsUrlRequest { resolution: None, ttl_seconds: None });
    assert_eq!((res.as_str(), ttl), ("720p", 600));
    let (res, ttl) = hls_request(CreateHlsUrlRequest {
        resolution: Some("360p".to_string()),
        ttl_seconds: Some(60),
    });
    assert_eq!((res.as_str(), ttl), ("360p", 60));
}

#[test]
fn playback_needs_ready_video() {
    assert!(playback_ready(VideoStatus::Ready, "m").is_ok());
    let e = playback_ready(VideoStatus::Processing, "视频尚未转码完成，暂无法播放").unwrap_err();
    assert_eq!(e.status, Status::UnprocessableEntity);
    assert_eq!(e.message, "视频尚未转码完成，暂无法播放");
}

#[test]
fn playlist_url_format() {
    assert_eq!(
        hls_playlist_url(VIDEO, "720p", "tok.en"),
        format!("/api/videos/{VIDEO_TEXT}/hls/720p/playlist.m3u8?hls_token=tok.en")
    );
}

#[test]
fn token_is_required() {
    assert_eq!(required_token(Some("t".to_string())).unwrap(), "t");
    let e = required_token(None).unwrap_err();
    assert_eq!((e.status, e.message.as_str()), (Status::BadRequest, "缺少 hls_token"));
}

#[test]
fn token_bound_to_video_and_resolution() {
    assert!(claims_match(VIDEO, "720p", VIDEO, "720p").is_ok());
    let e = claims_match(VIDEO, "720p", VIDEO, "1080p").unwrap_err();
    assert_eq!((e.status, e.message.as_str()), (Status::Forbidden, "播放链接与视频不匹配"));
    assert!(claims_match(VIDEO + 1, "720p", VIDEO, "720p").is_err());
}

#[test]
fn segment_names_stay_in_their_directory() {
    assert!(segment_name_check("segment_0001.ts").is_ok());
    assert!(segment_name_check("a.b.ts").is_ok());
    let e = segment_name_check("../secret").unwrap_err();
    assert_eq!((e.status, e.message.as_str()), (Status::BadRequest, "非法的分片名称"));
    assert!(segment_name_check("a/b.ts").is_err());
    assert!(segment_name_check("x..ts").is_err());
}

#[test]
fn content_types() {
    assert_eq!(hls_content_type("playlist.m3u8"), "application/x-mpegURL");
    assert_eq!(hls_content_type("segment_0000.ts"), "video/MP2T");
}

#[test]
fn playlist_segments_go_through_the_service() {
    let raw = "#EXTM3U\n#EXT-X-VERSION:3\n#EXTINF:10.0,\nsegment_0000.ts\n#EXTINF:4.2,\nsegment_0001.ts\n#EXT-X-ENDLIST\n";
    let out = rewrite_playlist(raw, VIDEO, "720p", "TOKEN");
    let expected = format!(
        "#EXTM3U\n#EXT-X-VERSION:3\n#EXTINF:10.0,\n/api/videos/{VIDEO_TEXT}/hls/720p/segment_0000.ts?hls_token=TOKEN\n#EXTINF:4.2,\n/api/videos/{VIDEO_TEXT}/hls/720p/segment_0001.ts?hls_token=TOKEN\n#EXT-X-ENDLIST"
    );
    assert_eq!(out, expected);
}

#[test]
fn playlist_rewrite_handles_crlf_and_spaces() {
    let raw = "#EXTM3U\r\n  seg.ts  \r\n\r\nnot-a-segment.mp4\r\n";
    let out = rewrite_playlist(raw, VIDEO, "480p", "t");
    let expected = format!(
        "#EXTM3U\n/api/videos/{VIDEO_TEXT}/hls/480p/seg.ts?hls_token=t\n\nnot-a-segment.mp4"
    );
    assert_eq!(out, expected);
}

#[test]
fn playlist_rewrite_matches_str_lines() {
    let raw = "a.ts\n\n#x\nb\r\nlast.ts";
    let out = rewrite_playlist(raw, VIDEO, "360p", "k");
    let expected: Vec<String> = raw
        .lines()
        .map(|l| {
            let t = l.trim();
            if !t.is_empty() && !t.starts_with('#') && t.ends_with(".ts") {
                format!("/api/videos/{VIDEO_TEXT}/hls/360p/{t}?hls_token=k")
            } else {
                l.to_string()
            }
        })
        .collect();
    assert_eq!(out, expected.join("\n"));
    assert_eq!(rewrite_playlist("", VIDEO, "360p", "k"), "");
    assert_eq!(rewrite_playlist("\n", VIDEO, "360p", "k"), "");
}
