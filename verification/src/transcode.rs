//! The transcoding plan: which resolutions are produced, the FFmpeg command
//! that produces them in one pass, the sizes recorded per resolution and the
//! video's state once a batch is over.
use vstd::prelude::*;
use crate::model::VideoStatus;
use crate::text::{int_text, int_text_of, same_text};

verus! {

/// The target height of a resolution name, if it is one the service produces.
pub open spec fn height_of(resolution: Seq<char>) -> Option<u32> {
    if resolution == "1080p"@ {
        Some(1080u32)
    } else if resolution == "720p"@ {
        Some(720u32)
    } else if resolution == "480p"@ {
        Some(480u32)
    } else if resolution == "360p"@ {
        Some(360u32)
    } else {
        None
    }
}

/// `1080p`, `720p`, `480p` and `360p` map to their heights; any other name to none.
pub fn resolution_to_height(resolution: &str) -> (r: Option<u32>)
    ensures
        r == height_of(resolution@),
{
    if same_text(resolution, "1080p") {
        Some(1080)
    } else if same_text(resolution, "720p") {
        Some(720)
    } else if same_text(resolution, "480p") {
        Some(480)
    } else if same_text(resolution, "360p") {
        Some(360)
    } else {
        None
    }
}

/// The resolutions a confirmed upload is transcoded to, highest first, with
/// their heights.
pub fn transcode_resolutions() -> (r: Vec<(String, u32)>)
    ensures
        r@.len() == 4,
        r@[0].0@ == "1080p"@ && r@[0].1 == 1080,
        r@[1].0@ == "720p"@ && r@[1].1 == 720,
        r@[2].0@ == "480p"@ && r@[2].1 == 480,
        r@[3].0@ == "360p"@ && r@[3].1 == 360,
{
    let mut v: Vec<(String, u32)> = Vec::new();
    v.push((String::from_str("1080p"), 1080));
    v.push((String::from_str("720p"), 720));
    v.push((String::from_str("480p"), 480));
    v.push((String::from_str("360p"), 360));
    v
}

/// The heights of the names that have one, in order (unknown names dropped).
pub open spec fn known_heights(names: Seq<Seq<char>>) -> Seq<(Seq<char>, u32)>
    decreases names.len(),
{
    if names.len() == 0 {
        Seq::empty()
    } else {
        let rest = known_heights(names.drop_last());
        match height_of(names.last()) {
            Some(h) => rest.push((names.last(), h)),
            None => rest,
        }
    }
}

/// The views of a list of strings.
pub open spec fn names_of(v: Seq<String>) -> Seq<Seq<char>> {
    v.map_values(|s: String| s@)
}

/// The batch's resolutions that the service knows, each with its height, in
/// the batch's order.
pub fn batch_heights(resolutions: &Vec<String>) -> (r: Vec<(String, u32)>)
    ensures
        r@.map_values(|p: (String, u32)| (p.0@, p.1)) == known_heights(names_of(resolutions@)),
{
    let mut out: Vec<(String, u32)> = Vec::new();
    let mut i: usize = 0;
    while i < resolutions.len()
        invariant
            i <= resolutions@.len(),
            out@.map_values(|p: (String, u32)| (p.0@, p.1)) == known_heights(
                names_of(resolutions@.take(i as int)),
            ),
        decreases resolutions@.len() - i,
    {
        let ghost names = names_of(resolutions@.take(i + 1));
        assert(names.drop_last() =~= names_of(resolutions@.take(i as int)));
        assert(names.last() == resolutions@[i as int]@);
        let name = &resolutions[i];
        match resolution_to_height(name.as_str()) {
            Some(h) => {
                let ghost before = out@.map_values(|p: (String, u32)| (p.0@, p.1));
                out.push((name.clone(), h));
                assert(out@.map_values(|p: (String, u32)| (p.0@, p.1)) =~= before.push(
                    (name@, h),
                ));
            },
            None => {},
        }
        i = i + 1;
    }
    assert(resolutions@.take(resolutions@.len() as int) =~= resolutions@);
    out
}

/// `[v0][v1]…[v{n-1}]`.
pub open spec fn split_labels(n: nat) -> Seq<char>
    decreases n,
{
    if n == 0 {
        Seq::empty()
    } else {
        split_labels((n - 1) as nat) + "[v"@ + int_text_of(n - 1) + "]"@
    }
}

/// `[v{i}]scale=-2:{h}[s{i}]`: stream `i` scaled to height `h`.
pub open spec fn scale_chain(i: int, h: u32) -> Seq<char> {
    "[v"@ + int_text_of(i) + "]scale=-2:"@ + int_text_of(h as int) + "[s"@ + int_text_of(i) + "]"@
}

/// The scale chains of all heights, joined with `;`.
pub open spec fn scale_chains(hs: Seq<u32>) -> Seq<char>
    decreases hs.len(),
{
    if hs.len() == 0 {
        Seq::empty()
    } else if hs.len() == 1 {
        scale_chain(0, hs[0])
    } else {
        scale_chains(hs.drop_last()) + ";"@ + scale_chain(hs.len() - 1, hs.last())
    }
}

/// The filter graph: a single scale for one height; otherwise the input
/// split into one stream per height, each scaled.
pub open spec fn filter_graph(hs: Seq<u32>) -> Seq<char> {
    if hs.len() == 1 {
        "[0:v]scale=-2:"@ + int_text_of(hs[0] as int) + "[s0]"@
    } else {
        "[0:v]split="@ + int_text_of(hs.len() as int) + split_labels(hs.len()) + ";"@
            + scale_chains(hs)
    }
}

/// The `-filter_complex` argument that decodes once and scales to every height.
pub fn filter_complex(heights: &Vec<u32>) -> (r: String)
    requires
        heights@.len() > 0,
        heights@.len() <= i64::MAX,
    ensures
        r@ == filter_graph(heights@),
{
    let n = heights.len();
    if n == 1 {
        let mut s = String::from_str("[0:v]scale=-2:");
        let h = int_text(heights[0] as i64);
        s.append(h.as_str());
        s.append("[s0]");
        return s;
    }
    let mut labels = String::new();
    let mut chains = String::new();
    let mut i: usize = 0;
    while i < n
        invariant
            n == heights@.len(),
            n <= i64::MAX,
            n > 1,
            i <= n,
            labels@ == split_labels(i as nat),
            chains@ == scale_chains(heights@.take(i as int)),
        decreases n - i,
    {
        let idx = int_text(i as i64);
        let h = int_text(heights[i] as i64);
        let ghost before_labels = labels@;
        labels.append("[v");
        labels.append(idx.as_str());
        labels.append("]");
        assert(labels@ =~= split_labels((i + 1) as nat));
        let ghost before = chains@;
        let ghost hs = heights@.take(i + 1);
        assert(hs.drop_last() =~= heights@.take(i as int));
        assert(hs.last() == heights@[i as int]);
        if i > 0 {
            chains.append(";");
        }
        chains.append("[v");
        chains.append(idx.as_str());
        chains.append("]scale=-2:");
        chains.append(h.as_str());
        chains.append("[s");
        chains.append(idx.as_str());
        chains.append("]");
        proof {
            if i == 0 {
                assert(before == Seq::<char>::empty());
                assert(chains@ =~= scale_chain(0, heights@[0]));
            } else {
                assert(chains@ =~= before + ";"@ + scale_chain(i as int, heights@[i as int]));
            }
        }
        i = i + 1;
    }
    assert(heights@.take(n as int) =~= heights@);
    let mut s = String::from_str("[0:v]split=");
    let count = int_text(n as i64);
    s.append(count.as_str());
    s.append(labels.as_str());
    s.append(";");
    s.append(chains.as_str());
    assert(s@ =~= filter_graph(heights@));
    s
}

/// The arguments that write stream `i` as a VOD HLS rendition: H.264
/// (veryfast, CRF 23), AAC 128k, 10-second segments named by the `segments`
/// pattern, and the playlist at `playlist`.
pub open spec fn output_args(i: int, segments: Seq<char>, playlist: Seq<char>) -> Seq<Seq<char>> {
    seq![
        "-map"@,
        "[s"@ + int_text_of(i) + "]"@,
        "-map"@,
        "0:a?"@,
        "-c:v"@,
        "libx264"@,
        "-preset"@,
        "veryfast"@,
        "-crf"@,
        "23"@,
        "-c:a"@,
        "aac"@,
        "-b:a"@,
        "128k"@,
        "-hls_time"@,
        "10"@,
        "-hls_playlist_type"@,
        "vod"@,
        "-hls_segment_filename"@,
        segments,
        playlist,
    ]
}

/// The output arguments of every rendition, in order.
pub open spec fn all_output_args(outs: Seq<(Seq<char>, Seq<char>)>) -> Seq<Seq<char>>
    decreases outs.len(),
{
    if outs.len() == 0 {
        Seq::empty()
    } else {
        all_output_args(outs.drop_last()) + output_args(
            outs.len() - 1,
            outs.last().0,
            outs.last().1,
        )
    }
}

/// The complete FFmpeg argument list.
pub open spec fn ffmpeg_arg_list(input: Seq<char>, heights: Seq<u32>, outs: Seq<(Seq<char>, Seq<char>)>) -> Seq<
    Seq<char>,
> {
    seq!["-y"@, "-i"@, input, "-filter_complex"@, filter_graph(heights)] + all_output_args(outs)
}

/// The views of (segment pattern, playlist path) pairs.
pub open spec fn out_paths(v: Seq<(String, String)>) -> Seq<(Seq<char>, Seq<char>)> {
    v.map_values(|p: (String, String)| (p.0@, p.1@))
}

/// The views of a list of arguments.
pub open spec fn arg_texts(v: Seq<String>) -> Seq<Seq<char>> {
    v.map_values(|s: String| s@)
}

fn push_text(v: &mut Vec<String>, t: &str)
    ensures
        arg_texts(final(v)@) == arg_texts(old(v)@).push(t@),
{
    let ghost before = arg_texts(v@);
    v.push(String::from_str(t));
    assert(arg_texts(v@) =~= before.push(t@));
}

/// The arguments of one FFmpeg run that decodes `input` once and writes every
/// height as its own HLS rendition; `outputs[i]` holds the segment-name
/// pattern and playlist path of rendition `i`.
pub fn ffmpeg_args(input: &str, heights: &Vec<u32>, outputs: &Vec<(String, String)>) -> (r: Vec<
    String,
>)
    requires
        heights@.len() > 0,
        heights@.len() == outputs@.len(),
        heights@.len() <= i64::MAX,
    ensures
        arg_texts(r@) == ffmpeg_arg_list(input@, heights@, out_paths(outputs@)),
{
    let fc = filter_complex(heights);
    let mut args: Vec<String> = Vec::new();
    push_text(&mut args, "-y");
    push_text(&mut args, "-i");
    push_text(&mut args, input);
    push_text(&mut args, "-filter_complex");
    push_text(&mut args, fc.as_str());
    assert(arg_texts(args@) =~= seq!["-y"@, "-i"@, input@, "-filter_complex"@, filter_graph(heights@)]
        + all_output_args(out_paths(outputs@.take(0))));
    let n = outputs.len();
    let mut i: usize = 0;
    while i < n
        invariant
            n == outputs@.len(),
            n == heights@.len(),
            n <= i64::MAX,
            i <= n,
            arg_texts(args@) == seq![
                "-y"@,
                "-i"@,
                input@,
                "-filter_complex"@,
                filter_graph(heights@),
            ] + all_output_args(out_paths(outputs@.take(i as int))),
        decreases n - i,
    {
        let ghost before = arg_texts(args@);
        let mut label = String::from_str("[s");
        let idx = int_text(i as i64);
        label.append(idx.as_str());
        label.append("]");
        push_text(&mut args, "-map");
        push_text(&mut args, label.as_str());
        push_text(&mut args, "-map");
        push_text(&mut args, "0:a?");
        push_text(&mut args, "-c:v");
        push_text(&mut args, "libx264");
        push_text(&mut args, "-preset");
        push_text(&mut args, "veryfast");
        push_text(&mut args, "-crf");
        push_text(&mut args, "23");
        push_text(&mut args, "-c:a");
        push_text(&mut args, "aac");
        push_text(&mut args, "-b:a");
        push_text(&mut args, "128k");
        push_text(&mut args, "-hls_time");
        push_text(&mut args, "10");
        push_text(&mut args, "-hls_playlist_type");
        push_text(&mut args, "vod");
        push_text(&mut args, "-hls_segment_filename");
        push_text(&mut args, outputs[i].0.as_str());
        push_text(&mut args, outputs[i].1.as_str());
        proof {
            let outs = out_paths(outputs@.take(i + 1));
            assert(outs.drop_last() =~= out_paths(outputs@.take(i as int)));
            assert(outs.last() == (outputs@[i as int].0@, outputs@[i as int].1@));
            assert(arg_texts(args@) =~= before + output_args(
                i as int,
                outputs@[i as int].0@,
                outputs@[i as int].1@,
            ));
        }
        i = i + 1;
    }
    assert(outputs@.take(n as int) =~= outputs@);
    args
}

/// Where FFmpeg writes one rendition under the work directory: the segment
/// name pattern `{dir}/{resolution}/segment_%04d.ts` and the playlist
/// `{dir}/{resolution}/playlist.m3u8`.
pub fn rendition_paths(work_dir: &str, resolution: &str) -> (r: (String, String))
    ensures
        r.0@ == work_dir@ + "/"@ + resolution@ + "/segment_%04d.ts"@,
        r.1@ == work_dir@ + "/"@ + resolution@ + "/playlist.m3u8"@,
{
    let mut segments = String::from_str(work_dir);
    segments.append("/");
    segments.append(resolution);
    let mut playlist = segments.clone();
    segments.append("/segment_%04d.ts");
    playlist.append("/playlist.m3u8");
    (segments, playlist)
}

/// The bytes uploaded for one resolution: the sizes of the uploads tagged
/// with it.
pub open spec fn size_total(uploads: Seq<(String, i64)>, resolution: Seq<char>) -> int
    decreases uploads.len(),
{
    if uploads.len() == 0 {
        0
    } else {
        size_total(uploads.drop_last(), resolution) + (if uploads.last().0@ == resolution {
            uploads.last().1 as int
        } else {
            0
        })
    }
}

proof fn lemma_size_total_prefix(uploads: Seq<(String, i64)>, resolution: Seq<char>, k: int)
    requires
        0 <= k <= uploads.len(),
        forall|j: int| 0 <= j < uploads.len() ==> uploads[j].1 >= 0,
    ensures
        0 <= size_total(uploads.take(k), resolution) <= size_total(uploads, resolution),
    decreases uploads.len() - k,
{
    if k < uploads.len() {
        lemma_size_total_prefix(uploads, resolution, k + 1);
        assert(uploads.take(k + 1).drop_last() =~= uploads.take(k));
        assert(uploads.take(k + 1).last() == uploads[k]);
        assert forall|j: int| 0 <= j < uploads.take(k).len() implies uploads.take(k)[j].1 >= 0 by {
            assert(uploads.take(k)[j] == uploads[j]);
        }
        lemma_size_total_nonneg(uploads.take(k), resolution);
    } else {
        assert(uploads.take(k) =~= uploads);
        lemma_size_total_nonneg(uploads, resolution);
    }
}

proof fn lemma_size_total_nonneg(uploads: Seq<(String, i64)>, resolution: Seq<char>)
    requires
        forall|j: int| 0 <= j < uploads.len() ==> uploads[j].1 >= 0,
    ensures
        size_total(uploads, resolution) >= 0,
    decreases uploads.len(),
{
    if uploads.len() > 0 {
        lemma_size_total_nonneg(uploads.drop_last(), resolution);
    }
}

/// The total size of one resolution's uploads.
fn total_for(uploads: &Vec<(String, i64)>, resolution: &str) -> (r: i64)
    requires
        forall|j: int| 0 <= j < uploads@.len() ==> uploads@[j].1 >= 0,
        size_total(uploads@, resolution@) <= i64::MAX,
    ensures
        r == size_total(uploads@, resolution@),
{
    let mut sum: i64 = 0;
    let mut i: usize = 0;
    while i < uploads.len()
        invariant
            i <= uploads@.len(),
            forall|j: int| 0 <= j < uploads@.len() ==> uploads@[j].1 >= 0,
            size_total(uploads@, resolution@) <= i64::MAX,
            sum == size_total(uploads@.take(i as int), resolution@),
        decreases uploads@.len() - i,
    {
        let ghost t = uploads@.take(i + 1);
        assert(t.drop_last() =~= uploads@.take(i as int));
        assert(t.last() == uploads@[i as int]);
        proof {
            lemma_size_total_prefix(uploads@, resolution@, i + 1);
        }
        if same_text(uploads[i].0.as_str(), resolution) {
            sum = sum + uploads[i].1;
        }
        i = i + 1;
    }
    assert(uploads@.take(uploads@.len() as int) =~= uploads@);
    sum
}

/// The size recorded for each of the batch's resolutions: the total of the
/// uploaded files of that resolution (zero when none).
pub fn sizes_by_resolution(uploads: &Vec<(String, i64)>, resolutions: &Vec<String>) -> (r: Vec<i64>)
    requires
        forall|j: int| 0 <= j < uploads@.len() ==> uploads@[j].1 >= 0,
        forall|res: Seq<char>| size_total(uploads@, res) <= i64::MAX,
    ensures
        r@.len() == resolutions@.len(),
        forall|j: int| 0 <= j < r@.len() ==> r@[j] == size_total(uploads@, resolutions@[j]@),
{
    let mut out: Vec<i64> = Vec::new();
    let mut i: usize = 0;
    while i < resolutions.len()
        invariant
            i <= resolutions@.len(),
            out@.len() == i,
            forall|j: int| 0 <= j < uploads@.len() ==> uploads@[j].1 >= 0,
            forall|res: Seq<char>| size_total(uploads@, res) <= i64::MAX,
            forall|j: int| 0 <= j < i ==> out@[j] == size_total(uploads@, resolutions@[j]@),
        decreases resolutions@.len() - i,
    {
        let t = total_for(uploads, resolutions[i].as_str());
        out.push(t);
        i = i + 1;
    }
    out
}

/// The video's state once a batch is over. A failed batch fails the video.
/// After a successful one the video is ready when every resolution is done,
/// failed when some resolution failed, and otherwise unchanged (`None`).
/// `all_done` is only consulted after success, `has_failed` only when not all
/// are done.
pub fn status_after_batch(transcoded: bool, all_done: bool, has_failed: bool) -> (r: Option<
    VideoStatus,
>)
    ensures
        !transcoded ==> r == Some(VideoStatus::Failed),
        transcoded && all_done ==> r == Some(VideoStatus::Ready),
        transcoded && !all_done && has_failed ==> r == Some(VideoStatus::Failed),
        transcoded && !all_done && !has_failed ==> r is None,
{
    if !transcoded {
        Some(VideoStatus::Failed)
    } else if all_done {
        Some(VideoStatus::Ready)
    } else if has_failed {
        Some(VideoStatus::Failed)
    } else {
        None
    }
}

} // verus!
