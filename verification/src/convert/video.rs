//! Video <-> video targets (MP4/MOV/MKV/WebM/AVI/WMV/GIF) plus MP3 audio
//! export from every video format except GIF.
use crate::ext::{ext_name, ext_names, ext_strs, parse_ext, parse_ext_chars, str_views, Ext};
use crate::convert::error::ConvertError;
use crate::convert::naming::{path_extension, path_extension_of};
use crate::convert::{contains_str, string_views};
use crate::text::{
    chars_of, join_seq, join_strings, push_all, push_str, str_is, string_from_chars,
    suffix_within, suffix_within_chars, to_lowercase, unicode_lowercase,
};
use vstd::prelude::*;

verus! {

/// The targets offered for a source extension (after Unicode lower-casing).
pub open spec fn video_targets(e: Option<Ext>) -> Seq<Ext> {
    match e {
        Some(Ext::Mp4) => seq![Ext::Mov, Ext::Mkv, Ext::Webm, Ext::Avi, Ext::Wmv, Ext::Gif, Ext::Mp3],
        Some(Ext::Mov) => seq![Ext::Mp4, Ext::Mkv, Ext::Webm, Ext::Avi, Ext::Wmv, Ext::Gif, Ext::Mp3],
        Some(Ext::Mkv) => seq![Ext::Mp4, Ext::Mov, Ext::Webm, Ext::Avi, Ext::Wmv, Ext::Gif, Ext::Mp3],
        Some(Ext::Webm) => seq![Ext::Mp4, Ext::Mov, Ext::Mkv, Ext::Avi, Ext::Wmv, Ext::Gif, Ext::Mp3],
        Some(Ext::Avi) => seq![Ext::Mp4, Ext::Mov, Ext::Mkv, Ext::Webm, Ext::Wmv, Ext::Gif, Ext::Mp3],
        Some(Ext::Wmv) => seq![Ext::Mp4, Ext::Mov, Ext::Mkv, Ext::Webm, Ext::Avi, Ext::Gif, Ext::Mp3],
        Some(Ext::Gif) => seq![Ext::Mp4, Ext::Mov, Ext::Mkv, Ext::Webm, Ext::Avi, Ext::Wmv],
        _ => seq![],
    }
}

fn video_targets_of(e: Option<Ext>) -> (r: Vec<Ext>)
    ensures
        r@ == video_targets(e),
{
    match e {
        Some(Ext::Mp4) => vec![Ext::Mov, Ext::Mkv, Ext::Webm, Ext::Avi, Ext::Wmv, Ext::Gif, Ext::Mp3],
        Some(Ext::Mov) => vec![Ext::Mp4, Ext::Mkv, Ext::Webm, Ext::Avi, Ext::Wmv, Ext::Gif, Ext::Mp3],
        Some(Ext::Mkv) => vec![Ext::Mp4, Ext::Mov, Ext::Webm, Ext::Avi, Ext::Wmv, Ext::Gif, Ext::Mp3],
        Some(Ext::Webm) => vec![Ext::Mp4, Ext::Mov, Ext::Mkv, Ext::Avi, Ext::Wmv, Ext::Gif, Ext::Mp3],
        Some(Ext::Avi) => vec![Ext::Mp4, Ext::Mov, Ext::Mkv, Ext::Webm, Ext::Wmv, Ext::Gif, Ext::Mp3],
        Some(Ext::Wmv) => vec![Ext::Mp4, Ext::Mov, Ext::Mkv, Ext::Webm, Ext::Avi, Ext::Gif, Ext::Mp3],
        Some(Ext::Gif) => vec![Ext::Mp4, Ext::Mov, Ext::Mkv, Ext::Webm, Ext::Avi, Ext::Wmv],
        _ => vec![],
    }
}

/// The targets `supported_targets` lists for the spelling `s`.
pub open spec fn spec_video_targets(s: Seq<char>) -> Seq<Seq<char>> {
    ext_names(video_targets(parse_ext(unicode_lowercase(s))))
}

/// Extensions this family can produce from `source_ext` (compared
/// case-insensitively), excluding `source_ext` itself.
pub fn supported_targets(source_ext: &str) -> (r: Vec<&'static str>)
    ensures
        str_views(r@) == spec_video_targets(source_ext@),
{
    let lower = to_lowercase(source_ext);
    let chars = chars_of(lower.as_str());
    let targets = video_targets_of(parse_ext_chars(&chars));
    ext_strs(&targets)
}

/// The FFmpeg codec arguments for a (lower-cased) video target.
pub open spec fn video_codec_args(t: Seq<char>) -> Seq<Seq<char>> {
    if t == "mp4"@ || t == "mov"@ || t == "mkv"@ {
        seq!["-c:v"@, "libx264"@, "-pix_fmt"@, "yuv420p"@, "-c:a"@, "aac"@]
    } else if t == "webm"@ {
        seq![
            "-c:v"@,
            "libvpx-vp9"@,
            "-b:v"@,
            "0"@,
            "-crf"@,
            "30"@,
            "-pix_fmt"@,
            "yuv420p"@,
            "-c:a"@,
            "libopus"@,
        ]
    } else if t == "avi"@ {
        seq!["-c:v"@, "mpeg4"@, "-q:v"@, "5"@, "-c:a"@, "libmp3lame"@, "-q:a"@, "4"@]
    } else if t == "wmv"@ {
        seq!["-c:v"@, "wmv2"@, "-c:a"@, "wmav2"@]
    } else if t == "gif"@ {
        seq![
            "-filter_complex"@,
            "[0:v] fps=15,split [a][b];[a] palettegen [p];[b][p] paletteuse"@,
            "-an"@,
        ]
    } else if t == "mp3"@ {
        seq!["-vn"@, "-c:a"@, "libmp3lame"@, "-q:a"@, "2"@]
    } else {
        Seq::empty()
    }
}

/// The whole FFmpeg argument list converting `source` to `destination`.
pub open spec fn spec_ffmpeg_args(t: Seq<char>, source: Seq<char>, destination: Seq<char>) -> Seq<Seq<char>> {
    seq!["-y"@, "-i"@, source] + video_codec_args(t) + seq![destination]
}

/// Appends each of `values` as an argument.
fn push_args(args: &mut Vec<String>, values: &[&str])
    ensures
        string_views(final(args)@) == string_views(old(args)@) + str_views(values@),
{
    for i in 0..values.len()
        invariant
            string_views(args@) == string_views(old(args)@) + str_views(values@).take(i as int),
    {
        let ghost before = args@;
        let v = values[i].to_owned();
        args.push(v);
        proof {
            assert(string_views(args@) =~= string_views(before).push(values@[i as int]@));
            assert(str_views(values@).take(i + 1) =~= str_views(values@).take(i as int).push(
                values@[i as int]@,
            ));
        }
    }
    proof {
        assert(str_views(values@).take(values@.len() as int) =~= str_views(values@));
    }
}

/// The FFmpeg arguments for converting `source` to the (lower-cased)
/// `target`, writing `destination`: overwrite, the input, the target's
/// codec settings, then the output.
pub fn ffmpeg_args(target: &str, source: &str, destination: &str) -> (r: Vec<String>)
    ensures
        string_views(r@) == spec_ffmpeg_args(target@, source@, destination@),
{
    let mut args: Vec<String> = Vec::new();
    args.push("-y".to_owned());
    args.push("-i".to_owned());
    args.push(source.to_owned());
    let ghost head = string_views(args@);
    proof {
        assert(head =~= seq!["-y"@, "-i"@, source@]);
    }
    if str_is(target, "mp4") || str_is(target, "mov") || str_is(target, "mkv") {
        push_args(&mut args, &["-c:v", "libx264", "-pix_fmt", "yuv420p", "-c:a", "aac"]);
    } else if str_is(target, "webm") {
        push_args(
            &mut args,
            &["-c:v", "libvpx-vp9", "-b:v", "0", "-crf", "30", "-pix_fmt", "yuv420p", "-c:a", "libopus"],
        );
    } else if str_is(target, "avi") {
        push_args(&mut args, &["-c:v", "mpeg4", "-q:v", "5", "-c:a", "libmp3lame", "-q:a", "4"]);
    } else if str_is(target, "wmv") {
        push_args(&mut args, &["-c:v", "wmv2", "-c:a", "wmav2"]);
    } else if str_is(target, "gif") {
        push_args(
            &mut args,
            &["-filter_complex", "[0:v] fps=15,split [a][b];[a] palettegen [p];[b][p] paletteuse", "-an"],
        );
    } else if str_is(target, "mp3") {
        push_args(&mut args, &["-vn", "-c:a", "libmp3lame", "-q:a", "2"]);
    }
    proof {
        assert(string_views(args@) =~= head + video_codec_args(target@));
    }
    let ghost mid = string_views(args@);
    args.push(destination.to_owned());
    proof {
        assert(string_views(args@) =~= mid.push(destination@));
    }
    args
}

/// Checks a video conversion and builds its FFmpeg arguments. The target
/// and the source extension are lower-cased; the source extension is what
/// a path's `extension` gives.
pub fn plan(source: &str, target_extension: &str, destination: &str, source_is_file: bool) -> (r: Result<Vec<String>, ConvertError>)
    ensures
        match path_extension(source@) {
            None => r matches Err(ConvertError::InvalidSource(d)) && d@ == "source file has no extension"@,
            Some(x) => {
                let xl = unicode_lowercase(x);
                let t = unicode_lowercase(target_extension@);
                if !spec_video_targets(xl).contains(t) {
                    r matches Err(ConvertError::UnsupportedConversion { from, to }) && from@ == xl && to@ == t
                } else if !source_is_file {
                    r matches Err(ConvertError::InvalidSource(d)) && d@ == "not a file: "@ + source@
                } else {
                    r matches Ok(args) && string_views(args@) == spec_ffmpeg_args(t, source@, destination@)
                }
            },
        },
{
    let target = to_lowercase(target_extension);
    let ext = match path_extension_of(source) {
        None => return Err(ConvertError::InvalidSource("source file has no extension".to_owned())),
        Some(x) => to_lowercase(x.as_str()),
    };
    let offered = supported_targets(ext.as_str());
    if !contains_str(&offered, target.as_str()) {
        return Err(ConvertError::UnsupportedConversion { from: ext, to: target });
    }
    if !source_is_file {
        let mut d = chars_of("not a file: ");
        push_str(&mut d, source);
        return Err(ConvertError::InvalidSource(string_from_chars(&d)));
    }
    Ok(ffmpeg_args(target.as_str(), source, destination))
}

/// How many trailing lines of FFmpeg output are kept for an error message.
pub const TAIL_LINES: usize = 40;

/// Appends an output line to the kept tail, dropping the oldest line once
/// more than [`TAIL_LINES`] are kept.
pub fn push_tail_line(tail: &mut Vec<String>, line: String)
    requires
        old(tail)@.len() <= TAIL_LINES,
    ensures
        old(tail)@.len() < TAIL_LINES ==> final(tail)@ == old(tail)@.push(line),
        old(tail)@.len() == TAIL_LINES ==> final(tail)@ == old(tail)@.push(line).skip(1),
        final(tail)@.len() <= TAIL_LINES,
{
    tail.push(line);
    if tail.len() > TAIL_LINES {
        tail.remove(0);
        proof {
            assert(tail@ =~= old(tail)@.push(line).skip(1));
        }
    }
}

/// The last `max_len` characters of `s` (all of it when it is no longer).
pub fn trim_tail(s: &str, max_len: usize) -> (r: String)
    ensures
        r@ == suffix_within(s@, max_len as nat),
{
    let v = chars_of(s);
    let t = suffix_within_chars(&v, max_len);
    string_from_chars(&t)
}

/// The message for a failed video conversion: the source, the target,
/// and the last 500 characters of FFmpeg's kept output lines (or a note that
/// it printed nothing).
pub open spec fn spec_failure_message(source: Seq<char>, target: Seq<char>, tail: Seq<Seq<char>>) -> Seq<char> {
    let detail = suffix_within(join_seq(tail, seq!['\n']), 500);
    "ffmpeg could not convert "@ + source + " to ."@ + target + ": "@ + if detail.len() == 0 {
        "no output captured"@
    } else {
        detail
    }
}

/// Builds the message for a failed video conversion.
pub fn failure_message(source: &str, target: &str, tail: &[String]) -> (r: String)
    ensures
        r@ == spec_failure_message(source@, target@, string_views(tail@)),
{
    let joined = join_strings(tail, "\n");
    proof {
        reveal_strlit("\n");
        assert("\n"@ =~= seq!['\n']);
    }
    let detail = suffix_within_chars(&joined, 500);
    let mut m = chars_of("ffmpeg could not convert ");
    push_str(&mut m, source);
    push_str(&mut m, " to .");
    push_str(&mut m, target);
    push_str(&mut m, ": ");
    if detail.len() == 0 {
        push_str(&mut m, "no output captured");
    } else {
        push_all(&mut m, &detail);
    }
    string_from_chars(&m)
}

/// A video source is never offered its own format.
pub proof fn lemma_video_targets_exclude_source(s: Seq<char>, e: Ext)
    requires
        parse_ext(unicode_lowercase(s)) == Some(e),
    ensures
        !spec_video_targets(s).contains(ext_name(e)),
{
}

/// The video formats, in the order targets are listed.
pub open spec fn video_formats() -> Seq<Ext> {
    seq![Ext::Mp4, Ext::Mov, Ext::Mkv, Ext::Webm, Ext::Avi, Ext::Wmv, Ext::Gif]
}

/// The targets row `i` of the video matrix must list: the other video
/// formats in order, then MP3 unless the source is GIF.
pub open spec fn video_row(i: int) -> Seq<Ext> {
    video_formats().remove(i) + if video_formats()[i] == Ext::Gif {
        Seq::<Ext>::empty()
    } else {
        seq![Ext::Mp3]
    }
}

proof fn lemma_video_row(i: int)
    requires
        0 <= i < 7,
    ensures
        video_targets(Some(video_formats()[i])) == video_row(i),
{
    let v = video_formats();
    let r = video_row(i);
    assert(v.remove(i) =~= v.subrange(0, i) + v.subrange(i + 1, 7));
    if i == 0 {
        assert(video_targets(Some(v[i])) =~= r);
    } else if i == 1 {
        assert(video_targets(Some(v[i])) =~= r);
    } else if i == 2 {
        assert(video_targets(Some(v[i])) =~= r);
    } else if i == 3 {
        assert(video_targets(Some(v[i])) =~= r);
    } else if i == 4 {
        assert(video_targets(Some(v[i])) =~= r);
    } else if i == 5 {
        assert(video_targets(Some(v[i])) =~= r);
    } else {
        assert(video_targets(Some(v[i])) =~= r);
    }
}

/// Every video format converts to every other video format, listed in
/// [`video_formats`] order; every one but GIF also exports MP3 audio,
/// offered last.
pub proof fn lemma_video_target_matrix()
    ensures
        forall|i: int| 0 <= i < video_formats().len() ==> #[trigger] video_targets(Some(video_formats()[i])) == video_row(i),
{
    assert forall|i: int| 0 <= i < video_formats().len() implies #[trigger] video_targets(Some(video_formats()[i])) == video_row(i) by {
        lemma_video_row(i);
    }
}

/// Each video target gets its own encoders: H.264 with AAC in MP4, MOV
/// and MKV; VP9 with Opus in WebM; MPEG-4 with MP3 in AVI; WMV2 with WMA
/// v2 in WMV; a palette-optimized, silent GIF; LAME with the video dropped
/// for MP3; and no codec arguments for anything else.
pub proof fn lemma_video_codecs(t: Seq<char>)
    ensures
        video_codec_args("mp4"@) == seq!["-c:v"@, "libx264"@, "-pix_fmt"@, "yuv420p"@, "-c:a"@, "aac"@],
        video_codec_args("mov"@) == seq!["-c:v"@, "libx264"@, "-pix_fmt"@, "yuv420p"@, "-c:a"@, "aac"@],
        video_codec_args("mkv"@) == seq!["-c:v"@, "libx264"@, "-pix_fmt"@, "yuv420p"@, "-c:a"@, "aac"@],
        video_codec_args("webm"@) == seq![
            "-c:v"@,
            "libvpx-vp9"@,
            "-b:v"@,
            "0"@,
            "-crf"@,
            "30"@,
            "-pix_fmt"@,
            "yuv420p"@,
            "-c:a"@,
            "libopus"@,
        ],
        video_codec_args("avi"@) == seq!["-c:v"@, "mpeg4"@, "-q:v"@, "5"@, "-c:a"@, "libmp3lame"@, "-q:a"@, "4"@],
        video_codec_args("wmv"@) == seq!["-c:v"@, "wmv2"@, "-c:a"@, "wmav2"@],
        video_codec_args("gif"@) == seq![
            "-filter_complex"@,
            "[0:v] fps=15,split [a][b];[a] palettegen [p];[b][p] paletteuse"@,
            "-an"@,
        ],
        video_codec_args("mp3"@) == seq!["-vn"@, "-c:a"@, "libmp3lame"@, "-q:a"@, "2"@],
        t != "mp4"@ && t != "mov"@ && t != "mkv"@ && t != "webm"@ && t != "avi"@ && t != "wmv"@ && t != "gif"@
            && t != "mp3"@ ==> video_codec_args(t) == Seq::<Seq<char>>::empty(),
{
    reveal_strlit("mp4");
    reveal_strlit("mov");
    reveal_strlit("mkv");
    reveal_strlit("webm");
    reveal_strlit("avi");
    reveal_strlit("wmv");
    reveal_strlit("gif");
    reveal_strlit("mp3");
    assert("mp4"@ =~= seq!['m', 'p', '4']);
    assert("mov"@ =~= seq!['m', 'o', 'v']);
    assert("mkv"@ =~= seq!['m', 'k', 'v']);
    assert("webm"@ =~= seq!['w', 'e', 'b', 'm']);
    assert("avi"@ =~= seq!['a', 'v', 'i']);
    assert("wmv"@ =~= seq!['w', 'm', 'v']);
    assert("gif"@ =~= seq!['g', 'i', 'f']);
    assert("mp3"@ =~= seq!['m', 'p', '3']);
}

} // verus!
