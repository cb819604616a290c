//! Audio <-> audio targets (MP3/M4A/WAV/FLAC/OGG/Opus/AIFF/WMA): every
//! format converts to every other one.
use crate::ext::{
    ext_name, ext_names, ext_strs, lemma_parse_ext_name, lemma_parse_ext_sound, parse_ext, parse_ext_chars, str_views, Ext,
};
use crate::convert::error::ConvertError;
use crate::convert::naming::{path_extension, path_extension_of};
use crate::convert::{contains_str, string_views};
use crate::text::{
    ascii_lower, ascii_lowercase, chars_of, push_all, push_str, str_is, string_from_chars,
    suffix_within, suffix_within_chars, trim, trim_chars,
};
use vstd::prelude::*;

verus! {

/// The targets offered for a source extension (after canonicalization).
pub open spec fn audio_targets(e: Option<Ext>) -> Seq<Ext> {
    match e {
        Some(Ext::Mp3) => seq![Ext::M4a, Ext::Wav, Ext::Flac, Ext::Ogg, Ext::Opus, Ext::Aiff, Ext::Wma],
        Some(Ext::M4a) => seq![Ext::Mp3, Ext::Wav, Ext::Flac, Ext::Ogg, Ext::Opus, Ext::Aiff, Ext::Wma],
        Some(Ext::Wav) => seq![Ext::Mp3, Ext::M4a, Ext::Flac, Ext::Ogg, Ext::Opus, Ext::Aiff, Ext::Wma],
        Some(Ext::Flac) => seq![Ext::Mp3, Ext::M4a, Ext::Wav, Ext::Ogg, Ext::Opus, Ext::Aiff, Ext::Wma],
        Some(Ext::Ogg) => seq![Ext::Mp3, Ext::M4a, Ext::Wav, Ext::Flac, Ext::Opus, Ext::Aiff, Ext::Wma],
        Some(Ext::Opus) => seq![Ext::Mp3, Ext::M4a, Ext::Wav, Ext::Flac, Ext::Ogg, Ext::Aiff, Ext::Wma],
        Some(Ext::Aiff) => seq![Ext::Mp3, Ext::M4a, Ext::Wav, Ext::Flac, Ext::Ogg, Ext::Opus, Ext::Wma],
        Some(Ext::Wma) => seq![Ext::Mp3, Ext::M4a, Ext::Wav, Ext::Flac, Ext::Ogg, Ext::Opus, Ext::Aiff],
        _ => seq![],
    }
}

fn audio_targets_of(e: Option<Ext>) -> (r: Vec<Ext>)
    ensures
        r@ == audio_targets(e),
{
    match e {
        Some(Ext::Mp3) => vec![Ext::M4a, Ext::Wav, Ext::Flac, Ext::Ogg, Ext::Opus, Ext::Aiff, Ext::Wma],
        Some(Ext::M4a) => vec![Ext::Mp3, Ext::Wav, Ext::Flac, Ext::Ogg, Ext::Opus, Ext::Aiff, Ext::Wma],
        Some(Ext::Wav) => vec![Ext::Mp3, Ext::M4a, Ext::Flac, Ext::Ogg, Ext::Opus, Ext::Aiff, Ext::Wma],
        Some(Ext::Flac) => vec![Ext::Mp3, Ext::M4a, Ext::Wav, Ext::Ogg, Ext::Opus, Ext::Aiff, Ext::Wma],
        Some(Ext::Ogg) => vec![Ext::Mp3, Ext::M4a, Ext::Wav, Ext::Flac, Ext::Opus, Ext::Aiff, Ext::Wma],
        Some(Ext::Opus) => vec![Ext::Mp3, Ext::M4a, Ext::Wav, Ext::Flac, Ext::Ogg, Ext::Aiff, Ext::Wma],
        Some(Ext::Aiff) => vec![Ext::Mp3, Ext::M4a, Ext::Wav, Ext::Flac, Ext::Ogg, Ext::Opus, Ext::Wma],
        Some(Ext::Wma) => vec![Ext::Mp3, Ext::M4a, Ext::Wav, Ext::Flac, Ext::Ogg, Ext::Opus, Ext::Aiff],
        _ => vec![],
    }
}

/// Every audio extension, in the canonical spelling used for targets
/// (`aiff`, never `aif`).
pub open spec fn audio_formats() -> Seq<Ext> {
    seq![Ext::Mp3, Ext::M4a, Ext::Wav, Ext::Flac, Ext::Ogg, Ext::Opus, Ext::Aiff, Ext::Wma]
}

/// Maps an ASCII-lower-cased spelling to its canonical audio format: `aif`
/// becomes `aiff`, and anything outside the audio set has none.
pub open spec fn audio_canonical(lower: Seq<char>) -> Option<Ext> {
    match parse_ext(lower) {
        Some(Ext::Aif) => Some(Ext::Aiff),
        Some(e) => if audio_formats().contains(e) { Some(e) } else { None },
        None => None,
    }
}

/// The targets `supported_targets` lists for the spelling `s`.
pub open spec fn spec_audio_targets(s: Seq<char>) -> Seq<Seq<char>> {
    ext_names(audio_targets(audio_canonical(ascii_lower(s))))
}

/// The canonical audio format of `source_ext` (compared ASCII
/// case-insensitively, `aif` read as `aiff`), if it is one.
pub fn canonicalize(source_ext: &str) -> (r: Option<Ext>)
    ensures
        r == audio_canonical(ascii_lower(source_ext@)),
{
    let chars = chars_of(source_ext);
    let lower = ascii_lowercase(&chars);
    match parse_ext_chars(&lower) {
        Some(Ext::Aif) => Some(Ext::Aiff),
        Some(Ext::Mp3) => Some(Ext::Mp3),
        Some(Ext::M4a) => Some(Ext::M4a),
        Some(Ext::Wav) => Some(Ext::Wav),
        Some(Ext::Flac) => Some(Ext::Flac),
        Some(Ext::Ogg) => Some(Ext::Ogg),
        Some(Ext::Opus) => Some(Ext::Opus),
        Some(Ext::Aiff) => Some(Ext::Aiff),
        Some(Ext::Wma) => Some(Ext::Wma),
        _ => None,
    }
}

/// Extensions this family can produce from `source_ext`, excluding
/// `source_ext` itself.
pub fn supported_targets(source_ext: &str) -> (r: Vec<&'static str>)
    ensures
        str_views(r@) == spec_audio_targets(source_ext@),
{
    let targets = audio_targets_of(canonicalize(source_ext));
    ext_strs(&targets)
}

/// The FFmpeg codec arguments for an (ASCII-lower-cased) audio target.
pub open spec fn audio_codec_args(t: Seq<char>) -> Seq<Seq<char>> {
    if t == "mp3"@ {
        seq!["-c:a"@, "libmp3lame"@]
    } else if t == "m4a"@ {
        seq!["-c:a"@, "aac"@, "-f"@, "ipod"@]
    } else if t == "wav"@ {
        seq!["-c:a"@, "pcm_s16le"@]
    } else if t == "flac"@ {
        seq!["-c:a"@, "flac"@]
    } else if t == "ogg"@ {
        seq!["-c:a"@, "libvorbis"@]
    } else if t == "opus"@ {
        seq!["-c:a"@, "libopus"@]
    } else if t == "aiff"@ {
        seq!["-c:a"@, "pcm_s16be"@]
    } else if t == "wma"@ {
        seq!["-c:a"@, "wmav2"@]
    } else {
        Seq::empty()
    }
}

/// The FFmpeg codec arguments for the audio target `target`.
pub fn codec_args(target: &str) -> (r: Vec<&'static str>)
    ensures
        str_views(r@) == audio_codec_args(target@),
{
    let r: Vec<&'static str> = if str_is(target, "mp3") {
        vec!["-c:a", "libmp3lame"]
    } else if str_is(target, "m4a") {
        vec!["-c:a", "aac", "-f", "ipod"]
    } else if str_is(target, "wav") {
        vec!["-c:a", "pcm_s16le"]
    } else if str_is(target, "flac") {
        vec!["-c:a", "flac"]
    } else if str_is(target, "ogg") {
        vec!["-c:a", "libvorbis"]
    } else if str_is(target, "opus") {
        vec!["-c:a", "libopus"]
    } else if str_is(target, "aiff") {
        vec!["-c:a", "pcm_s16be"]
    } else if str_is(target, "wma") {
        vec!["-c:a", "wmav2"]
    } else {
        vec![]
    };
    proof {
        assert(str_views(r@) =~= audio_codec_args(target@));
    }
    r
}

/// The whole FFmpeg argument list converting `source` to `destination`:
/// overwrite, the input, no video, the codec settings, the output.
pub open spec fn spec_audio_args(t: Seq<char>, source: Seq<char>, destination: Seq<char>) -> Seq<Seq<char>> {
    seq!["-y"@, "-i"@, source, "-vn"@] + audio_codec_args(t) + seq![destination]
}

/// Checks an audio conversion and builds its FFmpeg arguments: the target
/// and the source's extension (empty when it has none) are ASCII
/// lower-cased, the target must be one the source's format offers, and the
/// source must be a file (`source_is_file`, as the caller found on disk).
pub fn plan(source: &str, target_extension: &str, destination: &str, source_is_file: bool) -> (r: Result<Vec<String>, ConvertError>)
    ensures
        ({
            let x = ascii_lower(match path_extension(source@) {
                Some(e) => e,
                None => Seq::empty(),
            });
            let t = ascii_lower(target_extension@);
            if !spec_audio_targets(x).contains(t) {
                r matches Err(ConvertError::UnsupportedConversion { from, to }) && from@ == x && to@ == t
            } else if !source_is_file {
                r matches Err(ConvertError::InvalidSource(d)) && d@ == "not a file: "@ + source@
            } else {
                r matches Ok(args) && string_views(args@) == spec_audio_args(t, source@, destination@)
            }
        }),
{
    let tc = chars_of(target_extension);
    let target = string_from_chars(&ascii_lowercase(&tc));
    let raw = match path_extension_of(source) {
        None => String::new(),
        Some(x) => x,
    };
    let rc = chars_of(raw.as_str());
    let ext = string_from_chars(&ascii_lowercase(&rc));
    let offered = supported_targets(ext.as_str());
    proof {
        crate::text::lemma_ascii_lower_idempotent(ext@);
    }
    if !contains_str(&offered, target.as_str()) {
        return Err(ConvertError::UnsupportedConversion { from: ext, to: target });
    }
    if !source_is_file {
        let mut d = chars_of("not a file: ");
        push_str(&mut d, source);
        return Err(ConvertError::InvalidSource(string_from_chars(&d)));
    }
    let mut args: Vec<String> = Vec::new();
    args.push("-y".to_owned());
    args.push("-i".to_owned());
    args.push(source.to_owned());
    args.push("-vn".to_owned());
    let codec = codec_args(target.as_str());
    for i in 0..codec.len()
        invariant
            string_views(args@) == seq!["-y"@, "-i"@, source@, "-vn"@] + str_views(codec@).take(i as int),
    {
        let ghost before = args@;
        let c = codec[i].to_owned();
        args.push(c);
        proof {
            assert(string_views(args@) =~= string_views(before).push(codec@[i as int]@));
            assert(str_views(codec@).take(i + 1) =~= str_views(codec@).take(i as int).push(codec@[i as int]@));
        }
    }
    proof {
        assert(str_views(codec@).take(codec@.len() as int) =~= str_views(codec@));
    }
    let ghost mid = string_views(args@);
    args.push(destination.to_owned());
    proof {
        assert(string_views(args@) =~= mid.push(destination@));
    }
    Ok(args)
}

/// What a failed audio conversion reports: FFmpeg's output trimmed of
/// surrounding white space, cut to its last 500 characters behind `...`
/// when longer, or a fixed note when it is empty.
pub open spec fn spec_trimmed_tail(output: Seq<char>) -> Seq<char> {
    let t = trim(output);
    if t.len() == 0 {
        "FFmpeg exited with an error and produced no output"@
    } else if t.len() <= 500 {
        t
    } else {
        "..."@ + suffix_within(t, 500)
    }
}

/// Builds the error detail for a failed audio conversion from FFmpeg's
/// captured output.
pub fn trimmed_tail(output: &str) -> (r: String)
    ensures
        r@ == spec_trimmed_tail(output@),
{
    let v = chars_of(output);
    let t = trim_chars(&v);
    if t.len() == 0 {
        return "FFmpeg exited with an error and produced no output".to_owned();
    }
    if t.len() <= 500 {
        return string_from_chars(&t);
    }
    let tail = suffix_within_chars(&t, 500);
    let mut m = chars_of("...");
    push_all(&mut m, &tail);
    string_from_chars(&m)
}

/// An audio source is never offered its own format, under either spelling
/// of AIFF; every audio format offers the other seven.
pub proof fn lemma_audio_targets_exclude_source(s: Seq<char>)
    ensures
        !spec_audio_targets(s).contains(ascii_lower(s)),
        audio_canonical(ascii_lower(s)) is Some ==> spec_audio_targets(s).len() == 7,
        audio_canonical(ascii_lower(s)) == Some(Ext::Aiff) ==> !spec_audio_targets(s).contains(ext_name(Ext::Aiff)),
{
}

/// Each audio target is written with its own encoder: MP3 with LAME,
/// M4A with AAC in the iPod (MP4) muxer, WAV and AIFF as 16-bit PCM in
/// their byte orders, FLAC, Ogg Vorbis, Opus and WMA v2; any other target
/// gets no codec arguments.
pub proof fn lemma_audio_codecs(t: Seq<char>)
    ensures
        audio_codec_args("mp3"@) == seq!["-c:a"@, "libmp3lame"@],
        audio_codec_args("m4a"@) == seq!["-c:a"@, "aac"@, "-f"@, "ipod"@],
        audio_codec_args("wav"@) == seq!["-c:a"@, "pcm_s16le"@],
        audio_codec_args("flac"@) == seq!["-c:a"@, "flac"@],
        audio_codec_args("ogg"@) == seq!["-c:a"@, "libvorbis"@],
        audio_codec_args("opus"@) == seq!["-c:a"@, "libopus"@],
        audio_codec_args("aiff"@) == seq!["-c:a"@, "pcm_s16be"@],
        audio_codec_args("wma"@) == seq!["-c:a"@, "wmav2"@],
        t != "mp3"@ && t != "m4a"@ && t != "wav"@ && t != "flac"@ && t != "ogg"@ && t != "opus"@ && t
            != "aiff"@ && t != "wma"@ ==> audio_codec_args(t) == Seq::<Seq<char>>::empty(),
{
    reveal_strlit("mp3");
    reveal_strlit("m4a");
    reveal_strlit("wav");
    reveal_strlit("flac");
    reveal_strlit("ogg");
    reveal_strlit("opus");
    reveal_strlit("aiff");
    reveal_strlit("wma");
    assert("mp3"@ =~= seq!['m', 'p', '3']);
    assert("m4a"@ =~= seq!['m', '4', 'a']);
    assert("wav"@ =~= seq!['w', 'a', 'v']);
    assert("flac"@ =~= seq!['f', 'l', 'a', 'c']);
    assert("ogg"@ =~= seq!['o', 'g', 'g']);
    assert("opus"@ =~= seq!['o', 'p', 'u', 's']);
    assert("aiff"@ =~= seq!['a', 'i', 'f', 'f']);
    assert("wma"@ =~= seq!['w', 'm', 'a']);
}

proof fn lemma_audio_row(i: int)
    requires
        0 <= i < 8,
    ensures
        audio_targets(Some(audio_formats()[i])) == audio_formats().remove(i),
{
    let v = audio_formats();
    assert(v.remove(i) =~= v.subrange(0, i) + v.subrange(i + 1, 8));
    if i == 0 {
        assert(audio_targets(Some(v[i])) =~= v.remove(i));
    } else if i == 1 {
        assert(audio_targets(Some(v[i])) =~= v.remove(i));
    } else if i == 2 {
        assert(audio_targets(Some(v[i])) =~= v.remove(i));
    } else if i == 3 {
        assert(audio_targets(Some(v[i])) =~= v.remove(i));
    } else if i == 4 {
        assert(audio_targets(Some(v[i])) =~= v.remove(i));
    } else if i == 5 {
        assert(audio_targets(Some(v[i])) =~= v.remove(i));
    } else if i == 6 {
        assert(audio_targets(Some(v[i])) =~= v.remove(i));
    } else {
        assert(audio_targets(Some(v[i])) =~= v.remove(i));
    }
}

/// Every audio format converts to every other one and to nothing else,
/// listed in [`audio_formats`] order.
pub proof fn lemma_audio_target_matrix()
    ensures
        forall|i: int| 0 <= i < audio_formats().len() ==> #[trigger] audio_targets(Some(audio_formats()[i])) == audio_formats().remove(i),
{
    assert forall|i: int| 0 <= i < audio_formats().len() implies #[trigger] audio_targets(Some(audio_formats()[i])) == audio_formats().remove(i) by {
        lemma_audio_row(i);
    }
}

/// Each audio format's own spelling reads as that format, `aif` reads as
/// AIFF, and no other spelling is an audio format.
pub proof fn lemma_audio_canonical(lower: Seq<char>)
    ensures
        forall|i: int| 0 <= i < audio_formats().len() ==> audio_canonical(ext_name(#[trigger] audio_formats()[i])) == Some(audio_formats()[i]),
        audio_canonical(ext_name(Ext::Aif)) == Some(Ext::Aiff),
        audio_canonical(lower) is Some ==> lower == ext_name(Ext::Aif) || exists|i: int|
            0 <= i < audio_formats().len() && lower == ext_name(#[trigger] audio_formats()[i]),
{
    assert forall|i: int| 0 <= i < audio_formats().len() implies audio_canonical(ext_name(#[trigger] audio_formats()[i])) == Some(audio_formats()[i]) by {
        lemma_parse_ext_name(audio_formats()[i]);
    }
    lemma_parse_ext_name(Ext::Aif);
    lemma_parse_ext_sound(lower);
    if let Some(e) = audio_canonical(lower) {
        if parse_ext(lower) != Some(Ext::Aif) {
            let i = choose|i: int| 0 <= i < audio_formats().len() && audio_formats()[i] == e;
            assert(lower == ext_name(audio_formats()[i]));
        }
    }
}

} // verus!
