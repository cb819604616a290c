//! The conversion engine's decisions: which targets each source format
//! offers, how outputs are named, and the shared error type.
pub mod archive;
pub mod archive_read;
pub mod archive_write;
pub mod audio;
pub mod document;
pub mod image;
pub mod video;
pub mod error;
pub mod naming;
pub mod rar5;
pub mod subtitles;
pub mod layout;
pub mod docx;
pub mod progress;
pub mod text_image;

use crate::file_type::{extension_of, spec_detect_category, spec_extension_of, detect_category, FileCategory};
use crate::text::{chars_of, push_all, push_str, string_from_chars, to_lowercase, unicode_lowercase};
use crate::convert::error::ConvertError;
use crate::convert::naming::{output_path, parent_prefix, placed_at, source_stem};
use crate::ext::str_views;
use vstd::prelude::*;

verus! {

/// The targets a lower-cased extension offers, by the category of
/// `"f.<ext>"`.
pub open spec fn spec_family_targets(x: Seq<char>) -> Seq<Seq<char>> {
    match spec_detect_category(seq!['f', '.'] + x) {
        FileCategory::Image => image::spec_image_targets(x),
        FileCategory::Video => video::spec_video_targets(x),
        FileCategory::Audio => audio::spec_audio_targets(x),
        FileCategory::Document => document::spec_document_targets(x),
        FileCategory::Archive => archive::spec_archive_targets(x),
        FileCategory::Unknown => seq![],
    }
}

/// The targets `supported_targets` lists for a path.
pub open spec fn spec_supported_targets(p: Seq<char>) -> Seq<Seq<char>> {
    match spec_extension_of(p) {
        None => seq![],
        Some(x) => spec_family_targets(x),
    }
}

/// Keeps the entries of `common` that also occur in `other`, in order.
pub open spec fn keep_common(common: Seq<Seq<char>>, other: Seq<Seq<char>>) -> Seq<Seq<char>> {
    common.filter(|t: Seq<char>| other.contains(t))
}

/// The targets every path of `paths` can convert to: the first path's
/// targets, narrowed by each later path's in turn.
pub open spec fn spec_selection_targets(paths: Seq<Seq<char>>) -> Seq<Seq<char>>
    decreases paths.len(),
{
    if paths.len() == 0 {
        seq![]
    } else if paths.len() == 1 {
        spec_supported_targets(paths[0])
    } else {
        keep_common(spec_selection_targets(paths.drop_last()), spec_supported_targets(paths.last()))
    }
}

/// A target offered for a selection is offered for every path in it.
proof fn lemma_selection_targets_shared(paths: Seq<Seq<char>>)
    ensures
        forall|t: Seq<char>, i: int|
            0 <= i < paths.len() && #[trigger] spec_selection_targets(paths).contains(t) ==> #[trigger] spec_supported_targets(
                paths[i],
            ).contains(t),
    decreases paths.len(),
{
    if paths.len() > 1 {
        let prev = paths.drop_last();
        lemma_selection_targets_shared(prev);
        let cur = spec_selection_targets(paths);
        let before = spec_selection_targets(prev);
        let last = spec_supported_targets(paths.last());
        assert forall|t: Seq<char>, i: int|
            0 <= i < paths.len() && #[trigger] cur.contains(t) implies #[trigger] spec_supported_targets(
                paths[i],
            ).contains(t) by {
            let pred = |x: Seq<char>| last.contains(x);
            assert(cur == before.filter(pred));
            before.lemma_filter_contains_rev(pred, t);
            let k = cur.index_of(t);
            before.lemma_filter_pred(pred, k);
            if i < paths.len() - 1 {
                assert(paths[i] == prev[i]);
            }
        }
    }
}

/// A target every path of a selection offers is offered for the selection.
proof fn lemma_selection_targets_include_common(paths: Seq<Seq<char>>, t: Seq<char>)
    requires
        paths.len() > 0,
        forall|i: int| 0 <= i < paths.len() ==> #[trigger] spec_supported_targets(paths[i]).contains(t),
    ensures
        spec_selection_targets(paths).contains(t),
    decreases paths.len(),
{
    if paths.len() > 1 {
        let prev = paths.drop_last();
        assert forall|i: int| 0 <= i < prev.len() implies #[trigger] spec_supported_targets(prev[i]).contains(t) by {
            assert(prev[i] == paths[i]);
            assert(spec_supported_targets(paths[i]).contains(t));
        }
        lemma_selection_targets_include_common(prev, t);
        let before = spec_selection_targets(prev);
        let last = spec_supported_targets(paths.last());
        assert(last.contains(t)) by {
            assert(spec_supported_targets(paths[paths.len() - 1]).contains(t));
        }
        let pred = |x: Seq<char>| last.contains(x);
        let k = before.index_of(t);
        before.lemma_filter_contains(pred, k);
    } else {
        assert(spec_supported_targets(paths[0]).contains(t));
    }
}

/// For a non-empty selection, a target is offered exactly when every path
/// in the selection offers it on its own.
pub proof fn lemma_selection_targets_common(paths: Seq<Seq<char>>, t: Seq<char>)
    requires
        paths.len() > 0,
    ensures
        spec_selection_targets(paths).contains(t) <==> forall|i: int|
            0 <= i < paths.len() ==> #[trigger] spec_supported_targets(paths[i]).contains(t),
{
    lemma_selection_targets_shared(paths);
    if forall|i: int| 0 <= i < paths.len() ==> #[trigger] spec_supported_targets(paths[i]).contains(t) {
        lemma_selection_targets_include_common(paths, t);
    }
}

proof fn lemma_filter_filter(s: Seq<Seq<char>>, p: spec_fn(Seq<char>) -> bool, q: spec_fn(Seq<char>) -> bool, r: spec_fn(Seq<char>) -> bool)
    requires
        forall|x: Seq<char>| #[trigger] r(x) == (p(x) && q(x)),
    ensures
        s.filter(p).filter(q) == s.filter(r),
    decreases s.len(),
{
    if s.len() == 0 {
        reveal(Seq::filter);
        assert(s.filter(p) =~= s);
        assert(s.filter(p).filter(q) =~= s.filter(p));
    } else {
        let init = s.drop_last();
        let x = s.last();
        lemma_filter_filter(init, p, q, r);
        assert(init.push(x) =~= s);
        init.lemma_filter_push(x, p);
        init.lemma_filter_push(x, r);
        init.filter(p).lemma_filter_push(x, q);
        assert(r(x) == (p(x) && q(x)));
    }
}

proof fn lemma_filter_all(s: Seq<Seq<char>>, p: spec_fn(Seq<char>) -> bool)
    requires
        forall|i: int| 0 <= i < s.len() ==> p(#[trigger] s[i]),
    ensures
        s.filter(p) == s,
    decreases s.len(),
{
    if s.len() == 0 {
        reveal(Seq::filter);
    } else {
        let init = s.drop_last();
        assert forall|i: int| 0 <= i < init.len() implies p(#[trigger] init[i]) by {
            assert(init[i] == s[i]);
        }
        lemma_filter_all(init, p);
        assert(init.push(s.last()) =~= s);
        init.lemma_filter_push(s.last(), p);
        assert(p(s[s.len() - 1]));
    }
}

/// Whether every path of `paths` offers the target `t` on its own.
pub open spec fn offered_by_all(paths: Seq<Seq<char>>, t: Seq<char>) -> bool {
    forall|i: int| 0 <= i < paths.len() ==> #[trigger] spec_supported_targets(paths[i]).contains(t)
}

/// For a non-empty selection, the targets offered are the first path's
/// targets, in their order, narrowed to those every path offers.
pub proof fn lemma_selection_is_first_narrowed(paths: Seq<Seq<char>>)
    requires
        paths.len() > 0,
    ensures
        spec_selection_targets(paths) == spec_supported_targets(paths[0]).filter(
            |t: Seq<char>| offered_by_all(paths, t),
        ),
    decreases paths.len(),
{
    let first = spec_supported_targets(paths[0]);
    let all = |t: Seq<char>| offered_by_all(paths, t);
    if paths.len() == 1 {
        assert forall|i: int| 0 <= i < first.len() implies all(#[trigger] first[i]) by {
            assert(first.contains(first[i]));
            assert forall|k: int| 0 <= k < paths.len() implies #[trigger] spec_supported_targets(paths[k]).contains(
                first[i],
            ) by {
                assert(k == 0);
            }
        }
        lemma_filter_all(first, all);
    } else {
        let prev = paths.drop_last();
        lemma_selection_is_first_narrowed(prev);
        assert(prev[0] == paths[0]);
        let before = |t: Seq<char>| offered_by_all(prev, t);
        let last = spec_supported_targets(paths.last());
        let in_last = |t: Seq<char>| last.contains(t);
        assert forall|t: Seq<char>| #[trigger] all(t) == (before(t) && in_last(t)) by {
            if all(t) {
                assert forall|k: int| 0 <= k < prev.len() implies #[trigger] spec_supported_targets(prev[k]).contains(t) by {
                    assert(prev[k] == paths[k]);
                    assert(spec_supported_targets(paths[k]).contains(t));
                }
                assert(spec_supported_targets(paths[paths.len() - 1]).contains(t));
            }
            if before(t) && in_last(t) {
                assert forall|k: int| 0 <= k < paths.len() implies #[trigger] spec_supported_targets(paths[k]).contains(t) by {
                    if k < prev.len() {
                        assert(prev[k] == paths[k]);
                        assert(spec_supported_targets(prev[k]).contains(t));
                    }
                }
            }
        }
        lemma_filter_filter(first, before, in_last, all);
        assert(spec_selection_targets(paths) == keep_common(spec_selection_targets(prev), last));
    }
}

/// The family targets of a lower-cased extension, dispatched by the
/// category of `"f.<ext>"`.
pub fn family_targets(source_ext: &str) -> (r: Vec<&'static str>)
    ensures
        str_views(r@) == spec_family_targets(source_ext@),
{
    let mut probe: Vec<char> = vec!['f', '.'];
    let ext_chars = chars_of(source_ext);
    push_all(&mut probe, &ext_chars);
    let probe_str = string_from_chars(&probe);
    match detect_category(probe_str.as_str()) {
        FileCategory::Image => image::supported_targets(source_ext),
        FileCategory::Video => video::supported_targets(source_ext),
        FileCategory::Audio => audio::supported_targets(source_ext),
        FileCategory::Document => document::supported_targets(source_ext),
        FileCategory::Archive => archive::supported_targets(source_ext),
        FileCategory::Unknown => {
            let r: Vec<&'static str> = Vec::new();
            proof {
                assert(str_views(r@) =~= seq![]);
            }
            r
        },
    }
}

/// The target extensions the file path `p` offers, read from its name.
fn path_targets(p: &str) -> (r: Vec<&'static str>)
    ensures
        str_views(r@) == spec_supported_targets(p@),
{
    match extension_of(p) {
        None => {
            let r: Vec<&'static str> = Vec::new();
            proof {
                assert(str_views(r@) =~= seq![]);
            }
            r
        },
        Some(ext) => family_targets(ext.as_str()),
    }
}

/// The target extensions `source_path` can be converted to, already
/// excluding its own extension: empty for a directory (`is_directory`, as
/// the caller found on disk), an extensionless path or an unrecognized
/// format.
pub fn supported_targets(source_path: &str, is_directory: bool) -> (r: Vec<&'static str>)
    ensures
        is_directory ==> r@.len() == 0,
        !is_directory ==> str_views(r@) == spec_supported_targets(source_path@),
{
    if is_directory {
        return Vec::new();
    }
    path_targets(source_path)
}

/// The views of a slice of strings.
pub open spec fn string_views(v: Seq<String>) -> Seq<Seq<char>> {
    v.map_values(|s: String| s@)
}

/// Whether some entry of `v` spells `s`.
pub fn contains_str(v: &Vec<&'static str>, s: &str) -> (r: bool)
    ensures
        r == str_views(v@).contains(s@),
{
    for i in 0..v.len()
        invariant
            forall|j: int| 0 <= j < i ==> str_views(v@)[j] != s@,
    {
        if crate::text::str_is(v[i], s) {
            proof {
                assert(str_views(v@)[i as int] == s@);
            }
            return true;
        }
    }
    false
}

/// Keeps the entries of `common` that also occur in `other`.
fn retain_common(common: &Vec<&'static str>, other: &Vec<&'static str>) -> (r: Vec<&'static str>)
    ensures
        str_views(r@) == keep_common(str_views(common@), str_views(other@)),
{
    let ghost pred = |t: Seq<char>| str_views(other@).contains(t);
    let mut r: Vec<&'static str> = Vec::new();
    for i in 0..common.len()
        invariant
            pred == (|t: Seq<char>| str_views(other@).contains(t)),
            str_views(r@) == str_views(common@).take(i as int).filter(pred),
    {
        let ghost before = r@;
        let keep = contains_str(other, common[i]);
        if keep {
            r.push(common[i]);
        }
        proof {
            let cs = str_views(common@);
            assert(cs.take(i + 1) =~= cs.take(i as int).push(cs[i as int]));
            cs.take(i as int).lemma_filter_push(cs[i as int], pred);
            if keep {
                assert(str_views(r@) =~= str_views(before).push(common@[i as int]@));
            } else {
                assert(r@ == before);
            }
        }
    }
    proof {
        assert(str_views(common@).take(common@.len() as int) =~= str_views(common@));
    }
    r
}

/// Once the common targets are empty they stay empty.
proof fn lemma_selection_empty_stays_empty(paths: Seq<Seq<char>>, i: int)
    requires
        1 <= i <= paths.len(),
        spec_selection_targets(paths.take(i)).len() == 0,
    ensures
        spec_selection_targets(paths).len() == 0,
    decreases paths.len() - i,
{
    if i < paths.len() {
        let next = paths.take(i + 1);
        assert(next.drop_last() =~= paths.take(i));
        let pred = |t: Seq<char>| spec_supported_targets(next.last()).contains(t);
        spec_selection_targets(paths.take(i)).lemma_filter_len(pred);
        lemma_selection_empty_stays_empty(paths, i + 1);
    } else {
        assert(paths.take(i) =~= paths);
    }
}

/// The target extensions several selected files can all convert to: the
/// intersection of each file's own [`supported_targets`], in the first
/// file's order; empty for an empty selection or when any file shares no
/// target with the others.
pub fn supported_targets_for_selection(source_paths: &[String]) -> (r: Vec<&'static str>)
    ensures
        str_views(r@) == spec_selection_targets(string_views(source_paths@)),
{
    let ghost paths = string_views(source_paths@);
    if source_paths.len() == 0 {
        let r: Vec<&'static str> = Vec::new();
        proof {
            assert(str_views(r@) =~= seq![]);
        }
        return r;
    }
    let mut common = path_targets(source_paths[0].as_str());
    proof {
        assert(paths.take(1).len() == 1);
        assert(paths.take(1)[0] == paths[0]);
    }
    let mut i: usize = 1;
    while i < source_paths.len()
        invariant
            1 <= i <= source_paths@.len(),
            paths == string_views(source_paths@),
            str_views(common@) == spec_selection_targets(paths.take(i as int)),
        decreases source_paths@.len() - i,
    {
        let targets = path_targets(source_paths[i].as_str());
        common = retain_common(&common, &targets);
        proof {
            let next = paths.take(i + 1);
            assert(next.drop_last() =~= paths.take(i as int));
            assert(next.last() == source_paths@[i as int]@);
        }
        i = i + 1;
        if common.len() == 0 {
            proof {
                lemma_selection_empty_stays_empty(paths, i as int);
                assert(str_views(common@) =~= spec_selection_targets(paths));
            }
            return common;
        }
    }
    proof {
        assert(paths.take(i as int) =~= paths);
    }
    common
}

/// The engine a conversion is handed to.
#[derive(Clone, Copy, Debug, PartialEq, Eq, Structural)]
pub enum Engine {
    /// PDF/DOCX/TXT/subtitle conversions, and JPG/PNG exported to PDF/DOCX.
    Document,
    /// Raster image conversions.
    Image,
    /// Video conversions (through FFmpeg).
    Video,
    /// Audio conversions (through FFmpeg).
    Audio,
    /// Archive conversions.
    Archive,
}

/// The engine a source of category `c` converting to `t` is routed to.
pub open spec fn engine_for(c: FileCategory, t: Seq<char>) -> Option<Engine> {
    match c {
        FileCategory::Image => if t == seq!['p', 'd', 'f'] || t == seq!['d', 'o', 'c', 'x'] {
            Some(Engine::Document)
        } else {
            Some(Engine::Image)
        },
        FileCategory::Video => Some(Engine::Video),
        FileCategory::Audio => Some(Engine::Audio),
        FileCategory::Document => Some(Engine::Document),
        FileCategory::Archive => Some(Engine::Archive),
        FileCategory::Unknown => None,
    }
}

/// Routes a conversion of `source` to `target_extension`: checks that the
/// source has an extension and is a file (`source_is_file`, as the caller
/// found on disk), that the target is one the source's format offers, and
/// that FFmpeg is available (`ffmpeg_available`) for a video or audio
/// source; then names the collision-safe destination next to the source
/// (`existing` lists the names already in its directory) and picks the
/// engine.
pub fn plan_conversion(
    source: &str,
    target_extension: &str,
    source_is_file: bool,
    ffmpeg_available: bool,
    existing: &[String],
) -> (r: Result<(Engine, String), ConvertError>)
    requires
        existing@.len() + 2 <= usize::MAX,
    ensures
        match spec_extension_of(source@) {
            None => r matches Err(ConvertError::InvalidSource(d)) && d@ == "source file has no extension"@,
            Some(x) => {
                let t = unicode_lowercase(target_extension@);
                if !source_is_file {
                    r matches Err(ConvertError::InvalidSource(d)) && d@ == "not a file: "@ + source@
                } else if !spec_family_targets(x).contains(t) {
                    r matches Err(ConvertError::UnsupportedConversion { from, to }) && from@ == x && to@ == t
                } else {
                    match engine_for(spec_detect_category(source@), t) {
                        None => r matches Err(ConvertError::InvalidSource(d)) && d@
                            == "unrecognized source format"@,
                        Some(e) => if (e == Engine::Video || e == Engine::Audio) && !ffmpeg_available {
                            r matches Err(ConvertError::EngineUnavailable(d)) && d@
                                == "FFmpeg sidecar not found"@
                        } else {
                            r matches Ok((eng, dest)) && eng == e && placed_at(
                                string_views(existing@),
                                parent_prefix(source@),
                                source_stem(source@) + seq!['.'] + t,
                                dest@,
                            )
                        },
                    }
                }
            },
        },
        spec_detect_category(source@) == FileCategory::Image ==> (r matches Ok((eng, _)) ==> (eng == Engine::Document
            <==> (unicode_lowercase(target_extension@) == seq!['p', 'd', 'f'] || unicode_lowercase(target_extension@)
            == seq!['d', 'o', 'c', 'x']))),
{
    let ext = match extension_of(source) {
        None => return Err(ConvertError::InvalidSource("source file has no extension".to_owned())),
        Some(x) => x,
    };
    if !source_is_file {
        let mut d = chars_of("not a file: ");
        push_str(&mut d, source);
        return Err(ConvertError::InvalidSource(string_from_chars(&d)));
    }
    let target = to_lowercase(target_extension);
    let offered = family_targets(ext.as_str());
    if !contains_str(&offered, target.as_str()) {
        return Err(ConvertError::UnsupportedConversion { from: ext, to: target });
    }
    let destination = output_path(source, target.as_str(), existing);
    let engine = match detect_category(source) {
        FileCategory::Image => {
            proof {
                reveal_strlit("pdf");
                reveal_strlit("docx");
                assert("pdf"@ =~= seq!['p', 'd', 'f']);
                assert("docx"@ =~= seq!['d', 'o', 'c', 'x']);
            }
            if crate::text::str_is(target.as_str(), "pdf") || crate::text::str_is(target.as_str(), "docx") {
                Engine::Document
            } else {
                Engine::Image
            }
        },
        FileCategory::Video => Engine::Video,
        FileCategory::Audio => Engine::Audio,
        FileCategory::Document => Engine::Document,
        FileCategory::Archive => Engine::Archive,
        FileCategory::Unknown => {
            return Err(ConvertError::InvalidSource("unrecognized source format".to_owned()));
        },
    };
    if (engine == Engine::Video || engine == Engine::Audio) && !ffmpeg_available {
        return Err(ConvertError::EngineUnavailable("FFmpeg sidecar not found".to_owned()));
    }
    Ok((engine, destination))
}

/// Each category goes to its own engine, except that an image exported
/// to `pdf` or `docx` goes to the document engine; every other image
/// target stays with the image engine. Only an unknown source has none.
pub proof fn lemma_engine_routing(c: FileCategory, t: Seq<char>)
    ensures
        c == FileCategory::Image ==> (engine_for(c, t) == Some(Engine::Document) <==> (t == seq!['p', 'd', 'f']
            || t == seq!['d', 'o', 'c', 'x'])),
        c == FileCategory::Image ==> (engine_for(c, t) == Some(Engine::Image) <==> !(t == seq!['p', 'd', 'f']
            || t == seq!['d', 'o', 'c', 'x'])),
        c == FileCategory::Video ==> engine_for(c, t) == Some(Engine::Video),
        c == FileCategory::Audio ==> engine_for(c, t) == Some(Engine::Audio),
        c == FileCategory::Document ==> engine_for(c, t) == Some(Engine::Document),
        c == FileCategory::Archive ==> engine_for(c, t) == Some(Engine::Archive),
        engine_for(c, t) is None <==> c == FileCategory::Unknown,
{
}

} // verus!
