//! File-extension-based classification of a dropped or selected file into
//! image/video/audio/document/archive/unknown, which decides the wedge menu
//! the user is offered.
use crate::ext::{category_of, category_of_ext, parse_ext, parse_ext_chars};
use crate::text::{
    chars_of, find_last, last_index_of, lemma_last_index_of, string_from_chars, sub_chars,
    to_lowercase, unicode_lowercase,
};
use vstd::prelude::*;

verus! {

/// Broad category a file falls into.
#[derive(Clone, Copy, Debug, PartialEq, Eq, Structural)]
pub enum FileCategory {
    /// JPG/PNG/WebP/HEIC/HEIF/TIFF/AVIF/BMP/SVG.
    Image,
    /// MP4/MOV/MKV/WebM/AVI/WMV/GIF.
    Video,
    /// MP3/M4A/WAV/FLAC/OGG/Opus/AIFF/WMA.
    Audio,
    /// PDF plus the text/subtitle formats TXT/SRT/VTT.
    Document,
    /// ZIP/TAR/GZIP/RAR.
    Archive,
    /// No known extension, or no extension at all.
    Unknown,
}

/// A path separator on either platform.
pub open spec fn is_sep(c: char) -> bool {
    c == '/' || c == '\\'
}

/// Index of the last separator in `s`, or -1 when there is none.
pub open spec fn last_sep_index(s: Seq<char>) -> int
    decreases s.len(),
{
    if s.len() == 0 {
        -1
    } else if is_sep(s.last()) {
        s.len() - 1
    } else {
        last_sep_index(s.drop_last())
    }
}

/// The last component of `p`: everything after its last separator.
pub open spec fn file_name_part(p: Seq<char>) -> Seq<char> {
    p.subrange(last_sep_index(p) + 1, p.len() as int)
}

/// The raw (not yet lower-cased) extension of a path: the text after the
/// last dot of its last component, when that dot is neither the first nor
/// the last character of the component.
pub open spec fn raw_extension(p: Seq<char>) -> Option<Seq<char>> {
    let f = file_name_part(p);
    let d = last_index_of(f, '.');
    if d <= 0 || d == f.len() - 1 {
        None
    } else {
        Some(f.subrange(d + 1, f.len() as int))
    }
}

/// The lower-cased extension of a path, as `extension_of` returns it.
pub open spec fn spec_extension_of(p: Seq<char>) -> Option<Seq<char>> {
    match raw_extension(p) {
        None => None,
        Some(x) => Some(unicode_lowercase(x)),
    }
}

/// The category of an already lower-cased extension.
pub open spec fn category_of_name(x: Seq<char>) -> FileCategory {
    match parse_ext(x) {
        None => FileCategory::Unknown,
        Some(e) => category_of(e),
    }
}

/// The category `detect_category` assigns to a path.
pub open spec fn spec_detect_category(p: Seq<char>) -> FileCategory {
    match spec_extension_of(p) {
        None => FileCategory::Unknown,
        Some(x) => category_of_name(x),
    }
}

pub proof fn lemma_last_sep_index(s: Seq<char>)
    ensures
        -1 <= last_sep_index(s) < s.len(),
    decreases s.len(),
{
    if s.len() > 0 && !is_sep(s.last()) {
        lemma_last_sep_index(s.drop_last());
    }
}

/// Finds the last path separator in `v`.
fn find_last_sep(v: &Vec<char>) -> (r: Option<usize>)
    ensures
        match r {
            None => last_sep_index(v@) == -1,
            Some(i) => last_sep_index(v@) == i && i < v@.len(),
        },
{
    let mut i = v.len();
    proof {
        assert(v@.take(i as int) =~= v@);
    }
    while i > 0
        invariant
            i <= v@.len(),
            last_sep_index(v@.take(i as int)) == last_sep_index(v@),
        decreases i,
    {
        proof {
            assert(v@.take(i as int).drop_last() =~= v@.take(i - 1));
        }
        if v[i - 1] == '/' || v[i - 1] == '\\' {
            return Some(i - 1);
        }
        i = i - 1;
    }
    None
}

/// The raw extension of the path `p`, as characters.
fn raw_extension_chars(p: &Vec<char>) -> (r: Option<Vec<char>>)
    ensures
        match r {
            None => raw_extension(p@) is None,
            Some(x) => raw_extension(p@) == Some(x@),
        },
{
    proof {
        lemma_last_sep_index(p@);
    }
    let n = p.len();
    let found = find_last_sep(p);
    let start: usize = if let Some(i) = found {
        i + 1
    } else {
        0
    };
    let name = sub_chars(p, start, p.len());
    proof {
        lemma_last_index_of(name@, '.');
    }
    match find_last(&name, '.') {
        None => None,
        Some(d) => {
            if d == 0 || d == name.len() - 1 {
                None
            } else {
                Some(sub_chars(&name, d + 1, name.len()))
            }
        },
    }
}

/// Returns the lower-cased extension of a path (without the leading dot),
/// or `None` when the path has none. Either `/` or `\` separates
/// components; a leading dot (`.gitignore`) or a trailing one (`name.`)
/// does not make an extension.
pub fn extension_of(path: &str) -> (r: Option<String>)
    ensures
        match r {
            None => spec_extension_of(path@) is None,
            Some(x) => spec_extension_of(path@) == Some(x@),
        },
{
    let p = chars_of(path);
    match raw_extension_chars(&p) {
        None => None,
        Some(x) => {
            let raw = string_from_chars(&x);
            Some(to_lowercase(raw.as_str()))
        },
    }
}

/// The category of an already lower-cased extension.
pub fn category_of_ext_name(x: &Vec<char>) -> (r: FileCategory)
    ensures
        r == category_of_name(x@),
{
    match parse_ext_chars(x) {
        None => FileCategory::Unknown,
        Some(e) => category_of_ext(e),
    }
}

/// Classifies a file path into a [`FileCategory`] by its extension,
/// case-insensitively.
pub fn detect_category(path: &str) -> (r: FileCategory)
    ensures
        r == spec_detect_category(path@),
{
    match extension_of(path) {
        None => FileCategory::Unknown,
        Some(x) => {
            let xs = chars_of(x.as_str());
            category_of_ext_name(&xs)
        },
    }
}

} // verus!
