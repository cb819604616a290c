//! The file extensions the converter knows, as an enumeration, with their
//! spellings and the category each one belongs to.
use crate::file_type::FileCategory;
use vstd::prelude::*;

verus! {

/// Every extension that appears in a category list or a target list.
#[derive(Clone, Copy, Debug, PartialEq, Eq, Structural)]
pub enum Ext {
    /// `.jpg`
    Jpg,
    /// `.jpeg`
    Jpeg,
    /// `.png`
    Png,
    /// `.webp`
    Webp,
    /// `.heic`
    Heic,
    /// `.heif`
    Heif,
    /// `.tiff`
    Tiff,
    /// `.tif`
    Tif,
    /// `.avif`
    Avif,
    /// `.bmp`
    Bmp,
    /// `.svg`
    Svg,
    /// `.mp4`
    Mp4,
    /// `.mov`
    Mov,
    /// `.mkv`
    Mkv,
    /// `.webm`
    Webm,
    /// `.avi`
    Avi,
    /// `.wmv`
    Wmv,
    /// `.gif`
    Gif,
    /// `.mp3`
    Mp3,
    /// `.m4a`
    M4a,
    /// `.wav`
    Wav,
    /// `.flac`
    Flac,
    /// `.ogg`
    Ogg,
    /// `.opus`
    Opus,
    /// `.aiff`
    Aiff,
    /// `.aif`
    Aif,
    /// `.wma`
    Wma,
    /// `.pdf`
    Pdf,
    /// `.txt`
    Txt,
    /// `.srt`
    Srt,
    /// `.vtt`
    Vtt,
    /// `.docx`
    Docx,
    /// `.zip`
    Zip,
    /// `.tar`
    Tar,
    /// `.gz`
    Gz,
    /// `.tgz`
    Tgz,
    /// `.rar`
    Rar,
}

/// The lower-case spelling of `e`, without the leading dot.
pub open spec fn ext_name(e: Ext) -> Seq<char> {
    match e {
        Ext::Jpg => seq!['j', 'p', 'g'],
        Ext::Jpeg => seq!['j', 'p', 'e', 'g'],
        Ext::Png => seq!['p', 'n', 'g'],
        Ext::Webp => seq!['w', 'e', 'b', 'p'],
        Ext::Heic => seq!['h', 'e', 'i', 'c'],
        Ext::Heif => seq!['h', 'e', 'i', 'f'],
        Ext::Tiff => seq!['t', 'i', 'f', 'f'],
        Ext::Tif => seq!['t', 'i', 'f'],
        Ext::Avif => seq!['a', 'v', 'i', 'f'],
        Ext::Bmp => seq!['b', 'm', 'p'],
        Ext::Svg => seq!['s', 'v', 'g'],
        Ext::Mp4 => seq!['m', 'p', '4'],
        Ext::Mov => seq!['m', 'o', 'v'],
        Ext::Mkv => seq!['m', 'k', 'v'],
        Ext::Webm => seq!['w', 'e', 'b', 'm'],
        Ext::Avi => seq!['a', 'v', 'i'],
        Ext::Wmv => seq!['w', 'm', 'v'],
        Ext::Gif => seq!['g', 'i', 'f'],
        Ext::Mp3 => seq!['m', 'p', '3'],
        Ext::M4a => seq!['m', '4', 'a'],
        Ext::Wav => seq!['w', 'a', 'v'],
        Ext::Flac => seq!['f', 'l', 'a', 'c'],
        Ext::Ogg => seq!['o', 'g', 'g'],
        Ext::Opus => seq!['o', 'p', 'u', 's'],
        Ext::Aiff => seq!['a', 'i', 'f', 'f'],
        Ext::Aif => seq!['a', 'i', 'f'],
        Ext::Wma => seq!['w', 'm', 'a'],
        Ext::Pdf => seq!['p', 'd', 'f'],
        Ext::Txt => seq!['t', 'x', 't'],
        Ext::Srt => seq!['s', 'r', 't'],
        Ext::Vtt => seq!['v', 't', 't'],
        Ext::Docx => seq!['d', 'o', 'c', 'x'],
        Ext::Zip => seq!['z', 'i', 'p'],
        Ext::Tar => seq!['t', 'a', 'r'],
        Ext::Gz => seq!['g', 'z'],
        Ext::Tgz => seq!['t', 'g', 'z'],
        Ext::Rar => seq!['r', 'a', 'r'],
    }
}

/// The extension spelled exactly `s` (case-sensitive), if any.
pub open spec fn parse_ext(s: Seq<char>) -> Option<Ext> {
    if s.len() == 3 && s[0] == 'j' && s[1] == 'p' && s[2] == 'g' {
        Some(Ext::Jpg)
    } else if s.len() == 4 && s[0] == 'j' && s[1] == 'p' && s[2] == 'e' && s[3] == 'g' {
        Some(Ext::Jpeg)
    } else if s.len() == 3 && s[0] == 'p' && s[1] == 'n' && s[2] == 'g' {
        Some(Ext::Png)
    } else if s.len() == 4 && s[0] == 'w' && s[1] == 'e' && s[2] == 'b' && s[3] == 'p' {
        Some(Ext::Webp)
    } else if s.len() == 4 && s[0] == 'h' && s[1] == 'e' && s[2] == 'i' && s[3] == 'c' {
        Some(Ext::Heic)
    } else if s.len() == 4 && s[0] == 'h' && s[1] == 'e' && s[2] == 'i' && s[3] == 'f' {
        Some(Ext::Heif)
    } else if s.len() == 4 && s[0] == 't' && s[1] == 'i' && s[2] == 'f' && s[3] == 'f' {
        Some(Ext::Tiff)
    } else if s.len() == 3 && s[0] == 't' && s[1] == 'i' && s[2] == 'f' {
        Some(Ext::Tif)
    } else if s.len() == 4 && s[0] == 'a' && s[1] == 'v' && s[2] == 'i' && s[3] == 'f' {
        Some(Ext::Avif)
    } else if s.len() == 3 && s[0] == 'b' && s[1] == 'm' && s[2] == 'p' {
        Some(Ext::Bmp)
    } else if s.len() == 3 && s[0] == 's' && s[1] == 'v' && s[2] == 'g' {
        Some(Ext::Svg)
    } else if s.len() == 3 && s[0] == 'm' && s[1] == 'p' && s[2] == '4' {
        Some(Ext::Mp4)
    } else if s.len() == 3 && s[0] == 'm' && s[1] == 'o' && s[2] == 'v' {
        Some(Ext::Mov)
    } else if s.len() == 3 && s[0] == 'm' && s[1] == 'k' && s[2] == 'v' {
        Some(Ext::Mkv)
    } else if s.len() == 4 && s[0] == 'w' && s[1] == 'e' && s[2] == 'b' && s[3] == 'm' {
        Some(Ext::Webm)
    } else if s.len() == 3 && s[0] == 'a' && s[1] == 'v' && s[2] == 'i' {
        Some(Ext::Avi)
    } else if s.len() == 3 && s[0] == 'w' && s[1] == 'm' && s[2] == 'v' {
        Some(Ext::Wmv)
    } else if s.len() == 3 && s[0] == 'g' && s[1] == 'i' && s[2] == 'f' {
        Some(Ext::Gif)
    } else if s.len() == 3 && s[0] == 'm' && s[1] == 'p' && s[2] == '3' {
        Some(Ext::Mp3)
    } else if s.len() == 3 && s[0] == 'm' && s[1] == '4' && s[2] == 'a' {
        Some(Ext::M4a)
    } else if s.len() == 3 && s[0] == 'w' && s[1] == 'a' && s[2] == 'v' {
        Some(Ext::Wav)
    } else if s.len() == 4 && s[0] == 'f' && s[1] == 'l' && s[2] == 'a' && s[3] == 'c' {
        Some(Ext::Flac)
    } else if s.len() == 3 && s[0] == 'o' && s[1] == 'g' && s[2] == 'g' {
        Some(Ext::Ogg)
    } else if s.len() == 4 && s[0] == 'o' && s[1] == 'p' && s[2] == 'u' && s[3] == 's' {
        Some(Ext::Opus)
    } else if s.len() == 4 && s[0] == 'a' && s[1] == 'i' && s[2] == 'f' && s[3] == 'f' {
        Some(Ext::Aiff)
    } else if s.len() == 3 && s[0] == 'a' && s[1] == 'i' && s[2] == 'f' {
        Some(Ext::Aif)
    } else if s.len() == 3 && s[0] == 'w' && s[1] == 'm' && s[2] == 'a' {
        Some(Ext::Wma)
    } else if s.len() == 3 && s[0] == 'p' && s[1] == 'd' && s[2] == 'f' {
        Some(Ext::Pdf)
    } else if s.len() == 3 && s[0] == 't' && s[1] == 'x' && s[2] == 't' {
        Some(Ext::Txt)
    } else if s.len() == 3 && s[0] == 's' && s[1] == 'r' && s[2] == 't' {
        Some(Ext::Srt)
    } else if s.len() == 3 && s[0] == 'v' && s[1] == 't' && s[2] == 't' {
        Some(Ext::Vtt)
    } else if s.len() == 4 && s[0] == 'd' && s[1] == 'o' && s[2] == 'c' && s[3] == 'x' {
        Some(Ext::Docx)
    } else if s.len() == 3 && s[0] == 'z' && s[1] == 'i' && s[2] == 'p' {
        Some(Ext::Zip)
    } else if s.len() == 3 && s[0] == 't' && s[1] == 'a' && s[2] == 'r' {
        Some(Ext::Tar)
    } else if s.len() == 2 && s[0] == 'g' && s[1] == 'z' {
        Some(Ext::Gz)
    } else if s.len() == 3 && s[0] == 't' && s[1] == 'g' && s[2] == 'z' {
        Some(Ext::Tgz)
    } else if s.len() == 3 && s[0] == 'r' && s[1] == 'a' && s[2] == 'r' {
        Some(Ext::Rar)
    } else {
        None
    }
}

/// The category an extension belongs to; `docx` (a target only) has none.
pub open spec fn category_of(e: Ext) -> FileCategory {
    match e {
        Ext::Jpg => FileCategory::Image,
        Ext::Jpeg => FileCategory::Image,
        Ext::Png => FileCategory::Image,
        Ext::Webp => FileCategory::Image,
        Ext::Heic => FileCategory::Image,
        Ext::Heif => FileCategory::Image,
        Ext::Tiff => FileCategory::Image,
        Ext::Tif => FileCategory::Image,
        Ext::Avif => FileCategory::Image,
        Ext::Bmp => FileCategory::Image,
        Ext::Svg => FileCategory::Image,
        Ext::Mp4 => FileCategory::Video,
        Ext::Mov => FileCategory::Video,
        Ext::Mkv => FileCategory::Video,
        Ext::Webm => FileCategory::Video,
        Ext::Avi => FileCategory::Video,
        Ext::Wmv => FileCategory::Video,
        Ext::Gif => FileCategory::Video,
        Ext::Mp3 => FileCategory::Audio,
        Ext::M4a => FileCategory::Audio,
        Ext::Wav => FileCategory::Audio,
        Ext::Flac => FileCategory::Audio,
        Ext::Ogg => FileCategory::Audio,
        Ext::Opus => FileCategory::Audio,
        Ext::Aiff => FileCategory::Audio,
        Ext::Aif => FileCategory::Audio,
        Ext::Wma => FileCategory::Audio,
        Ext::Pdf => FileCategory::Document,
        Ext::Txt => FileCategory::Document,
        Ext::Srt => FileCategory::Document,
        Ext::Vtt => FileCategory::Document,
        Ext::Docx => FileCategory::Unknown,
        Ext::Zip => FileCategory::Archive,
        Ext::Tar => FileCategory::Archive,
        Ext::Gz => FileCategory::Archive,
        Ext::Tgz => FileCategory::Archive,
        Ext::Rar => FileCategory::Archive,
    }
}

/// Each extension is parsed back from its own spelling.
pub proof fn lemma_parse_ext_name(e: Ext)
    ensures
        parse_ext(ext_name(e)) == Some(e),
{
}

/// A spelling parses to an extension only when it is that extension's
/// spelling.
pub proof fn lemma_parse_ext_sound(s: Seq<char>)
    ensures
        parse_ext(s) matches Some(e) ==> ext_name(e) == s,
{
    if let Some(e) = parse_ext(s) {
        assert(ext_name(e) =~= s);
    }
}

/// Distinct extensions have distinct spellings.
pub proof fn lemma_ext_name_injective(a: Ext, b: Ext)
    ensures
        ext_name(a) == ext_name(b) ==> a == b,
{
    lemma_parse_ext_name(a);
    lemma_parse_ext_name(b);
}

/// The spelling of `e` as a string.
pub fn ext_str(e: Ext) -> (r: &'static str)
    ensures
        r@ == ext_name(e),
{
    match e {
        Ext::Jpg => {
            proof {
                reveal_strlit("jpg");
            }
            assert("jpg"@ =~= seq!['j', 'p', 'g']);
            "jpg"
        }
        Ext::Jpeg => {
            proof {
                reveal_strlit("jpeg");
            }
            assert("jpeg"@ =~= seq!['j', 'p', 'e', 'g']);
            "jpeg"
        }
        Ext::Png => {
            proof {
                reveal_strlit("png");
            }
            assert("png"@ =~= seq!['p', 'n', 'g']);
            "png"
        }
        Ext::Webp => {
            proof {
                reveal_strlit("webp");
            }
            assert("webp"@ =~= seq!['w', 'e', 'b', 'p']);
            "webp"
        }
        Ext::Heic => {
            proof {
                reveal_strlit("heic");
            }
            assert("heic"@ =~= seq!['h', 'e', 'i', 'c']);
            "heic"
        }
        Ext::Heif => {
            proof {
                reveal_strlit("heif");
            }
            assert("heif"@ =~= seq!['h', 'e', 'i', 'f']);
            "heif"
        }
        Ext::Tiff => {
            proof {
                reveal_strlit("tiff");
            }
            assert("tiff"@ =~= seq!['t', 'i', 'f', 'f']);
            "tiff"
        }
        Ext::Tif => {
            proof {
                reveal_strlit("tif");
            }
            assert("tif"@ =~= seq!['t', 'i', 'f']);
            "tif"
        }
        Ext::Avif => {
            proof {
                reveal_strlit("avif");
            }
            assert("avif"@ =~= seq!['a', 'v', 'i', 'f']);
            "avif"
        }
        Ext::Bmp => {
            proof {
                reveal_strlit("bmp");
            }
            assert("bmp"@ =~= seq!['b', 'm', 'p']);
            "bmp"
        }
        Ext::Svg => {
            proof {
                reveal_strlit("svg");
            }
            assert("svg"@ =~= seq!['s', 'v', 'g']);
            "svg"
        }
        Ext::Mp4 => {
            proof {
                reveal_strlit("mp4");
            }
            assert("mp4"@ =~= seq!['m', 'p', '4']);
            "mp4"
        }
        Ext::Mov => {
            proof {
                reveal_strlit("mov");
            }
            assert("mov"@ =~= seq!['m', 'o', 'v']);
            "mov"
        }
        Ext::Mkv => {
            proof {
                reveal_strlit("mkv");
            }
            assert("mkv"@ =~= seq!['m', 'k', 'v']);
            "mkv"
        }
        Ext::Webm => {
            proof {
                reveal_strlit("webm");
            }
            assert("webm"@ =~= seq!['w', 'e', 'b', 'm']);
            "webm"
        }
        Ext::Avi => {
            proof {
                reveal_strlit("avi");
            }
            assert("avi"@ =~= seq!['a', 'v', 'i']);
            "avi"
        }
        Ext::Wmv => {
            proof {
                reveal_strlit("wmv");
            }
            assert("wmv"@ =~= seq!['w', 'm', 'v']);
            "wmv"
        }
        Ext::Gif => {
            proof {
                reveal_strlit("gif");
            }
            assert("gif"@ =~= seq!['g', 'i', 'f']);
            "gif"
        }
        Ext::Mp3 => {
            proof {
                reveal_strlit("mp3");
            }
            assert("mp3"@ =~= seq!['m', 'p', '3']);
            "mp3"
        }
        Ext::M4a => {
            proof {
                reveal_strlit("m4a");
            }
            assert("m4a"@ =~= seq!['m', '4', 'a']);
            "m4a"
        }
        Ext::Wav => {
            proof {
                reveal_strlit("wav");
            }
            assert("wav"@ =~= seq!['w', 'a', 'v']);
            "wav"
        }
        Ext::Flac => {
            proof {
                reveal_strlit("flac");
            }
            assert("flac"@ =~= seq!['f', 'l', 'a', 'c']);
            "flac"
        }
        Ext::Ogg => {
            proof {
                reveal_strlit("ogg");
            }
            assert("ogg"@ =~= seq!['o', 'g', 'g']);
            "ogg"
        }
        Ext::Opus => {
            proof {
                reveal_strlit("opus");
            }
            assert("opus"@ =~= seq!['o', 'p', 'u', 's']);
            "opus"
        }
        Ext::Aiff => {
            proof {
                reveal_strlit("aiff");
            }
            assert("aiff"@ =~= seq!['a', 'i', 'f', 'f']);
            "aiff"
        }
        Ext::Aif => {
            proof {
                reveal_strlit("aif");
            }
            assert("aif"@ =~= seq!['a', 'i', 'f']);
            "aif"
        }
        Ext::Wma => {
            proof {
                reveal_strlit("wma");
            }
            assert("wma"@ =~= seq!['w', 'm', 'a']);
            "wma"
        }
        Ext::Pdf => {
            proof {
                reveal_strlit("pdf");
            }
            assert("pdf"@ =~= seq!['p', 'd', 'f']);
            "pdf"
        }
        Ext::Txt => {
            proof {
                reveal_strlit("txt");
            }
            assert("txt"@ =~= seq!['t', 'x', 't']);
            "txt"
        }
        Ext::Srt => {
            proof {
                reveal_strlit("srt");
            }
            assert("srt"@ =~= seq!['s', 'r', 't']);
            "srt"
        }
        Ext::Vtt => {
            proof {
                reveal_strlit("vtt");
            }
            assert("vtt"@ =~= seq!['v', 't', 't']);
            "vtt"
        }
        Ext::Docx => {
            proof {
                reveal_strlit("docx");
            }
            assert("docx"@ =~= seq!['d', 'o', 'c', 'x']);
            "docx"
        }
        Ext::Zip => {
            proof {
                reveal_strlit("zip");
            }
            assert("zip"@ =~= seq!['z', 'i', 'p']);
            "zip"
        }
        Ext::Tar => {
            proof {
                reveal_strlit("tar");
            }
            assert("tar"@ =~= seq!['t', 'a', 'r']);
            "tar"
        }
        Ext::Gz => {
            proof {
                reveal_strlit("gz");
            }
            assert("gz"@ =~= seq!['g', 'z']);
            "gz"
        }
        Ext::Tgz => {
            proof {
                reveal_strlit("tgz");
            }
            assert("tgz"@ =~= seq!['t', 'g', 'z']);
            "tgz"
        }
        Ext::Rar => {
            proof {
                reveal_strlit("rar");
            }
            assert("rar"@ =~= seq!['r', 'a', 'r']);
            "rar"
        }
    }
}

/// Parses a (case-sensitive) extension spelling.
pub fn parse_ext_chars(s: &Vec<char>) -> (r: Option<Ext>)
    ensures
        r == parse_ext(s@),
{
    let n = s.len();
    if n == 3 && s[0] == 'j' && s[1] == 'p' && s[2] == 'g' {
        Some(Ext::Jpg)
    } else if n == 4 && s[0] == 'j' && s[1] == 'p' && s[2] == 'e' && s[3] == 'g' {
        Some(Ext::Jpeg)
    } else if n == 3 && s[0] == 'p' && s[1] == 'n' && s[2] == 'g' {
        Some(Ext::Png)
    } else if n == 4 && s[0] == 'w' && s[1] == 'e' && s[2] == 'b' && s[3] == 'p' {
        Some(Ext::Webp)
    } else if n == 4 && s[0] == 'h' && s[1] == 'e' && s[2] == 'i' && s[3] == 'c' {
        Some(Ext::Heic)
    } else if n == 4 && s[0] == 'h' && s[1] == 'e' && s[2] == 'i' && s[3] == 'f' {
        Some(Ext::Heif)
    } else if n == 4 && s[0] == 't' && s[1] == 'i' && s[2] == 'f' && s[3] == 'f' {
        Some(Ext::Tiff)
    } else if n == 3 && s[0] == 't' && s[1] == 'i' && s[2] == 'f' {
        Some(Ext::Tif)
    } else if n == 4 && s[0] == 'a' && s[1] == 'v' && s[2] == 'i' && s[3] == 'f' {
        Some(Ext::Avif)
    } else if n == 3 && s[0] == 'b' && s[1] == 'm' && s[2] == 'p' {
        Some(Ext::Bmp)
    } else if n == 3 && s[0] == 's' && s[1] == 'v' && s[2] == 'g' {
        Some(Ext::Svg)
    } else if n == 3 && s[0] == 'm' && s[1] == 'p' && s[2] == '4' {
        Some(Ext::Mp4)
    } else if n == 3 && s[0] == 'm' && s[1] == 'o' && s[2] == 'v' {
        Some(Ext::Mov)
    } else if n == 3 && s[0] == 'm' && s[1] == 'k' && s[2] == 'v' {
        Some(Ext::Mkv)
    } else if n == 4 && s[0] == 'w' && s[1] == 'e' && s[2] == 'b' && s[3] == 'm' {
        Some(Ext::Webm)
    } else if n == 3 && s[0] == 'a' && s[1] == 'v' && s[2] == 'i' {
        Some(Ext::Avi)
    } else if n == 3 && s[0] == 'w' && s[1] == 'm' && s[2] == 'v' {
        Some(Ext::Wmv)
    } else if n == 3 && s[0] == 'g' && s[1] == 'i' && s[2] == 'f' {
        Some(Ext::Gif)
    } else if n == 3 && s[0] == 'm' && s[1] == 'p' && s[2] == '3' {
        Some(Ext::Mp3)
    } else if n == 3 && s[0] == 'm' && s[1] == '4' && s[2] == 'a' {
        Some(Ext::M4a)
    } else if n == 3 && s[0] == 'w' && s[1] == 'a' && s[2] == 'v' {
        Some(Ext::Wav)
    } else if n == 4 && s[0] == 'f' && s[1] == 'l' && s[2] == 'a' && s[3] == 'c' {
        Some(Ext::Flac)
    } else if n == 3 && s[0] == 'o' && s[1] == 'g' && s[2] == 'g' {
        Some(Ext::Ogg)
    } else if n == 4 && s[0] == 'o' && s[1] == 'p' && s[2] == 'u' && s[3] == 's' {
        Some(Ext::Opus)
    } else if n == 4 && s[0] == 'a' && s[1] == 'i' && s[2] == 'f' && s[3] == 'f' {
        Some(Ext::Aiff)
    } else if n == 3 && s[0] == 'a' && s[1] == 'i' && s[2] == 'f' {
        Some(Ext::Aif)
    } else if n == 3 && s[0] == 'w' && s[1] == 'm' && s[2] == 'a' {
        Some(Ext::Wma)
    } else if n == 3 && s[0] == 'p' && s[1] == 'd' && s[2] == 'f' {
        Some(Ext::Pdf)
    } else if n == 3 && s[0] == 't' && s[1] == 'x' && s[2] == 't' {
        Some(Ext::Txt)
    } else if n == 3 && s[0] == 's' && s[1] == 'r' && s[2] == 't' {
        Some(Ext::Srt)
    } else if n == 3 && s[0] == 'v' && s[1] == 't' && s[2] == 't' {
        Some(Ext::Vtt)
    } else if n == 4 && s[0] == 'd' && s[1] == 'o' && s[2] == 'c' && s[3] == 'x' {
        Some(Ext::Docx)
    } else if n == 3 && s[0] == 'z' && s[1] == 'i' && s[2] == 'p' {
        Some(Ext::Zip)
    } else if n == 3 && s[0] == 't' && s[1] == 'a' && s[2] == 'r' {
        Some(Ext::Tar)
    } else if n == 2 && s[0] == 'g' && s[1] == 'z' {
        Some(Ext::Gz)
    } else if n == 3 && s[0] == 't' && s[1] == 'g' && s[2] == 'z' {
        Some(Ext::Tgz)
    } else if n == 3 && s[0] == 'r' && s[1] == 'a' && s[2] == 'r' {
        Some(Ext::Rar)
    } else {
        None
    }
}

/// The category an extension belongs to.
pub fn category_of_ext(e: Ext) -> (r: FileCategory)
    ensures
        r == category_of(e),
{
    match e {
        Ext::Jpg => FileCategory::Image,
        Ext::Jpeg => FileCategory::Image,
        Ext::Png => FileCategory::Image,
        Ext::Webp => FileCategory::Image,
        Ext::Heic => FileCategory::Image,
        Ext::Heif => FileCategory::Image,
        Ext::Tiff => FileCategory::Image,
        Ext::Tif => FileCategory::Image,
        Ext::Avif => FileCategory::Image,
        Ext::Bmp => FileCategory::Image,
        Ext::Svg => FileCategory::Image,
        Ext::Mp4 => FileCategory::Video,
        Ext::Mov => FileCategory::Video,
        Ext::Mkv => FileCategory::Video,
        Ext::Webm => FileCategory::Video,
        Ext::Avi => FileCategory::Video,
        Ext::Wmv => FileCategory::Video,
        Ext::Gif => FileCategory::Video,
        Ext::Mp3 => FileCategory::Audio,
        Ext::M4a => FileCategory::Audio,
        Ext::Wav => FileCategory::Audio,
        Ext::Flac => FileCategory::Audio,
        Ext::Ogg => FileCategory::Audio,
        Ext::Opus => FileCategory::Audio,
        Ext::Aiff => FileCategory::Audio,
        Ext::Aif => FileCategory::Audio,
        Ext::Wma => FileCategory::Audio,
        Ext::Pdf => FileCategory::Document,
        Ext::Txt => FileCategory::Document,
        Ext::Srt => FileCategory::Document,
        Ext::Vtt => FileCategory::Document,
        Ext::Docx => FileCategory::Unknown,
        Ext::Zip => FileCategory::Archive,
        Ext::Tar => FileCategory::Archive,
        Ext::Gz => FileCategory::Archive,
        Ext::Tgz => FileCategory::Archive,
        Ext::Rar => FileCategory::Archive,
    }
}

/// The spellings of a list of extensions.
pub open spec fn ext_names(es: Seq<Ext>) -> Seq<Seq<char>> {
    es.map_values(|e: Ext| ext_name(e))
}

/// The character sequences of a list of strings.
pub open spec fn str_views(v: Seq<&'static str>) -> Seq<Seq<char>> {
    v.map_values(|s: &'static str| s@)
}

/// The spellings of `es`, as strings, in order.
pub fn ext_strs(es: &Vec<Ext>) -> (r: Vec<&'static str>)
    ensures
        str_views(r@) == ext_names(es@),
{
    let mut r: Vec<&'static str> = Vec::new();
    for i in 0..es.len()
        invariant
            str_views(r@) == ext_names(es@.take(i as int)),
    {
        let s = ext_str(es[i]);
        let ghost before = r@;
        r.push(s);
        proof {
            assert(es@.take(i + 1) =~= es@.take(i as int).push(es@[i as int]));
            assert(r@ =~= before.push(s));
            assert(str_views(r@) =~= str_views(before).push(s@));
            assert(ext_names(es@.take(i + 1)) =~= ext_names(es@.take(i as int)).push(
                ext_name(es@[i as int]),
            ));
        }
    }
    proof {
        assert(es@.take(es@.len() as int) =~= es@);
    }
    r
}

} // verus!
