//! Document/text/subtitle targets: PDF -> DOCX/JPG/PNG/TXT, JPG/PNG ->
//! PDF/DOCX, TXT -> PDF/JPG/PNG/SRT/VTT, and pairwise TXT/SRT/VTT.
use crate::ext::{ext_name, ext_names, ext_strs, lemma_parse_ext_name, parse_ext, parse_ext_chars, str_views, Ext};
use crate::convert::error::ConvertError;
use crate::convert::naming::{
    output_dir_path, parent_prefix, path_extension, path_extension_of, placed_at, placed_split, source_stem,
};
use crate::convert::string_views;
use crate::convert::subtitles::{
    cue_views, cues_from_txt, parse_srt, parse_vtt, spec_parse_srt, spec_parse_vtt, spec_write_srt,
    spec_write_txt, spec_write_vtt, write_srt, write_txt, write_vtt, Cue,
};
use crate::text::{
    chars_of, push_all, push_str, spec_lines, split_chars, split_on, string_from_chars,
    to_lowercase, trim, trim_chars, trim_end, unicode_lowercase, vec_views,
};
use vstd::prelude::*;

verus! {

/// The targets offered for a source extension (after Unicode lower-casing).
pub open spec fn document_targets(e: Option<Ext>) -> Seq<Ext> {
    match e {
        Some(Ext::Pdf) => seq![Ext::Docx, Ext::Jpg, Ext::Png, Ext::Txt],
        Some(Ext::Jpg) | Some(Ext::Jpeg) | Some(Ext::Png) => seq![Ext::Pdf, Ext::Docx],
        Some(Ext::Txt) => seq![Ext::Pdf, Ext::Jpg, Ext::Png, Ext::Srt, Ext::Vtt],
        Some(Ext::Srt) => seq![Ext::Txt, Ext::Vtt],
        Some(Ext::Vtt) => seq![Ext::Txt, Ext::Srt],
        _ => seq![],
    }
}

fn document_targets_of(e: Option<Ext>) -> (r: Vec<Ext>)
    ensures
        r@ == document_targets(e),
{
    match e {
        Some(Ext::Pdf) => vec![Ext::Docx, Ext::Jpg, Ext::Png, Ext::Txt],
        Some(Ext::Jpg) | Some(Ext::Jpeg) | Some(Ext::Png) => vec![Ext::Pdf, Ext::Docx],
        Some(Ext::Txt) => vec![Ext::Pdf, Ext::Jpg, Ext::Png, Ext::Srt, Ext::Vtt],
        Some(Ext::Srt) => vec![Ext::Txt, Ext::Vtt],
        Some(Ext::Vtt) => vec![Ext::Txt, Ext::Srt],
        _ => vec![],
    }
}

/// The targets `supported_targets` lists for the spelling `s`.
pub open spec fn spec_document_targets(s: Seq<char>) -> Seq<Seq<char>> {
    ext_names(document_targets(parse_ext(unicode_lowercase(s))))
}

/// Extensions this family can produce from `source_ext` (a PDF/TXT/SRT/VTT
/// file, or a JPG/PNG file exported to PDF/DOCX), compared
/// case-insensitively.
pub fn supported_targets(source_ext: &str) -> (r: Vec<&'static str>)
    ensures
        str_views(r@) == spec_document_targets(source_ext@),
{
    let lower = to_lowercase(source_ext);
    let chars = chars_of(lower.as_str());
    let targets = document_targets_of(parse_ext_chars(&chars));
    ext_strs(&targets)
}

/// The plain-text formats that convert among each other.
#[derive(Clone, Copy, Debug, PartialEq, Eq, Structural)]
pub enum TextFormat {
    /// Plain text.
    Txt,
    /// SubRip.
    Srt,
    /// WebVTT.
    Vtt,
}

/// The work a document conversion does, once its route is known.
#[derive(Clone, Copy, Debug, PartialEq, Eq, Structural)]
pub enum DocumentJob {
    /// PDF -> TXT by text extraction.
    PdfToText,
    /// PDF -> DOCX: extracted text, or rendered pages for a scanned PDF.
    PdfToDocx,
    /// PDF -> JPG/PNG by rendering every page.
    PdfToImages {
        /// PNG pages (else JPG).
        png: bool,
    },
    /// JPG/PNG -> PDF.
    ImageToPdf,
    /// JPG/PNG -> DOCX with the original bytes embedded.
    ImageToDocx {
        /// A PNG source (else JPEG).
        png: bool,
    },
    /// TXT -> PDF with selectable text.
    TextToPdf,
    /// TXT -> JPG/PNG, the text rasterized.
    TextToImage {
        /// A PNG image (else JPG).
        png: bool,
    },
    /// TXT/SRT/VTT -> TXT/SRT/VTT through the cue model.
    Subtitles {
        /// The source's format.
        from: TextFormat,
        /// The target's format.
        to: TextFormat,
    },
}

/// The route a document conversion from a source spelled `x` to a target
/// spelled `t` (both lower-cased) takes; `None` when there is none.
pub open spec fn spec_route(x: Seq<char>, t: Seq<char>) -> Option<DocumentJob> {
    let te = parse_ext(t);
    match parse_ext(x) {
        Some(Ext::Pdf) => match te {
            Some(Ext::Txt) => Some(DocumentJob::PdfToText),
            Some(Ext::Docx) => Some(DocumentJob::PdfToDocx),
            Some(Ext::Jpg) => Some(DocumentJob::PdfToImages { png: false }),
            Some(Ext::Png) => Some(DocumentJob::PdfToImages { png: true }),
            _ => None,
        },
        Some(Ext::Jpg) | Some(Ext::Jpeg) | Some(Ext::Png) => match te {
            Some(Ext::Pdf) => Some(DocumentJob::ImageToPdf),
            Some(Ext::Docx) => Some(DocumentJob::ImageToDocx { png: parse_ext(x) == Some(Ext::Png) }),
            _ => None,
        },
        Some(Ext::Txt) => match te {
            Some(Ext::Pdf) => Some(DocumentJob::TextToPdf),
            Some(Ext::Jpg) => Some(DocumentJob::TextToImage { png: false }),
            Some(Ext::Png) => Some(DocumentJob::TextToImage { png: true }),
            Some(Ext::Srt) => Some(DocumentJob::Subtitles { from: TextFormat::Txt, to: TextFormat::Srt }),
            Some(Ext::Vtt) => Some(DocumentJob::Subtitles { from: TextFormat::Txt, to: TextFormat::Vtt }),
            _ => None,
        },
        Some(Ext::Srt) => match te {
            Some(Ext::Txt) => Some(DocumentJob::Subtitles { from: TextFormat::Srt, to: TextFormat::Txt }),
            Some(Ext::Srt) => Some(DocumentJob::Subtitles { from: TextFormat::Srt, to: TextFormat::Srt }),
            Some(Ext::Vtt) => Some(DocumentJob::Subtitles { from: TextFormat::Srt, to: TextFormat::Vtt }),
            _ => None,
        },
        Some(Ext::Vtt) => match te {
            Some(Ext::Txt) => Some(DocumentJob::Subtitles { from: TextFormat::Vtt, to: TextFormat::Txt }),
            Some(Ext::Srt) => Some(DocumentJob::Subtitles { from: TextFormat::Vtt, to: TextFormat::Srt }),
            Some(Ext::Vtt) => Some(DocumentJob::Subtitles { from: TextFormat::Vtt, to: TextFormat::Vtt }),
            _ => None,
        },
        _ => None,
    }
}

/// The name a refused source is reported under: the family's own name for
/// PDF, TXT, SRT and VTT, the source's extension otherwise.
pub open spec fn from_name(x: Seq<char>) -> Seq<char> {
    match parse_ext(x) {
        Some(Ext::Pdf) => "pdf"@,
        Some(Ext::Txt) => "txt"@,
        Some(Ext::Srt) => "srt"@,
        Some(Ext::Vtt) => "vtt"@,
        _ => x,
    }
}

/// The lower-cased extension of a path, empty when it has none.
pub open spec fn ext_or_empty(p: Seq<char>) -> Seq<char> {
    unicode_lowercase(
        match path_extension(p) {
            Some(e) => e,
            None => Seq::empty(),
        },
    )
}

/// Routes a document conversion of `source` to `target_extension`:
/// which job it is, or the unsupported-conversion error. A PDF rendered to
/// JPG/PNG needs the pdfium library (`pdfium_available`).
pub fn route(source: &str, target_extension: &str, pdfium_available: bool) -> (r: Result<DocumentJob, ConvertError>)
    ensures
        ({
            let x = ext_or_empty(source@);
            let t = unicode_lowercase(target_extension@);
            match spec_route(x, t) {
                None => r matches Err(ConvertError::UnsupportedConversion { from, to }) && from@
                    == from_name(x) && to@ == t,
                Some(job) => if (job matches DocumentJob::PdfToImages { .. }) && !pdfium_available {
                    r matches Err(ConvertError::EngineUnavailable(d)) && d@
                        == "PDF rasterization requires the pdfium rendering library, which was not provided"@
                } else {
                    r == Ok::<DocumentJob, ConvertError>(job)
                },
            }
        }),
{
    let raw = match path_extension_of(source) {
        Some(e) => e,
        None => String::new(),
    };
    let x = to_lowercase(raw.as_str());
    let t = to_lowercase(target_extension);
    let xe = parse_ext_chars(&chars_of(x.as_str()));
    let te = parse_ext_chars(&chars_of(t.as_str()));
    let job: Option<DocumentJob> = match xe {
        Some(Ext::Pdf) => match te {
            Some(Ext::Txt) => Some(DocumentJob::PdfToText),
            Some(Ext::Docx) => Some(DocumentJob::PdfToDocx),
            Some(Ext::Jpg) => Some(DocumentJob::PdfToImages { png: false }),
            Some(Ext::Png) => Some(DocumentJob::PdfToImages { png: true }),
            _ => None,
        },
        Some(Ext::Jpg) | Some(Ext::Jpeg) | Some(Ext::Png) => match te {
            Some(Ext::Pdf) => Some(DocumentJob::ImageToPdf),
            Some(Ext::Docx) => Some(DocumentJob::ImageToDocx { png: xe == Some(Ext::Png) }),
            _ => None,
        },
        Some(Ext::Txt) => match te {
            Some(Ext::Pdf) => Some(DocumentJob::TextToPdf),
            Some(Ext::Jpg) => Some(DocumentJob::TextToImage { png: false }),
            Some(Ext::Png) => Some(DocumentJob::TextToImage { png: true }),
            Some(Ext::Srt) => Some(DocumentJob::Subtitles { from: TextFormat::Txt, to: TextFormat::Srt }),
            Some(Ext::Vtt) => Some(DocumentJob::Subtitles { from: TextFormat::Txt, to: TextFormat::Vtt }),
            _ => None,
        },
        Some(Ext::Srt) => match te {
            Some(Ext::Txt) => Some(DocumentJob::Subtitles { from: TextFormat::Srt, to: TextFormat::Txt }),
            Some(Ext::Srt) => Some(DocumentJob::Subtitles { from: TextFormat::Srt, to: TextFormat::Srt }),
            Some(Ext::Vtt) => Some(DocumentJob::Subtitles { from: TextFormat::Srt, to: TextFormat::Vtt }),
            _ => None,
        },
        Some(Ext::Vtt) => match te {
            Some(Ext::Txt) => Some(DocumentJob::Subtitles { from: TextFormat::Vtt, to: TextFormat::Txt }),
            Some(Ext::Srt) => Some(DocumentJob::Subtitles { from: TextFormat::Vtt, to: TextFormat::Srt }),
            Some(Ext::Vtt) => Some(DocumentJob::Subtitles { from: TextFormat::Vtt, to: TextFormat::Vtt }),
            _ => None,
        },
        _ => None,
    };
    match job {
        None => {
            let from = match xe {
                Some(Ext::Pdf) => "pdf".to_owned(),
                Some(Ext::Txt) => "txt".to_owned(),
                Some(Ext::Srt) => "srt".to_owned(),
                Some(Ext::Vtt) => "vtt".to_owned(),
                _ => x,
            };
            Err(ConvertError::UnsupportedConversion { from, to: t })
        },
        Some(j) => {
            if (j == DocumentJob::PdfToImages { png: false } || j == DocumentJob::PdfToImages { png: true })
                && !pdfium_available {
                return Err(
                    ConvertError::EngineUnavailable(
                        "PDF rasterization requires the pdfium rendering library, which was not provided".to_owned(),
                    ),
                );
            }
            Ok(j)
        },
    }
}

/// The cues a text in `from` format holds.
pub open spec fn spec_cues_of(from: TextFormat, text: Seq<char>) -> Seq<(nat, nat, Seq<char>)> {
    match from {
        TextFormat::Srt => spec_parse_srt(text),
        TextFormat::Vtt => spec_parse_vtt(text),
        TextFormat::Txt => crate::convert::subtitles::txt_cue_views(text),
    }
}

/// The text in `to` format for `cues`.
pub open spec fn spec_render_cues(to: TextFormat, cues: Seq<(nat, nat, Seq<char>)>) -> Seq<char> {
    match to {
        TextFormat::Srt => spec_write_srt(cues),
        TextFormat::Vtt => spec_write_vtt(cues),
        TextFormat::Txt => spec_write_txt(cues),
    }
}

/// Converts text between TXT, SRT and VTT through the cue model: the
/// source is parsed into cues (plain text gets invented timing) and the
/// cues are written in the target format.
pub fn convert_text(from: TextFormat, to: TextFormat, text: &str) -> (r: String)
    requires
        text@.len() <= 0x1_0000_0000_0000,
    ensures
        r@ == spec_render_cues(to, spec_cues_of(from, text@)),
{
    let cues: Vec<Cue> = match from {
        TextFormat::Srt => parse_srt(text),
        TextFormat::Vtt => parse_vtt(text),
        TextFormat::Txt => {
            let c = cues_from_txt(text);
            proof {
                crate::convert::subtitles::lemma_txt_cue_views(text@, c@);
            }
            c
        },
    };
    match to {
        TextFormat::Srt => write_srt(cues.as_slice()),
        TextFormat::Vtt => write_vtt(cues.as_slice()),
        TextFormat::Txt => write_txt(cues.as_slice()),
    }
}

/// The message for a PDF without a text layer.
pub open spec fn scanned_pdf_message() -> Seq<char> {
    "this PDF appears to be scanned — OCR would be needed to extract text, which Satsuma doesn't currently attempt"@
}

/// The error for a PDF without a text layer: OCR is never attempted.
pub fn scanned_pdf_error() -> (r: ConvertError)
    ensures
        r matches ConvertError::Other(m) && m@ == scanned_pdf_message(),
{
    ConvertError::Other(
        "this PDF appears to be scanned — OCR would be needed to extract text, which Satsuma doesn't currently attempt".to_owned(),
    )
}

/// What PDF -> TXT writes, given the PDF's extracted text: the text as it
/// is, or the scanned-PDF error when it is blank.
pub fn pdf_text_output(text: String) -> (r: Result<String, ConvertError>)
    ensures
        trim(text@).len() == 0 ==> (r matches Err(ConvertError::Other(m)) && m@ == scanned_pdf_message()),
        trim(text@).len() > 0 ==> (r matches Ok(t) && t@ == text@),
{
    let cs = chars_of(text.as_str());
    let t = trim_chars(&cs);
    if t.len() == 0 {
        return Err(scanned_pdf_error());
    }
    Ok(text)
}

/// How PDF -> DOCX proceeds, given the PDF's extracted text.
pub enum PdfDocxPlan {
    /// One paragraph per blank-line-separated block of the text.
    Paragraphs(Vec<String>),
    /// No text layer: embed the rendered pages instead.
    RenderedPages,
}

/// The paragraphs of extracted text: split at blank lines (`\n\n`), each
/// with its trailing white space removed.
pub open spec fn spec_paragraphs(text: Seq<char>) -> Seq<Seq<char>> {
    split_on(text, seq!['\n', '\n']).map_values(|p: Seq<char>| trim_end(p))
}

/// Decides PDF -> DOCX from the extracted text: its paragraphs when it has
/// any text, otherwise rendered pages, which need pdfium
/// (`pdfium_available`).
pub fn pdf_docx_plan(text: &str, pdfium_available: bool) -> (r: Result<PdfDocxPlan, ConvertError>)
    ensures
        trim(text@).len() > 0 ==> (r matches Ok(PdfDocxPlan::Paragraphs(ps)) && string_views(ps@)
            == spec_paragraphs(text@)),
        trim(text@).len() == 0 && pdfium_available ==> (r matches Ok(PdfDocxPlan::RenderedPages)),
        trim(text@).len() == 0 && !pdfium_available ==> (r matches Err(ConvertError::EngineUnavailable(d))
            && d@ == "this PDF has no extractable text, so embedding a rendered page image requires the pdfium rendering library, which was not provided"@),
{
    let cs = chars_of(text);
    let t = trim_chars(&cs);
    if t.len() == 0 {
        if pdfium_available {
            return Ok(PdfDocxPlan::RenderedPages);
        }
        return Err(
            ConvertError::EngineUnavailable(
                "this PDF has no extractable text, so embedding a rendered page image requires the pdfium rendering library, which was not provided".to_owned(),
            ),
        );
    }
    let sep: Vec<char> = vec!['\n', '\n'];
    proof {
        assert(sep@ =~= seq!['\n', '\n']);
    }
    let parts = split_chars(&cs, &sep);
    let ghost pv = vec_views(parts@);
    let mut out: Vec<String> = Vec::new();
    for i in 0..parts.len()
        invariant
            pv == vec_views(parts@),
            pv == split_on(text@, seq!['\n', '\n']),
            string_views(out@) == pv.map_values(|p: Seq<char>| trim_end(p)).take(i as int),
    {
        let p = trim_end_chars(&parts[i]);
        let ghost before = out@;
        let ps = string_from_chars(&p);
        let ghost psv = ps@;
        out.push(ps);
        proof {
            assert(string_views(out@) =~= string_views(before).push(psv));
            assert(pv.map_values(|p: Seq<char>| trim_end(p)).take(i + 1) =~= pv.map_values(
                |p: Seq<char>| trim_end(p),
            ).take(i as int).push(trim_end(pv[i as int])));
        }
    }
    proof {
        assert(pv.map_values(|p: Seq<char>| trim_end(p)).take(pv.len() as int) =~= pv.map_values(
            |p: Seq<char>| trim_end(p),
        ));
    }
    Ok(PdfDocxPlan::Paragraphs(out))
}

/// `v` without its trailing white space.
fn trim_end_chars(v: &Vec<char>) -> (r: Vec<char>)
    ensures
        r@ == trim_end(v@),
{
    let mut b = v.len();
    proof {
        assert(v@.take(b as int) =~= v@);
    }
    while b > 0 && crate::text::is_whitespace(v[b - 1])
        invariant
            b <= v@.len(),
            trim_end(v@.take(b as int)) == trim_end(v@),
        decreases b,
    {
        proof {
            assert(v@.take(b as int).drop_last() =~= v@.take(b - 1));
        }
        b = b - 1;
    }
    crate::text::sub_chars(v, 0, b)
}

/// Where rendered PDF pages go.
pub enum PagesLayout {
    /// A single page, written to the conversion's destination.
    Single(String),
    /// Several pages, written into a new sibling folder, with these file
    /// names in page order.
    Folder(String, Vec<String>),
}

/// The file name of page `i` (0-based): `Page 001.<target>`, ...
pub open spec fn page_file_name(i: nat, target: Seq<char>) -> Seq<char> {
    "Page "@ + crate::convert::subtitles::pad3(i + 1) + seq!['.'] + target
}

/// Decides where `page_count` rendered pages of `source` go: nothing to
/// write for none, `destination` for one, and for several a collision-safe
/// sibling folder `"<stem> JPG Pages"` (or `PNG Pages`) holding
/// `Page 001.<target>`, `Page 002.<target>`, ... `existing` lists the
/// names already next to the source.
pub fn rendered_pages_layout(
    source: &str,
    target: &str,
    destination: &str,
    page_count: usize,
    existing: &[String],
) -> (r: Result<PagesLayout, ConvertError>)
    requires
        existing@.len() + 2 <= usize::MAX,
        page_count < 0xffff_ffff,
    ensures
        page_count == 0 ==> (r matches Err(ConvertError::Other(m)) && m@ == "this PDF has no pages to render"@),
        page_count == 1 ==> (r matches Ok(PagesLayout::Single(d)) && d@ == destination@),
        page_count > 1 ==> (r matches Ok(PagesLayout::Folder(dir, names)) && placed_split(
            string_views(existing@),
            parent_prefix(source@),
            source_stem(source@) + seq![' '] + (if target@ == "png"@ {
                "PNG Pages"@
            } else {
                "JPG Pages"@
            }),
            Seq::empty(),
            dir@,
        ) && names@.len() == page_count && forall|i: int|
            0 <= i < page_count ==> (#[trigger] names@[i])@ == page_file_name(i as nat, target@)),
{
    if page_count == 0 {
        return Err(ConvertError::Other("this PDF has no pages to render".to_owned()));
    }
    if page_count == 1 {
        return Ok(PagesLayout::Single(destination.to_owned()));
    }
    let label = if crate::text::str_is(target, "png") {
        "PNG Pages"
    } else {
        "JPG Pages"
    };
    let dir = output_dir_path(source, label, existing);
    let mut names: Vec<String> = Vec::new();
    for i in 0..page_count
        invariant
            page_count < 0xffff_ffff,
            names@.len() == i,
            forall|k: int| 0 <= k < i ==> (#[trigger] names@[k])@ == page_file_name(k as nat, target@),
    {
        let mut n = chars_of("Page ");
        let digits = crate::convert::subtitles::pad3_chars((i as u64) + 1);
        push_all(&mut n, &digits);
        n.push('.');
        push_str(&mut n, target);
        names.push(string_from_chars(&n));
    }
    Ok(PagesLayout::Folder(dir, names))
}

/// A document source is never offered its own format.
pub proof fn lemma_document_targets_exclude_source(s: Seq<char>, e: Ext)
    requires
        parse_ext(unicode_lowercase(s)) == Some(e),
    ensures
        !spec_document_targets(s).contains(ext_name(e)),
{
}

/// The lead-in of the error for a PDF that cannot be read.
pub open spec fn pdf_read_lead() -> Seq<char> {
    "could not read PDF: "@
}

/// Turns the outcome of text extraction into the library's result: the
/// extracted text as it is, or a `Decode` error made of
/// `could not read PDF: ` and the extractor's reason.
pub fn extract_pdf_text(outcome: Result<String, String>) -> (r: Result<String, ConvertError>)
    ensures
        match outcome {
            Ok(t) => r matches Ok(s) && s@ == t@,
            Err(m) => r matches Err(ConvertError::Decode(d)) && d@ == pdf_read_lead() + m@,
        },
{
    match outcome {
        Ok(t) => Ok(t),
        Err(m) => {
            let mut d = chars_of("could not read PDF: ");
            proof {
                reveal_strlit("could not read PDF: ");
            }
            push_str(&mut d, m.as_str());
            Err(ConvertError::Decode(string_from_chars(&d)))
        },
    }
}

/// What each document source offers: a PDF becomes DOCX, JPG/PNG pages
/// or text; JPG and PNG images (also spelled `jpeg`) become a PDF or a
/// DOCX; plain text becomes a PDF, a picture or either subtitle format;
/// SRT and VTT become text or each other; nothing else is offered.
pub proof fn lemma_document_target_matrix(e: Option<Ext>)
    ensures
        document_targets(Some(Ext::Pdf)) == seq![Ext::Docx, Ext::Jpg, Ext::Png, Ext::Txt],
        document_targets(Some(Ext::Jpg)) == seq![Ext::Pdf, Ext::Docx],
        document_targets(Some(Ext::Jpeg)) == seq![Ext::Pdf, Ext::Docx],
        document_targets(Some(Ext::Png)) == seq![Ext::Pdf, Ext::Docx],
        document_targets(Some(Ext::Txt)) == seq![Ext::Pdf, Ext::Jpg, Ext::Png, Ext::Srt, Ext::Vtt],
        document_targets(Some(Ext::Srt)) == seq![Ext::Txt, Ext::Vtt],
        document_targets(Some(Ext::Vtt)) == seq![Ext::Txt, Ext::Srt],
        !(e == Some(Ext::Pdf) || e == Some(Ext::Jpg) || e == Some(Ext::Jpeg) || e == Some(Ext::Png) || e == Some(
            Ext::Txt,
        ) || e == Some(Ext::Srt) || e == Some(Ext::Vtt)) ==> document_targets(e) == Seq::<Ext>::empty(),
{
}

/// The text format an extension is, if it is one.
pub open spec fn text_format_of(e: Option<Ext>) -> Option<TextFormat> {
    match e {
        Some(Ext::Txt) => Some(TextFormat::Txt),
        Some(Ext::Srt) => Some(TextFormat::Srt),
        Some(Ext::Vtt) => Some(TextFormat::Vtt),
        _ => None,
    }
}

/// Every target a document source offers has a route, and each route
/// fits its two ends: a subtitle job converts from the source's text
/// format to the target's; PDF pages and rasterized text are PNG exactly
/// when the target is `png` (else `jpg`); an image embedded in a DOCX is
/// PNG exactly when the source is; PDF jobs start from a PDF and text jobs
/// from a TXT.
pub proof fn lemma_routes_fit_their_ends(x: Seq<char>, t: Seq<char>)
    ensures
        forall|e: Ext| #[trigger] document_targets(parse_ext(x)).contains(e) ==> spec_route(x, ext_name(e)) is Some,
        spec_route(x, t) matches Some(DocumentJob::Subtitles { from, to }) ==> text_format_of(parse_ext(x)) == Some(
            from,
        ) && text_format_of(parse_ext(t)) == Some(to),
        spec_route(x, t) matches Some(DocumentJob::PdfToImages { png }) ==> parse_ext(x) == Some(Ext::Pdf)
            && parse_ext(t) == Some(if png { Ext::Png } else { Ext::Jpg }),
        spec_route(x, t) matches Some(DocumentJob::TextToImage { png }) ==> parse_ext(x) == Some(Ext::Txt)
            && parse_ext(t) == Some(if png { Ext::Png } else { Ext::Jpg }),
        spec_route(x, t) matches Some(DocumentJob::ImageToDocx { png }) ==> parse_ext(t) == Some(Ext::Docx) && (png
            <==> parse_ext(x) == Some(Ext::Png)) && (parse_ext(x) == Some(Ext::Png) || parse_ext(x) == Some(Ext::Jpg)
            || parse_ext(x) == Some(Ext::Jpeg)),
        spec_route(x, t) == Some(DocumentJob::ImageToPdf) ==> parse_ext(t) == Some(Ext::Pdf) && (parse_ext(x) == Some(
            Ext::Png,
        ) || parse_ext(x) == Some(Ext::Jpg) || parse_ext(x) == Some(Ext::Jpeg)),
        spec_route(x, t) == Some(DocumentJob::PdfToText) ==> parse_ext(x) == Some(Ext::Pdf) && parse_ext(t) == Some(
            Ext::Txt,
        ),
        spec_route(x, t) == Some(DocumentJob::PdfToDocx) ==> parse_ext(x) == Some(Ext::Pdf) && parse_ext(t) == Some(
            Ext::Docx,
        ),
        spec_route(x, t) == Some(DocumentJob::TextToPdf) ==> parse_ext(x) == Some(Ext::Txt) && parse_ext(t) == Some(
            Ext::Pdf,
        ),
{
    assert forall|e: Ext| #[trigger] document_targets(parse_ext(x)).contains(e) implies spec_route(x, ext_name(e)) is Some by {
        lemma_parse_ext_name(e);
    }
}

} // verus!
