//! The XML parts of a minimal `.docx` package: `[Content_Types].xml`,
//! `_rels/.rels`, `word/document.xml` and `word/_rels/document.xml.rels`,
//! plus the names under `word/media/` of the embedded images, and the
//! package those parts are zipped into.
use crate::convert::archive::Entry;
use crate::convert::archive_read::RawEntry;
use crate::convert::archive_write::{written_items, zip_accepts_all, zip_archive_bytes, zip_entries, zip_finishes};
use crate::convert::error::ConvertError;
use crate::convert::layout::{spec_xml_escape, xml_escape};
use crate::text::{chars_of, decimal, decimal_chars, push_all, push_str, split_chars, split_on, string_from_chars, vec_views};
use vstd::prelude::*;
use vstd::string::StrSliceExecFns;
use vstd::utf8::encode_utf8;

verus! {

/// One piece of DOCX body content.
pub enum DocxBlock {
    /// A text paragraph; its `\n`s become explicit line breaks.
    Paragraph(String),
    /// An embedded image, drawn inline at the given size in EMUs.
    Image {
        /// A PNG image (else JPEG).
        png: bool,
        /// Drawing width in EMUs.
        width_emu: u64,
        /// Drawing height in EMUs.
        height_emu: u64,
    },
}

/// The XML parts of a package and the media it embeds.
pub struct DocxParts {
    /// `[Content_Types].xml`.
    pub content_types: String,
    /// `_rels/.rels`.
    pub root_rels: String,
    /// `word/document.xml`.
    pub document_xml: String,
    /// `word/_rels/document.xml.rels`.
    pub document_rels: String,
    /// For each image, in order: its file name under `word/media/` and the
    /// index of its block.
    pub media: Vec<(String, usize)>,
}

/// The start of `word/document.xml`.
pub open spec fn document_head() -> Seq<char> {
    "<?xml version=\"1.0\" encoding=\"UTF-8\" standalone=\"yes\"?>\n\
     <w:document \
     xmlns:w=\"http://schemas.openxmlformats.org/wordprocessingml/2006/main\" \
     xmlns:wp=\"http://schemas.openxmlformats.org/drawingml/2006/wordprocessingDrawing\" \
     xmlns:a=\"http://schemas.openxmlformats.org/drawingml/2006/main\" \
     xmlns:pic=\"http://schemas.openxmlformats.org/drawingml/2006/picture\" \
     xmlns:r=\"http://schemas.openxmlformats.org/officeDocument/2006/relationships\">\
     <w:body>\n"@
}

/// The runs of one paragraph line, after a break when it is not the first.
pub open spec fn line_runs(lines: Seq<Seq<char>>) -> Seq<char>
    decreases lines.len(),
{
    if lines.len() == 0 {
        Seq::empty()
    } else {
        line_runs(lines.drop_last()) + (if lines.len() > 1 {
            "<w:r><w:br/></w:r>"@
        } else {
            Seq::empty()
        }) + "<w:r><w:t xml:space=\"preserve\">"@ + spec_xml_escape(lines.last()) + "</w:t></w:r>"@
    }
}

/// A paragraph's XML: one text run per line, with breaks between lines.
pub open spec fn paragraph_xml(text: Seq<char>) -> Seq<char> {
    "<w:p>"@ + line_runs(split_on(text, seq!['\n'])) + "</w:p>\n"@
}

/// The media file extension of an image.
pub open spec fn media_ext(png: bool) -> Seq<char> {
    if png {
        "png"@
    } else {
        "jpeg"@
    }
}

/// The `k`-th image's inline drawing.
pub open spec fn image_xml(k: nat, png: bool, w: nat, h: nat) -> Seq<char> {
    let kd = decimal(k);
    "<w:p><w:r><w:drawing><wp:inline distT=\"0\" distB=\"0\" distL=\"0\" distR=\"0\"><wp:extent cx=\""@ + decimal(w)
        + "\" cy=\""@ + decimal(h) + "\"/><wp:docPr id=\""@ + kd + "\" name=\"Picture "@ + kd
        + "\"/><a:graphic><a:graphicData uri=\"http://schemas.openxmlformats.org/drawingml/2006/picture\"><pic:pic><pic:nvPicPr><pic:cNvPr id=\""@
        + kd + "\" name=\"image"@ + kd + "."@ + media_ext(png)
        + "\"/><pic:cNvPicPr/></pic:nvPicPr><pic:blipFill><a:blip r:embed=\"rId"@ + kd
        + "\"/><a:stretch><a:fillRect/></a:stretch></pic:blipFill><pic:spPr><a:xfrm><a:off x=\"0\" y=\"0\"/><a:ext cx=\""@
        + decimal(w) + "\" cy=\""@ + decimal(h)
        + "\"/></a:xfrm><a:prstGeom prst=\"rect\"><a:avLst/></a:prstGeom></pic:spPr></pic:pic></a:graphicData></a:graphic></wp:inline></w:drawing></w:r></w:p>\n"@
}

/// The `k`-th image's relationship.
pub open spec fn image_rel(k: nat, png: bool) -> Seq<char> {
    "<Relationship Id=\"rId"@ + decimal(k)
        + "\" Type=\"http://schemas.openxmlformats.org/officeDocument/2006/relationships/image\" Target=\"media/image"@
        + decimal(k) + "."@ + media_ext(png) + "\"/>"@
}

/// The number of images among `blocks`.
pub open spec fn image_count(blocks: Seq<DocxBlock>) -> nat
    decreases blocks.len(),
{
    if blocks.len() == 0 {
        0
    } else {
        image_count(blocks.drop_last()) + if blocks.last() is Image {
            1nat
        } else {
            0nat
        }
    }
}

/// The media of `blocks`: for each image, in order, its file name under
/// `word/media/` and the index of its block.
pub open spec fn media_list(blocks: Seq<DocxBlock>) -> Seq<(Seq<char>, int)>
    decreases blocks.len(),
{
    if blocks.len() == 0 {
        Seq::empty()
    } else {
        let rest = media_list(blocks.drop_last());
        match blocks.last() {
            DocxBlock::Image { png, .. } => rest.push(
                ("image"@ + decimal(image_count(blocks)) + "."@ + media_ext(png), blocks.len() - 1),
            ),
            DocxBlock::Paragraph(_) => rest,
        }
    }
}

/// A media entry by plain values.
pub open spec fn media_view(m: (String, usize)) -> (Seq<char>, int) {
    (m.0@, m.1 as int)
}

/// The body XML of `blocks`, images numbered from 1 in order.
pub open spec fn body_xml(blocks: Seq<DocxBlock>) -> Seq<char>
    decreases blocks.len(),
{
    if blocks.len() == 0 {
        Seq::empty()
    } else {
        body_xml(blocks.drop_last()) + match blocks.last() {
            DocxBlock::Paragraph(t) => paragraph_xml(t@),
            DocxBlock::Image { png, width_emu, height_emu } => image_xml(
                image_count(blocks),
                png,
                width_emu as nat,
                height_emu as nat,
            ),
        }
    }
}

/// The image relationships of `blocks`, in order.
pub open spec fn rels_xml(blocks: Seq<DocxBlock>) -> Seq<char>
    decreases blocks.len(),
{
    if blocks.len() == 0 {
        Seq::empty()
    } else {
        rels_xml(blocks.drop_last()) + match blocks.last() {
            DocxBlock::Paragraph(_) => Seq::empty(),
            DocxBlock::Image { png, .. } => image_rel(image_count(blocks), png),
        }
    }
}

/// `b` is an image of the given kind.
pub open spec fn is_image_of(b: DocxBlock, png: bool) -> bool {
    match b {
        DocxBlock::Image { png: p, .. } => p == png,
        _ => false,
    }
}

/// Whether some image of `blocks` is a PNG (`png`) or a JPEG (`!png`).
pub open spec fn has_image_kind(blocks: Seq<DocxBlock>, png: bool) -> bool {
    exists|i: int| 0 <= i < blocks.len() && #[trigger] is_image_of(blocks[i], png)
}

/// `[Content_Types].xml`: the package defaults, one default per image
/// kind present (JPEG before PNG), and the main document override.
pub open spec fn content_types_xml(blocks: Seq<DocxBlock>) -> Seq<char> {
    "<?xml version=\"1.0\" encoding=\"UTF-8\" standalone=\"yes\"?><Types xmlns=\"http://schemas.openxmlformats.org/package/2006/content-types\"><Default Extension=\"rels\" ContentType=\"application/vnd.openxmlformats-package.relationships+xml\"/><Default Extension=\"xml\" ContentType=\"application/xml\"/>"@
        + (if has_image_kind(blocks, false) {
        "<Default Extension=\"jpeg\" ContentType=\"image/jpeg\"/>"@
    } else {
        Seq::empty()
    }) + (if has_image_kind(blocks, true) {
        "<Default Extension=\"png\" ContentType=\"image/png\"/>"@
    } else {
        Seq::empty()
    })
        + "<Override PartName=\"/word/document.xml\" ContentType=\"application/vnd.openxmlformats-officedocument.wordprocessingml.document.main+xml\"/></Types>"@
}

/// `_rels/.rels`.
pub open spec fn root_rels_xml() -> Seq<char> {
    "<?xml version=\"1.0\" encoding=\"UTF-8\" standalone=\"yes\"?><Relationships xmlns=\"http://schemas.openxmlformats.org/package/2006/relationships\"><Relationship Id=\"rId1\" Type=\"http://schemas.openxmlformats.org/officeDocument/2006/relationships/officeDocument\" Target=\"word/document.xml\"/></Relationships>"@
}

proof fn lemma_kind_step(blocks: Seq<DocxBlock>, i: int, png: bool)
    requires
        0 <= i < blocks.len(),
    ensures
        has_image_kind(blocks.take(i + 1), png) == (has_image_kind(blocks.take(i), png) || is_image_of(
            blocks[i],
            png,
        )),
{
    let prev = blocks.take(i);
    let next = blocks.take(i + 1);
    if is_image_of(blocks[i], png) {
        assert(is_image_of(next[i], png));
    }
    if has_image_kind(next, png) && !is_image_of(blocks[i], png) {
        let j = choose|j: int| 0 <= j < next.len() && #[trigger] is_image_of(next[j], png);
        assert(prev[j] == next[j]);
    }
    if has_image_kind(prev, png) {
        let j = choose|j: int| 0 <= j < prev.len() && #[trigger] is_image_of(prev[j], png);
        assert(next[j] == prev[j]);
    }
}

/// The media file name of the `k`-th image.
fn media_name(k: u64, png: bool) -> (r: String)
    ensures
        r@ == "image"@ + decimal(k as nat) + "."@ + media_ext(png),
{
    let mut name = chars_of("image");
    push_decimal(&mut name, k);
    push_str(&mut name, ".");
    if png {
        push_str(&mut name, "png");
    } else {
        push_str(&mut name, "jpeg");
    }
    string_from_chars(&name)
}

/// The XML of one paragraph.
fn paragraph(text: &str, out: &mut Vec<char>)
    ensures
        final(out)@ == old(out)@ + paragraph_xml(text@),
{
    push_str(out, "<w:p>");
    let cs = chars_of(text);
    let nl: Vec<char> = vec!['\n'];
    proof {
        assert(nl@ =~= seq!['\n']);
    }
    let lines = split_chars(&cs, &nl);
    let ghost lv = vec_views(lines@);
    let ghost head = out@;
    for i in 0..lines.len()
        invariant
            lv == vec_views(lines@),
            out@ == head + line_runs(lv.take(i as int)),
    {
        proof {
            assert(lv.take(i + 1).drop_last() =~= lv.take(i as int));
            assert(lv.take(i + 1).last() == lines@[i as int]@);
        }
        if i > 0 {
            push_str(out, "<w:r><w:br/></w:r>");
        }
        push_str(out, "<w:r><w:t xml:space=\"preserve\">");
        let line = string_from_chars(&lines[i]);
        let escaped = xml_escape(line.as_str());
        push_str(out, escaped.as_str());
        push_str(out, "</w:t></w:r>");
    }
    proof {
        assert(lv.take(lv.len() as int) =~= lv);
    }
    push_str(out, "</w:p>\n");
}

/// Appends the decimal digits of `n`.
fn push_decimal(out: &mut Vec<char>, n: u64)
    ensures
        final(out)@ == old(out)@ + decimal(n as nat),
{
    let d = decimal_chars(n);
    push_all(out, &d);
}

/// The `k`-th image's drawing.
#[verifier::rlimit(60)]
fn image(k: u64, png: bool, w: u64, h: u64, out: &mut Vec<char>)
    ensures
        final(out)@ == old(out)@ + image_xml(k as nat, png, w as nat, h as nat),
{
    let ext = if png {
        "png"
    } else {
        "jpeg"
    };
    push_str(
        out,
        "<w:p><w:r><w:drawing><wp:inline distT=\"0\" distB=\"0\" distL=\"0\" distR=\"0\"><wp:extent cx=\"",
    );
    push_decimal(out, w);
    push_str(out, "\" cy=\"");
    push_decimal(out, h);
    push_str(out, "\"/><wp:docPr id=\"");
    push_decimal(out, k);
    push_str(out, "\" name=\"Picture ");
    push_decimal(out, k);
    push_str(
        out,
        "\"/><a:graphic><a:graphicData uri=\"http://schemas.openxmlformats.org/drawingml/2006/picture\"><pic:pic><pic:nvPicPr><pic:cNvPr id=\"",
    );
    push_decimal(out, k);
    push_str(out, "\" name=\"image");
    push_decimal(out, k);
    push_str(out, ".");
    push_str(out, ext);
    push_str(
        out,
        "\"/><pic:cNvPicPr/></pic:nvPicPr><pic:blipFill><a:blip r:embed=\"rId",
    );
    push_decimal(out, k);
    push_str(
        out,
        "\"/><a:stretch><a:fillRect/></a:stretch></pic:blipFill><pic:spPr><a:xfrm><a:off x=\"0\" y=\"0\"/><a:ext cx=\"",
    );
    push_decimal(out, w);
    push_str(out, "\" cy=\"");
    push_decimal(out, h);
    push_str(
        out,
        "\"/></a:xfrm><a:prstGeom prst=\"rect\"><a:avLst/></a:prstGeom></pic:spPr></pic:pic></a:graphicData></a:graphic></wp:inline></w:drawing></w:r></w:p>\n",
    );
    proof {
        assert(out@ =~= old(out)@ + image_xml(k as nat, png, w as nat, h as nat));
    }
}

/// The `k`-th image's relationship.
fn relationship(k: u64, png: bool, out: &mut Vec<char>)
    ensures
        final(out)@ == old(out)@ + image_rel(k as nat, png),
{
    let ext = if png {
        "png"
    } else {
        "jpeg"
    };
    push_str(out, "<Relationship Id=\"rId");
    push_decimal(out, k);
    push_str(
        out,
        "\" Type=\"http://schemas.openxmlformats.org/officeDocument/2006/relationships/image\" Target=\"media/image",
    );
    push_decimal(out, k);
    push_str(out, ".");
    push_str(out, ext);
    push_str(out, "\"/>");
    proof {
        assert(out@ =~= old(out)@ + image_rel(k as nat, png));
    }
}

/// Builds the XML parts of a `.docx` holding `blocks`, images numbered
/// from 1 in order and named `image<k>.png` or `image<k>.jpeg`.
pub fn docx_parts(blocks: &[DocxBlock]) -> (r: DocxParts)
    requires
        blocks@.len() < u64::MAX,
    ensures
        r.document_xml@ == document_head() + body_xml(blocks@) + "</w:body></w:document>"@,
        r.document_rels@ == "<?xml version=\"1.0\" encoding=\"UTF-8\" standalone=\"yes\"?><Relationships xmlns=\"http://schemas.openxmlformats.org/package/2006/relationships\">"@
            + rels_xml(blocks@) + "</Relationships>"@,
        r.root_rels@ == root_rels_xml(),
        r.content_types@ == content_types_xml(blocks@),
        r.media@.map_values(|m: (String, usize)| media_view(m)) == media_list(blocks@),
{
    let mut doc = chars_of(
        "<?xml version=\"1.0\" encoding=\"UTF-8\" standalone=\"yes\"?>\n\
         <w:document \
         xmlns:w=\"http://schemas.openxmlformats.org/wordprocessingml/2006/main\" \
         xmlns:wp=\"http://schemas.openxmlformats.org/drawingml/2006/wordprocessingDrawing\" \
         xmlns:a=\"http://schemas.openxmlformats.org/drawingml/2006/main\" \
         xmlns:pic=\"http://schemas.openxmlformats.org/drawingml/2006/picture\" \
         xmlns:r=\"http://schemas.openxmlformats.org/officeDocument/2006/relationships\">\
         <w:body>\n",
    );
    let ghost head = doc@;
    let mut rels: Vec<char> = Vec::new();
    let mut media: Vec<(String, usize)> = Vec::new();
    let mut counter: u64 = 0;
    let mut any_png = false;
    let mut any_jpeg = false;
    for i in 0..blocks.len()
        invariant
            blocks@.len() < u64::MAX,
            head == document_head(),
            counter == image_count(blocks@.take(i as int)),
            counter <= i,
            doc@ == head + body_xml(blocks@.take(i as int)),
            rels@ == rels_xml(blocks@.take(i as int)),
            media@.map_values(|m: (String, usize)| media_view(m)) == media_list(blocks@.take(i as int)),
            any_png == has_image_kind(blocks@.take(i as int), true),
            any_jpeg == has_image_kind(blocks@.take(i as int), false),
    {
        proof {
            assert(blocks@.take(i + 1).drop_last() =~= blocks@.take(i as int));
            assert(blocks@.take(i + 1).last() == blocks@[i as int]);
        }
        proof {
            lemma_kind_step(blocks@, i as int, true);
            lemma_kind_step(blocks@, i as int, false);
        }
        match &blocks[i] {
            DocxBlock::Paragraph(text) => {
                paragraph(text.as_str(), &mut doc);
            },
            DocxBlock::Image { png, width_emu, height_emu } => {
                counter = counter + 1;
                image(counter, *png, *width_emu, *height_emu, &mut doc);
                relationship(counter, *png, &mut rels);
                media.push((media_name(counter, *png), i));
                proof {
                    assert(media@.map_values(|m: (String, usize)| media_view(m)) =~= media_list(
                        blocks@.take(i as int),
                    ).push(media_view(media@.last())));
                }
                if *png {
                    any_png = true;
                } else {
                    any_jpeg = true;
                }
            },
        }
    }
    proof {
        assert(blocks@.take(blocks@.len() as int) =~= blocks@);
    }
    push_str(&mut doc, "</w:body></w:document>");
    let mut ct = chars_of(
        "<?xml version=\"1.0\" encoding=\"UTF-8\" standalone=\"yes\"?><Types xmlns=\"http://schemas.openxmlformats.org/package/2006/content-types\"><Default Extension=\"rels\" ContentType=\"application/vnd.openxmlformats-package.relationships+xml\"/><Default Extension=\"xml\" ContentType=\"application/xml\"/>",
    );
    if any_jpeg {
        push_str(&mut ct, "<Default Extension=\"jpeg\" ContentType=\"image/jpeg\"/>");
    }
    if any_png {
        push_str(&mut ct, "<Default Extension=\"png\" ContentType=\"image/png\"/>");
    }
    push_str(
        &mut ct,
        "<Override PartName=\"/word/document.xml\" ContentType=\"application/vnd.openxmlformats-officedocument.wordprocessingml.document.main+xml\"/></Types>",
    );
    let mut dr = chars_of(
        "<?xml version=\"1.0\" encoding=\"UTF-8\" standalone=\"yes\"?><Relationships xmlns=\"http://schemas.openxmlformats.org/package/2006/relationships\">",
    );
    push_all(&mut dr, &rels);
    push_str(&mut dr, "</Relationships>");
    proof {
        reveal_strlit("");
    }
    DocxParts {
        content_types: string_from_chars(&ct),
        root_rels: "<?xml version=\"1.0\" encoding=\"UTF-8\" standalone=\"yes\"?><Relationships xmlns=\"http://schemas.openxmlformats.org/package/2006/relationships\"><Relationship Id=\"rId1\" Type=\"http://schemas.openxmlformats.org/officeDocument/2006/relationships/officeDocument\" Target=\"word/document.xml\"/></Relationships>".to_owned(),
        document_xml: string_from_chars(&doc),
        document_rels: string_from_chars(&dr),
        media,
    }
}

/// The package member holding the image `m` (its file name and block
/// index): the block's bytes in `media`, or nothing when it has none.
pub open spec fn media_member(m: (String, usize), media: Seq<Option<Vec<u8>>>) -> RawEntry {
    ("word/media/"@ + m.0@, false, if (m.1 as int) < media.len() && media[m.1 as int] is Some {
        media[m.1 as int]->0@
    } else {
        Seq::empty()
    })
}

/// The members of the DOCX package of `parts`, in order: the four XML
/// parts as UTF-8, then each image under `word/media/`.
pub open spec fn docx_members(parts: DocxParts, media: Seq<Option<Vec<u8>>>) -> Seq<RawEntry> {
    seq![
        ("[Content_Types].xml"@, false, encode_utf8(parts.content_types@)),
        ("_rels/.rels"@, false, encode_utf8(parts.root_rels@)),
        ("word/document.xml"@, false, encode_utf8(parts.document_xml@)),
        ("word/_rels/document.xml.rels"@, false, encode_utf8(parts.document_rels@)),
    ] + parts.media@.map_values(|m: (String, usize)| media_member(m, media))
}

/// The lead-in of the error for a package the ZIP crate refuses to write.
pub open spec fn docx_write_lead() -> Seq<char> {
    "could not write DOCX package: "@
}

fn xml_member(name: &str, xml: &String) -> (e: Entry)
    ensures
        e.path@ == name@,
        !e.is_dir,
        e.data@ == encode_utf8(xml@),
{
    Entry { path: name.to_owned(), is_dir: false, data: xml.as_str().as_bytes_vec() }
}

/// Zips `parts` into a `.docx` package, every member deflated: the XML
/// parts, then each image with the bytes `media` holds for its block.
/// When the crate writes them, the bytes are those [`zip_archive_bytes`]
/// names for [`docx_members`]; a refusal is an `Other` error starting with
/// [`docx_write_lead`].
pub fn docx_package(parts: &DocxParts, media: &[Option<Vec<u8>>]) -> (r: Result<Vec<u8>, ConvertError>)
    ensures
        r is Ok == (zip_accepts_all(docx_members(*parts, media@)) && zip_finishes(docx_members(*parts, media@))),
        r matches Ok(b) ==> b@ == zip_archive_bytes(docx_members(*parts, media@)),
        r matches Err(e) ==> e matches ConvertError::Other(d) && d@.len() >= docx_write_lead().len() && d@.take(
            docx_write_lead().len() as int,
        ) == docx_write_lead(),
{
    let mut members: Vec<Entry> = Vec::new();
    members.push(xml_member("[Content_Types].xml", &parts.content_types));
    members.push(xml_member("_rels/.rels", &parts.root_rels));
    members.push(xml_member("word/document.xml", &parts.document_xml));
    members.push(xml_member("word/_rels/document.xml.rels", &parts.document_rels));
    let ghost all = docx_members(*parts, media@);
    proof {
        assert(written_items(members@) =~= all.take(4));
    }
    for k in 0..parts.media.len()
        invariant
            all == docx_members(*parts, media@),
            members@.len() == 4 + k,
            written_items(members@) =~= all.take(4 + k),
    {
        let (file_name, index) = &parts.media[k];
        let mut path = chars_of("word/media/");
        push_str(&mut path, file_name.as_str());
        let data: Vec<u8> = if *index < media.len() {
            match &media[*index] {
                Some(b) => {
                    let c = b.clone();
                    proof {
                        assert(c@ =~= b@);
                    }
                    c
                },
                None => Vec::new(),
            }
        } else {
            Vec::new()
        };
        members.push(Entry { path: string_from_chars(&path), is_dir: false, data });
        proof {
            assert(all[4 + k] == media_member(parts.media@[k as int], media@));
            assert(written_items(members@) =~= all.take(4 + k + 1));
        }
    }
    proof {
        assert(all.take(4 + parts.media@.len() as int) =~= all);
    }
    match zip_entries(members.as_slice()) {
        Ok(b) => Ok(b),
        Err(m) => {
            let mut d = chars_of("could not write DOCX package: ");
            push_str(&mut d, m.as_str());
            proof {
                assert(d@.take(docx_write_lead().len() as int) =~= docx_write_lead());
            }
            Err(ConvertError::Other(string_from_chars(&d)))
        },
    }
}

} // verus!
