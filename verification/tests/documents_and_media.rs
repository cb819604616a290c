use satsuma_core::convert::layout::{line_items, pdf_pages, wrap_lines, wrap_text_lines, xml_escape, LineItem};
use satsuma_core::convert::audio;
use satsuma_core::convert::document::{
    convert_text, pdf_docx_plan, pdf_text_output, rendered_pages_layout, route, DocumentJob,
    PagesLayout, PdfDocxPlan, TextFormat,
};
use satsuma_core::convert::docx::{docx_package, docx_parts, DocxBlock};
use satsuma_core::convert::error::ConvertError;
use satsuma_core::ext::Ext;
use satsuma_core::convert::subtitles::{
    cues_from_txt, format_timestamp, parse_srt, parse_timestamp, parse_timing_line, parse_vtt, write_srt, write_txt,
    write_vtt,
};
use satsuma_core::convert::video;

const SAMPLE_SRT: &str = "1\n00:00:01,000 --> 00:00:02,500\nHello world\n\n2\n00:00:03,000 --> 00:00:04,250\nSecond cue\n";
const SAMPLE_VTT: &str = "WEBVTT\n\n00:00:01.000 --> 00:00:02.500\nHello world\n\n00:00:03.000 --> 00:00:04.250\nSecond cue\n";

fn chars(s: &str) -> Vec<char> {
    s.chars().collect()
}

#[test]
fn srt_to_vtt_converts_timing_syntax_and_adds_header() {
    let output = convert_text(TextFormat::Srt, TextFormat::Vtt, SAMPLE_SRT);
    assert!(output.starts_with("WEBVTT\n\n"));
    assert!(output.contains("00:00:01.000 --> 00:00:02.500"));
    assert!(output.contains("Hello world"));
    assert!(!output.contains(','), "VTT output must use dot-decimal timing, not comma: {output}");
}

#[test]
fn vtt_to_srt_converts_timing_syntax_and_adds_index() {
    let output = convert_text(TextFormat::Vtt, TextFormat::Srt, SAMPLE_VTT);
    assert!(output.contains("00:00:01,000 --> 00:00:02,500"));
    assert!(output.starts_with('1'));
    assert!(output.contains("Hello world"));
}

#[test]
fn srt_to_txt_drops_timing_and_keeps_text() {
    let output = convert_text(TextFormat::Srt, TextFormat::Txt, SAMPLE_SRT);
    assert!(output.contains("Hello world"));
    assert!(output.contains("Second cue"));
    assert!(!output.contains("-->"));
    assert_eq!(output, "Hello world\n\nSecond cue");
}

#[test]
fn vtt_to_txt_drops_timing_and_keeps_text() {
    let output = convert_text(TextFormat::Vtt, TextFormat::Txt, SAMPLE_VTT);
    assert!(output.contains("Hello world"));
    assert!(output.contains("Second cue"));
}

#[test]
fn txt_to_srt_invents_sequential_timing_per_line() {
    let output = convert_text(TextFormat::Txt, TextFormat::Srt, "First line\nSecond line\n");
    assert!(output.contains("00:00:00,000 --> 00:00:02,500"));
    assert!(output.contains("First line"));
    assert!(output.contains("00:00:03,000 --> 00:00:05,500"));
    assert!(output.contains("Second line"));
}

#[test]
fn txt_to_vtt_invents_sequential_timing_per_line() {
    let output = convert_text(TextFormat::Txt, TextFormat::Vtt, "Only line\n");
    assert!(output.starts_with("WEBVTT"));
    assert!(output.contains("00:00:00.000 --> 00:00:02.500"));
    assert!(output.contains("Only line"));
}

#[test]
fn txt_to_srt_to_txt_round_trips_line_text() {
    let srt = convert_text(TextFormat::Txt, TextFormat::Srt, "Alpha\nBeta\nGamma\n");
    let recovered = convert_text(TextFormat::Srt, TextFormat::Txt, &srt);
    assert!(recovered.contains("Alpha"));
    assert!(recovered.contains("Beta"));
    assert!(recovered.contains("Gamma"));
}

#[test]
fn srt_to_vtt_to_srt_round_trips_cues_exactly() {
    let vtt = convert_text(TextFormat::Srt, TextFormat::Vtt, SAMPLE_SRT);
    let back = convert_text(TextFormat::Vtt, TextFormat::Srt, &vtt);
    let original_cues = parse_srt(SAMPLE_SRT);
    let round_tripped_cues = parse_srt(&back);
    assert_eq!(original_cues.len(), round_tripped_cues.len());
    for (original, round_tripped) in original_cues.iter().zip(round_tripped_cues.iter()) {
        assert_eq!(original.start_ms, round_tripped.start_ms);
        assert_eq!(original.end_ms, round_tripped.end_ms);
        assert_eq!(original.text, round_tripped.text);
    }
}

#[test]
fn srt_parsing_handles_crlf_missing_index_and_multiline_text() {
    let cues = parse_srt("1\r\n00:01:02,003 --> 01:00:00,000\r\nline a\r\nline b\r\n\r\n00:00:05,000 --> 00:00:06,000 x\nno index\n\n\n\njunk block\n");
    assert_eq!(cues.len(), 2);
    assert_eq!(cues[0].start_ms, 62_003);
    assert_eq!(cues[0].end_ms, 3_600_000);
    assert_eq!(cues[0].text, "line a\nline b");
    assert_eq!(cues[1].start_ms, 5_000);
    assert_eq!(cues[1].text, "no index");
}

#[test]
fn vtt_parsing_skips_headers_identifiers_and_cue_settings() {
    let cues = parse_vtt("WEBVTT\n\nNOTE a note\n\nintro\n00:10.500 --> 00:12.000 line:0 position:50%\nHi\n");
    assert_eq!(cues.len(), 1);
    assert_eq!(cues[0].start_ms, 10_500);
    assert_eq!(cues[0].end_ms, 12_000);
    assert_eq!(cues[0].text, "Hi");
}

#[test]
fn timestamps_format_and_parse_back() {
    for ms in [0u64, 1, 999, 1_000, 61_001, 3_599_999, 3_600_000, 360_000_000, 123_456_789] {
        for sep in [',', '.'] {
            let text = format_timestamp(ms, sep);
            assert_eq!(parse_timestamp(&text, sep), Some(ms));
        }
    }
    assert_eq!(format_timestamp(62_003, ','), chars("00:01:02,003"));
    assert_eq!(format_timestamp(360_000_000, '.'), chars("100:00:00.000"));
    assert_eq!(parse_timestamp(&chars("+1:2:3, 4 "), ','), Some(3_723_004));
    assert_eq!(parse_timestamp(&chars("1:2:3:4,5"), ','), None);
    assert_eq!(parse_timestamp(&chars("00:00:01.000"), ','), None);
    assert_eq!(parse_timestamp(&chars("99999999999999999:00:00,000"), ','), None);
}

#[test]
fn writers_render_the_documented_layouts() {
    let cues = cues_from_txt("  First  \n\n\tSecond\n");
    assert_eq!(cues.len(), 2);
    assert_eq!(cues[1].start_ms, 3_000);
    assert_eq!(cues[1].end_ms, 5_500);
    assert_eq!(
        write_srt(&cues),
        "1\n00:00:00,000 --> 00:00:02,500\nFirst\n\n2\n00:00:03,000 --> 00:00:05,500\nSecond\n\n"
    );
    assert_eq!(
        write_vtt(&cues),
        "WEBVTT\n\n00:00:00.000 --> 00:00:02.500\nFirst\n\n00:00:03.000 --> 00:00:05.500\nSecond\n\n"
    );
    assert_eq!(write_txt(&cues), "First\n\nSecond");
    assert_eq!(write_txt(&[]), "");
}

#[test]
fn document_routes_follow_the_format_matrix() {
    assert_eq!(route("/d/a.PDF", "txt", false).ok(), Some(DocumentJob::PdfToText));
    assert_eq!(route("/d/a.png", "DOCX", false).ok(), Some(DocumentJob::ImageToDocx { png: true }));
    assert_eq!(route("/d/a.jpeg", "docx", false).ok(), Some(DocumentJob::ImageToDocx { png: false }));
    assert_eq!(
        route("/d/a.srt", "vtt", false).ok(),
        Some(DocumentJob::Subtitles { from: TextFormat::Srt, to: TextFormat::Vtt })
    );
    assert_eq!(route("/d/a.pdf", "png", true).ok(), Some(DocumentJob::PdfToImages { png: true }));
    match route("/d/a.pdf", "jpg", false) {
        Err(ConvertError::EngineUnavailable(m)) => {
            assert_eq!(m, "PDF rasterization requires the pdfium rendering library, which was not provided")
        }
        _ => panic!("expected the engine to be unavailable"),
    }
}

#[test]
fn convert_rejects_an_unsupported_target() {
    match route("/d/notes.txt", "docx", true) {
        Err(ConvertError::UnsupportedConversion { from, to }) => {
            assert_eq!(from, "txt");
            assert_eq!(to, "docx");
        }
        _ => panic!("expected an unsupported conversion"),
    }
    match route("/d/pic.JPG", "png", true) {
        Err(ConvertError::UnsupportedConversion { from, .. }) => assert_eq!(from, "jpg"),
        _ => panic!("expected an unsupported conversion"),
    }
}

#[test]
fn scanned_pdf_to_txt_reports_the_ocr_needed_error() {
    match pdf_text_output(" \n\t ".to_string()) {
        Err(e) => assert!(e.message().contains("OCR")),
        Ok(_) => panic!("expected the scanned-PDF error"),
    }
    assert_eq!(pdf_text_output("hi\n".to_string()).ok(), Some("hi\n".to_string()));
}

#[test]
fn pdf_to_docx_splits_paragraphs_or_needs_pdfium() {
    match pdf_docx_plan("First para  \n\nSecond\n", false) {
        Ok(PdfDocxPlan::Paragraphs(ps)) => assert_eq!(ps, vec!["First para".to_string(), "Second".to_string()]),
        _ => panic!("expected paragraphs"),
    }
    assert!(matches!(pdf_docx_plan("  ", true), Ok(PdfDocxPlan::RenderedPages)));
    assert!(matches!(pdf_docx_plan("  ", false), Err(ConvertError::EngineUnavailable(_))));
}

#[test]
fn write_rendered_pages_returns_destination_for_a_single_page() {
    match rendered_pages_layout("/d/Report.pdf", "jpg", "/d/Report.jpg", 1, &[]) {
        Ok(PagesLayout::Single(d)) => assert_eq!(d, "/d/Report.jpg"),
        _ => panic!("expected a single page"),
    }
}

#[test]
fn write_rendered_pages_returns_the_sibling_folder_for_multiple_pages() {
    match rendered_pages_layout("/d/Report.pdf", "png", "/d/Report.png", 3, &["Report.pdf".to_string()]) {
        Ok(PagesLayout::Folder(dir, names)) => {
            assert_eq!(dir, "/d/Report PNG Pages");
            assert_eq!(names, vec!["Page 001.png", "Page 002.png", "Page 003.png"]);
        }
        _ => panic!("expected a folder"),
    }
    assert!(rendered_pages_layout("/d/Report.pdf", "png", "/d/Report.png", 0, &[]).is_err());
}

#[test]
fn convert_rejects_a_target_outside_the_format_matrix() {
    match video::plan("/v/clip.mp4", "png", "/v/clip.png", true) {
        Err(ConvertError::UnsupportedConversion { from, to }) => {
            assert_eq!(from, "mp4");
            assert_eq!(to, "png");
        }
        _ => panic!("expected an unsupported conversion"),
    }
}

#[test]
fn video_plan_builds_the_ffmpeg_arguments() {
    let args = video::plan("/v/clip.MOV", "WEBM", "/v/clip.webm", true).unwrap();
    assert_eq!(
        args,
        vec![
            "-y", "-i", "/v/clip.MOV", "-c:v", "libvpx-vp9", "-b:v", "0", "-crf", "30", "-pix_fmt", "yuv420p",
            "-c:a", "libopus", "/v/clip.webm"
        ]
    );
    assert!(matches!(video::plan("/v/clip.mp4", "gif", "/v/c.gif", false), Err(ConvertError::InvalidSource(_))));
    assert!(matches!(video::plan("/v/clip", "gif", "/v/c.gif", true), Err(ConvertError::InvalidSource(_))));
}

#[test]
fn video_failure_message_keeps_the_last_500_characters() {
    let long: String = "é".repeat(600);
    let msg = video::failure_message("/v/a.mp4", "gif", &[long.clone()]);
    assert_eq!(msg, format!("ffmpeg could not convert /v/a.mp4 to .gif: {}", "é".repeat(500)));
    assert_eq!(video::trim_tail("abcdef", 3), "def");
    assert_eq!(video::trim_tail("abc", 5), "abc");
    assert_eq!(video::trim_tail("ééé", 2), "éé");
    assert_eq!(video::trim_tail("aé", 1), "é");
    assert_eq!(
        video::failure_message("a.mp4", "gif", &[]),
        "ffmpeg could not convert a.mp4 to .gif: no output captured"
    );
}

#[test]
fn video_tail_keeps_the_last_forty_lines() {
    let mut tail: Vec<String> = Vec::new();
    for i in 0..45 {
        video::push_tail_line(&mut tail, format!("line {i}"));
    }
    assert_eq!(tail.len(), 40);
    assert_eq!(tail[0], "line 5");
    assert_eq!(tail[39], "line 44");
}

#[test]
fn convert_rejects_unsupported_target() {
    match audio::plan("/a/tone.wav", "jpg", "/a/out.jpg", true) {
        Err(ConvertError::UnsupportedConversion { from, to }) => {
            assert_eq!(from, "wav");
            assert_eq!(to, "jpg");
        }
        _ => panic!("expected an unsupported conversion"),
    }
}

#[test]
fn audio_plan_builds_the_ffmpeg_arguments() {
    let args = audio::plan("/a/Song.AIF", "M4A", "/a/Song.m4a", true).unwrap();
    assert_eq!(args, vec!["-y", "-i", "/a/Song.AIF", "-vn", "-c:a", "aac", "-f", "ipod", "/a/Song.m4a"]);
    assert_eq!(audio::codec_args("wav"), vec!["-c:a", "pcm_s16le"]);
    assert!(audio::codec_args("xyz").is_empty());
}

#[test]
fn audio_error_detail_is_trimmed_and_cut() {
    assert_eq!(audio::trimmed_tail("  \n "), "FFmpeg exited with an error and produced no output");
    assert_eq!(audio::trimmed_tail("\n oops \n"), "oops");
    let long = "x".repeat(600);
    assert_eq!(audio::trimmed_tail(&long), format!("...{}", "x".repeat(500)));
}

#[test]
fn text_image_is_sized_by_its_longest_line_and_line_count() {
    let layout = satsuma_core::convert::text_image::text_image_layout("hi\nthere").unwrap();
    assert_eq!(layout.lines, vec!["hi".to_string(), "there".to_string()]);
    assert_eq!(layout.width, 40 + 5 * 24);
    assert_eq!(layout.height, 40 + 2 * 24);
    let empty = satsuma_core::convert::text_image::text_image_layout("").unwrap();
    assert_eq!(empty.width, 40 + 24);
    assert_eq!(empty.height, 40 + 24);
}

#[test]
fn glyph_squares_follow_the_bitmap_font() {
    let a = satsuma_core::convert::text_image::glyph_squares('A', 20, 20);
    let expected: Vec<(u32, u32)> = (0..64u32)
        .filter(|k| font8x8::legacy::BASIC_LEGACY[65][(k / 8) as usize] & (1u8 << (k % 8)) != 0)
        .map(|k| (20 + (k % 8) * 3, 20 + (k / 8) * 3))
        .collect();
    assert!(!a.is_empty());
    assert_eq!(a, expected);
    assert!(satsuma_core::convert::text_image::glyph_squares(' ', 0, 0).is_empty());
    assert!(satsuma_core::convert::text_image::glyph_squares('é', 0, 0).is_empty());
}

#[test]
fn text_is_word_wrapped_keeping_blank_lines_and_breaking_long_words() {
    assert_eq!(
        wrap_text_lines("hello world\n\nabcdefghij xy", 5),
        vec!["hello", "world", "", "abcde", "fghij", "xy"]
    );
    assert_eq!(wrap_text_lines("a b c", 5), vec!["a b c"]);
    assert_eq!(wrap_text_lines("", 5), vec![""]);
}

#[test]
fn long_text_is_paginated_with_every_page_carrying_text() {
    let text = "line of text\n".repeat(200);
    let pages = pdf_pages(&text, 80, 60);
    assert_eq!(pages.len(), 4);
    assert!(pages.iter().all(|page| page.len() <= 60 && page.iter().any(|line| line == "line of text")));
    assert_eq!(pages.iter().map(Vec::len).sum::<usize>(), 201);
    let short = pdf_pages("hello world\n\nabcdefghij xy", 5, 4);
    assert_eq!(short, vec![vec!["hello", "world", "", "abcde"], vec!["fghij", "xy"]]);
}

#[test]
fn pdf_lines_show_spaces_as_advances() {
    let items = line_items("a  b");
    assert_eq!(items.len(), 4);
    assert!(matches!(&items[0], LineItem::Text(t) if t == "a"));
    assert!(matches!(items[1], LineItem::Space));
    assert!(matches!(items[2], LineItem::Space));
    assert!(matches!(&items[3], LineItem::Text(t) if t == "b"));
    assert!(line_items("").is_empty());
}

#[test]
fn image_lines_are_cut_at_the_column_limit() {
    assert_eq!(wrap_lines("abcdefg\n\nxy", 3), vec!["abc", "def", "g", "", "xy"]);
    assert_eq!(wrap_lines("", 3), vec![""]);
}

#[test]
fn xml_special_characters_are_escaped() {
    assert_eq!(xml_escape("a<b & \"c\" 'd'>"), "a&lt;b &amp; &quot;c&quot; &apos;d&apos;&gt;");
    assert_eq!(xml_escape("plain"), "plain");
}

#[test]
fn docx_parts_name_and_declare_the_embedded_image() {
    let blocks = vec![
        DocxBlock::Paragraph("Hi\nthere".to_string()),
        DocxBlock::Image { png: true, width_emu: 9525 * 40, height_emu: 9525 * 30 },
    ];
    let parts = docx_parts(&blocks);
    assert_eq!(parts.media, vec![("image1.png".to_string(), 1)]);
    assert!(parts.content_types.contains("image/png"));
    assert!(!parts.content_types.contains("image/jpeg"));
    assert!(parts.document_xml.contains("<w:drawing>"));
    assert!(parts.document_xml.contains("<w:br/>"));
    assert!(parts.document_rels.contains("relationships/image"));
    assert!(parts.document_rels.contains("media/image1.png"));
    let jpeg = docx_parts(&[DocxBlock::Image { png: false, width_emu: 1, height_emu: 1 }]);
    assert_eq!(jpeg.media, vec![("image1.jpeg".to_string(), 0)]);
    assert!(jpeg.content_types.contains("image/jpeg"));
}

#[test]
fn a_timing_line_gives_both_times() {
    let line: Vec<char> = "00:00:01,000 --> 00:00:02,500".chars().collect();
    assert_eq!(parse_timing_line(&line, ','), Some((1000, 2500)));
    let vtt: Vec<char> = "00:01:00.250 --> 00:01:02.000 line:0 position:50%".chars().collect();
    assert_eq!(parse_timing_line(&vtt, '.'), Some((60_250, 62_000)));
    let broken: Vec<char> = "00:00:01,000 -> 00:00:02,500".chars().collect();
    assert_eq!(parse_timing_line(&broken, ','), None);
}

#[test]
fn webm_gets_vp9_and_opus_arguments() {
    assert_eq!(
        video::ffmpeg_args("webm", "in.mp4", "out.webm"),
        vec!["-y", "-i", "in.mp4", "-c:v", "libvpx-vp9", "-b:v", "0", "-crf", "30", "-pix_fmt", "yuv420p", "-c:a", "libopus", "out.webm"]
    );
}

#[test]
fn audio_spellings_are_canonicalized() {
    assert_eq!(audio::canonicalize("AIF"), Some(Ext::Aiff));
    assert_eq!(audio::canonicalize("Mp3"), Some(Ext::Mp3));
    assert_eq!(audio::canonicalize("mp4"), None);
}

#[test]
fn docx_package_zips_the_xml_parts_then_each_image() {
    let blocks = vec![
        DocxBlock::Paragraph("hello".to_string()),
        DocxBlock::Image { png: true, width_emu: 9525, height_emu: 9525 },
    ];
    let parts = docx_parts(&blocks);
    let bytes = docx_package(&parts, &[None, Some(vec![1, 2, 3])]).unwrap();
    let mut archive = zip::ZipArchive::new(std::io::Cursor::new(bytes)).unwrap();
    let mut members = Vec::new();
    for i in 0..archive.len() {
        let mut file = archive.by_index(i).unwrap();
        let mut data = Vec::new();
        std::io::Read::read_to_end(&mut file, &mut data).unwrap();
        members.push((file.name().to_string(), data));
    }
    let names: Vec<&str> = members.iter().map(|(n, _)| n.as_str()).collect();
    assert_eq!(
        names,
        vec![
            "[Content_Types].xml",
            "_rels/.rels",
            "word/document.xml",
            "word/_rels/document.xml.rels",
            "word/media/image1.png",
        ]
    );
    assert_eq!(members[2].1, parts.document_xml.as_bytes());
    assert_eq!(members[4].1, vec![1, 2, 3]);
}
