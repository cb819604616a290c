use satsuma_core::convert::{
    archive, audio, document, image, plan_conversion, supported_targets,
    supported_targets_for_selection, video, Engine,
};
use satsuma_core::convert::error::ConvertError;

const AUDIO_FORMATS: &[&str] = &["mp3", "m4a", "wav", "flac", "ogg", "opus", "aiff", "wma"];

#[test]
fn supported_targets_cover_every_pairwise_direction() {
    assert_eq!(archive::supported_targets("zip"), &["tar", "gz", "rar"]);
    assert_eq!(archive::supported_targets("tar"), &["zip", "gz", "rar"]);
    assert_eq!(archive::supported_targets("gz"), &["zip", "tar", "rar"]);
    assert_eq!(archive::supported_targets("tgz"), &["zip", "tar", "rar"]);
    assert_eq!(archive::supported_targets("rar"), &["zip", "tar", "gz"]);
    assert_eq!(archive::supported_targets("ZIP"), &["tar", "gz", "rar"]);
}

#[test]
fn supported_targets_is_empty_for_unrelated_or_7z_extensions() {
    assert!(archive::supported_targets("7z").is_empty());
    assert!(archive::supported_targets("jpg").is_empty());
}

#[test]
fn supported_targets_excludes_the_source_and_lists_the_other_seven() {
    for format in AUDIO_FORMATS {
        let targets = audio::supported_targets(format);
        assert_eq!(targets.len(), 7, "wrong target count for {format}");
        assert!(!targets.contains(format), "{format} should not target itself");
        for other in AUDIO_FORMATS {
            if other != format {
                assert!(targets.contains(other), "{format} -> {other} missing");
            }
        }
    }
}

#[test]
fn supported_targets_treats_aif_as_aiff() {
    assert_eq!(audio::supported_targets("aif"), audio::supported_targets("aiff"));
}

#[test]
fn supported_targets_is_case_insensitive() {
    assert_eq!(audio::supported_targets("MP3"), audio::supported_targets("mp3"));
}

#[test]
fn supported_targets_is_empty_for_unknown_extension() {
    assert_eq!(audio::supported_targets("xyz"), &[] as &[&str]);
}

#[test]
fn svg_is_never_offered_as_a_conversion_target() {
    for source_ext in ["jpg", "png", "webp", "tiff", "bmp", "heic", "heif"] {
        assert!(
            !image::supported_targets(source_ext).contains(&"svg"),
            "{source_ext} should never offer svg as a target"
        );
    }
}

#[test]
fn jpg_and_png_also_export_to_pdf_and_docx() {
    assert!(image::supported_targets("jpg").contains(&"pdf"));
    assert!(image::supported_targets("jpg").contains(&"docx"));
    assert!(image::supported_targets("png").contains(&"pdf"));
    assert!(image::supported_targets("png").contains(&"docx"));
}

#[test]
fn only_jpg_and_png_export_to_pdf_and_docx() {
    for source_ext in ["webp", "tiff", "bmp", "heic", "heif", "svg"] {
        let targets = image::supported_targets(source_ext);
        assert!(!targets.contains(&"pdf"), "{source_ext} should not offer pdf");
        assert!(!targets.contains(&"docx"), "{source_ext} should not offer docx");
    }
}

#[test]
fn avif_is_never_offered_as_a_source() {
    assert_eq!(image::supported_targets("avif"), &[] as &[&str]);
}

#[test]
fn jpeg_alias_matches_jpg_targets() {
    assert_eq!(image::supported_targets("jpeg"), image::supported_targets("jpg"));
}

#[test]
fn tif_alias_matches_tiff_targets() {
    assert_eq!(image::supported_targets("tif"), image::supported_targets("tiff"));
}

#[test]
fn heic_and_heif_list_the_full_raster_set_but_never_convert() {
    let expected: &[&str] = &["jpg", "png", "webp", "tiff", "avif", "bmp"];
    assert_eq!(image::supported_targets("heic"), expected);
    assert_eq!(image::supported_targets("heif"), expected);
}

#[test]
fn supported_targets_matrix_matches_the_format_spec() {
    assert_eq!(
        video::supported_targets("mp4"),
        &["mov", "mkv", "webm", "avi", "wmv", "gif", "mp3"]
    );
    assert_eq!(video::supported_targets("gif"), &["mp4", "mov", "mkv", "webm", "avi", "wmv"]);
    assert!(!video::supported_targets("gif").contains(&"mp3"));
    assert_eq!(video::supported_targets("unknownext"), Vec::<&str>::new().as_slice());
    assert_eq!(video::supported_targets("MP4"), video::supported_targets("mp4"));
}

#[test]
fn supported_targets_matches_the_format_matrix() {
    assert_eq!(document::supported_targets("pdf"), &["docx", "jpg", "png", "txt"]);
    assert_eq!(document::supported_targets("PDF"), &["docx", "jpg", "png", "txt"]);
    assert_eq!(document::supported_targets("jpg"), &["pdf", "docx"]);
    assert_eq!(document::supported_targets("jpeg"), &["pdf", "docx"]);
    assert_eq!(document::supported_targets("png"), &["pdf", "docx"]);
    assert_eq!(document::supported_targets("txt"), &["pdf", "jpg", "png", "srt", "vtt"]);
    assert_eq!(document::supported_targets("srt"), &["txt", "vtt"]);
    assert_eq!(document::supported_targets("vtt"), &["txt", "srt"]);
    assert_eq!(document::supported_targets("docx"), &[] as &[&str]);
    assert_eq!(document::supported_targets("mp4"), &[] as &[&str]);
}

#[test]
fn supported_targets_is_empty_for_a_directory_style_or_extensionless_path() {
    assert_eq!(supported_targets("no_extension", false), Vec::<&str>::new());
}

#[test]
fn supported_targets_for_selection_is_empty_for_an_empty_list() {
    assert_eq!(supported_targets_for_selection(&[]), Vec::<&str>::new());
}

#[test]
fn supported_targets_for_selection_intersects_across_files() {
    let same_family = vec!["a.jpg".to_string(), "b.png".to_string()];
    let intersected = supported_targets_for_selection(&same_family);
    assert!(!intersected.is_empty());
    assert!(!intersected.contains(&"jpg"));
    assert!(!intersected.contains(&"png"));
    assert!(intersected.contains(&"webp"));

    let mixed_family = vec!["a.jpg".to_string(), "b.mp3".to_string()];
    assert_eq!(supported_targets_for_selection(&mixed_family), Vec::<&str>::new());
}

#[test]
fn selection_of_one_file_is_that_files_targets() {
    let one = vec!["C:\\clips\\movie.MP4".to_string()];
    assert_eq!(supported_targets_for_selection(&one), supported_targets("movie.mp4", false));
}

#[test]
fn mod_convert_rejects_a_missing_source_file() {
    let result = plan_conversion("/no/such/file.jpg", "png", false, true, &[]);
    assert!(matches!(result, Err(ConvertError::UnsupportedConversion { .. }) | Err(ConvertError::InvalidSource(_))));
}

#[test]
fn plan_conversion_routes_and_names_the_destination() {
    let existing = vec!["cat.jpg".to_string(), "cat.png".to_string()];
    match plan_conversion("/pics/cat.jpg", "PNG", true, false, &existing) {
        Ok((engine, dest)) => {
            assert_eq!(engine, Engine::Image);
            assert_eq!(dest, "/pics/cat 2.png");
        }
        Err(e) => panic!("unexpected error: {}", e.message()),
    }
    match plan_conversion("/pics/cat.jpg", "pdf", true, false, &existing) {
        Ok((engine, dest)) => {
            assert_eq!(engine, Engine::Document);
            assert_eq!(dest, "/pics/cat.pdf");
        }
        Err(e) => panic!("unexpected error: {}", e.message()),
    }
}

#[test]
fn plan_conversion_rejects_a_target_not_in_the_source_format_matrix() {
    let result = plan_conversion("photo.jpg", "zip", true, true, &[]);
    match result {
        Err(ConvertError::UnsupportedConversion { from, to }) => {
            assert_eq!(from, "jpg");
            assert_eq!(to, "zip");
        }
        _ => panic!("expected an unsupported conversion"),
    }
}

#[test]
fn plan_conversion_needs_ffmpeg_for_video_and_audio() {
    match plan_conversion("clip.mp4", "webm", true, false, &[]) {
        Err(e) => assert_eq!(e.message(), "conversion engine unavailable: FFmpeg sidecar not found"),
        Ok(_) => panic!("expected the engine to be unavailable"),
    }
    assert!(plan_conversion("clip.mp4", "webm", true, true, &[]).is_ok());
    match plan_conversion("README", "txt", true, true, &[]) {
        Err(e) => assert_eq!(e.message(), "invalid source file: source file has no extension"),
        Ok(_) => panic!("expected an invalid source"),
    }
}

#[test]
fn a_directory_is_offered_nothing_whatever_its_name() {
    assert!(supported_targets("album.png", true).is_empty());
    assert!(!supported_targets("album.png", false).is_empty());
}
