use satsuma_core::file_type::{detect_category, extension_of, FileCategory};

const IMAGE_EXTENSIONS: &[&str] = &[
    "jpg", "jpeg", "png", "webp", "heic", "heif", "tiff", "tif", "avif", "bmp", "svg",
];
const VIDEO_EXTENSIONS: &[&str] = &["mp4", "mov", "mkv", "webm", "avi", "wmv", "gif"];
const AUDIO_EXTENSIONS: &[&str] = &["mp3", "m4a", "wav", "flac", "ogg", "opus", "aiff", "aif", "wma"];
const DOCUMENT_EXTENSIONS: &[&str] = &["pdf", "txt", "srt", "vtt"];
const ARCHIVE_EXTENSIONS: &[&str] = &["zip", "tar", "gz", "tgz", "rar"];

#[test]
fn detects_every_listed_image_extension() {
    for ext in IMAGE_EXTENSIONS {
        let path = format!("/home/user/photo.{ext}");
        assert_eq!(detect_category(&path), FileCategory::Image, "failed for {ext}");
    }
}

#[test]
fn detects_every_listed_video_extension() {
    for ext in VIDEO_EXTENSIONS {
        let path = format!("C:\\Users\\me\\clip.{ext}");
        assert_eq!(detect_category(&path), FileCategory::Video, "failed for {ext}");
    }
}

#[test]
fn detects_every_listed_audio_extension() {
    for ext in AUDIO_EXTENSIONS {
        let path = format!("song.{ext}");
        assert_eq!(detect_category(&path), FileCategory::Audio, "failed for {ext}");
    }
}

#[test]
fn detects_every_listed_document_extension() {
    for ext in DOCUMENT_EXTENSIONS {
        let path = format!("notes.{ext}");
        assert_eq!(detect_category(&path), FileCategory::Document, "failed for {ext}");
    }
}

#[test]
fn detects_every_listed_archive_extension() {
    for ext in ARCHIVE_EXTENSIONS {
        let path = format!("bundle.{ext}");
        assert_eq!(detect_category(&path), FileCategory::Archive, "failed for {ext}");
    }
}

#[test]
fn extension_matching_is_case_insensitive() {
    assert_eq!(detect_category("IMAGE.PNG"), FileCategory::Image);
    assert_eq!(detect_category("Clip.MoV"), FileCategory::Video);
    assert_eq!(detect_category("Track.WAV"), FileCategory::Audio);
    assert_eq!(detect_category("REPORT.PDF"), FileCategory::Document);
    assert_eq!(detect_category("Bundle.ZIP"), FileCategory::Archive);
}

#[test]
fn unknown_extension_is_unknown() {
    assert_eq!(detect_category("presentation.pptx"), FileCategory::Unknown);
    assert_eq!(detect_category("spreadsheet.xlsx"), FileCategory::Unknown);
    assert_eq!(detect_category("compressed.7z"), FileCategory::Unknown);
}

#[test]
fn no_extension_is_unknown() {
    assert_eq!(detect_category("README"), FileCategory::Unknown);
    assert_eq!(detect_category("/home/user/Makefile"), FileCategory::Unknown);
}

#[test]
fn dotfile_with_no_real_extension_is_unknown() {
    assert_eq!(detect_category(".gitignore"), FileCategory::Unknown);
}

#[test]
fn windows_style_paths_are_handled() {
    assert_eq!(
        detect_category("C:\\Users\\me\\Pictures\\vacation.jpeg"),
        FileCategory::Image
    );
}

#[test]
fn extension_of_strips_the_dot_and_lowercases() {
    assert_eq!(extension_of("a/b/c.JPG"), Some("jpg".to_string()));
    assert_eq!(extension_of("no_extension"), None);
    assert_eq!(extension_of(".hidden"), None);
}

#[test]
fn a_trailing_dot_is_no_extension() {
    assert_eq!(extension_of("name."), None);
    assert_eq!(detect_category("archive.tar."), FileCategory::Unknown);
}

#[test]
fn the_extension_comes_from_the_last_component_only() {
    assert_eq!(extension_of("dir.zip/readme"), None);
    assert_eq!(extension_of("dir.zip\\song.MP3"), Some("mp3".to_string()));
}

#[test]
fn lowercase_is_full_unicode_lower_casing() {
    assert_eq!(satsuma_core::text::lowercase("ÄBC.JPG"), "äbc.jpg");
    assert_eq!(satsuma_core::text::lowercase("Photo.HEIC"), "photo.heic");
}
