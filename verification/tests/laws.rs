use satsuma_core::convert::archive::sanitize_path;
use satsuma_core::convert::subtitles::{cues_from_txt, parse_srt, parse_vtt, write_srt, write_txt, write_vtt, Cue};
use satsuma_core::convert::supported_targets;
use satsuma_core::convert::supported_targets_for_selection;
use satsuma_core::file_manager::{install_files, uninstall_files, IntegrationPaths, IntegrationTemplates};
use satsuma_core::launch_request::MenuMode;
use satsuma_core::modifier_hook::{HookState, KeyTransition};
use satsuma_core::settings::HotkeyCombo;

fn cue(start_ms: u64, end_ms: u64, text: &str) -> Cue {
    Cue { start_ms, end_ms, text: text.to_string() }
}

fn same_cues(a: &[Cue], b: &[Cue]) -> bool {
    a.len() == b.len()
        && a.iter().zip(b).all(|(x, y)| x.start_ms == y.start_ms && x.end_ms == y.end_ms && x.text == y.text)
}

#[test]
fn srt_written_then_read_gives_the_cues_back() {
    let cues = vec![
        cue(0, 1500, "First line\nsecond line"),
        cue(3_600_000, 3_601_001, "An hour in"),
        cue(360_000_000, 360_000_999, "Past a hundred hours -> still fine"),
    ];
    assert!(same_cues(&parse_srt(&write_srt(&cues)), &cues));
}

#[test]
fn vtt_written_then_read_gives_the_cues_back() {
    let cues = vec![cue(1000, 2500, "Hello world"), cue(3000, 4250, "Second\ncue")];
    assert!(same_cues(&parse_vtt(&write_vtt(&cues)), &cues));
}

#[test]
fn a_lone_carriage_return_inside_a_cue_survives_both_formats() {
    let cues = vec![cue(0, 900, "left\rright"), cue(1000, 1900, "two\nlines")];
    assert!(same_cues(&parse_srt(&write_srt(&cues)), &cues));
    assert!(same_cues(&parse_vtt(&write_vtt(&cues)), &cues));
}

#[test]
fn plain_text_through_subtitles_keeps_its_trimmed_lines() {
    let text = "Alpha\r\n  Beta  \n\n\t\nGamma";
    let cues = cues_from_txt(text);
    assert_eq!(write_txt(&parse_srt(&write_srt(&cues))), "Alpha\n\nBeta\n\nGamma");
    assert_eq!(write_txt(&parse_vtt(&write_vtt(&cues))), "Alpha\n\nBeta\n\nGamma");
}

#[test]
fn sanitized_paths_stay_inside_and_are_stable() {
    for raw in ["../../etc/passwd", "/abs/./path//x", "a\\..\\b\\c.txt", "..", "normal/dir/file"] {
        let once = sanitize_path(raw).unwrap();
        assert!(!once.starts_with('/'));
        assert!(once.split('/').all(|part| !part.is_empty() && part != "." && part != ".."));
        assert!(!once.contains('\\'));
        assert_eq!(sanitize_path(&once).unwrap(), once);
    }
}

#[test]
fn selection_targets_are_offered_by_every_path() {
    let paths = vec!["clip.mp4".to_string(), "movie.MKV".to_string(), "old.avi".to_string()];
    let common = supported_targets_for_selection(&paths);
    assert!(!common.is_empty());
    for path in &paths {
        let own = supported_targets(path, false);
        assert!(common.iter().all(|t| own.contains(t)));
    }
}

#[test]
fn every_target_all_paths_share_is_offered_for_the_selection() {
    let paths = vec!["cat.jpg".to_string(), "dog.PNG".to_string(), "logo.svg".to_string()];
    let common = supported_targets_for_selection(&paths);
    let first = supported_targets(&paths[0], false);
    for t in first {
        let shared = paths.iter().all(|p| supported_targets(p, false).contains(&t));
        assert_eq!(common.contains(&t), shared);
    }
    assert!(supported_targets_for_selection(&["a.png".to_string(), "b.mp3".to_string()]).is_empty());
}

#[test]
fn uninstall_removes_exactly_the_installed_files() {
    let paths = IntegrationPaths::under_data_home("/home/u/.local/share");
    let templates = IntegrationTemplates {
        desktop_entry: "Exec=@SATSUMA_EXE@".to_string(),
        nautilus_convert_script: "exec @SATSUMA_EXE@ --mode=formats \"$@\"".to_string(),
        nautilus_tools_script: "exec @SATSUMA_EXE@ --mode=tools \"$@\"".to_string(),
        nemo_convert_action: "Exec=@SATSUMA_EXE@ --mode=formats %F".to_string(),
        nemo_tools_action: "Exec=@SATSUMA_EXE@ --mode=tools %F".to_string(),
        kde_service_menu: "Exec=@SATSUMA_EXE@ %F".to_string(),
    };
    let written: Vec<String> =
        install_files(&paths, &templates, "/opt/satsuma/satsuma").into_iter().map(|f| f.path).collect();
    assert_eq!(written, uninstall_files(&paths));
}

#[test]
fn a_binding_with_an_extra_key_never_opens_through_the_hook() {
    let format = HotkeyCombo::new(false, false, true, false).with_key("KeyP");
    let tools = HotkeyCombo::new(false, true, true, false);
    let mut state = HookState::new();
    assert_eq!(state.on_key(0xA0, KeyTransition::Down, &format, &tools), None);
    assert_eq!(state.on_key(0xA4, KeyTransition::Down, &format, &tools), Some(MenuMode::Tools));
}

#[test]
fn the_selection_is_the_first_files_targets_narrowed_in_order() {
    let paths = vec!["a.png".to_string(), "b.webp".to_string()];
    let first = supported_targets(&paths[0], false);
    let expected: Vec<&str> =
        first.iter().copied().filter(|t| paths.iter().all(|p| supported_targets(p, false).contains(t))).collect();
    assert_eq!(supported_targets_for_selection(&paths), expected);
    let same = vec!["x.mp3".to_string(), "y.mp3".to_string(), "z.mp3".to_string()];
    assert_eq!(supported_targets_for_selection(&same), supported_targets("x.mp3", false));
}

#[test]
fn sanitized_paths_hold_no_backslash_and_refusals_are_drive_letters() {
    for raw in ["a\\b\\c", "..\\x", "C:", "dir/d:/f", "./z:", "plain"] {
        match sanitize_path(raw) {
            Ok(p) => {
                assert!(!p.is_empty() && !p.contains('\\'));
                assert_eq!(sanitize_path(&p).unwrap(), p);
            }
            Err(_) => assert!(raw
                .split(|c| c == '/' || c == '\\')
                .any(|part| part.len() == 2 && part.as_bytes()[0].is_ascii_alphabetic() && part.as_bytes()[1] == b':')),
        }
    }
    assert!(sanitize_path("C:").is_err());
    assert!(sanitize_path("dir/d:/f").is_err());
}
