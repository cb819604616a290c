use satsuma_core::file_type::FileCategory;
use satsuma_core::launch_request::{parse_launch_args, startup_launch, startup_view, LaunchRequest, MenuMode, StartupView};
use satsuma_core::overlay_geometry::{overlay_position, ScreenRect};
use satsuma_core::settings::{
    default_format_modifiers, default_tools_modifiers, validate_hotkeys, HotkeyCombo, Settings,
    DEFAULT_THEME_ID,
};
use satsuma_core::themes::{builtin_themes, slugify};

fn args(v: &[&str]) -> Vec<String> {
    v.iter().map(|s| s.to_string()).collect()
}

#[test]
fn returns_none_for_no_paths() {
    assert_eq!(parse_launch_args(&args(&[])), None);
    assert_eq!(parse_launch_args(&args(&["--mode=tools"])), None);
}

#[test]
fn defaults_to_formats_mode() {
    assert_eq!(
        parse_launch_args(&args(&["photo.png"])),
        Some(LaunchRequest {
            mode: MenuMode::Formats,
            paths: vec!["photo.png".to_string()],
            category: FileCategory::Image,
        })
    );
}

#[test]
fn parses_explicit_tools_mode() {
    assert_eq!(
        parse_launch_args(&args(&["--mode=tools", "clip.mp4"])),
        Some(LaunchRequest {
            mode: MenuMode::Tools,
            paths: vec!["clip.mp4".to_string()],
            category: FileCategory::Video,
        })
    );
}

#[test]
fn mode_flag_can_come_after_paths() {
    assert_eq!(
        parse_launch_args(&args(&["clip.mp4", "--mode=tools"])),
        Some(LaunchRequest {
            mode: MenuMode::Tools,
            paths: vec!["clip.mp4".to_string()],
            category: FileCategory::Video,
        })
    );
}

#[test]
fn collects_multiple_paths_in_order() {
    let result = parse_launch_args(&args(&["--mode=formats", "a.png", "b.jpg"])).unwrap();
    assert_eq!(result.paths, vec!["a.png".to_string(), "b.jpg".to_string()]);
}

#[test]
fn unrecognized_mode_value_falls_back_to_default() {
    assert_eq!(
        parse_launch_args(&args(&["--mode=bogus", "a.png"])),
        Some(LaunchRequest {
            mode: MenuMode::Formats,
            paths: vec!["a.png".to_string()],
            category: FileCategory::Image,
        })
    );
}

#[test]
fn category_is_computed_from_the_first_path() {
    let result = parse_launch_args(&args(&["presentation.pptx", "other.pptx"])).unwrap();
    assert_eq!(result.category, FileCategory::Unknown);

    let result = parse_launch_args(&args(&["bundle.zip"])).unwrap();
    assert_eq!(result.category, FileCategory::Archive);

    let result = parse_launch_args(&args(&["song.mp3"])).unwrap();
    assert_eq!(result.category, FileCategory::Audio);
}

#[test]
fn the_last_recognized_mode_flag_wins() {
    let request = parse_launch_args(&args(&["--mode=tools", "a.txt", "--mode=formats", "--mode=x"])).unwrap();
    assert_eq!(request.mode, MenuMode::Formats);
    assert_eq!(request.paths, vec!["a.txt".to_string()]);
}

#[test]
fn centers_on_the_item_rect_when_known() {
    let rect = ScreenRect { left: 100, top: 100, right: 140, bottom: 140 };
    assert_eq!(overlay_position(Some(rect), (0, 0), (320, 320)), (-40, -40));
}

#[test]
fn falls_back_to_cursor_position_when_rect_unknown() {
    assert_eq!(overlay_position(None, (500, 300), (320, 320)), (340, 140));
}

#[test]
fn rect_center_averages_corners() {
    let rect = ScreenRect { left: 10, top: 20, right: 30, bottom: 60 };
    assert_eq!(rect.center(), (20, 40));
}

#[test]
fn rect_center_rounds_towards_the_top_left() {
    let rect = ScreenRect { left: -3, top: -3, right: 0, bottom: 0 };
    assert_eq!(rect.center(), (-2, -2));
    let rect = ScreenRect { left: -3, top: 1, right: 0, bottom: 2 };
    assert_eq!(rect.center(), (-2, 1));
    assert_eq!(overlay_position(None, (0, 0), (5, 7)), (-2, -3));
}

#[test]
fn defaults_match_phase_0s_previously_hardcoded_shift_and_shift_alt() {
    let settings = Settings::default();
    assert_eq!(settings.format_modifiers, HotkeyCombo::new(false, false, true, false));
    assert_eq!(settings.tools_modifiers, HotkeyCombo::new(false, true, true, false));
    assert_eq!(settings.active_theme_id, DEFAULT_THEME_ID);
    assert_eq!(settings.color_overrides, None);
}

#[test]
fn empty_combo_is_empty() {
    assert!(HotkeyCombo::new(false, false, false, false).is_empty());
    assert!(!HotkeyCombo::new(false, false, false, true).is_empty());
}

#[test]
fn default_bindings_are_valid() {
    assert!(validate_hotkeys(&default_format_modifiers(), &default_tools_modifiers()).is_ok());
}

#[test]
fn rejects_an_empty_format_combo() {
    let empty = HotkeyCombo::new(false, false, false, false);
    let error = validate_hotkeys(&empty, &default_tools_modifiers()).unwrap_err();
    assert!(error.contains("format"));
}

#[test]
fn rejects_an_empty_tools_combo() {
    let empty = HotkeyCombo::new(false, false, false, false);
    let error = validate_hotkeys(&default_format_modifiers(), &empty).unwrap_err();
    assert!(error.contains("tools"));
}

#[test]
fn rejects_identical_bindings() {
    let combo = HotkeyCombo::new(true, false, false, false);
    let error = validate_hotkeys(&combo, &combo).unwrap_err();
    assert!(error.contains("identical"));
}

#[test]
fn allows_a_binding_that_is_a_superset_of_the_other() {
    let shift = HotkeyCombo::new(false, false, true, false);
    let shift_alt = HotkeyCombo::new(false, true, true, false);
    assert!(validate_hotkeys(&shift, &shift_alt).is_ok());
}

#[test]
fn with_key_sets_a_supported_key() {
    let combo = HotkeyCombo::new(true, false, false, false).with_key("KeyP");
    assert_eq!(combo.key.as_deref(), Some("KeyP"));
    assert!(!combo.is_empty());
}

#[test]
fn with_key_ignores_an_unrecognized_key() {
    let combo = HotkeyCombo::new(true, false, false, false).with_key("NumpadEnter");
    assert_eq!(combo.key, None);
}

#[test]
fn a_lone_key_with_no_modifiers_is_not_empty() {
    let combo = HotkeyCombo::new(false, false, false, false).with_key("KeyP");
    assert!(!combo.is_empty());
}

#[test]
fn two_combos_with_the_same_modifiers_but_different_keys_are_not_identical() {
    let p = HotkeyCombo::new(true, false, false, false).with_key("KeyP");
    let o = HotkeyCombo::new(true, false, false, false).with_key("KeyO");
    assert!(validate_hotkeys(&p, &o).is_ok());
}

#[test]
fn validation_messages_are_exact_and_order_matters_only_for_emptiness() {
    let empty = HotkeyCombo::new(false, false, false, false);
    assert_eq!(validate_hotkeys(&empty, &empty).unwrap_err(), "the format-menu combination can't be empty");
    let a = HotkeyCombo::new(true, false, false, false);
    let b = HotkeyCombo::new(false, false, false, true);
    assert_eq!(validate_hotkeys(&a, &b).is_ok(), validate_hotkeys(&b, &a).is_ok());
    assert_eq!(
        validate_hotkeys(&a, &a.clone()).unwrap_err(),
        "the format-menu and tools-menu combinations can't be identical"
    );
}

#[test]
fn slugifies_a_simple_name() {
    assert_eq!(slugify("My Theme"), "my-theme");
}

#[test]
fn collapses_punctuation_runs_and_trims_edges() {
    assert_eq!(slugify("  Wow!! Cool -- Theme??  "), "wow-cool-theme");
}

#[test]
fn falls_back_to_theme_for_an_all_punctuation_name() {
    assert_eq!(slugify("!!!"), "theme");
    assert_eq!(slugify(""), "theme");
}

#[test]
fn builtin_themes_have_unique_ids() {
    let ids: Vec<String> = builtin_themes().into_iter().map(|(id, _)| id).collect();
    let mut unique = ids.clone();
    unique.sort();
    unique.dedup();
    assert_eq!(ids.len(), unique.len());
}

#[test]
fn builtin_theme_ids_are_already_valid_slugs() {
    for (id, _) in builtin_themes() {
        assert_eq!(slugify(&id), id);
    }
}

#[test]
fn slugify_is_idempotent_on_examples() {
    for name in ["Ünïcode Ñame 42", "--a--b--", "  x  ", "日本語", "Blood Orange"] {
        let once = slugify(name);
        assert_eq!(slugify(&once), once);
    }
    assert_eq!(slugify("Ünïcode Ñame 42"), "n-code-ame-42");
}

#[test]
fn builtin_themes_carry_their_colors() {
    let themes = builtin_themes();
    assert_eq!(themes.len(), 4);
    assert_eq!(themes[0].0, "citrus");
    assert_eq!(themes[0].1.name, "Citrus");
    assert_eq!(themes[0].1.colors.primary, "#ff7a29");
    assert_eq!(themes[3].1.colors.outline, "#e6d9d2");
}

#[test]
fn startup_drops_the_autostart_flag_and_reports_it() {
    let args: Vec<String> = ["--autostart", "--mode=tools", "photo.HEIC", "--autostart"].iter().map(|a| a.to_string()).collect();
    let (autostarted, request) = startup_launch(&args);
    assert!(autostarted);
    let request = request.unwrap();
    assert_eq!(request.mode, MenuMode::Tools);
    assert_eq!(request.paths, vec!["photo.HEIC".to_string()]);
    assert_eq!(request.category, FileCategory::Image);

    let (autostarted, request) = startup_launch(&["--autostart".to_string()]);
    assert!(autostarted);
    assert!(request.is_none());

    let (autostarted, request) = startup_launch(&["notes.txt".to_string()]);
    assert!(!autostarted);
    assert_eq!(request.unwrap().category, FileCategory::Document);
}

#[test]
fn startup_shows_the_overlay_the_main_window_or_nothing() {
    let known = parse_launch_args(&["clip.mp4".to_string()]);
    assert_eq!(startup_view(false, &known), StartupView::Overlay);
    assert_eq!(startup_view(true, &known), StartupView::Overlay);
    let unknown = parse_launch_args(&["slides.pptx".to_string()]);
    assert_eq!(startup_view(false, &unknown), StartupView::HiddenOverlay);
    assert_eq!(startup_view(false, &None), StartupView::MainWindow);
    assert_eq!(startup_view(true, &None), StartupView::Nothing);
}
