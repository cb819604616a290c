use satsuma_core::convert::error::ConvertError;
use satsuma_core::file_manager::{
    desktop_quote, fill_template, install_files, shell_quote, uninstall_files, IntegrationPaths,
    IntegrationTemplates,
};
use satsuma_core::integration::{
    display_path, error_report, ffmpeg_candidates, ffmpeg_search_order, pdfium_search_order, first_marked, held_combo_from_keymap,
    key_pressed, library_file_name, list_conversion_targets, matched_mode, order_themes, pick_theme_id,
    reconcile_active_theme, resolve_ffmpeg_override, resolve_pdfium_override, settings_file_path,
    system_library_dirs, theme_exists, theme_file_path, themes_dir, Platform,
};
use satsuma_core::launch_request::{parse_launch_args, MenuMode};
use satsuma_core::settings::{CustomColors, HotkeyCombo, Settings};
use satsuma_core::themes::ThemeFile;

const KEYCODE_CONTROL_L: u8 = 37;
const KEYCODE_CONTROL_R: u8 = 105;
const KEYCODE_ALT_L: u8 = 64;

fn sample_theme(name: &str) -> ThemeFile {
    ThemeFile {
        name: name.to_string(),
        colors: CustomColors {
            primary: "#123456".to_string(),
            secondary: "#654321".to_string(),
            neutral: "#ffffff".to_string(),
            surface: "#eeeeee".to_string(),
            outline: "#dddddd".to_string(),
        },
    }
}

#[test]
fn ffmpeg_override_path_that_does_not_exist_returns_none_without_falling_back() {
    // A path that does not exist does not run: the probe answers false.
    assert_eq!(resolve_ffmpeg_override("/no/such/ffmpeg-binary-at-all", false), None);
}

#[test]
fn ffmpeg_override_is_adopted_only_when_it_runs() {
    assert_eq!(resolve_ffmpeg_override("/opt/ffmpeg/bin/ffmpeg", true), Some("/opt/ffmpeg/bin/ffmpeg".to_string()));
}

#[test]
fn pdfium_override_path_that_does_not_exist_returns_none_without_falling_back() {
    // A path that does not exist is no file: the check answers false.
    assert_eq!(resolve_pdfium_override("/no/such/libpdfium.so", false), None);
}

#[test]
fn pdfium_override_resolves_to_its_parent_directory() {
    assert_eq!(resolve_pdfium_override("/opt/pdfium/lib/libpdfium.so", true), Some("/opt/pdfium/lib".to_string()));
    assert_eq!(resolve_pdfium_override("/libpdfium.so", true), Some("/".to_string()));
    assert_eq!(resolve_pdfium_override("libpdfium.so", true), Some(String::new()));
}

#[test]
fn system_library_dirs_are_nonempty_only_on_linux() {
    let dirs = system_library_dirs(Platform::Linux);
    assert!(dirs.contains(&"/usr/lib".to_string()));
    assert_eq!(dirs.len(), 4);
    assert!(system_library_dirs(Platform::Windows).is_empty());
    assert!(system_library_dirs(Platform::Other).is_empty());
}

#[test]
fn library_file_name_depends_on_the_platform() {
    assert_eq!(library_file_name(Platform::Windows), "pdfium.dll");
    assert_eq!(library_file_name(Platform::Linux), "libpdfium.so");
}

#[test]
fn first_marked_picks_the_first_candidate_that_passed() {
    let dirs = vec!["/a".to_string(), "/b".to_string(), "/c".to_string()];
    assert_eq!(first_marked(&dirs, &[false, true, true]), Some("/b".to_string()));
    assert_eq!(first_marked(&dirs, &[false, false, false]), None);
}

#[test]
fn ffmpeg_candidates_follow_the_sidecar_naming() {
    assert_eq!(
        ffmpeg_candidates("/usr/lib/satsuma/ffmpeg", Platform::Linux),
        vec![
            "/usr/lib/satsuma/ffmpeg/ffmpeg".to_string(),
            "/usr/lib/satsuma/ffmpeg/ffmpeg-x86_64-unknown-linux-gnu".to_string()
        ]
    );
    assert_eq!(
        ffmpeg_candidates("res/", Platform::Windows),
        vec!["res/ffmpeg.exe".to_string(), "res/ffmpeg-x86_64-pc-windows-msvc.exe".to_string()]
    );
}

#[test]
fn extract_archive_rejects_a_missing_source() {
    // Opening "/no/such/file.zip" fails; the failure is reported with the path.
    let error = ConvertError::Io(std::io::Error::new(std::io::ErrorKind::NotFound, "no such file"));
    let result: Result<String, String> = Err(error_report("/no/such/file.zip", &error));
    assert!(result.is_err());
    assert!(result.unwrap_err().starts_with("/no/such/file.zip: file I/O error: "));
}

#[test]
fn display_path_strips_windows_verbatim_prefix() {
    assert_eq!(
        display_path(r"\\?\C:\Program Files\Satsuma\resources\ffmpeg\ffmpeg.exe"),
        r"C:\Program Files\Satsuma\resources\ffmpeg\ffmpeg.exe"
    );
}

#[test]
fn display_path_normalizes_verbatim_unc_paths() {
    assert_eq!(display_path(r"\\?\UNC\fileserver\share\ffmpeg.exe"), r"\\fileserver\share\ffmpeg.exe");
}

#[test]
fn display_path_leaves_a_plain_path_untouched() {
    assert_eq!(
        display_path("/usr/lib/satsuma/ffmpeg/ffmpeg-x86_64-unknown-linux-gnu"),
        "/usr/lib/satsuma/ffmpeg/ffmpeg-x86_64-unknown-linux-gnu"
    );
}

#[test]
fn key_pressed_reads_the_correct_bit_regardless_of_byte_boundary() {
    let mut keys = [0u8; 32];
    keys[4] = 1 << 5;
    assert!(key_pressed(&keys, KEYCODE_CONTROL_L));
    assert!(!key_pressed(&keys, KEYCODE_CONTROL_R));
    assert!(!key_pressed(&keys, KEYCODE_ALT_L));
}

#[test]
fn key_pressed_detects_a_keycode_at_the_very_start_and_end_of_the_bitmap() {
    let mut keys = [0u8; 32];
    keys[0] = 1;
    keys[31] = 0b1000_0000;
    assert!(key_pressed(&keys, 0));
    assert!(key_pressed(&keys, 255));
    assert!(!key_pressed(&keys, 1));
}

#[test]
fn held_combo_reads_modifiers_and_the_first_supported_key() {
    let mut keys = [0u8; 32];
    let set = |keys: &mut [u8; 32], kc: u8| keys[(kc / 8) as usize] |= 1 << (kc % 8);
    set(&mut keys, 62); // Shift_R
    set(&mut keys, 108); // Alt_R
    set(&mut keys, 33); // KeyP
    set(&mut keys, 24); // KeyQ
    let combo = held_combo_from_keymap(&keys);
    assert!(!combo.ctrl && combo.alt && combo.shift && !combo.meta);
    assert_eq!(combo.key.as_deref(), Some("KeyP"));
    let empty = held_combo_from_keymap(&[0u8; 32]);
    assert!(empty.is_empty());
}

#[test]
fn theme_exists_checks_by_id() {
    let themes = vec![("citrus".to_string(), sample_theme("Citrus"))];
    assert!(theme_exists(&themes, "citrus"));
    assert!(!theme_exists(&themes, "yuzu"));
}

#[test]
fn pick_theme_id_disambiguates_a_name_collision() {
    assert_eq!(pick_theme_id("dup", &[]), "dup");
    let taken = vec!["dup".to_string(), "dup-2".to_string(), "other".to_string()];
    assert_eq!(pick_theme_id("dup", &taken), "dup-3");
}

#[test]
fn a_missing_active_theme_falls_back_to_citrus() {
    let mut settings = Settings::default();
    settings.active_theme_id = "gone".to_string();
    settings.color_overrides = Some(sample_theme("x").colors);
    let themes = vec![("citrus".to_string(), sample_theme("Citrus"))];
    let (fixed, corrected) = reconcile_active_theme(settings, &themes);
    assert!(corrected);
    assert_eq!(fixed.active_theme_id, "citrus");
    assert_eq!(fixed.color_overrides, None);
    let (same, corrected) = reconcile_active_theme(Settings::default(), &themes);
    assert!(!corrected);
    assert_eq!(same, Settings::default());
}

#[test]
fn config_paths_are_joined_under_their_directories() {
    assert_eq!(themes_dir("/home/u/.config/satsuma"), "/home/u/.config/satsuma/themes");
    assert_eq!(theme_file_path("/t/", "citrus"), "/t/citrus.json");
    assert_eq!(settings_file_path("/c"), "/c/settings.json");
}

#[test]
fn list_conversion_targets_is_empty_for_an_empty_selection() {
    assert_eq!(list_conversion_targets(&[], false), Vec::<String>::new());
}

#[test]
fn list_conversion_targets_is_empty_for_a_directory() {
    assert_eq!(list_conversion_targets(&["/tmp".to_string()], true), Vec::<String>::new());
}

#[test]
fn list_conversion_targets_excludes_the_sources_own_format() {
    let targets = list_conversion_targets(&["song.mp3".to_string()], false);
    assert!(!targets.contains(&"mp3".to_string()));
    assert!(targets.contains(&"wav".to_string()));
}

#[test]
fn list_conversion_targets_intersects_a_mixed_selection() {
    let targets = list_conversion_targets(&["a.jpg".to_string(), "b.png".to_string()], false);
    assert!(!targets.is_empty());
    assert!(!targets.contains(&"jpg".to_string()));
    assert!(!targets.contains(&"png".to_string()));
}

#[test]
fn list_conversion_targets_is_empty_for_unrelated_families() {
    let targets = list_conversion_targets(&["a.jpg".to_string(), "b.mp4".to_string()], false);
    assert_eq!(targets, Vec::<String>::new());
}

#[test]
fn mode_flag_and_paths_round_trip_into_a_launch_request() {
    let args = vec!["--mode=tools".to_string(), "C:\\Users\\me\\clip.mp4".to_string()];
    let request = parse_launch_args(&args).unwrap();
    assert_eq!(request.mode, MenuMode::Tools);
    assert_eq!(request.paths, vec!["C:\\Users\\me\\clip.mp4".to_string()]);
}

#[test]
fn matches_the_tools_combo_over_the_format_combo_when_both_are_technically_close() {
    let format = HotkeyCombo::new(false, false, true, false);
    let tools = HotkeyCombo::new(false, true, true, false);
    let shift_alt_held = HotkeyCombo::new(false, true, true, false);
    assert_eq!(matched_mode(shift_alt_held, format, tools), Some(MenuMode::Tools));
}

#[test]
fn matches_the_format_combo_when_only_its_exact_keys_are_held() {
    let format = HotkeyCombo::new(false, false, true, false);
    let tools = HotkeyCombo::new(false, true, true, false);
    let shift_only_held = HotkeyCombo::new(false, false, true, false);
    assert_eq!(matched_mode(shift_only_held, format, tools), Some(MenuMode::Formats));
}

#[test]
fn matches_nothing_for_an_unrelated_held_combination() {
    let format = HotkeyCombo::new(false, false, true, false);
    let tools = HotkeyCombo::new(false, true, true, false);
    let ctrl_only_held = HotkeyCombo::new(true, false, false, false);
    assert_eq!(matched_mode(ctrl_only_held, format, tools), None);
}

#[test]
fn matches_a_remapped_ctrl_plus_win_combination() {
    let format = HotkeyCombo::new(true, false, false, true);
    let tools = HotkeyCombo::new(true, true, false, true);
    let held = HotkeyCombo::new(true, false, false, true);
    assert_eq!(matched_mode(held, format, tools), Some(MenuMode::Formats));
}

#[test]
fn never_matches_a_binding_that_includes_an_extra_key() {
    let format_with_key = HotkeyCombo::new(false, false, true, false).with_key("KeyP");
    let tools = HotkeyCombo::new(false, true, true, false);
    let shift_only_held = HotkeyCombo::new(false, false, true, false);
    assert_eq!(matched_mode(shift_only_held, format_with_key, tools), None);
}

#[test]
fn quotes_escape_what_each_syntax_needs() {
    assert_eq!(desktop_quote("/opt/My App/satsuma"), "\"/opt/My App/satsuma\"");
    assert_eq!(desktop_quote("a\\b\"c$d`e"), "\"a\\\\b\\\"c\\$d\\`e\"");
    assert_eq!(shell_quote("/opt/it's/satsuma"), "'/opt/it'\\''s/satsuma'");
}

#[test]
fn templates_get_every_placeholder_replaced() {
    assert_eq!(
        fill_template("#!/bin/sh\nexec @SATSUMA_EXE@ --mode=formats \"$@\"\n", "'/usr/bin/satsuma'"),
        "#!/bin/sh\nexec '/usr/bin/satsuma' --mode=formats \"$@\"\n"
    );
    assert_eq!(fill_template("@SATSUMA_EXE@@SATSUMA_EXE@ @SATSUMA_EX", "x"), "xx @SATSUMA_EX");
}

#[test]
fn integration_files_go_under_the_data_home() {
    let paths = IntegrationPaths::under_data_home("/tmp/custom-xdg");
    assert_eq!(paths.applications_dir, "/tmp/custom-xdg/applications");
    let templates = IntegrationTemplates {
        desktop_entry: "Exec=@SATSUMA_EXE@ %F".to_string(),
        nautilus_convert_script: "exec @SATSUMA_EXE@ --mode=formats \"$@\"".to_string(),
        nautilus_tools_script: "exec @SATSUMA_EXE@ --mode=tools \"$@\"".to_string(),
        nemo_convert_action: "Exec=@SATSUMA_EXE@ --mode=formats %F".to_string(),
        nemo_tools_action: "Exec=@SATSUMA_EXE@ --mode=tools %F".to_string(),
        kde_service_menu: "Exec=@SATSUMA_EXE@ %F".to_string(),
    };
    let files = install_files(&paths, &templates, "/opt/satsuma");
    assert_eq!(files.len(), 6);
    assert_eq!(files[0].path, "/tmp/custom-xdg/applications/satsuma.desktop");
    assert_eq!(files[0].contents, "Exec=\"/opt/satsuma\" %F");
    assert_eq!(files[1].path, "/tmp/custom-xdg/nautilus/scripts/Convert with Satsuma");
    assert_eq!(files[1].contents, "exec '/opt/satsuma' --mode=formats \"$@\"");
    assert!(files[1].executable && files[2].executable && !files[0].executable);
    let removed = uninstall_files(&paths);
    assert_eq!(removed[5], "/tmp/custom-xdg/kio/servicemenus/satsuma.desktop");
}

#[test]
fn listed_themes_come_out_ordered_by_id() {
    let themes = vec![
        ("sunset".to_string(), sample_theme("Sunset")),
        ("citrus".to_string(), sample_theme("Citrus")),
        ("citrus-dark".to_string(), sample_theme("Citrus Dark")),
        ("Zed".to_string(), sample_theme("Zed")),
        ("\u{e9}t\u{e9}".to_string(), sample_theme("Summer")),
    ];
    let ordered = order_themes(themes);
    let ids: Vec<&str> = ordered.iter().map(|(id, _)| id.as_str()).collect();
    assert_eq!(ids, vec!["Zed", "citrus", "citrus-dark", "sunset", "\u{e9}t\u{e9}"]);
    assert_eq!(ordered[1].1.name, "Citrus");
    assert!(order_themes(Vec::new()).is_empty());
}

#[test]
fn ffmpeg_is_searched_bundled_then_beside_the_executable_then_on_path() {
    let path_dirs = vec!["/usr/bin".to_string(), "/opt/tools/".to_string()];
    let order = ffmpeg_search_order(Some("/app/res"), Some("/app/bin"), &path_dirs, Platform::Linux);
    assert_eq!(
        order,
        vec![
            "/app/res/ffmpeg/ffmpeg",
            "/app/res/ffmpeg/ffmpeg-x86_64-unknown-linux-gnu",
            "/app/bin/ffmpeg",
            "/app/bin/ffmpeg-x86_64-unknown-linux-gnu",
            "/usr/bin/ffmpeg",
            "/opt/tools/ffmpeg",
        ]
    );
    let windows = ffmpeg_search_order(None, Some("C:/app"), &["C:/bin".to_string()], Platform::Windows);
    assert_eq!(windows, vec!["C:/app/ffmpeg.exe", "C:/app/ffmpeg-x86_64-pc-windows-msvc.exe", "C:/bin/ffmpeg.exe"]);
    let no_exe_dir = ffmpeg_search_order(Some("/app/res"), None, &path_dirs, Platform::Linux);
    assert_eq!(no_exe_dir, vec!["/app/res/ffmpeg/ffmpeg", "/app/res/ffmpeg/ffmpeg-x86_64-unknown-linux-gnu"]);
}

#[test]
fn pdfium_is_searched_bundled_then_beside_the_executable_then_in_system_dirs() {
    assert_eq!(
        pdfium_search_order(Some("/app/res"), Some("/app/bin"), Platform::Linux),
        vec!["/app/res/pdfium", "/app/bin/pdfium", "/usr/local/lib", "/usr/lib/x86_64-linux-gnu", "/usr/lib64", "/usr/lib"]
    );
    assert_eq!(pdfium_search_order(None, Some("C:/app"), Platform::Windows), vec!["C:/app/pdfium"]);
    assert_eq!(pdfium_search_order(Some("/res"), None, Platform::Linux), vec!["/res/pdfium"]);
}
