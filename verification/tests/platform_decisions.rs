use satsuma_core::explorer_selection::{foreground_explorer_selection, FolderView, ShellWindow};
use satsuma_core::file_type::FileCategory;
use satsuma_core::launch_request::{trigger_request, MenuMode};
use satsuma_core::modifier_hook::{modifier_of_vk, HookState, KeyTransition, ModifierKey};
use satsuma_core::settings::HotkeyCombo;
use satsuma_core::single_instance::{
    encode_wide, guard_object_names, guard_refusal_message, guard_step, GuardAction, GuardEvent, GuardWait,
};
use satsuma_core::window_focus::{
    activation_message_data, focus_left_overlay, is_active_window_change, is_wayland_session, probe_step, Poll,
    ProbeStep, WindowEvent,
};

const VK_LSHIFT: u16 = 0xA0;
const VK_LMENU: u16 = 0xA4;
const VK_A: u16 = 0x41;

#[test]
fn virtual_keys_map_to_their_modifiers() {
    assert_eq!(modifier_of_vk(0x11), Some(ModifierKey::Ctrl));
    assert_eq!(modifier_of_vk(0xA3), Some(ModifierKey::Ctrl));
    assert_eq!(modifier_of_vk(0x12), Some(ModifierKey::Alt));
    assert_eq!(modifier_of_vk(0x10), Some(ModifierKey::Shift));
    assert_eq!(modifier_of_vk(0xA1), Some(ModifierKey::Shift));
    assert_eq!(modifier_of_vk(0x5B), Some(ModifierKey::Meta));
    assert_eq!(modifier_of_vk(0x5C), Some(ModifierKey::Meta));
    assert_eq!(modifier_of_vk(VK_A), None);
}

#[test]
fn shift_press_opens_formats_once_until_released() {
    let format = HotkeyCombo::new(false, false, true, false);
    let tools = HotkeyCombo::new(false, true, true, false);
    let mut state = HookState::new();
    assert_eq!(state.on_key(VK_LSHIFT, KeyTransition::Down, &format, &tools), Some(MenuMode::Formats));
    assert!(state.armed);
    // Auto-repeat of the same key opens nothing more.
    assert_eq!(state.on_key(VK_LSHIFT, KeyTransition::Down, &format, &tools), None);
    // Adding Alt matches the tools binding, but the hook is still armed.
    assert_eq!(state.on_key(VK_LMENU, KeyTransition::Down, &format, &tools), None);
    // Releasing Alt leaves Shift held, which still matches: stays armed.
    assert_eq!(state.on_key(VK_LMENU, KeyTransition::Up, &format, &tools), None);
    assert!(state.armed);
    // Releasing Shift leaves nothing matched: disarmed.
    assert_eq!(state.on_key(VK_LSHIFT, KeyTransition::Up, &format, &tools), None);
    assert!(!state.armed);
    assert_eq!(state.on_key(VK_LSHIFT, KeyTransition::Down, &format, &tools), Some(MenuMode::Formats));
}

#[test]
fn tools_binding_opens_tools() {
    let format = HotkeyCombo::new(false, false, true, false);
    let tools = HotkeyCombo::new(false, true, true, false);
    let mut state = HookState::new();
    assert_eq!(state.on_key(VK_LMENU, KeyTransition::Down, &format, &tools), None);
    assert_eq!(state.on_key(VK_LSHIFT, KeyTransition::Down, &format, &tools), Some(MenuMode::Tools));
}

#[test]
fn non_modifier_keys_change_nothing() {
    let format = HotkeyCombo::new(false, false, true, false);
    let tools = HotkeyCombo::new(false, true, true, false);
    let mut state = HookState::new();
    let before = state;
    assert_eq!(state.on_key(VK_A, KeyTransition::Down, &format, &tools), None);
    assert_eq!(state, before);
}

#[test]
fn guard_names_follow_the_identifier() {
    let (mutex, class, window) = guard_object_names("app.satsuma");
    assert_eq!(mutex, "app.satsuma-sim-satsuma-guard");
    assert_eq!(class, "app.satsuma-sic");
    assert_eq!(window, "app.satsuma-siw");
}

#[test]
fn encode_wide_is_utf16_with_a_terminating_nul() {
    assert_eq!(encode_wide("ab"), vec![0x61, 0x62, 0]);
    assert_eq!(encode_wide(""), vec![0]);
    let expected: Vec<u16> = "é😀".encode_utf16().chain(std::iter::once(0)).collect();
    assert_eq!(encode_wide("é😀"), expected);
    assert_eq!(encode_wide("😀"), vec![0xD83D, 0xDE00, 0]);
}

#[test]
fn guard_boots_a_second_copy_only_through_the_primary() {
    assert_eq!(guard_step(GuardEvent::MutexOpened { already_existed: false }), GuardAction::RunAsPrimary);
    assert_eq!(guard_step(GuardEvent::MutexOpened { already_existed: true }), GuardAction::ProbeWindow);
    assert_eq!(guard_step(GuardEvent::WindowProbed { found: true }), GuardAction::ForwardToPrimary);
    assert_eq!(guard_step(GuardEvent::WindowProbed { found: false }), GuardAction::Wait);
    assert_eq!(
        guard_step(GuardEvent::Waited { outcome: GuardWait::Abandoned, past_deadline: true }),
        GuardAction::RunAsPrimary
    );
    assert_eq!(
        guard_step(GuardEvent::Waited { outcome: GuardWait::TimedOut, past_deadline: false }),
        GuardAction::ProbeWindow
    );
    assert_eq!(
        guard_step(GuardEvent::Waited { outcome: GuardWait::Failed, past_deadline: true }),
        GuardAction::ExitQuietly
    );
    assert!(guard_refusal_message().contains("refusing to boot a second copy"));
}

#[test]
fn wayland_sessions_are_recognized() {
    assert!(is_wayland_session(Some("wayland")));
    assert!(!is_wayland_session(Some("x11")));
    assert!(!is_wayland_session(None));
}

#[test]
fn timestamp_probe_waits_for_its_own_notify() {
    let own = Poll::Event(WindowEvent::PropertyNotify { window: 7, atom: 42, time: 1234 });
    assert_eq!(probe_step(own, 7, 42), ProbeStep::Found(1234));
    let other_window = Poll::Event(WindowEvent::PropertyNotify { window: 8, atom: 42, time: 1 });
    assert_eq!(probe_step(other_window, 7, 42), ProbeStep::Continue);
    assert_eq!(probe_step(Poll::Event(WindowEvent::Other), 7, 42), ProbeStep::Continue);
    assert_eq!(probe_step(Poll::Empty, 7, 42), ProbeStep::Sleep);
    assert_eq!(probe_step(Poll::Failed, 7, 42), ProbeStep::GiveUp);
}

#[test]
fn activation_message_carries_the_timestamp() {
    assert_eq!(activation_message_data(99), [1, 99, 0, 0, 0]);
}

#[test]
fn switching_away_from_the_visible_overlay_hides_it() {
    let change = WindowEvent::PropertyNotify { window: 1, atom: 5, time: 0 };
    assert!(is_active_window_change(change, 1, 5, true));
    assert!(!is_active_window_change(change, 1, 5, false));
    assert!(!is_active_window_change(change, 2, 5, true));
    assert!(!is_active_window_change(WindowEvent::Other, 1, 5, true));
    assert!(focus_left_overlay(Some(3), 4));
    assert!(focus_left_overlay(None, 4));
    assert!(!focus_left_overlay(Some(4), 4));
}

fn folder(handle: u64, view: FolderView) -> ShellWindow {
    ShellWindow::Folder { handle, view }
}

#[test]
fn the_foreground_folder_window_decides_the_selection() {
    let windows = vec![
        ShellWindow::Unreadable,
        folder(7, FolderView::Items(vec![Some("C:\\other.txt".to_string())])),
        folder(9, FolderView::Unreadable),
        folder(9, FolderView::Items(vec![Some("C:\\a.png".to_string()), None, Some("C:\\b.mp4".to_string())])),
        folder(9, FolderView::Items(vec![Some("C:\\late.txt".to_string())])),
    ];
    assert_eq!(
        foreground_explorer_selection(9, &windows),
        Some(vec!["C:\\a.png".to_string(), "C:\\b.mp4".to_string()])
    );
    assert_eq!(foreground_explorer_selection(7, &windows), Some(vec!["C:\\other.txt".to_string()]));
    assert_eq!(foreground_explorer_selection(0, &windows), None);
    assert_eq!(foreground_explorer_selection(5, &windows), None);
}

#[test]
fn an_empty_or_uncounted_selection_gives_nothing() {
    let empty = vec![folder(3, FolderView::Items(Vec::new())), folder(3, FolderView::Items(vec![Some("x.png".to_string())]))];
    assert_eq!(foreground_explorer_selection(3, &empty), None);
    let uncounted = vec![folder(3, FolderView::CountUnreadable), folder(3, FolderView::Items(vec![Some("x.png".to_string())]))];
    assert_eq!(foreground_explorer_selection(3, &uncounted), None);
    let unreadable_paths = vec![folder(3, FolderView::Items(vec![None, None]))];
    assert_eq!(foreground_explorer_selection(3, &unreadable_paths), Some(Vec::new()));
}

#[test]
fn a_trigger_raises_a_request_only_for_a_known_first_file() {
    let request = trigger_request(MenuMode::Tools, Some(vec!["clip.MP4".to_string(), "notes.docx".to_string()])).unwrap();
    assert_eq!(request.mode, MenuMode::Tools);
    assert_eq!(request.paths, vec!["clip.MP4".to_string(), "notes.docx".to_string()]);
    assert_eq!(request.category, FileCategory::Video);
    assert!(trigger_request(MenuMode::Formats, Some(vec!["slides.pptx".to_string(), "a.png".to_string()])).is_none());
    assert!(trigger_request(MenuMode::Formats, Some(Vec::new())).is_none());
    assert!(trigger_request(MenuMode::Formats, None).is_none());
}
