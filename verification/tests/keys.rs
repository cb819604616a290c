use satsuma_core::keys::{
    code_for_windows_vk, code_for_x11_keycode, is_supported_key, windows_vk_for_code, windows_vks,
    x11_keycode_for_code, x11_keycodes,
};
use std::collections::HashSet;

#[test]
fn every_code_is_unique() {
    let table = windows_vks();
    let codes: HashSet<&str> = table.iter().map(|(c, _)| *c).collect();
    assert_eq!(codes.len(), table.len());
}

#[test]
fn every_windows_vk_is_unique() {
    let table = windows_vks();
    let vks: HashSet<u16> = table.iter().map(|(_, vk)| *vk).collect();
    assert_eq!(vks.len(), table.len());
}

#[test]
fn every_x11_keycode_is_unique() {
    let table = x11_keycodes();
    let keycodes: HashSet<u8> = table.iter().map(|(_, kc)| *kc).collect();
    assert_eq!(keycodes.len(), table.len());
}

#[test]
fn looks_up_a_letter_key_on_both_platforms() {
    assert_eq!(windows_vk_for_code("KeyP"), Some(0x50));
    assert_eq!(x11_keycode_for_code("KeyP"), Some(33));
}

#[test]
fn round_trips_windows_vk_back_to_code() {
    assert_eq!(code_for_windows_vk(0x50), Some("KeyP"));
}

#[test]
fn round_trips_x11_keycode_back_to_code() {
    assert_eq!(code_for_x11_keycode(33), Some("KeyP"));
}

#[test]
fn unsupported_code_is_none() {
    assert!(!is_supported_key("NumpadEnter"));
    assert_eq!(windows_vk_for_code("NumpadEnter"), None);
    assert_eq!(x11_keycode_for_code("NumpadEnter"), None);
}

#[test]
fn function_key_row_is_sequential_except_f11_f12() {
    for (index, n) in (1..=10).enumerate() {
        let code = format!("F{n}");
        assert_eq!(windows_vk_for_code(&code), Some(0x70 + index as u16));
    }
}

#[test]
fn both_tables_list_the_same_codes_in_the_same_order() {
    let w = windows_vks();
    let x = x11_keycodes();
    assert_eq!(w.len(), 74);
    assert_eq!(w.len(), x.len());
    for (a, b) in w.iter().zip(x.iter()) {
        assert_eq!(a.0, b.0);
        assert_eq!(windows_vk_for_code(a.0), Some(a.1));
        assert_eq!(code_for_windows_vk(a.1), Some(a.0));
        assert_eq!(x11_keycode_for_code(b.0), Some(b.1));
        assert_eq!(code_for_x11_keycode(b.1), Some(b.0));
    }
}

#[test]
fn lookup_is_case_sensitive() {
    assert!(is_supported_key("KeyA"));
    assert!(!is_supported_key("keya"));
    assert_eq!(code_for_windows_vk(0), None);
}

#[test]
fn the_key_table_has_seventy_four_keys_each_reading_back() {
    let table = windows_vks();
    assert_eq!(table.len(), 74);
    for (code, vk) in &table {
        assert!(is_supported_key(code));
        assert_eq!(windows_vk_for_code(code), Some(*vk));
    }
}
