//! The non-modifier keys a hotkey binding may include, and the
//! platform identifiers needed to detect one being held: a Windows
//! virtual-key code and a Linux/X11 keycode (evdev scancode + 8). Keys are
//! named by the layout-independent `KeyboardEvent.code` strings.
use crate::text::chars_of;
use vstd::prelude::*;

verus! {

/// One supported extra key.
#[derive(Clone, Copy, Debug, PartialEq, Eq, Structural)]
pub enum Key {
    /// `KeyA`
    KeyA,
    /// `KeyB`
    KeyB,
    /// `KeyC`
    KeyC,
    /// `KeyD`
    KeyD,
    /// `KeyE`
    KeyE,
    /// `KeyF`
    KeyF,
    /// `KeyG`
    KeyG,
    /// `KeyH`
    KeyH,
    /// `KeyI`
    KeyI,
    /// `KeyJ`
    KeyJ,
    /// `KeyK`
    KeyK,
    /// `KeyL`
    KeyL,
    /// `KeyM`
    KeyM,
    /// `KeyN`
    KeyN,
    /// `KeyO`
    KeyO,
    /// `KeyP`
    KeyP,
    /// `KeyQ`
    KeyQ,
    /// `KeyR`
    KeyR,
    /// `KeyS`
    KeyS,
    /// `KeyT`
    KeyT,
    /// `KeyU`
    KeyU,
    /// `KeyV`
    KeyV,
    /// `KeyW`
    KeyW,
    /// `KeyX`
    KeyX,
    /// `KeyY`
    KeyY,
    /// `KeyZ`
    KeyZ,
    /// `Digit0`
    Digit0,
    /// `Digit1`
    Digit1,
    /// `Digit2`
    Digit2,
    /// `Digit3`
    Digit3,
    /// `Digit4`
    Digit4,
    /// `Digit5`
    Digit5,
    /// `Digit6`
    Digit6,
    /// `Digit7`
    Digit7,
    /// `Digit8`
    Digit8,
    /// `Digit9`
    Digit9,
    /// `F1`
    F1,
    /// `F2`
    F2,
    /// `F3`
    F3,
    /// `F4`
    F4,
    /// `F5`
    F5,
    /// `F6`
    F6,
    /// `F7`
    F7,
    /// `F8`
    F8,
    /// `F9`
    F9,
    /// `F10`
    F10,
    /// `F11`
    F11,
    /// `F12`
    F12,
    /// `Space`
    Space,
    /// `Tab`
    Tab,
    /// `Enter`
    Enter,
    /// `Escape`
    Escape,
    /// `Backspace`
    Backspace,
    /// `Delete`
    Delete,
    /// `Insert`
    Insert,
    /// `Home`
    Home,
    /// `End`
    End,
    /// `PageUp`
    PageUp,
    /// `PageDown`
    PageDown,
    /// `ArrowUp`
    ArrowUp,
    /// `ArrowDown`
    ArrowDown,
    /// `ArrowLeft`
    ArrowLeft,
    /// `ArrowRight`
    ArrowRight,
    /// `Minus`
    Minus,
    /// `Equal`
    Equal,
    /// `BracketLeft`
    BracketLeft,
    /// `BracketRight`
    BracketRight,
    /// `Semicolon`
    Semicolon,
    /// `Quote`
    Quote,
    /// `Backslash`
    Backslash,
    /// `Comma`
    Comma,
    /// `Period`
    Period,
    /// `Slash`
    Slash,
    /// `Backquote`
    Backquote,
}

/// The key's `KeyboardEvent.code` spelling.
pub open spec fn key_code(k: Key) -> Seq<char> {
    match k {
        Key::KeyA => seq!['K', 'e', 'y', 'A'],
        Key::KeyB => seq!['K', 'e', 'y', 'B'],
        Key::KeyC => seq!['K', 'e', 'y', 'C'],
        Key::KeyD => seq!['K', 'e', 'y', 'D'],
        Key::KeyE => seq!['K', 'e', 'y', 'E'],
        Key::KeyF => seq!['K', 'e', 'y', 'F'],
        Key::KeyG => seq!['K', 'e', 'y', 'G'],
        Key::KeyH => seq!['K', 'e', 'y', 'H'],
        Key::KeyI => seq!['K', 'e', 'y', 'I'],
        Key::KeyJ => seq!['K', 'e', 'y', 'J'],
        Key::KeyK => seq!['K', 'e', 'y', 'K'],
        Key::KeyL => seq!['K', 'e', 'y', 'L'],
        Key::KeyM => seq!['K', 'e', 'y', 'M'],
        Key::KeyN => seq!['K', 'e', 'y', 'N'],
        Key::KeyO => seq!['K', 'e', 'y', 'O'],
        Key::KeyP => seq!['K', 'e', 'y', 'P'],
        Key::KeyQ => seq!['K', 'e', 'y', 'Q'],
        Key::KeyR => seq!['K', 'e', 'y', 'R'],
        Key::KeyS => seq!['K', 'e', 'y', 'S'],
        Key::KeyT => seq!['K', 'e', 'y', 'T'],
        Key::KeyU => seq!['K', 'e', 'y', 'U'],
        Key::KeyV => seq!['K', 'e', 'y', 'V'],
        Key::KeyW => seq!['K', 'e', 'y', 'W'],
        Key::KeyX => seq!['K', 'e', 'y', 'X'],
        Key::KeyY => seq!['K', 'e', 'y', 'Y'],
        Key::KeyZ => seq!['K', 'e', 'y', 'Z'],
        Key::Digit0 => seq!['D', 'i', 'g', 'i', 't', '0'],
        Key::Digit1 => seq!['D', 'i', 'g', 'i', 't', '1'],
        Key::Digit2 => seq!['D', 'i', 'g', 'i', 't', '2'],
        Key::Digit3 => seq!['D', 'i', 'g', 'i', 't', '3'],
        Key::Digit4 => seq!['D', 'i', 'g', 'i', 't', '4'],
        Key::Digit5 => seq!['D', 'i', 'g', 'i', 't', '5'],
        Key::Digit6 => seq!['D', 'i', 'g', 'i', 't', '6'],
        Key::Digit7 => seq!['D', 'i', 'g', 'i', 't', '7'],
        Key::Digit8 => seq!['D', 'i', 'g', 'i', 't', '8'],
        Key::Digit9 => seq!['D', 'i', 'g', 'i', 't', '9'],
        Key::F1 => seq!['F', '1'],
        Key::F2 => seq!['F', '2'],
        Key::F3 => seq!['F', '3'],
        Key::F4 => seq!['F', '4'],
        Key::F5 => seq!['F', '5'],
        Key::F6 => seq!['F', '6'],
        Key::F7 => seq!['F', '7'],
        Key::F8 => seq!['F', '8'],
        Key::F9 => seq!['F', '9'],
        Key::F10 => seq!['F', '1', '0'],
        Key::F11 => seq!['F', '1', '1'],
        Key::F12 => seq!['F', '1', '2'],
        Key::Space => seq!['S', 'p', 'a', 'c', 'e'],
        Key::Tab => seq!['T', 'a', 'b'],
        Key::Enter => seq!['E', 'n', 't', 'e', 'r'],
        Key::Escape => seq!['E', 's', 'c', 'a', 'p', 'e'],
        Key::Backspace => seq!['B', 'a', 'c', 'k', 's', 'p', 'a', 'c', 'e'],
        Key::Delete => seq!['D', 'e', 'l', 'e', 't', 'e'],
        Key::Insert => seq!['I', 'n', 's', 'e', 'r', 't'],
        Key::Home => seq!['H', 'o', 'm', 'e'],
        Key::End => seq!['E', 'n', 'd'],
        Key::PageUp => seq!['P', 'a', 'g', 'e', 'U', 'p'],
        Key::PageDown => seq!['P', 'a', 'g', 'e', 'D', 'o', 'w', 'n'],
        Key::ArrowUp => seq!['A', 'r', 'r', 'o', 'w', 'U', 'p'],
        Key::ArrowDown => seq!['A', 'r', 'r', 'o', 'w', 'D', 'o', 'w', 'n'],
        Key::ArrowLeft => seq!['A', 'r', 'r', 'o', 'w', 'L', 'e', 'f', 't'],
        Key::ArrowRight => seq!['A', 'r', 'r', 'o', 'w', 'R', 'i', 'g', 'h', 't'],
        Key::Minus => seq!['M', 'i', 'n', 'u', 's'],
        Key::Equal => seq!['E', 'q', 'u', 'a', 'l'],
        Key::BracketLeft => seq!['B', 'r', 'a', 'c', 'k', 'e', 't', 'L', 'e', 'f', 't'],
        Key::BracketRight => seq!['B', 'r', 'a', 'c', 'k', 'e', 't', 'R', 'i', 'g', 'h', 't'],
        Key::Semicolon => seq!['S', 'e', 'm', 'i', 'c', 'o', 'l', 'o', 'n'],
        Key::Quote => seq!['Q', 'u', 'o', 't', 'e'],
        Key::Backslash => seq!['B', 'a', 'c', 'k', 's', 'l', 'a', 's', 'h'],
        Key::Comma => seq!['C', 'o', 'm', 'm', 'a'],
        Key::Period => seq!['P', 'e', 'r', 'i', 'o', 'd'],
        Key::Slash => seq!['S', 'l', 'a', 's', 'h'],
        Key::Backquote => seq!['B', 'a', 'c', 'k', 'q', 'u', 'o', 't', 'e'],
    }
}

/// The key's Windows virtual-key code.
pub open spec fn key_vk(k: Key) -> u16 {
    match k {
        Key::KeyA => 0x41,
        Key::KeyB => 0x42,
        Key::KeyC => 0x43,
        Key::KeyD => 0x44,
        Key::KeyE => 0x45,
        Key::KeyF => 0x46,
        Key::KeyG => 0x47,
        Key::KeyH => 0x48,
        Key::KeyI => 0x49,
        Key::KeyJ => 0x4A,
        Key::KeyK => 0x4B,
        Key::KeyL => 0x4C,
        Key::KeyM => 0x4D,
        Key::KeyN => 0x4E,
        Key::KeyO => 0x4F,
        Key::KeyP => 0x50,
        Key::KeyQ => 0x51,
        Key::KeyR => 0x52,
        Key::KeyS => 0x53,
        Key::KeyT => 0x54,
        Key::KeyU => 0x55,
        Key::KeyV => 0x56,
        Key::KeyW => 0x57,
        Key::KeyX => 0x58,
        Key::KeyY => 0x59,
        Key::KeyZ => 0x5A,
        Key::Digit0 => 0x30,
        Key::Digit1 => 0x31,
        Key::Digit2 => 0x32,
        Key::Digit3 => 0x33,
        Key::Digit4 => 0x34,
        Key::Digit5 => 0x35,
        Key::Digit6 => 0x36,
        Key::Digit7 => 0x37,
        Key::Digit8 => 0x38,
        Key::Digit9 => 0x39,
        Key::F1 => 0x70,
        Key::F2 => 0x71,
        Key::F3 => 0x72,
        Key::F4 => 0x73,
        Key::F5 => 0x74,
        Key::F6 => 0x75,
        Key::F7 => 0x76,
        Key::F8 => 0x77,
        Key::F9 => 0x78,
        Key::F10 => 0x79,
        Key::F11 => 0x7A,
        Key::F12 => 0x7B,
        Key::Space => 0x20,
        Key::Tab => 0x09,
        Key::Enter => 0x0D,
        Key::Escape => 0x1B,
        Key::Backspace => 0x08,
        Key::Delete => 0x2E,
        Key::Insert => 0x2D,
        Key::Home => 0x24,
        Key::End => 0x23,
        Key::PageUp => 0x21,
        Key::PageDown => 0x22,
        Key::ArrowUp => 0x26,
        Key::ArrowDown => 0x28,
        Key::ArrowLeft => 0x25,
        Key::ArrowRight => 0x27,
        Key::Minus => 0xBD,
        Key::Equal => 0xBB,
        Key::BracketLeft => 0xDB,
        Key::BracketRight => 0xDD,
        Key::Semicolon => 0xBA,
        Key::Quote => 0xDE,
        Key::Backslash => 0xDC,
        Key::Comma => 0xBC,
        Key::Period => 0xBE,
        Key::Slash => 0xBF,
        Key::Backquote => 0xC0,
    }
}

/// The key's X11 keycode.
pub open spec fn key_x11(k: Key) -> u8 {
    match k {
        Key::KeyA => 38,
        Key::KeyB => 56,
        Key::KeyC => 54,
        Key::KeyD => 40,
        Key::KeyE => 26,
        Key::KeyF => 41,
        Key::KeyG => 42,
        Key::KeyH => 43,
        Key::KeyI => 31,
        Key::KeyJ => 44,
        Key::KeyK => 45,
        Key::KeyL => 46,
        Key::KeyM => 58,
        Key::KeyN => 57,
        Key::KeyO => 32,
        Key::KeyP => 33,
        Key::KeyQ => 24,
        Key::KeyR => 27,
        Key::KeyS => 39,
        Key::KeyT => 28,
        Key::KeyU => 30,
        Key::KeyV => 55,
        Key::KeyW => 25,
        Key::KeyX => 53,
        Key::KeyY => 29,
        Key::KeyZ => 52,
        Key::Digit0 => 19,
        Key::Digit1 => 10,
        Key::Digit2 => 11,
        Key::Digit3 => 12,
        Key::Digit4 => 13,
        Key::Digit5 => 14,
        Key::Digit6 => 15,
        Key::Digit7 => 16,
        Key::Digit8 => 17,
        Key::Digit9 => 18,
        Key::F1 => 67,
        Key::F2 => 68,
        Key::F3 => 69,
        Key::F4 => 70,
        Key::F5 => 71,
        Key::F6 => 72,
        Key::F7 => 73,
        Key::F8 => 74,
        Key::F9 => 75,
        Key::F10 => 76,
        Key::F11 => 95,
        Key::F12 => 96,
        Key::Space => 65,
        Key::Tab => 23,
        Key::Enter => 36,
        Key::Escape => 9,
        Key::Backspace => 22,
        Key::Delete => 119,
        Key::Insert => 118,
        Key::Home => 110,
        Key::End => 115,
        Key::PageUp => 112,
        Key::PageDown => 117,
        Key::ArrowUp => 111,
        Key::ArrowDown => 116,
        Key::ArrowLeft => 113,
        Key::ArrowRight => 114,
        Key::Minus => 20,
        Key::Equal => 21,
        Key::BracketLeft => 34,
        Key::BracketRight => 35,
        Key::Semicolon => 47,
        Key::Quote => 48,
        Key::Backslash => 51,
        Key::Comma => 59,
        Key::Period => 60,
        Key::Slash => 61,
        Key::Backquote => 49,
    }
}

/// The supported keys, in table order.
pub open spec fn key_table() -> Seq<Key> {
    seq![Key::KeyA, Key::KeyB, Key::KeyC, Key::KeyD, Key::KeyE, Key::KeyF, Key::KeyG, Key::KeyH, Key::KeyI, Key::KeyJ, Key::KeyK, Key::KeyL, Key::KeyM, Key::KeyN, Key::KeyO, Key::KeyP, Key::KeyQ, Key::KeyR, Key::KeyS, Key::KeyT, Key::KeyU, Key::KeyV, Key::KeyW, Key::KeyX, Key::KeyY, Key::KeyZ, Key::Digit0, Key::Digit1, Key::Digit2, Key::Digit3, Key::Digit4, Key::Digit5, Key::Digit6, Key::Digit7, Key::Digit8, Key::Digit9, Key::F1, Key::F2, Key::F3, Key::F4, Key::F5, Key::F6, Key::F7, Key::F8, Key::F9, Key::F10, Key::F11, Key::F12, Key::Space, Key::Tab, Key::Enter, Key::Escape, Key::Backspace, Key::Delete, Key::Insert, Key::Home, Key::End, Key::PageUp, Key::PageDown, Key::ArrowUp, Key::ArrowDown, Key::ArrowLeft, Key::ArrowRight, Key::Minus, Key::Equal, Key::BracketLeft, Key::BracketRight, Key::Semicolon, Key::Quote, Key::Backslash, Key::Comma, Key::Period, Key::Slash, Key::Backquote]
}

/// The key spelled exactly `s`, if any.
pub open spec fn key_of_code(s: Seq<char>) -> Option<Key> {
    if s.len() == 4 && s[0] == 'K' && s[1] == 'e' && s[2] == 'y' && s[3] == 'A' {
        Some(Key::KeyA)
    } else if s.len() == 4 && s[0] == 'K' && s[1] == 'e' && s[2] == 'y' && s[3] == 'B' {
        Some(Key::KeyB)
    } else if s.len() == 4 && s[0] == 'K' && s[1] == 'e' && s[2] == 'y' && s[3] == 'C' {
        Some(Key::KeyC)
    } else if s.len() == 4 && s[0] == 'K' && s[1] == 'e' && s[2] == 'y' && s[3] == 'D' {
        Some(Key::KeyD)
    } else if s.len() == 4 && s[0] == 'K' && s[1] == 'e' && s[2] == 'y' && s[3] == 'E' {
        Some(Key::KeyE)
    } else if s.len() == 4 && s[0] == 'K' && s[1] == 'e' && s[2] == 'y' && s[3] == 'F' {
        Some(Key::KeyF)
    } else if s.len() == 4 && s[0] == 'K' && s[1] == 'e' && s[2] == 'y' && s[3] == 'G' {
        Some(Key::KeyG)
    } else if s.len() == 4 && s[0] == 'K' && s[1] == 'e' && s[2] == 'y' && s[3] == 'H' {
        Some(Key::KeyH)
    } else if s.len() == 4 && s[0] == 'K' && s[1] == 'e' && s[2] == 'y' && s[3] == 'I' {
        Some(Key::KeyI)
    } else if s.len() == 4 && s[0] == 'K' && s[1] == 'e' && s[2] == 'y' && s[3] == 'J' {
        Some(Key::KeyJ)
    } else if s.len() == 4 && s[0] == 'K' && s[1] == 'e' && s[2] == 'y' && s[3] == 'K' {
        Some(Key::KeyK)
    } else if s.len() == 4 && s[0] == 'K' && s[1] == 'e' && s[2] == 'y' && s[3] == 'L' {
        Some(Key::KeyL)
    } else if s.len() == 4 && s[0] == 'K' && s[1] == 'e' && s[2] == 'y' && s[3] == 'M' {
        Some(Key::KeyM)
    } else if s.len() == 4 && s[0] == 'K' && s[1] == 'e' && s[2] == 'y' && s[3] == 'N' {
        Some(Key::KeyN)
    } else if s.len() == 4 && s[0] == 'K' && s[1] == 'e' && s[2] == 'y' && s[3] == 'O' {
        Some(Key::KeyO)
    } else if s.len() == 4 && s[0] == 'K' && s[1] == 'e' && s[2] == 'y' && s[3] == 'P' {
        Some(Key::KeyP)
    } else if s.len() == 4 && s[0] == 'K' && s[1] == 'e' && s[2] == 'y' && s[3] == 'Q' {
        Some(Key::KeyQ)
    } else if s.len() == 4 && s[0] == 'K' && s[1] == 'e' && s[2] == 'y' && s[3] == 'R' {
        Some(Key::KeyR)
    } else if s.len() == 4 && s[0] == 'K' && s[1] == 'e' && s[2] == 'y' && s[3] == 'S' {
        Some(Key::KeyS)
    } else if s.len() == 4 && s[0] == 'K' && s[1] == 'e' && s[2] == 'y' && s[3] == 'T' {
        Some(Key::KeyT)
    } else if s.len() == 4 && s[0] == 'K' && s[1] == 'e' && s[2] == 'y' && s[3] == 'U' {
        Some(Key::KeyU)
    } else if s.len() == 4 && s[0] == 'K' && s[1] == 'e' && s[2] == 'y' && s[3] == 'V' {
        Some(Key::KeyV)
    } else if s.len() == 4 && s[0] == 'K' && s[1] == 'e' && s[2] == 'y' && s[3] == 'W' {
        Some(Key::KeyW)
    } else if s.len() == 4 && s[0] == 'K' && s[1] == 'e' && s[2] == 'y' && s[3] == 'X' {
        Some(Key::KeyX)
    } else if s.len() == 4 && s[0] == 'K' && s[1] == 'e' && s[2] == 'y' && s[3] == 'Y' {
        Some(Key::KeyY)
    } else if s.len() == 4 && s[0] == 'K' && s[1] == 'e' && s[2] == 'y' && s[3] == 'Z' {
        Some(Key::KeyZ)
    } else if s.len() == 6 && s[0] == 'D' && s[1] == 'i' && s[2] == 'g' && s[3] == 'i' && s[4] == 't' && s[5] == '0' {
        Some(Key::Digit0)
    } else if s.len() == 6 && s[0] == 'D' && s[1] == 'i' && s[2] == 'g' && s[3] == 'i' && s[4] == 't' && s[5] == '1' {
        Some(Key::Digit1)
    } else if s.len() == 6 && s[0] == 'D' && s[1] == 'i' && s[2] == 'g' && s[3] == 'i' && s[4] == 't' && s[5] == '2' {
        Some(Key::Digit2)
    } else if s.len() == 6 && s[0] == 'D' && s[1] == 'i' && s[2] == 'g' && s[3] == 'i' && s[4] == 't' && s[5] == '3' {
        Some(Key::Digit3)
    } else if s.len() == 6 && s[0] == 'D' && s[1] == 'i' && s[2] == 'g' && s[3] == 'i' && s[4] == 't' && s[5] == '4' {
        Some(Key::Digit4)
    } else if s.len() == 6 && s[0] == 'D' && s[1] == 'i' && s[2] == 'g' && s[3] == 'i' && s[4] == 't' && s[5] == '5' {
        Some(Key::Digit5)
    } else if s.len() == 6 && s[0] == 'D' && s[1] == 'i' && s[2] == 'g' && s[3] == 'i' && s[4] == 't' && s[5] == '6' {
        Some(Key::Digit6)
    } else if s.len() == 6 && s[0] == 'D' && s[1] == 'i' && s[2] == 'g' && s[3] == 'i' && s[4] == 't' && s[5] == '7' {
        Some(Key::Digit7)
    } else if s.len() == 6 && s[0] == 'D' && s[1] == 'i' && s[2] == 'g' && s[3] == 'i' && s[4] == 't' && s[5] == '8' {
        Some(Key::Digit8)
    } else if s.len() == 6 && s[0] == 'D' && s[1] == 'i' && s[2] == 'g' && s[3] == 'i' && s[4] == 't' && s[5] == '9' {
        Some(Key::Digit9)
    } else if s.len() == 2 && s[0] == 'F' && s[1] == '1' {
        Some(Key::F1)
    } else if s.len() == 2 && s[0] == 'F' && s[1] == '2' {
        Some(Key::F2)
    } else if s.len() == 2 && s[0] == 'F' && s[1] == '3' {
        Some(Key::F3)
    } else if s.len() == 2 && s[0] == 'F' && s[1] == '4' {
        Some(Key::F4)
    } else if s.len() == 2 && s[0] == 'F' && s[1] == '5' {
        Some(Key::F5)
    } else if s.len() == 2 && s[0] == 'F' && s[1] == '6' {
        Some(Key::F6)
    } else if s.len() == 2 && s[0] == 'F' && s[1] == '7' {
        Some(Key::F7)
    } else if s.len() == 2 && s[0] == 'F' && s[1] == '8' {
        Some(Key::F8)
    } else if s.len() == 2 && s[0] == 'F' && s[1] == '9' {
        Some(Key::F9)
    } else if s.len() == 3 && s[0] == 'F' && s[1] == '1' && s[2] == '0' {
        Some(Key::F10)
    } else if s.len() == 3 && s[0] == 'F' && s[1] == '1' && s[2] == '1' {
        Some(Key::F11)
    } else if s.len() == 3 && s[0] == 'F' && s[1] == '1' && s[2] == '2' {
        Some(Key::F12)
    } else if s.len() == 5 && s[0] == 'S' && s[1] == 'p' && s[2] == 'a' && s[3] == 'c' && s[4] == 'e' {
        Some(Key::Space)
    } else if s.len() == 3 && s[0] == 'T' && s[1] == 'a' && s[2] == 'b' {
        Some(Key::Tab)
    } else if s.len() == 5 && s[0] == 'E' && s[1] == 'n' && s[2] == 't' && s[3] == 'e' && s[4] == 'r' {
        Some(Key::Enter)
    } else if s.len() == 6 && s[0] == 'E' && s[1] == 's' && s[2] == 'c' && s[3] == 'a' && s[4] == 'p' && s[5] == 'e' {
        Some(Key::Escape)
    } else if s.len() == 9 && s[0] == 'B' && s[1] == 'a' && s[2] == 'c' && s[3] == 'k' && s[4] == 's' && s[5] == 'p' && s[6] == 'a' && s[7] == 'c' && s[8] == 'e' {
        Some(Key::Backspace)
    } else if s.len() == 6 && s[0] == 'D' && s[1] == 'e' && s[2] == 'l' && s[3] == 'e' && s[4] == 't' && s[5] == 'e' {
        Some(Key::Delete)
    } else if s.len() == 6 && s[0] == 'I' && s[1] == 'n' && s[2] == 's' && s[3] == 'e' && s[4] == 'r' && s[5] == 't' {
        Some(Key::Insert)
    } else if s.len() == 4 && s[0] == 'H' && s[1] == 'o' && s[2] == 'm' && s[3] == 'e' {
        Some(Key::Home)
    } else if s.len() == 3 && s[0] == 'E' && s[1] == 'n' && s[2] == 'd' {
        Some(Key::End)
    } else if s.len() == 6 && s[0] == 'P' && s[1] == 'a' && s[2] == 'g' && s[3] == 'e' && s[4] == 'U' && s[5] == 'p' {
        Some(Key::PageUp)
    } else if s.len() == 8 && s[0] == 'P' && s[1] == 'a' && s[2] == 'g' && s[3] == 'e' && s[4] == 'D' && s[5] == 'o' && s[6] == 'w' && s[7] == 'n' {
        Some(Key::PageDown)
    } else if s.len() == 7 && s[0] == 'A' && s[1] == 'r' && s[2] == 'r' && s[3] == 'o' && s[4] == 'w' && s[5] == 'U' && s[6] == 'p' {
        Some(Key::ArrowUp)
    } else if s.len() == 9 && s[0] == 'A' && s[1] == 'r' && s[2] == 'r' && s[3] == 'o' && s[4] == 'w' && s[5] == 'D' && s[6] == 'o' && s[7] == 'w' && s[8] == 'n' {
        Some(Key::ArrowDown)
    } else if s.len() == 9 && s[0] == 'A' && s[1] == 'r' && s[2] == 'r' && s[3] == 'o' && s[4] == 'w' && s[5] == 'L' && s[6] == 'e' && s[7] == 'f' && s[8] == 't' {
        Some(Key::ArrowLeft)
    } else if s.len() == 10 && s[0] == 'A' && s[1] == 'r' && s[2] == 'r' && s[3] == 'o' && s[4] == 'w' && s[5] == 'R' && s[6] == 'i' && s[7] == 'g' && s[8] == 'h' && s[9] == 't' {
        Some(Key::ArrowRight)
    } else if s.len() == 5 && s[0] == 'M' && s[1] == 'i' && s[2] == 'n' && s[3] == 'u' && s[4] == 's' {
        Some(Key::Minus)
    } else if s.len() == 5 && s[0] == 'E' && s[1] == 'q' && s[2] == 'u' && s[3] == 'a' && s[4] == 'l' {
        Some(Key::Equal)
    } else if s.len() == 11 && s[0] == 'B' && s[1] == 'r' && s[2] == 'a' && s[3] == 'c' && s[4] == 'k' && s[5] == 'e' && s[6] == 't' && s[7] == 'L' && s[8] == 'e' && s[9] == 'f' && s[10] == 't' {
        Some(Key::BracketLeft)
    } else if s.len() == 12 && s[0] == 'B' && s[1] == 'r' && s[2] == 'a' && s[3] == 'c' && s[4] == 'k' && s[5] == 'e' && s[6] == 't' && s[7] == 'R' && s[8] == 'i' && s[9] == 'g' && s[10] == 'h' && s[11] == 't' {
        Some(Key::BracketRight)
    } else if s.len() == 9 && s[0] == 'S' && s[1] == 'e' && s[2] == 'm' && s[3] == 'i' && s[4] == 'c' && s[5] == 'o' && s[6] == 'l' && s[7] == 'o' && s[8] == 'n' {
        Some(Key::Semicolon)
    } else if s.len() == 5 && s[0] == 'Q' && s[1] == 'u' && s[2] == 'o' && s[3] == 't' && s[4] == 'e' {
        Some(Key::Quote)
    } else if s.len() == 9 && s[0] == 'B' && s[1] == 'a' && s[2] == 'c' && s[3] == 'k' && s[4] == 's' && s[5] == 'l' && s[6] == 'a' && s[7] == 's' && s[8] == 'h' {
        Some(Key::Backslash)
    } else if s.len() == 5 && s[0] == 'C' && s[1] == 'o' && s[2] == 'm' && s[3] == 'm' && s[4] == 'a' {
        Some(Key::Comma)
    } else if s.len() == 6 && s[0] == 'P' && s[1] == 'e' && s[2] == 'r' && s[3] == 'i' && s[4] == 'o' && s[5] == 'd' {
        Some(Key::Period)
    } else if s.len() == 5 && s[0] == 'S' && s[1] == 'l' && s[2] == 'a' && s[3] == 's' && s[4] == 'h' {
        Some(Key::Slash)
    } else if s.len() == 9 && s[0] == 'B' && s[1] == 'a' && s[2] == 'c' && s[3] == 'k' && s[4] == 'q' && s[5] == 'u' && s[6] == 'o' && s[7] == 't' && s[8] == 'e' {
        Some(Key::Backquote)
    } else {
        None
    }
}

/// The key with Windows virtual-key code `vk`, if any.
pub open spec fn key_of_vk(vk: u16) -> Option<Key> {
    if vk == 0x41 {
        Some(Key::KeyA)
    } else if vk == 0x42 {
        Some(Key::KeyB)
    } else if vk == 0x43 {
        Some(Key::KeyC)
    } else if vk == 0x44 {
        Some(Key::KeyD)
    } else if vk == 0x45 {
        Some(Key::KeyE)
    } else if vk == 0x46 {
        Some(Key::KeyF)
    } else if vk == 0x47 {
        Some(Key::KeyG)
    } else if vk == 0x48 {
        Some(Key::KeyH)
    } else if vk == 0x49 {
        Some(Key::KeyI)
    } else if vk == 0x4A {
        Some(Key::KeyJ)
    } else if vk == 0x4B {
        Some(Key::KeyK)
    } else if vk == 0x4C {
        Some(Key::KeyL)
    } else if vk == 0x4D {
        Some(Key::KeyM)
    } else if vk == 0x4E {
        Some(Key::KeyN)
    } else if vk == 0x4F {
        Some(Key::KeyO)
    } else if vk == 0x50 {
        Some(Key::KeyP)
    } else if vk == 0x51 {
        Some(Key::KeyQ)
    } else if vk == 0x52 {
        Some(Key::KeyR)
    } else if vk == 0x53 {
        Some(Key::KeyS)
    } else if vk == 0x54 {
        Some(Key::KeyT)
    } else if vk == 0x55 {
        Some(Key::KeyU)
    } else if vk == 0x56 {
        Some(Key::KeyV)
    } else if vk == 0x57 {
        Some(Key::KeyW)
    } else if vk == 0x58 {
        Some(Key::KeyX)
    } else if vk == 0x59 {
        Some(Key::KeyY)
    } else if vk == 0x5A {
        Some(Key::KeyZ)
    } else if vk == 0x30 {
        Some(Key::Digit0)
    } else if vk == 0x31 {
        Some(Key::Digit1)
    } else if vk == 0x32 {
        Some(Key::Digit2)
    } else if vk == 0x33 {
        Some(Key::Digit3)
    } else if vk == 0x34 {
        Some(Key::Digit4)
    } else if vk == 0x35 {
        Some(Key::Digit5)
    } else if vk == 0x36 {
        Some(Key::Digit6)
    } else if vk == 0x37 {
        Some(Key::Digit7)
    } else if vk == 0x38 {
        Some(Key::Digit8)
    } else if vk == 0x39 {
        Some(Key::Digit9)
    } else if vk == 0x70 {
        Some(Key::F1)
    } else if vk == 0x71 {
        Some(Key::F2)
    } else if vk == 0x72 {
        Some(Key::F3)
    } else if vk == 0x73 {
        Some(Key::F4)
    } else if vk == 0x74 {
        Some(Key::F5)
    } else if vk == 0x75 {
        Some(Key::F6)
    } else if vk == 0x76 {
        Some(Key::F7)
    } else if vk == 0x77 {
        Some(Key::F8)
    } else if vk == 0x78 {
        Some(Key::F9)
    } else if vk == 0x79 {
        Some(Key::F10)
    } else if vk == 0x7A {
        Some(Key::F11)
    } else if vk == 0x7B {
        Some(Key::F12)
    } else if vk == 0x20 {
        Some(Key::Space)
    } else if vk == 0x09 {
        Some(Key::Tab)
    } else if vk == 0x0D {
        Some(Key::Enter)
    } else if vk == 0x1B {
        Some(Key::Escape)
    } else if vk == 0x08 {
        Some(Key::Backspace)
    } else if vk == 0x2E {
        Some(Key::Delete)
    } else if vk == 0x2D {
        Some(Key::Insert)
    } else if vk == 0x24 {
        Some(Key::Home)
    } else if vk == 0x23 {
        Some(Key::End)
    } else if vk == 0x21 {
        Some(Key::PageUp)
    } else if vk == 0x22 {
        Some(Key::PageDown)
    } else if vk == 0x26 {
        Some(Key::ArrowUp)
    } else if vk == 0x28 {
        Some(Key::ArrowDown)
    } else if vk == 0x25 {
        Some(Key::ArrowLeft)
    } else if vk == 0x27 {
        Some(Key::ArrowRight)
    } else if vk == 0xBD {
        Some(Key::Minus)
    } else if vk == 0xBB {
        Some(Key::Equal)
    } else if vk == 0xDB {
        Some(Key::BracketLeft)
    } else if vk == 0xDD {
        Some(Key::BracketRight)
    } else if vk == 0xBA {
        Some(Key::Semicolon)
    } else if vk == 0xDE {
        Some(Key::Quote)
    } else if vk == 0xDC {
        Some(Key::Backslash)
    } else if vk == 0xBC {
        Some(Key::Comma)
    } else if vk == 0xBE {
        Some(Key::Period)
    } else if vk == 0xBF {
        Some(Key::Slash)
    } else if vk == 0xC0 {
        Some(Key::Backquote)
    } else {
        None
    }
}

/// The key with X11 keycode `kc`, if any.
pub open spec fn key_of_x11(kc: u8) -> Option<Key> {
    if kc == 38 {
        Some(Key::KeyA)
    } else if kc == 56 {
        Some(Key::KeyB)
    } else if kc == 54 {
        Some(Key::KeyC)
    } else if kc == 40 {
        Some(Key::KeyD)
    } else if kc == 26 {
        Some(Key::KeyE)
    } else if kc == 41 {
        Some(Key::KeyF)
    } else if kc == 42 {
        Some(Key::KeyG)
    } else if kc == 43 {
        Some(Key::KeyH)
    } else if kc == 31 {
        Some(Key::KeyI)
    } else if kc == 44 {
        Some(Key::KeyJ)
    } else if kc == 45 {
        Some(Key::KeyK)
    } else if kc == 46 {
        Some(Key::KeyL)
    } else if kc == 58 {
        Some(Key::KeyM)
    } else if kc == 57 {
        Some(Key::KeyN)
    } else if kc == 32 {
        Some(Key::KeyO)
    } else if kc == 33 {
        Some(Key::KeyP)
    } else if kc == 24 {
        Some(Key::KeyQ)
    } else if kc == 27 {
        Some(Key::KeyR)
    } else if kc == 39 {
        Some(Key::KeyS)
    } else if kc == 28 {
        Some(Key::KeyT)
    } else if kc == 30 {
        Some(Key::KeyU)
    } else if kc == 55 {
        Some(Key::KeyV)
    } else if kc == 25 {
        Some(Key::KeyW)
    } else if kc == 53 {
        Some(Key::KeyX)
    } else if kc == 29 {
        Some(Key::KeyY)
    } else if kc == 52 {
        Some(Key::KeyZ)
    } else if kc == 19 {
        Some(Key::Digit0)
    } else if kc == 10 {
        Some(Key::Digit1)
    } else if kc == 11 {
        Some(Key::Digit2)
    } else if kc == 12 {
        Some(Key::Digit3)
    } else if kc == 13 {
        Some(Key::Digit4)
    } else if kc == 14 {
        Some(Key::Digit5)
    } else if kc == 15 {
        Some(Key::Digit6)
    } else if kc == 16 {
        Some(Key::Digit7)
    } else if kc == 17 {
        Some(Key::Digit8)
    } else if kc == 18 {
        Some(Key::Digit9)
    } else if kc == 67 {
        Some(Key::F1)
    } else if kc == 68 {
        Some(Key::F2)
    } else if kc == 69 {
        Some(Key::F3)
    } else if kc == 70 {
        Some(Key::F4)
    } else if kc == 71 {
        Some(Key::F5)
    } else if kc == 72 {
        Some(Key::F6)
    } else if kc == 73 {
        Some(Key::F7)
    } else if kc == 74 {
        Some(Key::F8)
    } else if kc == 75 {
        Some(Key::F9)
    } else if kc == 76 {
        Some(Key::F10)
    } else if kc == 95 {
        Some(Key::F11)
    } else if kc == 96 {
        Some(Key::F12)
    } else if kc == 65 {
        Some(Key::Space)
    } else if kc == 23 {
        Some(Key::Tab)
    } else if kc == 36 {
        Some(Key::Enter)
    } else if kc == 9 {
        Some(Key::Escape)
    } else if kc == 22 {
        Some(Key::Backspace)
    } else if kc == 119 {
        Some(Key::Delete)
    } else if kc == 118 {
        Some(Key::Insert)
    } else if kc == 110 {
        Some(Key::Home)
    } else if kc == 115 {
        Some(Key::End)
    } else if kc == 112 {
        Some(Key::PageUp)
    } else if kc == 117 {
        Some(Key::PageDown)
    } else if kc == 111 {
        Some(Key::ArrowUp)
    } else if kc == 116 {
        Some(Key::ArrowDown)
    } else if kc == 113 {
        Some(Key::ArrowLeft)
    } else if kc == 114 {
        Some(Key::ArrowRight)
    } else if kc == 20 {
        Some(Key::Minus)
    } else if kc == 21 {
        Some(Key::Equal)
    } else if kc == 34 {
        Some(Key::BracketLeft)
    } else if kc == 35 {
        Some(Key::BracketRight)
    } else if kc == 47 {
        Some(Key::Semicolon)
    } else if kc == 48 {
        Some(Key::Quote)
    } else if kc == 51 {
        Some(Key::Backslash)
    } else if kc == 59 {
        Some(Key::Comma)
    } else if kc == 60 {
        Some(Key::Period)
    } else if kc == 61 {
        Some(Key::Slash)
    } else if kc == 49 {
        Some(Key::Backquote)
    } else {
        None
    }
}

/// Every key's code, virtual-key code and keycode each identify it: the
/// three columns of the table hold no duplicates.
pub proof fn lemma_key_identifiers_round_trip(k: Key)
    ensures
        key_of_code(key_code(k)) == Some(k),
        key_of_vk(key_vk(k)) == Some(k),
        key_of_x11(key_x11(k)) == Some(k),
{
}

/// No two supported keys share a code, a virtual-key code or a keycode.
pub proof fn lemma_key_identifiers_unique(a: Key, b: Key)
    ensures
        key_code(a) == key_code(b) ==> a == b,
        key_vk(a) == key_vk(b) ==> a == b,
        key_x11(a) == key_x11(b) ==> a == b,
{
    lemma_key_identifiers_round_trip(a);
    lemma_key_identifiers_round_trip(b);
}

/// A spelling names a key exactly when it is that key's code.
pub proof fn lemma_key_of_code_sound(s: Seq<char>)
    ensures
        key_of_code(s) matches Some(k) ==> key_code(k) == s,
{
    if let Some(k) = key_of_code(s) {
        assert(key_code(k) =~= s);
    }
}

/// The code of `k` as a string.
pub fn key_str(k: Key) -> (r: &'static str)
    ensures
        r@ == key_code(k),
{
    match k {
        Key::KeyA => {
            proof {
                reveal_strlit("KeyA");
            }
            assert("KeyA"@ =~= seq!['K', 'e', 'y', 'A']);
            "KeyA"
        }
        Key::KeyB => {
            proof {
                reveal_strlit("KeyB");
            }
            assert("KeyB"@ =~= seq!['K', 'e', 'y', 'B']);
            "KeyB"
        }
        Key::KeyC => {
            proof {
                reveal_strlit("KeyC");
            }
            assert("KeyC"@ =~= seq!['K', 'e', 'y', 'C']);
            "KeyC"
        }
        Key::KeyD => {
            proof {
                reveal_strlit("KeyD");
            }
            assert("KeyD"@ =~= seq!['K', 'e', 'y', 'D']);
            "KeyD"
        }
        Key::KeyE => {
            proof {
                reveal_strlit("KeyE");
            }
            assert("KeyE"@ =~= seq!['K', 'e', 'y', 'E']);
            "KeyE"
        }
        Key::KeyF => {
            proof {
                reveal_strlit("KeyF");
            }
            assert("KeyF"@ =~= seq!['K', 'e', 'y', 'F']);
            "KeyF"
        }
        Key::KeyG => {
            proof {
                reveal_strlit("KeyG");
            }
            assert("KeyG"@ =~= seq!['K', 'e', 'y', 'G']);
            "KeyG"
        }
        Key::KeyH => {
            proof {
                reveal_strlit("KeyH");
            }
            assert("KeyH"@ =~= seq!['K', 'e', 'y', 'H']);
            "KeyH"
        }
        Key::KeyI => {
            proof {
                reveal_strlit("KeyI");
            }
            assert("KeyI"@ =~= seq!['K', 'e', 'y', 'I']);
            "KeyI"
        }
        Key::KeyJ => {
            proof {
                reveal_strlit("KeyJ");
            }
            assert("KeyJ"@ =~= seq!['K', 'e', 'y', 'J']);
            "KeyJ"
        }
        Key::KeyK => {
            proof {
                reveal_strlit("KeyK");
            }
            assert("KeyK"@ =~= seq!['K', 'e', 'y', 'K']);
            "KeyK"
        }
        Key::KeyL => {
            proof {
                reveal_strlit("KeyL");
            }
            assert("KeyL"@ =~= seq!['K', 'e', 'y', 'L']);
            "KeyL"
        }
        Key::KeyM => {
            proof {
                reveal_strlit("KeyM");
            }
            assert("KeyM"@ =~= seq!['K', 'e', 'y', 'M']);
            "KeyM"
        }
        Key::KeyN => {
            proof {
                reveal_strlit("KeyN");
            }
            assert("KeyN"@ =~= seq!['K', 'e', 'y', 'N']);
            "KeyN"
        }
        Key::KeyO => {
            proof {
                reveal_strlit("KeyO");
            }
            assert("KeyO"@ =~= seq!['K', 'e', 'y', 'O']);
            "KeyO"
        }
        Key::KeyP => {
            proof {
                reveal_strlit("KeyP");
            }
            assert("KeyP"@ =~= seq!['K', 'e', 'y', 'P']);
            "KeyP"
        }
        Key::KeyQ => {
            proof {
                reveal_strlit("KeyQ");
            }
            assert("KeyQ"@ =~= seq!['K', 'e', 'y', 'Q']);
            "KeyQ"
        }
        Key::KeyR => {
            proof {
                reveal_strlit("KeyR");
            }
            assert("KeyR"@ =~= seq!['K', 'e', 'y', 'R']);
            "KeyR"
        }
        Key::KeyS => {
            proof {
                reveal_strlit("KeyS");
            }
            assert("KeyS"@ =~= seq!['K', 'e', 'y', 'S']);
            "KeyS"
        }
        Key::KeyT => {
            proof {
                reveal_strlit("KeyT");
            }
            assert("KeyT"@ =~= seq!['K', 'e', 'y', 'T']);
            "KeyT"
        }
        Key::KeyU => {
            proof {
                reveal_strlit("KeyU");
            }
            assert("KeyU"@ =~= seq!['K', 'e', 'y', 'U']);
            "KeyU"
        }
        Key::KeyV => {
            proof {
                reveal_strlit("KeyV");
            }
            assert("KeyV"@ =~= seq!['K', 'e', 'y', 'V']);
            "KeyV"
        }
        Key::KeyW => {
            proof {
                reveal_strlit("KeyW");
            }
            assert("KeyW"@ =~= seq!['K', 'e', 'y', 'W']);
            "KeyW"
        }
        Key::KeyX => {
            proof {
                reveal_strlit("KeyX");
            }
            assert("KeyX"@ =~= seq!['K', 'e', 'y', 'X']);
            "KeyX"
        }
        Key::KeyY => {
            proof {
                reveal_strlit("KeyY");
            }
            assert("KeyY"@ =~= seq!['K', 'e', 'y', 'Y']);
            "KeyY"
        }
        Key::KeyZ => {
            proof {
                reveal_strlit("KeyZ");
            }
            assert("KeyZ"@ =~= seq!['K', 'e', 'y', 'Z']);
            "KeyZ"
        }
        Key::Digit0 => {
            proof {
                reveal_strlit("Digit0");
            }
            assert("Digit0"@ =~= seq!['D', 'i', 'g', 'i', 't', '0']);
            "Digit0"
        }
        Key::Digit1 => {
            proof {
                reveal_strlit("Digit1");
            }
            assert("Digit1"@ =~= seq!['D', 'i', 'g', 'i', 't', '1']);
            "Digit1"
        }
        Key::Digit2 => {
            proof {
                reveal_strlit("Digit2");
            }
            assert("Digit2"@ =~= seq!['D', 'i', 'g', 'i', 't', '2']);
            "Digit2"
        }
        Key::Digit3 => {
            proof {
                reveal_strlit("Digit3");
            }
            assert("Digit3"@ =~= seq!['D', 'i', 'g', 'i', 't', '3']);
            "Digit3"
        }
        Key::Digit4 => {
            proof {
                reveal_strlit("Digit4");
            }
            assert("Digit4"@ =~= seq!['D', 'i', 'g', 'i', 't', '4']);
            "Digit4"
        }
        Key::Digit5 => {
            proof {
                reveal_strlit("Digit5");
            }
            assert("Digit5"@ =~= seq!['D', 'i', 'g', 'i', 't', '5']);
            "Digit5"
        }
        Key::Digit6 => {
            proof {
                reveal_strlit("Digit6");
            }
            assert("Digit6"@ =~= seq!['D', 'i', 'g', 'i', 't', '6']);
            "Digit6"
        }
        Key::Digit7 => {
            proof {
                reveal_strlit("Digit7");
            }
            assert("Digit7"@ =~= seq!['D', 'i', 'g', 'i', 't', '7']);
            "Digit7"
        }
        Key::Digit8 => {
            proof {
                reveal_strlit("Digit8");
            }
            assert("Digit8"@ =~= seq!['D', 'i', 'g', 'i', 't', '8']);
            "Digit8"
        }
        Key::Digit9 => {
            proof {
                reveal_strlit("Digit9");
            }
            assert("Digit9"@ =~= seq!['D', 'i', 'g', 'i', 't', '9']);
            "Digit9"
        }
        Key::F1 => {
            proof {
                reveal_strlit("F1");
            }
            assert("F1"@ =~= seq!['F', '1']);
            "F1"
        }
        Key::F2 => {
            proof {
                reveal_strlit("F2");
            }
            assert("F2"@ =~= seq!['F', '2']);
            "F2"
        }
        Key::F3 => {
            proof {
                reveal_strlit("F3");
            }
            assert("F3"@ =~= seq!['F', '3']);
            "F3"
        }
        Key::F4 => {
            proof {
                reveal_strlit("F4");
            }
            assert("F4"@ =~= seq!['F', '4']);
            "F4"
        }
        Key::F5 => {
            proof {
                reveal_strlit("F5");
            }
            assert("F5"@ =~= seq!['F', '5']);
            "F5"
        }
        Key::F6 => {
            proof {
                reveal_strlit("F6");
            }
            assert("F6"@ =~= seq!['F', '6']);
            "F6"
        }
        Key::F7 => {
            proof {
                reveal_strlit("F7");
            }
            assert("F7"@ =~= seq!['F', '7']);
            "F7"
        }
        Key::F8 => {
            proof {
                reveal_strlit("F8");
            }
            assert("F8"@ =~= seq!['F', '8']);
            "F8"
        }
        Key::F9 => {
            proof {
                reveal_strlit("F9");
            }
            assert("F9"@ =~= seq!['F', '9']);
            "F9"
        }
        Key::F10 => {
            proof {
                reveal_strlit("F10");
            }
            assert("F10"@ =~= seq!['F', '1', '0']);
            "F10"
        }
        Key::F11 => {
            proof {
                reveal_strlit("F11");
            }
            assert("F11"@ =~= seq!['F', '1', '1']);
            "F11"
        }
        Key::F12 => {
            proof {
                reveal_strlit("F12");
            }
            assert("F12"@ =~= seq!['F', '1', '2']);
            "F12"
        }
        Key::Space => {
            proof {
                reveal_strlit("Space");
            }
            assert("Space"@ =~= seq!['S', 'p', 'a', 'c', 'e']);
            "Space"
        }
        Key::Tab => {
            proof {
                reveal_strlit("Tab");
            }
            assert("Tab"@ =~= seq!['T', 'a', 'b']);
            "Tab"
        }
        Key::Enter => {
            proof {
                reveal_strlit("Enter");
            }
            assert("Enter"@ =~= seq!['E', 'n', 't', 'e', 'r']);
            "Enter"
        }
        Key::Escape => {
            proof {
                reveal_strlit("Escape");
            }
            assert("Escape"@ =~= seq!['E', 's', 'c', 'a', 'p', 'e']);
            "Escape"
        }
        Key::Backspace => {
            proof {
                reveal_strlit("Backspace");
            }
            assert("Backspace"@ =~= seq!['B', 'a', 'c', 'k', 's', 'p', 'a', 'c', 'e']);
            "Backspace"
        }
        Key::Delete => {
            proof {
                reveal_strlit("Delete");
            }
            assert("Delete"@ =~= seq!['D', 'e', 'l', 'e', 't', 'e']);
            "Delete"
        }
        Key::Insert => {
            proof {
                reveal_strlit("Insert");
            }
            assert("Insert"@ =~= seq!['I', 'n', 's', 'e', 'r', 't']);
            "Insert"
        }
        Key::Home => {
            proof {
                reveal_strlit("Home");
            }
            assert("Home"@ =~= seq!['H', 'o', 'm', 'e']);
            "Home"
        }
        Key::End => {
            proof {
                reveal_strlit("End");
            }
            assert("End"@ =~= seq!['E', 'n', 'd']);
            "End"
        }
        Key::PageUp => {
            proof {
                reveal_strlit("PageUp");
            }
            assert("PageUp"@ =~= seq!['P', 'a', 'g', 'e', 'U', 'p']);
            "PageUp"
        }
        Key::PageDown => {
            proof {
                reveal_strlit("PageDown");
            }
            assert("PageDown"@ =~= seq!['P', 'a', 'g', 'e', 'D', 'o', 'w', 'n']);
            "PageDown"
        }
        Key::ArrowUp => {
            proof {
                reveal_strlit("ArrowUp");
            }
            assert("ArrowUp"@ =~= seq!['A', 'r', 'r', 'o', 'w', 'U', 'p']);
            "ArrowUp"
        }
        Key::ArrowDown => {
            proof {
                reveal_strlit("ArrowDown");
            }
            assert("ArrowDown"@ =~= seq!['A', 'r', 'r', 'o', 'w', 'D', 'o', 'w', 'n']);
            "ArrowDown"
        }
        Key::ArrowLeft => {
            proof {
                reveal_strlit("ArrowLeft");
            }
            assert("ArrowLeft"@ =~= seq!['A', 'r', 'r', 'o', 'w', 'L', 'e', 'f', 't']);
            "ArrowLeft"
        }
        Key::ArrowRight => {
            proof {
                reveal_strlit("ArrowRight");
            }
            assert("ArrowRight"@ =~= seq!['A', 'r', 'r', 'o', 'w', 'R', 'i', 'g', 'h', 't']);
            "ArrowRight"
        }
        Key::Minus => {
            proof {
                reveal_strlit("Minus");
            }
            assert("Minus"@ =~= seq!['M', 'i', 'n', 'u', 's']);
            "Minus"
        }
        Key::Equal => {
            proof {
                reveal_strlit("Equal");
            }
            assert("Equal"@ =~= seq!['E', 'q', 'u', 'a', 'l']);
            "Equal"
        }
        Key::BracketLeft => {
            proof {
                reveal_strlit("BracketLeft");
            }
            assert("BracketLeft"@ =~= seq!['B', 'r', 'a', 'c', 'k', 'e', 't', 'L', 'e', 'f', 't']);
            "BracketLeft"
        }
        Key::BracketRight => {
            proof {
                reveal_strlit("BracketRight");
            }
            assert("BracketRight"@ =~= seq!['B', 'r', 'a', 'c', 'k', 'e', 't', 'R', 'i', 'g', 'h', 't']);
            "BracketRight"
        }
        Key::Semicolon => {
            proof {
                reveal_strlit("Semicolon");
            }
            assert("Semicolon"@ =~= seq!['S', 'e', 'm', 'i', 'c', 'o', 'l', 'o', 'n']);
            "Semicolon"
        }
        Key::Quote => {
            proof {
                reveal_strlit("Quote");
            }
            assert("Quote"@ =~= seq!['Q', 'u', 'o', 't', 'e']);
            "Quote"
        }
        Key::Backslash => {
            proof {
                reveal_strlit("Backslash");
            }
            assert("Backslash"@ =~= seq!['B', 'a', 'c', 'k', 's', 'l', 'a', 's', 'h']);
            "Backslash"
        }
        Key::Comma => {
            proof {
                reveal_strlit("Comma");
            }
            assert("Comma"@ =~= seq!['C', 'o', 'm', 'm', 'a']);
            "Comma"
        }
        Key::Period => {
            proof {
                reveal_strlit("Period");
            }
            assert("Period"@ =~= seq!['P', 'e', 'r', 'i', 'o', 'd']);
            "Period"
        }
        Key::Slash => {
            proof {
                reveal_strlit("Slash");
            }
            assert("Slash"@ =~= seq!['S', 'l', 'a', 's', 'h']);
            "Slash"
        }
        Key::Backquote => {
            proof {
                reveal_strlit("Backquote");
            }
            assert("Backquote"@ =~= seq!['B', 'a', 'c', 'k', 'q', 'u', 'o', 't', 'e']);
            "Backquote"
        }
    }
}

fn vk_of(k: Key) -> (r: u16)
    ensures
        r == key_vk(k),
{
    match k {
        Key::KeyA => 0x41,
        Key::KeyB => 0x42,
        Key::KeyC => 0x43,
        Key::KeyD => 0x44,
        Key::KeyE => 0x45,
        Key::KeyF => 0x46,
        Key::KeyG => 0x47,
        Key::KeyH => 0x48,
        Key::KeyI => 0x49,
        Key::KeyJ => 0x4A,
        Key::KeyK => 0x4B,
        Key::KeyL => 0x4C,
        Key::KeyM => 0x4D,
        Key::KeyN => 0x4E,
        Key::KeyO => 0x4F,
        Key::KeyP => 0x50,
        Key::KeyQ => 0x51,
        Key::KeyR => 0x52,
        Key::KeyS => 0x53,
        Key::KeyT => 0x54,
        Key::KeyU => 0x55,
        Key::KeyV => 0x56,
        Key::KeyW => 0x57,
        Key::KeyX => 0x58,
        Key::KeyY => 0x59,
        Key::KeyZ => 0x5A,
        Key::Digit0 => 0x30,
        Key::Digit1 => 0x31,
        Key::Digit2 => 0x32,
        Key::Digit3 => 0x33,
        Key::Digit4 => 0x34,
        Key::Digit5 => 0x35,
        Key::Digit6 => 0x36,
        Key::Digit7 => 0x37,
        Key::Digit8 => 0x38,
        Key::Digit9 => 0x39,
        Key::F1 => 0x70,
        Key::F2 => 0x71,
        Key::F3 => 0x72,
        Key::F4 => 0x73,
        Key::F5 => 0x74,
        Key::F6 => 0x75,
        Key::F7 => 0x76,
        Key::F8 => 0x77,
        Key::F9 => 0x78,
        Key::F10 => 0x79,
        Key::F11 => 0x7A,
        Key::F12 => 0x7B,
        Key::Space => 0x20,
        Key::Tab => 0x09,
        Key::Enter => 0x0D,
        Key::Escape => 0x1B,
        Key::Backspace => 0x08,
        Key::Delete => 0x2E,
        Key::Insert => 0x2D,
        Key::Home => 0x24,
        Key::End => 0x23,
        Key::PageUp => 0x21,
        Key::PageDown => 0x22,
        Key::ArrowUp => 0x26,
        Key::ArrowDown => 0x28,
        Key::ArrowLeft => 0x25,
        Key::ArrowRight => 0x27,
        Key::Minus => 0xBD,
        Key::Equal => 0xBB,
        Key::BracketLeft => 0xDB,
        Key::BracketRight => 0xDD,
        Key::Semicolon => 0xBA,
        Key::Quote => 0xDE,
        Key::Backslash => 0xDC,
        Key::Comma => 0xBC,
        Key::Period => 0xBE,
        Key::Slash => 0xBF,
        Key::Backquote => 0xC0,
    }
}

fn x11_of(k: Key) -> (r: u8)
    ensures
        r == key_x11(k),
{
    match k {
        Key::KeyA => 38,
        Key::KeyB => 56,
        Key::KeyC => 54,
        Key::KeyD => 40,
        Key::KeyE => 26,
        Key::KeyF => 41,
        Key::KeyG => 42,
        Key::KeyH => 43,
        Key::KeyI => 31,
        Key::KeyJ => 44,
        Key::KeyK => 45,
        Key::KeyL => 46,
        Key::KeyM => 58,
        Key::KeyN => 57,
        Key::KeyO => 32,
        Key::KeyP => 33,
        Key::KeyQ => 24,
        Key::KeyR => 27,
        Key::KeyS => 39,
        Key::KeyT => 28,
        Key::KeyU => 30,
        Key::KeyV => 55,
        Key::KeyW => 25,
        Key::KeyX => 53,
        Key::KeyY => 29,
        Key::KeyZ => 52,
        Key::Digit0 => 19,
        Key::Digit1 => 10,
        Key::Digit2 => 11,
        Key::Digit3 => 12,
        Key::Digit4 => 13,
        Key::Digit5 => 14,
        Key::Digit6 => 15,
        Key::Digit7 => 16,
        Key::Digit8 => 17,
        Key::Digit9 => 18,
        Key::F1 => 67,
        Key::F2 => 68,
        Key::F3 => 69,
        Key::F4 => 70,
        Key::F5 => 71,
        Key::F6 => 72,
        Key::F7 => 73,
        Key::F8 => 74,
        Key::F9 => 75,
        Key::F10 => 76,
        Key::F11 => 95,
        Key::F12 => 96,
        Key::Space => 65,
        Key::Tab => 23,
        Key::Enter => 36,
        Key::Escape => 9,
        Key::Backspace => 22,
        Key::Delete => 119,
        Key::Insert => 118,
        Key::Home => 110,
        Key::End => 115,
        Key::PageUp => 112,
        Key::PageDown => 117,
        Key::ArrowUp => 111,
        Key::ArrowDown => 116,
        Key::ArrowLeft => 113,
        Key::ArrowRight => 114,
        Key::Minus => 20,
        Key::Equal => 21,
        Key::BracketLeft => 34,
        Key::BracketRight => 35,
        Key::Semicolon => 47,
        Key::Quote => 48,
        Key::Backslash => 51,
        Key::Comma => 59,
        Key::Period => 60,
        Key::Slash => 61,
        Key::Backquote => 49,
    }
}

fn parse_key(s: &Vec<char>) -> (r: Option<Key>)
    ensures
        r == key_of_code(s@),
{
    let n = s.len();
    if n == 4 && s[0] == 'K' && s[1] == 'e' && s[2] == 'y' && s[3] == 'A' {
        Some(Key::KeyA)
    } else if n == 4 && s[0] == 'K' && s[1] == 'e' && s[2] == 'y' && s[3] == 'B' {
        Some(Key::KeyB)
    } else if n == 4 && s[0] == 'K' && s[1] == 'e' && s[2] == 'y' && s[3] == 'C' {
        Some(Key::KeyC)
    } else if n == 4 && s[0] == 'K' && s[1] == 'e' && s[2] == 'y' && s[3] == 'D' {
        Some(Key::KeyD)
    } else if n == 4 && s[0] == 'K' && s[1] == 'e' && s[2] == 'y' && s[3] == 'E' {
        Some(Key::KeyE)
    } else if n == 4 && s[0] == 'K' && s[1] == 'e' && s[2] == 'y' && s[3] == 'F' {
        Some(Key::KeyF)
    } else if n == 4 && s[0] == 'K' && s[1] == 'e' && s[2] == 'y' && s[3] == 'G' {
        Some(Key::KeyG)
    } else if n == 4 && s[0] == 'K' && s[1] == 'e' && s[2] == 'y' && s[3] == 'H' {
        Some(Key::KeyH)
    } else if n == 4 && s[0] == 'K' && s[1] == 'e' && s[2] == 'y' && s[3] == 'I' {
        Some(Key::KeyI)
    } else if n == 4 && s[0] == 'K' && s[1] == 'e' && s[2] == 'y' && s[3] == 'J' {
        Some(Key::KeyJ)
    } else if n == 4 && s[0] == 'K' && s[1] == 'e' && s[2] == 'y' && s[3] == 'K' {
        Some(Key::KeyK)
    } else if n == 4 && s[0] == 'K' && s[1] == 'e' && s[2] == 'y' && s[3] == 'L' {
        Some(Key::KeyL)
    } else if n == 4 && s[0] == 'K' && s[1] == 'e' && s[2] == 'y' && s[3] == 'M' {
        Some(Key::KeyM)
    } else if n == 4 && s[0] == 'K' && s[1] == 'e' && s[2] == 'y' && s[3] == 'N' {
        Some(Key::KeyN)
    } else if n == 4 && s[0] == 'K' && s[1] == 'e' && s[2] == 'y' && s[3] == 'O' {
        Some(Key::KeyO)
    } else if n == 4 && s[0] == 'K' && s[1] == 'e' && s[2] == 'y' && s[3] == 'P' {
        Some(Key::KeyP)
    } else if n == 4 && s[0] == 'K' && s[1] == 'e' && s[2] == 'y' && s[3] == 'Q' {
        Some(Key::KeyQ)
    } else if n == 4 && s[0] == 'K' && s[1] == 'e' && s[2] == 'y' && s[3] == 'R' {
        Some(Key::KeyR)
    } else if n == 4 && s[0] == 'K' && s[1] == 'e' && s[2] == 'y' && s[3] == 'S' {
        Some(Key::KeyS)
    } else if n == 4 && s[0] == 'K' && s[1] == 'e' && s[2] == 'y' && s[3] == 'T' {
        Some(Key::KeyT)
    } else if n == 4 && s[0] == 'K' && s[1] == 'e' && s[2] == 'y' && s[3] == 'U' {
        Some(Key::KeyU)
    } else if n == 4 && s[0] == 'K' && s[1] == 'e' && s[2] == 'y' && s[3] == 'V' {
        Some(Key::KeyV)
    } else if n == 4 && s[0] == 'K' && s[1] == 'e' && s[2] == 'y' && s[3] == 'W' {
        Some(Key::KeyW)
    } else if n == 4 && s[0] == 'K' && s[1] == 'e' && s[2] == 'y' && s[3] == 'X' {
        Some(Key::KeyX)
    } else if n == 4 && s[0] == 'K' && s[1] == 'e' && s[2] == 'y' && s[3] == 'Y' {
        Some(Key::KeyY)
    } else if n == 4 && s[0] == 'K' && s[1] == 'e' && s[2] == 'y' && s[3] == 'Z' {
        Some(Key::KeyZ)
    } else if n == 6 && s[0] == 'D' && s[1] == 'i' && s[2] == 'g' && s[3] == 'i' && s[4] == 't' && s[5] == '0' {
        Some(Key::Digit0)
    } else if n == 6 && s[0] == 'D' && s[1] == 'i' && s[2] == 'g' && s[3] == 'i' && s[4] == 't' && s[5] == '1' {
        Some(Key::Digit1)
    } else if n == 6 && s[0] == 'D' && s[1] == 'i' && s[2] == 'g' && s[3] == 'i' && s[4] == 't' && s[5] == '2' {
        Some(Key::Digit2)
    } else if n == 6 && s[0] == 'D' && s[1] == 'i' && s[2] == 'g' && s[3] == 'i' && s[4] == 't' && s[5] == '3' {
        Some(Key::Digit3)
    } else if n == 6 && s[0] == 'D' && s[1] == 'i' && s[2] == 'g' && s[3] == 'i' && s[4] == 't' && s[5] == '4' {
        Some(Key::Digit4)
    } else if n == 6 && s[0] == 'D' && s[1] == 'i' && s[2] == 'g' && s[3] == 'i' && s[4] == 't' && s[5] == '5' {
        Some(Key::Digit5)
    } else if n == 6 && s[0] == 'D' && s[1] == 'i' && s[2] == 'g' && s[3] == 'i' && s[4] == 't' && s[5] == '6' {
        Some(Key::Digit6)
    } else if n == 6 && s[0] == 'D' && s[1] == 'i' && s[2] == 'g' && s[3] == 'i' && s[4] == 't' && s[5] == '7' {
        Some(Key::Digit7)
    } else if n == 6 && s[0] == 'D' && s[1] == 'i' && s[2] == 'g' && s[3] == 'i' && s[4] == 't' && s[5] == '8' {
        Some(Key::Digit8)
    } else if n == 6 && s[0] == 'D' && s[1] == 'i' && s[2] == 'g' && s[3] == 'i' && s[4] == 't' && s[5] == '9' {
        Some(Key::Digit9)
    } else if n == 2 && s[0] == 'F' && s[1] == '1' {
        Some(Key::F1)
    } else if n == 2 && s[0] == 'F' && s[1] == '2' {
        Some(Key::F2)
    } else if n == 2 && s[0] == 'F' && s[1] == '3' {
        Some(Key::F3)
    } else if n == 2 && s[0] == 'F' && s[1] == '4' {
        Some(Key::F4)
    } else if n == 2 && s[0] == 'F' && s[1] == '5' {
        Some(Key::F5)
    } else if n == 2 && s[0] == 'F' && s[1] == '6' {
        Some(Key::F6)
    } else if n == 2 && s[0] == 'F' && s[1] == '7' {
        Some(Key::F7)
    } else if n == 2 && s[0] == 'F' && s[1] == '8' {
        Some(Key::F8)
    } else if n == 2 && s[0] == 'F' && s[1] == '9' {
        Some(Key::F9)
    } else if n == 3 && s[0] == 'F' && s[1] == '1' && s[2] == '0' {
        Some(Key::F10)
    } else if n == 3 && s[0] == 'F' && s[1] == '1' && s[2] == '1' {
        Some(Key::F11)
    } else if n == 3 && s[0] == 'F' && s[1] == '1' && s[2] == '2' {
        Some(Key::F12)
    } else if n == 5 && s[0] == 'S' && s[1] == 'p' && s[2] == 'a' && s[3] == 'c' && s[4] == 'e' {
        Some(Key::Space)
    } else if n == 3 && s[0] == 'T' && s[1] == 'a' && s[2] == 'b' {
        Some(Key::Tab)
    } else if n == 5 && s[0] == 'E' && s[1] == 'n' && s[2] == 't' && s[3] == 'e' && s[4] == 'r' {
        Some(Key::Enter)
    } else if n == 6 && s[0] == 'E' && s[1] == 's' && s[2] == 'c' && s[3] == 'a' && s[4] == 'p' && s[5] == 'e' {
        Some(Key::Escape)
    } else if n == 9 && s[0] == 'B' && s[1] == 'a' && s[2] == 'c' && s[3] == 'k' && s[4] == 's' && s[5] == 'p' && s[6] == 'a' && s[7] == 'c' && s[8] == 'e' {
        Some(Key::Backspace)
    } else if n == 6 && s[0] == 'D' && s[1] == 'e' && s[2] == 'l' && s[3] == 'e' && s[4] == 't' && s[5] == 'e' {
        Some(Key::Delete)
    } else if n == 6 && s[0] == 'I' && s[1] == 'n' && s[2] == 's' && s[3] == 'e' && s[4] == 'r' && s[5] == 't' {
        Some(Key::Insert)
    } else if n == 4 && s[0] == 'H' && s[1] == 'o' && s[2] == 'm' && s[3] == 'e' {
        Some(Key::Home)
    } else if n == 3 && s[0] == 'E' && s[1] == 'n' && s[2] == 'd' {
        Some(Key::End)
    } else if n == 6 && s[0] == 'P' && s[1] == 'a' && s[2] == 'g' && s[3] == 'e' && s[4] == 'U' && s[5] == 'p' {
        Some(Key::PageUp)
    } else if n == 8 && s[0] == 'P' && s[1] == 'a' && s[2] == 'g' && s[3] == 'e' && s[4] == 'D' && s[5] == 'o' && s[6] == 'w' && s[7] == 'n' {
        Some(Key::PageDown)
    } else if n == 7 && s[0] == 'A' && s[1] == 'r' && s[2] == 'r' && s[3] == 'o' && s[4] == 'w' && s[5] == 'U' && s[6] == 'p' {
        Some(Key::ArrowUp)
    } else if n == 9 && s[0] == 'A' && s[1] == 'r' && s[2] == 'r' && s[3] == 'o' && s[4] == 'w' && s[5] == 'D' && s[6] == 'o' && s[7] == 'w' && s[8] == 'n' {
        Some(Key::ArrowDown)
    } else if n == 9 && s[0] == 'A' && s[1] == 'r' && s[2] == 'r' && s[3] == 'o' && s[4] == 'w' && s[5] == 'L' && s[6] == 'e' && s[7] == 'f' && s[8] == 't' {
        Some(Key::ArrowLeft)
    } else if n == 10 && s[0] == 'A' && s[1] == 'r' && s[2] == 'r' && s[3] == 'o' && s[4] == 'w' && s[5] == 'R' && s[6] == 'i' && s[7] == 'g' && s[8] == 'h' && s[9] == 't' {
        Some(Key::ArrowRight)
    } else if n == 5 && s[0] == 'M' && s[1] == 'i' && s[2] == 'n' && s[3] == 'u' && s[4] == 's' {
        Some(Key::Minus)
    } else if n == 5 && s[0] == 'E' && s[1] == 'q' && s[2] == 'u' && s[3] == 'a' && s[4] == 'l' {
        Some(Key::Equal)
    } else if n == 11 && s[0] == 'B' && s[1] == 'r' && s[2] == 'a' && s[3] == 'c' && s[4] == 'k' && s[5] == 'e' && s[6] == 't' && s[7] == 'L' && s[8] == 'e' && s[9] == 'f' && s[10] == 't' {
        Some(Key::BracketLeft)
    } else if n == 12 && s[0] == 'B' && s[1] == 'r' && s[2] == 'a' && s[3] == 'c' && s[4] == 'k' && s[5] == 'e' && s[6] == 't' && s[7] == 'R' && s[8] == 'i' && s[9] == 'g' && s[10] == 'h' && s[11] == 't' {
        Some(Key::BracketRight)
    } else if n == 9 && s[0] == 'S' && s[1] == 'e' && s[2] == 'm' && s[3] == 'i' && s[4] == 'c' && s[5] == 'o' && s[6] == 'l' && s[7] == 'o' && s[8] == 'n' {
        Some(Key::Semicolon)
    } else if n == 5 && s[0] == 'Q' && s[1] == 'u' && s[2] == 'o' && s[3] == 't' && s[4] == 'e' {
        Some(Key::Quote)
    } else if n == 9 && s[0] == 'B' && s[1] == 'a' && s[2] == 'c' && s[3] == 'k' && s[4] == 's' && s[5] == 'l' && s[6] == 'a' && s[7] == 's' && s[8] == 'h' {
        Some(Key::Backslash)
    } else if n == 5 && s[0] == 'C' && s[1] == 'o' && s[2] == 'm' && s[3] == 'm' && s[4] == 'a' {
        Some(Key::Comma)
    } else if n == 6 && s[0] == 'P' && s[1] == 'e' && s[2] == 'r' && s[3] == 'i' && s[4] == 'o' && s[5] == 'd' {
        Some(Key::Period)
    } else if n == 5 && s[0] == 'S' && s[1] == 'l' && s[2] == 'a' && s[3] == 's' && s[4] == 'h' {
        Some(Key::Slash)
    } else if n == 9 && s[0] == 'B' && s[1] == 'a' && s[2] == 'c' && s[3] == 'k' && s[4] == 'q' && s[5] == 'u' && s[6] == 'o' && s[7] == 't' && s[8] == 'e' {
        Some(Key::Backquote)
    } else {
        None
    }
}

fn key_for_vk(vk: u16) -> (r: Option<Key>)
    ensures
        r == key_of_vk(vk),
{
    if vk == 0x41 {
        Some(Key::KeyA)
    } else if vk == 0x42 {
        Some(Key::KeyB)
    } else if vk == 0x43 {
        Some(Key::KeyC)
    } else if vk == 0x44 {
        Some(Key::KeyD)
    } else if vk == 0x45 {
        Some(Key::KeyE)
    } else if vk == 0x46 {
        Some(Key::KeyF)
    } else if vk == 0x47 {
        Some(Key::KeyG)
    } else if vk == 0x48 {
        Some(Key::KeyH)
    } else if vk == 0x49 {
        Some(Key::KeyI)
    } else if vk == 0x4A {
        Some(Key::KeyJ)
    } else if vk == 0x4B {
        Some(Key::KeyK)
    } else if vk == 0x4C {
        Some(Key::KeyL)
    } else if vk == 0x4D {
        Some(Key::KeyM)
    } else if vk == 0x4E {
        Some(Key::KeyN)
    } else if vk == 0x4F {
        Some(Key::KeyO)
    } else if vk == 0x50 {
        Some(Key::KeyP)
    } else if vk == 0x51 {
        Some(Key::KeyQ)
    } else if vk == 0x52 {
        Some(Key::KeyR)
    } else if vk == 0x53 {
        Some(Key::KeyS)
    } else if vk == 0x54 {
        Some(Key::KeyT)
    } else if vk == 0x55 {
        Some(Key::KeyU)
    } else if vk == 0x56 {
        Some(Key::KeyV)
    } else if vk == 0x57 {
        Some(Key::KeyW)
    } else if vk == 0x58 {
        Some(Key::KeyX)
    } else if vk == 0x59 {
        Some(Key::KeyY)
    } else if vk == 0x5A {
        Some(Key::KeyZ)
    } else if vk == 0x30 {
        Some(Key::Digit0)
    } else if vk == 0x31 {
        Some(Key::Digit1)
    } else if vk == 0x32 {
        Some(Key::Digit2)
    } else if vk == 0x33 {
        Some(Key::Digit3)
    } else if vk == 0x34 {
        Some(Key::Digit4)
    } else if vk == 0x35 {
        Some(Key::Digit5)
    } else if vk == 0x36 {
        Some(Key::Digit6)
    } else if vk == 0x37 {
        Some(Key::Digit7)
    } else if vk == 0x38 {
        Some(Key::Digit8)
    } else if vk == 0x39 {
        Some(Key::Digit9)
    } else if vk == 0x70 {
        Some(Key::F1)
    } else if vk == 0x71 {
        Some(Key::F2)
    } else if vk == 0x72 {
        Some(Key::F3)
    } else if vk == 0x73 {
        Some(Key::F4)
    } else if vk == 0x74 {
        Some(Key::F5)
    } else if vk == 0x75 {
        Some(Key::F6)
    } else if vk == 0x76 {
        Some(Key::F7)
    } else if vk == 0x77 {
        Some(Key::F8)
    } else if vk == 0x78 {
        Some(Key::F9)
    } else if vk == 0x79 {
        Some(Key::F10)
    } else if vk == 0x7A {
        Some(Key::F11)
    } else if vk == 0x7B {
        Some(Key::F12)
    } else if vk == 0x20 {
        Some(Key::Space)
    } else if vk == 0x09 {
        Some(Key::Tab)
    } else if vk == 0x0D {
        Some(Key::Enter)
    } else if vk == 0x1B {
        Some(Key::Escape)
    } else if vk == 0x08 {
        Some(Key::Backspace)
    } else if vk == 0x2E {
        Some(Key::Delete)
    } else if vk == 0x2D {
        Some(Key::Insert)
    } else if vk == 0x24 {
        Some(Key::Home)
    } else if vk == 0x23 {
        Some(Key::End)
    } else if vk == 0x21 {
        Some(Key::PageUp)
    } else if vk == 0x22 {
        Some(Key::PageDown)
    } else if vk == 0x26 {
        Some(Key::ArrowUp)
    } else if vk == 0x28 {
        Some(Key::ArrowDown)
    } else if vk == 0x25 {
        Some(Key::ArrowLeft)
    } else if vk == 0x27 {
        Some(Key::ArrowRight)
    } else if vk == 0xBD {
        Some(Key::Minus)
    } else if vk == 0xBB {
        Some(Key::Equal)
    } else if vk == 0xDB {
        Some(Key::BracketLeft)
    } else if vk == 0xDD {
        Some(Key::BracketRight)
    } else if vk == 0xBA {
        Some(Key::Semicolon)
    } else if vk == 0xDE {
        Some(Key::Quote)
    } else if vk == 0xDC {
        Some(Key::Backslash)
    } else if vk == 0xBC {
        Some(Key::Comma)
    } else if vk == 0xBE {
        Some(Key::Period)
    } else if vk == 0xBF {
        Some(Key::Slash)
    } else if vk == 0xC0 {
        Some(Key::Backquote)
    } else {
        None
    }
}

fn key_for_x11(kc: u8) -> (r: Option<Key>)
    ensures
        r == key_of_x11(kc),
{
    if kc == 38 {
        Some(Key::KeyA)
    } else if kc == 56 {
        Some(Key::KeyB)
    } else if kc == 54 {
        Some(Key::KeyC)
    } else if kc == 40 {
        Some(Key::KeyD)
    } else if kc == 26 {
        Some(Key::KeyE)
    } else if kc == 41 {
        Some(Key::KeyF)
    } else if kc == 42 {
        Some(Key::KeyG)
    } else if kc == 43 {
        Some(Key::KeyH)
    } else if kc == 31 {
        Some(Key::KeyI)
    } else if kc == 44 {
        Some(Key::KeyJ)
    } else if kc == 45 {
        Some(Key::KeyK)
    } else if kc == 46 {
        Some(Key::KeyL)
    } else if kc == 58 {
        Some(Key::KeyM)
    } else if kc == 57 {
        Some(Key::KeyN)
    } else if kc == 32 {
        Some(Key::KeyO)
    } else if kc == 33 {
        Some(Key::KeyP)
    } else if kc == 24 {
        Some(Key::KeyQ)
    } else if kc == 27 {
        Some(Key::KeyR)
    } else if kc == 39 {
        Some(Key::KeyS)
    } else if kc == 28 {
        Some(Key::KeyT)
    } else if kc == 30 {
        Some(Key::KeyU)
    } else if kc == 55 {
        Some(Key::KeyV)
    } else if kc == 25 {
        Some(Key::KeyW)
    } else if kc == 53 {
        Some(Key::KeyX)
    } else if kc == 29 {
        Some(Key::KeyY)
    } else if kc == 52 {
        Some(Key::KeyZ)
    } else if kc == 19 {
        Some(Key::Digit0)
    } else if kc == 10 {
        Some(Key::Digit1)
    } else if kc == 11 {
        Some(Key::Digit2)
    } else if kc == 12 {
        Some(Key::Digit3)
    } else if kc == 13 {
        Some(Key::Digit4)
    } else if kc == 14 {
        Some(Key::Digit5)
    } else if kc == 15 {
        Some(Key::Digit6)
    } else if kc == 16 {
        Some(Key::Digit7)
    } else if kc == 17 {
        Some(Key::Digit8)
    } else if kc == 18 {
        Some(Key::Digit9)
    } else if kc == 67 {
        Some(Key::F1)
    } else if kc == 68 {
        Some(Key::F2)
    } else if kc == 69 {
        Some(Key::F3)
    } else if kc == 70 {
        Some(Key::F4)
    } else if kc == 71 {
        Some(Key::F5)
    } else if kc == 72 {
        Some(Key::F6)
    } else if kc == 73 {
        Some(Key::F7)
    } else if kc == 74 {
        Some(Key::F8)
    } else if kc == 75 {
        Some(Key::F9)
    } else if kc == 76 {
        Some(Key::F10)
    } else if kc == 95 {
        Some(Key::F11)
    } else if kc == 96 {
        Some(Key::F12)
    } else if kc == 65 {
        Some(Key::Space)
    } else if kc == 23 {
        Some(Key::Tab)
    } else if kc == 36 {
        Some(Key::Enter)
    } else if kc == 9 {
        Some(Key::Escape)
    } else if kc == 22 {
        Some(Key::Backspace)
    } else if kc == 119 {
        Some(Key::Delete)
    } else if kc == 118 {
        Some(Key::Insert)
    } else if kc == 110 {
        Some(Key::Home)
    } else if kc == 115 {
        Some(Key::End)
    } else if kc == 112 {
        Some(Key::PageUp)
    } else if kc == 117 {
        Some(Key::PageDown)
    } else if kc == 111 {
        Some(Key::ArrowUp)
    } else if kc == 116 {
        Some(Key::ArrowDown)
    } else if kc == 113 {
        Some(Key::ArrowLeft)
    } else if kc == 114 {
        Some(Key::ArrowRight)
    } else if kc == 20 {
        Some(Key::Minus)
    } else if kc == 21 {
        Some(Key::Equal)
    } else if kc == 34 {
        Some(Key::BracketLeft)
    } else if kc == 35 {
        Some(Key::BracketRight)
    } else if kc == 47 {
        Some(Key::Semicolon)
    } else if kc == 48 {
        Some(Key::Quote)
    } else if kc == 51 {
        Some(Key::Backslash)
    } else if kc == 59 {
        Some(Key::Comma)
    } else if kc == 60 {
        Some(Key::Period)
    } else if kc == 61 {
        Some(Key::Slash)
    } else if kc == 49 {
        Some(Key::Backquote)
    } else {
        None
    }
}

fn table() -> (r: Vec<Key>)
    ensures
        r@ == key_table(),
{
    vec![Key::KeyA, Key::KeyB, Key::KeyC, Key::KeyD, Key::KeyE, Key::KeyF, Key::KeyG, Key::KeyH, Key::KeyI, Key::KeyJ, Key::KeyK, Key::KeyL, Key::KeyM, Key::KeyN, Key::KeyO, Key::KeyP, Key::KeyQ, Key::KeyR, Key::KeyS, Key::KeyT, Key::KeyU, Key::KeyV, Key::KeyW, Key::KeyX, Key::KeyY, Key::KeyZ, Key::Digit0, Key::Digit1, Key::Digit2, Key::Digit3, Key::Digit4, Key::Digit5, Key::Digit6, Key::Digit7, Key::Digit8, Key::Digit9, Key::F1, Key::F2, Key::F3, Key::F4, Key::F5, Key::F6, Key::F7, Key::F8, Key::F9, Key::F10, Key::F11, Key::F12, Key::Space, Key::Tab, Key::Enter, Key::Escape, Key::Backspace, Key::Delete, Key::Insert, Key::Home, Key::End, Key::PageUp, Key::PageDown, Key::ArrowUp, Key::ArrowDown, Key::ArrowLeft, Key::ArrowRight, Key::Minus, Key::Equal, Key::BracketLeft, Key::BracketRight, Key::Semicolon, Key::Quote, Key::Backslash, Key::Comma, Key::Period, Key::Slash, Key::Backquote]
}

/// The key `code` (a `KeyboardEvent.code` value) names, if it is one of
/// the supported extra keys.
pub fn key_for_code(code: &str) -> (r: Option<Key>)
    ensures
        r == key_of_code(code@),
{
    let chars = chars_of(code);
    parse_key(&chars)
}

/// Whether `code` is one of the extra keys a hotkey binding can include.
pub fn is_supported_key(code: &str) -> (r: bool)
    ensures
        r == key_of_code(code@) is Some,
{
    key_for_code(code).is_some()
}

/// The Windows virtual-key code for `code`, if it is a supported key.
pub fn windows_vk_for_code(code: &str) -> (r: Option<u16>)
    ensures
        r == (match key_of_code(code@) {
            Some(k) => Some(key_vk(k)),
            None => None,
        }),
{
    match key_for_code(code) {
        Some(k) => Some(vk_of(k)),
        None => None,
    }
}

/// The X11 keycode for `code`, if it is a supported key.
pub fn x11_keycode_for_code(code: &str) -> (r: Option<u8>)
    ensures
        r == (match key_of_code(code@) {
            Some(k) => Some(key_x11(k)),
            None => None,
        }),
{
    match key_for_code(code) {
        Some(k) => Some(x11_of(k)),
        None => None,
    }
}

/// The code of the supported key with Windows virtual-key code `vk`.
pub fn code_for_windows_vk(vk: u16) -> (r: Option<&'static str>)
    ensures
        match r {
            None => key_of_vk(vk) is None,
            Some(s) => key_of_vk(vk) matches Some(k) && s@ == key_code(k),
        },
{
    match key_for_vk(vk) {
        Some(k) => Some(key_str(k)),
        None => None,
    }
}

/// The code of the supported key with X11 keycode `keycode`.
pub fn code_for_x11_keycode(keycode: u8) -> (r: Option<&'static str>)
    ensures
        match r {
            None => key_of_x11(keycode) is None,
            Some(s) => key_of_x11(keycode) matches Some(k) && s@ == key_code(k),
        },
{
    match key_for_x11(keycode) {
        Some(k) => Some(key_str(k)),
        None => None,
    }
}

/// Every supported key as `(code, windows_vk)` pairs, in table order.
pub fn windows_vks() -> (r: Vec<(&'static str, u16)>)
    ensures
        r@.len() == key_table().len(),
        forall|i: int|
            0 <= i < r@.len() ==> (#[trigger] r@[i]).0@ == key_code(key_table()[i]) && r@[i].1
                == key_vk(key_table()[i]),
{
    let keys = table();
    let mut r: Vec<(&'static str, u16)> = Vec::new();
    for i in 0..keys.len()
        invariant
            keys@ == key_table(),
            r@.len() == i,
            forall|j: int|
                0 <= j < i ==> (#[trigger] r@[j]).0@ == key_code(key_table()[j]) && r@[j].1
                    == key_vk(key_table()[j]),
    {
        r.push((key_str(keys[i]), vk_of(keys[i])));
    }
    r
}

/// Every supported key as `(code, x11_keycode)` pairs, in table order.
pub fn x11_keycodes() -> (r: Vec<(&'static str, u8)>)
    ensures
        r@.len() == key_table().len(),
        forall|i: int|
            0 <= i < r@.len() ==> (#[trigger] r@[i]).0@ == key_code(key_table()[i]) && r@[i].1
                == key_x11(key_table()[i]),
{
    let keys = table();
    let mut r: Vec<(&'static str, u8)> = Vec::new();
    for i in 0..keys.len()
        invariant
            keys@ == key_table(),
            r@.len() == i,
            forall|j: int|
                0 <= j < i ==> (#[trigger] r@[j]).0@ == key_code(key_table()[j]) && r@[j].1
                    == key_x11(key_table()[j]),
    {
        r.push((key_str(keys[i]), x11_of(keys[i])));
    }
    r
}

/// Looking a supported code up on either platform and back yields the
/// code again.
pub proof fn lemma_code_round_trips(s: Seq<char>)
    ensures
        key_of_code(s) matches Some(k) ==> key_of_vk(key_vk(k)) == Some(k) && key_of_x11(
            key_x11(k),
        ) == Some(k) && key_code(k) == s,
{
    lemma_key_of_code_sound(s);
    if let Some(k) = key_of_code(s) {
        lemma_key_identifiers_round_trip(k);
    }
}

/// The position of `k` in [`key_table`].
pub open spec fn key_index(k: Key) -> nat {
    match k {
        Key::KeyA => 0,
        Key::KeyB => 1,
        Key::KeyC => 2,
        Key::KeyD => 3,
        Key::KeyE => 4,
        Key::KeyF => 5,
        Key::KeyG => 6,
        Key::KeyH => 7,
        Key::KeyI => 8,
        Key::KeyJ => 9,
        Key::KeyK => 10,
        Key::KeyL => 11,
        Key::KeyM => 12,
        Key::KeyN => 13,
        Key::KeyO => 14,
        Key::KeyP => 15,
        Key::KeyQ => 16,
        Key::KeyR => 17,
        Key::KeyS => 18,
        Key::KeyT => 19,
        Key::KeyU => 20,
        Key::KeyV => 21,
        Key::KeyW => 22,
        Key::KeyX => 23,
        Key::KeyY => 24,
        Key::KeyZ => 25,
        Key::Digit0 => 26,
        Key::Digit1 => 27,
        Key::Digit2 => 28,
        Key::Digit3 => 29,
        Key::Digit4 => 30,
        Key::Digit5 => 31,
        Key::Digit6 => 32,
        Key::Digit7 => 33,
        Key::Digit8 => 34,
        Key::Digit9 => 35,
        Key::F1 => 36,
        Key::F2 => 37,
        Key::F3 => 38,
        Key::F4 => 39,
        Key::F5 => 40,
        Key::F6 => 41,
        Key::F7 => 42,
        Key::F8 => 43,
        Key::F9 => 44,
        Key::F10 => 45,
        Key::F11 => 46,
        Key::F12 => 47,
        Key::Space => 48,
        Key::Tab => 49,
        Key::Enter => 50,
        Key::Escape => 51,
        Key::Backspace => 52,
        Key::Delete => 53,
        Key::Insert => 54,
        Key::Home => 55,
        Key::End => 56,
        Key::PageUp => 57,
        Key::PageDown => 58,
        Key::ArrowUp => 59,
        Key::ArrowDown => 60,
        Key::ArrowLeft => 61,
        Key::ArrowRight => 62,
        Key::Minus => 63,
        Key::Equal => 64,
        Key::BracketLeft => 65,
        Key::BracketRight => 66,
        Key::Semicolon => 67,
        Key::Quote => 68,
        Key::Backslash => 69,
        Key::Comma => 70,
        Key::Period => 71,
        Key::Slash => 72,
        Key::Backquote => 73,
    }
}

/// The key table lists 74 keys, each once; so its codes, its
/// virtual-key codes and its keycodes are each pairwise distinct, and each
/// code reads back as its key.
pub proof fn lemma_key_table_pairs_distinct()
    ensures
        key_table().len() == 74,
        forall|i: int, j: int|
            0 <= i < j < key_table().len() ==> key_code(#[trigger] key_table()[i]) != key_code(#[trigger] key_table()[j])
                && key_vk(key_table()[i]) != key_vk(key_table()[j]) && key_x11(key_table()[i]) != key_x11(
                key_table()[j],
            ),
        forall|i: int| 0 <= i < key_table().len() ==> key_of_code(key_code(#[trigger] key_table()[i])) == Some(key_table()[i]),
{
    assert forall|i: int| 0 <= i < key_table().len() implies key_index(#[trigger] key_table()[i]) == i by {
    }
    assert forall|i: int, j: int| 0 <= i < j < key_table().len() implies key_code(#[trigger] key_table()[i]) != key_code(
        #[trigger] key_table()[j],
    ) && key_vk(key_table()[i]) != key_vk(key_table()[j]) && key_x11(key_table()[i]) != key_x11(key_table()[j]) by {
        assert(key_index(key_table()[i]) == i);
        assert(key_index(key_table()[j]) == j);
        lemma_key_identifiers_unique(key_table()[i], key_table()[j]);
    }
    assert forall|i: int| 0 <= i < key_table().len() implies key_of_code(key_code(#[trigger] key_table()[i])) == Some(
        key_table()[i],
    ) by {
        lemma_key_identifiers_round_trip(key_table()[i]);
    }
}

/// The Linux input-event code (`KEY_*` in `linux/input-event-codes.h`)
/// of the physical key `k` on a standard keyboard.
pub open spec fn linux_key_code(k: Key) -> u8 {
    match k {
        Key::KeyA => 30,
        Key::KeyB => 48,
        Key::KeyC => 46,
        Key::KeyD => 32,
        Key::KeyE => 18,
        Key::KeyF => 33,
        Key::KeyG => 34,
        Key::KeyH => 35,
        Key::KeyI => 23,
        Key::KeyJ => 36,
        Key::KeyK => 37,
        Key::KeyL => 38,
        Key::KeyM => 50,
        Key::KeyN => 49,
        Key::KeyO => 24,
        Key::KeyP => 25,
        Key::KeyQ => 16,
        Key::KeyR => 19,
        Key::KeyS => 31,
        Key::KeyT => 20,
        Key::KeyU => 22,
        Key::KeyV => 47,
        Key::KeyW => 17,
        Key::KeyX => 45,
        Key::KeyY => 21,
        Key::KeyZ => 44,
        Key::Digit0 => 11,
        Key::Digit1 => 2,
        Key::Digit2 => 3,
        Key::Digit3 => 4,
        Key::Digit4 => 5,
        Key::Digit5 => 6,
        Key::Digit6 => 7,
        Key::Digit7 => 8,
        Key::Digit8 => 9,
        Key::Digit9 => 10,
        Key::F1 => 59,
        Key::F2 => 60,
        Key::F3 => 61,
        Key::F4 => 62,
        Key::F5 => 63,
        Key::F6 => 64,
        Key::F7 => 65,
        Key::F8 => 66,
        Key::F9 => 67,
        Key::F10 => 68,
        Key::F11 => 87,
        Key::F12 => 88,
        Key::Space => 57,
        Key::Tab => 15,
        Key::Enter => 28,
        Key::Escape => 1,
        Key::Backspace => 14,
        Key::Delete => 111,
        Key::Insert => 110,
        Key::Home => 102,
        Key::End => 107,
        Key::PageUp => 104,
        Key::PageDown => 109,
        Key::ArrowUp => 103,
        Key::ArrowDown => 108,
        Key::ArrowLeft => 105,
        Key::ArrowRight => 106,
        Key::Minus => 12,
        Key::Equal => 13,
        Key::BracketLeft => 26,
        Key::BracketRight => 27,
        Key::Semicolon => 39,
        Key::Quote => 40,
        Key::Backslash => 43,
        Key::Comma => 51,
        Key::Period => 52,
        Key::Slash => 53,
        Key::Backquote => 41,
    }
}

/// On Linux every key's X11 keycode is its input-event code plus 8 (the
/// offset of the X server's evdev driver), and that keycode reads back as
/// the key.
pub proof fn lemma_x11_keycode_is_linux_code_plus_8(k: Key)
    ensures
        key_x11(k) == linux_key_code(k) + 8,
        key_of_x11((linux_key_code(k) + 8) as u8) == Some(k),
{
    lemma_key_identifiers_round_trip(k);
}

proof fn lemma_vk_by_index(k: Key)
    ensures
        key_index(k) < 26 ==> key_vk(k) == 0x41 + key_index(k),
        26 <= key_index(k) < 36 ==> key_vk(k) == 0x30 + (key_index(k) - 26),
        36 <= key_index(k) < 48 ==> key_vk(k) == 0x70 + (key_index(k) - 36),
{
}

/// Windows virtual-key codes follow the key table: the letters `KeyA` to
/// `KeyZ` are `0x41` (`'A'`) onwards, the digits `Digit0` to `Digit9` are
/// `0x30` (`'0'`) onwards, and `F1` to `F12` are `0x70` (`VK_F1`) onwards.
pub proof fn lemma_windows_vk_layout()
    ensures
        forall|i: int| 0 <= i < 26 ==> #[trigger] key_vk(key_table()[i]) == 0x41 + i,
        forall|i: int| 26 <= i < 36 ==> #[trigger] key_vk(key_table()[i]) == 0x30 + (i - 26),
        forall|i: int| 36 <= i < 48 ==> #[trigger] key_vk(key_table()[i]) == 0x70 + (i - 36),
{
    assert forall|i: int| 0 <= i < 48 implies key_index(#[trigger] key_table()[i]) == i by {
    }
    assert forall|i: int| 0 <= i < 48 implies {
        &&& i < 26 ==> #[trigger] key_vk(key_table()[i]) == 0x41 + i
        &&& 26 <= i < 36 ==> key_vk(key_table()[i]) == 0x30 + (i - 26)
        &&& 36 <= i ==> key_vk(key_table()[i]) == 0x70 + (i - 36)
    } by {
        assert(key_index(key_table()[i]) == i);
        lemma_vk_by_index(key_table()[i]);
    }
}

} // verus!
