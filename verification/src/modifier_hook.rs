//! The decisions of the Windows low-level keyboard hook: which modifier a
//! virtual-key code is, which modifiers are held, and when a change of the
//! held set opens a menu. The Win32 callback feeds key events in and acts
//! on the menu it is handed back.
use crate::integration::{matched_mode_ref, spec_matched_mode};
use crate::launch_request::MenuMode;
use crate::settings::HotkeyCombo;
use vstd::prelude::*;

verus! {

/// A modifier the hook tracks.
#[derive(Clone, Copy, Debug, PartialEq, Eq, Structural)]
pub enum ModifierKey {
    Ctrl,
    Alt,
    Shift,
    Meta,
}

/// The modifier a Win32 virtual-key code stands for: `VK_CONTROL`,
/// `VK_LCONTROL`, `VK_RCONTROL` (0x11, 0xA2, 0xA3); `VK_MENU`, `VK_LMENU`,
/// `VK_RMENU` (0x12, 0xA4, 0xA5); `VK_SHIFT`, `VK_LSHIFT`, `VK_RSHIFT`
/// (0x10, 0xA0, 0xA1); `VK_LWIN`, `VK_RWIN` (0x5B, 0x5C).
pub open spec fn spec_modifier_of_vk(vk: u16) -> Option<ModifierKey> {
    if vk == 0x11 || vk == 0xA2 || vk == 0xA3 {
        Some(ModifierKey::Ctrl)
    } else if vk == 0x12 || vk == 0xA4 || vk == 0xA5 {
        Some(ModifierKey::Alt)
    } else if vk == 0x10 || vk == 0xA0 || vk == 0xA1 {
        Some(ModifierKey::Shift)
    } else if vk == 0x5B || vk == 0x5C {
        Some(ModifierKey::Meta)
    } else {
        None
    }
}

/// Which modifier, if any, the virtual-key code `vk` is.
pub fn modifier_of_vk(vk: u16) -> (r: Option<ModifierKey>)
    ensures
        r == spec_modifier_of_vk(vk),
{
    if vk == 0x11 || vk == 0xA2 || vk == 0xA3 {
        Some(ModifierKey::Ctrl)
    } else if vk == 0x12 || vk == 0xA4 || vk == 0xA5 {
        Some(ModifierKey::Alt)
    } else if vk == 0x10 || vk == 0xA0 || vk == 0xA1 {
        Some(ModifierKey::Shift)
    } else if vk == 0x5B || vk == 0x5C {
        Some(ModifierKey::Meta)
    } else {
        None
    }
}

/// A key going down (`WM_KEYDOWN`/`WM_SYSKEYDOWN`) or up (`WM_KEYUP`/`WM_SYSKEYUP`).
#[derive(Clone, Copy, Debug, PartialEq, Eq, Structural)]
pub enum KeyTransition {
    Down,
    Up,
}

/// What the hook remembers between events: the modifiers held, and whether
/// the current match has already opened its menu.
#[derive(Clone, Copy, Debug, PartialEq, Eq, Structural)]
pub struct HookState {
    pub ctrl: bool,
    pub alt: bool,
    pub shift: bool,
    pub meta: bool,
    pub armed: bool,
}

/// `s` with modifier `m` marked held or released.
pub open spec fn with_modifier(s: HookState, m: ModifierKey, held: bool) -> HookState {
    match m {
        ModifierKey::Ctrl => HookState { ctrl: held, ..s },
        ModifierKey::Alt => HookState { alt: held, ..s },
        ModifierKey::Shift => HookState { shift: held, ..s },
        ModifierKey::Meta => HookState { meta: held, ..s },
    }
}

/// The combination `s` holds: its modifiers, with no additional key.
pub open spec fn held_combo(s: HookState) -> HotkeyCombo {
    HotkeyCombo { ctrl: s.ctrl, alt: s.alt, shift: s.shift, meta: s.meta, key: None }
}

/// One event: a key that is no modifier changes nothing. Otherwise the
/// modifier is marked; on a press that makes the held set match a binding,
/// the menu opens unless the hook is already armed (and it becomes armed);
/// on a release that leaves no binding matched, the hook is disarmed.
pub open spec fn spec_on_key(
    s: HookState,
    vk: u16,
    t: KeyTransition,
    format: HotkeyCombo,
    tools: HotkeyCombo,
) -> (HookState, Option<MenuMode>) {
    match spec_modifier_of_vk(vk) {
        None => (s, None),
        Some(m) => {
            let held = with_modifier(s, m, t == KeyTransition::Down);
            let mode = spec_matched_mode(held_combo(held), format, tools);
            match t {
                KeyTransition::Down => match mode {
                    Some(md) => if held.armed {
                        (held, None)
                    } else {
                        (HookState { armed: true, ..held }, Some(md))
                    },
                    None => (held, None),
                },
                KeyTransition::Up => if mode is None {
                    (HookState { armed: false, ..held }, None)
                } else {
                    (held, None)
                },
            }
        },
    }
}

impl HookState {
    /// Nothing held, not armed.
    pub fn new() -> (r: Self)
        ensures
            !r.ctrl && !r.alt && !r.shift && !r.meta && !r.armed,
    {
        HookState { ctrl: false, alt: false, shift: false, meta: false, armed: false }
    }

    /// Takes one key event and returns the menu to open, if any.
    pub fn on_key(&mut self, vk: u16, transition: KeyTransition, format: &HotkeyCombo, tools: &HotkeyCombo) -> (r: Option<MenuMode>)
        ensures
            (*final(self), r) == spec_on_key(*old(self), vk, transition, *format, *tools),
    {
        let m = match modifier_of_vk(vk) {
            None => return None,
            Some(m) => m,
        };
        let down = transition == KeyTransition::Down;
        match m {
            ModifierKey::Ctrl => self.ctrl = down,
            ModifierKey::Alt => self.alt = down,
            ModifierKey::Shift => self.shift = down,
            ModifierKey::Meta => self.meta = down,
        }
        let held = HotkeyCombo::new(self.ctrl, self.alt, self.shift, self.meta);
        let mode = matched_mode_ref(&held, format, tools);
        match transition {
            KeyTransition::Down => match mode {
                Some(md) => {
                    if self.armed {
                        None
                    } else {
                        self.armed = true;
                        Some(md)
                    }
                },
                None => None,
            },
            KeyTransition::Up => {
                if mode.is_none() {
                    self.armed = false;
                }
                None
            },
        }
    }
}

/// Once a press has opened a menu, further presses open none until a
/// release leaves no binding matched.
pub proof fn lemma_opens_once_per_match(s: HookState, vk: u16, format: HotkeyCombo, tools: HotkeyCombo)
    requires
        s.armed,
    ensures
        spec_on_key(s, vk, KeyTransition::Down, format, tools).1 is None,
        spec_on_key(s, vk, KeyTransition::Down, format, tools).0.armed,
{
}

/// A press that opens a menu leaves the hook armed, and the menu it opens
/// is the one the held set matches.
pub proof fn lemma_open_arms(s: HookState, vk: u16, t: KeyTransition, format: HotkeyCombo, tools: HotkeyCombo)
    requires
        spec_on_key(s, vk, t, format, tools).1 is Some,
    ensures
        t == KeyTransition::Down,
        !s.armed,
        spec_on_key(s, vk, t, format, tools).0.armed,
        spec_on_key(s, vk, t, format, tools).1 == spec_matched_mode(
            held_combo(spec_on_key(s, vk, t, format, tools).0),
            format,
            tools,
        ),
{
}

/// A key that is no modifier leaves the state as it was and opens nothing.
pub proof fn lemma_other_keys_ignored(s: HookState, vk: u16, t: KeyTransition, format: HotkeyCombo, tools: HotkeyCombo)
    requires
        spec_modifier_of_vk(vk) is None,
    ensures
        spec_on_key(s, vk, t, format, tools) == (s, None::<MenuMode>),
{
}

/// The hook tracks modifiers alone, so a binding that also names a
/// non-modifier key never opens its menu through it.
pub proof fn lemma_key_bindings_never_open(
    s: HookState,
    vk: u16,
    t: KeyTransition,
    format: HotkeyCombo,
    tools: HotkeyCombo,
)
    ensures
        tools.key is Some ==> spec_on_key(s, vk, t, format, tools).1 != Some(MenuMode::Tools),
        format.key is Some ==> spec_on_key(s, vk, t, format, tools).1 != Some(MenuMode::Formats),
{
}

/// The generic modifiers in virtual-key order: `VK_SHIFT`, `VK_CONTROL`,
/// `VK_MENU` are `0x10`, `0x11`, `0x12`.
pub open spec fn generic_modifiers() -> Seq<ModifierKey> {
    seq![ModifierKey::Shift, ModifierKey::Ctrl, ModifierKey::Alt]
}

/// Shift, Ctrl and Alt are each recognized by their generic code
/// `0x10 + i` and by their left and right codes `0xA0 + 2i` and
/// `0xA1 + 2i`; Meta by the left and right Windows keys `0x5B` and `0x5C`;
/// every other code is no modifier.
pub proof fn lemma_modifier_codes(vk: u16)
    ensures
        forall|i: int|
            0 <= i < 3 ==> spec_modifier_of_vk((0x10 + i) as u16) == Some(#[trigger] generic_modifiers()[i])
                && spec_modifier_of_vk((0xA0 + 2 * i) as u16) == Some(generic_modifiers()[i])
                && spec_modifier_of_vk((0xA1 + 2 * i) as u16) == Some(generic_modifiers()[i]),
        spec_modifier_of_vk(0x5B) == Some(ModifierKey::Meta),
        spec_modifier_of_vk(0x5C) == Some(ModifierKey::Meta),
        !(0x10 <= vk <= 0x12 || 0xA0 <= vk <= 0xA5 || vk == 0x5B || vk == 0x5C) ==> spec_modifier_of_vk(vk) is None,
{
    assert forall|i: int| 0 <= i < 3 implies spec_modifier_of_vk((0x10 + i) as u16) == Some(
        #[trigger] generic_modifiers()[i],
    ) && spec_modifier_of_vk((0xA0 + 2 * i) as u16) == Some(generic_modifiers()[i]) && spec_modifier_of_vk(
        (0xA1 + 2 * i) as u16,
    ) == Some(generic_modifiers()[i]) by {
        if i == 0 {
        } else if i == 1 {
        } else {
        }
    }
}

} // verus!
