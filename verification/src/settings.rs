//! App-wide, user-configurable preferences: the key combinations that
//! trigger the format/tools wedge menus, and the active color theme, with
//! the validation rules enforced before anything is persisted or applied.
use crate::keys::{is_supported_key, key_of_code};
use vstd::prelude::*;

verus! {

/// A hotkey binding: the four modifier keys plus optionally one additional
/// non-modifier key (a `KeyboardEvent.code` identifier, see `crate::keys`).
#[derive(Clone, Debug, PartialEq, Eq)]
pub struct HotkeyCombo {
    /// Control key held.
    pub ctrl: bool,
    /// Alt (Option) key held.
    pub alt: bool,
    /// Shift key held.
    pub shift: bool,
    /// The Windows/Super (Meta) key held.
    pub meta: bool,
    /// An additional non-modifier key, or `None` for a modifiers-only binding.
    pub key: Option<String>,
}

/// The characters of an optional string.
pub open spec fn opt_view(k: Option<String>) -> Option<Seq<char>> {
    match k {
        Some(s) => Some(s@),
        None => None,
    }
}

/// Two combos hold the same modifiers and the same additional key.
pub open spec fn same_combo(a: HotkeyCombo, b: HotkeyCombo) -> bool {
    a.ctrl == b.ctrl && a.alt == b.alt && a.shift == b.shift && a.meta == b.meta
        && opt_view(a.key) == opt_view(b.key)
}

/// No modifier held and no additional key: a combo that could never trigger.
pub open spec fn combo_is_empty(c: HotkeyCombo) -> bool {
    !c.ctrl && !c.alt && !c.shift && !c.meta && c.key is None
}

impl HotkeyCombo {
    /// Builds a modifiers-only combo (`key` left unset).
    pub fn new(ctrl: bool, alt: bool, shift: bool, meta: bool) -> (r: Self)
        ensures
            r.ctrl == ctrl && r.alt == alt && r.shift == shift && r.meta == meta,
            r.key is None,
    {
        HotkeyCombo { ctrl, alt, shift, meta, key: None }
    }

    /// Returns this combo with `key` set when `key` is one of the supported
    /// key codes; otherwise returns it unchanged.
    pub fn with_key(self, key: &str) -> (r: Self)
        ensures
            r.ctrl == self.ctrl && r.alt == self.alt && r.shift == self.shift && r.meta == self.meta,
            key_of_code(key@) is Some ==> opt_view(r.key) == Some(key@),
            key_of_code(key@) is None ==> r == self,
    {
        let mut c = self;
        if is_supported_key(key) {
            c.key = Some(key.to_owned());
        }
        c
    }

    /// True if no modifier is held and no additional key is set.
    pub fn is_empty(&self) -> (r: bool)
        ensures
            r == combo_is_empty(*self),
    {
        !self.ctrl && !self.alt && !self.shift && !self.meta && self.key.is_none()
    }
}

/// Whether two combos are the same binding.
pub fn combos_equal(a: &HotkeyCombo, b: &HotkeyCombo) -> (r: bool)
    ensures
        r == same_combo(*a, *b),
{
    if a.ctrl != b.ctrl || a.alt != b.alt || a.shift != b.shift || a.meta != b.meta {
        return false;
    }
    match (&a.key, &b.key) {
        (None, None) => true,
        (Some(x), Some(y)) => *x == *y,
        _ => false,
    }
}

/// The default format-menu binding: Shift alone.
pub fn default_format_modifiers() -> (r: HotkeyCombo)
    ensures
        !r.ctrl && !r.alt && r.shift && !r.meta && r.key is None,
{
    HotkeyCombo::new(false, false, true, false)
}

/// The default tools-menu binding: Shift+Alt.
pub fn default_tools_modifiers() -> (r: HotkeyCombo)
    ensures
        !r.ctrl && r.alt && r.shift && !r.meta && r.key is None,
{
    HotkeyCombo::new(false, true, true, false)
}

/// The five user-set color tokens every theme defines, as `#rrggbb` strings
/// that are persisted opaquely.
#[derive(Clone, Debug, PartialEq, Eq)]
pub struct CustomColors {
    /// Primary brand/accent color.
    pub primary: String,
    /// Secondary accent color.
    pub secondary: String,
    /// Neutral (text/background-adjacent) color.
    pub neutral: String,
    /// Surface (card/panel background) color.
    pub surface: String,
    /// Outline/border color.
    pub outline: String,
}

/// The id of the theme the app seeds for its own default look.
pub const DEFAULT_THEME_ID: &'static str = "citrus";

/// All app-wide, user-configurable preferences.
#[derive(Clone, Debug, PartialEq, Eq)]
pub struct Settings {
    /// Combination that opens the format wedge menu.
    pub format_modifiers: HotkeyCombo,
    /// Combination that opens the advanced-tools wedge menu.
    pub tools_modifiers: HotkeyCombo,
    /// The id of the saved theme currently applied.
    pub active_theme_id: String,
    /// An unsaved color tweak layered on top of the active theme.
    pub color_overrides: Option<CustomColors>,
    /// Override path to the FFmpeg binary.
    pub ffmpeg_path: Option<String>,
    /// Override path to the pdfium shared library.
    pub pdfium_path: Option<String>,
}

impl Default for Settings {
    fn default() -> (r: Self)
        ensures
            !r.format_modifiers.ctrl && !r.format_modifiers.alt && r.format_modifiers.shift
                && !r.format_modifiers.meta && r.format_modifiers.key is None,
            !r.tools_modifiers.ctrl && r.tools_modifiers.alt && r.tools_modifiers.shift
                && !r.tools_modifiers.meta && r.tools_modifiers.key is None,
            r.active_theme_id@ == DEFAULT_THEME_ID@,
            r.color_overrides is None,
            r.ffmpeg_path is None,
            r.pdfium_path is None,
    {
        Settings {
            format_modifiers: default_format_modifiers(),
            tools_modifiers: default_tools_modifiers(),
            active_theme_id: DEFAULT_THEME_ID.to_owned(),
            color_overrides: None,
            ffmpeg_path: None,
            pdfium_path: None,
        }
    }
}

/// Which rule a pair of bindings breaks, checked in order: an empty format
/// binding, an empty tools binding, two identical bindings.
pub enum HotkeyProblem {
    /// The format-menu combination is empty.
    EmptyFormat,
    /// The tools-menu combination is empty.
    EmptyTools,
    /// Both combinations are the same binding.
    Identical,
}

/// The first rule `format` and `tools` break, if any.
pub open spec fn hotkey_problem(format: HotkeyCombo, tools: HotkeyCombo) -> Option<HotkeyProblem> {
    if combo_is_empty(format) {
        Some(HotkeyProblem::EmptyFormat)
    } else if combo_is_empty(tools) {
        Some(HotkeyProblem::EmptyTools)
    } else if same_combo(format, tools) {
        Some(HotkeyProblem::Identical)
    } else {
        None
    }
}

/// Enforces the two hard rules for the hotkey bindings: neither may be
/// empty, and the two may not be identical. The error says which.
pub fn validate_hotkeys(format: &HotkeyCombo, tools: &HotkeyCombo) -> (r: Result<(), String>)
    ensures
        match hotkey_problem(*format, *tools) {
            None => r is Ok,
            Some(HotkeyProblem::EmptyFormat) => r matches Err(e)
                && e@ == "the format-menu combination can't be empty"@,
            Some(HotkeyProblem::EmptyTools) => r matches Err(e)
                && e@ == "the tools-menu combination can't be empty"@,
            Some(HotkeyProblem::Identical) => r matches Err(e)
                && e@ == "the format-menu and tools-menu combinations can't be identical"@,
        },
{
    if format.is_empty() {
        return Err("the format-menu combination can't be empty".to_owned());
    }
    if tools.is_empty() {
        return Err("the tools-menu combination can't be empty".to_owned());
    }
    if combos_equal(format, tools) {
        return Err("the format-menu and tools-menu combinations can't be identical".to_owned());
    }
    Ok(())
}

/// Validation does not depend on the order of the two bindings, except
/// for which of the two empty-binding messages is reported: a pair is
/// accepted exactly when the swapped pair is.
pub proof fn lemma_validation_symmetric(format: HotkeyCombo, tools: HotkeyCombo)
    ensures
        (hotkey_problem(format, tools) is None) == (hotkey_problem(tools, format) is None),
{
}

/// A binding is never accepted alongside itself.
pub proof fn lemma_identical_bindings_rejected(c: HotkeyCombo)
    ensures
        hotkey_problem(c, c) is Some,
{
}

/// A pair of bindings is accepted exactly when each holds a modifier or a
/// key, and they differ in at least one of the five fields: Ctrl, Alt,
/// Shift, Meta or the additional key.
pub proof fn lemma_hotkeys_accepted_iff_distinct_and_set(format: HotkeyCombo, tools: HotkeyCombo)
    ensures
        (hotkey_problem(format, tools) is None) <==> {
            &&& (format.ctrl || format.alt || format.shift || format.meta || format.key is Some)
            &&& (tools.ctrl || tools.alt || tools.shift || tools.meta || tools.key is Some)
            &&& (format.ctrl != tools.ctrl || format.alt != tools.alt || format.shift != tools.shift || format.meta
                != tools.meta || opt_view(format.key) != opt_view(tools.key))
        },
{
}

} // verus!
