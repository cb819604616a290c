# satsuma_core

The verified core of Satsuma, a desktop file-conversion assistant: which
conversions a file offers, how each conversion is checked and named, the
text formats it reads and writes itself (SubRip, WebVTT, plain text, the
DOCX package, a RAR5 store-method writer), archive entry budgets and path
sanitizing, theme and settings rules, and the decisions behind the desktop
triggers (modifier-key hooks, window activation, single-instance guard).

## Layout

- `src/` — the library, written in Verus. Every function carries a
  contract, and the properties that span functions (round trips of the
  subtitle formats and of RAR5 integers, sanitized archive paths staying
  inside the extraction folder, install/uninstall symmetry, the hook's
  arming rules, and others) are stated and proved as public lemmas.
  - `convert/` — the conversion families (image, video, audio, document,
    archive), reading and writing ZIP/TAR/GZIP archives in memory
    (`archive_read`, `archive_write`), output naming, progress-line
    parsing, text layout, the DOCX package, RAR5 writing, subtitles and the
    TXT bitmap image layout.
  - `ext.rs`, `file_type.rs`, `text.rs` — extensions, categories and the
    character-sequence toolkit the rest is built on.
  - `settings.rs`, `themes.rs`, `keys.rs`, `integration.rs`,
    `file_manager.rs`, `launch_request.rs` — settings, themes, hotkeys,
    engine lookup, file-manager integration files and launch requests.
  - `modifier_hook.rs`, `single_instance.rs`, `window_focus.rs`,
    `explorer_selection.rs`, `overlay_geometry.rs` — the decisions of the
    platform integrations, apart from the system calls that carry them out.
- `app/` — a command-line program around the library: file and process
  I/O, RAR reading (the `unrar` crate works on file paths), PDF text
  extraction (the extractor panics on some damaged documents, and only a
  program can catch that), PDF rendering and writing, SVG rasterizing, X11, the settings store and JSON
  (de)serialization.
- `tests/` — tests of the library on concrete values.
