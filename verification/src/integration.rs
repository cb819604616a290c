//! The desktop shell's decisions, apart from the I/O that carries them
//! out: where settings, themes and file-manager integration files live,
//! how external tools are located, how a newly saved theme is named, which
//! menu a held key combination opens, and how paths and errors are shown.
use crate::convert::error::{is_message_of, ConvertError};
use crate::convert::{spec_selection_targets, string_views, supported_targets_for_selection};
use crate::ext::str_views;
use crate::keys::{key_code, key_table, key_x11, x11_keycodes};
use crate::launch_request::MenuMode;
use crate::settings::{same_combo, combos_equal, HotkeyCombo, Settings, DEFAULT_THEME_ID};
use crate::text::{
    chars_eq, chars_of, decimal, decimal_chars, has_prefix, push_all, push_str, starts_with,
    str_is, string_from_chars, sub_chars,
};
use crate::themes::ThemeFile;
use vstd::prelude::*;

verus! {

/// `base` joined with the relative path `rel` by `/`, as a path join does:
/// no separator is added after an empty base or one already ending in `/`.
pub open spec fn join_path(base: Seq<char>, rel: Seq<char>) -> Seq<char> {
    if base.len() == 0 {
        rel
    } else if base.last() == '/' {
        base + rel
    } else {
        base + seq!['/'] + rel
    }
}

/// Joins `base` and the relative path `rel`.
pub fn join(base: &str, rel: &str) -> (r: String)
    ensures
        r@ == join_path(base@, rel@),
{
    let mut v = chars_of(base);
    let n = v.len();
    if n > 0 && v[n - 1] != '/' {
        v.push('/');
    }
    push_str(&mut v, rel);
    proof {
        if n == 0 {
            assert(v@ =~= rel@);
        }
    }
    string_from_chars(&v)
}

/// The themes directory inside the app's config directory.
pub fn themes_dir(config_base_dir: &str) -> (r: String)
    ensures
        r@ == join_path(config_base_dir@, "themes"@),
{
    join(config_base_dir, "themes")
}

/// The file a theme with id `id` is saved in: `<dir>/<id>.json`.
pub fn theme_file_path(dir: &str, id: &str) -> (r: String)
    ensures
        r@ == join_path(dir@, id@ + ".json"@),
{
    let mut name = chars_of(id);
    push_str(&mut name, ".json");
    let name_s = string_from_chars(&name);
    join(dir, name_s.as_str())
}

/// The settings file inside the app's config directory.
pub fn settings_file_path(config_dir: &str) -> (r: String)
    ensures
        r@ == join_path(config_dir@, "settings.json"@),
{
    join(config_dir, "settings.json")
}

/// The ids of a theme list.
pub open spec fn theme_ids(themes: Seq<(String, ThemeFile)>) -> Seq<Seq<char>> {
    themes.map_values(|t: (String, ThemeFile)| t.0@)
}

/// Whether some theme in `themes` has the id `id`.
pub fn theme_exists(themes: &[(String, ThemeFile)], id: &str) -> (r: bool)
    ensures
        r == theme_ids(themes@).contains(id@),
{
    for i in 0..themes.len()
        invariant
            forall|j: int| 0 <= j < i ==> theme_ids(themes@)[j] != id@,
    {
        if str_is(themes[i].0.as_str(), id) {
            proof {
                assert(theme_ids(themes@)[i as int] == id@);
            }
            return true;
        }
    }
    false
}

/// Whether the id `a` sorts before `b`: compared character by character
/// (by code point, which is the order of their UTF-8 bytes), a proper
/// prefix first.
pub open spec fn id_less(a: Seq<char>, b: Seq<char>) -> bool
    decreases a.len(),
{
    if a.len() == 0 {
        b.len() > 0
    } else if b.len() == 0 {
        false
    } else if a[0] != b[0] {
        a[0] < b[0]
    } else {
        id_less(a.skip(1), b.skip(1))
    }
}

proof fn lemma_id_less_irreflexive(a: Seq<char>)
    ensures
        !id_less(a, a),
    decreases a.len(),
{
    if a.len() > 0 {
        lemma_id_less_irreflexive(a.skip(1));
    }
}

proof fn lemma_id_less_transitive(a: Seq<char>, b: Seq<char>, c: Seq<char>)
    requires
        id_less(a, b),
        id_less(b, c),
    ensures
        id_less(a, c),
    decreases a.len(),
{
    if a.len() > 0 && a[0] == b[0] && b[0] == c[0] {
        lemma_id_less_transitive(a.skip(1), b.skip(1), c.skip(1));
    }
}

/// Whether `a` sorts before `b`, as [`id_less`].
fn ids_less(a: &Vec<char>, b: &Vec<char>) -> (r: bool)
    ensures
        r == id_less(a@, b@),
{
    let mut i: usize = 0;
    proof {
        assert(a@.skip(0) =~= a@);
        assert(b@.skip(0) =~= b@);
    }
    while i < a.len() && i < b.len()
        invariant
            i <= a@.len(),
            i <= b@.len(),
            id_less(a@, b@) == id_less(a@.skip(i as int), b@.skip(i as int)),
        decreases a@.len() - i,
    {
        proof {
            assert(a@.skip(i as int)[0] == a@[i as int]);
            assert(b@.skip(i as int)[0] == b@[i as int]);
            assert(a@.skip(i as int).skip(1) =~= a@.skip(i + 1));
            assert(b@.skip(i as int).skip(1) =~= b@.skip(i + 1));
        }
        if a[i] != b[i] {
            return a[i] < b[i];
        }
        i = i + 1;
    }
    i == a.len() && i < b.len()
}

/// Whether the ids of `themes` are in order: no later id sorts before an
/// earlier one.
pub open spec fn ids_in_order(themes: Seq<(String, ThemeFile)>) -> bool {
    forall|i: int, j: int| 0 <= i < j < themes.len() ==> !id_less(#[trigger] themes[j].0@, #[trigger] themes[i].0@)
}

/// The themes of a listing put in order of their ids (the file names they
/// were read from), for a stable picker; nothing is added or dropped.
pub fn order_themes(themes: Vec<(String, ThemeFile)>) -> (r: Vec<(String, ThemeFile)>)
    ensures
        r@.to_multiset() == themes@.to_multiset(),
        ids_in_order(r@),
{
    let mut out: Vec<(String, ThemeFile)> = Vec::new();
    let mut rest = themes;
    let ghost all = rest@;
    proof {
        broadcast use vstd::seq_lib::group_to_multiset_ensures;
        assert(all.take(0) =~= Seq::<(String, ThemeFile)>::empty());
        assert(all.skip(0) =~= all);
    }
    let n = rest.len();
    let mut k: usize = 0;
    while k < n
        invariant
            n == all.len(),
            k <= n,
            rest@ == all.skip(k as int),
            out@.to_multiset() == all.take(k as int).to_multiset(),
            ids_in_order(out@),
        decreases n - k,
    {
        let item = rest.remove(0);
        proof {
            assert(item == all[k as int]);
            assert(all.skip(k as int).remove(0) =~= all.skip(k + 1));
        }
        let key = chars_of(item.0.as_str());
        let mut p: usize = 0;
        while p < out.len()
            invariant
                p <= out@.len(),
                key@ == item.0@,
                forall|q: int| 0 <= q < p ==> !id_less(key@, #[trigger] out@[q].0@),
            ensures
                p <= out@.len(),
                forall|q: int| 0 <= q < p ==> !id_less(key@, #[trigger] out@[q].0@),
                p < out@.len() ==> id_less(key@, out@[p as int].0@),
            decreases out@.len() - p,
        {
            let other = chars_of(out[p].0.as_str());
            if ids_less(&key, &other) {
                break;
            }
            p = p + 1;
        }
        let ghost before = out@;
        out.insert(p, item);
        proof {
            broadcast use vstd::seq_lib::group_to_multiset_ensures;
            vstd::seq_lib::to_multiset_insert(before, p as int, item);
            assert(all.take(k + 1) =~= all.take(k as int).push(all[k as int]));
            assert forall|i: int, j: int| 0 <= i < j < out@.len() implies !id_less(
                #[trigger] out@[j].0@,
                #[trigger] out@[i].0@,
            ) by {
                let x = item.0@;
                if i < p && j < p {
                    assert(out@[i] == before[i] && out@[j] == before[j]);
                } else if i < p && j == p {
                    assert(out@[i] == before[i]);
                    assert(!id_less(x, before[i].0@));
                } else if i < p && j > p {
                    assert(out@[i] == before[i] && out@[j] == before[j - 1]);
                } else if i == p {
                    assert(out@[j] == before[j - 1]);
                    if id_less(before[j - 1].0@, x) {
                        lemma_id_less_transitive(before[j - 1].0@, x, before[p as int].0@);
                        if j - 1 == p {
                            lemma_id_less_irreflexive(x);
                            lemma_id_less_irreflexive(before[p as int].0@);
                        }
                    }
                } else {
                    assert(out@[i] == before[i - 1] && out@[j] == before[j - 1]);
                }
            }
        }
        k = k + 1;
    }
    proof {
        assert(all.take(n as int) =~= all);
    }
    out
}

/// The `n`-th candidate id for a theme whose slug is `base`: `base` itself
/// first, then `base-2`, `base-3`, ...
pub open spec fn theme_id_candidate(base: Seq<char>, n: nat) -> Seq<char> {
    if n <= 1 {
        base
    } else {
        base + seq!['-'] + decimal(n)
    }
}

/// `r` is the id a new theme with slug `base` is saved under, given the ids
/// `taken` by theme files already present: the first free candidate.
pub open spec fn is_first_free_id(taken: Seq<Seq<char>>, base: Seq<char>, r: Seq<char>) -> bool {
    exists|n: nat|
        n >= 1 && r == #[trigger] theme_id_candidate(base, n) && !taken.contains(r) && forall|k: nat|
            1 <= k < n ==> taken.contains(#[trigger] theme_id_candidate(base, k))
}

proof fn lemma_theme_candidates_distinct(base: Seq<char>, a: nat, b: nat)
    requires
        1 <= a,
        1 <= b,
        theme_id_candidate(base, a) == theme_id_candidate(base, b),
    ensures
        a == b,
{
    let p = base + seq!['-'];
    if a >= 2 && b >= 2 {
        assert(decimal(a) =~= theme_id_candidate(base, a).skip(p.len() as int));
        assert(decimal(b) =~= theme_id_candidate(base, b).skip(p.len() as int));
        crate::text::lemma_decimal_injective(a, b);
    } else if a >= 2 {
        crate::text::lemma_decimal_len(a);
    } else if b >= 2 {
        crate::text::lemma_decimal_len(b);
    }
}

/// Whether `id` is one of `taken`.
fn is_taken(taken: &[String], id: &Vec<char>) -> (r: bool)
    ensures
        r == string_views(taken@).contains(id@),
{
    for i in 0..taken.len()
        invariant
            forall|j: int| 0 <= j < i ==> string_views(taken@)[j] != id@,
    {
        let t = chars_of(taken[i].as_str());
        if chars_eq(&t, id) {
            proof {
                assert(string_views(taken@)[i as int] == id@);
            }
            return true;
        }
    }
    false
}

/// Picks the id a theme named with slug `base_id` is saved under: the slug
/// itself when no theme file has it, otherwise `<slug>-2`, `<slug>-3`, ...
/// whichever comes first free. `taken` lists the ids of the theme files
/// already in the themes directory.
pub fn pick_theme_id(base_id: &str, taken: &[String]) -> (r: String)
    requires
        taken@.len() + 2 <= usize::MAX,
    ensures
        is_first_free_id(string_views(taken@), base_id@, r@),
{
    let ghost t = string_views(taken@);
    let base = chars_of(base_id);
    let len = taken.len();
    let mut n: usize = 1;
    loop
        invariant
            t == string_views(taken@),
            base@ == base_id@,
            len == taken@.len(),
            len + 2 <= usize::MAX,
            1 <= n <= len + 1,
            forall|k: nat| 1 <= k < n ==> t.contains(#[trigger] theme_id_candidate(base_id@, k)),
        decreases len + 1 - n,
    {
        let mut cand = base.clone();
        if n >= 2 {
            cand.push('-');
            let digits = decimal_chars(n as u64);
            push_all(&mut cand, &digits);
        }
        proof {
            assert(cand@ =~= theme_id_candidate(base_id@, n as nat));
        }
        if !is_taken(taken, &cand) {
            return string_from_chars(&cand);
        }
        if n == len + 1 {
            proof {
                let vals = Seq::new((len + 1) as nat, |k: int| theme_id_candidate(base_id@, (k + 1) as nat));
                assert forall|i: int, j: int| 0 <= i < j < vals.len() implies vals[i] != vals[j] by {
                    if vals[i] == vals[j] {
                        lemma_theme_candidates_distinct(base_id@, (i + 1) as nat, (j + 1) as nat);
                    }
                }
                assert forall|i: int| 0 <= i < vals.len() implies t.contains(#[trigger] vals[i]) by {
                    assert(vals[i] == theme_id_candidate(base_id@, (i + 1) as nat));
                    if i + 1 < n {
                    } else {
                        assert(theme_id_candidate(base_id@, (i + 1) as nat) == cand@);
                    }
                }
                crate::convert::naming::lemma_pigeonhole(t, vals);
            }
            return string_from_chars(&cand);
        }
        n = n + 1;
    }
}

/// Makes sure the active theme still exists among `themes`: when it does
/// not, the active theme falls back to the default and any unsaved color
/// overrides are dropped. The flag says whether a correction was made.
pub fn reconcile_active_theme(settings: Settings, themes: &[(String, ThemeFile)]) -> (r: (Settings, bool))
    ensures
        theme_ids(themes@).contains(settings.active_theme_id@) ==> r.0 == settings && !r.1,
        !theme_ids(themes@).contains(settings.active_theme_id@) ==> r.1 && r.0.active_theme_id@
            == DEFAULT_THEME_ID@ && r.0.color_overrides is None && r.0.format_modifiers
            == settings.format_modifiers && r.0.tools_modifiers == settings.tools_modifiers
            && r.0.ffmpeg_path == settings.ffmpeg_path && r.0.pdfium_path == settings.pdfium_path,
{
    if theme_exists(themes, settings.active_theme_id.as_str()) {
        (settings, false)
    } else {
        let mut s = settings;
        s.active_theme_id = DEFAULT_THEME_ID.to_owned();
        s.color_overrides = None;
        (s, true)
    }
}

/// The Windows verbatim-path prefix `\\?\`.
pub open spec fn verbatim_prefix() -> Seq<char> {
    seq!['\\', '\\', '?', '\\']
}

/// The `UNC\` marker that follows the verbatim prefix on a network path.
pub open spec fn unc_marker() -> Seq<char> {
    seq!['U', 'N', 'C', '\\']
}

/// How a path is shown: without the verbatim prefix, and a verbatim UNC
/// path in its usual `\\server\share` form.
pub open spec fn spec_display_path(p: Seq<char>) -> Seq<char> {
    if starts_with(p, verbatim_prefix()) {
        let rest = p.skip(4);
        if starts_with(rest, unc_marker()) {
            seq!['\\', '\\'] + rest.skip(4)
        } else {
            rest
        }
    } else {
        p
    }
}

/// Renders `path` for display without Windows' `\\?\` verbatim prefix;
/// a verbatim UNC path becomes `\\server\share\...`.
pub fn display_path(path: &str) -> (r: String)
    ensures
        r@ == spec_display_path(path@),
{
    let p = chars_of(path);
    let prefix: Vec<char> = vec!['\\', '\\', '?', '\\'];
    proof {
        assert(prefix@ =~= verbatim_prefix());
    }
    if !has_prefix(&p, &prefix) {
        return path.to_owned();
    }
    let rest = sub_chars(&p, 4, p.len());
    proof {
        assert(rest@ =~= p@.skip(4));
    }
    let unc: Vec<char> = vec!['U', 'N', 'C', '\\'];
    proof {
        assert(unc@ =~= unc_marker());
    }
    if has_prefix(&rest, &unc) {
        let mut out: Vec<char> = vec!['\\', '\\'];
        let tail = sub_chars(&rest, 4, rest.len());
        push_all(&mut out, &tail);
        proof {
            assert(tail@ =~= rest@.skip(4));
            assert(out@ =~= seq!['\\', '\\'] + rest@.skip(4));
        }
        string_from_chars(&out)
    } else {
        string_from_chars(&rest)
    }
}

/// How a failed file operation is reported: `"<path>: <message>"`.
pub fn error_report(path: &str, error: &ConvertError) -> (r: String)
    ensures
        r@.len() >= path@.len() + 2,
        r@.take(path@.len() as int + 2) == path@ + ": "@,
        is_message_of(*error, r@.skip(path@.len() as int + 2)),
{
    let mut v = chars_of(path);
    push_str(&mut v, ": ");
    let ghost head = v@;
    proof {
        reveal_strlit(": ");
        assert(head.len() == path@.len() + 2);
    }
    let m = error.message();
    push_str(&mut v, m.as_str());
    proof {
        assert(v@.take(head.len() as int) =~= head);
        assert(v@.skip(head.len() as int) =~= m@);
    }
    string_from_chars(&v)
}

proof fn lemma_views_push(a: Seq<String>, x: String)
    ensures
        string_views(a.push(x)) == string_views(a).push(x@),
{
    assert(string_views(a.push(x)) =~= string_views(a).push(x@));
}

/// The conversion targets offered for a selection of paths: nothing for an
/// empty selection or one containing a directory (`any_directory`, as the
/// caller found on disk); otherwise the targets every path shares.
pub fn list_conversion_targets(paths: &[String], any_directory: bool) -> (r: Vec<String>)
    ensures
        paths@.len() == 0 || any_directory ==> r@.len() == 0,
        !(paths@.len() == 0 || any_directory) ==> string_views(r@) == spec_selection_targets(
            string_views(paths@),
        ),
{
    let mut out: Vec<String> = Vec::new();
    if paths.len() == 0 || any_directory {
        return out;
    }
    let targets = supported_targets_for_selection(paths);
    for i in 0..targets.len()
        invariant
            string_views(out@) == str_views(targets@).take(i as int),
    {
        let s = targets[i].to_owned();
        let ghost sv = s@;
        let ghost before = out@;
        proof {
            assert(sv == str_views(targets@)[i as int]);
        }
        out.push(s);
        proof {
            lemma_views_push(before, s);
            assert(str_views(targets@).take(i + 1) =~= str_views(targets@).take(i as int).push(sv));
            assert(string_views(out@) =~= str_views(targets@).take(i + 1));
        }
    }
    proof {
        assert(str_views(targets@).take(targets@.len() as int) =~= str_views(targets@));
    }
    out
}

/// The operating system the app runs on, as far as these decisions care.
#[derive(Clone, Copy, Debug, PartialEq, Eq, Structural)]
pub enum Platform {
    /// Windows.
    Windows,
    /// Linux.
    Linux,
    /// Any other system.
    Other,
}

/// The pdfium shared library's file name on `platform`.
pub fn library_file_name(platform: Platform) -> (r: &'static str)
    ensures
        platform == Platform::Windows ==> r@ == "pdfium.dll"@,
        platform != Platform::Windows ==> r@ == "libpdfium.so"@,
{
    match platform {
        Platform::Windows => "pdfium.dll",
        _ => "libpdfium.so",
    }
}

/// The system library directories searched for pdfium on `platform`, in
/// order: a few standard ones on Linux, none elsewhere.
pub fn system_library_dirs(platform: Platform) -> (r: Vec<String>)
    ensures
        platform == Platform::Linux ==> string_views(r@) == seq![
            "/usr/local/lib"@,
            "/usr/lib/x86_64-linux-gnu"@,
            "/usr/lib64"@,
            "/usr/lib"@,
        ],
        platform != Platform::Linux ==> r@.len() == 0,
{
    let mut r: Vec<String> = Vec::new();
    if platform == Platform::Linux {
        r.push("/usr/local/lib".to_owned());
        r.push("/usr/lib/x86_64-linux-gnu".to_owned());
        r.push("/usr/lib64".to_owned());
        r.push("/usr/lib".to_owned());
        proof {
            assert(string_views(r@) =~= seq![
                "/usr/local/lib"@,
                "/usr/lib/x86_64-linux-gnu"@,
                "/usr/lib64"@,
                "/usr/lib"@,
            ]);
        }
    }
    r
}

/// `r` is the first candidate whose probe (`marks`, in the same order)
/// succeeded, or `None` when none did.
pub open spec fn is_first_marked(candidates: Seq<Seq<char>>, marks: Seq<bool>, r: Option<Seq<char>>) -> bool {
    match r {
        None => forall|i: int| 0 <= i < marks.len() ==> !#[trigger] marks[i],
        Some(c) => exists|i: int|
            0 <= i < marks.len() && #[trigger] marks[i] && candidates[i] == c && forall|j: int|
                0 <= j < i ==> !marks[j],
    }
}

/// The first candidate that passed its probe: the caller probes each
/// candidate (is it a runnable FFmpeg, does it hold the pdfium library)
/// and hands in the answers.
pub fn first_marked(candidates: &[String], marks: &[bool]) -> (r: Option<String>)
    requires
        marks@.len() == candidates@.len(),
    ensures
        is_first_marked(string_views(candidates@), marks@, match r {
            Some(s) => Some(s@),
            None => None,
        }),
{
    for i in 0..candidates.len()
        invariant
            marks@.len() == candidates@.len(),
            forall|j: int| 0 <= j < i ==> !marks@[j],
    {
        if marks[i] {
            let c = candidates[i].clone();
            proof {
                assert(string_views(candidates@)[i as int] == c@);
            }
            return Some(c);
        }
    }
    None
}

/// A configured FFmpeg override is used exactly when it runs (`runnable`,
/// as probed by the caller); otherwise nothing is used, never a fallback.
pub fn resolve_ffmpeg_override(path: &str, runnable: bool) -> (r: Option<String>)
    ensures
        runnable ==> (r matches Some(p) && p@ == path@),
        !runnable ==> r is None,
{
    if runnable {
        Some(path.to_owned())
    } else {
        None
    }
}

/// The directory part of a file path, as a path's `parent` gives it:
/// everything before the last `/` or `\` (the root itself when that is the
/// first character), or empty when there is none.
pub open spec fn parent_dir(p: Seq<char>) -> Seq<char> {
    let k = crate::file_type::last_sep_index(p);
    if k < 0 {
        Seq::empty()
    } else if k == 0 {
        p.take(1)
    } else {
        p.take(k)
    }
}

/// A configured pdfium override names the library file; it is used, as the
/// directory holding that file, exactly when it is a file (`is_file`, as
/// the caller found on disk).
pub fn resolve_pdfium_override(path: &str, is_file: bool) -> (r: Option<String>)
    ensures
        is_file ==> (r matches Some(d) && d@ == parent_dir(path@)),
        !is_file ==> r is None,
{
    if !is_file {
        return None;
    }
    let prefix = crate::convert::naming::parent_prefix_of(path);
    let pc = chars_of(prefix.as_str());
    let n = pc.len();
    proof {
        crate::file_type::lemma_last_sep_index(path@);
    }
    if n <= 1 {
        Some(prefix)
    } else {
        let d = sub_chars(&pc, 0, n - 1);
        Some(string_from_chars(&d))
    }
}

/// The target triple the FFmpeg sidecar is named for on `platform`.
pub open spec fn target_triple(platform: Platform) -> Seq<char> {
    match platform {
        Platform::Windows => "x86_64-pc-windows-msvc"@,
        Platform::Linux => "x86_64-unknown-linux-gnu"@,
        Platform::Other => "unknown"@,
    }
}

/// The executable suffix on `platform`.
pub open spec fn exe_suffix(platform: Platform) -> Seq<char> {
    if platform == Platform::Windows {
        ".exe"@
    } else {
        Seq::empty()
    }
}

/// The two names the FFmpeg sidecar may have inside `dir`, in the order
/// they are tried: `ffmpeg<exe>`, then `ffmpeg-<triple><exe>`.
pub fn ffmpeg_candidates(dir: &str, platform: Platform) -> (r: Vec<String>)
    ensures
        string_views(r@) == seq![
            join_path(dir@, "ffmpeg"@ + exe_suffix(platform)),
            join_path(dir@, "ffmpeg-"@ + target_triple(platform) + exe_suffix(platform)),
        ],
{
    let exe = match platform {
        Platform::Windows => ".exe",
        _ => "",
    };
    let triple = match platform {
        Platform::Windows => "x86_64-pc-windows-msvc",
        Platform::Linux => "x86_64-unknown-linux-gnu",
        Platform::Other => "unknown",
    };
    proof {
        reveal_strlit("");
        assert(exe@ == exe_suffix(platform));
    }
    let mut a = chars_of("ffmpeg");
    push_str(&mut a, exe);
    let a_s = string_from_chars(&a);
    let mut b = chars_of("ffmpeg-");
    push_str(&mut b, triple);
    push_str(&mut b, exe);
    let b_s = string_from_chars(&b);
    let mut r: Vec<String> = Vec::new();
    r.push(join(dir, a_s.as_str()));
    r.push(join(dir, b_s.as_str()));
    proof {
        assert(string_views(r@) =~= seq![
            join_path(dir@, "ffmpeg"@ + exe_suffix(platform)),
            join_path(dir@, "ffmpeg-"@ + target_triple(platform) + exe_suffix(platform)),
        ]);
    }
    r
}

/// The two FFmpeg names inside `dir`, as [`ffmpeg_candidates`] gives them.
pub open spec fn ffmpeg_names_in(dir: Seq<char>, platform: Platform) -> Seq<Seq<char>> {
    seq![
        join_path(dir, "ffmpeg"@ + exe_suffix(platform)),
        join_path(dir, "ffmpeg-"@ + target_triple(platform) + exe_suffix(platform)),
    ]
}

/// `ffmpeg<exe>` in each of `dirs`, in order.
pub open spec fn ffmpeg_on_path(dirs: Seq<Seq<char>>, platform: Platform) -> Seq<Seq<char>> {
    dirs.map_values(|d: Seq<char>| join_path(d, "ffmpeg"@ + exe_suffix(platform)))
}

/// Where FFmpeg is looked for when no override is set, in order: the
/// bundled copies under the resource directory's `ffmpeg` folder, then the
/// copies next to the executable, then `ffmpeg` in each `PATH` directory.
/// When the executable's own directory is unknown, the search ends after
/// the bundled copies.
pub open spec fn spec_ffmpeg_search(
    resource_dir: Option<Seq<char>>,
    exe_dir: Option<Seq<char>>,
    path_dirs: Seq<Seq<char>>,
    platform: Platform,
) -> Seq<Seq<char>> {
    let bundled = match resource_dir {
        Some(r) => ffmpeg_names_in(join_path(r, "ffmpeg"@), platform),
        None => Seq::empty(),
    };
    match exe_dir {
        Some(e) => bundled + ffmpeg_names_in(e, platform) + ffmpeg_on_path(path_dirs, platform),
        None => bundled,
    }
}

/// An optional text by its view.
pub open spec fn opt_str_view(s: Option<&str>) -> Option<Seq<char>> {
    match s {
        Some(t) => Some(t@),
        None => None,
    }
}

/// The FFmpeg candidates in the order they are tried, as
/// [`spec_ffmpeg_search`]; the caller uses the first one that runs.
pub fn ffmpeg_search_order(
    resource_dir: Option<&str>,
    exe_dir: Option<&str>,
    path_dirs: &[String],
    platform: Platform,
) -> (r: Vec<String>)
    ensures
        string_views(r@) == spec_ffmpeg_search(
            opt_str_view(resource_dir),
            opt_str_view(exe_dir),
            string_views(path_dirs@),
            platform,
        ),
{
    let mut r: Vec<String> = Vec::new();
    if let Some(res) = resource_dir {
        let dir = join(res, "ffmpeg");
        r = ffmpeg_candidates(dir.as_str(), platform);
    }
    proof {
        reveal_strlit("ffmpeg");
    }
    let ghost bundled = string_views(r@);
    match exe_dir {
        None => r,
        Some(e) => {
            let mut dev = ffmpeg_candidates(e, platform);
            r.append(&mut dev);
            proof {
                assert(string_views(r@) =~= bundled + ffmpeg_names_in(e@, platform));
            }
            let exe = match platform {
                Platform::Windows => "ffmpeg.exe",
                _ => "ffmpeg",
            };
            proof {
                reveal_strlit("ffmpeg.exe");
                reveal_strlit(".exe");
                reveal_strlit("");
                assert(exe@ =~= "ffmpeg"@ + exe_suffix(platform));
            }
            let ghost head = string_views(r@);
            for i in 0..path_dirs.len()
                invariant
                    exe@ == "ffmpeg"@ + exe_suffix(platform),
                    string_views(r@) == head + ffmpeg_on_path(string_views(path_dirs@).take(i as int), platform),
            {
                let c = join(path_dirs[i].as_str(), exe);
                let ghost before = string_views(r@);
                r.push(c);
                proof {
                    let pre = string_views(path_dirs@).take(i as int);
                    let next = string_views(path_dirs@).take(i + 1);
                    assert(next =~= pre.push(path_dirs@[i as int]@));
                    assert(ffmpeg_on_path(next, platform) =~= ffmpeg_on_path(pre, platform).push(c@));
                    assert(string_views(r@) =~= before.push(c@));
                    assert(string_views(r@) =~= head + ffmpeg_on_path(next, platform));
                }
            }
            proof {
                assert(string_views(path_dirs@).take(path_dirs@.len() as int) =~= string_views(path_dirs@));
            }
            r
        },
    }
}

/// Where the pdfium library directory is looked for when no override is
/// set, in order: the resource directory's `pdfium` folder, the `pdfium`
/// folder next to the executable, then the system library directories.
/// When the executable's own directory is unknown, the search ends after
/// the bundled folder.
pub open spec fn spec_pdfium_search(resource_dir: Option<Seq<char>>, exe_dir: Option<Seq<char>>, platform: Platform) -> Seq<
    Seq<char>,
> {
    let bundled = match resource_dir {
        Some(r) => seq![join_path(r, "pdfium"@)],
        None => Seq::empty(),
    };
    match exe_dir {
        Some(e) => bundled + seq![join_path(e, "pdfium"@)] + linux_library_dirs(platform),
        None => bundled,
    }
}

/// The system library directories of [`system_library_dirs`].
pub open spec fn linux_library_dirs(platform: Platform) -> Seq<Seq<char>> {
    if platform == Platform::Linux {
        seq!["/usr/local/lib"@, "/usr/lib/x86_64-linux-gnu"@, "/usr/lib64"@, "/usr/lib"@]
    } else {
        Seq::empty()
    }
}

/// The pdfium directory candidates in the order they are tried, as
/// [`spec_pdfium_search`]; the caller uses the first that holds the library.
pub fn pdfium_search_order(resource_dir: Option<&str>, exe_dir: Option<&str>, platform: Platform) -> (r: Vec<String>)
    ensures
        string_views(r@) == spec_pdfium_search(opt_str_view(resource_dir), opt_str_view(exe_dir), platform),
{
    let mut r: Vec<String> = Vec::new();
    if let Some(res) = resource_dir {
        r.push(join(res, "pdfium"));
    }
    proof {
        reveal_strlit("pdfium");
        assert(string_views(r@) =~= match opt_str_view(resource_dir) {
            Some(x) => seq![join_path(x, "pdfium"@)],
            None => Seq::<Seq<char>>::empty(),
        });
    }
    let ghost bundled = string_views(r@);
    match exe_dir {
        None => r,
        Some(e) => {
            r.push(join(e, "pdfium"));
            let mut sys = system_library_dirs(platform);
            let ghost mid = string_views(r@);
            let ghost sys_v = string_views(sys@);
            r.append(&mut sys);
            proof {
                assert(mid =~= bundled + seq![join_path(e@, "pdfium"@)]);
                assert(string_views(r@) =~= mid + sys_v);
                if platform != Platform::Linux {
                    assert(sys_v =~= Seq::<Seq<char>>::empty());
                }
            }
            r
        },
    }
}

/// Which menu a held combination opens: the tools binding is checked
/// first, and only an exact match (same modifiers, same extra key) counts.
pub open spec fn spec_matched_mode(held: HotkeyCombo, format: HotkeyCombo, tools: HotkeyCombo) -> Option<MenuMode> {
    if same_combo(held, tools) {
        Some(MenuMode::Tools)
    } else if same_combo(held, format) {
        Some(MenuMode::Formats)
    } else {
        None
    }
}

/// The menu the held combination `held` opens, given the two bindings.
pub fn matched_mode(held: HotkeyCombo, format: HotkeyCombo, tools: HotkeyCombo) -> (r: Option<MenuMode>)
    ensures
        r == spec_matched_mode(held, format, tools),
{
    matched_mode_ref(&held, &format, &tools)
}

/// [`matched_mode`] on borrowed combinations.
pub fn matched_mode_ref(held: &HotkeyCombo, format: &HotkeyCombo, tools: &HotkeyCombo) -> (r: Option<MenuMode>)
    ensures
        r == spec_matched_mode(*held, *format, *tools),
{
    if combos_equal(held, tools) {
        Some(MenuMode::Tools)
    } else if combos_equal(held, format) {
        Some(MenuMode::Formats)
    } else {
        None
    }
}

/// Bit `kc % 8` of byte `kc / 8` of an X11 keymap: whether key `kc` is down.
pub open spec fn key_bit(keys: Seq<u8>, kc: u8) -> bool {
    (keys[(kc / 8) as int] >> (kc % 8)) & 1u8 == 1u8
}

/// Whether `keycode` is down in the 256-bit X11 keymap `keys`.
pub fn key_pressed(keys: &[u8; 32], keycode: u8) -> (r: bool)
    ensures
        r == key_bit(keys@, keycode),
{
    let byte = keys[(keycode / 8) as usize];
    let bit = keycode % 8;
    let r = byte & (1u8 << bit) != 0;
    proof {
        assert((byte & (1u8 << bit) != 0) == ((byte >> bit) & 1u8 == 1u8)) by (bit_vector)
            requires
                bit < 8,
        ;
    }
    r
}

/// `r` names the first key of the supported table that is down in `keys`,
/// or none when no supported key is down.
pub open spec fn first_pressed_key(keys: Seq<u8>, r: Option<Seq<char>>) -> bool {
    match r {
        None => forall|i: int| 0 <= i < key_table().len() ==> !key_bit(keys, #[trigger] key_x11(key_table()[i])),
        Some(c) => exists|i: int|
            0 <= i < key_table().len() && key_bit(keys, #[trigger] key_x11(key_table()[i])) && c == key_code(
                key_table()[i],
            ) && forall|j: int| 0 <= j < i ==> !key_bit(keys, #[trigger] key_x11(key_table()[j])),
    }
}

/// The held state an X11 keymap shows: each modifier when either of its
/// two standard keycodes is down (Control 37/105, Alt 64/108, Shift
/// 50/62, Super 133/134), plus the first supported key that is down.
pub fn held_combo_from_keymap(keys: &[u8; 32]) -> (r: HotkeyCombo)
    ensures
        r.ctrl == (key_bit(keys@, 37) || key_bit(keys@, 105)),
        r.alt == (key_bit(keys@, 64) || key_bit(keys@, 108)),
        r.shift == (key_bit(keys@, 50) || key_bit(keys@, 62)),
        r.meta == (key_bit(keys@, 133) || key_bit(keys@, 134)),
        first_pressed_key(keys@, crate::settings::opt_view(r.key)),
{
    let mut combo = HotkeyCombo::new(
        key_pressed(keys, 37) || key_pressed(keys, 105),
        key_pressed(keys, 64) || key_pressed(keys, 108),
        key_pressed(keys, 50) || key_pressed(keys, 62),
        key_pressed(keys, 133) || key_pressed(keys, 134),
    );
    let table = x11_keycodes();
    for i in 0..table.len()
        invariant
            combo.ctrl == (key_bit(keys@, 37) || key_bit(keys@, 105)),
            combo.alt == (key_bit(keys@, 64) || key_bit(keys@, 108)),
            combo.shift == (key_bit(keys@, 50) || key_bit(keys@, 62)),
            combo.meta == (key_bit(keys@, 133) || key_bit(keys@, 134)),
            combo.key is None,
            table@.len() == key_table().len(),
            forall|k: int|
                0 <= k < table@.len() ==> (#[trigger] table@[k]).0@ == key_code(key_table()[k])
                    && table@[k].1 == key_x11(key_table()[k]),
            forall|j: int| 0 <= j < i ==> !key_bit(keys@, #[trigger] key_x11(key_table()[j])),
    {
        let (code, kc) = table[i];
        if key_pressed(keys, kc) {
            combo.key = Some(code.to_owned());
            proof {
                assert(key_bit(keys@, key_x11(key_table()[i as int])));
            }
            return combo;
        }
    }
    combo
}

/// A held combination opens the tools menu exactly when it agrees with
/// the tools binding in all five fields (Ctrl, Alt, Shift, Meta and the
/// additional key); otherwise the format menu exactly when it agrees with
/// the format binding in all five; otherwise nothing.
pub proof fn lemma_matched_mode_fields(held: HotkeyCombo, format: HotkeyCombo, tools: HotkeyCombo)
    ensures
        (spec_matched_mode(held, format, tools) == Some(MenuMode::Tools)) <==> (held.ctrl == tools.ctrl && held.alt
            == tools.alt && held.shift == tools.shift && held.meta == tools.meta && crate::settings::opt_view(held.key)
            == crate::settings::opt_view(tools.key)),
        (spec_matched_mode(held, format, tools) == Some(MenuMode::Formats)) <==> (!(held.ctrl == tools.ctrl
            && held.alt == tools.alt && held.shift == tools.shift && held.meta == tools.meta
            && crate::settings::opt_view(held.key) == crate::settings::opt_view(tools.key)) && held.ctrl
            == format.ctrl && held.alt == format.alt && held.shift == format.shift && held.meta == format.meta
            && crate::settings::opt_view(held.key) == crate::settings::opt_view(format.key)),
        spec_matched_mode(held, format, tools) is None || spec_matched_mode(held, format, tools) == Some(
            MenuMode::Tools,
        ) || spec_matched_mode(held, format, tools) == Some(MenuMode::Formats),
{
}

/// The FFmpeg sidecar is looked for as `ffmpeg.exe`, then
/// `ffmpeg-x86_64-pc-windows-msvc.exe` on Windows; as `ffmpeg`, then
/// `ffmpeg-x86_64-unknown-linux-gnu` on Linux; as `ffmpeg`, then
/// `ffmpeg-unknown` elsewhere.
pub proof fn lemma_ffmpeg_sidecar_names(dir: Seq<char>)
    ensures
        ffmpeg_names_in(dir, Platform::Windows) == seq![
            join_path(dir, "ffmpeg.exe"@),
            join_path(dir, "ffmpeg-x86_64-pc-windows-msvc.exe"@),
        ],
        ffmpeg_names_in(dir, Platform::Linux) == seq![
            join_path(dir, "ffmpeg"@),
            join_path(dir, "ffmpeg-x86_64-unknown-linux-gnu"@),
        ],
        ffmpeg_names_in(dir, Platform::Other) == seq![join_path(dir, "ffmpeg"@), join_path(dir, "ffmpeg-unknown"@)],
{
    reveal_strlit("ffmpeg");
    reveal_strlit("ffmpeg-");
    reveal_strlit(".exe");
    reveal_strlit("ffmpeg.exe");
    reveal_strlit("x86_64-pc-windows-msvc");
    reveal_strlit("ffmpeg-x86_64-pc-windows-msvc.exe");
    reveal_strlit("x86_64-unknown-linux-gnu");
    reveal_strlit("ffmpeg-x86_64-unknown-linux-gnu");
    reveal_strlit("unknown");
    reveal_strlit("ffmpeg-unknown");
    assert("ffmpeg"@ + exe_suffix(Platform::Windows) =~= "ffmpeg.exe"@);
    assert("ffmpeg-"@ + target_triple(Platform::Windows) + exe_suffix(Platform::Windows)
        =~= "ffmpeg-x86_64-pc-windows-msvc.exe"@);
    assert("ffmpeg"@ + exe_suffix(Platform::Linux) =~= "ffmpeg"@);
    assert("ffmpeg-"@ + target_triple(Platform::Linux) + exe_suffix(Platform::Linux) =~= "ffmpeg-x86_64-unknown-linux-gnu"@);
    assert("ffmpeg"@ + exe_suffix(Platform::Other) =~= "ffmpeg"@);
    assert("ffmpeg-"@ + target_triple(Platform::Other) + exe_suffix(Platform::Other) =~= "ffmpeg-unknown"@);
}

} // verus!