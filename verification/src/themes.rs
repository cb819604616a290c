//! Theme files: every theme, built-in or user-made, is a display name plus
//! the five color tokens, saved as one JSON file whose name is the theme's
//! id. This module holds the id rules and the built-in themes.
use crate::settings::CustomColors;
use crate::text::{ascii_lower_char, ascii_lower_of, chars_of, is_ascii_alnum, string_from_chars};
use vstd::prelude::*;

verus! {

/// One theme's saved contents; its id is the file name, not stored inside.
#[derive(Clone, Debug, PartialEq, Eq)]
pub struct ThemeFile {
    /// User-facing display name.
    pub name: String,
    /// The theme's five color tokens.
    pub colors: CustomColors,
}

/// One step of the slug scan over a character `c`: an ASCII letter or digit
/// is kept (lower-cased); any other character starts a `-` separator,
/// unless the slug is still empty or already ends in a separator.
/// The state is the slug so far and whether it ends in a separator.
pub open spec fn slug_step(st: (Seq<char>, bool), c: char) -> (Seq<char>, bool) {
    if is_ascii_alnum(c) {
        (st.0.push(ascii_lower_char(c)), false)
    } else if !st.1 && st.0.len() > 0 {
        (st.0.push('-'), true)
    } else {
        st
    }
}

/// The slug scan over all of `s`.
pub open spec fn slug_scan(s: Seq<char>) -> (Seq<char>, bool)
    decreases s.len(),
{
    if s.len() == 0 {
        (Seq::empty(), false)
    } else {
        slug_step(slug_scan(s.drop_last()), s.last())
    }
}

/// `s` without its trailing `-` characters.
pub open spec fn trim_trailing_dashes(s: Seq<char>) -> Seq<char>
    decreases s.len(),
{
    if s.len() > 0 && s.last() == '-' {
        trim_trailing_dashes(s.drop_last())
    } else {
        s
    }
}

/// The id used when a name has no letter or digit at all: `theme`.
pub open spec fn fallback_slug() -> Seq<char> {
    seq!['t', 'h', 'e', 'm', 'e']
}

/// The id [`slugify`] derives from `name`.
pub open spec fn spec_slugify(name: Seq<char>) -> Seq<char> {
    let t = trim_trailing_dashes(slug_scan(name).0);
    if t.len() == 0 {
        fallback_slug()
    } else {
        t
    }
}

/// A character an id may hold besides `-`: a lower-case ASCII letter or a digit.
pub open spec fn is_slug_char(c: char) -> bool {
    ('a' <= c && c <= 'z') || ('0' <= c && c <= '9')
}

/// `s` could be a prefix of an id: only slug characters and single `-`
/// separators, not starting with `-`.
pub open spec fn slug_prefix_shape(s: Seq<char>) -> bool {
    &&& forall|i: int| 0 <= i < s.len() ==> is_slug_char(#[trigger] s[i]) || s[i] == '-'
    &&& s.len() > 0 ==> s[0] != '-'
    &&& forall|i: int| 0 <= i < s.len() - 1 && #[trigger] s[i] == '-' ==> s[i + 1] != '-'
}

/// A well-formed theme id: non-empty, lower-case ASCII letters and digits
/// in runs separated by single `-`, with no `-` at either end.
pub open spec fn is_valid_slug(s: Seq<char>) -> bool {
    &&& s.len() > 0
    &&& slug_prefix_shape(s)
    &&& s.last() != '-'
}

/// What the scan produces always has the shape of an id prefix, and its
/// flag says whether it ends in `-`.
proof fn lemma_scan_shape(s: Seq<char>)
    ensures
        slug_prefix_shape(slug_scan(s).0),
        slug_scan(s).1 == (slug_scan(s).0.len() > 0 && slug_scan(s).0.last() == '-'),
    decreases s.len(),
{
    if s.len() > 0 {
        lemma_scan_shape(s.drop_last());
        let st = slug_scan(s.drop_last());
        let nx = slug_scan(s);
        assert forall|i: int| 0 <= i < nx.0.len() implies is_slug_char(#[trigger] nx.0[i]) || nx.0[i] == '-' by {
            if i < st.0.len() {
                assert(nx.0[i] == st.0[i]);
            }
        }
        assert forall|i: int| 0 <= i < nx.0.len() - 1 && #[trigger] nx.0[i] == '-' implies nx.0[i + 1] != '-' by {
            if i + 1 < st.0.len() {
                assert(nx.0[i] == st.0[i]);
                assert(nx.0[i + 1] == st.0[i + 1]);
            }
        }
    }
}

/// Trimming the trailing separators of an id prefix gives a prefix of it
/// that does not end in `-`; with a single trailing `-` at most, it drops
/// at most one character.
proof fn lemma_trim_shape(s: Seq<char>)
    requires
        slug_prefix_shape(s),
    ensures
        slug_prefix_shape(trim_trailing_dashes(s)),
        trim_trailing_dashes(s).len() > 0 ==> trim_trailing_dashes(s).last() != '-',
        trim_trailing_dashes(s).len() <= s.len(),
        trim_trailing_dashes(s) == s.take(trim_trailing_dashes(s).len() as int),
    decreases s.len(),
{
    if s.len() > 0 && s.last() == '-' {
        let d = s.drop_last();
        assert forall|i: int| 0 <= i < d.len() - 1 && #[trigger] d[i] == '-' implies d[i + 1] != '-' by {
            assert(d[i] == s[i]);
        }
        lemma_trim_shape(d);
        let t = trim_trailing_dashes(d);
        assert(t =~= s.take(t.len() as int));
    } else {
        assert(s.take(s.len() as int) =~= s);
    }
}

/// Scanning an id prefix gives it back unchanged.
proof fn lemma_scan_of_prefix_shape(p: Seq<char>)
    requires
        slug_prefix_shape(p),
    ensures
        slug_scan(p).0 == p,
        slug_scan(p).1 == (p.len() > 0 && p.last() == '-'),
    decreases p.len(),
{
    if p.len() > 0 {
        let d = p.drop_last();
        assert forall|i: int| 0 <= i < d.len() - 1 && #[trigger] d[i] == '-' implies d[i + 1] != '-' by {
            assert(d[i] == p[i]);
        }
        lemma_scan_of_prefix_shape(d);
        let c = p.last();
        assert(is_slug_char(c) || c == '-');
        if c == '-' {
            assert(d.len() > 0);
            assert(p[d.len() - 1] == d.last());
        }
        assert(d.push(c) =~= p);
    }
}

/// Every id [`slugify`] produces is well-formed.
pub proof fn lemma_slugify_valid(name: Seq<char>)
    ensures
        is_valid_slug(spec_slugify(name)),
{
    lemma_scan_shape(name);
    lemma_trim_shape(slug_scan(name).0);
    let f = fallback_slug();
    assert forall|i: int| 0 <= i < f.len() implies is_slug_char(#[trigger] f[i]) || f[i] == '-' by {}
}

/// A well-formed id is its own slug.
pub proof fn lemma_slugify_fixes_valid(s: Seq<char>)
    requires
        is_valid_slug(s),
    ensures
        spec_slugify(s) == s,
{
    lemma_scan_of_prefix_shape(s);
}

/// Slugifying is idempotent: an id derived from a name is its own id.
pub proof fn lemma_slugify_idempotent(name: Seq<char>)
    ensures
        spec_slugify(spec_slugify(name)) == spec_slugify(name),
{
    lemma_slugify_valid(name);
    lemma_slugify_fixes_valid(spec_slugify(name));
}

/// Whether `c` is an ASCII letter or digit.
fn is_alnum(c: char) -> (r: bool)
    ensures
        r == is_ascii_alnum(c),
{
    ('a' <= c && c <= 'z') || ('A' <= c && c <= 'Z') || ('0' <= c && c <= '9')
}

/// Turns a user-provided theme name into a filesystem- and URL-safe id:
/// lower-cased, runs of other characters collapsed to a single `-`, no `-`
/// at either end; `theme` when nothing is left. Whitespace around the name
/// needs no separate trimming: it never reaches the id.
pub fn slugify(name: &str) -> (r: String)
    ensures
        r@ == spec_slugify(name@),
{
    let cs = chars_of(name);
    let mut slug: Vec<char> = Vec::new();
    let mut last_was_dash = false;
    for i in 0..cs.len()
        invariant
            (slug@, last_was_dash) == slug_scan(cs@.take(i as int)),
    {
        proof {
            assert(cs@.take(i + 1).drop_last() =~= cs@.take(i as int));
        }
        let ch = cs[i];
        if is_alnum(ch) {
            slug.push(ascii_lower_of(ch));
            last_was_dash = false;
        } else if !last_was_dash && slug.len() > 0 {
            slug.push('-');
            last_was_dash = true;
        }
    }
    proof {
        assert(cs@.take(cs@.len() as int) =~= name@);
    }
    let ghost scanned = slug@;
    while slug.len() > 0 && slug[slug.len() - 1] == '-'
        invariant
            trim_trailing_dashes(slug@) == trim_trailing_dashes(scanned),
        decreases slug.len(),
    {
        slug.pop();
    }
    if slug.len() == 0 {
        proof {
            reveal_strlit("theme");
            assert("theme"@ =~= fallback_slug());
        }
        "theme".to_owned()
    } else {
        string_from_chars(&slug)
    }
}

/// The ids of the built-in themes, in order.
pub open spec fn builtin_theme_ids() -> Seq<Seq<char>> {
    seq!["citrus"@, "midnight-citrus"@, "yuzu"@, "blood-orange"@]
}

/// A theme file with the given name and colors.
fn theme(name: &str, primary: &str, secondary: &str, neutral: &str, surface: &str, outline: &str) -> (r: ThemeFile)
    ensures
        r.name@ == name@,
        r.colors.primary@ == primary@,
        r.colors.secondary@ == secondary@,
        r.colors.neutral@ == neutral@,
        r.colors.surface@ == surface@,
        r.colors.outline@ == outline@,
{
    ThemeFile {
        name: name.to_owned(),
        colors: CustomColors {
            primary: primary.to_owned(),
            secondary: secondary.to_owned(),
            neutral: neutral.to_owned(),
            surface: surface.to_owned(),
            outline: outline.to_owned(),
        },
    }
}

/// The four themes the themes directory is seeded with on first run, as
/// `(id, theme)` pairs.
pub fn builtin_themes() -> (r: Vec<(String, ThemeFile)>)
    ensures
        r@.len() == 4,
        forall|i: int| 0 <= i < 4 ==> #[trigger] r@[i].0@ == builtin_theme_ids()[i],
        r@[0].1.name@ == "Citrus"@,
        r@[0].1.colors.primary@ == "#ff7a29"@,
        r@[0].1.colors.secondary@ == "#2b2620"@,
        r@[0].1.colors.neutral@ == "#f6f3ee"@,
        r@[0].1.colors.surface@ == "#ffffff"@,
        r@[0].1.colors.outline@ == "#eae4d9"@,
        r@[1].1.name@ == "Midnight Citrus"@,
        r@[1].1.colors.primary@ == "#ff9452"@,
        r@[1].1.colors.secondary@ == "#f5efe6"@,
        r@[1].1.colors.neutral@ == "#1b1815"@,
        r@[1].1.colors.surface@ == "#262220"@,
        r@[1].1.colors.outline@ == "#3a342e"@,
        r@[2].1.name@ == "Yuzu"@,
        r@[2].1.colors.primary@ == "#d4a017"@,
        r@[2].1.colors.secondary@ == "#26241c"@,
        r@[2].1.colors.neutral@ == "#f7f5ec"@,
        r@[2].1.colors.surface@ == "#ffffff"@,
        r@[2].1.colors.outline@ == "#e8e2d0"@,
        r@[3].1.name@ == "Blood Orange"@,
        r@[3].1.colors.primary@ == "#c4432a"@,
        r@[3].1.colors.secondary@ == "#241914"@,
        r@[3].1.colors.neutral@ == "#f5eeea"@,
        r@[3].1.colors.surface@ == "#ffffff"@,
        r@[3].1.colors.outline@ == "#e6d9d2"@,
{
    let mut r: Vec<(String, ThemeFile)> = Vec::new();
    r.push(("citrus".to_owned(), theme("Citrus", "#ff7a29", "#2b2620", "#f6f3ee", "#ffffff", "#eae4d9")));
    r.push((
        "midnight-citrus".to_owned(),
        theme("Midnight Citrus", "#ff9452", "#f5efe6", "#1b1815", "#262220", "#3a342e"),
    ));
    r.push(("yuzu".to_owned(), theme("Yuzu", "#d4a017", "#26241c", "#f7f5ec", "#ffffff", "#e8e2d0")));
    r.push((
        "blood-orange".to_owned(),
        theme("Blood Orange", "#c4432a", "#241914", "#f5eeea", "#ffffff", "#e6d9d2"),
    ));
    r
}

/// The built-in theme ids are pairwise distinct and each is already a
/// well-formed id, so slugifying one gives it back.
pub proof fn lemma_builtin_ids_unique_and_valid()
    ensures
        forall|i: int, j: int| 0 <= i < j < 4 ==> builtin_theme_ids()[i] != builtin_theme_ids()[j],
        forall|i: int| 0 <= i < 4 ==> #[trigger] is_valid_slug(builtin_theme_ids()[i]),
        forall|i: int| 0 <= i < 4 ==> #[trigger] spec_slugify(builtin_theme_ids()[i]) == builtin_theme_ids()[i],
{
    reveal_strlit("citrus");
    reveal_strlit("midnight-citrus");
    reveal_strlit("yuzu");
    reveal_strlit("blood-orange");
    let ids = builtin_theme_ids();
    assert(ids[0].len() == 6 && ids[1].len() == 15 && ids[2].len() == 4 && ids[3].len() == 12);
    assert(ids[0][0] != ids[2][0] && ids[0][0] != ids[3][0] && ids[1][0] != ids[2][0]);
    assert forall|i: int| 0 <= i < 4 implies #[trigger] is_valid_slug(builtin_theme_ids()[i]) by {
        let s = ids[i];
        assert forall|k: int| 0 <= k < s.len() - 1 && #[trigger] s[k] == '-' implies s[k + 1] != '-' by {}
        assert forall|k: int| 0 <= k < s.len() implies is_slug_char(#[trigger] s[k]) || s[k] == '-' by {}
    }
    assert forall|i: int| 0 <= i < 4 implies #[trigger] spec_slugify(builtin_theme_ids()[i]) == builtin_theme_ids()[i] by {
        lemma_slugify_fixes_valid(ids[i]);
    }
}

} // verus!
