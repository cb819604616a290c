//! Collision-safe output naming, shared by every conversion family:
//! `cat.jpg` -> `cat.png`, then `cat 2.png`, `cat 3.png`, ... never
//! overwriting an existing file.
//!
//! The names already present in the destination directory are handed in
//! by the caller, which lists the directory.
use crate::convert::string_views;
use crate::file_type::{file_name_part, last_sep_index};
use crate::text::{
    chars_eq, chars_of, decimal, decimal_chars, find_last, last_index_of, lemma_decimal_injective,
    lemma_last_index_of, push_all, push_str, string_from_chars, sub_chars,
};
use vstd::prelude::*;

verus! {

/// Splits a file name into its stem and extension the way a path's
/// `file_stem`/`extension` do: at the last `.`, except that a name whose
/// only dot is its first character, a name without a dot, and `..` have no
/// extension.
pub open spec fn split_name(name: Seq<char>) -> (Seq<char>, Option<Seq<char>>) {
    let d = last_index_of(name, '.');
    if name == seq!['.', '.'] || d <= 0 {
        (name, None)
    } else {
        (name.take(d), Some(name.skip(d + 1)))
    }
}

/// The `n`-th numbered variant of `name`: `"<stem> <n>.<ext>"`, or
/// `"<stem> <n>"` when the name has no extension.
pub open spec fn numbered_name(name: Seq<char>, n: nat) -> Seq<char> {
    let (stem, ext) = split_name(name);
    match ext {
        Some(x) => stem + seq![' '] + decimal(n) + seq!['.'] + x,
        None => stem + seq![' '] + decimal(n),
    }
}

/// `r` is the name chosen for `name` among the `existing` names: `name`
/// itself when it is free, otherwise its numbered variant with the smallest
/// number from 2 up that is free.
pub open spec fn is_first_free(existing: Seq<Seq<char>>, name: Seq<char>, r: Seq<char>) -> bool {
    ||| !existing.contains(name) && r == name
    ||| existing.contains(name) && exists|n: nat|
        n >= 2 && r == #[trigger] numbered_name(name, n) && !existing.contains(r) && forall|k: nat|
            2 <= k < n ==> existing.contains(#[trigger] numbered_name(name, k))
}

/// Distinct numbers give distinct numbered names.
proof fn lemma_numbered_injective(name: Seq<char>, a: nat, b: nat)
    requires
        numbered_name(name, a) == numbered_name(name, b),
    ensures
        a == b,
{
    let (stem, ext) = split_name(name);
    let p = stem + seq![' '];
    let da = decimal(a);
    let db = decimal(b);
    let sa = numbered_name(name, a);
    let sb = numbered_name(name, b);
    match ext {
        Some(x) => {
            let q = seq!['.'] + x;
            assert(sa =~= p + (da + q));
            assert(sb =~= p + (db + q));
            assert(da.len() == db.len());
            assert(da =~= sa.subrange(p.len() as int, (p.len() + da.len()) as int));
            assert(db =~= sb.subrange(p.len() as int, (p.len() + db.len()) as int));
        },
        None => {
            assert(da =~= sa.skip(p.len() as int));
            assert(db =~= sb.skip(p.len() as int));
        },
    }
    lemma_decimal_injective(a, b);
}

/// A sequence holding `vals.len()` pairwise-distinct values is at least
/// that long.
pub proof fn lemma_pigeonhole(s: Seq<Seq<char>>, vals: Seq<Seq<char>>)
    requires
        forall|i: int, j: int| 0 <= i < j < vals.len() ==> vals[i] != vals[j],
        forall|i: int| 0 <= i < vals.len() ==> s.contains(#[trigger] vals[i]),
    ensures
        vals.len() <= s.len(),
    decreases vals.len(),
{
    if vals.len() > 0 {
        let v = vals.last();
        assert(s.contains(vals[vals.len() - 1]));
        let idx = choose|i: int| 0 <= i < s.len() && s[i] == v;
        let s2 = s.remove(idx);
        let rest = vals.drop_last();
        assert forall|i: int| 0 <= i < rest.len() implies s2.contains(#[trigger] rest[i]) by {
            assert(rest[i] == vals[i]);
            assert(s.contains(vals[i]));
            let j = choose|j: int| 0 <= j < s.len() && s[j] == vals[i];
            assert(vals[i] != vals[vals.len() - 1]);
            if j < idx {
                assert(s2[j] == s[j]);
            } else {
                assert(s2[j - 1] == s[j]);
            }
        }
        lemma_pigeonhole(s2, rest);
    }
}

/// Whether some entry of `existing` spells `name`.
pub(crate) fn contains_name(existing: &[String], name: &Vec<char>) -> (r: bool)
    ensures
        r == string_views(existing@).contains(name@),
{
    for i in 0..existing.len()
        invariant
            forall|j: int| 0 <= j < i ==> string_views(existing@)[j] != name@,
    {
        let e = chars_of(existing[i].as_str());
        if chars_eq(&e, name) {
            proof {
                assert(string_views(existing@)[i as int] == name@);
            }
            return true;
        }
    }
    false
}

/// The stem and extension of a file name, as [`split_name`] says.
fn split_name_chars(name: &Vec<char>) -> (r: (Vec<char>, Option<Vec<char>>))
    ensures
        r.0@ == split_name(name@).0,
        match r.1 {
            None => split_name(name@).1 is None,
            Some(x) => split_name(name@).1 == Some(x@),
        },
{
    let dotdot = name.len() == 2 && name[0] == '.' && name[1] == '.';
    proof {
        if name@ == seq!['.', '.'] {
            assert(name@[0] == '.' && name@[1] == '.');
        }
        if dotdot {
            assert(name@ =~= seq!['.', '.']);
        }
        lemma_last_index_of(name@, '.');
    }
    match find_last(name, '.') {
        Some(d) => {
            if dotdot || d == 0 {
                (name.clone(), None)
            } else {
                (sub_chars(name, 0, d), Some(sub_chars(name, d + 1, name.len())))
            }
        },
        None => (name.clone(), None),
    }
}

/// The `n`-th numbered variant of `name`.
fn numbered_name_chars(name: &Vec<char>, n: u64) -> (r: Vec<char>)
    ensures
        r@ == numbered_name(name@, n as nat),
{
    let (stem, ext) = split_name_chars(name);
    let mut r = stem;
    r.push(' ');
    let digits = decimal_chars(n);
    push_all(&mut r, &digits);
    match ext {
        Some(x) => {
            r.push('.');
            push_all(&mut r, &x);
        },
        None => {},
    }
    r
}

/// Picks the name to write for `name` among the `existing` names of the
/// destination directory: `name` itself when nothing is there yet,
/// otherwise the first free `"<stem> 2.<ext>"`, `"<stem> 3.<ext>"`, ...
pub fn unique_name(existing: &[String], name: &Vec<char>) -> (r: Vec<char>)
    requires
        existing@.len() + 2 <= usize::MAX,
    ensures
        is_first_free(string_views(existing@), name@, r@),
{
    let ghost ex = string_views(existing@);
    if !contains_name(existing, name) {
        return name.clone();
    }
    let len = existing.len();
    let mut n: usize = 2;
    loop
        invariant
            ex == string_views(existing@),
            ex.contains(name@),
            len == existing@.len(),
            len + 2 <= usize::MAX,
            2 <= n <= len + 2,
            forall|k: nat| 2 <= k < n ==> ex.contains(#[trigger] numbered_name(name@, k)),
        decreases len + 2 - n,
    {
        let cand = numbered_name_chars(name, n as u64);
        if !contains_name(existing, &cand) {
            proof {
                assert(numbered_name(name@, n as nat) == cand@);
            }
            return cand;
        }
        if n == len + 2 {
            proof {
                let vals = Seq::new((len + 1) as nat, |k: int| numbered_name(name@, (k + 2) as nat));
                assert forall|i: int, j: int| 0 <= i < j < vals.len() implies vals[i] != vals[j] by {
                    if vals[i] == vals[j] {
                        lemma_numbered_injective(name@, (i + 2) as nat, (j + 2) as nat);
                    }
                }
                assert forall|i: int| 0 <= i < vals.len() implies ex.contains(#[trigger] vals[i]) by {
                    assert(vals[i] == numbered_name(name@, (i + 2) as nat));
                    if i + 2 < n {
                    } else {
                        assert(numbered_name(name@, (i + 2) as nat) == cand@);
                    }
                }
                lemma_pigeonhole(ex, vals);
                assert(ex.len() == len);
            }
            return cand;
        }
        n = n + 1;
    }
}

/// The `n`-th numbered variant of a name kept as `base` then `suffix`:
/// `"<base> <n><suffix>"`.
pub open spec fn numbered_split(base: Seq<char>, suffix: Seq<char>, n: nat) -> Seq<char> {
    base + seq![' '] + decimal(n) + suffix
}

/// `r` is the name chosen for `base` + `suffix` among the `existing` names:
/// that name itself when it is free, otherwise the numbered variant
/// `"<base> <n><suffix>"` with the smallest `n` from 2 up that is free.
pub open spec fn is_first_free_split(existing: Seq<Seq<char>>, base: Seq<char>, suffix: Seq<char>, r: Seq<char>) -> bool {
    ||| !existing.contains(base + suffix) && r == base + suffix
    ||| existing.contains(base + suffix) && exists|n: nat|
        n >= 2 && r == #[trigger] numbered_split(base, suffix, n) && !existing.contains(r) && forall|k: nat|
            2 <= k < n ==> existing.contains(#[trigger] numbered_split(base, suffix, k))
}

/// `r` is the path written in the directory of `prefix` for the name kept
/// as `base` then `suffix`, given the names already there.
pub open spec fn placed_split(
    existing: Seq<Seq<char>>,
    prefix: Seq<char>,
    base: Seq<char>,
    suffix: Seq<char>,
    r: Seq<char>,
) -> bool {
    prefix.len() <= r.len() && r.take(prefix.len() as int) == prefix && is_first_free_split(
        existing,
        base,
        suffix,
        r.skip(prefix.len() as int),
    )
}

proof fn lemma_numbered_split_injective(base: Seq<char>, suffix: Seq<char>, a: nat, b: nat)
    requires
        numbered_split(base, suffix, a) == numbered_split(base, suffix, b),
    ensures
        a == b,
{
    let p = base + seq![' '];
    let da = decimal(a);
    let db = decimal(b);
    let sa = numbered_split(base, suffix, a);
    let sb = numbered_split(base, suffix, b);
    assert(sa =~= p + (da + suffix));
    assert(sb =~= p + (db + suffix));
    assert(da.len() == db.len());
    assert(da =~= sa.subrange(p.len() as int, (p.len() + da.len()) as int));
    assert(db =~= sb.subrange(p.len() as int, (p.len() + db.len()) as int));
    lemma_decimal_injective(a, b);
}

/// The `n`-th numbered variant of `base` + `suffix`.
fn numbered_split_chars(base: &Vec<char>, suffix: &Vec<char>, n: u64) -> (r: Vec<char>)
    ensures
        r@ == numbered_split(base@, suffix@, n as nat),
{
    let mut r = base.clone();
    r.push(' ');
    let digits = decimal_chars(n);
    push_all(&mut r, &digits);
    push_all(&mut r, suffix);
    r
}

/// Picks the name to write for `base` + `suffix` among the `existing`
/// names: that name when it is free, otherwise the first free
/// `"<base> 2<suffix>"`, `"<base> 3<suffix>"`, ...
pub fn unique_name_split(existing: &[String], base: &Vec<char>, suffix: &Vec<char>) -> (r: Vec<char>)
    requires
        existing@.len() + 2 <= usize::MAX,
    ensures
        is_first_free_split(string_views(existing@), base@, suffix@, r@),
{
    let ghost ex = string_views(existing@);
    let mut whole = base.clone();
    push_all(&mut whole, suffix);
    if !contains_name(existing, &whole) {
        return whole;
    }
    let len = existing.len();
    let mut n: usize = 2;
    loop
        invariant
            ex == string_views(existing@),
            ex.contains(base@ + suffix@),
            len == existing@.len(),
            len + 2 <= usize::MAX,
            2 <= n <= len + 2,
            forall|k: nat| 2 <= k < n ==> ex.contains(#[trigger] numbered_split(base@, suffix@, k)),
        decreases len + 2 - n,
    {
        let cand = numbered_split_chars(base, suffix, n as u64);
        if !contains_name(existing, &cand) {
            return cand;
        }
        if n == len + 2 {
            proof {
                let vals = Seq::new((len + 1) as nat, |k: int| numbered_split(base@, suffix@, (k + 2) as nat));
                assert forall|i: int, j: int| 0 <= i < j < vals.len() implies vals[i] != vals[j] by {
                    if vals[i] == vals[j] {
                        lemma_numbered_split_injective(base@, suffix@, (i + 2) as nat, (j + 2) as nat);
                    }
                }
                assert forall|i: int| 0 <= i < vals.len() implies ex.contains(#[trigger] vals[i]) by {
                    assert(vals[i] == numbered_split(base@, suffix@, (i + 2) as nat));
                    if i + 2 < n {
                    } else {
                        assert(numbered_split(base@, suffix@, (i + 2) as nat) == cand@);
                    }
                }
                lemma_pigeonhole(ex, vals);
                assert(ex.len() == len);
            }
            return cand;
        }
        n = n + 1;
    }
}

/// `prefix` followed by the name chosen for `base` + `suffix` among `existing`.
pub fn place_split(prefix: Vec<char>, base: &Vec<char>, suffix: &Vec<char>, existing: &[String]) -> (r: String)
    requires
        existing@.len() + 2 <= usize::MAX,
    ensures
        placed_split(string_views(existing@), prefix@, base@, suffix@, r@),
{
    let chosen = unique_name_split(existing, base, suffix);
    let mut out = prefix;
    let ghost pre = out@;
    push_all(&mut out, &chosen);
    proof {
        assert(out@.take(pre.len() as int) =~= pre);
        assert(out@.skip(pre.len() as int) =~= chosen@);
    }
    string_from_chars(&out)
}

/// Everything of `p` up to and including its last separator: the
/// directory part, ready to have a file name appended.
pub open spec fn parent_prefix(p: Seq<char>) -> Seq<char> {
    p.take(last_sep_index(p) + 1)
}

/// The stem of the file a path names, or `None` when the path has no file
/// name (it is empty, ends in a separator, or ends in `..`).
pub open spec fn file_stem(p: Seq<char>) -> Option<Seq<char>> {
    let f = file_name_part(p);
    if f.len() == 0 || f == seq!['.', '.'] {
        None
    } else {
        Some(split_name(f).0)
    }
}

/// The stem used to name outputs of `p`: its file stem, or `output`.
pub open spec fn source_stem(p: Seq<char>) -> Seq<char> {
    match file_stem(p) {
        Some(s) => s,
        None => seq!['o', 'u', 't', 'p', 'u', 't'],
    }
}

/// `r` is the path written for the file name `name` in the directory of
/// `prefix`, given the names already there.
pub open spec fn placed_at(existing: Seq<Seq<char>>, prefix: Seq<char>, name: Seq<char>, r: Seq<char>) -> bool {
    prefix.len() <= r.len() && r.take(prefix.len() as int) == prefix && is_first_free(
        existing,
        name,
        r.skip(prefix.len() as int),
    )
}

/// The directory part of a path (as [`parent_prefix`]) and its file stem
/// (as [`file_stem`]).
fn prefix_and_file_stem(p: &Vec<char>) -> (r: (Vec<char>, Option<Vec<char>>))
    ensures
        r.0@ == parent_prefix(p@),
        match r.1 {
            None => file_stem(p@) is None,
            Some(s) => file_stem(p@) == Some(s@),
        },
{
    let mut k = p.len();
    proof {
        assert(p@.take(k as int) =~= p@);
    }
    while k > 0 && p[k - 1] != '/' && p[k - 1] != '\\'
        invariant
            k <= p@.len(),
            last_sep_index(p@.take(k as int)) == last_sep_index(p@),
        decreases k,
    {
        proof {
            assert(p@.take(k as int).drop_last() =~= p@.take(k - 1));
        }
        k = k - 1;
    }
    proof {
        if k > 0 {
            assert(p@.take(k as int).last() == p@[k - 1]);
        } else {
            assert(p@.take(0) =~= Seq::<char>::empty());
        }
        assert(last_sep_index(p@) == k - 1);
    }
    let prefix = sub_chars(p, 0, k);
    let f = sub_chars(p, k, p.len());
    proof {
        assert(prefix@ =~= parent_prefix(p@));
        assert(f@ =~= file_name_part(p@));
        if f@ == seq!['.', '.'] {
            assert(f@[0] == '.' && f@[1] == '.');
        }
    }
    if f.len() == 0 || (f.len() == 2 && f[0] == '.' && f[1] == '.') {
        proof {
            if f.len() == 2 {
                assert(f@ =~= seq!['.', '.']);
            }
        }
        (prefix, None)
    } else {
        let (stem, _) = split_name_chars(&f);
        (prefix, Some(stem))
    }
}

/// The directory part of a path and the stem its outputs are named by.
fn prefix_and_stem(p: &Vec<char>) -> (r: (Vec<char>, Vec<char>))
    ensures
        r.0@ == parent_prefix(p@),
        r.1@ == source_stem(p@),
{
    let (prefix, stem) = prefix_and_file_stem(p);
    match stem {
        Some(s) => (prefix, s),
        None => {
            proof {
                reveal_strlit("output");
                assert("output"@ =~= seq!['o', 'u', 't', 'p', 'u', 't']);
            }
            (prefix, chars_of("output"))
        },
    }
}

/// The stem of the file `path` names, if it names one.
pub fn file_stem_of(path: &str) -> (r: Option<String>)
    ensures
        match r {
            None => file_stem(path@) is None,
            Some(s) => file_stem(path@) == Some(s@),
        },
{
    let p = chars_of(path);
    let (_, stem) = prefix_and_file_stem(&p);
    match stem {
        Some(s) => Some(string_from_chars(&s)),
        None => None,
    }
}

/// The directory part of `path`, up to and including its last separator.
pub fn parent_prefix_of(path: &str) -> (r: String)
    ensures
        r@ == parent_prefix(path@),
{
    let p = chars_of(path);
    let (prefix, _) = prefix_and_file_stem(&p);
    string_from_chars(&prefix)
}

/// `prefix` followed by the name chosen for `name` among `existing`.
fn place(prefix: Vec<char>, name: &Vec<char>, existing: &[String]) -> (r: String)
    requires
        existing@.len() + 2 <= usize::MAX,
    ensures
        placed_at(string_views(existing@), prefix@, name@, r@),
{
    let chosen = unique_name(existing, name);
    let mut out = prefix;
    let ghost pre = out@;
    push_all(&mut out, &chosen);
    proof {
        assert(out@.take(pre.len() as int) =~= pre);
        assert(out@.skip(pre.len() as int) =~= chosen@);
    }
    string_from_chars(&out)
}

/// The collision-safe destination for converting `source` to
/// `target_extension`: same directory and stem, the new extension, and a
/// numeric suffix when that name is taken. `existing` lists the names
/// already in the source's directory.
pub fn output_path(source: &str, target_extension: &str, existing: &[String]) -> (r: String)
    requires
        existing@.len() + 2 <= usize::MAX,
    ensures
        placed_at(
            string_views(existing@),
            parent_prefix(source@),
            source_stem(source@) + seq!['.'] + target_extension@,
            r@,
        ),
{
    let p = chars_of(source);
    let (prefix, stem) = prefix_and_stem(&p);
    let ghost s0 = stem@;
    let mut name = stem;
    name.push('.');
    push_str(&mut name, target_extension);
    proof {
        assert(name@ =~= s0 + seq!['.'] + target_extension@);
    }
    place(prefix, &name, existing)
}

/// The collision-safe destination `"<stem>.<ext>"` in the directory
/// `dir_prefix` (a directory path ending in its separator, or empty), with
/// the stem given by the caller rather than taken from a source file.
pub fn unique_output_path(dir_prefix: &str, stem: &str, target_extension: &str, existing: &[String]) -> (r: String)
    requires
        existing@.len() + 2 <= usize::MAX,
    ensures
        placed_at(string_views(existing@), dir_prefix@, stem@ + seq!['.'] + target_extension@, r@),
{
    let prefix = chars_of(dir_prefix);
    let mut name = chars_of(stem);
    name.push('.');
    push_str(&mut name, target_extension);
    proof {
        assert(name@ =~= stem@ + seq!['.'] + target_extension@);
    }
    place(prefix, &name, existing)
}

/// The collision-safe destination next to `source` named by its stem and
/// the whole `suffix` (such as `.tar.gz`): `"<stem><suffix>"`, then
/// `"<stem> 2<suffix>"` and so on, the suffix always kept whole.
pub fn output_path_with_suffix(source: &str, suffix: &str, existing: &[String]) -> (r: String)
    requires
        existing@.len() + 2 <= usize::MAX,
    ensures
        placed_split(string_views(existing@), parent_prefix(source@), source_stem(source@), suffix@, r@),
{
    let p = chars_of(source);
    let (prefix, stem) = prefix_and_stem(&p);
    let sfx = chars_of(suffix);
    place_split(prefix, &stem, &sfx, existing)
}

/// A collision-safe sibling directory next to `source`, named
/// `"<stem> <label>"`, then `"<stem> <label> 2"` and so on.
pub fn output_dir_path(source: &str, label: &str, existing: &[String]) -> (r: String)
    requires
        existing@.len() + 2 <= usize::MAX,
    ensures
        placed_split(
            string_views(existing@),
            parent_prefix(source@),
            source_stem(source@) + seq![' '] + label@,
            Seq::empty(),
            r@,
        ),
{
    let p = chars_of(source);
    let (prefix, stem) = prefix_and_stem(&p);
    let ghost s0 = stem@;
    let mut name = stem;
    name.push(' ');
    push_str(&mut name, label);
    proof {
        assert(name@ =~= s0 + seq![' '] + label@);
    }
    let none: Vec<char> = Vec::new();
    proof {
        assert(none@ =~= Seq::<char>::empty());
    }
    place_split(prefix, &name, &none, existing)
}

/// The extension of the file a path names, as a path's `extension` gives
/// it: after the last dot of the file name (possibly empty), none when the
/// name has no dot past its first character, or when there is no file name.
pub open spec fn path_extension(p: Seq<char>) -> Option<Seq<char>> {
    let f = file_name_part(p);
    if f.len() == 0 || f == seq!['.', '.'] {
        None
    } else {
        split_name(f).1
    }
}

/// The extension of the file `path` names, if any.
pub fn path_extension_of(path: &str) -> (r: Option<String>)
    ensures
        match r {
            None => path_extension(path@) is None,
            Some(x) => path_extension(path@) == Some(x@),
        },
{
    let p = chars_of(path);
    let mut k = p.len();
    proof {
        assert(p@.take(k as int) =~= p@);
    }
    while k > 0 && p[k - 1] != '/' && p[k - 1] != '\\'
        invariant
            k <= p@.len(),
            last_sep_index(p@.take(k as int)) == last_sep_index(p@),
        decreases k,
    {
        proof {
            assert(p@.take(k as int).drop_last() =~= p@.take(k - 1));
        }
        k = k - 1;
    }
    proof {
        if k > 0 {
            assert(p@.take(k as int).last() == p@[k - 1]);
        } else {
            assert(p@.take(0) =~= Seq::<char>::empty());
        }
    }
    let f = sub_chars(&p, k, p.len());
    proof {
        assert(f@ =~= file_name_part(p@));
        if f@ == seq!['.', '.'] {
            assert(f@[0] == '.' && f@[1] == '.');
        }
    }
    if f.len() == 0 || (f.len() == 2 && f[0] == '.' && f[1] == '.') {
        proof {
            if f.len() == 2 {
                assert(f@ =~= seq!['.', '.']);
            }
        }
        return None;
    }
    let (_, ext) = split_name_chars(&f);
    match ext {
        None => None,
        Some(x) => Some(string_from_chars(&x)),
    }
}

} // verus!
