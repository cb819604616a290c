//! Character-level helpers shared by the path, extension and slug logic.
//!
//! Strings are handled as `Vec<char>` in executable code and as `Seq<char>`
//! in specifications; a `String`'s view is its sequence of characters.
use vstd::prelude::*;

verus! {

/// An ASCII character (code point below 128).
pub open spec fn is_ascii_char(c: char) -> bool {
    (c as u32) < 128
}

/// Every character of `s` is ASCII.
pub open spec fn all_ascii(s: Seq<char>) -> bool {
    forall|i: int| 0 <= i < s.len() ==> is_ascii_char(#[trigger] s[i])
}

/// `c` with `A..=Z` mapped to `a..=z`; every other character unchanged.
pub open spec fn ascii_lower_char(c: char) -> char {
    if 'A' <= c && c <= 'Z' {
        ((c as u32) + 32) as char
    } else {
        c
    }
}

/// `s` with every ASCII upper-case letter mapped to lower case.
pub open spec fn ascii_lower(s: Seq<char>) -> Seq<char> {
    s.map_values(|c: char| ascii_lower_char(c))
}

/// `c` is an ASCII letter or digit.
pub open spec fn is_ascii_alnum(c: char) -> bool {
    ('a' <= c && c <= 'z') || ('A' <= c && c <= 'Z') || ('0' <= c && c <= '9')
}

/// What `str::to_lowercase` (full Unicode lower-casing) returns for `s`.
pub uninterp spec fn unicode_lowercase(s: Seq<char>) -> Seq<char>;

/// Lower-cases `s` with `str::to_lowercase`: the result is the name above
/// applied to `s`; on an all-ASCII string it maps exactly `A..=Z` to `a..=z`
/// (the Unicode lower-case mapping of an ASCII letter is its ASCII
/// counterpart, and ASCII non-letters have no lower-case mapping).
#[verifier::external_body]
pub(crate) fn to_lowercase(s: &str) -> (r: String)
    ensures
        r@ == unicode_lowercase(s@),
        all_ascii(s@) ==> r@ == ascii_lower(s@),
{
    s.to_lowercase()
}

/// `s` lower-cased: the value the contracts of this library call
/// [`unicode_lowercase`] of `s`, for callers that need to know it.
pub fn lowercase(s: &str) -> (r: String)
    ensures
        r@ == unicode_lowercase(s@),
        all_ascii(s@) ==> r@ == ascii_lower(s@),
{
    to_lowercase(s)
}

/// Maps one character to lower case the way `char::to_ascii_lowercase` does.
pub fn ascii_lower_of(c: char) -> (r: char)
    ensures
        r == ascii_lower_char(c),
{
    if 'A' <= c && c <= 'Z' {
        let b: u8 = c as u8;
        let l: u8 = b + 32;
        l as char
    } else {
        c
    }
}

/// `v` with ASCII upper-case letters lower-cased (`str::to_ascii_lowercase`).
pub fn ascii_lowercase(v: &Vec<char>) -> (r: Vec<char>)
    ensures
        r@ == ascii_lower(v@),
{
    let mut r: Vec<char> = Vec::new();
    for i in 0..v.len()
        invariant
            r@ == ascii_lower(v@.take(i as int)),
    {
        proof {
            assert(v@.take(i + 1) =~= v@.take(i as int).push(v@[i as int]));
        }
        r.push(ascii_lower_of(v[i]));
        proof {
            assert(r@ =~= ascii_lower(v@.take(i + 1)));
        }
    }
    proof {
        assert(v@.take(v@.len() as int) =~= v@);
    }
    r
}

/// ASCII lower-casing is idempotent.
pub proof fn lemma_ascii_lower_idempotent(s: Seq<char>)
    ensures
        ascii_lower(ascii_lower(s)) == ascii_lower(s),
{
    assert(ascii_lower(ascii_lower(s)) =~= ascii_lower(s));
}

/// The characters of `s`, in order.
pub fn chars_of(s: &str) -> (v: Vec<char>)
    ensures
        v@ == s@,
{
    let mut v: Vec<char> = Vec::new();
    for c in it: s.chars()
        invariant
            v@ == it.seq().take(it.index() as int),
            it.seq() == s@,
    {
        v.push(c);
    }
    v
}

/// Builds a `String` holding exactly the characters of `v`
/// (`String::from_iter` over the characters).
#[verifier::external_body]
pub(crate) fn string_from_chars(v: &Vec<char>) -> (s: String)
    ensures
        s@ == v@,
{
    String::from_iter(v)
}

/// Whether two character sequences are equal.
pub fn chars_eq(a: &Vec<char>, b: &Vec<char>) -> (r: bool)
    ensures
        r == (a@ == b@),
{
    if a.len() != b.len() {
        return false;
    }
    for i in 0..a.len()
        invariant
            a@.len() == b@.len(),
            forall|j: int| 0 <= j < i ==> a@[j] == b@[j],
    {
        if a[i] != b[i] {
            return false;
        }
    }
    proof {
        assert(a@ =~= b@);
    }
    true
}

/// Whether `s` holds exactly the characters of `lit`.
pub fn str_is(s: &str, lit: &str) -> (r: bool)
    ensures
        r == (s@ == lit@),
{
    let a = chars_of(s);
    let b = chars_of(lit);
    chars_eq(&a, &b)
}

/// `v[from..to]`.
pub fn sub_chars(v: &Vec<char>, from: usize, to: usize) -> (r: Vec<char>)
    requires
        from <= to <= v@.len(),
    ensures
        r@ == v@.subrange(from as int, to as int),
{
    let mut r: Vec<char> = Vec::new();
    let mut i = from;
    while i < to
        invariant
            from <= i <= to <= v@.len(),
            r@ == v@.subrange(from as int, i as int),
        decreases to - i,
    {
        r.push(v[i]);
        i = i + 1;
        proof {
            assert(r@ =~= v@.subrange(from as int, i as int));
        }
    }
    r
}

/// Appends every character of `b` to `a`.
pub fn push_all(a: &mut Vec<char>, b: &Vec<char>)
    ensures
        final(a)@ == old(a)@ + b@,
{
    for i in 0..b.len()
        invariant
            a@ == old(a)@ + b@.take(i as int),
    {
        a.push(b[i]);
        proof {
            assert(a@ =~= old(a)@ + b@.take(i + 1));
        }
    }
    proof {
        assert(b@.take(b@.len() as int) =~= b@);
    }
}

/// Appends every character of `s` to `a`.
pub fn push_str(a: &mut Vec<char>, s: &str)
    ensures
        final(a)@ == old(a)@ + s@,
{
    let b = chars_of(s);
    push_all(a, &b);
}

/// Index of the last occurrence of `c` in `s`, or -1 when there is none.
pub open spec fn last_index_of(s: Seq<char>, c: char) -> int
    decreases s.len(),
{
    if s.len() == 0 {
        -1
    } else if s.last() == c {
        s.len() - 1
    } else {
        last_index_of(s.drop_last(), c)
    }
}

/// What `last_index_of` means: the largest index holding `c`.
pub proof fn lemma_last_index_of(s: Seq<char>, c: char)
    ensures
        -1 <= last_index_of(s, c) < s.len(),
        last_index_of(s, c) >= 0 ==> s[last_index_of(s, c)] == c,
        forall|j: int| last_index_of(s, c) < j < s.len() ==> s[j] != c,
    decreases s.len(),
{
    if s.len() > 0 && s.last() != c {
        lemma_last_index_of(s.drop_last(), c);
        assert forall|j: int| last_index_of(s, c) < j < s.len() implies s[j] != c by {
            if j < s.len() - 1 {
                assert(s[j] == s.drop_last()[j]);
            }
        }
    }
}

/// Finds the last occurrence of `c` in `v`.
pub fn find_last(v: &Vec<char>, c: char) -> (r: Option<usize>)
    ensures
        match r {
            None => last_index_of(v@, c) == -1,
            Some(i) => last_index_of(v@, c) == i,
        },
{
    let mut i = v.len();
    proof {
        assert(v@.take(i as int) =~= v@);
    }
    while i > 0
        invariant
            i <= v@.len(),
            last_index_of(v@.take(i as int), c) == last_index_of(v@, c),
        decreases i,
    {
        proof {
            assert(v@.take(i as int).drop_last() =~= v@.take(i - 1));
        }
        if v[i - 1] == c {
            return Some(i - 1);
        }
        i = i - 1;
    }
    None
}

/// Whether `s` starts with `p`.
pub open spec fn starts_with(s: Seq<char>, p: Seq<char>) -> bool {
    p.len() <= s.len() && s.take(p.len() as int) == p
}

/// Whether `v` starts with the characters of `p`.
pub fn has_prefix(v: &Vec<char>, p: &Vec<char>) -> (r: bool)
    ensures
        r == starts_with(v@, p@),
{
    if p.len() > v.len() {
        return false;
    }
    let head = sub_chars(v, 0, p.len());
    let r = chars_eq(&head, p);
    proof {
        assert(v@.take(p@.len() as int) =~= v@.subrange(0, p@.len() as int));
    }
    r
}

/// The decimal digits of `n`, most significant first.
pub open spec fn decimal(n: nat) -> Seq<char>
    decreases n,
{
    if n < 10 {
        seq![digit_char(n)]
    } else {
        decimal(n / 10).push(digit_char(n % 10))
    }
}

/// The ASCII digit for `d` (below 10).
pub open spec fn digit_char(d: nat) -> char {
    (('0' as u32) + d) as char
}

/// Renders `n` in decimal, like `u32::to_string`.
pub fn decimal_chars(n: u64) -> (r: Vec<char>)
    ensures
        r@ == decimal(n as nat),
    decreases n,
{
    if n < 10 {
        let d: u8 = (n as u8) + 48;
        let v = vec![d as char];
        proof {
            assert(v@ =~= decimal(n as nat));
        }
        v
    } else {
        let mut v = decimal_chars(n / 10);
        let d: u8 = ((n % 10) as u8) + 48;
        v.push(d as char);
        v
    }
}

/// Distinct numbers have distinct decimal renderings.
pub proof fn lemma_decimal_injective(a: nat, b: nat)
    requires
        decimal(a) == decimal(b),
    ensures
        a == b,
    decreases a + b,
{
    lemma_decimal_len(a);
    lemma_decimal_len(b);
    if a < 10 && b < 10 {
        assert(decimal(a) == seq![digit_char(a)]);
        assert(decimal(b) == seq![digit_char(b)]);
        assert(seq![digit_char(a)][0] == digit_char(a));
        assert(seq![digit_char(b)][0] == digit_char(b));
        assert(decimal(a)[0] == decimal(b)[0]);
        lemma_digit_char_injective(a, b);
    } else if a < 10 {
        lemma_decimal_len(b / 10);
    } else if b < 10 {
        lemma_decimal_len(a / 10);
    } else {
        let da = decimal(a);
        let db = decimal(b);
        assert(da.drop_last() =~= decimal(a / 10));
        assert(db.drop_last() =~= decimal(b / 10));
        assert(da.last() == db.last());
        lemma_digit_char_injective(a % 10, b % 10);
        lemma_decimal_injective(a / 10, b / 10);
    }
}

/// Distinct digits render as distinct characters.
pub proof fn lemma_digit_char_injective(x: nat, y: nat)
    requires
        x < 10,
        y < 10,
        digit_char(x) == digit_char(y),
    ensures
        x == y,
{
    assert(digit_char(x) as u32 == 48 + x);
    assert(digit_char(y) as u32 == 48 + y);
}

/// A decimal rendering is non-empty and made of digits.
pub proof fn lemma_decimal_len(n: nat)
    ensures
        decimal(n).len() >= 1,
        n >= 10 ==> decimal(n).len() >= 2,
        forall|i: int| 0 <= i < decimal(n).len() ==> '0' <= #[trigger] decimal(n)[i] <= '9',
    decreases n,
{
    if n >= 10 {
        lemma_decimal_len(n / 10);
    }
}

/// A character with the Unicode `White_Space` property, which
/// `char::is_whitespace` tests.
pub open spec fn is_unicode_whitespace(c: char) -> bool {
    ('\u{9}' <= c && c <= '\u{d}') || c == ' ' || c == '\u{85}' || c == '\u{a0}' || c == '\u{1680}'
        || ('\u{2000}' <= c && c <= '\u{200a}') || c == '\u{2028}' || c == '\u{2029}' || c
        == '\u{202f}' || c == '\u{205f}' || c == '\u{3000}'
}

/// Whether `c` is Unicode white space.
pub fn is_whitespace(c: char) -> (r: bool)
    ensures
        r == is_unicode_whitespace(c),
{
    ('\u{9}' <= c && c <= '\u{d}') || c == ' ' || c == '\u{85}' || c == '\u{a0}' || c == '\u{1680}'
        || ('\u{2000}' <= c && c <= '\u{200a}') || c == '\u{2028}' || c == '\u{2029}' || c
        == '\u{202f}' || c == '\u{205f}' || c == '\u{3000}'
}

/// `s` without its leading white space.
pub open spec fn trim_start(s: Seq<char>) -> Seq<char>
    decreases s.len(),
{
    if s.len() > 0 && is_unicode_whitespace(s[0]) {
        trim_start(s.skip(1))
    } else {
        s
    }
}

/// `s` without its trailing white space.
pub open spec fn trim_end(s: Seq<char>) -> Seq<char>
    decreases s.len(),
{
    if s.len() > 0 && is_unicode_whitespace(s.last()) {
        trim_end(s.drop_last())
    } else {
        s
    }
}

/// `s` without white space at either end, as `str::trim` gives it.
pub open spec fn trim(s: Seq<char>) -> Seq<char> {
    trim_end(trim_start(s))
}

/// The characters of `v` with the white space at both ends removed.
pub fn trim_chars(v: &Vec<char>) -> (r: Vec<char>)
    ensures
        r@ == trim(v@),
{
    let mut a: usize = 0;
    proof {
        assert(v@.skip(0) =~= v@);
    }
    while a < v.len() && is_whitespace(v[a])
        invariant
            a <= v@.len(),
            trim_start(v@.skip(a as int)) == trim_start(v@),
        decreases v@.len() - a,
    {
        proof {
            assert(v@.skip(a as int).skip(1) =~= v@.skip(a + 1));
        }
        a = a + 1;
    }
    let mut b: usize = v.len();
    proof {
        assert(v@.skip(a as int).take(b - a) =~= v@.skip(a as int));
    }
    while b > a && is_whitespace(v[b - 1])
        invariant
            a <= b <= v@.len(),
            trim_end(v@.subrange(a as int, b as int)) == trim_end(trim_start(v@)),
        decreases b,
    {
        proof {
            assert(v@.subrange(a as int, b as int).drop_last() =~= v@.subrange(a as int, b - 1));
        }
        b = b - 1;
    }
    let r = sub_chars(v, a, b);
    r
}

/// The characters of `v` without their leading white space.
pub fn trim_start_chars(v: &Vec<char>) -> (r: Vec<char>)
    ensures
        r@ == trim_start(v@),
{
    let mut a: usize = 0;
    proof {
        assert(v@.skip(0) =~= v@);
    }
    while a < v.len() && is_whitespace(v[a])
        invariant
            a <= v@.len(),
            trim_start(v@.skip(a as int)) == trim_start(v@),
        decreases v@.len() - a,
    {
        proof {
            assert(v@.skip(a as int).skip(1) =~= v@.skip(a + 1));
        }
        a = a + 1;
    }
    let r = sub_chars(v, a, v.len());
    proof {
        assert(r@ =~= v@.skip(a as int));
    }
    r
}

/// The last `max` characters of `s` (all of it when it is no longer).
pub open spec fn suffix_within(s: Seq<char>, max: nat) -> Seq<char> {
    if s.len() <= max {
        s
    } else {
        s.skip(s.len() - max)
    }
}

/// The last `max` characters of `v`.
pub fn suffix_within_chars(v: &Vec<char>, max: usize) -> (r: Vec<char>)
    ensures
        r@ == suffix_within(v@, max as nat),
{
    if v.len() <= max {
        let r = sub_chars(v, 0, v.len());
        proof {
            assert(r@ =~= v@);
        }
        r
    } else {
        let r = sub_chars(v, v.len() - max, v.len());
        proof {
            assert(r@ =~= v@.skip(v@.len() - max));
        }
        r
    }
}

/// The parts joined with `sep` between consecutive ones.
pub open spec fn join_seq(parts: Seq<Seq<char>>, sep: Seq<char>) -> Seq<char>
    decreases parts.len(),
{
    if parts.len() == 0 {
        Seq::empty()
    } else if parts.len() == 1 {
        parts[0]
    } else {
        join_seq(parts.drop_last(), sep) + sep + parts.last()
    }
}

/// Joins the strings of `parts` with `sep`, as `join` on a slice does.
pub fn join_strings(parts: &[String], sep: &str) -> (r: Vec<char>)
    ensures
        r@ == join_seq(crate::convert::string_views(parts@), sep@),
{
    let ghost views = crate::convert::string_views(parts@);
    let mut out: Vec<char> = Vec::new();
    if parts.len() == 0 {
        return out;
    }
    let first = chars_of(parts[0].as_str());
    push_all(&mut out, &first);
    proof {
        assert(views.take(1) =~= seq![views[0]]);
        assert(out@ =~= join_seq(views.take(1), sep@));
    }
    for i in 1..parts.len()
        invariant
            views == crate::convert::string_views(parts@),
            out@ == join_seq(views.take(i as int), sep@),
    {
        proof {
            assert(views.take(i + 1).drop_last() =~= views.take(i as int));
        }
        push_str(&mut out, sep);
        let part = chars_of(parts[i].as_str());
        push_all(&mut out, &part);
    }
    proof {
        assert(views.take(parts@.len() as int) =~= views);
    }
    out
}

/// `s` split at every occurrence of the non-empty `pat`, scanning left to
/// right without overlaps, as `str::split` does (empty pieces included).
pub open spec fn split_on(s: Seq<char>, pat: Seq<char>) -> Seq<Seq<char>>
    decreases s.len(),
{
    if pat.len() == 0 || s.len() == 0 {
        seq![s]
    } else if starts_with(s, pat) {
        seq![Seq::empty()] + split_on(s.skip(pat.len() as int), pat)
    } else {
        let rest = split_on(s.skip(1), pat);
        rest.update(0, seq![s[0]] + rest[0])
    }
}

/// Splitting always yields at least one piece.
pub proof fn lemma_split_on_nonempty(s: Seq<char>, pat: Seq<char>)
    ensures
        split_on(s, pat).len() >= 1,
    decreases s.len(),
{
    if pat.len() > 0 && s.len() > 0 {
        if starts_with(s, pat) {
            lemma_split_on_nonempty(s.skip(pat.len() as int), pat);
        } else {
            lemma_split_on_nonempty(s.skip(1), pat);
        }
    }
}

/// `parts` with `cur` put in front of its first piece.
pub open spec fn prepend_first(cur: Seq<char>, parts: Seq<Seq<char>>) -> Seq<Seq<char>> {
    parts.update(0, cur + parts[0])
}

/// The views of a list of character vectors.
pub open spec fn vec_views(v: Seq<Vec<char>>) -> Seq<Seq<char>> {
    v.map_values(|x: Vec<char>| x@)
}

proof fn lemma_vec_views_push(v: Seq<Vec<char>>, x: Vec<char>)
    ensures
        vec_views(v.push(x)) == vec_views(v).push(x@),
{
    assert(vec_views(v.push(x)) =~= vec_views(v).push(x@));
}

/// Splits `s` at every occurrence of the non-empty `pat`.
pub fn split_chars(s: &Vec<char>, pat: &Vec<char>) -> (r: Vec<Vec<char>>)
    requires
        pat@.len() > 0,
    ensures
        vec_views(r@) == split_on(s@, pat@),
{
    let mut pieces: Vec<Vec<char>> = Vec::new();
    let mut cur: Vec<char> = Vec::new();
    let mut i: usize = 0;
    proof {
        assert(s@.skip(0) =~= s@);
        lemma_split_on_nonempty(s@, pat@);
        assert(prepend_first(cur@, split_on(s@, pat@)) =~= split_on(s@, pat@));
        assert(vec_views(pieces@) =~= Seq::<Seq<char>>::empty());
    }
    while i < s.len()
        invariant
            i <= s@.len(),
            pat@.len() > 0,
            vec_views(pieces@) + prepend_first(cur@, split_on(s@.skip(i as int), pat@)) == split_on(
                s@,
                pat@,
            ),
        decreases s@.len() - i,
    {
        let rest = sub_chars(s, i, s.len());
        proof {
            assert(rest@ =~= s@.skip(i as int));
        }
        let ghost sp = split_on(s@.skip(i as int), pat@);
        if has_prefix(&rest, pat) {
            let ghost before = vec_views(pieces@);
            let ghost pv = pieces@;
            let ghost c = cur@;
            let ghost dv = cur;
            pieces.push(cur);
            cur = Vec::new();
            proof {
                lemma_vec_views_push(pv, dv);
                let nxt = s@.skip(i + pat@.len());
                assert(s@.skip(i as int).skip(pat@.len() as int) =~= nxt);
                lemma_split_on_nonempty(nxt, pat@);
                assert(sp == seq![Seq::<char>::empty()] + split_on(nxt, pat@));
                assert(prepend_first(c, sp) =~= seq![c] + split_on(nxt, pat@));
                assert(prepend_first(Seq::<char>::empty(), split_on(nxt, pat@)) =~= split_on(nxt, pat@));
                assert(vec_views(pieces@) =~= before.push(c));
                assert(vec_views(pieces@) + prepend_first(cur@, split_on(nxt, pat@)) =~= before
                    + prepend_first(c, sp));
            }
            i = i + pat.len();
        } else {
            let ghost c = cur@;
            cur.push(s[i]);
            proof {
                let nxt = s@.skip(i + 1);
                assert(s@.skip(i as int).skip(1) =~= nxt);
                lemma_split_on_nonempty(nxt, pat@);
                let rs = split_on(nxt, pat@);
                assert(sp == rs.update(0, seq![s@[i as int]] + rs[0]));
                assert(c + (seq![s@[i as int]] + rs[0]) =~= cur@ + rs[0]);
                assert(prepend_first(c, sp) =~= prepend_first(cur@, rs));
            }
            i = i + 1;
        }
    }
    proof {
        assert(s@.skip(i as int) =~= Seq::<char>::empty());
        assert(prepend_first(cur@, split_on(s@.skip(i as int), pat@)) =~= seq![cur@]);
    }
    let ghost before = vec_views(pieces@);
    let ghost pv = pieces@;
    let ghost dv = cur;
    pieces.push(cur);
    proof {
        lemma_vec_views_push(pv, dv);
    }
    pieces
}


/// `s` with every occurrence of the non-empty `pat` replaced by `rep`,
/// scanning left to right without overlaps, as `str::replace` does.
pub open spec fn replace_all(s: Seq<char>, pat: Seq<char>, rep: Seq<char>) -> Seq<char>
    decreases s.len(),
{
    if s.len() == 0 || pat.len() == 0 {
        s
    } else if starts_with(s, pat) {
        rep + replace_all(s.skip(pat.len() as int), pat, rep)
    } else {
        seq![s[0]] + replace_all(s.skip(1), pat, rep)
    }
}

/// Replaces every occurrence of the non-empty `pat` in `s` by `rep`.
pub fn replace_all_chars(s: &Vec<char>, pat: &Vec<char>, rep: &Vec<char>) -> (r: Vec<char>)
    requires
        pat@.len() > 0,
    ensures
        r@ == replace_all(s@, pat@, rep@),
{
    let mut out: Vec<char> = Vec::new();
    let mut i: usize = 0;
    proof {
        assert(s@.skip(0) =~= s@);
    }
    while i < s.len()
        invariant
            i <= s@.len(),
            pat@.len() > 0,
            out@ + replace_all(s@.skip(i as int), pat@, rep@) == replace_all(s@, pat@, rep@),
        decreases s@.len() - i,
    {
        let rest = sub_chars(s, i, s.len());
        proof {
            assert(rest@ =~= s@.skip(i as int));
        }
        if has_prefix(&rest, pat) {
            let ghost before = out@;
            push_all(&mut out, rep);
            proof {
                assert(s@.skip(i as int).skip(pat@.len() as int) =~= s@.skip(i + pat@.len()));
                assert(out@ + replace_all(s@.skip(i + pat@.len()), pat@, rep@) =~= before
                    + replace_all(s@.skip(i as int), pat@, rep@));
            }
            i = i + pat.len();
        } else {
            let ghost before = out@;
            out.push(s[i]);
            proof {
                assert(s@.skip(i as int).skip(1) =~= s@.skip(i + 1));
                assert(out@ + replace_all(s@.skip(i + 1), pat@, rep@) =~= before + replace_all(
                    s@.skip(i as int),
                    pat@,
                    rep@,
                ));
            }
            i = i + 1;
        }
    }
    proof {
        assert(s@.skip(i as int) =~= Seq::<char>::empty());
        assert(out@ =~= out@ + replace_all(s@.skip(i as int), pat@, rep@));
    }
    out
}

/// Index of the first occurrence of the non-empty `pat` in `s`, or -1.
pub open spec fn find_first(s: Seq<char>, pat: Seq<char>) -> int
    decreases s.len(),
{
    if starts_with(s, pat) {
        0
    } else if s.len() == 0 {
        -1
    } else {
        let r = find_first(s.skip(1), pat);
        if r < 0 {
            -1
        } else {
            r + 1
        }
    }
}

/// What `find_first` means: the least index where `pat` starts.
pub proof fn lemma_find_first(s: Seq<char>, pat: Seq<char>)
    ensures
        -1 <= find_first(s, pat) <= s.len(),
        find_first(s, pat) >= 0 ==> starts_with(s.skip(find_first(s, pat)), pat),
        forall|j: int|
            0 <= j <= s.len() && (find_first(s, pat) < 0 || j < find_first(s, pat)) ==> !starts_with(
                #[trigger] s.skip(j),
                pat,
            ),
    decreases s.len(),
{
    assert(s.skip(0) =~= s);
    if !starts_with(s, pat) && s.len() > 0 {
        lemma_find_first(s.skip(1), pat);
        let r = find_first(s.skip(1), pat);
        if r >= 0 {
            assert(s.skip(1).skip(r) =~= s.skip(r + 1));
        }
        assert forall|j: int|
            0 <= j <= s.len() && (find_first(s, pat) < 0 || j < find_first(s, pat)) implies !starts_with(
                #[trigger] s.skip(j),
                pat,
            ) by {
            if j > 0 {
                assert(s.skip(1).skip(j - 1) =~= s.skip(j));
            }
        }
    } else if !starts_with(s, pat) {
        assert forall|j: int|
            0 <= j <= s.len() && (find_first(s, pat) < 0 || j < find_first(s, pat)) implies !starts_with(
                #[trigger] s.skip(j),
                pat,
            ) by {
            assert(s.skip(j) =~= s);
        }
    }
}

/// The least index at which the non-empty `pat` occurs in `s`, if any.
pub fn find_chars(s: &Vec<char>, pat: &Vec<char>) -> (r: Option<usize>)
    ensures
        match r {
            None => find_first(s@, pat@) == -1,
            Some(i) => find_first(s@, pat@) == i,
        },
{
    proof {
        lemma_find_first(s@, pat@);
    }
    for i in 0..s.len()
        invariant
            -1 <= find_first(s@, pat@) <= s@.len(),
            find_first(s@, pat@) >= 0 ==> starts_with(s@.skip(find_first(s@, pat@)), pat@),
            forall|j: int| 0 <= j < i ==> !starts_with(#[trigger] s@.skip(j), pat@),
            forall|j: int|
                0 <= j <= s@.len() && (find_first(s@, pat@) < 0 || j < find_first(s@, pat@))
                    ==> !starts_with(#[trigger] s@.skip(j), pat@),
    {
        let rest = sub_chars(s, i, s.len());
        proof {
            assert(rest@ =~= s@.skip(i as int));
        }
        if has_prefix(&rest, pat) {
            return Some(i);
        }
    }
    if pat.len() == 0 {
        proof {
            assert(s@.skip(s@.len() as int).take(0) =~= pat@);
        }
        return Some(s.len());
    }
    proof {
        assert(!starts_with(s@.skip(s@.len() as int), pat@));
    }
    None
}

/// `s` split at its first occurrence of `pat`: the text before and after it.
pub open spec fn split_once(s: Seq<char>, pat: Seq<char>) -> Option<(Seq<char>, Seq<char>)> {
    let i = find_first(s, pat);
    if i < 0 {
        None
    } else {
        Some((s.take(i), s.skip(i + pat.len())))
    }
}

/// Whether `pat` occurs in `s`.
pub open spec fn contains_seq(s: Seq<char>, pat: Seq<char>) -> bool {
    find_first(s, pat) >= 0
}

/// The lines of `s` as `str::lines` gives them: split at `\n`, a `\r`
/// before a `\n` dropped, and no empty last line after a final `\n`.
pub open spec fn spec_lines(s: Seq<char>) -> Seq<Seq<char>> {
    let parts = split_on(s, seq!['\n']);
    let n = parts.len();
    let init = parts.take(n - 1).map_values(
        |l: Seq<char>|
            if l.len() > 0 && l.last() == '\r' {
                l.drop_last()
            } else {
                l
            },
    );
    if parts[n - 1].len() == 0 {
        init
    } else {
        init.push(parts[n - 1])
    }
}

/// The lines of `s`.
pub fn lines_of(s: &Vec<char>) -> (r: Vec<Vec<char>>)
    ensures
        vec_views(r@) == spec_lines(s@),
{
    let nl: Vec<char> = vec!['\n'];
    let parts = split_chars(s, &nl);
    proof {
        lemma_split_on_nonempty(s@, nl@);
        assert(nl@ =~= seq!['\n']);
    }
    let n = parts.len();
    let ghost pv = vec_views(parts@);
    let mut out: Vec<Vec<char>> = Vec::new();
    for i in 0..n - 1
        invariant
            n == parts@.len(),
            n >= 1,
            pv == vec_views(parts@),
            vec_views(out@) == pv.take(n - 1).map_values(
                |l: Seq<char>|
                    if l.len() > 0 && l.last() == '\r' {
                        l.drop_last()
                    } else {
                        l
                    },
            ).take(i as int),
    {
        let l = &parts[i];
        let m = l.len();
        let line = if m > 0 && l[m - 1] == '\r' {
            sub_chars(l, 0, m - 1)
        } else {
            l.clone()
        };
        let ghost ov = out@;
        let ghost lv = line;
        out.push(line);
        proof {
            lemma_vec_views_push(ov, lv);
            if m > 0 && l@[m - 1] == '\r' {
                assert(lv@ =~= l@.drop_last());
            }
            assert(vec_views(out@) =~= pv.take(n - 1).map_values(
                |l: Seq<char>|
                    if l.len() > 0 && l.last() == '\r' {
                        l.drop_last()
                    } else {
                        l
                    },
            ).take(i + 1));
        }
    }
    proof {
        let mapped = pv.take(n - 1).map_values(
            |l: Seq<char>|
                if l.len() > 0 && l.last() == '\r' {
                    l.drop_last()
                } else {
                    l
                },
        );
        assert(mapped.take(n - 1) =~= mapped);
    }
    if parts[n - 1].len() > 0 {
        let ghost ov = out@;
        let last = parts[n - 1].clone();
        let ghost lv = last;
        out.push(last);
        proof {
            lemma_vec_views_push(ov, lv);
        }
    }
    out
}

/// The first white-space-separated word of `s`, as
/// `split_whitespace().next()` gives it.
pub open spec fn first_word(s: Seq<char>) -> Option<Seq<char>> {
    let t = trim_start(s);
    if t.len() == 0 {
        None
    } else {
        Some(t.take(word_end(t)))
    }
}

/// Index of the first white-space character of `t`, or its length.
pub open spec fn word_end(t: Seq<char>) -> int
    decreases t.len(),
{
    if t.len() == 0 || is_unicode_whitespace(t[0]) {
        0
    } else {
        1 + word_end(t.skip(1))
    }
}

proof fn lemma_word_end(t: Seq<char>)
    ensures
        0 <= word_end(t) <= t.len(),
        word_end(t) < t.len() ==> is_unicode_whitespace(t[word_end(t)]),
        forall|j: int| 0 <= j < word_end(t) ==> !is_unicode_whitespace(#[trigger] t[j]),
    decreases t.len(),
{
    if t.len() > 0 && !is_unicode_whitespace(t[0]) {
        lemma_word_end(t.skip(1));
        assert forall|j: int| 0 <= j < word_end(t) implies !is_unicode_whitespace(#[trigger] t[j]) by {
            if j > 0 {
                assert(t[j] == t.skip(1)[j - 1]);
            }
        }
    }
}

/// The first white-space-separated word of `s`, if any.
pub fn first_word_chars(s: &Vec<char>) -> (r: Option<Vec<char>>)
    ensures
        match r {
            None => first_word(s@) is None,
            Some(w) => first_word(s@) == Some(w@),
        },
{
    let mut a: usize = 0;
    proof {
        assert(s@.skip(0) =~= s@);
    }
    while a < s.len() && is_whitespace(s[a])
        invariant
            a <= s@.len(),
            trim_start(s@.skip(a as int)) == trim_start(s@),
        decreases s@.len() - a,
    {
        proof {
            assert(s@.skip(a as int).skip(1) =~= s@.skip(a + 1));
        }
        a = a + 1;
    }
    if a == s.len() {
        proof {
            assert(s@.skip(a as int).len() == 0);
        }
        return None;
    }
    let ghost t = s@.skip(a as int);
    proof {
        assert(trim_start(t) == t);
    }
    let mut b: usize = a;
    proof {
        assert(t.skip(0) =~= t);
    }
    while b < s.len() && !is_whitespace(s[b])
        invariant
            a <= b <= s@.len(),
            t == s@.skip(a as int),
            word_end(t) == (b - a) + word_end(s@.skip(b as int)),
        decreases s@.len() - b,
    {
        proof {
            assert(s@.skip(b as int).skip(1) =~= s@.skip(b + 1));
        }
        b = b + 1;
    }
    let w = sub_chars(s, a, b);
    proof {
        assert(w@ =~= t.take(b - a));
    }
    Some(w)
}

/// The value of a string of decimal digits.
pub open spec fn digits_value(s: Seq<char>) -> nat
    decreases s.len(),
{
    if s.len() == 0 {
        0
    } else {
        digits_value(s.drop_last()) * 10 + ((s.last() as u32) - 48) as nat
    }
}

/// Every character of `s` is an ASCII digit.
pub open spec fn all_digits(s: Seq<char>) -> bool {
    forall|i: int| 0 <= i < s.len() ==> '0' <= #[trigger] s[i] && s[i] <= '9'
}

/// What `u64::from_str` accepts: an optional `+` and one or more digits
/// whose value fits in a `u64`.
pub open spec fn spec_parse_u64(s: Seq<char>) -> Option<nat> {
    let d = if s.len() > 0 && s[0] == '+' {
        s.skip(1)
    } else {
        s
    };
    if d.len() > 0 && all_digits(d) && digits_value(d) <= u64::MAX {
        Some(digits_value(d))
    } else {
        None
    }
}

/// Parses a `u64` the way `str::parse::<u64>` does.
pub fn parse_u64(s: &Vec<char>) -> (r: Option<u64>)
    ensures
        match r {
            None => spec_parse_u64(s@) is None,
            Some(v) => spec_parse_u64(s@) == Some(v as nat),
        },
{
    let start: usize = if s.len() > 0 && s[0] == '+' {
        1
    } else {
        0
    };
    let ghost d = s@.skip(start as int);
    proof {
        if start == 0 {
            assert(d =~= s@);
        }
    }
    if start == s.len() {
        return None;
    }
    let mut value: u64 = 0;
    let mut i: usize = start;
    proof {
        assert(d.take(0) =~= Seq::<char>::empty());
    }
    while i < s.len()
        invariant
            start <= i <= s@.len(),
            d == s@.skip(start as int),
            d == (if s@.len() > 0 && s@[0] == '+' {
                s@.skip(1)
            } else {
                s@
            }),
            all_digits(d.take(i - start)),
            value == digits_value(d.take(i - start)),
        decreases s@.len() - i,
    {
        let c = s[i];
        proof {
            assert(d.take(i - start + 1).drop_last() =~= d.take(i - start));
            assert(d.take(i - start + 1).last() == c);
        }
        if c < '0' || c > '9' {
            proof {
                assert(d[(i - start) as int] == c);
                assert(!all_digits(d));
            }
            return None;
        }
        let digit: u64 = (c as u32 - 48) as u64;
        if value > (u64::MAX - digit) / 10 {
            proof {
                assert(value * 10 + digit > u64::MAX) by (nonlinear_arith)
                    requires
                        value > (u64::MAX - digit) / 10,
                        digit <= 9,
                ;
                assert(all_digits(d.take(i - start + 1)));
                lemma_digits_value_prefix_le(d, (i - start + 1) as nat);
                assert(digits_value(d.take(i - start + 1)) == value * 10 + digit);
            }
            return None;
        }
        value = value * 10 + digit;
        i = i + 1;
    }
    proof {
        assert(d.take(i - start) =~= d);
    }
    Some(value)
}

/// A digit string's value is at least that of any of its prefixes.
proof fn lemma_digits_value_prefix_le(d: Seq<char>, k: nat)
    requires
        k <= d.len(),
        all_digits(d.take(k as int)) || all_digits(d),
    ensures
        all_digits(d) ==> digits_value(d.take(k as int)) <= digits_value(d),
    decreases d.len() - k,
{
    if k < d.len() && all_digits(d) {
        lemma_digits_value_prefix_le(d, k + 1);
        assert(d.take((k + 1) as int).drop_last() =~= d.take(k as int));
    } else if k == d.len() {
        assert(d.take(k as int) =~= d);
    }
}

/// Joins `parts[start..]` with `sep`.
pub fn join_vecs_from(parts: &Vec<Vec<char>>, start: usize, sep: &Vec<char>) -> (r: Vec<char>)
    requires
        start <= parts@.len(),
    ensures
        r@ == join_seq(vec_views(parts@).skip(start as int), sep@),
{
    let ghost views = vec_views(parts@).skip(start as int);
    let mut out: Vec<char> = Vec::new();
    let n = parts.len();
    if start == n {
        proof {
            assert(views.len() == 0);
        }
        return out;
    }
    push_all(&mut out, &parts[start]);
    proof {
        assert(views.take(1) =~= seq![views[0]]);
        assert(out@ =~= join_seq(views.take(1), sep@));
    }
    let mut i = start + 1;
    while i < n
        invariant
            start < i <= n,
            n == parts@.len(),
            views == vec_views(parts@).skip(start as int),
            out@ == join_seq(views.take(i - start), sep@),
        decreases n - i,
    {
        proof {
            assert(views.take(i - start + 1).drop_last() =~= views.take(i - start));
            assert(views.take(i - start + 1).last() == parts@[i as int]@);
        }
        push_all(&mut out, sep);
        push_all(&mut out, &parts[i]);
        i = i + 1;
    }
    proof {
        assert(views.take(n - start) =~= views);
    }
    out
}

proof fn lemma_split_on_len(s: Seq<char>, pat: Seq<char>)
    requires
        pat.len() > 0,
    ensures
        split_on(s, pat).len() <= s.len() + 1,
    decreases s.len(),
{
    if s.len() > 0 {
        if starts_with(s, pat) {
            lemma_split_on_len(s.skip(pat.len() as int), pat);
        } else {
            lemma_split_on_len(s.skip(1), pat);
            lemma_split_on_nonempty(s.skip(1), pat);
        }
    }
}

/// A text has at most one more line than it has characters.
pub proof fn lemma_lines_len(s: Seq<char>)
    ensures
        spec_lines(s).len() <= s.len() + 1,
{
    lemma_split_on_len(s, seq!['\n']);
    lemma_split_on_nonempty(s, seq!['\n']);
}

/// Splitting `x p y` at `p`, when `p` first occurs right after `x`,
/// gives `x` then the pieces of `y`.
pub proof fn lemma_split_at_first(x: Seq<char>, p: Seq<char>, y: Seq<char>)
    requires
        p.len() > 0,
        forall|j: int| 0 <= j < x.len() ==> !starts_with(#[trigger] (x + p + y).skip(j), p),
    ensures
        split_on(x + p + y, p) == seq![x] + split_on(y, p),
    decreases x.len(),
{
    let s = x + p + y;
    if x.len() == 0 {
        assert(s =~= p + y);
        assert(s.take(p.len() as int) =~= p);
        assert(s.skip(p.len() as int) =~= y);
        assert(x =~= Seq::<char>::empty());
        assert(seq![Seq::<char>::empty()] + split_on(y, p) =~= seq![x] + split_on(y, p));
    } else {
        assert(s.skip(0) =~= s);
        assert(!starts_with(s, p));
        let x1 = x.skip(1);
        assert(s.skip(1) =~= x1 + p + y);
        assert forall|j: int| 0 <= j < x1.len() implies !starts_with(#[trigger] (x1 + p + y).skip(j), p) by {
            assert((x1 + p + y).skip(j) =~= s.skip(j + 1));
        }
        lemma_split_at_first(x1, p, y);
        lemma_split_on_nonempty(y, p);
        let rest = split_on(s.skip(1), p);
        assert(seq![s[0]] + rest[0] =~= x);
        assert(rest.update(0, seq![s[0]] + rest[0]) =~= seq![x] + split_on(y, p));
    }
}

/// `p` first occurs in `u p v` right after `u` when `u` never holds `p`'s
/// first character.
pub proof fn lemma_find_first_at(u: Seq<char>, p: Seq<char>, v: Seq<char>)
    requires
        p.len() > 0,
        forall|j: int| 0 <= j < u.len() ==> #[trigger] u[j] != p[0],
    ensures
        find_first(u + p + v, p) == u.len(),
    decreases u.len(),
{
    let s = u + p + v;
    if u.len() == 0 {
        assert(s.take(p.len() as int) =~= p);
    } else {
        assert(!starts_with(s, p)) by {
            if starts_with(s, p) {
                assert(s.take(p.len() as int)[0] == s[0]);
            }
        }
        let u1 = u.skip(1);
        assert forall|j: int| 0 <= j < u1.len() implies #[trigger] u1[j] != p[0] by {
            assert(u1[j] == u[j + 1]);
        }
        assert(s.skip(1) =~= u1 + p + v);
        lemma_find_first_at(u1, p, v);
    }
}

/// `p` does not occur in `s` when `s` never holds `p`'s first character.
pub proof fn lemma_find_absent(s: Seq<char>, p: Seq<char>)
    requires
        p.len() > 0,
        forall|j: int| 0 <= j < s.len() ==> #[trigger] s[j] != p[0],
    ensures
        find_first(s, p) == -1,
    decreases s.len(),
{
    assert(!starts_with(s, p)) by {
        if starts_with(s, p) {
            assert(s.take(p.len() as int)[0] == s[0]);
        }
    }
    if s.len() > 0 {
        let s1 = s.skip(1);
        assert forall|j: int| 0 <= j < s1.len() implies #[trigger] s1[j] != p[0] by {
            assert(s1[j] == s[j + 1]);
        }
        lemma_find_absent(s1, p);
    }
}

/// Replacing `pat` changes nothing in a text where it never occurs.
pub proof fn lemma_replace_none(s: Seq<char>, pat: Seq<char>, rep: Seq<char>)
    requires
        pat.len() > 0,
        forall|j: int| 0 <= j < s.len() ==> !starts_with(#[trigger] s.skip(j), pat),
    ensures
        replace_all(s, pat, rep) == s,
    decreases s.len(),
{
    if s.len() > 0 {
        assert(s.skip(0) =~= s);
        let s1 = s.skip(1);
        assert forall|j: int| 0 <= j < s1.len() implies !starts_with(#[trigger] s1.skip(j), pat) by {
            assert(s1.skip(j) =~= s.skip(j + 1));
        }
        lemma_replace_none(s1, pat, rep);
        assert(seq![s[0]] + s1 =~= s);
    }
}

/// No carriage return directly before a line break.
pub open spec fn no_crlf(s: Seq<char>) -> bool {
    forall|i: int| 0 <= i < s.len() - 1 ==> !(#[trigger] s[i] == '\r' && s[i + 1] == '\n')
}

/// Every piece of a split at line breaks but the last ends in something
/// other than a carriage return, when no carriage return precedes a line break.
proof fn lemma_split_pieces_no_trailing_cr(s: Seq<char>)
    requires
        no_crlf(s),
    ensures
        forall|k: int|
            0 <= k < split_on(s, seq!['\n']).len() - 1 && #[trigger] split_on(s, seq!['\n'])[k].len() > 0
                ==> split_on(s, seq!['\n'])[k].last() != '\r',
    decreases s.len(),
{
    let p = seq!['\n'];
    if s.len() > 0 {
        let s1 = s.skip(1);
        assert(no_crlf(s1)) by {
            assert forall|i: int| 0 <= i < s1.len() - 1 implies !(#[trigger] s1[i] == '\r' && s1[i + 1] == '\n') by {
                assert(s1[i] == s[i + 1] && s1[i + 1] == s[i + 2]);
            }
        }
        lemma_split_pieces_no_trailing_cr(s1);
        lemma_split_on_nonempty(s1, p);
        let rest = split_on(s1, p);
        if starts_with(s, p) {
            assert forall|k: int|
                0 <= k < split_on(s, p).len() - 1 && #[trigger] split_on(s, p)[k].len() > 0 implies split_on(
                    s,
                    p,
                )[k].last() != '\r' by {
                assert(split_on(s, p) == seq![Seq::<char>::empty()] + rest);
                assert(split_on(s, p)[k] == (seq![Seq::<char>::empty()] + rest)[k]);
                if k > 0 {
                    assert(split_on(s, p)[k] == rest[k - 1]);
                }
            }
        } else {
            assert forall|k: int|
                0 <= k < split_on(s, p).len() - 1 && #[trigger] split_on(s, p)[k].len() > 0 implies split_on(
                    s,
                    p,
                )[k].last() != '\r' by {
                if k == 0 {
                    let w = seq![s[0]] + rest[0];
                    assert(rest.len() > 1);
                    if rest[0].len() > 0 {
                        assert(w.last() == rest[0].last());
                    } else {
                        assert(s1.len() > 0) by {
                            if s1.len() == 0 {
                                assert(split_on(s1, p) == seq![s1]);
                            }
                        }
                        assert(starts_with(s1, p)) by {
                            if !starts_with(s1, p) {
                                let r1 = split_on(s1.skip(1), p);
                                lemma_split_on_nonempty(s1.skip(1), p);
                                assert(rest == r1.update(0, seq![s1[0]] + r1[0]));
                                assert(rest[0].len() > 0);
                            }
                        }
                        assert(s1.take(1)[0] == s1[0]);
                        assert(s[1] == s1[0]);
                        assert(w.last() == s[0]);
                    }
                }
            }
        }
    }
}

/// The last piece of a split at `c` is not empty when the text does not end in `c`.
pub proof fn lemma_split_last_nonempty(s: Seq<char>, c: char)
    requires
        s.len() > 0,
        s.last() != c,
    ensures
        split_on(s, seq![c]).len() >= 1,
        split_on(s, seq![c]).last().len() > 0,
    decreases s.len(),
{
    let p = seq![c];
    lemma_split_on_nonempty(s, p);
    let s1 = s.skip(1);
    if starts_with(s, p) {
        assert(s.take(1)[0] == s[0]);
        assert(s1.len() > 0);
        assert(s1.last() == s.last());
        lemma_split_last_nonempty(s1, c);
    } else if s1.len() == 0 {
        assert(split_on(s1, p) =~= seq![s1]);
    } else {
        assert(s1.last() == s.last());
        lemma_split_last_nonempty(s1, c);
    }
}

/// Joining with `sep` after putting `x` in front.
pub proof fn lemma_join_front(x: Seq<char>, xs: Seq<Seq<char>>, sep: Seq<char>)
    requires
        xs.len() >= 1,
    ensures
        join_seq(seq![x] + xs, sep) == x + sep + join_seq(xs, sep),
    decreases xs.len(),
{
    let ys = seq![x] + xs;
    if xs.len() == 1 {
        assert(ys.drop_last() =~= seq![x]);
        assert(ys.last() == xs[0]);
        assert(join_seq(seq![x], sep) == x);
        assert(join_seq(ys, sep) == join_seq(ys.drop_last(), sep) + sep + ys.last());
    } else {
        lemma_join_front(x, xs.drop_last(), sep);
        assert(ys.drop_last() =~= seq![x] + xs.drop_last());
        assert(ys.last() == xs.last());
        assert(join_seq(ys, sep) == join_seq(ys.drop_last(), sep) + sep + ys.last());
        assert(join_seq(xs, sep) == join_seq(xs.drop_last(), sep) + sep + xs.last());
        assert(x + sep + join_seq(xs.drop_last(), sep) + sep + xs.last() =~= x + sep + (join_seq(
            xs.drop_last(),
            sep,
        ) + sep + xs.last()));
    }
}

/// Joining after growing the first piece at its front.
pub proof fn lemma_join_grow_first(a: Seq<char>, xs: Seq<Seq<char>>, sep: Seq<char>)
    requires
        xs.len() >= 1,
    ensures
        join_seq(xs.update(0, a + xs[0]), sep) == a + join_seq(xs, sep),
    decreases xs.len(),
{
    let ys = xs.update(0, a + xs[0]);
    if xs.len() > 1 {
        lemma_join_grow_first(a, xs.drop_last(), sep);
        assert(ys.drop_last() =~= xs.drop_last().update(0, a + xs.drop_last()[0]));
        assert(ys.last() == xs.last());
    }
}

/// Splitting at `c` and joining the pieces with `c` gives the text back.
pub proof fn lemma_join_split(s: Seq<char>, c: char)
    ensures
        join_seq(split_on(s, seq![c]), seq![c]) == s,
    decreases s.len(),
{
    let p = seq![c];
    if s.len() > 0 {
        let s1 = s.skip(1);
        lemma_join_split(s1, c);
        lemma_split_on_nonempty(s1, p);
        if starts_with(s, p) {
            assert(s.take(1)[0] == s[0]);
            lemma_join_front(Seq::<char>::empty(), split_on(s1, p), p);
            assert(Seq::<char>::empty() + p + s1 =~= s);
        } else {
            lemma_join_grow_first(seq![s[0]], split_on(s1, p), p);
            assert(seq![s[0]] + s1 =~= s);
        }
    }
}

/// The lines of a text that does not end in a line break, and has no
/// carriage return before a line break, are its pieces between line breaks.
pub proof fn lemma_lines_plain(t: Seq<char>)
    requires
        t.len() > 0,
        t.last() != '\n',
        no_crlf(t),
    ensures
        spec_lines(t) == split_on(t, seq!['\n']),
{
    let parts = split_on(t, seq!['\n']);
    lemma_split_last_nonempty(t, '\n');
    lemma_split_pieces_no_trailing_cr(t);
    let n = parts.len();
    let init = parts.take(n - 1).map_values(
        |l: Seq<char>|
            if l.len() > 0 && l.last() == '\r' {
                l.drop_last()
            } else {
                l
            },
    );
    assert forall|k: int| 0 <= k < n - 1 implies init[k] == parts[k] by {
        if parts[k].len() > 0 {
            assert(parts[k].last() != '\r');
        }
    }
    assert(init.push(parts[n - 1]) =~= parts);
}

/// `trim_start` drops a prefix: what is left is a suffix of `s` that is
/// empty or begins with a character that is not white space.
pub proof fn lemma_trim_start_suffix(s: Seq<char>)
    ensures
        exists|k: int| 0 <= k <= s.len() && trim_start(s) == #[trigger] s.skip(k),
        trim_start(s).len() > 0 ==> !is_unicode_whitespace(trim_start(s)[0]),
    decreases s.len(),
{
    if s.len() > 0 && is_unicode_whitespace(s[0]) {
        lemma_trim_start_suffix(s.skip(1));
        let k = choose|k: int| 0 <= k <= s.skip(1).len() && trim_start(s.skip(1)) == #[trigger] s.skip(1).skip(k);
        assert(s.skip(1).skip(k) =~= s.skip(k + 1));
    } else {
        assert(s.skip(0) =~= s);
    }
}

/// `trim_end` drops a suffix: what is left is a prefix of `s` that is
/// empty or ends with a character that is not white space.
pub proof fn lemma_trim_end_prefix(s: Seq<char>)
    ensures
        exists|k: int| 0 <= k <= s.len() && trim_end(s) == #[trigger] s.take(k),
        trim_end(s).len() > 0 ==> !is_unicode_whitespace(trim_end(s).last()),
    decreases s.len(),
{
    if s.len() > 0 && is_unicode_whitespace(s.last()) {
        lemma_trim_end_prefix(s.drop_last());
        let k = choose|k: int| 0 <= k <= s.drop_last().len() && trim_end(s.drop_last()) == #[trigger] s.drop_last().take(k);
        assert(s.drop_last().take(k) =~= s.take(k));
    } else {
        assert(s.take(s.len() as int) =~= s);
    }
}

/// A trimmed text that is not empty begins and ends with characters that
/// are not white space, and every character of it is one of `s`.
pub proof fn lemma_trim_shape(s: Seq<char>)
    ensures
        trim(s).len() > 0 ==> !is_unicode_whitespace(trim(s)[0]) && !is_unicode_whitespace(trim(s).last()),
        forall|j: int| 0 <= j < trim(s).len() ==> s.contains(#[trigger] trim(s)[j]),
{
    lemma_trim_start_suffix(s);
    let u = trim_start(s);
    lemma_trim_end_prefix(u);
    let a = choose|k: int| 0 <= k <= s.len() && u == #[trigger] s.skip(k);
    let b = choose|k: int| 0 <= k <= u.len() && trim_end(u) == #[trigger] u.take(k);
    assert forall|j: int| 0 <= j < trim(s).len() implies s.contains(#[trigger] trim(s)[j]) by {
        assert(trim(s)[j] == s[a + j]);
    }
    if trim(s).len() > 0 {
        assert(trim(s)[0] == u[0]);
    }
}

/// No piece of a split at `c` holds `c`.
pub proof fn lemma_split_pieces_lack_sep(s: Seq<char>, c: char)
    ensures
        forall|k: int, i: int|
            0 <= k < split_on(s, seq![c]).len() && 0 <= i < split_on(s, seq![c])[k].len() ==> #[trigger] split_on(
                s,
                seq![c],
            )[k][i] != c,
    decreases s.len(),
{
    let p = seq![c];
    if s.len() > 0 {
        let s1 = s.skip(1);
        lemma_split_pieces_lack_sep(s1, c);
        lemma_split_on_nonempty(s1, p);
        if starts_with(s, p) {
            assert forall|k: int, i: int|
                0 <= k < split_on(s, p).len() && 0 <= i < split_on(s, p)[k].len() implies #[trigger] split_on(
                    s,
                    p,
                )[k][i] != c by {
                assert(split_on(s, p)[k] == (seq![Seq::<char>::empty()] + split_on(s1, p))[k]);
                if k > 0 {
                    assert(split_on(s, p)[k] == split_on(s1, p)[k - 1]);
                }
            }
        } else {
            assert(s.take(1) =~= seq![s[0]]);
            assert(s[0] != c);
            let rest = split_on(s1, p);
            assert forall|k: int, i: int|
                0 <= k < split_on(s, p).len() && 0 <= i < split_on(s, p)[k].len() implies #[trigger] split_on(
                    s,
                    p,
                )[k][i] != c by {
                if k == 0 {
                    let w = seq![s[0]] + rest[0];
                    if i > 0 {
                        assert(w[i] == rest[0][i - 1]);
                    }
                }
            }
        }
    }
}

/// No line holds a line break.
pub proof fn lemma_lines_lack_newline(t: Seq<char>)
    ensures
        forall|k: int, i: int|
            0 <= k < spec_lines(t).len() && 0 <= i < spec_lines(t)[k].len() ==> #[trigger] spec_lines(t)[k][i]
                != '\n',
{
    let parts = split_on(t, seq!['\n']);
    lemma_split_on_nonempty(t, seq!['\n']);
    lemma_split_pieces_lack_sep(t, '\n');
    let n = parts.len();
    let ls = spec_lines(t);
    assert forall|k: int, i: int| 0 <= k < ls.len() && 0 <= i < ls[k].len() implies #[trigger] ls[k][i] != '\n' by {
        assert(ls[k][i] == parts[k][i]);
    }
}

} // verus!
