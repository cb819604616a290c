//! The cue model shared by TXT/SRT/VTT interconversion, with its parsers
//! and writers.
//!
//! TXT carries no timing, so TXT -> SRT/VTT invents it: each non-blank
//! line becomes one cue, 3 seconds apart, each lasting 2.5 seconds.
use crate::convert::string_views;
use crate::text::{
    all_digits, chars_of, contains_seq, decimal, decimal_chars, digits_value, find_chars, find_first,
    find_last, first_word, first_word_chars, is_unicode_whitespace, join_seq, last_index_of,
    lemma_decimal_len, lemma_split_on_nonempty, lines_of, parse_u64, push_all, push_str,
    replace_all, replace_all_chars, spec_lines, spec_parse_u64, split_chars, split_on, split_once,
    starts_with, string_from_chars, sub_chars, trim, trim_chars, trim_end, trim_start, vec_views,
    join_vecs_from, lemma_find_first, no_crlf,
};
use vstd::prelude::*;

verus! {

/// One subtitle cue: a time range in milliseconds and its text (which may
/// span several lines).
pub struct Cue {
    /// Start of the cue, in milliseconds.
    pub start_ms: u64,
    /// End of the cue, in milliseconds.
    pub end_ms: u64,
    /// The cue's text.
    pub text: String,
}

/// A cue as plain values.
pub open spec fn cue_view(c: Cue) -> (nat, nat, Seq<char>) {
    (c.start_ms as nat, c.end_ms as nat, c.text@)
}

/// The plain values of a cue list.
pub open spec fn cue_views(cues: Seq<Cue>) -> Seq<(nat, nat, Seq<char>)> {
    cues.map_values(|c: Cue| cue_view(c))
}

// ---------------------------------------------------------------------
// Timestamps
// ---------------------------------------------------------------------

/// `n` in decimal, at least two digits wide.
pub open spec fn pad2(n: nat) -> Seq<char> {
    if n < 10 {
        seq!['0'] + decimal(n)
    } else {
        decimal(n)
    }
}

/// `n` in decimal, at least three digits wide.
pub open spec fn pad3(n: nat) -> Seq<char> {
    if n < 10 {
        seq!['0', '0'] + decimal(n)
    } else if n < 100 {
        seq!['0'] + decimal(n)
    } else {
        decimal(n)
    }
}

/// `HH:MM:SS<sep>mmm` for a time in milliseconds; the hours grow past two
/// digits when needed.
pub open spec fn spec_format_timestamp(ms: nat, sep: char) -> Seq<char> {
    let total_s = ms / 1000;
    pad2(total_s / 3600) + seq![':'] + pad2((total_s / 60) % 60) + seq![':'] + pad2(total_s % 60)
        + seq![sep] + pad3(ms % 1000)
}

/// `n` zero-padded to `width` (2 or 3) digits.
fn padded(n: u64, width: u64) -> (r: Vec<char>)
    requires
        width == 2 || width == 3,
    ensures
        width == 2 ==> r@ == pad2(n as nat),
        width == 3 ==> r@ == pad3(n as nat),
{
    let digits = decimal_chars(n);
    let mut r: Vec<char> = Vec::new();
    if width == 3 && n < 10 {
        r.push('0');
        r.push('0');
    } else if n < 10 || (width == 3 && n < 100) {
        r.push('0');
    }
    push_all(&mut r, &digits);
    r
}

/// Formats a time in milliseconds as a subtitle timestamp with the given
/// decimal separator (`,` for SRT, `.` for VTT).
pub fn format_timestamp(total_ms: u64, decimal_separator: char) -> (r: Vec<char>)
    ensures
        r@ == spec_format_timestamp(total_ms as nat, decimal_separator),
{
    let ms = total_ms % 1000;
    let total_seconds = total_ms / 1000;
    let seconds = total_seconds % 60;
    let minutes = (total_seconds / 60) % 60;
    let hours = total_seconds / 3600;
    let mut r = padded(hours, 2);
    r.push(':');
    let m = padded(minutes, 2);
    push_all(&mut r, &m);
    r.push(':');
    let s = padded(seconds, 2);
    push_all(&mut r, &s);
    r.push(decimal_separator);
    let f = padded(ms, 3);
    push_all(&mut r, &f);
    r
}

/// The seconds an `h:m:s` or `m:s` time part stands for, each field parsed
/// as a `u64`.
pub open spec fn hms_seconds(parts: Seq<Seq<char>>) -> Option<nat> {
    if parts.len() == 3 {
        match (spec_parse_u64(parts[0]), spec_parse_u64(parts[1]), spec_parse_u64(parts[2])) {
            (Some(h), Some(m), Some(s)) => Some(h * 3600 + m * 60 + s),
            _ => None,
        }
    } else if parts.len() == 2 {
        match (spec_parse_u64(parts[0]), spec_parse_u64(parts[1])) {
            (Some(m), Some(s)) => Some(m * 60 + s),
            _ => None,
        }
    } else {
        None
    }
}

/// What a subtitle timestamp `value` reads as, in milliseconds: split at
/// its last decimal separator, the part after it (trimmed) is the
/// milliseconds and the part before it is `h:m:s` or `m:s`. A value whose
/// total does not fit in a `u64` reads as nothing.
pub open spec fn spec_parse_timestamp(value: Seq<char>, sep: char) -> Option<nat> {
    let k = last_index_of(value, sep);
    if k < 0 {
        None
    } else {
        match spec_parse_u64(trim(value.skip(k + 1))) {
            None => None,
            Some(ms) => match hms_seconds(split_on(value.take(k), seq![':'])) {
                None => None,
                Some(secs) => if secs * 1000 + ms <= u64::MAX {
                    Some(secs * 1000 + ms)
                } else {
                    None
                },
            },
        }
    }
}

/// Parses a subtitle timestamp into milliseconds.
pub fn parse_timestamp(value: &Vec<char>, decimal_separator: char) -> (r: Option<u64>)
    ensures
        match r {
            None => spec_parse_timestamp(value@, decimal_separator) is None,
            Some(v) => spec_parse_timestamp(value@, decimal_separator) == Some(v as nat),
        },
{
    proof {
        crate::text::lemma_last_index_of(value@, decimal_separator);
    }
    let k = match find_last(value, decimal_separator) {
        None => return None,
        Some(k) => k,
    };
    let n = value.len();
    assert(k < n);
    let time_part = sub_chars(value, 0, k);
    let ms_part = sub_chars(value, k + 1, n);
    proof {
        assert(time_part@ =~= value@.take(k as int));
        assert(ms_part@ =~= value@.skip(k + 1));
    }
    let ms_trimmed = trim_chars(&ms_part);
    let ms = match parse_u64(&ms_trimmed) {
        None => return None,
        Some(v) => v,
    };
    let colon: Vec<char> = vec![':'];
    proof {
        assert(colon@ =~= seq![':']);
    }
    let parts = split_chars(&time_part, &colon);
    let ghost pv = vec_views(parts@);
    let secs: u64 = if parts.len() == 3 {
        proof {
            assert(pv[0] == parts@[0]@ && pv[1] == parts@[1]@ && pv[2] == parts@[2]@);
        }
        let h = match parse_u64(&parts[0]) {
            None => return None,
            Some(v) => v,
        };
        let m = match parse_u64(&parts[1]) {
            None => return None,
            Some(v) => v,
        };
        let s = match parse_u64(&parts[2]) {
            None => return None,
            Some(v) => v,
        };
        if h > (u64::MAX - s) / 3600 || m > (u64::MAX - s - h * 3600) / 60 {
            proof {
                assert(h * 3600 + m * 60 + s > u64::MAX) by (nonlinear_arith)
                    requires
                        h > (u64::MAX - s) / 3600 || (h <= (u64::MAX - s) / 3600 && m > (u64::MAX - s - h * 3600) / 60),
                ;
                assert((h * 3600 + m * 60 + s) * 1000 + ms > u64::MAX) by (nonlinear_arith)
                    requires
                        h * 3600 + m * 60 + s > u64::MAX,
                ;
            }
            return None;
        }
        proof {
            assert(h * 3600 + m * 60 + s <= u64::MAX) by (nonlinear_arith)
                requires
                    h <= (u64::MAX - s) / 3600,
                    m <= (u64::MAX - s - h * 3600) / 60,
            ;
        }
        h * 3600 + m * 60 + s
    } else if parts.len() == 2 {
        proof {
            assert(pv[0] == parts@[0]@ && pv[1] == parts@[1]@);
        }
        let m = match parse_u64(&parts[0]) {
            None => return None,
            Some(v) => v,
        };
        let s = match parse_u64(&parts[1]) {
            None => return None,
            Some(v) => v,
        };
        if m > (u64::MAX - s) / 60 {
            proof {
                assert(m * 60 + s > u64::MAX) by (nonlinear_arith)
                    requires
                        m > (u64::MAX - s) / 60,
                ;
                assert((m * 60 + s) * 1000 + ms > u64::MAX) by (nonlinear_arith)
                    requires
                        m * 60 + s > u64::MAX,
                ;
            }
            return None;
        }
        proof {
            assert(m * 60 + s <= u64::MAX) by (nonlinear_arith)
                requires
                    m <= (u64::MAX - s) / 60,
            ;
        }
        m * 60 + s
    } else {
        return None;
    };
    if secs > (u64::MAX - ms) / 1000 {
        proof {
            assert(secs * 1000 + ms > u64::MAX) by (nonlinear_arith)
                requires
                    secs > (u64::MAX - ms) / 1000,
            ;
        }
        return None;
    }
    proof {
        assert(secs * 1000 + ms <= u64::MAX) by (nonlinear_arith)
            requires
                secs <= (u64::MAX - ms) / 1000,
        ;
    }
    Some(secs * 1000 + ms)
}

/// A decimal rendering is all digits and reads back as its number.
proof fn lemma_decimal_digits(n: nat)
    ensures
        all_digits(decimal(n)),
        digits_value(decimal(n)) == n,
        decimal(n).len() >= 1,
    decreases n,
{
    lemma_decimal_len(n);
    if n >= 10 {
        lemma_decimal_digits(n / 10);
        let d = decimal(n);
        assert(d.drop_last() =~= decimal(n / 10));
        assert(d.last() == crate::text::digit_char(n % 10));
        assert(crate::text::digit_char(n % 10) as u32 == 48 + n % 10);
        assert(digits_value(d) == digits_value(d.drop_last()) * 10 + ((d.last() as u32) - 48) as nat);
    } else {
        assert(decimal(n).last() == crate::text::digit_char(n));
        assert(crate::text::digit_char(n) as u32 == 48 + n);
        assert(decimal(n).drop_last() =~= Seq::<char>::empty());
        assert(digits_value(Seq::<char>::empty()) == 0);
        assert(digits_value(decimal(n)) == digits_value(decimal(n).drop_last()) * 10 + ((decimal(n).last() as u32) - 48) as nat);
    }
}

/// A leading zero does not change a digit string's value.
proof fn lemma_zero_prefix(s: Seq<char>)
    ensures
        digits_value(seq!['0'] + s) == digits_value(s),
    decreases s.len(),
{
    if s.len() == 0 {
        assert((seq!['0'] + s).drop_last() =~= Seq::<char>::empty());
        assert((seq!['0'] + s).last() == '0');
        assert(('0' as u32) == 48);
        assert(digits_value(Seq::<char>::empty()) == 0);
        assert(digits_value(seq!['0'] + s) == digits_value((seq!['0'] + s).drop_last()) * 10 + (((seq!['0'] + s).last() as u32) - 48) as nat);
    } else {
        lemma_zero_prefix(s.drop_last());
        assert((seq!['0'] + s).drop_last() =~= seq!['0'] + s.drop_last());
        assert((seq!['0'] + s).last() == s.last());
        assert(digits_value(seq!['0'] + s) == digits_value((seq!['0'] + s).drop_last()) * 10 + (((seq!['0'] + s).last() as u32) - 48) as nat);
        assert(digits_value(s) == digits_value(s.drop_last()) * 10 + ((s.last() as u32) - 48) as nat);
    }
}

/// A padded number is a non-empty digit string holding its value.
proof fn lemma_padded_digits(n: nat)
    ensures
        all_digits(pad2(n)) && digits_value(pad2(n)) == n && pad2(n).len() >= 1,
        all_digits(pad3(n)) && digits_value(pad3(n)) == n && pad3(n).len() >= 1,
{
    lemma_decimal_digits(n);
    lemma_zero_prefix(decimal(n));
    lemma_zero_prefix(seq!['0'] + decimal(n));
    assert(seq!['0', '0'] + decimal(n) =~= seq!['0'] + (seq!['0'] + decimal(n)));
    let a = seq!['0'] + decimal(n);
    assert forall|i: int| 0 <= i < a.len() implies '0' <= #[trigger] a[i] && a[i] <= '9' by {
        if i > 0 {
            assert(a[i] == decimal(n)[i - 1]);
        }
    }
    let b = seq!['0', '0'] + decimal(n);
    assert forall|i: int| 0 <= i < b.len() implies '0' <= #[trigger] b[i] && b[i] <= '9' by {
        if i > 1 {
            assert(b[i] == decimal(n)[i - 2]);
        }
    }
}

/// A non-empty digit string is its own trim.
proof fn lemma_trim_digits(d: Seq<char>)
    requires
        d.len() >= 1,
        all_digits(d),
    ensures
        trim(d) == d,
{
    assert('0' <= d[0] && d[0] <= '9');
    assert('0' <= d.last() && d.last() <= '9');
}

/// A non-empty digit string parses as its value when that fits a `u64`.
proof fn lemma_parse_digits(d: Seq<char>)
    requires
        d.len() >= 1,
        all_digits(d),
        digits_value(d) <= u64::MAX,
    ensures
        spec_parse_u64(d) == Some(digits_value(d)),
{
    assert('0' <= d[0] && d[0] <= '9');
}

/// Splitting a text without `c` at `c` leaves it whole.
proof fn lemma_split_no_sep(x: Seq<char>, c: char)
    requires
        forall|i: int| 0 <= i < x.len() ==> #[trigger] x[i] != c,
    ensures
        split_on(x, seq![c]) == seq![x],
    decreases x.len(),
{
    if x.len() > 0 {
        assert(!starts_with(x, seq![c])) by {
            if starts_with(x, seq![c]) {
                assert(x.take(1)[0] == c);
            }
        }
        assert forall|i: int| 0 <= i < x.skip(1).len() implies #[trigger] x.skip(1)[i] != c by {
            assert(x.skip(1)[i] == x[i + 1]);
        }
        lemma_split_no_sep(x.skip(1), c);
        assert(seq![x[0]] + x.skip(1) =~= x);
    }
}

/// Splitting `x c y` at `c`, with no `c` in `x`, gives `x` then the pieces
/// of `y`.
proof fn lemma_split_first(x: Seq<char>, c: char, y: Seq<char>)
    requires
        forall|i: int| 0 <= i < x.len() ==> #[trigger] x[i] != c,
    ensures
        split_on(x + seq![c] + y, seq![c]) == seq![x] + split_on(y, seq![c]),
    decreases x.len(),
{
    let s = x + seq![c] + y;
    if x.len() == 0 {
        assert(s.take(1) =~= seq![c]);
        assert(s.skip(1) =~= y);
        assert(x =~= Seq::<char>::empty());
        assert(seq![Seq::<char>::empty()] + split_on(y, seq![c]) =~= seq![x] + split_on(y, seq![c]));
    } else {
        assert(!starts_with(s, seq![c])) by {
            if starts_with(s, seq![c]) {
                assert(s.take(1)[0] == c);
                assert(s[0] == x[0]);
            }
        }
        let x1 = x.skip(1);
        assert forall|i: int| 0 <= i < x1.len() implies #[trigger] x1[i] != c by {
            assert(x1[i] == x[i + 1]);
        }
        assert(s.skip(1) =~= x1 + seq![c] + y);
        lemma_split_first(x1, c, y);
        lemma_split_on_nonempty(y, seq![c]);
        let rest = split_on(s.skip(1), seq![c]);
        assert(seq![s[0]] + rest[0] =~= x);
        assert(rest.update(0, seq![s[0]] + rest[0]) =~= seq![x] + split_on(y, seq![c]));
    }
}

/// A padded number contains no character other than digits.
proof fn lemma_digits_avoid(d: Seq<char>, c: char)
    requires
        all_digits(d),
        !('0' <= c && c <= '9'),
    ensures
        forall|i: int| 0 <= i < d.len() ==> #[trigger] d[i] != c,
{
}

/// Formatting a time and reading it back gives the same number of
/// milliseconds, with either separator.
pub proof fn lemma_timestamp_round_trip(ms: u64, sep: char)
    requires
        sep == ',' || sep == '.',
    ensures
        spec_parse_timestamp(spec_format_timestamp(ms as nat, sep), sep) == Some(ms as nat),
{
    let total_s = (ms as nat) / 1000;
    let h = total_s / 3600;
    let m = (total_s / 60) % 60;
    let sec = total_s % 60;
    let f = (ms as nat) % 1000;
    lemma_padded_digits(h);
    lemma_padded_digits(m);
    lemma_padded_digits(sec);
    lemma_padded_digits(f);
    let time = pad2(h) + seq![':'] + pad2(m) + seq![':'] + pad2(sec);
    let v = spec_format_timestamp(ms as nat, sep);
    assert(v =~= time + seq![sep] + pad3(f));
    // The separator found last is the one before the milliseconds.
    crate::text::lemma_last_index_of(v, sep);
    let k = last_index_of(v, sep);
    assert(v[time.len() as int] == sep);
    lemma_digits_avoid(pad3(f), sep);
    assert forall|j: int| time.len() < j < v.len() implies v[j] != sep by {
        assert(v[j] == pad3(f)[j - time.len() - 1]);
    }
    assert(k == time.len());
    assert(v.take(k) =~= time);
    assert(v.skip(k + 1) =~= pad3(f));
    lemma_trim_digits(pad3(f));
    assert(f <= u64::MAX);
    lemma_parse_digits(pad3(f));
    // The time part splits into its three fields.
    lemma_digits_avoid(pad2(h), ':');
    lemma_digits_avoid(pad2(m), ':');
    lemma_digits_avoid(pad2(sec), ':');
    assert(time =~= pad2(h) + seq![':'] + (pad2(m) + seq![':'] + pad2(sec)));
    lemma_split_first(pad2(h), ':', pad2(m) + seq![':'] + pad2(sec));
    lemma_split_first(pad2(m), ':', pad2(sec));
    lemma_split_no_sep(pad2(sec), ':');
    let parts = split_on(time, seq![':']);
    assert(parts =~= seq![pad2(h), pad2(m), pad2(sec)]);
    assert(h <= u64::MAX && m <= u64::MAX && sec <= u64::MAX);
    lemma_parse_digits(pad2(h));
    lemma_parse_digits(pad2(m));
    lemma_parse_digits(pad2(sec));
    assert(h * 3600 + m * 60 + sec == total_s) by (nonlinear_arith)
        requires
            h == total_s / 3600,
            m == (total_s / 60) % 60,
            sec == total_s % 60,
    {
        let q = total_s / 60;
        assert(total_s == q * 60 + sec);
        assert(q == (q / 60) * 60 + m);
        assert(q / 60 == total_s / 3600);
    }
    assert(total_s * 1000 + f == ms as nat);
}

/// The `-->` arrow of a timing line.
pub open spec fn arrow() -> Seq<char> {
    seq!['-', '-', '>']
}

/// What a timing line `start --> end [settings]` reads as: the start
/// timestamp (trimmed) before the first arrow, and the first word after it.
pub open spec fn spec_parse_timing_line(line: Seq<char>, sep: char) -> Option<(nat, nat)> {
    match split_once(line, arrow()) {
        None => None,
        Some((a, rest)) => match spec_parse_timestamp(trim(a), sep) {
            None => None,
            Some(st) => match first_word(rest) {
                None => None,
                Some(w) => match spec_parse_timestamp(w, sep) {
                    None => None,
                    Some(en) => Some((st, en)),
                },
            },
        },
    }
}

/// Parses a timing line.
pub fn parse_timing_line(line: &Vec<char>, decimal_separator: char) -> (r: Option<(u64, u64)>)
    ensures
        match r {
            None => spec_parse_timing_line(line@, decimal_separator) is None,
            Some((a, b)) => spec_parse_timing_line(line@, decimal_separator) == Some((a as nat, b as nat)),
        },
{
    let arrow_v: Vec<char> = vec!['-', '-', '>'];
    proof {
        assert(arrow_v@ =~= arrow());
        lemma_find_first(line@, arrow());
    }
    let i = match find_chars(line, &arrow_v) {
        None => return None,
        Some(i) => i,
    };
    let n = line.len();
    let a = sub_chars(line, 0, i);
    let rest = sub_chars(line, i + 3, n);
    proof {
        assert(a@ =~= line@.take(i as int));
        assert(rest@ =~= line@.skip(i + 3));
    }
    let at = trim_chars(&a);
    let start = match parse_timestamp(&at, decimal_separator) {
        None => return None,
        Some(v) => v,
    };
    let w = match first_word_chars(&rest) {
        None => return None,
        Some(w) => w,
    };
    let end = match parse_timestamp(&w, decimal_separator) {
        None => return None,
        Some(v) => v,
    };
    Some((start, end))
}

/// The cue one SRT block holds: the trimmed block's lines are an optional
/// index line, a timing line (the first line when it holds an arrow, else
/// the second), then the text lines; a block without a readable timing
/// line holds none.
pub open spec fn srt_block_cue(block: Seq<char>) -> Option<(nat, nat, Seq<char>)> {
    let b = trim(block);
    let ls = spec_lines(b);
    if b.len() == 0 || ls.len() == 0 {
        None
    } else {
        let timing_at: int = if contains_seq(ls[0], arrow()) {
            0
        } else {
            1
        };
        if timing_at >= ls.len() {
            None
        } else {
            match spec_parse_timing_line(ls[timing_at], ',') {
                None => None,
                Some((st, en)) => Some((st, en, join_seq(ls.skip(timing_at + 1), seq!['\n']))),
            }
        }
    }
}

/// The cues of a list of blocks, in order.
pub open spec fn block_cues(blocks: Seq<Seq<char>>, vtt: bool) -> Seq<(nat, nat, Seq<char>)>
    decreases blocks.len(),
{
    if blocks.len() == 0 {
        Seq::empty()
    } else {
        let c = if vtt {
            vtt_block_cue(blocks.last())
        } else {
            srt_block_cue(blocks.last())
        };
        block_cues(blocks.drop_last(), vtt) + match c {
            Some(x) => seq![x],
            None => Seq::empty(),
        }
    }
}

/// The blocks of a subtitle file: `\r\n` normalized to `\n`, then split at
/// each blank line (`\n\n`).
pub open spec fn subtitle_blocks(input: Seq<char>) -> Seq<Seq<char>> {
    split_on(replace_all(input, seq!['\r', '\n'], seq!['\n']), seq!['\n', '\n'])
}

/// What [`parse_srt`] reads from SubRip text.
pub open spec fn spec_parse_srt(input: Seq<char>) -> Seq<(nat, nat, Seq<char>)> {
    block_cues(subtitle_blocks(input), false)
}

/// Index of the first line holding an arrow, or the number of lines.
pub open spec fn first_arrow_line(ls: Seq<Seq<char>>) -> int
    decreases ls.len(),
{
    if ls.len() == 0 {
        0
    } else if contains_seq(ls[0], arrow()) {
        0
    } else {
        1 + first_arrow_line(ls.skip(1))
    }
}

/// The cue one WebVTT block holds: the first line with an arrow is the
/// timing line and every later line is text; anything before it (the
/// header, a cue identifier, a note) is skipped.
pub open spec fn vtt_block_cue(block: Seq<char>) -> Option<(nat, nat, Seq<char>)> {
    let b = trim(block);
    let ls = spec_lines(b);
    let t = first_arrow_line(ls);
    if b.len() == 0 || t >= ls.len() {
        None
    } else {
        match spec_parse_timing_line(ls[t], '.') {
            None => None,
            Some((st, en)) => Some((st, en, join_seq(ls.skip(t + 1), seq!['\n']))),
        }
    }
}

/// What [`parse_vtt`] reads from WebVTT text.
pub open spec fn spec_parse_vtt(input: Seq<char>) -> Seq<(nat, nat, Seq<char>)> {
    block_cues(subtitle_blocks(input), true)
}

proof fn lemma_first_arrow_line(ls: Seq<Seq<char>>)
    ensures
        0 <= first_arrow_line(ls) <= ls.len(),
        first_arrow_line(ls) < ls.len() ==> contains_seq(ls[first_arrow_line(ls)], arrow()),
        forall|j: int| 0 <= j < first_arrow_line(ls) ==> !contains_seq(#[trigger] ls[j], arrow()),
    decreases ls.len(),
{
    if ls.len() > 0 && !contains_seq(ls[0], arrow()) {
        lemma_first_arrow_line(ls.skip(1));
        assert forall|j: int| 0 <= j < first_arrow_line(ls) implies !contains_seq(#[trigger] ls[j], arrow()) by {
            if j > 0 {
                assert(ls[j] == ls.skip(1)[j - 1]);
            }
        }
        if first_arrow_line(ls) < ls.len() {
            assert(ls[first_arrow_line(ls)] == ls.skip(1)[first_arrow_line(ls.skip(1))]);
        }
    }
}

/// Whether `line` holds an arrow.
fn has_arrow(line: &Vec<char>) -> (r: bool)
    ensures
        r == contains_seq(line@, arrow()),
{
    let arrow_v: Vec<char> = vec!['-', '-', '>'];
    proof {
        assert(arrow_v@ =~= arrow());
    }
    find_chars(line, &arrow_v).is_some()
}

/// The cue one block holds, for SubRip (`vtt` false) or WebVTT.
fn block_cue(block: &Vec<char>, vtt: bool) -> (r: Option<Cue>)
    ensures
        match r {
            None => (if vtt {
                vtt_block_cue(block@)
            } else {
                srt_block_cue(block@)
            }) is None,
            Some(c) => (if vtt {
                vtt_block_cue(block@)
            } else {
                srt_block_cue(block@)
            }) == Some(cue_view(c)),
        },
{
    let b = trim_chars(block);
    if b.len() == 0 {
        return None;
    }
    let ls = lines_of(&b);
    let ghost lv = vec_views(ls@);
    let n = ls.len();
    let t: usize = if vtt {
        proof {
            lemma_first_arrow_line(lv);
            assert(lv.skip(0) =~= lv);
        }
        let mut t: usize = 0;
        while t < n && !has_arrow(&ls[t])
            invariant
                t <= n,
                n == ls@.len(),
                lv == vec_views(ls@),
                first_arrow_line(lv.skip(t as int)) + t == first_arrow_line(lv),
            decreases n - t,
        {
            proof {
                assert(lv.skip(t as int)[0] == ls@[t as int]@);
                assert(lv.skip(t as int).skip(1) =~= lv.skip(t + 1));
            }
            t = t + 1;
        }
        proof {
            if t < n {
                assert(lv.skip(t as int)[0] == ls@[t as int]@);
            } else {
                assert(lv.skip(t as int).len() == 0);
            }
        }
        t
    } else {
        if n == 0 {
            return None;
        }
        if has_arrow(&ls[0]) {
            0
        } else {
            1
        }
    };
    if t >= n {
        return None;
    }
    let sep = if vtt {
        '.'
    } else {
        ','
    };
    let (st, en) = match parse_timing_line(&ls[t], sep) {
        None => return None,
        Some(p) => p,
    };
    let nl: Vec<char> = vec!['\n'];
    let text = join_vecs_from(&ls, t + 1, &nl);
    proof {
        assert(nl@ =~= seq!['\n']);
    }
    Some(Cue { start_ms: st, end_ms: en, text: string_from_chars(&text) })
}

/// Parses subtitle text into cues, block by block.
fn parse_blocks(input: &str, vtt: bool) -> (r: Vec<Cue>)
    ensures
        cue_views(r@) == block_cues(subtitle_blocks(input@), vtt),
{
    let s = chars_of(input);
    let crlf: Vec<char> = vec!['\r', '\n'];
    let lf: Vec<char> = vec!['\n'];
    proof {
        assert(crlf@ =~= seq!['\r', '\n']);
        assert(lf@ =~= seq!['\n']);
    }
    let normalized = replace_all_chars(&s, &crlf, &lf);
    let sep2: Vec<char> = vec!['\n', '\n'];
    proof {
        assert(sep2@ =~= seq!['\n', '\n']);
    }
    let blocks = split_chars(&normalized, &sep2);
    let ghost bv = vec_views(blocks@);
    let mut cues: Vec<Cue> = Vec::new();
    for i in 0..blocks.len()
        invariant
            bv == vec_views(blocks@),
            cue_views(cues@) == block_cues(bv.take(i as int), vtt),
    {
        proof {
            assert(bv.take(i + 1).drop_last() =~= bv.take(i as int));
            assert(bv.take(i + 1).last() == blocks@[i as int]@);
        }
        let ghost before = cues@;
        match block_cue(&blocks[i], vtt) {
            Some(c) => {
                let ghost cv = cue_view(c);
                cues.push(c);
                proof {
                    assert(cue_views(cues@) =~= cue_views(before).push(cv));
                    assert(cue_views(cues@) =~= block_cues(bv.take(i + 1), vtt));
                }
            },
            None => {
                proof {
                    assert(cue_views(cues@) =~= block_cues(bv.take(i + 1), vtt));
                }
            },
        }
    }
    proof {
        assert(bv.take(bv.len() as int) =~= bv);
    }
    cues
}

/// Parses SubRip (`.srt`) text: blocks separated by a blank line, each an
/// optional index line, a comma-decimal timing line, and text lines.
pub fn parse_srt(input: &str) -> (r: Vec<Cue>)
    ensures
        cue_views(r@) == spec_parse_srt(input@),
{
    parse_blocks(input, false)
}

/// Parses WebVTT (`.vtt`) text: the header, cue identifiers and notes are
/// skipped by taking each block's first arrow line as its timing line.
pub fn parse_vtt(input: &str) -> (r: Vec<Cue>)
    ensures
        cue_views(r@) == spec_parse_vtt(input@),
{
    parse_blocks(input, true)
}

/// One SubRip entry: 1-based index, comma-decimal timing, text, blank line.
pub open spec fn srt_entry(i: nat, c: (nat, nat, Seq<char>)) -> Seq<char> {
    decimal(i + 1) + seq!['\n'] + spec_format_timestamp(c.0, ',') + " --> "@ + spec_format_timestamp(c.1, ',')
        + seq!['\n'] + c.2 + seq!['\n', '\n']
}

/// One WebVTT entry: dot-decimal timing, text, blank line.
pub open spec fn vtt_entry(c: (nat, nat, Seq<char>)) -> Seq<char> {
    spec_format_timestamp(c.0, '.') + " --> "@ + spec_format_timestamp(c.1, '.') + seq!['\n'] + c.2
        + seq!['\n', '\n']
}

/// SubRip text for `cues`.
pub open spec fn spec_write_srt(cues: Seq<(nat, nat, Seq<char>)>) -> Seq<char>
    decreases cues.len(),
{
    if cues.len() == 0 {
        Seq::empty()
    } else {
        spec_write_srt(cues.drop_last()) + srt_entry((cues.len() - 1) as nat, cues.last())
    }
}

/// The WebVTT entries for `cues`, without the header.
pub open spec fn vtt_entries(cues: Seq<(nat, nat, Seq<char>)>) -> Seq<char>
    decreases cues.len(),
{
    if cues.len() == 0 {
        Seq::empty()
    } else {
        vtt_entries(cues.drop_last()) + vtt_entry(cues.last())
    }
}

/// WebVTT text for `cues`: the `WEBVTT` header, a blank line, the entries.
pub open spec fn spec_write_vtt(cues: Seq<(nat, nat, Seq<char>)>) -> Seq<char> {
    "WEBVTT\n\n"@ + vtt_entries(cues)
}

/// Plain text for `cues`: each cue's text, separated by blank lines.
pub open spec fn spec_write_txt(cues: Seq<(nat, nat, Seq<char>)>) -> Seq<char> {
    join_seq(cues.map_values(|c: (nat, nat, Seq<char>)| c.2), seq!['\n', '\n'])
}

/// Appends ` --> ` and the timing of a cue to `out`.
fn push_timing(out: &mut Vec<char>, c: &Cue, sep: char)
    ensures
        final(out)@ == old(out)@ + spec_format_timestamp(c.start_ms as nat, sep) + " --> "@
            + spec_format_timestamp(c.end_ms as nat, sep),
{
    let a = format_timestamp(c.start_ms, sep);
    push_all(out, &a);
    push_str(out, " --> ");
    let b = format_timestamp(c.end_ms, sep);
    push_all(out, &b);
}

/// Appends the SubRip entry of `c`, numbered `i + 1`, to `out`.
fn push_srt_entry(out: &mut Vec<char>, i: u64, c: &Cue)
    requires
        i < u64::MAX,
    ensures
        final(out)@ == old(out)@ + srt_entry(i as nat, cue_view(*c)),
{
    let index = decimal_chars(i + 1);
    push_all(out, &index);
    out.push('\n');
    push_timing(out, c, ',');
    out.push('\n');
    push_str(out, c.text.as_str());
    out.push('\n');
    out.push('\n');
    proof {
        assert(out@ =~= old(out)@ + srt_entry(i as nat, cue_view(*c)));
    }
}

/// Renders cues as SubRip.
pub fn write_srt(cues: &[Cue]) -> (r: String)
    ensures
        r@ == spec_write_srt(cue_views(cues@)),
{
    let ghost cv = cue_views(cues@);
    let mut out: Vec<char> = Vec::new();
    for i in 0..cues.len()
        invariant
            cv == cue_views(cues@),
            out@ == spec_write_srt(cv.take(i as int)),
    {
        proof {
            assert(cv.take(i + 1).drop_last() =~= cv.take(i as int));
            assert(cv.take(i + 1).last() == cue_view(cues@[i as int]));
        }
        push_srt_entry(&mut out, i as u64, &cues[i]);
    }
    proof {
        assert(cv.take(cv.len() as int) =~= cv);
    }
    string_from_chars(&out)
}

/// Appends the WebVTT entry of `c` to `out`.
fn push_vtt_entry(out: &mut Vec<char>, c: &Cue)
    ensures
        final(out)@ == old(out)@ + vtt_entry(cue_view(*c)),
{
    push_timing(out, c, '.');
    out.push('\n');
    push_str(out, c.text.as_str());
    out.push('\n');
    out.push('\n');
    proof {
        assert(out@ =~= old(out)@ + vtt_entry(cue_view(*c)));
    }
}

/// Renders cues as WebVTT.
pub fn write_vtt(cues: &[Cue]) -> (r: String)
    ensures
        r@ == spec_write_vtt(cue_views(cues@)),
{
    let ghost cv = cue_views(cues@);
    let mut out: Vec<char> = chars_of("WEBVTT\n\n");
    let ghost head = out@;
    for i in 0..cues.len()
        invariant
            cv == cue_views(cues@),
            head == "WEBVTT\n\n"@,
            out@ == head + vtt_entries(cv.take(i as int)),
    {
        proof {
            assert(cv.take(i + 1).drop_last() =~= cv.take(i as int));
            assert(cv.take(i + 1).last() == cue_view(cues@[i as int]));
        }
        push_vtt_entry(&mut out, &cues[i]);
    }
    proof {
        assert(cv.take(cv.len() as int) =~= cv);
    }
    string_from_chars(&out)
}

/// Renders cues as plain text: each cue's text on its own paragraph.
pub fn write_txt(cues: &[Cue]) -> (r: String)
    ensures
        r@ == spec_write_txt(cue_views(cues@)),
{
    let ghost texts = cue_views(cues@).map_values(|c: (nat, nat, Seq<char>)| c.2);
    let mut out: Vec<char> = Vec::new();
    if cues.len() == 0 {
        proof {
            assert(texts.len() == 0);
        }
        return string_from_chars(&out);
    }
    push_str(&mut out, cues[0].text.as_str());
    proof {
        assert(texts.take(1) =~= seq![texts[0]]);
    }
    for i in 1..cues.len()
        invariant
            texts == cue_views(cues@).map_values(|c: (nat, nat, Seq<char>)| c.2),
            out@ == join_seq(texts.take(i as int), seq!['\n', '\n']),
    {
        proof {
            assert(texts.take(i + 1).drop_last() =~= texts.take(i as int));
            assert(texts.take(i + 1).last() == cues@[i as int].text@);
        }
        out.push('\n');
        out.push('\n');
        push_str(&mut out, cues[i].text.as_str());
        proof {
            assert(out@ =~= join_seq(texts.take(i as int), seq!['\n', '\n']) + seq!['\n', '\n']
                + cues@[i as int].text@);
        }
    }
    proof {
        assert(texts.take(texts.len() as int) =~= texts);
    }
    string_from_chars(&out)
}

/// The non-blank lines of `ls`, each trimmed.
pub open spec fn trimmed_nonblank(ls: Seq<Seq<char>>) -> Seq<Seq<char>>
    decreases ls.len(),
{
    if ls.len() == 0 {
        Seq::empty()
    } else if trim(ls.last()).len() == 0 {
        trimmed_nonblank(ls.drop_last())
    } else {
        trimmed_nonblank(ls.drop_last()).push(trim(ls.last()))
    }
}

proof fn lemma_trimmed_nonblank_len(ls: Seq<Seq<char>>)
    ensures
        trimmed_nonblank(ls).len() <= ls.len(),
    decreases ls.len(),
{
    if ls.len() > 0 {
        lemma_trimmed_nonblank_len(ls.drop_last());
    }
}

/// Builds cues from plain text: one cue per non-blank line (trimmed), the
/// `i`-th starting at `3000 * i` ms and lasting 2500 ms.
pub fn cues_from_txt(input: &str) -> (r: Vec<Cue>)
    requires
        input@.len() <= 0x1_0000_0000_0000,
    ensures
        r@.len() == trimmed_nonblank(spec_lines(input@)).len(),
        forall|i: int|
            0 <= i < r@.len() ==> (#[trigger] r@[i]).start_ms == 3000 * i && r@[i].end_ms == 3000 * i + 2500
                && r@[i].text@ == trimmed_nonblank(spec_lines(input@))[i],
{
    let s = chars_of(input);
    let ls = lines_of(&s);
    let ghost lv = vec_views(ls@);
    proof {
        crate::text::lemma_lines_len(s@);
    }
    let mut cues: Vec<Cue> = Vec::new();
    let mut index: u64 = 0;
    for i in 0..ls.len()
        invariant
            lv == vec_views(ls@),
            lv.len() <= s@.len() + 1,
            s@.len() <= 0x1_0000_0000_0000,
            index == cues@.len(),
            cues@.len() == trimmed_nonblank(lv.take(i as int)).len(),
            trimmed_nonblank(lv.take(i as int)).len() <= i,
            forall|k: int|
                0 <= k < cues@.len() ==> (#[trigger] cues@[k]).start_ms == 3000 * k && cues@[k].end_ms
                    == 3000 * k + 2500 && cues@[k].text@ == trimmed_nonblank(lv.take(i as int))[k],
    {
        proof {
            assert(lv.take(i + 1).drop_last() =~= lv.take(i as int));
            assert(lv.take(i + 1).last() == ls@[i as int]@);
        }
        let line = trim_chars(&ls[i]);
        if line.len() > 0 {
            let start = index * 3000;
            cues.push(Cue { start_ms: start, end_ms: start + 2500, text: string_from_chars(&line) });
            index = index + 1;
        }
    }
    proof {
        assert(lv.take(lv.len() as int) =~= lv);
    }
    cues
}

/// The cues plain text yields, as plain values.
pub open spec fn txt_cue_views(text: Seq<char>) -> Seq<(nat, nat, Seq<char>)> {
    let ls = trimmed_nonblank(spec_lines(text));
    Seq::new(ls.len(), |i: int| ((3000 * i) as nat, (3000 * i + 2500) as nat, ls[i]))
}

/// What `cues_from_txt` promises, as plain values.
pub proof fn lemma_txt_cue_views(text: Seq<char>, cues: Seq<Cue>)
    requires
        cues.len() == trimmed_nonblank(spec_lines(text)).len(),
        forall|i: int|
            0 <= i < cues.len() ==> (#[trigger] cues[i]).start_ms == 3000 * i && cues[i].end_ms == 3000 * i + 2500
                && cues[i].text@ == trimmed_nonblank(spec_lines(text))[i],
    ensures
        cue_views(cues) == txt_cue_views(text),
{
    assert(cue_views(cues) =~= txt_cue_views(text));
}

/// `n` zero-padded to three digits.
pub fn pad3_chars(n: u64) -> (r: Vec<char>)
    ensures
        r@ == pad3(n as nat),
{
    padded(n, 3)
}

/// A character a formatted timestamp is made of.
pub open spec fn stamp_char(c: char) -> bool {
    ('0' <= c && c <= '9') || c == ':' || c == ',' || c == '.'
}

proof fn lemma_all_concat(a: Seq<char>, b: Seq<char>, pred: spec_fn(char) -> bool)
    requires
        forall|j: int| 0 <= j < a.len() ==> pred(#[trigger] a[j]),
        forall|j: int| 0 <= j < b.len() ==> pred(#[trigger] b[j]),
    ensures
        forall|j: int| 0 <= j < (a + b).len() ==> pred(#[trigger] (a + b)[j]),
{
    assert forall|j: int| 0 <= j < (a + b).len() implies pred(#[trigger] (a + b)[j]) by {
        if j < a.len() {
            assert((a + b)[j] == a[j]);
        } else {
            assert((a + b)[j] == b[j - a.len()]);
        }
    }
}

/// A formatted timestamp is made of digits, colons and the separator, and
/// begins and ends with a digit.
proof fn lemma_stamp_chars(ms: nat, sep: char)
    requires
        sep == ',' || sep == '.',
    ensures
        ({
            let f = spec_format_timestamp(ms, sep);
            &&& f.len() > 0
            &&& '0' <= f[0] && f[0] <= '9'
            &&& '0' <= f.last() && f.last() <= '9'
            &&& forall|j: int| 0 <= j < f.len() ==> stamp_char(#[trigger] f[j])
        }),
{
    let total_s = ms / 1000;
    let h = pad2(total_s / 3600);
    let m = pad2((total_s / 60) % 60);
    let sec = pad2(total_s % 60);
    let fr = pad3(ms % 1000);
    lemma_padded_digits(total_s / 3600);
    lemma_padded_digits((total_s / 60) % 60);
    lemma_padded_digits(total_s % 60);
    lemma_padded_digits(ms % 1000);
    let pred = |c: char| stamp_char(c);
    let colon = seq![':'];
    let sp = seq![sep];
    assert forall|j: int| 0 <= j < h.len() implies pred(#[trigger] h[j]) by {}
    assert forall|j: int| 0 <= j < m.len() implies pred(#[trigger] m[j]) by {}
    assert forall|j: int| 0 <= j < sec.len() implies pred(#[trigger] sec[j]) by {}
    assert forall|j: int| 0 <= j < fr.len() implies pred(#[trigger] fr[j]) by {}
    assert forall|j: int| 0 <= j < colon.len() implies pred(#[trigger] colon[j]) by {}
    assert forall|j: int| 0 <= j < sp.len() implies pred(#[trigger] sp[j]) by {}
    lemma_all_concat(h, colon, pred);
    lemma_all_concat(h + colon, m, pred);
    lemma_all_concat(h + colon + m, colon, pred);
    lemma_all_concat(h + colon + m + colon, sec, pred);
    lemma_all_concat(h + colon + m + colon + sec, sp, pred);
    lemma_all_concat(h + colon + m + colon + sec + sp, fr, pred);
    let f = spec_format_timestamp(ms, sep);
    assert(f =~= h + colon + m + colon + sec + sp + fr);
    assert(f[0] == h[0]);
    assert(f.last() == fr.last());
}

proof fn lemma_word_end_whole(t: Seq<char>)
    requires
        forall|j: int| 0 <= j < t.len() ==> !is_unicode_whitespace(#[trigger] t[j]),
    ensures
        crate::text::word_end(t) == t.len(),
    decreases t.len(),
{
    if t.len() > 0 {
        let t1 = t.skip(1);
        assert forall|j: int| 0 <= j < t1.len() implies !is_unicode_whitespace(#[trigger] t1[j]) by {
            assert(t1[j] == t[j + 1]);
        }
        lemma_word_end_whole(t1);
    }
}

/// The timing line written for a cue running from `a` to `b`.
pub open spec fn timing_line(a: nat, b: nat, sep: char) -> Seq<char> {
    spec_format_timestamp(a, sep) + " --> "@ + spec_format_timestamp(b, sep)
}

/// A written timing line reads back as the times it was written for; it
/// holds an arrow, begins and ends with a digit, and holds no line break,
/// carriage return or white space other than its two spaces.
#[verifier::rlimit(50)]
#[verifier::spinoff_prover]
proof fn lemma_timing_line(a: nat, b: nat, sep: char)
    requires
        a <= u64::MAX,
        b <= u64::MAX,
        sep == ',' || sep == '.',
    ensures
        ({
            let t = timing_line(a, b, sep);
            &&& spec_parse_timing_line(t, sep) == Some((a, b))
            &&& contains_seq(t, arrow())
            &&& t.len() > 0
            &&& '0' <= t[0] && t[0] <= '9'
            &&& '0' <= t.last() && t.last() <= '9'
            &&& forall|j: int| 0 <= j < t.len() ==> #[trigger] t[j] != '\n' && t[j] != '\r'
        }),
{
    reveal_strlit(" --> ");
    let fa = spec_format_timestamp(a, sep);
    let fb = spec_format_timestamp(b, sep);
    lemma_stamp_chars(a, sep);
    lemma_stamp_chars(b, sep);
    let t = timing_line(a, b, sep);
    let u = fa + seq![' '];
    let v = seq![' '] + fb;
    assert(t =~= u + arrow() + v);
    assert forall|j: int| 0 <= j < u.len() implies #[trigger] u[j] != arrow()[0] by {
        if j < fa.len() {
            assert(u[j] == fa[j]);
            assert(stamp_char(fa[j]));
        }
    }
    crate::text::lemma_find_first_at(u, arrow(), v);
    assert(split_once(t, arrow()) == Some((t.take(u.len() as int), t.skip(u.len() as int + 3))));
    assert(t.take(u.len() as int) =~= u);
    assert(t.skip(u.len() as int + 3) =~= v);
    // the start time: trimmed of the space before the arrow
    assert(trim_start(u) == u);
    assert(u.drop_last() =~= fa);
    assert(trim_end(u) == trim_end(fa));
    assert(trim_end(fa) == fa);
    assert(trim(u) == fa);
    lemma_timestamp_round_trip(a as u64, sep);
    // the end time: the first word after the arrow
    assert(v.skip(1) =~= fb);
    assert(trim_start(v) == trim_start(fb));
    assert(trim_start(fb) == fb);
    assert forall|j: int| 0 <= j < fb.len() implies !is_unicode_whitespace(#[trigger] fb[j]) by {
        assert(stamp_char(fb[j]));
    }
    lemma_word_end_whole(fb);
    assert(fb.take(fb.len() as int) =~= fb);
    assert(first_word(v) == Some(fb));
    lemma_timestamp_round_trip(b as u64, sep);
    assert(t[0] == fa[0]);
    assert(t.last() == fb.last());
    assert forall|j: int| 0 <= j < t.len() implies #[trigger] t[j] != '\n' && t[j] != '\r' by {
        if j < fa.len() {
            assert(t[j] == fa[j]);
            assert(stamp_char(fa[j]));
        } else if j >= fa.len() + 5 {
            assert(t[j] == fb[j - fa.len() - 5]);
            assert(stamp_char(fb[j - fa.len() - 5]));
        }
    }
}

/// No two line breaks in a row.
pub open spec fn no_blank_line(s: Seq<char>) -> bool {
    forall|i: int| 0 <= i < s.len() - 1 ==> !(#[trigger] s[i] == '\n' && s[i + 1] == '\n')
}

/// A cue text that reads back unchanged: not empty, no white space at
/// either end, no carriage return right before a line break, and no blank
/// line inside.
pub open spec fn plain_cue_text(t: Seq<char>) -> bool {
    &&& t.len() > 0
    &&& !is_unicode_whitespace(t[0])
    &&& !is_unicode_whitespace(t.last())
    &&& no_crlf(t)
    &&& no_blank_line(t)
}

/// A cue that survives being written and read back: times that fit in 64
/// bits and a plain text.
pub open spec fn round_trip_cue(c: (nat, nat, Seq<char>)) -> bool {
    c.0 <= u64::MAX && c.1 <= u64::MAX && plain_cue_text(c.2)
}

/// A line without line breaks, a line break, then a text with no blank
/// line that does not begin with a line break: still no blank line.
proof fn lemma_no_blank_join(x: Seq<char>, y: Seq<char>)
    requires
        forall|j: int| 0 <= j < x.len() ==> #[trigger] x[j] != '\n',
        y.len() > 0,
        y[0] != '\n',
        no_blank_line(y),
    ensures
        no_blank_line(x + seq!['\n'] + y),
        (x + seq!['\n'] + y).last() == y.last(),
        (x + seq!['\n'] + y).len() > 0,
{
    let s = x + seq!['\n'] + y;
    assert forall|i: int| 0 <= i < s.len() - 1 implies !(#[trigger] s[i] == '\n' && s[i + 1] == '\n') by {
        if i < x.len() {
            assert(s[i] == x[i]);
        } else if i == x.len() {
            assert(s[i + 1] == y[0]);
        } else {
            assert(s[i] == y[i - x.len() - 1]);
            assert(s[i + 1] == y[i - x.len()]);
        }
    }
    assert(s.last() == y[y.len() - 1]);
}

/// A line without carriage returns, a line break, then a text with no
/// carriage return before a line break: still none.
proof fn lemma_no_crlf_join(x: Seq<char>, y: Seq<char>)
    requires
        forall|j: int| 0 <= j < x.len() ==> #[trigger] x[j] != '\r',
        no_crlf(y),
    ensures
        no_crlf(x + seq!['\n'] + y),
{
    let s = x + seq!['\n'] + y;
    assert forall|i: int| 0 <= i < s.len() - 1 implies !(#[trigger] s[i] == '\r' && s[i + 1] == '\n') by {
        if i < x.len() {
            assert(s[i] == x[i]);
        } else if i > x.len() {
            assert(s[i] == y[i - x.len() - 1]);
            assert(s[i + 1] == y[i - x.len()]);
        }
    }
}

/// Two texts with no carriage return before a line break, the first not
/// ending in a carriage return, joined by a blank line: still none.
proof fn lemma_no_crlf_blank_join(b: Seq<char>, e: Seq<char>)
    requires
        b.len() > 0,
        b.last() != '\r',
        no_crlf(b),
        no_crlf(e),
    ensures
        no_crlf(b + seq!['\n', '\n'] + e),
{
    let s = b + seq!['\n', '\n'] + e;
    assert forall|i: int| 0 <= i < s.len() - 1 implies !(#[trigger] s[i] == '\r' && s[i + 1] == '\n') by {
        if i < b.len() - 1 {
            assert(s[i] == b[i]);
            assert(s[i + 1] == b[i + 1]);
        } else if i == b.len() - 1 {
            assert(s[i] == b.last());
        } else if i >= b.len() + 2 {
            assert(s[i] == e[i - b.len() - 2]);
            assert(s[i + 1] == e[i - b.len() - 1]);
        }
    }
}

/// With no carriage return before a line break, replacing each such pair
/// by a line break changes nothing.
proof fn lemma_crlf_replace_none(w: Seq<char>)
    requires
        no_crlf(w),
    ensures
        replace_all(w, seq!['\r', '\n'], seq!['\n']) == w,
{
    let p = seq!['\r', '\n'];
    assert forall|j: int| 0 <= j < w.len() implies !starts_with(#[trigger] w.skip(j), p) by {
        if starts_with(w.skip(j), p) {
            assert(w.skip(j).take(2) =~= p);
            assert(w.skip(j).take(2)[0] == w[j]);
            assert(w.skip(j).take(2)[1] == w[j + 1]);
        }
    }
    crate::text::lemma_replace_none(w, p, seq!['\n']);
}

/// A block without a blank line that does not end in a line break, then a
/// blank line: splitting at blank lines takes the block off the front.
proof fn lemma_split_block(b: Seq<char>, r: Seq<char>)
    requires
        b.len() > 0,
        b.last() != '\n',
        no_blank_line(b),
    ensures
        split_on(b + seq!['\n', '\n'] + r, seq!['\n', '\n']) == seq![b] + split_on(r, seq!['\n', '\n']),
{
    let p = seq!['\n', '\n'];
    let s = b + p + r;
    assert forall|j: int| 0 <= j < b.len() implies !starts_with(#[trigger] (b + p + r).skip(j), p) by {
        if starts_with(s.skip(j), p) {
            assert(s.skip(j).take(2) =~= p);
            assert(s.skip(j).take(2)[0] == s[j]);
            assert(s.skip(j).take(2)[1] == s[j + 1]);
            if j < b.len() - 1 {
                assert(s[j] == b[j] && s[j + 1] == b[j + 1]);
            } else {
                assert(s[j] == b.last());
            }
        }
    }
    crate::text::lemma_split_at_first(b, p, r);
}

/// The block a WebVTT cue is written as, before its blank line.
pub open spec fn vtt_block(c: (nat, nat, Seq<char>)) -> Seq<char> {
    timing_line(c.0, c.1, '.') + seq!['\n'] + c.2
}

/// The block a SubRip cue with index `k` is written as, before its blank line.
pub open spec fn srt_block(k: nat, c: (nat, nat, Seq<char>)) -> Seq<char> {
    decimal(k + 1) + seq!['\n'] + timing_line(c.0, c.1, ',') + seq!['\n'] + c.2
}

proof fn lemma_trim_plain(b: Seq<char>)
    requires
        b.len() > 0,
        !is_unicode_whitespace(b[0]),
        !is_unicode_whitespace(b.last()),
    ensures
        trim(b) == b,
{
    assert(trim_start(b) == b);
    assert(trim_end(b) == b);
}

/// A written WebVTT block reads back as its cue.
proof fn lemma_vtt_block(c: (nat, nat, Seq<char>))
    requires
        round_trip_cue(c),
    ensures
        vtt_block_cue(vtt_block(c)) == Some(c),
        vtt_block(c).len() > 0,
        vtt_block(c).last() != '\n',
        no_blank_line(vtt_block(c)),
        no_crlf(vtt_block(c)),
        vtt_block(c).last() != '\r',
{
    let tl = timing_line(c.0, c.1, '.');
    let t = c.2;
    let b = vtt_block(c);
    lemma_timing_line(c.0, c.1, '.');
    assert('\n' != t[0]) by {
        assert(is_unicode_whitespace('\n'));
    }
    assert('\n' != t.last()) by {
        assert(is_unicode_whitespace('\n'));
    }
    lemma_no_blank_join(tl, t);
    assert(b[0] == tl[0]);
    assert(!is_unicode_whitespace(b[0]));
    lemma_trim_plain(b);
    lemma_no_crlf_join(tl, t);
    assert('\r' != t.last()) by {
        assert(is_unicode_whitespace('\r'));
    }
    crate::text::lemma_lines_plain(b);
    assert forall|j: int| 0 <= j < tl.len() implies #[trigger] tl[j] != '\n' by {}
    lemma_split_first(tl, '\n', t);
    let ls = spec_lines(b);
    assert(ls == seq![tl] + split_on(t, seq!['\n']));
    assert(ls[0] == tl);
    assert(first_arrow_line(ls) == 0);
    assert(ls.skip(1) =~= split_on(t, seq!['\n']));
    crate::text::lemma_join_split(t, '\n');
}

/// A written SubRip block reads back as its cue.
proof fn lemma_srt_block(k: nat, c: (nat, nat, Seq<char>))
    requires
        round_trip_cue(c),
    ensures
        srt_block_cue(srt_block(k, c)) == Some(c),
        srt_block(k, c).len() > 0,
        srt_block(k, c).last() != '\n',
        no_blank_line(srt_block(k, c)),
        no_crlf(srt_block(k, c)),
        srt_block(k, c).last() != '\r',
{
    let d = decimal(k + 1);
    let tl = timing_line(c.0, c.1, ',');
    let t = c.2;
    let inner = tl + seq!['\n'] + t;
    let b = srt_block(k, c);
    assert(b =~= d + seq!['\n'] + inner);
    lemma_decimal_digits(k + 1);
    lemma_timing_line(c.0, c.1, ',');
    assert('\n' != t[0]) by {
        assert(is_unicode_whitespace('\n'));
    }
    assert('\n' != t.last()) by {
        assert(is_unicode_whitespace('\n'));
    }
    lemma_no_blank_join(tl, t);
    assert(inner[0] == tl[0]);
    assert forall|j: int| 0 <= j < d.len() implies #[trigger] d[j] != '\n' by {}
    lemma_no_blank_join(d, inner);
    assert(b[0] == d[0]);
    lemma_trim_plain(b);
    lemma_no_crlf_join(tl, t);
    assert forall|j: int| 0 <= j < d.len() implies #[trigger] d[j] != '\r' by {}
    lemma_no_crlf_join(d, inner);
    assert('\r' != t.last()) by {
        assert(is_unicode_whitespace('\r'));
    }
    crate::text::lemma_lines_plain(b);
    lemma_split_first(d, '\n', inner);
    assert forall|j: int| 0 <= j < tl.len() implies #[trigger] tl[j] != '\n' by {}
    lemma_split_first(tl, '\n', t);
    let ls = spec_lines(b);
    assert(ls =~= seq![d, tl] + split_on(t, seq!['\n']));
    assert(ls[0] == d);
    assert(ls[1] == tl);
    assert forall|j: int| 0 <= j < d.len() implies #[trigger] d[j] != arrow()[0] by {}
    crate::text::lemma_find_absent(d, arrow());
    assert(!contains_seq(ls[0], arrow()));
    assert(ls.skip(2) =~= split_on(t, seq!['\n']));
    crate::text::lemma_join_split(t, '\n');
}

proof fn lemma_block_cues_concat(xs: Seq<Seq<char>>, ys: Seq<Seq<char>>, vtt: bool)
    ensures
        block_cues(xs + ys, vtt) == block_cues(xs, vtt) + block_cues(ys, vtt),
    decreases ys.len(),
{
    if ys.len() == 0 {
        assert(xs + ys =~= xs);
        assert(block_cues(ys, vtt) =~= Seq::<(nat, nat, Seq<char>)>::empty());
    } else {
        lemma_block_cues_concat(xs, ys.drop_last(), vtt);
        assert((xs + ys).drop_last() =~= xs + ys.drop_last());
        assert((xs + ys).last() == ys.last());
    }
}

proof fn lemma_vtt_entries_concat(xs: Seq<(nat, nat, Seq<char>)>, ys: Seq<(nat, nat, Seq<char>)>)
    ensures
        vtt_entries(xs + ys) == vtt_entries(xs) + vtt_entries(ys),
    decreases ys.len(),
{
    if ys.len() == 0 {
        assert(xs + ys =~= xs);
        assert(vtt_entries(xs) + vtt_entries(ys) =~= vtt_entries(xs));
    } else {
        lemma_vtt_entries_concat(xs, ys.drop_last());
        assert((xs + ys).drop_last() =~= xs + ys.drop_last());
        assert((xs + ys).last() == ys.last());
        assert(vtt_entries(xs) + vtt_entries(ys.drop_last()) + vtt_entry(ys.last()) =~= vtt_entries(xs) + (
        vtt_entries(ys.drop_last()) + vtt_entry(ys.last())));
    }
}

proof fn lemma_single_block(b: Seq<char>, vtt: bool)
    ensures
        block_cues(seq![b], vtt) == match (if vtt {
            vtt_block_cue(b)
        } else {
            srt_block_cue(b)
        }) {
            Some(x) => seq![x],
            None => Seq::<(nat, nat, Seq<char>)>::empty(),
        },
{
    assert(seq![b].drop_last() =~= Seq::<Seq<char>>::empty());
    assert(seq![b].last() == b);
    assert(block_cues(Seq::<Seq<char>>::empty(), vtt) == Seq::<(nat, nat, Seq<char>)>::empty());
    assert(Seq::<(nat, nat, Seq<char>)>::empty() + seq![(0nat, 0nat, Seq::<char>::empty())] =~= seq![
        (0nat, 0nat, Seq::<char>::empty()),
    ]);
    match (if vtt {
        vtt_block_cue(b)
    } else {
        srt_block_cue(b)
    }) {
        Some(x) => {
            assert(Seq::<(nat, nat, Seq<char>)>::empty() + seq![x] =~= seq![x]);
        },
        None => {
            assert(Seq::<(nat, nat, Seq<char>)>::empty() + Seq::<(nat, nat, Seq<char>)>::empty() =~= Seq::<
                (nat, nat, Seq<char>),
            >::empty());
        },
    }
}

proof fn lemma_vtt_entries_front(c: (nat, nat, Seq<char>), rest: Seq<(nat, nat, Seq<char>)>)
    ensures
        vtt_entries(seq![c] + rest) == vtt_block(c) + seq!['\n', '\n'] + vtt_entries(rest),
{
    reveal_strlit(" --> ");
    lemma_vtt_entries_concat(seq![c], rest);
    assert(seq![c].drop_last() =~= Seq::<(nat, nat, Seq<char>)>::empty());
    assert(seq![c].last() == c);
    assert(vtt_entries(Seq::<(nat, nat, Seq<char>)>::empty()) == Seq::<char>::empty());
    assert(vtt_entries(seq![c]) == vtt_entries(seq![c].drop_last()) + vtt_entry(seq![c].last()));
    assert(vtt_entries(seq![c]) =~= vtt_entry(c));
    assert(vtt_entry(c) =~= vtt_block(c) + seq!['\n', '\n']);
}

/// The WebVTT entries of round-trip cues hold no carriage return before a
/// line break.
proof fn lemma_vtt_entries_no_crlf(cues: Seq<(nat, nat, Seq<char>)>)
    requires
        forall|i: int| 0 <= i < cues.len() ==> round_trip_cue(#[trigger] cues[i]),
    ensures
        no_crlf(vtt_entries(cues)),
    decreases cues.len(),
{
    if cues.len() > 0 {
        let c = cues[0];
        let rest = cues.skip(1);
        assert forall|i: int| 0 <= i < rest.len() implies round_trip_cue(#[trigger] rest[i]) by {
            assert(rest[i] == cues[i + 1]);
        }
        lemma_vtt_entries_no_crlf(rest);
        assert(cues =~= seq![c] + rest);
        lemma_vtt_entries_front(c, rest);
        lemma_vtt_block(c);
        lemma_no_crlf_blank_join(vtt_block(c), vtt_entries(rest));
    } else {
        assert(vtt_entries(cues) =~= Seq::<char>::empty());
    }
}

/// The WebVTT entries of round-trip cues split at blank lines read back as
/// the cues.
proof fn lemma_vtt_entries_read(cues: Seq<(nat, nat, Seq<char>)>)
    requires
        forall|i: int| 0 <= i < cues.len() ==> round_trip_cue(#[trigger] cues[i]),
    ensures
        block_cues(split_on(vtt_entries(cues), seq!['\n', '\n']), true) == cues,
    decreases cues.len(),
{
    let p = seq!['\n', '\n'];
    if cues.len() == 0 {
        assert(vtt_entries(cues) =~= Seq::<char>::empty());
        assert(split_on(Seq::<char>::empty(), p) == seq![Seq::<char>::empty()]);
        lemma_single_block(Seq::<char>::empty(), true);
        assert(vtt_block_cue(Seq::<char>::empty()) is None);
    } else {
        let c = cues[0];
        let rest = cues.skip(1);
        assert forall|i: int| 0 <= i < rest.len() implies round_trip_cue(#[trigger] rest[i]) by {
            assert(rest[i] == cues[i + 1]);
        }
        lemma_vtt_entries_read(rest);
        assert(cues =~= seq![c] + rest);
        lemma_vtt_entries_front(c, rest);
        let b = vtt_block(c);
        lemma_vtt_block(c);
        let e = vtt_entries(rest);
        lemma_split_block(b, e);
        lemma_block_cues_concat(seq![b], split_on(e, p), true);
        lemma_single_block(b, true);
    }
}

/// The header line of a WebVTT file.
spec fn vtt_header() -> Seq<char> {
    seq!['W', 'E', 'B', 'V', 'T', 'T']
}

/// Writing round-trip cues as WebVTT and reading the text back gives the
/// same cues: times to the millisecond and texts unchanged.
pub proof fn lemma_vtt_round_trip(cues: Seq<(nat, nat, Seq<char>)>)
    requires
        forall|i: int| 0 <= i < cues.len() ==> round_trip_cue(#[trigger] cues[i]),
    ensures
        spec_parse_vtt(spec_write_vtt(cues)) == cues,
{
    reveal_strlit("WEBVTT\n\n");
    let p = seq!['\n', '\n'];
    let h = vtt_header();
    let e = vtt_entries(cues);
    let w = spec_write_vtt(cues);
    assert(w =~= h + p + e);
    lemma_vtt_entries_read(cues);
    lemma_vtt_entries_no_crlf(cues);
    assert(no_crlf(h)) by {
        assert forall|j: int| 0 <= j < h.len() implies #[trigger] h[j] != '\r' by {}
    }
    lemma_no_crlf_blank_join(h, e);
    lemma_crlf_replace_none(w);
    assert(no_blank_line(h));
    lemma_split_block(h, e);
    lemma_block_cues_concat(seq![h], split_on(e, p), true);
    // the header block holds no cue
    lemma_trim_plain(h);
    crate::text::lemma_lines_plain(h);
    lemma_split_no_sep(h, '\n');
    assert forall|j: int| 0 <= j < h.len() implies #[trigger] h[j] != arrow()[0] by {}
    crate::text::lemma_find_absent(h, arrow());
    assert(spec_lines(h) == seq![h]);
    assert(first_arrow_line(seq![h]) == 1 + first_arrow_line(seq![h].skip(1)));
    assert(seq![h].skip(1) =~= Seq::<Seq<char>>::empty());
    assert(vtt_block_cue(h) is None);
    lemma_single_block(h, true);
    assert(Seq::<(nat, nat, Seq<char>)>::empty() + cues =~= cues);
}

/// The SubRip entries for `cues`, numbered from index `k` on.
spec fn srt_from(cues: Seq<(nat, nat, Seq<char>)>, k: nat) -> Seq<char>
    decreases cues.len(),
{
    if cues.len() == 0 {
        Seq::empty()
    } else {
        srt_entry(k, cues[0]) + srt_from(cues.skip(1), k + 1)
    }
}

proof fn lemma_srt_from_push(xs: Seq<(nat, nat, Seq<char>)>, c: (nat, nat, Seq<char>), k: nat)
    ensures
        srt_from(xs.push(c), k) == srt_from(xs, k) + srt_entry(k + xs.len(), c),
    decreases xs.len(),
{
    let ys = xs.push(c);
    if xs.len() == 0 {
        assert(ys.skip(1) =~= Seq::<(nat, nat, Seq<char>)>::empty());
        assert(ys[0] == c);
        assert(srt_from(ys, k) == srt_entry(k, c) + srt_from(ys.skip(1), k + 1));
        assert(srt_from(ys, k) =~= srt_entry(k, c));
        assert(srt_from(xs, k) + srt_entry(k + xs.len(), c) =~= srt_entry(k, c));
    } else {
        lemma_srt_from_push(xs.skip(1), c, k + 1);
        assert(ys.skip(1) =~= xs.skip(1).push(c));
        assert(ys[0] == xs[0]);
        assert(srt_entry(k, xs[0]) + (srt_from(xs.skip(1), k + 1) + srt_entry(k + 1 + xs.skip(1).len(), c))
            =~= srt_entry(k, xs[0]) + srt_from(xs.skip(1), k + 1) + srt_entry(k + xs.len(), c));
    }
}

proof fn lemma_write_srt_from(cues: Seq<(nat, nat, Seq<char>)>)
    ensures
        spec_write_srt(cues) == srt_from(cues, 0),
    decreases cues.len(),
{
    if cues.len() > 0 {
        lemma_write_srt_from(cues.drop_last());
        lemma_srt_from_push(cues.drop_last(), cues.last(), 0);
        assert(cues.drop_last().push(cues.last()) =~= cues);
    }
}

proof fn lemma_srt_from_front(cues: Seq<(nat, nat, Seq<char>)>, k: nat)
    requires
        cues.len() > 0,
    ensures
        srt_from(cues, k) == srt_block(k, cues[0]) + seq!['\n', '\n'] + srt_from(cues.skip(1), k + 1),
{
    reveal_strlit(" --> ");
    assert(srt_entry(k, cues[0]) =~= srt_block(k, cues[0]) + seq!['\n', '\n']);
}

/// The SubRip entries of round-trip cues hold no carriage return before a
/// line break.
proof fn lemma_srt_from_no_crlf(cues: Seq<(nat, nat, Seq<char>)>, k: nat)
    requires
        forall|i: int| 0 <= i < cues.len() ==> round_trip_cue(#[trigger] cues[i]),
    ensures
        no_crlf(srt_from(cues, k)),
    decreases cues.len(),
{
    if cues.len() > 0 {
        let rest = cues.skip(1);
        assert forall|i: int| 0 <= i < rest.len() implies round_trip_cue(#[trigger] rest[i]) by {
            assert(rest[i] == cues[i + 1]);
        }
        lemma_srt_from_no_crlf(rest, k + 1);
        lemma_srt_from_front(cues, k);
        lemma_srt_block(k, cues[0]);
        lemma_no_crlf_blank_join(srt_block(k, cues[0]), srt_from(rest, k + 1));
    } else {
        assert(srt_from(cues, k) =~= Seq::<char>::empty());
    }
}

/// The SubRip entries of round-trip cues split at blank lines read back as
/// the cues.
proof fn lemma_srt_from_read(cues: Seq<(nat, nat, Seq<char>)>, k: nat)
    requires
        forall|i: int| 0 <= i < cues.len() ==> round_trip_cue(#[trigger] cues[i]),
    ensures
        block_cues(split_on(srt_from(cues, k), seq!['\n', '\n']), false) == cues,
    decreases cues.len(),
{
    let p = seq!['\n', '\n'];
    if cues.len() == 0 {
        assert(srt_from(cues, k) =~= Seq::<char>::empty());
        assert(split_on(Seq::<char>::empty(), p) == seq![Seq::<char>::empty()]);
        lemma_single_block(Seq::<char>::empty(), false);
        assert(srt_block_cue(Seq::<char>::empty()) is None);
        assert(cues =~= Seq::<(nat, nat, Seq<char>)>::empty());
    } else {
        let c = cues[0];
        let rest = cues.skip(1);
        assert forall|i: int| 0 <= i < rest.len() implies round_trip_cue(#[trigger] rest[i]) by {
            assert(rest[i] == cues[i + 1]);
        }
        lemma_srt_from_read(rest, k + 1);
        lemma_srt_from_front(cues, k);
        let b = srt_block(k, c);
        lemma_srt_block(k, c);
        let e = srt_from(rest, k + 1);
        lemma_split_block(b, e);
        lemma_block_cues_concat(seq![b], split_on(e, p), false);
        lemma_single_block(b, false);
        assert(seq![c] + rest =~= cues);
    }
}

/// Writing round-trip cues as SubRip and reading the text back gives the
/// same cues: times to the millisecond and texts unchanged.
pub proof fn lemma_srt_round_trip(cues: Seq<(nat, nat, Seq<char>)>)
    requires
        forall|i: int| 0 <= i < cues.len() ==> round_trip_cue(#[trigger] cues[i]),
    ensures
        spec_parse_srt(spec_write_srt(cues)) == cues,
{
    let w = spec_write_srt(cues);
    lemma_write_srt_from(cues);
    lemma_srt_from_no_crlf(cues, 0);
    lemma_srt_from_read(cues, 0);
    lemma_crlf_replace_none(w);
}

/// SubRip -> WebVTT -> SubRip keeps round-trip cues exactly: the cues read
/// from the WebVTT text written for them, written as SubRip, read back.
pub proof fn lemma_srt_vtt_srt_round_trip(cues: Seq<(nat, nat, Seq<char>)>)
    requires
        forall|i: int| 0 <= i < cues.len() ==> round_trip_cue(#[trigger] cues[i]),
    ensures
        spec_parse_srt(spec_write_srt(spec_parse_vtt(spec_write_vtt(cues)))) == cues,
{
    lemma_vtt_round_trip(cues);
    lemma_srt_round_trip(cues);
}

/// Trimmed non-blank lines of texts without line breaks are plain cue
/// texts.
proof fn lemma_trimmed_nonblank_plain(ls: Seq<Seq<char>>)
    requires
        forall|k: int, i: int| 0 <= k < ls.len() && 0 <= i < ls[k].len() ==> #[trigger] ls[k][i] != '\n',
    ensures
        forall|k: int| 0 <= k < trimmed_nonblank(ls).len() ==> plain_cue_text(#[trigger] trimmed_nonblank(ls)[k]),
    decreases ls.len(),
{
    if ls.len() > 0 {
        let init = ls.drop_last();
        assert forall|k: int, i: int| 0 <= k < init.len() && 0 <= i < init[k].len() implies #[trigger] init[k][i]
            != '\n' by {
            assert(init[k] == ls[k]);
        }
        lemma_trimmed_nonblank_plain(init);
        let l = ls.last();
        let t = trim(l);
        if t.len() > 0 {
            crate::text::lemma_trim_shape(l);
            assert forall|j: int| 0 <= j < t.len() implies #[trigger] t[j] != '\n' by {
                assert(l.contains(t[j]));
                let m = choose|m: int| 0 <= m < l.len() && l[m] == t[j];
                assert(ls[ls.len() - 1][m] != '\n');
            }
            assert(no_crlf(t)) by {
                assert forall|i: int| 0 <= i < t.len() - 1 implies !(#[trigger] t[i] == '\r' && t[i + 1] == '\n') by {
                    assert(t[i + 1] != '\n');
                }
            }
            assert(no_blank_line(t)) by {
                assert forall|i: int| 0 <= i < t.len() - 1 implies !(#[trigger] t[i] == '\n' && t[i + 1] == '\n') by {
                    assert(t[i] != '\n');
                }
            }
            let r = trimmed_nonblank(ls);
            assert(r == trimmed_nonblank(init).push(t));
            assert forall|k: int| 0 <= k < r.len() implies plain_cue_text(#[trigger] r[k]) by {
                if k < r.len() - 1 {
                    assert(r[k] == trimmed_nonblank(init)[k]);
                }
            }
        }
    }
}

/// Plain text written as SubRip or as WebVTT and read back as plain text
/// gives each non-blank line of it, trimmed, with blank lines between.
pub proof fn lemma_txt_subtitle_txt_round_trip(text: Seq<char>)
    requires
        text.len() <= 0x1_0000_0000_0000,
    ensures
        spec_write_txt(spec_parse_srt(spec_write_srt(txt_cue_views(text)))) == join_seq(
            trimmed_nonblank(spec_lines(text)),
            seq!['\n', '\n'],
        ),
        spec_write_txt(spec_parse_vtt(spec_write_vtt(txt_cue_views(text)))) == join_seq(
            trimmed_nonblank(spec_lines(text)),
            seq!['\n', '\n'],
        ),
{
    let lines = spec_lines(text);
    let ls = trimmed_nonblank(lines);
    let cues = txt_cue_views(text);
    crate::text::lemma_lines_len(text);
    lemma_trimmed_nonblank_len(lines);
    crate::text::lemma_lines_lack_newline(text);
    lemma_trimmed_nonblank_plain(lines);
    assert forall|i: int| 0 <= i < cues.len() implies round_trip_cue(#[trigger] cues[i]) by {
        assert(cues[i].2 == ls[i]);
    }
    lemma_srt_round_trip(cues);
    lemma_vtt_round_trip(cues);
    assert(cues.map_values(|c: (nat, nat, Seq<char>)| c.2) =~= ls);
}

} // verus!
