//! Reading FFmpeg's progress output: its stderr split into lines at both
//! `\n` and `\r` (the running `frame=... time=...` statistics end in `\r`),
//! and the `Duration:` / `time=` timestamps picked out of a line. Turning
//! the picked fields into seconds and fractions is left to the caller.
use crate::text::{
    chars_of, find_chars, starts_with, find_first, is_unicode_whitespace, is_whitespace, lemma_find_first,
    split_chars, split_on, string_from_chars, sub_chars, trim, trim_chars, trim_start,
    trim_start_chars, vec_views,
};
use vstd::prelude::*;

verus! {

/// `\n` or `\r`.
pub open spec fn is_line_break(b: u8) -> bool {
    b == 10u8 || b == 13u8
}

/// No byte of `s` is a line break.
pub open spec fn no_breaks(s: Seq<u8>) -> bool {
    forall|i: int| 0 <= i < s.len() ==> !is_line_break(#[trigger] s[i])
}

/// An optional line by its bytes.
pub open spec fn opt_bytes(r: Option<Vec<u8>>) -> Option<Seq<u8>> {
    match r {
        Some(l) => Some(l@),
        None => None,
    }
}

/// One byte read with `pending` bytes of an unfinished line: the pending
/// bytes after it, and the line it ends, if any. A line break ends the
/// pending line, handed out when it is not empty; any other byte joins it.
pub open spec fn push_step(pending: Seq<u8>, b: u8) -> (Seq<u8>, Option<Seq<u8>>) {
    if is_line_break(b) {
        if pending.len() > 0 {
            (Seq::empty(), Some(pending))
        } else {
            (pending, None)
        }
    } else {
        (pending.push(b), None)
    }
}

/// What ending the input hands out for `pending` unfinished bytes.
pub open spec fn finish_step(pending: Seq<u8>) -> Option<Seq<u8>> {
    if pending.len() > 0 {
        Some(pending)
    } else {
        None
    }
}

/// The lines handed out while a fresh splitter reads `bytes`, and the
/// bytes pending afterwards.
pub open spec fn pushed_lines(bytes: Seq<u8>) -> (Seq<Seq<u8>>, Seq<u8>)
    decreases bytes.len(),
{
    if bytes.len() == 0 {
        (Seq::empty(), Seq::empty())
    } else {
        let (out, pending) = pushed_lines(bytes.drop_last());
        let (next, line) = push_step(pending, bytes.last());
        (
            match line {
                Some(l) => out.push(l),
                None => out,
            },
            next,
        )
    }
}

/// Every line a fresh splitter hands out for the stream `bytes`: those
/// handed out while reading, then the one finishing gives.
pub open spec fn splitter_lines(bytes: Seq<u8>) -> Seq<Seq<u8>> {
    let (out, pending) = pushed_lines(bytes);
    match finish_step(pending) {
        Some(l) => out.push(l),
        None => out,
    }
}

/// The pieces of `bytes` between line breaks, in order: one more than
/// there are breaks, empty ones included.
pub open spec fn break_pieces(bytes: Seq<u8>) -> Seq<Seq<u8>>
    decreases bytes.len(),
{
    if bytes.len() == 0 {
        seq![Seq::empty()]
    } else {
        let prev = break_pieces(bytes.drop_last());
        if is_line_break(bytes.last()) {
            prev.push(Seq::empty())
        } else {
            prev.update(prev.len() - 1, prev.last().push(bytes.last()))
        }
    }
}

/// The non-empty pieces of `ps`, in order.
pub open spec fn nonempty_pieces(ps: Seq<Seq<u8>>) -> Seq<Seq<u8>>
    decreases ps.len(),
{
    if ps.len() == 0 {
        Seq::empty()
    } else if ps.last().len() > 0 {
        nonempty_pieces(ps.drop_last()).push(ps.last())
    } else {
        nonempty_pieces(ps.drop_last())
    }
}

proof fn lemma_break_pieces_nonempty(bytes: Seq<u8>)
    ensures
        break_pieces(bytes).len() >= 1,
    decreases bytes.len(),
{
    if bytes.len() > 0 {
        lemma_break_pieces_nonempty(bytes.drop_last());
    }
}

proof fn lemma_pushed_lines(bytes: Seq<u8>)
    ensures
        pushed_lines(bytes).0 == nonempty_pieces(break_pieces(bytes).drop_last()),
        pushed_lines(bytes).1 == break_pieces(bytes).last(),
    decreases bytes.len(),
{
    if bytes.len() == 0 {
        assert(break_pieces(bytes).drop_last() =~= Seq::<Seq<u8>>::empty());
    } else {
        let prev = bytes.drop_last();
        lemma_pushed_lines(prev);
        lemma_break_pieces_nonempty(prev);
        let pp = break_pieces(prev);
        let b = bytes.last();
        if is_line_break(b) {
            assert(break_pieces(bytes).drop_last() =~= pp);
            assert(pp.drop_last().push(pp.last()) =~= pp);
        } else {
            assert(break_pieces(bytes).drop_last() =~= pp.drop_last());
        }
    }
}

/// Reading a whole stream byte by byte and then finishing hands out
/// exactly its non-empty pieces between line breaks (`\n` or `\r`), in
/// order: every `\r`-terminated progress update is a line of its own.
pub proof fn lemma_splitter_gives_the_stream_lines(bytes: Seq<u8>)
    ensures
        splitter_lines(bytes) == nonempty_pieces(break_pieces(bytes)),
{
    lemma_pushed_lines(bytes);
    lemma_break_pieces_nonempty(bytes);
    let ps = break_pieces(bytes);
    assert(ps.drop_last().push(ps.last()) =~= ps);
}

/// Collects the bytes of the line being read; a line ends at `\n` or `\r`,
/// and empty lines are skipped.
pub struct LineSplitter {
    current: Vec<u8>,
}

impl LineSplitter {
    /// The bytes read since the last line ended.
    pub closed spec fn pending(&self) -> Seq<u8> {
        self.current@
    }

    /// The pending bytes hold no line break.
    pub closed spec fn wf(&self) -> bool {
        no_breaks(self.current@)
    }

    /// A splitter that has read nothing.
    pub fn new() -> (r: Self)
        ensures
            r.wf(),
            r.pending() == Seq::<u8>::empty(),
    {
        LineSplitter { current: Vec::new() }
    }

    /// Reads one byte. A line break ends the pending line, which is handed
    /// back when it is not empty; any other byte joins the pending line.
    pub fn push(&mut self, b: u8) -> (r: Option<Vec<u8>>)
        requires
            old(self).wf(),
        ensures
            final(self).wf(),
            (final(self).pending(), opt_bytes(r)) == push_step(old(self).pending(), b),
            r matches Some(l) ==> l@.len() > 0 && no_breaks(l@),
    {
        if b == 10u8 || b == 13u8 {
            if self.current.len() > 0 {
                let mut line: Vec<u8> = Vec::new();
                std::mem::swap(&mut line, &mut self.current);
                Some(line)
            } else {
                None
            }
        } else {
            self.current.push(b);
            None
        }
    }

    /// Ends the input: the pending line, when it is not empty.
    pub fn finish(self) -> (r: Option<Vec<u8>>)
        ensures
            opt_bytes(r) == finish_step(self.pending()),
    {
        if self.current.len() > 0 {
            Some(self.current)
        } else {
            None
        }
    }
}

/// The field that follows the first `marker` of `line`, as the video
/// family reads it: the text up to the next `marker` (or the end), leading
/// white space dropped, cut before its first `stop`, then trimmed.
pub open spec fn spec_field_after(line: Seq<char>, marker: Seq<char>, stop: char) -> Option<Seq<char>> {
    let parts = split_on(line, marker);
    if parts.len() < 2 {
        None
    } else {
        let t = trim_start(parts[1]);
        let e = find_first(t, seq![stop]);
        Some(trim(if e < 0 { t } else { t.take(e) }))
    }
}

/// Picks the field after `marker` out of `line` (`Duration:` up to a comma,
/// `time=` up to a space).
pub fn field_after(line: &str, marker: &str, stop: char) -> (r: Option<String>)
    requires
        marker@.len() > 0,
    ensures
        match r {
            None => spec_field_after(line@, marker@, stop) is None,
            Some(x) => spec_field_after(line@, marker@, stop) == Some(x@),
        },
{
    let l = chars_of(line);
    let m = chars_of(marker);
    let parts = split_chars(&l, &m);
    if parts.len() < 2 {
        return None;
    }
    proof {
        assert(vec_views(parts@)[1] == parts@[1]@);
    }
    let t = trim_start_chars(&parts[1]);
    let mut stops: Vec<char> = Vec::new();
    stops.push(stop);
    proof {
        assert(stops@ =~= seq![stop]);
        lemma_find_first(t@, stops@);
    }
    let cut = match find_chars(&t, &stops) {
        None => sub_chars(&t, 0, t.len()),
        Some(e) => sub_chars(&t, 0, e),
    };
    proof {
        assert(t@.subrange(0, t@.len() as int) =~= t@);
    }
    let trimmed = trim_chars(&cut);
    Some(string_from_chars(&trimmed))
}

/// A character that ends an audio timestamp token: a comma or white space.
pub open spec fn is_token_stop(c: char) -> bool {
    c == ',' || is_unicode_whitespace(c)
}

/// The length of the leading run of `s` that holds no token stop.
pub open spec fn token_end(s: Seq<char>) -> int
    decreases s.len(),
{
    if s.len() == 0 || is_token_stop(s[0]) {
        0
    } else {
        1 + token_end(s.skip(1))
    }
}

/// The token right after the first `marker` of `line`, as the audio family
/// reads it: leading white space dropped, up to the next comma or white space.
pub open spec fn spec_token_after(line: Seq<char>, marker: Seq<char>) -> Option<Seq<char>> {
    let i = find_first(line, marker);
    if i < 0 {
        None
    } else {
        let t = trim_start(line.skip(i + marker.len()));
        Some(t.take(token_end(t)))
    }
}

/// Picks the token after `marker` (`Duration: ` or `time=`) out of `line`.
pub fn token_after(line: &str, marker: &str) -> (r: Option<String>)
    requires
        marker@.len() > 0,
    ensures
        match r {
            None => spec_token_after(line@, marker@) is None,
            Some(x) => spec_token_after(line@, marker@) == Some(x@),
        },
{
    let l = chars_of(line);
    let m = chars_of(marker);
    proof {
        lemma_find_first(l@, m@);
    }
    let i = match find_chars(&l, &m) {
        None => return None,
        Some(i) => i,
    };
    proof {
        assert(starts_with(l@.skip(i as int), m@));
        assert(l@.skip(i as int).len() == l@.len() - i);
        assert(i + m@.len() <= l@.len());
    }
    let n = m.len();
    assert(i + n <= l.len());
    let start: usize = i + n;
    let rest = sub_chars(&l, start, l.len());
    proof {
        assert(rest@ =~= l@.skip(i + m@.len()));
    }
    let t = trim_start_chars(&rest);
    let mut e: usize = 0;
    proof {
        assert(t@.skip(0) =~= t@);
    }
    while e < t.len() && !(t[e] == ',' || is_whitespace(t[e]))
        invariant
            e <= t@.len(),
            token_end(t@) == e + token_end(t@.skip(e as int)),
        decreases t@.len() - e,
    {
        proof {
            assert(t@.skip(e as int)[0] == t@[e as int]);
            assert(t@.skip(e as int).skip(1) =~= t@.skip(e + 1));
        }
        e = e + 1;
    }
    proof {
        if e < t@.len() {
            assert(t@.skip(e as int)[0] == t@[e as int]);
        }
    }
    let token = sub_chars(&t, 0, e);
    Some(string_from_chars(&token))
}

/// The hour, minute and second fields of a `H:MM:SS.ss` timestamp: the
/// first three pieces between colons; with `exactly_three`, a fourth piece
/// refuses the timestamp.
pub open spec fn spec_clock_fields(token: Seq<char>, exactly_three: bool) -> Option<(Seq<char>, Seq<char>, Seq<char>)> {
    let parts = split_on(token, seq![':']);
    if parts.len() < 3 || (exactly_three && parts.len() > 3) {
        None
    } else {
        Some((parts[0], parts[1], parts[2]))
    }
}

/// Splits a timestamp token into its hour, minute and second fields.
pub fn clock_fields(token: &str, exactly_three: bool) -> (r: Option<(String, String, String)>)
    ensures
        match r {
            None => spec_clock_fields(token@, exactly_three) is None,
            Some((h, m, s)) => spec_clock_fields(token@, exactly_three) == Some((h@, m@, s@)),
        },
{
    let t = chars_of(token);
    let mut colon: Vec<char> = Vec::new();
    colon.push(':');
    proof {
        assert(colon@ =~= seq![':']);
    }
    let parts = split_chars(&t, &colon);
    if parts.len() < 3 || (exactly_three && parts.len() > 3) {
        return None;
    }
    proof {
        assert(vec_views(parts@)[0] == parts@[0]@);
        assert(vec_views(parts@)[1] == parts@[1]@);
        assert(vec_views(parts@)[2] == parts@[2]@);
    }
    Some((string_from_chars(&parts[0]), string_from_chars(&parts[1]), string_from_chars(&parts[2])))
}

} // verus!
