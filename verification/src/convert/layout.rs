//! Text layout for the document exports: word-wrapping and pagination of
//! TXT -> PDF, hard-wrapping of TXT -> JPG/PNG and the size of that image,
//! and the XML escaping of DOCX text.
use crate::text::{
    chars_of, first_word, is_unicode_whitespace, is_whitespace, push_all, split_chars, split_on,
    string_from_chars, sub_chars, trim_start, vec_views,
};
use vstd::prelude::*;

verus! {

/// Index of the first white-space character of `t`, or its length.
pub open spec fn run_end(t: Seq<char>) -> int
    decreases t.len(),
{
    if t.len() == 0 || is_unicode_whitespace(t[0]) {
        0
    } else {
        1 + run_end(t.skip(1))
    }
}

pub proof fn lemma_run_end(t: Seq<char>)
    ensures
        0 <= run_end(t) <= t.len(),
        t.len() > 0 && !is_unicode_whitespace(t[0]) ==> run_end(t) >= 1,
    decreases t.len(),
{
    if t.len() > 0 && !is_unicode_whitespace(t[0]) {
        lemma_run_end(t.skip(1));
    }
}

pub proof fn lemma_trim_start_shape(s: Seq<char>)
    ensures
        trim_start(s).len() <= s.len(),
        trim_start(s).len() > 0 ==> !is_unicode_whitespace(trim_start(s)[0]),
    decreases s.len(),
{
    if s.len() > 0 && is_unicode_whitespace(s[0]) {
        lemma_trim_start_shape(s.skip(1));
    }
}

/// The white-space-separated words of `s`, as `split_whitespace` yields.
pub open spec fn words(s: Seq<char>) -> Seq<Seq<char>>
    decreases s.len(),
{
    let t = trim_start(s);
    if t.len() == 0 {
        Seq::empty()
    } else {
        proof {
            lemma_trim_start_shape(s);
            lemma_run_end(t);
        }
        seq![t.take(run_end(t))] + words(t.skip(run_end(t)))
    }
}

/// The words of `s`.
pub fn words_of(s: &Vec<char>) -> (r: Vec<Vec<char>>)
    ensures
        vec_views(r@) == words(s@),
{
    let mut out: Vec<Vec<char>> = Vec::new();
    let mut i: usize = 0;
    let n = s.len();
    proof {
        assert(s@.skip(0) =~= s@);
        assert(vec_views(out@) + words(s@.skip(0)) =~= words(s@));
    }
    while i < n
        invariant
            i <= n,
            n == s@.len(),
            vec_views(out@) + words(s@.skip(i as int)) == words(s@),
        decreases n - i,
    {
        if is_whitespace(s[i]) {
            proof {
                assert(s@.skip(i as int).skip(1) =~= s@.skip(i + 1));
                assert(trim_start(s@.skip(i as int)) == trim_start(s@.skip(i + 1)));
            }
            i = i + 1;
        } else {
            let start = i;
            let ghost t = s@.skip(i as int);
            proof {
                assert(trim_start(t) == t);
                assert(t.skip(0) =~= t);
            }
            while i < n && !is_whitespace(s[i])
                invariant
                    start <= i <= n,
                    n == s@.len(),
                    t == s@.skip(start as int),
                    run_end(t) == (i - start) + run_end(s@.skip(i as int)),
                decreases n - i,
            {
                proof {
                    assert(s@.skip(i as int).skip(1) =~= s@.skip(i + 1));
                }
                i = i + 1;
            }
            proof {
                lemma_run_end(t);
                assert(run_end(t) == i - start);
                assert(t.skip(run_end(t)) =~= s@.skip(i as int));
            }
            let w = sub_chars(s, start, i);
            proof {
                assert(w@ =~= t.take(run_end(t)));
            }
            let ghost ov = vec_views(out@);
            let ghost wv = w;
            out.push(w);
            proof {
                assert(vec_views(out@) =~= ov.push(wv@));
                assert(words(t) == seq![t.take(run_end(t))] + words(t.skip(run_end(t))));
                assert(vec_views(out@) + words(s@.skip(i as int)) =~= ov + words(t));
            }
        }
    }
    proof {
        assert(s@.skip(n as int) =~= Seq::<char>::empty());
        assert(vec_views(out@) + words(s@.skip(n as int)) =~= vec_views(out@));
    }
    out
}

/// One word placed on the lines being built: a word longer than the width
/// is hard-broken into full-width pieces (each on its own line, after
/// flushing the current line); what remains joins the current line after a
/// space when it fits, and otherwise starts a new one.
pub open spec fn place_word(lines: Seq<Seq<char>>, current: Seq<char>, w: Seq<char>, max: nat) -> (Seq<Seq<char>>, Seq<char>)
    decreases w.len(),
{
    if max > 0 && w.len() > max {
        let flushed = if current.len() > 0 {
            lines.push(current)
        } else {
            lines
        };
        place_word(flushed.push(w.take(max as int)), Seq::empty(), w.skip(max as int), max)
    } else if current.len() == 0 {
        (lines, w)
    } else if current.len() + 1 + w.len() <= max {
        (lines, current + seq![' '] + w)
    } else {
        (lines.push(current), w)
    }
}

/// The lines and current line after placing every word of `ws`.
pub open spec fn place_words(ws: Seq<Seq<char>>, max: nat) -> (Seq<Seq<char>>, Seq<char>)
    decreases ws.len(),
{
    if ws.len() == 0 {
        (Seq::empty(), Seq::empty())
    } else {
        let st = place_words(ws.drop_last(), max);
        place_word(st.0, st.1, ws.last(), max)
    }
}

/// The wrapped lines of one source line: an empty line stays one empty
/// line; otherwise its words are placed and the last line closes.
pub open spec fn wrap_line(raw: Seq<char>, max: nat) -> Seq<Seq<char>> {
    if raw.len() == 0 {
        seq![Seq::empty()]
    } else {
        let st = place_words(words(raw), max);
        st.0.push(st.1)
    }
}

/// The wrapped lines of a list of source lines, in order.
pub open spec fn wrap_lines_of(raws: Seq<Seq<char>>, max: nat) -> Seq<Seq<char>>
    decreases raws.len(),
{
    if raws.len() == 0 {
        Seq::empty()
    } else {
        wrap_lines_of(raws.drop_last(), max) + wrap_line(raws.last(), max)
    }
}

/// `text` word-wrapped to at most `max` characters per line, keeping its
/// line breaks and blank lines, a word longer than a line hard-broken.
pub open spec fn spec_wrap_text(text: Seq<char>, max: nat) -> Seq<Seq<char>> {
    wrap_lines_of(split_on(text, seq!['\n']), max)
}

/// Places one word (see [`place_word`]).
fn place_word_exec(lines: &mut Vec<Vec<char>>, current: &mut Vec<char>, w: Vec<char>, max: usize)
    requires
        max > 0,
    ensures
        (vec_views(final(lines)@), final(current)@) == place_word(
            vec_views(old(lines)@),
            old(current)@,
            w@,
            max as nat,
        ),
    decreases w@.len(),
{
    let n = w.len();
    if n > max {
        if current.len() > 0 {
            let ghost lv = lines@;
            let ghost cv = *current;
            let mut taken: Vec<char> = Vec::new();
            std::mem::swap(current, &mut taken);
            lines.push(taken);
            proof {
                assert(vec_views(lines@) =~= vec_views(lv).push(cv@));
            }
        }
        let head = sub_chars(&w, 0, max);
        let tail = sub_chars(&w, max, n);
        let ghost lv = lines@;
        let ghost hv = head;
        lines.push(head);
        proof {
            assert(vec_views(lines@) =~= vec_views(lv).push(hv@));
            assert(current@ =~= Seq::<char>::empty());
        }
        place_word_exec(lines, current, tail, max);
    } else if current.len() == 0 {
        *current = w;
    } else if n < max && current.len() <= max - 1 - n {
        current.push(' ');
        push_all(current, &w);
    } else {
        let ghost lv = lines@;
        let ghost cv = *current;
        let mut taken: Vec<char> = w;
        std::mem::swap(current, &mut taken);
        lines.push(taken);
        proof {
            assert(vec_views(lines@) =~= vec_views(lv).push(cv@));
        }
    }
}

/// The wrapped lines of one source line.
fn wrap_line_exec(raw: &Vec<char>, max: usize, lines: &mut Vec<Vec<char>>)
    requires
        max > 0,
    ensures
        vec_views(final(lines)@) == vec_views(old(lines)@) + wrap_line(raw@, max as nat),
{
    if raw.len() == 0 {
        let ghost lv = lines@;
        lines.push(Vec::new());
        proof {
            assert(vec_views(lines@) =~= vec_views(lv) + wrap_line(raw@, max as nat));
        }
        return;
    }
    let ws = words_of(raw);
    let ghost wv = vec_views(ws@);
    let mut own: Vec<Vec<char>> = Vec::new();
    let mut current: Vec<char> = Vec::new();
    for i in 0..ws.len()
        invariant
            max > 0,
            wv == vec_views(ws@),
            (vec_views(own@), current@) == place_words(wv.take(i as int), max as nat),
    {
        proof {
            assert(wv.take(i + 1).drop_last() =~= wv.take(i as int));
            assert(wv.take(i + 1).last() == ws@[i as int]@);
        }
        let w = ws[i].clone();
        place_word_exec(&mut own, &mut current, w, max);
    }
    proof {
        assert(wv.take(wv.len() as int) =~= wv);
    }
    let ghost ov = vec_views(own@);
    let ghost cv = current;
    own.push(current);
    proof {
        assert(vec_views(own@) =~= ov.push(cv@));
    }
    let ghost lv = vec_views(lines@);
    for j in 0..own.len()
        invariant
            vec_views(lines@) == lv + vec_views(own@).take(j as int),
    {
        let ghost before = lines@;
        let l = own[j].clone();
        let ghost l2 = l;
        lines.push(l);
        proof {
            assert(vec_views(lines@) =~= vec_views(before).push(l2@));
            assert(vec_views(own@).take(j + 1) =~= vec_views(own@).take(j as int).push(own@[j as int]@));
        }
    }
    proof {
        assert(vec_views(own@).take(own@.len() as int) =~= vec_views(own@));
    }
}

/// Word-wraps `text` to at most `max_chars` characters per line,
/// preserving its line breaks and blank lines and hard-breaking any word
/// longer than a line.
pub fn wrap_text_lines(text: &str, max_chars: usize) -> (r: Vec<String>)
    requires
        max_chars > 0,
    ensures
        crate::convert::string_views(r@) == spec_wrap_text(text@, max_chars as nat),
{
    let s = chars_of(text);
    let nl: Vec<char> = vec!['\n'];
    proof {
        assert(nl@ =~= seq!['\n']);
    }
    let raws = split_chars(&s, &nl);
    let ghost rv = vec_views(raws@);
    let mut lines: Vec<Vec<char>> = Vec::new();
    for i in 0..raws.len()
        invariant
            max_chars > 0,
            rv == vec_views(raws@),
            vec_views(lines@) == wrap_lines_of(rv.take(i as int), max_chars as nat),
    {
        proof {
            assert(rv.take(i + 1).drop_last() =~= rv.take(i as int));
            assert(rv.take(i + 1).last() == raws@[i as int]@);
        }
        wrap_line_exec(&raws[i], max_chars, &mut lines);
    }
    proof {
        assert(rv.take(rv.len() as int) =~= rv);
    }
    let ghost lv = vec_views(lines@);
    let mut out: Vec<String> = Vec::new();
    for j in 0..lines.len()
        invariant
            lv == vec_views(lines@),
            crate::convert::string_views(out@) == lv.take(j as int),
    {
        let ghost before = out@;
        let st = string_from_chars(&lines[j]);
        let ghost sv = st@;
        out.push(st);
        proof {
            assert(crate::convert::string_views(out@) =~= crate::convert::string_views(before).push(sv));
            assert(lv.take(j + 1) =~= lv.take(j as int).push(lines@[j as int]@));
        }
    }
    proof {
        assert(lv.take(lv.len() as int) =~= lv);
    }
    out
}

/// Every line in `lines` has at most `max` characters.
pub open spec fn all_within(lines: Seq<Seq<char>>, max: nat) -> bool {
    forall|i: int| 0 <= i < lines.len() ==> (#[trigger] lines[i]).len() <= max
}

proof fn lemma_place_word_within(lines: Seq<Seq<char>>, current: Seq<char>, w: Seq<char>, max: nat)
    requires
        max > 0,
        all_within(lines, max),
        current.len() <= max,
    ensures
        all_within(place_word(lines, current, w, max).0, max),
        place_word(lines, current, w, max).1.len() <= max,
    decreases w.len(),
{
    if w.len() > max {
        let flushed = if current.len() > 0 {
            lines.push(current)
        } else {
            lines
        };
        assert(all_within(flushed, max)) by {
            assert forall|i: int| 0 <= i < flushed.len() implies (#[trigger] flushed[i]).len() <= max by {
                if i < lines.len() {
                    assert(flushed[i] == lines[i]);
                }
            }
        }
        let next = flushed.push(w.take(max as int));
        assert(all_within(next, max)) by {
            assert forall|i: int| 0 <= i < next.len() implies (#[trigger] next[i]).len() <= max by {
                if i < flushed.len() {
                    assert(next[i] == flushed[i]);
                }
            }
        }
        lemma_place_word_within(next, Seq::empty(), w.skip(max as int), max);
    } else if current.len() > 0 && current.len() + 1 + w.len() > max {
        let next = lines.push(current);
        assert forall|i: int| 0 <= i < next.len() implies (#[trigger] next[i]).len() <= max by {
            if i < lines.len() {
                assert(next[i] == lines[i]);
            }
        }
    }
}

proof fn lemma_place_words_within(ws: Seq<Seq<char>>, max: nat)
    requires
        max > 0,
    ensures
        all_within(place_words(ws, max).0, max),
        place_words(ws, max).1.len() <= max,
    decreases ws.len(),
{
    if ws.len() > 0 {
        lemma_place_words_within(ws.drop_last(), max);
        let st = place_words(ws.drop_last(), max);
        lemma_place_word_within(st.0, st.1, ws.last(), max);
    }
}

proof fn lemma_wrap_lines_within(raws: Seq<Seq<char>>, max: nat)
    requires
        max > 0,
    ensures
        all_within(wrap_lines_of(raws, max), max),
    decreases raws.len(),
{
    if raws.len() > 0 {
        lemma_wrap_lines_within(raws.drop_last(), max);
        let a = wrap_lines_of(raws.drop_last(), max);
        let b = wrap_line(raws.last(), max);
        if raws.last().len() > 0 {
            lemma_place_words_within(words(raws.last()), max);
            let st = place_words(words(raws.last()), max);
            assert forall|i: int| 0 <= i < b.len() implies (#[trigger] b[i]).len() <= max by {
                if i < st.0.len() {
                    assert(b[i] == st.0[i]);
                }
            }
        } else {
            assert(b[0].len() == 0);
        }
        assert forall|i: int| 0 <= i < (a + b).len() implies (#[trigger] (a + b)[i]).len() <= max by {
            if i < a.len() {
                assert((a + b)[i] == a[i]);
            } else {
                assert((a + b)[i] == b[i - a.len()]);
            }
        }
    }
}

/// No wrapped line is longer than the width asked for.
pub proof fn lemma_wrapped_lines_fit(text: Seq<char>, max: nat)
    requires
        max > 0,
    ensures
        all_within(spec_wrap_text(text, max), max),
{
    lemma_wrap_lines_within(split_on(text, seq!['\n']), max);
}

/// `lines` cut into consecutive groups of `n` (the last one possibly
/// shorter).
pub open spec fn chunks_of(lines: Seq<Seq<char>>, n: nat) -> Seq<Seq<Seq<char>>>
    decreases lines.len(),
{
    if lines.len() == 0 || n == 0 {
        Seq::empty()
    } else if lines.len() <= n {
        seq![lines]
    } else {
        seq![lines.take(n as int)] + chunks_of(lines.skip(n as int), n)
    }
}

/// The pages of a TXT -> PDF export: the text wrapped to
/// `chars_per_line`, then grouped `lines_per_page` to a page; a text with
/// no lines still gets one empty page.
pub open spec fn spec_pdf_pages(text: Seq<char>, chars_per_line: nat, lines_per_page: nat) -> Seq<Seq<Seq<char>>> {
    let wrapped = spec_wrap_text(text, chars_per_line);
    if wrapped.len() == 0 {
        seq![Seq::empty()]
    } else {
        chunks_of(wrapped, lines_per_page)
    }
}

proof fn lemma_chunks_partition(lines: Seq<Seq<char>>, n: nat)
    requires
        n > 0,
    ensures
        chunks_of(lines, n).flatten() == lines,
        forall|i: int| 0 <= i < chunks_of(lines, n).len() ==> 0 < (#[trigger] chunks_of(lines, n)[i]).len() <= n,
    decreases lines.len(),
{
    let c = chunks_of(lines, n);
    if lines.len() == 0 {
        assert(c =~= Seq::<Seq<Seq<char>>>::empty());
    } else if lines.len() <= n {
        assert(c == seq![lines]);
        assert(c.drop_first() =~= Seq::<Seq<Seq<char>>>::empty());
        assert(c.flatten() == c.first() + c.drop_first().flatten());
        assert(c.flatten() =~= lines);
    } else {
        let rest = lines.skip(n as int);
        lemma_chunks_partition(rest, n);
        assert(c == seq![lines.take(n as int)] + chunks_of(rest, n));
        assert(c.first() == lines.take(n as int));
        assert(c.drop_first() =~= chunks_of(rest, n));
        assert(c.flatten() == c.first() + c.drop_first().flatten());
        assert(lines.take(n as int) + rest =~= lines);
        assert forall|i: int| 0 <= i < c.len() implies 0 < (#[trigger] c[i]).len() <= n by {
            if i > 0 {
                assert(c[i] == chunks_of(rest, n)[i - 1]);
            }
        }
    }
}

/// A TXT -> PDF export always has at least one page, and its pages hold
/// the wrapped lines in order, at most `lines_per_page` of them to a page.
pub proof fn lemma_pages_hold_the_wrapped_lines(text: Seq<char>, chars_per_line: nat, lines_per_page: nat)
    requires
        chars_per_line > 0,
        lines_per_page > 0,
    ensures
        spec_pdf_pages(text, chars_per_line, lines_per_page).len() >= 1,
        forall|i: int|
            0 <= i < spec_pdf_pages(text, chars_per_line, lines_per_page).len() ==> (#[trigger] spec_pdf_pages(
                text,
                chars_per_line,
                lines_per_page,
            )[i]).len() <= lines_per_page,
        spec_pdf_pages(text, chars_per_line, lines_per_page).flatten() == spec_wrap_text(text, chars_per_line),
{
    let wrapped = spec_wrap_text(text, chars_per_line);
    let pages = spec_pdf_pages(text, chars_per_line, lines_per_page);
    if wrapped.len() == 0 {
        assert(pages == seq![Seq::<Seq<char>>::empty()]);
        assert(pages.drop_first() =~= Seq::<Seq<Seq<char>>>::empty());
        assert(pages.flatten() == pages.first() + pages.drop_first().flatten());
        assert(pages.flatten() =~= wrapped);
    } else {
        lemma_chunks_partition(wrapped, lines_per_page);
        assert(wrapped.len() <= lines_per_page ==> pages == seq![wrapped]);
    }
}

/// The string views of a list of pages of lines.
pub open spec fn page_views(p: Seq<Vec<String>>) -> Seq<Seq<Seq<char>>> {
    p.map_values(|g: Vec<String>| crate::convert::string_views(g@))
}

/// Lays out TXT -> PDF: wraps the text and groups the lines into pages.
pub fn pdf_pages(text: &str, chars_per_line: usize, lines_per_page: usize) -> (r: Vec<Vec<String>>)
    requires
        chars_per_line > 0,
        lines_per_page > 0,
    ensures
        page_views(r@) == spec_pdf_pages(text@, chars_per_line as nat, lines_per_page as nat),
{
    let wrapped = wrap_text_lines(text, chars_per_line);
    let ghost wv = crate::convert::string_views(wrapped@);
    let mut pages: Vec<Vec<String>> = Vec::new();
    if wrapped.len() == 0 {
        pages.push(Vec::new());
        proof {
            assert(pages@[0]@.len() == 0);
            assert(crate::convert::string_views(pages@[0]@) =~= Seq::<Seq<char>>::empty());
            assert(page_views(pages@) =~= seq![Seq::<Seq<char>>::empty()]);
        }
        return pages;
    }
    let n = wrapped.len();
    let mut start: usize = 0;
    proof {
        assert(wv.skip(0) =~= wv);
        assert(page_views(pages@) + chunks_of(wv.skip(0), lines_per_page as nat) =~= chunks_of(wv, lines_per_page as nat));
    }
    while start < n
        invariant
            start <= n,
            n == wrapped@.len(),
            lines_per_page > 0,
            wv == crate::convert::string_views(wrapped@),
            page_views(pages@) + chunks_of(wv.skip(start as int), lines_per_page as nat) == chunks_of(
                wv,
                lines_per_page as nat,
            ),
        decreases n - start,
    {
        let end = if n - start <= lines_per_page {
            n
        } else {
            start + lines_per_page
        };
        let mut group: Vec<String> = Vec::new();
        for k in start..end
            invariant
                start <= end <= n,
                n == wrapped@.len(),
                wv == crate::convert::string_views(wrapped@),
                crate::convert::string_views(group@) == wv.subrange(start as int, k as int),
        {
            let ghost before = group@;
            let l = wrapped[k].clone();
            let ghost lv = l;
            group.push(l);
            proof {
                assert(crate::convert::string_views(group@) =~= crate::convert::string_views(before).push(lv@));
                assert(wv.subrange(start as int, k + 1) =~= wv.subrange(start as int, k as int).push(wv[k as int]));
            }
        }
        let ghost pv = page_views(pages@);
        let ghost gv = group;
        pages.push(group);
        proof {
            let rest = wv.skip(start as int);
            assert(page_views(pages@) =~= pv.push(crate::convert::string_views(gv@)));
            if rest.len() <= lines_per_page {
                assert(wv.subrange(start as int, end as int) =~= rest);
                assert(wv.skip(end as int).len() == 0);
                assert(chunks_of(wv.skip(end as int), lines_per_page as nat) =~= Seq::<Seq<Seq<char>>>::empty());
                assert(page_views(pages@) + chunks_of(wv.skip(end as int), lines_per_page as nat) =~= pv
                    + chunks_of(rest, lines_per_page as nat));
            } else {
                assert(wv.subrange(start as int, end as int) =~= rest.take(lines_per_page as int));
                assert(rest.skip(lines_per_page as int) =~= wv.skip(end as int));
                assert(page_views(pages@) + chunks_of(wv.skip(end as int), lines_per_page as nat) =~= pv
                    + chunks_of(rest, lines_per_page as nat));
            }
        }
        start = end;
    }
    proof {
        assert(wv.skip(n as int).len() == 0);
        assert(page_views(pages@) =~= page_views(pages@) + chunks_of(wv.skip(n as int), lines_per_page as nat));
    }
    pages
}

/// One run of a PDF text line: a word to show, or a one-glyph advance
/// standing for a space.
#[derive(Clone, Debug, PartialEq, Eq)]
pub enum LineItem {
    /// Text shown as is.
    Text(String),
    /// A space-wide advance of the cursor.
    Space,
}

/// The plain view of a run.
pub open spec fn item_view(i: LineItem) -> Option<Seq<char>> {
    match i {
        LineItem::Text(s) => Some(s@),
        LineItem::Space => None,
    }
}

/// The runs for the space-separated pieces `parts`: a space advance
/// between consecutive pieces, and each non-empty piece as text.
pub open spec fn spec_items(parts: Seq<Seq<char>>) -> Seq<Option<Seq<char>>>
    decreases parts.len(),
{
    if parts.len() == 0 {
        Seq::empty()
    } else {
        let last = parts.last();
        spec_items(parts.drop_last()) + (if parts.len() > 1 {
            seq![None::<Seq<char>>]
        } else {
            Seq::empty()
        }) + (if last.len() > 0 {
            seq![Some(last)]
        } else {
            Seq::empty()
        })
    }
}

/// The runs one line of a PDF page is shown with: each space becomes a
/// glyph-wide advance rather than a space glyph.
pub fn line_items(line: &str) -> (r: Vec<LineItem>)
    ensures
        r@.map_values(|i: LineItem| item_view(i)) == spec_items(split_on(line@, seq![' '])),
{
    let cs = chars_of(line);
    let sp: Vec<char> = vec![' '];
    proof {
        assert(sp@ =~= seq![' ']);
    }
    let parts = split_chars(&cs, &sp);
    let ghost pv = vec_views(parts@);
    let mut items: Vec<LineItem> = Vec::new();
    for k in 0..parts.len()
        invariant
            pv == vec_views(parts@),
            items@.map_values(|i: LineItem| item_view(i)) == spec_items(pv.take(k as int)),
    {
        proof {
            assert(pv.take(k + 1).drop_last() =~= pv.take(k as int));
            assert(pv.take(k + 1).last() == parts@[k as int]@);
        }
        let ghost before = items@.map_values(|i: LineItem| item_view(i));
        if k > 0 {
            items.push(LineItem::Space);
        }
        let ghost mid = items@.map_values(|i: LineItem| item_view(i));
        proof {
            if k > 0 {
                assert(mid =~= before + seq![None::<Seq<char>>]);
            } else {
                assert(mid =~= before);
            }
        }
        if parts[k].len() > 0 {
            let w = string_from_chars(&parts[k]);
            let ghost wv = w@;
            items.push(LineItem::Text(w));
            proof {
                assert(items@.map_values(|i: LineItem| item_view(i)) =~= mid + seq![Some(wv)]);
            }
        }
        proof {
            assert(items@.map_values(|i: LineItem| item_view(i)) =~= spec_items(pv.take(k + 1)));
        }
    }
    proof {
        assert(pv.take(pv.len() as int) =~= pv);
    }
    items
}

/// One line hard-wrapped into pieces of at most `max` characters.
pub open spec fn hard_wrap_line(l: Seq<char>, max: nat) -> Seq<Seq<char>>
    decreases l.len(),
{
    if l.len() <= max || max == 0 {
        seq![l]
    } else if l.len() <= 2 * max {
        seq![l.take(max as int), l.skip(max as int)]
    } else {
        seq![l.take(max as int)] + hard_wrap_line(l.skip(max as int), max)
    }
}

/// The lines of a TXT -> image render: each source line as is when it
/// fits `max` columns, otherwise cut into `max`-wide pieces.
pub open spec fn spec_image_lines(text: Seq<char>, max: nat) -> Seq<Seq<char>> {
    image_lines_of(split_on(text, seq!['\n']), max)
}

/// The image lines of a list of source lines, in order.
pub open spec fn image_lines_of(raws: Seq<Seq<char>>, max: nat) -> Seq<Seq<char>>
    decreases raws.len(),
{
    if raws.len() == 0 {
        Seq::empty()
    } else {
        image_lines_of(raws.drop_last(), max) + hard_wrap_line(raws.last(), max)
    }
}

/// Cuts `l` into `max`-wide pieces and appends them to `out`.
fn hard_wrap_into(l: &Vec<char>, max: usize, out: &mut Vec<Vec<char>>)
    requires
        max > 0,
    ensures
        vec_views(final(out)@) == vec_views(old(out)@) + hard_wrap_line(l@, max as nat),
{
    let n = l.len();
    let mut start: usize = 0;
    proof {
        assert(l@.skip(0) =~= l@);
        assert(vec_views(out@) + hard_wrap_line(l@.skip(0), max as nat) =~= vec_views(old(out)@)
            + hard_wrap_line(l@, max as nat));
    }
    loop
        invariant
            start <= n,
            n == l@.len(),
            max > 0,
            vec_views(out@) + hard_wrap_line(l@.skip(start as int), max as nat) == vec_views(old(out)@)
                + hard_wrap_line(l@, max as nat),
        decreases n - start,
    {
        let ghost ov = vec_views(out@);
        let rest_len = n - start;
        if rest_len <= max {
            let piece = sub_chars(l, start, n);
            let ghost pv = piece;
            out.push(piece);
            proof {
                assert(pv@ =~= l@.skip(start as int));
                assert(vec_views(out@) =~= ov.push(pv@));
                assert(vec_views(out@) =~= ov + hard_wrap_line(l@.skip(start as int), max as nat));
            }
            return;
        }
        let piece = sub_chars(l, start, start + max);
        let ghost pv = piece;
        out.push(piece);
        proof {
            let rest = l@.skip(start as int);
            assert(pv@ =~= rest.take(max as int));
            assert(rest.skip(max as int) =~= l@.skip(start + max));
            assert(vec_views(out@) =~= ov.push(pv@));
            if rest.len() <= 2 * max {
                assert(hard_wrap_line(rest.skip(max as int), max as nat) == seq![rest.skip(max as int)]);
                assert(hard_wrap_line(rest, max as nat) =~= seq![rest.take(max as int)] + hard_wrap_line(
                    rest.skip(max as int),
                    max as nat,
                ));
            }
            assert(vec_views(out@) + hard_wrap_line(l@.skip(start + max), max as nat) =~= ov
                + hard_wrap_line(rest, max as nat));
        }
        start = start + max;
    }
}

/// Splits `text` at its line breaks, then cuts any line longer than
/// `max_columns` characters into `max_columns`-wide pieces; there is
/// always at least one line.
pub fn wrap_lines(text: &str, max_columns: usize) -> (r: Vec<String>)
    requires
        max_columns > 0,
    ensures
        crate::convert::string_views(r@) == spec_image_lines(text@, max_columns as nat),
        r@.len() >= 1,
{
    let s = chars_of(text);
    let nl: Vec<char> = vec!['\n'];
    proof {
        assert(nl@ =~= seq!['\n']);
        crate::text::lemma_split_on_nonempty(s@, seq!['\n']);
    }
    let raws = split_chars(&s, &nl);
    let ghost rv = vec_views(raws@);
    let mut lines: Vec<Vec<char>> = Vec::new();
    for i in 0..raws.len()
        invariant
            max_columns > 0,
            rv == vec_views(raws@),
            vec_views(lines@) == image_lines_of(rv.take(i as int), max_columns as nat),
            i > 0 ==> lines@.len() >= 1,
    {
        proof {
            assert(rv.take(i + 1).drop_last() =~= rv.take(i as int));
            assert(rv.take(i + 1).last() == raws@[i as int]@);
        }
        let ghost before = lines@.len();
        hard_wrap_into(&raws[i], max_columns, &mut lines);
        proof {
            lemma_hard_wrap_nonempty(raws@[i as int]@, max_columns as nat);
            assert(vec_views(lines@).len() == lines@.len());
        }
    }
    proof {
        assert(rv.take(rv.len() as int) =~= rv);
    }
    let ghost lv = vec_views(lines@);
    let mut out: Vec<String> = Vec::new();
    for j in 0..lines.len()
        invariant
            lv == vec_views(lines@),
            crate::convert::string_views(out@) == lv.take(j as int),
    {
        let ghost before = out@;
        let st = string_from_chars(&lines[j]);
        let ghost sv = st@;
        out.push(st);
        proof {
            assert(crate::convert::string_views(out@) =~= crate::convert::string_views(before).push(sv));
            assert(lv.take(j + 1) =~= lv.take(j as int).push(lines@[j as int]@));
        }
    }
    proof {
        assert(lv.take(lv.len() as int) =~= lv);
    }
    out
}

proof fn lemma_hard_wrap_nonempty(l: Seq<char>, max: nat)
    ensures
        hard_wrap_line(l, max).len() >= 1,
    decreases l.len(),
{
    if l.len() > 2 * max && max > 0 {
        lemma_hard_wrap_nonempty(l.skip(max as int), max);
    }
}

/// One character escaped for XML text or attribute content.
pub open spec fn xml_escape_char(c: char) -> Seq<char> {
    if c == '&' {
        "&amp;"@
    } else if c == '<' {
        "&lt;"@
    } else if c == '>' {
        "&gt;"@
    } else if c == '"' {
        "&quot;"@
    } else if c == '\'' {
        "&apos;"@
    } else {
        seq![c]
    }
}

/// `s` with `&`, `<`, `>`, `"` and `'` escaped as XML entities.
pub open spec fn spec_xml_escape(s: Seq<char>) -> Seq<char>
    decreases s.len(),
{
    if s.len() == 0 {
        Seq::empty()
    } else {
        spec_xml_escape(s.drop_last()) + xml_escape_char(s.last())
    }
}

/// Escapes the five XML special characters of `input`.
pub fn xml_escape(input: &str) -> (r: String)
    ensures
        r@ == spec_xml_escape(input@),
{
    let cs = chars_of(input);
    let mut out: Vec<char> = Vec::new();
    for i in 0..cs.len()
        invariant
            out@ == spec_xml_escape(cs@.take(i as int)),
    {
        proof {
            assert(cs@.take(i + 1).drop_last() =~= cs@.take(i as int));
        }
        let c = cs[i];
        if c == '&' {
            crate::text::push_str(&mut out, "&amp;");
        } else if c == '<' {
            crate::text::push_str(&mut out, "&lt;");
        } else if c == '>' {
            crate::text::push_str(&mut out, "&gt;");
        } else if c == '"' {
            crate::text::push_str(&mut out, "&quot;");
        } else if c == '\'' {
            crate::text::push_str(&mut out, "&apos;");
        } else {
            out.push(c);
        }
    }
    proof {
        assert(cs@.take(cs@.len() as int) =~= input@);
    }
    string_from_chars(&out)
}

} // verus!
