//! TXT -> JPG/PNG: the text drawn as one tall white image in the public
//! domain 8x8 bitmap font of the `font8x8` crate, each glyph scaled three
//! times, with a margin round the text. This module decides the image's
//! size and which squares of it are inked; filling pixels is the caller's.
use crate::convert::layout::{spec_image_lines, wrap_lines};
use crate::convert::string_views;
use vstd::prelude::*;

verus! {

/// How many times each font pixel is scaled up.
pub const SCALE: u32 = 3;

/// The width and height of one character cell, in pixels.
pub const CELL: u32 = 24;

/// The wrap width, in characters.
pub const MAX_COLUMNS: usize = 100;

/// The blank margin round the text, in pixels.
pub const MARGIN_PX: u32 = 20;

/// The longest of `lines`, in characters.
pub open spec fn longest(lines: Seq<Seq<char>>) -> nat
    decreases lines.len(),
{
    if lines.len() == 0 {
        0
    } else {
        let rest = longest(lines.drop_last());
        if lines.last().len() > rest {
            lines.last().len()
        } else {
            rest
        }
    }
}

/// The image's width for `lines`: the margins and one cell per character
/// of the longest line (at least one).
pub open spec fn image_width(lines: Seq<Seq<char>>) -> int {
    2 * MARGIN_PX + (if longest(lines) > 0 { longest(lines) } else { 1 }) * CELL
}

/// The image's height for `lines`: the margins and one cell per line (at least one).
pub open spec fn image_height(lines: Seq<Seq<char>>) -> int {
    2 * MARGIN_PX + (if lines.len() > 0 { lines.len() } else { 1 }) * CELL
}

/// The lines of a text image and the image's size.
pub struct TextImageLayout {
    pub lines: Vec<String>,
    pub width: u32,
    pub height: u32,
}

/// Lays out `text` for drawing: its lines as [`wrap_lines`] cuts them at
/// [`MAX_COLUMNS`], and the image size; `None` when that size does not fit
/// in `u32`.
pub fn text_image_layout(text: &str) -> (r: Option<TextImageLayout>)
    ensures
        ({
            let lines = spec_image_lines(text@, MAX_COLUMNS as nat);
            if image_width(lines) <= u32::MAX && image_height(lines) <= u32::MAX {
                r matches Some(l) && string_views(l.lines@) == lines && l.width == image_width(lines)
                    && l.height == image_height(lines)
            } else {
                r is None
            }
        }),
{
    let lines = wrap_lines(text, MAX_COLUMNS);
    let ghost views = string_views(lines@);
    let mut longest_len: usize = 0;
    for i in 0..lines.len()
        invariant
            views == string_views(lines@),
            longest_len == longest(views.take(i as int)),
    {
        proof {
            assert(views.take(i + 1).drop_last() =~= views.take(i as int));
            assert(views.take(i + 1).last() == lines@[i as int]@);
        }
        let n = crate::text::chars_of(lines[i].as_str()).len();
        if n > longest_len {
            longest_len = n;
        }
    }
    proof {
        assert(views.take(lines@.len() as int) =~= views);
    }
    let cols: u64 = if longest_len > 0 { longest_len as u64 } else { 1 };
    let rows: u64 = if lines.len() > 0 { lines.len() as u64 } else { 1 };
    if cols > 178956969 || rows > 178956969 {
        return None;
    }
    let width: u64 = 40 + cols * 24;
    let height: u64 = 40 + rows * 24;
    if width > 0xffff_ffff || height > 0xffff_ffff {
        return None;
    }
    Some(TextImageLayout { lines, width: width as u32, height: height as u32 })
}

/// Whether font row byte `b` inks column `col` (bit `col`, least significant first).
pub open spec fn inks(b: u8, col: u32) -> bool {
    b & (1u8 << col) != 0
}

/// The font's glyph rows for the ASCII code `code`, as `font8x8` holds them.
pub uninterp spec fn basic_glyph_rows(code: u8) -> Seq<u8>;

/// Reads `font8x8::legacy::BASIC_LEGACY[code]`: the eight row bytes of
/// the glyph for the ASCII code `code`, named `basic_glyph_rows`.
#[verifier::external_body]
fn basic_glyph(code: u8) -> (r: [u8; 8])
    requires
        code < 128,
    ensures
        r@ == basic_glyph_rows(code),
{
    font8x8::legacy::BASIC_LEGACY[code as usize]
}

/// The inked squares of a glyph with rows `rows`, from font pixel `k` on
/// (row `k / 8`, column `k % 8`), each as the (column, row) of its font pixel.
pub open spec fn inked_from(rows: Seq<u8>, k: nat) -> Seq<(u32, u32)>
    decreases 64 - k,
{
    if k >= 64 {
        Seq::empty()
    } else {
        let rest = inked_from(rows, k + 1);
        if inks(rows[(k / 8) as int], (k % 8) as u32) {
            seq![((k % 8) as u32, (k / 8) as u32)] + rest
        } else {
            rest
        }
    }
}

/// The top-left corners of the `SCALE`-wide squares inked for font pixels
/// `px`, in a cell whose top-left corner is `(x0, y0)`.
pub open spec fn placed(px: Seq<(u32, u32)>, x0: u32, y0: u32) -> Seq<(u32, u32)> {
    px.map_values(|p: (u32, u32)| ((x0 + p.0 * SCALE) as u32, (y0 + p.1 * SCALE) as u32))
}

/// The squares to ink for character `c` drawn in the cell at `(x0, y0)`:
/// those of its glyph for an ASCII character; none for any other (a blank cell).
pub fn glyph_squares(c: char, x0: u32, y0: u32) -> (r: Vec<(u32, u32)>)
    requires
        x0 + CELL <= u32::MAX,
        y0 + CELL <= u32::MAX,
    ensures
        (c as u32) < 128 ==> r@ == placed(inked_from(basic_glyph_rows(c as u8), 0), x0, y0),
        (c as u32) >= 128 ==> r@.len() == 0,
{
    let mut out: Vec<(u32, u32)> = Vec::new();
    let code = c as u32;
    if code >= 128 {
        return out;
    }
    let rows = basic_glyph(code as u8);
    let ghost want = placed(inked_from(rows@, 0), x0, y0);
    let mut k: u32 = 0;
    while k < 64
        invariant
            k <= 64,
            rows@.len() == 8,
            x0 + CELL <= u32::MAX,
            y0 + CELL <= u32::MAX,
            want == placed(inked_from(rows@, 0), x0, y0),
            want == out@ + placed(inked_from(rows@, k as nat), x0, y0),
        decreases 64 - k,
    {
        let row = k / 8;
        let col = k % 8;
        let ghost rest = inked_from(rows@, (k + 1) as nat);
        if rows[row as usize] & (1u8 << col) != 0 {
            proof {
                assert(inked_from(rows@, k as nat) == seq![(col, row)] + rest);
                assert(placed(seq![(col, row)] + rest, x0, y0) =~= seq![
                    ((x0 + col * SCALE) as u32, (y0 + row * SCALE) as u32),
                ] + placed(rest, x0, y0));
            }
            out.push((x0 + col * 3, y0 + row * 3));
            proof {
                assert(want =~= out@ + placed(rest, x0, y0));
            }
        } else {
            proof {
                assert(inked_from(rows@, k as nat) == rest);
            }
        }
        k = k + 1;
    }
    proof {
        assert(inked_from(rows@, 64) =~= Seq::<(u32, u32)>::empty());
        assert(placed(Seq::<(u32, u32)>::empty(), x0, y0) =~= Seq::<(u32, u32)>::empty());
        assert(want =~= out@);
    }
    out
}

} // verus!
