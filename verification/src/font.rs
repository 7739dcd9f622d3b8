//! Painting: clipped rectangles, scaled glyphs and lines of text.
//!
//! Origins are signed, so that a shape may start left of or above the image;
//! whatever falls outside the image is clipped without a trace.

use vstd::prelude::*;
use vstd::arithmetic::div_mod::lemma_fundamental_div_mod;
use vstd::arithmetic::div_mod::lemma_fundamental_div_mod_converse;
use vstd::arithmetic::div_mod::lemma_mod_bound;
use crate::buffer::PixelBuffer;
use crate::buffer::Rgb;
use crate::buffer::Rgba;
use crate::glyph::glyph_for;
use crate::glyph::glyph_of;
use crate::glyph::is_supported;
use crate::glyph::Glyph;

verus! {

/// `v` moved into the interval from `lo` to `hi`.
pub open spec fn clamp(v: int, lo: int, hi: int) -> int {
    if v < lo {
        lo
    } else if v > hi {
        hi
    } else {
        v
    }
}

/// `(x, y)` lies in the rectangle that starts at `(x0, y0)` and is `width`
/// wide and `height` high.
pub open spec fn in_rect(x0: int, y0: int, width: int, height: int, x: int, y: int) -> bool {
    x0 <= x < x0 + width && y0 <= y < y0 + height
}

/// `(x, y)` lies on an ink cell of `glyph`, drawn with its top left corner at
/// `(x0, y0)` and each cell blown up to `scale_x` × `scale_y` pixels.
pub open spec fn glyph_covers(
    glyph: Glyph,
    x0: int,
    y0: int,
    scale_x: int,
    scale_y: int,
    x: int,
    y: int,
) -> bool {
    &&& scale_x > 0
    &&& scale_y > 0
    &&& x0 <= x
    &&& y0 <= y
    &&& glyph.ink((y - y0) / scale_y, (x - x0) / scale_x)
}

/// `(x, y)` lies on the ink of the `i`-th character of `text`, where the line
/// starts at `(origin_x, origin_y)`, a character cell is `cell_width` ×
/// `cell_height` pixels, a glyph cell a fifth of that (rounded down), and
/// consecutive characters are `cell_width + padding` pixels apart.
pub open spec fn char_covers(
    text: Seq<char>,
    i: int,
    origin_x: int,
    origin_y: int,
    cell_width: int,
    cell_height: int,
    padding: int,
    x: int,
    y: int,
) -> bool {
    glyph_covers(
        glyph_of(text[i]),
        origin_x + i * (cell_width + padding),
        origin_y,
        cell_width / 5,
        cell_height / 5,
        x,
        y,
    )
}

/// `(x, y)` lies on the ink of some character among the first `count` of
/// `text`.
pub open spec fn prefix_covers(
    text: Seq<char>,
    count: int,
    origin_x: int,
    origin_y: int,
    cell_width: int,
    cell_height: int,
    padding: int,
    x: int,
    y: int,
) -> bool {
    exists|i: int|
        0 <= i < count && #[trigger] char_covers(
            text,
            i,
            origin_x,
            origin_y,
            cell_width,
            cell_height,
            padding,
            x,
            y,
        )
}

/// `(x, y)` lies on the ink of the line `text`.
pub open spec fn text_covers(
    text: Seq<char>,
    origin_x: int,
    origin_y: int,
    cell_width: int,
    cell_height: int,
    padding: int,
    x: int,
    y: int,
) -> bool {
    prefix_covers(
        text,
        text.len() as int,
        origin_x,
        origin_y,
        cell_width,
        cell_height,
        padding,
        x,
        y,
    )
}

/// With a positive `step`, `t` lies in the `k`-th stretch of `step`
/// consecutive integers exactly when `t / step` is `k`.
proof fn lemma_cell_index(t: int, step: int, k: int)
    requires
        step > 0,
    ensures
        (k * step <= t < k * step + step) <==> t / step == k,
{
    lemma_fundamental_div_mod(t, step);
    lemma_mod_bound(t, step);
    if k * step <= t < k * step + step {
        lemma_fundamental_div_mod_converse(t, step, k, t - k * step);
    }
    if t / step == k {
        assert(step * k == k * step) by (nonlinear_arith);
    }
}

/// Clips the stretch of `extent` integers that starts at `origin` to the
/// range from 0 up to `limit`.
fn clip(origin: i128, extent: usize, limit: usize) -> (r: (usize, usize))
    ensures
        r.0 == clamp(origin as int, 0, limit as int),
        r.1 == clamp(origin + extent, 0, limit as int),
{
    if origin >= limit as i128 {
        return (limit, limit);
    }
    let end: i128 = origin + extent as i128;
    if end <= 0 {
        return (0, 0);
    }
    let lo: usize = if origin <= 0 {
        0
    } else {
        origin as usize
    };
    let hi: usize = if end >= limit as i128 {
        limit
    } else {
        end as usize
    };
    (lo, hi)
}

/// Paints the pixels of row `y` from column `xa` up to, not including, `xb`.
fn fill_span(buf: &mut PixelBuffer, y: usize, xa: usize, xb: usize, color: Rgba)
    requires
        old(buf).wf(),
        y < old(buf).height,
        xa <= xb <= old(buf).width,
    ensures
        final(buf).wf(),
        final(buf).width == old(buf).width,
        final(buf).height == old(buf).height,
        forall|x2: int, y2: int|
            old(buf).contains(x2, y2) ==> #[trigger] final(buf).pixel_at(x2, y2) == if y2 == y
                && xa <= x2 < xb {
                color
            } else {
                old(buf).pixel_at(x2, y2)
            },
{
    let mut x: usize = xa;
    while x < xb
        invariant
            buf.wf(),
            buf.width == old(buf).width,
            buf.height == old(buf).height,
            y < buf.height,
            xa <= x <= xb <= buf.width,
            forall|x2: int, y2: int|
                buf.contains(x2, y2) ==> #[trigger] buf.pixel_at(x2, y2) == if y2 == y && xa <= x2
                    < x {
                    color
                } else {
                    old(buf).pixel_at(x2, y2)
                },
        decreases xb - x,
    {
        buf.put_pixel(x, y, color);
        x += 1;
    }
}

/// Paints the rectangle that starts at `(x0, y0)` and is `width` wide and
/// `height` high, as far as it lies inside the image.
pub fn fill_rect(
    buf: &mut PixelBuffer,
    x0: i128,
    y0: i128,
    width: usize,
    height: usize,
    color: Rgba,
)
    requires
        old(buf).wf(),
    ensures
        final(buf).wf(),
        final(buf).width == old(buf).width,
        final(buf).height == old(buf).height,
        forall|x: int, y: int|
            old(buf).contains(x, y) ==> #[trigger] final(buf).pixel_at(x, y) == if in_rect(
                x0 as int,
                y0 as int,
                width as int,
                height as int,
                x,
                y,
            ) {
                color
            } else {
                old(buf).pixel_at(x, y)
            },
{
    let (xa, xb) = clip(x0, width, buf.width);
    let (ya, yb) = clip(y0, height, buf.height);
    let mut y: usize = ya;
    while y < yb
        invariant
            buf.wf(),
            buf.width == old(buf).width,
            buf.height == old(buf).height,
            xa <= xb <= buf.width,
            ya <= y <= yb <= buf.height,
            forall|x2: int, y2: int|
                buf.contains(x2, y2) ==> #[trigger] buf.pixel_at(x2, y2) == if ya <= y2 < y && xa
                    <= x2 < xb {
                    color
                } else {
                    old(buf).pixel_at(x2, y2)
                },
        decreases yb - y,
    {
        fill_span(buf, y, xa, xb, color);
        y += 1;
    }
}

/// Whether glyph cell `(r, c)` comes before cell `(row, col)` when the cells
/// are visited row by row.
spec fn cell_before(r: int, c: int, row: int, col: int) -> bool {
    r < row || (r == row && c < col)
}

/// Paints `glyph` with its top left corner at `(x0, y0)`, each ink cell as a
/// solid block of `scale_x` × `scale_y` pixels.
pub fn draw_glyph(
    buf: &mut PixelBuffer,
    glyph: Glyph,
    x0: i128,
    y0: i128,
    scale_x: usize,
    scale_y: usize,
    color: Rgba,
)
    requires
        old(buf).wf(),
    ensures
        final(buf).wf(),
        final(buf).width == old(buf).width,
        final(buf).height == old(buf).height,
        forall|x: int, y: int|
            old(buf).contains(x, y) ==> #[trigger] final(buf).pixel_at(x, y) == if glyph_covers(
                glyph,
                x0 as int,
                y0 as int,
                scale_x as int,
                scale_y as int,
                x,
                y,
            ) {
                color
            } else {
                old(buf).pixel_at(x, y)
            },
{
    if scale_x == 0 || scale_y == 0 || x0 >= buf.width as i128 || y0 >= buf.height as i128 {
        return ;
    }
    let mut row: usize = 0;
    while row < 5
        invariant
            buf.wf(),
            buf.width == old(buf).width,
            buf.height == old(buf).height,
            scale_x > 0,
            scale_y > 0,
            x0 < buf.width,
            y0 < buf.height,
            row <= 5,
            forall|x: int, y: int|
                buf.contains(x, y) ==> #[trigger] buf.pixel_at(x, y) == if glyph_covers(
                    glyph,
                    x0 as int,
                    y0 as int,
                    scale_x as int,
                    scale_y as int,
                    x,
                    y,
                ) && (y - y0) / (scale_y as int) < row {
                    color
                } else {
                    old(buf).pixel_at(x, y)
                },
        decreases 5 - row,
    {
        assert(0 <= row * scale_y <= 4 * usize::MAX) by (nonlinear_arith)
            requires
                row <= 4,
                scale_y <= usize::MAX,
        ;
        let cell_y: i128 = y0 + (row as i128) * (scale_y as i128);
        let mut col: usize = 0;
        while col < 5
            invariant
                buf.wf(),
                buf.width == old(buf).width,
                buf.height == old(buf).height,
                scale_x > 0,
                scale_y > 0,
                x0 < buf.width,
                y0 < buf.height,
                row < 5,
                col <= 5,
                cell_y == y0 + row * scale_y,
                forall|x: int, y: int|
                    buf.contains(x, y) ==> #[trigger] buf.pixel_at(x, y) == if glyph_covers(
                        glyph,
                        x0 as int,
                        y0 as int,
                        scale_x as int,
                        scale_y as int,
                        x,
                        y,
                    ) && cell_before(
                        (y - y0) / (scale_y as int),
                        (x - x0) / (scale_x as int),
                        row as int,
                        col as int,
                    ) {
                        color
                    } else {
                        old(buf).pixel_at(x, y)
                    },
            decreases 5 - col,
        {
            if glyph.has_ink(row, col) {
                assert(0 <= col * scale_x <= 4 * usize::MAX) by (nonlinear_arith)
                    requires
                        col <= 4,
                        scale_x <= usize::MAX,
                ;
                let cell_x: i128 = x0 + (col as i128) * (scale_x as i128);
                fill_rect(buf, cell_x, cell_y, scale_x, scale_y, color);
                proof {
                    assert forall|x: int, y: int| buf.contains(x, y) implies #[trigger] buf.pixel_at(
                        x,
                        y,
                    ) == if glyph_covers(
                        glyph,
                        x0 as int,
                        y0 as int,
                        scale_x as int,
                        scale_y as int,
                        x,
                        y,
                    ) && cell_before(
                        (y - y0) / (scale_y as int),
                        (x - x0) / (scale_x as int),
                        row as int,
                        col + 1,
                    ) {
                        color
                    } else {
                        old(buf).pixel_at(x, y)
                    } by {
                        lemma_cell_index(x - x0, scale_x as int, col as int);
                        lemma_cell_index(y - y0, scale_y as int, row as int);
                    }
                }
            }
            col += 1;
        }
        row += 1;
    }
}

/// Paints `text` as one line of the bitmap font, starting at
/// `(origin_x, origin_y)`.
///
/// A character cell is `cell_width` × `cell_height` pixels; each of the 5×5
/// cells of a glyph is painted as a block of `cell_width / 5` ×
/// `cell_height / 5` pixels, and the characters follow each other at steps of
/// `cell_width + padding` pixels. Painted pixels are fully opaque. Pixels
/// that would fall outside the image are left out.
pub fn draw_text(
    buf: &mut PixelBuffer,
    text: &str,
    origin_x: i128,
    origin_y: i128,
    cell_width: usize,
    cell_height: usize,
    padding: usize,
    color: Rgb,
)
    requires
        old(buf).wf(),
    ensures
        final(buf).wf(),
        final(buf).width == old(buf).width,
        final(buf).height == old(buf).height,
        forall|x: int, y: int|
            old(buf).contains(x, y) ==> #[trigger] final(buf).pixel_at(x, y) == if text_covers(
                text@,
                origin_x as int,
                origin_y as int,
                cell_width as int,
                cell_height as int,
                padding as int,
                x,
                y,
            ) {
                color.opaque()
            } else {
                old(buf).pixel_at(x, y)
            },
{
    let scale_x = cell_width / 5;
    let scale_y = cell_height / 5;
    let advance: i128 = cell_width as i128 + padding as i128;
    let ink = color.to_rgba();
    let mut char_x: i128 = origin_x;
    let mut past_edge: bool = false;
    for c in it: text.chars()
        invariant
            it.seq() == text@,
            buf.wf(),
            buf.width == old(buf).width,
            buf.height == old(buf).height,
            scale_x == cell_width / 5,
            scale_y == cell_height / 5,
            advance == cell_width + padding,
            ink == color.opaque(),
            !past_edge ==> char_x == origin_x + it.index() * advance,
            past_edge ==> origin_x + it.index() * advance >= buf.width,
            forall|x: int, y: int|
                buf.contains(x, y) ==> #[trigger] buf.pixel_at(x, y) == if prefix_covers(
                    text@,
                    it.index() as int,
                    origin_x as int,
                    origin_y as int,
                    cell_width as int,
                    cell_height as int,
                    padding as int,
                    x,
                    y,
                ) {
                    ink
                } else {
                    old(buf).pixel_at(x, y)
                },
    {
        let ghost k = it.index() as int;
        proof {
            assert((k + 1) * advance == k * advance + advance) by (nonlinear_arith);
        }
        if !past_edge && char_x >= buf.width as i128 {
            past_edge = true;
        }
        if !past_edge {
            draw_glyph(buf, glyph_for(c), char_x, origin_y, scale_x, scale_y, ink);
            char_x = char_x + advance;
        }
        proof {
            assert forall|x: int, y: int| buf.contains(x, y) implies #[trigger] buf.pixel_at(x, y)
                == if prefix_covers(
                text@,
                k + 1,
                origin_x as int,
                origin_y as int,
                cell_width as int,
                cell_height as int,
                padding as int,
                x,
                y,
            ) {
                ink
            } else {
                old(buf).pixel_at(x, y)
            } by {
                lemma_prefix_step(
                    text@,
                    k,
                    origin_x as int,
                    origin_y as int,
                    cell_width as int,
                    cell_height as int,
                    padding as int,
                    x,
                    y,
                );
            }
        }
    }
}

/// The first `count + 1` characters cover a pixel exactly when the first
/// `count` do or the character after them does.
proof fn lemma_prefix_step(
    text: Seq<char>,
    count: int,
    origin_x: int,
    origin_y: int,
    cell_width: int,
    cell_height: int,
    padding: int,
    x: int,
    y: int,
)
    requires
        0 <= count,
    ensures
        prefix_covers(text, count + 1, origin_x, origin_y, cell_width, cell_height, padding, x, y)
            <==> (prefix_covers(
            text,
            count,
            origin_x,
            origin_y,
            cell_width,
            cell_height,
            padding,
            x,
            y,
        ) || char_covers(
            text,
            count,
            origin_x,
            origin_y,
            cell_width,
            cell_height,
            padding,
            x,
            y,
        )),
{
}

/// A character that the font lacks is drawn as a space is: replacing it by a
/// space changes no pixel of the line.
pub proof fn lemma_unsupported_draws_as_space(
    text: Seq<char>,
    i: int,
    origin_x: int,
    origin_y: int,
    cell_width: int,
    cell_height: int,
    padding: int,
    x: int,
    y: int,
)
    requires
        0 <= i < text.len(),
        !is_supported(text[i]),
    ensures
        text_covers(text, origin_x, origin_y, cell_width, cell_height, padding, x, y)
            == text_covers(
            text.update(i, ' '),
            origin_x,
            origin_y,
            cell_width,
            cell_height,
            padding,
            x,
            y,
        ),
{
    let spaced = text.update(i, ' ');
    assert forall|j: int| 0 <= j < text.len() implies #[trigger] char_covers(
        text,
        j,
        origin_x,
        origin_y,
        cell_width,
        cell_height,
        padding,
        x,
        y,
    ) == char_covers(spaced, j, origin_x, origin_y, cell_width, cell_height, padding, x, y) by {
        if j == i {
            assert(glyph_of(text[i]) == glyph_of(' '));
        }
    }
    if text_covers(text, origin_x, origin_y, cell_width, cell_height, padding, x, y) {
        let j = choose|j: int|
            0 <= j < text.len() && #[trigger] char_covers(
                text,
                j,
                origin_x,
                origin_y,
                cell_width,
                cell_height,
                padding,
                x,
                y,
            );
        assert(char_covers(spaced, j, origin_x, origin_y, cell_width, cell_height, padding, x, y));
    }
    if text_covers(spaced, origin_x, origin_y, cell_width, cell_height, padding, x, y) {
        let j = choose|j: int|
            0 <= j < spaced.len() && #[trigger] char_covers(
                spaced,
                j,
                origin_x,
                origin_y,
                cell_width,
                cell_height,
                padding,
                x,
                y,
            );
        assert(char_covers(text, j, origin_x, origin_y, cell_width, cell_height, padding, x, y));
    }
}

} // verus!
