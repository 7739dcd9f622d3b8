//! The procedural source patterns and the calibration marks stamped on them.

use vstd::prelude::*;
use crate::buffer::buffer_fits;
use crate::buffer::PixelBuffer;
use crate::buffer::Rgb;
use crate::buffer::Rgba;
use crate::font::draw_text;
use crate::font::fill_rect;
use crate::font::text_covers;
use crate::text::center_line;
use crate::text::centered_origin;
use crate::text::display_line;
use crate::text::text_of;
use crate::text::to_uppercase;
use crate::text::truncate_for_display;
use crate::text::uppercase_of;

verus! {

/// The pattern that fills the source image.
#[derive(Clone, Copy, Debug, PartialEq, Eq, Structural)]
pub enum PatternType {
    Checkerboard,
    Gradient,
    Text,
}

/// Edge length of a checkerboard square, in pixels.
pub const SQUARE_SIZE: usize = 20;

/// Thickness of the border stamped along the four edges, in pixels.
pub const BORDER_THICKNESS: usize = 3;

/// Edge length of the boxes stamped into the four corners, in pixels.
pub const CORNER_SIZE: usize = 15;

/// The light squares of the checkerboard.
#[verifier::allow_in_spec]
pub fn white() -> Rgba
    returns
        (Rgba { r: 255, g: 255, b: 255, a: 255 }),
{
    Rgba { r: 255, g: 255, b: 255, a: 255 }
}

/// The dark squares of the checkerboard.
#[verifier::allow_in_spec]
pub fn black() -> Rgba
    returns
        (Rgba { r: 0, g: 0, b: 0, a: 255 }),
{
    Rgba { r: 0, g: 0, b: 0, a: 255 }
}

/// The border and the top left corner box.
#[verifier::allow_in_spec]
pub fn red() -> Rgba
    returns
        (Rgba { r: 255, g: 0, b: 0, a: 255 }),
{
    Rgba { r: 255, g: 0, b: 0, a: 255 }
}

/// The top right corner box.
#[verifier::allow_in_spec]
pub fn green() -> Rgba
    returns
        (Rgba { r: 0, g: 255, b: 0, a: 255 }),
{
    Rgba { r: 0, g: 255, b: 0, a: 255 }
}

/// The bottom left corner box.
#[verifier::allow_in_spec]
pub fn blue() -> Rgba
    returns
        (Rgba { r: 0, g: 0, b: 255, a: 255 }),
{
    Rgba { r: 0, g: 0, b: 255, a: 255 }
}

/// The bottom right corner box.
#[verifier::allow_in_spec]
pub fn yellow() -> Rgba
    returns
        (Rgba { r: 255, g: 255, b: 0, a: 255 }),
{
    Rgba { r: 255, g: 255, b: 0, a: 255 }
}

/// Background of the text banner.
#[verifier::allow_in_spec]
pub fn banner_background() -> Rgba
    returns
        (Rgba { r: 230, g: 235, b: 240, a: 255 }),
{
    Rgba { r: 230, g: 235, b: 240, a: 255 }
}

/// Ink of the banner's main line.
#[verifier::allow_in_spec]
pub fn primary_ink() -> Rgb
    returns
        (Rgb { r: 30, g: 30, b: 180 }),
{
    Rgb { r: 30, g: 30, b: 180 }
}

/// Ink of the banner's second line.
#[verifier::allow_in_spec]
pub fn secondary_ink() -> Rgb
    returns
        (Rgb { r: 20, g: 120, b: 20 }),
{
    Rgb { r: 20, g: 120, b: 20 }
}

/// Ink of the caption near the bottom of the banner.
#[verifier::allow_in_spec]
pub fn caption_ink() -> Rgb
    returns
        (Rgb { r: 150, g: 50, b: 50 }),
{
    Rgb { r: 150, g: 50, b: 50 }
}

/// The checkerboard: white where the square that holds `(x, y)` has an even
/// sum of column and row, black elsewhere.
pub open spec fn checkerboard_pixel(x: int, y: int) -> Rgba {
    if (x / 20 + y / 20) % 2 == 0 {
        white()
    } else {
        black()
    }
}

/// The gradient: red grows with `x`, green with `y`, each scaled to the
/// range below 255 and rounded down; blue is fixed.
pub open spec fn gradient_pixel(width: int, height: int, x: int, y: int) -> Rgba {
    Rgba { r: (x * 255 / width) as u8, g: (y * 255 / height) as u8, b: 200, a: 255 }
}

/// The main line of the banner: the given text, or a standing notice where
/// none is set.
pub open spec fn primary_line(primary: Option<Seq<char>>) -> Seq<char> {
    match primary {
        Some(s) => s,
        None => "COMING SOON"@,
    }
}

/// Vertical origin of the banner's main line.
pub open spec fn primary_top(height: int) -> int {
    height / 2 - 40
}

/// `(x, y)` lies on the ink of the banner's main line.
pub open spec fn primary_covers(
    width: int,
    height: int,
    primary: Option<Seq<char>>,
    x: int,
    y: int,
) -> bool {
    let line = primary_line(primary);
    text_covers(
        line,
        centered_origin(width, line.len() as int, 36),
        primary_top(height),
        32,
        40,
        4,
        x,
        y,
    )
}

/// `(x, y)` lies on the ink of the banner's second line, which shows
/// `secondary` shortened for display and then upper-cased, in half-size
/// cells, 80 pixels below the top of the main line. The line is centred by
/// the length it had before upper-casing.
pub open spec fn secondary_covers(
    width: int,
    height: int,
    secondary: Seq<char>,
    x: int,
    y: int,
) -> bool {
    let shown = display_line(secondary);
    text_covers(
        uppercase_of(shown),
        centered_origin(width, shown.len() as int, 18),
        primary_top(height) + 80,
        16,
        20,
        2,
        x,
        y,
    )
}

/// `(x, y)` lies on the ink of the caption, 60 pixels above the bottom edge.
pub open spec fn caption_covers(width: int, height: int, x: int, y: int) -> bool {
    let line = "FILE SELECTED"@;
    text_covers(line, centered_origin(width, line.len() as int, 13), height - 60, 12, 15, 1, x, y)
}

/// The text banner. The caption lies over the second line, and the second
/// line over the main line; both appear only where a second line is set.
pub open spec fn text_pixel(
    width: int,
    height: int,
    primary: Option<Seq<char>>,
    secondary: Option<Seq<char>>,
    x: int,
    y: int,
) -> Rgba {
    if secondary is Some && caption_covers(width, height, x, y) {
        caption_ink().opaque()
    } else if secondary is Some && secondary_covers(width, height, secondary->0, x, y) {
        secondary_ink().opaque()
    } else if primary_covers(width, height, primary, x, y) {
        primary_ink().opaque()
    } else {
        banner_background()
    }
}

/// The pattern of the given kind, before any mark is stamped on it.
pub open spec fn base_pixel(
    kind: PatternType,
    width: int,
    height: int,
    primary: Option<Seq<char>>,
    secondary: Option<Seq<char>>,
    x: int,
    y: int,
) -> Rgba {
    match kind {
        PatternType::Checkerboard => checkerboard_pixel(x, y),
        PatternType::Gradient => gradient_pixel(width, height, x, y),
        PatternType::Text => text_pixel(width, height, primary, secondary, x, y),
    }
}

/// `(x, y)` lies within three pixels of an edge along which the border is
/// drawn. The top and bottom borders are left out of an image less than
/// three pixels high, the left and right ones of an image less than three
/// pixels wide.
pub open spec fn on_border(width: int, height: int, x: int, y: int) -> bool {
    ||| height >= 3 && (y < 3 || y >= height - 3)
    ||| width >= 3 && (x < 3 || x >= width - 3)
}

/// The colour of the corner box that shows at `(x, y)`, if any.
///
/// A box is left out of an image that cannot hold it. The right-hand boxes
/// need an image more than 15 pixels wide, the lower boxes one more than 15
/// pixels high. Where boxes overlap, the bottom right one lies on top, then
/// the bottom left, the top right and the top left one.
pub open spec fn corner_color(width: int, height: int, x: int, y: int) -> Option<Rgba> {
    if width > 15 && height > 15 && x >= width - 15 && y >= height - 15 {
        Some(yellow())
    } else if width >= 15 && height > 15 && x < 15 && y >= height - 15 {
        Some(blue())
    } else if width > 15 && height >= 15 && x >= width - 15 && y < 15 {
        Some(green())
    } else if width >= 15 && height >= 15 && x < 15 && y < 15 {
        Some(red())
    } else {
        None
    }
}

/// What the calibration marks make of a pixel that held `base`: the corner
/// boxes lie over the red border, the border over the pattern.
pub open spec fn overlay_pixel(width: int, height: int, x: int, y: int, base: Rgba) -> Rgba {
    match corner_color(width, height, x, y) {
        Some(c) => c,
        None => if on_border(width, height, x, y) {
            red()
        } else {
            base
        },
    }
}

/// `(x, y)` lies under the green, the blue or the yellow corner box.
pub open spec fn under_colored_box(width: int, height: int, x: int, y: int) -> bool {
    corner_color(width, height, x, y) matches Some(c) && c != red()
}

/// In an image more than three pixels wide and high, the marks leave every
/// pixel within three pixels of an edge pure red, whatever it held before,
/// except under the green, the blue and the yellow corner box.
pub proof fn lemma_border_is_red(width: int, height: int, x: int, y: int, base: Rgba)
    requires
        width > 3,
        height > 3,
        0 <= x < width,
        0 <= y < height,
        x < 3 || x >= width - 3 || y < 3 || y >= height - 3,
        !under_colored_box(width, height, x, y),
    ensures
        overlay_pixel(width, height, x, y, base) == red(),
{
}

/// The marks leave the pattern as it is at every pixel that lies more than
/// three pixels from each edge and under no corner box.
pub proof fn lemma_marks_spare_interior(width: int, height: int, x: int, y: int, base: Rgba)
    requires
        3 <= x < width - 3,
        3 <= y < height - 3,
        corner_color(width, height, x, y) is None,
    ensures
        overlay_pixel(width, height, x, y, base) == base,
{
}

/// The finished source image: the pattern with the marks stamped on it.
pub open spec fn pattern_pixel(
    kind: PatternType,
    width: int,
    height: int,
    primary: Option<Seq<char>>,
    secondary: Option<Seq<char>>,
    x: int,
    y: int,
) -> Rgba {
    overlay_pixel(width, height, x, y, base_pixel(kind, width, height, primary, secondary, x, y))
}

/// Fills the image with the checkerboard.
pub fn generate_checkerboard(buf: &mut PixelBuffer)
    requires
        old(buf).wf(),
    ensures
        final(buf).wf(),
        final(buf).width == old(buf).width,
        final(buf).height == old(buf).height,
        forall|x: int, y: int|
            old(buf).contains(x, y) ==> #[trigger] final(buf).pixel_at(x, y) == checkerboard_pixel(
                x,
                y,
            ),
{
    let width = buf.width;
    let height = buf.height;
    let mut y: usize = 0;
    while y < height
        invariant
            buf.wf(),
            buf.width == width,
            buf.height == height,
            y <= height,
            forall|x2: int, y2: int|
                buf.contains(x2, y2) && y2 < y ==> #[trigger] buf.pixel_at(x2, y2)
                    == checkerboard_pixel(x2, y2),
        decreases height - y,
    {
        let mut x: usize = 0;
        while x < width
            invariant
                buf.wf(),
                buf.width == width,
                buf.height == height,
                y < height,
                x <= width,
                forall|x2: int, y2: int|
                    buf.contains(x2, y2) && (y2 < y || (y2 == y && x2 < x))
                        ==> #[trigger] buf.pixel_at(x2, y2) == checkerboard_pixel(x2, y2),
            decreases width - x,
        {
            let is_white = (x / SQUARE_SIZE + y / SQUARE_SIZE) % 2 == 0;
            let color = if is_white {
                white()
            } else {
                black()
            };
            buf.put_pixel(x, y, color);
            x += 1;
        }
        y += 1;
    }
}

/// Fills the image with the gradient.
pub fn generate_gradient(buf: &mut PixelBuffer)
    requires
        old(buf).wf(),
    ensures
        final(buf).wf(),
        final(buf).width == old(buf).width,
        final(buf).height == old(buf).height,
        forall|x: int, y: int|
            old(buf).contains(x, y) ==> #[trigger] final(buf).pixel_at(x, y) == gradient_pixel(
                old(buf).width as int,
                old(buf).height as int,
                x,
                y,
            ),
{
    let width = buf.width;
    let height = buf.height;
    let mut y: usize = 0;
    while y < height
        invariant
            buf.wf(),
            buf.width == width,
            buf.height == height,
            y <= height,
            forall|x2: int, y2: int|
                buf.contains(x2, y2) && y2 < y ==> #[trigger] buf.pixel_at(x2, y2)
                    == gradient_pixel(width as int, height as int, x2, y2),
        decreases height - y,
    {
        let green = scale_to_byte(y, height);
        let mut x: usize = 0;
        while x < width
            invariant
                buf.wf(),
                buf.width == width,
                buf.height == height,
                y < height,
                x <= width,
                green == (y * 255 / (height as int)) as u8,
                forall|x2: int, y2: int|
                    buf.contains(x2, y2) && (y2 < y || (y2 == y && x2 < x))
                        ==> #[trigger] buf.pixel_at(x2, y2) == gradient_pixel(
                        width as int,
                        height as int,
                        x2,
                        y2,
                    ),
            decreases width - x,
        {
            let red = scale_to_byte(x, width);
            buf.put_pixel(x, y, Rgba { r: red, g: green, b: 200, a: 255 });
            x += 1;
        }
        y += 1;
    }
}

/// `position * 255 / extent`, rounded down: the share of `extent` that lies
/// before `position`, on the scale of a colour channel.
fn scale_to_byte(position: usize, extent: usize) -> (level: u8)
    requires
        position < extent,
    ensures
        level == position * 255 / (extent as int),
        level < 255,
{
    assert(position * 255 / (extent as int) < 255) by (nonlinear_arith)
        requires
            0 <= position < extent,
    ;
    assert(0 <= position * 255 / (extent as int)) by (nonlinear_arith)
        requires
            0 <= position < extent,
    ;
    ((position as u128 * 255) / (extent as u128)) as u8
}

/// Fills the image with the text banner.
///
/// The main line shows `primary`, or a standing notice where it is `None`,
/// centred, in cells of 32×40 pixels set 4 pixels apart. Where `secondary`
/// is set, it is shown below in cells of 16×20 pixels set 2 pixels apart,
/// shortened to 30 characters and upper-cased, and a caption in cells of
/// 12×15 pixels set 1 pixel apart is added near the bottom edge.
pub fn generate_text(buf: &mut PixelBuffer, primary: &Option<String>, secondary: &Option<String>)
    requires
        old(buf).wf(),
    ensures
        final(buf).wf(),
        final(buf).width == old(buf).width,
        final(buf).height == old(buf).height,
        forall|x: int, y: int|
            old(buf).contains(x, y) ==> #[trigger] final(buf).pixel_at(x, y) == text_pixel(
                old(buf).width as int,
                old(buf).height as int,
                text_of(*primary),
                text_of(*secondary),
                x,
                y,
            ),
{
    let width = buf.width;
    let height = buf.height;
    fill_rect(buf, 0, 0, width, height, banner_background());

    let line: &str = match primary {
        Some(s) => s.as_str(),
        None => "COMING SOON",
    };
    let start_x = center_line(width, line.unicode_len(), 36);
    let start_y: i128 = (height / 2) as i128 - 40;
    draw_text(buf, line, start_x, start_y, 32, 40, 4, primary_ink());

    if let Some(s) = secondary {
        let shown = truncate_for_display(s.as_str());
        let upper = to_uppercase(shown.as_str());
        let second_x = center_line(width, shown.as_str().unicode_len(), 18);
        draw_text(buf, upper.as_str(), second_x, start_y + 80, 16, 20, 2, secondary_ink());

        let caption: &str = "FILE SELECTED";
        let caption_x = center_line(width, caption.unicode_len(), 13);
        draw_text(buf, caption, caption_x, height as i128 - 60, 12, 15, 1, caption_ink());
    }
}

/// Stamps the calibration marks on the image: a red border three pixels
/// thick along the four edges, and a box of 15×15 pixels in each corner, red
/// at the top left, green at the top right, blue at the bottom left and
/// yellow at the bottom right. A mark that the image is too small to hold is
/// left out.
pub fn add_debug_borders(buf: &mut PixelBuffer)
    requires
        old(buf).wf(),
    ensures
        final(buf).wf(),
        final(buf).width == old(buf).width,
        final(buf).height == old(buf).height,
        forall|x: int, y: int|
            old(buf).contains(x, y) ==> #[trigger] final(buf).pixel_at(x, y) == overlay_pixel(
                old(buf).width as int,
                old(buf).height as int,
                x,
                y,
                old(buf).pixel_at(x, y),
            ),
{
    let width = buf.width;
    let height = buf.height;
    let right: i128 = width as i128 - CORNER_SIZE as i128;
    let bottom: i128 = height as i128 - CORNER_SIZE as i128;

    if height >= BORDER_THICKNESS {
        fill_rect(buf, 0, 0, width, BORDER_THICKNESS, red());
        if height > BORDER_THICKNESS {
            fill_rect(
                buf,
                0,
                height as i128 - BORDER_THICKNESS as i128,
                width,
                BORDER_THICKNESS,
                red(),
            );
        }
    }
    if width >= BORDER_THICKNESS {
        fill_rect(buf, 0, 0, BORDER_THICKNESS, height, red());
        if width > BORDER_THICKNESS {
            fill_rect(
                buf,
                width as i128 - BORDER_THICKNESS as i128,
                0,
                BORDER_THICKNESS,
                height,
                red(),
            );
        }
    }
    if width >= CORNER_SIZE && height >= CORNER_SIZE {
        fill_rect(buf, 0, 0, CORNER_SIZE, CORNER_SIZE, red());
    }
    if width > CORNER_SIZE && height >= CORNER_SIZE {
        fill_rect(buf, right, 0, CORNER_SIZE, CORNER_SIZE, green());
    }
    if width >= CORNER_SIZE && height > CORNER_SIZE {
        fill_rect(buf, 0, bottom, CORNER_SIZE, CORNER_SIZE, blue());
    }
    if width > CORNER_SIZE && height > CORNER_SIZE {
        fill_rect(buf, right, bottom, CORNER_SIZE, CORNER_SIZE, yellow());
    }
}

/// Builds the source image of the given kind and size, marks included, or
/// returns `None` where an image of that size cannot be held in memory.
pub fn generate(
    kind: PatternType,
    width: usize,
    height: usize,
    primary: &Option<String>,
    secondary: &Option<String>,
) -> (res: Option<PixelBuffer>)
    ensures
        res is Some <==> buffer_fits(width as int, height as int),
        res matches Some(b) ==> {
            &&& b.wf()
            &&& b.width == width
            &&& b.height == height
            &&& forall|x: int, y: int|
                b.contains(x, y) ==> #[trigger] b.pixel_at(x, y) == pattern_pixel(
                    kind,
                    width as int,
                    height as int,
                    text_of(*primary),
                    text_of(*secondary),
                    x,
                    y,
                )
        },
{
    let mut buf = match PixelBuffer::new(width, height) {
        Some(b) => b,
        None => {
            return None;
        },
    };
    match kind {
        PatternType::Checkerboard => generate_checkerboard(&mut buf),
        PatternType::Gradient => generate_gradient(&mut buf),
        PatternType::Text => generate_text(&mut buf, primary, secondary),
    }
    add_debug_borders(&mut buf);
    Some(buf)
}

} // verus!
