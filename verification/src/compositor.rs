//! The viewport compositor: nearest-neighbour resampling of a zoomed and
//! panned window of a source image.
//!
//! Zoom and pan are fixed-point numbers counted in thousandths: a zoom of
//! 2000 doubles the image, a pan of 1500 is one and a half output pixels.

use vstd::prelude::*;
use vstd::arithmetic::div_mod::lemma_fundamental_div_mod;
use vstd::arithmetic::div_mod::lemma_fundamental_div_mod_converse;
use vstd::arithmetic::div_mod::lemma_mod_bound;
use crate::buffer::buffer_fits;
use crate::buffer::PixelBuffer;
use crate::buffer::Rgba;
use crate::font::clamp;

verus! {

/// The fixed-point value of one whole: zoom factor 1, or one pixel of pan.
pub const ZOOM_UNIT: u32 = 1000;

/// Smallest zoom, a tenth.
pub const ZOOM_MIN: u32 = 100;

/// Largest zoom, ten.
pub const ZOOM_MAX: u32 = 10_000;

/// The colour written where the source image has no pixel to give.
#[verifier::allow_in_spec]
pub fn sentinel() -> Rgba
    returns
        (Rgba { r: 128, g: 0, b: 128, a: 255 }),
{
    Rgba { r: 128, g: 0, b: 128, a: 255 }
}

/// `zoom` moved into the range from [`ZOOM_MIN`] to [`ZOOM_MAX`].
#[verifier::allow_in_spec]
pub fn clamp_zoom(zoom: u32) -> u32
    returns
        (if zoom < ZOOM_MIN {
            ZOOM_MIN
        } else if zoom > ZOOM_MAX {
            ZOOM_MAX
        } else {
            zoom
        }),
{
    if zoom < ZOOM_MIN {
        ZOOM_MIN
    } else if zoom > ZOOM_MAX {
        ZOOM_MAX
    } else {
        zoom
    }
}

/// Length of the viewport along an axis on which the source measures
/// `extent` pixels: `extent` times the zoom, rounded down.
pub open spec fn scaled_extent(extent: int, zoom: int) -> int {
    extent * zoom / 1000
}

/// The source coordinate shown at destination coordinate `d`, before it is
/// clamped to the source: the pan and the destination coordinate, each
/// divided by the zoom and rounded down.
pub open spec fn source_coord(pan: int, zoom: int, d: int) -> int {
    pan / zoom + d * 1000 / zoom
}

/// The colour taken for source coordinates `(sx, sy)`.
///
/// Coordinates outside the image are moved to the nearest pixel of it. Where
/// the image holds no such pixel, because it is empty or its byte array is
/// too short, the colour is the [`sentinel`].
pub open spec fn sample(source: PixelBuffer, sx: int, sy: int) -> Rgba {
    let cx = clamp(sx, 0, source.width - 1);
    let cy = clamp(sy, 0, source.height - 1);
    if source.readable(cx, cy) {
        source.pixel_at(cx, cy)
    } else {
        sentinel()
    }
}

/// What [`render_viewport`] returns for the given arguments.
pub open spec fn is_viewport_of(
    res: Option<PixelBuffer>,
    source: PixelBuffer,
    zoom: u32,
    pan_x: i64,
    pan_y: i64,
) -> bool {
    let z = clamp_zoom(zoom) as int;
    let width = scaled_extent(source.width as int, z);
    let height = scaled_extent(source.height as int, z);
    &&& res is Some <==> buffer_fits(width, height)
    &&& res matches Some(out) ==> {
        &&& out.wf()
        &&& out.width == width
        &&& out.height == height
        &&& forall|dx: int, dy: int|
            out.contains(dx, dy) ==> #[trigger] out.pixel_at(dx, dy) == sample(
                source,
                source_coord(pan_x as int, z, dx),
                source_coord(pan_y as int, z, dy),
            )
    }
}

/// How far apart two coordinates are.
pub open spec fn distance(a: int, b: int) -> int {
    if a <= b {
        b - a
    } else {
        a - b
    }
}

/// Sampling a well-formed, non-empty source at any coordinates, however far
/// outside it, gives the colour stored at the pixel of the source that lies
/// nearest to them: the coordinate is clamped along each axis, it never
/// wraps around and never leaves the byte array.
pub proof fn lemma_sample_clamps(source: PixelBuffer, sx: int, sy: int)
    requires
        source.wf(),
        source.width > 0,
        source.height > 0,
    ensures
        ({
            let cx = clamp(sx, 0, source.width - 1);
            let cy = clamp(sy, 0, source.height - 1);
            &&& source.contains(cx, cy)
            &&& source.readable(cx, cy)
            &&& sample(source, sx, sy) == source.pixel_at(cx, cy)
            &&& source.contains(sx, sy) ==> cx == sx && cy == sy
            &&& forall|x: int| 0 <= x < source.width ==> distance(cx, sx) <= #[trigger] distance(x, sx)
            &&& forall|y: int|
                0 <= y < source.height ==> distance(cy, sy) <= #[trigger] distance(y, sy)
        }),
{
    let cx = clamp(sx, 0, source.width - 1);
    let cy = clamp(sy, 0, source.height - 1);
    source.lemma_wf_readable(cx, cy);
}

/// `a / d` rounded down, for a positive `d`.
fn floor_div(a: i128, d: i128) -> (q: i128)
    requires
        d > 0,
        i128::MIN + d < a,
        a + d < i128::MAX,
    ensures
        q == a / d,
{
    if a >= 0 {
        a / d
    } else {
        let up: i128 = (d - 1 - a) / d;
        proof {
            let t = d - 1 - a;
            lemma_fundamental_div_mod(t, d as int);
            lemma_mod_bound(t, d as int);
            assert(d * (t / (d as int)) == (t / (d as int)) * d) by (nonlinear_arith);
            assert((-(t / (d as int))) * d == -((t / (d as int)) * d)) by (nonlinear_arith);
            lemma_fundamental_div_mod_converse(
                a as int,
                d as int,
                -(t / (d as int)),
                d - 1 - (t % (d as int)),
            );
        }
        -up
    }
}

/// Length of the viewport along one axis, or `None` where it exceeds the
/// largest `usize`.
fn scale_extent(extent: usize, zoom: u32) -> (res: Option<usize>)
    requires
        ZOOM_MIN <= zoom <= ZOOM_MAX,
    ensures
        res == if scaled_extent(extent as int, zoom as int) <= usize::MAX {
            Some(scaled_extent(extent as int, zoom as int) as usize)
        } else {
            None
        },
{
    assert(0 <= extent * zoom <= usize::MAX * 10_000) by (nonlinear_arith)
        requires
            0 <= extent <= usize::MAX,
            0 <= zoom <= 10_000,
    ;
    let scaled: u128 = (extent as u128 * zoom as u128) / 1000;
    if scaled > usize::MAX as u128 {
        None
    } else {
        Some(scaled as usize)
    }
}

/// The source coordinate for destination coordinate `d`, clamped to a source
/// that measures `extent` pixels along this axis.
fn clamped_coord(pan: i64, zoom: u32, d: usize, extent: usize) -> (c: usize)
    requires
        ZOOM_MIN <= zoom <= ZOOM_MAX,
        extent > 0,
    ensures
        c == clamp(source_coord(pan as int, zoom as int, d as int), 0, extent - 1),
{
    let start: i128 = floor_div(pan as i128, zoom as i128);
    let step: i128 = (d as i128 * 1000) / (zoom as i128);
    assert(i64::MIN <= start <= i64::MAX) by (nonlinear_arith)
        requires
            start == (pan as int) / (zoom as int),
            zoom >= 1,
            i64::MIN <= pan <= i64::MAX,
    ;
    assert(0 <= step <= d * 1000) by (nonlinear_arith)
        requires
            step == (d * 1000) / (zoom as int),
            zoom >= 1,
            d >= 0,
    ;
    let coord: i128 = start + step;
    if coord < 0 {
        0
    } else if coord > (extent - 1) as i128 {
        extent - 1
    } else {
        coord as usize
    }
}

/// Renders the viewport onto `source` at the given zoom and pan.
///
/// `zoom` is clamped to the range from [`ZOOM_MIN`] to [`ZOOM_MAX`]. The
/// output measures the source's size times the zoom, rounded down. Each
/// output pixel copies the one source pixel it maps to; nothing is blended.
/// The result is `None` only where an output of that size cannot be held in
/// memory.
pub fn render_viewport(source: &PixelBuffer, zoom: u32, pan_x: i64, pan_y: i64) -> (res: Option<
    PixelBuffer,
>)
    ensures
        is_viewport_of(res, *source, zoom, pan_x, pan_y),
{
    let z = clamp_zoom(zoom);
    let width = match scale_extent(source.width, z) {
        Some(w) => w,
        None => {
            return None;
        },
    };
    let height = match scale_extent(source.height, z) {
        Some(h) => h,
        None => {
            return None;
        },
    };
    let mut out = match PixelBuffer::new(width, height) {
        Some(b) => b,
        None => {
            return None;
        },
    };
    if source.width == 0 || source.height == 0 {
        return Some(out);
    }
    let mut dy: usize = 0;
    while dy < height
        invariant
            out.wf(),
            out.width == width,
            out.height == height,
            dy <= height,
            ZOOM_MIN <= z <= ZOOM_MAX,
            source.width > 0,
            source.height > 0,
            forall|x2: int, y2: int|
                out.contains(x2, y2) && y2 < dy ==> #[trigger] out.pixel_at(x2, y2) == sample(
                    *source,
                    source_coord(pan_x as int, z as int, x2),
                    source_coord(pan_y as int, z as int, y2),
                ),
        decreases height - dy,
    {
        let sy = clamped_coord(pan_y, z, dy, source.height);
        let mut dx: usize = 0;
        while dx < width
            invariant
                out.wf(),
                out.width == width,
                out.height == height,
                dy < height,
                dx <= width,
                ZOOM_MIN <= z <= ZOOM_MAX,
                source.width > 0,
                source.height > 0,
                sy == clamp(
                    source_coord(pan_y as int, z as int, dy as int),
                    0,
                    source.height - 1,
                ),
                forall|x2: int, y2: int|
                    out.contains(x2, y2) && (y2 < dy || (y2 == dy && x2 < dx))
                        ==> #[trigger] out.pixel_at(x2, y2) == sample(
                        *source,
                        source_coord(pan_x as int, z as int, x2),
                        source_coord(pan_y as int, z as int, y2),
                    ),
            decreases width - dx,
        {
            let sx = clamped_coord(pan_x, z, dx, source.width);
            let color = match source.get_pixel(sx, sy) {
                Some(p) => p,
                None => sentinel(),
            };
            out.put_pixel(dx, dy, color);
            dx += 1;
        }
        dy += 1;
    }
    Some(out)
}

} // verus!
