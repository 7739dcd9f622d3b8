//! The renderer: pattern choice, text, zoom and pan, and the cached source
//! image that they determine.

use vstd::prelude::*;
use crate::buffer::buffer_fits;
use crate::buffer::PixelBuffer;
use crate::buffer::Rgba;
use crate::compositor::clamp_zoom;
use crate::compositor::render_viewport;
use crate::compositor::scaled_extent;
use crate::compositor::source_coord;
use crate::compositor::ZOOM_MAX;
use crate::compositor::ZOOM_MIN;
use crate::compositor::ZOOM_UNIT;
use crate::font::clamp;
use crate::pattern::generate;
use crate::pattern::pattern_pixel;
use crate::pattern::PatternType;
use crate::text::text_of;

verus! {

/// The state of a renderer as its contracts see it.
pub struct RendererView {
    pub pattern_type: PatternType,
    pub source_width: int,
    pub source_height: int,
    /// Zoom in thousandths, always within the allowed range.
    pub zoom: int,
    /// Pan in thousandths of an output pixel.
    pub pan_x: int,
    pub pan_y: int,
    pub primary_text: Option<Seq<char>>,
    pub secondary_text: Option<Seq<char>>,
    /// Whether the source image has been built.
    pub ready: bool,
}

impl RendererView {
    /// Whether a source image of this size can be held in memory.
    pub open spec fn source_fits(self) -> bool {
        buffer_fits(self.source_width, self.source_height)
    }

    /// The colour of the source image at `(x, y)`.
    pub open spec fn source_pixel(self, x: int, y: int) -> Rgba {
        pattern_pixel(
            self.pattern_type,
            self.source_width,
            self.source_height,
            self.primary_text,
            self.secondary_text,
            x,
            y,
        )
    }

    /// Width of the viewport: the source width times the zoom, rounded down.
    pub open spec fn viewport_width(self) -> int {
        scaled_extent(self.source_width, self.zoom)
    }

    /// Height of the viewport: the source height times the zoom, rounded
    /// down.
    pub open spec fn viewport_height(self) -> int {
        scaled_extent(self.source_height, self.zoom)
    }

    /// The colour of the viewport at `(dx, dy)`: that of the source pixel
    /// nearest to the source coordinates that `(dx, dy)` maps to.
    pub open spec fn viewport_pixel(self, dx: int, dy: int) -> Rgba {
        self.source_pixel(
            clamp(source_coord(self.pan_x, self.zoom, dx), 0, self.source_width - 1),
            clamp(source_coord(self.pan_y, self.zoom, dy), 0, self.source_height - 1),
        )
    }

    /// `res` is what rendering this state returns: the viewport, or `None`
    /// where the source image is missing or the viewport cannot be held in
    /// memory.
    pub open spec fn renders_to(self, res: Option<PixelBuffer>) -> bool {
        &&& res is Some <==> self.ready && buffer_fits(
            self.viewport_width(),
            self.viewport_height(),
        )
        &&& res matches Some(out) ==> {
            &&& out.wf()
            &&& out.width == self.viewport_width()
            &&& out.height == self.viewport_height()
            &&& forall|dx: int, dy: int|
                out.contains(dx, dy) ==> #[trigger] out.pixel_at(dx, dy) == self.viewport_pixel(
                    dx,
                    dy,
                )
        }
    }
}

/// Owns the pattern choice, the text, the view and the cached source image.
///
/// The source image is rebuilt at once whenever the pattern or, in text
/// mode, the text changes; rendering never rebuilds it. A renderer whose
/// source image is too large to be held in memory stays without one, and
/// renders nothing.
#[derive(Debug)]
pub struct ImageRenderer {
    source_width: usize,
    source_height: usize,
    zoom_level: u32,
    view_x: i64,
    view_y: i64,
    pattern_type: PatternType,
    source_pattern: Option<PixelBuffer>,
    primary_text: Option<String>,
    secondary_text: Option<String>,
}

impl View for ImageRenderer {
    type V = RendererView;

    closed spec fn view(&self) -> RendererView {
        RendererView {
            pattern_type: self.pattern_type,
            source_width: self.source_width as int,
            source_height: self.source_height as int,
            zoom: self.zoom_level as int,
            pan_x: self.view_x as int,
            pan_y: self.view_y as int,
            primary_text: text_of(self.primary_text),
            secondary_text: text_of(self.secondary_text),
            ready: self.source_pattern is Some,
        }
    }
}

impl ImageRenderer {
    /// The zoom lies within its range, and a source image that is present
    /// is the one that the pattern, the size and the text determine.
    #[verifier::type_invariant]
    spec fn inv(&self) -> bool {
        &&& ZOOM_MIN <= self.zoom_level <= ZOOM_MAX
        &&& self.source_pattern matches Some(p) ==> {
            &&& p.wf()
            &&& p.width == self.source_width
            &&& p.height == self.source_height
            &&& forall|x: int, y: int|
                p.contains(x, y) ==> #[trigger] p.pixel_at(x, y) == self@.source_pixel(x, y)
        }
    }

    /// A renderer for a source image of the given pattern and size, at zoom
    /// 1 and without pan or text. The source image is built at once.
    pub fn new(pattern_type: PatternType, width: usize, height: usize) -> (renderer: Self)
        ensures
            renderer@ == (RendererView {
                pattern_type,
                source_width: width as int,
                source_height: height as int,
                zoom: ZOOM_UNIT as int,
                pan_x: 0,
                pan_y: 0,
                primary_text: None,
                secondary_text: None,
                ready: buffer_fits(width as int, height as int),
            }),
    {
        let mut renderer = Self {
            source_width: width,
            source_height: height,
            zoom_level: ZOOM_UNIT,
            view_x: 0,
            view_y: 0,
            pattern_type,
            source_pattern: None,
            primary_text: None,
            secondary_text: None,
        };
        renderer.generate_source_pattern();
        renderer
    }

    /// Sets the zoom, clamped to its range. Does not render.
    pub fn set_zoom(&mut self, zoom: u32)
        ensures
            final(self)@ == (RendererView { zoom: clamp_zoom(zoom) as int, ..old(self)@ }),
    {
        proof {
            use_type_invariant(&*self);
        }
        self.zoom_level = clamp_zoom(zoom);
    }

    /// Sets the pan to the given values as they are. Does not render.
    pub fn set_pan(&mut self, x: i64, y: i64)
        ensures
            final(self)@ == (RendererView { pan_x: x as int, pan_y: y as int, ..old(self)@ }),
    {
        proof {
            use_type_invariant(&*self);
        }
        self.view_x = x;
        self.view_y = y;
    }

    /// Switches to another pattern and rebuilds the source image at once.
    pub fn change_pattern_type(&mut self, pattern_type: PatternType)
        ensures
            final(self)@ == (RendererView {
                pattern_type,
                ready: old(self)@.source_fits(),
                ..old(self)@
            }),
            old(self)@.ready ==> final(self)@.ready,
    {
        proof {
            use_type_invariant(&*self);
        }
        self.source_pattern = None;
        self.pattern_type = pattern_type;
        self.generate_source_pattern();
    }

    /// Replaces both lines of text. The source image is rebuilt only in text
    /// mode; the other patterns do not show the text.
    pub fn set_text(&mut self, primary: Option<String>, secondary: Option<String>)
        ensures
            final(self)@ == (RendererView {
                primary_text: text_of(primary),
                secondary_text: text_of(secondary),
                ready: if old(self)@.pattern_type == PatternType::Text {
                    old(self)@.source_fits()
                } else {
                    old(self)@.ready
                },
                ..old(self)@
            }),
            old(self)@.ready ==> final(self)@.ready,
    {
        proof {
            use_type_invariant(&*self);
        }
        match self.pattern_type {
            PatternType::Text => {
                self.source_pattern = None;
                self.primary_text = primary;
                self.secondary_text = secondary;
                self.generate_source_pattern();
            },
            _ => {
                self.primary_text = primary;
                self.secondary_text = secondary;
            },
        }
    }

    /// The size of the viewport: the source size times the zoom, rounded
    /// down, and no more than the largest `usize`.
    pub fn get_viewport_size(&self) -> (size: (usize, usize))
        ensures
            size.0 == clamp(self@.viewport_width(), 0, usize::MAX as int),
            size.1 == clamp(self@.viewport_height(), 0, usize::MAX as int),
    {
        proof {
            use_type_invariant(self);
        }
        (
            saturating_scale(self.source_width, self.zoom_level),
            saturating_scale(self.source_height, self.zoom_level),
        )
    }

    /// Builds the source image from the current pattern, size and text, and
    /// stores it in place of the one held so far.
    pub fn generate_source_pattern(&mut self)
        ensures
            final(self)@ == (RendererView { ready: old(self)@.source_fits(), ..old(self)@ }),
    {
        proof {
            use_type_invariant(&*self);
        }
        let generated = generate(
            self.pattern_type,
            self.source_width,
            self.source_height,
            &self.primary_text,
            &self.secondary_text,
        );
        self.source_pattern = generated;
    }

    /// Renders the viewport from the cached source image and the current
    /// zoom and pan. The output is computed anew on every call.
    pub fn render(&self) -> (res: Option<PixelBuffer>)
        ensures
            self@.renders_to(res),
    {
        proof {
            use_type_invariant(self);
        }
        match &self.source_pattern {
            Some(source) => {
                let res = render_viewport(source, self.zoom_level, self.view_x, self.view_y);
                proof {
                    if res is Some {
                        let out = res->0;
                        assert forall|dx: int, dy: int| out.contains(dx, dy) implies #[trigger] out
                            .pixel_at(dx, dy) == self@.viewport_pixel(dx, dy) by {
                            lemma_scaled_positive(source.width as int, self.zoom_level as int);
                            lemma_scaled_positive(source.height as int, self.zoom_level as int);
                            let cx = clamp(
                                source_coord(self.view_x as int, self.zoom_level as int, dx),
                                0,
                                source.width - 1,
                            );
                            let cy = clamp(
                                source_coord(self.view_y as int, self.zoom_level as int, dy),
                                0,
                                source.height - 1,
                            );
                            source.lemma_wf_readable(cx, cy);
                        }
                    }
                }
                res
            },
            None => None,
        }
    }

    /// The current zoom, in thousandths.
    pub fn zoom(&self) -> (zoom: u32)
        ensures
            zoom == self@.zoom,
            ZOOM_MIN <= zoom <= ZOOM_MAX,
    {
        proof {
            use_type_invariant(self);
        }
        self.zoom_level
    }

    /// The current pan, in thousandths of an output pixel.
    pub fn pan(&self) -> (pan: (i64, i64))
        ensures
            pan.0 == self@.pan_x,
            pan.1 == self@.pan_y,
    {
        (self.view_x, self.view_y)
    }

    /// The current pattern.
    pub fn pattern_type(&self) -> (kind: PatternType)
        ensures
            kind == self@.pattern_type,
    {
        self.pattern_type
    }

    /// The size of the source image.
    pub fn source_size(&self) -> (size: (usize, usize))
        ensures
            size.0 == self@.source_width,
            size.1 == self@.source_height,
    {
        (self.source_width, self.source_height)
    }

    /// Whether the source image has been built.
    pub fn is_ready(&self) -> (ready: bool)
        ensures
            ready == self@.ready,
    {
        self.source_pattern.is_some()
    }

    /// The cached source image, if it has been built.
    pub fn source(&self) -> (res: Option<&PixelBuffer>)
        ensures
            res is Some <==> self@.ready,
            res matches Some(p) ==> {
                &&& p.wf()
                &&& p.width == self@.source_width
                &&& p.height == self@.source_height
                &&& forall|x: int, y: int|
                    p.contains(x, y) ==> #[trigger] p.pixel_at(x, y) == self@.source_pixel(x, y)
            },
    {
        proof {
            use_type_invariant(self);
        }
        self.source_pattern.as_ref()
    }
}

/// Rendering depends on the state alone: whatever two renderings of one
/// state return, both are absent or both hold the same image, byte for byte.
pub proof fn lemma_render_is_repeatable(
    state: RendererView,
    first: Option<PixelBuffer>,
    second: Option<PixelBuffer>,
)
    requires
        state.renders_to(first),
        state.renders_to(second),
    ensures
        first is Some <==> second is Some,
        first is Some ==> {
            &&& first->0.width == second->0.width
            &&& first->0.height == second->0.height
            &&& first->0.bytes_per_row == second->0.bytes_per_row
            &&& first->0.buffer@ == second->0.buffer@
        },
{
    if first is Some {
        let a = first->0;
        let b = second->0;
        assert forall|x: int, y: int| a.contains(x, y) implies #[trigger] a.pixel_at(x, y)
            == b.pixel_at(x, y) by {
        }
        a.lemma_same_image_same_bytes(&b);
    }
}

/// A viewport that is rendered has the size that
/// [`ImageRenderer::get_viewport_size`] reports: the source size times the
/// zoom, rounded down.
pub proof fn lemma_rendered_size_is_viewport_size(state: RendererView, res: Option<PixelBuffer>)
    requires
        state.renders_to(res),
        res is Some,
    ensures
        res->0.width == state.viewport_width(),
        res->0.height == state.viewport_height(),
        clamp(state.viewport_width(), 0, usize::MAX as int) == res->0.width,
        clamp(state.viewport_height(), 0, usize::MAX as int) == res->0.height,
{
}

/// A viewport that has a pixel belongs to a source that has one.
proof fn lemma_scaled_positive(extent: int, zoom: int)
    requires
        0 <= extent,
        0 < zoom,
    ensures
        scaled_extent(extent, zoom) > 0 ==> extent > 0,
{
    if extent == 0 {
        assert(extent * zoom == 0) by (nonlinear_arith)
            requires
                extent == 0,
        ;
    }
}

/// `extent` times `zoom`, rounded down, and no more than the largest `usize`.
fn saturating_scale(extent: usize, zoom: u32) -> (scaled: usize)
    requires
        ZOOM_MIN <= zoom <= ZOOM_MAX,
    ensures
        scaled == clamp(scaled_extent(extent as int, zoom as int), 0, usize::MAX as int),
{
    assert(0 <= extent * zoom <= usize::MAX * 10_000) by (nonlinear_arith)
        requires
            0 <= extent <= usize::MAX,
            0 <= zoom <= 10_000,
    ;
    let scaled: u128 = (extent as u128 * zoom as u128) / 1000;
    if scaled > usize::MAX as u128 {
        usize::MAX
    } else {
        scaled as usize
    }
}

} // verus!
