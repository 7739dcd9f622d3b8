//! RGBA8 pixel buffers and the colours stored in them.

use vstd::prelude::*;
use vstd::arithmetic::div_mod::lemma_fundamental_div_mod;
use vstd::arithmetic::div_mod::lemma_mod_bound;

verus! {

/// One pixel: red, green, blue and alpha, eight bits each.
#[derive(Clone, Copy, Debug, PartialEq, Eq, Structural)]
pub struct Rgba {
    pub r: u8,
    pub g: u8,
    pub b: u8,
    pub a: u8,
}

/// An ink colour. Painting with it always writes a fully opaque pixel.
#[derive(Clone, Copy, Debug, PartialEq, Eq, Structural)]
pub struct Rgb {
    pub r: u8,
    pub g: u8,
    pub b: u8,
}

impl Rgb {
    /// The pixel that painting with this colour leaves behind.
    pub open spec fn opaque(self) -> Rgba {
        Rgba { r: self.r, g: self.g, b: self.b, a: 255 }
    }

    /// Executable form of [`Rgb::opaque`].
    pub fn to_rgba(self) -> (p: Rgba)
        ensures
            p == self.opaque(),
    {
        Rgba { r: self.r, g: self.g, b: self.b, a: 255 }
    }
}

/// Whether a `width` × `height` image can be held in memory: a row must be
/// addressable, and the whole image may not exceed the largest allocation.
pub open spec fn buffer_fits(width: int, height: int) -> bool {
    &&& 0 <= width
    &&& 0 <= height <= usize::MAX
    &&& width * 4 <= usize::MAX
    &&& width * 4 * height <= isize::MAX
}

/// An owned RGBA8 image, rows stored top to bottom, four bytes per pixel.
///
/// The fields are public so that a display layer can hand the bytes on. A
/// value whose fields agree with each other satisfies [`PixelBuffer::wf`];
/// readers such as [`PixelBuffer::get_pixel`] also accept values that do not.
#[derive(Clone, Debug, PartialEq, Eq)]
pub struct PixelBuffer {
    pub buffer: Vec<u8>,
    pub width: usize,
    pub height: usize,
    pub bytes_per_row: usize,
}

impl PixelBuffer {
    /// The fields describe one image: rows are `width * 4` bytes long and the
    /// byte array holds exactly `height` of them.
    pub open spec fn wf(&self) -> bool {
        &&& self.bytes_per_row == self.width * 4
        &&& self.buffer@.len() == self.bytes_per_row * self.height
        &&& self.buffer@.len() <= isize::MAX
    }

    /// `(x, y)` names a pixel of the image.
    pub open spec fn contains(&self, x: int, y: int) -> bool {
        0 <= x < self.width && 0 <= y < self.height
    }

    /// Index of the first byte of pixel `(x, y)`.
    pub open spec fn offset(&self, x: int, y: int) -> int {
        y * self.bytes_per_row + x * 4
    }

    /// All four bytes of pixel `(x, y)` lie inside the byte array.
    pub open spec fn readable(&self, x: int, y: int) -> bool {
        self.contains(x, y) && self.offset(x, y) + 3 < self.buffer@.len()
    }

    /// The colour stored at `(x, y)`.
    pub open spec fn pixel_at(&self, x: int, y: int) -> Rgba {
        let i = self.offset(x, y);
        Rgba {
            r: self.buffer@[i],
            g: self.buffer@[i + 1],
            b: self.buffer@[i + 2],
            a: self.buffer@[i + 3],
        }
    }

    /// Two images have the same size and the same colour at every pixel.
    pub open spec fn same_image(&self, other: &PixelBuffer) -> bool {
        &&& self.width == other.width
        &&& self.height == other.height
        &&& forall|x: int, y: int|
            self.contains(x, y) ==> #[trigger] self.pixel_at(x, y) == other.pixel_at(x, y)
    }

    /// Every pixel of a well-formed image is readable.
    pub proof fn lemma_wf_readable(&self, x: int, y: int)
        requires
            self.wf(),
            self.contains(x, y),
        ensures
            self.readable(x, y),
            0 <= self.offset(x, y),
    {
        lemma_offset_bounds(self.width as int, self.height as int, x, y);
    }

    /// A zero-filled image of the given size, or `None` where such an image
    /// cannot be held in memory.
    pub fn new(width: usize, height: usize) -> (res: Option<PixelBuffer>)
        ensures
            res is Some <==> buffer_fits(width as int, height as int),
            res matches Some(b) ==> {
                &&& b.wf()
                &&& b.width == width
                &&& b.height == height
                &&& forall|i: int| 0 <= i < b.buffer@.len() ==> b.buffer@[i] == 0
            },
    {
        let bytes_per_row = match width.checked_mul(4) {
            Some(n) => n,
            None => {
                return None;
            },
        };
        let size = match bytes_per_row.checked_mul(height) {
            Some(n) => n,
            None => {
                return None;
            },
        };
        if size > isize::MAX as usize {
            return None;
        }
        let buffer = vec![0u8; size];
        Some(PixelBuffer { buffer, width, height, bytes_per_row })
    }

    /// The colour at `(x, y)`, or `None` where the coordinates lie outside
    /// the image or the byte array is too short to hold that pixel.
    pub fn get_pixel(&self, x: usize, y: usize) -> (res: Option<Rgba>)
        ensures
            res == if self.readable(x as int, y as int) {
                Some(self.pixel_at(x as int, y as int))
            } else {
                None
            },
    {
        let len = self.buffer.len();
        if x >= self.width || y >= self.height {
            return None;
        }
        let row = match y.checked_mul(self.bytes_per_row) {
            Some(n) => n,
            None => {
                return None;
            },
        };
        let col = match x.checked_mul(4) {
            Some(n) => n,
            None => {
                return None;
            },
        };
        let first = match row.checked_add(col) {
            Some(n) => n,
            None => {
                return None;
            },
        };
        let last = match first.checked_add(3) {
            Some(n) => n,
            None => {
                return None;
            },
        };
        if last >= len {
            return None;
        }
        Some(
            Rgba {
                r: self.buffer[first],
                g: self.buffer[first + 1],
                b: self.buffer[first + 2],
                a: self.buffer[first + 3],
            },
        )
    }

    /// Stores `color` at `(x, y)` and leaves every other pixel as it was.
    /// Coordinates outside the image are ignored.
    pub fn put_pixel(&mut self, x: usize, y: usize, color: Rgba)
        requires
            old(self).wf(),
        ensures
            final(self).wf(),
            final(self).width == old(self).width,
            final(self).height == old(self).height,
            forall|x2: int, y2: int|
                old(self).contains(x2, y2) ==> #[trigger] final(self).pixel_at(x2, y2) == if x2 == x
                    && y2 == y {
                    color
                } else {
                    old(self).pixel_at(x2, y2)
                },
    {
        if x >= self.width || y >= self.height {
            return ;
        }
        proof {
            lemma_offset_bounds(self.width as int, self.height as int, x as int, y as int);
        }
        let first = y * self.bytes_per_row + x * 4;
        self.buffer.set(first, color.r);
        self.buffer.set(first + 1, color.g);
        self.buffer.set(first + 2, color.b);
        self.buffer.set(first + 3, color.a);
        proof {
            let w = self.width as int;
            assert forall|x2: int, y2: int|
                old(self).contains(x2, y2) && (x2 != x || y2 != y) implies #[trigger] self.pixel_at(
                x2,
                y2,
            ) == old(self).pixel_at(x2, y2) by {
                lemma_offset_bounds(w, self.height as int, x2, y2);
                lemma_offsets_apart(w, x as int, y as int, x2, y2);
            }
        }
    }

    /// Two well-formed images that show the same picture hold the same
    /// bytes.
    pub proof fn lemma_same_image_same_bytes(&self, other: &PixelBuffer)
        requires
            self.wf(),
            other.wf(),
            self.same_image(other),
        ensures
            self.bytes_per_row == other.bytes_per_row,
            self.buffer@ == other.buffer@,
    {
        let w = self.width as int;
        let h = self.height as int;
        let row = w * 4;
        assert forall|i: int| 0 <= i < self.buffer@.len() implies self.buffer@[i] == other.buffer@[i] by {
            if row <= 0 {
                assert(row * h == 0) by (nonlinear_arith)
                    requires
                        row == 0,
                ;
            }
            let y = i / row;
            let rest = i % row;
            let x = rest / 4;
            let k = rest % 4;
            lemma_fundamental_div_mod(i, row);
            lemma_mod_bound(i, row);
            assert(0 <= y < h) by (nonlinear_arith)
                requires
                    i == row * y + rest,
                    0 <= rest < row,
                    0 <= i < row * h,
            ;
            assert(row * y == y * (w * 4)) by (nonlinear_arith)
                requires
                    row == w * 4,
            ;
            assert(self.pixel_at(x, y) == other.pixel_at(x, y));
        }
        assert(self.buffer@ =~= other.buffer@);
    }
}

/// Inside a `width` × `height` image, the four bytes of pixel `(x, y)` lie
/// inside the byte array.
proof fn lemma_offset_bounds(width: int, height: int, x: int, y: int)
    requires
        0 <= x < width,
        0 <= y < height,
    ensures
        0 <= y * (width * 4),
        0 <= y * (width * 4) + x * 4,
        y * (width * 4) + x * 4 + 4 <= (width * 4) * height,
{
    assert(0 <= y * (width * 4) && (y + 1) * (width * 4) <= height * (width * 4))
        by (nonlinear_arith)
        requires
            0 <= y < height,
            0 < width,
    ;
    assert((y + 1) * (width * 4) == y * (width * 4) + width * 4) by (nonlinear_arith);
    assert(height * (width * 4) == (width * 4) * height) by (nonlinear_arith);
}

/// Two different pixels of one image occupy disjoint groups of four bytes.
proof fn lemma_offsets_apart(width: int, x: int, y: int, x2: int, y2: int)
    requires
        0 <= x < width,
        0 <= x2 < width,
        0 <= y,
        0 <= y2,
        x != x2 || y != y2,
    ensures
        y * (width * 4) + x * 4 + 4 <= y2 * (width * 4) + x2 * 4 || y2 * (width * 4) + x2 * 4 + 4
            <= y * (width * 4) + x * 4,
{
    if y < y2 {
        assert((y + 1) * (width * 4) <= y2 * (width * 4)) by (nonlinear_arith)
            requires
                y + 1 <= y2,
                0 < width,
        ;
        assert((y + 1) * (width * 4) == y * (width * 4) + width * 4) by (nonlinear_arith);
    } else if y2 < y {
        assert((y2 + 1) * (width * 4) <= y * (width * 4)) by (nonlinear_arith)
            requires
                y2 + 1 <= y,
                0 < width,
        ;
        assert((y2 + 1) * (width * 4) == y2 * (width * 4) + width * 4) by (nonlinear_arith);
    }
}

} // verus!
