use vstd::prelude::*;

use crate::blitter::{select_spec, Blitter};
use crate::cell::Cell;
use crate::channel::{channels_combine, pair_spec, Alpha};
use crate::error::Error;
use crate::notcurses::{Nc, PlaneId};
use crate::pile::{grid_view, written, MAX_PLANES};
use crate::style::Style;

verus! {

/// A fully transparent black channel.
pub const TRANSPARENT_CHANNEL: u32 = 0x2000_0000;

/// How a visual will be drawn: its blitter, whether scaling interpolates, and
/// whether an unsupported blitter may degrade.
#[derive(Clone, Copy, Debug, PartialEq, Eq, Structural)]
pub struct VisualBuilder {
    pub blitter: Blitter,
    pub interpolate: bool,
    pub degrade: bool,
}

/// An RGBA image with the options to draw it by.
pub struct Visual {
    rgba: Vec<u8>,
    rows: u32,
    cols: u32,
    options: VisualBuilder,
}

/// The channel of the pixel whose bytes start at `i`: its color, opaque, or
/// transparent where its alpha byte is zero.
pub open spec fn pixel_channel(rgba: Seq<u8>, i: int) -> u32 {
    let rgb = ((rgba[i] as u32) << 16u32) | ((rgba[i + 1] as u32) << 8u32) | (rgba[i + 2] as u32);
    if rgba[i + 3] == 0 {
        rgb | TRANSPARENT_CHANNEL
    } else {
        rgb
    }
}

/// The channel of pixel `(y, x)` of an image `cols` pixels wide.
pub open spec fn pixel_at(rgba: Seq<u8>, cols: int, y: int, x: int) -> u32 {
    pixel_channel(rgba, 4 * (y * cols + x))
}

/// The encoding a selected mode is drawn with. Spaces, half blocks,
/// quadrants, sextants and braille draw as themselves; the four- and
/// eight-level bars and bitmap graphics draw with half blocks.
pub open spec fn draw_mode(b: Blitter) -> Blitter {
    match b {
        Blitter::Space => Blitter::Space,
        Blitter::Quadrant => Blitter::Quadrant,
        Blitter::Sextant => Blitter::Sextant,
        Blitter::Braille => Blitter::Braille,
        _ => Blitter::Half,
    }
}

/// The pixel rows one cell covers in an encoding.
pub open spec fn block_h(m: Blitter) -> u32 {
    match m {
        Blitter::Half => 2,
        Blitter::Quadrant => 2,
        Blitter::Sextant => 3,
        Blitter::Braille => 4,
        _ => 1,
    }
}

/// The pixel columns one cell covers in an encoding.
pub open spec fn block_w(m: Blitter) -> u32 {
    match m {
        Blitter::Quadrant => 2,
        Blitter::Sextant => 2,
        Blitter::Braille => 2,
        _ => 1,
    }
}

/// The number of cells that `n` pixels take, `per` pixels to a cell.
pub open spec fn cells_for(n: u32, per: u32) -> u32 {
    if n % per != 0 {
        (n / per + 1) as u32
    } else {
        (n / per) as u32
    }
}

/// The glyph bit of the `k`-th pixel of a cell's block, counted row by row.
/// Braille numbers its dots down the left column first.
pub open spec fn weight(m: Blitter, k: int) -> u32 {
    if m == Blitter::Braille {
        if k == 0 { 1 } else if k == 1 { 8 } else if k == 2 { 2 } else if k == 3 { 16 }
        else if k == 4 { 4 } else if k == 5 { 32 } else if k == 6 { 64 } else { 128 }
    } else {
        if k == 0 { 1 } else if k == 1 { 2 } else if k == 2 { 4 } else if k == 3 { 8 }
        else if k == 4 { 16 } else { 32 }
    }
}

/// The channel of the `k`-th pixel of the block of cell `(cy, cx)`, or
/// `None` past the image's edge.
pub open spec fn block_pixel(rgba: Seq<u8>, rows: u32, cols: u32, m: Blitter, cy: int, cx: int, k: int) -> Option<u32> {
    let y = cy * block_h(m) + if block_w(m) == 1 { k } else { k / 2 };
    let x = cx * block_w(m) + if block_w(m) == 1 { 0 } else { k % 2 };
    if 0 <= y < rows && 0 <= x < cols {
        Some(pixel_at(rgba, cols as int, y, x))
    } else {
        None
    }
}

/// The foreground of a cell: its block's first pixel.
pub open spec fn lead(rgba: Seq<u8>, rows: u32, cols: u32, m: Blitter, cy: int, cx: int) -> u32 {
    match block_pixel(rgba, rows, cols, m, cy, cx, 0) {
        Some(p) => p,
        None => TRANSPARENT_CHANNEL,
    }
}

/// The glyph bits of the first `k` pixels of a block that have the
/// foreground's channel.
pub open spec fn mask_upto(rgba: Seq<u8>, rows: u32, cols: u32, m: Blitter, cy: int, cx: int, k: int) -> int
    decreases k,
{
    if k <= 0 {
        0
    } else {
        mask_upto(rgba, rows, cols, m, cy, cx, k - 1) + if block_pixel(rgba, rows, cols, m, cy, cx, k - 1)
            == Some(lead(rgba, rows, cols, m, cy, cx)) {
            weight(m, k - 1) as int
        } else {
            0
        }
    }
}

/// The background of a cell: the last pixel among the first `k` of its block
/// that differs from the foreground, transparent if there is none.
pub open spec fn other_upto(rgba: Seq<u8>, rows: u32, cols: u32, m: Blitter, cy: int, cx: int, k: int) -> u32
    decreases k,
{
    if k <= 0 {
        TRANSPARENT_CHANNEL
    } else {
        let p = block_pixel(rgba, rows, cols, m, cy, cx, k - 1);
        if p is Some && p->0 != lead(rgba, rows, cols, m, cy, cx) {
            p->0
        } else {
            other_upto(rgba, rows, cols, m, cy, cx, k - 1)
        }
    }
}

/// The code point of the glyph that shows the pixels of `mask` in the
/// foreground: half blocks, quadrants, sextants (the left and right halves
/// and the full block taken from the block elements), or braille.
pub open spec fn glyph_code(m: Blitter, mask: int) -> u32 {
    if mask == 0 {
        0x20
    } else if m == Blitter::Braille {
        (0x2800 + mask) as u32
    } else if m == Blitter::Sextant {
        if mask == 63 {
            0x2588
        } else if mask == 21 {
            0x258c
        } else if mask == 42 {
            0x2590
        } else if mask < 21 {
            (0x1fb00 + mask - 1) as u32
        } else if mask < 42 {
            (0x1fb00 + mask - 2) as u32
        } else {
            (0x1fb00 + mask - 3) as u32
        }
    } else if m == Blitter::Quadrant {
        quadrant_code(mask)
    } else {
        if mask == 1 { 0x2580 } else if mask == 2 { 0x2584 } else { 0x2588 }
    }
}

/// The quadrant glyph of a mask of upper-left 1, upper-right 2, lower-left 4
/// and lower-right 8.
pub open spec fn quadrant_code(mask: int) -> u32 {
    if mask == 1 { 0x2598 } else if mask == 2 { 0x259d } else if mask == 3 { 0x2580 }
    else if mask == 4 { 0x2596 } else if mask == 5 { 0x258c } else if mask == 6 { 0x259e }
    else if mask == 7 { 0x259b } else if mask == 8 { 0x2597 } else if mask == 9 { 0x259a }
    else if mask == 10 { 0x2590 } else if mask == 11 { 0x259c } else if mask == 12 { 0x2584 }
    else if mask == 13 { 0x2599 } else if mask == 14 { 0x259f } else { 0x2588 }
}

/// `c` is cell `(cy, cx)` of the image drawn in encoding `m`. With spaces one
/// pixel colors the whole cell. Otherwise the foreground is the block's first
/// pixel, the glyph shows the pixels that share its channel, and the
/// background is another pixel of the block, transparent if there is none;
/// pixels past the image's edge are never shown.
pub open spec fn blits(c: Cell, rgba: Seq<u8>, rows: u32, cols: u32, m: Blitter, cy: int, cx: int) -> bool {
    let fg = lead(rgba, rows, cols, m, cy, cx);
    let n = (block_h(m) * block_w(m)) as int;
    &&& c.width_spec() == 1
    &&& c.style_spec() == (Style { bits: 0 })
    &&& !c.is_backstop_spec()
    &&& m == Blitter::Space ==> c.glyph_spec() == ' ' && c.channels_spec() == pair_spec(fg, fg)
    &&& m != Blitter::Space ==> c.glyph_spec() as u32 == glyph_code(
        m,
        mask_upto(rgba, rows, cols, m, cy, cx, n),
    ) && c.channels_spec() == pair_spec(fg, other_upto(rgba, rows, cols, m, cy, cx, n))
}

/// Whether `len` bytes hold an image of `rows` by `cols` pixels: both sizes
/// positive and at least four bytes per pixel; bytes past the image are
/// ignored.
pub open spec fn image_fits(len: int, rows: int, cols: int) -> bool {
    rows >= 1 && cols >= 1 && len >= rows * cols * 4
}

/// Whether `len` bytes are exactly an image of `rows` by `cols` pixels.
pub open spec fn image_exact(len: int, rows: int, cols: int) -> bool {
    rows >= 1 && cols >= 1 && len == rows * cols * 4
}

proof fn lemma_pixel_index(y: int, x: int, rows: int, cols: int)
    requires
        0 <= y < rows,
        0 <= x < cols,
    ensures
        0 <= 4 * (y * cols + x),
        4 * (y * cols + x) + 4 <= rows * cols * 4,
{
    assert(0 <= y * cols) by (nonlinear_arith)
        requires
            0 <= y,
            0 <= x < cols,
    ;
    assert(y * cols + x + 1 <= rows * cols) by (nonlinear_arith)
        requires
            0 <= y < rows,
            0 <= x < cols,
    ;
}

/// The channel of the pixel whose bytes start at `i`.
fn pixel_channel_at(rgba: &Vec<u8>, i: usize) -> (r: u32)
    requires
        i + 4 <= rgba@.len(),
    ensures
        r == pixel_channel(rgba@, i as int),
{
    let _n = rgba.len();
    let rgb = ((rgba[i] as u32) << 16u32) | ((rgba[i + 1] as u32) << 8u32) | (rgba[i + 2] as u32);
    if rgba[i + 3] == 0 {
        rgb | TRANSPARENT_CHANNEL
    } else {
        rgb
    }
}

/// The number of bytes of an image of `rows` by `cols` pixels, when `len`
/// bytes hold one.
fn check_geometry(len: usize, rows: u32, cols: u32) -> (r: Option<usize>)
    ensures
        image_fits(len as int, rows as int, cols as int) <==> r is Some,
        r matches Some(n) ==> n == rows * cols * 4,
{
    if rows == 0 || cols == 0 {
        return None;
    }
    let (r64, c64) = (rows as u64, cols as u64);
    assert(r64 * c64 <= 0xffff_ffffu64 * 0xffff_ffffu64) by (nonlinear_arith)
        requires
            r64 <= 0xffff_ffffu64,
            c64 <= 0xffff_ffffu64,
    ;
    let pixels = r64 * c64;
    if pixels > (len / 4) as u64 {
        return None;
    }
    Some(pixels as usize * 4)
}

impl VisualBuilder {
    /// Draw with blitter `blitter`.
    pub fn blitter(self, blitter: Blitter) -> (r: VisualBuilder)
        ensures
            r == (VisualBuilder { blitter, ..self }),
    {
        VisualBuilder { blitter, ..self }
    }

    /// Scale with interpolation, or without.
    pub fn interpolate(self, interpolate: bool) -> (r: VisualBuilder)
        ensures
            r == (VisualBuilder { interpolate, ..self }),
    {
        VisualBuilder { interpolate, ..self }
    }

    /// Let an unsupported blitter degrade, or make it an error.
    pub fn degrade(self, degrade: bool) -> (r: VisualBuilder)
        ensures
            r == (VisualBuilder { degrade, ..self }),
    {
        VisualBuilder { degrade, ..self }
    }

    /// A visual of the RGBA image `rgba`, `cols` pixels wide and `rows` high,
    /// with these options; bytes past the image are ignored. Fails with
    /// `InvalidGeometry` unless both sizes are positive and `rgba` holds at
    /// least four bytes per pixel.
    pub fn from_rgba(self, rgba: &[u8], cols: u32, rows: u32) -> (r: Result<Visual, Error>)
        ensures
            image_fits(rgba@.len() as int, rows as int, cols as int) <==> r is Ok,
            r is Err ==> r == Err::<Visual, Error>(Error::InvalidGeometry),
            r matches Ok(v) ==> v.wf() && v.rgba_spec() == rgba@.subrange(0, rows * cols * 4)
                && v.rows_spec() == rows
                && v.cols_spec() == cols && v.options_spec() == self,
    {
        let n = match check_geometry(rgba.len(), rows, cols) {
            Some(n) => n,
            None => return Err(Error::InvalidGeometry),
        };
        let mut bytes: Vec<u8> = Vec::new();
        let mut i: usize = 0;
        while i < n
            invariant
                n <= rgba@.len(),
                i <= n,
                bytes@ == rgba@.subrange(0, i as int),
            decreases n - i,
        {
            bytes.push(rgba[i]);
            i = i + 1;
            assert(bytes@ =~= rgba@.subrange(0, i as int));
        }
        Ok(Visual { rgba: bytes, rows, cols, options: self })
    }
}

/// `bgra` with the blue and red byte of each pixel exchanged.
pub open spec fn swap_red_blue(bgra: Seq<u8>) -> Seq<u8> {
    Seq::new(
        bgra.len(),
        |i: int|
            if i % 4 == 0 {
                bgra[i + 2]
            } else if i % 4 == 2 {
                bgra[i - 2]
            } else {
                bgra[i]
            },
    )
}

impl Visual {
    pub closed spec fn rgba_spec(&self) -> Seq<u8> {
        self.rgba@
    }

    pub closed spec fn rows_spec(&self) -> u32 {
        self.rows
    }

    pub closed spec fn cols_spec(&self) -> u32 {
        self.cols
    }

    pub closed spec fn options_spec(&self) -> VisualBuilder {
        self.options
    }

    pub open spec fn wf(&self) -> bool {
        image_exact(self.rgba_spec().len() as int, self.rows_spec() as int, self.cols_spec() as int)
    }

    /// The default options: chosen blitter, interpolation, degradation.
    pub fn build() -> (r: VisualBuilder)
        ensures
            r == (VisualBuilder { blitter: Blitter::Default, interpolate: true, degrade: true }),
    {
        VisualBuilder { blitter: Blitter::Default, interpolate: true, degrade: true }
    }

    /// The options this visual is drawn by.
    pub fn options(&self) -> (r: VisualBuilder)
        ensures
            r == self.options_spec(),
    {
        self.options
    }

    /// The image's bytes, four per pixel, row by row.
    pub fn rgba(&self) -> (r: &Vec<u8>)
        ensures
            r@ == self.rgba_spec(),
    {
        &self.rgba
    }

    /// The image size as `(rows, cols)`.
    pub fn size(&self) -> (r: (u32, u32))
        ensures
            r == (self.rows_spec(), self.cols_spec()),
    {
        (self.rows, self.cols)
    }

    /// Replaces the image with the RGBA image `rgba`, `cols` pixels wide and
    /// `rows` high; bytes past the image are ignored. Fails with
    /// `InvalidGeometry`, keeping the old image, unless both sizes are
    /// positive and `rgba` holds at least four bytes per pixel.
    pub fn set_from_rgba(&mut self, rgba: &[u8], cols: u32, rows: u32) -> (r: Result<(), Error>)
        requires
            old(self).wf(),
        ensures
            final(self).wf(),
            final(self).options_spec() == old(self).options_spec(),
            image_fits(rgba@.len() as int, rows as int, cols as int) <==> r is Ok,
            r is Err ==> r == Err::<(), Error>(Error::InvalidGeometry) && final(self).rgba_spec()
                == old(self).rgba_spec() && final(self).rows_spec() == old(self).rows_spec()
                && final(self).cols_spec() == old(self).cols_spec(),
            r is Ok ==> final(self).rgba_spec() == rgba@.subrange(0, rows * cols * 4)
                && final(self).rows_spec() == rows
                && final(self).cols_spec() == cols,
    {
        match self.options.from_rgba(rgba, cols, rows) {
            Ok(v) => {
                *self = v;
                Ok(())
            },
            Err(e) => Err(e),
        }
    }

    /// Replaces the image with the BGRA image `bgra`; see `set_from_rgba`.
    pub fn set_from_bgra(&mut self, bgra: &[u8], cols: u32, rows: u32) -> (r: Result<(), Error>)
        requires
            old(self).wf(),
        ensures
            final(self).wf(),
            final(self).options_spec() == old(self).options_spec(),
            image_fits(bgra@.len() as int, rows as int, cols as int) <==> r is Ok,
            r is Err ==> r == Err::<(), Error>(Error::InvalidGeometry) && final(self).rgba_spec()
                == old(self).rgba_spec() && final(self).rows_spec() == old(self).rows_spec()
                && final(self).cols_spec() == old(self).cols_spec(),
            r is Ok ==> final(self).rgba_spec() == swap_red_blue(bgra@.subrange(0, rows * cols * 4))
                && final(self).rows_spec()
                == rows && final(self).cols_spec() == cols,
    {
        let n = match check_geometry(bgra.len(), rows, cols) {
            Some(n) => n,
            None => return Err(Error::InvalidGeometry),
        };
        let ghost image = bgra@.subrange(0, n as int);
        let mut bytes: Vec<u8> = Vec::new();
        let mut i: usize = 0;
        while i < n
            invariant
                n <= bgra@.len(),
                image == bgra@.subrange(0, n as int),
                n % 4 == 0,
                i <= n,
                i % 4 == 0,
                bytes@ == swap_red_blue(image).subrange(0, i as int),
            decreases n - i,
        {
            bytes.push(bgra[i + 2]);
            bytes.push(bgra[i + 1]);
            bytes.push(bgra[i]);
            bytes.push(bgra[i + 3]);
            i = i + 4;
            assert(bytes@ =~= swap_red_blue(image).subrange(0, i as int));
        }
        assert(bytes@ =~= swap_red_blue(image));
        self.rgba = bytes;
        self.rows = rows;
        self.cols = cols;
        Ok(())
    }

    /// Sets the blitter.
    pub fn set_blitter(&mut self, blitter: Blitter)
        ensures
            final(self).options_spec() == (VisualBuilder { blitter, ..old(self).options_spec() }),
            final(self).rgba_spec() == old(self).rgba_spec(),
            final(self).rows_spec() == old(self).rows_spec(),
            final(self).cols_spec() == old(self).cols_spec(),
    {
        self.options.blitter = blitter;
    }

    /// Sets whether scaling interpolates. The default is to interpolate.
    /// Drawing never scales; the flag chooses how a resize of the image does.
    pub fn set_interpolate(&mut self, interpolate: bool)
        ensures
            final(self).options_spec() == (VisualBuilder {
                interpolate,
                ..old(self).options_spec()
            }),
            final(self).rgba_spec() == old(self).rgba_spec(),
            final(self).rows_spec() == old(self).rows_spec(),
            final(self).cols_spec() == old(self).cols_spec(),
    {
        self.options.interpolate = interpolate;
    }

    /// Sets whether an unsupported blitter may degrade.
    pub fn set_degrade(&mut self, degrade: bool)
        ensures
            final(self).options_spec() == (VisualBuilder { degrade, ..old(self).options_spec() }),
            final(self).rgba_spec() == old(self).rgba_spec(),
            final(self).rows_spec() == old(self).rows_spec(),
            final(self).cols_spec() == old(self).cols_spec(),
    {
        self.options.degrade = degrade;
    }
    /// The channel of pixel `(py, px)`.
    fn pixel_of(&self, py: u32, px: u32) -> (r: u32)
        requires
            self.wf(),
            py < self.rows_spec(),
            px < self.cols_spec(),
        ensures
            r == pixel_at(self.rgba_spec(), self.cols_spec() as int, py as int, px as int),
    {
        proof {
            lemma_pixel_index(py as int, px as int, self.rows as int, self.cols as int);
            assert(0 <= py as int * self.cols as int) by (nonlinear_arith)
                requires
                    0 <= py,
                    0 <= self.cols,
            ;
        }
        let n = self.rgba.len();
        assert(4 * (py as int * self.cols as int + px as int) + 4 <= n);
        let i = 4 * (py as usize * self.cols as usize + px as usize);
        pixel_channel_at(&self.rgba, i)
    }

    /// The `k`-th pixel of the block of cell `(cy, cx)` in encoding `m`.
    fn block_pixel_at(&self, m: Blitter, cy: u32, cx: u32, k: u32) -> (r: Option<u32>)
        requires
            self.wf(),
            k < block_h(m) * block_w(m),
        ensures
            r == block_pixel(self.rgba_spec(), self.rows_spec(), self.cols_spec(), m, cy as int, cx as int, k as int),
    {
        let h = block_height(m);
        let w = block_width(m);
        let (dy, dx) = if w == 1 {
            (k as u64, 0u64)
        } else {
            ((k / 2) as u64, (k % 2) as u64)
        };
        assert(cy as u64 * h as u64 <= 4 * cy as u64) by (nonlinear_arith)
            requires
                h <= 4,
        ;
        assert(cx as u64 * w as u64 <= 2 * cx as u64) by (nonlinear_arith)
            requires
                w <= 2,
        ;
        let py = cy as u64 * h as u64 + dy;
        let px = cx as u64 * w as u64 + dx;
        if py < self.rows as u64 && px < self.cols as u64 {
            Some(self.pixel_of(py as u32, px as u32))
        } else {
            None
        }
    }

    /// Cell `(cy, cx)` of this image drawn in encoding `m`.
    fn blit_cell_at(&self, m: Blitter, cy: u32, cx: u32) -> (r: Cell)
        requires
            self.wf(),
            m == draw_mode(m),
        ensures
            blits(r, self.rgba_spec(), self.rows_spec(), self.cols_spec(), m, cy as int, cx as int),
    {
        let fg = match self.block_pixel_at(m, cy, cx, 0) {
            Some(p) => p,
            None => TRANSPARENT_CHANNEL,
        };
        if m == Blitter::Space {
            return Cell::new(' ', 1, Style { bits: 0 }, channels_combine(fg, fg));
        }
        let n = block_height(m) * block_width(m);
        let mut mask: u32 = 0;
        let mut other: u32 = TRANSPARENT_CHANNEL;
        let mut k: u32 = 0;
        while k < n
            invariant
                self.wf(),
                m == draw_mode(m),
                n == block_h(m) * block_w(m),
                n <= 8,
                m != Blitter::Braille ==> n <= 6,
                k <= n,
                fg == lead(self.rgba_spec(), self.rows_spec(), self.cols_spec(), m, cy as int, cx as int),
                mask == mask_upto(self.rgba_spec(), self.rows_spec(), self.cols_spec(), m, cy as int, cx as int, k as int),
                m == Blitter::Braille ==> mask <= (if k == 0 { 0int } else if k == 1 { 1 } else if k == 2 { 9 }
                    else if k == 3 { 11 } else if k == 4 { 27 } else if k == 5 { 31 } else if k == 6 { 63 }
                    else if k == 7 { 127 } else { 255 }),
                m != Blitter::Braille ==> mask <= (if k == 0 { 0int } else if k == 1 { 1 } else if k == 2 { 3 }
                    else if k == 3 { 7 } else if k == 4 { 15 } else if k == 5 { 31 } else { 63 }),
                other == other_upto(self.rgba_spec(), self.rows_spec(), self.cols_spec(), m, cy as int, cx as int, k as int),
            decreases n - k,
        {
            let p = self.block_pixel_at(m, cy, cx, k);
            match p {
                Some(c) => {
                    if c == fg {
                        mask = mask + pixel_weight(m, k);
                    } else {
                        other = c;
                    }
                },
                None => {},
            }
            k = k + 1;
        }
        let code = glyph_code_of(m, mask);
        let glyph = match char_of(code) {
            Some(c) => c,
            None => ' ',
        };
        Cell::new(glyph, 1, Style { bits: 0 }, channels_combine(fg, other))
    }

    /// Draws the image into a new plane of pile `pile`, at `(y, x)` from the
    /// pile's origin, and returns the plane and the mode it was drawn with.
    /// The mode is selected against the terminal's capabilities as
    /// `Blitter::select` says, and a failure to select is returned; it is
    /// drawn as `draw_mode` and `blits` say. Fails with `UseAfterDrop` for a
    /// pile that does not exist.
    pub fn render(&self, nc: &mut Nc, pile: usize, y: i32, x: i32) -> (r: Result<(PlaneId, Blitter), Error>)
        requires
            self.wf(),
            old(nc).wf(),
            pile < old(nc).piles_spec().len() ==> old(nc).piles_spec()[pile as int].len()
                < MAX_PLANES,
        ensures
            final(nc).wf(),
            final(nc).generation_spec() == old(nc).generation_spec(),
            final(nc).caps_spec() == old(nc).caps_spec(),
            final(nc).piles_spec().len() == old(nc).piles_spec().len(),
            ({
                let chosen = select_spec(
                    self.options_spec().blitter,
                    old(nc).caps_spec(),
                    self.options_spec().degrade,
                );
                &&& chosen is Err ==> r == Err::<(PlaneId, Blitter), Error>(Error::UnsupportedBlitter)
                &&& chosen is Ok && pile >= old(nc).piles_spec().len() ==> r == Err::<
                    (PlaneId, Blitter),
                    Error,
                >(Error::UseAfterDrop)
                &&& r is Err ==> final(nc).piles_spec() == old(nc).piles_spec()
                &&& chosen is Ok && pile < old(nc).piles_spec().len() ==> r is Ok
                &&& r matches Ok((id, b)) ==> {
                    let m = draw_mode(b);
                    let p = final(nc).planes_of(id)[id.index as int];
                    &&& chosen == Ok::<Blitter, Error>(b)
                    &&& final(nc).valid(id)
                    &&& id.pile == pile
                    &&& id.index == old(nc).piles_spec()[pile as int].len()
                    &&& final(nc).planes_of(id).drop_last() == old(nc).piles_spec()[pile as int]
                    &&& p.rows == cells_for(self.rows_spec(), block_h(m))
                    &&& p.cols == cells_for(self.cols_spec(), block_w(m))
                    &&& p.y == y
                    &&& p.x == x
                    &&& p.parent is None
                    &&& forall|cy: int, cx: int|
                        0 <= cy < p.rows && 0 <= cx < p.cols ==> ((#[trigger] grid_view(p)[cy][cx]) matches Some(c)
                            && blits(c, self.rgba_spec(), self.rows_spec(), self.cols_spec(), m, cy, cx))
                }
            }),
    {
        let caps = nc.term_capabilities();
        let b = match self.options.blitter.select(&caps, self.options.degrade) {
            Ok(b) => b,
            Err(e) => return Err(e),
        };
        let m = match b {
            Blitter::Space => Blitter::Space,
            Blitter::Quadrant => Blitter::Quadrant,
            Blitter::Sextant => Blitter::Sextant,
            Blitter::Braille => Blitter::Braille,
            _ => Blitter::Half,
        };
        let h = block_height(m);
        let w = block_width(m);
        let rows = if self.rows % h != 0 { self.rows / h + 1 } else { self.rows / h };
        let cols = if self.cols % w != 0 { self.cols / w + 1 } else { self.cols / w };
        let id = match nc.create_plane(pile, None, rows, cols, y, x) {
            Ok(id) => id,
            Err(e) => return Err(e),
        };
        let ghost created = nc.planes_of(id);
        let ghost gen = nc.generation_spec();
        let ghost caps0 = nc.caps_spec();
        let ghost npiles = nc.piles_spec().len();
        let mut cy: u32 = 0;
        while cy < rows
            invariant
                self.wf(),
                nc.wf(),
                nc.valid(id),
                id.index < created.len(),
                id.pile == pile,
                m == draw_mode(m),
                nc.generation_spec() == gen,
                nc.caps_spec() == caps0,
                nc.piles_spec().len() == npiles,
                cy <= rows,
                nc.planes_of(id) == created.update(id.index as int, nc.planes_of(id)[id.index as int]),
                nc.planes_of(id)[id.index as int].rows == rows,
                nc.planes_of(id)[id.index as int].cols == cols,
                nc.planes_of(id)[id.index as int].y == y,
                nc.planes_of(id)[id.index as int].x == x,
                nc.planes_of(id)[id.index as int].parent is None,
                forall|yy: int, xx: int|
                    0 <= yy < cy && 0 <= xx < cols ==> ((#[trigger] grid_view(
                        nc.planes_of(id)[id.index as int],
                    )[yy][xx]) matches Some(c) && blits(c, self.rgba_spec(), self.rows_spec(), self.cols_spec(), m, yy, xx)),
            decreases rows - cy,
        {
            let mut cx: u32 = 0;
            while cx < cols
                invariant
                    self.wf(),
                    nc.wf(),
                    nc.valid(id),
                    id.index < created.len(),
                    id.pile == pile,
                    m == draw_mode(m),
                    nc.generation_spec() == gen,
                    nc.caps_spec() == caps0,
                    nc.piles_spec().len() == npiles,
                    cy < rows,
                    cx <= cols,
                    nc.planes_of(id) == created.update(
                        id.index as int,
                        nc.planes_of(id)[id.index as int],
                    ),
                    nc.planes_of(id)[id.index as int].rows == rows,
                    nc.planes_of(id)[id.index as int].cols == cols,
                    nc.planes_of(id)[id.index as int].y == y,
                    nc.planes_of(id)[id.index as int].x == x,
                    nc.planes_of(id)[id.index as int].parent is None,
                    forall|yy: int, xx: int|
                        (0 <= yy < cy && 0 <= xx < cols) || (yy == cy && 0 <= xx < cx) ==> ((#[trigger] grid_view(
                            nc.planes_of(id)[id.index as int],
                        )[yy][xx]) matches Some(c) && blits(c, self.rgba_spec(), self.rows_spec(), self.cols_spec(), m, yy, xx)),
                decreases cols - cx,
            {
                let cell = self.blit_cell_at(m, cy, cx);
                let ghost before = nc.planes_of(id)[id.index as int];
                let ghost before_all = nc.planes_of(id);
                proof {
                    nc.lemma_valid_plane(id);
                }
                let wr = nc.write_cell(id, cy, cx, cell);
                proof {
                    let after = nc.planes_of(id)[id.index as int];
                    assert(wr is Ok);
                    assert(grid_view(before)[cy as int].len() == cols);
                    assert(grid_view(after) == written(before, cy as int, cx as int, cell));
                    assert(nc.planes_of(id) == before_all.update(id.index as int, after));
                    assert(before_all == created.update(id.index as int, before));
                    assert forall|k: int| 0 <= k < created.len() implies nc.planes_of(id)[k]
                        == created.update(id.index as int, after)[k] by {
                        if k != id.index {
                            assert(nc.planes_of(id)[k] == before_all[k]);
                            assert(before_all[k] == created[k]);
                        }
                    }
                    assert(nc.planes_of(id) =~= created.update(id.index as int, after));
                }
                cx = cx + 1;
            }
            cy = cy + 1;
        }
        proof {
            assert(nc.planes_of(id).drop_last() =~= created.drop_last());
        }
        Ok((id, b))
    }
}

/// Relies on `char::from_u32`: `Some` exactly for a Unicode scalar value,
/// holding the character of that value.
#[verifier::external_body]
fn char_of(v: u32) -> (r: Option<char>)
    ensures
        (v <= 0x10ffff && !(0xd800 <= v <= 0xdfff)) <==> r is Some,
        r matches Some(c) ==> c as u32 == v,
{
    char::from_u32(v)
}

fn block_height(m: Blitter) -> (r: u32)
    ensures
        r == block_h(m),
        1 <= r <= 4,
{
    match m {
        Blitter::Half => 2,
        Blitter::Quadrant => 2,
        Blitter::Sextant => 3,
        Blitter::Braille => 4,
        _ => 1,
    }
}

fn block_width(m: Blitter) -> (r: u32)
    ensures
        r == block_w(m),
        1 <= r <= 2,
{
    match m {
        Blitter::Quadrant => 2,
        Blitter::Sextant => 2,
        Blitter::Braille => 2,
        _ => 1,
    }
}

fn pixel_weight(m: Blitter, k: u32) -> (r: u32)
    ensures
        r == weight(m, k as int),
{
    if m == Blitter::Braille {
        if k == 0 { 1 } else if k == 1 { 8 } else if k == 2 { 2 } else if k == 3 { 16 }
        else if k == 4 { 4 } else if k == 5 { 32 } else if k == 6 { 64 } else { 128 }
    } else {
        if k == 0 { 1 } else if k == 1 { 2 } else if k == 2 { 4 } else if k == 3 { 8 }
        else if k == 4 { 16 } else { 32 }
    }
}

fn glyph_code_of(m: Blitter, mask: u32) -> (r: u32)
    requires
        mask < 256,
        m == Blitter::Sextant ==> mask < 64,
        m == Blitter::Quadrant ==> mask < 16,
        m == Blitter::Half ==> mask < 4,
    ensures
        r == glyph_code(m, mask as int),
        r <= 0x10ffff && !(0xd800 <= r <= 0xdfff),
{
    if mask == 0 {
        0x20
    } else if m == Blitter::Braille {
        0x2800 + mask
    } else if m == Blitter::Sextant {
        if mask == 63 {
            0x2588
        } else if mask == 21 {
            0x258c
        } else if mask == 42 {
            0x2590
        } else if mask < 21 {
            0x1fb00 + mask - 1
        } else if mask < 42 {
            0x1fb00 + mask - 2
        } else {
            0x1fb00 + mask - 3
        }
    } else if m == Blitter::Quadrant {
        if mask == 1 { 0x2598 } else if mask == 2 { 0x259d } else if mask == 3 { 0x2580 }
        else if mask == 4 { 0x2596 } else if mask == 5 { 0x258c } else if mask == 6 { 0x259e }
        else if mask == 7 { 0x259b } else if mask == 8 { 0x2597 } else if mask == 9 { 0x259a }
        else if mask == 10 { 0x2590 } else if mask == 11 { 0x259c } else if mask == 12 { 0x2584 }
        else if mask == 13 { 0x2599 } else if mask == 14 { 0x259f } else { 0x2588 }
    } else {
        if mask == 1 { 0x2580 } else if mask == 2 { 0x2584 } else { 0x2588 }
    }
}

} // verus!
