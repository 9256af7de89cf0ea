//! The off-screen image that the user interface draws into, the stack of
//! saved images it can restore regions from, and the copy of the image into
//! the device's frame memory.

use tiny_skia::Pixmap;
use vstd::prelude::*;

verus! {

/// `tiny_skia::Pixmap`, an owned buffer of premultiplied RGBA pixels,
/// carried opaquely; what it holds is named by `pixmap_bytes` and
/// `pixmap_size`.
#[verifier::external_type_specification]
#[verifier::external_body]
pub struct ExPixmap(Pixmap);

/// The bytes of a pixmap: premultiplied red, green, blue and alpha of each
/// pixel, row after row, rows one after another without padding.
pub uninterp spec fn pixmap_bytes(p: Pixmap) -> Seq<u8>;

/// The width and height that a pixmap was made with.
pub uninterp spec fn pixmap_size(p: Pixmap) -> (u32, u32);

/// Whether `Pixmap::new` makes a pixmap of this size: both sides non-zero,
/// a row's bytes within `i32`, all bytes within `usize`.
pub open spec fn pixmap_creatable(width: u32, height: u32) -> bool {
    &&& width > 0
    &&& height > 0
    &&& width * 4 <= i32::MAX
    &&& width * height * 4 <= usize::MAX
}

/// `Pixmap::new(width, height)`: a pixmap of that size filled with
/// transparent black (all bytes 0), or `None` where the size is zero or its
/// bytes overflow (see `pixmap_creatable`).
#[verifier::external_body]
fn new_pixmap(width: u32, height: u32) -> (r: Option<Pixmap>)
    ensures
        r is Some <==> pixmap_creatable(width, height),
        r matches Some(p) ==> pixmap_size(p) == (width, height) && pixmap_bytes(p) == Seq::new(
            (width * height * 4) as nat,
            |i: int| 0u8,
        ),
{
    Pixmap::new(width, height)
}

/// `Pixmap::width`: the width the pixmap was made with.
#[verifier::external_body]
fn pixmap_width(p: &Pixmap) -> (r: u32)
    ensures
        r == pixmap_size(*p).0,
{
    p.width()
}

/// `Pixmap::height`: the height the pixmap was made with.
#[verifier::external_body]
fn pixmap_height(p: &Pixmap) -> (r: u32)
    ensures
        r == pixmap_size(*p).1,
{
    p.height()
}

/// `Pixmap::data`: the pixmap's bytes.
#[verifier::external_body]
fn pixmap_data(p: &Pixmap) -> (r: &[u8])
    ensures
        r@ == pixmap_bytes(*p),
{
    p.data()
}

/// `Pixmap::clone`: a pixmap of the same size with the same bytes.
#[verifier::external_body]
fn clone_pixmap(p: &Pixmap) -> (r: Pixmap)
    ensures
        pixmap_size(r) == pixmap_size(*p),
        pixmap_bytes(r) == pixmap_bytes(*p),
{
    p.clone()
}

/// `dst.pixels_mut()[index] = src.pixels()[index]`: the four bytes of pixel
/// `index` of `src` replace those of `dst`; nothing else changes. Both
/// pixmaps hold exactly four bytes per pixel of their size, as the pixel
/// views need.
#[verifier::external_body]
fn copy_pixel(dst: &mut Pixmap, src: &Pixmap, index: usize)
    requires
        pixmap_bytes(*old(dst)).len() == pixmap_size(*old(dst)).0 * pixmap_size(*old(dst)).1 * 4,
        pixmap_bytes(*src).len() == pixmap_size(*src).0 * pixmap_size(*src).1 * 4,
        4 * index + 4 <= pixmap_bytes(*old(dst)).len(),
        4 * index + 4 <= pixmap_bytes(*src).len(),
    ensures
        pixmap_size(*final(dst)) == pixmap_size(*old(dst)),
        pixmap_bytes(*final(dst)).len() == pixmap_bytes(*old(dst)).len(),
        forall|j: int|
            0 <= j < pixmap_bytes(*old(dst)).len() ==> #[trigger] pixmap_bytes(*final(dst))[j] == if 4
                * index <= j < 4 * index + 4 {
                pixmap_bytes(*src)[j]
            } else {
                pixmap_bytes(*old(dst))[j]
            },
{
    dst.pixels_mut()[index] = src.pixels()[index];
}

/// A rectangle of the screen: its top-left corner and its size.
#[derive(Debug, Clone, Copy, PartialEq, Eq, Structural)]
pub struct Rect {
    pub x: i32,
    pub y: i32,
    pub w: u32,
    pub h: u32,
}

/// Why a display operation failed.
#[derive(Debug, Clone, Copy, PartialEq, Eq, Structural)]
pub enum DisplayError {
    /// There is no saved image to restore from.
    NoSavedImage,
    /// The frame buffer does not hold 32 bits per pixel.
    UnsupportedDepth(u32),
    /// No pixmap of the screen's size can be made.
    PixmapUnavailable,
}

/// The image the interface draws into, with a stack of saved copies.
pub struct Canvas {
    pixmap: Pixmap,
    saved: Vec<Pixmap>,
}

impl Canvas {
    pub closed spec fn size(&self) -> (u32, u32) {
        pixmap_size(self.pixmap)
    }

    pub closed spec fn current(&self) -> Pixmap {
        self.pixmap
    }

    pub closed spec fn saved_pixmaps(&self) -> Seq<Pixmap> {
        self.saved@
    }

    /// The bytes of the current image.
    pub closed spec fn image(&self) -> Seq<u8> {
        pixmap_bytes(self.pixmap)
    }

    /// The bytes of the saved images, oldest first.
    pub closed spec fn saved_images(&self) -> Seq<Seq<u8>> {
        self.saved@.map_values(|p: Pixmap| pixmap_bytes(p))
    }

    pub closed spec fn wf(&self) -> bool {
        &&& self.size().0 > 0
        &&& self.size().1 > 0
        &&& self.image().len() == self.size().0 * self.size().1 * 4
        &&& self.size().0 * self.size().1 * 4 <= usize::MAX
        &&& forall|i: int|
            0 <= i < self.saved@.len() ==> pixmap_size(#[trigger] self.saved@[i]) == self.size()
                && pixmap_bytes(self.saved@[i]).len() == self.image().len()
    }

    /// A blank (transparent black) image of this size with nothing saved,
    /// where `Pixmap::new` can make one.
    pub fn new(width: u32, height: u32) -> (r: Option<Canvas>)
        ensures
            r is Some <==> pixmap_creatable(width, height),
            r matches Some(c) ==> {
                &&& c.wf()
                &&& c.size() == (width, height)
                &&& c.image() == Seq::new((width * height * 4) as nat, |i: int| 0u8)
                &&& c.saved_images().len() == 0
            },
    {
        match new_pixmap(width, height) {
            Some(p) => {
                let c = Canvas { pixmap: p, saved: Vec::new() };
                assert(c.saved_images() =~= Seq::<Seq<u8>>::empty());
                Some(c)
            },
            None => None,
        }
    }

    pub fn width(&self) -> (r: u32)
        ensures
            r == self.size().0,
    {
        pixmap_width(&self.pixmap)
    }

    pub fn height(&self) -> (r: u32)
        ensures
            r == self.size().1,
    {
        pixmap_height(&self.pixmap)
    }

    /// The current image.
    pub fn pixmap(&self) -> (r: &Pixmap)
        ensures
            pixmap_bytes(*r) == self.image(),
            pixmap_size(*r) == self.size(),
    {
        &self.pixmap
    }

    /// The current image, to draw into. Drawing keeps its size.
    pub fn pixmap_mut(&mut self) -> (r: &mut Pixmap)
        requires
            old(self).wf(),
        ensures
            *r == old(self).current(),
            final(self).current() == *final(r),
            final(self).saved_pixmaps() == old(self).saved_pixmaps(),
            pixmap_size(*final(r)) == old(self).size() && pixmap_bytes(*final(r)).len()
                == old(self).image().len() ==> final(self).wf(),
    {
        &mut self.pixmap
    }

    /// How many images are saved.
    pub fn saved_count(&self) -> (r: usize)
        ensures
            r == self.saved_images().len(),
    {
        self.saved.len()
    }

    /// Pushes a copy of the current image onto the saved stack.
    pub fn save(&mut self)
        requires
            old(self).wf(),
        ensures
            final(self).wf(),
            final(self).size() == old(self).size(),
            final(self).image() == old(self).image(),
            final(self).saved_images() == old(self).saved_images().push(old(self).image()),
    {
        let copy = clone_pixmap(&self.pixmap);
        self.saved.push(copy);
        assert(self.saved_images() =~= old(self).saved_images().push(old(self).image()));
    }

    /// Drops the newest saved image, if any; tells whether any is left.
    pub fn pop(&mut self) -> (r: bool)
        requires
            old(self).wf(),
        ensures
            final(self).wf(),
            final(self).size() == old(self).size(),
            final(self).image() == old(self).image(),
            final(self).saved_images() == if old(self).saved_images().len() > 0 {
                old(self).saved_images().drop_last()
            } else {
                old(self).saved_images()
            },
            r == (final(self).saved_images().len() > 0),
    {
        let _ = self.saved.pop();
        proof {
            if old(self).saved@.len() > 0 {
                assert(self.saved@ =~= old(self).saved@.drop_last());
                assert(self.saved_images() =~= old(self).saved_images().drop_last());
            }
        }
        self.saved.len() > 0
    }
}

/// Where a load starts and ends along one axis: from the rectangle's start
/// (negative starts count as 0) for its length, cut at the image's edge.
pub open spec fn load_span(start: i32, len: u32, limit: u32) -> (int, int) {
    let s: int = if start < 0 {
        0
    } else {
        start as int
    };
    let e: int = if s + len < limit {
        s + len
    } else {
        limit as int
    };
    (s, e)
}

/// Whether pixel `(px, py)` of an image of width `w` and height `h` is
/// restored by loading `rect`.
pub open spec fn in_load_region(rect: Rect, w: u32, h: u32, px: int, py: int) -> bool {
    let xs = load_span(rect.x, rect.w, w);
    let ys = load_span(rect.y, rect.h, h);
    xs.0 <= px < xs.1 && ys.0 <= py < ys.1
}

/// Whether the end of `rect` on each axis fits in a `u32`.
pub open spec fn load_fits(rect: Rect) -> bool {
    load_span(rect.x, rect.w, u32::MAX).0 + rect.w <= u32::MAX && load_span(
        rect.y,
        rect.h,
        u32::MAX,
    ).0 + rect.h <= u32::MAX
}

/// The position of channel `c` of pixel `(px, py)` in the bytes of an
/// image of width `w`.
pub open spec fn byte_index(w: int, px: int, py: int, c: int) -> int {
    (py * w + px) * 4 + c
}

proof fn lemma_byte_index(w: int, h: int, px: int, py: int, c: int)
    requires
        0 <= px < w,
        0 <= py < h,
        0 <= c < 4,
    ensures
        0 <= py * w + px < w * h,
        0 <= byte_index(w, px, py, c) < w * h * 4,
        (py * w + px) * 4 <= byte_index(w, px, py, c) < (py * w + px) * 4 + 4,
{
    assert(0 <= py * w + px < w * h) by (nonlinear_arith)
        requires
            0 <= px < w,
            0 <= py < h,
    ;
}

proof fn lemma_distinct_pixels(w: int, px: int, py: int, x: int, y: int)
    requires
        0 <= px < w,
        0 <= x < w,
        0 <= py,
        0 <= y,
        px != x || py != y,
    ensures
        py * w + px != y * w + x,
{
    if py < y {
        assert(py * w + px < y * w + x) by (nonlinear_arith)
            requires
                0 <= px < w,
                0 <= x,
                0 <= py < y,
        ;
    } else if y < py {
        assert(y * w + x < py * w + px) by (nonlinear_arith)
            requires
                0 <= x < w,
                0 <= px,
                0 <= y < py,
        ;
    }
}

impl Canvas {
    /// Restores the part of the image inside `rect` from the newest saved
    /// image; the rest stays as it is. The region starts at the rectangle's
    /// corner, with a negative coordinate counted as 0, spans the
    /// rectangle's size and is cut at the image's edge. Without a saved
    /// image nothing changes.
    pub fn load(&mut self, rect: Rect) -> (r: Result<(), DisplayError>)
        requires
            old(self).wf(),
            old(self).saved_images().len() > 0 ==> load_fits(rect),
        ensures
            final(self).wf(),
            final(self).size() == old(self).size(),
            final(self).saved_images() == old(self).saved_images(),
            old(self).saved_images().len() == 0 ==> r == Err::<(), DisplayError>(
                DisplayError::NoSavedImage,
            ) && final(self).image() == old(self).image(),
            old(self).saved_images().len() > 0 ==> {
                let (w, h) = old(self).size();
                let top = old(self).saved_images().last();
                &&& r is Ok
                &&& final(self).image().len() == old(self).image().len()
                &&& forall|px: int, py: int, c: int|
                    0 <= px < w && 0 <= py < h && 0 <= c < 4 ==> #[trigger] final(self).image()[byte_index(
                        w as int,
                        px,
                        py,
                        c,
                    )] == if in_load_region(rect, w, h, px, py) {
                        top[byte_index(w as int, px, py, c)]
                    } else {
                        old(self).image()[byte_index(w as int, px, py, c)]
                    }
            },
    {
        let n = self.saved.len();
        if n == 0 {
            return Err(DisplayError::NoSavedImage);
        }
        let width = pixmap_width(&self.pixmap);
        let height = pixmap_height(&self.pixmap);
        let ghost orig = self.image();
        let ghost top = self.saved_images().last();
        assert(pixmap_bytes(self.saved@[n - 1]) == top);
        let xs: u32 = if rect.x < 0 {
            0
        } else {
            rect.x as u32
        };
        let xe: u32 = if xs + rect.w < width {
            xs + rect.w
        } else {
            width
        };
        let ys: u32 = if rect.y < 0 {
            0
        } else {
            rect.y as u32
        };
        let ye: u32 = if ys + rect.h < height {
            ys + rect.h
        } else {
            height
        };
        let mut y: u32 = ys;
        while y < ye
            invariant
                self.wf(),
                n == self.saved@.len(),
                n > 0,
                (width, height) == self.size(),
                pixmap_bytes(self.saved@[n - 1]) == top,
                self.saved_images() == old(self).saved_images(),
                self.size() == old(self).size(),
                orig == old(self).image(),
                top.len() == orig.len(),
                self.image().len() == orig.len(),
                xs as int == load_span(rect.x, rect.w, width).0,
                xe as int == load_span(rect.x, rect.w, width).1,
                ys as int == load_span(rect.y, rect.h, height).0,
                ye as int == load_span(rect.y, rect.h, height).1,
                ys <= y,
                ye <= height,
                forall|px: int, py: int, c: int|
                    0 <= px < width && 0 <= py < height && 0 <= c < 4 ==> #[trigger] self.image()[byte_index(
                        width as int,
                        px,
                        py,
                        c,
                    )] == if in_load_region(rect, width, height, px, py) && py < y {
                        top[byte_index(width as int, px, py, c)]
                    } else {
                        orig[byte_index(width as int, px, py, c)]
                    },
            decreases ye - y,
        {
            let mut x: u32 = xs;
            while x < xe
                invariant
                    self.wf(),
                    n == self.saved@.len(),
                    n > 0,
                    (width, height) == self.size(),
                    pixmap_bytes(self.saved@[n - 1]) == top,
                    self.saved_images() == old(self).saved_images(),
                    self.size() == old(self).size(),
                    top.len() == orig.len(),
                    self.image().len() == orig.len(),
                    xs as int == load_span(rect.x, rect.w, width).0,
                    xe as int == load_span(rect.x, rect.w, width).1,
                    ys as int == load_span(rect.y, rect.h, height).0,
                    ye as int == load_span(rect.y, rect.h, height).1,
                    ys <= y < ye,
                    ye <= height,
                    xs <= x,
                    xe <= width,
                    forall|px: int, py: int, c: int|
                        0 <= px < width && 0 <= py < height && 0 <= c < 4 ==> #[trigger] self.image()[byte_index(
                            width as int,
                            px,
                            py,
                            c,
                        )] == if in_load_region(rect, width, height, px, py) && (py < y || (py
                            == y && px < x)) {
                            top[byte_index(width as int, px, py, c)]
                        } else {
                            orig[byte_index(width as int, px, py, c)]
                        },
                decreases xe - x,
            {
                proof {
                    lemma_byte_index(width as int, height as int, x as int, y as int, 0);
                }
                let index: usize = y as usize * width as usize + x as usize;
                let ghost before = self.image();
                copy_pixel(&mut self.pixmap, &self.saved[n - 1], index);
                proof {
                    assert(self.saved_images() =~= old(self).saved_images());
                    assert forall|px: int, py: int, c: int|
                        0 <= px < width && 0 <= py < height && 0 <= c < 4 implies #[trigger] self.image()[byte_index(
                            width as int,
                            px,
                            py,
                            c,
                        )] == if in_load_region(rect, width, height, px, py) && (py < y || (py
                            == y && px < x + 1)) {
                            top[byte_index(width as int, px, py, c)]
                        } else {
                            orig[byte_index(width as int, px, py, c)]
                        } by {
                        lemma_byte_index(width as int, height as int, px, py, c);
                        let j = byte_index(width as int, px, py, c);
                        if px != x || py != y {
                            lemma_distinct_pixels(width as int, px, py, x as int, y as int);
                            assert(!(4 * index <= j < 4 * index + 4)) by (nonlinear_arith)
                                requires
                                    py * width + px != index,
                                    (py * width + px) * 4 <= j < (py * width + px) * 4 + 4,
                            ;
                            assert(self.image()[j] == before[j]);
                        } else {
                            assert(self.image()[j] == top[j]);
                        }
                    }
                }
                x = x + 1;
            }
            y = y + 1;
        }
        Ok(())
    }
}

/// Where pixel `(x, y)` of the image lands on a panel of physical width
/// `w` and height `h` mounted at `rotation` degrees (90, 180 or 270; any
/// other value is upright).
pub open spec fn rotated(x: int, y: int, w: int, h: int, rotation: u32) -> (int, int) {
    if rotation == 90 {
        (w - y - 1, x)
    } else if rotation == 180 {
        (w - x - 1, h - y - 1)
    } else if rotation == 270 {
        (y, h - x - 1)
    } else {
        (x, y)
    }
}

/// Whether rotating every pixel of a `width` by `height` image onto a
/// `pw` by `ph` panel stays clear of negative coordinates.
pub open spec fn rotation_defined(width: int, height: int, pw: int, ph: int, rotation: u32) -> bool {
    &&& rotation == 90 ==> height <= pw
    &&& rotation == 180 ==> width <= pw && height <= ph
    &&& rotation == 270 ==> width <= ph
}

/// The panel pixel `(x, y)` of the image goes to, counted row by row.
pub open spec fn frame_target(x: int, y: int, pw: int, ph: int, rotation: u32) -> int {
    let (fx, fy) = rotated(x, y, pw, ph, rotation);
    fy * pw + fx
}

/// The bytes of panel memory that copying a `width` by `height` image
/// reaches: one past the last byte of the pixel that lands furthest in.
pub open spec fn frame_extent(width: int, height: int, pw: int, ph: int, rotation: u32) -> int {
    if rotation == 90 {
        width * pw * 4
    } else if rotation == 180 {
        ph * pw * 4
    } else if rotation == 270 {
        ((ph - 1) * pw + height) * 4
    } else {
        ((height - 1) * pw + width) * 4
    }
}

/// Whether copying a `width` by `height` image onto the panel fits in
/// `len` bytes of panel memory.
pub open spec fn frame_fits(
    width: int,
    height: int,
    pw: int,
    ph: int,
    rotation: u32,
    len: int,
) -> bool {
    rotation_defined(width, height, pw, ph, rotation) && frame_extent(
        width,
        height,
        pw,
        ph,
        rotation,
    ) <= len
}

/// The source channel that panel channel `c` takes: the panel wants blue,
/// green, red, alpha where the image holds red, green, blue, alpha.
pub open spec fn bgra_source(c: int) -> int {
    if c == 0 {
        2
    } else if c == 2 {
        0
    } else {
        c
    }
}

/// Pixel `(x2, y2)` comes after pixel `(x, y)` in row order.
pub open spec fn later(x2: int, y2: int, x: int, y: int) -> bool {
    y2 > y || (y2 == y && x2 > x)
}

/// Pixel `(x2, y2)` comes before the pixel `(x, y)` in row order.
pub open spec fn before(x2: int, y2: int, x: int, y: int) -> bool {
    y2 < y || (y2 == y && x2 < x)
}

/// Where pixel `(x, y)` lands on a panel of physical size `width` by
/// `height` mounted at `rotation` degrees.
pub fn rotate(x: usize, y: usize, width: usize, height: usize, rotation: u32) -> (r: (usize, usize))
    requires
        rotation == 90 ==> y < width,
        rotation == 180 ==> x < width && y < height,
        rotation == 270 ==> x < height,
    ensures
        r.0 == rotated(x as int, y as int, width as int, height as int, rotation).0,
        r.1 == rotated(x as int, y as int, width as int, height as int, rotation).1,
{
    if rotation == 90 {
        (width - y - 1, x)
    } else if rotation == 180 {
        (width - x - 1, height - y - 1)
    } else if rotation == 270 {
        (y, height - x - 1)
    } else {
        (x, y)
    }
}

proof fn lemma_frame_target(
    x: int,
    y: int,
    width: int,
    height: int,
    pw: int,
    ph: int,
    rotation: u32,
)
    requires
        0 <= x < width,
        0 <= y < height,
        0 <= pw,
        0 <= ph,
        rotation_defined(width, height, pw, ph, rotation),
    ensures
        rotated(x, y, pw, ph, rotation).0 >= 0,
        rotated(x, y, pw, ph, rotation).1 >= 0,
        0 <= frame_target(x, y, pw, ph, rotation),
        frame_target(x, y, pw, ph, rotation) * 4 + 4 <= frame_extent(
            width,
            height,
            pw,
            ph,
            rotation,
        ),
{
    if rotation == 90 {
        assert(0 <= x * pw + (pw - y - 1) && (x * pw + (pw - y - 1)) * 4 + 4 <= width * pw * 4)
            by (nonlinear_arith)
            requires
                0 <= x < width,
                0 <= y < height,
                height <= pw,
        ;
    } else if rotation == 180 {
        assert(0 <= (ph - y - 1) * pw + (pw - x - 1) && ((ph - y - 1) * pw + (pw - x - 1)) * 4 + 4
            <= ph * pw * 4) by (nonlinear_arith)
            requires
                0 <= x < width,
                0 <= y < height,
                width <= pw,
                height <= ph,
        ;
    } else if rotation == 270 {
        assert(0 <= (ph - x - 1) * pw + y && ((ph - x - 1) * pw + y) * 4 + 4 <= ((ph - 1) * pw
            + height) * 4) by (nonlinear_arith)
            requires
                0 <= x < width,
                0 <= y < height,
                width <= ph,
                0 <= pw,
        ;
    } else {
        assert(0 <= y * pw + x && (y * pw + x) * 4 + 4 <= ((height - 1) * pw + width) * 4)
            by (nonlinear_arith)
            requires
                0 <= x < width,
                0 <= y < height,
                0 <= pw,
        ;
    }
}

impl Canvas {
    /// Copies the image onto a panel of physical size `physical_width` by
    /// `physical_height` mounted at `rotation` degrees, into its frame
    /// memory `frame`: four bytes per panel pixel, row by row, in blue,
    /// green, red, alpha order. Pixels are written in row order, so where
    /// two land on the same panel pixel the later one stays; panel bytes no
    /// pixel lands on keep their value.
    pub fn flush_rotated(
        &self,
        frame: &mut [u8],
        physical_width: usize,
        physical_height: usize,
        rotation: u32,
    )
        requires
            self.wf(),
            frame_fits(
                self.size().0 as int,
                self.size().1 as int,
                physical_width as int,
                physical_height as int,
                rotation,
                old(frame)@.len() as int,
            ),
        ensures
            final(frame)@.len() == old(frame)@.len(),
            forall|x: int, y: int, c: int|
                0 <= x < self.size().0 && 0 <= y < self.size().1 && 0 <= c < 4 && (forall|
                    x2: int,
                    y2: int,
                |
                    0 <= x2 < self.size().0 && 0 <= y2 < self.size().1 && later(x2, y2, x, y)
                        ==> #[trigger] frame_target(
                        x2,
                        y2,
                        physical_width as int,
                        physical_height as int,
                        rotation,
                    ) != frame_target(x, y, physical_width as int, physical_height as int, rotation))
                    ==> #[trigger] final(frame)@[frame_target(
                    x,
                    y,
                    physical_width as int,
                    physical_height as int,
                    rotation,
                ) * 4 + c] == self.image()[byte_index(self.size().0 as int, x, y, bgra_source(c))],
            forall|j: int|
                0 <= j < old(frame)@.len() && (forall|x: int, y: int|
                    0 <= x < self.size().0 && 0 <= y < self.size().1 ==> !(#[trigger] frame_target(
                        x,
                        y,
                        physical_width as int,
                        physical_height as int,
                        rotation,
                    ) * 4 <= j < frame_target(
                        x,
                        y,
                        physical_width as int,
                        physical_height as int,
                        rotation,
                    ) * 4 + 4)) ==> #[trigger] final(frame)@[j] == old(frame)@[j],
    {
        let width = pixmap_width(&self.pixmap);
        let height = pixmap_height(&self.pixmap);
        let src = pixmap_data(&self.pixmap);
        let ghost w = width as int;
        let ghost h = height as int;
        let ghost pw = physical_width as int;
        let ghost ph = physical_height as int;
        let ghost orig = old(frame)@;
        let mut y: usize = 0;
        while y < height as usize
            invariant
                self.wf(),
                (width, height) == self.size(),
                src@ == self.image(),
                src@.len() == w * h * 4,
                w == width as int,
                h == height as int,
                pw == physical_width as int,
                ph == physical_height as int,
                frame_fits(w, h, pw, ph, rotation, orig.len() as int),
                frame@.len() == orig.len(),
                0 <= y <= h,
                forall|x1: int, y1: int, c: int|
                    0 <= x1 < w && 0 <= y1 < h && 0 <= c < 4 && before(x1, y1, 0, y as int) && (
                    forall|x2: int, y2: int|
                        0 <= x2 < w && 0 <= y2 < h && before(x2, y2, 0, y as int) && later(
                            x2,
                            y2,
                            x1,
                            y1,
                        ) ==> #[trigger] frame_target(x2, y2, pw, ph, rotation) != frame_target(
                            x1,
                            y1,
                            pw,
                            ph,
                            rotation,
                        )) ==> #[trigger] frame@[frame_target(x1, y1, pw, ph, rotation) * 4 + c]
                        == src@[byte_index(w, x1, y1, bgra_source(c))],
                forall|j: int|
                    0 <= j < orig.len() && (forall|x1: int, y1: int|
                        0 <= x1 < w && 0 <= y1 < h && before(x1, y1, 0, y as int) ==> !(
                        #[trigger] frame_target(x1, y1, pw, ph, rotation) * 4 <= j
                            < frame_target(x1, y1, pw, ph, rotation) * 4 + 4)) ==> #[trigger] frame@[j]
                        == orig[j],
            decreases h - y,
        {
            let mut x: usize = 0;
            while x < width as usize
                invariant
                    self.wf(),
                    (width, height) == self.size(),
                    src@ == self.image(),
                    src@.len() == w * h * 4,
                    w == width as int,
                    h == height as int,
                    pw == physical_width as int,
                    ph == physical_height as int,
                    frame_fits(w, h, pw, ph, rotation, orig.len() as int),
                    frame@.len() == orig.len(),
                    0 <= y < h,
                    0 <= x <= w,
                    forall|x1: int, y1: int, c: int|
                        0 <= x1 < w && 0 <= y1 < h && 0 <= c < 4 && before(x1, y1, x as int, y as int)
                            && (forall|x2: int, y2: int|
                            0 <= x2 < w && 0 <= y2 < h && before(x2, y2, x as int, y as int)
                                && later(x2, y2, x1, y1) ==> #[trigger] frame_target(
                                x2,
                                y2,
                                pw,
                                ph,
                                rotation,
                            ) != frame_target(x1, y1, pw, ph, rotation)) ==> #[trigger] frame@[frame_target(
                            x1,
                            y1,
                            pw,
                            ph,
                            rotation,
                        ) * 4 + c] == src@[byte_index(w, x1, y1, bgra_source(c))],
                    forall|j: int|
                        0 <= j < orig.len() && (forall|x1: int, y1: int|
                            0 <= x1 < w && 0 <= y1 < h && before(x1, y1, x as int, y as int) ==> !(
                            #[trigger] frame_target(x1, y1, pw, ph, rotation) * 4 <= j
                                < frame_target(x1, y1, pw, ph, rotation) * 4 + 4)) ==> #[trigger] frame@[j]
                            == orig[j],
                decreases w - x,
            {
                proof {
                    lemma_frame_target(x as int, y as int, w, h, pw, ph, rotation);
                    lemma_byte_index(w, h, x as int, y as int, 0);
                }
                let (fx, fy) = rotate(x, y, physical_width, physical_height, rotation);
                assert(fy * pw + fx == frame_target(x as int, y as int, pw, ph, rotation));
                assert(frame_target(x as int, y as int, pw, ph, rotation) * 4 + 4 <= orig.len());
                let flen = frame.len();
                assert(orig.len() == flen);
                let t: usize = (fy * physical_width + fx) * 4;
                let k: usize = (y * width as usize + x) * 4;
                let ghost prev = frame@;
                frame[t] = src[k + 2];
                frame[t + 1] = src[k + 1];
                frame[t + 2] = src[k];
                frame[t + 3] = src[k + 3];
                proof {
                    let tq = frame_target(x as int, y as int, pw, ph, rotation);
                    assert(t == tq * 4);
                    assert forall|c: int| 0 <= c < 4 implies #[trigger] frame@[t + c] == src@[byte_index(
                        w,
                        x as int,
                        y as int,
                        bgra_source(c),
                    )] by {
                        lemma_byte_index(w, h, x as int, y as int, bgra_source(c));
                    }
                    assert forall|j: int| 0 <= j < orig.len() && !(t <= j < t + 4) implies frame@[j]
                        == prev[j] by {}
                    assert forall|x1: int, y1: int, c: int|
                        0 <= x1 < w && 0 <= y1 < h && 0 <= c < 4 && before(
                            x1,
                            y1,
                            x + 1,
                            y as int,
                        ) && (forall|x2: int, y2: int|
                            0 <= x2 < w && 0 <= y2 < h && before(x2, y2, x + 1, y as int) && later(
                                x2,
                                y2,
                                x1,
                                y1,
                            ) ==> #[trigger] frame_target(x2, y2, pw, ph, rotation) != frame_target(
                                x1,
                                y1,
                                pw,
                                ph,
                                rotation,
                            )) implies #[trigger] frame@[frame_target(x1, y1, pw, ph, rotation) * 4
                        + c] == src@[byte_index(w, x1, y1, bgra_source(c))] by {
                        if x1 != x || y1 != y {
                            assert(frame_target(x as int, y as int, pw, ph, rotation)
                                != frame_target(x1, y1, pw, ph, rotation));
                            lemma_frame_target(x1, y1, w, h, pw, ph, rotation);
                            let t1 = frame_target(x1, y1, pw, ph, rotation);
                            assert(prev[t1 * 4 + c] == src@[byte_index(w, x1, y1, bgra_source(c))]);
                        }
                    }
                    assert forall|j: int|
                        0 <= j < orig.len() && (forall|x1: int, y1: int|
                            0 <= x1 < w && 0 <= y1 < h && before(x1, y1, x + 1, y as int) ==> !(
                            #[trigger] frame_target(x1, y1, pw, ph, rotation) * 4 <= j
                                < frame_target(x1, y1, pw, ph, rotation) * 4 + 4)) implies #[trigger] frame@[j]
                        == orig[j] by {
                        assert(!(frame_target(x as int, y as int, pw, ph, rotation) * 4 <= j
                            < frame_target(x as int, y as int, pw, ph, rotation) * 4 + 4));
                    }
                }
                x = x + 1;
            }
            y = y + 1;
        }
    }
}

/// Where byte `i` of row `y` of the image lands in frame memory whose rows
/// are `pitch` bytes apart.
pub open spec fn pitched_target(i: int, y: int, pitch: int) -> int {
    y * pitch + i
}

impl Canvas {
    /// Copies the image, unrotated and in its own byte order, into frame
    /// memory `dst` whose rows start `pitch` bytes apart: row `y` goes to
    /// `dst[y * pitch..]`. Rows are written in order, so where rows overlap
    /// (a pitch shorter than a row) the later one stays; bytes no row
    /// reaches keep their value.
    pub fn flush_pitched(&self, dst: &mut [u8], pitch: usize)
        requires
            self.wf(),
            (self.size().1 - 1) * pitch + self.size().0 * 4 <= old(dst)@.len(),
        ensures
            final(dst)@.len() == old(dst)@.len(),
            forall|i: int, y: int|
                0 <= i < self.size().0 * 4 && 0 <= y < self.size().1 && (forall|i2: int, y2: int|
                    0 <= i2 < self.size().0 * 4 && 0 <= y2 < self.size().1 && later(i2, y2, i, y)
                        ==> #[trigger] pitched_target(i2, y2, pitch as int) != pitched_target(
                        i,
                        y,
                        pitch as int,
                    )) ==> #[trigger] final(dst)@[pitched_target(i, y, pitch as int)]
                    == self.image()[y * self.size().0 * 4 + i],
            forall|j: int|
                0 <= j < old(dst)@.len() && (forall|i: int, y: int|
                    0 <= i < self.size().0 * 4 && 0 <= y < self.size().1 ==> #[trigger] pitched_target(
                        i,
                        y,
                        pitch as int,
                    ) != j) ==> #[trigger] final(dst)@[j] == old(dst)@[j],
    {
        let width = pixmap_width(&self.pixmap);
        let height = pixmap_height(&self.pixmap);
        let src = pixmap_data(&self.pixmap);
        let ghost w = width as int;
        let ghost h = height as int;
        let ghost p = pitch as int;
        let ghost orig = old(dst)@;
        assert(w * 4 <= w * h * 4) by (nonlinear_arith)
            requires
                h >= 1,
                w >= 0,
        ;
        let row: usize = width as usize * 4;
        let mut y: usize = 0;
        while y < height as usize
            invariant
                self.wf(),
                (width, height) == self.size(),
                src@ == self.image(),
                src@.len() == w * h * 4,
                w == width as int,
                h == height as int,
                p == pitch as int,
                row == w * 4,
                (h - 1) * p + w * 4 <= orig.len(),
                dst@.len() == orig.len(),
                0 <= y <= h,
                forall|i1: int, y1: int|
                    0 <= i1 < w * 4 && 0 <= y1 < h && before(i1, y1, 0, y as int) && (forall|
                        i2: int,
                        y2: int,
                    |
                        0 <= i2 < w * 4 && 0 <= y2 < h && before(i2, y2, 0, y as int) && later(
                            i2,
                            y2,
                            i1,
                            y1,
                        ) ==> #[trigger] pitched_target(i2, y2, p) != pitched_target(i1, y1, p))
                        ==> #[trigger] dst@[pitched_target(i1, y1, p)] == src@[y1 * w * 4 + i1],
                forall|j: int|
                    0 <= j < orig.len() && (forall|i1: int, y1: int|
                        0 <= i1 < w * 4 && 0 <= y1 < h && before(i1, y1, 0, y as int)
                            ==> #[trigger] pitched_target(i1, y1, p) != j) ==> #[trigger] dst@[j]
                        == orig[j],
            decreases h - y,
        {
            let mut i: usize = 0;
            while i < row
                invariant
                    self.wf(),
                    (width, height) == self.size(),
                    src@ == self.image(),
                    src@.len() == w * h * 4,
                    w == width as int,
                    h == height as int,
                    p == pitch as int,
                    row == w * 4,
                    (h - 1) * p + w * 4 <= orig.len(),
                    dst@.len() == orig.len(),
                    0 <= y < h,
                    0 <= i <= row,
                    forall|i1: int, y1: int|
                        0 <= i1 < w * 4 && 0 <= y1 < h && before(i1, y1, i as int, y as int) && (
                        forall|i2: int, y2: int|
                            0 <= i2 < w * 4 && 0 <= y2 < h && before(i2, y2, i as int, y as int)
                                && later(i2, y2, i1, y1) ==> #[trigger] pitched_target(i2, y2, p)
                                != pitched_target(i1, y1, p)) ==> #[trigger] dst@[pitched_target(
                            i1,
                            y1,
                            p,
                        )] == src@[y1 * w * 4 + i1],
                    forall|j: int|
                        0 <= j < orig.len() && (forall|i1: int, y1: int|
                            0 <= i1 < w * 4 && 0 <= y1 < h && before(i1, y1, i as int, y as int)
                                ==> #[trigger] pitched_target(i1, y1, p) != j) ==> #[trigger] dst@[j]
                            == orig[j],
                decreases row - i,
            {
                let dlen = dst.len();
                proof {
                    assert(y * p <= (h - 1) * p) by (nonlinear_arith)
                        requires
                            0 <= y < h,
                            0 <= p,
                    ;
                    assert(y * w * 4 + i < w * h * 4) by (nonlinear_arith)
                        requires
                            0 <= y < h,
                            0 <= i < w * 4,
                    ;
                }
                assert(y * row == y * w * 4) by (nonlinear_arith)
                    requires
                        row == w * 4,
                ;
                let d: usize = y * pitch + i;
                let k: usize = y * row + i;
                let ghost prev = dst@;
                dst[d] = src[k];
                proof {
                    assert forall|i1: int, y1: int|
                        0 <= i1 < w * 4 && 0 <= y1 < h && before(i1, y1, i + 1, y as int) && (
                        forall|i2: int, y2: int|
                            0 <= i2 < w * 4 && 0 <= y2 < h && before(i2, y2, i + 1, y as int)
                                && later(i2, y2, i1, y1) ==> #[trigger] pitched_target(i2, y2, p)
                                != pitched_target(i1, y1, p)) implies #[trigger] dst@[pitched_target(
                        i1,
                        y1,
                        p,
                    )] == src@[y1 * w * 4 + i1] by {
                        if i1 != i || y1 != y {
                            assert(pitched_target(i as int, y as int, p) != pitched_target(
                                i1,
                                y1,
                                p,
                            ));
                            assert(y1 * p <= (h - 1) * p) by (nonlinear_arith)
                                requires
                                    0 <= y1 < h,
                                    0 <= p,
                            ;
                            assert(prev[pitched_target(i1, y1, p)] == src@[y1 * w * 4 + i1]);
                        }
                    }
                    assert forall|j: int|
                        0 <= j < orig.len() && (forall|i1: int, y1: int|
                            0 <= i1 < w * 4 && 0 <= y1 < h && before(i1, y1, i + 1, y as int)
                                ==> #[trigger] pitched_target(i1, y1, p) != j) implies #[trigger] dst@[j]
                        == orig[j] by {
                        assert(pitched_target(i as int, y as int, p) != j);
                    }
                }
                i = i + 1;
            }
            y = y + 1;
        }
    }
}

/// Whether a panel of physical size `pw` by `ph` mounted at `rotation`
/// degrees shows exactly a `width` by `height` image: the sides swap at 90
/// and 270 degrees.
pub open spec fn panel_matches(width: int, height: int, pw: int, ph: int, rotation: u32) -> bool {
    if rotation == 90 || rotation == 270 {
        pw == height && ph == width
    } else {
        pw == width && ph == height
    }
}

/// On a panel that matches the image, every pixel lands on the panel and
/// no two pixels land on the same panel pixel, so the copy shows each pixel
/// of the image exactly once.
pub proof fn lemma_rotation_is_one_to_one(
    width: int,
    height: int,
    pw: int,
    ph: int,
    rotation: u32,
    x: int,
    y: int,
    x2: int,
    y2: int,
)
    requires
        panel_matches(width, height, pw, ph, rotation),
        0 <= x < width,
        0 <= y < height,
        0 <= x2 < width,
        0 <= y2 < height,
    ensures
        0 <= rotated(x, y, pw, ph, rotation).0 < pw,
        0 <= rotated(x, y, pw, ph, rotation).1 < ph,
        0 <= frame_target(x, y, pw, ph, rotation) < pw * ph,
        (x, y) != (x2, y2) ==> frame_target(x, y, pw, ph, rotation) != frame_target(
            x2,
            y2,
            pw,
            ph,
            rotation,
        ),
{
    let (fx, fy) = rotated(x, y, pw, ph, rotation);
    let (gx, gy) = rotated(x2, y2, pw, ph, rotation);
    assert(0 <= fy * pw + fx < pw * ph) by (nonlinear_arith)
        requires
            0 <= fx < pw,
            0 <= fy < ph,
    ;
    if (x, y) != (x2, y2) {
        assert(fx != gx || fy != gy);
        lemma_distinct_pixels(pw, fx, fy, gx, gy);
    }
}

/// Restoring a rectangle that covers the whole image gives back the saved
/// image exactly: every byte of the image is restored.
pub proof fn lemma_covering_load_restores_saved(
    image: Seq<u8>,
    top: Seq<u8>,
    w: u32,
    h: u32,
    rect: Rect,
)
    requires
        image.len() == w * h * 4,
        top.len() == image.len(),
        rect.x <= 0,
        rect.y <= 0,
        rect.w >= w,
        rect.h >= h,
        forall|px: int, py: int, c: int|
            0 <= px < w && 0 <= py < h && 0 <= c < 4 ==> #[trigger] image[byte_index(
                w as int,
                px,
                py,
                c,
            )] == if in_load_region(rect, w, h, px, py) {
                top[byte_index(w as int, px, py, c)]
            } else {
                image[byte_index(w as int, px, py, c)]
            },
    ensures
        image == top,
{
    assert forall|j: int| 0 <= j < image.len() implies image[j] == top[j] by {
        let p = j / 4;
        let c = j % 4;
        let px = p % (w as int);
        let py = p / (w as int);
        assert(w > 0) by (nonlinear_arith)
            requires
                0 <= j < w * h * 4,
        ;
        assert(p * 4 + c == j && 0 <= c < 4 && 0 <= p < w * h) by (nonlinear_arith)
            requires
                p == j / 4,
                c == j % 4,
                0 <= j < w * h * 4,
        ;
        assert(py * w + px == p && 0 <= px < w && 0 <= py < h) by (nonlinear_arith)
            requires
                px == p % (w as int),
                py == p / (w as int),
                0 <= p < w * h,
                w > 0,
        ;
        assert(byte_index(w as int, px, py, c) == j);
        assert(in_load_region(rect, w, h, px, py));
    }
    assert(image =~= top);
}

/// Dropping the newest saved image right after saving leaves the saved
/// stack as it was before the save.
pub proof fn lemma_save_then_pop(saved: Seq<Seq<u8>>, image: Seq<u8>)
    ensures
        saved.push(image).len() > 0,
        saved.push(image).drop_last() == saved,
        saved.push(image).last() == image,
{
    assert(saved.push(image).drop_last() =~= saved);
}

/// Whether a copy of a `width` by `height` image fits frame memory of
/// `len` bytes on a `pw` by `ph` panel mounted at `rotation` degrees.
pub fn frame_fits_check(width: u32, height: u32, pw: usize, ph: usize, rotation: u32, len: usize) -> (r: bool)
    ensures
        r == frame_fits(width as int, height as int, pw as int, ph as int, rotation, len as int),
{
    let w = width as u128;
    let h = height as u128;
    let pw = pw as u128;
    let ph = ph as u128;
    let len = len as u128;
    if rotation == 90 {
        assert(w * pw <= 0x1_0000_0000 * 0x1_0000_0000_0000_0000) by (nonlinear_arith)
            requires
                w < 0x1_0000_0000,
                pw < 0x1_0000_0000_0000_0000,
        ;
        h <= pw && w * pw * 4 <= len
    } else if rotation == 180 {
        if w <= pw && h <= ph {
            match ph.checked_mul(pw) {
                Some(a) => a <= len && a * 4 <= len,
                None => false,
            }
        } else {
            false
        }
    } else if rotation == 270 {
        if w <= ph && ph >= 1 {
            assert((ph - 1) * pw >= 0) by (nonlinear_arith)
                requires
                    ph >= 1,
                    pw >= 0,
            ;
            match (ph - 1).checked_mul(pw) {
                Some(a) => {
                    if a > len {
                        false
                    } else {
                        (a + h) * 4 <= len
                    }
                },
                None => false,
            }
        } else if w <= ph {
            assert(ph == 0);
            assert((ph - 1) * pw == -pw) by (nonlinear_arith)
                requires
                    ph == 0,
            ;
            if h <= pw {
                true
            } else {
                (h - pw) * 4 <= len
            }
        } else {
            false
        }
    } else {
        if h >= 1 {
            assert(0 <= (h - 1) * pw <= 0x1_0000_0000 * 0x1_0000_0000_0000_0000) by (nonlinear_arith)
                requires
                    1 <= h < 0x1_0000_0000,
                    pw < 0x1_0000_0000_0000_0000,
            ;
            ((h - 1) * pw + w) * 4 <= len
        } else {
            assert((h - 1) * pw == -pw) by (nonlinear_arith)
                requires
                    h == 0,
            ;
            w <= pw || (w - pw) * 4 <= len
        }
    }
}

/// Whether the ends of `rect` fit in a `u32`, as loading it needs.
pub fn load_fits_check(rect: Rect) -> (r: bool)
    ensures
        r == load_fits(rect),
{
    let xs: u32 = if rect.x < 0 {
        0
    } else {
        rect.x as u32
    };
    let ys: u32 = if rect.y < 0 {
        0
    } else {
        rect.y as u32
    };
    xs.checked_add(rect.w).is_some() && ys.checked_add(rect.h).is_some()
}

/// Whether rows `pitch` bytes apart of a `width` by `height` image fit in
/// `len` bytes of frame memory.
pub fn pitched_fits_check(width: u32, height: u32, pitch: usize, len: usize) -> (r: bool)
    ensures
        r == ((height - 1) * pitch + width * 4 <= len),
{
    let w = width as u128;
    let h = height as u128;
    let p = pitch as u128;
    let len = len as u128;
    if h == 0 {
        assert((h - 1) * p == -p) by (nonlinear_arith)
            requires
                h == 0,
        ;
        w * 4 <= p || w * 4 - p <= len
    } else {
        assert(0 <= (h - 1) * p <= 0x1_0000_0000 * 0x1_0000_0000_0000_0000) by (nonlinear_arith)
            requires
                1 <= h < 0x1_0000_0000,
                p < 0x1_0000_0000_0000_0000,
        ;
        (h - 1) * p + w * 4 <= len
    }
}

impl Canvas {
    /// The canvas of a frame-buffer display: the frame buffer must hold 32
    /// bits per pixel, and a pixmap of the screen's size must be possible.
    pub fn for_framebuffer(bits_per_pixel: u32, width: u32, height: u32) -> (r: Result<
        Canvas,
        DisplayError,
    >)
        ensures
            bits_per_pixel != 32 ==> r == Err::<Canvas, DisplayError>(
                DisplayError::UnsupportedDepth(bits_per_pixel),
            ),
            bits_per_pixel == 32 && !pixmap_creatable(width, height) ==> r == Err::<
                Canvas,
                DisplayError,
            >(DisplayError::PixmapUnavailable),
            bits_per_pixel == 32 && pixmap_creatable(width, height) ==> (r matches Ok(c) && c.wf()
                && c.size() == (width, height) && c.image() == Seq::new(
                (width * height * 4) as nat,
                |i: int| 0u8,
            ) && c.saved_images().len() == 0),
    {
        if bits_per_pixel != 32 {
            return Err(DisplayError::UnsupportedDepth(bits_per_pixel));
        }
        match Canvas::new(width, height) {
            Some(c) => Ok(c),
            None => Err(DisplayError::PixmapUnavailable),
        }
    }
}

} // verus!
