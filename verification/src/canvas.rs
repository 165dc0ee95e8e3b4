//! The canvas: a width x height pixel grid stored in an `image` crate
//! buffer, written through coordinate-checked puts in a centered frame
//! (origin at the middle, y up); writes outside the frame are silently
//! dropped.  The buffer itself is trusted; every coordinate decision is
//! verified.

use vstd::prelude::*;
use crate::color::Color;
use crate::scene::DIM_LIMIT;

verus! {

/// The trusted pixel storage: an RGB image buffer of the `image`
/// crate, held opaquely.
#[verifier::external_body]
pub struct PixelBuf {
    img: image::RgbImage,
}

/// The pixel grid a buffer holds: channel triples keyed by storage
/// coordinate (top-left origin, y down).
pub uninterp spec fn image_pixels(buf: PixelBuf) -> Map<(u32, u32), (u8, u8, u8)>;

/// The dimensions a buffer was created with.
pub uninterp spec fn image_dims(buf: PixelBuf) -> (u32, u32);

/// Relies on image::ImageBuffer::new: a buffer of the given dimensions
/// with every pixel zeroed, i.e. black.
#[verifier::external_body]
fn image_new(width: u32, height: u32) -> (buf: PixelBuf)
    requires
        width * height * 3 <= usize::MAX,
    ensures
        image_dims(buf) == (width, height),
        image_pixels(buf) == Map::new(
            |xy: (u32, u32)| xy.0 < width && xy.1 < height,
            |xy: (u32, u32)| (0u8, 0u8, 0u8),
        ),
{
    PixelBuf { img: image::RgbImage::new(width, height) }
}

/// Relies on image::ImageBuffer::put_pixel: replaces the pixel at the
/// in-range storage coordinate `(x, y)` and changes nothing else.
#[verifier::external_body]
fn image_put_pixel(buf: &mut PixelBuf, x: u32, y: u32, c: Color)
    requires
        x < image_dims(*old(buf)).0,
        y < image_dims(*old(buf)).1,
    ensures
        image_dims(*final(buf)) == image_dims(*old(buf)),
        image_pixels(*final(buf)) == image_pixels(*old(buf)).insert((x, y), (c.r, c.g, c.b)),
{
    buf.img.put_pixel(x, y, image::Rgb([c.r, c.g, c.b]));
}

/// Relies on image::ImageBuffer::get_pixel: returns the pixel at the
/// in-range storage coordinate `(x, y)`.
#[verifier::external_body]
fn image_get_pixel(buf: &PixelBuf, x: u32, y: u32) -> (c: Color)
    requires
        x < image_dims(*buf).0,
        y < image_dims(*buf).1,
        image_pixels(*buf).dom().contains((x, y)),
    ensures
        (c.r, c.g, c.b) == image_pixels(*buf)[(x, y)],
{
    let p = buf.img.get_pixel(x, y);
    Color { r: p.0[0], g: p.0[1], b: p.0[2] }
}

/// Where the centered coordinate `(x, y)` lands in storage coordinates:
/// `(width / 2 + x, height / 2 - y)`.
pub open spec fn stored_coord(width: int, height: int, x: int, y: int) -> (int, int) {
    (width / 2 + x, height / 2 - y)
}

/// What one centered-frame put does to the pixel grid: an in-range
/// write lands at the transformed storage coordinate, an out-of-range
/// write changes nothing.
pub open spec fn put_pixel_spec(
    pix: Map<(u32, u32), (u8, u8, u8)>,
    width: int,
    height: int,
    x: int,
    y: int,
    c: Color,
) -> Map<(u32, u32), (u8, u8, u8)> {
    let sc = stored_coord(width, height, x, y);
    if 0 <= sc.0 < width && 0 <= sc.1 < height {
        pix.insert((sc.0 as u32, sc.1 as u32), (c.r, c.g, c.b))
    } else {
        pix
    }
}

/// A width x height pixel grid with exclusive ownership of its storage.
pub struct Canvas {
    pub width: u32,
    pub height: u32,
    pub img: PixelBuf,
}

impl Canvas {
    /// The pixel grid, keyed by storage coordinate.
    pub open spec fn pixels(self) -> Map<(u32, u32), (u8, u8, u8)> {
        image_pixels(self.img)
    }

    /// A well-formed canvas: dimensions in range and in step with the
    /// buffer, and exactly the in-range storage coordinates mapped.
    pub open spec fn wf(self) -> bool {
        &&& 1 <= self.width <= DIM_LIMIT
        &&& 1 <= self.height <= DIM_LIMIT
        &&& image_dims(self.img) == (self.width, self.height)
        &&& forall|xy: (u32, u32)|
            self.pixels().dom().contains(xy) <==> (xy.0 < self.width && xy.1 < self.height)
    }

    /// The canvas width in pixels.
    pub fn width(&self) -> (w: u32)
        ensures
            w == self.width,
    {
        self.width
    }

    /// The canvas height in pixels.
    pub fn height(&self) -> (h: u32)
        ensures
            h == self.height,
    {
        self.height
    }

    /// Creates an all-black canvas of the given dimensions.
    pub fn new(width: u32, height: u32) -> (c: Canvas)
        requires
            1 <= width <= DIM_LIMIT,
            1 <= height <= DIM_LIMIT,
        ensures
            c.wf(),
            c.width == width,
            c.height == height,
            c.pixels() == Map::new(
                |xy: (u32, u32)| xy.0 < width && xy.1 < height,
                |xy: (u32, u32)| (0u8, 0u8, 0u8),
            ),
    {
        proof {
            assert((width as int) * (height as int) * 3 <= 805306368) by (nonlinear_arith)
                requires
                    0 <= width <= 16384,
                    0 <= height <= 16384,
            ;
        }
        let img = image_new(width, height);
        Canvas { width, height, img }
    }

    /// Writes `color` at the centered coordinate `(x, y)`; a coordinate
    /// that falls outside the canvas is silently dropped, never an
    /// error.
    pub fn put_pixel(&mut self, x: i32, y: i32, color: Color)
        requires
            old(self).wf(),
        ensures
            final(self).wf(),
            final(self).width == old(self).width,
            final(self).height == old(self).height,
            final(self).pixels() == put_pixel_spec(
                old(self).pixels(),
                old(self).width as int,
                old(self).height as int,
                x as int,
                y as int,
                color,
            ),
    {
        let tx: i64 = (self.width / 2) as i64 + x as i64;
        let ty: i64 = (self.height / 2) as i64 - y as i64;
        if tx < 0 || ty < 0 || tx >= self.width as i64 || ty >= self.height as i64 {
            return ;
        }
        proof {
            assert(old(self).pixels().dom().contains((tx as u32, ty as u32)));
        }
        image_put_pixel(&mut self.img, tx as u32, ty as u32, color);
        proof {
            assert forall|xy: (u32, u32)|
                self.pixels().dom().contains(xy) <==> (xy.0 < self.width && xy.1
                    < self.height) by {
                assert(self.pixels().dom() =~= old(self).pixels().dom().insert(
                    (tx as u32, ty as u32),
                ));
            }
        }
    }

    /// Reads the pixel at the in-range storage coordinate `(x, y)`.
    pub fn get_pixel(&self, x: u32, y: u32) -> (c: Color)
        requires
            self.wf(),
            x < self.width,
            y < self.height,
        ensures
            (c.r, c.g, c.b) == self.pixels()[(x, y)],
    {
        proof {
            assert(self.pixels().dom().contains((x, y)));
        }
        image_get_pixel(&self.img, x, y)
    }

}

} // verus!
