//! The raster canvas and triangle rasterization. A canvas is a square RGB
//! buffer, three bytes per pixel. Which pixels a triangle covers comes from
//! the outside rasterizer behind a trusted wrapper; writing color onto the
//! covered pixels — solid or alpha-blended — is verified code.

use vstd::prelude::*;
use crate::params::{MAX_IMAGE_SIZE, OPACITY_SCALE};
use crate::triangle::{Triangle, vertex_in_canvas};

verus! {

/// The square RGB raster: `size * size` pixels, three bytes per pixel in
/// row-major red, green, blue order.
#[derive(Clone, Debug, PartialEq, Eq)]
pub struct Canvas {
    size: u32,
    pixels: Vec<u8>,
}

/// An all-black byte buffer of the given pixel count times three channels.
pub open spec fn blank_bytes(size: u32) -> Seq<u8> {
    Seq::new(3 * (size as nat) * (size as nat), |i: int| 0u8)
}

impl Canvas {
    /// The side length in pixels.
    pub closed spec fn spec_size(&self) -> u32 {
        self.size
    }

    /// The raw bytes, three per pixel.
    pub closed spec fn spec_bytes(&self) -> Seq<u8> {
        self.pixels@
    }

    /// A canvas is well-formed when its buffer holds exactly three bytes per
    /// pixel of its square.
    pub open spec fn wf(&self) -> bool {
        &&& 1 <= self.spec_size() <= MAX_IMAGE_SIZE
        &&& self.spec_bytes().len() == 3 * (self.spec_size() as nat) * (self.spec_size() as nat)
    }

    /// A fresh all-black canvas.
    pub fn new(size: u32) -> (r: Canvas)
        requires
            1 <= size <= MAX_IMAGE_SIZE,
        ensures
            r.wf(),
            r.spec_size() == size,
            r.spec_bytes() == blank_bytes(size),
    {
        proof {
            assert(3 * (size as int) * (size as int) <= 3 * (MAX_IMAGE_SIZE as int) * (
            MAX_IMAGE_SIZE as int)) by (nonlinear_arith)
                requires
                    1 <= size <= MAX_IMAGE_SIZE,
            ;
        }
        let n: usize = 3 * (size as usize) * (size as usize);
        let mut pixels: Vec<u8> = Vec::new();
        let mut i: usize = 0;
        while i < n
            invariant
                i <= n,
                pixels@.len() == i,
                forall|j: int| 0 <= j < i ==> pixels@[j] == 0u8,
            decreases n - i,
        {
            pixels.push(0);
            i += 1;
        }
        let r = Canvas { size, pixels };
        proof {
            assert(r.spec_bytes() =~= blank_bytes(size));
        }
        r
    }

    /// A canvas taking ownership of an existing pixel buffer, three bytes
    /// per pixel.
    pub fn from_bytes(size: u32, pixels: Vec<u8>) -> (r: Canvas)
        requires
            1 <= size <= MAX_IMAGE_SIZE,
            pixels@.len() == 3 * (size as nat) * (size as nat),
        ensures
            r.wf(),
            r.spec_size() == size,
            r.spec_bytes() == pixels@,
    {
        Canvas { size, pixels }
    }

    /// The side length.
    pub fn size(&self) -> (r: u32)
        ensures
            r == self.spec_size(),
    {
        self.size
    }

    /// How many bytes the buffer holds.
    pub fn byte_len(&self) -> (r: usize)
        ensures
            r == self.spec_bytes().len(),
    {
        self.pixels.len()
    }

    /// One raw byte of the buffer.
    pub fn byte_at(&self, i: usize) -> (r: u8)
        requires
            i < self.spec_bytes().len(),
        ensures
            r == self.spec_bytes()[i as int],
    {
        self.pixels[i]
    }

    /// Overwrites one raw byte of the buffer.
    pub fn set_byte(&mut self, i: usize, v: u8)
        requires
            i < old(self).spec_bytes().len(),
        ensures
            final(self).spec_size() == old(self).spec_size(),
            final(self).spec_bytes() == old(self).spec_bytes().update(i as int, v),
    {
        self.pixels[i] = v;
    }

    /// An independent copy of this canvas.
    pub fn duplicate(&self) -> (r: Canvas)
        ensures
            r.spec_size() == self.spec_size(),
            r.spec_bytes() == self.spec_bytes(),
    {
        let n: usize = self.pixels.len();
        let mut pixels: Vec<u8> = Vec::new();
        let mut i: usize = 0;
        while i < n
            invariant
                i <= n,
                n == self.spec_bytes().len(),
                pixels@.len() == i,
                forall|j: int| 0 <= j < i ==> pixels@[j] == self.spec_bytes()[j],
            decreases n - i,
        {
            pixels.push(self.pixels[i]);
            i += 1;
        }
        let r = Canvas { size: self.size, pixels };
        proof {
            assert(r.spec_bytes() =~= self.spec_bytes());
        }
        r
    }
}

/// The coverage mask that the outside rasterizer yields for one triangle on
/// a black square of the given side: the bytes of a white-on-black RGB
/// image, a function of the side and the six vertex coordinates alone.
pub uninterp spec fn mask_of(
    size: u32,
    x0: i32,
    y0: i32,
    x1: i32,
    y1: i32,
    x2: i32,
    y2: i32,
) -> Seq<u8>;

/// Relies on imageproc's `drawing::draw_polygon_mut`: filling a polygon on
/// an image buffer is deterministic in the buffer size, the points and the
/// color, stays within the buffer, and panics only when the first and last
/// points coincide. The mask is drawn white on a fresh black image of the
/// same dimensions as the canvas, so a byte is non-zero exactly where the
/// rasterizer would touch the canvas.
#[verifier::external_body]
fn triangle_mask(size: u32, x0: i32, y0: i32, x1: i32, y1: i32, x2: i32, y2: i32) -> (r: Vec<u8>)
    requires
        1 <= size <= MAX_IMAGE_SIZE,
        !(x0 == x2 && y0 == y2),
        0 <= x0 < size && 0 <= y0 < size,
        0 <= x1 < size && 0 <= y1 < size,
        0 <= x2 < size && 0 <= y2 < size,
    ensures
        r@ == mask_of(size, x0, y0, x1, y1, x2, y2),
        r@.len() == 3 * (size as nat) * (size as nat),
{
    let mut img = image::RgbImage::new(size, size);
    let pts = [
        imageproc::point::Point::new(x0, y0),
        imageproc::point::Point::new(x1, y1),
        imageproc::point::Point::new(x2, y2),
    ];
    imageproc::drawing::draw_polygon_mut(&mut img, &pts, image::Rgb([255u8, 255u8, 255u8]));
    img.into_raw()
}

/// Whether the mask covers pixel `p`.
pub open spec fn mask_covers(m: Seq<u8>, p: int) -> bool {
    m[3 * p] != 0u8
}

/// One channel alpha-blended onto the canvas: the old value weighted by the
/// remaining transparency plus the fill weighted by the opacity, rounded
/// down.
pub open spec fn blend_channel(old_v: u8, fill: u8, a: u16) -> u8
    recommends
        a <= OPACITY_SCALE,
{
    (((old_v as int) * (OPACITY_SCALE - a) + (fill as int) * (a as int)) / (
    OPACITY_SCALE as int)) as u8
}

/// The channel value written at byte `i` of a covered pixel: the fill color
/// channel, blended with the old value when the triangle carries an opacity.
pub open spec fn written_byte(c: Seq<u8>, t: Triangle, i: int) -> u8 {
    let fill = if i % 3 == 0 {
        t.color.r
    } else if i % 3 == 1 {
        t.color.g
    } else {
        t.color.b
    };
    match t.opacity {
        None => fill,
        Some(a) => blend_channel(c[i], fill, a),
    }
}

/// The canvas bytes after rasterizing one triangle: covered pixels take the
/// written channel values, all others keep theirs.
pub open spec fn render_bytes(c: Seq<u8>, size: u32, t: Triangle) -> Seq<u8> {
    let m = mask_of(size, t.v0.x, t.v0.y, t.v1.x, t.v1.y, t.v2.x, t.v2.y);
    Seq::new(c.len(), |i: int| if mask_covers(m, i / 3) { written_byte(c, t, i) } else { c[i] })
}

/// The canvas bytes after drawing a triangle. A triangle whose first and
/// last vertices coincide collapses to a two-point path and is not drawn,
/// mirroring the rasterizer's refusal of a closed path.
pub open spec fn draw_spec(c: Seq<u8>, size: u32, t: Triangle) -> Seq<u8> {
    if t.v0 == t.v2 {
        c
    } else {
        render_bytes(c, size, t)
    }
}

/// Executable form of `blend_channel`.
fn blend_channel_exec(old_v: u8, fill: u8, a: u16) -> (r: u8)
    requires
        a <= OPACITY_SCALE,
    ensures
        r == blend_channel(old_v, fill, a),
{
    proof {
        assert((old_v as int) * (OPACITY_SCALE - a) + (fill as int) * (a as int) <= 255 * (
        OPACITY_SCALE as int)) by (nonlinear_arith)
            requires
                old_v <= 255,
                fill <= 255,
                0 <= a <= OPACITY_SCALE,
        ;
    }
    let num: u32 = (old_v as u32) * ((OPACITY_SCALE - a) as u32) + (fill as u32) * (a as u32);
    let q: u32 = num / (OPACITY_SCALE as u32);
    proof {
        assert(num <= 255 * (OPACITY_SCALE as int));
        assert(q <= 255) by {
            assert(num / (OPACITY_SCALE as u32) <= 255 * (OPACITY_SCALE as int) / (
            OPACITY_SCALE as int)) by (nonlinear_arith)
                requires
                    num <= 255 * (OPACITY_SCALE as int),
            ;
        }
    }
    q as u8
}

/// Draws one triangle onto the canvas in place: solid fill, or alpha-blended
/// when the triangle carries an opacity.
pub fn draw_triangle_onto_canvas(canvas: &mut Canvas, t: &Triangle)
    requires
        old(canvas).wf(),
        vertex_in_canvas(t.v0, old(canvas).spec_size()),
        vertex_in_canvas(t.v1, old(canvas).spec_size()),
        vertex_in_canvas(t.v2, old(canvas).spec_size()),
        t.opacity matches Some(a) ==> a <= OPACITY_SCALE,
    ensures
        final(canvas).wf(),
        final(canvas).spec_size() == old(canvas).spec_size(),
        final(canvas).spec_bytes() == draw_spec(
            old(canvas).spec_bytes(),
            old(canvas).spec_size(),
            *t,
        ),
{
    if t.v0.x == t.v2.x && t.v0.y == t.v2.y {
        // A closed two-point path: nothing to draw.
        proof {
            assert(t.v0 == t.v2);
        }
        return ;
    }
    let size = canvas.size();
    let mask = triangle_mask(size, t.v0.x, t.v0.y, t.v1.x, t.v1.y, t.v2.x, t.v2.y);
    let ghost c0 = canvas.spec_bytes();
    let ghost target = render_bytes(c0, size, *t);
    let n: usize = canvas.byte_len();
    proof {
        assert(!(t.v0 == t.v2));
        assert(target.len() == n);
    }
    let mut p: usize = 0;
    proof {
        assert((size as int) * (size as int) <= (MAX_IMAGE_SIZE as int) * (MAX_IMAGE_SIZE as int))
            by (nonlinear_arith)
            requires
                1 <= size <= MAX_IMAGE_SIZE,
        ;
    }
    let pixel_count: usize = (size as usize) * (size as usize);
    proof {
        assert(3 * (size as nat) * (size as nat) == 3 * ((size as nat) * (size as nat)))
            by (nonlinear_arith);
    }
    while p < pixel_count
        invariant
            p <= pixel_count,
            n == 3 * pixel_count,
            pixel_count == (size as nat) * (size as nat),
            canvas.wf(),
            canvas.spec_size() == size,
            mask@ == mask_of(size, t.v0.x, t.v0.y, t.v1.x, t.v1.y, t.v2.x, t.v2.y),
            mask@.len() == n,
            canvas.spec_bytes().len() == n,
            target.len() == n,
            target == render_bytes(c0, size, *t),
            t.opacity matches Some(a) ==> a <= OPACITY_SCALE,
            forall|i: int| 0 <= i < 3 * p ==> canvas.spec_bytes()[i] == target[i],
            forall|i: int| 3 * p <= i < n ==> canvas.spec_bytes()[i] == c0[i],
        decreases pixel_count - p,
    {
        let base: usize = 3 * p;
        if mask[base] != 0 {
            let mut ch: usize = 0;
            while ch < 3
                invariant
                    ch <= 3,
                    p < pixel_count,
                    base == 3 * p,
                    n == 3 * pixel_count,
                    canvas.wf(),
                    canvas.spec_size() == size,
                    canvas.spec_bytes().len() == n,
                    target.len() == n,
                    target == render_bytes(c0, size, *t),
                    mask@ == mask_of(size, t.v0.x, t.v0.y, t.v1.x, t.v1.y, t.v2.x, t.v2.y),
                    mask_covers(mask@, p as int),
                    t.opacity matches Some(a) ==> a <= OPACITY_SCALE,
                    forall|i: int| 0 <= i < base + ch ==> canvas.spec_bytes()[i] == target[i],
                    forall|i: int| base + ch <= i < n ==> canvas.spec_bytes()[i] == c0[i],
                decreases 3 - ch,
            {
                let i: usize = base + ch;
                proof {
                    assert(i < n) by (nonlinear_arith)
                        requires
                            i == 3 * p + ch,
                            ch < 3,
                            p < pixel_count,
                            n == 3 * pixel_count,
                    ;
                    assert((i as int) / 3 == p && (i as int) % 3 == ch) by (nonlinear_arith)
                        requires
                            i == 3 * p + ch,
                            0 <= ch < 3,
                            0 <= p,
                    ;
                }
                let fill: u8 = if ch == 0 {
                    t.color.r
                } else if ch == 1 {
                    t.color.g
                } else {
                    t.color.b
                };
                let v: u8 = match t.opacity {
                    None => fill,
                    Some(a) => blend_channel_exec(canvas.byte_at(i), fill, a),
                };
                proof {
                    assert(target[i as int] == written_byte(c0, *t, i as int));
                    assert(canvas.spec_bytes()[i as int] == c0[i as int]);
                    assert(v == written_byte(c0, *t, i as int));
                }
                canvas.set_byte(i, v);
                ch += 1;
            }
        } else {
            proof {
                assert(!mask_covers(mask@, p as int));
                assert forall|i: int| base <= i < base + 3 implies canvas.spec_bytes()[i]
                    == target[i] by {
                    assert(i / 3 == p) by (nonlinear_arith)
                        requires
                            3 * p <= i < 3 * p + 3,
                            0 <= p,
                    ;
                    assert(target[i] == c0[i]);
                }
            }
            // nothing to write for an uncovered pixel
            proof {
                assert forall|i: int| 0 <= i < 3 * (p + 1) implies canvas.spec_bytes()[i]
                    == target[i] by {
                    if i < 3 * p {
                    } else {
                        assert(i / 3 == p) by (nonlinear_arith)
                            requires
                                3 * p <= i < 3 * p + 3,
                                0 <= p,
                        ;
                        assert(target[i] == c0[i]);
                    }
                }
            }
        }
        p += 1;
    }
    proof {
        assert(canvas.spec_bytes() =~= target);
    }
}

} // verus!
