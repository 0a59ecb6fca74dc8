//! Pixel buffers and the blackout threshold transform.
//!
//! A raster is a width x height grid of pixels with three 8-bit channels.
//! The threshold transform keeps a pixel unchanged when it is exactly pure
//! white (all three channels 255) and forces it to pure black (0, 0, 0)
//! otherwise. The comparison is exact equality on purpose: near-white pixels
//! from anti-aliased rendering are classified as black.

use vstd::prelude::*;

verus! {

/// The fixed target width, in pixels, at which every page is rasterized.
pub const TARGET_RASTER_WIDTH: u32 = 2480;

/// The fixed maximum height, in pixels, of a rasterized page (an A4 page at
/// roughly 300 dpi); landscape pages are rotated a quarter turn before
/// rasterization so that output is always portrait.
pub const MAX_RASTER_HEIGHT: u32 = 3508;

/// One pixel: red, green, blue, 8 bits per channel.
#[derive(Clone, Copy, PartialEq, Eq, Structural, Debug)]
pub struct Pixel {
    pub r: u8,
    pub g: u8,
    pub b: u8,
}

/// A pixel is pure white exactly when all three channels are 255.
pub open spec fn is_white(p: Pixel) -> bool {
    p.r == 255 && p.g == 255 && p.b == 255
}

/// The threshold transform on one pixel: white stays itself, everything else
/// becomes pure black.
pub open spec fn threshold_pixel(p: Pixel) -> Pixel {
    if is_white(p) {
        p
    } else {
        Pixel { r: 0, g: 0, b: 0 }
    }
}

/// The threshold transform on a sequence of pixels, applied pointwise.
pub open spec fn threshold_pixels(s: Seq<Pixel>) -> Seq<Pixel> {
    Seq::new(s.len(), |i: int| threshold_pixel(s[i]))
}

/// An in-memory pixel buffer for one rasterized page.
pub struct Raster {
    pub width: u32,
    pub height: u32,
    pub pixels: Vec<Pixel>,
}

/// The mathematical value of a raster: its dimensions and its pixels.
pub struct RasterView {
    pub width: nat,
    pub height: nat,
    pub pixels: Seq<Pixel>,
}

impl View for Raster {
    type V = RasterView;

    open spec fn view(&self) -> RasterView {
        RasterView { width: self.width as nat, height: self.height as nat, pixels: self.pixels@ }
    }
}

impl DeepView for Raster {
    type V = RasterView;

    open spec fn deep_view(&self) -> RasterView {
        self.view()
    }
}

/// A raster view is well formed when it holds one pixel per grid cell.
pub open spec fn raster_wf(v: RasterView) -> bool {
    v.pixels.len() == v.width * v.height
}

/// The threshold transform on a whole raster: same dimensions, every pixel
/// thresholded.
pub open spec fn spec_threshold(v: RasterView) -> RasterView {
    RasterView { width: v.width, height: v.height, pixels: threshold_pixels(v.pixels) }
}

impl Raster {
    pub open spec fn wf(&self) -> bool {
        raster_wf(self@)
    }

    /// Builds a raster after checking that the pixel count matches the
    /// dimensions; returns `None` exactly when it does not.
    pub fn new(width: u32, height: u32, pixels: Vec<Pixel>) -> (r: Option<Raster>)
        ensures
            match r {
                Some(rr) => rr@ == (RasterView {
                    width: width as nat,
                    height: height as nat,
                    pixels: pixels@,
                }) && rr.wf(),
                None => pixels@.len() != width as nat * height as nat,
            },
    {
        let w = width as u64;
        let h = height as u64;
        proof {
            assert(w * h <= 0xffff_ffff * 0xffff_ffff) by (nonlinear_arith)
                requires
                    w <= 0xffff_ffffu64,
                    h <= 0xffff_ffffu64,
            ;
        }
        let cells: u64 = w * h;
        if pixels.len() as u64 == cells {
            Some(Raster { width, height, pixels })
        } else {
            None
        }
    }
}

/// Thresholds every pixel of a raster: a pure-white pixel is kept unchanged,
/// any other pixel is replaced by pure black. The result has identical
/// dimensions.
pub fn threshold(img: &Raster) -> (out: Raster)
    ensures
        out@ == spec_threshold(img@),
        img.wf() ==> out.wf(),
{
    let n = img.pixels.len();
    let mut pixels: Vec<Pixel> = Vec::new();
    let mut i: usize = 0;
    while i < n
        invariant
            n == img.pixels@.len(),
            i <= n,
            pixels@.len() == i as nat,
            forall|k: int| 0 <= k < i ==> pixels@[k] == threshold_pixel(img.pixels@[k]),
        decreases n - i,
    {
        let p = img.pixels[i];
        if p.r == 255 && p.g == 255 && p.b == 255 {
            pixels.push(p);
        } else {
            pixels.push(Pixel { r: 0, g: 0, b: 0 });
        }
        i += 1;
    }
    proof {
        assert(pixels@ =~= threshold_pixels(img.pixels@));
    }
    Raster { width: img.width, height: img.height, pixels }
}

/// The transform acts pixel by pixel with no tolerance band: a pixel equal to
/// pure white is kept exactly as it was, every other pixel becomes exactly
/// pure black.
pub proof fn lemma_threshold_pointwise(v: RasterView, i: int)
    requires
        0 <= i < v.pixels.len(),
    ensures
        is_white(v.pixels[i]) ==> spec_threshold(v).pixels[i] == v.pixels[i],
        !is_white(v.pixels[i]) ==> spec_threshold(v).pixels[i] == (Pixel { r: 0, g: 0, b: 0 }),
{
}

/// Thresholding is idempotent: applying the transform to an already
/// thresholded raster changes nothing.
pub proof fn lemma_threshold_idempotent(v: RasterView)
    ensures
        spec_threshold(spec_threshold(v)) == spec_threshold(v),
{
    assert(threshold_pixels(threshold_pixels(v.pixels)) =~= threshold_pixels(v.pixels));
}

/// Thresholding is deterministic: equal rasters threshold to equal rasters,
/// so re-running the transform on the same rendered input reproduces the same
/// page content.
pub proof fn lemma_threshold_deterministic(a: RasterView, b: RasterView)
    requires
        a == b,
    ensures
        spec_threshold(a) == spec_threshold(b),
{
}

/// Regroups a flat channel buffer (as a rendering collaborator hands it out,
/// row-major, three bytes per pixel) into pixels; returns `None` exactly when
/// the byte count is not a multiple of three.
pub fn pixels_from_bytes(bytes: &Vec<u8>) -> (r: Option<Vec<Pixel>>)
    ensures
        match r {
            Some(ps) => bytes@.len() % 3 == 0 && ps@.len() * 3 == bytes@.len() && forall|i: int|
                0 <= i < ps@.len() ==> ps@[i] == (Pixel {
                    r: bytes@[3 * i],
                    g: bytes@[3 * i + 1],
                    b: bytes@[3 * i + 2],
                }),
            None => bytes@.len() % 3 != 0,
        },
{
    let n = bytes.len();
    if n % 3 != 0 {
        return None;
    }
    let count = n / 3;
    let mut ps: Vec<Pixel> = Vec::new();
    let mut i: usize = 0;
    while i < count
        invariant
            n == bytes@.len(),
            n % 3 == 0,
            count == n / 3,
            3 * count == n,
            i <= count,
            ps@.len() == i as nat,
            forall|k: int| 0 <= k < i ==> ps@[k] == (Pixel {
                r: bytes@[3 * k],
                g: bytes@[3 * k + 1],
                b: bytes@[3 * k + 2],
            }),
        decreases count - i,
    {
        let p = Pixel { r: bytes[3 * i], g: bytes[3 * i + 1], b: bytes[3 * i + 2] };
        ps.push(p);
        i += 1;
    }
    Some(ps)
}

/// Flattens pixels back into a raw channel buffer, three bytes per pixel, in
/// pixel order.
pub fn bytes_from_pixels(pixels: &Vec<Pixel>) -> (r: Vec<u8>)
    requires
        pixels@.len() * 3 <= usize::MAX,
    ensures
        r@.len() == 3 * pixels@.len(),
        forall|i: int| 0 <= i < pixels@.len() ==> r@[3 * i] == pixels@[i].r && r@[3 * i + 1]
            == pixels@[i].g && r@[3 * i + 2] == pixels@[i].b,
{
    let n = pixels.len();
    let mut out: Vec<u8> = Vec::new();
    let mut i: usize = 0;
    while i < n
        invariant
            n == pixels@.len(),
            n * 3 <= usize::MAX,
            i <= n,
            out@.len() == 3 * i as nat,
            forall|k: int| 0 <= k < i ==> out@[3 * k] == pixels@[k].r && out@[3 * k + 1]
                == pixels@[k].g && out@[3 * k + 2] == pixels@[k].b,
        decreases n - i,
    {
        let p = pixels[i];
        out.push(p.r);
        out.push(p.g);
        out.push(p.b);
        i += 1;
    }
    out
}

} // verus!
