//! A validated template bitmap: its dimensions, its RGBA pixels in row-major
//! order, and a per-color histogram. Every pixel is either fully transparent
//! (alpha 0, meaning "any color is fine here") or an exact palette color;
//! a single off-palette pixel makes the whole image invalid, reported with
//! its position and raw bytes. The histogram counts the opaque pixels of
//! each palette color and always sums to the opaque pixel count.

use vstd::arithmetic::div_mod::lemma_fundamental_div_mod;
use vstd::arithmetic::div_mod::lemma_mod_division_less_than_divisor;
use vstd::arithmetic::div_mod::lemma_multiply_divide_lt;
use vstd::prelude::*;

use crate::color::Color;
use crate::color::Rgba;
use crate::color::spec_decode;
use crate::color::spec_index;

verus! {

/// Declares the error type of the `image` crate so that decode failures can
/// be handed to callers unchanged.
#[verifier::external_type_specification]
#[verifier::external_body]
pub struct ExImageError(image::ImageError);

/// Whether a pixel is acceptable in a template: fully transparent, or an
/// exact palette color.
pub open spec fn pixel_ok(p: Rgba) -> bool {
    p.a == 0 || spec_decode(p) is Some
}

/// Whether every pixel of the sequence is acceptable.
pub open spec fn all_pixels_ok(s: Seq<Rgba>) -> bool {
    forall|k: int| 0 <= k < s.len() ==> pixel_ok(#[trigger] s[k])
}

/// How many pixels of the sequence are not fully transparent.
pub open spec fn opaque_count(s: Seq<Rgba>) -> int
    decreases s.len(),
{
    if s.len() == 0 {
        0
    } else {
        opaque_count(s.drop_last()) + if s.last().a != 0 {
            1int
        } else {
            0int
        }
    }
}

/// How many opaque pixels of the sequence decode to the palette color with
/// the given index.
pub open spec fn color_count(s: Seq<Rgba>, idx: int) -> int
    decreases s.len(),
{
    if s.len() == 0 {
        0
    } else {
        color_count(s.drop_last(), idx) + if s.last().a != 0 && (spec_decode(s.last())
            matches Some(c) && spec_index(c) == idx) {
            1int
        } else {
            0int
        }
    }
}

/// The sum of the color counts for the palette indices below `n`.
pub open spec fn sum_color_counts(s: Seq<Rgba>, n: int) -> int
    decreases n,
{
    if n <= 0 {
        0
    } else {
        sum_color_counts(s, n - 1) + color_count(s, n - 1)
    }
}

/// Why a template image was rejected.
#[derive(Debug)]
pub enum ImageDataError {
    /// The PNG byte stream did not decode.
    ImageError(image::ImageError),
    /// The decoded image has width 0.
    InvalidWidth,
    /// The decoded image has height 0.
    InvalidHeight,
    /// The first pixel, in row-major order, that is neither fully
    /// transparent nor an exact palette color, with its raw bytes.
    InvalidColor { x: u32, y: u32, rgba: Rgba },
    /// A tile needed to stitch a mosaic was not provided.
    MissingTile { tile_x: u16, tile_y: u16 },
}

/// A validated template bitmap with its per-color histogram.
#[derive(Debug)]
pub struct ImageData {
    /// Width in pixels, always positive.
    pub width: u32,
    /// Height in pixels, always positive.
    pub height: u32,
    /// The pixels in row-major order; exactly `width * height` of them.
    pub pixels: Vec<Rgba>,
    /// One count per palette index: how many opaque pixels have that color.
    pub color_counts: Vec<u64>,
}

impl ImageData {
    /// The internal invariant every constructor establishes: positive
    /// dimensions, a full pixel buffer of palette-valid pixels, and a
    /// correct 64-entry histogram.
    pub open spec fn wf(self) -> bool {
        &&& self.width > 0
        &&& self.height > 0
        &&& self.pixels@.len() == self.width * self.height
        &&& all_pixels_ok(self.pixels@)
        &&& self.color_counts@.len() == 64
        &&& forall|idx: int|
            0 <= idx < 64 ==> self.color_counts@[idx] == color_count(self.pixels@, idx)
    }

    /// Validates a raw RGBA bitmap as a template: rejects a zero width,
    /// then a zero height, then scans the pixels once in row-major order.
    /// The first pixel that is neither fully transparent nor an exact
    /// palette color fails the whole load, reported with its position and
    /// raw bytes; otherwise the histogram is built during the same scan.
    pub fn new(width: u32, height: u32, pixels: Vec<Rgba>) -> (r: Result<ImageData, ImageDataError>)
        requires
            pixels@.len() == width * height,
        ensures
            r is Ok <==> width > 0 && height > 0 && all_pixels_ok(pixels@),
            r matches Ok(img) ==> img.wf() && img.width == width && img.height == height
                && img.pixels@ == pixels@,
            width == 0 ==> (r matches Err(e) && e is InvalidWidth),
            width > 0 && height == 0 ==> (r matches Err(e) && e is InvalidHeight),
            width > 0 && height > 0 && !all_pixels_ok(pixels@) ==> (r matches Err(e)
                && e matches ImageDataError::InvalidColor { x, y, rgba } && {
                let k = y * width + x;
                &&& x < width
                &&& 0 <= k < pixels@.len()
                &&& pixels@[k as int] == rgba
                &&& !pixel_ok(rgba)
                &&& forall|j: int| 0 <= j < k ==> pixel_ok(#[trigger] pixels@[j])
            }),
    {
        if width == 0 {
            return Err(ImageDataError::InvalidWidth);
        }
        if height == 0 {
            return Err(ImageDataError::InvalidHeight);
        }
        let mut counts: Vec<u64> = Vec::new();
        let mut ci: usize = 0;
        while ci < 64
            invariant
                0 <= ci <= 64,
                counts@.len() == ci,
                forall|idx: int| 0 <= idx < ci ==> counts@[idx] == 0,
            decreases 64 - ci,
        {
            counts.push(0);
            ci += 1;
        }
        proof {
            assert(pixels@.take(0) =~= Seq::<Rgba>::empty());
        }
        let n: usize = pixels.len();
        let mut k: usize = 0;
        while k < n
            invariant
                0 <= k <= n == pixels@.len(),
                pixels@.len() == width * height,
                width > 0,
                height > 0,
                counts@.len() == 64,
                forall|j: int| 0 <= j < k ==> pixel_ok(#[trigger] pixels@[j]),
                forall|idx: int|
                    0 <= idx < 64 ==> counts@[idx] == color_count(pixels@.take(k as int), idx),
            decreases n - k,
        {
            let p = pixels[k];
            proof {
                assert(pixels@.take(k + 1).drop_last() =~= pixels@.take(k as int));
                assert(pixels@.take(k + 1).last() == pixels@[k as int]);
            }
            if p.a == 0 {
                // transparent: the template does not care about this cell
            } else {
                match Color::decode(p) {
                    Err(_) => {
                        let x: u32 = (k % (width as usize)) as u32;
                        let y: u32 = (k / (width as usize)) as u32;
                        proof {
                            lemma_fundamental_div_mod(k as int, width as int);
                            lemma_mod_division_less_than_divisor(k as int, width as int);
                            lemma_multiply_divide_lt(k as int, width as int, height as int);
                            assert((k as int) / (width as int) * (width as int) == (width as int) * (
                            (k as int) / (width as int))) by (nonlinear_arith);
                        }
                        return Err(ImageDataError::InvalidColor { x, y, rgba: p });
                    },
                    Ok(c) => {
                        let idx = c.palette_index();
                        proof {
                            lemma_color_count_bound(pixels@.take(k as int), idx as int);
                        }
                        let cur = counts[idx as usize];
                        counts[idx as usize] = cur + 1;
                    },
                }
            }
            k += 1;
        }
        proof {
            assert(pixels@.take(n as int) =~= pixels@);
        }
        Ok(ImageData { width, height, pixels, color_counts: counts })
    }
}

/// A color's count never exceeds the number of pixels.
proof fn lemma_color_count_bound(s: Seq<Rgba>, idx: int)
    ensures
        0 <= color_count(s, idx) <= s.len(),
    decreases s.len(),
{
    if s.len() > 0 {
        lemma_color_count_bound(s.drop_last(), idx);
    }
}

/// The opaque pixel count never exceeds the number of pixels.
proof fn lemma_opaque_count_bound(s: Seq<Rgba>)
    ensures
        0 <= opaque_count(s) <= s.len(),
    decreases s.len(),
{
    if s.len() > 0 {
        lemma_opaque_count_bound(s.drop_last());
    }
}

proof fn lemma_sum_cc_snoc(s: Seq<Rgba>, n: int)
    requires
        s.len() > 0,
        0 <= n,
    ensures
        sum_color_counts(s, n) == sum_color_counts(s.drop_last(), n) + if s.last().a != 0 && (
        spec_decode(s.last()) matches Some(c) && 0 <= spec_index(c) < n) {
            1int
        } else {
            0int
        },
    decreases n,
{
    if n > 0 {
        lemma_sum_cc_snoc(s, n - 1);
    }
}

proof fn lemma_sum_cc_nonneg(s: Seq<Rgba>, n: int)
    ensures
        sum_color_counts(s, n) >= 0,
    decreases n,
{
    if n > 0 {
        lemma_color_count_bound(s, n - 1);
        lemma_sum_cc_nonneg(s, n - 1);
    }
}

proof fn lemma_sum_cc_le(s: Seq<Rgba>, n: int)
    requires
        0 <= n <= 64,
    ensures
        sum_color_counts(s, n) <= sum_color_counts(s, 64),
    decreases 64 - n,
{
    if n < 64 {
        lemma_color_count_bound(s, n);
        lemma_sum_cc_le(s, n + 1);
    }
}

/// The histogram partitions the opaque pixels: when every pixel is
/// palette-valid, the color counts over the whole palette sum to the
/// opaque pixel count.
pub proof fn lemma_histogram_partition(s: Seq<Rgba>)
    requires
        all_pixels_ok(s),
    ensures
        sum_color_counts(s, 64) == opaque_count(s),
    decreases s.len(),
{
    if s.len() == 0 {
        lemma_sum_cc_empty(s, 64);
    } else {
        assert(all_pixels_ok(s.drop_last())) by {
            assert(forall|k: int|
                0 <= k < s.drop_last().len() ==> #[trigger] s.drop_last()[k] == s[k]);
        }
        lemma_histogram_partition(s.drop_last());
        lemma_sum_cc_snoc(s, 64);
        if s.last().a != 0 {
            assert(pixel_ok(s[s.len() - 1]));
            assert(spec_decode(s.last()) is Some);
            let c = spec_decode(s.last())->Some_0;
            crate::color::lemma_index_range(c);
            assert(sum_color_counts(s, 64) == sum_color_counts(s.drop_last(), 64) + 1);
            assert(opaque_count(s) == opaque_count(s.drop_last()) + 1);
        } else {
            assert(sum_color_counts(s, 64) == sum_color_counts(s.drop_last(), 64));
            assert(opaque_count(s) == opaque_count(s.drop_last()));
        }
    }
}

proof fn lemma_sum_cc_empty(s: Seq<Rgba>, n: int)
    requires
        s.len() == 0,
        n >= 0,
    ensures
        sum_color_counts(s, n) == 0,
    decreases n,
{
    if n > 0 {
        lemma_sum_cc_empty(s, n - 1);
    }
}

impl ImageData {
    /// The width in pixels.
    pub fn get_width(&self) -> (r: u32)
        ensures
            r == self.width,
    {
        self.width
    }

    /// The height in pixels.
    pub fn get_height(&self) -> (r: u32)
        ensures
            r == self.height,
    {
        self.height
    }

    /// The pixel buffer, row-major.
    pub fn get_pixels(&self) -> (r: &Vec<Rgba>)
        ensures
            r@ == self.pixels@,
    {
        &self.pixels
    }

    /// The histogram: one count per palette index.
    pub fn get_color_counts(&self) -> (r: &Vec<u64>)
        ensures
            r@ == self.color_counts@,
    {
        &self.color_counts
    }

    /// The pixel at a position.
    pub fn get_pixel(&self, x: u32, y: u32) -> (r: Rgba)
        requires
            self.wf(),
            x < self.width,
            y < self.height,
        ensures
            r == self.pixels@[y * self.width + x],
    {
        proof {
            assert((y as int) * (self.width as int) + (x as int) < (self.width as int) * (
            self.height as int)) by (nonlinear_arith)
                requires
                    (x as int) < (self.width as int),
                    (y as int) < (self.height as int),
                    0 <= x as int,
                    0 <= y as int,
            ;
        }
        let n: usize = self.pixels.len();
        let idx: u64 = (y as u64) * (self.width as u64) + (x as u64);
        self.pixels[idx as usize]
    }

    /// How many opaque pixels have the given palette color.
    pub fn get_color_count(&self, c: Color) -> (r: u64)
        requires
            self.wf(),
        ensures
            r == color_count(self.pixels@, spec_index(c)),
    {
        proof {
            crate::color::lemma_index_range(c);
        }
        self.color_counts[c.palette_index() as usize]
    }

    /// The total number of opaque pixels: the sum of the histogram.
    pub fn get_total_px(&self) -> (r: u64)
        requires
            self.wf(),
        ensures
            r == opaque_count(self.pixels@),
    {
        proof {
            lemma_histogram_partition(self.pixels@);
            lemma_opaque_count_bound(self.pixels@);
            assert((self.width as int) * (self.height as int) < 0xffff_ffff_ffff_ffff)
                by (nonlinear_arith)
                requires
                    self.width as int <= 0xffff_ffff,
                    self.height as int <= 0xffff_ffff,
            ;
        }
        let mut acc: u64 = 0;
        let mut i: usize = 0;
        while i < 64
            invariant
                0 <= i <= 64,
                self.color_counts@.len() == 64,
                forall|idx: int|
                    0 <= idx < 64 ==> self.color_counts@[idx] == color_count(self.pixels@, idx),
                acc == sum_color_counts(self.pixels@, i as int),
                sum_color_counts(self.pixels@, 64) == opaque_count(self.pixels@),
                opaque_count(self.pixels@) <= self.pixels@.len(),
                self.pixels@.len() < 0xffff_ffff_ffff_ffff,
            decreases 64 - i,
        {
            proof {
                lemma_sum_cc_nonneg(self.pixels@, i as int);
                lemma_color_count_bound(self.pixels@, i as int);
                lemma_sum_cc_le(self.pixels@, i + 1);
            }
            acc = acc + self.color_counts[i];
            i += 1;
        }
        acc
    }

    /// The palette colors that occur in the image, in palette order.
    pub fn get_colors(&self) -> (r: Vec<Color>)
        requires
            self.wf(),
        ensures
            forall|i: int, j: int|
                0 <= i < j < r@.len() ==> spec_index(#[trigger] r@[i]) < spec_index(
                    #[trigger] r@[j],
                ),
            forall|i: int|
                0 <= i < r@.len() ==> color_count(self.pixels@, spec_index(#[trigger] r@[i])) > 0,
            forall|c: Color|
                color_count(self.pixels@, spec_index(c)) > 0 ==> exists|i: int|
                    0 <= i < r@.len() && #[trigger] r@[i] == c,
    {
        let mut out: Vec<Color> = Vec::new();
        let mut i: usize = 0;
        while i < 64
            invariant
                0 <= i <= 64,
                self.color_counts@.len() == 64,
                forall|idx: int|
                    0 <= idx < 64 ==> self.color_counts@[idx] == color_count(self.pixels@, idx),
                forall|a: int, b: int|
                    0 <= a < b < out@.len() ==> spec_index(#[trigger] out@[a]) < spec_index(
                        #[trigger] out@[b],
                    ),
                forall|a: int|
                    0 <= a < out@.len() ==> spec_index(#[trigger] out@[a]) < i && color_count(
                        self.pixels@,
                        spec_index(out@[a]),
                    ) > 0,
                forall|c: Color|
                    spec_index(c) < i && color_count(self.pixels@, spec_index(c)) > 0 ==> exists|
                        a: int,
                    | 0 <= a < out@.len() && #[trigger] out@[a] == c,
            decreases 64 - i,
        {
            if self.color_counts[i] > 0 {
                let c = match Color::decode_index(i as u8) {
                    Ok(c) => c,
                    Err(_) => {
                        proof {
                            assert(false);
                        }
                        Color::Black
                    },
                };
                let ghost out0: Seq<Color> = out@;
                out.push(c);
                proof {
                    assert forall|cc: Color|
                        spec_index(cc) < i + 1 && color_count(self.pixels@, spec_index(cc))
                            > 0 implies exists|a: int|
                        0 <= a < out@.len() && #[trigger] out@[a] == cc by {
                        if spec_index(cc) == i as int {
                            crate::color::lemma_palette_injective(cc, c);
                            assert(out@[out@.len() - 1] == cc);
                        } else {
                            assert(spec_index(cc) < i as int);
                            let a = choose|a: int| 0 <= a < out0.len() && #[trigger] out0[a] == cc;
                            assert(out@[a] == cc);
                        }
                    }
                }
            } else {
                proof {
                    assert(forall|cc: Color|
                        spec_index(cc) < i + 1 && color_count(self.pixels@, spec_index(cc)) > 0
                            ==> spec_index(cc) < i);
                }
            }
            i += 1;
        }
        proof {
            assert(forall|c: Color| spec_index(c) < 64) by {
                assert forall|c: Color| spec_index(c) < 64 by {
                    crate::color::lemma_index_range(c);
                }
            }
        }
        out
    }
}

/// What decoding a PNG byte stream yields — the dimensions and the raw
/// RGBA bytes — as a function of the input bytes alone; nothing when the
/// stream is not a valid PNG.
pub uninterp spec fn png_decode_of(bytes: Seq<u8>) -> Option<(u32, u32, Seq<u8>)>;

/// Relies on image::load_from_memory_with_format with the PNG format and
/// DynamicImage::to_rgba8: decoding is deterministic in the bytes, and the
/// returned buffer holds exactly width * height 4-byte RGBA pixels.
#[verifier::external_body]
pub(crate) fn decode_png_rgba(bytes: &[u8]) -> (r: Result<(u32, u32, Vec<u8>), image::ImageError>)
    ensures
        r matches Ok(d) ==> png_decode_of(bytes@) == Some((d.0, d.1, d.2@)) && d.2@.len() == 4 * (
        d.0 as int) * (d.1 as int),
        r is Err ==> png_decode_of(bytes@) is None,
{
    match image::load_from_memory_with_format(bytes, image::ImageFormat::Png) {
        Err(e) => Err(e),
        Ok(img) => {
            let buf = img.to_rgba8();
            let w = buf.width();
            let h = buf.height();
            Ok((w, h, buf.into_raw()))
        },
    }
}

/// The pixels a raw RGBA byte buffer holds: every four bytes, in order.
pub open spec fn group_rgba(raw: Seq<u8>) -> Seq<Rgba> {
    Seq::new(
        (raw.len() / 4) as nat,
        |i: int|
            Rgba { r: raw[4 * i], g: raw[4 * i + 1], b: raw[4 * i + 2], a: raw[4 * i + 3] },
    )
}

/// Regroups a raw byte buffer of whole RGBA quadruples into pixels.
pub(crate) fn rgba_from_raw(raw: &Vec<u8>, count: usize) -> (r: Vec<Rgba>)
    requires
        raw@.len() == 4 * count,
    ensures
        r@ == group_rgba(raw@),
{
    let len: usize = raw.len();
    let mut out: Vec<Rgba> = Vec::new();
    let mut i: usize = 0;
    while i < count
        invariant
            0 <= i <= count,
            raw@.len() == 4 * count,
            len == raw@.len(),
            out@.len() == i,
            forall|j: int| 0 <= j < i ==> #[trigger] out@[j] == group_rgba(raw@)[j],
        decreases count - i,
    {
        let px = Rgba {
            r: raw[4 * i],
            g: raw[4 * i + 1],
            b: raw[4 * i + 2],
            a: raw[4 * i + 3],
        };
        out.push(px);
        i += 1;
    }
    proof {
        assert(out@ =~= group_rgba(raw@));
    }
    out
}

impl ImageData {
    /// Decodes a PNG byte stream and validates it as a template image:
    /// decode failures are handed back unchanged, and the decoded bitmap
    /// then goes through the same validation and histogram scan as `new`.
    pub fn from_png_bytes(bytes: &[u8]) -> (r: Result<ImageData, ImageDataError>)
        ensures
            png_decode_of(bytes@) is None ==> (r matches Err(e) && e is ImageError),
            png_decode_of(bytes@) matches Some(d) ==> {
                let w = d.0;
                let h = d.1;
                let pix = group_rgba(d.2);
                &&& (r is Ok <==> w > 0 && h > 0 && all_pixels_ok(pix))
                &&& (r matches Ok(img) ==> img.wf() && img.width == w && img.height == h
                    && img.pixels@ == pix)
                &&& (w == 0 ==> (r matches Err(e) && e is InvalidWidth))
                &&& (w > 0 && h == 0 ==> (r matches Err(e) && e is InvalidHeight))
                &&& (w > 0 && h > 0 && !all_pixels_ok(pix) ==> (r matches Err(e)
                    && e matches ImageDataError::InvalidColor { x, y, rgba } && {
                    let k = y * w + x;
                    &&& x < w
                    &&& 0 <= k < pix.len()
                    &&& pix[k as int] == rgba
                    &&& !pixel_ok(rgba)
                    &&& forall|j: int| 0 <= j < k ==> pixel_ok(#[trigger] pix[j])
                }))
            },
    {
        let (w, h, raw) = match decode_png_rgba(bytes) {
            Err(e) => {
                return Err(ImageDataError::ImageError(e));
            },
            Ok(d) => d,
        };
        proof {
            assert((4 * ((w as int) * (h as int))) / 4 == (w as int) * (h as int));
            assert(4 * (w as int) * (h as int) == 4 * ((w as int) * (h as int)))
                by (nonlinear_arith);
        }
        let count: usize = raw.len() / 4;
        let pixels = rgba_from_raw(&raw, count);
        ImageData::new(w, h, pixels)
    }
}

/// An image whose every pixel is fully transparent has no opaque pixels
/// and an all-zero histogram.
pub proof fn lemma_transparent_image_empty(s: Seq<Rgba>)
    requires
        forall|k: int| 0 <= k < s.len() ==> (#[trigger] s[k]).a == 0,
    ensures
        opaque_count(s) == 0,
        forall|idx: int| color_count(s, idx) == 0,
    decreases s.len(),
{
    if s.len() > 0 {
        assert(forall|k: int|
            0 <= k < s.drop_last().len() ==> (#[trigger] s.drop_last()[k]).a == 0);
        lemma_transparent_image_empty(s.drop_last());
        assert(s.last().a == 0);
        assert forall|idx: int| color_count(s, idx) == 0 by {
            assert(color_count(s.drop_last(), idx) == 0);
        }
    } else {
        assert forall|idx: int| color_count(s, idx) == 0 by {
            assert(s.len() == 0);
        }
    }
}

} // verus!
