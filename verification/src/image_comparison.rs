//! The pixel diff engine: compares a validated template against an image of
//! the live canvas region with the same dimensions, in one synchronized
//! row-major scan. It yields the differing coordinates in scan order, a
//! two-color highlight bitmap, and a histogram of how many pixels of each
//! template color are still outstanding.

use vstd::arithmetic::div_mod::lemma_fundamental_div_mod;
use vstd::arithmetic::div_mod::lemma_mod_division_less_than_divisor;
use vstd::arithmetic::div_mod::lemma_multiply_divide_lt;
use vstd::prelude::*;

use crate::color::Rgba;
use crate::color::spec_decode;
use crate::color::spec_index;
use crate::image_data::ImageData;
use crate::image_data::all_pixels_ok;
use crate::image_data::pixel_ok;

verus! {

/// The highlight color for a differing cell.
pub open spec fn spec_diff_mark() -> Rgba {
    Rgba { r: 255, g: 0, b: 255, a: 255 }
}

/// The highlight color for a matching cell.
pub open spec fn spec_same_mark() -> Rgba {
    Rgba { r: 0, g: 0, b: 0, a: 0 }
}

/// The differing coordinates among the first `upto` pixels, in row-major
/// scan order, as (x, y) pairs.
pub open spec fn spec_diff_list(t: Seq<Rgba>, c: Seq<Rgba>, width: int, upto: int) -> Seq<
    (u32, u32),
>
    decreases upto,
{
    if upto <= 0 {
        Seq::empty()
    } else {
        let rest = spec_diff_list(t, c, width, upto - 1);
        if t[upto - 1] != c[upto - 1] {
            rest.push((((upto - 1) % width) as u32, ((upto - 1) / width) as u32))
        } else {
            rest
        }
    }
}

/// How many of the first `upto` pixels differ.
pub open spec fn spec_diff_count(t: Seq<Rgba>, c: Seq<Rgba>, upto: int) -> int
    decreases upto,
{
    if upto <= 0 {
        0
    } else {
        spec_diff_count(t, c, upto - 1) + if t[upto - 1] != c[upto - 1] {
            1int
        } else {
            0int
        }
    }
}

/// How many of the first `upto` pixels differ while the template pixel
/// decodes to the palette color with the given index.
pub open spec fn spec_diff_color_count(t: Seq<Rgba>, c: Seq<Rgba>, idx: int, upto: int) -> int
    decreases upto,
{
    if upto <= 0 {
        0
    } else {
        spec_diff_color_count(t, c, idx, upto - 1) + if t[upto - 1] != c[upto - 1] && t[upto
            - 1].a != 0 && (spec_decode(t[upto - 1]) matches Some(cc) && spec_index(cc) == idx) {
            1int
        } else {
            0int
        }
    }
}

/// The sum of the differing counts for the palette indices below `n`.
pub open spec fn sum_diff_color_counts(t: Seq<Rgba>, c: Seq<Rgba>, n: int, upto: int) -> int
    decreases n,
{
    if n <= 0 {
        0
    } else {
        sum_diff_color_counts(t, c, n - 1, upto) + spec_diff_color_count(t, c, n - 1, upto)
    }
}

/// Why two images cannot be compared.
#[derive(Clone, Copy, PartialEq, Eq, Structural, Debug)]
pub enum ImageComparisonError {
    /// The widths differ.
    IncongruentWidth,
    /// The widths match but the heights differ.
    IncongruentHeight,
}

/// The read-only result of comparing a template against the live canvas.
pub struct ImageComparison {
    /// Width of both compared images.
    pub width: u32,
    /// Height of both compared images.
    pub height: u32,
    /// One cell per pixel: the diff mark where the images differ, the
    /// same mark everywhere else.
    pub difference_image: Vec<Rgba>,
    /// The differing coordinates in row-major scan order.
    pub different_px: Vec<(u32, u32)>,
    /// One count per palette index: differing pixels whose template pixel
    /// has that color.
    pub difference_color_count: Vec<u64>,
}

impl ImageComparison {
    /// What `compare_images` guarantees of every result it returns.
    pub open spec fn matches_images(self, t: Seq<Rgba>, c: Seq<Rgba>) -> bool {
        &&& t.len() == self.width * self.height
        &&& c.len() == t.len()
        &&& self.difference_image@.len() == t.len()
        &&& forall|k: int|
            0 <= k < t.len() ==> self.difference_image@[k] == (if t[k] != c[k] {
                spec_diff_mark()
            } else {
                spec_same_mark()
            })
        &&& self.different_px@ == spec_diff_list(t, c, self.width as int, t.len() as int)
        &&& self.difference_color_count@.len() == 64
        &&& forall|idx: int|
            0 <= idx < 64 ==> self.difference_color_count@[idx] == spec_diff_color_count(
                t,
                c,
                idx,
                t.len() as int,
            )
    }

    /// Compares the template against the current canvas image. Fails when
    /// the widths differ, then when the heights differ. Otherwise scans
    /// both bitmaps once in row-major order: each position where the raw
    /// RGBA bytes differ is recorded in scan order, marked in the
    /// highlight bitmap, and counted against the template pixel's color.
    pub fn compare_images(template_image: &ImageData, current_image: &ImageData) -> (r: Result<
        ImageComparison,
        ImageComparisonError,
    >)
        requires
            template_image.wf(),
            current_image.wf(),
        ensures
            template_image.width != current_image.width ==> r == Err::<
                ImageComparison,
                ImageComparisonError,
            >(ImageComparisonError::IncongruentWidth),
            template_image.width == current_image.width && template_image.height
                != current_image.height ==> r == Err::<ImageComparison, ImageComparisonError>(
                ImageComparisonError::IncongruentHeight,
            ),
            r is Ok <==> template_image.width == current_image.width && template_image.height
                == current_image.height,
            r matches Ok(cmp) ==> cmp.width == template_image.width && cmp.height
                == template_image.height && cmp.matches_images(
                template_image.pixels@,
                current_image.pixels@,
            ),
    {
        if template_image.width != current_image.width {
            return Err(ImageComparisonError::IncongruentWidth);
        }
        if template_image.height != current_image.height {
            return Err(ImageComparisonError::IncongruentHeight);
        }
        let width = template_image.width;
        let height = template_image.height;
        let ghost t: Seq<Rgba> = template_image.pixels@;
        let ghost c: Seq<Rgba> = current_image.pixels@;
        let mut counts: Vec<u64> = Vec::new();
        let mut ci: usize = 0;
        while ci < 64
            invariant
                0 <= ci <= 64,
                counts@.len() == ci,
                forall|idx: int| 0 <= idx < ci ==> counts@[idx] == 0,
            decreases 64 - ci,
        {
            counts.push(0);
            ci += 1;
        }
        let mut difference_image: Vec<Rgba> = Vec::new();
        let mut different_px: Vec<(u32, u32)> = Vec::new();
        let n: usize = template_image.pixels.len();
        let mut k: usize = 0;
        while k < n
            invariant
                0 <= k <= n,
                n == t.len() == c.len(),
                t.len() == width * height,
                width > 0,
                height > 0,
                t == template_image.pixels@,
                c == current_image.pixels@,
                template_image.wf(),
                current_image.wf(),
                width == template_image.width,
                height == template_image.height,
                counts@.len() == 64,
                difference_image@.len() == k,
                forall|j: int|
                    0 <= j < k ==> difference_image@[j] == (if t[j] != c[j] {
                        spec_diff_mark()
                    } else {
                        spec_same_mark()
                    }),
                different_px@ == spec_diff_list(t, c, width as int, k as int),
                forall|idx: int|
                    0 <= idx < 64 ==> counts@[idx] == spec_diff_color_count(t, c, idx, k as int),
            decreases n - k,
        {
            let tp = template_image.pixels[k];
            let cp = current_image.pixels[k];
            if tp.r == cp.r && tp.g == cp.g && tp.b == cp.b && tp.a == cp.a {
                difference_image.push(Rgba { r: 0, g: 0, b: 0, a: 0 });
            } else {
                difference_image.push(Rgba { r: 255, g: 0, b: 255, a: 255 });
                let x: u32 = (k % (width as usize)) as u32;
                let y: u32 = (k / (width as usize)) as u32;
                proof {
                    lemma_fundamental_div_mod(k as int, width as int);
                    lemma_mod_division_less_than_divisor(k as int, width as int);
                    lemma_multiply_divide_lt(k as int, width as int, height as int);
                }
                different_px.push((x, y));
                if tp.a != 0 {
                    match crate::color::Color::decode(tp) {
                        Ok(col) => {
                            let idx = col.palette_index();
                            proof {
                                lemma_diff_color_count_bound(t, c, idx as int, k as int);
                            }
                            let cur = counts[idx as usize];
                            counts[idx as usize] = cur + 1;
                        },
                        Err(_) => {
                            proof {
                                assert(pixel_ok(t[k as int]));
                                assert(false);
                            }
                        },
                    }
                }
            }
            k += 1;
        }
        Ok(
            ImageComparison {
                width,
                height,
                difference_image,
                different_px,
                difference_color_count: counts,
            },
        )
    }
}

/// A differing color count never exceeds the scanned prefix length.
proof fn lemma_diff_color_count_bound(t: Seq<Rgba>, c: Seq<Rgba>, idx: int, upto: int)
    ensures
        0 <= spec_diff_color_count(t, c, idx, upto) <= if upto >= 0 {
            upto
        } else {
            0
        },
    decreases upto,
{
    if upto > 0 {
        lemma_diff_color_count_bound(t, c, idx, upto - 1);
    }
}

/// The sum of the first `n` entries of a count vector.
pub open spec fn spec_sum_counts(s: Seq<u64>, n: int) -> int
    decreases n,
{
    if n <= 0 {
        0
    } else {
        spec_sum_counts(s, n - 1) + s[n - 1]
    }
}

impl ImageComparison {
    /// The per-color histogram of differing pixels.
    pub fn get_difference_color_count(&self) -> (r: &Vec<u64>)
        ensures
            r@ == self.difference_color_count@,
    {
        &self.difference_color_count
    }

    /// The two-color highlight bitmap, row-major.
    pub fn get_difference_image(&self) -> (r: &Vec<Rgba>)
        ensures
            r@ == self.difference_image@,
    {
        &self.difference_image
    }

    /// The differing coordinates in row-major scan order.
    pub fn get_different_px(&self) -> (r: &Vec<(u32, u32)>)
        ensures
            r@ == self.different_px@,
    {
        &self.different_px
    }

    /// The total of the differing-color histogram.
    pub fn get_total_different_px(&self) -> (r: u64)
        requires
            self.difference_color_count@.len() == 64,
            spec_sum_counts(self.difference_color_count@, 64) <= u64::MAX,
        ensures
            r == spec_sum_counts(self.difference_color_count@, 64),
    {
        let mut acc: u64 = 0;
        let mut i: usize = 0;
        while i < 64
            invariant
                0 <= i <= 64,
                self.difference_color_count@.len() == 64,
                acc == spec_sum_counts(self.difference_color_count@, i as int),
                spec_sum_counts(self.difference_color_count@, 64) <= u64::MAX,
            decreases 64 - i,
        {
            proof {
                lemma_sum_counts_nonneg(self.difference_color_count@, i as int);
                lemma_sum_counts_le(self.difference_color_count@, i + 1);
            }
            acc = acc + self.difference_color_count[i];
            i += 1;
        }
        acc
    }
}

proof fn lemma_sum_counts_nonneg(s: Seq<u64>, n: int)
    ensures
        spec_sum_counts(s, n) >= 0,
    decreases n,
{
    if n > 0 {
        lemma_sum_counts_nonneg(s, n - 1);
    }
}

proof fn lemma_sum_counts_le(s: Seq<u64>, n: int)
    requires
        0 <= n <= 64,
    ensures
        spec_sum_counts(s, n) <= spec_sum_counts(s, 64),
    decreases 64 - n,
{
    if n < 64 {
        lemma_sum_counts_le(s, n + 1);
    }
}

proof fn lemma_diff_cc_identical(t: Seq<Rgba>, idx: int, upto: int)
    ensures
        spec_diff_color_count(t, t, idx, upto) == 0,
    decreases upto,
{
    if upto > 0 {
        lemma_diff_cc_identical(t, idx, upto - 1);
    }
}

/// Diffing an image against itself yields no differing pixel, an empty
/// differing list, and an all-zero histogram.
pub proof fn lemma_diff_identical(t: Seq<Rgba>, width: int)
    ensures
        spec_diff_list(t, t, width, t.len() as int) == Seq::<(u32, u32)>::empty(),
        spec_diff_count(t, t, t.len() as int) == 0,
        forall|idx: int| spec_diff_color_count(t, t, idx, t.len() as int) == 0,
{
    lemma_diff_list_identical(t, width, t.len() as int);
    assert forall|idx: int| spec_diff_color_count(t, t, idx, t.len() as int) == 0 by {
        lemma_diff_cc_identical(t, idx, t.len() as int);
    }
}

proof fn lemma_diff_list_identical(t: Seq<Rgba>, width: int, upto: int)
    ensures
        spec_diff_list(t, t, width, upto) == Seq::<(u32, u32)>::empty(),
        spec_diff_count(t, t, upto) == 0,
    decreases upto,
{
    if upto > 0 {
        lemma_diff_list_identical(t, width, upto - 1);
    }
}

/// The differing list is exactly as long as the differing count.
pub proof fn lemma_diff_list_len(t: Seq<Rgba>, c: Seq<Rgba>, width: int, upto: int)
    ensures
        spec_diff_list(t, c, width, upto).len() == spec_diff_count(t, c, upto),
        spec_diff_count(t, c, upto) >= 0,
    decreases upto,
{
    if upto > 0 {
        lemma_diff_list_len(t, c, width, upto - 1);
    }
}

proof fn lemma_sum_dcc_empty(t: Seq<Rgba>, c: Seq<Rgba>, n: int)
    requires
        n >= 0,
    ensures
        sum_diff_color_counts(t, c, n, 0) == 0,
    decreases n,
{
    if n > 0 {
        lemma_sum_dcc_empty(t, c, n - 1);
    }
}

proof fn lemma_sum_dcc_snoc(t: Seq<Rgba>, c: Seq<Rgba>, n: int, upto: int)
    requires
        upto > 0,
        0 <= n,
    ensures
        sum_diff_color_counts(t, c, n, upto) == sum_diff_color_counts(t, c, n, upto - 1) + if t[upto
            - 1] != c[upto - 1] && t[upto - 1].a != 0 && (spec_decode(t[upto - 1]) matches Some(cc)
            && 0 <= spec_index(cc) < n) {
            1int
        } else {
            0int
        },
    decreases n,
{
    if n > 0 {
        lemma_sum_dcc_snoc(t, c, n - 1, upto);
    }
}

/// When every differing position holds an opaque template pixel, the
/// differing-color histogram partitions the differing pixels: its sum over
/// the whole palette equals the differing count, which equals the length
/// of the differing list.
pub proof fn lemma_diff_histogram_sum(t: Seq<Rgba>, c: Seq<Rgba>, width: int, upto: int)
    requires
        0 <= upto <= t.len(),
        all_pixels_ok(t),
        forall|k: int| 0 <= k < upto && #[trigger] t[k] != c[k] ==> t[k].a != 0,
    ensures
        sum_diff_color_counts(t, c, 64, upto) == spec_diff_count(t, c, upto),
        spec_diff_list(t, c, width, upto).len() == spec_diff_count(t, c, upto),
    decreases upto,
{
    lemma_diff_list_len(t, c, width, upto);
    if upto == 0 {
        lemma_sum_dcc_empty(t, c, 64);
    } else {
        lemma_diff_histogram_sum(t, c, width, upto - 1);
        lemma_sum_dcc_snoc(t, c, 64, upto);
        if t[upto - 1] != c[upto - 1] {
            assert(pixel_ok(t[upto - 1]));
            assert(t[upto - 1].a != 0);
            let cc = spec_decode(t[upto - 1])->Some_0;
            crate::color::lemma_index_range(cc);
        }
    }
}

} // verus!
