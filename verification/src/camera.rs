//! Where in the picture a sample lies.
//!
//! A sample of pixel `(x, y)` with the offset `(ox, oy)` lies at the fraction
//! `(x + ox - width / 2) / width` of the horizontal field of view to the right
//! of the centre, and at `(height / 2 - (y + oy)) / height` of the vertical one
//! above it. Both are exact fractions of whole numbers; the caller multiplies
//! them by the angles.

use crate::aa::{grid, sum_x, sum_y};
use crate::ratio::Ratio;
use vstd::arithmetic::div_mod::{lemma_fundamental_div_mod, lemma_mod_pos_bound};
use vstd::prelude::*;

verus! {

/// The numerator of a sample's fraction over `2 * denominator * extent`, taken
/// from the low edge of the picture to the high one.
pub open spec fn fraction_numerator(pixel: int, extent: int, offset: int, denominator: int) -> int {
    denominator * (2 * pixel - extent) + 2 * offset
}

/// How far to the right of the picture's centre a sample lies, as a fraction
/// of the picture's width. `offset / denominator` is the sample's offset
/// within pixel `x`.
pub fn horizontal_fraction(x: u32, width: u32, offset: i16, denominator: u16) -> (f: Ratio)
    requires
        width > 0,
        denominator > 0,
    ensures
        f.wf(),
        f.num == fraction_numerator(x as int, width as int, offset as int, denominator as int),
        f.den == 2 * denominator * width,
{
    let d: i64 = denominator as i64;
    let w: i64 = width as i64;
    let lean: i64 = 2 * (x as i64) - w;
    assert(-0x1_0000_0000_0000 <= d * lean <= 0x2_0000_0000_0000) by (nonlinear_arith)
        requires
            0 < d <= 0xffff,
            -0x1_0000_0000 <= lean <= 0x2_0000_0000,
    ;
    assert(0 < d * w <= 0x1_0000_0000_0000) by (nonlinear_arith)
        requires
            0 < d <= 0xffff,
            0 < w <= 0xffff_ffff,
    ;
    assert(2 * (d * w) == 2 * denominator * width) by (nonlinear_arith)
        requires
            d == denominator,
            w == width,
    ;
    Ratio { num: d * lean + 2 * (offset as i64), den: 2 * (d * w) }
}

/// How far above the picture's centre a sample lies, as a fraction of the
/// picture's height. `offset / denominator` is the sample's offset within
/// pixel `y`; pixels are counted from the top.
pub fn vertical_fraction(y: u32, height: u32, offset: i16, denominator: u16) -> (f: Ratio)
    requires
        height > 0,
        denominator > 0,
    ensures
        f.wf(),
        f.num == -fraction_numerator(y as int, height as int, offset as int, denominator as int),
        f.den == 2 * denominator * height,
{
    let down: Ratio = horizontal_fraction(y, height, offset, denominator);
    assert(-0x1_0000_0000_0000 <= denominator * (2 * y - height) <= 0x2_0000_0000_0000)
        by (nonlinear_arith)
        requires
            0 < denominator <= 0xffff,
            -0x1_0000_0000 <= 2 * y - height <= 0x2_0000_0000,
    ;
    Ratio { num: -down.num, den: down.den }
}

/// A sample in the middle of a pixel in the middle of the picture looks
/// straight ahead, and a sample never leaves the field of view by as much as
/// the field is wide.
pub proof fn lemma_fraction_within_view(pixel: u32, extent: u32, offset: i16, denominator: u16)
    requires
        pixel < extent,
        denominator > 0,
        -(denominator as int) < 2 * offset < denominator,
    ensures
        fraction_numerator(pixel as int, extent as int, offset as int, denominator as int) < 2
            * denominator * extent,
        fraction_numerator(pixel as int, extent as int, offset as int, denominator as int) > -(2
            * denominator * extent),
        2 * pixel == extent && offset == 0 ==> fraction_numerator(
            pixel as int,
            extent as int,
            offset as int,
            denominator as int,
        ) == 0,
{
    let d = denominator as int;
    let e = extent as int;
    let lean = 2 * pixel - extent;
    assert(d * lean <= d * (e - 2) && d * lean >= d * (-e)) by (nonlinear_arith)
        requires
            d > 0,
            -e <= lean <= e - 2,
    ;
    assert(d * (e - 2) == d * e - 2 * d && d * (-e) == -(d * e)) by (nonlinear_arith);
    assert(2 * denominator * extent == 2 * (d * e)) by (nonlinear_arith)
        requires
            d == denominator,
            e == extent,
    ;
    assert(d * e > 0) by (nonlinear_arith)
        requires
            d > 0,
            e > 0,
    ;
    if 2 * pixel == extent && offset == 0 {
        assert(d * lean == 0) by (nonlinear_arith)
            requires
                lean == 0,
        ;
    }
}

/// The pixel at a place in the picture, where the places are counted along
/// the rows from the top: its column and its row.
pub fn pixel_at(place: usize, width: u32, height: u32) -> (pixel: (u32, u32))
    requires
        place < width * height,
    ensures
        pixel.0 < width,
        pixel.1 < height,
        pixel.1 * width + pixel.0 == place,
{
    assert(width > 0) by (nonlinear_arith)
        requires
            0 <= place < width * height,
    ;
    let w: usize = width as usize;
    proof {
        lemma_fundamental_div_mod(place as int, width as int);
        lemma_mod_pos_bound(place as int, width as int);
        let q = place as int / width as int;
        let r = place as int % width as int;
        assert(0 <= q < height) by (nonlinear_arith)
            requires
                place == width * q + r,
                0 <= r < width,
                0 <= place < width * height,
        ;
        assert(q * width + r == place) by (nonlinear_arith)
            requires
                place == width * q + r,
        ;
    }
    ((place % w) as u32, (place / w) as u32)
}

/// The numerators of the fractions of a series of samples of one pixel, added
/// up: of the horizontal fractions, or, with the sign changed, of the
/// vertical ones.
pub open spec fn numerator_sum(
    offsets: Seq<(int, int)>,
    pixel: int,
    extent: int,
    denominator: int,
    vertical: bool,
) -> int
    decreases offsets.len(),
{
    if offsets.len() == 0 {
        0
    } else {
        numerator_sum(offsets.drop_last(), pixel, extent, denominator, vertical)
            + fraction_numerator(
            pixel,
            extent,
            if vertical {
                offsets.last().1
            } else {
                offsets.last().0
            },
            denominator,
        )
    }
}

/// The numerators of a series of samples add up to what as many samples in
/// the middle of the pixel give, and twice the sum of the offsets.
proof fn lemma_numerator_sum(
    offsets: Seq<(int, int)>,
    pixel: int,
    extent: int,
    denominator: int,
    vertical: bool,
)
    ensures
        numerator_sum(offsets, pixel, extent, denominator, vertical) == offsets.len()
            * fraction_numerator(pixel, extent, 0, denominator) + 2 * (if vertical {
            sum_y(offsets)
        } else {
            sum_x(offsets)
        }),
    decreases offsets.len(),
{
    if offsets.len() > 0 {
        lemma_numerator_sum(offsets.drop_last(), pixel, extent, denominator, vertical);
        let m = fraction_numerator(pixel, extent, 0, denominator);
        let n = offsets.len() as int;
        assert((n - 1) * m + m == n * m) by (nonlinear_arith);
    }
}

/// The samples of a pixel are centred on it: over the anti-aliasing grid of
/// any size, the mean of the samples' fractions, across and down, is the
/// fraction of the middle of the pixel.
pub proof fn lemma_samples_are_centred(n: nat, pixel: int, extent: int, vertical: bool)
    requires
        n >= 1,
    ensures
        numerator_sum(grid(n), pixel, extent, 2 * n as int, vertical) == n * n
            * fraction_numerator(pixel, extent, 0, 2 * n as int),
{
    crate::aa::lemma_grid_is_centered(n);
    lemma_numerator_sum(grid(n), pixel, extent, 2 * n as int, vertical);
}

} // verus!
