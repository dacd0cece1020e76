//! What the bytes of a converted picture are, sample by sample and in
//! numbers.

use vstd::prelude::*;

use crate::color::{
    blue_q8, bt601, bt601_int16, chroma, clamp8, green_q8, lemma_chroma_row_is_its_own,
    lemma_packed_byte, nv12_image, packed, red_q8, wrap16, Bgra, Nv12,
};

verus! {

/// A level is within one step of `exact`, limited to a byte.  `exact` is
/// counted in thousandths of a step.
pub open spec fn within_a_step(level: u8, exact: int) -> bool {
    &&& exact <= 0 ==> level <= 1
    &&& exact >= 255_000 ==> level >= 254
    &&& 0 <= exact <= 255_000 ==> -1000 <= 1000 * level - exact <= 1000
}

/// The conversion is BT.601: each channel is within one step of what the
/// weights 1.164, 1.596, 0.813, 0.391 and 2.018 give, limited to a byte.
pub proof fn lemma_bt601_is_accurate(y: u8, cb: u8, cr: u8)
    ensures
        ({
            let luma = 1164 * (y - 16);
            let red = luma + 1596 * (cr - 128);
            let green = luma - 813 * (cr - 128) - 391 * (cb - 128);
            let blue = luma + 2018 * (cb - 128);
            let pixel = bt601(y, cb, cr);
            &&& within_a_step(pixel.r, red)
            &&& within_a_step(pixel.g, green)
            &&& within_a_step(pixel.b, blue)
        }),
{
}

/// The Q8 coefficients are rounded to the nearest step: a channel is off by
/// half a step at most, unless it is at one of its ends and the sum beyond.
pub proof fn lemma_bt601_rounds(y: u8, cb: u8, cr: u8)
    ensures
        ({
            let red = 298 * (y - 16) + 409 * (cr - 128);
            let green = 298 * (y - 16) - 208 * (cr - 128) - 100 * (cb - 128);
            let blue = 298 * (y - 16) + 516 * (cb - 128);
            let pixel = bt601(y, cb, cr);
            &&& -128 <= red - 256 * pixel.r < 128 || (pixel.r == 0 && red < -128) || (pixel.r == 255
                && red >= 65408)
            &&& -128 <= green - 256 * pixel.g < 128 || (pixel.g == 0 && green < -128) || (pixel.g
                == 255 && green >= 65408)
            &&& -128 <= blue - 256 * pixel.b < 128 || (pixel.b == 0 && blue < -128) || (pixel.b
                == 255 && blue >= 65408)
        }),
{
}

/// Each sample acts linearly: one step of luma raises every Q8 sum by 298,
/// one step of Cr raises red by 409 and lowers green by 208, one step of Cb
/// lowers green by 100 and raises blue by 516.
pub proof fn lemma_samples_act_linearly(y: u8, cb: u8, cr: u8)
    ensures
        y < 255 ==> {
            let up = (y + 1) as u8;
            &&& red_q8(up, cr) == red_q8(y, cr) + 298
            &&& green_q8(up, cb, cr) == green_q8(y, cb, cr) + 298
            &&& blue_q8(up, cb) == blue_q8(y, cb) + 298
        },
        cr < 255 ==> {
            let up = (cr + 1) as u8;
            &&& red_q8(y, up) == red_q8(y, cr) + 409
            &&& green_q8(y, cb, up) == green_q8(y, cb, cr) - 208
        },
        cb < 255 ==> {
            let up = (cb + 1) as u8;
            &&& green_q8(y, up, cr) == green_q8(y, cb, cr) - 100
            &&& blue_q8(y, up) == blue_q8(y, cb) + 516
        },
{
}

/// What is left of a sum in a lane of 16 bits: one beyond the lane comes out
/// 2^16 below or above.
pub open spec fn in_lane(sum: int) -> int {
    if sum > 32767 {
        sum - 65536
    } else if sum < -32768 {
        sum + 65536
    } else {
        sum
    }
}

/// A level is a Q7 number without its fraction, limited to a byte.
pub open spec fn is_q7_level(level: u8, lane: int) -> bool {
    ||| 0 <= lane - 128 * level < 128
    ||| level == 0 && lane < 0
    ||| level == 255 && lane >= 32640
}

proof fn lemma_lane(sum: int)
    requires
        -98304 <= sum <= 98303,
    ensures
        is_q7_level(clamp8(wrap16(sum) / 128), in_lane(sum)),
{
    assert(wrap16(sum) == in_lane(sum));
}

/// The lanes of 16 bits in numbers: the coefficients are half of those in Q8,
/// and a sum that leaves the lane wraps.
pub proof fn lemma_lanes_of_16_bits(y: u8, cb: u8, cr: u8)
    ensures
        ({
            let red = 149 * (y - 16) + 204 * (cr - 128) + 64;
            let green = 149 * (y - 16) - 104 * (cr - 128) - 50 * (cb - 128) + 64;
            let blue = 149 * (y - 16) + 258 * (cb - 128) + 64;
            let pixel = bt601_int16(y, cb, cr);
            &&& is_q7_level(pixel.r, in_lane(red))
            &&& is_q7_level(pixel.g, in_lane(green))
            &&& is_q7_level(pixel.b, in_lane(blue))
        }),
{
    lemma_lane(149 * (y - 16) + 204 * (cr - 128) + 64);
    lemma_lane(149 * (y - 16) - 104 * (cr - 128) - 50 * (cb - 128) + 64);
    lemma_lane(149 * (y - 16) + 258 * (cb - 128) + 64);
}

/// The pixel at `row` and `col` of an image is the BT.601 value of its luma
/// byte and of the chroma pair of its block of two by two pixels, stored as
/// red, green and blue.
pub proof fn lemma_image_pixel(
    y: Seq<u8>,
    y_stride: int,
    uv: Seq<u8>,
    uv_stride: int,
    w: int,
    h: int,
    row: int,
    col: int,
)
    requires
        0 <= row < h,
        0 <= col < w,
        0 <= uv_stride,
        ((h - 1) / 2) * uv_stride + ((w - 1) / 2) * 2 + 2 <= uv.len(),
    ensures
        ({
            let image = nv12_image(y, y_stride, uv, uv_stride, w, h);
            let pair = (row / 2) * uv_stride + (col / 2) * 2;
            let pixel = bt601(y[row * y_stride + col], uv[pair], uv[pair + 1]);
            let at = (row * w + col) * 3;
            &&& image.len() == w * h * 3
            &&& 0 <= at && at + 2 < image.len()
            &&& image[at] == pixel.r
            &&& image[at + 1] == pixel.g
            &&& image[at + 2] == pixel.b
        }),
{
    let pixel = |r: int, c: int|
        bt601(
            y[r * y_stride + c],
            chroma(uv, uv_stride, w, r, c, 0),
            chroma(uv, uv_stride, w, r, c, 1),
        );
    assert(nv12_image(y, y_stride, uv, uv_stride, w, h) =~= packed(w, h, pixel));
    lemma_chroma_row_is_its_own(uv.len() as int, uv_stride, w, h, row);
    lemma_packed_byte(w, h, pixel, row, col, 0);
    lemma_packed_byte(w, h, pixel, row, col, 1);
    lemma_packed_byte(w, h, pixel, row, col, 2);
}

/// Under an odd height whose plane has no chroma row for the last luma row,
/// that row takes the chroma of the two rows before it; a picture of one row
/// without chroma is grey.
pub proof fn lemma_last_row_of_odd_height(
    y: Seq<u8>,
    y_stride: int,
    uv: Seq<u8>,
    uv_stride: int,
    w: int,
    h: int,
    col: int,
)
    requires
        0 <= col < w,
        0 <= uv_stride,
        h >= 1,
        h % 2 == 1,
        uv.len() < (h / 2) * uv_stride + ((w - 1) / 2) * 2 + 2,
    ensures
        ({
            let image = nv12_image(y, y_stride, uv, uv_stride, w, h);
            let pair = (h / 2 - 1) * uv_stride + (col / 2) * 2;
            let luma = y[(h - 1) * y_stride + col];
            let pixel = if h == 1 {
                bt601(luma, 128, 128)
            } else {
                bt601(luma, uv[pair], uv[pair + 1])
            };
            let at = ((h - 1) * w + col) * 3;
            &&& image[at] == pixel.r
            &&& image[at + 1] == pixel.g
            &&& image[at + 2] == pixel.b
        }),
{
    let pixel = |r: int, c: int|
        bt601(
            y[r * y_stride + c],
            chroma(uv, uv_stride, w, r, c, 0),
            chroma(uv, uv_stride, w, r, c, 1),
        );
    assert(nv12_image(y, y_stride, uv, uv_stride, w, h) =~= packed(w, h, pixel));
    lemma_packed_byte(w, h, pixel, h - 1, col, 0);
    lemma_packed_byte(w, h, pixel, h - 1, col, 1);
    lemma_packed_byte(w, h, pixel, h - 1, col, 2);
}

/// The pixels that go through 16-bit lanes are those of the whole groups of
/// eight columns; the others take the Q8 path.  All take the same samples.
pub proof fn lemma_int16_image_pixel(picture: Nv12, w: int, h: int, row: int, col: int)
    requires
        0 <= row < h,
        0 <= col < w,
        ((h - 1) / 2) * picture.uv_stride + ((w - 1) / 2) * 2 + 2 <= picture.uv@.len(),
    ensures
        ({
            let image = picture.image_int16(w, h);
            let pair = (row / 2) * picture.uv_stride + (col / 2) * 2;
            let luma = picture.y@[row * picture.y_stride + col];
            let pixel = if col < w - w % 8 {
                bt601_int16(luma, picture.uv@[pair], picture.uv@[pair + 1])
            } else {
                bt601(luma, picture.uv@[pair], picture.uv@[pair + 1])
            };
            let at = (row * w + col) * 3;
            &&& image.len() == w * h * 3
            &&& image[at] == pixel.r
            &&& image[at + 1] == pixel.g
            &&& image[at + 2] == pixel.b
        }),
{
    let pixel = |r: int, c: int| picture.pixel_int16(w, r, c);
    assert(picture.image_int16(w, h) =~= packed(w, h, pixel));
    lemma_chroma_row_is_its_own(picture.uv@.len() as int, picture.uv_stride as int, w, h, row);
    lemma_packed_byte(w, h, pixel, row, col, 0);
    lemma_packed_byte(w, h, pixel, row, col, 1);
    lemma_packed_byte(w, h, pixel, row, col, 2);
}

/// Under an odd height without chroma for the last luma row, that row takes
/// the same samples through 16-bit lanes as it does without them.
pub proof fn lemma_int16_last_row(picture: Nv12, w: int, h: int, col: int)
    requires
        0 <= col < w,
        h >= 1,
        h % 2 == 1,
        picture.uv@.len() < (h / 2) * picture.uv_stride + ((w - 1) / 2) * 2 + 2,
    ensures
        ({
            let image = picture.image_int16(w, h);
            let pair = (h / 2 - 1) * picture.uv_stride + (col / 2) * 2;
            let luma = picture.y@[(h - 1) * picture.y_stride + col];
            let cb = if h == 1 {
                128u8
            } else {
                picture.uv@[pair]
            };
            let cr = if h == 1 {
                128u8
            } else {
                picture.uv@[pair + 1]
            };
            let pixel = if col < w - w % 8 {
                bt601_int16(luma, cb, cr)
            } else {
                bt601(luma, cb, cr)
            };
            let at = ((h - 1) * w + col) * 3;
            &&& image[at] == pixel.r
            &&& image[at + 1] == pixel.g
            &&& image[at + 2] == pixel.b
        }),
{
    let pixel = |r: int, c: int| picture.pixel_int16(w, r, c);
    assert(picture.image_int16(w, h) =~= packed(w, h, pixel));
    lemma_packed_byte(w, h, pixel, h - 1, col, 0);
    lemma_packed_byte(w, h, pixel, h - 1, col, 1);
    lemma_packed_byte(w, h, pixel, h - 1, col, 2);
}

/// The pixel at `row` and `col` of a BGRA picture is stored in four bytes:
/// blue, green, red and one that is dropped.
pub proof fn lemma_bgra_pixel(picture: Bgra, w: int, h: int, row: int, col: int)
    requires
        0 <= row < h,
        0 <= col < w,
    ensures
        ({
            let image = picture.image(w, h);
            let from = row * picture.stride + 4 * col;
            let at = (row * w + col) * 3;
            &&& image.len() == w * h * 3
            &&& image[at] == picture.data@[from + 2]
            &&& image[at + 1] == picture.data@[from + 1]
            &&& image[at + 2] == picture.data@[from]
        }),
{
    let pixel = |r: int, c: int| picture.pixel(r, c);
    assert(picture.image(w, h) =~= packed(w, h, pixel));
    lemma_packed_byte(w, h, pixel, row, col, 0);
    lemma_packed_byte(w, h, pixel, row, col, 1);
    lemma_packed_byte(w, h, pixel, row, col, 2);
}

/// Whole rows are enough: a luma plane of a stride for every row, and a
/// chroma plane of a stride for every two whole rows, hold a picture.
pub proof fn lemma_whole_rows_hold_nv12(picture: Nv12, w: usize, h: usize)
    requires
        picture.y_stride >= w,
        picture.uv_stride >= w + w % 2,
        picture.y@.len() >= picture.y_stride * h,
        picture.uv@.len() >= picture.uv_stride * (h / 2),
    ensures
        picture.holds(w, h),
{
    if w > 0 && h > 0 {
        assert((h - 1) * picture.y_stride + picture.y_stride == picture.y_stride * h)
            by (nonlinear_arith);
        if h >= 2 {
            assert((h / 2 - 1) * picture.uv_stride + picture.uv_stride == picture.uv_stride * (h
                / 2)) by (nonlinear_arith);
        }
    }
}

/// Whole rows of four bytes for each pixel hold a BGRA picture.
pub proof fn lemma_whole_rows_hold_bgra(picture: Bgra, w: usize, h: usize)
    requires
        picture.stride >= 4 * w,
        picture.data@.len() >= picture.stride * h,
    ensures
        picture.holds(w, h),
{
    if w > 0 && h > 0 {
        assert((h - 1) * picture.stride + picture.stride == picture.stride * h)
            by (nonlinear_arith);
    }
}

/// What a picture needs: every luma byte, and for every two whole rows all of
/// their chroma pairs.  The last row of either plane may end with its last
/// sample, and nothing is asked of an empty picture.
pub proof fn lemma_what_nv12_needs(picture: Nv12, w: usize, h: usize)
    ensures
        w == 0 || h == 0 ==> picture.holds(w, h),
        w > 0 && h == 1 ==> (picture.holds(w, h) <==> w <= picture.y@.len()),
        w > 0 && h >= 2 ==> (picture.holds(w, h) <==> (h - 1) * picture.y_stride + w
            <= picture.y@.len() && (h / 2 - 1) * picture.uv_stride + w + w % 2
            <= picture.uv@.len()),
{
    if w > 0 && h >= 1 {
        assert(0 * picture.y_stride == 0) by (nonlinear_arith);
        assert(((w - 1) / 2) * 2 + 2 == w + w % 2);
    }
}

/// What a BGRA picture needs: the three colour bytes of every pixel.
pub proof fn lemma_what_bgra_needs(picture: Bgra, w: usize, h: usize)
    ensures
        w == 0 || h == 0 ==> picture.holds(w, h),
        w > 0 && h > 0 ==> (picture.holds(w, h) <==> (h - 1) * picture.stride + 4 * w
            <= picture.data@.len() + 1),
{
}

} // verus!
