//! Conversion of decoder output to packed RGB.
//!
//! NV12 pictures hold one plane of luma and one plane of interleaved chroma
//! pairs at half resolution in both directions.  They are converted with the
//! BT.601 limited-range coefficients in Q8 fixed-point arithmetic.

use vstd::prelude::*;

use crate::media::DecodedFrame;
use crate::pixels::within_a_step;

verus! {

/// One RGB pixel.
pub struct Rgb {
    pub r: u8,
    pub g: u8,
    pub b: u8,
}

impl Rgb {
    /// The channels in storage order.
    pub open spec fn channel(self, k: int) -> u8 {
        if k == 0 {
            self.r
        } else if k == 1 {
            self.g
        } else {
            self.b
        }
    }
}

/// `v` limited to the range of a byte.
pub open spec fn clamp8(v: int) -> u8 {
    if v < 0 {
        0
    } else if v > 255 {
        255
    } else {
        v as u8
    }
}

/// `v` reduced to a 16-bit two's complement number.
pub open spec fn wrap16(v: int) -> int {
    (v + 0x8000) % 0x1_0000 - 0x8000
}

/// The Q8 sums of the three channels, rounding term included.
pub open spec fn red_q8(y: u8, cr: u8) -> int {
    298 * (y - 16) + 409 * (cr - 128) + 128
}

pub open spec fn green_q8(y: u8, cb: u8, cr: u8) -> int {
    298 * (y - 16) - 208 * (cr - 128) - 100 * (cb - 128) + 128
}

pub open spec fn blue_q8(y: u8, cb: u8) -> int {
    298 * (y - 16) + 516 * (cb - 128) + 128
}

/// BT.601 limited range to RGB, rounded to the nearest value and clamped.
pub open spec fn bt601(y: u8, cb: u8, cr: u8) -> Rgb {
    Rgb {
        r: clamp8(red_q8(y, cr) / 256),
        g: clamp8(green_q8(y, cb, cr) / 256),
        b: clamp8(blue_q8(y, cb) / 256),
    }
}

/// The Q7 sums of the three channels: coefficients at half scale.
pub open spec fn red_q7(y: u8, cr: u8) -> int {
    149 * (y - 16) + 204 * (cr - 128) + 64
}

pub open spec fn green_q7(y: u8, cb: u8, cr: u8) -> int {
    149 * (y - 16) - 104 * (cr - 128) - 50 * (cb - 128) + 64
}

pub open spec fn blue_q7(y: u8, cb: u8) -> int {
    149 * (y - 16) + 258 * (cb - 128) + 64
}

/// BT.601 at half scale in 16-bit lanes: every sum wraps at 16 bits.
pub open spec fn bt601_int16(y: u8, cb: u8, cr: u8) -> Rgb {
    Rgb {
        r: clamp8(wrap16(red_q7(y, cr)) / 128),
        g: clamp8(wrap16(green_q7(y, cb, cr)) / 128),
        b: clamp8(wrap16(blue_q7(y, cb)) / 128),
    }
}

/// An NV12 picture in memory: both planes with their row strides.
pub struct Nv12<'a> {
    pub y: &'a [u8],
    pub y_stride: usize,
    pub uv: &'a [u8],
    pub uv_stride: usize,
}

/// A chroma plane of `len` bytes goes as far as the chroma row `row` of a
/// picture that is `w` pixels wide.
pub open spec fn has_chroma_row(len: int, stride: int, w: int, row: int) -> bool {
    row * stride + ((w - 1) / 2) * 2 + 2 <= len
}

/// How many bytes of chroma a picture of `w` by `h` pixels needs: one row for
/// every two whole rows of luma.
pub open spec fn chroma_bytes(w: int, h: int, stride: int) -> int {
    if h < 2 {
        0
    } else {
        (h / 2 - 1) * stride + (((w - 1) / 2) * 2 + 2)
    }
}

/// The chroma row that serves the luma row `row`: each serves two, and where
/// the plane ends before the row of the last luma row, the one before it does.
pub open spec fn chroma_row(len: int, stride: int, w: int, row: int) -> int {
    if has_chroma_row(len, stride, w, row / 2) {
        row / 2
    } else {
        row / 2 - 1
    }
}

/// The chroma sample for the pixel at `row` and `col`: `k` is 0 for Cb, 1 for
/// Cr.  Without any row the chroma is neutral.
pub open spec fn chroma(uv: Seq<u8>, stride: int, w: int, row: int, col: int, k: int) -> u8 {
    let at = chroma_row(uv.len() as int, stride, w, row);
    if at < 0 {
        128
    } else {
        uv[at * stride + (col / 2) * 2 + k]
    }
}

impl<'a> Nv12<'a> {
    /// The planes hold the samples of a picture of `w` by `h` pixels.  Chroma
    /// has at least one row for every two whole rows of luma.
    pub open spec fn holds(self, w: usize, h: usize) -> bool {
        w > 0 && h > 0 ==> {
            &&& (h - 1) * self.y_stride + w <= self.y@.len()
            &&& chroma_bytes(w as int, h as int, self.uv_stride as int) <= self.uv@.len()
        }
    }

    pub open spec fn luma(self, row: int, col: int) -> u8 {
        self.y@[row * self.y_stride + col]
    }

    pub open spec fn cb(self, w: int, row: int, col: int) -> u8 {
        chroma(self.uv@, self.uv_stride as int, w, row, col, 0)
    }

    pub open spec fn cr(self, w: int, row: int, col: int) -> u8 {
        chroma(self.uv@, self.uv_stride as int, w, row, col, 1)
    }

    /// The pixel at `row` and `col` of a picture that is `w` pixels wide.
    pub open spec fn pixel(self, w: int, row: int, col: int) -> Rgb {
        bt601(self.luma(row, col), self.cb(w, row, col), self.cr(w, row, col))
    }

    /// The pixel at `row` and `col` where whole groups of eight columns go
    /// through 16-bit lanes.
    pub open spec fn pixel_int16(self, w: int, row: int, col: int) -> Rgb {
        if col < (w / 8) * 8 {
            bt601_int16(self.luma(row, col), self.cb(w, row, col), self.cr(w, row, col))
        } else {
            self.pixel(w, row, col)
        }
    }

    /// The picture as packed RGB.
    pub open spec fn image(self, w: int, h: int) -> Seq<u8> {
        packed(w, h, |row: int, col: int| self.pixel(w, row, col))
    }

    /// The picture as packed RGB through 16-bit lanes.
    pub open spec fn image_int16(self, w: int, h: int) -> Seq<u8> {
        packed(w, h, |row: int, col: int| self.pixel_int16(w, row, col))
    }

    fn sample(&self, w: usize, h: usize, row: usize, col: usize) -> (s: (u8, u8, u8))
        requires
            self.holds(w, h),
            row < h,
            col < w,
        ensures
            s == (
                self.luma(row as int, col as int),
                self.cb(w as int, row as int, col as int),
                self.cr(w as int, row as int, col as int),
            ),
    {
        let y_len = self.y.len();
        let uv_len = self.uv.len();
        proof {
            lemma_offset(row as int, self.y_stride as int, col as int, h as int, w as int);
        }
        let y = self.y[row * self.y_stride + col];
        let mut at: usize = row / 2;
        if row + 1 == h && row % 2 == 0 {
            // The last row of an odd height may have no chroma of its own.
            let reach: Option<usize> = match ((w - 1) / 2 * 2).checked_add(2) {
                Some(pairs) => span(at, self.uv_stride, pairs),
                None => None,
            };
            proof {
                assert(0 <= at * self.uv_stride) by (nonlinear_arith)
                    requires
                        at >= 0,
                        self.uv_stride >= 0,
                ;
            }
            let there = match reach {
                Some(reach) => reach <= uv_len,
                None => false,
            };
            assert(there == has_chroma_row(
                uv_len as int,
                self.uv_stride as int,
                w as int,
                at as int,
            ));
            if !there {
                if at == 0 {
                    return (y, 128, 128);
                }
                at = at - 1;
            }
        } else {
            proof {
                lemma_offset(at as int, self.uv_stride as int, 0, (h / 2) as int, 1);
            }
        }
        proof {
            assert(has_chroma_row(uv_len as int, self.uv_stride as int, w as int, at as int));
            assert(0 <= at * self.uv_stride) by (nonlinear_arith)
                requires
                    at >= 0,
                    self.uv_stride >= 0,
            ;
        }
        let pair: usize = at * self.uv_stride + (col / 2) * 2;
        (y, self.uv[pair], self.uv[pair + 1])
    }
}

/// A BGRA picture in memory.
pub struct Bgra<'a> {
    pub data: &'a [u8],
    pub stride: usize,
}

impl<'a> Bgra<'a> {
    /// The data hold every colour byte of a picture of `w` by `h` pixels.
    pub open spec fn holds(self, w: usize, h: usize) -> bool {
        w > 0 && h > 0 ==> (h - 1) * self.stride + (w - 1) * 4 + 3 <= self.data@.len()
    }

    /// The pixel at `row` and `col`.
    pub open spec fn pixel(self, row: int, col: int) -> Rgb {
        let at = row * self.stride + col * 4;
        Rgb { r: self.data@[at + 2], g: self.data@[at + 1], b: self.data@[at] }
    }

    /// The picture as packed RGB.
    pub open spec fn image(self, w: int, h: int) -> Seq<u8> {
        packed(w, h, |row: int, col: int| self.pixel(row, col))
    }
}

/// `w * h` pixels, row by row, three bytes each.
pub open spec fn packed(w: int, h: int, pixel: spec_fn(int, int) -> Rgb) -> Seq<u8> {
    Seq::new(
        (w * h * 3) as nat,
        |i: int| pixel((i / 3) / w, (i / 3) % w).channel(i % 3),
    )
}

/// The picture that luma bytes and chroma bytes with these strides make up,
/// as packed RGB.
pub open spec fn nv12_image(
    y: Seq<u8>,
    y_stride: int,
    uv: Seq<u8>,
    uv_stride: int,
    w: int,
    h: int,
) -> Seq<u8> {
    packed(
        w,
        h,
        |row: int, col: int|
            bt601(
                y[row * y_stride + col],
                chroma(uv, uv_stride, w, row, col, 0),
                chroma(uv, uv_stride, w, row, col, 1),
            ),
    )
}

/// A number of chroma bytes is never negative.
pub proof fn lemma_chroma_bytes(w: int, h: int, stride: int)
    requires
        w > 0,
        stride >= 0,
    ensures
        chroma_bytes(w, h, stride) >= 0,
{
    if h >= 2 {
        assert(0 <= (h / 2 - 1) * stride) by (nonlinear_arith)
            requires
                h >= 2,
                stride >= 0,
        ;
    }
}

/// Where the chroma plane goes as far as the row of the last luma row, every
/// luma row is served by its own.
pub proof fn lemma_chroma_row_is_its_own(len: int, stride: int, w: int, h: int, row: int)
    requires
        stride >= 0,
        0 <= row < h,
        has_chroma_row(len, stride, w, (h - 1) / 2),
    ensures
        chroma_row(len, stride, w, row) == row / 2,
{
    assert((row / 2) * stride <= ((h - 1) / 2) * stride) by (nonlinear_arith)
        requires
            0 <= row / 2 <= (h - 1) / 2,
            stride >= 0,
    ;
}

/// No sample outside the plane is taken: a plane of one chroma row for every
/// two whole rows of luma is enough, for an odd height too.
pub proof fn lemma_chroma_stays_inside(len: int, stride: int, w: int, h: int, row: int, col: int)
    requires
        stride >= w + w % 2,
        len >= stride * (h / 2),
        0 <= row < h,
        0 <= col < w,
    ensures
        ({
            let at = chroma_row(len, stride, w, row);
            at < 0 || at * stride + (col / 2) * 2 + 1 < len
        }),
{
    let at = chroma_row(len, stride, w, row);
    if at >= 0 && !has_chroma_row(len, stride, w, at) {
        assert(at * stride + stride <= stride * (h / 2)) by (nonlinear_arith)
            requires
                0 <= at < h / 2,
                stride >= 0,
        ;
    }
}

/// The image of a picture depends on nothing but its bytes and strides.
pub proof fn lemma_image_of_bytes(picture: Nv12, w: int, h: int)
    ensures
        picture.image(w, h) == nv12_image(
            picture.y@,
            picture.y_stride as int,
            picture.uv@,
            picture.uv_stride as int,
            w,
            h,
        ),
{
    assert(picture.image(w, h) =~= nv12_image(
        picture.y@,
        picture.y_stride as int,
        picture.uv@,
        picture.uv_stride as int,
        w,
        h,
    ));
}

/// The first `n` pixels of `after` are those of `image`; the rest is that of `before`.
spec fn filled(after: Seq<u8>, before: Seq<u8>, image: Seq<u8>, n: int) -> bool {
    &&& after.len() == before.len()
    &&& forall|i: int| 0 <= i < n * 3 ==> #[trigger] after[i] == image[i]
    &&& forall|i: int| n * 3 <= i < after.len() ==> #[trigger] after[i] == before[i]
}

proof fn lemma_offset(row: int, stride: int, col: int, rows: int, cols: int)
    requires
        0 <= row < rows,
        0 <= stride,
        0 <= col < cols,
    ensures
        row * stride + col < (rows - 1) * stride + cols,
        0 <= row * stride <= (rows - 1) * stride,
{
    assert(0 <= row * stride <= (rows - 1) * stride) by (nonlinear_arith)
        requires
            0 <= row < rows,
            0 <= stride,
    ;
}

proof fn lemma_pixel_index(row: int, col: int, w: int, h: int)
    requires
        0 <= row < h,
        0 <= col < w,
    ensures
        (row * w + col) / w == row,
        (row * w + col) % w == col,
        0 <= row * w,
        row * w + col + 1 <= w * h,
        (row + 1) * w == row * w + w,
{
    vstd::arithmetic::div_mod::lemma_fundamental_div_mod_converse(row * w + col, w, row, col);
    assert(0 <= row * w && row * w + col + 1 <= w * h && (row + 1) * w == row * w + w)
        by (nonlinear_arith)
        requires
            0 <= row < h,
            0 <= col < w,
    ;
}

proof fn lemma_store_pixel(
    before: Seq<u8>,
    mid: Seq<u8>,
    w: int,
    h: int,
    pixel: spec_fn(int, int) -> Rgb,
    row: int,
    col: int,
    value: Rgb,
)
    requires
        0 <= row < h,
        0 <= col < w,
        w * h * 3 <= before.len(),
        filled(mid, before, packed(w, h, pixel), row * w + col),
        value == pixel(row, col),
    ensures
        ({
            let at = (row * w + col) * 3;
            filled(
                mid.update(at, value.r).update(at + 1, value.g).update(at + 2, value.b),
                before,
                packed(w, h, pixel),
                row * w + col + 1,
            )
        }),
{
    let p = row * w + col;
    lemma_pixel_index(row, col, w, h);
    let image = packed(w, h, pixel);
    let after = mid.update(p * 3, value.r).update(p * 3 + 1, value.g).update(p * 3 + 2, value.b);
    assert forall|i: int| 0 <= i < (p + 1) * 3 implies #[trigger] after[i] == image[i] by {
        if i < p * 3 {
            assert(mid[i] == image[i]);
        } else {
            assert(i / 3 == p);
        }
    }
    assert forall|i: int| (p + 1) * 3 <= i < after.len() implies #[trigger] after[i]
        == before[i] by {
        assert(mid[i] == before[i]);
    }
}

fn narrow_q8(v: i32) -> (r: u8)
    ensures
        r == clamp8(v as int / 256),
{
    if v < 0 {
        0
    } else if v >= 0x1_0000 {
        255
    } else {
        (v / 256) as u8
    }
}

fn narrow_q7_int16(v: i32) -> (r: u8)
    requires
        -0x10_0000 <= v <= 0x10_0000,
    ensures
        r == clamp8(wrap16(v as int) / 128),
{
    let wrapped: i32 = (v + 0x10_8000) % 0x1_0000 - 0x8000;
    assert(wrapped == wrap16(v as int));
    if wrapped < 0 {
        0
    } else {
        let scaled: i32 = wrapped / 128;
        if scaled > 255 {
            255
        } else {
            scaled as u8
        }
    }
}

/// One pixel from its three samples.
pub fn bt601_pixel(y: u8, cb: u8, cr: u8) -> (pixel: Rgb)
    ensures
        pixel == bt601(y, cb, cr),
        within_a_step(pixel.r, 1164 * (y - 16) + 1596 * (cr - 128)),
        within_a_step(pixel.g, 1164 * (y - 16) - 813 * (cr - 128) - 391 * (cb - 128)),
        within_a_step(pixel.b, 1164 * (y - 16) + 2018 * (cb - 128)),
{
    let c: i32 = 298 * (y as i32 - 16);
    let u: i32 = cb as i32 - 128;
    let v: i32 = cr as i32 - 128;
    Rgb {
        r: narrow_q8(c + 409 * v + 128),
        g: narrow_q8(c - 208 * v - 100 * u + 128),
        b: narrow_q8(c + 516 * u + 128),
    }
}

/// One pixel from its three samples, at half scale in 16-bit lanes.
pub fn bt601_pixel_int16(y: u8, cb: u8, cr: u8) -> (pixel: Rgb)
    ensures
        pixel == bt601_int16(y, cb, cr),
{
    let c: i32 = 149 * (y as i32 - 16);
    let u: i32 = cb as i32 - 128;
    let v: i32 = cr as i32 - 128;
    Rgb {
        r: narrow_q7_int16(c + 204 * v + 64),
        g: narrow_q7_int16(c - 104 * v - 50 * u + 64),
        b: narrow_q7_int16(c + 258 * u + 64),
    }
}

fn store_pixel(rgb: &mut [u8], at: usize, pixel: &Rgb)
    requires
        at + 3 <= old(rgb)@.len(),
    ensures
        final(rgb)@ == old(rgb)@.update(at as int, pixel.r).update(at + 1, pixel.g).update(
            at + 2,
            pixel.b,
        ),
{
    rgb[at] = pixel.r;
    rgb[at + 1] = pixel.g;
    rgb[at + 2] = pixel.b;
}

/// A picture that can be read pixel by pixel.
trait Picture {
    spec fn covers(&self, w: usize, h: usize) -> bool;

    spec fn pixel_at(&self, w: int, row: int, col: int) -> Rgb;

    fn load(&self, w: usize, h: usize, row: usize, col: usize) -> (pixel: Rgb)
        requires
            self.covers(w, h),
            row < h,
            col < w,
        ensures
            pixel == self.pixel_at(w as int, row as int, col as int),
    ;
}

impl<'a> Picture for Nv12<'a> {
    closed spec fn covers(&self, w: usize, h: usize) -> bool {
        self.holds(w, h)
    }

    closed spec fn pixel_at(&self, w: int, row: int, col: int) -> Rgb {
        self.pixel(w, row, col)
    }

    fn load(&self, w: usize, h: usize, row: usize, col: usize) -> (pixel: Rgb) {
        let (y, cb, cr) = self.sample(w, h, row, col);
        bt601_pixel(y, cb, cr)
    }
}

/// An NV12 picture whose full groups of eight columns go through 16-bit
/// lanes.
struct Int16Lanes<'a, 'b> {
    picture: &'b Nv12<'a>,
}

impl<'a, 'b> Picture for Int16Lanes<'a, 'b> {
    closed spec fn covers(&self, w: usize, h: usize) -> bool {
        self.picture.holds(w, h)
    }

    closed spec fn pixel_at(&self, w: int, row: int, col: int) -> Rgb {
        self.picture.pixel_int16(w, row, col)
    }

    fn load(&self, w: usize, h: usize, row: usize, col: usize) -> (pixel: Rgb) {
        let (y, cb, cr) = self.picture.sample(w, h, row, col);
        if col < (w / 8) * 8 {
            bt601_pixel_int16(y, cb, cr)
        } else {
            bt601_pixel(y, cb, cr)
        }
    }
}

impl<'a> Picture for Bgra<'a> {
    closed spec fn covers(&self, w: usize, h: usize) -> bool {
        self.holds(w, h)
    }

    closed spec fn pixel_at(&self, w: int, row: int, col: int) -> Rgb {
        self.pixel(row, col)
    }

    fn load(&self, w: usize, h: usize, row: usize, col: usize) -> (pixel: Rgb) {
        let len = self.data.len();
        proof {
            lemma_offset(row as int, self.stride as int, col * 4 + 2, h as int, (w - 1) * 4 + 3);
        }
        let at: usize = row * self.stride + col * 4;
        Rgb { r: self.data[at + 2], g: self.data[at + 1], b: self.data[at] }
    }
}

fn convert<P: Picture>(picture: &P, w: usize, h: usize, rgb: &mut [u8])
    requires
        picture.covers(w, h),
        w * h * 3 <= old(rgb)@.len(),
    ensures
        final(rgb)@ == packed(
            w as int,
            h as int,
            |row: int, col: int| picture.pixel_at(w as int, row, col),
        ) + old(rgb)@.skip(w * h * 3),
{
    let len = rgb.len();
    let ghost before = rgb@;
    let ghost pixel = |row: int, col: int| picture.pixel_at(w as int, row, col);
    let ghost image = packed(w as int, h as int, pixel);
    let mut row: usize = 0;
    assert(0 <= w * h) by (nonlinear_arith);
    assert(0 * w == 0) by (nonlinear_arith);
    while row < h
        invariant
            row <= h,
            picture.covers(w, h),
            len == before.len(),
            w * h * 3 <= len,
            pixel == (|row: int, col: int| picture.pixel_at(w as int, row, col)),
            image == packed(w as int, h as int, pixel),
            filled(rgb@, before, image, row * w),
        decreases h - row,
    {
        let mut col: usize = 0;
        while col < w
            invariant
                row < h,
                col <= w,
                picture.covers(w, h),
                len == before.len(),
                w * h * 3 <= len,
                pixel == (|row: int, col: int| picture.pixel_at(w as int, row, col)),
                image == packed(w as int, h as int, pixel),
                filled(rgb@, before, image, row * w + col),
            decreases w - col,
        {
            proof {
                lemma_pixel_index(row as int, col as int, w as int, h as int);
            }
            let value = picture.load(w, h, row, col);
            let ghost mid = rgb@;
            store_pixel(rgb, (row * w + col) * 3, &value);
            proof {
                lemma_store_pixel(
                    before,
                    mid,
                    w as int,
                    h as int,
                    pixel,
                    row as int,
                    col as int,
                    value,
                );
            }
            col += 1;
        }
        assert((row + 1) * w == row * w + w) by (nonlinear_arith);
        row += 1;
    }
    assert(h * w == w * h) by (nonlinear_arith);
    assert(rgb@ =~= image + before.skip(w * h * 3));
}

/// Converts NV12 to packed RGB8 with BT.601 limited-range coefficients.
///
/// The first `w * h * 3` bytes of `rgb` receive the picture; the rest stays.
pub fn nv12_to_rgb8(picture: &Nv12, w: usize, h: usize, rgb: &mut [u8])
    requires
        picture.holds(w, h),
        w * h * 3 <= old(rgb)@.len(),
    ensures
        final(rgb)@ == picture.image(w as int, h as int) + old(rgb)@.skip(w * h * 3),
{
    convert(picture, w, h, rgb);
    assert(packed(w as int, h as int, |row: int, col: int| picture.pixel_at(w as int, row, col))
        =~= picture.image(w as int, h as int));
}

/// Converts NV12 to packed RGB8 with coefficients at half scale in 16-bit
/// lanes, eight columns at a time; the columns that remain take the Q8 path.
///
/// A sum beyond 16 bits wraps, so bright and strongly coloured samples can
/// come out dark: `lemma_int16_close` says where the result is accurate.
pub fn nv12_bt601_to_rgb_sse2(picture: &Nv12, w: usize, h: usize, rgb: &mut [u8])
    requires
        picture.holds(w, h),
        w * h * 3 <= old(rgb)@.len(),
    ensures
        final(rgb)@ == picture.image_int16(w as int, h as int) + old(rgb)@.skip(w * h * 3),
{
    let lanes = Int16Lanes { picture };
    convert(&lanes, w, h, rgb);
    assert(packed(w as int, h as int, |row: int, col: int| lanes.pixel_at(w as int, row, col))
        =~= picture.image_int16(w as int, h as int));
}

/// Converts BGRA to packed RGB8, dropping the alpha byte.
///
/// The first `w * h * 3` bytes of `rgb` receive the picture; the rest stays.
pub fn bgra_to_rgb(picture: &Bgra, w: usize, h: usize, rgb: &mut [u8])
    requires
        picture.holds(w, h),
        w * h * 3 <= old(rgb)@.len(),
    ensures
        final(rgb)@ == picture.image(w as int, h as int) + old(rgb)@.skip(w * h * 3),
{
    convert(picture, w, h, rgb);
    assert(packed(w as int, h as int, |row: int, col: int| picture.pixel_at(w as int, row, col))
        =~= picture.image(w as int, h as int));
}

/// `a * b + c`, where it fits.
fn span(a: usize, b: usize, c: usize) -> (r: Option<usize>)
    ensures
        match r {
            Some(n) => n == a * b + c,
            None => a * b + c > usize::MAX,
        },
{
    match a.checked_mul(b) {
        Some(product) => product.checked_add(c),
        None => None,
    }
}

/// How many bytes of the luma and of the chroma plane a picture of `w` by
/// `h` pixels needs.
pub fn nv12_extent(w: usize, h: usize, y_stride: usize, uv_stride: usize) -> (r: Option<
    (usize, usize),
>)
    ensures
        w == 0 || h == 0 ==> r == Some((0usize, 0usize)),
        w > 0 && h > 0 ==> {
            let y_len = (h - 1) * y_stride + w;
            let uv_len = chroma_bytes(w as int, h as int, uv_stride as int);
            match r {
                Some((y, uv)) => y == y_len && uv == uv_len,
                None => y_len > usize::MAX || uv_len > usize::MAX,
            }
        },
{
    if w == 0 || h == 0 {
        return Some((0, 0));
    }
    let y: usize = match span(h - 1, y_stride, w) {
        Some(y) => y,
        None => {
            return None;
        },
    };
    if h < 2 {
        return Some((y, 0));
    }
    let pairs: usize = (w - 1) / 2 * 2;
    match pairs.checked_add(2) {
        Some(row) => match span(h / 2 - 1, uv_stride, row) {
            Some(uv) => Some((y, uv)),
            None => None,
        },
        None => {
            assert((h / 2 - 1) * uv_stride >= 0) by (nonlinear_arith)
                requires
                    h >= 2,
                    uv_stride >= 0,
            ;
            None
        },
    }
}

/// How many bytes a BGRA picture of `w` by `h` pixels takes up.
pub fn bgra_extent(w: usize, h: usize, stride: usize) -> (r: Option<usize>)
    ensures
        w == 0 || h == 0 ==> r == Some(0usize),
        w > 0 && h > 0 ==> {
            let len = (h - 1) * stride + ((w - 1) * 4 + 3);
            match r {
                Some(n) => n == len,
                None => len > usize::MAX,
            }
        },
{
    if w == 0 || h == 0 {
        return Some(0);
    }
    match span(w - 1, 4, 3) {
        Some(row) => span(h - 1, stride, row),
        None => {
            assert((h - 1) * stride >= 0) by (nonlinear_arith)
                requires
                    h >= 1,
                    stride >= 0,
            ;
            None
        },
    }
}

/// An NV12 picture as a frame.
pub fn nv12_frame(
    picture: &Nv12,
    w: usize,
    h: usize,
    timestamp_us: u64,
    keyframe: bool,
) -> (frame: DecodedFrame)
    requires
        picture.holds(w, h),
        w * h * 3 <= usize::MAX,
    ensures
        frame.is_rgb8(w, h, picture.image(w as int, h as int), timestamp_us, keyframe),
{
    let size: usize = frame_size(w, h);
    let mut rgb: Vec<u8> = vec![0u8; size];
    nv12_to_rgb8(picture, w, h, &mut rgb);
    assert(rgb@ =~= picture.image(w as int, h as int));
    DecodedFrame::rgb8(w, h, rgb, timestamp_us, keyframe)
}

/// A BGRA picture as a frame.
pub fn bgra_frame(
    picture: &Bgra,
    w: usize,
    h: usize,
    timestamp_us: u64,
    keyframe: bool,
) -> (frame: DecodedFrame)
    requires
        picture.holds(w, h),
        w * h * 3 <= usize::MAX,
    ensures
        frame.is_rgb8(w, h, picture.image(w as int, h as int), timestamp_us, keyframe),
{
    let size: usize = frame_size(w, h);
    let mut rgb: Vec<u8> = vec![0u8; size];
    bgra_to_rgb(picture, w, h, &mut rgb);
    assert(rgb@ =~= picture.image(w as int, h as int));
    DecodedFrame::rgb8(w, h, rgb, timestamp_us, keyframe)
}

/// How many bytes the packed RGB picture takes up.
fn frame_size(w: usize, h: usize) -> (size: usize)
    requires
        w * h * 3 <= usize::MAX,
    ensures
        size == w * h * 3,
{
    assert(w * h <= w * h * 3) by (nonlinear_arith)
        requires
            w >= 0,
            h >= 0,
    ;
    w * h * 3
}

/// Samples without colour give grey: with both chroma samples at their
/// neutral value the three channels agree.
pub proof fn lemma_neutral_chroma_is_grey(y: u8)
    ensures
        bt601(y, 128, 128).r == bt601(y, 128, 128).g,
        bt601(y, 128, 128).g == bt601(y, 128, 128).b,
{
}

/// The ends of the limited range are black and white.
pub proof fn lemma_limited_range(y: u8)
    ensures
        y <= 16 ==> bt601(y, 128, 128) == (Rgb { r: 0, g: 0, b: 0 }),
        y >= 235 ==> bt601(y, 128, 128) == (Rgb { r: 255, g: 255, b: 255 }),
{
}

/// More luma never darkens a channel.
pub proof fn lemma_brighter_luma(y1: u8, y2: u8, cb: u8, cr: u8)
    requires
        y1 <= y2,
    ensures
        bt601(y1, cb, cr).r <= bt601(y2, cb, cr).r,
        bt601(y1, cb, cr).g <= bt601(y2, cb, cr).g,
        bt601(y1, cb, cr).b <= bt601(y2, cb, cr).b,
{
}

proof fn lemma_wrap16_inside(v: int)
    requires
        -0x8000 <= v <= 0x7fff,
    ensures
        wrap16(v) == v,
{
}

proof fn lemma_half_scale(v: int, d: int)
    requires
        -128 <= d <= 128,
    ensures
        (2 * v) / 256 == v / 128,
        -1 <= (2 * v + d) / 256 - v / 128 <= 1,
{
}

/// Where no half-scale sum leaves 16 bits, the lanes give the same green and
/// blue as the Q8 path and a red that is at most one step away.
pub proof fn lemma_int16_close(y: u8, cb: u8, cr: u8)
    requires
        red_q7(y, cr) <= 0x7fff,
        green_q7(y, cb, cr) <= 0x7fff,
        -0x8000 <= blue_q7(y, cb) <= 0x7fff,
    ensures
        bt601_int16(y, cb, cr).g == bt601(y, cb, cr).g,
        bt601_int16(y, cb, cr).b == bt601(y, cb, cr).b,
        -1 <= bt601_int16(y, cb, cr).r - bt601(y, cb, cr).r <= 1,
{
    let r = red_q7(y, cr);
    let g = green_q7(y, cb, cr);
    let b = blue_q7(y, cb);
    lemma_wrap16_inside(r);
    lemma_wrap16_inside(g);
    lemma_wrap16_inside(b);
    assert(red_q8(y, cr) == 2 * r + (cr - 128));
    assert(green_q8(y, cb, cr) == 2 * g);
    assert(blue_q8(y, cb) == 2 * b);
    lemma_half_scale(r, cr - 128);
    lemma_half_scale(g, 0);
    lemma_half_scale(b, 0);
}

/// Every byte of a converted picture is a channel of its pixel.
pub proof fn lemma_packed_byte(w: int, h: int, pixel: spec_fn(int, int) -> Rgb, row: int, col: int, k: int)
    requires
        0 <= row < h,
        0 <= col < w,
        0 <= k < 3,
    ensures
        0 <= (row * w + col) * 3 + k < packed(w, h, pixel).len(),
        packed(w, h, pixel)[(row * w + col) * 3 + k] == pixel(row, col).channel(k),
{
    lemma_pixel_index(row, col, w, h);
    assert(((row * w + col) * 3 + k) / 3 == row * w + col);
}

} // verus!
