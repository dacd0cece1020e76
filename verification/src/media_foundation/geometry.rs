//! The size and the layout of pictures: what the output type says of them,
//! and where they lie in a buffer.

use vstd::prelude::*;

use vstd::slice::slice_subrange;

use crate::color::{
    bt601, chroma, chroma_bytes, has_chroma_row, lemma_chroma_bytes, lemma_chroma_row_is_its_own,
    lemma_image_of_bytes, nv12_extent, nv12_frame, nv12_image, Nv12, Rgb,
};
use crate::media::DecodedFrame;
use crate::media_foundation::com::S_OK;
use crate::media_foundation::decoder::MediaFoundationDecoder;
use crate::media_foundation::types::{size_height, size_width, unpack_size};

verus! {

/// The 16-bit number at `at`, low byte first.
pub open spec fn le16(bytes: Seq<u8>, at: int) -> int {
    bytes[at] + bytes[at + 1] * 0x100
}

/// The 32-bit number at `at`, low byte first.
pub open spec fn le32(bytes: Seq<u8>, at: int) -> int {
    le16(bytes, at) + le16(bytes, at + 2) * 0x1_0000
}

/// A 16-bit two's complement pattern extended to 32 bits.
pub open spec fn extend16(v: int) -> int {
    if v >= 0x8000 {
        v + 0xffff_0000
    } else {
        v
    }
}

/// The part of a picture that is meant to be seen.
#[derive(Debug, Clone, Copy, PartialEq, Eq, Structural)]
pub struct Aperture {
    pub x: u32,
    pub y: u32,
    pub width: u32,
    pub height: u32,
}

impl Aperture {
    /// The aperture is the one that the bytes of an attribute hold: both
    /// offsets as fixed-point numbers of which the integer part counts, and
    /// the size.
    pub open spec fn is_read_from(self, bytes: Seq<u8>) -> bool {
        &&& self.x == extend16(le16(bytes, 2))
        &&& self.y == extend16(le16(bytes, 6))
        &&& self.width == le32(bytes, 8)
        &&& self.height == le32(bytes, 12)
    }

    /// The aperture has an area, no larger than the coded picture.
    pub open spec fn fits(self, coded_w: int, coded_h: int) -> bool {
        0 < self.width <= coded_w && 0 < self.height <= coded_h
    }
}

/// Whether the output type says a size, so that it is asked for its aperture.
pub fn says_size(frame_size: Option<u64>) -> (says: bool)
    ensures
        says == (frame_size matches Some(size) && size_width(size) > 0 && size_height(size) > 0),
{
    match frame_size {
        Some(size) => {
            let (w, h) = unpack_size(size);
            w > 0 && h > 0
        },
        None => false,
    }
}

/// Whether the attribute with the aperture can be read, from what asking for
/// it gave.
pub fn has_aperture(hr: i32, address: usize, len: u32) -> (has: bool)
    ensures
        has == (hr == S_OK && address != 0 && len >= 16),
{
    hr == S_OK && address != 0 && len >= 16
}

fn read_le16(bytes: &[u8], at: usize) -> (v: u32)
    requires
        at + 2 <= bytes@.len(),
    ensures
        v == le16(bytes@, at as int),
        v < 0x1_0000,
{
    let len = bytes.len();
    bytes[at] as u32 + bytes[at + 1] as u32 * 0x100
}

/// Reads the aperture from the bytes of the attribute.
pub fn read_aperture(bytes: &[u8]) -> (aperture: Aperture)
    requires
        bytes@.len() >= 16,
    ensures
        aperture.is_read_from(bytes@),
        bytes@[3] < 0x80 ==> aperture.x == bytes@[2] + 256 * bytes@[3],
        bytes@[3] >= 0x80 ==> aperture.x == bytes@[2] + 256 * bytes@[3] + 0xffff_0000,
        bytes@[7] < 0x80 ==> aperture.y == bytes@[6] + 256 * bytes@[7],
        bytes@[7] >= 0x80 ==> aperture.y == bytes@[6] + 256 * bytes@[7] + 0xffff_0000,
        aperture.width == bytes@[8] + 256 * bytes@[9] + 65536 * bytes@[10] + 16777216 * bytes@[11],
        aperture.height == bytes@[12] + 256 * bytes@[13] + 65536 * bytes@[14] + 16777216
            * bytes@[15],
{
    let x: u32 = read_le16(bytes, 2);
    let y: u32 = read_le16(bytes, 6);
    Aperture {
        x: if x >= 0x8000 {
            x + 0xffff_0000
        } else {
            x
        },
        y: if y >= 0x8000 {
            y + 0xffff_0000
        } else {
            y
        },
        width: read_le16(bytes, 8) + read_le16(bytes, 10) * 0x1_0000,
        height: read_le16(bytes, 12) + read_le16(bytes, 14) * 0x1_0000,
    }
}

/// Where a picture lies in a buffer: the offsets of its first luma and chroma
/// byte, one stride for both planes.
#[derive(Debug, Clone, Copy, PartialEq, Eq, Structural)]
pub struct Window {
    pub width: usize,
    pub height: usize,
    pub stride: usize,
    pub y_offset: usize,
    pub uv_offset: usize,
}

/// The offset of the first luma byte.
pub open spec fn luma_offset(stride: int, crop_x: int, crop_y: int) -> int {
    crop_y * stride + crop_x
}

/// The offset of the first chroma byte, in the plane behind `coded_h` rows of
/// luma; chroma pairs are not split.
pub open spec fn chroma_offset(stride: int, coded_h: int, crop_x: int, crop_y: int) -> int {
    stride * coded_h + (crop_y / 2) * stride + (crop_x / 2) * 2
}

impl Window {
    /// How many bytes from the start of the buffer the picture needs.
    pub open spec fn bytes(self) -> int {
        if self.width == 0 || self.height == 0 {
            0
        } else {
            let y_end = self.y_offset + (self.height - 1) * self.stride + self.width;
            let uv_end = self.uv_offset + chroma_bytes(
                self.width as int,
                self.height as int,
                self.stride as int,
            );
            if y_end < uv_end {
                uv_end
            } else {
                y_end
            }
        }
    }

    /// The picture in a buffer, as packed RGB.
    pub open spec fn image(self, buffer: Seq<u8>) -> Seq<u8> {
        nv12_image(
            buffer.skip(self.y_offset as int),
            self.stride as int,
            buffer.skip(self.uv_offset as int),
            self.stride as int,
            self.width as int,
            self.height as int,
        )
    }

    /// How many bytes from the start of the buffer the picture needs, where
    /// that fits.
    pub fn extent(&self) -> (r: Option<usize>)
        ensures
            match r {
                Some(n) => n == self.bytes(),
                None => self.bytes() > usize::MAX,
            },
    {
        if self.width == 0 || self.height == 0 {
            return Some(0);
        }
        proof {
            assert(0 <= (self.height - 1) * self.stride) by (nonlinear_arith)
                requires
                    self.height >= 1,
                    self.stride >= 0,
            ;
            lemma_chroma_bytes(self.width as int, self.height as int, self.stride as int);
        }
        match nv12_extent(self.width, self.height, self.stride, self.stride) {
            Some((y, uv)) => match (self.y_offset.checked_add(y), self.uv_offset.checked_add(uv)) {
                (Some(y_end), Some(uv_end)) => Some(
                    if y_end < uv_end {
                        uv_end
                    } else {
                        y_end
                    },
                ),
                _ => None,
            },
            None => None,
        }
    }

    /// The picture in a buffer as a frame.
    pub fn frame(&self, buffer: &[u8], timestamp_us: u64) -> (frame: DecodedFrame)
        requires
            self.bytes() <= buffer@.len(),
            self.y_offset <= buffer@.len(),
            self.uv_offset <= buffer@.len(),
            self.width * self.height * 3 <= usize::MAX,
        ensures
            frame.is_rgb8(self.width, self.height, self.image(buffer@), timestamp_us, false),
    {
        let len = buffer.len();
        let y = slice_subrange(buffer, self.y_offset, len);
        let uv = slice_subrange(buffer, self.uv_offset, len);
        assert(y@ =~= buffer@.skip(self.y_offset as int));
        assert(uv@ =~= buffer@.skip(self.uv_offset as int));
        let picture = Nv12 { y, y_stride: self.stride, uv, uv_stride: self.stride };
        proof {
            lemma_image_of_bytes(picture, self.width as int, self.height as int);
        }
        nv12_frame(&picture, self.width, self.height, timestamp_us, false)
    }
}

fn scaled(a: usize, b: usize, c: usize) -> (r: Option<usize>)
    ensures
        match r {
            Some(n) => n == a * b + c,
            None => a * b + c > usize::MAX,
        },
{
    match a.checked_mul(b) {
        Some(product) => product.checked_add(c),
        None => None,
    }
}

impl<S> MediaFoundationDecoder<S> {
    /// The size of a picture is not known.
    pub open spec fn size_unknown(self) -> bool {
        self.width == 0 || self.height == 0
    }

    /// The state follows `before` by what the current output type says: its
    /// frame size where it says one, and the aperture where it has one.  What
    /// is known already stays, except that an aperture inside the coded
    /// picture sets the window.
    pub open spec fn resolves(
        self,
        before: Self,
        frame_size: Option<u64>,
        aperture: Option<Aperture>,
    ) -> bool {
        let coded_w = size_width(frame_size->0);
        let coded_h = size_height(frame_size->0);
        if frame_size is None || coded_w == 0 || coded_h == 0 {
            self == before
        } else {
            let coded_height = if before.coded_height == 0 {
                coded_h as u32
            } else {
                before.coded_height
            };
            if aperture is Some && aperture->0.fits(coded_w, coded_h) {
                self == (MediaFoundationDecoder {
                    width: aperture->0.width,
                    height: aperture->0.height,
                    crop_x: aperture->0.x,
                    crop_y: aperture->0.y,
                    coded_height,
                    ..before
                })
            } else {
                self == (MediaFoundationDecoder {
                    width: if before.width == 0 {
                        coded_w as u32
                    } else {
                        before.width
                    },
                    height: if before.height == 0 {
                        coded_h as u32
                    } else {
                        before.height
                    },
                    coded_height,
                    ..before
                })
            }
        }
    }

    /// Takes what the current output type says of its pictures.
    pub fn resolve_output_dimensions(
        &mut self,
        frame_size: Option<u64>,
        aperture: Option<Aperture>,
    )
        ensures
            final(self).resolves(*old(self), frame_size, aperture),
            (frame_size matches Some(size) && size >= 0x1_0000_0000 && size % 0x1_0000_0000 > 0) ==> {
                let coded_w = frame_size->0 / 0x1_0000_0000;
                let coded_h = frame_size->0 % 0x1_0000_0000;
                let fits = aperture is Some && 0 < aperture->0.width <= coded_w && 0
                    < aperture->0.height <= coded_h;
                &&& fits ==> {
                    &&& final(self).width == aperture->0.width
                    &&& final(self).height == aperture->0.height
                    &&& final(self).crop_x == aperture->0.x
                    &&& final(self).crop_y == aperture->0.y
                }
                &&& !fits ==> {
                    &&& old(self).width == 0 ==> final(self).width == coded_w
                    &&& old(self).width != 0 ==> final(self).width == old(self).width
                    &&& old(self).height == 0 ==> final(self).height == coded_h
                    &&& old(self).height != 0 ==> final(self).height == old(self).height
                    &&& final(self).crop_x == old(self).crop_x
                    &&& final(self).crop_y == old(self).crop_y
                }
                &&& old(self).coded_height == 0 ==> final(self).coded_height == coded_h
                &&& old(self).coded_height != 0 ==> final(self).coded_height == old(
                    self,
                ).coded_height
                &&& final(self).stride == old(self).stride
            },
    {
        let (coded_w, coded_h) = match frame_size {
            Some(size) => unpack_size(size),
            None => {
                return ;
            },
        };
        if coded_w == 0 || coded_h == 0 {
            return ;
        }
        if self.width == 0 {
            self.width = coded_w;
        }
        if self.height == 0 {
            self.height = coded_h;
        }
        if self.coded_height == 0 {
            self.coded_height = coded_h;
        }
        match aperture {
            Some(a) => {
                if a.width > 0 && a.width <= coded_w && a.height > 0 && a.height <= coded_h {
                    self.width = a.width;
                    self.height = a.height;
                    self.crop_x = a.x;
                    self.crop_y = a.y;
                }
            },
            None => {},
        }
    }

    /// Infers the stride of a contiguous NV12 buffer of `nv12_len` bytes from
    /// the height of its picture, where it is not known.
    pub fn infer_stride(&mut self, nv12_len: u32)
        requires
            !old(self).size_unknown(),
        ensures
            old(self).stride != 0 ==> *final(self) == *old(self),
            old(self).stride == 0 ==> {
                &&& *final(self) == (MediaFoundationDecoder {
                    stride: final(self).stride,
                    coded_height: old(self).height,
                    ..*old(self)
                })
                &&& final(self).stride == inferred_stride(
                    old(self).width as int,
                    old(self).height as int,
                    nv12_len as int,
                )
                &&& nv12_len == old(self).width * old(self).height * 3 / 2 ==> final(self).stride
                    == old(self).width
                &&& nv12_len != old(self).width * old(self).height * 3 / 2 ==> final(self).stride
                    * old(self).height * 3 <= nv12_len * 2 < (final(self).stride + 1) * old(
                    self,
                ).height * 3
            },
    {
        if self.stride == 0 {
            let total: u128 = nv12_len as u128;
            let w: u128 = self.width as u128;
            let h: u128 = self.height as u128;
            proof {
                assert(0 <= w * h <= 0xffff_ffff * 0xffff_ffff) by (nonlinear_arith)
                    requires
                        0 <= w <= 0xffff_ffff,
                        0 <= h <= 0xffff_ffff,
                ;
                lemma_inferred_stride(w as int, h as int, total as int);
                lemma_stride_is_the_largest(w as int, h as int, total as int);
            }
            self.stride = if total == w * h * 3 / 2 {
                self.width
            } else {
                (total * 2 / (h * 3)) as u32
            };
            self.coded_height = self.height;
        }
    }

    /// The window of the picture in a buffer with this stride and so many
    /// coded rows, where its offsets fit.
    pub open spec fn window_in(self, stride: u32, coded_h: u32) -> Option<Window> {
        let y = luma_offset(stride as int, self.crop_x as int, self.crop_y as int);
        let uv = chroma_offset(
            stride as int,
            coded_h as int,
            self.crop_x as int,
            self.crop_y as int,
        );
        if y > usize::MAX || uv > usize::MAX {
            None
        } else {
            Some(
                Window {
                    width: self.width as usize,
                    height: self.height as usize,
                    stride: stride as usize,
                    y_offset: y as usize,
                    uv_offset: uv as usize,
                },
            )
        }
    }

    /// The window of the picture in a buffer with this stride and so many
    /// coded rows, where its offsets fit.
    pub fn window(&self, stride: u32, coded_h: u32) -> (r: Option<Window>)
        ensures
            r == self.window_in(stride, coded_h),
            r matches Some(window) ==> {
                &&& window.width == self.width
                &&& window.height == self.height
                &&& window.stride == stride
                &&& window.y_offset == self.crop_y * stride + self.crop_x
                &&& window.uv_offset == (coded_h + self.crop_y / 2) * stride + self.crop_x
                    - self.crop_x % 2
            },
    {
        let s: usize = stride as usize;
        let x: usize = self.crop_x as usize;
        let crop_y: usize = self.crop_y as usize;
        proof {
            assert(0 <= s * coded_h) by (nonlinear_arith)
                requires
                    s >= 0,
                    coded_h >= 0,
            ;
            assert(0 <= crop_y * s) by (nonlinear_arith)
                requires
                    s >= 0,
                    crop_y >= 0,
            ;
            assert(0 <= (crop_y / 2) * s) by (nonlinear_arith)
                requires
                    s >= 0,
                    crop_y >= 0,
            ;
            assert((coded_h + crop_y / 2) * s == s * coded_h + (crop_y / 2) * s)
                by (nonlinear_arith);
        }
        match (scaled(crop_y, s, x), scaled(crop_y / 2, s, x / 2 * 2)) {
            (Some(y_offset), Some(into_plane)) => match scaled(s, coded_h as usize, into_plane) {
                Some(uv_offset) => Some(
                    Window {
                        width: self.width as usize,
                        height: self.height as usize,
                        stride: s,
                        y_offset,
                        uv_offset,
                    },
                ),
                None => None,
            },
            _ => None,
        }
    }
}

/// Where the output type says a size, the size of pictures is known from then
/// on.
pub proof fn lemma_said_size_is_known<S>(
    after: MediaFoundationDecoder<S>,
    before: MediaFoundationDecoder<S>,
    frame_size: Option<u64>,
    aperture: Option<Aperture>,
)
    requires
        after.resolves(before, frame_size, aperture),
        frame_size is Some,
        size_width(frame_size->0) > 0,
        size_height(frame_size->0) > 0,
    ensures
        !after.size_unknown(),
{
}

/// The stride of a contiguous NV12 buffer of `len` bytes: the width where the
/// bytes are just those of the picture, else what as many rows leave.
pub open spec fn inferred_stride(w: int, h: int, len: int) -> int {
    if len == w * h * 3 / 2 {
        w
    } else {
        len * 2 / (h * 3)
    }
}

/// With the inferred stride the picture, luma and chroma, lies within the
/// buffer.
pub proof fn lemma_inferred_stride(w: int, h: int, len: int)
    requires
        w > 0,
        h > 0,
        0 <= len <= u32::MAX,
    ensures
        inferred_stride(w, h, len) * h * 3 <= len * 2 + 1,
        len * 2 / (h * 3) <= u32::MAX,
{
    if len == w * h * 3 / 2 {
        assert(w * h * 3 <= len * 2 + 1);
    } else {
        let q = len * 2 / (h * 3);
        vstd::arithmetic::div_mod::lemma_fundamental_div_mod(len * 2, h * 3);
        assert(q * h * 3 == (h * 3) * q) by (nonlinear_arith);
    }
    assert(len * 2 / (h * 3) <= len) by {
        let q = len * 2 / (h * 3);
        vstd::arithmetic::div_mod::lemma_fundamental_div_mod(len * 2, h * 3);
        vstd::arithmetic::div_mod::lemma_mod_bound(len * 2, h * 3);
        assert(q <= len) by (nonlinear_arith)
            requires
                (h * 3) * q <= len * 2,
                h >= 1,
                len >= 0,
        ;
    }
}

/// A stride that is not the width is the largest with which all rows, one and
/// a half for every row of the picture, lie within the buffer.
pub proof fn lemma_stride_is_the_largest(w: int, h: int, len: int)
    requires
        w > 0,
        h > 0,
        len >= 0,
    ensures
        len == w * h * 3 / 2 ==> inferred_stride(w, h, len) == w,
        len != w * h * 3 / 2 ==> inferred_stride(w, h, len) * h * 3 <= len * 2 < (inferred_stride(
            w,
            h,
            len,
        ) + 1) * h * 3,
{
    let q = len * 2 / (h * 3);
    vstd::arithmetic::div_mod::lemma_fundamental_div_mod(len * 2, h * 3);
    vstd::arithmetic::div_mod::lemma_mod_bound(len * 2, h * 3);
    assert(q * h * 3 == (h * 3) * q) by (nonlinear_arith);
    assert((q + 1) * h * 3 == (h * 3) * q + h * 3) by (nonlinear_arith);
}

/// An aperture with an area no larger than the coded picture decides: the
/// size and the corner of the picture are its own, whatever was known before.
pub proof fn lemma_aperture_decides<S>(
    after: MediaFoundationDecoder<S>,
    before: MediaFoundationDecoder<S>,
    coded_w: u32,
    coded_h: u32,
    aperture: Aperture,
)
    requires
        after.resolves(
            before,
            Some((coded_w * 0x1_0000_0000 + coded_h) as u64),
            Some(aperture),
        ),
        0 < aperture.width <= coded_w,
        0 < aperture.height <= coded_h,
    ensures
        after.width == aperture.width,
        after.height == aperture.height,
        after.crop_x == aperture.x,
        after.crop_y == aperture.y,
        after.stride == before.stride,
{
}

/// The pixel of the window at `row` and `col` is the BT.601 value of three
/// bytes of the buffer: the luma byte `crop_y` rows and `crop_x` columns
/// further, and a chroma pair of the plane behind `coded_h` rows.
pub proof fn lemma_window_pixel<S>(
    decoder: MediaFoundationDecoder<S>,
    stride: u32,
    coded_h: u32,
    buffer: Seq<u8>,
    row: int,
    col: int,
)
    requires
        decoder.window_in(stride, coded_h) is Some,
        0 <= row < decoder.height,
        0 <= col < decoder.width,
        (coded_h + decoder.crop_y / 2 + (decoder.height - 1) / 2) * stride + (decoder.crop_x / 2)
            * 2 + ((decoder.width - 1) / 2) * 2 + 2 <= buffer.len(),
        (decoder.crop_y + decoder.height - 1) * stride + decoder.crop_x + decoder.width
            <= buffer.len(),
    ensures
        ({
            let window = decoder.window_in(stride, coded_h)->0;
            let image = window.image(buffer);
            let luma = buffer[(row + decoder.crop_y) * stride + col + decoder.crop_x];
            let pair = (coded_h + decoder.crop_y / 2 + row / 2) * stride + (decoder.crop_x / 2) * 2
                + (col / 2) * 2;
            let pixel = bt601(luma, buffer[pair], buffer[pair + 1]);
            let at = (row * decoder.width + col) * 3;
            &&& window.width == decoder.width
            &&& window.height == decoder.height
            &&& image.len() == decoder.width * decoder.height * 3
            &&& image[at] == pixel.r
            &&& image[at + 1] == pixel.g
            &&& image[at + 2] == pixel.b
        }),
{
    let window = decoder.window_in(stride, coded_h)->0;
    let s = stride as int;
    let x = decoder.crop_x as int;
    let y = decoder.crop_y as int;
    let w = decoder.width as int;
    let h = decoder.height as int;
    let top = coded_h as int;
    assert(0 <= window.y_offset && (y + h - 1) * s + x + w == window.y_offset + (h - 1) * s + w && 0
        <= row * s <= (h - 1) * s && (row + y) * s == row * s + y * s) by (nonlinear_arith)
        requires
            window.y_offset == y * s + x,
            0 <= row < h,
            s >= 0,
            y >= 0,
            x >= 0,
    ;
    assert(window.uv_offset == s * top + (y / 2) * s + (x / 2) * 2);
    assert((top + y / 2 + (h - 1) / 2) * s == s * top + (y / 2) * s + ((h - 1) / 2) * s)
        by (nonlinear_arith);
    assert((top + y / 2 + row / 2) * s == s * top + (y / 2) * s + (row / 2) * s)
        by (nonlinear_arith);
    assert(0 <= (row / 2) * s <= ((h - 1) / 2) * s) by (nonlinear_arith)
        requires
            0 <= row / 2 <= (h - 1) / 2,
            s >= 0,
    ;
    crate::pixels::lemma_image_pixel(
        buffer.skip(window.y_offset as int),
        s,
        buffer.skip(window.uv_offset as int),
        s,
        w,
        h,
        row,
        col,
    );
}

/// The pixel of an NV12 buffer with this stride and so many coded rows.
pub open spec fn coded_pixel(buffer: Seq<u8>, stride: int, coded_h: int, row: int, col: int) -> Rgb {
    let pair = stride * coded_h + (row / 2) * stride + (col / 2) * 2;
    bt601(buffer[row * stride + col], buffer[pair], buffer[pair + 1])
}

/// Cropping moves the picture and changes no pixel: where both offsets are
/// even and the buffer holds chroma for every row, the pixel of the window at
/// `row` and `col` is the one of the coded picture that lies as far from the
/// corner of the aperture.
pub proof fn lemma_window_moves_pixels(
    window: Window,
    buffer: Seq<u8>,
    coded_h: int,
    crop_x: int,
    crop_y: int,
    row: int,
    col: int,
    k: int,
)
    requires
        window.y_offset == luma_offset(window.stride as int, crop_x, crop_y),
        window.uv_offset == chroma_offset(window.stride as int, coded_h, crop_x, crop_y),
        window.bytes() <= buffer.len(),
        window.uv_offset <= buffer.len(),
        has_chroma_row(
            buffer.len() - window.uv_offset,
            window.stride as int,
            window.width as int,
            (window.height - 1) / 2,
        ),
        crop_x % 2 == 0,
        crop_y % 2 == 0,
        crop_x >= 0,
        crop_y >= 0,
        0 <= row < window.height,
        0 <= col < window.width,
        0 <= k < 3,
    ensures
        window.image(buffer)[(row * window.width + col) * 3 + k] == coded_pixel(
            buffer,
            window.stride as int,
            coded_h,
            row + crop_y,
            col + crop_x,
        ).channel(k),
{
    let s = window.stride as int;
    let y = buffer.skip(window.y_offset as int);
    let uv = buffer.skip(window.uv_offset as int);
    let pixel = |row: int, col: int|
        bt601(
            y[row * s + col],
            chroma(uv, s, window.width as int, row, col, 0),
            chroma(uv, s, window.width as int, row, col, 1),
        );
    lemma_chroma_row_is_its_own(
        uv.len() as int,
        s,
        window.width as int,
        window.height as int,
        row,
    );
    crate::color::lemma_packed_byte(
        window.width as int,
        window.height as int,
        pixel,
        row,
        col,
        k,
    );
    assert((row + crop_y) * s == row * s + crop_y * s) by (nonlinear_arith);
    assert((row / 2 + crop_y / 2) * s == (row / 2) * s + (crop_y / 2) * s) by (nonlinear_arith);
    assert((row + crop_y) / 2 == row / 2 + crop_y / 2);
    assert((col + crop_x) / 2 == col / 2 + crop_x / 2);
    assert(0 <= row * s <= (window.height - 1) * s) by (nonlinear_arith)
        requires
            0 <= row <= window.height - 1,
            s >= 0,
    ;
    assert(0 <= (row / 2) * s <= ((window.height - 1) / 2) * s) by (nonlinear_arith)
        requires
            0 <= row / 2 <= (window.height - 1) / 2,
            s >= 0,
    ;
    assert(y[row * s + col] == buffer[(row + crop_y) * s + (col + crop_x)]);
    let pair = (row / 2) * s + (col / 2) * 2;
    assert(uv[pair] == buffer[window.uv_offset + pair]);
    assert(uv[pair + 1] == buffer[window.uv_offset + pair + 1]);
}

/// The aperture in the bytes of an attribute: both offsets in the upper half
/// of a 32-bit number, with their sign, and the size in two 32-bit numbers.
/// The low byte comes first throughout.
pub proof fn lemma_bytes_of_an_aperture(aperture: Aperture, bytes: Seq<u8>)
    requires
        aperture.is_read_from(bytes),
    ensures
        bytes[3] < 0x80 ==> aperture.x == bytes[2] + 256 * bytes[3],
        bytes[3] >= 0x80 ==> aperture.x == bytes[2] + 256 * bytes[3] + 0xffff_0000,
        bytes[7] < 0x80 ==> aperture.y == bytes[6] + 256 * bytes[7],
        bytes[7] >= 0x80 ==> aperture.y == bytes[6] + 256 * bytes[7] + 0xffff_0000,
        aperture.width == bytes[8] + 256 * bytes[9] + 65536 * bytes[10] + 16777216 * bytes[11],
        aperture.height == bytes[12] + 256 * bytes[13] + 65536 * bytes[14] + 16777216 * bytes[15],
{
}

/// An aperture that is not used, for want of one or of an area no larger than
/// the coded picture, leaves what is known; the coded size stands in for what
/// is not.
pub proof fn lemma_without_aperture<S>(
    after: MediaFoundationDecoder<S>,
    before: MediaFoundationDecoder<S>,
    coded_w: u32,
    coded_h: u32,
    aperture: Option<Aperture>,
)
    requires
        after.resolves(before, Some((coded_w * 0x1_0000_0000 + coded_h) as u64), aperture),
        coded_w > 0,
        coded_h > 0,
        aperture matches Some(a) ==> a.width == 0 || a.height == 0 || a.width > coded_w || a.height
            > coded_h,
    ensures
        before.width != 0 ==> after.width == before.width,
        before.width == 0 ==> after.width == coded_w,
        before.height != 0 ==> after.height == before.height,
        before.height == 0 ==> after.height == coded_h,
        before.coded_height != 0 ==> after.coded_height == before.coded_height,
        before.coded_height == 0 ==> after.coded_height == coded_h,
        after.crop_x == before.crop_x,
        after.crop_y == before.crop_y,
{
}

/// An output type without a size changes nothing.
pub proof fn lemma_without_size<S>(
    after: MediaFoundationDecoder<S>,
    before: MediaFoundationDecoder<S>,
    coded_w: u32,
    coded_h: u32,
    aperture: Option<Aperture>,
)
    requires
        after.resolves(before, Some((coded_w * 0x1_0000_0000 + coded_h) as u64), aperture)
            || after.resolves(before, None, aperture),
        coded_w == 0 || coded_h == 0,
    ensures
        after == before,
{
}

/// Whole rows are enough: a buffer that goes to the end of the last row of
/// either plane, each as long as the stride, holds the window.
pub proof fn lemma_whole_rows_hold_window(window: Window, len: int)
    requires
        window.stride >= window.width + window.width % 2,
        window.y_offset + window.stride * window.height <= len,
        window.uv_offset + window.stride * (window.height / 2) <= len,
    ensures
        window.bytes() <= len,
{
    let s = window.stride as int;
    let h = window.height as int;
    assert((h - 1) * s + s == s * h && (h / 2 - 1) * s + s == s * (h / 2) && 0 <= s * h && 0 <= s * (
    h / 2)) by (nonlinear_arith)
        requires
            s >= 0,
            h >= 0,
    ;
}

/// When a picture has no window: only where an offset is beyond what an index
/// can hold.
pub proof fn lemma_when_there_is_no_window<S>(
    decoder: MediaFoundationDecoder<S>,
    stride: u32,
    coded_h: u32,
)
    ensures
        decoder.window_in(stride, coded_h) is None <==> decoder.crop_y * stride + decoder.crop_x
            > usize::MAX || (coded_h + decoder.crop_y / 2) * stride + decoder.crop_x
            - decoder.crop_x % 2 > usize::MAX,
{
    let s = stride as int;
    let k = (decoder.crop_y / 2) as int;
    let c = coded_h as int;
    assert((c + k) * s == s * c + k * s) by (nonlinear_arith);
}

/// What a window needs of the buffer: every luma byte from its offset on, and
/// all chroma pairs of every two whole rows from theirs on.
pub proof fn lemma_what_a_window_needs(window: Window, len: int)
    ensures
        window.width == 0 || window.height == 0 ==> window.bytes() == 0,
        window.width > 0 && window.height == 1 ==> (window.bytes() <= len <==> window.y_offset
            + window.width <= len && window.uv_offset <= len),
        window.width > 0 && window.height >= 2 ==> (window.bytes() <= len <==> window.y_offset + (
        window.height - 1) * window.stride + window.width <= len && window.uv_offset + (
        window.height / 2 - 1) * window.stride + window.width + window.width % 2 <= len),
{
    if window.width > 0 && window.height >= 1 {
        assert(0 * window.stride == 0) by (nonlinear_arith);
        let w = window.width as int;
        assert(((w - 1) / 2) * 2 + 2 == w + w % 2);
    }
}

} // verus!
