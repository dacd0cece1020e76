//! Reading a decoded picture back from its surface.

use vstd::prelude::*;

use vstd::slice::slice_subrange;

use crate::color::{
    bt601, chroma_bytes, lemma_chroma_bytes, lemma_image_of_bytes, nv12_extent, nv12_frame,
    nv12_image, Nv12,
};
use crate::media::{DecodedFrame, VideoError};
use crate::pixels::{lemma_image_pixel, lemma_last_row_of_odd_height};
use crate::vaapi::fields::{check_va, va_failure};
use crate::vaapi::params::VA_STATUS_SUCCESS;
use crate::vaapi::picture_run::VaCall;

verus! {

/// An image that the driver derived from a surface, as far as reading it
/// back needs it: the first plane starts at the first byte.
#[derive(Debug, Clone, Copy, PartialEq, Eq, Structural)]
pub struct VAImage {
    pub image_id: u32,
    pub buf: u32,
    pub width: u16,
    pub height: u16,
    pub y_pitch: u32,
    pub uv_pitch: u32,
    pub uv_offset: u32,
}

/// What comes next for a picture that is read back.
#[derive(Debug, Clone, Copy, PartialEq, Eq, Structural)]
pub enum ReadbackStep {
    SyncSurface,
    DeriveImage,
    MapBuffer(VAImage),
    /// The image is mapped, ready to be converted.
    Convert(VAImage),
}

/// A failed call, and what is to be released on its account.
pub struct VaFailure {
    pub error: VideoError,
    pub cleanup: Vec<VaCall>,
}

impl ReadbackStep {
    /// The name of the call in error messages.
    pub open spec fn operation(self) -> Seq<char> {
        match self {
            ReadbackStep::SyncSurface => "vaSyncSurface"@,
            ReadbackStep::DeriveImage => "vaDeriveImage"@,
            ReadbackStep::MapBuffer(_) => "vaMapBuffer"@,
            ReadbackStep::Convert(_) => ""@,
        }
    }

    /// The step that follows; `image` is the one that was derived.
    pub open spec fn next(self, image: VAImage) -> ReadbackStep {
        match self {
            ReadbackStep::SyncSurface => ReadbackStep::DeriveImage,
            ReadbackStep::DeriveImage => ReadbackStep::MapBuffer(image),
            ReadbackStep::MapBuffer(derived) => ReadbackStep::Convert(derived),
            ReadbackStep::Convert(derived) => ReadbackStep::Convert(derived),
        }
    }

    /// What a failure of the call leaves to be released: an image that was
    /// derived is destroyed.
    pub open spec fn leftover(self) -> Seq<VaCall> {
        match self {
            ReadbackStep::MapBuffer(image) => seq![VaCall::DestroyImage(image.image_id)],
            _ => Seq::empty(),
        }
    }

    /// Takes the status of the call, and the image that it derived where it
    /// does.
    pub fn on_reply(self, status: i32, image: VAImage) -> (r: Result<ReadbackStep, VaFailure>)
        requires
            !(self is Convert),
        ensures
            r is Ok <==> status == VA_STATUS_SUCCESS,
            r matches Ok(next) ==> next == self.next(image),
            r matches Err(failure) ==> {
                &&& failure.error.text() == va_failure(self.operation(), status)
                &&& failure.cleanup@ == self.leftover()
            },
    {
        let mut cleanup: Vec<VaCall> = Vec::new();
        let (operation, next) = match self {
            ReadbackStep::SyncSurface => ("vaSyncSurface", ReadbackStep::DeriveImage),
            ReadbackStep::DeriveImage => ("vaDeriveImage", ReadbackStep::MapBuffer(image)),
            ReadbackStep::MapBuffer(derived) => {
                cleanup.push(VaCall::DestroyImage(derived.image_id));
                ("vaMapBuffer", ReadbackStep::Convert(derived))
            },
            ReadbackStep::Convert(derived) => ("", ReadbackStep::Convert(derived)),
        };
        match check_va(status, operation) {
            Ok(()) => Ok(next),
            Err(error) => {
                assert(cleanup@ =~= self.leftover());
                Err(VaFailure { error, cleanup })
            },
        }
    }
}

impl VAImage {
    /// The picture in the mapped buffer, as packed RGB: luma from the first
    /// byte on, chroma from its offset on.
    pub open spec fn image(self, buffer: Seq<u8>) -> Seq<u8> {
        nv12_image(
            buffer,
            self.y_pitch as int,
            buffer.skip(self.uv_offset as int),
            self.uv_pitch as int,
            self.width as int,
            self.height as int,
        )
    }

    /// How many bytes of the mapped buffer the picture needs.
    pub open spec fn bytes(self) -> int {
        let y_end = if self.width == 0 || self.height == 0 {
            0
        } else {
            (self.height - 1) * self.y_pitch + self.width
        };
        let uv_end = if self.width == 0 || self.height == 0 {
            self.uv_offset as int
        } else {
            self.uv_offset + chroma_bytes(
                self.width as int,
                self.height as int,
                self.uv_pitch as int,
            )
        };
        if y_end < uv_end {
            uv_end
        } else {
            y_end
        }
    }

    /// How many bytes of the mapped buffer the picture needs, where that fits.
    pub fn extent(&self) -> (r: Option<usize>)
        ensures
            match r {
                Some(n) => n == self.bytes(),
                None => self.bytes() > usize::MAX,
            },
    {
        proof {
            if self.width > 0 && self.height > 0 {
                lemma_chroma_bytes(self.width as int, self.height as int, self.uv_pitch as int);
            }
        }
        match nv12_extent(
            self.width as usize,
            self.height as usize,
            self.y_pitch as usize,
            self.uv_pitch as usize,
        ) {
            Some((y_end, uv)) => match (self.uv_offset as usize).checked_add(uv) {
                Some(uv_end) => Some(
                    if y_end < uv_end {
                        uv_end
                    } else {
                        y_end
                    },
                ),
                None => None,
            },
            None => None,
        }
    }

    /// The mapped image as a frame.
    pub fn frame(&self, buffer: &[u8], timestamp_us: u64, keyframe: bool) -> (frame: DecodedFrame)
        requires
            self.bytes() <= buffer@.len(),
            self.width * self.height * 3 <= usize::MAX,
        ensures
            frame.is_rgb8(
                self.width as usize,
                self.height as usize,
                self.image(buffer@),
                timestamp_us,
                keyframe,
            ),
    {
        let len = buffer.len();
        proof {
            if self.width > 0 && self.height > 0 {
                lemma_chroma_bytes(self.width as int, self.height as int, self.uv_pitch as int);
            }
        }
        let uv = slice_subrange(buffer, self.uv_offset as usize, len);
        assert(uv@ =~= buffer@.skip(self.uv_offset as int));
        let picture = Nv12 {
            y: buffer,
            y_stride: self.y_pitch as usize,
            uv,
            uv_stride: self.uv_pitch as usize,
        };
        proof {
            lemma_image_of_bytes(picture, self.width as int, self.height as int);
        }
        nv12_frame(&picture, self.width as usize, self.height as usize, timestamp_us, keyframe)
    }

    /// What is released once the frame has been made.
    pub fn release(&self) -> (calls: Vec<VaCall>)
        ensures
            calls@ == seq![VaCall::UnmapBuffer(self.buf), VaCall::DestroyImage(self.image_id)],
    {
        let mut calls: Vec<VaCall> = Vec::new();
        calls.push(VaCall::UnmapBuffer(self.buf));
        calls.push(VaCall::DestroyImage(self.image_id));
        assert(calls@ =~= seq![VaCall::UnmapBuffer(self.buf), VaCall::DestroyImage(self.image_id)]);
        calls
    }
}

/// The pixel of a derived image at `row` and `col` is the BT.601 value of
/// three bytes of the mapped buffer: the luma byte in its row of `y_pitch`
/// bytes, and the chroma pair of its block of two by two pixels.
pub proof fn lemma_derived_pixel(image: VAImage, buffer: Seq<u8>, row: int, col: int)
    requires
        0 <= row < image.height,
        0 <= col < image.width,
        (image.height - 1) * image.y_pitch + image.width <= buffer.len(),
        image.uv_offset + ((image.height - 1) / 2) * image.uv_pitch + ((image.width - 1) / 2) * 2
            + 2 <= buffer.len(),
    ensures
        ({
            let rgb = image.image(buffer);
            let luma = buffer[row * image.y_pitch + col];
            let pair = image.uv_offset + (row / 2) * image.uv_pitch + (col / 2) * 2;
            let pixel = bt601(luma, buffer[pair], buffer[pair + 1]);
            let at = (row * image.width + col) * 3;
            &&& rgb.len() == image.width * image.height * 3
            &&& rgb[at] == pixel.r
            &&& rgb[at + 1] == pixel.g
            &&& rgb[at + 2] == pixel.b
        }),
{
    let s = image.uv_pitch as int;
    let h = image.height as int;
    assert(0 <= (row / 2) * s <= ((h - 1) / 2) * s) by (nonlinear_arith)
        requires
            0 <= row / 2 <= (h - 1) / 2,
            s >= 0,
    ;
    lemma_image_pixel(
        buffer,
        image.y_pitch as int,
        buffer.skip(image.uv_offset as int),
        s,
        image.width as int,
        h,
        row,
        col,
    );
}

/// Under an odd height without chroma for the last luma row, that row takes
/// the chroma of the two rows before it; without any chroma it is grey.
pub proof fn lemma_derived_last_row(image: VAImage, buffer: Seq<u8>, col: int)
    requires
        0 <= col < image.width,
        image.height % 2 == 1,
        image.bytes() <= buffer.len(),
        buffer.len() < image.uv_offset + (image.height / 2) * image.uv_pitch + ((image.width - 1)
            / 2) * 2 + 2,
    ensures
        ({
            let rgb = image.image(buffer);
            let luma = buffer[(image.height - 1) * image.y_pitch + col];
            let pair = image.uv_offset + (image.height / 2 - 1) * image.uv_pitch + (col / 2) * 2;
            let pixel = if image.height == 1 {
                bt601(luma, 128, 128)
            } else {
                bt601(luma, buffer[pair], buffer[pair + 1])
            };
            let at = ((image.height - 1) * image.width + col) * 3;
            &&& rgb[at] == pixel.r
            &&& rgb[at + 1] == pixel.g
            &&& rgb[at + 2] == pixel.b
        }),
{
    let s = image.uv_pitch as int;
    let h = image.height as int;
    lemma_chroma_bytes(image.width as int, h, s);
    if h >= 2 {
        assert(0 <= (h / 2 - 1) * s) by (nonlinear_arith)
            requires
                h >= 2,
                s >= 0,
        ;
    }
    lemma_last_row_of_odd_height(
        buffer,
        image.y_pitch as int,
        buffer.skip(image.uv_offset as int),
        s,
        image.width as int,
        h,
        col,
    );
}

/// Whole rows are enough: a buffer with a pitch for every row of luma, and
/// from the offset of the chroma on a pitch for every two whole rows, holds
/// the picture.
pub proof fn lemma_whole_rows_hold_derived(image: VAImage, len: int)
    requires
        image.y_pitch >= image.width,
        image.uv_pitch >= image.width + image.width % 2,
        image.y_pitch * image.height <= len,
        image.uv_offset + image.uv_pitch * (image.height / 2) <= len,
    ensures
        image.bytes() <= len,
{
    let y = image.y_pitch as int;
    let s = image.uv_pitch as int;
    let h = image.height as int;
    assert(0 <= s * (h / 2)) by (nonlinear_arith)
        requires
            s >= 0,
            h >= 0,
    ;
    assert((h - 1) * y + y == y * h) by (nonlinear_arith);
    assert((h / 2 - 1) * s + s == s * (h / 2)) by (nonlinear_arith);
}

/// A picture is read back in this order: the surface is synchronised, an
/// image is derived from it, the buffer of that image is mapped, and that
/// image is converted.
pub proof fn lemma_order_of_readback(a: VAImage, derived: VAImage, b: VAImage)
    ensures
        ReadbackStep::SyncSurface.next(a).next(derived) == ReadbackStep::MapBuffer(derived),
        ReadbackStep::SyncSurface.next(a).next(derived).next(b) == ReadbackStep::Convert(derived),
        !(ReadbackStep::SyncSurface.next(a) is MapBuffer),
        !(ReadbackStep::SyncSurface.next(a) is Convert),
{
}

/// Whatever call fails, the image is destroyed where one was derived, and
/// nothing else is.
pub proof fn lemma_failed_readback_releases(a: VAImage, derived: VAImage, call: VaCall)
    ensures
        !ReadbackStep::SyncSurface.leftover().contains(call),
        !ReadbackStep::SyncSurface.next(a).leftover().contains(call),
        ReadbackStep::SyncSurface.next(a).next(derived).leftover().contains(call) <==> call
            == VaCall::DestroyImage(derived.image_id),
        ReadbackStep::SyncSurface.next(a).next(derived).leftover().len() == 1,
{
    let leftover = ReadbackStep::MapBuffer(derived).leftover();
    assert(leftover[0] == VaCall::DestroyImage(derived.image_id));
}

/// What a derived image needs of the buffer: every luma byte, and from the
/// offset of the chroma on all pairs of every two whole rows.
pub proof fn lemma_what_a_derived_image_needs(image: VAImage, len: int)
    ensures
        image.width > 0 && image.height >= 2 ==> (image.bytes() <= len <==> (image.height - 1)
            * image.y_pitch + image.width <= len && image.uv_offset + (image.height / 2 - 1)
            * image.uv_pitch + image.width + image.width % 2 <= len),
        image.width > 0 && image.height == 1 ==> (image.bytes() <= len <==> image.width <= len
            && image.uv_offset <= len),
        image.width == 0 || image.height == 0 ==> image.bytes() == image.uv_offset,
{
    if image.width > 0 && image.height >= 1 {
        assert(0 * image.y_pitch == 0) by (nonlinear_arith);
        let w = image.width as int;
        assert(((w - 1) / 2) * 2 + 2 == w + w % 2);
    }
}

/// The names of the calls that read a picture back, in error messages.
pub proof fn lemma_names_of_readback_calls(image: VAImage)
    ensures
        ReadbackStep::SyncSurface.operation() == "vaSyncSurface"@,
        ReadbackStep::DeriveImage.operation() == "vaDeriveImage"@,
        ReadbackStep::MapBuffer(image).operation() == "vaMapBuffer"@,
{
}

} // verus!
