//! NVIDIA NVDEC: H.264 and HEVC decoding through the driver's own parser.
//!
//! Handles of the driver are addresses; zero stands for none.

use vstd::prelude::*;

use vstd::slice::slice_subrange;

use crate::backend::{software_or_hevc, software_stand_in, SoftwareDecoder, VideoDecoder};
use crate::color::{
    bt601, chroma, chroma_bytes, has_chroma_row, lemma_image_of_bytes, lemma_packed_byte, nv12_frame,
    nv12_image, packed, Nv12,
};
use crate::media::{DecodedFrame, VideoCodec, VideoError};
use crate::text::{decimal, error_with_status, push_decimal};
use crate::time::{frame_timestamp, to_unsigned};

verus! {

pub const CUDA_SUCCESS: i32 = 0;

pub const CUDA_VIDEO_CODEC_H264: i32 = 4;

pub const CUDA_VIDEO_CODEC_HEVC: i32 = 8;

pub const CUDA_VIDEO_SURFACE_FORMAT_NV12: i32 = 0;

pub const CUDA_VIDEO_CHROMA_FORMAT_420: i32 = 1;

/// What the callbacks of the parser and the decoder share.
pub struct NvdecState {
    pub decoder: usize,
    pub width: u32,
    pub height: u32,
    pub frames: Vec<DecodedFrame>,
    pub decoder_created: bool,
    /// The error of a callback, until it is reported.
    pub last_error: Option<String>,
}

/// What a decoder is created with; the maximal and the target size are the
/// coded size.
#[derive(Debug, Clone, Copy, PartialEq, Eq, Structural)]
pub struct NvdecCreateInfo {
    pub code_type: i32,
    pub chroma_format: i32,
    pub output_format: i32,
    pub width: u32,
    pub height: u32,
    pub num_decode_surfaces: u32,
    pub num_output_surfaces: u32,
}

impl NvdecState {
    /// The error that is to be reported, if there is one.
    pub open spec fn error(self) -> Option<Seq<char>> {
        match self.last_error {
            Some(message) => Some(message@),
            None => None,
        }
    }

    /// The state before the first callback.
    pub fn new() -> (state: Self)
        ensures
            state.decoder == 0,
            state.width == 0,
            state.height == 0,
            state.frames@.len() == 0,
            !state.decoder_created,
            state.last_error is None,
    {
        NvdecState {
            decoder: 0,
            width: 0,
            height: 0,
            frames: Vec::new(),
            decoder_created: false,
            last_error: None,
        }
    }

    fn fail(&mut self, prefix: &str, status: i32)
        ensures
            final(self).error() == Some(prefix@ + decimal(status as int)),
            *final(self) == (NvdecState { last_error: final(self).last_error, ..*old(self) }),
    {
        let mut message = prefix.to_owned();
        push_decimal(&mut message, status);
        self.last_error = Some(message);
    }

    /// A sequence of pictures of this size starts: gives what a decoder is to
    /// be created with, where there is none.
    pub fn on_sequence(&mut self, codec: i32, coded_width: u32, coded_height: u32) -> (r: Option<
        NvdecCreateInfo,
    >)
        ensures
            *final(self) == (NvdecState {
                width: coded_width,
                height: coded_height,
                ..*old(self)
            }),
            r == if old(self).decoder_created {
                None
            } else {
                Some(
                    NvdecCreateInfo {
                        code_type: codec,
                        chroma_format: CUDA_VIDEO_CHROMA_FORMAT_420,
                        output_format: CUDA_VIDEO_SURFACE_FORMAT_NV12,
                        width: coded_width,
                        height: coded_height,
                        num_decode_surfaces: 20,
                        num_output_surfaces: 2,
                    },
                )
            },
    {
        self.width = coded_width;
        self.height = coded_height;
        if self.decoder_created {
            None
        } else {
            Some(
                NvdecCreateInfo {
                    code_type: codec,
                    chroma_format: CUDA_VIDEO_CHROMA_FORMAT_420,
                    output_format: CUDA_VIDEO_SURFACE_FORMAT_NV12,
                    width: coded_width,
                    height: coded_height,
                    num_decode_surfaces: 20,
                    num_output_surfaces: 2,
                },
            )
        }
    }

    /// Takes the decoder that was created.
    pub fn on_decoder(&mut self, status: i32, decoder: usize)
        ensures
            status == CUDA_SUCCESS ==> *final(self) == (NvdecState {
                decoder,
                decoder_created: true,
                ..*old(self)
            }),
            status != CUDA_SUCCESS ==> {
                &&& *final(self) == (NvdecState {
                    decoder,
                    last_error: final(self).last_error,
                    ..*old(self)
                })
                &&& final(self).error() == Some(
                    "NVDEC: cuvidCreateDecoder failed: "@ + decimal(status as int),
                )
            },
    {
        self.decoder = decoder;
        if status == CUDA_SUCCESS {
            self.decoder_created = true;
        } else {
            self.fail("NVDEC: cuvidCreateDecoder failed: ", status);
        }
    }

    /// A picture is to be decoded: gives the reply where it cannot be.
    pub fn begin_decode(&self) -> (reply: Option<i32>)
        ensures
            reply == if self.decoder_created {
                None
            } else {
                Some(0i32)
            },
    {
        if self.decoder_created {
            None
        } else {
            Some(0)
        }
    }

    /// Takes the status of decoding a picture, and gives the reply.
    pub fn on_decode(&mut self, status: i32) -> (reply: i32)
        ensures
            status == CUDA_SUCCESS ==> reply == 1 && *final(self) == *old(self),
            status != CUDA_SUCCESS ==> {
                &&& reply == 0
                &&& *final(self) == (NvdecState {
                    last_error: final(self).last_error,
                    ..*old(self)
                })
                &&& final(self).error() == Some(
                    "NVDEC: cuvidDecodePicture failed: "@ + decimal(status as int),
                )
            },
    {
        if status != CUDA_SUCCESS {
            self.fail("NVDEC: cuvidDecodePicture failed: ", status);
            0
        } else {
            1
        }
    }

    /// A picture is to be displayed: gives the reply where there is nothing
    /// to display.
    pub fn begin_display(&self, picture_present: bool) -> (reply: Option<i32>)
        ensures
            reply == if !picture_present {
                Some(1i32)
            } else if !self.decoder_created {
                Some(0i32)
            } else {
                None
            },
    {
        if !picture_present {
            Some(1)
        } else if !self.decoder_created {
            Some(0)
        } else {
            None
        }
    }

    /// Takes the status of mapping the picture: gives the reply where that
    /// failed.
    pub fn on_mapped(&mut self, status: i32) -> (reply: Option<i32>)
        ensures
            status == CUDA_SUCCESS ==> reply is None && *final(self) == *old(self),
            status != CUDA_SUCCESS ==> {
                &&& reply == Some(0i32)
                &&& *final(self) == (NvdecState {
                    last_error: final(self).last_error,
                    ..*old(self)
                })
                &&& final(self).error() == Some(
                    "NVDEC: cuvidMapVideoFrame64 failed: "@ + decimal(status as int),
                )
            },
    {
        if status != CUDA_SUCCESS {
            self.fail("NVDEC: cuvidMapVideoFrame64 failed: ", status);
            Some(0)
        } else {
            None
        }
    }

    /// How many bytes of a mapped picture are copied, where that fits.
    pub fn copy_size(&self, pitch: u32) -> (size: Option<usize>)
        ensures
            match size {
                Some(n) => n == pitch * self.height + pitch * (self.height / 2),
                None => pitch * self.height + pitch * (self.height / 2) > usize::MAX,
            },
    {
        let p: usize = pitch as usize;
        let h: usize = self.height as usize;
        proof {
            assert(0 <= pitch * self.height) by (nonlinear_arith);
            assert(0 <= pitch * (self.height / 2)) by (nonlinear_arith);
        }
        match (p.checked_mul(h), p.checked_mul(h / 2)) {
            (Some(y_size), Some(uv_size)) => y_size.checked_add(uv_size),
            _ => None,
        }
    }

    /// Takes the status of copying the picture: gives the reply where that
    /// failed.
    pub fn on_copied(&mut self, status: i32) -> (reply: Option<i32>)
        ensures
            status == CUDA_SUCCESS ==> reply is None && *final(self) == *old(self),
            status != CUDA_SUCCESS ==> {
                &&& reply == Some(0i32)
                &&& *final(self) == (NvdecState {
                    last_error: final(self).last_error,
                    ..*old(self)
                })
                &&& final(self).error() == Some(
                    "NVDEC: cuMemcpyDtoH_v2 failed: "@ + decimal(status as int),
                )
            },
    {
        if status != CUDA_SUCCESS {
            self.fail("NVDEC: cuMemcpyDtoH_v2 failed: ", status);
            Some(0)
        } else {
            None
        }
    }

    /// The rows of a picture fit in their pitch, and the bytes are those of
    /// both planes, chroma behind luma.
    pub open spec fn holds_picture(self, nv12: Seq<u8>, pitch: u32) -> bool {
        &&& nv12.len() == pitch * self.height + pitch * (self.height / 2)
        &&& self.width > 0 && self.height > 0 ==> {
            &&& (self.height - 1) * pitch + self.width <= nv12.len()
            &&& chroma_bytes(self.width as int, self.height as int, pitch as int) <= pitch * (
            self.height / 2)
        }
    }

    /// Takes a picture that was copied with this pitch, and gives the reply.
    pub fn on_picture(&mut self, nv12: &[u8], pitch: u32, timestamp: i64) -> (reply: i32)
        requires
            old(self).holds_picture(nv12@, pitch),
            old(self).width * old(self).height * 3 <= usize::MAX,
        ensures
            reply == 1,
            *final(self) == (NvdecState { frames: final(self).frames, ..*old(self) }),
            final(self).frames@.len() == old(self).frames@.len() + 1,
            final(self).frames@.drop_last() == old(self).frames@,
            final(self).frames@.last().rgb8_data@ == old(self).image(nv12@, pitch),
            final(self).frames@.last().is_rgb8(
                old(self).width as usize,
                old(self).height as usize,
                nv12_image(
                    nv12@,
                    pitch as int,
                    nv12@.skip(pitch * old(self).height),
                    pitch as int,
                    old(self).width as int,
                    old(self).height as int,
                ),
                to_unsigned(timestamp) as u64,
                false,
            ),
    {
        let len = nv12.len();
        let w: usize = self.width as usize;
        let h: usize = self.height as usize;
        let p: usize = pitch as usize;
        proof {
            assert(0 <= p * h) by (nonlinear_arith)
                requires
                    p >= 0,
                    h >= 0,
            ;
            assert(0 <= pitch * (self.height / 2)) by (nonlinear_arith);
        }
        let uv = slice_subrange(nv12, p * h, len);
        assert(uv@ =~= nv12@.skip(pitch * self.height));
        let picture = Nv12 { y: nv12, y_stride: p, uv, uv_stride: p };
        proof {
            lemma_image_of_bytes(picture, w as int, h as int);
        }
        let frame = nv12_frame(&picture, w, h, frame_timestamp(timestamp), false);
        self.frames.push(frame);
        assert(self.frames@.drop_last() =~= old(self).frames@);
        1
    }
}

/// NVIDIA NVDEC hardware decoder with built-in parser.
///
/// Without a working driver the stream goes to `sw_fallback`.
pub struct NvdecDecoder<S> {
    pub codec: VideoCodec,
    pub cuda_ctx: usize,
    pub parser: usize,
    pub state: Box<NvdecState>,
    pub initialized: bool,
    pub sw_fallback: Option<S>,
}

/// How far opening the driver has come.
#[derive(Debug, Clone, Copy, PartialEq, Eq, Structural)]
pub enum NvOpening {
    Init,
    CreateContext,
    /// A parser for this codec is to be created.
    CreateParser(i32),
    Opened,
    /// The driver cannot be used.
    Unavailable,
    /// The driver cannot be used, and its context is to be destroyed.
    DestroyContext,
    /// The driver works, but not for this codec; its context is to be
    /// destroyed.
    Unsupported,
}

/// What a parser is created with.
#[derive(Debug, Clone, Copy, PartialEq, Eq, Structural)]
pub struct NvdecParserParams {
    pub codec_type: i32,
    pub max_num_decode_surfaces: u32,
    pub clock_rate: u32,
    pub error_threshold: u32,
    pub max_display_delay: u32,
}

/// The driver's number for a codec.
pub open spec fn nv_codec(codec: VideoCodec) -> Option<i32> {
    match codec {
        VideoCodec::H264 => Some(CUDA_VIDEO_CODEC_H264),
        VideoCodec::H265 => Some(CUDA_VIDEO_CODEC_HEVC),
        VideoCodec::Other(_) => None,
    }
}

impl NvOpening {
    /// Nothing is left to do with the driver.
    pub open spec fn is_over(self) -> bool {
        self is Opened || self is Unavailable || self is DestroyContext || self is Unsupported
    }

    /// Opening has failed after a context was created.
    pub open spec fn leaves_context(self) -> bool {
        self is DestroyContext || self is Unsupported
    }

    /// Whether the context is to be destroyed, as opening has failed.
    pub fn destroys_context(self) -> (destroys: bool)
        ensures
            destroys == self.leaves_context(),
    {
        matches!(self, NvOpening::DestroyContext | NvOpening::Unsupported)
    }

    /// Where opening stands after a step with this status.
    pub open spec fn next(self, codec: VideoCodec, status: i32) -> NvOpening {
        match self {
            NvOpening::Init => if status == CUDA_SUCCESS {
                NvOpening::CreateContext
            } else {
                NvOpening::Unavailable
            },
            NvOpening::CreateContext => if status != CUDA_SUCCESS {
                NvOpening::Unavailable
            } else {
                match nv_codec(codec) {
                    Some(codec_type) => NvOpening::CreateParser(codec_type),
                    None => NvOpening::Unsupported,
                }
            },
            NvOpening::CreateParser(_) => if status == CUDA_SUCCESS {
                NvOpening::Opened
            } else {
                NvOpening::DestroyContext
            },
            other => other,
        }
    }

    /// Takes the status of the step at hand.
    pub fn on_reply(self, codec: VideoCodec, status: i32) -> (next: NvOpening)
        ensures
            next == self.next(codec, status),
    {
        match self {
            NvOpening::Init => if status == CUDA_SUCCESS {
                NvOpening::CreateContext
            } else {
                NvOpening::Unavailable
            },
            NvOpening::CreateContext => if status != CUDA_SUCCESS {
                NvOpening::Unavailable
            } else {
                match codec {
                    VideoCodec::H264 => NvOpening::CreateParser(CUDA_VIDEO_CODEC_H264),
                    VideoCodec::H265 => NvOpening::CreateParser(CUDA_VIDEO_CODEC_HEVC),
                    VideoCodec::Other(_) => NvOpening::Unsupported,
                }
            },
            NvOpening::CreateParser(_) => if status == CUDA_SUCCESS {
                NvOpening::Opened
            } else {
                NvOpening::DestroyContext
            },
            other => other,
        }
    }
}

/// A driver opens if and only if all three steps succeed for a codec that it
/// knows, and three steps always settle it.
pub proof fn lemma_opening_outcome(codec: VideoCodec, init: i32, context: i32, parser: i32)
    ensures
        NvOpening::Init.next(codec, init).next(codec, context).next(codec, parser).is_over(),
        NvOpening::Init.next(codec, init).next(codec, context).next(codec, parser) is Opened <==> {
            &&& codec !is Other
            &&& init == CUDA_SUCCESS
            &&& context == CUDA_SUCCESS
            &&& parser == CUDA_SUCCESS
        },
{
}

/// An opening that fails leaves nothing behind: the context is destroyed
/// exactly where it was created.
pub proof fn lemma_failed_opening_leaves_nothing(
    codec: VideoCodec,
    init: i32,
    context: i32,
    parser: i32,
)
    requires
        !(NvOpening::Init.next(codec, init).next(codec, context).next(codec, parser) is Opened),
    ensures
        NvOpening::Init.next(codec, init).next(codec, context).next(codec, parser).leaves_context()
            <==> init == CUDA_SUCCESS && context == CUDA_SUCCESS,
{
}

/// What a parser for `codec_type` is created with.
pub fn parser_params(codec_type: i32) -> (params: NvdecParserParams)
    ensures
        params == (NvdecParserParams {
            codec_type,
            max_num_decode_surfaces: 20,
            clock_rate: 0,
            error_threshold: 100,
            max_display_delay: 4,
        }),
{
    NvdecParserParams {
        codec_type,
        max_num_decode_surfaces: 20,
        clock_rate: 0,
        error_threshold: 100,
        max_display_delay: 4,
    }
}

/// What is destroyed when a decoder goes away, in this order.
#[derive(Debug, Clone, Copy, PartialEq, Eq, Structural)]
pub struct NvTeardown {
    pub parser: Option<usize>,
    pub decoder: Option<usize>,
    pub context: Option<usize>,
}

/// `handle` where it is one.
pub open spec fn unless_null(handle: usize) -> Option<usize> {
    if handle != 0 {
        Some(handle)
    } else {
        None
    }
}

fn some_unless_null(handle: usize) -> (r: Option<usize>)
    ensures
        r == unless_null(handle),
{
    if handle != 0 {
        Some(handle)
    } else {
        None
    }
}

impl<S> NvdecDecoder<S> {
    /// The shared state is the one before the first callback.
    pub open spec fn is_fresh(self, codec: VideoCodec) -> bool {
        &&& self.codec == codec
        &&& self.state.decoder == 0
        &&& self.state.width == 0
        &&& self.state.height == 0
        &&& self.state.frames@.len() == 0
        &&& !self.state.decoder_created
        &&& self.state.last_error is None
    }

    /// A decoder as opening the driver left it: with the driver's context
    /// and parser where it opened, else on the CPU.  The callbacks of the
    /// parser work on `state`.
    pub fn new<F>(
        codec: VideoCodec,
        opening: NvOpening,
        cuda_ctx: usize,
        parser: usize,
        state: Box<NvdecState>,
        open_software: F,
    ) -> (r: Result<Self, VideoError>) where F: FnOnce(SoftwareDecoder) -> S
        requires
            opening.is_over(),
            call_requires(open_software, (software_or_hevc(codec),)),
        ensures
            match opening {
                NvOpening::Opened => {
                    &&& r matches Ok(decoder)
                    &&& decoder == (NvdecDecoder {
                        codec,
                        cuda_ctx,
                        parser,
                        state,
                        initialized: true,
                        sw_fallback: None::<S>,
                    })
                },
                NvOpening::Unsupported => r is Err && r->Err_0.text()
                    == "NVDEC: unsupported codec"@,
                _ => {
                    &&& r matches Ok(decoder)
                    &&& decoder.is_fresh(codec)
                    &&& decoder.cuda_ctx == 0
                    &&& decoder.parser == 0
                    &&& !decoder.initialized
                    &&& decoder.sw_fallback is Some
                    &&& call_ensures(
                        open_software,
                        (software_or_hevc(codec),),
                        decoder.sw_fallback->0,
                    )
                },
            },
    {
        match opening {
            NvOpening::Opened => Ok(
                NvdecDecoder {
                    codec,
                    cuda_ctx,
                    parser,
                    state,
                    initialized: true,
                    sw_fallback: None,
                },
            ),
            NvOpening::Unsupported => Err(VideoError::codec("NVDEC: unsupported codec")),
            _ => Ok(Self::with_sw_fallback(codec, open_software)),
        }
    }

    /// A decoder on the CPU.
    pub fn with_sw_fallback<F>(codec: VideoCodec, open_software: F) -> (decoder: Self) where
        F: FnOnce(SoftwareDecoder) -> S,

        requires
            call_requires(open_software, (software_or_hevc(codec),)),
        ensures
            decoder.is_fresh(codec),
            decoder.cuda_ctx == 0,
            decoder.parser == 0,
            !decoder.initialized,
            decoder.sw_fallback is Some,
            call_ensures(open_software, (software_or_hevc(codec),), decoder.sw_fallback->0),
    {
        NvdecDecoder {
            codec,
            cuda_ctx: 0,
            parser: 0,
            state: Box::new(NvdecState::new()),
            initialized: false,
            sw_fallback: Some(open_software(software_stand_in(codec))),
        }
    }

    /// The codec of the stream.
    pub fn codec(&self) -> (codec: VideoCodec)
        ensures
            codec == self.codec,
    {
        self.codec
    }

    /// After an access unit has been parsed: reports that parsing failed, or
    /// else the error of a callback, or else gives the frame that came last,
    /// with the time of the access unit.
    pub fn after_parse(&mut self, status: i32, timestamp_us: u64) -> (r: Result<
        Option<DecodedFrame>,
        VideoError,
    >)
        ensures
            final(self).codec == old(self).codec,
            final(self).cuda_ctx == old(self).cuda_ctx,
            final(self).parser == old(self).parser,
            final(self).initialized == old(self).initialized,
            final(self).sw_fallback == old(self).sw_fallback,
            final(self).state.decoder == old(self).state.decoder,
            final(self).state.decoder_created == old(self).state.decoder_created,
            final(self).state.width == old(self).state.width,
            final(self).state.height == old(self).state.height,
            status != CUDA_SUCCESS ==> {
                &&& *final(self) == *old(self)
                &&& r is Err
                &&& r->Err_0.text() == "NVDEC: cuvidParseVideoData failed: "@ + decimal(
                    status as int,
                )
            },
            status == CUDA_SUCCESS ==> {
                &&& final(self).state.last_error is None
                &&& match old(self).state.error() {
                    Some(message) => {
                        &&& r is Err
                        &&& r->Err_0.text() == message
                        &&& final(self).state.frames@ == old(self).state.frames@
                    },
                    None => if old(self).state.frames@.len() > 0 {
                        &&& r matches Ok(Some(frame))
                        &&& frame == (DecodedFrame {
                            timestamp_us,
                            ..old(self).state.frames@.last()
                        })
                        &&& final(self).state.frames@ == old(self).state.frames@.drop_last()
                    } else {
                        &&& r matches Ok(None)
                        &&& final(self).state.frames@ == old(self).state.frames@
                    },
                }
            },
    {
        if status != CUDA_SUCCESS {
            return Err(error_with_status("NVDEC: cuvidParseVideoData failed: ", status));
        }
        match self.state.last_error.take() {
            Some(message) => {
                return Err(VideoError::Codec(message));
            },
            None => {},
        }
        match self.state.frames.pop() {
            Some(mut frame) => {
                frame.timestamp_us = timestamp_us;
                Ok(Some(frame))
            },
            None => Ok(None),
        }
    }

    /// After the end of the stream has been parsed: all the frames that have
    /// come and not been taken.
    pub fn take_frames(&mut self) -> (frames: Vec<DecodedFrame>)
        ensures
            frames@ == old(self).state.frames@,
            final(self).state.frames@.len() == 0,
            *final(self) == (NvdecDecoder { state: final(self).state, ..*old(self) }),
            *final(self).state == (NvdecState {
                frames: final(self).state.frames,
                ..*old(self).state
            }),
    {
        let mut frames: Vec<DecodedFrame> = Vec::new();
        std::mem::swap(&mut frames, &mut self.state.frames);
        frames
    }

    /// What is to be destroyed when the decoder goes away: nothing without a
    /// driver.
    pub fn teardown(&self) -> (t: NvTeardown)
        ensures
            t.parser == if self.initialized {
                unless_null(self.parser)
            } else {
                None
            },
            t.decoder == if self.initialized && self.state.decoder_created {
                unless_null(self.state.decoder)
            } else {
                None
            },
            t.context == if self.initialized {
                unless_null(self.cuda_ctx)
            } else {
                None
            },
    {
        if !self.initialized {
            return NvTeardown { parser: None, decoder: None, context: None };
        }
        NvTeardown {
            parser: some_unless_null(self.parser),
            decoder: if self.state.decoder_created {
                some_unless_null(self.state.decoder)
            } else {
                None
            },
            context: some_unless_null(self.cuda_ctx),
        }
    }
}

impl<S: VideoDecoder> NvdecDecoder<S> {
    /// Decodes on the CPU where the driver does not serve the stream.
    pub fn decode_on_cpu(&mut self, data: &[u8], timestamp_us: u64) -> (r: Option<
        Result<Option<DecodedFrame>, VideoError>,
    >)
        ensures
            *final(self) == (NvdecDecoder { sw_fallback: final(self).sw_fallback, ..*old(self) }),
            match old(self).sw_fallback {
                Some(before) => {
                    &&& r is Some
                    &&& final(self).sw_fallback is Some
                    &&& S::decodes(before, data@, timestamp_us, final(self).sw_fallback->0, r->0)
                },
                None => r is None && *final(self) == *old(self),
            },
    {
        match &mut self.sw_fallback {
            Some(sw) => Some(sw.decode(data, timestamp_us)),
            None => None,
        }
    }

    /// Flushes the decoder on the CPU where the driver does not serve the
    /// stream.
    pub fn flush_on_cpu(&mut self) -> (r: Option<Result<Vec<DecodedFrame>, VideoError>>)
        ensures
            *final(self) == (NvdecDecoder { sw_fallback: final(self).sw_fallback, ..*old(self) }),
            match old(self).sw_fallback {
                Some(before) => {
                    &&& r is Some
                    &&& final(self).sw_fallback is Some
                    &&& S::flushes(before, final(self).sw_fallback->0, r->0)
                },
                None => r is None && *final(self) == *old(self),
            },
    {
        match &mut self.sw_fallback {
            Some(sw) => Some(sw.flush()),
            None => None,
        }
    }
}

impl NvdecState {
    /// A picture that was copied with this pitch, as packed RGB: chroma lies
    /// directly behind the rows of luma.
    pub open spec fn image(self, nv12: Seq<u8>, pitch: u32) -> Seq<u8> {
        nv12_image(
            nv12,
            pitch as int,
            nv12.skip(pitch * self.height),
            pitch as int,
            self.width as int,
            self.height as int,
        )
    }
}

/// The pixel of a copied picture at `row` and `col` is the BT.601 value of
/// three bytes: the luma byte in its row of `pitch` bytes, and the chroma pair
/// of its block of two by two pixels, in the rows behind the luma.  The last
/// row of an odd height takes the pair of the two rows before it.
pub proof fn lemma_copied_pixel(state: NvdecState, nv12: Seq<u8>, pitch: u32, row: int, col: int)
    requires
        state.holds_picture(nv12, pitch),
        state.height >= 2,
        0 <= row < state.height,
        0 <= col < state.width,
    ensures
        ({
            let rgb = state.image(nv12, pitch);
            let chroma_row = if row / 2 < state.height / 2 {
                row / 2
            } else {
                row / 2 - 1
            };
            let pair = (state.height + chroma_row) * pitch + (col / 2) * 2;
            let pixel = bt601(nv12[row * pitch + col], nv12[pair], nv12[pair + 1]);
            let at = (row * state.width + col) * 3;
            &&& rgb.len() == state.width * state.height * 3
            &&& rgb[at] == pixel.r
            &&& rgb[at + 1] == pixel.g
            &&& rgb[at + 2] == pixel.b
        }),
{
    let s = pitch as int;
    let w = state.width as int;
    let h = state.height as int;
    let uv = nv12.skip(s * h);
    let k = h / 2;
    assert(0 <= s * h && 0 <= s * k && (h - 1) * s + s == s * h && (k - 1) * s + s == s * k && k * s
        == s * k) by (nonlinear_arith)
        requires
            s >= 0,
            h >= 2,
            k >= 1,
    ;
    assert(uv.len() == s * k);
    let pairs = ((w - 1) / 2) * 2 + 2;
    assert(chroma_bytes(w, h, s) == (k - 1) * s + pairs);
    assert(pairs <= s);
    let own = if row / 2 < k {
        row / 2
    } else {
        row / 2 - 1
    };
    assert((h + own) * s == s * h + own * s && 0 <= own * s <= (k - 1) * s) by (nonlinear_arith)
        requires
            0 <= own < k,
            s >= 0,
    ;
    if row / 2 < k {
        assert(has_chroma_row(uv.len() as int, s, w, row / 2));
    } else {
        assert(row / 2 == k);
        assert(!has_chroma_row(uv.len() as int, s, w, row / 2));
    }
    let pixel = |r: int, c: int|
        bt601(nv12[r * s + c], chroma(uv, s, w, r, c, 0), chroma(uv, s, w, r, c, 1));
    assert(state.image(nv12, pitch) =~= packed(w, h, pixel));
    lemma_packed_byte(w, h, pixel, row, col, 0);
    lemma_packed_byte(w, h, pixel, row, col, 1);
    lemma_packed_byte(w, h, pixel, row, col, 2);
}

/// A picture is copied whole where its rows, with their chroma pairs, fit in
/// the pitch.
pub proof fn lemma_whole_picture_is_copied(state: NvdecState, nv12: Seq<u8>, pitch: u32)
    requires
        pitch >= state.width + state.width % 2,
        nv12.len() == pitch * state.height + pitch * (state.height / 2),
    ensures
        state.holds_picture(nv12, pitch),
{
    let s = pitch as int;
    let h = state.height as int;
    let k = h / 2;
    assert((h - 1) * s + s == s * h && (k - 1) * s + s == s * k && 0 <= s * k) by (nonlinear_arith)
        requires
            s >= 0,
            h >= 0,
            k >= 0,
    ;
}

/// The driver's numbers: H.264 is 4 and H.265 is 8, for a parser that is
/// created once context and initialisation have succeeded.
pub proof fn lemma_codec_numbers(name: &'static str)
    ensures
        nv_codec(VideoCodec::H264) == Some(4i32),
        nv_codec(VideoCodec::H265) == Some(8i32),
        nv_codec(VideoCodec::Other(name)) is None,
        NvOpening::Init.next(VideoCodec::H264, 0).next(VideoCodec::H264, 0)
            == NvOpening::CreateParser(4),
        NvOpening::Init.next(VideoCodec::H265, 0).next(VideoCodec::H265, 0)
            == NvOpening::CreateParser(8),
        NvOpening::Init.next(VideoCodec::Other(name), 0).next(VideoCodec::Other(name), 0)
            == NvOpening::Unsupported,
{
}

/// A handle is destroyed exactly where it is not zero.
pub proof fn lemma_null_is_no_handle(handle: usize)
    ensures
        handle == 0 <==> unless_null(handle) is None,
        handle != 0 ==> unless_null(handle) == Some(handle),
{
}

/// The error that is to be reported is the one that a callback left.
pub proof fn lemma_error_is_the_last_one(state: NvdecState)
    ensures
        state.last_error is None <==> state.error() is None,
        state.last_error matches Some(message) ==> state.error() == Some(message@),
{
}

/// What a copied picture needs: the bytes of all rows, luma and chroma, and
/// rows that fit in the pitch with their chroma pairs.
pub proof fn lemma_what_a_copied_picture_needs(state: NvdecState, nv12: Seq<u8>, pitch: u32)
    requires
        state.width > 0,
        state.height >= 2,
    ensures
        state.holds_picture(nv12, pitch) <==> nv12.len() == pitch * state.height + pitch * (
        state.height / 2) && pitch >= state.width + state.width % 2,
{
    let s = pitch as int;
    let h = state.height as int;
    let k = h / 2;
    let w = state.width as int;
    assert((h - 1) * s + s == s * h && (k - 1) * s + s == s * k && 0 <= s * k) by (nonlinear_arith)
        requires
            s >= 0,
            h >= 0,
            k >= 0,
    ;
    assert(((w - 1) / 2) * 2 + 2 == w + w % 2);
}

/// A decoder that has not seen any data has no frames, no error and no
/// decoder of the driver.
pub proof fn lemma_fresh_decoder<S>(decoder: NvdecDecoder<S>, codec: VideoCodec)
    requires
        decoder.is_fresh(codec),
    ensures
        decoder.codec == codec,
        decoder.state.frames@.len() == 0,
        decoder.state.last_error is None,
        !decoder.state.decoder_created && decoder.state.decoder == 0,
        decoder.state.width == 0 && decoder.state.height == 0,
{
}

} // verus!
