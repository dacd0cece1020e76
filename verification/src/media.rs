//! The types that every backend shares: codecs, errors, NAL units and frames.

use vstd::prelude::*;

verus! {

/// The codec of an elementary stream.
#[derive(Debug, Clone, Copy, PartialEq, Eq)]
pub enum VideoCodec {
    H264,
    H265,
    /// The codec of this name, which none of the decoders handles.
    Other(&'static str),
}

impl VideoCodec {
    /// The name of the codec.
    pub open spec fn name(self) -> Seq<char> {
        match self {
            VideoCodec::H264 => "H264"@,
            VideoCodec::H265 => "H265"@,
            VideoCodec::Other(name) => name@,
        }
    }

    /// The name of the codec.
    pub fn name_text(&self) -> (name: &'static str)
        ensures
            name@ == self.name(),
    {
        match *self {
            VideoCodec::H264 => "H264",
            VideoCodec::H265 => "H265",
            VideoCodec::Other(name) => name,
        }
    }
}

/// Why a decode operation failed.
#[derive(Debug)]
pub enum VideoError {
    /// A codec or driver failure, described in words.
    Codec(String),
}

impl VideoError {
    /// The description that the error carries.
    pub open spec fn text(self) -> Seq<char> {
        match self {
            VideoError::Codec(message) => message@,
        }
    }

    /// An error described by `message`.
    pub fn codec(message: &str) -> (error: VideoError)
        ensures
            error.text() == message@,
    {
        VideoError::Codec(message.to_owned())
    }

    /// The description that the error carries.
    pub fn message(&self) -> (message: &str)
        ensures
            message@ == self.text(),
    {
        match self {
            VideoError::Codec(message) => message.as_str(),
        }
    }
}

/// One NAL unit of an access unit, start code removed.
#[derive(Debug)]
pub struct NalUnit {
    pub data: Vec<u8>,
}

impl View for NalUnit {
    type V = Seq<u8>;

    open spec fn view(&self) -> Seq<u8> {
        self.data@
    }
}

/// The bytes of each NAL unit, in order.
pub open spec fn nal_bytes(nals: Seq<NalUnit>) -> Seq<Seq<u8>> {
    Seq::new(nals.len(), |i: int| nals[i]@)
}

/// One decoded picture, packed as RGB.
#[derive(Debug)]
pub struct DecodedFrame {
    pub width: usize,
    pub height: usize,
    pub rgb8_data: Vec<u8>,
    pub timestamp_us: u64,
    pub keyframe: bool,
    pub bit_depth: u8,
    pub rgb16_data: Option<Vec<u16>>,
}

impl DecodedFrame {
    /// The frame is an 8-bit picture of this size, content, time and kind.
    pub open spec fn is_rgb8(
        self,
        width: usize,
        height: usize,
        rgb: Seq<u8>,
        timestamp_us: u64,
        keyframe: bool,
    ) -> bool {
        &&& self.width == width
        &&& self.height == height
        &&& self.rgb8_data@ == rgb
        &&& self.timestamp_us == timestamp_us
        &&& self.keyframe == keyframe
        &&& self.bit_depth == 8
        &&& self.rgb16_data is None
    }

    /// An 8-bit RGB picture.
    pub fn rgb8(
        width: usize,
        height: usize,
        rgb: Vec<u8>,
        timestamp_us: u64,
        keyframe: bool,
    ) -> (frame: DecodedFrame)
        ensures
            frame.is_rgb8(width, height, rgb@, timestamp_us, keyframe),
            frame.width == width,
            frame.height == height,
            frame.rgb8_data@ == rgb@,
            frame.timestamp_us == timestamp_us,
            frame.keyframe == keyframe,
            frame.bit_depth == 8,
            frame.rgb16_data is None,
    {
        DecodedFrame {
            width,
            height,
            rgb8_data: rgb,
            timestamp_us,
            keyframe,
            bit_depth: 8,
            rgb16_data: None,
        }
    }
}

/// What a frame of an 8-bit picture holds.
pub proof fn lemma_fields_of_rgb8(
    frame: DecodedFrame,
    width: usize,
    height: usize,
    rgb: Seq<u8>,
    timestamp_us: u64,
    keyframe: bool,
)
    ensures
        frame.is_rgb8(width, height, rgb, timestamp_us, keyframe) <==> frame.width == width
            && frame.height == height && frame.rgb8_data@ == rgb && frame.timestamp_us
            == timestamp_us && frame.keyframe == keyframe && frame.bit_depth == 8
            && frame.rgb16_data is None,
{
}

} // verus!
