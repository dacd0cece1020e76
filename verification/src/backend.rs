//! Which decoder serves a stream: backend detection, availability, and the
//! decoder that falls back to software by itself.

use vstd::prelude::*;

use crate::media::{DecodedFrame, VideoCodec, VideoError};

verus! {

/// Detected hardware decode backend.
#[derive(Debug, Clone, Copy, PartialEq, Eq, Structural)]
pub enum HwBackend {
    VideoToolbox,
    Vaapi,
    Nvdec,
    MediaFoundation,
    Software,
}

impl HwBackend {
    /// The name under which the backend is shown.
    pub open spec fn name(self) -> Seq<char> {
        match self {
            HwBackend::VideoToolbox => "VideoToolbox"@,
            HwBackend::Vaapi => "VA-API"@,
            HwBackend::Nvdec => "NVDEC"@,
            HwBackend::MediaFoundation => "MediaFoundation"@,
            HwBackend::Software => "Software"@,
        }
    }

    /// The name under which the backend is shown.
    pub fn to_string(&self) -> (text: String)
        ensures
            text@ == self.name(),
    {
        let name = match self {
            HwBackend::VideoToolbox => "VideoToolbox",
            HwBackend::Vaapi => "VA-API",
            HwBackend::Nvdec => "NVDEC",
            HwBackend::MediaFoundation => "MediaFoundation",
            HwBackend::Software => "Software",
        };
        name.to_owned()
    }
}

/// The operating system a program is built for.
#[derive(Debug, Clone, Copy, PartialEq, Eq, Structural)]
pub enum TargetOs {
    Macos,
    Ios,
    Linux,
    Windows,
    Other,
}

/// What a program is built for: its operating system and the backends that
/// were switched on.
#[derive(Debug, Clone, Copy, PartialEq, Eq, Structural)]
pub struct BuildTarget {
    pub os: TargetOs,
    pub videotoolbox: bool,
    pub vaapi: bool,
    pub nvdec: bool,
    pub media_foundation: bool,
}

impl BuildTarget {
    /// VideoToolbox is compiled in: it is for macOS and iOS.
    pub open spec fn has_videotoolbox(self) -> bool {
        (self.os == TargetOs::Macos || self.os == TargetOs::Ios) && self.videotoolbox
    }

    /// VA-API is compiled in: it is for Linux.
    pub open spec fn has_vaapi(self) -> bool {
        self.os == TargetOs::Linux && self.vaapi
    }

    /// NVDEC is compiled in: it is for Linux and Windows.
    pub open spec fn has_nvdec(self) -> bool {
        (self.os == TargetOs::Linux || self.os == TargetOs::Windows) && self.nvdec
    }

    /// Media Foundation is compiled in: it is for Windows.
    pub open spec fn has_media_foundation(self) -> bool {
        self.os == TargetOs::Windows && self.media_foundation
    }

    /// The backend is compiled in; software always is.
    pub open spec fn has(self, backend: HwBackend) -> bool {
        match backend {
            HwBackend::VideoToolbox => self.has_videotoolbox(),
            HwBackend::Vaapi => self.has_vaapi(),
            HwBackend::Nvdec => self.has_nvdec(),
            HwBackend::MediaFoundation => self.has_media_foundation(),
            HwBackend::Software => true,
        }
    }

    /// H.265/HEVC decodes on a working backend; `media_foundation_hevc` is
    /// whether Media Foundation has a transform for it.
    pub open spec fn decodes_hevc(self, media_foundation_hevc: bool) -> bool {
        self.has_videotoolbox() || (self.has_media_foundation() && media_foundation_hevc)
    }

    /// H.264 decodes on a working backend.
    pub open spec fn decodes_h264(self) -> bool {
        self.has_videotoolbox() || self.has_media_foundation()
    }

    /// The backend to prefer: VideoToolbox, VA-API, NVDEC, Media Foundation, in
    /// that order, or software where none is compiled in.
    pub open spec fn preferred(self) -> HwBackend {
        if self.has_videotoolbox() {
            HwBackend::VideoToolbox
        } else if self.has_vaapi() {
            HwBackend::Vaapi
        } else if self.has_nvdec() {
            HwBackend::Nvdec
        } else if self.has_media_foundation() {
            HwBackend::MediaFoundation
        } else {
            HwBackend::Software
        }
    }
}

/// Detects the best available hardware decode backend.
pub fn detect_hw_backend(target: BuildTarget) -> (backend: HwBackend)
    ensures
        backend == target.preferred(),
{
    let apple = target.os == TargetOs::Macos || target.os == TargetOs::Ios;
    let nvidia = target.os == TargetOs::Linux || target.os == TargetOs::Windows;
    if apple && target.videotoolbox {
        HwBackend::VideoToolbox
    } else if target.os == TargetOs::Linux && target.vaapi {
        HwBackend::Vaapi
    } else if nvidia && target.nvdec {
        HwBackend::Nvdec
    } else if target.os == TargetOs::Windows && target.media_foundation {
        HwBackend::MediaFoundation
    } else {
        HwBackend::Software
    }
}

/// Whether the host can hardware-decode H.265/HEVC via a working backend.
///
/// On Windows this is what probing the HEVC transform of Media Foundation
/// found, `media_foundation_hevc`.  On macOS and iOS VideoToolbox always supports
/// HEVC.  VA-API and NVDEC do not count as working HEVC backends.
pub fn is_hevc_available(target: BuildTarget, media_foundation_hevc: bool) -> (available: bool)
    ensures
        available == target.decodes_hevc(media_foundation_hevc),
{
    if target.os == TargetOs::Windows && target.media_foundation {
        return media_foundation_hevc;
    }
    (target.os == TargetOs::Macos || target.os == TargetOs::Ios) && target.videotoolbox
}

/// Whether the host can hardware-decode H.264 via a platform API, VA-API
/// not counted.
pub fn is_h264_hw_available(target: BuildTarget) -> (available: bool)
    ensures
        available == target.decodes_h264(),
{
    if target.os == TargetOs::Windows && target.media_foundation {
        return true;
    }
    (target.os == TargetOs::Macos || target.os == TargetOs::Ios) && target.videotoolbox
}

/// The detected backend is one that is compiled in, and software is chosen
/// only where no other backend is.
pub proof fn lemma_preferred_is_compiled_in(target: BuildTarget, other: HwBackend)
    ensures
        target.has(target.preferred()),
        target.preferred() == HwBackend::Software && target.has(other) ==> other
            == HwBackend::Software,
{
}

/// A backend is chosen only on a platform it is for, whatever was switched on.
pub proof fn lemma_preferred_is_for_the_platform(target: BuildTarget)
    ensures
        match target.preferred() {
            HwBackend::VideoToolbox => target.os == TargetOs::Macos || target.os == TargetOs::Ios,
            HwBackend::Vaapi => target.os == TargetOs::Linux,
            HwBackend::Nvdec => target.os == TargetOs::Linux || target.os == TargetOs::Windows,
            HwBackend::MediaFoundation => target.os == TargetOs::Windows,
            HwBackend::Software => true,
        },
{
}

/// A host that decodes H.265/HEVC also decodes H.264.
pub proof fn lemma_hevc_hosts_decode_h264(target: BuildTarget, media_foundation_hevc: bool)
    ensures
        target.decodes_hevc(media_foundation_hevc) ==> target.decodes_h264(),
{
}

/// A decoder of one of the two supported codecs that runs on the CPU.
#[derive(Debug, Clone, Copy, PartialEq, Eq, Structural)]
pub enum SoftwareDecoder {
    H264,
    Hevc,
}

/// The software decoder for a codec, if there is one.
pub open spec fn software_for(codec: VideoCodec) -> Option<SoftwareDecoder> {
    match codec {
        VideoCodec::H264 => Some(SoftwareDecoder::H264),
        VideoCodec::H265 => Some(SoftwareDecoder::Hevc),
        VideoCodec::Other(_) => None,
    }
}

/// The software decoder that a backend without a working driver hands its
/// stream to: HEVC for everything but H.264.
pub open spec fn software_or_hevc(codec: VideoCodec) -> SoftwareDecoder {
    match codec {
        VideoCodec::H264 => SoftwareDecoder::H264,
        _ => SoftwareDecoder::Hevc,
    }
}

/// The software decoder for a codec; `message` describes the error where
/// there is none.
pub fn software_decoder(codec: VideoCodec, message: &str) -> (r: Result<
    SoftwareDecoder,
    VideoError,
>)
    ensures
        match software_for(codec) {
            Some(kind) => r == Ok::<SoftwareDecoder, VideoError>(kind),
            None => r is Err && r->Err_0.text() == message@,
        },
{
    match codec {
        VideoCodec::H264 => Ok(SoftwareDecoder::H264),
        VideoCodec::H265 => Ok(SoftwareDecoder::Hevc),
        VideoCodec::Other(_) => Err(VideoError::codec(message)),
    }
}

/// The software decoder that stands in for a backend without a driver.
pub fn software_stand_in(codec: VideoCodec) -> (kind: SoftwareDecoder)
    ensures
        kind == software_or_hevc(codec),
{
    match codec {
        VideoCodec::H264 => SoftwareDecoder::H264,
        _ => SoftwareDecoder::Hevc,
    }
}

/// A decoder that turns access units into frames.
///
/// What a call does is a relation between the decoder before the call, the
/// arguments, the decoder after it and the result; each implementation says
/// which.
pub trait VideoDecoder: Sized {
    /// The decoder reports this codec.
    open spec fn reports(&self, codec: VideoCodec) -> bool {
        true
    }

    /// Decoding `data` can take `before` to `after` with this result.
    open spec fn decodes(
        before: Self,
        data: Seq<u8>,
        timestamp_us: u64,
        after: Self,
        result: Result<Option<DecodedFrame>, VideoError>,
    ) -> bool {
        true
    }

    /// Flushing can take `before` to `after` with this result.
    open spec fn flushes(
        before: Self,
        after: Self,
        result: Result<Vec<DecodedFrame>, VideoError>,
    ) -> bool {
        true
    }

    fn codec(&self) -> (codec: VideoCodec)
        ensures
            self.reports(codec),
    ;

    fn decode(&mut self, data: &[u8], timestamp_us: u64) -> (result: Result<
        Option<DecodedFrame>,
        VideoError,
    >)
        ensures
            Self::decodes(*old(self), data@, timestamp_us, *final(self), result),
    ;

    fn flush(&mut self) -> (result: Result<Vec<DecodedFrame>, VideoError>)
        ensures
            Self::flushes(*old(self), *final(self), result),
    ;
}

/// Hardware-accelerated video decoder with automatic software fallback.
pub struct HwVideoDecoder<D> {
    pub backend: HwBackend,
    pub inner: D,
}

impl<D> HwVideoDecoder<D> {
    /// Creates a decoder with automatic backend selection.
    ///
    /// `open_hardware` opens a decoder on the detected backend, and
    /// `open_software` opens one on the CPU where there is no backend or it
    /// could not be opened.
    pub fn new<H, S>(
        codec: VideoCodec,
        target: BuildTarget,
        open_hardware: H,
        open_software: S,
    ) -> (r: Result<HwVideoDecoder<D>, VideoError>) where
        H: FnOnce(HwBackend, VideoCodec) -> Result<D, VideoError>,
        S: FnOnce(SoftwareDecoder) -> D,

        requires
            target.preferred() != HwBackend::Software ==> call_requires(
                open_hardware,
                (target.preferred(), codec),
            ),
            software_for(codec) matches Some(kind) ==> call_requires(open_software, (kind,)),
        ensures
            codec !is Other ==> r is Ok,
            r matches Ok(decoder) ==> {
                ||| decoder.backend == target.preferred() && decoder.backend != HwBackend::Software
                    && call_ensures(
                    open_hardware,
                    (target.preferred(), codec),
                    Ok::<D, VideoError>(decoder.inner),
                )
                ||| decoder.backend == HwBackend::Software && no_hardware(
                    target,
                    codec,
                    open_hardware,
                ) && software_for(codec) is Some && call_ensures(
                    open_software,
                    (software_for(codec).unwrap(),),
                    decoder.inner,
                )
            },
            r matches Err(error) ==> {
                &&& software_for(codec) is None
                &&& no_hardware(target, codec, open_hardware)
                &&& error.text() == "Unsupported codec: "@ + codec.name()
            },
    {
        let backend = detect_hw_backend(target);
        if backend != HwBackend::Software {
            match open_hardware(backend, codec) {
                Ok(inner) => {
                    return Ok(HwVideoDecoder { backend, inner });
                },
                Err(_) => {},
            }
        }
        let mut message = "Unsupported codec: ".to_owned();
        message.append(codec.name_text());
        match software_decoder(codec, message.as_str()) {
            Ok(kind) => Ok(
                HwVideoDecoder { backend: HwBackend::Software, inner: open_software(kind) },
            ),
            Err(error) => Err(error),
        }
    }

    /// The backend in use.
    pub fn backend(&self) -> (backend: HwBackend)
        ensures
            backend == self.backend,
    {
        self.backend
    }

    /// Whether frames are decoded by hardware.
    pub fn is_hardware(&self) -> (hardware: bool)
        ensures
            hardware == (self.backend != HwBackend::Software),
    {
        self.backend != HwBackend::Software
    }
}

/// No hardware decoder serves the stream: there is no backend, or opening a
/// decoder on it failed.
pub open spec fn no_hardware<D, H: FnOnce(HwBackend, VideoCodec) -> Result<D, VideoError>>(
    target: BuildTarget,
    codec: VideoCodec,
    open_hardware: H,
) -> bool {
    ||| target.preferred() == HwBackend::Software
    ||| exists|opened: Result<D, VideoError>|
        opened is Err && #[trigger] call_ensures(
            open_hardware,
            (target.preferred(), codec),
            opened,
        )
}

impl<D: VideoDecoder> VideoDecoder for HwVideoDecoder<D> {
    open spec fn reports(&self, codec: VideoCodec) -> bool {
        self.inner.reports(codec)
    }

    /// The decoder inside does the work, and the backend stays.
    open spec fn decodes(
        before: Self,
        data: Seq<u8>,
        timestamp_us: u64,
        after: Self,
        result: Result<Option<DecodedFrame>, VideoError>,
    ) -> bool {
        &&& D::decodes(before.inner, data, timestamp_us, after.inner, result)
        &&& after.backend == before.backend
    }

    open spec fn flushes(
        before: Self,
        after: Self,
        result: Result<Vec<DecodedFrame>, VideoError>,
    ) -> bool {
        &&& D::flushes(before.inner, after.inner, result)
        &&& after.backend == before.backend
    }

    fn codec(&self) -> (codec: VideoCodec) {
        self.inner.codec()
    }

    fn decode(&mut self, data: &[u8], timestamp_us: u64) -> (result: Result<
        Option<DecodedFrame>,
        VideoError,
    >) {
        self.inner.decode(data, timestamp_us)
    }

    fn flush(&mut self) -> (result: Result<Vec<DecodedFrame>, VideoError>) {
        self.inner.flush()
    }
}

/// Which backend is preferred, platform by platform: on macOS and iOS
/// VideoToolbox, on Linux VA-API before NVDEC, on Windows NVDEC before Media
/// Foundation, each where it was switched on, and else software.
pub proof fn lemma_order_of_preference(target: BuildTarget)
    ensures
        target.os == TargetOs::Macos || target.os == TargetOs::Ios ==> {
            &&& target.videotoolbox ==> target.preferred() == HwBackend::VideoToolbox
            &&& !target.videotoolbox ==> target.preferred() == HwBackend::Software
        },
        target.os == TargetOs::Linux ==> {
            &&& target.vaapi ==> target.preferred() == HwBackend::Vaapi
            &&& !target.vaapi && target.nvdec ==> target.preferred() == HwBackend::Nvdec
            &&& !target.vaapi && !target.nvdec ==> target.preferred() == HwBackend::Software
        },
        target.os == TargetOs::Windows ==> {
            &&& target.nvdec ==> target.preferred() == HwBackend::Nvdec
            &&& !target.nvdec && target.media_foundation ==> target.preferred()
                == HwBackend::MediaFoundation
            &&& !target.nvdec && !target.media_foundation ==> target.preferred()
                == HwBackend::Software
        },
        target.os == TargetOs::Other ==> target.preferred() == HwBackend::Software,
{
}

/// Which host decodes which codec: macOS and iOS both with VideoToolbox, and
/// Windows with Media Foundation H.264 always and H.265/HEVC as it was found.
/// No other platform counts, whatever was switched on.
pub proof fn lemma_which_host_decodes(target: BuildTarget, media_foundation_hevc: bool)
    ensures
        target.os == TargetOs::Macos || target.os == TargetOs::Ios ==> {
            &&& target.decodes_h264() == target.videotoolbox
            &&& target.decodes_hevc(media_foundation_hevc) == target.videotoolbox
        },
        target.os == TargetOs::Windows ==> {
            &&& target.decodes_h264() == target.media_foundation
            &&& target.decodes_hevc(media_foundation_hevc) == (target.media_foundation
                && media_foundation_hevc)
        },
        target.os == TargetOs::Linux || target.os == TargetOs::Other ==> {
            &&& !target.decodes_h264()
            &&& !target.decodes_hevc(media_foundation_hevc)
        },
{
}

/// Each supported codec has a software decoder of its own, and no other codec
/// has one; as a stand-in, HEVC takes every codec but H.264.
pub proof fn lemma_software_decoders(name: &'static str)
    ensures
        software_for(VideoCodec::H264) == Some(SoftwareDecoder::H264),
        software_for(VideoCodec::H265) == Some(SoftwareDecoder::Hevc),
        software_for(VideoCodec::Other(name)) is None,
        software_or_hevc(VideoCodec::H264) == SoftwareDecoder::H264,
        software_or_hevc(VideoCodec::H265) == SoftwareDecoder::Hevc,
        software_or_hevc(VideoCodec::Other(name)) == SoftwareDecoder::Hevc,
{
}

/// A decoder with fallback does what the decoder inside does with the same
/// data and time, gives the same result and stays on its backend.
pub proof fn lemma_inner_decoder_does_the_work<D: VideoDecoder>(
    before: HwVideoDecoder<D>,
    data: Seq<u8>,
    timestamp_us: u64,
    after: HwVideoDecoder<D>,
    frame: Result<Option<DecodedFrame>, VideoError>,
    frames: Result<Vec<DecodedFrame>, VideoError>,
    codec: VideoCodec,
)
    ensures
        HwVideoDecoder::<D>::decodes(before, data, timestamp_us, after, frame) <==> D::decodes(
            before.inner,
            data,
            timestamp_us,
            after.inner,
            frame,
        ) && after.backend == before.backend,
        HwVideoDecoder::<D>::flushes(before, after, frames) <==> D::flushes(
            before.inner,
            after.inner,
            frames,
        ) && after.backend == before.backend,
        before.reports(codec) <==> before.inner.reports(codec),
{
}

/// A stream goes without hardware only for want of a backend, or because
/// opening a decoder on the preferred one has failed.
pub proof fn lemma_why_no_hardware<D, H: FnOnce(HwBackend, VideoCodec) -> Result<D, VideoError>>(
    target: BuildTarget,
    codec: VideoCodec,
    open_hardware: H,
)
    requires
        no_hardware::<D, H>(target, codec, open_hardware),
        target.preferred() != HwBackend::Software,
    ensures
        exists|error: VideoError| #[trigger]
            call_ensures(
                open_hardware,
                (target.preferred(), codec),
                Err::<D, VideoError>(error),
            ),
{
    let opened = choose|opened: Result<D, VideoError>|
        opened is Err && #[trigger] call_ensures(
            open_hardware,
            (target.preferred(), codec),
            opened,
        );
    assert(opened == Err::<D, VideoError>(opened->Err_0));
}

/// The names under which backends are shown.
pub proof fn lemma_names_of_backends()
    ensures
        HwBackend::VideoToolbox.name() == "VideoToolbox"@,
        HwBackend::Vaapi.name() == "VA-API"@,
        HwBackend::Nvdec.name() == "NVDEC"@,
        HwBackend::MediaFoundation.name() == "MediaFoundation"@,
        HwBackend::Software.name() == "Software"@,
{
}

} // verus!
