//! Opening and closing a VA-API decoder.

use vstd::prelude::*;

use crate::backend::{software_decoder, software_for, SoftwareDecoder, VideoDecoder};
use crate::media::{DecodedFrame, VideoCodec, VideoError};
use crate::vaapi::decoder::VaapiDecoder;
use crate::vaapi::dpb::{Dpb, DpbEntry};
use crate::vaapi::params::{VA_PROFILE_H264_HIGH, VA_PROFILE_HEVC_MAIN, VA_STATUS_SUCCESS};

verus! {

/// How far opening the driver has come.
#[derive(Debug, Clone, Copy, PartialEq, Eq, Structural)]
pub enum VaOpening {
    LoadLibva,
    LoadLibvaDrm,
    OpenNode,
    GetDisplay,
    Initialize,
    /// A configuration for this profile is to be created.
    CreateConfig(i32),
    /// The driver is open, configured for this profile.
    Opened(i32),
    /// The driver cannot be used.
    Unavailable,
    /// The driver cannot be used, and its node is to be closed.
    CloseNode,
    /// The driver cannot be used; its display is to be terminated, and its
    /// node closed.
    TerminateDisplay,
    /// The driver works, but not for this codec; its display is to be
    /// terminated, and its node closed.
    Unsupported,
}

/// What a step of opening the driver gave.
#[derive(Debug, Clone, Copy, PartialEq, Eq, Structural)]
pub enum VaOpenReply {
    Loaded(bool),
    FileDescriptor(i32),
    Display(usize),
    Status(i32),
}

impl VaOpenReply {
    /// The step succeeded.
    pub open spec fn good(self) -> bool {
        match self {
            VaOpenReply::Loaded(loaded) => loaded,
            VaOpenReply::FileDescriptor(fd) => fd >= 0,
            VaOpenReply::Display(display) => display != 0,
            VaOpenReply::Status(status) => status == VA_STATUS_SUCCESS,
        }
    }

    fn is_good(&self) -> (good: bool)
        ensures
            good == self.good(),
    {
        match *self {
            VaOpenReply::Loaded(loaded) => loaded,
            VaOpenReply::FileDescriptor(fd) => fd >= 0,
            VaOpenReply::Display(display) => display != 0,
            VaOpenReply::Status(status) => status == VA_STATUS_SUCCESS,
        }
    }
}

/// The profile that a decoder is opened with.
pub open spec fn initial_profile(codec: VideoCodec) -> Option<i32> {
    match codec {
        VideoCodec::H264 => Some(VA_PROFILE_H264_HIGH),
        VideoCodec::H265 => Some(VA_PROFILE_HEVC_MAIN),
        VideoCodec::Other(_) => None,
    }
}

impl VaOpening {
    /// Nothing is left to do with the driver.
    pub open spec fn is_over(self) -> bool {
        self is Opened || self is Unavailable || self is CloseNode || self is TerminateDisplay
            || self is Unsupported
    }

    /// Opening has failed after a display was got.
    pub open spec fn leaves_display(self) -> bool {
        self is TerminateDisplay || self is Unsupported
    }

    /// Opening has failed after the node was opened.
    pub open spec fn leaves_node(self) -> bool {
        self is CloseNode || self.leaves_display()
    }

    /// Whether the display is to be terminated, as opening has failed.
    pub fn terminates_display(self) -> (terminates: bool)
        ensures
            terminates == self.leaves_display(),
    {
        matches!(self, VaOpening::TerminateDisplay | VaOpening::Unsupported)
    }

    /// Whether the node is to be closed at last, as opening has failed.
    pub fn closes_node(self) -> (closes: bool)
        ensures
            closes == self.leaves_node(),
    {
        matches!(
            self,
            VaOpening::CloseNode | VaOpening::TerminateDisplay | VaOpening::Unsupported
        )
    }

    /// Where opening stands after a step that succeeded or failed.
    pub open spec fn next(self, codec: VideoCodec, good: bool) -> VaOpening {
        match self {
            VaOpening::LoadLibva => if good {
                VaOpening::LoadLibvaDrm
            } else {
                VaOpening::Unavailable
            },
            VaOpening::LoadLibvaDrm => if good {
                VaOpening::OpenNode
            } else {
                VaOpening::Unavailable
            },
            VaOpening::OpenNode => if good {
                VaOpening::GetDisplay
            } else {
                VaOpening::Unavailable
            },
            VaOpening::GetDisplay => if good {
                VaOpening::Initialize
            } else {
                VaOpening::CloseNode
            },
            VaOpening::Initialize => if !good {
                VaOpening::TerminateDisplay
            } else {
                match initial_profile(codec) {
                    Some(profile) => VaOpening::CreateConfig(profile),
                    None => VaOpening::Unsupported,
                }
            },
            VaOpening::CreateConfig(profile) => if good {
                VaOpening::Opened(profile)
            } else {
                VaOpening::TerminateDisplay
            },
            other => other,
        }
    }

    /// Takes the reply to the step at hand.
    pub fn on_reply(self, codec: VideoCodec, reply: VaOpenReply) -> (next: VaOpening)
        ensures
            next == self.next(codec, reply.good()),
    {
        let good = reply.is_good();
        match self {
            VaOpening::LoadLibva => if good {
                VaOpening::LoadLibvaDrm
            } else {
                VaOpening::Unavailable
            },
            VaOpening::LoadLibvaDrm => if good {
                VaOpening::OpenNode
            } else {
                VaOpening::Unavailable
            },
            VaOpening::OpenNode => if good {
                VaOpening::GetDisplay
            } else {
                VaOpening::Unavailable
            },
            VaOpening::GetDisplay => if good {
                VaOpening::Initialize
            } else {
                VaOpening::CloseNode
            },
            VaOpening::Initialize => if !good {
                VaOpening::TerminateDisplay
            } else {
                match codec {
                    VideoCodec::H264 => VaOpening::CreateConfig(VA_PROFILE_H264_HIGH),
                    VideoCodec::H265 => VaOpening::CreateConfig(VA_PROFILE_HEVC_MAIN),
                    VideoCodec::Other(_) => VaOpening::Unsupported,
                }
            },
            VaOpening::CreateConfig(profile) => if good {
                VaOpening::Opened(profile)
            } else {
                VaOpening::TerminateDisplay
            },
            other => other,
        }
    }
}

/// Where opening stands after the steps whose outcomes are `outcomes`.
pub open spec fn opening_after(codec: VideoCodec, outcomes: Seq<bool>) -> VaOpening
    decreases outcomes.len(),
{
    if outcomes.len() == 0 {
        VaOpening::LoadLibva
    } else {
        opening_after(codec, outcomes.drop_last()).next(codec, outcomes.last())
    }
}

/// A driver opens if and only if all six steps succeed for a codec that it
/// knows, and six steps always settle it.
pub proof fn lemma_opening_outcome(codec: VideoCodec, outcomes: Seq<bool>)
    requires
        outcomes.len() == 6,
    ensures
        opening_after(codec, outcomes).is_over(),
        opening_after(codec, outcomes) is Opened <==> codec !is Other && (forall|i: int|
            0 <= i < 6 ==> #[trigger] outcomes[i]),
        opening_after(codec, outcomes) matches VaOpening::Opened(profile) ==> initial_profile(codec)
            == Some(profile),
{
    lemma_six_steps(codec, outcomes);
}

/// An opening that fails leaves nothing behind: the node is closed exactly
/// where it was opened, and the display terminated exactly where it was got.
pub proof fn lemma_failed_opening_leaves_nothing(codec: VideoCodec, outcomes: Seq<bool>)
    requires
        outcomes.len() == 6,
        !(opening_after(codec, outcomes) is Opened),
    ensures
        opening_after(codec, outcomes).leaves_node() <==> outcomes[0] && outcomes[1]
            && outcomes[2],
        opening_after(codec, outcomes).leaves_display() <==> outcomes[0] && outcomes[1]
            && outcomes[2] && outcomes[3],
{
    lemma_six_steps(codec, outcomes);
}

proof fn lemma_six_steps(codec: VideoCodec, outcomes: Seq<bool>)
    requires
        outcomes.len() == 6,
    ensures
        opening_after(codec, outcomes) == VaOpening::LoadLibva.next(codec, outcomes[0]).next(
            codec,
            outcomes[1],
        ).next(codec, outcomes[2]).next(codec, outcomes[3]).next(codec, outcomes[4]).next(
            codec,
            outcomes[5],
        ),
{
    reveal_with_fuel(opening_after, 7);
    let o5 = outcomes.drop_last();
    let o4 = o5.drop_last();
    let o3 = o4.drop_last();
    let o2 = o3.drop_last();
    let o1 = o2.drop_last();
    assert(o1.drop_last().len() == 0);
    assert(o1.last() == outcomes[0] && o2.last() == outcomes[1] && o3.last() == outcomes[2]
        && o4.last() == outcomes[3] && o5.last() == outcomes[4]);
}

/// What is released when a decoder goes away, in this order.
pub struct VaTeardown {
    pub context: Option<u32>,
    pub surfaces: Option<Vec<u32>>,
    pub config: Option<u32>,
    pub terminate: bool,
    pub node: Option<i32>,
}

/// `id` where it names something.
pub open spec fn unless_zero(id: u32) -> Option<u32> {
    if id != 0 {
        Some(id)
    } else {
        None
    }
}

fn some_unless_zero(id: u32) -> (r: Option<u32>)
    ensures
        r == unless_zero(id),
{
    if id != 0 {
        Some(id)
    } else {
        None
    }
}

impl<S> VaapiDecoder<S> {
    /// A decoder that has not seen any data.
    pub open spec fn is_fresh(self, codec: VideoCodec) -> bool {
        &&& self.codec == codec
        &&& self.context == 0
        &&& self.surfaces@ == Seq::<u32>::empty()
        &&& self.width == 0
        &&& self.height == 0
        &&& !self.surfaces_created
        &&& self.sps is None
        &&& self.pps is None
        &&& self.dpb.entries@ == Seq::<DpbEntry>::empty()
        &&& self.dpb.max_size == 16
        &&& self.dpb.poc_counter == 0
        &&& self.dpb.prev_poc_lsb == 0
        &&& self.dpb.prev_poc_msb == 0
        &&& self.surface_in_use@ == Seq::<bool>::empty()
        &&& self.current_surface_idx == 0
        &&& self.frame_counter == 0
    }

    fn fresh(codec: VideoCodec, sw_fallback: Option<S>) -> (decoder: Self)
        ensures
            decoder.is_fresh(codec),
            decoder.sw_fallback == sw_fallback,
            decoder.node == -1,
            decoder.display == 0,
            decoder.config == 0,
            !decoder.initialized,
            decoder.h264_profile == VA_PROFILE_H264_HIGH,
    {
        VaapiDecoder {
            codec,
            node: -1,
            display: 0,
            config: 0,
            context: 0,
            surfaces: Vec::new(),
            width: 0,
            height: 0,
            initialized: false,
            surfaces_created: false,
            sw_fallback,
            sps: None,
            pps: None,
            dpb: Dpb::new(16),
            surface_in_use: Vec::new(),
            current_surface_idx: 0,
            frame_counter: 0,
            h264_profile: VA_PROFILE_H264_HIGH,
        }
    }

    /// A decoder as opening the driver left it: on the driver's `node`,
    /// `display` and `config` where it opened, else on the CPU.
    pub fn new<F>(
        codec: VideoCodec,
        opening: VaOpening,
        node: i32,
        display: usize,
        config: u32,
        open_software: F,
    ) -> (r: Result<Self, VideoError>) where F: FnOnce(SoftwareDecoder) -> S
        requires
            opening.is_over(),
            software_for(codec) matches Some(kind) ==> call_requires(open_software, (kind,)),
        ensures
            match opening {
                VaOpening::Opened(profile) => {
                    &&& r matches Ok(decoder)
                    &&& decoder.wf()
                    &&& decoder.is_fresh(codec)
                    &&& decoder.node == node
                    &&& decoder.display == display
                    &&& decoder.config == config
                    &&& decoder.initialized
                    &&& decoder.sw_fallback is None
                    &&& decoder.h264_profile == profile
                },
                VaOpening::Unsupported => r is Err && r->Err_0.text() == "Unsupported codec"@,
                _ => Self::on_cpu(codec, open_software, r),
            },
    {
        match opening {
            VaOpening::Opened(profile) => {
                let mut decoder = Self::fresh(codec, None);
                decoder.node = node;
                decoder.display = display;
                decoder.config = config;
                decoder.initialized = true;
                decoder.h264_profile = profile;
                Ok(decoder)
            },
            VaOpening::Unsupported => Err(VideoError::codec("Unsupported codec")),
            _ => Self::with_sw_fallback(codec, open_software),
        }
    }

    /// The result is a decoder on the CPU, or the error for a codec without one.
    pub open spec fn on_cpu<F: FnOnce(SoftwareDecoder) -> S>(
        codec: VideoCodec,
        open_software: F,
        r: Result<Self, VideoError>,
    ) -> bool {
        match software_for(codec) {
            Some(kind) => {
                &&& r matches Ok(decoder)
                &&& decoder.wf()
                &&& decoder.is_fresh(codec)
                &&& decoder.node == -1
                &&& decoder.display == 0
                &&& decoder.config == 0
                &&& !decoder.initialized
                &&& decoder.h264_profile == VA_PROFILE_H264_HIGH
                &&& decoder.sw_fallback is Some
                &&& call_ensures(open_software, (kind,), decoder.sw_fallback->0)
            },
            None => r is Err && r->Err_0.text() == "Unsupported codec"@,
        }
    }

    /// A decoder on the CPU.
    pub fn with_sw_fallback<F>(codec: VideoCodec, open_software: F) -> (r: Result<
        Self,
        VideoError,
    >) where F: FnOnce(SoftwareDecoder) -> S
        requires
            software_for(codec) matches Some(kind) ==> call_requires(open_software, (kind,)),
        ensures
            Self::on_cpu(codec, open_software, r),
    {
        match software_decoder(codec, "Unsupported codec") {
            Ok(kind) => Ok(Self::fresh(codec, Some(open_software(kind)))),
            Err(error) => Err(error),
        }
    }

    /// What is to be released when the decoder goes away: nothing without a
    /// display, else all that there is, and at last the node.
    pub fn teardown(&mut self) -> (t: VaTeardown)
        ensures
            old(self).initialized && old(self).display != 0 ==> {
                &&& t.terminate
                &&& t.config == unless_zero(old(self).config)
                &&& t.context == unless_zero(old(self).context)
                &&& t.surfaces is Some <==> old(self).surfaces@.len() > 0
                &&& t.surfaces matches Some(surfaces) ==> surfaces@ == old(self).surfaces@
                &&& t.node == if old(self).node >= 0 {
                    Some(old(self).node)
                } else {
                    None
                }
            },
            !(old(self).initialized && old(self).display != 0) ==> {
                &&& !t.terminate
                &&& t.config is None
                &&& t.context is None
                &&& t.surfaces is None
                &&& t.node is None
            },
            *final(self) == (VaapiDecoder { surfaces: final(self).surfaces, ..*old(self) }),
            final(self).surfaces@ == if t.surfaces is Some {
                Seq::empty()
            } else {
                old(self).surfaces@
            },
    {
        if !self.initialized || self.display == 0 {
            return VaTeardown {
                context: None,
                surfaces: None,
                config: None,
                terminate: false,
                node: None,
            };
        }
        let mut surfaces: Option<Vec<u32>> = None;
        if self.surfaces.len() > 0 {
            let mut taken: Vec<u32> = Vec::new();
            std::mem::swap(&mut taken, &mut self.surfaces);
            surfaces = Some(taken);
        }
        VaTeardown {
            context: some_unless_zero(self.context),
            surfaces,
            config: some_unless_zero(self.config),
            terminate: true,
            node: if self.node >= 0 {
                Some(self.node)
            } else {
                None
            },
        }
    }
}

impl<S: VideoDecoder> VaapiDecoder<S> {
    /// The codec of the stream.
    pub fn codec(&self) -> (codec: VideoCodec)
        ensures
            codec == self.codec,
    {
        self.codec
    }

    /// Decodes on the CPU where the driver does not serve the stream.
    pub fn decode_on_cpu(&mut self, data: &[u8], timestamp_us: u64) -> (r: Option<
        Result<Option<DecodedFrame>, VideoError>,
    >)
        ensures
            *final(self) == (VaapiDecoder { sw_fallback: final(self).sw_fallback, ..*old(self) }),
            match old(self).sw_fallback {
                Some(before) => {
                    &&& r is Some
                    &&& final(self).sw_fallback is Some
                    &&& S::decodes(before, data@, timestamp_us, final(self).sw_fallback->0, r->0)
                },
                None => r is None && *final(self) == *old(self),
            },
    {
        match &mut self.sw_fallback {
            Some(sw) => Some(sw.decode(data, timestamp_us)),
            None => None,
        }
    }

    /// The frames that are still under way: those of the decoder on the CPU.
    /// The driver holds none back.
    pub fn flush(&mut self) -> (r: Result<Vec<DecodedFrame>, VideoError>)
        ensures
            *final(self) == (VaapiDecoder { sw_fallback: final(self).sw_fallback, ..*old(self) }),
            match old(self).sw_fallback {
                Some(before) => {
                    &&& final(self).sw_fallback is Some
                    &&& S::flushes(before, final(self).sw_fallback->0, r)
                },
                None => {
                    &&& *final(self) == *old(self)
                    &&& r matches Ok(frames)
                    &&& frames@.len() == 0
                },
            },
    {
        match &mut self.sw_fallback {
            Some(sw) => sw.flush(),
            None => Ok(Vec::new()),
        }
    }
}

/// When a step of opening the driver has succeeded: a library is loaded, a
/// descriptor is not negative, an address not zero, a status zero.
pub proof fn lemma_good_replies(loaded: bool, fd: i32, display: usize, status: i32)
    ensures
        VaOpenReply::Loaded(loaded).good() <==> loaded,
        VaOpenReply::FileDescriptor(fd).good() <==> fd >= 0,
        VaOpenReply::Display(display).good() <==> display != 0,
        VaOpenReply::Status(status).good() <==> status == 0,
{
}

/// The steps of opening the driver, in order: both libraries, the node, the
/// display, its initialisation, and a configuration for the profile 7 for
/// H.264 and 12 for H.265.
pub proof fn lemma_steps_of_opening(codec: VideoCodec)
    ensures
        ({
            let node = VaOpening::LoadLibva.next(codec, true).next(codec, true);
            let display = node.next(codec, true);
            let config = display.next(codec, true).next(codec, true);
            &&& VaOpening::LoadLibva.next(codec, true) == VaOpening::LoadLibvaDrm
            &&& node == VaOpening::OpenNode
            &&& display == VaOpening::GetDisplay
            &&& display.next(codec, true) == VaOpening::Initialize
            &&& codec is H264 ==> config == VaOpening::CreateConfig(7)
            &&& codec is H265 ==> config == VaOpening::CreateConfig(12)
            &&& codec is Other ==> config == VaOpening::Unsupported
        }),
        initial_profile(VideoCodec::H264) == Some(7i32),
        initial_profile(VideoCodec::H265) == Some(12i32),
{
}

/// Zero names nothing that could be destroyed.
pub proof fn lemma_zero_names_nothing(id: u32)
    ensures
        id == 0 <==> unless_zero(id) is None,
        id != 0 ==> unless_zero(id) == Some(id),
{
}

/// A decoder that has not seen any data knows no stream and has no surfaces;
/// its buffer is empty, with room for sixteen pictures, and nothing has been
/// counted.
pub proof fn lemma_fresh_decoder<S>(decoder: VaapiDecoder<S>, codec: VideoCodec)
    requires
        decoder.is_fresh(codec),
    ensures
        decoder.wf(),
        decoder.codec == codec,
        decoder.sps is None && decoder.pps is None,
        !decoder.surfaces_created && decoder.context == 0,
        decoder.surfaces@.len() == 0 && decoder.surface_in_use@.len() == 0,
        decoder.dpb.entries@.len() == 0,
        decoder.dpb.max_size == 16,
        decoder.dpb.poc_counter == 0 && decoder.dpb.prev_poc_lsb == 0 && decoder.dpb.prev_poc_msb
            == 0,
        decoder.frame_counter == 0 && decoder.current_surface_idx == 0,
{
}

/// On the CPU a stream goes to the software decoder of its own codec, and
/// nothing of the driver is held; a codec without one is refused.
pub proof fn lemma_decoder_on_cpu<S, F: FnOnce(SoftwareDecoder) -> S>(
    codec: VideoCodec,
    open_software: F,
    r: Result<VaapiDecoder<S>, VideoError>,
)
    requires
        VaapiDecoder::<S>::on_cpu(codec, open_software, r),
    ensures
        codec is Other <==> r is Err,
        r matches Err(error) ==> error.text() == "Unsupported codec"@,
        r matches Ok(decoder) ==> {
            &&& decoder.node == -1 && decoder.display == 0 && decoder.config == 0
            &&& !decoder.initialized
            &&& decoder.sw_fallback is Some
            &&& codec is H264 ==> call_ensures(
                open_software,
                (SoftwareDecoder::H264,),
                decoder.sw_fallback->0,
            )
            &&& codec is H265 ==> call_ensures(
                open_software,
                (SoftwareDecoder::Hevc,),
                decoder.sw_fallback->0,
            )
        },
{
}

} // verus!
