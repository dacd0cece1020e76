//! The state of a Media Foundation decoder.

use vstd::prelude::*;

use crate::backend::{software_or_hevc, software_stand_in, SoftwareDecoder, VideoDecoder};
use crate::media::{DecodedFrame, VideoCodec, VideoError};
use crate::media_foundation::com::{
    lemma_dxva_releases_are_complete, lemma_release_is_one, lemma_released_adds_up, owns,
    push_other, push_release, release, released, Dxva, MfCall, MFT_MESSAGE_COMMAND_FLUSH,
    MFT_MESSAGE_SET_D3D_MANAGER,
};
use crate::media_foundation::open::{MfOpenStep, MfOpening};

verus! {

/// Media Foundation hardware decoder for Windows.
///
/// Without a working platform decoder the stream goes to `sw_fallback`.
pub struct MediaFoundationDecoder<S> {
    pub codec: VideoCodec,
    pub initialized: bool,
    pub width: u32,
    pub height: u32,
    pub stride: u32,
    pub coded_height: u32,
    pub crop_x: u32,
    pub crop_y: u32,
    pub transform: usize,
    pub provides_samples: bool,
    pub output_buf_size: u32,
    pub cached_sample: usize,
    pub cached_buffer: usize,
    pub sw_fallback: Option<S>,
    pub dxva_enabled: bool,
    pub dxva: Dxva,
    pub staging_texture: usize,
    pub staging_width: u32,
    pub staging_height: u32,
}

impl<S> MediaFoundationDecoder<S> {
    /// A decoder that has not seen any data: nothing is cached, and nothing
    /// is known of the pictures beyond their size.
    pub open spec fn is_fresh(self, codec: VideoCodec) -> bool {
        &&& self.codec == codec
        &&& self.stride == 0
        &&& self.coded_height == 0
        &&& self.crop_x == 0
        &&& self.crop_y == 0
        &&& self.cached_sample == 0
        &&& self.cached_buffer == 0
        &&& self.staging_texture == 0
        &&& self.staging_width == 0
        &&& self.staging_height == 0
    }

    /// Without the platform nothing of it is held, and a sample is cached
    /// exactly where its buffer is.
    pub open spec fn wf(self) -> bool {
        &&& self.initialized <==> self.transform != 0
        &&& !self.initialized ==> {
            &&& self.dxva == Dxva::spec_none()
            &&& self.cached_sample == 0
            &&& self.staging_texture == 0
        }
        &&& self.cached_sample == 0 <==> self.cached_buffer == 0
    }

    /// How many references to `object` the decoder holds.
    pub open spec fn holds(self, object: usize) -> int {
        owns(self.transform, object) + owns(self.cached_buffer, object) + owns(
            self.cached_sample,
            object,
        ) + owns(self.staging_texture, object) + self.dxva.holds(object)
    }

    /// The decoder is on the CPU, and holds nothing of the platform.
    pub open spec fn is_on_cpu<F: FnOnce(SoftwareDecoder) -> S>(
        self,
        codec: VideoCodec,
        open_software: F,
    ) -> bool {
        &&& self.is_fresh(codec)
        &&& !self.initialized
        &&& self.width == 0
        &&& self.height == 0
        &&& self.transform == 0
        &&& !self.provides_samples
        &&& self.output_buf_size == 0
        &&& !self.dxva_enabled
        &&& self.dxva == Dxva::spec_none()
        &&& self.sw_fallback is Some
        &&& call_ensures(open_software, (software_or_hevc(codec),), self.sw_fallback->0)
    }

    /// A decoder as opening the platform left it: with its transform where it
    /// opened, else on the CPU.  It holds what opening has acquired.
    pub fn new<F>(opening: &MfOpening, open_software: F) -> (r: Result<Self, VideoError>) where
        F: FnOnce(SoftwareDecoder) -> S,

        requires
            opening.wf(),
            opening.is_over(),
            call_requires(open_software, (software_or_hevc(opening.codec),)),
        ensures
            r matches Ok(decoder) ==> decoder.wf() && forall|o: usize|
                o != 0 ==> #[trigger] decoder.holds(o) == opening.holds(o),
            r is Err ==> forall|o: usize| #[trigger] opening.holds(o) == 0,
            opening.step is Ready ==> {
                &&& r matches Ok(decoder)
                &&& decoder.is_fresh(opening.codec)
                &&& decoder.initialized
                &&& decoder.width == opening.width
                &&& decoder.height == opening.height
                &&& decoder.transform == opening.transform
                &&& decoder.provides_samples == opening.provides_samples
                &&& decoder.output_buf_size == opening.output_buf_size
                &&& decoder.sw_fallback is None
                &&& decoder.dxva_enabled == opening.dxva_enabled
                &&& decoder.dxva == opening.dxva
            },
            opening.step is Unsupported ==> r is Err && r->Err_0.text()
                == "MF: unsupported codec"@,
            opening.step is Fallback ==> {
                &&& r matches Ok(decoder)
                &&& decoder.is_on_cpu(opening.codec, open_software)
            },
    {
        match opening.step {
            MfOpenStep::Ready => Ok(
                MediaFoundationDecoder {
                    codec: opening.codec,
                    initialized: true,
                    width: opening.width,
                    height: opening.height,
                    stride: 0,
                    coded_height: 0,
                    crop_x: 0,
                    crop_y: 0,
                    transform: opening.transform,
                    provides_samples: opening.provides_samples,
                    output_buf_size: opening.output_buf_size,
                    cached_sample: 0,
                    cached_buffer: 0,
                    sw_fallback: None,
                    dxva_enabled: opening.dxva_enabled,
                    dxva: opening.dxva,
                    staging_texture: 0,
                    staging_width: 0,
                    staging_height: 0,
                },
            ),
            MfOpenStep::Unsupported => Err(VideoError::codec("MF: unsupported codec")),
            _ => Ok(Self::with_sw_fallback(opening.codec, open_software)),
        }
    }

    /// A decoder on the CPU.
    pub fn with_sw_fallback<F>(codec: VideoCodec, open_software: F) -> (decoder: Self) where
        F: FnOnce(SoftwareDecoder) -> S,

        requires
            call_requires(open_software, (software_or_hevc(codec),)),
        ensures
            decoder.is_on_cpu(codec, open_software),
            decoder.wf(),
            forall|o: usize| #[trigger] decoder.holds(o) == 0,
    {
        MediaFoundationDecoder {
            codec,
            initialized: false,
            width: 0,
            height: 0,
            stride: 0,
            coded_height: 0,
            crop_x: 0,
            crop_y: 0,
            transform: 0,
            provides_samples: false,
            output_buf_size: 0,
            cached_sample: 0,
            cached_buffer: 0,
            sw_fallback: Some(open_software(software_stand_in(codec))),
            dxva_enabled: false,
            dxva: Dxva::none(),
            staging_texture: 0,
            staging_width: 0,
            staging_height: 0,
        }
    }

    /// The codec of the stream.
    pub fn codec(&self) -> (codec: VideoCodec)
        ensures
            codec == self.codec,
    {
        self.codec
    }

    /// What is done when the decoder goes away: nothing without the platform.
    pub open spec fn teardown_calls(self) -> Seq<MfCall> {
        if !self.initialized {
            Seq::empty()
        } else {
            self.transform_calls() + release(self.cached_buffer) + release(self.cached_sample)
                + release(self.staging_texture) + self.dxva.releases() + seq![MfCall::Shutdown]
        }
    }

    /// The transform lets go of the device manager, is flushed and given up.
    pub open spec fn transform_calls(self) -> Seq<MfCall> {
        if self.transform == 0 {
            Seq::empty()
        } else if self.dxva_enabled {
            seq![
                MfCall::Message(MFT_MESSAGE_SET_D3D_MANAGER),
                MfCall::Message(MFT_MESSAGE_COMMAND_FLUSH),
                MfCall::Release(self.transform),
            ]
        } else {
            seq![
                MfCall::Message(MFT_MESSAGE_COMMAND_FLUSH),
                MfCall::Release(self.transform),
            ]
        }
    }

    /// What is done when the decoder goes away.
    pub fn teardown(&self) -> (calls: Vec<MfCall>)
        requires
            self.wf(),
        ensures
            calls@ == self.teardown_calls(),
            forall|o: usize| o != 0 ==> #[trigger] released(calls@, o) == self.holds(o),
    {
        let mut calls: Vec<MfCall> = Vec::new();
        if !self.initialized {
            return calls;
        }
        if self.transform != 0 {
            if self.dxva_enabled {
                push_other(&mut calls, MfCall::Message(MFT_MESSAGE_SET_D3D_MANAGER));
            }
            push_other(&mut calls, MfCall::Message(MFT_MESSAGE_COMMAND_FLUSH));
            push_release(&mut calls, self.transform);
        }
        assert(calls@ =~= self.transform_calls());
        push_release(&mut calls, self.cached_buffer);
        push_release(&mut calls, self.cached_sample);
        push_release(&mut calls, self.staging_texture);
        self.dxva.cleanup_dxva(&mut calls);
        push_other(&mut calls, MfCall::Shutdown);
        assert(calls@ =~= self.teardown_calls());
        calls
    }
}

/// Every reference that the decoder holds is given up once when it goes away,
/// and the platform is shut down last.
pub proof fn lemma_teardown_is_complete<S>(decoder: MediaFoundationDecoder<S>, object: usize)
    requires
        decoder.wf(),
        object != 0,
    ensures
        released(decoder.teardown_calls(), object) == decoder.holds(object),
        decoder.initialized ==> decoder.teardown_calls().last() == MfCall::Shutdown,
{
    let a = decoder.transform_calls();
    let b = release(decoder.cached_buffer);
    let c = release(decoder.cached_sample);
    let d = release(decoder.staging_texture);
    let e = decoder.dxva.releases();
    let f = seq![MfCall::Shutdown];
    reveal_with_fuel(released, 4);
    lemma_release_is_one(decoder.cached_buffer, object);
    lemma_release_is_one(decoder.cached_sample, object);
    lemma_release_is_one(decoder.staging_texture, object);
    lemma_dxva_releases_are_complete(decoder.dxva, object);
    lemma_released_adds_up(a, b, object);
    lemma_released_adds_up(a + b, c, object);
    lemma_released_adds_up(a + b + c, d, object);
    lemma_released_adds_up(a + b + c + d, e, object);
    lemma_released_adds_up(a + b + c + d + e, f, object);
    if decoder.transform != 0 {
        assert(a.last() == MfCall::Release(decoder.transform));
        let rest = a.drop_last();
        assert(rest.last() == MfCall::Message(MFT_MESSAGE_COMMAND_FLUSH));
        assert(released(a, object) == owns(decoder.transform, object));
    }
}

impl<S: VideoDecoder> MediaFoundationDecoder<S> {
    /// Decodes on the CPU where the platform does not serve the stream.
    pub fn decode_on_cpu(&mut self, data: &[u8], timestamp_us: u64) -> (r: Option<
        Result<Option<DecodedFrame>, VideoError>,
    >)
        ensures
            *final(self) == (MediaFoundationDecoder {
                sw_fallback: final(self).sw_fallback,
                ..*old(self)
            }),
            match old(self).sw_fallback {
                Some(before) => {
                    &&& r is Some
                    &&& final(self).sw_fallback is Some
                    &&& S::decodes(before, data@, timestamp_us, final(self).sw_fallback->0, r->0)
                },
                None => r is None && *final(self) == *old(self),
            },
    {
        match &mut self.sw_fallback {
            Some(sw) => Some(sw.decode(data, timestamp_us)),
            None => None,
        }
    }

    /// Starts flushing: gives the result where nothing has to be drained,
    /// because the stream is on the CPU or there is no transform.
    pub fn begin_flush(&mut self) -> (r: Option<Result<Vec<DecodedFrame>, VideoError>>)
        ensures
            *final(self) == (MediaFoundationDecoder {
                sw_fallback: final(self).sw_fallback,
                ..*old(self)
            }),
            match old(self).sw_fallback {
                Some(before) => {
                    &&& r is Some
                    &&& final(self).sw_fallback is Some
                    &&& S::flushes(before, final(self).sw_fallback->0, r->0)
                },
                None => {
                    &&& *final(self) == *old(self)
                    &&& r is Some <==> old(self).transform == 0
                    &&& r matches Some(r) ==> r is Ok && r->Ok_0@.len() == 0
                },
            },
    {
        match &mut self.sw_fallback {
            Some(sw) => Some(sw.flush()),
            None => if self.transform == 0 {
                Some(Ok(Vec::new()))
            } else {
                None
            },
        }
    }
}

/// Every object that a decoder keeps counts, however many places keep it.
pub proof fn lemma_what_a_decoder_holds<S>(decoder: MediaFoundationDecoder<S>, object: usize)
    requires
        object != 0,
    ensures
        decoder.holds(object) == (if decoder.transform == object {
            1int
        } else {
            0
        }) + (if decoder.cached_buffer == object {
            1int
        } else {
            0
        }) + (if decoder.cached_sample == object {
            1int
        } else {
            0
        }) + (if decoder.staging_texture == object {
            1int
        } else {
            0
        }) + (if decoder.dxva.device == object {
            1int
        } else {
            0
        }) + (if decoder.dxva.context == object {
            1int
        } else {
            0
        }) + (if decoder.dxva.manager == object {
            1int
        } else {
            0
        }),
{
}

/// The order in which a decoder goes away: a transform that uses the device
/// manager lets go of it (2), the transform is flushed (0) and given up, and
/// at last the platform is shut down.  Without the platform nothing is done.
pub proof fn lemma_order_of_teardown<S>(decoder: MediaFoundationDecoder<S>)
    requires
        decoder.wf(),
    ensures
        ({
            let calls = decoder.teardown_calls();
            &&& !decoder.initialized ==> calls.len() == 0
            &&& decoder.initialized && decoder.dxva_enabled ==> {
                &&& calls[0] == MfCall::Message(2)
                &&& calls[1] == MfCall::Message(0)
                &&& calls[2] == MfCall::Release(decoder.transform)
            }
            &&& decoder.initialized && !decoder.dxva_enabled ==> {
                &&& calls[0] == MfCall::Message(0)
                &&& calls[1] == MfCall::Release(decoder.transform)
            }
            &&& decoder.initialized ==> calls.last() == MfCall::Shutdown
        }),
{
}

/// On the CPU H.264 goes to its own software decoder and everything else to
/// that for HEVC; nothing of the platform is held, and no layout is known.
pub proof fn lemma_decoder_on_cpu<S, F: FnOnce(SoftwareDecoder) -> S>(
    decoder: MediaFoundationDecoder<S>,
    codec: VideoCodec,
    open_software: F,
    object: usize,
)
    requires
        decoder.is_on_cpu(codec, open_software),
    ensures
        decoder.holds(object) == 0,
        decoder.wf(),
        decoder.codec == codec,
        !decoder.initialized && !decoder.dxva_enabled && !decoder.provides_samples,
        decoder.width == 0 && decoder.height == 0 && decoder.stride == 0 && decoder.coded_height
            == 0,
        decoder.crop_x == 0 && decoder.crop_y == 0,
        decoder.output_buf_size == 0,
        decoder.sw_fallback is Some,
        codec is H264 ==> call_ensures(
            open_software,
            (SoftwareDecoder::H264,),
            decoder.sw_fallback->0,
        ),
        !(codec is H264) ==> call_ensures(
            open_software,
            (SoftwareDecoder::Hevc,),
            decoder.sw_fallback->0,
        ),
{
}

} // verus!
