//! Apple VideoToolbox: H.264 and HEVC decoding on macOS and iOS.
//!
//! Handles of the framework are addresses; zero stands for none.

use vstd::prelude::*;

use crate::color::{bgra_frame, nv12_frame, Bgra, Nv12};
use crate::media::{nal_bytes, DecodedFrame, NalUnit, VideoCodec, VideoError};
use crate::nal::{parameter_set, parameter_set_of, ParameterSet};
use crate::text::{decimal, error_with_status};

verus! {

/// The frames that the framework has delivered.
pub struct CallbackState {
    pub frames: Vec<DecodedFrame>,
}

/// A picture that the framework delivered, in one of its two layouts.
pub enum VtPicture<'a> {
    Nv12(Nv12<'a>),
    Bgra(Bgra<'a>),
}

impl<'a> VtPicture<'a> {
    /// The picture holds every sample of `w` by `h` pixels.
    pub open spec fn holds(self, w: usize, h: usize) -> bool {
        match self {
            VtPicture::Nv12(picture) => picture.holds(w, h),
            VtPicture::Bgra(picture) => picture.holds(w, h),
        }
    }

    /// The picture as packed RGB.
    pub open spec fn image(self, w: int, h: int) -> Seq<u8> {
        match self {
            VtPicture::Nv12(picture) => picture.image(w, h),
            VtPicture::Bgra(picture) => picture.image(w, h),
        }
    }
}

impl CallbackState {
    /// Whether the framework has delivered a picture at all.
    pub fn accepts(status: i32, image: usize) -> (accepted: bool)
        ensures
            accepted == (status == 0 && image != 0),
    {
        status == 0 && image != 0
    }

    /// Whether a picture of `planes` planes is NV12; any other is BGRA.
    pub fn is_nv12(planes: usize) -> (nv12: bool)
        ensures
            nv12 == (planes >= 2),
    {
        planes >= 2
    }

    /// Adds a picture of `w` by `h` pixels to the frames, as yet without a
    /// time.
    pub fn push_picture(&mut self, picture: &VtPicture, w: usize, h: usize)
        requires
            picture.holds(w, h),
            w * h * 3 <= usize::MAX,
        ensures
            final(self).frames@.len() == old(self).frames@.len() + 1,
            final(self).frames@.drop_last() == old(self).frames@,
            final(self).frames@.last().is_rgb8(
                w,
                h,
                picture.image(w as int, h as int),
                0,
                false,
            ),
    {
        let frame = match picture {
            VtPicture::Nv12(nv12) => nv12_frame(nv12, w, h, 0, false),
            VtPicture::Bgra(bgra) => bgra_frame(bgra, w, h, 0, false),
        };
        self.frames.push(frame);
        assert(self.frames@.drop_last() =~= old(self).frames@);
    }
}

/// Apple VideoToolbox hardware decoder.
pub struct VideoToolboxDecoder {
    pub codec: VideoCodec,
    pub session: usize,
    pub format_desc: usize,
    pub state: Box<CallbackState>,
    pub sps: Vec<u8>,
    pub pps: Vec<u8>,
    pub vps: Vec<u8>,
    pub initialized: bool,
}

/// What an access unit needs before its pictures can be submitted.
#[derive(Debug, Clone, Copy, PartialEq, Eq, Structural)]
pub enum VtPrepared {
    /// Nothing: there is a session.
    Ready,
    /// A session is to be created from the parameter sets.
    CreateSession,
    /// Parameter sets that have not come yet.
    NeedMoreData,
}

/// The last parameter set of a kind among the NAL units, or `before`.
pub open spec fn last_set(
    codec: VideoCodec,
    nals: Seq<Seq<u8>>,
    kind: ParameterSet,
    before: Seq<u8>,
) -> Seq<u8>
    decreases nals.len(),
{
    if nals.len() == 0 {
        before
    } else if parameter_set(codec, nals.last()) == Some(kind) {
        nals.last()
    } else {
        last_set(codec, nals.drop_last(), kind, before)
    }
}

/// The parameter sets that describe a stream, in the order in which the
/// framework takes them.
pub open spec fn sets_needed(codec: VideoCodec) -> Seq<ParameterSet> {
    match codec {
        VideoCodec::H264 => seq![ParameterSet::Sps, ParameterSet::Pps],
        VideoCodec::H265 => seq![ParameterSet::Vps, ParameterSet::Sps, ParameterSet::Pps],
        VideoCodec::Other(_) => Seq::empty(),
    }
}

/// A call that gives something up.
#[derive(Debug, Clone, Copy, PartialEq, Eq, Structural)]
pub enum VtCall {
    /// The session decodes no more.
    Invalidate(usize),
    /// The reference to the object is given up.
    Release(usize),
}

/// No session could be created.
pub struct VtFailure {
    pub error: VideoError,
    /// What is to be given up on this account.
    pub calls: Vec<VtCall>,
}

/// The call that gives up an object, where there is one.
pub open spec fn release(object: usize) -> Seq<VtCall> {
    if object != 0 {
        seq![VtCall::Release(object)]
    } else {
        Seq::empty()
    }
}

fn push_release(calls: &mut Vec<VtCall>, object: usize)
    ensures
        final(calls)@ == old(calls)@ + release(object),
{
    if object != 0 {
        calls.push(VtCall::Release(object));
    }
    assert(calls@ =~= old(calls)@ + release(object));
}

fn copy_bytes(bytes: &Vec<u8>) -> (copy: Vec<u8>)
    ensures
        copy@ == bytes@,
{
    let mut copy: Vec<u8> = Vec::new();
    copy.extend_from_slice(bytes.as_slice());
    assert(copy@ =~= bytes@);
    copy
}

impl VideoToolboxDecoder {
    /// The parameter set of a kind that is known, empty where none is.
    pub open spec fn set(self, kind: ParameterSet) -> Seq<u8> {
        match kind {
            ParameterSet::Vps => self.vps@,
            ParameterSet::Sps => self.sps@,
            ParameterSet::Pps => self.pps@,
        }
    }

    /// Every parameter set that describes the stream is known.
    pub open spec fn has_parameters(self) -> bool {
        &&& self.codec !is Other
        &&& forall|i: int|
            0 <= i < sets_needed(self.codec).len() ==> self.set(
                #[trigger] sets_needed(self.codec)[i],
            ).len() > 0
    }

    /// A decoder without a session; one is created with the first parameter
    /// sets.
    pub fn new(codec: VideoCodec) -> (r: Result<Self, VideoError>)
        ensures
            r matches Ok(decoder) && {
                &&& decoder.wf()
                &&& decoder.codec == codec
                &&& decoder.session == 0
                &&& decoder.format_desc == 0
                &&& decoder.state.frames@.len() == 0
                &&& decoder.sps@.len() == 0
                &&& decoder.pps@.len() == 0
                &&& decoder.vps@.len() == 0
                &&& !decoder.initialized
            },
    {
        Ok(
            VideoToolboxDecoder {
                codec,
                session: 0,
                format_desc: 0,
                state: Box::new(CallbackState { frames: Vec::new() }),
                sps: Vec::new(),
                pps: Vec::new(),
                vps: Vec::new(),
                initialized: false,
            },
        )
    }

    /// The codec of the stream.
    pub fn codec(&self) -> (codec: VideoCodec)
        ensures
            codec == self.codec,
    {
        self.codec
    }

    /// Takes the parameter sets among the NAL units of an access unit; of
    /// each kind the last one counts.
    pub fn extract_parameter_sets(&mut self, nals: &Vec<NalUnit>)
        ensures
            final(self).vps@ == last_set(
                old(self).codec,
                nal_bytes(nals@),
                ParameterSet::Vps,
                old(self).vps@,
            ),
            final(self).sps@ == last_set(
                old(self).codec,
                nal_bytes(nals@),
                ParameterSet::Sps,
                old(self).sps@,
            ),
            final(self).pps@ == last_set(
                old(self).codec,
                nal_bytes(nals@),
                ParameterSet::Pps,
                old(self).pps@,
            ),
            *final(self) == (VideoToolboxDecoder {
                vps: final(self).vps,
                sps: final(self).sps,
                pps: final(self).pps,
                ..*old(self)
            }),
    {
        let ghost bytes = nal_bytes(nals@);
        let codec = self.codec;
        let mut i: usize = 0;
        while i < nals.len()
            invariant
                i <= nals@.len(),
                bytes == nal_bytes(nals@),
                codec == old(self).codec,
                self.vps@ == last_set(
                    codec,
                    bytes.take(i as int),
                    ParameterSet::Vps,
                    old(self).vps@,
                ),
                self.sps@ == last_set(
                    codec,
                    bytes.take(i as int),
                    ParameterSet::Sps,
                    old(self).sps@,
                ),
                self.pps@ == last_set(
                    codec,
                    bytes.take(i as int),
                    ParameterSet::Pps,
                    old(self).pps@,
                ),
                *self == (VideoToolboxDecoder {
                    vps: self.vps,
                    sps: self.sps,
                    pps: self.pps,
                    ..*old(self)
                }),
            decreases nals@.len() - i,
        {
            let nal = &nals[i];
            proof {
                assert(bytes.take(i + 1).drop_last() =~= bytes.take(i as int));
                assert(bytes.take(i + 1).last() == nal@);
            }
            match parameter_set_of(codec, nal) {
                Some(ParameterSet::Vps) => {
                    self.vps = copy_bytes(&nal.data);
                },
                Some(ParameterSet::Sps) => {
                    self.sps = copy_bytes(&nal.data);
                },
                Some(ParameterSet::Pps) => {
                    self.pps = copy_bytes(&nal.data);
                },
                None => {},
            }
            i += 1;
        }
        assert(bytes.take(i as int) =~= bytes);
    }

    /// Starts an access unit: takes its parameter sets, and says what is
    /// needed before its pictures can be submitted.
    pub fn prepare(&mut self, nals: &Vec<NalUnit>) -> (prepared: VtPrepared)
        ensures
            final(self).vps@ == last_set(
                old(self).codec,
                nal_bytes(nals@),
                ParameterSet::Vps,
                old(self).vps@,
            ),
            final(self).sps@ == last_set(
                old(self).codec,
                nal_bytes(nals@),
                ParameterSet::Sps,
                old(self).sps@,
            ),
            final(self).pps@ == last_set(
                old(self).codec,
                nal_bytes(nals@),
                ParameterSet::Pps,
                old(self).pps@,
            ),
            *final(self) == (VideoToolboxDecoder {
                vps: final(self).vps,
                sps: final(self).sps,
                pps: final(self).pps,
                ..*old(self)
            }),
            prepared == if old(self).initialized {
                VtPrepared::Ready
            } else if final(self).has_parameters() {
                VtPrepared::CreateSession
            } else {
                VtPrepared::NeedMoreData
            },
    {
        self.extract_parameter_sets(nals);
        if self.initialized {
            return VtPrepared::Ready;
        }
        let complete = match self.codec {
            VideoCodec::H264 => self.sps.len() > 0 && self.pps.len() > 0,
            VideoCodec::H265 => self.vps.len() > 0 && self.sps.len() > 0 && self.pps.len() > 0,
            VideoCodec::Other(_) => false,
        };
        proof {
            let needed = sets_needed(self.codec);
            if self.codec == VideoCodec::H264 {
                assert(needed[0] == ParameterSet::Sps && needed[1] == ParameterSet::Pps);
            } else if self.codec == VideoCodec::H265 {
                assert(needed[0] == ParameterSet::Vps && needed[1] == ParameterSet::Sps
                    && needed[2] == ParameterSet::Pps);
            }
            assert(complete == self.has_parameters());
        }
        if complete {
            VtPrepared::CreateSession
        } else {
            VtPrepared::NeedMoreData
        }
    }

    /// The parameter sets that a format description is created from.
    pub fn format_sets(&self) -> (r: Result<Vec<ParameterSet>, VideoError>)
        ensures
            self.codec !is Other ==> r is Ok && r->Ok_0@ == sets_needed(self.codec),
            self.codec is Other ==> r is Err && r->Err_0.text()
                == "VT: unsupported codec"@,
    {
        let mut sets: Vec<ParameterSet> = Vec::new();
        match self.codec {
            VideoCodec::H264 => {},
            VideoCodec::H265 => {
                sets.push(ParameterSet::Vps);
            },
            VideoCodec::Other(_) => {
                return Err(VideoError::codec("VT: unsupported codec"));
            },
        }
        sets.push(ParameterSet::Sps);
        sets.push(ParameterSet::Pps);
        assert(sets@ =~= sets_needed(self.codec));
        Ok(sets)
    }

    /// The parameter set of a kind that is known.
    pub fn parameter_set(&self, kind: ParameterSet) -> (set: &Vec<u8>)
        ensures
            set@ == self.set(kind),
    {
        match kind {
            ParameterSet::Vps => &self.vps,
            ParameterSet::Sps => &self.sps,
            ParameterSet::Pps => &self.pps,
        }
    }

    /// The session is there exactly where the decoder is ready, and then the
    /// format description is there too.
    pub open spec fn wf(self) -> bool {
        &&& self.initialized <==> self.session != 0
        &&& self.initialized ==> self.format_desc != 0
    }

    /// Takes the format description that was created.
    pub fn on_format(&mut self, status: i32, format_desc: usize) -> (r: Result<(), VideoError>)
        requires
            old(self).wf(),
            !old(self).initialized,
            old(self).format_desc == 0,
            old(self).codec !is Other,
        ensures
            final(self).wf(),
            r is Ok <==> status == 0 && format_desc != 0,
            r is Ok ==> *final(self) == (VideoToolboxDecoder { format_desc, ..*old(self) }),
            r matches Err(error) ==> {
                &&& *final(self) == *old(self)
                &&& error.text() == if old(self).codec == VideoCodec::H264 {
                    "VT: failed to create H264 format description: "@ + decimal(status as int)
                } else {
                    "VT: failed to create HEVC format description: "@ + decimal(status as int)
                }
            },
    {
        if status != 0 || format_desc == 0 {
            return Err(
                match self.codec {
                    VideoCodec::H264 => error_with_status(
                        "VT: failed to create H264 format description: ",
                        status,
                    ),
                    _ => error_with_status("VT: failed to create HEVC format description: ", status),
                },
            );
        }
        self.format_desc = format_desc;
        Ok(())
    }

    /// Takes the session that was created, which makes the decoder ready.
    /// Without a session the format description is given up.
    pub fn on_session(&mut self, status: i32, session: usize) -> (r: Result<(), VtFailure>)
        requires
            old(self).wf(),
            !old(self).initialized,
            old(self).format_desc != 0,
        ensures
            final(self).wf(),
            r is Ok <==> status == 0 && session != 0,
            r is Ok ==> *final(self) == (VideoToolboxDecoder {
                session,
                initialized: true,
                ..*old(self)
            }),
            r matches Err(failure) ==> {
                &&& *final(self) == (VideoToolboxDecoder { format_desc: 0, ..*old(self) })
                &&& failure.calls@ == seq![VtCall::Release(old(self).format_desc)]
                &&& failure.error.text() == "VT: failed to create decompression session: "@
                    + decimal(status as int)
            },
    {
        if status != 0 || session == 0 {
            let mut calls: Vec<VtCall> = Vec::new();
            push_release(&mut calls, self.format_desc);
            assert(calls@ =~= seq![VtCall::Release(old(self).format_desc)]);
            self.format_desc = 0;
            return Err(
                VtFailure {
                    error: error_with_status(
                        "VT: failed to create decompression session: ",
                        status,
                    ),
                    calls,
                },
            );
        }
        self.session = session;
        self.initialized = true;
        Ok(())
    }

    /// The frame that was delivered last, with the time of the access unit.
    pub fn take_frame(&mut self, timestamp_us: u64) -> (frame: Option<DecodedFrame>)
        ensures
            *final(self) == (VideoToolboxDecoder { state: final(self).state, ..*old(self) }),
            match frame {
                Some(frame) => {
                    &&& old(self).state.frames@.len() > 0
                    &&& frame == (DecodedFrame { timestamp_us, ..old(self).state.frames@.last() })
                    &&& final(self).state.frames@ == old(self).state.frames@.drop_last()
                },
                None => {
                    &&& old(self).state.frames@.len() == 0
                    &&& final(self).state.frames@ == old(self).state.frames@
                },
            },
    {
        match self.state.frames.pop() {
            Some(mut frame) => {
                frame.timestamp_us = timestamp_us;
                Some(frame)
            },
            None => None,
        }
    }

    /// All the frames that have been delivered and not been taken.
    pub fn take_frames(&mut self) -> (frames: Vec<DecodedFrame>)
        ensures
            frames@ == old(self).state.frames@,
            final(self).state.frames@.len() == 0,
            *final(self) == (VideoToolboxDecoder { state: final(self).state, ..*old(self) }),
    {
        let mut frames: Vec<DecodedFrame> = Vec::new();
        std::mem::swap(&mut frames, &mut self.state.frames);
        frames
    }

    /// What gives up all that the decoder holds: the session is invalidated
    /// and released, and the format description is released.
    pub open spec fn teardown_calls(self) -> Seq<VtCall> {
        (if self.session != 0 {
            seq![VtCall::Invalidate(self.session)]
        } else {
            Seq::empty()
        }) + release(self.session) + release(self.format_desc)
    }

    /// What is to be given up when the decoder goes away.
    pub fn teardown(&self) -> (calls: Vec<VtCall>)
        ensures
            calls@ == self.teardown_calls(),
    {
        let mut calls: Vec<VtCall> = Vec::new();
        if self.session != 0 {
            calls.push(VtCall::Invalidate(self.session));
        }
        push_release(&mut calls, self.session);
        push_release(&mut calls, self.format_desc);
        assert(calls@ =~= self.teardown_calls());
        calls
    }
}

/// A decoder that goes away gives up both objects, each once, and a session
/// only after it was invalidated.
pub proof fn lemma_teardown_is_complete(decoder: VideoToolboxDecoder)
    requires
        decoder.wf(),
        decoder.session != decoder.format_desc || decoder.session == 0,
    ensures
        decoder.teardown_calls().no_duplicates(),
        decoder.session != 0 ==> decoder.teardown_calls()[0] == VtCall::Invalidate(decoder.session)
            && decoder.teardown_calls()[1] == VtCall::Release(decoder.session),
        decoder.format_desc != 0 ==> decoder.teardown_calls().last() == VtCall::Release(
            decoder.format_desc,
        ),
{
}

/// How far submitting the picture data of an access unit has come.
#[derive(Debug, Clone, Copy, PartialEq, Eq, Structural)]
pub enum VtSubmit {
    /// A block buffer is to be created.
    CreateBlock,
    /// The picture data are to be copied to the block buffer.
    FillBlock(usize),
    /// A sample buffer is to be created on the block buffer.
    CreateSample(usize),
    /// With this block buffer, this sample buffer is to be decoded.
    DecodeFrame(usize, usize),
    /// The buffers are to be released: the sample buffer, the block buffer.
    Release(Option<usize>, Option<usize>),
}

impl VtSubmit {
    /// The call gives a new buffer.
    pub open spec fn creates(self) -> bool {
        self is CreateBlock || self is CreateSample
    }

    /// The buffers that are held, the one that is released first in front.
    pub open spec fn held(self) -> Seq<usize> {
        match self {
            VtSubmit::CreateBlock => Seq::empty(),
            VtSubmit::FillBlock(block) => seq![block],
            VtSubmit::CreateSample(block) => seq![block],
            VtSubmit::DecodeFrame(block, sample) => seq![sample, block],
            VtSubmit::Release(sample, block) => one(sample) + one(block),
        }
    }

    /// The step that follows a call with this status, which gave `buffer`
    /// where it creates one.
    pub open spec fn next(self, status: i32, buffer: usize) -> VtSubmit {
        match self {
            VtSubmit::CreateBlock => if status == 0 && buffer != 0 {
                VtSubmit::FillBlock(buffer)
            } else {
                VtSubmit::Release(None, None)
            },
            VtSubmit::FillBlock(block) => if status == 0 {
                VtSubmit::CreateSample(block)
            } else {
                VtSubmit::Release(None, Some(block))
            },
            VtSubmit::CreateSample(block) => if status == 0 && buffer != 0 {
                VtSubmit::DecodeFrame(block, buffer)
            } else {
                VtSubmit::Release(None, Some(block))
            },
            VtSubmit::DecodeFrame(block, sample) => VtSubmit::Release(Some(sample), Some(block)),
            VtSubmit::Release(sample, block) => VtSubmit::Release(sample, block),
        }
    }

    /// Takes the status of the call, and the buffer that it gave where it
    /// creates one.  That decoding failed is not looked at: the frame does
    /// not come.
    pub fn on_reply(self, status: i32, buffer: usize) -> (next: VtSubmit)
        ensures
            next == self.next(status, buffer),
    {
        match self {
            VtSubmit::CreateBlock => if status == 0 && buffer != 0 {
                VtSubmit::FillBlock(buffer)
            } else {
                VtSubmit::Release(None, None)
            },
            VtSubmit::FillBlock(block) => if status == 0 {
                VtSubmit::CreateSample(block)
            } else {
                VtSubmit::Release(None, Some(block))
            },
            VtSubmit::CreateSample(block) => if status == 0 && buffer != 0 {
                VtSubmit::DecodeFrame(block, buffer)
            } else {
                VtSubmit::Release(None, Some(block))
            },
            VtSubmit::DecodeFrame(block, sample) => VtSubmit::Release(Some(sample), Some(block)),
            VtSubmit::Release(sample, block) => VtSubmit::Release(sample, block),
        }
    }

    /// Where the submission starts: without picture data there is nothing to
    /// submit.
    pub fn start(picture_data: &Vec<u8>) -> (r: Option<VtSubmit>)
        ensures
            r == if picture_data@.len() > 0 {
                Some(VtSubmit::CreateBlock)
            } else {
                None
            },
    {
        if picture_data.len() > 0 {
            Some(VtSubmit::CreateBlock)
        } else {
            None
        }
    }
}

/// A sequence of at most one buffer.
pub open spec fn one(buffer: Option<usize>) -> Seq<usize> {
    match buffer {
        Some(buffer) => seq![buffer],
        None => Seq::empty(),
    }
}

/// No buffer is lost and none is released twice: every step holds on to the
/// buffers of the one before it, and a buffer that a call gave is held from
/// then on, until all are released in the end.
pub proof fn lemma_submit_keeps_buffers(step: VtSubmit, status: i32, buffer: usize)
    ensures
        step.next(status, buffer).held() == if step.creates() && status == 0 && buffer != 0 {
            seq![buffer] + step.held()
        } else {
            step.held()
        },
{
    let next = step.next(status, buffer);
    match step {
        VtSubmit::CreateBlock => {
            assert(next.held() =~= if status == 0 && buffer != 0 {
                seq![buffer] + step.held()
            } else {
                step.held()
            });
        },
        VtSubmit::FillBlock(_) => {
            assert(next.held() =~= step.held());
        },
        VtSubmit::CreateSample(_) => {
            assert(next.held() =~= if status == 0 && buffer != 0 {
                seq![buffer] + step.held()
            } else {
                step.held()
            });
        },
        VtSubmit::DecodeFrame(block, sample) => {
            assert(next.held() =~= step.held());
        },
        VtSubmit::Release(_, _) => {},
    }
}

/// Four calls settle a submission, whatever they return.
pub proof fn lemma_submit_ends(replies: Seq<(i32, usize)>)
    requires
        replies.len() == 4,
    ensures
        VtSubmit::CreateBlock.next(replies[0].0, replies[0].1).next(
            replies[1].0,
            replies[1].1,
        ).next(replies[2].0, replies[2].1).next(replies[3].0, replies[3].1) is Release,
{
}

/// A picture is converted by its layout.
pub proof fn lemma_layout_decides(nv12: Nv12, bgra: Bgra, w: usize, h: usize)
    ensures
        VtPicture::Nv12(nv12).image(w as int, h as int) == nv12.image(w as int, h as int),
        VtPicture::Bgra(bgra).image(w as int, h as int) == bgra.image(w as int, h as int),
        VtPicture::Nv12(nv12).holds(w, h) <==> nv12.holds(w, h),
        VtPicture::Bgra(bgra).holds(w, h) <==> bgra.holds(w, h),
{
}

/// One NAL unit more: a parameter set takes the place of the one of its kind
/// that was known, and no other unit does.  The kind shows in the first byte:
/// of H.264 the type is 7 or 8, of H.265 it is 32, 33 or 34.
pub proof fn lemma_latest_set_counts(
    codec: VideoCodec,
    nals: Seq<Seq<u8>>,
    nal: Seq<u8>,
    kind: ParameterSet,
    before: Seq<u8>,
)
    ensures
        last_set(codec, Seq::empty(), kind, before) == before,
        ({
            let h264 = nal[0] as int % 32;
            let hevc = (nal[0] as int / 2) % 64;
            let carries = nal.len() > 0 && match kind {
                ParameterSet::Vps => codec is H265 && hevc == 32,
                ParameterSet::Sps => (codec is H264 && h264 == 7) || (codec is H265 && hevc == 33),
                ParameterSet::Pps => (codec is H264 && h264 == 8) || (codec is H265 && hevc == 34),
            };
            &&& carries ==> last_set(codec, nals.push(nal), kind, before) == nal
            &&& !carries ==> last_set(codec, nals.push(nal), kind, before) == last_set(
                codec,
                nals,
                kind,
                before,
            )
        }),
{
    assert(nals.push(nal).drop_last() =~= nals);
    assert(nals.push(nal).last() == nal);
}

/// What a session is created from: of H.264 the sequence and the picture
/// parameter set, of H.265 the video parameter set before them, and all of
/// them have to be known.
pub proof fn lemma_sets_of_a_session(decoder: VideoToolboxDecoder)
    ensures
        decoder.codec is H264 ==> {
            &&& sets_needed(decoder.codec).len() == 2
            &&& sets_needed(decoder.codec)[0] == ParameterSet::Sps
            &&& sets_needed(decoder.codec)[1] == ParameterSet::Pps
            &&& decoder.has_parameters() <==> decoder.sps@.len() > 0 && decoder.pps@.len() > 0
        },
        decoder.codec is H265 ==> {
            &&& sets_needed(decoder.codec).len() == 3
            &&& sets_needed(decoder.codec)[0] == ParameterSet::Vps
            &&& sets_needed(decoder.codec)[1] == ParameterSet::Sps
            &&& sets_needed(decoder.codec)[2] == ParameterSet::Pps
            &&& decoder.has_parameters() <==> decoder.vps@.len() > 0 && decoder.sps@.len() > 0
                && decoder.pps@.len() > 0
        },
        decoder.codec is Other ==> sets_needed(decoder.codec).len() == 0
            && !decoder.has_parameters(),
        decoder.set(ParameterSet::Vps) == decoder.vps@,
        decoder.set(ParameterSet::Sps) == decoder.sps@,
        decoder.set(ParameterSet::Pps) == decoder.pps@,
{
    let needed = sets_needed(decoder.codec);
    if decoder.codec is H264 {
        assert(needed[0] == ParameterSet::Sps && needed[1] == ParameterSet::Pps);
    } else if decoder.codec is H265 {
        assert(needed[0] == ParameterSet::Vps && needed[1] == ParameterSet::Sps && needed[2]
            == ParameterSet::Pps);
    }
}

/// Picture data are decoded exactly where the three calls before it succeed
/// and both buffers are there; then the sample buffer goes before the block
/// buffer, and a block buffer alone is released where it is alone.
pub proof fn lemma_submit_outcome(
    first: i32,
    block: usize,
    second: i32,
    x: usize,
    third: i32,
    sample: usize,
    fourth: i32,
    y: usize,
)
    ensures
        ({
            let filled = VtSubmit::CreateBlock.next(first, block);
            let decoding = filled.next(second, x).next(third, sample);
            let done = decoding.next(fourth, y);
            let has_block = first == 0 && block != 0;
            let has_sample = has_block && second == 0 && third == 0 && sample != 0;
            &&& has_block <==> filled == VtSubmit::FillBlock(block)
            &&& has_sample <==> decoding is DecodeFrame
            &&& has_sample ==> decoding == VtSubmit::DecodeFrame(block, sample)
            &&& has_sample ==> done == VtSubmit::Release(Some(sample), Some(block))
            &&& !has_sample && has_block ==> done == VtSubmit::Release(None, Some(block))
            &&& !has_block ==> done == VtSubmit::Release(None, None)
        }),
{
}

/// A decoder is ready exactly where there is a session, and a session needs a
/// format description.
pub proof fn lemma_ready_with_a_session(decoder: VideoToolboxDecoder)
    requires
        decoder.wf(),
    ensures
        decoder.session != 0 ==> decoder.initialized && decoder.format_desc != 0,
        decoder.session == 0 ==> !decoder.initialized,
{
}

} // verus!
