//! An access unit on its way through the transform: its data are fed, and
//! output is drained.

use vstd::prelude::*;

use crate::media::{DecodedFrame, VideoError};
use crate::media_foundation::com::{
    given, owns, push_release, release, released, MfCall, MF_E_NOTACCEPTING,
    MF_E_TRANSFORM_NEED_MORE_INPUT, MF_E_TRANSFORM_STREAM_CHANGE, S_OK,
};
use crate::media_foundation::decoder::MediaFoundationDecoder;
use crate::media_foundation::types::{
    candidate, judge, nv12_subtype, nv12_subtype_bytes, subtype_view, Candidate, MAX_TYPES,
};
use crate::text::{error_with_code, hex32};
use crate::time::{packet_timestamp, to_signed};

verus! {

/// What comes next for an access unit.
pub enum MfStep {
    /// A buffer for the data is to be created.
    CreateInputBuffer,
    /// The buffer is to be locked; with that the data are copied to it.
    LockInput(usize),
    /// A sample is to be created for the buffer; with that the buffer is
    /// added to it.
    CreateInputSample(usize),
    /// The sample is to be fed to the transform.
    FeedInput(usize),
    /// The sample is to be fed again, after this frame has made room.
    RetryInput(usize, DecodedFrame),
    /// A sample for output is to be created, then a buffer of this size.
    CreateOutputSample(u32),
    /// A buffer of this size is to be created for the output sample; with
    /// that it is added to the sample.
    CreateOutputBuffer(usize, u32),
    /// Output is to be drained to this sample, or to one that the transform
    /// brings where it is zero.
    ProcessOutput(usize),
    /// The transform is to be asked for this output type.
    OfferType(u32),
    /// This output type is to be set.
    SetType(usize),
    /// The picture in `sample` is to be extracted; `given` is the sample that
    /// was handed over.
    Extract { given: usize, sample: usize },
    /// The access unit is done.
    Done(Result<Option<DecodedFrame>, VideoError>),
}

/// An access unit on its way through the transform.
pub struct MfRun {
    pub step: MfStep,
    /// The input sample for which output is drained to make room.
    pub waiting: Option<usize>,
}

impl MfRun {
    /// How many references to `object` the run holds.  A sample that the
    /// transform brought belongs to the run, the one that was handed over to
    /// the decoder.
    pub open spec fn holds(self, object: usize) -> int {
        owns_waiting(self.waiting, object) + match self.step {
            MfStep::LockInput(buffer) => owns(buffer, object),
            MfStep::CreateInputSample(buffer) => owns(buffer, object),
            MfStep::FeedInput(sample) => owns(sample, object),
            MfStep::RetryInput(sample, _) => owns(sample, object),
            MfStep::CreateOutputBuffer(sample, _) => owns(sample, object),
            MfStep::SetType(media_type) => owns(media_type, object),
            MfStep::Extract { given, sample } => owns(brought(given, sample), object),
            _ => 0,
        }
    }
}

/// The sample that the transform brought, where it is not the one that was
/// handed over.
pub open spec fn brought(given: usize, sample: usize) -> usize {
    if sample != given {
        sample
    } else {
        0
    }
}

/// How many references to `object` a sample that waits stands for.
pub open spec fn owns_waiting(waiting: Option<usize>, object: usize) -> int {
    match waiting {
        Some(sample) => owns(sample, object),
        None => 0,
    }
}

/// The call that gives up a sample that waits.
pub open spec fn release_waiting(waiting: Option<usize>) -> Seq<MfCall> {
    match waiting {
        Some(sample) => release(sample),
        None => Seq::empty(),
    }
}

/// How a sample that was not taken is described.
pub open spec fn input_failure(hr: i32) -> Seq<char> {
    "MF: ProcessInput failed: "@ + hex32(hr)
}

/// The size of the buffer for an access unit of `len` bytes.
pub fn input_size(len: usize) -> (size: u32)
    ensures
        size == len as int % 0x1_0000_0000,
{
    (len as u64 % 0x1_0000_0000) as u32
}

/// The time of a sample in units of a tenth of a microsecond, where it fits.
pub fn sample_time(timestamp_us: u64) -> (time: Option<i64>)
    ensures
        match time {
            Some(t) => t == to_signed(timestamp_us) * 10,
            None => to_signed(timestamp_us) * 10 > i64::MAX || to_signed(timestamp_us) * 10
                < i64::MIN,
        },
{
    packet_timestamp(timestamp_us).checked_mul(10)
}

impl MfStep {
    /// The access unit has failed with this description.
    pub open spec fn failed(self, text: Seq<char>) -> bool {
        self matches MfStep::Done(Err(error)) && error.text() == text
    }
}

impl MfRun {
    /// The run follows one with `waiting` by what draining gave, with these
    /// calls.
    ///
    /// Without an input sample that waits, that is what the access unit
    /// gives.  Else a frame has made room, and the sample is fed again;
    /// without a frame the access unit fails, with the error of draining
    /// where that failed, and the sample is given up.
    pub open spec fn settles(
        self,
        waiting: Option<usize>,
        drained: Result<Option<DecodedFrame>, VideoError>,
        calls: Seq<MfCall>,
    ) -> bool {
        &&& self.waiting is None
        &&& match waiting {
            None => self.step == MfStep::Done(drained) && calls.len() == 0,
            Some(sample) => match drained {
                Ok(Some(frame)) => self.step == MfStep::RetryInput(sample, frame) && calls.len()
                    == 0,
                Ok(None) => self.step.failed(input_failure(MF_E_NOTACCEPTING)) && calls == release(
                    sample,
                ),
                Err(_) => self.step == MfStep::Done(drained) && calls == release(sample),
            },
        }
    }

    fn settle(
        &mut self,
        drained: Result<Option<DecodedFrame>, VideoError>,
        calls: &mut Vec<MfCall>,
    )
        ensures
            final(calls)@.len() >= old(calls)@.len(),
            final(calls)@.take(old(calls)@.len() as int) == old(calls)@,
            final(self).settles(
                old(self).waiting,
                drained,
                final(calls)@.skip(old(calls)@.len() as int),
            ),
            drained is Err ==> final(calls)@ == old(calls)@ + release_waiting(old(self).waiting),
            forall|o: usize|
                o != 0 ==> #[trigger] released(final(calls)@, o) + final(self).holds(o) == released(
                    old(calls)@,
                    o,
                ) + owns_waiting(old(self).waiting, o),
    {
        let waiting = self.waiting;
        self.waiting = None;
        match waiting {
            None => {
                self.step = MfStep::Done(drained);
            },
            Some(sample) => {
                match drained {
                    Ok(Some(frame)) => {
                        self.step = MfStep::RetryInput(sample, frame);
                    },
                    Ok(None) => {
                        push_release(calls, sample);
                        self.step = MfStep::Done(
                            Err(error_with_code("MF: ProcessInput failed: ", MF_E_NOTACCEPTING)),
                        );
                    },
                    Err(error) => {
                        push_release(calls, sample);
                        self.step = MfStep::Done(Err(error));
                    },
                }
            },
        }
        assert(calls@.take(old(calls)@.len() as int) =~= old(calls)@);
        assert(calls@.skip(old(calls)@.len() as int) =~= match (waiting, drained) {
            (Some(sample), Ok(None)) => release(sample),
            (Some(sample), Err(_)) => release(sample),
            _ => Seq::empty(),
        });
    }

    /// The run has done its first calls `first`, then settled.
    pub open spec fn settles_after(
        self,
        waiting: Option<usize>,
        drained: Result<Option<DecodedFrame>, VideoError>,
        calls: Seq<MfCall>,
        first: Seq<MfCall>,
    ) -> bool {
        &&& calls.len() >= first.len()
        &&& calls.take(first.len() as int) == first
        &&& self.settles(waiting, drained, calls.skip(first.len() as int))
    }

    /// Takes the buffer that was created for the data.
    pub fn on_input_buffer(&mut self, hr: i32, buffer: usize)
        requires
            old(self).step is CreateInputBuffer,
        ensures
            forall|o: usize|
                o != 0 ==> #[trigger] final(self).holds(o) == old(self).holds(o) + owns(
                    given(hr, buffer),
                    o,
                ),
            final(self).waiting == old(self).waiting,
            hr == S_OK && buffer != 0 ==> final(self).step == MfStep::LockInput(buffer),
            !(hr == S_OK && buffer != 0) ==> final(self).step.failed(
                "MF: MFCreateMemoryBuffer failed: "@ + hex32(hr),
            ),
    {
        self.step = if hr != S_OK || buffer == 0 {
            MfStep::Done(Err(error_with_code("MF: MFCreateMemoryBuffer failed: ", hr)))
        } else {
            MfStep::LockInput(buffer)
        };
    }

    /// Takes the result of locking the buffer; where that failed, the buffer
    /// is given up.
    pub fn on_input_locked(&mut self, hr: i32) -> (calls: Vec<MfCall>)
        requires
            old(self).step is LockInput,
        ensures
            forall|o: usize|
                o != 0 ==> #[trigger] released(calls@, o) + final(self).holds(o)
                    == old(self).holds(o),
            final(self).waiting == old(self).waiting,
            hr == S_OK ==> {
                &&& final(self).step == MfStep::CreateInputSample(old(self).step->LockInput_0)
                &&& calls@.len() == 0
            },
            hr != S_OK ==> {
                &&& final(self).step.failed("MF: IMFMediaBuffer::Lock failed: "@ + hex32(hr))
                &&& calls@ == release(old(self).step->LockInput_0)
            },
    {
        let mut calls: Vec<MfCall> = Vec::new();
        let buffer: usize = match &self.step {
            MfStep::LockInput(buffer) => *buffer,
            _ => 0,
        };
        if hr != S_OK {
            push_release(&mut calls, buffer);
            assert(calls@ =~= release(buffer));
            self.step = MfStep::Done(Err(error_with_code("MF: IMFMediaBuffer::Lock failed: ", hr)));
        } else {
            self.step = MfStep::CreateInputSample(buffer);
        }
        calls
    }

    /// Takes the sample that was created for the buffer, which is given up in
    /// any case.
    pub fn on_input_sample(&mut self, hr: i32, sample: usize) -> (calls: Vec<MfCall>)
        requires
            old(self).step is CreateInputSample,
        ensures
            forall|o: usize|
                o != 0 ==> #[trigger] released(calls@, o) + final(self).holds(o)
                    == old(self).holds(o) + owns(given(hr, sample), o),
            final(self).waiting == old(self).waiting,
            calls@ == release(old(self).step->CreateInputSample_0),
            hr == S_OK && sample != 0 ==> final(self).step == MfStep::FeedInput(sample),
            !(hr == S_OK && sample != 0) ==> final(self).step.failed(
                "MF: MFCreateSample failed: "@ + hex32(hr),
            ),
    {
        let mut calls: Vec<MfCall> = Vec::new();
        let buffer: usize = match &self.step {
            MfStep::CreateInputSample(buffer) => *buffer,
            _ => 0,
        };
        push_release(&mut calls, buffer);
        assert(calls@ =~= release(buffer));
        self.step = if hr != S_OK || sample == 0 {
            MfStep::Done(Err(error_with_code("MF: MFCreateSample failed: ", hr)))
        } else {
            MfStep::FeedInput(sample)
        };
        calls
    }

    /// Takes the result of feeding the sample again; the sample is given up
    /// in any case.  The frame that made room is the frame of the access
    /// unit.
    pub fn on_retried(self, hr: i32) -> (r: (MfRun, Vec<MfCall>))
        requires
            self.step is RetryInput,
        ensures
            forall|o: usize|
                o != 0 ==> #[trigger] released(r.1@, o) + r.0.holds(o) == self.holds(o),
            r.0.waiting == self.waiting,
            r.1@ == release(self.step->RetryInput_0),
            hr == S_OK ==> r.0.step == MfStep::Done(Ok(Some(self.step->RetryInput_1))),
            hr != S_OK ==> r.0.step.failed(input_failure(hr)),
    {
        let mut calls: Vec<MfCall> = Vec::new();
        let waiting = self.waiting;
        let step = match self.step {
            MfStep::RetryInput(sample, frame) => {
                push_release(&mut calls, sample);
                assert(calls@ =~= release(sample));
                if hr == S_OK {
                    MfStep::Done(Ok(Some(frame)))
                } else {
                    MfStep::Done(Err(error_with_code("MF: ProcessInput failed: ", hr)))
                }
            },
            other => other,
        };
        (MfRun { step, waiting }, calls)
    }

    /// Takes the sample that was created for output; without one there is no
    /// frame.
    pub fn on_output_sample(&mut self, hr: i32, sample: usize) -> (calls: Vec<MfCall>)
        requires
            old(self).step is CreateOutputSample,
        ensures
            forall|o: usize|
                o != 0 ==> #[trigger] released(calls@, o) + final(self).holds(o)
                    == old(self).holds(o) + owns(given(hr, sample), o),
            hr == S_OK && sample != 0 ==> {
                &&& final(self).step == MfStep::CreateOutputBuffer(
                    sample,
                    old(self).step->CreateOutputSample_0,
                )
                &&& final(self).waiting == old(self).waiting
                &&& calls@.len() == 0
            },
            !(hr == S_OK && sample != 0) ==> final(self).settles(
                old(self).waiting,
                Ok(None),
                calls@,
            ),
    {
        let mut calls: Vec<MfCall> = Vec::new();
        let size: u32 = match &self.step {
            MfStep::CreateOutputSample(size) => *size,
            _ => 0,
        };
        if hr != S_OK || sample == 0 {
            self.settle(Ok(None), &mut calls);
            assert(calls@.skip(0) =~= calls@);
        } else {
            self.step = MfStep::CreateOutputBuffer(sample, size);
        }
        calls
    }
}

impl<S> MediaFoundationDecoder<S> {
    /// The size of a buffer for a decoded picture: what the transform asks
    /// for, else enough for 4096 by 2160 pixels.
    pub open spec fn buffer_size(self) -> int {
        if self.output_buf_size > 0 {
            self.output_buf_size as int
        } else {
            4096int * 2160 * 3 / 2
        }
    }

    /// The step that starts draining: output is written to a sample that the
    /// transform brings, or to the cached one, which is created where there
    /// is none.
    pub open spec fn drain_step(self) -> MfStep {
        if self.provides_samples {
            MfStep::ProcessOutput(0)
        } else if self.cached_sample != 0 {
            MfStep::ProcessOutput(self.cached_sample)
        } else {
            MfStep::CreateOutputSample(self.buffer_size() as u32)
        }
    }

    fn start_drain(&self) -> (step: MfStep)
        ensures
            step == self.drain_step(),
    {
        if self.provides_samples {
            MfStep::ProcessOutput(0)
        } else if self.cached_sample != 0 {
            MfStep::ProcessOutput(self.cached_sample)
        } else if self.output_buf_size > 0 {
            MfStep::CreateOutputSample(self.output_buf_size)
        } else {
            MfStep::CreateOutputSample(4096 * 2160 * 3 / 2)
        }
    }

    /// Starts an access unit, which fails without a transform.
    pub fn begin_feed(&self) -> (run: MfRun)
        ensures
            forall|o: usize| #[trigger] run.holds(o) == 0,
            run.waiting is None,
            self.transform != 0 ==> run.step is CreateInputBuffer,
            self.transform == 0 ==> run.step.failed("MF: transform not initialized"@),
    {
        MfRun {
            step: if self.transform == 0 {
                MfStep::Done(Err(VideoError::codec("MF: transform not initialized")))
            } else {
                MfStep::CreateInputBuffer
            },
            waiting: None,
        }
    }

    /// Starts draining a frame without feeding anything.
    pub fn begin_drain(&self) -> (run: MfRun)
        ensures
            forall|o: usize| #[trigger] run.holds(o) == 0,
            run.waiting is None,
            run.step == self.drain_step(),
    {
        MfRun { step: self.start_drain(), waiting: None }
    }

    /// Takes the result of feeding the sample.  Once it is taken, it is given
    /// up and output is drained; where the transform is full, output is
    /// drained first, and the sample waits.
    pub fn on_fed(&self, run: &mut MfRun, hr: i32) -> (calls: Vec<MfCall>)
        requires
            old(run).step is FeedInput,
            old(run).waiting is None,
        ensures
            forall|o: usize|
                o != 0 ==> #[trigger] released(calls@, o) + final(run).holds(o) == old(run).holds(o),
            hr == S_OK ==> {
                &&& final(run).step == self.drain_step()
                &&& final(run).waiting is None
                &&& calls@ == release(old(run).step->FeedInput_0)
            },
            hr == MF_E_NOTACCEPTING ==> {
                &&& final(run).step == self.drain_step()
                &&& final(run).waiting == Some(old(run).step->FeedInput_0)
                &&& calls@.len() == 0
            },
            hr != S_OK && hr != MF_E_NOTACCEPTING ==> {
                &&& final(run).step.failed(input_failure(hr))
                &&& final(run).waiting is None
                &&& calls@ == release(old(run).step->FeedInput_0)
            },
    {
        let mut calls: Vec<MfCall> = Vec::new();
        let sample: usize = match &run.step {
            MfStep::FeedInput(sample) => *sample,
            _ => 0,
        };
        if hr == MF_E_NOTACCEPTING {
            run.waiting = Some(sample);
            run.step = self.start_drain();
            return calls;
        }
        push_release(&mut calls, sample);
        assert(calls@ =~= release(sample));
        run.step = if hr == S_OK {
            self.start_drain()
        } else {
            MfStep::Done(Err(error_with_code("MF: ProcessInput failed: ", hr)))
        };
        calls
    }

    /// Takes the buffer that was created for the output sample.  With it the
    /// sample is cached; without it the sample is given up, and there is no
    /// frame.
    pub fn on_output_buffer(&mut self, run: &mut MfRun, hr: i32, buffer: usize) -> (calls: Vec<
        MfCall,
    >)
        requires
            old(self).wf(),
            old(self).initialized,
            old(self).cached_sample == 0,
            old(run).step is CreateOutputBuffer,
            old(run).step->CreateOutputBuffer_0 != 0,
        ensures
            final(self).wf(),
            forall|o: usize|
                o != 0 ==> #[trigger] released(calls@, o) + final(self).holds(o) + final(run).holds(o)
                    == old(self).holds(o) + old(run).holds(o) + owns(given(hr, buffer), o),
            hr == S_OK && buffer != 0 ==> {
                &&& *final(self) == (MediaFoundationDecoder {
                    cached_sample: old(run).step->CreateOutputBuffer_0,
                    cached_buffer: buffer,
                    ..*old(self)
                })
                &&& final(run).step == MfStep::ProcessOutput(old(run).step->CreateOutputBuffer_0)
                &&& final(run).waiting == old(run).waiting
                &&& calls@.len() == 0
            },
            !(hr == S_OK && buffer != 0) ==> {
                &&& *final(self) == *old(self)
                &&& final(run).settles_after(
                    old(run).waiting,
                    Ok(None),
                    calls@,
                    release(old(run).step->CreateOutputBuffer_0),
                )
            },
    {
        let mut calls: Vec<MfCall> = Vec::new();
        let sample: usize = match &run.step {
            MfStep::CreateOutputBuffer(sample, _) => *sample,
            _ => 0,
        };
        if hr != S_OK || buffer == 0 {
            push_release(&mut calls, sample);
            assert(calls@ =~= release(sample));
            run.settle(Ok(None), &mut calls);
        } else {
            self.cached_sample = sample;
            self.cached_buffer = buffer;
            run.step = MfStep::ProcessOutput(sample);
        }
        calls
    }

    /// Takes the result of draining: `sample` is the one that came back, and
    /// `events` a collection of events where one came.
    ///
    /// A change of the stream gives up what is cached, and output types are
    /// negotiated anew.  What is cached is also given up where draining failed
    /// or no sample came back.
    pub fn on_output(&mut self, run: &mut MfRun, hr: i32, sample: usize, events: usize) -> (calls:
        Vec<MfCall>)
        requires
            old(self).wf(),
            old(run).step is ProcessOutput,
            old(run).step->ProcessOutput_0 == 0 || old(run).step->ProcessOutput_0
                == old(self).cached_sample,
        ensures
            final(self).wf(),
            forall|o: usize|
                o != 0 ==> #[trigger] released(calls@, o) + final(self).holds(o) + final(run).holds(o)
                    == old(self).holds(o) + old(run).holds(o) + owns(events, o) + owns(
                    brought(old(run).step->ProcessOutput_0, given(hr, sample)),
                    o,
                ),
            *final(self) == if hr == MF_E_TRANSFORM_NEED_MORE_INPUT || (hr == S_OK && sample != 0) {
                *old(self)
            } else {
                MediaFoundationDecoder { cached_buffer: 0, cached_sample: 0, ..*old(self) }
            },
            hr == MF_E_TRANSFORM_STREAM_CHANGE ==> {
                &&& final(run).step == MfStep::OfferType(0)
                &&& final(run).waiting == old(run).waiting
                &&& calls@ == release(events) + old(self).cache_releases()
            },
            hr == MF_E_TRANSFORM_NEED_MORE_INPUT ==> final(run).settles_after(
                old(run).waiting,
                Ok(None),
                calls@,
                release(events),
            ),
            hr == S_OK && sample == 0 ==> final(run).settles_after(
                old(run).waiting,
                Ok(None),
                calls@,
                release(events) + old(self).cache_releases(),
            ),
            hr == S_OK && sample != 0 ==> {
                &&& final(run).step == (MfStep::Extract {
                    given: old(run).step->ProcessOutput_0,
                    sample,
                })
                &&& final(run).waiting == old(run).waiting
                &&& calls@ == release(events)
            },
            hr != S_OK && hr != MF_E_TRANSFORM_STREAM_CHANGE && hr
                != MF_E_TRANSFORM_NEED_MORE_INPUT ==> {
                &&& final(run).waiting is None
                &&& final(run).step.failed("MF: ProcessOutput failed: "@ + hex32(hr))
                &&& calls@ == release(events) + old(self).cache_releases() + release_waiting(
                    old(run).waiting,
                )
            },
    {
        let mut calls: Vec<MfCall> = Vec::new();
        let handed: usize = match &run.step {
            MfStep::ProcessOutput(handed) => *handed,
            _ => 0,
        };
        push_release(&mut calls, events);
        assert(calls@ =~= release(events));
        if hr == MF_E_TRANSFORM_STREAM_CHANGE {
            self.drop_cache(&mut calls);
            run.step = MfStep::OfferType(0);
            return calls;
        }
        if hr == MF_E_TRANSFORM_NEED_MORE_INPUT {
            run.settle(Ok(None), &mut calls);
            return calls;
        }
        if hr != S_OK {
            self.drop_cache(&mut calls);
            run.settle(Err(error_with_code("MF: ProcessOutput failed: ", hr)), &mut calls);
            return calls;
        }
        if sample == 0 {
            self.drop_cache(&mut calls);
            run.settle(Ok(None), &mut calls);
            return calls;
        }
        run.step = MfStep::Extract { given: handed, sample };
        calls
    }

    /// The calls that give up what is cached: the buffer, the sample.
    pub open spec fn cache_releases(self) -> Seq<MfCall> {
        release(self.cached_buffer) + release(self.cached_sample)
    }

    fn drop_cache(&mut self, calls: &mut Vec<MfCall>)
        ensures
            final(calls)@ == old(calls)@ + old(self).cache_releases(),
            *final(self) == (MediaFoundationDecoder {
                cached_buffer: 0,
                cached_sample: 0,
                ..*old(self)
            }),
            forall|o: usize|
                o != 0 ==> #[trigger] released(final(calls)@, o) + final(self).holds(o) == released(
                    old(calls)@,
                    o,
                ) + old(self).holds(o),
    {
        push_release(calls, self.cached_buffer);
        push_release(calls, self.cached_sample);
        self.cached_buffer = 0;
        self.cached_sample = 0;
        assert(calls@ =~= old(calls)@ + old(self).cache_releases());
    }

    /// The layout of pictures is to be detected anew.
    pub open spec fn without_layout(self) -> Self {
        MediaFoundationDecoder {
            width: 0,
            height: 0,
            stride: 0,
            coded_height: 0,
            crop_x: 0,
            crop_y: 0,
            ..self
        }
    }

    fn forget_layout(&mut self)
        ensures
            *final(self) == old(self).without_layout(),
    {
        self.width = 0;
        self.height = 0;
        self.stride = 0;
        self.coded_height = 0;
        self.crop_x = 0;
        self.crop_y = 0;
    }

    /// Takes an output type that the transform offers, with its subtype where
    /// it says one: the first NV12 type is set, and any other is given up.
    /// At the end there is no frame, and the layout of pictures is to be
    /// detected anew.
    pub fn on_offered_type(
        &mut self,
        run: &mut MfRun,
        hr: i32,
        object: usize,
        subtype: Option<[u8; 16]>,
    ) -> (calls: Vec<MfCall>)
        requires
            old(run).step is OfferType,
            old(run).step->OfferType_0 < MAX_TYPES,
        ensures
            old(self).wf() ==> final(self).wf(),
            forall|o: usize|
                o != 0 ==> #[trigger] released(calls@, o) + final(self).holds(o) + final(run).holds(o)
                    == old(self).holds(o) + old(run).holds(o) + owns(given(hr, object), o),
            ({
                let idx = old(run).step->OfferType_0;
                match candidate(hr, object, subtype_view(subtype), nv12_subtype_bytes()) {
                    Candidate::Found => {
                        &&& final(run).step == MfStep::SetType(object)
                        &&& final(run).waiting == old(run).waiting
                        &&& calls@.len() == 0
                        &&& *final(self) == *old(self)
                    },
                    Candidate::End => {
                        &&& final(run).settles(old(run).waiting, Ok(None), calls@)
                        &&& *final(self) == old(self).without_layout()
                    },
                    Candidate::Other => if idx + 1 < MAX_TYPES {
                        &&& final(run).step == MfStep::OfferType((idx + 1) as u32)
                        &&& final(run).waiting == old(run).waiting
                        &&& calls@ == release(object)
                        &&& *final(self) == *old(self)
                    } else {
                        &&& final(run).settles_after(
                            old(run).waiting,
                            Ok(None),
                            calls@,
                            release(object),
                        )
                        &&& *final(self) == old(self).without_layout()
                    },
                }
            }),
    {
        let mut calls: Vec<MfCall> = Vec::new();
        let idx: u32 = match &run.step {
            MfStep::OfferType(idx) => *idx,
            _ => 0,
        };
        match judge(hr, object, &subtype, &nv12_subtype()) {
            Candidate::Found => {
                run.step = MfStep::SetType(object);
                return calls;
            },
            Candidate::End => {
                self.forget_layout();
                run.settle(Ok(None), &mut calls);
                assert(calls@.skip(0) =~= calls@);
            },
            Candidate::Other => {
                push_release(&mut calls, object);
                assert(calls@ =~= release(object));
                if idx + 1 < MAX_TYPES {
                    run.step = MfStep::OfferType(idx + 1);
                } else {
                    self.forget_layout();
                    run.settle(Ok(None), &mut calls);
                }
            },
        }
        calls
    }

    /// The output type has been set, or could not be: it is given up, and the
    /// layout of pictures is to be detected anew.  There is no frame.
    pub fn on_type_set(&mut self, run: &mut MfRun) -> (calls: Vec<MfCall>)
        requires
            old(run).step is SetType,
        ensures
            old(self).wf() ==> final(self).wf(),
            forall|o: usize|
                o != 0 ==> #[trigger] released(calls@, o) + final(self).holds(o) + final(run).holds(o)
                    == old(self).holds(o) + old(run).holds(o),
            final(run).settles_after(
                old(run).waiting,
                Ok(None),
                calls@,
                release(old(run).step->SetType_0),
            ),
            *final(self) == old(self).without_layout(),
    {
        let mut calls: Vec<MfCall> = Vec::new();
        let object: usize = match &run.step {
            MfStep::SetType(object) => *object,
            _ => 0,
        };
        push_release(&mut calls, object);
        assert(calls@ =~= release(object));
        self.forget_layout();
        run.settle(Ok(None), &mut calls);
        calls
    }

    /// Takes what extracting the picture gave; a sample that the transform
    /// brought is given up.
    pub fn on_extracted(
        &self,
        run: &mut MfRun,
        extracted: Result<Option<DecodedFrame>, VideoError>,
    ) -> (calls: Vec<MfCall>)
        requires
            old(run).step is Extract,
        ensures
            self.provides_samples || old(run).step->sample == old(run).step->given ==> forall|o: usize|
                o != 0 ==> #[trigger] released(calls@, o) + final(run).holds(o) == old(run).holds(o),
            ({
                let given = old(run).step->given;
                let sample = old(run).step->sample;
                final(run).settles_after(
                    old(run).waiting,
                    extracted,
                    calls@,
                    if self.provides_samples && sample != given {
                        release(sample)
                    } else {
                        Seq::empty()
                    },
                )
            }),
    {
        let mut calls: Vec<MfCall> = Vec::new();
        match &run.step {
            MfStep::Extract { given, sample } => {
                if self.provides_samples && *sample != *given {
                    push_release(&mut calls, *sample);
                    assert(calls@ =~= release(*sample));
                }
            },
            _ => {},
        }
        run.settle(extracted, &mut calls);
        calls
    }
}

/// Takes what was drained while flushing: a frame joins the others, anything
/// else ends the flush.
pub fn on_flushed(
    frames: &mut Vec<DecodedFrame>,
    drained: Result<Option<DecodedFrame>, VideoError>,
) -> (more: bool)
    ensures
        match drained {
            Ok(Some(frame)) => more && final(frames)@ == old(frames)@.push(frame),
            _ => !more && final(frames)@ == old(frames)@,
        },
{
    match drained {
        Ok(Some(frame)) => {
            frames.push(frame);
            true
        },
        _ => false,
    }
}

/// What an access unit comes to once output was drained.  Without a sample
/// that waits, that is what draining gave.  A frame makes room for a sample
/// that waits, which is fed again with that frame kept; without one the
/// sample is given up, and the access unit fails: for want of room (0xC00D36B5)
/// or with the error of draining.
pub proof fn lemma_what_draining_comes_to(
    run: MfRun,
    sample: usize,
    drained: Result<Option<DecodedFrame>, VideoError>,
    calls: Seq<MfCall>,
)
    ensures
        run.settles(None, drained, calls) ==> {
            &&& run.step == MfStep::Done(drained)
            &&& run.waiting is None
            &&& calls.len() == 0
        },
        run.settles(Some(sample), drained, calls) ==> {
            &&& run.waiting is None
            &&& drained matches Ok(Some(frame)) ==> run.step == MfStep::RetryInput(sample, frame)
                && calls.len() == 0
            &&& drained matches Ok(None) ==> {
                &&& run.step matches MfStep::Done(Err(error))
                &&& error.text() == "MF: ProcessInput failed: "@ + hex32((-1072875851) as i32)
            }
            &&& drained is Err ==> run.step == MfStep::Done(drained)
            &&& !(drained matches Ok(Some(_))) && sample != 0 ==> calls.len() == 1 && calls[0]
                == MfCall::Release(sample)
        },
{
}

/// The references that a run holds: the sample that waits, and what the step
/// at hand works on.  Of two samples the one that was handed over belongs to
/// the decoder, and the other to the run.
pub proof fn lemma_what_a_run_holds(
    waiting: usize,
    one: usize,
    other: usize,
    size: u32,
    object: usize,
)
    requires
        object != 0,
        one != other,
    ensures
        ({
            let one_more = if one == object {
                1int
            } else {
                0
            };
            let waits = if waiting == object {
                1int
            } else {
                0
            };
            &&& MfRun { step: MfStep::LockInput(one), waiting: None }.holds(object) == one_more
            &&& MfRun { step: MfStep::CreateInputSample(one), waiting: None }.holds(object)
                == one_more
            &&& MfRun { step: MfStep::FeedInput(one), waiting: None }.holds(object) == one_more
            &&& MfRun {
                step: MfStep::CreateOutputBuffer(one, size),
                waiting: Some(waiting),
            }.holds(object) == one_more + waits
            &&& MfRun { step: MfStep::SetType(one), waiting: Some(waiting) }.holds(object)
                == one_more + waits
            &&& MfRun {
                step: MfStep::Extract { given: other, sample: one },
                waiting: Some(waiting),
            }.holds(object) == one_more + waits
            &&& MfRun {
                step: MfStep::Extract { given: one, sample: one },
                waiting: Some(waiting),
            }.holds(object) == waits
            &&& MfRun { step: MfStep::ProcessOutput(one), waiting: Some(waiting) }.holds(object)
                == waits
        }),
        brought(one, one) == 0,
        brought(other, one) == one,
{
}

/// How draining starts: a transform that brings its samples gets none; else
/// it gets the cached one, which is created where there is none, with a
/// buffer of the size that the transform asks for, or of 13271040 bytes.
pub proof fn lemma_how_draining_starts<S>(decoder: MediaFoundationDecoder<S>)
    ensures
        decoder.provides_samples ==> decoder.drain_step() == MfStep::ProcessOutput(0),
        !decoder.provides_samples && decoder.cached_sample != 0 ==> decoder.drain_step()
            == MfStep::ProcessOutput(decoder.cached_sample),
        !decoder.provides_samples && decoder.cached_sample == 0 && decoder.output_buf_size != 0
            ==> decoder.drain_step() == MfStep::CreateOutputSample(decoder.output_buf_size),
        !decoder.provides_samples && decoder.cached_sample == 0 && decoder.output_buf_size == 0
            ==> decoder.drain_step() == MfStep::CreateOutputSample(13271040),
{
}

/// With a new output type all that was known of the layout is forgotten, and
/// nothing else is.
pub proof fn lemma_forgotten_layout<S>(decoder: MediaFoundationDecoder<S>)
    ensures
        ({
            let after = decoder.without_layout();
            &&& after.width == 0 && after.height == 0
            &&& after.stride == 0 && after.coded_height == 0
            &&& after.crop_x == 0 && after.crop_y == 0
            &&& after.transform == decoder.transform
            &&& after.cached_sample == decoder.cached_sample
            &&& after.cached_buffer == decoder.cached_buffer
            &&& after.staging_texture == decoder.staging_texture
            &&& after.sw_fallback == decoder.sw_fallback
        }),
{
}

/// What is cached is given up together, the buffer before its sample.
pub proof fn lemma_cache_is_given_up<S>(decoder: MediaFoundationDecoder<S>)
    requires
        decoder.wf(),
    ensures
        decoder.cached_sample == 0 ==> decoder.cache_releases().len() == 0,
        decoder.cached_sample != 0 ==> {
            &&& decoder.cache_releases().len() == 2
            &&& decoder.cache_releases()[0] == MfCall::Release(decoder.cached_buffer)
            &&& decoder.cache_releases()[1] == MfCall::Release(decoder.cached_sample)
        },
{
}

/// The calls of a run that settles come behind those that it has done before;
/// without a sample that waits there are no others.
pub proof fn lemma_calls_before_settling(
    run: MfRun,
    waiting: Option<usize>,
    drained: Result<Option<DecodedFrame>, VideoError>,
    calls: Seq<MfCall>,
    first: Seq<MfCall>,
)
    requires
        run.settles_after(waiting, drained, calls, first),
    ensures
        calls.len() >= first.len(),
        calls == first + calls.skip(first.len() as int),
        run.settles(waiting, drained, calls.skip(first.len() as int)),
        waiting is None ==> calls == first && run.step == MfStep::Done(drained),
{
    assert(calls =~= calls.take(first.len() as int) + calls.skip(first.len() as int));
    if waiting is None {
        assert(calls =~= first);
    }
}

} // verus!
