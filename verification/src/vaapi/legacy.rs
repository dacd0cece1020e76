//! Decoding an access unit as one slice data buffer without parameters.

use vstd::prelude::*;

use crate::vaapi::decoder::VaapiDecoder;
use crate::vaapi::fields::{check_va, va_failure};
use crate::vaapi::params::VA_STATUS_SUCCESS;
use crate::vaapi::picture_run::VaCall;
use crate::vaapi::readback::VaFailure;

verus! {

/// What comes next for a picture that is one buffer.
#[derive(Debug, Clone, Copy, PartialEq, Eq, Structural)]
pub enum LegacyStep {
    BeginPicture,
    CreateSliceData,
    Render(u32),
    EndPicture(u32),
    /// The picture can be read back; its buffer is still there.
    ReadBack(u32),
}

impl LegacyStep {
    /// The name of the call in error messages.
    pub open spec fn operation(self) -> Seq<char> {
        match self {
            LegacyStep::BeginPicture => "vaBeginPicture"@,
            LegacyStep::CreateSliceData => "vaCreateBuffer(SliceData)"@,
            LegacyStep::Render(_) => "vaRenderPicture"@,
            LegacyStep::EndPicture(_) => "vaEndPicture"@,
            LegacyStep::ReadBack(_) => ""@,
        }
    }

    /// The step that follows; `buffer` is the one that was created.
    pub open spec fn next(self, buffer: u32) -> LegacyStep {
        match self {
            LegacyStep::BeginPicture => LegacyStep::CreateSliceData,
            LegacyStep::CreateSliceData => LegacyStep::Render(buffer),
            LegacyStep::Render(data) => LegacyStep::EndPicture(data),
            LegacyStep::EndPicture(data) => LegacyStep::ReadBack(data),
            LegacyStep::ReadBack(data) => LegacyStep::ReadBack(data),
        }
    }

    /// What a failure of the step leaves to be released: the buffer, and the
    /// picture unless it has ended or it was its end that failed.
    pub open spec fn leftover(self) -> Seq<VaCall> {
        match self {
            LegacyStep::CreateSliceData => seq![VaCall::EndPicture],
            LegacyStep::Render(data) => seq![VaCall::DestroyBuffer(data), VaCall::EndPicture],
            LegacyStep::EndPicture(data) => seq![VaCall::DestroyBuffer(data)],
            LegacyStep::ReadBack(data) => seq![VaCall::DestroyBuffer(data)],
            LegacyStep::BeginPicture => Seq::empty(),
        }
    }

    /// What is released once the picture has been read back, whether or not
    /// that succeeded: its buffer.
    pub fn after_readback(self) -> (calls: Vec<VaCall>)
        requires
            self is ReadBack,
        ensures
            calls@ == self.leftover(),
    {
        let mut calls: Vec<VaCall> = Vec::new();
        match self {
            LegacyStep::ReadBack(data) => {
                calls.push(VaCall::DestroyBuffer(data));
            },
            _ => {},
        }
        assert(calls@ =~= self.leftover());
        calls
    }

    /// Takes the status of the call, and the buffer that it gave where it
    /// creates one.
    pub fn on_reply(self, status: i32, buffer: u32) -> (r: Result<LegacyStep, VaFailure>)
        requires
            !(self is ReadBack),
        ensures
            r is Ok <==> status == VA_STATUS_SUCCESS,
            r matches Ok(next) ==> next == self.next(buffer),
            r matches Err(failure) ==> {
                &&& failure.error.text() == va_failure(self.operation(), status)
                &&& failure.cleanup@ == self.leftover()
            },
    {
        let mut cleanup: Vec<VaCall> = Vec::new();
        let (operation, next) = match self {
            LegacyStep::BeginPicture => ("vaBeginPicture", LegacyStep::CreateSliceData),
            LegacyStep::CreateSliceData => {
                cleanup.push(VaCall::EndPicture);
                ("vaCreateBuffer(SliceData)", LegacyStep::Render(buffer))
            },
            LegacyStep::Render(data) => {
                cleanup.push(VaCall::DestroyBuffer(data));
                cleanup.push(VaCall::EndPicture);
                ("vaRenderPicture", LegacyStep::EndPicture(data))
            },
            LegacyStep::EndPicture(data) => {
                cleanup.push(VaCall::DestroyBuffer(data));
                ("vaEndPicture", LegacyStep::ReadBack(data))
            },
            LegacyStep::ReadBack(data) => ("", LegacyStep::ReadBack(data)),
        };
        match check_va(status, operation) {
            Ok(()) => Ok(next),
            Err(error) => {
                assert(cleanup@ =~= self.leftover());
                Err(VaFailure { error, cleanup })
            },
        }
    }
}

impl<S> VaapiDecoder<S> {
    /// The surface that an access unit is decoded on: the current one.
    pub fn legacy_surface(&self) -> (surface: u32)
        requires
            self.wf(),
            self.surfaces_created,
        ensures
            surface == self.surfaces@[self.current_surface_idx as int % self.surfaces@.len() as int],
    {
        self.surfaces[self.current_surface_idx % self.surfaces.len()]
    }
}

/// What the driver holds for a picture before the step.
pub open spec fn open_things(step: LegacyStep) -> Set<VaCall> {
    match step {
        LegacyStep::BeginPicture => Set::empty(),
        LegacyStep::CreateSliceData => set![VaCall::EndPicture],
        LegacyStep::Render(data) => set![VaCall::EndPicture, VaCall::DestroyBuffer(data)],
        LegacyStep::EndPicture(data) => set![VaCall::EndPicture, VaCall::DestroyBuffer(data)],
        LegacyStep::ReadBack(data) => set![VaCall::DestroyBuffer(data)],
    }
}

/// A failed step leaves nothing behind: all that the driver holds is
/// released, each once.  Where the failed call is the one that ends the
/// picture, it counts as ended.
pub proof fn lemma_legacy_cleanup_is_complete(step: LegacyStep)
    ensures
        step.leftover().no_duplicates(),
        step is EndPicture ==> step.leftover().to_set() == open_things(step).remove(
            VaCall::EndPicture,
        ),
        !(step is EndPicture) ==> step.leftover().to_set() == open_things(step),
{
    match step {
        LegacyStep::BeginPicture => {
            assert(step.leftover().to_set() =~= Set::empty());
        },
        LegacyStep::CreateSliceData => {
            assert(step.leftover()[0] == VaCall::EndPicture);
            assert(step.leftover().to_set() =~= open_things(step));
        },
        LegacyStep::Render(data) => {
            assert(step.leftover()[0] == VaCall::DestroyBuffer(data));
            assert(step.leftover()[1] == VaCall::EndPicture);
            assert(step.leftover().to_set() =~= open_things(step));
        },
        LegacyStep::EndPicture(data) => {
            assert(step.leftover()[0] == VaCall::DestroyBuffer(data));
            assert(step.leftover().to_set() =~= open_things(step).remove(VaCall::EndPicture));
        },
        LegacyStep::ReadBack(data) => {
            assert(step.leftover()[0] == VaCall::DestroyBuffer(data));
            assert(step.leftover().to_set() =~= open_things(step));
        },
    }
}

/// The calls of a picture that is one buffer: it begins, its buffer is
/// created and rendered, and it ends; that buffer is kept until it has been
/// read back.
pub proof fn lemma_legacy_order(a: u32, data: u32, b: u32, c: u32)
    ensures
        LegacyStep::BeginPicture.next(a) == LegacyStep::CreateSliceData,
        LegacyStep::BeginPicture.next(a).next(data) == LegacyStep::Render(data),
        LegacyStep::BeginPicture.next(a).next(data).next(b) == LegacyStep::EndPicture(data),
        LegacyStep::BeginPicture.next(a).next(data).next(b).next(c) == LegacyStep::ReadBack(data),
{
}

/// What a failed call leaves to be released: the picture where it has begun
/// and the failed call was not its end, the buffer where it was created.
pub proof fn lemma_legacy_leftovers(a: u32, data: u32, b: u32, c: u32)
    ensures
        ({
            let begin = LegacyStep::BeginPicture;
            let create = begin.next(a);
            let render = create.next(data);
            let end = render.next(b);
            let read = end.next(c);
            &&& begin.leftover().len() == 0
            &&& create.leftover().len() == 1 && create.leftover()[0] == VaCall::EndPicture
            &&& render.leftover().len() == 2 && render.leftover()[0] == VaCall::DestroyBuffer(data)
                && render.leftover()[1] == VaCall::EndPicture
            &&& end.leftover().len() == 1 && end.leftover()[0] == VaCall::DestroyBuffer(data)
            &&& read.leftover().len() == 1 && read.leftover()[0] == VaCall::DestroyBuffer(data)
        }),
{
}

/// The names of the calls for a picture that is one buffer, in error messages.
pub proof fn lemma_names_of_legacy_calls(data: u32)
    ensures
        LegacyStep::BeginPicture.operation() == "vaBeginPicture"@,
        LegacyStep::CreateSliceData.operation() == "vaCreateBuffer(SliceData)"@,
        LegacyStep::Render(data).operation() == "vaRenderPicture"@,
        LegacyStep::EndPicture(data).operation() == "vaEndPicture"@,
{
}

} // verus!
