//! The order of the driver calls that decode a picture, and what has to be
//! released when one of them fails.

use vstd::prelude::*;

use crate::media::VideoError;
use crate::vaapi::fields::{check_va, va_failure};
use crate::vaapi::params::VA_STATUS_SUCCESS;

verus! {

/// A call that releases something.
#[derive(Debug, Clone, Copy, PartialEq, Eq, Structural)]
pub enum VaCall {
    EndPicture,
    DestroyBuffer(u32),
    UnmapBuffer(u32),
    DestroyImage(u32),
}

/// What comes next for a picture; slices are counted from zero.
#[derive(Debug, Clone, Copy, PartialEq, Eq, Structural)]
pub enum PictureStep {
    CreatePictureParameter,
    CreateIqMatrix,
    BeginPicture,
    RenderParameters,
    ParseHeader(usize),
    CreateSliceParameter(usize),
    CreateSliceData(usize),
    RenderSlice(usize),
    EndPicture,
    ReadBack,
}

/// A picture of `slices` slices on its way through the driver.
pub struct PictureRun {
    pub slices: usize,
    pub step: PictureStep,
    /// The buffers created so far.
    pub created: Vec<u32>,
}

impl PictureStep {
    /// The step is a driver call that reports a status.
    pub open spec fn is_call(self) -> bool {
        !(self is ParseHeader) && !(self is ReadBack)
    }

    /// The call gives a new buffer.
    pub open spec fn creates(self) -> bool {
        self is CreatePictureParameter || self is CreateIqMatrix || self is CreateSliceParameter
            || self is CreateSliceData
    }

    /// The name of the call in error messages.
    pub open spec fn operation(self) -> Seq<char> {
        match self {
            PictureStep::CreatePictureParameter => "vaCreateBuffer(PictureParameter)"@,
            PictureStep::CreateIqMatrix => "vaCreateBuffer(IQMatrix)"@,
            PictureStep::BeginPicture => "vaBeginPicture"@,
            PictureStep::RenderParameters => "vaRenderPicture(params)"@,
            PictureStep::ParseHeader(_) => ""@,
            PictureStep::CreateSliceParameter(_) => "vaCreateBuffer(SliceParameter)"@,
            PictureStep::CreateSliceData(_) => "vaCreateBuffer(SliceData)"@,
            PictureStep::RenderSlice(_) => "vaRenderPicture(slice)"@,
            PictureStep::EndPicture => "vaEndPicture"@,
            PictureStep::ReadBack => ""@,
        }
    }

    /// The step that follows in a picture of `slices` slices.
    pub open spec fn next(self, slices: usize) -> PictureStep {
        match self {
            PictureStep::CreatePictureParameter => PictureStep::CreateIqMatrix,
            PictureStep::CreateIqMatrix => PictureStep::BeginPicture,
            PictureStep::BeginPicture => PictureStep::RenderParameters,
            PictureStep::RenderParameters => first_of_slice(0, slices),
            PictureStep::ParseHeader(i) => PictureStep::CreateSliceParameter(i),
            PictureStep::CreateSliceParameter(i) => PictureStep::CreateSliceData(i),
            PictureStep::CreateSliceData(i) => PictureStep::RenderSlice(i),
            PictureStep::RenderSlice(i) => first_of_slice(i + 1, slices),
            PictureStep::EndPicture => PictureStep::ReadBack,
            PictureStep::ReadBack => PictureStep::ReadBack,
        }
    }

    /// The slice that the step belongs to is one of the picture.
    pub open spec fn within(self, slices: usize) -> bool {
        match self {
            PictureStep::ParseHeader(i) => i < slices,
            PictureStep::CreateSliceParameter(i) => i < slices,
            PictureStep::CreateSliceData(i) => i < slices,
            PictureStep::RenderSlice(i) => i < slices,
            _ => true,
        }
    }

    /// How many buffers there are when the step comes.
    pub open spec fn buffers_before(self, slices: usize) -> int {
        match self {
            PictureStep::CreatePictureParameter => 0,
            PictureStep::CreateIqMatrix => 1,
            PictureStep::BeginPicture => 2,
            PictureStep::RenderParameters => 2,
            PictureStep::ParseHeader(i) => 2 + 2 * i,
            PictureStep::CreateSliceParameter(i) => 2 + 2 * i,
            PictureStep::CreateSliceData(i) => 3 + 2 * i,
            PictureStep::RenderSlice(i) => 4 + 2 * i,
            PictureStep::EndPicture => 2 + 2 * slices,
            PictureStep::ReadBack => 2 + 2 * slices,
        }
    }

    /// The picture has begun and has not ended when the step comes.
    pub open spec fn inside_picture(self) -> bool {
        match self {
            PictureStep::CreatePictureParameter => false,
            PictureStep::CreateIqMatrix => false,
            PictureStep::BeginPicture => false,
            PictureStep::ReadBack => false,
            _ => true,
        }
    }
}

/// The first step of slice `i`, or of what follows the last slice.
pub open spec fn first_of_slice(i: int, slices: usize) -> PictureStep {
    if i < slices {
        PictureStep::ParseHeader(i as usize)
    } else {
        PictureStep::EndPicture
    }
}

/// The step that comes after `n` steps that succeeded.
pub open spec fn step_after(n: nat, slices: usize) -> PictureStep
    decreases n,
{
    if n == 0 {
        PictureStep::CreatePictureParameter
    } else {
        step_after((n - 1) as nat, slices).next(slices)
    }
}

/// A picture is decoded in this order: its two parameter buffers are created,
/// it begins, the parameters are rendered; for each slice in turn the header
/// is parsed, two buffers are created and rendered; it ends and is read back.
pub proof fn lemma_order_of_calls(n: nat, slices: usize)
    ensures
        step_after(0, slices) == PictureStep::CreatePictureParameter,
        step_after(1, slices) == PictureStep::CreateIqMatrix,
        step_after(2, slices) == PictureStep::BeginPicture,
        step_after(3, slices) == PictureStep::RenderParameters,
        4 <= n < 4 + 4 * slices ==> {
            let i = ((n - 4) / 4) as usize;
            let k = (n - 4) % 4;
            step_after(n, slices) == if k == 0 {
                PictureStep::ParseHeader(i)
            } else if k == 1 {
                PictureStep::CreateSliceParameter(i)
            } else if k == 2 {
                PictureStep::CreateSliceData(i)
            } else {
                PictureStep::RenderSlice(i)
            }
        },
        n == 4 + 4 * slices ==> step_after(n, slices) == PictureStep::EndPicture,
        n > 4 + 4 * slices ==> step_after(n, slices) == PictureStep::ReadBack,
    decreases n,
{
    reveal_with_fuel(step_after, 5);
    if n > 4 {
        lemma_order_of_calls((n - 1) as nat, slices);
    }
}

/// The buffers that successful calls gave, in order: of each reply the
/// buffer, where its step creates one.
pub open spec fn buffers_given(replies: Seq<u32>, slices: usize) -> Seq<u32>
    decreases replies.len(),
{
    if replies.len() == 0 {
        Seq::empty()
    } else {
        let before = buffers_given(replies.drop_last(), slices);
        if step_after((replies.len() - 1) as nat, slices).creates() {
            before.push(replies.last())
        } else {
            before
        }
    }
}

/// The calls that release the buffers in `created`, after the call that ends
/// a picture still open.
pub open spec fn cleanup_calls(created: Seq<u32>, open: bool) -> Seq<VaCall> {
    (if open {
        seq![VaCall::EndPicture]
    } else {
        Seq::empty()
    }) + created.map_values(|buffer: u32| VaCall::DestroyBuffer(buffer))
}

impl PictureRun {
    /// The buffers are those that the steps so far have created.
    pub open spec fn wf(self) -> bool {
        &&& self.step.within(self.slices)
        &&& self.created@.len() == self.step.buffers_before(self.slices)
    }

    /// The run has come to where it stands by `replies`, each of a step that
    /// succeeded.
    pub open spec fn reached_by(self, replies: Seq<u32>) -> bool {
        &&& self.step == step_after(replies.len(), self.slices)
        &&& self.created@ == buffers_given(replies, self.slices)
    }

    /// A picture of `slices` slices, before its first call.
    pub fn new(slices: usize) -> (run: Self)
        ensures
            run.wf(),
            run.slices == slices,
            run.step == PictureStep::CreatePictureParameter,
            run.created@ == Seq::<u32>::empty(),
            run.reached_by(Seq::empty()),
    {
        PictureRun { slices, step: PictureStep::CreatePictureParameter, created: Vec::new() }
    }

    /// The two buffers that a call to render hands over.
    pub fn render_buffers(&self) -> (buffers: [u32; 2])
        requires
            self.wf(),
            self.step is RenderParameters || self.step is RenderSlice,
        ensures
            buffers@ == self.created@.skip(self.created@.len() - 2),
            self.step is RenderParameters ==> buffers@[0] == self.created@[0] && buffers@[1]
                == self.created@[1],
            self.step matches PictureStep::RenderSlice(i) ==> buffers@[0] == self.created@[2 + 2 * i]
                && buffers@[1] == self.created@[3 + 2 * i],
    {
        let n: usize = self.created.len();
        let buffers = [self.created[n - 2], self.created[n - 1]];
        assert(buffers@ =~= self.created@.skip(self.created@.len() - 2));
        buffers
    }

    /// Takes the status of the call that was made, and the buffer that it
    /// gave where it creates one.  A failure leaves the run where it stands.
    pub fn on_reply(&mut self, status: i32, buffer: u32) -> (r: Result<(), VideoError>)
        requires
            old(self).wf(),
            old(self).step.is_call(),
        ensures
            final(self).wf(),
            final(self).slices == old(self).slices,
            r is Ok <==> status == VA_STATUS_SUCCESS,
            r matches Err(error) ==> {
                &&& error.text() == va_failure(old(self).step.operation(), status)
                &&& *final(self) == *old(self)
            },
            r is Ok ==> {
                &&& final(self).step == old(self).step.next(old(self).slices)
                &&& final(self).created@ == if old(self).step.creates() {
                    old(self).created@.push(buffer)
                } else {
                    old(self).created@
                }
                &&& forall|replies: Seq<u32>| #[trigger]
                    old(self).reached_by(replies) ==> final(self).reached_by(replies.push(buffer))
            },
    {
        let slices: usize = self.slices;
        let (operation, creates, next) = match self.step {
            PictureStep::CreatePictureParameter => (
                "vaCreateBuffer(PictureParameter)",
                true,
                PictureStep::CreateIqMatrix,
            ),
            PictureStep::CreateIqMatrix => (
                "vaCreateBuffer(IQMatrix)",
                true,
                PictureStep::BeginPicture,
            ),
            PictureStep::BeginPicture => ("vaBeginPicture", false, PictureStep::RenderParameters),
            PictureStep::RenderParameters => (
                "vaRenderPicture(params)",
                false,
                if 0 < slices {
                    PictureStep::ParseHeader(0)
                } else {
                    PictureStep::EndPicture
                },
            ),
            PictureStep::CreateSliceParameter(i) => (
                "vaCreateBuffer(SliceParameter)",
                true,
                PictureStep::CreateSliceData(i),
            ),
            PictureStep::CreateSliceData(i) => (
                "vaCreateBuffer(SliceData)",
                true,
                PictureStep::RenderSlice(i),
            ),
            PictureStep::RenderSlice(i) => (
                "vaRenderPicture(slice)",
                false,
                if i < slices - 1 {
                    PictureStep::ParseHeader(i + 1)
                } else {
                    PictureStep::EndPicture
                },
            ),
            _ => ("vaEndPicture", false, PictureStep::ReadBack),
        };
        match check_va(status, operation) {
            Ok(()) => {},
            Err(error) => {
                return Err(error);
            },
        }
        if creates {
            self.created.push(buffer);
        }
        self.step = next;
        proof {
            assert forall|replies: Seq<u32>| #[trigger]
                old(self).reached_by(replies) implies self.reached_by(replies.push(buffer)) by {
                assert(replies.push(buffer).drop_last() =~= replies);
            }
        }
        Ok(())
    }

    /// The header of the slice at hand has been parsed.
    pub fn on_header(&mut self)
        requires
            old(self).wf(),
            old(self).step is ParseHeader,
        ensures
            final(self).wf(),
            final(self).slices == old(self).slices,
            final(self).step == old(self).step.next(old(self).slices),
            final(self).created@ == old(self).created@,
            forall|replies: Seq<u32>, buffer: u32|
                old(self).reached_by(replies) ==> #[trigger] final(self).reached_by(
                    replies.push(buffer),
                ),
    {
        match self.step {
            PictureStep::ParseHeader(i) => {
                self.step = PictureStep::CreateSliceParameter(i);
            },
            _ => {},
        }
        proof {
            assert forall|replies: Seq<u32>, buffer: u32|
                old(self).reached_by(replies) implies #[trigger] self.reached_by(
                replies.push(buffer),
            ) by {
                assert(replies.push(buffer).drop_last() =~= replies);
            }
        }
    }

    /// The calls that release what the run holds: a picture that is still
    /// open ends, and every buffer is destroyed.
    pub fn cleanup(&self) -> (calls: Vec<VaCall>)
        requires
            self.wf(),
        ensures
            calls@ == cleanup_calls(self.created@, self.step.inside_picture()),
    {
        let mut calls: Vec<VaCall> = Vec::new();
        let open = match self.step {
            PictureStep::CreatePictureParameter => false,
            PictureStep::CreateIqMatrix => false,
            PictureStep::BeginPicture => false,
            PictureStep::ReadBack => false,
            _ => true,
        };
        if open {
            calls.push(VaCall::EndPicture);
        }
        let mut i: usize = 0;
        assert(calls@ =~= cleanup_calls(self.created@.take(0), open));
        while i < self.created.len()
            invariant
                i <= self.created@.len(),
                calls@ == cleanup_calls(self.created@.take(i as int), open),
            decreases self.created@.len() - i,
        {
            calls.push(VaCall::DestroyBuffer(self.created[i]));
            i += 1;
            assert(calls@ =~= cleanup_calls(self.created@.take(i as int), open));
        }
        assert(self.created@.take(i as int) =~= self.created@);
        calls
    }
}

/// Nothing is left behind: wherever a run stops, the calls that clean up
/// destroy every buffer that a call gave, each once, and no other; and they
/// end the picture exactly where it has begun and has not ended.
pub proof fn lemma_cleanup_is_complete(run: PictureRun, replies: Seq<u32>)
    requires
        run.wf(),
        run.reached_by(replies),
    ensures
        cleanup_calls(run.created@, run.step.inside_picture()).filter(is_destroy())
            == buffers_given(replies, run.slices).map_values(
            |buffer: u32| VaCall::DestroyBuffer(buffer),
        ),
        cleanup_calls(run.created@, run.step.inside_picture()).contains(VaCall::EndPicture) <==> 3
            <= replies.len() <= 4 + 4 * run.slices,
{
    let calls = cleanup_calls(run.created@, run.step.inside_picture());
    let destroys = run.created@.map_values(|buffer: u32| VaCall::DestroyBuffer(buffer));
    let ends: Seq<VaCall> = if run.step.inside_picture() {
        seq![VaCall::EndPicture]
    } else {
        Seq::empty()
    };
    Seq::filter_distributes_over_add(ends, destroys, is_destroy());
    lemma_all_destroys(run.created@);
    assert(ends.filter(is_destroy()) =~= Seq::empty()) by {
        reveal_with_fuel(Seq::filter, 2);
        if run.step.inside_picture() {
            assert(ends.drop_last() =~= Seq::empty());
        }
    }
    assert(Seq::<VaCall>::empty() + destroys =~= destroys);
    lemma_order_of_calls(replies.len(), run.slices);
    if run.step.inside_picture() {
        assert(calls[0] == VaCall::EndPicture);
    } else {
        assert(forall|i: int|
            0 <= i < calls.len() ==> #[trigger] calls[i] == VaCall::DestroyBuffer(run.created@[i]));
    }
}

/// Tells the calls that destroy a buffer.
pub open spec fn is_destroy() -> spec_fn(VaCall) -> bool {
    |call: VaCall| call is DestroyBuffer
}

proof fn lemma_all_destroys(created: Seq<u32>)
    ensures
        created.map_values(|buffer: u32| VaCall::DestroyBuffer(buffer)).filter(is_destroy())
            == created.map_values(|buffer: u32| VaCall::DestroyBuffer(buffer)),
    decreases created.len(),
{
    let f = |buffer: u32| VaCall::DestroyBuffer(buffer);
    reveal(Seq::filter);
    if created.len() > 0 {
        let rest = created.drop_last();
        lemma_all_destroys(rest);
        assert(created.map_values(f).drop_last() =~= rest.map_values(f));
        assert(created.map_values(f) =~= rest.map_values(f).push(f(created.last())));
    }
}

/// The buffers of a picture are those that the first two calls gave, and then
/// two for each slice, from the second and the third of its four steps.
pub proof fn lemma_buffers_of_a_picture(replies: Seq<u32>, slices: usize, i: int)
    ensures
        ({
            let buffers = buffers_given(replies, slices);
            let n = replies.len();
            let m = n - 4;
            &&& n <= 2 ==> buffers.len() == n
            &&& 2 <= n <= 4 ==> buffers.len() == 2
            &&& 4 <= n <= 4 + 4 * slices ==> buffers.len() == 2 + 2 * (m / 4) + (if m % 4 < 2 {
                0int
            } else {
                m % 4 - 1
            })
            &&& n >= 4 + 4 * slices ==> buffers.len() == 2 + 2 * slices
            &&& n >= 1 ==> buffers[0] == replies[0]
            &&& n >= 2 ==> buffers[1] == replies[1]
            &&& 0 <= i < slices && n >= 6 + 4 * i ==> buffers[2 + 2 * i] == replies[5 + 4 * i]
            &&& 0 <= i < slices && n >= 7 + 4 * i ==> buffers[3 + 2 * i] == replies[6 + 4 * i]
        }),
    decreases replies.len(),
{
    let n = replies.len();
    if n > 0 {
        lemma_buffers_of_a_picture(replies.drop_last(), slices, i);
        lemma_order_of_calls((n - 1) as nat, slices);
    }
}

/// How a run is cleaned up: a picture that is open ends first, and then the
/// buffers are destroyed in the order in which they were created.
pub proof fn lemma_order_of_cleanup(created: Seq<u32>, i: int)
    requires
        0 <= i < created.len(),
    ensures
        cleanup_calls(created, true).len() == created.len() + 1,
        cleanup_calls(created, true)[0] == VaCall::EndPicture,
        cleanup_calls(created, true)[i + 1] == VaCall::DestroyBuffer(created[i]),
        cleanup_calls(created, false).len() == created.len(),
        cleanup_calls(created, false)[i] == VaCall::DestroyBuffer(created[i]),
{
}

/// The names of the calls that decode a picture, in error messages.
pub proof fn lemma_names_of_picture_calls(i: usize)
    ensures
        PictureStep::CreatePictureParameter.operation() == "vaCreateBuffer(PictureParameter)"@,
        PictureStep::CreateIqMatrix.operation() == "vaCreateBuffer(IQMatrix)"@,
        PictureStep::BeginPicture.operation() == "vaBeginPicture"@,
        PictureStep::RenderParameters.operation() == "vaRenderPicture(params)"@,
        PictureStep::CreateSliceParameter(i).operation() == "vaCreateBuffer(SliceParameter)"@,
        PictureStep::CreateSliceData(i).operation() == "vaCreateBuffer(SliceData)"@,
        PictureStep::RenderSlice(i).operation() == "vaRenderPicture(slice)"@,
        PictureStep::EndPicture.operation() == "vaEndPicture"@,
{
}

/// Which steps are calls to the driver: all but parsing a header and reading
/// the picture back.  Four of them give a buffer.
pub proof fn lemma_which_steps_are_calls(step: PictureStep)
    ensures
        match step {
            PictureStep::ParseHeader(_) => !step.is_call() && !step.creates(),
            PictureStep::ReadBack => !step.is_call() && !step.creates(),
            PictureStep::CreatePictureParameter => step.is_call() && step.creates(),
            PictureStep::CreateIqMatrix => step.is_call() && step.creates(),
            PictureStep::CreateSliceParameter(_) => step.is_call() && step.creates(),
            PictureStep::CreateSliceData(_) => step.is_call() && step.creates(),
            _ => step.is_call() && !step.creates(),
        },
{
}

} // verus!
