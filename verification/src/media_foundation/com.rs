//! Result codes, messages, and the calls that give up COM objects.

use vstd::prelude::*;

verus! {

pub const S_OK: i32 = 0;

/// 0xC00D6D72
pub const MF_E_TRANSFORM_NEED_MORE_INPUT: i32 = -1072861838;

/// 0xC00D36B5
pub const MF_E_NOTACCEPTING: i32 = -1072875851;

/// 0xC00D6D61
pub const MF_E_TRANSFORM_STREAM_CHANGE: i32 = -1072861855;

pub const MFT_MESSAGE_COMMAND_FLUSH: u32 = 0x0;

pub const MFT_MESSAGE_COMMAND_DRAIN: u32 = 0x1;

pub const MFT_MESSAGE_SET_D3D_MANAGER: u32 = 0x2;

pub const MFT_MESSAGE_NOTIFY_BEGIN_STREAMING: u32 = 0x1000_0000;

pub const MFT_MESSAGE_NOTIFY_START_OF_STREAM: u32 = 0x1000_0003;

pub const MFT_OUTPUT_STREAM_PROVIDES_SAMPLES: u32 = 0x100;

/// A call whose outcome does not matter.
#[derive(Debug, Clone, Copy, PartialEq, Eq, Structural)]
pub enum MfCall {
    /// Gives up a COM object.
    Release(usize),
    /// Unlocks a media buffer.
    Unlock(usize),
    /// Sends a message without a parameter to the transform.
    Message(u32),
    /// Shuts the platform down.
    Shutdown,
}

/// The call that gives up `object`, where there is one.
pub open spec fn release(object: usize) -> Seq<MfCall> {
    if object != 0 {
        seq![MfCall::Release(object)]
    } else {
        Seq::empty()
    }
}

/// The calls that give up the objects, in order.
pub open spec fn release_all(objects: Seq<usize>) -> Seq<MfCall>
    decreases objects.len(),
{
    if objects.len() == 0 {
        Seq::empty()
    } else {
        release_all(objects.drop_last()) + release(objects.last())
    }
}

/// How many references to `object` a field that holds `held` stands for.
pub open spec fn owns(held: usize, object: usize) -> int {
    if held != 0 && held == object {
        1
    } else {
        0
    }
}

/// How many references to `object` are among those held.
pub open spec fn owns_all(held: Seq<usize>, object: usize) -> int
    decreases held.len(),
{
    if held.len() == 0 {
        0
    } else {
        owns_all(held.drop_last(), object) + owns(held.last(), object)
    }
}

/// The object that a call gave: none where it failed.
pub open spec fn given(hr: i32, object: usize) -> usize {
    if hr == S_OK {
        object
    } else {
        0
    }
}

/// How many references to `object` the calls give up.
pub open spec fn released(calls: Seq<MfCall>, object: usize) -> int
    decreases calls.len(),
{
    if calls.len() == 0 {
        0
    } else {
        released(calls.drop_last(), object) + if calls.last() == MfCall::Release(object) {
            1int
        } else {
            0
        }
    }
}

/// What two runs of calls give up adds up.
pub proof fn lemma_released_adds_up(first: Seq<MfCall>, second: Seq<MfCall>, object: usize)
    ensures
        released(first + second, object) == released(first, object) + released(second, object),
    decreases second.len(),
{
    let both = first + second;
    if second.len() == 0 {
        assert(both =~= first);
    } else {
        assert(both.drop_last() =~= first + second.drop_last());
        lemma_released_adds_up(first, second.drop_last(), object);
    }
}

/// The call that gives up an object gives up the one reference to it.
pub proof fn lemma_release_is_one(held: usize, object: usize)
    requires
        object != 0,
    ensures
        released(release(held), object) == owns(held, object),
{
    reveal_with_fuel(released, 2);
}

/// Giving up all the objects gives up every reference among them.
pub proof fn lemma_release_all(held: Seq<usize>, object: usize)
    requires
        object != 0,
    ensures
        released(release_all(held), object) == owns_all(held, object),
    decreases held.len(),
{
    if held.len() > 0 {
        lemma_release_all(held.drop_last(), object);
        lemma_release_is_one(held.last(), object);
        lemma_released_adds_up(release_all(held.drop_last()), release(held.last()), object);
    }
}

/// The first of the references held is one of them.
pub proof fn lemma_owns_first(held: Seq<usize>, object: usize)
    requires
        held.len() > 0,
    ensures
        owns_all(held, object) == owns(held[0], object) + owns_all(held.skip(1), object),
    decreases held.len(),
{
    if held.len() == 1 {
        reveal_with_fuel(owns_all, 2);
        assert(held.drop_last() =~= Seq::empty());
        assert(held.skip(1) =~= Seq::empty());
    } else {
        lemma_owns_first(held.drop_last(), object);
        assert(held.drop_last().skip(1) =~= held.skip(1).drop_last());
    }
}

/// The sum of the numbers.
pub open spec fn total(numbers: Seq<int>) -> int
    decreases numbers.len(),
{
    if numbers.len() == 0 {
        0
    } else {
        total(numbers.drop_last()) + numbers.last()
    }
}

/// Over the whole life of a decoder every reference that was acquired is
/// given up once: where each step keeps the books on an object, as opening,
/// running and closing do, and nothing is held before the first and after the
/// last, as many references have gone as were gained.
pub proof fn lemma_books_balance(held: Seq<int>, gained: Seq<int>, gone: Seq<int>)
    requires
        held.len() == gained.len() + 1,
        held.len() == gone.len() + 1,
        held[0] == 0,
        forall|i: int|
            0 <= i < gone.len() ==> #[trigger] gone[i] + held[i + 1] == held[i] + gained[i],
    ensures
        total(gone) + held.last() == total(gained),
        held.last() == 0 ==> total(gone) == total(gained),
    decreases held.len(),
{
    if gone.len() > 0 {
        let n = gone.len() - 1;
        let before = held.drop_last();
        assert forall|i: int| 0 <= i < n implies #[trigger] gone.drop_last()[i] + before[i + 1]
            == before[i] + gained.drop_last()[i] by {
            assert(gone[i] + held[i + 1] == held[i] + gained[i]);
        }
        lemma_books_balance(before, gained.drop_last(), gone.drop_last());
        assert(gone[n] + held[n + 1] == held[n] + gained[n]);
    }
}

/// Appends the call that gives up `object`, where there is one.
pub fn push_release(calls: &mut Vec<MfCall>, object: usize)
    ensures
        final(calls)@ == old(calls)@ + release(object),
        forall|o: usize|
            o != 0 ==> #[trigger] released(final(calls)@, o) == released(old(calls)@, o) + owns(
                object,
                o,
            ),
{
    if object != 0 {
        calls.push(MfCall::Release(object));
    }
    assert(calls@ =~= old(calls)@ + release(object));
    proof {
        assert forall|o: usize| o != 0 implies #[trigger] released(calls@, o) == released(
            old(calls)@,
            o,
        ) + owns(object, o) by {
            lemma_release_is_one(object, o);
            lemma_released_adds_up(old(calls)@, release(object), o);
        }
    }
}

/// Appends the calls that give up the objects.
pub fn push_release_all(calls: &mut Vec<MfCall>, objects: &Vec<usize>)
    ensures
        final(calls)@ == old(calls)@ + release_all(objects@),
        forall|o: usize|
            o != 0 ==> #[trigger] released(final(calls)@, o) == released(old(calls)@, o) + owns_all(
                objects@,
                o,
            ),
{
    let mut i: usize = 0;
    assert(objects@.take(0) =~= Seq::empty());
    assert(calls@ =~= old(calls)@ + release_all(objects@.take(0)));
    while i < objects.len()
        invariant
            i <= objects@.len(),
            calls@ == old(calls)@ + release_all(objects@.take(i as int)),
        decreases objects@.len() - i,
    {
        push_release(calls, objects[i]);
        proof {
            let next = objects@.take(i + 1);
            assert(next.drop_last() =~= objects@.take(i as int));
            assert(calls@ =~= old(calls)@ + release_all(next));
        }
        i += 1;
    }
    assert(objects@.take(i as int) =~= objects@);
    proof {
        assert forall|o: usize| o != 0 implies #[trigger] released(calls@, o) == released(
            old(calls)@,
            o,
        ) + owns_all(objects@, o) by {
            lemma_release_all(objects@, o);
            lemma_released_adds_up(old(calls)@, release_all(objects@), o);
        }
    }
}

/// Appends a call that gives up no object.
pub fn push_other(calls: &mut Vec<MfCall>, call: MfCall)
    requires
        !(call is Release),
    ensures
        final(calls)@ == old(calls)@.push(call),
        forall|o: usize| #[trigger] released(final(calls)@, o) == released(old(calls)@, o),
{
    calls.push(call);
    assert(calls@.drop_last() =~= old(calls)@);
}

/// The Direct3D objects that hardware decoding needs.
#[derive(Debug, Clone, Copy, PartialEq, Eq, Structural)]
pub struct Dxva {
    pub device: usize,
    pub context: usize,
    pub manager: usize,
    pub reset_token: u32,
}

impl Dxva {
    /// No Direct3D objects.
    pub open spec fn spec_none() -> Dxva {
        Dxva { device: 0, context: 0, manager: 0, reset_token: 0 }
    }

    /// No Direct3D objects.
    pub fn none() -> (dxva: Dxva)
        ensures
            dxva == Self::spec_none(),
    {
        Dxva { device: 0, context: 0, manager: 0, reset_token: 0 }
    }

    /// All the objects are there.
    pub open spec fn is_complete(self) -> bool {
        self.device != 0 && self.context != 0 && self.manager != 0
    }

    /// How many references to `object` are held.
    pub open spec fn holds(self, object: usize) -> int {
        owns(self.device, object) + owns(self.context, object) + owns(self.manager, object)
    }

    /// The calls that give the objects up: the manager, the context, the device.
    pub open spec fn releases(self) -> Seq<MfCall> {
        release(self.manager) + release(self.context) + release(self.device)
    }

    /// Appends the calls that give the objects up.
    pub fn cleanup_dxva(&self, calls: &mut Vec<MfCall>)
        ensures
            final(calls)@ == old(calls)@ + self.releases(),
            forall|o: usize|
                o != 0 ==> #[trigger] released(final(calls)@, o) == released(old(calls)@, o)
                    + self.holds(o),
    {
        push_release(calls, self.manager);
        push_release(calls, self.context);
        push_release(calls, self.device);
        assert(calls@ =~= old(calls)@ + self.releases());
    }
}

/// Every reference to a Direct3D object is given up, and none twice.
pub proof fn lemma_dxva_releases_are_complete(dxva: Dxva, object: usize)
    requires
        object != 0,
    ensures
        released(dxva.releases(), object) == dxva.holds(object),
{
    let m = release(dxva.manager);
    let c = release(dxva.context);
    let d = release(dxva.device);
    lemma_release_is_one(dxva.manager, object);
    lemma_release_is_one(dxva.context, object);
    lemma_release_is_one(dxva.device, object);
    lemma_released_adds_up(m, c, object);
    lemma_released_adds_up(m + c, d, object);
}

/// Whether the HEVC decoder can be created, from what creating it gave; the
/// object is given up where there is one.
pub fn probe_hevc(hr: i32, transform: usize) -> (r: (bool, Vec<MfCall>))
    ensures
        r.0 == (hr == S_OK && transform != 0),
        r.1@ == release(transform),
{
    let mut calls: Vec<MfCall> = Vec::new();
    push_release(&mut calls, transform);
    assert(calls@ =~= release(transform));
    (hr == S_OK && transform != 0, calls)
}

/// The books in plain numbers: an object that is there is given up by one
/// call and counts as one reference to itself; none is none; a call that
/// failed gave none.
pub proof fn lemma_one_object(held: usize, object: usize, hr: i32)
    ensures
        held == 0 ==> release(held).len() == 0 && owns(held, object) == 0,
        held != 0 ==> release(held).len() == 1 && release(held)[0] == MfCall::Release(held),
        held != 0 && held == object ==> owns(held, object) == 1,
        held != object ==> owns(held, object) == 0,
        hr == 0 ==> given(hr, object) == object,
        hr != 0 ==> given(hr, object) == 0,
{
}

/// Every call that gives up an object counts, and no other call does.
pub proof fn lemma_one_call_more(calls: Seq<MfCall>, call: MfCall, object: usize)
    ensures
        released(Seq::empty(), object) == 0,
        call == MfCall::Release(object) ==> released(calls.push(call), object) == released(
            calls,
            object,
        ) + 1,
        call != MfCall::Release(object) ==> released(calls.push(call), object) == released(
            calls,
            object,
        ),
{
    assert(calls.push(call).drop_last() =~= calls);
}

/// Every object of a list counts.
pub proof fn lemma_one_more_listed(held: Seq<usize>, one: usize, object: usize)
    requires
        object != 0,
    ensures
        owns_all(Seq::empty(), object) == 0,
        owns_all(held.push(one), object) == owns_all(held, object) + if one == object {
            1int
        } else {
            0
        },
        one != 0 ==> release_all(held.push(one)) == release_all(held).push(MfCall::Release(one)),
        one == 0 ==> release_all(held.push(one)) == release_all(held),
{
    assert(held.push(one).drop_last() =~= held);
    if one != 0 {
        assert(release_all(held) + seq![MfCall::Release(one)] =~= release_all(held).push(
            MfCall::Release(one),
        ));
    } else {
        assert(release_all(held) + Seq::<MfCall>::empty() =~= release_all(held));
    }
}

/// The Direct3D objects: the manager is given up before the context, and that
/// before the device; each counts, and all three have to be there.
pub proof fn lemma_direct3d_objects(dxva: Dxva, object: usize)
    ensures
        dxva.device != 0 && dxva.context != 0 && dxva.manager != 0 <==> dxva.is_complete(),
        dxva.is_complete() ==> {
            &&& dxva.releases().len() == 3
            &&& dxva.releases()[0] == MfCall::Release(dxva.manager)
            &&& dxva.releases()[1] == MfCall::Release(dxva.context)
            &&& dxva.releases()[2] == MfCall::Release(dxva.device)
        },
        object != 0 ==> dxva.holds(object) == (if dxva.device == object {
            1int
        } else {
            0
        }) + (if dxva.context == object {
            1int
        } else {
            0
        }) + (if dxva.manager == object {
            1int
        } else {
            0
        }),
        Dxva::spec_none().device == 0,
        Dxva::spec_none().context == 0,
        Dxva::spec_none().manager == 0,
        Dxva::spec_none().reset_token == 0,
        Dxva::spec_none().releases().len() == 0,
{
}

/// The result codes as they are written, with 2^32 added, and the messages.
pub proof fn lemma_result_codes()
    ensures
        MF_E_TRANSFORM_NEED_MORE_INPUT + 0x1_0000_0000 == 0xC00D_6D72,
        MF_E_NOTACCEPTING + 0x1_0000_0000 == 0xC00D_36B5,
        MF_E_TRANSFORM_STREAM_CHANGE + 0x1_0000_0000 == 0xC00D_6D61,
        S_OK == 0,
        MFT_MESSAGE_COMMAND_DRAIN == 1,
        MFT_MESSAGE_NOTIFY_BEGIN_STREAMING == 0x1000_0000,
        MFT_MESSAGE_NOTIFY_START_OF_STREAM == 0x1000_0003,
        MFT_OUTPUT_STREAM_PROVIDES_SAMPLES == 0x100,
{
}

} // verus!
