//! Opening the platform's decoder: what each call that answered leads to.

use vstd::prelude::*;

use crate::media::VideoCodec;
use crate::media_foundation::com::{
    given, lemma_dxva_releases_are_complete, lemma_owns_first, lemma_release_is_one,
    lemma_released_adds_up, owns, owns_all, push_other, push_release, push_release_all, release,
    release_all, released, Dxva, MfCall, MFT_MESSAGE_NOTIFY_BEGIN_STREAMING,
    MFT_MESSAGE_NOTIFY_START_OF_STREAM, MFT_OUTPUT_STREAM_PROVIDES_SAMPLES, S_OK,
};
use crate::media_foundation::types::{
    candidate, input_subtype, input_subtype_of, judge, nv12_subtype, nv12_subtype_bytes,
    size_height, size_width, subtype_view, unpack_size, Candidate, MAX_TYPES,
};

verus! {

/// What comes next while the decoder is opened.
#[derive(Debug, Clone, Copy, PartialEq, Eq, Structural)]
pub enum MfOpenStep {
    /// The platform is to be started.
    Startup,
    /// A Direct3D device is to be created.
    CreateDevice,
    /// A device manager is to be created.
    CreateManager,
    /// The device is to be handed to the manager.
    ResetDevice,
    /// The platform is to be asked for its transforms that decode the codec
    /// to NV12.
    EnumTransforms,
    /// This object of the list is to be activated, which gives its transform.
    Activate(usize),
    /// The system's own transform is to be created.
    CreateTransform,
    /// The manager is to be handed to the transform.
    SetManager,
    /// The transform is to be asked for this input type.
    FindInput(u32),
    /// This input type is to be set.
    SetInput(usize),
    /// The transform is to be asked for this output type.
    FindOutput(u32),
    /// This output type is to be set, and asked for its frame size.
    SetOutput(usize),
    /// The transform is to be asked about its output stream.
    StreamInfo,
    /// The decoder is open.
    Ready,
    /// The platform's decoder cannot be used.
    Fallback,
    /// The codec has no decoder.
    Unsupported,
}

/// How far opening the decoder has come.
#[derive(Debug, PartialEq, Eq)]
pub struct MfOpening {
    pub codec: VideoCodec,
    pub step: MfOpenStep,
    pub dxva: Dxva,
    pub dxva_enabled: bool,
    /// The activation objects that have not been tried.
    pub listed: Vec<usize>,
    pub transform: usize,
    pub width: u32,
    pub height: u32,
    pub provides_samples: bool,
    pub output_buf_size: u32,
}

impl MfOpening {
    /// Nothing is left to do with the platform.
    pub open spec fn is_over(self) -> bool {
        self.step is Ready || self.step is Fallback || self.step is Unsupported
    }

    /// The Direct3D objects are all there or none is, except for a manager
    /// that is still to be created; once the transform has been asked, they
    /// are there only where it uses them.  From the first question to it on
    /// there is a transform, and an opening that is given up holds nothing.
    pub open spec fn wf(self) -> bool {
        &&& match self.step {
            MfOpenStep::Startup
            | MfOpenStep::CreateDevice
            | MfOpenStep::Unsupported
            | MfOpenStep::Fallback => {
                self.dxva == Dxva::spec_none() && self.transform == 0 && !self.dxva_enabled
            },
            MfOpenStep::CreateManager => {
                &&& self.dxva.device != 0
                &&& self.dxva.context != 0
                &&& self.dxva.manager == 0
                &&& self.transform == 0
                &&& !self.dxva_enabled
            },
            MfOpenStep::ResetDevice => {
                self.dxva.is_complete() && self.transform == 0 && !self.dxva_enabled
            },
            MfOpenStep::EnumTransforms
            | MfOpenStep::Activate(_)
            | MfOpenStep::CreateTransform => {
                &&& self.dxva == Dxva::spec_none() || self.dxva.is_complete()
                &&& self.transform == 0
                &&& !self.dxva_enabled
            },
            MfOpenStep::SetManager => {
                self.dxva.is_complete() && self.transform != 0 && !self.dxva_enabled
            },
            _ => {
                &&& if self.dxva_enabled {
                    self.dxva.is_complete()
                } else {
                    self.dxva == Dxva::spec_none()
                }
                &&& self.transform != 0
            },
        }
        &&& self.step is Activate <==> self.listed@.len() > 0
        &&& self.step is Activate ==> self.step->Activate_0 == self.listed@[0]
        &&& self.listed@.len() <= u32::MAX
        &&& self.step is SetInput ==> self.step->SetInput_0 != 0
        &&& self.step is SetOutput ==> self.step->SetOutput_0 != 0
        &&& self.step is FindInput ==> self.step->FindInput_0 < MAX_TYPES
        &&& self.step is FindOutput ==> self.step->FindOutput_0 < MAX_TYPES
        &&& !(self.step is StreamInfo || self.step is Ready || self.step is Fallback) ==> self.width
            == 0 && self.height == 0
    }

    /// How many references to `object` the opening holds.
    pub open spec fn holds(self, object: usize) -> int {
        self.dxva.holds(object) + owns(self.transform, object) + owns_all(self.listed@, object)
            + match self.step {
            MfOpenStep::SetInput(media_type) => owns(media_type, object),
            MfOpenStep::SetOutput(media_type) => owns(media_type, object),
            _ => 0,
        }
    }

    /// More calls than this cannot follow.
    pub open spec fn calls_left(self) -> int {
        match self.step {
            MfOpenStep::Startup => 2 * MAX_TYPES + u32::MAX + 12,
            MfOpenStep::CreateDevice => 2 * MAX_TYPES + u32::MAX + 11,
            MfOpenStep::CreateManager => 2 * MAX_TYPES + u32::MAX + 10,
            MfOpenStep::ResetDevice => 2 * MAX_TYPES + u32::MAX + 9,
            MfOpenStep::EnumTransforms => 2 * MAX_TYPES + u32::MAX + 8,
            MfOpenStep::Activate(_) => 2 * MAX_TYPES + 5 + self.listed@.len(),
            MfOpenStep::CreateTransform => 2 * MAX_TYPES + 5,
            MfOpenStep::SetManager => 2 * MAX_TYPES + 4,
            MfOpenStep::FindInput(idx) => 2 * MAX_TYPES + 3 - idx,
            MfOpenStep::SetInput(_) => MAX_TYPES + 3,
            MfOpenStep::FindOutput(idx) => MAX_TYPES + 2 - idx,
            MfOpenStep::SetOutput(_) => 2,
            MfOpenStep::StreamInfo => 1,
            _ => 0,
        }
    }

    /// The calls with which an opening is given up: the Direct3D objects, the
    /// transform, the platform.
    pub open spec fn give_up_calls(self) -> Seq<MfCall> {
        self.dxva.releases() + release(self.transform) + seq![MfCall::Shutdown]
    }

    /// The opening after it was given up.
    pub open spec fn given_up(self) -> Self {
        MfOpening {
            step: MfOpenStep::Fallback,
            dxva: Dxva::spec_none(),
            dxva_enabled: false,
            transform: 0,
            ..self
        }
    }

    fn give_up(&mut self, calls: &mut Vec<MfCall>)
        ensures
            final(calls)@ == old(calls)@ + old(self).give_up_calls(),
            *final(self) == old(self).given_up(),
            forall|o: usize|
                o != 0 ==> #[trigger] released(final(calls)@, o) == released(old(calls)@, o)
                    + old(self).dxva.holds(o) + owns(old(self).transform, o),
    {
        self.dxva.cleanup_dxva(calls);
        push_release(calls, self.transform);
        push_other(calls, MfCall::Shutdown);
        assert(calls@ =~= old(calls)@ + old(self).give_up_calls());
        self.dxva = Dxva::none();
        self.dxva_enabled = false;
        self.transform = 0;
        self.step = MfOpenStep::Fallback;
    }

    /// Before the first call.
    pub fn new(codec: VideoCodec) -> (opening: Self)
        ensures
            opening.wf(),
            opening.codec == codec,
            opening.step == MfOpenStep::Startup,
            opening.dxva == Dxva::spec_none(),
            !opening.dxva_enabled,
            opening.listed@ == Seq::<usize>::empty(),
            opening.transform == 0,
            opening.width == 0,
            opening.height == 0,
            !opening.provides_samples,
            opening.output_buf_size == 0,
            forall|o: usize| #[trigger] opening.holds(o) == 0,
    {
        MfOpening {
            codec,
            step: MfOpenStep::Startup,
            dxva: Dxva::none(),
            dxva_enabled: false,
            listed: Vec::new(),
            transform: 0,
            width: 0,
            height: 0,
            provides_samples: false,
            output_buf_size: 0,
        }
    }

    /// Takes the result of starting the platform, which is shut down again
    /// where the codec has no decoder.
    pub fn on_startup(&mut self, hr: i32) -> (calls: Vec<MfCall>)
        requires
            old(self).wf(),
            old(self).step is Startup,
        ensures
            final(self).wf(),
            0 <= final(self).calls_left() < old(self).calls_left(),
            forall|o: usize|
                o != 0 ==> #[trigger] released(calls@, o) + final(self).holds(o)
                    == old(self).holds(o),
            calls@ == if hr == S_OK && old(self).codec is Other {
                seq![MfCall::Shutdown]
            } else {
                Seq::empty()
            },
            *final(self) == (MfOpening {
                step: if hr != S_OK {
                    MfOpenStep::Fallback
                } else if old(self).codec is Other {
                    MfOpenStep::Unsupported
                } else {
                    MfOpenStep::CreateDevice
                },
                ..*old(self)
            }),
    {
        let mut calls: Vec<MfCall> = Vec::new();
        self.step = if hr != S_OK {
            MfOpenStep::Fallback
        } else if matches!(self.codec, VideoCodec::Other(_)) {
            push_other(&mut calls, MfCall::Shutdown);
            assert(calls@ =~= seq![MfCall::Shutdown]);
            MfOpenStep::Unsupported
        } else {
            MfOpenStep::CreateDevice
        };
        calls
    }

    /// Takes the Direct3D device and its context.  Without them the decoder
    /// is opened without Direct3D.
    pub fn on_device(&mut self, hr: i32, device: usize, context: usize) -> (calls: Vec<MfCall>)
        requires
            old(self).wf(),
            old(self).step is CreateDevice,
        ensures
            final(self).wf(),
            0 <= final(self).calls_left() < old(self).calls_left(),
            forall|o: usize|
                o != 0 ==> #[trigger] released(calls@, o) + final(self).holds(o)
                    == old(self).holds(o) + owns(device, o) + owns(context, o),
            hr == S_OK && device != 0 && context != 0 ==> {
                &&& calls@ == Seq::<MfCall>::empty()
                &&& *final(self) == (MfOpening {
                    step: MfOpenStep::CreateManager,
                    dxva: Dxva { device, context, ..old(self).dxva },
                    ..*old(self)
                })
            },
            !(hr == S_OK && device != 0 && context != 0) ==> {
                &&& calls@ == release(device) + release(context)
                &&& *final(self) == (MfOpening {
                    step: MfOpenStep::EnumTransforms,
                    ..*old(self)
                })
            },
    {
        let mut calls: Vec<MfCall> = Vec::new();
        if hr != S_OK || device == 0 || context == 0 {
            push_release(&mut calls, device);
            push_release(&mut calls, context);
            assert(calls@ =~= release(device) + release(context));
            self.step = MfOpenStep::EnumTransforms;
        } else {
            self.dxva.device = device;
            self.dxva.context = context;
            self.step = MfOpenStep::CreateManager;
        }
        calls
    }

    /// Takes the device manager.
    pub fn on_manager(&mut self, hr: i32, manager: usize, reset_token: u32) -> (calls: Vec<MfCall>)
        requires
            old(self).wf(),
            old(self).step is CreateManager,
        ensures
            final(self).wf(),
            0 <= final(self).calls_left() < old(self).calls_left(),
            forall|o: usize|
                o != 0 ==> #[trigger] released(calls@, o) + final(self).holds(o)
                    == old(self).holds(o) + owns(given(hr, manager), o),
            hr == S_OK && manager != 0 ==> {
                &&& calls@ == Seq::<MfCall>::empty()
                &&& *final(self) == (MfOpening {
                    step: MfOpenStep::ResetDevice,
                    dxva: Dxva { manager, reset_token, ..old(self).dxva },
                    ..*old(self)
                })
            },
            !(hr == S_OK && manager != 0) ==> {
                &&& calls@ == release(old(self).dxva.device) + release(old(self).dxva.context)
                &&& *final(self) == (MfOpening {
                    step: MfOpenStep::EnumTransforms,
                    dxva: Dxva::spec_none(),
                    ..*old(self)
                })
            },
    {
        let mut calls: Vec<MfCall> = Vec::new();
        if hr != S_OK || manager == 0 {
            push_release(&mut calls, self.dxva.device);
            push_release(&mut calls, self.dxva.context);
            assert(calls@ =~= release(old(self).dxva.device) + release(old(self).dxva.context));
            self.dxva = Dxva::none();
            self.step = MfOpenStep::EnumTransforms;
        } else {
            self.dxva.manager = manager;
            self.dxva.reset_token = reset_token;
            self.step = MfOpenStep::ResetDevice;
        }
        calls
    }

    /// Takes the result of handing the device to the manager.
    pub fn on_reset(&mut self, hr: i32) -> (calls: Vec<MfCall>)
        requires
            old(self).wf(),
            old(self).step is ResetDevice,
        ensures
            final(self).wf(),
            0 <= final(self).calls_left() < old(self).calls_left(),
            forall|o: usize|
                o != 0 ==> #[trigger] released(calls@, o) + final(self).holds(o)
                    == old(self).holds(o),
            hr == S_OK ==> calls@ == Seq::<MfCall>::empty(),
            hr != S_OK ==> calls@ == release(old(self).dxva.manager) + release(
                old(self).dxva.device,
            ) + release(old(self).dxva.context),
            *final(self) == (MfOpening {
                step: MfOpenStep::EnumTransforms,
                dxva: if hr == S_OK {
                    old(self).dxva
                } else {
                    Dxva::spec_none()
                },
                ..*old(self)
            }),
    {
        let mut calls: Vec<MfCall> = Vec::new();
        if hr != S_OK {
            push_release(&mut calls, self.dxva.manager);
            push_release(&mut calls, self.dxva.device);
            push_release(&mut calls, self.dxva.context);
            assert(calls@ =~= release(old(self).dxva.manager) + release(old(self).dxva.device)
                + release(old(self).dxva.context));
            self.dxva = Dxva::none();
        }
        self.step = MfOpenStep::EnumTransforms;
        calls
    }

    /// Takes the activation objects of the transforms that decode the codec.
    /// Where none is listed, the system's own transform is created.
    pub fn on_listed(&mut self, hr: i32, objects: Vec<usize>) -> (calls: Vec<MfCall>)
        requires
            old(self).wf(),
            old(self).step is EnumTransforms,
            objects@.len() <= u32::MAX,
        ensures
            final(self).wf(),
            0 <= final(self).calls_left() < old(self).calls_left(),
            forall|o: usize|
                o != 0 ==> #[trigger] released(calls@, o) + final(self).holds(o)
                    == old(self).holds(o) + owns_all(objects@, o),
            hr == S_OK && objects@.len() > 0 ==> {
                &&& calls@ == Seq::<MfCall>::empty()
                &&& *final(self) == (MfOpening {
                    step: MfOpenStep::Activate(objects@[0]),
                    listed: objects,
                    ..*old(self)
                })
            },
            !(hr == S_OK && objects@.len() > 0) ==> {
                &&& calls@ == release_all(objects@)
                &&& *final(self) == (MfOpening {
                    step: MfOpenStep::CreateTransform,
                    ..*old(self)
                })
            },
    {
        let mut calls: Vec<MfCall> = Vec::new();
        if hr == S_OK && objects.len() > 0 {
            self.step = MfOpenStep::Activate(objects[0]);
            self.listed = objects;
        } else {
            push_release_all(&mut calls, &objects);
            assert(calls@ =~= release_all(objects@));
            self.step = MfOpenStep::CreateTransform;
        }
        calls
    }

    /// Takes the transform of an activation object, and with it the list is
    /// given up.  Where the object gives none, the next one is tried, and
    /// after the last the system's own transform is created.
    pub fn on_activated(&mut self, hr: i32, transform: usize) -> (calls: Vec<MfCall>)
        requires
            old(self).wf(),
            old(self).step is Activate,
        ensures
            final(self).wf(),
            0 <= final(self).calls_left() < old(self).calls_left(),
            forall|o: usize|
                o != 0 ==> #[trigger] released(calls@, o) + final(self).holds(o)
                    == old(self).holds(o) + owns(given(hr, transform), o),
            hr == S_OK && transform != 0 ==> {
                &&& calls@ == release_all(old(self).listed@)
                &&& final(self).listed@ == Seq::<usize>::empty()
                &&& *final(self) == (MfOpening {
                    step: old(self).first_question(),
                    listed: final(self).listed,
                    transform,
                    ..*old(self)
                })
            },
            !(hr == S_OK && transform != 0) ==> {
                &&& calls@ == release(old(self).listed@[0])
                &&& final(self).listed@ == old(self).listed@.skip(1)
                &&& *final(self) == (MfOpening {
                    step: if old(self).listed@.len() > 1 {
                        MfOpenStep::Activate(old(self).listed@[1])
                    } else {
                        MfOpenStep::CreateTransform
                    },
                    listed: final(self).listed,
                    ..*old(self)
                })
            },
    {
        let mut calls: Vec<MfCall> = Vec::new();
        if hr != S_OK || transform == 0 {
            proof {
                assert(old(self).listed@.remove(0) =~= old(self).listed@.skip(1));
                assert forall|o: usize| #[trigger] owns_all(old(self).listed@, o) == owns(
                    old(self).listed@[0],
                    o,
                ) + owns_all(old(self).listed@.skip(1), o) by {
                    lemma_owns_first(old(self).listed@, o);
                }
            }
            let object: usize = self.listed.remove(0);
            push_release(&mut calls, object);
            assert(calls@ =~= release(object));
            self.step = if self.listed.len() > 0 {
                MfOpenStep::Activate(self.listed[0])
            } else {
                MfOpenStep::CreateTransform
            };
        } else {
            push_release_all(&mut calls, &self.listed);
            assert(calls@ =~= release_all(old(self).listed@));
            self.listed = Vec::new();
            self.take_transform(transform);
        }
        calls
    }

    /// The first question to a transform: it gets the device manager, where
    /// there is one, before types are negotiated.
    pub open spec fn first_question(self) -> MfOpenStep {
        if self.dxva.manager != 0 {
            MfOpenStep::SetManager
        } else {
            MfOpenStep::FindInput(0)
        }
    }

    fn take_transform(&mut self, transform: usize)
        ensures
            *final(self) == (MfOpening {
                step: old(self).first_question(),
                transform,
                ..*old(self)
            }),
    {
        self.transform = transform;
        self.step = if self.dxva.manager != 0 {
            MfOpenStep::SetManager
        } else {
            MfOpenStep::FindInput(0)
        };
    }

    /// Takes the system's own transform; without one the opening is given up.
    pub fn on_transform(&mut self, hr: i32, transform: usize) -> (calls: Vec<MfCall>)
        requires
            old(self).wf(),
            old(self).step is CreateTransform,
        ensures
            final(self).wf(),
            0 <= final(self).calls_left() < old(self).calls_left(),
            forall|o: usize|
                o != 0 ==> #[trigger] released(calls@, o) + final(self).holds(o)
                    == old(self).holds(o) + owns(given(hr, transform), o),
            hr == S_OK && transform != 0 ==> {
                &&& calls@ == Seq::<MfCall>::empty()
                &&& *final(self) == (MfOpening {
                    step: old(self).first_question(),
                    transform,
                    ..*old(self)
                })
            },
            !(hr == S_OK && transform != 0) ==> {
                &&& calls@ == old(self).give_up_calls()
                &&& *final(self) == old(self).given_up()
            },
    {
        let mut calls: Vec<MfCall> = Vec::new();
        if hr != S_OK || transform == 0 {
            self.give_up(&mut calls);
            assert(calls@ =~= old(self).give_up_calls());
        } else {
            self.take_transform(transform);
        }
        calls
    }

    /// Takes the result of handing the manager to the transform.  Where the
    /// transform refuses it, the Direct3D objects are given up.
    pub fn on_set_manager(&mut self, hr: i32) -> (calls: Vec<MfCall>)
        requires
            old(self).wf(),
            old(self).step is SetManager,
        ensures
            final(self).wf(),
            0 <= final(self).calls_left() < old(self).calls_left(),
            forall|o: usize|
                o != 0 ==> #[trigger] released(calls@, o) + final(self).holds(o)
                    == old(self).holds(o),
            hr == S_OK ==> calls@ == Seq::<MfCall>::empty(),
            hr != S_OK ==> calls@ == old(self).dxva.releases(),
            *final(self) == (MfOpening {
                step: MfOpenStep::FindInput(0),
                dxva_enabled: hr == S_OK,
                dxva: if hr == S_OK {
                    old(self).dxva
                } else {
                    Dxva::spec_none()
                },
                ..*old(self)
            }),
    {
        let mut calls: Vec<MfCall> = Vec::new();
        if hr == S_OK {
            self.dxva_enabled = true;
        } else {
            self.dxva.cleanup_dxva(&mut calls);
            assert(calls@ =~= old(self).dxva.releases());
            self.dxva = Dxva::none();
        }
        self.step = MfOpenStep::FindInput(0);
        calls
    }

    /// Takes an input type that the transform offers, with its subtype where
    /// it says one.
    pub fn on_input_type(&mut self, hr: i32, object: usize, subtype: Option<[u8; 16]>) -> (calls:
        Vec<MfCall>)
        requires
            old(self).wf(),
            old(self).step is FindInput,
        ensures
            final(self).wf(),
            0 <= final(self).calls_left() < old(self).calls_left(),
            forall|o: usize|
                o != 0 ==> #[trigger] released(calls@, o) + final(self).holds(o)
                    == old(self).holds(o) + owns(given(hr, object), o),
            ({
                let idx = old(self).step->FindInput_0;
                match candidate(
                    hr,
                    object,
                    subtype_view(subtype),
                    input_subtype_of(old(self).codec),
                ) {
                    Candidate::Found => {
                        &&& calls@ == Seq::<MfCall>::empty()
                        &&& *final(self) == (MfOpening {
                            step: MfOpenStep::SetInput(object),
                            ..*old(self)
                        })
                    },
                    Candidate::End => {
                        &&& calls@ == old(self).give_up_calls()
                        &&& *final(self) == old(self).given_up()
                    },
                    Candidate::Other => if idx + 1 < MAX_TYPES {
                        &&& calls@ == release(object)
                        &&& *final(self) == (MfOpening {
                            step: MfOpenStep::FindInput((idx + 1) as u32),
                            ..*old(self)
                        })
                    } else {
                        &&& calls@ == release(object) + old(self).give_up_calls()
                        &&& *final(self) == old(self).given_up()
                    },
                }
            }),
    {
        let mut calls: Vec<MfCall> = Vec::new();
        let idx: u32 = match self.step {
            MfOpenStep::FindInput(idx) => idx,
            _ => 0,
        };
        match judge(hr, object, &subtype, &input_subtype(self.codec)) {
            Candidate::Found => {
                self.step = MfOpenStep::SetInput(object);
                return calls;
            },
            Candidate::End => {
                self.give_up(&mut calls);
                assert(calls@ =~= old(self).give_up_calls());
            },
            Candidate::Other => {
                push_release(&mut calls, object);
                assert(calls@ =~= release(object));
                if idx + 1 < MAX_TYPES {
                    self.step = MfOpenStep::FindInput(idx + 1);
                } else {
                    self.give_up(&mut calls);
                }
            },
        }
        calls
    }

    /// Takes the result of setting the input type.
    pub fn on_set_input(&mut self, hr: i32) -> (calls: Vec<MfCall>)
        requires
            old(self).wf(),
            old(self).step is SetInput,
        ensures
            final(self).wf(),
            0 <= final(self).calls_left() < old(self).calls_left(),
            forall|o: usize|
                o != 0 ==> #[trigger] released(calls@, o) + final(self).holds(o)
                    == old(self).holds(o),
            hr == S_OK ==> {
                &&& calls@ == release(old(self).step->SetInput_0)
                &&& *final(self) == (MfOpening { step: MfOpenStep::FindOutput(0), ..*old(self) })
            },
            hr != S_OK ==> {
                &&& calls@ == release(old(self).step->SetInput_0) + old(self).give_up_calls()
                &&& *final(self) == old(self).given_up()
            },
    {
        let mut calls: Vec<MfCall> = Vec::new();
        match self.step {
            MfOpenStep::SetInput(object) => {
                push_release(&mut calls, object);
                assert(calls@ =~= release(object));
            },
            _ => {},
        }
        if hr != S_OK {
            self.give_up(&mut calls);
        } else {
            self.step = MfOpenStep::FindOutput(0);
        }
        calls
    }

    /// Takes an output type that the transform offers, with its subtype where
    /// it says one.
    pub fn on_output_type(&mut self, hr: i32, object: usize, subtype: Option<[u8; 16]>) -> (calls:
        Vec<MfCall>)
        requires
            old(self).wf(),
            old(self).step is FindOutput,
        ensures
            final(self).wf(),
            0 <= final(self).calls_left() < old(self).calls_left(),
            forall|o: usize|
                o != 0 ==> #[trigger] released(calls@, o) + final(self).holds(o)
                    == old(self).holds(o) + owns(given(hr, object), o),
            ({
                let idx = old(self).step->FindOutput_0;
                match candidate(hr, object, subtype_view(subtype), nv12_subtype_bytes()) {
                    Candidate::Found => {
                        &&& calls@ == Seq::<MfCall>::empty()
                        &&& *final(self) == (MfOpening {
                            step: MfOpenStep::SetOutput(object),
                            ..*old(self)
                        })
                    },
                    Candidate::End => {
                        &&& calls@ == old(self).give_up_calls()
                        &&& *final(self) == old(self).given_up()
                    },
                    Candidate::Other => if idx + 1 < MAX_TYPES {
                        &&& calls@ == release(object)
                        &&& *final(self) == (MfOpening {
                            step: MfOpenStep::FindOutput((idx + 1) as u32),
                            ..*old(self)
                        })
                    } else {
                        &&& calls@ == release(object) + old(self).give_up_calls()
                        &&& *final(self) == old(self).given_up()
                    },
                }
            }),
    {
        let mut calls: Vec<MfCall> = Vec::new();
        let idx: u32 = match self.step {
            MfOpenStep::FindOutput(idx) => idx,
            _ => 0,
        };
        match judge(hr, object, &subtype, &nv12_subtype()) {
            Candidate::Found => {
                self.step = MfOpenStep::SetOutput(object);
                return calls;
            },
            Candidate::End => {
                self.give_up(&mut calls);
                assert(calls@ =~= old(self).give_up_calls());
            },
            Candidate::Other => {
                push_release(&mut calls, object);
                assert(calls@ =~= release(object));
                if idx + 1 < MAX_TYPES {
                    self.step = MfOpenStep::FindOutput(idx + 1);
                } else {
                    self.give_up(&mut calls);
                }
            },
        }
        calls
    }

    /// Takes the result of setting the output type, and the frame size of
    /// the type where it says one.
    pub fn on_set_output(&mut self, hr: i32, frame_size: Option<u64>) -> (calls: Vec<MfCall>)
        requires
            old(self).wf(),
            old(self).step is SetOutput,
        ensures
            final(self).wf(),
            0 <= final(self).calls_left() < old(self).calls_left(),
            forall|o: usize|
                o != 0 ==> #[trigger] released(calls@, o) + final(self).holds(o)
                    == old(self).holds(o),
            final(self).width == match frame_size {
                Some(size) => size_width(size),
                None => 0,
            },
            final(self).height == match frame_size {
                Some(size) => size_height(size),
                None => 0,
            },
            calls@ == if hr == S_OK {
                release(old(self).step->SetOutput_0)
            } else {
                release(old(self).step->SetOutput_0) + old(self).give_up_calls()
            },
            *final(self) == (MfOpening {
                width: final(self).width,
                height: final(self).height,
                ..if hr == S_OK {
                    MfOpening { step: MfOpenStep::StreamInfo, ..*old(self) }
                } else {
                    old(self).given_up()
                }
            }),
    {
        let mut calls: Vec<MfCall> = Vec::new();
        match frame_size {
            Some(size) => {
                let (width, height) = unpack_size(size);
                self.width = width;
                self.height = height;
            },
            None => {},
        }
        match self.step {
            MfOpenStep::SetOutput(object) => {
                push_release(&mut calls, object);
                assert(calls@ =~= release(object));
            },
            _ => {},
        }
        if hr != S_OK {
            self.give_up(&mut calls);
        } else {
            self.step = MfOpenStep::StreamInfo;
        }
        calls
    }

    /// Takes what the transform says of its output stream, which makes the
    /// decoder ready; the transform is told that the stream begins.
    pub fn on_stream_info(&mut self, hr: i32, flags: u32, buffer_size: u32) -> (calls: Vec<MfCall>)
        requires
            old(self).wf(),
            old(self).step is StreamInfo,
        ensures
            final(self).wf(),
            0 <= final(self).calls_left() < old(self).calls_left(),
            forall|o: usize|
                o != 0 ==> #[trigger] released(calls@, o) + final(self).holds(o)
                    == old(self).holds(o),
            calls@ == seq![
                MfCall::Message(MFT_MESSAGE_NOTIFY_BEGIN_STREAMING),
                MfCall::Message(MFT_MESSAGE_NOTIFY_START_OF_STREAM),
            ],
            *final(self) == (MfOpening {
                step: MfOpenStep::Ready,
                provides_samples: hr == S_OK && (flags / MFT_OUTPUT_STREAM_PROVIDES_SAMPLES) % 2
                    == 1,
                output_buf_size: if hr == S_OK {
                    buffer_size
                } else {
                    0
                },
                ..*old(self)
            }),
    {
        let mut calls: Vec<MfCall> = Vec::new();
        assert((flags & 0x100 != 0) == ((flags / 0x100) % 2 == 1)) by (bit_vector);
        if hr == S_OK {
            self.provides_samples = (flags & MFT_OUTPUT_STREAM_PROVIDES_SAMPLES) != 0;
            self.output_buf_size = buffer_size;
        } else {
            self.provides_samples = false;
            self.output_buf_size = 0;
        }
        push_other(&mut calls, MfCall::Message(MFT_MESSAGE_NOTIFY_BEGIN_STREAMING));
        push_other(&mut calls, MfCall::Message(MFT_MESSAGE_NOTIFY_START_OF_STREAM));
        assert(calls@ =~= seq![
            MfCall::Message(MFT_MESSAGE_NOTIFY_BEGIN_STREAMING),
            MfCall::Message(MFT_MESSAGE_NOTIFY_START_OF_STREAM),
        ]);
        self.step = MfOpenStep::Ready;
        calls
    }
}

/// An opening that is given up leaves nothing behind, with Direct3D or
/// without: each of its objects is given up once, and the platform is shut
/// down at last.
pub proof fn lemma_given_up_opening_leaves_nothing(opening: MfOpening, object: usize)
    requires
        opening.wf(),
        object != 0,
    ensures
        released(opening.give_up_calls(), object) == opening.dxva.holds(object) + owns(
            opening.transform,
            object,
        ),
        opening.give_up_calls().last() == MfCall::Shutdown,
{
    let d = opening.dxva.releases();
    let t = release(opening.transform);
    lemma_dxva_releases_are_complete(opening.dxva, object);
    lemma_release_is_one(opening.transform, object);
    lemma_released_adds_up(d, t, object);
    lemma_released_adds_up(d + t, seq![MfCall::Shutdown], object);
    reveal_with_fuel(released, 2);
}

/// An opening that has failed holds nothing.
pub proof fn lemma_failed_opening_holds_nothing(opening: MfOpening, object: usize)
    requires
        opening.wf(),
        opening.step is Fallback || opening.step is Unsupported,
    ensures
        opening.holds(object) == 0,
{
}

/// Whether the device can be protected against use by several threads, from
/// what asking it for that interface gave.
pub fn can_protect(hr: i32, multithread: usize) -> (can: bool)
    ensures
        can == (hr == S_OK && multithread != 0),
{
    hr == S_OK && multithread != 0
}

/// A transform is handed the device manager before types are negotiated,
/// where there is one.
pub proof fn lemma_first_question(opening: MfOpening)
    ensures
        opening.dxva.manager != 0 ==> opening.first_question() == MfOpenStep::SetManager,
        opening.dxva.manager == 0 ==> opening.first_question() == MfOpenStep::FindInput(0),
{
}

/// An opening that is given up goes on without the platform: it holds none of
/// its objects any more, and the platform is shut down after the last of them.
pub proof fn lemma_giving_up(opening: MfOpening)
    ensures
        opening.given_up().step == MfOpenStep::Fallback,
        opening.given_up().transform == 0,
        !opening.given_up().dxva_enabled,
        opening.given_up().dxva.device == 0,
        opening.given_up().dxva.context == 0,
        opening.given_up().dxva.manager == 0,
        opening.given_up().codec == opening.codec,
        opening.give_up_calls().last() == MfCall::Shutdown,
        opening.transform != 0 ==> opening.give_up_calls()[opening.give_up_calls().len() - 2]
            == MfCall::Release(opening.transform),
        opening.transform != 0 && opening.dxva.is_complete() ==> {
            &&& opening.give_up_calls().len() == 5
            &&& opening.give_up_calls()[0] == MfCall::Release(opening.dxva.manager)
            &&& opening.give_up_calls()[1] == MfCall::Release(opening.dxva.context)
            &&& opening.give_up_calls()[2] == MfCall::Release(opening.dxva.device)
        },
{
}

/// Every object that an opening keeps counts: those of Direct3D, the
/// transform, what is listed, and a type that is to be set.
pub proof fn lemma_what_an_opening_holds(opening: MfOpening, object: usize)
    requires
        object != 0,
    ensures
        opening.holds(object) >= owns_all(opening.listed@, object),
        ({
            let kept = (if opening.transform == object {
                1int
            } else {
                0
            }) + (if opening.dxva.device == object {
                1int
            } else {
                0
            }) + (if opening.dxva.context == object {
                1int
            } else {
                0
            }) + (if opening.dxva.manager == object {
                1int
            } else {
                0
            });
            let listed = owns_all(opening.listed@, object);
            match opening.step {
                MfOpenStep::SetInput(media_type) => opening.holds(object) == kept + listed + (
                if media_type == object {
                    1int
                } else {
                    0
                }),
                MfOpenStep::SetOutput(media_type) => opening.holds(object) == kept + listed + (
                if media_type == object {
                    1int
                } else {
                    0
                }),
                _ => opening.holds(object) == kept + listed,
            }
        }),
{
}

} // verus!
