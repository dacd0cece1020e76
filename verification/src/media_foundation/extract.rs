//! Extracting a picture from an output sample, in video or in main memory.

use vstd::prelude::*;

use crate::media::VideoError;
use crate::media_foundation::com::{
    given, lemma_release_is_one, lemma_released_adds_up, owns, push_release, release, released,
    MfCall, S_OK,
};
use crate::media_foundation::decoder::MediaFoundationDecoder;
use crate::media_foundation::geometry::{inferred_stride, Aperture, Window};
use crate::text::{error_with_code, hex32};

verus! {

/// A failed call, and what is to be done on its account.
pub struct MfFailure {
    pub error: VideoError,
    pub calls: Vec<MfCall>,
}

/// A staging texture that is to be created.
#[derive(Debug, Clone, Copy, PartialEq, Eq, Structural)]
pub struct StagingRequest {
    pub width: u32,
    pub height: u32,
}

/// What comes next for a picture in video memory.
#[derive(Debug, Clone, Copy, PartialEq, Eq, Structural)]
pub enum DxvaStep {
    /// The sample is to be asked for its buffer.
    GetBuffer,
    /// The buffer is to be asked for its interface to a texture.
    QueryInterface(usize),
    /// The interface is to be asked for the texture.
    GetTexture(usize),
    /// The current output type is to be asked about the picture in this
    /// texture.
    Resolve(usize),
    /// A staging texture is to be created for this texture.
    CreateStaging(usize, StagingRequest),
    /// The texture is to be copied to the staging texture.
    CopyTexture(usize),
    /// The staging texture, of so many coded rows, is to be mapped.
    MapStaging(u32),
    /// The mapped picture of so many coded rows, with this pitch, is to be
    /// converted, then unmapped.
    Convert(u32, u32),
}

impl DxvaStep {
    /// How many references to `object` the step holds.
    pub open spec fn holds(self, object: usize) -> int {
        match self {
            DxvaStep::QueryInterface(buffer) => owns(buffer, object),
            DxvaStep::GetTexture(interface) => owns(interface, object),
            DxvaStep::Resolve(texture) => owns(texture, object),
            DxvaStep::CreateStaging(texture, _) => owns(texture, object),
            DxvaStep::CopyTexture(texture) => owns(texture, object),
            _ => 0,
        }
    }
}

/// The step that follows or the error, and the calls to be made before.
pub struct DxvaNext {
    pub step: Result<DxvaStep, VideoError>,
    pub calls: Vec<MfCall>,
}

impl DxvaNext {
    /// How many references to `object` are held after the calls.
    pub open spec fn holds(self, object: usize) -> int {
        match self.step {
            Ok(step) => step.holds(object),
            Err(_) => 0,
        }
    }

    /// The picture has failed with this description.
    pub open spec fn failed(self, text: Seq<char>) -> bool {
        self.step matches Err(error) && error.text() == text
    }
}

/// What comes next for a picture in main memory.
#[derive(Debug, Clone, Copy, PartialEq, Eq, Structural)]
pub enum SoftwareStep {
    /// The sample is to be asked for a contiguous buffer.
    GetContiguous,
    /// The buffer is to be locked.
    Lock(usize),
    /// The current output type is to be asked about the picture in this
    /// locked buffer of so many bytes.
    Resolve(usize, u32),
    /// The picture in this locked buffer is to be converted.
    Convert(usize),
}

/// Takes the buffer of a sample in video memory.
pub fn on_dxva_buffer(hr: i32, buffer: usize) -> (next: DxvaNext)
    ensures
        next.calls@ == Seq::<MfCall>::empty(),
        hr == S_OK && buffer != 0 ==> next.step == Ok::<DxvaStep, VideoError>(
            DxvaStep::QueryInterface(buffer),
        ),
        !(hr == S_OK && buffer != 0) ==> next.failed(
            "MF DXVA: GetBufferByIndex failed: "@ + hex32(hr),
        ),
        forall|o: usize| o != 0 ==> #[trigger] next.holds(o) == owns(given(hr, buffer), o),
{
    DxvaNext {
        step: if hr != S_OK || buffer == 0 {
            Err(error_with_code("MF DXVA: GetBufferByIndex failed: ", hr))
        } else {
            Ok(DxvaStep::QueryInterface(buffer))
        },
        calls: Vec::new(),
    }
}

/// Takes the interface of `buffer` to its texture; the buffer is given up in
/// any case.
pub fn on_dxva_interface(buffer: usize, hr: i32, interface: usize) -> (next: DxvaNext)
    ensures
        next.calls@ == release(buffer),
        hr == S_OK && interface != 0 ==> next.step == Ok::<DxvaStep, VideoError>(
            DxvaStep::GetTexture(interface),
        ),
        !(hr == S_OK && interface != 0) ==> next.failed(
            "MF DXVA: QI IMFDXGIBuffer failed: "@ + hex32(hr),
        ),
        forall|o: usize|
            o != 0 ==> #[trigger] released(next.calls@, o) + next.holds(o) == owns(buffer, o) + owns(
                given(hr, interface),
                o,
            ),
{
    let mut calls: Vec<MfCall> = Vec::new();
    push_release(&mut calls, buffer);
    assert(calls@ =~= release(buffer));
    DxvaNext {
        step: if hr != S_OK || interface == 0 {
            Err(error_with_code("MF DXVA: QI IMFDXGIBuffer failed: ", hr))
        } else {
            Ok(DxvaStep::GetTexture(interface))
        },
        calls,
    }
}

impl<S> MediaFoundationDecoder<S> {
    /// Whether the picture of a sample is extracted from video memory; else
    /// it is in main memory.
    pub fn extracts_from_video_memory(&self) -> (video: bool)
        ensures
            video == self.dxva_enabled,
    {
        self.dxva_enabled
    }

    /// The width of a texture: the stride where it is known, else the width
    /// of the picture.
    pub open spec fn texture_width(self) -> u32 {
        if self.stride > 0 {
            self.stride
        } else {
            self.width
        }
    }

    /// The height of a texture: the coded height where it is known, else the
    /// height of the picture.
    pub open spec fn texture_height(self) -> u32 {
        if self.coded_height > 0 {
            self.coded_height
        } else {
            self.height
        }
    }

    /// There is no staging texture of the size of a texture.
    pub open spec fn needs_staging(self) -> bool {
        self.staging_texture == 0 || self.staging_width != self.texture_width()
            || self.staging_height != self.texture_height()
    }

    /// The step that brings a texture of known size to the staging texture:
    /// one of that size is created where there is none.
    pub open spec fn staging_step(self, texture: usize) -> DxvaStep {
        if self.needs_staging() {
            DxvaStep::CreateStaging(
                texture,
                StagingRequest { width: self.texture_width(), height: self.texture_height() },
            )
        } else {
            DxvaStep::CopyTexture(texture)
        }
    }

    /// The call that gives up a staging texture of another size.
    pub open spec fn staging_releases(self) -> Seq<MfCall> {
        if self.needs_staging() {
            release(self.staging_texture)
        } else {
            Seq::empty()
        }
    }

    /// The decoder after a staging texture of another size was given up.
    pub open spec fn staged(self) -> Self {
        if self.needs_staging() {
            MediaFoundationDecoder { staging_texture: 0, ..self }
        } else {
            self
        }
    }

    /// What a texture leads to once its size has been resolved as far as it
    /// can be; one of unknown size is given up.
    fn stage(&mut self, texture: usize, calls: &mut Vec<MfCall>) -> (r: Result<
        DxvaStep,
        VideoError,
    >)
        ensures
            !old(self).size_unknown() ==> {
                &&& r == Ok::<DxvaStep, VideoError>(old(self).staging_step(texture))
                &&& final(calls)@ == old(calls)@ + old(self).staging_releases()
                &&& *final(self) == old(self).staged()
            },
            old(self).size_unknown() ==> {
                &&& r is Err
                &&& r->Err_0.text() == "MF DXVA: cannot determine output dimensions"@
                &&& final(calls)@ == old(calls)@ + release(texture)
                &&& *final(self) == *old(self)
            },
            old(self).wf() ==> final(self).wf(),
            forall|o: usize|
                o != 0 ==> #[trigger] released(final(calls)@, o) + final(self).holds(o) + (match r {
                    Ok(step) => step.holds(o),
                    Err(_) => 0,
                }) == released(old(calls)@, o) + old(self).holds(o) + owns(texture, o),
    {
        if self.width == 0 || self.height == 0 {
            push_release(calls, texture);
            return Err(VideoError::codec("MF DXVA: cannot determine output dimensions"));
        }
        let width: u32 = if self.stride > 0 {
            self.stride
        } else {
            self.width
        };
        let height: u32 = if self.coded_height > 0 {
            self.coded_height
        } else {
            self.height
        };
        if self.staging_texture == 0 || self.staging_width != width || self.staging_height
            != height {
            push_release(calls, self.staging_texture);
            self.staging_texture = 0;
            Ok(DxvaStep::CreateStaging(texture, StagingRequest { width, height }))
        } else {
            assert(calls@ =~= old(calls)@ + old(self).staging_releases());
            Ok(DxvaStep::CopyTexture(texture))
        }
    }

    /// Takes the texture of a picture from its interface, which is given up
    /// in any case.  The output type is asked about the texture where its
    /// size or its stride is not known.
    pub fn on_dxva_texture(&mut self, interface: usize, texture: usize) -> (next: DxvaNext)
        ensures
            old(self).wf() ==> final(self).wf(),
            texture == 0 ==> {
                &&& next.failed("MF DXVA: GetResource returned null"@)
                &&& next.calls@ == release(interface)
                &&& *final(self) == *old(self)
            },
            texture != 0 && (old(self).size_unknown() || old(self).stride == 0) ==> {
                &&& next.step == Ok::<DxvaStep, VideoError>(DxvaStep::Resolve(texture))
                &&& next.calls@ == release(interface)
                &&& *final(self) == *old(self)
            },
            texture != 0 && !(old(self).size_unknown() || old(self).stride == 0) ==> {
                &&& next.step == Ok::<DxvaStep, VideoError>(old(self).staging_step(texture))
                &&& next.calls@ == release(interface) + old(self).staging_releases()
                &&& *final(self) == old(self).staged()
            },
            forall|o: usize|
                o != 0 ==> #[trigger] released(next.calls@, o) + next.holds(o) + final(self).holds(o)
                    == old(self).holds(o) + owns(interface, o) + owns(texture, o),
    {
        let mut calls: Vec<MfCall> = Vec::new();
        push_release(&mut calls, interface);
        assert(calls@ =~= release(interface));
        let step = if texture == 0 {
            Err(VideoError::codec("MF DXVA: GetResource returned null"))
        } else if self.width == 0 || self.height == 0 || self.stride == 0 {
            Ok(DxvaStep::Resolve(texture))
        } else {
            self.stage(texture, &mut calls)
        };
        DxvaNext { step, calls }
    }

    /// Takes what the output type says of the picture in a texture.
    pub fn on_dxva_resolved(
        &mut self,
        texture: usize,
        frame_size: Option<u64>,
        aperture: Option<Aperture>,
    ) -> (next: DxvaNext)
        ensures
            old(self).wf() ==> final(self).wf(),
            exists|resolved: Self|
                #![trigger resolved.resolves(*old(self), frame_size, aperture)]
                resolved.resolves(*old(self), frame_size, aperture) && if resolved.size_unknown() {
                    &&& next.failed("MF DXVA: cannot determine output dimensions"@)
                    &&& next.calls@ == release(texture)
                    &&& *final(self) == resolved
                } else {
                    &&& next.step == Ok::<DxvaStep, VideoError>(resolved.staging_step(texture))
                    &&& next.calls@ == resolved.staging_releases()
                    &&& *final(self) == resolved.staged()
                },
            forall|o: usize|
                o != 0 ==> #[trigger] released(next.calls@, o) + next.holds(o) + final(self).holds(o)
                    == old(self).holds(o) + owns(texture, o),
            (frame_size matches Some(size) && aperture is Some && 0 < aperture->0.width <= size
                / 0x1_0000_0000 && 0 < aperture->0.height <= size % 0x1_0000_0000) ==> {
                &&& final(self).width == aperture->0.width
                &&& final(self).height == aperture->0.height
                &&& final(self).crop_x == aperture->0.x
                &&& final(self).crop_y == aperture->0.y
            },
    {
        self.resolve_output_dimensions(frame_size, aperture);
        let ghost resolved = *self;
        let mut calls: Vec<MfCall> = Vec::new();
        let step = self.stage(texture, &mut calls);
        assert(resolved.resolves(*old(self), frame_size, aperture));
        assert(calls@ =~= if resolved.size_unknown() {
            release(texture)
        } else {
            resolved.staging_releases()
        });
        DxvaNext { step, calls }
    }

    /// Takes the staging texture that was created; where that failed, the
    /// texture of the picture is given up.
    pub fn on_staging(
        &mut self,
        texture: usize,
        request: StagingRequest,
        hr: i32,
        staging: usize,
    ) -> (next: DxvaNext)
        requires
            old(self).wf(),
            old(self).initialized,
            old(self).staging_texture == 0,
        ensures
            final(self).wf(),
            hr == S_OK && staging != 0 ==> {
                &&& next.step == Ok::<DxvaStep, VideoError>(DxvaStep::CopyTexture(texture))
                &&& next.calls@ == Seq::<MfCall>::empty()
                &&& *final(self) == (MediaFoundationDecoder {
                    staging_texture: staging,
                    staging_width: request.width,
                    staging_height: request.height,
                    ..*old(self)
                })
            },
            !(hr == S_OK && staging != 0) ==> {
                &&& next.failed("MF DXVA: CreateTexture2D staging failed: "@ + hex32(hr))
                &&& next.calls@ == release(texture)
                &&& *final(self) == *old(self)
            },
            forall|o: usize|
                o != 0 ==> #[trigger] released(next.calls@, o) + next.holds(o) + final(self).holds(o)
                    == old(self).holds(o) + owns(texture, o) + owns(given(hr, staging), o),
    {
        let mut calls: Vec<MfCall> = Vec::new();
        if hr != S_OK || staging == 0 {
            push_release(&mut calls, texture);
            assert(calls@ =~= release(texture));
            return DxvaNext {
                step: Err(error_with_code("MF DXVA: CreateTexture2D staging failed: ", hr)),
                calls,
            };
        }
        self.staging_texture = staging;
        self.staging_width = request.width;
        self.staging_height = request.height;
        DxvaNext { step: Ok(DxvaStep::CopyTexture(texture)), calls }
    }

    /// The texture has been copied to the staging texture, and is given up.
    pub fn on_copied(&self, texture: usize) -> (next: DxvaNext)
        ensures
            next.step == Ok::<DxvaStep, VideoError>(DxvaStep::MapStaging(self.texture_height())),
            next.calls@ == release(texture),
            forall|o: usize|
                o != 0 ==> #[trigger] released(next.calls@, o) + next.holds(o) == owns(texture, o),
    {
        let mut calls: Vec<MfCall> = Vec::new();
        push_release(&mut calls, texture);
        assert(calls@ =~= release(texture));
        DxvaNext {
            step: Ok(
                DxvaStep::MapStaging(
                    if self.coded_height > 0 {
                        self.coded_height
                    } else {
                        self.height
                    },
                ),
            ),
            calls,
        }
    }

    /// Takes the result of mapping the staging texture, whose pitch is the
    /// stride where that was not known.
    pub fn on_mapped(&mut self, rows: u32, hr: i32, address: usize, row_pitch: u32) -> (next:
        DxvaNext)
        ensures
            next.calls@ == Seq::<MfCall>::empty(),
            hr == S_OK && address != 0 ==> {
                &&& next.step == Ok::<DxvaStep, VideoError>(DxvaStep::Convert(rows, row_pitch))
                &&& *final(self) == (MediaFoundationDecoder {
                    stride: if old(self).stride == 0 {
                        row_pitch
                    } else {
                        old(self).stride
                    },
                    ..*old(self)
                })
            },
            !(hr == S_OK && address != 0) ==> {
                &&& next.failed("MF DXVA: Map staging failed: "@ + hex32(hr))
                &&& *final(self) == *old(self)
            },
    {
        if hr != S_OK || address == 0 {
            return DxvaNext {
                step: Err(error_with_code("MF DXVA: Map staging failed: ", hr)),
                calls: Vec::new(),
            };
        }
        if self.stride == 0 {
            self.stride = row_pitch;
        }
        DxvaNext { step: Ok(DxvaStep::Convert(rows, row_pitch)), calls: Vec::new() }
    }

    /// The call that gives up a contiguous buffer, unless it is the cached
    /// one, which the decoder keeps.
    pub open spec fn contiguous_release(self, buffer: usize) -> Seq<MfCall> {
        if buffer != self.cached_buffer {
            release(buffer)
        } else {
            Seq::empty()
        }
    }

    /// What is done with a locked contiguous buffer in the end: it is unlocked,
    /// and given up unless it is the cached one.
    pub open spec fn unlock_calls(self, buffer: usize) -> Seq<MfCall> {
        seq![MfCall::Unlock(buffer)] + self.contiguous_release(buffer)
    }

    fn push_contiguous_release(&self, calls: &mut Vec<MfCall>, buffer: usize)
        ensures
            final(calls)@ == old(calls)@ + self.contiguous_release(buffer),
    {
        if buffer != self.cached_buffer {
            push_release(calls, buffer);
        }
        assert(calls@ =~= old(calls)@ + self.contiguous_release(buffer));
    }

    /// Takes the contiguous buffer of a sample in main memory.
    pub fn on_contiguous(hr: i32, buffer: usize) -> (r: Result<SoftwareStep, VideoError>)
        ensures
            hr == S_OK && buffer != 0 ==> r == Ok::<SoftwareStep, VideoError>(
                SoftwareStep::Lock(buffer),
            ),
            !(hr == S_OK && buffer != 0) ==> r is Err && r->Err_0.text()
                == "MF: ConvertToContiguousBuffer failed: "@ + hex32(hr),
    {
        if hr != S_OK || buffer == 0 {
            return Err(error_with_code("MF: ConvertToContiguousBuffer failed: ", hr));
        }
        Ok(SoftwareStep::Lock(buffer))
    }

    /// The stride that a locked buffer of so many bytes gets.
    pub open spec fn stride_for(self, nv12_len: u32) -> int {
        if self.stride == 0 {
            inferred_stride(self.width as int, self.height as int, nv12_len as int)
        } else {
            self.stride as int
        }
    }

    /// The layout is the one that a picture of known size has in a contiguous
    /// buffer of `nv12_len` bytes.
    pub open spec fn lays_out(self, before: Self, nv12_len: u32) -> bool {
        &&& self.stride == before.stride_for(nv12_len)
        &&& self == (MediaFoundationDecoder {
            stride: self.stride,
            coded_height: if before.stride == 0 {
                before.height
            } else {
                before.coded_height
            },
            ..before
        })
    }

    /// What a locked buffer leads to once the size of its picture has been
    /// resolved as far as it can be.
    fn lay_out(&mut self, buffer: usize, nv12_len: u32) -> (r: Result<SoftwareStep, MfFailure>)
        ensures
            old(self).size_unknown() ==> {
                &&& r is Err
                &&& r->Err_0.error.text() == "MF: cannot determine output dimensions"@
                &&& r->Err_0.calls@ == old(self).unlock_calls(buffer)
                &&& *final(self) == *old(self)
            },
            !old(self).size_unknown() ==> {
                &&& final(self).lays_out(*old(self), nv12_len)
                &&& final(self).stride != 0 ==> r == Ok::<SoftwareStep, MfFailure>(
                    SoftwareStep::Convert(buffer),
                )
                &&& final(self).stride == 0 ==> {
                    &&& r is Err
                    &&& r->Err_0.error.text() == "MF: cannot determine stride"@
                    &&& r->Err_0.calls@ == old(self).unlock_calls(buffer)
                }
            },
    {
        if self.width == 0 || self.height == 0 {
            return Err(
                MfFailure {
                    error: VideoError::codec("MF: cannot determine output dimensions"),
                    calls: self.finish_contiguous(buffer),
                },
            );
        }
        self.infer_stride(nv12_len);
        if self.stride == 0 {
            return Err(
                MfFailure {
                    error: VideoError::codec("MF: cannot determine stride"),
                    calls: self.finish_contiguous(buffer),
                },
            );
        }
        Ok(SoftwareStep::Convert(buffer))
    }

    /// Takes the result of locking a contiguous buffer, which holds so many
    /// bytes.  The output type is asked about the picture where its size is
    /// not known.
    pub fn on_output_locked(&mut self, buffer: usize, hr: i32, nv12_len: u32) -> (r: Result<
        SoftwareStep,
        MfFailure,
    >)
        ensures
            hr != S_OK ==> {
                &&& r is Err
                &&& r->Err_0.error.text() == "MF: Lock output buffer failed: "@ + hex32(hr)
                &&& r->Err_0.calls@ == old(self).contiguous_release(buffer)
                &&& *final(self) == *old(self)
            },
            hr == S_OK && old(self).size_unknown() ==> {
                &&& r == Ok::<SoftwareStep, MfFailure>(SoftwareStep::Resolve(buffer, nv12_len))
                &&& *final(self) == *old(self)
            },
            hr == S_OK && !old(self).size_unknown() ==> {
                &&& final(self).lays_out(*old(self), nv12_len)
                &&& final(self).stride != 0 ==> r == Ok::<SoftwareStep, MfFailure>(
                    SoftwareStep::Convert(buffer),
                )
                &&& final(self).stride == 0 ==> {
                    &&& r is Err
                    &&& r->Err_0.error.text() == "MF: cannot determine stride"@
                    &&& r->Err_0.calls@ == old(self).unlock_calls(buffer)
                }
            },
    {
        if hr != S_OK {
            let mut calls: Vec<MfCall> = Vec::new();
            self.push_contiguous_release(&mut calls, buffer);
            assert(calls@ =~= self.contiguous_release(buffer));
            return Err(
                MfFailure { error: error_with_code("MF: Lock output buffer failed: ", hr), calls },
            );
        }
        if self.width == 0 || self.height == 0 {
            return Ok(SoftwareStep::Resolve(buffer, nv12_len));
        }
        self.lay_out(buffer, nv12_len)
    }

    /// Takes what the output type says of the picture in a locked buffer.
    pub fn on_software_resolved(
        &mut self,
        buffer: usize,
        nv12_len: u32,
        frame_size: Option<u64>,
        aperture: Option<Aperture>,
    ) -> (r: Result<SoftwareStep, MfFailure>)
        ensures
            exists|resolved: Self|
                #![trigger resolved.resolves(*old(self), frame_size, aperture)]
                resolved.resolves(*old(self), frame_size, aperture) && if resolved.size_unknown() {
                    &&& r is Err
                    &&& r->Err_0.error.text() == "MF: cannot determine output dimensions"@
                    &&& r->Err_0.calls@ == old(self).unlock_calls(buffer)
                    &&& *final(self) == resolved
                } else {
                    &&& final(self).lays_out(resolved, nv12_len)
                    &&& final(self).stride != 0 ==> r == Ok::<SoftwareStep, MfFailure>(
                        SoftwareStep::Convert(buffer),
                    )
                    &&& final(self).stride == 0 ==> {
                        &&& r is Err
                        &&& r->Err_0.error.text() == "MF: cannot determine stride"@
                        &&& r->Err_0.calls@ == old(self).unlock_calls(buffer)
                    }
                },
            (frame_size matches Some(size) && aperture is Some && 0 < aperture->0.width <= size
                / 0x1_0000_0000 && 0 < aperture->0.height <= size % 0x1_0000_0000) ==> {
                &&& final(self).width == aperture->0.width
                &&& final(self).height == aperture->0.height
                &&& final(self).crop_x == aperture->0.x
                &&& final(self).crop_y == aperture->0.y
            },
    {
        self.resolve_output_dimensions(frame_size, aperture);
        let ghost resolved = *self;
        let r = self.lay_out(buffer, nv12_len);
        assert(resolved.resolves(*old(self), frame_size, aperture));
        r
    }

    /// The window of the picture in a locked contiguous buffer, where its
    /// offsets fit.
    pub fn contiguous_window(&self) -> (r: Option<Window>)
        ensures
            r == self.window_in(self.stride, self.coded_height),
    {
        self.window(self.stride, self.coded_height)
    }

    /// What is done with a locked contiguous buffer in the end.
    pub fn finish_contiguous(&self, buffer: usize) -> (calls: Vec<MfCall>)
        ensures
            calls@ == self.unlock_calls(buffer),
    {
        let mut calls: Vec<MfCall> = Vec::new();
        calls.push(MfCall::Unlock(buffer));
        self.push_contiguous_release(&mut calls, buffer);
        assert(calls@ =~= self.unlock_calls(buffer));
        calls
    }
}

/// A contiguous buffer is given up once, and the cached one is kept.
pub proof fn lemma_contiguous_is_given_up<S>(
    decoder: MediaFoundationDecoder<S>,
    buffer: usize,
    object: usize,
)
    requires
        object != 0,
    ensures
        released(decoder.unlock_calls(buffer), object) == released(
            decoder.contiguous_release(buffer),
            object,
        ),
        released(decoder.contiguous_release(buffer), object) == if buffer == decoder.cached_buffer {
            0
        } else {
            owns(buffer, object)
        },
{
    lemma_release_is_one(buffer, object);
    lemma_released_adds_up(
        seq![MfCall::Unlock(buffer)],
        decoder.contiguous_release(buffer),
        object,
    );
    reveal_with_fuel(released, 2);
}

/// The size of a texture: its rows are as long as the stride, or as the width
/// of the picture where no stride is known, and there are as many as coded
/// rows, or as rows of the picture where nothing else is known.
pub proof fn lemma_size_of_textures<S>(decoder: MediaFoundationDecoder<S>)
    ensures
        decoder.stride != 0 ==> decoder.texture_width() == decoder.stride,
        decoder.stride == 0 ==> decoder.texture_width() == decoder.width,
        decoder.coded_height != 0 ==> decoder.texture_height() == decoder.coded_height,
        decoder.coded_height == 0 ==> decoder.texture_height() == decoder.height,
        decoder.size_unknown() <==> decoder.width == 0 || decoder.height == 0,
{
}

/// A texture is copied to the staging texture that is there where that has
/// its size; else that one is given up, and one of its size is created.
pub proof fn lemma_staging_fits<S>(decoder: MediaFoundationDecoder<S>, texture: usize)
    ensures
        ({
            let fits = decoder.staging_texture != 0 && decoder.staging_width
                == decoder.texture_width() && decoder.staging_height == decoder.texture_height();
            &&& fits ==> {
                &&& decoder.staging_step(texture) == DxvaStep::CopyTexture(texture)
                &&& decoder.staging_releases().len() == 0
                &&& decoder.staged() == decoder
            }
            &&& !fits ==> {
                &&& decoder.staging_step(texture) matches DxvaStep::CreateStaging(from, request)
                &&& from == texture
                &&& request.width == decoder.texture_width()
                &&& request.height == decoder.texture_height()
                &&& decoder.staged().staging_texture == 0
                &&& decoder.staging_texture != 0 ==> decoder.staging_releases().len() == 1
                    && decoder.staging_releases()[0] == MfCall::Release(decoder.staging_texture)
            }
        }),
{
}

/// What is done with a locked buffer in the end: it is unlocked first, and
/// then given up, unless it is the cached one.
pub proof fn lemma_locked_buffer<S>(decoder: MediaFoundationDecoder<S>, buffer: usize)
    requires
        buffer != 0,
    ensures
        decoder.unlock_calls(buffer)[0] == MfCall::Unlock(buffer),
        buffer == decoder.cached_buffer ==> decoder.unlock_calls(buffer).len() == 1
            && decoder.contiguous_release(buffer).len() == 0,
        buffer != decoder.cached_buffer ==> {
            &&& decoder.unlock_calls(buffer).len() == 2
            &&& decoder.unlock_calls(buffer)[1] == MfCall::Release(buffer)
            &&& decoder.contiguous_release(buffer).len() == 1
            &&& decoder.contiguous_release(buffer)[0] == MfCall::Release(buffer)
        },
{
}

/// The layout of a picture in a buffer of `nv12_len` bytes: a stride that is
/// known stays, and with it the coded height; else the rows of the picture
/// are all there are, and the stride is the width where the bytes are just
/// those of the picture, or the largest with which all rows fit.
pub proof fn lemma_layout_of_a_buffer<S>(
    after: MediaFoundationDecoder<S>,
    before: MediaFoundationDecoder<S>,
    nv12_len: u32,
)
    requires
        after.lays_out(before, nv12_len),
        before.width > 0,
        before.height > 0,
    ensures
        before.stride != 0 ==> after == before,
        before.stride == 0 ==> after.coded_height == before.height,
        before.stride == 0 && nv12_len == before.width * before.height * 3 / 2 ==> after.stride
            == before.width,
        before.stride == 0 && nv12_len != before.width * before.height * 3 / 2 ==> after.stride
            * before.height * 3 <= nv12_len * 2 < (after.stride + 1) * before.height * 3,
        after.width == before.width,
        after.height == before.height,
        after.crop_x == before.crop_x,
        after.crop_y == before.crop_y,
{
    crate::media_foundation::geometry::lemma_stride_is_the_largest(
        before.width as int,
        before.height as int,
        nv12_len as int,
    );
}

/// The references that a picture in video memory holds on its way: the one
/// object that the step at hand asks, and none once the picture lies in the
/// staging texture, or has failed.
pub proof fn lemma_what_extraction_holds(
    one: usize,
    request: StagingRequest,
    rows: u32,
    pitch: u32,
    object: usize,
)
    requires
        object != 0,
    ensures
        ({
            let held = if one == object {
                1int
            } else {
                0
            };
            &&& DxvaStep::QueryInterface(one).holds(object) == held
            &&& DxvaStep::GetTexture(one).holds(object) == held
            &&& DxvaStep::Resolve(one).holds(object) == held
            &&& DxvaStep::CreateStaging(one, request).holds(object) == held
            &&& DxvaStep::CopyTexture(one).holds(object) == held
            &&& DxvaStep::GetBuffer.holds(object) == 0
            &&& DxvaStep::MapStaging(rows).holds(object) == 0
            &&& DxvaStep::Convert(rows, pitch).holds(object) == 0
        }),
{
}

/// After a failure nothing is held, and else what the next step holds.
pub proof fn lemma_what_is_held_next(next: DxvaNext, object: usize)
    ensures
        next.step is Err ==> next.holds(object) == 0,
        next.step matches Ok(step) ==> next.holds(object) == step.holds(object),
{
}

} // verus!
