//! What the NAL units of an access unit ask of the driver before a picture
//! can be decoded: a configuration, and a pool of surfaces of the right size.

use vstd::prelude::*;

use crate::media::{NalUnit, VideoError};
use crate::nal::{h264_nal_type, h264_type};
use crate::vaapi::buffers::{ref_frame_count, ref_frames};
use crate::vaapi::decoder::VaapiDecoder;
use crate::vaapi::dpb::{Dpb, DpbEntry};
use crate::vaapi::fields::{check_va, h264_profile, select_h264_profile, va_failure};
use crate::vaapi::open::unless_zero;
use crate::vaapi::params::{Pps, Sps, VA_STATUS_SUCCESS};
use crate::vaapi::pool::first_free;

verus! {

/// What an H.264 NAL unit is for the decoder.
#[derive(Debug, Clone, Copy, PartialEq, Eq, Structural)]
pub enum H264Role {
    Sps,
    Pps,
    Slice,
    Ignored,
}

/// What the NAL unit is for the decoder: slices are those of pictures without
/// data partitioning, refreshing or not.
pub open spec fn h264_role_of(nal: Seq<u8>) -> H264Role {
    if nal.len() == 0 {
        H264Role::Ignored
    } else if h264_type(nal[0]) == 7 {
        H264Role::Sps
    } else if h264_type(nal[0]) == 8 {
        H264Role::Pps
    } else if h264_type(nal[0]) == 1 || h264_type(nal[0]) == 5 {
        H264Role::Slice
    } else {
        H264Role::Ignored
    }
}

/// What the NAL unit is for the decoder.
pub fn h264_role(nal: &NalUnit) -> (role: H264Role)
    ensures
        role == h264_role_of(nal@),
{
    if nal.data.len() == 0 {
        return H264Role::Ignored;
    }
    match h264_nal_type(nal.data[0]) {
        7 => H264Role::Sps,
        8 => H264Role::Pps,
        1 | 5 => H264Role::Slice,
        _ => H264Role::Ignored,
    }
}

/// A NAL unit after parsing; a parameter set that cannot be parsed is `None`.
pub enum H264Unit {
    Sps(Option<Sps>),
    Pps(Option<Pps>),
    Slice,
    Ignored,
}

/// What an access unit has brought so far.
pub struct H264Scan {
    /// The NAL units that are slices, by their place in the access unit.
    pub slices: Vec<usize>,
    pub dimensions_changed: bool,
}

impl H264Scan {
    /// Before the first NAL unit.
    pub fn new() -> (scan: Self)
        ensures
            scan.slices@ == Seq::<usize>::empty(),
            !scan.dimensions_changed,
    {
        H264Scan { slices: Vec::new(), dimensions_changed: false }
    }
}

/// Pictures of the second stream have another size than those of the first.
pub open spec fn other_size(before: Option<Sps>, now: Sps) -> bool {
    before matches Some(sps) && (sps.cropped_width != now.cropped_width || sps.cropped_height
        != now.cropped_height)
}

/// How many surfaces a stream gets: two more than it keeps references, and
/// four where nothing is known of it.
pub open spec fn pool_size(sps: Option<Sps>) -> int {
    match sps {
        Some(sps) => ref_frames(&sps) + 2,
        None => 4,
    }
}

/// Context and surfaces that are to be destroyed, in this order.
pub struct VaRetired {
    pub context: Option<u32>,
    pub surfaces: Option<Vec<u32>>,
}

/// What follows the NAL units of an access unit.
pub enum H264Plan {
    /// Nothing: there is no picture.
    NoPicture,
    /// A picture, after these have been destroyed.
    Picture(Option<VaRetired>),
}

/// No context could be created on surfaces.
pub struct SurfaceFailure {
    pub error: VideoError,
    /// The surfaces that are to be destroyed on this account.
    pub surfaces: Vec<u32>,
}

/// Surfaces that are to be created, and a context on them.
#[derive(Debug, Clone, Copy, PartialEq, Eq, Structural)]
pub struct SurfaceRequest {
    pub width: u32,
    pub height: u32,
    pub count: u32,
}

impl<S> VaapiDecoder<S> {
    /// The profile for which the configuration has to be created anew before
    /// the unit is taken: that of a stream before its first surfaces.
    pub open spec fn profile_change(self, unit: H264Unit) -> Option<i32> {
        match unit {
            H264Unit::Sps(Some(sps)) => if !self.surfaces_created && h264_profile(sps.profile_idc)
                != self.h264_profile {
                Some(h264_profile(sps.profile_idc))
            } else {
                None
            },
            _ => None,
        }
    }

    /// The profile for which the configuration has to be created anew.
    pub fn config_needed(&self, unit: &H264Unit) -> (profile: Option<i32>)
        ensures
            profile == self.profile_change(*unit),
    {
        match unit {
            H264Unit::Sps(Some(sps)) => {
                let profile: i32 = select_h264_profile(sps.profile_idc);
                if !self.surfaces_created && profile != self.h264_profile {
                    Some(profile)
                } else {
                    None
                }
            },
            _ => None,
        }
    }

    /// Gives up the configuration; it is to be destroyed where there is one.
    pub fn retire_config(&mut self) -> (config: Option<u32>)
        ensures
            config == unless_zero(old(self).config),
            *final(self) == (VaapiDecoder { config: 0, ..*old(self) }),
    {
        if self.config != 0 {
            let config: u32 = self.config;
            self.config = 0;
            Some(config)
        } else {
            None
        }
    }

    /// Takes the configuration that was created for `profile`.
    pub fn on_config(&mut self, profile: i32, status: i32, config: u32) -> (r: Result<
        (),
        VideoError,
    >)
        ensures
            r is Ok <==> status == VA_STATUS_SUCCESS,
            r is Ok ==> *final(self) == (VaapiDecoder {
                config,
                h264_profile: profile,
                ..*old(self)
            }),
            r matches Err(error) ==> error.text() == va_failure("vaCreateConfig"@, status)
                && *final(self) == *old(self),
    {
        match check_va(status, "vaCreateConfig") {
            Ok(()) => {
                self.config = config;
                self.h264_profile = profile;
                Ok(())
            },
            Err(error) => Err(error),
        }
    }

    /// Takes the NAL unit at place `index` of the access unit.
    pub fn scan_unit(&mut self, scan: &mut H264Scan, index: usize, unit: H264Unit)
        ensures
            old(self).wf() ==> final(self).wf(),
            match unit {
                H264Unit::Sps(Some(sps)) => {
                    &&& *final(self) == (VaapiDecoder { sps: Some(sps), ..*old(self) })
                    &&& final(scan).slices@ == old(scan).slices@
                    &&& final(scan).dimensions_changed == (old(scan).dimensions_changed
                        || other_size(old(self).sps, sps))
                },
                H264Unit::Pps(Some(pps)) => {
                    &&& *final(self) == (VaapiDecoder { pps: Some(pps), ..*old(self) })
                    &&& *final(scan) == *old(scan)
                },
                H264Unit::Slice => {
                    &&& *final(self) == *old(self)
                    &&& final(scan).slices@ == old(scan).slices@.push(index)
                    &&& final(scan).dimensions_changed == old(scan).dimensions_changed
                },
                _ => {
                    &&& *final(self) == *old(self)
                    &&& *final(scan) == *old(scan)
                },
            },
    {
        match unit {
            H264Unit::Sps(Some(sps)) => {
                match &self.sps {
                    Some(before) => {
                        if before.cropped_width != sps.cropped_width || before.cropped_height
                            != sps.cropped_height {
                            scan.dimensions_changed = true;
                        }
                    },
                    None => {},
                }
                self.sps = Some(sps);
            },
            H264Unit::Pps(Some(pps)) => {
                self.pps = Some(pps);
            },
            H264Unit::Slice => {
                scan.slices.push(index);
            },
            _ => {},
        }
    }

    /// Gives up context and surfaces, and with them all pictures.
    pub fn destroy_surfaces_and_context(&mut self) -> (retired: VaRetired)
        ensures
            final(self).wf(),
            final(self).tight(None),
            retired.context == unless_zero(old(self).context),
            retired.surfaces is Some <==> old(self).surfaces@.len() > 0,
            retired.surfaces matches Some(surfaces) ==> surfaces@ == old(self).surfaces@,
            *final(self) == (VaapiDecoder {
                context: 0,
                surfaces: final(self).surfaces,
                surface_in_use: final(self).surface_in_use,
                surfaces_created: false,
                dpb: final(self).dpb,
                ..*old(self)
            }),
            final(self).surfaces@ == Seq::<u32>::empty(),
            final(self).surface_in_use@ == Seq::<bool>::empty(),
            final(self).dpb.entries@ == Seq::<DpbEntry>::empty(),
            final(self).dpb.max_size == old(self).dpb.max_size,
            final(self).dpb.poc_counter == 0,
            final(self).dpb.prev_poc_lsb == 0,
            final(self).dpb.prev_poc_msb == 0,
    {
        let context: Option<u32> = if self.context != 0 {
            Some(self.context)
        } else {
            None
        };
        self.context = 0;
        let mut taken: Vec<u32> = Vec::new();
        std::mem::swap(&mut taken, &mut self.surfaces);
        self.surface_in_use.clear();
        self.surfaces_created = false;
        let _freed = self.dpb.clear();
        VaRetired {
            context,
            surfaces: if taken.len() > 0 {
                Some(taken)
            } else {
                None
            },
        }
    }

    /// After the last NAL unit: without slices there is no picture, and the
    /// access unit is done.  Else context and surfaces are given up where the
    /// size of the pictures has changed.
    pub fn plan(&mut self, scan: &H264Scan) -> (plan: H264Plan)
        requires
            old(self).wf(),
        ensures
            final(self).wf(),
            old(self).tight(None) ==> final(self).tight(None),
            plan is NoPicture <==> scan.slices@.len() == 0,
            plan matches H264Plan::Picture(Some(_)) <==> scan.slices@.len() > 0
                && scan.dimensions_changed && old(self).surfaces_created,
            !(plan matches H264Plan::Picture(Some(_))) ==> *final(self) == *old(self),
            plan matches H264Plan::Picture(Some(retired)) ==> {
                &&& retired.context == unless_zero(old(self).context)
                &&& retired.surfaces matches Some(surfaces) && surfaces@ == old(self).surfaces@
                &&& *final(self) == (VaapiDecoder {
                    context: 0,
                    surfaces: final(self).surfaces,
                    surface_in_use: final(self).surface_in_use,
                    surfaces_created: false,
                    dpb: final(self).dpb,
                    ..*old(self)
                })
                &&& final(self).surfaces@.len() == 0
                &&& final(self).surface_in_use@.len() == 0
                &&& final(self).dpb.entries@.len() == 0
                &&& final(self).dpb.max_size == old(self).dpb.max_size
                &&& final(self).dpb.poc_counter == 0
                &&& final(self).dpb.prev_poc_lsb == 0
                &&& final(self).dpb.prev_poc_msb == 0
            },
    {
        if scan.slices.len() == 0 {
            return H264Plan::NoPicture;
        }
        if scan.dimensions_changed && self.surfaces_created {
            H264Plan::Picture(Some(self.destroy_surfaces_and_context()))
        } else {
            H264Plan::Picture(None)
        }
    }

    /// The surfaces that an H.264 stream needs before its next picture, with
    /// the size of the buffer set to match; none where they are there.
    pub fn h264_surfaces(&mut self) -> (r: Result<Option<SurfaceRequest>, VideoError>)
        requires
            old(self).wf(),
        ensures
            final(self).wf(),
            old(self).surfaces_created ==> {
                &&& r matches Ok(None)
                &&& *final(self) == *old(self)
            },
            !old(self).surfaces_created && old(self).sps is None ==> {
                &&& r is Err
                &&& r->Err_0.text() == "no SPS"@
                &&& *final(self) == *old(self)
            },
            !old(self).surfaces_created && old(self).sps is Some ==> {
                let sps = old(self).sps->0;
                &&& r matches Ok(Some(request))
                &&& request.width == sps.cropped_width as int % 0x1_0000_0000
                &&& request.height == sps.cropped_height as int % 0x1_0000_0000
                &&& request.count == pool_size(Some(sps))
                &&& *final(self) == (VaapiDecoder {
                    width: request.width,
                    height: request.height,
                    dpb: Dpb { max_size: ref_frames(&sps) as usize, ..old(self).dpb },
                    ..*old(self)
                })
            },
    {
        if self.surfaces_created {
            return Ok(None);
        }
        let (width, height, refs) = match &self.sps {
            Some(sps) => (low32(sps.cropped_width), low32(sps.cropped_height), ref_frame_count(sps)),
            None => {
                return Err(VideoError::codec("no SPS"));
            },
        };
        self.dpb.max_size = refs as usize;
        Ok(Some(self.create_surfaces(width, height)))
    }

    /// The surfaces that a stream of another codec needs before its next
    /// picture; none where they are there.
    pub fn fixed_surfaces(&mut self) -> (r: Option<SurfaceRequest>)
        requires
            old(self).wf(),
        ensures
            final(self).wf(),
            old(self).surfaces_created ==> r is None && *final(self) == *old(self),
            !old(self).surfaces_created ==> {
                &&& r matches Some(request)
                &&& request.width == 1920
                &&& request.height == 1080
                &&& request.count == pool_size(old(self).sps)
                &&& *final(self) == (VaapiDecoder { width: 1920, height: 1080, ..*old(self) })
            },
    {
        if self.surfaces_created {
            None
        } else {
            Some(self.create_surfaces(1920, 1080))
        }
    }

    /// Sets the size of the pictures, and says which surfaces they need.
    fn create_surfaces(&mut self, width: u32, height: u32) -> (request: SurfaceRequest)
        ensures
            *final(self) == (VaapiDecoder { width, height, ..*old(self) }),
            request.width == width,
            request.height == height,
            request.count == pool_size(old(self).sps),
    {
        self.width = width;
        self.height = height;
        let count: u32 = match &self.sps {
            Some(sps) => ref_frame_count(sps) + 2,
            None => 4,
        };
        SurfaceRequest { width, height, count }
    }

    /// Takes the surfaces that were created; a failed call has created none.
    pub fn on_surfaces(&mut self, status: i32, surfaces: Vec<u32>) -> (r: Result<(), VideoError>)
        requires
            !old(self).surfaces_created,
            old(self).wf(),
            status == VA_STATUS_SUCCESS ==> surfaces@.len() == pool_size(old(self).sps),
        ensures
            final(self).wf(),
            final(self).tight(None),
            r is Ok <==> status == VA_STATUS_SUCCESS,
            r matches Err(error) ==> error.text() == va_failure("vaCreateSurfaces"@, status),
            *final(self) == (VaapiDecoder {
                surfaces: final(self).surfaces,
                surface_in_use: final(self).surface_in_use,
                ..*old(self)
            }),
            final(self).surfaces@ == if r is Ok {
                surfaces@
            } else {
                Seq::empty()
            },
            final(self).surface_in_use@ == Seq::new(final(self).surfaces@.len(), |i: int| false),
            r is Ok ==> final(self).surfaces@.len() == pool_size(old(self).sps),
    {
        match check_va(status, "vaCreateSurfaces") {
            Ok(()) => {
                let count: usize = surfaces.len();
                self.surfaces = surfaces;
                self.surface_in_use = vec![false; count];
                assert(self.surface_in_use@ =~= Seq::new(surfaces@.len(), |i: int| false));
                Ok(())
            },
            Err(error) => {
                self.surfaces = Vec::new();
                self.surface_in_use = Vec::new();
                assert(self.surface_in_use@ =~= Seq::new(0, |i: int| false));
                Err(error)
            },
        }
    }

    /// Takes the context that was created on the surfaces, which makes them
    /// ready for use.  Without a context the surfaces are given up.
    pub fn on_context(&mut self, status: i32, context: u32) -> (r: Result<(), SurfaceFailure>)
        requires
            old(self).wf(),
            !old(self).surfaces_created,
            old(self).surfaces@.len() > 0,
        ensures
            final(self).wf(),
            r is Ok <==> status == VA_STATUS_SUCCESS,
            r is Ok ==> *final(self) == (VaapiDecoder {
                context,
                surfaces_created: true,
                current_surface_idx: 0,
                ..*old(self)
            }),
            r is Ok && old(self).sps is Some && old(self).dpb.max_size == ref_frames(
                &old(self).sps->0,
            ) && old(self).surfaces@.len() == pool_size(old(self).sps) ==> final(self).roomy(),
            r matches Err(failure) ==> {
                &&& failure.error.text() == va_failure("vaCreateContext"@, status)
                &&& failure.surfaces@ == old(self).surfaces@
                &&& *final(self) == (VaapiDecoder {
                    surfaces: final(self).surfaces,
                    surface_in_use: final(self).surface_in_use,
                    ..*old(self)
                })
                &&& final(self).surfaces@ == Seq::<u32>::empty()
                &&& final(self).surface_in_use@ == Seq::<bool>::empty()
            },
    {
        match check_va(status, "vaCreateContext") {
            Ok(()) => {
                self.context = context;
                self.surfaces_created = true;
                self.current_surface_idx = 0;
                Ok(())
            },
            Err(error) => {
                let mut surfaces: Vec<u32> = Vec::new();
                std::mem::swap(&mut surfaces, &mut self.surfaces);
                self.surface_in_use = Vec::new();
                Err(SurfaceFailure { error, surfaces })
            },
        }
    }
}

fn low32(v: usize) -> (r: u32)
    ensures
        r == v as int % 0x1_0000_0000,
{
    (v as u64 % 0x1_0000_0000) as u32
}

/// The pool never runs dry: where every surface in use holds a reference, and
/// there are the surfaces that an H.264 stream asks for, a surface is free
/// for the next picture.
pub proof fn lemma_pool_never_runs_dry<S>(decoder: VaapiDecoder<S>)
    requires
        decoder.wf(),
        decoder.tight(None),
        decoder.roomy(),
    ensures
        first_free(decoder.surface_in_use@) is Some,
{
    crate::vaapi::pool::lemma_pool_has_room(decoder.dpb.entries@, decoder.surface_in_use@);
}

} // verus!
