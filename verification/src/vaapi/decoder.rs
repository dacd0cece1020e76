//! The state of a VA-API decoder, and what a picture does to it.

use vstd::prelude::*;

use crate::media::{DecodedFrame, VideoCodec, VideoError};
use crate::nal::{h264_nal_ref_idc, h264_nal_type, h264_ref_idc, h264_type};
use crate::vaapi::buffers::{
    VAIQMatrixBufferH264, VAPictureParameterBufferH264, VASliceParameterBufferH264,
};
use crate::vaapi::dpb::{
    is_reference, list0_entries, list1_pictures, picture_list, Dpb, DpbEntry,
};
use crate::vaapi::params::{Pps, SliceHeader, Sps};
use crate::vaapi::pool::{
    all_released, entries_after_eviction, find_free_surface, first_free, flags_after_eviction,
    held, is_full, lemma_eviction_index, lemma_eviction_keeps_held, lemma_first_free,
    lemma_free_is_unoccupied, lemma_lists_on_surfaces, no_strays, occupied,
};

verus! {

/// VA-API hardware decoder for H.264/HEVC on Linux.
///
/// Without a working driver the stream goes to `sw_fallback`.
pub struct VaapiDecoder<S> {
    pub codec: VideoCodec,
    /// The descriptor of the driver's node, negative for none.
    pub node: i32,
    /// The address of the driver's display, zero for none.
    pub display: usize,
    pub config: u32,
    pub context: u32,
    pub surfaces: Vec<u32>,
    pub width: u32,
    pub height: u32,
    pub initialized: bool,
    pub surfaces_created: bool,
    pub sw_fallback: Option<S>,
    pub sps: Option<Sps>,
    pub pps: Option<Pps>,
    pub dpb: Dpb,
    pub surface_in_use: Vec<bool>,
    pub current_surface_idx: usize,
    pub frame_counter: u64,
    pub h264_profile: i32,
}

/// A picture that is about to be decoded.
pub struct PictureJob {
    pub surf_idx: usize,
    pub surface: u32,
    pub nal_ref_idc: u8,
    pub is_idr: bool,
    pub frame_num: u32,
    pub top_poc: i32,
    pub bottom_poc: i32,
    pub pic_param: VAPictureParameterBufferH264,
    pub iq_matrix: VAIQMatrixBufferH264,
}

impl PictureJob {
    /// The entry that the picture gets in the buffer where it is a reference.
    pub open spec fn entry(self) -> DpbEntry {
        DpbEntry {
            surface_idx: self.surf_idx,
            frame_num: self.frame_num,
            top_poc: self.top_poc,
            bottom_poc: self.bottom_poc,
            is_long_term: false,
            is_reference: true,
        }
    }
}

/// The outcome of a picture, with the time and the kind of the picture on its
/// frame.
pub open spec fn labelled(
    outcome: Result<DecodedFrame, VideoError>,
    timestamp_us: u64,
    keyframe: bool,
) -> Result<DecodedFrame, VideoError> {
    match outcome {
        Ok(frame) => Ok(DecodedFrame { timestamp_us, keyframe, ..frame }),
        Err(error) => Err(error),
    }
}

fn label(outcome: Result<DecodedFrame, VideoError>, timestamp_us: u64, keyframe: bool) -> (r:
    Result<DecodedFrame, VideoError>)
    ensures
        r == labelled(outcome, timestamp_us, keyframe),
{
    match outcome {
        Ok(mut frame) => {
            frame.timestamp_us = timestamp_us;
            frame.keyframe = keyframe;
            Ok(frame)
        },
        Err(error) => Err(error),
    }
}

impl<S> VaapiDecoder<S> {
    /// Every picture of the buffer lies on a surface of its own that is in
    /// use, there is a buffer only where there are surfaces, and it holds no
    /// more pictures than it may (one where it may hold none).
    pub open spec fn wf(self) -> bool {
        &&& self.surfaces@.len() == self.surface_in_use@.len()
        &&& held(self.dpb.entries@, self.surface_in_use@)
        &&& self.surfaces_created ==> self.surfaces@.len() > 0
        &&& !self.surfaces_created ==> self.dpb.entries@.len() == 0
        &&& self.dpb.entries@.len() <= self.dpb.max_size || self.dpb.entries@.len() <= 1
    }

    /// Surface `surf` is set aside for a picture that is not in the buffer.
    pub open spec fn pending(self, surf: usize) -> bool {
        &&& surf < self.surface_in_use@.len()
        &&& self.surface_in_use@[surf as int]
        &&& !occupied(self.dpb.entries@, surf as int)
    }

    /// No surface is in use without a picture, except for `other`.
    pub open spec fn tight(self, other: Option<usize>) -> bool {
        no_strays(self.dpb.entries@, self.surface_in_use@, other)
    }

    /// There are two surfaces more than the buffer may hold pictures.
    pub open spec fn roomy(self) -> bool {
        self.surfaces@.len() == self.dpb.max_size + 2
    }

    /// Only the buffer and the surface flags differ.
    pub open spec fn same_but_pool(self, before: Self) -> bool {
        self == (VaapiDecoder { dpb: self.dpb, surface_in_use: self.surface_in_use, ..before })
    }

    /// The pictures and the surface flags from which a surface is chosen: a
    /// picture leaves only where no surface is free.
    pub open spec fn pool_for_next(self) -> (Seq<DpbEntry>, Seq<bool>) {
        if first_free(self.surface_in_use@) is Some {
            (self.dpb.entries@, self.surface_in_use@)
        } else {
            (
                entries_after_eviction(self.dpb),
                flags_after_eviction(self.dpb, self.surface_in_use@),
            )
        }
    }

    /// Sets a surface aside for the next picture: the first free one, for
    /// which a picture leaves the buffer where there is none.
    pub fn start_picture(&mut self) -> (r: Result<usize, VideoError>)
        requires
            old(self).wf(),
        ensures
            final(self).wf(),
            final(self).same_but_pool(*old(self)),
            old(self).sps is None || old(self).pps is None ==> {
                &&& *final(self) == *old(self)
                &&& r is Err
                &&& r->Err_0.text() == if old(self).sps is None {
                    "no SPS"@
                } else {
                    "no PPS"@
                }
            },
            old(self).sps is Some && old(self).pps is Some ==> {
                let (entries, flags) = old(self).pool_for_next();
                &&& final(self).dpb == (Dpb {
                    entries: final(self).dpb.entries,
                    ..old(self).dpb
                })
                &&& final(self).dpb.entries@ == entries
                &&& match first_free(flags) {
                    Some(k) => {
                        &&& r == Ok::<usize, VideoError>(k as usize)
                        &&& final(self).surface_in_use@ == flags.update(k, true)
                        &&& final(self).has_started(*old(self), k as usize)
                        &&& final(self).pending(k as usize)
                        &&& old(self).tight(None) ==> final(self).tight(Some(k as usize))
                    },
                    None => {
                        &&& r is Err
                        &&& r->Err_0.text() == "no free surface"@
                        &&& final(self).surface_in_use@ == flags
                        &&& old(self).tight(None) ==> final(self).tight(None)
                    },
                }
            },
    {
        if self.sps.is_none() {
            return Err(VideoError::codec("no SPS"));
        }
        if self.pps.is_none() {
            return Err(VideoError::codec("no PPS"));
        }
        let mut choice = find_free_surface(&self.surface_in_use);
        if choice.is_none() {
            proof {
                lemma_eviction_keeps_held(self.dpb, self.surface_in_use@, None);
                if is_full(self.dpb) {
                    lemma_eviction_index(self.dpb.entries@);
                }
            }
            self.dpb.sliding_window_evict(&mut self.surface_in_use);
            choice = find_free_surface(&self.surface_in_use);
        }
        match choice {
            Some(surf) => {
                proof {
                    lemma_first_free(self.surface_in_use@);
                    lemma_free_is_unoccupied(self.dpb.entries@, self.surface_in_use@);
                }
                self.surface_in_use[surf] = true;
                Ok(surf)
            },
            None => Err(VideoError::codec("no free surface")),
        }
    }

    /// Surface `surf` has been set aside for the next picture.
    pub open spec fn has_started(self, before: Self, surf: usize) -> bool {
        let (entries, flags) = before.pool_for_next();
        &&& self.same_but_pool(before)
        &&& self.dpb == (Dpb { entries: self.dpb.entries, ..before.dpb })
        &&& self.dpb.entries@ == entries
        &&& first_free(flags) == Some(surf as int)
        &&& self.surface_in_use@ == flags.update(surf as int, true)
    }

    /// The picture `job` on surface `surf`, whose first slice starts with the
    /// byte `first` and has the header `sh`, has been prepared.
    pub open spec fn has_begun(
        self,
        before: Self,
        surf: usize,
        first: u8,
        sh: SliceHeader,
        job: PictureJob,
    ) -> bool {
        let sps = before.sps->0;
        &&& self.same_but_pool(before)
        &&& job.surf_idx == surf
        &&& job.surface == before.surfaces@[surf as int]
        &&& job.nal_ref_idc == h264_ref_idc(first)
        &&& job.is_idr == (h264_type(first) == 5)
        &&& job.frame_num == sh.frame_num
        &&& job.top_poc == before.dpb.top_poc(&sps, &sh, job.is_idr)
        &&& job.bottom_poc == before.dpb.bottom_poc(&sps, &sh, job.is_idr)
        &&& job.pic_param.describes(
            &sps,
            &before.pps->0,
            &sh,
            job.nal_ref_idc,
            job.surface,
            job.top_poc,
            job.bottom_poc,
            picture_list(self.dpb.entries@.filter(is_reference()), before.surfaces@, 16),
        )
        &&& job.iq_matrix.describes(&sps)
        &&& self.dpb.entries@ == if job.is_idr {
            Seq::empty()
        } else {
            before.dpb.entries@
        }
        &&& self.surface_in_use@ == if job.is_idr {
            all_released(before.surface_in_use@, before.dpb.entries@)
        } else {
            before.surface_in_use@
        }
        &&& self.dpb.counts_after(before.dpb, &sps, &sh, job.is_idr)
    }

    /// Gives back surface `surf`, which was set aside for a picture that does
    /// not come about.
    pub fn abandon_picture(&mut self, surf: usize)
        requires
            old(self).wf(),
            old(self).pending(surf),
        ensures
            final(self).wf(),
            old(self).tight(Some(surf)) ==> final(self).tight(None),
            *final(self) == (VaapiDecoder {
                surface_in_use: final(self).surface_in_use,
                ..*old(self)
            }),
            final(self).surface_in_use@ == old(self).surface_in_use@.update(surf as int, false),
    {
        self.surface_in_use[surf] = false;
        proof {
            self.lemma_tight_again(*old(self), surf);
        }
    }

    /// Prepares the picture on surface `surf` from the first byte and the
    /// header of its first slice.  An instantaneous refresh empties the buffer.
    pub fn begin_picture(&mut self, surf: usize, first: u8, sh: &SliceHeader) -> (job: PictureJob)
        requires
            old(self).wf(),
            old(self).pending(surf),
            old(self).sps is Some,
            old(self).pps is Some,
            i32::MIN + 26 <= old(self).pps->0.pic_init_qp,
            old(self).dpb.poc_in_range(&old(self).sps->0, sh, h264_type(first) == 5),
        ensures
            final(self).wf(),
            final(self).pending(surf),
            final(self).same_but_pool(*old(self)),
            old(self).tight(Some(surf)) ==> final(self).tight(Some(surf)),
            final(self).has_begun(*old(self), surf, first, *sh, job),
    {
        let nal_ref_idc: u8 = h264_nal_ref_idc(first);
        let is_idr = h264_nal_type(first) == 5;
        let surface: u32 = self.surfaces[surf];
        if is_idr {
            self.empty_buffer();
            self.surface_in_use[surf] = true;
            proof {
                assert(self.surface_in_use@ =~= all_released(
                    old(self).surface_in_use@,
                    old(self).dpb.entries@,
                ));
                if old(self).tight(Some(surf)) {
                    assert forall|k: int|
                        0 <= k < self.surface_in_use@.len()
                            && #[trigger] self.surface_in_use@[k] implies k == surf by {
                        assert(old(self).surface_in_use@[k]);
                    }
                }
            }
        }
        let sps = self.sps.as_ref().unwrap();
        let pps = self.pps.as_ref().unwrap();
        let (top_poc, bottom_poc) = self.dpb.compute_poc(sps, sh, is_idr);
        proof {
            lemma_lists_on_surfaces(self.dpb.entries@, self.surface_in_use@, 0, 0);
        }
        let reference_frames = self.dpb.build_va_reference_frames(&self.surfaces);
        let pic_param = VAPictureParameterBufferH264::new(
            sps,
            pps,
            sh,
            nal_ref_idc,
            surface,
            top_poc,
            bottom_poc,
            reference_frames,
        );
        PictureJob {
            surf_idx: surf,
            surface,
            nal_ref_idc,
            is_idr,
            frame_num: sh.frame_num,
            top_poc,
            bottom_poc,
            pic_param,
            iq_matrix: VAIQMatrixBufferH264::new(sps),
        }
    }

    /// Empties the buffer, which frees the surfaces of its pictures.
    fn empty_buffer(&mut self)
        requires
            held(old(self).dpb.entries@, old(self).surface_in_use@),
        ensures
            final(self).same_but_pool(*old(self)),
            final(self).dpb.entries@ == Seq::<DpbEntry>::empty(),
            final(self).dpb.max_size == old(self).dpb.max_size,
            final(self).dpb.poc_counter == 0,
            final(self).dpb.prev_poc_lsb == 0,
            final(self).dpb.prev_poc_msb == 0,
            final(self).surface_in_use@ == all_released(
                old(self).surface_in_use@,
                old(self).dpb.entries@,
            ),
    {
        let ghost entries = self.dpb.entries@;
        let ghost flags = self.surface_in_use@;
        let freed = self.dpb.clear();
        let mut i: usize = 0;
        assert(self.surface_in_use@ =~= all_released(flags, entries.take(0)));
        while i < freed.len()
            invariant
                i <= freed@.len(),
                self.same_but_pool(*old(self)),
                self.dpb.entries@ == Seq::<DpbEntry>::empty(),
                self.dpb.max_size == old(self).dpb.max_size,
                self.dpb.poc_counter == 0,
                self.dpb.prev_poc_lsb == 0,
                self.dpb.prev_poc_msb == 0,
                freed@ == entries.map_values(|entry: DpbEntry| entry.surface_idx),
                self.surface_in_use@ == all_released(flags, entries.take(i as int)),
            decreases freed@.len() - i,
        {
            let idx: usize = freed[i];
            if idx < self.surface_in_use.len() {
                self.surface_in_use[idx] = false;
            }
            proof {
                assert(entries.take(i + 1) =~= entries.take(i as int).push(entries[i as int]));
                lemma_release_next(flags, entries.take(i as int), entries[i as int]);
            }
            i += 1;
        }
        assert(entries.take(i as int) =~= entries);
    }

    /// The parameters of a slice of `size` bytes in a picture at `top_poc`.
    pub fn slice_parameters(&self, sh: &SliceHeader, size: usize, top_poc: i32) -> (buffer:
        VASliceParameterBufferH264)
        requires
            self.wf(),
        ensures
            buffer.describes(
                sh,
                size as int,
                picture_list(
                    list0_entries(self.dpb.entries@, sh.slice_type, top_poc),
                    self.surfaces@,
                    32,
                ),
                list1_pictures(self.dpb.entries@, self.surfaces@, sh.slice_type, top_poc),
            ),
    {
        proof {
            lemma_lists_on_surfaces(
                self.dpb.entries@,
                self.surface_in_use@,
                sh.slice_type,
                top_poc,
            );
        }
        let list0 = self.dpb.build_ref_pic_list0(&self.surfaces, sh.slice_type, top_poc);
        let list1 = self.dpb.build_ref_pic_list1(&self.surfaces, sh.slice_type, top_poc);
        VASliceParameterBufferH264::new(sh, size, list0, list1)
    }

    /// The picture `job` has been run with the outcome `outcome`, which gives
    /// `r`.  A reference has joined the buffer, for which one other has left
    /// where the buffer was full; any other picture, and one that failed, has
    /// freed its surface.  All else is as it was before.
    pub open spec fn has_finished(
        self,
        before: Self,
        job: PictureJob,
        outcome: Result<DecodedFrame, VideoError>,
        r: Result<Option<DecodedFrame>, VideoError>,
    ) -> bool {
        &&& self == (VaapiDecoder {
            dpb: self.dpb,
            surface_in_use: self.surface_in_use,
            current_surface_idx: self.current_surface_idx,
            frame_counter: self.frame_counter,
            ..before
        })
        &&& self.dpb == (Dpb { entries: self.dpb.entries, ..before.dpb })
        &&& match outcome {
            Ok(frame) => {
                &&& r == Ok::<Option<DecodedFrame>, VideoError>(Some(frame))
                &&& self.current_surface_idx == job.surf_idx
                &&& self.frame_counter == if before.frame_counter == u64::MAX {
                    u64::MAX as int
                } else {
                    before.frame_counter + 1
                }
                &&& job.nal_ref_idc != 0 ==> {
                    &&& self.dpb.entries@ == entries_after_eviction(before.dpb).push(job.entry())
                    &&& self.surface_in_use@ == flags_after_eviction(
                        before.dpb,
                        before.surface_in_use@,
                    )
                }
                &&& job.nal_ref_idc == 0 ==> {
                    &&& self.dpb.entries@ == before.dpb.entries@
                    &&& self.surface_in_use@ == before.surface_in_use@.update(
                        job.surf_idx as int,
                        false,
                    )
                }
            },
            Err(error) => {
                &&& r == Err::<Option<DecodedFrame>, VideoError>(error)
                &&& self.dpb.entries@ == before.dpb.entries@
                &&& self.surface_in_use@ == before.surface_in_use@.update(
                    job.surf_idx as int,
                    false,
                )
                &&& self.current_surface_idx == before.current_surface_idx
                &&& self.frame_counter == before.frame_counter
            },
        }
    }

    /// Takes over the outcome of a picture.  A reference joins the buffer,
    /// for which another may leave; any other picture frees its surface.
    pub fn finish_picture(
        &mut self,
        job: &PictureJob,
        outcome: Result<DecodedFrame, VideoError>,
    ) -> (r: Result<Option<DecodedFrame>, VideoError>)
        requires
            old(self).wf(),
            old(self).surfaces_created,
            old(self).pending(job.surf_idx),
        ensures
            final(self).wf(),
            old(self).tight(Some(job.surf_idx)) ==> final(self).tight(None),
            final(self).has_finished(*old(self), *job, outcome, r),
    {
        let surf: usize = job.surf_idx;
        let frame = match outcome {
            Ok(frame) => frame,
            Err(error) => {
                self.surface_in_use[surf] = false;
                proof {
                    self.lemma_tight_again(*old(self), surf);
                }
                return Err(error);
            },
        };
        if job.nal_ref_idc != 0 {
            proof {
                lemma_eviction_keeps_held(self.dpb, self.surface_in_use@, Some(surf));
                if is_full(self.dpb) {
                    lemma_eviction_index(self.dpb.entries@);
                }
                lemma_eviction_spares(self.dpb, self.surface_in_use@, surf);
            }
            self.dpb.sliding_window_evict(&mut self.surface_in_use);
            let ghost rest = self.dpb.entries@;
            self.dpb.add_reference(surf, job.frame_num, job.top_poc, job.bottom_poc);
            proof {
                lemma_join(rest, self.surface_in_use@, job.entry());
            }
        } else {
            self.surface_in_use[surf] = false;
            proof {
                self.lemma_tight_again(*old(self), surf);
            }
        }
        self.current_surface_idx = surf;
        self.frame_counter = self.frame_counter.saturating_add(1);
        Ok(Some(frame))
    }

    /// Surface `surf`, which was set aside, has been given back.
    pub open spec fn has_abandoned(self, before: Self, surf: usize) -> bool {
        &&& self == (VaapiDecoder { surface_in_use: self.surface_in_use, ..before })
        &&& self.surface_in_use@ == before.surface_in_use@.update(surf as int, false)
    }

    /// No surface is free for the next picture, though one has left the
    /// buffer to make room.
    pub open spec fn has_no_surface(self, before: Self) -> bool {
        let (entries, flags) = before.pool_for_next();
        &&& self.same_but_pool(before)
        &&& self.dpb == (Dpb { entries: self.dpb.entries, ..before.dpb })
        &&& self.dpb.entries@ == entries
        &&& self.surface_in_use@ == flags
    }

    /// The outcome of a picture whose first slice starts with the byte `first`
    /// and has the header `sh`, which was run with the outcome `outcome`: a
    /// reference is the last picture of the buffer, any other is not in it.
    pub open spec fn took_over(
        self,
        before: Self,
        first: u8,
        sh: SliceHeader,
        outcome: Result<DecodedFrame, VideoError>,
        r: Result<Option<DecodedFrame>, VideoError>,
    ) -> bool {
        let is_idr = h264_type(first) == 5;
        match outcome {
            Ok(frame) => {
                &&& r == Ok::<Option<DecodedFrame>, VideoError>(Some(frame))
                &&& h264_ref_idc(first) != 0 ==> {
                    &&& self.dpb.entries@.len() > 0
                    &&& self.dpb.entries@.last().surface_idx == self.current_surface_idx
                    &&& self.dpb.entries@.last().frame_num == sh.frame_num
                    &&& self.dpb.entries@.last().top_poc == before.dpb.top_poc(
                        &before.sps->0,
                        &sh,
                        is_idr,
                    )
                    &&& self.dpb.entries@.last().bottom_poc == before.dpb.bottom_poc(
                        &before.sps->0,
                        &sh,
                        is_idr,
                    )
                    &&& self.dpb.entries@.last().is_reference
                    &&& !self.dpb.entries@.last().is_long_term
                }
                &&& h264_ref_idc(first) == 0 ==> self.dpb.entries@ == if is_idr {
                    Seq::empty()
                } else {
                    before.pool_for_next().0
                }
            },
            Err(error) => {
                &&& r == Err::<Option<DecodedFrame>, VideoError>(error)
                &&& self.dpb.entries@ == if is_idr {
                    Seq::empty()
                } else {
                    before.pool_for_next().0
                }
            },
        }
    }

    /// Decodes a picture whose first slice starts with the byte `first`.
    /// `parse` parses the header of that slice, and `run` makes the calls of
    /// the picture; the frame that they give gets the time and the kind of
    /// the picture.
    ///
    /// Whatever comes of it, a surface is in use exactly where a picture of
    /// the buffer lies on it.
    pub fn decode_picture<P, R>(
        &mut self,
        first: u8,
        timestamp_us: u64,
        parse: P,
        run: R,
    ) -> (r: Result<Option<DecodedFrame>, VideoError>) where
        P: FnOnce(&VaapiDecoder<S>) -> Result<SliceHeader, VideoError>,
        R: FnOnce(&VaapiDecoder<S>, &PictureJob) -> Result<DecodedFrame, VideoError>,

        requires
            old(self).wf(),
            old(self).sps is Some && old(self).pps is Some ==> {
                &&& old(self).surfaces_created
                &&& i32::MIN + 26 <= old(self).pps->0.pic_init_qp
                &&& forall|d: &VaapiDecoder<S>| call_requires(parse, (d,))
                &&& forall|d: &VaapiDecoder<S>, sh: SliceHeader|
                    #[trigger] call_ensures(parse, (d,), Ok::<SliceHeader, VideoError>(sh))
                        && d.sps is Some ==> d.dpb.poc_in_range(
                        &d.sps->0,
                        &sh,
                        h264_type(first) == 5,
                    )
                &&& forall|d: &VaapiDecoder<S>, job: &PictureJob| call_requires(run, (d, job))
            },
        ensures
            final(self).wf(),
            old(self).tight(None) ==> final(self).tight(None),
            *final(self) == (VaapiDecoder {
                dpb: final(self).dpb,
                surface_in_use: final(self).surface_in_use,
                current_surface_idx: final(self).current_surface_idx,
                frame_counter: final(self).frame_counter,
                ..*old(self)
            }),
            final(self).dpb.max_size == old(self).dpb.max_size,
            r matches Ok(frame) ==> {
                &&& frame is Some
                &&& frame->0.timestamp_us == timestamp_us
                &&& frame->0.keyframe == (h264_type(first) == 5)
            },
            old(self).sps is None ==> r is Err && r->Err_0.text() == "no SPS"@ && *final(self)
                == *old(self),
            old(self).sps is Some && old(self).pps is None ==> r is Err && r->Err_0.text()
                == "no PPS"@ && *final(self) == *old(self),
            old(self).sps is Some && old(self).pps is Some && first_free(
                old(self).pool_for_next().1,
            ) is None ==> r is Err && r->Err_0.text() == "no free surface"@
                && final(self).has_no_surface(*old(self)),
            old(self).sps is Some && old(self).pps is Some && first_free(
                old(self).pool_for_next().1,
            ) is Some ==> {
                let surf = first_free(old(self).pool_for_next().1)->0 as usize;
                ||| exists|d: VaapiDecoder<S>, error: VideoError|
                    {
                        &&& #[trigger] d.has_started(*old(self), surf)
                        &&& #[trigger] call_ensures(
                            parse,
                            (&d,),
                            Err::<SliceHeader, VideoError>(error),
                        )
                        &&& r == Err::<Option<DecodedFrame>, VideoError>(error)
                        &&& final(self).has_abandoned(d, surf)
                    }
                ||| exists|
                    d: VaapiDecoder<S>,
                    sh: SliceHeader,
                    begun: VaapiDecoder<S>,
                    job: PictureJob,
                    outcome: Result<DecodedFrame, VideoError>,
                |
                    {
                        &&& d.has_started(*old(self), surf)
                        &&& call_ensures(parse, (&d,), Ok::<SliceHeader, VideoError>(sh))
                        &&& #[trigger] begun.has_begun(d, surf, first, sh, job)
                        &&& #[trigger] call_ensures(run, (&begun, &job), outcome)
                        &&& final(self).has_finished(
                            begun,
                            job,
                            labelled(outcome, timestamp_us, job.is_idr),
                            r,
                        )
                        &&& final(self).took_over(
                            *old(self),
                            first,
                            sh,
                            labelled(outcome, timestamp_us, job.is_idr),
                            r,
                        )
                    }
            },
    {
        let surf: usize = match self.start_picture() {
            Ok(surf) => surf,
            Err(error) => {
                return Err(error);
            },
        };
        let ghost started = *self;
        let parsed = parse(&*self);
        let sh = match parsed {
            Ok(sh) => sh,
            Err(error) => {
                self.abandon_picture(surf);
                assert(started.has_started(*old(self), surf));
                assert(self.has_abandoned(started, surf));
                return Err(error);
            },
        };
        let job = self.begin_picture(surf, first, &sh);
        let ghost begun = *self;
        let outcome = run(&*self, &job);
        let frame = label(outcome, timestamp_us, job.is_idr);
        let r = self.finish_picture(&job, frame);
        assert(begun.has_begun(started, surf, first, sh, job));
        assert(self.took_over(*old(self), first, sh, frame, r));
        r
    }

    proof fn lemma_tight_again(self, before: Self, surf: usize)
        requires
            before.wf(),
            before.pending(surf),
            self.dpb.entries@ == before.dpb.entries@,
            self.surface_in_use@ == before.surface_in_use@.update(surf as int, false),
        ensures
            held(self.dpb.entries@, self.surface_in_use@),
            before.tight(Some(surf)) ==> self.tight(None),
    {
        assert forall|i: int| 0 <= i < self.dpb.entries@.len() implies (
        #[trigger] self.dpb.entries@[i]).surface_idx < self.surface_in_use@.len()
            && self.surface_in_use@[self.dpb.entries@[i].surface_idx as int] by {
            assert(before.dpb.entries@[i].surface_idx != surf);
        }
        if before.tight(Some(surf)) {
            assert forall|k: int|
                0 <= k < self.surface_in_use@.len() && #[trigger] self.surface_in_use@[k] implies
                occupied(self.dpb.entries@, k) by {
                assert(before.surface_in_use@[k]);
            }
        }
    }
}

proof fn lemma_release_next(flags: Seq<bool>, entries: Seq<DpbEntry>, entry: DpbEntry)
    ensures
        all_released(flags, entries.push(entry)) == if entry.surface_idx < flags.len() {
            all_released(flags, entries).update(entry.surface_idx as int, false)
        } else {
            all_released(flags, entries)
        },
{
    let more = entries.push(entry);
    assert forall|k: int| 0 <= k < flags.len() implies occupied(more, k) == (occupied(entries, k)
        || entry.surface_idx == k) by {
        if occupied(entries, k) {
            let i = choose|i: int|
                0 <= i < entries.len() && (#[trigger] entries[i]).surface_idx == k;
            assert(more[i].surface_idx == k);
        }
        if entry.surface_idx == k {
            assert(more[entries.len() as int].surface_idx == k);
        }
        if occupied(more, k) && entry.surface_idx != k {
            let i = choose|i: int| 0 <= i < more.len() && (#[trigger] more[i]).surface_idx == k;
            assert(entries[i].surface_idx == k);
        }
    }
    assert(all_released(flags, more) =~= if entry.surface_idx < flags.len() {
        all_released(flags, entries).update(entry.surface_idx as int, false)
    } else {
        all_released(flags, entries)
    });
}

/// Making room does not touch a surface without a picture.
proof fn lemma_eviction_spares(dpb: Dpb, in_use: Seq<bool>, surf: usize)
    requires
        held(dpb.entries@, in_use),
        surf < in_use.len(),
        in_use[surf as int],
        !occupied(dpb.entries@, surf as int),
    ensures
        flags_after_eviction(dpb, in_use)[surf as int],
        !occupied(entries_after_eviction(dpb), surf as int),
{
    if is_full(dpb) {
        let entries = dpb.entries@;
        let at = crate::vaapi::dpb::eviction_index(entries);
        lemma_eviction_index(entries);
        assert(entries[at].surface_idx != surf);
        let rest = entries.remove(at);
        if occupied(rest, surf as int) {
            let i = choose|i: int| 0 <= i < rest.len() && (#[trigger] rest[i]).surface_idx == surf;
            if i < at {
                assert(entries[i].surface_idx == surf);
            } else {
                assert(entries[i + 1].surface_idx == surf);
            }
        }
    }
}

/// A picture on a surface of its own joins the buffer.
proof fn lemma_join(entries: Seq<DpbEntry>, in_use: Seq<bool>, entry: DpbEntry)
    requires
        held(entries, in_use),
        entry.surface_idx < in_use.len(),
        in_use[entry.surface_idx as int],
        !occupied(entries, entry.surface_idx as int),
    ensures
        held(entries.push(entry), in_use),
        no_strays(entries, in_use, Some(entry.surface_idx)) ==> no_strays(
            entries.push(entry),
            in_use,
            None,
        ),
{
    let more = entries.push(entry);
    assert forall|i: int, j: int| 0 <= i < j < more.len() implies (#[trigger] more[i]).surface_idx
        != (#[trigger] more[j]).surface_idx by {
        if j == entries.len() {
            assert(entries[i].surface_idx != entry.surface_idx);
        } else {
            assert(entries[i].surface_idx != entries[j].surface_idx);
        }
    }
    if no_strays(entries, in_use, Some(entry.surface_idx)) {
        assert forall|k: int| 0 <= k < in_use.len() && #[trigger] in_use[k] implies occupied(
            more,
            k,
        ) by {
            if occupied(entries, k) {
                let i = choose|i: int|
                    0 <= i < entries.len() && (#[trigger] entries[i]).surface_idx == k;
                assert(more[i].surface_idx == k);
            } else {
                assert(more[entries.len() as int].surface_idx == k);
            }
        }
    }
}

} // verus!
