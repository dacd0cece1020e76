//! The life of a picture: the surface it gets, what it is told to the driver
//! as, and what becomes of it.

use vstd::prelude::*;

use crate::media::{DecodedFrame, VideoError};
use crate::vaapi::buffers::ref_frames;
use crate::vaapi::decoder::{labelled, PictureJob, VaapiDecoder};
use crate::vaapi::params::{Pps, SliceHeader, Sps};
use crate::vaapi::pool::{first_free, lemma_eviction_index, lemma_first_free, occupied};
use crate::vaapi::surfaces::{h264_role_of, other_size, pool_size, H264Role, H264Unit};

verus! {

/// The surface for the next picture: where any is free it is the first free
/// one, and no picture leaves the buffer; where none is free one picture
/// leaves.  Nothing happens to the other surfaces of the buffer.
pub proof fn lemma_surface_of_next_picture<S>(
    after: VaapiDecoder<S>,
    before: VaapiDecoder<S>,
    surf: usize,
    free: int,
)
    requires
        before.wf(),
        after.has_started(before, surf),
    ensures
        surf < after.surface_in_use@.len(),
        after.surface_in_use@[surf as int],
        after.sps == before.sps,
        after.pps == before.pps,
        after.surfaces == before.surfaces,
        after.frame_counter == before.frame_counter,
        after.current_surface_idx == before.current_surface_idx,
        after.dpb.max_size == before.dpb.max_size,
        after.dpb.prev_poc_msb == before.dpb.prev_poc_msb,
        after.dpb.prev_poc_lsb == before.dpb.prev_poc_lsb,
        after.dpb.poc_counter == before.dpb.poc_counter,
        0 <= free < before.surface_in_use@.len() && !before.surface_in_use@[free] ==> {
            &&& surf <= free
            &&& !before.surface_in_use@[surf as int]
            &&& after.dpb.entries@ == before.dpb.entries@
            &&& after.surface_in_use@ == before.surface_in_use@.update(surf as int, true)
        },
        (forall|k: int| 0 <= k < before.surface_in_use@.len() ==> before.surface_in_use@[k]) ==> {
            &&& after.dpb.entries@.len() == before.dpb.entries@.len() - 1
            &&& before.dpb.entries@.len() >= before.dpb.max_size
            &&& exists|i: int|
                0 <= i < before.dpb.entries@.len() && #[trigger] before.dpb.entries@[i].surface_idx
                    == surf && after.dpb.entries@ == before.dpb.entries@.remove(i)
        },
{
    let in_use = before.surface_in_use@;
    let (entries, flags) = before.pool_for_next();
    lemma_first_free(in_use);
    lemma_first_free(flags);
    if forall|k: int| 0 <= k < in_use.len() ==> in_use[k] {
        assert(first_free(in_use) is None) by {
            if first_free(in_use) is Some {
                assert(!in_use[first_free(in_use)->0]);
            }
        }
        if !(before.dpb.entries@.len() >= before.dpb.max_size && before.dpb.entries@.len() > 0) {
            assert(!in_use[surf as int]);
        }
        let at = crate::vaapi::dpb::eviction_index(before.dpb.entries@);
        lemma_eviction_index(before.dpb.entries@);
        assert(before.dpb.entries@[at].surface_idx < in_use.len());
        assert(in_use[surf as int]);
        assert(before.dpb.entries@[at].surface_idx == surf);
    }
}

/// What a picture is told to the driver as: it refreshes where the type in
/// the first byte of its slice is 5, and then the buffer is empty and all its
/// surfaces are free; it is a reference where the two bits above the type are
/// not zero.
pub proof fn lemma_begun_picture<S>(
    after: VaapiDecoder<S>,
    before: VaapiDecoder<S>,
    surf: usize,
    first: u8,
    sh: SliceHeader,
    job: PictureJob,
    i: int,
)
    requires
        before.wf(),
        before.pending(surf),
        after.has_begun(before, surf, first, sh, job),
    ensures
        job.surf_idx == surf,
        job.surface == before.surfaces@[surf as int],
        job.frame_num == sh.frame_num,
        job.is_idr <==> first as int % 32 == 5,
        job.nal_ref_idc == (first as int / 32) % 4,
        job.is_idr ==> after.dpb.entries@.len() == 0,
        !job.is_idr ==> after.dpb.entries@ == before.dpb.entries@ && after.surface_in_use@
            == before.surface_in_use@,
        0 <= i < before.dpb.entries@.len() && job.is_idr
            ==> !after.surface_in_use@[before.dpb.entries@[i].surface_idx as int],
        after.surface_in_use@[surf as int],
        job.pic_param.curr_pic.picture_id == before.surfaces@[surf as int],
        job.pic_param.curr_pic.top_field_order_cnt == job.top_poc,
        job.pic_param.curr_pic.bottom_field_order_cnt == job.bottom_poc,
{
    if 0 <= i < before.dpb.entries@.len() {
        let k = before.dpb.entries@[i].surface_idx as int;
        assert(occupied(before.dpb.entries@, k));
    }
}

/// What becomes of a picture: one that was decoded and is a reference is the
/// last in the buffer, where another has left if there was no room, and keeps
/// its surface; any other leaves the buffer as it was and frees its surface.
/// Only a picture that was decoded is counted and given out.
pub proof fn lemma_finished_picture<S>(
    after: VaapiDecoder<S>,
    before: VaapiDecoder<S>,
    job: PictureJob,
    outcome: Result<DecodedFrame, VideoError>,
    r: Result<Option<DecodedFrame>, VideoError>,
)
    requires
        before.wf(),
        before.pending(job.surf_idx),
        after.has_finished(before, job, outcome, r),
    ensures
        outcome matches Ok(frame) ==> {
            &&& r == Ok::<Option<DecodedFrame>, VideoError>(Some(frame))
            &&& after.current_surface_idx == job.surf_idx
            &&& before.frame_counter < u64::MAX ==> after.frame_counter == before.frame_counter + 1
        },
        outcome matches Err(error) ==> {
            &&& r == Err::<Option<DecodedFrame>, VideoError>(error)
            &&& after.current_surface_idx == before.current_surface_idx
            &&& after.frame_counter == before.frame_counter
        },
        outcome is Ok && job.nal_ref_idc != 0 ==> {
            let n = before.dpb.entries@.len();
            let last = after.dpb.entries@.last();
            &&& after.dpb.entries@.len() == if n >= before.dpb.max_size && n > 0 {
                n
            } else {
                n + 1
            }
            &&& last.surface_idx == job.surf_idx
            &&& last.frame_num == job.frame_num
            &&& last.top_poc == job.top_poc
            &&& last.bottom_poc == job.bottom_poc
            &&& last.is_reference
            &&& !last.is_long_term
            &&& after.surface_in_use@[job.surf_idx as int]
        },
        outcome is Err || job.nal_ref_idc == 0 ==> {
            &&& after.dpb.entries@ == before.dpb.entries@
            &&& !after.surface_in_use@[job.surf_idx as int]
            &&& forall|k: int|
                0 <= k < before.surface_in_use@.len() && k != job.surf_idx
                    ==> #[trigger] after.surface_in_use@[k] == before.surface_in_use@[k]
        },
        after.dpb.max_size == before.dpb.max_size,
        after.dpb.prev_poc_msb == before.dpb.prev_poc_msb,
        after.dpb.prev_poc_lsb == before.dpb.prev_poc_lsb,
        after.dpb.poc_counter == before.dpb.poc_counter,
{
    if outcome is Ok && job.nal_ref_idc != 0 {
        let entries = before.dpb.entries@;
        if entries.len() >= before.dpb.max_size && entries.len() > 0 {
            let at = crate::vaapi::dpb::eviction_index(entries);
            lemma_eviction_index(entries);
            assert(entries[at].surface_idx != job.surf_idx);
        }
    }
}

/// The frame of a picture carries the time and the kind of the picture, and
/// is else as it was read back; a failure stays as it is.
pub proof fn lemma_label(
    outcome: Result<DecodedFrame, VideoError>,
    timestamp_us: u64,
    keyframe: bool,
)
    ensures
        outcome matches Ok(frame) ==> {
            &&& labelled(outcome, timestamp_us, keyframe) matches Ok(given)
            &&& given.timestamp_us == timestamp_us
            &&& given.keyframe == keyframe
            &&& given.width == frame.width
            &&& given.height == frame.height
            &&& given.rgb8_data == frame.rgb8_data
            &&& given.bit_depth == frame.bit_depth
            &&& given.rgb16_data == frame.rgb16_data
        },
        outcome is Err ==> labelled(outcome, timestamp_us, keyframe) == outcome,
{
}

/// What an H.264 NAL unit is for the decoder, by the type in its first byte:
/// 7 and 8 are parameter sets, 1 and 5 slices, and nothing else counts.
pub proof fn lemma_role_numbers(nal: Seq<u8>)
    ensures
        nal.len() == 0 ==> h264_role_of(nal) == H264Role::Ignored,
        nal.len() > 0 ==> {
            let kind = nal[0] as int % 32;
            &&& kind == 7 <==> h264_role_of(nal) == H264Role::Sps
            &&& kind == 8 <==> h264_role_of(nal) == H264Role::Pps
            &&& kind == 1 || kind == 5 <==> h264_role_of(nal) == H264Role::Slice
        },
{
}

/// The pool of a stream in numbers: two surfaces more than the references it
/// keeps, of which sixteen count at most, and four for a stream of which
/// nothing is known.
pub proof fn lemma_pool_numbers(sps: Sps)
    ensures
        sps.max_num_ref_frames <= 16 ==> ref_frames(&sps) == sps.max_num_ref_frames && pool_size(
            Some(sps),
        ) == sps.max_num_ref_frames + 2,
        sps.max_num_ref_frames > 16 ==> ref_frames(&sps) == 16 && pool_size(Some(sps)) == 18,
        pool_size(None) == 4,
{
}

/// Surfaces serve as long as width and height of the pictures stay; the first
/// stream changes nothing.
pub proof fn lemma_change_of_size(before: Sps, now: Sps)
    ensures
        !other_size(None, now),
        other_size(Some(before), now) <==> !(before.cropped_width == now.cropped_width
            && before.cropped_height == now.cropped_height),
{
}

/// The configuration is created anew for a stream of another profile (66 is
/// 13, 77 is 6, anything else 7), before the first surfaces and not after.
pub proof fn lemma_change_of_profile<S>(decoder: VaapiDecoder<S>, sps: Sps, pps: Option<Pps>)
    ensures
        ({
            let profile = if sps.profile_idc == 66 {
                13i32
            } else if sps.profile_idc == 77 {
                6i32
            } else {
                7i32
            };
            let change = decoder.profile_change(H264Unit::Sps(Some(sps)));
            &&& decoder.surfaces_created ==> change is None
            &&& decoder.h264_profile == profile ==> change is None
            &&& !decoder.surfaces_created && decoder.h264_profile != profile ==> change == Some(
                profile,
            )
        }),
        decoder.profile_change(H264Unit::Sps(None)) is None,
        decoder.profile_change(H264Unit::Pps(pps)) is None,
        decoder.profile_change(H264Unit::Slice) is None,
        decoder.profile_change(H264Unit::Ignored) is None,
{
}

/// A picture that does not come about leaves nothing: its surface is free
/// again, and everything else is as it was.
pub proof fn lemma_abandoned_picture<S>(
    after: VaapiDecoder<S>,
    before: VaapiDecoder<S>,
    surf: usize,
    k: int,
)
    requires
        after.has_abandoned(before, surf),
        surf < before.surface_in_use@.len(),
        0 <= k < before.surface_in_use@.len(),
    ensures
        !after.surface_in_use@[surf as int],
        k != surf ==> after.surface_in_use@[k] == before.surface_in_use@[k],
        after.surface_in_use@.len() == before.surface_in_use@.len(),
        after.dpb == before.dpb,
        after.surfaces == before.surfaces,
        after.sps == before.sps,
        after.pps == before.pps,
        after.current_surface_idx == before.current_surface_idx,
        after.frame_counter == before.frame_counter,
{
}

/// Between two pictures only the buffer and the surface flags change: the
/// stream, the driver's objects and the counters stay.
pub proof fn lemma_only_the_pool_changes<S>(after: VaapiDecoder<S>, before: VaapiDecoder<S>)
    requires
        after.same_but_pool(before),
    ensures
        after.codec == before.codec,
        after.node == before.node,
        after.display == before.display,
        after.config == before.config,
        after.context == before.context,
        after.surfaces == before.surfaces,
        after.width == before.width,
        after.height == before.height,
        after.initialized == before.initialized,
        after.surfaces_created == before.surfaces_created,
        after.sw_fallback == before.sw_fallback,
        after.sps == before.sps,
        after.pps == before.pps,
        after.current_surface_idx == before.current_surface_idx,
        after.frame_counter == before.frame_counter,
        after.h264_profile == before.h264_profile,
{
}

/// A pool with two surfaces more than the buffer may hold pictures.
pub proof fn lemma_spare_surfaces<S>(decoder: VaapiDecoder<S>)
    ensures
        decoder.roomy() <==> decoder.surfaces@.len() - decoder.dpb.max_size == 2,
{
}

/// After a picture that was decoded: a reference, told by the two bits above
/// the type in the first byte of its slice, is the last of the buffer, on the
/// current surface and under its own frame number; a picture that refreshes
/// and is none leaves the buffer empty.
pub proof fn lemma_after_a_picture<S>(
    after: VaapiDecoder<S>,
    before: VaapiDecoder<S>,
    first: u8,
    sh: SliceHeader,
    frame: DecodedFrame,
    r: Result<Option<DecodedFrame>, VideoError>,
)
    requires
        after.took_over(before, first, sh, Ok(frame), r),
    ensures
        r == Ok::<Option<DecodedFrame>, VideoError>(Some(frame)),
        (first as int / 32) % 4 != 0 ==> {
            let last = after.dpb.entries@.last();
            let is_idr = first as int % 32 == 5;
            &&& after.dpb.entries@.len() > 0
            &&& last.surface_idx == after.current_surface_idx
            &&& last.frame_num == sh.frame_num
            &&& last.top_poc == before.dpb.top_poc(&before.sps->0, &sh, is_idr)
            &&& last.bottom_poc == before.dpb.bottom_poc(&before.sps->0, &sh, is_idr)
            &&& last.is_reference && !last.is_long_term
        },
        (first as int / 32) % 4 == 0 && first as int % 32 == 5 ==> after.dpb.entries@.len() == 0,
{
}

/// Without a free surface there is no picture, and nothing changes: the
/// buffer was not full, so that no picture could leave it.
pub proof fn lemma_no_surface_for_a_picture<S>(after: VaapiDecoder<S>, before: VaapiDecoder<S>)
    requires
        before.wf(),
        after.has_no_surface(before),
        first_free(before.pool_for_next().1) is None,
    ensures
        after.sps == before.sps,
        after.pps == before.pps,
        after.surfaces == before.surfaces,
        after.frame_counter == before.frame_counter,
        after.dpb.max_size == before.dpb.max_size,
        after.dpb.prev_poc_msb == before.dpb.prev_poc_msb,
        after.dpb.prev_poc_lsb == before.dpb.prev_poc_lsb,
        after.dpb.poc_counter == before.dpb.poc_counter,
        after.dpb.entries@ == before.dpb.entries@,
        after.surface_in_use@ == before.surface_in_use@,
        before.dpb.entries@.len() < before.dpb.max_size || before.dpb.entries@.len() == 0,
{
    let in_use = before.surface_in_use@;
    lemma_first_free(in_use);
    lemma_first_free(before.pool_for_next().1);
    if before.dpb.entries@.len() >= before.dpb.max_size && before.dpb.entries@.len() > 0 {
        let at = crate::vaapi::dpb::eviction_index(before.dpb.entries@);
        lemma_eviction_index(before.dpb.entries@);
        let k = before.dpb.entries@[at].surface_idx as int;
        assert(k < in_use.len());
        assert(before.pool_for_next().1[k]);
    }
}

} // verus!
