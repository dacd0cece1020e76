use hw_decode::backend::{SoftwareDecoder, VideoDecoder};
use hw_decode::media::{DecodedFrame, NalUnit, VideoCodec, VideoError};
use hw_decode::vaapi::decoder::{PictureJob, VaapiDecoder};
use hw_decode::vaapi::legacy::LegacyStep;
use hw_decode::vaapi::open::{VaOpenReply, VaOpening};
use hw_decode::vaapi::params::{Pps, SliceHeader, Sps, VA_INVALID_ID};
use hw_decode::vaapi::picture_run::{PictureRun, PictureStep, VaCall};
use hw_decode::vaapi::readback::{ReadbackStep, VAImage};
use hw_decode::vaapi::surfaces::{
    h264_role, H264Plan, H264Role, H264Scan, H264Unit, SurfaceRequest,
};

struct Cpu {
    kind: SoftwareDecoder,
    fed: usize,
}

impl VideoDecoder for Cpu {
    fn codec(&self) -> VideoCodec {
        match self.kind {
            SoftwareDecoder::H264 => VideoCodec::H264,
            SoftwareDecoder::Hevc => VideoCodec::H265,
        }
    }

    fn decode(&mut self, data: &[u8], ts: u64) -> Result<Option<DecodedFrame>, VideoError> {
        self.fed += data.len();
        Ok(Some(DecodedFrame::rgb8(0, 0, Vec::new(), ts, false)))
    }

    fn flush(&mut self) -> Result<Vec<DecodedFrame>, VideoError> {
        Err(VideoError::codec("cpu flush"))
    }
}

fn cpu(kind: SoftwareDecoder) -> Cpu {
    Cpu { kind, fed: 0 }
}

fn sps(refs: u32, width: usize) -> Sps {
    Sps {
        profile_idc: 100,
        level_idc: 40,
        chroma_format_idc: 1,
        bit_depth_luma: 8,
        bit_depth_chroma: 8,
        log2_max_frame_num: 4,
        pic_order_cnt_type: 0,
        log2_max_pic_order_cnt_lsb: 8,
        max_num_ref_frames: refs,
        pic_width_in_mbs: 4,
        pic_height_in_map_units: 4,
        frame_mbs_only_flag: true,
        mb_adaptive_frame_field_flag: false,
        scaling_list_4x4: [[16; 16]; 6],
        scaling_list_8x8: [[16; 64]; 6],
        cropped_width: width,
        cropped_height: 64,
    }
}

fn pps() -> Pps {
    Pps {
        entropy_coding_mode_flag: true,
        weighted_pred_flag: false,
        weighted_bipred_idc: 0,
        transform_8x8_mode_flag: false,
        deblocking_filter_control_present_flag: false,
        pic_init_qp: 26,
    }
}

fn header(frame_num: u32, lsb: u32) -> SliceHeader {
    SliceHeader {
        first_mb_in_slice: 0,
        slice_type: 5,
        frame_num,
        field_pic_flag: false,
        pic_order_cnt_lsb: lsb,
        delta_pic_order_cnt_bottom: 0,
        direct_spatial_mv_pred_flag: false,
        num_ref_idx_l0_active_minus1: 0,
        num_ref_idx_l1_active_minus1: 0,
        cabac_init_idc: 0,
        slice_qp_delta: 0,
        disable_deblocking_filter_idc: 0,
        slice_alpha_c0_offset_div2: 0,
        slice_beta_offset_div2: 0,
        weight_table: None,
        header_bit_len: 0,
    }
}

fn opened(codec: VideoCodec, profile: i32) -> VaapiDecoder<Cpu> {
    VaapiDecoder::new(codec, VaOpening::Opened(profile), 3, 0x1000, 5, cpu).unwrap()
}

/// A decoder with surfaces 100, 101 and so on.
fn ready(refs: u32) -> VaapiDecoder<Cpu> {
    let mut d = opened(VideoCodec::H264, 7);
    d.sps = Some(sps(refs, 64));
    d.pps = Some(pps());
    let request = d.h264_surfaces().unwrap().unwrap();
    d.on_surfaces(0, (0..request.count).map(|i| 100 + i).collect()).unwrap();
    assert!(d.on_context(0, 9).is_ok());
    d
}

fn frame() -> DecodedFrame {
    DecodedFrame::rgb8(1, 1, vec![1, 2, 3], 0, false)
}

const IDR: u8 = 0x65;
const REF: u8 = 0x41;
const NON_REF: u8 = 0x01;

fn decode(d: &mut VaapiDecoder<Cpu>, first: u8, frame_num: u32, lsb: u32) -> usize {
    let surf = d.start_picture().unwrap();
    let job = d.begin_picture(surf, first, &header(frame_num, lsb));
    assert!(d.finish_picture(&job, Ok(frame())).unwrap().is_some());
    surf
}

#[test]
fn opening_takes_six_steps() {
    let mut o = VaOpening::LoadLibva;
    o = o.on_reply(VideoCodec::H264, VaOpenReply::Loaded(true));
    assert_eq!(o, VaOpening::LoadLibvaDrm);
    o = o.on_reply(VideoCodec::H264, VaOpenReply::Loaded(true));
    assert_eq!(o, VaOpening::OpenNode);
    o = o.on_reply(VideoCodec::H264, VaOpenReply::FileDescriptor(0));
    assert_eq!(o, VaOpening::GetDisplay);
    o = o.on_reply(VideoCodec::H264, VaOpenReply::Display(0x1000));
    assert_eq!(o, VaOpening::Initialize);
    o = o.on_reply(VideoCodec::H264, VaOpenReply::Status(0));
    assert_eq!(o, VaOpening::CreateConfig(7));
    o = o.on_reply(VideoCodec::H264, VaOpenReply::Status(0));
    assert_eq!(o, VaOpening::Opened(7));
}

#[test]
fn opening_can_fail_at_every_step() {
    let c = VideoCodec::H265;
    assert_eq!(
        VaOpening::LoadLibva.on_reply(c, VaOpenReply::Loaded(false)),
        VaOpening::Unavailable
    );
    assert_eq!(
        VaOpening::LoadLibvaDrm.on_reply(c, VaOpenReply::Loaded(false)),
        VaOpening::Unavailable
    );
    assert_eq!(
        VaOpening::OpenNode.on_reply(c, VaOpenReply::FileDescriptor(-1)),
        VaOpening::Unavailable
    );
    assert_eq!(
        VaOpening::GetDisplay.on_reply(c, VaOpenReply::Display(0)),
        VaOpening::CloseNode
    );
    assert_eq!(
        VaOpening::Initialize.on_reply(c, VaOpenReply::Status(1)),
        VaOpening::TerminateDisplay
    );
    assert_eq!(
        VaOpening::Initialize.on_reply(c, VaOpenReply::Status(0)),
        VaOpening::CreateConfig(12)
    );
    assert_eq!(
        VaOpening::CreateConfig(12).on_reply(c, VaOpenReply::Status(2)),
        VaOpening::TerminateDisplay
    );
    assert_eq!(
        VaOpening::Initialize.on_reply(VideoCodec::Other("Av1"), VaOpenReply::Status(0)),
        VaOpening::Unsupported
    );
}

#[test]
fn failed_opening_leaves_nothing() {
    for o in [VaOpening::TerminateDisplay, VaOpening::Unsupported] {
        assert!(o.terminates_display() && o.closes_node());
    }
    assert!(!VaOpening::CloseNode.terminates_display() && VaOpening::CloseNode.closes_node());
    for o in [VaOpening::Unavailable, VaOpening::Opened(7)] {
        assert!(!o.terminates_display() && !o.closes_node());
    }
}

#[test]
fn opened_driver_gives_a_fresh_decoder() {
    let d = opened(VideoCodec::H265, 12);
    assert_eq!((d.node, d.display, d.config, d.h264_profile), (3, 0x1000, 5, 12));
    assert!(d.initialized && !d.surfaces_created && d.sw_fallback.is_none());
    assert_eq!(d.dpb.max_size, 16);
    assert_eq!(d.codec(), VideoCodec::H265);
}

#[test]
fn without_a_driver_the_stream_goes_to_the_cpu() {
    let mut d = VaapiDecoder::new(VideoCodec::H265, VaOpening::Unavailable, -1, 0, 0, cpu).unwrap();
    assert_eq!(d.sw_fallback.as_ref().unwrap().kind, SoftwareDecoder::Hevc);
    assert!(!d.initialized && d.display == 0);
    let r = d.decode_on_cpu(&[1, 2, 3], 77).unwrap();
    assert_eq!(r.unwrap().unwrap().timestamp_us, 77);
    assert_eq!(d.sw_fallback.as_ref().unwrap().fed, 3);
    assert_eq!(d.flush().err().unwrap().message(), "cpu flush");
    let t = d.teardown();
    assert!(!t.terminate && t.config.is_none());
    let failed = VaapiDecoder::new(VideoCodec::H264, VaOpening::TerminateDisplay, 3, 0, 0, cpu);
    assert_eq!(failed.ok().unwrap().sw_fallback.unwrap().kind, SoftwareDecoder::H264);
}

#[test]
fn codec_without_decoder_does_not_open() {
    let r = VaapiDecoder::new(VideoCodec::Other("Av1"), VaOpening::Unavailable, -1, 0, 0, cpu);
    assert_eq!(r.err().unwrap().message(), "Unsupported codec");
    let r = VaapiDecoder::new(VideoCodec::Other("Av1"), VaOpening::Unsupported, 3, 0x1000, 0, cpu);
    assert_eq!(r.err().unwrap().message(), "Unsupported codec");
}

#[test]
fn driver_holds_no_frames_back() {
    let mut d = opened(VideoCodec::H264, 7);
    assert!(d.flush().unwrap().is_empty());
    assert!(d.decode_on_cpu(&[1], 0).is_none());
}

#[test]
fn units_have_roles() {
    let role = |b: &[u8]| h264_role(&NalUnit { data: b.to_vec() });
    assert_eq!(role(&[0x67]), H264Role::Sps);
    assert_eq!(role(&[0x68]), H264Role::Pps);
    assert_eq!(role(&[0x65]), H264Role::Slice);
    assert_eq!(role(&[0x41]), H264Role::Slice);
    assert_eq!(role(&[0x42]), H264Role::Ignored);
    assert_eq!(role(&[0x09]), H264Role::Ignored);
    assert_eq!(role(&[]), H264Role::Ignored);
}

#[test]
fn profile_changes_only_before_the_first_surfaces() {
    let mut d = opened(VideoCodec::H264, 7);
    let unit = H264Unit::Sps(Some(Sps { profile_idc: 66, ..sps(1, 64) }));
    assert_eq!(d.config_needed(&unit), Some(13));
    assert_eq!(d.config_needed(&H264Unit::Sps(Some(sps(1, 64)))), None);
    assert_eq!(d.config_needed(&H264Unit::Sps(None)), None);
    assert_eq!(d.config_needed(&H264Unit::Slice), None);
    assert_eq!(d.retire_config(), Some(5));
    assert_eq!(d.retire_config(), None);
    assert_eq!(
        d.on_config(13, 4, 0).err().unwrap().message(),
        "VA-API: vaCreateConfig failed: 4"
    );
    assert_eq!((d.config, d.h264_profile), (0, 7));
    d.on_config(13, 0, 6).unwrap();
    assert_eq!((d.config, d.h264_profile), (6, 13));
    assert_eq!(ready(1).config_needed(&unit), None);
}

#[test]
fn scanning_collects_slices_and_parameters() {
    let mut d = opened(VideoCodec::H264, 7);
    let mut scan = H264Scan::new();
    d.scan_unit(&mut scan, 0, H264Unit::Sps(Some(sps(1, 64))));
    d.scan_unit(&mut scan, 1, H264Unit::Pps(Some(pps())));
    d.scan_unit(&mut scan, 2, H264Unit::Slice);
    d.scan_unit(&mut scan, 3, H264Unit::Ignored);
    d.scan_unit(&mut scan, 4, H264Unit::Slice);
    d.scan_unit(&mut scan, 5, H264Unit::Sps(None));
    assert_eq!(scan.slices, vec![2, 4]);
    assert!(!scan.dimensions_changed);
    d.scan_unit(&mut scan, 6, H264Unit::Sps(Some(sps(1, 128))));
    assert!(scan.dimensions_changed);
    assert_eq!(d.sps.as_ref().unwrap().cropped_width, 128);
}

#[test]
fn access_unit_without_slices_has_no_picture() {
    let mut d = ready(1);
    let scan = H264Scan { slices: Vec::new(), dimensions_changed: true };
    assert!(matches!(d.plan(&scan), H264Plan::NoPicture));
    assert!(d.surfaces_created);
}

#[test]
fn new_size_retires_surfaces_and_pictures() {
    let mut d = ready(1);
    decode(&mut d, IDR, 0, 0);
    let scan = H264Scan { slices: vec![1], dimensions_changed: true };
    match d.plan(&scan) {
        H264Plan::Picture(Some(retired)) => {
            assert_eq!(retired.context, Some(9));
            assert_eq!(retired.surfaces.unwrap(), vec![100, 101, 102]);
        }
        _ => panic!("surfaces stay"),
    }
    assert!(!d.surfaces_created && d.surfaces.is_empty() && d.dpb.entries.is_empty());
    assert_eq!(d.context, 0);
    assert!(d.h264_surfaces().unwrap().is_some());
}

#[test]
fn same_size_keeps_surfaces() {
    let mut d = ready(1);
    let scan = H264Scan { slices: vec![1], dimensions_changed: false };
    assert!(matches!(d.plan(&scan), H264Plan::Picture(None)));
    assert!(d.h264_surfaces().unwrap().is_none());
}

#[test]
fn surfaces_follow_the_stream() {
    let mut d = opened(VideoCodec::H264, 7);
    assert_eq!(d.h264_surfaces().err().unwrap().message(), "no SPS");
    d.sps = Some(sps(30, 64));
    assert_eq!(
        d.h264_surfaces().unwrap(),
        Some(SurfaceRequest { width: 64, height: 64, count: 18 })
    );
    assert_eq!(d.dpb.max_size, 16);
    assert_eq!((d.width, d.height), (64, 64));
    let mut h = opened(VideoCodec::H265, 12);
    assert_eq!(h.fixed_surfaces(), Some(SurfaceRequest { width: 1920, height: 1080, count: 4 }));
}

#[test]
fn failed_surfaces_and_contexts() {
    let mut d = opened(VideoCodec::H265, 12);
    d.fixed_surfaces().unwrap();
    assert_eq!(
        d.on_surfaces(-2, vec![0; 4]).err().unwrap().message(),
        "VA-API: vaCreateSurfaces failed: -2"
    );
    assert!(!d.surfaces_created && d.surfaces.is_empty());
    d.on_surfaces(0, vec![1, 2, 3, 4]).unwrap();
    let f = d.on_context(3, 0).err().unwrap();
    assert_eq!(f.error.message(), "VA-API: vaCreateContext failed: 3");
    assert_eq!(f.surfaces, vec![1, 2, 3, 4]);
    assert!(d.surfaces.is_empty() && d.surface_in_use.is_empty());
    assert!(!d.surfaces_created && d.fixed_surfaces().is_some());
    d.on_surfaces(0, vec![5, 6, 7, 8]).unwrap();
    assert!(d.on_context(0, 8).is_ok());
    assert!(d.surfaces_created && d.fixed_surfaces().is_none());
    assert_eq!(d.surface_in_use, vec![false; 4]);
}

#[test]
fn pictures_need_both_parameter_sets() {
    let mut d = opened(VideoCodec::H264, 7);
    assert_eq!(d.start_picture().err().unwrap().message(), "no SPS");
    d.sps = Some(sps(1, 64));
    assert_eq!(d.start_picture().err().unwrap().message(), "no PPS");
    d.pps = Some(pps());
    assert_eq!(d.start_picture().err().unwrap().message(), "no free surface");
}

#[test]
fn references_stay_and_others_free_their_surface() {
    let mut d = ready(2);
    assert_eq!(decode(&mut d, IDR, 0, 0), 0);
    assert_eq!(d.surface_in_use, vec![true, false, false, false]);
    assert_eq!(decode(&mut d, NON_REF, 1, 2), 1);
    assert_eq!(d.surface_in_use, vec![true, false, false, false]);
    assert_eq!(decode(&mut d, REF, 1, 4), 1);
    assert_eq!(decode(&mut d, REF, 2, 6), 2);
    assert_eq!(d.surface_in_use, vec![false, true, true, false]);
    assert_eq!(d.frame_counter, 4);
    assert_eq!(d.current_surface_idx, 2);
    assert_eq!(decode(&mut d, IDR, 0, 0), 0);
    assert_eq!(d.surface_in_use, vec![true, false, false, false]);
    assert_eq!(d.dpb.entries.len(), 1);
}

#[test]
fn pool_never_runs_dry() {
    for refs in [0, 1, 3, 16] {
        let mut d = ready(refs);
        for i in 0..60u32 {
            decode(&mut d, if i % 7 == 0 { IDR } else { REF }, i, (2 * i) % 256);
            let in_use = d.surface_in_use.iter().filter(|u| **u).count();
            assert_eq!(in_use, d.dpb.entries.len());
            assert!(d.dpb.entries.len() <= refs.max(1) as usize);
        }
    }
}

#[test]
fn failed_picture_frees_its_surface() {
    let mut d = ready(1);
    let surf = d.start_picture().unwrap();
    let job = d.begin_picture(surf, IDR, &header(0, 0));
    let r = d.finish_picture(&job, Err(VideoError::codec("lost")));
    assert_eq!(r.err().unwrap().message(), "lost");
    assert_eq!(d.surface_in_use, vec![false; 3]);
    assert_eq!(d.frame_counter, 0);
}

#[test]
fn whole_pictures_keep_the_surfaces() {
    let mut d = ready(1);
    let run = |idr: bool| {
        move |_: &VaapiDecoder<Cpu>, job: &PictureJob| {
            assert_eq!(job.is_idr, idr);
            Ok(frame())
        }
    };
    let f = d.decode_picture(IDR, 40, |_| Ok(header(0, 0)), run(true)).unwrap().unwrap();
    assert_eq!((f.timestamp_us, f.keyframe), (40, true));
    assert_eq!(d.surface_in_use, vec![true, false, false]);
    assert_eq!((d.dpb.entries[0].surface_idx, d.dpb.entries[0].frame_num), (0, 0));
    assert_eq!(f.rgb8_data, vec![1, 2, 3]);
    let f = d.decode_picture(NON_REF, 41, |_| Ok(header(1, 2)), run(false)).unwrap().unwrap();
    assert_eq!((f.timestamp_us, f.keyframe), (41, false));
    assert_eq!(d.surface_in_use, vec![true, false, false]);
    assert_eq!(d.frame_counter, 2);
    let lost = |_: &VaapiDecoder<Cpu>, _: &PictureJob| Err(VideoError::codec("lost"));
    let r = d.decode_picture(REF, 40, |_| Ok(header(1, 4)), lost);
    assert_eq!(r.err().unwrap().message(), "lost");
    assert_eq!(d.surface_in_use, vec![true, false, false]);
    let r = d.decode_picture(REF, 40, |_| Err(VideoError::codec("bad header")), lost);
    assert_eq!(r.err().unwrap().message(), "bad header");
    assert_eq!(d.surface_in_use, vec![true, false, false]);
    d.decode_picture(REF, 40, |_| Ok(header(1, 6)), run(false)).unwrap();
    assert_eq!(d.surface_in_use, vec![false, true, false]);
    assert_eq!((d.dpb.entries.len(), d.dpb.entries[0].top_poc), (1, 6));
    d.pps = None;
    let r = d.decode_picture(REF, 40, |_| Ok(header(1, 6)), lost);
    assert_eq!(r.err().unwrap().message(), "no PPS");
}

#[test]
fn whole_pictures_keep_what_they_do_not_touch() {
    let mut d = ready(3);
    for i in 0..5u32 {
        let first = if i == 0 { IDR } else { REF };
        let run = |_: &VaapiDecoder<Cpu>, _: &PictureJob| Ok(frame());
        d.decode_picture(first, 0, |_| Ok(header(i, 4 * i)), run).unwrap();
    }
    let kept: Vec<u32> = d.dpb.entries.iter().map(|e| e.frame_num).collect();
    assert_eq!(kept, vec![2, 3, 4]);
    assert_eq!((d.dpb.prev_poc_lsb, d.dpb.prev_poc_msb, d.frame_counter), (16, 0, 5));
    assert!(d.sps.is_some() && d.pps.is_some() && d.sw_fallback.is_none());
    assert_eq!((d.node, d.display, d.config, d.context), (3, 0x1000, 5, 9));
    d.surface_in_use = vec![true; 5];
    d.dpb.max_size = 16;
    let run = |_: &VaapiDecoder<Cpu>, _: &PictureJob| Ok(frame());
    let r = d.decode_picture(REF, 0, |_| Ok(header(5, 20)), run);
    assert_eq!(r.err().unwrap().message(), "no free surface");
    assert_eq!((d.dpb.entries.len(), d.frame_counter), (3, 5));
}

#[test]
fn decoder_without_parameters_needs_no_surfaces() {
    let mut d = VaapiDecoder::with_sw_fallback(VideoCodec::H264, cpu).unwrap();
    let run = |_: &VaapiDecoder<Cpu>, _: &PictureJob| Ok(frame());
    let r = d.decode_picture(IDR, 0, |_| Ok(header(0, 0)), run);
    assert_eq!(r.err().unwrap().message(), "no SPS");
    assert_eq!(d.frame_counter, 0);
    assert!(d.dpb.entries.is_empty() && d.surface_in_use.is_empty());
}

#[test]
fn full_pool_lets_a_reference_go() {
    let mut d = ready(1);
    decode(&mut d, IDR, 0, 0);
    d.surface_in_use[1] = true;
    d.surface_in_use[2] = true;
    assert_eq!(d.start_picture().unwrap(), 0);
    assert!(d.dpb.entries.is_empty());
    assert_eq!(d.start_picture().err().unwrap().message(), "no free surface");
}

#[test]
fn job_describes_the_picture() {
    let mut d = ready(2);
    decode(&mut d, IDR, 0, 0);
    let surf = d.start_picture().unwrap();
    let job = d.begin_picture(surf, REF, &header(1, 6));
    assert_eq!((job.surf_idx, job.surface, job.nal_ref_idc), (1, 101, 2));
    assert!(!job.is_idr);
    assert_eq!((job.top_poc, job.bottom_poc, job.frame_num), (6, 6, 1));
    assert_eq!(job.pic_param.curr_pic.picture_id, 101);
    assert_eq!(job.pic_param.reference_frames[0].picture_id, 100);
    assert_eq!(job.pic_param.reference_frames[1].picture_id, VA_INVALID_ID);
    assert_eq!(job.iq_matrix.scaling_list_4x4[0][0], 16);
    let sp = d.slice_parameters(&header(1, 6), 77, job.top_poc);
    assert_eq!(sp.slice_data_size, 77);
    assert_eq!(sp.ref_pic_list0[0].picture_id, 100);
    assert_eq!(sp.ref_pic_list1[0].picture_id, VA_INVALID_ID);
}

fn run_to(run: &mut PictureRun, stop: PictureStep) {
    let mut next = 10;
    while run.step != stop {
        if matches!(run.step, PictureStep::ParseHeader(_)) {
            run.on_header();
        } else {
            run.on_reply(0, next).unwrap();
            next += 1;
        }
    }
}

#[test]
fn picture_goes_through_all_its_calls() {
    let mut run = PictureRun::new(2);
    let mut steps = Vec::new();
    while run.step != PictureStep::ReadBack {
        steps.push(run.step);
        match run.step {
            PictureStep::ParseHeader(_) => run.on_header(),
            PictureStep::RenderParameters => {
                assert_eq!(run.render_buffers(), [0, 1]);
                run.on_reply(0, 99).unwrap();
            }
            PictureStep::RenderSlice(i) => {
                assert_eq!(run.render_buffers(), [2 + 2 * i as u32, 3 + 2 * i as u32]);
                run.on_reply(0, 99).unwrap();
            }
            _ => run.on_reply(0, run.created.len() as u32).unwrap(),
        }
    }
    assert_eq!(
        steps,
        vec![
            PictureStep::CreatePictureParameter,
            PictureStep::CreateIqMatrix,
            PictureStep::BeginPicture,
            PictureStep::RenderParameters,
            PictureStep::ParseHeader(0),
            PictureStep::CreateSliceParameter(0),
            PictureStep::CreateSliceData(0),
            PictureStep::RenderSlice(0),
            PictureStep::ParseHeader(1),
            PictureStep::CreateSliceParameter(1),
            PictureStep::CreateSliceData(1),
            PictureStep::RenderSlice(1),
            PictureStep::EndPicture,
        ]
    );
    assert_eq!(run.cleanup(), (0..6).map(VaCall::DestroyBuffer).collect::<Vec<_>>());
}

#[test]
fn every_call_names_itself_when_it_fails() {
    let cases = [
        (PictureStep::CreatePictureParameter, "vaCreateBuffer(PictureParameter)", false, 0),
        (PictureStep::CreateIqMatrix, "vaCreateBuffer(IQMatrix)", false, 1),
        (PictureStep::BeginPicture, "vaBeginPicture", false, 2),
        (PictureStep::RenderParameters, "vaRenderPicture(params)", true, 2),
        (PictureStep::CreateSliceParameter(0), "vaCreateBuffer(SliceParameter)", true, 2),
        (PictureStep::CreateSliceData(0), "vaCreateBuffer(SliceData)", true, 3),
        (PictureStep::RenderSlice(0), "vaRenderPicture(slice)", true, 4),
        (PictureStep::EndPicture, "vaEndPicture", true, 4),
    ];
    for (step, name, open, buffers) in cases {
        let mut run = PictureRun::new(1);
        run_to(&mut run, step);
        let text = run.on_reply(7, 0).err().unwrap();
        assert_eq!(text.message(), format!("VA-API: {name} failed: 7"));
        assert_eq!(run.step, step);
        let calls = run.cleanup();
        assert_eq!(calls.contains(&VaCall::EndPicture), open);
        assert_eq!(calls.len(), buffers + open as usize);
        if open {
            assert_eq!(calls[0], VaCall::EndPicture);
        }
    }
}

#[test]
fn picture_without_slices_ends_at_once() {
    let mut run = PictureRun::new(0);
    run_to(&mut run, PictureStep::EndPicture);
    run.on_reply(0, 0).unwrap();
    assert_eq!(run.step, PictureStep::ReadBack);
}

fn image() -> VAImage {
    VAImage {
        image_id: 3,
        buf: 4,
        width: 2,
        height: 2,
        y_pitch: 3,
        uv_pitch: 4,
        uv_offset: 8,
    }
}

#[test]
fn reading_back_derives_maps_and_converts() {
    let s = ReadbackStep::SyncSurface;
    let s = s.on_reply(0, image()).ok().unwrap();
    assert_eq!(s, ReadbackStep::DeriveImage);
    let s = s.on_reply(0, image()).ok().unwrap();
    assert_eq!(s, ReadbackStep::MapBuffer(image()));
    let s = s.on_reply(0, image()).ok().unwrap();
    assert_eq!(s, ReadbackStep::Convert(image()));
    assert_eq!(image().extent(), Some(10));
    let f = image().frame(&[16, 16, 0, 235, 235, 0, 0, 0, 128, 128], 9, true);
    assert_eq!(f.rgb8_data, vec![0, 0, 0, 0, 0, 0, 255, 255, 255, 255, 255, 255]);
    assert_eq!((f.width, f.height, f.timestamp_us, f.keyframe), (2, 2, 9, true));
    assert_eq!(image().release(), vec![VaCall::UnmapBuffer(4), VaCall::DestroyImage(3)]);
}

#[test]
fn reading_back_can_fail() {
    let f = ReadbackStep::SyncSurface.on_reply(1, image()).err().unwrap();
    assert_eq!(f.error.message(), "VA-API: vaSyncSurface failed: 1");
    assert!(f.cleanup.is_empty());
    let f = ReadbackStep::DeriveImage.on_reply(2, image()).err().unwrap();
    assert_eq!(f.error.message(), "VA-API: vaDeriveImage failed: 2");
    assert!(f.cleanup.is_empty());
    let f = ReadbackStep::MapBuffer(image()).on_reply(3, image()).err().unwrap();
    assert_eq!(f.error.message(), "VA-API: vaMapBuffer failed: 3");
    assert_eq!(f.cleanup, vec![VaCall::DestroyImage(3)]);
}

#[test]
fn single_buffer_pictures() {
    let s = LegacyStep::BeginPicture.on_reply(0, 0).ok().unwrap();
    let s = s.on_reply(0, 6).ok().unwrap();
    assert_eq!(s, LegacyStep::Render(6));
    let s = s.on_reply(0, 0).ok().unwrap();
    let s = s.on_reply(0, 0).ok().unwrap();
    assert_eq!(s, LegacyStep::ReadBack(6));
    assert_eq!(s.after_readback(), vec![VaCall::DestroyBuffer(6)]);
    let failed = |s: LegacyStep| s.on_reply(-1, 0).err().unwrap();
    let f = failed(LegacyStep::BeginPicture);
    assert_eq!(f.error.message(), "VA-API: vaBeginPicture failed: -1");
    assert!(f.cleanup.is_empty());
    let f = failed(LegacyStep::CreateSliceData);
    assert_eq!(f.error.message(), "VA-API: vaCreateBuffer(SliceData) failed: -1");
    assert_eq!(f.cleanup, vec![VaCall::EndPicture]);
    let f = failed(LegacyStep::Render(6));
    assert_eq!(f.error.message(), "VA-API: vaRenderPicture failed: -1");
    assert_eq!(f.cleanup, vec![VaCall::DestroyBuffer(6), VaCall::EndPicture]);
    let f = failed(LegacyStep::EndPicture(6));
    assert_eq!(f.error.message(), "VA-API: vaEndPicture failed: -1");
    assert_eq!(f.cleanup, vec![VaCall::DestroyBuffer(6)]);
}

#[test]
fn single_buffer_pictures_use_the_current_surface() {
    let mut d = ready(1);
    assert_eq!(d.legacy_surface(), 100);
    d.current_surface_idx = 4;
    assert_eq!(d.legacy_surface(), 101);
}

#[test]
fn teardown_releases_what_there_is() {
    let mut d = ready(1);
    let t = d.teardown();
    assert_eq!((t.context, t.config, t.terminate), (Some(9), Some(5), true));
    assert_eq!(t.node, Some(3));
    assert_eq!(t.surfaces.unwrap(), vec![100, 101, 102]);
    let mut d = opened(VideoCodec::H264, 7);
    d.config = 0;
    d.node = -1;
    let t = d.teardown();
    assert_eq!((t.context, t.config, t.terminate, t.node), (None, None, true, None));
    assert!(t.surfaces.is_none());
}
