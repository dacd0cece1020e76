use hw_decode::backend::{SoftwareDecoder, VideoDecoder};
use hw_decode::media::{DecodedFrame, VideoCodec, VideoError};
use hw_decode::media_foundation::com::{
    probe_hevc, Dxva, MfCall, MFT_MESSAGE_COMMAND_FLUSH, MFT_MESSAGE_NOTIFY_BEGIN_STREAMING,
    MFT_MESSAGE_NOTIFY_START_OF_STREAM, MFT_MESSAGE_SET_D3D_MANAGER, MF_E_NOTACCEPTING,
    MF_E_TRANSFORM_NEED_MORE_INPUT, MF_E_TRANSFORM_STREAM_CHANGE,
};
use hw_decode::media_foundation::decoder::MediaFoundationDecoder;
use hw_decode::media_foundation::extract::{
    on_dxva_buffer, on_dxva_interface, DxvaNext, DxvaStep, SoftwareStep, StagingRequest,
};
use hw_decode::media_foundation::geometry::{
    has_aperture, read_aperture, says_size, Aperture, Window,
};
use hw_decode::media_foundation::open::{can_protect, MfOpenStep, MfOpening};
use hw_decode::media_foundation::run::{input_size, on_flushed, sample_time, MfRun, MfStep};
use hw_decode::media_foundation::types::{input_subtype, judge, nv12_subtype, Candidate};

const FAIL: i32 = -2147467259;

struct Cpu {
    kind: SoftwareDecoder,
}

impl VideoDecoder for Cpu {
    fn codec(&self) -> VideoCodec {
        VideoCodec::H264
    }

    fn decode(&mut self, data: &[u8], _ts: u64) -> Result<Option<DecodedFrame>, VideoError> {
        Ok(Some(DecodedFrame::rgb8(data.len(), 0, Vec::new(), 0, false)))
    }

    fn flush(&mut self) -> Result<Vec<DecodedFrame>, VideoError> {
        Ok(vec![frame(3)])
    }
}

fn cpu(kind: SoftwareDecoder) -> Cpu {
    Cpu { kind }
}

fn frame(timestamp_us: u64) -> DecodedFrame {
    DecodedFrame::rgb8(1, 1, vec![1, 2, 3], timestamp_us, false)
}

fn release(object: usize) -> MfCall {
    MfCall::Release(object)
}

/// An opening whose transform, object 4, has been created without Direct3D.
fn with_transform(codec: VideoCodec) -> MfOpening {
    let mut o = MfOpening::new(codec);
    o.on_startup(0);
    o.on_device(FAIL, 0, 0);
    o.on_listed(FAIL, Vec::new());
    o.on_transform(0, 4);
    o
}

fn ready(provides_samples: bool) -> MediaFoundationDecoder<Cpu> {
    let mut o = with_transform(VideoCodec::H264);
    o.on_input_type(0, 5, Some(input_subtype(VideoCodec::H264)));
    o.on_set_input(0);
    o.on_output_type(0, 6, Some(nv12_subtype()));
    o.on_set_output(0, Some((64 << 32) | 32));
    o.on_stream_info(0, if provides_samples { 0x100 } else { 0 }, 1000);
    MediaFoundationDecoder::new(&o, cpu).ok().unwrap()
}

fn text(step: &MfStep) -> String {
    match step {
        MfStep::Done(Err(error)) => error.message().to_string(),
        _ => panic!("not failed"),
    }
}

#[test]
fn opening_without_direct3d() {
    let mut o = MfOpening::new(VideoCodec::H265);
    o.on_startup(0);
    assert_eq!(o.step, MfOpenStep::CreateDevice);
    assert_eq!(o.on_device(0, 1, 0), vec![release(1)]);
    assert_eq!(o.step, MfOpenStep::EnumTransforms);
    assert!(o.on_listed(0, Vec::new()).is_empty());
    assert_eq!(o.step, MfOpenStep::CreateTransform);
    assert!(o.on_transform(0, 4).is_empty());
    assert_eq!(o.step, MfOpenStep::FindInput(0));
    assert_eq!(o.on_input_type(0, 5, Some(nv12_subtype())), vec![release(5)]);
    assert_eq!(o.on_input_type(0, 6, None), vec![release(6)]);
    assert_eq!(o.step, MfOpenStep::FindInput(2));
    assert!(o.on_input_type(0, 7, Some(input_subtype(VideoCodec::H265))).is_empty());
    assert_eq!(o.step, MfOpenStep::SetInput(7));
    assert_eq!(o.on_set_input(0), vec![release(7)]);
    assert!(o.on_output_type(0, 8, Some(nv12_subtype())).is_empty());
    assert_eq!(o.on_set_output(0, Some((1920 << 32) | 1080)), vec![release(8)]);
    assert_eq!((o.width, o.height), (1920, 1080));
    assert_eq!(
        o.on_stream_info(0, 0x107, 77),
        vec![
            MfCall::Message(MFT_MESSAGE_NOTIFY_BEGIN_STREAMING),
            MfCall::Message(MFT_MESSAGE_NOTIFY_START_OF_STREAM)
        ]
    );
    assert_eq!(o.step, MfOpenStep::Ready);
    assert!(o.provides_samples && o.output_buf_size == 77);
}

#[test]
fn opening_with_direct3d() {
    let mut o = MfOpening::new(VideoCodec::H264);
    o.on_startup(0);
    assert!(o.on_device(0, 1, 2).is_empty());
    assert!(o.on_manager(0, 3, 9).is_empty());
    assert!(o.on_reset(0).is_empty());
    assert!(o.on_listed(0, vec![7, 8]).is_empty());
    assert_eq!(o.step, MfOpenStep::Activate(7));
    assert_eq!(o.on_activated(0, 4), vec![release(7), release(8)]);
    assert_eq!(o.step, MfOpenStep::SetManager);
    assert!(o.on_set_manager(0).is_empty());
    assert!(o.dxva_enabled);
    o.on_input_type(0, 5, Some(input_subtype(VideoCodec::H264)));
    o.on_set_input(0);
    o.on_output_type(0, 6, Some(nv12_subtype()));
    o.on_set_output(0, None);
    o.on_stream_info(FAIL, 0x100, 5);
    assert!(!o.provides_samples && o.output_buf_size == 0);
    let d = MediaFoundationDecoder::new(&o, cpu).ok().unwrap();
    assert_eq!(d.dxva, Dxva { device: 1, context: 2, manager: 3, reset_token: 9 });
    assert_eq!(
        d.teardown(),
        vec![
            MfCall::Message(MFT_MESSAGE_SET_D3D_MANAGER),
            MfCall::Message(MFT_MESSAGE_COMMAND_FLUSH),
            release(4),
            release(3),
            release(2),
            release(1),
            MfCall::Shutdown
        ]
    );
    assert!(can_protect(0, 1) && !can_protect(0, 0) && !can_protect(FAIL, 1));
}

#[test]
fn direct3d_can_fail_at_every_step() {
    let start = |steps: usize| {
        let mut o = MfOpening::new(VideoCodec::H264);
        o.on_startup(0);
        if steps > 0 {
            o.on_device(0, 1, 2);
        }
        if steps > 1 {
            o.on_manager(0, 3, 9);
        }
        o
    };
    let mut o = start(0);
    assert_eq!(o.on_device(FAIL, 1, 2), vec![release(1), release(2)]);
    assert_eq!((o.step, o.dxva), (MfOpenStep::EnumTransforms, Dxva::none()));
    let mut o = start(1);
    assert_eq!(o.on_manager(FAIL, 0, 0), vec![release(1), release(2)]);
    assert_eq!((o.step, o.dxva), (MfOpenStep::EnumTransforms, Dxva::none()));
    let mut o = start(2);
    assert_eq!(o.on_reset(FAIL), vec![release(3), release(1), release(2)]);
    assert_eq!((o.step, o.dxva), (MfOpenStep::EnumTransforms, Dxva::none()));
    let mut o = start(2);
    o.on_reset(0);
    o.on_listed(FAIL, Vec::new());
    assert_eq!(
        o.on_transform(FAIL, 0),
        vec![release(3), release(2), release(1), MfCall::Shutdown]
    );
    assert_eq!(o.step, MfOpenStep::Fallback);
    let mut o = start(2);
    o.on_reset(0);
    o.on_listed(FAIL, Vec::new());
    o.on_transform(0, 4);
    assert_eq!(o.on_set_manager(FAIL), vec![release(3), release(2), release(1)]);
    assert!(!o.dxva_enabled && o.dxva == Dxva::none());
    assert_eq!(o.step, MfOpenStep::FindInput(0));
    assert_eq!(o.on_input_type(FAIL, 0, None), vec![release(4), MfCall::Shutdown]);
}

#[test]
fn opening_with_direct3d_is_given_up() {
    let mut o = MfOpening::new(VideoCodec::H264);
    o.on_startup(0);
    o.on_device(0, 1, 2);
    o.on_manager(0, 3, 9);
    o.on_reset(0);
    o.on_listed(0, vec![7]);
    o.on_activated(0, 4);
    o.on_set_manager(0);
    assert_eq!(
        o.on_input_type(FAIL, 0, None),
        vec![release(3), release(2), release(1), release(4), MfCall::Shutdown]
    );
    assert_eq!((o.step, o.dxva, o.transform), (MfOpenStep::Fallback, Dxva::none(), 0));
}

#[test]
fn listed_transforms_are_tried_in_turn() {
    let mut o = MfOpening::new(VideoCodec::H264);
    o.on_startup(0);
    o.on_device(FAIL, 0, 0);
    o.on_listed(0, vec![7, 8, 9]);
    assert_eq!(o.on_activated(FAIL, 0), vec![release(7)]);
    assert_eq!(o.step, MfOpenStep::Activate(8));
    assert_eq!(o.on_activated(0, 4), vec![release(8), release(9)]);
    assert_eq!((o.step, o.transform), (MfOpenStep::FindInput(0), 4));
    let mut o = MfOpening::new(VideoCodec::H264);
    o.on_startup(0);
    o.on_device(FAIL, 0, 0);
    o.on_listed(0, vec![7]);
    assert_eq!(o.on_activated(0, 0), vec![release(7)]);
    assert_eq!(o.step, MfOpenStep::CreateTransform);
    let mut o = MfOpening::new(VideoCodec::H264);
    o.on_startup(0);
    o.on_device(FAIL, 0, 0);
    assert_eq!(o.on_listed(FAIL, vec![7, 8]), vec![release(7), release(8)]);
}

#[test]
fn opening_is_given_up() {
    let given_up = vec![release(4), MfCall::Shutdown];
    let mut o = with_transform(VideoCodec::H264);
    assert_eq!(o.on_input_type(FAIL, 0, None), given_up);
    assert_eq!(o.step, MfOpenStep::Fallback);
    let mut o = with_transform(VideoCodec::H264);
    for _ in 0..63 {
        o.on_input_type(0, 5, None);
    }
    assert_eq!(
        o.on_input_type(0, 5, None),
        vec![release(5), release(4), MfCall::Shutdown]
    );
    assert_eq!(o.step, MfOpenStep::Fallback);
    let negotiated = || {
        let mut o = with_transform(VideoCodec::H264);
        o.on_input_type(0, 5, Some(input_subtype(VideoCodec::H264)));
        o
    };
    let mut o = negotiated();
    assert_eq!(o.on_set_input(FAIL), vec![release(5), release(4), MfCall::Shutdown]);
    let mut o = negotiated();
    o.on_set_input(0);
    assert_eq!(o.on_output_type(0, 0, None), given_up);
    let mut o = negotiated();
    o.on_set_input(0);
    o.on_output_type(0, 6, Some(nv12_subtype()));
    assert_eq!(o.on_set_output(FAIL, None), vec![release(6), release(4), MfCall::Shutdown]);
    assert_eq!(o.step, MfOpenStep::Fallback);
    let d = MediaFoundationDecoder::new(&o, cpu).ok().unwrap();
    assert_eq!(d.sw_fallback.as_ref().unwrap().kind, SoftwareDecoder::H264);
    assert!(d.teardown().is_empty());
}

#[test]
fn platform_or_codec_can_be_missing() {
    let mut o = MfOpening::new(VideoCodec::Other("Av1"));
    o.on_startup(FAIL);
    let mut d = MediaFoundationDecoder::new(&o, cpu).ok().unwrap();
    assert_eq!(d.sw_fallback.as_ref().unwrap().kind, SoftwareDecoder::Hevc);
    assert_eq!(d.codec(), VideoCodec::Other("Av1"));
    assert_eq!(d.decode_on_cpu(&[1, 2, 3], 0).unwrap().unwrap().unwrap().width, 3);
    assert_eq!(d.begin_flush().unwrap().unwrap().len(), 1);
    let mut o = MfOpening::new(VideoCodec::Other("Av1"));
    assert_eq!(o.on_startup(0), vec![MfCall::Shutdown]);
    assert_eq!(
        MediaFoundationDecoder::new(&o, cpu).err().unwrap().message(),
        "MF: unsupported codec"
    );
}

#[test]
fn types_are_judged_by_their_subtype() {
    let wanted = input_subtype(VideoCodec::H265);
    assert_eq!(&wanted[0..4], b"HEVC");
    assert_eq!(&nv12_subtype()[0..4], b"NV12");
    assert_eq!(judge(0, 1, &Some(wanted), &wanted), Candidate::Found);
    assert_eq!(judge(0, 1, &Some(nv12_subtype()), &wanted), Candidate::Other);
    assert_eq!(judge(0, 1, &None, &wanted), Candidate::Other);
    assert_eq!(judge(0, 0, &Some(wanted), &wanted), Candidate::End);
    assert_eq!(judge(FAIL, 1, &Some(wanted), &wanted), Candidate::End);
}

#[test]
fn probing_gives_the_object_up() {
    assert_eq!(probe_hevc(0, 5), (true, vec![release(5)]));
    assert_eq!(probe_hevc(FAIL, 5), (false, vec![release(5)]));
    assert_eq!(probe_hevc(0, 0), (false, vec![]));
}

/// A run that has fed sample 12 up to the answer of the transform.
fn fed(d: &MediaFoundationDecoder<Cpu>) -> MfRun {
    let mut run = d.begin_feed();
    run.on_input_buffer(0, 11);
    assert!(run.on_input_locked(0).is_empty());
    assert_eq!(run.on_input_sample(0, 12), vec![release(11)]);
    run
}

#[test]
fn access_unit_gives_a_frame() {
    let mut d = ready(false);
    let mut run = fed(&d);
    assert_eq!(d.on_fed(&mut run, 0), vec![release(12)]);
    assert!(matches!(run.step, MfStep::CreateOutputSample(1000)));
    assert!(run.on_output_sample(0, 21).is_empty());
    assert!(matches!(run.step, MfStep::CreateOutputBuffer(21, 1000)));
    assert!(d.on_output_buffer(&mut run, 0, 22).is_empty());
    assert_eq!((d.cached_sample, d.cached_buffer), (21, 22));
    assert!(matches!(run.step, MfStep::ProcessOutput(21)));
    assert_eq!(d.on_output(&mut run, 0, 21, 30), vec![release(30)]);
    assert!(matches!(run.step, MfStep::Extract { given: 21, sample: 21 }));
    assert!(d.on_extracted(&mut run, Ok(Some(frame(5)))).is_empty());
    match run.step {
        MfStep::Done(Ok(Some(f))) => assert_eq!(f.timestamp_us, 5),
        _ => panic!("no frame"),
    }
    let again = d.begin_drain();
    assert!(matches!(again.step, MfStep::ProcessOutput(21)));
}

#[test]
fn samples_of_the_transform_are_given_up() {
    let mut d = ready(true);
    let mut run = d.begin_drain();
    assert!(matches!(run.step, MfStep::ProcessOutput(0)));
    d.on_output(&mut run, 0, 40, 0);
    assert_eq!(d.on_extracted(&mut run, Err(VideoError::codec("x"))), vec![release(40)]);
    assert_eq!(text(&run.step), "x");
}

#[test]
fn feeding_can_fail() {
    let mut d = ready(false);
    let mut run = d.begin_feed();
    run.on_input_buffer(FAIL, 0);
    assert_eq!(text(&run.step), "MF: MFCreateMemoryBuffer failed: 0x80004005");
    let mut run = d.begin_feed();
    run.on_input_buffer(0, 11);
    assert_eq!(run.on_input_locked(FAIL), vec![release(11)]);
    assert_eq!(text(&run.step), "MF: IMFMediaBuffer::Lock failed: 0x80004005");
    let mut run = d.begin_feed();
    run.on_input_buffer(0, 11);
    run.on_input_locked(0);
    assert_eq!(run.on_input_sample(0, 0), vec![release(11)]);
    assert_eq!(text(&run.step), "MF: MFCreateSample failed: 0x0");
    let mut run = fed(&d);
    assert_eq!(d.on_fed(&mut run, FAIL), vec![release(12)]);
    assert_eq!(text(&run.step), "MF: ProcessInput failed: 0x80004005");
    d.transform = 0;
    assert_eq!(text(&d.begin_feed().step), "MF: transform not initialized");
    assert!(d.begin_flush().unwrap().unwrap().is_empty());
}

#[test]
fn full_transform_is_drained_first() {
    let mut d = ready(true);
    let mut run = fed(&d);
    assert!(d.on_fed(&mut run, MF_E_NOTACCEPTING).is_empty());
    assert_eq!(run.waiting, Some(12));
    d.on_output(&mut run, 0, 40, 0);
    d.on_extracted(&mut run, Ok(Some(frame(8))));
    assert!(matches!(run.step, MfStep::RetryInput(12, _)));
    let (run, calls) = run.on_retried(0);
    assert_eq!(calls, vec![release(12)]);
    match run.step {
        MfStep::Done(Ok(Some(f))) => assert_eq!(f.timestamp_us, 8),
        _ => panic!("no frame"),
    }
}

#[test]
fn full_transform_can_stay_full() {
    let mut d = ready(true);
    let mut run = fed(&d);
    d.on_fed(&mut run, MF_E_NOTACCEPTING);
    assert_eq!(
        d.on_output(&mut run, MF_E_TRANSFORM_NEED_MORE_INPUT, 0, 0),
        vec![release(12)]
    );
    assert_eq!(text(&run.step), "MF: ProcessInput failed: 0xC00D36B5");
    let mut run = fed(&d);
    d.on_fed(&mut run, MF_E_NOTACCEPTING);
    d.on_output(&mut run, 0, 40, 0);
    d.on_extracted(&mut run, Ok(Some(frame(8))));
    let (run, calls) = run.on_retried(FAIL);
    assert_eq!(calls, vec![release(12)]);
    assert_eq!(text(&run.step), "MF: ProcessInput failed: 0x80004005");
    let mut run = fed(&d);
    d.on_fed(&mut run, MF_E_NOTACCEPTING);
    assert_eq!(d.on_output(&mut run, FAIL, 0, 0), vec![release(12)]);
    assert_eq!(text(&run.step), "MF: ProcessOutput failed: 0x80004005");
}

#[test]
fn draining_can_give_nothing() {
    let mut d = ready(false);
    let mut run = d.begin_drain();
    run.on_output_sample(FAIL, 0);
    assert!(matches!(run.step, MfStep::Done(Ok(None))));
    let mut run = d.begin_drain();
    run.on_output_sample(0, 21);
    assert_eq!(d.on_output_buffer(&mut run, FAIL, 0), vec![release(21)]);
    assert!(matches!(run.step, MfStep::Done(Ok(None))));
    assert_eq!(d.cached_sample, 0);
    d.cached_sample = 21;
    d.cached_buffer = 22;
    let mut run = d.begin_drain();
    assert_eq!(d.on_output(&mut run, 0, 0, 0), vec![release(22), release(21)]);
    assert!(matches!(run.step, MfStep::Done(Ok(None))));
    assert_eq!((d.cached_sample, d.cached_buffer), (0, 0));
    assert!(matches!(d.begin_drain().step, MfStep::CreateOutputSample(1000)));
    d.cached_sample = 21;
    d.cached_buffer = 22;
    let mut run = d.begin_drain();
    assert_eq!(
        d.on_output(&mut run, FAIL, 21, 30),
        vec![release(30), release(22), release(21)]
    );
    assert_eq!((d.cached_sample, d.cached_buffer), (0, 0));
    assert_eq!(
        d.teardown(),
        vec![MfCall::Message(MFT_MESSAGE_COMMAND_FLUSH), release(4), MfCall::Shutdown]
    );
    assert_eq!(text(&run.step), "MF: ProcessOutput failed: 0x80004005");
}

#[test]
fn default_buffer_holds_a_large_picture() {
    let mut d = ready(false);
    d.output_buf_size = 0;
    assert!(matches!(d.begin_drain().step, MfStep::CreateOutputSample(13_271_040)));
}

#[test]
fn changed_stream_is_negotiated_anew() {
    let mut d = ready(false);
    d.cached_sample = 21;
    d.cached_buffer = 22;
    d.stride = 64;
    d.coded_height = 32;
    d.crop_x = 2;
    d.crop_y = 4;
    let mut run = d.begin_drain();
    assert_eq!(
        d.on_output(&mut run, MF_E_TRANSFORM_STREAM_CHANGE, 21, 0),
        vec![release(22), release(21)]
    );
    assert_eq!((d.cached_sample, d.cached_buffer), (0, 0));
    assert!(matches!(run.step, MfStep::OfferType(0)));
    assert_eq!(d.on_offered_type(&mut run, 0, 50, None), vec![release(50)]);
    assert!(matches!(run.step, MfStep::OfferType(1)));
    assert!(d.on_offered_type(&mut run, 0, 51, Some(nv12_subtype())).is_empty());
    assert!(matches!(run.step, MfStep::SetType(51)));
    assert_eq!(d.on_type_set(&mut run), vec![release(51)]);
    assert!(matches!(run.step, MfStep::Done(Ok(None))));
    assert_eq!((d.width, d.height, d.stride, d.coded_height), (0, 0, 0, 0));
    assert_eq!((d.crop_x, d.crop_y), (0, 0));
}

#[test]
fn negotiation_can_find_nothing() {
    let mut d = ready(true);
    let mut run = d.begin_drain();
    d.on_output(&mut run, MF_E_TRANSFORM_STREAM_CHANGE, 0, 0);
    for _ in 0..63 {
        d.on_offered_type(&mut run, 0, 50, None);
    }
    assert!(matches!(run.step, MfStep::OfferType(63)));
    assert_eq!(d.on_offered_type(&mut run, 0, 50, None), vec![release(50)]);
    assert!(matches!(run.step, MfStep::Done(Ok(None))));
    assert_eq!(d.width, 0);
    let mut d = ready(true);
    let mut run = d.begin_drain();
    d.on_output(&mut run, MF_E_TRANSFORM_STREAM_CHANGE, 0, 0);
    assert!(d.on_offered_type(&mut run, FAIL, 0, None).is_empty());
    assert!(matches!(run.step, MfStep::Done(Ok(None))));
    assert_eq!(d.width, 0);
}

#[test]
fn flushing_collects_frames_until_there_are_none() {
    let mut frames = Vec::new();
    assert!(on_flushed(&mut frames, Ok(Some(frame(1)))));
    assert!(!on_flushed(&mut frames, Ok(None)));
    assert!(!on_flushed(&mut frames, Err(VideoError::codec("x"))));
    assert_eq!(frames.len(), 1);
    assert!(ready(false).begin_flush().is_none());
    assert!(ready(false).decode_on_cpu(&[1], 0).is_none());
}

#[test]
fn sample_times_are_tenths_of_microseconds() {
    assert_eq!(sample_time(33_333), Some(333_330));
    assert_eq!(sample_time(u64::MAX), Some(-10));
    assert_eq!(sample_time(i64::MAX as u64), None);
    assert_eq!(input_size(7), 7);
}

fn taken(next: DxvaNext) -> (DxvaStep, Vec<MfCall>) {
    (next.step.unwrap(), next.calls)
}

fn failed(next: DxvaNext) -> (String, Vec<MfCall>) {
    (next.step.err().unwrap().message().to_string(), next.calls)
}

#[test]
fn picture_in_video_memory() {
    let mut d = ready(true);
    d.dxva_enabled = true;
    assert!(d.extracts_from_video_memory() && !ready(true).extracts_from_video_memory());
    assert_eq!(taken(on_dxva_buffer(0, 60)), (DxvaStep::QueryInterface(60), vec![]));
    assert_eq!(
        taken(on_dxva_interface(60, 0, 61)),
        (DxvaStep::GetTexture(61), vec![release(60)])
    );
    assert_eq!(taken(d.on_dxva_texture(61, 62)), (DxvaStep::Resolve(62), vec![release(61)]));
    let request = StagingRequest { width: 64, height: 48 };
    assert_eq!(
        taken(d.on_dxva_resolved(62, Some((64 << 32) | 48), None)),
        (DxvaStep::CreateStaging(62, request), vec![])
    );
    assert_eq!(taken(d.on_staging(62, request, 0, 63)), (DxvaStep::CopyTexture(62), vec![]));
    assert_eq!(taken(d.on_copied(62)), (DxvaStep::MapStaging(48), vec![release(62)]));
    assert_eq!(taken(d.on_mapped(48, 0, 64, 128)), (DxvaStep::Convert(48, 128), vec![]));
    assert_eq!(d.stride, 128);
    let larger = StagingRequest { width: 128, height: 48 };
    assert_eq!(
        taken(d.on_dxva_texture(61, 62)),
        (DxvaStep::CreateStaging(62, larger), vec![release(61), release(63)])
    );
    assert_eq!(d.staging_texture, 0);
    assert_eq!(taken(d.on_staging(62, larger, 0, 65)), (DxvaStep::CopyTexture(62), vec![]));
    assert_eq!(
        taken(d.on_dxva_texture(61, 62)),
        (DxvaStep::CopyTexture(62), vec![release(61)])
    );
}

#[test]
fn video_memory_can_fail() {
    let mut d = ready(true);
    assert_eq!(
        failed(on_dxva_buffer(FAIL, 1)),
        ("MF DXVA: GetBufferByIndex failed: 0x80004005".to_string(), vec![])
    );
    assert_eq!(
        failed(on_dxva_interface(60, 0, 0)),
        ("MF DXVA: QI IMFDXGIBuffer failed: 0x0".to_string(), vec![release(60)])
    );
    assert_eq!(
        failed(d.on_dxva_texture(61, 0)),
        ("MF DXVA: GetResource returned null".to_string(), vec![release(61)])
    );
    d.width = 0;
    assert_eq!(
        failed(d.on_dxva_resolved(62, None, None)),
        ("MF DXVA: cannot determine output dimensions".to_string(), vec![release(62)])
    );
    let request = StagingRequest { width: 64, height: 48 };
    assert_eq!(
        failed(d.on_staging(62, request, FAIL, 0)),
        ("MF DXVA: CreateTexture2D staging failed: 0x80004005".to_string(), vec![release(62)])
    );
    assert_eq!(d.staging_texture, 0);
    assert_eq!(
        failed(d.on_mapped(48, 0, 0, 128)),
        ("MF DXVA: Map staging failed: 0x0".to_string(), vec![])
    );
    assert_eq!(d.stride, 0);
}

#[test]
fn picture_in_main_memory() {
    let mut d = ready(false);
    d.cached_buffer = 22;
    assert_eq!(
        MediaFoundationDecoder::<Cpu>::on_contiguous(0, 70).ok(),
        Some(SoftwareStep::Lock(70))
    );
    assert_eq!(d.on_output_locked(70, 0, 64 * 32 * 3 / 2).ok(), Some(SoftwareStep::Convert(70)));
    assert_eq!((d.stride, d.coded_height), (64, 32));
    assert_eq!(d.finish_contiguous(70), vec![MfCall::Unlock(70), release(70)]);
    assert_eq!(d.finish_contiguous(22), vec![MfCall::Unlock(22)]);
    d.width = 0;
    d.stride = 0;
    assert_eq!(d.on_output_locked(70, 0, 6000).ok(), Some(SoftwareStep::Resolve(70, 6000)));
    let step = d.on_software_resolved(70, 6000, Some((60 << 32) | 32), None);
    assert_eq!(step.ok(), Some(SoftwareStep::Convert(70)));
    assert_eq!((d.width, d.height, d.stride), (60, 32, 125));
}

#[test]
fn main_memory_can_fail() {
    let mut d = ready(false);
    assert_eq!(
        MediaFoundationDecoder::<Cpu>::on_contiguous(FAIL, 0).err().unwrap().message(),
        "MF: ConvertToContiguousBuffer failed: 0x80004005"
    );
    let f = d.on_output_locked(70, FAIL, 0).err().unwrap();
    assert_eq!(f.error.message(), "MF: Lock output buffer failed: 0x80004005");
    assert_eq!(f.calls, vec![release(70)]);
    let f = d.on_output_locked(70, 0, 10).err().unwrap();
    assert_eq!(f.error.message(), "MF: cannot determine stride");
    assert_eq!(f.calls, vec![MfCall::Unlock(70), release(70)]);
    d.height = 0;
    let f = d.on_software_resolved(70, 10, None, None).err().unwrap();
    assert_eq!(f.error.message(), "MF: cannot determine output dimensions");
    assert_eq!(f.calls, vec![MfCall::Unlock(70), release(70)]);
}

#[test]
fn apertures_crop() {
    let mut bytes = [0u8; 16];
    bytes[2] = 8;
    bytes[6] = 4;
    bytes[8] = 0x80;
    bytes[9] = 0x07;
    bytes[12] = 0x38;
    bytes[13] = 0x04;
    let a = read_aperture(&bytes);
    assert_eq!(a, Aperture { x: 8, y: 4, width: 1920, height: 1080 });
    let mut d = ready(false);
    d.width = 0;
    d.height = 0;
    d.resolve_output_dimensions(Some((1936 << 32) | 1088), Some(a));
    assert_eq!((d.width, d.height, d.coded_height), (1920, 1080, 1088));
    assert_eq!((d.crop_x, d.crop_y), (8, 4));
    let mut d = ready(false);
    d.width = 0;
    d.height = 0;
    d.resolve_output_dimensions(Some((1900 << 32) | 1088), Some(a));
    assert_eq!((d.width, d.height, d.crop_x), (1900, 1088, 0));
    d.resolve_output_dimensions(Some(1088), Some(a));
    assert_eq!((d.width, d.height), (1900, 1088));
    bytes[3] = 0x80;
    assert_eq!(read_aperture(&bytes).x, 0xffff_8008);
    assert!(has_aperture(0, 1, 16) && !has_aperture(0, 1, 15) && !has_aperture(0, 0, 16));
    assert!(says_size(Some((1 << 32) | 1)) && !says_size(Some(1)) && !says_size(None));
}

#[test]
fn window_moves_pixels() {
    let (stride, rows) = (8usize, 8usize);
    let buffer: Vec<u8> = (0..stride * rows * 3 / 2).map(|i| (i * 7 % 251) as u8).collect();
    let mut d = ready(false);
    d.width = 8;
    d.height = 8;
    let whole = d.window(8, 8).unwrap();
    assert_eq!(whole.extent(), Some(96));
    let full = whole.frame(&buffer, 1);
    d.width = 4;
    d.height = 3;
    d.crop_x = 2;
    d.crop_y = 4;
    let part = d.window(8, 8).unwrap();
    assert_eq!(
        part,
        Window { width: 4, height: 3, stride: 8, y_offset: 34, uv_offset: 82 }
    );
    let cut = part.frame(&buffer, 2);
    assert_eq!(cut.timestamp_us, 2);
    for row in 0..3 {
        for col in 0..4 {
            for k in 0..3 {
                assert_eq!(
                    cut.rgb8_data[(row * 4 + col) * 3 + k],
                    full.rgb8_data[((row + 4) * 8 + col + 2) * 3 + k]
                );
            }
        }
    }
}

#[test]
fn odd_offsets_do_not_split_chroma_pairs() {
    let mut d = ready(false);
    d.crop_x = 3;
    d.crop_y = 5;
    let w = d.window(10, 20).unwrap();
    assert_eq!((w.y_offset, w.uv_offset), (53, 222));
    d.stride = 10;
    d.coded_height = 20;
    assert_eq!(d.contiguous_window(), Some(w));
}
