use hw_decode::color::{Bgra, Nv12};
use hw_decode::media::{DecodedFrame, NalUnit, VideoCodec};
use hw_decode::nal::ParameterSet;
use hw_decode::videotoolbox::{
    CallbackState, VideoToolboxDecoder, VtCall, VtPicture, VtPrepared, VtSubmit,
};

fn nal(bytes: &[u8]) -> NalUnit {
    NalUnit { data: bytes.to_vec() }
}

fn frame(timestamp_us: u64) -> DecodedFrame {
    DecodedFrame::rgb8(1, 1, vec![1, 2, 3], timestamp_us, false)
}

#[test]
fn decoder_starts_without_a_session() {
    let d = VideoToolboxDecoder::new(VideoCodec::H264).unwrap();
    assert_eq!(d.codec(), VideoCodec::H264);
    assert!(!d.initialized && d.session == 0 && d.format_desc == 0);
    assert!(d.teardown().is_empty());
    assert!(VideoToolboxDecoder::new(VideoCodec::Other("Av1")).is_ok());
}

#[test]
fn last_parameter_set_of_a_kind_counts() {
    let mut d = VideoToolboxDecoder::new(VideoCodec::H264).unwrap();
    d.extract_parameter_sets(&vec![nal(&[0x67, 1]), nal(&[]), nal(&[0x67, 2]), nal(&[0x65])]);
    assert_eq!(d.sps, vec![0x67, 2]);
    assert!(d.pps.is_empty());
    d.extract_parameter_sets(&vec![nal(&[0x68, 3])]);
    assert_eq!(d.sps, vec![0x67, 2]);
    assert_eq!(d.pps, vec![0x68, 3]);
    assert_eq!(*d.parameter_set(ParameterSet::Pps), vec![0x68, 3]);
    assert!(d.parameter_set(ParameterSet::Vps).is_empty());
}

#[test]
fn h264_needs_two_sets_and_hevc_three() {
    let mut d = VideoToolboxDecoder::new(VideoCodec::H264).unwrap();
    assert_eq!(d.prepare(&vec![nal(&[0x67])]), VtPrepared::NeedMoreData);
    assert_eq!(d.prepare(&vec![nal(&[0x68])]), VtPrepared::CreateSession);
    assert_eq!(d.format_sets().unwrap(), vec![ParameterSet::Sps, ParameterSet::Pps]);
    let mut h = VideoToolboxDecoder::new(VideoCodec::H265).unwrap();
    assert_eq!(h.prepare(&vec![nal(&[0x42]), nal(&[0x44])]), VtPrepared::NeedMoreData);
    assert_eq!(h.prepare(&vec![nal(&[0x40])]), VtPrepared::CreateSession);
    assert_eq!(
        h.format_sets().unwrap(),
        vec![ParameterSet::Vps, ParameterSet::Sps, ParameterSet::Pps]
    );
}

#[test]
fn unknown_codec_never_gets_a_session() {
    let mut d = VideoToolboxDecoder::new(VideoCodec::Other("Av1")).unwrap();
    assert_eq!(d.prepare(&vec![nal(&[0x67]), nal(&[0x68])]), VtPrepared::NeedMoreData);
    assert_eq!(d.format_sets().err().unwrap().message(), "VT: unsupported codec");
}

#[test]
fn session_makes_the_decoder_ready() {
    let mut d = VideoToolboxDecoder::new(VideoCodec::H264).unwrap();
    d.on_format(0, 0x10).unwrap();
    assert!(d.on_session(0, 0x20).is_ok());
    assert!(d.initialized);
    assert_eq!(d.prepare(&vec![]), VtPrepared::Ready);
    assert_eq!(
        d.teardown(),
        vec![VtCall::Invalidate(0x20), VtCall::Release(0x20), VtCall::Release(0x10)]
    );
    assert!(VideoToolboxDecoder::new(VideoCodec::H265).unwrap().teardown().is_empty());
}

#[test]
fn failures_are_described() {
    let mut d = VideoToolboxDecoder::new(VideoCodec::H264).unwrap();
    assert_eq!(
        d.on_format(-12710, 0x10).err().unwrap().message(),
        "VT: failed to create H264 format description: -12710"
    );
    assert_eq!(d.format_desc, 0);
    d.on_format(0, 0x10).unwrap();
    let f = d.on_session(-12909, 0x20).err().unwrap();
    assert_eq!(f.error.message(), "VT: failed to create decompression session: -12909");
    assert_eq!(f.calls, vec![VtCall::Release(0x10)]);
    assert!(!d.initialized && d.session == 0 && d.format_desc == 0);
    assert!(d.teardown().is_empty());
    assert!(d.on_format(0, 0).is_err());
    let mut h = VideoToolboxDecoder::new(VideoCodec::H265).unwrap();
    assert_eq!(
        h.on_format(1, 0).err().unwrap().message(),
        "VT: failed to create HEVC format description: 1"
    );
}

#[test]
fn submission_releases_what_it_creates() {
    let s = VtSubmit::start(&vec![1]).unwrap();
    assert!(VtSubmit::start(&vec![]).is_none());
    assert_eq!(s.on_reply(0, 0), VtSubmit::Release(None, None));
    assert_eq!(s.on_reply(-1, 5), VtSubmit::Release(None, None));
    let s = s.on_reply(0, 5);
    assert_eq!(s, VtSubmit::FillBlock(5));
    assert_eq!(s.on_reply(-1, 0), VtSubmit::Release(None, Some(5)));
    let s = s.on_reply(0, 0);
    assert_eq!(s, VtSubmit::CreateSample(5));
    assert_eq!(s.on_reply(-1, 6), VtSubmit::Release(None, Some(5)));
    assert_eq!(s.on_reply(0, 0), VtSubmit::Release(None, Some(5)));
    let s = s.on_reply(0, 6);
    assert_eq!(s, VtSubmit::DecodeFrame(5, 6));
    assert_eq!(s.on_reply(-8, 0), VtSubmit::Release(Some(6), Some(5)));
    assert_eq!(s.on_reply(0, 0), VtSubmit::Release(Some(6), Some(5)));
}

#[test]
fn delivered_pictures_become_frames() {
    assert!(CallbackState::accepts(0, 1));
    assert!(!CallbackState::accepts(-1, 1));
    assert!(!CallbackState::accepts(0, 0));
    assert!(CallbackState::is_nv12(2) && !CallbackState::is_nv12(0));
    let mut state = CallbackState { frames: Vec::new() };
    let y = [235u8];
    let uv = [128u8, 128];
    let nv12 = VtPicture::Nv12(Nv12 { y: &y, y_stride: 1, uv: &uv, uv_stride: 2 });
    state.push_picture(&nv12, 1, 1);
    let data = [3u8, 2, 1, 0];
    state.push_picture(&VtPicture::Bgra(Bgra { data: &data, stride: 4 }), 1, 1);
    assert_eq!(state.frames[0].rgb8_data, vec![255, 255, 255]);
    assert_eq!(state.frames[1].rgb8_data, vec![1, 2, 3]);
    assert_eq!(state.frames[1].timestamp_us, 0);
}

#[test]
fn latest_frame_gets_the_time_of_the_access_unit() {
    let mut d = VideoToolboxDecoder::new(VideoCodec::H264).unwrap();
    assert!(d.take_frame(5).is_none());
    d.state.frames.push(frame(0));
    d.state.frames.push(DecodedFrame { width: 9, ..frame(0) });
    let f = d.take_frame(5).unwrap();
    assert_eq!((f.width, f.timestamp_us), (9, 5));
    let rest = d.take_frames();
    assert_eq!(rest.len(), 1);
    assert_eq!(rest[0].timestamp_us, 0);
    assert!(d.take_frames().is_empty());
}
