use hw_decode::backend::{SoftwareDecoder, VideoDecoder};
use hw_decode::color::{nv12_frame, Nv12};
use hw_decode::media::{DecodedFrame, VideoCodec, VideoError};
use hw_decode::nvdec::{
    parser_params, NvOpening, NvdecDecoder, NvdecState,
};

struct Cpu {
    kind: SoftwareDecoder,
}

impl VideoDecoder for Cpu {
    fn codec(&self) -> VideoCodec {
        VideoCodec::H265
    }

    fn decode(&mut self, data: &[u8], _ts: u64) -> Result<Option<DecodedFrame>, VideoError> {
        Ok(Some(DecodedFrame::rgb8(data.len(), 0, Vec::new(), 0, false)))
    }

    fn flush(&mut self) -> Result<Vec<DecodedFrame>, VideoError> {
        Ok(Vec::new())
    }
}

fn cpu(kind: SoftwareDecoder) -> Cpu {
    Cpu { kind }
}

fn opened() -> NvdecDecoder<Cpu> {
    let state = Box::new(NvdecState::new());
    NvdecDecoder::new(VideoCodec::H264, NvOpening::Opened, 1, 2, state, cpu).ok().unwrap()
}

#[test]
fn opening_takes_three_steps() {
    let o = NvOpening::Init.on_reply(VideoCodec::H264, 0);
    assert_eq!(o, NvOpening::CreateContext);
    let p = o.on_reply(VideoCodec::H264, 0);
    assert_eq!(p, NvOpening::CreateParser(4));
    assert_eq!(o.on_reply(VideoCodec::H265, 0), NvOpening::CreateParser(8));
    assert_eq!(o.on_reply(VideoCodec::Other("Av1"), 0), NvOpening::Unsupported);
    assert_eq!(o.on_reply(VideoCodec::Other("Av1"), 1), NvOpening::Unavailable);
    assert_eq!(p.on_reply(VideoCodec::H264, 0), NvOpening::Opened);
    assert_eq!(p.on_reply(VideoCodec::H264, 3), NvOpening::DestroyContext);
    assert_eq!(NvOpening::Init.on_reply(VideoCodec::H264, 100), NvOpening::Unavailable);
    assert!(NvOpening::Unsupported.destroys_context());
    assert!(NvOpening::DestroyContext.destroys_context());
    assert!(!NvOpening::Unavailable.destroys_context() && !NvOpening::Opened.destroys_context());
    let params = parser_params(4);
    assert_eq!(params.codec_type, 4);
    assert_eq!((params.max_num_decode_surfaces, params.clock_rate), (20, 0));
    assert_eq!((params.error_threshold, params.max_display_delay), (100, 4));
}

#[test]
fn what_opening_leads_to() {
    let d = opened();
    assert!(d.initialized && d.sw_fallback.is_none());
    assert_eq!((d.cuda_ctx, d.parser, d.codec()), (1, 2, VideoCodec::H264));
    let s = || Box::new(NvdecState::new());
    let r = NvdecDecoder::new(VideoCodec::Other("Av1"), NvOpening::Unsupported, 1, 0, s(), cpu);
    assert_eq!(r.err().unwrap().message(), "NVDEC: unsupported codec");
    let r = NvdecDecoder::new(VideoCodec::Other("Av1"), NvOpening::Unavailable, 0, 0, s(), cpu);
    assert_eq!(r.ok().unwrap().sw_fallback.unwrap().kind, SoftwareDecoder::Hevc);
    let mut d = NvdecDecoder::new(VideoCodec::H264, NvOpening::DestroyContext, 1, 0, s(), cpu)
        .ok()
        .unwrap();
    assert_eq!(d.sw_fallback.as_ref().unwrap().kind, SoftwareDecoder::H264);
    assert_eq!(d.decode_on_cpu(&[1, 2], 0).unwrap().unwrap().unwrap().width, 2);
    assert!(d.flush_on_cpu().unwrap().unwrap().is_empty());
    assert!(opened().decode_on_cpu(&[1], 0).is_none());
    assert!(opened().flush_on_cpu().is_none());
}

#[test]
fn first_sequence_creates_a_decoder() {
    let mut s = NvdecState::new();
    assert_eq!(s.begin_decode(), Some(0));
    let info = s.on_sequence(4, 1920, 1088).unwrap();
    assert_eq!((info.code_type, info.chroma_format, info.output_format), (4, 1, 0));
    assert_eq!((info.width, info.height), (1920, 1088));
    assert_eq!((info.num_decode_surfaces, info.num_output_surfaces), (20, 2));
    s.on_decoder(0, 0x30);
    assert!(s.decoder_created && s.decoder == 0x30);
    assert!(s.on_sequence(4, 640, 480).is_none());
    assert_eq!((s.width, s.height), (640, 480));
    assert_eq!(s.begin_decode(), None);
}

#[test]
fn callbacks_report_errors() {
    let mut d = opened();
    d.state.on_decoder(5, 0);
    assert!(!d.state.decoder_created);
    assert_eq!(
        d.after_parse(0, 1).err().unwrap().message(),
        "NVDEC: cuvidCreateDecoder failed: 5"
    );
    assert!(d.after_parse(0, 1).unwrap().is_none());
    assert_eq!(d.state.on_decode(0), 1);
    assert_eq!(d.state.on_decode(-2), 0);
    assert_eq!(
        d.after_parse(0, 1).err().unwrap().message(),
        "NVDEC: cuvidDecodePicture failed: -2"
    );
    assert_eq!(d.state.on_mapped(0), None);
    assert_eq!(d.state.on_mapped(9), Some(0));
    assert_eq!(
        d.after_parse(0, 1).err().unwrap().message(),
        "NVDEC: cuvidMapVideoFrame64 failed: 9"
    );
    assert_eq!(d.state.on_copied(0), None);
    assert_eq!(d.state.on_copied(1), Some(0));
    assert_eq!(
        d.after_parse(0, 1).err().unwrap().message(),
        "NVDEC: cuMemcpyDtoH_v2 failed: 1"
    );
    d.state.on_decode(-2);
    assert_eq!(
        d.after_parse(4, 1).err().unwrap().message(),
        "NVDEC: cuvidParseVideoData failed: 4"
    );
    assert!(d.state.last_error.is_some());
}

#[test]
fn display_needs_a_picture_and_a_decoder() {
    let mut s = NvdecState::new();
    assert_eq!(s.begin_display(false), Some(1));
    assert_eq!(s.begin_display(true), Some(0));
    s.on_decoder(0, 1);
    assert_eq!(s.begin_display(true), None);
}

#[test]
fn copies_cover_both_planes() {
    let mut s = NvdecState::new();
    s.height = 5;
    assert_eq!(s.copy_size(10), Some(70));
    s.height = 0;
    assert_eq!(s.copy_size(10), Some(0));
}

#[test]
fn pictures_become_frames() {
    let mut s = NvdecState::new();
    s.width = 2;
    s.height = 3;
    let nv12 = [16, 16, 0, 235, 235, 0, 81, 81, 0, 90, 240, 0];
    assert_eq!(s.on_picture(&nv12, 3, -1), 1);
    let frame = &s.frames[0];
    assert_eq!((frame.width, frame.height, frame.timestamp_us), (2, 3, u64::MAX));
    let picture = Nv12 { y: &nv12[..9], y_stride: 3, uv: &nv12[9..], uv_stride: 3 };
    assert_eq!(frame.rgb8_data, nv12_frame(&picture, 2, 3, 0, false).rgb8_data);
    assert_eq!(&frame.rgb8_data[12..15], &[255, 0, 0]);
}

#[test]
fn frames_are_taken_from_the_latest_back() {
    let mut d = opened();
    d.state.width = 1;
    d.state.height = 1;
    d.state.on_picture(&[16, 0], 2, 10);
    d.state.on_picture(&[235, 0], 2, 20);
    let f = d.after_parse(0, 99).unwrap().unwrap();
    assert_eq!(f.rgb8_data, vec![255, 255, 255]);
    assert_eq!(f.timestamp_us, 99);
    let rest = d.take_frames();
    assert_eq!(rest.len(), 1);
    assert_eq!(rest[0].timestamp_us, 10);
    assert!(d.after_parse(0, 0).unwrap().is_none());
}

#[test]
fn teardown_skips_what_is_not_there() {
    let mut d = opened();
    let t = d.teardown();
    assert_eq!((t.parser, t.decoder, t.context), (Some(2), None, Some(1)));
    d.state.on_decoder(0, 3);
    assert_eq!(d.teardown().decoder, Some(3));
    d.parser = 0;
    assert_eq!(d.teardown().parser, None);
    let s = Box::new(NvdecState::new());
    let off = NvdecDecoder::new(VideoCodec::H264, NvOpening::Unavailable, 7, 8, s, cpu);
    let t = off.ok().unwrap().teardown();
    assert_eq!((t.parser, t.decoder, t.context), (None, None, None));
}
