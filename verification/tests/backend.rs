use hw_decode::backend::{
    detect_hw_backend, is_h264_hw_available, is_hevc_available, software_decoder,
    software_stand_in, BuildTarget, HwBackend, HwVideoDecoder, SoftwareDecoder, TargetOs,
    VideoDecoder,
};
use hw_decode::media::{DecodedFrame, VideoCodec, VideoError};

struct Mock {
    kind: SoftwareDecoder,
}

impl VideoDecoder for Mock {
    fn codec(&self) -> VideoCodec {
        match self.kind {
            SoftwareDecoder::H264 => VideoCodec::H264,
            SoftwareDecoder::Hevc => VideoCodec::H265,
        }
    }

    fn decode(&mut self, data: &[u8], ts: u64) -> Result<Option<DecodedFrame>, VideoError> {
        Ok(Some(DecodedFrame::rgb8(1, 1, data.to_vec(), ts, false)))
    }

    fn flush(&mut self) -> Result<Vec<DecodedFrame>, VideoError> {
        Ok(Vec::new())
    }
}

fn target() -> BuildTarget {
    BuildTarget {
        os: TargetOs::Linux,
        videotoolbox: false,
        vaapi: false,
        nvdec: false,
        media_foundation: false,
    }
}

#[test]
fn detect_backend() {
    let backend = detect_hw_backend(target());
    println!("Detected backend: {}", backend.to_string());
    assert_eq!(backend, HwBackend::Software);
}

#[test]
fn hw_decoder_fallback_h264() {
    let decoder = HwVideoDecoder::new(
        VideoCodec::H264,
        target(),
        |_, _| Err(VideoError::codec("no device")),
        |kind| Mock { kind },
    )
    .unwrap();
    println!("H264 backend: {}", decoder.backend().to_string());
    assert_eq!(decoder.backend(), HwBackend::Software);
    assert_eq!(decoder.codec(), VideoCodec::H264);
}

#[test]
fn hw_decoder_fallback_hevc() {
    let decoder = HwVideoDecoder::new(
        VideoCodec::H265,
        target(),
        |_, _| Err(VideoError::codec("no device")),
        |kind| Mock { kind },
    )
    .unwrap();
    println!("HEVC backend: {}", decoder.backend().to_string());
    assert_eq!(decoder.backend(), HwBackend::Software);
    assert_eq!(decoder.codec(), VideoCodec::H265);
}

fn with(os: TargetOs) -> BuildTarget {
    BuildTarget { os, videotoolbox: true, vaapi: true, nvdec: true, media_foundation: true }
}

#[test]
fn platform_backend_comes_before_nvdec_except_on_windows() {
    assert_eq!(detect_hw_backend(with(TargetOs::Macos)), HwBackend::VideoToolbox);
    assert_eq!(detect_hw_backend(with(TargetOs::Linux)), HwBackend::Vaapi);
    assert_eq!(detect_hw_backend(with(TargetOs::Windows)), HwBackend::Nvdec);
    let linux = BuildTarget { vaapi: false, ..with(TargetOs::Linux) };
    assert_eq!(detect_hw_backend(linux), HwBackend::Nvdec);
    let no_nvdec = BuildTarget { nvdec: false, ..with(TargetOs::Windows) };
    assert_eq!(detect_hw_backend(no_nvdec), HwBackend::MediaFoundation);
}

#[test]
fn backends_keep_to_their_platforms() {
    assert_eq!(detect_hw_backend(with(TargetOs::Ios)), HwBackend::VideoToolbox);
    assert_eq!(detect_hw_backend(with(TargetOs::Other)), HwBackend::Software);
    for os in [TargetOs::Macos, TargetOs::Ios] {
        let nvdec = BuildTarget { videotoolbox: false, ..with(os) };
        assert_eq!(detect_hw_backend(nvdec), HwBackend::Software);
    }
}

#[test]
fn backend_names() {
    assert_eq!(HwBackend::VideoToolbox.to_string(), "VideoToolbox");
    assert_eq!(HwBackend::Vaapi.to_string(), "VA-API");
    assert_eq!(HwBackend::Nvdec.to_string(), "NVDEC");
    assert_eq!(HwBackend::MediaFoundation.to_string(), "MediaFoundation");
    assert_eq!(HwBackend::Software.to_string(), "Software");
}

#[test]
fn availability_per_platform() {
    assert!(is_hevc_available(with(TargetOs::Macos), false));
    assert!(is_hevc_available(with(TargetOs::Ios), false));
    assert!(is_h264_hw_available(with(TargetOs::Ios)));
    assert!(is_hevc_available(with(TargetOs::Windows), true));
    assert!(!is_hevc_available(with(TargetOs::Windows), false));
    assert!(!is_hevc_available(with(TargetOs::Linux), true));
    assert!(is_h264_hw_available(with(TargetOs::Macos)));
    assert!(is_h264_hw_available(with(TargetOs::Windows)));
    assert!(!is_h264_hw_available(with(TargetOs::Linux)));
}

#[test]
fn hevc_hosts_decode_h264() {
    let systems =
        [TargetOs::Macos, TargetOs::Ios, TargetOs::Linux, TargetOs::Windows, TargetOs::Other];
    for os in systems {
        for probe in [false, true] {
            if is_hevc_available(with(os), probe) {
                assert!(is_h264_hw_available(with(os)));
            }
        }
    }
}

#[test]
fn hardware_is_used_where_it_opens() {
    let mut decoder = HwVideoDecoder::new(
        VideoCodec::H264,
        with(TargetOs::Linux),
        |backend, codec| {
            assert_eq!(backend, HwBackend::Vaapi);
            assert_eq!(codec, VideoCodec::H264);
            Ok(Mock { kind: SoftwareDecoder::H264 })
        },
        |_| unreachable!(),
    )
    .unwrap();
    assert!(decoder.is_hardware());
    assert_eq!(decoder.backend(), HwBackend::Vaapi);
    let frame = decoder.decode(&[7, 8, 9], 42).unwrap().unwrap();
    assert_eq!(frame.timestamp_us, 42);
    assert_eq!(frame.rgb8_data, vec![7, 8, 9]);
    assert!(decoder.flush().unwrap().is_empty());
    assert_eq!(decoder.backend(), HwBackend::Vaapi);
}

#[test]
fn software_takes_over_where_hardware_does_not_open() {
    let decoder = HwVideoDecoder::new(
        VideoCodec::H265,
        with(TargetOs::Linux),
        |_, _| Err(VideoError::codec("busy")),
        |kind| Mock { kind },
    )
    .unwrap();
    assert!(!decoder.is_hardware());
    assert_eq!(decoder.inner.kind, SoftwareDecoder::Hevc);
}

#[test]
fn codec_without_decoder_is_an_error() {
    let r = HwVideoDecoder::<Mock>::new(
        VideoCodec::Other("Av1"),
        target(),
        |_, _| Err(VideoError::codec("no device")),
        |kind| Mock { kind },
    );
    assert_eq!(r.err().unwrap().message(), "Unsupported codec: Av1");
}

#[test]
fn software_decoder_per_codec() {
    assert_eq!(software_decoder(VideoCodec::H264, "x").unwrap(), SoftwareDecoder::H264);
    assert_eq!(software_decoder(VideoCodec::H265, "x").unwrap(), SoftwareDecoder::Hevc);
    assert_eq!(software_decoder(VideoCodec::Other("Av1"), "x").err().unwrap().message(), "x");
    assert_eq!(software_stand_in(VideoCodec::H264), SoftwareDecoder::H264);
    assert_eq!(software_stand_in(VideoCodec::H265), SoftwareDecoder::Hevc);
    assert_eq!(software_stand_in(VideoCodec::Other("Av1")), SoftwareDecoder::Hevc);
}
