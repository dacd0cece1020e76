use hw_decode::media::{NalUnit, VideoCodec};
use hw_decode::nal::{
    avcc_buffer, h264_nal_ref_idc, h264_nal_type, hevc_nal_type, joined_picture_data,
    parameter_set_of, ParameterSet,
};

fn nal(bytes: &[u8]) -> NalUnit {
    NalUnit { data: bytes.to_vec() }
}

#[test]
fn header_fields() {
    assert_eq!(h264_nal_type(0x67), 7);
    assert_eq!(h264_nal_ref_idc(0x67), 3);
    assert_eq!(h264_nal_ref_idc(0xff), 3);
    assert_eq!(h264_nal_type(0x01), 1);
    assert_eq!(h264_nal_ref_idc(0x01), 0);
    assert_eq!(hevc_nal_type(0x40), 32);
    assert_eq!(hevc_nal_type(0x44), 34);
    assert_eq!(hevc_nal_type(0xff), 63);
}

#[test]
fn parameter_sets_by_codec() {
    assert_eq!(parameter_set_of(VideoCodec::H264, &nal(&[0x67])), Some(ParameterSet::Sps));
    assert_eq!(parameter_set_of(VideoCodec::H264, &nal(&[0x68])), Some(ParameterSet::Pps));
    assert_eq!(parameter_set_of(VideoCodec::H264, &nal(&[0x65])), None);
    assert_eq!(parameter_set_of(VideoCodec::H265, &nal(&[0x40])), Some(ParameterSet::Vps));
    assert_eq!(parameter_set_of(VideoCodec::H265, &nal(&[0x42])), Some(ParameterSet::Sps));
    assert_eq!(parameter_set_of(VideoCodec::H265, &nal(&[0x44])), Some(ParameterSet::Pps));
    assert_eq!(parameter_set_of(VideoCodec::H265, &nal(&[0x46])), None);
    assert_eq!(parameter_set_of(VideoCodec::Other("Av1"), &nal(&[0x67])), None);
    assert_eq!(parameter_set_of(VideoCodec::H264, &nal(&[])), None);
}

#[test]
fn picture_data_goes_behind_its_length() {
    let nals = vec![nal(&[0x67, 1]), nal(&[0x65, 2, 3]), nal(&[]), nal(&[0x41])];
    assert_eq!(
        avcc_buffer(VideoCodec::H264, &nals),
        vec![0, 0, 0, 3, 0x65, 2, 3, 0, 0, 0, 1, 0x41]
    );
    assert!(avcc_buffer(VideoCodec::H264, &vec![nal(&[0x68])]).is_empty());
    assert_eq!(avcc_buffer(VideoCodec::Other("Av1"), &vec![nal(&[0x68])]), vec![0, 0, 0, 1, 0x68]);
}

#[test]
fn long_unit_has_a_big_endian_length() {
    let long = vec![0x41u8; 0x0102];
    let buffer = avcc_buffer(VideoCodec::H264, &vec![nal(&long)]);
    assert_eq!(&buffer[0..4], &[0, 0, 1, 2]);
    assert_eq!(buffer.len(), 4 + 0x0102);
}

#[test]
fn length_prefixed_units_can_be_read_back() {
    let nals = vec![nal(&[0x41, 9, 9]), nal(&[0x65]), nal(&[0x01, 0, 0, 0, 1])];
    let buffer = avcc_buffer(VideoCodec::H264, &nals);
    let mut at = 0;
    for unit in &nals {
        let len = u32::from_be_bytes([buffer[at], buffer[at + 1], buffer[at + 2], buffer[at + 3]]);
        assert_eq!(len as usize, unit.data.len());
        at += 4;
        assert_eq!(&buffer[at..at + len as usize], &unit.data[..]);
        at += len as usize;
    }
    assert_eq!(at, buffer.len());
}

#[test]
fn joined_data_leaves_out_parameter_sets() {
    let nals = vec![nal(&[0x40, 1]), nal(&[0x42, 1]), nal(&[0x02, 7]), nal(&[]), nal(&[0x26, 8])];
    assert_eq!(joined_picture_data(VideoCodec::H265, &nals), vec![0x02, 7, 0x26, 8]);
}
