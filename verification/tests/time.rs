use hw_decode::time::{frame_timestamp, packet_timestamp};

#[test]
fn times_go_through_a_driver_unchanged() {
    for t in [0, 1, 33_333, i64::MAX as u64, i64::MAX as u64 + 1, u64::MAX] {
        assert_eq!(packet_timestamp(t), t as i64);
        assert_eq!(frame_timestamp(packet_timestamp(t)), t);
    }
    assert_eq!(frame_timestamp(-1), u64::MAX);
}
