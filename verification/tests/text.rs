use hw_decode::media::VideoError;
use hw_decode::text::{error_with_code, error_with_status, push_decimal, push_hex32};

fn decimal(n: i32) -> String {
    let mut s = String::new();
    push_decimal(&mut s, n);
    s
}

fn hex(n: i32) -> String {
    let mut s = String::new();
    push_hex32(&mut s, n);
    s
}

#[test]
fn decimal_notation() {
    for n in [0, 7, 10, -1, 42, -12909, i32::MAX, i32::MIN] {
        assert_eq!(decimal(n), format!("{n}"));
    }
}

#[test]
fn hexadecimal_notation() {
    for n in [0, 9, 15, 16, 255, -1, -1072861838, i32::MAX, i32::MIN] {
        assert_eq!(hex(n), format!("{n:#X}"));
    }
    assert_eq!(hex(-1072875851), "0xC00D36B5");
}

#[test]
fn numbers_follow_what_is_there() {
    let mut s = String::from("a");
    push_decimal(&mut s, -5);
    push_hex32(&mut s, 5);
    assert_eq!(s, "a-50x5");
}

#[test]
fn errors_carry_their_description() {
    assert_eq!(VideoError::codec("no SPS").message(), "no SPS");
    assert_eq!(error_with_status("failed: ", -3).message(), "failed: -3");
    assert_eq!(error_with_code("failed: ", -2147467259).message(), "failed: 0x80004005");
}
