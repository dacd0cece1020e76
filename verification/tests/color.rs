use hw_decode::color::{
    bgra_extent, bgra_frame, bgra_to_rgb, bt601_pixel, bt601_pixel_int16, nv12_bt601_to_rgb_sse2,
    nv12_extent, nv12_frame, nv12_to_rgb8, Bgra, Nv12,
};

fn rgb(y: u8, cb: u8, cr: u8) -> (u8, u8, u8) {
    let p = bt601_pixel(y, cb, cr);
    (p.r, p.g, p.b)
}

fn rgb_int16(y: u8, cb: u8, cr: u8) -> (u8, u8, u8) {
    let p = bt601_pixel_int16(y, cb, cr);
    (p.r, p.g, p.b)
}

#[test]
fn bt601_reference_colours() {
    assert_eq!(rgb(16, 128, 128), (0, 0, 0));
    assert_eq!(rgb(235, 128, 128), (255, 255, 255));
    assert_eq!(rgb(81, 90, 240), (255, 0, 0));
    assert_eq!(rgb(145, 54, 34), (0, 255, 1));
    assert_eq!(rgb(41, 240, 110), (0, 0, 255));
    assert_eq!(rgb(126, 128, 128), (128, 128, 128));
}

#[test]
fn neutral_chroma_is_grey_in_limited_range() {
    for y in 0..=255u8 {
        let (r, g, b) = rgb(y, 128, 128);
        assert!(r == g && g == b);
        if y <= 16 {
            assert_eq!(r, 0);
        }
        if y >= 235 {
            assert_eq!(r, 255);
        }
    }
}

#[test]
fn more_luma_is_never_darker() {
    for y in 0..255u8 {
        let (r1, g1, b1) = rgb(y, 90, 200);
        let (r2, g2, b2) = rgb(y + 1, 90, 200);
        assert!(r1 <= r2 && g1 <= g2 && b1 <= b2);
    }
}

#[test]
fn sixteen_bit_lanes_are_close_for_moderate_samples() {
    for y in 16..=180u8 {
        let (r, g, b) = rgb(y, 120, 140);
        let (r16, g16, b16) = rgb_int16(y, 120, 140);
        assert_eq!((g, b), (g16, b16));
        assert!((r as i32 - r16 as i32).abs() <= 1);
    }
}

#[test]
fn sixteen_bit_lanes_wrap_for_bright_saturated_samples() {
    assert_eq!(rgb(235, 128, 240).0, 255);
    assert_eq!(rgb_int16(235, 128, 240).0, 0);
}

#[test]
fn nv12_rows_and_columns_share_chroma() {
    let y = [16u8, 235, 99, 99, 81, 81, 99, 99, 16, 16];
    let uv = [128u8, 128, 0, 0, 90, 240];
    let picture = Nv12 { y: &y, y_stride: 4, uv: &uv, uv_stride: 4 };
    let mut out = vec![7u8; 2 * 3 * 3 + 2];
    nv12_to_rgb8(&picture, 2, 3, &mut out);
    assert_eq!(&out[0..6], &[0, 0, 0, 255, 255, 255]);
    let grey = rgb(81, 128, 128);
    assert_eq!(&out[6..9], &[grey.0, grey.1, grey.2]);
    let red = rgb(16, 90, 240);
    assert_eq!(&out[12..15], &[red.0, red.1, red.2]);
    assert_eq!(&out[18..], &[7, 7]);
}

#[test]
fn last_row_of_an_odd_height_shares_the_chroma_that_is_there() {
    let y = [16u8, 16, 16, 16, 81, 81];
    let uv = [90u8, 240];
    let picture = Nv12 { y: &y, y_stride: 2, uv: &uv, uv_stride: 2 };
    let mut out = vec![0u8; 18];
    nv12_to_rgb8(&picture, 2, 3, &mut out);
    let shared = rgb(81, 90, 240);
    assert_eq!(&out[12..15], &[shared.0, shared.1, shared.2]);
    let row = Nv12 { y: &[235], y_stride: 1, uv: &[], uv_stride: 2 };
    let mut out = vec![0u8; 3];
    nv12_to_rgb8(&row, 1, 1, &mut out);
    assert_eq!(out, vec![255, 255, 255]);
}

#[test]
fn nv12_of_no_pixels_writes_nothing() {
    let picture = Nv12 { y: &[], y_stride: 0, uv: &[], uv_stride: 0 };
    let mut out = vec![9u8; 4];
    nv12_to_rgb8(&picture, 0, 5, &mut out);
    assert_eq!(out, vec![9, 9, 9, 9]);
    assert!(nv12_frame(&picture, 5, 0, 0, false).rgb8_data.is_empty());
}

#[test]
fn eight_columns_go_through_the_lanes_and_the_rest_does_not() {
    let y = [235u8; 9];
    let uv = [128u8, 240, 128, 240, 128, 240, 128, 240, 128, 240];
    let picture = Nv12 { y: &y, y_stride: 9, uv: &uv, uv_stride: 10 };
    let mut out = vec![0u8; 27];
    nv12_bt601_to_rgb_sse2(&picture, 9, 1, &mut out);
    let lane = rgb_int16(235, 128, 240);
    let exact = rgb(235, 128, 240);
    assert_eq!(&out[0..3], &[lane.0, lane.1, lane.2]);
    assert_eq!(&out[21..24], &[lane.0, lane.1, lane.2]);
    assert_eq!(&out[24..27], &[exact.0, exact.1, exact.2]);
}

#[test]
fn bgra_drops_alpha_and_padding() {
    let data = [1u8, 2, 3, 255, 4, 5, 6, 255, 0, 0, 7, 8, 9, 255, 10, 11, 12];
    let picture = Bgra { data: &data, stride: 10 };
    let mut out = vec![0u8; 12];
    bgra_to_rgb(&picture, 2, 2, &mut out);
    assert_eq!(out, vec![3, 2, 1, 6, 5, 4, 9, 8, 7, 12, 11, 10]);
    let frame = bgra_frame(&picture, 2, 2, 5, true);
    assert_eq!(frame.rgb8_data, out);
    assert_eq!((frame.width, frame.height, frame.timestamp_us), (2, 2, 5));
    assert!(frame.keyframe && frame.bit_depth == 8 && frame.rgb16_data.is_none());
}

#[test]
fn extents_are_what_a_picture_needs() {
    assert_eq!(nv12_extent(3, 3, 10, 12), Some((23, 4)));
    assert_eq!(nv12_extent(3, 4, 10, 12), Some((33, 16)));
    assert_eq!(nv12_extent(3, 1, 10, 12), Some((3, 0)));
    assert_eq!(nv12_extent(0, 3, 10, 12), Some((0, 0)));
    assert_eq!(nv12_extent(2, 2, usize::MAX, 2), None);
    assert_eq!(nv12_extent(2, 5, 2, usize::MAX), None);
    assert_eq!(bgra_extent(2, 2, 10), Some(17));
    assert_eq!(bgra_extent(2, 0, 10), Some(0));
    assert_eq!(bgra_extent(usize::MAX, 1, 0), None);
}
