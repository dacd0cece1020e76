use hw_decode::vaapi::dpb::{Dpb, DpbEntry};
use hw_decode::vaapi::params::{
    SliceHeader, Sps, VAPictureH264, VA_INVALID_ID, VA_PICTURE_H264_INVALID,
};
use hw_decode::vaapi::pool::find_free_surface;

fn sps(pic_order_cnt_type: u32, log2_max_pic_order_cnt_lsb: u32) -> Sps {
    Sps {
        profile_idc: 100,
        level_idc: 40,
        chroma_format_idc: 1,
        bit_depth_luma: 8,
        bit_depth_chroma: 8,
        log2_max_frame_num: 4,
        pic_order_cnt_type,
        log2_max_pic_order_cnt_lsb,
        max_num_ref_frames: 4,
        pic_width_in_mbs: 120,
        pic_height_in_map_units: 68,
        frame_mbs_only_flag: true,
        mb_adaptive_frame_field_flag: false,
        scaling_list_4x4: [[16; 16]; 6],
        scaling_list_8x8: [[16; 64]; 6],
        cropped_width: 1920,
        cropped_height: 1080,
    }
}

fn header(pic_order_cnt_lsb: u32) -> SliceHeader {
    SliceHeader {
        first_mb_in_slice: 0,
        slice_type: 5,
        frame_num: 0,
        field_pic_flag: false,
        pic_order_cnt_lsb,
        delta_pic_order_cnt_bottom: 0,
        direct_spatial_mv_pred_flag: false,
        num_ref_idx_l0_active_minus1: 0,
        num_ref_idx_l1_active_minus1: 0,
        cabac_init_idc: 0,
        slice_qp_delta: 0,
        disable_deblocking_filter_idc: 0,
        slice_alpha_c0_offset_div2: 0,
        slice_beta_offset_div2: 0,
        weight_table: None,
        header_bit_len: 0,
    }
}

fn entry(surface_idx: usize, frame_num: u32, poc: i32) -> DpbEntry {
    DpbEntry {
        surface_idx,
        frame_num,
        top_poc: poc,
        bottom_poc: poc,
        is_long_term: false,
        is_reference: true,
    }
}

fn ids(list: &[VAPictureH264]) -> Vec<u32> {
    list.iter().map(|p| p.picture_id).take_while(|id| *id != VA_INVALID_ID).collect()
}

const SURFACES: [u32; 6] = [100, 101, 102, 103, 104, 105];

#[test]
fn buffer_starts_empty() {
    let dpb = Dpb::new(5);
    assert!(dpb.entries.is_empty());
    assert_eq!(dpb.max_size, 5);
    assert_eq!((dpb.poc_counter, dpb.prev_poc_lsb, dpb.prev_poc_msb), (0, 0, 0));
}

#[test]
fn clearing_gives_the_surfaces() {
    let mut dpb = Dpb::new(4);
    dpb.add_reference(3, 1, 2, 2);
    dpb.add_reference(0, 2, 4, 4);
    dpb.poc_counter = 8;
    dpb.prev_poc_lsb = 4;
    dpb.prev_poc_msb = 16;
    assert_eq!(dpb.clear(), vec![3, 0]);
    assert!(dpb.entries.is_empty());
    assert_eq!((dpb.poc_counter, dpb.prev_poc_lsb, dpb.prev_poc_msb), (0, 0, 0));
    assert_eq!(dpb.max_size, 4);
}

#[test]
fn eviction_waits_until_the_buffer_is_full() {
    let mut dpb = Dpb::new(3);
    dpb.add_reference(0, 0, 0, 0);
    dpb.add_reference(1, 1, 2, 2);
    let mut in_use = [true, true];
    dpb.sliding_window_evict(&mut in_use);
    assert_eq!(dpb.entries.len(), 2);
    assert_eq!(in_use, [true, true]);
}

#[test]
fn oldest_short_term_reference_leaves_first() {
    let mut dpb = Dpb::new(3);
    dpb.entries.push(DpbEntry { is_long_term: true, ..entry(0, 0, 0) });
    dpb.entries.push(entry(1, 1, 2));
    dpb.entries.push(entry(2, 2, 4));
    let mut in_use = [true, true, true];
    dpb.sliding_window_evict(&mut in_use);
    assert_eq!(in_use, [true, false, true]);
    assert_eq!(dpb.entries.iter().map(|e| e.surface_idx).collect::<Vec<_>>(), vec![0, 2]);
}

#[test]
fn oldest_entry_leaves_where_all_are_long_term() {
    let mut dpb = Dpb::new(1);
    dpb.entries.push(DpbEntry { is_long_term: true, ..entry(1, 0, 0) });
    dpb.entries.push(DpbEntry { is_long_term: true, ..entry(0, 1, 2) });
    let mut in_use = [true, true];
    dpb.sliding_window_evict(&mut in_use);
    assert_eq!(in_use, [true, false]);
    assert_eq!(dpb.entries[0].surface_idx, 0);
}

#[test]
fn evicted_surface_outside_the_pool_is_ignored() {
    let mut dpb = Dpb::new(0);
    dpb.add_reference(9, 0, 0, 0);
    let mut in_use = [true];
    dpb.sliding_window_evict(&mut in_use);
    assert!(dpb.entries.is_empty());
    assert_eq!(in_use, [true]);
}

#[test]
fn picture_flags() {
    let p = Dpb::to_va_picture(&entry(2, 7, 8), &SURFACES);
    assert_eq!((p.picture_id, p.frame_idx, p.flags), (102, 7, 0x08));
    let p = Dpb::to_va_picture(
        &DpbEntry { is_long_term: true, bottom_poc: 9, ..entry(2, 7, 8) },
        &SURFACES,
    );
    assert_eq!(p.flags, 0x16);
    assert_eq!((p.top_field_order_cnt, p.bottom_field_order_cnt), (8, 9));
    let none = VAPictureH264::default();
    assert_eq!((none.picture_id, none.flags), (VA_INVALID_ID, VA_PICTURE_H264_INVALID));
}

#[test]
fn reference_frames_keep_their_order() {
    let mut dpb = Dpb::new(16);
    dpb.entries.push(entry(4, 0, 0));
    dpb.entries.push(DpbEntry { is_reference: false, ..entry(1, 1, 2) });
    dpb.entries.push(entry(2, 2, 4));
    let list = dpb.build_va_reference_frames(&SURFACES);
    assert_eq!(ids(&list), vec![104, 102]);
    assert_eq!(list[2], VAPictureH264::default());
    assert_eq!(list[15], VAPictureH264::default());
}

#[test]
fn predicted_slices_list_the_latest_first() {
    let mut dpb = Dpb::new(16);
    dpb.entries.push(entry(0, 3, 30));
    dpb.entries.push(DpbEntry { is_long_term: true, ..entry(1, 9, 5) });
    dpb.entries.push(entry(2, 5, 10));
    dpb.entries.push(entry(3, 4, 20));
    dpb.entries.push(DpbEntry { is_long_term: true, ..entry(4, 8, 6) });
    assert_eq!(ids(&dpb.build_ref_pic_list0(&SURFACES, 5, 0)), vec![102, 103, 100, 104, 101]);
    assert!(ids(&dpb.build_ref_pic_list1(&SURFACES, 5, 0)).is_empty());
}

#[test]
fn bi_predicted_slices_list_past_then_future() {
    let mut dpb = Dpb::new(16);
    dpb.entries.push(entry(0, 0, 4));
    dpb.entries.push(entry(1, 1, 12));
    dpb.entries.push(entry(2, 2, 8));
    dpb.entries.push(entry(3, 3, 16));
    dpb.entries.push(DpbEntry { is_long_term: true, ..entry(4, 0, 2) });
    let list0 = dpb.build_ref_pic_list0(&SURFACES, 6, 8);
    assert_eq!(ids(&list0), vec![102, 100, 101, 103, 104]);
    let list1 = dpb.build_ref_pic_list1(&SURFACES, 6, 8);
    for i in 0..32 {
        assert_eq!(list1[i], list0[31 - i]);
    }
}

#[test]
fn equal_ranks_keep_their_order() {
    let mut dpb = Dpb::new(16);
    dpb.entries.push(entry(3, 1, 0));
    dpb.entries.push(entry(1, 1, 0));
    dpb.entries.push(entry(2, 1, 0));
    assert_eq!(ids(&dpb.build_ref_pic_list0(&SURFACES, 0, 0)), vec![103, 101, 102]);
    assert_eq!(ids(&dpb.build_ref_pic_list0(&SURFACES, 1, 0)), vec![103, 101, 102]);
}

#[test]
fn order_counts_wrap_up_and_down() {
    let s = sps(0, 4);
    let mut dpb = Dpb::new(4);
    assert_eq!(dpb.compute_poc(&s, &header(14), true), (14, 14));
    assert_eq!(dpb.compute_poc(&s, &header(2), false), (18, 18));
    assert_eq!(dpb.prev_poc_msb, 16);
    assert_eq!(dpb.compute_poc(&s, &header(13), false), (13, 13));
    assert_eq!(dpb.prev_poc_msb, 0);
    assert_eq!(dpb.compute_poc(&s, &header(5), false), (21, 21));
    assert_eq!(dpb.compute_poc(&s, &header(7), true), (7, 7));
    assert_eq!(dpb.prev_poc_msb, 0);
}

#[test]
fn order_counts_are_restored_from_their_low_part() {
    let s = sps(0, 5);
    let mut dpb = Dpb::new(4);
    let mut poc = 0i32;
    assert_eq!(dpb.compute_poc(&s, &header(0), true).0, 0);
    for step in [2, 7, 16, -5, 3, -15, 16, 16, 16, -1] {
        poc += step;
        assert_eq!(dpb.compute_poc(&s, &header(poc.rem_euclid(32) as u32), false).0, poc);
    }
}

#[test]
fn bottom_fields_have_their_own_count() {
    let s = sps(0, 8);
    let mut dpb = Dpb::new(4);
    let h = SliceHeader { delta_pic_order_cnt_bottom: -3, ..header(10) };
    assert_eq!(dpb.compute_poc(&s, &h, true), (10, 7));
    let field = SliceHeader { field_pic_flag: true, ..h };
    assert_eq!(dpb.compute_poc(&s, &field, true), (10, 10));
}

#[test]
fn other_types_count_pictures_in_twos() {
    let s = sps(2, 4);
    let mut dpb = Dpb::new(4);
    assert_eq!(dpb.compute_poc(&s, &header(9), true), (0, 0));
    assert_eq!(dpb.compute_poc(&s, &header(9), false), (2, 2));
    assert_eq!(dpb.compute_poc(&s, &header(9), false), (4, 4));
    assert_eq!(dpb.compute_poc(&s, &header(9), true), (0, 0));
    dpb.poc_counter = i32::MAX - 1;
    assert_eq!(dpb.compute_poc(&s, &header(9), false).0, i32::MAX - 1);
    assert_eq!(dpb.poc_counter, i32::MAX);
}

#[test]
fn counts_that_leave_their_range_are_told() {
    let s = sps(0, 30);
    let mut dpb = Dpb::new(4);
    dpb.prev_poc_msb = i32::MAX - 5;
    dpb.prev_poc_lsb = 0x3fff_ffff;
    assert!(!dpb.poc_fits(&s, &header(0), false));
    assert!(dpb.poc_fits(&s, &header(0), true));
    assert!(dpb.poc_fits(&sps(1, 30), &header(0), false));
    let h = SliceHeader { delta_pic_order_cnt_bottom: i32::MAX, ..header(1) };
    assert!(!dpb.poc_fits(&s, &h, true));
}

#[test]
fn first_free_surface() {
    assert_eq!(find_free_surface(&vec![true, false, true, false]), Some(1));
    assert_eq!(find_free_surface(&vec![true, true]), None);
    assert_eq!(find_free_surface(&vec![]), None);
}
