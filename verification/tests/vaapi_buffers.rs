use hw_decode::vaapi::buffers::{
    ref_frame_count, VAIQMatrixBufferH264, VAPictureParameterBufferH264,
    VASliceParameterBufferH264,
};
use hw_decode::vaapi::fields::{
    check_va, pack_pic_fields, pack_seq_fields, select_h264_profile,
};
use hw_decode::vaapi::params::{Pps, SliceHeader, Sps, VAPictureH264, Weight, WeightTable};

fn sps() -> Sps {
    Sps {
        profile_idc: 77,
        level_idc: 31,
        chroma_format_idc: 1,
        bit_depth_luma: 10,
        bit_depth_chroma: 7,
        log2_max_frame_num: 7,
        pic_order_cnt_type: 2,
        log2_max_pic_order_cnt_lsb: 9,
        max_num_ref_frames: 20,
        pic_width_in_mbs: 120,
        pic_height_in_map_units: 34,
        frame_mbs_only_flag: false,
        mb_adaptive_frame_field_flag: true,
        scaling_list_4x4: [[16; 16]; 6],
        scaling_list_8x8: [[16; 64]; 6],
        cropped_width: 1920,
        cropped_height: 1080,
    }
}

fn pps() -> Pps {
    Pps {
        entropy_coding_mode_flag: true,
        weighted_pred_flag: false,
        weighted_bipred_idc: 2,
        transform_8x8_mode_flag: true,
        deblocking_filter_control_present_flag: true,
        pic_init_qp: 20,
    }
}

fn header() -> SliceHeader {
    SliceHeader {
        first_mb_in_slice: 0x1_0003,
        slice_type: 7,
        frame_num: 0x2_0001,
        field_pic_flag: true,
        pic_order_cnt_lsb: 0,
        delta_pic_order_cnt_bottom: 0,
        direct_spatial_mv_pred_flag: true,
        num_ref_idx_l0_active_minus1: 3,
        num_ref_idx_l1_active_minus1: 0x105,
        cabac_init_idc: 2,
        slice_qp_delta: -7,
        disable_deblocking_filter_idc: 1,
        slice_alpha_c0_offset_div2: -3,
        slice_beta_offset_div2: 200,
        weight_table: None,
        header_bit_len: 0x1_0042,
    }
}

#[test]
fn sequence_fields_read_back() {
    let f = pack_seq_fields(&sps());
    assert_eq!(f, 1 | (1 << 5) | (1 << 6) | (1 << 7) | (3 << 8) | (2 << 12) | (5 << 14));
    assert_eq!(f & 3, 1);
    assert_eq!((f >> 4) & 1, 0);
    assert_eq!((f >> 8) & 0xf, 3);
    assert_eq!((f >> 14) & 0xf, 5);
    let low = Sps { level_idc: 30, log2_max_frame_num: 2, ..sps() };
    assert_eq!((pack_seq_fields(&low) >> 7) & 0x1f, 0);
}

#[test]
fn picture_fields_read_back() {
    let f = pack_pic_fields(&pps(), &header(), 2);
    assert_eq!(f, 1 | (2 << 2) | (1 << 4) | (1 << 5) | (1 << 8) | (1 << 10));
    assert_eq!(pack_pic_fields(&pps(), &header(), 0) & (1 << 10), 0);
}

#[test]
fn profiles() {
    assert_eq!(select_h264_profile(66), 13);
    assert_eq!(select_h264_profile(77), 6);
    assert_eq!(select_h264_profile(100), 7);
    assert_eq!(select_h264_profile(244), 7);
}

#[test]
fn status_of_a_call() {
    assert!(check_va(0, "vaSyncSurface").is_ok());
    assert_eq!(
        check_va(-3, "vaSyncSurface").err().unwrap().message(),
        "VA-API: vaSyncSurface failed: -3"
    );
}

#[test]
fn picture_parameters() {
    let refs = [VAPictureH264::default(); 16];
    let b = VAPictureParameterBufferH264::new(&sps(), &pps(), &header(), 1, 55, 6, 7, refs);
    assert_eq!(b.curr_pic.picture_id, 55);
    assert_eq!(b.curr_pic.frame_idx, 0x2_0001);
    assert_eq!(b.curr_pic.flags, 0);
    assert_eq!((b.curr_pic.top_field_order_cnt, b.curr_pic.bottom_field_order_cnt), (6, 7));
    assert_eq!(b.picture_width_in_mbs_minus1, 119);
    assert_eq!(b.picture_height_in_mbs_minus1, 67);
    assert_eq!((b.bit_depth_luma_minus8, b.bit_depth_chroma_minus8), (2, 0));
    assert_eq!(b.num_ref_frames, 16);
    assert_eq!(b.pic_init_qp_minus26, -6);
    assert_eq!(b.frame_num, 1);
    assert_eq!(b.seq_fields, pack_seq_fields(&sps()));
    assert_eq!(b.pic_fields, pack_pic_fields(&pps(), &header(), 1));
    assert_eq!(ref_frame_count(&sps()), 16);
    let few = Sps { max_num_ref_frames: 3, ..sps() };
    assert_eq!(ref_frame_count(&few), 3);
}

#[test]
fn sizes_at_their_limits() {
    let refs = [VAPictureH264::default(); 16];
    let odd = Sps { pic_width_in_mbs: 0, pic_height_in_map_units: u32::MAX, ..sps() };
    let b = VAPictureParameterBufferH264::new(&odd, &pps(), &header(), 1, 0, 0, 0, refs);
    assert_eq!(b.picture_width_in_mbs_minus1, 0);
    assert_eq!(b.picture_height_in_mbs_minus1, 0xfffe);
    let frames = Sps { frame_mbs_only_flag: true, pic_height_in_map_units: 68, ..sps() };
    let b = VAPictureParameterBufferH264::new(&frames, &pps(), &header(), 1, 0, 0, 0, refs);
    assert_eq!(b.picture_height_in_mbs_minus1, 67);
}

#[test]
fn quantisation_matrices() {
    let mut s = sps();
    s.scaling_list_4x4[5][15] = 300;
    s.scaling_list_8x8[0][63] = -1;
    s.scaling_list_8x8[3][0] = 77;
    s.scaling_list_8x8[1][0] = 99;
    let b = VAIQMatrixBufferH264::new(&s);
    assert_eq!(b.scaling_list_4x4[5][15], 44);
    assert_eq!(b.scaling_list_4x4[0][0], 16);
    assert_eq!(b.scaling_list_8x8[0][63], 255);
    assert_eq!(b.scaling_list_8x8[1][0], 77);
    assert_eq!(b.scaling_list_8x8[0][0], 16);
}

#[test]
fn slice_parameters_are_truncated() {
    let list = [VAPictureH264::default(); 32];
    let b = VASliceParameterBufferH264::new(&header(), 1234, list, list);
    assert_eq!(b.slice_data_size, 1234);
    assert_eq!((b.slice_data_offset, b.slice_data_flag), (0, 0));
    assert_eq!(b.slice_data_bit_offset, 0x42);
    assert_eq!(b.first_mb_in_slice, 3);
    assert_eq!(b.slice_type, 2);
    assert_eq!(b.direct_spatial_mv_pred_flag, 1);
    assert_eq!(b.num_ref_idx_l0_active_minus1, 3);
    assert_eq!(b.num_ref_idx_l1_active_minus1, 5);
    assert_eq!(b.cabac_init_idc, 2);
    assert_eq!(b.slice_qp_delta, -7);
    assert_eq!(b.disable_deblocking_filter_idc, 1);
    assert_eq!(b.slice_alpha_c0_offset_div2, -3);
    assert_eq!(b.slice_beta_offset_div2, -56);
    assert_eq!(b.weights.luma_l0.flag, 0);
    assert_eq!(b.weights.chroma_l1.weight[31], [0, 0]);
}

#[test]
fn weights_fill_their_lists() {
    let many: Vec<Weight> = (0..40).map(|i| Weight { weight: i, offset: -i }).collect();
    let mut h = header();
    h.weight_table = Some(WeightTable {
        luma_log2_denom: 5,
        chroma_log2_denom: 0x106,
        luma_l0: many,
        chroma_l0: vec![[
            Weight { weight: 1, offset: 2 },
            Weight { weight: 40_000, offset: -40_000 },
        ]],
        luma_l1: vec![],
        chroma_l1: vec![],
    });
    let list = [VAPictureH264::default(); 32];
    let w = VASliceParameterBufferH264::new(&h, 0, list, list).weights;
    assert_eq!((w.luma_log2_weight_denom, w.chroma_log2_weight_denom), (5, 6));
    assert_eq!(w.luma_l0.flag, 1);
    assert_eq!((w.luma_l0.weight[31], w.luma_l0.offset[31]), (31, -31));
    assert_eq!(w.chroma_l0.flag, 1);
    assert_eq!(w.chroma_l0.weight[0], [1, -25_536]);
    assert_eq!(w.chroma_l0.offset[0], [2, 25_536]);
    assert_eq!(w.chroma_l0.weight[1], [0, 0]);
    assert_eq!((w.luma_l1.flag, w.chroma_l1.flag), (0, 0));
}
