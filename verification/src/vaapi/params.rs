//! Stream parameters, and the pictures and bit fields that the driver takes.

use vstd::prelude::*;

verus! {

pub const VA_PROFILE_H264_CONSTRAINED_BASELINE: i32 = 13;

pub const VA_PROFILE_H264_MAIN: i32 = 6;

pub const VA_PROFILE_H264_HIGH: i32 = 7;

pub const VA_PROFILE_HEVC_MAIN: i32 = 12;

pub const VA_STATUS_SUCCESS: i32 = 0;

pub const VA_INVALID_ID: u32 = 0xffff_ffff;

pub const VA_PICTURE_H264_INVALID: u32 = 0x01;

pub const VA_PICTURE_H264_TOP_FIELD: u32 = 0x02;

pub const VA_PICTURE_H264_BOTTOM_FIELD: u32 = 0x04;

pub const VA_PICTURE_H264_SHORT_TERM_REFERENCE: u32 = 0x08;

pub const VA_PICTURE_H264_LONG_TERM_REFERENCE: u32 = 0x10;

/// A sequence parameter set, as far as decoding needs it.
pub struct Sps {
    pub profile_idc: u8,
    pub level_idc: u8,
    pub chroma_format_idc: u32,
    pub bit_depth_luma: u32,
    pub bit_depth_chroma: u32,
    pub log2_max_frame_num: u32,
    pub pic_order_cnt_type: u32,
    pub log2_max_pic_order_cnt_lsb: u32,
    pub max_num_ref_frames: u32,
    pub pic_width_in_mbs: u32,
    pub pic_height_in_map_units: u32,
    pub frame_mbs_only_flag: bool,
    pub mb_adaptive_frame_field_flag: bool,
    pub scaling_list_4x4: [[i32; 16]; 6],
    pub scaling_list_8x8: [[i32; 64]; 6],
    /// The size of the picture inside the cropping window.
    pub cropped_width: usize,
    pub cropped_height: usize,
}

/// A picture parameter set, as far as decoding needs it.
#[derive(Clone, Copy)]
pub struct Pps {
    pub entropy_coding_mode_flag: bool,
    pub weighted_pred_flag: bool,
    pub weighted_bipred_idc: u32,
    pub transform_8x8_mode_flag: bool,
    pub deblocking_filter_control_present_flag: bool,
    pub pic_init_qp: i32,
}

/// An explicit prediction weight.
#[derive(Clone, Copy)]
pub struct Weight {
    pub weight: i32,
    pub offset: i32,
}

/// The explicit prediction weights of a slice.
pub struct WeightTable {
    pub luma_log2_denom: u32,
    pub chroma_log2_denom: u32,
    pub luma_l0: Vec<Weight>,
    pub chroma_l0: Vec<[Weight; 2]>,
    pub luma_l1: Vec<Weight>,
    pub chroma_l1: Vec<[Weight; 2]>,
}

/// A slice header, as far as decoding needs it.
pub struct SliceHeader {
    pub first_mb_in_slice: u32,
    pub slice_type: u32,
    pub frame_num: u32,
    pub field_pic_flag: bool,
    pub pic_order_cnt_lsb: u32,
    pub delta_pic_order_cnt_bottom: i32,
    pub direct_spatial_mv_pred_flag: bool,
    pub num_ref_idx_l0_active_minus1: u32,
    pub num_ref_idx_l1_active_minus1: u32,
    pub cabac_init_idc: u32,
    pub slice_qp_delta: i32,
    pub disable_deblocking_filter_idc: u32,
    pub slice_alpha_c0_offset_div2: i32,
    pub slice_beta_offset_div2: i32,
    pub weight_table: Option<WeightTable>,
    pub header_bit_len: u32,
}

/// A picture as the driver knows it.
#[derive(Debug, Clone, Copy, PartialEq, Eq, Structural)]
pub struct VAPictureH264 {
    pub picture_id: u32,
    pub frame_idx: u32,
    pub flags: u32,
    pub top_field_order_cnt: i32,
    pub bottom_field_order_cnt: i32,
}

/// The entry that stands for no picture.
pub open spec fn no_picture() -> VAPictureH264 {
    VAPictureH264 {
        picture_id: VA_INVALID_ID,
        frame_idx: 0,
        flags: VA_PICTURE_H264_INVALID,
        top_field_order_cnt: 0,
        bottom_field_order_cnt: 0,
    }
}

impl Default for VAPictureH264 {
    fn default() -> (picture: Self)
        ensures
            picture == no_picture(),
    {
        VAPictureH264 {
            picture_id: VA_INVALID_ID,
            frame_idx: 0,
            flags: VA_PICTURE_H264_INVALID,
            top_field_order_cnt: 0,
            bottom_field_order_cnt: 0,
        }
    }
}

} // verus!
