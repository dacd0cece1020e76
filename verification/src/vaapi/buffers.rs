//! The parameter buffers that describe a picture and its slices to the driver.

use vstd::prelude::*;

use crate::vaapi::fields::{pack_pic_fields, pack_seq_fields, pic_fields, seq_fields, flag};
use crate::vaapi::params::{Pps, SliceHeader, Sps, VAPictureH264, Weight, WeightTable};

verus! {

/// `v` reduced to an 8-bit two's complement number.
pub open spec fn wrap_i8(v: int) -> int {
    (v + 0x80) % 0x100 - 0x80
}

/// `v` reduced to a 16-bit two's complement number.
pub open spec fn wrap_i16(v: int) -> int {
    (v + 0x8000) % 0x1_0000 - 0x8000
}

/// `v - n`, or zero below `n`.
pub open spec fn less(v: u32, n: int) -> int {
    if v < n {
        0
    } else {
        v - n
    }
}

fn low_u8(v: u32) -> (r: u8)
    ensures
        r == v % 0x100,
{
    (v % 0x100) as u8
}

fn low_u16(v: u32) -> (r: u16)
    ensures
        r == v % 0x1_0000,
{
    (v % 0x1_0000) as u16
}

fn byte_of(v: i32) -> (r: u8)
    ensures
        r == (v as int) % 0x100,
{
    ((v as i64 + 0x1_0000_0000) % 0x100) as u8
}

fn low_i8(v: i32) -> (r: i8)
    ensures
        r == wrap_i8(v as int),
{
    ((v as i64 + 0x1_0000_0080) % 0x100 - 0x80) as i8
}

fn low_i16(v: i32) -> (r: i16)
    ensures
        r == wrap_i16(v as int),
{
    ((v as i64 + 0x1_0000_8000) % 0x1_0000 - 0x8000) as i16
}

/// The parameters of a picture.
pub struct VAPictureParameterBufferH264 {
    pub curr_pic: VAPictureH264,
    pub reference_frames: [VAPictureH264; 16],
    pub picture_width_in_mbs_minus1: u16,
    pub picture_height_in_mbs_minus1: u16,
    pub bit_depth_luma_minus8: u8,
    pub bit_depth_chroma_minus8: u8,
    pub num_ref_frames: u8,
    pub seq_fields: u32,
    pub pic_init_qp_minus26: i8,
    pub pic_fields: u32,
    pub frame_num: u16,
}

/// The height of a picture in macroblocks: an interlaced stream counts in
/// pairs of field rows.
pub open spec fn height_in_mbs(sps: &Sps) -> int {
    if sps.frame_mbs_only_flag {
        sps.pic_height_in_map_units as int
    } else if sps.pic_height_in_map_units * 2 > u32::MAX {
        u32::MAX as int
    } else {
        sps.pic_height_in_map_units * 2
    }
}

/// The number of references a stream keeps, sixteen at most.
pub open spec fn ref_frames(sps: &Sps) -> u32 {
    if sps.max_num_ref_frames < 16 {
        sps.max_num_ref_frames
    } else {
        16
    }
}

/// The number of references a stream keeps, sixteen at most.
pub fn ref_frame_count(sps: &Sps) -> (n: u32)
    ensures
        n == ref_frames(sps),
{
    if sps.max_num_ref_frames < 16 {
        sps.max_num_ref_frames
    } else {
        16
    }
}

impl VAPictureParameterBufferH264 {
    /// The buffer describes a picture on `surface` of a stream with these
    /// parameters.
    pub open spec fn describes(
        self,
        sps: &Sps,
        pps: &Pps,
        sh: &SliceHeader,
        nal_ref_idc: u8,
        surface: u32,
        top_poc: i32,
        bottom_poc: i32,
        reference_frames: Seq<VAPictureH264>,
    ) -> bool {
        &&& self.curr_pic == VAPictureH264 {
            picture_id: surface,
            frame_idx: sh.frame_num,
            flags: 0,
            top_field_order_cnt: top_poc,
            bottom_field_order_cnt: bottom_poc,
        }
        &&& self.reference_frames@ == reference_frames
        &&& self.picture_width_in_mbs_minus1 == less(sps.pic_width_in_mbs, 1) % 0x1_0000
        &&& self.picture_height_in_mbs_minus1 == less(height_in_mbs(sps) as u32, 1) % 0x1_0000
        &&& self.bit_depth_luma_minus8 == less(sps.bit_depth_luma, 8) % 0x100
        &&& self.bit_depth_chroma_minus8 == less(sps.bit_depth_chroma, 8) % 0x100
        &&& self.num_ref_frames == ref_frames(sps)
        &&& self.seq_fields == seq_fields(sps)
        &&& self.pic_init_qp_minus26 == wrap_i8(pps.pic_init_qp - 26)
        &&& self.pic_fields == pic_fields(pps, sh, nal_ref_idc)
        &&& self.frame_num == sh.frame_num % 0x1_0000
    }

    /// The parameters of a picture.
    pub fn new(
        sps: &Sps,
        pps: &Pps,
        sh: &SliceHeader,
        nal_ref_idc: u8,
        surface: u32,
        top_poc: i32,
        bottom_poc: i32,
        reference_frames: [VAPictureH264; 16],
    ) -> (buffer: Self)
        requires
            i32::MIN + 26 <= pps.pic_init_qp,
        ensures
            buffer.describes(
                sps,
                pps,
                sh,
                nal_ref_idc,
                surface,
                top_poc,
                bottom_poc,
                reference_frames@,
            ),
    {
        let height: u32 = if sps.frame_mbs_only_flag {
            sps.pic_height_in_map_units
        } else if sps.pic_height_in_map_units > u32::MAX / 2 {
            u32::MAX
        } else {
            sps.pic_height_in_map_units * 2
        };
        VAPictureParameterBufferH264 {
            curr_pic: VAPictureH264 {
                picture_id: surface,
                frame_idx: sh.frame_num,
                flags: 0,
                top_field_order_cnt: top_poc,
                bottom_field_order_cnt: bottom_poc,
            },
            reference_frames,
            picture_width_in_mbs_minus1: low_u16(sps.pic_width_in_mbs.saturating_sub(1)),
            picture_height_in_mbs_minus1: low_u16(height.saturating_sub(1)),
            bit_depth_luma_minus8: low_u8(sps.bit_depth_luma.saturating_sub(8)),
            bit_depth_chroma_minus8: low_u8(sps.bit_depth_chroma.saturating_sub(8)),
            num_ref_frames: low_u8(ref_frame_count(sps)),
            seq_fields: pack_seq_fields(sps),
            pic_init_qp_minus26: low_i8(pps.pic_init_qp - 26),
            pic_fields: pack_pic_fields(pps, sh, nal_ref_idc),
            frame_num: low_u16(sh.frame_num),
        }
    }
}

/// The quantisation matrices of a picture.
pub struct VAIQMatrixBufferH264 {
    pub scaling_list_4x4: [[u8; 16]; 6],
    pub scaling_list_8x8: [[u8; 64]; 2],
}

fn bytes16(list: &[i32; 16]) -> (bytes: [u8; 16])
    ensures
        forall|j: int| 0 <= j < 16 ==> #[trigger] bytes@[j] == (list@[j] as int) % 0x100,
{
    let mut bytes: [u8; 16] = [0u8; 16];
    let mut j: usize = 0;
    while j < 16
        invariant
            j <= 16,
            forall|k: int| 0 <= k < j ==> #[trigger] bytes@[k] == (list@[k] as int) % 0x100,
        decreases 16 - j,
    {
        bytes[j] = byte_of(list[j]);
        j += 1;
    }
    bytes
}

fn bytes64(list: &[i32; 64]) -> (bytes: [u8; 64])
    ensures
        forall|j: int| 0 <= j < 64 ==> #[trigger] bytes@[j] == (list@[j] as int) % 0x100,
{
    let mut bytes: [u8; 64] = [0u8; 64];
    let mut j: usize = 0;
    while j < 64
        invariant
            j <= 64,
            forall|k: int| 0 <= k < j ==> #[trigger] bytes@[k] == (list@[k] as int) % 0x100,
        decreases 64 - j,
    {
        bytes[j] = byte_of(list[j]);
        j += 1;
    }
    bytes
}

impl VAIQMatrixBufferH264 {
    /// The buffer holds the scaling lists of a stream: the six lists of 4x4
    /// blocks, and of the lists of 8x8 blocks the intra and the inter luma one.
    pub open spec fn describes(self, sps: &Sps) -> bool {
        &&& forall|i: int, j: int|
            0 <= i < 6 && 0 <= j < 16 ==> #[trigger] self.scaling_list_4x4@[i]@[j] == (
            sps.scaling_list_4x4@[i]@[j] as int) % 0x100
        &&& forall|j: int|
            0 <= j < 64 ==> #[trigger] self.scaling_list_8x8@[0]@[j] == (
            sps.scaling_list_8x8@[0]@[j] as int) % 0x100
        &&& forall|j: int|
            0 <= j < 64 ==> #[trigger] self.scaling_list_8x8@[1]@[j] == (
            sps.scaling_list_8x8@[3]@[j] as int) % 0x100
    }

    /// The quantisation matrices of a picture.
    pub fn new(sps: &Sps) -> (buffer: Self)
        ensures
            buffer.describes(sps),
    {
        let mut scaling_list_4x4: [[u8; 16]; 6] = [[0u8; 16]; 6];
        let mut i: usize = 0;
        while i < 6
            invariant
                i <= 6,
                forall|k: int, j: int|
                    0 <= k < i && 0 <= j < 16 ==> #[trigger] scaling_list_4x4@[k]@[j] == (
                    sps.scaling_list_4x4@[k]@[j] as int) % 0x100,
            decreases 6 - i,
        {
            scaling_list_4x4[i] = bytes16(&sps.scaling_list_4x4[i]);
            i += 1;
        }
        let scaling_list_8x8: [[u8; 64]; 2] = [
            bytes64(&sps.scaling_list_8x8[0]),
            bytes64(&sps.scaling_list_8x8[3]),
        ];
        VAIQMatrixBufferH264 { scaling_list_4x4, scaling_list_8x8 }
    }
}

/// The luma weights of one reference list.
pub struct LumaWeights {
    pub flag: u8,
    pub weight: [i16; 32],
    pub offset: [i16; 32],
}

/// The chroma weights of one reference list.
pub struct ChromaWeights {
    pub flag: u8,
    pub weight: [[i16; 2]; 32],
    pub offset: [[i16; 2]; 32],
}

impl LumaWeights {
    /// The weights are the first entries of `table`, filled up with zeros,
    /// and the flag tells whether there are any.
    pub open spec fn describes(self, table: Seq<Weight>) -> bool {
        &&& self.flag == flag(table.len() > 0)
        &&& forall|i: int|
            0 <= i < 32 ==> #[trigger] self.weight@[i] == if i < table.len() {
                wrap_i16(table[i].weight as int)
            } else {
                0
            }
        &&& forall|i: int|
            0 <= i < 32 ==> #[trigger] self.offset@[i] == if i < table.len() {
                wrap_i16(table[i].offset as int)
            } else {
                0
            }
    }

    fn none() -> (weights: Self)
        ensures
            weights.describes(Seq::empty()),
    {
        LumaWeights { flag: 0, weight: [0i16; 32], offset: [0i16; 32] }
    }

    fn new(table: &Vec<Weight>) -> (weights: Self)
        ensures
            weights.describes(table@),
    {
        let mut weight: [i16; 32] = [0i16; 32];
        let mut offset: [i16; 32] = [0i16; 32];
        let mut i: usize = 0;
        while i < 32 && i < table.len()
            invariant
                i <= 32,
                i <= table@.len(),
                forall|k: int|
                    0 <= k < 32 ==> #[trigger] weight@[k] == if k < i {
                        wrap_i16(table@[k].weight as int)
                    } else {
                        0
                    },
                forall|k: int|
                    0 <= k < 32 ==> #[trigger] offset@[k] == if k < i {
                        wrap_i16(table@[k].offset as int)
                    } else {
                        0
                    },
            decreases 32 - i,
        {
            weight[i] = low_i16(table[i].weight);
            offset[i] = low_i16(table[i].offset);
            i += 1;
        }
        LumaWeights {
            flag: if table.len() > 0 {
                1
            } else {
                0
            },
            weight,
            offset,
        }
    }
}

impl ChromaWeights {
    /// The weights are the first entries of `table`, filled up with zeros,
    /// and the flag tells whether there are any.
    pub open spec fn describes(self, table: Seq<[Weight; 2]>) -> bool {
        &&& self.flag == flag(table.len() > 0)
        &&& forall|i: int, c: int|
            0 <= i < 32 && 0 <= c < 2 ==> #[trigger] self.weight@[i]@[c] == if i < table.len() {
                wrap_i16(table[i]@[c].weight as int)
            } else {
                0
            }
        &&& forall|i: int, c: int|
            0 <= i < 32 && 0 <= c < 2 ==> #[trigger] self.offset@[i]@[c] == if i < table.len() {
                wrap_i16(table[i]@[c].offset as int)
            } else {
                0
            }
    }

    fn none() -> (weights: Self)
        ensures
            weights.describes(Seq::empty()),
    {
        ChromaWeights { flag: 0, weight: [[0i16; 2]; 32], offset: [[0i16; 2]; 32] }
    }

    fn new(table: &Vec<[Weight; 2]>) -> (weights: Self)
        ensures
            weights.describes(table@),
    {
        let mut weight: [[i16; 2]; 32] = [[0i16; 2]; 32];
        let mut offset: [[i16; 2]; 32] = [[0i16; 2]; 32];
        let mut i: usize = 0;
        while i < 32 && i < table.len()
            invariant
                i <= 32,
                i <= table@.len(),
                forall|k: int, c: int|
                    0 <= k < 32 && 0 <= c < 2 ==> #[trigger] weight@[k]@[c] == if k < i {
                        wrap_i16(table@[k]@[c].weight as int)
                    } else {
                        0
                    },
                forall|k: int, c: int|
                    0 <= k < 32 && 0 <= c < 2 ==> #[trigger] offset@[k]@[c] == if k < i {
                        wrap_i16(table@[k]@[c].offset as int)
                    } else {
                        0
                    },
            decreases 32 - i,
        {
            let pair = &table[i];
            weight[i] = [low_i16(pair[0].weight), low_i16(pair[1].weight)];
            offset[i] = [low_i16(pair[0].offset), low_i16(pair[1].offset)];
            i += 1;
        }
        ChromaWeights {
            flag: if table.len() > 0 {
                1
            } else {
                0
            },
            weight,
            offset,
        }
    }
}

/// The explicit prediction weights of a slice, as the driver takes them.
pub struct SliceWeights {
    pub luma_log2_weight_denom: u8,
    pub chroma_log2_weight_denom: u8,
    pub luma_l0: LumaWeights,
    pub chroma_l0: ChromaWeights,
    pub luma_l1: LumaWeights,
    pub chroma_l1: ChromaWeights,
}

impl SliceWeights {
    /// The weights are those of the table; without a table all is zero.
    pub open spec fn describes(self, table: Option<WeightTable>) -> bool {
        match table {
            Some(t) => {
                &&& self.luma_log2_weight_denom == t.luma_log2_denom % 0x100
                &&& self.chroma_log2_weight_denom == t.chroma_log2_denom % 0x100
                &&& self.luma_l0.describes(t.luma_l0@)
                &&& self.chroma_l0.describes(t.chroma_l0@)
                &&& self.luma_l1.describes(t.luma_l1@)
                &&& self.chroma_l1.describes(t.chroma_l1@)
            },
            None => {
                &&& self.luma_log2_weight_denom == 0
                &&& self.chroma_log2_weight_denom == 0
                &&& self.luma_l0.describes(Seq::empty())
                &&& self.chroma_l0.describes(Seq::empty())
                &&& self.luma_l1.describes(Seq::empty())
                &&& self.chroma_l1.describes(Seq::empty())
            },
        }
    }

    fn new(table: &Option<WeightTable>) -> (weights: Self)
        ensures
            weights.describes(*table),
    {
        match table {
            Some(t) => SliceWeights {
                luma_log2_weight_denom: low_u8(t.luma_log2_denom),
                chroma_log2_weight_denom: low_u8(t.chroma_log2_denom),
                luma_l0: LumaWeights::new(&t.luma_l0),
                chroma_l0: ChromaWeights::new(&t.chroma_l0),
                luma_l1: LumaWeights::new(&t.luma_l1),
                chroma_l1: ChromaWeights::new(&t.chroma_l1),
            },
            None => SliceWeights {
                luma_log2_weight_denom: 0,
                chroma_log2_weight_denom: 0,
                luma_l0: LumaWeights::none(),
                chroma_l0: ChromaWeights::none(),
                luma_l1: LumaWeights::none(),
                chroma_l1: ChromaWeights::none(),
            },
        }
    }
}

/// The parameters of a slice.
pub struct VASliceParameterBufferH264 {
    pub slice_data_size: u32,
    pub slice_data_offset: u32,
    pub slice_data_flag: u32,
    pub slice_data_bit_offset: u16,
    pub first_mb_in_slice: u16,
    pub slice_type: u8,
    pub direct_spatial_mv_pred_flag: u8,
    pub num_ref_idx_l0_active_minus1: u8,
    pub num_ref_idx_l1_active_minus1: u8,
    pub cabac_init_idc: u8,
    pub slice_qp_delta: i8,
    pub disable_deblocking_filter_idc: u8,
    pub slice_alpha_c0_offset_div2: i8,
    pub slice_beta_offset_div2: i8,
    pub ref_pic_list0: [VAPictureH264; 32],
    pub ref_pic_list1: [VAPictureH264; 32],
    pub weights: SliceWeights,
}

impl VASliceParameterBufferH264 {
    /// The buffer describes a slice of `size` bytes with this header.
    pub open spec fn describes(
        self,
        sh: &SliceHeader,
        size: int,
        list0: Seq<VAPictureH264>,
        list1: Seq<VAPictureH264>,
    ) -> bool {
        &&& self.slice_data_size == size % 0x1_0000_0000
        &&& self.slice_data_offset == 0
        &&& self.slice_data_flag == 0
        &&& self.slice_data_bit_offset == sh.header_bit_len % 0x1_0000
        &&& self.first_mb_in_slice == sh.first_mb_in_slice % 0x1_0000
        &&& self.slice_type == sh.slice_type % 5
        &&& self.direct_spatial_mv_pred_flag == flag(sh.direct_spatial_mv_pred_flag)
        &&& self.num_ref_idx_l0_active_minus1 == sh.num_ref_idx_l0_active_minus1 % 0x100
        &&& self.num_ref_idx_l1_active_minus1 == sh.num_ref_idx_l1_active_minus1 % 0x100
        &&& self.cabac_init_idc == sh.cabac_init_idc % 0x100
        &&& self.slice_qp_delta == wrap_i8(sh.slice_qp_delta as int)
        &&& self.disable_deblocking_filter_idc == sh.disable_deblocking_filter_idc % 0x100
        &&& self.slice_alpha_c0_offset_div2 == wrap_i8(sh.slice_alpha_c0_offset_div2 as int)
        &&& self.slice_beta_offset_div2 == wrap_i8(sh.slice_beta_offset_div2 as int)
        &&& self.ref_pic_list0@ == list0
        &&& self.ref_pic_list1@ == list1
        &&& self.weights.describes(sh.weight_table)
    }

    /// The parameters of a slice of `size` bytes.
    pub fn new(
        sh: &SliceHeader,
        size: usize,
        list0: [VAPictureH264; 32],
        list1: [VAPictureH264; 32],
    ) -> (buffer: Self)
        ensures
            buffer.describes(sh, size as int, list0@, list1@),
    {
        VASliceParameterBufferH264 {
            slice_data_size: (size as u64 % 0x1_0000_0000) as u32,
            slice_data_offset: 0,
            slice_data_flag: 0,
            slice_data_bit_offset: low_u16(sh.header_bit_len),
            first_mb_in_slice: low_u16(sh.first_mb_in_slice),
            slice_type: (sh.slice_type % 5) as u8,
            direct_spatial_mv_pred_flag: if sh.direct_spatial_mv_pred_flag {
                1
            } else {
                0
            },
            num_ref_idx_l0_active_minus1: low_u8(sh.num_ref_idx_l0_active_minus1),
            num_ref_idx_l1_active_minus1: low_u8(sh.num_ref_idx_l1_active_minus1),
            cabac_init_idc: low_u8(sh.cabac_init_idc),
            slice_qp_delta: low_i8(sh.slice_qp_delta),
            disable_deblocking_filter_idc: low_u8(sh.disable_deblocking_filter_idc),
            slice_alpha_c0_offset_div2: low_i8(sh.slice_alpha_c0_offset_div2),
            slice_beta_offset_div2: low_i8(sh.slice_beta_offset_div2),
            ref_pic_list0: list0,
            ref_pic_list1: list1,
            weights: SliceWeights::new(&sh.weight_table),
        }
    }
}

/// The parameters of a stream and a picture can be read back from the buffer
/// that describes them, as far as they fit in its fields: sizes in
/// macroblocks, bit depths and the initial quantiser, each behind what is
/// subtracted from it.
pub proof fn lemma_picture_parameters_read_back(
    buffer: VAPictureParameterBufferH264,
    sps: &Sps,
    pps: &Pps,
    sh: &SliceHeader,
    nal_ref_idc: u8,
    surface: u32,
    top_poc: i32,
    bottom_poc: i32,
    reference_frames: Seq<VAPictureH264>,
)
    requires
        buffer.describes(
            sps,
            pps,
            sh,
            nal_ref_idc,
            surface,
            top_poc,
            bottom_poc,
            reference_frames,
        ),
    ensures
        buffer.curr_pic.picture_id == surface,
        buffer.curr_pic.frame_idx == sh.frame_num,
        buffer.curr_pic.flags == 0,
        buffer.curr_pic.top_field_order_cnt == top_poc,
        buffer.curr_pic.bottom_field_order_cnt == bottom_poc,
        buffer.reference_frames@ == reference_frames,
        1 <= sps.pic_width_in_mbs <= 65536 ==> buffer.picture_width_in_mbs_minus1 + 1
            == sps.pic_width_in_mbs,
        sps.pic_width_in_mbs == 0 ==> buffer.picture_width_in_mbs_minus1 == 0,
        sps.frame_mbs_only_flag && 1 <= sps.pic_height_in_map_units <= 65536
            ==> buffer.picture_height_in_mbs_minus1 + 1 == sps.pic_height_in_map_units,
        !sps.frame_mbs_only_flag && 1 <= sps.pic_height_in_map_units <= 32768
            ==> buffer.picture_height_in_mbs_minus1 + 1 == 2 * sps.pic_height_in_map_units,
        sps.pic_height_in_map_units == 0 ==> buffer.picture_height_in_mbs_minus1 == 0,
        8 <= sps.bit_depth_luma <= 263 ==> buffer.bit_depth_luma_minus8 + 8 == sps.bit_depth_luma,
        sps.bit_depth_luma < 8 ==> buffer.bit_depth_luma_minus8 == 0,
        8 <= sps.bit_depth_chroma <= 263 ==> buffer.bit_depth_chroma_minus8 + 8
            == sps.bit_depth_chroma,
        sps.bit_depth_chroma < 8 ==> buffer.bit_depth_chroma_minus8 == 0,
        sps.max_num_ref_frames <= 16 ==> buffer.num_ref_frames == sps.max_num_ref_frames,
        sps.max_num_ref_frames > 16 ==> buffer.num_ref_frames == 16,
        -102 <= pps.pic_init_qp <= 153 ==> buffer.pic_init_qp_minus26 + 26 == pps.pic_init_qp,
        sh.frame_num <= 65535 ==> buffer.frame_num == sh.frame_num,
        buffer.seq_fields == seq_fields(sps),
        buffer.pic_fields == pic_fields(pps, sh, nal_ref_idc),
{
}

/// The scaling lists of a stream can be read back from the buffer: all six of
/// 4x4 blocks, and of those of 8x8 blocks the first and the fourth.
pub proof fn lemma_scaling_lists_read_back(
    buffer: VAIQMatrixBufferH264,
    sps: &Sps,
    list: int,
    i: int,
    j: int,
)
    requires
        buffer.describes(sps),
        0 <= list < 6,
        0 <= i < 16,
        0 <= j < 64,
    ensures
        0 <= sps.scaling_list_4x4@[list]@[i] <= 255 ==> buffer.scaling_list_4x4@[list]@[i]
            == sps.scaling_list_4x4@[list]@[i],
        0 <= sps.scaling_list_8x8@[0]@[j] <= 255 ==> buffer.scaling_list_8x8@[0]@[j]
            == sps.scaling_list_8x8@[0]@[j],
        0 <= sps.scaling_list_8x8@[3]@[j] <= 255 ==> buffer.scaling_list_8x8@[1]@[j]
            == sps.scaling_list_8x8@[3]@[j],
{
    assert(buffer.scaling_list_4x4@[list]@[i] == (sps.scaling_list_4x4@[list]@[i] as int) % 0x100);
    assert(buffer.scaling_list_8x8@[0]@[j] == (sps.scaling_list_8x8@[0]@[j] as int) % 0x100);
    assert(buffer.scaling_list_8x8@[1]@[j] == (sps.scaling_list_8x8@[3]@[j] as int) % 0x100);
}

/// Weights can be read back from what describes them, as far as they fit in
/// 16 bits and as far as there are 32 of them; the rest is zero.
pub proof fn lemma_weights_read_back(
    luma: LumaWeights,
    luma_table: Seq<Weight>,
    chroma: ChromaWeights,
    chroma_table: Seq<[Weight; 2]>,
    i: int,
    c: int,
)
    requires
        luma.describes(luma_table),
        chroma.describes(chroma_table),
        0 <= i < 32,
        0 <= c < 2,
    ensures
        luma.flag == 1 <==> luma_table.len() > 0,
        luma.flag == 0 <==> luma_table.len() == 0,
        chroma.flag == 1 <==> chroma_table.len() > 0,
        chroma.flag == 0 <==> chroma_table.len() == 0,
        i < luma_table.len() && -32768 <= luma_table[i].weight <= 32767 ==> luma.weight@[i]
            == luma_table[i].weight,
        i < luma_table.len() && -32768 <= luma_table[i].offset <= 32767 ==> luma.offset@[i]
            == luma_table[i].offset,
        i >= luma_table.len() ==> luma.weight@[i] == 0 && luma.offset@[i] == 0,
        i < chroma_table.len() && -32768 <= chroma_table[i]@[c].weight <= 32767
            ==> chroma.weight@[i]@[c] == chroma_table[i]@[c].weight,
        i < chroma_table.len() && -32768 <= chroma_table[i]@[c].offset <= 32767
            ==> chroma.offset@[i]@[c] == chroma_table[i]@[c].offset,
        i >= chroma_table.len() ==> chroma.weight@[i]@[c] == 0 && chroma.offset@[i]@[c] == 0,
{
}

/// A slice header can be read back from the buffer that describes it, as far
/// as its values fit in the fields, and the slice starts at the first byte of
/// its data.
pub proof fn lemma_slice_parameters_read_back(
    buffer: VASliceParameterBufferH264,
    sh: &SliceHeader,
    size: int,
    list0: Seq<VAPictureH264>,
    list1: Seq<VAPictureH264>,
)
    requires
        buffer.describes(sh, size, list0, list1),
    ensures
        0 <= size <= u32::MAX ==> buffer.slice_data_size == size,
        buffer.slice_data_offset == 0,
        buffer.slice_data_flag == 0,
        sh.header_bit_len <= 65535 ==> buffer.slice_data_bit_offset == sh.header_bit_len,
        sh.first_mb_in_slice <= 65535 ==> buffer.first_mb_in_slice == sh.first_mb_in_slice,
        sh.slice_type < 5 ==> buffer.slice_type == sh.slice_type,
        5 <= sh.slice_type < 10 ==> buffer.slice_type == sh.slice_type - 5,
        buffer.direct_spatial_mv_pred_flag == 1 <==> sh.direct_spatial_mv_pred_flag,
        buffer.direct_spatial_mv_pred_flag == 0 <==> !sh.direct_spatial_mv_pred_flag,
        sh.num_ref_idx_l0_active_minus1 <= 255 ==> buffer.num_ref_idx_l0_active_minus1
            == sh.num_ref_idx_l0_active_minus1,
        sh.num_ref_idx_l1_active_minus1 <= 255 ==> buffer.num_ref_idx_l1_active_minus1
            == sh.num_ref_idx_l1_active_minus1,
        sh.cabac_init_idc <= 255 ==> buffer.cabac_init_idc == sh.cabac_init_idc,
        -128 <= sh.slice_qp_delta <= 127 ==> buffer.slice_qp_delta == sh.slice_qp_delta,
        sh.disable_deblocking_filter_idc <= 255 ==> buffer.disable_deblocking_filter_idc
            == sh.disable_deblocking_filter_idc,
        -128 <= sh.slice_alpha_c0_offset_div2 <= 127 ==> buffer.slice_alpha_c0_offset_div2
            == sh.slice_alpha_c0_offset_div2,
        -128 <= sh.slice_beta_offset_div2 <= 127 ==> buffer.slice_beta_offset_div2
            == sh.slice_beta_offset_div2,
        buffer.ref_pic_list0@ == list0,
        buffer.ref_pic_list1@ == list1,
        sh.weight_table matches Some(table) ==> {
            &&& table.luma_log2_denom <= 255 ==> buffer.weights.luma_log2_weight_denom
                == table.luma_log2_denom
            &&& table.chroma_log2_denom <= 255 ==> buffer.weights.chroma_log2_weight_denom
                == table.chroma_log2_denom
            &&& buffer.weights.luma_l0.describes(table.luma_l0@)
            &&& buffer.weights.chroma_l0.describes(table.chroma_l0@)
            &&& buffer.weights.luma_l1.describes(table.luma_l1@)
            &&& buffer.weights.chroma_l1.describes(table.chroma_l1@)
        },
        sh.weight_table is None ==> {
            &&& buffer.weights.luma_log2_weight_denom == 0
            &&& buffer.weights.chroma_log2_weight_denom == 0
            &&& buffer.weights.luma_l0.flag == 0
            &&& buffer.weights.chroma_l0.flag == 0
            &&& buffer.weights.luma_l1.flag == 0
            &&& buffer.weights.chroma_l1.flag == 0
        },
{
}

/// What does not fit in a field goes in without its upper bits: it differs
/// from what the field holds by a multiple of the range of the field.
pub proof fn lemma_upper_bits_are_dropped(v: int)
    ensures
        -128 <= wrap_i8(v) <= 127,
        (v - wrap_i8(v)) % 256 == 0,
        -32768 <= wrap_i16(v) <= 32767,
        (v - wrap_i16(v)) % 65536 == 0,
{
}

/// The height of pictures in macroblocks: the rows of macroblocks of a stream
/// of frames, and twice as many of one that may hold fields.
pub proof fn lemma_height_of_pictures(sps: &Sps)
    ensures
        sps.frame_mbs_only_flag ==> height_in_mbs(sps) == sps.pic_height_in_map_units,
        !sps.frame_mbs_only_flag && sps.pic_height_in_map_units <= 0x7fff_ffff ==> height_in_mbs(sps)
            == sps.pic_height_in_map_units + sps.pic_height_in_map_units,
        !sps.frame_mbs_only_flag && sps.pic_height_in_map_units > 0x7fff_ffff ==> height_in_mbs(sps)
            == 0xffff_ffff,
{
}

} // verus!
