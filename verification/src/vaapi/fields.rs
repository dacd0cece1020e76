//! The bit fields of a picture parameter buffer, and the status of a call.

use vstd::prelude::*;

use crate::media::VideoError;
use crate::text::{decimal, push_decimal};
use crate::vaapi::params::{
    Pps, SliceHeader, Sps, VA_PROFILE_H264_CONSTRAINED_BASELINE, VA_PROFILE_H264_HIGH,
    VA_PROFILE_H264_MAIN, VA_STATUS_SUCCESS,
};

verus! {

pub open spec fn flag(b: bool) -> int {
    if b {
        1
    } else {
        0
    }
}

/// `v - 4`, or zero below four.
pub open spec fn minus4(v: u32) -> int {
    if v < 4 {
        0
    } else {
        v - 4
    }
}

/// The sequence fields: each value at its place, the places apart.
///
/// Bits 2 and 3 and bit 18 are never set, bit 6 always is.
pub open spec fn seq_fields(sps: &Sps) -> int {
    sps.chroma_format_idc % 4 + flag(sps.frame_mbs_only_flag) * 0x10 + flag(
        sps.mb_adaptive_frame_field_flag,
    ) * 0x20 + 0x40 + flag(sps.level_idc >= 31) * 0x80 + (minus4(sps.log2_max_frame_num) % 16)
        * 0x100 + (sps.pic_order_cnt_type % 4) * 0x1000 + (minus4(sps.log2_max_pic_order_cnt_lsb)
        % 16) * 0x4000
}

/// The picture fields: each value at its place, the places apart.
pub open spec fn pic_fields(pps: &Pps, sh: &SliceHeader, nal_ref_idc: u8) -> int {
    flag(pps.entropy_coding_mode_flag) + flag(pps.weighted_pred_flag) * 0x2 + (
    pps.weighted_bipred_idc % 4) * 0x4 + flag(pps.transform_8x8_mode_flag) * 0x10 + flag(
        sh.field_pic_flag,
    ) * 0x20 + flag(pps.deblocking_filter_control_present_flag) * 0x100 + flag(nal_ref_idc != 0)
        * 0x400
}

/// Every value that went into the sequence fields can be read back at its place.
pub proof fn lemma_seq_fields_read_back(sps: &Sps)
    ensures
        seq_fields(sps) % 4 == sps.chroma_format_idc % 4,
        (seq_fields(sps) / 0x4) % 4 == 0,
        (seq_fields(sps) / 0x10) % 2 == flag(sps.frame_mbs_only_flag),
        (seq_fields(sps) / 0x20) % 2 == flag(sps.mb_adaptive_frame_field_flag),
        (seq_fields(sps) / 0x40) % 2 == 1,
        (seq_fields(sps) / 0x80) % 2 == flag(sps.level_idc >= 31),
        (seq_fields(sps) / 0x100) % 16 == minus4(sps.log2_max_frame_num) % 16,
        (seq_fields(sps) / 0x1000) % 4 == sps.pic_order_cnt_type % 4,
        (seq_fields(sps) / 0x4000) % 16 == minus4(sps.log2_max_pic_order_cnt_lsb) % 16,
        seq_fields(sps) < 0x4_0000,
{
    let a = sps.chroma_format_idc % 4;
    let b = flag(sps.frame_mbs_only_flag) as u32;
    let c = flag(sps.mb_adaptive_frame_field_flag) as u32;
    let d = flag(sps.level_idc >= 31) as u32;
    let e = (minus4(sps.log2_max_frame_num) % 16) as u32;
    let f = sps.pic_order_cnt_type % 4;
    let g = (minus4(sps.log2_max_pic_order_cnt_lsb) % 16) as u32;
    let x = seq_fields(sps) as u32;
    assert(x % 4 == a && (x / 0x4) % 4 == 0 && (x / 0x10) % 2 == b && (x / 0x20) % 2 == c && (x
        / 0x40) % 2 == 1 && (x / 0x80) % 2 == d && (x / 0x100) % 16 == e && (x / 0x1000) % 4 == f
        && (x / 0x4000) % 16 == g) by (bit_vector)
        requires
            x == a + b * 0x10 + c * 0x20 + 0x40 + d * 0x80 + e * 0x100 + f * 0x1000 + g * 0x4000,
            a < 4,
            b < 2,
            c < 2,
            d < 2,
            e < 16,
            f < 4,
            g < 16,
    ;
}

/// Every value that went into the picture fields can be read back at its place.
pub proof fn lemma_pic_fields_read_back(pps: &Pps, sh: &SliceHeader, nal_ref_idc: u8)
    ensures
        pic_fields(pps, sh, nal_ref_idc) % 2 == flag(pps.entropy_coding_mode_flag),
        (pic_fields(pps, sh, nal_ref_idc) / 0x2) % 2 == flag(pps.weighted_pred_flag),
        (pic_fields(pps, sh, nal_ref_idc) / 0x4) % 4 == pps.weighted_bipred_idc % 4,
        (pic_fields(pps, sh, nal_ref_idc) / 0x10) % 2 == flag(pps.transform_8x8_mode_flag),
        (pic_fields(pps, sh, nal_ref_idc) / 0x20) % 2 == flag(sh.field_pic_flag),
        (pic_fields(pps, sh, nal_ref_idc) / 0x40) % 4 == 0,
        (pic_fields(pps, sh, nal_ref_idc) / 0x100) % 2 == flag(
            pps.deblocking_filter_control_present_flag,
        ),
        (pic_fields(pps, sh, nal_ref_idc) / 0x200) % 2 == 0,
        (pic_fields(pps, sh, nal_ref_idc) / 0x400) % 2 == flag(nal_ref_idc != 0),
        pic_fields(pps, sh, nal_ref_idc) < 0x800,
{
    let a = flag(pps.entropy_coding_mode_flag) as u32;
    let b = flag(pps.weighted_pred_flag) as u32;
    let c = pps.weighted_bipred_idc % 4;
    let d = flag(pps.transform_8x8_mode_flag) as u32;
    let e = flag(sh.field_pic_flag) as u32;
    let f = flag(pps.deblocking_filter_control_present_flag) as u32;
    let g = flag(nal_ref_idc != 0) as u32;
    let x = pic_fields(pps, sh, nal_ref_idc) as u32;
    assert(x % 2 == a && (x / 0x2) % 2 == b && (x / 0x4) % 4 == c && (x / 0x10) % 2 == d && (x
        / 0x20) % 2 == e && (x / 0x40) % 4 == 0 && (x / 0x100) % 2 == f && (x / 0x200) % 2 == 0 && (
    x / 0x400) % 2 == g) by (bit_vector)
        requires
            x == a + b * 0x2 + c * 0x4 + d * 0x10 + e * 0x20 + f * 0x100 + g * 0x400,
            a < 2,
            b < 2,
            c < 4,
            d < 2,
            e < 2,
            f < 2,
            g < 2,
    ;
}

fn bit(b: bool) -> (v: u32)
    ensures
        v == flag(b),
        v < 2,
{
    if b {
        1
    } else {
        0
    }
}

fn low_nibble_minus4(v: u32) -> (r: u32)
    ensures
        r == minus4(v) % 16,
        r < 16,
{
    let m: u32 = v.saturating_sub(4);
    assert(m & 0xf == m % 16) by (bit_vector);
    m & 0xf
}

fn low_two_bits(v: u32) -> (r: u32)
    ensures
        r == v % 4,
        r < 4,
{
    assert(v & 0x3 == v % 4) by (bit_vector);
    v & 0x3
}

/// The sequence fields of a picture parameter buffer.
pub fn pack_seq_fields(sps: &Sps) -> (fields: u32)
    ensures
        fields == seq_fields(sps),
{
    let a = low_two_bits(sps.chroma_format_idc);
    let b = bit(sps.frame_mbs_only_flag);
    let c = bit(sps.mb_adaptive_frame_field_flag);
    let d = bit(sps.level_idc >= 31);
    let e = low_nibble_minus4(sps.log2_max_frame_num);
    let f = low_two_bits(sps.pic_order_cnt_type);
    let g = low_nibble_minus4(sps.log2_max_pic_order_cnt_lsb);
    assert(a | (b << 4) | (c << 5) | (1u32 << 6) | (d << 7) | (e << 8) | (f << 12) | (g << 14) == a
        + b * 0x10 + c * 0x20 + 0x40 + d * 0x80 + e * 0x100 + f * 0x1000 + g * 0x4000)
        by (bit_vector)
        requires
            a < 4,
            b < 2,
            c < 2,
            d < 2,
            e < 16,
            f < 4,
            g < 16,
    ;
    a | (b << 4) | (c << 5) | (1u32 << 6) | (d << 7) | (e << 8) | (f << 12) | (g << 14)
}

/// The picture fields of a picture parameter buffer.
pub fn pack_pic_fields(pps: &Pps, sh: &SliceHeader, nal_ref_idc: u8) -> (fields: u32)
    ensures
        fields == pic_fields(pps, sh, nal_ref_idc),
{
    let a = bit(pps.entropy_coding_mode_flag);
    let b = bit(pps.weighted_pred_flag);
    let c = low_two_bits(pps.weighted_bipred_idc);
    let d = bit(pps.transform_8x8_mode_flag);
    let e = bit(sh.field_pic_flag);
    let f = bit(pps.deblocking_filter_control_present_flag);
    let g = bit(nal_ref_idc != 0);
    assert(a | (b << 1) | (c << 2) | (d << 4) | (e << 5) | (f << 8) | (g << 10) == a + b * 0x2 + c
        * 0x4 + d * 0x10 + e * 0x20 + f * 0x100 + g * 0x400) by (bit_vector)
        requires
            a < 2,
            b < 2,
            c < 4,
            d < 2,
            e < 2,
            f < 2,
            g < 2,
    ;
    a | (b << 1) | (c << 2) | (d << 4) | (e << 5) | (f << 8) | (g << 10)
}

/// The driver profile for an H.264 `profile_idc`.
pub open spec fn h264_profile(profile_idc: u8) -> i32 {
    if profile_idc == 66 {
        VA_PROFILE_H264_CONSTRAINED_BASELINE
    } else if profile_idc == 77 {
        VA_PROFILE_H264_MAIN
    } else {
        VA_PROFILE_H264_HIGH
    }
}

/// The driver profile for an H.264 `profile_idc`: baseline and main have
/// their own, everything else decodes as high.
pub fn select_h264_profile(profile_idc: u8) -> (profile: i32)
    ensures
        profile == h264_profile(profile_idc),
{
    match profile_idc {
        66 => VA_PROFILE_H264_CONSTRAINED_BASELINE,
        77 => VA_PROFILE_H264_MAIN,
        _ => VA_PROFILE_H264_HIGH,
    }
}

/// How a failed call is described.
pub open spec fn va_failure(op: Seq<char>, status: i32) -> Seq<char> {
    "VA-API: "@ + op + " failed: "@ + decimal(status as int)
}

/// Checks the status of the call named `op`.
pub fn check_va(status: i32, op: &str) -> (r: Result<(), VideoError>)
    ensures
        r is Ok <==> status == VA_STATUS_SUCCESS,
        r is Ok <==> status == 0,
        r matches Err(error) ==> error.text() == va_failure(op@, status),
{
    if status == VA_STATUS_SUCCESS {
        Ok(())
    } else {
        let mut message = "VA-API: ".to_owned();
        message.append(op);
        message.append(" failed: ");
        push_decimal(&mut message, status);
        Err(VideoError::Codec(message))
    }
}

/// The profiles in numbers: 66 is baseline (13), 77 is main (6), and anything
/// else is decoded as high (7).
pub proof fn lemma_profile_numbers(profile_idc: u8)
    ensures
        profile_idc == 66 ==> h264_profile(profile_idc) == 13,
        profile_idc == 77 ==> h264_profile(profile_idc) == 6,
        profile_idc != 66 && profile_idc != 77 ==> h264_profile(profile_idc) == 7,
{
}

/// The description of a failed call names the call and ends with its status.
pub proof fn lemma_failure_names_the_call(op: Seq<char>, status: i32)
    ensures
        ({
            let text = va_failure(op, status);
            &&& text.take(8) == "VA-API: "@
            &&& text.subrange(8, 8 + op.len() as int) == op
            &&& text.skip(17 + op.len() as int) == decimal(status as int)
        }),
{
    reveal_strlit("VA-API: ");
    reveal_strlit(" failed: ");
    let text = va_failure(op, status);
    assert(text.take(8) =~= "VA-API: "@);
    assert(text.subrange(8, 8 + op.len() as int) =~= op);
    assert(text.skip(17 + op.len() as int) =~= decimal(status as int));
}

/// The sequence fields in numbers: a bit is set where its flag is, that of
/// small blocks from level 3.1 on, and the two logarithms are less by four.
pub proof fn lemma_seq_fields_in_numbers(sps: &Sps)
    ensures
        ({
            let x = seq_fields(sps);
            &&& sps.chroma_format_idc < 4 ==> x % 4 == sps.chroma_format_idc
            &&& (x / 16) % 2 == 1 <==> sps.frame_mbs_only_flag
            &&& (x / 32) % 2 == 1 <==> sps.mb_adaptive_frame_field_flag
            &&& (x / 64) % 2 == 1
            &&& (x / 128) % 2 == 1 <==> sps.level_idc >= 31
            &&& 4 <= sps.log2_max_frame_num < 20 ==> (x / 256) % 16 + 4 == sps.log2_max_frame_num
            &&& sps.log2_max_frame_num < 4 ==> (x / 256) % 16 == 0
            &&& sps.pic_order_cnt_type < 4 ==> (x / 4096) % 4 == sps.pic_order_cnt_type
            &&& 4 <= sps.log2_max_pic_order_cnt_lsb < 20 ==> (x / 16384) % 16 + 4
                == sps.log2_max_pic_order_cnt_lsb
            &&& sps.log2_max_pic_order_cnt_lsb < 4 ==> (x / 16384) % 16 == 0
            &&& 0 <= x < 262144
        }),
{
    lemma_seq_fields_read_back(sps);
}

/// The picture fields in numbers: a bit is set where its flag is, and the
/// last one where the picture is a reference.
pub proof fn lemma_pic_fields_in_numbers(pps: &Pps, sh: &SliceHeader, nal_ref_idc: u8)
    ensures
        ({
            let x = pic_fields(pps, sh, nal_ref_idc);
            &&& x % 2 == 1 <==> pps.entropy_coding_mode_flag
            &&& (x / 2) % 2 == 1 <==> pps.weighted_pred_flag
            &&& pps.weighted_bipred_idc < 4 ==> (x / 4) % 4 == pps.weighted_bipred_idc
            &&& (x / 16) % 2 == 1 <==> pps.transform_8x8_mode_flag
            &&& (x / 32) % 2 == 1 <==> sh.field_pic_flag
            &&& (x / 256) % 2 == 1 <==> pps.deblocking_filter_control_present_flag
            &&& (x / 1024) % 2 == 1 <==> nal_ref_idc != 0
            &&& 0 <= x < 2048
        }),
{
    lemma_pic_fields_read_back(pps, sh, nal_ref_idc);
}

} // verus!
