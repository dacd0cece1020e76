//! NAL units: what each one is, and how the pictures among them are handed
//! to a decoder.

use vstd::prelude::*;

use crate::media::{nal_bytes, NalUnit, VideoCodec};

verus! {

/// The parameter sets that describe a stream.
#[derive(Debug, Clone, Copy, PartialEq, Eq, Structural)]
pub enum ParameterSet {
    Vps,
    Sps,
    Pps,
}

/// `nal_unit_type` of an H.264 NAL unit.
pub open spec fn h264_type(first: u8) -> u8 {
    first % 32
}

/// `nal_ref_idc` of an H.264 NAL unit.
pub open spec fn h264_ref_idc(first: u8) -> u8 {
    (first / 32) % 4
}

/// `nal_unit_type` of an H.265 NAL unit.
pub open spec fn hevc_type(first: u8) -> u8 {
    (first / 2) % 64
}

/// The parameter set that a NAL unit carries, if it carries one.
pub open spec fn parameter_set(codec: VideoCodec, nal: Seq<u8>) -> Option<ParameterSet> {
    if nal.len() == 0 {
        None
    } else {
        match codec {
            VideoCodec::H264 => if h264_type(nal[0]) == 7 {
                Some(ParameterSet::Sps)
            } else if h264_type(nal[0]) == 8 {
                Some(ParameterSet::Pps)
            } else {
                None
            },
            VideoCodec::H265 => if hevc_type(nal[0]) == 32 {
                Some(ParameterSet::Vps)
            } else if hevc_type(nal[0]) == 33 {
                Some(ParameterSet::Sps)
            } else if hevc_type(nal[0]) == 34 {
                Some(ParameterSet::Pps)
            } else {
                None
            },
            VideoCodec::Other(_) => None,
        }
    }
}

/// Tells the NAL units that go to the decoder as picture data: those that
/// hold something other than a parameter set.
pub open spec fn is_picture_data(codec: VideoCodec) -> spec_fn(Seq<u8>) -> bool {
    |nal: Seq<u8>| nal.len() > 0 && parameter_set(codec, nal) is None
}

/// The NAL units of an access unit that hold picture data.
pub open spec fn picture_data(codec: VideoCodec, nals: Seq<Seq<u8>>) -> Seq<Seq<u8>> {
    nals.filter(is_picture_data(codec))
}

/// `n` modulo 2^32 in four bytes, most significant first.
pub open spec fn be32(n: nat) -> Seq<u8> {
    seq![
        ((n / 0x100_0000) % 0x100) as u8,
        ((n / 0x1_0000) % 0x100) as u8,
        ((n / 0x100) % 0x100) as u8,
        (n % 0x100) as u8,
    ]
}

/// The number that four bytes hold, most significant first.
pub open spec fn from_be32(b: Seq<u8>) -> nat {
    (b[0] * 0x100_0000 + b[1] * 0x1_0000 + b[2] * 0x100 + b[3]) as nat
}

/// Units one after the other, each behind its length.
pub open spec fn length_prefixed(units: Seq<Seq<u8>>) -> Seq<u8>
    decreases units.len(),
{
    if units.len() == 0 {
        Seq::empty()
    } else {
        be32(units[0].len()) + units[0] + length_prefixed(units.drop_first())
    }
}

/// The units in a buffer of length-prefixed units.
pub open spec fn read_length_prefixed(buffer: Seq<u8>) -> Seq<Seq<u8>>
    decreases buffer.len(),
{
    if buffer.len() < 4 || buffer.len() < 4 + from_be32(buffer) {
        Seq::empty()
    } else {
        let end = 4 + from_be32(buffer);
        seq![buffer.subrange(4, end as int)] + read_length_prefixed(buffer.skip(end as int))
    }
}

proof fn lemma_be32(n: nat)
    requires
        n < 0x1_0000_0000,
    ensures
        be32(n).len() == 4,
        from_be32(be32(n)) == n,
{
    let m = n as u32;
    assert(m == (m / 0x100_0000) % 0x100 * 0x100_0000 + (m / 0x1_0000) % 0x100 * 0x1_0000 + (m
        / 0x100) % 0x100 * 0x100 + m % 0x100) by (bit_vector);
}

proof fn lemma_read_first(head: Seq<u8>, unit: Seq<u8>, tail: Seq<u8>)
    requires
        head.len() == 4,
        from_be32(head) == unit.len(),
    ensures
        read_length_prefixed(head + unit + tail) == seq![unit] + read_length_prefixed(tail),
{
    let buffer = head + unit + tail;
    assert(buffer[0] == head[0] && buffer[1] == head[1] && buffer[2] == head[2] && buffer[3]
        == head[3]);
    assert(from_be32(buffer) == unit.len());
    let end = 4 + unit.len();
    assert(buffer.subrange(4, end as int) =~= unit);
    assert(buffer.skip(end as int) =~= tail);
}

/// A buffer of length-prefixed units gives every unit back, in order and
/// unchanged, as long as no unit is too long for its prefix.
pub proof fn lemma_length_prefixed_roundtrip(units: Seq<Seq<u8>>)
    requires
        forall|i: int| 0 <= i < units.len() ==> (#[trigger] units[i]).len() < 0x1_0000_0000,
    ensures
        read_length_prefixed(length_prefixed(units)) == units,
    decreases units.len(),
{
    if units.len() > 0 {
        let rest = units.drop_first();
        lemma_length_prefixed_roundtrip(rest);
        lemma_be32(units[0].len());
        lemma_read_first(be32(units[0].len()), units[0], length_prefixed(rest));
        assert(seq![units[0]] + rest =~= units);
    }
}

proof fn lemma_length_prefixed_push(units: Seq<Seq<u8>>, unit: Seq<u8>)
    ensures
        length_prefixed(units.push(unit)) == length_prefixed(units) + (be32(unit.len()) + unit),
    decreases units.len(),
{
    let all = units.push(unit);
    reveal_with_fuel(length_prefixed, 2);
    if units.len() == 0 {
        assert(all.drop_first() =~= Seq::empty());
        assert(length_prefixed(all) =~= be32(unit.len()) + unit);
        assert(length_prefixed(units) =~= Seq::empty());
    } else {
        assert(all.drop_first() =~= units.drop_first().push(unit));
        lemma_length_prefixed_push(units.drop_first(), unit);
        assert(length_prefixed(all) =~= length_prefixed(units) + (be32(unit.len()) + unit));
    }
}

proof fn lemma_filter_next(nals: Seq<Seq<u8>>, i: int, pred: spec_fn(Seq<u8>) -> bool)
    requires
        0 <= i < nals.len(),
    ensures
        nals.take(i + 1).filter(pred) == if pred(nals[i]) {
            nals.take(i).filter(pred).push(nals[i])
        } else {
            nals.take(i).filter(pred)
        },
{
    assert(nals.take(i + 1).drop_last() =~= nals.take(i));
    reveal(Seq::filter);
}

/// `nal_unit_type` of an H.264 NAL unit.
pub fn h264_nal_type(first: u8) -> (kind: u8)
    ensures
        kind == h264_type(first),
{
    assert(first & 0x1f == first % 32) by (bit_vector);
    first & 0x1f
}

/// `nal_ref_idc` of an H.264 NAL unit.
pub fn h264_nal_ref_idc(first: u8) -> (idc: u8)
    ensures
        idc == h264_ref_idc(first),
{
    assert((first >> 5) & 0x3 == (first / 32) % 4) by (bit_vector);
    (first >> 5) & 0x3
}

/// `nal_unit_type` of an H.265 NAL unit.
pub fn hevc_nal_type(first: u8) -> (kind: u8)
    ensures
        kind == hevc_type(first),
{
    assert((first >> 1) & 0x3f == (first / 2) % 64) by (bit_vector);
    (first >> 1) & 0x3f
}

/// The parameter set that a NAL unit carries, if it carries one.
pub fn parameter_set_of(codec: VideoCodec, nal: &NalUnit) -> (set: Option<ParameterSet>)
    ensures
        set == parameter_set(codec, nal@),
{
    if nal.data.len() == 0 {
        return None;
    }
    match codec {
        VideoCodec::H264 => match h264_nal_type(nal.data[0]) {
            7 => Some(ParameterSet::Sps),
            8 => Some(ParameterSet::Pps),
            _ => None,
        },
        VideoCodec::H265 => match hevc_nal_type(nal.data[0]) {
            32 => Some(ParameterSet::Vps),
            33 => Some(ParameterSet::Sps),
            34 => Some(ParameterSet::Pps),
            _ => None,
        },
        VideoCodec::Other(_) => None,
    }
}

fn push_be32(out: &mut Vec<u8>, n: usize)
    ensures
        final(out)@ == old(out)@ + be32(n as nat),
{
    out.push(((n / 0x100_0000) % 0x100) as u8);
    out.push(((n / 0x1_0000) % 0x100) as u8);
    out.push(((n / 0x100) % 0x100) as u8);
    out.push((n % 0x100) as u8);
    assert(out@ =~= old(out)@ + be32(n as nat));
}

/// The picture data of an access unit in one buffer, each NAL unit behind
/// its length.
pub fn avcc_buffer(codec: VideoCodec, nals: &Vec<NalUnit>) -> (buffer: Vec<u8>)
    ensures
        buffer@ == length_prefixed(picture_data(codec, nal_bytes(nals@))),
{
    let mut buffer: Vec<u8> = Vec::new();
    let ghost bytes = nal_bytes(nals@);
    let ghost pred = is_picture_data(codec);
    assert(bytes.take(0).filter(pred) =~= Seq::empty()) by {
        reveal(Seq::filter);
    }
    let mut i: usize = 0;
    while i < nals.len()
        invariant
            i <= nals@.len(),
            bytes == nal_bytes(nals@),
            pred == is_picture_data(codec),
            buffer@ == length_prefixed(bytes.take(i as int).filter(pred)),
        decreases nals@.len() - i,
    {
        let nal = &nals[i];
        proof {
            lemma_filter_next(bytes, i as int, pred);
            assert(bytes[i as int] == nal@);
        }
        if nal.data.len() > 0 && parameter_set_of(codec, nal).is_none() {
            let ghost before = buffer@;
            push_be32(&mut buffer, nal.data.len());
            buffer.extend_from_slice(nal.data.as_slice());
            proof {
                lemma_length_prefixed_push(bytes.take(i as int).filter(pred), nal@);
                assert(buffer@ =~= before + (be32(nal@.len()) + nal@));
            }
        }
        i += 1;
    }
    assert(bytes.take(i as int) =~= bytes);
    buffer
}

/// The picture data of an access unit in one buffer, one NAL unit directly
/// after the other.
pub fn joined_picture_data(codec: VideoCodec, nals: &Vec<NalUnit>) -> (buffer: Vec<u8>)
    ensures
        buffer@ == picture_data(codec, nal_bytes(nals@)).flatten(),
{
    let mut buffer: Vec<u8> = Vec::new();
    let ghost bytes = nal_bytes(nals@);
    let ghost pred = is_picture_data(codec);
    assert(bytes.take(0).filter(pred) =~= Seq::empty()) by {
        reveal(Seq::filter);
    }
    let mut i: usize = 0;
    while i < nals.len()
        invariant
            i <= nals@.len(),
            bytes == nal_bytes(nals@),
            pred == is_picture_data(codec),
            buffer@ == bytes.take(i as int).filter(pred).flatten(),
        decreases nals@.len() - i,
    {
        let nal = &nals[i];
        proof {
            lemma_filter_next(bytes, i as int, pred);
            assert(bytes[i as int] == nal@);
        }
        if nal.data.len() > 0 && parameter_set_of(codec, nal).is_none() {
            let ghost before = buffer@;
            buffer.extend_from_slice(nal.data.as_slice());
            proof {
                bytes.take(i as int).filter(pred).lemma_flatten_push(nal@);
                assert(buffer@ =~= before + nal@);
            }
        }
        i += 1;
    }
    assert(bytes.take(i as int) =~= bytes);
    buffer
}

/// The header byte of an H.264 NAL unit holds a bit that is zero, two bits of
/// `nal_ref_idc` and five of `nal_unit_type`; that of an H.265 NAL unit six
/// bits of `nal_unit_type` between two others.
pub proof fn lemma_header_byte(top: u8, idc: u8, kind: u8, low: u8)
    requires
        top < 2,
        low < 2,
    ensures
        idc < 4 && kind < 32 ==> {
            let first = (128 * top + 32 * idc + kind) as u8;
            h264_type(first) == kind && h264_ref_idc(first) == idc
        },
        kind < 64 ==> hevc_type((128 * top + 2 * kind + low) as u8) == kind,
{
}

/// Which NAL units carry parameter sets: of H.264 those of type 7 and 8, of
/// H.265 those of type 32, 33 and 34.
pub proof fn lemma_types_of_parameter_sets(nal: Seq<u8>, name: &'static str)
    ensures
        nal.len() == 0 ==> parameter_set(VideoCodec::H264, nal) is None && parameter_set(
            VideoCodec::H265,
            nal,
        ) is None,
        nal.len() > 0 ==> {
            let kind = nal[0] as int % 32;
            &&& kind == 7 <==> parameter_set(VideoCodec::H264, nal) == Some(ParameterSet::Sps)
            &&& kind == 8 <==> parameter_set(VideoCodec::H264, nal) == Some(ParameterSet::Pps)
            &&& parameter_set(VideoCodec::H264, nal) != Some(ParameterSet::Vps)
        },
        nal.len() > 0 ==> {
            let kind = (nal[0] as int / 2) % 64;
            &&& kind == 32 <==> parameter_set(VideoCodec::H265, nal) == Some(ParameterSet::Vps)
            &&& kind == 33 <==> parameter_set(VideoCodec::H265, nal) == Some(ParameterSet::Sps)
            &&& kind == 34 <==> parameter_set(VideoCodec::H265, nal) == Some(ParameterSet::Pps)
        },
        parameter_set(VideoCodec::Other(name), nal) is None,
{
}

/// One NAL unit more: an H.264 unit of type 7 or 8, an H.265 unit of type 32,
/// 33 or 34 and an empty one are left out; any other goes behind the rest as
/// it is.
pub proof fn lemma_one_unit_more(codec: VideoCodec, nals: Seq<Seq<u8>>, nal: Seq<u8>)
    ensures
        ({
            let h264 = nal[0] as int % 32;
            let hevc = (nal[0] as int / 2) % 64;
            let left_out = nal.len() == 0 || (codec is H264 && (h264 == 7 || h264 == 8)) || (
            codec is H265 && 32 <= hevc <= 34);
            &&& left_out ==> picture_data(codec, nals.push(nal)) == picture_data(codec, nals)
            &&& !left_out ==> picture_data(codec, nals.push(nal)) == picture_data(
                codec,
                nals,
            ).push(nal)
        }),
        picture_data(codec, Seq::empty()) == Seq::<Seq<u8>>::empty(),
{
    reveal(Seq::filter);
    assert(nals.push(nal).drop_last() =~= nals);
    assert(nals.push(nal).last() == nal);
}

/// One unit more in a length-prefixed buffer: behind the rest come its length
/// in four bytes, the most significant first, and the unit.
pub proof fn lemma_one_prefixed_unit_more(units: Seq<Seq<u8>>, unit: Seq<u8>)
    requires
        unit.len() < 0x1_0000_0000,
    ensures
        ({
            let before = length_prefixed(units);
            let after = length_prefixed(units.push(unit));
            let n = before.len() as int;
            &&& after.len() == n + 4 + unit.len()
            &&& after.take(n) == before
            &&& after.skip(n + 4) == unit
            &&& unit.len() == after[n] * 16777216 + after[n + 1] * 65536 + after[n + 2] * 256
                + after[n + 3]
        }),
        length_prefixed(Seq::empty()) == Seq::<u8>::empty(),
{
    lemma_length_prefixed_push(units, unit);
    lemma_be32(unit.len());
    let before = length_prefixed(units);
    let head = be32(unit.len());
    let after = before + (head + unit);
    let n = before.len() as int;
    assert(after.take(n) =~= before);
    assert(after.skip(n + 4) =~= unit);
    assert(after[n] == head[0] && after[n + 1] == head[1] && after[n + 2] == head[2] && after[n + 3]
        == head[3]);
}

/// One unit more in a buffer of units without prefixes: it goes directly
/// behind the rest.
pub proof fn lemma_one_joined_unit_more(units: Seq<Seq<u8>>, unit: Seq<u8>)
    ensures
        units.push(unit).flatten() == units.flatten() + unit,
{
    units.lemma_flatten_push(unit);
}

} // verus!
