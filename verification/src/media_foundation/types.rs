//! Media types: how the ones that a transform offers are searched, and what
//! one says of the size of a picture.

use vstd::prelude::*;

use crate::media::VideoCodec;
use crate::media_foundation::com::S_OK;

verus! {

/// How many types a transform is asked for.
pub const MAX_TYPES: u32 = 64;

/// The subtype whose first four bytes are `tag`, in the layout of a GUID.
pub open spec fn tagged_guid(tag: Seq<u8>) -> Seq<u8> {
    tag + seq![0u8, 0, 0x10, 0, 0x80, 0, 0, 0xaa, 0, 0x38, 0x9b, 0x71]
}

/// The subtype of the streams of a codec: "H264" or "HEVC".
pub open spec fn input_subtype_of(codec: VideoCodec) -> Seq<u8> {
    if codec == VideoCodec::H264 {
        tagged_guid(seq![0x48u8, 0x32, 0x36, 0x34])
    } else {
        tagged_guid(seq![0x48u8, 0x45, 0x56, 0x43])
    }
}

/// The subtype of NV12 pictures: "NV12".
pub open spec fn nv12_subtype_bytes() -> Seq<u8> {
    tagged_guid(seq![0x4eu8, 0x56, 0x31, 0x32])
}

/// The subtype of the streams of a codec.
pub fn input_subtype(codec: VideoCodec) -> (guid: [u8; 16])
    ensures
        guid@ == input_subtype_of(codec),
{
    let guid: [u8; 16] = match codec {
        VideoCodec::H264 => [
            0x48,
            0x32,
            0x36,
            0x34,
            0,
            0,
            0x10,
            0,
            0x80,
            0,
            0,
            0xaa,
            0,
            0x38,
            0x9b,
            0x71,
        ],
        _ => [0x48, 0x45, 0x56, 0x43, 0, 0, 0x10, 0, 0x80, 0, 0, 0xaa, 0, 0x38, 0x9b, 0x71],
    };
    assert(guid@ =~= input_subtype_of(codec));
    guid
}

/// The subtype of NV12 pictures.
pub fn nv12_subtype() -> (guid: [u8; 16])
    ensures
        guid@ == nv12_subtype_bytes(),
{
    let guid: [u8; 16] = [
        0x4e,
        0x56,
        0x31,
        0x32,
        0,
        0,
        0x10,
        0,
        0x80,
        0,
        0,
        0xaa,
        0,
        0x38,
        0x9b,
        0x71,
    ];
    assert(guid@ =~= nv12_subtype_bytes());
    guid
}

fn same_guid(a: &[u8; 16], b: &[u8; 16]) -> (same: bool)
    ensures
        same == (a@ == b@),
{
    let mut i: usize = 0;
    while i < 16
        invariant
            i <= 16,
            forall|j: int| 0 <= j < i ==> a@[j] == b@[j],
        decreases 16 - i,
    {
        if a[i] != b[i] {
            return false;
        }
        i += 1;
    }
    assert(a@ =~= b@);
    true
}

/// What a type that the transform offers means for the search.
#[derive(Debug, Clone, Copy, PartialEq, Eq, Structural)]
pub enum Candidate {
    /// There are no more types.
    End,
    /// The type is the one that is searched.
    Found,
    /// The type is another one.
    Other,
}

/// What the type at hand means for the search for `wanted`: `subtype` is its
/// subtype, where it says one.
pub open spec fn candidate(
    hr: i32,
    object: usize,
    subtype: Option<Seq<u8>>,
    wanted: Seq<u8>,
) -> Candidate {
    if hr != S_OK || object == 0 {
        Candidate::End
    } else if subtype == Some(wanted) {
        Candidate::Found
    } else {
        Candidate::Other
    }
}

/// The view of a subtype, where there is one.
pub open spec fn subtype_view(subtype: Option<[u8; 16]>) -> Option<Seq<u8>> {
    match subtype {
        Some(guid) => Some(guid@),
        None => None,
    }
}

/// What the type at hand means for the search for `wanted`.
pub fn judge(hr: i32, object: usize, subtype: &Option<[u8; 16]>, wanted: &[u8; 16]) -> (c:
    Candidate)
    ensures
        c == candidate(hr, object, subtype_view(*subtype), wanted@),
{
    if hr != S_OK || object == 0 {
        return Candidate::End;
    }
    match subtype {
        Some(guid) => if same_guid(guid, wanted) {
            Candidate::Found
        } else {
            Candidate::Other
        },
        None => Candidate::Other,
    }
}

/// The width that a packed frame size holds.
pub open spec fn size_width(frame_size: u64) -> int {
    frame_size as int / 0x1_0000_0000
}

/// The height that a packed frame size holds.
pub open spec fn size_height(frame_size: u64) -> int {
    frame_size as int % 0x1_0000_0000
}

/// The width and the height that a packed frame size holds.
pub fn unpack_size(frame_size: u64) -> (size: (u32, u32))
    ensures
        size.0 == size_width(frame_size),
        size.1 == size_height(frame_size),
{
    ((frame_size / 0x1_0000_0000) as u32, (frame_size % 0x1_0000_0000) as u32)
}

/// A frame size is packed with the width in the upper and the height in the
/// lower half.
pub proof fn lemma_packed_size(width: u32, height: u32)
    ensures
        size_width((width * 0x1_0000_0000 + height) as u64) == width,
        size_height((width * 0x1_0000_0000 + height) as u64) == height,
{
}

/// Subtypes start with the letters of their format and end alike: "H264",
/// "HEVC" for every other codec, and "NV12".
pub proof fn lemma_letters_of_subtypes(codec: VideoCodec)
    ensures
        input_subtype_of(codec).len() == 16,
        nv12_subtype_bytes().len() == 16,
        input_subtype_of(codec)[0] == 'H' as u8,
        codec is H264 ==> input_subtype_of(codec)[1] == '2' as u8 && input_subtype_of(codec)[2]
            == '6' as u8 && input_subtype_of(codec)[3] == '4' as u8,
        !(codec is H264) ==> input_subtype_of(codec)[1] == 'E' as u8 && input_subtype_of(codec)[2]
            == 'V' as u8 && input_subtype_of(codec)[3] == 'C' as u8,
        nv12_subtype_bytes()[0] == 'N' as u8,
        nv12_subtype_bytes()[1] == 'V' as u8,
        nv12_subtype_bytes()[2] == '1' as u8,
        nv12_subtype_bytes()[3] == '2' as u8,
        input_subtype_of(codec).skip(4) == nv12_subtype_bytes().skip(4),
        nv12_subtype_bytes()[4] == 0,
        nv12_subtype_bytes()[5] == 0,
        nv12_subtype_bytes()[6] == 0x10,
        nv12_subtype_bytes()[7] == 0,
        nv12_subtype_bytes()[8] == 0x80,
        nv12_subtype_bytes()[9] == 0,
        nv12_subtype_bytes()[10] == 0,
        nv12_subtype_bytes()[11] == 0xaa,
        nv12_subtype_bytes()[12] == 0,
        nv12_subtype_bytes()[13] == 0x38,
        nv12_subtype_bytes()[14] == 0x9b,
        nv12_subtype_bytes()[15] == 0x71,
{
    assert(input_subtype_of(codec).skip(4) =~= nv12_subtype_bytes().skip(4));
}

/// The search ends where no type is given, and finds a type of the wanted
/// subtype alone.
pub proof fn lemma_search(hr: i32, object: usize, subtype: Option<Seq<u8>>, wanted: Seq<u8>)
    ensures
        MAX_TYPES == 64,
        candidate(hr, object, subtype, wanted) == Candidate::End <==> hr != 0 || object == 0,
        candidate(hr, object, subtype, wanted) == Candidate::Found <==> hr == 0 && object != 0
            && subtype is Some && subtype->0 == wanted,
{
}

} // verus!
