//! Times as drivers carry them.

use vstd::prelude::*;

verus! {

/// `t` as a driver carries it: with the same 64-bit pattern, signed.
pub open spec fn to_signed(t: u64) -> int {
    if t <= i64::MAX {
        t as int
    } else {
        t - 0x1_0000_0000_0000_0000
    }
}

/// The time that a driver carries as `t`.
pub open spec fn to_unsigned(t: i64) -> int {
    if t < 0 {
        t + 0x1_0000_0000_0000_0000
    } else {
        t as int
    }
}

/// A time goes through a driver unchanged.
pub proof fn lemma_time_roundtrip(t: u64)
    ensures
        i64::MIN <= to_signed(t) <= i64::MAX,
        to_unsigned(to_signed(t) as i64) == t,
{
}

/// The time of an access unit as a driver carries it.
pub fn packet_timestamp(timestamp_us: u64) -> (t: i64)
    ensures
        t == to_signed(timestamp_us),
{
    if timestamp_us <= i64::MAX as u64 {
        timestamp_us as i64
    } else {
        (timestamp_us as i128 - 0x1_0000_0000_0000_0000) as i64
    }
}

/// The time of a frame that a driver carries as `t`.
pub fn frame_timestamp(t: i64) -> (timestamp_us: u64)
    ensures
        timestamp_us == to_unsigned(t),
{
    if t < 0 {
        (t as i128 + 0x1_0000_0000_0000_0000) as u64
    } else {
        t as u64
    }
}

/// A time below 2^63 is carried as it is, and a later one as the number 2^64
/// below it.
pub proof fn lemma_carried_time(t: u64)
    ensures
        t < 0x8000_0000_0000_0000 ==> to_signed(t) == t,
        t >= 0x8000_0000_0000_0000 ==> to_signed(t) == t - 0x1_0000_0000_0000_0000,
{
}

} // verus!
