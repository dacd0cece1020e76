//! Picture order counts: where a picture stands in output order.

use vstd::prelude::*;

use vstd::arithmetic::power2::pow2;

use crate::vaapi::dpb::Dpb;
use crate::vaapi::params::{SliceHeader, Sps};

verus! {

/// The modulus of the low part of a picture order count.
pub open spec fn max_poc_lsb(log2: u32) -> int {
    pow2(if log2 < 30 {
        log2 as nat
    } else {
        30
    }) as int
}

/// The high part of a picture order count, from the low part and both parts
/// of the previous one: the low part has wrapped where it jumped by half of
/// its range or more.
pub open spec fn next_poc_msb(prev_msb: int, prev_lsb: int, lsb: int, max_lsb: int) -> int {
    if lsb < prev_lsb && prev_lsb - lsb >= max_lsb / 2 {
        prev_msb + max_lsb
    } else if lsb > prev_lsb && lsb - prev_lsb > max_lsb / 2 {
        prev_msb - max_lsb
    } else {
        prev_msb
    }
}

impl Dpb {
    /// The high part for the next picture of a stream that codes order
    /// counts of type 0.
    pub open spec fn poc_msb(self, sps: &Sps, sh: &SliceHeader, is_idr: bool) -> int {
        if is_idr {
            0
        } else {
            next_poc_msb(
                self.prev_poc_msb as int,
                self.prev_poc_lsb as int,
                sh.pic_order_cnt_lsb as int,
                max_poc_lsb(sps.log2_max_pic_order_cnt_lsb),
            )
        }
    }

    /// The order count of the top field, before it is stored in 32 bits.
    pub open spec fn top_poc(self, sps: &Sps, sh: &SliceHeader, is_idr: bool) -> int {
        if sps.pic_order_cnt_type == 0 {
            self.poc_msb(sps, sh, is_idr) + (sh.pic_order_cnt_lsb as i32)
        } else if is_idr {
            0
        } else {
            self.poc_counter as int
        }
    }

    /// The order count of the bottom field, before it is stored in 32 bits.
    pub open spec fn bottom_poc(self, sps: &Sps, sh: &SliceHeader, is_idr: bool) -> int {
        if sps.pic_order_cnt_type == 0 && !sh.field_pic_flag {
            self.top_poc(sps, sh, is_idr) + sh.delta_pic_order_cnt_bottom
        } else {
            self.top_poc(sps, sh, is_idr)
        }
    }

    /// No order count of the next picture leaves 32 bits.
    pub open spec fn poc_in_range(self, sps: &Sps, sh: &SliceHeader, is_idr: bool) -> bool {
        sps.pic_order_cnt_type == 0 ==> {
            &&& i32::MIN <= self.poc_msb(sps, sh, is_idr) <= i32::MAX
            &&& i32::MIN <= self.top_poc(sps, sh, is_idr) <= i32::MAX
            &&& i32::MIN <= self.bottom_poc(sps, sh, is_idr) <= i32::MAX
        }
    }

    /// The state of order counting is the one after the picture that follows
    /// `before`; an instantaneous refresh starts anew.
    pub open spec fn counts_after(
        self,
        before: Dpb,
        sps: &Sps,
        sh: &SliceHeader,
        is_idr: bool,
    ) -> bool {
        &&& self.max_size == before.max_size
        &&& sps.pic_order_cnt_type == 0 ==> {
            &&& self.prev_poc_msb == before.poc_msb(sps, sh, is_idr)
            &&& self.prev_poc_lsb == sh.pic_order_cnt_lsb
            &&& self.poc_counter == if is_idr {
                0
            } else {
                before.poc_counter
            }
        }
        &&& sps.pic_order_cnt_type != 0 ==> {
            &&& self.prev_poc_msb == if is_idr {
                0
            } else {
                before.prev_poc_msb
            }
            &&& self.prev_poc_lsb == if is_idr {
                0
            } else {
                before.prev_poc_lsb
            }
            &&& self.poc_counter == if before.top_poc(sps, sh, is_idr) + 2 > i32::MAX {
                i32::MAX as int
            } else {
                before.top_poc(sps, sh, is_idr) + 2
            }
        }
    }

    fn wide_poc(&self, sps: &Sps, sh: &SliceHeader, is_idr: bool) -> (counts: (i64, i64, i64))
        requires
            sps.pic_order_cnt_type == 0,
        ensures
            counts.0 == self.poc_msb(sps, sh, is_idr),
            counts.1 == self.top_poc(sps, sh, is_idr),
            counts.2 == self.bottom_poc(sps, sh, is_idr),
    {
        let log2: u32 = if sps.log2_max_pic_order_cnt_lsb < 30 {
            sps.log2_max_pic_order_cnt_lsb
        } else {
            30
        };
        proof {
            vstd::arithmetic::power2::lemma2_to64();
            if log2 < 30 {
                vstd::arithmetic::power2::lemma_pow2_strictly_increases(log2 as nat, 30);
            }
            vstd::arithmetic::power2::lemma_pow2_pos(log2 as nat);
            assert(1 * pow2(log2 as nat) <= u32::MAX);
            vstd::bits::lemma_u32_shl_is_mul(1, log2);
        }
        let max_lsb: i64 = (1u32 << log2) as i64;
        let prev_lsb: i64 = self.prev_poc_lsb as i64;
        let prev_msb: i64 = self.prev_poc_msb as i64;
        let lsb: i64 = sh.pic_order_cnt_lsb as i64;
        let msb: i64 = if is_idr {
            0
        } else if lsb < prev_lsb && prev_lsb - lsb >= max_lsb / 2 {
            prev_msb + max_lsb
        } else if lsb > prev_lsb && lsb - prev_lsb > max_lsb / 2 {
            prev_msb - max_lsb
        } else {
            prev_msb
        };
        let top: i64 = msb + (sh.pic_order_cnt_lsb as i32) as i64;
        let bottom: i64 = if sh.field_pic_flag {
            top
        } else {
            top + sh.delta_pic_order_cnt_bottom as i64
        };
        (msb, top, bottom)
    }

    /// Whether no order count of the next picture leaves 32 bits.
    pub fn poc_fits(&self, sps: &Sps, sh: &SliceHeader, is_idr: bool) -> (fits: bool)
        ensures
            fits == self.poc_in_range(sps, sh, is_idr),
    {
        if sps.pic_order_cnt_type != 0 {
            return true;
        }
        let (msb, top, bottom) = self.wide_poc(sps, sh, is_idr);
        let low: i64 = i32::MIN as i64;
        let high: i64 = i32::MAX as i64;
        low <= msb && msb <= high && low <= top && top <= high && low <= bottom && bottom <= high
    }

    /// The order counts of the top and bottom field of the next picture.
    ///
    /// Streams that do not code order counts of type 0 count pictures in
    /// decoding order, two at a time, from the last instantaneous refresh.
    pub fn compute_poc(&mut self, sps: &Sps, sh: &SliceHeader, is_idr: bool) -> (counts: (i32, i32))
        requires
            old(self).poc_in_range(sps, sh, is_idr),
        ensures
            counts.0 == old(self).top_poc(sps, sh, is_idr),
            counts.1 == old(self).bottom_poc(sps, sh, is_idr),
            final(self).entries == old(self).entries,
            final(self).max_size == old(self).max_size,
            sps.pic_order_cnt_type == 0 ==> {
                &&& final(self).prev_poc_msb == old(self).poc_msb(sps, sh, is_idr)
                &&& final(self).prev_poc_lsb == sh.pic_order_cnt_lsb
                &&& final(self).poc_counter == old(self).poc_counter
            },
            sps.pic_order_cnt_type != 0 ==> {
                &&& final(self).prev_poc_msb == old(self).prev_poc_msb
                &&& final(self).prev_poc_lsb == old(self).prev_poc_lsb
                &&& final(self).poc_counter == if counts.0 + 2 > i32::MAX {
                    i32::MAX as int
                } else {
                    counts.0 + 2
                }
            },
            sps.pic_order_cnt_type == 0 && is_idr && sh.pic_order_cnt_lsb <= i32::MAX ==> counts.0
                == sh.pic_order_cnt_lsb,
            sps.pic_order_cnt_type == 0 && !is_idr && 1 <= sps.log2_max_pic_order_cnt_lsb <= 30 ==> {
                let range = pow2(sps.log2_max_pic_order_cnt_lsb as nat) as int;
                let previous = old(self).prev_poc_msb + old(self).prev_poc_lsb;
                old(self).prev_poc_msb as int % range == 0 && old(self).prev_poc_lsb < range
                    && sh.pic_order_cnt_lsb < range ==> {
                    &&& counts.0 as int % range == sh.pic_order_cnt_lsb
                    &&& -range < 2 * (counts.0 - previous) <= range
                    &&& final(self).prev_poc_msb + final(self).prev_poc_lsb == counts.0
                    &&& final(self).prev_poc_msb as int % range == 0
                    &&& final(self).prev_poc_lsb < range
                }
            },
            sps.pic_order_cnt_type == 0 && !sh.field_pic_flag ==> counts.1 == counts.0
                + sh.delta_pic_order_cnt_bottom,
            sps.pic_order_cnt_type != 0 || sh.field_pic_flag ==> counts.1 == counts.0,
            sps.pic_order_cnt_type != 0 && is_idr ==> counts.0 == 0,
            sps.pic_order_cnt_type != 0 && !is_idr ==> counts.0 == old(self).poc_counter,
    {
        proof {
            if sps.pic_order_cnt_type == 0 && !is_idr && 1 <= sps.log2_max_pic_order_cnt_lsb <= 30 {
                let range = pow2(sps.log2_max_pic_order_cnt_lsb as nat) as int;
                if self.prev_poc_msb as int % range == 0 && self.prev_poc_lsb < range
                    && sh.pic_order_cnt_lsb < range {
                    lemma_nearest_count(*self, sps, sh);
                }
            }
        }
        if sps.pic_order_cnt_type == 0 {
            let (msb, top, bottom) = self.wide_poc(sps, sh, is_idr);
            self.prev_poc_msb = msb as i32;
            self.prev_poc_lsb = sh.pic_order_cnt_lsb;
            (top as i32, bottom as i32)
        } else {
            if is_idr {
                self.poc_counter = 0;
            }
            let top: i32 = self.poc_counter;
            self.poc_counter = if top > i32::MAX - 2 {
                i32::MAX
            } else {
                top + 2
            };
            (top, top)
        }
    }
}

/// The high part is restored from the low part alone: where the order count
/// `poc` of a picture is less than half of the range of the low part behind
/// the previous one, or at most half of it ahead, adding the low part to the
/// restored high part gives `poc`.
pub proof fn lemma_poc_is_restored(prev_msb: int, prev_lsb: int, poc: int, max_lsb: int)
    requires
        max_lsb > 0,
        max_lsb % 2 == 0,
        prev_msb % max_lsb == 0,
        0 <= prev_lsb < max_lsb,
        -max_lsb / 2 < poc - (prev_msb + prev_lsb) <= max_lsb / 2,
    ensures
        next_poc_msb(prev_msb, prev_lsb, poc % max_lsb, max_lsb) + poc % max_lsb == poc,
{
    let lsb = poc % max_lsb;
    let a = poc / max_lsb;
    let b = prev_msb / max_lsb;
    vstd::arithmetic::div_mod::lemma_fundamental_div_mod(poc, max_lsb);
    vstd::arithmetic::div_mod::lemma_fundamental_div_mod(prev_msb, max_lsb);
    vstd::arithmetic::div_mod::lemma_mod_bound(poc, max_lsb);
    let k = a - b;
    assert(max_lsb * a - max_lsb * b == max_lsb * k) by (nonlinear_arith)
        requires
            k == a - b,
    ;
    assert(-1 <= k <= 1) by (nonlinear_arith)
        requires
            max_lsb > 0,
            -2 * max_lsb < max_lsb * k < 2 * max_lsb,
    ;
    assert(max_lsb * 1 == max_lsb && max_lsb * -1 == -max_lsb && max_lsb * 0 == 0);
}

/// The high part stays a multiple of the range of the low part.
pub proof fn lemma_poc_msb_stays_multiple(prev_msb: int, prev_lsb: int, lsb: int, max_lsb: int)
    requires
        max_lsb > 0,
        prev_msb % max_lsb == 0,
    ensures
        next_poc_msb(prev_msb, prev_lsb, lsb, max_lsb) % max_lsb == 0,
{
    vstd::arithmetic::div_mod::lemma_mod_add_multiples_vanish(prev_msb, max_lsb);
    vstd::arithmetic::div_mod::lemma_mod_sub_multiples_vanish(prev_msb, max_lsb);
}

/// The range of the low part is a power of two up to 2^30.
pub proof fn lemma_max_poc_lsb(log2: u32)
    ensures
        1 <= max_poc_lsb(log2) <= 0x4000_0000,
        log2 > 0 ==> max_poc_lsb(log2) % 2 == 0,
{
    vstd::arithmetic::power2::lemma2_to64();
    let n: nat = if log2 < 30 {
        log2 as nat
    } else {
        30
    };
    vstd::arithmetic::power2::lemma_pow2_pos(n);
    if n < 30 {
        vstd::arithmetic::power2::lemma_pow2_strictly_increases(n, 30);
    }
    if n > 0 {
        vstd::arithmetic::power2::lemma_pow2_unfold(n);
    }
}

/// The range of the low part is two to the power that the sequence says: it
/// doubles with every step of the power, up to 2^30.
pub proof fn lemma_range_of_low_part(log2: u32)
    ensures
        log2 <= 30 ==> max_poc_lsb(log2) == pow2(log2 as nat),
        log2 < 30 ==> max_poc_lsb((log2 + 1) as u32) == 2 * max_poc_lsb(log2),
        log2 == 0 ==> max_poc_lsb(log2) == 1,
        log2 >= 30 ==> max_poc_lsb(log2) == 0x4000_0000,
{
    vstd::arithmetic::power2::lemma2_to64();
    if log2 < 30 {
        vstd::arithmetic::power2::lemma_pow2_unfold((log2 + 1) as nat);
    }
}

/// Of all counts with the low part that a picture codes, it gets the one
/// nearest to the previous count, and of two the one ahead.  What is kept for
/// the next picture is that count, in its two parts.
pub proof fn lemma_nearest_count(dpb: Dpb, sps: &Sps, sh: &SliceHeader)
    requires
        sps.pic_order_cnt_type == 0,
        1 <= sps.log2_max_pic_order_cnt_lsb <= 30,
        dpb.prev_poc_msb as int % (pow2(sps.log2_max_pic_order_cnt_lsb as nat) as int) == 0,
        dpb.prev_poc_lsb < pow2(sps.log2_max_pic_order_cnt_lsb as nat),
        sh.pic_order_cnt_lsb < pow2(sps.log2_max_pic_order_cnt_lsb as nat),
    ensures
        ({
            let range = pow2(sps.log2_max_pic_order_cnt_lsb as nat) as int;
            let previous = dpb.prev_poc_msb + dpb.prev_poc_lsb;
            let count = dpb.top_poc(sps, sh, false);
            &&& count % range == sh.pic_order_cnt_lsb
            &&& -range < 2 * (count - previous) <= range
            &&& dpb.poc_msb(sps, sh, false) + sh.pic_order_cnt_lsb == count
            &&& dpb.poc_msb(sps, sh, false) % range == 0
        }),
{
    let range = pow2(sps.log2_max_pic_order_cnt_lsb as nat) as int;
    let lsb = sh.pic_order_cnt_lsb as int;
    let msb = dpb.poc_msb(sps, sh, false);
    lemma_range_of_low_part(sps.log2_max_pic_order_cnt_lsb);
    lemma_max_poc_lsb(sps.log2_max_pic_order_cnt_lsb);
    lemma_poc_msb_stays_multiple(dpb.prev_poc_msb as int, dpb.prev_poc_lsb as int, lsb, range);
    vstd::arithmetic::div_mod::lemma_fundamental_div_mod(msb, range);
    let q = msb / range;
    assert(msb + lsb == q * range + lsb) by (nonlinear_arith)
        requires
            msb == range * q,
    ;
    vstd::arithmetic::div_mod::lemma_fundamental_div_mod_converse(msb + lsb, range, q, lsb);
}

/// The order count of a picture is restored from what the stream codes of it:
/// where the true count is less than half of the range of the low part behind
/// the previous one, or at most half of it ahead, a picture that codes the
/// low part of that count gets that count.
pub proof fn lemma_true_count_is_restored(dpb: Dpb, sps: &Sps, sh: &SliceHeader, poc: int)
    requires
        sps.pic_order_cnt_type == 0,
        1 <= sps.log2_max_pic_order_cnt_lsb <= 30,
        dpb.prev_poc_msb as int % (pow2(sps.log2_max_pic_order_cnt_lsb as nat) as int) == 0,
        dpb.prev_poc_lsb < pow2(sps.log2_max_pic_order_cnt_lsb as nat),
        sh.pic_order_cnt_lsb == poc % (pow2(sps.log2_max_pic_order_cnt_lsb as nat) as int),
        -pow2(sps.log2_max_pic_order_cnt_lsb as nat) < 2 * (poc - (dpb.prev_poc_msb
            + dpb.prev_poc_lsb)) <= pow2(sps.log2_max_pic_order_cnt_lsb as nat),
    ensures
        dpb.top_poc(sps, sh, false) == poc,
        !sh.field_pic_flag ==> dpb.bottom_poc(sps, sh, false) == poc + sh.delta_pic_order_cnt_bottom,
        sh.field_pic_flag ==> dpb.bottom_poc(sps, sh, false) == poc,
{
    let range = pow2(sps.log2_max_pic_order_cnt_lsb as nat) as int;
    lemma_range_of_low_part(sps.log2_max_pic_order_cnt_lsb);
    lemma_max_poc_lsb(sps.log2_max_pic_order_cnt_lsb);
    vstd::arithmetic::div_mod::lemma_mod_bound(poc, range);
    lemma_poc_is_restored(dpb.prev_poc_msb as int, dpb.prev_poc_lsb as int, poc, range);
}

/// Streams without order counts of type 0 count their pictures two at a time:
/// after a refresh, which counts as 0, each picture stands two behind the one
/// before it.
pub proof fn lemma_pictures_count_by_two(
    before: Dpb,
    after: Dpb,
    sps: &Sps,
    sh: &SliceHeader,
    next: &SliceHeader,
    is_idr: bool,
)
    requires
        sps.pic_order_cnt_type != 0,
        after.counts_after(before, sps, sh, is_idr),
        before.poc_counter <= i32::MAX - 2,
    ensures
        before.top_poc(sps, sh, true) == 0,
        after.top_poc(sps, next, false) == before.top_poc(sps, sh, is_idr) + 2,
        before.bottom_poc(sps, sh, is_idr) == before.top_poc(sps, sh, is_idr),
{
}

/// Fields of one picture share their order count, and a picture after an
/// instantaneous refresh starts at its own low part.
pub proof fn lemma_refresh_restarts_counting(dpb: Dpb, sps: &Sps, sh: &SliceHeader)
    ensures
        sh.field_pic_flag ==> dpb.bottom_poc(sps, sh, true) == dpb.top_poc(sps, sh, true),
        sps.pic_order_cnt_type == 0 ==> dpb.top_poc(sps, sh, true) == (sh.pic_order_cnt_lsb as i32),
        sps.pic_order_cnt_type != 0 ==> dpb.top_poc(sps, sh, true) == 0,
{
}

/// When the order counts of a picture fit: those of streams of another type
/// always, and those of type 0 where both, and the high part, are 32-bit
/// numbers.
pub proof fn lemma_counts_that_fit(dpb: Dpb, sps: &Sps, sh: &SliceHeader, is_idr: bool)
    ensures
        sps.pic_order_cnt_type != 0 ==> dpb.poc_in_range(sps, sh, is_idr),
        sps.pic_order_cnt_type == 0 ==> (dpb.poc_in_range(sps, sh, is_idr) <==> -0x8000_0000
            <= dpb.poc_msb(sps, sh, is_idr) <= 0x7fff_ffff && -0x8000_0000 <= dpb.top_poc(
            sps,
            sh,
            is_idr,
        ) <= 0x7fff_ffff && -0x8000_0000 <= dpb.bottom_poc(sps, sh, is_idr) <= 0x7fff_ffff),
{
}

/// What is kept of a picture for the next one: of a stream with order counts
/// of type 0 both parts of the count, so that their sum is the count, and of
/// any other stream the counter alone.
pub proof fn lemma_kept_for_the_next(
    before: Dpb,
    after: Dpb,
    sps: &Sps,
    sh: &SliceHeader,
    is_idr: bool,
)
    requires
        after.counts_after(before, sps, sh, is_idr),
        sh.pic_order_cnt_lsb <= i32::MAX,
    ensures
        sps.pic_order_cnt_type == 0 ==> {
            &&& after.prev_poc_lsb == sh.pic_order_cnt_lsb
            &&& after.prev_poc_msb + after.prev_poc_lsb == before.top_poc(sps, sh, is_idr)
            &&& is_idr ==> after.prev_poc_msb == 0
            &&& !is_idr ==> after.poc_counter == before.poc_counter
        },
        sps.pic_order_cnt_type != 0 && !is_idr ==> {
            &&& after.prev_poc_lsb == before.prev_poc_lsb
            &&& after.prev_poc_msb == before.prev_poc_msb
            &&& before.poc_counter <= i32::MAX - 2 ==> after.poc_counter == before.poc_counter + 2
        },
        sps.pic_order_cnt_type != 0 && is_idr ==> after.poc_counter == 2,
{
}

} // verus!
