//! The pool of surfaces: which are free, and which hold a reference.

use vstd::prelude::*;

use crate::vaapi::dpb::{
    class_in_order, eviction_index, in_order, is_reference, list0_entries, on_surfaces,
    put_in_order, released, Dpb, DpbEntry, RefClass, RefOrder,
};

verus! {

/// The first surface that is free.
pub open spec fn first_free(in_use: Seq<bool>) -> Option<int>
    decreases in_use.len(),
{
    if in_use.len() == 0 {
        None
    } else if first_free(in_use.drop_last()) is Some {
        first_free(in_use.drop_last())
    } else if !in_use.last() {
        Some(in_use.len() - 1)
    } else {
        None
    }
}

/// The pictures lie on surfaces that are in use, no two on the same.
pub open spec fn held(entries: Seq<DpbEntry>, in_use: Seq<bool>) -> bool {
    &&& forall|i: int|
        0 <= i < entries.len() ==> (#[trigger] entries[i]).surface_idx < in_use.len()
            && in_use[entries[i].surface_idx as int]
    &&& forall|i: int, j: int|
        0 <= i < j < entries.len() ==> (#[trigger] entries[i]).surface_idx != (
        #[trigger] entries[j]).surface_idx
}

/// Some picture lies on surface `k`.
pub open spec fn occupied(entries: Seq<DpbEntry>, k: int) -> bool {
    exists|i: int| 0 <= i < entries.len() && (#[trigger] entries[i]).surface_idx == k
}

/// Every surface in use holds a picture, except for the one that `other` names.
pub open spec fn no_strays(
    entries: Seq<DpbEntry>,
    in_use: Seq<bool>,
    other: Option<usize>,
) -> bool {
    forall|k: int|
        0 <= k < in_use.len() && #[trigger] in_use[k] ==> occupied(entries, k) || (other matches Some(
            o,
        ) && o == k)
}

/// The surface flags once the surfaces of all the pictures are free again.
pub open spec fn all_released(in_use: Seq<bool>, entries: Seq<DpbEntry>) -> Seq<bool> {
    Seq::new(in_use.len(), |k: int| in_use[k] && !occupied(entries, k))
}

/// The buffer is full: a picture has to leave before another comes.
pub open spec fn is_full(dpb: Dpb) -> bool {
    dpb.entries@.len() >= dpb.max_size && dpb.entries@.len() > 0
}

/// The pictures that stay once room has been made.
pub open spec fn entries_after_eviction(dpb: Dpb) -> Seq<DpbEntry> {
    if is_full(dpb) {
        dpb.entries@.remove(eviction_index(dpb.entries@))
    } else {
        dpb.entries@
    }
}

/// The surface flags once room has been made.
pub open spec fn flags_after_eviction(dpb: Dpb, in_use: Seq<bool>) -> Seq<bool> {
    if is_full(dpb) {
        released(in_use, dpb.entries@[eviction_index(dpb.entries@)].surface_idx)
    } else {
        in_use
    }
}

/// The first free surface is free, and all before it are in use; where there
/// is none, all surfaces are in use.
pub proof fn lemma_first_free(in_use: Seq<bool>)
    ensures
        match first_free(in_use) {
            Some(k) => 0 <= k < in_use.len() && !in_use[k] && forall|j: int|
                0 <= j < k ==> #[trigger] in_use[j],
            None => forall|j: int| 0 <= j < in_use.len() ==> #[trigger] in_use[j],
        },
    decreases in_use.len(),
{
    if in_use.len() > 0 {
        let rest = in_use.drop_last();
        lemma_first_free(rest);
        match first_free(rest) {
            Some(k) => {
                assert(forall|j: int| 0 <= j < k ==> #[trigger] in_use[j] == rest[j]);
            },
            None => {
                assert(forall|j: int| 0 <= j < rest.len() ==> #[trigger] in_use[j] == rest[j]);
            },
        }
    }
}

/// The first free surface is the one that is free with all before it in use.
pub proof fn lemma_first_free_is(in_use: Seq<bool>, k: int)
    requires
        0 <= k < in_use.len(),
        !in_use[k],
        forall|j: int| 0 <= j < k ==> #[trigger] in_use[j],
    ensures
        first_free(in_use) == Some(k),
{
    lemma_first_free(in_use);
    match first_free(in_use) {
        Some(i) => {
            if i < k {
                assert(in_use[i]);
            } else if k < i {
                assert(in_use[k]);
            }
        },
        None => {
            assert(in_use[k]);
        },
    }
}

/// The first surface that is free.
pub fn find_free_surface(in_use: &Vec<bool>) -> (r: Option<usize>)
    ensures
        match r {
            Some(k) => first_free(in_use@) == Some(k as int),
            None => first_free(in_use@) is None,
        },
{
    let mut k: usize = 0;
    while k < in_use.len()
        invariant
            k <= in_use@.len(),
            forall|j: int| 0 <= j < k ==> #[trigger] in_use@[j],
        decreases in_use@.len() - k,
    {
        if !in_use[k] {
            proof {
                lemma_first_free_is(in_use@, k as int);
            }
            return Some(k);
        }
        k += 1;
    }
    proof {
        lemma_first_free(in_use@);
    }
    None
}

proof fn lemma_subset_bound(entries: Seq<DpbEntry>, n: nat)
    requires
        forall|k: int| 0 <= k < n ==> #[trigger] occupied(entries, k),
    ensures
        n <= entries.len(),
    decreases entries.len(),
{
    if n > 0 {
        assert(occupied(entries, n - 1));
        let i = choose|i: int|
            0 <= i < entries.len() && (#[trigger] entries[i]).surface_idx == n - 1;
        let rest = entries.remove(i);
        assert forall|k: int| 0 <= k < n - 1 implies #[trigger] occupied(rest, k) by {
            assert(occupied(entries, k));
            let j = choose|j: int|
                0 <= j < entries.len() && (#[trigger] entries[j]).surface_idx == k;
            if j < i {
                assert(rest[j].surface_idx == k);
            } else {
                assert(rest[j - 1].surface_idx == k);
            }
        }
        lemma_subset_bound(rest, (n - 1) as nat);
    }
}

/// A pool with more surfaces than there are pictures in the buffer, and no
/// other surface in use, has a free surface.
pub proof fn lemma_pool_has_room(entries: Seq<DpbEntry>, in_use: Seq<bool>)
    requires
        no_strays(entries, in_use, None),
        entries.len() < in_use.len(),
    ensures
        first_free(in_use) is Some,
{
    lemma_first_free(in_use);
    if first_free(in_use) is None {
        assert forall|k: int| 0 <= k < in_use.len() implies #[trigger] occupied(entries, k) by {
            assert(in_use[k]);
        }
        lemma_subset_bound(entries, in_use.len());
    }
}

/// A free surface never holds a picture of the buffer.
pub proof fn lemma_free_is_unoccupied(entries: Seq<DpbEntry>, in_use: Seq<bool>)
    requires
        held(entries, in_use),
    ensures
        first_free(in_use) matches Some(k) ==> !occupied(entries, k),
{
    lemma_first_free(in_use);
}

/// Making room in a full buffer always frees a surface.
pub proof fn lemma_eviction_frees_a_surface(dpb: Dpb, in_use: Seq<bool>)
    requires
        held(dpb.entries@, in_use),
        is_full(dpb),
    ensures
        first_free(flags_after_eviction(dpb, in_use)) is Some,
{
    let at = eviction_index(dpb.entries@);
    lemma_eviction_index(dpb.entries@);
    let k = dpb.entries@[at].surface_idx as int;
    let flags = flags_after_eviction(dpb, in_use);
    assert(!flags[k]);
    lemma_first_free(flags);
}

/// The entry that leaves first is an entry.
pub proof fn lemma_eviction_index(entries: Seq<DpbEntry>)
    requires
        entries.len() > 0,
    ensures
        0 <= eviction_index(entries) < entries.len(),
{
    if exists|i: int| 0 <= i < entries.len() && #[trigger] entries[i].belongs(RefClass::ShortTerm) {
        let i = choose|i: int|
            0 <= i < entries.len() && #[trigger] entries[i].belongs(RefClass::ShortTerm);
        lemma_first_short_term_exists(entries, i);
    }
}

proof fn lemma_first_short_term_exists(entries: Seq<DpbEntry>, i: int)
    requires
        0 <= i < entries.len(),
        entries[i].belongs(RefClass::ShortTerm),
    ensures
        exists|f: int|
            0 <= f < entries.len() && #[trigger] entries[f].belongs(RefClass::ShortTerm) && (forall|
                j: int,
            |
                0 <= j < f ==> !(#[trigger] entries[j].belongs(RefClass::ShortTerm))),
    decreases i,
{
    if exists|j: int| 0 <= j < i && #[trigger] entries[j].belongs(RefClass::ShortTerm) {
        let j = choose|j: int| 0 <= j < i && #[trigger] entries[j].belongs(RefClass::ShortTerm);
        lemma_first_short_term_exists(entries, j);
    }
}

/// Where an entry stood before the one at `at` was removed.
spec fn before_removal(i: int, at: int) -> int {
    if i < at {
        i
    } else {
        i + 1
    }
}

proof fn lemma_removal_keeps_held(entries: Seq<DpbEntry>, in_use: Seq<bool>, at: int)
    requires
        held(entries, in_use),
        0 <= at < entries.len(),
    ensures
        held(entries.remove(at), in_use.update(entries[at].surface_idx as int, false)),
{
    let rest = entries.remove(at);
    let flags = in_use.update(entries[at].surface_idx as int, false);
    assert(forall|i: int|
        0 <= i < rest.len() ==> #[trigger] rest[i] == entries[before_removal(i, at)]);
    assert forall|i: int| 0 <= i < rest.len() implies (#[trigger] rest[i]).surface_idx
        < flags.len() && flags[rest[i].surface_idx as int] by {
        let j = before_removal(i, at);
        assert(entries[j].surface_idx != entries[at].surface_idx);
    }
    assert forall|i: int, j: int| 0 <= i < j < rest.len() implies (#[trigger] rest[i]).surface_idx
        != (#[trigger] rest[j]).surface_idx by {
        assert(entries[before_removal(i, at)].surface_idx != entries[before_removal(
            j,
            at,
        )].surface_idx);
    }
}

proof fn lemma_removal_leaves_no_strays(
    entries: Seq<DpbEntry>,
    in_use: Seq<bool>,
    at: int,
    other: Option<usize>,
)
    requires
        held(entries, in_use),
        no_strays(entries, in_use, other),
        0 <= at < entries.len(),
    ensures
        no_strays(
            entries.remove(at),
            in_use.update(entries[at].surface_idx as int, false),
            other,
        ),
{
    let rest = entries.remove(at);
    let flags = in_use.update(entries[at].surface_idx as int, false);
    assert forall|k: int| 0 <= k < flags.len() && #[trigger] flags[k] implies occupied(rest, k)
        || (other matches Some(o) && o == k) by {
        assert(in_use[k]);
        if occupied(entries, k) {
            let i = choose|i: int|
                0 <= i < entries.len() && (#[trigger] entries[i]).surface_idx == k;
            if i < at {
                assert(rest[i].surface_idx == k);
            } else {
                assert(i != at);
                assert(rest[i - 1].surface_idx == k);
            }
        }
    }
}

/// Making room leaves the other pictures on their surfaces, and no surface
/// in use without a picture.
pub proof fn lemma_eviction_keeps_held(dpb: Dpb, in_use: Seq<bool>, other: Option<usize>)
    requires
        held(dpb.entries@, in_use),
    ensures
        held(entries_after_eviction(dpb), flags_after_eviction(dpb, in_use)),
        no_strays(dpb.entries@, in_use, other) ==> no_strays(
            entries_after_eviction(dpb),
            flags_after_eviction(dpb, in_use),
            other,
        ),
{
    if is_full(dpb) {
        let at = eviction_index(dpb.entries@);
        lemma_eviction_index(dpb.entries@);
        lemma_removal_keeps_held(dpb.entries@, in_use, at);
        if no_strays(dpb.entries@, in_use, other) {
            lemma_removal_leaves_no_strays(dpb.entries@, in_use, at, other);
        }
    }
}

spec fn all_below(s: Seq<DpbEntry>, n: nat) -> bool {
    forall|i: int| 0 <= i < s.len() ==> (#[trigger] s[i]).surface_idx < n
}

proof fn lemma_filter_below(s: Seq<DpbEntry>, pred: spec_fn(DpbEntry) -> bool, n: nat)
    requires
        all_below(s, n),
    ensures
        all_below(s.filter(pred), n),
    decreases s.len(),
{
    reveal(Seq::filter);
    if s.len() > 0 {
        let rest = s.drop_last();
        assert(all_below(rest, n)) by {
            assert(forall|i: int| 0 <= i < rest.len() ==> #[trigger] rest[i] == s[i]);
        }
        lemma_filter_below(rest, pred, n);
    }
}

proof fn lemma_put_below(s: Seq<DpbEntry>, entry: DpbEntry, order: RefOrder, n: nat)
    requires
        all_below(s, n),
        entry.surface_idx < n,
    ensures
        all_below(put_in_order(s, entry, order), n),
    decreases s.len(),
{
    if !(s.len() == 0 || s.last().rank(order) <= entry.rank(order)) {
        let rest = s.drop_last();
        assert(all_below(rest, n)) by {
            assert(forall|i: int| 0 <= i < rest.len() ==> #[trigger] rest[i] == s[i]);
        }
        lemma_put_below(rest, entry, order, n);
    }
}

proof fn lemma_in_order_below(s: Seq<DpbEntry>, order: RefOrder, n: nat)
    requires
        all_below(s, n),
    ensures
        all_below(in_order(s, order), n),
    decreases s.len(),
{
    if s.len() > 0 {
        let rest = s.drop_last();
        assert(all_below(rest, n)) by {
            assert(forall|i: int| 0 <= i < rest.len() ==> #[trigger] rest[i] == s[i]);
        }
        lemma_in_order_below(rest, order, n);
        lemma_put_below(in_order(rest, order), s.last(), order, n);
    }
}

proof fn lemma_class_below(s: Seq<DpbEntry>, class: RefClass, order: RefOrder, n: nat)
    requires
        all_below(s, n),
    ensures
        all_below(class_in_order(s, class, order), n),
{
    lemma_filter_below(s, crate::vaapi::dpb::in_class(class), n);
    lemma_in_order_below(s.filter(crate::vaapi::dpb::in_class(class)), order, n);
}

/// The pictures that the lists of a slice name lie on surfaces of the pool.
pub proof fn lemma_lists_on_surfaces(
    entries: Seq<DpbEntry>,
    in_use: Seq<bool>,
    slice_type: u32,
    poc: i32,
)
    requires
        held(entries, in_use),
    ensures
        on_surfaces(entries.filter(is_reference()), in_use.len(), 16),
        on_surfaces(list0_entries(entries, slice_type, poc), in_use.len(), 32),
{
    let n = in_use.len();
    assert(all_below(entries, n));
    lemma_filter_below(entries, is_reference(), n);
    lemma_class_below(entries, RefClass::Past(poc), RefOrder::TopPocDescending, n);
    lemma_class_below(entries, RefClass::Future(poc), RefOrder::TopPocAscending, n);
    lemma_class_below(entries, RefClass::ShortTerm, RefOrder::FrameNumDescending, n);
    lemma_class_below(entries, RefClass::LongTerm, RefOrder::FrameNumAscending, n);
}

/// Which picture leaves a buffer, and when: none as long as there is room;
/// else the one that came first of the short-term references, or the first of
/// all where there is none of these.  Its surface is free, and no other
/// surface changes.
pub proof fn lemma_who_leaves(dpb: Dpb, in_use: Seq<bool>, k: int)
    requires
        0 <= k < in_use.len(),
    ensures
        ({
            let entries = dpb.entries@;
            let at = eviction_index(entries);
            let leaves = entries.len() > 0 && entries.len() >= dpb.max_size;
            let short = |e: DpbEntry| e.is_reference && !e.is_long_term;
            &&& !leaves ==> entries_after_eviction(dpb) == entries && flags_after_eviction(
                dpb,
                in_use,
            ) == in_use
            &&& leaves ==> {
                &&& 0 <= at < entries.len()
                &&& entries_after_eviction(dpb) == entries.remove(at)
                &&& flags_after_eviction(dpb, in_use).len() == in_use.len()
                &&& flags_after_eviction(dpb, in_use)[k] == (in_use[k] && entries[at].surface_idx
                    != k)
                &&& short(entries[at]) ==> forall|j: int|
                    0 <= j < at ==> !(#[trigger] entries[j]).is_reference || entries[j].is_long_term
                &&& !short(entries[at]) ==> at == 0 && forall|j: int|
                    0 <= j < entries.len() ==> !(#[trigger] entries[j]).is_reference
                        || entries[j].is_long_term
            }
        }),
{
    let entries = dpb.entries@;
    let at = eviction_index(entries);
    if entries.len() > 0 && entries.len() >= dpb.max_size {
        lemma_eviction_index(entries);
        if exists|i: int| 0 <= i < entries.len() && #[trigger] entries[i].belongs(
            RefClass::ShortTerm,
        ) {
            let i = choose|i: int|
                0 <= i < entries.len() && #[trigger] entries[i].belongs(RefClass::ShortTerm);
            lemma_first_short_term_exists(entries, i);
            assert(entries[at].belongs(RefClass::ShortTerm));
            assert forall|j: int| 0 <= j < at implies !(#[trigger] entries[j]).is_reference
                || entries[j].is_long_term by {
                assert(!entries[j].belongs(RefClass::ShortTerm));
            }
        } else {
            assert forall|j: int| 0 <= j < entries.len() implies !(
            #[trigger] entries[j]).is_reference || entries[j].is_long_term by {
                assert(!entries[j].belongs(RefClass::ShortTerm));
            }
        }
    }
}

} // verus!
