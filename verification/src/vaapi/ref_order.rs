//! What holds of reference lists: they are ordered, complete and stable.

use vstd::prelude::*;

use crate::vaapi::dpb::{
    class_in_order, in_class, in_order, is_b_slice, is_reference, list0_entries, list1_pictures,
    on_surfaces, picture_list, put_in_order, DpbEntry, RefClass, RefOrder,
};
use crate::vaapi::params::{no_picture, VAPictureH264};

verus! {

/// No entry stands before one of smaller rank.
pub open spec fn ordered(s: Seq<DpbEntry>, order: RefOrder) -> bool {
    forall|i: int, j: int|
        0 <= i <= j < s.len() ==> (#[trigger] s[i]).rank(order) <= (#[trigger] s[j]).rank(order)
}

/// Tells the entries of one rank.
pub open spec fn of_rank(order: RefOrder, rank: int) -> spec_fn(DpbEntry) -> bool {
    |entry: DpbEntry| entry.rank(order) == rank
}

proof fn lemma_put_in_order_last(s: Seq<DpbEntry>, entry: DpbEntry, order: RefOrder)
    ensures
        put_in_order(s, entry, order).len() == s.len() + 1,
        put_in_order(s, entry, order).last() == entry || s.len() > 0 && put_in_order(
            s,
            entry,
            order,
        ).last() == s.last(),
    decreases s.len(),
{
    if !(s.len() == 0 || s.last().rank(order) <= entry.rank(order)) {
        lemma_put_in_order_last(s.drop_last(), entry, order);
    }
}

proof fn lemma_put_in_order_ordered(s: Seq<DpbEntry>, entry: DpbEntry, order: RefOrder)
    requires
        ordered(s, order),
    ensures
        ordered(put_in_order(s, entry, order), order),
    decreases s.len(),
{
    if s.len() == 0 || s.last().rank(order) <= entry.rank(order) {
        let r = s.push(entry);
        assert forall|i: int, j: int| 0 <= i <= j < r.len() implies (#[trigger] r[i]).rank(order)
            <= (#[trigger] r[j]).rank(order) by {
            if j == s.len() && i < j {
                assert(s[i].rank(order) <= s[s.len() - 1].rank(order));
            } else if j < s.len() {
                assert(s[i].rank(order) <= s[j].rank(order));
            }
        }
    } else {
        let rest = s.drop_last();
        assert(ordered(rest, order)) by {
            assert forall|i: int, j: int| 0 <= i <= j < rest.len() implies (#[trigger] rest[i]).rank(
                order,
            ) <= (#[trigger] rest[j]).rank(order) by {
                assert(s[i].rank(order) <= s[j].rank(order));
            }
        }
        lemma_put_in_order_ordered(rest, entry, order);
        lemma_put_in_order_last(rest, entry, order);
        let inner = put_in_order(rest, entry, order);
        let r = inner.push(s.last());
        assert forall|i: int, j: int| 0 <= i <= j < r.len() implies (#[trigger] r[i]).rank(order)
            <= (#[trigger] r[j]).rank(order) by {
            if j < inner.len() {
                assert(inner[i].rank(order) <= inner[j].rank(order));
            } else if i < inner.len() {
                assert(inner[i].rank(order) <= inner[inner.len() - 1].rank(order));
                if rest.len() > 0 {
                    assert(s[s.len() - 2].rank(order) <= s[s.len() - 1].rank(order));
                }
            }
        }
    }
}

/// Putting entries in order orders them.
pub proof fn lemma_in_order_is_ordered(s: Seq<DpbEntry>, order: RefOrder)
    ensures
        ordered(in_order(s, order), order),
    decreases s.len(),
{
    if s.len() > 0 {
        lemma_in_order_is_ordered(s.drop_last(), order);
        lemma_put_in_order_ordered(in_order(s.drop_last(), order), s.last(), order);
    }
}

proof fn lemma_put_in_order_multiset(s: Seq<DpbEntry>, entry: DpbEntry, order: RefOrder)
    ensures
        put_in_order(s, entry, order).to_multiset() == s.to_multiset().insert(entry),
    decreases s.len(),
{
    broadcast use vstd::seq_lib::group_to_multiset_ensures;

    if !(s.len() == 0 || s.last().rank(order) <= entry.rank(order)) {
        lemma_put_in_order_multiset(s.drop_last(), entry, order);
        assert(s.drop_last().push(s.last()) =~= s);
        assert(put_in_order(s, entry, order).to_multiset() =~= s.to_multiset().insert(entry));
    }
}

/// Putting entries in order neither loses nor adds one.
pub proof fn lemma_in_order_keeps_entries(s: Seq<DpbEntry>, order: RefOrder)
    ensures
        in_order(s, order).to_multiset() == s.to_multiset(),
    decreases s.len(),
{
    broadcast use vstd::seq_lib::group_to_multiset_ensures;

    if s.len() > 0 {
        lemma_in_order_keeps_entries(s.drop_last(), order);
        lemma_put_in_order_multiset(in_order(s.drop_last(), order), s.last(), order);
        assert(s.drop_last().push(s.last()) =~= s);
    }
}

proof fn lemma_put_in_order_stable(
    s: Seq<DpbEntry>,
    entry: DpbEntry,
    order: RefOrder,
    pred: spec_fn(DpbEntry) -> bool,
    rank: int,
)
    requires
        ordered(s, order),
        pred == of_rank(order, rank),
    ensures
        put_in_order(s, entry, order).filter(pred) == if pred(entry) {
            s.filter(pred).push(entry)
        } else {
            s.filter(pred)
        },
    decreases s.len(),
{
    reveal(Seq::filter);
    if s.len() == 0 || s.last().rank(order) <= entry.rank(order) {
        assert(s.push(entry).drop_last() =~= s);
    } else {
        let rest = s.drop_last();
        assert(ordered(rest, order)) by {
            assert forall|i: int, j: int| 0 <= i <= j < rest.len() implies (#[trigger] rest[i]).rank(
                order,
            ) <= (#[trigger] rest[j]).rank(order) by {
                assert(s[i].rank(order) <= s[j].rank(order));
            }
        }
        lemma_put_in_order_stable(rest, entry, order, pred, rank);
        let inner = put_in_order(rest, entry, order);
        assert(inner.push(s.last()).drop_last() =~= inner);
        assert(inner.push(s.last()).last() == s.last());
    }
}

/// Entries of one rank keep the order in which they came.
pub proof fn lemma_in_order_is_stable(s: Seq<DpbEntry>, order: RefOrder, rank: int)
    ensures
        in_order(s, order).filter(of_rank(order, rank)) == s.filter(of_rank(order, rank)),
    decreases s.len(),
{
    let pred = of_rank(order, rank);
    reveal(Seq::filter);
    if s.len() > 0 {
        lemma_in_order_is_stable(s.drop_last(), order, rank);
        lemma_in_order_is_ordered(s.drop_last(), order);
        lemma_put_in_order_stable(in_order(s.drop_last(), order), s.last(), order, pred, rank);
    }
}

proof fn lemma_split_by_class(
    entries: Seq<DpbEntry>,
    a: spec_fn(DpbEntry) -> bool,
    b: spec_fn(DpbEntry) -> bool,
    whole: spec_fn(DpbEntry) -> bool,
)
    requires
        forall|e: DpbEntry| #[trigger] whole(e) <==> (a(e) || b(e)),
        forall|e: DpbEntry| !(#[trigger] a(e) && b(e)),
    ensures
        entries.filter(a).to_multiset().add(entries.filter(b).to_multiset()) == entries.filter(
            whole,
        ).to_multiset(),
    decreases entries.len(),
{
    broadcast use vstd::seq_lib::group_to_multiset_ensures;

    reveal(Seq::filter);
    if entries.len() > 0 {
        let rest = entries.drop_last();
        let last = entries.last();
        lemma_split_by_class(rest, a, b, whole);
        assert(a(last) || b(last) || !whole(last));
        assert(!(a(last) && b(last)));
        assert(entries.filter(a).to_multiset().add(entries.filter(b).to_multiset())
            =~= entries.filter(whole).to_multiset());
    } else {
        assert(entries.filter(a).to_multiset().add(entries.filter(b).to_multiset())
            =~= entries.filter(whole).to_multiset());
    }
}

/// The first list of a slice holds every reference of the buffer exactly once.
pub proof fn lemma_list0_is_complete(entries: Seq<DpbEntry>, slice_type: u32, current_poc: i32)
    ensures
        list0_entries(entries, slice_type, current_poc).to_multiset() == entries.filter(
            is_reference(),
        ).to_multiset(),
{
    broadcast use vstd::seq_lib::group_to_multiset_ensures;

    let short = in_class(RefClass::ShortTerm);
    let long = in_class(RefClass::LongTerm);
    let lt = class_in_order(entries, RefClass::LongTerm, RefOrder::FrameNumAscending);
    lemma_in_order_keeps_entries(entries.filter(long), RefOrder::FrameNumAscending);
    lemma_split_by_class(entries, short, long, is_reference());
    if is_b_slice(slice_type) {
        let past = in_class(RefClass::Past(current_poc));
        let future = in_class(RefClass::Future(current_poc));
        let le = class_in_order(
            entries,
            RefClass::Past(current_poc),
            RefOrder::TopPocDescending,
        );
        let gt = class_in_order(
            entries,
            RefClass::Future(current_poc),
            RefOrder::TopPocAscending,
        );
        lemma_in_order_keeps_entries(entries.filter(past), RefOrder::TopPocDescending);
        lemma_in_order_keeps_entries(entries.filter(future), RefOrder::TopPocAscending);
        lemma_split_by_class(entries, past, future, short);
        vstd::seq_lib::lemma_multiset_commutative(le, gt);
        vstd::seq_lib::lemma_multiset_commutative(le + gt, lt);
    } else {
        let st = class_in_order(entries, RefClass::ShortTerm, RefOrder::FrameNumDescending);
        lemma_in_order_keeps_entries(entries.filter(short), RefOrder::FrameNumDescending);
        vstd::seq_lib::lemma_multiset_commutative(st, lt);
    }
}

/// For a bi-predicted slice the second list is the first one backwards, slot
/// by slot; for any other slice it names no picture.
pub proof fn lemma_list1_mirrors_list0(
    entries: Seq<DpbEntry>,
    surfaces: Seq<u32>,
    slice_type: u32,
    current_poc: i32,
    slot: int,
)
    requires
        0 <= slot < 32,
    ensures
        is_b_slice(slice_type) ==> list1_pictures(entries, surfaces, slice_type, current_poc)[slot]
            == picture_list(list0_entries(entries, slice_type, current_poc), surfaces, 32)[31
            - slot],
        !is_b_slice(slice_type) ==> list1_pictures(entries, surfaces, slice_type, current_poc)[slot]
            == no_picture(),
{
}

proof fn lemma_filter_agrees(
    s: Seq<DpbEntry>,
    p: spec_fn(DpbEntry) -> bool,
    q: spec_fn(DpbEntry) -> bool,
)
    requires
        forall|i: int| 0 <= i < s.len() ==> p(#[trigger] s[i]) == q(s[i]),
    ensures
        s.filter(p) == s.filter(q),
    decreases s.len(),
{
    reveal(Seq::filter);
    if s.len() > 0 {
        let rest = s.drop_last();
        assert forall|i: int| 0 <= i < rest.len() implies p(#[trigger] rest[i]) == q(rest[i]) by {
            assert(rest[i] == s[i]);
        }
        lemma_filter_agrees(rest, p, q);
        assert(p(s[s.len() - 1]) == q(s[s.len() - 1]));
    }
}

proof fn lemma_filter_none(s: Seq<DpbEntry>, p: spec_fn(DpbEntry) -> bool)
    requires
        forall|i: int| 0 <= i < s.len() ==> !p(#[trigger] s[i]),
    ensures
        s.filter(p) == Seq::<DpbEntry>::empty(),
    decreases s.len(),
{
    reveal(Seq::filter);
    if s.len() > 0 {
        let rest = s.drop_last();
        assert forall|i: int| 0 <= i < rest.len() implies !p(#[trigger] rest[i]) by {
            assert(rest[i] == s[i]);
        }
        lemma_filter_none(rest, p);
        assert(!p(s[s.len() - 1]));
    }
}

proof fn lemma_filter_twice(
    s: Seq<DpbEntry>,
    p: spec_fn(DpbEntry) -> bool,
    q: spec_fn(DpbEntry) -> bool,
    both: spec_fn(DpbEntry) -> bool,
)
    requires
        forall|e: DpbEntry| #[trigger] both(e) <==> (p(e) && q(e)),
    ensures
        s.filter(p).filter(q) == s.filter(both),
    decreases s.len(),
{
    reveal(Seq::filter);
    if s.len() > 0 {
        let rest = s.drop_last();
        lemma_filter_twice(rest, p, q, both);
        assert(both(s.last()) <==> (p(s.last()) && q(s.last())));
        if p(s.last()) {
            assert(rest.filter(p).push(s.last()).drop_last() =~= rest.filter(p));
        }
    }
}

proof fn lemma_filter_count(s: Seq<DpbEntry>, p: spec_fn(DpbEntry) -> bool, e: DpbEntry)
    ensures
        s.filter(p).to_multiset().count(e) == if p(e) {
            s.to_multiset().count(e)
        } else {
            0
        },
    decreases s.len(),
{
    broadcast use vstd::seq_lib::group_to_multiset_ensures;

    reveal(Seq::filter);
    if s.len() > 0 {
        lemma_filter_count(s.drop_last(), p, e);
        assert(s.drop_last().push(s.last()) =~= s);
    }
}

proof fn lemma_members(entries: Seq<DpbEntry>, class: RefClass, order: RefOrder)
    ensures
        forall|k: int|
            0 <= k < class_in_order(entries, class, order).len() ==> (#[trigger] class_in_order(
                entries,
                class,
                order,
            )[k]).belongs(class),
{
    broadcast use vstd::seq_lib::group_to_multiset_ensures;

    let pred = in_class(class);
    let members = entries.filter(pred);
    let listed = class_in_order(entries, class, order);
    lemma_in_order_keeps_entries(members, order);
    assert forall|k: int| 0 <= k < listed.len() implies (#[trigger] listed[k]).belongs(class) by {
        assert(listed.contains(listed[k]));
        assert(listed.to_multiset().count(listed[k]) > 0);
        assert(members.to_multiset().count(listed[k]) > 0);
        lemma_filter_count(entries, pred, listed[k]);
    }
}

/// The order of the first list: for any two of its references, the one that
/// stands first is `a`.
///
/// Short-term references come before long-term ones, and these stand by
/// ascending frame number.  Short-term references of a slice that is not
/// bi-predicted stand by descending frame number.  Those of a bi-predicted
/// slice come in two runs: up to the current picture by descending order
/// count, and then those behind it by ascending order count.
pub proof fn lemma_list0_order(
    entries: Seq<DpbEntry>,
    slice_type: u32,
    current_poc: i32,
    i: int,
    j: int,
)
    requires
        0 <= i < j < list0_entries(entries, slice_type, current_poc).len(),
    ensures
        ({
            let a = list0_entries(entries, slice_type, current_poc)[i];
            let b = list0_entries(entries, slice_type, current_poc)[j];
            &&& a.is_reference && b.is_reference
            &&& a.is_long_term ==> b.is_long_term
            &&& a.is_long_term && b.is_long_term ==> a.frame_num <= b.frame_num
            &&& slice_type % 5 != 1 && !a.is_long_term && !b.is_long_term ==> a.frame_num
                >= b.frame_num
            &&& slice_type % 5 == 1 && !a.is_long_term && !b.is_long_term ==> {
                &&& a.top_poc > current_poc ==> b.top_poc > current_poc
                &&& a.top_poc <= current_poc && b.top_poc <= current_poc ==> a.top_poc >= b.top_poc
                &&& a.top_poc > current_poc && b.top_poc > current_poc ==> a.top_poc <= b.top_poc
            }
        }),
{
    let list = list0_entries(entries, slice_type, current_poc);
    let long = class_in_order(entries, RefClass::LongTerm, RefOrder::FrameNumAscending);
    lemma_members(entries, RefClass::LongTerm, RefOrder::FrameNumAscending);
    lemma_in_order_is_ordered(
        entries.filter(in_class(RefClass::LongTerm)),
        RefOrder::FrameNumAscending,
    );
    if is_b_slice(slice_type) {
        let past = class_in_order(
            entries,
            RefClass::Past(current_poc),
            RefOrder::TopPocDescending,
        );
        let future = class_in_order(
            entries,
            RefClass::Future(current_poc),
            RefOrder::TopPocAscending,
        );
        lemma_members(entries, RefClass::Past(current_poc), RefOrder::TopPocDescending);
        lemma_members(entries, RefClass::Future(current_poc), RefOrder::TopPocAscending);
        lemma_in_order_is_ordered(
            entries.filter(in_class(RefClass::Past(current_poc))),
            RefOrder::TopPocDescending,
        );
        lemma_in_order_is_ordered(
            entries.filter(in_class(RefClass::Future(current_poc))),
            RefOrder::TopPocAscending,
        );
        let p = past.len();
        let f = p + future.len();
        assert(list == past + future + long);
        lemma_run(list, past, 0, RefOrder::TopPocDescending, i, j);
        lemma_run(list, future, p as int, RefOrder::TopPocAscending, i, j);
        lemma_run(list, long, f as int, RefOrder::FrameNumAscending, i, j);
        assert(i < p ==> past[i].belongs(RefClass::Past(current_poc)));
        assert(j < p ==> past[j].belongs(RefClass::Past(current_poc)));
        assert(p <= i < f ==> future[i - p].belongs(RefClass::Future(current_poc)));
        assert(p <= j < f ==> future[j - p].belongs(RefClass::Future(current_poc)));
        assert(f <= i ==> long[i - f].belongs(RefClass::LongTerm));
        assert(f <= j ==> long[j - f].belongs(RefClass::LongTerm));
    } else {
        let short = class_in_order(entries, RefClass::ShortTerm, RefOrder::FrameNumDescending);
        lemma_members(entries, RefClass::ShortTerm, RefOrder::FrameNumDescending);
        lemma_in_order_is_ordered(
            entries.filter(in_class(RefClass::ShortTerm)),
            RefOrder::FrameNumDescending,
        );
        let f = short.len();
        assert(list == short + long);
        lemma_run(list, short, 0, RefOrder::FrameNumDescending, i, j);
        lemma_run(list, long, f as int, RefOrder::FrameNumAscending, i, j);
        assert(i < f ==> short[i].belongs(RefClass::ShortTerm));
        assert(j < f ==> short[j].belongs(RefClass::ShortTerm));
        assert(f <= i ==> long[i - f].belongs(RefClass::LongTerm));
        assert(f <= j ==> long[j - f].belongs(RefClass::LongTerm));
    }
}

proof fn lemma_run(
    list: Seq<DpbEntry>,
    run: Seq<DpbEntry>,
    start: int,
    order: RefOrder,
    i: int,
    j: int,
)
    requires
        0 <= start,
        start + run.len() <= list.len(),
        list.subrange(start, start + run.len()) =~= run,
        ordered(run, order),
        i < j,
    ensures
        start <= i < start + run.len() ==> list[i] == run[i - start],
        start <= j < start + run.len() ==> list[j] == run[j - start],
        start <= i && j < start + run.len() ==> list[i].rank(order) <= list[j].rank(order),
{
    if start <= i < start + run.len() {
        assert(list.subrange(start, start + run.len())[i - start] == list[i]);
    }
    if start <= j < start + run.len() {
        assert(list.subrange(start, start + run.len())[j - start] == list[j]);
    }
    if start <= i && j < start + run.len() {
        assert(run[i - start].rank(order) <= run[j - start].rank(order));
    }
}

/// The first list holds each reference of the buffer as often as the buffer
/// does, and nothing else.
pub proof fn lemma_list0_holds_the_references(
    entries: Seq<DpbEntry>,
    slice_type: u32,
    current_poc: i32,
    entry: DpbEntry,
)
    ensures
        list0_entries(entries, slice_type, current_poc).to_multiset().count(entry)
            == if entry.is_reference {
            entries.to_multiset().count(entry)
        } else {
            0
        },
{
    lemma_list0_is_complete(entries, slice_type, current_poc);
    lemma_filter_count(entries, is_reference(), entry);
}

proof fn lemma_class_keeps_ties(
    entries: Seq<DpbEntry>,
    class: RefClass,
    order: RefOrder,
    rank: int,
    tied: spec_fn(DpbEntry) -> bool,
)
    requires
        forall|e: DpbEntry| #[trigger] tied(e) <==> (e.belongs(class) && e.rank(order) == rank),
    ensures
        class_in_order(entries, class, order).filter(tied) == entries.filter(tied),
{
    let members = entries.filter(in_class(class));
    let listed = class_in_order(entries, class, order);
    lemma_members(entries, class, order);
    lemma_in_order_is_stable(members, order, rank);
    lemma_filter_twice(entries, in_class(class), of_rank(order, rank), tied);
    assert forall|i: int| 0 <= i < listed.len() implies tied(#[trigger] listed[i]) == of_rank(
        order,
        rank,
    )(listed[i]) by {
        assert(listed[i].belongs(class));
    }
    lemma_filter_agrees(listed, tied, of_rank(order, rank));
}

proof fn lemma_class_without(
    entries: Seq<DpbEntry>,
    class: RefClass,
    order: RefOrder,
    pred: spec_fn(DpbEntry) -> bool,
)
    requires
        forall|e: DpbEntry| #[trigger] pred(e) ==> !e.belongs(class),
    ensures
        class_in_order(entries, class, order).filter(pred) == Seq::<DpbEntry>::empty(),
{
    let listed = class_in_order(entries, class, order);
    lemma_members(entries, class, order);
    assert forall|i: int| 0 <= i < listed.len() implies !pred(#[trigger] listed[i]) by {
        assert(listed[i].belongs(class));
    }
    lemma_filter_none(listed, pred);
}

/// Long-term references of one frame number stand in the first list in the
/// order in which they came into the buffer.
pub proof fn lemma_list0_keeps_long_term_ties(
    entries: Seq<DpbEntry>,
    slice_type: u32,
    current_poc: i32,
    frame_num: u32,
)
    ensures
        ({
            let tied = |e: DpbEntry|
                e.is_reference && e.is_long_term && e.frame_num == frame_num;
            list0_entries(entries, slice_type, current_poc).filter(tied) == entries.filter(tied)
        }),
{
    let tied = |e: DpbEntry| e.is_reference && e.is_long_term && e.frame_num == frame_num;
    let long = class_in_order(entries, RefClass::LongTerm, RefOrder::FrameNumAscending);
    lemma_class_keeps_ties(
        entries,
        RefClass::LongTerm,
        RefOrder::FrameNumAscending,
        frame_num as int,
        tied,
    );
    if is_b_slice(slice_type) {
        let past = class_in_order(
            entries,
            RefClass::Past(current_poc),
            RefOrder::TopPocDescending,
        );
        let future = class_in_order(
            entries,
            RefClass::Future(current_poc),
            RefOrder::TopPocAscending,
        );
        lemma_class_without(
            entries,
            RefClass::Past(current_poc),
            RefOrder::TopPocDescending,
            tied,
        );
        lemma_class_without(
            entries,
            RefClass::Future(current_poc),
            RefOrder::TopPocAscending,
            tied,
        );
        Seq::filter_distributes_over_add(past + future, long, tied);
        Seq::filter_distributes_over_add(past, future, tied);
        assert(Seq::<DpbEntry>::empty() + Seq::<DpbEntry>::empty() + entries.filter(tied)
            =~= entries.filter(tied));
    } else {
        let short = class_in_order(entries, RefClass::ShortTerm, RefOrder::FrameNumDescending);
        lemma_class_without(
            entries,
            RefClass::ShortTerm,
            RefOrder::FrameNumDescending,
            tied,
        );
        Seq::filter_distributes_over_add(short, long, tied);
        assert(Seq::<DpbEntry>::empty() + entries.filter(tied) =~= entries.filter(tied));
    }
}

/// Short-term references of one frame number, for a slice that is not
/// bi-predicted, stand in the first list in the order in which they came into
/// the buffer.
pub proof fn lemma_list0_keeps_frame_num_ties(
    entries: Seq<DpbEntry>,
    slice_type: u32,
    current_poc: i32,
    frame_num: u32,
)
    requires
        slice_type % 5 != 1,
    ensures
        ({
            let tied = |e: DpbEntry|
                e.is_reference && !e.is_long_term && e.frame_num == frame_num;
            list0_entries(entries, slice_type, current_poc).filter(tied) == entries.filter(tied)
        }),
{
    let tied = |e: DpbEntry| e.is_reference && !e.is_long_term && e.frame_num == frame_num;
    let long = class_in_order(entries, RefClass::LongTerm, RefOrder::FrameNumAscending);
    let short = class_in_order(entries, RefClass::ShortTerm, RefOrder::FrameNumDescending);
    lemma_class_keeps_ties(
        entries,
        RefClass::ShortTerm,
        RefOrder::FrameNumDescending,
        -frame_num,
        tied,
    );
    lemma_class_without(entries, RefClass::LongTerm, RefOrder::FrameNumAscending, tied);
    Seq::filter_distributes_over_add(short, long, tied);
    assert(entries.filter(tied) + Seq::<DpbEntry>::empty() =~= entries.filter(tied));
}

/// Short-term references of one order count, for a bi-predicted slice, stand
/// in the first list in the order in which they came into the buffer.
pub proof fn lemma_list0_keeps_order_count_ties(
    entries: Seq<DpbEntry>,
    slice_type: u32,
    current_poc: i32,
    top_poc: i32,
)
    requires
        slice_type % 5 == 1,
    ensures
        ({
            let tied = |e: DpbEntry| e.is_reference && !e.is_long_term && e.top_poc == top_poc;
            list0_entries(entries, slice_type, current_poc).filter(tied) == entries.filter(tied)
        }),
{
    let tied = |e: DpbEntry| e.is_reference && !e.is_long_term && e.top_poc == top_poc;
    let past = class_in_order(entries, RefClass::Past(current_poc), RefOrder::TopPocDescending);
    let future = class_in_order(entries, RefClass::Future(current_poc), RefOrder::TopPocAscending);
    let long = class_in_order(entries, RefClass::LongTerm, RefOrder::FrameNumAscending);
    lemma_class_without(entries, RefClass::LongTerm, RefOrder::FrameNumAscending, tied);
    if top_poc <= current_poc {
        lemma_class_keeps_ties(
            entries,
            RefClass::Past(current_poc),
            RefOrder::TopPocDescending,
            -top_poc,
            tied,
        );
        lemma_class_without(
            entries,
            RefClass::Future(current_poc),
            RefOrder::TopPocAscending,
            tied,
        );
    } else {
        lemma_class_keeps_ties(
            entries,
            RefClass::Future(current_poc),
            RefOrder::TopPocAscending,
            top_poc as int,
            tied,
        );
        lemma_class_without(
            entries,
            RefClass::Past(current_poc),
            RefOrder::TopPocDescending,
            tied,
        );
    }
    Seq::filter_distributes_over_add(past + future, long, tied);
    Seq::filter_distributes_over_add(past, future, tied);
    let none = Seq::<DpbEntry>::empty();
    assert(entries.filter(tied) + none + none =~= entries.filter(tied));
    assert(none + entries.filter(tied) + none =~= entries.filter(tied));
}

/// What the driver is told of an entry: the handle of its surface, its frame
/// number, its order counts, whether it is a short-term (0x08) or a long-term
/// (0x10) reference, and both fields (0x02 and 0x04) where they differ in
/// their order count.
pub proof fn lemma_picture_of_entry(entry: DpbEntry, surfaces: Seq<u32>)
    ensures
        ({
            let picture = entry.picture(surfaces);
            &&& picture.picture_id == surfaces[entry.surface_idx as int]
            &&& picture.frame_idx == entry.frame_num
            &&& picture.top_field_order_cnt == entry.top_poc
            &&& picture.bottom_field_order_cnt == entry.bottom_poc
            &&& !entry.is_long_term && entry.top_poc == entry.bottom_poc ==> picture.flags == 0x08
            &&& !entry.is_long_term && entry.top_poc != entry.bottom_poc ==> picture.flags == 0x0e
            &&& entry.is_long_term && entry.top_poc == entry.bottom_poc ==> picture.flags == 0x10
            &&& entry.is_long_term && entry.top_poc != entry.bottom_poc ==> picture.flags == 0x16
        }),
{
}

/// A list names its entries in order and no picture after them: an invalid
/// handle, marked by 0x01.
pub proof fn lemma_list_of_pictures(entries: Seq<DpbEntry>, surfaces: Seq<u32>, n: nat, slot: int)
    requires
        0 <= slot < n,
    ensures
        picture_list(entries, surfaces, n).len() == n,
        slot < entries.len() ==> {
            let picture = picture_list(entries, surfaces, n)[slot];
            &&& picture.picture_id == surfaces[entries[slot].surface_idx as int]
            &&& picture.frame_idx == entries[slot].frame_num
            &&& picture.top_field_order_cnt == entries[slot].top_poc
            &&& picture.bottom_field_order_cnt == entries[slot].bottom_poc
        },
        slot >= entries.len() ==> {
            let picture = picture_list(entries, surfaces, n)[slot];
            &&& picture.picture_id == 0xffff_ffff
            &&& picture.flags == 0x01
            &&& picture.frame_idx == 0
            &&& picture.top_field_order_cnt == 0
            &&& picture.bottom_field_order_cnt == 0
        },
{
    if slot < entries.len() {
        lemma_picture_of_entry(entries[slot], surfaces);
    }
}

/// `a` and `b` may stand one before the other in the first list of a slice:
/// pictures before empty slots, short-term references (0x08) before long-term
/// ones (0x10), and each kind in its order.
pub open spec fn may_precede(
    a: VAPictureH264,
    b: VAPictureH264,
    bi_predicted: bool,
    current_poc: i32,
) -> bool {
    let a_short = (a.flags / 0x08) % 2 == 1;
    let b_short = (b.flags / 0x08) % 2 == 1;
    let a_long = (a.flags / 0x10) % 2 == 1;
    let b_long = (b.flags / 0x10) % 2 == 1;
    &&& a.flags == 0x01 ==> b.flags == 0x01
    &&& a_long ==> !b_short
    &&& a_long && b_long ==> a.frame_idx <= b.frame_idx
    &&& a_short && b_short && !bi_predicted ==> a.frame_idx >= b.frame_idx
    &&& a_short && b_short && bi_predicted ==> {
        let a_poc = a.top_field_order_cnt;
        let b_poc = b.top_field_order_cnt;
        &&& a_poc > current_poc ==> b_poc > current_poc
        &&& a_poc <= current_poc && b_poc <= current_poc ==> a_poc >= b_poc
        &&& a_poc > current_poc && b_poc > current_poc ==> a_poc <= b_poc
    }
}

/// The first list as the driver gets it is in order.
pub proof fn lemma_list0_pictures_in_order(
    entries: Seq<DpbEntry>,
    surfaces: Seq<u32>,
    slice_type: u32,
    current_poc: i32,
)
    ensures
        forall|i: int, j: int|
            0 <= i < j < 32 ==> may_precede(
                #[trigger] picture_list(
                    list0_entries(entries, slice_type, current_poc),
                    surfaces,
                    32,
                )[i],
                #[trigger] picture_list(
                    list0_entries(entries, slice_type, current_poc),
                    surfaces,
                    32,
                )[j],
                slice_type % 5 == 1,
                current_poc,
            ),
{
    let listed = list0_entries(entries, slice_type, current_poc);
    let list = picture_list(listed, surfaces, 32);
    assert forall|i: int, j: int| 0 <= i < j < 32 implies may_precede(
        #[trigger] list[i],
        #[trigger] list[j],
        slice_type % 5 == 1,
        current_poc,
    ) by {
        lemma_list_of_pictures(listed, surfaces, 32, i);
        lemma_list_of_pictures(listed, surfaces, 32, j);
        if i < listed.len() {
            lemma_picture_of_entry(listed[i], surfaces);
        }
        if j < listed.len() {
            lemma_picture_of_entry(listed[j], surfaces);
            lemma_list0_order(entries, slice_type, current_poc, i, j);
        }
    }
}

/// The references of the buffer are listed oldest first: each stands behind
/// as many as came into the buffer before it.
pub proof fn lemma_reference_frames_in_order(entries: Seq<DpbEntry>, at: int)
    requires
        0 <= at < entries.len(),
        entries[at].is_reference,
    ensures
        ({
            let earlier = entries.take(at).filter(|e: DpbEntry| e.is_reference).len();
            &&& earlier < entries.filter(is_reference()).len()
            &&& entries.filter(is_reference())[earlier as int] == entries[at]
        }),
{
    let pred = |e: DpbEntry| e.is_reference;
    let before = entries.take(at);
    let after = entries.skip(at + 1);
    let one = seq![entries[at]];
    lemma_filter_agrees(entries, is_reference(), pred);
    assert(entries =~= before + one + after);
    Seq::filter_distributes_over_add(before + one, after, pred);
    Seq::filter_distributes_over_add(before, one, pred);
    assert(one.filter(pred) =~= one) by {
        reveal_with_fuel(Seq::filter, 2);
        assert(one.drop_last() =~= Seq::<DpbEntry>::empty());
        assert(one.drop_last().filter(pred) =~= Seq::<DpbEntry>::empty());
    }
}

/// The second list in slots: for a bi-predicted slice, of type 1 or 6, it is
/// the first one backwards; for any other slice no slot names a picture.
pub proof fn lemma_slots_of_list1(
    entries: Seq<DpbEntry>,
    surfaces: Seq<u32>,
    slice_type: u32,
    current_poc: i32,
    slot: int,
)
    requires
        0 <= slot < 32,
    ensures
        ({
            let list0 = picture_list(
                list0_entries(entries, slice_type, current_poc),
                surfaces,
                32,
            );
            let list1 = list1_pictures(entries, surfaces, slice_type, current_poc);
            &&& list1.len() == 32
            &&& slice_type % 5 == 1 ==> list1[slot] == list0[31 - slot]
            &&& slice_type % 5 != 1 ==> list1[slot].flags == 0x01 && list1[slot].picture_id
                == 0xffff_ffff
        }),
{
    lemma_list_of_pictures(Seq::empty(), surfaces, 32, slot);
}

/// Which entries are asked to lie on one of the surfaces: those that a list
/// of `n` slots has room for.
pub proof fn lemma_entries_on_surfaces(entries: Seq<DpbEntry>, count: nat, n: int)
    ensures
        on_surfaces(entries, count, n) <==> forall|i: int|
            0 <= i < n && i < entries.len() ==> (#[trigger] entries[i]).surface_idx < count,
{
}

} // verus!
