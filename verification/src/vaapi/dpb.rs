//! The decoded picture buffer: which pictures serve as references, in which
//! order a slice refers to them, and where a picture stands in output order.

use vstd::prelude::*;

use crate::vaapi::params::{
    no_picture, VAPictureH264, VA_PICTURE_H264_BOTTOM_FIELD,
    VA_PICTURE_H264_LONG_TERM_REFERENCE, VA_PICTURE_H264_SHORT_TERM_REFERENCE,
    VA_PICTURE_H264_TOP_FIELD,
};
use crate::vaapi::ref_order::{lemma_list0_pictures_in_order, may_precede};

verus! {

/// A picture in the buffer.
#[derive(Debug, Clone, Copy, PartialEq, Eq, Structural)]
pub struct DpbEntry {
    pub surface_idx: usize,
    pub frame_num: u32,
    pub top_poc: i32,
    pub bottom_poc: i32,
    pub is_long_term: bool,
    pub is_reference: bool,
}

/// The decoded picture buffer and the state of picture order counting.
#[derive(Debug)]
pub struct Dpb {
    pub entries: Vec<DpbEntry>,
    pub max_size: usize,
    pub poc_counter: i32,
    pub prev_poc_lsb: u32,
    pub prev_poc_msb: i32,
}

/// An order in which references are listed; a smaller rank comes first.
#[derive(Debug, Clone, Copy, PartialEq, Eq, Structural)]
pub enum RefOrder {
    TopPocDescending,
    TopPocAscending,
    FrameNumDescending,
    FrameNumAscending,
}

/// A class of references.
#[derive(Debug, Clone, Copy, PartialEq, Eq, Structural)]
pub enum RefClass {
    /// Short-term references up to this picture order count.
    Past(i32),
    /// Short-term references beyond this picture order count.
    Future(i32),
    ShortTerm,
    LongTerm,
}

impl DpbEntry {
    pub open spec fn rank(self, order: RefOrder) -> int {
        match order {
            RefOrder::TopPocDescending => -self.top_poc,
            RefOrder::TopPocAscending => self.top_poc as int,
            RefOrder::FrameNumDescending => -self.frame_num,
            RefOrder::FrameNumAscending => self.frame_num as int,
        }
    }

    pub open spec fn belongs(self, class: RefClass) -> bool {
        self.is_reference && match class {
            RefClass::Past(poc) => !self.is_long_term && self.top_poc <= poc,
            RefClass::Future(poc) => !self.is_long_term && self.top_poc > poc,
            RefClass::ShortTerm => !self.is_long_term,
            RefClass::LongTerm => self.is_long_term,
        }
    }

    /// The picture as the driver knows it.
    pub open spec fn picture(self, surfaces: Seq<u32>) -> VAPictureH264 {
        VAPictureH264 {
            picture_id: surfaces[self.surface_idx as int],
            frame_idx: self.frame_num,
            flags: ((if self.is_long_term {
                VA_PICTURE_H264_LONG_TERM_REFERENCE
            } else {
                VA_PICTURE_H264_SHORT_TERM_REFERENCE
            }) + (if self.top_poc != self.bottom_poc {
                VA_PICTURE_H264_TOP_FIELD + VA_PICTURE_H264_BOTTOM_FIELD
            } else {
                0
            })) as u32,
            top_field_order_cnt: self.top_poc,
            bottom_field_order_cnt: self.bottom_poc,
        }
    }

    fn rank_of(&self, order: RefOrder) -> (rank: i64)
        ensures
            rank == self.rank(order),
    {
        match order {
            RefOrder::TopPocDescending => -(self.top_poc as i64),
            RefOrder::TopPocAscending => self.top_poc as i64,
            RefOrder::FrameNumDescending => -(self.frame_num as i64),
            RefOrder::FrameNumAscending => self.frame_num as i64,
        }
    }

    fn belongs_to(&self, class: RefClass) -> (member: bool)
        ensures
            member == self.belongs(class),
    {
        self.is_reference && match class {
            RefClass::Past(poc) => !self.is_long_term && self.top_poc <= poc,
            RefClass::Future(poc) => !self.is_long_term && self.top_poc > poc,
            RefClass::ShortTerm => !self.is_long_term,
            RefClass::LongTerm => self.is_long_term,
        }
    }
}

/// Tells the members of a class.
pub open spec fn in_class(class: RefClass) -> spec_fn(DpbEntry) -> bool {
    |entry: DpbEntry| entry.belongs(class)
}

/// Tells the references.
pub open spec fn is_reference() -> spec_fn(DpbEntry) -> bool {
    |entry: DpbEntry| entry.is_reference
}

/// `entry` put into the ordered sequence `s`, behind every entry of its rank.
pub open spec fn put_in_order(s: Seq<DpbEntry>, entry: DpbEntry, order: RefOrder) -> Seq<DpbEntry>
    decreases s.len(),
{
    if s.len() == 0 || s.last().rank(order) <= entry.rank(order) {
        s.push(entry)
    } else {
        put_in_order(s.drop_last(), entry, order).push(s.last())
    }
}

/// `s` put in order; entries of one rank keep their order.
pub open spec fn in_order(s: Seq<DpbEntry>, order: RefOrder) -> Seq<DpbEntry>
    decreases s.len(),
{
    if s.len() == 0 {
        s
    } else {
        put_in_order(in_order(s.drop_last(), order), s.last(), order)
    }
}

/// The members of a class, in order.
pub open spec fn class_in_order(
    entries: Seq<DpbEntry>,
    class: RefClass,
    order: RefOrder,
) -> Seq<DpbEntry> {
    in_order(entries.filter(in_class(class)), order)
}

/// The slice is bi-predicted.
pub open spec fn is_b_slice(slice_type: u32) -> bool {
    slice_type % 5 == 1
}

/// The references of a slice in the order of its first list.
///
/// A bi-predicted slice lists the past pictures from the nearest back, then
/// the future ones from the nearest on; any other slice lists the short-term
/// references from the latest back.  Long-term references come last.
pub open spec fn list0_entries(entries: Seq<DpbEntry>, slice_type: u32, current_poc: i32) -> Seq<
    DpbEntry,
> {
    if is_b_slice(slice_type) {
        class_in_order(entries, RefClass::Past(current_poc), RefOrder::TopPocDescending)
            + class_in_order(entries, RefClass::Future(current_poc), RefOrder::TopPocAscending)
            + class_in_order(entries, RefClass::LongTerm, RefOrder::FrameNumAscending)
    } else {
        class_in_order(entries, RefClass::ShortTerm, RefOrder::FrameNumDescending)
            + class_in_order(entries, RefClass::LongTerm, RefOrder::FrameNumAscending)
    }
}

/// The first `n` pictures of `entries`, filled up with entries for no picture.
pub open spec fn picture_list(entries: Seq<DpbEntry>, surfaces: Seq<u32>, n: nat) -> Seq<
    VAPictureH264,
> {
    Seq::new(
        n,
        |i: int|
            if i < entries.len() {
                entries[i].picture(surfaces)
            } else {
                no_picture()
            },
    )
}

/// Each of the first `n` entries lies on one of `count` surfaces.
pub open spec fn on_surfaces(entries: Seq<DpbEntry>, count: nat, n: int) -> bool {
    forall|i: int|
        0 <= i < entries.len() && i < n ==> (#[trigger] entries[i]).surface_idx < count
}

/// The entry that leaves the buffer first: the oldest short-term reference,
/// or else the oldest entry.
pub open spec fn eviction_index(entries: Seq<DpbEntry>) -> int {
    if exists|i: int| 0 <= i < entries.len() && #[trigger] entries[i].belongs(RefClass::ShortTerm) {
        first_short_term(entries)
    } else {
        0
    }
}

/// The index of the first short-term reference, where there is one.
pub open spec fn first_short_term(entries: Seq<DpbEntry>) -> int {
    choose|i: int|
        0 <= i < entries.len() && #[trigger] entries[i].belongs(RefClass::ShortTerm) && (forall|
            j: int,
        |
            0 <= j < i ==> !(#[trigger] entries[j].belongs(RefClass::ShortTerm)))
}

/// The surface flags once a surface is free again.
pub open spec fn released(in_use: Seq<bool>, surface: usize) -> Seq<bool> {
    if surface < in_use.len() {
        in_use.update(surface as int, false)
    } else {
        in_use
    }
}


proof fn lemma_put_in_order_split(
    s: Seq<DpbEntry>,
    entry: DpbEntry,
    order: RefOrder,
    at: int,
)
    requires
        0 <= at <= s.len(),
        at == 0 || s[at - 1].rank(order) <= entry.rank(order),
        forall|i: int| at <= i < s.len() ==> (#[trigger] s[i]).rank(order) > entry.rank(order),
    ensures
        put_in_order(s, entry, order) == s.insert(at, entry),
    decreases s.len(),
{
    if at == s.len() {
        assert(s.insert(at, entry) =~= s.push(entry));
    } else {
        let rest = s.drop_last();
        lemma_put_in_order_split(rest, entry, order, at);
        assert(s.insert(at, entry) =~= rest.insert(at, entry).push(s.last()));
    }
}

fn insert_in_order(list: &mut Vec<DpbEntry>, entry: DpbEntry, order: RefOrder)
    ensures
        final(list)@ == put_in_order(old(list)@, entry, order),
{
    let rank: i64 = entry.rank_of(order);
    let mut at: usize = list.len();
    while at > 0 && list[at - 1].rank_of(order) > rank
        invariant
            at <= list@.len(),
            list@ == old(list)@,
            rank == entry.rank(order),
            forall|i: int| at <= i < list@.len() ==> (#[trigger] list@[i]).rank(order) > rank,
        decreases at,
    {
        at -= 1;
    }
    proof {
        lemma_put_in_order_split(list@, entry, order, at as int);
    }
    list.insert(at, entry);
}

proof fn lemma_class_next(entries: Seq<DpbEntry>, i: int, pred: spec_fn(DpbEntry) -> bool)
    requires
        0 <= i < entries.len(),
    ensures
        entries.take(i + 1).filter(pred) == if pred(entries[i]) {
            entries.take(i).filter(pred).push(entries[i])
        } else {
            entries.take(i).filter(pred)
        },
{
    assert(entries.take(i + 1).drop_last() =~= entries.take(i));
    reveal(Seq::filter);
}

proof fn lemma_class_none(entries: Seq<DpbEntry>, pred: spec_fn(DpbEntry) -> bool)
    ensures
        entries.take(0).filter(pred) == Seq::<DpbEntry>::empty(),
{
    reveal(Seq::filter);
    assert(entries.take(0) =~= Seq::empty());
}

fn collect_in_order(entries: &Vec<DpbEntry>, class: RefClass, order: RefOrder) -> (list: Vec<
    DpbEntry,
>)
    ensures
        list@ == class_in_order(entries@, class, order),
{
    let mut list: Vec<DpbEntry> = Vec::new();
    let ghost pred = in_class(class);
    proof {
        lemma_class_none(entries@, pred);
    }
    let mut i: usize = 0;
    while i < entries.len()
        invariant
            i <= entries@.len(),
            pred == in_class(class),
            list@ == in_order(entries@.take(i as int).filter(pred), order),
        decreases entries@.len() - i,
    {
        let entry = entries[i];
        proof {
            lemma_class_next(entries@, i as int, pred);
        }
        if entry.belongs_to(class) {
            insert_in_order(&mut list, entry, order);
            proof {
                let before = entries@.take(i as int).filter(pred);
                assert(before.push(entry).drop_last() =~= before);
            }
        }
        i += 1;
    }
    assert(entries@.take(i as int) =~= entries@);
    list
}

impl Dpb {
    /// An empty buffer for `max_size` pictures.
    pub fn new(max_size: usize) -> (dpb: Self)
        ensures
            dpb.entries@ == Seq::<DpbEntry>::empty(),
            dpb.max_size == max_size,
            dpb.poc_counter == 0,
            dpb.prev_poc_lsb == 0,
            dpb.prev_poc_msb == 0,
    {
        Dpb {
            entries: Vec::new(),
            max_size,
            poc_counter: 0,
            prev_poc_lsb: 0,
            prev_poc_msb: 0,
        }
    }

    /// Empties the buffer and starts picture order counting anew; gives the
    /// surfaces of the pictures that left.
    pub fn clear(&mut self) -> (surfaces: Vec<usize>)
        ensures
            surfaces@ == old(self).entries@.map_values(|entry: DpbEntry| entry.surface_idx),
            final(self).entries@ == Seq::<DpbEntry>::empty(),
            final(self).max_size == old(self).max_size,
            final(self).poc_counter == 0,
            final(self).prev_poc_lsb == 0,
            final(self).prev_poc_msb == 0,
    {
        let mut surfaces: Vec<usize> = Vec::new();
        let mut i: usize = 0;
        while i < self.entries.len()
            invariant
                i <= self.entries@.len(),
                *self == *old(self),
                surfaces@ == self.entries@.take(i as int).map_values(
                    |entry: DpbEntry| entry.surface_idx,
                ),
            decreases self.entries@.len() - i,
        {
            surfaces.push(self.entries[i].surface_idx);
            i += 1;
            assert(surfaces@ =~= self.entries@.take(i as int).map_values(
                |entry: DpbEntry| entry.surface_idx,
            ));
        }
        assert(self.entries@.take(i as int) =~= self.entries@);
        self.entries.clear();
        self.poc_counter = 0;
        self.prev_poc_lsb = 0;
        self.prev_poc_msb = 0;
        surfaces
    }

    /// Adds a short-term reference.
    pub fn add_reference(
        &mut self,
        surface_idx: usize,
        frame_num: u32,
        top_poc: i32,
        bottom_poc: i32,
    )
        ensures
            final(self).entries@ == old(self).entries@.push(
                (DpbEntry {
                    surface_idx,
                    frame_num,
                    top_poc,
                    bottom_poc,
                    is_long_term: false,
                    is_reference: true,
                }),
            ),
            final(self).max_size == old(self).max_size,
            final(self).poc_counter == old(self).poc_counter,
            final(self).prev_poc_lsb == old(self).prev_poc_lsb,
            final(self).prev_poc_msb == old(self).prev_poc_msb,
    {
        self.entries.push(
            DpbEntry {
                surface_idx,
                frame_num,
                top_poc,
                bottom_poc,
                is_long_term: false,
                is_reference: true,
            },
        );
    }

    /// Makes room in a full buffer: one picture leaves, and its surface is
    /// free again.
    pub fn sliding_window_evict(&mut self, surface_in_use: &mut [bool])
        ensures
            final(self).max_size == old(self).max_size,
            final(self).poc_counter == old(self).poc_counter,
            final(self).prev_poc_lsb == old(self).prev_poc_lsb,
            final(self).prev_poc_msb == old(self).prev_poc_msb,
            old(self).entries@.len() < old(self).max_size || old(self).entries@.len() == 0 ==> {
                &&& final(self).entries@ == old(self).entries@
                &&& final(surface_in_use)@ == old(surface_in_use)@
            },
            old(self).entries@.len() >= old(self).max_size && old(self).entries@.len() > 0 ==> {
                let at = eviction_index(old(self).entries@);
                &&& 0 <= at < old(self).entries@.len()
                &&& final(self).entries@ == old(self).entries@.remove(at)
                &&& final(surface_in_use)@ == released(
                    old(surface_in_use)@,
                    old(self).entries@[at].surface_idx,
                )
                &&& forall|k: int| #![trigger old(surface_in_use)@[k]]
                    0 <= k < old(surface_in_use)@.len() ==> final(surface_in_use)@[k] == (old(
                        surface_in_use,
                    )@[k] && k != old(self).entries@[at].surface_idx)
                &&& old(self).entries@[at].is_reference && !old(self).entries@[at].is_long_term ==> (
                forall|j: int|
                    0 <= j < at ==> !(#[trigger] old(self).entries@[j]).is_reference || old(
                        self,
                    ).entries@[j].is_long_term)
                &&& !old(self).entries@[at].is_reference || old(self).entries@[at].is_long_term ==> at
                    == 0 && (forall|j: int|
                    0 <= j < old(self).entries@.len() ==> !(#[trigger] old(
                        self,
                    ).entries@[j]).is_reference || old(self).entries@[j].is_long_term)
            },
    {
        if self.entries.len() < self.max_size || self.entries.len() == 0 {
            return;
        }
        let mut at: usize = 0;
        while at < self.entries.len() && !self.entries[at].belongs_to(RefClass::ShortTerm)
            invariant
                at <= self.entries@.len(),
                *self == *old(self),
                forall|j: int|
                    0 <= j < at ==> !(#[trigger] self.entries@[j].belongs(RefClass::ShortTerm)),
            decreases self.entries@.len() - at,
        {
            at += 1;
        }
        if at == self.entries.len() {
            at = 0;
        } else {
            proof {
                let entries = self.entries@;
                let first = first_short_term(entries);
                assert(entries[at as int].belongs(RefClass::ShortTerm));
                assert(entries[first].belongs(RefClass::ShortTerm));
            }
        }
        proof {
            let entries = self.entries@;
            assert(at == eviction_index(entries));
            assert forall|j: int| 0 <= j < at implies !(#[trigger] entries[j]).is_reference
                || entries[j].is_long_term by {
                assert(!entries[j].belongs(RefClass::ShortTerm));
            }
            if !entries[at as int].belongs(RefClass::ShortTerm) {
                assert forall|j: int| 0 <= j < entries.len() implies !(
                #[trigger] entries[j]).is_reference || entries[j].is_long_term by {
                    assert(!entries[j].belongs(RefClass::ShortTerm));
                }
            }
        }
        let removed = self.entries.remove(at);
        if removed.surface_idx < surface_in_use.len() {
            surface_in_use[removed.surface_idx] = false;
        }
    }

    /// The picture of an entry as the driver knows it.
    pub fn to_va_picture(entry: &DpbEntry, surfaces: &[u32]) -> (picture: VAPictureH264)
        requires
            entry.surface_idx < surfaces@.len(),
        ensures
            picture == entry.picture(surfaces@),
            picture.picture_id == surfaces@[entry.surface_idx as int],
            picture.frame_idx == entry.frame_num,
            picture.top_field_order_cnt == entry.top_poc,
            picture.bottom_field_order_cnt == entry.bottom_poc,
            picture.flags == (if entry.is_long_term {
                0x10int
            } else {
                0x08
            }) + (if entry.top_poc != entry.bottom_poc {
                0x06int
            } else {
                0
            }),
    {
        let mut flags: u32 = if entry.is_long_term {
            VA_PICTURE_H264_LONG_TERM_REFERENCE
        } else {
            VA_PICTURE_H264_SHORT_TERM_REFERENCE
        };
        if entry.top_poc != entry.bottom_poc {
            proof {
                assert(0x10u32 | (0x02u32 | 0x04u32) == 0x16u32) by (bit_vector);
                assert(0x08u32 | (0x02u32 | 0x04u32) == 0x0eu32) by (bit_vector);
            }
            flags = flags | (VA_PICTURE_H264_TOP_FIELD | VA_PICTURE_H264_BOTTOM_FIELD);
        }
        VAPictureH264 {
            picture_id: surfaces[entry.surface_idx],
            frame_idx: entry.frame_num,
            flags,
            top_field_order_cnt: entry.top_poc,
            bottom_field_order_cnt: entry.bottom_poc,
        }
    }

    /// The reference pictures of the buffer, oldest first.
    pub fn build_va_reference_frames(&self, surfaces: &[u32]) -> (list: [VAPictureH264; 16])
        requires
            on_surfaces(self.entries@.filter(is_reference()), surfaces@.len(), 16),
        ensures
            list@ == picture_list(self.entries@.filter(is_reference()), surfaces@, 16),
    {
        let mut list: [VAPictureH264; 16] = [VAPictureH264::default(); 16];
        let ghost pred = is_reference();
        let ghost refs = self.entries@.filter(pred);
        let mut i: usize = 0;
        let mut n: usize = 0;
        proof {
            lemma_class_none(self.entries@, pred);
        }
        while i < self.entries.len() && n < 16
            invariant
                i <= self.entries@.len(),
                n <= 16,
                pred == is_reference(),
                refs == self.entries@.filter(pred),
                on_surfaces(refs, surfaces@.len(), 16),
                n == self.entries@.take(i as int).filter(pred).len(),
                list@ == picture_list(self.entries@.take(i as int).filter(pred), surfaces@, 16),
            decreases self.entries@.len() - i,
        {
            let entry = self.entries[i];
            proof {
                lemma_class_next(self.entries@, i as int, pred);
                lemma_filter_prefix(self.entries@, i + 1, pred);
            }
            if entry.is_reference {
                proof {
                    assert(self.entries@.take(i + 1).filter(pred)[n as int] == entry);
                    assert(refs.take(n + 1)[n as int] == refs[n as int]);
                }
                list[n] = Self::to_va_picture(&entry, surfaces);
                assert(list@ =~= picture_list(
                    self.entries@.take(i + 1).filter(pred),
                    surfaces@,
                    16,
                ));
                n += 1;
            }
            i += 1;
        }
        proof {
            lemma_filter_prefix(self.entries@, i as int, pred);
            assert(self.entries@.take(self.entries@.len() as int) =~= self.entries@);
        }
        assert(list@ =~= picture_list(refs, surfaces@, 16));
        list
    }

    /// The first reference list of a slice.
    pub fn build_ref_pic_list0(
        &self,
        surfaces: &[u32],
        slice_type: u32,
        current_poc: i32,
    ) -> (list: [VAPictureH264; 32])
        requires
            on_surfaces(
                list0_entries(self.entries@, slice_type, current_poc),
                surfaces@.len(),
                32,
            ),
        ensures
            list@ == picture_list(
                list0_entries(self.entries@, slice_type, current_poc),
                surfaces@,
                32,
            ),
            forall|i: int, j: int|
                0 <= i < j < 32 ==> may_precede(
                    #[trigger] list@[i],
                    #[trigger] list@[j],
                    slice_type % 5 == 1,
                    current_poc,
                ),
    {
        let mut list: [VAPictureH264; 32] = [VAPictureH264::default(); 32];
        let mut refs: Vec<DpbEntry>;
        if slice_type % 5 == 1 {
            refs = collect_in_order(
                &self.entries,
                RefClass::Past(current_poc),
                RefOrder::TopPocDescending,
            );
            let mut future = collect_in_order(
                &self.entries,
                RefClass::Future(current_poc),
                RefOrder::TopPocAscending,
            );
            refs.append(&mut future);
        } else {
            refs = collect_in_order(
                &self.entries,
                RefClass::ShortTerm,
                RefOrder::FrameNumDescending,
            );
        }
        let mut long_term = collect_in_order(
            &self.entries,
            RefClass::LongTerm,
            RefOrder::FrameNumAscending,
        );
        refs.append(&mut long_term);
        assert(refs@ =~= list0_entries(self.entries@, slice_type, current_poc));
        let mut i: usize = 0;
        while i < refs.len() && i < 32
            invariant
                i <= 32,
                i <= refs@.len(),
                on_surfaces(refs@, surfaces@.len(), 32),
                forall|j: int| 0 <= j < i ==> #[trigger] list@[j] == refs@[j].picture(surfaces@),
                forall|j: int| i <= j < 32 ==> #[trigger] list@[j] == no_picture(),
            decreases 32 - i,
        {
            list[i] = Self::to_va_picture(&refs[i], surfaces);
            i += 1;
        }
        assert(list@ =~= picture_list(refs@, surfaces@, 32));
        proof {
            lemma_list0_pictures_in_order(self.entries@, surfaces@, slice_type, current_poc);
        }
        list
    }

    /// The second reference list of a slice: for a bi-predicted slice the
    /// first list from its end to its start, and no pictures otherwise.
    pub fn build_ref_pic_list1(
        &self,
        surfaces: &[u32],
        slice_type: u32,
        current_poc: i32,
    ) -> (list: [VAPictureH264; 32])
        requires
            is_b_slice(slice_type) ==> on_surfaces(
                list0_entries(self.entries@, slice_type, current_poc),
                surfaces@.len(),
                32,
            ),
        ensures
            list@ == list1_pictures(self.entries@, surfaces@, slice_type, current_poc),
            slice_type % 5 == 1 ==> forall|i: int, j: int|
                0 <= i < j < 32 ==> may_precede(
                    #[trigger] list@[j],
                    #[trigger] list@[i],
                    true,
                    current_poc,
                ),
            slice_type % 5 != 1 ==> forall|i: int| 0 <= i < 32 ==> (#[trigger] list@[i]).flags == 0x01,
    {
        let mut list: [VAPictureH264; 32] = [VAPictureH264::default(); 32];
        if slice_type % 5 != 1 {
            assert(list@ =~= list1_pictures(self.entries@, surfaces@, slice_type, current_poc));
            return list;
        }
        let forward = self.build_ref_pic_list0(surfaces, slice_type, current_poc);
        let mut i: usize = 0;
        while i < 32
            invariant
                i <= 32,
                forall|j: int| 0 <= j < i ==> #[trigger] list@[j] == forward@[31 - j],
            decreases 32 - i,
        {
            list[i] = forward[31 - i];
            i += 1;
        }
        assert(list@ =~= forward@.reverse());
        list
    }
}

/// The second reference list of a slice.
pub open spec fn list1_pictures(
    entries: Seq<DpbEntry>,
    surfaces: Seq<u32>,
    slice_type: u32,
    current_poc: i32,
) -> Seq<VAPictureH264> {
    if is_b_slice(slice_type) {
        picture_list(list0_entries(entries, slice_type, current_poc), surfaces, 32).reverse()
    } else {
        picture_list(Seq::empty(), surfaces, 32)
    }
}

/// The members among the first entries are the first members.
proof fn lemma_filter_prefix(entries: Seq<DpbEntry>, n: int, pred: spec_fn(DpbEntry) -> bool)
    requires
        0 <= n <= entries.len(),
    ensures
        entries.take(n).filter(pred).len() <= entries.filter(pred).len(),
        entries.take(n).filter(pred) == entries.filter(pred).take(
            entries.take(n).filter(pred).len() as int,
        ),
{
    let a = entries.take(n);
    let b = entries.skip(n);
    assert(a + b =~= entries);
    Seq::filter_distributes_over_add(a, b, pred);
    assert(entries.filter(pred).take(a.filter(pred).len() as int) =~= a.filter(pred));
}

} // verus!
