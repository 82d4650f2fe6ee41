//! The play queue of a group that watches together.
use vstd::prelude::*;

use crate::guid::{new_guid, Guid};

verus! {

/// One entry of a play queue: an item, and the id of this occurrence of it.
#[derive(Clone, Copy, Debug, PartialEq, Eq, Structural)]
pub struct SyncPlayQueueItem {
    pub item_id: Guid,
    pub playlist_item_id: Guid,
}

/// Where new entries go.
#[derive(Clone, Copy, Debug, PartialEq, Eq, Structural)]
pub enum GroupQueueMode {
    /// At the end.
    Queue,
    /// Right behind the playing entry.
    QueueNext,
}

/// Whether the queue is shuffled.
#[derive(Clone, Copy, Debug, PartialEq, Eq, Structural)]
pub enum GroupShuffleMode {
    Sorted,
    Shuffle,
}

/// Whether the queue repeats.
#[derive(Clone, Copy, Debug, PartialEq, Eq, Structural)]
pub enum GroupRepeatMode {
    RepeatOne,
    RepeatAll,
    RepeatNone,
}

/// The queue.
#[derive(Debug)]
pub struct PlayQueue {
    pub items: Vec<SyncPlayQueueItem>,
    pub playing_index: i32,
    pub shuffle: GroupShuffleMode,
    pub repeat: GroupRepeatMode,
}

/// What a queue stands for.
pub struct QueueView {
    pub items: Seq<SyncPlayQueueItem>,
    pub playing_index: int,
    pub shuffle: GroupShuffleMode,
    pub repeat: GroupRepeatMode,
}

impl View for PlayQueue {
    type V = QueueView;

    open spec fn view(&self) -> QueueView {
        QueueView {
            items: self.items@,
            playing_index: self.playing_index as int,
            shuffle: self.shuffle,
            repeat: self.repeat,
        }
    }
}

/// The smaller of two numbers.
pub open spec fn least(a: int, b: int) -> int {
    if a < b {
        a
    } else {
        b
    }
}

/// An index, where `i32` can hold it; otherwise the first.
pub open spec fn small_index(i: int) -> int {
    if i <= i32::MAX {
        i
    } else {
        0
    }
}

/// The last index of a queue of `len` entries; the first of an empty one.
pub open spec fn last_index_of(len: int) -> int {
    small_index(
        if len > 0 {
            len - 1
        } else {
            0
        },
    )
}

/// `p` moved into the range from zero to `hi`.
pub open spec fn clamped(p: int, hi: int) -> int {
    if p < 0 {
        0
    } else {
        least(p, hi)
    }
}

/// The first entry with the given id; `-1` where there is none.
pub open spec fn index_of_entry(items: Seq<SyncPlayQueueItem>, id: Guid) -> int
    decreases items.len(),
{
    if items.len() == 0 {
        -1
    } else if items[0].playlist_item_id == id {
        0
    } else {
        let rest = index_of_entry(items.drop_first(), id);
        if rest < 0 {
            -1
        } else {
            rest + 1
        }
    }
}

/// The entries whose id is not among `ids`.
pub open spec fn without(items: Seq<SyncPlayQueueItem>, ids: Seq<Guid>) -> Seq<SyncPlayQueueItem>
    decreases items.len(),
{
    if items.len() == 0 {
        Seq::empty()
    } else if ids.contains(items.last().playlist_item_id) {
        without(items.drop_last(), ids)
    } else {
        without(items.drop_last(), ids).push(items.last())
    }
}

impl QueueView {
    /// An empty queue.
    pub open spec fn empty() -> QueueView {
        QueueView {
            items: Seq::empty(),
            playing_index: 0,
            shuffle: GroupShuffleMode::Sorted,
            repeat: GroupRepeatMode::RepeatNone,
        }
    }

    /// The playing index points at an entry, or is zero.
    pub open spec fn wf(self) -> bool {
        0 <= self.playing_index && (self.playing_index == 0 || self.playing_index
            < self.items.len())
    }

    /// The id of the playing entry; nil where there is none.
    pub open spec fn playing_id(self) -> Guid {
        if 0 <= self.playing_index < self.items.len() {
            self.items[self.playing_index].playlist_item_id
        } else {
            Guid { value: 0 }
        }
    }

    /// The queue with `fresh` in place of its entries, playing at `position`.
    pub open spec fn replaced(self, fresh: Seq<SyncPlayQueueItem>, position: int) -> QueueView {
        QueueView {
            items: fresh,
            playing_index: clamped(position, last_index_of(fresh.len() as int)),
            ..self
        }
    }

    /// Whether there is an entry with the given id.
    pub open spec fn has_entry(self, id: Guid) -> bool {
        index_of_entry(self.items, id) >= 0
    }

    /// The queue playing at the entry with the given id, if it has one.
    pub open spec fn playing_at(self, id: Guid) -> QueueView {
        if self.has_entry(id) {
            QueueView { playing_index: small_index(index_of_entry(self.items, id)), ..self }
        } else {
            self
        }
    }

    /// Whether an entry follows the playing one.
    pub open spec fn has_next(self) -> bool {
        self.playing_index < last_index_of(self.items.len() as int)
    }

    /// The queue playing at the following entry, if there is one.
    pub open spec fn advanced(self) -> QueueView {
        if self.has_next() {
            QueueView { playing_index: self.playing_index + 1, ..self }
        } else {
            self
        }
    }

    /// The queue playing at the entry before, if there is one.
    pub open spec fn stepped_back(self) -> QueueView {
        if self.playing_index > 0 {
            QueueView { playing_index: self.playing_index - 1, ..self }
        } else {
            self
        }
    }

    /// The queue with `fresh` added at the end or behind the playing entry.
    pub open spec fn extended(
        self,
        fresh: Seq<SyncPlayQueueItem>,
        mode: GroupQueueMode,
    ) -> QueueView {
        let at = match mode {
            GroupQueueMode::Queue => self.items.len() as int,
            GroupQueueMode::QueueNext => least(self.playing_index + 1, self.items.len() as int),
        };
        QueueView { items: self.items.take(at) + fresh + self.items.skip(at), ..self }
    }

    /// The queue with other entries, playing at the entry `id` where it is among
    /// them, else at the first.
    pub open spec fn anchored(self, items: Seq<SyncPlayQueueItem>, id: Guid) -> QueueView {
        let found = index_of_entry(items, id);
        QueueView {
            items,
            playing_index: least(
                if found >= 0 {
                    small_index(found)
                } else {
                    0
                },
                last_index_of(items.len() as int),
            ),
            ..self
        }
    }

    /// The queue without the entries `ids`.
    pub open spec fn reduced(self, ids: Seq<Guid>) -> QueueView {
        self.anchored(without(self.items, ids), self.playing_id())
    }

    /// The queue with the entry `id` moved to another place.
    pub open spec fn rearranged(self, id: Guid, new_index: int) -> QueueView {
        let from = index_of_entry(self.items, id);
        if from < 0 {
            self
        } else {
            let to = clamped(new_index, self.items.len() - 1);
            self.anchored(
                self.items.remove(from).insert(to, self.items[from]),
                self.playing_id(),
            )
        }
    }
}

/// Leaving entries out leaves none without an id.
pub proof fn lemma_without_identified(items: Seq<SyncPlayQueueItem>, ids: Seq<Guid>)
    requires
        all_identified(items),
    ensures
        all_identified(without(items, ids)),
    decreases items.len(),
{
    if items.len() > 0 {
        assert(all_identified(items.drop_last()));
        assert(items[items.len() - 1].playlist_item_id.value != 0);
        lemma_without_identified(items.drop_last(), ids);
    }
}

/// Where the first entry with an id stands.
pub proof fn lemma_index_of_entry(items: Seq<SyncPlayQueueItem>, id: Guid)
    ensures
        -1 <= index_of_entry(items, id) < items.len(),
        index_of_entry(items, id) >= 0 ==> items[index_of_entry(items, id)].playlist_item_id == id,
        index_of_entry(items, id) < 0 ==> forall|i: int|
            0 <= i < items.len() ==> (#[trigger] items[i]).playlist_item_id != id,
    decreases items.len(),
{
    if items.len() > 0 && items[0].playlist_item_id != id {
        let t = items.drop_first();
        lemma_index_of_entry(t, id);
        if index_of_entry(t, id) < 0 {
            assert forall|i: int| 0 <= i < items.len() implies (
            #[trigger] items[i]).playlist_item_id != id by {
                if i > 0 {
                    assert(items[i] == t[i - 1]);
                }
            }
        }
    }
}

/// Removing entries keeps the playing entry where it is not one of them, and
/// moving an entry always keeps it.
pub proof fn law_playing_entry_is_kept(q: QueueView, ids: Seq<Guid>, id: Guid, new_index: int)
    requires
        q.wf(),
        0 < q.items.len() <= i32::MAX,
    ensures
        !ids.contains(q.playing_id()) ==> q.reduced(ids).playing_id() == q.playing_id(),
        q.rearranged(id, new_index).playing_id() == q.playing_id(),
{
    let current = q.playing_id();
    let kept = without(q.items, ids);
    lemma_without(q.items, ids);
    if !ids.contains(current) {
        lemma_index_of_entry(kept, current);
        assert(kept.contains(q.items[q.playing_index]));
        let k = choose|k: int| 0 <= k < kept.len() && kept[k] == q.items[q.playing_index];
        assert(kept[k].playlist_item_id == current);
    }
    lemma_index_of_entry(q.items, id);
    let from = index_of_entry(q.items, id);
    if from >= 0 {
        let to = clamped(new_index, q.items.len() - 1);
        let base = q.items.remove(from);
        let moved = base.insert(to, q.items[from]);
        lemma_index_of_entry(moved, current);
        let p = q.playing_index;
        let m = if p == from {
            to
        } else {
            let b = if p < from { p } else { p - 1 };
            assert(base[b] == q.items[p]);
            if b < to { b } else { b + 1 }
        };
        assert(moved[m] == q.items[p]);
    }
}

/// Stepping back undoes stepping on, and the other way round.
pub proof fn law_steps_undo_each_other(q: QueueView)
    requires
        q.wf(),
    ensures
        q.has_next() ==> q.advanced().stepped_back() == q,
        q.playing_index > 0 && q.items.len() <= i32::MAX ==> q.stepped_back().advanced() == q,
{
}

/// Removing entries takes all that have the given ids, and no others.
pub proof fn law_removed_entries_are_gone(q: QueueView, ids: Seq<Guid>)
    ensures
        forall|i: int|
            0 <= i < q.reduced(ids).items.len() ==> !ids.contains(
                (#[trigger] q.reduced(ids).items[i]).playlist_item_id,
            ),
        forall|i: int|
            0 <= i < q.items.len() && !ids.contains((#[trigger] q.items[i]).playlist_item_id)
                ==> q.reduced(ids).items.contains(q.items[i]),
{
    lemma_without(q.items, ids);
    lemma_without_none(q.items, ids);
}

proof fn lemma_without_none(items: Seq<SyncPlayQueueItem>, ids: Seq<Guid>)
    ensures
        forall|i: int|
            0 <= i < without(items, ids).len() ==> !ids.contains(
                (#[trigger] without(items, ids)[i]).playlist_item_id,
            ),
    decreases items.len(),
{
    if items.len() > 0 {
        let head = without(items.drop_last(), ids);
        lemma_without_none(items.drop_last(), ids);
        let w = without(items, ids);
        assert forall|i: int| 0 <= i < w.len() implies !ids.contains(
            (#[trigger] w[i]).playlist_item_id,
        ) by {
            if i < head.len() {
                assert(w[i] == head[i]);
            }
        }
    }
}

/// Moving an entry brings none and loses none.
pub proof fn law_moving_keeps_the_entries(q: QueueView, id: Guid, new_index: int)
    ensures
        q.rearranged(id, new_index).items.to_multiset() == q.items.to_multiset(),
{
    broadcast use vstd::seq_lib::group_to_multiset_ensures;

    lemma_index_of_entry(q.items, id);
    let from = index_of_entry(q.items, id);
    if from >= 0 {
        let entry = q.items[from];
        let left = q.items.remove(from);
        let to = clamped(new_index, q.items.len() - 1);
        assert(left.to_multiset() =~= q.items.to_multiset().remove(entry));
        assert(left.insert(to, entry).to_multiset() =~= left.to_multiset().insert(entry));
        assert(q.items.to_multiset().contains(entry));
        assert(q.items.to_multiset().remove(entry).insert(entry) =~= q.items.to_multiset());
    }
}

proof fn lemma_without(items: Seq<SyncPlayQueueItem>, ids: Seq<Guid>)
    ensures
        without(items, ids).len() <= items.len(),
        forall|i: int|
            0 <= i < items.len() && !ids.contains((#[trigger] items[i]).playlist_item_id)
                ==> without(items, ids).contains(items[i]),
    decreases items.len(),
{
    if items.len() > 0 {
        let t = items.drop_last();
        lemma_without(t, ids);
        assert forall|i: int|
            0 <= i < items.len() && !ids.contains((
            #[trigger] items[i]).playlist_item_id) implies without(items, ids).contains(
            items[i],
        ) by {
            if i < t.len() {
                assert(t[i] == items[i]);
                let k = choose|k: int|
                    0 <= k < without(t, ids).len() && without(t, ids)[k] == items[i];
                assert(without(items, ids)[k] == items[i]);
            } else {
                let w = without(items, ids);
                assert(w[w.len() - 1] == items[i]);
            }
        }
    }
}

/// Whether `fresh` holds the given items, in order.
pub open spec fn entries_for(fresh: Seq<SyncPlayQueueItem>, item_ids: Seq<Guid>) -> bool {
    &&& fresh.len() == item_ids.len()
    &&& forall|i: int| 0 <= i < fresh.len() ==> (#[trigger] fresh[i]).item_id == item_ids[i]
}

/// Whether no entry has the "none" identifier for its id.
pub open spec fn all_identified(entries: Seq<SyncPlayQueueItem>) -> bool {
    forall|i: int| 0 <= i < entries.len() ==> (#[trigger] entries[i]).playlist_item_id.value != 0
}

/// Entries for the given items, each with a new random id.
pub fn fresh_entries(item_ids: &[Guid]) -> (r: Vec<SyncPlayQueueItem>)
    ensures
        entries_for(r@, item_ids@),
        all_identified(r@),
{
    let mut out: Vec<SyncPlayQueueItem> = Vec::new();
    let mut i: usize = 0;
    while i < item_ids.len()
        invariant
            i <= item_ids.len(),
            out@.len() == i,
            forall|j: int|
                0 <= j < i ==> (#[trigger] out@[j]).item_id == item_ids@[j]
                    && out@[j].playlist_item_id.value != 0,
        decreases item_ids.len() - i,
    {
        out.push(SyncPlayQueueItem { item_id: item_ids[i], playlist_item_id: new_guid() });
        i += 1;
    }
    out
}

impl PlayQueue {
    /// An empty queue.
    pub fn new() -> (r: Self)
        ensures
            r@ == QueueView::empty(),
    {
        let r: PlayQueue = PlayQueue {
            items: Vec::new(),
            playing_index: 0,
            shuffle: GroupShuffleMode::Sorted,
            repeat: GroupRepeatMode::RepeatNone,
        };
        assert(r@.items =~= Seq::<SyncPlayQueueItem>::empty());
        r
    }

    /// Replaces the entries, and plays at `position`.
    pub fn set(&mut self, fresh: Vec<SyncPlayQueueItem>, position: i32)
        ensures
            final(self)@ == old(self)@.replaced(fresh@, position as int),
            final(self)@.wf(),
    {
        self.items = fresh;
        let hi: i32 = self.max_index();
        self.playing_index = if position < 0 {
            0
        } else if position < hi {
            position
        } else {
            hi
        };
    }

    fn max_index(&self) -> (r: i32)
        ensures
            r == last_index_of(self.items@.len() as int),
    {
        let n: usize = if self.items.len() > 0 {
            self.items.len() - 1
        } else {
            0
        };
        if n <= 2147483647 {
            n as i32
        } else {
            0
        }
    }

    /// Whether there is an entry with the given id.
    pub fn contains_entry(&self, id: Guid) -> (r: bool)
        ensures
            r == self@.has_entry(id),
    {
        self.find(id).is_some()
    }

    /// Whether an entry follows the playing one.
    pub fn can_advance(&self) -> (r: bool)
        ensures
            r == self@.has_next(),
    {
        self.playing_index < self.max_index()
    }

    /// The id of the playing entry; nil where there is none.
    pub fn playing_item_id(&self) -> (r: Guid)
        ensures
            r == self@.playing_id(),
    {
        match self.current() {
            Some(item) => item.playlist_item_id,
            None => Guid::nil(),
        }
    }

    /// The playing entry.
    pub fn current(&self) -> (r: Option<SyncPlayQueueItem>)
        ensures
            r == if 0 <= self.playing_index < self.items@.len() {
                Some(self.items@[self.playing_index as int])
            } else {
                None
            },
    {
        if self.playing_index >= 0 && (self.playing_index as usize) < self.items.len() {
            Some(self.items[self.playing_index as usize])
        } else {
            None
        }
    }

    fn find(&self, id: Guid) -> (r: Option<usize>)
        ensures
            match r {
                Some(i) => i == index_of_entry(self.items@, id) && i < self.items@.len(),
                None => index_of_entry(self.items@, id) < 0,
            },
    {
        let mut i: usize = 0;
        assert(self.items@.skip(0) =~= self.items@);
        while i < self.items.len()
            invariant
                i <= self.items.len(),
                index_of_entry(self.items@, id) == ({
                    let rest = index_of_entry(self.items@.skip(i as int), id);
                    if rest < 0 {
                        -1
                    } else {
                        rest + i
                    }
                }),
            decreases self.items.len() - i,
        {
            assert(self.items@.skip(i as int).drop_first() =~= self.items@.skip(i + 1));
            if self.items[i].playlist_item_id == id {
                return Some(i);
            }
            i += 1;
        }
        None
    }

    /// Plays at the entry with the given id; whether there is one.
    pub fn set_playing(&mut self, playlist_item_id: Guid) -> (r: bool)
        requires
            old(self)@.wf(),
        ensures
            r == old(self)@.has_entry(playlist_item_id),
            final(self)@ == old(self)@.playing_at(playlist_item_id),
            final(self)@.wf(),
    {
        match self.find(playlist_item_id) {
            Some(i) => {
                self.playing_index = if i <= 2147483647 {
                    i as i32
                } else {
                    0
                };
                true
            },
            None => false,
        }
    }

    /// Plays at the following entry; whether there is one.
    pub fn next(&mut self) -> (r: bool)
        requires
            old(self)@.wf(),
        ensures
            r == old(self)@.has_next(),
            final(self)@ == old(self)@.advanced(),
            final(self)@.wf(),
    {
        if self.playing_index < self.max_index() {
            self.playing_index = self.playing_index + 1;
            true
        } else {
            false
        }
    }

    /// Plays at the entry before; whether there is one.
    pub fn previous(&mut self) -> (r: bool)
        requires
            old(self)@.wf(),
        ensures
            r == (old(self)@.playing_index > 0),
            final(self)@ == old(self)@.stepped_back(),
            final(self)@.wf(),
    {
        if self.playing_index > 0 {
            self.playing_index = self.playing_index - 1;
            true
        } else {
            false
        }
    }

    /// Adds entries at the end, or behind the playing entry.
    pub fn enqueue(&mut self, fresh: Vec<SyncPlayQueueItem>, mode: GroupQueueMode)
        requires
            old(self)@.wf(),
            mode == GroupQueueMode::QueueNext ==> old(self)@.playing_index < i32::MAX,
            old(self).items@.len() + fresh@.len() <= usize::MAX,
        ensures
            final(self)@ == old(self)@.extended(fresh@, mode),
            final(self)@.wf(),
    {
        let ghost before = self.items@;
        match mode {
            GroupQueueMode::Queue => {
                let mut more: Vec<SyncPlayQueueItem> = fresh;
                self.items.append(&mut more);
                assert(self.items@ =~= before.take(before.len() as int) + fresh@ + before.skip(
                    before.len() as int,
                ));
            },
            GroupQueueMode::QueueNext => {
                let after: usize = (self.playing_index + 1) as usize;
                let at: usize = if after < self.items.len() {
                    after
                } else {
                    self.items.len()
                };
                let mut k: usize = 0;
                assert(self.items@ =~= before.take(at as int) + fresh@.take(0) + before.skip(
                    at as int,
                ));
                while k < fresh.len()
                    invariant
                        k <= fresh.len(),
                        at <= before.len(),
                        before.len() + fresh@.len() <= usize::MAX,
                        self.items@ == before.take(at as int) + fresh@.take(k as int)
                            + before.skip(at as int),
                        self.playing_index == old(self).playing_index,
                        self.shuffle == old(self).shuffle,
                        self.repeat == old(self).repeat,
                    decreases fresh.len() - k,
                {
                    self.items.insert(at + k, fresh[k]);
                    k += 1;
                    assert(self.items@ =~= before.take(at as int) + fresh@.take(k as int)
                        + before.skip(at as int));
                }
                assert(fresh@.take(fresh@.len() as int) =~= fresh@);
            },
        }
    }

    /// Removes entries, keeping the playing entry where possible.
    pub fn remove(&mut self, ids: &[Guid])
        ensures
            final(self)@ == old(self)@.reduced(ids@),
            final(self)@.wf(),
    {
        let current: Guid = self.playing_item_id();
        let mut kept: Vec<SyncPlayQueueItem> = Vec::new();
        let mut i: usize = 0;
        while i < self.items.len()
            invariant
                i <= self.items.len(),
                kept@ == without(self.items@.take(i as int), ids@),
            decreases self.items.len() - i,
        {
            assert(self.items@.take(i + 1).drop_last() =~= self.items@.take(i as int));
            if !has_guid(ids, self.items[i].playlist_item_id) {
                kept.push(self.items[i]);
            }
            i += 1;
        }
        assert(self.items@.take(self.items@.len() as int) =~= self.items@);
        self.items = kept;
        self.reanchor(current);
    }

    /// Moves an entry to another place.
    pub fn move_item(&mut self, playlist_item_id: Guid, new_index: i32)
        requires
            old(self)@.wf(),
        ensures
            final(self)@ == old(self)@.rearranged(playlist_item_id, new_index as int),
            final(self)@.wf(),
    {
        if let Some(from) = self.find(playlist_item_id) {
            let current: Guid = self.playing_item_id();
            let last: usize = self.items.len() - 1;
            let to: usize = if new_index < 0 {
                0
            } else if (new_index as usize) < last {
                new_index as usize
            } else {
                last
            };
            let item: SyncPlayQueueItem = self.items.remove(from);
            self.items.insert(to, item);
            self.reanchor(current);
        }
    }

    /// Plays at the entry `current` where it is in the queue, else at the first.
    fn reanchor(&mut self, current: Guid)
        ensures
            final(self)@ == old(self)@.anchored(old(self).items@, current),
            final(self)@.wf(),
    {
        let found: i32 = match self.find(current) {
            Some(i) => if i <= 2147483647 {
                i as i32
            } else {
                0
            },
            None => 0,
        };
        let hi: i32 = self.max_index();
        self.playing_index = if found < hi {
            found
        } else {
            hi
        };
    }
}

/// Whether `id` is among `ids`.
pub fn has_guid(ids: &[Guid], id: Guid) -> (r: bool)
    ensures
        r == ids@.contains(id),
{
    let mut i: usize = 0;
    while i < ids.len()
        invariant
            i <= ids.len(),
            forall|j: int| 0 <= j < i ==> ids@[j] != id,
        decreases ids.len() - i,
    {
        if ids[i] == id {
            assert(ids@[i as int] == id);
            return true;
        }
        i += 1;
    }
    false
}

} // verus!
