//! Waker pages: three 64-slot bitmaps that record, for each task slot of a
//! page, whether it was woken, whether its task has completed, and whether
//! it is being polled.
//!
//! Every operation is one indivisible step on the page. A page has one
//! owner at a time, so whatever several parties do to it is some sequence
//! of these steps, and the contracts below describe each step exactly.

use crate::bits::{
    bit, lemma_slots_and_not, lemma_slots_clear, lemma_slots_empty, lemma_slots_set, slot_mask,
    slots,
};
use crate::key::Key;
use crate::task_collection::TaskCollection;
use vstd::prelude::*;

verus! {

/// Number of task slots on a page.
pub const WAKER_PAGE_SIZE: usize = 64;

/// A 64-bit cell with the operations of a sequentially consistent atomic
/// word. Its view is the word it holds.
#[derive(Debug)]
pub struct AtomicU64SC {
    value: u64,
}

impl View for AtomicU64SC {
    type V = u64;

    closed spec fn view(&self) -> u64 {
        self.value
    }
}

impl AtomicU64SC {
    /// A cell that holds `val`.
    pub fn new(val: u64) -> (cell: Self)
        ensures
            cell@ == val,
    {
        AtomicU64SC { value: val }
    }

    /// Sets the bits of `val` in the cell.
    pub fn fetch_or(&mut self, val: u64)
        ensures
            final(self)@ == old(self)@ | val,
    {
        self.value = self.value | val;
    }

    /// Keeps only the bits of `val` in the cell.
    pub fn fetch_and(&mut self, val: u64)
        ensures
            final(self)@ == old(self)@ & val,
    {
        self.value = self.value & val;
    }

    /// Adds `val` to the cell, wrapping around at the end of the range,
    /// and returns what the cell held before.
    pub fn fetch_add(&mut self, val: u64) -> (prev: u64)
        ensures
            prev == old(self)@,
            final(self)@ == (old(self)@ + val) % 0x1_0000_0000_0000_0000,
    {
        let prev = self.value;
        self.value = prev.wrapping_add(val);
        prev
    }

    /// Subtracts `val` from the cell, wrapping around at zero, and returns
    /// what the cell held before.
    pub fn fetch_sub(&mut self, val: u64) -> (prev: u64)
        ensures
            prev == old(self)@,
            final(self)@ == (old(self)@ - val) % 0x1_0000_0000_0000_0000,
    {
        let prev = self.value;
        self.value = prev.wrapping_sub(val);
        prev
    }

    /// The word in the cell.
    pub fn load(&self) -> (val: u64)
        ensures
            val == self@,
    {
        self.value
    }

    /// Puts `val` into the cell and returns what the cell held before.
    pub fn swap(&mut self, val: u64) -> (prev: u64)
        ensures
            prev == old(self)@,
            final(self)@ == val,
    {
        let prev = self.value;
        self.value = val;
        prev
    }
}

/// What a page records: the slots that were woken, the slots whose task has
/// completed, and the slots that are being polled.
#[verifier::ext_equal]
pub struct PageView {
    pub notified: Set<int>,
    pub dropped: Set<int>,
    pub borrowed: Set<int>,
}

impl PageView {
    /// The page on which no slot is marked.
    pub open spec fn empty() -> PageView {
        PageView { notified: Set::empty(), dropped: Set::empty(), borrowed: Set::empty() }
    }

    /// Every marked slot is one of the 64 slots of a page.
    pub open spec fn wf(self) -> bool {
        forall|i: int|
            (self.notified.contains(i) || self.dropped.contains(i) || self.borrowed.contains(i))
                ==> 0 <= i < 64
    }

    /// The page after a new task has moved into slot `i`.
    pub open spec fn initialize(self, i: int) -> PageView {
        PageView {
            notified: self.notified.insert(i),
            dropped: self.dropped.remove(i),
            borrowed: self.borrowed.remove(i),
        }
    }

    /// The page after slot `i` was woken.
    pub open spec fn notify(self, i: int) -> PageView {
        PageView { notified: self.notified.insert(i), ..self }
    }

    /// The page after the task in slot `i` has completed.
    pub open spec fn mark_dropped(self, i: int) -> PageView {
        PageView { dropped: self.dropped.insert(i), ..self }
    }

    /// The page after a poll of slot `i` has begun (`b`) or ended (`!b`).
    pub open spec fn mark_borrowed(self, i: int, b: bool) -> PageView {
        PageView {
            borrowed: if b {
                self.borrowed.insert(i)
            } else {
                self.borrowed.remove(i)
            },
            ..self
        }
    }

    /// The slots that a sweep may hand out: woken, not completed, not being
    /// polled.
    pub open spec fn ready(self) -> Set<int> {
        self.notified.difference(self.dropped).difference(self.borrowed)
    }

    /// The page after a sweep has taken the woken slots.
    pub open spec fn take_notified(self) -> PageView {
        PageView { notified: Set::empty(), ..self }
    }

    /// The page after a sweep has taken the completed slots.
    pub open spec fn take_dropped(self) -> PageView {
        PageView { dropped: Set::empty(), ..self }
    }

    /// The page after a sweep has taken the completed slots and freed
    /// each of them.
    pub open spec fn reaped(self) -> PageView {
        PageView {
            notified: self.notified.difference(self.dropped),
            dropped: Set::empty(),
            borrowed: self.borrowed.difference(self.dropped),
        }
    }

    /// The page after slot `i` was freed.
    pub open spec fn clear(self, i: int) -> PageView {
        PageView {
            notified: self.notified.remove(i),
            dropped: self.dropped.remove(i),
            borrowed: self.borrowed.remove(i),
        }
    }
}

/// The state of 64 task slots. Slot `i` of the page at index `p` of a
/// priority level belongs to the task at slab index `64 * p + i`.
#[derive(Debug)]
pub struct WakerPage {
    /// Slots that were woken and wait for a poll.
    notified: AtomicU64SC,
    /// Slots whose task has completed and waits to be freed.
    dropped: AtomicU64SC,
    /// Slots that are being polled.
    borrowed: AtomicU64SC,
}

impl View for WakerPage {
    type V = PageView;

    open spec fn view(&self) -> PageView {
        PageView {
            notified: slots(self.notified_bits()),
            dropped: slots(self.dropped_bits()),
            borrowed: slots(self.borrowed_bits()),
        }
    }
}

impl WakerPage {
    /// The bitmap of woken slots.
    pub closed spec fn notified_bits(&self) -> u64 {
        self.notified@
    }

    /// The bitmap of completed slots.
    pub closed spec fn dropped_bits(&self) -> u64 {
        self.dropped@
    }

    /// The bitmap of slots that are being polled.
    pub closed spec fn borrowed_bits(&self) -> u64 {
        self.borrowed@
    }

    /// The view of any page marks slots of the page only.
    pub proof fn lemma_view_wf(&self)
        ensures
            self@.wf(),
    {
    }

    /// A page on which no slot is marked.
    pub fn new_inner() -> (page: Self)
        ensures
            page@ == PageView::empty(),
            page.notified_bits() == 0,
            page.dropped_bits() == 0,
            page.borrowed_bits() == 0,
    {
        proof {
            lemma_slots_empty(0);
        }
        WakerPage {
            notified: AtomicU64SC::new(0),
            dropped: AtomicU64SC::new(0),
            borrowed: AtomicU64SC::new(0),
        }
    }

    /// A page on which no slot is marked.
    pub fn new() -> (page: Self)
        ensures
            page@ == PageView::empty(),
            page.notified_bits() == 0,
            page.dropped_bits() == 0,
            page.borrowed_bits() == 0,
    {
        WakerPage::new_inner()
    }

    /// Readies slot `idx` for a new task: the slot is woken, and neither
    /// completed nor being polled.
    pub fn initialize(&mut self, idx: usize)
        requires
            idx < 64,
        ensures
            final(self)@ == old(self)@.initialize(idx as int),
            final(self).notified_bits() == old(self).notified_bits() | bit(idx as u64),
            final(self).dropped_bits() == old(self).dropped_bits() & !bit(idx as u64),
            final(self).borrowed_bits() == old(self).borrowed_bits() & !bit(idx as u64),
    {
        let mask = slot_mask(idx);
        proof {
            lemma_slots_set(self.notified@, idx as u64);
            lemma_slots_clear(self.dropped@, idx as u64);
            lemma_slots_clear(self.borrowed@, idx as u64);
        }
        self.notified.fetch_or(mask);
        self.dropped.fetch_and(!mask);
        self.borrowed.fetch_and(!mask);
    }

    /// Records that the task in slot `idx` has completed.
    pub fn mark_dropped(&mut self, idx: usize)
        requires
            idx < 64,
        ensures
            final(self)@ == old(self)@.mark_dropped(idx as int),
            final(self).dropped_bits() == old(self).dropped_bits() | bit(idx as u64),
            final(self).notified_bits() == old(self).notified_bits(),
            final(self).borrowed_bits() == old(self).borrowed_bits(),
    {
        let mask = slot_mask(idx);
        proof {
            lemma_slots_set(self.dropped@, idx as u64);
        }
        self.dropped.fetch_or(mask);
    }

    /// Wakes slot `offset`. Waking a slot that is woken already changes
    /// nothing.
    pub fn notify(&mut self, offset: usize)
        requires
            offset < 64,
        ensures
            final(self)@ == old(self)@.notify(offset as int),
            final(self).notified_bits() == old(self).notified_bits() | bit(offset as u64),
            final(self).dropped_bits() == old(self).dropped_bits(),
            final(self).borrowed_bits() == old(self).borrowed_bits(),
    {
        let mask = slot_mask(offset);
        proof {
            lemma_slots_set(self.notified@, offset as u64);
        }
        self.notified.fetch_or(mask);
    }

    /// Records that a poll of slot `offset` has begun (`borrowed`) or ended
    /// (`!borrowed`).
    pub fn mark_borrowed(&mut self, offset: usize, borrowed: bool)
        requires
            offset < 64,
        ensures
            final(self)@ == old(self)@.mark_borrowed(offset as int, borrowed),
            final(self).borrowed_bits() == if borrowed {
                old(self).borrowed_bits() | bit(offset as u64)
            } else {
                old(self).borrowed_bits() & !bit(offset as u64)
            },
            final(self).notified_bits() == old(self).notified_bits(),
            final(self).dropped_bits() == old(self).dropped_bits(),
    {
        let mask = slot_mask(offset);
        proof {
            lemma_slots_set(self.borrowed@, offset as u64);
            lemma_slots_clear(self.borrowed@, offset as u64);
        }
        if borrowed {
            self.borrowed.fetch_or(mask);
        } else {
            self.borrowed.fetch_and(!mask);
        }
    }

    /// Takes the woken slots off the page and returns those of them that
    /// may be polled: the ones that are neither completed nor being polled.
    /// The others are forgotten with the rest.
    pub fn take_notified(&mut self) -> (ready: u64)
        ensures
            ready == old(self).notified_bits() & !old(self).dropped_bits() & !old(
                self,
            ).borrowed_bits(),
            slots(ready) == old(self)@.ready(),
            final(self)@ == old(self)@.take_notified(),
            final(self).notified_bits() == 0,
            final(self).dropped_bits() == old(self).dropped_bits(),
            final(self).borrowed_bits() == old(self).borrowed_bits(),
    {
        let mut notified = self.notified.swap(0);
        proof {
            lemma_slots_empty(0);
            lemma_slots_and_not(notified, self.dropped@);
            lemma_slots_and_not(notified & !self.dropped@, self.borrowed@);
        }
        notified = notified & !self.dropped.load();
        notified = notified & !self.borrowed.load();
        notified
    }

    /// Takes the completed slots off the page and returns them. The caller
    /// frees every one of them.
    pub fn take_dropped(&mut self) -> (dropped: u64)
        ensures
            dropped == old(self).dropped_bits(),
            slots(dropped) == old(self)@.dropped,
            final(self)@ == old(self)@.take_dropped(),
            final(self).dropped_bits() == 0,
            final(self).notified_bits() == old(self).notified_bits(),
            final(self).borrowed_bits() == old(self).borrowed_bits(),
    {
        proof {
            lemma_slots_empty(0);
        }
        self.dropped.swap(0)
    }

    /// Frees slot `idx`: it is no longer woken, completed or being polled.
    pub fn clear(&mut self, idx: usize)
        requires
            idx < 64,
        ensures
            final(self)@ == old(self)@.clear(idx as int),
            final(self).notified_bits() == old(self).notified_bits() & !bit(idx as u64),
            final(self).dropped_bits() == old(self).dropped_bits() & !bit(idx as u64),
            final(self).borrowed_bits() == old(self).borrowed_bits() & !bit(idx as u64),
    {
        let mask = !slot_mask(idx);
        proof {
            lemma_slots_clear(self.notified@, idx as u64);
            lemma_slots_clear(self.dropped@, idx as u64);
            lemma_slots_clear(self.borrowed@, idx as u64);
        }
        self.notified.fetch_and(mask);
        self.dropped.fetch_and(mask);
        self.borrowed.fetch_and(mask);
    }

    /// A handle on the slot that `key` names, for the task `task_id` that
    /// lives there.
    pub fn make_waker(&self, key: Key, task_id: usize) -> (waker: WakerRef)
        ensures
            waker == (WakerRef { key, task_id }),
    {
        WakerRef { key, task_id }
    }

    /// The bitmap of woken slots.
    pub fn notified(&self) -> (word: u64)
        ensures
            word == self.notified_bits(),
            slots(word) == self@.notified,
    {
        self.notified.load()
    }

    /// The bitmap of completed slots.
    pub fn dropped(&self) -> (word: u64)
        ensures
            word == self.dropped_bits(),
            slots(word) == self@.dropped,
    {
        self.dropped.load()
    }

    /// The bitmap of slots that are being polled.
    pub fn borrowed(&self) -> (word: u64)
        ensures
            word == self.borrowed_bits(),
            slots(word) == self@.borrowed,
    {
        self.borrowed.load()
    }
}

/// A handle by which a task is woken, or its completion reported. It names
/// the slot of the task by its key, and the task by its number: once the
/// task has left its slot the handle does nothing, whoever lives there
/// then.
#[derive(Clone, Copy, Debug)]
pub struct WakerRef {
    pub key: Key,
    pub task_id: usize,
}

/// The handle by which an executor reports the completion of a task.
pub type DroperRef = WakerRef;

impl WakerRef {
    /// Records in `tasks` that a poll of the slot has begun (`borrowed`)
    /// or ended.
    pub fn mark_borrowed(&self, tasks: &mut TaskCollection, borrowed: bool)
        requires
            old(tasks).wf(),
        ensures
            final(tasks).wf(),
            final(tasks)@ == old(tasks)@.mark_borrowed(self.key, borrowed),
    {
        tasks.mark_borrowed(self.key, borrowed);
    }

    /// Wakes the task in `tasks`, unless it has completed.
    pub fn wake_by_ref(&self, tasks: &mut TaskCollection)
        requires
            old(tasks).wf(),
        ensures
            final(tasks).wf(),
            final(tasks)@ == old(tasks)@.wake(self.key, self.task_id),
    {
        tasks.wake(self.key, self.task_id);
    }

    /// Reports in `tasks` that the task has completed. Only the first
    /// report for a task marks its slot.
    pub fn drop_by_ref(&self, tasks: &mut TaskCollection)
        requires
            old(tasks).wf(),
        ensures
            final(tasks).wf(),
            final(tasks)@ == old(tasks)@.finish(self.key, self.task_id),
    {
        tasks.finish(self.key, self.task_id);
    }
}

} // verus!
