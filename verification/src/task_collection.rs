//! The task collection of one CPU: a slab of task records for each
//! priority level, the number of tasks, and the cursor that hands out the
//! next task to poll.

use crate::future_collection::{
    max_pages, Cursor, CursorView, FutureCollection, LevelView,
};
use crate::key::{
    key_index, key_priority, lemma_packed_fields, pack_key, packed, unmask_priority, unpack_key,
    Key, DEFAULT_PRIORITY, MAX_PRIORITY,
};
use crate::task::Task;
use crate::waker_page::{DroperRef, WakerPage, WakerRef};
use vstd::prelude::*;

verus! {

/// The key of the task at slab index `i` of the priority level in use.
pub open spec fn key_for(i: usize) -> Key {
    packed(DEFAULT_PRIORITY as u64, (i / 64) as u64, (i % 64) as u64)
}

/// The slab index that `key` names in the priority level in use, if it
/// names one.
pub open spec fn index_of(key: Key) -> Option<usize> {
    if key_priority(key) == DEFAULT_PRIORITY && key_index(key) <= usize::MAX {
        Some(key_index(key) as usize)
    } else {
        None
    }
}

/// The key of a slab index names that index.
pub proof fn lemma_key_for_index(i: usize)
    requires
        i < 64 * max_pages(),
    ensures
        index_of(key_for(i)) == Some(i),
{
    lemma_packed_fields(DEFAULT_PRIORITY as u64, (i / 64) as u64, (i % 64) as u64);
}

/// The key of the task at slab index `index` of the priority level in use.
pub fn make_key(index: usize) -> (key: Key)
    ensures
        key == key_for(index),
{
    pack_key(DEFAULT_PRIORITY as u64, (index / 64) as u64, (index % 64) as u64)
}

/// The slab index that `key` names in the priority level in use.
pub fn locate(key: Key) -> (r: Option<usize>)
    ensures
        r == index_of(key),
{
    let (priority, _, _) = unpack_key(key);
    let index = unmask_priority(key);
    if priority == DEFAULT_PRIORITY as u64 && index <= usize::MAX as u64 {
        Some(index as usize)
    } else {
        None
    }
}

/// A set of slab indices below `m` has at most `m` members.
proof fn lemma_bounded_len(s: Set<usize>, m: nat)
    requires
        s.finite(),
        forall|i: usize| s.contains(i) ==> i < m,
    ensures
        s.len() <= m,
    decreases m,
{
    if m == 0 {
        assert(s =~= Set::<usize>::empty());
    } else if m - 1 > usize::MAX {
        lemma_bounded_len(s, (m - 1) as nat);
    } else {
        let top = (m - 1) as usize;
        lemma_bounded_len(s.remove(top), (m - 1) as nat);
    }
}

/// What the task collection of a CPU holds: the priority level in use,
/// and the cursor over it.
#[verifier::ext_equal]
pub struct CollectionView {
    /// The CPU that owns the collection.
    pub cpu_id: u8,
    pub level: LevelView,
    pub cursor: CursorView,
}

impl CollectionView {
    /// The invariant: the level is sound, the cursor stands on it, and a
    /// cursor that has handed out nothing is at the start.
    pub open spec fn wf(self) -> bool {
        &&& self.level.wf()
        &&& self.level.admits(self.cursor)
        &&& self.cursor.found || self.cursor == CursorView::start()
    }

    /// The number of tasks.
    pub open spec fn task_num(self) -> nat {
        self.level.tasks.len()
    }

    /// The task that `key` names, if it names one.
    pub open spec fn task(self, key: Key) -> Option<Task> {
        match index_of(key) {
            Some(i) => if self.level.tasks.contains_key(i) {
                Some(self.level.tasks[i])
            } else {
                None
            },
            None => None,
        }
    }

    /// The collection with another level.
    pub open spec fn with_level(self, level: LevelView) -> CollectionView {
        CollectionView { level, ..self }
    }

    /// The collection after the slot that `key` names was freed.
    pub open spec fn remove(self, key: Key) -> CollectionView {
        match index_of(key) {
            Some(i) => self.with_level(self.level.remove(i)),
            None => self,
        }
    }

    /// The collection after a handle for the task `id` under `key` was
    /// used to wake it.
    pub open spec fn wake(self, key: Key, id: usize) -> CollectionView {
        match index_of(key) {
            Some(i) => self.with_level(self.level.wake(i, id)),
            None => self,
        }
    }

    /// The collection after a handle for the task `id` under `key` was
    /// used to report its completion.
    pub open spec fn finish(self, key: Key, id: usize) -> CollectionView {
        match index_of(key) {
            Some(i) => self.with_level(self.level.finish(i, id)),
            None => self,
        }
    }

    /// The collection after a poll of the slot that `key` names has begun
    /// (`b`) or ended.
    pub open spec fn mark_borrowed(self, key: Key, b: bool) -> CollectionView {
        match index_of(key) {
            Some(i) => self.with_level(self.level.mark_borrowed(i, b)),
            None => self,
        }
    }

    /// The collection after a poll of the task `id` under `key` has ended
    /// with interrupts enabled (`enabled`) or disabled.
    pub open spec fn set_intr_enable(self, key: Key, id: usize, enabled: bool) -> CollectionView {
        match index_of(key) {
            Some(i) => self.with_level(self.level.set_intr_enable(i, id, enabled)),
            None => self,
        }
    }

    /// The slab index of the task that the cursor hands out next.
    pub open spec fn next_hit(self) -> Option<usize> {
        self.level.next_hit(self.cursor)
    }

    /// The collection after the cursor has handed out its next result.
    pub open spec fn next(self) -> CollectionView {
        CollectionView {
            level: self.level.next_level(self.cursor),
            cursor: self.level.next_cursor(self.cursor),
            ..self
        }
    }
}

/// The tasks of one CPU.
pub struct TaskCollection {
    /// The CPU that owns the collection.
    cpu_id: u8,
    /// One collection for each priority level.
    future_collections: Vec<FutureCollection>,
    /// The number of tasks.
    task_num: usize,
    /// Where the sweep over the priority level in use stands.
    cursor: Cursor,
}

impl View for TaskCollection {
    type V = CollectionView;

    closed spec fn view(&self) -> CollectionView {
        CollectionView {
            cpu_id: self.cpu_id,
            level: self.future_collections@[DEFAULT_PRIORITY as int]@,
            cursor: self.cursor@,
        }
    }
}

impl TaskCollection {
    /// What the view does not show: there is a collection for each
    /// priority level, only the one in use holds tasks, and the count is
    /// the number of its tasks.
    pub closed spec fn levels_wf(&self) -> bool {
        &&& self.future_collections@.len() == MAX_PRIORITY
        &&& forall|p: int|
            0 <= p < MAX_PRIORITY ==> {
                &&& (#[trigger] self.future_collections@[p]).shape()
                &&& self.future_collections@[p].level() == p
            }
        &&& forall|p: int|
            0 <= p < MAX_PRIORITY && p != DEFAULT_PRIORITY ==> (
            #[trigger] self.future_collections@[p])@.tasks == Map::<usize, Task>::empty()
        &&& self.task_num == self@.level.tasks.len()
    }

    /// The tasks of the priority level `priority`, by slab index.
    pub closed spec fn tasks_of_level(&self, priority: int) -> Map<usize, Task> {
        self.future_collections@[priority]@.tasks
    }

    /// Of all priority levels only the one in use holds tasks: the number
    /// of its tasks is the number of slots that are not free in all slabs.
    pub proof fn lemma_one_level_in_use(&self)
        requires
            self.wf(),
        ensures
            self.tasks_of_level(DEFAULT_PRIORITY as int) == self@.level.tasks,
            forall|p: int|
                0 <= p < MAX_PRIORITY && p != DEFAULT_PRIORITY ==> self.tasks_of_level(p)
                    == Map::<usize, Task>::empty(),
    {
    }

    /// The invariant of the collection.
    pub open spec fn wf(&self) -> bool {
        self@.wf() && self.levels_wf()
    }

    /// An empty collection for the CPU `cpu_id`.
    pub fn new(cpu_id: u8) -> (tasks: Self)
        ensures
            tasks.wf(),
            tasks@.cpu_id == cpu_id,
            tasks@.level.tasks == Map::<usize, Task>::empty(),
            tasks@.level.pages.len() == 0,
            tasks@.cursor == CursorView::start(),
    {
        let mut future_collections: Vec<FutureCollection> = Vec::with_capacity(MAX_PRIORITY);
        let mut priority: usize = 0;
        while priority < MAX_PRIORITY
            invariant
                priority <= MAX_PRIORITY,
                future_collections@.len() == priority,
                forall|p: int|
                    0 <= p < priority ==> {
                        &&& (#[trigger] future_collections@[p]).wf()
                        &&& future_collections@[p].level() == p
                        &&& future_collections@[p]@.tasks == Map::<usize, Task>::empty()
                        &&& future_collections@[p]@.pages.len() == 0
                    },
            decreases MAX_PRIORITY - priority,
        {
            future_collections.push(FutureCollection::new(priority));
            priority = priority + 1;
        }
        TaskCollection { cpu_id, future_collections, task_num: 0, cursor: Cursor::new() }
    }

    /// The number of tasks: the slots that are not free.
    pub fn task_num(&self) -> (n: usize)
        requires
            self.wf(),
        ensures
            n == self@.task_num(),
    {
        self.task_num
    }

    /// The number of pages of the priority level in use.
    pub fn page_num(&self) -> (n: usize)
        requires
            self.wf(),
        ensures
            n == self@.level.pages.len(),
    {
        self.future_collections[DEFAULT_PRIORITY].page_count()
    }

    /// The page that holds the slot that `key` names, and the slot on that
    /// page.
    pub fn page(&self, key: Key) -> (r: (&WakerPage, usize))
        requires
            self.wf(),
            index_of(key) matches Some(i) && self@.level.has_slot(i),
        ensures
            r.0@ == self@.level.page_of(index_of(key).unwrap()),
            r.1 == index_of(key).unwrap() % 64,
    {
        let index = locate(key).unwrap();
        self.future_collections[DEFAULT_PRIORITY].page(index)
    }

    /// Stores a new task with the number `id` at the priority level in
    /// use, woken, and returns its key. Only a collection whose level has
    /// as many pages as it can have takes no task.
    pub fn add_task(&mut self, id: usize) -> (r: Option<Key>)
        requires
            old(self).wf(),
        ensures
            final(self).wf(),
            final(self)@.cursor == old(self)@.cursor,
            final(self)@.cpu_id == old(self)@.cpu_id,
            r is Some <==> old(self)@.level.pages.len() < max_pages(),
            r is None ==> final(self)@ == old(self)@,
            r matches Some(key) ==> exists|i: usize|
                {
                    &&& key == #[trigger] key_for(i)
                    &&& index_of(key) == Some(i)
                    &&& !old(self)@.level.tasks.contains_key(i)
                    &&& i <= 64 * old(self)@.level.pages.len()
                    &&& final(self)@.level == old(self)@.level.insert(
                        i,
                        Task::new_spec(id, DEFAULT_PRIORITY),
                    )
                },
    {
        match self.future_collections[DEFAULT_PRIORITY].insert(id) {
            Some(index) => {
                proof {
                    let after = self@.level;
                    lemma_bounded_len(after.tasks.dom(), (64 * after.pages.len()) as nat);
                    lemma_key_for_index(index);
                }
                self.task_num = self.task_num + 1;
                Some(make_key(index))
            },
            None => None,
        }
    }

    /// Wakes the task `id` under `key`, if it still lives there and has
    /// not completed, and tells whether it did.
    pub fn wake(&mut self, key: Key, id: usize) -> (woken: bool)
        requires
            old(self).wf(),
        ensures
            final(self).wf(),
            final(self)@ == old(self)@.wake(key, id),
            woken == (index_of(key) matches Some(i) && old(self)@.level.alive(i, id)),
    {
        match locate(key) {
            Some(index) => self.future_collections[DEFAULT_PRIORITY].wake(index, id),
            None => false,
        }
    }

    /// Reports that the task `id` under `key` has completed. The first
    /// report marks the task and its slot, and the result is `true`; a
    /// later one, or one for a task that has left, changes nothing.
    pub fn finish(&mut self, key: Key, id: usize) -> (first: bool)
        requires
            old(self).wf(),
        ensures
            final(self).wf(),
            final(self)@ == old(self)@.finish(key, id),
            first == (index_of(key) matches Some(i) && old(self)@.level.alive(i, id)),
    {
        match locate(key) {
            Some(index) => self.future_collections[DEFAULT_PRIORITY].finish(index, id),
            None => false,
        }
    }

    /// Records that a poll of the slot that `key` names has begun
    /// (`borrowed`) or ended.
    pub fn mark_borrowed(&mut self, key: Key, borrowed: bool)
        requires
            old(self).wf(),
        ensures
            final(self).wf(),
            final(self)@ == old(self)@.mark_borrowed(key, borrowed),
    {
        match locate(key) {
            Some(index) => self.future_collections[DEFAULT_PRIORITY].mark_borrowed(index, borrowed),
            None => {},
        }
    }

    /// Records whether the poll of the task `id` under `key` ended with
    /// interrupts enabled, and tells whether the task lives there.
    pub fn set_intr_enable(&mut self, key: Key, id: usize, enabled: bool) -> (found: bool)
        requires
            old(self).wf(),
        ensures
            final(self).wf(),
            final(self)@ == old(self)@.set_intr_enable(key, id, enabled),
            found == (index_of(key) matches Some(i) && old(self)@.level.holds(i, id)),
    {
        match locate(key) {
            Some(index) => {
                self.future_collections[DEFAULT_PRIORITY].set_intr_enable(index, id, enabled)
            },
            None => false,
        }
    }

    /// The task that `key` names, if it names one.
    pub fn get(&mut self, key: Key) -> (r: Option<Task>)
        requires
            old(self).wf(),
        ensures
            final(self).wf(),
            final(self)@ == old(self)@,
            r == old(self)@.task(key),
    {
        match locate(key) {
            Some(index) => self.future_collections[DEFAULT_PRIORITY].get(index),
            None => None,
        }
    }

    /// Frees the slot that `key` names: the slot is cleared and its task,
    /// if one lives there, leaves the collection.
    pub fn remove_task(&mut self, key: Key)
        requires
            old(self).wf(),
        ensures
            final(self).wf(),
            final(self)@ == old(self)@.remove(key),
    {
        match locate(key) {
            Some(index) => {
                let removed = self.future_collections[DEFAULT_PRIORITY].remove(index);
                if removed {
                    self.task_num = self.task_num - 1;
                }
            },
            None => {},
        }
    }

    /// Moves the cursor to the next task that may be polled and returns
    /// its slab index, or returns `None` once a sweep over all pages has
    /// found none; the cursor is then back at the start.
    fn next_index(&mut self) -> (r: Option<usize>)
        requires
            old(self).wf(),
        ensures
            final(self).wf(),
            final(self)@ == old(self)@.next(),
            r == old(self)@.next_hit(),
    {
        let mut cursor = self.cursor;
        let (hit, reaped) = self.future_collections[DEFAULT_PRIORITY].sweep(&mut cursor);
        self.task_num = self.task_num - reaped;
        if hit.is_some() {
            self.cursor = cursor;
            return hit;
        }
        let again = cursor.found();
        self.cursor = Cursor::new();
        if !again {
            return None;
        }
        let mut cursor = self.cursor;
        let (hit, reaped) = self.future_collections[DEFAULT_PRIORITY].sweep(&mut cursor);
        self.task_num = self.task_num - reaped;
        if hit.is_some() {
            self.cursor = cursor;
        }
        hit
    }

    /// One step of the cursor: the key of the next task that may be
    /// polled, or `None` once a sweep over all pages has found none.
    pub fn generator(&mut self) -> (r: Option<Key>)
        requires
            old(self).wf(),
        ensures
            final(self).wf(),
            final(self)@ == old(self)@.next(),
            r == match old(self)@.next_hit() {
                Some(i) => Some(key_for(i)),
                None => None,
            },
    {
        match self.next_index() {
            Some(index) => Some(make_key(index)),
            None => None,
        }
    }

    /// Hands out the next task that may be polled: its key, its record, a
    /// handle to wake it and a handle to report its completion. Returns
    /// `None` once a sweep over all pages has found no such task.
    pub fn take_task(&mut self) -> (r: Option<(Key, Task, WakerRef, DroperRef)>)
        requires
            old(self).wf(),
        ensures
            final(self).wf(),
            final(self)@ == old(self)@.next(),
            r is Some <==> old(self)@.next_hit() is Some,
            r matches Some(taken) ==> {
                let i = old(self)@.next_hit().unwrap();
                &&& taken.0 == key_for(i)
                &&& index_of(taken.0) == Some(i)
                &&& old(self)@.level.pollable(i)
                &&& taken.1 == old(self)@.level.tasks[i]
                &&& final(self)@.level.tasks[i] == taken.1
                &&& final(self)@.level.pollable(i)
                &&& taken.2 == (WakerRef { key: taken.0, task_id: taken.1.id })
                &&& taken.3 == taken.2
            },
    {
        match self.next_index() {
            Some(index) => {
                proof {
                    old(self)@.level.lemma_next_hit(old(self)@.cursor, index);
                    lemma_key_for_index(index);
                }
                let key = make_key(index);
                let found = self.future_collections[DEFAULT_PRIORITY].get(index);
                match found {
                    Some(task) => {
                        let (page, _) = self.future_collections[DEFAULT_PRIORITY].page(index);
                        let waker = page.make_waker(key, task.id());
                        let droper = waker.clone();
                        Some((key, task, waker, droper))
                    },
                    None => None,
                }
            },
            None => None,
        }
    }
}

} // verus!
