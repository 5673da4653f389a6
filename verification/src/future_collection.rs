//! The tasks of one priority level: a slab of task records with the waker
//! pages of its slots, and the sweep that finds the next task to poll.

use crate::bits::{clear_slot, first_slot, lemma_slots_empty, slots, test_slot};
use crate::key::PAGE_NUM_PER_PRIORITY;
use crate::slab::{
    max_slab_key, slab_get_mut, slab_insert, slab_limit, slab_new, slab_remove, slab_tasks,
};
use crate::task::Task;
use crate::waker_page::{PageView, WakerPage};
use unicycle::pin_slab::PinSlab;
use vstd::prelude::*;

verus! {

/// The largest number of pages of one priority level: what a key can
/// address, or less where the slab cannot hold as many records.
pub open spec fn max_pages() -> int {
    if usize::MAX / 128 < PAGE_NUM_PER_PRIORITY {
        (usize::MAX / 128) as int
    } else {
        PAGE_NUM_PER_PRIORITY as int
    }
}

/// The largest number of pages of one priority level.
pub fn page_limit() -> (limit: usize)
    ensures
        limit == max_pages(),
{
    let by_slab: usize = usize::MAX / 128;
    if (by_slab as u64) < PAGE_NUM_PER_PRIORITY {
        by_slab
    } else {
        PAGE_NUM_PER_PRIORITY as usize
    }
}

/// The slab index of slot `slot` of page `page`.
pub open spec fn slab_index(page: int, slot: int) -> usize {
    (64 * page + slot) as usize
}

/// Where a sweep over the pages of a priority level stands between two
/// of its results.
#[derive(Clone, Copy, Debug)]
pub struct Cursor {
    /// The page at which the sweep stands.
    page: usize,
    /// The slots taken from that page that the sweep has not looked at.
    bits: u64,
    /// Whether the woken slots of that page were taken.
    started: bool,
    /// Whether the sweep has handed out a task.
    found: bool,
}

/// A cursor with its slots as a set.
#[verifier::ext_equal]
pub struct CursorView {
    pub page: int,
    pub pending: Set<int>,
    pub started: bool,
    pub found: bool,
}

impl CursorView {
    /// The cursor of a sweep that has not begun.
    pub open spec fn start() -> CursorView {
        CursorView { page: 0, pending: Set::empty(), started: false, found: false }
    }

    /// The first page whose woken slots the sweep has yet to take.
    pub open spec fn first_fresh(self) -> int {
        if self.started {
            self.page + 1
        } else {
            self.page
        }
    }
}

impl View for Cursor {
    type V = CursorView;

    closed spec fn view(&self) -> CursorView {
        CursorView {
            page: self.page as int,
            pending: slots(self.bits),
            started: self.started,
            found: self.found,
        }
    }
}

impl Cursor {
    /// The cursor of a sweep that has not begun.
    pub fn new() -> (cursor: Self)
        ensures
            cursor@ == CursorView::start(),
    {
        proof {
            lemma_slots_empty(0);
        }
        Cursor { page: 0, bits: 0, started: false, found: false }
    }

    /// Whether the sweep has handed out a task.
    pub fn found(&self) -> (found: bool)
        ensures
            found == self@.found,
    {
        self.found
    }
}

/// What one priority level holds: the task records by slab index, and the
/// pages in order. Slot `i % 64` of page `i / 64` belongs to slab index `i`.
#[verifier::ext_equal]
pub struct LevelView {
    pub tasks: Map<usize, Task>,
    pub pages: Seq<PageView>,
}

impl LevelView {
    /// Every task has its slot on a page, and the pages are no more than a
    /// key can address.
    pub open spec fn shape(self) -> bool {
        &&& self.tasks.dom().finite()
        &&& self.pages.len() <= max_pages()
        &&& forall|i: usize| self.tasks.contains_key(i) ==> i < 64 * self.pages.len()
        &&& forall|p: int| 0 <= p < self.pages.len() ==> (#[trigger] self.pages[p]).wf()
    }

    /// The slots that are marked as completed are those of the tasks that
    /// have completed.
    pub open spec fn marks_agree(self) -> bool {
        forall|i: usize| #[trigger]
            self.dropped(i) <==> self.tasks.contains_key(i) && self.tasks[i].finish
    }

    /// The invariant of a level.
    pub open spec fn wf(self) -> bool {
        self.shape() && self.marks_agree()
    }

    /// Whether slab index `i` has a slot on a page.
    pub open spec fn has_slot(self, i: usize) -> bool {
        i < 64 * self.pages.len()
    }

    /// Whether the slot of slab index `i` was woken.
    pub open spec fn notified(self, i: usize) -> bool {
        self.has_slot(i) && self.pages[i as int / 64].notified.contains(i as int % 64)
    }

    /// Whether the slot of slab index `i` is marked as completed.
    pub open spec fn dropped(self, i: usize) -> bool {
        self.has_slot(i) && self.pages[i as int / 64].dropped.contains(i as int % 64)
    }

    /// Whether the slot of slab index `i` is marked as being polled.
    pub open spec fn borrowed(self, i: usize) -> bool {
        self.has_slot(i) && self.pages[i as int / 64].borrowed.contains(i as int % 64)
    }

    /// Whether a poll of slab index `i` may begin: a task lives there that
    /// has not completed and is not being polled.
    pub open spec fn pollable(self, i: usize) -> bool {
        &&& self.tasks.contains_key(i)
        &&& !self.tasks[i].finish
        &&& !self.dropped(i)
        &&& !self.borrowed(i)
    }

    /// Whether the task with number `id` lives at slab index `i`.
    pub open spec fn holds(self, i: usize, id: usize) -> bool {
        self.has_slot(i) && self.tasks.contains_key(i) && self.tasks[i].id == id
    }

    /// Whether the task with number `id` lives at slab index `i` and has
    /// not completed.
    pub open spec fn alive(self, i: usize, id: usize) -> bool {
        self.holds(i, id) && !self.tasks[i].finish
    }

    /// The level with the page of slab index `i` replaced.
    pub open spec fn with_page(self, i: usize, page: PageView) -> LevelView {
        LevelView { pages: self.pages.update(i as int / 64, page), ..self }
    }

    /// The page of slab index `i`.
    pub open spec fn page_of(self, i: usize) -> PageView {
        self.pages[i as int / 64]
    }

    /// The level after `task` has moved into the free slab index `i`,
    /// which lies on a page or is the first index beyond the pages.
    pub open spec fn insert(self, i: usize, task: Task) -> LevelView {
        LevelView {
            tasks: self.tasks.insert(i, task),
            pages: if i == 64 * self.pages.len() {
                self.pages.push(PageView::empty().initialize(0))
            } else {
                self.pages.update(i as int / 64, self.page_of(i).initialize(i as int % 64))
            },
        }
    }

    /// The level after slab index `i` was freed.
    pub open spec fn remove(self, i: usize) -> LevelView {
        if self.has_slot(i) {
            LevelView {
                tasks: self.tasks.remove(i),
                pages: self.pages.update(i as int / 64, self.page_of(i).clear(i as int % 64)),
            }
        } else {
            self
        }
    }

    /// The level after a handle for the task `id` at slab index `i` was
    /// used to wake it: the slot is woken if the task still lives there
    /// and has not completed.
    pub open spec fn wake(self, i: usize, id: usize) -> LevelView {
        if self.alive(i, id) {
            self.with_page(i, self.page_of(i).notify(i as int % 64))
        } else {
            self
        }
    }

    /// The level after a handle for the task `id` at slab index `i` was
    /// used to report its completion: the first report marks the task and
    /// its slot, any later one changes nothing.
    pub open spec fn finish(self, i: usize, id: usize) -> LevelView {
        if self.alive(i, id) {
            LevelView {
                tasks: self.tasks.insert(i, Task { finish: true, ..self.tasks[i] }),
                pages: self.pages.update(
                    i as int / 64,
                    self.page_of(i).mark_dropped(i as int % 64),
                ),
            }
        } else {
            self
        }
    }

    /// The level after the completed slots of page `q` were taken and
    /// freed.
    pub open spec fn reap_page(self, q: int) -> LevelView {
        LevelView {
            tasks: self.tasks.remove_keys(
                Set::new(|i: usize| i as int / 64 == q && self.dropped(i)),
            ),
            pages: self.pages.update(q, self.pages[q].reaped()),
        }
    }

    /// Whether a sweep of this level may continue from `c`.
    pub open spec fn admits(self, c: CursorView) -> bool {
        &&& 0 <= c.page <= self.pages.len()
        &&& c.started ==> c.page < self.pages.len()
        &&& forall|t: int| c.pending.contains(t) ==> 0 <= t < 64
    }

    /// The slots of page `q` that are signalled to the sweep that
    /// continues from `c`: what is left of the slots taken from the page at
    /// which the sweep stands, and the slots of a later page that are woken
    /// and neither completed nor being polled.
    pub open spec fn signals(self, c: CursorView, q: int) -> Set<int> {
        if c.started && q == c.page {
            c.pending
        } else if 0 <= q < self.pages.len() {
            self.pages[q].ready()
        } else {
            Set::empty()
        }
    }

    /// Whether the sweep that continues from `c` may hand out slab index
    /// `i`: its slot is signalled to the sweep and its task may be polled.
    pub open spec fn candidate(self, c: CursorView, i: usize) -> bool {
        &&& c.page <= i as int / 64
        &&& self.signals(c, i as int / 64).contains(i as int % 64)
        &&& self.pollable(i)
    }

    /// Whether `i` is the lowest slab index that the sweep that continues
    /// from `c` may hand out.
    pub open spec fn first_candidate(self, c: CursorView, i: usize) -> bool {
        self.candidate(c, i) && forall|j: usize| j < i ==> !self.candidate(c, j)
    }

    /// The first candidate of a sweep is the only one.
    pub proof fn lemma_first_candidate_unique(self, c: CursorView, i: usize, j: usize)
        requires
            self.first_candidate(c, i),
            self.first_candidate(c, j),
        ensures
            i == j,
    {
    }

    /// The slab index that the sweep that continues from `c` hands out:
    /// the lowest one that it may, if there is any.
    pub open spec fn sweep_hit(self, c: CursorView) -> Option<usize> {
        if exists|i: usize| self.first_candidate(c, i) {
            Some(choose|i: usize| self.first_candidate(c, i))
        } else {
            None
        }
    }

    /// The level after the sweep that continues from `c` has handed out a
    /// task or passed the last page.
    pub open spec fn sweep_level(self, c: CursorView) -> LevelView {
        match self.sweep_hit(c) {
            Some(i) => self.swept(c, i as int / 64, i as int / 64 + 1),
            None => self.swept(c, self.pages.len() as int, self.pages.len() as int),
        }
    }

    /// The cursor after the sweep that continues from `c` has handed out a
    /// task or passed the last page.
    pub open spec fn sweep_cursor(self, c: CursorView) -> CursorView {
        match self.sweep_hit(c) {
            Some(i) => self.cursor_at(c, i),
            None => self.cursor_done(c),
        }
    }

    /// The slab index that the cursor at `c` hands out next. Where the
    /// sweep that continues from `c` passes the last page with nothing to
    /// hand out, and has handed out a task before, one more sweep over all
    /// pages follows at once.
    pub open spec fn next_hit(self, c: CursorView) -> Option<usize> {
        match self.sweep_hit(c) {
            Some(i) => Some(i),
            None => if c.found {
                self.sweep_level(c).sweep_hit(CursorView::start())
            } else {
                None
            },
        }
    }

    /// The level after the cursor at `c` has handed out its next result.
    pub open spec fn next_level(self, c: CursorView) -> LevelView {
        if self.sweep_hit(c) is None && c.found {
            self.sweep_level(c).sweep_level(CursorView::start())
        } else {
            self.sweep_level(c)
        }
    }

    /// The cursor after it has handed out its next result: in a sweep
    /// where it has handed out a task, at the start where it has not.
    pub open spec fn next_cursor(self, c: CursorView) -> CursorView {
        match self.sweep_hit(c) {
            Some(_) => self.sweep_cursor(c),
            None => if c.found && self.sweep_level(c).sweep_hit(CursorView::start()) is Some {
                self.sweep_level(c).sweep_cursor(CursorView::start())
            } else {
                CursorView::start()
            },
        }
    }

    /// Page `p` after the sweep that continues from `c` has taken the woken
    /// slots of the pages before `wipe_to` and freed the completed slots of
    /// the pages before `reap_to`.
    pub open spec fn swept_page(self, c: CursorView, reap_to: int, wipe_to: int, p: int)
        -> PageView {
        let wiped = if c.first_fresh() <= p < wipe_to {
            self.pages[p].take_notified()
        } else {
            self.pages[p]
        };
        if c.page <= p < reap_to {
            wiped.reaped()
        } else {
            wiped
        }
    }

    /// The level after the sweep that continues from `c` has taken the
    /// woken slots of the pages before `wipe_to` and freed the completed
    /// slots of the pages before `reap_to`, with their tasks.
    pub open spec fn swept(self, c: CursorView, reap_to: int, wipe_to: int) -> LevelView {
        LevelView {
            tasks: self.tasks.remove_keys(
                Set::new(|i: usize| c.page <= i as int / 64 < reap_to && self.dropped(i)),
            ),
            pages: Seq::new(self.pages.len(), |p: int| self.swept_page(c, reap_to, wipe_to, p)),
        }
    }

    /// The cursor after the sweep that continues from `c` has handed out
    /// slab index `i`.
    pub open spec fn cursor_at(self, c: CursorView, i: usize) -> CursorView {
        CursorView {
            page: i as int / 64,
            pending: self.signals(c, i as int / 64).filter(|t: int| t > i as int % 64),
            started: true,
            found: true,
        }
    }

    /// The cursor after the sweep that continues from `c` has passed the
    /// last page.
    pub open spec fn cursor_done(self, c: CursorView) -> CursorView {
        CursorView {
            page: self.pages.len() as int,
            pending: Set::empty(),
            started: false,
            found: c.found,
        }
    }

    /// The level after a poll of slab index `i` has begun (`b`) or ended
    /// (`!b`).
    pub open spec fn mark_borrowed(self, i: usize, b: bool) -> LevelView {
        if self.has_slot(i) {
            self.with_page(i, self.page_of(i).mark_borrowed(i as int % 64, b))
        } else {
            self
        }
    }

    /// The level after a poll of the task `id` at slab index `i` has ended
    /// with interrupts enabled (`enabled`) or disabled.
    pub open spec fn set_intr_enable(self, i: usize, id: usize, enabled: bool) -> LevelView {
        if self.holds(i, id) {
            LevelView {
                tasks: self.tasks.insert(i, Task { intr_enable: enabled, ..self.tasks[i] }),
                ..self
            }
        } else {
            self
        }
    }
}

impl LevelView {
    /// A new task in a free slot keeps the invariant.
    pub proof fn lemma_insert_wf(self, i: usize, task: Task)
        requires
            self.wf(),
            !self.tasks.contains_key(i),
            i <= 64 * self.pages.len(),
            self.pages.len() < max_pages(),
            !task.finish,
        ensures
            self.insert(i, task).wf(),
    {
        let after = self.insert(i, task);
        assert forall|j: usize| #[trigger]
            after.dropped(j) <==> after.tasks.contains_key(j) && after.tasks[j].finish by {
            assert(self.dropped(j) <==> self.tasks.contains_key(j) && self.tasks[j].finish);
        }
        assert forall|p: int| 0 <= p < after.pages.len() implies
            (#[trigger] after.pages[p]).wf() by {
            if p < self.pages.len() {
                assert(self.pages[p].wf());
            }
        }
    }

    /// Freeing a slot keeps the invariant.
    pub proof fn lemma_remove_wf(self, i: usize)
        requires
            self.wf(),
        ensures
            self.remove(i).wf(),
    {
        let after = self.remove(i);
        assert forall|j: usize| #[trigger]
            after.dropped(j) <==> after.tasks.contains_key(j) && after.tasks[j].finish by {
            assert(self.dropped(j) <==> self.tasks.contains_key(j) && self.tasks[j].finish);
        }
    }

    /// Waking a task keeps the invariant.
    pub proof fn lemma_wake_wf(self, i: usize, id: usize)
        requires
            self.wf(),
        ensures
            self.wake(i, id).wf(),
    {
        let after = self.wake(i, id);
        assert forall|j: usize| #[trigger]
            after.dropped(j) <==> after.tasks.contains_key(j) && after.tasks[j].finish by {
            assert(self.dropped(j) <==> self.tasks.contains_key(j) && self.tasks[j].finish);
        }
    }

    /// The report of a completion keeps the invariant.
    pub proof fn lemma_finish_wf(self, i: usize, id: usize)
        requires
            self.wf(),
        ensures
            self.finish(i, id).wf(),
    {
        let after = self.finish(i, id);
        assert forall|j: usize| #[trigger]
            after.dropped(j) <==> after.tasks.contains_key(j) && after.tasks[j].finish by {
            assert(self.dropped(j) <==> self.tasks.contains_key(j) && self.tasks[j].finish);
        }
    }

    /// The begin and the end of a poll keep the invariant.
    pub proof fn lemma_mark_borrowed_wf(self, i: usize, b: bool)
        requires
            self.wf(),
        ensures
            self.mark_borrowed(i, b).wf(),
    {
        let after = self.mark_borrowed(i, b);
        assert forall|j: usize| #[trigger]
            after.dropped(j) <==> after.tasks.contains_key(j) && after.tasks[j].finish by {
            assert(self.dropped(j) <==> self.tasks.contains_key(j) && self.tasks[j].finish);
        }
    }

    /// Recording the interrupt state of a task keeps the invariant.
    pub proof fn lemma_set_intr_enable_wf(self, i: usize, id: usize, enabled: bool)
        requires
            self.wf(),
        ensures
            self.set_intr_enable(i, id, enabled).wf(),
    {
        let after = self.set_intr_enable(i, id, enabled);
        assert forall|j: usize| #[trigger]
            after.dropped(j) <==> after.tasks.contains_key(j) && after.tasks[j].finish by {
            assert(self.dropped(j) <==> self.tasks.contains_key(j) && self.tasks[j].finish);
        }
    }

    /// A sweep leaves alone every task that is not marked as completed.
    pub proof fn lemma_swept_keeps(self, c: CursorView, reap_to: int, wipe_to: int, i: usize)
        requires
            !self.dropped(i),
        ensures
            self.swept(c, reap_to, wipe_to).tasks.contains_key(i) == self.tasks.contains_key(i),
            self.tasks.contains_key(i) ==> self.swept(c, reap_to, wipe_to).tasks[i]
                == self.tasks[i],
            !self.swept(c, reap_to, wipe_to).dropped(i),
            self.swept(c, reap_to, wipe_to).borrowed(i) == self.borrowed(i),
    {
    }

    /// A task that the cursor hands out could be polled before, and is
    /// still there, unchanged, after.
    pub proof fn lemma_next_hit(self, c: CursorView, i: usize)
        requires
            self.next_hit(c) == Some(i),
        ensures
            self.pollable(i),
            self.next_level(c).pollable(i),
            self.next_level(c).tasks[i] == self.tasks[i],
    {
        let n = self.pages.len() as int;
        match self.sweep_hit(c) {
            Some(j) => {
                assert(self.first_candidate(c, i));
                self.lemma_swept_keeps(c, i as int / 64, i as int / 64 + 1, i);
            },
            None => {
                let mid = self.swept(c, n, n);
                let start = CursorView::start();
                assert(mid.first_candidate(start, i));
                if self.dropped(i) {
                    if c.page <= i as int / 64 {
                        assert(!mid.tasks.contains_key(i));
                    } else {
                        assert(mid.dropped(i));
                    }
                }
                self.lemma_swept_keeps(c, n, n, i);
                mid.lemma_swept_keeps(start, i as int / 64, i as int / 64 + 1, i);
            },
        }
    }

    /// A sweep keeps the invariant, however far it has come.
    pub proof fn lemma_swept_wf(self, c: CursorView, reap_to: int, wipe_to: int)
        requires
            self.wf(),
        ensures
            self.swept(c, reap_to, wipe_to).wf(),
    {
        let after = self.swept(c, reap_to, wipe_to);
        assert(after.tasks.dom().subset_of(self.tasks.dom()));
        vstd::set_lib::lemma_set_subset_finite(self.tasks.dom(), after.tasks.dom());
        assert forall|j: usize| #[trigger]
            after.dropped(j) <==> after.tasks.contains_key(j) && after.tasks[j].finish by {
            assert(self.dropped(j) <==> self.tasks.contains_key(j) && self.tasks[j].finish);
        }
    }
}

/// The tasks of one priority level.
pub struct FutureCollection {
    slab: PinSlab<Task>,
    pages: Vec<WakerPage>,
    priority: usize,
}

impl View for FutureCollection {
    type V = LevelView;

    closed spec fn view(&self) -> LevelView {
        LevelView {
            tasks: slab_tasks(self.slab),
            pages: Seq::new(self.pages@.len(), |p: int| self.pages@[p]@),
        }
    }
}

impl FutureCollection {
    /// The priority level.
    pub closed spec fn level(&self) -> usize {
        self.priority
    }

    /// The slab has handed out no key beyond the pages.
    pub closed spec fn slab_fits(&self) -> bool {
        slab_limit(self.slab) <= 64 * self.pages@.len()
    }

    /// The part of the invariant that every step of an operation keeps.
    pub open spec fn shape(&self) -> bool {
        self@.shape() && self.slab_fits()
    }

    /// The invariant of the collection.
    pub open spec fn wf(&self) -> bool {
        self@.wf() && self.slab_fits()
    }

    /// An empty collection for one priority level.
    pub fn new(priority: usize) -> (level: Self)
        ensures
            level.wf(),
            level.level() == priority,
            level@.tasks == Map::<usize, Task>::empty(),
            level@.pages == Seq::<PageView>::empty(),
    {
        let level = FutureCollection { slab: slab_new(), pages: Vec::new(), priority };
        assert(level@.pages =~= Seq::<PageView>::empty());
        level
    }

    /// The priority level.
    pub fn priority(&self) -> (priority: usize)
        ensures
            priority == self.level(),
    {
        self.priority
    }

    /// The number of pages.
    pub fn page_count(&self) -> (n: usize)
        ensures
            n == self@.pages.len(),
    {
        self.pages.len()
    }

    /// The page that holds the slot of slab index `index`, and the slot on
    /// that page.
    pub fn page(&self, index: usize) -> (r: (&WakerPage, usize))
        requires
            self@.has_slot(index),
        ensures
            r.0@ == self@.pages[index as int / 64],
            r.1 == index % 64,
    {
        (&self.pages[index / 64], index % 64)
    }

    /// Stores a new task with the number `id` in a free slot, woken, and
    /// returns its slab index; a page is added where the slot lies beyond
    /// the last one. Only a collection with as many pages as it can have
    /// takes no task.
    pub fn insert(&mut self, id: usize) -> (r: Option<usize>)
        requires
            old(self).shape(),
        ensures
            final(self).shape(),
            old(self).wf() ==> final(self).wf(),
            final(self).level() == old(self).level(),
            r is Some <==> old(self)@.pages.len() < max_pages(),
            r is None ==> final(self)@ == old(self)@,
            r matches Some(index) ==> {
                &&& !old(self)@.tasks.contains_key(index)
                &&& index <= 64 * old(self)@.pages.len()
                &&& final(self)@ == old(self)@.insert(
                    index,
                    Task::new_spec(id, old(self).level()),
                )
            },
    {
        if self.pages.len() >= page_limit() {
            return None;
        }
        let index = slab_insert(&mut self.slab, Task::new(id, self.priority));
        if index / 64 >= self.pages.len() {
            self.pages.push(WakerPage::new());
        }
        self.pages[index / 64].initialize(index % 64);
        proof {
            let before = old(self)@.pages;
            let after = self@.pages;
            if index == 64 * before.len() {
                assert(after =~= before.push(PageView::empty().initialize(0)));
            } else {
                assert(after =~= before.update(
                    index as int / 64,
                    before[index as int / 64].initialize(index as int % 64),
                ));
            }
            assert forall|p: int| 0 <= p < after.len() implies (#[trigger] after[p]).wf() by {
                self.pages@[p].lemma_view_wf();
            }
            if old(self).wf() {
                old(self)@.lemma_insert_wf(index, Task::new_spec(id, old(self).level()));
            }
        }
        Some(index)
    }

    /// The views of the pages are sound, and the slab accepts every index
    /// that has a slot.
    proof fn lemma_pages(&self)
        requires
            self@.pages.len() <= max_pages(),
        ensures
            forall|p: int| 0 <= p < self@.pages.len() ==> (#[trigger] self@.pages[p]).wf(),
            64 * self@.pages.len() <= max_slab_key(),
    {
        assert forall|p: int| 0 <= p < self@.pages.len() implies
            (#[trigger] self@.pages[p]).wf() by {
            self.pages@[p].lemma_view_wf();
        }
    }

    /// The task at slab index `index`, if one lives there.
    pub fn get(&mut self, index: usize) -> (r: Option<Task>)
        requires
            old(self).shape(),
        ensures
            final(self).shape(),
            old(self).wf() ==> final(self).wf(),
            final(self).level() == old(self).level(),
            final(self)@ == old(self)@,
            r == if old(self)@.tasks.contains_key(index) {
                Some(old(self)@.tasks[index])
            } else {
                None
            },
    {
        proof {
            self.lemma_pages();
        }
        if index / 64 >= self.pages.len() {
            return None;
        }
        let r = match slab_get_mut(&mut self.slab, index) {
            Some(task) => Some(*task),
            None => None,
        };
        assert(self@.tasks =~= old(self)@.tasks);
        r
    }

    /// Frees slab index `index`: its slot is cleared and its task, if one
    /// lives there, leaves the slab. Tells whether a task left.
    pub fn remove(&mut self, index: usize) -> (removed: bool)
        requires
            old(self).shape(),
        ensures
            final(self).shape(),
            old(self).wf() ==> final(self).wf(),
            final(self).level() == old(self).level(),
            final(self)@ == old(self)@.remove(index),
            removed == old(self)@.tasks.contains_key(index),
    {
        proof {
            if self.wf() {
                old(self)@.lemma_remove_wf(index);
            }
        }
        proof {
            self.lemma_pages();
        }
        if index / 64 >= self.pages.len() {
            return false;
        }
        self.pages[index / 64].clear(index % 64);
        let removed = slab_remove(&mut self.slab, index);
        proof {
            assert(self@.pages =~= old(self)@.remove(index).pages);
            self.lemma_pages();
        }
        removed
    }

    /// Wakes the task `id` at slab index `index`, if it still lives there
    /// and has not completed, and tells whether it did.
    pub fn wake(&mut self, index: usize, id: usize) -> (woken: bool)
        requires
            old(self).shape(),
        ensures
            final(self).shape(),
            old(self).wf() ==> final(self).wf(),
            final(self).level() == old(self).level(),
            final(self)@ == old(self)@.wake(index, id),
            woken == old(self)@.alive(index, id),
    {
        proof {
            if self.wf() {
                old(self)@.lemma_wake_wf(index, id);
            }
        }
        match self.get(index) {
            Some(task) => {
                if task.id == id && !task.finish {
                    self.pages[index / 64].notify(index % 64);
                    proof {
                        assert(self@.pages =~= old(self)@.wake(index, id).pages);
                        self.lemma_pages();
                    }
                    true
                } else {
                    false
                }
            },
            None => false,
        }
    }

    /// Reports that the task `id` at slab index `index` has completed. The
    /// first report marks the task and its slot, and the result is `true`;
    /// a later one, or one for a task that has left, changes nothing.
    pub fn finish(&mut self, index: usize, id: usize) -> (first: bool)
        requires
            old(self).shape(),
        ensures
            final(self).shape(),
            old(self).wf() ==> final(self).wf(),
            final(self).level() == old(self).level(),
            final(self)@ == old(self)@.finish(index, id),
            first == old(self)@.alive(index, id),
    {
        proof {
            if self.wf() {
                old(self)@.lemma_finish_wf(index, id);
            }
        }
        proof {
            self.lemma_pages();
        }
        if index / 64 >= self.pages.len() {
            return false;
        }
        let first = match slab_get_mut(&mut self.slab, index) {
            Some(task) => {
                if task.id == id && !task.finish {
                    task.finish = true;
                    true
                } else {
                    false
                }
            },
            None => false,
        };
        if first {
            self.pages[index / 64].mark_dropped(index % 64);
        }
        proof {
            assert(self@.tasks =~= old(self)@.finish(index, id).tasks);
            assert(self@.pages =~= old(self)@.finish(index, id).pages);
            self.lemma_pages();
        }
        first
    }

    /// Records that a poll of slab index `index` has begun (`borrowed`) or
    /// ended.
    pub fn mark_borrowed(&mut self, index: usize, borrowed: bool)
        requires
            old(self).shape(),
        ensures
            final(self).shape(),
            old(self).wf() ==> final(self).wf(),
            final(self).level() == old(self).level(),
            final(self)@ == old(self)@.mark_borrowed(index, borrowed),
    {
        proof {
            if self.wf() {
                old(self)@.lemma_mark_borrowed_wf(index, borrowed);
            }
        }
        if index / 64 < self.pages.len() {
            self.pages[index / 64].mark_borrowed(index % 64, borrowed);
            proof {
                assert(self@.pages =~= old(self)@.mark_borrowed(index, borrowed).pages);
                self.lemma_pages();
            }
        }
    }

    /// Records whether the poll of the task `id` at slab index `index`
    /// ended with interrupts enabled, and tells whether the task lives
    /// there.
    pub fn set_intr_enable(&mut self, index: usize, id: usize, enabled: bool) -> (found: bool)
        requires
            old(self).shape(),
        ensures
            final(self).shape(),
            old(self).wf() ==> final(self).wf(),
            final(self).level() == old(self).level(),
            final(self)@ == old(self)@.set_intr_enable(index, id, enabled),
            found == old(self)@.holds(index, id),
    {
        proof {
            if self.wf() {
                old(self)@.lemma_set_intr_enable_wf(index, id, enabled);
            }
        }
        proof {
            self.lemma_pages();
        }
        if index / 64 >= self.pages.len() {
            return false;
        }
        let found = match slab_get_mut(&mut self.slab, index) {
            Some(task) => {
                if task.id == id {
                    task.intr_enable = enabled;
                    true
                } else {
                    false
                }
            },
            None => false,
        };
        proof {
            assert(self@.tasks =~= old(self)@.set_intr_enable(index, id, enabled).tasks);
        }
        found
    }

    /// Whether a poll of slab index `index` may begin.
    pub fn is_pollable(&mut self, index: usize) -> (pollable: bool)
        requires
            old(self).shape(),
        ensures
            final(self).shape(),
            old(self).wf() ==> final(self).wf(),
            final(self).level() == old(self).level(),
            final(self)@ == old(self)@,
            pollable == old(self)@.pollable(index),
    {
        match self.get(index) {
            Some(task) => {
                let page = &self.pages[index / 64];
                !task.finish && !test_slot(page.dropped(), index % 64) && !test_slot(
                    page.borrowed(),
                    index % 64,
                )
            },
            None => false,
        }
    }

    /// Takes slots off `bits`, lowest first, up to and with the first one
    /// on page `page` whose task may be polled, and returns that slot.
    fn pop_pollable(&mut self, page: usize, bits: &mut u64) -> (r: Option<usize>)
        requires
            old(self).shape(),
            page < old(self)@.pages.len(),
        ensures
            final(self).shape(),
            final(self).level() == old(self).level(),
            final(self)@ == old(self)@,
            r matches Some(s) ==> {
                &&& s < 64
                &&& slots(*old(bits)).contains(s as int)
                &&& old(self)@.pollable(slab_index(page as int, s as int))
                &&& forall|t: int|
                    t < s && slots(*old(bits)).contains(t) ==> !old(self)@.pollable(
                        slab_index(page as int, t),
                    )
                &&& slots(*final(bits)) == slots(*old(bits)).filter(|t: int| t > s)
            },
            r is None ==> {
                &&& forall|t: int|
                    slots(*old(bits)).contains(t) ==> !old(self)@.pollable(
                        slab_index(page as int, t),
                    )
                &&& slots(*final(bits)) == Set::<int>::empty()
            },
    {
        proof {
            self.lemma_pages();
        }
        loop
            invariant
                self.shape(),
                self.level() == old(self).level(),
                self@ == old(self)@,
                page < self@.pages.len(),
                64 * self@.pages.len() <= max_slab_key(),
                forall|t: int| slots(*bits).contains(t) ==> slots(*old(bits)).contains(t),
                forall|t: int, u: int|
                    slots(*old(bits)).contains(t) && !slots(*bits).contains(t) && slots(
                        *bits,
                    ).contains(u) ==> t < u,
                forall|t: int|
                    slots(*old(bits)).contains(t) && !slots(*bits).contains(t)
                        ==> !old(self)@.pollable(slab_index(page as int, t)),
            decreases *bits,
        {
            match first_slot(*bits) {
                None => {
                    return None;
                },
                Some(s) => {
                    let ghost before = *bits;
                    *bits = clear_slot(*bits, s);
                    if self.is_pollable(page * 64 + s) {
                        assert(slots(*bits) =~= slots(*old(bits)).filter(|t: int| t > s));
                        return Some(s);
                    }
                },
            }
        }
    }

    /// Takes the completed slots of page `page` and frees each of them
    /// with its task. Returns the number of tasks that left.
    fn reap_page(&mut self, page: usize) -> (count: usize)
        requires
            old(self).shape(),
            page < old(self)@.pages.len(),
        ensures
            final(self).shape(),
            final(self).level() == old(self).level(),
            final(self)@ == old(self)@.reap_page(page as int),
            count == old(self)@.tasks.len() - final(self)@.tasks.len(),
            count <= 64,
    {
        let ghost before = self@;
        let ghost page0 = before.pages[page as int];
        let mut dropped = self.pages[page].take_dropped();
        let mut count: usize = 0;
        proof {
            assert(self@.pages =~~= before.pages.update(
                page as int,
                PageView {
                    notified: page0.notified.difference(page0.dropped.difference(slots(dropped))),
                    dropped: Set::empty(),
                    borrowed: page0.borrowed.difference(page0.dropped.difference(slots(dropped))),
                },
            ));
            assert(self@.tasks =~= before.tasks.remove_keys(
                Set::new(
                    |i: usize|
                        i as int / 64 == page && page0.dropped.contains(i as int % 64) && !slots(
                            dropped,
                        ).contains(i as int % 64),
                ),
            ));
            self.lemma_pages();
        }
        loop
            invariant
                self.shape(),
                self.level() == old(self).level(),
                before == old(self)@,
                page0 == before.pages[page as int],
                page < before.pages.len(),
                before.shape(),
                forall|t: int|
                    slots(dropped).contains(t) ==> page0.dropped.contains(t) && count <= t,
                count <= 64,
                self@.pages == before.pages.update(
                    page as int,
                    PageView {
                        notified: page0.notified.difference(
                            page0.dropped.difference(slots(dropped)),
                        ),
                        dropped: Set::empty(),
                        borrowed: page0.borrowed.difference(
                            page0.dropped.difference(slots(dropped)),
                        ),
                    },
                ),
                self@.tasks == before.tasks.remove_keys(
                    Set::new(
                        |i: usize|
                            i as int / 64 == page && page0.dropped.contains(i as int % 64)
                                && !slots(dropped).contains(i as int % 64),
                    ),
                ),
                count == before.tasks.len() - self@.tasks.len(),
            decreases dropped,
        {
            match first_slot(dropped) {
                None => {
                    proof {
                        assert(self@.pages =~~= before.reap_page(page as int).pages);
                        assert(self@.tasks =~= before.reap_page(page as int).tasks);
                    }
                    return count;
                },
                Some(s) => {
                    let ghost prev = self@;
                    let ghost prev_bits = dropped;
                    dropped = clear_slot(dropped, s);
                    let removed = self.remove(page * 64 + s);
                    if removed {
                        count = count + 1;
                    }
                    proof {
                        let index = (page * 64 + s) as usize;
                        assert(index as int / 64 == page && index as int % 64 == s);
                        assert(self@.pages =~~= before.pages.update(
                            page as int,
                            PageView {
                                notified: page0.notified.difference(
                                    page0.dropped.difference(slots(dropped)),
                                ),
                                dropped: Set::empty(),
                                borrowed: page0.borrowed.difference(
                                    page0.dropped.difference(slots(dropped)),
                                ),
                            },
                        ));
                        assert(self@.tasks =~= before.tasks.remove_keys(
                            Set::new(
                                |i: usize|
                                    i as int / 64 == page && page0.dropped.contains(i as int % 64)
                                        && !slots(dropped).contains(i as int % 64),
                            ),
                        ));
                    }
                },
            }
        }
    }

    /// Continues the sweep from `cursor` to the first task that it may
    /// hand out, or past the last page. On the way it takes the woken slots
    /// of each page that it reaches and, once it has looked at all of them,
    /// frees the completed slots of the page. Returns the slab index of
    /// the task, if there is one, and the number of tasks that were freed.
    pub fn sweep(&mut self, cursor: &mut Cursor) -> (r: (Option<usize>, usize))
        requires
            old(self).shape(),
            old(self)@.admits(old(cursor)@),
        ensures
            final(self).shape(),
            old(self).wf() ==> final(self).wf(),
            final(self).level() == old(self).level(),
            final(self)@.admits(final(cursor)@),
            r.1 == old(self)@.tasks.len() - final(self)@.tasks.len(),
            r.0 == old(self)@.sweep_hit(old(cursor)@),
            final(self)@ == old(self)@.sweep_level(old(cursor)@),
            final(cursor)@ == old(self)@.sweep_cursor(old(cursor)@),
            r.0 matches Some(i) ==> {
                &&& old(self)@.first_candidate(old(cursor)@, i)
                &&& final(self)@ == old(self)@.swept(
                    old(cursor)@,
                    i as int / 64,
                    i as int / 64 + 1,
                )
                &&& final(cursor)@ == old(self)@.cursor_at(old(cursor)@, i)
            },
            r.0 is None ==> {
                &&& forall|i: usize| !old(self)@.candidate(old(cursor)@, i)
                &&& final(self)@ == old(self)@.swept(
                    old(cursor)@,
                    old(self)@.pages.len() as int,
                    old(self)@.pages.len() as int,
                )
                &&& final(cursor)@ == old(self)@.cursor_done(old(cursor)@)
            },
    {
        let ghost v0 = self@;
        let ghost c0 = cursor@;
        let n = self.pages.len();
        let mut reaped: usize = 0;
        proof {
            self.lemma_pages();
            lemma_slots_empty(0);
            if v0.wf() {
                assert forall|r: int, w: int| (#[trigger] v0.swept(c0, r, w)).wf() by {
                    v0.lemma_swept_wf(c0, r, w);
                }
            }
        }
        if !cursor.started {
            if cursor.page >= n {
                cursor.bits = 0;
                proof {
                    assert(self@.pages =~~= v0.swept(c0, n as int, n as int).pages);
                    assert(self@.tasks =~= v0.swept(c0, n as int, n as int).tasks);
                }
                return (None, 0);
            }
            cursor.bits = self.pages[cursor.page].take_notified();
            cursor.started = true;
        }
        proof {
            assert(self@.pages =~~= v0.swept(c0, c0.page, c0.page + 1).pages);
            assert(self@.tasks =~= v0.swept(c0, c0.page, c0.page + 1).tasks);
            self.lemma_pages();
        }
        loop
            invariant
                self.shape(),
                self.level() == old(self).level(),
                v0 == old(self)@,
                c0 == old(cursor)@,
                v0.shape(),
                v0.wf() ==> forall|r: int, w: int| (#[trigger] v0.swept(c0, r, w)).wf(),
                v0.admits(c0),
                n == v0.pages.len(),
                cursor.started,
                cursor.found == c0.found,
                c0.page <= cursor.page < n,
                self@ == v0.swept(c0, cursor.page as int, cursor.page as int + 1),
                slots(cursor.bits) == v0.signals(c0, cursor.page as int),
                forall|i: usize| i as int / 64 < cursor.page ==> !v0.candidate(c0, i),
                reaped == v0.tasks.len() - self@.tasks.len(),
                reaped <= 64 * (cursor.page - c0.page),
            decreases n - cursor.page,
        {
            let page = cursor.page;
            let mut bits = cursor.bits;
            let ghost here = self@;
            assert forall|t: int| 0 <= t < 64 implies here.pollable(slab_index(page as int, t))
                == v0.pollable(slab_index(page as int, t)) by {
                let i = slab_index(page as int, t);
                assert(i as int / 64 == page && i as int % 64 == t);
            }
            match self.pop_pollable(page, &mut bits) {
                Some(s) => {
                    cursor.bits = bits;
                    cursor.found = true;
                    let index = page * 64 + s;
                    proof {
                        assert(index == slab_index(page as int, s as int));
                        assert(index as int / 64 == page && index as int % 64 == s);
                        assert forall|j: usize| j < index implies !v0.candidate(c0, j) by {
                            if j as int / 64 == page {
                                assert(j == slab_index(page as int, j as int % 64));
                            }
                        }
                        assert(cursor@ =~~= v0.cursor_at(c0, index));
                        assert(v0.first_candidate(c0, index));
                        v0.lemma_first_candidate_unique(
                            c0,
                            index,
                            choose|i: usize| v0.first_candidate(c0, i),
                        );
                    }
                    return (Some(index), reaped);
                },
                None => {},
            }
            proof {
                assert forall|i: usize| i as int / 64 < page + 1 implies !v0.candidate(c0, i) by {
                    if i as int / 64 == page {
                        assert(i == slab_index(page as int, i as int % 64));
                    }
                }
            }
            let count = self.reap_page(page);
            reaped = reaped + count;
            proof {
                assert(self@.pages =~~= v0.swept(c0, page as int + 1, page as int + 1).pages);
                assert(self@.tasks =~= v0.swept(c0, page as int + 1, page as int + 1).tasks);
            }
            cursor.page = page + 1;
            if cursor.page >= n {
                cursor.bits = 0;
                cursor.started = false;
                proof {
                    lemma_slots_empty(0);
                    assert forall|i: usize| !v0.candidate(c0, i) by {
                        if v0.tasks.contains_key(i) {
                            assert(i as int / 64 < n);
                        }
                    }
                    assert(cursor@ =~~= v0.cursor_done(c0));
                }
                return (None, reaped);
            }
            let ghost reaped_here = self@;
            cursor.bits = self.pages[cursor.page].take_notified();
            proof {
                assert(reaped_here.pages[page as int + 1] == v0.pages[page as int + 1]);
                assert(self@.pages[page as int + 1] == v0.pages[page as int + 1].take_notified());
                let target = v0.swept(c0, page as int + 1, page as int + 2).pages;
                assert forall|p: int| 0 <= p < n implies self@.pages[p] =~~= target[p] by {
                    if p != page + 1 {
                        assert(self@.pages[p] == reaped_here.pages[p]);
                        assert(reaped_here.pages[p] == v0.swept_page(
                            c0,
                            page as int + 1,
                            page as int + 1,
                            p,
                        ));
                    }
                }
                assert(self@.pages =~~= target);
                self.lemma_pages();
            }
        }
    }
}

} // verus!
