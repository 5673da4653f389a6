//! What holds of the pages and of the task collection whatever the order
//! in which tasks are spawned, woken, polled and completed.

use crate::executor::{Executor, ExecutorState};
use crate::future_collection::{CursorView, LevelView};
use crate::runtime::{Current, Phase, RuntimeAction, RuntimeView};
use crate::task::Task;
use crate::task_collection::{index_of, CollectionView};
use crate::waker_page::PageView;
use vstd::prelude::*;

verus! {

/// The page after slot `i` was woken `n` times.
pub open spec fn notify_times(page: PageView, i: int, n: nat) -> PageView
    decreases n,
{
    if n == 0 {
        page
    } else {
        notify_times(page, i, (n - 1) as nat).notify(i)
    }
}

/// Wakings of one slot coalesce: any number of them leaves the page as one
/// of them does.
pub proof fn lemma_wakes_coalesce(page: PageView, i: int, n: nat)
    requires
        n >= 1,
    ensures
        notify_times(page, i, n) == page.notify(i),
    decreases n,
{
    if n > 1 {
        lemma_wakes_coalesce(page, i, (n - 1) as nat);
        assert(page.notify(i).notify(i) =~~= page.notify(i));
    } else {
        assert(notify_times(page, i, 0) == page);
    }
}

/// No waking is lost around a sweep. Let a slot that is neither completed
/// nor being polled be woken `before` times, let a sweep take the woken
/// slots, and let the slot be woken `after` times more. Then the sweep
/// found the slot if it was woken before the sweep, the page is left
/// without woken slots if it was not woken after, and is left with the
/// slot woken, for the next sweep to find, if it was.
pub proof fn lemma_wakes_around_sweep(page: PageView, i: int, before: nat, after: nat)
    requires
        !page.dropped.contains(i),
        !page.borrowed.contains(i),
    ensures
        ({
            let woken = notify_times(page, i, before);
            let left = notify_times(woken.take_notified(), i, after);
            &&& before >= 1 ==> woken.ready().contains(i)
            &&& after == 0 ==> left.notified == Set::<int>::empty()
            &&& after >= 1 ==> left.notified == set![i]
            &&& left.dropped == page.dropped
            &&& left.borrowed == page.borrowed
        }),
{
    let woken = notify_times(page, i, before);
    if before >= 1 {
        lemma_wakes_coalesce(page, i, before);
    }
    if after >= 1 {
        lemma_wakes_coalesce(woken.take_notified(), i, after);
        assert(woken.take_notified().notify(i).notified =~= set![i]);
    }
}

/// A sweep never finds a slot that is completed or being polled, however
/// often the slot was woken.
pub proof fn lemma_sweep_masks(page: PageView, i: int, n: nat)
    requires
        page.dropped.contains(i) || page.borrowed.contains(i),
    ensures
        !notify_times(page, i, n).ready().contains(i),
    decreases n,
{
    if n > 0 {
        lemma_sweep_masks(page, i, (n - 1) as nat);
    }
}

impl LevelView {
    /// Where a sweep may hand out some task, there is a lowest one that
    /// it may hand out.
    pub proof fn lemma_candidate_has_first(self, c: CursorView, i: usize) -> (first: usize)
        requires
            self.candidate(c, i),
        ensures
            first <= i,
            self.first_candidate(c, first),
            self.sweep_hit(c) == Some(first),
        decreases i,
    {
        if exists|j: usize| j < i && self.candidate(c, j) {
            let j = choose|j: usize| j < i && self.candidate(c, j);
            self.lemma_candidate_has_first(c, j)
        } else {
            assert(self.first_candidate(c, i));
            self.lemma_first_candidate_unique(c, i, choose|k: usize| self.first_candidate(c, k));
            i
        }
    }
}

impl CollectionView {
    /// Whether the slot of slab index `i` is signalled: it is woken on its
    /// page, or the cursor has taken it from there and not looked at it.
    pub open spec fn signalled(self, i: usize) -> bool {
        ||| self.level.notified(i)
        ||| self.cursor.started && i as int / 64 == self.cursor.page
            && self.cursor.pending.contains(i as int % 64)
    }

    /// A task that is being polled is not handed out: while its slot is
    /// marked as borrowed, no step of the cursor gives it to another
    /// executor.
    pub proof fn lemma_borrowed_not_taken(self, i: usize)
        requires
            self.level.borrowed(i),
        ensures
            self.next_hit() != Some(i),
    {
        if self.next_hit() == Some(i) {
            self.level.lemma_next_hit(self.cursor, i);
        }
    }

    /// A task that has completed is not handed out again.
    pub proof fn lemma_finished_not_taken(self, i: usize)
        requires
            self.level.tasks.contains_key(i),
            self.level.tasks[i].finish,
        ensures
            self.next_hit() != Some(i),
    {
        if self.next_hit() == Some(i) {
            self.level.lemma_next_hit(self.cursor, i);
        }
    }

    /// Once the completion of a task was reported, handles for the task do
    /// nothing: neither a waking nor a second report changes the
    /// collection.
    pub proof fn lemma_handles_of_finished(self, key: u64, id: usize)
        ensures
            self.finish(key, id).wake(key, id) == self.finish(key, id),
            self.finish(key, id).finish(key, id) == self.finish(key, id),
    {
    }

    /// A handle for a task that has left its slot does nothing, whoever
    /// lives in the slot now.
    pub proof fn lemma_stale_handle(self, key: u64, id: usize)
        requires
            index_of(key) matches Some(i) ==> !self.level.tasks.contains_key(i)
                || self.level.tasks[i].id != id,
        ensures
            self.wake(key, id) == self,
            self.finish(key, id) == self,
            self.set_intr_enable(key, id, true) == self,
            self.set_intr_enable(key, id, false) == self,
    {
    }

    /// The collections of two CPUs whose tasks have different numbers
    /// never hand out the same task.
    pub proof fn lemma_cpus_take_different_tasks(self, other: CollectionView, i: usize, j: usize)
        requires
            forall|a: usize, b: usize|
                self.level.tasks.contains_key(a) && other.level.tasks.contains_key(b)
                    ==> self.level.tasks[a].id != other.level.tasks[b].id,
            self.next_hit() == Some(i),
            other.next_hit() == Some(j),
        ensures
            self.level.tasks[i].id != other.level.tasks[j].id,
    {
        self.level.lemma_next_hit(self.cursor, i);
        other.level.lemma_next_hit(other.cursor, j);
    }

    /// What is done to other tasks does not take the signal from a task:
    /// a task that is signalled and may be polled stays so when any task
    /// is woken, when a new task moves into a free slot, and when another
    /// task completes, is marked as being polled or leaves; the end of a
    /// poll and the record of the interrupt state never change that.
    pub proof fn lemma_signal_survives(self, i: usize, key: u64, id: usize, task: Task, free: usize)
        requires
            self.wf(),
            self.signalled(i),
            self.level.pollable(i),
            !self.level.tasks.contains_key(free),
            free <= 64 * self.level.pages.len(),
        ensures
            self.wake(key, id).signalled(i) && self.wake(key, id).level.pollable(i),
            self.set_intr_enable(key, id, true).signalled(i) && self.set_intr_enable(
                key,
                id,
                true,
            ).level.pollable(i),
            self.set_intr_enable(key, id, false).signalled(i) && self.set_intr_enable(
                key,
                id,
                false,
            ).level.pollable(i),
            self.mark_borrowed(key, false).signalled(i) && self.mark_borrowed(
                key,
                false,
            ).level.pollable(i),
            self.with_level(self.level.insert(free, task)).signalled(i) && self.with_level(
                self.level.insert(free, task),
            ).level.pollable(i),
            index_of(key) != Some(i) ==> {
                &&& self.finish(key, id).signalled(i) && self.finish(key, id).level.pollable(i)
                &&& self.mark_borrowed(key, true).signalled(i) && self.mark_borrowed(
                    key,
                    true,
                ).level.pollable(i)
                &&& self.remove(key).signalled(i) && self.remove(key).level.pollable(i)
            },
    {
    }

    /// A task that has completed stays completed for as long as it has
    /// its slot: no use of a handle, no new task and no step of the cursor
    /// makes it fit for a poll again.
    pub proof fn lemma_finished_stays(self, i: usize, key: u64, id: usize, task: Task, free: usize)
        requires
            self.wf(),
            self.level.tasks.contains_key(i),
            self.level.tasks[i].finish,
            !self.level.tasks.contains_key(free),
        ensures
            !self.wake(key, id).level.pollable(i),
            !self.finish(key, id).level.pollable(i),
            !self.mark_borrowed(key, true).level.pollable(i),
            !self.mark_borrowed(key, false).level.pollable(i),
            !self.set_intr_enable(key, id, true).level.pollable(i),
            !self.set_intr_enable(key, id, false).level.pollable(i),
            !self.remove(key).level.pollable(i),
            !self.with_level(self.level.insert(free, task)).level.pollable(i),
            !self.next().level.pollable(i),
    {
        let v = self.level;
        let c = self.cursor;
        let n = v.pages.len() as int;
        let last = self.next().level;
        if last.tasks.contains_key(i) {
            match v.sweep_hit(c) {
                Some(j) => {},
                None => {
                    let mid = v.swept(c, n, n);
                    if c.found {
                        assert(mid.tasks.contains_key(i));
                    }
                },
            }
        }
    }

    /// A task is fit for a poll from the moment it is spawned: the slot
    /// that it moves into is signalled, and the task may be polled.
    pub proof fn lemma_spawned_is_signalled(self, free: usize, id: usize, priority: usize)
        requires
            self.wf(),
            !self.level.tasks.contains_key(free),
            free <= 64 * self.level.pages.len(),
        ensures
            self.with_level(self.level.insert(free, Task::new_spec(id, priority))).signalled(free),
            self.with_level(
                self.level.insert(free, Task::new_spec(id, priority)),
            ).level.pollable(free),
    {
    }

    /// A waking reaches its task: after a handle was used on a task that
    /// lives in its slot and has not completed, the slot is signalled.
    pub proof fn lemma_wake_signals(self, key: u64, id: usize, i: usize)
        requires
            self.wf(),
            index_of(key) == Some(i),
            self.level.alive(i, id),
        ensures
            self.wake(key, id).signalled(i),
            self.wake(key, id).level.tasks == self.level.tasks,
    {
    }

    /// No signal is lost to a step of the cursor: a task that is signalled
    /// and may be polled is the one handed out, or is still signalled, and
    /// may still be polled, after the step.
    pub proof fn lemma_signal_kept(self, i: usize)
        requires
            self.wf(),
            self.signalled(i),
            self.level.pollable(i),
        ensures
            self.next_hit() is Some,
            self.next_hit() != Some(i) ==> {
                &&& self.next().signalled(i)
                &&& self.next().level.pollable(i)
            },
    {
        let v = self.level;
        let c = self.cursor;
        let n = v.pages.len() as int;
        let start = CursorView::start();
        let carried = c.started && i as int / 64 == c.page && c.pending.contains(i as int % 64);
        match v.sweep_hit(c) {
            Some(j) => {
                assert(v.first_candidate(c, j));
                let q = j as int / 64;
                v.lemma_swept_keeps(c, q, q + 1, i);
                if j != i {
                    Self::lemma_signal_after_hit(v, c, i, j);
                }
            },
            None => {
                if v.candidate(c, i) {
                    let f = v.lemma_candidate_has_first(c, i);
                }
                let mid = v.swept(c, n, n);
                v.lemma_swept_keeps(c, n, n, i);
                v.lemma_swept_wf(c, n, n);
                assert(mid.notified(i));
                assert(mid.candidate(start, i));
                let f = mid.lemma_candidate_has_first(start, i);
                if c.found {
                    let q = f as int / 64;
                    mid.lemma_swept_keeps(start, q, q + 1, i);
                    if f != i {
                        Self::lemma_signal_after_hit(mid, start, i, f);
                    }
                } else {
                    assert(mid.pages =~~= v.pages);
                    assert(false);
                }
            },
        }
    }

    /// A step of the cursor that hands out nothing has looked at every
    /// page: it leaves no slot woken or marked as completed, and of the
    /// tasks exactly those that have not completed. So the number of tasks
    /// is zero after such a step once every task has completed.
    pub proof fn lemma_idle_step_frees_completed(self)
        requires
            self.wf(),
            self.next_hit() is None,
        ensures
            self.next().cursor == CursorView::start(),
            forall|i: usize| !self.next().level.notified(i) && !self.next().level.dropped(i),
            forall|i: usize|
                self.next().level.tasks.contains_key(i) <==> self.level.tasks.contains_key(i)
                    && !self.level.tasks[i].finish,
            forall|i: usize|
                self.next().level.tasks.contains_key(i) ==> self.next().level.tasks[i]
                    == self.level.tasks[i],
            (forall|i: usize| self.level.tasks.contains_key(i) ==> self.level.tasks[i].finish)
                ==> self.next().task_num() == 0,
    {
        let v = self.level;
        let c = self.cursor;
        let n = v.pages.len() as int;
        let start = CursorView::start();
        let last = self.next().level;
        if c.found {
            let mid = v.swept(c, n, n);
            v.lemma_swept_wf(c, n, n);
            assert(last == mid.swept(start, n, n));
            assert forall|i: usize| !last.notified(i) && !last.dropped(i) by {}
            assert forall|i: usize|
                last.tasks.contains_key(i) <==> v.tasks.contains_key(i) && !v.tasks[i].finish by {
                assert(v.dropped(i) <==> v.tasks.contains_key(i) && v.tasks[i].finish);
                assert(mid.dropped(i) <==> mid.tasks.contains_key(i) && mid.tasks[i].finish);
            }
        } else {
            assert(last == v.swept(start, n, n));
            assert forall|i: usize| !last.notified(i) && !last.dropped(i) by {}
            assert forall|i: usize|
                last.tasks.contains_key(i) <==> v.tasks.contains_key(i) && !v.tasks[i].finish by {
                assert(v.dropped(i) <==> v.tasks.contains_key(i) && v.tasks[i].finish);
            }
        }
        if forall|i: usize| v.tasks.contains_key(i) ==> v.tasks[i].finish {
            assert(last.tasks.dom() =~= Set::<usize>::empty());
        }
    }

    /// A step of the cursor keeps the invariant of the collection.
    pub proof fn lemma_next_wf(self)
        requires
            self.wf(),
        ensures
            self.next().wf(),
    {
        let v = self.level;
        let c = self.cursor;
        let n = v.pages.len() as int;
        let start = CursorView::start();
        match v.sweep_hit(c) {
            Some(i) => {
                assert(v.first_candidate(c, i));
                v.lemma_swept_wf(c, i as int / 64, i as int / 64 + 1);
            },
            None => {
                let mid = v.swept(c, n, n);
                v.lemma_swept_wf(c, n, n);
                if c.found {
                    match mid.sweep_hit(start) {
                        Some(i) => {
                            assert(mid.first_candidate(start, i));
                            mid.lemma_swept_wf(start, i as int / 64, i as int / 64 + 1);
                        },
                        None => {
                            mid.lemma_swept_wf(start, n, n);
                        },
                    }
                }
            },
        }
    }

    /// The collection after `n` steps of the cursor with nothing else done
    /// to it in between.
    pub open spec fn after_steps(self, n: nat) -> CollectionView
        decreases n,
    {
        if n == 0 {
            self
        } else {
            self.after_steps((n - 1) as nat).next()
        }
    }

    /// The cursor does not come to rest before it has handed out a task
    /// that waits: as long as the steps of the cursor hand out other
    /// tasks, a task that is signalled and may be polled stays so, and the
    /// next step hands out a task again. So the task is handed out before
    /// any step that hands out nothing.
    pub proof fn lemma_no_rest_before_signalled(self, i: usize, n: nat)
        requires
            self.wf(),
            self.signalled(i),
            self.level.pollable(i),
            forall|k: nat| k < n ==> (#[trigger] self.after_steps(k)).next_hit() != Some(i),
        ensures
            self.after_steps(n).wf(),
            self.after_steps(n).signalled(i),
            self.after_steps(n).level.pollable(i),
            self.after_steps(n).next_hit() is Some,
        decreases n,
    {
        if n > 0 {
            let m = (n - 1) as nat;
            self.lemma_no_rest_before_signalled(i, m);
            let before = self.after_steps(m);
            before.lemma_signal_kept(i);
            before.lemma_next_wf();
            assert(before.next_hit() != Some(i));
        }
        self.after_steps(n).lemma_signal_kept(i);
    }

    /// A sweep that hands out `j` leaves every other task signalled that
    /// was signalled and could be polled.
    proof fn lemma_signal_after_hit(v: LevelView, c: CursorView, i: usize, j: usize)
        requires
            v.wf(),
            v.admits(c),
            v.first_candidate(c, j),
            j != i,
            v.pollable(i),
            (CollectionView { cpu_id: 0, level: v, cursor: c }).signalled(i),
        ensures
            (CollectionView {
                cpu_id: 0,
                level: v.swept(c, j as int / 64, j as int / 64 + 1),
                cursor: v.cursor_at(c, j),
            }).signalled(i),
    {
        let q = j as int / 64;
        let after = v.swept(c, q, q + 1);
        let carried = c.started && i as int / 64 == c.page && c.pending.contains(i as int % 64);
        if v.candidate(c, i) {
            assert(j < i);
        }
    }
}

impl RuntimeView {
    /// The place that `first_live` gives lies at or after `from`, holds an
    /// executor that is not killed if it lies in the list, and no place
    /// between the two holds one.
    pub proof fn lemma_first_live(self, from: int)
        requires
            0 <= from,
        ensures
            from <= self.first_live(from) || self.first_live(from) == self.weak.len(),
            self.first_live(from) <= self.weak.len(),
            self.first_live(from) < self.weak.len() ==> self.weak[self.first_live(from)].state
                != ExecutorState::KILLED,
            forall|k: int|
                from <= k < self.first_live(from) ==> (#[trigger] self.weak[k]).state
                    == ExecutorState::KILLED,
        decreases self.weak.len() - from,
    {
        if from < self.weak.len() && self.weak[from].state == ExecutorState::KILLED {
            self.lemma_first_live(from + 1);
        }
    }

    /// The executors that stay when the killed ones leave the list are
    /// weak.
    pub proof fn lemma_live_are_weak(self)
        requires
            self.wf(),
        ensures
            forall|i: int|
                0 <= i < self.live_weak().len() ==> (#[trigger] self.live_weak()[i]).state
                    == ExecutorState::WEAK,
    {
        assert forall|i: int| 0 <= i < self.live_weak().len() implies (
        #[trigger] self.live_weak()[i]).state == ExecutorState::WEAK by {
            let e = self.live_weak()[i];
            self.weak.lemma_filter_pred(Self::is_live(), i);
            assert(self.live_weak().contains(e));
            self.weak.lemma_filter_contains_rev(Self::is_live(), e);
        }
    }

    /// A step of the round keeps the invariant of the runtime.
    pub proof fn lemma_step_wf(self, exit_when_idle: bool)
        requires
            self.wf(),
        ensures
            self.step(exit_when_idle).0.wf(),
    {
        let idle = RuntimeView { current: Current::Idle, ..self };
        let pruned = RuntimeView { weak: self.live_weak(), ..idle };
        self.lemma_live_are_weak();
        pruned.lemma_first_live(0);
        match self.phase {
            Phase::WeakRan(i) => {
                idle.lemma_first_live(i + 1);
            },
            _ => {},
        }
    }

    /// A killed executor never runs again: the executor to which a step of
    /// the round switches is the strong executor or a weak executor that
    /// is weak still, with its one poll to end.
    pub proof fn lemma_killed_never_runs(self, exit_when_idle: bool)
        requires
            self.wf(),
        ensures
            self.step(exit_when_idle).1 is Switch ==> match self.step(exit_when_idle).0.current {
                Current::Idle => false,
                Current::Strong => true,
                Current::Weak(i) => self.step(exit_when_idle).0.weak[i as int].state
                    == ExecutorState::WEAK,
            },
    {
        let idle = RuntimeView { current: Current::Idle, ..self };
        let pruned = RuntimeView { weak: self.live_weak(), ..idle };
        self.lemma_live_are_weak();
        pruned.lemma_first_live(0);
        match self.phase {
            Phase::WeakRan(i) => {
                idle.lemma_first_live(i + 1);
                let k = idle.first_live(i + 1);
                if k < idle.weak.len() {
                    assert(idle.weak[k].state == ExecutorState::WEAK);
                }
            },
            Phase::StrongRan => {
                let k = pruned.first_live(0);
                if k < pruned.weak.len() {
                    assert(pruned.weak[k].state == ExecutorState::WEAK);
                }
            },
            Phase::Start => {},
        }
    }

    /// The killed executors leave the list when the weak executors get
    /// their turns: after the step that follows the turn of the strong
    /// executor, where the round goes on and the strong executor was not
    /// preempted, no executor in the list is killed, and those that stay
    /// keep their order.
    pub proof fn lemma_killed_are_pruned(self, exit_when_idle: bool)
        requires
            self.wf(),
            self.phase == Phase::StrongRan,
            !(exit_when_idle && self.tasks.task_num() == 0),
            self.strong.task_id == 0,
        ensures
            self.step(exit_when_idle).0.weak == self.live_weak(),
            forall|i: int|
                0 <= i < self.live_weak().len() ==> (#[trigger] self.live_weak()[i]).state
                    == ExecutorState::WEAK,
    {
        self.lemma_live_are_weak();
        if self.weak.len() == 0 {
            reveal(Seq::filter);
            assert(self.live_weak() =~= self.weak);
        }
    }

    /// A preempted strong executor becomes the last of the weak
    /// executors, marked weak and still in its poll, and the executor that
    /// the host hands over is the strong executor from then on.
    pub proof fn lemma_demoted_is_weak(self, fresh: Executor)
        requires
            self.wf(),
            self.weak.len() < usize::MAX,
        ensures
            self.demote(fresh).wf(),
            self.demote(fresh).strong == fresh,
            self.demote(fresh).weak.len() == self.weak.len() + 1,
            self.demote(fresh).weak.last() == (Executor {
                state: ExecutorState::WEAK,
                ..self.strong
            }),
            self.demote(fresh).step(false).1 == (RuntimeAction::Switch {
                executor: fresh.id,
                from: self.context,
                to: fresh.context@,
            }),
    {
    }
}

} // verus!
