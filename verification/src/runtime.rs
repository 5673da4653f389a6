//! The runtime of one CPU: its tasks, its strong executor, the weak
//! executors that were preempted, and the turn-taking between them.
//!
//! The runtime is a state machine. The host runs the loop around it:
//! `run_until_idle` says to which executor to switch next, the host
//! switches stacks, and calls it again when control comes back.

use crate::context::Context;
use crate::executor::{run_step, Executor, ExecutorState, RunStep};
use crate::key::{Key, DEFAULT_PRIORITY, MAX_PRIORITY};
use crate::future_collection::max_pages;
use crate::task::Task;
use crate::task_collection::{index_of, key_for, CollectionView, TaskCollection};
use crate::waker_page::{DroperRef, WakerRef};
use vstd::prelude::*;

verus! {

/// The executor to which the runtime has handed control.
#[derive(Debug, Clone, Copy, PartialEq, Eq, Structural)]
pub enum Current {
    /// None: the runtime itself runs.
    Idle,
    /// The strong executor.
    Strong,
    /// The weak executor at this place in the list.
    Weak(usize),
}

/// Where the runtime stands in its round.
#[derive(Debug, Clone, Copy, PartialEq, Eq, Structural)]
pub enum Phase {
    /// The strong executor is next.
    Start,
    /// The strong executor has had its turn.
    StrongRan,
    /// The weak executor at this place in the list has had its turn.
    WeakRan(usize),
}

/// What the host does next for the runtime.
#[derive(Debug, Clone, Copy, PartialEq, Eq, Structural)]
pub enum RuntimeAction {
    /// Switch from the runtime, whose registers are saved at `from`, to the
    /// executor `executor`, whose registers are saved at `to`.
    Switch { executor: usize, from: usize, to: usize },
    /// The strong executor was preempted in a poll: make a new executor
    /// and hand it over with `downgrade_strong_executor`.
    Demote,
    /// No task is left: return from the loop.
    Exit,
}

/// A pair of saved contexts to switch between.
#[derive(Debug, Clone, Copy, PartialEq, Eq, Structural)]
pub struct Switch {
    /// Where the registers of the side that stops are saved.
    pub from: usize,
    /// Where the registers of the side that resumes are saved.
    pub to: usize,
}

/// What a runtime holds.
#[verifier::ext_equal]
pub struct RuntimeView {
    pub cpu_id: u8,
    pub tasks: CollectionView,
    pub strong: Executor,
    pub weak: Seq<Executor>,
    pub current: Current,
    pub phase: Phase,
    /// Where the registers of the runtime are saved.
    pub context: usize,
}

impl RuntimeView {
    /// The invariant: the tasks are sound; the weak executor that is named
    /// as current, or as the last to have had its turn, is in the list;
    /// and every executor in the list is weak, or killed once its poll has
    /// ended.
    pub open spec fn wf(self) -> bool {
        &&& self.tasks.wf()
        &&& self.weak.len() <= usize::MAX
        &&& self.current matches Current::Weak(i) ==> i < self.weak.len()
        &&& self.phase matches Phase::WeakRan(i) ==> i < self.weak.len()
        &&& forall|i: int|
            0 <= i < self.weak.len() ==> {
                ||| (#[trigger] self.weak[i]).state == ExecutorState::WEAK
                ||| self.weak[i].state == ExecutorState::KILLED
            }
    }

    /// The executor to which the runtime has handed control.
    pub open spec fn current_executor(self) -> Option<Executor> {
        match self.current {
            Current::Idle => None,
            Current::Strong => Some(self.strong),
            Current::Weak(i) => Some(self.weak[i as int]),
        }
    }

    /// The runtime with the strong executor next, and the switch to it.
    pub open spec fn dispatch_strong(self) -> (RuntimeView, RuntimeAction) {
        (
            RuntimeView { current: Current::Strong, phase: Phase::StrongRan, ..self },
            RuntimeAction::Switch {
                executor: self.strong.id,
                from: self.context,
                to: self.strong.context@,
            },
        )
    }

    /// The place of the first weak executor at or after `from` that is
    /// not killed, or the length of the list.
    pub open spec fn first_live(self, from: int) -> int
        decreases self.weak.len() - from,
    {
        if from < 0 || from >= self.weak.len() {
            self.weak.len() as int
        } else if self.weak[from].state != ExecutorState::KILLED {
            from
        } else {
            self.first_live(from + 1)
        }
    }

    /// The runtime with the next weak executor at or after `from` that is
    /// not killed as current, and the switch to it; with the strong
    /// executor where no such weak executor is left.
    pub open spec fn dispatch_weak(self, from: int) -> (RuntimeView, RuntimeAction) {
        let i = self.first_live(from);
        if i < self.weak.len() {
            (
                RuntimeView {
                    current: Current::Weak(i as usize),
                    phase: Phase::WeakRan(i as usize),
                    ..self
                },
                RuntimeAction::Switch {
                    executor: self.weak[i].id,
                    from: self.context,
                    to: self.weak[i].context@,
                },
            )
        } else {
            self.dispatch_strong()
        }
    }

    /// Whether an executor is not killed.
    pub open spec fn is_live() -> spec_fn(Executor) -> bool {
        |e: Executor| e.state != ExecutorState::KILLED
    }

    /// The weak executors that are not killed, in their order.
    pub open spec fn live_weak(self) -> Seq<Executor> {
        self.weak.filter(Self::is_live())
    }

    /// One step of the round of the runtime, taken when control is with
    /// the runtime. The strong executor comes first. When it hands control
    /// back, the round ends if no task is left and the runtime is to
    /// return then; the strong executor is demoted if it was preempted in
    /// a poll; else the killed weak executors leave the list, and each of
    /// the others gets a turn, in order, before the strong executor comes
    /// again.
    pub open spec fn step(self, exit_when_idle: bool) -> (RuntimeView, RuntimeAction) {
        let idle = RuntimeView { current: Current::Idle, ..self };
        match self.phase {
            Phase::Start => self.dispatch_strong(),
            Phase::StrongRan => {
                if exit_when_idle && self.tasks.task_num() == 0 {
                    (RuntimeView { phase: Phase::Start, ..idle }, RuntimeAction::Exit)
                } else if self.strong.task_id != 0 {
                    (idle, RuntimeAction::Demote)
                } else if self.weak.len() == 0 {
                    idle.dispatch_strong()
                } else {
                    (RuntimeView { weak: self.live_weak(), ..idle }).dispatch_weak(0)
                }
            },
            Phase::WeakRan(i) => idle.dispatch_weak(i + 1),
        }
    }

    /// The runtime with `executor` in the place of the current executor.
    pub open spec fn with_current(self, executor: Executor) -> RuntimeView {
        match self.current {
            Current::Idle => self,
            Current::Strong => RuntimeView { strong: executor, ..self },
            Current::Weak(i) => RuntimeView { weak: self.weak.update(i as int, executor), ..self },
        }
    }

    /// The runtime after the strong executor was demoted and `fresh` has
    /// taken its place: the old one is the last of the weak executors.
    pub open spec fn demote(self, fresh: Executor) -> RuntimeView {
        RuntimeView {
            strong: fresh,
            weak: self.weak.push(Executor { state: ExecutorState::WEAK, ..self.strong }),
            phase: Phase::Start,
            ..self
        }
    }
}

/// The runtime of one CPU.
pub struct ExecutorRuntime {
    /// The CPU on which the runtime runs.
    cpu_id: u8,
    /// The tasks of the CPU.
    task_collection: TaskCollection,
    /// The executor that polls task after task.
    strong_executor: Executor,
    /// The executors that were preempted; each ends its poll and leaves.
    weak_executors: Vec<Executor>,
    /// The executor to which control was handed.
    current_executor: Current,
    /// Where the round stands.
    phase: Phase,
    /// Where the registers of the runtime are saved.
    context: Context,
}

impl View for ExecutorRuntime {
    type V = RuntimeView;

    closed spec fn view(&self) -> RuntimeView {
        RuntimeView {
            cpu_id: self.cpu_id,
            tasks: self.task_collection@,
            strong: self.strong_executor,
            weak: self.weak_executors@,
            current: self.current_executor,
            phase: self.phase,
            context: self.context@,
        }
    }
}

impl ExecutorRuntime {
    /// What the view does not show of the tasks.
    pub closed spec fn tasks_wf(&self) -> bool {
        self.task_collection.wf()
    }

    /// The invariant of the runtime.
    pub open spec fn wf(&self) -> bool {
        self@.wf() && self.tasks_wf()
    }

    /// A runtime for the CPU `cpu_id` with the strong executor `strong`,
    /// no weak executors and no tasks.
    pub fn new(cpu_id: u8, strong: Executor) -> (runtime: Self)
        ensures
            runtime.wf(),
            runtime@.cpu_id == cpu_id,
            runtime@.tasks.cpu_id == cpu_id,
            runtime@.tasks.task_num() == 0,
            runtime@.strong == strong,
            runtime@.weak == Seq::<Executor>::empty(),
            runtime@.current == Current::Idle,
            runtime@.phase == Phase::Start,
            runtime@.context == 0,
    {
        ExecutorRuntime {
            cpu_id,
            task_collection: TaskCollection::new(cpu_id),
            strong_executor: strong,
            weak_executors: Vec::new(),
            current_executor: Current::Idle,
            phase: Phase::Start,
            context: Context::default(),
        }
    }

    /// The CPU on which the runtime runs.
    pub fn cpu_id(&self) -> (cpu_id: u8)
        ensures
            cpu_id == self@.cpu_id,
    {
        self.cpu_id
    }

    /// The number of weak executors.
    pub fn weak_executor_num(&self) -> (n: usize)
        ensures
            n == self@.weak.len(),
    {
        self.weak_executors.len()
    }

    /// The number of tasks of the CPU.
    pub fn task_num(&self) -> (n: usize)
        requires
            self.wf(),
        ensures
            n == self@.tasks.task_num(),
    {
        self.task_collection.task_num()
    }

    /// The strong executor.
    pub fn strong_executor(&self) -> (executor: Executor)
        ensures
            executor == self@.strong,
    {
        self.strong_executor
    }

    /// The weak executor at the place `i` of the list, if there is one.
    pub fn weak_executor(&self, i: usize) -> (executor: Option<Executor>)
        ensures
            executor == if i < self@.weak.len() {
                Some(self@.weak[i as int])
            } else {
                None
            },
    {
        if i < self.weak_executors.len() {
            Some(self.weak_executors[i])
        } else {
            None
        }
    }

    /// The executor to which control was handed.
    pub fn current(&self) -> (current: Current)
        ensures
            current == self@.current,
    {
        self.current_executor
    }

    /// The task that `key` names, if it names one.
    pub fn get_task(&mut self, key: Key) -> (r: Option<Task>)
        requires
            old(self).wf(),
        ensures
            final(self).wf(),
            final(self)@ == old(self)@,
            r == old(self)@.tasks.task(key),
    {
        self.task_collection.get(key)
    }

    /// Adds a weak executor at the end of the list.
    fn add_weak_executor(&mut self, weak_executor: Executor)
        requires
            weak_executor.state == ExecutorState::WEAK,
        ensures
            final(self)@ == (RuntimeView {
                weak: old(self)@.weak.push(weak_executor),
                ..old(self)@
            }),
            old(self).wf() ==> final(self).wf(),
    {
        self.weak_executors.push(weak_executor);
        assert(self.weak_executors.len() <= usize::MAX);
    }

    /// Demotes the strong executor, which was preempted in a poll: it is
    /// marked weak and put at the end of the list, `fresh` takes its place,
    /// and the round starts again.
    pub fn downgrade_strong_executor(&mut self, fresh: Executor)
        ensures
            final(self)@ == old(self)@.demote(fresh),
            old(self).wf() ==> final(self).wf(),
    {
        let mut old_strong = self.strong_executor;
        old_strong.mark_weak();
        self.add_weak_executor(old_strong);
        self.strong_executor = fresh;
        self.phase = Phase::Start;
    }

    /// Stores a new task with the number `id`, woken, and returns its key.
    /// The task goes to the priority level in use, whatever `priority`
    /// says. Only a runtime whose level has as many pages as it can have
    /// takes no task.
    pub fn add_task(&mut self, priority: usize, id: usize) -> (r: Option<Key>)
        requires
            old(self).wf(),
            priority < MAX_PRIORITY,
        ensures
            final(self).wf(),
            final(self)@ == (RuntimeView { tasks: final(self)@.tasks, ..old(self)@ }),
            final(self)@.tasks.cursor == old(self)@.tasks.cursor,
            final(self)@.tasks.cpu_id == old(self)@.tasks.cpu_id,
            r is Some <==> old(self)@.tasks.level.pages.len() < max_pages(),
            r is None ==> final(self)@ == old(self)@,
            r matches Some(key) ==> exists|i: usize|
                {
                    &&& key == #[trigger] key_for(i)
                    &&& index_of(key) == Some(i)
                    &&& !old(self)@.tasks.level.tasks.contains_key(i)
                    &&& i <= 64 * old(self)@.tasks.level.pages.len()
                    &&& final(self)@.tasks.level == old(self)@.tasks.level.insert(
                        i,
                        Task::new_spec(id, DEFAULT_PRIORITY),
                    )
                },
    {
        self.task_collection.add_task(id)
    }

    /// Frees the slot that `key` names, with the task that lives there.
    pub fn remove_task(&mut self, key: Key)
        requires
            old(self).wf(),
        ensures
            final(self).wf(),
            final(self)@ == (RuntimeView { tasks: old(self)@.tasks.remove(key), ..old(self)@ }),
    {
        self.task_collection.remove_task(key);
    }

    /// Wakes the task that `waker` names, unless it has completed.
    pub fn wake(&mut self, waker: &WakerRef)
        requires
            old(self).wf(),
        ensures
            final(self).wf(),
            final(self)@ == (RuntimeView {
                tasks: old(self)@.tasks.wake(waker.key, waker.task_id),
                ..old(self)@
            }),
    {
        waker.wake_by_ref(&mut self.task_collection);
    }

    /// Records whether the poll of the task that `waker` names ended with
    /// interrupts enabled.
    pub fn set_intr_enable(&mut self, waker: &WakerRef, enabled: bool)
        requires
            old(self).wf(),
        ensures
            final(self).wf(),
            final(self)@ == (RuntimeView {
                tasks: old(self)@.tasks.set_intr_enable(waker.key, waker.task_id, enabled),
                ..old(self)@
            }),
    {
        self.task_collection.set_intr_enable(waker.key, waker.task_id, enabled);
    }

    /// Where the registers of the runtime are saved.
    pub fn get_context(&self) -> (addr: usize)
        ensures
            addr == self@.context,
    {
        self.context.get_context()
    }

    /// Tells the runtime where its registers are saved.
    pub fn set_context(&mut self, addr: usize)
        ensures
            final(self)@ == (RuntimeView { context: addr, ..old(self)@ }),
            old(self).wf() ==> final(self).wf(),
    {
        self.context.set_context(addr);
    }

    /// Hands control to the strong executor.
    fn dispatch_strong(&mut self) -> (action: RuntimeAction)
        requires
            old(self).wf(),
        ensures
            final(self).wf(),
            final(self)@ == old(self)@.dispatch_strong().0,
            action == old(self)@.dispatch_strong().1,
    {
        self.current_executor = Current::Strong;
        self.phase = Phase::StrongRan;
        RuntimeAction::Switch {
            executor: self.strong_executor.id(),
            from: self.context.get_context(),
            to: self.strong_executor.context.get_context(),
        }
    }

    /// Hands control to the first weak executor at or after `from` that
    /// is not killed, or to the strong executor where there is none.
    fn dispatch_weak(&mut self, from: usize) -> (action: RuntimeAction)
        requires
            old(self).wf(),
            from <= old(self)@.weak.len(),
        ensures
            final(self).wf(),
            final(self)@ == old(self)@.dispatch_weak(from as int).0,
            action == old(self)@.dispatch_weak(from as int).1,
    {
        let mut i = from;
        while i < self.weak_executors.len()
            invariant
                self.wf(),
                *self == *old(self),
                from <= i <= self@.weak.len(),
                self@.first_live(from as int) == self@.first_live(i as int),
            decreases self@.weak.len() - i,
        {
            if !self.weak_executors[i].killed() {
                self.current_executor = Current::Weak(i);
                self.phase = Phase::WeakRan(i);
                return RuntimeAction::Switch {
                    executor: self.weak_executors[i].id(),
                    from: self.context.get_context(),
                    to: self.weak_executors[i].context.get_context(),
                };
            }
            i = i + 1;
        }
        self.dispatch_strong()
    }

    /// Takes the killed executors out of the list of weak executors.
    fn prune(&mut self)
        requires
            old(self).wf(),
            old(self)@.current == Current::Idle,
            old(self)@.phase == Phase::StrongRan,
        ensures
            final(self).wf(),
            final(self)@ == (RuntimeView { weak: old(self)@.live_weak(), ..old(self)@ }),
    {
        let ghost all = self.weak_executors@;
        let ghost live = RuntimeView::is_live();
        let mut kept: Vec<Executor> = Vec::new();
        let mut i: usize = 0;
        proof {
            reveal(Seq::filter);
        }
        while i < self.weak_executors.len()
            invariant
                i <= all.len(),
                self.weak_executors@ == all,
                live == RuntimeView::is_live(),
                kept@ == all.take(i as int).filter(live),
                forall|j: int|
                    0 <= j < all.len() ==> {
                        ||| (#[trigger] all[j]).state == ExecutorState::WEAK
                        ||| all[j].state == ExecutorState::KILLED
                    },
                forall|j: int|
                    0 <= j < kept@.len() ==> (#[trigger] kept@[j]).state == ExecutorState::WEAK,
            decreases all.len() - i,
        {
            let executor = self.weak_executors[i];
            proof {
                reveal(Seq::filter);
                assert(all.take(i + 1).drop_last() =~= all.take(i as int));
                assert(all.take(i + 1).last() == executor);
            }
            if !executor.killed() {
                kept.push(executor);
            }
            i = i + 1;
        }
        proof {
            assert(all.take(all.len() as int) =~= all);
        }
        self.weak_executors = kept;
    }

    /// Takes the current executor to its next step: see `Executor::run`.
    /// Where control is with the runtime there is no executor to step,
    /// and the step is to yield.
    pub fn run_current(&mut self, exit_when_idle: bool) -> (step: RunStep)
        requires
            old(self).wf(),
        ensures
            final(self).wf(),
            match old(self)@.current_executor() {
                Some(executor) => {
                    &&& final(self)@ == (RuntimeView {
                        tasks: old(self)@.tasks.next(),
                        ..old(self)@
                    }).with_current(executor.after_run(old(self)@.tasks))
                    &&& step == run_step(old(self)@.tasks, old(self)@.weak.len(), exit_when_idle)
                },
                None => final(self)@ == old(self)@ && step == RunStep::Yield,
            },
    {
        let weak = self.weak_executors.len();
        match self.current_executor {
            Current::Idle => RunStep::Yield,
            Current::Strong => self.strong_executor.run(
                &mut self.task_collection,
                weak,
                exit_when_idle,
            ),
            Current::Weak(i) => {
                let mut executor = self.weak_executors[i];
                let step = executor.run(&mut self.task_collection, weak, exit_when_idle);
                self.weak_executors.set(i, executor);
                step
            },
        }
    }

    /// Takes in the end of the poll of the current executor: see
    /// `Executor::end_poll`. The result tells whether the executor stops,
    /// which is to hand control to the runtime for good.
    pub fn end_poll_current(&mut self, droper: &DroperRef, ready: bool) -> (stop: bool)
        requires
            old(self).wf(),
        ensures
            final(self).wf(),
            match old(self)@.current_executor() {
                Some(executor) => {
                    &&& final(self)@ == (RuntimeView {
                        tasks: if ready {
                            old(self)@.tasks.finish(droper.key, droper.task_id)
                        } else {
                            old(self)@.tasks
                        },
                        ..old(self)@
                    }).with_current(executor.after_poll())
                    &&& stop == (executor.state == ExecutorState::WEAK)
                },
                None => final(self)@ == old(self)@ && !stop,
            },
    {
        match self.current_executor {
            Current::Idle => false,
            Current::Strong => {
                self.strong_executor.end_poll(&mut self.task_collection, droper, ready)
            },
            Current::Weak(i) => {
                let mut executor = self.weak_executors[i];
                let stop = executor.end_poll(&mut self.task_collection, droper, ready);
                self.weak_executors.set(i, executor);
                stop
            },
        }
    }
}

/// One step of the round of `runtime`: what the host does next. The host
/// calls this when the loop starts and whenever control comes back to the
/// runtime; `exit_when_idle` says whether the loop is to end once no task
/// is left.
pub fn run_until_idle(runtime: &mut ExecutorRuntime, exit_when_idle: bool) -> (action:
    RuntimeAction)
    requires
        old(runtime).wf(),
    ensures
        final(runtime).wf(),
        final(runtime)@ == old(runtime)@.step(exit_when_idle).0,
        action == old(runtime)@.step(exit_when_idle).1,
{
    match runtime.phase {
        Phase::Start => runtime.dispatch_strong(),
        Phase::StrongRan => {
            runtime.current_executor = Current::Idle;
            if exit_when_idle && runtime.task_num() == 0 {
                runtime.phase = Phase::Start;
                RuntimeAction::Exit
            } else if runtime.strong_executor.is_running_future() {
                RuntimeAction::Demote
            } else if runtime.weak_executors.len() == 0 {
                runtime.dispatch_strong()
            } else {
                runtime.prune();
                runtime.dispatch_weak(0)
            }
        },
        Phase::WeakRan(i) => {
            let n = runtime.weak_executors.len();
            assert(i < n);
            runtime.current_executor = Current::Idle;
            runtime.dispatch_weak(i + 1)
        },
    }
}

/// The runtime that takes a new task: the one of the CPU `cpu_id` where
/// one is named, else the first of those with the fewest tasks.
/// `task_nums` holds the number of tasks of each runtime.
pub fn select_runtime(task_nums: &Vec<usize>, cpu_id: Option<usize>) -> (chosen: usize)
    requires
        task_nums@.len() > 0,
        cpu_id matches Some(cpu) ==> cpu < task_nums@.len(),
    ensures
        chosen < task_nums@.len(),
        cpu_id matches Some(cpu) ==> chosen == cpu,
        cpu_id is None ==> {
            &&& forall|j: int|
                0 <= j < task_nums@.len() ==> task_nums@[chosen as int] <= task_nums@[j]
            &&& forall|j: int| 0 <= j < chosen ==> task_nums@[chosen as int] < task_nums@[j]
        },
{
    match cpu_id {
        Some(cpu) => cpu,
        None => {
            let mut chosen: usize = 0;
            let mut j: usize = 1;
            while j < task_nums.len()
                invariant
                    chosen < j <= task_nums@.len(),
                    forall|k: int| 0 <= k < j ==> task_nums@[chosen as int] <= task_nums@[k],
                    forall|k: int| 0 <= k < chosen ==> task_nums@[chosen as int] < task_nums@[k],
                decreases task_nums@.len() - j,
            {
                if task_nums[j] < task_nums[chosen] {
                    chosen = j;
                }
                j = j + 1;
            }
            chosen
        },
    }
}

/// Spawns the task with the number `id` on `runtime`, at `priority` or,
/// where none is given, at the priority level in use. Returns the key of
/// the task; only a runtime that is full takes no task.
pub fn spawn_task(runtime: &mut ExecutorRuntime, id: usize, priority: Option<usize>) -> (r: Option<
    Key,
>)
    requires
        old(runtime).wf(),
        priority matches Some(p) ==> p < MAX_PRIORITY,
    ensures
        final(runtime).wf(),
        final(runtime)@ == (RuntimeView { tasks: final(runtime)@.tasks, ..old(runtime)@ }),
        final(runtime)@.tasks.cursor == old(runtime)@.tasks.cursor,
        final(runtime)@.tasks.cpu_id == old(runtime)@.tasks.cpu_id,
        r is Some <==> old(runtime)@.tasks.level.pages.len() < max_pages(),
        r is None ==> final(runtime)@ == old(runtime)@,
        r matches Some(key) ==> exists|i: usize|
            {
                &&& key == #[trigger] key_for(i)
                &&& index_of(key) == Some(i)
                &&& !old(runtime)@.tasks.level.tasks.contains_key(i)
                &&& i <= 64 * old(runtime)@.tasks.level.pages.len()
                &&& final(runtime)@.tasks.level == old(runtime)@.tasks.level.insert(
                    i,
                    Task::new_spec(id, DEFAULT_PRIORITY),
                )
            },
{
    let priority = match priority {
        Some(p) => p,
        None => DEFAULT_PRIORITY,
    };
    runtime.add_task(priority, id)
}

/// Spawns the task with the number `id` on `runtime`, the runtime of the
/// CPU that spawns it.
pub fn spawn(runtime: &mut ExecutorRuntime, id: usize) -> (r: Option<Key>)
    requires
        old(runtime).wf(),
    ensures
        final(runtime).wf(),
        final(runtime)@ == (RuntimeView { tasks: final(runtime)@.tasks, ..old(runtime)@ }),
        final(runtime)@.tasks.cursor == old(runtime)@.tasks.cursor,
        final(runtime)@.tasks.cpu_id == old(runtime)@.tasks.cpu_id,
        r is Some <==> old(runtime)@.tasks.level.pages.len() < max_pages(),
        r is None ==> final(runtime)@ == old(runtime)@,
        r matches Some(key) ==> exists|i: usize|
            {
                &&& key == #[trigger] key_for(i)
                &&& index_of(key) == Some(i)
                &&& !old(runtime)@.tasks.level.tasks.contains_key(i)
                &&& i <= 64 * old(runtime)@.tasks.level.pages.len()
                &&& final(runtime)@.tasks.level == old(runtime)@.tasks.level.insert(
                    i,
                    Task::new_spec(id, DEFAULT_PRIORITY),
                )
            },
{
    spawn_task(runtime, id, None)
}

/// The switch by which the current executor of `runtime` hands control
/// back to the runtime. There is none where control is with the runtime.
pub fn sched_yield(runtime: &ExecutorRuntime) -> (switch: Option<Switch>)
    requires
        runtime.wf(),
    ensures
        switch == match runtime@.current_executor() {
            Some(executor) => Some(Switch { from: executor.context@, to: runtime@.context }),
            None => None,
        },
{
    match runtime.current_executor {
        Current::Idle => None,
        Current::Strong => Some(
            Switch {
                from: runtime.strong_executor.context.get_context(),
                to: runtime.context.get_context(),
            },
        ),
        Current::Weak(i) => Some(
            Switch {
                from: runtime.weak_executors[i].context.get_context(),
                to: runtime.context.get_context(),
            },
        ),
    }
}

/// The switch by which a timer interrupt takes control from the current
/// executor of `runtime`: the one of `sched_yield`, and only where the
/// executor is in a poll.
pub fn handle_timeout(runtime: &ExecutorRuntime) -> (switch: Option<Switch>)
    requires
        runtime.wf(),
    ensures
        switch == match runtime@.current_executor() {
            Some(executor) => if executor.task_id != 0 {
                Some(Switch { from: executor.context@, to: runtime@.context })
            } else {
                None
            },
            None => None,
        },
{
    let (_, task_id) = get_current_executor_id(runtime);
    if task_id != 0 {
        sched_yield(runtime)
    } else {
        None
    }
}

/// The number of the current executor of `runtime` and of the task that
/// it polls; zeros where control is with the runtime.
pub fn get_current_executor_id(runtime: &ExecutorRuntime) -> (ids: (usize, usize))
    requires
        runtime.wf(),
    ensures
        ids == match runtime@.current_executor() {
            Some(executor) => (executor.id, executor.task_id),
            None => (0usize, 0usize),
        },
{
    match runtime.current_executor {
        Current::Idle => (0, 0),
        Current::Strong => (runtime.strong_executor.id(), runtime.strong_executor.task_id()),
        Current::Weak(i) => (runtime.weak_executors[i].id(), runtime.weak_executors[i].task_id()),
    }
}

} // verus!
