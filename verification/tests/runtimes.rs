use preemptive_scheduler::executor::{Executor, ExecutorState, RunStep};
use preemptive_scheduler::key::pack_key;
use preemptive_scheduler::runtime::{
    get_current_executor_id, handle_timeout, run_until_idle, sched_yield, select_runtime, spawn,
    spawn_task, Current, ExecutorRuntime, RuntimeAction, Switch,
};
use preemptive_scheduler::waker_page::WakerRef;

fn executor(id: usize, context: usize) -> Executor {
    let mut executor = Executor::new(id, 0x1000 * id);
    executor.context.set_context(context);
    executor
}

fn runtime() -> ExecutorRuntime {
    let mut runtime = ExecutorRuntime::new(0, executor(1, 0x100));
    runtime.set_context(0x900);
    runtime
}

fn poll(runtime: &mut ExecutorRuntime, exit_when_idle: bool) -> (usize, WakerRef) {
    match runtime.run_current(exit_when_idle) {
        RunStep::Poll { task, waker, droper, .. } => {
            assert_eq!(waker.task_id, task.id);
            assert_eq!(droper.task_id, task.id);
            (task.id, waker)
        }
        RunStep::Yield => panic!("the executor yields"),
        RunStep::WaitForInterrupt => panic!("the executor waits"),
    }
}

#[test]
fn new_runtime_is_idle() {
    let mut runtime = ExecutorRuntime::new(2, executor(1, 0x100));
    assert_eq!(runtime.cpu_id(), 2);
    assert_eq!(runtime.task_num(), 0);
    assert_eq!(runtime.weak_executor_num(), 0);
    assert_eq!(runtime.get_context(), 0);
    assert_eq!(runtime.current(), Current::Idle);
    assert_eq!(runtime.strong_executor().id(), 1);
    assert!(runtime.weak_executor(0).is_none());
    assert_eq!(get_current_executor_id(&runtime), (0, 0));
    assert_eq!(sched_yield(&runtime), None);
    assert_eq!(handle_timeout(&runtime), None);
    assert!(matches!(runtime.run_current(false), RunStep::Yield));
    let waker = WakerRef { key: 0, task_id: 0 };
    assert!(!runtime.end_poll_current(&waker, true));
}

#[test]
fn task_that_is_ready_at_once_is_polled_once() {
    let mut runtime = runtime();
    assert_eq!(spawn(&mut runtime, 10), Some(pack_key(4, 0, 0)));
    assert_eq!(runtime.task_num(), 1);
    assert_eq!(
        run_until_idle(&mut runtime, true),
        RuntimeAction::Switch { executor: 1, from: 0x900, to: 0x100 }
    );
    assert_eq!(runtime.current(), Current::Strong);
    let (id, waker) = poll(&mut runtime, true);
    assert_eq!(id, 10);
    assert_eq!(get_current_executor_id(&runtime), (1, 10));
    assert!(!runtime.end_poll_current(&waker, true));
    assert_eq!(get_current_executor_id(&runtime), (1, 0));
    assert!(matches!(runtime.run_current(true), RunStep::Yield));
    assert_eq!(runtime.task_num(), 0);
    assert_eq!(sched_yield(&runtime), Some(Switch { from: 0x100, to: 0x900 }));
    assert_eq!(run_until_idle(&mut runtime, true), RuntimeAction::Exit);
    assert_eq!(runtime.current(), Current::Idle);
    assert_eq!(runtime.task_num(), 0);
}

#[test]
fn task_that_yields_is_polled_again() {
    let mut runtime = runtime();
    spawn(&mut runtime, 10);
    run_until_idle(&mut runtime, true);
    let (id, waker) = poll(&mut runtime, true);
    assert_eq!(id, 10);
    runtime.wake(&waker);
    assert!(!runtime.end_poll_current(&waker, false));
    let (id, waker) = poll(&mut runtime, true);
    assert_eq!(id, 10);
    assert!(!runtime.end_poll_current(&waker, true));
    assert!(matches!(runtime.run_current(true), RunStep::Yield));
    assert_eq!(run_until_idle(&mut runtime, true), RuntimeAction::Exit);
}

#[test]
fn task_that_sleeps_keeps_the_runtime_waiting() {
    let mut runtime = runtime();
    spawn(&mut runtime, 10);
    run_until_idle(&mut runtime, true);
    let (_, waker) = poll(&mut runtime, true);
    assert!(!runtime.end_poll_current(&waker, false));
    assert!(matches!(runtime.run_current(true), RunStep::WaitForInterrupt));
    assert!(matches!(runtime.run_current(true), RunStep::WaitForInterrupt));
    assert_eq!(runtime.task_num(), 1);
    runtime.wake(&waker);
    assert_eq!(poll(&mut runtime, true).0, 10);
}

#[test]
fn strong_executor_comes_again_after_it_yields() {
    let mut runtime = runtime();
    spawn(&mut runtime, 10);
    let first = run_until_idle(&mut runtime, false);
    assert_eq!(first, RuntimeAction::Switch { executor: 1, from: 0x900, to: 0x100 });
    assert_eq!(run_until_idle(&mut runtime, false), first);
    assert_eq!(run_until_idle(&mut runtime, false), first);
    assert_eq!(runtime.current(), Current::Strong);
}

#[test]
fn timeout_only_preempts_a_poll() {
    let mut runtime = runtime();
    spawn(&mut runtime, 10);
    run_until_idle(&mut runtime, false);
    assert_eq!(handle_timeout(&runtime), None);
    assert_eq!(sched_yield(&runtime), Some(Switch { from: 0x100, to: 0x900 }));
    poll(&mut runtime, false);
    assert_eq!(handle_timeout(&runtime), Some(Switch { from: 0x100, to: 0x900 }));
}

#[test]
fn preempted_executor_is_demoted_and_ends_its_poll_as_weak() {
    let mut runtime = runtime();
    spawn(&mut runtime, 10);
    run_until_idle(&mut runtime, true);
    let (_, first) = poll(&mut runtime, true);
    assert!(handle_timeout(&runtime).is_some());
    assert_eq!(spawn(&mut runtime, 11), Some(pack_key(4, 0, 1)));

    assert_eq!(run_until_idle(&mut runtime, true), RuntimeAction::Demote);
    assert_eq!(run_until_idle(&mut runtime, true), RuntimeAction::Demote);
    runtime.downgrade_strong_executor(executor(2, 0x200));
    assert_eq!(runtime.weak_executor_num(), 1);
    let weak = runtime.weak_executor(0).unwrap();
    assert_eq!((weak.id(), weak.task_id(), weak.state), (1, 10, ExecutorState::WEAK));
    assert_eq!(runtime.strong_executor().id(), 2);
    assert_eq!(runtime.strong_executor().state, ExecutorState::UNUSED);

    assert_eq!(
        run_until_idle(&mut runtime, true),
        RuntimeAction::Switch { executor: 2, from: 0x900, to: 0x200 }
    );
    let (id, second) = poll(&mut runtime, true);
    assert_eq!(id, 11);
    assert_eq!(get_current_executor_id(&runtime), (2, 11));
    assert!(!runtime.end_poll_current(&second, true));
    assert!(matches!(runtime.run_current(true), RunStep::Yield));
    assert_eq!(runtime.task_num(), 1);

    assert_eq!(
        run_until_idle(&mut runtime, true),
        RuntimeAction::Switch { executor: 1, from: 0x900, to: 0x100 }
    );
    assert_eq!(runtime.current(), Current::Weak(0));
    assert_eq!(get_current_executor_id(&runtime), (1, 10));
    assert_eq!(sched_yield(&runtime), Some(Switch { from: 0x100, to: 0x900 }));
    assert!(runtime.end_poll_current(&first, true));
    let weak = runtime.weak_executor(0).unwrap();
    assert_eq!((weak.task_id(), weak.state), (0, ExecutorState::KILLED));

    assert_eq!(
        run_until_idle(&mut runtime, true),
        RuntimeAction::Switch { executor: 2, from: 0x900, to: 0x200 }
    );
    assert_eq!(runtime.current(), Current::Strong);
    assert!(matches!(runtime.run_current(true), RunStep::Yield));
    assert_eq!(runtime.task_num(), 0);
    assert_eq!(run_until_idle(&mut runtime, true), RuntimeAction::Exit);
    assert_eq!(runtime.weak_executor_num(), 1);
}

#[test]
fn killed_weak_executors_leave_the_list() {
    let mut runtime = runtime();
    for id in 10..13 {
        spawn(&mut runtime, id);
    }
    run_until_idle(&mut runtime, false);
    let (_, first) = poll(&mut runtime, false);
    assert_eq!(run_until_idle(&mut runtime, false), RuntimeAction::Demote);
    runtime.downgrade_strong_executor(executor(2, 0x200));
    run_until_idle(&mut runtime, false);
    let (_, second) = poll(&mut runtime, false);
    assert_eq!(run_until_idle(&mut runtime, false), RuntimeAction::Demote);
    runtime.downgrade_strong_executor(executor(3, 0x300));
    assert_eq!(runtime.weak_executor_num(), 2);

    assert_eq!(
        run_until_idle(&mut runtime, false),
        RuntimeAction::Switch { executor: 3, from: 0x900, to: 0x300 }
    );
    assert_eq!(
        run_until_idle(&mut runtime, false),
        RuntimeAction::Switch { executor: 1, from: 0x900, to: 0x100 }
    );
    assert!(runtime.end_poll_current(&first, false));
    assert_eq!(
        run_until_idle(&mut runtime, false),
        RuntimeAction::Switch { executor: 2, from: 0x900, to: 0x200 }
    );
    assert_eq!(runtime.current(), Current::Weak(1));
    assert_eq!(
        run_until_idle(&mut runtime, false),
        RuntimeAction::Switch { executor: 3, from: 0x900, to: 0x300 }
    );
    assert_eq!(runtime.weak_executor_num(), 2);

    assert_eq!(
        run_until_idle(&mut runtime, false),
        RuntimeAction::Switch { executor: 2, from: 0x900, to: 0x200 }
    );
    assert_eq!(runtime.weak_executor_num(), 1);
    assert_eq!(runtime.current(), Current::Weak(0));
    assert_eq!(runtime.weak_executor(0).unwrap().id(), 2);
    assert!(runtime.end_poll_current(&second, true));
    assert_eq!(
        run_until_idle(&mut runtime, false),
        RuntimeAction::Switch { executor: 3, from: 0x900, to: 0x300 }
    );
    assert_eq!(
        run_until_idle(&mut runtime, false),
        RuntimeAction::Switch { executor: 3, from: 0x900, to: 0x300 }
    );
    assert_eq!(runtime.weak_executor_num(), 0);
}

#[test]
fn runtime_passes_on_to_its_tasks() {
    let mut runtime = runtime();
    let key = spawn_task(&mut runtime, 10, Some(7)).unwrap();
    assert_eq!(key, pack_key(4, 0, 0));
    let task = runtime.get_task(key).unwrap();
    assert_eq!((task.id, task.priority), (10, 4));
    assert_eq!(runtime.add_task(0, 11), Some(pack_key(4, 0, 1)));
    let waker = WakerRef { key, task_id: 10 };
    runtime.set_intr_enable(&waker, true);
    assert!(runtime.get_task(key).unwrap().intr_enable);
    runtime.remove_task(key);
    assert!(runtime.get_task(key).is_none());
    assert_eq!(runtime.task_num(), 1);
}

#[test]
fn new_task_goes_to_the_named_cpu_or_the_least_loaded() {
    assert_eq!(select_runtime(&vec![3, 1, 1, 5], None), 1);
    assert_eq!(select_runtime(&vec![3, 1, 1, 5], Some(3)), 3);
    assert_eq!(select_runtime(&vec![0], None), 0);
    assert_eq!(select_runtime(&vec![2, 2, 2], None), 0);
    assert_eq!(select_runtime(&vec![9, 8, 7, 6, 5], None), 4);
}

#[test]
fn entry_points_are_at_the_root() {
    let mut runtime = runtime();
    assert_eq!(preemptive_scheduler::spawn(&mut runtime, 10), Some(pack_key(4, 0, 0)));
    assert_eq!(
        preemptive_scheduler::run_until_idle(&mut runtime, false),
        RuntimeAction::Switch { executor: 1, from: 0x900, to: 0x100 }
    );
    assert_eq!(preemptive_scheduler::handle_timeout(&runtime), None);
    assert_eq!(
        preemptive_scheduler::sched_yield(&runtime),
        Some(Switch { from: 0x100, to: 0x900 })
    );
}
