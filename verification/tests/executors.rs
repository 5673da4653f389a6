use preemptive_scheduler::executor::{
    executor_alloc_id, push_stack, word_size, Executor, ExecutorState, RunStep, STACK_SIZE,
};
use preemptive_scheduler::arch::{aarch64, riscv64, x86_64};
use preemptive_scheduler::key::pack_key;
use preemptive_scheduler::task_collection::TaskCollection;

#[test]
fn executor_ids_count_up_and_wrap() {
    let mut counter = 1;
    assert_eq!(executor_alloc_id(&mut counter), 1);
    assert_eq!(executor_alloc_id(&mut counter), 2);
    let mut last = usize::MAX;
    assert_eq!(executor_alloc_id(&mut last), usize::MAX);
    assert_eq!(last, 0);
}

#[test]
fn new_executor_is_unused_and_idle() {
    let executor = Executor::new(7, 0x10_0000);
    assert_eq!(executor.id(), 7);
    assert_eq!(executor.stack_base, 0x10_0000);
    assert_eq!(executor.task_id(), 0);
    assert_eq!(executor.state, ExecutorState::UNUSED);
    assert_eq!(executor.context.get_context(), 0);
    assert!(!executor.is_running_future());
    assert!(!executor.killed());
}

#[test]
fn stack_is_128_kib_and_grows_down() {
    assert_eq!(STACK_SIZE, 128 * 1024);
    assert_eq!(word_size(), core::mem::size_of::<usize>());
    assert_eq!(push_stack(100, 8), 92);
    assert_eq!(push_stack(8, 8), 0);
}

#[test]
fn record_on_the_stack_lies_below_the_executor_address() {
    let mut executor = Executor::new(7, 0x10_0000);
    let (top, record): (usize, x86_64::ContextData) =
        executor.init_stack_and_context(0xE000, 0xC000, 64, 0xABC0);
    assert_eq!(top, 0x10_0000 + STACK_SIZE - core::mem::size_of::<usize>());
    assert_eq!(executor.context.get_context(), top - 64);
    assert_eq!((record.rip, record.cr3, record.rbx), (0xE000, 0xC000, 0));
    assert_eq!(executor.context.get_sp(&record), top - 64);
    assert_eq!(executor.id(), 7);
    assert_eq!(executor.stack_base, 0x10_0000);
    assert_eq!(executor.state, ExecutorState::UNUSED);
}

#[test]
fn record_off_the_stack_holds_the_stack_pointer() {
    let mut executor = Executor::new(7, 0x10_0000);
    let (top, record): (usize, riscv64::ContextData) =
        executor.init_stack_and_context(0xE000, 0xC000, 112, 0xABC0);
    assert_eq!(top, 0x10_0000 + STACK_SIZE - core::mem::size_of::<usize>());
    assert_eq!(executor.context.get_context(), 0xABC0);
    assert_eq!((record.ra, record.sp, record.satp), (0xE000, top, 0xC000));
    assert_eq!(executor.context.get_sp(&record), top);
    let (top, record): (usize, aarch64::ContextData) =
        executor.init_stack_and_context(0xE000, 0xC000, 112, 0xDEF0);
    assert_eq!(executor.context.get_context(), 0xDEF0);
    assert_eq!((record.lr, record.sp, record.ttbr0), (0xE000, top, 0xC000));
}

#[test]
fn idle_executor_waits_unless_there_is_a_reason_to_yield() {
    let mut tasks = TaskCollection::new(0);
    let mut executor = Executor::new(1, 0);
    assert!(matches!(executor.run(&mut tasks, 0, false), RunStep::WaitForInterrupt));
    assert!(matches!(executor.run(&mut tasks, 0, true), RunStep::Yield));
    assert!(matches!(executor.run(&mut tasks, 2, false), RunStep::Yield));
    tasks.add_task(5);
    tasks.take_task();
    assert!(matches!(executor.run(&mut tasks, 0, true), RunStep::WaitForInterrupt));
    assert!(matches!(executor.run(&mut tasks, 1, true), RunStep::Yield));
    assert_eq!(executor.task_id(), 0);
}

#[test]
fn executor_polls_and_reports_completion() {
    let mut tasks = TaskCollection::new(0);
    tasks.add_task(5);
    let mut executor = Executor::new(1, 0);
    let droper = match executor.run(&mut tasks, 0, false) {
        RunStep::Poll { key, task, waker, droper } => {
            assert_eq!(key, pack_key(4, 0, 0));
            assert_eq!(task.id, 5);
            assert_eq!((waker.key, waker.task_id), (key, 5));
            assert_eq!((droper.key, droper.task_id), (key, 5));
            droper
        }
        _ => panic!("a task was spawned"),
    };
    assert_eq!(executor.task_id(), 5);
    assert!(executor.is_running_future());
    assert!(!executor.end_poll(&mut tasks, &droper, true));
    assert_eq!(executor.task_id(), 0);
    assert!(!executor.is_running_future());
    assert_eq!(executor.state, ExecutorState::UNUSED);
    assert!(tasks.get(droper.key).unwrap().finish);
    assert!(matches!(executor.run(&mut tasks, 0, true), RunStep::Yield));
    assert_eq!(tasks.task_num(), 0);
}

#[test]
fn pending_poll_leaves_the_task_alone() {
    let mut tasks = TaskCollection::new(0);
    tasks.add_task(5);
    let mut executor = Executor::new(1, 0);
    let droper = match executor.run(&mut tasks, 0, false) {
        RunStep::Poll { droper, .. } => droper,
        _ => panic!("a task was spawned"),
    };
    assert!(!executor.end_poll(&mut tasks, &droper, false));
    assert!(!tasks.get(droper.key).unwrap().finish);
    assert_eq!(tasks.task_num(), 1);
    assert!(matches!(executor.run(&mut tasks, 0, false), RunStep::WaitForInterrupt));
    assert_eq!(tasks.task_num(), 1);
}

#[test]
fn weak_executor_is_killed_by_the_end_of_its_poll() {
    let mut tasks = TaskCollection::new(0);
    tasks.add_task(5);
    let mut executor = Executor::new(1, 0);
    let droper = match executor.run(&mut tasks, 0, false) {
        RunStep::Poll { droper, .. } => droper,
        _ => panic!("a task was spawned"),
    };
    executor.mark_weak();
    assert_eq!(executor.state, ExecutorState::WEAK);
    assert_eq!(executor.task_id(), 5);
    assert!(executor.end_poll(&mut tasks, &droper, false));
    assert!(executor.killed());
    assert_eq!(executor.state, ExecutorState::KILLED);
    assert_eq!(executor.task_id(), 0);
    assert!(!executor.end_poll(&mut tasks, &droper, false));
    assert!(executor.killed());
}
