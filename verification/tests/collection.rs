use preemptive_scheduler::future_collection::{page_limit, Cursor, FutureCollection};
use preemptive_scheduler::key::{pack_key, Key};
use preemptive_scheduler::task::{alloc_id, Task, TaskState};
use preemptive_scheduler::task_collection::{locate, make_key, TaskCollection};

fn key_of(index: u64) -> Key {
    pack_key(4, index / 64, index % 64)
}

#[test]
fn new_task_is_runnable_and_not_finished() {
    let task = Task::new(9, 4);
    assert_eq!(task.id(), 9);
    assert_eq!(task.id, 9);
    assert_eq!(task.priority, 4);
    assert_eq!(task.state, TaskState::RUNNABLE);
    assert!(!task.intr_enable);
    assert!(!task.finish);
}

#[test]
fn alloc_id_counts_up_and_wraps() {
    let mut counter = 1;
    assert_eq!(alloc_id(&mut counter), 1);
    assert_eq!(alloc_id(&mut counter), 2);
    assert_eq!(counter, 3);
    let mut last = usize::MAX;
    assert_eq!(alloc_id(&mut last), usize::MAX);
    assert_eq!(last, 0);
}

#[test]
fn keys_and_slab_indices_convert() {
    assert_eq!(make_key(0), key_of(0));
    assert_eq!(make_key(130), pack_key(4, 2, 2));
    assert_eq!(locate(make_key(130)), Some(130));
    assert_eq!(locate(pack_key(3, 2, 2)), None);
    assert_eq!(locate(pack_key(0, 0, 0)), None);
    assert_eq!(page_limit() as u64, 1u64 << 52);
}

#[test]
fn level_starts_empty() {
    let mut level = FutureCollection::new(4);
    assert_eq!(level.priority(), 4);
    assert_eq!(level.page_count(), 0);
    assert!(level.get(0).is_none());
    assert!(!level.remove(0));
    assert!(!level.is_pollable(0));
    let mut cursor = Cursor::new();
    assert!(!cursor.found());
    assert_eq!(level.sweep(&mut cursor), (None, 0));
    assert!(!cursor.found());
}

#[test]
fn level_insert_fills_slots_in_order_and_grows_pages() {
    let mut level = FutureCollection::new(4);
    for id in 0..130usize {
        assert_eq!(level.insert(id + 1000), Some(id));
        assert_eq!(level.page_count(), id / 64 + 1);
    }
    let (page, slot) = level.page(129);
    assert_eq!(slot, 1);
    assert_eq!(page.notified(), 0b11);
    let (page, slot) = level.page(63);
    assert_eq!(slot, 63);
    assert_eq!(page.notified(), u64::MAX);
    let task = level.get(77).unwrap();
    assert_eq!((task.id, task.priority, task.finish), (1077, 4, false));
}

#[test]
fn level_reuses_the_slot_freed_last() {
    let mut level = FutureCollection::new(4);
    for id in 0..5usize {
        assert_eq!(level.insert(id), Some(id));
    }
    assert!(level.remove(1));
    assert!(level.remove(3));
    assert!(!level.remove(3));
    assert_eq!(level.get(3).map(|t| t.id), None);
    assert_eq!(level.insert(100), Some(3));
    assert_eq!(level.insert(101), Some(1));
    assert_eq!(level.insert(102), Some(5));
    assert_eq!(level.get(3).map(|t| t.id), Some(100));
    assert_eq!(level.get(1).map(|t| t.id), Some(101));
}

#[test]
fn level_remove_clears_the_slot() {
    let mut level = FutureCollection::new(4);
    assert_eq!(level.insert(1), Some(0));
    assert_eq!(level.insert(2), Some(1));
    level.mark_borrowed(1, true);
    assert!(level.finish(1, 2));
    assert!(level.remove(1));
    let (page, _) = level.page(1);
    assert_eq!(page.notified(), 0b01);
    assert_eq!(page.dropped(), 0);
    assert_eq!(page.borrowed(), 0);
}

#[test]
fn level_wake_needs_the_task_in_its_slot() {
    let mut level = FutureCollection::new(4);
    assert_eq!(level.insert(7), Some(0));
    let (page, _) = level.page(0);
    assert_eq!(page.notified(), 1);
    let mut cursor = Cursor::new();
    assert_eq!(level.sweep(&mut cursor), (Some(0), 0));
    assert_eq!(level.page(0).0.notified(), 0);
    assert!(!level.wake(0, 8));
    assert!(!level.wake(1, 7));
    assert!(!level.wake(4096, 7));
    assert_eq!(level.page(0).0.notified(), 0);
    assert!(level.wake(0, 7));
    assert_eq!(level.page(0).0.notified(), 1);
}

#[test]
fn level_finish_marks_once() {
    let mut level = FutureCollection::new(4);
    assert_eq!(level.insert(7), Some(0));
    assert!(!level.finish(0, 8));
    assert!(level.finish(0, 7));
    assert!(!level.finish(0, 7));
    assert!(level.get(0).unwrap().finish);
    assert_eq!(level.page(0).0.dropped(), 1);
    assert!(!level.wake(0, 7));
    assert!(!level.is_pollable(0));
}

#[test]
fn level_records_the_interrupt_state() {
    let mut level = FutureCollection::new(4);
    assert_eq!(level.insert(7), Some(0));
    assert!(!level.set_intr_enable(0, 8, true));
    assert!(!level.get(0).unwrap().intr_enable);
    assert!(level.set_intr_enable(0, 7, true));
    assert!(level.get(0).unwrap().intr_enable);
    assert!(level.set_intr_enable(0, 7, false));
    assert!(!level.get(0).unwrap().intr_enable);
    assert!(!level.set_intr_enable(9, 7, true));
}

#[test]
fn level_sweep_hands_out_in_slot_then_page_order() {
    let mut level = FutureCollection::new(4);
    for id in 0..70usize {
        level.insert(id);
    }
    let mut cursor = Cursor::new();
    for expected in 0..70usize {
        assert_eq!(level.sweep(&mut cursor), (Some(expected), 0));
        assert!(cursor.found());
    }
    assert_eq!(level.sweep(&mut cursor), (None, 0));
    assert!(cursor.found());
}

#[test]
fn level_sweep_frees_completed_tasks_of_pages_it_has_passed() {
    let mut level = FutureCollection::new(4);
    for id in 0..70usize {
        level.insert(id);
    }
    assert!(level.finish(0, 0));
    assert!(level.finish(5, 5));
    assert!(level.finish(65, 65));
    let mut cursor = Cursor::new();
    assert_eq!(level.sweep(&mut cursor), (Some(1), 0));
    for expected in (2..64usize).filter(|i| *i != 5) {
        assert_eq!(level.sweep(&mut cursor), (Some(expected), 0));
    }
    assert!(level.get(0).is_some());
    assert_eq!(level.sweep(&mut cursor), (Some(64), 2));
    assert!(level.get(0).is_none());
    assert!(level.get(5).is_none());
    assert!(level.get(65).is_some());
    assert_eq!(level.sweep(&mut cursor), (Some(66), 0));
    for expected in 67..70usize {
        assert_eq!(level.sweep(&mut cursor), (Some(expected), 0));
    }
    assert_eq!(level.sweep(&mut cursor), (None, 1));
    assert!(level.get(65).is_none());
}

#[test]
fn collection_starts_empty() {
    let mut tasks = TaskCollection::new(3);
    assert_eq!(tasks.task_num(), 0);
    assert_eq!(tasks.page_num(), 0);
    assert!(tasks.take_task().is_none());
    assert!(tasks.generator().is_none());
    assert!(tasks.get(key_of(0)).is_none());
}

#[test]
fn collection_hands_out_each_spawned_task_once() {
    let mut tasks = TaskCollection::new(0);
    assert_eq!(tasks.add_task(11), Some(key_of(0)));
    assert_eq!(tasks.add_task(12), Some(key_of(1)));
    assert_eq!(tasks.task_num(), 2);
    let (key, task, waker, droper) = tasks.take_task().unwrap();
    assert_eq!((key, task.id), (key_of(0), 11));
    assert_eq!((waker.key, waker.task_id), (key_of(0), 11));
    assert_eq!((droper.key, droper.task_id), (key_of(0), 11));
    let (key, task, _, _) = tasks.take_task().unwrap();
    assert_eq!((key, task.id), (key_of(1), 12));
    assert!(tasks.take_task().is_none());
    assert!(tasks.take_task().is_none());
    assert_eq!(tasks.task_num(), 2);
}

#[test]
fn collection_generator_gives_keys() {
    let mut tasks = TaskCollection::new(0);
    for id in 0..3 {
        tasks.add_task(id);
    }
    assert_eq!(tasks.generator(), Some(key_of(0)));
    assert_eq!(tasks.generator(), Some(key_of(1)));
    assert_eq!(tasks.generator(), Some(key_of(2)));
    assert_eq!(tasks.generator(), None);
}

#[test]
fn woken_task_is_handed_out_again() {
    let mut tasks = TaskCollection::new(0);
    tasks.add_task(11);
    let (_, _, waker, _) = tasks.take_task().unwrap();
    assert!(tasks.take_task().is_none());
    waker.wake_by_ref(&mut tasks);
    waker.wake_by_ref(&mut tasks);
    let (key, task, _, _) = tasks.take_task().unwrap();
    assert_eq!((key, task.id), (key_of(0), 11));
    assert!(tasks.take_task().is_none());
}

#[test]
fn slots_taken_from_a_page_come_before_new_wakings() {
    let mut tasks = TaskCollection::new(0);
    tasks.add_task(11);
    tasks.add_task(12);
    let (_, first, waker, _) = tasks.take_task().unwrap();
    assert_eq!(first.id, 11);
    waker.wake_by_ref(&mut tasks);
    assert_eq!(tasks.take_task().unwrap().1.id, 12);
    assert_eq!(tasks.take_task().unwrap().1.id, 11);
    assert!(tasks.take_task().is_none());
}

#[test]
fn wake_after_completion_is_ignored() {
    let mut tasks = TaskCollection::new(0);
    let key = tasks.add_task(11).unwrap();
    let (_, _, waker, droper) = tasks.take_task().unwrap();
    let clone = waker.clone();
    droper.drop_by_ref(&mut tasks);
    clone.wake_by_ref(&mut tasks);
    waker.wake_by_ref(&mut tasks);
    let (page, slot) = tasks.page(key);
    assert_eq!(slot, 0);
    assert_eq!(page.notified(), 0);
    assert_eq!(page.dropped(), 1);
    assert!(tasks.get(key).unwrap().finish);
    assert_eq!(tasks.task_num(), 1);
    assert!(tasks.take_task().is_none());
    assert_eq!(tasks.task_num(), 0);
    assert!(tasks.get(key).is_none());
    clone.wake_by_ref(&mut tasks);
    assert!(tasks.take_task().is_none());
}

#[test]
fn completion_is_reported_once() {
    let mut tasks = TaskCollection::new(0);
    let key = tasks.add_task(11).unwrap();
    assert!(tasks.finish(key, 11));
    assert!(!tasks.finish(key, 11));
    assert!(!tasks.wake(key, 11));
    assert!(tasks.take_task().is_none());
    assert_eq!(tasks.task_num(), 0);
    assert!(!tasks.finish(key, 11));
}

#[test]
fn completed_task_waiting_in_the_cursor_is_not_handed_out() {
    let mut tasks = TaskCollection::new(0);
    tasks.add_task(11);
    let second = tasks.add_task(12).unwrap();
    assert_eq!(tasks.take_task().unwrap().1.id, 11);
    assert!(tasks.finish(second, 12));
    assert!(tasks.take_task().is_none());
    assert_eq!(tasks.task_num(), 1);
}

#[test]
fn stale_handle_does_not_wake_the_next_task_in_the_slot() {
    let mut tasks = TaskCollection::new(0);
    let key = tasks.add_task(11).unwrap();
    let (_, _, stale, droper) = tasks.take_task().unwrap();
    droper.drop_by_ref(&mut tasks);
    assert!(tasks.take_task().is_none());
    assert_eq!(tasks.add_task(12), Some(key));
    assert_eq!(tasks.take_task().unwrap().1.id, 12);
    stale.wake_by_ref(&mut tasks);
    stale.drop_by_ref(&mut tasks);
    assert!(tasks.take_task().is_none());
    assert_eq!(tasks.task_num(), 1);
    assert!(!tasks.get(key).unwrap().finish);
}

#[test]
fn borrowed_slot_is_not_handed_out() {
    let mut tasks = TaskCollection::new(0);
    let key = tasks.add_task(11).unwrap();
    let (_, _, waker, _) = tasks.take_task().unwrap();
    waker.mark_borrowed(&mut tasks, true);
    assert_eq!(tasks.page(key).0.borrowed(), 1);
    waker.wake_by_ref(&mut tasks);
    assert!(tasks.take_task().is_none());
    waker.mark_borrowed(&mut tasks, false);
    assert_eq!(tasks.page(key).0.borrowed(), 0);
    assert!(tasks.take_task().is_none());
    waker.wake_by_ref(&mut tasks);
    assert_eq!(tasks.take_task().unwrap().1.id, 11);
}

#[test]
fn remove_task_frees_the_slot_and_counts() {
    let mut tasks = TaskCollection::new(0);
    let first = tasks.add_task(11).unwrap();
    let second = tasks.add_task(12).unwrap();
    tasks.remove_task(first);
    assert_eq!(tasks.task_num(), 1);
    tasks.remove_task(first);
    tasks.remove_task(pack_key(3, 0, 1));
    tasks.remove_task(key_of(4000));
    assert_eq!(tasks.task_num(), 1);
    assert!(tasks.get(first).is_none());
    assert_eq!(tasks.get(second).unwrap().id, 12);
    assert_eq!(tasks.take_task().unwrap().1.id, 12);
    assert!(tasks.take_task().is_none());
}

#[test]
fn keys_of_other_levels_name_nothing() {
    let mut tasks = TaskCollection::new(0);
    tasks.add_task(11);
    let other = pack_key(5, 0, 0);
    assert!(tasks.get(other).is_none());
    assert!(!tasks.wake(other, 11));
    assert!(!tasks.finish(other, 11));
    assert!(!tasks.set_intr_enable(other, 11, true));
    tasks.mark_borrowed(other, true);
    assert_eq!(tasks.page(key_of(0)).0.borrowed(), 0);
    assert_eq!(tasks.take_task().unwrap().1.id, 11);
}

#[test]
fn two_hundred_tasks_need_four_pages() {
    let mut tasks = TaskCollection::new(0);
    let mut keys = vec![];
    for id in 0..200usize {
        keys.push(tasks.add_task(id + 1).unwrap());
    }
    assert_eq!(tasks.task_num(), 200);
    assert_eq!(tasks.page_num(), 4);
    let mut seen = vec![false; 200];
    let mut dropers = vec![];
    for _ in 0..200 {
        let (key, task, _, droper) = tasks.take_task().unwrap();
        assert_eq!(key, keys[task.id - 1]);
        assert!(!seen[task.id - 1]);
        seen[task.id - 1] = true;
        dropers.push(droper);
    }
    assert!(tasks.take_task().is_none());
    assert_eq!(tasks.task_num(), 200);
    for droper in &dropers[..150] {
        droper.drop_by_ref(&mut tasks);
    }
    assert!(tasks.take_task().is_none());
    assert_eq!(tasks.task_num(), 50);
    for droper in &dropers[150..] {
        droper.drop_by_ref(&mut tasks);
    }
    assert!(tasks.take_task().is_none());
    assert_eq!(tasks.task_num(), 0);
    assert_eq!(tasks.page_num(), 4);
}
