use preemptive_scheduler::bits::{clear_slot, first_slot, slot_mask, test_slot};
use preemptive_scheduler::waker_page::{AtomicU64SC, WakerPage, WAKER_PAGE_SIZE};

#[test]
fn cell_holds_what_it_was_made_with() {
    assert_eq!(AtomicU64SC::new(0).load(), 0);
    assert_eq!(AtomicU64SC::new(0xDEAD_BEEF).load(), 0xDEAD_BEEF);
}

#[test]
fn cell_or_and_swap() {
    let mut cell = AtomicU64SC::new(0b1010);
    cell.fetch_or(0b0101);
    assert_eq!(cell.load(), 0b1111);
    cell.fetch_and(0b0110);
    assert_eq!(cell.load(), 0b0110);
    assert_eq!(cell.swap(77), 0b0110);
    assert_eq!(cell.load(), 77);
}

#[test]
fn cell_add_and_sub_return_the_old_word_and_wrap() {
    let mut cell = AtomicU64SC::new(5);
    assert_eq!(cell.fetch_add(3), 5);
    assert_eq!(cell.load(), 8);
    assert_eq!(cell.fetch_sub(8), 8);
    assert_eq!(cell.load(), 0);
    assert_eq!(cell.fetch_sub(1), 0);
    assert_eq!(cell.load(), u64::MAX);
    assert_eq!(cell.fetch_add(2), u64::MAX);
    assert_eq!(cell.load(), 1);
}

#[test]
fn slot_helpers_work_on_single_bits() {
    assert_eq!(slot_mask(0), 1);
    assert_eq!(slot_mask(63), 1 << 63);
    assert!(test_slot(0b100, 2));
    assert!(!test_slot(0b100, 1));
    assert_eq!(clear_slot(0b1100, 2), 0b1000);
    assert_eq!(clear_slot(0b1100, 0), 0b1100);
}

#[test]
fn first_slot_is_the_lowest_one_bit() {
    assert_eq!(first_slot(0), None);
    assert_eq!(first_slot(1), Some(0));
    assert_eq!(first_slot(0b1010_0000), Some(5));
    assert_eq!(first_slot(1 << 63), Some(63));
    assert_eq!(first_slot(u64::MAX), Some(0));
}

#[test]
fn new_page_marks_nothing() {
    assert_eq!(WAKER_PAGE_SIZE, 64);
    for page in [WakerPage::new(), WakerPage::new_inner()] {
        assert_eq!(page.notified(), 0);
        assert_eq!(page.dropped(), 0);
        assert_eq!(page.borrowed(), 0);
    }
}

#[test]
fn initialize_readies_a_slot() {
    let mut page = WakerPage::new();
    page.mark_dropped(3);
    page.mark_borrowed(3, true);
    page.mark_dropped(4);
    page.initialize(3);
    assert_eq!(page.notified(), 1 << 3);
    assert_eq!(page.dropped(), 1 << 4);
    assert_eq!(page.borrowed(), 0);
}

#[test]
fn notifications_coalesce() {
    let mut page = WakerPage::new();
    for _ in 0..10 {
        page.notify(7);
    }
    assert_eq!(page.notified(), 1 << 7);
    assert_eq!(page.take_notified(), 1 << 7);
    assert_eq!(page.notified(), 0);
    assert_eq!(page.take_notified(), 0);
}

#[test]
fn no_wakeup_is_lost_after_a_sweep() {
    let mut page = WakerPage::new();
    page.notify(1);
    assert_eq!(page.take_notified(), 0b10);
    page.notify(1);
    page.notify(9);
    assert_eq!(page.notified(), (1 << 1) | (1 << 9));
    assert_eq!(page.take_notified(), (1 << 1) | (1 << 9));
}

#[test]
fn take_notified_masks_dropped_and_borrowed_slots() {
    let mut page = WakerPage::new();
    page.notify(0);
    page.notify(1);
    page.notify(2);
    page.mark_dropped(1);
    page.mark_borrowed(2, true);
    assert_eq!(page.take_notified(), 1);
    assert_eq!(page.notified(), 0);
    assert_eq!(page.dropped(), 0b010);
    assert_eq!(page.borrowed(), 0b100);
    page.mark_borrowed(2, false);
    assert_eq!(page.borrowed(), 0);
    assert_eq!(page.take_notified(), 0);
}

#[test]
fn take_dropped_empties_the_bitmap() {
    let mut page = WakerPage::new();
    page.mark_dropped(0);
    page.mark_dropped(63);
    page.mark_dropped(63);
    assert_eq!(page.take_dropped(), 1 | (1 << 63));
    assert_eq!(page.dropped(), 0);
    assert_eq!(page.take_dropped(), 0);
}

#[test]
fn clear_frees_one_slot_only() {
    let mut page = WakerPage::new();
    for slot in [5, 6] {
        page.notify(slot);
        page.mark_dropped(slot);
        page.mark_borrowed(slot, true);
    }
    page.clear(5);
    assert_eq!(page.notified(), 1 << 6);
    assert_eq!(page.dropped(), 1 << 6);
    assert_eq!(page.borrowed(), 1 << 6);
}

#[test]
fn make_waker_names_slot_and_task() {
    let page = WakerPage::new();
    let waker = page.make_waker(12345, 77);
    assert_eq!(waker.key, 12345);
    assert_eq!(waker.task_id, 77);
    let copy = waker.clone();
    assert_eq!(copy.key, 12345);
    assert_eq!(copy.task_id, 77);
}
