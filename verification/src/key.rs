//! Task keys: a priority, a page index and a slot index packed into one
//! 64-bit word.
//!
//! Bits 58..63 hold the priority, bits 6..58 the page index and bits 0..6
//! the slot within the page; bit 63 belongs to no field and is clear in every
//! key that `pack_key` makes of fields that fit. Without its priority such a
//! key is the index of the task in the slab of its priority level: page
//! `i / 64`, slot `i % 64`.

use vstd::prelude::*;

verus! {

/// A packed task key.
pub type Key = u64;

/// Position of the priority field in a key.
pub const PRIORITY_SHIFT: usize = 58;

/// Number of tasks that one priority level can address.
pub const TASK_NUM_PER_PRIORITY: u64 = 0x400_0000_0000_0000;

/// Number of priority levels.
pub const MAX_PRIORITY: usize = 32;

/// The one priority level in use.
pub const DEFAULT_PRIORITY: usize = 4;

/// Position of the page index in a key.
pub const PAGE_INDEX_SHIFT: usize = 6;

/// Number of pages that a key can address.
pub const PAGE_NUM_PER_PRIORITY: u64 = 0x10_0000_0000_0000;

/// The priority field of a key.
pub open spec fn key_priority(key: Key) -> u64 {
    (key / 0x400_0000_0000_0000) % 32
}

/// The page field of a key.
pub open spec fn key_page(key: Key) -> u64 {
    (key / 64) % 0x10_0000_0000_0000
}

/// The slot field of a key.
pub open spec fn key_slot(key: Key) -> u64 {
    key % 64
}

/// The key without its priority field: the slab index of the task.
pub open spec fn key_index(key: Key) -> int {
    key - key_priority(key) * 0x400_0000_0000_0000
}

/// The three fields laid over one another, whatever their size.
pub open spec fn packed(priority: u64, page_idx: u64, subpage_idx: u64) -> Key {
    (priority << 58) | (page_idx << 6) | subpage_idx
}

/// Whether three fields fit their places in a key.
pub open spec fn fields_fit(priority: u64, page_idx: u64, subpage_idx: u64) -> bool {
    priority < MAX_PRIORITY && page_idx < PAGE_NUM_PER_PRIORITY && subpage_idx < 64
}

/// Splits a key into priority, page index and slot index.
pub fn unpack_key(key: Key) -> (r: (u64, u64, u64))
    ensures
        r.0 == key_priority(key),
        r.1 == key_page(key),
        r.2 == key_slot(key),
        r.0 < MAX_PRIORITY,
        r.1 < PAGE_NUM_PER_PRIORITY,
        r.2 < 64,
        key < 0x8000_0000_0000_0000 ==> key == r.0 * TASK_NUM_PER_PRIORITY + r.1 * 64 + r.2,
{
    let subpage_idx: u64 = key & 0x3F;
    let page_idx: u64 = (key >> PAGE_INDEX_SHIFT) & 0xF_FFFF_FFFF_FFFF;
    let priority: u64 = (key >> PRIORITY_SHIFT) & 0x1F;
    assert(key & 0x3F == key % 64) by (bit_vector);
    assert((key >> 6) & 0xF_FFFF_FFFF_FFFF == (key / 64) % 0x10_0000_0000_0000) by (bit_vector);
    assert((key >> 58) & 0x1F == (key / 0x400_0000_0000_0000) % 32) by (bit_vector);
    assert(key < 0x8000_0000_0000_0000 ==> key == ((key / 0x400_0000_0000_0000) % 32)
        * 0x400_0000_0000_0000 + ((key / 64) % 0x10_0000_0000_0000) * 64 + key % 64)
        by (bit_vector);
    (priority, page_idx, subpage_idx)
}

/// Packs priority, page index and slot index into a key. Fields that fit
/// their places are laid side by side; oversized fields overlap their
/// neighbours and lose the bits that leave the word.
pub fn pack_key(priority: u64, page_idx: u64, subpage_idx: u64) -> (key: Key)
    ensures
        key == packed(priority, page_idx, subpage_idx),
        fields_fit(priority, page_idx, subpage_idx) ==> {
            &&& key == priority * TASK_NUM_PER_PRIORITY + page_idx * 64 + subpage_idx
            &&& key_priority(key) == priority
            &&& key_page(key) == page_idx
            &&& key_slot(key) == subpage_idx
            &&& key_index(key) == page_idx * 64 + subpage_idx
        },
{
    proof {
        lemma_packed_fields(priority, page_idx, subpage_idx);
    }
    (priority << PRIORITY_SHIFT) | (page_idx << PAGE_INDEX_SHIFT) | subpage_idx
}

/// Clears the priority field of a key. Of a key whose top bit is clear this
/// leaves the slab index.
pub fn unmask_priority(key: Key) -> (index: u64)
    ensures
        index == key_index(key),
        key < 0x8000_0000_0000_0000 ==> index == key_page(key) * 64 + key_slot(key),
        key < 0x8000_0000_0000_0000 ==> index < TASK_NUM_PER_PRIORITY,
{
    assert(key & !(0x1Fu64 << 58) == key - ((key / 0x400_0000_0000_0000) % 32)
        * 0x400_0000_0000_0000) by (bit_vector);
    assert(key < 0x8000_0000_0000_0000 ==> key & !(0x1Fu64 << 58) == ((key / 64)
        % 0x10_0000_0000_0000) * 64 + key % 64) by (bit_vector);
    assert(key < 0x8000_0000_0000_0000 ==> key & !(0x1Fu64 << 58) < 0x400_0000_0000_0000)
        by (bit_vector);
    key & !(0x1F << PRIORITY_SHIFT)
}

/// Fields that fit are recovered from the packed word, which is their
/// weighted sum.
pub proof fn lemma_packed_fields(priority: u64, page_idx: u64, subpage_idx: u64)
    ensures
        fields_fit(priority, page_idx, subpage_idx) ==> {
            let key = packed(priority, page_idx, subpage_idx);
            &&& key == priority * TASK_NUM_PER_PRIORITY + page_idx * 64 + subpage_idx
            &&& key < 0x8000_0000_0000_0000
            &&& key_priority(key) == priority
            &&& key_page(key) == page_idx
            &&& key_slot(key) == subpage_idx
            &&& key_index(key) == page_idx * 64 + subpage_idx
        },
{
    if fields_fit(priority, page_idx, subpage_idx) {
        let key = packed(priority, page_idx, subpage_idx);
        assert(key == priority * 0x400_0000_0000_0000 + page_idx * 64 + subpage_idx && key
            < 0x8000_0000_0000_0000) by (bit_vector)
            requires
                key == (priority << 58) | (page_idx << 6) | subpage_idx,
                priority < 32,
                page_idx < 0x10_0000_0000_0000,
                subpage_idx < 64,
        ;
        assert((key / 0x400_0000_0000_0000) % 32 == priority && (key / 64) % 0x10_0000_0000_0000
            == page_idx && key % 64 == subpage_idx) by (bit_vector)
            requires
                key == (priority << 58) | (page_idx << 6) | subpage_idx,
                priority < 32,
                page_idx < 0x10_0000_0000_0000,
                subpage_idx < 64,
        ;
    }
}

/// Unpacking a packed key gives back the fields that went in.
pub proof fn lemma_key_round_trip(priority: u64, page_idx: u64, subpage_idx: u64)
    requires
        priority < MAX_PRIORITY,
        page_idx < PAGE_NUM_PER_PRIORITY,
        subpage_idx < 64,
    ensures
        key_priority(packed(priority, page_idx, subpage_idx)) == priority,
        key_page(packed(priority, page_idx, subpage_idx)) == page_idx,
        key_slot(packed(priority, page_idx, subpage_idx)) == subpage_idx,
{
    lemma_packed_fields(priority, page_idx, subpage_idx);
}

/// Packing the fields of a key whose top bit is clear gives back the key.
pub proof fn lemma_key_repack(key: Key)
    requires
        key < 0x8000_0000_0000_0000,
    ensures
        fields_fit(key_priority(key), key_page(key), key_slot(key)),
        packed(key_priority(key), key_page(key), key_slot(key)) == key,
{
    assert(key < 0x8000_0000_0000_0000 ==> ((((key / 0x400_0000_0000_0000) % 32) << 58) | (((key
        / 64) % 0x10_0000_0000_0000) << 6) | (key % 64)) == key) by (bit_vector);
}

} // verus!
