//! Sixty-four slots in one word: bit `i` of a word stands for slot `i`.

use bit_iter::BitIter;
use vstd::prelude::*;

verus! {

/// The word in which only slot `i` is set.
pub open spec fn bit(i: u64) -> u64 {
    1u64 << i
}

/// Whether slot `i` is set in `word`.
pub open spec fn has_bit(word: u64, i: u64) -> bool {
    i < 64 && (word >> i) & 1 == 1
}

/// The slots that are set in `word`.
pub open spec fn slots(word: u64) -> Set<int> {
    Set::new(|i: int| 0 <= i < 64 && has_bit(word, i as u64))
}

/// The mask of slot `idx`.
pub fn slot_mask(idx: usize) -> (mask: u64)
    requires
        idx < 64,
    ensures
        mask == bit(idx as u64),
        slots(mask) == set![idx as int],
{
    proof {
        lemma_slots_of_bit(idx as u64);
    }
    1u64 << (idx as u64)
}

/// No slot is set in the zero word, and only there.
pub proof fn lemma_slots_empty(word: u64)
    ensures
        word == 0 <==> slots(word) == Set::<int>::empty(),
{
    if word == 0 {
        assert forall|i: int| !slots(word).contains(i) by {
            let j = i as u64;
            assert(!(j < 64 && (0u64 >> j) & 1 == 1)) by (bit_vector);
        }
        assert(slots(word) =~= Set::<int>::empty());
    } else {
        let i = lemma_some_slot(word);
        assert(slots(word).contains(i as int));
    }
}

/// A word other than zero has a slot set.
pub proof fn lemma_some_slot(word: u64) -> (i: u64)
    requires
        word != 0,
    ensures
        has_bit(word, i),
{
    assert(word >> 0u64 != 0) by (bit_vector)
        requires
            word != 0,
    ;
    lemma_some_slot_from(word, 0)
}

/// A word with a slot set at or above `from` has a slot set.
proof fn lemma_some_slot_from(word: u64, from: u64) -> (i: u64)
    requires
        from < 64,
        word >> from != 0,
    ensures
        has_bit(word, i),
    decreases 64 - from,
{
    if (word >> from) & 1 == 1 {
        from
    } else {
        assert(from < 63 && word >> ((from + 1) as u64) != 0) by (bit_vector)
            requires
                from < 64,
                word >> from != 0,
                (word >> from) & 1 != 1,
        ;
        lemma_some_slot_from(word, (from + 1) as u64)
    }
}

/// The mask of a slot holds that slot alone.
pub proof fn lemma_slots_of_bit(i: u64)
    requires
        i < 64,
    ensures
        slots(bit(i)) == set![i as int],
{
    assert forall|k: int| slots(bit(i)).contains(k) <==> k == i by {
        let j = k as u64;
        assert((j < 64 && ((1u64 << i) >> j) & 1 == 1) <==> j == i) by (bit_vector)
            requires
                i < 64,
        ;
    }
    assert(slots(bit(i)) =~= set![i as int]);
}

/// Or-ing two words joins their slots.
pub proof fn lemma_slots_or(a: u64, b: u64)
    ensures
        slots(a | b) == slots(a).union(slots(b)),
{
    assert forall|k: int| slots(a | b).contains(k) <==> slots(a).contains(k) || slots(b).contains(
        k,
    ) by {
        let j = k as u64;
        assert(((a | b) >> j) & 1 == 1 <==> ((a >> j) & 1 == 1 || (b >> j) & 1 == 1))
            by (bit_vector);
    }
    assert(slots(a | b) =~= slots(a).union(slots(b)));
}

/// And-ing a word with the complement of another takes the slots of the
/// second from the first.
pub proof fn lemma_slots_and_not(a: u64, b: u64)
    ensures
        slots(a & !b) == slots(a).difference(slots(b)),
{
    assert forall|k: int| slots(a & !b).contains(k) <==> slots(a).contains(k) && !slots(
        b,
    ).contains(k) by {
        let j = k as u64;
        assert(((a & !b) >> j) & 1 == 1 <==> ((a >> j) & 1 == 1 && !((b >> j) & 1 == 1)))
            by (bit_vector);
    }
    assert(slots(a & !b) =~= slots(a).difference(slots(b)));
}

/// Setting one slot adds it to the slots of the word.
pub proof fn lemma_slots_set(word: u64, i: u64)
    requires
        i < 64,
    ensures
        slots(word | bit(i)) == slots(word).insert(i as int),
{
    lemma_slots_or(word, bit(i));
    lemma_slots_of_bit(i);
    assert(slots(word).union(set![i as int]) =~= slots(word).insert(i as int));
}

/// Clearing one slot takes it from the slots of the word.
pub proof fn lemma_slots_clear(word: u64, i: u64)
    requires
        i < 64,
    ensures
        slots(word & !bit(i)) == slots(word).remove(i as int),
{
    lemma_slots_and_not(word, bit(i));
    lemma_slots_of_bit(i);
    assert(slots(word).difference(set![i as int]) =~= slots(word).remove(i as int));
}

/// Whether slot `idx` is set in `word`.
pub fn test_slot(word: u64, idx: usize) -> (set: bool)
    requires
        idx < 64,
    ensures
        set == slots(word).contains(idx as int),
{
    (word >> (idx as u64)) & 1 == 1
}

/// The word without slot `idx`. Taking a slot that is set makes the word
/// smaller.
pub fn clear_slot(word: u64, idx: usize) -> (rest: u64)
    requires
        idx < 64,
    ensures
        rest == word & !bit(idx as u64),
        slots(rest) == slots(word).remove(idx as int),
        slots(word).contains(idx as int) ==> rest < word,
{
    let mask = slot_mask(idx);
    proof {
        lemma_slots_clear(word, idx as u64);
        let i = idx as u64;
        assert(((word >> i) & 1 == 1) ==> word & !(1u64 << i) < word) by (bit_vector)
            requires
                i < 64,
        ;
    }
    word & !mask
}

/// The lowest slot that is set in `word`, if any.
pub fn first_slot(word: u64) -> (r: Option<usize>)
    ensures
        r is None <==> word == 0,
        r is None <==> slots(word) == Set::<int>::empty(),
        r matches Some(i) ==> i < 64 && slots(word).contains(i as int) && forall|t: int|
            t < i ==> !slots(word).contains(t),
{
    proof {
        lemma_slots_empty(word);
    }
    let r = lowest_slot(word);
    proof {
        if let Some(i) = r {
            let k = i as u64;
            assert(word != 0) by (bit_vector)
                requires
                    (word >> k) & 1 == 1,
            ;
            assert forall|t: int| t < i implies !slots(word).contains(t) by {
                if 0 <= t {
                    assert(!has_bit(word, t as u64));
                }
            }
        }
    }
    r
}

/// The lowest slot that is set in `word`, if any. `BitIter::from` makes an
/// iterator over the positions of the one bits of the word in ascending
/// order; its `next` gives the first of them, the count of trailing zeros,
/// or `None` for the zero word.
#[verifier::external_body]
fn lowest_slot(word: u64) -> (r: Option<usize>)
    ensures
        match r {
            Some(i) => i < 64 && has_bit(word, i as u64) && forall|j: u64|
                j < i ==> !has_bit(word, j),
            None => word == 0,
        },
{
    BitIter::from(word).next()
}

} // verus!
