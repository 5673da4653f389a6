//! The slab that stores the task records of one priority level.

use crate::task::Task;
use unicycle::pin_slab::PinSlab;
use vstd::prelude::*;

verus! {

/// `unicycle::pin_slab::PinSlab`: storage that hands out a key for each
/// value it stores and never moves a value. What a slab of task records
/// holds is known by `slab_tasks` and `slab_limit` alone.
#[verifier::external_type_specification]
#[verifier::external_body]
#[verifier::reject_recursive_types(T)]
pub struct ExPinSlab<T>(PinSlab<T>);

/// The task records in a slab, by the key under which each is stored.
pub uninterp spec fn slab_tasks(slab: PinSlab<Task>) -> Map<usize, Task>;

/// One past the highest key that a slab has ever stored a record under.
pub uninterp spec fn slab_limit(slab: PinSlab<Task>) -> usize;

/// The contents of a slab that stores nothing.
pub open spec fn no_tasks() -> Map<usize, Task> {
    Map::empty()
}

/// The largest key that a slab accepts: it refuses, with a panic, a key
/// whose top bit is set.
pub open spec fn max_slab_key() -> usize {
    (usize::MAX / 2) as usize
}

/// `PinSlab::new`: a slab that stores nothing and has never stored
/// anything.
#[verifier::external_body]
pub(crate) fn slab_new() -> (made: PinSlab<Task>)
    ensures
        slab_tasks(made) == no_tasks(),
        slab_limit(made) == 0,
{
    PinSlab::new()
}

/// `PinSlab::insert`: stores a record under a key that is free, and
/// returns the key. The key is one that was freed before or the first key
/// never used, so it is at most the limit, which moves past a key that
/// reaches it. The slab accepts the key as long as the limit is a key that
/// it accepts.
#[verifier::external_body]
pub(crate) fn slab_insert(slab: &mut PinSlab<Task>, task: Task) -> (key: usize)
    requires
        slab_limit(*old(slab)) <= max_slab_key(),
    ensures
        key <= slab_limit(*old(slab)),
        !slab_tasks(*old(slab)).contains_key(key),
        slab_tasks(*final(slab)) == slab_tasks(*old(slab)).insert(key, task),
        slab_limit(*final(slab)) == if key == slab_limit(*old(slab)) {
            key + 1
        } else {
            slab_limit(*old(slab)) as int
        },
{
    slab.insert(task)
}

/// `PinSlab::get_mut`: the record stored under `key`, if there is one, to
/// read or to change in place. Nothing else in the slab changes.
#[verifier::external_body]
pub(crate) fn slab_get_mut(slab: &mut PinSlab<Task>, key: usize) -> (r: Option<&mut Task>)
    requires
        key <= max_slab_key(),
    ensures
        match r {
            Some(task) => {
                &&& slab_tasks(*old(slab)).contains_key(key)
                &&& *task == slab_tasks(*old(slab))[key]
                &&& slab_tasks(*final(slab)) == slab_tasks(*old(slab)).insert(key, *final(task))
                &&& slab_limit(*final(slab)) == slab_limit(*old(slab))
            },
            None => {
                &&& !slab_tasks(*old(slab)).contains_key(key)
                &&& slab_tasks(*final(slab)) == slab_tasks(*old(slab))
                &&& slab_limit(*final(slab)) == slab_limit(*old(slab))
            },
        },
{
    slab.get_mut(key)
}

/// `PinSlab::remove`: frees `key` and tells whether a record was stored
/// under it. The other records stay, and so does the limit.
#[verifier::external_body]
pub(crate) fn slab_remove(slab: &mut PinSlab<Task>, key: usize) -> (removed: bool)
    requires
        key <= max_slab_key(),
    ensures
        removed == slab_tasks(*old(slab)).contains_key(key),
        slab_tasks(*final(slab)) == slab_tasks(*old(slab)).remove(key),
        slab_limit(*final(slab)) == slab_limit(*old(slab)),
{
    slab.remove(key)
}

} // verus!
