//! The saved register record of AArch64.

use crate::context::SavedContext;
use vstd::prelude::*;

verus! {

/// The registers that a context switch saves, in the order in which they
/// lie in memory.
#[derive(Debug, Clone, Copy)]
pub struct ContextData {
    /// The callee-saved registers.
    pub s: [usize; 11],
    /// The link register: the program counter.
    pub lr: usize,
    /// The stack pointer.
    pub sp: usize,
    /// The page-table base register.
    pub ttbr0: usize,
}

impl ContextData {
    /// The record of a context that starts at `lr` on the stack `sp` with
    /// the page-table base `ttbr0`; the other registers are zero.
    pub fn new(lr: usize, sp: usize, ttbr0: usize) -> (data: Self)
        ensures
            data.lr == lr,
            data.sp == sp,
            data.ttbr0 == ttbr0,
            forall|i: int| 0 <= i < 11 ==> data.s[i] == 0,
    {
        ContextData { s: [0; 11], lr, sp, ttbr0 }
    }
}

impl Default for ContextData {
    fn default() -> (data: Self)
        ensures
            data.lr == 0,
            data.sp == 0,
            data.ttbr0 == 0,
            forall|i: int| 0 <= i < 11 ==> data.s[i] == 0,
    {
        ContextData::new(0, 0, 0)
    }
}

impl SavedContext for ContextData {
    open spec fn on_stack() -> bool {
        false
    }

    fn lies_on_stack() -> (on_stack: bool) {
        false
    }

    fn fresh(pc: usize, sp: usize, pgbr: usize) -> (data: Self) {
        ContextData::new(pc, sp, pgbr)
    }

    open spec fn saved_pc(&self) -> usize {
        self.lr
    }

    open spec fn saved_sp(&self, at: usize) -> usize {
        self.sp
    }

    open spec fn saved_pgbr(&self) -> usize {
        self.ttbr0
    }

    fn pc(&self) -> (pc: usize) {
        self.lr
    }

    fn sp(&self, at: usize) -> (sp: usize) {
        self.sp
    }

    fn pgbr(&self) -> (pgbr: usize) {
        self.ttbr0
    }
}

} // verus!
