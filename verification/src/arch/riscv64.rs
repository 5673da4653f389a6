//! The saved register record of RISC-V (64 bit).

use crate::context::SavedContext;
use vstd::prelude::*;

verus! {

/// The registers that a context switch saves, in the order in which they
/// lie in memory.
#[derive(Debug, Clone, Copy)]
pub struct ContextData {
    /// The return address: the program counter.
    pub ra: usize,
    /// The stack pointer.
    pub sp: usize,
    /// The callee-saved registers.
    pub s: [usize; 12],
    /// The page-table base register.
    pub satp: usize,
}

impl ContextData {
    /// The record of a context that starts at `ra` on the stack `sp` with
    /// the page-table base `satp`; the other registers are zero.
    pub fn new(ra: usize, sp: usize, satp: usize) -> (data: Self)
        ensures
            data.ra == ra,
            data.sp == sp,
            data.satp == satp,
            forall|i: int| 0 <= i < 12 ==> data.s[i] == 0,
    {
        ContextData { ra, sp, s: [0; 12], satp }
    }
}

impl Default for ContextData {
    fn default() -> (data: Self)
        ensures
            data.ra == 0,
            data.sp == 0,
            data.satp == 0,
            forall|i: int| 0 <= i < 12 ==> data.s[i] == 0,
    {
        ContextData::new(0, 0, 0)
    }
}

impl SavedContext for ContextData {
    open spec fn on_stack() -> bool {
        false
    }

    fn lies_on_stack() -> (on_stack: bool) {
        false
    }

    fn fresh(pc: usize, sp: usize, pgbr: usize) -> (data: Self) {
        ContextData::new(pc, sp, pgbr)
    }

    open spec fn saved_pc(&self) -> usize {
        self.ra
    }

    open spec fn saved_sp(&self, at: usize) -> usize {
        self.sp
    }

    open spec fn saved_pgbr(&self) -> usize {
        self.satp
    }

    fn pc(&self) -> (pc: usize) {
        self.ra
    }

    fn sp(&self, at: usize) -> (sp: usize) {
        self.sp
    }

    fn pgbr(&self) -> (pgbr: usize) {
        self.satp
    }
}

} // verus!
