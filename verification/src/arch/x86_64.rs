//! The saved register record of x86-64.

use crate::context::SavedContext;
use vstd::prelude::*;

verus! {

/// The registers that a context switch saves, in the order in which they
/// lie in memory. The stack pointer is not among them: the record lies at
/// the top of the stack it belongs to.
#[derive(Debug, Clone, Copy)]
pub struct ContextData {
    /// The page-table base register.
    pub cr3: usize,
    pub r15: usize,
    pub r14: usize,
    pub r13: usize,
    pub r12: usize,
    pub rbp: usize,
    pub rbx: usize,
    /// The program counter.
    pub rip: usize,
}

impl ContextData {
    /// The record of a context that starts at `rip` with the page-table
    /// base `cr3`; the other registers are zero. The stack pointer is not
    /// kept in the record.
    pub fn new(rip: usize, _sp: usize, cr3: usize) -> (data: Self)
        ensures
            data == (ContextData { cr3, r15: 0, r14: 0, r13: 0, r12: 0, rbp: 0, rbx: 0, rip }),
    {
        ContextData { cr3, r15: 0, r14: 0, r13: 0, r12: 0, rbp: 0, rbx: 0, rip }
    }
}

impl Default for ContextData {
    fn default() -> (data: Self)
        ensures
            data == (ContextData {
                cr3: 0,
                r15: 0,
                r14: 0,
                r13: 0,
                r12: 0,
                rbp: 0,
                rbx: 0,
                rip: 0,
            }),
    {
        ContextData::new(0, 0, 0)
    }
}

impl SavedContext for ContextData {
    open spec fn on_stack() -> bool {
        true
    }

    fn lies_on_stack() -> (on_stack: bool) {
        true
    }

    fn fresh(pc: usize, sp: usize, pgbr: usize) -> (data: Self) {
        ContextData::new(pc, sp, pgbr)
    }

    open spec fn saved_pc(&self) -> usize {
        self.rip
    }

    open spec fn saved_sp(&self, at: usize) -> usize {
        at
    }

    open spec fn saved_pgbr(&self) -> usize {
        self.cr3
    }

    fn pc(&self) -> (pc: usize) {
        self.rip
    }

    fn sp(&self, at: usize) -> (sp: usize) {
        at
    }

    fn pgbr(&self) -> (pgbr: usize) {
        self.cr3
    }
}

} // verus!
