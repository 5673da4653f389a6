//! Saved execution contexts: where the registers of a suspended runtime or
//! executor are kept.

use vstd::prelude::*;

verus! {

/// A saved register record, as one architecture lays it out.
pub trait SavedContext: Sized {
    /// Whether the record of a suspended context lies at the top of the
    /// stack of that context, so that its address is the stack pointer;
    /// else the record holds the stack pointer and may lie anywhere.
    spec fn on_stack() -> bool;

    /// The program counter at which the context resumes.
    spec fn saved_pc(&self) -> usize;

    /// The stack pointer with which the context resumes, for a record that
    /// is kept at the address `at`.
    spec fn saved_sp(&self, at: usize) -> usize;

    /// The page-table base with which the context resumes.
    spec fn saved_pgbr(&self) -> usize;

    /// Whether the record lies at the top of the stack of its context.
    fn lies_on_stack() -> (on_stack: bool)
        ensures
            on_stack == Self::on_stack(),
    ;

    /// The record of a context that starts at `pc` with the page-table
    /// base `pgbr`, and with the stack pointer `sp` where the record
    /// holds one.
    fn fresh(pc: usize, sp: usize, pgbr: usize) -> (data: Self)
        ensures
            data.saved_pc() == pc,
            data.saved_pgbr() == pgbr,
            forall|at: usize| #[trigger]
                data.saved_sp(at) == if Self::on_stack() {
                    at
                } else {
                    sp
                },
    ;

    /// The program counter at which the context resumes.
    fn pc(&self) -> (pc: usize)
        ensures
            pc == self.saved_pc(),
    ;

    /// The stack pointer with which the context resumes, for a record that
    /// is kept at the address `at`.
    fn sp(&self, at: usize) -> (sp: usize)
        ensures
            sp == self.saved_sp(at),
    ;

    /// The page-table base with which the context resumes.
    fn pgbr(&self) -> (pgbr: usize)
        ensures
            pgbr == self.saved_pgbr(),
    ;
}

/// The address of a saved register record. The address zero stands for no
/// record.
#[derive(Debug, Clone, Copy)]
pub struct Context {
    context: usize,
}

impl View for Context {
    type V = usize;

    closed spec fn view(&self) -> usize {
        self.context
    }
}

impl Default for Context {
    fn default() -> (context: Self)
        ensures
            context@ == 0,
    {
        Context { context: 0 }
    }
}

impl Context {
    /// Points the context at the record at `addr`.
    pub fn set_context(&mut self, addr: usize)
        ensures
            final(self)@ == addr,
    {
        self.context = addr;
    }

    /// The address of the record.
    pub fn get_context(&self) -> (addr: usize)
        ensures
            addr == self@,
    {
        self.context
    }

    /// The stack pointer with which the context resumes, read from its
    /// record `data`.
    pub fn get_sp<D: SavedContext>(&self, data: &D) -> (sp: usize)
        ensures
            sp == data.saved_sp(self@),
    {
        data.sp(self.context)
    }

    /// The program counter at which the context resumes, read from its
    /// record `data`.
    pub fn get_pc<D: SavedContext>(&self, data: &D) -> (pc: usize)
        ensures
            pc == data.saved_pc(),
    {
        data.pc()
    }

    /// The page-table base with which the context resumes, read from its
    /// record `data`.
    pub fn get_pgbr<D: SavedContext>(&self, data: &D) -> (pgbr: usize)
        ensures
            pgbr == data.saved_pgbr(),
    {
        data.pgbr()
    }
}

} // verus!
