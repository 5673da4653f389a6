use preemptive_scheduler::arch::{aarch64, riscv64, x86_64};
use preemptive_scheduler::context::{Context, SavedContext};

#[test]
fn context_keeps_the_address() {
    let mut context = Context::default();
    assert_eq!(context.get_context(), 0);
    context.set_context(0xFFFF_8000);
    assert_eq!(context.get_context(), 0xFFFF_8000);
}

#[test]
fn x86_64_record_has_no_stack_pointer() {
    let data = x86_64::ContextData::new(0x1000, 0x2000, 0x3000);
    assert_eq!(data.rip, 0x1000);
    assert_eq!(data.cr3, 0x3000);
    assert_eq!(
        (data.r15, data.r14, data.r13, data.r12, data.rbp, data.rbx),
        (0, 0, 0, 0, 0, 0)
    );
    let mut context = Context::default();
    context.set_context(0x7000);
    assert_eq!(context.get_sp(&data), 0x7000);
    assert_eq!(context.get_pc(&data), 0x1000);
    assert_eq!(context.get_pgbr(&data), 0x3000);
    let zero = x86_64::ContextData::default();
    assert_eq!((zero.rip, zero.cr3, zero.rbx), (0, 0, 0));
}

#[test]
fn riscv64_record_keeps_all_three() {
    let data = riscv64::ContextData::new(0x1000, 0x2000, 0x3000);
    assert_eq!((data.ra, data.sp, data.satp), (0x1000, 0x2000, 0x3000));
    assert_eq!(data.s, [0; 12]);
    let mut context = Context::default();
    context.set_context(0x7000);
    assert_eq!(context.get_sp(&data), 0x2000);
    assert_eq!(context.get_pc(&data), 0x1000);
    assert_eq!(context.get_pgbr(&data), 0x3000);
    let zero = riscv64::ContextData::default();
    assert_eq!((zero.ra, zero.sp, zero.satp), (0, 0, 0));
}

#[test]
fn aarch64_record_keeps_all_three() {
    let data = aarch64::ContextData::new(0x1000, 0x2000, 0x3000);
    assert_eq!((data.lr, data.sp, data.ttbr0), (0x1000, 0x2000, 0x3000));
    assert_eq!(data.s, [0; 11]);
    let context = Context::default();
    assert_eq!(context.get_sp(&data), 0x2000);
    assert_eq!(context.get_pc(&data), 0x1000);
    assert_eq!(context.get_pgbr(&data), 0x3000);
    let zero = aarch64::ContextData::default();
    assert_eq!((zero.lr, zero.sp, zero.ttbr0), (0, 0, 0));
}

#[test]
fn only_x86_64_keeps_the_record_on_the_stack() {
    assert!(x86_64::ContextData::lies_on_stack());
    assert!(!riscv64::ContextData::lies_on_stack());
    assert!(!aarch64::ContextData::lies_on_stack());
}

#[test]
fn fresh_record_starts_a_context() {
    let data = x86_64::ContextData::fresh(0x1000, 0x2000, 0x3000);
    assert_eq!((data.pc(), data.sp(0x7000), data.pgbr()), (0x1000, 0x7000, 0x3000));
    let data = riscv64::ContextData::fresh(0x1000, 0x2000, 0x3000);
    assert_eq!((data.pc(), data.sp(0x7000), data.pgbr()), (0x1000, 0x2000, 0x3000));
    let data = aarch64::ContextData::fresh(0x1000, 0x2000, 0x3000);
    assert_eq!((data.pc(), data.sp(0x7000), data.pgbr()), (0x1000, 0x2000, 0x3000));
}
