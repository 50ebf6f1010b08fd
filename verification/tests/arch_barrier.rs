use shyper_vm::arch::{
    interrupt_arch_enable, interrupt_arch_init, interrupt_arch_ipi_send, GIC_INT_PRIO,
    PTE_S2_NORMAL, PTE_S2_RO,
};
use shyper_vm::barrier::{round_up, CpuSyncToken};

#[test]
fn enable_routes_to_cpu_interface() {
    let c = interrupt_arch_enable(2, 27, true);
    assert_eq!(c.int_id, 27);
    assert!(c.enable);
    assert_eq!(c.prio, GIC_INT_PRIO);
    assert_eq!(c.prio, 0x7f);
    assert_eq!(c.target, 0b100);
    assert!(!interrupt_arch_enable(0, 27, false).enable);
}

#[test]
fn ipi_only_for_sgis() {
    let r = interrupt_arch_ipi_send(3, 1).unwrap();
    assert_eq!(r.cpu_if, 3);
    assert_eq!(r.ipi_id, 1);
    assert!(interrupt_arch_ipi_send(3, 15).is_some());
    assert!(interrupt_arch_ipi_send(3, 16).is_none());
}

#[test]
fn init_plan_global_only_on_boot_cpu() {
    let p0 = interrupt_arch_init(0, 0, 25);
    assert!(p0.global_init);
    assert_eq!(p0.maintenance_int_id, 25);
    assert_eq!(p0.enable.int_id, 25);
    assert!(p0.enable.enable);
    assert_eq!(p0.enable.target, 1);
    let p1 = interrupt_arch_init(1, 1, 25);
    assert!(!p1.global_init);
    assert_eq!(p1.enable.target, 2);
}

#[test]
fn stage2_entry_values() {
    assert_eq!(PTE_S2_NORMAL, 0x7fd);
    assert_eq!(PTE_S2_RO, 0x77d);
}

#[test]
fn round_up_values() {
    assert_eq!(round_up(0, 4), 0);
    assert_eq!(round_up(1, 4), 4);
    assert_eq!(round_up(4, 4), 4);
    assert_eq!(round_up(5, 4), 8);
}

#[test]
fn barrier_round_releases_after_all_arrive() {
    let mut t = CpuSyncToken::new(3);
    let a = t.barrier();
    assert_eq!(a, 3);
    assert!(!t.barrier_passed(a));
    let b = t.barrier();
    assert_eq!(b, 3);
    assert!(!t.barrier_passed(b));
    let c = t.barrier();
    assert_eq!(c, 3);
    assert!(t.barrier_passed(a));
    let d = t.barrier();
    assert_eq!(d, 6);
    t.add_barrier_count();
    assert_eq!(t.count, 5);
}
