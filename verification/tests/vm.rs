use shyper_vm::arch::{PAGE_SIZE, PTE_S2_FIELD_AP_RO, PTE_S2_NORMAL, PTE_S2_RO};
use shyper_vm::mm::PageFrame;
use shyper_vm::vm::{
    in_range, push_vm, vm, vm_ipa2pa, vm_list_size, EmuDevs, Vcpu, VmConfigEntry,
    VmEmulatedDeviceConfig, VmInner, VmPa, HCR_EL2_GIC_EMU_VAL, HCR_EL2_GIC_PASSTHROUGH_VAL,
};

fn vcpu(id: usize, phys: usize) -> Vcpu {
    Vcpu { id, phys_id: phys, gich_ctlr: 0, hcr: 0 }
}

fn vm_with_vcpus(phys: &[usize]) -> VmInner {
    let mut v = VmInner::new(1);
    for (i, &p) in phys.iter().enumerate() {
        v.push_vcpu(vcpu(i, p));
    }
    v.set_cpu_num(phys.len());
    v
}

#[test]
fn vm_pa_default_values() {
    let r = VmPa::default();
    assert_eq!((r.pa_start, r.pa_length, r.offset), (0, 0, 0));
}

#[test]
fn new_vm_is_fresh() {
    let v = VmInner::new(5);
    assert_eq!(v.id(), 5);
    assert!(!v.ready());
    assert!(v.config.is_none());
    assert!(v.dtb().is_none());
    assert!(v.pt.is_none());
    assert_eq!(v.mem_region_num(), 0);
    assert_eq!(v.region_num(), 0);
    assert_eq!(v.cpu_num(), 0);
    assert_eq!(v.ncpu(), 0);
    assert!(!v.has_master_cpu());
    assert_eq!(v.share_mem_base(), 0xd_0000_0000);
    assert_eq!(v.int_bitmap.as_ref().unwrap().bit_len(), 4096);
    assert!(!v.has_interrupt(27));
    assert_eq!(VmInner::default().id(), 0);
}

#[test]
fn vcpu_pcpu_lookup() {
    let v = vm_with_vcpus(&[2, 0, 3]);
    assert_eq!(v.vcpuid_to_pcpuid(0), Ok(2));
    assert_eq!(v.vcpuid_to_pcpuid(2), Ok(3));
    assert_eq!(v.vcpuid_to_pcpuid(3), Err(()));
    assert_eq!(v.pcpuid_to_vcpuid(3), Ok(2));
    assert_eq!(v.pcpuid_to_vcpuid(0), Ok(1));
    assert_eq!(v.pcpuid_to_vcpuid(1), Err(()));
}

#[test]
fn cpu_masks_round_trip() {
    let v = vm_with_vcpus(&[2, 0, 3]);
    let p = v.vcpu_to_pcpu_mask(0b101, 3);
    assert_eq!(p, 0b1100);
    let back = v.pcpu_to_vcpu_mask(p, 4);
    assert_eq!(back, 0b101);
    assert_eq!(v.vcpu_to_pcpu_mask(0b111, 3), 0b1101);
    assert_eq!(v.pcpu_to_vcpu_mask(0b1111, 4), 0b111);
    assert_eq!(v.vcpu_to_pcpu_mask(0b1000, 4), 0);
}

#[test]
fn intc_mode_sets_vcpus() {
    let mut v = vm_with_vcpus(&[0, 1]);
    v.init_intc_mode(true);
    for i in 0..2 {
        let c = v.vcpu(i).unwrap();
        assert_eq!(c.gich_ctlr, 0x201);
        assert_eq!(c.hcr, HCR_EL2_GIC_EMU_VAL);
        assert_eq!(c.phys_id(), i);
    }
    v.init_intc_mode(false);
    assert_eq!(v.vcpu(1).unwrap().gich_ctlr, 1);
    assert_eq!(v.vcpu(1).unwrap().hcr, HCR_EL2_GIC_PASSTHROUGH_VAL);
    assert!(v.vcpu(2).is_none());
}

#[test]
fn emu_devices() {
    let mut v = VmInner::new(0);
    v.set_emu_devs(0, EmuDevs::Vgic(7));
    v.set_emu_devs(3, EmuDevs::VirtioNet(1));
    assert_eq!(v.emu_devs.len(), 4);
    assert_eq!(v.emu_dev(1), EmuDevs::NoDevice);
    v.set_emu_devs(1, EmuDevs::VirtioBlk(2));
    v.set_emu_devs(2, EmuDevs::VirtioNet(3));
    assert_eq!(v.emu_dev(1), EmuDevs::VirtioBlk(2));
    assert_eq!(v.emu_net_dev(0), EmuDevs::VirtioNet(3));
    assert_eq!(v.emu_net_dev(1), EmuDevs::VirtioNet(1));
    assert_eq!(v.emu_net_dev(2), EmuDevs::NoDevice);
    assert_eq!(v.emu_blk_dev(0), EmuDevs::VirtioBlk(2));
    assert_eq!(v.emu_blk_dev(1), EmuDevs::NoDevice);
    assert!(v.has_vgic());
    assert_eq!(v.vgic(), 7);
    v.set_intc_dev_id(1);
    assert!(!v.has_vgic());
    v.set_intc_dev_id(9);
    assert!(!v.has_vgic());
}

#[test]
fn config_queries() {
    let mut v = VmInner::new(0);
    v.set_emu_devs(0, EmuDevs::Vgic(0));
    v.set_emu_devs(1, EmuDevs::VirtioConsole(4));
    v.set_emu_devs(2, EmuDevs::VirtioConsole(5));
    v.set_config_entry(Some(VmConfigEntry {
        med_blk_idx: Some(3),
        emulated_device_list: vec![
            VmEmulatedDeviceConfig { base_ipa: 0x800_0000, irq_id: 27 },
            VmEmulatedDeviceConfig { base_ipa: 0xa00_0000, irq_id: 48 },
            VmEmulatedDeviceConfig { base_ipa: 0xa00_0000, irq_id: 49 },
        ],
    }));
    assert_eq!(v.med_blk_id(), 3);
    assert!(v.emu_has_interrupt(48));
    assert!(!v.emu_has_interrupt(50));
    assert_eq!(v.emu_console_dev(0xa00_0000), EmuDevs::VirtioConsole(5));
    assert_eq!(v.emu_console_dev(0x800_0000), EmuDevs::Vgic(0));
    assert_eq!(v.console_dev_index(0x800_0000), Some(0));
    assert_eq!(v.console_dev_index(0xa00_0000), Some(2));
    assert_eq!(v.console_dev_index(0x1), None);
    assert_eq!(v.emu_console_dev(0x1), EmuDevs::NoDevice);
    assert_eq!(v.config().emulated_device_list.len(), 3);
}

#[test]
fn interrupts_bitmap() {
    let mut v = VmInner::new(0);
    v.set_int_bit_map(33);
    assert!(v.has_interrupt(33));
    assert!(!v.has_interrupt(32));
}

#[test]
fn page_table_requests() {
    let mut v = VmInner::new(0);
    v.set_pt(PageFrame { pa: 0x5000_0000, page_num: 1 });
    assert_eq!(v.pt_dir(), 0x5000_0000);
    v.add_region(VmPa { pa_start: 0x8000_0000, pa_length: 0x1000_0000, offset: -0x4000_0000 });
    v.add_region(VmPa { pa_start: 0x2000_0000, pa_length: 0x1000, offset: 0x10 });
    v.set_mem_region_num(2);
    let m = v.pt_map_range(0x1000, 0x2000, 0x9000, PTE_S2_NORMAL);
    assert_eq!((m.pt_dir, m.ipa, m.len, m.pa, m.pte), (0x5000_0000, 0x1000, 0x2000, 0x9000, PTE_S2_NORMAL));
    let ro = v.pt_read_only();
    assert_eq!(ro.len(), 2);
    assert_eq!((ro[0].ipa, ro[0].len, ro[0].ap), (0x4000_0000, 0x1000_0000, PTE_S2_FIELD_AP_RO));
    assert_eq!((ro[1].ipa, ro[1].len), (0x2000_0010, 0x1000));
    let ap = v.pt_set_access_permission(0x8000_0000, 3);
    assert_eq!(ap.len(), 1);
    assert_eq!((ap[0].pt_dir, ap[0].ipa, ap[0].len, ap[0].ap), (0x5000_0000, 0x4000_0000, PAGE_SIZE, 3));
    let none = v.pt_set_access_permission(0x9000_0000, 3);
    assert_eq!(none.len(), 0);
}

#[test]
fn region_accessors() {
    let mut v = VmInner::new(0);
    v.add_region(VmPa { pa_start: 0x100, pa_length: 0x20, offset: -1 });
    assert_eq!(v.region_num(), 1);
    assert_eq!(v.pa_start(0), 0x100);
    assert_eq!(v.pa_length(0), 0x20);
    assert_eq!(v.pa_offset(0), usize::MAX);
}

#[test]
fn ipa_translation() {
    let mut v = VmInner::new(0);
    v.add_region(VmPa { pa_start: 0x8000_0000, pa_length: 0x1000_0000, offset: -0x4000_0000 });
    v.set_mem_region_num(1);
    assert_eq!(vm_ipa2pa(&v, 0), Some(0));
    assert_eq!(vm_ipa2pa(&v, 0x4000_1000), Some(0x8000_1000));
    assert_eq!(vm_ipa2pa(&v, 0x6000_0000), None);
    assert!(in_range(5, 5, 1));
    assert!(!in_range(6, 5, 1));
    assert!(!in_range(4, 5, 1));
}

#[test]
fn vm_list_operations() {
    let mut list: Vec<u32> = Vec::new();
    assert_eq!(push_vm(&mut list, 0, 10), Ok(()));
    assert_eq!(push_vm(&mut list, 1, 11), Ok(()));
    assert_eq!(push_vm(&mut list, 0, 12), Err(()));
    assert_eq!(vm_list_size(&list), 2);
    assert_eq!(vm(&list, 1), Some(&11));
    assert_eq!(vm(&list, 2), None);
}

#[test]
fn migrate_context_frames() {
    let mut v = vm_with_vcpus(&[4]);
    let m = v.context_vm_migrate_init(PageFrame { pa: 0x7000_0000, page_num: 1 }, 0xd_0000_0000);
    assert_eq!((m.ipa, m.len, m.pa, m.pte), (0xd_0000_0000, PAGE_SIZE, 0x7000_0000, PTE_S2_NORMAL));
    let r = v.context_vm_migrate_restore();
    assert_eq!((r.vm_ctx_pa, r.vcpu_ctx_pa, r.vcpu.phys_id), (0x7000_0000, 0x7000_0800, 4));
    let (ctx, map) = v.context_vm_migrate_save(PageFrame { pa: 0x6000_0000, page_num: 1 }, 0xd_0000_1000);
    assert_eq!((ctx.vm_ctx_pa, ctx.vcpu_ctx_pa), (0x6000_0000, 0x6000_0800));
    assert_eq!((map.ipa, map.pa, map.pte), (0xd_0000_1000, 0x6000_0000, PTE_S2_RO));
    assert_eq!(v.migrate_save_pf.len(), 1);
    v.add_share_mem_base(0x1000);
    assert_eq!(v.share_mem_base(), 0xd_0000_1000);
}

#[test]
fn misc_setters() {
    let mut v = VmInner::new(0);
    v.set_dtb(0x4000_0000);
    assert_eq!(v.dtb(), Some(0x4000_0000));
    v.set_ready(true);
    assert!(v.ready());
    v.set_has_master_cpu(true);
    assert!(v.has_master_cpu());
    v.set_ncpu(0b11);
    assert_eq!(v.ncpu(), 3);
    v.set_entry_point(0x8008_0000);
    assert_eq!(v.entry_point, 0x8008_0000);
}
