use shyper_vm::mm::PageFrame;
use shyper_vm::vm_if::{
    vm_if_clear_mem_map, vm_if_cmp_mac, vm_if_copy_mem_map, vm_if_dirty_mem_map,
    vm_if_get_cpu_id, vm_if_get_state, vm_if_get_type, vm_if_init_mem_map, vm_if_ivc_arg,
    vm_if_ivc_arg_ptr, vm_if_mem_map_cache, vm_if_mem_map_dirty_sum, vm_if_mem_map_page_num,
    vm_if_set_cpu_id, vm_if_set_ivc_arg, vm_if_set_ivc_arg_ptr, vm_if_set_mac, vm_if_set_mem_map,
    vm_if_set_mem_map_cache, vm_if_set_state, vm_if_set_type, VmIfList, VmInterface, VmState,
    VmType, VM_NUM_MAX,
};

#[test]
fn vm_interface_default_values() {
    let e = VmInterface::default();
    assert_eq!(e.master_cpu_id, 0);
    assert_eq!(e.state, VmState::VmPending);
    assert_eq!(e.vm_type, VmType::VmTBma);
    assert_eq!(e.mac, [0u8; 6]);
    assert_eq!(e.ivc_arg, 0);
    assert_eq!(e.ivc_arg_ptr, 0);
    assert!(e.mem_map.is_none());
    assert!(e.mem_map_cache.is_none());
}

#[test]
fn vm_type_from_usize_values() {
    assert_eq!(VmType::from_usize(0), VmType::VmTOs);
    assert_eq!(VmType::from_usize(1), VmType::VmTBma);
}

#[test]
fn state_and_type_read_back() {
    let mut l = VmIfList::new();
    for id in 0..VM_NUM_MAX {
        assert_eq!(vm_if_get_state(&l, id), VmState::VmPending);
        assert_eq!(vm_if_get_type(&l, id), VmType::VmTBma);
    }
    vm_if_set_state(&mut l, 3, VmState::VmActive);
    vm_if_set_type(&mut l, 3, VmType::VmTOs);
    assert_eq!(vm_if_get_state(&l, 3), VmState::VmActive);
    assert_eq!(vm_if_get_type(&l, 3), VmType::VmTOs);
    assert_eq!(vm_if_get_state(&l, 2), VmState::VmPending);
    assert_eq!(vm_if_get_type(&l, 4), VmType::VmTBma);
    vm_if_set_state(&mut l, 3, VmState::VmInv);
    assert_eq!(vm_if_get_state(&l, 3), VmState::VmInv);
}

#[test]
fn cpu_and_ivc_read_back() {
    let mut l = VmIfList::new();
    vm_if_set_cpu_id(&mut l, 1, 5);
    vm_if_set_ivc_arg(&mut l, 1, 0x1234);
    vm_if_set_ivc_arg_ptr(&mut l, 1, 0x8000_0000);
    assert_eq!(vm_if_get_cpu_id(&l, 1), 5);
    assert_eq!(vm_if_ivc_arg(&l, 1), 0x1234);
    assert_eq!(vm_if_ivc_arg_ptr(&l, 1), 0x8000_0000);
    assert_eq!(vm_if_get_cpu_id(&l, 0), 0);
    assert_eq!(vm_if_ivc_arg(&l, 7), 0);
}

#[test]
fn mac_comparison() {
    let l = VmIfList::new();
    assert!(vm_if_cmp_mac(&l, 0, &[0, 0, 0, 0, 0, 0]));
    assert!(vm_if_cmp_mac(&l, 0, &[0, 0, 0, 0, 0, 0, 9, 9]));
    assert!(!vm_if_cmp_mac(&l, 0, &[0, 0, 0, 0, 0, 1]));
    assert!(!vm_if_cmp_mac(&l, 0, &[1, 2]));
}

#[test]
fn mem_map_dirty_tracking() {
    let mut l = VmIfList::new();
    vm_if_init_mem_map(&mut l, 2, 100);
    assert_eq!(vm_if_mem_map_dirty_sum(&l, 2), 0);
    vm_if_set_mem_map(&mut l, 2, 5);
    vm_if_set_mem_map(&mut l, 2, 70);
    vm_if_set_mem_map(&mut l, 2, 5);
    assert_eq!(vm_if_mem_map_dirty_sum(&l, 2), 2);
    vm_if_dirty_mem_map(&mut l, 2);
    assert_eq!(vm_if_mem_map_dirty_sum(&l, 2), 100);
    vm_if_clear_mem_map(&mut l, 2);
    assert_eq!(vm_if_mem_map_dirty_sum(&l, 2), 0);
}

#[test]
fn mem_map_copy_takes_and_clears() {
    let mut l = VmIfList::new();
    vm_if_init_mem_map(&mut l, 0, 128);
    assert!(vm_if_mem_map_cache(&l, 0).is_none());
    vm_if_set_mem_map_cache(&mut l, 0, PageFrame { pa: 0x4000_0000, page_num: 1 });
    assert_eq!(vm_if_mem_map_cache(&l, 0).unwrap().pa, 0x4000_0000);
    vm_if_set_mem_map(&mut l, 0, 1);
    vm_if_set_mem_map(&mut l, 0, 64);
    let c = vm_if_copy_mem_map(&mut l, 0);
    assert_eq!(c.dst_pa, 0x4000_0000);
    assert_eq!(c.words, vec![2u64, 1u64]);
    assert_eq!(vm_if_mem_map_dirty_sum(&l, 0), 0);
}

#[test]
fn mem_map_page_count() {
    let mut l = VmIfList::new();
    vm_if_init_mem_map(&mut l, 0, 64 * 512);
    assert_eq!(vm_if_mem_map_page_num(&l, 0), 1);
    vm_if_init_mem_map(&mut l, 0, 64 * 1024 + 1);
    assert_eq!(vm_if_mem_map_page_num(&l, 0), 2);
    vm_if_init_mem_map(&mut l, 0, 64);
    assert_eq!(vm_if_mem_map_page_num(&l, 0), 0);
}

#[test]
fn mac_set_then_compare() {
    let mut l = VmIfList::new();
    vm_if_set_mac(&mut l, 1, [1, 2, 3, 4, 5, 6]);
    assert!(vm_if_cmp_mac(&l, 1, &[1, 2, 3, 4, 5, 6, 0xff]));
    assert!(!vm_if_cmp_mac(&l, 1, &[1, 2, 3, 4, 5, 7]));
    assert!(!vm_if_cmp_mac(&l, 1, &[0, 2, 3, 4, 5, 6]));
    assert!(vm_if_cmp_mac(&l, 0, &[0, 0, 0, 0, 0, 0]));
    assert_eq!(l.slot(1).mac, [1, 2, 3, 4, 5, 6]);
}

#[test]
fn write_to_other_slot_keeps_slot() {
    let mut l = VmIfList::new();
    vm_if_set_state(&mut l, 2, VmState::VmActive);
    vm_if_set_mem_map_cache(&mut l, 2, PageFrame { pa: 0x1000, page_num: 1 });
    vm_if_set_state(&mut l, 5, VmState::VmInv);
    vm_if_set_cpu_id(&mut l, 5, 3);
    assert_eq!(vm_if_get_state(&l, 2), VmState::VmActive);
    assert_eq!(vm_if_mem_map_cache(&l, 2).unwrap().pa(), 0x1000);
    assert_eq!(vm_if_mem_map_cache(&l, 2).unwrap().pa(), 0x1000);
    assert_eq!(vm_if_get_cpu_id(&l, 2), 0);
}
