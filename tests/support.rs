use hv_msix::allocator::{AllocError, EarlyAllocator, PAGE_SIZE};
use hv_msix::dtb::InheritedValues;
use hv_msix::loader::{AppManager, PageTable, TaskContext};
use hv_msix::msr::Ia32UmwaitControl;
use hv_msix::num::is_power_of_two;
use hv_msix::percpu::CpuState;

#[test]
fn allocator_starts_empty() {
    let a = EarlyAllocator::new();
    assert_eq!(a.total_bytes(), 0);
    assert_eq!(a.used_bytes(), 0);
    assert_eq!(a.available_bytes(), 0);
    assert_eq!(a.total_pages(), 0);
}

#[test]
fn allocator_init_aligns_the_range() {
    let mut a = EarlyAllocator::new();
    a.init(0x1003, 0x10000);
    let w = core::mem::size_of::<usize>();
    let start = (0x1003 + w - 1) / w * w;
    let end = (0x1003 + 0x10000) / w * w;
    assert_eq!(a.total_bytes(), end - start);
    assert_eq!(a.used_bytes(), 0);
    assert_eq!(a.available_bytes(), end - start);
}

#[test]
fn bytes_grow_up_and_pages_grow_down() {
    let mut a = EarlyAllocator::new();
    a.init(0x10000, 0x10000);
    assert_eq!(a.alloc_bytes(10, 8), Ok(0x10000));
    assert_eq!(a.used_bytes(), 16);
    assert_eq!(a.alloc_bytes(1, 64), Ok(0x10040));
    assert_eq!(a.used_bytes(), 0x80);
    assert_eq!(a.alloc_pages(2, PAGE_SIZE), Ok(0x1e000));
    assert_eq!(a.used_pages(), 2);
    assert_eq!(a.alloc_pages(1, 0x4000), Ok(0x18000));
    assert_eq!(a.used_pages(), 8);
    assert_eq!(a.available_bytes(), 0x18000 - 0x10080);
    assert_eq!(a.available_pages(), (0x18000 - 0x10080) / PAGE_SIZE);
}

#[test]
fn allocation_errors() {
    let mut a = EarlyAllocator::new();
    a.init(0x10000, 0x4000);
    assert_eq!(a.alloc_bytes(8, 3), Err(AllocError::InvalidParam));
    assert_eq!(a.alloc_bytes(8, 0), Err(AllocError::InvalidParam));
    assert_eq!(a.alloc_bytes(0x5000, 8), Err(AllocError::NoMemory));
    assert_eq!(a.alloc_bytes(usize::MAX, 8), Err(AllocError::NoMemory));
    assert_eq!(a.alloc_pages(1, 0x800), Err(AllocError::InvalidParam));
    assert_eq!(a.alloc_pages(1, 0x3000), Err(AllocError::InvalidParam));
    assert_eq!(a.alloc_pages(0, PAGE_SIZE), Err(AllocError::InvalidParam));
    assert_eq!(a.alloc_pages(5, PAGE_SIZE), Err(AllocError::NoMemory));
    assert_eq!(a.add_memory(0, 0x1000), Err(AllocError::NoMemory));
    assert_eq!(a.used_bytes(), 0);
    assert_eq!(a.used_pages(), 0);
}

#[test]
fn freeing_everything_empties_each_area() {
    let mut a = EarlyAllocator::new();
    a.init(0x10000, 0x10000);
    let p1 = a.alloc_bytes(16, 8).unwrap();
    let p2 = a.alloc_bytes(16, 8).unwrap();
    a.dealloc(p2);
    assert_eq!(a.used_bytes(), 32);
    a.dealloc(p1 + 1);
    assert_eq!(a.used_bytes(), 0);
    let q = a.alloc_pages(1, PAGE_SIZE).unwrap();
    a.dealloc_pages(q + 1, 1);
    assert_eq!(a.used_pages(), 0);
    assert_eq!(a.available_pages(), 16);
}

#[test]
fn power_of_two_test() {
    assert!(is_power_of_two(1));
    assert!(is_power_of_two(4096));
    assert!(!is_power_of_two(0));
    assert!(!is_power_of_two(12));
    assert!(is_power_of_two(1usize << 63));
}

#[test]
fn app_manager_records() {
    let mut m = AppManager::new();
    assert_eq!(m.get_num_app(), 0);
    assert_eq!(m.get_current_id(), 0);
    assert_eq!(m.get_app_start(19), 0);
    m.update_num_app(3);
    m.update_current_id(2);
    m.update_app_start(vec![0x100, 0x200, 0x300]);
    assert_eq!(m.get_num_app(), 3);
    assert_eq!(m.get_current_id(), 2);
    assert_eq!(m.get_app_start(1), 0x200);
    assert_eq!(m.get_app_start(3), 0);
    m.update_app_start(vec![7]);
    assert_eq!(m.get_app_start(0), 7);
    assert_eq!(m.get_app_start(2), 0x300);
    let _ = TaskContext::zero_init();
}

#[test]
fn boot_page_table_entries() {
    let t = PageTable::new(1);
    assert_eq!(t.APP_PT_SV39[0], 0xef);
    assert_eq!(t.APP_PT_SV39[1], 0x2000_00ef);
    assert_eq!(t.APP_PT_SV39[2], 0x2000_00ef);
    assert_eq!(t.APP_PT_SV39[0x102], 0x2000_00ef);
    assert_eq!(t.APP_PT_SV39.iter().filter(|e| **e != 0).count(), 4);
}

#[test]
fn umwait_control_register() {
    let mut r = Ia32UmwaitControl::new(0x1237, 3);
    assert_eq!(r.read(0xe1), 0x1235);
    assert_eq!(r.msr_range(), 0xe1..0xe2);
    r.write(0xe1, 0x1_0000_0042);
    assert_eq!(r.read(0xe1), 0x42);
    let r = Ia32UmwaitControl::new(0, 2);
    let mut r = r;
    assert_eq!(r.read(0xe1), 0);
}

#[test]
fn inherited_values_find_first() {
    let mut v = InheritedValues::new();
    assert_eq!(v.find("#address-cells"), None);
    v.insert(String::from("#address-cells"), 2);
    v.insert(String::from("#size-cells"), 1);
    v.insert(String::from("#address-cells"), 1);
    assert_eq!(v.find("#address-cells"), Some(2));
    assert_eq!(v.find("#size-cells"), Some(1));
    assert_eq!(v.find("#size"), None);
}

#[test]
fn cpu_state_compares() {
    assert_eq!(CpuState::HvEnabled, CpuState::HvEnabled);
    assert_ne!(CpuState::HvEnabled, CpuState::HvDisabled);
}
