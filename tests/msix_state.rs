use hv_msix::capability::{init_msix, msix_layout, MsixLayout};
use hv_msix::msix::{Msix, MsixError};

const CAP: u16 = 0x40;

fn config_with_control(enabled: bool, func_masked: bool) -> Vec<u8> {
    let mut config = vec![0u8; 256];
    let mut hi = 0u8;
    if enabled {
        hi |= 0x80;
    }
    if func_masked {
        hi |= 0x40;
    }
    config[CAP as usize + 3] = hi;
    config
}

/// Applies a guest write of the control register's upper byte.
fn set_control(m: &mut Msix, enabled: bool, func_masked: bool) -> Vec<hv_msix::msix::MsixDelivery> {
    let config = config_with_control(enabled, func_masked);
    let byte = [config[CAP as usize + 3]];
    m.write_config(&config, 7, CAP as usize + 3, &byte)
}

fn state(vectors: u32) -> Msix {
    Msix::new(vectors * 16, (vectors + 63) / 64 * 8, CAP)
}

#[test]
fn new_state_is_masked_and_zeroed() {
    let m = state(4);
    assert_eq!(m.table.len(), 64);
    assert_eq!(m.pba.len(), 8);
    assert!(m.func_masked);
    assert!(m.enabled);
    assert!(m.table.iter().all(|b| *b == 0));
    for v in 0..4 {
        assert!(m.is_vector_masked(v));
        assert!(!m.is_vector_pending(v));
    }
}

#[test]
fn mask_follows_all_three_inputs() {
    for enabled in [false, true] {
        for func_masked in [false, true] {
            for bit in [false, true] {
                let mut m = state(4);
                m.enabled = enabled;
                m.func_masked = func_masked;
                m.table[16 + 12] = if bit { 1 } else { 0 };
                assert_eq!(m.is_vector_masked(1), !enabled || func_masked || bit);
            }
        }
    }
}

#[test]
fn notify_while_masked_only_marks_pending() {
    let mut m = state(4);
    assert_eq!(m.notify(2, 7), None);
    assert!(m.is_vector_pending(2));
    assert_eq!(m.pba[0], 0b100);
    assert_eq!(m.notify(2, 7), None);
    assert!(m.is_vector_pending(2));
    assert_eq!(m.pba[0], 0b100);
    assert!(!m.is_vector_pending(1));
}

#[test]
fn notify_out_of_range_is_ignored() {
    let mut m = state(4);
    assert_eq!(m.notify(4, 7), None);
    assert_eq!(m.notify(100, 7), None);
    assert!(m.pba.iter().all(|b| *b == 0));
}

#[test]
fn notify_unmasked_delivers_at_once() {
    let mut m = state(4);
    assert!(set_control(&mut m, true, false).is_empty());
    m.table[48..56].copy_from_slice(&0xfee0_1000u64.to_le_bytes());
    m.table[56..60].copy_from_slice(&0x41u32.to_le_bytes());
    let d = m.notify(3, 9).expect("delivered");
    assert_eq!(d.vector, 3);
    assert_eq!(d.dev_id, 9);
    assert_eq!(d.msg.msi_addr, 0xfee0_1000);
    assert_eq!(d.msg.msi_data, 0x41);
    assert!(!m.is_vector_pending(3));
}

#[test]
fn global_unmask_delivers_pending_once() {
    let mut m = state(4);
    assert!(m.is_vector_masked(1));
    assert_eq!(m.notify(1, 7), None);
    assert!(m.is_vector_pending(1));
    let out = set_control(&mut m, true, false);
    assert_eq!(out.len(), 1);
    assert_eq!(out[0].vector, 1);
    assert_eq!(out[0].dev_id, 7);
    assert!(!m.is_vector_pending(1));
    assert!(!m.func_masked);
    let again = set_control(&mut m, true, false);
    assert!(again.is_empty());
}

#[test]
fn global_unmask_keeps_vectors_masked_by_their_own_bit() {
    let mut m = state(4);
    m.table[2 * 16 + 12] = 1;
    m.notify(0, 7);
    m.notify(2, 7);
    m.notify(3, 7);
    let out = set_control(&mut m, true, false);
    let vectors: Vec<u16> = out.iter().map(|d| d.vector).collect();
    assert_eq!(vectors, vec![0, 3]);
    assert!(m.is_vector_pending(2));
    assert!(!m.is_vector_pending(0));
    assert!(!m.is_vector_pending(3));
}

#[test]
fn config_write_elsewhere_is_ignored() {
    let mut m = state(4);
    m.notify(1, 7);
    let config = config_with_control(true, false);
    assert!(m.write_config(&config, 7, CAP as usize + 2, &[0u8]).is_empty());
    assert!(m.write_config(&config, 7, 0, &[0u8; 4]).is_empty());
    assert!(m.func_masked);
    assert!(m.is_vector_pending(1));
    let out = m.write_config(&config, 7, CAP as usize, &[0u8; 4]);
    assert_eq!(out.len(), 1);
}

#[test]
fn per_vector_unmask_delivers_once() {
    let mut m = state(4);
    set_control(&mut m, true, false);
    assert_eq!(m.region_write(44, 4, &[1, 0, 0, 0], 7), Ok(None));
    assert!(m.is_vector_masked(2));
    assert_eq!(m.region_write(32, 4, &[0x00, 0x20, 0xe0, 0xfe], 7), Ok(None));
    assert_eq!(m.region_write(40, 4, &[0x31, 0, 0, 0], 7), Ok(None));
    assert_eq!(m.notify(2, 7), None);
    assert!(m.is_vector_pending(2));
    let d = m.region_write(44, 4, &[0, 0, 0, 0], 7).expect("in range").expect("delivered");
    assert_eq!(d.vector, 2);
    assert_eq!(d.msg.msi_addr, 0xfee0_2000);
    assert_eq!(d.msg.msi_data, 0x31);
    assert!(!m.is_vector_pending(2));
    assert_eq!(&m.table[32..48], &[0x00, 0x20, 0xe0, 0xfe, 0, 0, 0, 0, 0x31, 0, 0, 0, 0, 0, 0, 0]);
    assert_eq!(m.region_write(44, 4, &[0, 0, 0, 0], 7), Ok(None));
}

#[test]
fn region_bounds() {
    let mut m = state(4);
    assert_eq!(m.region_read(72, 1), Err(MsixError::OutOfRange));
    assert_eq!(m.region_write(71, 4, &[1, 2, 3, 4], 7), Err(MsixError::OutOfRange));
    assert_eq!(m.region_read(u64::MAX, 4), Err(MsixError::OutOfRange));
    m.notify(0, 7);
    m.notify(3, 7);
    assert_eq!(m.region_read(64, 8), Ok(0b1001));
    assert_eq!(m.region_read(68, 4), Ok(0));
    assert_eq!(m.region_read(71, 1), Ok(0));
    let before = m.pba.clone();
    assert_eq!(m.region_write(64, 4, &[0xff, 0xff, 0xff, 0xff], 7), Ok(None));
    assert_eq!(m.pba, before);
}

#[test]
fn region_read_of_table_is_little_endian() {
    let mut m = state(4);
    assert_eq!(m.region_write(16, 4, &[0x78, 0x56, 0x34, 0x12], 7), Ok(None));
    assert_eq!(m.region_read(16, 4), Ok(0x1234_5678));
    assert_eq!(m.region_read(17, 2), Ok(0x3456));
    assert_eq!(m.region_read(16, 0), Ok(0));
    assert_eq!(m.get_msix_vector(1).msi_addr, 0x1234_5678);
}

#[test]
fn reset_restores_defaults() {
    let mut m = state(4);
    set_control(&mut m, true, false);
    m.region_write(12, 4, &[1, 0, 0, 0], 7).unwrap();
    m.region_write(20, 4, &[9, 9, 9, 9], 7).unwrap();
    m.notify(0, 7);
    m.reset();
    assert!(m.func_masked);
    assert!(m.enabled);
    assert!(m.table.iter().all(|b| *b == 0));
    assert!(m.pba.iter().all(|b| *b == 0));
    for v in 0..4 {
        assert!(m.is_vector_masked(v));
        assert!(!m.is_vector_pending(v));
    }
}

#[test]
fn single_vector_scenario() {
    let mut m = state(1);
    assert!(m.is_vector_masked(0));
    assert_eq!(m.notify(0, 3), None);
    assert!(m.is_vector_pending(0));
    let out = set_control(&mut m, true, false);
    assert_eq!(out.len(), 1);
    assert_eq!(out[0].vector, 0);
    assert_eq!(out[0].dev_id, 7);
    assert_eq!(out[0].msg.msi_addr, 0);
    assert_eq!(out[0].msg.msi_data, 0);
    assert!(!m.is_vector_pending(0));
}

#[test]
fn pending_bits_beyond_first_word() {
    let mut m = state(130);
    assert_eq!(m.pba.len(), 24);
    m.notify(129, 7);
    m.notify(64, 7);
    assert!(m.is_vector_pending(129));
    assert!(m.is_vector_pending(64));
    assert!(!m.is_vector_pending(65));
    assert_eq!(m.pba[8], 1);
    assert_eq!(m.pba[16], 2);
    m.clear_pending_vectors();
    assert!(m.pba.iter().all(|b| *b == 0));
}

#[test]
fn mask_all_vectors_sets_each_control_bit() {
    let mut m = state(3);
    m.mask_all_vectors();
    for v in 0..3usize {
        assert_eq!(m.table[v * 16 + 12], 1);
        assert_eq!(m.table[v * 16 + 13], 0);
    }
    assert_eq!(m.table.iter().filter(|b| **b != 0).count(), 3);
}

#[test]
fn control_flags_read_from_config() {
    let m = state(1);
    let config = config_with_control(true, true);
    assert!(m.is_enabled(&config));
    assert!(m.is_func_masked(&config));
    let config = config_with_control(false, false);
    assert!(!m.is_enabled(&config));
    assert!(!m.is_func_masked(&config));
}

#[test]
fn default_layout_of_four_vectors() {
    assert_eq!(
        msix_layout(4, None),
        Ok(MsixLayout { table_size: 64, pba_size: 8, table_offset: 0, pba_offset: 64, bar_size: 4096 })
    );
}

#[test]
fn layout_rejects_overlap_and_bad_counts() {
    assert_eq!(msix_layout(4, Some((0, 32))), Err(MsixError::InvalidCapabilityLayout));
    assert_eq!(msix_layout(4, Some((32, 64))), Err(MsixError::InvalidCapabilityLayout));
    assert_eq!(msix_layout(0, None), Err(MsixError::InvalidCapabilityLayout));
    assert_eq!(msix_layout(2049, None), Err(MsixError::InvalidCapabilityLayout));
    assert_eq!(
        msix_layout(4, Some((0x1000, 0))),
        Ok(MsixLayout { table_size: 64, pba_size: 8, table_offset: 0x1000, pba_offset: 0, bar_size: 4096 })
    );
}

#[test]
fn layout_of_largest_table() {
    let l = msix_layout(2048, None).unwrap();
    assert_eq!(l.table_size, 32768);
    assert_eq!(l.pba_size, 256);
    assert_eq!(l.pba_offset, 32768);
    assert_eq!(l.bar_size, 65536);
}

#[test]
fn install_writes_capability_registers() {
    let mut config = vec![0u8; 256];
    let mut mask = vec![0u8; 256];
    let (m, l) = init_msix(&mut config, &mut mask, CAP, 2, 4, None).unwrap();
    assert_eq!(l.bar_size, 4096);
    assert_eq!(&config[0x42..0x4c], &[3, 0, 2, 0, 0, 0, 0x42, 0, 0, 0]);
    assert_eq!(&mask[0x42..0x44], &[0x00, 0xc0]);
    assert_eq!(m.table.len(), 64);
    assert_eq!(m.pba.len(), 8);
    assert_eq!(m.msix_cap_offset, CAP);
    assert!(m.func_masked && m.enabled);
}

#[test]
fn install_rejects_bad_layout_without_writing() {
    let mut config = vec![0u8; 256];
    let mut mask = vec![0u8; 256];
    let r = init_msix(&mut config, &mut mask, CAP, 0, 4, Some((0, 16)));
    assert!(matches!(r, Err(MsixError::InvalidCapabilityLayout)));
    assert!(config.iter().all(|b| *b == 0));
    assert!(mask.iter().all(|b| *b == 0));
    let r = init_msix(&mut config, &mut mask, CAP, 0, 0, None);
    assert!(matches!(r, Err(MsixError::InvalidCapabilityLayout)));
}

#[test]
fn no_vector_stays_pending_while_unmasked() {
    let mut m = state(8);
    m.table[5 * 16 + 12] = 1;
    for v in 0..8 {
        m.notify(v, 7);
    }
    set_control(&mut m, true, false);
    assert_eq!(m.table_write(5 * 16 + 12, &[0, 0, 0, 0], 7).map(|d| d.vector), Some(5));
    set_control(&mut m, true, true);
    m.notify(6, 7);
    set_control(&mut m, true, false);
    for v in 0..8 {
        assert!(!m.is_vector_pending(v) || m.is_vector_masked(v));
    }
    assert!(m.pba.iter().all(|b| *b == 0));
}
