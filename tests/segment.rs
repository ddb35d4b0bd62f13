use hv_msix::segment::{segment_layout, SegmentLayout};

#[test]
fn unaligned_segment_covers_whole_pages() {
    assert_eq!(
        segment_layout(0x1234, 0x2000),
        Some(SegmentLayout {
            start_va: 0x1234,
            end_va: 0x3234,
            start_aligned_va: 0x1000,
            end_aligned_va: 0x4000,
            offset: 0x234,
            num_pages: 3,
        })
    );
}

#[test]
fn aligned_segment_needs_no_extra_page() {
    let l = segment_layout(0x40_0000, 0x3000).unwrap();
    assert_eq!(l.start_aligned_va, 0x40_0000);
    assert_eq!(l.end_aligned_va, 0x40_3000);
    assert_eq!(l.offset, 0);
    assert_eq!(l.num_pages, 3);
}

#[test]
fn empty_segment_at_page_start_needs_no_page() {
    let l = segment_layout(0x2000, 0).unwrap();
    assert_eq!(l.num_pages, 0);
    let l = segment_layout(0x2001, 0).unwrap();
    assert_eq!(l.num_pages, 1);
}

#[test]
fn segment_past_the_address_space_is_refused() {
    assert_eq!(segment_layout(usize::MAX - 10, 1), None);
    assert_eq!(segment_layout(1, usize::MAX - 4095), None);
    assert!(segment_layout(0, usize::MAX - 4095).is_some());
}
