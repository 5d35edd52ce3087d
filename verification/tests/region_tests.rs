use memscan::region::{MemoryRegion, RegionCursor};

fn region(base_address: u64, size: u64) -> MemoryRegion {
    MemoryRegion { base_address, size, is_committed: true, is_image_backed: false }
}

#[test]
fn scannable_regions_are_committed_and_private() {
    let mut r = region(0x1000, 0x1000);
    assert!(r.is_scannable());
    r.is_image_backed = true;
    assert!(!r.is_scannable());
    r.is_committed = false;
    assert!(!r.is_scannable());
    r.is_image_backed = false;
    assert!(!r.is_scannable());
}

#[test]
fn cursor_starts_at_the_start_address() {
    let cursor = RegionCursor::new(0x4000);
    assert_eq!(cursor.query_address(), Some(0x4000));
    assert!(!cursor.is_finished());
}

#[test]
fn cursor_moves_to_the_end_of_each_region() {
    let mut cursor = RegionCursor::new(0x1800);
    // the region that holds the start address begins before it
    assert_eq!(cursor.advance(Some(region(0x1000, 0x1000))), Some(region(0x1000, 0x1000)));
    assert_eq!(cursor.query_address(), Some(0x2000));
    assert_eq!(cursor.advance(Some(region(0x2000, 0x3000))), Some(region(0x2000, 0x3000)));
    assert_eq!(cursor.query_address(), Some(0x5000));
    // a gap before the next region
    assert_eq!(cursor.advance(Some(region(0x9000, 0x1000))), Some(region(0x9000, 0x1000)));
    assert_eq!(cursor.query_address(), Some(0xA000));
}

#[test]
fn walk_is_ordered_and_always_moves_forward() {
    let answers = [
        region(0x0, 0x1000),
        region(0x1000, 0x10),
        region(0x1010, 0x7000),
        region(0x10000, 0x1),
        region(0x10001, 0xFFFF),
    ];
    let mut cursor = RegionCursor::new(0);
    let mut last_base: Option<u64> = None;
    let mut last_address: u64 = 0;
    let mut first = true;
    for answer in answers {
        let yielded = cursor.advance(Some(answer)).unwrap();
        if let Some(base) = last_base {
            assert!(base <= yielded.base_address);
        }
        last_base = Some(yielded.base_address);
        let address = cursor.query_address().unwrap();
        if first {
            assert!(address > 0);
            first = false;
        } else {
            assert!(address > last_address);
        }
        last_address = address;
    }
    assert_eq!(last_address, 0x20000);
}

#[test]
fn walk_ends_when_no_region_is_described() {
    let mut cursor = RegionCursor::new(0x1000);
    assert_eq!(cursor.advance(None), None);
    assert!(cursor.is_finished());
    assert_eq!(cursor.query_address(), None);
}

#[test]
fn walk_ends_on_a_region_of_size_zero() {
    let mut cursor = RegionCursor::new(0x1000);
    assert_eq!(cursor.advance(Some(region(0x1000, 0))), None);
    assert!(cursor.is_finished());
}

#[test]
fn walk_ends_on_a_region_that_does_not_move_it_forward() {
    let mut cursor = RegionCursor::new(0x5000);
    assert_eq!(cursor.advance(Some(region(0x1000, 0x1000))), None);
    assert!(cursor.is_finished());

    let mut exact = RegionCursor::new(0x5000);
    assert_eq!(exact.advance(Some(region(0x4000, 0x1000))), None);
    assert!(exact.is_finished());
}

#[test]
fn walk_ends_on_a_region_that_reaches_back() {
    let mut cursor = RegionCursor::new(0);
    assert!(cursor.advance(Some(region(0x0, 0x2000))).is_some());
    // begins inside the region before it
    assert_eq!(cursor.advance(Some(region(0x1000, 0x5000))), None);
    assert!(cursor.is_finished());
}

#[test]
fn walk_ends_on_a_region_beyond_the_address_space() {
    let mut cursor = RegionCursor::new(0);
    assert_eq!(cursor.advance(Some(region(u64::MAX, 2))), None);
    assert!(cursor.is_finished());

    let mut wide = RegionCursor::new(0);
    assert_eq!(wide.advance(Some(region(1, u64::MAX))), Some(region(1, u64::MAX)));
    assert!(wide.is_finished());

    let mut too_wide = RegionCursor::new(0);
    assert_eq!(too_wide.advance(Some(region(2, u64::MAX))), None);
}

#[test]
fn last_region_of_the_address_space_ends_the_walk() {
    let mut cursor = RegionCursor::new(u64::MAX - 0xFFF);
    let last = region(u64::MAX - 0xFFF, 0x1000);
    assert_eq!(cursor.advance(Some(last)), Some(last));
    assert!(cursor.is_finished());
    assert_eq!(cursor.query_address(), None);
}

#[test]
fn finished_walk_hands_out_nothing() {
    let mut cursor = RegionCursor::new(0);
    assert_eq!(cursor.advance(None), None);
    assert_eq!(cursor.advance(Some(region(0x1000, 0x1000))), None);
    assert!(cursor.is_finished());
}
