use std::sync::Arc;

use reedos_address_space::AddressSpace;
use reedos_address_space::DataSource;
use reedos_address_space::FlagBuilder;
use reedos_address_space::MapEntry;
use reedos_address_space::MapError;
use reedos_address_space::NullDataSource;
use reedos_address_space::SourceIdentity;
use reedos_address_space::PAGE_SIZE;
use reedos_address_space::VADDR_MAX;

#[test]
fn constructors() {
    let _a = AddressSpace::<NullDataSource>::new("my first address space");
    let _ds: NullDataSource = NullDataSource::new(0);
}

#[test]
fn test_add_mapping() {
    let mut addr_space = AddressSpace::new("Test address space");
    let data_source = Arc::new(NullDataSource::new(1));
    let offset: u64 = 0;
    let length: u64 = 1;

    let addr = addr_space
        .add_mapping(data_source, offset, length, FlagBuilder::new())
        .unwrap();
    assert!(addr != 0);
}

#[test]
fn map_entry_new_keeps_its_arguments() {
    let s = Arc::new(NullDataSource::new(6));
    let e: MapEntry<NullDataSource> =
        MapEntry::new(s, 512, PAGE_SIZE, 4 * PAGE_SIZE, FlagBuilder::read());
    assert_eq!(e.source.as_ref().map(|h| h.source_id()), Some(6));
    assert_eq!(e.offset, 512);
    assert_eq!(e.span, PAGE_SIZE);
    assert_eq!(e.addr, 4 * PAGE_SIZE);
    assert_eq!(e.flags, FlagBuilder::read());
}

#[test]
fn new_space_holds_only_the_reserved_page() {
    let a = AddressSpace::<NullDataSource>::new("fresh");
    // Address 0 is mapped (to the reserved record) but grants nothing.
    assert_eq!(
        a.get_source_for_addr(0, FlagBuilder::read()),
        Err(MapError::PermissionDenied)
    );
    // Past page 0 everything is unmapped.
    assert_eq!(a.get_source_for_addr(PAGE_SIZE, FlagBuilder::read()), Ok(None));
    assert_eq!(a.get_source_for_addr(123 * PAGE_SIZE, FlagBuilder::read()), Ok(None));
}

#[test]
fn page_zero_satisfies_no_access_check() {
    let a = AddressSpace::<NullDataSource>::new("page zero");
    // A fresh space denies a read of address 0.
    assert_eq!(
        a.get_source_for_addr(0, FlagBuilder::read()),
        Err(MapError::PermissionDenied)
    );
    // Every other access kind, and even an empty request, is denied too,
    // anywhere inside the reserved page.
    assert_eq!(
        a.get_source_for_addr(0, FlagBuilder::new()),
        Err(MapError::PermissionDenied)
    );
    assert_eq!(
        a.get_source_for_addr(PAGE_SIZE - 1, FlagBuilder::write().toggle_execute()),
        Err(MapError::PermissionDenied)
    );
}

#[test]
fn add_then_resolve_round_trip() {
    // One mapping of one byte, read-only, on a fresh space.
    let mut a = AddressSpace::new("round trip");
    let file_like = Arc::new(NullDataSource::new(42));
    let addr = a
        .add_mapping(file_like.clone(), 0, 1, FlagBuilder::read())
        .unwrap();
    assert!(addr != 0);
    assert_eq!(addr % PAGE_SIZE, 0);
    // The first fit sits one guard page past the reserved page.
    assert_eq!(addr, 2 * PAGE_SIZE);
    let (src, off) = a.get_source_for_addr(addr, FlagBuilder::read()).unwrap().unwrap();
    assert_eq!(src.source_id(), 42);
    assert_eq!(off, 0);
    // Every address of the span resolves, with the in-source offset
    // tracking the distance from the start.
    let (src2, off2) = a
        .get_source_for_addr(addr + 100, FlagBuilder::read())
        .unwrap()
        .unwrap();
    assert_eq!(src2.source_id(), 42);
    assert_eq!(off2, 100);
    // One past the span is the guard page: unmapped.
    assert_eq!(a.get_source_for_addr(addr + PAGE_SIZE, FlagBuilder::read()), Ok(None));
}

#[test]
fn stored_offset_anchors_the_source_offset() {
    let mut a = AddressSpace::new("offsets");
    let s = Arc::new(NullDataSource::new(3));
    let addr = a
        .add_mapping(s, 700, 2 * PAGE_SIZE, FlagBuilder::read())
        .unwrap();
    let (_, off) = a
        .get_source_for_addr(addr + 4100, FlagBuilder::read())
        .unwrap()
        .unwrap();
    assert_eq!(off, 700 + 4100);
}

#[test]
fn write_to_read_only_mapping_denied() {
    // Mapped, but the requested access exceeds the grant.
    let mut a = AddressSpace::new("read only");
    let s = Arc::new(NullDataSource::new(9));
    let addr = a.add_mapping(s, 0, 1, FlagBuilder::read()).unwrap();
    assert_eq!(
        a.get_source_for_addr(addr, FlagBuilder::write()),
        Err(MapError::PermissionDenied)
    );
    // The descriptive flags of the request are not access-checked.
    assert_eq!(
        a.get_source_for_addr(addr, FlagBuilder::read().toggle_shared())
            .unwrap()
            .unwrap()
            .1,
        0
    );
}

#[test]
fn fixed_placement_conflict_leaves_first_intact() {
    // A second fixed placement at the same start fails and the first
    // mapping survives untouched.
    let mut a = AddressSpace::new("fixed placement");
    let s = Arc::new(NullDataSource::new(5));
    assert_eq!(
        a.add_mapping_at(s.clone(), 0, PAGE_SIZE, 2 * PAGE_SIZE, FlagBuilder::read()),
        Ok(())
    );
    assert_eq!(
        a.add_mapping_at(s.clone(), 0, PAGE_SIZE, 2 * PAGE_SIZE, FlagBuilder::read()),
        Err(MapError::Overlap)
    );
    let (src, off) = a
        .get_source_for_addr(2 * PAGE_SIZE, FlagBuilder::read())
        .unwrap()
        .unwrap();
    assert_eq!(src.source_id(), 5);
    assert_eq!(off, 0);
}

#[test]
fn remove_then_every_span_address_unmapped() {
    // After removal the whole span resolves to "unmapped", not to an
    // error.
    let mut a = AddressSpace::new("removal");
    let s = Arc::new(NullDataSource::new(42));
    let addr = a.add_mapping(s.clone(), 0, 1, FlagBuilder::read()).unwrap();
    assert_eq!(a.remove_mapping(s, addr), Ok(()));
    assert_eq!(a.get_source_for_addr(addr, FlagBuilder::read()), Ok(None));
    assert_eq!(
        a.get_source_for_addr(addr + PAGE_SIZE - 1, FlagBuilder::read()),
        Ok(None)
    );
    // Page 0 is still reserved.
    assert_eq!(
        a.get_source_for_addr(0, FlagBuilder::read()),
        Err(MapError::PermissionDenied)
    );
}

#[test]
fn remove_is_keyed_on_source_identity() {
    let mut a = AddressSpace::new("identity");
    let s = Arc::new(NullDataSource::new(8));
    let stranger = Arc::new(NullDataSource::new(13));
    let addr = a.add_mapping(s.clone(), 0, 1, FlagBuilder::read()).unwrap();
    // Same start address, different source instance: not found.
    assert_eq!(a.remove_mapping(stranger, addr), Err(MapError::NotFound));
    // Same source, wrong address: not found.
    assert_eq!(a.remove_mapping(s.clone(), addr + PAGE_SIZE), Err(MapError::NotFound));
    // The mapping is still there, and the true pair removes it.
    assert!(a.get_source_for_addr(addr, FlagBuilder::read()).unwrap().is_some());
    assert_eq!(a.remove_mapping(s, addr), Ok(()));
}

#[test]
fn page_zero_record_cannot_be_removed() {
    let mut a = AddressSpace::new("reserved");
    let s = Arc::new(NullDataSource::new(1));
    assert_eq!(a.remove_mapping(s, 0), Err(MapError::NotFound));
    assert_eq!(
        a.get_source_for_addr(0, FlagBuilder::read()),
        Err(MapError::PermissionDenied)
    );
}

#[test]
fn invalid_flags_rejected_identically_everywhere() {
    // An invalid combination is rejected the same way whatever the space
    // already holds, and regardless of the other arguments.
    let both_modes = FlagBuilder::private().toggle_shared();
    let cow_write = FlagBuilder::cow().toggle_write();
    let mut empty = AddressSpace::new("empty");
    let mut busy = AddressSpace::new("busy");
    let s = Arc::new(NullDataSource::new(2));
    busy.add_mapping(s.clone(), 0, 3 * PAGE_SIZE, FlagBuilder::read()).unwrap();
    assert_eq!(
        empty.add_mapping(s.clone(), 0, 1, both_modes),
        Err(MapError::InvalidFlags)
    );
    assert_eq!(
        busy.add_mapping(s.clone(), 0, 1, both_modes),
        Err(MapError::InvalidFlags)
    );
    assert_eq!(
        empty.add_mapping_at(s.clone(), 0, 1, 4 * PAGE_SIZE, cow_write),
        Err(MapError::InvalidFlags)
    );
    assert_eq!(
        busy.add_mapping_at(s.clone(), 0, 1, 4 * PAGE_SIZE, cow_write),
        Err(MapError::InvalidFlags)
    );
}

#[test]
fn zero_span_is_rejected_not_stored() {
    let mut a = AddressSpace::new("boundary");
    let s = Arc::new(NullDataSource::new(2));
    assert_eq!(a.add_mapping(s.clone(), 0, 0, FlagBuilder::read()), Err(MapError::ZeroSpan));
    assert_eq!(
        a.add_mapping_at(s.clone(), 0, 0, 2 * PAGE_SIZE, FlagBuilder::read()),
        Err(MapError::ZeroSpan)
    );
    // Nothing was inserted.
    assert_eq!(a.get_source_for_addr(2 * PAGE_SIZE, FlagBuilder::read()), Ok(None));
}

#[test]
fn one_byte_and_one_page_round_to_one_page() {
    let mut a = AddressSpace::new("boundary");
    let s = Arc::new(NullDataSource::new(2));
    let addr = a.add_mapping(s.clone(), 0, 1, FlagBuilder::read()).unwrap();
    // The whole page is mapped...
    assert!(a
        .get_source_for_addr(addr + PAGE_SIZE - 1, FlagBuilder::read())
        .unwrap()
        .is_some());
    // ...and not a byte more.
    assert_eq!(a.get_source_for_addr(addr + PAGE_SIZE, FlagBuilder::read()), Ok(None));
    // A span of exactly one page stays one page: the next fit lands one
    // guard page further on.
    let addr2 = a.add_mapping(s, 0, PAGE_SIZE, FlagBuilder::read()).unwrap();
    assert_eq!(addr2, addr + 2 * PAGE_SIZE);
}

#[test]
fn misaligned_fixed_start_rejected() {
    let mut a = AddressSpace::new("align");
    let s = Arc::new(NullDataSource::new(2));
    assert_eq!(
        a.add_mapping_at(s, 0, 1, 2 * PAGE_SIZE + 5, FlagBuilder::read()),
        Err(MapError::Misaligned)
    );
}

#[test]
fn placement_past_the_address_range_rejected() {
    let mut a = AddressSpace::new("capacity");
    let s = Arc::new(NullDataSource::new(2));
    // VADDR_MAX is 2^38 - 1; this start is page-aligned and the rounded
    // two-page span would end past it.
    let start = VADDR_MAX + 1 - PAGE_SIZE;
    assert_eq!(start % PAGE_SIZE, 0);
    assert_eq!(
        a.add_mapping_at(s.clone(), 0, 2 * PAGE_SIZE, start, FlagBuilder::read()),
        Err(MapError::NoSpace)
    );
    // A span larger than the whole range can never fit anywhere.
    assert_eq!(
        a.add_mapping(s.clone(), 0, VADDR_MAX + 1, FlagBuilder::read()),
        Err(MapError::NoSpace)
    );
    // One page just below the top still fits.
    assert_eq!(
        a.add_mapping_at(s, 0, PAGE_SIZE, start - PAGE_SIZE, FlagBuilder::read()),
        Ok(())
    );
}

#[test]
fn unconstrained_placement_takes_first_gap_with_guards() {
    let mut a = AddressSpace::new("first fit");
    let s = Arc::new(NullDataSource::new(2));
    // Occupy [4*PAGE, 6*PAGE): the gap after page 0 holds one page plus
    // its two guard pages, nothing larger.
    assert_eq!(
        a.add_mapping_at(s.clone(), 0, 2 * PAGE_SIZE, 4 * PAGE_SIZE, FlagBuilder::read()),
        Ok(())
    );
    // Two pages cannot use the first gap: they land past the fixed block.
    let big = a.add_mapping(s.clone(), 0, 2 * PAGE_SIZE, FlagBuilder::read()).unwrap();
    assert_eq!(big, 7 * PAGE_SIZE);
    // One page fits in the first gap, one guard page past page 0.
    let small = a.add_mapping(s, 0, PAGE_SIZE, FlagBuilder::read()).unwrap();
    assert_eq!(small, 2 * PAGE_SIZE);
}

#[test]
fn source_drives_its_own_mapping() {
    let mut a = AddressSpace::new("collaboration");
    let s = Arc::new(NullDataSource::new(21));
    let addr = DataSource::add_map(&s, FlagBuilder::read(), &mut a, 0, 1).unwrap();
    assert_eq!(addr, 2 * PAGE_SIZE);
    let (src, _) = a.get_source_for_addr(addr, FlagBuilder::read()).unwrap().unwrap();
    assert_eq!(src.source_id(), 21);
    assert_eq!(DataSource::del_map(&s, &mut a, addr), Ok(()));
    assert_eq!(a.get_source_for_addr(addr, FlagBuilder::read()), Ok(None));
}
