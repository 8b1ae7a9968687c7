use vmm::uffd::fill::{
    event_frame, event_transfer, frame_transfer, Chunk, FillMap, Transfer, MAX_WRITE_SIZE,
};
use vmm::uffd::handler::{FaultAction, FaultError, UffdHandler};
use vmm::uffd::page::{align_to_page, is_power_of_two};
use vmm::uffd::protocol::{
    async_fault_frame, classify_message, dispatch, encode_reply, read_be, ready_left, skips_stream,
    MessageKind, Ready,
};
use vmm::uffd::region::{create_mem_regions, GuestRegionUffdMapping, MemPageState};

fn mapping(base_host_virt_addr: u64, size: usize, offset: u64) -> GuestRegionUffdMapping {
    GuestRegionUffdMapping {
        base_host_virt_addr,
        size,
        offset,
        page_size_kib: 4096,
    }
}

fn two_regions() -> UffdHandler {
    let mappings = vec![mapping(0x10_000, 0x3000, 0), mapping(0x80_000, 0x2000, 0x3000)];
    UffdHandler::from_mappings(&mappings, 0x7000_0000, 0x5000).unwrap()
}

#[test]
fn powers_of_two() {
    for n in [1usize, 2, 4096, 1 << 30] {
        assert!(is_power_of_two(n));
    }
    for n in [0usize, 3, 4095, 6144] {
        assert!(!is_power_of_two(n));
    }
}

#[test]
fn alignment() {
    assert_eq!(align_to_page(0x1234, 0x1000), 0x1000);
    assert_eq!(align_to_page(0x1000, 0x1000), 0x1000);
    assert_eq!(align_to_page(u64::MAX, 0x1000), 0xffff_ffff_ffff_f000);
    assert_eq!(align_to_page(77, 1), 77);
}

#[test]
fn regions_start_untouched() {
    let regions = create_mem_regions(&vec![mapping(0x10_000, 0x2800, 0)], 4096);
    assert_eq!(regions.len(), 1);
    assert_eq!(regions[0].mapping, mapping(0x10_000, 0x2800, 0));
    for addr in [0x10_000u64, 0x11_000, 0x12_000] {
        assert_eq!(regions[0].get(addr), Some(MemPageState::Uninitialized));
    }
    for addr in [0u64, 0xf000, 0x10_001, 0x13_000, u64::MAX] {
        assert_eq!(regions[0].get(addr), None);
    }
}

#[test]
fn mappings_that_do_not_fit_are_refused() {
    assert!(UffdHandler::from_mappings(&vec![], 0, 0).is_none());
    assert!(UffdHandler::from_mappings(&vec![mapping(0, 0x1000, 0)], 0, 0x1000).is_some());
    assert!(UffdHandler::from_mappings(&vec![mapping(0, 0, 0)], 0, 0x1000).is_none());
    assert!(UffdHandler::from_mappings(&vec![mapping(0, 0x1000, 0)], 0, 0x2000).is_none());
    let mut odd = mapping(0, 0x1000, 0);
    odd.page_size_kib = 3000;
    assert!(UffdHandler::from_mappings(&vec![odd], 0, 0x1000).is_none());
    let beyond = mapping(u64::MAX - 0x1000, 0x2000, 0);
    assert!(UffdHandler::from_mappings(&vec![beyond], 0, 0x2000).is_none());
    let wrapping = vec![mapping(0, usize::MAX, 0), mapping(0, 0x1001, 0)];
    assert!(UffdHandler::from_mappings(&wrapping, 0, 0x1000).is_none());
}

#[test]
fn untouched_page_is_copied_from_its_place() {
    let mut handler = two_regions();
    assert_eq!(
        handler.serve_pf(0x81_234, 0x1000),
        Ok(FaultAction::Copy {
            src: 0x7000_0000 + 0x3000 + 0x1000,
            dst: 0x81_000,
            len: 0x1000
        })
    );
    assert_eq!(
        handler.mem_regions[1].get(0x81_000),
        Some(MemPageState::FromFile)
    );
    assert_eq!(
        handler.mem_regions[1].get(0x80_000),
        Some(MemPageState::Uninitialized)
    );
    // Once more: the same again.
    assert!(matches!(
        handler.serve_pf(0x81_fff, 0x1000),
        Ok(FaultAction::Copy { .. })
    ));
}

#[test]
fn removed_page_is_zeroed() {
    let mut handler = two_regions();
    handler.update_mem_state_mappings(0x11_000, 0x12_000, MemPageState::Removed);
    assert_eq!(
        handler.mem_regions[0].get(0x11_000),
        Some(MemPageState::Removed)
    );
    assert_eq!(
        handler.mem_regions[0].get(0x12_000),
        Some(MemPageState::Uninitialized)
    );
    let zero = Ok(FaultAction::ZeroPage {
        addr: 0x11_000,
        len: 4096,
    });
    assert_eq!(handler.serve_pf(0x11_008, 0x3000), zero);
    assert_eq!(
        handler.mem_regions[0].get(0x11_000),
        Some(MemPageState::Anonymous)
    );
    assert_eq!(handler.serve_pf(0x11_008, 0x3000), zero);
}

#[test]
fn copy_of_a_whole_region_marks_all_its_pages() {
    let mut handler = two_regions();
    assert!(handler.serve_pf(0x10_000, 0x3000).is_ok());
    for addr in [0x10_000u64, 0x11_000, 0x12_000] {
        assert_eq!(
            handler.mem_regions[0].get(addr),
            Some(MemPageState::FromFile)
        );
    }
    assert_eq!(
        handler.mem_regions[1].get(0x80_000),
        Some(MemPageState::Uninitialized)
    );
}

#[test]
fn fault_outside_all_regions() {
    let mut handler = two_regions();
    assert_eq!(handler.serve_pf(0x13_000, 0x1000), Err(FaultError::NoPage));
    assert_eq!(handler.serve_pf(0, 0x1000), Err(FaultError::NoPage));
}

#[test]
fn fault_whose_source_has_no_address() {
    let mappings = vec![mapping(0x1000, 0x1000, u64::MAX)];
    let mut handler = UffdHandler::from_mappings(&mappings, 1, 0x1000).unwrap();
    assert_eq!(
        handler.serve_pf(0x1000, 0x1000),
        Err(FaultError::OutOfRange)
    );
    assert_eq!(
        handler.mem_regions[0].get(0x1000),
        Some(MemPageState::Uninitialized)
    );
}

#[test]
fn messages_are_told_apart() {
    assert_eq!(classify_message(5, b"[]"), MessageKind::NewConnection);
    assert_eq!(
        classify_message(0, &0x1234_5678u64.to_be_bytes()),
        MessageKind::Gfn(0x1_2345)
    );
    assert_eq!(classify_message(0, b"1234567"), MessageKind::Malformed);
    assert_eq!(classify_message(0, b""), MessageKind::Malformed);
}

#[test]
fn async_fault_is_in_the_low_half() {
    assert_eq!(async_fault_frame(0xdead_beef_0001_2fff), 0x12);
    assert_eq!(async_fault_frame(0xffff_ffff_ffff_ffff), 0xf_ffff);
}

#[test]
fn numbers_survive_the_wire() {
    for n in [0u64, 1, 0x0102_0304_0506_0708, u64::MAX] {
        assert_eq!(read_be(&n.to_be_bytes()), n);
    }
    let reply = encode_reply(1, 0x0102_0304_0506_0708, u64::MAX);
    assert_eq!(
        reply,
        [
            1u64.to_be_bytes(),
            0x0102_0304_0506_0708u64.to_be_bytes(),
            u64::MAX.to_be_bytes()
        ]
        .concat()
    );
    assert_eq!(read_be(&reply[8..16]), 0x0102_0304_0506_0708);
}

#[test]
fn polled_descriptors() {
    assert_eq!(dispatch(true, true, 3, 3, 4), Ready::Hangup);
    assert_eq!(dispatch(false, false, 3, 3, 4), Ready::Idle);
    assert_eq!(dispatch(false, true, 3, 3, 4), Ready::Message);
    assert_eq!(dispatch(false, true, 4, 3, 4), Ready::AsyncFault);
    assert_eq!(dispatch(false, true, 9, 3, 4), Ready::Event);
}

#[test]
fn ready_descriptors_are_counted_down() {
    assert_eq!(ready_left(3, Ready::Idle), 3);
    assert_eq!(ready_left(3, Ready::Hangup), 3);
    assert_eq!(ready_left(3, Ready::Message), 2);
    assert_eq!(ready_left(2, Ready::AsyncFault), 1);
    assert_eq!(ready_left(1, Ready::Event), 0);
}

#[test]
fn closed_stream_is_skipped_once_a_machine_has_come() {
    assert!(skips_stream(true, true, false));
    assert!(skips_stream(true, false, true));
    assert!(!skips_stream(true, false, false));
    assert!(!skips_stream(false, true, true));
}

#[test]
fn frame_of_an_event() {
    assert_eq!(event_frame(0x5000, 0x5000), 0);
    assert_eq!(event_frame(0x5000, 0x8fff), 3);
}

#[test]
fn transfers() {
    assert_eq!(
        frame_transfer(0x1000_0000, 3),
        Transfer {
            src: 0x1000_3000,
            gpa: 0x3000,
            len: 0x1000
        }
    );
    assert_eq!(
        event_transfer(0x1000_0000, 0x5000, 0x8000),
        Transfer {
            src: 0x1000_3000,
            gpa: 0x3000,
            len: 0x1000
        }
    );
}

#[test]
fn missing_runs_are_filled() {
    let mut map = FillMap::new(10);
    for gfn in [0usize, 3, 4, 9] {
        assert!(map.fill(gfn));
        assert!(!map.fill(gfn));
    }
    let chunk = |first: u64, count: u64| Chunk { first, count };
    assert_eq!(map.fill_all(), vec![chunk(1, 2), chunk(5, 4)]);
    assert_eq!(
        chunk(5, 4).transfer(0x100),
        Transfer {
            src: 0x5100,
            gpa: 0x5000,
            len: 0x4000
        }
    );
    assert!(map.fill_all().is_empty());
    assert!(!map.fill(1));
    assert!(FillMap::new(0).fill_all().is_empty());
}

#[test]
fn long_runs_are_split() {
    let mut map = FillMap::new(524_287 + 100);
    map.fill(50);
    let chunks = map.fill_all();
    let expected = vec![
        Chunk {
            first: 0,
            count: 50,
        },
        Chunk {
            first: 51,
            count: 524_287,
        },
        Chunk {
            first: 524_338,
            count: 49,
        },
    ];
    assert_eq!(chunks, expected);
    assert_eq!(chunks[1].transfer(0).len, MAX_WRITE_SIZE);
}
