use mips_vm::errors::FatalErrorType;
use mips_vm::memory::{MemoryMap, MemorySegment, SegmentDirection};
use mips_vm::vm::{MemoryLayout, VM};

fn new_vm() -> VM {
    VM::new(MemoryLayout::mars(0x1000, 0x1000))
}

#[test]
fn sparse_segment_reads_zero() {
    let seg = MemorySegment::new(
        String::from("scratch"),
        0x1000,
        0x100,
        false,
        SegmentDirection::Up,
        false,
    );
    assert_eq!(seg.get_byte(0x1000), 0);
    assert_eq!(seg.get_byte(0x10FF), 0);
    assert_eq!(seg.get_halfword(0x1000), 0);
    assert_eq!(seg.get_word(0x10FC), 0);
}

#[test]
fn segment_grows_on_write() {
    let mut seg = MemorySegment::new(
        String::from("scratch"),
        0x1000,
        0x100,
        false,
        SegmentDirection::Up,
        false,
    );
    seg.set_byte(0x1080, 0xAB).unwrap();
    assert_eq!(seg.get_byte(0x1080), 0xAB);
    assert_eq!(seg.get_byte(0x1000), 0);
    assert_eq!(seg.get_byte(0x107F), 0);
}

#[test]
fn static_segment_is_materialized() {
    let seg = MemorySegment::new(
        String::from("fixed"),
        0x2000,
        0x40,
        true,
        SegmentDirection::Up,
        false,
    );
    assert_eq!(seg.get_size(), 0x40);
    assert_eq!(seg.get_byte(0x203F), 0);
}

#[test]
fn down_segment_addresses() {
    let seg = MemorySegment::new(
        String::from("downward"),
        0x8000,
        0x100,
        false,
        SegmentDirection::Down,
        false,
    );
    assert_eq!(seg.get_high_address(), 0x8000);
    assert_eq!(seg.get_low_address(), 0x7F01);
    assert_eq!(seg.get_start_address(), 0x8000);
}

#[test]
fn up_segment_addresses() {
    let seg = MemorySegment::new(
        String::from("upward"),
        0x4000,
        0x100,
        false,
        SegmentDirection::Up,
        false,
    );
    assert_eq!(seg.get_low_address(), 0x4000);
    assert_eq!(seg.get_high_address(), 0x40FF);
}

#[test]
fn read_only_segment_rejects_writes() {
    let mut vm = new_vm();
    // the text segment starts out sealed
    let err = vm.memory.set_byte(0x0040_0000, 1).unwrap_err();
    assert_eq!(err.err_type, FatalErrorType::IllegalMemoryAccess);
    let err = vm.memory.set_word(0x0040_0000, 0x1234_5678).unwrap_err();
    assert_eq!(err.err_type, FatalErrorType::IllegalMemoryAccess);
    // no byte moved
    assert_eq!(vm.memory.get_byte(0x0040_0000).unwrap(), 0);
    assert_eq!(vm.memory.get_word(0x0040_0000).unwrap(), 0);
}

#[test]
fn misaligned_word_store_rejected_and_memory_unchanged() {
    let mut vm = new_vm();
    let heap: usize = 0x1008_0000;
    vm.memory.set_word(heap, 0x0102_0304).unwrap();
    let err = vm.memory.set_word(heap + 1, 0xFFFF_FFFF).unwrap_err();
    assert_eq!(err.err_type, FatalErrorType::IllegalMemoryAccess);
    assert_eq!(vm.memory.get_word(heap).unwrap(), 0x0102_0304);
    assert_eq!(vm.memory.get_byte(heap + 4).unwrap(), 0);
}

#[test]
fn misaligned_halfword_store_rejected() {
    let mut vm = new_vm();
    let heap: usize = 0x1008_0000;
    let err = vm.memory.set_halfword(heap + 1, 0xABCD).unwrap_err();
    assert_eq!(err.err_type, FatalErrorType::IllegalMemoryAccess);
    vm.memory.set_halfword(heap + 2, 0xABCD).unwrap();
    assert_eq!(vm.memory.get_halfword(heap + 2).unwrap(), 0xABCD);
    assert_eq!(vm.memory.get_byte(heap + 2).unwrap(), 0xAB);
    assert_eq!(vm.memory.get_byte(heap + 3).unwrap(), 0xCD);
}

#[test]
fn misaligned_loads_rejected() {
    let vm = new_vm();
    let heap: usize = 0x1008_0000;
    assert!(vm.memory.get_word(heap + 2).is_err());
    assert!(vm.memory.get_halfword(heap + 1).is_err());
    assert!(vm.memory.get_word(heap).is_ok());
}

#[test]
fn unmapped_address_rejected() {
    let mut vm = new_vm();
    let gap: usize = 0x0030_0000;
    assert!(vm.memory.get_byte(gap).is_err());
    assert!(vm.memory.set_byte(gap, 1).is_err());
    assert!(vm.memory.get_word(gap).is_err());
}

#[test]
fn cross_segment_word_rejected() {
    let mut map = MemoryMap::new();
    map.add_segment(MemorySegment::new(
        String::from("first"),
        0,
        6,
        false,
        SegmentDirection::Up,
        false,
    ))
    .unwrap();
    map.add_segment(MemorySegment::new(
        String::from("second"),
        6,
        10,
        false,
        SegmentDirection::Up,
        false,
    ))
    .unwrap();
    // the four bytes from 4 on would straddle both segments
    assert!(map.get_word(4).is_err());
    assert!(map.set_word(4, 1).is_err());
    // wholly inside one segment is fine
    assert!(map.get_word(0).is_ok());
    assert!(map.set_word(8, 7).is_ok());
}

#[test]
fn overlapping_segment_rejected() {
    let mut map = MemoryMap::new();
    map.add_segment(MemorySegment::new(
        String::from("first"),
        0,
        6,
        false,
        SegmentDirection::Up,
        false,
    ))
    .unwrap();
    let err = map
        .add_segment(MemorySegment::new(
            String::from("second"),
            5,
            10,
            false,
            SegmentDirection::Up,
            false,
        ))
        .unwrap_err();
    assert_eq!(err.err_type, FatalErrorType::IllegalMemoryAccess);
}

#[test]
fn segment_lookup_by_address() {
    let vm = new_vm();
    let seg = vm.memory.get_segment(0x0040_0000).unwrap();
    assert_eq!(seg.name, "text");
    let seg = vm.memory.get_segment(0x1008_0000).unwrap();
    assert_eq!(seg.name, "heap");
    assert!(vm.memory.get_segment(0x0030_0000).is_none());
}

#[test]
fn segment_lookup_by_name() {
    let mut vm = new_vm();
    assert_eq!(vm.memory.get_segments().len(), 5);
    assert!(vm.memory.segment_by_name("stack").is_some());
    assert!(vm.memory.segment_by_name("nothing").is_none());
    let text = vm.memory.mut_segment_by_name("text").unwrap();
    text.allow_writes();
    vm.memory.set_word(0x0040_0000, 0x0102_0304).unwrap();
    assert_eq!(vm.memory.get_word(0x0040_0000).unwrap(), 0x0102_0304);
    let text = vm.memory.mut_segment_by_name("text").unwrap();
    text.set_read_only();
    assert!(vm.memory.set_word(0x0040_0000, 0).is_err());
}

#[test]
fn mutable_segment_lookup_by_address() {
    let mut vm = new_vm();
    let seg = vm.memory.get_segment_mut(0x0040_0000).unwrap();
    seg.allow_writes();
    assert!(vm.memory.set_byte(0x0040_0000, 9).is_ok());
    assert!(vm.memory.get_segment_mut(0x0030_0000).is_none());
}

#[test]
fn align_address_walks_both_ways() {
    let map = MemoryMap::new();
    assert_eq!(map.align_address(0x1001, 4, SegmentDirection::Up), 0x1004);
    assert_eq!(map.align_address(0x1001, 4, SegmentDirection::Down), 0x1000);
    assert_eq!(map.align_address(0x1004, 4, SegmentDirection::Up), 0x1004);
    assert_eq!(map.align_address(0x1004, 4, SegmentDirection::Down), 0x1004);
    assert_eq!(map.align_address(0x1003, 1, SegmentDirection::Up), 0x1003);
    assert_eq!(map.align_address(0x1007, 8, SegmentDirection::Up), 0x1008);
}

#[test]
fn word_round_trip_in_writable_segment() {
    let mut vm = new_vm();
    let heap: usize = 0x1008_0000;
    let values: [u32; 5] = [0, 1, 0xFFFF_FFFF, 0x8000_0000, 0x1234_5678];
    let mut i: usize = 0;
    while i < values.len() {
        let addr: usize = heap + 4 * i;
        vm.memory.set_word(addr, values[i]).unwrap();
        assert_eq!(vm.memory.get_word(addr).unwrap(), values[i]);
        i += 1;
    }
}

#[test]
fn mmio_and_stack_cover_their_ranges() {
    let mut vm = new_vm();
    // the mmio segment reaches from just above the stack up to 0xFFFF0000;
    // reads beyond the materialized backing stay cheap and yield zero
    assert!(vm.memory.set_byte(0x8000_0000, 2).is_ok());
    assert_eq!(vm.memory.get_byte(0x8000_0000).unwrap(), 2);
    assert_eq!(vm.memory.get_byte(0xFFFF_0000).unwrap(), 0);
    assert!(vm.memory.get_byte(0xFFFF_0001).is_err());
    // the stack covers stack_high down by its size
    assert!(vm.memory.set_byte(0x7FFF_FFFF, 3).is_ok());
    assert!(vm.memory.set_byte(0x7FFF_F000, 4).is_ok());
    assert_eq!(vm.memory.get_byte(0x7FFF_FFFF).unwrap(), 3);
    assert!(vm.memory.get_byte(0x7FFF_EFFF).is_err());
}
