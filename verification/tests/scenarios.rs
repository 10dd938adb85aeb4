use mips_vm::memory::{MemoryMap, MemorySegment, SegmentDirection};
use mips_vm::vm::{MemoryLayout, VM};

fn new_vm() -> VM {
    VM::new(MemoryLayout::mars(0x1000, 0x1000))
}

fn load_program(vm: &mut VM, words: &[u32]) {
    let text = vm.memory.mut_segment_by_name("text").unwrap();
    text.allow_writes();
    let base: usize = 0x0040_0000;
    let mut i: usize = 0;
    while i < words.len() {
        vm.memory.set_word(base + 4 * i, words[i]).unwrap();
        i += 1;
    }
    let text = vm.memory.mut_segment_by_name("text").unwrap();
    text.set_read_only();
    vm.set_pc(base);
}

#[test]
fn addi_fits() {
    let mut vm = new_vm();
    vm.set_register(9, 1).unwrap();
    load_program(&mut vm, &[0x212A_002A]); // addi $10, $9, 42
    let (_inst, trap) = vm.run_single_instruction().unwrap();
    assert!(trap.is_none());
    assert_eq!(vm.get_register(10).unwrap(), 43);
    assert_eq!(vm.get_register(9).unwrap(), 1);
    assert_eq!(vm.get_pc(), 0x0040_0004);
}

#[test]
fn addi_from_zero_register() {
    let mut vm = new_vm();
    vm.set_register(9, 1).unwrap();
    load_program(&mut vm, &[0x200A_002A]); // addi $10, $0, 42
    let (_inst, trap) = vm.run_single_instruction().unwrap();
    assert!(trap.is_none());
    assert_eq!(vm.get_register(10).unwrap(), 42);
}

#[test]
fn sll_halt_sentinel() {
    let mut vm = new_vm();
    vm.set_register(9, 7).unwrap();
    load_program(&mut vm, &[0x0000_0000]);
    let (inst, trap) = vm.run_single_instruction().unwrap();
    assert!(inst.is_null());
    assert!(trap.is_none());
    assert_eq!(vm.get_register(9).unwrap(), 7);
    assert_eq!(vm.get_register(0).unwrap(), 0);
    assert_eq!(vm.get_pc(), 0x0040_0004);
}

#[test]
fn signed_overflow_traps() {
    let mut vm = new_vm();
    vm.set_register(9, 0x7FFF_FFFF).unwrap();
    vm.set_register(10, 1).unwrap();
    load_program(&mut vm, &[0x012A_5820]); // add $11, $9, $10
    let (_inst, trap) = vm.run_single_instruction().unwrap();
    assert!(trap.is_some());
    assert_eq!(vm.get_register(11).unwrap(), 0);
}

#[test]
fn unsigned_add_wraps() {
    let mut vm = new_vm();
    vm.set_register(9, 0x7FFF_FFFF).unwrap();
    vm.set_register(10, 1).unwrap();
    load_program(&mut vm, &[0x012A_5821]); // addu $11, $9, $10
    let (_inst, trap) = vm.run_single_instruction().unwrap();
    assert!(trap.is_none());
    assert_eq!(vm.get_register(11).unwrap(), 0x8000_0000);
}

#[test]
fn big_endian_word_store_load() {
    let mut vm = new_vm();
    let stack_base: usize = 0x7FFF_F000;
    vm.memory.set_word(stack_base, 0xDEAD_BEEF).unwrap();
    assert_eq!(vm.memory.get_byte(stack_base).unwrap(), 0xDE);
    assert_eq!(vm.memory.get_byte(stack_base + 1).unwrap(), 0xAD);
    assert_eq!(vm.memory.get_byte(stack_base + 2).unwrap(), 0xBE);
    assert_eq!(vm.memory.get_byte(stack_base + 3).unwrap(), 0xEF);
    assert_eq!(vm.memory.get_word(stack_base).unwrap(), 0xDEAD_BEEF);
}

#[test]
fn lw_unaligned_is_fatal() {
    let mut vm = new_vm();
    vm.set_register(9, 0x7FFF_F001).unwrap();
    let err = vm.execute_instruction(0x8D2A_0000).unwrap_err(); // lw $10, 0($9)
    assert_eq!(
        err.err_type,
        mips_vm::errors::FatalErrorType::IllegalMemoryAccess
    );
}

#[test]
fn three_instruction_program() {
    // addiu $9, $0, -1 ; addiu $10, $0, 2 ; mult $9, $10
    let mut vm = new_vm();
    load_program(&mut vm, &[0x2409_FFFF, 0x240A_0002, 0x012A_0018]);
    let mut steps: usize = 0;
    while steps < 3 {
        let (_inst, trap) = vm.run_single_instruction().unwrap();
        assert!(trap.is_none());
        steps += 1;
    }
    assert_eq!(vm.get_register(9).unwrap(), 0xFFFF_FFFF);
    assert_eq!(vm.get_register(10).unwrap(), 2);
    // -1 * 2 == -2 over 64 bits
    assert_eq!(vm.get_hi(), 0xFFFF_FFFF);
    assert_eq!(vm.get_lo(), 0xFFFF_FFFE);
    assert_eq!(vm.get_pc(), 0x0040_000C);
}

#[test]
fn fetch_from_unaligned_pc_is_fatal() {
    let mut vm = new_vm();
    vm.set_pc(0x0040_0001);
    let err = vm.run_single_instruction().unwrap_err();
    assert_eq!(
        err.err_type,
        mips_vm::errors::FatalErrorType::IllegalMemoryAccess
    );
    assert_eq!(vm.get_pc(), 0x0040_0001);
}

#[test]
fn fetch_from_unmapped_address_is_fatal() {
    let mut vm = new_vm();
    vm.set_pc(0x0030_0000);
    let err = vm.run_single_instruction().unwrap_err();
    assert_eq!(
        err.err_type,
        mips_vm::errors::FatalErrorType::IllegalMemoryAccess
    );
}

#[test]
fn pc_wraps_at_the_top_of_the_address_space() {
    let mut vm = new_vm();
    let mut map = MemoryMap::new();
    map.add_segment(MemorySegment::new(
        String::from("high"),
        0xFFFF_FFF0,
        0x10,
        false,
        SegmentDirection::Up,
        false,
    ))
    .unwrap();
    map.set_word(0xFFFF_FFFC, 0).unwrap();
    vm.memory = map;
    vm.set_pc(0xFFFF_FFFC);
    let (inst, trap) = vm.run_single_instruction().unwrap();
    assert!(inst.is_null());
    assert!(trap.is_none());
    assert_eq!(vm.get_pc(), 0);
}
