use mips_vm::errors::{FatalErrorType, RuntimeError, Trap};
use mips_vm::vm::{MemoryLayout, VM};

fn new_vm() -> VM {
    VM::new(MemoryLayout::mars(0x1000, 0x1000))
}

#[test]
fn fresh_machine_is_zeroed() {
    let vm = new_vm();
    let mut i: u8 = 0;
    while i < 32 {
        assert_eq!(vm.get_register(i).unwrap(), 0);
        i += 1;
    }
    assert_eq!(vm.get_pc(), 0x0040_0000);
    assert_eq!(vm.get_hi(), 0);
    assert_eq!(vm.get_lo(), 0);
}

#[test]
fn zero_register_always_reads_zero() {
    let mut vm = new_vm();
    let err = vm.set_register(0, 5).unwrap_err();
    assert_eq!(err.err_type, FatalErrorType::IllegalRegisterAccess);
    // after writes all over the file, register 0 still reads zero
    let mut i: u8 = 1;
    while i < 32 {
        vm.set_register(i, 0xDEAD_0000 + i as u32).unwrap();
        i += 1;
    }
    assert_eq!(vm.get_register(0).unwrap(), 0);
    assert_eq!(vm.get_register(1).unwrap(), 0xDEAD_0001);
    assert_eq!(vm.get_register(31).unwrap(), 0xDEAD_001F);
}

#[test]
fn out_of_range_register_rejected() {
    let mut vm = new_vm();
    assert_eq!(
        vm.get_register(32).unwrap_err().err_type,
        FatalErrorType::IllegalRegisterAccess
    );
    assert_eq!(
        vm.set_register(32, 1).unwrap_err().err_type,
        FatalErrorType::IllegalRegisterAccess
    );
    assert!(vm.get_register(31).is_ok());
}

#[test]
fn special_registers() {
    let mut vm = new_vm();
    vm.set_pc(0x0040_1000);
    assert_eq!(vm.get_pc(), 0x0040_1000);
    vm.set_hi(7);
    vm.set_lo(9);
    assert_eq!(vm.get_hi(), 7);
    assert_eq!(vm.get_lo(), 9);
}

#[test]
fn register_aliases() {
    let mut vm = new_vm();
    vm.set_gp(1);
    vm.set_sp(2);
    vm.set_fp(3);
    vm.set_ra(4);
    assert_eq!(vm.get_gp(), 1);
    assert_eq!(vm.get_sp(), 2);
    assert_eq!(vm.get_fp(), 3);
    assert_eq!(vm.get_ra(), 4);
    assert_eq!(vm.get_register(28).unwrap(), 1);
    assert_eq!(vm.get_register(29).unwrap(), 2);
    assert_eq!(vm.get_register(30).unwrap(), 3);
    assert_eq!(vm.get_register(31).unwrap(), 4);
}

#[test]
fn mars_layout_values() {
    let layout = MemoryLayout::mars(0x2000, 0x3000);
    assert_eq!(layout.text_low, 0x0040_0000);
    assert_eq!(layout.data_low, 0x1001_0000);
    assert_eq!(layout.heap_low, 0x1008_0000);
    assert_eq!(layout.mmio_high, 0xFFFF_0000);
    assert_eq!(layout.stack_high, 0x7FFF_FFFF);
    assert_eq!(layout.heap_size, 0x2000);
    assert_eq!(layout.stack_size, 0x3000);
}

#[test]
fn error_constructors() {
    let err = RuntimeError::new(FatalErrorType::IllegalInstruction, String::from("bad word"));
    assert_eq!(err.err_type, FatalErrorType::IllegalInstruction);
    assert_eq!(err.message, "bad word");
    let err = RuntimeError::err_invalid_read(0x1234);
    assert_eq!(err.err_type, FatalErrorType::IllegalMemoryAccess);
    let err = RuntimeError::err_invalid_write(0x1234);
    assert_eq!(err.err_type, FatalErrorType::IllegalMemoryAccess);
    let trap = Trap::new(String::from("something recoverable"));
    assert_eq!(trap.message, "something recoverable");
}
