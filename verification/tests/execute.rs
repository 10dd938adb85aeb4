use mips_vm::errors::FatalErrorType;
use mips_vm::vm::{MemoryLayout, VM};

fn new_vm() -> VM {
    VM::new(MemoryLayout::mars(0x1000, 0x1000))
}

const HEAP: usize = 0x1008_0000;

#[test]
fn addiu_sign_extends_and_wraps() {
    let mut vm = new_vm();
    // addiu $9, $0, -1
    let (_, trap) = vm.execute_instruction(0x2409_FFFF).unwrap();
    assert!(trap.is_none());
    assert_eq!(vm.get_register(9).unwrap(), 0xFFFF_FFFF);
    // addiu $10, $9, 1 wraps to zero without a trap
    let (_, trap) = vm.execute_instruction(0x252A_0001).unwrap();
    assert!(trap.is_none());
    assert_eq!(vm.get_register(10).unwrap(), 0);
}

#[test]
fn addi_negative_immediate() {
    let mut vm = new_vm();
    vm.set_register(9, 5).unwrap();
    // addi $10, $9, -1
    let (_, trap) = vm.execute_instruction(0x212A_FFFF).unwrap();
    assert!(trap.is_none());
    assert_eq!(vm.get_register(10).unwrap(), 4);
}

#[test]
fn sub_overflow_traps_subu_wraps() {
    let mut vm = new_vm();
    vm.set_register(9, 0x8000_0000).unwrap();
    vm.set_register(10, 1).unwrap();
    // sub $11, $9, $10: (-2^31) - 1 overflows
    let (_, trap) = vm.execute_instruction(0x012A_5822).unwrap();
    assert!(trap.is_some());
    assert_eq!(vm.get_register(11).unwrap(), 0);
    // subu wraps
    let (_, trap) = vm.execute_instruction(0x012A_5823).unwrap();
    assert!(trap.is_none());
    assert_eq!(vm.get_register(11).unwrap(), 0x7FFF_FFFF);
}

#[test]
fn writes_to_zero_destination_are_dropped() {
    let mut vm = new_vm();
    vm.set_register(9, 3).unwrap();
    vm.set_register(10, 4).unwrap();
    // add $0, $9, $10 executes but the write is absorbed
    let (_, trap) = vm.execute_instruction(0x012A_0020).unwrap();
    assert!(trap.is_none());
    assert_eq!(vm.get_register(0).unwrap(), 0);
}

#[test]
fn bitwise_operations() {
    let mut vm = new_vm();
    vm.set_register(9, 0x0000_F0F0).unwrap();
    vm.set_register(10, 0x0000_FF00).unwrap();
    vm.execute_instruction(0x012A_5824).unwrap(); // and $11
    assert_eq!(vm.get_register(11).unwrap(), 0x0000_F000);
    vm.execute_instruction(0x012A_5825).unwrap(); // or $11
    assert_eq!(vm.get_register(11).unwrap(), 0x0000_FFF0);
    vm.execute_instruction(0x012A_5826).unwrap(); // xor $11
    assert_eq!(vm.get_register(11).unwrap(), 0x0000_0FF0);
    vm.execute_instruction(0x012A_5827).unwrap(); // nor $11
    assert_eq!(vm.get_register(11).unwrap(), 0xFFFF_000F);
}

#[test]
fn immediate_bitwise_zero_extends() {
    let mut vm = new_vm();
    vm.set_register(9, 0xFFFF_FFFF).unwrap();
    // andi $10, $9, 0xFFFF: the immediate is zero-extended
    vm.execute_instruction(0x312A_FFFF).unwrap();
    assert_eq!(vm.get_register(10).unwrap(), 0x0000_FFFF);
    vm.set_register(9, 0x0000_FF00).unwrap();
    // ori $10, $9, 0x00FF
    vm.execute_instruction(0x352A_00FF).unwrap();
    assert_eq!(vm.get_register(10).unwrap(), 0x0000_FFFF);
    // xori $10, $9, 0x0F0F
    vm.execute_instruction(0x392A_0F0F).unwrap();
    assert_eq!(vm.get_register(10).unwrap(), 0x0000_F00F);
}

#[test]
fn shifts_by_immediate() {
    let mut vm = new_vm();
    vm.set_register(10, 0x8000_0001).unwrap();
    vm.execute_instruction(0x000A_5900).unwrap(); // sll $11, $10, 4
    assert_eq!(vm.get_register(11).unwrap(), 0x0000_0010);
    vm.set_register(10, 0x8000_0000).unwrap();
    vm.execute_instruction(0x000A_5842).unwrap(); // srl $11, $10, 1
    assert_eq!(vm.get_register(11).unwrap(), 0x4000_0000);
    vm.execute_instruction(0x000A_5843).unwrap(); // sra $11, $10, 1
    assert_eq!(vm.get_register(11).unwrap(), 0xC000_0000);
}

#[test]
fn shifts_by_register_use_low_five_bits() {
    let mut vm = new_vm();
    vm.set_register(9, 33).unwrap(); // only 1 survives modulo 32
    vm.set_register(10, 1).unwrap();
    vm.execute_instruction(0x012A_5804).unwrap(); // sllv $11, $10, $9
    assert_eq!(vm.get_register(11).unwrap(), 2);
    vm.set_register(10, 0x8000_0000).unwrap();
    vm.execute_instruction(0x012A_5806).unwrap(); // srlv $11, $10, $9
    assert_eq!(vm.get_register(11).unwrap(), 0x4000_0000);
    vm.execute_instruction(0x012A_5807).unwrap(); // srav $11, $10, $9
    assert_eq!(vm.get_register(11).unwrap(), 0xC000_0000);
}

#[test]
fn mult_signed_product() {
    let mut vm = new_vm();
    // (-2^31) * (-2^31) == 2^62
    vm.set_register(9, 0x8000_0000).unwrap();
    vm.set_register(10, 0x8000_0000).unwrap();
    vm.execute_instruction(0x012A_0018).unwrap(); // mult $9, $10
    assert_eq!(vm.get_hi(), 0x4000_0000);
    assert_eq!(vm.get_lo(), 0);
    // 0x7FFFFFFF * 2 stays positive
    vm.set_register(9, 0x7FFF_FFFF).unwrap();
    vm.set_register(10, 2).unwrap();
    vm.execute_instruction(0x012A_0018).unwrap();
    assert_eq!(vm.get_hi(), 0);
    assert_eq!(vm.get_lo(), 0xFFFF_FFFE);
}

#[test]
fn multu_unsigned_product() {
    let mut vm = new_vm();
    vm.set_register(9, 0xFFFF_FFFF).unwrap();
    vm.set_register(10, 0xFFFF_FFFF).unwrap();
    vm.execute_instruction(0x012A_0019).unwrap(); // multu $9, $10
    assert_eq!(vm.get_hi(), 0xFFFF_FFFE);
    assert_eq!(vm.get_lo(), 0x0000_0001);
}

#[test]
fn div_signed_truncates_toward_zero() {
    let mut vm = new_vm();
    vm.set_register(9, (-7i32) as u32).unwrap();
    vm.set_register(10, 2).unwrap();
    vm.execute_instruction(0x012A_001A).unwrap(); // div $9, $10
    assert_eq!(vm.get_lo(), (-3i32) as u32);
    assert_eq!(vm.get_hi(), (-1i32) as u32);
    vm.set_register(9, 7).unwrap();
    vm.set_register(10, (-2i32) as u32).unwrap();
    vm.execute_instruction(0x012A_001A).unwrap();
    assert_eq!(vm.get_lo(), (-3i32) as u32);
    assert_eq!(vm.get_hi(), 1);
}

#[test]
fn div_minimum_by_minus_one_wraps() {
    let mut vm = new_vm();
    vm.set_register(9, 0x8000_0000).unwrap();
    vm.set_register(10, 0xFFFF_FFFF).unwrap();
    vm.execute_instruction(0x012A_001A).unwrap(); // div $9, $10
    assert_eq!(vm.get_lo(), 0x8000_0000);
    assert_eq!(vm.get_hi(), 0);
}

#[test]
fn divu_unsigned() {
    let mut vm = new_vm();
    vm.set_register(9, 0xFFFF_FFFF).unwrap();
    vm.set_register(10, 0x10).unwrap();
    vm.execute_instruction(0x012A_001B).unwrap(); // divu $9, $10
    assert_eq!(vm.get_lo(), 0x0FFF_FFFF);
    assert_eq!(vm.get_hi(), 0xF);
}

#[test]
fn division_by_zero_leaves_hi_lo() {
    let mut vm = new_vm();
    vm.set_hi(0x1111);
    vm.set_lo(0x2222);
    vm.set_register(9, 5).unwrap();
    let (_, trap) = vm.execute_instruction(0x012A_001A).unwrap(); // div $9, $10($10 == 0)
    assert!(trap.is_none());
    assert_eq!(vm.get_hi(), 0x1111);
    assert_eq!(vm.get_lo(), 0x2222);
    let (_, trap) = vm.execute_instruction(0x012A_001B).unwrap(); // divu
    assert!(trap.is_none());
    assert_eq!(vm.get_hi(), 0x1111);
    assert_eq!(vm.get_lo(), 0x2222);
}

#[test]
fn set_less_than_variants() {
    let mut vm = new_vm();
    vm.set_register(9, 0xFFFF_FFFF).unwrap(); // -1 signed, huge unsigned
    vm.set_register(10, 1).unwrap();
    vm.execute_instruction(0x012A_582A).unwrap(); // slt $11, $9, $10
    assert_eq!(vm.get_register(11).unwrap(), 1);
    vm.execute_instruction(0x012A_5829).unwrap(); // sltu $11, $9, $10
    assert_eq!(vm.get_register(11).unwrap(), 0);
    // slti $10, $9, 0: -1 < 0
    vm.execute_instruction(0x292A_0000).unwrap();
    assert_eq!(vm.get_register(10).unwrap(), 1);
}

#[test]
fn branch_taken_and_untaken() {
    let mut vm = new_vm();
    vm.set_pc(0x0040_0004);
    // beq $9, $10, +2 with both zero: taken
    vm.execute_instruction(0x112A_0002).unwrap();
    assert_eq!(vm.get_pc(), 0x0040_000C);
    // bne $9, $10, +2 with both zero: untaken
    vm.set_pc(0x0040_0004);
    vm.execute_instruction(0x152A_0002).unwrap();
    assert_eq!(vm.get_pc(), 0x0040_0004);
}

#[test]
fn branch_backwards() {
    let mut vm = new_vm();
    vm.set_pc(0x0040_0004);
    // beq $9, $10, -1: offset is sign-extended and scaled by four
    vm.execute_instruction(0x112A_FFFF).unwrap();
    assert_eq!(vm.get_pc(), 0x0040_0000);
}

#[test]
fn branch_on_sign_conditions() {
    let mut vm = new_vm();
    vm.set_register(9, 1).unwrap();
    vm.set_pc(0x0040_0004);
    vm.execute_instruction(0x1D20_0002).unwrap(); // bgtz $9, +2
    assert_eq!(vm.get_pc(), 0x0040_000C);
    vm.set_register(9, 0xFFFF_FFFF).unwrap(); // negative: not greater than zero
    vm.set_pc(0x0040_0004);
    vm.execute_instruction(0x1D20_0002).unwrap();
    assert_eq!(vm.get_pc(), 0x0040_0004);
    vm.execute_instruction(0x1920_0002).unwrap(); // blez $9, +2 taken
    assert_eq!(vm.get_pc(), 0x0040_000C);
    vm.set_register(9, 0).unwrap();
    vm.set_pc(0x0040_0004);
    vm.execute_instruction(0x1920_0002).unwrap(); // blez with $9 == 0: taken
    assert_eq!(vm.get_pc(), 0x0040_000C);
}

#[test]
fn jumps_and_links() {
    let mut vm = new_vm();
    vm.set_pc(0x0040_0004);
    vm.execute_instruction(0x0800_0012).unwrap(); // j 0x12
    assert_eq!(vm.get_pc(), 0x48);
    vm.set_pc(0x0040_0004);
    vm.execute_instruction(0x0C00_0012).unwrap(); // jal 0x12
    assert_eq!(vm.get_pc(), 0x48);
    assert_eq!(vm.get_ra(), 0x0040_0004);
    vm.set_register(9, 0x0040_0010).unwrap();
    vm.execute_instruction(0x0120_0008).unwrap(); // jr $9
    assert_eq!(vm.get_pc(), 0x0040_0010);
    vm.set_pc(0x0040_0004);
    vm.execute_instruction(0x0120_0009).unwrap(); // jalr $9 (link defaults to $ra)
    assert_eq!(vm.get_pc(), 0x0040_0010);
    assert_eq!(vm.get_ra(), 0x0040_0004);
    vm.set_pc(0x0040_0020);
    vm.execute_instruction(0x0120_5809).unwrap(); // jalr $9 with rd = $11
    assert_eq!(vm.get_pc(), 0x0040_0010);
    assert_eq!(vm.get_register(11).unwrap(), 0x0040_0020);
}

#[test]
fn word_store_and_load_instructions() {
    let mut vm = new_vm();
    vm.set_register(9, HEAP as u32).unwrap();
    vm.set_register(10, 0xCAFE_BABE).unwrap();
    vm.execute_instruction(0xAD2A_0000).unwrap(); // sw $10, 0($9)
    assert_eq!(vm.memory.get_word(HEAP).unwrap(), 0xCAFE_BABE);
    vm.execute_instruction(0x8D2B_0000).unwrap(); // lw $11, 0($9)
    assert_eq!(vm.get_register(11).unwrap(), 0xCAFE_BABE);
}

#[test]
fn byte_loads_extend_correctly() {
    let mut vm = new_vm();
    vm.set_register(9, HEAP as u32).unwrap();
    vm.set_register(10, 0x0000_01FF).unwrap();
    vm.execute_instruction(0xA12A_0000).unwrap(); // sb $10, 0($9): only 0xFF lands
    assert_eq!(vm.memory.get_byte(HEAP).unwrap(), 0xFF);
    vm.execute_instruction(0x812B_0000).unwrap(); // lb $11, 0($9)
    assert_eq!(vm.get_register(11).unwrap(), 0xFFFF_FFFF);
    vm.execute_instruction(0x912B_0000).unwrap(); // lbu $11, 0($9)
    assert_eq!(vm.get_register(11).unwrap(), 0x0000_00FF);
}

#[test]
fn halfword_loads_extend_correctly() {
    let mut vm = new_vm();
    vm.set_register(9, HEAP as u32).unwrap();
    vm.set_register(10, 0x0001_8000).unwrap();
    vm.execute_instruction(0xA52A_0002).unwrap(); // sh $10, 2($9): only 0x8000 lands
    assert_eq!(vm.memory.get_halfword(HEAP + 2).unwrap(), 0x8000);
    vm.execute_instruction(0x852B_0002).unwrap(); // lh $11, 2($9)
    assert_eq!(vm.get_register(11).unwrap(), 0xFFFF_8000);
    vm.execute_instruction(0x952B_0002).unwrap(); // lhu $11, 2($9)
    assert_eq!(vm.get_register(11).unwrap(), 0x0000_8000);
}

#[test]
fn load_with_negative_offset() {
    let mut vm = new_vm();
    vm.memory.set_word(HEAP + 0xC, 0x0BAD_F00D).unwrap();
    vm.set_register(9, (HEAP + 0x10) as u32).unwrap();
    vm.execute_instruction(0x8D2B_FFFC).unwrap(); // lw $11, -4($9)
    assert_eq!(vm.get_register(11).unwrap(), 0x0BAD_F00D);
}

#[test]
fn store_to_read_only_segment_is_fatal() {
    let mut vm = new_vm();
    vm.set_register(9, 0x0040_0000).unwrap();
    vm.set_register(10, 0x1234_5678).unwrap();
    let err = vm.execute_instruction(0xAD2A_0000).unwrap_err(); // sw into text
    assert_eq!(err.err_type, FatalErrorType::IllegalMemoryAccess);
    assert_eq!(vm.memory.get_word(0x0040_0000).unwrap(), 0);
}

#[test]
fn load_from_unmapped_address_is_fatal() {
    let mut vm = new_vm();
    vm.set_register(9, 0x0030_0000).unwrap();
    let err = vm.execute_instruction(0x8D2B_0000).unwrap_err(); // lw $11, 0($9)
    assert_eq!(err.err_type, FatalErrorType::IllegalMemoryAccess);
}

#[test]
fn hi_lo_moves() {
    let mut vm = new_vm();
    vm.set_hi(0x1234);
    vm.set_lo(0x5678);
    vm.execute_instruction(0x0000_5810).unwrap(); // mfhi $11
    assert_eq!(vm.get_register(11).unwrap(), 0x1234);
    vm.execute_instruction(0x0000_5812).unwrap(); // mflo $11
    assert_eq!(vm.get_register(11).unwrap(), 0x5678);
    vm.set_register(9, 77).unwrap();
    vm.execute_instruction(0x0000_4811).unwrap(); // mthi $9
    assert_eq!(vm.get_hi(), 77);
    vm.execute_instruction(0x0000_4813).unwrap(); // mtlo $9
    assert_eq!(vm.get_lo(), 77);
}

#[test]
fn syscall_without_handler_traps() {
    let mut vm = new_vm();
    vm.set_register(9, 5).unwrap();
    let (inst, trap) = vm.execute_instruction(0x0000_000C).unwrap();
    assert_eq!(
        inst.base.mnemonic,
        mips_vm::instruction::Mnemonic::Syscall
    );
    assert!(trap.is_some());
    assert_eq!(vm.get_register(9).unwrap(), 5);
}
