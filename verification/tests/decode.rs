use mips_vm::errors::FatalErrorType;
use mips_vm::instruction::{
    coerce_i_format, coerce_j_format, coerece_r_format, encode_instruction, IFormat, Instruction,
    InstructionArgs, InstructionData, InstructionFormat, JFormat, Mnemonic, RFormat,
};
use mips_vm::vm::{MemoryLayout, VM};

fn new_vm() -> VM {
    VM::new(MemoryLayout::mars(0x1000, 0x1000))
}

#[test]
fn decode_i_format_addi() {
    let vm = new_vm();
    let inst = vm.decode_instruction(0x212A_002A).unwrap();
    assert_eq!(inst.base.mnemonic, Mnemonic::Addi);
    assert_eq!(inst.base.opc_func, 0x08);
    let args = coerce_i_format(&inst);
    assert_eq!(args.rs, 9);
    assert_eq!(args.rt, 10);
    assert_eq!(args.imm, 42);
}

#[test]
fn decode_r_format_add() {
    let vm = new_vm();
    let inst = vm.decode_instruction(0x012A_5820).unwrap();
    assert_eq!(inst.base.mnemonic, Mnemonic::Add);
    assert!(matches!(inst.base.format, InstructionFormat::R));
    let args = coerece_r_format(&inst);
    assert_eq!(args.rs, 9);
    assert_eq!(args.rt, 10);
    assert_eq!(args.rd, 11);
    assert_eq!(args.shamt, 0);
    assert_eq!(args.funct, 0x20);
}

#[test]
fn decode_j_format() {
    let vm = new_vm();
    let inst = vm.decode_instruction(0x0800_0012).unwrap();
    assert_eq!(inst.base.mnemonic, Mnemonic::J);
    let args = coerce_j_format(&inst);
    assert_eq!(args.address, 0x12);
    let inst = vm.decode_instruction(0x0C00_0012).unwrap();
    assert_eq!(inst.base.mnemonic, Mnemonic::Jal);
}

#[test]
fn decode_unknown_opcode_fails() {
    let vm = new_vm();
    let err = vm.decode_instruction(0xFC00_0000).unwrap_err();
    assert_eq!(err.err_type, FatalErrorType::IllegalInstruction);
}

#[test]
fn decode_unknown_funct_fails() {
    let vm = new_vm();
    let err = vm.decode_instruction(0x0000_003F).unwrap_err();
    assert_eq!(err.err_type, FatalErrorType::IllegalInstruction);
}

#[test]
fn decode_opcode_nine_is_addiu() {
    // the opcode that would encode sltiu collides with addiu in the
    // instruction table, and the collision resolves to addiu
    let vm = new_vm();
    let inst = vm.decode_instruction(0x252A_0001).unwrap();
    assert_eq!(inst.base.mnemonic, Mnemonic::Addiu);
}

#[test]
fn null_instruction_detection() {
    let vm = new_vm();
    let inst = vm.decode_instruction(0x0000_0000).unwrap();
    assert_eq!(inst.base.mnemonic, Mnemonic::Sll);
    assert!(inst.is_null());
    // a real shift is not the sentinel
    let inst = vm.decode_instruction(0x000A_5900).unwrap();
    assert_eq!(inst.base.mnemonic, Mnemonic::Sll);
    assert!(!inst.is_null());
}

#[test]
fn encode_decode_round_trip_words() {
    let vm = new_vm();
    let words: [u32; 10] = [
        0x212A_002A, // addi
        0x012A_5820, // add
        0x0000_0000, // sll (null)
        0x012A_0018, // mult
        0x8D2A_0000, // lw
        0xAD2A_FFFC, // sw with negative offset
        0x112A_0002, // beq
        0x0800_0012, // j
        0x0120_0008, // jr
        0x0000_000C, // syscall
    ];
    let mut i: usize = 0;
    while i < words.len() {
        let inst = vm.decode_instruction(words[i]).unwrap();
        assert_eq!(encode_instruction(&inst), words[i]);
        i += 1;
    }
}

#[test]
fn decode_encode_round_trip_records() {
    let vm = new_vm();
    let addi = InstructionData {
        base: Instruction {
            opc_func: 0x08,
            mnemonic: Mnemonic::Addi,
            format: InstructionFormat::I,
        },
        args: InstructionArgs::IFormat(IFormat { rs: 9, rt: 10, imm: 42 }),
    };
    assert_eq!(encode_instruction(&addi), 0x212A_002A);
    assert_eq!(vm.decode_instruction(0x212A_002A).unwrap(), addi);

    let srl = InstructionData {
        base: Instruction {
            opc_func: 0x02,
            mnemonic: Mnemonic::Srl,
            format: InstructionFormat::R,
        },
        args: InstructionArgs::RFormat(RFormat { rs: 0, rt: 10, rd: 11, shamt: 1, funct: 0x02 }),
    };
    let word = encode_instruction(&srl);
    assert_eq!(vm.decode_instruction(word).unwrap(), srl);

    let jal = InstructionData {
        base: Instruction { opc_func: 0x03, mnemonic: Mnemonic::Jal, format: InstructionFormat::J },
        args: InstructionArgs::JFormat(JFormat { address: 0x0010_0000 }),
    };
    let word = encode_instruction(&jal);
    assert_eq!(vm.decode_instruction(word).unwrap(), jal);
}

#[test]
fn decode_every_store_and_load() {
    let vm = new_vm();
    let pairs: [(u32, Mnemonic); 8] = [
        (0x812A_0000, Mnemonic::Lb),
        (0x912A_0000, Mnemonic::Lbu),
        (0x852A_0000, Mnemonic::Lh),
        (0x952A_0000, Mnemonic::Lhu),
        (0x8D2A_0000, Mnemonic::Lw),
        (0xA12A_0000, Mnemonic::Sb),
        (0xA52A_0000, Mnemonic::Sh),
        (0xAD2A_0000, Mnemonic::Sw),
    ];
    let mut i: usize = 0;
    while i < pairs.len() {
        let inst = vm.decode_instruction(pairs[i].0).unwrap();
        assert_eq!(inst.base.mnemonic, pairs[i].1);
        i += 1;
    }
}

#[test]
fn decode_hilo_moves() {
    let vm = new_vm();
    assert_eq!(
        vm.decode_instruction(0x0000_5810).unwrap().base.mnemonic,
        Mnemonic::Mfhi
    );
    assert_eq!(
        vm.decode_instruction(0x0000_5812).unwrap().base.mnemonic,
        Mnemonic::Mflo
    );
    assert_eq!(
        vm.decode_instruction(0x0000_4811).unwrap().base.mnemonic,
        Mnemonic::Mthi
    );
    assert_eq!(
        vm.decode_instruction(0x0000_4813).unwrap().base.mnemonic,
        Mnemonic::Mtlo
    );
}

#[test]
fn opcode_eleven_is_unassigned() {
    // the table resolves the addiu/sltiu collision at opcode 9 in favour of
    // addiu and assigns nothing to the neighbouring opcode
    let vm = new_vm();
    let err = vm.decode_instruction(0x2C00_0000).unwrap_err();
    assert_eq!(err.err_type, FatalErrorType::IllegalInstruction);
}
