//! The decoder: from a 32-bit machine word to an instruction record, by the
//! opcode in the top six bits -- or, when that opcode is zero, by the
//! function code in the bottom six -- and the format's field layout.

use vstd::prelude::*;

use crate::errors::{FatalErrorType, RuntimeError};
use crate::instruction::{
    other_instruction, r_instruction, spec_encode, IFormat, Instruction, InstructionArgs,
    InstructionData, InstructionFormat, JFormat, Mnemonic, RFormat,
};
use crate::vm::VM;

verus! {

/// The opcode: the top six bits of the word.
pub open spec fn spec_opcode(word: u32) -> u8 {
    ((word >> 26u32) & 0x3F) as u8
}

/// The function code: the bottom six bits of the word.
pub open spec fn spec_funct(word: u32) -> u8 {
    (word & 0x3F) as u8
}

/// The `rs` field: bits 25 down to 21.
pub open spec fn spec_rs(word: u32) -> u8 {
    ((word >> 21u32) & 0x1F) as u8
}

/// The `rt` field: bits 20 down to 16.
pub open spec fn spec_rt(word: u32) -> u8 {
    ((word >> 16u32) & 0x1F) as u8
}

/// The `rd` field: bits 15 down to 11.
pub open spec fn spec_rd(word: u32) -> u8 {
    ((word >> 11u32) & 0x1F) as u8
}

/// The `shamt` field: bits 10 down to 6.
pub open spec fn spec_shamt(word: u32) -> u8 {
    ((word >> 6u32) & 0x1F) as u8
}

/// The 16-bit immediate: the bottom halfword.
pub open spec fn spec_imm(word: u32) -> u16 {
    (word & 0xFFFF) as u16
}

/// The 26-bit jump address field.
pub open spec fn spec_jump_address(word: u32) -> u32 {
    word & 0x03FF_FFFF
}

/// The opcode identity a word decodes to: the R-format table when the
/// opcode is zero, the I/J-format table otherwise.
pub open spec fn spec_base_of(word: u32) -> Option<Instruction> {
    if spec_opcode(word) == 0 {
        r_instruction(spec_funct(word))
    } else {
        other_instruction(spec_opcode(word))
    }
}

/// What decoding yields: the word's opcode identity together with its
/// operand fields extracted per the identity's format.
pub open spec fn spec_decode(word: u32) -> Option<InstructionData> {
    match spec_base_of(word) {
        None => None,
        Some(base) => Some(
            InstructionData {
                base,
                args: match base.format {
                    InstructionFormat::R => InstructionArgs::RFormat(
                        RFormat {
                            rs: spec_rs(word),
                            rt: spec_rt(word),
                            rd: spec_rd(word),
                            shamt: spec_shamt(word),
                            funct: spec_funct(word),
                        },
                    ),
                    InstructionFormat::I => InstructionArgs::IFormat(
                        IFormat { rs: spec_rs(word), rt: spec_rt(word), imm: spec_imm(word) },
                    ),
                    InstructionFormat::J => InstructionArgs::JFormat(
                        JFormat { address: spec_jump_address(word) },
                    ),
                },
            },
        ),
    }
}

/// Every extracted field fits its bit width.
proof fn lemma_field_bounds(word: u32)
    by (bit_vector)
    ensures
        (((word >> 21u32) & 0x1F) as u8) < 32,
        (((word >> 16u32) & 0x1F) as u8) < 32,
        (((word >> 11u32) & 0x1F) as u8) < 32,
        (((word >> 6u32) & 0x1F) as u8) < 64,
        ((word & 0x3F) as u8) < 64,
        (word & 0x03FF_FFFF) < 0x0400_0000,
        (((word >> 6u32) & 0x1F) as u8) < 32,
{
}

impl VM {
    /// Decode a machine word into an instruction record, or fail with an
    /// illegal-instruction error when neither table knows the word's opcode
    /// or function code. A successful decode is always well-formed.
    pub fn decode_instruction(&self, instruction: u32) -> (r: Result<
        InstructionData,
        RuntimeError,
    >)
        ensures
            r is Ok <==> spec_decode(instruction) is Some,
            r matches Ok(inst) ==> Some(inst) == spec_decode(instruction) && inst.wf(),
            r matches Err(e) ==> e.err_type == FatalErrorType::IllegalInstruction,
    {
        let base_instruction = self.decode_base_instruction(instruction)?;
        proof {
            lemma_field_bounds(instruction);
        }

        Ok(
            InstructionData {
                base: base_instruction,
                args: match base_instruction.format {
                    InstructionFormat::R => {
                        let rs = ((instruction >> 21u32) & 0x1F) as u8;
                        let rt = ((instruction >> 16u32) & 0x1F) as u8;
                        let rd = ((instruction >> 11u32) & 0x1F) as u8;
                        let shamt = ((instruction >> 6u32) & 0x1F) as u8;
                        let funct = (instruction & 0x3F) as u8;

                        InstructionArgs::RFormat(RFormat { rs, rt, rd, shamt, funct })
                    },
                    InstructionFormat::I => {
                        let rs = ((instruction >> 21u32) & 0x1F) as u8;
                        let rt = ((instruction >> 16u32) & 0x1F) as u8;
                        let imm = (instruction & 0xFFFF) as u16;

                        InstructionArgs::IFormat(IFormat { rs, rt, imm })
                    },
                    InstructionFormat::J => {
                        let address = instruction & 0x03FF_FFFF;

                        InstructionArgs::JFormat(JFormat { address })
                    },
                },
            },
        )
    }

    /// Look up a word's opcode identity: by function code against the
    /// R-format table when the opcode is zero, by opcode against the
    /// I/J-format table otherwise.
    fn decode_base_instruction(&self, instruction: u32) -> (r: Result<Instruction, RuntimeError>)
        ensures
            r is Ok <==> spec_base_of(instruction) is Some,
            r matches Ok(inst) ==> Some(inst) == spec_base_of(instruction),
            r matches Err(e) ==> e.err_type == FatalErrorType::IllegalInstruction,
    {
        let opcode: u8 = ((instruction >> 26u32) & 0x3F) as u8;

        if opcode == 0 {
            let func_code: u8 = (instruction & 0x3F) as u8;

            match func_code {
                0x20u8 => Ok(
                    Instruction {
                        opc_func: 0x20,
                        mnemonic: Mnemonic::Add,
                        format: InstructionFormat::R,
                    },
                ),
                0x21u8 => Ok(
                    Instruction {
                        opc_func: 0x21,
                        mnemonic: Mnemonic::Addu,
                        format: InstructionFormat::R,
                    },
                ),
                0x24u8 => Ok(
                    Instruction {
                        opc_func: 0x24,
                        mnemonic: Mnemonic::And,
                        format: InstructionFormat::R,
                    },
                ),
                0x1Au8 => Ok(
                    Instruction {
                        opc_func: 0x1A,
                        mnemonic: Mnemonic::Div,
                        format: InstructionFormat::R,
                    },
                ),
                0x1Bu8 => Ok(
                    Instruction {
                        opc_func: 0x1B,
                        mnemonic: Mnemonic::Divu,
                        format: InstructionFormat::R,
                    },
                ),
                0x18u8 => Ok(
                    Instruction {
                        opc_func: 0x18,
                        mnemonic: Mnemonic::Mult,
                        format: InstructionFormat::R,
                    },
                ),
                0x19u8 => Ok(
                    Instruction {
                        opc_func: 0x19,
                        mnemonic: Mnemonic::Multu,
                        format: InstructionFormat::R,
                    },
                ),
                0x27u8 => Ok(
                    Instruction {
                        opc_func: 0x27,
                        mnemonic: Mnemonic::Nor,
                        format: InstructionFormat::R,
                    },
                ),
                0x25u8 => Ok(
                    Instruction {
                        opc_func: 0x25,
                        mnemonic: Mnemonic::Or,
                        format: InstructionFormat::R,
                    },
                ),
                0x00u8 => Ok(
                    Instruction {
                        opc_func: 0x00,
                        mnemonic: Mnemonic::Sll,
                        format: InstructionFormat::R,
                    },
                ),
                0x04u8 => Ok(
                    Instruction {
                        opc_func: 0x04,
                        mnemonic: Mnemonic::Sllv,
                        format: InstructionFormat::R,
                    },
                ),
                0x03u8 => Ok(
                    Instruction {
                        opc_func: 0x03,
                        mnemonic: Mnemonic::Sra,
                        format: InstructionFormat::R,
                    },
                ),
                0x07u8 => Ok(
                    Instruction {
                        opc_func: 0x07,
                        mnemonic: Mnemonic::Srav,
                        format: InstructionFormat::R,
                    },
                ),
                0x02u8 => Ok(
                    Instruction {
                        opc_func: 0x02,
                        mnemonic: Mnemonic::Srl,
                        format: InstructionFormat::R,
                    },
                ),
                0x06u8 => Ok(
                    Instruction {
                        opc_func: 0x06,
                        mnemonic: Mnemonic::Srlv,
                        format: InstructionFormat::R,
                    },
                ),
                0x22u8 => Ok(
                    Instruction {
                        opc_func: 0x22,
                        mnemonic: Mnemonic::Sub,
                        format: InstructionFormat::R,
                    },
                ),
                0x23u8 => Ok(
                    Instruction {
                        opc_func: 0x23,
                        mnemonic: Mnemonic::Subu,
                        format: InstructionFormat::R,
                    },
                ),
                0x26u8 => Ok(
                    Instruction {
                        opc_func: 0x26,
                        mnemonic: Mnemonic::Xor,
                        format: InstructionFormat::R,
                    },
                ),
                0x2Au8 => Ok(
                    Instruction {
                        opc_func: 0x2A,
                        mnemonic: Mnemonic::Slt,
                        format: InstructionFormat::R,
                    },
                ),
                0x29u8 => Ok(
                    Instruction {
                        opc_func: 0x29,
                        mnemonic: Mnemonic::Sltu,
                        format: InstructionFormat::R,
                    },
                ),
                0x09u8 => Ok(
                    Instruction {
                        opc_func: 0x09,
                        mnemonic: Mnemonic::Jalr,
                        format: InstructionFormat::R,
                    },
                ),
                0x08u8 => Ok(
                    Instruction {
                        opc_func: 0x08,
                        mnemonic: Mnemonic::Jr,
                        format: InstructionFormat::R,
                    },
                ),
                0x10u8 => Ok(
                    Instruction {
                        opc_func: 0x10,
                        mnemonic: Mnemonic::Mfhi,
                        format: InstructionFormat::R,
                    },
                ),
                0x12u8 => Ok(
                    Instruction {
                        opc_func: 0x12,
                        mnemonic: Mnemonic::Mflo,
                        format: InstructionFormat::R,
                    },
                ),
                0x11u8 => Ok(
                    Instruction {
                        opc_func: 0x11,
                        mnemonic: Mnemonic::Mthi,
                        format: InstructionFormat::R,
                    },
                ),
                0x13u8 => Ok(
                    Instruction {
                        opc_func: 0x13,
                        mnemonic: Mnemonic::Mtlo,
                        format: InstructionFormat::R,
                    },
                ),
                0x0Cu8 => Ok(
                    Instruction {
                        opc_func: 0x0C,
                        mnemonic: Mnemonic::Syscall,
                        format: InstructionFormat::R,
                    },
                ),
                _ => Err(
                    RuntimeError::new(
                        FatalErrorType::IllegalInstruction,
                        "unknown R-type instruction".to_owned(),
                    ),
                ),
            }
        } else {
            match opcode {
                0x08u8 => Ok(
                    Instruction {
                        opc_func: 0x08,
                        mnemonic: Mnemonic::Addi,
                        format: InstructionFormat::I,
                    },
                ),
                0x09u8 => Ok(
                    Instruction {
                        opc_func: 0x09,
                        mnemonic: Mnemonic::Addiu,
                        format: InstructionFormat::I,
                    },
                ),
                0x0Cu8 => Ok(
                    Instruction {
                        opc_func: 0x0C,
                        mnemonic: Mnemonic::Andi,
                        format: InstructionFormat::I,
                    },
                ),
                0x0Du8 => Ok(
                    Instruction {
                        opc_func: 0x0D,
                        mnemonic: Mnemonic::Ori,
                        format: InstructionFormat::I,
                    },
                ),
                0x0Eu8 => Ok(
                    Instruction {
                        opc_func: 0x0E,
                        mnemonic: Mnemonic::Xori,
                        format: InstructionFormat::I,
                    },
                ),
                0x0Au8 => Ok(
                    Instruction {
                        opc_func: 0x0A,
                        mnemonic: Mnemonic::Slti,
                        format: InstructionFormat::I,
                    },
                ),
                0x04u8 => Ok(
                    Instruction {
                        opc_func: 0x04,
                        mnemonic: Mnemonic::Beq,
                        format: InstructionFormat::I,
                    },
                ),
                0x07u8 => Ok(
                    Instruction {
                        opc_func: 0x07,
                        mnemonic: Mnemonic::Bgtz,
                        format: InstructionFormat::I,
                    },
                ),
                0x06u8 => Ok(
                    Instruction {
                        opc_func: 0x06,
                        mnemonic: Mnemonic::Blez,
                        format: InstructionFormat::I,
                    },
                ),
                0x05u8 => Ok(
                    Instruction {
                        opc_func: 0x05,
                        mnemonic: Mnemonic::Bne,
                        format: InstructionFormat::I,
                    },
                ),
                0x02u8 => Ok(
                    Instruction {
                        opc_func: 0x02,
                        mnemonic: Mnemonic::J,
                        format: InstructionFormat::J,
                    },
                ),
                0x03u8 => Ok(
                    Instruction {
                        opc_func: 0x03,
                        mnemonic: Mnemonic::Jal,
                        format: InstructionFormat::J,
                    },
                ),
                0x20u8 => Ok(
                    Instruction {
                        opc_func: 0x20,
                        mnemonic: Mnemonic::Lb,
                        format: InstructionFormat::I,
                    },
                ),
                0x24u8 => Ok(
                    Instruction {
                        opc_func: 0x24,
                        mnemonic: Mnemonic::Lbu,
                        format: InstructionFormat::I,
                    },
                ),
                0x21u8 => Ok(
                    Instruction {
                        opc_func: 0x21,
                        mnemonic: Mnemonic::Lh,
                        format: InstructionFormat::I,
                    },
                ),
                0x25u8 => Ok(
                    Instruction {
                        opc_func: 0x25,
                        mnemonic: Mnemonic::Lhu,
                        format: InstructionFormat::I,
                    },
                ),
                0x23u8 => Ok(
                    Instruction {
                        opc_func: 0x23,
                        mnemonic: Mnemonic::Lw,
                        format: InstructionFormat::I,
                    },
                ),
                0x28u8 => Ok(
                    Instruction {
                        opc_func: 0x28,
                        mnemonic: Mnemonic::Sb,
                        format: InstructionFormat::I,
                    },
                ),
                0x29u8 => Ok(
                    Instruction {
                        opc_func: 0x29,
                        mnemonic: Mnemonic::Sh,
                        format: InstructionFormat::I,
                    },
                ),
                0x2Bu8 => Ok(
                    Instruction {
                        opc_func: 0x2B,
                        mnemonic: Mnemonic::Sw,
                        format: InstructionFormat::I,
                    },
                ),
                _ => Err(
                    RuntimeError::new(
                        FatalErrorType::IllegalInstruction,
                        "unknown instruction".to_owned(),
                    ),
                ),
            }
        }
    }
}

/// Round trip: decoding the canonical encoding of any well-formed
/// instruction record gives the record back. (A well-formed record is one
/// the decoder can produce; the `sltiu` identity is excluded by
/// well-formedness because its opcode collides with `addiu`.)
pub proof fn lemma_decode_encode_round_trip(inst: InstructionData)
    requires
        inst.wf(),
    ensures
        spec_decode(spec_encode(inst)) == Some(inst),
{
    match inst.args {
        InstructionArgs::RFormat(a) => {
            let rs = a.rs;
            let rt = a.rt;
            let rd = a.rd;
            let shamt = a.shamt;
            let funct = a.funct;
            let w: u32 = ((rs as u32) << 21u32) | ((rt as u32) << 16u32) | ((rd as u32) << 11u32)
                | ((shamt as u32) << 6u32) | (funct as u32);
            assert(spec_encode(inst) == w);
            assert((((w >> 26u32) & 0x3F) as u8) == 0 && ((w & 0x3F) as u8) == funct && (((w
                >> 21u32) & 0x1F) as u8) == rs && (((w >> 16u32) & 0x1F) as u8) == rt && (((w
                >> 11u32) & 0x1F) as u8) == rd && (((w >> 6u32) & 0x1F) as u8) == shamt)
                by (bit_vector)
                requires
                    w == ((rs as u32) << 21u32) | ((rt as u32) << 16u32) | ((rd as u32) << 11u32)
                        | ((shamt as u32) << 6u32) | (funct as u32),
                    rs < 32,
                    rt < 32,
                    rd < 32,
                    shamt < 32,
                    funct < 64,
            ;
        },
        InstructionArgs::IFormat(a) => {
            let opc = inst.base.opc_func;
            let rs = a.rs;
            let rt = a.rt;
            let imm = a.imm;
            let w: u32 = ((opc as u32) << 26u32) | ((rs as u32) << 21u32) | ((rt as u32) << 16u32)
                | (imm as u32);
            assert(spec_encode(inst) == w);
            assert(opc != 0 && opc < 64);
            assert((((w >> 26u32) & 0x3F) as u8) == opc && (((w >> 21u32) & 0x1F) as u8) == rs && ((
            (w >> 16u32) & 0x1F) as u8) == rt && ((w & 0xFFFF) as u16) == imm)
                by (bit_vector)
                requires
                    w == ((opc as u32) << 26u32) | ((rs as u32) << 21u32) | ((rt as u32) << 16u32)
                        | (imm as u32),
                    opc < 64,
                    rs < 32,
                    rt < 32,
            ;
        },
        InstructionArgs::JFormat(a) => {
            let opc = inst.base.opc_func;
            let address = a.address;
            let w: u32 = ((opc as u32) << 26u32) | address;
            assert(spec_encode(inst) == w);
            assert(opc != 0 && opc < 64);
            assert((((w >> 26u32) & 0x3F) as u8) == opc && (w & 0x03FF_FFFF) == address)
                by (bit_vector)
                requires
                    w == ((opc as u32) << 26u32) | address,
                    opc < 64,
                    address < 0x0400_0000,
            ;
        },
    }
}

} // verus!
