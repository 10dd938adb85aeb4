//! Instruction records: the three MIPS32 encoding formats, the table of
//! supported mnemonics, and the canonical big-endian encoding of a record.

use vstd::prelude::*;

verus! {

/// Operand fields of an R-format instruction.
#[derive(Clone, Copy, Debug, PartialEq, Eq, Structural)]
pub struct RFormat {
    pub rs: u8,
    pub rt: u8,
    pub rd: u8,
    pub shamt: u8,
    pub funct: u8,
}

/// Operand fields of an I-format instruction.
#[derive(Clone, Copy, Debug, PartialEq, Eq, Structural)]
pub struct IFormat {
    pub rs: u8,
    pub rt: u8,
    pub imm: u16,
}

/// Operand field of a J-format instruction: a 26-bit word address.
#[derive(Clone, Copy, Debug, PartialEq, Eq, Structural)]
pub struct JFormat {
    pub address: u32,
}

/// The format-specific operand fields of a decoded instruction.
#[derive(Clone, Copy, Debug, PartialEq, Eq, Structural)]
pub enum InstructionArgs {
    RFormat(RFormat),
    IFormat(IFormat),
    JFormat(JFormat),
}

/// The three MIPS32 encoding formats.
#[derive(Clone, Copy, Debug, PartialEq, Eq, Structural)]
pub enum InstructionFormat {
    R,
    I,
    J,
}

/// The identity of a supported instruction.
#[derive(Clone, Copy, Debug, PartialEq, Eq, Structural)]
pub enum Mnemonic {
    Add,
    Addu,
    Addi,
    Addiu,
    And,
    Andi,
    Div,
    Divu,
    Mult,
    Multu,
    Nor,
    Or,
    Ori,
    Sll,
    Sllv,
    Sra,
    Srav,
    Srl,
    Srlv,
    Sub,
    Subu,
    Xor,
    Xori,
    Slt,
    Sltu,
    Slti,
    Sltiu,
    Beq,
    Bgtz,
    Blez,
    Bne,
    J,
    Jal,
    Jalr,
    Jr,
    Lb,
    Lbu,
    Lh,
    Lhu,
    Lw,
    Sb,
    Sh,
    Sw,
    Mfhi,
    Mflo,
    Mthi,
    Mtlo,
    Syscall,
}

/// The opcode identity a decoded record points back to: the mnemonic, its
/// format, and its numeric value. For R-format instructions `opc_func` is the
/// function code; for the other formats it is the opcode.
#[derive(Clone, Copy, Debug, PartialEq, Eq, Structural)]
pub struct Instruction {
    pub opc_func: u8,
    pub mnemonic: Mnemonic,
    pub format: InstructionFormat,
}

/// A decoded instruction: the opcode identity together with the operand
/// fields extracted from the 32-bit word.
#[derive(Clone, Copy, Debug, PartialEq, Eq, Structural)]
pub struct InstructionData {
    pub base: Instruction,
    pub args: InstructionArgs,
}

/// The R-format table: the supported instruction with the given function
/// code, if any.
pub open spec fn r_instruction(funct: u8) -> Option<Instruction> {
    match funct {
        0x20u8 => Some(
            Instruction { opc_func: 0x20, mnemonic: Mnemonic::Add, format: InstructionFormat::R },
        ),
        0x21u8 => Some(
            Instruction { opc_func: 0x21, mnemonic: Mnemonic::Addu, format: InstructionFormat::R },
        ),
        0x24u8 => Some(
            Instruction { opc_func: 0x24, mnemonic: Mnemonic::And, format: InstructionFormat::R },
        ),
        0x1Au8 => Some(
            Instruction { opc_func: 0x1A, mnemonic: Mnemonic::Div, format: InstructionFormat::R },
        ),
        0x1Bu8 => Some(
            Instruction { opc_func: 0x1B, mnemonic: Mnemonic::Divu, format: InstructionFormat::R },
        ),
        0x18u8 => Some(
            Instruction { opc_func: 0x18, mnemonic: Mnemonic::Mult, format: InstructionFormat::R },
        ),
        0x19u8 => Some(
            Instruction {
                opc_func: 0x19,
                mnemonic: Mnemonic::Multu,
                format: InstructionFormat::R,
            },
        ),
        0x27u8 => Some(
            Instruction { opc_func: 0x27, mnemonic: Mnemonic::Nor, format: InstructionFormat::R },
        ),
        0x25u8 => Some(
            Instruction { opc_func: 0x25, mnemonic: Mnemonic::Or, format: InstructionFormat::R },
        ),
        0x00u8 => Some(
            Instruction { opc_func: 0x00, mnemonic: Mnemonic::Sll, format: InstructionFormat::R },
        ),
        0x04u8 => Some(
            Instruction { opc_func: 0x04, mnemonic: Mnemonic::Sllv, format: InstructionFormat::R },
        ),
        0x03u8 => Some(
            Instruction { opc_func: 0x03, mnemonic: Mnemonic::Sra, format: InstructionFormat::R },
        ),
        0x07u8 => Some(
            Instruction { opc_func: 0x07, mnemonic: Mnemonic::Srav, format: InstructionFormat::R },
        ),
        0x02u8 => Some(
            Instruction { opc_func: 0x02, mnemonic: Mnemonic::Srl, format: InstructionFormat::R },
        ),
        0x06u8 => Some(
            Instruction { opc_func: 0x06, mnemonic: Mnemonic::Srlv, format: InstructionFormat::R },
        ),
        0x22u8 => Some(
            Instruction { opc_func: 0x22, mnemonic: Mnemonic::Sub, format: InstructionFormat::R },
        ),
        0x23u8 => Some(
            Instruction { opc_func: 0x23, mnemonic: Mnemonic::Subu, format: InstructionFormat::R },
        ),
        0x26u8 => Some(
            Instruction { opc_func: 0x26, mnemonic: Mnemonic::Xor, format: InstructionFormat::R },
        ),
        0x2Au8 => Some(
            Instruction { opc_func: 0x2A, mnemonic: Mnemonic::Slt, format: InstructionFormat::R },
        ),
        0x29u8 => Some(
            Instruction { opc_func: 0x29, mnemonic: Mnemonic::Sltu, format: InstructionFormat::R },
        ),
        0x09u8 => Some(
            Instruction { opc_func: 0x09, mnemonic: Mnemonic::Jalr, format: InstructionFormat::R },
        ),
        0x08u8 => Some(
            Instruction { opc_func: 0x08, mnemonic: Mnemonic::Jr, format: InstructionFormat::R },
        ),
        0x10u8 => Some(
            Instruction { opc_func: 0x10, mnemonic: Mnemonic::Mfhi, format: InstructionFormat::R },
        ),
        0x12u8 => Some(
            Instruction { opc_func: 0x12, mnemonic: Mnemonic::Mflo, format: InstructionFormat::R },
        ),
        0x11u8 => Some(
            Instruction { opc_func: 0x11, mnemonic: Mnemonic::Mthi, format: InstructionFormat::R },
        ),
        0x13u8 => Some(
            Instruction { opc_func: 0x13, mnemonic: Mnemonic::Mtlo, format: InstructionFormat::R },
        ),
        0x0Cu8 => Some(
            Instruction {
                opc_func: 0x0C,
                mnemonic: Mnemonic::Syscall,
                format: InstructionFormat::R,
            },
        ),
        _ => None,
    }
}

/// The I/J-format table: the supported instruction with the given opcode, if
/// any. The opcodes of `addiu` and `sltiu` collide in the instruction set as
/// implemented; the collision is resolved in favour of `addiu`, so no decoded
/// record ever carries `sltiu`.
pub open spec fn other_instruction(opcode: u8) -> Option<Instruction> {
    match opcode {
        0x08u8 => Some(
            Instruction { opc_func: 0x08, mnemonic: Mnemonic::Addi, format: InstructionFormat::I },
        ),
        0x09u8 => Some(
            Instruction {
                opc_func: 0x09,
                mnemonic: Mnemonic::Addiu,
                format: InstructionFormat::I,
            },
        ),
        0x0Cu8 => Some(
            Instruction { opc_func: 0x0C, mnemonic: Mnemonic::Andi, format: InstructionFormat::I },
        ),
        0x0Du8 => Some(
            Instruction { opc_func: 0x0D, mnemonic: Mnemonic::Ori, format: InstructionFormat::I },
        ),
        0x0Eu8 => Some(
            Instruction { opc_func: 0x0E, mnemonic: Mnemonic::Xori, format: InstructionFormat::I },
        ),
        0x0Au8 => Some(
            Instruction { opc_func: 0x0A, mnemonic: Mnemonic::Slti, format: InstructionFormat::I },
        ),
        0x04u8 => Some(
            Instruction { opc_func: 0x04, mnemonic: Mnemonic::Beq, format: InstructionFormat::I },
        ),
        0x07u8 => Some(
            Instruction { opc_func: 0x07, mnemonic: Mnemonic::Bgtz, format: InstructionFormat::I },
        ),
        0x06u8 => Some(
            Instruction { opc_func: 0x06, mnemonic: Mnemonic::Blez, format: InstructionFormat::I },
        ),
        0x05u8 => Some(
            Instruction { opc_func: 0x05, mnemonic: Mnemonic::Bne, format: InstructionFormat::I },
        ),
        0x02u8 => Some(
            Instruction { opc_func: 0x02, mnemonic: Mnemonic::J, format: InstructionFormat::J },
        ),
        0x03u8 => Some(
            Instruction { opc_func: 0x03, mnemonic: Mnemonic::Jal, format: InstructionFormat::J },
        ),
        0x20u8 => Some(
            Instruction { opc_func: 0x20, mnemonic: Mnemonic::Lb, format: InstructionFormat::I },
        ),
        0x24u8 => Some(
            Instruction { opc_func: 0x24, mnemonic: Mnemonic::Lbu, format: InstructionFormat::I },
        ),
        0x21u8 => Some(
            Instruction { opc_func: 0x21, mnemonic: Mnemonic::Lh, format: InstructionFormat::I },
        ),
        0x25u8 => Some(
            Instruction { opc_func: 0x25, mnemonic: Mnemonic::Lhu, format: InstructionFormat::I },
        ),
        0x23u8 => Some(
            Instruction { opc_func: 0x23, mnemonic: Mnemonic::Lw, format: InstructionFormat::I },
        ),
        0x28u8 => Some(
            Instruction { opc_func: 0x28, mnemonic: Mnemonic::Sb, format: InstructionFormat::I },
        ),
        0x29u8 => Some(
            Instruction { opc_func: 0x29, mnemonic: Mnemonic::Sh, format: InstructionFormat::I },
        ),
        0x2Bu8 => Some(
            Instruction { opc_func: 0x2B, mnemonic: Mnemonic::Sw, format: InstructionFormat::I },
        ),
        _ => None,
    }
}

impl InstructionData {
    /// A record is well-formed when its operand fields fit their bit widths
    /// and its opcode identity is exactly what the decoder's tables yield for
    /// its numeric value. The decoder only ever produces well-formed records.
    pub open spec fn wf(self) -> bool {
        match self.args {
            InstructionArgs::RFormat(a) => {
                &&& self.base.format == InstructionFormat::R
                &&& r_instruction(self.base.opc_func) == Some(self.base)
                &&& a.rs < 32
                &&& a.rt < 32
                &&& a.rd < 32
                &&& a.shamt < 32
                &&& a.funct == self.base.opc_func
            },
            InstructionArgs::IFormat(a) => {
                &&& self.base.format == InstructionFormat::I
                &&& other_instruction(self.base.opc_func) == Some(self.base)
                &&& a.rs < 32
                &&& a.rt < 32
            },
            InstructionArgs::JFormat(a) => {
                &&& self.base.format == InstructionFormat::J
                &&& other_instruction(self.base.opc_func) == Some(self.base)
                &&& a.address < 0x0400_0000
            },
        }
    }

    /// True for the halt sentinel: an all-zero-operand `sll`, which the
    /// executor reports without running so the embedder can stop stepping.
    pub fn is_null(&self) -> (r: bool)
        ensures
            r == self.spec_is_null(),
    {
        match self.args {
            InstructionArgs::RFormat(r_args) => {
                if self.base.opc_func == 0 {
                    r_args.rs == 0 && r_args.rt == 0 && r_args.rd == 0 && r_args.shamt == 0
                } else {
                    false
                }
            },
            _ => false,
        }
    }

    /// What `is_null` decides: an R-format record with function code 0 and
    /// all-zero `rs`, `rt`, `rd`, `shamt`.
    pub open spec fn spec_is_null(self) -> bool {
        match self.args {
            InstructionArgs::RFormat(a) => {
                &&& self.base.opc_func == 0
                &&& a.rs == 0
                &&& a.rt == 0
                &&& a.rd == 0
                &&& a.shamt == 0
            },
            _ => false,
        }
    }
}

/// Coerces R-format arguments from an instruction, which must be R-format.
pub fn coerece_r_format<'a>(instruction: &'a InstructionData) -> (r: &'a RFormat)
    requires
        instruction.args is RFormat,
    ensures
        instruction.args == InstructionArgs::RFormat(*r),
{
    match &instruction.args {
        InstructionArgs::RFormat(args) => args,
        _ => vstd::pervasive::unreached(),
    }
}

/// Coerces I-format arguments from an instruction, which must be I-format.
pub fn coerce_i_format<'a>(instruction: &'a InstructionData) -> (r: &'a IFormat)
    requires
        instruction.args is IFormat,
    ensures
        instruction.args == InstructionArgs::IFormat(*r),
{
    match &instruction.args {
        InstructionArgs::IFormat(args) => args,
        _ => vstd::pervasive::unreached(),
    }
}

/// Coerces J-format arguments from an instruction, which must be J-format.
pub fn coerce_j_format<'a>(instruction: &'a InstructionData) -> (r: &'a JFormat)
    requires
        instruction.args is JFormat,
    ensures
        instruction.args == InstructionArgs::JFormat(*r),
{
    match &instruction.args {
        InstructionArgs::JFormat(args) => args,
        _ => vstd::pervasive::unreached(),
    }
}

/// The canonical big-endian encoding of a record: for R-format the opcode
/// bits are zero and the fields sit at 21/16/11/6/0; for I-format the opcode
/// sits at 26 over `rs`/`rt`/`imm`; for J-format over the 26-bit address.
pub open spec fn spec_encode(inst: InstructionData) -> u32 {
    match inst.args {
        InstructionArgs::RFormat(a) => ((a.rs as u32) << 21u32) | ((a.rt as u32) << 16u32) | (
        (a.rd as u32) << 11u32) | ((a.shamt as u32) << 6u32) | (a.funct as u32),
        InstructionArgs::IFormat(a) => ((inst.base.opc_func as u32) << 26u32) | ((a.rs as u32)
            << 21u32) | ((a.rt as u32) << 16u32) | (a.imm as u32),
        InstructionArgs::JFormat(a) => ((inst.base.opc_func as u32) << 26u32) | a.address,
    }
}

/// Encode a record as its 32-bit machine word.
pub fn encode_instruction(inst: &InstructionData) -> (w: u32)
    ensures
        w == spec_encode(*inst),
{
    match &inst.args {
        InstructionArgs::RFormat(a) => ((a.rs as u32) << 21u32) | ((a.rt as u32) << 16u32) | (
        (a.rd as u32) << 11u32) | ((a.shamt as u32) << 6u32) | (a.funct as u32),
        InstructionArgs::IFormat(a) => ((inst.base.opc_func as u32) << 26u32) | ((a.rs as u32)
            << 21u32) | ((a.rt as u32) << 16u32) | (a.imm as u32),
        InstructionArgs::JFormat(a) => ((inst.base.opc_func as u32) << 26u32) | a.address,
    }
}

} // verus!
