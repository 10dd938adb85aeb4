//! The scheduler and the executor: a decoded instruction is lowered to a
//! format-independent operation descriptor over `Target` operands, and the
//! executor interprets the descriptor against registers, memory, PC, HI and
//! LO -- returning success, a recoverable trap, or a fatal runtime error.

use vstd::prelude::*;

use crate::errors::{FatalErrorType, RuntimeError, Trap};
use crate::instruction::{coerce_i_format, coerce_j_format, coerece_r_format, IFormat, InstructionArgs, InstructionData, JFormat, Mnemonic, RFormat};
use crate::vm::VM;
use vstd::arithmetic::mul::{lemma_mul_nonnegative, lemma_mul_upper_bound};

verus! {

/// Which way a shift moves bits.
#[derive(Clone, Copy, Debug, PartialEq, Eq, Structural)]
pub enum ShiftDirection {
    Left,
    Right,
}

/// Whether a right shift fills with zeros or with the sign bit.
#[derive(Clone, Copy, Debug, PartialEq, Eq, Structural)]
pub enum ShiftType {
    Logical,
    Arithmetic,
}

/// How a 16-bit immediate is promoted to 32 bits.
#[derive(Clone, Copy, Debug, PartialEq, Eq, Structural)]
pub enum HalfWordExtension {
    Sign,
    Zero,
}

/// An operand of an operation descriptor: a register, a memory word, or an
/// immediate with its promotion rule.
#[derive(Clone, Copy, Debug, PartialEq, Eq, Structural)]
pub enum Target {
    Register(u8),
    Memory(u32),
    Immediate(u16, HalfWordExtension),
}

/// The condition of a conditional branch.
#[derive(Clone, Copy, Debug, PartialEq, Eq, Structural)]
pub enum BranchCondition {
    Eq,
    Ne,
    GreaterThanZero,
    LessOrEqualZero,
}

/// A format-independent operation descriptor: what the executor interprets.
#[derive(Clone, Copy, Debug, PartialEq, Eq, Structural)]
pub enum ExecutionTask {
    Add { dest: Target, a: Target, b: Target, overflow_trap: bool },
    Sub { dest: Target, a: Target, b: Target, overflow_trap: bool },
    And { dest: Target, a: Target, b: Target },
    Or { dest: Target, a: Target, b: Target },
    Xor { dest: Target, a: Target, b: Target },
    Nor { dest: Target, a: Target, b: Target },
    Div { a: Target, b: Target, signed: bool },
    Mult { a: Target, b: Target, signed: bool },
    Shift { dest: Target, a: Target, b: Target, direction: ShiftDirection, shift_type: ShiftType },
    SetLessThan { dest: Target, a: Target, b: Target, signed: bool },
    Load { dest: Target, src_addr: Target, offset: Target, signed: bool, size: u8 },
    Store { dest_addr: Target, src: Target, offset: Target, size: u8 },
    Branch { cond: BranchCondition, a: Target, b: Target, offset: u32 },
    Jump { target: u32, link: Option<u8> },
    MoveFromHi { dest: Target },
    MoveFromLo { dest: Target },
    MoveToHi { src: Target },
    MoveToLo { src: Target },
    Syscall,
}

/// An integer reduced to the 32-bit range.
pub open spec fn wrap32(v: int) -> u32 {
    (v % 0x1_0000_0000) as u32
}

/// An integer reduced to the 64-bit range.
pub open spec fn wrap64(v: int) -> u64 {
    (v % 0x1_0000_0000_0000_0000) as u64
}

/// The value of a halfword read as a two's-complement 16-bit integer.
pub open spec fn signed16(v: u16) -> int {
    if v < 0x8000 {
        v as int
    } else {
        v - 0x1_0000
    }
}

/// The value of a byte read as a two's-complement 8-bit integer.
pub open spec fn signed8(v: u8) -> int {
    if v < 0x80 {
        v as int
    } else {
        v - 0x100
    }
}

/// The value of a word read as a two's-complement 32-bit integer.
pub open spec fn as_signed(v: u32) -> int {
    if v < 0x8000_0000 {
        v as int
    } else {
        v - 0x1_0000_0000
    }
}

/// A halfword promoted to 32 bits by sign extension.
pub open spec fn sign_extend16(v: u16) -> u32 {
    wrap32(signed16(v))
}

/// A byte promoted to 32 bits by sign extension.
pub open spec fn sign_extend8(v: u8) -> u32 {
    wrap32(signed8(v))
}

/// Whether the 32-bit two's-complement sum of `a` and `b` is unrepresentable.
pub open spec fn signed_add_overflows(a: u32, b: u32) -> bool {
    !(-0x8000_0000 <= as_signed(a) + as_signed(b) <= 0x7FFF_FFFF)
}

/// Whether the 32-bit two's-complement difference of `a` and `b` is
/// unrepresentable.
pub open spec fn signed_sub_overflows(a: u32, b: u32) -> bool {
    !(-0x8000_0000 <= as_signed(a) - as_signed(b) <= 0x7FFF_FFFF)
}

/// The absolute value.
pub open spec fn int_abs(a: int) -> int {
    if a >= 0 {
        a
    } else {
        -a
    }
}

/// Division truncating toward zero, as MIPS `div` performs it.
pub open spec fn trunc_div(a: int, b: int) -> int {
    if (a >= 0) == (b >= 0) {
        int_abs(a) / int_abs(b)
    } else {
        -(int_abs(a) / int_abs(b))
    }
}

/// The remainder matching `trunc_div`: it carries the dividend's sign.
pub open spec fn trunc_rem(a: int, b: int) -> int {
    a - b * trunc_div(a, b)
}

/// The absolute jump target: the upper four bits of the post-fetch PC over
/// the 26-bit address field shifted into word alignment.
pub open spec fn spec_jump_target(pc: usize, address: u32) -> u32 {
    ((pc as u32) & 0xF000_0000) | (address << 2u32)
}

/// The R-format fields of a record; meaningful only for R-format records.
pub open spec fn r_of(inst: InstructionData) -> RFormat {
    inst.args->RFormat_0
}

/// The I-format fields of a record; meaningful only for I-format records.
pub open spec fn i_of(inst: InstructionData) -> IFormat {
    inst.args->IFormat_0
}

/// The J-format fields of a record; meaningful only for J-format records.
pub open spec fn j_of(inst: InstructionData) -> JFormat {
    inst.args->JFormat_0
}

/// The register file after a write: a write to register 0 is dropped, any
/// other write replaces the register's value.
pub open spec fn write_reg(regs: Seq<u32>, d: u8, v: u32) -> Seq<u32> {
    if d == 0 {
        regs
    } else {
        regs.update(d as int, v)
    }
}

/// The machines hold the same bytes in the same segments.
pub open spec fn same_mem(a: VM, b: VM) -> bool {
    a.mem().segs() == b.mem().segs()
}

/// The machines agree on every observation: registers, memory, PC, HI, LO.
pub open spec fn state_eq(a: VM, b: VM) -> bool {
    &&& a.regs() == b.regs()
    &&& same_mem(a, b)
    &&& a.spec_pc() == b.spec_pc()
    &&& a.spec_hi() == b.spec_hi()
    &&& a.spec_lo() == b.spec_lo()
}

/// The value an operand resolves to: a register read, a memory word load,
/// or the promoted immediate.
pub open spec fn tval(vm: VM, t: Target) -> u32 {
    match t {
        Target::Register(r) => vm.regs()[r as int],
        Target::Memory(a) => vm.mem().word_at(a as int),
        Target::Immediate(v, HalfWordExtension::Sign) => sign_extend16(v),
        Target::Immediate(v, HalfWordExtension::Zero) => v as u32,
    }
}

/// Whether an operand resolves: registers must be in range, a memory word
/// must be aligned and covered by one segment.
pub open spec fn tval_ok(vm: VM, t: Target) -> bool {
    match t {
        Target::Register(r) => r < 32,
        Target::Memory(a) => a % 4 == 0 && vm.mem().spans(a as int, 4),
        Target::Immediate(_, _) => true,
    }
}

/// Whether a destination accepts a write: a register in range, or an
/// aligned, writable memory word. An immediate is never a destination.
pub open spec fn dest_ok(vm: VM, dest: Target) -> bool {
    match dest {
        Target::Register(d) => d < 32,
        Target::Memory(a) => a % 4 == 0 && vm.mem().writable_span(a as int, 4),
        Target::Immediate(_, _) => false,
    }
}

/// The state change of a destination write: the value lands in the register
/// (dropped for register 0) or the memory word, and nothing else moves.
pub open spec fn writes_dest(pre: VM, post: VM, dest: Target, v: u32) -> bool {
    match dest {
        Target::Register(d) => {
            &&& post.regs() == write_reg(pre.regs(), d, v)
            &&& same_mem(post, pre)
            &&& post.spec_pc() == pre.spec_pc()
            &&& post.spec_hi() == pre.spec_hi()
            &&& post.spec_lo() == pre.spec_lo()
        },
        Target::Memory(a) => {
            &&& post.regs() == pre.regs()
            &&& post.spec_pc() == pre.spec_pc()
            &&& post.spec_hi() == pre.spec_hi()
            &&& post.spec_lo() == pre.spec_lo()
            &&& post.mem().same_layout(pre.mem())
            &&& post.mem().word_at(a as int) == v
            &&& forall|x: int| !(a <= x <= a + 3) ==> post.mem().byte_at(x) == pre.mem().byte_at(x)
        },
        Target::Immediate(_, _) => false,
    }
}

/// The operation descriptor an instruction lowers to. Jump targets that
/// depend on the machine -- the post-fetch PC for `j`/`jal`, a register for
/// `jr`/`jalr` -- are resolved at lowering time.
pub open spec fn task_of(vm: VM, inst: InstructionData) -> ExecutionTask {
    let r = r_of(inst);
    let i = i_of(inst);
    let j = j_of(inst);
    match inst.base.mnemonic {
        Mnemonic::Add => ExecutionTask::Add {
            dest: Target::Register(r.rd),
            a: Target::Register(r.rs),
            b: Target::Register(r.rt),
            overflow_trap: true,
        },
        Mnemonic::Addu => ExecutionTask::Add {
            dest: Target::Register(r.rd),
            a: Target::Register(r.rs),
            b: Target::Register(r.rt),
            overflow_trap: false,
        },
        Mnemonic::Addi => ExecutionTask::Add {
            dest: Target::Register(i.rt),
            a: Target::Register(i.rs),
            b: Target::Immediate(i.imm, HalfWordExtension::Sign),
            overflow_trap: true,
        },
        Mnemonic::Addiu => ExecutionTask::Add {
            dest: Target::Register(i.rt),
            a: Target::Register(i.rs),
            b: Target::Immediate(i.imm, HalfWordExtension::Sign),
            overflow_trap: false,
        },
        Mnemonic::Sub => ExecutionTask::Sub {
            dest: Target::Register(r.rd),
            a: Target::Register(r.rs),
            b: Target::Register(r.rt),
            overflow_trap: true,
        },
        Mnemonic::Subu => ExecutionTask::Sub {
            dest: Target::Register(r.rd),
            a: Target::Register(r.rs),
            b: Target::Register(r.rt),
            overflow_trap: false,
        },
        Mnemonic::And => ExecutionTask::And {
            dest: Target::Register(r.rd),
            a: Target::Register(r.rs),
            b: Target::Register(r.rt),
        },
        Mnemonic::Andi => ExecutionTask::And {
            dest: Target::Register(i.rt),
            a: Target::Register(i.rs),
            b: Target::Immediate(i.imm, HalfWordExtension::Zero),
        },
        Mnemonic::Or => ExecutionTask::Or {
            dest: Target::Register(r.rd),
            a: Target::Register(r.rs),
            b: Target::Register(r.rt),
        },
        Mnemonic::Ori => ExecutionTask::Or {
            dest: Target::Register(i.rt),
            a: Target::Register(i.rs),
            b: Target::Immediate(i.imm, HalfWordExtension::Zero),
        },
        Mnemonic::Xor => ExecutionTask::Xor {
            dest: Target::Register(r.rd),
            a: Target::Register(r.rs),
            b: Target::Register(r.rt),
        },
        Mnemonic::Xori => ExecutionTask::Xor {
            dest: Target::Register(i.rt),
            a: Target::Register(i.rs),
            b: Target::Immediate(i.imm, HalfWordExtension::Zero),
        },
        Mnemonic::Nor => ExecutionTask::Nor {
            dest: Target::Register(r.rd),
            a: Target::Register(r.rs),
            b: Target::Register(r.rt),
        },
        Mnemonic::Sll => ExecutionTask::Shift {
            dest: Target::Register(r.rd),
            a: Target::Register(r.rt),
            b: Target::Immediate(r.shamt as u16, HalfWordExtension::Zero),
            direction: ShiftDirection::Left,
            shift_type: ShiftType::Logical,
        },
        Mnemonic::Sllv => ExecutionTask::Shift {
            dest: Target::Register(r.rd),
            a: Target::Register(r.rt),
            b: Target::Register(r.rs),
            direction: ShiftDirection::Left,
            shift_type: ShiftType::Logical,
        },
        Mnemonic::Sra => ExecutionTask::Shift {
            dest: Target::Register(r.rd),
            a: Target::Register(r.rt),
            b: Target::Immediate(r.shamt as u16, HalfWordExtension::Zero),
            direction: ShiftDirection::Right,
            shift_type: ShiftType::Arithmetic,
        },
        Mnemonic::Srav => ExecutionTask::Shift {
            dest: Target::Register(r.rd),
            a: Target::Register(r.rt),
            b: Target::Register(r.rs),
            direction: ShiftDirection::Right,
            shift_type: ShiftType::Arithmetic,
        },
        Mnemonic::Srl => ExecutionTask::Shift {
            dest: Target::Register(r.rd),
            a: Target::Register(r.rt),
            b: Target::Immediate(r.shamt as u16, HalfWordExtension::Zero),
            direction: ShiftDirection::Right,
            shift_type: ShiftType::Logical,
        },
        Mnemonic::Srlv => ExecutionTask::Shift {
            dest: Target::Register(r.rd),
            a: Target::Register(r.rt),
            b: Target::Register(r.rs),
            direction: ShiftDirection::Right,
            shift_type: ShiftType::Logical,
        },
        Mnemonic::Mult => ExecutionTask::Mult {
            a: Target::Register(r.rs),
            b: Target::Register(r.rt),
            signed: true,
        },
        Mnemonic::Multu => ExecutionTask::Mult {
            a: Target::Register(r.rs),
            b: Target::Register(r.rt),
            signed: false,
        },
        Mnemonic::Div => ExecutionTask::Div {
            a: Target::Register(r.rs),
            b: Target::Register(r.rt),
            signed: true,
        },
        Mnemonic::Divu => ExecutionTask::Div {
            a: Target::Register(r.rs),
            b: Target::Register(r.rt),
            signed: false,
        },
        Mnemonic::Slt => ExecutionTask::SetLessThan {
            dest: Target::Register(r.rd),
            a: Target::Register(r.rs),
            b: Target::Register(r.rt),
            signed: true,
        },
        Mnemonic::Sltu => ExecutionTask::SetLessThan {
            dest: Target::Register(r.rd),
            a: Target::Register(r.rs),
            b: Target::Register(r.rt),
            signed: false,
        },
        Mnemonic::Slti => ExecutionTask::SetLessThan {
            dest: Target::Register(i.rt),
            a: Target::Register(i.rs),
            b: Target::Immediate(i.imm, HalfWordExtension::Sign),
            signed: true,
        },
        Mnemonic::Sltiu => ExecutionTask::SetLessThan {
            dest: Target::Register(i.rt),
            a: Target::Register(i.rs),
            b: Target::Immediate(i.imm, HalfWordExtension::Sign),
            signed: false,
        },
        Mnemonic::Beq => ExecutionTask::Branch {
            cond: BranchCondition::Eq,
            a: Target::Register(i.rs),
            b: Target::Register(i.rt),
            offset: sign_extend16(i.imm) << 2u32,
        },
        Mnemonic::Bne => ExecutionTask::Branch {
            cond: BranchCondition::Ne,
            a: Target::Register(i.rs),
            b: Target::Register(i.rt),
            offset: sign_extend16(i.imm) << 2u32,
        },
        Mnemonic::Bgtz => ExecutionTask::Branch {
            cond: BranchCondition::GreaterThanZero,
            a: Target::Register(i.rs),
            b: Target::Register(0),
            offset: sign_extend16(i.imm) << 2u32,
        },
        Mnemonic::Blez => ExecutionTask::Branch {
            cond: BranchCondition::LessOrEqualZero,
            a: Target::Register(i.rs),
            b: Target::Register(0),
            offset: sign_extend16(i.imm) << 2u32,
        },
        Mnemonic::J => ExecutionTask::Jump {
            target: spec_jump_target(vm.spec_pc(), j.address),
            link: None,
        },
        Mnemonic::Jal => ExecutionTask::Jump {
            target: spec_jump_target(vm.spec_pc(), j.address),
            link: Some(31),
        },
        Mnemonic::Jr => ExecutionTask::Jump { target: vm.regs()[r.rs as int], link: None },
        Mnemonic::Jalr => ExecutionTask::Jump {
            target: vm.regs()[r.rs as int],
            link: Some(
                if r.rd == 0 {
                    31
                } else {
                    r.rd
                },
            ),
        },
        Mnemonic::Lb => ExecutionTask::Load {
            dest: Target::Register(i.rt),
            src_addr: Target::Register(i.rs),
            offset: Target::Immediate(i.imm, HalfWordExtension::Sign),
            signed: true,
            size: 1,
        },
        Mnemonic::Lbu => ExecutionTask::Load {
            dest: Target::Register(i.rt),
            src_addr: Target::Register(i.rs),
            offset: Target::Immediate(i.imm, HalfWordExtension::Sign),
            signed: false,
            size: 1,
        },
        Mnemonic::Lh => ExecutionTask::Load {
            dest: Target::Register(i.rt),
            src_addr: Target::Register(i.rs),
            offset: Target::Immediate(i.imm, HalfWordExtension::Sign),
            signed: true,
            size: 2,
        },
        Mnemonic::Lhu => ExecutionTask::Load {
            dest: Target::Register(i.rt),
            src_addr: Target::Register(i.rs),
            offset: Target::Immediate(i.imm, HalfWordExtension::Sign),
            signed: false,
            size: 2,
        },
        Mnemonic::Lw => ExecutionTask::Load {
            dest: Target::Register(i.rt),
            src_addr: Target::Register(i.rs),
            offset: Target::Immediate(i.imm, HalfWordExtension::Sign),
            signed: false,
            size: 4,
        },
        Mnemonic::Sb => ExecutionTask::Store {
            dest_addr: Target::Register(i.rs),
            src: Target::Register(i.rt),
            offset: Target::Immediate(i.imm, HalfWordExtension::Sign),
            size: 1,
        },
        Mnemonic::Sh => ExecutionTask::Store {
            dest_addr: Target::Register(i.rs),
            src: Target::Register(i.rt),
            offset: Target::Immediate(i.imm, HalfWordExtension::Sign),
            size: 2,
        },
        Mnemonic::Sw => ExecutionTask::Store {
            dest_addr: Target::Register(i.rs),
            src: Target::Register(i.rt),
            offset: Target::Immediate(i.imm, HalfWordExtension::Sign),
            size: 4,
        },
        Mnemonic::Mfhi => ExecutionTask::MoveFromHi { dest: Target::Register(r.rd) },
        Mnemonic::Mflo => ExecutionTask::MoveFromLo { dest: Target::Register(r.rd) },
        Mnemonic::Mthi => ExecutionTask::MoveToHi { src: Target::Register(r.rd) },
        Mnemonic::Mtlo => ExecutionTask::MoveToLo { src: Target::Register(r.rd) },
        Mnemonic::Syscall => ExecutionTask::Syscall,
    }
}


/// The truth of a branch condition on the resolved operands.
pub open spec fn cond_holds(cond: BranchCondition, av: u32, bv: u32) -> bool {
    match cond {
        BranchCondition::Eq => av == bv,
        BranchCondition::Ne => av != bv,
        BranchCondition::GreaterThanZero => as_signed(av) > 0,
        BranchCondition::LessOrEqualZero => as_signed(av) <= 0,
    }
}

/// Whether a descriptor executes without a fatal error: its operands
/// resolve, its destination accepts the write (unless an overflow trap
/// forestalls the write), and a memory access is aligned, within one
/// segment, and -- for a store -- writable.
pub open spec fn task_ok(vm: VM, task: ExecutionTask) -> bool {
    match task {
        ExecutionTask::Add { dest, a, b, overflow_trap } => tval_ok(vm, a) && tval_ok(vm, b) && {
            if overflow_trap && signed_add_overflows(tval(vm, a), tval(vm, b)) {
                true
            } else {
                dest_ok(vm, dest)
            }
        },
        ExecutionTask::Sub { dest, a, b, overflow_trap } => tval_ok(vm, a) && tval_ok(vm, b) && {
            if overflow_trap && signed_sub_overflows(tval(vm, a), tval(vm, b)) {
                true
            } else {
                dest_ok(vm, dest)
            }
        },
        ExecutionTask::And { dest, a, b } => tval_ok(vm, a) && tval_ok(vm, b) && dest_ok(vm, dest),
        ExecutionTask::Or { dest, a, b } => tval_ok(vm, a) && tval_ok(vm, b) && dest_ok(vm, dest),
        ExecutionTask::Xor { dest, a, b } => tval_ok(vm, a) && tval_ok(vm, b) && dest_ok(vm, dest),
        ExecutionTask::Nor { dest, a, b } => tval_ok(vm, a) && tval_ok(vm, b) && dest_ok(vm, dest),
        ExecutionTask::Div { a, b, signed } => tval_ok(vm, a) && tval_ok(vm, b),
        ExecutionTask::Mult { a, b, signed } => tval_ok(vm, a) && tval_ok(vm, b),
        ExecutionTask::Shift { dest, a, b, direction, shift_type } => tval_ok(vm, a) && tval_ok(
            vm,
            b,
        ) && dest_ok(vm, dest),
        ExecutionTask::SetLessThan { dest, a, b, signed } => tval_ok(vm, a) && tval_ok(vm, b)
            && dest_ok(vm, dest),
        ExecutionTask::Load { dest, src_addr, offset, signed, size } => tval_ok(vm, src_addr)
            && tval_ok(vm, offset) && dest_ok(vm, dest) && {
            let eff = wrap32(tval(vm, src_addr) + tval(vm, offset));
            if size == 1 {
                vm.mem().has_addr(eff as int)
            } else if size == 2 {
                eff % 2 == 0 && vm.mem().spans(eff as int, 2)
            } else if size == 4 {
                eff % 4 == 0 && vm.mem().spans(eff as int, 4)
            } else {
                false
            }
        },
        ExecutionTask::Store { dest_addr, src, offset, size } => tval_ok(vm, dest_addr) && tval_ok(
            vm,
            src,
        ) && tval_ok(vm, offset) && {
            let eff = wrap32(tval(vm, dest_addr) + tval(vm, offset));
            if size == 1 {
                vm.mem().writable_span(eff as int, 1)
            } else if size == 2 {
                eff % 2 == 0 && vm.mem().writable_span(eff as int, 2)
            } else if size == 4 {
                eff % 4 == 0 && vm.mem().writable_span(eff as int, 4)
            } else {
                false
            }
        },
        ExecutionTask::Branch { cond, a, b, offset } => tval_ok(vm, a) && tval_ok(vm, b),
        ExecutionTask::Jump { target, link } => match link {
            Some(d) => d < 32,
            None => true,
        },
        ExecutionTask::MoveFromHi { dest } => dest_ok(vm, dest),
        ExecutionTask::MoveFromLo { dest } => dest_ok(vm, dest),
        ExecutionTask::MoveToHi { src } => tval_ok(vm, src),
        ExecutionTask::MoveToLo { src } => tval_ok(vm, src),
        ExecutionTask::Syscall => true,
    }
}

/// The state change of a successfully executed descriptor, and whether it
/// raised a trap. This is the executor's semantics, one case per
/// descriptor.
pub open spec fn task_step(pre: VM, post: VM, task: ExecutionTask, trapped: bool) -> bool {
    match task {
        ExecutionTask::Add { dest, a, b, overflow_trap } => {
            let av = tval(pre, a);
            let bv = tval(pre, b);
            if overflow_trap && signed_add_overflows(av, bv) {
                trapped && state_eq(post, pre)
            } else {
                !trapped && writes_dest(pre, post, dest, wrap32(av + bv))
            }
        },
        ExecutionTask::Sub { dest, a, b, overflow_trap } => {
            let av = tval(pre, a);
            let bv = tval(pre, b);
            if overflow_trap && signed_sub_overflows(av, bv) {
                trapped && state_eq(post, pre)
            } else {
                !trapped && writes_dest(pre, post, dest, wrap32(av - bv))
            }
        },
        ExecutionTask::And { dest, a, b } => !trapped && writes_dest(
            pre,
            post,
            dest,
            tval(pre, a) & tval(pre, b),
        ),
        ExecutionTask::Or { dest, a, b } => !trapped && writes_dest(
            pre,
            post,
            dest,
            tval(pre, a) | tval(pre, b),
        ),
        ExecutionTask::Xor { dest, a, b } => !trapped && writes_dest(
            pre,
            post,
            dest,
            tval(pre, a) ^ tval(pre, b),
        ),
        ExecutionTask::Nor { dest, a, b } => !trapped && writes_dest(
            pre,
            post,
            dest,
            !(tval(pre, a) | tval(pre, b)),
        ),
        ExecutionTask::Div { a, b, signed } => {
            let av = tval(pre, a);
            let bv = tval(pre, b);
            if bv == 0 {
                !trapped && state_eq(post, pre)
            } else {
                let q = if signed {
                    trunc_div(as_signed(av), as_signed(bv))
                } else {
                    av as int / bv as int
                };
                let rem = if signed {
                    trunc_rem(as_signed(av), as_signed(bv))
                } else {
                    av as int % bv as int
                };
                &&& !trapped
                &&& post.regs() == pre.regs()
                &&& same_mem(post, pre)
                &&& post.spec_pc() == pre.spec_pc()
                &&& post.spec_lo() == wrap32(q)
                &&& post.spec_hi() == wrap32(rem)
            }
        },
        ExecutionTask::Mult { a, b, signed } => {
            let av = tval(pre, a);
            let bv = tval(pre, b);
            let p = if signed {
                as_signed(av) * as_signed(bv)
            } else {
                av as int * bv as int
            };
            let pm = if p >= 0 {
                p
            } else {
                p + 0x1_0000_0000_0000_0000
            };
            &&& !trapped
            &&& post.regs() == pre.regs()
            &&& same_mem(post, pre)
            &&& post.spec_pc() == pre.spec_pc()
            &&& (post.spec_hi() as int) * 0x1_0000_0000 + post.spec_lo() == pm
        },
        ExecutionTask::Shift { dest, a, b, direction, shift_type } => {
            let av = tval(pre, a);
            let s = (tval(pre, b) % 32) as u32;
            let v = match (direction, shift_type) {
                (ShiftDirection::Left, _) => av << s,
                (ShiftDirection::Right, ShiftType::Logical) => av >> s,
                (ShiftDirection::Right, ShiftType::Arithmetic) => ((av as i32) >> s) as u32,
            };
            !trapped && writes_dest(pre, post, dest, v)
        },
        ExecutionTask::SetLessThan { dest, a, b, signed } => {
            let av = tval(pre, a);
            let bv = tval(pre, b);
            let less = if signed {
                as_signed(av) < as_signed(bv)
            } else {
                av < bv
            };
            !trapped && writes_dest(
                pre,
                post,
                dest,
                if less {
                    1
                } else {
                    0
                },
            )
        },
        ExecutionTask::Load { dest, src_addr, offset, signed, size } => {
            let eff = wrap32(tval(pre, src_addr) + tval(pre, offset));
            let v = if size == 1 {
                let byte = pre.mem().byte_at(eff as int);
                if signed {
                    sign_extend8(byte)
                } else {
                    byte as u32
                }
            } else if size == 2 {
                let half = pre.mem().halfword_at(eff as int);
                if signed {
                    sign_extend16(half)
                } else {
                    half as u32
                }
            } else {
                pre.mem().word_at(eff as int)
            };
            !trapped && writes_dest(pre, post, dest, v)
        },
        ExecutionTask::Store { dest_addr, src, offset, size } => {
            let eff = wrap32(tval(pre, dest_addr) + tval(pre, offset));
            let sv = tval(pre, src);
            &&& !trapped
            &&& post.regs() == pre.regs()
            &&& post.spec_pc() == pre.spec_pc()
            &&& post.spec_hi() == pre.spec_hi()
            &&& post.spec_lo() == pre.spec_lo()
            &&& post.mem().same_layout(pre.mem())
            &&& if size == 1 {
                &&& post.mem().byte_at(eff as int) == sv % 0x100
                &&& forall|x: int| x != eff ==> post.mem().byte_at(x) == pre.mem().byte_at(x)
            } else if size == 2 {
                &&& post.mem().halfword_at(eff as int) == sv % 0x1_0000
                &&& forall|x: int|
                    !(eff <= x <= eff + 1) ==> post.mem().byte_at(x) == pre.mem().byte_at(x)
            } else {
                &&& post.mem().word_at(eff as int) == sv
                &&& forall|x: int|
                    !(eff <= x <= eff + 3) ==> post.mem().byte_at(x) == pre.mem().byte_at(x)
            }
        },
        ExecutionTask::Branch { cond, a, b, offset } => {
            let taken = cond_holds(cond, tval(pre, a), tval(pre, b));
            &&& !trapped
            &&& post.regs() == pre.regs()
            &&& same_mem(post, pre)
            &&& post.spec_hi() == pre.spec_hi()
            &&& post.spec_lo() == pre.spec_lo()
            &&& post.spec_pc() == if taken {
                wrap32(pre.spec_pc() + offset) as usize
            } else {
                pre.spec_pc()
            }
        },
        ExecutionTask::Jump { target, link } => {
            let written = match link {
                Some(d) => write_reg(pre.regs(), d, pre.spec_pc() as u32),
                None => pre.regs(),
            };
            &&& !trapped
            &&& post.regs() == written
            &&& same_mem(post, pre)
            &&& post.spec_hi() == pre.spec_hi()
            &&& post.spec_lo() == pre.spec_lo()
            &&& post.spec_pc() == target
        },
        ExecutionTask::MoveFromHi { dest } => !trapped && writes_dest(
            pre,
            post,
            dest,
            pre.spec_hi(),
        ),
        ExecutionTask::MoveFromLo { dest } => !trapped && writes_dest(
            pre,
            post,
            dest,
            pre.spec_lo(),
        ),
        ExecutionTask::MoveToHi { src } => {
            &&& !trapped
            &&& post.regs() == pre.regs()
            &&& same_mem(post, pre)
            &&& post.spec_pc() == pre.spec_pc()
            &&& post.spec_hi() == tval(pre, src)
            &&& post.spec_lo() == pre.spec_lo()
        },
        ExecutionTask::MoveToLo { src } => {
            &&& !trapped
            &&& post.regs() == pre.regs()
            &&& same_mem(post, pre)
            &&& post.spec_pc() == pre.spec_pc()
            &&& post.spec_hi() == pre.spec_hi()
            &&& post.spec_lo() == tval(pre, src)
        },
        ExecutionTask::Syscall => trapped && state_eq(post, pre),
    }
}

/// A descriptor as the lowering produces it: register operands in range,
/// sizes among 1, 2 and 4, link registers in range. For such a descriptor
/// the only possible fatal error is a memory access error.
pub open spec fn task_wf(task: ExecutionTask) -> bool {
    let reg_ok = |t: Target| t matches Target::Register(x) ==> x < 32;
    match task {
        ExecutionTask::Add { dest, a, b, overflow_trap } => reg_ok(dest) && reg_ok(a) && reg_ok(b)
            && dest is Register,
        ExecutionTask::Sub { dest, a, b, overflow_trap } => reg_ok(dest) && reg_ok(a) && reg_ok(b)
            && dest is Register,
        ExecutionTask::And { dest, a, b } => reg_ok(dest) && reg_ok(a) && reg_ok(b)
            && dest is Register,
        ExecutionTask::Or { dest, a, b } => reg_ok(dest) && reg_ok(a) && reg_ok(b)
            && dest is Register,
        ExecutionTask::Xor { dest, a, b } => reg_ok(dest) && reg_ok(a) && reg_ok(b)
            && dest is Register,
        ExecutionTask::Nor { dest, a, b } => reg_ok(dest) && reg_ok(a) && reg_ok(b)
            && dest is Register,
        ExecutionTask::Div { a, b, signed } => reg_ok(a) && reg_ok(b) && !(a is Memory) && !(
        b is Memory),
        ExecutionTask::Mult { a, b, signed } => reg_ok(a) && reg_ok(b) && !(a is Memory) && !(
        b is Memory),
        ExecutionTask::Shift { dest, a, b, direction, shift_type } => reg_ok(dest) && reg_ok(a)
            && reg_ok(b) && dest is Register && !(a is Memory) && !(b is Memory),
        ExecutionTask::SetLessThan { dest, a, b, signed } => reg_ok(dest) && reg_ok(a) && reg_ok(b)
            && dest is Register && !(a is Memory) && !(b is Memory),
        ExecutionTask::Load { dest, src_addr, offset, signed, size } => reg_ok(dest) && reg_ok(
            src_addr,
        ) && reg_ok(offset) && dest is Register && !(src_addr is Memory) && !(offset is Memory) && (
        size == 1 || size == 2 || size == 4),
        ExecutionTask::Store { dest_addr, src, offset, size } => reg_ok(dest_addr) && reg_ok(src)
            && reg_ok(offset) && !(dest_addr is Memory) && !(src is Memory) && !(offset is Memory)
            && (size == 1 || size == 2 || size == 4),
        ExecutionTask::Branch { cond, a, b, offset } => reg_ok(a) && reg_ok(b) && !(a is Memory)
            && !(b is Memory),
        ExecutionTask::Jump { target, link } => link matches Some(d) ==> d < 32,
        ExecutionTask::MoveFromHi { dest } => reg_ok(dest) && dest is Register,
        ExecutionTask::MoveFromLo { dest } => reg_ok(dest) && dest is Register,
        ExecutionTask::MoveToHi { src } => reg_ok(src) && !(src is Memory),
        ExecutionTask::MoveToLo { src } => reg_ok(src) && !(src is Memory),
        ExecutionTask::Syscall => true,
    }
}


/// Reduction of an in-range integer is the identity.
proof fn lemma_wrap32_small(v: int)
    requires
        0 <= v < 0x1_0000_0000,
    ensures
        wrap32(v) == v,
{
    vstd::arithmetic::div_mod::lemma_small_mod(v as nat, 0x1_0000_0000nat);
}

/// Reduction of a negative integer no further than one range below zero
/// adds one range.
proof fn lemma_wrap32_neg(v: int)
    requires
        -0x1_0000_0000 <= v < 0,
    ensures
        wrap32(v) == v + 0x1_0000_0000,
{
    vstd::arithmetic::div_mod::lemma_mod_add_multiples_vanish(v, 0x1_0000_0000);
    vstd::arithmetic::div_mod::lemma_small_mod((v + 0x1_0000_0000) as nat, 0x1_0000_0000nat);
}

/// As `lemma_wrap32_small`, for the 64-bit range.
proof fn lemma_wrap64_small(v: int)
    requires
        0 <= v < 0x1_0000_0000_0000_0000,
    ensures
        wrap64(v) == v,
{
    vstd::arithmetic::div_mod::lemma_small_mod(v as nat, 0x1_0000_0000_0000_0000nat);
}

/// As `lemma_wrap32_neg`, for the 64-bit range.
proof fn lemma_wrap64_neg(v: int)
    requires
        -0x1_0000_0000_0000_0000 <= v < 0,
    ensures
        wrap64(v) == v + 0x1_0000_0000_0000_0000,
{
    vstd::arithmetic::div_mod::lemma_mod_add_multiples_vanish(v, 0x1_0000_0000_0000_0000);
    vstd::arithmetic::div_mod::lemma_small_mod(
        (v + 0x1_0000_0000_0000_0000) as nat,
        0x1_0000_0000_0000_0000nat,
    );
}

/// Sign-extend a halfword to 32 bits.
fn ext_sign16(v: u16) -> (r: u32)
    ensures
        r == sign_extend16(v),
{
    if v < 0x8000 {
        proof {
            lemma_wrap32_small(v as int);
        }
        v as u32
    } else {
        proof {
            lemma_wrap32_neg(v - 0x1_0000);
        }
        (v as u32) + 0xFFFF_0000
    }
}

/// Sign-extend a byte to 32 bits.
fn ext_sign8(v: u8) -> (r: u32)
    ensures
        r == sign_extend8(v),
{
    if v < 0x80 {
        proof {
            lemma_wrap32_small(v as int);
        }
        v as u32
    } else {
        proof {
            lemma_wrap32_neg(v - 0x100);
        }
        (v as u32) + 0xFFFF_FF00
    }
}

/// Compare two words as two's-complement 32-bit integers.
fn signed_lt(a: u32, b: u32) -> (r: bool)
    ensures
        r == (as_signed(a) < as_signed(b)),
{
    let a_neg = a >= 0x8000_0000;
    let b_neg = b >= 0x8000_0000;
    if a_neg != b_neg {
        a_neg
    } else {
        a < b
    }
}

/// The additive inverse modulo the 32-bit range.
fn neg32(x: u32) -> (r: u32)
    ensures
        r == wrap32(-(x as int)),
{
    if x == 0 {
        proof {
            lemma_wrap32_small(0);
        }
        0
    } else {
        proof {
            lemma_wrap32_neg(-(x as int));
        }
        (0xFFFF_FFFFu32 - x) + 1
    }
}

/// Whether adding the words overflows 32-bit two's-complement.
fn add_overflows(a: u32, b: u32) -> (r: bool)
    ensures
        r == signed_add_overflows(a, b),
{
    let s = a.wrapping_add(b);
    let a_neg = a >= 0x8000_0000;
    let b_neg = b >= 0x8000_0000;
    let s_neg = s >= 0x8000_0000;
    a_neg == b_neg && s_neg != a_neg
}

/// Whether subtracting the words overflows 32-bit two's-complement.
fn sub_overflows(a: u32, b: u32) -> (r: bool)
    ensures
        r == signed_sub_overflows(a, b),
{
    let s = a.wrapping_sub(b);
    let a_neg = a >= 0x8000_0000;
    let b_neg = b >= 0x8000_0000;
    let s_neg = s >= 0x8000_0000;
    a_neg != b_neg && s_neg != a_neg
}


/// The descriptor of a well-formed instruction is itself well-formed: its
/// register fields are five-bit values and its sizes are 1, 2 or 4.
pub proof fn lemma_task_of_wf(vm: VM, inst: InstructionData)
    requires
        inst.wf(),
    ensures
        task_wf(task_of(vm, inst)),
{
}

impl VM {
    /// Resolve an operand: a register read, an aligned memory word load, or
    /// the promoted immediate.
    fn get_value_of_target(&self, target: &Target) -> (r: Result<u32, RuntimeError>)
        requires
            self.wf(),
        ensures
            r is Ok <==> tval_ok(*self, *target),
            r matches Ok(v) ==> v == tval(*self, *target),
            r matches Err(e) ==> (target is Register ==> e.err_type
                == FatalErrorType::IllegalRegisterAccess) && (target is Memory ==> e.err_type
                == FatalErrorType::IllegalMemoryAccess),
    {
        match target {
            Target::Register(reg) => self.get_register(*reg),
            Target::Memory(address) => self.memory_ref().get_word(*address as usize),
            Target::Immediate(value, hw_ext) => match hw_ext {
                HalfWordExtension::Sign => Ok(ext_sign16(*value)),
                HalfWordExtension::Zero => Ok(*value as u32),
            },
        }
    }

    /// Write a resolved value to a destination. The executor drops writes
    /// whose destination is register 0, honouring the hard-wired zero; an
    /// immediate destination cannot occur.
    fn set_value_of_target(&mut self, target: Target, value: u32) -> (r: Result<
        (),
        RuntimeError,
    >)
        requires
            old(self).wf(),
            !(target is Immediate),
        ensures
            final(self).wf(),
            r is Ok <==> dest_ok(*old(self), target),
            r is Ok ==> writes_dest(*old(self), *final(self), target, value),
            r is Err ==> state_eq(*final(self), *old(self)),
            r matches Err(e) ==> (target is Register ==> e.err_type
                == FatalErrorType::IllegalRegisterAccess) && (target is Memory ==> e.err_type
                == FatalErrorType::IllegalMemoryAccess),
    {
        match target {
            Target::Register(reg) => {
                if reg == 0 {
                    Ok(())
                } else {
                    self.set_register(reg, value)
                }
            },
            Target::Memory(address) => self.memory_mut().set_word(address as usize, value),
            Target::Immediate(_, _) => vstd::pervasive::unreached(),
        }
    }

    /// Lower an add-family instruction; `None` for any other mnemonic.
    fn get_add_task(&self, instruction: &InstructionData) -> (r: Option<ExecutionTask>)
        requires
            self.wf(),
            instruction.wf(),
        ensures
            r is Some <==> (instruction.base.mnemonic == Mnemonic::Add || instruction.base.mnemonic
                == Mnemonic::Addu || instruction.base.mnemonic == Mnemonic::Addi
                || instruction.base.mnemonic == Mnemonic::Addiu),
            r matches Some(t) ==> t == task_of(*self, *instruction),
    {
        match instruction.base.mnemonic {
            Mnemonic::Add => {
                let args = coerece_r_format(instruction);
                Some(
                    ExecutionTask::Add {
                        dest: Target::Register(args.rd),
                        a: Target::Register(args.rs),
                        b: Target::Register(args.rt),
                        overflow_trap: true,
                    },
                )
            },
            Mnemonic::Addu => {
                let args = coerece_r_format(instruction);
                Some(
                    ExecutionTask::Add {
                        dest: Target::Register(args.rd),
                        a: Target::Register(args.rs),
                        b: Target::Register(args.rt),
                        overflow_trap: false,
                    },
                )
            },
            Mnemonic::Addi => {
                let args = coerce_i_format(instruction);
                Some(
                    ExecutionTask::Add {
                        dest: Target::Register(args.rt),
                        a: Target::Register(args.rs),
                        b: Target::Immediate(args.imm, HalfWordExtension::Sign),
                        overflow_trap: true,
                    },
                )
            },
            Mnemonic::Addiu => {
                let args = coerce_i_format(instruction);
                Some(
                    ExecutionTask::Add {
                        dest: Target::Register(args.rt),
                        a: Target::Register(args.rs),
                        b: Target::Immediate(args.imm, HalfWordExtension::Sign),
                        overflow_trap: false,
                    },
                )
            },
            _ => None,
        }
    }

    /// Lower a subtract instruction; `None` for any other mnemonic.
    fn get_sub_task(&self, instruction: &InstructionData) -> (r: Option<ExecutionTask>)
        requires
            self.wf(),
            instruction.wf(),
        ensures
            r is Some <==> (instruction.base.mnemonic == Mnemonic::Sub || instruction.base.mnemonic
                == Mnemonic::Subu),
            r matches Some(t) ==> t == task_of(*self, *instruction),
    {
        match instruction.base.mnemonic {
            Mnemonic::Sub => {
                let args = coerece_r_format(instruction);
                Some(
                    ExecutionTask::Sub {
                        dest: Target::Register(args.rd),
                        a: Target::Register(args.rs),
                        b: Target::Register(args.rt),
                        overflow_trap: true,
                    },
                )
            },
            Mnemonic::Subu => {
                let args = coerece_r_format(instruction);
                Some(
                    ExecutionTask::Sub {
                        dest: Target::Register(args.rd),
                        a: Target::Register(args.rs),
                        b: Target::Register(args.rt),
                        overflow_trap: false,
                    },
                )
            },
            _ => None,
        }
    }

    /// Lower a multiply instruction; `None` for any other mnemonic.
    fn get_mult_task(&self, instruction: &InstructionData) -> (r: Option<ExecutionTask>)
        requires
            self.wf(),
            instruction.wf(),
        ensures
            r is Some <==> (instruction.base.mnemonic == Mnemonic::Mult
                || instruction.base.mnemonic == Mnemonic::Multu),
            r matches Some(t) ==> t == task_of(*self, *instruction),
    {
        match instruction.base.mnemonic {
            Mnemonic::Mult => {
                let args = coerece_r_format(instruction);
                Some(
                    ExecutionTask::Mult {
                        a: Target::Register(args.rs),
                        b: Target::Register(args.rt),
                        signed: true,
                    },
                )
            },
            Mnemonic::Multu => {
                let args = coerece_r_format(instruction);
                Some(
                    ExecutionTask::Mult {
                        a: Target::Register(args.rs),
                        b: Target::Register(args.rt),
                        signed: false,
                    },
                )
            },
            _ => None,
        }
    }

    /// Lower a divide instruction; `None` for any other mnemonic.
    fn get_div_task(&self, instruction: &InstructionData) -> (r: Option<ExecutionTask>)
        requires
            self.wf(),
            instruction.wf(),
        ensures
            r is Some <==> (instruction.base.mnemonic == Mnemonic::Div || instruction.base.mnemonic
                == Mnemonic::Divu),
            r matches Some(t) ==> t == task_of(*self, *instruction),
    {
        match instruction.base.mnemonic {
            Mnemonic::Div => {
                let args = coerece_r_format(instruction);
                Some(
                    ExecutionTask::Div {
                        a: Target::Register(args.rs),
                        b: Target::Register(args.rt),
                        signed: true,
                    },
                )
            },
            Mnemonic::Divu => {
                let args = coerece_r_format(instruction);
                Some(
                    ExecutionTask::Div {
                        a: Target::Register(args.rs),
                        b: Target::Register(args.rt),
                        signed: false,
                    },
                )
            },
            _ => None,
        }
    }

    /// Lower a bitwise instruction; `None` for any other mnemonic.
    fn get_boolean_task(&self, instruction: &InstructionData) -> (r: Option<ExecutionTask>)
        requires
            self.wf(),
            instruction.wf(),
        ensures
            r is Some <==> (instruction.base.mnemonic == Mnemonic::And || instruction.base.mnemonic
                == Mnemonic::Andi || instruction.base.mnemonic == Mnemonic::Or
                || instruction.base.mnemonic == Mnemonic::Ori || instruction.base.mnemonic
                == Mnemonic::Xor || instruction.base.mnemonic == Mnemonic::Xori
                || instruction.base.mnemonic == Mnemonic::Nor),
            r matches Some(t) ==> t == task_of(*self, *instruction),
    {
        match instruction.base.mnemonic {
            Mnemonic::And => {
                let args = coerece_r_format(instruction);
                Some(
                    ExecutionTask::And {
                        dest: Target::Register(args.rd),
                        a: Target::Register(args.rs),
                        b: Target::Register(args.rt),
                    },
                )
            },
            Mnemonic::Andi => {
                let args = coerce_i_format(instruction);
                Some(
                    ExecutionTask::And {
                        dest: Target::Register(args.rt),
                        a: Target::Register(args.rs),
                        b: Target::Immediate(args.imm, HalfWordExtension::Zero),
                    },
                )
            },
            Mnemonic::Or => {
                let args = coerece_r_format(instruction);
                Some(
                    ExecutionTask::Or {
                        dest: Target::Register(args.rd),
                        a: Target::Register(args.rs),
                        b: Target::Register(args.rt),
                    },
                )
            },
            Mnemonic::Ori => {
                let args = coerce_i_format(instruction);
                Some(
                    ExecutionTask::Or {
                        dest: Target::Register(args.rt),
                        a: Target::Register(args.rs),
                        b: Target::Immediate(args.imm, HalfWordExtension::Zero),
                    },
                )
            },
            Mnemonic::Nor => {
                let args = coerece_r_format(instruction);
                Some(
                    ExecutionTask::Nor {
                        dest: Target::Register(args.rd),
                        a: Target::Register(args.rs),
                        b: Target::Register(args.rt),
                    },
                )
            },
            Mnemonic::Xor => {
                let args = coerece_r_format(instruction);
                Some(
                    ExecutionTask::Xor {
                        dest: Target::Register(args.rd),
                        a: Target::Register(args.rs),
                        b: Target::Register(args.rt),
                    },
                )
            },
            Mnemonic::Xori => {
                let args = coerce_i_format(instruction);
                Some(
                    ExecutionTask::Xor {
                        dest: Target::Register(args.rt),
                        a: Target::Register(args.rs),
                        b: Target::Immediate(args.imm, HalfWordExtension::Zero),
                    },
                )
            },
            _ => None,
        }
    }

    /// Lower a shift instruction; `None` for any other mnemonic.
    fn get_shift_task(&self, instruction: &InstructionData) -> (r: Option<ExecutionTask>)
        requires
            self.wf(),
            instruction.wf(),
        ensures
            r is Some <==> (instruction.base.mnemonic == Mnemonic::Sll || instruction.base.mnemonic
                == Mnemonic::Sllv || instruction.base.mnemonic == Mnemonic::Sra
                || instruction.base.mnemonic == Mnemonic::Srav || instruction.base.mnemonic
                == Mnemonic::Srl || instruction.base.mnemonic == Mnemonic::Srlv),
            r matches Some(t) ==> t == task_of(*self, *instruction),
    {
        match instruction.base.mnemonic {
            Mnemonic::Sll => {
                let args = coerece_r_format(instruction);
                Some(
                    ExecutionTask::Shift {
                        dest: Target::Register(args.rd),
                        a: Target::Register(args.rt),
                        b: Target::Immediate(args.shamt as u16, HalfWordExtension::Zero),
                        direction: ShiftDirection::Left,
                        shift_type: ShiftType::Logical,
                    },
                )
            },
            Mnemonic::Sllv => {
                let args = coerece_r_format(instruction);
                Some(
                    ExecutionTask::Shift {
                        dest: Target::Register(args.rd),
                        a: Target::Register(args.rt),
                        b: Target::Register(args.rs),
                        direction: ShiftDirection::Left,
                        shift_type: ShiftType::Logical,
                    },
                )
            },
            Mnemonic::Sra => {
                let args = coerece_r_format(instruction);
                Some(
                    ExecutionTask::Shift {
                        dest: Target::Register(args.rd),
                        a: Target::Register(args.rt),
                        b: Target::Immediate(args.shamt as u16, HalfWordExtension::Zero),
                        direction: ShiftDirection::Right,
                        shift_type: ShiftType::Arithmetic,
                    },
                )
            },
            Mnemonic::Srav => {
                let args = coerece_r_format(instruction);
                Some(
                    ExecutionTask::Shift {
                        dest: Target::Register(args.rd),
                        a: Target::Register(args.rt),
                        b: Target::Register(args.rs),
                        direction: ShiftDirection::Right,
                        shift_type: ShiftType::Arithmetic,
                    },
                )
            },
            Mnemonic::Srl => {
                let args = coerece_r_format(instruction);
                Some(
                    ExecutionTask::Shift {
                        dest: Target::Register(args.rd),
                        a: Target::Register(args.rt),
                        b: Target::Immediate(args.shamt as u16, HalfWordExtension::Zero),
                        direction: ShiftDirection::Right,
                        shift_type: ShiftType::Logical,
                    },
                )
            },
            Mnemonic::Srlv => {
                let args = coerece_r_format(instruction);
                Some(
                    ExecutionTask::Shift {
                        dest: Target::Register(args.rd),
                        a: Target::Register(args.rt),
                        b: Target::Register(args.rs),
                        direction: ShiftDirection::Right,
                        shift_type: ShiftType::Logical,
                    },
                )
            },
            _ => None,
        }
    }

    /// Lower a set-on-less-than instruction; `None` for any other mnemonic.
    fn get_set_less_than_task(&self, instruction: &InstructionData) -> (r: Option<ExecutionTask>)
        requires
            self.wf(),
            instruction.wf(),
        ensures
            r is Some <==> (instruction.base.mnemonic == Mnemonic::Slt || instruction.base.mnemonic
                == Mnemonic::Sltu || instruction.base.mnemonic == Mnemonic::Slti
                || instruction.base.mnemonic == Mnemonic::Sltiu),
            r matches Some(t) ==> t == task_of(*self, *instruction),
    {
        match instruction.base.mnemonic {
            Mnemonic::Slt => {
                let args = coerece_r_format(instruction);
                Some(
                    ExecutionTask::SetLessThan {
                        dest: Target::Register(args.rd),
                        a: Target::Register(args.rs),
                        b: Target::Register(args.rt),
                        signed: true,
                    },
                )
            },
            Mnemonic::Sltu => {
                let args = coerece_r_format(instruction);
                Some(
                    ExecutionTask::SetLessThan {
                        dest: Target::Register(args.rd),
                        a: Target::Register(args.rs),
                        b: Target::Register(args.rt),
                        signed: false,
                    },
                )
            },
            Mnemonic::Slti => {
                let args = coerce_i_format(instruction);
                Some(
                    ExecutionTask::SetLessThan {
                        dest: Target::Register(args.rt),
                        a: Target::Register(args.rs),
                        b: Target::Immediate(args.imm, HalfWordExtension::Sign),
                        signed: true,
                    },
                )
            },
            Mnemonic::Sltiu => {
                let args = coerce_i_format(instruction);
                Some(
                    ExecutionTask::SetLessThan {
                        dest: Target::Register(args.rt),
                        a: Target::Register(args.rs),
                        b: Target::Immediate(args.imm, HalfWordExtension::Sign),
                        signed: false,
                    },
                )
            },
            _ => None,
        }
    }

    /// Lower a conditional branch; `None` for any other mnemonic.
    fn get_branch_task(&self, instruction: &InstructionData) -> (r: Option<ExecutionTask>)
        requires
            self.wf(),
            instruction.wf(),
        ensures
            r is Some <==> (instruction.base.mnemonic == Mnemonic::Beq || instruction.base.mnemonic
                == Mnemonic::Bne || instruction.base.mnemonic == Mnemonic::Bgtz
                || instruction.base.mnemonic == Mnemonic::Blez),
            r matches Some(t) ==> t == task_of(*self, *instruction),
    {
        match instruction.base.mnemonic {
            Mnemonic::Beq => {
                let args = coerce_i_format(instruction);
                Some(
                    ExecutionTask::Branch {
                        cond: BranchCondition::Eq,
                        a: Target::Register(args.rs),
                        b: Target::Register(args.rt),
                        offset: ext_sign16(args.imm) << 2u32,
                    },
                )
            },
            Mnemonic::Bne => {
                let args = coerce_i_format(instruction);
                Some(
                    ExecutionTask::Branch {
                        cond: BranchCondition::Ne,
                        a: Target::Register(args.rs),
                        b: Target::Register(args.rt),
                        offset: ext_sign16(args.imm) << 2u32,
                    },
                )
            },
            Mnemonic::Bgtz => {
                let args = coerce_i_format(instruction);
                Some(
                    ExecutionTask::Branch {
                        cond: BranchCondition::GreaterThanZero,
                        a: Target::Register(args.rs),
                        b: Target::Register(0),
                        offset: ext_sign16(args.imm) << 2u32,
                    },
                )
            },
            Mnemonic::Blez => {
                let args = coerce_i_format(instruction);
                Some(
                    ExecutionTask::Branch {
                        cond: BranchCondition::LessOrEqualZero,
                        a: Target::Register(args.rs),
                        b: Target::Register(0),
                        offset: ext_sign16(args.imm) << 2u32,
                    },
                )
            },
            _ => None,
        }
    }

    /// Lower a jump; `None` for any other mnemonic. The target is resolved
    /// here: from the post-fetch PC and the address field for `j`/`jal`,
    /// from `$rs` for `jr`/`jalr`.
    fn get_jump_task(&self, instruction: &InstructionData) -> (r: Option<ExecutionTask>)
        requires
            self.wf(),
            instruction.wf(),
        ensures
            r is Some <==> (instruction.base.mnemonic == Mnemonic::J || instruction.base.mnemonic
                == Mnemonic::Jal || instruction.base.mnemonic == Mnemonic::Jr
                || instruction.base.mnemonic == Mnemonic::Jalr),
            r matches Some(t) ==> t == task_of(*self, *instruction),
    {
        match instruction.base.mnemonic {
            Mnemonic::J => {
                let args = coerce_j_format(instruction);
                let pc = self.get_pc();
                Some(
                    ExecutionTask::Jump {
                        target: ((pc as u32) & 0xF000_0000) | (args.address << 2u32),
                        link: None,
                    },
                )
            },
            Mnemonic::Jal => {
                let args = coerce_j_format(instruction);
                let pc = self.get_pc();
                Some(
                    ExecutionTask::Jump {
                        target: ((pc as u32) & 0xF000_0000) | (args.address << 2u32),
                        link: Some(31),
                    },
                )
            },
            Mnemonic::Jr => {
                let args = coerece_r_format(instruction);
                let target = match self.get_register(args.rs) {
                    Ok(v) => v,
                    Err(_) => vstd::pervasive::unreached(),
                };
                Some(ExecutionTask::Jump { target, link: None })
            },
            Mnemonic::Jalr => {
                let args = coerece_r_format(instruction);
                let target = match self.get_register(args.rs) {
                    Ok(v) => v,
                    Err(_) => vstd::pervasive::unreached(),
                };
                Some(
                    ExecutionTask::Jump {
                        target,
                        link: Some(
                            if args.rd == 0 {
                                31
                            } else {
                                args.rd
                            },
                        ),
                    },
                )
            },
            _ => None,
        }
    }

    /// Lower a memory load; `None` for any other mnemonic.
    fn get_load_task(&self, instruction: &InstructionData) -> (r: Option<ExecutionTask>)
        requires
            self.wf(),
            instruction.wf(),
        ensures
            r is Some <==> (instruction.base.mnemonic == Mnemonic::Lb || instruction.base.mnemonic
                == Mnemonic::Lbu || instruction.base.mnemonic == Mnemonic::Lh
                || instruction.base.mnemonic == Mnemonic::Lhu || instruction.base.mnemonic
                == Mnemonic::Lw),
            r matches Some(t) ==> t == task_of(*self, *instruction),
    {
        match instruction.base.mnemonic {
            Mnemonic::Lb => {
                let args = coerce_i_format(instruction);
                Some(
                    ExecutionTask::Load {
                        dest: Target::Register(args.rt),
                        src_addr: Target::Register(args.rs),
                        offset: Target::Immediate(args.imm, HalfWordExtension::Sign),
                        signed: true,
                        size: 1,
                    },
                )
            },
            Mnemonic::Lbu => {
                let args = coerce_i_format(instruction);
                Some(
                    ExecutionTask::Load {
                        dest: Target::Register(args.rt),
                        src_addr: Target::Register(args.rs),
                        offset: Target::Immediate(args.imm, HalfWordExtension::Sign),
                        signed: false,
                        size: 1,
                    },
                )
            },
            Mnemonic::Lh => {
                let args = coerce_i_format(instruction);
                Some(
                    ExecutionTask::Load {
                        dest: Target::Register(args.rt),
                        src_addr: Target::Register(args.rs),
                        offset: Target::Immediate(args.imm, HalfWordExtension::Sign),
                        signed: true,
                        size: 2,
                    },
                )
            },
            Mnemonic::Lhu => {
                let args = coerce_i_format(instruction);
                Some(
                    ExecutionTask::Load {
                        dest: Target::Register(args.rt),
                        src_addr: Target::Register(args.rs),
                        offset: Target::Immediate(args.imm, HalfWordExtension::Sign),
                        signed: false,
                        size: 2,
                    },
                )
            },
            Mnemonic::Lw => {
                let args = coerce_i_format(instruction);
                Some(
                    ExecutionTask::Load {
                        dest: Target::Register(args.rt),
                        src_addr: Target::Register(args.rs),
                        offset: Target::Immediate(args.imm, HalfWordExtension::Sign),
                        signed: false,
                        size: 4,
                    },
                )
            },
            _ => None,
        }
    }

    /// Lower a memory store; `None` for any other mnemonic.
    fn get_store_task(&self, instruction: &InstructionData) -> (r: Option<ExecutionTask>)
        requires
            self.wf(),
            instruction.wf(),
        ensures
            r is Some <==> (instruction.base.mnemonic == Mnemonic::Sb || instruction.base.mnemonic
                == Mnemonic::Sh || instruction.base.mnemonic == Mnemonic::Sw),
            r matches Some(t) ==> t == task_of(*self, *instruction),
    {
        match instruction.base.mnemonic {
            Mnemonic::Sb => {
                let args = coerce_i_format(instruction);
                Some(
                    ExecutionTask::Store {
                        dest_addr: Target::Register(args.rs),
                        src: Target::Register(args.rt),
                        offset: Target::Immediate(args.imm, HalfWordExtension::Sign),
                        size: 1,
                    },
                )
            },
            Mnemonic::Sh => {
                let args = coerce_i_format(instruction);
                Some(
                    ExecutionTask::Store {
                        dest_addr: Target::Register(args.rs),
                        src: Target::Register(args.rt),
                        offset: Target::Immediate(args.imm, HalfWordExtension::Sign),
                        size: 2,
                    },
                )
            },
            Mnemonic::Sw => {
                let args = coerce_i_format(instruction);
                Some(
                    ExecutionTask::Store {
                        dest_addr: Target::Register(args.rs),
                        src: Target::Register(args.rt),
                        offset: Target::Immediate(args.imm, HalfWordExtension::Sign),
                        size: 4,
                    },
                )
            },
            _ => None,
        }
    }

    /// Lower a move between a register and HI/LO; `None` for any other
    /// mnemonic.
    fn get_hilo_task(&self, instruction: &InstructionData) -> (r: Option<ExecutionTask>)
        requires
            self.wf(),
            instruction.wf(),
        ensures
            r is Some <==> (instruction.base.mnemonic == Mnemonic::Mfhi || instruction.base.mnemonic
                == Mnemonic::Mflo || instruction.base.mnemonic == Mnemonic::Mthi
                || instruction.base.mnemonic == Mnemonic::Mtlo),
            r matches Some(t) ==> t == task_of(*self, *instruction),
    {
        match instruction.base.mnemonic {
            Mnemonic::Mfhi => {
                let args = coerece_r_format(instruction);
                Some(ExecutionTask::MoveFromHi { dest: Target::Register(args.rd) })
            },
            Mnemonic::Mflo => {
                let args = coerece_r_format(instruction);
                Some(ExecutionTask::MoveFromLo { dest: Target::Register(args.rd) })
            },
            Mnemonic::Mthi => {
                let args = coerece_r_format(instruction);
                Some(ExecutionTask::MoveToHi { src: Target::Register(args.rd) })
            },
            Mnemonic::Mtlo => {
                let args = coerece_r_format(instruction);
                Some(ExecutionTask::MoveToLo { src: Target::Register(args.rd) })
            },
            _ => None,
        }
    }

    /// Lower a system call; `None` for any other mnemonic.
    fn get_syscall_task(&self, instruction: &InstructionData) -> (r: Option<ExecutionTask>)
        requires
            self.wf(),
            instruction.wf(),
        ensures
            r is Some <==> instruction.base.mnemonic == Mnemonic::Syscall,
            r matches Some(t) ==> t == task_of(*self, *instruction),
    {
        match instruction.base.mnemonic {
            Mnemonic::Syscall => Some(ExecutionTask::Syscall),
            _ => None,
        }
    }

    /// Lower a decoded instruction to its operation descriptor. Every
    /// decodable mnemonic lowers.
    fn get_task(&self, instruction: &InstructionData) -> (r: Result<ExecutionTask, RuntimeError>)
        requires
            self.wf(),
            instruction.wf(),
        ensures
            r matches Ok(t) && t == task_of(*self, *instruction),
    {
        if let Some(task) = self.get_add_task(instruction) {
            return Ok(task);
        }
        if let Some(task) = self.get_sub_task(instruction) {
            return Ok(task);
        }
        if let Some(task) = self.get_mult_task(instruction) {
            return Ok(task);
        }
        if let Some(task) = self.get_div_task(instruction) {
            return Ok(task);
        }
        if let Some(task) = self.get_boolean_task(instruction) {
            return Ok(task);
        }
        if let Some(task) = self.get_shift_task(instruction) {
            return Ok(task);
        }
        if let Some(task) = self.get_set_less_than_task(instruction) {
            return Ok(task);
        }
        if let Some(task) = self.get_branch_task(instruction) {
            return Ok(task);
        }
        if let Some(task) = self.get_jump_task(instruction) {
            return Ok(task);
        }
        if let Some(task) = self.get_load_task(instruction) {
            return Ok(task);
        }
        if let Some(task) = self.get_store_task(instruction) {
            return Ok(task);
        }
        if let Some(task) = self.get_hilo_task(instruction) {
            return Ok(task);
        }
        if let Some(task) = self.get_syscall_task(instruction) {
            return Ok(task);
        }
        vstd::pervasive::unreached()
    }
}


/// The wrapping 32-bit sum is reduction of the exact sum.
proof fn lemma_add_is_wrap32(x: u32, y: u32)
    ensures
        vstd::wrapping::u32_specs::wrapping_add(x, y) == wrap32(x + y),
{
    if x + y > u32::MAX {
        vstd::arithmetic::div_mod::lemma_mod_add_multiples_vanish(
            x + y - 0x1_0000_0000,
            0x1_0000_0000,
        );
        vstd::arithmetic::div_mod::lemma_small_mod(
            (x + y - 0x1_0000_0000) as nat,
            0x1_0000_0000nat,
        );
    } else {
        lemma_wrap32_small(x + y);
    }
}

/// The wrapping 32-bit difference is reduction of the exact difference.
proof fn lemma_sub_is_wrap32(x: u32, y: u32)
    ensures
        vstd::wrapping::u32_specs::wrapping_sub(x, y) == wrap32(x - y),
{
    if x - y < 0 {
        lemma_wrap32_neg(x - y);
    } else {
        lemma_wrap32_small(x - y);
    }
}

/// The high and low words of a 64-bit value recompose it.
proof fn lemma_split64(x: u64)
    by (bit_vector)
    ensures
        (((x >> 32u64) as u32) as u64) * 0x1_0000_0000 + ((x as u32) as u64) == x,
{
}

/// Sign-extend a word to 64 bits: the result is the 64-bit reduction of the
/// word's two's-complement value.
fn ext_sign32_64(v: u32) -> (r: u64)
    ensures
        r == wrap64(as_signed(v)),
{
    if v < 0x8000_0000 {
        proof {
            lemma_wrap64_small(v as int);
        }
        v as u64
    } else {
        proof {
            lemma_wrap64_neg(v - 0x1_0000_0000);
        }
        (v as u64) + 0xFFFF_FFFF_0000_0000
    }
}

/// Signed 32-bit division and remainder, truncating toward zero, via the
/// magnitudes; the results are the 32-bit reductions of the exact truncated
/// quotient and remainder.
fn div_signed(a: u32, b: u32) -> (r: (u32, u32))
    requires
        b != 0,
    ensures
        r.0 == wrap32(trunc_div(as_signed(a), as_signed(b))),
        r.1 == wrap32(trunc_rem(as_signed(a), as_signed(b))),
{
    let a_neg = a >= 0x8000_0000;
    let b_neg = b >= 0x8000_0000;
    let mag_a = if a_neg {
        neg32(a)
    } else {
        a
    };
    let mag_b = if b_neg {
        neg32(b)
    } else {
        b
    };
    proof {
        if a_neg {
            lemma_wrap32_neg(-(a as int));
        }
        if b_neg {
            lemma_wrap32_neg(-(b as int));
        }
        assert(mag_a == int_abs(as_signed(a)));
        assert(mag_b == int_abs(as_signed(b)));
        assert(mag_b != 0);
    }
    let q_mag = mag_a / mag_b;
    let r_mag = mag_a % mag_b;
    let q = if a_neg != b_neg {
        neg32(q_mag)
    } else {
        q_mag
    };
    let rem = if a_neg {
        neg32(r_mag)
    } else {
        r_mag
    };
    proof {
        let ia = as_signed(a);
        let ib = as_signed(b);
        let ma = mag_a as int;
        let mb = mag_b as int;
        let qm = q_mag as int;
        let rm = r_mag as int;
        vstd::arithmetic::div_mod::lemma_fundamental_div_mod(ma, mb);
        assert(ma == mb * qm + rm);
        let td = trunc_div(ia, ib);
        let tr = trunc_rem(ia, ib);
        if (ia >= 0) == (ib >= 0) {
            assert(td == qm);
            if a_neg {
                assert(tr == ia - ib * td);
                assert(ia - ib * td == -(ma - mb * qm)) by (nonlinear_arith)
                    requires
                        ia == -ma,
                        ib == -mb,
                        td == qm,
                ;
                assert(tr == -rm);
                lemma_wrap32_small(qm);
                if rm == 0 {
                    lemma_wrap32_small(0);
                } else {
                    lemma_wrap32_neg(-rm);
                }
            } else {
                assert(ia - ib * td == ma - mb * qm) by (nonlinear_arith)
                    requires
                        ia == ma,
                        ib == mb,
                        td == qm,
                ;
                assert(tr == rm);
                lemma_wrap32_small(qm);
                lemma_wrap32_small(rm);
            }
        } else {
            assert(td == -qm);
            if a_neg {
                assert(ia - ib * td == -(ma - mb * qm)) by (nonlinear_arith)
                    requires
                        ia == -ma,
                        ib == mb,
                        td == -qm,
                ;
                assert(tr == -rm);
                if qm == 0 {
                    lemma_wrap32_small(0);
                } else {
                    lemma_wrap32_neg(-qm);
                }
                if rm == 0 {
                    lemma_wrap32_small(0);
                } else {
                    lemma_wrap32_neg(-rm);
                }
            } else {
                assert(ia - ib * td == ma - mb * qm) by (nonlinear_arith)
                    requires
                        ia == ma,
                        ib == -mb,
                        td == -qm,
                ;
                assert(tr == rm);
                if qm == 0 {
                    lemma_wrap32_small(0);
                } else {
                    lemma_wrap32_neg(-qm);
                }
                lemma_wrap32_small(rm);
            }
        }
    }
    (q, rem)
}

/// The 64-bit product of two words is exact: it does not reach the 64-bit
/// range's end.
proof fn lemma_mult_unsigned(xa: u64, xb: u64)
    requires
        xa < 0x1_0000_0000,
        xb < 0x1_0000_0000,
    ensures
        vstd::wrapping::u64_specs::wrapping_mul(xa, xb) == wrap64((xa as int) * (xb as int)),
        (xa as int) * (xb as int) < 0x1_0000_0000_0000_0000,
{
    lemma_mul_upper_bound(xa as int, 0xFFFF_FFFF, xb as int, 0xFFFF_FFFF);
    lemma_mul_nonnegative(xa as int, xb as int);
    vstd::arithmetic::div_mod::lemma_small_mod(
        ((xa as int) * (xb as int)) as nat,
        0x1_0000_0000_0000_0000nat,
    );
}

/// The 64-bit wrapping product of the sign-extended words is the 64-bit
/// reduction of the product of their two's-complement values.
proof fn lemma_mult_signed(a: u32, b: u32, xa: u64, xb: u64)
    requires
        xa == wrap64(as_signed(a)),
        xb == wrap64(as_signed(b)),
    ensures
        vstd::wrapping::u64_specs::wrapping_mul(xa, xb) == wrap64(as_signed(a) * as_signed(b)),
{
    let m: int = 0x1_0000_0000_0000_0000;
    let sa = as_signed(a);
    let sb = as_signed(b);
    vstd::arithmetic::div_mod::lemma_mod_add_multiples_vanish(sa, m);
    vstd::arithmetic::div_mod::lemma_mod_add_multiples_vanish(sb, m);
    if sa >= 0 {
        vstd::arithmetic::div_mod::lemma_small_mod(sa as nat, m as nat);
    } else {
        vstd::arithmetic::div_mod::lemma_small_mod((sa + m) as nat, m as nat);
    }
    if sb >= 0 {
        vstd::arithmetic::div_mod::lemma_small_mod(sb as nat, m as nat);
    } else {
        vstd::arithmetic::div_mod::lemma_small_mod((sb + m) as nat, m as nat);
    }
    assert(xa == sa % m && xb == sb % m);
    vstd::arithmetic::div_mod::lemma_mul_mod_noop_general(sa, sb, m);
    assert(((xa as int) * (xb as int)) % m == (sa * sb) % m);
    vstd::arithmetic::div_mod::lemma_mod_bound(sa * sb, m);
}


impl VM {
    /// Execute an operation descriptor: resolve the operands, perform the
    /// operation, write back, and report a trap where one is due. A fatal
    /// error leaves the machine unchanged.
    fn execute_task(&mut self, task: ExecutionTask) -> (r: Result<Option<Trap>, RuntimeError>)
        requires
            old(self).wf(),
        ensures
            final(self).wf(),
            r is Ok <==> task_ok(*old(self), task),
            r matches Ok(t) ==> task_step(*old(self), *final(self), task, t is Some),
            r is Err ==> state_eq(*final(self), *old(self)),
            r is Err && task_wf(task) ==> (r matches Err(e) && e.err_type
                == FatalErrorType::IllegalMemoryAccess),
    {
        match task {
            ExecutionTask::Add { dest, a, b, overflow_trap } => {
                let av = self.get_value_of_target(&a)?;
                let bv = self.get_value_of_target(&b)?;
                if overflow_trap && add_overflows(av, bv) {
                    return Ok(Some(Trap::new("overflow when adding".to_owned())));
                }
                if matches!(dest, Target::Immediate(_, _)) {
                    return Err(
                        RuntimeError::new(
                            FatalErrorType::IllegalInstruction,
                            "immediate operand as destination".to_owned(),
                        ),
                    );
                }
                proof {
                    lemma_add_is_wrap32(av, bv);
                }
                self.set_value_of_target(dest, av.wrapping_add(bv))?;
                Ok(None)
            },
            ExecutionTask::Sub { dest, a, b, overflow_trap } => {
                let av = self.get_value_of_target(&a)?;
                let bv = self.get_value_of_target(&b)?;
                if overflow_trap && sub_overflows(av, bv) {
                    return Ok(Some(Trap::new("overflow when subtracting".to_owned())));
                }
                if matches!(dest, Target::Immediate(_, _)) {
                    return Err(
                        RuntimeError::new(
                            FatalErrorType::IllegalInstruction,
                            "immediate operand as destination".to_owned(),
                        ),
                    );
                }
                proof {
                    lemma_sub_is_wrap32(av, bv);
                }
                self.set_value_of_target(dest, av.wrapping_sub(bv))?;
                Ok(None)
            },
            ExecutionTask::And { dest, a, b } => {
                let av = self.get_value_of_target(&a)?;
                let bv = self.get_value_of_target(&b)?;
                if matches!(dest, Target::Immediate(_, _)) {
                    return Err(
                        RuntimeError::new(
                            FatalErrorType::IllegalInstruction,
                            "immediate operand as destination".to_owned(),
                        ),
                    );
                }
                self.set_value_of_target(dest, av & bv)?;
                Ok(None)
            },
            ExecutionTask::Or { dest, a, b } => {
                let av = self.get_value_of_target(&a)?;
                let bv = self.get_value_of_target(&b)?;
                if matches!(dest, Target::Immediate(_, _)) {
                    return Err(
                        RuntimeError::new(
                            FatalErrorType::IllegalInstruction,
                            "immediate operand as destination".to_owned(),
                        ),
                    );
                }
                self.set_value_of_target(dest, av | bv)?;
                Ok(None)
            },
            ExecutionTask::Xor { dest, a, b } => {
                let av = self.get_value_of_target(&a)?;
                let bv = self.get_value_of_target(&b)?;
                if matches!(dest, Target::Immediate(_, _)) {
                    return Err(
                        RuntimeError::new(
                            FatalErrorType::IllegalInstruction,
                            "immediate operand as destination".to_owned(),
                        ),
                    );
                }
                self.set_value_of_target(dest, av ^ bv)?;
                Ok(None)
            },
            ExecutionTask::Nor { dest, a, b } => {
                let av = self.get_value_of_target(&a)?;
                let bv = self.get_value_of_target(&b)?;
                if matches!(dest, Target::Immediate(_, _)) {
                    return Err(
                        RuntimeError::new(
                            FatalErrorType::IllegalInstruction,
                            "immediate operand as destination".to_owned(),
                        ),
                    );
                }
                self.set_value_of_target(dest, !(av | bv))?;
                Ok(None)
            },
            ExecutionTask::Div { a, b, signed } => {
                let av = self.get_value_of_target(&a)?;
                let bv = self.get_value_of_target(&b)?;
                if bv == 0 {
                    // Division by zero does not trap; HI and LO stay as
                    // they were, and callers are expected to check.
                    return Ok(None);
                }
                if signed {
                    let qr = div_signed(av, bv);
                    self.set_lo(qr.0);
                    self.set_hi(qr.1);
                } else {
                    let q = av / bv;
                    let rm = av % bv;
                    proof {
                        lemma_wrap32_small(q as int);
                        lemma_wrap32_small(rm as int);
                    }
                    self.set_lo(q);
                    self.set_hi(rm);
                }
                Ok(None)
            },
            ExecutionTask::Mult { a, b, signed } => {
                let av = self.get_value_of_target(&a)?;
                let bv = self.get_value_of_target(&b)?;
                let result: u64 = if signed {
                    let xa = ext_sign32_64(av);
                    let xb = ext_sign32_64(bv);
                    proof {
                        lemma_mult_signed(av, bv, xa, xb);
                    }
                    xa.wrapping_mul(xb)
                } else {
                    proof {
                        lemma_mult_unsigned(av as u64, bv as u64);
                    }
                    (av as u64).wrapping_mul(bv as u64)
                };
                let hi = (result >> 32u64) as u32;
                let lo = result as u32;
                proof {
                    lemma_split64(result);
                    let sa = as_signed(av);
                    let sb = as_signed(bv);
                    assert(-0x4000_0000_0000_0000 <= sa * sb <= 0x4000_0000_0000_0000)
                        by (nonlinear_arith)
                        requires
                            -0x8000_0000 <= sa <= 0x7FFF_FFFF,
                            -0x8000_0000 <= sb <= 0x7FFF_FFFF,
                    ;
                    if signed {
                        if sa * sb >= 0 {
                            lemma_wrap64_small(sa * sb);
                        } else {
                            lemma_wrap64_neg(sa * sb);
                        }
                    } else {
                        lemma_wrap64_small((av as int) * (bv as int));
                    }
                }
                self.set_hi(hi);
                self.set_lo(lo);
                Ok(None)
            },
            ExecutionTask::Shift { dest, a, b, direction, shift_type } => {
                let av = self.get_value_of_target(&a)?;
                let bv = self.get_value_of_target(&b)?;
                let s = bv % 32;
                let result = match (direction, shift_type) {
                    (ShiftDirection::Left, _) => av << s,
                    (ShiftDirection::Right, ShiftType::Logical) => av >> s,
                    (ShiftDirection::Right, ShiftType::Arithmetic) => ((av as i32) >> s) as u32,
                };
                if matches!(dest, Target::Immediate(_, _)) {
                    return Err(
                        RuntimeError::new(
                            FatalErrorType::IllegalInstruction,
                            "immediate operand as destination".to_owned(),
                        ),
                    );
                }
                self.set_value_of_target(dest, result)?;
                Ok(None)
            },
            ExecutionTask::SetLessThan { dest, a, b, signed } => {
                let av = self.get_value_of_target(&a)?;
                let bv = self.get_value_of_target(&b)?;
                let less = if signed {
                    signed_lt(av, bv)
                } else {
                    av < bv
                };
                if matches!(dest, Target::Immediate(_, _)) {
                    return Err(
                        RuntimeError::new(
                            FatalErrorType::IllegalInstruction,
                            "immediate operand as destination".to_owned(),
                        ),
                    );
                }
                self.set_value_of_target(
                    dest,
                    if less {
                        1
                    } else {
                        0
                    },
                )?;
                Ok(None)
            },
            ExecutionTask::Load { dest, src_addr, offset, signed, size } => {
                let base = self.get_value_of_target(&src_addr)?;
                let off = self.get_value_of_target(&offset)?;
                proof {
                    lemma_add_is_wrap32(base, off);
                }
                let eff = base.wrapping_add(off);
                let value: u32 = if size == 1 {
                    let byte = self.memory_ref().get_byte(eff as usize)?;
                    if signed {
                        ext_sign8(byte)
                    } else {
                        byte as u32
                    }
                } else if size == 2 {
                    let half = self.memory_ref().get_halfword(eff as usize)?;
                    if signed {
                        ext_sign16(half)
                    } else {
                        half as u32
                    }
                } else if size == 4 {
                    self.memory_ref().get_word(eff as usize)?
                } else {
                    return Err(
                        RuntimeError::new(
                            FatalErrorType::IllegalInstruction,
                            "unsupported load size".to_owned(),
                        ),
                    );
                };
                if matches!(dest, Target::Immediate(_, _)) {
                    return Err(
                        RuntimeError::new(
                            FatalErrorType::IllegalInstruction,
                            "immediate operand as destination".to_owned(),
                        ),
                    );
                }
                self.set_value_of_target(dest, value)?;
                Ok(None)
            },
            ExecutionTask::Store { dest_addr, src, offset, size } => {
                let base = self.get_value_of_target(&dest_addr)?;
                let off = self.get_value_of_target(&offset)?;
                let sv = self.get_value_of_target(&src)?;
                proof {
                    lemma_add_is_wrap32(base, off);
                }
                let eff = base.wrapping_add(off);
                if size == 1 {
                    self.memory_mut().set_byte(eff as usize, (sv % 0x100) as u8)?;
                } else if size == 2 {
                    self.memory_mut().set_halfword(eff as usize, (sv % 0x1_0000) as u16)?;
                } else if size == 4 {
                    self.memory_mut().set_word(eff as usize, sv)?;
                } else {
                    return Err(
                        RuntimeError::new(
                            FatalErrorType::IllegalInstruction,
                            "unsupported store size".to_owned(),
                        ),
                    );
                }
                Ok(None)
            },
            ExecutionTask::Branch { cond, a, b, offset } => {
                let av = self.get_value_of_target(&a)?;
                let bv = self.get_value_of_target(&b)?;
                let taken = match cond {
                    BranchCondition::Eq => av == bv,
                    BranchCondition::Ne => av != bv,
                    BranchCondition::GreaterThanZero => 1 <= av && av < 0x8000_0000,
                    BranchCondition::LessOrEqualZero => av == 0 || av >= 0x8000_0000,
                };
                if taken {
                    let pc = self.get_pc();
                    proof {
                        lemma_add_is_wrap32(pc as u32, offset);
                    }
                    let new_pc = (pc as u32).wrapping_add(offset);
                    self.set_pc(new_pc as usize);
                }
                Ok(None)
            },
            ExecutionTask::Jump { target, link } => {
                match link {
                    Some(d) => {
                        if d >= 32 {
                            return Err(
                                RuntimeError::new(
                                    FatalErrorType::IllegalRegisterAccess,
                                    "invalid register number".to_owned(),
                                ),
                            );
                        }
                        let pc = self.get_pc();
                        let res = self.set_value_of_target(Target::Register(d), pc as u32);
                        proof {
                            assert(res is Ok);
                        }
                    },
                    None => {},
                }
                self.set_pc(target as usize);
                Ok(None)
            },
            ExecutionTask::MoveFromHi { dest } => {
                let v = self.get_hi();
                if matches!(dest, Target::Immediate(_, _)) {
                    return Err(
                        RuntimeError::new(
                            FatalErrorType::IllegalInstruction,
                            "immediate operand as destination".to_owned(),
                        ),
                    );
                }
                self.set_value_of_target(dest, v)?;
                Ok(None)
            },
            ExecutionTask::MoveFromLo { dest } => {
                let v = self.get_lo();
                if matches!(dest, Target::Immediate(_, _)) {
                    return Err(
                        RuntimeError::new(
                            FatalErrorType::IllegalInstruction,
                            "immediate operand as destination".to_owned(),
                        ),
                    );
                }
                self.set_value_of_target(dest, v)?;
                Ok(None)
            },
            ExecutionTask::MoveToHi { src } => {
                let v = self.get_value_of_target(&src)?;
                self.set_hi(v);
                Ok(None)
            },
            ExecutionTask::MoveToLo { src } => {
                let v = self.get_value_of_target(&src)?;
                self.set_lo(v);
                Ok(None)
            },
            ExecutionTask::Syscall => Ok(
                Some(Trap::new("syscall with no registered handler".to_owned())),
            ),
        }
    }
}


/// Whether an instruction may set the PC: the conditional branches and the
/// jumps. Every other instruction leaves the PC where the fetch put it.
pub open spec fn is_control_flow(inst: InstructionData) -> bool {
    match inst.base.mnemonic {
        Mnemonic::Beq => true,
        Mnemonic::Bne => true,
        Mnemonic::Bgtz => true,
        Mnemonic::Blez => true,
        Mnemonic::J => true,
        Mnemonic::Jal => true,
        Mnemonic::Jr => true,
        Mnemonic::Jalr => true,
        _ => false,
    }
}

/// PC monotonicity absent branches: executing any instruction that is not a
/// branch or jump leaves the PC exactly where the fetch advanced it to, so
/// over a whole step the PC moves by exactly 4.
pub proof fn lemma_pc_advance(mid: VM, post: VM, inst: InstructionData, trapped: bool)
    requires
        inst.wf(),
        !is_control_flow(inst),
        task_step(mid, post, task_of(mid, inst), trapped),
    ensures
        post.spec_pc() == mid.spec_pc(),
{
    lemma_task_of_wf(mid, inst);
}

/// After `mult`/`multu`, the 64-bit value `(HI << 32) | LO` equals the
/// product of the operands: the signed product for `mult`, the unsigned one
/// for `multu`, reduced to 64 bits.
pub proof fn lemma_mult_product(pre: VM, post: VM, inst: InstructionData, trapped: bool)
    requires
        inst.wf(),
        inst.base.mnemonic == Mnemonic::Mult || inst.base.mnemonic == Mnemonic::Multu,
        task_step(pre, post, task_of(pre, inst), trapped),
    ensures
        ({
            let a = pre.regs()[r_of(inst).rs as int];
            let b = pre.regs()[r_of(inst).rt as int];
            let p = if inst.base.mnemonic == Mnemonic::Mult {
                as_signed(a) * as_signed(b)
            } else {
                (a as int) * (b as int)
            };
            let pm = if p >= 0 {
                p
            } else {
                p + 0x1_0000_0000_0000_0000
            };
            (post.spec_hi() as int) * 0x1_0000_0000 + post.spec_lo() == pm
        }),
{
}

impl VM {
    /// Fetch the word the PC points at and advance the PC by 4 (modulo the
    /// 32-bit address space). Fails, changing nothing, when the PC is not
    /// word-aligned or its four-byte span is not within one segment.
    pub fn fetch_instruction_code(&mut self) -> (r: Result<u32, RuntimeError>)
        requires
            old(self).wf(),
        ensures
            final(self).wf(),
            r is Ok <==> old(self).spec_pc() % 4 == 0 && old(self).mem().spans(
                old(self).spec_pc() as int,
                4,
            ),
            r matches Ok(w) ==> {
                &&& w == old(self).mem().word_at(old(self).spec_pc() as int)
                &&& final(self).spec_pc() == wrap32(old(self).spec_pc() + 4)
                &&& final(self).regs() == old(self).regs()
                &&& final(self).mem() == old(self).mem()
                &&& final(self).spec_hi() == old(self).spec_hi()
                &&& final(self).spec_lo() == old(self).spec_lo()
            },
            r is Err ==> *final(self) == *old(self) && (r matches Err(e) && e.err_type
                == FatalErrorType::IllegalMemoryAccess),
    {
        let pc = self.get_pc();
        let instruction = match self.memory_ref().get_word(pc) {
            Ok(w) => w,
            Err(e) => {
                return Err(e);
            },
        };
        let next = if pc <= 0xFFFF_FFFB {
            proof {
                lemma_wrap32_small(pc + 4);
            }
            pc + 4
        } else {
            proof {
                vstd::arithmetic::div_mod::lemma_mod_add_multiples_vanish(
                    pc + 4 - 0x1_0000_0000,
                    0x1_0000_0000,
                );
                vstd::arithmetic::div_mod::lemma_small_mod(
                    (pc + 4 - 0x1_0000_0000) as nat,
                    0x1_0000_0000nat,
                );
            }
            pc - 0xFFFF_FFFC
        };
        self.set_pc(next);
        Ok(instruction)
    }

    /// Decode and execute one instruction word against the current machine:
    /// decode, lower to a descriptor, and -- unless the word is the null
    /// sentinel, which is reported without running -- execute it. A fatal
    /// error leaves the machine unchanged. The PC is not advanced here;
    /// fetching did that.
    pub fn execute_instruction(&mut self, instruction: u32) -> (r: Result<
        (InstructionData, Option<Trap>),
        RuntimeError,
    >)
        requires
            old(self).wf(),
        ensures
            final(self).wf(),
            r is Ok <==> (match crate::decoding::spec_decode(instruction) {
                Some(inst) => inst.spec_is_null() || task_ok(
                    *old(self),
                    task_of(*old(self), inst),
                ),
                None => false,
            }),
            r matches Ok((inst, trap)) ==> {
                &&& Some(inst) == crate::decoding::spec_decode(instruction)
                &&& inst.wf()
                &&& (inst.spec_is_null() ==> trap is None && state_eq(*final(self), *old(self)))
                &&& (!inst.spec_is_null() ==> task_step(
                    *old(self),
                    *final(self),
                    task_of(*old(self), inst),
                    trap is Some,
                ))
            },
            r is Err ==> state_eq(*final(self), *old(self)),
            r matches Err(e) ==> (if crate::decoding::spec_decode(instruction) is None {
                e.err_type == FatalErrorType::IllegalInstruction
            } else {
                e.err_type == FatalErrorType::IllegalMemoryAccess
            }),
    {
        let inst = self.decode_instruction(instruction)?;
        let task = self.get_task(&inst)?;
        let mut trap: Option<Trap> = None;

        if !inst.is_null() {
            proof {
                lemma_task_of_wf(*self, inst);
            }
            trap = self.execute_task(task)?;
        }

        Ok((inst, trap))
    }

    /// Run a single instruction: fetch the word at the PC, advance the PC by
    /// 4, then decode and execute. Returns the decoded instruction and any
    /// trap it raised; a fatal error during execution leaves everything but
    /// the advanced PC unchanged.
    pub fn run_single_instruction(&mut self) -> (r: Result<
        (InstructionData, Option<Trap>),
        RuntimeError,
    >)
        requires
            old(self).wf(),
        ensures
            final(self).wf(),
            ({
                let pc0 = old(self).spec_pc();
                let fetch_ok = pc0 % 4 == 0 && old(self).mem().spans(pc0 as int, 4);
                let w = old(self).mem().word_at(pc0 as int);
                let mid = old(self).with_pc(wrap32(pc0 + 4) as usize);
                &&& (r is Ok <==> fetch_ok && (match crate::decoding::spec_decode(w) {
                    Some(inst) => inst.spec_is_null() || task_ok(mid, task_of(mid, inst)),
                    None => false,
                }))
                &&& (r matches Ok((inst, trap)) ==> {
                    &&& Some(inst) == crate::decoding::spec_decode(w)
                    &&& inst.wf()
                    &&& (inst.spec_is_null() ==> trap is None && state_eq(*final(self), mid))
                    &&& (!inst.spec_is_null() ==> task_step(
                        mid,
                        *final(self),
                        task_of(mid, inst),
                        trap is Some,
                    ))
                })
                &&& (r is Err && !fetch_ok ==> state_eq(*final(self), *old(self)))
                &&& (r is Err && fetch_ok ==> state_eq(*final(self), mid))
                &&& (r matches Err(e) ==> (if !fetch_ok {
                    e.err_type == FatalErrorType::IllegalMemoryAccess
                } else if crate::decoding::spec_decode(w) is None {
                    e.err_type == FatalErrorType::IllegalInstruction
                } else {
                    e.err_type == FatalErrorType::IllegalMemoryAccess
                }))
            }),
    {
        let instruction = self.fetch_instruction_code()?;
        proof {
            old(self).lemma_with_pc(wrap32(old(self).spec_pc() + 4) as usize);
        }
        self.execute_instruction(instruction)
    }
}

} // verus!
