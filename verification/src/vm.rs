//! The virtual machine: a 32-register file with PC, HI and LO, wired to a
//! segmented memory map built from a configurable layout.

use vstd::prelude::*;

use crate::errors::{FatalErrorType, RuntimeError};
use crate::memory::{MemoryMap, MemorySegment, SegmentDirection};

verus! {

/// The five fixed addresses and two sizes from which the memory map is
/// built: `text`, `data` and `heap` grow upward from their low addresses,
/// `mmio` and `stack` grow downward from their high ones.
pub struct MemoryLayout {
    pub text_low: usize,
    pub data_low: usize,
    pub heap_low: usize,
    pub mmio_high: usize,
    pub stack_high: usize,
    pub heap_size: usize,
    pub stack_size: usize,
}

impl MemoryLayout {
    /// The layout describes five non-empty, pairwise disjoint segments within
    /// the 32-bit address space: `text` up to `data`, `data` up to `heap`,
    /// the heap below the stack's low end, and `mmio` filling the space from
    /// just above `stack_high` up to `mmio_high`.
    pub open spec fn wf(self) -> bool {
        &&& self.text_low < self.data_low
        &&& self.data_low < self.heap_low
        &&& self.heap_size >= 1
        &&& self.stack_size >= 1
        &&& self.stack_size - 1 <= self.stack_high
        &&& self.heap_low + self.heap_size - 1 < self.stack_high - self.stack_size + 1
        &&& self.stack_high < self.mmio_high
        &&& self.mmio_high <= 0xFFFF_FFFF
    }

    /// The memory layout as used in the MARS simulator, with the caller's
    /// heap and stack sizes.
    pub fn mars(heap_size: usize, stack_size: usize) -> (r: MemoryLayout)
        requires
            heap_size >= 1,
            stack_size >= 1,
            0x1008_0000 + heap_size - 1 < 0x7FFF_FFFF - stack_size + 1,
        ensures
            r.wf(),
            r.text_low == 0x0040_0000,
            r.data_low == 0x1001_0000,
            r.heap_low == 0x1008_0000,
            r.mmio_high == 0xFFFF_0000,
            r.stack_high == 0x7FFF_FFFF,
            r.heap_size == heap_size,
            r.stack_size == stack_size,
    {
        MemoryLayout {
            text_low: 0x0040_0000,
            data_low: 0x1001_0000,
            heap_low: 0x1008_0000,
            mmio_high: 0xFFFF_0000,
            stack_high: 0x7FFF_FFFF,
            heap_size,
            stack_size,
        }
    }
}

/// The virtual machine: 32 general-purpose registers with register 0
/// hard-wired to zero, the program counter, the HI/LO accumulators, and the
/// guest memory.
pub struct VM {
    registers: Vec<u32>,
    pub memory: MemoryMap,
    pc: usize,
    hi: u32,
    lo: u32,
}

impl VM {
    /// The register file as a sequence of 32 values.
    pub closed spec fn regs(self) -> Seq<u32> {
        self.registers@
    }

    /// The guest memory.
    pub closed spec fn mem(self) -> MemoryMap {
        self.memory
    }

    /// The program counter.
    pub closed spec fn spec_pc(self) -> usize {
        self.pc
    }

    /// The HI accumulator.
    pub closed spec fn spec_hi(self) -> u32 {
        self.hi
    }

    /// The LO accumulator.
    pub closed spec fn spec_lo(self) -> u32 {
        self.lo
    }

    /// Exactly 32 registers with register 0 reading zero, a well-formed
    /// memory map, and a program counter within the 32-bit address space.
    pub open spec fn wf(self) -> bool {
        &&& self.regs().len() == 32
        &&& self.regs()[0] == 0
        &&& self.mem().wf()
        &&& self.spec_pc() <= 0xFFFF_FFFF
    }

    /// Everything but the register file coincides.
    pub open spec fn same_but_regs(self, other: VM) -> bool {
        &&& self.mem() == other.mem()
        &&& self.spec_pc() == other.spec_pc()
        &&& self.spec_hi() == other.spec_hi()
        &&& self.spec_lo() == other.spec_lo()
    }

    /// Register 0 is hard-wired to zero: in any well-formed machine it reads
    /// zero, however many writes were attempted, because every write to it is
    /// rejected and every accepted write targets an index of at least 1.
    pub proof fn lemma_zero_register(vm: VM)
        requires
            vm.wf(),
        ensures
            vm.regs()[0] == 0,
    {
    }

    /// Construct a machine over the given layout: zeroed registers and
    /// accumulators, the program counter at the low text address, and the
    /// five segments of the layout, `text` and `data` initially sealed
    /// against writes.
    pub fn new(layout: MemoryLayout) -> (r: VM)
        requires
            layout.wf(),
        ensures
            r.wf(),
            r.regs().len() == 32,
            forall|i: int| 0 <= i < 32 ==> r.regs()[i] == 0,
            r.spec_pc() == layout.text_low,
            r.spec_hi() == 0,
            r.spec_lo() == 0,
            r.mem().segs().len() == 5,
            forall|a: int| r.mem().byte_at(a) == 0,
            ({
                let text = r.mem().segs()[0];
                &&& text.spec_name() == "text"@
                &&& text.low() == layout.text_low
                &&& text.high() == layout.data_low - 1
                &&& text.spec_read_only()
                &&& !text.spec_is_static()
            }),
            ({
                let data = r.mem().segs()[1];
                &&& data.spec_name() == "data"@
                &&& data.low() == layout.data_low
                &&& data.high() == layout.heap_low - 1
                &&& data.spec_read_only()
                &&& !data.spec_is_static()
            }),
            ({
                let heap = r.mem().segs()[2];
                &&& heap.spec_name() == "heap"@
                &&& heap.low() == layout.heap_low
                &&& heap.high() == layout.heap_low + layout.heap_size - 1
                &&& !heap.spec_read_only()
                &&& !heap.spec_is_static()
            }),
            ({
                let mmio = r.mem().segs()[3];
                &&& mmio.spec_name() == "mmio"@
                &&& mmio.low() == layout.stack_high + 1
                &&& mmio.high() == layout.mmio_high
                &&& !mmio.spec_read_only()
                &&& !mmio.spec_is_static()
            }),
            ({
                let stack = r.mem().segs()[4];
                &&& stack.spec_name() == "stack"@
                &&& stack.low() == layout.stack_high - layout.stack_size + 1
                &&& stack.high() == layout.stack_high
                &&& !stack.spec_read_only()
                &&& !stack.spec_is_static()
            }),
    {
        let mut memory = MemoryMap::new();

        let text = MemorySegment::new(
            "text".to_owned(),
            layout.text_low,
            layout.data_low - layout.text_low,
            false,
            SegmentDirection::Up,
            true,
        );
        let res_text = memory.add_segment(text);
        proof {
            assert(res_text is Ok);
        }

        let data = MemorySegment::new(
            "data".to_owned(),
            layout.data_low,
            layout.heap_low - layout.data_low,
            false,
            SegmentDirection::Up,
            true,
        );
        let res_data = memory.add_segment(data);
        proof {
            assert(res_data is Ok);
        }

        let heap = MemorySegment::new(
            "heap".to_owned(),
            layout.heap_low,
            layout.heap_size,
            false,
            SegmentDirection::Up,
            false,
        );
        let res_heap = memory.add_segment(heap);
        proof {
            assert(res_heap is Ok);
        }

        let mmio = MemorySegment::new(
            "mmio".to_owned(),
            layout.mmio_high,
            layout.mmio_high - layout.stack_high,
            false,
            SegmentDirection::Down,
            false,
        );
        let res_mmio = memory.add_segment(mmio);
        proof {
            assert(res_mmio is Ok);
        }

        let stack = MemorySegment::new(
            "stack".to_owned(),
            layout.stack_high,
            layout.stack_size,
            false,
            SegmentDirection::Down,
            false,
        );
        let res_stack = memory.add_segment(stack);
        proof {
            assert(res_stack is Ok);
        }

        let mut registers: Vec<u32> = Vec::new();
        let mut i: usize = 0;
        while i < 32
            invariant
                i <= 32,
                registers@.len() == i,
                forall|j: int| 0 <= j < i ==> registers@[j] == 0,
            decreases 32 - i,
        {
            registers.push(0);
            i = i + 1;
        }

        let vm = VM { registers, memory, pc: layout.text_low, hi: 0, lo: 0 };
        proof {
            assert forall|a: int| vm.mem().byte_at(a) == 0 by {
                if vm.mem().has_addr(a) {
                    let k = vm.mem().seg_index_at(a);
                    vm.mem().lemma_byte_at_via(a, k);
                }
            }
        }
        vm
    }

    /// Write a register. Fails, changing nothing, on register 0 -- which is
    /// write-protected at this boundary -- and on indexes past 31.
    pub fn set_register(&mut self, register: u8, value: u32) -> (r: Result<(), RuntimeError>)
        requires
            old(self).wf(),
        ensures
            final(self).wf(),
            r is Ok <==> 1 <= register <= 31,
            r is Ok ==> final(self).regs() == old(self).regs().update(register as int, value),
            r is Ok ==> final(self).same_but_regs(*old(self)),
            r is Err ==> *final(self) == *old(self) && (r matches Err(e) && e.err_type
                == FatalErrorType::IllegalRegisterAccess),
    {
        if register == 0 {
            return Err(
                RuntimeError::new(
                    FatalErrorType::IllegalRegisterAccess,
                    "attempted to set the zero register".to_owned(),
                ),
            );
        }

        if register > 31 {
            return Err(
                RuntimeError::new(
                    FatalErrorType::IllegalRegisterAccess,
                    "invalid register number".to_owned(),
                ),
            );
        }

        self.registers[register as usize] = value;

        Ok(())
    }

    /// Read a register. Fails on indexes past 31; register 0 reads zero.
    pub fn get_register(&self, register: u8) -> (r: Result<u32, RuntimeError>)
        requires
            self.wf(),
        ensures
            r is Ok <==> register <= 31,
            r matches Ok(v) ==> v == self.regs()[register as int],
            r matches Err(e) ==> e.err_type == FatalErrorType::IllegalRegisterAccess,
    {
        if register > 31 {
            Err(
                RuntimeError::new(
                    FatalErrorType::IllegalRegisterAccess,
                    "invalid register number".to_owned(),
                ),
            )
        } else {
            Ok(self.registers[register as usize])
        }
    }

    /// The memory map, for reading.
    pub fn memory_ref(&self) -> (r: &MemoryMap)
        ensures
            r == self.mem(),
    {
        &self.memory
    }

    /// The memory map, borrowed for mutation; the registers, PC, HI and LO
    /// are untouched, and the machine afterwards holds whatever the caller
    /// leaves behind in the borrowed map.
    pub fn memory_mut(&mut self) -> (r: &mut MemoryMap)
        ensures
            *r == old(self).mem(),
            final(self).mem() == *final(r),
            final(self).regs() == old(self).regs(),
            final(self).spec_pc() == old(self).spec_pc(),
            final(self).spec_hi() == old(self).spec_hi(),
            final(self).spec_lo() == old(self).spec_lo(),
    {
        &mut self.memory
    }

    /// The machine with another program counter; everything else unchanged.
    pub closed spec fn with_pc(self, p: usize) -> VM {
        VM { pc: p, ..self }
    }

    /// What `with_pc` changes and what it keeps.
    pub proof fn lemma_with_pc(self, p: usize)
        ensures
            self.with_pc(p).spec_pc() == p,
            self.with_pc(p).regs() == self.regs(),
            self.with_pc(p).mem() == self.mem(),
            self.with_pc(p).spec_hi() == self.spec_hi(),
            self.with_pc(p).spec_lo() == self.spec_lo(),
            self.wf() && p <= 0xFFFF_FFFF ==> self.with_pc(p).wf(),
    {
    }

    /// The program counter.
    pub fn get_pc(&self) -> (r: usize)
        ensures
            r == self.spec_pc(),
    {
        self.pc
    }

    /// Set the program counter; addresses are 32-bit.
    pub fn set_pc(&mut self, value: usize)
        requires
            value <= 0xFFFF_FFFF,
        ensures
            final(self).spec_pc() == value,
            final(self).regs() == old(self).regs(),
            final(self).mem() == old(self).mem(),
            final(self).spec_hi() == old(self).spec_hi(),
            final(self).spec_lo() == old(self).spec_lo(),
            old(self).wf() ==> final(self).wf(),
    {
        self.pc = value;
    }

    /// The HI accumulator.
    pub fn get_hi(&self) -> (r: u32)
        ensures
            r == self.spec_hi(),
    {
        self.hi
    }

    /// Set the HI accumulator.
    pub fn set_hi(&mut self, value: u32)
        ensures
            final(self).spec_hi() == value,
            final(self).regs() == old(self).regs(),
            final(self).mem() == old(self).mem(),
            final(self).spec_pc() == old(self).spec_pc(),
            final(self).spec_lo() == old(self).spec_lo(),
            old(self).wf() ==> final(self).wf(),
    {
        self.hi = value;
    }

    /// The LO accumulator.
    pub fn get_lo(&self) -> (r: u32)
        ensures
            r == self.spec_lo(),
    {
        self.lo
    }

    /// Set the LO accumulator.
    pub fn set_lo(&mut self, value: u32)
        ensures
            final(self).spec_lo() == value,
            final(self).regs() == old(self).regs(),
            final(self).mem() == old(self).mem(),
            final(self).spec_pc() == old(self).spec_pc(),
            final(self).spec_hi() == old(self).spec_hi(),
            old(self).wf() ==> final(self).wf(),
    {
        self.lo = value;
    }
}

} // verus!
