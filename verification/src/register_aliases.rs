//! Accessors for registers with conventional names: the global pointer,
//! stack pointer, frame pointer and return address.

use vstd::prelude::*;

use crate::vm::VM;

verus! {

impl VM {
    /// The global pointer, register 28.
    pub fn get_gp(&self) -> (r: u32)
        requires
            self.wf(),
        ensures
            r == self.regs()[28],
    {
        match self.get_register(28) {
            Ok(v) => v,
            Err(_) => vstd::pervasive::unreached(),
        }
    }

    /// Set the global pointer, register 28.
    pub fn set_gp(&mut self, value: u32)
        requires
            old(self).wf(),
        ensures
            final(self).wf(),
            final(self).regs() == old(self).regs().update(28, value),
            final(self).same_but_regs(*old(self)),
    {
        let _ = self.set_register(28, value);
    }

    /// The stack pointer, register 29.
    pub fn get_sp(&self) -> (r: u32)
        requires
            self.wf(),
        ensures
            r == self.regs()[29],
    {
        match self.get_register(29) {
            Ok(v) => v,
            Err(_) => vstd::pervasive::unreached(),
        }
    }

    /// Set the stack pointer, register 29.
    pub fn set_sp(&mut self, value: u32)
        requires
            old(self).wf(),
        ensures
            final(self).wf(),
            final(self).regs() == old(self).regs().update(29, value),
            final(self).same_but_regs(*old(self)),
    {
        let _ = self.set_register(29, value);
    }

    /// The frame pointer, register 30.
    pub fn get_fp(&self) -> (r: u32)
        requires
            self.wf(),
        ensures
            r == self.regs()[30],
    {
        match self.get_register(30) {
            Ok(v) => v,
            Err(_) => vstd::pervasive::unreached(),
        }
    }

    /// Set the frame pointer, register 30.
    pub fn set_fp(&mut self, value: u32)
        requires
            old(self).wf(),
        ensures
            final(self).wf(),
            final(self).regs() == old(self).regs().update(30, value),
            final(self).same_but_regs(*old(self)),
    {
        let _ = self.set_register(30, value);
    }

    /// The return address, register 31.
    pub fn get_ra(&self) -> (r: u32)
        requires
            self.wf(),
        ensures
            r == self.regs()[31],
    {
        match self.get_register(31) {
            Ok(v) => v,
            Err(_) => vstd::pervasive::unreached(),
        }
    }

    /// Set the return address, register 31.
    pub fn set_ra(&mut self, value: u32)
        requires
            old(self).wf(),
        ensures
            final(self).wf(),
            final(self).regs() == old(self).regs().update(31, value),
            final(self).same_but_regs(*old(self)),
    {
        let _ = self.set_register(31, value);
    }
}

} // verus!
