//! A 16-bit register cell with a debug label.

use vstd::prelude::*;

verus! {

/// One 16-bit register. The label names the register in debug output and has
/// no effect on behaviour.
pub struct WordRegister {
    pub value: u16,
    pub name: String,
}

impl WordRegister {
    /// A fresh register holding zero.
    pub fn new(name: String) -> (r: WordRegister)
        ensures
            r.value == 0,
    {
        WordRegister { value: 0, name }
    }

    /// The current contents.
    pub fn read_reg(&self) -> (r: u16)
        ensures
            r == self.value,
    {
        self.value
    }

    /// Overwrite the contents.
    pub fn write_reg(&mut self, val: u16)
        ensures
            final(self).value == val,
    {
        self.value = val;
    }

    /// Add one; the register must not already hold its maximum.
    pub fn increment_reg(&mut self)
        requires
            old(self).value < 0xFFFF,
        ensures
            final(self).value == old(self).value + 1,
    {
        self.value = self.value + 1;
    }

    /// Subtract one; the register must not hold zero.
    pub fn decrement_reg(&mut self)
        requires
            old(self).value > 0,
        ensures
            final(self).value == old(self).value - 1,
    {
        self.value = self.value - 1;
    }

    /// Advance past one 16-bit instruction (two bytes).
    pub fn next_instruction(&mut self)
        requires
            old(self).value + 2 <= 0xFFFF,
        ensures
            final(self).value == old(self).value + 2,
    {
        self.value = self.value + 2;
    }

    /// Step back one 16-bit instruction (two bytes).
    pub fn wait_instruction(&mut self)
        requires
            old(self).value >= 2,
        ensures
            final(self).value == old(self).value - 2,
    {
        self.value = self.value - 2;
    }
}

} // verus!
