//! An 8-bit register cell with a debug label.

use vstd::prelude::*;

verus! {

/// One 8-bit register. The label names the register in debug output and has
/// no effect on behaviour.
pub struct ByteRegister {
    pub value: u8,
    pub name: String,
}

impl ByteRegister {
    /// A fresh register holding zero.
    pub fn new(name: String) -> (r: ByteRegister)
        ensures
            r.value == 0,
    {
        ByteRegister { value: 0, name }
    }

    /// The current contents.
    pub fn read_reg(&self) -> (r: u8)
        ensures
            r == self.value,
    {
        self.value
    }

    /// Overwrite the contents.
    pub fn write_reg(&mut self, val: u8)
        ensures
            final(self).value == val,
    {
        self.value = val;
    }

    /// Add one; the register must not already hold its maximum.
    pub fn increment_reg(&mut self)
        requires
            old(self).value < 0xFF,
        ensures
            final(self).value == old(self).value + 1,
    {
        self.value = self.value + 1;
    }

    /// Subtract one; the register must not hold zero.
    pub fn decrement_reg(&mut self)
        requires
            old(self).value > 0,
        ensures
            final(self).value == old(self).value - 1,
    {
        self.value = self.value - 1;
    }
}

} // verus!
