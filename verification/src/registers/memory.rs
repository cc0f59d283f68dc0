//! A register that holds a memory address.

use vstd::prelude::*;

verus! {

/// An address register: every value assigned to it is masked with the limit
/// that the register was made with.
pub struct MemoryRegister {
    value: u16,
    memory_limit: u16,
}

impl MemoryRegister {
    /// The address held.
    pub closed spec fn value(&self) -> u16 {
        self.value
    }

    /// The mask that every assigned value goes through.
    pub closed spec fn limit(&self) -> u16 {
        self.memory_limit
    }

    /// The register holds nothing but what passed its mask.
    pub open spec fn wf(&self) -> bool {
        self.value() & self.limit() == self.value()
    }

    pub fn new(memory_limit: u16) -> (register: MemoryRegister)
        ensures
            register.value() == 0,
            register.limit() == memory_limit,
            register.wf(),
    {
        assert(0u16 & memory_limit == 0) by (bit_vector);
        MemoryRegister { value: 0, memory_limit }
    }

    pub fn set(&mut self, value: u16)
        ensures
            final(self).value() == value & old(self).limit(),
            final(self).limit() == old(self).limit(),
            final(self).wf(),
    {
        let limit = self.memory_limit;
        assert((value & limit) & limit == value & limit) by (bit_vector);
        self.value = value & self.memory_limit;
    }

    pub fn get(&self) -> (value: u16)
        ensures
            value == self.value(),
    {
        self.value
    }

    /// The address `value` places after the one held, wrapped to 16 bits and
    /// masked. The register itself stays as it is.
    pub fn add(&self, value: u16) -> (sum: u16)
        ensures
            sum == ((self.value() + value) % 0x1_0000) as u16 & self.limit(),
    {
        (self.value.wrapping_add(value)) & self.memory_limit
    }
}

} // verus!
