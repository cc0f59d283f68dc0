//! The call stack: return addresses of up to 16 nested subroutines.

use crate::error::Fault;
use vstd::prelude::*;

verus! {

/// A bounded stack of return addresses. Its view is the sequence of the
/// addresses it holds, the one pushed last at the end.
pub struct Stack {
    /// The number of addresses held: the index of the next free slot.
    stack_pointer: u8,
    stack: [u16; 16],
}

impl View for Stack {
    type V = Seq<u16>;

    closed spec fn view(&self) -> Seq<u16> {
        self.stack@.subrange(0, self.stack_pointer as int)
    }
}

impl Stack {
    /// The number of addresses the stack can hold.
    pub const CAPACITY: usize = 16;

    /// The stack holds no more addresses than it has slots.
    pub closed spec fn wf(&self) -> bool {
        self.stack_pointer <= 16
    }

    /// A stack never holds more addresses than its capacity.
    pub proof fn lemma_bounded(&self)
        requires
            self.wf(),
        ensures
            self@.len() <= 16,
    {
    }

    /// Puts an address on top of the stack. A full stack refuses it.
    pub fn push(&mut self, val: u16) -> (result: Result<(), Fault>)
        requires
            old(self).wf(),
        ensures
            final(self).wf(),
            old(self)@.len() < 16 ==> result == Ok::<(), Fault>(()) && final(self)@ == old(self)@.push(val),
            old(self)@.len() >= 16 ==> result == Err::<(), Fault>(Fault::StackOverflow) && final(self)@
                == old(self)@,
    {
        if self.stack_pointer >= 16 {
            return Err(Fault::StackOverflow);
        }
        self.stack[self.stack_pointer as usize] = val;
        self.stack_pointer += 1;
        assert(self@ =~= old(self)@.push(val));
        Ok(())
    }

    /// Takes the address on top of the stack off it. An empty stack has none.
    pub fn pull(&mut self) -> (result: Result<u16, Fault>)
        requires
            old(self).wf(),
        ensures
            final(self).wf(),
            old(self)@.len() > 0 ==> result == Ok::<u16, Fault>(old(self)@.last()) && final(self)@ == old(
                self,
            )@.drop_last(),
            old(self)@.len() == 0 ==> result == Err::<u16, Fault>(Fault::StackUnderflow) && final(self)@
                == old(self)@,
    {
        if self.stack_pointer == 0 {
            return Err(Fault::StackUnderflow);
        }
        self.stack_pointer -= 1;
        assert(self@ =~= old(self)@.drop_last());
        Ok(self.stack[self.stack_pointer as usize])
    }

    /// The number of addresses on the stack.
    pub fn len(&self) -> (len: usize)
        requires
            self.wf(),
        ensures
            len == self@.len(),
            len <= 16,
    {
        self.stack_pointer as usize
    }
}

impl Default for Stack {
    fn default() -> (stack: Stack)
        ensures
            stack.wf(),
            stack@ == Seq::<u16>::empty(),
    {
        let stack = Stack { stack_pointer: 0, stack: [0;16] };
        assert(stack@ =~= Seq::<u16>::empty());
        stack
    }
}

/// The stack is a LIFO: what was pushed last is pulled first, and a push
/// followed by a pull leaves the stack as it was.
pub proof fn lemma_push_then_pull(stack: Seq<u16>, address: u16)
    ensures
        stack.push(address).last() == address,
        stack.push(address).drop_last() == stack,
{
    assert(stack.push(address).drop_last() =~= stack);
}

} // verus!
