use vstd::prelude::*;

use crate::error::Chip8Error;

verus! {

/// How many return addresses the stack can hold.
pub const STACK_DEPTH: usize = 256;

/// A bounded LIFO of 16-bit return addresses.
pub struct Stack {
    data: [u16; 256],
    index: usize,
}

impl View for Stack {
    type V = Seq<u16>;

    /// The addresses on the stack, oldest first.
    closed spec fn view(&self) -> Seq<u16> {
        self.data@.subrange(0, self.index as int)
    }
}

impl Stack {
    /// The cursor never runs past the end of the storage.
    pub closed spec fn wf(&self) -> bool {
        self.index <= STACK_DEPTH
    }

    /// A well-formed stack never holds more than `STACK_DEPTH` addresses.
    pub proof fn lemma_bounded(&self)
        requires
            self.wf(),
        ensures
            self@.len() <= STACK_DEPTH,
    {
    }

    pub fn new() -> (r: Self)
        ensures
            r.wf(),
            r@ == Seq::<u16>::empty(),
    {
        let r = Stack { data: [0; 256], index: 0 };
        assert(r@ =~= Seq::<u16>::empty());
        r
    }

    /// Number of addresses currently held.
    pub fn depth(&self) -> (r: usize)
        requires
            self.wf(),
        ensures
            r == self@.len(),
            r <= STACK_DEPTH,
    {
        self.index
    }

    /// Pushes `val`; fails without change when all slots are taken.
    pub fn push(&mut self, val: u16) -> (r: Result<(), Chip8Error>)
        requires
            old(self).wf(),
        ensures
            final(self).wf(),
            old(self)@.len() < STACK_DEPTH ==> r is Ok && final(self)@ == old(self)@.push(val),
            old(self)@.len() >= STACK_DEPTH ==> r == Err::<(), Chip8Error>(
                Chip8Error::StackOverflow,
            ) && final(self)@ == old(self)@,
    {
        if self.index >= STACK_DEPTH {
            return Err(Chip8Error::StackOverflow);
        }
        self.data[self.index] = val;
        self.index = self.index + 1;
        assert(self@ =~= old(self)@.push(val));
        Ok(())
    }

    /// Pops the most recent address; fails without change when empty.
    pub fn pop(&mut self) -> (r: Result<u16, Chip8Error>)
        requires
            old(self).wf(),
        ensures
            final(self).wf(),
            old(self)@.len() > 0 ==> r == Ok::<u16, Chip8Error>(old(self)@.last())
                && final(self)@ == old(self)@.drop_last(),
            old(self)@.len() == 0 ==> r == Err::<u16, Chip8Error>(Chip8Error::StackUnderflow)
                && final(self)@ == old(self)@,
    {
        if self.index == 0 {
            return Err(Chip8Error::StackUnderflow);
        }
        self.index = self.index - 1;
        let value = self.data[self.index];
        self.data[self.index] = 0;
        assert(self@ =~= old(self)@.drop_last());
        Ok(value)
    }
}

} // verus!
