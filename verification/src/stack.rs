use vstd::prelude::*;
use crate::errors::VmError;

verus! {

/// Capacity of the call stack: at most sixteen pending returns.
pub const STACK_DEPTH: usize = 16;

/// The bounded stack of 16-bit return addresses: pushed on CALL, popped on
/// RETURN, never deeper than `STACK_DEPTH`.
pub struct CallStack {
    entries: Vec<u16>,
}

impl View for CallStack {
    type V = Seq<u16>;

    closed spec fn view(&self) -> Seq<u16> {
        self.entries@
    }
}

impl CallStack {
    pub open spec fn wf(&self) -> bool {
        self@.len() <= STACK_DEPTH
    }

    /// Fresh, empty call stack.
    pub fn new() -> (s: CallStack)
        ensures
            s.wf(),
            s@ == Seq::<u16>::empty(),
    {
        let s = CallStack { entries: Vec::new() };
        proof {
            assert(s@ =~= Seq::<u16>::empty());
        }
        s
    }

    /// How many return addresses are pending.
    pub fn len(&self) -> (n: usize)
        ensures
            n == self@.len(),
    {
        self.entries.len()
    }

    /// Push a return address; `StackOverflow` when the stack is already full,
    /// with the stack unchanged.
    pub fn push(&mut self, addr: u16) -> (r: Result<(), VmError>)
        requires
            old(self).wf(),
        ensures
            final(self).wf(),
            old(self)@.len() < STACK_DEPTH ==> r == Ok::<(), VmError>(()) && final(self)@ == old(
                self,
            )@.push(addr),
            old(self)@.len() >= STACK_DEPTH ==> r == Err::<(), VmError>(VmError::StackOverflow)
                && final(self)@ == old(self)@,
    {
        if self.entries.len() < STACK_DEPTH {
            self.entries.push(addr);
            Ok(())
        } else {
            Err(VmError::StackOverflow)
        }
    }

    /// Pop the most recent return address; `StackUnderflow` when the stack is
    /// empty, with the stack unchanged.
    pub fn pop(&mut self) -> (r: Result<u16, VmError>)
        requires
            old(self).wf(),
        ensures
            final(self).wf(),
            old(self)@.len() > 0 ==> r == Ok::<u16, VmError>(old(self)@.last()) && final(self)@
                == old(self)@.drop_last(),
            old(self)@.len() == 0 ==> r == Err::<u16, VmError>(VmError::StackUnderflow)
                && final(self)@ == old(self)@,
    {
        match self.entries.pop() {
            Some(addr) => Ok(addr),
            None => Err(VmError::StackUnderflow),
        }
    }
}

} // verus!
