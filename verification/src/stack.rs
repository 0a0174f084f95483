//! The call stack: an ordered sequence of return addresses.
//!
//! Popping from an empty stack is a defined, recoverable condition: it
//! yields the safe fallback address 0 and leaves the stack unchanged.

use vstd::prelude::*;

verus! {

pub struct Stack {
    vec: Vec<usize>,
}

impl View for Stack {
    type V = Seq<usize>;

    closed spec fn view(&self) -> Seq<usize> {
        self.vec@
    }
}

impl Stack {
    pub fn new() -> (s: Stack)
        ensures
            s@ == Seq::<usize>::empty(),
    {
        Stack { vec: Vec::new() }
    }

    pub fn push(&mut self, val: usize)
        ensures
            final(self)@ == old(self)@.push(val),
    {
        self.vec.push(val);
    }

    /// Removes and returns the most recently pushed address; on an empty
    /// stack it returns the fallback address 0 and changes nothing.
    pub fn pop(&mut self) -> (r: usize)
        ensures
            old(self)@.len() > 0 ==> r == old(self)@.last()
                && final(self)@ == old(self)@.drop_last(),
            old(self)@.len() == 0 ==> r == 0 && final(self)@ == old(self)@,
    {
        match self.vec.pop() {
            Some(val) => val,
            None => 0,
        }
    }
}

} // verus!
