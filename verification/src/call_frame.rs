//! A call frame is a fixed-capacity register window together with a
//! tracked top of stack, the highest register ever written plus one,
//! which variadic call and return consult.

use vstd::prelude::*;

use crate::object::{Value, ValueModel};

verus! {

pub struct CallFrame {
    frame: Vec<Value>,
    /// When a call or return names no explicit count, the arguments or
    /// results run from a given register to this mark.
    top_stack: usize,
}

impl View for CallFrame {
    type V = Seq<ValueModel>;

    closed spec fn view(&self) -> Seq<ValueModel> {
        self.frame.deep_view()
    }
}

impl CallFrame {
    /// The tracked top of stack.
    pub closed spec fn spec_top(&self) -> usize {
        self.top_stack
    }

    /// The top of stack never passes the capacity of the window.
    pub open spec fn wf(&self) -> bool {
        self.spec_top() <= self@.len()
    }

    /// A fresh window of `n` registers, all nil, with the top at zero.
    pub fn with_capacity(n: u8) -> (r: CallFrame)
        ensures
            r@ == Seq::new(n as nat, |i: int| ValueModel::Nil),
            r.spec_top() == 0,
            r.wf(),
    {
        let mut frame: Vec<Value> = Vec::new();
        let mut i: usize = 0;
        while i < n as usize
            invariant
                i <= n as usize,
                frame@.len() == i,
                forall|j: int| 0 <= j < i ==> frame@[j] == Value::Nil,
            decreases n as usize - i,
        {
            frame.push(Value::Nil);
            i = i + 1;
        }
        proof {
            assert(frame.deep_view() =~= Seq::new(n as nat, |j: int| ValueModel::Nil));
        }
        CallFrame { frame, top_stack: 0 }
    }

    /// Writes register `index` and raises the top to `index + 1` when the
    /// write lands at or above it.
    pub fn store(&mut self, index: usize, v: Value)
        requires
            index < old(self)@.len(),
            old(self).wf(),
        ensures
            final(self)@ == old(self)@.update(index as int, v@),
            final(self).spec_top() == if index >= old(self).spec_top() {
                index + 1
            } else {
                old(self).spec_top() as int
            },
            final(self).wf(),
    {
        let cap = self.frame.len();
        if index >= self.top_stack {
            self.top_stack = index + 1;
        }
        self.frame.set(index, v);
        proof {
            assert(self.frame.deep_view() =~= old(self).frame.deep_view().update(
                index as int,
                v@,
            ));
        }
    }

    /// Reads register `index`; the top does not move.
    pub fn load(&self, index: usize) -> (r: Value)
        requires
            index < self@.len(),
        ensures
            r@ == self@[index as int],
    {
        self.frame[index].clone()
    }

    /// Copies register `b` into register `a` without touching the top.
    pub fn move_register(&mut self, a: usize, b: usize)
        requires
            a < old(self)@.len(),
            b < old(self)@.len(),
        ensures
            final(self)@ == old(self)@.update(a as int, old(self)@[b as int]),
            final(self).spec_top() == old(self).spec_top(),
    {
        let register_b = self.load(b);
        self.frame.set(a, register_b);
        proof {
            assert(self.frame.deep_view() =~= old(self).frame.deep_view().update(
                a as int,
                old(self)@[b as int],
            ));
        }
    }

    /// The current top of stack.
    pub fn len(&self) -> (r: usize)
        ensures
            r == self.spec_top(),
    {
        self.top_stack
    }

    /// The capacity of the register window.
    pub fn capacity(&self) -> (r: usize)
        ensures
            r == self@.len(),
    {
        self.frame.len()
    }

    /// Moves the top of stack, as the call protocol does when it pops the
    /// arguments of a finished call.
    pub fn set_length(&mut self, size: usize)
        requires
            size <= old(self)@.len(),
        ensures
            final(self)@ == old(self)@,
            final(self).spec_top() == size,
            final(self).wf(),
    {
        self.top_stack = size;
    }
}

} // verus!
