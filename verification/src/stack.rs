//! A generic LIFO stack, the container that holds the live scenes.
//!
//! The element most recently pushed is the top; only the top scene is active.
//! `replace` swaps the top element for a new one without changing the depth,
//! except on an empty stack, where it simply pushes.

use vstd::prelude::*;

verus! {

pub struct Stack<T> {
    stack: Vec<T>,
}

impl<T> View for Stack<T> {
    type V = Seq<T>;

    closed spec fn view(&self) -> Seq<T> {
        self.stack@
    }
}

impl<T> Stack<T> {
    pub fn new() -> (s: Self)
        ensures
            s@ == Seq::<T>::empty(),
    {
        Stack { stack: Vec::new() }
    }

    pub fn push(&mut self, new: T)
        ensures
            final(self)@ == old(self)@.push(new),
    {
        self.stack.push(new);
    }

    pub fn pop(&mut self) -> (r: Option<T>)
        ensures
            old(self)@.len() == 0 ==> r is None && final(self)@ == old(self)@,
            old(self)@.len() > 0 ==> r == Some(old(self)@.last())
                && final(self)@ == old(self)@.drop_last(),
    {
        self.stack.pop()
    }

    /// Pops the top element (if any) and pushes `new` in its place. On a
    /// non-empty stack the depth is unchanged and the evicted top is returned;
    /// on an empty stack this acts as a plain `push` and returns `None`.
    pub fn replace(&mut self, new: T) -> (r: Option<T>)
        ensures
            old(self)@.len() == 0 ==> r is None && final(self)@ == old(self)@.push(new),
            old(self)@.len() > 0 ==> r == Some(old(self)@.last())
                && final(self)@ == old(self)@.drop_last().push(new),
            final(self)@.len() == if old(self)@.len() == 0 { 1int } else {
                old(self)@.len() as int
            },
    {
        let out = self.stack.pop();
        self.stack.push(new);
        out
    }

    pub fn peek(&self) -> (r: Option<&T>)
        ensures
            self@.len() == 0 ==> r is None,
            self@.len() > 0 ==> r is Some && *r.unwrap() == self@.last(),
    {
        self.stack.last()
    }

    pub fn peek_mut(&mut self) -> (r: Option<&mut T>)
        ensures
            old(self)@.len() == 0 ==> r is None && final(self)@ == old(self)@,
            old(self)@.len() > 0 ==> r is Some && *r.unwrap() == old(self)@.last()
                && final(self)@ == old(self)@.update(
                old(self)@.len() - 1,
                *final(r.unwrap()),
            ),
    {
        self.stack.last_mut()
    }

    pub fn empty(&self) -> (r: bool)
        ensures
            r == (self@.len() == 0),
    {
        self.stack.len() == 0
    }

    pub fn len(&self) -> (r: usize)
        ensures
            r == self@.len(),
    {
        self.stack.len()
    }
}

/// One abstract stack operation, for stating laws about operation sequences.
pub enum StackOp<T> {
    Push(T),
    Pop,
    Replace(T),
}

/// The stack contents after one operation, mirroring the contracts of
/// `push`, `pop` and `replace`.
pub open spec fn apply_op<T>(s: Seq<T>, op: StackOp<T>) -> Seq<T> {
    match op {
        StackOp::Push(x) => s.push(x),
        StackOp::Pop => if s.len() == 0 {
            s
        } else {
            s.drop_last()
        },
        StackOp::Replace(x) => if s.len() == 0 {
            s.push(x)
        } else {
            s.drop_last().push(x)
        },
    }
}

/// The stack contents after a whole operation sequence, first to last.
pub open spec fn apply_ops<T>(s: Seq<T>, ops: Seq<StackOp<T>>) -> Seq<T>
    decreases ops.len(),
{
    if ops.len() == 0 {
        s
    } else {
        apply_ops(apply_op(s, ops[0]), ops.drop_first())
    }
}

/// The net depth change of an operation sequence: +1 for each push, -1 for
/// each pop of a non-empty stack, +1 for each replace of an empty stack
/// (which acts as a push), 0 otherwise.
pub open spec fn net_count<T>(s: Seq<T>, ops: Seq<StackOp<T>>) -> int
    decreases ops.len(),
{
    if ops.len() == 0 {
        0
    } else {
        (match ops[0] {
            StackOp::Push(_) => 1int,
            StackOp::Pop => if s.len() == 0 {
                0int
            } else {
                -1int
            },
            StackOp::Replace(_) => if s.len() == 0 {
                1int
            } else {
                0int
            },
        }) + net_count(apply_op(s, ops[0]), ops.drop_first())
    }
}

/// For every sequence of push, pop and replace operations, the final depth
/// equals the starting depth plus the net count of the sequence.
pub proof fn law_stack_len<T>(s: Seq<T>, ops: Seq<StackOp<T>>)
    ensures
        apply_ops(s, ops).len() == s.len() + net_count(s, ops),
    decreases ops.len(),
{
    if ops.len() > 0 {
        law_stack_len(apply_op(s, ops[0]), ops.drop_first());
    }
}

} // verus!
