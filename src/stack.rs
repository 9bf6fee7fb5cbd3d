//! The operand stack that sequences expression evaluation.

use vstd::prelude::*;
use crate::ast::Value;
use crate::error::RSLogoError;

verus! {

/// A last-in, first-out stack of values.
#[derive(Debug)]
pub struct Stack {
    items: Vec<Value>,
}

impl View for Stack {
    type V = Seq<Value>;

    closed spec fn view(&self) -> Seq<Value> {
        self.items@
    }
}

impl Stack {
    pub fn new() -> (r: Self)
        ensures
            r@ == Seq::<Value>::empty(),
    {
        Stack { items: Vec::new() }
    }

    pub fn push(&mut self, value: Value)
        ensures
            final(self)@ == old(self)@.push(value),
    {
        self.items.push(value);
    }

    /// Takes the top value off; an empty stack is `StackUnderflow`.
    pub fn pop(&mut self) -> (r: Result<Value, RSLogoError>)
        ensures
            old(self)@.len() == 0 ==> r is Err && r->Err_0 is StackUnderflow && final(self)@ == old(
                self,
            )@,
            old(self)@.len() > 0 ==> r == Ok::<Value, RSLogoError>(old(self)@.last())
                && final(self)@ == old(self)@.drop_last(),
    {
        match self.items.pop() {
            Some(v) => Ok(v),
            None => Err(RSLogoError::StackUnderflow),
        }
    }

    /// The value on top, if any.
    pub fn top(&self) -> (r: Option<&Value>)
        ensures
            self@.len() == 0 ==> r is None,
            self@.len() > 0 ==> r == Some(&self@.last()),
    {
        if self.items.len() == 0 {
            None
        } else {
            Some(&self.items[self.items.len() - 1])
        }
    }

    pub fn len(&self) -> (r: usize)
        ensures
            r == self@.len(),
    {
        self.items.len()
    }
}

} // verus!
