//! A stack: the container of the function calls that are being translated.

use vstd::prelude::*;

verus! {

/// A stack of elements. The last element of the model is the top of the stack.
pub struct Stack<T> {
    stack: Vec<T>,
}

impl<T> View for Stack<T> {
    type V = Seq<T>;

    closed spec fn view(&self) -> Seq<T> {
        self.stack@
    }
}

impl<T> Stack<T> {
    /// Creates an empty stack.
    pub fn new() -> (stack: Self)
        ensures
            stack@ == Seq::<T>::empty(),
    {
        Stack { stack: Vec::new() }
    }

    /// The number of elements on the stack.
    pub fn len(&self) -> (len: usize)
        ensures
            len == self@.len(),
    {
        self.stack.len()
    }

    /// Tells whether the stack holds no element.
    pub fn is_empty(&self) -> (empty: bool)
        ensures
            empty == (self@.len() == 0),
    {
        self.stack.len() == 0
    }

    /// Puts an element on top of the stack.
    pub fn push(&mut self, element: T)
        ensures
            final(self)@ == old(self)@.push(element),
    {
        self.stack.push(element);
    }

    /// Takes the top element from the stack, if there is one.
    pub fn pop(&mut self) -> (element: Option<T>)
        ensures
            match element {
                Some(top) => old(self)@.len() > 0 && top == old(self)@.last() && final(self)@
                    == old(self)@.drop_last(),
                None => old(self)@.len() == 0 && final(self)@ == old(self)@,
            },
    {
        self.stack.pop()
    }

    /// The top element of the stack, if there is one.
    pub fn peek(&self) -> (element: Option<&T>)
        ensures
            match element {
                Some(top) => self@.len() > 0 && *top == self@.last(),
                None => self@.len() == 0,
            },
    {
        if self.stack.len() == 0 {
            None
        } else {
            Some(&self.stack[self.stack.len() - 1])
        }
    }

    /// The top element of a stack that is not empty.
    pub fn top(&self) -> (element: &T)
        requires
            self@.len() > 0,
        ensures
            *element == self@.last(),
    {
        &self.stack[self.stack.len() - 1]
    }

    /// The top element of a stack that is not empty, to be changed in place.
    pub fn peek_mut(&mut self) -> (element: &mut T)
        requires
            old(self)@.len() > 0,
        ensures
            *element == old(self)@.last(),
            final(self)@ == old(self)@.update(old(self)@.len() - 1, *final(element)),
    {
        let last = self.stack.len() - 1;
        &mut self.stack[last]
    }
}

} // verus!
