//! The bounded stack of numbers on which every instruction works.

use vstd::prelude::*;
use crate::errors::ForthError;
use crate::text::{number_text, number_to_text};

verus! {

/// The size in bytes of a stack for which no size is asked: room for
/// 65536 numbers.
pub const DEFAULT_STACK_SIZE: usize = 131072;

/// A stack of 16-bit numbers that holds at most a fixed count of them.
///
/// The last element of `data` is the top of the stack.
#[derive(Debug)]
pub struct Stack {
    pub data: Vec<i16>,
    max_elements: usize,
}

impl View for Stack {
    type V = Seq<i16>;

    closed spec fn view(&self) -> Seq<i16> {
        self.data@
    }
}

/// What pushing `value` makes of `stack` when at most `capacity` elements fit.
pub open spec fn push_spec(stack: Seq<i16>, capacity: nat, value: i16) -> (Seq<i16>, Result<(), ForthError>) {
    if stack.len() >= capacity {
        (stack, Err(ForthError::StackOverflow))
    } else {
        (stack.push(value), Ok(()))
    }
}

/// What popping makes of `stack`.
pub open spec fn pop_spec(stack: Seq<i16>) -> (Seq<i16>, Result<i16, ForthError>) {
    if stack.len() == 0 {
        (stack, Err(ForthError::StackUnderflow))
    } else {
        (stack.drop_last(), Ok(stack.last()))
    }
}

/// What pushing `values`, one after the other, makes of `stack`: the
/// values go on while there is room, and the first that finds none fails.
pub open spec fn push_all_spec(stack: Seq<i16>, capacity: nat, values: Seq<i16>) -> (
    Seq<i16>,
    Result<(), ForthError>,
) {
    let room = if capacity > stack.len() {
        capacity - stack.len()
    } else {
        0
    };
    if values.len() <= room {
        (stack + values, Ok(()))
    } else {
        (stack + values.take(room), Err(ForthError::StackOverflow))
    }
}

/// The text that lists `numbers` in decimal, the first first, with one
/// space between each two.
pub open spec fn numbers_text(numbers: Seq<i16>) -> Seq<char>
    decreases numbers.len(),
{
    if numbers.len() == 0 {
        Seq::empty()
    } else if numbers.len() == 1 {
        number_text(numbers[0] as int)
    } else {
        numbers_text(numbers.drop_last()) + seq![' '] + number_text(numbers.last() as int)
    }
}

impl Stack {
    /// The greatest number of elements the stack accepts.
    pub closed spec fn capacity(&self) -> nat {
        self.max_elements as nat
    }

    /// The stack holds no more than its capacity.
    pub open spec fn wf(&self) -> bool {
        self@.len() <= self.capacity()
    }

    /// An empty stack for `size` bytes of numbers, two bytes each.
    pub fn new(size: usize) -> (stack: Self)
        ensures
            stack@ == Seq::<i16>::empty(),
            stack.capacity() == size as nat / 2,
            stack.wf(),
    {
        let max_elements = size / 2;
        Stack { data: Vec::new(), max_elements }
    }

    /// Puts `value` on top, or fails with `StackOverflow` and leaves the
    /// stack as it was when it is at capacity.
    pub fn push(&mut self, value: i16) -> (result: Result<(), ForthError>)
        ensures
            final(self).capacity() == old(self).capacity(),
            (final(self)@, result) == push_spec(old(self)@, old(self).capacity(), value),
            old(self).wf() ==> final(self).wf(),
    {
        if self.data.len() >= self.max_elements {
            Err(ForthError::StackOverflow)
        } else {
            self.data.push(value);
            Ok(())
        }
    }

    /// Takes the top value off, or fails with `StackUnderflow` on an
    /// empty stack.
    pub fn pop(&mut self) -> (result: Result<i16, ForthError>)
        ensures
            final(self).capacity() == old(self).capacity(),
            (final(self)@, result) == pop_spec(old(self)@),
            old(self).wf() ==> final(self).wf(),
    {
        match self.data.pop() {
            Some(value) => Ok(value),
            None => Err(ForthError::StackUnderflow),
        }
    }

    /// Lists the numbers on the stack in decimal, the top last, with one
    /// space between each two.
    pub fn render(&self) -> (text: String)
        ensures
            text@ == numbers_text(self@),
    {
        let mut text = String::new();
        let mut i: usize = 0;
        assert(self@.take(0) =~= Seq::<i16>::empty());
        while i < self.data.len()
            invariant
                i <= self@.len(),
                text@ == numbers_text(self@.take(i as int)),
            decreases self@.len() - i,
        {
            let ghost listed = self@.take(i as int);
            let ghost longer = self@.take(i + 1);
            assert(longer.drop_last() =~= listed);
            assert(longer.last() == self@[i as int]);
            if i > 0 {
                text.append(" ");
                proof {
                    reveal_strlit(" ");
                    assert(" "@ =~= seq![' ']);
                }
            }
            let number = number_to_text(self.data[i]);
            text.append(number.as_str());
            assert(text@ =~= numbers_text(longer));
            i += 1;
        }
        assert(self@.take(i as int) =~= self@);
        text
    }

    /// Looks at the top value without taking it, or fails with
    /// `StackUnderflow` on an empty stack.
    pub fn peek(&self) -> (result: Result<&i16, ForthError>)
        ensures
            self@.len() == 0 ==> result == Err::<&i16, ForthError>(ForthError::StackUnderflow),
            self@.len() > 0 ==> result == Ok::<&i16, ForthError>(&self@.last()),
    {
        let n = self.data.len();
        if n == 0 {
            Err(ForthError::StackUnderflow)
        } else {
            Ok(&self.data[n - 1])
        }
    }
}

} // verus!
