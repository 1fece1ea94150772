//! The failures the interpreter can report.

use vstd::prelude::*;

verus! {

/// A failure of the interpreter.
///
/// Every failure is recovered at the point where it is detected: the
/// instruction or definition at hand is abandoned and processing goes on.
#[derive(Debug, PartialEq)]
pub enum ForthError {
    /// A value was taken from an empty stack.
    StackUnderflow,
    /// A value was pushed onto a stack that is at capacity.
    StackOverflow,
    /// A definition was malformed or named by a number.
    InvalidWord,
    /// The divisor of a division was zero.
    DivisionByZero,
    /// A word was called that the dictionary does not hold.
    UnknownWord,
    /// The program was started with arguments it does not understand.
    WrongInput,
    /// A failure of the environment, with its description.
    Generic(String),
}

impl ForthError {
    /// The short tag under which the failure is shown.
    pub open spec fn tag(&self) -> Seq<char> {
        match self {
            ForthError::StackUnderflow => "stack-underflow"@,
            ForthError::StackOverflow => "stack-overflow"@,
            ForthError::InvalidWord => "invalid-word"@,
            ForthError::DivisionByZero => "division-by-zero"@,
            ForthError::UnknownWord => "?"@,
            ForthError::WrongInput => "wrong-input. Try executing with format: cargo run -- path/to/main.fth stack-size=[size_of_stack]"@,
            ForthError::Generic(value) => "[ERROR]: "@ + value@,
        }
    }

    /// Renders the failure as the text shown to the user.
    pub fn message(&self) -> (text: String)
        ensures
            text@ == self.tag(),
    {
        match self {
            ForthError::StackUnderflow => String::from_str("stack-underflow"),
            ForthError::StackOverflow => String::from_str("stack-overflow"),
            ForthError::InvalidWord => String::from_str("invalid-word"),
            ForthError::DivisionByZero => String::from_str("division-by-zero"),
            ForthError::UnknownWord => String::from_str("?"),
            ForthError::WrongInput => String::from_str(
                "wrong-input. Try executing with format: cargo run -- path/to/main.fth stack-size=[size_of_stack]",
            ),
            ForthError::Generic(value) => String::from_str("[ERROR]: ").concat(value.as_str()),
        }
    }
}

} // verus!
