use vstd::prelude::*;
use crate::token::{Span, Token};

verus! {

/// What the parser was looking for when it met an unexpected token.
#[derive(Debug, Clone, PartialEq)]
pub enum Expected {
    Identifier,
    Expression,
    Token(Token),
}

/// The first failure of a compilation; nothing is generated after one.
#[derive(Debug, Clone, PartialEq)]
pub enum CompileError {
    /// A character that starts no token.
    UnexpectedChar { ch: char, span: Span },
    /// A run of digits whose value does not fit in a 32-bit signed integer.
    NumberTooLarge { span: Span },
    /// A token other than the one the grammar requires.
    UnexpectedToken { expected: Expected, found: Token, span: Span },
    /// The left-hand side of `=` is not a bare name; the span is that of the
    /// token after the right-hand side.
    InvalidAssignmentTarget { span: Span },
    /// A name that no enclosing scope declares.
    UndefinedVariable { name: String },
    /// An assignment to a name declared with `const`.
    AssignmentToConstant { name: String },
    /// The counters for generated names or labels ran out.
    TooManyNames,
}

} // verus!
