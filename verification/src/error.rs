//! The error taxonomy shared by the lexer, the parser and the generator.

use vstd::prelude::*;

verus! {

/// What a parse function was looking for when it met the wrong token.
/// Each variant stands for one diagnostic context of the parser or the
/// generator.
#[derive(Debug, Clone, Copy, PartialEq, Eq)]
pub enum Expected {
    /// A specific token (punctuation or keyword) was required.
    Token,
    /// An identifier was required.
    Identifier,
    /// A function name (identifier, `binary` or `unary`) was required.
    FunctionName,
    /// An operator character was required after `binary` or `unary`.
    Operator,
    /// Any expression was required.
    Expression,
    /// The left side of an assignment must be a bare variable name.
    VariableName,
}

/// Every failure the front end can report.
///
/// There is no input/output variant: reading the source belongs to the
/// caller, and the library only ever works on in-memory bytes.  Backend
/// failures are likewise out of scope: lowering the syntax tree into the
/// backend is driven by the embedding program, and the library itself
/// never calls the backend.
///
/// The semantic variants (`UndefinedVariable`, `UndefinedFunction`,
/// `WrongArgumentCount`, `FunctionRedef`,
/// `FunctionRedefWithDifferentParams`) belong to that lowering step; the
/// lexer and the parser never produce them, and a driver that lowers the
/// tree reports its name-resolution and arity failures through them.
#[derive(Debug, Clone, PartialEq, Eq)]
pub enum Error {
    /// A name was re-declared; reserved, never produced (see above).
    FunctionRedef,
    /// A name was re-declared with a different number of parameters.
    FunctionRedefWithDifferentParams,
    /// A numeric literal had a dot not followed by digits, or a second dot.
    MalformedNumber,
    /// A custom binary operator was used before any `binary` prototype
    /// registered its precedence.
    UndefinedOperator,
    /// A variable name was read or assigned while not bound in scope.
    UndefinedVariable(Vec<u8>),
    /// A called function name was never declared.
    UndefinedFunction(Vec<u8>),
    /// The lexer met a byte that starts no token.
    UnknownChar(u8),
    /// A token of the wrong kind appeared; the payload says what was needed.
    Unexpected(Expected),
    /// A call passed a number of arguments different from the callee's
    /// parameter count.
    WrongArgumentCount,
}

/// Ghost mirror of `Error`, with mathematical sequences for the names.
pub enum ErrorS {
    FunctionRedef,
    FunctionRedefWithDifferentParams,
    MalformedNumber,
    UndefinedOperator,
    UndefinedVariable(Seq<u8>),
    UndefinedFunction(Seq<u8>),
    UnknownChar(u8),
    Unexpected(Expected),
    WrongArgumentCount,
}

impl View for Error {
    type V = ErrorS;

    open spec fn view(&self) -> ErrorS {
        match self {
            Error::FunctionRedef => ErrorS::FunctionRedef,
            Error::FunctionRedefWithDifferentParams => ErrorS::FunctionRedefWithDifferentParams,
            Error::MalformedNumber => ErrorS::MalformedNumber,
            Error::UndefinedOperator => ErrorS::UndefinedOperator,
            Error::UndefinedVariable(n) => ErrorS::UndefinedVariable(n@),
            Error::UndefinedFunction(n) => ErrorS::UndefinedFunction(n@),
            Error::UnknownChar(b) => ErrorS::UnknownChar(*b),
            Error::Unexpected(x) => ErrorS::Unexpected(*x),
            Error::WrongArgumentCount => ErrorS::WrongArgumentCount,
        }
    }
}

} // verus!
