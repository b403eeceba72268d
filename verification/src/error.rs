//! Error values for the three stages of the interpreter: lexing, tree
//! building, and execution.  Every error is fatal to the run that raised
//! it; each variant carries the context needed to diagnose the fault.
use vstd::prelude::*;
use crate::number::NumKind;

verus! {

/// A lexing failure, raised while turning source text into tokens.
#[derive(Debug, Clone, PartialEq)]
pub enum LexError {
    /// The input ended inside a string literal.
    UnterminatedString,
    /// The input ended inside a comment.
    UnterminatedComment,
    /// A kind-prefixed numeric literal whose digits do not parse as, or do
    /// not fit, the named kind; carries the offending word.
    BadNumber(String),
    /// A word shaped like a floating-point literal.  This interpreter's
    /// number model covers the ten integer kinds only, so such literals
    /// are rejected rather than silently re-read as identifiers.
    FloatUnsupported(String),
}

/// Mathematical model of a `LexError`.
pub enum LexErrorV {
    UnterminatedString,
    UnterminatedComment,
    BadNumber(Seq<char>),
    FloatUnsupported(Seq<char>),
}

impl View for LexError {
    type V = LexErrorV;

    open spec fn view(&self) -> LexErrorV {
        match self {
            LexError::UnterminatedString => LexErrorV::UnterminatedString,
            LexError::UnterminatedComment => LexErrorV::UnterminatedComment,
            LexError::BadNumber(w) => LexErrorV::BadNumber(w@),
            LexError::FloatUnsupported(w) => LexErrorV::FloatUnsupported(w@),
        }
    }
}

/// A tree-building failure: the token sequence has unbalanced brackets.
#[derive(Debug, Clone, PartialEq, Eq, Structural)]
pub enum ParseError {
    /// A closing bracket with no group open.
    StrayClose,
    /// The tokens ended with a group still open.
    UnclosedBracket,
}

/// An execution failure, raised while walking the syntax tree.
#[derive(Debug, Clone, PartialEq)]
pub enum RuntimeError {
    /// A value was needed from an empty stack.
    StackEmpty,
    /// An operand had the wrong runtime type.
    WrongType,
    /// Arithmetic between two numbers of different kinds.
    KindMismatch(NumKind, NumKind),
    /// Arithmetic whose result does not fit the operands' kind.
    Overflow(NumKind),
    /// Integer division or remainder by zero.
    DivideByZero,
    /// A `take` index at or beyond the stack depth.
    IndexOutOfRange,
    /// An identifier bound neither as a builtin nor as a name.
    UnknownWord(String),
    /// A cast target naming no supported numeric kind.
    UnknownKind(String),
    /// A cast whose value does not fit the target kind.
    CastOutOfRange(NumKind, NumKind),
    /// A bracket token met inside an already built tree.
    StrayBracket,
    /// Nested invocations went past the interpreter's recursion limit.
    DepthExceeded,
}

/// Mathematical model of a `RuntimeError`.
pub enum RuntimeErrorV {
    StackEmpty,
    WrongType,
    KindMismatch(NumKind, NumKind),
    Overflow(NumKind),
    DivideByZero,
    IndexOutOfRange,
    UnknownWord(Seq<char>),
    UnknownKind(Seq<char>),
    CastOutOfRange(NumKind, NumKind),
    StrayBracket,
    DepthExceeded,
}

impl View for RuntimeError {
    type V = RuntimeErrorV;

    open spec fn view(&self) -> RuntimeErrorV {
        match self {
            RuntimeError::StackEmpty => RuntimeErrorV::StackEmpty,
            RuntimeError::WrongType => RuntimeErrorV::WrongType,
            RuntimeError::KindMismatch(a, b) => RuntimeErrorV::KindMismatch(*a, *b),
            RuntimeError::Overflow(k) => RuntimeErrorV::Overflow(*k),
            RuntimeError::DivideByZero => RuntimeErrorV::DivideByZero,
            RuntimeError::IndexOutOfRange => RuntimeErrorV::IndexOutOfRange,
            RuntimeError::UnknownWord(w) => RuntimeErrorV::UnknownWord(w@),
            RuntimeError::UnknownKind(w) => RuntimeErrorV::UnknownKind(w@),
            RuntimeError::CastOutOfRange(a, b) => RuntimeErrorV::CastOutOfRange(*a, *b),
            RuntimeError::StrayBracket => RuntimeErrorV::StrayBracket,
            RuntimeError::DepthExceeded => RuntimeErrorV::DepthExceeded,
        }
    }
}

/// A failure anywhere in the pipeline: lexing, tree building, or
/// execution.
#[derive(Debug, Clone, PartialEq)]
pub enum InterpError {
    Lex(LexError),
    Parse(ParseError),
    Runtime(RuntimeError),
}

/// Mathematical model of an `InterpError`.
pub enum InterpErrorV {
    Lex(LexErrorV),
    Parse(ParseError),
    Runtime(RuntimeErrorV),
}

impl View for InterpError {
    type V = InterpErrorV;

    open spec fn view(&self) -> InterpErrorV {
        match self {
            InterpError::Lex(e) => InterpErrorV::Lex(e@),
            InterpError::Parse(e) => InterpErrorV::Parse(*e),
            InterpError::Runtime(e) => InterpErrorV::Runtime(e@),
        }
    }
}

/// Maps a runtime result to its model, so that contracts can state the
/// whole outcome, error variant included, in one equation.
pub open spec fn res_v<T>(r: Result<T, RuntimeError>) -> Result<T, RuntimeErrorV> {
    match r {
        Ok(t) => Ok(t),
        Err(e) => Err(e@),
    }
}

} // verus!
