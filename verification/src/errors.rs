//! The ways in which a compilation can fail.

use vstd::prelude::*;
use crate::tac::Identifier;

verus! {

/// The stage of the compilation that an error belongs to.
#[derive(Clone, Copy, Debug, PartialEq, Eq, Structural)]
pub enum ErrorKind {
    /// The source text holds a character that starts no token.
    LexError,
    /// The token stream is not a program.
    ParseError,
    /// The program is well formed but has no meaning.
    SemanticError,
    /// An intermediate result breaks a rule that the compiler relies on.
    InternalInvariant,
}

/// A fatal error. The first one met ends the compilation.
#[derive(Debug, PartialEq, Eq)]
pub enum CompileError {
    /// A character of the source text that starts no token.
    UnrecognizedChar(char),
    /// A token that cannot stand where it was found; the number is its
    /// position in the token stream.
    UnexpectedToken(usize),
    /// The token stream ended where a token was required.
    UnexpectedEnd,
    /// An integer literal that is not a decimal number of 32 bits.
    InvalidIntLiteral(String),
    /// A name that no declaration in scope binds.
    UndeclaredVariable(String),
    /// `break` with no loop around it.
    BreakOutsideLoop,
    /// `continue` with no loop around it.
    ContinueOutsideLoop,
    /// An array initialiser where a plain value is required.
    MisplacedArrayInit,
    /// A nested array initialiser for a type that is no array of arrays.
    NotAnArray,
    /// A type whose size cannot be written as a 64-bit immediate.
    TypeTooLarge,
    /// The counter of temporaries or of labels has run out.
    CounterExhausted,
    /// A temporary that is read before any instruction wrote it.
    ReadBeforeWrite(Identifier),
    /// An instruction that has no expansion into machine code.
    UnsupportedInstruction,
    /// The temporaries need more stack than a frame can address.
    FrameTooLarge,
}

/// The mathematical value of a [`CompileError`].
pub enum CompileErrorView {
    UnrecognizedChar(char),
    UnexpectedToken(usize),
    UnexpectedEnd,
    InvalidIntLiteral(Seq<char>),
    UndeclaredVariable(Seq<char>),
    BreakOutsideLoop,
    ContinueOutsideLoop,
    MisplacedArrayInit,
    NotAnArray,
    TypeTooLarge,
    CounterExhausted,
    ReadBeforeWrite(Identifier),
    UnsupportedInstruction,
    FrameTooLarge,
}

impl View for CompileError {
    type V = CompileErrorView;

    open spec fn view(&self) -> CompileErrorView {
        match self {
            CompileError::UnrecognizedChar(c) => CompileErrorView::UnrecognizedChar(*c),
            CompileError::UnexpectedToken(p) => CompileErrorView::UnexpectedToken(*p),
            CompileError::UnexpectedEnd => CompileErrorView::UnexpectedEnd,
            CompileError::InvalidIntLiteral(s) => CompileErrorView::InvalidIntLiteral(s@),
            CompileError::UndeclaredVariable(s) => CompileErrorView::UndeclaredVariable(s@),
            CompileError::BreakOutsideLoop => CompileErrorView::BreakOutsideLoop,
            CompileError::ContinueOutsideLoop => CompileErrorView::ContinueOutsideLoop,
            CompileError::MisplacedArrayInit => CompileErrorView::MisplacedArrayInit,
            CompileError::NotAnArray => CompileErrorView::NotAnArray,
            CompileError::TypeTooLarge => CompileErrorView::TypeTooLarge,
            CompileError::CounterExhausted => CompileErrorView::CounterExhausted,
            CompileError::ReadBeforeWrite(i) => CompileErrorView::ReadBeforeWrite(*i),
            CompileError::UnsupportedInstruction => CompileErrorView::UnsupportedInstruction,
            CompileError::FrameTooLarge => CompileErrorView::FrameTooLarge,
        }
    }
}

/// The kind that each error belongs to.
pub open spec fn error_kind(e: CompileErrorView) -> ErrorKind {
    match e {
        CompileErrorView::UnrecognizedChar(_) => ErrorKind::LexError,
        CompileErrorView::UnexpectedToken(_) => ErrorKind::ParseError,
        CompileErrorView::UnexpectedEnd => ErrorKind::ParseError,
        CompileErrorView::InvalidIntLiteral(_) => ErrorKind::ParseError,
        CompileErrorView::UndeclaredVariable(_) => ErrorKind::SemanticError,
        CompileErrorView::BreakOutsideLoop => ErrorKind::SemanticError,
        CompileErrorView::ContinueOutsideLoop => ErrorKind::SemanticError,
        CompileErrorView::MisplacedArrayInit => ErrorKind::SemanticError,
        CompileErrorView::NotAnArray => ErrorKind::SemanticError,
        CompileErrorView::TypeTooLarge => ErrorKind::SemanticError,
        CompileErrorView::CounterExhausted => ErrorKind::InternalInvariant,
        CompileErrorView::ReadBeforeWrite(_) => ErrorKind::InternalInvariant,
        CompileErrorView::UnsupportedInstruction => ErrorKind::InternalInvariant,
        CompileErrorView::FrameTooLarge => ErrorKind::InternalInvariant,
    }
}

impl CompileError {
    pub fn kind(&self) -> (k: ErrorKind)
        ensures
            k == error_kind(self@),
    {
        match self {
            CompileError::UnrecognizedChar(_) => ErrorKind::LexError,
            CompileError::UnexpectedToken(_) => ErrorKind::ParseError,
            CompileError::UnexpectedEnd => ErrorKind::ParseError,
            CompileError::InvalidIntLiteral(_) => ErrorKind::ParseError,
            CompileError::UndeclaredVariable(_) => ErrorKind::SemanticError,
            CompileError::BreakOutsideLoop => ErrorKind::SemanticError,
            CompileError::ContinueOutsideLoop => ErrorKind::SemanticError,
            CompileError::MisplacedArrayInit => ErrorKind::SemanticError,
            CompileError::NotAnArray => ErrorKind::SemanticError,
            CompileError::TypeTooLarge => ErrorKind::SemanticError,
            CompileError::CounterExhausted => ErrorKind::InternalInvariant,
            CompileError::ReadBeforeWrite(_) => ErrorKind::InternalInvariant,
            CompileError::UnsupportedInstruction => ErrorKind::InternalInvariant,
            CompileError::FrameTooLarge => ErrorKind::InternalInvariant,
        }
    }
}

} // verus!
