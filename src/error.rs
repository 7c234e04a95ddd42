use vstd::prelude::*;

use crate::token::TokenType;

verus! {

/// Why a compile stopped.  The first error ends the compile.
#[derive(Debug)]
pub enum CompileError {
    /// A token of another kind stood where `expected` (or, when it is
    /// `None`, the start of an expression) was required.
    SyntaxError { expected: Option<TokenType>, found: TokenType },
    /// An integer literal holds a character that is no digit, or does not
    /// fit in 64 signed bits.
    InvalidInteger,
    /// A call names a function that was not declared before it.
    UndefinedFunction(String),
    /// A call passes another number of arguments than the function declares.
    ArgumentCount { name: String, expected: usize, found: usize },
    /// The left side of an assignment is not a variable.
    AssignToNonIdentifier,
    /// A scope was left where only the root scope remained.
    ScopeUnderflow,
    /// A variable is read or written that no enclosing scope declares.
    UndefinedVariable(String),
    /// An operator for which the code generator has no instructions.
    UnsupportedOperator(TokenType),
    /// An expression handle outside the store, or one that does not refer
    /// to an earlier node.
    InvalidHandle,
    /// A stack offset or a label counter would pass the largest `u64`.
    LimitExceeded,
}

/// The kind of a `CompileError`, without the names it carries.
#[derive(Clone, Copy, Debug, PartialEq, Eq, Structural)]
pub enum ErrorKind {
    Syntax,
    InvalidInteger,
    UndefinedFunction,
    ArgumentCount,
    AssignToNonIdentifier,
    ScopeUnderflow,
    UndefinedVariable,
    UnsupportedOperator,
    InvalidHandle,
    LimitExceeded,
}

pub open spec fn error_kind(e: CompileError) -> ErrorKind {
    match e {
        CompileError::SyntaxError { .. } => ErrorKind::Syntax,
        CompileError::InvalidInteger => ErrorKind::InvalidInteger,
        CompileError::UndefinedFunction(_) => ErrorKind::UndefinedFunction,
        CompileError::ArgumentCount { .. } => ErrorKind::ArgumentCount,
        CompileError::AssignToNonIdentifier => ErrorKind::AssignToNonIdentifier,
        CompileError::ScopeUnderflow => ErrorKind::ScopeUnderflow,
        CompileError::UndefinedVariable(_) => ErrorKind::UndefinedVariable,
        CompileError::UnsupportedOperator(_) => ErrorKind::UnsupportedOperator,
        CompileError::InvalidHandle => ErrorKind::InvalidHandle,
        CompileError::LimitExceeded => ErrorKind::LimitExceeded,
    }
}

} // verus!
