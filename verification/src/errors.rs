//! Typed failures: every error condition of the pipeline is a value
//! returned to the caller, never a process abort.

use vstd::prelude::*;
use crate::lexer::Token;
use crate::lexer::TokenModel;
use crate::lexer::TokenType;

verus! {

/// What went wrong while resolving a name against the environment.
#[derive(Debug, Clone, Copy, PartialEq, Eq, Structural)]
pub enum NameErrorKind {
    /// Declaration of a name that already exists in the current scope.
    AlreadyDeclared,
    /// Lookup or assignment of a name bound in no reachable scope.
    Unbound,
    /// Assignment to a name whose owning scope marked it constant.
    ConstantReassignment,
}

/// What went wrong at a parse-error site.
#[derive(Debug, Clone, Copy, PartialEq, Eq, Structural)]
pub enum ParseErrorKind {
    /// A token of the given kind was required here.
    Expected(TokenType),
    /// No expression can start with this token.
    UnexpectedToken,
    /// A `const` declaration ended without an initializer.
    ConstWithoutValue,
    /// A numeric literal does not fit in a 64-bit signed integer.
    NumberTooLarge,
}

/// A typed failure of the lexer, parser, environment or evaluator.
#[derive(Debug)]
#[allow(inconsistent_fields)]
pub enum InterpError {
    /// The lexer met a character that starts no token.
    LexError { character: char },
    /// The parser met a token it cannot accept; `found` is that token.
    ParseError { kind: ParseErrorKind, found: Token },
    /// A name could not be declared, assigned or looked up.
    NameError { kind: NameErrorKind, name: String },
    /// The left-hand side of an assignment is not an identifier.
    EvalTypeError,
    /// Division or modulo by zero.
    ArithmeticError,
}

/// The mathematical shape of an `InterpError`: strings are character
/// sequences, tokens their models.
#[allow(inconsistent_fields)]
pub enum ErrModel {
    LexError { character: char },
    ParseError { kind: ParseErrorKind, found: TokenModel },
    NameError { kind: NameErrorKind, name: Seq<char> },
    EvalTypeError,
    ArithmeticError,
}

/// The model of an error value.
pub open spec fn err_model(e: InterpError) -> ErrModel {
    match e {
        InterpError::LexError { character } => ErrModel::LexError { character },
        InterpError::ParseError { kind, found } => ErrModel::ParseError {
            kind,
            found: crate::lexer::token_model(found),
        },
        InterpError::NameError { kind, name } => ErrModel::NameError { kind, name: name@ },
        InterpError::EvalTypeError => ErrModel::EvalTypeError,
        InterpError::ArithmeticError => ErrModel::ArithmeticError,
    }
}

/// The model of an evaluation result: the value itself on success, the
/// error's model on failure.
pub open spec fn result_model(r: Result<crate::values::RuntimeVal, InterpError>) -> Result<
    crate::values::RuntimeVal,
    ErrModel,
> {
    match r {
        Ok(v) => Ok(v),
        Err(e) => Err(err_model(e)),
    }
}

} // verus!
