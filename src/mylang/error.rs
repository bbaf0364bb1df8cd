use vstd::prelude::*;

use super::document::Position;

verus! {

/// Why a source text could not be turned into a program.
#[derive(Debug, PartialEq, Eq)]
pub enum ParserError {
    InvalidToken(InvalidTokenError),
    SexpParsingError(SexpParsingError),
    AstPasringError(AstPasringError),
    /// The program is well formed but cannot be compiled (an unbound name, say).
    CompileError(CompileError),
}

/// The text at `position` is no token.
#[derive(Debug, PartialEq, Eq)]
pub struct InvalidTokenError {
    pub position: Position,
}

/// The tokens do not form balanced s-expressions.
#[derive(Debug, PartialEq, Eq)]
pub struct SexpParsingError {
    pub msg: String,
    pub position: Position,
}

/// The s-expressions do not form a program.
#[derive(Debug, PartialEq, Eq)]
pub struct AstPasringError {
    pub msg: String,
    pub position: Position,
}

/// A consistency violation found while generating code.
#[derive(Debug, PartialEq, Eq)]
pub struct CompileError {
    pub msg: String,
}

impl ParserError {
    /// The error message, as shown to a user.
    pub fn message(&self) -> (r: String)
        ensures
            self matches ParserError::InvalidToken(_) ==> r@ == "Invalid token."@,
            self matches ParserError::SexpParsingError(e) ==> r@ == e.msg@,
            self matches ParserError::AstPasringError(e) ==> r@ == e.msg@,
            self matches ParserError::CompileError(e) ==> r@ == e.msg@,
    {
        match self {
            ParserError::InvalidToken(_) => String::from_str("Invalid token."),
            ParserError::SexpParsingError(e) => e.msg.clone(),
            ParserError::AstPasringError(e) => e.msg.clone(),
            ParserError::CompileError(e) => e.msg.clone(),
        }
    }

    /// The source offset that the error points at, where it has one.
    pub fn position(&self) -> (r: Option<Position>)
        ensures
            r == match self {
                ParserError::InvalidToken(e) => Some(e.position),
                ParserError::SexpParsingError(e) => Some(e.position),
                ParserError::AstPasringError(e) => Some(e.position),
                ParserError::CompileError(_) => None::<Position>,
            },
    {
        match self {
            ParserError::InvalidToken(e) => Some(e.position),
            ParserError::SexpParsingError(e) => Some(e.position),
            ParserError::AstPasringError(e) => Some(e.position),
            ParserError::CompileError(_) => None,
        }
    }
}

} // verus!
