use vstd::prelude::*;

pub mod ast;
pub mod char_positions;
pub mod data_type;
pub mod document;
pub mod error;
pub mod lexer;
pub mod parser;
pub mod s_expression;

use self::error::ParserError;

verus! {

/// Reads a program: tokens, then s-expressions, then the program's syntax tree.
pub fn parse(source: &str) -> (r: Result<ast::Program, ParserError>)
    requires
        source@.len() <= usize::MAX / 4,
    ensures
        r matches Err(ParserError::InvalidToken(e)) ==> e.position.offset < lexer::utf8_len(
            source@,
        ),
        r is Err ==> !(r matches Err(ParserError::CompileError(_))),
        r matches Ok(p) ==> crate::compiler::program_lambda_free(p),
{
    let tokens = match lexer::tokenize(source) {
        Ok(t) => t,
        Err(e) => {
            return Err(ParserError::InvalidToken(e));
        },
    };
    let s_expressions = match s_expression::parse(tokens) {
        Ok(s) => s,
        Err(e) => {
            return Err(ParserError::SexpParsingError(e));
        },
    };
    match parser::parse(&s_expressions) {
        Ok(p) => Ok(p),
        Err(e) => Err(ParserError::AstPasringError(e)),
    }
}

} // verus!
