//! A compiler from a small Scheme-like language to x86-64 assembly in NASM syntax.
use vstd::prelude::*;

mod a86;
mod compiler;
mod mylang;
mod text;

pub use a86::ast::{instrs, Instr, Operand, Program, Register, Statement};
pub use a86::printer::{print, CompilationContext, Platform};
pub use compiler::variable::VariablesTable;
pub use mylang::ast::Identifier;
pub use mylang::char_positions::CharPositions;
pub use mylang::document::Position;
pub use mylang::error::{AstPasringError, CompileError, InvalidTokenError, ParserError, SexpParsingError};
pub use mylang::lexer::{tokenize, Token, TokenKind};
pub use mylang::parse;

verus! {

/// Compiles source text to the program of pseudo-instructions.
pub fn compile_program(source: &str) -> (r: Result<Program, ParserError>)
    requires
        source@.len() <= usize::MAX / 4,
    ensures
        r matches Ok(p) ==> instrs(p.statements@)[0] == (Instr::Global {
            name: compiler::ENTRY@,
        }),
        r matches Ok(p) ==> exists|a: mylang::ast::Program|
            compiler::program_lambda_free(a) && #[trigger] compiler::program_code(a) == Some(
                instrs(p.statements@),
            ),
        r matches Err(ParserError::CompileError(_)) ==> exists|a: mylang::ast::Program|
            compiler::program_lambda_free(a) && #[trigger] compiler::program_code(a) is None,
{
    let ast = match parse(source) {
        Ok(a) => a,
        Err(e) => {
            return Err(e);
        },
    };
    match compiler::compile(&ast) {
        Ok(p) => {
            assert(compiler::program_code(ast) == Some(instrs(p.statements@)));
            Ok(p)
        },
        Err(e) => {
            assert(compiler::program_code(ast) is None);
            Err(ParserError::CompileError(e))
        },
    }
}

/// Compiles source text to NASM assembly for Linux.
pub fn compile(source: &str) -> (r: Result<String, ParserError>)
    requires
        source@.len() <= usize::MAX / 4,
    ensures
        r matches Ok(t) ==> exists|a: mylang::ast::Program|
            compiler::program_lambda_free(a) && #[trigger] compiler::program_code(a) is Some
                && t@ == a86::printer::prelude_text() + a86::printer::lines_text(
                compiler::program_code(a)->Some_0,
                Platform::Linux,
            ),
        r matches Err(ParserError::CompileError(_)) ==> exists|a: mylang::ast::Program|
            compiler::program_lambda_free(a) && #[trigger] compiler::program_code(a) is None,
{
    match compile_program(source) {
        Ok(program) => {
            let context = CompilationContext { platform: Platform::Linux };
            Ok(print(&program, &context))
        },
        Err(e) => Err(e),
    }
}

} // verus!
