use vstd::prelude::*;

use super::lowering::data_records;
use super::state::Compiler;
use super::string::compile_all_string_data;
use crate::a86::ast::{append_statements, instrs, Instr, Statement};
use crate::mylang::error::CompileError;

verus! {

/// The data section: the records of the string literals.
pub fn compile_data_section(compiler: &Compiler) -> (r: Result<Vec<Statement>, CompileError>)
    requires
        compiler.wf(),
    ensures
        r is Ok <==> data_records(compiler.literals()) is Some,
        r matches Ok(s) ==> data_records(compiler.literals()) == Some(instrs(s@).drop_first())
            && instrs(s@).len() >= 1 && instrs(s@)[0] == Instr::Data,
{
    let mut r = vec![Statement::Data];
    match compile_all_string_data(compiler) {
        Ok(s) => {
            let ghost d = instrs(s@);
            append_statements(&mut r, s);
            assert(instrs(r@).drop_first() =~= d);
        },
        Err(e) => {
            return Err(e);
        },
    }
    Ok(r)
}

} // verus!
