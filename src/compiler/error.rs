use vstd::prelude::*;

use super::external_call::{compile_raise_error, raise_error_code};
use crate::a86::ast::{append_statements, instrs, Instr, Statement};

verus! {

/// Every runtime error jumps to this label.
pub const ERR_LABEL: &'static str = "err";

/// The name of the error label.
pub fn err_label() -> (r: String)
    ensures
        r@ == ERR_LABEL@,
{
    String::from_str(ERR_LABEL)
}

/// The error label, placed once at the end of the program, and the call of the runtime's
/// error routine.
pub fn compile_error_handler() -> (r: Vec<Statement>)
    ensures
        instrs(r@) == seq![Instr::Label { name: ERR_LABEL@ }] + raise_error_code(),
{
    let mut r = vec![Statement::Label { name: err_label() }];
    append_statements(&mut r, compile_raise_error());
    r
}

} // verus!
