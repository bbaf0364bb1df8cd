use vstd::prelude::*;

use super::helper::{if_equal, if_less_than, materialise};
use super::types::{assert_int, assert_type_code};
use crate::a86::ast::{append_statements, imm, instrs, reg, Instr, Register, Statement};
use crate::mylang::data_type::{int_type, Value};

verus! {

/// Both operands, in rax and r8, must be integers.
pub open spec fn two_ints_code() -> Seq<Instr> {
    assert_type_code(Register::RAX, int_type()) + assert_type_code(Register::R8, int_type())
}

fn assert_two_ints() -> (r: Vec<Statement>)
    ensures
        instrs(r@) == two_ints_code(),
{
    let mut r = assert_int(Register::RAX);
    append_statements(&mut r, assert_int(Register::R8));
    r
}

/// Adds the integers in rax and r8. Integers are shifted left over a zero tag, so the sum
/// of two encodings is the encoding of the sum.
pub fn compile_add() -> (r: Vec<Statement>)
    ensures
        instrs(r@) == two_ints_code() + seq![
            Instr::Add { dest: reg(Register::RAX), src: reg(Register::R8) },
        ],
{
    let mut r = assert_two_ints();
    append_statements(&mut r, vec![Statement::Add { dest: reg(Register::RAX), src: reg(Register::R8) }]);
    r
}

/// Sets rax to the integer `r8 - rax`.
pub fn compile_sub() -> (r: Vec<Statement>)
    ensures
        instrs(r@) == two_ints_code() + seq![
            Instr::Sub { dest: reg(Register::R8), src: reg(Register::RAX) },
            Instr::Mov { dest: reg(Register::RAX), src: reg(Register::R8) },
        ],
{
    let mut r = assert_two_ints();
    append_statements(
        &mut r,
        vec![
            Statement::Sub { dest: reg(Register::R8), src: reg(Register::RAX) },
            Statement::Mov { dest: reg(Register::RAX), src: reg(Register::R8) },
        ],
    );
    r
}

/// Adds 1 to the integer in rax.
pub fn compile_add1() -> (r: Vec<Statement>)
    ensures
        instrs(r@) == assert_type_code(Register::RAX, int_type()) + seq![
            Instr::Add { dest: reg(Register::RAX), src: imm(16) },
        ],
{
    let mut r = assert_int(Register::RAX);
    append_statements(&mut r, vec![Statement::Add { dest: reg(Register::RAX), src: imm(Value::Int(1).encode()) }]);
    r
}

/// Subtracts 1 from the integer in rax.
pub fn compile_sub1() -> (r: Vec<Statement>)
    ensures
        instrs(r@) == assert_type_code(Register::RAX, int_type()) + seq![
            Instr::Sub { dest: reg(Register::RAX), src: imm(16) },
        ],
{
    let mut r = assert_int(Register::RAX);
    append_statements(&mut r, vec![Statement::Sub { dest: reg(Register::RAX), src: imm(Value::Int(1).encode()) }]);
    r
}

/// Sets rax to whether the integer in rax is zero.
pub fn compile_is_zero() -> (r: Vec<Statement>)
    ensures
        instrs(r@) == assert_type_code(Register::RAX, int_type()) + seq![
            Instr::Cmp { dest: reg(Register::RAX), src: imm(0) },
        ] + materialise(false),
{
    let mut r = assert_int(Register::RAX);
    append_statements(&mut r, vec![Statement::Cmp { dest: reg(Register::RAX), src: imm(Value::Int(0).encode()) }]);
    append_statements(&mut r, if_equal());
    r
}

/// Sets rax to whether the integers in rax and r8 are equal.
pub fn compile_int_equal() -> (r: Vec<Statement>)
    ensures
        instrs(r@) == two_ints_code() + seq![
            Instr::Cmp { dest: reg(Register::RAX), src: reg(Register::R8) },
        ] + materialise(false),
{
    let mut r = assert_two_ints();
    append_statements(&mut r, vec![Statement::Cmp { dest: reg(Register::RAX), src: reg(Register::R8) }]);
    append_statements(&mut r, if_equal());
    r
}

/// Sets rax to whether the first operand (r8) is less than the second (rax).
pub fn compile_less_than() -> (r: Vec<Statement>)
    ensures
        instrs(r@) == two_ints_code() + seq![
            Instr::Cmp { dest: reg(Register::R8), src: reg(Register::RAX) },
        ] + materialise(true),
{
    let mut r = assert_two_ints();
    append_statements(&mut r, vec![Statement::Cmp { dest: reg(Register::R8), src: reg(Register::RAX) }]);
    append_statements(&mut r, if_less_than());
    r
}

} // verus!
