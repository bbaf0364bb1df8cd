use vstd::prelude::*;

use super::types::{assert_cons, assert_type_code};
use crate::a86::ast::{append_statements, imm, instrs, mem, reg, Instr, Register, Statement};
use crate::mylang::data_type::cons_type;

verus! {

/// Makes a pair of r8 (its car) and rax (its cdr) on the heap: the cdr at offset 0, the
/// car at offset 8. Sets rax to the pair.
pub fn compile_cons() -> (r: Vec<Statement>)
    ensures
        instrs(r@) == seq![
            Instr::Mov { dest: mem(Register::RBX, 0), src: reg(Register::RAX) },
            Instr::Mov { dest: mem(Register::RBX, 8), src: reg(Register::R8) },
            Instr::Mov { dest: reg(Register::RAX), src: reg(Register::RBX) },
            Instr::Or { dest: reg(Register::RAX), src: imm(2) },
            Instr::Add { dest: reg(Register::RBX), src: imm(16) },
        ],
{
    let r = vec![
        Statement::Mov { dest: mem(Register::RBX, 0), src: reg(Register::RAX) },
        Statement::Mov { dest: mem(Register::RBX, 8), src: reg(Register::R8) },
        Statement::Mov { dest: reg(Register::RAX), src: reg(Register::RBX) },
        Statement::Or { dest: reg(Register::RAX), src: imm(cons_type().tag.0 as i64) },
        Statement::Add { dest: reg(Register::RBX), src: imm(16) },
    ];
    assert(instrs(r@) =~= seq![
        Instr::Mov { dest: mem(Register::RBX, 0), src: reg(Register::RAX) },
        Instr::Mov { dest: mem(Register::RBX, 8), src: reg(Register::R8) },
        Instr::Mov { dest: reg(Register::RAX), src: reg(Register::RBX) },
        Instr::Or { dest: reg(Register::RAX), src: imm(2) },
        Instr::Add { dest: reg(Register::RBX), src: imm(16) },
    ]);
    r
}

/// Sets rax to the word at `offset` in the pair in rax.
pub open spec fn field_code(offset: i64) -> Seq<Instr> {
    assert_type_code(Register::RAX, cons_type()) + seq![
        Instr::Xor { dest: reg(Register::RAX), src: imm(2) },
        Instr::Mov { dest: reg(Register::RAX), src: mem(Register::RAX, offset) },
    ]
}

fn load_field(offset: i64) -> (r: Vec<Statement>)
    ensures
        instrs(r@) == field_code(offset),
{
    let mut r = assert_cons(Register::RAX);
    append_statements(
        &mut r,
        vec![
            Statement::Xor { dest: reg(Register::RAX), src: imm(cons_type().tag.0 as i64) },
            Statement::Mov { dest: reg(Register::RAX), src: mem(Register::RAX, offset) },
        ],
    );
    r
}

/// Sets rax to the first element of the pair in rax.
pub fn compile_car() -> (r: Vec<Statement>)
    ensures
        instrs(r@) == field_code(8),
{
    load_field(8)
}

/// Sets rax to the second element of the pair in rax.
pub fn compile_cdr() -> (r: Vec<Statement>)
    ensures
        instrs(r@) == field_code(0),
{
    load_field(0)
}

} // verus!
