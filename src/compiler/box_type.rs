use vstd::prelude::*;

use super::types::{assert_box, assert_type_code};
use crate::a86::ast::{append_statements, imm, instrs, mem, reg, Instr, Register, Statement};
use crate::mylang::data_type::box_type;

verus! {

/// Puts the value in rax in a new one-word box on the heap and sets rax to the box.
pub fn compile_box() -> (r: Vec<Statement>)
    ensures
        instrs(r@) == seq![
            Instr::Mov { dest: mem(Register::RBX, 0), src: reg(Register::RAX) },
            Instr::Mov { dest: reg(Register::RAX), src: reg(Register::RBX) },
            Instr::Or { dest: reg(Register::RAX), src: imm(1) },
            Instr::Add { dest: reg(Register::RBX), src: imm(8) },
        ],
{
    let r = vec![
        Statement::Mov { dest: mem(Register::RBX, 0), src: reg(Register::RAX) },
        Statement::Mov { dest: reg(Register::RAX), src: reg(Register::RBX) },
        Statement::Or { dest: reg(Register::RAX), src: imm(box_type().tag.0 as i64) },
        Statement::Add { dest: reg(Register::RBX), src: imm(8) },
    ];
    assert(instrs(r@) =~= seq![
        Instr::Mov { dest: mem(Register::RBX, 0), src: reg(Register::RAX) },
        Instr::Mov { dest: reg(Register::RAX), src: reg(Register::RBX) },
        Instr::Or { dest: reg(Register::RAX), src: imm(1) },
        Instr::Add { dest: reg(Register::RBX), src: imm(8) },
    ]);
    r
}

/// Sets rax to the content of the box in rax.
pub fn compile_unbox() -> (r: Vec<Statement>)
    ensures
        instrs(r@) == assert_type_code(Register::RAX, box_type()) + seq![
            Instr::Xor { dest: reg(Register::RAX), src: imm(1) },
            Instr::Mov { dest: reg(Register::RAX), src: mem(Register::RAX, 0) },
        ],
{
    let mut r = assert_box(Register::RAX);
    append_statements(
        &mut r,
        vec![
            Statement::Xor { dest: reg(Register::RAX), src: imm(box_type().tag.0 as i64) },
            Statement::Mov { dest: reg(Register::RAX), src: mem(Register::RAX, 0) },
        ],
    );
    r
}

} // verus!
