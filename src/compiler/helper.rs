use vstd::prelude::*;

use crate::a86::ast::{instrs, reg, imm, Instr, Register, Statement};
use crate::mylang::data_type::{Value, FALSE_BITS, TRUE_BITS};

verus! {

/// Materialises a boolean in rax from the comparison flags, with `cmov` `equal`
/// (`cmove`) or `less` (`cmovl`).
pub open spec fn materialise(cmov_less: bool) -> Seq<Instr> {
    seq![
        Instr::Mov { dest: reg(Register::RAX), src: imm(FALSE_BITS) },
        Instr::Mov { dest: reg(Register::R9), src: imm(TRUE_BITS) },
        if cmov_less {
            Instr::Cmovl { dest: reg(Register::RAX), src: reg(Register::R9) }
        } else {
            Instr::Cmove { dest: reg(Register::RAX), src: reg(Register::R9) }
        },
    ]
}

/// Sets rax to true if the comparison flags say equal, else to false. Clobbers r9.
pub fn if_equal() -> (r: Vec<Statement>)
    ensures
        instrs(r@) == materialise(false),
{
    let r = vec![
        Statement::Mov { dest: reg(Register::RAX), src: imm(Value::Boolean(false).encode()) },
        Statement::Mov { dest: reg(Register::R9), src: imm(Value::Boolean(true).encode()) },
        Statement::Cmove { dest: reg(Register::RAX), src: reg(Register::R9) },
    ];
    assert(instrs(r@) =~= materialise(false));
    r
}

/// Sets rax to true if the comparison flags say less, else to false. Clobbers r9.
pub fn if_less_than() -> (r: Vec<Statement>)
    ensures
        instrs(r@) == materialise(true),
{
    let r = vec![
        Statement::Mov { dest: reg(Register::RAX), src: imm(Value::Boolean(false).encode()) },
        Statement::Mov { dest: reg(Register::R9), src: imm(Value::Boolean(true).encode()) },
        Statement::Cmovl { dest: reg(Register::RAX), src: reg(Register::R9) },
    ];
    assert(instrs(r@) =~= materialise(true));
    r
}

} // verus!
