use vstd::prelude::*;

use super::types::{assert_byte, byte_check_code};
use crate::a86::ast::{append_statements, imm, instrs, reg, Instr, Register, Statement};
use crate::mylang::data_type::VOID_BITS;

verus! {

pub const READ_BYTE: &'static str = "read_byte";

pub const PEEK_BYTE: &'static str = "peek_byte";

pub const WRITE_BYTE: &'static str = "write_byte";

pub const RAISE_ERROR: &'static str = "raise_error";

/// Aligns the stack pointer to 16 bytes, keeping the adjustment in r15.
pub open spec fn pad_code() -> Seq<Instr> {
    seq![
        Instr::Mov { dest: reg(Register::R15), src: reg(Register::RSP) },
        Instr::And { dest: reg(Register::R15), src: imm(8) },
        Instr::Sub { dest: reg(Register::RSP), src: reg(Register::R15) },
    ]
}

/// A call of the runtime function `name` on an aligned stack.
pub open spec fn call_code(name: Seq<char>) -> Seq<Instr> {
    pad_code() + seq![
        Instr::Call { label: name },
        Instr::Add { dest: reg(Register::RSP), src: reg(Register::R15) },
    ]
}

pub open spec fn raise_error_code() -> Seq<Instr> {
    pad_code() + seq![Instr::Call { label: RAISE_ERROR@ }]
}

/// Checks that rax holds a byte, passes it untagged in rdi to the runtime's `write_byte`,
/// and sets rax to void.
pub open spec fn write_byte_code() -> Seq<Instr> {
    byte_check_code(Register::RAX) + seq![
        Instr::Mov { dest: reg(Register::RDI), src: reg(Register::RAX) },
        Instr::Sar { dest: reg(Register::RDI), src: imm(4) },
    ] + call_code(WRITE_BYTE@) + seq![Instr::Mov { dest: reg(Register::RAX), src: imm(VOID_BITS) }]
}

/// The declarations of the runtime functions, placed at the beginning of the program.
pub fn externals() -> (r: Vec<Statement>)
    ensures
        instrs(r@) == seq![
            Instr::Extern { name: READ_BYTE@ },
            Instr::Extern { name: PEEK_BYTE@ },
            Instr::Extern { name: WRITE_BYTE@ },
            Instr::Extern { name: RAISE_ERROR@ },
        ],
{
    let r = vec![
        Statement::Extern { name: String::from_str(READ_BYTE) },
        Statement::Extern { name: String::from_str(PEEK_BYTE) },
        Statement::Extern { name: String::from_str(WRITE_BYTE) },
        Statement::Extern { name: String::from_str(RAISE_ERROR) },
    ];
    assert(instrs(r@) =~= seq![
        Instr::Extern { name: READ_BYTE@ },
        Instr::Extern { name: PEEK_BYTE@ },
        Instr::Extern { name: WRITE_BYTE@ },
        Instr::Extern { name: RAISE_ERROR@ },
    ]);
    r
}

/// Sets rax to the next byte of the input, consuming it, or to the end-of-file object.
pub fn compile_read_byte() -> (r: Vec<Statement>)
    ensures
        instrs(r@) == call_code(READ_BYTE@),
{
    call(String::from_str(READ_BYTE))
}

/// Sets rax to the next byte of the input without consuming it, or to end-of-file.
pub fn compile_peek_byte() -> (r: Vec<Statement>)
    ensures
        instrs(r@) == call_code(PEEK_BYTE@),
{
    call(String::from_str(PEEK_BYTE))
}

/// Writes the byte in rax to the output and sets rax to void; anything but an integer in
/// `0..=255` is an error.
pub fn compile_write_byte() -> (r: Vec<Statement>)
    ensures
        instrs(r@) == write_byte_code(),
{
    let mut r = assert_byte(Register::RAX);
    append_statements(
        &mut r,
        vec![
            Statement::Mov { dest: reg(Register::RDI), src: reg(Register::RAX) },
            Statement::Sar { dest: reg(Register::RDI), src: imm(4) },
        ],
    );
    append_statements(&mut r, call(String::from_str(WRITE_BYTE)));
    append_statements(&mut r, vec![Statement::Mov { dest: reg(Register::RAX), src: imm(VOID_BITS) }]);
    r
}

/// Calls the runtime's error routine, which does not return.
pub fn compile_raise_error() -> (r: Vec<Statement>)
    ensures
        instrs(r@) == raise_error_code(),
{
    let mut r = pad_stack();
    append_statements(&mut r, vec![Statement::Call { label: String::from_str(RAISE_ERROR) }]);
    r
}

fn call(label: String) -> (r: Vec<Statement>)
    ensures
        instrs(r@) == call_code(label@),
{
    let mut r = pad_stack();
    let ghost l = label@;
    append_statements(&mut r, vec![Statement::Call { label }]);
    append_statements(&mut r, unpad_stack());
    assert(instrs(r@) =~= call_code(l));
    r
}

/// Aligns the stack pointer to a 16-byte boundary, as a call of the runtime needs; undo it
/// with [`unpad_stack`] after the call.
fn pad_stack() -> (r: Vec<Statement>)
    ensures
        instrs(r@) == pad_code(),
{
    let r = vec![
        Statement::Mov { dest: reg(Register::R15), src: reg(Register::RSP) },
        Statement::And { dest: reg(Register::R15), src: imm(8) },
        Statement::Sub { dest: reg(Register::RSP), src: reg(Register::R15) },
    ];
    assert(instrs(r@) =~= pad_code());
    r
}

fn unpad_stack() -> (r: Vec<Statement>)
    ensures
        instrs(r@) == seq![Instr::Add { dest: reg(Register::RSP), src: reg(Register::R15) }],
{
    let r = vec![Statement::Add { dest: reg(Register::RSP), src: reg(Register::R15) }];
    assert(instrs(r@) =~= seq![Instr::Add { dest: reg(Register::RSP), src: reg(Register::R15) }]);
    r
}

} // verus!
