use vstd::prelude::*;

use super::error::{err_label, ERR_LABEL};
use super::helper::{if_equal, materialise};
use crate::a86::ast::{append_statements, imm, instrs, reg, Instr, Register, Statement};
use crate::mylang::data_type::{
    box_type, char_type, closure_type, cons_type, int_type, scale, string_type, vector_type, UnaryType,
    Value, EOF_BITS,
};

verus! {

/// Re-tags the payload in `register` from type `from` to type `to`.
pub open spec fn cast_code(register: Register, from: UnaryType, to: UnaryType) -> Seq<Instr> {
    seq![
        Instr::Sar { dest: reg(register), src: imm(from.shift as i64) },
        Instr::Sal { dest: reg(register), src: imm(to.shift as i64) },
        Instr::Xor { dest: reg(register), src: imm(to.tag.0 as i64) },
    ]
}

/// Jumps to the error label unless `register` holds a value of type `t`.
pub open spec fn assert_type_code(register: Register, t: UnaryType) -> Seq<Instr> {
    seq![
        Instr::Mov { dest: reg(Register::R9), src: reg(register) },
        Instr::And { dest: reg(Register::R9), src: imm((scale(t.shift) - 1) as i64) },
        Instr::Cmp { dest: reg(Register::R9), src: imm(t.tag.0 as i64) },
        Instr::Jne { label: ERR_LABEL@ },
    ]
}

/// Jumps to the error label unless `register` holds a non-negative integer.
pub open spec fn assert_natural_code(register: Register) -> Seq<Instr> {
    assert_type_code(register, int_type()) + seq![
        Instr::Cmp { dest: reg(register), src: imm(0) },
        Instr::Jl { label: ERR_LABEL@ },
    ]
}

pub fn cast_type(register: Register, from: &UnaryType, to: &UnaryType) -> (r: Vec<Statement>)
    ensures
        instrs(r@) == cast_code(register, *from, *to),
{
    let r = vec![
        Statement::Sar { dest: reg(register), src: imm(from.shift as i64) },
        Statement::Sal { dest: reg(register), src: imm(to.shift as i64) },
        Statement::Xor { dest: reg(register), src: imm(to.tag.0 as i64) },
    ];
    assert(instrs(r@) =~= cast_code(register, *from, *to));
    r
}

/// Sets rax to true iff the value in rax is of type `t`.
pub fn is_type(t: &UnaryType) -> (r: Vec<Statement>)
    requires
        t.wf(),
    ensures
        instrs(r@) == seq![
            Instr::And { dest: reg(Register::RAX), src: imm((scale(t.shift) - 1) as i64) },
            Instr::Cmp { dest: reg(Register::RAX), src: imm(t.tag.0 as i64) },
        ] + materialise(false),
{
    let mut r = vec![
        Statement::And { dest: reg(Register::RAX), src: imm(t.mask() as i64) },
        Statement::Cmp { dest: reg(Register::RAX), src: imm(t.tag.0 as i64) },
    ];
    append_statements(&mut r, if_equal());
    r
}

/// Sets rax to true iff rax holds the end-of-file object.
pub fn is_eof() -> (r: Vec<Statement>)
    ensures
        instrs(r@) == seq![Instr::Cmp { dest: reg(Register::RAX), src: imm(EOF_BITS) }]
            + materialise(false),
{
    let mut r = vec![Statement::Cmp { dest: reg(Register::RAX), src: imm(Value::Eof.encode()) }];
    append_statements(&mut r, if_equal());
    r
}

/// Turns the character in rax into its code point, as an integer.
pub fn char_to_int() -> (r: Vec<Statement>)
    ensures
        instrs(r@) == assert_type_code(Register::RAX, char_type()) + cast_code(
            Register::RAX,
            char_type(),
            int_type(),
        ),
{
    let mut r = assert_char(Register::RAX);
    append_statements(&mut r, cast_type(Register::RAX, &char_type(), &int_type()));
    r
}

/// Turns the code point in rax into a character; any other value is an error.
pub fn int_to_char() -> (r: Vec<Statement>)
    ensures
        instrs(r@) == codepoint_code() + cast_code(Register::RAX, int_type(), char_type()),
{
    let mut r = assert_codepoint();
    append_statements(&mut r, cast_type(Register::RAX, &int_type(), &char_type()));
    r
}

/// Jumps to the error label unless `register` holds a value of type `t`. Clobbers r9.
pub fn assert_type(register: Register, t: &UnaryType) -> (r: Vec<Statement>)
    requires
        t.wf(),
    ensures
        instrs(r@) == assert_type_code(register, *t),
{
    let r = vec![
        Statement::Mov { dest: reg(Register::R9), src: reg(register) },
        Statement::And { dest: reg(Register::R9), src: imm(t.mask() as i64) },
        Statement::Cmp { dest: reg(Register::R9), src: imm(t.tag.0 as i64) },
        Statement::Jne { label: err_label() },
    ];
    assert(instrs(r@) =~= assert_type_code(register, *t));
    r
}

pub fn assert_int(register: Register) -> (r: Vec<Statement>)
    ensures
        instrs(r@) == assert_type_code(register, int_type()),
{
    assert_type(register, &int_type())
}

pub fn assert_char(register: Register) -> (r: Vec<Statement>)
    ensures
        instrs(r@) == assert_type_code(register, char_type()),
{
    assert_type(register, &char_type())
}

pub fn assert_box(register: Register) -> (r: Vec<Statement>)
    ensures
        instrs(r@) == assert_type_code(register, box_type()),
{
    assert_type(register, &box_type())
}

pub fn assert_cons(register: Register) -> (r: Vec<Statement>)
    ensures
        instrs(r@) == assert_type_code(register, cons_type()),
{
    assert_type(register, &cons_type())
}

pub fn assert_vector(register: Register) -> (r: Vec<Statement>)
    ensures
        instrs(r@) == assert_type_code(register, vector_type()),
{
    assert_type(register, &vector_type())
}

pub fn assert_string(register: Register) -> (r: Vec<Statement>)
    ensures
        instrs(r@) == assert_type_code(register, string_type()),
{
    assert_type(register, &string_type())
}

pub fn assert_closure(register: Register) -> (r: Vec<Statement>)
    ensures
        instrs(r@) == assert_type_code(register, closure_type()),
{
    assert_type(register, &closure_type())
}

/// Jumps to the error label unless `register` holds a non-negative integer.
pub fn assert_natural_number(register: Register) -> (r: Vec<Statement>)
    ensures
        instrs(r@) == assert_natural_code(register),
{
    let mut r = assert_int(register);
    append_statements(
        &mut r,
        vec![
            Statement::Cmp { dest: reg(register), src: imm(Value::Int(0).encode()) },
            Statement::Jl { label: err_label() },
        ],
    );
    r
}

/// Encoding of the integer `n`.
pub open spec fn int_bits(n: int) -> i64 {
    (n * 16) as i64
}

/// Jumps to the error label unless rax holds a Unicode scalar value: an integer in
/// `0..=0x10FFFF` outside the surrogates `0xD800..=0xDFFF`. Clobbers r9 and r10.
pub open spec fn codepoint_code() -> Seq<Instr> {
    assert_type_code(Register::RAX, int_type()) + seq![
        Instr::Cmp { dest: reg(Register::RAX), src: imm(0) },
        Instr::Jl { label: ERR_LABEL@ },
        Instr::Cmp { dest: reg(Register::RAX), src: imm(int_bits(0x10FFFF)) },
        Instr::Jg { label: ERR_LABEL@ },
        // r9 = distance above the first surrogate, or the width of the surrogates if below.
        Instr::Mov { dest: reg(Register::R9), src: reg(Register::RAX) },
        Instr::Sub { dest: reg(Register::R9), src: imm(int_bits(0xD800)) },
        Instr::Mov { dest: reg(Register::R10), src: imm(int_bits(0x800)) },
        Instr::Cmp { dest: reg(Register::R9), src: imm(0) },
        Instr::Cmovl { dest: reg(Register::R9), src: reg(Register::R10) },
        Instr::Cmp { dest: reg(Register::R9), src: imm(int_bits(0x800)) },
        Instr::Jl { label: ERR_LABEL@ },
    ]
}

fn assert_codepoint() -> (r: Vec<Statement>)
    ensures
        instrs(r@) == codepoint_code(),
{
    let mut r = assert_int(Register::RAX);
    let tail = vec![
        Statement::Cmp { dest: reg(Register::RAX), src: imm(Value::Int(0).encode()) },
        Statement::Jl { label: err_label() },
        Statement::Cmp { dest: reg(Register::RAX), src: imm(Value::Int(0x10FFFF).encode()) },
        Statement::Jg { label: err_label() },
        Statement::Mov { dest: reg(Register::R9), src: reg(Register::RAX) },
        Statement::Sub { dest: reg(Register::R9), src: imm(Value::Int(0xD800).encode()) },
        Statement::Mov { dest: reg(Register::R10), src: imm(Value::Int(0x800).encode()) },
        Statement::Cmp { dest: reg(Register::R9), src: imm(Value::Int(0).encode()) },
        Statement::Cmovl { dest: reg(Register::R9), src: reg(Register::R10) },
        Statement::Cmp { dest: reg(Register::R9), src: imm(Value::Int(0x800).encode()) },
        Statement::Jl { label: err_label() },
    ];
    append_statements(&mut r, tail);
    proof {
        assert(instrs(r@) =~= codepoint_code());
    }
    r
}

/// Jumps to the error label unless `register` holds an integer in `0..=255`.
pub open spec fn byte_check_code(register: Register) -> Seq<Instr> {
    assert_type_code(register, int_type()) + seq![
        Instr::Cmp { dest: reg(register), src: imm(0) },
        Instr::Jl { label: ERR_LABEL@ },
        Instr::Cmp { dest: reg(register), src: imm(int_bits(255)) },
        Instr::Jg { label: ERR_LABEL@ },
    ]
}

/// Jumps to the error label unless `register` holds an integer in `0..=255`. Clobbers r9.
pub fn assert_byte(register: Register) -> (r: Vec<Statement>)
    ensures
        instrs(r@) == byte_check_code(register),
{
    let mut r = assert_int(register);
    append_statements(
        &mut r,
        vec![
            Statement::Cmp { dest: reg(register), src: imm(Value::Int(0).encode()) },
            Statement::Jl { label: err_label() },
            Statement::Cmp { dest: reg(register), src: imm(Value::Int(255).encode()) },
            Statement::Jg { label: err_label() },
        ],
    );
    r
}

} // verus!
