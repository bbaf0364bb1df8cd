use vstd::prelude::*;

use super::error::{err_label, ERR_LABEL};
use super::state::{decimal, next_id, Compiler};
use super::types::{assert_natural_code, assert_natural_number, assert_type_code, assert_vector};
use crate::a86::ast::{append_statements, imm, instrs, mem, reg, Instr, Register, Statement};
use crate::mylang::data_type::{vector_type, Value, VOID_BITS};

verus! {

/// Fills a new vector of length r8 with the value in rax; `loop_`, `end_` and `empty_`
/// are its labels.
pub open spec fn make_vector_code(lp: Seq<char>, end: Seq<char>, empty: Seq<char>) -> Seq<Instr> {
    assert_natural_code(Register::R8) + seq![
        Instr::Cmp { dest: reg(Register::R8), src: imm(0) },
        Instr::Je { label: empty },
        Instr::Mov { dest: reg(Register::R9), src: reg(Register::RBX) },
        Instr::Or { dest: reg(Register::R9), src: imm(3) },
        Instr::Sar { dest: reg(Register::R8), src: imm(4) },
        Instr::Mov { dest: mem(Register::RBX, 0), src: reg(Register::R8) },
        Instr::Add { dest: reg(Register::RBX), src: imm(8) },
        Instr::Label { name: lp },
        Instr::Mov { dest: mem(Register::RBX, 0), src: reg(Register::RAX) },
        Instr::Add { dest: reg(Register::RBX), src: imm(8) },
        Instr::Sub { dest: reg(Register::R8), src: imm(1) },
        Instr::Cmp { dest: reg(Register::R8), src: imm(0) },
        Instr::Jne { label: lp },
        Instr::Mov { dest: reg(Register::RAX), src: reg(Register::R9) },
        Instr::Jmp { label: end },
        Instr::Label { name: empty },
        Instr::Mov { dest: reg(Register::RAX), src: imm(3) },
        Instr::Label { name: end },
    ]
}

/// Sets rax to a new vector of length r8 whose elements are all the value in rax. The
/// length must be a natural number; length 0 gives the empty vector.
pub fn compile_make_vector(compiler: &mut Compiler) -> (r: Vec<Statement>)
    ensures
        final(compiler).label_count() == next_id(next_id(next_id(old(compiler).label_count()))),
        final(compiler).literals() == old(compiler).literals(),
        old(compiler).wf() ==> final(compiler).wf(),
        instrs(r@) == make_vector_code(
            "loop_"@ + decimal(next_id(old(compiler).label_count())),
            "end_"@ + decimal(next_id(next_id(old(compiler).label_count()))),
            "empty_"@ + decimal(final(compiler).label_count()),
        ),
{
    let loop_id = compiler.new_label_id();
    let end_id = compiler.new_label_id();
    let empty_id = compiler.new_label_id();
    let loop_label = numbered_label("loop_", &loop_id);
    let end_label = numbered_label("end_", &end_id);
    let empty_label = numbered_label("empty_", &empty_id);
    let ghost (lp, end, empty) = (loop_label@, end_label@, empty_label@);
    let mut r = assert_natural_number(Register::R8);
    let tail = vec![
        Statement::Cmp { dest: reg(Register::R8), src: imm(Value::Int(0).encode()) },
        Statement::Je { label: copy_string(&empty_label) },
        Statement::Mov { dest: reg(Register::R9), src: reg(Register::RBX) },
        Statement::Or { dest: reg(Register::R9), src: imm(vector_type().tag.0 as i64) },
        Statement::Sar { dest: reg(Register::R8), src: imm(4) },
        Statement::Mov { dest: mem(Register::RBX, 0), src: reg(Register::R8) },
        Statement::Add { dest: reg(Register::RBX), src: imm(8) },
        Statement::Label { name: copy_string(&loop_label) },
        Statement::Mov { dest: mem(Register::RBX, 0), src: reg(Register::RAX) },
        Statement::Add { dest: reg(Register::RBX), src: imm(8) },
        Statement::Sub { dest: reg(Register::R8), src: imm(1) },
        Statement::Cmp { dest: reg(Register::R8), src: imm(0) },
        Statement::Jne { label: loop_label },
        Statement::Mov { dest: reg(Register::RAX), src: reg(Register::R9) },
        Statement::Jmp { label: copy_string(&end_label) },
        Statement::Label { name: empty_label },
        Statement::Mov { dest: reg(Register::RAX), src: imm(Value::EmptyVector.encode()) },
        Statement::Label { name: end_label },
    ];
    append_statements(&mut r, tail);
    assert(instrs(r@) =~= make_vector_code(lp, end, empty));
    r
}

/// `prefix` followed by the label number `id`.
pub fn numbered_label(prefix: &str, id: &String) -> (r: String)
    ensures
        r@ == prefix@ + id@,
{
    let mut s = String::from_str(prefix);
    s.append(id.as_str());
    s
}

/// A copy of `s`.
pub fn copy_string(s: &String) -> (r: String)
    ensures
        r@ == s@,
{
    s.clone()
}

/// Checks that r8 holds a non-empty vector and the index in `index` lies within it; leaves
/// the vector's address in r8 and the untagged index in `index`. Clobbers r9.
pub open spec fn element_check_code(index: Register) -> Seq<Instr> {
    assert_type_code(Register::R8, vector_type()) + assert_natural_code(index) + seq![
        Instr::Cmp { dest: reg(Register::R8), src: imm(3) },
        Instr::Je { label: ERR_LABEL@ },
        Instr::Xor { dest: reg(Register::R8), src: imm(3) },
        Instr::Mov { dest: reg(Register::R9), src: mem(Register::R8, 0) },
        Instr::Sar { dest: reg(index), src: imm(4) },
        Instr::Sub { dest: reg(Register::R9), src: imm(1) },
        Instr::Cmp { dest: reg(Register::R9), src: reg(index) },
        Instr::Jl { label: ERR_LABEL@ },
        Instr::Sal { dest: reg(index), src: imm(3) },
        Instr::Add { dest: reg(Register::R8), src: reg(index) },
    ]
}

fn element_check(index: Register) -> (r: Vec<Statement>)
    ensures
        instrs(r@) == element_check_code(index),
{
    let mut r = assert_vector(Register::R8);
    append_statements(&mut r, assert_natural_number(index));
    let tail = vec![
        Statement::Cmp { dest: reg(Register::R8), src: imm(Value::EmptyVector.encode()) },
        Statement::Je { label: err_label() },
        Statement::Xor { dest: reg(Register::R8), src: imm(vector_type().tag.0 as i64) },
        Statement::Mov { dest: reg(Register::R9), src: mem(Register::R8, 0) },
        Statement::Sar { dest: reg(index), src: imm(4) },
        Statement::Sub { dest: reg(Register::R9), src: imm(1) },
        Statement::Cmp { dest: reg(Register::R9), src: reg(index) },
        Statement::Jl { label: err_label() },
        Statement::Sal { dest: reg(index), src: imm(3) },
        Statement::Add { dest: reg(Register::R8), src: reg(index) },
    ];
    append_statements(&mut r, tail);
    assert(instrs(r@) =~= element_check_code(index));
    r
}

/// Sets rax to the element of the vector in r8 at the index in rax; an index out of
/// bounds is an error.
pub fn compile_vector_ref(_compiler: &mut Compiler) -> (r: Vec<Statement>)
    ensures
        *final(_compiler) == *old(_compiler),
        instrs(r@) == element_check_code(Register::RAX) + seq![
            Instr::Mov { dest: reg(Register::RAX), src: mem(Register::R8, 8) },
        ],
{
    let mut r = element_check(Register::RAX);
    append_statements(&mut r, vec![Statement::Mov { dest: reg(Register::RAX), src: mem(Register::R8, 8) }]);
    r
}

/// Sets the element of a vector to the value in rax and sets rax to void. The vector is
/// the second word of the stack and the index the top one; both are popped.
pub fn compile_vector_set(_compiler: &mut Compiler) -> (r: Vec<Statement>)
    ensures
        *final(_compiler) == *old(_compiler),
        instrs(r@) == seq![
            Instr::Pop { dest: reg(Register::R10) },
            Instr::Pop { dest: reg(Register::R8) },
        ] + element_check_code(Register::R10) + seq![
            Instr::Mov { dest: mem(Register::R8, 8), src: reg(Register::RAX) },
            Instr::Mov { dest: reg(Register::RAX), src: imm(VOID_BITS) },
        ],
{
    let mut r = vec![
        Statement::Pop { dest: reg(Register::R10) },
        Statement::Pop { dest: reg(Register::R8) },
    ];
    append_statements(&mut r, element_check(Register::R10));
    append_statements(
        &mut r,
        vec![
            Statement::Mov { dest: mem(Register::R8, 8), src: reg(Register::RAX) },
            Statement::Mov { dest: reg(Register::RAX), src: imm(Value::Void.encode()) },
        ],
    );
    r
}

} // verus!
