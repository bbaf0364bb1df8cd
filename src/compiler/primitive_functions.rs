use vstd::prelude::*;

use super::arithmetic::{
    compile_add, compile_add1, compile_int_equal, compile_is_zero, compile_less_than, compile_sub,
    compile_sub1,
};
use super::box_type::{compile_box, compile_unbox};
use super::cons::{compile_car, compile_cdr, compile_cons};
use super::expr::compile_expr;
use super::external_call::{
    call_code, compile_peek_byte, compile_read_byte, compile_write_byte, write_byte_code, PEEK_BYTE,
    READ_BYTE,
};
use super::state::{evolves, Compiler};
use super::string::{compile_make_string, compile_string_ref};
use super::arithmetic::two_ints_code;
use super::cons::field_code;
use super::helper::materialise;
use super::types::{
    assert_type_code, cast_code, char_to_int, codepoint_code, int_to_char, is_eof, is_type,
};
use super::variable::{bound_names, lemma_bound_names_push, VariablesTable};
use super::vector::{compile_make_vector, compile_vector_ref, compile_vector_set};
use crate::a86::ast::{
    append_statements, ends_with, imm, instrs, mem, reg, Instr, Register, Statement,
};
use crate::mylang::ast::{free_vars, lambda_count, size, Expr, Op0, Op1, Op2, Op3};
use super::lowering::{lower, lowers_to, op2_lower, vector_set_code};
use crate::mylang::data_type::{
    box_type, char_type, cons_type, int_type, scale, string_type, vector_type, UnaryType, EOF_BITS,
};
use crate::mylang::error::CompileError;

verus! {

/// Sets rax to whether rax holds a value of type `t`.
pub open spec fn type_test_code(t: UnaryType) -> Seq<Instr> {
    seq![
        Instr::And { dest: reg(Register::RAX), src: imm((scale(t.shift) - 1) as i64) },
        Instr::Cmp { dest: reg(Register::RAX), src: imm(t.tag.0 as i64) },
    ] + materialise(false)
}

/// The code of a unary operator, applied to rax.
pub open spec fn op1_code(op: Op1) -> Seq<Instr> {
    match op {
        Op1::Add1 => assert_type_code(Register::RAX, int_type()) + seq![
            Instr::Add { dest: reg(Register::RAX), src: imm(16) },
        ],
        Op1::Sub1 => assert_type_code(Register::RAX, int_type()) + seq![
            Instr::Sub { dest: reg(Register::RAX), src: imm(16) },
        ],
        Op1::IsZero => assert_type_code(Register::RAX, int_type()) + seq![
            Instr::Cmp { dest: reg(Register::RAX), src: imm(0) },
        ] + materialise(false),
        Op1::IsChar => type_test_code(char_type()),
        Op1::IsBox => type_test_code(box_type()),
        Op1::IsCons => type_test_code(cons_type()),
        Op1::IsVector => type_test_code(vector_type()),
        Op1::IsString => type_test_code(string_type()),
        Op1::IsEof => seq![Instr::Cmp { dest: reg(Register::RAX), src: imm(EOF_BITS) }] + materialise(
            false,
        ),
        Op1::CharToInt => assert_type_code(Register::RAX, char_type()) + cast_code(
            Register::RAX,
            char_type(),
            int_type(),
        ),
        Op1::IntToChar => codepoint_code() + cast_code(Register::RAX, int_type(), char_type()),
        Op1::WriteByte => write_byte_code(),
        Op1::Box => seq![
            Instr::Mov { dest: mem(Register::RBX, 0), src: reg(Register::RAX) },
            Instr::Mov { dest: reg(Register::RAX), src: reg(Register::RBX) },
            Instr::Or { dest: reg(Register::RAX), src: imm(1) },
            Instr::Add { dest: reg(Register::RBX), src: imm(8) },
        ],
        Op1::Unbox => assert_type_code(Register::RAX, box_type()) + seq![
            Instr::Xor { dest: reg(Register::RAX), src: imm(1) },
            Instr::Mov { dest: reg(Register::RAX), src: mem(Register::RAX, 0) },
        ],
        Op1::Car => field_code(8),
        Op1::Cdr => field_code(0),
    }
}

/// The type that a unary operator needs of its operand, if any.
pub open spec fn operand_type(op: Op1) -> Option<UnaryType> {
    match op {
        Op1::Add1 | Op1::Sub1 | Op1::IsZero | Op1::IntToChar | Op1::WriteByte => Some(int_type()),
        Op1::CharToInt => Some(char_type()),
        Op1::Unbox => Some(box_type()),
        Op1::Car | Op1::Cdr => Some(cons_type()),
        _ => None,
    }
}

/// An operand of the wrong type never reaches an operator's effect: the code of every unary
/// operator that needs a type starts by testing it and jumping to the error label, before
/// it writes, reads memory or calls the runtime.
pub proof fn lemma_type_check_comes_first(op: Op1)
    ensures
        operand_type(op) matches Some(t) ==> op1_code(op).len() >= 4 && op1_code(op).subrange(0, 4)
            == assert_type_code(Register::RAX, t),
{
    match op {
        Op1::Add1 | Op1::Sub1 | Op1::IsZero | Op1::CharToInt | Op1::IntToChar | Op1::Unbox
        | Op1::Car | Op1::Cdr | Op1::WriteByte => {
            let t = operand_type(op)->Some_0;
            assert(op1_code(op).subrange(0, 4) =~= assert_type_code(Register::RAX, t));
        },
        _ => {},
    }
}

/// The code of the integer operators `+`, `-`, `=` and `<`, applied to r8 and rax.
pub open spec fn arith_code(op: Op2) -> Seq<Instr> {
    match op {
        Op2::Add => two_ints_code() + seq![
            Instr::Add { dest: reg(Register::RAX), src: reg(Register::R8) },
        ],
        Op2::Sub => two_ints_code() + seq![
            Instr::Sub { dest: reg(Register::R8), src: reg(Register::RAX) },
            Instr::Mov { dest: reg(Register::RAX), src: reg(Register::R8) },
        ],
        Op2::Equal => two_ints_code() + seq![
            Instr::Cmp { dest: reg(Register::RAX), src: reg(Register::R8) },
        ] + materialise(false),
        _ => two_ints_code() + seq![
            Instr::Cmp { dest: reg(Register::R8), src: reg(Register::RAX) },
        ] + materialise(true),
    }
}

pub open spec fn is_arith(op: Op2) -> bool {
    op == Op2::Add || op == Op2::Sub || op == Op2::Equal || op == Op2::LessThan
}

/// The integer operators test both operands before they compute.
pub proof fn lemma_arithmetic_checks_come_first(op: Op2)
    requires
        is_arith(op),
    ensures
        arith_code(op).subrange(0, 8) == assert_type_code(Register::RAX, int_type())
            + assert_type_code(Register::R8, int_type()),
{
    assert(arith_code(op).subrange(0, 8) =~= two_ints_code());
}

/// Sets rax to the result of a primitive without operands.
pub fn compile_prim0(op: Op0) -> (r: Vec<Statement>)
    ensures
        instrs(r@) == match op {
            Op0::ReadByte => call_code(READ_BYTE@),
            Op0::PeekByte => call_code(PEEK_BYTE@),
        },
{
    let r = match op {
        Op0::ReadByte => compile_read_byte(),
        Op0::PeekByte => compile_peek_byte(),
    };
    r
}

/// Evaluates the operand, then applies the operator to it.
pub fn compile_prim1(
    op: Op1,
    expr: &Expr,
    compiler: &mut Compiler,
    env: &VariablesTable,
) -> (r: Result<Vec<Statement>, CompileError>)
    requires
        old(compiler).wf(),
    ensures
        evolves(*old(compiler), *final(compiler)),
        r is Ok ==> free_vars(*expr).subset_of(bound_names(env.slots())),
        lowers_to(
            lower(Expr::Prim1(op, Box::new(*expr)), env.slots(), false, old(compiler).label_count(), old(compiler).literals()),
            r,
            final(compiler).label_count(),
        ),
        r matches Ok(s) ==> instrs(s@).len() >= op1_code(op).len() && instrs(s@).subrange(
            instrs(s@).len() - op1_code(op).len(),
            instrs(s@).len() as int,
        ) == op1_code(op),
    decreases size(*expr), 1nat,
{
    let mut r = match compile_expr(expr, compiler, env, false) {
        Ok(s) => s,
        Err(e) => {
            return Err(e);
        },
    };
    let ghost operand = instrs(r@);
    append_statements(&mut r, compile_op1(op));
    assert(instrs(r@).subrange(operand.len() as int, instrs(r@).len() as int) =~= op1_code(op));
    Ok(r)
}

/// Evaluates the operands left to right, the first into r8 and the second into rax, then
/// applies the operator. The first stays on the stack while the second is evaluated.
pub fn compile_prim2(
    op: Op2,
    first: &Expr,
    second: &Expr,
    compiler: &mut Compiler,
    env: &VariablesTable,
) -> (r: Result<Vec<Statement>, CompileError>)
    requires
        old(compiler).wf(),
    ensures
        evolves(*old(compiler), *final(compiler)),
        r is Ok ==> free_vars(*first).union(free_vars(*second)).subset_of(bound_names(env.slots())),
        lowers_to(
            lower(Expr::Prim2(op, Box::new(*first), Box::new(*second)), env.slots(), false, old(compiler).label_count(), old(compiler).literals()),
            r,
            final(compiler).label_count(),
        ),
        is_arith(op) ==> (r matches Ok(s) ==> ends_with(
            instrs(s@),
            seq![Instr::Pop { dest: reg(Register::R8) }] + arith_code(op),
        )),
    decreases size(*first) + size(*second), 1nat,
{
    let mut r = match compile_expr(first, compiler, env, false) {
        Ok(s) => s,
        Err(e) => {
            return Err(e);
        },
    };
    let ghost ca = instrs(r@);
    append_statements(&mut r, vec![Statement::Push { src: reg(Register::RAX) }]);
    let env2 = env.with_non_var();
    proof {
        lemma_bound_names_push(env.slots(), None);
    }
    let ghost cb;
    match compile_expr(second, compiler, &env2, false) {
        Ok(s) => {
            proof {
                cb = instrs(s@);
            }
            append_statements(&mut r, s)
        },
        Err(e) => {
            return Err(e);
        },
    }
    let ghost operands = instrs(r@);
    let ghost n2 = compiler.label_count();
    append_statements(&mut r, vec![Statement::Pop { dest: reg(Register::R8) }]);
    append_statements(&mut r, compile_op2(op, compiler));
    assert(instrs(r@) =~= ca + seq![Instr::Push { src: reg(Register::RAX) }] + cb + seq![
        Instr::Pop { dest: reg(Register::R8) },
    ] + op2_lower(op, n2).0);
    proof {
        if is_arith(op) {
            let tail = seq![Instr::Pop { dest: reg(Register::R8) }] + arith_code(op);
            assert(instrs(r@) =~= operands + tail);
            assert(instrs(r@).subrange(operands.len() as int, instrs(r@).len() as int) =~= tail);
        }
    }
    Ok(r)
}

/// Evaluates the operands left to right; the first two stay on the stack, the third ends
/// in rax. The operator pops the first two.
pub fn compile_prim3(
    op: Op3,
    first: &Expr,
    second: &Expr,
    third: &Expr,
    compiler: &mut Compiler,
    env: &VariablesTable,
) -> (r: Result<Vec<Statement>, CompileError>)
    requires
        old(compiler).wf(),
    ensures
        evolves(*old(compiler), *final(compiler)),
        r is Ok ==> free_vars(*first).union(free_vars(*second)).union(free_vars(*third)).subset_of(
            bound_names(env.slots()),
        ),
        lowers_to(
            lower(Expr::Prim3(op, Box::new(*first), Box::new(*second), Box::new(*third)), env.slots(), false, old(compiler).label_count(), old(compiler).literals()),
            r,
            final(compiler).label_count(),
        ),
    decreases size(*first) + size(*second) + size(*third), 1nat,
{
    let mut r = match compile_expr(first, compiler, env, false) {
        Ok(s) => s,
        Err(e) => {
            return Err(e);
        },
    };
    let ghost ca = instrs(r@);
    append_statements(&mut r, vec![Statement::Push { src: reg(Register::RAX) }]);
    let env2 = env.with_non_var();
    let ghost cb;
    match compile_expr(second, compiler, &env2, false) {
        Ok(s) => {
            proof {
                cb = instrs(s@);
            }
            append_statements(&mut r, s)
        },
        Err(e) => {
            return Err(e);
        },
    }
    append_statements(&mut r, vec![Statement::Push { src: reg(Register::RAX) }]);
    let env3 = env2.with_non_var();
    proof {
        lemma_bound_names_push(env.slots(), None);
        lemma_bound_names_push(env2.slots(), None);
    }
    let ghost cc;
    match compile_expr(third, compiler, &env3, false) {
        Ok(s) => {
            proof {
                cc = instrs(s@);
            }
            append_statements(&mut r, s)
        },
        Err(e) => {
            return Err(e);
        },
    }
    append_statements(&mut r, compile_op3(op, compiler));
    assert(instrs(r@) =~= ca + seq![Instr::Push { src: reg(Register::RAX) }] + cb + seq![
        Instr::Push { src: reg(Register::RAX) },
    ] + cc + vector_set_code());
    Ok(r)
}

/// Applies a unary operator to the value in rax.
fn compile_op1(op: Op1) -> (r: Vec<Statement>)
    ensures
        instrs(r@) == op1_code(op),
{
    match op {
        Op1::Add1 => compile_add1(),
        Op1::Sub1 => compile_sub1(),
        Op1::IsZero => compile_is_zero(),
        Op1::IsChar => is_type(&char_type()),
        Op1::IsBox => is_type(&box_type()),
        Op1::IsCons => is_type(&cons_type()),
        Op1::IsVector => is_type(&vector_type()),
        Op1::IsString => is_type(&string_type()),
        Op1::IsEof => is_eof(),
        Op1::CharToInt => char_to_int(),
        Op1::IntToChar => int_to_char(),
        Op1::WriteByte => compile_write_byte(),
        Op1::Box => compile_box(),
        Op1::Unbox => compile_unbox(),
        Op1::Car => compile_car(),
        Op1::Cdr => compile_cdr(),
    }
}

/// Applies a binary operator to r8 (the first operand) and rax (the second).
fn compile_op2(op: Op2, compiler: &mut Compiler) -> (r: Vec<Statement>)
    requires
        old(compiler).wf(),
    ensures
        evolves(*old(compiler), *final(compiler)),
        is_arith(op) ==> instrs(r@) == arith_code(op),
        instrs(r@) == op2_lower(op, old(compiler).label_count()).0,
        final(compiler).label_count() == op2_lower(op, old(compiler).label_count()).1,
        op == Op2::VectorRef ==> instrs(r@) == super::vector::element_check_code(Register::RAX)
            + seq![Instr::Mov { dest: reg(Register::RAX), src: mem(Register::R8, 8) }],
        op == Op2::StringRef ==> instrs(r@) == super::string::string_ref_code(),
{
    match op {
        Op2::Add => compile_add(),
        Op2::Sub => compile_sub(),
        Op2::Equal => compile_int_equal(),
        Op2::LessThan => compile_less_than(),
        Op2::Cons => compile_cons(),
        Op2::MakeVector => compile_make_vector(compiler),
        Op2::VectorRef => compile_vector_ref(compiler),
        Op2::MakeString => compile_make_string(compiler),
        Op2::StringRef => compile_string_ref(compiler),
    }
}

/// Applies a ternary operator to the second word of the stack, the top word and rax.
fn compile_op3(op: Op3, compiler: &mut Compiler) -> (r: Vec<Statement>)
    ensures
        *final(compiler) == *old(compiler),
        instrs(r@) == vector_set_code(),
{
    match op {
        Op3::VectorSet => compile_vector_set(compiler),
    }
}

} // verus!
