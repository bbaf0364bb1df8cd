use vstd::prelude::*;

use super::function::{compile_closure, compile_function_application};
use super::pattern_match::compile_match;
use super::primitive_functions::{compile_prim0, compile_prim1, compile_prim2, compile_prim3};
use super::state::{decimal, evolves, next_id, Compiler, MAX_SLOTS};
use super::string::compile_string_literal;
use super::variable::{
    bound_names, compile_let, compile_variable, lexical_address,
    VariablesTable,
};
use super::vector::numbered_label;
use crate::a86::ast::{append_statements, imm, instrs, mem, reg, Instr, Register, Statement};
use crate::mylang::ast::{free_vars, lambda_count, size, Expr, If, Lit};
use super::lowering::{lower, lower_lit, lowers_to};
use crate::mylang::data_type::{Value, FALSE_BITS, MAX_INT, MIN_INT};
use crate::mylang::error::CompileError;

verus! {

/// Sets rax to the value of `expr`, in the stack layout that `env` describes.
///
/// On exit the stack pointer and the slots are as on entry. Where `is_tail_expr` holds
/// and `expr` is an application, the call reuses the current frame and does not return
/// here. A name that no slot holds, or a literal that has no encoding, is an error.
pub fn compile_expr(
    expr: &Expr,
    compiler: &mut Compiler,
    env: &VariablesTable,
    is_tail_expr: bool,
) -> (r: Result<Vec<Statement>, CompileError>)
    requires
        old(compiler).wf(),
    ensures
        evolves(*old(compiler), *final(compiler)),
        r is Ok ==> free_vars(*expr).subset_of(bound_names(env.slots())),
        lowers_to(
            lower(*expr, env.slots(), is_tail_expr, old(compiler).label_count(), old(compiler).literals()),
            r,
            final(compiler).label_count(),
        ),
        *expr matches Expr::Variable(x) ==> (r is Ok <==> (lexical_address(env.slots(), x.0@) matches Some(k) && k <= MAX_SLOTS)),
        *expr matches Expr::Variable(x) ==> (r matches Ok(s) ==> exists|k: nat|
            lexical_address(env.slots(), x.0@) == Some(k) && instrs(s@) == seq![
                Instr::Mov { dest: reg(Register::RAX), src: mem(Register::RSP, (8 * k) as i64) },
            ]),
        *expr matches Expr::Lit(Lit::Int(i)) ==> (r is Ok <==> MIN_INT <= i <= MAX_INT),
        *expr matches Expr::Lit(Lit::Bool(b)) ==> (r matches Ok(s) && instrs(s@) == seq![
            Instr::Mov { dest: reg(Register::RAX), src: imm(if b { 24 } else { 56 }) },
        ]),
        *expr matches Expr::Lit(Lit::Char(c)) ==> (r matches Ok(s) && instrs(s@) == seq![
            Instr::Mov { dest: reg(Register::RAX), src: imm((c as int * 32 + 8) as i64) },
        ]),
        *expr matches Expr::Lit(Lit::Int(i)) ==> (r matches Ok(s) ==> instrs(s@) == seq![
            Instr::Mov { dest: reg(Register::RAX), src: imm((i * 16) as i64) },
        ]),
        expr matches Expr::Eof ==> (r matches Ok(s) && instrs(s@) == seq![
            Instr::Mov { dest: reg(Register::RAX), src: imm(Value::Eof.bits() as i64) },
        ]),
    decreases size(*expr), 0nat,
{
    match expr {
        Expr::Eof => Ok(compile_value(Value::Eof)),
        Expr::Lit(lit) => compile_literal(lit, compiler),
        Expr::Prim0(op) => Ok(compile_prim0(*op)),
        Expr::Prim1(op, e) => compile_prim1(*op, e, compiler, env),
        Expr::Prim2(op, first, second) => compile_prim2(*op, first, second, compiler, env),
        Expr::Prim3(op, first, second, third) => compile_prim3(
            *op,
            first,
            second,
            third,
            compiler,
            env,
        ),
        Expr::Begin(first, second) => compile_begin(first, second, compiler, env, is_tail_expr),
        Expr::If(if_expr) => compile_if_expr(if_expr, compiler, env, is_tail_expr),
        Expr::Match(match_expr) => compile_match(match_expr, compiler, env, is_tail_expr),
        Expr::Variable(variable) => compile_variable(variable, compiler, env),
        Expr::Let(let_expr) => compile_let(let_expr, compiler, env, is_tail_expr),
        Expr::App(app) => compile_function_application(app, compiler, env, is_tail_expr),
        Expr::Lambda(lambda) => compile_closure(lambda, env),
    }
}

/// Sets rax to the literal. An integer outside the range that the encoding holds is an
/// error, as is a string missing from the table.
fn compile_literal(lit: &Lit, compiler: &Compiler) -> (r: Result<Vec<Statement>, CompileError>)
    requires
        compiler.wf(),
    ensures
        r is Ok <==> lower_lit(*lit, compiler.literals()) is Some,
        r matches Ok(c) ==> lower_lit(*lit, compiler.literals()) == Some(instrs(c@)),
        *lit matches Lit::Int(i) ==> (r is Ok <==> MIN_INT <= i <= MAX_INT),
        *lit matches Lit::Int(i) ==> (r matches Ok(s) ==> instrs(s@) == seq![
            Instr::Mov { dest: reg(Register::RAX), src: imm((i * 16) as i64) },
        ]),
        *lit matches Lit::Bool(b) ==> (r matches Ok(s) && instrs(s@) == seq![
            Instr::Mov { dest: reg(Register::RAX), src: imm(if b { 24 } else { 56 }) },
        ]),
        *lit matches Lit::Char(c) ==> (r matches Ok(s) && instrs(s@) == seq![
            Instr::Mov { dest: reg(Register::RAX), src: imm((c as int * 32 + 8) as i64) },
        ]),
        *lit matches Lit::EmptyList ==> (r matches Ok(s) && instrs(s@) == seq![
            Instr::Mov { dest: reg(Register::RAX), src: imm(152) },
        ]),
{
    match lit {
        Lit::Int(i) => {
            if *i < MIN_INT || *i > MAX_INT {
                Err(CompileError { msg: String::from_str("Integer literal out of range.") })
            } else {
                Ok(compile_value(Value::Int(*i)))
            }
        },
        Lit::Bool(b) => Ok(compile_value(Value::Boolean(*b))),
        Lit::Char(c) => Ok(compile_value(Value::Char(*c))),
        Lit::String(s) => compile_string_literal(s.as_str(), compiler),
        Lit::EmptyList => Ok(compile_value(Value::EmptyList)),
    }
}

/// Sets rax to the encoding of `value`.
fn compile_value(value: Value) -> (r: Vec<Statement>)
    requires
        value.encodable(),
    ensures
        instrs(r@) == seq![Instr::Mov { dest: reg(Register::RAX), src: imm(value.bits() as i64) }],
{
    let ghost v = value;
    let r = vec![Statement::Mov { dest: reg(Register::RAX), src: imm(value.encode()) }];
    assert(instrs(r@) =~= seq![Instr::Mov { dest: reg(Register::RAX), src: imm(v.bits() as i64) }]);
    r
}

/// Evaluates `first` for its effects, then `second`, which keeps the tail position.
fn compile_begin(
    first: &Expr,
    second: &Expr,
    compiler: &mut Compiler,
    env: &VariablesTable,
    is_tail_expr: bool,
) -> (r: Result<Vec<Statement>, CompileError>)
    requires
        old(compiler).wf(),
    ensures
        evolves(*old(compiler), *final(compiler)),
        r is Ok ==> free_vars(*first).union(free_vars(*second)).subset_of(bound_names(env.slots())),
        lowers_to(
            lower(Expr::Begin(Box::new(*first), Box::new(*second)), env.slots(), is_tail_expr, old(compiler).label_count(), old(compiler).literals()),
            r,
            final(compiler).label_count(),
        ),
    decreases size(*first) + size(*second), 1nat,
{
    let mut r = match compile_expr(first, compiler, env, false) {
        Ok(s) => s,
        Err(e) => {
            return Err(e);
        },
    };
    match compile_expr(second, compiler, env, is_tail_expr) {
        Ok(s) => append_statements(&mut r, s),
        Err(e) => {
            return Err(e);
        },
    }
    Ok(r)
}

/// Evaluates the condition; any value but false selects the first branch. Both branches
/// keep the tail position.
fn compile_if_expr(
    if_expr: &If,
    compiler: &mut Compiler,
    env: &VariablesTable,
    is_tail_expr: bool,
) -> (r: Result<Vec<Statement>, CompileError>)
    requires
        old(compiler).wf(),
    ensures
        evolves(*old(compiler), *final(compiler)),
        r is Ok ==> free_vars(*if_expr.cond).union(free_vars(*if_expr.then_expr)).union(
            free_vars(*if_expr.els),
        ).subset_of(bound_names(env.slots())),
        lowers_to(
            lower(Expr::If(*if_expr), env.slots(), is_tail_expr, old(compiler).label_count(), old(compiler).literals()),
            r,
            final(compiler).label_count(),
        ),
    decreases size(*if_expr.cond) + size(*if_expr.then_expr) + size(*if_expr.els), 1nat,
{
    let label_id = compiler.new_label_id();
    let else_label = numbered_label("else_", &label_id);
    let end_label = numbered_label("end_", &label_id);
    let ghost (cc, ct, ce);
    let mut r = match compile_expr(&if_expr.cond, compiler, env, false) {
        Ok(s) => s,
        Err(e) => {
            return Err(e);
        },
    };
    proof {
        cc = instrs(r@);
    }
    append_statements(
        &mut r,
        vec![
            Statement::Cmp { dest: reg(Register::RAX), src: imm(Value::Boolean(false).encode()) },
            Statement::Je { label: else_label.clone() },
        ],
    );
    match compile_expr(&if_expr.then_expr, compiler, env, is_tail_expr) {
        Ok(s) => {
            proof {
                ct = instrs(s@);
            }
            append_statements(&mut r, s)
        },
        Err(e) => {
            return Err(e);
        },
    }
    append_statements(
        &mut r,
        vec![Statement::Jmp { label: end_label.clone() }, Statement::Label { name: else_label }],
    );
    match compile_expr(&if_expr.els, compiler, env, is_tail_expr) {
        Ok(s) => {
            proof {
                ce = instrs(s@);
            }
            append_statements(&mut r, s)
        },
        Err(e) => {
            return Err(e);
        },
    }
    append_statements(&mut r, vec![Statement::Label { name: end_label }]);
    proof {
        let els = "else_"@ + decimal(next_id(old(compiler).label_count()));
        let end = "end_"@ + decimal(next_id(old(compiler).label_count()));
        assert(instrs(r@) =~= cc + seq![
            Instr::Cmp { dest: reg(Register::RAX), src: imm(56) },
            Instr::Je { label: els },
        ] + ct + seq![Instr::Jmp { label: end }, Instr::Label { name: els }] + ce + seq![
            Instr::Label { name: end },
        ]);
    }
    Ok(r)
}

} // verus!
