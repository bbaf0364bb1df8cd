//! Functions and the calling convention.
//!
//! The caller pushes a return address, the closure, then the arguments in order, so the
//! last argument is on top of the stack. The callee pops all of them before it returns.
//! A closure is a heap record: the address of the function's code, then the values of the
//! variables that the function captures.
use vstd::prelude::*;

use super::expr::compile_expr;
use super::lowering::{
    closure_code,
    closures_code, def_names, somes,
    allocate_code, capture_stores, closure_words, def_captured, init_code, lemma_allocate_prefix_fails,
    lemma_capture_stores_prefix_fails, lemma_init_prefix_fails,
    capture_loads, code_block, defines_code, frame_slots,
    lemma_lower_args_prefix_fails, lower, lower_args, lower_call, lowers_to, nones,
};
use super::types::assert_type_code;
use super::defined_names;
use super::state::{evolves, push_decimal, slot_offset, Compiler, MAX_SLOTS};
use super::types::assert_closure;
use super::variable::{bound_names, lemma_address_bound, lemma_bound_names_push, lexical_address, VariablesTable};
use super::vector::{copy_string, numbered_label};
use crate::a86::ast::{
    append_statements, ends_with, imm, instrs, mem, reg, Instr, Register, Statement,
};
use crate::mylang::ast::{
    arm_lambda_counts, arm_sizes, distinct_names, free_vars, free_vars_arms, free_vars_seq,
    lambda_count, lambda_counts, lemma_arm_lambda_counts_bound, lemma_arm_sizes_bound,
    lemma_lambda_counts_bound,
    lemma_sizes_bound, names, pattern_vars, size, sizes, App, Arm, Expr, FunctionDefinition,
    Identifier, Lambda, Pattern, Program,
};
use crate::mylang::data_type::closure_type;
use crate::mylang::ast::{add_all_s, captured_list, fv_args, fv_arms, fv_list, ids, pattern_var_list, without_s};
use crate::mylang::error::CompileError;
use crate::text::{chars_of, push_char};

verus! {

/// The code blocks of the functions that the program defines.
pub fn compile_defines(program: &Program, compiler: &mut Compiler) -> (r: Result<
    Vec<Statement>,
    CompileError,
>)
    requires
        old(compiler).wf(),
    ensures
        evolves(*old(compiler), *final(compiler)),
        lowers_to(
            defines_code(program.function_definitions@, old(compiler).label_count(), old(compiler).literals()),
            r,
            final(compiler).label_count(),
        ),
{
    let ghost defs = program.function_definitions@;
    let ghost t = old(compiler).literals();
    let mut r: Vec<Statement> = Vec::new();
    let mut i: usize = 0;
    assert(defs.subrange(0, 0) =~= Seq::<FunctionDefinition>::empty());
    while i < program.function_definitions.len()
        invariant
            i <= defs.len(),
            defs == program.function_definitions@,
            t == compiler.literals(),
            evolves(*old(compiler), *compiler),
            defines_code(defs.subrange(0, i as int), old(compiler).label_count(), t) == Some((instrs(r@), compiler.label_count())),
        decreases program.function_definitions@.len() - i,
    {
        assert(defs.subrange(0, i + 1).drop_last() =~= defs.subrange(0, i as int));
        assert(defs.subrange(0, i + 1).last() == defs[i as int]);
        let ghost before = instrs(r@);
        match compile_define(&program.function_definitions[i], compiler) {
            Ok(s) => {
                let ghost cb = instrs(s@);
                append_statements(&mut r, s);
                assert(instrs(r@) =~= before + cb);
            },
            Err(e) => {
                proof {
                    lemma_defines_prefix_fails(defs, i + 1, old(compiler).label_count(), t);
                }
                return Err(e);
            },
        }
        i = i + 1;
    }
    assert(defs.subrange(0, i as int) =~= defs);
    Ok(r)
}

/// The names of the functions that the program defines, in order.
pub fn defined_ids(program: &Program) -> (r: Vec<Identifier>)
    ensures
        r@.len() == program.function_definitions@.len(),
        forall|i: int|
            0 <= i < r@.len() ==> (#[trigger] r@[i]).0@
                == program.function_definitions@[i].signature.name.0@,
{
    let mut r: Vec<Identifier> = Vec::new();
    let mut i: usize = 0;
    while i < program.function_definitions.len()
        invariant
            i <= program.function_definitions@.len(),
            r@.len() == i,
            forall|k: int|
                0 <= k < i ==> (#[trigger] r@[k]).0@
                    == program.function_definitions@[k].signature.name.0@,
        decreases program.function_definitions@.len() - i,
    {
        r.push(program.function_definitions[i].signature.name.copy());
        i = i + 1;
    }
    r
}

fn compile_define(definition: &FunctionDefinition, compiler: &mut Compiler) -> (r: Result<
    Vec<Statement>,
    CompileError,
>)
    requires
        old(compiler).wf(),
    ensures
        evolves(*old(compiler), *final(compiler)),
        lowers_to(
            code_block(definition.signature.name.0@, ids(definition.signature.params@), definition.body, old(compiler).label_count(), old(compiler).literals()),
            r,
            final(compiler).label_count(),
        ),
{
    compile_code_block(
        &definition.signature.name,
        &definition.signature.params,
        &definition.body,
        compiler,
    )
}

/// Allocates and fills the closures of all defined functions, pushing each closure in the
/// order of the definitions. The closures are allocated first and filled after, as they
/// may refer to one another.
pub fn compile_closures_for_defines(program: &Program) -> (r: Result<Vec<Statement>, CompileError>)
    ensures
        r is Ok ==> forall|i: int|
            0 <= i < program.function_definitions@.len() ==> #[trigger] captures(
                program.function_definitions@[i],
            ).subset_of(defined_names(*program)),
        r is Ok <==> closures_code(program.function_definitions@) is Some,
        r matches Ok(s) ==> closures_code(program.function_definitions@) == Some(instrs(s@)),
{
    let definitions = &program.function_definitions;
    let mut r = match allocate_closures(definitions) {
        Ok(s) => s,
        Err(e) => {
            return Err(e);
        },
    };
    let ids = defined_ids(program);
    let env = VariablesTable::new().extended(&ids);
    proof {
        assert forall|i: int| 0 <= i < env.slots().len() implies #[trigger] env.slots()[i] == Some(
            program.function_definitions@[i].signature.name.0@,
        ) by {
            assert(ids@[i].0@ == program.function_definitions@[i].signature.name.0@);
        }
        lemma_defines_bound(program, env.slots());
        assert(env.slots() =~= somes(def_names(program.function_definitions@)));
    }
    let ghost ca = instrs(r@);
    let ghost ci;
    let size = match init_closures(definitions, &env) {
        Ok((s, size)) => {
            proof {
                ci = instrs(s@);
            }
            append_statements(&mut r, s);
            size
        },
        Err(e) => {
            return Err(e);
        },
    };
    // Advance the heap pointer past the closures.
    append_statements(&mut r, vec![Statement::Add { dest: reg(Register::RBX), src: imm(size) }]);
    assert(instrs(r@) =~= ca + ci + seq![
        Instr::Add { dest: reg(Register::RBX), src: imm((8 * closure_words(program.function_definitions@)) as i64) },
    ]);
    Ok(r)
}

/// No definition's body holds a lambda expression.
pub open spec fn defs_lambda_free(defs: Seq<FunctionDefinition>) -> bool {
    forall|i: int| 0 <= i < defs.len() ==> lambda_count(#[trigger] defs[i].body) == 0
}

/// A failing prefix of the definitions fails them all.
pub proof fn lemma_defines_prefix_fails(defs: Seq<FunctionDefinition>, j: int, n: nat, t: Seq<Seq<char>>)
    requires
        0 <= j <= defs.len(),
        defines_code(defs.subrange(0, j), n, t) is None,
    ensures
        defines_code(defs, n, t) is None,
    decreases defs.len(),
{
    if j == defs.len() {
        assert(defs.subrange(0, j) =~= defs);
    } else {
        assert(defs.drop_last().subrange(0, j) =~= defs.subrange(0, j));
        lemma_defines_prefix_fails(defs.drop_last(), j, n, t);
    }
}

/// What the closure of a defined function captures: the free variables of its body other
/// than its parameters and its own name.
pub open spec fn captures(definition: FunctionDefinition) -> Set<Seq<char>> {
    free_vars(definition.body).difference(names(definition.signature.params@)).difference(
        set![definition.signature.name.0@],
    )
}

/// The slots of the defined functions, in order, bind exactly their names.
pub proof fn lemma_defines_bound(program: &Program, slots: Seq<Option<Seq<char>>>)
    requires
        slots.len() == program.function_definitions@.len(),
        forall|i: int|
            0 <= i < slots.len() ==> #[trigger] slots[i] == Some(
                program.function_definitions@[i].signature.name.0@,
            ),
    ensures
        bound_names(slots) == defined_names(*program),
{
    assert forall|n: Seq<char>| bound_names(slots).contains(n) implies defined_names(*program).contains(n) by {
        let k = choose|k: int| 0 <= k < slots.len() && slots[k] == Some(n);
        assert(program.function_definitions@[k].signature.name.0@ == n);
    }
    assert forall|n: Seq<char>| defined_names(*program).contains(n) implies bound_names(slots).contains(n) by {
        let k = choose|k: int|
            0 <= k < program.function_definitions@.len()
                && #[trigger] program.function_definitions@[k].signature.name.0@ == n;
        assert(slots[k] == Some(n));
    }
    assert(bound_names(slots) =~= defined_names(*program));
}

/// Writes the code address of each definition's closure to the heap and pushes the tagged
/// pointer to the closure.
fn allocate_closures(definitions: &Vec<FunctionDefinition>) -> (r: Result<
    Vec<Statement>,
    CompileError,
>)
    ensures
        r is Ok <==> allocate_code(definitions@) is Some,
        r matches Ok(s) ==> allocate_code(definitions@) == Some(instrs(s@)),
{
    let ghost defs = definitions@;
    let mut r: Vec<Statement> = Vec::new();
    let mut words: usize = 0;
    let mut i: usize = 0;
    assert(defs.subrange(0, 0) =~= Seq::<FunctionDefinition>::empty());
    while i < definitions.len()
        invariant
            i <= definitions@.len(),
            defs == definitions@,
            words <= MAX_SLOTS,
            words == closure_words(defs.subrange(0, i as int)),
            allocate_code(defs.subrange(0, i as int)) == Some(instrs(r@)),
        decreases definitions@.len() - i,
    {
        assert(defs.subrange(0, i + 1).drop_last() =~= defs.subrange(0, i as int));
        assert(defs.subrange(0, i + 1).last() == defs[i as int]);
        let ghost before = instrs(r@);
        let definition = &definitions[i];
        let offset = match slot_offset(words) {
            Ok(v) => v,
            Err(e) => {
                return Err(e);
            },
        };
        let step = vec![
            Statement::Lea { dest: reg(Register::RAX), label: get_label(&definition.signature.name) },
            Statement::Mov { dest: mem(Register::RBX, offset), src: reg(Register::RAX) },
            Statement::Mov { dest: reg(Register::RAX), src: reg(Register::RBX) },
            Statement::Add { dest: reg(Register::RAX), src: imm(offset) },
            Statement::Or { dest: reg(Register::RAX), src: imm(closure_type().tag.0 as i64) },
            Statement::Push { src: reg(Register::RAX) },
        ];
        append_statements(&mut r, step);
        let captured = lambda_free_variables(
            &definition.signature.name,
            &definition.signature.params,
            &definition.body,
        );
        assert(captured@.len() == def_captured(defs[i as int]).len());
        if captured.len() >= MAX_SLOTS - words {
            proof {
                lemma_allocate_prefix_fails(defs, i + 1);
            }
            return Err(CompileError { msg: String::from_str("Program too large.") });
        }
        assert(instrs(r@) =~= before + seq![
            Instr::Lea { dest: reg(Register::RAX), label: "lambda_"@ + mangle(defs[i as int].signature.name.0@) },
            Instr::Mov { dest: mem(Register::RBX, (8 * words) as i64), src: reg(Register::RAX) },
            Instr::Mov { dest: reg(Register::RAX), src: reg(Register::RBX) },
            Instr::Add { dest: reg(Register::RAX), src: imm((8 * words) as i64) },
            Instr::Or { dest: reg(Register::RAX), src: imm(5) },
            Instr::Push { src: reg(Register::RAX) },
        ]);
        words = words + 1 + captured.len();
        i = i + 1;
    }
    assert(defs.subrange(0, i as int) =~= defs);
    Ok(r)
}

/// Copies the captured values of each closure from the slots of `env`; returns the code
/// and the bytes that the closures take.
fn init_closures(definitions: &Vec<FunctionDefinition>, env: &VariablesTable) -> (r: Result<
    (Vec<Statement>, i64),
    CompileError,
>)
    ensures
        r is Ok ==> forall|i: int|
            0 <= i < definitions@.len() ==> #[trigger] captures(definitions@[i]).subset_of(
                bound_names(env.slots()),
            ),
        r is Ok <==> init_code(definitions@, env.slots()) is Some && closure_words(definitions@) <= MAX_SLOTS,
        r matches Ok((s, size)) ==> init_code(definitions@, env.slots()) == Some(instrs(s@)) && size == 8 * closure_words(definitions@),
{
    let ghost defs = definitions@;
    assert(defs.subrange(0, 0) =~= Seq::<FunctionDefinition>::empty());
    let mut r: Vec<Statement> = Vec::new();
    let mut words: usize = 0;
    let mut i: usize = 0;
    while i < definitions.len()
        invariant
            i <= definitions@.len(),
            words <= MAX_SLOTS,
            defs == definitions@,
            words == closure_words(defs.subrange(0, i as int)),
            init_code(defs.subrange(0, i as int), env.slots()) == Some(instrs(r@)),
            forall|k: int|
                0 <= k < i ==> #[trigger] captures(definitions@[k]).subset_of(
                    bound_names(env.slots()),
                ),
        decreases definitions@.len() - i,
    {
        assert(defs.subrange(0, i + 1).drop_last() =~= defs.subrange(0, i as int));
        assert(defs.subrange(0, i + 1).last() == defs[i as int]);
        let ghost before = instrs(r@);
        let definition = &definitions[i];
        let captured = lambda_free_variables(
            &definition.signature.name,
            &definition.signature.params,
            &definition.body,
        );
        assert(captured@.len() == def_captured(defs[i as int]).len());
        if captured.len() >= MAX_SLOTS - words {
            proof {
                lemma_init_prefix_fails(defs, i + 1, env.slots());
            }
            return Err(CompileError { msg: String::from_str("Program too large.") });
        }
        match capture_variables(&captured, env, words + 1) {
            Ok(s) => {
                let ghost cs = instrs(s@);
                append_statements(&mut r, s);
                assert(instrs(r@) =~= before + cs);
            },
            Err(e) => {
                proof {
                    lemma_init_prefix_fails(defs, i + 1, env.slots());
                }
                return Err(e);
            },
        }
        assert forall|n: Seq<char>| captures(definitions@[i as int]).contains(n) implies bound_names(env.slots()).contains(n) by {
            assert(names(captured@).contains(n));
            let k = choose|k: int| 0 <= k < captured@.len() && #[trigger] captured@[k].0@ == n;
            lemma_address_bound(env.slots(), n);
        }
        words = words + 1 + captured.len();
        i = i + 1;
    }
    assert(defs.subrange(0, i as int) =~= defs);
    match slot_offset(words) {
        Ok(size) => Ok((r, size)),
        Err(e) => Err(e),
    }
}

/// The code blocks of all lambda expressions of the program.
pub fn compile_lambda_definitions(program: &Program, compiler: &mut Compiler) -> (r: Result<
    Vec<Statement>,
    CompileError,
>)
    requires
        old(compiler).wf(),
    ensures
        evolves(*old(compiler), *final(compiler)),
        defs_lambda_free(program.function_definitions@) && lambda_count(program.expr) == 0 ==> (r matches Ok(s)
            && s@.len() == 0),
{
    let mut r: Vec<Statement> = Vec::new();
    let mut i: usize = 0;
    while i < program.function_definitions.len()
        invariant
            i <= program.function_definitions@.len(),
            evolves(*old(compiler), *compiler),
            defs_lambda_free(program.function_definitions@) ==> r@.len() == 0,
        decreases program.function_definitions@.len() - i,
    {
        assert(defs_lambda_free(program.function_definitions@) ==> lambda_count(program.function_definitions@[i as int].body) == 0);
        match lambdas_in_expr(&program.function_definitions[i].body, compiler, &mut r) {
            Ok(()) => {},
            Err(e) => {
                return Err(e);
            },
        }
        i = i + 1;
    }
    match lambdas_in_expr(&program.expr, compiler, &mut r) {
        Ok(()) => {},
        Err(e) => {
            return Err(e);
        },
    }
    Ok(r)
}

/// `after` extends `before`.
pub open spec fn extends(before: Seq<Statement>, after: Seq<Statement>) -> bool {
    after.len() >= before.len() && after.subrange(0, before.len() as int) == before
}

/// Appends to `out` the code blocks of the lambda expressions within `expr`.
fn lambdas_in_expr(expr: &Expr, compiler: &mut Compiler, out: &mut Vec<Statement>) -> (r: Result<
    (),
    CompileError,
>)
    requires
        old(compiler).wf(),
    ensures
        evolves(*old(compiler), *final(compiler)),
        extends(old(out)@, final(out)@),
        lambda_count(*expr) == 0 ==> (r is Ok && final(out)@ == old(out)@),
    decreases size(*expr),
{
    let ghost start = out@;
    match expr {
        Expr::Prim1(_, e) => lambdas_in_expr(e, compiler, out),
        Expr::Prim2(_, a, b) | Expr::Begin(a, b) => {
            match lambdas_in_expr(a, compiler, out) {
                Ok(()) => {},
                Err(e) => {
                    return Err(e);
                },
            }
            let ghost mid = out@;
            let r = lambdas_in_expr(b, compiler, out);
            assert(out@.subrange(0, start.len() as int) =~= mid.subrange(0, start.len() as int));
            r
        },
        Expr::Prim3(_, a, b, c) => {
            match lambdas_in_expr(a, compiler, out) {
                Ok(()) => {},
                Err(e) => {
                    return Err(e);
                },
            }
            let ghost mid = out@;
            match lambdas_in_expr(b, compiler, out) {
                Ok(()) => {},
                Err(e) => {
                    assert(out@.subrange(0, start.len() as int) =~= mid.subrange(0, start.len() as int));
                    return Err(e);
                },
            }
            let ghost mid2 = out@;
            assert(mid2.subrange(0, start.len() as int) =~= mid.subrange(0, start.len() as int));
            let r = lambdas_in_expr(c, compiler, out);
            assert(out@.subrange(0, start.len() as int) =~= mid2.subrange(0, start.len() as int));
            r
        },
        Expr::If(i) => {
            match lambdas_in_expr(&i.cond, compiler, out) {
                Ok(()) => {},
                Err(e) => {
                    return Err(e);
                },
            }
            let ghost mid = out@;
            match lambdas_in_expr(&i.then_expr, compiler, out) {
                Ok(()) => {},
                Err(e) => {
                    assert(out@.subrange(0, start.len() as int) =~= mid.subrange(0, start.len() as int));
                    return Err(e);
                },
            }
            let ghost mid2 = out@;
            assert(mid2.subrange(0, start.len() as int) =~= mid.subrange(0, start.len() as int));
            let r = lambdas_in_expr(&i.els, compiler, out);
            assert(out@.subrange(0, start.len() as int) =~= mid2.subrange(0, start.len() as int));
            r
        },
        Expr::Let(l) => {
            match lambdas_in_expr(&l.binding.rhs, compiler, out) {
                Ok(()) => {},
                Err(e) => {
                    return Err(e);
                },
            }
            let ghost mid = out@;
            let r = lambdas_in_expr(&l.body, compiler, out);
            assert(out@.subrange(0, start.len() as int) =~= mid.subrange(0, start.len() as int));
            r
        },
        Expr::App(app) => {
            match lambdas_in_expr(&app.function, compiler, out) {
                Ok(()) => {},
                Err(e) => {
                    return Err(e);
                },
            }
            let mut i: usize = 0;
            while i < app.args.len()
                invariant
                    i <= app.args@.len(),
                    evolves(*old(compiler), *compiler),
                    size(*expr) == 1 + size(*app.function) + sizes(app.args@),
                    lambda_count(*expr) == lambda_count(*app.function) + lambda_counts(app.args@),
                    extends(start, out@),
                    start == old(out)@,
                    lambda_count(*expr) == 0 ==> out@ == start,
                decreases app.args@.len() - i,
            {
                proof {
                    lemma_sizes_bound(app.args@, i as int);
                    lemma_lambda_counts_bound(app.args@, i as int);
                }
                let ghost mid = out@;
                match lambdas_in_expr(&app.args[i], compiler, out) {
                    Ok(()) => {},
                    Err(e) => {
                        assert(out@.subrange(0, start.len() as int) =~= mid.subrange(0, start.len() as int));
                        return Err(e);
                    },
                }
                assert(out@.subrange(0, start.len() as int) =~= mid.subrange(0, start.len() as int));
                i = i + 1;
            }
            Ok(())
        },
        Expr::Match(m) => {
            match lambdas_in_expr(&m.expr, compiler, out) {
                Ok(()) => {},
                Err(e) => {
                    return Err(e);
                },
            }
            let mut i: usize = 0;
            while i < m.arms.len()
                invariant
                    i <= m.arms@.len(),
                    evolves(*old(compiler), *compiler),
                    size(*expr) == 1 + size(*m.expr) + arm_sizes(m.arms@),
                    lambda_count(*expr) == lambda_count(*m.expr) + arm_lambda_counts(m.arms@),
                    extends(start, out@),
                    start == old(out)@,
                    lambda_count(*expr) == 0 ==> out@ == start,
                decreases m.arms@.len() - i,
            {
                proof {
                    lemma_arm_sizes_bound(m.arms@, i as int);
                    lemma_arm_lambda_counts_bound(m.arms@, i as int);
                }
                let ghost mid = out@;
                match lambdas_in_expr(&m.arms[i].body, compiler, out) {
                    Ok(()) => {},
                    Err(e) => {
                        assert(out@.subrange(0, start.len() as int) =~= mid.subrange(0, start.len() as int));
                        return Err(e);
                    },
                }
                assert(out@.subrange(0, start.len() as int) =~= mid.subrange(0, start.len() as int));
                i = i + 1;
            }
            Ok(())
        },
        Expr::Lambda(lambda) => {
            match compile_lambda_definition(lambda, compiler) {
                Ok(s) => append_statements(out, s),
                Err(e) => {
                    assert(out@.subrange(0, start.len() as int) =~= start);
                    return Err(e);
                },
            }
            let ghost mid = out@;
            assert(mid.subrange(0, start.len() as int) =~= start);
            let r = lambdas_in_expr(&lambda.body, compiler, out);
            assert(out@.subrange(0, start.len() as int) =~= mid.subrange(0, start.len() as int));
            r
        },
        _ => {
            assert(out@.subrange(0, start.len() as int) =~= start);
            Ok(())
        },
    }
}

/// The code block of a lambda expression, under its label. It expects the return
/// address, the closure and the arguments on the stack, as the calling convention puts
/// them.
pub fn compile_lambda_definition(lambda: &Lambda, compiler: &mut Compiler) -> (r: Result<
    Vec<Statement>,
    CompileError,
>)
    requires
        old(compiler).wf(),
    ensures
        evolves(*old(compiler), *final(compiler)),
{
    compile_code_block(&lambda.id, &lambda.params, &lambda.body, compiler)
}

/// The code of the function `id`: copy the captured values from the closure to the stack,
/// evaluate the body in tail position over the slots `id` (the closure), the parameters
/// and the captured variables, then pop them all and return.
fn compile_code_block(
    id: &Identifier,
    params: &Vec<Identifier>,
    body: &Expr,
    compiler: &mut Compiler,
) -> (r: Result<Vec<Statement>, CompileError>)
    requires
        old(compiler).wf(),
    ensures
        evolves(*old(compiler), *final(compiler)),
        r matches Ok(s) ==> instrs(s@).len() >= 4 && instrs(s@)[0] == (Instr::Label {
            name: "lambda_"@ + mangle(id.0@),
        }) && instrs(s@).last() == Instr::Ret,
        lowers_to(
            code_block(id.0@, ids(params@), *body, old(compiler).label_count(), old(compiler).literals()),
            r,
            final(compiler).label_count(),
        ),
{
    let closure_offset = match slot_offset(params.len()) {
        Ok(v) => v,
        Err(e) => {
            return Err(e);
        },
    };
    let mut r = vec![
        Statement::Label { name: get_label(id) },
        // Load the closure pointer, below the arguments.
        Statement::Mov { dest: reg(Register::RAX), src: mem(Register::RSP, closure_offset) },
        Statement::Xor { dest: reg(Register::RAX), src: imm(closure_type().tag.0 as i64) },
    ];
    let ghost head = instrs(r@);
    assert(head =~= seq![
        Instr::Label { name: "lambda_"@ + mangle(id.0@) },
        Instr::Mov { dest: reg(Register::RAX), src: mem(Register::RSP, (8 * params@.len()) as i64) },
        Instr::Xor { dest: reg(Register::RAX), src: imm(5) },
    ]);
    let captured = lambda_free_variables(id, params, body);
    assert(captured@.len() == captured_list(id.0@, ids(params@), *body).len());
    assert(ids(params@).len() == params@.len());
    if captured.len() >= MAX_SLOTS {
        return Err(CompileError { msg: String::from_str("Program too large.") });
    }
    let mut i: usize = 0;
    assert(instrs(r@) =~= head + capture_loads(0));
    while i < captured.len()
        invariant
            i <= captured@.len() < MAX_SLOTS,
            instrs(r@).len() >= 3,
            instrs(r@)[0] == (Instr::Label { name: "lambda_"@ + mangle(id.0@) }),
            instrs(r@) == head + capture_loads(i as nat),
        decreases captured@.len() - i,
    {
        // The value at [rax] is the code address; the captured values follow it.
        append_statements(
            &mut r,
            vec![
                Statement::Mov { dest: reg(Register::R8), src: mem(Register::RAX, 8 + 8 * i as i64) },
                Statement::Push { src: reg(Register::R8) },
            ],
        );
        assert(instrs(r@) =~= head + capture_loads((i + 1) as nat));
        i = i + 1;
    }
    let env = VariablesTable::new().with_var(id).extended(params).extended(&captured);
    assert(env.slots() =~= frame_slots(id.0@, ids(params@), *body));
    let ghost loads = instrs(r@);
    let ghost cb;
    match compile_expr(body, compiler, &env, true) {
        Ok(s) => {
            proof {
                cb = instrs(s@);
            }
            append_statements(&mut r, s)
        },
        Err(e) => {
            return Err(e);
        },
    }
    let frame = match slot_offset(env.len()) {
        Ok(v) => v,
        Err(e) => {
            return Err(e);
        },
    };
    append_statements(
        &mut r,
        vec![Statement::Add { dest: reg(Register::RSP), src: imm(frame) }, Statement::Ret],
    );
    assert(instrs(r@) =~= loads + cb + seq![
        Instr::Add { dest: reg(Register::RSP), src: imm((8 * env.slots().len()) as i64) },
        Instr::Ret,
    ]);
    Ok(r)
}

/// Allocates the closure of `lambda` on the heap, capturing its free variables from the
/// slots of `env`, and sets rax to the tagged pointer.
pub fn compile_closure(lambda: &Lambda, env: &VariablesTable) -> (r: Result<
    Vec<Statement>,
    CompileError,
>)
    ensures
        r matches Ok(s) ==> instrs(s@).len() >= 5 && instrs(s@)[0] == (Instr::Lea {
            dest: reg(Register::RAX),
            label: "lambda_"@ + mangle(lambda.id.0@),
        }),
        r is Ok ==> free_vars(*lambda.body).difference(names(lambda.params@)).difference(
            set![lambda.id.0@],
        ).subset_of(bound_names(env.slots())),
        r is Ok <==> closure_code(lambda.id.0@, ids(lambda.params@), *lambda.body, env.slots()) is Some,
        r matches Ok(s) ==> closure_code(lambda.id.0@, ids(lambda.params@), *lambda.body, env.slots()) == Some(instrs(s@)),
{
    let mut r = vec![
        Statement::Lea { dest: reg(Register::RAX), label: get_label(&lambda.id) },
        Statement::Mov { dest: mem(Register::RBX, 0), src: reg(Register::RAX) },
    ];
    let captured = lambda_free_variables(&lambda.id, &lambda.params, &lambda.body);
    if captured.len() >= MAX_SLOTS {
        return Err(CompileError { msg: String::from_str("Program too large.") });
    }
    let ghost head = instrs(r@);
    let ghost cs;
    match capture_variables(&captured, env, 1) {
        Ok(s) => {
            proof {
                cs = instrs(s@);
            }
            append_statements(&mut r, s)
        },
        Err(e) => {
            return Err(e);
        },
    }
    assert forall|n: Seq<char>| names(captured@).contains(n) implies bound_names(env.slots()).contains(n) by {
        let k = choose|k: int| 0 <= k < captured@.len() && #[trigger] captured@[k].0@ == n;
        lemma_address_bound(env.slots(), n);
    }
    let words = match slot_offset(captured.len() + 1) {
        Ok(v) => v,
        Err(e) => {
            return Err(e);
        },
    };
    append_statements(
        &mut r,
        vec![
            Statement::Mov { dest: reg(Register::RAX), src: reg(Register::RBX) },
            Statement::Or { dest: reg(Register::RAX), src: imm(closure_type().tag.0 as i64) },
            // Advance the heap pointer past the closure.
            Statement::Add { dest: reg(Register::RBX), src: imm(words) },
        ],
    );
    assert(instrs(r@) =~= head + cs + seq![
        Instr::Mov { dest: reg(Register::RAX), src: reg(Register::RBX) },
        Instr::Or { dest: reg(Register::RAX), src: imm(5) },
        Instr::Add { dest: reg(Register::RBX), src: imm((8 * (captured@.len() + 1)) as i64) },
    ]);
    Ok(r)
}

/// Copies the values of `variables` from their slots in `env` to the heap words from
/// `[rbx + 8 * first_word]` on. A variable that no slot holds is an error.
fn capture_variables(variables: &Vec<Identifier>, env: &VariablesTable, first_word: usize) -> (r: Result<
    Vec<Statement>,
    CompileError,
>)
    ensures
        r matches Ok(s) ==> instrs(s@).len() == 2 * variables@.len(),
        r is Ok ==> forall|k: int|
            0 <= k < variables@.len() ==> lexical_address(env.slots(), #[trigger] variables@[k].0@) is Some,
        r is Ok <==> capture_stores(ids(variables@), env.slots(), first_word as nat) is Some,
        r matches Ok(s) ==> capture_stores(ids(variables@), env.slots(), first_word as nat) == Some(instrs(s@)),
{
    let mut r: Vec<Statement> = Vec::new();
    let mut i: usize = 0;
    while i < variables.len()
        invariant
            i <= variables@.len(),
            instrs(r@).len() == 2 * i,
            forall|k: int|
                0 <= k < i ==> lexical_address(env.slots(), #[trigger] variables@[k].0@) is Some,
            capture_stores(ids(variables@.subrange(0, i as int)), env.slots(), first_word as nat) == Some(instrs(r@)),
        decreases variables@.len() - i,
    {
        let ghost vs = ids(variables@.subrange(0, i + 1));
        assert(vs.drop_last() =~= ids(variables@.subrange(0, i as int)));
        assert(vs.last() == variables@[i as int].0@);
        assert(ids(variables@).subrange(0, i + 1) =~= vs);
        let position = match env.position(&variables[i]) {
            Some(k) => k,
            None => {
                proof {
                    lemma_capture_stores_prefix_fails(ids(variables@), i + 1, env.slots(), first_word as nat);
                }
                return Err(CompileError { msg: String::from_str("Undefined variable.") });
            },
        };
        let source = match slot_offset(position) {
            Ok(v) => v,
            Err(e) => {
                proof {
                    lemma_capture_stores_prefix_fails(ids(variables@), i + 1, env.slots(), first_word as nat);
                }
                return Err(e);
            },
        };
        if first_word >= MAX_SLOTS || i >= MAX_SLOTS - first_word {
            proof {
                lemma_capture_stores_prefix_fails(ids(variables@), i + 1, env.slots(), first_word as nat);
            }
            return Err(CompileError { msg: String::from_str("Program too large.") });
        }
        let target = match slot_offset(first_word + i) {
            Ok(v) => v,
            Err(e) => {
                return Err(e);
            },
        };
        let ghost before = instrs(r@);
        append_statements(
            &mut r,
            vec![
                Statement::Mov { dest: reg(Register::R8), src: mem(Register::RSP, source) },
                Statement::Mov { dest: mem(Register::RBX, target), src: reg(Register::R8) },
            ],
        );
        assert(instrs(r@) =~= before + seq![
            Instr::Mov { dest: reg(Register::R8), src: mem(Register::RSP, (8 * position) as i64) },
            Instr::Mov { dest: mem(Register::RBX, (8 * (first_word + i)) as i64), src: reg(Register::R8) },
        ]);
        i = i + 1;
    }
    assert(variables@.subrange(0, i as int) =~= variables@);
    Ok(r)
}

/// Calls a function: in tail position the call reuses the current frame.
pub fn compile_function_application(
    app: &App,
    compiler: &mut Compiler,
    env: &VariablesTable,
    is_tail_expr: bool,
) -> (r: Result<Vec<Statement>, CompileError>)
    requires
        old(compiler).wf(),
    ensures
        evolves(*old(compiler), *final(compiler)),
        is_tail_expr ==> (r matches Ok(s) ==> ends_with(
            instrs(s@),
            move_args_code((app.args@.len() + 1) as nat, env.slots().len()) + jump_code(
                app.args@.len(),
            ),
        )),
        r is Ok ==> free_vars(*app.function).union(free_vars_seq(app.args@)).subset_of(
            bound_names(env.slots()),
        ),
        lowers_to(
            lower(Expr::App(*app), env.slots(), is_tail_expr, old(compiler).label_count(), old(compiler).literals()),
            r,
            final(compiler).label_count(),
        ),
    decreases size(*app.function) + sizes(app.args@), 3nat,
{
    if is_tail_expr {
        compile_function_application_tail(app, compiler, env)
    } else {
        compile_function_application_non_tail(app, compiler, env)
    }
}

/// Evaluates the callee and pushes it after checking that it is a closure, then evaluates
/// and pushes the arguments in order, above `env` and the slots already pushed.
fn push_callee_and_args(
    app: &App,
    compiler: &mut Compiler,
    env: &VariablesTable,
) -> (r: Result<Vec<Statement>, CompileError>)
    requires
        old(compiler).wf(),
    ensures
        evolves(*old(compiler), *final(compiler)),
        r is Ok ==> free_vars(*app.function).union(free_vars_seq(app.args@)).subset_of(
            bound_names(env.slots()),
        ),
        lowers_to(
            lower_call(*app.function, app.args@, env.slots(), old(compiler).label_count(), old(compiler).literals()),
            r,
            final(compiler).label_count(),
        ),
    decreases size(*app.function) + sizes(app.args@), 1nat,
{
    let ghost t = old(compiler).literals();
    let mut r = match compile_expr(&app.function, compiler, env, false) {
        Ok(s) => s,
        Err(e) => {
            return Err(e);
        },
    };
    let ghost cf = instrs(r@);
    let ghost n1 = compiler.label_count();
    append_statements(&mut r, assert_closure(Register::RAX));
    append_statements(&mut r, vec![Statement::Push { src: reg(Register::RAX) }]);
    let ghost head = instrs(r@);
    let mut arg_env = env.with_non_var();
    proof {
        lemma_bound_names_push(env.slots(), None);
        assert(app.args@.subrange(0, 0) =~= Seq::<Expr>::empty());
        assert(head =~= head + seq![]);
        assert(env.slots().push(None) =~= env.slots() + nones(1));
    }
    let mut i: usize = 0;
    while i < app.args.len()
        invariant
            i <= app.args@.len(),
            evolves(*old(compiler), *compiler),
            bound_names(arg_env.slots()) == bound_names(env.slots()),
            free_vars(*app.function).subset_of(bound_names(env.slots())),
            free_vars_seq(app.args@.subrange(0, i as int)).subset_of(bound_names(env.slots())),
            arg_env.slots() == env.slots() + nones((i + 1) as nat),
            t == compiler.literals(),
            (lower(*app.function, env.slots(), false, old(compiler).label_count(), t) == Some((cf, n1))
                && lower_args(app.args@.subrange(0, i as int), env.slots(), n1, t) == Some((instrs(r@).subrange(head.len() as int, instrs(r@).len() as int), compiler.label_count()))),
            instrs(r@).len() >= head.len(),
            instrs(r@).subrange(0, head.len() as int) == head,
            head == cf + assert_type_code(Register::RAX, closure_type()) + seq![Instr::Push { src: reg(Register::RAX) }],
        decreases app.args@.len() - i,
    {
        proof {
            lemma_sizes_bound(app.args@, i as int);
            lemma_lambda_counts_bound(app.args@, i as int);
        }
        let ghost before = instrs(r@);
        let ghost ca;
        match compile_expr(&app.args[i], compiler, &arg_env, false) {
            Ok(s) => {
                proof {
                    ca = instrs(s@);
                }
                append_statements(&mut r, s)
            },
            Err(e) => {
                proof {
                    assert(app.args@.subrange(0, i + 1).subrange(0, i as int) =~= app.args@.subrange(0, i as int));
                    lemma_lower_args_prefix_fails(app.args@, i + 1, env.slots(), n1, t);
                }
                return Err(e);
            },
        }
        append_statements(&mut r, vec![Statement::Push { src: reg(Register::RAX) }]);
        proof {
            lemma_bound_names_push(arg_env.slots(), None);
        }
        arg_env = arg_env.with_non_var();
        assert(app.args@.subrange(0, i + 1).subrange(0, i as int) =~= app.args@.subrange(0, i as int));
        assert(arg_env.slots() =~= env.slots() + nones((i + 2) as nat));
        assert(instrs(r@) =~= before + ca + seq![Instr::Push { src: reg(Register::RAX) }]);
        assert(instrs(r@).subrange(head.len() as int, instrs(r@).len() as int) =~= before.subrange(head.len() as int, before.len() as int) + ca + seq![Instr::Push { src: reg(Register::RAX) }]);
        assert(instrs(r@).subrange(0, head.len() as int) =~= before.subrange(0, head.len() as int));
        i = i + 1;
    }
    assert(app.args@.subrange(0, app.args@.len() as int) =~= app.args@);
    assert(instrs(r@) =~= head + instrs(r@).subrange(head.len() as int, instrs(r@).len() as int));
    Ok(r)
}

/// Loads the code address of the closure below the `n_args` arguments and jumps to it.
pub open spec fn jump_code(n_args: nat) -> Seq<Instr> {
    seq![
        Instr::Mov { dest: reg(Register::RAX), src: mem(Register::RSP, (8 * n_args) as i64) },
        Instr::Xor { dest: reg(Register::RAX), src: imm(5) },
        Instr::Mov { dest: reg(Register::RAX), src: mem(Register::RAX, 0) },
        Instr::JmpRegister(Register::RAX),
    ]
}

fn jump_to_closure(n_args: usize) -> (r: Result<Vec<Statement>, CompileError>)
    ensures
        r matches Ok(s) ==> instrs(s@) == jump_code(n_args as nat),
        r is Err <==> n_args > MAX_SLOTS,
{
    let offset = match slot_offset(n_args) {
        Ok(v) => v,
        Err(e) => {
            return Err(e);
        },
    };
    let r = vec![
        Statement::Mov { dest: reg(Register::RAX), src: mem(Register::RSP, offset) },
        Statement::Xor { dest: reg(Register::RAX), src: imm(closure_type().tag.0 as i64) },
        Statement::Mov { dest: reg(Register::RAX), src: mem(Register::RAX, 0) },
        Statement::JmpRegister(Register::RAX),
    ];
    assert(instrs(r@) =~= jump_code(n_args as nat));
    Ok(r)
}

/// A call that returns: the return address is pushed first, as a label that follows the
/// jump, so that the callee finds it below the closure and the arguments.
fn compile_function_application_non_tail(
    app: &App,
    compiler: &mut Compiler,
    env: &VariablesTable,
) -> (r: Result<Vec<Statement>, CompileError>)
    requires
        old(compiler).wf(),
    ensures
        evolves(*old(compiler), *final(compiler)),
        r matches Ok(s) ==> instrs(s@).len() > 0,
        r is Ok ==> free_vars(*app.function).union(free_vars_seq(app.args@)).subset_of(
            bound_names(env.slots()),
        ),
        lowers_to(lower(Expr::App(*app), env.slots(), false, old(compiler).label_count(), old(compiler).literals()), r, final(compiler).label_count()),
    decreases size(*app.function) + sizes(app.args@), 2nat,
{
    let return_id = compiler.new_label_id();
    let return_label = numbered_label("function_return_site_", &return_id);
    let mut r = vec![
        Statement::Lea { dest: reg(Register::RAX), label: copy_string(&return_label) },
        Statement::Push { src: reg(Register::RAX) },
    ];
    let call_env = env.with_non_var();
    proof {
        lemma_bound_names_push(env.slots(), None);
    }
    let ghost cp;
    match push_callee_and_args(app, compiler, &call_env) {
        Ok(s) => {
            proof {
                cp = instrs(s@);
            }
            append_statements(&mut r, s)
        },
        Err(e) => {
            return Err(e);
        },
    }
    match jump_to_closure(app.args.len()) {
        Ok(s) => append_statements(&mut r, s),
        Err(e) => {
            return Err(e);
        },
    }
    let ghost ret = return_label@;
    append_statements(&mut r, vec![Statement::Label { name: return_label }]);
    assert(instrs(r@) =~= seq![
        Instr::Lea { dest: reg(Register::RAX), label: ret },
        Instr::Push { src: reg(Register::RAX) },
    ] + cp + jump_code(app.args@.len()) + seq![Instr::Label { name: ret }]);
    Ok(r)
}

/// A call in tail position: once the closure and the arguments are pushed, they are slid
/// down over the slots of the current frame, and the callee returns straight to the
/// current function's caller. The stack does not grow.
fn compile_function_application_tail(
    app: &App,
    compiler: &mut Compiler,
    env: &VariablesTable,
) -> (r: Result<Vec<Statement>, CompileError>)
    requires
        old(compiler).wf(),
    ensures
        evolves(*old(compiler), *final(compiler)),
        r matches Ok(s) ==> ends_with(
            instrs(s@),
            move_args_code((app.args@.len() + 1) as nat, env.slots().len()) + jump_code(
                app.args@.len(),
            ),
        ),
        r is Ok ==> free_vars(*app.function).union(free_vars_seq(app.args@)).subset_of(
            bound_names(env.slots()),
        ),
        lowers_to(lower(Expr::App(*app), env.slots(), true, old(compiler).label_count(), old(compiler).literals()), r, final(compiler).label_count()),
    decreases size(*app.function) + sizes(app.args@), 2nat,
{
    let mut r = match push_callee_and_args(app, compiler, env) {
        Ok(s) => s,
        Err(e) => {
            return Err(e);
        },
    };
    let ghost pushes = instrs(r@);
    let n_args = app.args.len();
    if n_args >= MAX_SLOTS {
        return Err(CompileError { msg: String::from_str("Program too large.") });
    }
    match move_args(n_args + 1, env.len()) {
        Ok(s) => append_statements(&mut r, s),
        Err(e) => {
            return Err(e);
        },
    }
    match jump_to_closure(n_args) {
        Ok(s) => append_statements(&mut r, s),
        Err(e) => {
            return Err(e);
        },
    }
    assert(instrs(r@) =~= pushes + (move_args_code((app.args@.len() + 1) as nat, env.slots().len())
        + jump_code(app.args@.len())));
    assert(instrs(r@).subrange(pushes.len() as int, instrs(r@).len() as int) =~= move_args_code(
        (app.args@.len() + 1) as nat,
        env.slots().len(),
    ) + jump_code(app.args@.len()));
    Ok(r)
}

/// A tail call leaves no stack behind: the slide that moves the closure and the arguments
/// down over the current frame pushes nothing and ends by popping the frame's
/// `frame_words` words, so the callee runs on the frame that the caller of the current
/// function set up, whatever the depth of the tail recursion.
pub proof fn lemma_tail_call_releases_frame(n_args: nat, frame_words: nat)
    requires
        frame_words > 0,
    ensures
        move_args_code(n_args + 1, frame_words).len() == 2 * (n_args + 1) + 1,
        move_args_code(n_args + 1, frame_words).last() == (Instr::Add {
            dest: reg(Register::RSP),
            src: imm((8 * frame_words) as i64),
        }),
        forall|i: int|
            0 <= i < move_args_code(n_args + 1, frame_words).len() ==> !(#[trigger] move_args_code(
                n_args + 1,
                frame_words,
            )[i] is Push),
    decreases n_args,
{
    if n_args > 0 {
        lemma_tail_call_releases_frame((n_args - 1) as nat, frame_words);
        let rest = move_args_code(n_args, frame_words);
        assert(move_args_code(n_args + 1, frame_words) == seq![
            Instr::Mov { dest: reg(Register::R8), src: mem(Register::RSP, (8 * n_args) as i64) },
            Instr::Mov {
                dest: mem(Register::RSP, (8 * (n_args + frame_words)) as i64),
                src: reg(Register::R8),
            },
        ] + rest);
        assert forall|i: int|
            0 <= i < move_args_code(n_args + 1, frame_words).len() implies !(#[trigger] move_args_code(
                n_args + 1,
                frame_words,
            )[i] is Push) by {
            if i >= 2 {
                assert(move_args_code(n_args + 1, frame_words)[i] == rest[i - 2]);
            }
        }
    }
}

/// The stack slide of a tail call: moves the top `n_args` words up by `offset` words,
/// highest first, and pops `offset` words.
pub open spec fn move_args_code(n_args: nat, offset: nat) -> Seq<Instr>
    decreases n_args,
{
    if n_args == 0 || offset == 0 {
        seq![]
    } else if n_args == 1 {
        seq![
            Instr::Mov { dest: reg(Register::R8), src: mem(Register::RSP, 0) },
            Instr::Mov { dest: mem(Register::RSP, (8 * offset) as i64), src: reg(Register::R8) },
            Instr::Add { dest: reg(Register::RSP), src: imm((8 * offset) as i64) },
        ]
    } else {
        seq![
            Instr::Mov { dest: reg(Register::R8), src: mem(Register::RSP, (8 * (n_args - 1)) as i64) },
            Instr::Mov {
                dest: mem(Register::RSP, (8 * (n_args - 1 + offset)) as i64),
                src: reg(Register::R8),
            },
        ] + move_args_code((n_args - 1) as nat, offset)
    }
}

fn move_args(n_args: usize, offset: usize) -> (r: Result<Vec<Statement>, CompileError>)
    ensures
        r matches Ok(s) ==> instrs(s@) == move_args_code(n_args as nat, offset as nat),
        r is Err <==> n_args + offset > MAX_SLOTS && n_args > 0 && offset > 0,
{
    let mut r: Vec<Statement> = Vec::new();
    if n_args == 0 || offset == 0 {
        assert(instrs(r@) =~= move_args_code(n_args as nat, offset as nat));
        return Ok(r);
    }
    if n_args > MAX_SLOTS || offset > MAX_SLOTS - n_args {
        return Err(CompileError { msg: String::from_str("Program too large.") });
    }
    let mut i: usize = n_args;
    while i > 1
        invariant
            0 < n_args,
            0 < offset,
            n_args + offset <= MAX_SLOTS,
            1 <= i <= n_args,
            instrs(r@) + move_args_code(i as nat, offset as nat) == move_args_code(
                n_args as nat,
                offset as nat,
            ),
        decreases i,
    {
        let ghost before = instrs(r@);
        let step = vec![
            Statement::Mov { dest: reg(Register::R8), src: mem(Register::RSP, 8 * (i - 1) as i64) },
            Statement::Mov {
                dest: mem(Register::RSP, 8 * (i - 1 + offset) as i64),
                src: reg(Register::R8),
            },
        ];
        append_statements(&mut r, step);
        assert(before + move_args_code(i as nat, offset as nat) =~= instrs(r@) + move_args_code(
            (i - 1) as nat,
            offset as nat,
        ));
        i = i - 1;
    }
    let tail = vec![
        Statement::Mov { dest: reg(Register::R8), src: mem(Register::RSP, 0) },
        Statement::Mov { dest: mem(Register::RSP, 8 * offset as i64), src: reg(Register::R8) },
        Statement::Add { dest: reg(Register::RSP), src: imm(8 * offset as i64) },
    ];
    let ghost last = instrs(tail@);
    assert(last =~= move_args_code(1, offset as nat));
    append_statements(&mut r, tail);
    assert(instrs(r@) =~= move_args_code(n_args as nat, offset as nat));
    Ok(r)
}

/// `name` with every character but ASCII letters and digits written `_<code>_`, and `_`
/// written `__`: a valid label, distinct for distinct names.
pub open spec fn mangle(name: Seq<char>) -> Seq<char>
    decreases name.len(),
{
    if name.len() == 0 {
        seq![]
    } else {
        mangle(name.drop_last()) + mangle_char(name.last())
    }
}

pub open spec fn mangle_char(c: char) -> Seq<char> {
    if ('a' <= c <= 'z') || ('A' <= c <= 'Z') || ('0' <= c <= '9') {
        seq![c]
    } else if c == '_' {
        seq!['_', '_']
    } else {
        seq!['_'] + super::state::decimal(c as u32 as nat) + seq!['_']
    }
}

/// The label of the code of the function `id`.
fn get_label(id: &Identifier) -> (r: String)
    ensures
        r@ == "lambda_"@ + mangle(id.0@),
{
    let mut s = String::from_str("lambda_");
    let cs = chars_of(id.0.as_str());
    let mut i: usize = 0;
    while i < cs.len()
        invariant
            i <= cs@.len(),
            cs@ == id.0@,
            s@ == "lambda_"@ + mangle(cs@.subrange(0, i as int)),
        decreases cs@.len() - i,
    {
        let c = cs[i];
        let ghost before = s@;
        if ('a' <= c && c <= 'z') || ('A' <= c && c <= 'Z') || ('0' <= c && c <= '9') {
            push_char(&mut s, c);
        } else if c == '_' {
            push_char(&mut s, '_');
            push_char(&mut s, '_');
        } else {
            push_char(&mut s, '_');
            push_decimal(&mut s, c as u32 as u64);
            push_char(&mut s, '_');
        }
        assert(cs@.subrange(0, i + 1).drop_last() =~= cs@.subrange(0, i as int));
        assert(s@ =~= before + mangle_char(c));
        i = i + 1;
    }
    assert(cs@.subrange(0, cs@.len() as int) =~= cs@);
    s
}

/// Whether some element of `v` is named `name`.
fn contains(v: &Vec<Identifier>, name: &Identifier) -> (r: bool)
    ensures
        r == names(v@).contains(name.0@),
        r == ids(v@).contains(name.0@),
{
    let mut i: usize = 0;
    while i < v.len()
        invariant
            i <= v@.len(),
            forall|k: int| 0 <= k < i ==> #[trigger] v@[k].0@ != name.0@,
        decreases v@.len() - i,
    {
        if v[i] == *name {
            assert(names(v@).contains(name.0@) <==> v@[i as int].0@ == name.0@);
            assert(ids(v@)[i as int] == name.0@);
            return true;
        }
        i = i + 1;
    }
    assert(!ids(v@).contains(name.0@)) by {
        if ids(v@).contains(name.0@) {
            let k = choose|k: int| 0 <= k < ids(v@).len() && ids(v@)[k] == name.0@;
            assert(v@[k].0@ == name.0@);
        }
    }
    false
}

/// Appends to `out` the names of `more` that it does not hold yet.
fn add_all(out: &mut Vec<Identifier>, more: &Vec<Identifier>)
    ensures
        names(final(out)@) == names(old(out)@).union(names(more@)),
        distinct_names(old(out)@) ==> distinct_names(final(out)@),
        ids(final(out)@) == add_all_s(ids(old(out)@), ids(more@)),
{
    let ghost start = out@;
    let mut i: usize = 0;
    while i < more.len()
        invariant
            i <= more@.len(),
            names(out@) == names(start).union(names(more@.subrange(0, i as int))),
            distinct_names(start) ==> distinct_names(out@),
            ids(out@) == add_all_s(ids(start), ids(more@.subrange(0, i as int))),
        decreases more@.len() - i,
    {
        let ghost before = out@;
        assert(ids(more@.subrange(0, i + 1)).drop_last() =~= ids(more@.subrange(0, i as int)));
        assert(ids(more@.subrange(0, i + 1)).last() == more@[i as int].0@);
        if !contains(out, &more[i]) {
            out.push(more[i].copy());
            assert(ids(out@) =~= ids(before).push(more@[i as int].0@));
            assert(names(out@) =~= names(before).insert(more@[i as int].0@)) by {
                assert forall|n: Seq<char>| names(out@).contains(n) implies names(before).insert(more@[i as int].0@).contains(n) by {
                    let k = choose|k: int| 0 <= k < out@.len() && #[trigger] out@[k].0@ == n;
                    if k < before.len() {
                        assert(before[k].0@ == n);
                    }
                }
                assert forall|n: Seq<char>| names(before).insert(more@[i as int].0@).contains(n) implies names(out@).contains(n) by {
                    if n == more@[i as int].0@ {
                        assert(out@[before.len() as int].0@ == n);
                    } else {
                        let k = choose|k: int| 0 <= k < before.len() && #[trigger] before[k].0@ == n;
                        assert(out@[k].0@ == n);
                    }
                }
            }
        }
        assert(names(more@.subrange(0, i + 1)) =~= names(more@.subrange(0, i as int)).insert(more@[i as int].0@)) by {
            assert forall|n: Seq<char>| names(more@.subrange(0, i + 1)).contains(n) implies names(more@.subrange(0, i as int)).insert(more@[i as int].0@).contains(n) by {
                let k = choose|k: int| 0 <= k < i + 1 && #[trigger] more@.subrange(0, i + 1)[k].0@ == n;
                if k < i {
                    assert(more@.subrange(0, i as int)[k].0@ == n);
                }
            }
            assert forall|n: Seq<char>| names(more@.subrange(0, i as int)).insert(more@[i as int].0@).contains(n) implies names(more@.subrange(0, i + 1)).contains(n) by {
                if n == more@[i as int].0@ {
                    assert(more@.subrange(0, i + 1)[i as int].0@ == n);
                } else {
                    let k = choose|k: int| 0 <= k < i && #[trigger] more@.subrange(0, i as int)[k].0@ == n;
                    assert(more@.subrange(0, i + 1)[k].0@ == n);
                }
            }
        }
        i = i + 1;
    }
    assert(more@.subrange(0, more@.len() as int) =~= more@);
}

/// The elements of `v` whose names `removed` does not hold, in order.
fn without(v: &Vec<Identifier>, removed: &Vec<Identifier>) -> (r: Vec<Identifier>)
    ensures
        names(r@) == names(v@).difference(names(removed@)),
        distinct_names(v@) ==> distinct_names(r@),
        ids(r@) == without_s(ids(v@), ids(removed@)),
{
    let mut r: Vec<Identifier> = Vec::new();
    let mut i: usize = 0;
    while i < v.len()
        invariant
            i <= v@.len(),
            names(r@) == names(v@.subrange(0, i as int)).difference(names(removed@)),
            distinct_names(v@) ==> distinct_names(r@),
            forall|j: int| 0 <= j < r@.len() ==> names(v@.subrange(0, i as int)).contains(#[trigger] r@[j].0@),
            ids(r@) == without_s(ids(v@.subrange(0, i as int)), ids(removed@)),
        decreases v@.len() - i,
    {
        let ghost before = r@;
        assert(ids(v@.subrange(0, i + 1)).drop_last() =~= ids(v@.subrange(0, i as int)));
        assert(ids(v@.subrange(0, i + 1)).last() == v@[i as int].0@);
        assert(names(v@.subrange(0, i + 1)) =~= names(v@.subrange(0, i as int)).insert(v@[i as int].0@)) by {
            assert forall|n: Seq<char>| names(v@.subrange(0, i + 1)).contains(n) implies names(v@.subrange(0, i as int)).insert(v@[i as int].0@).contains(n) by {
                let k = choose|k: int| 0 <= k < i + 1 && #[trigger] v@.subrange(0, i + 1)[k].0@ == n;
                if k < i {
                    assert(v@.subrange(0, i as int)[k].0@ == n);
                }
            }
            assert forall|n: Seq<char>| names(v@.subrange(0, i as int)).insert(v@[i as int].0@).contains(n) implies names(v@.subrange(0, i + 1)).contains(n) by {
                if n == v@[i as int].0@ {
                    assert(v@.subrange(0, i + 1)[i as int].0@ == n);
                } else {
                    let k = choose|k: int| 0 <= k < i && #[trigger] v@.subrange(0, i as int)[k].0@ == n;
                    assert(v@.subrange(0, i + 1)[k].0@ == n);
                }
            }
        }
        if !contains(removed, &v[i]) {
            r.push(v[i].copy());
            assert(ids(r@) =~= ids(before).push(v@[i as int].0@));
            assert(names(r@) =~= names(before).insert(v@[i as int].0@)) by {
                assert forall|n: Seq<char>| names(r@).contains(n) implies names(before).insert(v@[i as int].0@).contains(n) by {
                    let k = choose|k: int| 0 <= k < r@.len() && #[trigger] r@[k].0@ == n;
                    if k < before.len() {
                        assert(before[k].0@ == n);
                    }
                }
                assert forall|n: Seq<char>| names(before).insert(v@[i as int].0@).contains(n) implies names(r@).contains(n) by {
                    if n == v@[i as int].0@ {
                        assert(r@[before.len() as int].0@ == n);
                    } else {
                        let k = choose|k: int| 0 <= k < before.len() && #[trigger] before[k].0@ == n;
                        assert(r@[k].0@ == n);
                    }
                }
            }
            assert(names(r@) =~= names(v@.subrange(0, i + 1)).difference(names(removed@)));
            proof {
                if distinct_names(v@) {
                    assert forall|a: int, b: int| 0 <= a < b < r@.len() implies (#[trigger] r@[a]).0@ != (#[trigger] r@[b]).0@ by {
                        if b == r@.len() - 1 {
                            assert(names(v@.subrange(0, i as int)).contains(r@[a].0@));
                            let k = choose|k: int| 0 <= k < i && #[trigger] v@.subrange(0, i as int)[k].0@ == r@[a].0@;
                            assert(v@[k].0@ != v@[i as int].0@);
                        }
                    }
                }
            }
        } else {
            assert(names(r@) =~= names(v@.subrange(0, i + 1)).difference(names(removed@)));
        }
        assert forall|j: int| 0 <= j < r@.len() implies names(v@.subrange(0, i + 1)).contains(#[trigger] r@[j].0@) by {
            if j < before.len() {
                assert(names(v@.subrange(0, i as int)).contains(r@[j].0@));
            }
        }
        i = i + 1;
    }
    assert(v@.subrange(0, v@.len() as int) =~= v@);
    r
}

/// Appends to `out` the variables that a pattern binds.
fn pattern_variables(pattern: &Pattern, out: &mut Vec<Identifier>)
    ensures
        names(final(out)@) == names(old(out)@).union(pattern_vars(*pattern)),
        ids(final(out)@) == ids(old(out)@) + pattern_var_list(*pattern),
    decreases pattern,
{
    let ghost start = out@;
    match pattern {
        Pattern::Variable(id) => {
            out.push(id.copy());
            assert(names(out@) =~= names(start).union(pattern_vars(*pattern))) by {
                assert forall|n: Seq<char>| names(out@).contains(n) implies names(start).union(pattern_vars(*pattern)).contains(n) by {
                    let k = choose|k: int| 0 <= k < out@.len() && #[trigger] out@[k].0@ == n;
                    if k < start.len() {
                        assert(start[k].0@ == n);
                    }
                }
                assert forall|n: Seq<char>| names(start).union(pattern_vars(*pattern)).contains(n) implies names(out@).contains(n) by {
                    if names(start).contains(n) {
                        let k = choose|k: int| 0 <= k < start.len() && #[trigger] start[k].0@ == n;
                        assert(out@[k].0@ == n);
                    } else {
                        assert(out@[start.len() as int].0@ == n);
                    }
                }
            }
        },
        Pattern::Cons(a, b) | Pattern::And(a, b) => {
            pattern_variables(a, out);
            pattern_variables(b, out);
            assert(names(out@) =~= names(start).union(pattern_vars(*pattern)));
        },
        Pattern::Box(a) => pattern_variables(a, out),
        _ => {
            assert(names(out@) =~= names(start).union(pattern_vars(*pattern)));
        },
    }
}

/// The variables that a function body refers to, other than its parameters and its own
/// name: what its closure captures, each once, in order of first occurrence.
pub fn lambda_free_variables(id: &Identifier, params: &Vec<Identifier>, body: &Expr) -> (r: Vec<
    Identifier,
>)
    ensures
        names(r@) == free_vars(*body).difference(names(params@)).difference(set![id.0@]),
        distinct_names(r@),
        ids(r@) == captured_list(id.0@, ids(params@), *body),
    decreases size(*body), 1nat,
{
    let mut bound: Vec<Identifier> = Vec::new();
    bound.push(id.copy());
    assert(names(bound@) =~= set![id.0@]) by {
        assert forall|n: Seq<char>| names(bound@).contains(n) implies set![id.0@].contains(n) by {
            let k = choose|k: int| 0 <= k < bound@.len() && #[trigger] bound@[k].0@ == n;
        }
        assert(bound@[0].0@ == id.0@);
    }
    assert(ids(bound@) =~= seq![id.0@]);
    add_all(&mut bound, params);
    let r = without(&free_variables(body), &bound);
    assert(names(r@) =~= free_vars(*body).difference(names(params@)).difference(set![id.0@]));
    r
}

/// A list of the names of `v` with `name` taken out.
fn without_one(v: &Vec<Identifier>, name: &Identifier) -> (r: Vec<Identifier>)
    ensures
        names(r@) == names(v@).difference(set![name.0@]),
        distinct_names(v@) ==> distinct_names(r@),
        ids(r@) == without_s(ids(v@), seq![name.0@]),
{
    let mut bound: Vec<Identifier> = Vec::new();
    bound.push(name.copy());
    assert(names(bound@) =~= set![name.0@]) by {
        assert forall|n: Seq<char>| names(bound@).contains(n) implies set![name.0@].contains(n) by {
            let k = choose|k: int| 0 <= k < bound@.len() && #[trigger] bound@[k].0@ == n;
        }
        assert(bound@[0].0@ == name.0@);
    }
    assert(ids(bound@) =~= seq![name.0@]);
    without(v, &bound)
}

/// The variables that occur free in `expr`, each once, in order of first occurrence.
pub fn free_variables(expr: &Expr) -> (r: Vec<Identifier>)
    ensures
        names(r@) == free_vars(*expr),
        distinct_names(r@),
        ids(r@) == fv_list(*expr),
    decreases size(*expr), 0nat,
{
    let mut r: Vec<Identifier> = Vec::new();
    assert(names(r@) =~= Set::<Seq<char>>::empty());
    assert(ids(r@) =~= Seq::<Seq<char>>::empty());
    match expr {
        Expr::Variable(id) => {
            r.push(id.copy());
            assert(ids(r@) =~= seq![id.0@]);
            assert(names(r@) =~= free_vars(*expr)) by {
                assert forall|n: Seq<char>| names(r@).contains(n) implies free_vars(*expr).contains(n) by {
                    let k = choose|k: int| 0 <= k < r@.len() && #[trigger] r@[k].0@ == n;
                }
                assert(r@[0].0@ == id.0@);
            }
        },
        Expr::Prim1(_, e) => {
            add_all(&mut r, &free_variables(e));
            assert(names(r@) =~= free_vars(*expr));
        },
        Expr::Prim2(_, a, b) | Expr::Begin(a, b) => {
            add_all(&mut r, &free_variables(a));
            add_all(&mut r, &free_variables(b));
            assert(names(r@) =~= free_vars(*expr));
        },
        Expr::Prim3(_, a, b, c) => {
            add_all(&mut r, &free_variables(a));
            add_all(&mut r, &free_variables(b));
            add_all(&mut r, &free_variables(c));
            assert(names(r@) =~= free_vars(*expr));
        },
        Expr::If(i) => {
            add_all(&mut r, &free_variables(&i.cond));
            add_all(&mut r, &free_variables(&i.then_expr));
            add_all(&mut r, &free_variables(&i.els));
            assert(names(r@) =~= free_vars(*expr));
        },
        Expr::Let(l) => {
            add_all(&mut r, &free_variables(&l.binding.rhs));
            add_all(&mut r, &without_one(&free_variables(&l.body), &l.binding.lhs));
            assert(names(r@) =~= free_vars(*expr));
        },
        Expr::App(app) => {
            add_all(&mut r, &free_variables(&app.function));
            let ghost acc = ids(r@);
            let mut i: usize = 0;
            assert(app.args@.subrange(0, 0) =~= Seq::<Expr>::empty());
            while i < app.args.len()
                invariant
                    i <= app.args@.len(),
                    size(*expr) == 1 + size(*app.function) + sizes(app.args@),
                    names(r@) == free_vars(*app.function).union(free_vars_seq(app.args@.subrange(0, i as int))),
                    ids(r@) == fv_args(app.args@.subrange(0, i as int), acc),
                    distinct_names(r@),
                decreases app.args@.len() - i,
            {
                proof {
                    lemma_sizes_bound(app.args@, i as int);
                }
                add_all(&mut r, &free_variables(&app.args[i]));
                assert(app.args@.subrange(0, i + 1).subrange(0, i as int) =~= app.args@.subrange(0, i as int));
                assert(ids(r@) == fv_args(app.args@.subrange(0, i + 1), acc));
                assert(names(r@) =~= free_vars(*app.function).union(free_vars_seq(app.args@.subrange(0, i + 1))));
                i = i + 1;
            }
            assert(app.args@.subrange(0, app.args@.len() as int) =~= app.args@);
            assert(ids(r@) == fv_list(*expr));
        },
        Expr::Match(m) => {
            add_all(&mut r, &free_variables(&m.expr));
            let ghost acc = ids(r@);
            let mut i: usize = 0;
            assert(m.arms@.subrange(0, 0) =~= Seq::<Arm>::empty());
            while i < m.arms.len()
                invariant
                    i <= m.arms@.len(),
                    size(*expr) == 1 + size(*m.expr) + arm_sizes(m.arms@),
                    names(r@) == free_vars(*m.expr).union(free_vars_arms(m.arms@.subrange(0, i as int))),
                    ids(r@) == fv_arms(m.arms@.subrange(0, i as int), acc),
                    distinct_names(r@),
                decreases m.arms@.len() - i,
            {
                proof {
                    lemma_arm_sizes_bound(m.arms@, i as int);
                }
                let mut bound: Vec<Identifier> = Vec::new();
                assert(names(bound@) =~= Set::<Seq<char>>::empty());
                assert(ids(bound@) =~= Seq::<Seq<char>>::empty());
                pattern_variables(&m.arms[i].pattern, &mut bound);
                assert(ids(bound@) =~= pattern_var_list(m.arms@[i as int].pattern));
                add_all(&mut r, &without(&free_variables(&m.arms[i].body), &bound));
                assert(m.arms@.subrange(0, i + 1).subrange(0, i as int) =~= m.arms@.subrange(0, i as int));
                assert(ids(r@) == fv_arms(m.arms@.subrange(0, i + 1), acc));
                assert(names(r@) =~= free_vars(*m.expr).union(free_vars_arms(m.arms@.subrange(0, i + 1))));
                i = i + 1;
            }
            assert(m.arms@.subrange(0, m.arms@.len() as int) =~= m.arms@);
            assert(ids(r@) == fv_list(*expr));
        },
        Expr::Lambda(lambda) => {
            add_all(&mut r, &lambda_free_variables(&lambda.id, &lambda.params, &lambda.body));
            assert(names(r@) =~= free_vars(*expr));
        },
        _ => {
            assert(names(r@) =~= free_vars(*expr));
        },
    }
    r
}

} // verus!
