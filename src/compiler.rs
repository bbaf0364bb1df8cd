use vstd::prelude::*;

pub mod arithmetic;
pub mod box_type;
pub mod cons;
pub mod error;
pub mod expr;
pub mod external_call;
pub mod function;
pub mod helper;
pub mod lowering;
pub mod pattern_match;
pub mod primitive_functions;
pub mod state;
pub mod static_data;
pub mod string;
pub mod types;
pub mod variable;
pub mod vector;

use self::error::compile_error_handler;
use self::expr::compile_expr;
use self::external_call::externals;
use self::function::{
    defs_lambda_free, captures, compile_closures_for_defines, compile_defines, compile_lambda_definitions, defined_ids,
};
use self::state::{slot_offset, Compiler, MAX_SLOTS};
use self::lowering::{closures_code, data_records, def_names, defines_code, lower, somes};
use self::static_data::compile_data_section;
use self::string::all_string_literals;
use self::variable::{bound_names, VariablesTable};
use crate::a86::ast::{append_statements, instrs, reg, Instr, Program, Register, Statement};
use crate::mylang::ast::{self, free_vars};
use crate::mylang::error::CompileError;

verus! {

/// The name of the program's entry point.
pub const ENTRY: &'static str = "entry";

/// The names of the functions that a program defines.
pub open spec fn defined_names(program: ast::Program) -> Set<Seq<char>> {
    Set::new(
        |n: Seq<char>|
            exists|i: int|
                0 <= i < program.function_definitions@.len()
                    && #[trigger] program.function_definitions@[i].signature.name.0@ == n,
    )
}

/// The program's prologue: declarations, the entry label, saving the callee-saved
/// registers and taking the heap base from rdi.
pub open spec fn prologue_code() -> Seq<Instr> {
    seq![
        Instr::Global { name: ENTRY@ },
        Instr::Extern { name: external_call::READ_BYTE@ },
        Instr::Extern { name: external_call::PEEK_BYTE@ },
        Instr::Extern { name: external_call::WRITE_BYTE@ },
        Instr::Extern { name: external_call::RAISE_ERROR@ },
        Instr::Label { name: ENTRY@ },
        Instr::Push { src: reg(Register::RBX) },
        Instr::Push { src: reg(Register::R15) },
        Instr::Mov { dest: reg(Register::RBX), src: reg(Register::RDI) },
    ]
}

/// Pops the `k` closures of the definitions, restores the saved registers and returns.
pub open spec fn epilogue_code(k: nat) -> Seq<Instr> {
    seq![
        Instr::Add { dest: reg(Register::RSP), src: crate::a86::ast::imm((8 * k) as i64) },
        Instr::Pop { dest: reg(Register::R15) },
        Instr::Pop { dest: reg(Register::RBX) },
        Instr::Ret,
    ]
}

/// No lambda expression stands in the program.
pub open spec fn program_lambda_free(p: ast::Program) -> bool {
    defs_lambda_free(p.function_definitions@) && ast::lambda_count(p.expr) == 0
}

/// The whole assembly program of `p`: prologue, the closures of the definitions, the
/// main expression over their slots, epilogue, the definitions' code blocks, the error
/// handler and the data section of the literal table. `None` where compilation fails.
pub open spec fn program_code(p: ast::Program) -> Option<Seq<Instr>> {
    let defs = p.function_definitions@;
    let t = ast::program_lits(defs, p.expr);
    match closures_code(defs) {
        Some(cc) => match lower(p.expr, somes(def_names(defs)), false, t.len(), t) {
            Some((cm, n1)) => if defs.len() > MAX_SLOTS {
                None
            } else {
                match defines_code(defs, n1, t) {
                    Some((cd, _)) => match data_records(t) {
                        Some(dr) => Some(
                            prologue_code() + cc + cm + epilogue_code(defs.len()) + cd + seq![
                                Instr::Label { name: error::ERR_LABEL@ },
                            ] + external_call::raise_error_code() + seq![Instr::Data] + dr,
                        ),
                        None => None,
                    },
                    None => None,
                }
            },
            None => None,
        },
        None => None,
    }
}

/// Generates the assembly program: the entry point saves the callee-saved registers,
/// takes the heap base from rdi, pushes a closure for each defined function and evaluates
/// the main expression; then come the code of the functions, the error handler and the
/// data section.
#[verifier::rlimit(100)]
pub fn compile(program: &ast::Program) -> (r: Result<Program, CompileError>)
    ensures
        r matches Ok(p) ==> instrs(p.statements@).len() >= 3 && instrs(p.statements@)[0]
            == (Instr::Global { name: ENTRY@ }),
        r is Ok ==> free_vars(program.expr).subset_of(defined_names(*program)),
        r is Ok ==> forall|i: int|
            0 <= i < program.function_definitions@.len() ==> #[trigger] captures(
                program.function_definitions@[i],
            ).subset_of(defined_names(*program)),
        program_lambda_free(*program) ==> (r is Ok <==> program_code(*program) is Some),
        program_lambda_free(*program) ==> (r matches Ok(p) ==> program_code(*program) == Some(instrs(p.statements@))),
{
    let string_literals = all_string_literals(program);
    let mut compiler = Compiler::new(string_literals);
    let ghost t = ast::program_lits(program.function_definitions@, program.expr);
    assert(compiler.literals() =~= t);
    let ghost n0 = compiler.label_count();

    let mut statements = vec![Statement::Global { name: String::from_str(ENTRY) }];
    append_statements(&mut statements, externals());
    append_statements(
        &mut statements,
        vec![
            Statement::Label { name: String::from_str(ENTRY) },
            // Save the callee-saved registers.
            Statement::Push { src: reg(Register::RBX) },
            Statement::Push { src: reg(Register::R15) },
            // The runtime passes the base of the heap in rdi.
            Statement::Mov { dest: reg(Register::RBX), src: reg(Register::RDI) },
        ],
    );
    let ghost pro = instrs(statements@);
    assert(pro =~= prologue_code());
    let ghost (cc, cm, cd, dr);
    match compile_closures_for_defines(program) {
        Ok(s) => {
            proof {
                cc = instrs(s@);
            }
            append_statements(&mut statements, s)
        },
        Err(e) => {
            return Err(e);
        },
    }
    let ids = defined_ids(program);
    let env = VariablesTable::new().extended(&ids);
    assert(bound_names(env.slots()) =~= defined_names(*program)) by {
        assert forall|n: Seq<char>| bound_names(env.slots()).contains(n) implies defined_names(*program).contains(n) by {
            let k = choose|k: int| 0 <= k < env.slots().len() && env.slots()[k] == Some(n);
            assert(program.function_definitions@[k].signature.name.0@ == n);
        }
        assert forall|n: Seq<char>| defined_names(*program).contains(n) implies bound_names(env.slots()).contains(n) by {
            let k = choose|k: int| 0 <= k < program.function_definitions@.len() && #[trigger] program.function_definitions@[k].signature.name.0@ == n;
            assert(env.slots()[k] == Some(n));
        }
    }
    assert(env.slots() =~= somes(def_names(program.function_definitions@))) by {
        assert forall|k: int| 0 <= k < env.slots().len() implies env.slots()[k] == somes(def_names(program.function_definitions@))[k] by {
            assert(ids@[k].0@ == program.function_definitions@[k].signature.name.0@);
        }
    }
    match compile_expr(&program.expr, &mut compiler, &env, false) {
        Ok(s) => {
            proof {
                cm = instrs(s@);
            }
            append_statements(&mut statements, s)
        },
        Err(e) => {
            return Err(e);
        },
    }
    let closures = match slot_offset(program.function_definitions.len()) {
        Ok(v) => v,
        Err(e) => {
            return Err(e);
        },
    };
    append_statements(
        &mut statements,
        vec![
            // Pop the closures of the defined functions.
            Statement::Add { dest: reg(Register::RSP), src: crate::a86::ast::imm(closures) },
            // Restore the callee-saved registers.
            Statement::Pop { dest: reg(Register::R15) },
            Statement::Pop { dest: reg(Register::RBX) },
            Statement::Ret,
        ],
    );
    match compile_defines(program, &mut compiler) {
        Ok(s) => {
            proof {
                cd = instrs(s@);
            }
            append_statements(&mut statements, s)
        },
        Err(e) => {
            return Err(e);
        },
    }
    match compile_lambda_definitions(program, &mut compiler) {
        Ok(s) => append_statements(&mut statements, s),
        Err(e) => {
            return Err(e);
        },
    }
    append_statements(&mut statements, compile_error_handler());
    match compile_data_section(&compiler) {
        Ok(s) => {
            proof {
                dr = instrs(s@).drop_first();
                assert(instrs(s@) =~= seq![Instr::Data] + dr);
            }
            append_statements(&mut statements, s)
        },
        Err(e) => {
            return Err(e);
        },
    }
    proof {
        if program_lambda_free(*program) {
            assert(instrs(statements@) =~= prologue_code() + cc + cm + epilogue_code(
                program.function_definitions@.len(),
            ) + cd + seq![Instr::Label { name: error::ERR_LABEL@ }] + external_call::raise_error_code()
                + seq![Instr::Data] + dr);
        }
    }
    Ok(Program { statements })
}

} // verus!
