use vstd::prelude::*;


use super::expr::compile_expr;
use super::state::{decimal, evolves, next_id, slot_offset, Compiler};
use super::string::compare_strings;
use super::lowering::{
    compare_lit_spec, fail_spec, lemma_lower_arms_prefix_fails, lower, lower_arm, lower_arms,
    lower_pattern, lowers_to,
};
use super::state::MAX_SLOTS;
use super::variable::{bound_names, lemma_bound_names_concat, lemma_bound_names_push, VariablesTable};
use super::vector::{copy_string, numbered_label};
use crate::a86::ast::{
    append_statements, ends_with, imm, instrs, mem, reg, Instr, Register, Statement,
};
use super::error::{err_label, ERR_LABEL};
use crate::mylang::ast::{
    arm_sizes, arm_lambda_counts, free_vars, free_vars_arms, lambda_count, lemma_arm_lambda_counts_bound, Expr, lemma_arm_sizes_bound, pattern_size, pattern_vars, size, Arm,
    Identifier, Lit, Match, Pattern,
};
use crate::mylang::data_type::{box_type, cons_type, Value, MAX_INT, MIN_INT};
use crate::mylang::error::CompileError;

verus! {

/// The slots that a matching pattern leaves above the scrutinee's: one for each variable
/// it binds, in order, and one for the value that a pair or `and` pattern keeps while its
/// first part is matched.
pub open spec fn pattern_slots(p: Pattern) -> Seq<Option<Seq<char>>>
    decreases p,
{
    match p {
        Pattern::Variable(x) => seq![Some(x.0@)],
        Pattern::Box(sub) => pattern_slots(*sub),
        Pattern::Cons(a, b) => seq![None] + pattern_slots(*a) + pattern_slots(*b),
        Pattern::And(a, b) => seq![None] + pattern_slots(*a) + pattern_slots(*b),
        _ => seq![],
    }
}

/// The slots of a pattern bind exactly the pattern's variables.
pub proof fn lemma_pattern_slots_bind(p: Pattern)
    ensures
        bound_names(pattern_slots(p)) == pattern_vars(p),
    decreases p,
{
    match p {
        Pattern::Variable(x) => {
            lemma_bound_names_push(Seq::<Option<Seq<char>>>::empty(), Some(x.0@));
            assert(Seq::<Option<Seq<char>>>::empty().push(Some(x.0@)) =~= pattern_slots(p));
            assert(bound_names(Seq::<Option<Seq<char>>>::empty()) =~= Set::<Seq<char>>::empty());
            assert(pattern_vars(p) =~= Set::<Seq<char>>::empty().insert(x.0@));
        },
        Pattern::Box(a) => lemma_pattern_slots_bind(*a),
        Pattern::Cons(a, b) | Pattern::And(a, b) => {
            lemma_pattern_slots_bind(*a);
            lemma_pattern_slots_bind(*b);
            lemma_bound_names_concat(seq![None], pattern_slots(*a));
            lemma_bound_names_concat(seq![None] + pattern_slots(*a), pattern_slots(*b));
            lemma_bound_names_push(Seq::<Option<Seq<char>>>::empty(), None);
            assert(Seq::<Option<Seq<char>>>::empty().push(None) =~= seq![None]);
            assert(bound_names(Seq::<Option<Seq<char>>>::empty()) =~= Set::<Seq<char>>::empty());
            assert(bound_names(pattern_slots(p)) =~= pattern_vars(p));
        },
        _ => {
            assert(bound_names(pattern_slots(p)) =~= pattern_vars(p));
        },
    }
}

/// Evaluates the scrutinee, keeps it in a stack slot, and tries the arms in order: the
/// first whose pattern matches has its body evaluated (in tail position if the match is),
/// with the pattern's bindings in scope. No matching arm is a runtime error.
#[verifier::rlimit(100)]
pub fn compile_match(
    match_expr: &Match,
    compiler: &mut Compiler,
    env: &VariablesTable,
    is_tail_expr: bool,
) -> (r: Result<Vec<Statement>, CompileError>)
    requires
        old(compiler).wf(),
    ensures
        evolves(*old(compiler), *final(compiler)),
        r is Ok ==> free_vars(*match_expr.expr).union(free_vars_arms(match_expr.arms@)).subset_of(
            bound_names(env.slots()),
        ),
        r matches Ok(s) ==> ends_with(
            instrs(s@),
            seq![
                Instr::Jmp { label: ERR_LABEL@ },
                Instr::Label { name: "done_"@ + decimal(next_id(old(compiler).label_count())) },
                Instr::Add { dest: reg(Register::RSP), src: imm(8) },
            ],
        ),
        lowers_to(
            lower(Expr::Match(*match_expr), env.slots(), is_tail_expr, old(compiler).label_count(), old(compiler).literals()),
            r,
            final(compiler).label_count(),
        ),
    decreases size(*match_expr.expr) + arm_sizes(match_expr.arms@), 1nat,
{
    let done_id = compiler.new_label_id();
    let done_label = numbered_label("done_", &done_id);
    let ghost done = done_label@;
    let ghost t = old(compiler).literals();
    let ghost n0 = compiler.label_count();
    let mut r = match compile_expr(&match_expr.expr, compiler, env, false) {
        Ok(s) => s,
        Err(e) => {
            return Err(e);
        },
    };
    let ghost cx = instrs(r@);
    let ghost n1 = compiler.label_count();
    append_statements(&mut r, vec![Statement::Push { src: reg(Register::RAX) }]);
    let ghost head = instrs(r@);
    let arm_env = env.with_non_var();
    proof {
        lemma_bound_names_push(env.slots(), None);
        assert(match_expr.arms@.subrange(0, 0) =~= Seq::<Arm>::empty());
        assert(instrs(r@).subrange(head.len() as int, instrs(r@).len() as int) =~= Seq::<Instr>::empty());
    }
    let mut i: usize = 0;
    while i < match_expr.arms.len()
        invariant
            i <= match_expr.arms@.len(),
            evolves(*old(compiler), *compiler),
            bound_names(arm_env.slots()) == bound_names(env.slots()),
            free_vars(*match_expr.expr).subset_of(bound_names(env.slots())),
            done_label@ == done,
            done == "done_"@ + decimal(next_id(old(compiler).label_count())),
            free_vars_arms(match_expr.arms@.subrange(0, i as int)).subset_of(bound_names(env.slots())),
            arm_env.slots() == env.slots().push(None),
            t == compiler.literals(),
            n0 == next_id(old(compiler).label_count()),
            (lower(*match_expr.expr, env.slots(), false, n0, t) == Some((cx, n1))
                && lower_arms(match_expr.arms@.subrange(0, i as int), env.slots().push(None), is_tail_expr, done, n1, t) == Some((instrs(r@).subrange(head.len() as int, instrs(r@).len() as int), compiler.label_count()))),
            instrs(r@).len() >= head.len(),
            instrs(r@).subrange(0, head.len() as int) == head,
            head == cx + seq![Instr::Push { src: reg(Register::RAX) }],
        decreases match_expr.arms@.len() - i,
    {
        proof {
            lemma_arm_sizes_bound(match_expr.arms@, i as int);
            lemma_arm_lambda_counts_bound(match_expr.arms@, i as int);
        }
        let ghost before = instrs(r@);
        let ghost ca;
        match compile_match_arm(&match_expr.arms[i], compiler, &arm_env, is_tail_expr, &done_label) {
            Ok(s) => {
                proof {
                    ca = instrs(s@);
                }
                append_statements(&mut r, s)
            },
            Err(e) => {
                proof {
                    assert(match_expr.arms@.subrange(0, i + 1).subrange(0, i as int) =~= match_expr.arms@.subrange(0, i as int));
                    lemma_lower_arms_prefix_fails(match_expr.arms@, i + 1, env.slots().push(None), is_tail_expr, done, n1, t);
                }
                return Err(e);
            },
        }
        assert(match_expr.arms@.subrange(0, i + 1).subrange(0, i as int) =~= match_expr.arms@.subrange(0, i as int));
        assert(instrs(r@) =~= before + ca);
        assert(instrs(r@).subrange(head.len() as int, instrs(r@).len() as int) =~= before.subrange(head.len() as int, before.len() as int) + ca);
        assert(instrs(r@).subrange(0, head.len() as int) =~= before.subrange(0, head.len() as int));
        i = i + 1;
    }
    let ghost arms_all = instrs(r@).subrange(head.len() as int, instrs(r@).len() as int);
    assert(instrs(r@) =~= head + arms_all);
    assert(match_expr.arms@.subrange(0, match_expr.arms@.len() as int) =~= match_expr.arms@);
    let ghost arms_code = instrs(r@);
    append_statements(
        &mut r,
        vec![
            // No arm matched.
            Statement::Jmp { label: err_label() },
            Statement::Label { name: done_label },
            // Pop the scrutinee.
            Statement::Add { dest: reg(Register::RSP), src: imm(8) },
        ],
    );
    assert(instrs(r@) =~= cx + seq![Instr::Push { src: reg(Register::RAX) }] + arms_all + seq![
        Instr::Jmp { label: ERR_LABEL@ },
        Instr::Label { name: done },
        Instr::Add { dest: reg(Register::RSP), src: imm(8) },
    ]);
    assert(instrs(r@).subrange(arms_code.len() as int, instrs(r@).len() as int) =~= seq![
        Instr::Jmp { label: ERR_LABEL@ },
        Instr::Label { name: "done_"@ + decimal(next_id(old(compiler).label_count())) },
        Instr::Add { dest: reg(Register::RSP), src: imm(8) },
    ]);
    Ok(r)
}

/// Reloads the scrutinee from the top of the stack, matches it against the arm's
/// pattern, and on success evaluates the body, pops the bindings and jumps to `done_label`.
/// On failure control reaches the end of the arm's code with the stack as on entry.
#[verifier::rlimit(100)]
fn compile_match_arm(
    arm: &Arm,
    compiler: &mut Compiler,
    env: &VariablesTable,
    is_tail_expr: bool,
    done_label: &String,
) -> (r: Result<Vec<Statement>, CompileError>)
    requires
        old(compiler).wf(),
    ensures
        evolves(*old(compiler), *final(compiler)),
        r is Ok ==> free_vars(*arm.body).difference(pattern_vars(arm.pattern)).subset_of(
            bound_names(env.slots()),
        ),
        lowers_to(
            lower_arm(*arm, env.slots(), is_tail_expr, done_label@, old(compiler).label_count(), old(compiler).literals()),
            r,
            final(compiler).label_count(),
        ),
    decreases size(*arm.body), 1nat,
{
    let next_number = compiler.new_label_id();
    let next_label = numbered_label("next_", &next_number);
    let mut r = vec![Statement::Mov { dest: reg(Register::RAX), src: mem(Register::RSP, 0) }];
    let outer_len = env.len();
    let compiled = match compile_pattern(&arm.pattern, compiler, env, outer_len, &next_label) {
        Ok(c) => c,
        Err(e) => {
            return Err(e);
        },
    };
    let CompiledPattern { statements, env: bound_env } = compiled;
    proof {
        lemma_pattern_slots_bind(arm.pattern);
        lemma_bound_names_concat(env.slots(), pattern_slots(arm.pattern));
    }
    let ghost cp = instrs(statements@);
    append_statements(&mut r, statements);
    let ghost cb;
    match compile_expr(&arm.body, compiler, &bound_env, is_tail_expr) {
        Ok(s) => {
            proof {
                cb = instrs(s@);
            }
            append_statements(&mut r, s)
        },
        Err(e) => {
            return Err(e);
        },
    }
    let bound = match slot_offset(bound_env.len() - outer_len) {
        Ok(v) => v,
        Err(e) => {
            return Err(e);
        },
    };
    append_statements(
        &mut r,
        vec![
            // Pop the bindings of the arm.
            Statement::Add { dest: reg(Register::RSP), src: imm(bound) },
            Statement::Jmp { label: copy_string(done_label) },
            Statement::Label { name: next_label },
        ],
    );
    assert(instrs(r@) =~= seq![Instr::Mov { dest: reg(Register::RAX), src: mem(Register::RSP, 0) }]
        + cp + cb + seq![
        Instr::Add {
            dest: reg(Register::RSP),
            src: imm((8 * (bound_env.slots().len() - env.slots().len())) as i64),
        },
        Instr::Jmp { label: done_label@ },
        Instr::Label { name: "next_"@ + decimal(next_id(old(compiler).label_count())) },
    ]);
    Ok(r)
}

/// The code of a pattern and the slots once it has matched.
pub struct CompiledPattern {
    /// Tests whether the value in rax matches, pushing the values that it binds.
    pub statements: Vec<Statement>,
    /// The slots after a match.
    pub env: VariablesTable,
}

impl CompiledPattern {
    pub fn new(statements: Vec<Statement>, env: VariablesTable) -> (r: Self)
        ensures
            r.statements == statements,
            r.env == env,
    {
        Self { statements, env }
    }
}

/// Tests whether the value in rax matches `pattern`. On failure the code pops what was
/// pushed above the first `outer_len` slots and jumps to `next_label`.
fn compile_pattern(
    pattern: &Pattern,
    compiler: &mut Compiler,
    env: &VariablesTable,
    outer_len: usize,
    next_label: &String,
) -> (r: Result<CompiledPattern, CompileError>)
    requires
        old(compiler).wf(),
        outer_len <= env.slots().len(),
    ensures
        evolves(*old(compiler), *final(compiler)),
        r matches Ok(c) ==> c.env.slots() == env.slots() + pattern_slots(*pattern),
        pattern is Wildcard ==> (r matches Ok(c) && c.statements@.len() == 0 && c.env.slots()
            == env.slots()),
        pattern matches Pattern::Variable(x) ==> (r matches Ok(c) && instrs(c.statements@)
            == seq![Instr::Push { src: reg(Register::RAX) }] && c.env.slots() == env.slots().push(
            Some(x.0@),
        )),
        lower_pattern(*pattern, env.slots(), outer_len as nat, next_label@, old(compiler).label_count()) is Some <==> r is Ok,
        r matches Ok(c) ==> lower_pattern(*pattern, env.slots(), outer_len as nat, next_label@, old(compiler).label_count())
            == Some((instrs(c.statements@), c.env.slots(), final(compiler).label_count())),
    decreases pattern_size(*pattern), 0nat,
{
    match pattern {
        Pattern::Wildcard => {
            let c = compile_wildcard_pattern(env);
            assert(c.env.slots() =~= env.slots() + pattern_slots(*pattern));
            Ok(c)
        },
        Pattern::Variable(identifier) => {
            let c = compile_variable_pattern(identifier, env);
            assert(c.env.slots() =~= env.slots() + pattern_slots(*pattern));
            Ok(c)
        },
        Pattern::Lit(lit) => {
            let r = compile_literal_pattern(lit, compiler, env, outer_len, next_label);
            assert(env.slots() =~= env.slots() + pattern_slots(*pattern));
            r
        },
        Pattern::Cons(car, cdr) => {
            let r = compile_cons_pattern(car, cdr, compiler, env, outer_len, next_label);
            assert(env.slots() + seq![None] + pattern_slots(**car) + pattern_slots(**cdr)
                =~= env.slots() + pattern_slots(*pattern));
            r
        },
        Pattern::Box(sub) => compile_box_pattern(sub, compiler, env, outer_len, next_label),
        Pattern::And(left, right) => {
            let r = compile_and_pattern(left, right, compiler, env, outer_len, next_label);
            assert(env.slots() + seq![None] + pattern_slots(**left) + pattern_slots(**right)
                =~= env.slots() + pattern_slots(*pattern));
            r
        },
    }
}

/// Matches anything and binds nothing.
fn compile_wildcard_pattern(env: &VariablesTable) -> (r: CompiledPattern)
    ensures
        r.statements@.len() == 0,
        r.env.slots() == env.slots(),
{
    CompiledPattern::new(vec![], env.duplicate())
}

/// Matches anything and binds it.
fn compile_variable_pattern(identifier: &Identifier, env: &VariablesTable) -> (r: CompiledPattern)
    ensures
        instrs(r.statements@) == seq![Instr::Push { src: reg(Register::RAX) }],
        r.env.slots() == env.slots().push(Some(identifier.0@)),
{
    let s = vec![Statement::Push { src: reg(Register::RAX) }];
    assert(instrs(s@) =~= seq![Instr::Push { src: reg(Register::RAX) }]);
    CompiledPattern::new(s, env.with_var(identifier))
}

/// Pops the slots above the first `outer_len` and jumps to `next_label`.
fn fail_code(env: &VariablesTable, outer_len: usize, next_label: &String) -> (r: Result<
    Vec<Statement>,
    CompileError,
>)
    requires
        outer_len <= env.slots().len(),
    ensures
        r matches Ok(s) ==> instrs(s@) == seq![
            Instr::Add {
                dest: reg(Register::RSP),
                src: imm((8 * (env.slots().len() - outer_len)) as i64),
            },
            Instr::Jmp { label: next_label@ },
        ],
        r is Ok <==> fail_spec(env.slots(), outer_len as nat, next_label@) is Some,
        r matches Ok(s) ==> fail_spec(env.slots(), outer_len as nat, next_label@) == Some(instrs(s@)),
{
    let offset = match slot_offset(env.len() - outer_len) {
        Ok(v) => v,
        Err(e) => {
            return Err(e);
        },
    };
    let r = vec![
        Statement::Add { dest: reg(Register::RSP), src: imm(offset) },
        Statement::Jmp { label: copy_string(next_label) },
    ];
    assert(instrs(r@) =~= seq![
        Instr::Add {
            dest: reg(Register::RSP),
            src: imm((8 * (env.slots().len() - outer_len)) as i64),
        },
        Instr::Jmp { label: next_label@ },
    ]);
    Ok(r)
}

/// Matches the value equal to the literal.
fn compile_literal_pattern(
    lit: &Lit,
    compiler: &mut Compiler,
    env: &VariablesTable,
    outer_len: usize,
    next_label: &String,
) -> (r: Result<CompiledPattern, CompileError>)
    requires
        old(compiler).wf(),
        outer_len <= env.slots().len(),
    ensures
        evolves(*old(compiler), *final(compiler)),
        r matches Ok(c) ==> c.env.slots() == env.slots(),
        lower_pattern(Pattern::Lit(*lit), env.slots(), outer_len as nat, next_label@, old(compiler).label_count()) is Some <==> r is Ok,
        r matches Ok(c) ==> lower_pattern(Pattern::Lit(*lit), env.slots(), outer_len as nat, next_label@, old(compiler).label_count())
            == Some((instrs(c.statements@), c.env.slots(), final(compiler).label_count())),
{
    let matched_id = compiler.new_label_id();
    let matched_label = numbered_label("matched_", &matched_id);
    let mut r = match compare_literal(lit, compiler) {
        Ok(s) => s,
        Err(e) => {
            return Err(e);
        },
    };
    append_statements(&mut r, vec![Statement::Je { label: copy_string(&matched_label) }]);
    match fail_code(env, outer_len, next_label) {
        Ok(s) => append_statements(&mut r, s),
        Err(e) => {
            return Err(e);
        },
    }
    append_statements(&mut r, vec![Statement::Label { name: matched_label }]);
    Ok(CompiledPattern::new(r, env.duplicate()))
}

/// Sets the comparison flags to equal iff the value in rax equals the literal.
fn compare_literal(lit: &Lit, compiler: &mut Compiler) -> (r: Result<Vec<Statement>, CompileError>)
    requires
        old(compiler).wf(),
    ensures
        evolves(*old(compiler), *final(compiler)),
        *lit matches Lit::Int(i) ==> (r is Ok <==> MIN_INT <= i <= MAX_INT),
        *lit matches Lit::Int(i) ==> (r matches Ok(s) ==> instrs(s@) == seq![
            Instr::Cmp { dest: reg(Register::RAX), src: imm((i * 16) as i64) },
        ]),
        r is Ok <==> compare_lit_spec(*lit, old(compiler).label_count()) is Some,
        r matches Ok(s) ==> compare_lit_spec(*lit, old(compiler).label_count()) == Some((instrs(s@), final(compiler).label_count())),
{
    let value = match lit {
        Lit::Int(i) => {
            if *i < MIN_INT || *i > MAX_INT {
                return Err(CompileError { msg: String::from_str("Integer literal out of range.") });
            }
            Value::Int(*i)
        },
        Lit::Bool(b) => Value::Boolean(*b),
        Lit::Char(c) => Value::Char(*c),
        Lit::EmptyList => Value::EmptyList,
        Lit::String(s) => {
            return compare_strings(s.as_str(), compiler);
        },
    };
    let ghost v = value;
    let r = vec![Statement::Cmp { dest: reg(Register::RAX), src: imm(value.encode()) }];
    assert(instrs(r@) =~= seq![Instr::Cmp { dest: reg(Register::RAX), src: imm(v.bits() as i64) }]);
    Ok(r)
}

/// Jumps to `matched` if the value in rax has the pointer tag `tag`; else pops `fail_words`
/// words and jumps to `next`.
pub open spec fn tag_test_code(tag: i64, matched: Seq<char>, fail_words: nat, next: Seq<char>) -> Seq<Instr> {
    seq![
        Instr::Mov { dest: reg(Register::R9), src: reg(Register::RAX) },
        Instr::And { dest: reg(Register::R9), src: imm(7) },
        Instr::Cmp { dest: reg(Register::R9), src: imm(tag) },
        Instr::Je { label: matched },
        Instr::Add { dest: reg(Register::RSP), src: imm((8 * fail_words) as i64) },
        Instr::Jmp { label: next },
        Instr::Label { name: matched },
    ]
}

/// Jumps to `matched` if the value in rax has the pointer tag `tag`, else fails.
fn tag_test(
    tag: i64,
    matched: &String,
    env: &VariablesTable,
    outer_len: usize,
    next_label: &String,
) -> (r: Result<Vec<Statement>, CompileError>)
    requires
        outer_len <= env.slots().len(),
    ensures
        r matches Ok(s) ==> instrs(s@) == tag_test_code(
            tag,
            matched@,
            (env.slots().len() - outer_len) as nat,
            next_label@,
        ),
        r is Ok <==> env.slots().len() - outer_len <= MAX_SLOTS,
{
    let mut r = vec![
        Statement::Mov { dest: reg(Register::R9), src: reg(Register::RAX) },
        Statement::And { dest: reg(Register::R9), src: imm(7) },
        Statement::Cmp { dest: reg(Register::R9), src: imm(tag) },
        Statement::Je { label: copy_string(matched) },
    ];
    match fail_code(env, outer_len, next_label) {
        Ok(s) => append_statements(&mut r, s),
        Err(e) => {
            return Err(e);
        },
    }
    append_statements(&mut r, vec![Statement::Label { name: copy_string(matched) }]);
    assert(instrs(r@) =~= tag_test_code(
        tag,
        matched@,
        (env.slots().len() - outer_len) as nat,
        next_label@,
    ));
    Ok(r)
}

/// Matches a box whose content matches `pattern`.
fn compile_box_pattern(
    pattern: &Pattern,
    compiler: &mut Compiler,
    env: &VariablesTable,
    outer_len: usize,
    next_label: &String,
) -> (r: Result<CompiledPattern, CompileError>)
    requires
        old(compiler).wf(),
        outer_len <= env.slots().len(),
    ensures
        evolves(*old(compiler), *final(compiler)),
        r matches Ok(c) ==> c.env.slots() == env.slots() + pattern_slots(*pattern),
        r matches Ok(c) ==> instrs(c.statements@).len() >= 9 && instrs(c.statements@).subrange(0, 9)
            == tag_test_code(
            1,
            "matched_"@ + decimal(next_id(old(compiler).label_count())),
            (env.slots().len() - outer_len) as nat,
            next_label@,
        ) + seq![
            Instr::Xor { dest: reg(Register::RAX), src: imm(1) },
            Instr::Mov { dest: reg(Register::RAX), src: mem(Register::RAX, 0) },
        ],
        lower_pattern(Pattern::Box(Box::new(*pattern)), env.slots(), outer_len as nat, next_label@, old(compiler).label_count()) is Some <==> r is Ok,
        r matches Ok(c) ==> lower_pattern(Pattern::Box(Box::new(*pattern)), env.slots(), outer_len as nat, next_label@, old(compiler).label_count())
            == Some((instrs(c.statements@), c.env.slots(), final(compiler).label_count())),
    decreases pattern_size(*pattern), 1nat,
{
    let matched_id = compiler.new_label_id();
    let matched_label = numbered_label("matched_", &matched_id);
    let mut r = match tag_test(box_type().tag.0 as i64, &matched_label, env, outer_len, next_label) {
        Ok(s) => s,
        Err(e) => {
            return Err(e);
        },
    };
    // Unbox the value for the sub-pattern.
    append_statements(
        &mut r,
        vec![
            Statement::Xor { dest: reg(Register::RAX), src: imm(box_type().tag.0 as i64) },
            Statement::Mov { dest: reg(Register::RAX), src: mem(Register::RAX, 0) },
        ],
    );
    let ghost head = instrs(r@);
    let sub = match compile_pattern(pattern, compiler, env, outer_len, next_label) {
        Ok(c) => c,
        Err(e) => {
            return Err(e);
        },
    };
    let CompiledPattern { statements, env: sub_env } = sub;
    append_statements(&mut r, statements);
    assert(instrs(r@).subrange(0, 9) =~= head);
    Ok(CompiledPattern::new(r, sub_env))
}

/// Matches a pair whose car and cdr match the two patterns. The cdr waits in a stack slot
/// while the car is matched.
fn compile_cons_pattern(
    car: &Pattern,
    cdr: &Pattern,
    compiler: &mut Compiler,
    env: &VariablesTable,
    outer_len: usize,
    next_label: &String,
) -> (r: Result<CompiledPattern, CompileError>)
    requires
        old(compiler).wf(),
        outer_len <= env.slots().len(),
    ensures
        evolves(*old(compiler), *final(compiler)),
        r matches Ok(c) ==> c.env.slots() == env.slots() + seq![None] + pattern_slots(*car) + pattern_slots(*cdr),
        r matches Ok(c) ==> instrs(c.statements@).len() >= 11 && instrs(c.statements@).subrange(0, 11)
            == tag_test_code(
            2,
            "matched_"@ + decimal(next_id(old(compiler).label_count())),
            (env.slots().len() - outer_len) as nat,
            next_label@,
        ) + seq![
            Instr::Xor { dest: reg(Register::RAX), src: imm(2) },
            Instr::Mov { dest: reg(Register::R8), src: mem(Register::RAX, 0) },
            Instr::Push { src: reg(Register::R8) },
            Instr::Mov { dest: reg(Register::RAX), src: mem(Register::RAX, 8) },
        ],
        lower_pattern(Pattern::Cons(Box::new(*car), Box::new(*cdr)), env.slots(), outer_len as nat, next_label@, old(compiler).label_count()) is Some <==> r is Ok,
        r matches Ok(c) ==> lower_pattern(Pattern::Cons(Box::new(*car), Box::new(*cdr)), env.slots(), outer_len as nat, next_label@, old(compiler).label_count())
            == Some((instrs(c.statements@), c.env.slots(), final(compiler).label_count())),
    decreases pattern_size(*car) + pattern_size(*cdr), 1nat,
{
    let matched_id = compiler.new_label_id();
    let matched_label = numbered_label("matched_", &matched_id);
    let mut r = match tag_test(cons_type().tag.0 as i64, &matched_label, env, outer_len, next_label) {
        Ok(s) => s,
        Err(e) => {
            return Err(e);
        },
    };
    append_statements(
        &mut r,
        vec![
            Statement::Xor { dest: reg(Register::RAX), src: imm(cons_type().tag.0 as i64) },
            // Stash the cdr.
            Statement::Mov { dest: reg(Register::R8), src: mem(Register::RAX, 0) },
            Statement::Push { src: reg(Register::R8) },
            // Match the car.
            Statement::Mov { dest: reg(Register::RAX), src: mem(Register::RAX, 8) },
        ],
    );
    let ghost head = instrs(r@);
    let cdr_env = env.with_non_var();
    let car_result = match compile_pattern(car, compiler, &cdr_env, outer_len, next_label) {
        Ok(c) => c,
        Err(e) => {
            return Err(e);
        },
    };
    let CompiledPattern { statements: car_code, env: car_env } = car_result;
    append_statements(&mut r, car_code);
    // Reload the cdr, above the slots that the car pattern pushed.
    let offset = match slot_offset(car_env.len() - cdr_env.len()) {
        Ok(v) => v,
        Err(e) => {
            return Err(e);
        },
    };
    append_statements(&mut r, vec![Statement::Mov { dest: reg(Register::RAX), src: mem(Register::RSP, offset) }]);
    let cdr_result = match compile_pattern(cdr, compiler, &car_env, outer_len, next_label) {
        Ok(c) => c,
        Err(e) => {
            return Err(e);
        },
    };
    let CompiledPattern { statements: cdr_code, env: final_env } = cdr_result;
    append_statements(&mut r, cdr_code);
    assert(final_env.slots() =~= env.slots() + seq![None] + pattern_slots(*car) + pattern_slots(*cdr));
    assert(instrs(r@).subrange(0, 11) =~= head);
    Ok(CompiledPattern::new(r, final_env))
}

/// Matches a value that matches both patterns. The value waits in a stack slot while the
/// left pattern is matched.
fn compile_and_pattern(
    left: &Pattern,
    right: &Pattern,
    compiler: &mut Compiler,
    env: &VariablesTable,
    outer_len: usize,
    next_label: &String,
) -> (r: Result<CompiledPattern, CompileError>)
    requires
        old(compiler).wf(),
        outer_len <= env.slots().len(),
    ensures
        evolves(*old(compiler), *final(compiler)),
        r matches Ok(c) ==> c.env.slots() == env.slots() + seq![None] + pattern_slots(*left) + pattern_slots(*right),
        lower_pattern(Pattern::And(Box::new(*left), Box::new(*right)), env.slots(), outer_len as nat, next_label@, old(compiler).label_count()) is Some <==> r is Ok,
        r matches Ok(c) ==> lower_pattern(Pattern::And(Box::new(*left), Box::new(*right)), env.slots(), outer_len as nat, next_label@, old(compiler).label_count())
            == Some((instrs(c.statements@), c.env.slots(), final(compiler).label_count())),
    decreases pattern_size(*left) + pattern_size(*right), 1nat,
{
    let mut r = vec![Statement::Push { src: reg(Register::RAX) }];
    let value_env = env.with_non_var();
    let left_result = match compile_pattern(left, compiler, &value_env, outer_len, next_label) {
        Ok(c) => c,
        Err(e) => {
            return Err(e);
        },
    };
    let CompiledPattern { statements: left_code, env: left_env } = left_result;
    append_statements(&mut r, left_code);
    let offset = match slot_offset(left_env.len() - value_env.len()) {
        Ok(v) => v,
        Err(e) => {
            return Err(e);
        },
    };
    append_statements(&mut r, vec![Statement::Mov { dest: reg(Register::RAX), src: mem(Register::RSP, offset) }]);
    let right_result = match compile_pattern(right, compiler, &left_env, outer_len, next_label) {
        Ok(c) => c,
        Err(e) => {
            return Err(e);
        },
    };
    let CompiledPattern { statements: right_code, env: final_env } = right_result;
    append_statements(&mut r, right_code);
    assert(final_env.slots() =~= env.slots() + seq![None] + pattern_slots(*left) + pattern_slots(*right));
    Ok(CompiledPattern::new(r, final_env))
}

} // verus!
