//! The code that the generator emits, as functions of the syntax tree: what each
//! `compile_*` function returns, label numbers and failures included.
use vstd::prelude::*;

use super::arithmetic::two_ints_code;
use super::error::ERR_LABEL;
use super::external_call::{call_code, PEEK_BYTE, READ_BYTE};
use super::function::{jump_code, mangle, move_args_code};
use super::helper::materialise;
use super::pattern_match::tag_test_code;
use super::primitive_functions::op1_code;
use super::state::{decimal, next_id, string_label, MAX_SLOTS};
use super::string::{
    char_words, compare_string_code, make_string_code, string_ref_code, MAX_LITERAL_CHARS,
};
use super::types::assert_type_code;
use super::variable::lexical_address;
use super::vector::{element_check_code, make_vector_code};
use crate::a86::ast::{imm, mem, reg, Instr, Register};
use crate::mylang::ast::{
    arm_sizes, captured_list, ids, lemma_arm_sizes_bound, FunctionDefinition, lemma_size_positive, lemma_sizes_bound, size, sizes, Arm, Expr,
    Lit, Op0, Op2, Pattern,
};
use crate::mylang::data_type::{closure_type, MAX_INT, MIN_INT, VOID_BITS};

verus! {

/// The first position of `s` in the literal table `t`.
pub open spec fn lit_index(t: Seq<Seq<char>>, s: Seq<char>) -> Option<nat>
    decreases t.len(),
{
    if t.len() == 0 {
        None
    } else {
        match lit_index(t.drop_last(), s) {
            Some(i) => Some(i),
            None => if t.last() == s {
                Some((t.len() - 1) as nat)
            } else {
                None
            },
        }
    }
}

pub proof fn lemma_lit_index_step(t: Seq<Seq<char>>, i: int, s: Seq<char>)
    requires
        0 <= i < t.len(),
        lit_index(t.subrange(0, i), s) is None,
    ensures
        lit_index(t.subrange(0, i + 1), s) == if t[i] == s {
            Some(i as nat)
        } else {
            None
        },
{
    assert(t.subrange(0, i + 1).drop_last() =~= t.subrange(0, i));
}

pub proof fn lemma_lit_index_extend(t: Seq<Seq<char>>, k: int, s: Seq<char>)
    requires
        0 <= k <= t.len(),
        lit_index(t.subrange(0, k), s) is Some,
    ensures
        lit_index(t, s) == lit_index(t.subrange(0, k), s),
    decreases t.len(),
{
    if k == t.len() {
        assert(t.subrange(0, k) =~= t);
    } else {
        assert(t.drop_last().subrange(0, k) =~= t.subrange(0, k));
        lemma_lit_index_extend(t.drop_last(), k, s);
    }
}

/// `r` is what the description `spec` gives, with the label count `after`.
pub open spec fn lowers_to<E>(spec: Option<(Seq<Instr>, nat)>, r: Result<Vec<crate::a86::ast::Statement>, E>, after: nat) -> bool {
    &&& (r is Ok <==> spec is Some)
    &&& (r matches Ok(c) ==> spec == Some((crate::a86::ast::instrs(c@), after)))
}

/// `k` unnamed slots.
pub open spec fn nones(k: nat) -> Seq<Option<Seq<char>>> {
    Seq::new(k, |i: int| None::<Seq<char>>)
}

/// The label `prefix` followed by the number `n`.
pub open spec fn numbered_spec(prefix: Seq<char>, n: nat) -> Seq<char> {
    prefix + decimal(n)
}

/// The code of a literal, with the literal table `t`.
pub open spec fn lower_lit(l: Lit, t: Seq<Seq<char>>) -> Option<Seq<Instr>> {
    match l {
        Lit::Int(i) => if MIN_INT <= i <= MAX_INT {
            Some(seq![Instr::Mov { dest: reg(Register::RAX), src: imm((i * 16) as i64) }])
        } else {
            None
        },
        Lit::Bool(b) => Some(
            seq![Instr::Mov { dest: reg(Register::RAX), src: imm(if b { 24 } else { 56 }) }],
        ),
        Lit::Char(c) => Some(
            seq![Instr::Mov { dest: reg(Register::RAX), src: imm((c as int * 32 + 8) as i64) }],
        ),
        Lit::String(s) => match lit_index(t, s@) {
            Some(i) => Some(
                seq![
                    Instr::LeaArithmetic {
                        dest: reg(Register::RAX),
                        label: string_label(i),
                        offset: 4,
                    },
                ],
            ),
            None => None,
        },
        Lit::EmptyList => Some(seq![Instr::Mov { dest: reg(Register::RAX), src: imm(152) }]),
    }
}

/// The code of a binary operator applied to r8 and rax, and the label count after it.
pub open spec fn op2_lower(op: Op2, n: nat) -> (Seq<Instr>, nat) {
    match op {
        Op2::Add => (two_ints_code() + seq![
            Instr::Add { dest: reg(Register::RAX), src: reg(Register::R8) },
        ], n),
        Op2::Sub => (two_ints_code() + seq![
            Instr::Sub { dest: reg(Register::R8), src: reg(Register::RAX) },
            Instr::Mov { dest: reg(Register::RAX), src: reg(Register::R8) },
        ], n),
        Op2::Equal => (two_ints_code() + seq![
            Instr::Cmp { dest: reg(Register::RAX), src: reg(Register::R8) },
        ] + materialise(false), n),
        Op2::LessThan => (two_ints_code() + seq![
            Instr::Cmp { dest: reg(Register::R8), src: reg(Register::RAX) },
        ] + materialise(true), n),
        Op2::Cons => (seq![
            Instr::Mov { dest: mem(Register::RBX, 0), src: reg(Register::RAX) },
            Instr::Mov { dest: mem(Register::RBX, 8), src: reg(Register::R8) },
            Instr::Mov { dest: reg(Register::RAX), src: reg(Register::RBX) },
            Instr::Or { dest: reg(Register::RAX), src: imm(2) },
            Instr::Add { dest: reg(Register::RBX), src: imm(16) },
        ], n),
        Op2::MakeVector => (make_vector_code(
            numbered_spec("loop_"@, next_id(n)),
            numbered_spec("end_"@, next_id(next_id(n))),
            numbered_spec("empty_"@, next_id(next_id(next_id(n)))),
        ), next_id(next_id(next_id(n)))),
        Op2::MakeString => (make_string_code(
            numbered_spec("loop_"@, next_id(n)),
            numbered_spec("end_"@, next_id(next_id(n))),
            numbered_spec("empty_"@, next_id(next_id(next_id(n)))),
        ), next_id(next_id(next_id(n)))),
        Op2::VectorRef => (element_check_code(Register::RAX) + seq![
            Instr::Mov { dest: reg(Register::RAX), src: mem(Register::R8, 8) },
        ], n),
        Op2::StringRef => (string_ref_code(), n),
    }
}

/// The code of `vector-set!` once its operands are on the stack and in rax.
pub open spec fn vector_set_code() -> Seq<Instr> {
    seq![Instr::Pop { dest: reg(Register::R10) }, Instr::Pop { dest: reg(Register::R8) }]
        + element_check_code(Register::R10) + seq![
        Instr::Mov { dest: mem(Register::R8, 8), src: reg(Register::RAX) },
        Instr::Mov { dest: reg(Register::RAX), src: imm(VOID_BITS) },
    ]
}

/// The code that evaluates `e` into rax over the stack slots `s`, in tail position if
/// `tail`, from the label count `n` and with the literal table `t`: the code and the
/// label count after it, or `None` where compilation fails. A lambda expression within
/// `e` is left out of this description.
pub open spec fn lower(e: Expr, s: Seq<Option<Seq<char>>>, tail: bool, n: nat, t: Seq<Seq<char>>) -> Option<
    (Seq<Instr>, nat),
>
    decreases size(e), 0nat,
{
    match e {
        Expr::Eof => Some((seq![Instr::Mov { dest: reg(Register::RAX), src: imm(88) }], n)),
        Expr::Lit(l) => match lower_lit(l, t) {
            Some(c) => Some((c, n)),
            None => None,
        },
        Expr::Prim0(op) => Some((if op == Op0::ReadByte {
            call_code(READ_BYTE@)
        } else {
            call_code(PEEK_BYTE@)
        }, n)),
        Expr::Prim1(op, a) => match lower(*a, s, false, n, t) {
            Some((ca, n1)) => Some((ca + op1_code(op), n1)),
            None => None,
        },
        Expr::Prim2(op, a, b) => match lower(*a, s, false, n, t) {
            Some((ca, n1)) => match lower(*b, s.push(None), false, n1, t) {
                Some((cb, n2)) => Some((
                    ca + seq![Instr::Push { src: reg(Register::RAX) }] + cb + seq![
                        Instr::Pop { dest: reg(Register::R8) },
                    ] + op2_lower(op, n2).0,
                    op2_lower(op, n2).1,
                )),
                None => None,
            },
            None => None,
        },
        Expr::Prim3(_, a, b, c) => match lower(*a, s, false, n, t) {
            Some((ca, n1)) => match lower(*b, s.push(None), false, n1, t) {
                Some((cb, n2)) => match lower(*c, s.push(None).push(None), false, n2, t) {
                    Some((cc, n3)) => Some((
                        ca + seq![Instr::Push { src: reg(Register::RAX) }] + cb + seq![
                            Instr::Push { src: reg(Register::RAX) },
                        ] + cc + vector_set_code(),
                        n3,
                    )),
                    None => None,
                },
                None => None,
            },
            None => None,
        },
        Expr::Begin(a, b) => match lower(*a, s, false, n, t) {
            Some((ca, n1)) => match lower(*b, s, tail, n1, t) {
                Some((cb, n2)) => Some((ca + cb, n2)),
                None => None,
            },
            None => None,
        },
        Expr::If(i) => {
            let n0 = next_id(n);
            let els = numbered_spec("else_"@, n0);
            let end = numbered_spec("end_"@, n0);
            match lower(*i.cond, s, false, n0, t) {
                Some((cc, n1)) => match lower(*i.then_expr, s, tail, n1, t) {
                    Some((ct, n2)) => match lower(*i.els, s, tail, n2, t) {
                        Some((ce, n3)) => Some((
                            cc + seq![
                                Instr::Cmp { dest: reg(Register::RAX), src: imm(56) },
                                Instr::Je { label: els },
                            ] + ct + seq![Instr::Jmp { label: end }, Instr::Label { name: els }]
                                + ce + seq![Instr::Label { name: end }],
                            n3,
                        )),
                        None => None,
                    },
                    None => None,
                },
                None => None,
            }
        },
        Expr::Variable(x) => match lexical_address(s, x.0@) {
            Some(k) => if k <= MAX_SLOTS {
                Some((seq![Instr::Mov { dest: reg(Register::RAX), src: mem(Register::RSP, (8 * k) as i64) }], n))
            } else {
                None
            },
            None => None,
        },
        Expr::Let(l) => match lower(*l.binding.rhs, s, false, n, t) {
            Some((cr, n1)) => match lower(*l.body, s.push(Some(l.binding.lhs.0@)), tail, n1, t) {
                Some((cb, n2)) => Some((
                    cr + seq![Instr::Push { src: reg(Register::RAX) }] + cb + seq![
                        Instr::Add { dest: reg(Register::RSP), src: imm(8) },
                    ],
                    n2,
                )),
                None => None,
            },
            None => None,
        },
        Expr::App(app) => {
            let k = app.args@.len();
            if tail {
                match lower_call(*app.function, app.args@, s, n, t) {
                    Some((cp, n1)) => if k >= MAX_SLOTS || k + 1 + s.len() > MAX_SLOTS && s.len() > 0 {
                        None
                    } else {
                        Some((cp + move_args_code(k + 1, s.len()) + jump_code(k), n1))
                    },
                    None => None,
                }
            } else {
                let n0 = next_id(n);
                let ret = numbered_spec("function_return_site_"@, n0);
                match lower_call(*app.function, app.args@, s.push(None), n0, t) {
                    Some((cp, n1)) => if k > MAX_SLOTS {
                        None
                    } else {
                        Some((
                            seq![
                                Instr::Lea { dest: reg(Register::RAX), label: ret },
                                Instr::Push { src: reg(Register::RAX) },
                            ] + cp + jump_code(k) + seq![Instr::Label { name: ret }],
                            n1,
                        ))
                    },
                    None => None,
                }
            }
        },
        Expr::Match(m) => {
            let n0 = next_id(n);
            let done = numbered_spec("done_"@, n0);
            match lower(*m.expr, s, false, n0, t) {
                Some((cx, n1)) => match lower_arms(m.arms@, s.push(None), tail, done, n1, t) {
                    Some((ca, n2)) => Some((
                        cx + seq![Instr::Push { src: reg(Register::RAX) }] + ca + seq![
                            Instr::Jmp { label: ERR_LABEL@ },
                            Instr::Label { name: done },
                            Instr::Add { dest: reg(Register::RSP), src: imm(8) },
                        ],
                        n2,
                    )),
                    None => None,
                },
                None => None,
            }
        },
        Expr::Lambda(l) => match closure_code(l.id.0@, ids(l.params@), *l.body, s) {
            Some(c) => Some((c, n)),
            None => None,
        },
    }
}

/// Allocates the closure of the function `id` on the heap, capturing from the slots `s`,
/// and sets rax to it.
pub open spec fn closure_code(id: Seq<char>, params: Seq<Seq<char>>, body: Expr, s: Seq<Option<Seq<char>>>) -> Option<Seq<Instr>> {
    let c = captured_list(id, params, body);
    if c.len() >= MAX_SLOTS {
        None
    } else {
        match capture_stores(c, s, 1) {
            Some(cs) => Some(seq![
                Instr::Lea { dest: reg(Register::RAX), label: "lambda_"@ + mangle(id) },
                Instr::Mov { dest: mem(Register::RBX, 0), src: reg(Register::RAX) },
            ] + cs + seq![
                Instr::Mov { dest: reg(Register::RAX), src: reg(Register::RBX) },
                Instr::Or { dest: reg(Register::RAX), src: imm(5) },
                Instr::Add { dest: reg(Register::RBX), src: imm((8 * (c.len() + 1)) as i64) },
            ]),
            None => None,
        }
    }
}

/// Evaluates and pushes the callee, checked to be a closure, then the arguments.
pub open spec fn lower_call(
    f: Expr,
    args: Seq<Expr>,
    s: Seq<Option<Seq<char>>>,
    n: nat,
    t: Seq<Seq<char>>,
) -> Option<(Seq<Instr>, nat)>
    decreases size(f) + sizes(args), 1nat via lower_call_decreases
{
    match lower(f, s, false, n, t) {
        Some((cf, n1)) => match lower_args(args, s, n1, t) {
            Some((ca, n2)) => Some((
                cf + assert_type_code(Register::RAX, closure_type()) + seq![
                    Instr::Push { src: reg(Register::RAX) },
                ] + ca,
                n2,
            )),
            None => None,
        },
        None => None,
    }
}

/// Evaluates and pushes the arguments in order; the `i`-th sees `i + 1` pushed words
/// above `s`.
pub open spec fn lower_args(args: Seq<Expr>, s: Seq<Option<Seq<char>>>, n: nat, t: Seq<Seq<char>>) -> Option<
    (Seq<Instr>, nat),
>
    decreases sizes(args), 1nat via lower_args_decreases
{
    if args.len() == 0 {
        Some((seq![], n))
    } else {
        let k = (args.len() - 1) as nat;
        match lower_args(args.subrange(0, k as int), s, n, t) {
            Some((c, n1)) => match lower(args[k as int], s + nones(k + 1), false, n1, t) {
                Some((ca, n2)) => Some((c + ca + seq![Instr::Push { src: reg(Register::RAX) }], n2)),
                None => None,
            },
            None => None,
        }
    }
}

/// The arms of a match over the slots `s`, which end with the scrutinee's slot.
pub open spec fn lower_arms(
    arms: Seq<Arm>,
    s: Seq<Option<Seq<char>>>,
    tail: bool,
    done: Seq<char>,
    n: nat,
    t: Seq<Seq<char>>,
) -> Option<(Seq<Instr>, nat)>
    decreases arm_sizes(arms), 2nat via lower_arms_decreases
{
    if arms.len() == 0 {
        Some((seq![], n))
    } else {
        let k = arms.len() - 1;
        match lower_arms(arms.subrange(0, k), s, tail, done, n, t) {
            Some((c, n1)) => match lower_arm(arms[k], s, tail, done, n1, t) {
                Some((ca, n2)) => Some((c + ca, n2)),
                None => None,
            },
            None => None,
        }
    }
}

#[via_fn]
proof fn lower_args_decreases(args: Seq<Expr>, s: Seq<Option<Seq<char>>>, n: nat, t: Seq<Seq<char>>) {
    if args.len() > 0 {
        let k = args.len() - 1;
        lemma_size_positive(args[k]);
        lemma_sizes_bound(args, k);
    }
}

/// A failing prefix of the arguments fails the whole list.
pub proof fn lemma_lower_args_prefix_fails(
    args: Seq<Expr>,
    j: int,
    s: Seq<Option<Seq<char>>>,
    n: nat,
    t: Seq<Seq<char>>,
)
    requires
        0 <= j <= args.len(),
        lower_args(args.subrange(0, j), s, n, t) is None,
    ensures
        lower_args(args, s, n, t) is None,
    decreases args.len(),
{
    if j == args.len() {
        assert(args.subrange(0, j) =~= args);
    } else {
        let k = args.len() - 1;
        assert(args.subrange(0, k).subrange(0, j) =~= args.subrange(0, j));
        lemma_lower_args_prefix_fails(args.subrange(0, k), j, s, n, t);
    }
}

/// A failing prefix of the arms fails the whole match.
pub proof fn lemma_lower_arms_prefix_fails(
    arms: Seq<Arm>,
    j: int,
    s: Seq<Option<Seq<char>>>,
    tail: bool,
    done: Seq<char>,
    n: nat,
    t: Seq<Seq<char>>,
)
    requires
        0 <= j <= arms.len(),
        lower_arms(arms.subrange(0, j), s, tail, done, n, t) is None,
    ensures
        lower_arms(arms, s, tail, done, n, t) is None,
    decreases arms.len(),
{
    if j == arms.len() {
        assert(arms.subrange(0, j) =~= arms);
    } else {
        let k = arms.len() - 1;
        assert(arms.subrange(0, k).subrange(0, j) =~= arms.subrange(0, j));
        lemma_lower_arms_prefix_fails(arms.subrange(0, k), j, s, tail, done, n, t);
    }
}

#[via_fn]
proof fn lower_arms_decreases(
    arms: Seq<Arm>,
    s: Seq<Option<Seq<char>>>,
    tail: bool,
    done: Seq<char>,
    n: nat,
    t: Seq<Seq<char>>,
) {
    if arms.len() > 0 {
        let k = arms.len() - 1;
        lemma_size_positive(*arms[k].body);
        lemma_arm_sizes_bound(arms, k);
    }
}

#[via_fn]
proof fn lower_call_decreases(
    f: Expr,
    args: Seq<Expr>,
    s: Seq<Option<Seq<char>>>,
    n: nat,
    t: Seq<Seq<char>>,
) {
    lemma_size_positive(f);
}

/// One arm: reload the scrutinee, match the pattern, evaluate the body, pop the
/// bindings and leave for `done`; a failed pattern continues after the arm.
pub open spec fn lower_arm(
    arm: Arm,
    s: Seq<Option<Seq<char>>>,
    tail: bool,
    done: Seq<char>,
    n: nat,
    t: Seq<Seq<char>>,
) -> Option<(Seq<Instr>, nat)>
    decreases size(*arm.body), 1nat,
{
    let n0 = next_id(n);
    let next = numbered_spec("next_"@, n0);
    match lower_pattern(arm.pattern, s, s.len(), next, n0) {
        Some((cp, bound, n1)) => match lower(*arm.body, bound, tail, n1, t) {
            Some((cb, n2)) => if bound.len() - s.len() > MAX_SLOTS {
                None
            } else {
                Some((
                    seq![Instr::Mov { dest: reg(Register::RAX), src: mem(Register::RSP, 0) }] + cp
                        + cb + seq![
                        Instr::Add {
                            dest: reg(Register::RSP),
                            src: imm((8 * (bound.len() - s.len())) as i64),
                        },
                        Instr::Jmp { label: done },
                        Instr::Label { name: next },
                    ],
                    n2,
                ))
            },
            None => None,
        },
        None => None,
    }
}

/// Pops the slots above the first `outer` and jumps to `next`.
pub open spec fn fail_spec(s: Seq<Option<Seq<char>>>, outer: nat, next: Seq<char>) -> Option<Seq<Instr>> {
    if s.len() - outer > MAX_SLOTS {
        None
    } else {
        Some(
            seq![
                Instr::Add { dest: reg(Register::RSP), src: imm((8 * (s.len() - outer)) as i64) },
                Instr::Jmp { label: next },
            ],
        )
    }
}

/// The comparison of rax with a literal pattern, and the label count after it.
pub open spec fn compare_lit_spec(l: Lit, n: nat) -> Option<(Seq<Instr>, nat)> {
    match l {
        Lit::Int(i) => if MIN_INT <= i <= MAX_INT {
            Some((seq![Instr::Cmp { dest: reg(Register::RAX), src: imm((i * 16) as i64) }], n))
        } else {
            None
        },
        Lit::Bool(b) => Some(
            (seq![Instr::Cmp { dest: reg(Register::RAX), src: imm(if b { 24 } else { 56 }) }], n),
        ),
        Lit::Char(c) => Some(
            (
                seq![Instr::Cmp { dest: reg(Register::RAX), src: imm((c as int * 32 + 8) as i64) }],
                n,
            ),
        ),
        Lit::EmptyList => Some((seq![Instr::Cmp { dest: reg(Register::RAX), src: imm(152) }], n)),
        Lit::String(st) => if st@.len() > MAX_LITERAL_CHARS {
            None
        } else {
            Some(
                (
                    compare_string_code(
                        st@,
                        numbered_spec("string_neq_"@, next_id(n)),
                        numbered_spec("string_body_"@, next_id(next_id(n))),
                    ),
                    next_id(next_id(n)),
                ),
            )
        },
    }
}

/// The code of a pattern tested against rax over the slots `s`; on failure it pops the
/// slots above the first `outer` and jumps to `next`. Returns the code, the slots after a
/// match, and the label count.
pub open spec fn lower_pattern(
    p: Pattern,
    s: Seq<Option<Seq<char>>>,
    outer: nat,
    next: Seq<char>,
    n: nat,
) -> Option<(Seq<Instr>, Seq<Option<Seq<char>>>, nat)>
    decreases p,
{
    match p {
        Pattern::Wildcard => Some((seq![], s, n)),
        Pattern::Variable(x) => Some((seq![Instr::Push { src: reg(Register::RAX) }], s.push(Some(x.0@)), n)),
        Pattern::Lit(l) => {
            let n0 = next_id(n);
            let matched = numbered_spec("matched_"@, n0);
            match compare_lit_spec(l, n0) {
                Some((cl, n1)) => match fail_spec(s, outer, next) {
                    Some(f) => Some((
                        cl + seq![Instr::Je { label: matched }] + f + seq![
                            Instr::Label { name: matched },
                        ],
                        s,
                        n1,
                    )),
                    None => None,
                },
                None => None,
            }
        },
        Pattern::Box(sub) => {
            let n0 = next_id(n);
            let matched = numbered_spec("matched_"@, n0);
            if s.len() - outer > MAX_SLOTS {
                None
            } else {
                match lower_pattern(*sub, s, outer, next, n0) {
                    Some((cs, s1, n1)) => Some((
                        tag_test_code(1, matched, (s.len() - outer) as nat, next) + seq![
                            Instr::Xor { dest: reg(Register::RAX), src: imm(1) },
                            Instr::Mov { dest: reg(Register::RAX), src: mem(Register::RAX, 0) },
                        ] + cs,
                        s1,
                        n1,
                    )),
                    None => None,
                }
            }
        },
        Pattern::Cons(car, cdr) => {
            let n0 = next_id(n);
            let matched = numbered_spec("matched_"@, n0);
            if s.len() - outer > MAX_SLOTS {
                None
            } else {
                match lower_pattern(*car, s.push(None), outer, next, n0) {
                    Some((ca, s1, n1)) => if s1.len() - (s.len() + 1) > MAX_SLOTS {
                        None
                    } else {
                        match lower_pattern(*cdr, s1, outer, next, n1) {
                            Some((cd, s2, n2)) => Some((
                                tag_test_code(2, matched, (s.len() - outer) as nat, next) + seq![
                                    Instr::Xor { dest: reg(Register::RAX), src: imm(2) },
                                    Instr::Mov { dest: reg(Register::R8), src: mem(Register::RAX, 0) },
                                    Instr::Push { src: reg(Register::R8) },
                                    Instr::Mov { dest: reg(Register::RAX), src: mem(Register::RAX, 8) },
                                ] + ca + seq![
                                    Instr::Mov {
                                        dest: reg(Register::RAX),
                                        src: mem(Register::RSP, (8 * (s1.len() - (s.len() + 1))) as i64),
                                    },
                                ] + cd,
                                s2,
                                n2,
                            )),
                            None => None,
                        }
                    },
                    None => None,
                }
            }
        },
        Pattern::And(left, right) => match lower_pattern(*left, s.push(None), outer, next, n) {
            Some((cl, s1, n1)) => if s1.len() - (s.len() + 1) > MAX_SLOTS {
                None
            } else {
                match lower_pattern(*right, s1, outer, next, n1) {
                    Some((cr, s2, n2)) => Some((
                        seq![Instr::Push { src: reg(Register::RAX) }] + cl + seq![
                            Instr::Mov {
                                dest: reg(Register::RAX),
                                src: mem(Register::RSP, (8 * (s1.len() - (s.len() + 1))) as i64),
                            },
                        ] + cr,
                        s2,
                        n2,
                    )),
                    None => None,
                }
            },
            None => None,
        },
    }
}

/// Named slots for the names of `v`, in order.
pub open spec fn somes(v: Seq<Seq<char>>) -> Seq<Option<Seq<char>>> {
    Seq::new(v.len(), |i: int| Some(v[i]))
}

/// Copies `k` captured values from the closure in rax to the stack.
pub open spec fn capture_loads(k: nat) -> Seq<Instr>
    decreases k,
{
    if k == 0 {
        seq![]
    } else {
        capture_loads((k - 1) as nat) + seq![
            Instr::Mov { dest: reg(Register::R8), src: mem(Register::RAX, (8 + 8 * (k - 1)) as i64) },
            Instr::Push { src: reg(Register::R8) },
        ]
    }
}

/// The slots of a function's frame: its closure (under its own name), its parameters and
/// its captured variables.
pub open spec fn frame_slots(id: Seq<char>, params: Seq<Seq<char>>, body: Expr) -> Seq<Option<Seq<char>>> {
    seq![Some(id)] + somes(params) + somes(captured_list(id, params, body))
}

/// The code block of the function `id`.
pub open spec fn code_block(
    id: Seq<char>,
    params: Seq<Seq<char>>,
    body: Expr,
    n: nat,
    t: Seq<Seq<char>>,
) -> Option<(Seq<Instr>, nat)> {
    let captured = captured_list(id, params, body);
    let slots = frame_slots(id, params, body);
    if params.len() > MAX_SLOTS || captured.len() >= MAX_SLOTS {
        None
    } else {
        match lower(body, slots, true, n, t) {
            Some((cb, n1)) => if slots.len() > MAX_SLOTS {
                None
            } else {
                Some((
                    seq![
                        Instr::Label { name: "lambda_"@ + mangle(id) },
                        Instr::Mov { dest: reg(Register::RAX), src: mem(Register::RSP, (8 * params.len()) as i64) },
                        Instr::Xor { dest: reg(Register::RAX), src: imm(5) },
                    ] + capture_loads(captured.len()) + cb + seq![
                        Instr::Add { dest: reg(Register::RSP), src: imm((8 * slots.len()) as i64) },
                        Instr::Ret,
                    ],
                    n1,
                ))
            },
            None => None,
        }
    }
}

/// The code blocks of the definitions, in order.
pub open spec fn defines_code(defs: Seq<FunctionDefinition>, n: nat, t: Seq<Seq<char>>) -> Option<(Seq<Instr>, nat)>
    decreases defs.len(),
{
    if defs.len() == 0 {
        Some((seq![], n))
    } else {
        match defines_code(defs.drop_last(), n, t) {
            Some((c, n1)) => {
                let d = defs.last();
                match code_block(d.signature.name.0@, ids(d.signature.params@), d.body, n1, t) {
                    Some((cb, n2)) => Some((c + cb, n2)),
                    None => None,
                }
            },
            None => None,
        }
    }
}

/// What the closure of a definition captures, in order.
pub open spec fn def_captured(d: FunctionDefinition) -> Seq<Seq<char>> {
    captured_list(d.signature.name.0@, ids(d.signature.params@), d.body)
}

/// The heap words that the closures of the definitions take.
pub open spec fn closure_words(defs: Seq<FunctionDefinition>) -> nat
    decreases defs.len(),
{
    if defs.len() == 0 {
        0
    } else {
        closure_words(defs.drop_last()) + 1 + def_captured(defs.last()).len()
    }
}

/// Writes each closure's code address and pushes its tagged pointer.
pub open spec fn allocate_code(defs: Seq<FunctionDefinition>) -> Option<Seq<Instr>>
    decreases defs.len(),
{
    if defs.len() == 0 {
        Some(seq![])
    } else {
        let w = closure_words(defs.drop_last());
        match allocate_code(defs.drop_last()) {
            Some(c) => if w > MAX_SLOTS || def_captured(defs.last()).len() >= MAX_SLOTS - w {
                None
            } else {
                Some(c + seq![
                    Instr::Lea { dest: reg(Register::RAX), label: "lambda_"@ + mangle(defs.last().signature.name.0@) },
                    Instr::Mov { dest: mem(Register::RBX, (8 * w) as i64), src: reg(Register::RAX) },
                    Instr::Mov { dest: reg(Register::RAX), src: reg(Register::RBX) },
                    Instr::Add { dest: reg(Register::RAX), src: imm((8 * w) as i64) },
                    Instr::Or { dest: reg(Register::RAX), src: imm(5) },
                    Instr::Push { src: reg(Register::RAX) },
                ])
            },
            None => None,
        }
    }
}

/// Copies the values of `vars` from their slots in `s` to the heap words from
/// `[rbx + 8 * first]` on.
pub open spec fn capture_stores(vars: Seq<Seq<char>>, s: Seq<Option<Seq<char>>>, first: nat) -> Option<Seq<Instr>>
    decreases vars.len(),
{
    if vars.len() == 0 {
        Some(seq![])
    } else {
        let i = (vars.len() - 1) as nat;
        match capture_stores(vars.drop_last(), s, first) {
            Some(c) => match lexical_address(s, vars.last()) {
                Some(k) => if k > MAX_SLOTS || first >= MAX_SLOTS || i >= MAX_SLOTS - first {
                    None
                } else {
                    Some(c + seq![
                        Instr::Mov { dest: reg(Register::R8), src: mem(Register::RSP, (8 * k) as i64) },
                        Instr::Mov { dest: mem(Register::RBX, (8 * (first + i)) as i64), src: reg(Register::R8) },
                    ])
                },
                None => None,
            },
            None => None,
        }
    }
}

/// Fills the captured values of each closure from the slots `s`.
pub open spec fn init_code(defs: Seq<FunctionDefinition>, s: Seq<Option<Seq<char>>>) -> Option<Seq<Instr>>
    decreases defs.len(),
{
    if defs.len() == 0 {
        Some(seq![])
    } else {
        let w = closure_words(defs.drop_last());
        match init_code(defs.drop_last(), s) {
            Some(c) => if def_captured(defs.last()).len() >= MAX_SLOTS - w {
                None
            } else {
                match capture_stores(def_captured(defs.last()), s, w + 1) {
                    Some(cs) => Some(c + cs),
                    None => None,
                }
            },
            None => None,
        }
    }
}

/// The names of the definitions, in order.
pub open spec fn def_names(defs: Seq<FunctionDefinition>) -> Seq<Seq<char>> {
    Seq::new(defs.len(), |i: int| defs[i].signature.name.0@)
}

/// The closures of all definitions: allocated and pushed, then filled, then the heap
/// pointer moved past them.
pub open spec fn closures_code(defs: Seq<FunctionDefinition>) -> Option<Seq<Instr>> {
    match allocate_code(defs) {
        Some(ca) => match init_code(defs, somes(def_names(defs))) {
            Some(ci) => if closure_words(defs) > MAX_SLOTS {
                None
            } else {
                Some(ca + ci + seq![
                    Instr::Add { dest: reg(Register::RBX), src: imm((8 * closure_words(defs)) as i64) },
                ])
            },
            None => None,
        },
        None => None,
    }
}

/// The data records of the literal table, each under its label.
pub open spec fn data_records(t: Seq<Seq<char>>) -> Option<Seq<Instr>>
    decreases t.len(),
{
    if t.len() == 0 {
        Some(seq![])
    } else {
        match data_records(t.drop_last()) {
            Some(c) => if t.last().len() > MAX_LITERAL_CHARS {
                None
            } else {
                Some(c + seq![Instr::Label { name: string_label((t.len() - 1) as nat) }, Instr::Dq {
                    value: t.last().len() as i64,
                }] + char_words(t.last()))
            },
            None => None,
        }
    }
}

pub proof fn lemma_capture_stores_prefix_fails(vars: Seq<Seq<char>>, j: int, s: Seq<Option<Seq<char>>>, first: nat)
    requires
        0 <= j <= vars.len(),
        capture_stores(vars.subrange(0, j), s, first) is None,
    ensures
        capture_stores(vars, s, first) is None,
    decreases vars.len(),
{
    if j == vars.len() {
        assert(vars.subrange(0, j) =~= vars);
    } else {
        assert(vars.drop_last().subrange(0, j) =~= vars.subrange(0, j));
        lemma_capture_stores_prefix_fails(vars.drop_last(), j, s, first);
    }
}

pub proof fn lemma_allocate_prefix_fails(defs: Seq<FunctionDefinition>, j: int)
    requires
        0 <= j <= defs.len(),
        allocate_code(defs.subrange(0, j)) is None,
    ensures
        allocate_code(defs) is None,
    decreases defs.len(),
{
    if j == defs.len() {
        assert(defs.subrange(0, j) =~= defs);
    } else {
        assert(defs.drop_last().subrange(0, j) =~= defs.subrange(0, j));
        lemma_allocate_prefix_fails(defs.drop_last(), j);
    }
}

pub proof fn lemma_init_prefix_fails(defs: Seq<FunctionDefinition>, j: int, s: Seq<Option<Seq<char>>>)
    requires
        0 <= j <= defs.len(),
        init_code(defs.subrange(0, j), s) is None,
    ensures
        init_code(defs, s) is None,
    decreases defs.len(),
{
    if j == defs.len() {
        assert(defs.subrange(0, j) =~= defs);
    } else {
        assert(defs.drop_last().subrange(0, j) =~= defs.subrange(0, j));
        lemma_init_prefix_fails(defs.drop_last(), j, s);
    }
}

} // verus!
