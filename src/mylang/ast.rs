use vstd::prelude::*;

verus! {

/// Expressions of the source language.
#[derive(Debug)]
pub enum Expr {
    Eof,
    Lit(Lit),
    Prim0(Op0),
    Prim1(Op1, Box<Expr>),
    Prim2(Op2, Box<Expr>, Box<Expr>),
    Prim3(Op3, Box<Expr>, Box<Expr>, Box<Expr>),
    Begin(Box<Expr>, Box<Expr>),
    Variable(Identifier),
    Let(Let),
    App(App),
    If(If),
    Match(Match),
    Lambda(Lambda),
}

#[derive(Debug)]
pub struct Let {
    pub binding: Binding,
    pub body: Box<Expr>,
}

#[derive(Debug)]
pub struct Binding {
    pub lhs: Identifier,
    pub rhs: Box<Expr>,
}

/// A name of the source program.
#[derive(Debug, Clone)]
pub struct Identifier(pub String);

impl Identifier {
    pub fn new(s: &str) -> (r: Identifier)
        ensures
            r.0@ == s@,
    {
        Identifier(s.to_owned())
    }

    pub fn copy(&self) -> (r: Identifier)
        ensures
            r.0@ == self.0@,
    {
        Identifier(self.0.clone())
    }
}

impl PartialEq for Identifier {
    fn eq(&self, o: &Identifier) -> (r: bool)
        ensures
            r == (self.0@ == o.0@),
    {
        self.0 == o.0
    }
}

impl vstd::std_specs::cmp::PartialEqSpecImpl for Identifier {
    open spec fn obeys_eq_spec() -> bool {
        true
    }

    open spec fn eq_spec(&self, o: &Identifier) -> bool {
        self.0@ == o.0@
    }
}

/// Function application.
#[derive(Debug)]
pub struct App {
    pub function: Box<Expr>,
    pub args: Vec<Expr>,
}

#[derive(Debug)]
pub struct If {
    pub cond: Box<Expr>,
    pub then_expr: Box<Expr>,
    pub els: Box<Expr>,
}

#[derive(Debug)]
pub struct Match {
    pub expr: Box<Expr>,
    pub arms: Vec<Arm>,
}

#[derive(Debug)]
pub struct Arm {
    pub pattern: Pattern,
    pub body: Box<Expr>,
}

#[derive(Debug)]
pub enum Pattern {
    Wildcard,
    Variable(Identifier),
    Lit(Lit),
    Cons(Box<Pattern>, Box<Pattern>),
    Box(Box<Pattern>),
    And(Box<Pattern>, Box<Pattern>),
}

#[derive(Debug)]
pub enum Lit {
    Int(i64),
    Bool(bool),
    Char(char),
    String(String),
    EmptyList,
}

#[derive(Debug, Clone, Copy, PartialEq, Eq, Structural)]
pub enum Op0 {
    ReadByte,
    PeekByte,
}

#[derive(Debug, Clone, Copy, PartialEq, Eq, Structural)]
pub enum Op1 {
    Add1,
    Sub1,
    IsZero,
    IsChar,
    IsEof,
    IsBox,
    IsCons,
    IsVector,
    IsString,
    IntToChar,
    CharToInt,
    WriteByte,
    Box,
    Unbox,
    Car,
    Cdr,
}

#[derive(Debug, Clone, Copy, PartialEq, Eq, Structural)]
pub enum Op2 {
    Add,
    Sub,
    /// Whether the first operand is less than the second.
    LessThan,
    Equal,
    Cons,
    /// A new vector: the first operand is its length, the second the value of each element.
    MakeVector,
    /// A new string: the first operand is its length, the second the character of each element.
    MakeString,
    /// The element of the vector (first operand) at the index (second operand).
    VectorRef,
    /// The character of the string (first operand) at the index (second operand).
    StringRef,
}

#[derive(Debug, Clone, Copy, PartialEq, Eq, Structural)]
pub enum Op3 {
    /// Sets the element of the vector (first operand) at the index (second operand) to the
    /// value (third operand).
    VectorSet,
}

/// Function definitions followed by the main expression.
#[derive(Debug)]
pub struct Program {
    pub function_definitions: Vec<FunctionDefinition>,
    pub expr: Expr,
}

#[derive(Debug)]
pub struct FunctionDefinition {
    pub signature: FunctionSignature,
    pub body: Expr,
}

#[derive(Debug)]
pub struct FunctionSignature {
    pub name: Identifier,
    pub params: Vec<Identifier>,
}

#[derive(Debug)]
pub struct Lambda {
    pub id: Identifier,
    pub params: Vec<Identifier>,
    pub body: Box<Expr>,
}

/// The number of nodes of an expression, arm bodies included.
pub open spec fn size(e: Expr) -> nat
    decreases e, 0nat,
{
    match e {
        Expr::Prim1(_, a) => 1 + size(*a),
        Expr::Prim2(_, a, b) => 1 + size(*a) + size(*b),
        Expr::Prim3(_, a, b, c) => 1 + size(*a) + size(*b) + size(*c),
        Expr::Begin(a, b) => 1 + size(*a) + size(*b),
        Expr::Let(l) => 1 + size(*l.binding.rhs) + size(*l.body),
        Expr::App(app) => 1 + size(*app.function) + sizes(app.args@),
        Expr::If(i) => 1 + size(*i.cond) + size(*i.then_expr) + size(*i.els),
        Expr::Match(m) => 1 + size(*m.expr) + arm_sizes(m.arms@),
        Expr::Lambda(l) => 1 + size(*l.body),
        _ => 1,
    }
}

/// The total size of a sequence of expressions.
pub open spec fn sizes(s: Seq<Expr>) -> nat
    decreases s, 0nat,
{
    if s.len() == 0 {
        0
    } else {
        sizes(s.subrange(0, s.len() - 1)) + size(s[s.len() - 1])
    }
}

/// The total size of the bodies of a sequence of arms.
pub open spec fn arm_sizes(s: Seq<Arm>) -> nat
    decreases s, 0nat,
{
    if s.len() == 0 {
        0
    } else {
        arm_sizes(s.subrange(0, s.len() - 1)) + size(*s[s.len() - 1].body)
    }
}

pub proof fn lemma_size_positive(e: Expr)
    ensures
        size(e) >= 1,
{
}

pub proof fn lemma_sizes_bound(s: Seq<Expr>, i: int)
    requires
        0 <= i < s.len(),
    ensures
        size(s[i]) <= sizes(s),
    decreases s.len(),
{
    if i < s.len() - 1 {
        lemma_sizes_bound(s.subrange(0, s.len() - 1), i);
    }
}

pub proof fn lemma_arm_sizes_bound(s: Seq<Arm>, i: int)
    requires
        0 <= i < s.len(),
    ensures
        size(*s[i].body) <= arm_sizes(s),
    decreases s.len(),
{
    if i < s.len() - 1 {
        lemma_arm_sizes_bound(s.subrange(0, s.len() - 1), i);
    }
}

/// The number of nodes of a pattern.
pub open spec fn pattern_size(p: Pattern) -> nat
    decreases p,
{
    match p {
        Pattern::Cons(a, b) => 1 + pattern_size(*a) + pattern_size(*b),
        Pattern::Box(a) => 1 + pattern_size(*a),
        Pattern::And(a, b) => 1 + pattern_size(*a) + pattern_size(*b),
        _ => 1,
    }
}

/// The names of a list of identifiers.
pub open spec fn names(v: Seq<Identifier>) -> Set<Seq<char>> {
    Set::new(|n: Seq<char>| exists|k: int| 0 <= k < v.len() && v[k].0@ == n)
}

/// No two identifiers of `v` have the same name.
pub open spec fn distinct_names(v: Seq<Identifier>) -> bool {
    forall|i: int, j: int| 0 <= i < j < v.len() ==> (#[trigger] v[i]).0@ != (#[trigger] v[j]).0@
}

/// The variables that a pattern binds.
pub open spec fn pattern_vars(p: Pattern) -> Set<Seq<char>>
    decreases p,
{
    match p {
        Pattern::Variable(x) => set![x.0@],
        Pattern::Box(a) => pattern_vars(*a),
        Pattern::Cons(a, b) => pattern_vars(*a).union(pattern_vars(*b)),
        Pattern::And(a, b) => pattern_vars(*a).union(pattern_vars(*b)),
        _ => Set::empty(),
    }
}

/// The variables that occur free in an expression: not bound around the occurrence by a
/// `let`, a match arm's pattern, or a lambda's parameters and name.
pub open spec fn free_vars(e: Expr) -> Set<Seq<char>>
    decreases e, 0nat,
{
    match e {
        Expr::Variable(id) => set![id.0@],
        Expr::Prim1(_, a) => free_vars(*a),
        Expr::Prim2(_, a, b) => free_vars(*a).union(free_vars(*b)),
        Expr::Prim3(_, a, b, c) => free_vars(*a).union(free_vars(*b)).union(free_vars(*c)),
        Expr::Begin(a, b) => free_vars(*a).union(free_vars(*b)),
        Expr::Let(l) => free_vars(*l.binding.rhs).union(
            free_vars(*l.body).difference(set![l.binding.lhs.0@]),
        ),
        Expr::App(app) => free_vars(*app.function).union(free_vars_seq(app.args@)),
        Expr::If(i) => free_vars(*i.cond).union(free_vars(*i.then_expr)).union(free_vars(*i.els)),
        Expr::Match(m) => free_vars(*m.expr).union(free_vars_arms(m.arms@)),
        Expr::Lambda(l) => free_vars(*l.body).difference(names(l.params@)).difference(
            set![l.id.0@],
        ),
        _ => Set::empty(),
    }
}

pub open spec fn free_vars_seq(s: Seq<Expr>) -> Set<Seq<char>>
    decreases s, 0nat,
{
    if s.len() == 0 {
        Set::empty()
    } else {
        free_vars_seq(s.subrange(0, s.len() - 1)).union(free_vars(s[s.len() - 1]))
    }
}

pub open spec fn free_vars_arms(s: Seq<Arm>) -> Set<Seq<char>>
    decreases s, 0nat,
{
    if s.len() == 0 {
        Set::empty()
    } else {
        free_vars_arms(s.subrange(0, s.len() - 1)).union(
            free_vars(*s[s.len() - 1].body).difference(pattern_vars(s[s.len() - 1].pattern)),
        )
    }
}

/// The string literals of an expression, arm bodies and lambda bodies included.
pub open spec fn string_lits(e: Expr) -> Set<Seq<char>>
    decreases e, 0nat,
{
    match e {
        Expr::Lit(Lit::String(s)) => set![s@],
        Expr::Prim1(_, a) => string_lits(*a),
        Expr::Prim2(_, a, b) => string_lits(*a).union(string_lits(*b)),
        Expr::Prim3(_, a, b, c) => string_lits(*a).union(string_lits(*b)).union(string_lits(*c)),
        Expr::Begin(a, b) => string_lits(*a).union(string_lits(*b)),
        Expr::Let(l) => string_lits(*l.binding.rhs).union(string_lits(*l.body)),
        Expr::App(app) => string_lits(*app.function).union(string_lits_seq(app.args@)),
        Expr::If(i) => string_lits(*i.cond).union(string_lits(*i.then_expr)).union(
            string_lits(*i.els),
        ),
        Expr::Match(m) => string_lits(*m.expr).union(string_lits_arms(m.arms@)),
        Expr::Lambda(l) => string_lits(*l.body),
        _ => Set::empty(),
    }
}

pub open spec fn string_lits_seq(s: Seq<Expr>) -> Set<Seq<char>>
    decreases s, 0nat,
{
    if s.len() == 0 {
        Set::empty()
    } else {
        string_lits_seq(s.subrange(0, s.len() - 1)).union(string_lits(s[s.len() - 1]))
    }
}

pub open spec fn string_lits_arms(s: Seq<Arm>) -> Set<Seq<char>>
    decreases s, 0nat,
{
    if s.len() == 0 {
        Set::empty()
    } else {
        string_lits_arms(s.subrange(0, s.len() - 1)).union(string_lits(*s[s.len() - 1].body))
    }
}

/// The string literals of the bodies of a sequence of definitions.
pub open spec fn definitions_lits(s: Seq<FunctionDefinition>) -> Set<Seq<char>>
    decreases s.len(),
{
    if s.len() == 0 {
        Set::empty()
    } else {
        definitions_lits(s.drop_last()).union(string_lits(s.last().body))
    }
}

/// The number of lambda expressions within an expression.
pub open spec fn lambda_count(e: Expr) -> nat
    decreases e, 0nat,
{
    match e {
        Expr::Prim1(_, a) => lambda_count(*a),
        Expr::Prim2(_, a, b) => lambda_count(*a) + lambda_count(*b),
        Expr::Prim3(_, a, b, c) => lambda_count(*a) + lambda_count(*b) + lambda_count(*c),
        Expr::Begin(a, b) => lambda_count(*a) + lambda_count(*b),
        Expr::Let(l) => lambda_count(*l.binding.rhs) + lambda_count(*l.body),
        Expr::App(app) => lambda_count(*app.function) + lambda_counts(app.args@),
        Expr::If(i) => lambda_count(*i.cond) + lambda_count(*i.then_expr) + lambda_count(*i.els),
        Expr::Match(m) => lambda_count(*m.expr) + arm_lambda_counts(m.arms@),
        Expr::Lambda(l) => 1 + lambda_count(*l.body),
        _ => 0,
    }
}

pub open spec fn lambda_counts(s: Seq<Expr>) -> nat
    decreases s, 0nat,
{
    if s.len() == 0 {
        0
    } else {
        lambda_counts(s.subrange(0, s.len() - 1)) + lambda_count(s[s.len() - 1])
    }
}

pub open spec fn arm_lambda_counts(s: Seq<Arm>) -> nat
    decreases s, 0nat,
{
    if s.len() == 0 {
        0
    } else {
        arm_lambda_counts(s.subrange(0, s.len() - 1)) + lambda_count(*s[s.len() - 1].body)
    }
}

pub proof fn lemma_lambda_counts_bound(s: Seq<Expr>, i: int)
    requires
        0 <= i < s.len(),
    ensures
        lambda_count(s[i]) <= lambda_counts(s),
    decreases s.len(),
{
    if i < s.len() - 1 {
        lemma_lambda_counts_bound(s.subrange(0, s.len() - 1), i);
    }
}

pub proof fn lemma_arm_lambda_counts_bound(s: Seq<Arm>, i: int)
    requires
        0 <= i < s.len(),
    ensures
        lambda_count(*s[i].body) <= arm_lambda_counts(s),
    decreases s.len(),
{
    if i < s.len() - 1 {
        lemma_arm_lambda_counts_bound(s.subrange(0, s.len() - 1), i);
    }
}

/// The names of a list of identifiers, in order.
pub open spec fn ids(v: Seq<Identifier>) -> Seq<Seq<char>> {
    Seq::new(v.len(), |i: int| v[i].0@)
}

/// `out` followed by the names of `more` that it does not hold yet, in order.
pub open spec fn add_all_s(out: Seq<Seq<char>>, more: Seq<Seq<char>>) -> Seq<Seq<char>>
    decreases more.len(),
{
    if more.len() == 0 {
        out
    } else {
        let o = add_all_s(out, more.drop_last());
        if o.contains(more.last()) {
            o
        } else {
            o.push(more.last())
        }
    }
}

/// The names of `v` that `removed` does not hold, in order.
pub open spec fn without_s(v: Seq<Seq<char>>, removed: Seq<Seq<char>>) -> Seq<Seq<char>>
    decreases v.len(),
{
    if v.len() == 0 {
        seq![]
    } else {
        let w = without_s(v.drop_last(), removed);
        if removed.contains(v.last()) {
            w
        } else {
            w.push(v.last())
        }
    }
}

/// The variables that a pattern binds, in order.
pub open spec fn pattern_var_list(p: Pattern) -> Seq<Seq<char>>
    decreases p,
{
    match p {
        Pattern::Variable(x) => seq![x.0@],
        Pattern::Box(a) => pattern_var_list(*a),
        Pattern::Cons(a, b) => pattern_var_list(*a) + pattern_var_list(*b),
        Pattern::And(a, b) => pattern_var_list(*a) + pattern_var_list(*b),
        _ => seq![],
    }
}

/// What a function with name `id`, parameters `params` and body `body` captures, in the
/// order of the first occurrences in the body.
pub open spec fn captured_list(id: Seq<char>, params: Seq<Seq<char>>, body: Expr) -> Seq<Seq<char>>
    decreases size(body), 1nat,
{
    without_s(fv_list(body), add_all_s(seq![id], params))
}

/// The free variables of an expression, each once, in order of first occurrence.
pub open spec fn fv_list(e: Expr) -> Seq<Seq<char>>
    decreases size(e), 0nat,
{
    let none = Seq::<Seq<char>>::empty();
    match e {
        Expr::Variable(id) => seq![id.0@],
        Expr::Prim1(_, a) => add_all_s(none, fv_list(*a)),
        Expr::Prim2(_, a, b) => add_all_s(add_all_s(none, fv_list(*a)), fv_list(*b)),
        Expr::Begin(a, b) => add_all_s(add_all_s(none, fv_list(*a)), fv_list(*b)),
        Expr::Prim3(_, a, b, c) => add_all_s(
            add_all_s(add_all_s(none, fv_list(*a)), fv_list(*b)),
            fv_list(*c),
        ),
        Expr::If(i) => add_all_s(
            add_all_s(add_all_s(none, fv_list(*i.cond)), fv_list(*i.then_expr)),
            fv_list(*i.els),
        ),
        Expr::Let(l) => add_all_s(
            add_all_s(none, fv_list(*l.binding.rhs)),
            without_s(fv_list(*l.body), seq![l.binding.lhs.0@]),
        ),
        Expr::App(app) => fv_args(app.args@, add_all_s(none, fv_list(*app.function))),
        Expr::Match(m) => fv_arms(m.arms@, add_all_s(none, fv_list(*m.expr))),
        Expr::Lambda(l) => add_all_s(none, captured_list(l.id.0@, ids(l.params@), *l.body)),
        _ => none,
    }
}

pub open spec fn fv_args(args: Seq<Expr>, acc: Seq<Seq<char>>) -> Seq<Seq<char>>
    decreases sizes(args), 1nat via fv_args_decreases
{
    if args.len() == 0 {
        acc
    } else {
        add_all_s(fv_args(args.subrange(0, args.len() - 1), acc), fv_list(args[args.len() - 1]))
    }
}

pub open spec fn fv_arms(arms: Seq<Arm>, acc: Seq<Seq<char>>) -> Seq<Seq<char>>
    decreases arm_sizes(arms), 1nat via fv_arms_decreases
{
    if arms.len() == 0 {
        acc
    } else {
        add_all_s(
            fv_arms(arms.subrange(0, arms.len() - 1), acc),
            without_s(
                fv_list(*arms[arms.len() - 1].body),
                pattern_var_list(arms[arms.len() - 1].pattern),
            ),
        )
    }
}

#[via_fn]
proof fn fv_args_decreases(args: Seq<Expr>, acc: Seq<Seq<char>>) {
    if args.len() > 0 {
        lemma_size_positive(args[args.len() - 1]);
        lemma_sizes_bound(args, args.len() - 1);
    }
}

#[via_fn]
proof fn fv_arms_decreases(arms: Seq<Arm>, acc: Seq<Seq<char>>) {
    if arms.len() > 0 {
        lemma_size_positive(*arms[arms.len() - 1].body);
        lemma_arm_sizes_bound(arms, arms.len() - 1);
    }
}

/// `out` with `s` appended unless it holds it already.
pub open spec fn add_lit(out: Seq<Seq<char>>, s: Seq<char>) -> Seq<Seq<char>> {
    if out.contains(s) {
        out
    } else {
        out.push(s)
    }
}

/// `out` followed by the string literals of `e` that it does not hold yet, in order of
/// first occurrence.
pub open spec fn lits_list(e: Expr, out: Seq<Seq<char>>) -> Seq<Seq<char>>
    decreases size(e), 0nat,
{
    match e {
        Expr::Lit(Lit::String(s)) => add_lit(out, s@),
        Expr::Prim1(_, a) => lits_list(*a, out),
        Expr::Prim2(_, a, b) => lits_list(*b, lits_list(*a, out)),
        Expr::Begin(a, b) => lits_list(*b, lits_list(*a, out)),
        Expr::Prim3(_, a, b, c) => lits_list(*c, lits_list(*b, lits_list(*a, out))),
        Expr::If(i) => lits_list(*i.els, lits_list(*i.then_expr, lits_list(*i.cond, out))),
        Expr::Let(l) => lits_list(*l.body, lits_list(*l.binding.rhs, out)),
        Expr::App(app) => lits_args(app.args@, lits_list(*app.function, out)),
        Expr::Match(m) => lits_arms(m.arms@, lits_list(*m.expr, out)),
        Expr::Lambda(l) => lits_list(*l.body, out),
        _ => out,
    }
}

pub open spec fn lits_args(args: Seq<Expr>, out: Seq<Seq<char>>) -> Seq<Seq<char>>
    decreases sizes(args), 1nat via lits_args_decreases
{
    if args.len() == 0 {
        out
    } else {
        lits_list(args[args.len() - 1], lits_args(args.subrange(0, args.len() - 1), out))
    }
}

pub open spec fn lits_arms(arms: Seq<Arm>, out: Seq<Seq<char>>) -> Seq<Seq<char>>
    decreases arm_sizes(arms), 1nat via lits_arms_decreases
{
    if arms.len() == 0 {
        out
    } else {
        lits_list(*arms[arms.len() - 1].body, lits_arms(arms.subrange(0, arms.len() - 1), out))
    }
}

#[via_fn]
proof fn lits_args_decreases(args: Seq<Expr>, out: Seq<Seq<char>>) {
    if args.len() > 0 {
        lemma_size_positive(args[args.len() - 1]);
        lemma_sizes_bound(args, args.len() - 1);
    }
}

#[via_fn]
proof fn lits_arms_decreases(arms: Seq<Arm>, out: Seq<Seq<char>>) {
    if arms.len() > 0 {
        lemma_size_positive(*arms[arms.len() - 1].body);
        lemma_arm_sizes_bound(arms, arms.len() - 1);
    }
}

/// The literal table of a program: the string literals of the definitions' bodies, then
/// of the main expression, each once, in order of first occurrence.
pub open spec fn program_lits(defs: Seq<FunctionDefinition>, main: Expr) -> Seq<Seq<char>> {
    lits_list(main, defs_lits(defs))
}

pub open spec fn defs_lits(defs: Seq<FunctionDefinition>) -> Seq<Seq<char>>
    decreases defs.len(),
{
    if defs.len() == 0 {
        seq![]
    } else {
        lits_list(defs.last().body, defs_lits(defs.drop_last()))
    }
}

} // verus!
