use vstd::prelude::*;

use super::ast;
use super::ast::{arm_lambda_counts, lambda_count, lambda_counts};
use super::document::Position;
use super::error::AstPasringError;
use super::s_expression::{Atom, Expr, ExprKind, List};

verus! {

/// Whether the string `s` is the word `w`.
fn word_is(s: &String, w: &str) -> (r: bool)
    ensures
        r == (s@ == w@),
{
    let t = String::from_str(w);
    *s == t
}

fn err(msg: &str, position: Position) -> (e: AstPasringError)
    ensures
        e.msg@ == msg@,
        e.position == position,
{
    AstPasringError { msg: msg.to_owned(), position }
}

/// Builds the program: every s-expression but the last is a function definition, the last
/// is the main expression. An empty sequence is an error at offset 0.
pub fn parse(s_expressions: &Vec<Expr>) -> (r: Result<ast::Program, AstPasringError>)
    ensures
        s_expressions@.len() == 0 ==> (r matches Err(e) && e.position.offset == 0),
        r matches Ok(p) ==> p.function_definitions@.len() + 1 == s_expressions@.len(),
        r matches Ok(p) ==> lambda_count(p.expr) == 0 && forall|i: int| 0 <= i < p.function_definitions@.len() ==> lambda_count(#[trigger] p.function_definitions@[i].body) == 0,
{
    let n = s_expressions.len();
    if n == 0 {
        return Err(err("Empty program.", Position::zero()));
    }
    let mut function_definitions: Vec<ast::FunctionDefinition> = Vec::new();
    let mut i: usize = 0;
    while i < n - 1
        invariant
            n == s_expressions@.len() > 0,
            i <= n - 1,
            function_definitions@.len() == i,
            forall|k: int| 0 <= k < i ==> lambda_count(#[trigger] function_definitions@[k].body) == 0,
        decreases n - 1 - i,
    {
        match parse_function_definition(&s_expressions[i]) {
            Ok(f) => function_definitions.push(f),
            Err(e) => {
                return Err(e);
            },
        }
        i = i + 1;
    }
    match parse_expr(&s_expressions[n - 1]) {
        Ok(expr) => Ok(ast::Program { function_definitions, expr }),
        Err(e) => Err(e),
    }
}

/// Builds the expression that an s-expression denotes.
pub fn parse_expr(expr: &Expr) -> (r: Result<ast::Expr, AstPasringError>)
    ensures
        expr.kind matches ExprKind::Atom(Atom::Integer(n)) ==> (r matches Ok(ast::Expr::Lit(ast::Lit::Int(m))) && m == n),
        expr.kind matches ExprKind::Atom(Atom::Boolean(b)) ==> (r matches Ok(ast::Expr::Lit(ast::Lit::Bool(c))) && c == b),
        expr.kind matches ExprKind::Atom(Atom::Character(c)) ==> (r matches Ok(ast::Expr::Lit(ast::Lit::Char(d))) && c == d),
        expr.kind matches ExprKind::Atom(Atom::String(s)) ==> (r matches Ok(ast::Expr::Lit(ast::Lit::String(t))) && t@ == s@),
        expr.kind matches ExprKind::Atom(Atom::Symbol(s)) ==> (if s@ == "eof"@ {
            r matches Ok(ast::Expr::Eof)
        } else {
            r matches Ok(ast::Expr::Variable(id)) && id.0@ == s@
        }),
        expr.kind matches ExprKind::List(List(elems)) ==> (elems@.len() == 0 ==> r matches Ok(ast::Expr::Lit(ast::Lit::EmptyList))),
        expr.kind matches ExprKind::List(List(elems)) ==> (elems@.len() > 0 && !(elems@[0].kind is Atom && elems@[0].kind->Atom_0 is Symbol) ==> (r matches Err(e) && e.position == elems@[0].position)),
        r matches Ok(e) ==> lambda_count(e) == 0,
    decreases expr,
{
    match &expr.kind {
        ExprKind::Atom(atom) => Ok(parse_literal(atom)),
        ExprKind::List(list) => parse_list(list, expr.position),
    }
}

fn parse_literal(atom: &Atom) -> (r: ast::Expr)
    ensures
        atom matches Atom::Integer(n) ==> (r matches ast::Expr::Lit(ast::Lit::Int(m)) && m == n),
        atom matches Atom::Boolean(b) ==> (r matches ast::Expr::Lit(ast::Lit::Bool(c)) && c == b),
        atom matches Atom::Character(c) ==> (r matches ast::Expr::Lit(ast::Lit::Char(d)) && c == d),
        atom matches Atom::String(s) ==> (r matches ast::Expr::Lit(ast::Lit::String(t)) && t@ == s@),
        atom matches Atom::Symbol(s) ==> (if s@ == "eof"@ { r matches ast::Expr::Eof } else { r matches ast::Expr::Variable(id) && id.0@ == s@ }),
        lambda_count(r) == 0,
{
    match atom {
        Atom::Integer(n) => ast::Expr::Lit(ast::Lit::Int(*n)),
        Atom::Boolean(b) => ast::Expr::Lit(ast::Lit::Bool(*b)),
        Atom::Character(c) => ast::Expr::Lit(ast::Lit::Char(*c)),
        Atom::String(s) => ast::Expr::Lit(ast::Lit::String(s.clone())),
        Atom::Symbol(s) => if word_is(s, "eof") {
            ast::Expr::Eof
        } else {
            ast::Expr::Variable(ast::Identifier(s.clone()))
        },
    }
}

/// The primitive that a name stands for, with the number of its operands.
pub enum Primitive {
    P0(ast::Op0),
    P1(ast::Op1),
    P2(ast::Op2),
    P3(ast::Op3),
}

fn primitive_of(s: &String) -> (r: Option<Primitive>) {
    if word_is(s, "read-byte") {
        Some(Primitive::P0(ast::Op0::ReadByte))
    } else if word_is(s, "peek-byte") {
        Some(Primitive::P0(ast::Op0::PeekByte))
    } else if word_is(s, "add1") {
        Some(Primitive::P1(ast::Op1::Add1))
    } else if word_is(s, "sub1") {
        Some(Primitive::P1(ast::Op1::Sub1))
    } else if word_is(s, "zero?") {
        Some(Primitive::P1(ast::Op1::IsZero))
    } else if word_is(s, "char?") {
        Some(Primitive::P1(ast::Op1::IsChar))
    } else if word_is(s, "eof-object?") {
        Some(Primitive::P1(ast::Op1::IsEof))
    } else if word_is(s, "box?") {
        Some(Primitive::P1(ast::Op1::IsBox))
    } else if word_is(s, "cons?") {
        Some(Primitive::P1(ast::Op1::IsCons))
    } else if word_is(s, "vector?") {
        Some(Primitive::P1(ast::Op1::IsVector))
    } else if word_is(s, "string?") {
        Some(Primitive::P1(ast::Op1::IsString))
    } else if word_is(s, "integer->char") {
        Some(Primitive::P1(ast::Op1::IntToChar))
    } else if word_is(s, "char->integer") {
        Some(Primitive::P1(ast::Op1::CharToInt))
    } else if word_is(s, "write-byte") {
        Some(Primitive::P1(ast::Op1::WriteByte))
    } else if word_is(s, "box") {
        Some(Primitive::P1(ast::Op1::Box))
    } else if word_is(s, "unbox") {
        Some(Primitive::P1(ast::Op1::Unbox))
    } else if word_is(s, "car") {
        Some(Primitive::P1(ast::Op1::Car))
    } else if word_is(s, "cdr") {
        Some(Primitive::P1(ast::Op1::Cdr))
    } else if word_is(s, "+") {
        Some(Primitive::P2(ast::Op2::Add))
    } else if word_is(s, "-") {
        Some(Primitive::P2(ast::Op2::Sub))
    } else if word_is(s, "<") {
        Some(Primitive::P2(ast::Op2::LessThan))
    } else if word_is(s, "=") {
        Some(Primitive::P2(ast::Op2::Equal))
    } else if word_is(s, "cons") {
        Some(Primitive::P2(ast::Op2::Cons))
    } else if word_is(s, "make-vector") {
        Some(Primitive::P2(ast::Op2::MakeVector))
    } else if word_is(s, "make-string") {
        Some(Primitive::P2(ast::Op2::MakeString))
    } else if word_is(s, "vector-ref") {
        Some(Primitive::P2(ast::Op2::VectorRef))
    } else if word_is(s, "string-ref") {
        Some(Primitive::P2(ast::Op2::StringRef))
    } else if word_is(s, "vector-set!") {
        Some(Primitive::P3(ast::Op3::VectorSet))
    } else {
        None
    }
}

fn parse_list(list: &List, position: Position) -> (r: Result<ast::Expr, AstPasringError>)
    ensures
        list.0@.len() == 0 ==> (r matches Ok(ast::Expr::Lit(ast::Lit::EmptyList))),
        list.0@.len() > 0 && !(list.0@[0].kind is Atom && list.0@[0].kind->Atom_0 is Symbol) ==> (r matches Err(e) && e.position == list.0@[0].position),
        r matches Ok(e) ==> lambda_count(e) == 0,
    decreases list,
{
    let elems = &list.0;
    if elems.len() == 0 {
        return Ok(ast::Expr::Lit(ast::Lit::EmptyList));
    }
    let head = &elems[0];
    let position = head.position;
    match &head.kind {
        ExprKind::Atom(Atom::Symbol(s)) => {
            match primitive_of(s) {
                Some(Primitive::P0(op)) => parse_prim0(op, position, elems),
                Some(Primitive::P1(op)) => parse_prim1(op, position, elems),
                Some(Primitive::P2(op)) => parse_prim2(op, position, elems),
                Some(Primitive::P3(op)) => parse_prim3(op, position, elems),
                None => if word_is(s, "begin") {
                    parse_begin(elems, position)
                } else if word_is(s, "if") {
                    parse_if(elems, position)
                } else if word_is(s, "let") {
                    parse_let(elems, position)
                } else if word_is(s, "match") {
                    parse_match(elems, position)
                } else {
                    parse_function_application(s, elems, position)
                },
            }
        },
        _ => Err(err("The head of a list should be a symbol.", position)),
    }
}

fn parse_prim0(operator: ast::Op0, position: Position, elems: &Vec<Expr>) -> (r: Result<
    ast::Expr,
    AstPasringError,
>)
    requires
        elems@.len() >= 1,
    ensures
        elems@.len() == 1 <==> (r matches Ok(ast::Expr::Prim0(op)) && op == operator),
        r matches Ok(e) ==> lambda_count(e) == 0,
{
    if elems.len() == 1 {
        Ok(ast::Expr::Prim0(operator))
    } else {
        Err(err("The operator takes 0 arguments.", elems[1].position))
    }
}

fn parse_prim1(operator: ast::Op1, position: Position, elems: &Vec<Expr>) -> (r: Result<
    ast::Expr,
    AstPasringError,
>)
    requires
        elems@.len() >= 1,
    ensures
        r matches Ok(e) ==> (elems@.len() == 2 && (e matches ast::Expr::Prim1(op, _) && op == operator)),
        elems@.len() != 2 ==> (r matches Err(e) && e.position == position),
        r matches Ok(e) ==> lambda_count(e) == 0,
    decreases elems,
{
    if elems.len() == 2 {
        match parse_expr(&elems[1]) {
            Ok(a) => Ok(ast::Expr::Prim1(operator, Box::new(a))),
            Err(e) => Err(e),
        }
    } else {
        Err(err("The operator takes 1 argument.", position))
    }
}

fn parse_prim2(operator: ast::Op2, position: Position, elems: &Vec<Expr>) -> (r: Result<
    ast::Expr,
    AstPasringError,
>)
    requires
        elems@.len() >= 1,
    ensures
        r matches Ok(e) ==> (elems@.len() == 3 && (e matches ast::Expr::Prim2(op, _, _) && op == operator)),
        elems@.len() != 3 ==> (r matches Err(e) && e.position == position),
        r matches Ok(e) ==> lambda_count(e) == 0,
    decreases elems,
{
    if elems.len() == 3 {
        let a = match parse_expr(&elems[1]) {
            Ok(a) => a,
            Err(e) => {
                return Err(e);
            },
        };
        let b = match parse_expr(&elems[2]) {
            Ok(b) => b,
            Err(e) => {
                return Err(e);
            },
        };
        Ok(ast::Expr::Prim2(operator, Box::new(a), Box::new(b)))
    } else {
        Err(err("The operator takes 2 arguments.", position))
    }
}

fn parse_prim3(operator: ast::Op3, position: Position, elems: &Vec<Expr>) -> (r: Result<
    ast::Expr,
    AstPasringError,
>)
    requires
        elems@.len() >= 1,
    ensures
        r matches Ok(e) ==> (elems@.len() == 4 && (e matches ast::Expr::Prim3(op, _, _, _) && op == operator)),
        elems@.len() != 4 ==> (r matches Err(e) && e.position == position),
        r matches Ok(e) ==> lambda_count(e) == 0,
    decreases elems,
{
    if elems.len() == 4 {
        let a = match parse_expr(&elems[1]) {
            Ok(a) => a,
            Err(e) => {
                return Err(e);
            },
        };
        let b = match parse_expr(&elems[2]) {
            Ok(b) => b,
            Err(e) => {
                return Err(e);
            },
        };
        let c = match parse_expr(&elems[3]) {
            Ok(c) => c,
            Err(e) => {
                return Err(e);
            },
        };
        Ok(ast::Expr::Prim3(operator, Box::new(a), Box::new(b), Box::new(c)))
    } else {
        Err(err("The operator takes 3 arguments.", position))
    }
}

fn parse_begin(elems: &Vec<Expr>, position: Position) -> (r: Result<ast::Expr, AstPasringError>)
    requires
        elems@.len() >= 1,
    ensures
        r matches Ok(e) ==> elems@.len() == 3 && e is Begin,
        elems@.len() != 3 ==> (r matches Err(e) && e.position == position),
        r matches Ok(e) ==> lambda_count(e) == 0,
    decreases elems,
{
    if elems.len() == 3 {
        let a = match parse_expr(&elems[1]) {
            Ok(a) => a,
            Err(e) => {
                return Err(e);
            },
        };
        let b = match parse_expr(&elems[2]) {
            Ok(b) => b,
            Err(e) => {
                return Err(e);
            },
        };
        Ok(ast::Expr::Begin(Box::new(a), Box::new(b)))
    } else {
        Err(err("The 'begin' expression takes 2 arguments.", position))
    }
}

fn parse_if(elems: &Vec<Expr>, position: Position) -> (r: Result<ast::Expr, AstPasringError>)
    requires
        elems@.len() >= 1,
    ensures
        r matches Ok(e) ==> elems@.len() == 4 && e is If,
        elems@.len() != 4 ==> (r matches Err(e) && e.position == position),
        r matches Ok(e) ==> lambda_count(e) == 0,
    decreases elems,
{
    if elems.len() == 4 {
        let cond = match parse_expr(&elems[1]) {
            Ok(a) => a,
            Err(e) => {
                return Err(e);
            },
        };
        let then_expr = match parse_expr(&elems[2]) {
            Ok(b) => b,
            Err(e) => {
                return Err(e);
            },
        };
        let els = match parse_expr(&elems[3]) {
            Ok(c) => c,
            Err(e) => {
                return Err(e);
            },
        };
        Ok(ast::Expr::If(ast::If { cond: Box::new(cond), then_expr: Box::new(then_expr), els: Box::new(els) }))
    } else {
        Err(err("The 'if' expression takes 3 arguments.", position))
    }
}

fn parse_let(elems: &Vec<Expr>, position: Position) -> (r: Result<ast::Expr, AstPasringError>)
    requires
        elems@.len() >= 1,
    ensures
        r matches Ok(e) ==> elems@.len() == 3 && e is Let,
        elems@.len() != 3 ==> (r matches Err(e) && e.position == position),
        r matches Ok(e) ==> lambda_count(e) == 0,
    decreases elems,
{
    if elems.len() == 3 {
        let binding = match parse_variable_bindings(&elems[1]) {
            Ok(b) => b,
            Err(e) => {
                return Err(e);
            },
        };
        let body = match parse_expr(&elems[2]) {
            Ok(b) => b,
            Err(e) => {
                return Err(e);
            },
        };
        Ok(ast::Expr::Let(ast::Let { binding, body: Box::new(body) }))
    } else {
        Err(err("`let` expression should be of the form `(let <bindings> <body>)`", position))
    }
}

/// Reads bindings of the form `((<lhs> <rhs>))`.
fn parse_variable_bindings(expr: &Expr) -> (r: Result<ast::Binding, AstPasringError>)
    ensures
        r matches Ok(b) ==> lambda_count(*b.rhs) == 0,
    decreases expr,
{
    if let ExprKind::List(List(elems)) = &expr.kind {
        if elems.len() == 1 {
            return parse_variable_binding(&elems[0]);
        }
    }
    Err(err("Variable bindings should be of the form `((<lhs> <rhs>))`", expr.position))
}

/// Reads a binding of the form `(<lhs> <rhs>)`.
fn parse_variable_binding(expr: &Expr) -> (r: Result<ast::Binding, AstPasringError>)
    ensures
        r matches Ok(b) ==> lambda_count(*b.rhs) == 0,
    decreases expr,
{
    if let ExprKind::List(List(elems)) = &expr.kind {
        if elems.len() == 2 {
            let lhs = match parse_identifier(&elems[0]) {
                Ok(id) => id,
                Err(e) => {
                    return Err(e);
                },
            };
            let rhs = match parse_expr(&elems[1]) {
                Ok(b) => b,
                Err(e) => {
                    return Err(e);
                },
            };
            return Ok(ast::Binding { lhs, rhs: Box::new(rhs) });
        }
    }
    Err(err("Variable binding should be of the form `(<lhs> <rhs>)`", expr.position))
}

fn parse_match(elems: &Vec<Expr>, position: Position) -> (r: Result<ast::Expr, AstPasringError>)
    requires
        elems@.len() >= 1,
    ensures
        r matches Ok(e) ==> (elems@.len() >= 2 && (e matches ast::Expr::Match(m) && m.arms@.len() + 2 == elems@.len())),
        elems@.len() < 2 ==> (r matches Err(e) && e.position == position),
        r matches Ok(e) ==> lambda_count(e) == 0,
    decreases elems,
{
    if elems.len() < 2 {
        return Err(
            err("The 'match' expression should be of the form `(match <expr> <arms>...)`", position),
        );
    }
    let expr = match parse_expr(&elems[1]) {
        Ok(b) => b,
        Err(e) => {
            return Err(e);
        },
    };
    let mut arms: Vec<ast::Arm> = Vec::new();
    let mut i: usize = 2;
    while i < elems.len()
        invariant
            2 <= i <= elems@.len(),
            arms@.len() + 2 == i,
            arm_lambda_counts(arms@) == 0,
        decreases elems@.len() - i,
    {
        match parse_match_arm(&elems[i]) {
            Ok(arm) => {
                let ghost before = arms@;
                arms.push(arm);
                assert(arms@.subrange(0, arms@.len() - 1) =~= before);
            },
            Err(e) => {
                return Err(e);
            },
        }
        i = i + 1;
    }
    Ok(ast::Expr::Match(ast::Match { expr: Box::new(expr), arms }))
}

/// Reads an arm of the form `(<pattern> <body>)`.
fn parse_match_arm(expr: &Expr) -> (r: Result<ast::Arm, AstPasringError>)
    ensures
        r matches Ok(a) ==> lambda_count(*a.body) == 0,
    decreases expr,
{
    if let ExprKind::List(List(elems)) = &expr.kind {
        if elems.len() == 2 {
            let pattern = match parse_pattern(&elems[0]) {
                Ok(p) => p,
                Err(e) => {
                    return Err(e);
                },
            };
            let body = match parse_expr(&elems[1]) {
                Ok(b) => b,
                Err(e) => {
                    return Err(e);
                },
            };
            return Ok(ast::Arm { pattern, body: Box::new(body) });
        }
    }
    Err(err("Match arm should be of the form `(<pattern> <body>)`", expr.position))
}

fn parse_pattern(expr: &Expr) -> (r: Result<ast::Pattern, AstPasringError>)
    ensures
        expr.kind is Atom ==> r is Ok,
    decreases expr,
{
    match &expr.kind {
        ExprKind::Atom(atom) => Ok(parse_atom_pattern(atom)),
        ExprKind::List(List(elems)) => parse_complex_pattern(elems),
    }
}

fn parse_atom_pattern(atom: &Atom) -> (r: ast::Pattern)
    ensures
        atom matches Atom::Symbol(s) ==> (if s@ == "_"@ { r is Wildcard } else { r matches ast::Pattern::Variable(id) && id.0@ == s@ }),
        atom matches Atom::Integer(n) ==> (r matches ast::Pattern::Lit(ast::Lit::Int(m)) && m == n),
        atom matches Atom::Boolean(b) ==> (r matches ast::Pattern::Lit(ast::Lit::Bool(c)) && c == b),
        atom matches Atom::Character(c) ==> (r matches ast::Pattern::Lit(ast::Lit::Char(d)) && c == d),
        atom matches Atom::String(s) ==> (r matches ast::Pattern::Lit(ast::Lit::String(t)) && t@ == s@),
{
    match atom {
        Atom::Integer(n) => ast::Pattern::Lit(ast::Lit::Int(*n)),
        Atom::Boolean(b) => ast::Pattern::Lit(ast::Lit::Bool(*b)),
        Atom::Character(c) => ast::Pattern::Lit(ast::Lit::Char(*c)),
        Atom::String(s) => ast::Pattern::Lit(ast::Lit::String(s.clone())),
        Atom::Symbol(s) => if word_is(s, "_") {
            ast::Pattern::Wildcard
        } else {
            ast::Pattern::Variable(ast::Identifier(s.clone()))
        },
    }
}

fn parse_complex_pattern(elems: &Vec<Expr>) -> (r: Result<ast::Pattern, AstPasringError>)
    ensures
        elems@.len() == 0 ==> (r matches Ok(ast::Pattern::Lit(ast::Lit::EmptyList))),
    decreases elems,
{
    if elems.len() == 0 {
        return Ok(ast::Pattern::Lit(ast::Lit::EmptyList));
    }
    let head = &elems[0];
    if let ExprKind::Atom(Atom::Symbol(s)) = &head.kind {
        if word_is(s, "cons") && elems.len() == 3 {
            let car = match parse_pattern(&elems[1]) {
                Ok(p) => p,
                Err(e) => {
                    return Err(e);
                },
            };
            let cdr = match parse_pattern(&elems[2]) {
                Ok(p) => p,
                Err(e) => {
                    return Err(e);
                },
            };
            return Ok(ast::Pattern::Cons(Box::new(car), Box::new(cdr)));
        } else if word_is(s, "box") && elems.len() == 2 {
            let sub = match parse_pattern(&elems[1]) {
                Ok(p) => p,
                Err(e) => {
                    return Err(e);
                },
            };
            return Ok(ast::Pattern::Box(Box::new(sub)));
        } else if word_is(s, "and") && elems.len() == 3 {
            let left = match parse_pattern(&elems[1]) {
                Ok(p) => p,
                Err(e) => {
                    return Err(e);
                },
            };
            let right = match parse_pattern(&elems[2]) {
                Ok(p) => p,
                Err(e) => {
                    return Err(e);
                },
            };
            return Ok(ast::Pattern::And(Box::new(left), Box::new(right)));
        }
    }
    Err(err("Invalid pattern syntax.", head.position))
}

fn parse_function_application(name: &String, elems: &Vec<Expr>, position: Position) -> (r: Result<
    ast::Expr,
    AstPasringError,
>)
    requires
        elems@.len() >= 1,
    ensures
        r matches Ok(e) ==> (e matches ast::Expr::App(app) && app.args@.len() + 1 == elems@.len()),
        r matches Ok(e) ==> lambda_count(e) == 0,
    decreases elems,
{
    let mut args: Vec<ast::Expr> = Vec::new();
    let mut i: usize = 1;
    while i < elems.len()
        invariant
            1 <= i <= elems@.len(),
            args@.len() + 1 == i,
            lambda_counts(args@) == 0,
        decreases elems@.len() - i,
    {
        match parse_expr(&elems[i]) {
            Ok(a) => {
                let ghost before = args@;
                args.push(a);
                assert(args@.subrange(0, args@.len() - 1) =~= before);
            },
            Err(e) => {
                return Err(e);
            },
        }
        i = i + 1;
    }
    let function = ast::Expr::Variable(ast::Identifier(name.clone()));
    assert(lambda_count(function) == 0);
    let e = ast::Expr::App(ast::App { function: Box::new(function), args });
    assert(lambda_count(e) == 0);
    Ok(e)
}

/// Reads a definition of the form `(define (<name> <param> ...) <body>)`.
fn parse_function_definition(expr: &Expr) -> (r: Result<ast::FunctionDefinition, AstPasringError>)
    ensures
        r matches Ok(d) ==> lambda_count(d.body) == 0,
{
    if let ExprKind::List(List(elems)) = &expr.kind {
        if elems.len() == 3 {
            match parse_define_keyword(&elems[0]) {
                Ok(()) => {},
                Err(e) => {
                    return Err(e);
                },
            }
            let signature = match parse_function_signature(&elems[1]) {
                Ok(s) => s,
                Err(e) => {
                    return Err(e);
                },
            };
            let body = match parse_expr(&elems[2]) {
                Ok(b) => b,
                Err(e) => {
                    return Err(e);
                },
            };
            return Ok(ast::FunctionDefinition { signature, body });
        }
    }
    Err(
        err(
            "Function definition should be of the form `(define <signature> <body>)`",
            expr.position,
        ),
    )
}

fn parse_define_keyword(expr: &Expr) -> (r: Result<(), AstPasringError>)
    ensures
        r is Ok <==> (expr.kind matches ExprKind::Atom(Atom::Symbol(s)) && s@ == "define"@),
        r matches Err(e) ==> e.position == expr.position,
{
    if let ExprKind::Atom(Atom::Symbol(s)) = &expr.kind {
        if word_is(s, "define") {
            return Ok(());
        }
    }
    Err(err("Expected `define` keyword.", expr.position))
}

/// Reads a signature of the form `(<name> <param> ...)`.
fn parse_function_signature(expr: &Expr) -> (r: Result<ast::FunctionSignature, AstPasringError>)
    ensures
        r matches Ok(sig) ==> (expr.kind matches ExprKind::List(List(elems)) && elems@.len() == sig.params@.len() + 1),
{
    if let ExprKind::List(List(elems)) = &expr.kind {
        if elems.len() >= 1 {
            let name = match parse_identifier(&elems[0]) {
                Ok(id) => id,
                Err(e) => {
                    return Err(e);
                },
            };
            let mut params: Vec<ast::Identifier> = Vec::new();
            let mut i: usize = 1;
            while i < elems.len()
                invariant
                    1 <= i <= elems@.len(),
                    params@.len() + 1 == i,
                decreases elems@.len() - i,
            {
                match parse_identifier(&elems[i]) {
                    Ok(id) => params.push(id),
                    Err(e) => {
                        return Err(e);
                    },
                }
                i = i + 1;
            }
            return Ok(ast::FunctionSignature { name, params });
        }
    }
    Err(
        err(
            "Function signature should be of the form `(<name> <param> <param> ...)`",
            expr.position,
        ),
    )
}

fn parse_identifier(expr: &Expr) -> (r: Result<ast::Identifier, AstPasringError>)
    ensures
        expr.kind matches ExprKind::Atom(Atom::Symbol(s)) ==> (r matches Ok(id) && id.0@ == s@),
        !(expr.kind matches ExprKind::Atom(Atom::Symbol(_))) ==> (r matches Err(e) && e.position == expr.position),
{
    match &expr.kind {
        ExprKind::Atom(Atom::Symbol(s)) => Ok(ast::Identifier(s.clone())),
        _ => Err(err("Expected an identifier.", expr.position)),
    }
}

} // verus!
