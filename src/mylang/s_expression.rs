use vstd::prelude::*;

use super::document::Position;
use super::error::SexpParsingError;
use super::lexer::{Token, TokenKind};

verus! {

/// An s-expression and the offset of its first token.
#[derive(Debug)]
pub struct Expr {
    pub kind: ExprKind,
    pub position: Position,
}

#[derive(Debug)]
pub enum ExprKind {
    Atom(Atom),
    List(List),
}

/// The elements of a parenthesized list.
#[derive(Debug)]
pub struct List(pub Vec<Expr>);

#[derive(Debug, PartialEq, Eq)]
pub enum Atom {
    Symbol(String),
    Integer(i64),
    Boolean(bool),
    Character(char),
    String(String),
}

impl ExprKind {
    pub fn integer(i: i64) -> (r: ExprKind)
        ensures
            r == ExprKind::Atom(Atom::Integer(i)),
    {
        ExprKind::Atom(Atom::Integer(i))
    }

    pub fn bool(b: bool) -> (r: ExprKind)
        ensures
            r == ExprKind::Atom(Atom::Boolean(b)),
    {
        ExprKind::Atom(Atom::Boolean(b))
    }

    pub fn symbol(s: &str) -> (r: ExprKind)
        ensures
            r matches ExprKind::Atom(Atom::Symbol(t)) && t@ == s@,
    {
        ExprKind::Atom(Atom::Symbol(s.to_owned()))
    }

    pub fn char(c: char) -> (r: ExprKind)
        ensures
            r == ExprKind::Atom(Atom::Character(c)),
    {
        ExprKind::Atom(Atom::Character(c))
    }

    pub fn string(s: &str) -> (r: ExprKind)
        ensures
            r matches ExprKind::Atom(Atom::String(t)) && t@ == s@,
    {
        ExprKind::Atom(Atom::String(s.to_owned()))
    }

    pub fn list(elems: Vec<Expr>) -> (r: ExprKind)
        ensures
            r == ExprKind::List(List(elems)),
    {
        ExprKind::List(List(elems))
    }
}

impl Expr {
    pub fn integer(i: i64, position: Position) -> (r: Expr)
        ensures
            r == (Expr { kind: ExprKind::Atom(Atom::Integer(i)), position }),
    {
        Expr { kind: ExprKind::integer(i), position }
    }

    pub fn bool(b: bool, position: Position) -> (r: Expr)
        ensures
            r == (Expr { kind: ExprKind::Atom(Atom::Boolean(b)), position }),
    {
        Expr { kind: ExprKind::bool(b), position }
    }

    pub fn symbol(s: &str, position: Position) -> (r: Expr)
        ensures
            r.kind matches ExprKind::Atom(Atom::Symbol(t)) && t@ == s@,
            r.position == position,
    {
        Expr { kind: ExprKind::symbol(s), position }
    }

    pub fn char(c: char, position: Position) -> (r: Expr)
        ensures
            r == (Expr { kind: ExprKind::Atom(Atom::Character(c)), position }),
    {
        Expr { kind: ExprKind::char(c), position }
    }

    pub fn string(s: &str, position: Position) -> (r: Expr)
        ensures
            r.kind matches ExprKind::Atom(Atom::String(t)) && t@ == s@,
            r.position == position,
    {
        Expr { kind: ExprKind::string(s), position }
    }

    pub fn list(elems: Vec<Expr>, position: Position) -> (r: Expr)
        ensures
            r == (Expr { kind: ExprKind::List(List(elems)), position }),
    {
        Expr { kind: ExprKind::list(elems), position }
    }
}

/// Groups tokens into s-expressions: an atom for each literal or symbol token, a list for
/// each pair of matching parentheses. An unmatched parenthesis is an error.
pub fn parse(tokens: Vec<Token>) -> (r: Result<Vec<Expr>, SexpParsingError>)
    ensures
        tokens@.len() == 0 ==> (r matches Ok(es) && es@.len() == 0),
        r matches Ok(es) ==> es@.len() <= tokens@.len(),
        r matches Err(e) ==> exists|k: int|
            0 <= k < tokens@.len() && #[trigger] tokens@[k].position == e.position,
{
    let mut expressions: Vec<Expr> = Vec::new();
    let mut i: usize = 0;
    while i < tokens.len()
        invariant
            i <= tokens@.len(),
            expressions@.len() <= i,
        decreases tokens@.len() - i,
    {
        match parse_expr(&tokens, i) {
            Ok((expr, next)) => {
                expressions.push(expr);
                i = next;
            },
            Err(e) => {
                return Err(e);
            },
        }
    }
    Ok(expressions)
}

fn err(msg: &str, position: Position) -> (e: SexpParsingError)
    ensures
        e.msg@ == msg@,
        e.position == position,
{
    SexpParsingError { msg: msg.to_owned(), position }
}

/// Reads the s-expression that starts at `tokens[i]`; returns it and the index after it.
fn parse_expr(tokens: &Vec<Token>, i: usize) -> (r: Result<(Expr, usize), SexpParsingError>)
    requires
        i < tokens@.len(),
    ensures
        r matches Ok((e, next)) ==> i < next <= tokens@.len() && e.position
            == tokens@[i as int].position,
        r matches Ok((e, next)) ==> (tokens@[i as int].token is ParenOpen <==> e.kind is List),
        r matches Ok((e, next)) ==> (tokens@[i as int].token is ParenOpen ==> tokens@[next
            - 1].token is ParenClose),
        r matches Ok((e, next)) ==> (!(tokens@[i as int].token is ParenOpen) ==> next == i + 1),
        tokens@[i as int].token matches TokenKind::Integer(n) ==> (r matches Ok((e, _)) && e.kind
            == ExprKind::Atom(Atom::Integer(n))),
        tokens@[i as int].token is ParenClose ==> (r matches Err(e) && e.position
            == tokens@[i as int].position),
        r matches Err(e) ==> exists|k: int|
            i <= k < tokens@.len() && #[trigger] tokens@[k].position == e.position,
    decreases tokens@.len() - i, 0nat,
{
    let _ = tokens.len();
    let position = tokens[i].position;
    match &tokens[i].token {
        TokenKind::ParenOpen => match parse_list(tokens, i + 1, position) {
            Ok((elems, next)) => Ok((Expr::list(elems, position), next)),
            Err(e) => Err(e),
        },
        TokenKind::ParenClose => Err(err("Unmatched parenthesis ')'", position)),
        TokenKind::Integer(n) => Ok((Expr::integer(*n, position), i + 1)),
        TokenKind::Symbol(s) => Ok((Expr::symbol(s.as_str(), position), i + 1)),
        TokenKind::Boolean(b) => Ok((Expr::bool(*b, position), i + 1)),
        TokenKind::Character(c) => Ok((Expr::char(*c, position), i + 1)),
        TokenKind::String(s) => Ok((Expr::string(s.as_str(), position), i + 1)),
    }
}

/// Reads the elements of a list whose opening parenthesis, at `position`, came just before
/// `tokens[i]`, up to and including its closing parenthesis.
fn parse_list(tokens: &Vec<Token>, i: usize, position: Position) -> (r: Result<
    (Vec<Expr>, usize),
    SexpParsingError,
>)
    requires
        i <= tokens@.len(),
        i > 0,
        tokens@[i - 1].position == position,
    ensures
        r matches Ok((_, next)) ==> i < next <= tokens@.len() && tokens@[next - 1].token is ParenClose,
        !(exists|k: int| i <= k < tokens@.len() && #[trigger] tokens@[k].token is ParenClose) ==> r is Err,
        r matches Err(e) ==> exists|k: int|
            i - 1 <= k < tokens@.len() && #[trigger] tokens@[k].position == e.position,
    decreases tokens@.len() - i, 1nat,
{
    let mut list: Vec<Expr> = Vec::new();
    let mut j = i;
    while j < tokens.len()
        invariant
            i <= j <= tokens@.len(),
            i > 0,
            tokens@[i - 1].position == position,
        decreases tokens@.len() - j,
    {
        if let TokenKind::ParenClose = tokens[j].token {
            return Ok((list, j + 1));
        }
        match parse_expr(tokens, j) {
            Ok((expr, next)) => {
                list.push(expr);
                j = next;
            },
            Err(e) => {
                return Err(e);
            },
        }
    }
    Err(err("Unmatched parenthesis '('", position))
}

} // verus!
