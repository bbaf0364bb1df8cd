use vstd::prelude::*;

use super::document::Position;
use super::error::InvalidTokenError;
use crate::text::{chars_of, string_of};

verus! {

/// The kinds of tokens of the source language.
#[derive(Debug, PartialEq, Eq)]
pub enum TokenKind {
    ParenOpen,
    ParenClose,
    Integer(i64),
    Symbol(String),
    Boolean(bool),
    Character(char),
    String(String),
}

/// A token and the byte offset where it starts.
#[derive(Debug)]
pub struct Token {
    pub token: TokenKind,
    pub position: Position,
}

/// Unicode's `White_Space` characters.
pub open spec fn spec_is_whitespace(c: char) -> bool {
    let u = c as u32;
    (0x09 <= u <= 0x0d) || u == 0x20 || u == 0x85 || u == 0xa0 || u == 0x1680 || (0x2000 <= u
        <= 0x200a) || u == 0x2028 || u == 0x2029 || u == 0x202f || u == 0x205f || u == 0x3000
}

/// Characters that end a word: white space and parentheses.
pub open spec fn spec_is_delimiter(c: char) -> bool {
    spec_is_whitespace(c) || c == '(' || c == ')'
}

/// Number of bytes of `c` in UTF-8.
pub open spec fn spec_utf8_len(c: char) -> nat {
    let u = c as u32;
    if u < 0x80 {
        1
    } else if u < 0x800 {
        2
    } else if u < 0x10000 {
        3
    } else {
        4
    }
}

/// Number of bytes of `s` in UTF-8.
pub open spec fn utf8_len(s: Seq<char>) -> nat
    decreases s.len(),
{
    if s.len() == 0 {
        0
    } else {
        utf8_len(s.drop_last()) + spec_utf8_len(s.last())
    }
}

pub open spec fn is_digit(c: char) -> bool {
    '0' <= c <= '9'
}

/// The value of a sequence of decimal digits.
pub open spec fn digits_value(s: Seq<char>) -> int
    decreases s.len(),
{
    if s.len() == 0 {
        0
    } else {
        digits_value(s.drop_last()) * 10 + (s.last() as int - '0' as int)
    }
}

/// `s` is written `-?[0-9]+`.
pub open spec fn is_integer_text(s: Seq<char>) -> bool {
    unsigned_part(s).len() > 0 && all_digits(unsigned_part(s))
}

/// `s` without a leading minus sign.
pub open spec fn unsigned_part(s: Seq<char>) -> Seq<char> {
    if s.len() > 0 && s[0] == '-' {
        s.drop_first()
    } else {
        s
    }
}

pub open spec fn all_digits(s: Seq<char>) -> bool {
    forall|k: int| 0 <= k < s.len() ==> is_digit(#[trigger] s[k])
}

/// The value that integer text denotes.
pub open spec fn integer_value(s: Seq<char>) -> int {
    if s.len() > 0 && s[0] == '-' {
        -digits_value(s.drop_first())
    } else {
        digits_value(s)
    }
}

/// `text` is the source text of a token of kind `kind`.
pub open spec fn kind_fits(text: Seq<char>, kind: TokenKind) -> bool {
    match kind {
        TokenKind::ParenOpen => text == seq!['('],
        TokenKind::ParenClose => text == seq![')'],
        TokenKind::Integer(v) => is_integer_text(text) && v == integer_value(text),
        TokenKind::Boolean(b) => text == seq!['#', if b { 't' } else { 'f' }],
        TokenKind::Character(c) => text == seq!['#', '\\', c],
        TokenKind::String(_) => text.len() >= 2 && text[0] == '"' && text.last() == '"',
        TokenKind::Symbol(s) => s@ == text && text.len() > 0 && !is_integer_text(text) && forall|k: int|
            0 <= k < text.len() ==> !spec_is_delimiter(#[trigger] text[k]),
    }
}

/// The token `t` stands in `src` at its offset.
pub open spec fn token_fits(src: Seq<char>, t: Token) -> bool {
    exists|i: int, j: int|
        0 <= i < j <= src.len() && #[trigger] utf8_len(src.subrange(0, i)) == t.position.offset
            && #[trigger] kind_fits(src.subrange(i, j), t.token)
}

fn is_whitespace(c: char) -> (r: bool)
    ensures
        r == spec_is_whitespace(c),
{
    let u = c as u32;
    (0x09 <= u && u <= 0x0d) || u == 0x20 || u == 0x85 || u == 0xa0 || u == 0x1680 || (0x2000 <= u
        && u <= 0x200a) || u == 0x2028 || u == 0x2029 || u == 0x202f || u == 0x205f || u == 0x3000
}

fn is_delimiter(c: char) -> (r: bool)
    ensures
        r == spec_is_delimiter(c),
{
    is_whitespace(c) || c == '(' || c == ')'
}

pub(crate) fn char_utf8_len(c: char) -> (r: usize)
    ensures
        r == spec_utf8_len(c),
{
    let u = c as u32;
    if u < 0x80 {
        1
    } else if u < 0x800 {
        2
    } else if u < 0x10000 {
        3
    } else {
        4
    }
}

proof fn lemma_utf8_len_bound(s: Seq<char>)
    ensures
        utf8_len(s) <= 4 * s.len(),
    decreases s.len(),
{
    if s.len() > 0 {
        lemma_utf8_len_bound(s.drop_last());
    }
}

proof fn lemma_digits_value_nonneg(s: Seq<char>)
    requires
        forall|k: int| 0 <= k < s.len() ==> is_digit(#[trigger] s[k]),
    ensures
        digits_value(s) >= 0,
    decreases s.len(),
{
    if s.len() > 0 {
        lemma_digits_value_nonneg(s.drop_last());
    }
}

/// Reads `cs[from..to]` as an integer `-?[0-9]+`; `None` where the text is no integer
/// or its value does not fit 64 bits.
fn parse_integer(cs: &Vec<char>, from: usize, to: usize) -> (r: Option<i64>)
    requires
        from <= to <= cs@.len(),
    ensures
        r matches Some(v) ==> is_integer_text(cs@.subrange(from as int, to as int)) && v
            == integer_value(cs@.subrange(from as int, to as int)),
        r is None ==> !is_integer_text(cs@.subrange(from as int, to as int)) || !(i64::MIN
            <= integer_value(cs@.subrange(from as int, to as int)) <= i64::MAX),
{
    let ghost text = cs@.subrange(from as int, to as int);
    let negative = from < to && cs[from] == '-';
    let start = if negative { from + 1 } else { from };
    let ghost digits = cs@.subrange(start as int, to as int);
    assert(digits =~= unsigned_part(text));
    if start >= to {
        assert(digits.len() == 0);
        assert(!is_integer_text(text));
        return None;
    }
    // Accumulate the value negated, so that `i64::MIN` can be read too.
    let mut acc: i64 = 0;
    let mut overflow = false;
    let mut i = start;
    while i < to
        invariant
            start <= i <= to <= cs@.len(),
            digits == cs@.subrange(start as int, to as int),
            text == cs@.subrange(from as int, to as int),
            digits == unsigned_part(text),
            forall|k: int| 0 <= k < i - start ==> is_digit(#[trigger] digits[k]),
            !overflow ==> acc == -digits_value(cs@.subrange(start as int, i as int)),
            overflow ==> digits_value(cs@.subrange(start as int, i as int)) > 0x8000_0000_0000_0000,
        decreases to - i,
    {
        let c = cs[i];
        assert(cs@.subrange(start as int, i + 1).drop_last() =~= cs@.subrange(start as int, i as int));
        if !('0' <= c && c <= '9') {
            assert(digits[i - start] == c);
            assert(!is_digit(digits[i - start]));
            assert(!all_digits(digits));
            return None;
        }
        let d = (c as u32 - '0' as u32) as i64;
        proof {
            lemma_digits_value_nonneg(cs@.subrange(start as int, i as int));
        }
        if !overflow {
            let next: i128 = acc as i128 * 10 - d as i128;
            if next < i64::MIN as i128 {
                overflow = true;
            } else {
                acc = next as i64;
            }
        }
        i = i + 1;
    }
    assert(cs@.subrange(start as int, to as int) =~= digits);
    if overflow {
        None
    } else if negative {
        Some(acc)
    } else if acc == i64::MIN {
        None
    } else {
        Some(-acc)
    }
}

/// The byte offset of `cs[to]`, given the byte offset `off` of `cs[from]`.
fn advance(cs: &Vec<char>, from: usize, to: usize, off: usize) -> (r: usize)
    requires
        from <= to <= cs@.len() <= usize::MAX / 4,
        off == utf8_len(cs@.subrange(0, from as int)),
    ensures
        r == utf8_len(cs@.subrange(0, to as int)),
{
    let mut i = from;
    let mut r = off;
    while i < to
        invariant
            from <= i <= to <= cs@.len() <= usize::MAX / 4,
            r == utf8_len(cs@.subrange(0, i as int)),
        decreases to - i,
    {
        proof {
            assert(cs@.subrange(0, i + 1).drop_last() =~= cs@.subrange(0, i as int));
            lemma_utf8_len_bound(cs@.subrange(0, i + 1));
        }
        r = r + char_utf8_len(cs[i]);
        i = i + 1;
    }
    r
}

/// Splits the source text into tokens, each with the byte offset where it starts.
///
/// White space separates tokens. A token is a parenthesis, an integer `-?[0-9]+`, a
/// boolean `#t` or `#f`, a character `#\c`, a string `"..."` (where `\"` stands for a
/// quote), or else a symbol: a run of characters other than white space and parentheses.
/// An unterminated string or an integer that does not fit 64 bits is an invalid token.
pub fn tokenize(src: &str) -> (r: Result<Vec<Token>, InvalidTokenError>)
    requires
        src@.len() <= usize::MAX / 4,
    ensures
        r matches Ok(tokens) ==> forall|k: int|
            0 <= k < tokens@.len() ==> #[trigger] tokens@[k].position.offset < utf8_len(src@),
        r matches Ok(tokens) ==> forall|k: int|
            0 <= k < tokens@.len() ==> token_fits(src@, #[trigger] tokens@[k]),
        r matches Err(e) ==> e.position.offset < utf8_len(src@),
{
    let cs = chars_of(src);
    let n = cs.len();
    let mut tokens: Vec<Token> = Vec::new();
    let mut i: usize = 0;
    let mut off: usize = 0;
    proof {
        assert(cs@.subrange(0, 0).len() == 0);
    }
    while i < n
        invariant
            n == cs@.len() == src@.len() <= usize::MAX / 4,
            cs@ == src@,
            i <= n,
            off == utf8_len(cs@.subrange(0, i as int)),
            forall|k: int|
                0 <= k < tokens@.len() ==> #[trigger] tokens@[k].position.offset < utf8_len(src@),
            forall|k: int| 0 <= k < tokens@.len() ==> token_fits(src@, #[trigger] tokens@[k]),
        decreases n - i,
    {
        proof {
            lemma_utf8_len_prefix_lt(cs@, i as int);
        }
        assert(off < utf8_len(src@));
        let start = Position::new(off);
        let next: usize;
        match read_token(&cs, i) {
            Ok((Some(kind), j)) => {
                let ghost t = Token { token: kind, position: start };
                assert(token_fits(src@, t)) by {
                    assert(utf8_len(src@.subrange(0, i as int)) == t.position.offset);
                    assert(kind_fits(src@.subrange(i as int, j as int), t.token));
                }
                tokens.push(Token { token: kind, position: start });
                next = j;
            },
            Ok((None, j)) => {
                next = j;
            },
            Err(()) => {
                return Err(InvalidTokenError { position: start });
            },
        }
        off = advance(&cs, i, next, off);
        i = next;
    }
    Ok(tokens)
}

/// Reads the token that starts at `cs[i]`: its kind (`None` for white space) and the
/// index after it; `Err` where the text there is no token.
fn read_token(cs: &Vec<char>, i: usize) -> (r: Result<(Option<TokenKind>, usize), ()>)
    requires
        i < cs@.len() <= usize::MAX / 4,
    ensures
        r matches Ok((_, j)) ==> i < j <= cs@.len(),
        r matches Ok((None, j)) ==> j == i + 1 && spec_is_whitespace(cs@[i as int]),
        r matches Ok((Some(k), j)) ==> kind_fits(cs@.subrange(i as int, j as int), k),
        spec_is_whitespace(cs@[i as int]) ==> r matches Ok((None, _)),
{
    let n = cs.len();
    let c = cs[i];
    assert(cs@.subrange(i as int, i + 1) =~= seq![c]);
    if is_whitespace(c) {
        Ok((None, i + 1))
    } else if c == '(' {
        Ok((Some(TokenKind::ParenOpen), i + 1))
    } else if c == ')' {
        Ok((Some(TokenKind::ParenClose), i + 1))
    } else if c == '"' {
        match scan_string(cs, i) {
            Some((content, j)) => Ok((Some(TokenKind::String(content)), j)),
            None => Err(()),
        }
    } else if c == '#' && i + 2 < n && cs[i + 1] == '\\' && (i + 3 == n || is_delimiter(
        cs[i + 3],
    )) {
        assert(cs@.subrange(i as int, i + 3) =~= seq!['#', '\\', cs@[i + 2]]);
        Ok((Some(TokenKind::Character(cs[i + 2])), i + 3))
    } else {
        // `c` is no delimiter, so the word is not empty.
        let j = scan_word(cs, i);
        assert(cs@.subrange(i as int, j as int).len() > 0);
        assert(forall|k: int| 0 <= k < j - i ==> #[trigger] cs@.subrange(i as int, j as int)[k] == cs@[i + k]);
        if j == i + 2 && cs[i] == '#' && cs[i + 1] == 't' {
            assert(cs@.subrange(i as int, j as int) =~= seq!['#', 't']);
            Ok((Some(TokenKind::Boolean(true)), j))
        } else if j == i + 2 && cs[i] == '#' && cs[i + 1] == 'f' {
            assert(cs@.subrange(i as int, j as int) =~= seq!['#', 'f']);
            Ok((Some(TokenKind::Boolean(false)), j))
        } else if is_integer_word(cs, i, j) {
            match parse_integer(cs, i, j) {
                Some(v) => Ok((Some(TokenKind::Integer(v)), j)),
                None => Err(()),
            }
        } else {
            Ok((Some(TokenKind::Symbol(string_of(cs, i, j))), j))
        }
    }
}

/// Whether `cs[from..to]` is written `-?[0-9]+`.
fn is_integer_word(cs: &Vec<char>, from: usize, to: usize) -> (r: bool)
    requires
        from <= to <= cs@.len(),
    ensures
        r == is_integer_text(cs@.subrange(from as int, to as int)),
{
    let ghost text = cs@.subrange(from as int, to as int);
    let start = if from < to && cs[from] == '-' { from + 1 } else { from };
    assert(cs@.subrange(start as int, to as int) =~= unsigned_part(text));
    if start >= to {
        return false;
    }
    let mut i = start;
    while i < to
        invariant
            start <= i <= to <= cs@.len(),
            text == cs@.subrange(from as int, to as int),
            cs@.subrange(start as int, to as int) == unsigned_part(text),
            forall|k: int| start <= k < i ==> is_digit(#[trigger] cs@[k]),
        decreases to - i,
    {
        if !('0' <= cs[i] && cs[i] <= '9') {
            assert(unsigned_part(text)[i - start] == cs@[i as int]);
            assert(!is_digit(unsigned_part(text)[i - start]));
            return false;
        }
        i = i + 1;
    }
    assert forall|k: int| 0 <= k < unsigned_part(text).len() implies is_digit(
        #[trigger] unsigned_part(text)[k],
    ) by {
        assert(unsigned_part(text)[k] == cs@[start + k]);
    }
    true
}

proof fn lemma_utf8_len_prefix_lt(s: Seq<char>, i: int)
    requires
        0 <= i < s.len(),
    ensures
        utf8_len(s.subrange(0, i)) < utf8_len(s),
    decreases s.len(),
{
    if i == s.len() - 1 {
        assert(s.drop_last() =~= s.subrange(0, i));
    } else {
        lemma_utf8_len_prefix_lt(s.drop_last(), i);
        assert(s.drop_last().subrange(0, i) =~= s.subrange(0, i));
    }
}

/// The end of the run of characters other than delimiters that starts at `from`.
fn scan_word(cs: &Vec<char>, from: usize) -> (r: usize)
    requires
        from <= cs@.len(),
    ensures
        from <= r <= cs@.len(),
        forall|k: int| from <= k < r ==> !spec_is_delimiter(#[trigger] cs@[k]),
        r < cs@.len() ==> spec_is_delimiter(cs@[r as int]),
{
    let mut j = from;
    while j < cs.len() && !is_delimiter(cs[j])
        invariant
            from <= j <= cs@.len(),
            forall|k: int| from <= k < j ==> !spec_is_delimiter(#[trigger] cs@[k]),
        decreases cs@.len() - j,
    {
        j = j + 1;
    }
    j
}

/// Reads the string literal whose opening quote is `cs[from]`: its content, where `\"`
/// stands for a quote, and the index after its closing quote. `None` where it is not closed.
fn scan_string(cs: &Vec<char>, from: usize) -> (r: Option<(String, usize)>)
    requires
        from < cs@.len(),
    ensures
        r matches Some((_, j)) ==> from + 1 < j <= cs@.len() && cs@[j - 1] == '"',
{
    let n = cs.len();
    let mut content = String::new();
    let mut j = from + 1;
    while j < n
        invariant
            from < j <= n == cs@.len(),
        decreases n - j,
    {
        if cs[j] == '\\' && j + 1 < n && cs[j + 1] == '"' {
            crate::text::push_char(&mut content, '"');
            j = j + 2;
        } else if cs[j] == '"' {
            return Some((content, j + 1));
        } else {
            crate::text::push_char(&mut content, cs[j]);
            j = j + 1;
        }
    }
    None
}

} // verus!
