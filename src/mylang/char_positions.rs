use vstd::prelude::*;

use super::document::Position;
use super::lexer::{char_utf8_len, spec_utf8_len, utf8_len};
use crate::text::chars_of;

verus! {

/// The characters of a source text, each with the byte offset where it starts.
pub struct CharPositions {
    chars: Vec<char>,
    index: usize,
    pos: Position,
}

impl CharPositions {
    /// The characters not handed out yet.
    pub closed spec fn remaining(&self) -> Seq<char> {
        self.chars@.subrange(self.index as int, self.chars@.len() as int)
    }

    /// The byte offset of the next character.
    pub closed spec fn offset(&self) -> nat {
        self.pos.offset as nat
    }

    pub closed spec fn wf(&self) -> bool {
        &&& self.index <= self.chars@.len() <= usize::MAX / 4
        &&& self.pos.offset == utf8_len(self.chars@.subrange(0, self.index as int))
    }

    /// Starts at the first character of `src`, at offset 0.
    pub fn from_str(src: &str) -> (r: CharPositions)
        requires
            src@.len() <= usize::MAX / 4,
        ensures
            r.wf(),
            r.remaining() == src@,
            r.offset() == 0,
    {
        let chars = chars_of(src);
        let r = CharPositions { chars, index: 0, pos: Position::zero() };
        assert(r.chars@.subrange(0, 0).len() == 0);
        assert(r.remaining() =~= src@);
        r
    }

    /// The next character and its offset; `None` at the end of the text.
    pub fn next(&mut self) -> (r: Option<(Position, char)>)
        requires
            old(self).wf(),
        ensures
            final(self).wf(),
            old(self).remaining().len() == 0 ==> r is None && final(self).remaining().len() == 0,
            old(self).remaining().len() > 0 ==> (r matches Some((p, c)) && p.offset
                == old(self).offset() && c == old(self).remaining()[0] && final(self).remaining()
                == old(self).remaining().drop_first() && final(self).offset() == old(self).offset()
                + spec_utf8_len(c)),
    {
        if self.index >= self.chars.len() {
            return None;
        }
        let c = self.chars[self.index];
        let position = self.pos;
        proof {
            assert(self.chars@.subrange(0, self.index + 1).drop_last() =~= self.chars@.subrange(
                0,
                self.index as int,
            ));
            lemma_utf8_len_bound_prefix(self.chars@, self.index as int + 1);
        }
        let width = char_utf8_len(c);
        self.pos = Position::new(self.pos.offset + width);
        self.index = self.index + 1;
        assert(self.remaining() =~= old(self).remaining().drop_first());
        Some((position, c))
    }
}

proof fn lemma_utf8_len_bound_prefix(s: Seq<char>, n: int)
    requires
        0 <= n <= s.len(),
    ensures
        utf8_len(s.subrange(0, n)) <= 4 * n,
    decreases n,
{
    if n > 0 {
        lemma_utf8_len_bound_prefix(s, n - 1);
        assert(s.subrange(0, n).drop_last() =~= s.subrange(0, n - 1));
    }
}

} // verus!
