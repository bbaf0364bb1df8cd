use vstd::prelude::*;

use super::lowering::{lemma_lit_index_extend, lemma_lit_index_step, lit_index};
use crate::text::push_char;

verus! {

/// The decimal digits of `n`.
pub open spec fn decimal(n: nat) -> Seq<char>
    decreases n,
{
    if n < 10 {
        seq![digit_char(n)]
    } else {
        decimal(n / 10).push(digit_char(n % 10))
    }
}

pub open spec fn digit_char(d: nat) -> char {
    if d == 0 {
        '0'
    } else if d == 1 {
        '1'
    } else if d == 2 {
        '2'
    } else if d == 3 {
        '3'
    } else if d == 4 {
        '4'
    } else if d == 5 {
        '5'
    } else if d == 6 {
        '6'
    } else if d == 7 {
        '7'
    } else if d == 8 {
        '8'
    } else {
        '9'
    }
}

fn digit(d: u64) -> (c: char)
    requires
        d < 10,
    ensures
        c == digit_char(d as nat),
{
    if d == 0 {
        '0'
    } else if d == 1 {
        '1'
    } else if d == 2 {
        '2'
    } else if d == 3 {
        '3'
    } else if d == 4 {
        '4'
    } else if d == 5 {
        '5'
    } else if d == 6 {
        '6'
    } else if d == 7 {
        '7'
    } else if d == 8 {
        '8'
    } else {
        '9'
    }
}

/// Appends the decimal digits of `n` to `s`.
pub fn push_decimal(s: &mut String, n: u64)
    ensures
        final(s)@ == old(s)@ + decimal(n as nat),
    decreases n,
{
    if n >= 10 {
        push_decimal(s, n / 10);
    }
    push_char(s, digit(n % 10));
    proof {
        assert(final(s)@ =~= old(s)@ + decimal(n as nat));
    }
}

/// `prefix` followed by the decimal digits of `n`.
pub fn numbered(prefix: &str, n: u64) -> (r: String)
    ensures
        r@ == prefix@ + decimal(n as nat),
{
    let mut s = String::from_str(prefix);
    push_decimal(&mut s, n);
    s
}

/// The label number that follows `n`.
pub open spec fn next_id(n: nat) -> nat {
    if n < u64::MAX {
        n + 1
    } else {
        n
    }
}

/// What a step of code generation may do to the compiler: draw label numbers, and keep
/// the string table as it is.
pub open spec fn evolves(before: Compiler, after: Compiler) -> bool {
    after.wf() && after.literals() == before.literals() && after.label_count()
        >= before.label_count()
}

/// The largest stack or heap extent, in words, that generated code addresses.
pub const MAX_SLOTS: usize = 0x1000_0000;

/// The byte offset of the word `k` words away, or an error where `k` exceeds [`MAX_SLOTS`].
pub fn slot_offset(k: usize) -> (r: Result<i64, crate::mylang::error::CompileError>)
    ensures
        r matches Ok(v) ==> v == 8 * k && k <= MAX_SLOTS,
        r is Err <==> k > MAX_SLOTS,
{
    if k > MAX_SLOTS {
        Err(crate::mylang::error::CompileError { msg: String::from_str("Program too large.") })
    } else {
        Ok(8 * k as i64)
    }
}

/// The name of a static data record.
#[derive(Debug, PartialEq, Eq)]
pub struct Label(pub String);

/// The label of the data record of the `i`-th distinct string literal.
pub open spec fn string_label(i: nat) -> Seq<char> {
    "string_data_"@ + decimal(i)
}

/// State shared by the whole compilation: the label counter and the string literal table.
pub struct Compiler {
    last_label_id: u64,
    string_literals: Vec<(String, Label)>,
}

impl Compiler {
    /// The last label number handed out.
    pub closed spec fn label_count(&self) -> nat {
        self.last_label_id as nat
    }

    /// The interned literals, in order; the `i`-th has the label `string_label(i)`.
    pub closed spec fn literals(&self) -> Seq<Seq<char>> {
        Seq::new(self.string_literals@.len(), |i: int| self.string_literals@[i].0@)
    }

    pub closed spec fn wf(&self) -> bool {
        forall|i: int|
            0 <= i < self.string_literals@.len() ==> #[trigger] self.string_literals@[i].1.0@
                == string_label(i as nat)
    }

    /// A compiler whose table holds `string_literals`, each with its own label; label
    /// numbers start after them.
    pub fn new(string_literals: Vec<String>) -> (c: Compiler)
        ensures
            c.wf(),
            c.literals() == string_literals@.map_values(|s: String| s@),
            c.label_count() == string_literals@.len(),
    {
        let mut table: Vec<(String, Label)> = Vec::new();
        let mut i: usize = 0;
        while i < string_literals.len()
            invariant
                i <= string_literals@.len(),
                table@.len() == i,
                forall|k: int|
                    0 <= k < i ==> (#[trigger] table@[k]).0@ == string_literals@[k]@
                        && table@[k].1.0@ == string_label(k as nat),
            decreases string_literals@.len() - i,
        {
            let label = numbered("string_data_", i as u64);
            table.push((string_literals[i].clone(), Label(label)));
            i = i + 1;
        }
        let c = Compiler { last_label_id: string_literals.len() as u64, string_literals: table };
        assert(c.literals() =~= string_literals@.map_values(|s: String| s@));
        c
    }

    /// A fresh label number, as decimal text. The counter stops at `u64::MAX`, a count of
    /// labels that no program reaches.
    pub fn new_label_id(&mut self) -> (r: String)
        ensures
            final(self).label_count() == next_id(old(self).label_count()),
            r@ == decimal(final(self).label_count()),
            final(self).literals() == old(self).literals(),
            old(self).wf() ==> final(self).wf(),
    {
        if self.last_label_id < u64::MAX {
            self.last_label_id = self.last_label_id + 1;
        }
        let mut s = String::new();
        push_decimal(&mut s, self.last_label_id);
        s
    }

    /// The label of the data record of a string literal, if it is in the table.
    pub fn string_literal_label(&self, string: &str) -> (r: Option<Label>)
        requires
            self.wf(),
        ensures
            r matches Some(l) ==> exists|i: int|
                0 <= i < self.literals().len() && self.literals()[i] == string@ && l.0@
                    == string_label(i as nat),
            r is None ==> forall|i: int| 0 <= i < self.literals().len() ==> self.literals()[i] != string@,
            r matches Some(l) ==> (lit_index(self.literals(), string@) matches Some(i) && l.0@
                == string_label(i)),
            r is None ==> lit_index(self.literals(), string@) is None,
    {
        let target = String::from_str(string);
        let mut i: usize = 0;
        while i < self.string_literals.len()
            invariant
                i <= self.string_literals@.len(),
                target@ == string@,
                self.wf(),
                forall|k: int| 0 <= k < i ==> self.literals()[k] != string@,
                lit_index(self.literals().subrange(0, i as int), string@) is None,
            decreases self.string_literals@.len() - i,
        {
            proof {
                lemma_lit_index_step(self.literals(), i as int, string@);
            }
            if self.string_literals[i].0 == target {
                let l = Label(self.string_literals[i].1.0.clone());
                assert(self.literals()[i as int] == string@);
                assert(self.string_literals@[i as int].1.0@ == string_label(i as nat));
                proof {
                    lemma_lit_index_extend(self.literals(), i + 1, string@);
                }
                return Some(l);
            }
            i = i + 1;
        }
        assert(self.literals().subrange(0, i as int) =~= self.literals());
        None
    }

    /// The table of string literals and their labels.
    pub fn string_literals(&self) -> (r: &Vec<(String, Label)>)
        ensures
            r@.len() == self.literals().len(),
            forall|i: int| 0 <= i < r@.len() ==> (#[trigger] r@[i]).0@ == self.literals()[i],
            self.wf() ==> forall|i: int| 0 <= i < r@.len() ==> (#[trigger] r@[i]).1.0@ == string_label(i as nat),
    {
        &self.string_literals
    }
}

} // verus!
