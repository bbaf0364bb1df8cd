use vstd::prelude::*;

use super::expr::compile_expr;
use super::state::{evolves, slot_offset, Compiler, MAX_SLOTS};
use crate::a86::ast::{append_statements, imm, instrs, mem, reg, Instr, Register, Statement};
use crate::mylang::ast::{free_vars, lambda_count, size, Expr, Identifier, Let};
use super::lowering::{lower, lowers_to};
use crate::mylang::error::CompileError;

verus! {

/// What the stack slots below the stack pointer hold: a named variable, or a value that
/// no name reaches. The last entry is the slot nearest the stack pointer.
#[derive(Debug)]
pub struct VariablesTable {
    variables: Vec<Option<Identifier>>,
}

/// The name of a slot, if it has one.
pub open spec fn slot_name(slot: Option<Identifier>) -> Option<Seq<char>> {
    match slot {
        Some(id) => Some(id.0@),
        None => None,
    }
}

/// The lexical address of `name` in `slots`: the distance in words from the top of the
/// stack to the nearest slot with that name.
pub open spec fn lexical_address(slots: Seq<Option<Seq<char>>>, name: Seq<char>) -> Option<nat>
    decreases slots.len(),
{
    if slots.len() == 0 {
        None
    } else if slots.last() == Some(name) {
        Some(0)
    } else {
        match lexical_address(slots.drop_last(), name) {
            Some(k) => Some(k + 1),
            None => None,
        }
    }
}

/// The names that some slot holds.
pub open spec fn bound_names(slots: Seq<Option<Seq<char>>>) -> Set<Seq<char>> {
    Set::new(|n: Seq<char>| slots.contains(Some(n)))
}

/// A name with a lexical address is one that some slot holds.
pub proof fn lemma_address_bound(slots: Seq<Option<Seq<char>>>, name: Seq<char>)
    ensures
        lexical_address(slots, name) is Some <==> bound_names(slots).contains(name),
    decreases slots.len(),
{
    if slots.len() > 0 {
        lemma_address_bound(slots.drop_last(), name);
        if slots.last() != Some(name) {
            if slots.contains(Some(name)) {
                let k = choose|k: int| 0 <= k < slots.len() && slots[k] == Some(name);
                assert(slots.drop_last()[k] == Some(name));
            }
            if slots.drop_last().contains(Some(name)) {
                let k = choose|k: int| 0 <= k < slots.len() - 1 && slots.drop_last()[k] == Some(name);
                assert(slots[k] == Some(name));
            }
        } else {
            assert(slots[slots.len() - 1] == Some(name));
        }
    }
}

/// Bound names of a concatenation.
pub proof fn lemma_bound_names_concat(a: Seq<Option<Seq<char>>>, b: Seq<Option<Seq<char>>>)
    ensures
        bound_names(a + b) == bound_names(a).union(bound_names(b)),
{
    assert forall|n: Seq<char>| bound_names(a + b).contains(n) implies bound_names(a).union(bound_names(b)).contains(n) by {
        let k = choose|k: int| 0 <= k < (a + b).len() && (a + b)[k] == Some(n);
        if k < a.len() {
            assert(a[k] == Some(n));
        } else {
            assert(b[k - a.len()] == Some(n));
        }
    }
    assert forall|n: Seq<char>| bound_names(a).union(bound_names(b)).contains(n) implies bound_names(a + b).contains(n) by {
        if a.contains(Some(n)) {
            let k = choose|k: int| 0 <= k < a.len() && a[k] == Some(n);
            assert((a + b)[k] == Some(n));
        } else {
            let k = choose|k: int| 0 <= k < b.len() && b[k] == Some(n);
            assert((a + b)[k + a.len()] == Some(n));
        }
    }
    assert(bound_names(a + b) =~= bound_names(a).union(bound_names(b)));
}

/// An unnamed slot binds nothing; a named one binds its name.
pub proof fn lemma_bound_names_push(s: Seq<Option<Seq<char>>>, slot: Option<Seq<char>>)
    ensures
        bound_names(s.push(slot)) == match slot {
            Some(n) => bound_names(s).insert(n),
            None => bound_names(s),
        },
{
    lemma_bound_names_concat(s, seq![slot]);
    assert(s.push(slot) =~= s + seq![slot]);
    assert(bound_names(seq![slot]) =~= match slot {
        Some(n) => set![n],
        None => Set::<Seq<char>>::empty(),
    }) by {
        assert forall|n: Seq<char>| bound_names(seq![slot]).contains(n) implies (slot == Some(n)) by {
            let k = choose|k: int| 0 <= k < 1 && seq![slot][k] == Some(n);
        }
        if let Some(m) = slot {
            assert(seq![slot][0] == Some(m));
        }
    }
    assert(bound_names(s.push(slot)) =~= match slot {
        Some(n) => bound_names(s).insert(n),
        None => bound_names(s),
    });
}

impl VariablesTable {
    /// The names of the slots, from the bottom of the stack to the top.
    pub closed spec fn slots(&self) -> Seq<Option<Seq<char>>> {
        Seq::new(self.variables@.len(), |i: int| slot_name(self.variables@[i]))
    }

    /// An empty table.
    pub fn new() -> (t: Self)
        ensures
            t.slots() == Seq::<Option<Seq<char>>>::empty(),
    {
        let t = Self { variables: Vec::new() };
        assert(t.slots() =~= Seq::<Option<Seq<char>>>::empty());
        t
    }

    /// This table with the slots of `new_variables` pushed, in order.
    pub fn extended(&self, new_variables: &Vec<Identifier>) -> (t: Self)
        ensures
            t.slots() == self.slots() + Seq::new(
                new_variables@.len(),
                |i: int| Some(new_variables@[i].0@),
            ),
    {
        let mut t = self.new_with_vars();
        let mut i: usize = 0;
        while i < new_variables.len()
            invariant
                i <= new_variables@.len(),
                t.slots() == self.slots() + Seq::new(i as nat, |k: int| Some(new_variables@[k].0@)),
            decreases new_variables@.len() - i,
        {
            t = t.with_var(&new_variables[i]);
            assert(self.slots() + Seq::new((i + 1) as nat, |k: int| Some(new_variables@[k].0@))
                =~= self.slots() + Seq::new(i as nat, |k: int| Some(new_variables@[k].0@)).push(
                Some(new_variables@[i as int].0@),
            ));
            i = i + 1;
        }
        t
    }

    /// This table with a slot named `variable` pushed.
    pub fn with_var(&self, variable: &Identifier) -> (t: Self)
        ensures
            t.slots() == self.slots().push(Some(variable.0@)),
    {
        let mut t = self.new_with_vars();
        t.variables.push(Some(variable.copy()));
        assert(t.slots() =~= self.slots().push(Some(variable.0@)));
        t
    }

    /// This table with an unnamed slot pushed.
    pub fn with_non_var(&self) -> (t: Self)
        ensures
            t.slots() == self.slots().push(None),
    {
        let mut t = self.new_with_vars();
        t.variables.push(None);
        assert(t.slots() =~= self.slots().push(None));
        t
    }

    /// The lexical address of `variable`: how many words above the stack pointer its
    /// nearest slot lies. `None` where no slot has that name.
    pub fn position(&self, variable: &Identifier) -> (r: Option<usize>)
        ensures
            r matches Some(k) ==> lexical_address(self.slots(), variable.0@) == Some(k as nat),
            r is None ==> lexical_address(self.slots(), variable.0@) is None,
            r matches Some(k) ==> k < self.slots().len(),
    {
        let n = self.variables.len();
        let mut i: usize = n;
        assert(self.slots().subrange(0, n as int) =~= self.slots());
        while i > 0
            invariant
                i <= n == self.variables@.len(),
                lexical_address(self.slots(), variable.0@) == match lexical_address(
                    self.slots().subrange(0, i as int),
                    variable.0@,
                ) {
                    Some(k) => Some(k + (n - i) as nat),
                    None => None,
                },
            decreases i,
        {
            assert(self.slots().subrange(0, i as int).drop_last() =~= self.slots().subrange(
                0,
                i - 1,
            ));
            let found = match &self.variables[i - 1] {
                Some(v) => *v == *variable,
                None => false,
            };
            if found {
                return Some(n - i);
            }
            i = i - 1;
        }
        None
    }

    /// The number of slots.
    pub fn len(&self) -> (r: usize)
        ensures
            r == self.slots().len(),
    {
        self.variables.len()
    }

    /// A copy of this table.
    pub fn duplicate(&self) -> (t: Self)
        ensures
            t.slots() == self.slots(),
    {
        self.new_with_vars()
    }

    /// A copy of this table.
    fn new_with_vars(&self) -> (t: Self)
        ensures
            t.slots() == self.slots(),
    {
        let mut variables: Vec<Option<Identifier>> = Vec::new();
        let mut i: usize = 0;
        while i < self.variables.len()
            invariant
                i <= self.variables@.len(),
                variables@.len() == i,
                forall|k: int|
                    0 <= k < i ==> slot_name(#[trigger] variables@[k]) == slot_name(
                        self.variables@[k],
                    ),
            decreases self.variables@.len() - i,
        {
            let slot = match &self.variables[i] {
                Some(v) => Some(v.copy()),
                None => None,
            };
            variables.push(slot);
            i = i + 1;
        }
        let t = Self { variables };
        assert(t.slots() =~= self.slots());
        t
    }
}

/// Evaluates the right-hand side, pushes it as a slot named after the binding, evaluates
/// the body (which keeps the tail position) and pops the slot.
pub fn compile_let(
    expr: &Let,
    compiler: &mut Compiler,
    env: &VariablesTable,
    is_tail_expr: bool,
) -> (r: Result<Vec<Statement>, CompileError>)
    requires
        old(compiler).wf(),
    ensures
        evolves(*old(compiler), *final(compiler)),
        r matches Ok(s) ==> instrs(s@).len() >= 2 && instrs(s@).last() == (Instr::Add {
            dest: reg(Register::RSP),
            src: imm(8),
        }),
        r is Ok ==> free_vars(*expr.binding.rhs).union(
            free_vars(*expr.body).difference(set![expr.binding.lhs.0@]),
        ).subset_of(bound_names(env.slots())),
        lowers_to(
            lower(Expr::Let(*expr), env.slots(), is_tail_expr, old(compiler).label_count(), old(compiler).literals()),
            r,
            final(compiler).label_count(),
        ),
    decreases size(*expr.binding.rhs) + size(*expr.body), 1nat,
{
    let mut r = match compile_expr(&expr.binding.rhs, compiler, env, false) {
        Ok(s) => s,
        Err(e) => {
            return Err(e);
        },
    };
    let ghost cr = instrs(r@);
    append_statements(&mut r, vec![Statement::Push { src: reg(Register::RAX) }]);
    let new_env = env.with_var(&expr.binding.lhs);
    proof {
        lemma_bound_names_push(env.slots(), Some(expr.binding.lhs.0@));
    }
    let ghost cb;
    match compile_expr(&expr.body, compiler, &new_env, is_tail_expr) {
        Ok(s) => {
            proof {
                cb = instrs(s@);
            }
            append_statements(&mut r, s)
        },
        Err(e) => {
            return Err(e);
        },
    }
    // Pop the bound value.
    append_statements(&mut r, vec![Statement::Add { dest: reg(Register::RSP), src: imm(8) }]);
    assert(instrs(r@) =~= cr + seq![Instr::Push { src: reg(Register::RAX) }] + cb + seq![
        Instr::Add { dest: reg(Register::RSP), src: imm(8) },
    ]);
    Ok(r)
}

/// Loads the nearest slot named `variable` into rax. A name that no slot holds is an error.
pub fn compile_variable(
    variable: &Identifier,
    _compiler: &mut Compiler,
    env: &VariablesTable,
) -> (r: Result<Vec<Statement>, CompileError>)
    requires
        old(_compiler).wf(),
    ensures
        *final(_compiler) == *old(_compiler),
        evolves(*old(_compiler), *final(_compiler)),
        lowers_to(
            lower(Expr::Variable(*variable), env.slots(), false, old(_compiler).label_count(), old(_compiler).literals()),
            r,
            final(_compiler).label_count(),
        ),
        r matches Ok(s) ==> exists|k: nat|
            lexical_address(env.slots(), variable.0@) == Some(k) && k <= MAX_SLOTS && instrs(s@)
                == seq![Instr::Mov { dest: reg(Register::RAX), src: mem(Register::RSP, (8 * k) as i64) }],
        r is Ok ==> bound_names(env.slots()).contains(variable.0@),
        r is Err <==> match lexical_address(env.slots(), variable.0@) {
            Some(k) => k > MAX_SLOTS,
            None => true,
        },
{
    proof {
        lemma_address_bound(env.slots(), variable.0@);
    }
    match env.position(variable) {
        Some(k) => match slot_offset(k) {
            Ok(offset) => {
                let r = vec![Statement::Mov { dest: reg(Register::RAX), src: mem(Register::RSP, offset) }];
                assert(instrs(r@) =~= seq![
                    Instr::Mov { dest: reg(Register::RAX), src: mem(Register::RSP, (8 * k) as i64) },
                ]);
                Ok(r)
            },
            Err(e) => Err(e),
        },
        None => Err(CompileError { msg: String::from_str("Undefined variable.") }),
    }
}

} // verus!
