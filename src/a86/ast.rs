use vstd::prelude::*;

verus! {

/// A machine register of the x86-64 target.
#[derive(Debug, Clone, Copy, PartialEq, Eq, Structural)]
pub enum Register {
    RAX,
    EAX,
    RBX,
    RDI,
    RSP,
    R1,
    R2,
    R3,
    R4,
    R5,
    R6,
    R7,
    R8,
    R9,
    R10,
    R11,
    R12,
    R13,
    R14,
    R15,
    R9D,
}

/// An instruction operand.
#[derive(Debug, Clone, Copy, PartialEq, Eq, Structural)]
pub enum Operand {
    Immediate(i64),
    Register(Register),
    /// The memory word at `register + offset`.
    Offset(Register, i64),
}

/// One line of the generated assembly program.
#[derive(Debug, Clone)]
pub enum Statement {
    Global { name: String },
    Extern { name: String },
    Label { name: String },
    Data,
    Text,
    Dq { value: i64 },
    Dd { value: i32 },
    Mov { dest: Operand, src: Operand },
    And { dest: Operand, src: Operand },
    Or { dest: Operand, src: Operand },
    Xor { dest: Operand, src: Operand },
    Sar { dest: Operand, src: Operand },
    Sal { dest: Operand, src: Operand },
    Cmp { dest: Operand, src: Operand },
    Cmove { dest: Operand, src: Operand },
    Cmovl { dest: Operand, src: Operand },
    Jmp { label: String },
    JmpRegister(Register),
    Je { label: String },
    Jne { label: String },
    Jg { label: String },
    Jl { label: String },
    Push { src: Operand },
    Pop { dest: Operand },
    Add { dest: Operand, src: Operand },
    Sub { dest: Operand, src: Operand },
    /// Loads the address of `label` into `dest`.
    Lea { dest: Operand, label: String },
    /// Loads the address of `label + offset` into `dest`.
    LeaArithmetic { dest: Operand, label: String, offset: i64 },
    Call { label: String },
    Ret,
}

/// The mathematical model of a [`Statement`]: names are character sequences.
pub enum Instr {
    Global { name: Seq<char> },
    Extern { name: Seq<char> },
    Label { name: Seq<char> },
    Data,
    Text,
    Dq { value: i64 },
    Dd { value: i32 },
    Mov { dest: Operand, src: Operand },
    And { dest: Operand, src: Operand },
    Or { dest: Operand, src: Operand },
    Xor { dest: Operand, src: Operand },
    Sar { dest: Operand, src: Operand },
    Sal { dest: Operand, src: Operand },
    Cmp { dest: Operand, src: Operand },
    Cmove { dest: Operand, src: Operand },
    Cmovl { dest: Operand, src: Operand },
    Jmp { label: Seq<char> },
    JmpRegister(Register),
    Je { label: Seq<char> },
    Jne { label: Seq<char> },
    Jg { label: Seq<char> },
    Jl { label: Seq<char> },
    Push { src: Operand },
    Pop { dest: Operand },
    Add { dest: Operand, src: Operand },
    Sub { dest: Operand, src: Operand },
    Lea { dest: Operand, label: Seq<char> },
    LeaArithmetic { dest: Operand, label: Seq<char>, offset: i64 },
    Call { label: Seq<char> },
    Ret,
}

impl View for Statement {
    type V = Instr;

    open spec fn view(&self) -> Instr {
        match self {
            Statement::Global { name } => Instr::Global { name: name@ },
            Statement::Extern { name } => Instr::Extern { name: name@ },
            Statement::Label { name } => Instr::Label { name: name@ },
            Statement::Data => Instr::Data,
            Statement::Text => Instr::Text,
            Statement::Dq { value } => Instr::Dq { value: *value },
            Statement::Dd { value } => Instr::Dd { value: *value },
            Statement::Mov { dest, src } => Instr::Mov { dest: *dest, src: *src },
            Statement::And { dest, src } => Instr::And { dest: *dest, src: *src },
            Statement::Or { dest, src } => Instr::Or { dest: *dest, src: *src },
            Statement::Xor { dest, src } => Instr::Xor { dest: *dest, src: *src },
            Statement::Sar { dest, src } => Instr::Sar { dest: *dest, src: *src },
            Statement::Sal { dest, src } => Instr::Sal { dest: *dest, src: *src },
            Statement::Cmp { dest, src } => Instr::Cmp { dest: *dest, src: *src },
            Statement::Cmove { dest, src } => Instr::Cmove { dest: *dest, src: *src },
            Statement::Cmovl { dest, src } => Instr::Cmovl { dest: *dest, src: *src },
            Statement::Jmp { label } => Instr::Jmp { label: label@ },
            Statement::JmpRegister(r) => Instr::JmpRegister(*r),
            Statement::Je { label } => Instr::Je { label: label@ },
            Statement::Jne { label } => Instr::Jne { label: label@ },
            Statement::Jg { label } => Instr::Jg { label: label@ },
            Statement::Jl { label } => Instr::Jl { label: label@ },
            Statement::Push { src } => Instr::Push { src: *src },
            Statement::Pop { dest } => Instr::Pop { dest: *dest },
            Statement::Add { dest, src } => Instr::Add { dest: *dest, src: *src },
            Statement::Sub { dest, src } => Instr::Sub { dest: *dest, src: *src },
            Statement::Lea { dest, label } => Instr::Lea { dest: *dest, label: label@ },
            Statement::LeaArithmetic { dest, label, offset } => Instr::LeaArithmetic {
                dest: *dest,
                label: label@,
                offset: *offset,
            },
            Statement::Call { label } => Instr::Call { label: label@ },
            Statement::Ret => Instr::Ret,
        }
    }
}

pub open spec fn spec_reg(r: Register) -> Operand {
    Operand::Register(r)
}

/// The operand naming register `r`.
#[verifier::when_used_as_spec(spec_reg)]
pub fn reg(r: Register) -> (o: Operand)
    ensures
        o == Operand::Register(r),
{
    Operand::Register(r)
}

pub open spec fn spec_imm(v: i64) -> Operand {
    Operand::Immediate(v)
}

/// The immediate operand `v`.
#[verifier::when_used_as_spec(spec_imm)]
pub fn imm(v: i64) -> (o: Operand)
    ensures
        o == Operand::Immediate(v),
{
    Operand::Immediate(v)
}

pub open spec fn spec_mem(r: Register, offset: i64) -> Operand {
    Operand::Offset(r, offset)
}

/// The memory operand `[r + offset]`.
#[verifier::when_used_as_spec(spec_mem)]
pub fn mem(r: Register, offset: i64) -> (o: Operand)
    ensures
        o == Operand::Offset(r, offset),
{
    Operand::Offset(r, offset)
}

/// The model of a statement list.
pub open spec fn instrs(s: Seq<Statement>) -> Seq<Instr> {
    Seq::new(s.len(), |i: int| s[i]@)
}

/// `a` ends with `b`.
pub open spec fn ends_with(a: Seq<Instr>, b: Seq<Instr>) -> bool {
    a.len() >= b.len() && a.subrange(a.len() - b.len(), a.len() as int) == b
}

/// A whole assembly program.
pub struct Program {
    pub statements: Vec<Statement>,
}

/// Appends `more` to `out`.
pub fn append_statements(out: &mut Vec<Statement>, more: Vec<Statement>)
    ensures
        instrs(final(out)@) == instrs(old(out)@) + instrs(more@),
        final(out)@ == old(out)@ + more@,
{
    let ghost added = more@;
    let mut more = more;
    out.append(&mut more);
    assert(instrs(out@) =~= instrs(old(out)@) + instrs(added));
    assert(out@ =~= old(out)@ + added);
}

} // verus!
