use vstd::prelude::*;

use super::ast::{instrs, Instr, Operand, Program, Register, Statement};
use crate::compiler::state::{decimal, push_decimal};
use crate::text::push_str;

verus! {

/// Where the assembly will be linked.
pub struct CompilationContext {
    pub platform: Platform,
}

/// Linux takes symbol names as they are; macOS prefixes them with an underscore.
#[derive(Clone, Copy, PartialEq, Eq, Structural)]
pub enum Platform {
    Linux,
    MacOS,
}

/// The decimal text of a signed integer.
pub open spec fn int_text(v: int) -> Seq<char> {
    if v < 0 {
        seq!['-'] + decimal((-v) as nat)
    } else {
        decimal(v as nat)
    }
}

pub open spec fn register_text(r: Register) -> Seq<char> {
    match r {
        Register::RAX => "rax"@,
        Register::EAX => "eax"@,
        Register::RBX => "rbx"@,
        Register::RDI => "rdi"@,
        Register::RSP => "rsp"@,
        Register::R1 => "r1"@,
        Register::R2 => "r2"@,
        Register::R3 => "r3"@,
        Register::R4 => "r4"@,
        Register::R5 => "r5"@,
        Register::R6 => "r6"@,
        Register::R7 => "r7"@,
        Register::R8 => "r8"@,
        Register::R9 => "r9"@,
        Register::R10 => "r10"@,
        Register::R11 => "r11"@,
        Register::R12 => "r12"@,
        Register::R13 => "r13"@,
        Register::R14 => "r14"@,
        Register::R15 => "r15"@,
        Register::R9D => "r9d"@,
    }
}

pub open spec fn operand_text(o: Operand) -> Seq<char> {
    match o {
        Operand::Immediate(v) => int_text(v as int),
        Operand::Register(r) => register_text(r),
        Operand::Offset(r, offset) => if offset >= 0 {
            "["@ + register_text(r) + " + "@ + int_text(offset as int) + "]"@
        } else {
            "["@ + register_text(r) + " - "@ + decimal((-offset) as nat) + "]"@
        },
    }
}

/// The symbols that the program shares with the runtime: its entry point and the
/// runtime's functions. Only these take the platform's prefix.
pub open spec fn is_public(name: Seq<char>) -> bool {
    name == "entry"@ || name == "read_byte"@ || name == "peek_byte"@ || name == "write_byte"@
        || name == "raise_error"@
}

pub open spec fn label_text(name: Seq<char>, platform: Platform) -> Seq<char> {
    if platform == Platform::MacOS && is_public(name) {
        "_"@ + name
    } else {
        name
    }
}

fn public_symbol(name: &String) -> (r: bool)
    ensures
        r == is_public(name@),
{
    *name == String::from_str("entry") || *name == String::from_str("read_byte") || *name
        == String::from_str("peek_byte") || *name == String::from_str("write_byte") || *name
        == String::from_str("raise_error")
}

pub open spec fn binary_text(mnemonic: Seq<char>, dest: Operand, src: Operand) -> Seq<char> {
    mnemonic + operand_text(dest) + ", "@ + operand_text(src)
}

/// The line of assembly for one statement, without its line break.
pub open spec fn statement_text(s: Instr, p: Platform) -> Seq<char> {
    match s {
        Instr::Global { name } => "\tglobal "@ + label_text(name, p),
        Instr::Extern { name } => "\textern "@ + label_text(name, p),
        Instr::Label { name } => label_text(name, p) + ":"@,
        Instr::Data => "\tsection .data align=8"@,
        Instr::Text => "\tsection .text"@,
        Instr::Dq { value } => "\tdq "@ + int_text(value as int),
        Instr::Dd { value } => "\tdd "@ + int_text(value as int),
        Instr::Mov { dest, src } => binary_text("\tmov "@, dest, src),
        Instr::And { dest, src } => binary_text("\tand "@, dest, src),
        Instr::Or { dest, src } => binary_text("\tor "@, dest, src),
        Instr::Xor { dest, src } => binary_text("\txor "@, dest, src),
        Instr::Sar { dest, src } => binary_text("\tsar "@, dest, src),
        Instr::Sal { dest, src } => binary_text("\tsal "@, dest, src),
        Instr::Cmp { dest, src } => binary_text("\tcmp "@, dest, src),
        Instr::Cmove { dest, src } => binary_text("\tcmove "@, dest, src),
        Instr::Cmovl { dest, src } => binary_text("\tcmovl "@, dest, src),
        Instr::Jmp { label } => "\tjmp "@ + label_text(label, p),
        Instr::JmpRegister(r) => "\tjmp "@ + register_text(r),
        Instr::Je { label } => "\tje "@ + label_text(label, p),
        Instr::Jne { label } => "\tjne "@ + label_text(label, p),
        Instr::Jg { label } => "\tjg "@ + label_text(label, p),
        Instr::Jl { label } => "\tjl "@ + label_text(label, p),
        Instr::Push { src } => "\tpush "@ + operand_text(src),
        Instr::Pop { dest } => "\tpop "@ + operand_text(dest),
        Instr::Add { dest, src } => binary_text("\tadd "@, dest, src),
        Instr::Sub { dest, src } => binary_text("\tsub "@, dest, src),
        Instr::Lea { dest, label } => "\tlea "@ + operand_text(dest) + ", ["@ + label_text(label, p)
            + "]"@,
        Instr::LeaArithmetic { dest, label, offset } => "\tlea "@ + operand_text(dest) + ", ["@
            + label_text(label, p) + " + "@ + int_text(offset as int) + "]"@,
        Instr::Call { label } => "\tcall "@ + label_text(label, p),
        Instr::Ret => "\tret"@,
    }
}

/// The lines of a statement list, each ended by a line break.
pub open spec fn lines_text(s: Seq<Instr>, p: Platform) -> Seq<char>
    decreases s.len(),
{
    if s.len() == 0 {
        seq![]
    } else {
        lines_text(s.drop_last(), p) + statement_text(s.last(), p) + "\n"@
    }
}

/// The header of every assembly file.
pub open spec fn prelude_text() -> Seq<char> {
    "\tdefault rel\n"@ + "\tsection .text\n"@
}

/// The NASM text of the program: the prelude, then one line per statement.
pub fn print(program: &Program, context: &CompilationContext) -> (r: String)
    ensures
        r@ == prelude_text() + lines_text(instrs(program.statements@), context.platform),
{
    let mut output = String::new();
    push_str(&mut output, "\tdefault rel\n");
    push_str(&mut output, "\tsection .text\n");
    let mut i: usize = 0;
    while i < program.statements.len()
        invariant
            i <= program.statements@.len(),
            output@ == prelude_text() + lines_text(
                instrs(program.statements@.subrange(0, i as int)),
                context.platform,
            ),
        decreases program.statements@.len() - i,
    {
        print_statement(&mut output, &program.statements[i], context);
        push_str(&mut output, "\n");
        assert(instrs(program.statements@.subrange(0, i + 1)).drop_last() =~= instrs(
            program.statements@.subrange(0, i as int),
        ));
        assert(output@ =~= prelude_text() + lines_text(
            instrs(program.statements@.subrange(0, i + 1)),
            context.platform,
        ));
        i = i + 1;
    }
    assert(program.statements@.subrange(0, program.statements@.len() as int)
        =~= program.statements@);
    output
}

/// Appends the decimal text of `v`.
fn print_int(out: &mut String, v: i64)
    ensures
        final(out)@ == old(out)@ + int_text(v as int),
{
    if v < 0 {
        crate::text::push_char(out, '-');
        let magnitude: u64 = (0i128 - v as i128) as u64;
        push_decimal(out, magnitude);
        proof {
            assert(final(out)@ =~= old(out)@ + int_text(v as int));
        }
    } else {
        push_decimal(out, v as u64);
    }
}

/// Appends the line of one statement.
#[verifier::rlimit(50)]
fn print_statement(out: &mut String, statement: &Statement, context: &CompilationContext)
    ensures
        final(out)@ == old(out)@ + statement_text(statement@, context.platform),
{
    match statement {
        Statement::Global { name } => print_with_label(out, "\tglobal ", name, context),
        Statement::Extern { name } => print_with_label(out, "\textern ", name, context),
        Statement::Label { name } => {
            let ghost start = old(out)@;
            print_label(out, name, context);
            push_str(out, ":");
            assert(out@ =~= start + statement_text(statement@, context.platform));
        },
        Statement::Data => push_str(out, "\tsection .data align=8"),
        Statement::Text => push_str(out, "\tsection .text"),
        Statement::Dq { value } => print_with_int(out, "\tdq ", *value),
        Statement::Dd { value } => print_with_int(out, "\tdd ", *value as i64),
        Statement::Mov { dest, src } => print_binary(out, "\tmov ", dest, src),
        Statement::And { dest, src } => print_binary(out, "\tand ", dest, src),
        Statement::Or { dest, src } => print_binary(out, "\tor ", dest, src),
        Statement::Xor { dest, src } => print_binary(out, "\txor ", dest, src),
        Statement::Sar { dest, src } => print_binary(out, "\tsar ", dest, src),
        Statement::Sal { dest, src } => print_binary(out, "\tsal ", dest, src),
        Statement::Cmp { dest, src } => print_binary(out, "\tcmp ", dest, src),
        Statement::Cmove { dest, src } => print_binary(out, "\tcmove ", dest, src),
        Statement::Cmovl { dest, src } => print_binary(out, "\tcmovl ", dest, src),
        Statement::Jmp { label } => print_with_label(out, "\tjmp ", label, context),
        Statement::JmpRegister(r) => {
            let ghost start = old(out)@;
            push_str(out, "\tjmp ");
            print_register(out, r);
            assert(out@ =~= start + statement_text(statement@, context.platform));
        },
        Statement::Je { label } => print_with_label(out, "\tje ", label, context),
        Statement::Jne { label } => print_with_label(out, "\tjne ", label, context),
        Statement::Jg { label } => print_with_label(out, "\tjg ", label, context),
        Statement::Jl { label } => print_with_label(out, "\tjl ", label, context),
        Statement::Push { src } => print_unary(out, "\tpush ", src),
        Statement::Pop { dest } => print_unary(out, "\tpop ", dest),
        Statement::Add { dest, src } => print_binary(out, "\tadd ", dest, src),
        Statement::Sub { dest, src } => print_binary(out, "\tsub ", dest, src),
        Statement::Lea { dest, label } => print_lea(out, dest, label, context),
        Statement::LeaArithmetic { dest, label, offset } => print_lea_offset(
            out,
            dest,
            label,
            *offset,
            context,
        ),
        Statement::Call { label } => print_with_label(out, "\tcall ", label, context),
        Statement::Ret => push_str(out, "\tret"),
    }
}

fn print_with_label(out: &mut String, mnemonic: &str, label: &String, context: &CompilationContext)
    ensures
        final(out)@ == old(out)@ + mnemonic@ + label_text(label@, context.platform),
{
    let ghost start = old(out)@;
    push_str(out, mnemonic);
    print_label(out, label, context);
    assert(out@ =~= start + mnemonic@ + label_text(label@, context.platform));
}

fn print_with_int(out: &mut String, mnemonic: &str, value: i64)
    ensures
        final(out)@ == old(out)@ + mnemonic@ + int_text(value as int),
{
    let ghost start = old(out)@;
    push_str(out, mnemonic);
    print_int(out, value);
    assert(out@ =~= start + mnemonic@ + int_text(value as int));
}

fn print_unary(out: &mut String, mnemonic: &str, operand: &Operand)
    ensures
        final(out)@ == old(out)@ + mnemonic@ + operand_text(*operand),
{
    let ghost start = old(out)@;
    push_str(out, mnemonic);
    print_operand(out, operand);
    assert(out@ =~= start + mnemonic@ + operand_text(*operand));
}

fn print_lea(out: &mut String, dest: &Operand, label: &String, context: &CompilationContext)
    ensures
        final(out)@ == old(out)@ + "\tlea "@ + operand_text(*dest) + ", ["@ + label_text(
            label@,
            context.platform,
        ) + "]"@,
{
    let ghost start = old(out)@;
    push_str(out, "\tlea ");
    print_operand(out, dest);
    push_str(out, ", [");
    print_label(out, label, context);
    push_str(out, "]");
    assert(out@ =~= start + "\tlea "@ + operand_text(*dest) + ", ["@ + label_text(
        label@,
        context.platform,
    ) + "]"@);
}

fn print_lea_offset(
    out: &mut String,
    dest: &Operand,
    label: &String,
    offset: i64,
    context: &CompilationContext,
)
    ensures
        final(out)@ == old(out)@ + "\tlea "@ + operand_text(*dest) + ", ["@ + label_text(
            label@,
            context.platform,
        ) + " + "@ + int_text(offset as int) + "]"@,
{
    let ghost start = old(out)@;
    push_str(out, "\tlea ");
    print_operand(out, dest);
    push_str(out, ", [");
    print_label(out, label, context);
    push_str(out, " + ");
    print_int(out, offset);
    push_str(out, "]");
    assert(out@ =~= start + "\tlea "@ + operand_text(*dest) + ", ["@ + label_text(
        label@,
        context.platform,
    ) + " + "@ + int_text(offset as int) + "]"@);
}

fn print_binary(out: &mut String, mnemonic: &str, dest: &Operand, src: &Operand)
    ensures
        final(out)@ == old(out)@ + binary_text(mnemonic@, *dest, *src),
{
    let ghost start = old(out)@;
    push_str(out, mnemonic);
    print_operand(out, dest);
    push_str(out, ", ");
    print_operand(out, src);
    assert(out@ =~= start + binary_text(mnemonic@, *dest, *src));
}

fn print_label(out: &mut String, label: &String, context: &CompilationContext)
    ensures
        final(out)@ == old(out)@ + label_text(label@, context.platform),
{
    let ghost start = old(out)@;
    let prefixed = match context.platform {
        Platform::MacOS => public_symbol(label),
        Platform::Linux => false,
    };
    if prefixed {
        push_str(out, "_");
    }
    push_str(out, label.as_str());
    assert(out@ =~= start + label_text(label@, context.platform));
}

fn print_operand(out: &mut String, operand: &Operand)
    ensures
        final(out)@ == old(out)@ + operand_text(*operand),
{
    let ghost start = old(out)@;
    match operand {
        Operand::Immediate(value) => print_int(out, *value),
        Operand::Register(register) => print_register(out, register),
        Operand::Offset(register, offset) => {
            push_str(out, "[");
            print_register(out, register);
            if *offset >= 0 {
                push_str(out, " + ");
                print_int(out, *offset);
            } else {
                push_str(out, " - ");
                push_decimal(out, (0i128 - *offset as i128) as u64);
            }
            push_str(out, "]");
        },
    }
    assert(out@ =~= start + operand_text(*operand));
}

fn print_register(out: &mut String, register: &Register)
    ensures
        final(out)@ == old(out)@ + register_text(*register),
{
    let text = match register {
        Register::RAX => "rax",
        Register::EAX => "eax",
        Register::RBX => "rbx",
        Register::RDI => "rdi",
        Register::RSP => "rsp",
        Register::R1 => "r1",
        Register::R2 => "r2",
        Register::R3 => "r3",
        Register::R4 => "r4",
        Register::R5 => "r5",
        Register::R6 => "r6",
        Register::R7 => "r7",
        Register::R8 => "r8",
        Register::R9 => "r9",
        Register::R10 => "r10",
        Register::R11 => "r11",
        Register::R12 => "r12",
        Register::R13 => "r13",
        Register::R14 => "r14",
        Register::R15 => "r15",
        Register::R9D => "r9d",
    };
    push_str(out, text);
}

} // verus!
