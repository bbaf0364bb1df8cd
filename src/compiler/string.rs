use vstd::prelude::*;

use super::error::{err_label, ERR_LABEL};
use super::lowering::{data_records, lit_index};
use super::state::{decimal, next_id, string_label, Compiler, Label};
use super::types::{assert_char, assert_natural_code, assert_natural_number, assert_string, assert_type_code};
use super::vector::{copy_string, numbered_label};
use crate::a86::ast::{append_statements, imm, instrs, mem, reg, Instr, Register, Statement};
use crate::mylang::ast::{
    add_lit, defs_lits, lits_args, lits_arms, lits_list, program_lits,
    arm_sizes, definitions_lits, lemma_arm_sizes_bound, lemma_sizes_bound, size, sizes,
    string_lits, string_lits_arms, string_lits_seq, Arm, Expr, Lit, Program,
};
use crate::mylang::data_type::{char_type, scale, string_type, Value};
use crate::mylang::error::CompileError;
use crate::text::chars_of;

verus! {

/// The longest string literal that the compiler lays out. The comparison of a string with
/// a literal addresses character `i` at byte `8 + 4 * i` of the record, and x86-64 takes a
/// signed 32-bit displacement: this bound keeps every such displacement within it.
pub const MAX_LITERAL_CHARS: usize = 0x1000_0000;

/// Fills a new string of length r8 with the character in rax.
pub open spec fn make_string_code(lp: Seq<char>, end: Seq<char>, empty: Seq<char>) -> Seq<Instr> {
    assert_natural_code(Register::R8) + assert_type_code(Register::RAX, char_type()) + seq![
        Instr::Cmp { dest: reg(Register::R8), src: imm(0) },
        Instr::Je { label: empty },
        Instr::Mov { dest: reg(Register::R9), src: reg(Register::RBX) },
        Instr::Or { dest: reg(Register::R9), src: imm(4) },
        Instr::Sar { dest: reg(Register::R8), src: imm(4) },
        Instr::Mov { dest: mem(Register::RBX, 0), src: reg(Register::R8) },
        Instr::Add { dest: reg(Register::RBX), src: imm(8) },
        Instr::Sar { dest: reg(Register::RAX), src: imm(5) },
        // Round the count of 32-bit slots up to even, to keep the heap 8-byte aligned.
        Instr::Add { dest: reg(Register::R8), src: imm(1) },
        Instr::Sar { dest: reg(Register::R8), src: imm(1) },
        Instr::Sal { dest: reg(Register::R8), src: imm(1) },
        Instr::Label { name: lp },
        Instr::Mov { dest: mem(Register::RBX, 0), src: reg(Register::EAX) },
        Instr::Add { dest: reg(Register::RBX), src: imm(4) },
        Instr::Sub { dest: reg(Register::R8), src: imm(1) },
        Instr::Cmp { dest: reg(Register::R8), src: imm(0) },
        Instr::Jne { label: lp },
        Instr::Mov { dest: reg(Register::RAX), src: reg(Register::R9) },
        Instr::Jmp { label: end },
        Instr::Label { name: empty },
        Instr::Mov { dest: reg(Register::RAX), src: imm(4) },
        Instr::Label { name: end },
    ]
}

/// Sets rax to a new string of length r8 whose characters are all the character in rax.
/// The length must be a natural number; length 0 gives the empty string.
pub fn compile_make_string(compiler: &mut Compiler) -> (r: Vec<Statement>)
    ensures
        final(compiler).label_count() == next_id(next_id(next_id(old(compiler).label_count()))),
        final(compiler).literals() == old(compiler).literals(),
        old(compiler).wf() ==> final(compiler).wf(),
        instrs(r@) == make_string_code(
            "loop_"@ + decimal(next_id(old(compiler).label_count())),
            "end_"@ + decimal(next_id(next_id(old(compiler).label_count()))),
            "empty_"@ + decimal(final(compiler).label_count()),
        ),
{
    let loop_id = compiler.new_label_id();
    let end_id = compiler.new_label_id();
    let empty_id = compiler.new_label_id();
    let loop_label = numbered_label("loop_", &loop_id);
    let end_label = numbered_label("end_", &end_id);
    let empty_label = numbered_label("empty_", &empty_id);
    let ghost (lp, end, empty) = (loop_label@, end_label@, empty_label@);
    let mut r = assert_natural_number(Register::R8);
    append_statements(&mut r, assert_char(Register::RAX));
    let tail = vec![
        Statement::Cmp { dest: reg(Register::R8), src: imm(Value::Int(0).encode()) },
        Statement::Je { label: copy_string(&empty_label) },
        Statement::Mov { dest: reg(Register::R9), src: reg(Register::RBX) },
        Statement::Or { dest: reg(Register::R9), src: imm(string_type().tag.0 as i64) },
        Statement::Sar { dest: reg(Register::R8), src: imm(4) },
        Statement::Mov { dest: mem(Register::RBX, 0), src: reg(Register::R8) },
        Statement::Add { dest: reg(Register::RBX), src: imm(8) },
        Statement::Sar { dest: reg(Register::RAX), src: imm(5) },
        Statement::Add { dest: reg(Register::R8), src: imm(1) },
        Statement::Sar { dest: reg(Register::R8), src: imm(1) },
        Statement::Sal { dest: reg(Register::R8), src: imm(1) },
        Statement::Label { name: copy_string(&loop_label) },
        Statement::Mov { dest: mem(Register::RBX, 0), src: reg(Register::EAX) },
        Statement::Add { dest: reg(Register::RBX), src: imm(4) },
        Statement::Sub { dest: reg(Register::R8), src: imm(1) },
        Statement::Cmp { dest: reg(Register::R8), src: imm(0) },
        Statement::Jne { label: loop_label },
        Statement::Mov { dest: reg(Register::RAX), src: reg(Register::R9) },
        Statement::Jmp { label: copy_string(&end_label) },
        Statement::Label { name: empty_label },
        Statement::Mov { dest: reg(Register::RAX), src: imm(Value::EmptyString.encode()) },
        Statement::Label { name: end_label },
    ];
    append_statements(&mut r, tail);
    assert(instrs(r@) =~= make_string_code(lp, end, empty));
    r
}

/// Sets rax to the character of the string in r8 at the index in rax; an index out of
/// bounds is an error.
pub open spec fn string_ref_code() -> Seq<Instr> {
    assert_type_code(Register::R8, string_type()) + assert_natural_code(Register::RAX) + seq![
        Instr::Cmp { dest: reg(Register::R8), src: imm(4) },
        Instr::Je { label: ERR_LABEL@ },
        Instr::Xor { dest: reg(Register::R8), src: imm(4) },
        Instr::Mov { dest: reg(Register::R9), src: mem(Register::R8, 0) },
        Instr::Sar { dest: reg(Register::RAX), src: imm(4) },
        Instr::Sub { dest: reg(Register::R9), src: imm(1) },
        Instr::Cmp { dest: reg(Register::R9), src: reg(Register::RAX) },
        Instr::Jl { label: ERR_LABEL@ },
        Instr::Sal { dest: reg(Register::RAX), src: imm(2) },
        Instr::Add { dest: reg(Register::R8), src: reg(Register::RAX) },
        Instr::Mov { dest: reg(Register::EAX), src: mem(Register::R8, 8) },
        Instr::Sal { dest: reg(Register::RAX), src: imm(5) },
        Instr::Xor { dest: reg(Register::RAX), src: imm(8) },
    ]
}

pub fn compile_string_ref(_compiler: &mut Compiler) -> (r: Vec<Statement>)
    ensures
        *final(_compiler) == *old(_compiler),
        instrs(r@) == string_ref_code(),
{
    let mut r = assert_string(Register::R8);
    append_statements(&mut r, assert_natural_number(Register::RAX));
    let tail = vec![
        Statement::Cmp { dest: reg(Register::R8), src: imm(Value::EmptyString.encode()) },
        Statement::Je { label: err_label() },
        Statement::Xor { dest: reg(Register::R8), src: imm(string_type().tag.0 as i64) },
        Statement::Mov { dest: reg(Register::R9), src: mem(Register::R8, 0) },
        Statement::Sar { dest: reg(Register::RAX), src: imm(4) },
        Statement::Sub { dest: reg(Register::R9), src: imm(1) },
        Statement::Cmp { dest: reg(Register::R9), src: reg(Register::RAX) },
        Statement::Jl { label: err_label() },
        Statement::Sal { dest: reg(Register::RAX), src: imm(2) },
        Statement::Add { dest: reg(Register::R8), src: reg(Register::RAX) },
        Statement::Mov { dest: reg(Register::EAX), src: mem(Register::R8, 8) },
        Statement::Sal { dest: reg(Register::RAX), src: imm(char_type().shift as i64) },
        Statement::Xor { dest: reg(Register::RAX), src: imm(char_type().tag.0 as i64) },
    ];
    append_statements(&mut r, tail);
    assert(instrs(r@) =~= string_ref_code());
    r
}

/// The comparison of each character of `s` with the string record at r8, leaving via
/// `neq` on the first difference.
pub open spec fn compare_chars_code(s: Seq<char>, neq: Seq<char>) -> Seq<Instr>
    decreases s.len(),
{
    if s.len() == 0 {
        seq![]
    } else {
        compare_chars_code(s.drop_last(), neq) + seq![
            Instr::Mov { dest: reg(Register::R9D), src: imm(s.last() as i64) },
            Instr::Cmp { dest: mem(Register::R8, (8 + 4 * (s.len() - 1)) as i64), src: reg(Register::R9D) },
            Instr::Jne { label: neq },
        ]
    }
}

/// The comparison of rax with the string `s`, leaving the flags at equal iff they agree;
/// `neq` ends the code and `body` starts the comparison of a record.
pub open spec fn compare_string_code(s: Seq<char>, neq: Seq<char>, body: Seq<char>) -> Seq<Instr> {
    seq![
        Instr::Mov { dest: reg(Register::R9), src: reg(Register::RAX) },
        Instr::And { dest: reg(Register::R9), src: imm(7) },
        Instr::Cmp { dest: reg(Register::R9), src: imm(4) },
        Instr::Jne { label: neq },
    ] + if s.len() == 0 {
        seq![
            Instr::Cmp { dest: reg(Register::RAX), src: imm(4) },
            Instr::Je { label: neq },
            Instr::Mov { dest: reg(Register::R8), src: reg(Register::RAX) },
            Instr::Xor { dest: reg(Register::R8), src: imm(4) },
            Instr::Mov { dest: reg(Register::R9), src: mem(Register::R8, 0) },
            Instr::Cmp { dest: reg(Register::R9), src: imm(0) },
        ]
    } else {
        seq![
            Instr::Cmp { dest: reg(Register::RAX), src: imm(4) },
            Instr::Jne { label: body },
            Instr::Cmp { dest: reg(Register::RAX), src: imm(0) },
            Instr::Jmp { label: neq },
            Instr::Label { name: body },
            Instr::Mov { dest: reg(Register::R8), src: reg(Register::RAX) },
            Instr::Xor { dest: reg(Register::R8), src: imm(4) },
            Instr::Mov { dest: reg(Register::R9), src: mem(Register::R8, 0) },
            Instr::Cmp { dest: reg(Register::R9), src: imm(s.len() as i64) },
            Instr::Jne { label: neq },
        ] + compare_chars_code(s, neq)
    } + seq![Instr::Label { name: neq }]
}

/// Sets the comparison flags to equal iff the value in rax is a string whose characters
/// are those of `string`. Clobbers r8 and r9.
pub fn compare_strings(string: &str, compiler: &mut Compiler) -> (r: Result<
    Vec<Statement>,
    CompileError,
>)
    ensures
        final(compiler).literals() == old(compiler).literals(),
        old(compiler).wf() ==> final(compiler).wf(),
        final(compiler).label_count() >= old(compiler).label_count(),
        r is Err <==> string@.len() > MAX_LITERAL_CHARS,
        r is Ok ==> final(compiler).label_count() == next_id(next_id(old(compiler).label_count())),
        r matches Ok(s) ==> instrs(s@) == compare_string_code(
            string@,
            "string_neq_"@ + decimal(next_id(old(compiler).label_count())),
            "string_body_"@ + decimal(next_id(next_id(old(compiler).label_count()))),
        ),
{
    let cs = chars_of(string);
    if cs.len() > MAX_LITERAL_CHARS {
        return Err(CompileError { msg: String::from_str("String literal too long.") });
    }
    let neq_id = compiler.new_label_id();
    let neq_label = numbered_label("string_neq_", &neq_id);
    let body_id = compiler.new_label_id();
    let body_label = numbered_label("string_body_", &body_id);
    let mut r = vec![
        // Check that rax holds a string.
        Statement::Mov { dest: reg(Register::R9), src: reg(Register::RAX) },
        Statement::And { dest: reg(Register::R9), src: imm(string_type().mask() as i64) },
        Statement::Cmp { dest: reg(Register::R9), src: imm(string_type().tag.0 as i64) },
        Statement::Jne { label: copy_string(&neq_label) },
    ];
    proof {
        reveal_with_fuel(scale, 4);
        assert(instrs(r@) =~= seq![
            Instr::Mov { dest: reg(Register::R9), src: reg(Register::RAX) },
            Instr::And { dest: reg(Register::R9), src: imm(7) },
            Instr::Cmp { dest: reg(Register::R9), src: imm(4) },
            Instr::Jne { label: neq_label@ },
        ]);
    }
    if cs.len() == 0 {
        // The empty string may be the bare tag, or a record of length 0.
        let tail = vec![
            Statement::Cmp { dest: reg(Register::RAX), src: imm(Value::EmptyString.encode()) },
            Statement::Je { label: copy_string(&neq_label) },
            Statement::Mov { dest: reg(Register::R8), src: reg(Register::RAX) },
            Statement::Xor { dest: reg(Register::R8), src: imm(string_type().tag.0 as i64) },
            Statement::Mov { dest: reg(Register::R9), src: mem(Register::R8, 0) },
            Statement::Cmp { dest: reg(Register::R9), src: imm(0) },
        ];
        append_statements(&mut r, tail);
        let ghost neq = neq_label@;
        append_statements(&mut r, vec![Statement::Label { name: neq_label }]);
        assert(instrs(r@) =~= compare_string_code(string@, neq, body_label@));
        return Ok(r);
    } else {
        // The bare tag is the empty string, which differs from `string`: compare it with 0
        // to leave the flags at "not equal".
        let tail = vec![
            Statement::Cmp { dest: reg(Register::RAX), src: imm(Value::EmptyString.encode()) },
            Statement::Jne { label: copy_string(&body_label) },
            Statement::Cmp { dest: reg(Register::RAX), src: imm(0) },
            Statement::Jmp { label: copy_string(&neq_label) },
            Statement::Label { name: body_label },
            Statement::Mov { dest: reg(Register::R8), src: reg(Register::RAX) },
            Statement::Xor { dest: reg(Register::R8), src: imm(string_type().tag.0 as i64) },
            Statement::Mov { dest: reg(Register::R9), src: mem(Register::R8, 0) },
            Statement::Cmp { dest: reg(Register::R9), src: imm(cs.len() as i64) },
            Statement::Jne { label: copy_string(&neq_label) },
        ];
        append_statements(&mut r, tail);
        let ghost head = instrs(r@);
        let ghost neq = neq_label@;
        let mut i: usize = 0;
        assert(cs@.subrange(0, 0) =~= Seq::<char>::empty());
        while i < cs.len()
            invariant
                i <= cs@.len() <= MAX_LITERAL_CHARS,
                neq_label@ == neq,
                instrs(r@) == head + compare_chars_code(cs@.subrange(0, i as int), neq),
            decreases cs@.len() - i,
        {
            let step = vec![
                Statement::Mov { dest: reg(Register::R9D), src: imm(cs[i] as i64) },
                Statement::Cmp {
                    dest: mem(Register::R8, 8 + 4 * i as i64),
                    src: reg(Register::R9D),
                },
                Statement::Jne { label: copy_string(&neq_label) },
            ];
            append_statements(&mut r, step);
            assert(cs@.subrange(0, i + 1).drop_last() =~= cs@.subrange(0, i as int));
            assert(instrs(r@) =~= head + compare_chars_code(cs@.subrange(0, i + 1), neq));
            i = i + 1;
        }
        assert(cs@.subrange(0, cs@.len() as int) =~= string@);
        append_statements(&mut r, vec![Statement::Label { name: neq_label }]);
        assert(instrs(r@) =~= compare_string_code(string@, neq, body_label@));
        Ok(r)
    }
}

/// Sets rax to the string literal `string`, whose record the data section holds under
/// its interned label. A literal missing from the table is an error.
pub fn compile_string_literal(string: &str, compiler: &Compiler) -> (r: Result<
    Vec<Statement>,
    CompileError,
>)
    requires
        compiler.wf(),
    ensures
        r matches Ok(s) ==> exists|i: int|
            0 <= i < compiler.literals().len() && compiler.literals()[i] == string@ && instrs(s@)
                == seq![
                Instr::LeaArithmetic {
                    dest: reg(Register::RAX),
                    label: string_label(i as nat),
                    offset: 4,
                },
            ],
        r is Err <==> forall|i: int|
            0 <= i < compiler.literals().len() ==> compiler.literals()[i] != string@,
        r is Ok <==> lit_index(compiler.literals(), string@) is Some,
        r matches Ok(s) ==> (lit_index(compiler.literals(), string@) matches Some(i) && instrs(s@)
            == seq![
            Instr::LeaArithmetic {
                dest: reg(Register::RAX),
                label: string_label(i),
                offset: 4,
            },
        ]),
{
    match compiler.string_literal_label(string) {
        Some(Label(label)) => {
            let r = vec![
                Statement::LeaArithmetic {
                    dest: reg(Register::RAX),
                    label,
                    offset: string_type().tag.0 as i64,
                },
            ];
            Ok(r)
        },
        None => Err(CompileError { msg: String::from_str("String literal not found in the table.") }),
    }
}

/// The data records of all string literals of the table, each under its label.
pub fn compile_all_string_data(compiler: &Compiler) -> (r: Result<Vec<Statement>, CompileError>)
    requires
        compiler.wf(),
    ensures
        r is Ok <==> data_records(compiler.literals()) is Some,
        r matches Ok(s) ==> data_records(compiler.literals()) == Some(instrs(s@)),
{
    let table = compiler.string_literals();
    let ghost t = compiler.literals();
    let mut r: Vec<Statement> = Vec::new();
    let mut i: usize = 0;
    assert(t.subrange(0, 0) =~= Seq::<Seq<char>>::empty());
    while i < table.len()
        invariant
            i <= table@.len(),
            table@.len() == t.len(),
            t == compiler.literals(),
            compiler.wf(),
            forall|k: int| 0 <= k < table@.len() ==> (#[trigger] table@[k]).0@ == t[k],
            forall|k: int| 0 <= k < table@.len() ==> (#[trigger] table@[k]).1.0@ == string_label(k as nat),
            data_records(t.subrange(0, i as int)) == Some(instrs(r@)),
        decreases table@.len() - i,
    {
        let (string, label) = &table[i];
        let ghost before = instrs(r@);
        assert(t.subrange(0, i + 1).drop_last() =~= t.subrange(0, i as int));
        assert(t.subrange(0, i + 1).last() == t[i as int]);
        append_statements(&mut r, vec![Statement::Label { name: copy_string(&label.0) }]);
        match compile_string_data(string.as_str()) {
            Ok(data) => {
                let ghost d = instrs(data@);
                append_statements(&mut r, data);
                assert(instrs(r@) =~= before + seq![Instr::Label { name: string_label(i as nat) }] + d);
            },
            Err(e) => {
                proof {
                    lemma_data_records_prefix_fails(t, i + 1);
                }
                return Err(e);
            },
        }
        i = i + 1;
    }
    assert(t.subrange(0, i as int) =~= t);
    Ok(r)
}

/// A failing prefix of the table fails the whole data section.
pub proof fn lemma_data_records_prefix_fails(t: Seq<Seq<char>>, j: int)
    requires
        0 <= j <= t.len(),
        data_records(t.subrange(0, j)) is None,
    ensures
        data_records(t) is None,
    decreases t.len(),
{
    if j == t.len() {
        assert(t.subrange(0, j) =~= t);
    } else {
        assert(t.drop_last().subrange(0, j) =~= t.subrange(0, j));
        lemma_data_records_prefix_fails(t.drop_last(), j);
    }
}


/// The characters of `s` as 32-bit words, with one zero word more when their count is
/// odd.
pub open spec fn char_words(s: Seq<char>) -> Seq<Instr> {
    Seq::new(s.len(), |i: int| Instr::Dd { value: s[i] as u32 as i32 }) + if s.len() % 2 == 1 {
        seq![Instr::Dd { value: 0 }]
    } else {
        seq![]
    }
}

/// The data record of a string: its length as a 64-bit word, then its characters as 32-bit
/// words, padded to a whole number of 64-bit words.
pub fn compile_string_data(string: &str) -> (r: Result<Vec<Statement>, CompileError>)
    ensures
        r matches Ok(s) ==> instrs(s@) == seq![Instr::Dq { value: string@.len() as i64 }]
            + char_words(string@),
        r is Err <==> string@.len() > MAX_LITERAL_CHARS,
{
    let cs = chars_of(string);
    if cs.len() > MAX_LITERAL_CHARS {
        return Err(CompileError { msg: String::from_str("String literal too long.") });
    }
    let mut r = vec![Statement::Dq { value: cs.len() as i64 }];
    let mut i: usize = 0;
    while i < cs.len()
        invariant
            i <= cs@.len() <= MAX_LITERAL_CHARS,
            cs@ == string@,
            instrs(r@) == seq![Instr::Dq { value: string@.len() as i64 }] + Seq::new(
                i as nat,
                |k: int| Instr::Dd { value: cs@[k] as u32 as i32 },
            ),
        decreases cs@.len() - i,
    {
        let ghost before = instrs(r@);
        r.push(Statement::Dd { value: cs[i] as u32 as i32 });
        assert(instrs(r@) =~= before.push(Instr::Dd { value: cs@[i as int] as u32 as i32 }));
        assert(seq![Instr::Dq { value: string@.len() as i64 }] + Seq::new(
            (i + 1) as nat,
            |k: int| Instr::Dd { value: cs@[k] as u32 as i32 },
        ) =~= before.push(Instr::Dd { value: cs@[i as int] as u32 as i32 }));
        i = i + 1;
    }
    let ghost body = instrs(r@);
    assert(Seq::new(cs@.len(), |k: int| Instr::Dd { value: cs@[k] as u32 as i32 }) =~= Seq::new(
        string@.len(),
        |i: int| Instr::Dd { value: string@[i] as u32 as i32 },
    ));
    if cs.len() % 2 == 1 {
        r.push(Statement::Dd { value: 0 });
        assert(instrs(r@) =~= body.push(Instr::Dd { value: 0 }));
    }
    assert(instrs(r@) =~= seq![Instr::Dq { value: string@.len() as i64 }] + char_words(string@));
    Ok(r)
}

/// The characters of each string of `v`, in order.
pub open spec fn vws(v: Seq<String>) -> Seq<Seq<char>> {
    Seq::new(v.len(), |i: int| v[i]@)
}

/// The characters of the strings of `v`.
pub open spec fn views(v: Seq<String>) -> Set<Seq<char>> {
    Set::new(|t: Seq<char>| exists|k: int| 0 <= k < v.len() && #[trigger] v[k]@ == t)
}

/// Appends `s` to `out` unless `out` holds it already.
fn add_literal(out: &mut Vec<String>, s: &String)
    ensures
        views(final(out)@) == views(old(out)@).insert(s@),
        distinct_views(old(out)@) ==> distinct_views(final(out)@),
        vws(final(out)@) == add_lit(vws(old(out)@), s@),
{
    let ghost start = out@;
    let mut i: usize = 0;
    while i < out.len()
        invariant
            i <= out@.len(),
            out@ == start,
            forall|k: int| 0 <= k < i ==> (#[trigger] out@[k])@ != s@,
        decreases out@.len() - i,
    {
        if out[i] == *s {
            assert(views(out@) =~= views(start).insert(s@)) by {
                assert(out@[i as int]@ == s@);
            }
            assert(vws(start)[i as int] == s@);
            return;
        }
        i = i + 1;
    }
    assert(!vws(start).contains(s@)) by {
        if vws(start).contains(s@) {
            let k = choose|k: int| 0 <= k < vws(start).len() && vws(start)[k] == s@;
            assert(start[k]@ == s@);
        }
    }
    out.push(s.clone());
    assert(vws(out@) =~= vws(start).push(s@));
    assert(views(out@) =~= views(start).insert(s@)) by {
        assert forall|t: Seq<char>| views(out@).contains(t) implies views(start).insert(s@).contains(t) by {
            let k = choose|k: int| 0 <= k < out@.len() && #[trigger] out@[k]@ == t;
            if k < start.len() {
                assert(start[k]@ == t);
            }
        }
        assert forall|t: Seq<char>| views(start).insert(s@).contains(t) implies views(out@).contains(t) by {
            if t == s@ {
                assert(out@[start.len() as int]@ == t);
            } else {
                let k = choose|k: int| 0 <= k < start.len() && #[trigger] start[k]@ == t;
                assert(out@[k]@ == t);
            }
        }
    }
}

/// No two strings of `v` have the same characters.
pub open spec fn distinct_views(v: Seq<String>) -> bool {
    forall|i: int, j: int| 0 <= i < j < v.len() ==> (#[trigger] v[i])@ != (#[trigger] v[j])@
}

/// The distinct string literals of the program, in order of first occurrence.
pub fn all_string_literals(program: &Program) -> (r: Vec<String>)
    ensures
        distinct_views(r@),
        views(r@) == definitions_lits(program.function_definitions@).union(
            string_lits(program.expr),
        ),
        vws(r@) == program_lits(program.function_definitions@, program.expr),
{
    let mut r: Vec<String> = Vec::new();
    assert(views(r@) =~= Set::<Seq<char>>::empty());
    assert(vws(r@) =~= Seq::<Seq<char>>::empty());
    let mut i: usize = 0;
    while i < program.function_definitions.len()
        invariant
            i <= program.function_definitions@.len(),
            distinct_views(r@),
            views(r@) == definitions_lits(program.function_definitions@.subrange(0, i as int)),
            vws(r@) == defs_lits(program.function_definitions@.subrange(0, i as int)),
        decreases program.function_definitions@.len() - i,
    {
        string_literals(&program.function_definitions[i].body, &mut r);
        assert(program.function_definitions@.subrange(0, i + 1).drop_last()
            =~= program.function_definitions@.subrange(0, i as int));
        i = i + 1;
    }
    assert(program.function_definitions@.subrange(0, program.function_definitions@.len() as int)
        =~= program.function_definitions@);
    string_literals(&program.expr, &mut r);
    r
}

/// Appends to `out` the string literals of `expr` that it does not hold yet.
fn string_literals(expr: &Expr, out: &mut Vec<String>)
    ensures
        views(final(out)@) == views(old(out)@).union(string_lits(*expr)),
        distinct_views(old(out)@) ==> distinct_views(final(out)@),
        vws(final(out)@) == lits_list(*expr, vws(old(out)@)),
    decreases size(*expr),
{
    let ghost start = out@;
    match expr {
        Expr::Lit(Lit::String(s)) => {
            add_literal(out, s);
            assert(views(out@) =~= views(start).union(string_lits(*expr)));
        },
        Expr::Prim1(_, e) => string_literals(e, out),
        Expr::Prim2(_, a, b) | Expr::Begin(a, b) => {
            string_literals(a, out);
            string_literals(b, out);
            assert(views(out@) =~= views(start).union(string_lits(*expr)));
        },
        Expr::Prim3(_, a, b, c) => {
            string_literals(a, out);
            string_literals(b, out);
            string_literals(c, out);
            assert(views(out@) =~= views(start).union(string_lits(*expr)));
        },
        Expr::If(i) => {
            string_literals(&i.cond, out);
            string_literals(&i.then_expr, out);
            string_literals(&i.els, out);
            assert(views(out@) =~= views(start).union(string_lits(*expr)));
        },
        Expr::Let(l) => {
            string_literals(&l.binding.rhs, out);
            string_literals(&l.body, out);
            assert(views(out@) =~= views(start).union(string_lits(*expr)));
        },
        Expr::App(app) => {
            string_literals(&app.function, out);
            let ghost acc = vws(out@);
            let mut i: usize = 0;
            assert(app.args@.subrange(0, 0) =~= Seq::<Expr>::empty());
            while i < app.args.len()
                invariant
                    i <= app.args@.len(),
                    size(*expr) == 1 + size(*app.function) + sizes(app.args@),
                    distinct_views(start) ==> distinct_views(out@),
                    vws(out@) == lits_args(app.args@.subrange(0, i as int), acc),
                    views(out@) == views(start).union(string_lits(*app.function)).union(
                        string_lits_seq(app.args@.subrange(0, i as int)),
                    ),
                decreases app.args@.len() - i,
            {
                proof {
                    lemma_sizes_bound(app.args@, i as int);
                }
                string_literals(&app.args[i], out);
                assert(app.args@.subrange(0, i + 1).subrange(0, i as int) =~= app.args@.subrange(0, i as int));
                assert(vws(out@) == lits_args(app.args@.subrange(0, i + 1), acc));
                assert(views(out@) =~= views(start).union(string_lits(*app.function)).union(
                    string_lits_seq(app.args@.subrange(0, i + 1)),
                ));
                i = i + 1;
            }
            assert(app.args@.subrange(0, app.args@.len() as int) =~= app.args@);
            assert(vws(out@) == lits_list(*expr, vws(start)));
            assert(views(out@) =~= views(start).union(string_lits(*expr)));
        },
        Expr::Match(m) => {
            string_literals(&m.expr, out);
            let ghost acc = vws(out@);
            let mut i: usize = 0;
            assert(m.arms@.subrange(0, 0) =~= Seq::<Arm>::empty());
            while i < m.arms.len()
                invariant
                    i <= m.arms@.len(),
                    size(*expr) == 1 + size(*m.expr) + arm_sizes(m.arms@),
                    distinct_views(start) ==> distinct_views(out@),
                    vws(out@) == lits_arms(m.arms@.subrange(0, i as int), acc),
                    views(out@) == views(start).union(string_lits(*m.expr)).union(
                        string_lits_arms(m.arms@.subrange(0, i as int)),
                    ),
                decreases m.arms@.len() - i,
            {
                proof {
                    lemma_arm_sizes_bound(m.arms@, i as int);
                }
                string_literals(&m.arms[i].body, out);
                assert(m.arms@.subrange(0, i + 1).subrange(0, i as int) =~= m.arms@.subrange(0, i as int));
                assert(vws(out@) == lits_arms(m.arms@.subrange(0, i + 1), acc));
                assert(views(out@) =~= views(start).union(string_lits(*m.expr)).union(
                    string_lits_arms(m.arms@.subrange(0, i + 1)),
                ));
                i = i + 1;
            }
            assert(m.arms@.subrange(0, m.arms@.len() as int) =~= m.arms@);
            assert(vws(out@) == lits_list(*expr, vws(start)));
            assert(views(out@) =~= views(start).union(string_lits(*expr)));
        },
        Expr::Lambda(lambda) => string_literals(&lambda.body, out),
        _ => {
            assert(views(out@) =~= views(start).union(string_lits(*expr)));
        },
    }
}

/// The bytes that a data statement occupies.
pub open spec fn data_size(s: Instr) -> int {
    match s {
        Instr::Dq { .. } => 8,
        Instr::Dd { .. } => 4,
        _ => 0,
    }
}

/// The byte offset, from the start of `s`, of the data of its `k`-th statement.
pub open spec fn layout_offset(s: Seq<Instr>, k: int) -> int
    decreases k,
{
    if k <= 0 {
        0
    } else {
        layout_offset(s, k - 1) + data_size(s[k - 1])
    }
}

/// The record of a string literal holds its `i`-th character in the 32-bit word at byte
/// offset `8 + 4 * i`: the word that `string-ref` reads for index `i`, past the length.
pub proof fn lemma_literal_layout(s: Seq<char>, i: int)
    requires
        0 <= i < s.len(),
    ensures
        (seq![Instr::Dq { value: s.len() as i64 }] + char_words(s))[1 + i] == (Instr::Dd {
            value: s[i] as u32 as i32,
        }),
        layout_offset(seq![Instr::Dq { value: s.len() as i64 }] + char_words(s), 1 + i) == 8 + 4
            * i,
    decreases i,
{
    let record = seq![Instr::Dq { value: s.len() as i64 }] + char_words(s);
    assert(layout_offset(record, 1 + i) == layout_offset(record, i) + data_size(record[i]));
    assert(layout_offset(record, 0) == 0);
    if i > 0 {
        lemma_literal_layout(s, i - 1);
        assert(record[i] == (Instr::Dd { value: s[i - 1] as u32 as i32 }));
    } else {
        assert(record[0] == (Instr::Dq { value: s.len() as i64 }));
    }
}

} // verus!
