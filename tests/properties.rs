use compiler_course::{
    compile, compile_program, print, tokenize, CompilationContext, Operand, ParserError, Platform,
    Position, Program, Register, Statement, TokenKind,
};


#[test]
fn deterministic_output() {
    let source = "(define (f x) (if (zero? x) \"done\" (f (sub1 x)))) (match (f 3) (\"done\" 1) (_ 2))";
    let first = compile(source).unwrap();
    let second = compile(source).unwrap();
    assert_eq!(first, second);
}

#[test]
fn tail_calls_keep_the_stack_flat() {
    let shallow = lowest_stack("(define (f x) (if (zero? x) 42 (f (sub1 x)))) (f 10)");
    let deep = lowest_stack("(define (f x) (if (zero? x) 42 (f (sub1 x)))) (f 1000000)");
    assert_eq!(shallow, deep);
}

#[test]
fn non_tail_recursion_grows_the_stack() {
    let shallow = lowest_stack("(define (g x) (if (zero? x) 0 (add1 (g (sub1 x))))) (g 10)");
    let deep = lowest_stack("(define (g x) (if (zero? x) 0 (add1 (g (sub1 x))))) (g 100)");
    assert!(deep < shallow);
}

#[test]
fn ill_typed_operands_raise_errors() {
    for source in [
        "(car 5)",
        "(cdr #t)",
        "(unbox 1)",
        "(+ 1 #\\a)",
        "(- #f 1)",
        "(< 1 #t)",
        "(= #\\a 1)",
        "(zero? #f)",
        "(char->integer 5)",
        "(integer->char #\\a)",
        "(write-byte 256)",
        "(write-byte -1)",
        "(vector-ref 5 0)",
        "(string-ref (make-vector 2 1) 0)",
        "(make-vector -1 0)",
        "(make-string 2 3)",
        "(vector-set! (make-vector 2 0) -1 0)",
        "(let ((f 5)) (f 1))",
    ] {
        assert_eq!(run(source), Err(Error::RuntimeError), "{}", source);
    }
}

#[test]
fn error_stops_before_later_output() {
    assert_eq!(run("(begin (write-byte 97) (begin (car 5) (write-byte 98)))"), Err(Error::RuntimeError));
}

#[test]
fn vector_set_then_ref() {
    for i in 0..4 {
        let source = format!("(let ((v (make-vector 4 0))) (begin (vector-set! v {} 7) (vector-ref v {})))", i, i);
        assert_eq!(run(&source).unwrap(), "7");
    }
    assert_eq!(run("(let ((v (make-vector 2 0))) (vector-set! v 2 1))"), Err(Error::RuntimeError));
    assert_eq!(run("(vector-set! (make-vector 0 0) 0 1)"), Err(Error::RuntimeError));
}

#[test]
fn string_ref_of_literals() {
    let s = "héllo, wörld";
    for (i, c) in s.chars().enumerate() {
        let source = format!("(string-ref \"{}\" {})", s, i);
        assert_eq!(run(&source).unwrap(), format!("#\\{}", c));
    }
    assert_eq!(run("(string-ref \"\" 0)"), Err(Error::RuntimeError));
}

#[test]
fn string_ref_of_make_string() {
    for n in 1..5 {
        for i in 0..n {
            let source = format!("(string-ref (make-string {} #\\z) {})", n, i);
            assert_eq!(run(&source).unwrap(), "#\\z");
        }
        let source = format!("(string-ref (make-string {} #\\z) {})", n, n);
        assert_eq!(run(&source), Err(Error::RuntimeError));
    }
}

#[test]
fn match_returns_value_iff_pattern_matches() {
    assert_eq!(run("(match 5 (5 5) (_ #f))").unwrap(), "5");
    assert_eq!(run("(match 6 (5 6) (_ #f))").unwrap(), "#f");
    assert_eq!(run("(match #\\a (#\\a #\\a) (_ #f))").unwrap(), "#\\a");
    assert_eq!(run("(match #t (#f #t) (_ #f))").unwrap(), "#f");
    assert_eq!(run("(match \"ab\" (\"ab\" \"ab\") (_ #f))").unwrap(), "\"ab\"");
    assert_eq!(run("(match \"abc\" (\"ab\" \"abc\") (_ #f))").unwrap(), "#f");
    assert_eq!(run("(match (make-string 0 #\\a) (\"\" 1) (_ #f))").unwrap(), "1");
    assert_eq!(run("(match (make-string 0 #\\a) (\"a\" 1) (_ #f))").unwrap(), "#f");
    assert_eq!(run("(match (box 3) ((box x) x) (_ #f))").unwrap(), "3");
    assert_eq!(run("(match 3 ((box x) x) (_ #f))").unwrap(), "#f");
    assert_eq!(run("(match (cons 1 2) ((cons a b) (+ a b)) (_ #f))").unwrap(), "3");
    assert_eq!(run("(match (cons 1 (cons 2 ())) ((cons a (cons b ())) (- a b)) (_ #f))").unwrap(), "-1");
    assert_eq!(run("(match (cons 1 2) ((cons 2 b) b) (_ #f))").unwrap(), "#f");
    assert_eq!(run("(match (box 4) ((and (box x) y) (cons x y)) (_ #f))").unwrap(), "'(4 . #&4)");
    assert_eq!(run("(match () (() 1) (_ #f))").unwrap(), "1");
    assert_eq!(run("(match 9 (x x))").unwrap(), "9");
    assert_eq!(run("(match 9 (1 1))"), Err(Error::RuntimeError));
}

#[test]
fn match_arms_see_the_scrutinee_after_a_failed_arm() {
    let source = "(let ((y 10)) (match (cons 1 2) ((cons 5 q) q) ((cons a b) (+ y b))))";
    assert_eq!(run(source).unwrap(), "12");
}

#[test]
fn less_than_orders_first_before_second() {
    assert_eq!(run("(< 1 2)").unwrap(), "#t");
    assert_eq!(run("(< 2 1)").unwrap(), "#f");
    assert_eq!(run("(< 2 2)").unwrap(), "#f");
    assert_eq!(run("(= 2 2)").unwrap(), "#t");
}

#[test]
fn codepoint_boundaries() {
    assert_eq!(run("(char->integer (integer->char 55295))").unwrap(), "55295");
    assert_eq!(run("(integer->char 55296)"), Err(Error::RuntimeError));
    assert_eq!(run("(integer->char 57343)"), Err(Error::RuntimeError));
    assert_eq!(run("(char->integer (integer->char 57344))").unwrap(), "57344");
    assert_eq!(run("(char->integer (integer->char 1114111))").unwrap(), "1114111");
    assert_eq!(run("(integer->char 1114112)"), Err(Error::RuntimeError));
    assert_eq!(run("(integer->char -1)"), Err(Error::RuntimeError));
}

#[test]
fn eof_and_predicates() {
    assert_eq!(run("eof").unwrap(), "#<eof>");
    assert_eq!(run("(eof-object? (read-byte))").unwrap(), "#t");
    assert_eq!(run_with_stdin("(eof-object? (read-byte))", "x").unwrap(), "#f");
    assert_eq!(run_with_stdin("(read-byte)", "a").unwrap(), "97");
    assert_eq!(run("(cons? ())").unwrap(), "#f");
    assert_eq!(run("()").unwrap(), "'()");
}

#[test]
fn shadowed_names_resolve_to_the_nearest_binding() {
    assert_eq!(run("(let ((x 1)) (let ((x 2)) x))").unwrap(), "2");
    assert_eq!(run("(let ((x 1)) (let ((x (+ x 1))) x))").unwrap(), "2");
}

#[test]
fn functions_with_odd_names_and_captures() {
    let source = "(define (add-one x) (+ x 1)) (define (twice_ x) (add-one (add-one x))) (twice_ 40)";
    assert_eq!(run(source).unwrap(), "42");
    let text = compile(source).unwrap();
    assert!(text.contains("lambda_add_45_one:"));
    assert!(text.contains("lambda_twice__:"));
}

#[test]
fn unbound_variable_is_a_compile_error() {
    assert!(matches!(compile("(add1 y)"), Err(ParserError::CompileError(_))));
    assert!(matches!(compile("(define (f x) (g x)) (f 1)"), Err(ParserError::CompileError(_))));
}

#[test]
fn integer_literal_out_of_range_is_a_compile_error() {
    assert!(matches!(compile("576460752303423488"), Err(ParserError::CompileError(_))));
    assert_eq!(run("576460752303423487").unwrap(), "576460752303423487");
    assert_eq!(run("-576460752303423488").unwrap(), "-576460752303423488");
}

#[test]
fn parse_errors_carry_offsets() {
    match compile("(add1 1") {
        Err(ParserError::SexpParsingError(e)) => assert_eq!(e.position, Position::new(0)),
        other => panic!("{:?}", other),
    }
    match compile("(add1 1))") {
        Err(ParserError::SexpParsingError(e)) => assert_eq!(e.position, Position::new(8)),
        other => panic!("{:?}", other),
    }
    match compile("(if 1 2)") {
        Err(ParserError::AstPasringError(e)) => assert_eq!(e.position, Position::new(1)),
        other => panic!("{:?}", other),
    }
    match compile("") {
        Err(ParserError::AstPasringError(e)) => assert_eq!(e.position, Position::new(0)),
        other => panic!("{:?}", other),
    }
    match compile("  \"abc") {
        Err(ParserError::InvalidToken(e)) => assert_eq!(e.position, Position::new(2)),
        other => panic!("{:?}", other),
    }
    match compile("99999999999999999999") {
        Err(ParserError::InvalidToken(e)) => assert_eq!(e.position, Position::new(0)),
        other => panic!("{:?}", other),
    }
}

#[test]
fn tokens_and_their_offsets() {
    let tokens = tokenize("(f -12 #t #\\x \"a\\\"b\" é sym)").unwrap();
    let kinds: Vec<&TokenKind> = tokens.iter().map(|t| &t.token).collect();
    assert_eq!(
        kinds,
        vec![
            &TokenKind::ParenOpen,
            &TokenKind::Symbol("f".to_string()),
            &TokenKind::Integer(-12),
            &TokenKind::Boolean(true),
            &TokenKind::Character('x'),
            &TokenKind::String("a\"b".to_string()),
            &TokenKind::Symbol("é".to_string()),
            &TokenKind::Symbol("sym".to_string()),
            &TokenKind::ParenClose,
        ]
    );
    let offsets: Vec<usize> = tokens.iter().map(|t| t.position.offset).collect();
    assert_eq!(offsets, vec![0, 1, 3, 7, 10, 14, 21, 24, 27]);
    assert_eq!(tokenize("-").unwrap()[0].token, TokenKind::Symbol("-".to_string()));
    assert_eq!(tokenize("#\\ ").unwrap()[0].token, TokenKind::Character(' '));
    assert!(tokenize("").unwrap().is_empty());
}

#[test]
fn printed_assembly() {
    let text = compile("42").unwrap();
    assert!(text.starts_with("\tdefault rel\n\tsection .text\n\tglobal entry\n\textern read_byte\n"));
    assert!(text.contains("\n\tmov rax, 672\n"));
    assert!(text.contains("\nerr:\n"));
    let text = compile("\"ab\"").unwrap();
    assert!(text.contains("\tlea rax, [string_data_0 + 4]\n"));
    assert!(text.contains("\tsection .data align=8\nstring_data_0:\n\tdq 2\n\tdd 97\n\tdd 98\n"));
    let program = compile_program("(let ((x 1)) x)").unwrap();
    let mac = print(&program, &CompilationContext { platform: Platform::MacOS });
    assert!(mac.contains("\tglobal _entry\n"));
    assert!(mac.contains("\n_entry:\n"));
    assert!(mac.contains("\tmov rax, [rsp + 0]\n"));
    assert!(mac.contains("\n_entry:\n"));
    assert!(mac.contains("\textern _raise_error\n"));
    assert!(mac.contains("\tcall _raise_error\n"));
    assert!(mac.contains("\nerr:\n"));
    assert!(!mac.contains("\n_err:"));
}

#[test]
fn printed_operands() {
    let program = Program {
        statements: vec![
            Statement::Mov { dest: Operand::Offset(Register::RSP, -16), src: Operand::Immediate(-5) },
            Statement::Cmp { dest: Operand::Offset(Register::R8, 8), src: Operand::Register(Register::R9D) },
            Statement::JmpRegister(Register::RAX),
            Statement::Dd { value: -1 },
            Statement::Ret,
        ],
    };
    let text = print(&program, &CompilationContext { platform: Platform::Linux });
    assert_eq!(
        text,
        "\tdefault rel\n\tsection .text\n\tmov [rsp - 16], -5\n\tcmp [r8 + 8], r9d\n\tjmp rax\n\tdd -1\n\tret\n"
    );
}

#[test]
fn strings_with_odd_lengths_stay_aligned() {
    assert_eq!(run("(cons \"abc\" (cons \"de\" (make-string 3 #\\q)))").unwrap(), "'(\"abc\" \"de\" . \"qqq\")");
    assert_eq!(run("(cons (make-string 1 #\\a) (box 1))").unwrap(), "'(\"a\" . #&1)");
}

#[test]
fn same_literal_shares_one_record() {
    let text = compile("(cons \"x\" \"x\")").unwrap();
    assert_eq!(text.matches("string_data_").count(), 3);
}

const CODE_BASE: i64 = 0x4000_0000;
const DATA_BASE: usize = 0x1000;
const HEAP_BASE: usize = 0x10_0000;
const MEMORY_SIZE: usize = 0x400_0000;
const RETURN_SENTINEL: i64 = 0x7777_0000;
const STEP_LIMIT: u64 = 200_000_000;

#[derive(Debug, PartialEq)]
enum Error {
    ParserError(ParserError),
    RuntimeError,
}

impl From<ParserError> for Error {
    fn from(err: ParserError) -> Self {
        Error::ParserError(err)
    }
}

/// A small x86-64 machine that runs the compiler's pseudo-instructions, with the runtime's
/// `read_byte`, `peek_byte`, `write_byte` and `raise_error`.
struct Machine {
    regs: [i64; 21],
    memory: Vec<u8>,
    flags: (i64, i64),
    input: Vec<u8>,
    input_pos: usize,
    output: Vec<u8>,
    lowest_rsp: i64,
}

fn reg_index(r: &Register) -> (usize, bool) {
    match r {
        Register::RAX => (0, false),
        Register::EAX => (0, true),
        Register::RBX => (1, false),
        Register::RDI => (2, false),
        Register::RSP => (3, false),
        Register::R1 => (4, false),
        Register::R2 => (5, false),
        Register::R3 => (6, false),
        Register::R4 => (7, false),
        Register::R5 => (8, false),
        Register::R6 => (9, false),
        Register::R7 => (10, false),
        Register::R8 => (11, false),
        Register::R9 => (12, false),
        Register::R9D => (12, true),
        Register::R10 => (13, false),
        Register::R11 => (14, false),
        Register::R12 => (15, false),
        Register::R13 => (16, false),
        Register::R14 => (17, false),
        Register::R15 => (18, false),
    }
}

fn is_narrow(o: &Operand) -> bool {
    match o {
        Operand::Register(r) => reg_index(r).1,
        _ => false,
    }
}

impl Machine {
    fn load(&self, addr: i64, bytes: usize) -> i64 {
        let a = addr as usize;
        assert!(a + bytes <= MEMORY_SIZE, "load out of memory at {:#x}", addr);
        let mut v: u64 = 0;
        for i in 0..bytes {
            v |= (self.memory[a + i] as u64) << (8 * i);
        }
        v as i64
    }

    fn store(&mut self, addr: i64, bytes: usize, value: i64) {
        let a = addr as usize;
        assert!(a + bytes <= MEMORY_SIZE, "store out of memory at {:#x}", addr);
        for i in 0..bytes {
            self.memory[a + i] = ((value as u64) >> (8 * i)) as u8;
        }
    }

    fn read(&self, o: &Operand, bytes: usize) -> i64 {
        match o {
            Operand::Immediate(v) => *v,
            Operand::Register(r) => {
                let (i, narrow) = reg_index(r);
                if narrow { self.regs[i] as u32 as i64 } else { self.regs[i] }
            }
            Operand::Offset(r, off) => {
                let base = self.regs[reg_index(r).0];
                self.load(base + off, bytes)
            }
        }
    }

    fn write(&mut self, o: &Operand, bytes: usize, value: i64) {
        match o {
            Operand::Register(r) => {
                let (i, narrow) = reg_index(r);
                self.regs[i] = if narrow { value as u32 as i64 } else { value };
            }
            Operand::Offset(r, off) => {
                let base = self.regs[reg_index(r).0];
                self.store(base + off, bytes, value);
            }
            Operand::Immediate(_) => panic!("write to an immediate"),
        }
    }

    fn push(&mut self, value: i64) {
        self.regs[3] -= 8;
        self.lowest_rsp = self.lowest_rsp.min(self.regs[3]);
        let sp = self.regs[3];
        self.store(sp, 8, value);
    }

    fn pop(&mut self) -> i64 {
        let v = self.load(self.regs[3], 8);
        self.regs[3] += 8;
        v
    }
}

struct Outcome {
    value: i64,
    machine: Machine,
}

fn execute(program: &Program, input: &str) -> Result<Outcome, Error> {
    let statements = &program.statements;
    let mut machine = Machine {
        regs: [0; 21],
        memory: vec![0; MEMORY_SIZE],
        flags: (0, 0),
        input: input.as_bytes().to_vec(),
        input_pos: 0,
        output: vec![],
        lowest_rsp: MEMORY_SIZE as i64,
    };
    // Lay out the labels: code labels by index, data labels by address.
    let mut labels = std::collections::HashMap::new();
    let mut in_data = false;
    let mut data_pos = DATA_BASE;
    let mut entry = None;
    for (i, s) in statements.iter().enumerate() {
        match s {
            Statement::Data => in_data = true,
            Statement::Text => in_data = false,
            Statement::Label { name } => {
                let addr = if in_data { data_pos as i64 } else { CODE_BASE + 16 * i as i64 };
                assert!(labels.insert(name.clone(), addr).is_none(), "duplicate label {}", name);
                if name == "entry" {
                    entry = Some(i);
                }
            }
            Statement::Dq { value } if in_data => {
                machine.store(data_pos as i64, 8, *value);
                data_pos += 8;
            }
            Statement::Dd { value } if in_data => {
                machine.store(data_pos as i64, 4, *value as i64);
                data_pos += 4;
            }
            _ => {}
        }
    }
    let code_index = |addr: i64| -> usize {
        assert!(addr >= CODE_BASE && (addr - CODE_BASE) % 16 == 0, "bad code address {:#x}", addr);
        ((addr - CODE_BASE) / 16) as usize
    };
    let target = |name: &String| -> i64 { *labels.get(name).unwrap_or_else(|| panic!("no label {}", name)) };

    machine.regs[3] = (MEMORY_SIZE - 64) as i64;
    machine.regs[2] = HEAP_BASE as i64;
    machine.push(RETURN_SENTINEL);
    let mut pc = entry.expect("no entry label");
    let mut steps: u64 = 0;
    loop {
        steps += 1;
        assert!(steps < STEP_LIMIT, "step limit reached");
        let s = &statements[pc];
        pc += 1;
        match s {
            Statement::Global { .. }
            | Statement::Extern { .. }
            | Statement::Label { .. }
            | Statement::Text => {}
            Statement::Data | Statement::Dq { .. } | Statement::Dd { .. } => {
                panic!("ran into the data section")
            }
            Statement::Mov { dest, src } => {
                let bytes = if is_narrow(dest) || is_narrow(src) { 4 } else { 8 };
                let v = machine.read(src, bytes);
                machine.write(dest, bytes, v);
            }
            Statement::And { dest, src } => {
                let v = machine.read(dest, 8) & machine.read(src, 8);
                machine.write(dest, 8, v);
            }
            Statement::Or { dest, src } => {
                let v = machine.read(dest, 8) | machine.read(src, 8);
                machine.write(dest, 8, v);
            }
            Statement::Xor { dest, src } => {
                let v = machine.read(dest, 8) ^ machine.read(src, 8);
                machine.write(dest, 8, v);
            }
            Statement::Sar { dest, src } => {
                let v = machine.read(dest, 8) >> machine.read(src, 8);
                machine.write(dest, 8, v);
            }
            Statement::Sal { dest, src } => {
                let v = machine.read(dest, 8).wrapping_shl(machine.read(src, 8) as u32);
                machine.write(dest, 8, v);
            }
            Statement::Add { dest, src } => {
                let v = machine.read(dest, 8).wrapping_add(machine.read(src, 8));
                machine.write(dest, 8, v);
            }
            Statement::Sub { dest, src } => {
                let v = machine.read(dest, 8).wrapping_sub(machine.read(src, 8));
                machine.write(dest, 8, v);
            }
            Statement::Cmp { dest, src } => {
                if is_narrow(dest) || is_narrow(src) {
                    machine.flags = (machine.read(dest, 4) as i32 as i64, machine.read(src, 4) as i32 as i64);
                } else {
                    machine.flags = (machine.read(dest, 8), machine.read(src, 8));
                }
            }
            Statement::Cmove { dest, src } => {
                if machine.flags.0 == machine.flags.1 {
                    let v = machine.read(src, 8);
                    machine.write(dest, 8, v);
                }
            }
            Statement::Cmovl { dest, src } => {
                if machine.flags.0 < machine.flags.1 {
                    let v = machine.read(src, 8);
                    machine.write(dest, 8, v);
                }
            }
            Statement::Jmp { label } => pc = code_index(target(label)),
            Statement::Je { label } => {
                if machine.flags.0 == machine.flags.1 {
                    pc = code_index(target(label));
                }
            }
            Statement::Jne { label } => {
                if machine.flags.0 != machine.flags.1 {
                    pc = code_index(target(label));
                }
            }
            Statement::Jg { label } => {
                if machine.flags.0 > machine.flags.1 {
                    pc = code_index(target(label));
                }
            }
            Statement::Jl { label } => {
                if machine.flags.0 < machine.flags.1 {
                    pc = code_index(target(label));
                }
            }
            Statement::JmpRegister(r) => pc = code_index(machine.regs[reg_index(r).0]),
            Statement::Push { src } => {
                let v = machine.read(src, 8);
                machine.push(v);
            }
            Statement::Pop { dest } => {
                let v = machine.pop();
                machine.write(dest, 8, v);
            }
            Statement::Lea { dest, label } => {
                let v = target(label);
                machine.write(dest, 8, v);
            }
            Statement::LeaArithmetic { dest, label, offset } => {
                let v = target(label) + offset;
                machine.write(dest, 8, v);
            }
            Statement::Call { label } => match label.as_str() {
                "read_byte" | "peek_byte" => {
                    let v = if machine.input_pos < machine.input.len() {
                        (machine.input[machine.input_pos] as i64) << 4
                    } else {
                        88
                    };
                    if label == "read_byte" && machine.input_pos < machine.input.len() {
                        machine.input_pos += 1;
                    }
                    machine.regs[0] = v;
                }
                "write_byte" => {
                    let b = machine.regs[2] as u8;
                    machine.output.push(b);
                }
                "raise_error" => return Err(Error::RuntimeError),
                other => panic!("unknown external {}", other),
            },
            Statement::Ret => {
                let addr = machine.pop();
                if addr == RETURN_SENTINEL {
                    return Ok(Outcome { value: machine.regs[0], machine });
                }
                pc = code_index(addr);
            }
        }
    }
}

/// The runtime's display of a value, without the leading quote.
fn display_inner(m: &Machine, v: i64) -> String {
    if v & 0xf == 0 {
        return (v >> 4).to_string();
    }
    if v & 0x1f == 8 {
        return format!("#\\{}", char::from_u32((v >> 5) as u32).unwrap());
    }
    match v {
        24 => return "#t".to_string(),
        56 => return "#f".to_string(),
        88 => return "#<eof>".to_string(),
        120 => return "#<void>".to_string(),
        152 => return "()".to_string(),
        3 => return "#()".to_string(),
        4 => return "\"\"".to_string(),
        _ => {}
    }
    let addr = v & !7;
    match v & 7 {
        1 => format!("#&{}", display_inner(m, m.load(addr, 8))),
        2 => {
            let mut parts = vec![display_inner(m, m.load(addr + 8, 8))];
            let mut rest = m.load(addr, 8);
            while rest & 7 == 2 {
                let a = rest & !7;
                parts.push(display_inner(m, m.load(a + 8, 8)));
                rest = m.load(a, 8);
            }
            if rest == 152 {
                format!("({})", parts.join(" "))
            } else {
                format!("({} . {})", parts.join(" "), display_inner(m, rest))
            }
        }
        3 => {
            let n = m.load(addr, 8);
            let parts: Vec<String> = (0..n).map(|i| display_inner(m, m.load(addr + 8 + 8 * i, 8))).collect();
            format!("#({})", parts.join(" "))
        }
        4 => {
            let n = m.load(addr, 8);
            let s: String = (0..n).map(|i| char::from_u32(m.load(addr + 8 + 4 * i, 4) as u32).unwrap()).collect();
            format!("\"{}\"", s)
        }
        5 => "#<procedure>".to_string(),
        _ => panic!("not a value: {:#x}", v),
    }
}

fn display(m: &Machine, v: i64) -> String {
    if v == 120 {
        return String::new();
    }
    let quoted = v == 152 || matches!(v & 7, 1 | 2 | 3);
    let inner = display_inner(m, v);
    if quoted { format!("'{}", inner) } else { inner }
}

fn run_with_stdin(source: &str, input: &str) -> Result<String, Error> {
    let text = compile(source)?;
    assert!(text.starts_with("\tdefault rel\n"));
    let program = compile_program(source)?;
    let outcome = execute(&program, input)?;
    let mut out = String::from_utf8(outcome.machine.output.clone()).expect("invalid utf8");
    out.push_str(&display(&outcome.machine, outcome.value));
    Ok(out)
}

fn run(source: &str) -> Result<String, Error> {
    run_with_stdin(source, "")
}

/// The lowest stack address that a run reached.
fn lowest_stack(source: &str) -> i64 {
    let program = compile_program(source).unwrap();
    let outcome = execute(&program, "").unwrap();
    outcome.machine.lowest_rsp
}
