use compiler_course::{
    compile, compile_program, Operand, ParserError, Position, Program, Register, Statement,
};

#[test]
fn negative_number() {
    let input = "-42";
    let result = run(input).unwrap();
    let expected = "-42";
    assert_eq!(result, expected);
}

#[test]
fn it_adds_and_subtracts() {
    let input = "(add1 (sub1 (add1 42)))";
    let result = run(input).unwrap();
    let expected = "43";
    assert_eq!(result, expected);
}

#[test]
fn plus_operator() {
    let input = "(+ 1 2)";
    let result = run(input).unwrap();
    let expected = "3";
    assert_eq!(result, expected);
}

#[test]
fn minus_operator() {
    let input = "(- -2 -1)";
    let result = run(input).unwrap();
    let expected = "-1";
    assert_eq!(result, expected);
}

#[test]
fn invalid_syntax() {
    let input = "((add1 (sub1 (add1 42))))";
    let result = run(input);

    match result {
        Ok(_) => panic!("Expected a parser error."),

        Err(Error::ParserError(ParserError::AstPasringError(err))) => {
            assert_eq!(err.position, Position::new(1));
        }

        Err(err) => {
            panic!("Expected a AST parsing error. Got: {:?}", err);
        }
    }
}

#[test]
fn if_zero() {
    let input = "(if (zero? 0) 42 43)";
    let result = run(input).unwrap();
    let expected = "42";
    assert_eq!(result, expected);
}

#[test]
fn if_nonzero() {
    let input = "(if (zero? 1) 42 43)";
    let result = run(input).unwrap();
    let expected = "43";
    assert_eq!(result, expected);
}

#[test]
fn nested_if() {
    let input = "(add1 (if (zero? (if (zero? 1) 0 43)) -21 18))";
    let result = run(input).unwrap();
    let expected = "19";
    assert_eq!(result, expected);
}

#[test]
fn if_false() {
    let input = "(if #f 42 43)";
    let result = run(input).unwrap();
    let expected = "43";
    assert_eq!(result, expected);
}

#[test]
fn if_true() {
    let input = "(if #t 42 43)";
    let result = run(input).unwrap();
    let expected = "42";
    assert_eq!(result, expected);
}

#[test]
fn if_non_boolean() {
    let input = "(if -1 42 43)";
    let result = run(input).unwrap();
    let expected = "42";
    assert_eq!(result, expected);
}

#[test]
fn is_char() {
    let input = "(char? #\\a)";
    let result = run(input).unwrap();
    let expected = "#t";
    assert_eq!(result, expected);
}

#[test]
fn is_not_char() {
    let input = "(char? 42)";
    let result = run(input).unwrap();
    let expected = "#f";
    assert_eq!(result, expected);
}

#[test]
fn int_to_char() {
    let input = "(integer->char 97)";
    let result = run(input).unwrap();
    let expected = "#\\a";
    assert_eq!(result, expected);
}

#[test]
fn char_to_int() {
    let input = "(char->integer #\\a)";
    let result = run(input).unwrap();
    let expected = "97";
    assert_eq!(result, expected);
}

#[test]
fn write_byte() {
    let input = "(write-byte 97)";
    let result = run(input).unwrap();
    let expected = "a";
    assert_eq!(result, expected);
}

#[test]
fn begin() {
    let input = "(begin (write-byte 97) (write-byte 98))";
    let result = run(input).unwrap();
    let expected = "ab";
    assert_eq!(result, expected);
}

#[test]
fn read_void() {
    let input = "(read-byte)";
    let result = run(input).unwrap();
    let expected = "#<eof>";
    assert_eq!(result, expected);
}

#[test]
fn echo_back() {
    let source = "(write-byte (read-byte))";
    let input = "abc";
    let result = run_with_stdin(source, input).unwrap();
    let expected = "a";
    assert_eq!(result, expected);
}

#[test]
fn peek_byte() {
    let source = "(begin (write-byte (peek-byte)) (write-byte (peek-byte)))";
    let input = "abc";
    let result = run_with_stdin(source, input).unwrap();
    let expected = "aa";
    assert_eq!(result, expected);
}

#[test]
fn add_invalid_type() {
    let input = "(add1 #\\a)";
    let result = run(input).unwrap_err();
    assert_eq!(result, Error::RuntimeError);
}

#[test]
fn sub_invalid_type() {
    let input = "(sub1 #\\a)";
    let result = run(input).unwrap_err();
    assert_eq!(result, Error::RuntimeError);
}

#[test]
fn invalid_codepoint_to_char() {
    let input = "(integer->char 99999999)";
    let result = run(input).unwrap_err();
    assert_eq!(result, Error::RuntimeError);
}

#[test]
fn let_expression() {
    let input = "(let ((x 42)) x)";
    let result = run(input).unwrap();
    let expected = "42";
    assert_eq!(result, expected);
}

#[test]
fn two_variables() {
    let input = "(let ((x 42)) (let ((y 43)) x))";
    let result = run(input).unwrap();
    let expected = "42";
    assert_eq!(result, expected);
}

#[test]
fn write_two_variables() {
    let input = "(let ((x 97)) (let ((y 98)) (begin (write-byte x) (write-byte y))))";
    let result = run(input).unwrap();
    let expected = "ab";
    assert_eq!(result, expected);
}

#[test]
fn add_two_variables() {
    let input = "(let ((x 42)) (let ((y 1)) (+ x y)))";
    let result = run(input).unwrap();
    let expected = "43";
    assert_eq!(result, expected);
}

#[test]
fn box_expression() {
    let input = "(box 42)";
    let result = run(input).unwrap();
    let expected = "'#&42";
    assert_eq!(result, expected);
}

#[test]
fn unbox() {
    let input = "(unbox (box 42))";
    let result = run(input).unwrap();
    let expected = "42";
    assert_eq!(result, expected);
}

#[test]
fn is_box() {
    let input = "(box? (box 42))";
    let result = run(input).unwrap();
    let expected = "#t";
    assert_eq!(result, expected);
}

#[test]
fn is_not_box() {
    let input = "(box? 42)";
    let result = run(input).unwrap();
    let expected = "#f";
    assert_eq!(result, expected);
}

#[test]
fn cons() {
    let input = "(cons 42 (cons 43 ()))";
    let result = run(input).unwrap();
    let expected = "'(42 43)";
    assert_eq!(result, expected);
}

#[test]
fn car() {
    let input = "(car (cons 42 (cons 43 ())))";
    let result = run(input).unwrap();
    let expected = "42";
    assert_eq!(result, expected);
}

#[test]
fn cdr() {
    let input = "(cdr (cons 42 (cons 43 ())))";
    let result = run(input).unwrap();
    let expected = "'(43)";
    assert_eq!(result, expected);
}

#[test]
fn is_cons() {
    let input = "(cons? (cons 42 (cons 43 ())))";
    let result = run(input).unwrap();
    let expected = "#t";
    assert_eq!(result, expected);
}

#[test]
fn is_not_cons() {
    let input = "(cons? 42)";
    let result = run(input).unwrap();
    let expected = "#f";
    assert_eq!(result, expected);
}

#[test]
fn make_vector() {
    let input = "(make-vector 3 42)";
    let result = run(input).unwrap();
    let expected = "'#(42 42 42)";
    assert_eq!(result, expected);
}

#[test]
fn is_vector() {
    let input = "(vector? (make-vector 3 42))";
    let result = run(input).unwrap();
    let expected = "#t";
    assert_eq!(result, expected);
}

#[test]
fn is_not_vector() {
    let input = "(vector? 42)";
    let result = run(input).unwrap();
    let expected = "#f";
    assert_eq!(result, expected);
}

#[test]
fn vector_ref() {
    let input = "(vector-ref (make-vector 3 42) 1)";
    let result = run(input).unwrap();
    let expected = "42";
    assert_eq!(result, expected);
}

#[test]
fn vector_ref_out_of_bounds() {
    let input = "(vector-ref (make-vector 3 42) 3)";
    let result = run(input).unwrap_err();
    assert_eq!(result, Error::RuntimeError);
}

#[test]
fn vector_set() {
    let input = "(let ((v (make-vector 3 42))) (begin (vector-set! v 1 43) v))";
    let result = run(input).unwrap();
    let expected = "'#(42 43 42)";
    assert_eq!(result, expected);
}

#[test]
fn empty_vector() {
    let input = "(make-vector 0 42)";
    let result = run(input).unwrap();
    let expected = "'#()";
    assert_eq!(result, expected);
}

#[test]
fn make_string() {
    let input = "(make-string 3 #\\a)";
    let result = run(input).unwrap();
    let expected = "\"aaa\"";
    assert_eq!(result, expected);
}

#[test]
fn is_string() {
    let input = "(string? (make-string 3 #\\a))";
    let result = run(input).unwrap();
    let expected = "#t";
    assert_eq!(result, expected);
}

#[test]
fn is_not_string() {
    let input = "(string? 42)";
    let result = run(input).unwrap();
    let expected = "#f";
    assert_eq!(result, expected);
}

#[test]
fn string_literal() {
    let input = "\"abc\"";
    let result = run(input).unwrap();
    let expected = "\"abc\"";
    assert_eq!(result, expected);
}

#[test]
fn string_ref() {
    let input = "(string-ref \"abc\" 1)";
    let result = run(input).unwrap();
    let expected = "#\\b";
    assert_eq!(result, expected);
}

#[test]
fn string_out_of_bounds() {
    let input = "(string-ref \"abc\" 3)";
    let result = run(input).unwrap_err();
    assert_eq!(result, Error::RuntimeError);
}

#[test]
fn empty_string() {
    let input = "(make-string 0 #\\a)";
    let result = run(input).unwrap();
    let expected = "\"\"";
    assert_eq!(result, expected);
}

#[test]
fn empty_string_literal() {
    let input = "\"\"";
    let result = run(input).unwrap();
    let expected = "\"\"";
    assert_eq!(result, expected);
}

#[test]
fn function_call() {
    let input = "(define (f x y) (+ x y)) (f 42 1)";
    let result = run(input).unwrap();
    let expected = "43";
    assert_eq!(result, expected);
}

#[test]
fn several_function_definitions() {
    let input = "(define (f x y) (+ x y)) (define (g x) (add1 x )) (f 42 (g 7))";
    let result = run(input).unwrap();
    let expected = "50";
    assert_eq!(result, expected);
}

#[test]
fn recursive_function() {
    let input = "
        (define (tri x)
            (if (zero? x)
                0
                (+ x (tri (sub1 x)))))
        (tri 10)";

    let result = run(input).unwrap();
    let expected = "55";
    assert_eq!(result, expected);
}

#[test]
fn mutually_recursive_function() {
    let input = "
        (define (even? x)
            (if (zero? x)
                #t
                (odd? (sub1 x))))
        (define (odd? x)
            (if (zero? x)
                #f
                (even? (sub1 x))))
        (even? 101)";

    let result = run(input).unwrap();
    let expected = "#f";
    assert_eq!(result, expected);
}

#[test]
fn tail_call() {
    let input = "
        (define (f x)
            (if (zero? x)
                42
                (f (sub1 x))))
        (f 10000)";

    let result = run(input).unwrap();
    let expected = "42";
    assert_eq!(result, expected);
}

const CODE_BASE: i64 = 0x4000_0000;
const DATA_BASE: usize = 0x1000;
const HEAP_BASE: usize = 0x10_0000;
const MEMORY_SIZE: usize = 0x400_0000;
const RETURN_SENTINEL: i64 = 0x7777_0000;
const STEP_LIMIT: u64 = 200_000_000;

#[derive(Debug, PartialEq)]
enum Error {
    ParserError(ParserError),
    RuntimeError,
}

impl From<ParserError> for Error {
    fn from(err: ParserError) -> Self {
        Error::ParserError(err)
    }
}

/// A small x86-64 machine that runs the compiler's pseudo-instructions, with the runtime's
/// `read_byte`, `peek_byte`, `write_byte` and `raise_error`.
struct Machine {
    regs: [i64; 21],
    memory: Vec<u8>,
    flags: (i64, i64),
    input: Vec<u8>,
    input_pos: usize,
    output: Vec<u8>,
    lowest_rsp: i64,
}

fn reg_index(r: &Register) -> (usize, bool) {
    match r {
        Register::RAX => (0, false),
        Register::EAX => (0, true),
        Register::RBX => (1, false),
        Register::RDI => (2, false),
        Register::RSP => (3, false),
        Register::R1 => (4, false),
        Register::R2 => (5, false),
        Register::R3 => (6, false),
        Register::R4 => (7, false),
        Register::R5 => (8, false),
        Register::R6 => (9, false),
        Register::R7 => (10, false),
        Register::R8 => (11, false),
        Register::R9 => (12, false),
        Register::R9D => (12, true),
        Register::R10 => (13, false),
        Register::R11 => (14, false),
        Register::R12 => (15, false),
        Register::R13 => (16, false),
        Register::R14 => (17, false),
        Register::R15 => (18, false),
    }
}

fn is_narrow(o: &Operand) -> bool {
    match o {
        Operand::Register(r) => reg_index(r).1,
        _ => false,
    }
}

impl Machine {
    fn load(&self, addr: i64, bytes: usize) -> i64 {
        let a = addr as usize;
        assert!(a + bytes <= MEMORY_SIZE, "load out of memory at {:#x}", addr);
        let mut v: u64 = 0;
        for i in 0..bytes {
            v |= (self.memory[a + i] as u64) << (8 * i);
        }
        v as i64
    }

    fn store(&mut self, addr: i64, bytes: usize, value: i64) {
        let a = addr as usize;
        assert!(a + bytes <= MEMORY_SIZE, "store out of memory at {:#x}", addr);
        for i in 0..bytes {
            self.memory[a + i] = ((value as u64) >> (8 * i)) as u8;
        }
    }

    fn read(&self, o: &Operand, bytes: usize) -> i64 {
        match o {
            Operand::Immediate(v) => *v,
            Operand::Register(r) => {
                let (i, narrow) = reg_index(r);
                if narrow { self.regs[i] as u32 as i64 } else { self.regs[i] }
            }
            Operand::Offset(r, off) => {
                let base = self.regs[reg_index(r).0];
                self.load(base + off, bytes)
            }
        }
    }

    fn write(&mut self, o: &Operand, bytes: usize, value: i64) {
        match o {
            Operand::Register(r) => {
                let (i, narrow) = reg_index(r);
                self.regs[i] = if narrow { value as u32 as i64 } else { value };
            }
            Operand::Offset(r, off) => {
                let base = self.regs[reg_index(r).0];
                self.store(base + off, bytes, value);
            }
            Operand::Immediate(_) => panic!("write to an immediate"),
        }
    }

    fn push(&mut self, value: i64) {
        self.regs[3] -= 8;
        self.lowest_rsp = self.lowest_rsp.min(self.regs[3]);
        let sp = self.regs[3];
        self.store(sp, 8, value);
    }

    fn pop(&mut self) -> i64 {
        let v = self.load(self.regs[3], 8);
        self.regs[3] += 8;
        v
    }
}

struct Outcome {
    value: i64,
    machine: Machine,
}

fn execute(program: &Program, input: &str) -> Result<Outcome, Error> {
    let statements = &program.statements;
    let mut machine = Machine {
        regs: [0; 21],
        memory: vec![0; MEMORY_SIZE],
        flags: (0, 0),
        input: input.as_bytes().to_vec(),
        input_pos: 0,
        output: vec![],
        lowest_rsp: MEMORY_SIZE as i64,
    };
    // Lay out the labels: code labels by index, data labels by address.
    let mut labels = std::collections::HashMap::new();
    let mut in_data = false;
    let mut data_pos = DATA_BASE;
    let mut entry = None;
    for (i, s) in statements.iter().enumerate() {
        match s {
            Statement::Data => in_data = true,
            Statement::Text => in_data = false,
            Statement::Label { name } => {
                let addr = if in_data { data_pos as i64 } else { CODE_BASE + 16 * i as i64 };
                assert!(labels.insert(name.clone(), addr).is_none(), "duplicate label {}", name);
                if name == "entry" {
                    entry = Some(i);
                }
            }
            Statement::Dq { value } if in_data => {
                machine.store(data_pos as i64, 8, *value);
                data_pos += 8;
            }
            Statement::Dd { value } if in_data => {
                machine.store(data_pos as i64, 4, *value as i64);
                data_pos += 4;
            }
            _ => {}
        }
    }
    let code_index = |addr: i64| -> usize {
        assert!(addr >= CODE_BASE && (addr - CODE_BASE) % 16 == 0, "bad code address {:#x}", addr);
        ((addr - CODE_BASE) / 16) as usize
    };
    let target = |name: &String| -> i64 { *labels.get(name).unwrap_or_else(|| panic!("no label {}", name)) };

    machine.regs[3] = (MEMORY_SIZE - 64) as i64;
    machine.regs[2] = HEAP_BASE as i64;
    machine.push(RETURN_SENTINEL);
    let mut pc = entry.expect("no entry label");
    let mut steps: u64 = 0;
    loop {
        steps += 1;
        assert!(steps < STEP_LIMIT, "step limit reached");
        let s = &statements[pc];
        pc += 1;
        match s {
            Statement::Global { .. }
            | Statement::Extern { .. }
            | Statement::Label { .. }
            | Statement::Text => {}
            Statement::Data | Statement::Dq { .. } | Statement::Dd { .. } => {
                panic!("ran into the data section")
            }
            Statement::Mov { dest, src } => {
                let bytes = if is_narrow(dest) || is_narrow(src) { 4 } else { 8 };
                let v = machine.read(src, bytes);
                machine.write(dest, bytes, v);
            }
            Statement::And { dest, src } => {
                let v = machine.read(dest, 8) & machine.read(src, 8);
                machine.write(dest, 8, v);
            }
            Statement::Or { dest, src } => {
                let v = machine.read(dest, 8) | machine.read(src, 8);
                machine.write(dest, 8, v);
            }
            Statement::Xor { dest, src } => {
                let v = machine.read(dest, 8) ^ machine.read(src, 8);
                machine.write(dest, 8, v);
            }
            Statement::Sar { dest, src } => {
                let v = machine.read(dest, 8) >> machine.read(src, 8);
                machine.write(dest, 8, v);
            }
            Statement::Sal { dest, src } => {
                let v = machine.read(dest, 8).wrapping_shl(machine.read(src, 8) as u32);
                machine.write(dest, 8, v);
            }
            Statement::Add { dest, src } => {
                let v = machine.read(dest, 8).wrapping_add(machine.read(src, 8));
                machine.write(dest, 8, v);
            }
            Statement::Sub { dest, src } => {
                let v = machine.read(dest, 8).wrapping_sub(machine.read(src, 8));
                machine.write(dest, 8, v);
            }
            Statement::Cmp { dest, src } => {
                if is_narrow(dest) || is_narrow(src) {
                    machine.flags = (machine.read(dest, 4) as i32 as i64, machine.read(src, 4) as i32 as i64);
                } else {
                    machine.flags = (machine.read(dest, 8), machine.read(src, 8));
                }
            }
            Statement::Cmove { dest, src } => {
                if machine.flags.0 == machine.flags.1 {
                    let v = machine.read(src, 8);
                    machine.write(dest, 8, v);
                }
            }
            Statement::Cmovl { dest, src } => {
                if machine.flags.0 < machine.flags.1 {
                    let v = machine.read(src, 8);
                    machine.write(dest, 8, v);
                }
            }
            Statement::Jmp { label } => pc = code_index(target(label)),
            Statement::Je { label } => {
                if machine.flags.0 == machine.flags.1 {
                    pc = code_index(target(label));
                }
            }
            Statement::Jne { label } => {
                if machine.flags.0 != machine.flags.1 {
                    pc = code_index(target(label));
                }
            }
            Statement::Jg { label } => {
                if machine.flags.0 > machine.flags.1 {
                    pc = code_index(target(label));
                }
            }
            Statement::Jl { label } => {
                if machine.flags.0 < machine.flags.1 {
                    pc = code_index(target(label));
                }
            }
            Statement::JmpRegister(r) => pc = code_index(machine.regs[reg_index(r).0]),
            Statement::Push { src } => {
                let v = machine.read(src, 8);
                machine.push(v);
            }
            Statement::Pop { dest } => {
                let v = machine.pop();
                machine.write(dest, 8, v);
            }
            Statement::Lea { dest, label } => {
                let v = target(label);
                machine.write(dest, 8, v);
            }
            Statement::LeaArithmetic { dest, label, offset } => {
                let v = target(label) + offset;
                machine.write(dest, 8, v);
            }
            Statement::Call { label } => match label.as_str() {
                "read_byte" | "peek_byte" => {
                    let v = if machine.input_pos < machine.input.len() {
                        (machine.input[machine.input_pos] as i64) << 4
                    } else {
                        88
                    };
                    if label == "read_byte" && machine.input_pos < machine.input.len() {
                        machine.input_pos += 1;
                    }
                    machine.regs[0] = v;
                }
                "write_byte" => {
                    let b = machine.regs[2] as u8;
                    machine.output.push(b);
                }
                "raise_error" => return Err(Error::RuntimeError),
                other => panic!("unknown external {}", other),
            },
            Statement::Ret => {
                let addr = machine.pop();
                if addr == RETURN_SENTINEL {
                    return Ok(Outcome { value: machine.regs[0], machine });
                }
                pc = code_index(addr);
            }
        }
    }
}

/// The runtime's display of a value, without the leading quote.
fn display_inner(m: &Machine, v: i64) -> String {
    if v & 0xf == 0 {
        return (v >> 4).to_string();
    }
    if v & 0x1f == 8 {
        return format!("#\\{}", char::from_u32((v >> 5) as u32).unwrap());
    }
    match v {
        24 => return "#t".to_string(),
        56 => return "#f".to_string(),
        88 => return "#<eof>".to_string(),
        120 => return "#<void>".to_string(),
        152 => return "()".to_string(),
        3 => return "#()".to_string(),
        4 => return "\"\"".to_string(),
        _ => {}
    }
    let addr = v & !7;
    match v & 7 {
        1 => format!("#&{}", display_inner(m, m.load(addr, 8))),
        2 => {
            let mut parts = vec![display_inner(m, m.load(addr + 8, 8))];
            let mut rest = m.load(addr, 8);
            while rest & 7 == 2 {
                let a = rest & !7;
                parts.push(display_inner(m, m.load(a + 8, 8)));
                rest = m.load(a, 8);
            }
            if rest == 152 {
                format!("({})", parts.join(" "))
            } else {
                format!("({} . {})", parts.join(" "), display_inner(m, rest))
            }
        }
        3 => {
            let n = m.load(addr, 8);
            let parts: Vec<String> = (0..n).map(|i| display_inner(m, m.load(addr + 8 + 8 * i, 8))).collect();
            format!("#({})", parts.join(" "))
        }
        4 => {
            let n = m.load(addr, 8);
            let s: String = (0..n).map(|i| char::from_u32(m.load(addr + 8 + 4 * i, 4) as u32).unwrap()).collect();
            format!("\"{}\"", s)
        }
        5 => "#<procedure>".to_string(),
        _ => panic!("not a value: {:#x}", v),
    }
}

fn display(m: &Machine, v: i64) -> String {
    if v == 120 {
        return String::new();
    }
    let quoted = v == 152 || matches!(v & 7, 1 | 2 | 3);
    let inner = display_inner(m, v);
    if quoted { format!("'{}", inner) } else { inner }
}

fn run_with_stdin(source: &str, input: &str) -> Result<String, Error> {
    let text = compile(source)?;
    assert!(text.starts_with("\tdefault rel\n"));
    let program = compile_program(source)?;
    let outcome = execute(&program, input)?;
    let mut out = String::from_utf8(outcome.machine.output.clone()).expect("invalid utf8");
    out.push_str(&display(&outcome.machine, outcome.value));
    Ok(out)
}

fn run(source: &str) -> Result<String, Error> {
    run_with_stdin(source, "")
}

/// The lowest stack address that a run reached.
fn lowest_stack(source: &str) -> i64 {
    let program = compile_program(source).unwrap();
    let outcome = execute(&program, "").unwrap();
    outcome.machine.lowest_rsp
}
