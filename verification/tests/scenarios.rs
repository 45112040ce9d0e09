//! End-to-end runs of hand-assembled program images through the decoder
//! and the interpreter.

use luaca::config::Vmconfig;
use luaca::decode::decode_bytecode;
use luaca::interpreter::{eval_program, InterpreterError};

fn w_abc(op: u32, a: u32, b: u32, c: u32) -> u32 {
    op | (a << 6) | (c << 14) | (b << 23)
}

fn w_abx(op: u32, a: u32, bx: u32) -> u32 {
    op | (a << 6) | (bx << 14)
}

fn w_asbx(op: u32, a: u32, sbx: i32) -> u32 {
    w_abx(op, a, (sbx + 131071) as u32)
}

enum K {
    N(f64),
    S(&'static str),
}

fn push_u32(out: &mut Vec<u8>, v: u32) {
    out.extend_from_slice(&v.to_le_bytes());
}

fn push_u64(out: &mut Vec<u8>, v: u64) {
    out.extend_from_slice(&v.to_le_bytes());
}

fn push_lua_str(out: &mut Vec<u8>, s: &str) {
    push_u64(out, (s.len() + 1) as u64);
    out.extend_from_slice(s.as_bytes());
    out.push(0);
}

/// Signature and header: version five-one, little endian, four-byte ints
/// and instructions, eight-byte sizes and numbers.
fn header() -> Vec<u8> {
    vec![0x1B, 0x4C, 0x75, 0x61, 0x51, 0x00, 0x01, 0x04, 0x08, 0x04, 0x08, 0x00]
}

fn proto_bytes(stack: u8, upvals: u8, code: &[u32], consts: &[K], children: &[Vec<u8>]) -> Vec<u8> {
    let mut out = Vec::new();
    push_u64(&mut out, 0); // anonymous
    push_u32(&mut out, 0); // first line
    push_u32(&mut out, 0); // last line
    out.push(upvals);
    out.push(0); // parameters
    out.push(0); // vararg flag
    out.push(stack);
    push_u32(&mut out, code.len() as u32);
    for w in code {
        push_u32(&mut out, *w);
    }
    push_u32(&mut out, consts.len() as u32);
    for k in consts {
        match k {
            K::N(v) => {
                out.push(3);
                push_u64(&mut out, v.to_bits());
            }
            K::S(s) => {
                out.push(4);
                push_lua_str(&mut out, s);
            }
        }
    }
    push_u32(&mut out, children.len() as u32);
    for child in children {
        out.extend_from_slice(child);
    }
    push_u32(&mut out, 0); // line table
    push_u32(&mut out, 0); // locals
    push_u32(&mut out, 0); // upvalue names
    out
}

fn image(main: Vec<u8>) -> Vec<u8> {
    let mut out = header();
    out.extend_from_slice(&main);
    out
}

fn run(bytes: Vec<u8>) -> (Result<(), InterpreterError>, Vec<u8>) {
    let config = Vmconfig::build(vec!["vm".to_string(), "image.out".to_string()]).unwrap();
    let (_meta, main) = decode_bytecode(bytes, config).expect("image should decode");
    eval_program(main)
}

#[test]
fn constant_return() {
    // return 42
    let main = proto_bytes(
        2,
        0,
        &[w_abx(1, 0, 0), w_abc(30, 0, 2, 0), w_abc(30, 0, 1, 0)],
        &[K::N(42.0)],
        &[],
    );
    let (outcome, out) = run(image(main));
    outcome.expect("run should succeed");
    assert_eq!(out, b"");
}

#[test]
fn print_hello() {
    // print("hello")
    let main = proto_bytes(
        2,
        0,
        &[
            w_abx(5, 0, 0),
            w_abx(1, 1, 1),
            w_abc(28, 0, 2, 1),
            w_abc(30, 0, 1, 0),
        ],
        &[K::S("print"), K::S("hello")],
        &[],
    );
    let (outcome, out) = run(image(main));
    outcome.expect("run should succeed");
    assert_eq!(out, b"hello\t\n");
}

#[test]
fn print_arithmetic() {
    // print(2 + 3 * 4)
    let main = proto_bytes(
        2,
        0,
        &[
            w_abx(5, 0, 0),
            w_abc(14, 1, 258, 259),
            w_abc(12, 1, 257, 1),
            w_abc(28, 0, 2, 1),
            w_abc(30, 0, 1, 0),
        ],
        &[K::S("print"), K::N(2.0), K::N(3.0), K::N(4.0)],
        &[],
    );
    let (outcome, out) = run(image(main));
    outcome.expect("run should succeed");
    assert_eq!(out, b"14\t\n");
}

#[test]
fn numeric_for() {
    // for i = 1, 3 do print(i) end
    let main = proto_bytes(
        6,
        0,
        &[
            w_abx(1, 0, 0),       // control = 1
            w_abx(1, 1, 1),       // limit = 3
            w_abx(1, 2, 0),       // step = 1
            w_asbx(32, 0, 3),     // prepare, jump to the loop instruction
            w_abx(5, 4, 2),       // body: fetch print
            w_abc(0, 5, 3, 0),    // body: copy the loop variable
            w_abc(28, 4, 2, 1),   // body: call print
            w_asbx(31, 0, -4),    // loop back to the body
            w_abc(30, 0, 1, 0),
        ],
        &[K::N(1.0), K::N(3.0), K::S("print")],
        &[],
    );
    let (outcome, out) = run(image(main));
    outcome.expect("run should succeed");
    assert_eq!(out, b"1\t\n2\t\n3\t\n");
}

#[test]
fn closure_counter() {
    // a counter closure over a captured local, called three times
    let inner = proto_bytes(
        2,
        1,
        &[
            w_abc(4, 0, 0, 0),    // fetch the captured slot
            w_abc(12, 0, 0, 256), // add one
            w_abc(8, 0, 0, 0),    // write the slot back
            w_abc(30, 0, 2, 0),
        ],
        &[K::N(1.0)],
        &[],
    );
    let counter = proto_bytes(
        2,
        0,
        &[
            w_abx(1, 0, 0),    // n = 0
            w_abx(36, 1, 0),   // the closure
            w_abc(0, 0, 0, 0), // binding: capture register zero
            w_abc(30, 1, 2, 0),
        ],
        &[K::N(0.0)],
        &[inner],
    );
    let main = proto_bytes(
        4,
        0,
        &[
            w_abx(36, 0, 0),    // the counter factory
            w_abc(28, 0, 1, 2), // c = counter()
            w_abx(5, 1, 0),     // print
            w_abc(0, 2, 0, 0),
            w_abc(28, 2, 1, 2), // c()
            w_abc(28, 1, 2, 1), // print it
            w_abx(5, 1, 0),
            w_abc(0, 2, 0, 0),
            w_abc(28, 2, 1, 2),
            w_abc(28, 1, 2, 1),
            w_abx(5, 1, 0),
            w_abc(0, 2, 0, 0),
            w_abc(28, 2, 1, 2),
            w_abc(28, 1, 2, 1),
            w_abc(30, 0, 1, 0),
        ],
        &[K::S("print")],
        &[counter],
    );
    let (outcome, out) = run(image(main));
    outcome.expect("run should succeed");
    assert_eq!(out, b"1\t\n2\t\n3\t\n");
}

#[test]
fn division_by_zero() {
    // print(1 / 0)
    let main = proto_bytes(
        2,
        0,
        &[
            w_abx(5, 0, 0),
            w_abc(15, 1, 257, 258),
            w_abc(28, 0, 2, 1),
            w_abc(30, 0, 1, 0),
        ],
        &[K::S("print"), K::N(1.0), K::N(0.0)],
        &[],
    );
    let (outcome, out) = run(image(main));
    let err = outcome.expect_err("division by zero must be fatal");
    assert!(matches!(err, InterpreterError::ZeroDivisionError));
    assert_eq!(out, b"", "the call to print is never reached");
}

#[test]
fn modulo_by_zero() {
    let main = proto_bytes(
        2,
        0,
        &[w_abc(16, 0, 257, 258), w_abc(30, 0, 1, 0)],
        &[K::S("print"), K::N(7.0), K::N(0.0)],
        &[],
    );
    let (outcome, _out) = run(image(main));
    let err = outcome.expect_err("remainder by zero must be fatal");
    assert!(matches!(err, InterpreterError::ZeroDivisionError));
}

#[test]
fn closure_captures_creation_value() {
    // the upvalue bound by a register move holds the value the register
    // had when the closure was made, not a later one
    let inner = proto_bytes(
        2,
        1,
        &[w_abc(4, 0, 0, 0), w_abc(30, 0, 2, 0)],
        &[],
        &[],
    );
    let main = proto_bytes(
        5,
        0,
        &[
            w_abx(1, 0, 0),     // x = 10
            w_abx(36, 1, 0),    // f captures x
            w_abc(0, 0, 0, 0),  // binding: capture register zero
            w_abx(1, 0, 1),     // x = 20 afterwards
            w_abx(5, 2, 2),     // print
            w_abc(0, 3, 1, 0),
            w_abc(28, 3, 1, 2), // f()
            w_abc(28, 2, 2, 1), // print the result
            w_abc(30, 0, 1, 0),
        ],
        &[K::N(10.0), K::N(20.0), K::S("print")],
        &[inner],
    );
    let (outcome, out) = run(image(main));
    outcome.expect("run should succeed");
    assert_eq!(out, b"10\t\n");
}

#[test]
fn repeated_tail_calls() {
    // f(n): if 0 < n then return f(n - 1) else return 0
    let f = proto_bytes(
        4,
        0,
        &[
            w_abc(24, 1, 256, 0), // 0 < n?
            w_asbx(22, 0, 2),     // then branch lies further down
            w_abx(1, 1, 0),       // return 0
            w_abc(30, 1, 2, 0),
            w_abx(5, 1, 1),       // fetch f
            w_abc(13, 2, 0, 258), // n - 1
            w_abc(29, 1, 2, 0),   // tail call
            w_abc(30, 1, 0, 0),   // skipped after the tail call
        ],
        &[K::N(0.0), K::S("f"), K::N(1.0)],
        &[],
    );
    let main = proto_bytes(
        4,
        0,
        &[
            w_abx(36, 0, 0),
            w_abx(7, 0, 0),     // bind the global f
            w_abx(5, 1, 0),
            w_abx(1, 2, 1),     // the depth
            w_abc(28, 1, 2, 2), // call it
            w_abc(30, 0, 1, 0),
        ],
        &[K::S("f"), K::N(100000.0)],
        &[f],
    );
    let (outcome, out) = run(image(main));
    outcome.expect("deep tail recursion should succeed");
    assert_eq!(out, b"");
}

#[test]
fn global_roundtrip_runs() {
    // a value bound by SetGlobal is read back unchanged by GetGlobal
    let main = proto_bytes(
        3,
        0,
        &[
            w_abx(1, 0, 1),     // the value
            w_abx(7, 0, 0),     // answer = value
            w_abx(5, 1, 2),     // print
            w_abx(5, 2, 0),     // read answer back
            w_abc(28, 1, 2, 1),
            w_abc(30, 0, 1, 0),
        ],
        &[K::S("answer"), K::N(42.0), K::S("print")],
        &[],
    );
    let (outcome, out) = run(image(main));
    outcome.expect("run should succeed");
    assert_eq!(out, b"42\t\n");
}

#[test]
fn missing_global_is_fatal() {
    let main = proto_bytes(
        2,
        0,
        &[w_abx(5, 0, 0), w_abc(30, 0, 1, 0)],
        &[K::S("nosuch")],
        &[],
    );
    let (outcome, _out) = run(image(main));
    let err = outcome.expect_err("an unbound global must be fatal");
    assert!(matches!(err, InterpreterError::GlobalError { .. }));
}

#[test]
fn unimplemented_opcode_is_fatal() {
    // NewTable decodes but has no implementation
    let main = proto_bytes(
        2,
        0,
        &[w_abc(10, 0, 0, 0), w_abc(30, 0, 1, 0)],
        &[],
        &[],
    );
    let (outcome, _out) = run(image(main));
    let err = outcome.expect_err("a table constructor must be fatal");
    assert!(matches!(err, InterpreterError::UnimplementedOpcode));
}

#[test]
fn calling_a_number_is_fatal() {
    let main = proto_bytes(
        2,
        0,
        &[w_abx(1, 0, 0), w_abc(28, 0, 1, 1), w_abc(30, 0, 1, 0)],
        &[K::N(5.0)],
        &[],
    );
    let (outcome, _out) = run(image(main));
    let err = outcome.expect_err("calling a number must be fatal");
    assert!(matches!(err, InterpreterError::NotCallableError));
}

#[test]
fn comparisons_and_booleans() {
    // print(1 < 2), via LT writing a fresh boolean
    let main = proto_bytes(
        3,
        0,
        &[
            w_abx(5, 0, 0),        // print
            w_abc(24, 1, 257, 258), // 1 < 2, skip when false
            w_abc(2, 1, 1, 1),     // true, then skip
            w_abc(2, 1, 0, 0),     // false
            w_abc(28, 0, 2, 1),
            w_abc(30, 0, 1, 0),
        ],
        &[K::S("print"), K::N(1.0), K::N(2.0)],
        &[],
    );
    let (outcome, out) = run(image(main));
    outcome.expect("run should succeed");
    assert_eq!(out, b"true\t\n");
}

#[test]
fn string_length_and_unary_minus() {
    // print(#"hello"), print(-3)
    let main = proto_bytes(
        3,
        0,
        &[
            w_abx(5, 0, 0),
            w_abx(1, 1, 1),
            w_abc(20, 1, 1, 0), // length
            w_abc(28, 0, 2, 1),
            w_abx(5, 0, 0),
            w_abx(1, 1, 2),
            w_abc(18, 1, 1, 0), // negation
            w_abc(28, 0, 2, 1),
            w_abc(30, 0, 1, 0),
        ],
        &[K::S("print"), K::S("hello"), K::N(3.0)],
        &[],
    );
    let (outcome, out) = run(image(main));
    outcome.expect("run should succeed");
    assert_eq!(out, b"5\t\n-3\t\n");
}

#[test]
fn runs_are_deterministic() {
    // the same image gives byte-identical output across runs
    let build = || {
        proto_bytes(
            6,
            0,
            &[
                w_abx(1, 0, 0),
                w_abx(1, 1, 1),
                w_abx(1, 2, 0),
                w_asbx(32, 0, 3),
                w_abx(5, 4, 2),
                w_abc(0, 5, 3, 0),
                w_abc(28, 4, 2, 1),
                w_asbx(31, 0, -4),
                w_abc(30, 0, 1, 0),
            ],
            &[K::N(1.0), K::N(3.0), K::S("print")],
            &[],
        )
    };
    let (r1, first) = run(image(build()));
    r1.expect("run should succeed");
    let (r2, second) = run(image(build()));
    r2.expect("run should succeed");
    assert_eq!(first, second);
}

#[test]
fn fractional_exponent_is_fatal() {
    // print(2 ^ 0.5): the power operation refuses a fractional exponent
    // rather than storing a made-up number
    let main = proto_bytes(
        2,
        0,
        &[
            w_abx(5, 0, 0),
            w_abc(17, 1, 257, 258),
            w_abc(28, 0, 2, 1),
            w_abc(30, 0, 1, 0),
        ],
        &[K::S("print"), K::N(2.0), K::N(0.5)],
        &[],
    );
    let (outcome, _out) = run(image(main));
    let err = outcome.expect_err("a fractional exponent must be fatal");
    assert!(matches!(err, InterpreterError::TypeMismatchError));
}

#[test]
fn large_integers_print_plainly() {
    // print(100000): integral doubles render as plain digits
    let main = proto_bytes(
        2,
        0,
        &[
            w_abx(5, 0, 0),
            w_abx(1, 1, 1),
            w_abc(28, 0, 2, 1),
            w_abc(30, 0, 1, 0),
        ],
        &[K::S("print"), K::N(100000.0)],
        &[],
    );
    let (outcome, out) = run(image(main));
    outcome.expect("run should succeed");
    assert_eq!(out, b"100000\t\n");
}

#[test]
fn not_follows_truthiness() {
    // print(not nil): negation follows truthiness, not a boolean demand
    let main = proto_bytes(
        3,
        0,
        &[
            w_abx(5, 0, 0),
            w_abc(3, 1, 1, 0),  // nil into the operand register
            w_abc(19, 1, 1, 0), // negate its truthiness
            w_abc(28, 0, 2, 1),
            w_abc(30, 0, 1, 0),
        ],
        &[K::S("print")],
        &[],
    );
    let (outcome, out) = run(image(main));
    outcome.expect("run should succeed");
    assert_eq!(out, b"true\t\n");
}
