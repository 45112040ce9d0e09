//! The numeric layer, the value model and the text renderings, exercised
//! on concrete values.

use luaca::constant::Constant;
use luaca::decode::{decode_int, decode_str, next_byte_or_error, ByteCursor, DecompileError};
use luaca::instruction::{Instruction, InstructionError};
use luaca::interpreter::jmp_instruction;
use luaca::numeric;
use luaca::object::{TypeLua, Value};

fn bits(v: f64) -> u64 {
    v.to_bits()
}

#[test]
fn arithmetic_wrappers_compute() {
    assert_eq!(numeric::number_add(bits(2.0), bits(3.0)), bits(5.0));
    assert_eq!(numeric::number_sub(bits(2.0), bits(3.0)), bits(-1.0));
    assert_eq!(numeric::number_mul(bits(3.0), bits(4.0)), bits(12.0));
    assert_eq!(numeric::number_div(bits(1.0), bits(4.0)), bits(0.25));
    assert_eq!(numeric::number_fmod(bits(7.0), bits(3.0)), bits(1.0));
    assert_eq!(numeric::number_fmod(bits(-7.0), bits(3.0)), bits(-1.0));
    assert_eq!(numeric::number_add(bits(0.1), bits(0.2)), bits(0.1 + 0.2));
}

#[test]
fn pow_squares_and_multiplies() {
    assert_eq!(numeric::number_pow(bits(2.0), bits(10.0)), Some(bits(1024.0)));
    assert_eq!(numeric::number_pow(bits(3.0), bits(0.0)), Some(bits(1.0)));
    assert_eq!(numeric::number_pow(bits(2.0), bits(-2.0)), Some(bits(0.25)));
    assert_eq!(numeric::number_pow(bits(-2.0), bits(3.0)), Some(bits(-8.0)));
    assert_eq!(numeric::number_pow(bits(10.0), bits(1.0)), Some(bits(10.0)));
}

#[test]
fn pow_refuses_unsupported_exponents() {
    // no made-up number: a fractional or NaN exponent is refused outright
    assert_eq!(numeric::number_pow(bits(4.0), bits(0.5)), None);
    assert_eq!(numeric::number_pow(bits(2.0), bits(-1.5)), None);
    assert_eq!(numeric::number_pow(bits(2.0), bits(f64::NAN)), None);
    assert_eq!(
        numeric::number_pow(bits(2.0), bits(f64::INFINITY)),
        Some(bits(f64::INFINITY))
    );
    assert_eq!(
        numeric::number_pow(bits(0.5), bits(f64::INFINITY)),
        Some(bits(0.0))
    );
}

#[test]
fn comparisons_follow_the_total_order() {
    assert!(numeric::numbers_total_lt(bits(1.0), bits(2.0)));
    assert!(!numeric::numbers_total_lt(bits(2.0), bits(1.0)));
    assert!(numeric::numbers_total_le(bits(2.0), bits(2.0)));
    assert!(numeric::numbers_total_lt(bits(-1.0), bits(1.0)));
    assert!(numeric::numbers_total_lt(bits(-2.0), bits(-1.0)));
    // the total order places the negative zero below the positive one
    assert!(numeric::numbers_total_lt(bits(-0.0), bits(0.0)));
}

#[test]
fn partial_comparison_handles_zeroes_and_nan() {
    assert!(numeric::numbers_lt(bits(1.0), bits(2.0)));
    assert!(!numeric::numbers_lt(bits(-0.0), bits(0.0)));
    assert!(numeric::numbers_lt(bits(-0.0), bits(1.0)));
    assert!(!numeric::numbers_lt(bits(f64::NAN), bits(1.0)));
    assert!(!numeric::numbers_lt(bits(1.0), bits(f64::NAN)));
}

#[test]
fn equality_is_ieee() {
    assert!(numeric::numbers_eq(bits(0.0), bits(-0.0)));
    assert!(!numeric::numbers_eq(bits(f64::NAN), bits(f64::NAN)));
    assert!(numeric::numbers_eq(bits(3.5), bits(3.5)));
    assert!(!numeric::numbers_eq(bits(3.5), bits(3.25)));
}

#[test]
fn negation_flips_the_sign_bit() {
    assert_eq!(numeric::number_neg(bits(3.0)), bits(-3.0));
    assert_eq!(numeric::number_neg(bits(-0.0)), bits(0.0));
}

#[test]
fn lengths_become_numbers() {
    assert_eq!(numeric::number_of_length(0), bits(0.0));
    assert_eq!(numeric::number_of_length(5), bits(5.0));
    assert_eq!(numeric::number_of_length(1 << 20), bits(1048576.0));
}

#[test]
fn decimal_rendering_of_numbers() {
    assert_eq!(numeric::number_decimal(bits(14.0)), b"14".to_vec());
    assert_eq!(numeric::number_decimal(bits(0.0)), b"0".to_vec());
    assert_eq!(numeric::number_decimal(bits(2.5)), b"2.5".to_vec());
}

#[test]
fn integral_doubles_render_as_digits() {
    let render = |v: f64| {
        let mut out = Vec::new();
        numeric::push_number_text(&mut out, bits(v));
        out
    };
    assert_eq!(render(100000.0), b"100000".to_vec());
    assert_eq!(render(0.0), b"0".to_vec());
    assert_eq!(render(-0.0), b"-0".to_vec());
    assert_eq!(render(-42.0), b"-42".to_vec());
    assert_eq!(render(9007199254740992.0), b"9007199254740992".to_vec());
    assert_eq!(render(2.5), b"2.5".to_vec());
}

#[test]
fn values_compare_as_the_language_says() {
    assert_eq!(Value::Number(bits(1.5)), Value::Number(bits(1.5)));
    assert_ne!(Value::Number(bits(1.5)), Value::Number(bits(2.5)));
    assert_eq!(Value::Number(bits(0.0)), Value::Number(bits(-0.0)));
    assert_ne!(
        Value::Number(bits(f64::NAN)),
        Value::Number(bits(f64::NAN))
    );
    assert_eq!(Value::Nil, Value::Nil);
    assert_ne!(Value::Nil, Value::Boolean(false));
    assert_eq!(
        Value::LuaString(b"abc".to_vec()),
        Value::LuaString(b"abc".to_vec())
    );
    assert_ne!(
        Value::LuaString(b"abc".to_vec()),
        Value::LuaString(b"abd".to_vec())
    );
    assert_eq!(Value::LuaFunction(3), Value::LuaFunction(3));
    assert_ne!(Value::LuaFunction(3), Value::LuaFunction(4));
}

#[test]
fn value_accessors() {
    let v = Value::Number(bits(2.0));
    assert_eq!(v.get_number(), Some(bits(2.0)));
    assert_eq!(v.get_boolean(), None);
    assert!(v.to_boolean());
    assert!(!Value::Nil.to_boolean());
    assert!(!Value::Boolean(false).to_boolean());
    assert!(Value::Boolean(true).to_boolean());
    assert!(Value::Nil.is_nil());
    assert!(!v.is_nil());
    assert_eq!(v.get_type(), TypeLua::Number);
    assert_eq!(Value::Nil.get_type(), TypeLua::Nil);
    assert_eq!(Value::LuaFunction(0).get_type(), TypeLua::Function);
    assert_eq!(Value::LuaString(b"x".to_vec()).get_type(), TypeLua::String);
}

#[test]
fn cursor_reads_in_both_endiannesses() {
    let mut cur = ByteCursor::new(vec![0x12, 0x34, 0x56, 0x78]);
    assert_eq!(decode_int(&mut cur, 4, true), Ok(0x12345678));
    let mut cur = ByteCursor::new(vec![0x12, 0x34, 0x56, 0x78]);
    assert_eq!(decode_int(&mut cur, 4, false), Ok(0x78563412));
    let mut cur = ByteCursor::new(vec![0x12, 0x34]);
    assert_eq!(
        decode_int(&mut cur, 4, true),
        Err(DecompileError::FileFormatError)
    );
}

#[test]
fn cursor_reads_strings() {
    let mut cur = ByteCursor::new(vec![b'h', b'i', 0, 9]);
    assert_eq!(decode_str(&mut cur, 3), Ok(b"hi".to_vec()));
    assert_eq!(
        next_byte_or_error(&mut cur, DecompileError::MetadataError),
        Ok(9)
    );
    assert_eq!(
        next_byte_or_error(&mut cur, DecompileError::MetadataError),
        Err(DecompileError::MetadataError)
    );
    let mut cur = ByteCursor::new(vec![]);
    assert_eq!(decode_str(&mut cur, 0), Ok(Vec::new()));
}

#[test]
fn instruction_builders_follow_the_table() {
    assert_eq!(Instruction::build_abc(0, 1, 2, 3), Ok(Instruction::Move(1, 2, 3)));
    assert_eq!(Instruction::build_abx(1, 1, 7), Ok(Instruction::LoadK(1, 7)));
    assert_eq!(Instruction::build_asb(22, 0, -3), Ok(Instruction::Jmp(0, -3)));
    assert_eq!(
        Instruction::build_abc(1, 0, 0, 0),
        Err(InstructionError::NotABCError { instr_code: 1 })
    );
    assert_eq!(
        Instruction::build_abx(0, 0, 0),
        Err(InstructionError::NotABxError { instr_code: 0 })
    );
    assert_eq!(
        Instruction::build_asb(0, 0, 0),
        Err(InstructionError::NotAsBError { instr_code: 0 })
    );
}

#[test]
fn instruction_text_matches_the_dump_format() {
    assert_eq!(
        Instruction::Move(1, 2, 3).text(),
        b"Move      : [A: 1, B: 2, C: 3]".to_vec()
    );
    assert_eq!(
        Instruction::LoadK(0, 11).text(),
        b"LoadK     : [A: 0, B: 11]".to_vec()
    );
    assert_eq!(
        Instruction::Jmp(0, -4).text(),
        b"Jmp       : [A: 0, B: -4]".to_vec()
    );
}

#[test]
fn constant_text_matches_the_dump_format() {
    assert_eq!(Constant::Null.text(), b"".to_vec());
    assert_eq!(Constant::Boolean(true).text(), b"Boolean: true".to_vec());
    assert_eq!(Constant::Number(bits(3.0)).text(), b"Number: 3".to_vec());
    assert_eq!(
        Constant::String(b"hi".to_vec()).text(),
        b"String: hi".to_vec()
    );
}

#[test]
fn jumps_move_the_counter_both_ways() {
    let mut pc: usize = 10;
    assert!(jmp_instruction(&mut pc, 5).is_ok());
    assert_eq!(pc, 15);
    assert!(jmp_instruction(&mut pc, -7).is_ok());
    assert_eq!(pc, 8);
    assert!(jmp_instruction(&mut pc, -9).is_err());
    assert_eq!(pc, 8);
}

#[test]
fn error_messages_read_as_diagnostics() {
    assert_eq!(
        DecompileError::SignatureError.message(),
        b"Signature is invalid".to_vec()
    );
    assert_eq!(
        DecompileError::InstrEncodingError { instr_code: 63 }.message(),
        b"Instruction opcode: 63 is not recognized".to_vec()
    );
    assert_eq!(
        InstructionError::NotABCError { instr_code: 9 }.message(),
        b"Instruction with opcode: 9 is not an ABC instruction".to_vec()
    );
}

#[test]
fn value_conjunction_and_disjunction() {
    assert_eq!(
        Value::Number(0b1100).bitand(Value::Number(0b1010)),
        Value::Number(0b1000)
    );
    assert_eq!(
        Value::Number(0b1100).bitor(Value::Number(0b1010)),
        Value::Number(0b1110)
    );
    assert_eq!(Value::Nil.bitand(Value::Boolean(true)), Value::Nil);
    assert_eq!(Value::Nil.bitor(Value::Boolean(true)), Value::Boolean(true));
    assert_eq!(
        Value::Boolean(false).bitand(Value::Number(1)),
        Value::Boolean(false)
    );
    assert_eq!(
        Value::Boolean(true).bitor(Value::Boolean(false)),
        Value::Boolean(true)
    );
}
