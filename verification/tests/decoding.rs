//! The loader against hand-assembled images: structure, endianness,
//! version checking and truncation.

use luaca::config::Vmconfig;
use luaca::decode::{decode_bytecode, DecompileError};
use luaca::instruction::Instruction;
use luaca::validate::validate_function;

fn w_abc(op: u32, a: u32, b: u32, c: u32) -> u32 {
    op | (a << 6) | (c << 14) | (b << 23)
}

fn w_abx(op: u32, a: u32, bx: u32) -> u32 {
    op | (a << 6) | (bx << 14)
}

fn push_u32(out: &mut Vec<u8>, v: u32, bigendian: bool) {
    if bigendian {
        out.extend_from_slice(&v.to_be_bytes());
    } else {
        out.extend_from_slice(&v.to_le_bytes());
    }
}

fn push_u64(out: &mut Vec<u8>, v: u64, bigendian: bool) {
    if bigendian {
        out.extend_from_slice(&v.to_be_bytes());
    } else {
        out.extend_from_slice(&v.to_le_bytes());
    }
}

/// The hello image in either endianness: print("hello").
fn hello_image(bigendian: bool) -> Vec<u8> {
    let mut out = vec![
        0x1B,
        0x4C,
        0x75,
        0x61,
        0x51,
        0x00,
        if bigendian { 0x00 } else { 0x01 },
        0x04,
        0x08,
        0x04,
        0x08,
        0x00,
    ];
    push_u64(&mut out, 0, bigendian); // anonymous
    push_u32(&mut out, 7, bigendian); // first line
    push_u32(&mut out, 7, bigendian); // last line
    out.push(0); // upvalues
    out.push(0); // parameters
    out.push(0); // vararg flag
    out.push(2); // stack
    let code = [
        w_abx(5, 0, 0),
        w_abx(1, 1, 1),
        w_abc(28, 0, 2, 1),
        w_abc(30, 0, 1, 0),
    ];
    push_u32(&mut out, code.len() as u32, bigendian);
    for w in code {
        push_u32(&mut out, w, bigendian);
    }
    push_u32(&mut out, 2, bigendian); // constants
    out.push(4);
    push_u64(&mut out, 6, bigendian);
    out.extend_from_slice(b"print");
    out.push(0);
    out.push(4);
    push_u64(&mut out, 6, bigendian);
    out.extend_from_slice(b"hello");
    out.push(0);
    push_u32(&mut out, 0, bigendian); // children
    push_u32(&mut out, 2, bigendian); // line table
    push_u32(&mut out, 7, bigendian);
    push_u32(&mut out, 7, bigendian);
    push_u32(&mut out, 0, bigendian); // locals
    push_u32(&mut out, 0, bigendian); // upvalue names
    out
}

fn config() -> Vmconfig {
    Vmconfig::build(vec!["vm".to_string(), "image.out".to_string()]).unwrap()
}

#[test]
fn decodes_structure() {
    let (meta, main) = decode_bytecode(hello_image(false), config()).expect("should decode");
    assert_eq!(meta.version, 0x51);
    assert!(!meta.bigendian);
    assert_eq!(main.stack, 2);
    assert_eq!(main.up_values, 0);
    assert_eq!(main.first_line, 7);
    assert_eq!(main.instr_list.len(), 4);
    assert_eq!(main.instr_list[0], Instruction::GetGlobal(0, 0));
    assert_eq!(main.instr_list[1], Instruction::LoadK(1, 1));
    assert_eq!(main.instr_list[2], Instruction::Call(0, 2, 1));
    assert_eq!(main.instr_list[3], Instruction::Return(0, 1, 0));
    assert_eq!(main.const_list.len(), 2);
    assert_eq!(main.const_list[0].get_string(), b"print".to_vec());
    assert_eq!(main.const_list[1].get_string(), b"hello".to_vec());
    assert_eq!(main.func_list.len(), 0);
    assert_eq!(main.lines_list, vec![7, 7]);
    assert_eq!(main.identifier, 0);
}

#[test]
fn endian_swap_gives_equivalent_program() {
    let (_m1, le) = decode_bytecode(hello_image(false), config()).expect("should decode");
    let (_m2, be) = decode_bytecode(hello_image(true), config()).expect("should decode");
    assert_eq!(le.instr_list, be.instr_list);
    assert_eq!(le.stack, be.stack);
    assert_eq!(le.first_line, be.first_line);
    assert_eq!(le.lines_list, be.lines_list);
    assert_eq!(le.const_list.len(), be.const_list.len());
    assert_eq!(le.const_list[0].get_string(), be.const_list[0].get_string());
    assert_eq!(le.const_list[1].get_string(), be.const_list[1].get_string());
}

#[test]
fn bad_signature_is_refused() {
    let mut bytes = hello_image(false);
    bytes[0] = 0x00;
    let err = decode_bytecode(bytes, config()).expect_err("should refuse");
    assert!(matches!(err, DecompileError::SignatureError));
}

#[test]
fn version_mismatch_is_refused() {
    let bytes = hello_image(false);
    let cfg = Vmconfig::build(vec![
        "vm".to_string(),
        "ver=5.3".to_string(),
        "image.out".to_string(),
    ])
    .unwrap();
    let err = decode_bytecode(bytes, cfg).expect_err("should refuse");
    assert!(matches!(err, DecompileError::VersionDataError));
}

#[test]
fn unknown_constant_tag_is_refused() {
    let mut bytes = hello_image(false);
    // the first constant's type byte follows the code words
    let tag_pos = 12 + 8 + 4 + 4 + 4 + 4 + 4 * 4 + 4;
    assert_eq!(bytes[tag_pos], 4);
    bytes[tag_pos] = 9;
    let err = decode_bytecode(bytes, config()).expect_err("should refuse");
    assert!(matches!(err, DecompileError::ConstantTypeError));
}

#[test]
fn unknown_opcode_is_refused() {
    let mut bytes = hello_image(false);
    let code_pos = 12 + 8 + 4 + 4 + 4 + 4;
    // opcode 63 belongs to no family
    bytes[code_pos] = 0x3F;
    let err = decode_bytecode(bytes, config()).expect_err("should refuse");
    assert!(matches!(
        err,
        DecompileError::InstrEncodingError { instr_code: 63 }
    ));
}

#[test]
fn truncation_past_header_reports_early_end() {
    let bytes = hello_image(false);
    for cut in 12..bytes.len() {
        let err = decode_bytecode(bytes[..cut].to_vec(), config())
            .expect_err("a truncated image must be refused");
        assert!(
            matches!(err, DecompileError::FileFormatError),
            "cut at {cut} gave {err:?}"
        );
    }
}

#[test]
fn truncation_in_header_reports_missing_metadata() {
    let bytes = hello_image(false);
    for cut in 4..12 {
        let err = decode_bytecode(bytes[..cut].to_vec(), config())
            .expect_err("a truncated header must be refused");
        assert!(matches!(err, DecompileError::MetadataError));
    }
    for cut in 0..4 {
        let err = decode_bytecode(bytes[..cut].to_vec(), config())
            .expect_err("a truncated signature must be refused");
        assert!(matches!(err, DecompileError::FileFormatError));
    }
}

#[test]
fn well_formed_image_validates() {
    let (_m, main) = decode_bytecode(hello_image(false), config()).expect("should decode");
    assert!(validate_function(&main));
}

#[test]
fn register_over_stack_is_refused_by_validator() {
    // the register operand of a move lies at the stack size
    let (_m, mut main) = decode_bytecode(hello_image(false), config()).expect("should decode");
    main.instr_list[0] = Instruction::Move(2, 0, 0);
    assert!(!validate_function(&main));
}

#[test]
fn constant_index_out_of_pool_is_refused_by_validator() {
    let (_m, mut main) = decode_bytecode(hello_image(false), config()).expect("should decode");
    main.instr_list[1] = Instruction::LoadK(1, 2);
    assert!(!validate_function(&main));
}

#[test]
fn jump_outside_code_is_refused_by_validator() {
    let (_m, mut main) = decode_bytecode(hello_image(false), config()).expect("should decode");
    main.instr_list[1] = Instruction::Jmp(0, 17);
    assert!(!validate_function(&main));
    main.instr_list[1] = Instruction::Jmp(0, -9);
    assert!(!validate_function(&main));
    main.instr_list[1] = Instruction::Jmp(0, 1);
    assert!(validate_function(&main));
}
