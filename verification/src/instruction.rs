//! The tagged instruction set: thirty-eight opcodes in three encoding
//! families, carrying their decoded operand fields.

use vstd::prelude::*;

use vstd::string::StringSliceAdditionalSpecFns;
use vstd::utf8::encode_utf8;

use crate::text::{dec_spec, push_dec, push_sdec, push_slice, sdec_spec};

verus! {

#[derive(PartialEq, Eq, Structural, Clone, Copy, Debug)]
pub enum InstructionError {
    NotABCError { instr_code: u64 },
    NotABxError { instr_code: u64 },
    NotAsBError { instr_code: u64 },
}

/// The diagnostic text of an instruction-family error.
pub open spec fn instruction_error_text(e: InstructionError) -> Seq<u8> {
    match e {
        InstructionError::NotABCError { instr_code } => encode_utf8("Instruction with opcode: "@)
            + dec_spec(instr_code as nat) + encode_utf8(" is not an ABC instruction"@),
        InstructionError::NotABxError { instr_code } => encode_utf8("Instruction with opcode: "@)
            + dec_spec(instr_code as nat) + encode_utf8(" is not an AsB instruction"@),
        InstructionError::NotAsBError { instr_code } => encode_utf8("Instruction with opcode: "@)
            + dec_spec(instr_code as nat) + encode_utf8(" is not an AsB instruction"@),
    }
}

impl InstructionError {
    /// The diagnostic text of this error.
    pub fn message(&self) -> (r: Vec<u8>)
        ensures
            r@ == instruction_error_text(*self),
    {
        let mut out: Vec<u8> = Vec::new();
        match *self {
            InstructionError::NotABCError { instr_code } => {
                push_slice(&mut out, "Instruction with opcode: ".as_bytes());
                push_dec(&mut out, instr_code);
                push_slice(&mut out, " is not an ABC instruction".as_bytes());
            },
            InstructionError::NotABxError { instr_code } => {
                push_slice(&mut out, "Instruction with opcode: ".as_bytes());
                push_dec(&mut out, instr_code);
                push_slice(&mut out, " is not an AsB instruction".as_bytes());
            },
            InstructionError::NotAsBError { instr_code } => {
                push_slice(&mut out, "Instruction with opcode: ".as_bytes());
                push_dec(&mut out, instr_code);
                push_slice(&mut out, " is not an AsB instruction".as_bytes());
            },
        }
        proof {
            assert(out@ =~= instruction_error_text(*self));
        }
        out
    }
}

#[derive(PartialEq, Eq, Structural, Clone, Copy, Debug)]
pub enum Instruction {
    Move(usize, usize, usize),
    LoadK(usize, usize),
    LoadBool(usize, usize, usize),
    LoadNil(usize, usize, usize),
    GetUpVal(usize, usize, usize),
    GetGlobal(usize, usize),
    SetGlobal(usize, usize),
    SetUpVal(usize, usize, usize),
    GetTable(usize, usize, usize),
    SetTable(usize, usize, usize),
    NewTable(usize, usize, usize),
    SelF(usize, usize, usize),
    Add(usize, usize, usize),
    Sub(usize, usize, usize),
    Mul(usize, usize, usize),
    Div(usize, usize, usize),
    Mod(usize, usize, usize),
    Pow(usize, usize, usize),
    Unm(usize, usize, usize),
    Not(usize, usize, usize),
    Len(usize, usize, usize),
    Concat(usize, usize, usize),
    Jmp(usize, isize),
    Eq(usize, usize, usize),
    Lt(usize, usize, usize),
    Le(usize, usize, usize),
    Test(usize, usize, usize),
    TestSet(usize, usize, usize),
    Call(usize, usize, usize),
    TailCall(usize, usize, usize),
    Return(usize, usize, usize),
    ForLoop(usize, isize),
    ForPrep(usize, isize),
    TForLoop(usize, usize, usize),
    SetList(usize, usize, usize),
    Close(usize, usize, usize),
    Closure(usize, usize),
    VarArg(usize, usize, usize),
}

/// The ABC-family variant an opcode denotes, or the error naming the
/// opcode when it has no ABC form.
pub open spec fn build_abc_spec(opcode: u64, a: u64, b: u64, c: u64) -> Result<
    Instruction,
    InstructionError,
> {
    let x = a as usize;
    let y = b as usize;
    let z = c as usize;
    if opcode == 0 {
        Ok(Instruction::Move(x, y, z))
    } else if opcode == 2 {
        Ok(Instruction::LoadBool(x, y, z))
    } else if opcode == 3 {
        Ok(Instruction::LoadNil(x, y, z))
    } else if opcode == 4 {
        Ok(Instruction::GetUpVal(x, y, z))
    } else if opcode == 6 {
        Ok(Instruction::GetTable(x, y, z))
    } else if opcode == 8 {
        Ok(Instruction::SetUpVal(x, y, z))
    } else if opcode == 9 {
        Ok(Instruction::SetTable(x, y, z))
    } else if opcode == 10 {
        Ok(Instruction::NewTable(x, y, z))
    } else if opcode == 11 {
        Ok(Instruction::SelF(x, y, z))
    } else if opcode == 12 {
        Ok(Instruction::Add(x, y, z))
    } else if opcode == 13 {
        Ok(Instruction::Sub(x, y, z))
    } else if opcode == 14 {
        Ok(Instruction::Mul(x, y, z))
    } else if opcode == 15 {
        Ok(Instruction::Div(x, y, z))
    } else if opcode == 16 {
        Ok(Instruction::Mod(x, y, z))
    } else if opcode == 17 {
        Ok(Instruction::Pow(x, y, z))
    } else if opcode == 18 {
        Ok(Instruction::Unm(x, y, z))
    } else if opcode == 19 {
        Ok(Instruction::Not(x, y, z))
    } else if opcode == 20 {
        Ok(Instruction::Len(x, y, z))
    } else if opcode == 21 {
        Ok(Instruction::Concat(x, y, z))
    } else if opcode == 23 {
        Ok(Instruction::Eq(x, y, z))
    } else if opcode == 24 {
        Ok(Instruction::Lt(x, y, z))
    } else if opcode == 25 {
        Ok(Instruction::Le(x, y, z))
    } else if opcode == 26 {
        Ok(Instruction::Test(x, y, z))
    } else if opcode == 27 {
        Ok(Instruction::TestSet(x, y, z))
    } else if opcode == 28 {
        Ok(Instruction::Call(x, y, z))
    } else if opcode == 29 {
        Ok(Instruction::TailCall(x, y, z))
    } else if opcode == 30 {
        Ok(Instruction::Return(x, y, z))
    } else if opcode == 33 {
        Ok(Instruction::TForLoop(x, y, z))
    } else if opcode == 34 {
        Ok(Instruction::SetList(x, y, z))
    } else if opcode == 35 {
        Ok(Instruction::Close(x, y, z))
    } else if opcode == 37 {
        Ok(Instruction::VarArg(x, y, z))
    } else {
        Err(InstructionError::NotABCError { instr_code: opcode })
    }
}

/// The ABx-family variant an opcode denotes.
pub open spec fn build_abx_spec(opcode: u64, a: u64, b: u64) -> Result<
    Instruction,
    InstructionError,
> {
    let x = a as usize;
    let y = b as usize;
    if opcode == 1 {
        Ok(Instruction::LoadK(x, y))
    } else if opcode == 5 {
        Ok(Instruction::GetGlobal(x, y))
    } else if opcode == 7 {
        Ok(Instruction::SetGlobal(x, y))
    } else if opcode == 36 {
        Ok(Instruction::Closure(x, y))
    } else {
        Err(InstructionError::NotABxError { instr_code: opcode })
    }
}

/// The AsBx-family variant an opcode denotes.
pub open spec fn build_asb_spec(opcode: u64, a: u64, b: i64) -> Result<
    Instruction,
    InstructionError,
> {
    let x = a as usize;
    let y = b as isize;
    if opcode == 22 {
        Ok(Instruction::Jmp(x, y))
    } else if opcode == 31 {
        Ok(Instruction::ForLoop(x, y))
    } else if opcode == 32 {
        Ok(Instruction::ForPrep(x, y))
    } else {
        Err(InstructionError::NotAsBError { instr_code: opcode })
    }
}

/// The text of a three-operand instruction line.
pub open spec fn abc_text_spec(name: Seq<u8>, a: usize, b: usize, c: usize) -> Seq<u8> {
    name + encode_utf8(": [A: "@) + dec_spec(a as nat) + encode_utf8(", B: "@) + dec_spec(b as nat)
        + encode_utf8(", C: "@) + dec_spec(c as nat) + encode_utf8("]"@)
}

/// The text of a two-operand instruction line.
pub open spec fn ab_text_spec(name: Seq<u8>, a: usize, b: usize) -> Seq<u8> {
    name + encode_utf8(": [A: "@) + dec_spec(a as nat) + encode_utf8(", B: "@) + dec_spec(b as nat)
        + encode_utf8("]"@)
}

/// The text of an instruction with a signed second operand.
pub open spec fn asb_text_spec(name: Seq<u8>, a: usize, b: isize) -> Seq<u8> {
    name + encode_utf8(": [A: "@) + dec_spec(a as nat) + encode_utf8(", B: "@) + sdec_spec(b as int)
        + encode_utf8("]"@)
}

fn abc_text(name: &str, a: usize, b: usize, c: usize) -> (r: Vec<u8>)
    ensures
        r@ == abc_text_spec(name.spec_bytes(), a, b, c),
{
    let mut out: Vec<u8> = Vec::new();
    push_slice(&mut out, name.as_bytes());
    push_slice(&mut out, ": [A: ".as_bytes());
    push_dec(&mut out, a as u64);
    push_slice(&mut out, ", B: ".as_bytes());
    push_dec(&mut out, b as u64);
    push_slice(&mut out, ", C: ".as_bytes());
    push_dec(&mut out, c as u64);
    push_slice(&mut out, "]".as_bytes());
    proof {
        assert(out@ =~= abc_text_spec(name.spec_bytes(), a, b, c));
    }
    out
}

fn ab_text(name: &str, a: usize, b: usize) -> (r: Vec<u8>)
    ensures
        r@ == ab_text_spec(name.spec_bytes(), a, b),
{
    let mut out: Vec<u8> = Vec::new();
    push_slice(&mut out, name.as_bytes());
    push_slice(&mut out, ": [A: ".as_bytes());
    push_dec(&mut out, a as u64);
    push_slice(&mut out, ", B: ".as_bytes());
    push_dec(&mut out, b as u64);
    push_slice(&mut out, "]".as_bytes());
    proof {
        assert(out@ =~= ab_text_spec(name.spec_bytes(), a, b));
    }
    out
}

fn asb_text(name: &str, a: usize, b: isize) -> (r: Vec<u8>)
    ensures
        r@ == asb_text_spec(name.spec_bytes(), a, b),
{
    let mut out: Vec<u8> = Vec::new();
    push_slice(&mut out, name.as_bytes());
    push_slice(&mut out, ": [A: ".as_bytes());
    push_dec(&mut out, a as u64);
    push_slice(&mut out, ", B: ".as_bytes());
    proof {
        assert(b as i64 as int == b as int);
    }
    push_sdec(&mut out, b as i64);
    push_slice(&mut out, "]".as_bytes());
    proof {
        assert(out@ =~= asb_text_spec(name.spec_bytes(), a, b));
    }
    out
}

/// The display line of an instruction: its padded mnemonic and its
/// operand fields.
pub open spec fn instruction_text(i: Instruction) -> Seq<u8> {
    match i {
        Instruction::Move(a, b, c) => abc_text_spec(encode_utf8("Move      "@), a, b, c),
        Instruction::LoadK(a, b) => ab_text_spec(encode_utf8("LoadK     "@), a, b),
        Instruction::LoadBool(a, b, c) => abc_text_spec(encode_utf8("LoadBool  "@), a, b, c),
        Instruction::LoadNil(a, b, c) => abc_text_spec(encode_utf8("LoadNil   "@), a, b, c),
        Instruction::GetUpVal(a, b, c) => abc_text_spec(encode_utf8("GetUpVal  "@), a, b, c),
        Instruction::GetGlobal(a, b) => ab_text_spec(encode_utf8("GetGlobal "@), a, b),
        Instruction::SetGlobal(a, b) => ab_text_spec(encode_utf8("SetGlobal "@), a, b),
        Instruction::SetUpVal(a, b, c) => abc_text_spec(encode_utf8("SetUpVal  "@), a, b, c),
        Instruction::GetTable(a, b, c) => abc_text_spec(encode_utf8("GetTable  "@), a, b, c),
        Instruction::SetTable(a, b, c) => abc_text_spec(encode_utf8("SetTable  "@), a, b, c),
        Instruction::NewTable(a, b, c) => abc_text_spec(encode_utf8("NewTable  "@), a, b, c),
        Instruction::SelF(a, b, c) => abc_text_spec(encode_utf8("Self      "@), a, b, c),
        Instruction::Add(a, b, c) => abc_text_spec(encode_utf8("Add       "@), a, b, c),
        Instruction::Sub(a, b, c) => abc_text_spec(encode_utf8("Sub       "@), a, b, c),
        Instruction::Mul(a, b, c) => abc_text_spec(encode_utf8("Mul       "@), a, b, c),
        Instruction::Div(a, b, c) => abc_text_spec(encode_utf8("Div       "@), a, b, c),
        Instruction::Mod(a, b, c) => abc_text_spec(encode_utf8("Mod       "@), a, b, c),
        Instruction::Pow(a, b, c) => abc_text_spec(encode_utf8("Pow       "@), a, b, c),
        Instruction::Unm(a, b, c) => abc_text_spec(encode_utf8("Unm       "@), a, b, c),
        Instruction::Not(a, b, c) => abc_text_spec(encode_utf8("Not       "@), a, b, c),
        Instruction::Len(a, b, c) => abc_text_spec(encode_utf8("Len       "@), a, b, c),
        Instruction::Concat(a, b, c) => abc_text_spec(encode_utf8("Concat    "@), a, b, c),
        Instruction::Jmp(a, b) => asb_text_spec(encode_utf8("Jmp       "@), a, b),
        Instruction::Eq(a, b, c) => abc_text_spec(encode_utf8("Eq        "@), a, b, c),
        Instruction::Lt(a, b, c) => abc_text_spec(encode_utf8("Lt        "@), a, b, c),
        Instruction::Le(a, b, c) => abc_text_spec(encode_utf8("Le        "@), a, b, c),
        Instruction::Test(a, b, c) => abc_text_spec(encode_utf8("Test      "@), a, b, c),
        Instruction::TestSet(a, b, c) => abc_text_spec(encode_utf8("TestSet   "@), a, b, c),
        Instruction::Call(a, b, c) => abc_text_spec(encode_utf8("Call      "@), a, b, c),
        Instruction::TailCall(a, b, c) => abc_text_spec(encode_utf8("TailCall  "@), a, b, c),
        Instruction::Return(a, b, c) => abc_text_spec(encode_utf8("Return    "@), a, b, c),
        Instruction::ForLoop(a, b) => asb_text_spec(encode_utf8("ForLoop   "@), a, b),
        Instruction::ForPrep(a, b) => asb_text_spec(encode_utf8("ForPrep   "@), a, b),
        Instruction::TForLoop(a, b, c) => abc_text_spec(encode_utf8("TForLoop  "@), a, b, c),
        Instruction::SetList(a, b, c) => abc_text_spec(encode_utf8("SetList   "@), a, b, c),
        Instruction::Close(a, b, c) => abc_text_spec(encode_utf8("Close     "@), a, b, c),
        Instruction::Closure(a, b) => ab_text_spec(encode_utf8("Closure   "@), a, b),
        Instruction::VarArg(a, b, c) => abc_text_spec(encode_utf8("VarArg    "@), a, b, c),
    }
}

impl Instruction {
    /// The display line of this instruction.
    pub fn text(&self) -> (r: Vec<u8>)
        ensures
            r@ == instruction_text(*self),
    {
        match *self {
            Instruction::Move(a, b, c) => abc_text("Move      ", a, b, c),
            Instruction::LoadK(a, b) => ab_text("LoadK     ", a, b),
            Instruction::LoadBool(a, b, c) => abc_text("LoadBool  ", a, b, c),
            Instruction::LoadNil(a, b, c) => abc_text("LoadNil   ", a, b, c),
            Instruction::GetUpVal(a, b, c) => abc_text("GetUpVal  ", a, b, c),
            Instruction::GetGlobal(a, b) => ab_text("GetGlobal ", a, b),
            Instruction::SetGlobal(a, b) => ab_text("SetGlobal ", a, b),
            Instruction::SetUpVal(a, b, c) => abc_text("SetUpVal  ", a, b, c),
            Instruction::GetTable(a, b, c) => abc_text("GetTable  ", a, b, c),
            Instruction::SetTable(a, b, c) => abc_text("SetTable  ", a, b, c),
            Instruction::NewTable(a, b, c) => abc_text("NewTable  ", a, b, c),
            Instruction::SelF(a, b, c) => abc_text("Self      ", a, b, c),
            Instruction::Add(a, b, c) => abc_text("Add       ", a, b, c),
            Instruction::Sub(a, b, c) => abc_text("Sub       ", a, b, c),
            Instruction::Mul(a, b, c) => abc_text("Mul       ", a, b, c),
            Instruction::Div(a, b, c) => abc_text("Div       ", a, b, c),
            Instruction::Mod(a, b, c) => abc_text("Mod       ", a, b, c),
            Instruction::Pow(a, b, c) => abc_text("Pow       ", a, b, c),
            Instruction::Unm(a, b, c) => abc_text("Unm       ", a, b, c),
            Instruction::Not(a, b, c) => abc_text("Not       ", a, b, c),
            Instruction::Len(a, b, c) => abc_text("Len       ", a, b, c),
            Instruction::Concat(a, b, c) => abc_text("Concat    ", a, b, c),
            Instruction::Jmp(a, b) => asb_text("Jmp       ", a, b),
            Instruction::Eq(a, b, c) => abc_text("Eq        ", a, b, c),
            Instruction::Lt(a, b, c) => abc_text("Lt        ", a, b, c),
            Instruction::Le(a, b, c) => abc_text("Le        ", a, b, c),
            Instruction::Test(a, b, c) => abc_text("Test      ", a, b, c),
            Instruction::TestSet(a, b, c) => abc_text("TestSet   ", a, b, c),
            Instruction::Call(a, b, c) => abc_text("Call      ", a, b, c),
            Instruction::TailCall(a, b, c) => abc_text("TailCall  ", a, b, c),
            Instruction::Return(a, b, c) => abc_text("Return    ", a, b, c),
            Instruction::ForLoop(a, b) => asb_text("ForLoop   ", a, b),
            Instruction::ForPrep(a, b) => asb_text("ForPrep   ", a, b),
            Instruction::TForLoop(a, b, c) => abc_text("TForLoop  ", a, b, c),
            Instruction::SetList(a, b, c) => abc_text("SetList   ", a, b, c),
            Instruction::Close(a, b, c) => abc_text("Close     ", a, b, c),
            Instruction::Closure(a, b) => ab_text("Closure   ", a, b),
            Instruction::VarArg(a, b, c) => abc_text("VarArg    ", a, b, c),
        }
    }

    pub fn build_abc(opcode: u64, a: u64, b: u64, c: u64) -> (r: Result<
        Instruction,
        InstructionError,
    >)
        ensures
            r == build_abc_spec(opcode, a, b, c),
    {
        let x = a as usize;
        let y = b as usize;
        let z = c as usize;
        match opcode {
            0 => Ok(Instruction::Move(x, y, z)),
            2 => Ok(Instruction::LoadBool(x, y, z)),
            3 => Ok(Instruction::LoadNil(x, y, z)),
            4 => Ok(Instruction::GetUpVal(x, y, z)),
            6 => Ok(Instruction::GetTable(x, y, z)),
            8 => Ok(Instruction::SetUpVal(x, y, z)),
            9 => Ok(Instruction::SetTable(x, y, z)),
            10 => Ok(Instruction::NewTable(x, y, z)),
            11 => Ok(Instruction::SelF(x, y, z)),
            12 => Ok(Instruction::Add(x, y, z)),
            13 => Ok(Instruction::Sub(x, y, z)),
            14 => Ok(Instruction::Mul(x, y, z)),
            15 => Ok(Instruction::Div(x, y, z)),
            16 => Ok(Instruction::Mod(x, y, z)),
            17 => Ok(Instruction::Pow(x, y, z)),
            18 => Ok(Instruction::Unm(x, y, z)),
            19 => Ok(Instruction::Not(x, y, z)),
            20 => Ok(Instruction::Len(x, y, z)),
            21 => Ok(Instruction::Concat(x, y, z)),
            23 => Ok(Instruction::Eq(x, y, z)),
            24 => Ok(Instruction::Lt(x, y, z)),
            25 => Ok(Instruction::Le(x, y, z)),
            26 => Ok(Instruction::Test(x, y, z)),
            27 => Ok(Instruction::TestSet(x, y, z)),
            28 => Ok(Instruction::Call(x, y, z)),
            29 => Ok(Instruction::TailCall(x, y, z)),
            30 => Ok(Instruction::Return(x, y, z)),
            33 => Ok(Instruction::TForLoop(x, y, z)),
            34 => Ok(Instruction::SetList(x, y, z)),
            35 => Ok(Instruction::Close(x, y, z)),
            37 => Ok(Instruction::VarArg(x, y, z)),
            _ => Err(InstructionError::NotABCError { instr_code: opcode }),
        }
    }

    pub fn build_abx(opcode: u64, a: u64, b: u64) -> (r: Result<Instruction, InstructionError>)
        ensures
            r == build_abx_spec(opcode, a, b),
    {
        let x = a as usize;
        let y = b as usize;
        match opcode {
            1 => Ok(Instruction::LoadK(x, y)),
            5 => Ok(Instruction::GetGlobal(x, y)),
            7 => Ok(Instruction::SetGlobal(x, y)),
            36 => Ok(Instruction::Closure(x, y)),
            _ => Err(InstructionError::NotABxError { instr_code: opcode }),
        }
    }

    pub fn build_asb(opcode: u64, a: u64, b: i64) -> (r: Result<Instruction, InstructionError>)
        ensures
            r == build_asb_spec(opcode, a, b),
    {
        let x = a as usize;
        let y = b as isize;
        match opcode {
            22 => Ok(Instruction::Jmp(x, y)),
            31 => Ok(Instruction::ForLoop(x, y)),
            32 => Ok(Instruction::ForPrep(x, y)),
            _ => Err(InstructionError::NotAsBError { instr_code: opcode }),
        }
    }
}

} // verus!
