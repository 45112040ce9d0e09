//! The loader: an endian-aware, bounds-checked reader over the image
//! bytes, and the decoding of header, constants, instructions and the
//! recursive prototype tree.  Every reader is pinned to a specification
//! parser over the byte sequence.

use vstd::prelude::*;
use vstd::arithmetic::div_mod::{lemma_add_mod_noop, lemma_mul_mod_noop_left};

use crate::config::Vmconfig;
use crate::constant::{Constant, ConstantModel};
use crate::function::{proto_count, proto_count_list, Function};
use vstd::utf8::encode_utf8;

use crate::instruction::{
    build_abc_spec,
    build_abx_spec,
    build_asb_spec,
    instruction_error_text,
    Instruction,
    InstructionError,
};
use crate::text::{dec_spec, push_bytes, push_dec, push_slice};
use crate::local_variable::LocalVariable;
use crate::metadata::Metadata;

verus! {

#[derive(PartialEq, Eq, Structural, Clone, Copy, Debug)]
pub enum DecompileError {
    SignatureError,
    MetadataError,
    FileFormatError,
    VersionDataError,
    ConstantTypeError,
    InstrEncodingError { instr_code: u64 },
    InstrABError { instr_error: InstructionError },
}

/// The diagnostic text of a loader error.
pub open spec fn decompile_error_text(e: DecompileError) -> Seq<u8> {
    match e {
        DecompileError::SignatureError => encode_utf8("Signature is invalid"@),
        DecompileError::MetadataError => encode_utf8("Missing Metadata"@),
        DecompileError::FileFormatError => encode_utf8("Early end of file"@),
        DecompileError::VersionDataError => encode_utf8(
            "Version of compiler is not the one specified in command line"@,
        ),
        DecompileError::ConstantTypeError => encode_utf8("byte does not specify constant type"@),
        DecompileError::InstrEncodingError { instr_code } => encode_utf8(
            "Instruction opcode: "@,
        ) + dec_spec(instr_code as nat) + encode_utf8(" is not recognized"@),
        DecompileError::InstrABError { instr_error } => encode_utf8("Instruction Error: "@)
            + instruction_error_text(instr_error),
    }
}

impl DecompileError {
    /// The diagnostic text of this error.
    pub fn message(&self) -> (r: Vec<u8>)
        ensures
            r@ == decompile_error_text(*self),
    {
        let mut out: Vec<u8> = Vec::new();
        match *self {
            DecompileError::SignatureError => {
                push_slice(&mut out, "Signature is invalid".as_bytes());
            },
            DecompileError::MetadataError => {
                push_slice(&mut out, "Missing Metadata".as_bytes());
            },
            DecompileError::FileFormatError => {
                push_slice(&mut out, "Early end of file".as_bytes());
            },
            DecompileError::VersionDataError => {
                push_slice(
                    &mut out,
                    "Version of compiler is not the one specified in command line".as_bytes(),
                );
            },
            DecompileError::ConstantTypeError => {
                push_slice(&mut out, "byte does not specify constant type".as_bytes());
            },
            DecompileError::InstrEncodingError { instr_code } => {
                push_slice(&mut out, "Instruction opcode: ".as_bytes());
                push_dec(&mut out, instr_code);
                push_slice(&mut out, " is not recognized".as_bytes());
            },
            DecompileError::InstrABError { instr_error } => {
                push_slice(&mut out, "Instruction Error: ".as_bytes());
                let inner = instr_error.message();
                push_bytes(&mut out, &inner);
            },
        }
        proof {
            assert(out@ =~= decompile_error_text(*self));
        }
        out
    }
}

/// The byte stream of an image: the bytes and how far they are read.
pub struct ByteCursor {
    data: Vec<u8>,
    pos: usize,
}

impl ByteCursor {
    pub closed spec fn bytes(&self) -> Seq<u8> {
        self.data@
    }

    pub closed spec fn position(&self) -> int {
        self.pos as int
    }

    pub open spec fn wf(&self) -> bool {
        self.position() <= self.bytes().len()
    }

    pub fn new(data: Vec<u8>) -> (r: ByteCursor)
        ensures
            r.bytes() == data@,
            r.position() == 0,
            r.wf(),
    {
        ByteCursor { data, pos: 0 }
    }

    /// How many bytes the stream holds in all.
    pub fn total_len(&self) -> (r: usize)
        ensures
            r == self.bytes().len(),
    {
        self.data.len()
    }

    /// How many bytes are left to read.
    pub fn remaining(&self) -> (r: usize)
        requires
            self.wf(),
        ensures
            r == self.bytes().len() - self.position(),
    {
        self.data.len() - self.pos
    }
}

/// One past the largest value a register of sixty-four bits holds.
pub open spec fn pow2_64() -> nat {
    0x1_0000_0000_0000_0000
}

/// The value of a big-endian byte string: the first byte is the most
/// significant.
pub open spec fn be_val(s: Seq<u8>) -> nat
    decreases s.len(),
{
    if s.len() == 0 {
        0
    } else {
        (be_val(s.drop_last()) * 256 + s.last()) as nat
    }
}

/// The value of a little-endian byte string: the first byte is the least
/// significant.
pub open spec fn le_val(s: Seq<u8>) -> nat
    decreases s.len(),
{
    if s.len() == 0 {
        0
    } else {
        (s.first() + 256 * le_val(s.drop_first())) as nat
    }
}

/// Reading a byte string little-endian is reading its reversal big-endian:
/// the equivalence behind byte-swapping an image.
pub proof fn lemma_le_val_is_be_val_of_reverse(s: Seq<u8>)
    ensures
        le_val(s) == be_val(s.reverse()),
    decreases s.len(),
{
    if s.len() > 0 {
        lemma_le_val_is_be_val_of_reverse(s.drop_first());
        assert(s.reverse().drop_last() =~= s.drop_first().reverse());
        assert(s.reverse().last() == s.first());
    }
}

/// The value of `size` bytes in the endianness the header declares.
pub open spec fn int_val(s: Seq<u8>, bigendian: bool) -> nat {
    if bigendian {
        be_val(s)
    } else {
        le_val(s)
    }
}

/// What reading a `size`-byte integer at `p` yields: the value reduced to
/// sixty-four bits as the original's wrapping arithmetic leaves it, and
/// the next position; too few bytes is a truncation error.
pub open spec fn int_parse(s: Seq<u8>, p: int, size: int, bigendian: bool) -> Result<
    (u64, int),
    DecompileError,
> {
    if p + size <= s.len() {
        Ok(((int_val(s.subrange(p, p + size), bigendian) % pow2_64()) as u64, p + size))
    } else {
        Err(DecompileError::FileFormatError)
    }
}

/// One step of the big-endian fold, reduced to sixty-four bits.
fn wrap_step(res: u64, byte: u8) -> (r: u64)
    ensures
        r == ((res * 256 + byte) as nat) % pow2_64(),
{
    let wide: u128 = (res as u128) * 256 + (byte as u128);
    let m: u128 = 0x1_0000_0000_0000_0000;
    (wide % m) as u64
}

/// Folding one more byte below a reduced value is the reduced fold.
proof fn lemma_wrap_fold(x: nat, b: nat)
    ensures
        (((x % pow2_64()) * 256 + b) % pow2_64()) == ((x * 256 + b) % pow2_64()),
{
    let m = pow2_64() as int;
    lemma_mul_mod_noop_left(x as int, 256, m);
    lemma_add_mod_noop((x % pow2_64()) as int * 256, b as int, m);
    lemma_add_mod_noop(x as int * 256, b as int, m);
}

/// Reads the next byte, or reports `err` at the end of the stream.
pub fn next_byte_or_error(cur: &mut ByteCursor, err: DecompileError) -> (r: Result<
    u8,
    DecompileError,
>)
    requires
        old(cur).wf(),
    ensures
        final(cur).bytes() == old(cur).bytes(),
        final(cur).wf(),
        match r {
            Ok(b) => {
                &&& old(cur).position() < old(cur).bytes().len()
                &&& b == old(cur).bytes()[old(cur).position()]
                &&& final(cur).position() == old(cur).position() + 1
            },
            Err(e) => {
                &&& e == err
                &&& old(cur).position() == old(cur).bytes().len()
                &&& final(cur).position() == old(cur).position()
            },
        },
{
    if cur.pos < cur.data.len() {
        let b = cur.data[cur.pos];
        cur.pos = cur.pos + 1;
        Ok(b)
    } else {
        Err(err)
    }
}

/// Reads `size` bytes as a big-endian integer, reduced to sixty-four bits.
pub fn decode_bigendian(cur: &mut ByteCursor, size: u8) -> (r: Result<u64, DecompileError>)
    requires
        old(cur).wf(),
    ensures
        final(cur).bytes() == old(cur).bytes(),
        final(cur).wf(),
        final(cur).position() >= old(cur).position(),
        match r {
            Ok(v) => {
                &&& old(cur).position() + size <= old(cur).bytes().len()
                &&& final(cur).position() == old(cur).position() + size
                &&& v == be_val(
                    old(cur).bytes().subrange(
                        old(cur).position(),
                        old(cur).position() + size,
                    ),
                ) % pow2_64()
            },
            Err(e) => {
                &&& e == DecompileError::FileFormatError
                &&& old(cur).position() + size > old(cur).bytes().len()
                &&& final(cur).position() == old(cur).bytes().len()
            },
        },
{
    let mut res: u64 = 0;
    let mut k: u8 = 0;
    while k < size
        invariant
            cur.wf(),
            cur.bytes() == old(cur).bytes(),
            k <= size,
            cur.position() == old(cur).position() + k,
            res == be_val(
                old(cur).bytes().subrange(old(cur).position(), old(cur).position() + k),
            ) % pow2_64(),
        decreases size - k,
    {
        let ghost pre = old(cur).bytes().subrange(
            old(cur).position(),
            old(cur).position() + k,
        );
        let byte = next_byte_or_error(cur, DecompileError::FileFormatError)?;
        proof {
            let post = old(cur).bytes().subrange(
                old(cur).position(),
                old(cur).position() + k + 1,
            );
            assert(post.drop_last() =~= pre);
            assert(post.last() == byte);
            lemma_wrap_fold(be_val(pre), byte as nat);
        }
        res = wrap_step(res, byte);
        k = k + 1;
    }
    Ok(res)
}

/// Reads `size` bytes as a little-endian integer, reduced to sixty-four
/// bits.
pub fn decode_litendian(cur: &mut ByteCursor, size: u8) -> (r: Result<u64, DecompileError>)
    requires
        old(cur).wf(),
    ensures
        final(cur).bytes() == old(cur).bytes(),
        final(cur).wf(),
        final(cur).position() >= old(cur).position(),
        match r {
            Ok(v) => {
                &&& old(cur).position() + size <= old(cur).bytes().len()
                &&& final(cur).position() == old(cur).position() + size
                &&& v == le_val(
                    old(cur).bytes().subrange(
                        old(cur).position(),
                        old(cur).position() + size,
                    ),
                ) % pow2_64()
            },
            Err(e) => {
                &&& e == DecompileError::FileFormatError
                &&& old(cur).position() + size > old(cur).bytes().len()
                &&& final(cur).position() == old(cur).bytes().len()
            },
        },
{
    let ghost whole = old(cur).bytes().subrange(
        old(cur).position(),
        old(cur).position() + size,
    );
    let mut buf: Vec<u8> = Vec::new();
    let mut k: u8 = 0;
    while k < size
        invariant
            cur.wf(),
            cur.bytes() == old(cur).bytes(),
            k <= size,
            cur.position() == old(cur).position() + k,
            buf@.len() == k as int,
            buf@ == old(cur).bytes().subrange(old(cur).position(), old(cur).position() + k),
        decreases size - k,
    {
        let byte = next_byte_or_error(cur, DecompileError::FileFormatError)?;
        buf.push(byte);
        proof {
            assert(buf@ =~= old(cur).bytes().subrange(
                old(cur).position(),
                old(cur).position() + k + 1,
            ));
        }
        k = k + 1;
    }
    proof {
        assert(buf@ == whole);
    }
    let mut res: u64 = 0;
    let mut j: usize = buf.len();
    while j > 0
        invariant
            j <= buf@.len(),
            buf@ == whole,
            res == be_val(buf@.subrange(j as int, buf@.len() as int).reverse()) % pow2_64(),
        decreases j,
    {
        let ghost pre = buf@.subrange(j as int, buf@.len() as int).reverse();
        j = j - 1;
        proof {
            let post = buf@.subrange(j as int, buf@.len() as int).reverse();
            assert(post.drop_last() =~= pre);
            assert(post.last() == buf@[j as int]);
            lemma_wrap_fold(be_val(pre), buf@[j as int] as nat);
        }
        res = wrap_step(res, buf[j]);
    }
    proof {
        assert(whole.subrange(0, whole.len() as int) =~= whole);
        lemma_le_val_is_be_val_of_reverse(whole);
    }
    Ok(res)
}

/// Reads `size` bytes as an integer in the given endianness.
pub fn decode_int(cur: &mut ByteCursor, size: u8, bigendian: bool) -> (r: Result<
    u64,
    DecompileError,
>)
    requires
        old(cur).wf(),
    ensures
        final(cur).bytes() == old(cur).bytes(),
        final(cur).wf(),
        final(cur).position() >= old(cur).position(),
        match r {
            Ok(v) => int_parse(old(cur).bytes(), old(cur).position(), size as int, bigendian)
                == Ok::<_, DecompileError>((v, final(cur).position())),
            Err(e) => int_parse(old(cur).bytes(), old(cur).position(), size as int, bigendian)
                == Err::<(u64, int), _>(e) && final(cur).position() == old(cur).bytes().len(),
        },
{
    let res = if bigendian {
        decode_bigendian(cur, size)?
    } else {
        decode_litendian(cur, size)?
    };
    Ok(res)
}

/// The four-byte signature every image opens with.
pub const SIGNATURE: u64 = 0x1B4C7561;

/// How many bytes the signature takes.
pub const SIGNATURE_SIZE: u8 = 4;

/// Reads and checks the signature.
pub fn decode_signature(cur: &mut ByteCursor) -> (r: Result<(), DecompileError>)
    requires
        old(cur).wf(),
    ensures
        final(cur).bytes() == old(cur).bytes(),
        final(cur).wf(),
        final(cur).position() >= old(cur).position(),
        match r {
            Ok(_) => {
                &&& old(cur).position() + 4 <= old(cur).bytes().len()
                &&& be_val(
                    old(cur).bytes().subrange(old(cur).position(), old(cur).position() + 4),
                ) % pow2_64() == SIGNATURE
                &&& final(cur).position() == old(cur).position() + 4
            },
            Err(e) => (e == DecompileError::SignatureError && old(cur).position() + 4 <= old(
                cur,
            ).bytes().len() && be_val(
                old(cur).bytes().subrange(old(cur).position(), old(cur).position() + 4),
            ) % pow2_64() != SIGNATURE) || (e == DecompileError::FileFormatError && old(
                cur,
            ).position() + 4 > old(cur).bytes().len()),
        },
{
    let res = decode_bigendian(cur, SIGNATURE_SIZE)?;
    if res != SIGNATURE {
        return Err(DecompileError::SignatureError);
    }
    Ok(())
}

/// What the eight header bytes at `p` denote.
pub open spec fn metadata_parse(s: Seq<u8>, p: int) -> Result<(Metadata, int), DecompileError> {
    if p + 8 <= s.len() {
        Ok(
            (
                Metadata {
                    version: s[p],
                    format: s[p + 1],
                    bigendian: s[p + 2] == 0,
                    i_size: s[p + 3],
                    u_size: s[p + 4],
                    instr_size: s[p + 5],
                    number_size: s[p + 6],
                    int_flag: s[p + 7] == 1,
                },
                p + 8,
            ),
        )
    } else {
        Err(DecompileError::MetadataError)
    }
}

/// Reads the eight header bytes.
pub fn decode_metadata(cur: &mut ByteCursor) -> (r: Result<Metadata, DecompileError>)
    requires
        old(cur).wf(),
    ensures
        final(cur).bytes() == old(cur).bytes(),
        final(cur).wf(),
        final(cur).position() >= old(cur).position(),
        match r {
            Ok(m) => metadata_parse(old(cur).bytes(), old(cur).position()) == Ok::<
                _,
                DecompileError,
            >((m, final(cur).position())),
            Err(e) => metadata_parse(old(cur).bytes(), old(cur).position()) == Err::<
                (Metadata, int),
                _,
            >(e),
        },
{
    let version = next_byte_or_error(cur, DecompileError::MetadataError)?;
    let format = next_byte_or_error(cur, DecompileError::MetadataError)?;
    let endian = next_byte_or_error(cur, DecompileError::MetadataError)?;
    let i_size = next_byte_or_error(cur, DecompileError::MetadataError)?;
    let u_size = next_byte_or_error(cur, DecompileError::MetadataError)?;
    let instr_size = next_byte_or_error(cur, DecompileError::MetadataError)?;
    let number_size = next_byte_or_error(cur, DecompileError::MetadataError)?;
    let int_flag = next_byte_or_error(cur, DecompileError::MetadataError)?;
    Ok(
        Metadata {
            version,
            format,
            bigendian: endian == 0,
            i_size,
            u_size,
            instr_size,
            number_size,
            int_flag: int_flag == 1,
        },
    )
}

/// Checks that the image was built by the compiler version the command
/// line expects.
pub fn verify_metadata(metadata: &Metadata, config: Vmconfig) -> (r: Result<(), DecompileError>)
    ensures
        r is Ok <==> metadata.version as u32 == config.ver_spec(),
        r is Err ==> r == Err::<(), _>(DecompileError::VersionDataError),
{
    if metadata.version as u32 != config.get_ver() {
        return Err(DecompileError::VersionDataError);
    }
    Ok(())
}

/// What reading a string of declared length `size` at `p` yields: its
/// bytes without the trailing terminator, and the next position.
pub open spec fn str_parse(s: Seq<u8>, p: int, size: u64) -> Result<(Seq<u8>, int), DecompileError> {
    if size == 0 {
        Ok((Seq::empty(), p))
    } else if p + size <= s.len() {
        Ok((s.subrange(p, p + size - 1), p + size))
    } else {
        Err(DecompileError::FileFormatError)
    }
}

/// Reads a string of `size` bytes, dropping the trailing terminator; a
/// zero declared length reads nothing.
pub fn decode_str(cur: &mut ByteCursor, size: u64) -> (r: Result<Vec<u8>, DecompileError>)
    requires
        old(cur).wf(),
    ensures
        final(cur).bytes() == old(cur).bytes(),
        final(cur).wf(),
        final(cur).position() >= old(cur).position(),
        match r {
            Ok(s) => str_parse(old(cur).bytes(), old(cur).position(), size) == Ok::<
                _,
                DecompileError,
            >((s@, final(cur).position())),
            Err(e) => str_parse(old(cur).bytes(), old(cur).position(), size) == Err::<
                (Seq<u8>, int),
                _,
            >(e) && final(cur).position() == old(cur).bytes().len(),
        },
{
    let mut s: Vec<u8> = Vec::new();
    if size != 0 {
        let mut k: u64 = 0;
        while k < size - 1
            invariant
                size > 0,
                cur.wf(),
                cur.bytes() == old(cur).bytes(),
                k <= size - 1,
                cur.position() == old(cur).position() + k,
                s@.len() == k as int,
                s@ == old(cur).bytes().subrange(old(cur).position(), old(cur).position() + k),
            decreases size - k,
        {
            let c = next_byte_or_error(cur, DecompileError::FileFormatError)?;
            s.push(c);
            proof {
                assert(s@ =~= old(cur).bytes().subrange(
                    old(cur).position(),
                    old(cur).position() + k + 1,
                ));
            }
            k = k + 1;
        }
        next_byte_or_error(cur, DecompileError::FileFormatError)?;
    }
    Ok(s)
}

/// `s` bits of `n` starting at position `p`.
pub open spec fn get_bits_spec(n: u64, p: u64, s: u64) -> u64 {
    (n >> p) & !((!0u64) << s)
}

/// Extracts `s` bits of `n` at position `p`.
pub fn get_bits(n: u64, p: u8, s: u8) -> (r: u64)
    requires
        p < 64,
        s < 64,
    ensures
        r == get_bits_spec(n, p as u64, s as u64),
{
    (n >> (p as u64)) & !((!0u64) << (s as u64))
}

pub open spec fn is_abc_opcode(op: u64) -> bool {
    op == 0 || (2 <= op <= 4) || op == 6 || (8 <= op <= 21) || (23 <= op <= 30) || op == 33 || op
        == 34 || op == 35 || op == 37
}

pub open spec fn is_abx_opcode(op: u64) -> bool {
    op == 1 || op == 5 || op == 7 || op == 36
}

pub open spec fn is_asb_opcode(op: u64) -> bool {
    op == 22 || op == 31 || op == 32
}

/// The instruction a code word denotes: six opcode bits select the
/// encoding family, and the operand fields are fixed bit ranges.
pub open spec fn instruction_of_word(w: u64) -> Result<Instruction, DecompileError> {
    let opcode = get_bits_spec(w, 0, 6);
    if is_abc_opcode(opcode) {
        match build_abc_spec(
            opcode,
            get_bits_spec(w, 6, 8),
            get_bits_spec(w, 23, 9),
            get_bits_spec(w, 14, 9),
        ) {
            Ok(i) => Ok(i),
            Err(e) => Err(DecompileError::InstrABError { instr_error: e }),
        }
    } else if is_abx_opcode(opcode) {
        match build_abx_spec(opcode, get_bits_spec(w, 6, 8), get_bits_spec(w, 14, 18)) {
            Ok(i) => Ok(i),
            Err(e) => Err(DecompileError::InstrABError { instr_error: e }),
        }
    } else if is_asb_opcode(opcode) {
        match build_asb_spec(
            opcode,
            get_bits_spec(w, 6, 8),
            (get_bits_spec(w, 14, 18) - 131071) as i64,
        ) {
            Ok(i) => Ok(i),
            Err(e) => Err(DecompileError::InstrABError { instr_error: e }),
        }
    } else {
        Err(DecompileError::InstrEncodingError { instr_code: opcode })
    }
}

/// Builds the ABC instruction a code word holds.
pub fn get_register_abc(instruction_bytes: u64, opcode: u64) -> (r: Result<
    Instruction,
    DecompileError,
>)
    ensures
        r == (match build_abc_spec(
            opcode,
            get_bits_spec(instruction_bytes, 6, 8),
            get_bits_spec(instruction_bytes, 23, 9),
            get_bits_spec(instruction_bytes, 14, 9),
        ) {
            Ok(i) => Ok::<Instruction, DecompileError>(i),
            Err(e) => Err(DecompileError::InstrABError { instr_error: e }),
        }),
{
    let a = get_bits(instruction_bytes, 6, 8);
    let b = get_bits(instruction_bytes, 23, 9);
    let c = get_bits(instruction_bytes, 14, 9);
    match Instruction::build_abc(opcode, a, b, c) {
        Ok(i) => Ok(i),
        Err(err) => Err(DecompileError::InstrABError { instr_error: err }),
    }
}

/// Builds the ABx instruction a code word holds.
pub fn get_register_abx(instruction_bytes: u64, opcode: u64) -> (r: Result<
    Instruction,
    DecompileError,
>)
    ensures
        r == (match build_abx_spec(
            opcode,
            get_bits_spec(instruction_bytes, 6, 8),
            get_bits_spec(instruction_bytes, 14, 18),
        ) {
            Ok(i) => Ok::<Instruction, DecompileError>(i),
            Err(e) => Err(DecompileError::InstrABError { instr_error: e }),
        }),
{
    let a = get_bits(instruction_bytes, 6, 8);
    let b = get_bits(instruction_bytes, 14, 18);
    match Instruction::build_abx(opcode, a, b) {
        Ok(i) => Ok(i),
        Err(err) => Err(DecompileError::InstrABError { instr_error: err }),
    }
}

/// Builds the AsBx instruction a code word holds; the offset field is
/// biased by 131071.
pub fn get_register_asb(instruction_bytes: u64, opcode: u64) -> (r: Result<
    Instruction,
    DecompileError,
>)
    ensures
        r == (match build_asb_spec(
            opcode,
            get_bits_spec(instruction_bytes, 6, 8),
            (get_bits_spec(instruction_bytes, 14, 18) - 131071) as i64,
        ) {
            Ok(i) => Ok::<Instruction, DecompileError>(i),
            Err(e) => Err(DecompileError::InstrABError { instr_error: e }),
        }),
{
    let a = get_bits(instruction_bytes, 6, 8);
    let raw = get_bits(instruction_bytes, 14, 18);
    proof {
        assert(get_bits_spec(instruction_bytes, 14, 18) < 0x40000) by (bit_vector);
    }
    let b: i64 = raw as i64 - 131071;
    match Instruction::build_asb(opcode, a, b) {
        Ok(i) => Ok(i),
        Err(err) => Err(DecompileError::InstrABError { instr_error: err }),
    }
}

/// What reading one instruction at `p` yields.
pub open spec fn instruction_parse(s: Seq<u8>, p: int, meta: Metadata) -> Result<
    (Instruction, int),
    DecompileError,
> {
    match int_parse(s, p, meta.instr_size as int, meta.bigendian) {
        Ok((w, q)) => match instruction_of_word(w) {
            Ok(i) => Ok((i, q)),
            Err(e) => Err(e),
        },
        Err(e) => Err(e),
    }
}

/// Reads one fixed-width code word and decodes its instruction.
pub fn decode_instruction(cur: &mut ByteCursor, metadata: &Metadata) -> (r: Result<
    Instruction,
    DecompileError,
>)
    requires
        old(cur).wf(),
    ensures
        final(cur).bytes() == old(cur).bytes(),
        final(cur).wf(),
        final(cur).position() >= old(cur).position(),
        match r {
            Ok(i) => instruction_parse(old(cur).bytes(), old(cur).position(), *metadata) == Ok::<
                _,
                DecompileError,
            >((i, final(cur).position())),
            Err(e) => instruction_parse(old(cur).bytes(), old(cur).position(), *metadata)
                == Err::<(Instruction, int), _>(e),
        },
{
    let instruction_bytes = decode_int(cur, metadata.instr_size, metadata.bigendian)?;
    let opcode = get_bits(instruction_bytes, 0, 6);
    proof {
        assert(get_bits_spec(instruction_bytes, 0, 6) < 64) by (bit_vector);
    }
    if opcode == 0 || (2 <= opcode && opcode <= 4) || opcode == 6 || (8 <= opcode && opcode <= 21)
        || (23 <= opcode && opcode <= 30) || opcode == 33 || opcode == 34 || opcode == 35 || opcode
        == 37 {
        Ok(get_register_abc(instruction_bytes, opcode)?)
    } else if opcode == 1 || opcode == 5 || opcode == 7 || opcode == 36 {
        Ok(get_register_abx(instruction_bytes, opcode)?)
    } else if opcode == 22 || opcode == 31 || opcode == 32 {
        Ok(get_register_asb(instruction_bytes, opcode)?)
    } else {
        Err(DecompileError::InstrEncodingError { instr_code: opcode })
    }
}

/// What reading one constant at `p` yields: a type byte, then the payload
/// its type demands.
pub open spec fn constant_parse(s: Seq<u8>, p: int, meta: Metadata) -> Result<
    (ConstantModel, int),
    DecompileError,
> {
    if p >= s.len() {
        Err(DecompileError::FileFormatError)
    } else {
        let tag = s[p];
        if tag == 0 {
            Ok((ConstantModel::Null, p + 1))
        } else if tag == 1 {
            if p + 2 <= s.len() {
                Ok((ConstantModel::Boolean(s[p + 1] != 0), p + 2))
            } else {
                Err(DecompileError::FileFormatError)
            }
        } else if tag == 3 {
            match int_parse(s, p + 1, meta.number_size as int, meta.bigendian) {
                Ok((v, q)) => Ok((ConstantModel::Number(v), q)),
                Err(e) => Err(e),
            }
        } else if tag == 4 {
            match int_parse(s, p + 1, meta.u_size as int, meta.bigendian) {
                Ok((sz, q)) => match str_parse(s, q, sz) {
                    Ok((bytes, q2)) => Ok((ConstantModel::String(bytes), q2)),
                    Err(e) => Err(e),
                },
                Err(e) => Err(e),
            }
        } else {
            Err(DecompileError::ConstantTypeError)
        }
    }
}

/// Reads one constant: nil, a boolean byte, a number held as its bit
/// pattern, or a length-prefixed string.
pub fn decode_constant(cur: &mut ByteCursor, metadata: &Metadata) -> (r: Result<
    Constant,
    DecompileError,
>)
    requires
        old(cur).wf(),
    ensures
        final(cur).bytes() == old(cur).bytes(),
        final(cur).wf(),
        final(cur).position() >= old(cur).position(),
        match r {
            Ok(c) => constant_parse(old(cur).bytes(), old(cur).position(), *metadata) == Ok::<
                _,
                DecompileError,
            >((c@, final(cur).position())),
            Err(e) => constant_parse(old(cur).bytes(), old(cur).position(), *metadata) == Err::<
                (ConstantModel, int),
                _,
            >(e),
        },
{
    let typ = next_byte_or_error(cur, DecompileError::FileFormatError)?;
    if typ == 0 {
        Ok(Constant::Null)
    } else if typ == 1 {
        let byte = next_byte_or_error(cur, DecompileError::FileFormatError)?;
        Ok(Constant::Boolean(byte != 0))
    } else if typ == 3 {
        let n = decode_int(cur, metadata.number_size, metadata.bigendian)?;
        Ok(Constant::Number(n))
    } else if typ == 4 {
        let string_size = decode_int(cur, metadata.u_size, metadata.bigendian)?;
        let bytes = decode_str(cur, string_size)?;
        Ok(Constant::String(bytes))
    } else {
        Err(DecompileError::ConstantTypeError)
    }
}

/// Reads the instruction list: a count, then that many fixed-width words.
pub fn decode_instruction_list(cur: &mut ByteCursor, metadata: &Metadata) -> (r: Result<
    Vec<Instruction>,
    DecompileError,
>)
    requires
        old(cur).wf(),
    ensures
        final(cur).bytes() == old(cur).bytes(),
        final(cur).wf(),
        final(cur).position() >= old(cur).position(),
        r matches Ok(v) ==> int_parse(
            old(cur).bytes(),
            old(cur).position(),
            metadata.i_size as int,
            metadata.bigendian,
        ) matches Ok((cnt, p1)) && v@.len() == cnt as usize && final(cur).position() == p1
            + v@.len() * (metadata.instr_size as int) && (forall|j: int|
            0 <= j < v@.len() ==> instruction_parse(
                old(cur).bytes(),
                p1 + j * (metadata.instr_size as int),
                *metadata,
            ) == Ok::<_, DecompileError>((v@[j], p1 + (j + 1) * (metadata.instr_size as int)))),
        r matches Err(e) ==> match int_parse(
            old(cur).bytes(),
            old(cur).position(),
            metadata.i_size as int,
            metadata.bigendian,
        ) {
            Ok((cnt, p1)) => exists|j: int|
                0 <= j < cnt as usize && (#[trigger] instruction_parse(
                    old(cur).bytes(),
                    p1 + j * (metadata.instr_size as int),
                    *metadata,
                )) is Err,
            Err(e2) => e == e2,
        },
{
    let capacity64 = decode_int(cur, metadata.i_size, metadata.bigendian)?;
    #[verifier::truncate]
    let capacity = capacity64 as usize;
    let ghost p1 = cur.position();
    let ghost data = cur.bytes();
    let mut res: Vec<Instruction> = Vec::new();
    let mut k: usize = 0;
    while k < capacity
        invariant
            cur.wf(),
            cur.bytes() == data,
            data == old(cur).bytes(),
            k <= capacity,
            res@.len() == k,
            cur.position() == p1 + k * (metadata.instr_size as int),
            p1 >= old(cur).position(),
            int_parse(
                data,
                old(cur).position(),
                metadata.i_size as int,
                metadata.bigendian,
            ) matches Ok((cnt0, pp1)) && pp1 == p1 && capacity == cnt0 as usize,
            forall|j: int|
                0 <= j < k ==> instruction_parse(
                    data,
                    p1 + j * (metadata.instr_size as int),
                    *metadata,
                ) == Ok::<_, DecompileError>(
                    (res@[j], p1 + (j + 1) * (metadata.instr_size as int)),
                ),
        decreases capacity - k,
    {
        let i = match decode_instruction(cur, metadata) {
            Ok(i) => i,
            Err(e) => {
                proof {
                    assert(instruction_parse(
                        data,
                        p1 + k * (metadata.instr_size as int),
                        *metadata,
                    ) is Err);
                }
                return Err(e);
            },
        };
        res.push(i);
        proof {
            assert((k + 1) * (metadata.instr_size as int) == k * (metadata.instr_size as int)
                + metadata.instr_size) by (nonlinear_arith);
        }
        k = k + 1;
    }
    Ok(res)
}

/// Reads the line table: a count, then that many integers.
pub fn decode_lines_list(cur: &mut ByteCursor, metadata: &Metadata) -> (r: Result<
    Vec<u64>,
    DecompileError,
>)
    requires
        old(cur).wf(),
    ensures
        final(cur).bytes() == old(cur).bytes(),
        final(cur).wf(),
        final(cur).position() >= old(cur).position(),
        r matches Ok(v) ==> int_parse(
            old(cur).bytes(),
            old(cur).position(),
            metadata.i_size as int,
            metadata.bigendian,
        ) matches Ok((cnt, p1)) && v@.len() == cnt as usize && final(cur).position() == p1
            + v@.len() * (metadata.i_size as int) && (forall|j: int|
            0 <= j < v@.len() ==> int_parse(
                old(cur).bytes(),
                p1 + j * (metadata.i_size as int),
                metadata.i_size as int,
                metadata.bigendian,
            ) == Ok::<_, DecompileError>((v@[j], p1 + (j + 1) * (metadata.i_size as int)))),
        r matches Err(e) ==> match int_parse(
            old(cur).bytes(),
            old(cur).position(),
            metadata.i_size as int,
            metadata.bigendian,
        ) {
            Ok((cnt, p1)) => exists|j: int|
                0 <= j < cnt as usize && (#[trigger] int_parse(
                    old(cur).bytes(),
                    p1 + j * (metadata.i_size as int),
                    metadata.i_size as int,
                    metadata.bigendian,
                )) is Err,
            Err(e2) => e == e2,
        },
{
    let number_lines = decode_int(cur, metadata.i_size, metadata.bigendian)?;
    #[verifier::truncate]
    let capacity = number_lines as usize;
    let ghost p1 = cur.position();
    let ghost data = cur.bytes();
    let mut res: Vec<u64> = Vec::new();
    let mut k: usize = 0;
    while k < capacity
        invariant
            cur.wf(),
            cur.bytes() == data,
            data == old(cur).bytes(),
            k <= capacity,
            res@.len() == k,
            cur.position() == p1 + k * (metadata.i_size as int),
            p1 >= old(cur).position(),
            int_parse(
                data,
                old(cur).position(),
                metadata.i_size as int,
                metadata.bigendian,
            ) matches Ok((cnt0, pp1)) && pp1 == p1 && capacity == cnt0 as usize,
            forall|j: int|
                0 <= j < k ==> int_parse(
                    data,
                    p1 + j * (metadata.i_size as int),
                    metadata.i_size as int,
                    metadata.bigendian,
                ) == Ok::<_, DecompileError>((res@[j], p1 + (j + 1) * (metadata.i_size as int))),
        decreases capacity - k,
    {
        let v = match decode_int(cur, metadata.i_size, metadata.bigendian) {
            Ok(v) => v,
            Err(e) => {
                proof {
                    assert(int_parse(
                        data,
                        p1 + k * (metadata.i_size as int),
                        metadata.i_size as int,
                        metadata.bigendian,
                    ) is Err);
                }
                return Err(e);
            },
        };
        res.push(v);
        proof {
            assert((k + 1) * (metadata.i_size as int) == k * (metadata.i_size as int)
                + metadata.i_size) by (nonlinear_arith);
        }
        k = k + 1;
    }
    Ok(res)
}

/// What reading `n` constants in sequence from `p` yields.
pub open spec fn constant_list_parse(s: Seq<u8>, p: int, meta: Metadata, n: nat) -> Result<
    (Seq<ConstantModel>, int),
    DecompileError,
>
    decreases n,
{
    if n == 0 {
        Ok((Seq::empty(), p))
    } else {
        match constant_parse(s, p, meta) {
            Ok((c, q)) => match constant_list_parse(s, q, meta, (n - 1) as nat) {
                Ok((rest, q2)) => Ok((seq![c] + rest, q2)),
                Err(e) => Err(e),
            },
            Err(e) => Err(e),
        }
    }
}

/// Reads the constant pool: a count, then that many constants.
pub fn decode_constant_list(cur: &mut ByteCursor, metadata: &Metadata) -> (r: Result<
    Vec<Constant>,
    DecompileError,
>)
    requires
        old(cur).wf(),
    ensures
        final(cur).bytes() == old(cur).bytes(),
        final(cur).wf(),
        final(cur).position() >= old(cur).position(),
        r matches Ok(v) ==> int_parse(
            old(cur).bytes(),
            old(cur).position(),
            metadata.i_size as int,
            metadata.bigendian,
        ) matches Ok((cnt, p1)) && v@.len() == cnt as usize && constant_list_parse(
            old(cur).bytes(),
            p1,
            *metadata,
            (cnt as usize) as nat,
        ) == Ok::<_, DecompileError>((v.deep_view(), final(cur).position())),
        r matches Err(e) ==> match int_parse(
            old(cur).bytes(),
            old(cur).position(),
            metadata.i_size as int,
            metadata.bigendian,
        ) {
            Ok((cnt, p1)) => constant_list_parse(
                old(cur).bytes(),
                p1,
                *metadata,
                (cnt as usize) as nat,
            ) is Err,
            Err(e2) => e == e2,
        },
{
    let capacity64 = decode_int(cur, metadata.i_size, metadata.bigendian)?;
    #[verifier::truncate]
    let capacity = capacity64 as usize;
    let ghost p1 = cur.position();
    let ghost data = cur.bytes();
    let mut res: Vec<Constant> = Vec::new();
    let mut k: usize = 0;
    while k < capacity
        invariant
            cur.wf(),
            cur.bytes() == data,
            data == old(cur).bytes(),
            k <= capacity,
            res@.len() == k,
            cur.position() >= p1,
            p1 >= old(cur).position(),
            int_parse(
                data,
                old(cur).position(),
                metadata.i_size as int,
                metadata.bigendian,
            ) matches Ok((cnt0, pp1)) && pp1 == p1 && capacity == cnt0 as usize,
            constant_list_parse(data, p1, *metadata, capacity as nat) == (
            match constant_list_parse(data, cur.position(), *metadata, (capacity - k) as nat) {
                Ok((rest, q2)) => Ok::<_, DecompileError>((res.deep_view() + rest, q2)),
                Err(e) => Err(e),
            }),
        decreases capacity - k,
    {
        let ghost before = res.deep_view();
        let ghost pos0 = cur.position();
        let c = match decode_constant(cur, metadata) {
            Ok(c) => c,
            Err(e) => {
                proof {
                    assert(constant_list_parse(data, pos0, *metadata, (capacity - k) as nat)
                        == Err::<(Seq<ConstantModel>, int), _>(e));
                }
                return Err(e);
            },
        };
        res.push(c);
        proof {
            assert(res.deep_view() =~= before.push(c@));
            match constant_list_parse(data, cur.position(), *metadata, (capacity - k - 1) as nat) {
                Ok((rest2, q2)) => {
                    assert(constant_list_parse(data, pos0, *metadata, (capacity - k) as nat)
                        == Ok::<_, DecompileError>((seq![c@] + rest2, q2)));
                    assert(before + (seq![c@] + rest2) =~= before.push(c@) + rest2);
                },
                Err(e) => {
                    assert(constant_list_parse(data, pos0, *metadata, (capacity - k) as nat)
                        == Err::<(Seq<ConstantModel>, int), _>(e));
                },
            }
        }
        k = k + 1;
    }
    proof {
        assert(constant_list_parse(data, cur.position(), *metadata, 0) == Ok::<
            _,
            DecompileError,
        >((Seq::<ConstantModel>::empty(), cur.position())));
        assert(res.deep_view() + Seq::<ConstantModel>::empty() =~= res.deep_view());
    }
    Ok(res)
}

/// What reading one length-prefixed name at `p` yields.
pub open spec fn name_parse(s: Seq<u8>, p: int, meta: Metadata) -> Result<
    (Seq<u8>, int),
    DecompileError,
> {
    match int_parse(s, p, meta.u_size as int, meta.bigendian) {
        Ok((sz, p1)) => str_parse(s, p1, sz),
        Err(e) => Err(e),
    }
}

/// What reading `n` names in sequence from `p` yields.
pub open spec fn name_list_parse(s: Seq<u8>, p: int, meta: Metadata, n: nat) -> Result<
    (Seq<Seq<u8>>, int),
    DecompileError,
>
    decreases n,
{
    if n == 0 {
        Ok((Seq::empty(), p))
    } else {
        match name_parse(s, p, meta) {
            Ok((name, q)) => match name_list_parse(s, q, meta, (n - 1) as nat) {
                Ok((rest, q2)) => Ok((seq![name] + rest, q2)),
                Err(e) => Err(e),
            },
            Err(e) => Err(e),
        }
    }
}

/// Reads the upvalue-name table: a count, then that many strings.
pub fn decode_upvalues_list(cur: &mut ByteCursor, metadata: &Metadata) -> (r: Result<
    Vec<Vec<u8>>,
    DecompileError,
>)
    requires
        old(cur).wf(),
    ensures
        final(cur).bytes() == old(cur).bytes(),
        final(cur).wf(),
        final(cur).position() >= old(cur).position(),
        r matches Ok(v) ==> int_parse(
            old(cur).bytes(),
            old(cur).position(),
            metadata.i_size as int,
            metadata.bigendian,
        ) matches Ok((cnt, p1)) && v@.len() == cnt as usize && name_list_parse(
            old(cur).bytes(),
            p1,
            *metadata,
            (cnt as usize) as nat,
        ) == Ok::<_, DecompileError>((v.deep_view(), final(cur).position())),
        r matches Err(e) ==> match int_parse(
            old(cur).bytes(),
            old(cur).position(),
            metadata.i_size as int,
            metadata.bigendian,
        ) {
            Ok((cnt, p1)) => name_list_parse(
                old(cur).bytes(),
                p1,
                *metadata,
                (cnt as usize) as nat,
            ) is Err,
            Err(e2) => e == e2,
        },
{
    let number_lines = decode_int(cur, metadata.i_size, metadata.bigendian)?;
    #[verifier::truncate]
    let capacity = number_lines as usize;
    let ghost p1 = cur.position();
    let ghost data = cur.bytes();
    let mut res: Vec<Vec<u8>> = Vec::new();
    let mut k: usize = 0;
    while k < capacity
        invariant
            cur.wf(),
            cur.bytes() == data,
            data == old(cur).bytes(),
            k <= capacity,
            res@.len() == k,
            cur.position() >= p1,
            p1 >= old(cur).position(),
            int_parse(
                data,
                old(cur).position(),
                metadata.i_size as int,
                metadata.bigendian,
            ) matches Ok((cnt0, pp1)) && pp1 == p1 && capacity == cnt0 as usize,
            name_list_parse(data, p1, *metadata, capacity as nat) == (
            match name_list_parse(data, cur.position(), *metadata, (capacity - k) as nat) {
                Ok((rest, q2)) => Ok::<_, DecompileError>((res.deep_view() + rest, q2)),
                Err(e) => Err(e),
            }),
        decreases capacity - k,
    {
        let ghost before = res.deep_view();
        let ghost pos0 = cur.position();
        let string_size = match decode_int(cur, metadata.u_size, metadata.bigendian) {
            Ok(sz) => sz,
            Err(e) => {
                proof {
                    assert(name_parse(data, pos0, *metadata) is Err);
                    assert(name_list_parse(data, pos0, *metadata, (capacity - k) as nat) is Err);
                }
                return Err(e);
            },
        };
        let name = match decode_str(cur, string_size) {
            Ok(v) => v,
            Err(e) => {
                proof {
                    assert(name_parse(data, pos0, *metadata) is Err);
                    assert(name_list_parse(data, pos0, *metadata, (capacity - k) as nat) is Err);
                }
                return Err(e);
            },
        };
        let ghost nv = name@;
        res.push(name);
        proof {
            assert(res.deep_view() =~~= before.push(nv));
            match name_list_parse(data, cur.position(), *metadata, (capacity - k - 1) as nat) {
                Ok((rest2, q2)) => {
                    assert(name_list_parse(data, pos0, *metadata, (capacity - k) as nat) == Ok::<
                        _,
                        DecompileError,
                    >((seq![nv] + rest2, q2)));
                    assert(before + (seq![nv] + rest2) =~= before.push(nv) + rest2);
                },
                Err(e) => {},
            }
        }
        k = k + 1;
    }
    proof {
        assert(name_list_parse(data, cur.position(), *metadata, 0) == Ok::<_, DecompileError>(
            (Seq::<Seq<u8>>::empty(), cur.position()),
        ));
        assert(res.deep_view() + Seq::<Seq<u8>>::empty() =~= res.deep_view());
    }
    Ok(res)
}

/// What reading one local-variable record at `p` yields: a name and the
/// two bounds of its scope.
pub open spec fn local_parse(s: Seq<u8>, p: int, meta: Metadata) -> Result<
    ((Seq<u8>, u32, u32), int),
    DecompileError,
> {
    match int_parse(s, p, meta.u_size as int, meta.bigendian) {
        Ok((sz, p1)) => match str_parse(s, p1, sz) {
            Ok((name, p2)) => match int_parse(s, p2, meta.i_size as int, meta.bigendian) {
                Ok((a, p3)) => match int_parse(s, p3, meta.i_size as int, meta.bigendian) {
                    Ok((b, p4)) => Ok(((name, a as u32, b as u32), p4)),
                    Err(e) => Err(e),
                },
                Err(e) => Err(e),
            },
            Err(e) => Err(e),
        },
        Err(e) => Err(e),
    }
}

/// Reads one local-variable record.
pub fn decode_local_variable(cur: &mut ByteCursor, metadata: &Metadata) -> (r: Result<
    LocalVariable,
    DecompileError,
>)
    requires
        old(cur).wf(),
    ensures
        final(cur).bytes() == old(cur).bytes(),
        final(cur).wf(),
        final(cur).position() >= old(cur).position(),
        match r {
            Ok(v) => local_parse(old(cur).bytes(), old(cur).position(), *metadata) == Ok::<
                _,
                DecompileError,
            >((v@, final(cur).position())),
            Err(e) => local_parse(old(cur).bytes(), old(cur).position(), *metadata) == Err::<
                ((Seq<u8>, u32, u32), int),
                _,
            >(e),
        },
{
    let identifier_size = decode_int(cur, metadata.u_size, metadata.bigendian)?;
    let identifier = decode_str(cur, identifier_size)?;
    let start_scope64 = decode_int(cur, metadata.i_size, metadata.bigendian)?;
    let end_scope64 = decode_int(cur, metadata.i_size, metadata.bigendian)?;
    #[verifier::truncate]
    let start_scope = start_scope64 as u32;
    #[verifier::truncate]
    let end_scope = end_scope64 as u32;
    Ok(LocalVariable::new(identifier, start_scope, end_scope))
}

/// What reading `n` local-variable records in sequence from `p` yields.
pub open spec fn local_list_parse(s: Seq<u8>, p: int, meta: Metadata, n: nat) -> Result<
    (Seq<(Seq<u8>, u32, u32)>, int),
    DecompileError,
>
    decreases n,
{
    if n == 0 {
        Ok((Seq::empty(), p))
    } else {
        match local_parse(s, p, meta) {
            Ok((v, q)) => match local_list_parse(s, q, meta, (n - 1) as nat) {
                Ok((rest, q2)) => Ok((seq![v] + rest, q2)),
                Err(e) => Err(e),
            },
            Err(e) => Err(e),
        }
    }
}

/// Reads the local-variable table: a count, then that many records.
pub fn decode_local_list(cur: &mut ByteCursor, metadata: &Metadata) -> (r: Result<
    Vec<LocalVariable>,
    DecompileError,
>)
    requires
        old(cur).wf(),
    ensures
        final(cur).bytes() == old(cur).bytes(),
        final(cur).wf(),
        final(cur).position() >= old(cur).position(),
        r matches Ok(v) ==> int_parse(
            old(cur).bytes(),
            old(cur).position(),
            metadata.i_size as int,
            metadata.bigendian,
        ) matches Ok((cnt, p1)) && v@.len() == cnt as usize && local_list_parse(
            old(cur).bytes(),
            p1,
            *metadata,
            (cnt as usize) as nat,
        ) == Ok::<_, DecompileError>((v.deep_view(), final(cur).position())),
        r matches Err(e) ==> match int_parse(
            old(cur).bytes(),
            old(cur).position(),
            metadata.i_size as int,
            metadata.bigendian,
        ) {
            Ok((cnt, p1)) => local_list_parse(
                old(cur).bytes(),
                p1,
                *metadata,
                (cnt as usize) as nat,
            ) is Err,
            Err(e2) => e == e2,
        },
{
    let capacity64 = decode_int(cur, metadata.i_size, metadata.bigendian)?;
    #[verifier::truncate]
    let capacity = capacity64 as usize;
    let ghost p1 = cur.position();
    let ghost data = cur.bytes();
    let mut res: Vec<LocalVariable> = Vec::new();
    let mut k: usize = 0;
    while k < capacity
        invariant
            cur.wf(),
            cur.bytes() == data,
            data == old(cur).bytes(),
            k <= capacity,
            res@.len() == k,
            cur.position() >= p1,
            p1 >= old(cur).position(),
            int_parse(
                data,
                old(cur).position(),
                metadata.i_size as int,
                metadata.bigendian,
            ) matches Ok((cnt0, pp1)) && pp1 == p1 && capacity == cnt0 as usize,
            local_list_parse(data, p1, *metadata, capacity as nat) == (
            match local_list_parse(data, cur.position(), *metadata, (capacity - k) as nat) {
                Ok((rest, q2)) => Ok::<_, DecompileError>((res.deep_view() + rest, q2)),
                Err(e) => Err(e),
            }),
        decreases capacity - k,
    {
        let ghost before = res.deep_view();
        let ghost pos0 = cur.position();
        let v = match decode_local_variable(cur, metadata) {
            Ok(v) => v,
            Err(e) => {
                proof {
                    assert(local_list_parse(data, pos0, *metadata, (capacity - k) as nat) is Err);
                }
                return Err(e);
            },
        };
        let ghost vm = v@;
        res.push(v);
        proof {
            assert(res.deep_view() =~~= before.push(vm));
            match local_list_parse(data, cur.position(), *metadata, (capacity - k - 1) as nat) {
                Ok((rest2, q2)) => {
                    assert(local_list_parse(data, pos0, *metadata, (capacity - k) as nat) == Ok::<
                        _,
                        DecompileError,
                    >((seq![vm] + rest2, q2)));
                    assert(before + (seq![vm] + rest2) =~= before.push(vm) + rest2);
                },
                Err(e) => {},
            }
        }
        k = k + 1;
    }
    proof {
        assert(local_list_parse(data, cur.position(), *metadata, 0) == Ok::<_, DecompileError>(
            (Seq::<(Seq<u8>, u32, u32)>::empty(), cur.position()),
        ));
        assert(res.deep_view() + Seq::<(Seq<u8>, u32, u32)>::empty() =~= res.deep_view());
    }
    Ok(res)
}

/// Whether the three trailing tables of a prototype record — lines,
/// locals and upvalue names — parse at `p` to exactly the given
/// sequences, ending at `end`.
pub open spec fn tables_parse_to(
    s: Seq<u8>,
    p: int,
    meta: Metadata,
    lines: Seq<u64>,
    locals: Seq<(Seq<u8>, u32, u32)>,
    names: Seq<Seq<u8>>,
    end: int,
) -> bool {
    let isz = meta.i_size as int;
    let e = meta.bigendian;
    match int_parse(s, p, isz, e) {
        Ok((lcnt, ql)) => lines.len() == lcnt as usize && (forall|j: int|
            0 <= j < lines.len() ==> int_parse(s, ql + j * isz, isz, e) == Ok::<
                _,
                DecompileError,
            >((lines[j], ql + (j + 1) * isz))) && (match int_parse(
            s,
            ql + lines.len() * isz,
            isz,
            e,
        ) {
            Ok((vcnt, qv)) => locals.len() == vcnt as usize && (match local_list_parse(
                s,
                qv,
                meta,
                (vcnt as usize) as nat,
            ) {
                Ok((vs, qu)) => vs == locals && (match int_parse(s, qu, isz, e) {
                    Ok((ucnt, qn)) => names.len() == ucnt as usize && name_list_parse(
                        s,
                        qn,
                        meta,
                        (ucnt as usize) as nat,
                    ) == Ok::<_, DecompileError>((names, end)),
                    Err(_) => false,
                }),
                Err(_) => false,
            }),
            Err(_) => false,
        }),
        Err(_) => false,
    }
}

/// Whether a whole leaf prototype record — one with no nested
/// prototypes — parses at `p`: every section is covered by a
/// specification parser, so reading such a record is owed success.
pub open spec fn leaf_proto_parses(s: Seq<u8>, p: int, meta: Metadata) -> bool {
    let isz = meta.i_size as int;
    let e = meta.bigendian;
    match int_parse(s, p, meta.u_size as int, e) {
        Ok((name_sz, q1)) => match str_parse(s, q1, name_sz) {
            Ok((_, q2)) => match int_parse(s, q2, isz, e) {
                Ok((_, q3)) => match int_parse(s, q3, isz, e) {
                    Ok((_, q4)) => q4 + 4 <= s.len() && (match int_parse(s, q4 + 4, isz, e) {
                        Ok((icnt, q5)) => (forall|j: int|
                            0 <= j < icnt as usize ==> (#[trigger] instruction_parse(
                                s,
                                q5 + j * (meta.instr_size as int),
                                meta,
                            )) is Ok) && (match int_parse(
                            s,
                            q5 + (icnt as usize) * (meta.instr_size as int),
                            isz,
                            e,
                        ) {
                            Ok((ccnt, q6)) => match constant_list_parse(
                                s,
                                q6,
                                meta,
                                (ccnt as usize) as nat,
                            ) {
                                Ok((_, q7)) => match int_parse(s, q7, isz, e) {
                                    Ok((kcnt, q8)) => kcnt == 0 && (match int_parse(
                                        s,
                                        q8,
                                        isz,
                                        e,
                                    ) {
                                        Ok((lcnt, q9)) => (forall|j: int|
                                            0 <= j < lcnt as usize ==> (#[trigger] int_parse(
                                                s,
                                                q9 + j * isz,
                                                isz,
                                                e,
                                            )) is Ok) && (match int_parse(
                                            s,
                                            q9 + (lcnt as usize) * isz,
                                            isz,
                                            e,
                                        ) {
                                            Ok((vcnt, q10)) => match local_list_parse(
                                                s,
                                                q10,
                                                meta,
                                                (vcnt as usize) as nat,
                                            ) {
                                                Ok((_, q11)) => match int_parse(s, q11, isz, e) {
                                                    Ok((ucnt, q12)) => name_list_parse(
                                                        s,
                                                        q12,
                                                        meta,
                                                        (ucnt as usize) as nat,
                                                    ) is Ok,
                                                    Err(_) => false,
                                                },
                                                Err(_) => false,
                                            },
                                            Err(_) => false,
                                        }),
                                        Err(_) => false,
                                    }),
                                    Err(_) => false,
                                },
                                Err(_) => false,
                            },
                            Err(_) => false,
                        }),
                        Err(_) => false,
                    }),
                    Err(_) => false,
                },
                Err(_) => false,
            },
            Err(_) => false,
        },
        Err(_) => false,
    }
}

/// Reads one prototype: name, line span, the four header bytes, then the
/// code, constants, nested prototypes and debug tables, recursively.
#[verifier::rlimit(100)]
#[verifier::spinoff_prover]
pub fn decode_function_block(cur: &mut ByteCursor, metadata: &Metadata) -> (r: Result<
    Function,
    DecompileError,
>)
    requires
        old(cur).wf(),
    ensures
        final(cur).bytes() == old(cur).bytes(),
        final(cur).wf(),
        final(cur).position() >= old(cur).position(),
        r matches Ok(f) ==> old(cur).position() + 4 * proto_count(f) <= final(cur).position(),
        r matches Ok(f) ==> {
            let s = old(cur).bytes();
            match int_parse(s, old(cur).position(), metadata.u_size as int, metadata.bigendian) {
                Ok((name_sz, q1)) => match str_parse(s, q1, name_sz) {
                    Ok((name, q2)) => f.name@ == name && (match int_parse(
                        s,
                        q2,
                        metadata.i_size as int,
                        metadata.bigendian,
                    ) {
                        Ok((first, q3)) => f.first_line == first && (match int_parse(
                            s,
                            q3,
                            metadata.i_size as int,
                            metadata.bigendian,
                        ) {
                            Ok((last, q4)) => f.last_line == last && q4 + 4 <= s.len()
                                && f.up_values == s[q4] && f.args == s[q4 + 1] && f.vargs == s[q4
                                + 2] && f.stack == s[q4 + 3] && (match int_parse(
                                s,
                                q4 + 4,
                                metadata.i_size as int,
                                metadata.bigendian,
                            ) {
                                Ok((icnt, q5)) => f.instr_list@.len() == icnt as usize && (forall|
                                    j: int,
                                |
                                    0 <= j < f.instr_list@.len() ==> instruction_parse(
                                        s,
                                        q5 + j * (metadata.instr_size as int),
                                        *metadata,
                                    ) == Ok::<_, DecompileError>(
                                        (
                                            f.instr_list@[j],
                                            q5 + (j + 1) * (metadata.instr_size as int),
                                        ),
                                    )) && (match int_parse(
                                    s,
                                    q5 + f.instr_list@.len() * (metadata.instr_size as int),
                                    metadata.i_size as int,
                                    metadata.bigendian,
                                ) {
                                    Ok((ccnt, q6)) => f.const_list@.len() == ccnt as usize && (
                                    match constant_list_parse(
                                        s,
                                        q6,
                                        *metadata,
                                        (ccnt as usize) as nat,
                                    ) {
                                        Ok((pool, q7)) => f.const_list.deep_view() == pool && (
                                        match int_parse(
                                            s,
                                            q7,
                                            metadata.i_size as int,
                                            metadata.bigendian,
                                        ) {
                                            Ok((kcnt, q8)) => f.func_list@.len() == kcnt as usize
                                                && f.identifier == 0 && (exists|qm: int|
                                                #![trigger int_parse(
                                                    s,
                                                    qm,
                                                    metadata.i_size as int,
                                                    metadata.bigendian,
                                                )]
                                                q8 <= qm <= final(cur).position()
                                                    && tables_parse_to(
                                                    s,
                                                    qm,
                                                    *metadata,
                                                    f.lines_list@,
                                                    f.local_list.deep_view(),
                                                    f.upvalues_list.deep_view(),
                                                    final(cur).position(),
                                                )),
                                            Err(_) => false,
                                        }),
                                        Err(_) => false,
                                    }),
                                    Err(_) => false,
                                }),
                                Err(_) => false,
                            }),
                            Err(_) => false,
                        }),
                        Err(_) => false,
                    }),
                    Err(_) => false,
                },
                Err(_) => false,
            }
        },
        leaf_proto_parses(old(cur).bytes(), old(cur).position(), *metadata) ==> r is Ok,
        r matches Err(e) ==> {
            let s = old(cur).bytes();
            match int_parse(s, old(cur).position(), metadata.u_size as int, metadata.bigendian) {
                Ok((name_sz, q1)) => match str_parse(s, q1, name_sz) {
                    Ok((name, q2)) => match int_parse(
                        s,
                        q2,
                        metadata.i_size as int,
                        metadata.bigendian,
                    ) {
                        Ok((first, q3)) => match int_parse(
                            s,
                            q3,
                            metadata.i_size as int,
                            metadata.bigendian,
                        ) {
                            Ok((last, q4)) => if q4 + 4 <= s.len() {
                                true
                            } else {
                                e == DecompileError::FileFormatError
                            },
                            Err(e2) => e == e2,
                        },
                        Err(e2) => e == e2,
                    },
                    Err(e2) => e == e2,
                },
                Err(e2) => e == e2,
            }
        },
    decreases cur.bytes().len() - cur.position(), 0int,
{
    let name_size = decode_int(cur, metadata.u_size, metadata.bigendian)?;
    let name = decode_str(cur, name_size)?;
    let first_line = decode_int(cur, metadata.i_size, metadata.bigendian)?;
    let last_line = decode_int(cur, metadata.i_size, metadata.bigendian)?;
    let up_values = next_byte_or_error(cur, DecompileError::FileFormatError)?;
    let args = next_byte_or_error(cur, DecompileError::FileFormatError)?;
    let vargs = next_byte_or_error(cur, DecompileError::FileFormatError)?;
    let stack = next_byte_or_error(cur, DecompileError::FileFormatError)?;
    let instr_list = decode_instruction_list(cur, metadata)?;
    let const_list = decode_constant_list(cur, metadata)?;
    let func_list = decode_function_list(cur, metadata)?;
    let ghost qm = cur.position();
    let lines_list = decode_lines_list(cur, metadata)?;
    let local_list = decode_local_list(cur, metadata)?;
    let upvalues_list = decode_upvalues_list(cur, metadata)?;
    let res = Function {
        name,
        first_line,
        last_line,
        up_values,
        args,
        vargs,
        stack,
        instr_list,
        const_list,
        func_list,
        lines_list,
        local_list,
        upvalues_list,
        identifier: 0,
    };
    proof {
        assert(tables_parse_to(
            old(cur).bytes(),
            qm,
            *metadata,
            res.lines_list@,
            res.local_list.deep_view(),
            res.upvalues_list.deep_view(),
            cur.position(),
        ));
    }
    Ok(res)
}

/// Reads the nested-prototype list: a count, then that many prototypes.
pub fn decode_function_list(cur: &mut ByteCursor, metadata: &Metadata) -> (r: Result<
    Vec<Function>,
    DecompileError,
>)
    requires
        old(cur).wf(),
    ensures
        final(cur).bytes() == old(cur).bytes(),
        final(cur).wf(),
        final(cur).position() >= old(cur).position(),
        r matches Ok(v) ==> old(cur).position() + 4 * proto_count_list(v@)
            <= final(cur).position(),
        r matches Ok(v) ==> int_parse(
            old(cur).bytes(),
            old(cur).position(),
            metadata.i_size as int,
            metadata.bigendian,
        ) matches Ok((cnt, p1)) && v@.len() == cnt as usize && final(cur).position() >= p1 && (
        cnt == 0 ==> final(cur).position() == p1),
        r matches Err(e) ==> match int_parse(
            old(cur).bytes(),
            old(cur).position(),
            metadata.i_size as int,
            metadata.bigendian,
        ) {
            Ok((cnt, p1)) => cnt != 0,
            Err(e2) => e == e2,
        },
    decreases cur.bytes().len() - cur.position(), 1int,
{
    let capacity64 = decode_int(cur, metadata.i_size, metadata.bigendian)?;
    #[verifier::truncate]
    let capacity = capacity64 as usize;
    let ghost p1 = cur.position();
    let mut res: Vec<Function> = Vec::new();
    let mut k: usize = 0;
    while k < capacity
        invariant
            cur.wf(),
            cur.bytes() == old(cur).bytes(),
            k <= capacity,
            res@.len() == k,
            p1 >= old(cur).position(),
            int_parse(
                old(cur).bytes(),
                old(cur).position(),
                metadata.i_size as int,
                metadata.bigendian,
            ) matches Ok((cnt0, pp1)) && pp1 == p1 && capacity == cnt0 as usize,
            k == 0 ==> cur.position() == p1,
            p1 + 4 * proto_count_list(res@) <= cur.position(),
        decreases capacity - k,
    {
        let f = decode_function_block(cur, metadata)?;
        proof {
            crate::function::lemma_count_list_last(res@.push(f));
            assert(res@.push(f).drop_last() =~= res@);
        }
        res.push(f);
        k = k + 1;
    }
    Ok(res)
}

/// Decodes a whole image: signature, header, version check, then the root
/// prototype, whose tree receives dense pre-order identifiers.
pub fn decode_bytecode(bytes: Vec<u8>, config: Vmconfig) -> (r: Result<
    (Metadata, Function),
    DecompileError,
>)
    ensures
        r matches Ok((m, f)) ==> {
            &&& crate::function::ids_from(f, 0)
            &&& bytes@.len() >= 12
            &&& be_val(bytes@.subrange(0, 4)) % pow2_64() == SIGNATURE
            &&& metadata_parse(bytes@, 4) matches Ok((m2, _)) && m2 == m
            &&& m.version as u32 == config.ver_spec()
            &&& (match int_parse(bytes@, 12, m.u_size as int, m.bigendian) {
                Ok((name_sz, q1)) => match str_parse(bytes@, q1, name_sz) {
                    Ok((name, q2)) => f.name@ == name && (match int_parse(
                        bytes@,
                        q2,
                        m.i_size as int,
                        m.bigendian,
                    ) {
                        Ok((first, q3)) => f.first_line == first && (match int_parse(
                            bytes@,
                            q3,
                            m.i_size as int,
                            m.bigendian,
                        ) {
                            Ok((last, q4)) => f.last_line == last && q4 + 4 <= bytes@.len()
                                && f.up_values == bytes@[q4] && f.args == bytes@[q4 + 1]
                                && f.vargs == bytes@[q4 + 2] && f.stack == bytes@[q4 + 3] && (
                            match int_parse(bytes@, q4 + 4, m.i_size as int, m.bigendian) {
                                Ok((icnt, q5)) => f.instr_list@.len() == icnt as usize && (forall|
                                    j: int,
                                |
                                    0 <= j < f.instr_list@.len() ==> instruction_parse(
                                        bytes@,
                                        q5 + j * (m.instr_size as int),
                                        m,
                                    ) == Ok::<_, DecompileError>(
                                        (f.instr_list@[j], q5 + (j + 1) * (m.instr_size as int)),
                                    )),
                                Err(_) => false,
                            }),
                            Err(_) => false,
                        }),
                        Err(_) => false,
                    }),
                    Err(_) => false,
                },
                Err(_) => false,
            })
        },
        (bytes@.len() >= 12 && be_val(bytes@.subrange(0, 4)) % pow2_64() == SIGNATURE && (
        match metadata_parse(bytes@, 4) {
            Ok((m, _)) => m.version as u32 == config.ver_spec() && leaf_proto_parses(
                bytes@,
                12,
                m,
            ),
            Err(_) => false,
        })) ==> r is Ok,
        r matches Err(e) ==> {
            let s = bytes@;
            if s.len() < 4 {
                e == DecompileError::FileFormatError
            } else if be_val(s.subrange(0, 4)) % pow2_64() != SIGNATURE {
                e == DecompileError::SignatureError
            } else if s.len() < 12 {
                e == DecompileError::MetadataError
            } else if s[4] as u32 != config.ver_spec() {
                e == DecompileError::VersionDataError
            } else {
                true
            }
        },
{
    let mut cur = ByteCursor::new(bytes);
    decode_signature(&mut cur)?;
    let metadata = decode_metadata(&mut cur)?;
    verify_metadata(&metadata, config)?;
    let total = cur.total_len();
    let decoded = decode_function_block(&mut cur, &metadata)?;
    proof {
        assert(4 * proto_count(decoded) <= total);
    }
    let (main, _top_id) = decoded.assign_upval_id();
    Ok((metadata, main))
}

} // verus!
