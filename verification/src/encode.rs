//! Serialization of what the loader reads: the byte strings that integers,
//! strings and code words occupy in an image, with proofs that reading
//! them back yields what was written.

use vstd::prelude::*;

use crate::constant::ConstantModel;
use crate::decode::{
    be_val,
    constant_parse,
    get_bits_spec,
    instruction_of_word,
    instruction_parse,
    int_parse,
    int_val,
    le_val,
    lemma_le_val_is_be_val_of_reverse,
    metadata_parse,
    pow2_64,
    str_parse,
    DecompileError,
};
use crate::instruction::Instruction;
use crate::metadata::Metadata;

verus! {

/// `size` raised byte powers: one past the largest value `size` bytes
/// hold.
pub open spec fn byte_bound(size: nat) -> nat
    decreases size,
{
    if size == 0 {
        1
    } else {
        256 * byte_bound((size - 1) as nat)
    }
}

/// The `size`-byte big-endian representation of `v`.
pub open spec fn be_bytes(v: nat, size: nat) -> Seq<u8>
    decreases size,
{
    if size == 0 {
        Seq::empty()
    } else {
        be_bytes(v / 256, (size - 1) as nat).push((v % 256) as u8)
    }
}

/// The `size`-byte little-endian representation of `v`.
pub open spec fn le_bytes(v: nat, size: nat) -> Seq<u8> {
    be_bytes(v, size).reverse()
}

/// The representation of `v` in the endianness the header declares.
pub open spec fn int_bytes(v: nat, size: nat, bigendian: bool) -> Seq<u8> {
    if bigendian {
        be_bytes(v, size)
    } else {
        le_bytes(v, size)
    }
}

/// A byte string's value lies below the bound of its length.
pub proof fn lemma_be_val_bound(s: Seq<u8>)
    ensures
        be_val(s) < byte_bound(s.len()),
    decreases s.len(),
{
    if s.len() > 0 {
        lemma_be_val_bound(s.drop_last());
    }
}

/// Writing a byte string's value back over the same length reproduces
/// the byte string: the integer layer of the image round trip.
pub proof fn lemma_be_bytes_roundtrip(s: Seq<u8>)
    ensures
        be_bytes(be_val(s), s.len()) == s,
    decreases s.len(),
{
    if s.len() == 0 {
        assert(be_bytes(be_val(s), s.len()) =~= s);
    } else {
        lemma_be_bytes_roundtrip(s.drop_last());
        let v = be_val(s);
        assert(v == be_val(s.drop_last()) * 256 + s.last());
        assert(v % 256 == s.last() && v / 256 == be_val(s.drop_last())) by (nonlinear_arith)
            requires
                v == be_val(s.drop_last()) * 256 + s.last(),
                s.last() < 256,
        ;
        assert(be_bytes(be_val(s), s.len()) =~= s);
    }
}

/// The little-endian round trip, by reading the reversal big-endian.
pub proof fn lemma_le_bytes_roundtrip(s: Seq<u8>)
    ensures
        le_bytes(le_val(s), s.len()) == s,
{
    lemma_le_val_is_be_val_of_reverse(s);
    lemma_be_bytes_roundtrip(s.reverse());
    assert(s.reverse().len() == s.len());
    assert(le_bytes(le_val(s), s.len()) =~= s);
}

/// Reading an integer of either endianness back from its representation
/// yields the integer: the loader inverts the writer on every integer
/// field of an image.
pub proof fn lemma_int_roundtrip(s: Seq<u8>, bigendian: bool)
    ensures
        int_bytes(int_val(s, bigendian), s.len(), bigendian) == s,
{
    if bigendian {
        lemma_be_bytes_roundtrip(s);
    } else {
        lemma_le_bytes_roundtrip(s);
    }
}

/// The bytes a string field occupies: its content and the trailing
/// terminator the loader drops.
pub open spec fn str_bytes(s: Seq<u8>) -> Seq<u8> {
    s.push(0u8)
}

/// Reading a string field back from its representation yields the
/// string: the string layer of the image round trip.
pub proof fn lemma_str_roundtrip(buf: Seq<u8>, p: int, s: Seq<u8>)
    requires
        0 <= p,
        s.len() < 0xFFFF_FFFF_FFFF_FFFF,
        p + s.len() + 1 <= buf.len(),
        buf.subrange(p, p + s.len() + 1) == str_bytes(s),
    ensures
        str_parse(buf, p, (s.len() + 1) as u64) == Ok::<_, DecompileError>(
            (s, p + s.len() + 1),
        ),
{
    assert(buf.subrange(p, p + s.len()) =~= s);
}

/// The representation of a value over `size` bytes has `size` bytes.
pub proof fn lemma_be_bytes_len(v: nat, size: nat)
    ensures
        be_bytes(v, size).len() == size,
    decreases size,
{
    if size > 0 {
        lemma_be_bytes_len(v / 256, (size - 1) as nat);
    }
}

/// The same, in either endianness.
pub proof fn lemma_int_bytes_len(v: nat, size: nat, bigendian: bool)
    ensures
        int_bytes(v, size, bigendian).len() == size,
{
    lemma_be_bytes_len(v, size);
}

/// Byte bounds grow with the length.
pub proof fn lemma_byte_bound_mono(a: nat, b: nat)
    requires
        a <= b,
    ensures
        byte_bound(a) <= byte_bound(b),
    decreases b,
{
    if a < b {
        lemma_byte_bound_mono(a, (b - 1) as nat);
        assert(byte_bound(b) == 256 * byte_bound((b - 1) as nat));
        assert(byte_bound((b - 1) as nat) <= 256 * byte_bound((b - 1) as nat)) by (nonlinear_arith)
            requires
                byte_bound((b - 1) as nat) >= 0,
        ;
    }
}

/// Eight bytes hold exactly the register range.
pub proof fn lemma_byte_bound_8()
    ensures
        byte_bound(8) == pow2_64(),
{
    assert(byte_bound(0) == 1);
    assert(byte_bound(1) == 256);
    assert(byte_bound(2) == 0x1_0000);
    assert(byte_bound(3) == 0x100_0000);
    assert(byte_bound(4) == 0x1_0000_0000);
    assert(byte_bound(5) == 0x100_0000_0000);
    assert(byte_bound(6) == 0x1_0000_0000_0000);
    assert(byte_bound(7) == 0x100_0000_0000_0000);
    assert(byte_bound(8) == 0x1_0000_0000_0000_0000);
}

/// Reading the representation of a value yields the value: the other
/// direction of the integer round trip.
pub proof fn lemma_be_val_of_be_bytes(v: nat, size: nat)
    requires
        v < byte_bound(size),
    ensures
        be_val(be_bytes(v, size)) == v,
    decreases size,
{
    if size == 0 {
    } else {
        assert(v / 256 < byte_bound((size - 1) as nat)) by (nonlinear_arith)
            requires
                v < 256 * byte_bound((size - 1) as nat),
                byte_bound((size - 1) as nat) > 0,
        ;
        lemma_be_val_of_be_bytes(v / 256, (size - 1) as nat);
        let s = be_bytes(v, size);
        assert(s.drop_last() =~= be_bytes(v / 256, (size - 1) as nat));
        assert(s.last() == (v % 256) as u8);
        assert((v / 256) * 256 + v % 256 == v) by (nonlinear_arith);
    }
}

/// The little-endian direction of the same fact.
pub proof fn lemma_le_val_of_le_bytes(v: nat, size: nat)
    requires
        v < byte_bound(size),
    ensures
        le_val(le_bytes(v, size)) == v,
{
    lemma_be_val_of_be_bytes(v, size);
    lemma_le_val_is_be_val_of_reverse(le_bytes(v, size));
    assert(be_bytes(v, size).reverse().reverse() =~= be_bytes(v, size));
}

/// Reading an integer field back from the representation a writer put at
/// `p` yields the written value and the following position.
pub proof fn lemma_int_parse_of_bytes(
    buf: Seq<u8>,
    p: int,
    v: u64,
    size: u8,
    bigendian: bool,
)
    requires
        0 <= p,
        size <= 8,
        v < byte_bound(size as nat),
        p + size <= buf.len(),
        buf.subrange(p, p + size) == int_bytes(v as nat, size as nat, bigendian),
    ensures
        int_parse(buf, p, size as int, bigendian) == Ok::<_, DecompileError>((v, p + size)),
{
    if bigendian {
        lemma_be_val_of_be_bytes(v as nat, size as nat);
    } else {
        lemma_le_val_of_le_bytes(v as nat, size as nat);
    }
    lemma_byte_bound_mono(size as nat, 8);
    lemma_byte_bound_8();
    assert(int_val(buf.subrange(p, p + size), bigendian) == v);
}

/// The eight bytes a header block occupies; the endian flag writes zero
/// for big endian, the integral flag writes one for true.
pub open spec fn metadata_bytes(m: Metadata) -> Seq<u8> {
    seq![
        m.version,
        m.format,
        if m.bigendian {
            0u8
        } else {
            1u8
        },
        m.i_size,
        m.u_size,
        m.instr_size,
        m.number_size,
        if m.int_flag {
            1u8
        } else {
            0u8
        },
    ]
}

/// Reading the header back from its representation yields the header.
pub proof fn lemma_metadata_roundtrip(buf: Seq<u8>, p: int, m: Metadata)
    requires
        0 <= p,
        p + 8 <= buf.len(),
        buf.subrange(p, p + 8) == metadata_bytes(m),
    ensures
        metadata_parse(buf, p) == Ok::<_, DecompileError>((m, p + 8)),
{
    assert(buf[p] == metadata_bytes(m)[0]);
    assert(buf[p + 1] == metadata_bytes(m)[1]);
    assert(buf[p + 2] == metadata_bytes(m)[2]);
    assert(buf[p + 3] == metadata_bytes(m)[3]);
    assert(buf[p + 4] == metadata_bytes(m)[4]);
    assert(buf[p + 5] == metadata_bytes(m)[5]);
    assert(buf[p + 6] == metadata_bytes(m)[6]);
    assert(buf[p + 7] == metadata_bytes(m)[7]);
}

/// Whether a constant can be written under the header's sizes: the
/// number and string-length fields must fit their byte widths.
pub open spec fn constant_encodable(c: ConstantModel, meta: Metadata) -> bool {
    match c {
        ConstantModel::Null => true,
        ConstantModel::Boolean(_) => true,
        ConstantModel::Number(n) => meta.number_size <= 8 && n < byte_bound(
            meta.number_size as nat,
        ),
        ConstantModel::String(s) => meta.u_size <= 8 && s.len() + 1 < byte_bound(
            meta.u_size as nat,
        ) && s.len() + 1 < pow2_64(),
    }
}

/// The bytes a constant occupies: its type byte, then the payload its
/// type demands.
pub open spec fn constant_bytes(c: ConstantModel, meta: Metadata) -> Seq<u8> {
    match c {
        ConstantModel::Null => seq![0u8],
        ConstantModel::Boolean(b) => seq![
            1u8,
            if b {
                1u8
            } else {
                0u8
            },
        ],
        ConstantModel::Number(n) => seq![3u8] + int_bytes(
            n as nat,
            meta.number_size as nat,
            meta.bigendian,
        ),
        ConstantModel::String(s) => seq![4u8] + int_bytes(
            (s.len() + 1) as nat,
            meta.u_size as nat,
            meta.bigendian,
        ) + str_bytes(s),
    }
}

/// Reading a constant back from the representation a writer put at `p`
/// yields the constant and the following position: the constant layer of
/// the image round trip.
pub proof fn lemma_constant_roundtrip(buf: Seq<u8>, p: int, c: ConstantModel, meta: Metadata)
    requires
        0 <= p,
        constant_encodable(c, meta),
        p + constant_bytes(c, meta).len() <= buf.len(),
        buf.subrange(p, p + constant_bytes(c, meta).len()) == constant_bytes(c, meta),
    ensures
        constant_parse(buf, p, meta) == Ok::<_, DecompileError>(
            (c, p + constant_bytes(c, meta).len()),
        ),
{
    let enc = constant_bytes(c, meta);
    match c {
        ConstantModel::Number(n) => {
            lemma_int_bytes_len(n as nat, meta.number_size as nat, meta.bigendian);
        },
        ConstantModel::String(st) => {
            lemma_int_bytes_len((st.len() + 1) as nat, meta.u_size as nat, meta.bigendian);
        },
        _ => {},
    }
    assert forall|j: int| 0 <= j < enc.len() implies buf[p + j] == enc[j] by {
        assert(buf.subrange(p, p + enc.len())[j] == buf[p + j]);
    }
    assert(buf[p] == enc[0]);
    match c {
        ConstantModel::Null => {},
        ConstantModel::Boolean(b) => {
            assert(buf[p + 1] == enc[1]);
        },
        ConstantModel::Number(n) => {
            let size = meta.number_size;
            let payload = int_bytes(n as nat, size as nat, meta.bigendian);
            assert forall|k: int|
                0 <= k < size implies buf.subrange(p + 1, p + 1 + size)[k] == payload[k] by {
                assert(buf.subrange(p + 1, p + 1 + size)[k] == buf[p + 1 + k]);
                assert(buf.subrange(p, p + enc.len())[1 + k] == buf[p + 1 + k]);
                assert(enc[1 + k] == payload[k]);
            }
            assert(buf.subrange(p + 1, p + 1 + size) =~= payload);
            lemma_int_parse_of_bytes(buf, p + 1, n, size, meta.bigendian);
        },
        ConstantModel::String(s) => {
            let usize_ = meta.u_size;
            let declared = (s.len() + 1) as u64;
            let lenfield = int_bytes(declared as nat, usize_ as nat, meta.bigendian);
            assert forall|k: int|
                0 <= k < usize_ implies buf.subrange(p + 1, p + 1 + usize_)[k] == lenfield[k] by {
                assert(buf.subrange(p + 1, p + 1 + usize_)[k] == buf[p + 1 + k]);
                assert(buf.subrange(p, p + enc.len())[1 + k] == buf[p + 1 + k]);
                assert(enc[1 + k] == lenfield[k]);
            }
            assert(buf.subrange(p + 1, p + 1 + usize_) =~= lenfield);
            lemma_int_parse_of_bytes(buf, p + 1, declared, usize_, meta.bigendian);
            let q = p + 1 + usize_;
            assert forall|k: int|
                0 <= k < s.len() + 1 implies buf.subrange(q, q + s.len() + 1)[k] == str_bytes(
                    s,
                )[k] by {
                assert(buf.subrange(q, q + s.len() + 1)[k] == buf[q + k]);
                assert(buf.subrange(p, p + enc.len())[1 + usize_ + k] == buf[q + k]);
                assert(enc[1 + usize_ + k] == str_bytes(s)[k]);
            }
            assert(buf.subrange(q, q + s.len() + 1) =~= str_bytes(s));
            lemma_str_roundtrip(buf, q, s);
        },
    }
}

/// The bytes a whole constant pool occupies, the count field excluded.
pub open spec fn constant_list_bytes(cs: Seq<ConstantModel>, meta: Metadata) -> Seq<u8>
    decreases cs.len(),
{
    if cs.len() == 0 {
        Seq::empty()
    } else {
        constant_bytes(cs.first(), meta) + constant_list_bytes(cs.drop_first(), meta)
    }
}

/// Every constant of a pool can be written under the header's sizes.
pub open spec fn constant_list_encodable(cs: Seq<ConstantModel>, meta: Metadata) -> bool {
    forall|i: int| 0 <= i < cs.len() ==> constant_encodable(#[trigger] cs[i], meta)
}

/// Reading a pool back from the representation a writer put at `p`
/// yields the pool: the constant-pool section of the image round trip.
pub proof fn lemma_constant_list_roundtrip(
    buf: Seq<u8>,
    p: int,
    cs: Seq<ConstantModel>,
    meta: Metadata,
)
    requires
        0 <= p,
        constant_list_encodable(cs, meta),
        p + constant_list_bytes(cs, meta).len() <= buf.len(),
        buf.subrange(p, p + constant_list_bytes(cs, meta).len()) == constant_list_bytes(
            cs,
            meta,
        ),
    ensures
        crate::decode::constant_list_parse(buf, p, meta, cs.len()) == Ok::<_, DecompileError>(
            (cs, p + constant_list_bytes(cs, meta).len()),
        ),
    decreases cs.len(),
{
    if cs.len() > 0 {
        let head = constant_bytes(cs.first(), meta);
        let tail = constant_list_bytes(cs.drop_first(), meta);
        let whole = constant_list_bytes(cs, meta);
        assert(whole == head + tail);
        assert forall|j: int| 0 <= j < whole.len() implies buf[p + j] == whole[j] by {
            assert(buf.subrange(p, p + whole.len())[j] == buf[p + j]);
        }
        assert forall|j: int| 0 <= j < head.len() implies buf.subrange(p, p + head.len())[j]
            == head[j] by {
            assert(buf.subrange(p, p + head.len())[j] == buf[p + j]);
            assert(whole[j] == head[j]);
        }
        assert(buf.subrange(p, p + head.len()) =~= head);
        lemma_constant_roundtrip(buf, p, cs.first(), meta);
        let q = p + head.len();
        assert forall|j: int| 0 <= j < tail.len() implies buf.subrange(q, q + tail.len())[j]
            == tail[j] by {
            assert(buf.subrange(q, q + tail.len())[j] == buf[q + j]);
            assert(buf[p + (head.len() + j)] == whole[head.len() + j]);
            assert(whole[head.len() + j] == tail[j]);
        }
        assert(buf.subrange(q, q + tail.len()) =~= tail);
        assert(cs.first() == cs[0]);
        assert forall|i: int|
            0 <= i < cs.drop_first().len() implies constant_encodable(
                #[trigger] cs.drop_first()[i],
                meta,
            ) by {
            assert(cs.drop_first()[i] == cs[i + 1]);
        }
        lemma_constant_list_roundtrip(buf, q, cs.drop_first(), meta);
        assert(seq![cs.first()] + cs.drop_first() =~= cs);
        assert(crate::decode::constant_list_parse(buf, p, meta, cs.len()) == Ok::<
            _,
            DecompileError,
        >((seq![cs.first()] + cs.drop_first(), q + tail.len())));
    } else {
        assert(constant_list_bytes(cs, meta).len() == 0);
        assert(cs =~= Seq::<ConstantModel>::empty());
    }
}

/// Whether an instruction's operand fields fit their bit widths, so that
/// a code word can carry them.
pub open spec fn instruction_encodable(i: Instruction) -> bool {
    match i {
        Instruction::Move(a, b, c) => a < 256 && b < 512 && c < 512,
        Instruction::LoadK(a, bx) => a < 256 && bx < 0x40000,
        Instruction::LoadBool(a, b, c) => a < 256 && b < 512 && c < 512,
        Instruction::LoadNil(a, b, c) => a < 256 && b < 512 && c < 512,
        Instruction::GetUpVal(a, b, c) => a < 256 && b < 512 && c < 512,
        Instruction::GetGlobal(a, bx) => a < 256 && bx < 0x40000,
        Instruction::SetGlobal(a, bx) => a < 256 && bx < 0x40000,
        Instruction::SetUpVal(a, b, c) => a < 256 && b < 512 && c < 512,
        Instruction::GetTable(a, b, c) => a < 256 && b < 512 && c < 512,
        Instruction::SetTable(a, b, c) => a < 256 && b < 512 && c < 512,
        Instruction::NewTable(a, b, c) => a < 256 && b < 512 && c < 512,
        Instruction::SelF(a, b, c) => a < 256 && b < 512 && c < 512,
        Instruction::Add(a, b, c) => a < 256 && b < 512 && c < 512,
        Instruction::Sub(a, b, c) => a < 256 && b < 512 && c < 512,
        Instruction::Mul(a, b, c) => a < 256 && b < 512 && c < 512,
        Instruction::Div(a, b, c) => a < 256 && b < 512 && c < 512,
        Instruction::Mod(a, b, c) => a < 256 && b < 512 && c < 512,
        Instruction::Pow(a, b, c) => a < 256 && b < 512 && c < 512,
        Instruction::Unm(a, b, c) => a < 256 && b < 512 && c < 512,
        Instruction::Not(a, b, c) => a < 256 && b < 512 && c < 512,
        Instruction::Len(a, b, c) => a < 256 && b < 512 && c < 512,
        Instruction::Concat(a, b, c) => a < 256 && b < 512 && c < 512,
        Instruction::Jmp(a, sbx) => a < 256 && -131071 <= sbx <= 131072,
        Instruction::Eq(a, b, c) => a < 256 && b < 512 && c < 512,
        Instruction::Lt(a, b, c) => a < 256 && b < 512 && c < 512,
        Instruction::Le(a, b, c) => a < 256 && b < 512 && c < 512,
        Instruction::Test(a, b, c) => a < 256 && b < 512 && c < 512,
        Instruction::TestSet(a, b, c) => a < 256 && b < 512 && c < 512,
        Instruction::Call(a, b, c) => a < 256 && b < 512 && c < 512,
        Instruction::TailCall(a, b, c) => a < 256 && b < 512 && c < 512,
        Instruction::Return(a, b, c) => a < 256 && b < 512 && c < 512,
        Instruction::ForLoop(a, sbx) => a < 256 && -131071 <= sbx <= 131072,
        Instruction::ForPrep(a, sbx) => a < 256 && -131071 <= sbx <= 131072,
        Instruction::TForLoop(a, b, c) => a < 256 && b < 512 && c < 512,
        Instruction::SetList(a, b, c) => a < 256 && b < 512 && c < 512,
        Instruction::Close(a, b, c) => a < 256 && b < 512 && c < 512,
        Instruction::Closure(a, bx) => a < 256 && bx < 0x40000,
        Instruction::VarArg(a, b, c) => a < 256 && b < 512 && c < 512,
    }
}

/// The code word of an ABC-family instruction.
pub open spec fn abc_word(op: u64, a: u64, b: u64, c: u64) -> u64 {
    op | (a << 6u64) | (c << 14u64) | (b << 23u64)
}

/// The code word of an ABx-family instruction.
pub open spec fn abx_word(op: u64, a: u64, bx: u64) -> u64 {
    op | (a << 6u64) | (bx << 14u64)
}

/// The code word of an AsBx-family instruction: the offset is biased by
/// 131071.
pub open spec fn asb_word(op: u64, a: u64, sbx: int) -> u64 {
    op | (a << 6u64) | (((sbx + 131071) as u64) << 14u64)
}

/// The code word an instruction occupies, by the opcode table.
pub open spec fn instruction_word(i: Instruction) -> u64 {
    match i {
        Instruction::Move(a, b, c) => abc_word(0, a as u64, b as u64, c as u64),
        Instruction::LoadK(a, bx) => abx_word(1, a as u64, bx as u64),
        Instruction::LoadBool(a, b, c) => abc_word(2, a as u64, b as u64, c as u64),
        Instruction::LoadNil(a, b, c) => abc_word(3, a as u64, b as u64, c as u64),
        Instruction::GetUpVal(a, b, c) => abc_word(4, a as u64, b as u64, c as u64),
        Instruction::GetGlobal(a, bx) => abx_word(5, a as u64, bx as u64),
        Instruction::GetTable(a, b, c) => abc_word(6, a as u64, b as u64, c as u64),
        Instruction::SetGlobal(a, bx) => abx_word(7, a as u64, bx as u64),
        Instruction::SetUpVal(a, b, c) => abc_word(8, a as u64, b as u64, c as u64),
        Instruction::SetTable(a, b, c) => abc_word(9, a as u64, b as u64, c as u64),
        Instruction::NewTable(a, b, c) => abc_word(10, a as u64, b as u64, c as u64),
        Instruction::SelF(a, b, c) => abc_word(11, a as u64, b as u64, c as u64),
        Instruction::Add(a, b, c) => abc_word(12, a as u64, b as u64, c as u64),
        Instruction::Sub(a, b, c) => abc_word(13, a as u64, b as u64, c as u64),
        Instruction::Mul(a, b, c) => abc_word(14, a as u64, b as u64, c as u64),
        Instruction::Div(a, b, c) => abc_word(15, a as u64, b as u64, c as u64),
        Instruction::Mod(a, b, c) => abc_word(16, a as u64, b as u64, c as u64),
        Instruction::Pow(a, b, c) => abc_word(17, a as u64, b as u64, c as u64),
        Instruction::Unm(a, b, c) => abc_word(18, a as u64, b as u64, c as u64),
        Instruction::Not(a, b, c) => abc_word(19, a as u64, b as u64, c as u64),
        Instruction::Len(a, b, c) => abc_word(20, a as u64, b as u64, c as u64),
        Instruction::Concat(a, b, c) => abc_word(21, a as u64, b as u64, c as u64),
        Instruction::Jmp(a, sbx) => asb_word(22, a as u64, sbx as int),
        Instruction::Eq(a, b, c) => abc_word(23, a as u64, b as u64, c as u64),
        Instruction::Lt(a, b, c) => abc_word(24, a as u64, b as u64, c as u64),
        Instruction::Le(a, b, c) => abc_word(25, a as u64, b as u64, c as u64),
        Instruction::Test(a, b, c) => abc_word(26, a as u64, b as u64, c as u64),
        Instruction::TestSet(a, b, c) => abc_word(27, a as u64, b as u64, c as u64),
        Instruction::Call(a, b, c) => abc_word(28, a as u64, b as u64, c as u64),
        Instruction::TailCall(a, b, c) => abc_word(29, a as u64, b as u64, c as u64),
        Instruction::Return(a, b, c) => abc_word(30, a as u64, b as u64, c as u64),
        Instruction::ForLoop(a, sbx) => asb_word(31, a as u64, sbx as int),
        Instruction::ForPrep(a, sbx) => asb_word(32, a as u64, sbx as int),
        Instruction::TForLoop(a, b, c) => abc_word(33, a as u64, b as u64, c as u64),
        Instruction::SetList(a, b, c) => abc_word(34, a as u64, b as u64, c as u64),
        Instruction::Close(a, b, c) => abc_word(35, a as u64, b as u64, c as u64),
        Instruction::Closure(a, bx) => abx_word(36, a as u64, bx as u64),
        Instruction::VarArg(a, b, c) => abc_word(37, a as u64, b as u64, c as u64),
    }
}

proof fn lemma_abc_fields(op: u64, a: u64, b: u64, c: u64)
    requires
        op < 64,
        a < 256,
        b < 512,
        c < 512,
    ensures
        get_bits_spec(abc_word(op, a, b, c), 0, 6) == op,
        get_bits_spec(abc_word(op, a, b, c), 6, 8) == a,
        get_bits_spec(abc_word(op, a, b, c), 14, 9) == c,
        get_bits_spec(abc_word(op, a, b, c), 23, 9) == b,
{
    assert(op < 64 && a < 256 && b < 512 && c < 512 ==> {
        let w = op | (a << 6u64) | (c << 14u64) | (b << 23u64);
        ((w >> 0u64) & !((!0u64) << 6u64)) == op && ((w >> 6u64) & !((!0u64) << 8u64)) == a && ((w
            >> 14u64) & !((!0u64) << 9u64)) == c && ((w >> 23u64) & !((!0u64) << 9u64)) == b
    }) by (bit_vector);
}

proof fn lemma_abx_fields(op: u64, a: u64, bx: u64)
    requires
        op < 64,
        a < 256,
        bx < 0x40000,
    ensures
        get_bits_spec(abx_word(op, a, bx), 0, 6) == op,
        get_bits_spec(abx_word(op, a, bx), 6, 8) == a,
        get_bits_spec(abx_word(op, a, bx), 14, 18) == bx,
{
    assert(op < 64 && a < 256 && bx < 0x40000 ==> {
        let w = op | (a << 6u64) | (bx << 14u64);
        ((w >> 0u64) & !((!0u64) << 6u64)) == op && ((w >> 6u64) & !((!0u64) << 8u64)) == a && ((w
            >> 14u64) & !((!0u64) << 18u64)) == bx
    }) by (bit_vector);
}

proof fn lemma_abc_word_fits(op: u64, a: u64, b: u64, c: u64)
    requires
        op < 64,
        a < 256,
        b < 512,
        c < 512,
    ensures
        abc_word(op, a, b, c) < 0x1_0000_0000,
{
    assert(op < 64 && a < 256 && b < 512 && c < 512 ==> (op | (a << 6u64) | (c << 14u64) | (b
        << 23u64)) < 0x1_0000_0000) by (bit_vector);
}

proof fn lemma_abx_word_fits(op: u64, a: u64, bx: u64)
    requires
        op < 64,
        a < 256,
        bx < 0x40000,
    ensures
        abx_word(op, a, bx) < 0x1_0000_0000,
{
    assert(op < 64 && a < 256 && bx < 0x40000 ==> (op | (a << 6u64) | (bx << 14u64))
        < 0x1_0000_0000) by (bit_vector);
}

/// An encodable instruction's code word fits a four-byte word.
pub proof fn lemma_instruction_word_fits(i: Instruction)
    requires
        instruction_encodable(i),
    ensures
        instruction_word(i) < 0x1_0000_0000,
{
    match i {
        Instruction::Move(a, b, c) => lemma_abc_word_fits(0, a as u64, b as u64, c as u64),
        Instruction::LoadK(a, bx) => lemma_abx_word_fits(1, a as u64, bx as u64),
        Instruction::LoadBool(a, b, c) => lemma_abc_word_fits(2, a as u64, b as u64, c as u64),
        Instruction::LoadNil(a, b, c) => lemma_abc_word_fits(3, a as u64, b as u64, c as u64),
        Instruction::GetUpVal(a, b, c) => lemma_abc_word_fits(4, a as u64, b as u64, c as u64),
        Instruction::GetGlobal(a, bx) => lemma_abx_word_fits(5, a as u64, bx as u64),
        Instruction::GetTable(a, b, c) => lemma_abc_word_fits(6, a as u64, b as u64, c as u64),
        Instruction::SetGlobal(a, bx) => lemma_abx_word_fits(7, a as u64, bx as u64),
        Instruction::SetUpVal(a, b, c) => lemma_abc_word_fits(8, a as u64, b as u64, c as u64),
        Instruction::SetTable(a, b, c) => lemma_abc_word_fits(9, a as u64, b as u64, c as u64),
        Instruction::NewTable(a, b, c) => lemma_abc_word_fits(10, a as u64, b as u64, c as u64),
        Instruction::SelF(a, b, c) => lemma_abc_word_fits(11, a as u64, b as u64, c as u64),
        Instruction::Add(a, b, c) => lemma_abc_word_fits(12, a as u64, b as u64, c as u64),
        Instruction::Sub(a, b, c) => lemma_abc_word_fits(13, a as u64, b as u64, c as u64),
        Instruction::Mul(a, b, c) => lemma_abc_word_fits(14, a as u64, b as u64, c as u64),
        Instruction::Div(a, b, c) => lemma_abc_word_fits(15, a as u64, b as u64, c as u64),
        Instruction::Mod(a, b, c) => lemma_abc_word_fits(16, a as u64, b as u64, c as u64),
        Instruction::Pow(a, b, c) => lemma_abc_word_fits(17, a as u64, b as u64, c as u64),
        Instruction::Unm(a, b, c) => lemma_abc_word_fits(18, a as u64, b as u64, c as u64),
        Instruction::Not(a, b, c) => lemma_abc_word_fits(19, a as u64, b as u64, c as u64),
        Instruction::Len(a, b, c) => lemma_abc_word_fits(20, a as u64, b as u64, c as u64),
        Instruction::Concat(a, b, c) => lemma_abc_word_fits(21, a as u64, b as u64, c as u64),
        Instruction::Jmp(a, sbx) => lemma_abx_word_fits(22, a as u64, (sbx + 131071) as u64),
        Instruction::Eq(a, b, c) => lemma_abc_word_fits(23, a as u64, b as u64, c as u64),
        Instruction::Lt(a, b, c) => lemma_abc_word_fits(24, a as u64, b as u64, c as u64),
        Instruction::Le(a, b, c) => lemma_abc_word_fits(25, a as u64, b as u64, c as u64),
        Instruction::Test(a, b, c) => lemma_abc_word_fits(26, a as u64, b as u64, c as u64),
        Instruction::TestSet(a, b, c) => lemma_abc_word_fits(27, a as u64, b as u64, c as u64),
        Instruction::Call(a, b, c) => lemma_abc_word_fits(28, a as u64, b as u64, c as u64),
        Instruction::TailCall(a, b, c) => lemma_abc_word_fits(29, a as u64, b as u64, c as u64),
        Instruction::Return(a, b, c) => lemma_abc_word_fits(30, a as u64, b as u64, c as u64),
        Instruction::ForLoop(a, sbx) => lemma_abx_word_fits(31, a as u64, (sbx + 131071) as u64),
        Instruction::ForPrep(a, sbx) => lemma_abx_word_fits(32, a as u64, (sbx + 131071) as u64),
        Instruction::TForLoop(a, b, c) => lemma_abc_word_fits(33, a as u64, b as u64, c as u64),
        Instruction::SetList(a, b, c) => lemma_abc_word_fits(34, a as u64, b as u64, c as u64),
        Instruction::Close(a, b, c) => lemma_abc_word_fits(35, a as u64, b as u64, c as u64),
        Instruction::Closure(a, bx) => lemma_abx_word_fits(36, a as u64, bx as u64),
        Instruction::VarArg(a, b, c) => lemma_abc_word_fits(37, a as u64, b as u64, c as u64),
    }
}

/// Reading a four-byte code word back from the representation a writer
/// put at `p` yields the instruction it encodes: the code layer of the
/// image round trip.
pub proof fn lemma_instruction_parse_of_bytes(
    buf: Seq<u8>,
    p: int,
    i: Instruction,
    meta: Metadata,
)
    requires
        0 <= p,
        instruction_encodable(i),
        meta.instr_size == 4,
        p + 4 <= buf.len(),
        buf.subrange(p, p + 4) == int_bytes(
            instruction_word(i) as nat,
            4,
            meta.bigendian,
        ),
    ensures
        instruction_parse(buf, p, meta) == Ok::<_, DecompileError>((i, p + 4)),
{
    lemma_instruction_word_fits(i);
    assert(byte_bound(0) == 1);
    assert(byte_bound(1) == 256);
    assert(byte_bound(2) == 0x1_0000);
    assert(byte_bound(3) == 0x100_0000);
    assert(byte_bound(4) == 0x1_0000_0000);
    lemma_int_parse_of_bytes(buf, p, instruction_word(i), 4, meta.bigendian);
    lemma_instruction_roundtrip(i);
}

/// The bytes a code list occupies, the count field excluded: one
/// four-byte word per instruction.
pub open spec fn code_bytes(code: Seq<Instruction>, meta: Metadata) -> Seq<u8>
    decreases code.len(),
{
    if code.len() == 0 {
        Seq::empty()
    } else {
        int_bytes(instruction_word(code.first()) as nat, 4, meta.bigendian) + code_bytes(
            code.drop_first(),
            meta,
        )
    }
}

/// Every instruction of a code list fits its word.
pub open spec fn code_encodable(code: Seq<Instruction>) -> bool {
    forall|i: int| 0 <= i < code.len() ==> instruction_encodable(#[trigger] code[i])
}

/// A code section holds four bytes per instruction.
pub proof fn lemma_code_bytes_len(code: Seq<Instruction>, meta: Metadata)
    ensures
        code_bytes(code, meta).len() == 4 * code.len(),
    decreases code.len(),
{
    if code.len() > 0 {
        lemma_int_bytes_len(instruction_word(code.first()) as nat, 4, meta.bigendian);
        lemma_code_bytes_len(code.drop_first(), meta);
    }
}

/// Reading any word of a code section a writer put at `p` yields the
/// instruction it encodes, at its own stride: the code section of the
/// image round trip.
pub proof fn lemma_code_section_roundtrip(
    buf: Seq<u8>,
    p: int,
    code: Seq<Instruction>,
    meta: Metadata,
    j: int,
)
    requires
        0 <= p,
        code_encodable(code),
        meta.instr_size == 4,
        p + code_bytes(code, meta).len() <= buf.len(),
        buf.subrange(p, p + code_bytes(code, meta).len()) == code_bytes(code, meta),
        0 <= j < code.len(),
    ensures
        instruction_parse(buf, p + 4 * j, meta) == Ok::<_, DecompileError>(
            (code[j], p + 4 * j + 4),
        ),
    decreases j,
{
    lemma_code_bytes_len(code, meta);
    let head = int_bytes(instruction_word(code.first()) as nat, 4, meta.bigendian);
    let tail = code_bytes(code.drop_first(), meta);
    let whole = code_bytes(code, meta);
    lemma_int_bytes_len(instruction_word(code.first()) as nat, 4, meta.bigendian);
    lemma_code_bytes_len(code.drop_first(), meta);
    assert(whole == head + tail);
    assert forall|x: int| 0 <= x < whole.len() implies buf[p + x] == whole[x] by {
        assert(buf.subrange(p, p + whole.len())[x] == buf[p + x]);
    }
    if j == 0 {
        assert forall|x: int| 0 <= x < 4 implies buf.subrange(p, p + 4)[x] == head[x] by {
            assert(buf.subrange(p, p + 4)[x] == buf[p + x]);
            assert(whole[x] == head[x]);
        }
        assert(buf.subrange(p, p + 4) =~= head);
        assert(code.first() == code[0]);
        lemma_instruction_parse_of_bytes(buf, p, code.first(), meta);
    } else {
        let q = p + 4;
        assert forall|x: int| 0 <= x < tail.len() implies buf.subrange(q, q + tail.len())[x]
            == tail[x] by {
            assert(buf.subrange(q, q + tail.len())[x] == buf[q + x]);
            assert(buf[p + (4 + x)] == whole[4 + x]);
            assert(whole[4 + x] == tail[x]);
        }
        assert(buf.subrange(q, q + tail.len()) =~= tail);
        assert forall|i: int|
            0 <= i < code.drop_first().len() implies instruction_encodable(
                #[trigger] code.drop_first()[i],
            ) by {
            assert(code.drop_first()[i] == code[i + 1]);
        }
        lemma_code_section_roundtrip(buf, q, code.drop_first(), meta, j - 1);
        assert(code.drop_first()[j - 1] == code[j]);
        assert(q + 4 * (j - 1) == p + 4 * j);
    }
}

/// Decoding the code word of an encodable instruction yields the
/// instruction: the instruction layer of the image round trip.
pub proof fn lemma_instruction_roundtrip(i: Instruction)
    requires
        instruction_encodable(i),
    ensures
        instruction_of_word(instruction_word(i)) == Ok::<_, DecompileError>(i),
{
    match i {
        Instruction::Move(a, b, c) => lemma_abc_fields(0, a as u64, b as u64, c as u64),
        Instruction::LoadK(a, bx) => lemma_abx_fields(1, a as u64, bx as u64),
        Instruction::LoadBool(a, b, c) => lemma_abc_fields(2, a as u64, b as u64, c as u64),
        Instruction::LoadNil(a, b, c) => lemma_abc_fields(3, a as u64, b as u64, c as u64),
        Instruction::GetUpVal(a, b, c) => lemma_abc_fields(4, a as u64, b as u64, c as u64),
        Instruction::GetGlobal(a, bx) => lemma_abx_fields(5, a as u64, bx as u64),
        Instruction::GetTable(a, b, c) => lemma_abc_fields(6, a as u64, b as u64, c as u64),
        Instruction::SetGlobal(a, bx) => lemma_abx_fields(7, a as u64, bx as u64),
        Instruction::SetUpVal(a, b, c) => lemma_abc_fields(8, a as u64, b as u64, c as u64),
        Instruction::SetTable(a, b, c) => lemma_abc_fields(9, a as u64, b as u64, c as u64),
        Instruction::NewTable(a, b, c) => lemma_abc_fields(10, a as u64, b as u64, c as u64),
        Instruction::SelF(a, b, c) => lemma_abc_fields(11, a as u64, b as u64, c as u64),
        Instruction::Add(a, b, c) => lemma_abc_fields(12, a as u64, b as u64, c as u64),
        Instruction::Sub(a, b, c) => lemma_abc_fields(13, a as u64, b as u64, c as u64),
        Instruction::Mul(a, b, c) => lemma_abc_fields(14, a as u64, b as u64, c as u64),
        Instruction::Div(a, b, c) => lemma_abc_fields(15, a as u64, b as u64, c as u64),
        Instruction::Mod(a, b, c) => lemma_abc_fields(16, a as u64, b as u64, c as u64),
        Instruction::Pow(a, b, c) => lemma_abc_fields(17, a as u64, b as u64, c as u64),
        Instruction::Unm(a, b, c) => lemma_abc_fields(18, a as u64, b as u64, c as u64),
        Instruction::Not(a, b, c) => lemma_abc_fields(19, a as u64, b as u64, c as u64),
        Instruction::Len(a, b, c) => lemma_abc_fields(20, a as u64, b as u64, c as u64),
        Instruction::Concat(a, b, c) => lemma_abc_fields(21, a as u64, b as u64, c as u64),
        Instruction::Jmp(a, sbx) => {
            lemma_abx_fields(22, a as u64, (sbx + 131071) as u64);
        },
        Instruction::Eq(a, b, c) => lemma_abc_fields(23, a as u64, b as u64, c as u64),
        Instruction::Lt(a, b, c) => lemma_abc_fields(24, a as u64, b as u64, c as u64),
        Instruction::Le(a, b, c) => lemma_abc_fields(25, a as u64, b as u64, c as u64),
        Instruction::Test(a, b, c) => lemma_abc_fields(26, a as u64, b as u64, c as u64),
        Instruction::TestSet(a, b, c) => lemma_abc_fields(27, a as u64, b as u64, c as u64),
        Instruction::Call(a, b, c) => lemma_abc_fields(28, a as u64, b as u64, c as u64),
        Instruction::TailCall(a, b, c) => lemma_abc_fields(29, a as u64, b as u64, c as u64),
        Instruction::Return(a, b, c) => lemma_abc_fields(30, a as u64, b as u64, c as u64),
        Instruction::ForLoop(a, sbx) => {
            lemma_abx_fields(31, a as u64, (sbx + 131071) as u64);
        },
        Instruction::ForPrep(a, sbx) => {
            lemma_abx_fields(32, a as u64, (sbx + 131071) as u64);
        },
        Instruction::TForLoop(a, b, c) => lemma_abc_fields(33, a as u64, b as u64, c as u64),
        Instruction::SetList(a, b, c) => lemma_abc_fields(34, a as u64, b as u64, c as u64),
        Instruction::Close(a, b, c) => lemma_abc_fields(35, a as u64, b as u64, c as u64),
        Instruction::Closure(a, bx) => lemma_abx_fields(36, a as u64, bx as u64),
        Instruction::VarArg(a, b, c) => lemma_abc_fields(37, a as u64, b as u64, c as u64),
    }
}

} // verus!
