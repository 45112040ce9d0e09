//! The eight one-byte fields that follow the signature of a program
//! image and govern how the rest of it is read.

use vstd::prelude::*;

use vstd::utf8::encode_utf8;

use crate::text::{dec_spec, push_dec, push_slice};

verus! {

/// The display text of a boolean header flag.
pub open spec fn flag_text(b: bool) -> Seq<u8> {
    if b {
        encode_utf8("true"@)
    } else {
        encode_utf8("false"@)
    }
}

#[derive(PartialEq, Eq, Structural, Clone, Copy, Debug)]
pub struct Metadata {
    pub version: u8,
    pub format: u8,
    /// A zero endian flag in the image means big endian.
    pub bigendian: bool,
    pub i_size: u8,
    pub u_size: u8,
    pub instr_size: u8,
    pub number_size: u8,
    pub int_flag: bool,
}

/// The display text of the header block.
pub open spec fn metadata_text(m: Metadata) -> Seq<u8> {
    encode_utf8("Metadata:\n\tVersion         : "@) + dec_spec(m.version as nat) + encode_utf8(
        "\n\tFormat          : "@,
    ) + dec_spec(m.format as nat) + encode_utf8("\n\tBigendian       : "@) + flag_text(
        m.bigendian,
    ) + encode_utf8("\n\tInteger Size    : "@) + dec_spec(m.i_size as nat) + encode_utf8(
        "\n\tUnsigned Size   : "@,
    ) + dec_spec(m.u_size as nat) + encode_utf8("\n\tInstruction Size: "@) + dec_spec(
        m.instr_size as nat,
    ) + encode_utf8("\n\tNumber Size     : "@) + dec_spec(m.number_size as nat) + encode_utf8(
        "\n\tInteger Flag    : "@,
    ) + flag_text(m.int_flag) + encode_utf8("\n"@)
}

impl Metadata {
    /// The display text of this header block.
    pub fn text(&self) -> (r: Vec<u8>)
        ensures
            r@ == metadata_text(*self),
    {
        let mut out: Vec<u8> = Vec::new();
        push_slice(&mut out, "Metadata:\n\tVersion         : ".as_bytes());
        push_dec(&mut out, self.version as u64);
        push_slice(&mut out, "\n\tFormat          : ".as_bytes());
        push_dec(&mut out, self.format as u64);
        push_slice(&mut out, "\n\tBigendian       : ".as_bytes());
        if self.bigendian {
            push_slice(&mut out, "true".as_bytes());
        } else {
            push_slice(&mut out, "false".as_bytes());
        }
        push_slice(&mut out, "\n\tInteger Size    : ".as_bytes());
        push_dec(&mut out, self.i_size as u64);
        push_slice(&mut out, "\n\tUnsigned Size   : ".as_bytes());
        push_dec(&mut out, self.u_size as u64);
        push_slice(&mut out, "\n\tInstruction Size: ".as_bytes());
        push_dec(&mut out, self.instr_size as u64);
        push_slice(&mut out, "\n\tNumber Size     : ".as_bytes());
        push_dec(&mut out, self.number_size as u64);
        push_slice(&mut out, "\n\tInteger Flag    : ".as_bytes());
        if self.int_flag {
            push_slice(&mut out, "true".as_bytes());
        } else {
            push_slice(&mut out, "false".as_bytes());
        }
        push_slice(&mut out, "\n".as_bytes());
        proof {
            assert(out@ =~= metadata_text(*self));
        }
        out
    }
}

} // verus!
