//! Debug record of a local variable: its name and the instruction range
//! in which it is in scope.

use vstd::prelude::*;

use vstd::utf8::encode_utf8;

use crate::text::{dec_spec, push_dec, push_slice};

verus! {

/// The display text of a local-variable record: its name and the bounds
/// of its scope.
pub open spec fn local_text(v: (Seq<u8>, u32, u32)) -> Seq<u8> {
    v.0 + encode_utf8(" { scope: "@) + dec_spec(v.1 as nat) + encode_utf8(" - "@) + dec_spec(
        v.2 as nat,
    ) + encode_utf8(" }"@)
}

#[derive(Debug)]
pub struct LocalVariable {
    identifier: Vec<u8>,
    start_scope: u32,
    end_scope: u32,
}

impl View for LocalVariable {
    type V = (Seq<u8>, u32, u32);

    closed spec fn view(&self) -> (Seq<u8>, u32, u32) {
        (self.identifier@, self.start_scope, self.end_scope)
    }
}

impl DeepView for LocalVariable {
    type V = (Seq<u8>, u32, u32);

    open spec fn deep_view(&self) -> (Seq<u8>, u32, u32) {
        self.view()
    }
}

impl LocalVariable {
    /// The display text of this record.
    pub fn text(&self) -> (r: Vec<u8>)
        ensures
            r@ == local_text(self@),
    {
        let mut out: Vec<u8> = Vec::new();
        crate::text::push_bytes(&mut out, &self.identifier);
        push_slice(&mut out, " { scope: ".as_bytes());
        push_dec(&mut out, self.start_scope as u64);
        push_slice(&mut out, " - ".as_bytes());
        push_dec(&mut out, self.end_scope as u64);
        push_slice(&mut out, " }".as_bytes());
        proof {
            assert(out@ =~= local_text(self@));
        }
        out
    }

    pub fn new(id: Vec<u8>, start: u32, end: u32) -> (r: LocalVariable)
        ensures
            r@ == (id@, start, end),
    {
        LocalVariable { identifier: id, start_scope: start, end_scope: end }
    }
}

} // verus!
