//! An entry of a prototype's constant pool: nil, a boolean, a number
//! (held as its IEEE-754 bit pattern) or a byte string.

use vstd::prelude::*;

use vstd::utf8::encode_utf8;

use crate::object::{clone_bytes, Value, ValueModel};
use crate::text::{push_bytes, push_slice};

verus! {

#[derive(Debug)]
pub enum Constant {
    Null,
    Boolean(bool),
    Number(u64),
    String(Vec<u8>),
}

/// The mathematical shape of a constant.
pub enum ConstantModel {
    Null,
    Boolean(bool),
    Number(u64),
    String(Seq<u8>),
}

impl View for Constant {
    type V = ConstantModel;

    open spec fn view(&self) -> ConstantModel {
        match self {
            Constant::Null => ConstantModel::Null,
            Constant::Boolean(b) => ConstantModel::Boolean(*b),
            Constant::Number(n) => ConstantModel::Number(*n),
            Constant::String(s) => ConstantModel::String(s@),
        }
    }
}

impl DeepView for Constant {
    type V = ConstantModel;

    open spec fn deep_view(&self) -> ConstantModel {
        self.view()
    }
}

/// The display text of a boolean.
pub open spec fn bool_text(b: bool) -> Seq<u8> {
    if b {
        encode_utf8("true"@)
    } else {
        encode_utf8("false"@)
    }
}

/// The display text of a constant: its kind and its payload; nil shows
/// nothing.
pub open spec fn constant_text(c: ConstantModel) -> Seq<u8> {
    match c {
        ConstantModel::Null => Seq::empty(),
        ConstantModel::Boolean(b) => encode_utf8("Boolean: "@) + bool_text(b),
        ConstantModel::Number(n) => encode_utf8("Number: "@) + crate::numeric::number_text(n),
        ConstantModel::String(s) => encode_utf8("String: "@) + s,
    }
}

/// The value a constant denotes when an instruction loads it.
pub open spec fn constant_value(c: ConstantModel) -> ValueModel {
    match c {
        ConstantModel::Null => ValueModel::Nil,
        ConstantModel::Boolean(b) => ValueModel::Boolean(b),
        ConstantModel::Number(n) => ValueModel::Number(n),
        ConstantModel::String(s) => ValueModel::String(s),
    }
}

impl Clone for Constant {
    fn clone(&self) -> (r: Self)
        ensures
            r@ == self@,
    {
        match self {
            Constant::Null => Constant::Null,
            Constant::Boolean(b) => Constant::Boolean(*b),
            Constant::Number(n) => Constant::Number(*n),
            Constant::String(s) => Constant::String(clone_bytes(s)),
        }
    }
}

impl Constant {
    /// The runtime value of this constant.
    pub fn as_value(&self) -> (r: Value)
        ensures
            r@ == constant_value(self@),
    {
        match self {
            Constant::Null => Value::Nil,
            Constant::Boolean(b) => Value::Boolean(*b),
            Constant::Number(n) => Value::Number(*n),
            Constant::String(s) => Value::LuaString(clone_bytes(s)),
        }
    }

    /// The display text of this constant.
    pub fn text(&self) -> (r: Vec<u8>)
        ensures
            r@ == constant_text(self@),
    {
        let mut out: Vec<u8> = Vec::new();
        match self {
            Constant::Null => {},
            Constant::Boolean(b) => {
                push_slice(&mut out, "Boolean: ".as_bytes());
                if *b {
                    push_slice(&mut out, "true".as_bytes());
                } else {
                    push_slice(&mut out, "false".as_bytes());
                }
            },
            Constant::Number(n) => {
                push_slice(&mut out, "Number: ".as_bytes());
                crate::numeric::push_number_text(&mut out, *n);
            },
            Constant::String(s) => {
                push_slice(&mut out, "String: ".as_bytes());
                push_bytes(&mut out, s);
            },
        }
        proof {
            assert(out@ =~= constant_text(self@));
        }
        out
    }

    /// The bytes of a string constant; only a string constant has them.
    pub fn get_string(&self) -> (r: Vec<u8>)
        requires
            self@ is String,
        ensures
            self@ == ConstantModel::String(r@),
    {
        match self {
            Constant::String(s) => clone_bytes(s),
            Constant::Null => unreached(),
            Constant::Boolean(_) => unreached(),
            Constant::Number(_) => unreached(),
        }
    }
}

} // verus!
