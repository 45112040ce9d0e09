//! The runtime datum of the interpreter.  A number carries its IEEE-754
//! bit pattern, a string owns its bytes, and a function value names its
//! prototype by the dense identifier the interpreter assigns before
//! execution.

use vstd::prelude::*;

use crate::numeric::num_eq_bits;

verus! {

#[derive(PartialEq, Eq, Structural, Clone, Copy, Debug)]
pub enum TypeLua {
    Number,
    Boolean,
    String,
    Nil,
    Table,
    Function,
}

/// A callable of the runtime library, exposed as a value in the initial
/// global environment.
#[derive(PartialEq, Eq, Structural, Clone, Copy, Debug)]
pub enum RuntimeFunction {
    Print,
}

#[derive(Debug)]
pub enum Value {
    Number(u64),
    Boolean(bool),
    LuaFunction(usize),
    LuaString(Vec<u8>),
    RuntimeFunction(RuntimeFunction),
    Nil,
}

/// The mathematical shape of a value: the same six-way sum with the string
/// abstracted to its byte sequence.
pub enum ValueModel {
    Number(u64),
    Boolean(bool),
    LuaFunction(int),
    String(Seq<u8>),
    RuntimeFunction(RuntimeFunction),
    Nil,
}

impl View for Value {
    type V = ValueModel;

    open spec fn view(&self) -> ValueModel {
        match self {
            Value::Number(n) => ValueModel::Number(*n),
            Value::Boolean(b) => ValueModel::Boolean(*b),
            Value::LuaFunction(id) => ValueModel::LuaFunction(*id as int),
            Value::LuaString(s) => ValueModel::String(s@),
            Value::RuntimeFunction(f) => ValueModel::RuntimeFunction(*f),
            Value::Nil => ValueModel::Nil,
        }
    }
}

impl DeepView for Value {
    type V = ValueModel;

    open spec fn deep_view(&self) -> ValueModel {
        self.view()
    }
}

/// Equality of two value models as the language defines it: structural on
/// nil, booleans and strings, IEEE-754 `==` on numbers, identity of the
/// prototype on functions.
pub open spec fn model_eq(a: ValueModel, b: ValueModel) -> bool {
    match (a, b) {
        (ValueModel::Number(x), ValueModel::Number(y)) => num_eq_bits(x, y),
        (ValueModel::Boolean(x), ValueModel::Boolean(y)) => x == y,
        (ValueModel::LuaFunction(x), ValueModel::LuaFunction(y)) => x == y,
        (ValueModel::String(x), ValueModel::String(y)) => x == y,
        (ValueModel::RuntimeFunction(x), ValueModel::RuntimeFunction(y)) => x == y,
        (ValueModel::Nil, ValueModel::Nil) => true,
        _ => false,
    }
}

/// Truthiness of a value model: nil and false are false, everything else
/// is true.
pub open spec fn model_truthy(v: ValueModel) -> bool {
    match v {
        ValueModel::Boolean(b) => b,
        ValueModel::Nil => false,
        _ => true,
    }
}

/// A fresh copy of an owned byte string.
pub fn clone_bytes(s: &Vec<u8>) -> (r: Vec<u8>)
    ensures
        r@ == s@,
{
    let mut r: Vec<u8> = Vec::new();
    let mut i: usize = 0;
    while i < s.len()
        invariant
            i <= s.len(),
            r@ == s@.subrange(0, i as int),
        decreases s.len() - i,
    {
        r.push(s[i]);
        proof {
            assert(r@ =~= s@.subrange(0, (i + 1) as int));
        }
        i = i + 1;
    }
    proof {
        assert(r@ =~= s@);
    }
    r
}

impl Clone for Value {
    fn clone(&self) -> (r: Self)
        ensures
            r@ == self@,
    {
        match self {
            Value::Number(n) => Value::Number(*n),
            Value::Boolean(b) => Value::Boolean(*b),
            Value::LuaFunction(id) => Value::LuaFunction(*id),
            Value::LuaString(s) => Value::LuaString(clone_bytes(s)),
            Value::RuntimeFunction(f) => Value::RuntimeFunction(*f),
            Value::Nil => Value::Nil,
        }
    }
}

/// Byte-for-byte comparison of two owned byte strings.
pub fn bytes_eq(a: &Vec<u8>, b: &Vec<u8>) -> (r: bool)
    ensures
        r == (a@ == b@),
{
    if a.len() != b.len() {
        proof {
            assert(a@.len() != b@.len() ==> a@ != b@);
        }
        return false;
    }
    let mut i: usize = 0;
    while i < a.len()
        invariant
            i <= a.len(),
            a@.len() == b@.len(),
            forall|j: int| 0 <= j < i ==> a@[j] == b@[j],
        decreases a.len() - i,
    {
        if a[i] != b[i] {
            return false;
        }
        i = i + 1;
    }
    proof {
        assert(a@ =~= b@);
    }
    true
}

impl PartialEq for Value {
    fn eq(&self, other: &Value) -> (r: bool) {
        match (self, other) {
            (Value::Number(x), Value::Number(y)) => crate::numeric::numbers_eq(*x, *y),
            (Value::Boolean(x), Value::Boolean(y)) => *x == *y,
            (Value::LuaFunction(x), Value::LuaFunction(y)) => *x == *y,
            (Value::LuaString(x), Value::LuaString(y)) => bytes_eq(x, y),
            (Value::RuntimeFunction(x), Value::RuntimeFunction(y)) => *x == *y,
            (Value::Nil, Value::Nil) => true,
            _ => false,
        }
    }
}

impl vstd::std_specs::cmp::PartialEqSpecImpl for Value {
    open spec fn obeys_eq_spec() -> bool {
        true
    }

    open spec fn eq_spec(&self, other: &Value) -> bool {
        model_eq(self@, other@)
    }
}

/// The conjunction of two value models: nil absorbs, false booleans
/// short-circuit, numbers meet bit by bit, and anything else yields the
/// right operand.
pub open spec fn model_and(a: ValueModel, b: ValueModel) -> ValueModel {
    match (a, b) {
        (ValueModel::Nil, _) => ValueModel::Nil,
        (_, ValueModel::Nil) => ValueModel::Nil,
        (ValueModel::Boolean(x), ValueModel::Boolean(y)) => ValueModel::Boolean(x && y),
        (ValueModel::Boolean(false), _) => ValueModel::Boolean(false),
        (av, ValueModel::Boolean(false)) => av,
        (ValueModel::Number(x), ValueModel::Number(y)) => ValueModel::Number(x & y),
        (_, bv) => bv,
    }
}

/// The disjunction of two value models: nil yields the other operand,
/// booleans join, and numbers join bit by bit.
pub open spec fn model_or(a: ValueModel, b: ValueModel) -> ValueModel {
    match (a, b) {
        (ValueModel::Nil, v) => v,
        (v, ValueModel::Nil) => v,
        (ValueModel::Boolean(x), ValueModel::Boolean(y)) => ValueModel::Boolean(x || y),
        (ValueModel::Number(x), ValueModel::Number(y)) => ValueModel::Number(x | y),
        (av, _) => av,
    }
}

impl Value {
    /// The conjunction of two values; on numbers it meets the bit
    /// patterns.
    pub fn bitand(self, rhs: Value) -> (r: Value)
        ensures
            r@ == model_and(self@, rhs@),
    {
        match (self, rhs) {
            (Value::Nil, _) => Value::Nil,
            (_, Value::Nil) => Value::Nil,
            (Value::Boolean(x), Value::Boolean(y)) => Value::Boolean(x && y),
            (Value::Boolean(false), _) => Value::Boolean(false),
            (a, Value::Boolean(false)) => a,
            (Value::Number(x), Value::Number(y)) => Value::Number(x & y),
            (_, b) => b,
        }
    }

    /// The disjunction of two values; on numbers it joins the bit
    /// patterns.
    pub fn bitor(self, rhs: Value) -> (r: Value)
        ensures
            r@ == model_or(self@, rhs@),
    {
        match (self, rhs) {
            (Value::Nil, v) => v,
            (v, Value::Nil) => v,
            (Value::Boolean(x), Value::Boolean(y)) => Value::Boolean(x || y),
            (Value::Number(x), Value::Number(y)) => Value::Number(x | y),
            (a, _) => a,
        }
    }

    pub fn is_nil(&self) -> (r: bool)
        ensures
            r == (self@ is Nil),
    {
        match *self {
            Value::Nil => true,
            _ => false,
        }
    }

    pub fn get_number(&self) -> (r: Option<u64>)
        ensures
            match r {
                Some(n) => self@ == ValueModel::Number(n),
                None => !(self@ is Number),
            },
    {
        match self {
            Value::Number(n) => Some(*n),
            _ => None,
        }
    }

    pub fn get_boolean(&self) -> (r: Option<bool>)
        ensures
            match r {
                Some(b) => self@ == ValueModel::Boolean(b),
                None => !(self@ is Boolean),
            },
    {
        match *self {
            Value::Boolean(b) => Some(b),
            _ => None,
        }
    }

    pub fn to_boolean(&self) -> (r: bool)
        ensures
            r == model_truthy(self@),
    {
        match *self {
            Value::Boolean(b) => b,
            Value::Nil => false,
            _ => true,
        }
    }

    pub fn get_function(&self) -> (r: Option<usize>)
        ensures
            match r {
                Some(id) => self@ == ValueModel::LuaFunction(id as int),
                None => !(self@ is LuaFunction),
            },
    {
        match *self {
            Value::LuaFunction(id) => Some(id),
            _ => None,
        }
    }

    pub fn get_string(&self) -> (r: Option<&Vec<u8>>)
        ensures
            match r {
                Some(s) => self@ == ValueModel::String(s@),
                None => !(self@ is String),
            },
    {
        match self {
            Value::LuaString(s) => Some(s),
            _ => None,
        }
    }

    pub fn get_type(&self) -> (r: TypeLua)
        ensures
            r == (match self@ {
                ValueModel::Boolean(_) => TypeLua::Boolean,
                ValueModel::Nil => TypeLua::Nil,
                ValueModel::Number(_) => TypeLua::Number,
                ValueModel::LuaFunction(_) => TypeLua::Function,
                ValueModel::String(_) => TypeLua::String,
                ValueModel::RuntimeFunction(_) => TypeLua::Function,
            }),
    {
        match self {
            Value::Boolean(_) => TypeLua::Boolean,
            Value::Nil => TypeLua::Nil,
            Value::Number(_) => TypeLua::Number,
            Value::LuaFunction(_) => TypeLua::Function,
            Value::LuaString(_) => TypeLua::String,
            Value::RuntimeFunction(_) => TypeLua::Function,
        }
    }
}

} // verus!
