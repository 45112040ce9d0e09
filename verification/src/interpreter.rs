//! The instruction dispatch loop and one handler per opcode: a
//! register-based evaluator with an explicit stack of activations, so a
//! tail call replaces the running activation instead of piling a new one
//! on top of it.

use vstd::prelude::*;

use crate::call_frame::CallFrame;
use crate::constant::{constant_value, ConstantModel};
use crate::function::{proto_count, proto_count_list, Function};
use crate::global_environment::{env_err_key, EnvironmentError, GlobalEnvironment};
use crate::instruction::Instruction;
use crate::numeric::{
    add_of,
    div_of,
    flt_lt_bits,
    fmod_of,
    is_zero_bits,
    mul_of,
    number_add,
    number_div,
    number_fmod,
    number_mul,
    number_neg,
    number_of_length,
    number_pow,
    number_sub,
    numbers_lt,
    numbers_total_le,
    numbers_total_lt,
    pow_of_bits,
    sub_of,
    total_key,
    SIGN_MASK,
};
use crate::object::{model_truthy, RuntimeFunction, Value, ValueModel};

verus! {

#[derive(Debug)]
pub enum InterpreterError {
    /// A global lookup failed.
    GlobalError { heap_error: EnvironmentError },
    ReturnError,
    ZeroDivisionError,
    NotCallableError,
    TailCallError,
    ClosureError,
    /// A decoded but unimplemented opcode was reached.
    UnimplementedOpcode,
    /// A register, constant, upvalue or jump target of the image lies out
    /// of range: a programming error in the image.
    OutOfRangeError,
    /// An operand does not have the type its instruction demands: a
    /// programming error in the image.
    TypeMismatchError,
    /// The execution step bound was exhausted.
    StepLimitError,
}

/// The diagnostic text of an interpreter error.
pub open spec fn interpreter_error_text(e: &InterpreterError) -> Seq<u8> {
    match e {
        InterpreterError::GlobalError { heap_error } => vstd::utf8::encode_utf8("Heap Error: "@)
            + crate::global_environment::environment_error_text(heap_error),
        InterpreterError::ReturnError => vstd::utf8::encode_utf8("Return not caught"@),
        InterpreterError::ZeroDivisionError => vstd::utf8::encode_utf8("Dividing by zero"@),
        InterpreterError::NotCallableError => vstd::utf8::encode_utf8("Object is not callable"@),
        InterpreterError::TailCallError => vstd::utf8::encode_utf8("Object can't be tail called"@),
        InterpreterError::ClosureError => vstd::utf8::encode_utf8("Error while making closure"@),
        InterpreterError::UnimplementedOpcode => vstd::utf8::encode_utf8(
            "Unimplemented opcode reached"@,
        ),
        InterpreterError::OutOfRangeError => vstd::utf8::encode_utf8(
            "Register or constant access out of range"@,
        ),
        InterpreterError::TypeMismatchError => vstd::utf8::encode_utf8(
            "Operand does not have the expected type"@,
        ),
        InterpreterError::StepLimitError => vstd::utf8::encode_utf8(
            "Execution step bound exhausted"@,
        ),
    }
}

impl InterpreterError {
    /// The diagnostic text of this error.
    pub fn message(&self) -> (r: Vec<u8>)
        ensures
            r@ == interpreter_error_text(self),
    {
        let mut out: Vec<u8> = Vec::new();
        match self {
            InterpreterError::GlobalError { heap_error } => {
                crate::text::push_slice(&mut out, "Heap Error: ".as_bytes());
                let inner = heap_error.message();
                crate::text::push_bytes(&mut out, &inner);
            },
            InterpreterError::ReturnError => {
                crate::text::push_slice(&mut out, "Return not caught".as_bytes());
            },
            InterpreterError::ZeroDivisionError => {
                crate::text::push_slice(&mut out, "Dividing by zero".as_bytes());
            },
            InterpreterError::NotCallableError => {
                crate::text::push_slice(&mut out, "Object is not callable".as_bytes());
            },
            InterpreterError::TailCallError => {
                crate::text::push_slice(&mut out, "Object can't be tail called".as_bytes());
            },
            InterpreterError::ClosureError => {
                crate::text::push_slice(&mut out, "Error while making closure".as_bytes());
            },
            InterpreterError::UnimplementedOpcode => {
                crate::text::push_slice(&mut out, "Unimplemented opcode reached".as_bytes());
            },
            InterpreterError::OutOfRangeError => {
                crate::text::push_slice(
                    &mut out,
                    "Register or constant access out of range".as_bytes(),
                );
            },
            InterpreterError::TypeMismatchError => {
                crate::text::push_slice(
                    &mut out,
                    "Operand does not have the expected type".as_bytes(),
                );
            },
            InterpreterError::StepLimitError => {
                crate::text::push_slice(&mut out, "Execution step bound exhausted".as_bytes());
            },
        }
        proof {
            assert(out@ =~= interpreter_error_text(self));
        }
        out
    }
}

/// The prototype of the tree rooted at `f` carrying `id`, searched in
/// pre-order.
pub open spec fn find_proto_spec(f: Function, id: usize) -> Option<Function>
    decreases f,
{
    if f.identifier == id {
        Some(f)
    } else {
        find_proto_list_spec(f.func_list@, id)
    }
}

pub open spec fn find_proto_list_spec(s: Seq<Function>, id: usize) -> Option<Function>
    decreases s,
{
    if s.len() == 0 {
        None
    } else {
        match find_proto_spec(s[0], id) {
            Some(g) => Some(g),
            None => find_proto_list_spec(s.subrange(1, s.len() as int), id),
        }
    }
}

/// Finds the prototype carrying `id`.
pub fn find_proto<'a>(f: &'a Function, id: usize) -> (r: Option<&'a Function>)
    ensures
        match r {
            Some(g) => find_proto_spec(*f, id) == Some(*g),
            None => find_proto_spec(*f, id) is None,
        },
    decreases *f,
{
    if f.identifier == id {
        return Some(f);
    }
    let n = f.func_list.len();
    let mut i: usize = 0;
    while i < n
        invariant
            n == f.func_list@.len(),
            i <= n,
            f.identifier != id,
            find_proto_list_spec(f.func_list@.subrange(0, i as int), id) is None,
        decreases n - i,
    {
        proof {
            assert(decreases_to!(*f => f.func_list));
            assert(decreases_to!(f.func_list => f.func_list@));
            assert(decreases_to!(f.func_list@ => f.func_list@[i as int]));
            assert(decreases_to!(*f => f.func_list@[i as int]));
        }
        match find_proto(&f.func_list[i], id) {
            Some(g) => {
                proof {
                    lemma_find_list_prefix(f.func_list@, id, i as int);
                }
                return Some(g);
            },
            None => {
                proof {
                    lemma_find_list_extend(f.func_list@, id, i as int);
                }
            },
        }
        i = i + 1;
    }
    proof {
        assert(f.func_list@.subrange(0, n as int) =~= f.func_list@);
    }
    None
}

/// A hit at `i` after misses before it is the pre-order result.
proof fn lemma_find_list_prefix(s: Seq<Function>, id: usize, i: int)
    requires
        0 <= i < s.len(),
        find_proto_list_spec(s.subrange(0, i), id) is None,
        find_proto_spec(s[i], id) is Some,
    ensures
        find_proto_list_spec(s, id) == find_proto_spec(s[i], id),
    decreases i,
{
    if i == 0 {
    } else {
        assert(s.subrange(0, i)[0] == s[0]);
        assert(s.subrange(0, i).subrange(1, i) =~= s.subrange(1, s.len() as int).subrange(
            0,
            i - 1,
        ));
        lemma_find_list_prefix(s.subrange(1, s.len() as int), id, i - 1);
    }
}

/// A miss at `i` after misses before it extends the missed prefix.
proof fn lemma_find_list_extend(s: Seq<Function>, id: usize, i: int)
    requires
        0 <= i < s.len(),
        find_proto_list_spec(s.subrange(0, i), id) is None,
        find_proto_spec(s[i], id) is None,
    ensures
        find_proto_list_spec(s.subrange(0, i + 1), id) is None,
    decreases i,
{
    if i == 0 {
        assert(s.subrange(0, 1)[0] == s[0]);
        assert(s.subrange(0, 1).subrange(1, 1) =~= Seq::<Function>::empty());
        assert(find_proto_list_spec(Seq::<Function>::empty(), id) is None);
    } else {
        assert(s.subrange(0, i)[0] == s[0]);
        assert(s.subrange(0, i + 1)[0] == s[0]);
        assert(s.subrange(0, i).subrange(1, i) =~= s.subrange(1, s.len() as int).subrange(
            0,
            i - 1,
        ));
        assert(s.subrange(0, i + 1).subrange(1, i + 1) =~= s.subrange(
            1,
            s.len() as int,
        ).subrange(0, i));
        lemma_find_list_extend(s.subrange(1, s.len() as int), id, i - 1);
    }
}

/// The top of stack after a write to register `a`.
pub open spec fn top_after(top: usize, a: usize) -> int {
    if a >= top {
        a + 1
    } else {
        top as int
    }
}

/// Stores the `b`th constant of the running prototype in register `a`.
pub fn load_k(func: &Function, frame: &mut CallFrame, a: usize, b: usize) -> (r: Result<
    (),
    InterpreterError,
>)
    requires
        old(frame).wf(),
    ensures
        final(frame).wf(),
        final(frame)@.len() == old(frame)@.len(),
        match r {
            Ok(_) => {
                &&& a < old(frame)@.len()
                &&& b < func.const_list@.len()
                &&& final(frame)@ == old(frame)@.update(
                    a as int,
                    constant_value(func.const_list.deep_view()[b as int]),
                )
                &&& final(frame).spec_top() == top_after(old(frame).spec_top(), a)
            },
            Err(e) => {
                &&& e is OutOfRangeError
                &&& (a >= old(frame)@.len() || b >= func.const_list@.len())
                &&& final(frame)@ == old(frame)@
            },
        },
{
    if b >= func.const_list.len() || a >= frame.capacity() {
        return Err(InterpreterError::OutOfRangeError);
    }
    let constant = func.const_list[b].as_value();
    frame.store(a, constant);
    Ok(())
}

/// Stores a fresh boolean in register `a`; a nonzero `c` skips the next
/// instruction.
pub fn load_bool(frame: &mut CallFrame, a: usize, b: usize, c: usize, pc: &mut usize) -> (r: Result<
    (),
    InterpreterError,
>)
    requires
        old(frame).wf(),
    ensures
        final(frame).wf(),
        final(frame)@.len() == old(frame)@.len(),
        match r {
            Ok(_) => {
                &&& a < old(frame)@.len()
                &&& final(frame)@ == old(frame)@.update(a as int, ValueModel::Boolean(b > 0))
                &&& final(frame).spec_top() == top_after(old(frame).spec_top(), a)
                &&& *final(pc) == if c > 0 {
                    *old(pc) + 1
                } else {
                    *old(pc) as int
                }
            },
            Err(e) => {
                &&& e is OutOfRangeError
                &&& (a >= old(frame)@.len() || (c > 0 && *old(pc) == usize::MAX))
                &&& final(frame)@ == old(frame)@
                &&& *final(pc) == *old(pc)
            },
        },
{
    if a >= frame.capacity() {
        return Err(InterpreterError::OutOfRangeError);
    }
    if c > 0 && *pc == usize::MAX {
        return Err(InterpreterError::OutOfRangeError);
    }
    frame.store(a, Value::Boolean(b > 0));
    if c > 0 {
        *pc = *pc + 1;
    }
    Ok(())
}

/// Fills registers `a` through `b` with nil.
pub fn load_nil(frame: &mut CallFrame, a: usize, b: usize) -> (r: Result<(), InterpreterError>)
    requires
        old(frame).wf(),
    ensures
        final(frame).wf(),
        final(frame)@.len() == old(frame)@.len(),
        match r {
            Ok(_) => if a > b {
                final(frame)@ == old(frame)@ && final(frame).spec_top() == old(frame).spec_top()
            } else {
                &&& b < old(frame)@.len()
                &&& forall|j: int|
                    0 <= j < old(frame)@.len() ==> final(frame)@[j] == (if a <= j <= b {
                        ValueModel::Nil
                    } else {
                        old(frame)@[j]
                    })
                &&& final(frame).spec_top() == top_after(old(frame).spec_top(), b)
            },
            Err(e) => {
                &&& e is OutOfRangeError
                &&& (a <= b && b >= old(frame)@.len())
                &&& final(frame)@ == old(frame)@
            },
        },
{
    if a > b {
        return Ok(());
    }
    if b >= frame.capacity() {
        return Err(InterpreterError::OutOfRangeError);
    }
    let mut i: usize = a;
    while i <= b
        invariant
            a <= i <= b + 1,
            b < frame@.len(),
            frame.wf(),
            frame@.len() == old(frame)@.len(),
            forall|j: int|
                0 <= j < old(frame)@.len() ==> frame@[j] == (if a <= j < i {
                    ValueModel::Nil
                } else {
                    old(frame)@[j]
                }),
            i > a ==> frame.spec_top() == top_after(old(frame).spec_top(), (i - 1) as usize),
            i == a ==> frame.spec_top() == old(frame).spec_top(),
        decreases b + 1 - i,
    {
        frame.store(i, Value::Nil);
        i = i + 1;
    }
    Ok(())
}

/// Copies register `b` into register `a`.
pub fn move_operation(frame: &mut CallFrame, a: usize, b: usize) -> (r: Result<
    (),
    InterpreterError,
>)
    requires
        old(frame).wf(),
    ensures
        final(frame).wf(),
        final(frame)@.len() == old(frame)@.len(),
        match r {
            Ok(_) => {
                &&& a < old(frame)@.len()
                &&& b < old(frame)@.len()
                &&& final(frame)@ == old(frame)@.update(a as int, old(frame)@[b as int])
                &&& final(frame).spec_top() == old(frame).spec_top()
            },
            Err(e) => {
                &&& e is OutOfRangeError
                &&& (a >= old(frame)@.len() || b >= old(frame)@.len())
                &&& final(frame)@ == old(frame)@
            },
        },
{
    if a >= frame.capacity() || b >= frame.capacity() {
        return Err(InterpreterError::OutOfRangeError);
    }
    frame.move_register(a, b);
    Ok(())
}

/// The value an operand denotes: the register when it is below 256, else
/// the constant the rest selects.
pub open spec fn rk_spec(func: Function, frame: Seq<ValueModel>, r: usize) -> Option<ValueModel> {
    if r >= 256 {
        if r % 256 < func.const_list@.len() {
            Some(constant_value(func.const_list.deep_view()[(r % 256) as int]))
        } else {
            None
        }
    } else {
        if r < frame.len() {
            Some(frame[r as int])
        } else {
            None
        }
    }
}

/// Reads the register or constant an operand denotes.
pub fn get_rk(func: &Function, frame: &CallFrame, r: usize) -> (res: Result<
    Value,
    InterpreterError,
>)
    ensures
        match res {
            Ok(v) => rk_spec(*func, frame@, r) == Some(v@),
            Err(e) => rk_spec(*func, frame@, r) is None && e is OutOfRangeError,
        },
{
    if r >= 256 {
        if r % 256 >= func.const_list.len() {
            return Err(InterpreterError::OutOfRangeError);
        }
        Ok(func.const_list[r % 256].as_value())
    } else {
        if r >= frame.capacity() {
            return Err(InterpreterError::OutOfRangeError);
        }
        Ok(frame.load(r))
    }
}

/// Whether an instruction is one of the six arithmetic forms.
pub open spec fn is_arithmetic(instr: Instruction) -> bool {
    ||| instr is Add
    ||| instr is Sub
    ||| instr is Mul
    ||| instr is Div
    ||| instr is Mod
    ||| instr is Pow
}

/// The pattern an arithmetic instruction computes from the patterns of
/// its two operands; division and remainder are only applied to a
/// divisor that is not zero.  Exponentiation follows `pow_of_bits`,
/// which computes integral exponents exactly and deliberately yields a
/// quiet NaN for finite non-integral ones.
pub open spec fn arith_result(instr: Instruction, nb: u64, nc: u64) -> u64 {
    match instr {
        Instruction::Add(_, _, _) => add_of(nb, nc),
        Instruction::Sub(_, _, _) => sub_of(nb, nc),
        Instruction::Mul(_, _, _) => mul_of(nb, nc),
        Instruction::Div(_, _, _) => div_of(nb, nc),
        Instruction::Mod(_, _, _) => fmod_of(nb, nc),
        Instruction::Pow(_, _, _) => pow_of_bits(nb, nc),
        _ => 0,
    }
}

/// Evaluates an arithmetic instruction over the patterns of its two
/// number operands and stores the result in register `a`; a zero divisor
/// of a division or remainder is fatal.
pub fn arithmetic_operation(
    func: &Function,
    instr: &Instruction,
    frame: &mut CallFrame,
    a: usize,
    b: usize,
    c: usize,
) -> (r: Result<(), InterpreterError>)
    requires
        old(frame).wf(),
        is_arithmetic(*instr),
    ensures
        final(frame).wf(),
        final(frame)@.len() == old(frame)@.len(),
        match r {
            Ok(_) => {
                &&& a < old(frame)@.len()
                &&& rk_spec(*func, old(frame)@, b) matches Some(ValueModel::Number(nb))
                &&& rk_spec(*func, old(frame)@, c) matches Some(ValueModel::Number(nc))
                    && ((instr is Div || instr is Mod) ==> !is_zero_bits(nc)) && (instr is Pow
                    ==> crate::numeric::pow_supported(nc)) && final(frame)@ == old(
                    frame,
                )@.update(
                    a as int,
                    ValueModel::Number(
                        arith_result(
                            *instr,
                            rk_spec(*func, old(frame)@, b)->Some_0->Number_0,
                            nc,
                        ),
                    ),
                ) && final(frame).spec_top() == top_after(old(frame).spec_top(), a)
            },
            Err(e) => {
                &&& final(frame)@ == old(frame)@
                &&& e is ZeroDivisionError ==> (instr is Div || instr is Mod)
                    && (rk_spec(*func, old(frame)@, c) matches Some(ValueModel::Number(nc))
                    && is_zero_bits(nc))
                &&& (match (rk_spec(*func, old(frame)@, b), rk_spec(*func, old(frame)@, c)) {
                    (Some(ValueModel::Number(nb)), Some(ValueModel::Number(nc))) => (a >= old(frame)@.len() || ((instr is Div || instr is Mod) && is_zero_bits(nc)
                        && e is ZeroDivisionError) || (instr is Pow
                        && !crate::numeric::pow_supported(nc) && e is TypeMismatchError)),
                    _ => true,
                })
            },
        },
{
    let rk_b = get_rk(func, frame, b)?;
    let rk_c = get_rk(func, frame, c)?;
    let number_b = match rk_b.get_number() {
        Some(n) => n,
        None => {
            return Err(InterpreterError::TypeMismatchError);
        },
    };
    let number_c = match rk_c.get_number() {
        Some(n) => n,
        None => {
            return Err(InterpreterError::TypeMismatchError);
        },
    };
    if a >= frame.capacity() {
        return Err(InterpreterError::OutOfRangeError);
    }
    match instr {
        Instruction::Add(_, _, _) => {
            let v = number_add(number_b, number_c);
            frame.store(a, Value::Number(v));
        },
        Instruction::Sub(_, _, _) => {
            let v = number_sub(number_b, number_c);
            frame.store(a, Value::Number(v));
        },
        Instruction::Mul(_, _, _) => {
            let v = number_mul(number_b, number_c);
            frame.store(a, Value::Number(v));
        },
        Instruction::Pow(_, _, _) => {
            match number_pow(number_b, number_c) {
                Some(v) => {
                    frame.store(a, Value::Number(v));
                },
                None => {
                    return Err(InterpreterError::TypeMismatchError);
                },
            }
        },
        Instruction::Div(_, _, _) => {
            if crate::numeric::number_is_zero(number_c) {
                return Err(InterpreterError::ZeroDivisionError);
            }
            let v = number_div(number_b, number_c);
            frame.store(a, Value::Number(v));
        },
        Instruction::Mod(_, _, _) => {
            if crate::numeric::number_is_zero(number_c) {
                return Err(InterpreterError::ZeroDivisionError);
            }
            let v = number_fmod(number_b, number_c);
            frame.store(a, Value::Number(v));
        },
        _ => {
            return Err(InterpreterError::TypeMismatchError);
        },
    }
    Ok(())
}

/// Stores in register `a` the negation of the number in register `b`.
pub fn minus_operator(frame: &mut CallFrame, a: usize, b: usize) -> (r: Result<
    (),
    InterpreterError,
>)
    requires
        old(frame).wf(),
    ensures
        final(frame).wf(),
        final(frame)@.len() == old(frame)@.len(),
        match r {
            Ok(_) => {
                &&& a < old(frame)@.len()
                &&& b < old(frame)@.len()
                &&& old(frame)@[b as int] matches ValueModel::Number(n) && final(frame)@ == old(frame)@.update(a as int, ValueModel::Number((n ^ SIGN_MASK) as u64))
                &&& final(frame).spec_top() == top_after(old(frame).spec_top(), a)
            },
            Err(_) => {
                &&& final(frame)@ == old(frame)@
                &&& (a >= old(frame)@.len() || b >= old(frame)@.len() || !(old(frame)@[b as int] is Number))
            },
        },
{
    if b >= frame.capacity() || a >= frame.capacity() {
        return Err(InterpreterError::OutOfRangeError);
    }
    let number = match frame.load(b).get_number() {
        Some(n) => n,
        None => {
            return Err(InterpreterError::TypeMismatchError);
        },
    };
    frame.store(a, Value::Number(number_neg(number)));
    Ok(())
}

/// Stores in register `a` the boolean opposite of the truthiness of
/// register `b`: nil and false negate to true, everything else to false.
pub fn not_operator(frame: &mut CallFrame, a: usize, b: usize) -> (r: Result<(), InterpreterError>)
    requires
        old(frame).wf(),
    ensures
        final(frame).wf(),
        final(frame)@.len() == old(frame)@.len(),
        match r {
            Ok(_) => {
                &&& a < old(frame)@.len()
                &&& b < old(frame)@.len()
                &&& final(frame)@ == old(frame)@.update(
                    a as int,
                    ValueModel::Boolean(!model_truthy(old(frame)@[b as int])),
                )
                &&& final(frame).spec_top() == top_after(old(frame).spec_top(), a)
            },
            Err(e) => {
                &&& e is OutOfRangeError
                &&& final(frame)@ == old(frame)@
                &&& (a >= old(frame)@.len() || b >= old(frame)@.len())
            },
        },
{
    if b >= frame.capacity() || a >= frame.capacity() {
        return Err(InterpreterError::OutOfRangeError);
    }
    let truthy = frame.load(b).to_boolean();
    frame.store(a, Value::Boolean(!truthy));
    Ok(())
}

/// Stores in register `a` the length of the string in register `b`, as a
/// number.
pub fn len_operator(frame: &mut CallFrame, a: usize, b: usize) -> (r: Result<(), InterpreterError>)
    requires
        old(frame).wf(),
    ensures
        final(frame).wf(),
        final(frame)@.len() == old(frame)@.len(),
        match r {
            Ok(_) => {
                &&& a < old(frame)@.len()
                &&& b < old(frame)@.len()
                &&& old(frame)@[b as int] matches ValueModel::String(s) && final(frame)@ == old(frame)@.update(
                    a as int,
                    ValueModel::Number(crate::numeric::number_of_len(s.len() as usize)),
                )
                &&& final(frame).spec_top() == top_after(old(frame).spec_top(), a)
            },
            Err(_) => {
                &&& final(frame)@ == old(frame)@
                &&& (a >= old(frame)@.len() || b >= old(frame)@.len() || !(old(frame)@[b as int] is String))
            },
        },
{
    if b >= frame.capacity() || a >= frame.capacity() {
        return Err(InterpreterError::OutOfRangeError);
    }
    let loaded = frame.load(b);
    let lua_string = match loaded.get_string() {
        Some(s) => s,
        None => {
            return Err(InterpreterError::TypeMismatchError);
        },
    };
    let n = number_of_length(lua_string.len());
    frame.store(a, Value::Number(n));
    Ok(())
}

/// Skips the next instruction when the truthiness of register `a`
/// disagrees with `c`.
pub fn test_operator(frame: &CallFrame, pc: &mut usize, a: usize, c: usize) -> (r: Result<
    (),
    InterpreterError,
>)
    requires
        frame.wf(),
    ensures
        match r {
            Ok(_) => {
                &&& a < frame@.len()
                &&& *final(pc) == if (c > 0) != model_truthy(frame@[a as int]) {
                    *old(pc) + 1
                } else {
                    *old(pc) as int
                }
            },
            Err(e) => {
                &&& *final(pc) == *old(pc)
                &&& (a >= frame@.len() || ((c > 0) != model_truthy(frame@[a as int]) && *old(pc)
                    == usize::MAX))
            },
        },
{
    if a >= frame.capacity() {
        return Err(InterpreterError::OutOfRangeError);
    }
    let register_a = frame.load(a);
    if (c > 0) != register_a.to_boolean() {
        if *pc == usize::MAX {
            return Err(InterpreterError::OutOfRangeError);
        }
        *pc = *pc + 1;
    }
    Ok(())
}

/// Copies register `b` into register `a` when its truthiness agrees with
/// `c`; otherwise skips the next instruction.
pub fn testset_operator(frame: &mut CallFrame, pc: &mut usize, a: usize, b: usize, c: usize) -> (r:
    Result<(), InterpreterError>)
    requires
        old(frame).wf(),
    ensures
        final(frame).wf(),
        final(frame)@.len() == old(frame)@.len(),
        match r {
            Ok(_) => {
                &&& a < old(frame)@.len()
                &&& b < old(frame)@.len()
                &&& if (c != 0) == model_truthy(old(frame)@[b as int]) {
                    final(frame)@ == old(frame)@.update(a as int, old(frame)@[b as int])
                        && *final(pc) == *old(pc) && final(frame).spec_top() == top_after(
                        old(frame).spec_top(),
                        a,
                    )
                } else {
                    final(frame)@ == old(frame)@ && *final(pc) == *old(pc) + 1 && final(frame).spec_top() == old(frame).spec_top()
                }
            },
            Err(e) => {
                &&& final(frame)@ == old(frame)@
                &&& *final(pc) == *old(pc)
                &&& (a >= old(frame)@.len() || b >= old(frame)@.len() || ((c != 0)
                    != model_truthy(old(frame)@[b as int]) && *old(pc) == usize::MAX))
            },
        },
{
    if a >= frame.capacity() || b >= frame.capacity() {
        return Err(InterpreterError::OutOfRangeError);
    }
    let register_b = frame.load(b);
    if (c != 0) == register_b.to_boolean() {
        frame.store(a, register_b);
    } else {
        if *pc == usize::MAX {
            return Err(InterpreterError::OutOfRangeError);
        }
        *pc = *pc + 1;
    }
    Ok(())
}

/// Stores the `b`th captured upvalue of the running closure in register
/// `a`.
pub fn get_upvalue(frame: &mut CallFrame, upvalues: &Vec<Value>, a: usize, b: usize) -> (r: Result<
    (),
    InterpreterError,
>)
    requires
        old(frame).wf(),
    ensures
        final(frame).wf(),
        final(frame)@.len() == old(frame)@.len(),
        match r {
            Ok(_) => {
                &&& a < old(frame)@.len()
                &&& b < upvalues@.len()
                &&& final(frame)@ == old(frame)@.update(a as int, upvalues.deep_view()[b as int])
                &&& final(frame).spec_top() == top_after(old(frame).spec_top(), a)
            },
            Err(e) => {
                &&& e is OutOfRangeError
                &&& (a >= old(frame)@.len() || b >= upvalues@.len())
                &&& final(frame)@ == old(frame)@
            },
        },
{
    if b >= upvalues.len() || a >= frame.capacity() {
        return Err(InterpreterError::OutOfRangeError);
    }
    let upval = upvalues[b].clone();
    frame.store(a, upval);
    Ok(())
}

/// Replaces the `b`th captured upvalue of the running closure with
/// register `a`.
pub fn set_upvalue(frame: &CallFrame, upvalues: &mut Vec<Value>, a: usize, b: usize) -> (r: Result<
    (),
    InterpreterError,
>)
    requires
        frame.wf(),
    ensures
        final(upvalues)@.len() == old(upvalues)@.len(),
        match r {
            Ok(_) => {
                &&& a < frame@.len()
                &&& b < old(upvalues)@.len()
                &&& final(upvalues).deep_view() == old(upvalues).deep_view().update(
                    b as int,
                    frame@[a as int],
                )
            },
            Err(e) => {
                &&& e is OutOfRangeError
                &&& (a >= frame@.len() || b >= old(upvalues)@.len())
                &&& final(upvalues)@ == old(upvalues)@
            },
        },
{
    if b >= upvalues.len() || a >= frame.capacity() {
        return Err(InterpreterError::OutOfRangeError);
    }
    let v = frame.load(a);
    upvalues.set(b, v);
    proof {
        assert(upvalues.deep_view() =~= old(upvalues).deep_view().update(
            b as int,
            frame@[a as int],
        ));
    }
    Ok(())
}

/// Skips the next instruction when the total-order comparison of the two
/// number operands disagrees with `a`.
pub fn comparison_operator(
    func: &Function,
    instr: &Instruction,
    frame: &mut CallFrame,
    a: usize,
    b: usize,
    c: usize,
    pc: &mut usize,
) -> (r: Result<(), InterpreterError>)
    requires
        old(frame).wf(),
        instr is Le || instr is Lt,
    ensures
        final(frame)@ == old(frame)@,
        final(frame).wf(),
        final(frame).spec_top() == old(frame).spec_top(),
        match r {
            Ok(_) => {
                &&& rk_spec(*func, old(frame)@, b) matches Some(ValueModel::Number(nb))
                &&& rk_spec(*func, old(frame)@, c) matches Some(ValueModel::Number(nc))
                    && *final(pc) == (if (match *instr {
                    Instruction::Le(_, _, _) => total_key(
                        rk_spec(*func, old(frame)@, b)->Some_0->Number_0,
                    ) <= total_key(nc),
                    _ => total_key(rk_spec(*func, old(frame)@, b)->Some_0->Number_0)
                        < total_key(nc),
                }) != (a > 0) {
                    *old(pc) + 1
                } else {
                    *old(pc) as int
                })
            },
            Err(e) => {
                &&& *final(pc) == *old(pc)
                &&& (match (rk_spec(*func, old(frame)@, b), rk_spec(*func, old(frame)@, c)) {
                    (Some(ValueModel::Number(nb)), Some(ValueModel::Number(nc))) => ((match *instr {
                        Instruction::Le(_, _, _) => total_key(nb) <= total_key(nc),
                        _ => total_key(nb) < total_key(nc),
                    }) != (a > 0)) && *old(pc) == usize::MAX,
                    _ => true,
                })
            },
        },
{
    let rk_b = get_rk(func, frame, b)?;
    let rk_c = get_rk(func, frame, c)?;
    let boolean_a = a > 0;
    let number_b = match rk_b.get_number() {
        Some(n) => n,
        None => {
            return Err(InterpreterError::TypeMismatchError);
        },
    };
    let number_c = match rk_c.get_number() {
        Some(n) => n,
        None => {
            return Err(InterpreterError::TypeMismatchError);
        },
    };
    let outcome = match instr {
        Instruction::Le(_, _, _) => numbers_total_le(number_b, number_c),
        _ => numbers_total_lt(number_b, number_c),
    };
    if outcome != boolean_a {
        if *pc == usize::MAX {
            return Err(InterpreterError::OutOfRangeError);
        }
        *pc = *pc + 1;
    }
    Ok(())
}

/// Skips the next instruction when the equality of the two operands
/// disagrees with `a`.
pub fn equality(
    func: &Function,
    frame: &mut CallFrame,
    pc: &mut usize,
    a: usize,
    b: usize,
    c: usize,
) -> (r: Result<(), InterpreterError>)
    requires
        old(frame).wf(),
    ensures
        final(frame)@ == old(frame)@,
        final(frame).wf(),
        final(frame).spec_top() == old(frame).spec_top(),
        match r {
            Ok(_) => {
                &&& rk_spec(*func, old(frame)@, b) matches Some(vb)
                &&& rk_spec(*func, old(frame)@, c) matches Some(vc) && *final(pc) == (if (
                crate::object::model_eq(rk_spec(*func, old(frame)@, b)->Some_0, vc) != (a > 0)) {
                    *old(pc) + 1
                } else {
                    *old(pc) as int
                })
            },
            Err(e) => {
                &&& *final(pc) == *old(pc)
                &&& (match (rk_spec(*func, old(frame)@, b), rk_spec(*func, old(frame)@, c)) {
                    (Some(vb), Some(vc)) => (crate::object::model_eq(vb, vc) != (a > 0)) && *old(pc) == usize::MAX,
                    _ => true,
                })
            },
        },
{
    let rk_b = get_rk(func, frame, b)?;
    let rk_c = get_rk(func, frame, c)?;
    let boolean_a = a > 0;
    if (rk_b == rk_c) != boolean_a {
        if *pc == usize::MAX {
            return Err(InterpreterError::OutOfRangeError);
        }
        *pc = *pc + 1;
    }
    Ok(())
}

/// Moves the program counter by a signed offset.
pub fn jmp_instruction(pc: &mut usize, increment: isize) -> (r: Result<(), InterpreterError>)
    ensures
        match r {
            Ok(_) => *final(pc) == *old(pc) + increment,
            Err(e) => {
                &&& e is OutOfRangeError
                &&& *final(pc) == *old(pc)
                &&& (*old(pc) + increment < 0 || *old(pc) + increment > usize::MAX)
            },
        },
{
    if increment < 0 {
        let big: i128 = -(increment as i128);
        if big > *pc as i128 {
            return Err(InterpreterError::OutOfRangeError);
        }
        *pc = *pc - (big as usize);
    } else {
        let fwd = increment as usize;
        if fwd > usize::MAX - *pc {
            return Err(InterpreterError::OutOfRangeError);
        }
        *pc = *pc + fwd;
    }
    Ok(())
}

/// Looks the constant-named global up and stores its value in register
/// `a`; a missing global is fatal.
pub fn get_global(
    func: &Function,
    frame: &mut CallFrame,
    env: &GlobalEnvironment,
    a: usize,
    b: usize,
) -> (r: Result<(), InterpreterError>)
    requires
        old(frame).wf(),
        env.wf(),
    ensures
        final(frame).wf(),
        final(frame)@.len() == old(frame)@.len(),
        match r {
            Ok(_) => {
                &&& a < old(frame)@.len()
                &&& b < func.const_list@.len()
                &&& func.const_list.deep_view()[b as int] matches ConstantModel::String(key)
                    && env@.contains_key(key) && final(frame)@ == old(frame)@.update(
                    a as int,
                    env@[key],
                ) && final(frame).spec_top() == top_after(old(frame).spec_top(), a)
            },
            Err(e) => {
                &&& final(frame)@ == old(frame)@
                &&& e matches InterpreterError::GlobalError { heap_error } ==> ((b
                    < func.const_list@.len()) && (func.const_list.deep_view()[b as int] matches
                ConstantModel::String(key) && !env@.contains_key(key) && env_err_key(&heap_error)
                    == key))
                &&& (b >= func.const_list@.len() || a >= old(frame)@.len() || !(
                func.const_list.deep_view()[b as int] is String) || (
                func.const_list.deep_view()[b as int] matches ConstantModel::String(key)
                    && !env@.contains_key(key)))
            },
        },
{
    if b >= func.const_list.len() || a >= frame.capacity() {
        return Err(InterpreterError::OutOfRangeError);
    }
    let rk_b = func.const_list[b].as_value();
    let key = match rk_b.get_string() {
        Some(s) => s,
        None => {
            return Err(InterpreterError::TypeMismatchError);
        },
    };
    let val = match env.get_global(key) {
        Ok(v) => v,
        Err(err) => {
            return Err(InterpreterError::GlobalError { heap_error: err });
        },
    };
    frame.store(a, val);
    Ok(())
}

/// Binds the constant-named global to the value of register `a`.
pub fn set_global(
    func: &Function,
    frame: &CallFrame,
    env: &mut GlobalEnvironment,
    a: usize,
    b: usize,
) -> (r: Result<(), InterpreterError>)
    requires
        frame.wf(),
        old(env).wf(),
    ensures
        final(env).wf(),
        match r {
            Ok(_) => {
                &&& a < frame@.len()
                &&& b < func.const_list@.len()
                &&& func.const_list.deep_view()[b as int] matches ConstantModel::String(key)
                    && final(env)@ == old(env)@.insert(key, frame@[a as int])
            },
            Err(e) => {
                &&& final(env)@ == old(env)@
                &&& (b >= func.const_list@.len() || a >= frame@.len() || !(
                func.const_list.deep_view()[b as int] is String))
            },
        },
{
    if b >= func.const_list.len() || a >= frame.capacity() {
        return Err(InterpreterError::OutOfRangeError);
    }
    let register_a = frame.load(a);
    let rk_b = func.const_list[b].as_value();
    let key = match rk_b.get_string() {
        Some(s) => s,
        None => {
            return Err(InterpreterError::TypeMismatchError);
        },
    };
    env.insert_global(key, register_a);
    Ok(())
}

/// Prepares a numeric for loop: the control register is lowered by the
/// step, and the counter jumps to the loop instruction.
pub fn for_prep(frame: &mut CallFrame, pc: &mut usize, a: usize, b: isize) -> (r: Result<
    (),
    InterpreterError,
>)
    requires
        old(frame).wf(),
    ensures
        final(frame).wf(),
        final(frame)@.len() == old(frame)@.len(),
        match r {
            Ok(_) => {
                &&& a + 2 < old(frame)@.len()
                &&& old(frame)@[a as int] matches ValueModel::Number(init)
                &&& old(frame)@[a + 2] matches ValueModel::Number(step) && final(frame)@ == old(frame)@.update(
                    a as int,
                    ValueModel::Number(sub_of(old(frame)@[a as int]->Number_0, step)),
                ) && *final(pc) == *old(pc) + b
            },
            Err(e) => (a + 2 >= old(frame)@.len() || !(old(frame)@[a as int] is Number) || !(old(frame)@[a + 2] is Number) || *old(pc) + b < 0 || *old(pc) + b > usize::MAX),
        },
{
    if a >= frame.capacity() || frame.capacity() - a <= 2 {
        return Err(InterpreterError::OutOfRangeError);
    }
    let register_a = match frame.load(a).get_number() {
        Some(n) => n,
        None => {
            return Err(InterpreterError::TypeMismatchError);
        },
    };
    let stepping_value = match frame.load(a + 2).get_number() {
        Some(n) => n,
        None => {
            return Err(InterpreterError::TypeMismatchError);
        },
    };
    frame.store(a, Value::Number(number_sub(register_a, stepping_value)));
    jmp_instruction(pc, b)?;
    Ok(())
}

/// Advances a numeric for loop: the control register is raised by the
/// step; while the old control value still lies before the limit, the
/// counter jumps back and the loop variable receives the new control
/// value.
pub fn for_loop(frame: &mut CallFrame, pc: &mut usize, a: usize, b: isize) -> (r: Result<
    (),
    InterpreterError,
>)
    requires
        old(frame).wf(),
    ensures
        final(frame).wf(),
        final(frame)@.len() == old(frame)@.len(),
        match r {
            Ok(_) => {
                &&& a + 3 < old(frame)@.len()
                &&& old(frame)@[a as int] matches ValueModel::Number(na)
                &&& old(frame)@[a + 1] matches ValueModel::Number(limit)
                &&& old(frame)@[a + 2] matches ValueModel::Number(step) && {
                    let na = old(frame)@[a as int]->Number_0;
                    let limit = old(frame)@[a + 1]->Number_0;
                    let next = add_of(na, step);
                    let continuing = if flt_lt_bits(step, 0) {
                        flt_lt_bits(limit, na)
                    } else {
                        flt_lt_bits(na, limit)
                    };
                    if continuing {
                        final(frame)@ == old(frame)@.update(
                            a as int,
                            ValueModel::Number(next),
                        ).update(a + 3, ValueModel::Number(next)) && *final(pc) == *old(pc) + b
                    } else {
                        final(frame)@ == old(frame)@.update(a as int, ValueModel::Number(next))
                            && *final(pc) == *old(pc)
                    }
                }
            },
            Err(e) => (a + 3 >= old(frame)@.len() || !(old(frame)@[a as int] is Number) || !(old(frame)@[a + 1] is Number) || !(old(frame)@[a + 2] is Number) || ({
                let na = old(frame)@[a as int]->Number_0;
                let limit = old(frame)@[a + 1]->Number_0;
                let step = old(frame)@[a + 2]->Number_0;
                (if flt_lt_bits(step, 0) {
                    flt_lt_bits(limit, na)
                } else {
                    flt_lt_bits(na, limit)
                }) && (*old(pc) + b < 0 || *old(pc) + b > usize::MAX)
            })),
        },
{
    if a >= frame.capacity() || frame.capacity() - a <= 3 {
        return Err(InterpreterError::OutOfRangeError);
    }
    let number_a = match frame.load(a).get_number() {
        Some(n) => n,
        None => {
            return Err(InterpreterError::TypeMismatchError);
        },
    };
    let limit = match frame.load(a + 1).get_number() {
        Some(n) => n,
        None => {
            return Err(InterpreterError::TypeMismatchError);
        },
    };
    let stepping_value = match frame.load(a + 2).get_number() {
        Some(n) => n,
        None => {
            return Err(InterpreterError::TypeMismatchError);
        },
    };
    frame.store(a, Value::Number(number_add(number_a, stepping_value)));
    let continuing = if numbers_lt(stepping_value, 0) {
        numbers_lt(limit, number_a)
    } else {
        numbers_lt(number_a, limit)
    };
    if continuing {
        jmp_instruction(pc, b)?;
        let new_value = frame.load(a);
        frame.store(a + 3, new_value);
    }
    Ok(())
}

/// What the binding list after a closure instruction captures: register
/// values for moves, the running closure's own upvalues for forwards;
/// any other instruction there is malformed.
pub open spec fn capture_list(
    code: Seq<Instruction>,
    frame: Seq<ValueModel>,
    myups: Seq<ValueModel>,
    pc: int,
    n: nat,
) -> Option<Seq<ValueModel>>
    decreases n,
{
    if n == 0 {
        Some(Seq::empty())
    } else if pc < 0 || pc >= code.len() {
        None
    } else {
        let first = match code[pc] {
            Instruction::Move(_, rb, _) => if rb < frame.len() {
                Some(frame[rb as int])
            } else {
                None
            },
            Instruction::GetUpVal(_, rb, _) => if rb < myups.len() {
                Some(myups[rb as int])
            } else {
                None
            },
            _ => None,
        };
        match (first, capture_list(code, frame, myups, pc + 1, (n - 1) as nat)) {
            (Some(v), Some(rest)) => Some(seq![v] + rest),
            _ => None,
        }
    }
}

/// Instantiates a closure: stores a reference to the `b`th nested
/// prototype in register `a`, then consumes one binding pseudo-
/// instruction per upvalue of that prototype, capturing the values they
/// name now.
pub fn closure_instruction(
    func: &Function,
    frame: &mut CallFrame,
    upvalues: &mut Vec<Vec<Value>>,
    pc: &mut usize,
    a: usize,
    b: usize,
) -> (r: Result<(), InterpreterError>)
    requires
        old(frame).wf(),
    ensures
        final(frame).wf(),
        final(frame)@.len() == old(frame)@.len(),
        final(upvalues)@.len() == old(upvalues)@.len(),
        match r {
            Ok(_) => {
                &&& a < old(frame)@.len()
                &&& b < func.func_list@.len()
                &&& func.identifier < old(upvalues)@.len()
                &&& func.func_list@[b as int].identifier < old(upvalues)@.len()
                &&& final(frame)@ == old(frame)@.update(
                    a as int,
                    ValueModel::LuaFunction(func.func_list@[b as int].identifier as int),
                )
                &&& final(frame).spec_top() == top_after(old(frame).spec_top(), a)
                &&& capture_list(
                    func.instr_list@,
                    final(frame)@,
                    old(upvalues).deep_view()[func.identifier as int],
                    *old(pc) as int,
                    func.func_list@[b as int].up_values as nat,
                ) matches Some(caps) && final(upvalues).deep_view() == old(upvalues).deep_view().update(func.func_list@[b as int].identifier as int, caps) && *final(pc) == *old(pc) + func.func_list@[b as int].up_values
            },
            Err(e) => {
                &&& (b >= func.func_list@.len() || a >= old(frame)@.len() || func.identifier
                    >= old(upvalues)@.len() || func.func_list@[b as int].identifier >= old(
                    upvalues,
                )@.len() || capture_list(
                    func.instr_list@,
                    old(frame)@.update(
                        a as int,
                        ValueModel::LuaFunction(func.func_list@[b as int].identifier as int),
                    ),
                    old(upvalues).deep_view()[func.identifier as int],
                    *old(pc) as int,
                    func.func_list@[b as int].up_values as nat,
                ) is None)
                &&& (e is ClosureError ==> b < func.func_list@.len() && (exists|k: int|
                    0 <= k < func.func_list@[b as int].up_values && *old(pc) + k
                        < func.instr_list@.len() && !((#[trigger] func.instr_list@[*old(pc)
                        + k]) is Move) && !(func.instr_list@[*old(pc) + k] is GetUpVal)))
            },
        },
{
    if b >= func.func_list.len() || a >= frame.capacity() {
        return Err(InterpreterError::OutOfRangeError);
    }
    let next_id = func.func_list[b].identifier;
    let n_up = func.func_list[b].up_values;
    if func.identifier >= upvalues.len() || next_id >= upvalues.len() {
        return Err(InterpreterError::OutOfRangeError);
    }
    frame.store(a, Value::LuaFunction(next_id));
    let ghost code = func.instr_list@;
    let ghost frame_now = frame@;
    let ghost mine_now = upvalues.deep_view()[func.identifier as int];
    let mut captured: Vec<Value> = Vec::new();
    let mut k: u8 = 0;
    while k < n_up
        invariant
            frame.wf(),
            frame@ == frame_now,
            frame@.len() == old(frame)@.len(),
            a < old(frame)@.len(),
            b < func.func_list@.len(),
            func.identifier < upvalues@.len(),
            upvalues@ == old(upvalues)@,
            code == func.instr_list@,
            frame_now == old(frame)@.update(
                a as int,
                ValueModel::LuaFunction(func.func_list@[b as int].identifier as int),
            ),
            mine_now == old(upvalues).deep_view()[func.identifier as int],
            mine_now == upvalues.deep_view()[func.identifier as int],
            n_up == func.func_list@[b as int].up_values,
            func.func_list@[b as int].identifier < old(upvalues)@.len(),
            k <= n_up,
            *pc == *old(pc) + k,

            captured.deep_view().len() == k as int,
            capture_list(code, frame_now, mine_now, *old(pc) as int, n_up as nat) == (
            match capture_list(code, frame_now, mine_now, *pc as int, (n_up - k) as nat) {
                Some(rest) => Some(captured.deep_view() + rest),
                None => None,
            }),
        decreases n_up - k,
    {
        if *pc >= func.instr_list.len() {
            proof {
                assert(capture_list(code, frame_now, mine_now, *pc as int, (n_up - k) as nat)
                    is None);
            }
            return Err(InterpreterError::OutOfRangeError);
        }
        let ghost pc0 = *pc as int;
        let ghost rem = (n_up - k) as nat;
        let binder = func.instr_list[*pc];
        *pc = *pc + 1;
        let ghost before = captured.deep_view();
        match binder {
            Instruction::Move(_, reg_b, _) => {
                if reg_b >= frame.capacity() {
                    proof {
                        assert(capture_list(code, frame_now, mine_now, pc0, rem) is None);
                    }
                    return Err(InterpreterError::OutOfRangeError);
                }
                captured.push(frame.load(reg_b));
            },
            Instruction::GetUpVal(_, reg_b, _) => {
                let mine = &upvalues[func.identifier];
                if reg_b >= mine.len() {
                    proof {
                        assert(mine_now.len() == mine@.len());
                        assert(capture_list(code, frame_now, mine_now, pc0, rem) is None);
                    }
                    return Err(InterpreterError::OutOfRangeError);
                }
                captured.push(mine[reg_b].clone());
                proof {
                    assert(captured.deep_view().last() == mine_now[reg_b as int]);
                }
            },
            _ => {
                proof {
                    assert(capture_list(code, frame_now, mine_now, pc0, rem) is None);
                }
                return Err(InterpreterError::ClosureError);
            },
        }
        proof {
            let v = captured.deep_view().last();
            assert(captured.deep_view() =~= before.push(v));
            match capture_list(code, frame_now, mine_now, pc0 + 1, (rem - 1) as nat) {
                Some(rest2) => {
                    assert(capture_list(code, frame_now, mine_now, pc0, rem) == Some(
                        seq![v] + rest2,
                    ));
                    assert(before + (seq![v] + rest2) =~= before.push(v) + rest2);
                },
                None => {
                    assert(capture_list(code, frame_now, mine_now, pc0, rem) is None);
                },
            }
        }
        k = k + 1;
    }
    let ghost capsv = captured.deep_view();
    proof {
        assert(capture_list(code, frame_now, mine_now, *pc as int, 0) == Some(
            Seq::<ValueModel>::empty(),
        ));
        assert(capsv + Seq::<ValueModel>::empty() =~= capsv);
    }
    upvalues.set(next_id, captured);
    proof {
        assert(upvalues.deep_view() =~= old(upvalues).deep_view().update(
            next_id as int,
            capsv,
        ));
    }
    Ok(())
}

/// The display form of a value: its decimal rendering for a number, its
/// bytes for a string, a fixed word for nil and the booleans, and a
/// prototype reference for a function.
pub open spec fn display_value(v: ValueModel) -> Seq<u8> {
    match v {
        ValueModel::Boolean(bv) => if bv {
            seq![116u8, 114u8, 117u8, 101u8]
        } else {
            seq![102u8, 97u8, 108u8, 115u8, 101u8]
        },
        ValueModel::Number(n) => crate::numeric::number_text(n),
        ValueModel::Nil => seq![110u8, 105u8, 108u8],
        ValueModel::String(s) => s,
        ValueModel::LuaFunction(id) => seq![
            102u8,
            117u8,
            110u8,
            99u8,
            116u8,
            105u8,
            111u8,
            110u8,
            58u8,
            32u8,
        ] + crate::text::dec_spec(id as nat),
        ValueModel::RuntimeFunction(_) => seq![
            102u8,
            117u8,
            110u8,
            99u8,
            116u8,
            105u8,
            111u8,
            110u8,
            58u8,
            32u8,
            98u8,
            117u8,
            105u8,
            108u8,
            116u8,
            105u8,
            110u8,
        ],
    }
}

/// The display forms of the values, each followed by a tab.
pub open spec fn items_of(vals: Seq<ValueModel>) -> Seq<u8>
    decreases vals.len(),
{
    if vals.len() == 0 {
        Seq::empty()
    } else {
        display_value(vals.first()) + seq![9u8] + items_of(vals.drop_first())
    }
}

/// One output line of the runtime library's print: the live values, tab
/// separated, then a newline.
pub open spec fn print_line_of(vals: Seq<ValueModel>) -> Seq<u8> {
    items_of(vals) + seq![10u8]
}

proof fn lemma_items_snoc(s: Seq<ValueModel>, v: ValueModel)
    ensures
        items_of(s.push(v)) == items_of(s) + display_value(v) + seq![9u8],
    decreases s.len(),
{
    if s.len() == 0 {
        assert(s.push(v).first() == v);
        assert(s.push(v).drop_first() =~= Seq::<ValueModel>::empty());
        assert(items_of(Seq::<ValueModel>::empty()) == Seq::<u8>::empty());
        assert(items_of(s.push(v)) =~= items_of(s) + display_value(v) + seq![9u8]);
    } else {
        assert(s.push(v).first() == s.first());
        assert(s.push(v).drop_first() =~= s.drop_first().push(v));
        lemma_items_snoc(s.drop_first(), v);
        assert(items_of(s.push(v)) =~= items_of(s) + display_value(v) + seq![9u8]);
    }
}

/// Appends the display form of one value.
fn push_value_text(out: &mut Vec<u8>, val: &Value)
    ensures
        final(out)@ == old(out)@ + display_value(val@),
{
    match val {
        Value::Boolean(bv) => {
            if *bv {
                let word: Vec<u8> = vec![116u8, 114u8, 117u8, 101u8];
                crate::text::push_bytes(out, &word);
            } else {
                let word: Vec<u8> = vec![102u8, 97u8, 108u8, 115u8, 101u8];
                crate::text::push_bytes(out, &word);
            }
        },
        Value::Number(n) => {
            crate::numeric::push_number_text(out, *n);
        },
        Value::Nil => {
            let word: Vec<u8> = vec![110u8, 105u8, 108u8];
            crate::text::push_bytes(out, &word);
        },
        Value::LuaString(s) => {
            crate::text::push_bytes(out, s);
        },
        Value::LuaFunction(id) => {
            let word: Vec<u8> = vec![
                102u8,
                117u8,
                110u8,
                99u8,
                116u8,
                105u8,
                111u8,
                110u8,
                58u8,
                32u8,
            ];
            crate::text::push_bytes(out, &word);
            crate::text::push_dec(out, *id as u64);
        },
        Value::RuntimeFunction(_) => {
            let word: Vec<u8> = vec![
                102u8,
                117u8,
                110u8,
                99u8,
                116u8,
                105u8,
                111u8,
                110u8,
                58u8,
                32u8,
                98u8,
                117u8,
                105u8,
                108u8,
                116u8,
                105u8,
                110u8,
            ];
            crate::text::push_bytes(out, &word);
        },
    }
}

/// The runtime library's output function: writes the live registers of
/// its argument frame, tab separated, then a newline.
pub fn print_lua(frame: CallFrame, output: &mut Vec<u8>)
    requires
        frame.wf(),
    ensures
        final(output)@ == old(output)@ + print_line_of(frame@.take(frame.spec_top() as int)),
{
    let top = frame.len();
    let mut i: usize = 0;
    while i < top
        invariant
            frame.wf(),
            top == frame.spec_top(),
            i <= top,
            output@ == old(output)@ + items_of(frame@.take(i as int)),
        decreases top - i,
    {
        let val = frame.load(i);
        push_value_text(output, &val);
        output.push(9u8);
        proof {
            assert(frame@.take(i + 1).drop_last() =~= frame@.take(i as int));
            assert(frame@.take(i + 1) =~= frame@.take(i as int).push(frame@[i as int]));
            lemma_items_snoc(frame@.take(i as int), frame@[i as int]);
            assert(output@ =~= old(output)@ + items_of(frame@.take(i + 1)));
        }
        i = i + 1;
    }
    output.push(10u8);
    proof {
        assert(output@ =~= old(output)@ + print_line_of(frame@.take(frame.spec_top() as int)));
    }
}

/// Replaces the `b`th upvalue of prototype `fid` with register `a`.
pub fn set_upvalue_at(
    upvalues: &mut Vec<Vec<Value>>,
    fid: usize,
    frame: &CallFrame,
    a: usize,
    b: usize,
) -> (r: Result<(), InterpreterError>)
    requires
        frame.wf(),
    ensures
        final(upvalues)@.len() == old(upvalues)@.len(),
        r matches Ok(_) ==> fid < old(upvalues)@.len() && a < frame@.len() && b < old(upvalues).deep_view()[fid as int].len() && final(upvalues).deep_view() == old(upvalues).deep_view().update(
            fid as int,
            old(upvalues).deep_view()[fid as int].update(b as int, frame@[a as int]),
        ),
        r matches Err(e) ==> (fid >= old(upvalues)@.len() || a >= frame@.len() || b >= old(upvalues).deep_view()[fid as int].len()),
{
    if fid >= upvalues.len() {
        return Err(InterpreterError::OutOfRangeError);
    }
    let mut inner = upvalues.remove(fid);
    let res = set_upvalue(frame, &mut inner, a, b);
    upvalues.insert(fid, inner);
    proof {
        assert(upvalues@ =~= old(upvalues)@.remove(fid as int).insert(fid as int, upvalues@[fid as int]));
        if res is Ok {
            assert(upvalues.deep_view() =~= old(upvalues).deep_view().update(
                fid as int,
                old(upvalues).deep_view()[fid as int].update(b as int, frame@[a as int]),
            ));
        }
    }
    res
}

/// The whole behavior of an arithmetic instruction, over the frame before
/// and after: the exact stored result on success, and the exact conditions
/// under which each error may occur.
pub open spec fn arithmetic_outcome(
    func: Function,
    pre: CallFrame,
    post: CallFrame,
    instr: Instruction,
    a: usize,
    b: usize,
    c: usize,
    r: Result<(), InterpreterError>,
) -> bool {
    match r {
        Ok(_) => {
            &&& a < pre@.len()
            &&& rk_spec(func, pre@, b) matches Some(ValueModel::Number(nb))
            &&& rk_spec(func, pre@, c) matches Some(ValueModel::Number(nc)) && ((instr is Div
                || instr is Mod) ==> !is_zero_bits(nc)) && (instr is Pow
                ==> crate::numeric::pow_supported(nc)) && post@ == pre@.update(
                a as int,
                ValueModel::Number(
                    arith_result(instr, rk_spec(func, pre@, b)->Some_0->Number_0, nc),
                ),
            ) && post.spec_top() == top_after(pre.spec_top(), a)
        },
        Err(e) => {
            &&& post@ == pre@
            &&& e is ZeroDivisionError ==> (instr is Div || instr is Mod) && (rk_spec(
                func,
                pre@,
                c,
            ) matches Some(ValueModel::Number(nc)) && is_zero_bits(nc))
            &&& (match (rk_spec(func, pre@, b), rk_spec(func, pre@, c)) {
                (Some(ValueModel::Number(nb)), Some(ValueModel::Number(nc))) => (a >= pre@.len()
                    || ((instr is Div || instr is Mod) && is_zero_bits(nc)
                    && e is ZeroDivisionError) || (instr is Pow && !crate::numeric::pow_supported(
                    nc,
                ) && e is TypeMismatchError)),
                _ => true,
            })
        },
    }
}

/// The whole behavior of one non-frame instruction, per opcode: the
/// exact transition on success and the exact conditions under which each
/// error may occur, over the frame, environment, upvalue table and
/// counter before and after.
pub open spec fn instruction_outcome(
    func: Function,
    instr: Instruction,
    pre_frame: CallFrame,
    post_frame: CallFrame,
    pre_env: Map<Seq<u8>, ValueModel>,
    post_env: Map<Seq<u8>, ValueModel>,
    pre_ups: Seq<Seq<ValueModel>>,
    post_ups: Seq<Seq<ValueModel>>,
    pre_pc: usize,
    post_pc: usize,
    r: Result<(), InterpreterError>,
) -> bool {
    match instr {
            Instruction::Move(a, b, _) => {
                &&& post_env == pre_env
                &&& post_ups == pre_ups
                &&& post_pc == pre_pc
                &&& match r {
                    Ok(_) => a < pre_frame@.len() && b < pre_frame@.len() && post_frame@
                        == pre_frame@.update(a as int, pre_frame@[b as int]) && post_frame.spec_top() == pre_frame.spec_top(),
                    Err(e) => (a >= pre_frame@.len() || b >= pre_frame@.len()) && post_frame@
                        == pre_frame@,
                }
            },
            Instruction::LoadK(a, b) => {
                &&& post_env == pre_env
                &&& post_ups == pre_ups
                &&& post_pc == pre_pc
                &&& match r {
                    Ok(_) => a < pre_frame@.len() && b < func.const_list@.len() && post_frame@
                        == pre_frame@.update(
                        a as int,
                        constant_value(func.const_list.deep_view()[b as int]),
                    ) && post_frame.spec_top() == top_after(pre_frame.spec_top(), a),
                    Err(e) => (a >= pre_frame@.len() || b >= func.const_list@.len()) && post_frame@ == pre_frame@,
                }
            },
            Instruction::LoadBool(a, b, c) => {
                &&& post_env == pre_env
                &&& post_ups == pre_ups
                &&& match r {
                    Ok(_) => a < pre_frame@.len() && post_frame@ == pre_frame@.update(
                        a as int,
                        ValueModel::Boolean(b > 0),
                    ) && post_frame.spec_top() == top_after(pre_frame.spec_top(), a) && post_pc == if c > 0 {
                        pre_pc + 1
                    } else {
                        pre_pc as int
                    },
                    Err(e) => (a >= pre_frame@.len() || (c > 0 && pre_pc == usize::MAX))
                        && post_frame@ == pre_frame@ && post_pc == pre_pc,
                }
            },
            Instruction::LoadNil(a, b, _) => {
                &&& post_env == pre_env
                &&& post_ups == pre_ups
                &&& post_pc == pre_pc
                &&& match r {
                    Ok(_) => if a > b {
                        post_frame@ == pre_frame@ && post_frame.spec_top() == pre_frame.spec_top()
                    } else {
                        b < pre_frame@.len() && (forall|j: int|
                            0 <= j < pre_frame@.len() ==> post_frame@[j] == (if a <= j <= b {
                                ValueModel::Nil
                            } else {
                                pre_frame@[j]
                            })) && post_frame.spec_top() == top_after(pre_frame.spec_top(), b)
                    },
                    Err(e) => (a <= b && b >= pre_frame@.len()) && post_frame@ == pre_frame@,
                }
            },
            Instruction::Add(a, b, c) => arithmetic_outcome(
                func,
                pre_frame,
                post_frame,
                instr,
                a,
                b,
                c,
                r,
            ) && post_env == pre_env && post_ups == pre_ups && post_pc == pre_pc,
            Instruction::Sub(a, b, c) => arithmetic_outcome(
                func,
                pre_frame,
                post_frame,
                instr,
                a,
                b,
                c,
                r,
            ) && post_env == pre_env && post_ups == pre_ups && post_pc == pre_pc,
            Instruction::Mul(a, b, c) => arithmetic_outcome(
                func,
                pre_frame,
                post_frame,
                instr,
                a,
                b,
                c,
                r,
            ) && post_env == pre_env && post_ups == pre_ups && post_pc == pre_pc,
            Instruction::Div(a, b, c) => arithmetic_outcome(
                func,
                pre_frame,
                post_frame,
                instr,
                a,
                b,
                c,
                r,
            ) && post_env == pre_env && post_ups == pre_ups && post_pc == pre_pc,
            Instruction::Mod(a, b, c) => arithmetic_outcome(
                func,
                pre_frame,
                post_frame,
                instr,
                a,
                b,
                c,
                r,
            ) && post_env == pre_env && post_ups == pre_ups && post_pc == pre_pc,
            Instruction::Pow(a, b, c) => arithmetic_outcome(
                func,
                pre_frame,
                post_frame,
                instr,
                a,
                b,
                c,
                r,
            ) && post_env == pre_env && post_ups == pre_ups && post_pc == pre_pc,
            Instruction::Unm(a, b, _) => {
                &&& post_env == pre_env
                &&& post_ups == pre_ups
                &&& post_pc == pre_pc
                &&& match r {
                    Ok(_) => a < pre_frame@.len() && b < pre_frame@.len() && (pre_frame@[b as int] matches ValueModel::Number(n) && post_frame@ == pre_frame@.update(a as int, ValueModel::Number((n ^ SIGN_MASK) as u64))) && post_frame.spec_top() == top_after(pre_frame.spec_top(), a),
                    Err(_) => post_frame@ == pre_frame@ && (a >= pre_frame@.len() || b >= pre_frame@.len() || !(pre_frame@[b as int] is Number)),
                }
            },
            Instruction::Not(a, b, _) => {
                &&& post_env == pre_env
                &&& post_ups == pre_ups
                &&& post_pc == pre_pc
                &&& match r {
                    Ok(_) => a < pre_frame@.len() && b < pre_frame@.len() && post_frame@
                        == pre_frame@.update(
                        a as int,
                        ValueModel::Boolean(!model_truthy(pre_frame@[b as int])),
                    ) && post_frame.spec_top() == top_after(pre_frame.spec_top(), a),
                    Err(_) => post_frame@ == pre_frame@ && (a >= pre_frame@.len() || b >= pre_frame@.len()),
                }
            },
            Instruction::Len(a, b, _) => {
                &&& post_env == pre_env
                &&& post_ups == pre_ups
                &&& post_pc == pre_pc
                &&& match r {
                    Ok(_) => a < pre_frame@.len() && b < pre_frame@.len() && (pre_frame@[b as int] matches ValueModel::String(st) && post_frame@ == pre_frame@.update(
                        a as int,
                        ValueModel::Number(crate::numeric::number_of_len(st.len() as usize)),
                    )) && post_frame.spec_top() == top_after(pre_frame.spec_top(), a),
                    Err(_) => post_frame@ == pre_frame@ && (a >= pre_frame@.len() || b >= pre_frame@.len() || !(pre_frame@[b as int] is String)),
                }
            },
            Instruction::Eq(a, b, c) => {
                &&& post_env == pre_env
                &&& post_ups == pre_ups
                &&& post_frame@ == pre_frame@
                &&& post_frame.spec_top() == pre_frame.spec_top()
                &&& match r {
                    Ok(_) => rk_spec(func, pre_frame@, b) matches Some(vb) && (rk_spec(
                        func,
                        pre_frame@,
                        c,
                    ) matches Some(vc) && post_pc == (if (crate::object::model_eq(vb, vc) != (a
                        > 0)) {
                        pre_pc + 1
                    } else {
                        pre_pc as int
                    })),
                    Err(e) => post_pc == pre_pc && (match (
                        rk_spec(func, pre_frame@, b),
                        rk_spec(func, pre_frame@, c),
                    ) {
                        (Some(vb), Some(vc)) => (crate::object::model_eq(vb, vc) != (a > 0))
                            && pre_pc == usize::MAX,
                        _ => true,
                    }),
                }
            },
            Instruction::Le(a, b, c) => {
                &&& post_env == pre_env
                &&& post_ups == pre_ups
                &&& post_frame@ == pre_frame@
                &&& post_frame.spec_top() == pre_frame.spec_top()
                &&& match r {
                    Ok(_) => rk_spec(func, pre_frame@, b) matches Some(
                        ValueModel::Number(nb),
                    ) && (rk_spec(func, pre_frame@, c) matches Some(ValueModel::Number(nc))
                        && post_pc == (if (total_key(nb) <= total_key(nc)) != (a > 0) {
                        pre_pc + 1
                    } else {
                        pre_pc as int
                    })),
                    Err(e) => post_pc == pre_pc && (match (
                        rk_spec(func, pre_frame@, b),
                        rk_spec(func, pre_frame@, c),
                    ) {
                        (Some(ValueModel::Number(nb)), Some(ValueModel::Number(nc))) => ((
                        total_key(nb) <= total_key(nc)) != (a > 0)) && pre_pc == usize::MAX,
                        _ => true,
                    }),
                }
            },
            Instruction::Lt(a, b, c) => {
                &&& post_env == pre_env
                &&& post_ups == pre_ups
                &&& post_frame@ == pre_frame@
                &&& post_frame.spec_top() == pre_frame.spec_top()
                &&& match r {
                    Ok(_) => rk_spec(func, pre_frame@, b) matches Some(
                        ValueModel::Number(nb),
                    ) && (rk_spec(func, pre_frame@, c) matches Some(ValueModel::Number(nc))
                        && post_pc == (if (total_key(nb) < total_key(nc)) != (a > 0) {
                        pre_pc + 1
                    } else {
                        pre_pc as int
                    })),
                    Err(e) => post_pc == pre_pc && (match (
                        rk_spec(func, pre_frame@, b),
                        rk_spec(func, pre_frame@, c),
                    ) {
                        (Some(ValueModel::Number(nb)), Some(ValueModel::Number(nc))) => ((
                        total_key(nb) < total_key(nc)) != (a > 0)) && pre_pc == usize::MAX,
                        _ => true,
                    }),
                }
            },
            Instruction::Jmp(_, sbx) => {
                &&& post_env == pre_env
                &&& post_ups == pre_ups
                &&& post_frame@ == pre_frame@
                &&& post_frame.spec_top() == pre_frame.spec_top()
                &&& match r {
                    Ok(_) => post_pc == pre_pc + sbx,
                    Err(e) => post_pc == pre_pc && (pre_pc + sbx < 0 || pre_pc + sbx
                        > usize::MAX),
                }
            },
            Instruction::GetGlobal(a, b) => {
                &&& post_env == pre_env
                &&& post_ups == pre_ups
                &&& post_pc == pre_pc
                &&& match r {
                    Ok(_) => a < pre_frame@.len() && b < func.const_list@.len() && (
                    func.const_list.deep_view()[b as int] matches ConstantModel::String(key)
                        && pre_env.contains_key(key) && post_frame@ == pre_frame@.update(
                        a as int,
                        pre_env[key],
                    ) && post_frame.spec_top() == top_after(pre_frame.spec_top(), a)),
                    Err(e) => post_frame@ == pre_frame@ && (b >= func.const_list@.len() || a
                        >= pre_frame@.len() || !(func.const_list.deep_view()[b as int] is String)
                        || (func.const_list.deep_view()[b as int] matches ConstantModel::String(
                        key,
                    ) && !pre_env.contains_key(key))),
                }
            },
            Instruction::SetGlobal(a, b) => {
                &&& post_ups == pre_ups
                &&& post_frame@ == pre_frame@
                &&& post_frame.spec_top() == pre_frame.spec_top()
                &&& post_pc == pre_pc
                &&& match r {
                    Ok(_) => a < pre_frame@.len() && b < func.const_list@.len() && (
                    func.const_list.deep_view()[b as int] matches ConstantModel::String(key)
                        && post_env == pre_env.insert(key, pre_frame@[a as int])),
                    Err(e) => post_env == pre_env && (b >= func.const_list@.len() || a
                        >= pre_frame@.len() || !(
                    func.const_list.deep_view()[b as int] is String)),
                }
            },
            Instruction::GetUpVal(a, b, _) => {
                &&& post_env == pre_env
                &&& post_ups == pre_ups
                &&& post_pc == pre_pc
                &&& match r {
                    Ok(_) => func.identifier < pre_ups.len() && a < pre_frame@.len() && b
                        < pre_ups[func.identifier as int].len() && post_frame@
                        == pre_frame@.update(
                        a as int,
                        pre_ups[func.identifier as int][b as int],
                    ) && post_frame.spec_top() == top_after(pre_frame.spec_top(), a),
                    Err(e) => post_frame@ == pre_frame@ && (func.identifier >= pre_ups.len() || a >= pre_frame@.len() || b >= pre_ups[
                        func.identifier as int].len()),
                }
            },
            Instruction::SetUpVal(a, b, _) => {
                &&& post_env == pre_env
                &&& post_frame@ == pre_frame@
                &&& post_frame.spec_top() == pre_frame.spec_top()
                &&& post_pc == pre_pc
                &&& match r {
                    Ok(_) => func.identifier < pre_ups.len() && a < pre_frame@.len() && b
                        < pre_ups[func.identifier as int].len() && post_ups == pre_ups.update(
                        func.identifier as int,
                        pre_ups[func.identifier as int].update(
                            b as int,
                            pre_frame@[a as int],
                        ),
                    ),
                    Err(e) => (func.identifier >= pre_ups.len() || a >= pre_frame@.len()
                        || b >= pre_ups[func.identifier as int].len()),
                }
            },
            Instruction::Test(a, _, c) => {
                &&& post_env == pre_env
                &&& post_ups == pre_ups
                &&& post_frame@ == pre_frame@
                &&& post_frame.spec_top() == pre_frame.spec_top()
                &&& match r {
                    Ok(_) => a < pre_frame@.len() && post_pc == (if (c > 0) != model_truthy(
                        pre_frame@[a as int],
                    ) {
                        pre_pc + 1
                    } else {
                        pre_pc as int
                    }),
                    Err(e) => post_pc == pre_pc && (a >= pre_frame@.len() || ((c > 0)
                        != model_truthy(pre_frame@[a as int]) && pre_pc == usize::MAX)),
                }
            },
            Instruction::TestSet(a, b, c) => {
                &&& post_env == pre_env
                &&& post_ups == pre_ups
                &&& match r {
                    Ok(_) => a < pre_frame@.len() && b < pre_frame@.len() && (if (c != 0)
                        == model_truthy(pre_frame@[b as int]) {
                        post_frame@ == pre_frame@.update(a as int, pre_frame@[b as int])
                            && post_pc == pre_pc && post_frame.spec_top() == top_after(
                            pre_frame.spec_top(),
                            a,
                        )
                    } else {
                        post_frame@ == pre_frame@ && post_pc == pre_pc + 1 && post_frame.spec_top() == pre_frame.spec_top()
                    }),
                    Err(e) => post_frame@ == pre_frame@ && post_pc == pre_pc && (a >= pre_frame@.len() || b >= pre_frame@.len() || ((c != 0) != model_truthy(
                        pre_frame@[b as int],
                    ) && pre_pc == usize::MAX)),
                }
            },
            Instruction::Closure(a, b) => {
                &&& post_env == pre_env
                &&& match r {
                    Ok(_) => a < pre_frame@.len() && b < func.func_list@.len()
                        && func.identifier < pre_ups.len() && func.func_list@[
                        b as int].identifier < pre_ups.len() && post_frame@ == pre_frame@.update(
                        a as int,
                        ValueModel::LuaFunction(func.func_list@[b as int].identifier as int),
                    ) && post_frame.spec_top() == top_after(pre_frame.spec_top(), a) && (
                    capture_list(
                        func.instr_list@,
                        post_frame@,
                        pre_ups[func.identifier as int],
                        pre_pc as int,
                        func.func_list@[b as int].up_values as nat,
                    ) matches Some(caps) && post_ups == pre_ups.update(func.func_list@[b as int].identifier as int, caps)
                        && post_pc == pre_pc + func.func_list@[b as int].up_values),
                    Err(e) => (b >= func.func_list@.len() || a >= pre_frame@.len()
                        || func.identifier >= pre_ups.len() || func.func_list@[
                        b as int].identifier >= pre_ups.len() || capture_list(
                        func.instr_list@,
                        pre_frame@.update(
                            a as int,
                            ValueModel::LuaFunction(
                                func.func_list@[b as int].identifier as int,
                            ),
                        ),
                        pre_ups[func.identifier as int],
                        pre_pc as int,
                        func.func_list@[b as int].up_values as nat,
                    ) is None),
                }
            },
            Instruction::ForLoop(a, sbx) => {
                &&& post_env == pre_env
                &&& post_ups == pre_ups
                &&& match r {
                    Ok(_) => (a + 3 < pre_frame@.len()) && (pre_frame@[a as int] matches
                        ValueModel::Number(na) && (pre_frame@[a + 1] matches ValueModel::Number(
                        limit,
                    ) && (pre_frame@[a + 2] matches ValueModel::Number(step) && {
                        let na = pre_frame@[a as int]->Number_0;
                        let limit = pre_frame@[a + 1]->Number_0;
                        let next = add_of(na, step);
                        let continuing = if flt_lt_bits(step, 0) {
                            flt_lt_bits(limit, na)
                        } else {
                            flt_lt_bits(na, limit)
                        };
                        if continuing {
                            post_frame@ == pre_frame@.update(
                                a as int,
                                ValueModel::Number(next),
                            ).update(a + 3, ValueModel::Number(next)) && post_pc == pre_pc
                                + sbx
                        } else {
                            post_frame@ == pre_frame@.update(
                                a as int,
                                ValueModel::Number(next),
                            ) && post_pc == pre_pc
                        }
                    }))),
                    Err(e) => (a + 3 >= pre_frame@.len() || !(pre_frame@[a as int] is Number) || !(pre_frame@[a + 1] is Number) || !(pre_frame@[a + 2] is Number) || ({
                        let na = pre_frame@[a as int]->Number_0;
                        let limit = pre_frame@[a + 1]->Number_0;
                        let step = pre_frame@[a + 2]->Number_0;
                        (if flt_lt_bits(step, 0) {
                            flt_lt_bits(limit, na)
                        } else {
                            flt_lt_bits(na, limit)
                        }) && (pre_pc + sbx < 0 || pre_pc + sbx > usize::MAX)
                    })),
                }
            },
            Instruction::ForPrep(a, sbx) => {
                &&& post_env == pre_env
                &&& post_ups == pre_ups
                &&& match r {
                    Ok(_) => (a + 2 < pre_frame@.len()) && (pre_frame@[a as int] matches
                        ValueModel::Number(init) && (pre_frame@[a + 2] matches ValueModel::Number(
                        step,
                    ) && post_frame@ == pre_frame@.update(
                        a as int,
                        ValueModel::Number(sub_of(pre_frame@[a as int]->Number_0, step)),
                    ) && post_pc == pre_pc + sbx)),
                    Err(e) => (a + 2 >= pre_frame@.len() || !(pre_frame@[a as int] is Number) || !(pre_frame@[a + 2] is Number) || pre_pc + sbx
                        < 0 || pre_pc + sbx > usize::MAX),
                }
            },
            _ => {
                &&& r matches Err(e) && e is UnimplementedOpcode
                &&& post_frame@ == pre_frame@
                &&& post_frame.spec_top() == pre_frame.spec_top()
                &&& post_env == pre_env
                &&& post_ups == pre_ups
                &&& post_pc == pre_pc
            },
        }
}

/// Evaluates one instruction that stays inside the running activation:
/// everything but a call, a tail call and a return.  The contract repeats,
/// per opcode, the named handler's behavior, and pins the parts of the
/// state the opcode does not touch.
pub fn eval_instruction(
    func: &Function,
    instr: &Instruction,
    frame: &mut CallFrame,
    env: &mut GlobalEnvironment,
    upvalues: &mut Vec<Vec<Value>>,
    pc: &mut usize,
) -> (r: Result<(), InterpreterError>)
    requires
        old(frame).wf(),
        old(env).wf(),
        !(*instr is Call),
        !(*instr is TailCall),
        !(*instr is Return),
    ensures
        final(frame).wf(),
        final(frame)@.len() == old(frame)@.len(),
        final(env).wf(),
        final(upvalues)@.len() == old(upvalues)@.len(),
        instruction_outcome(
            *func,
            *instr,
            *old(frame),
            *final(frame),
            old(env)@,
            final(env)@,
            old(upvalues).deep_view(),
            final(upvalues).deep_view(),
            *old(pc),
            *final(pc),
            r,
        ),
{
    match *instr {
        Instruction::Move(a, b, _) => move_operation(frame, a, b),
        Instruction::LoadK(a, b) => load_k(func, frame, a, b),
        Instruction::LoadBool(a, b, c) => load_bool(frame, a, b, c, pc),
        Instruction::LoadNil(a, b, _) => load_nil(frame, a, b),
        Instruction::Add(a, b, c) => arithmetic_operation(func, instr, frame, a, b, c),
        Instruction::Sub(a, b, c) => arithmetic_operation(func, instr, frame, a, b, c),
        Instruction::Mul(a, b, c) => arithmetic_operation(func, instr, frame, a, b, c),
        Instruction::Div(a, b, c) => arithmetic_operation(func, instr, frame, a, b, c),
        Instruction::Mod(a, b, c) => arithmetic_operation(func, instr, frame, a, b, c),
        Instruction::Pow(a, b, c) => arithmetic_operation(func, instr, frame, a, b, c),
        Instruction::Unm(a, b, _) => minus_operator(frame, a, b),
        Instruction::Not(a, b, _) => not_operator(frame, a, b),
        Instruction::Len(a, b, _) => len_operator(frame, a, b),
        Instruction::Eq(a, b, c) => equality(func, frame, pc, a, b, c),
        Instruction::Le(a, b, c) => comparison_operator(func, instr, frame, a, b, c, pc),
        Instruction::Lt(a, b, c) => comparison_operator(func, instr, frame, a, b, c, pc),
        Instruction::Jmp(_, sbx) => jmp_instruction(pc, sbx),
        Instruction::GetGlobal(a, b) => get_global(func, frame, env, a, b),
        Instruction::SetGlobal(a, b) => set_global(func, frame, env, a, b),
        Instruction::GetUpVal(a, b, _) => {
            if func.identifier >= upvalues.len() {
                return Err(InterpreterError::OutOfRangeError);
            }
            let mine = &upvalues[func.identifier];
            proof {
                assert(mine.deep_view() == old(upvalues).deep_view()[func.identifier as int]);
            }
            get_upvalue(frame, mine, a, b)
        },
        Instruction::SetUpVal(a, b, _) => set_upvalue_at(upvalues, func.identifier, frame, a, b),
        Instruction::Test(a, _, c) => test_operator(frame, pc, a, c),
        Instruction::TestSet(a, b, c) => testset_operator(frame, pc, a, b, c),
        Instruction::Closure(a, b) => closure_instruction(func, frame, upvalues, pc, a, b),
        Instruction::ForLoop(a, sbx) => for_loop(frame, pc, a, sbx),
        Instruction::ForPrep(a, sbx) => for_prep(frame, pc, a, sbx),
        _ => Err(InterpreterError::UnimplementedOpcode),
    }
}

/// One live function activation: its register window, the prototype it
/// runs, its program counter, and where in the caller its results land.
pub struct Activation {
    pub regs: CallFrame,
    pub proto: usize,
    pub pc: usize,
    pub ret_a: usize,
    pub ret_c: usize,
}

/// Every activation's register window is well formed.
pub open spec fn frames_wf(s: Seq<Activation>) -> bool {
    forall|i: int| 0 <= i < s.len() ==> (#[trigger] s[i]).regs.wf()
}

/// The instruction the machine would execute next.
pub open spec fn current_instruction(root: Function, frames: Seq<Activation>) -> Option<
    Instruction,
> {
    if frames.len() == 0 {
        None
    } else {
        let act = frames.last();
        match find_proto_spec(root, act.proto) {
            Some(p) => if act.pc < p.instr_list@.len() {
                Some(p.instr_list@[act.pc as int])
            } else {
                None
            },
            None => None,
        }
    }
}

/// Collects the values a return names: `b - 1` of them, or everything
/// from `a` to the top when `b` is zero.
fn collect_returns(frame: &CallFrame, a: usize, b: usize) -> (r: Result<
    Vec<Value>,
    InterpreterError,
>)
    requires
        frame.wf(),
    ensures
        r matches Ok(vals) ==> if b == 0 {
            a <= frame.spec_top() && vals.deep_view() == frame@.subrange(
                a as int,
                frame.spec_top() as int,
            )
        } else {
            a + b - 1 <= frame@.len() && vals.deep_view() == frame@.subrange(
                a as int,
                a + b - 1,
            )
        },
        r matches Err(e) ==> {
            let nvals: int = if b == 0 {
                frame.spec_top() - a
            } else {
                b - 1
            };
            (b == 0 && a > frame.spec_top()) || a > frame@.len() || a + nvals > frame@.len()
        },
{
    let max_index = if b == 0 {
        let top = frame.len();
        if a > top {
            return Err(InterpreterError::OutOfRangeError);
        }
        top - a
    } else {
        b - 1
    };
    let cap = frame.capacity();
    if a > cap || max_index > cap - a {
        return Err(InterpreterError::OutOfRangeError);
    }
    let mut vals: Vec<Value> = Vec::new();
    let mut i: usize = 0;
    while i < max_index
        invariant
            frame.wf(),
            i <= max_index,
            cap == frame@.len(),
            a + max_index <= cap,
            vals.deep_view() == frame@.subrange(a as int, a + i),
        decreases max_index - i,
    {
        let ghost prevec = vals@;
        let ghost predeep = vals.deep_view();
        let v = frame.load(a + i);
        vals.push(v);
        proof {
            assert(vals@ == prevec.push(v));
            assert(predeep.len() == i);
            assert(predeep == Seq::new(prevec.len(), |k: int| prevec[k].deep_view()));
            assert(prevec.len() == i);
            assert forall|j: int| 0 <= j < i + 1 implies vals.deep_view()[j] == frame@[a + j] by {
                if j < i {
                    assert(vals@[j] == prevec[j]);
                    assert(predeep[j] == prevec[j].deep_view());
                    assert(predeep[j] == frame@.subrange(a as int, a + i)[j]);
                } else {
                    assert(vals@[j] == v);
                }
            }
            assert(vals.deep_view() =~= frame@.subrange(a as int, a + i + 1));
        }
        i = i + 1;
    }
    Ok(vals)
}

/// Hands returned values to the caller: the caller's top is drawn back
/// to the call register, and `ret_c` governs how many values land there;
/// with no caller left the values are the program's results.
fn finish_return(
    frames: &mut Vec<Activation>,
    ret_a: usize,
    ret_c: usize,
    vals: Vec<Value>,
    result: &mut Vec<Value>,
) -> (r: Result<(), InterpreterError>)
    requires
        frames_wf(old(frames)@),
    ensures
        frames_wf(final(frames)@),
        final(frames)@.len() == old(frames)@.len(),
        r matches Err(e) ==> old(frames)@.len() > 0 && {
            let parent = old(frames)@.last();
            let max: int = if ret_c == 0 {
                vals@.len() as int
            } else {
                ret_c - 1
            };
            ret_a >= parent.regs@.len() || max > vals@.len() || ret_a + max > parent.regs@.len()
        },
        r matches Ok(_) ==> (if old(frames)@.len() == 0 {
            final(frames)@ == old(frames)@ && final(result).deep_view() == old(
                result,
            ).deep_view() + vals.deep_view()
        } else {
            let parent = old(frames)@.last();
            let max: int = if ret_c == 0 {
                vals@.len() as int
            } else {
                ret_c - 1
            };
            &&& final(result)@ == old(result)@
            &&& final(frames)@.len() == old(frames)@.len()
            &&& final(frames)@.drop_last() == old(frames)@.drop_last()
            &&& final(frames)@.last().proto == parent.proto
            &&& final(frames)@.last().pc == parent.pc
            &&& final(frames)@.last().ret_a == parent.ret_a
            &&& final(frames)@.last().ret_c == parent.ret_c
            &&& final(frames)@.last().regs@.len() == parent.regs@.len()
            &&& ret_a < parent.regs@.len()
            &&& (forall|j: int|
                0 <= j < parent.regs@.len() ==> final(frames)@.last().regs@[j] == (if ret_a <= j
                    < ret_a + max {
                    vals.deep_view()[j - ret_a]
                } else {
                    parent.regs@[j]
                }))
            &&& final(frames)@.last().regs.spec_top() == (if max == 0 {
                ret_a + 1
            } else {
                ret_a + max
            })
        }),
{
    if frames.len() == 0 {
        let mut i: usize = 0;
        let n = vals.len();
        while i < n
            invariant
                i <= n,
                n == vals@.len(),
                result.deep_view() == old(result).deep_view() + vals.deep_view().take(i as int),
            decreases n - i,
        {
            let ghost before = result.deep_view();
            result.push(vals[i].clone());
            proof {
                assert(result.deep_view() =~~= before.push(vals.deep_view()[i as int]));
                assert(before.push(vals.deep_view()[i as int]) =~= old(result).deep_view()
                    + vals.deep_view().take(i + 1));
            }
            i = i + 1;
        }
        proof {
            assert(vals.deep_view().take(n as int) =~= vals.deep_view());
        }
        return Ok(());
    }
    let mut parent = match frames.pop() {
        Some(p) => p,
        None => {
            return Err(InterpreterError::ReturnError);
        },
    };
    let ghost parent0 = old(frames)@.last();
    if ret_a >= parent.regs.capacity() {
        proof {
            lemma_frames_wf_push(frames@, parent);
        }
        frames.push(parent);
        return Err(InterpreterError::OutOfRangeError);
    }
    parent.regs.set_length(ret_a + 1);
    let max = if ret_c == 0 {
        vals.len()
    } else {
        ret_c - 1
    };
    let mut i: usize = 0;
    while i < max
        invariant
            i <= max,
            old(frames)@.len() > 0,
            parent0 == old(frames)@.last(),
            parent.proto == parent0.proto,
            parent.pc == parent0.pc,
            parent.ret_a == parent0.ret_a,
            parent.ret_c == parent0.ret_c,
            parent.regs.wf(),
            parent.regs@.len() == parent0.regs@.len(),
            ret_a < parent0.regs@.len(),
            max == (if ret_c == 0 {
                vals@.len() as int
            } else {
                ret_c - 1
            }),
            i <= vals@.len(),
            forall|j: int|
                0 <= j < parent.regs@.len() ==> parent.regs@[j] == (if ret_a <= j < ret_a + i {
                    vals.deep_view()[j - ret_a]
                } else {
                    parent0.regs@[j]
                }),
            parent.regs.spec_top() == (if i == 0 {
                ret_a + 1
            } else {
                ret_a + i
            }),
            frames@ == old(frames)@.drop_last(),
            frames_wf(frames@),
            result.deep_view() == old(result).deep_view(),
        decreases max - i,
    {
        if i >= vals.len() || ret_a >= parent.regs.capacity() || i >= parent.regs.capacity()
            - ret_a {
            proof {
                lemma_frames_wf_push(frames@, parent);
            }
            frames.push(parent);
            return Err(InterpreterError::OutOfRangeError);
        }
        parent.regs.store(ret_a + i, vals[i].clone());
        i = i + 1;
    }
    proof {
        lemma_frames_wf_push(frames@, parent);
    }
    frames.push(parent);
    Ok(())
}

/// A stack of well-formed activations stays well formed under a push of
/// a well-formed one.
proof fn lemma_frames_wf_push(s: Seq<Activation>, a: Activation)
    requires
        frames_wf(s),
        a.regs.wf(),
    ensures
        frames_wf(s.push(a)),
{
    assert forall|j: int| 0 <= j < s.push(a).len() implies (#[trigger] s.push(a)[j]).regs.wf() by {
        if j < s.len() {
            assert(s.push(a)[j] == s[j]);
        } else {
            assert(s.push(a)[j] == a);
        }
    }
}

/// What a return from the topmost activation does: with no caller left
/// the values become the program's results; otherwise the caller's top is
/// drawn back to the call register and `ret_c` governs how many returned
/// values land there.
pub open spec fn returned_to_caller(
    pre: Seq<Activation>,
    post: Seq<Activation>,
    pre_result: Vec<Value>,
    post_result: Vec<Value>,
    vals: Seq<ValueModel>,
) -> bool {
    let act = pre.last();
    if pre.len() == 1 {
        &&& post.len() == 0
        &&& post_result.deep_view() == pre_result.deep_view() + vals
    } else {
        let parent = pre[pre.len() - 2];
        let max: int = if act.ret_c == 0 {
            vals.len() as int
        } else {
            act.ret_c - 1
        };
        &&& post_result@ == pre_result@
        &&& post.len() == pre.len() - 1
        &&& post.drop_last() == pre.drop_last().drop_last()
        &&& post.last().proto == parent.proto
        &&& post.last().pc == parent.pc
        &&& post.last().ret_a == parent.ret_a
        &&& post.last().ret_c == parent.ret_c
        &&& post.last().regs@.len() == parent.regs@.len()
        &&& act.ret_a < parent.regs@.len()
        &&& (forall|j: int|
            0 <= j < parent.regs@.len() ==> post.last().regs@[j] == (if act.ret_a <= j
                < act.ret_a + max {
                vals[j - act.ret_a]
            } else {
                parent.regs@[j]
            }))
        &&& post.last().regs.spec_top() == (if max == 0 {
            act.ret_a + 1
        } else {
            act.ret_a + max
        })
    }
}

/// Executes the next instruction of the topmost activation.  The stack
/// grows by at most one activation; a tail call never grows it, because
/// it replaces the running activation, and a return always shrinks it.
pub fn eval_step(
    func: &Function,
    frames: &mut Vec<Activation>,
    env: &mut GlobalEnvironment,
    upvalues: &mut Vec<Vec<Value>>,
    result: &mut Vec<Value>,
    output: &mut Vec<u8>,
) -> (r: Result<(), InterpreterError>)
    requires
        old(frames)@.len() > 0,
        frames_wf(old(frames)@),
        old(env).wf(),
    ensures
        frames_wf(final(frames)@),
        final(env).wf(),
        final(upvalues)@.len() == old(upvalues)@.len(),
        final(frames)@.len() <= old(frames)@.len() + 1,
        (current_instruction(*func, old(frames)@) matches Some(i) && i is TailCall) ==> final(frames)@.len() <= old(frames)@.len(),
        (current_instruction(*func, old(frames)@) matches Some(i) && i is Return) ==> final(frames)@.len() < old(frames)@.len(),
        match current_instruction(*func, old(frames)@) {
            Some(Instruction::Call(a, b, c)) => {
                &&& final(env)@ == old(env)@
                &&& final(upvalues).deep_view() == old(upvalues).deep_view()
                &&& (match r {
                    Err(_) => final(frames)@ == old(frames)@.drop_last() && final(result)@
                        == old(result)@,
                    _ => true,
                })
                &&& (r matches Ok(_) ==> {
                    let act = old(frames)@.last();
                    &&& a < act.regs@.len()
                    &&& match act.regs@[a as int] {
                        ValueModel::LuaFunction(id) => {
                            &&& final(frames)@.len() == old(frames)@.len() + 1
                            &&& final(frames)@.subrange(0, old(frames)@.len() - 1) == old(
                                frames,
                            )@.drop_last()
                            &&& final(frames)@[old(frames)@.len() - 1].proto == act.proto
                            &&& final(frames)@[old(frames)@.len() - 1].pc == act.pc + 1
                            &&& final(frames)@.last().proto == id
                            &&& final(frames)@.last().pc == 0
                            &&& final(frames)@.last().ret_a == a
                            &&& final(frames)@.last().ret_c == c
                            &&& {
                                let nargs = (if b == 0 {
                                    act.regs.spec_top() as int
                                } else {
                                    a + b
                                }) - a - 1;
                                forall|j: int|
                                    0 <= j < nargs ==> final(frames)@.last().regs@[j]
                                        == act.regs@[a + 1 + j]
                            }
                            &&& final(output)@ == old(output)@
                        },
                        ValueModel::RuntimeFunction(h) => {
                            &&& final(frames)@.len() == old(frames)@.len()
                            &&& {
                                let nargs: int = if b > 0 {
                                    b - 1
                                } else {
                                    act.regs.spec_top() - a - 1
                                };
                                final(output)@ == old(output)@ + print_line_of(
                                    act.regs@.subrange(a + 1, a + 1 + nargs),
                                )
                            }
                        },
                        _ => false,
                    }
                })
                &&& match r {
                    Err(e) => e is NotCallableError ==> {
                        let act = old(frames)@.last();
                        a < act.regs@.len() && !(act.regs@[a as int] is LuaFunction) && !(
                        act.regs@[a as int] is RuntimeFunction)
                    },
                    _ => true,
                }
                &&& ({
                    let act = old(frames)@.last();
                    a < act.regs@.len() && (match act.regs@[a as int] {
                        ValueModel::LuaFunction(id) => match find_proto_spec(*func, id as usize) {
                            Some(p) => {
                                let max_index: int = (if b == 0 {
                                    act.regs.spec_top() as int
                                } else {
                                    a + b
                                }) - a;
                                (b == 0 ==> a <= act.regs.spec_top()) && a + max_index
                                    <= act.regs@.len() && max_index - 1 <= p.stack
                            },
                            None => false,
                        },
                        ValueModel::RuntimeFunction(h) => {
                            let n: int = if b > 0 {
                                b - 1
                            } else {
                                act.regs.spec_top() - a - 1
                            };
                            (b == 0 ==> a + 1 <= act.regs.spec_top()) && a + 1 + n
                                <= act.regs@.len() && n < 256 && c <= 1
                        },
                        _ => false,
                    })
                }) ==> r is Ok
            },
            Some(Instruction::TailCall(a, b, _)) => {
                &&& final(env)@ == old(env)@
                &&& final(upvalues).deep_view() == old(upvalues).deep_view()
                &&& (match r {
                    Err(_) => final(frames)@ == old(frames)@.drop_last() && final(result)@
                        == old(result)@ && final(output)@ == old(output)@,
                    _ => true,
                })
                &&& (r matches Ok(_) ==> {
                    let act = old(frames)@.last();
                    &&& a < act.regs@.len()
                    &&& act.regs@[a as int] matches ValueModel::LuaFunction(id) && {
                        &&& final(frames)@.len() == old(frames)@.len()
                        &&& final(frames)@.drop_last() == old(frames)@.drop_last()
                        &&& final(frames)@.last().proto == id
                        &&& final(frames)@.last().pc == 0
                        &&& final(frames)@.last().ret_a == act.ret_a
                        &&& final(frames)@.last().ret_c == act.ret_c
                        &&& {
                            let nargs = (if b == 0 {
                                act.regs.spec_top() as int
                            } else {
                                a + b
                            }) - a - 1;
                            forall|j: int|
                                0 <= j < nargs ==> final(frames)@.last().regs@[j] == act.regs@[a
                                    + 1 + j]
                        }
                        &&& final(output)@ == old(output)@
                    }
                })
                &&& match r {
                    Err(e) => e is TailCallError ==> {
                        let act = old(frames)@.last();
                        a < act.regs@.len() && !(act.regs@[a as int] is LuaFunction)
                    },
                    _ => true,
                }
                &&& ({
                    let act = old(frames)@.last();
                    a < act.regs@.len() && (match act.regs@[a as int] {
                        ValueModel::LuaFunction(id) => match find_proto_spec(*func, id as usize) {
                            Some(p) => {
                                let max_index: int = (if b == 0 {
                                    act.regs.spec_top() as int
                                } else {
                                    a + b
                                }) - a;
                                (b == 0 ==> a <= act.regs.spec_top()) && a + max_index
                                    <= act.regs@.len() && max_index - 1 <= p.stack
                            },
                            None => false,
                        },
                        _ => false,
                    })
                }) ==> r is Ok
            },
            Some(Instruction::Return(a, b, _)) => {
                &&& final(env)@ == old(env)@
                &&& final(upvalues).deep_view() == old(upvalues).deep_view()
                &&& final(output)@ == old(output)@
                &&& (r matches Ok(_) ==> {
                    let act = old(frames)@.last();
                    let vals: Seq<ValueModel> = if b == 0 {
                        act.regs@.subrange(a as int, act.regs.spec_top() as int)
                    } else {
                        act.regs@.subrange(a as int, a + b - 1)
                    };
                    returned_to_caller(
                        old(frames)@,
                        final(frames)@,
                        *old(result),
                        *final(result),
                        vals,
                    )
                })
                &&& ({
                    let act = old(frames)@.last();
                    let nvals: int = if b == 0 {
                        act.regs.spec_top() - a
                    } else {
                        b - 1
                    };
                    (b == 0 ==> a <= act.regs.spec_top()) && a + nvals <= act.regs@.len() && (if
                    old(frames)@.len() == 1 {
                        true
                    } else {
                        let parent = old(frames)@[old(frames)@.len() - 2];
                        let max: int = if act.ret_c == 0 {
                            nvals
                        } else {
                            act.ret_c - 1
                        };
                        act.ret_a < parent.regs@.len() && max <= nvals && act.ret_a + max
                            <= parent.regs@.len()
                    })
                }) ==> r is Ok
            },
            None => {
                &&& final(env)@ == old(env)@
                &&& final(upvalues).deep_view() == old(upvalues).deep_view()
                &&& final(output)@ == old(output)@
                &&& (r matches Ok(_) ==> returned_to_caller(
                    old(frames)@,
                    final(frames)@,
                    *old(result),
                    *final(result),
                    Seq::empty(),
                ))
                &&& ({
                    let act = old(frames)@.last();
                    find_proto_spec(*func, act.proto) is Some && (if old(frames)@.len() == 1 {
                        true
                    } else {
                        let parent = old(frames)@[old(frames)@.len() - 2];
                        act.ret_a < parent.regs@.len() && act.ret_c <= 1
                    })
                }) ==> r is Ok
            },
            Some(other) => {
                &&& final(result)@ == old(result)@
                &&& final(output)@ == old(output)@
                &&& final(frames)@.len() == old(frames)@.len()
                &&& final(frames)@.drop_last() == old(frames)@.drop_last()
                &&& final(frames)@.last().proto == old(frames)@.last().proto
                &&& final(frames)@.last().ret_a == old(frames)@.last().ret_a
                &&& final(frames)@.last().ret_c == old(frames)@.last().ret_c
                &&& (match find_proto_spec(*func, old(frames)@.last().proto) {
                    Some(p) => instruction_outcome(
                        p,
                        other,
                        old(frames)@.last().regs,
                        final(frames)@.last().regs,
                        old(env)@,
                        final(env)@,
                        old(upvalues).deep_view(),
                        final(upvalues).deep_view(),
                        (old(frames)@.last().pc + 1) as usize,
                        final(frames)@.last().pc,
                        r,
                    ),
                    None => false,
                })
            },
        },
{
    let mut act = match frames.pop() {
        Some(a) => a,
        None => {
            return Err(InterpreterError::ReturnError);
        },
    };
    proof {
        assert(old(frames)@.last() == act);
        assert(act.regs.wf());
    }
    let proto = match find_proto(func, act.proto) {
        Some(p) => p,
        None => {
            return Err(InterpreterError::OutOfRangeError);
        },
    };
    if act.pc >= proto.instr_list.len() {
        proof {
            assert(current_instruction(*func, old(frames)@) is None);
        }
        let ret_a = act.ret_a;
        let ret_c = act.ret_c;
        let empty_vals: Vec<Value> = Vec::new();
        proof {
            assert(empty_vals.deep_view() =~= Seq::<ValueModel>::empty());
        }
        return finish_return(frames, ret_a, ret_c, empty_vals, result);
    }
    let instr = proto.instr_list[act.pc];
    proof {
        assert(current_instruction(*func, old(frames)@) == Some(instr));
    }
    act.pc = act.pc + 1;
    match instr {
        Instruction::Call(a, b, c) => {
            if a >= act.regs.capacity() {
                return Err(InterpreterError::OutOfRangeError);
            }
            let func_val = act.regs.load(a);
            match func_val {
                Value::LuaFunction(id) => {
                    let next = match find_proto(func, id) {
                        Some(p) => p,
                        None => {
                            return Err(InterpreterError::OutOfRangeError);
                        },
                    };
                    let mut new_frame = CallFrame::with_capacity(next.stack);
                    let max_index = if b == 0 {
                        let top = act.regs.len();
                        if a > top {
                            return Err(InterpreterError::OutOfRangeError);
                        }
                        top - a
                    } else {
                        b
                    };
                    let mut i: usize = 1;
                    while i < max_index
                        invariant
                            1 <= i,
                            current_instruction(*func, old(frames)@) == Some(instr),
                            instr is Call,
                            instr->Call_0 == a,
                            instr->Call_1 == b,
                            instr->Call_2 == c,
                            act.regs == old(frames)@.last().regs,
                            act.ret_a == old(frames)@.last().ret_a,
                            act.ret_c == old(frames)@.last().ret_c,
                            a < act.regs@.len(),
                            act.regs@[a as int] == ValueModel::LuaFunction(id as int),
                            find_proto_spec(*func, id) == Some(*next),
                            new_frame@.len() == next.stack,
                            max_index == (if b == 0 {
                                act.regs.spec_top() as int
                            } else {
                                b as int
                            }) - (if b == 0 {
                                a as int
                            } else {
                                0
                            }),
                            b == 0 ==> a <= act.regs.spec_top(),
                            act.regs.wf(),
                            new_frame.wf(),
                            old(frames)@.len() > 0,
                            frames@ == old(frames)@.drop_last(),
                            frames_wf(frames@),
                            env.wf(),
                            env@ == old(env)@,
                            upvalues@.len() == old(upvalues)@.len(),
                            upvalues.deep_view() == old(upvalues).deep_view(),
                            result@ == old(result)@,
                            output@ == old(output)@,
                            forall|j: int|
                                0 <= j < i - 1 ==> new_frame@[j] == act.regs@[a + 1 + j],
                        decreases max_index - i,
                    {
                        if a >= act.regs.capacity() || i >= act.regs.capacity() - a || i - 1
                            >= new_frame.capacity() {
                            return Err(InterpreterError::OutOfRangeError);
                        }
                        let v = act.regs.load(a + i);
                        new_frame.store(i - 1, v);
                        i = i + 1;
                    }
                    proof {
                        lemma_frames_wf_push(frames@, act);
                    }
                    frames.push(act);
                    let fresh = Activation { regs: new_frame, proto: id, pc: 0, ret_a: a, ret_c: c };
                    proof {
                        lemma_frames_wf_push(frames@, fresh);
                        assert(frames@.drop_last() =~= old(frames)@.drop_last());
                    }
                    frames.push(fresh);
                    proof {
                        assert(frames@.subrange(0, old(frames)@.len() - 1) =~= old(
                            frames,
                        )@.drop_last());
                    }
                    Ok(())
                },
                Value::RuntimeFunction(host) => {
                    let top = act.regs.len();
                    let stack_size = if b > 0 {
                        b - 1
                    } else {
                        if top < a + 1 {
                            return Err(InterpreterError::OutOfRangeError);
                        }
                        top - a - 1
                    };
                    #[verifier::truncate]
                    let host_cap = stack_size as u8;
                    let mut host_frame = CallFrame::with_capacity(host_cap);
                    let mut i: usize = 0;
                    while i < stack_size
                        invariant
                            current_instruction(*func, old(frames)@) == Some(instr),
                            instr is Call,
                            instr->Call_0 == a,
                            instr->Call_1 == b,
                            instr->Call_2 == c,
                            act.regs == old(frames)@.last().regs,
                            act.ret_a == old(frames)@.last().ret_a,
                            act.ret_c == old(frames)@.last().ret_c,
                            a < act.regs@.len(),
                            act.regs@[a as int] == ValueModel::RuntimeFunction(host),
                            stack_size == (if b > 0 {
                                b as int
                            } else {
                                act.regs.spec_top() as int - a
                            }) - 1,
                            b == 0 ==> a + 1 <= act.regs.spec_top(),
                            host_frame@.len() == host_cap as int,
                            host_cap == stack_size as u8,
                            act.regs.wf(),
                            host_frame.wf(),
                            old(frames)@.len() > 0,
                            frames@ == old(frames)@.drop_last(),
                            frames_wf(frames@),
                            env.wf(),
                            env@ == old(env)@,
                            upvalues@.len() == old(upvalues)@.len(),
                            upvalues.deep_view() == old(upvalues).deep_view(),
                            result@ == old(result)@,
                            output@ == old(output)@,
                            i <= stack_size,
                            host_frame.spec_top() == i,
                            a + 1 + i <= act.regs@.len(),
                            forall|j: int| 0 <= j < i ==> host_frame@[j] == act.regs@[a + 1 + j],
                        decreases stack_size - i,
                    {
                        if a >= act.regs.capacity() || i + 1 >= act.regs.capacity() - a || i
                            >= host_frame.capacity() {
                            return Err(InterpreterError::OutOfRangeError);
                        }
                        let v = act.regs.load(a + i + 1);
                        host_frame.store(i, v);
                        i = i + 1;
                    }
                    proof {
                        assert(host_frame@.take(host_frame.spec_top() as int) =~= act.regs@.subrange(
                            a + 1,
                            a + 1 + stack_size,
                        ));
                    }
                    match host {
                        RuntimeFunction::Print => print_lua(host_frame, output),
                    }
                    act.regs.set_length(a + 1);
                    let max = if c == 0 {
                        0
                    } else {
                        c - 1
                    };
                    if max > 0 {
                        return Err(InterpreterError::OutOfRangeError);
                    }
                    proof {
                        lemma_frames_wf_push(frames@, act);
                    }
                    frames.push(act);
                    Ok(())
                },
                _ => Err(InterpreterError::NotCallableError),
            }
        },
        Instruction::TailCall(a, b, _) => {
            if a >= act.regs.capacity() {
                return Err(InterpreterError::OutOfRangeError);
            }
            let func_val = act.regs.load(a);
            match func_val {
                Value::LuaFunction(id) => {
                    let next = match find_proto(func, id) {
                        Some(p) => p,
                        None => {
                            return Err(InterpreterError::OutOfRangeError);
                        },
                    };
                    let mut new_frame = CallFrame::with_capacity(next.stack);
                    let max_index = if b == 0 {
                        let top = act.regs.len();
                        if a > top {
                            return Err(InterpreterError::OutOfRangeError);
                        }
                        top - a
                    } else {
                        b
                    };
                    let mut i: usize = 1;
                    while i < max_index
                        invariant
                            1 <= i,
                            current_instruction(*func, old(frames)@) == Some(instr),
                            instr is TailCall,
                            instr->TailCall_0 == a,
                            instr->TailCall_1 == b,
                            act.regs == old(frames)@.last().regs,
                            act.ret_a == old(frames)@.last().ret_a,
                            act.ret_c == old(frames)@.last().ret_c,
                            a < act.regs@.len(),
                            act.regs@[a as int] == ValueModel::LuaFunction(id as int),
                            find_proto_spec(*func, id) == Some(*next),
                            new_frame@.len() == next.stack,
                            max_index == (if b == 0 {
                                act.regs.spec_top() as int
                            } else {
                                b as int
                            }) - (if b == 0 {
                                a as int
                            } else {
                                0
                            }),
                            b == 0 ==> a <= act.regs.spec_top(),
                            act.regs.wf(),
                            new_frame.wf(),
                            old(frames)@.len() > 0,
                            frames@ == old(frames)@.drop_last(),
                            frames_wf(frames@),
                            env.wf(),
                            env@ == old(env)@,
                            upvalues@.len() == old(upvalues)@.len(),
                            upvalues.deep_view() == old(upvalues).deep_view(),
                            result@ == old(result)@,
                            output@ == old(output)@,
                            forall|j: int|
                                0 <= j < i - 1 ==> new_frame@[j] == act.regs@[a + 1 + j],
                        decreases max_index - i,
                    {
                        if a >= act.regs.capacity() || i >= act.regs.capacity() - a || i - 1
                            >= new_frame.capacity() {
                            return Err(InterpreterError::OutOfRangeError);
                        }
                        let v = act.regs.load(a + i);
                        new_frame.store(i - 1, v);
                        i = i + 1;
                    }
                    let fresh = Activation {
                        regs: new_frame,
                        proto: id,
                        pc: 0,
                        ret_a: act.ret_a,
                        ret_c: act.ret_c,
                    };
                    proof {
                        lemma_frames_wf_push(frames@, fresh);
                    }
                    frames.push(fresh);
                    Ok(())
                },
                _ => Err(InterpreterError::TailCallError),
            }
        },
        Instruction::Return(a, b, _) => {
            let vals = collect_returns(&act.regs, a, b)?;
            let ret_a = act.ret_a;
            let ret_c = act.ret_c;
            let ghost valsd = vals.deep_view();
            let r2 = finish_return(frames, ret_a, ret_c, vals, result);
            proof {
                assert(valsd.len() == (if b == 0 {
                    act.regs.spec_top() - a
                } else {
                    b - 1
                }));
                if old(frames)@.len() > 1 {
                    assert(old(frames)@.drop_last().last() == old(frames)@[old(frames)@.len()
                        - 2]);
                }
            }
            r2
        },
        _ => {
            let r = eval_instruction(proto, &instr, &mut act.regs, env, upvalues, &mut act.pc);
            proof {
                lemma_frames_wf_push(frames@, act);
            }
            frames.push(act);
            proof {
                assert(frames@.drop_last() =~= old(frames)@.drop_last());
            }
            r
        },
    }
}

/// The bound on executed instructions: effectively unbounded, it exists
/// so that every loop of the machine has a decreasing measure.
pub const STEP_LIMIT: u64 = 0xFFFF_FFFF_FFFF_FFFF;

/// Runs the dispatch loop on an initial activation of `func` until every
/// activation has returned.  Each iteration is governed by `eval_step`'s
/// contract; what a whole run leaves in the output, the results and the
/// globals follows from iterating that contract and is exercised by the
/// crate's end-to-end tests, not restated here as a closed form.
pub fn eval_sequence(
    func: &Function,
    frame: CallFrame,
    env: &mut GlobalEnvironment,
    upvalues: &mut Vec<Vec<Value>>,
    result: &mut Vec<Value>,
    output: &mut Vec<u8>,
) -> (r: Result<(), InterpreterError>)
    requires
        frame.wf(),
        old(env).wf(),
    ensures
        final(env).wf(),
{
    let mut frames: Vec<Activation> = Vec::new();
    frames.push(Activation { regs: frame, proto: func.identifier, pc: 0, ret_a: 0, ret_c: 0 });
    let mut steps: u64 = STEP_LIMIT;
    while frames.len() > 0
        invariant
            env.wf(),
            frames_wf(frames@),
        decreases steps,
    {
        if steps == 0 {
            return Err(InterpreterError::StepLimitError);
        }
        steps = steps - 1;
        eval_step(func, &mut frames, env, upvalues, result, output)?;
    }
    Ok(())
}

/// Counts the prototypes of a tree, or reports that the count does not
/// fit the machine.
pub fn count_protos(f: &Function) -> (r: Option<usize>)
    ensures
        match r {
            Some(n) => n == proto_count(*f),
            None => proto_count(*f) > usize::MAX,
        },
    decreases *f,
{
    let mut total: usize = 1;
    let n = f.func_list.len();
    let mut i: usize = 0;
    while i < n
        invariant
            n == f.func_list@.len(),
            i <= n,
            total == 1 + proto_count_list(f.func_list@.take(i as int)),
        decreases n - i,
    {
        proof {
            assert(decreases_to!(*f => f.func_list));
            assert(decreases_to!(f.func_list => f.func_list@));
            assert(decreases_to!(f.func_list@ => f.func_list@[i as int]));
            assert(decreases_to!(*f => f.func_list@[i as int]));
            crate::function::lemma_count_list_last(f.func_list@.take(i + 1));
            assert(f.func_list@.take(i + 1).drop_last() =~= f.func_list@.take(i as int));
            assert(f.func_list@.take(i + 1).last() == f.func_list@[i as int]);
        }
        let c = match count_protos(&f.func_list[i]) {
            Some(c) => c,
            None => {
                proof {
                    lemma_count_prefix_bound(f.func_list@, i + 1);
                }
                return None;
            },
        };
        if c > usize::MAX - total {
            proof {
                lemma_count_prefix_bound(f.func_list@, i + 1);
            }
            return None;
        }
        total = total + c;
        i = i + 1;
    }
    proof {
        assert(f.func_list@.take(n as int) =~= f.func_list@);
    }
    Some(total)
}

/// A forest holds at least as many prototypes as any of its prefixes.
proof fn lemma_count_prefix_bound(s: Seq<Function>, i: int)
    requires
        0 <= i <= s.len(),
    ensures
        proto_count_list(s) >= proto_count_list(s.take(i)),
{
    crate::function::lemma_count_list_split(s, i);
}

/// Decodes nothing and runs everything: seeds the globals with the
/// runtime library, gives every prototype its dense identifier and an
/// empty upvalue slot, then evaluates the root prototype.  The bytes the
/// runtime library printed come back in every case — on an error they
/// hold whatever the program printed before it failed, as the original's
/// progressive writing left visible.  The run is a deterministic
/// function of `main` — every step is pinned by `eval_step`'s and
/// `eval_instruction`'s contracts and every trusted numeric result is a
/// named function of its arguments — but the whole-run output is not
/// restated here as a closed form; the end-to-end scenarios exercise it.
pub fn eval_program(main: Function) -> (r: (Result<(), InterpreterError>, Vec<u8>))
    requires
        proto_count(main) <= usize::MAX,
{
    let frame = CallFrame::with_capacity(main.stack);
    let mut global_environment = GlobalEnvironment::new();
    let (main, nb_upvalues) = main.assign_upval_id();
    let mut upvalues_lists: Vec<Vec<Value>> = Vec::new();
    let mut i: usize = 0;
    while i <= nb_upvalues
        invariant
            i <= nb_upvalues + 1,
            nb_upvalues < usize::MAX,
        decreases nb_upvalues + 1 - i,
    {
        upvalues_lists.push(Vec::new());
        i = i + 1;
    }
    let mut result: Vec<Value> = Vec::new();
    let mut output: Vec<u8> = Vec::new();
    let outcome = eval_sequence(
        &main,
        frame,
        &mut global_environment,
        &mut upvalues_lists,
        &mut result,
        &mut output,
    );
    (outcome, output)
}

} // verus!
