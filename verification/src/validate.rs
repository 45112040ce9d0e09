//! The static well-formedness of a decoded program: every register
//! operand lies below the owning prototype's stack size, every constant,
//! upvalue and nested-prototype index lies inside its pool, every signed
//! jump lands at a position of the owning prototype's code, and every
//! closure is followed by its binding pseudo-instructions.

use vstd::prelude::*;

use crate::function::Function;
use crate::instruction::Instruction;

verus! {

/// A register-or-constant operand is in range: a register index below
/// the stack size, or a constant index inside the pool.
pub open spec fn rk_ok(x: usize, max_stack: int, n_consts: int) -> bool {
    if x >= 256 {
        x % 256 < n_consts
    } else {
        x < max_stack
    }
}

/// A signed jump taken after the instruction at `pc` lands at a position
/// of the code: an existing instruction, or its very end, where the
/// machine returns.
pub open spec fn jump_ok(pc: int, sbx: int, code_len: int) -> bool {
    0 <= pc + 1 + sbx <= code_len
}

/// A closure-binding pseudo-instruction: a register move below the stack
/// size, or an upvalue forward inside the enclosing closure's upvalues.
pub open spec fn binding_ok(instr: Instruction, max_stack: int, n_ups: int) -> bool {
    match instr {
        Instruction::Move(_, r, _) => r < max_stack,
        Instruction::GetUpVal(_, u, _) => u < n_ups,
        _ => false,
    }
}

/// The operand ranges one instruction must respect, judged at position
/// `pc` of a prototype with the given stack size and pool sizes.
pub open spec fn instruction_ok(
    instr: Instruction,
    pc: int,
    max_stack: int,
    n_consts: int,
    n_children: int,
    n_ups: int,
    code_len: int,
) -> bool {
    match instr {
        Instruction::Move(a, b, _) => a < max_stack && b < max_stack,
        Instruction::LoadK(a, bx) => a < max_stack && bx < n_consts,
        Instruction::LoadBool(a, _, _) => a < max_stack,
        Instruction::LoadNil(a, b, _) => a < max_stack && (a <= b ==> b < max_stack),
        Instruction::GetUpVal(a, b, _) => a < max_stack && b < n_ups,
        Instruction::GetGlobal(a, bx) => a < max_stack && bx < n_consts,
        Instruction::SetGlobal(a, bx) => a < max_stack && bx < n_consts,
        Instruction::SetUpVal(a, b, _) => a < max_stack && b < n_ups,
        Instruction::Add(a, b, c) => a < max_stack && rk_ok(b, max_stack, n_consts) && rk_ok(
            c,
            max_stack,
            n_consts,
        ),
        Instruction::Sub(a, b, c) => a < max_stack && rk_ok(b, max_stack, n_consts) && rk_ok(
            c,
            max_stack,
            n_consts,
        ),
        Instruction::Mul(a, b, c) => a < max_stack && rk_ok(b, max_stack, n_consts) && rk_ok(
            c,
            max_stack,
            n_consts,
        ),
        Instruction::Div(a, b, c) => a < max_stack && rk_ok(b, max_stack, n_consts) && rk_ok(
            c,
            max_stack,
            n_consts,
        ),
        Instruction::Mod(a, b, c) => a < max_stack && rk_ok(b, max_stack, n_consts) && rk_ok(
            c,
            max_stack,
            n_consts,
        ),
        Instruction::Pow(a, b, c) => a < max_stack && rk_ok(b, max_stack, n_consts) && rk_ok(
            c,
            max_stack,
            n_consts,
        ),
        Instruction::Unm(a, b, _) => a < max_stack && b < max_stack,
        Instruction::Not(a, b, _) => a < max_stack && b < max_stack,
        Instruction::Len(a, b, _) => a < max_stack && b < max_stack,
        Instruction::Jmp(_, sbx) => jump_ok(pc, sbx as int, code_len),
        Instruction::Eq(_, b, c) => rk_ok(b, max_stack, n_consts) && rk_ok(
            c,
            max_stack,
            n_consts,
        ),
        Instruction::Lt(_, b, c) => rk_ok(b, max_stack, n_consts) && rk_ok(
            c,
            max_stack,
            n_consts,
        ),
        Instruction::Le(_, b, c) => rk_ok(b, max_stack, n_consts) && rk_ok(
            c,
            max_stack,
            n_consts,
        ),
        Instruction::Test(a, _, _) => a < max_stack,
        Instruction::TestSet(a, b, _) => a < max_stack && b < max_stack,
        Instruction::Call(a, b, c) => a < max_stack && (b > 0 ==> a + b <= max_stack) && (c > 0
            ==> a + c <= max_stack + 1),
        Instruction::TailCall(a, b, _) => a < max_stack && (b > 0 ==> a + b <= max_stack),
        Instruction::Return(a, b, _) => b > 0 ==> a + b - 1 <= max_stack,
        Instruction::ForLoop(a, sbx) => a + 3 < max_stack && jump_ok(pc, sbx as int, code_len),
        Instruction::ForPrep(a, sbx) => a + 2 < max_stack && jump_ok(pc, sbx as int, code_len),
        Instruction::Closure(a, bx) => a < max_stack && bx < n_children,
        _ => true,
    }
}

/// The binding pseudo-instructions after the closure at `i` exist and
/// are well formed for the child the closure instantiates.
pub open spec fn bindings_ok_at(f: Function, i: int, bx: int) -> bool {
    let child = f.func_list@[bx];
    &&& i + child.up_values < f.instr_list@.len()
    &&& forall|j: int|
        i + 1 <= j <= i + child.up_values ==> binding_ok(
            #[trigger] f.instr_list@[j],
            f.stack as int,
            f.up_values as int,
        )
}

/// The instruction at `i` respects its operand ranges, and a closure
/// carries its binding list.
pub open spec fn code_ok_at(f: Function, i: int) -> bool {
    &&& instruction_ok(
        f.instr_list@[i],
        i,
        f.stack as int,
        f.const_list@.len() as int,
        f.func_list@.len() as int,
        f.up_values as int,
        f.instr_list@.len() as int,
    )
    &&& (f.instr_list@[i] matches Instruction::Closure(_, bx) ==> bindings_ok_at(f, i, bx as int))
}

/// Every instruction of the tree rooted at `f` respects the ranges of
/// its owning prototype.
pub open spec fn proto_ok(f: Function) -> bool
    decreases f,
{
    &&& forall|i: int| 0 <= i < f.instr_list@.len() ==> code_ok_at(f, i)
    &&& forall|k: int|
        0 <= k < f.func_list@.len() ==> proto_ok(#[trigger] f.func_list@[k])
}

fn rk_check(x: usize, max_stack: usize, n_consts: usize) -> (r: bool)
    ensures
        r == rk_ok(x, max_stack as int, n_consts as int),
{
    if x >= 256 {
        x % 256 < n_consts
    } else {
        x < max_stack
    }
}

fn jump_check(pc: usize, sbx: isize, code_len: usize) -> (r: bool)
    ensures
        r == jump_ok(pc as int, sbx as int, code_len as int),
{
    let target: i128 = pc as i128 + 1 + sbx as i128;
    0 <= target && target <= code_len as i128
}

/// Checks the operand ranges of one instruction.
fn instruction_check(
    instr: &Instruction,
    pc: usize,
    max_stack: usize,
    n_consts: usize,
    n_children: usize,
    n_ups: usize,
    code_len: usize,
) -> (r: bool)
    ensures
        r == instruction_ok(
            *instr,
            pc as int,
            max_stack as int,
            n_consts as int,
            n_children as int,
            n_ups as int,
            code_len as int,
        ),
{
    match *instr {
        Instruction::Move(a, b, _) => a < max_stack && b < max_stack,
        Instruction::LoadK(a, bx) => a < max_stack && bx < n_consts,
        Instruction::LoadBool(a, _, _) => a < max_stack,
        Instruction::LoadNil(a, b, _) => a < max_stack && (a > b || b < max_stack),
        Instruction::GetUpVal(a, b, _) => a < max_stack && b < n_ups,
        Instruction::GetGlobal(a, bx) => a < max_stack && bx < n_consts,
        Instruction::SetGlobal(a, bx) => a < max_stack && bx < n_consts,
        Instruction::Add(a, b, c) => a < max_stack && rk_check(b, max_stack, n_consts)
            && rk_check(c, max_stack, n_consts),
        Instruction::Sub(a, b, c) => a < max_stack && rk_check(b, max_stack, n_consts)
            && rk_check(c, max_stack, n_consts),
        Instruction::Mul(a, b, c) => a < max_stack && rk_check(b, max_stack, n_consts)
            && rk_check(c, max_stack, n_consts),
        Instruction::Div(a, b, c) => a < max_stack && rk_check(b, max_stack, n_consts)
            && rk_check(c, max_stack, n_consts),
        Instruction::Mod(a, b, c) => a < max_stack && rk_check(b, max_stack, n_consts)
            && rk_check(c, max_stack, n_consts),
        Instruction::Pow(a, b, c) => a < max_stack && rk_check(b, max_stack, n_consts)
            && rk_check(c, max_stack, n_consts),
        Instruction::SetUpVal(a, b, _) => a < max_stack && b < n_ups,
        Instruction::Unm(a, b, _) => a < max_stack && b < max_stack,
        Instruction::Not(a, b, _) => a < max_stack && b < max_stack,
        Instruction::Len(a, b, _) => a < max_stack && b < max_stack,
        Instruction::Jmp(_, sbx) => jump_check(pc, sbx, code_len),
        Instruction::Eq(_, b, c) => rk_check(b, max_stack, n_consts) && rk_check(
            c,
            max_stack,
            n_consts,
        ),
        Instruction::Lt(_, b, c) => rk_check(b, max_stack, n_consts) && rk_check(
            c,
            max_stack,
            n_consts,
        ),
        Instruction::Le(_, b, c) => rk_check(b, max_stack, n_consts) && rk_check(
            c,
            max_stack,
            n_consts,
        ),
        Instruction::Test(a, _, _) => a < max_stack,
        Instruction::TestSet(a, b, _) => a < max_stack && b < max_stack,
        Instruction::Call(a, b, c) => a < max_stack && (b == 0 || (b <= max_stack && a
            <= max_stack - b)) && (c == 0 || (c - 1 <= max_stack && a <= max_stack - (c - 1))),
        Instruction::TailCall(a, b, _) => a < max_stack && (b == 0 || (b <= max_stack && a
            <= max_stack - b)),
        Instruction::Return(a, b, _) => b == 0 || (b - 1 <= max_stack && a <= max_stack - (b
            - 1)),
        Instruction::ForLoop(a, sbx) => a <= usize::MAX - 3 && a + 3 < max_stack && jump_check(
            pc,
            sbx,
            code_len,
        ),
        Instruction::ForPrep(a, sbx) => a <= usize::MAX - 2 && a + 2 < max_stack && jump_check(
            pc,
            sbx,
            code_len,
        ),
        Instruction::Closure(a, bx) => a < max_stack && bx < n_children,
        _ => true,
    }
}

/// Checks every instruction of one prototype and, recursively, of its
/// nested prototypes.
pub fn validate_function(f: &Function) -> (r: bool)
    ensures
        r == proto_ok(*f),
    decreases *f,
{
    let code_len = f.instr_list.len();
    let max_stack = f.stack as usize;
    let n_consts = f.const_list.len();
    let n_children = f.func_list.len();
    let n_ups = f.up_values as usize;
    let mut i: usize = 0;
    while i < code_len
        invariant
            code_len == f.instr_list@.len(),
            max_stack == f.stack as int,
            n_consts == f.const_list@.len(),
            n_children == f.func_list@.len(),
            n_ups == f.up_values as int,
            i <= code_len,
            forall|j: int| 0 <= j < i ==> code_ok_at(*f, j),
        decreases code_len - i,
    {
        let instr = f.instr_list[i];
        if !instruction_check(&instr, i, max_stack, n_consts, n_children, n_ups, code_len) {
            proof {
                assert(!code_ok_at(*f, i as int));
                assert(!proto_ok(*f));
            }
            return false;
        }
        match instr {
            Instruction::Closure(_, bx) => {
                let nup_child = f.func_list[bx].up_values as usize;
                if code_len - i - 1 < nup_child {
                    proof {
                        assert(!bindings_ok_at(*f, i as int, bx as int));
                        assert(!code_ok_at(*f, i as int));
                        assert(!proto_ok(*f));
                    }
                    return false;
                }
                let mut j: usize = i + 1;
                while j <= i + nup_child
                    invariant
                        code_len == f.instr_list@.len(),
                        max_stack == f.stack as int,
                        n_ups == f.up_values as int,
                        bx < f.func_list@.len(),
                        nup_child == f.func_list@[bx as int].up_values,
                        i < code_len,
                        f.instr_list@[i as int] is Closure,
                        f.instr_list@[i as int]->Closure_1 == bx,
                        i + nup_child < code_len,
                        i + 1 <= j <= i + nup_child + 1,
                        forall|k: int|
                            i + 1 <= k < j ==> binding_ok(
                                #[trigger] f.instr_list@[k],
                                f.stack as int,
                                f.up_values as int,
                            ),
                    decreases i + nup_child + 1 - j,
                {
                    let binder = f.instr_list[j];
                    let ok = match binder {
                        Instruction::Move(_, rb, _) => rb < max_stack,
                        Instruction::GetUpVal(_, ub, _) => ub < n_ups,
                        _ => false,
                    };
                    if !ok {
                        proof {
                            assert(!binding_ok(
                                f.instr_list@[j as int],
                                f.stack as int,
                                f.up_values as int,
                            ));
                            assert(!bindings_ok_at(*f, i as int, bx as int));
                            assert(!code_ok_at(*f, i as int));
                            assert(!proto_ok(*f));
                        }
                        return false;
                    }
                    j = j + 1;
                }
            },
            _ => {},
        }
        i = i + 1;
    }
    let mut k: usize = 0;
    while k < n_children
        invariant
            n_children == f.func_list@.len(),
            k <= n_children,
            forall|i2: int| 0 <= i2 < f.instr_list@.len() ==> code_ok_at(*f, i2),
            forall|j: int| 0 <= j < k ==> proto_ok(#[trigger] f.func_list@[j]),
        decreases n_children - k,
    {
        proof {
            assert(decreases_to!(*f => f.func_list));
            assert(decreases_to!(f.func_list => f.func_list@));
            assert(decreases_to!(f.func_list@ => f.func_list@[k as int]));
            assert(decreases_to!(*f => f.func_list@[k as int]));
        }
        if !validate_function(&f.func_list[k]) {
            proof {
                assert(!proto_ok(f.func_list@[k as int]));
                assert(!proto_ok(*f));
            }
            return false;
        }
        k = k + 1;
    }
    true
}

} // verus!
