//! What holds of the instructions whatever the program: how deep they leave
//! the operand stack, and what the array instructions do to the length of
//! an array.
use vstd::prelude::*;
use crate::array::array_handle;
use crate::frame::instr_at;
use crate::pool::Instr;
use crate::semantics::{
    apply, apply_array, apply_constant, exec, operand_count, operands, plain, precheck, step, Env,
    Outcome,
};
use crate::state::{array_at, State};

verus! {

/// The number of values that a plain instruction leaves on the operand
/// stack in place of its operands.
pub open spec fn result_count(instr: Instr) -> nat {
    match instr {
        Instr::Nop
        | Instr::SwitchLabel(_, _)
        | Instr::SwitchDefault
        | Instr::ParamEnd
        | Instr::WeakRefToRef
        | Instr::RefToWeakRef
        | Instr::ArrayClear(_)
        | Instr::ArrayResize(_)
        | Instr::ArrayGrow(_)
        | Instr::ArrayPush(_)
        | Instr::ArrayInsert(_) => 0,
        _ => 1,
    }
}

/// An instruction that pushes a constant leaves the stack one deeper, and
/// one that does nothing leaves it as it is.
pub proof fn lemma_constant_depth(env: Env, instr: Instr, s: State)
    requires
        apply_constant(env, instr, s) matches Some(Ok(_)),
    ensures
        apply_constant(env, instr, s)->Some_0->Ok_0.stack.len() == s.stack.len() - operand_count(
            instr,
        ) + result_count(instr),
{
}

/// An array instruction takes its operands off the stack and leaves its
/// result, where it has one.
pub proof fn lemma_array_depth(env: Env, instr: Instr, s: State)
    requires
        apply_array(env, instr, s) matches Some(Ok(_)),
    ensures
        apply_array(env, instr, s)->Some_0->Ok_0.stack.len() == s.stack.len() - operand_count(
            instr,
        ) + result_count(instr),
{
    match instr {
        Instr::ArrayClear(_)
        | Instr::ArraySize(_)
        | Instr::ArrayResize(_)
        | Instr::ArrayGrow(_)
        | Instr::ArrayFindFirst(_)
        | Instr::ArrayFindFirstFast(_)
        | Instr::ArrayFindLast(_)
        | Instr::ArrayFindLastFast(_)
        | Instr::ArrayContains(_)
        | Instr::ArrayContainsFast(_)
        | Instr::ArrayCount(_)
        | Instr::ArrayCountFast(_)
        | Instr::ArrayPush(_)
        | Instr::ArrayPop(_)
        | Instr::ArrayInsert(_)
        | Instr::ArrayRemove(_)
        | Instr::ArrayRemoveFast(_)
        | Instr::ArrayErase(_)
        | Instr::ArrayEraseFast(_)
        | Instr::ArrayLast(_)
        | Instr::ArrayElement(_) => {},
        _ => {
            lemma_constant_depth(env, instr, s);
        },
    }
}

/// Every plain instruction changes the depth of the operand stack by the
/// number of its results less the number of its operands.
pub proof fn lemma_plain_depth(env: Env, instr: Instr, s: State, pin: bool)
    requires
        apply(env, instr, s, pin) matches Some(Ok(_)),
    ensures
        apply(env, instr, s, pin)->Some_0->Ok_0.stack.len() == s.stack.len() - operand_count(
            instr,
        ) + result_count(instr),
{
    match instr {
        Instr::New(class) => {
            crate::defaults::lemma_instance_keeps_stacks(
                env.types,
                &env.pool,
                s,
                Seq::empty(),
                class,
                env.pool.definitions.len() as nat,
            );
        },
        Instr::Construct(n, _) => {
            assert(n as int <= s.stack.len());
        },
        Instr::Local(_)
        | Instr::Param(_)
        | Instr::ObjectField(_)
        | Instr::StructField(_)
        | Instr::Equals(_)
        | Instr::NotEquals(_)
        | Instr::This
        | Instr::RefToBool
        | Instr::WeakRefToBool
        | Instr::EnumToI32(_, _)
        | Instr::I32ToEnum(_, _)
        | Instr::DynamicCast(_, _)
        | Instr::ToString(_)
        | Instr::VariantToString
        | Instr::FromVariant(_)
        | Instr::VariantIsDefined
        | Instr::VariantIsRef
        | Instr::VariantIsArray
        | Instr::AsRef(_)
        | Instr::Deref(_) => {},
        _ => {
            lemma_array_depth(env, instr, s);
        },
    }
}

/// Whether an instruction is a plain one: it runs its operands and then
/// does its work on the arena.
pub open spec fn is_plain(instr: Instr) -> bool {
    match instr {
        Instr::Return
        | Instr::Assign
        | Instr::Switch(_, _)
        | Instr::Jump(_)
        | Instr::JumpIfFalse(_)
        | Instr::Conditional(_, _)
        | Instr::InvokeStatic(_, _, _, _)
        | Instr::InvokeVirtual(_, _, _, _)
        | Instr::Context(_) => false,
        _ => true,
    }
}

/// A plain instruction without operands that runs takes one from the
/// budget and leaves the operand stack deeper by the number of its results:
/// a constant by one.
pub proof fn lemma_single_depth(
    env: Env,
    s: State,
    code: Seq<(u16, Instr)>,
    ip: int,
    pin: bool,
    budget: nat,
)
    requires
        instr_at(code, ip) matches Some(instr) && is_plain(instr) && operand_count(instr) == 0,
        exec(env, s, code, ip, pin, budget) is Done,
    ensures
        budget > 0,
        exec(env, s, code, ip, pin, budget)->Done_0.budget == budget - 1,
        exec(env, s, code, ip, pin, budget)->Done_0.state.stack.len() == s.stack.len()
            + result_count(instr_at(code, ip)->Some_0),
{
    let instr = instr_at(code, ip)->Some_0;
    let left = (budget - 1) as nat;
    let next = crate::frame::advanced(code, ip, 1);
    assert(step(env, s, code, ip, instr, pin, left) == plain(env, s, code, next, instr, pin, left));
    assert(operands(env, s, code, next, 0, left) is Done);
    assert(precheck(env, instr) is None);
    assert(apply(env, instr, s, pin) matches Some(Ok(_)));
    lemma_plain_depth(env, instr, s, pin);
}

/// After `ArrayResize` the array is as long as was asked for.
pub proof fn lemma_resize_length(s: State)
    requires
        s.array_resize() is Ok,
        s.cells.len() <= usize::MAX,
    ensures
        ({
            let h = array_handle(s.cells, s.peek(1))->Some_0;
            array_at(s.array_resize()->Ok_0.cells, h) matches Some(items) && Ok::<
                usize,
                crate::error::Fault,
            >(items.len() as usize) == s.wanted_length(s.peek(0))
        }),
{
}

/// After `ArrayPush` the array is longer by one, and its last item is the
/// value that was pushed.
pub proof fn lemma_push_length(s: State)
    requires
        s.array_push() is Ok,
    ensures
        ({
            let h = array_handle(s.cells, s.peek(1))->Some_0;
            array_at(s.array_push()->Ok_0.cells, h) matches Some(items) && items.len() == array_at(
                s.cells,
                h,
            )->Some_0.len() + 1 && items.last() == s.peek(0)
        }),
{
}

/// After `ArrayPop` the array is shorter by one, and the item that left it
/// is on top of the stack.
pub proof fn lemma_pop_length(s: State)
    requires
        s.array_pop() is Ok,
    ensures
        ({
            let h = array_handle(s.cells, s.peek(0))->Some_0;
            let before = array_at(s.cells, h)->Some_0;
            let after = s.array_pop()->Ok_0;
            array_at(after.cells, h) matches Some(items) && items.len() == before.len() - 1
                && after.stack.len() > 0 && after.peek(0) == before.last()
        }),
{
}

/// After `ArraySize` the length of the array is on top of the stack, as far
/// as it is a 32-bit number.
pub proof fn lemma_size(s: State)
    requires
        s.array_size() is Ok,
    ensures
        ({
            let h = array_handle(s.cells, s.peek(0))->Some_0;
            let after = s.array_size()->Ok_0;
            after.stack.len() > 0 && after.peek(0) == crate::value::Value::I32(
                array_at(s.cells, h)->Some_0.len() as i32,
            )
        }),
{
}

} // verus!
