//! What the host does with the machine: making one, and calling a function
//! of the pool with values of its own.
use vstd::prelude::*;
use crate::arena::Arena;
use crate::error::{Fault, RuntimeError, RuntimeResult};
use crate::interop::{pop_argument, FromVM};
use crate::metadata::{types_of, Metadata};
use crate::pool::{Pool, PoolIndex};
use crate::render::FloatFormat;
use crate::semantics::{call_with_params, no_callee, Env, Outcome};
use crate::state::{same_scopes, State};
use crate::value::Value;
use crate::vm::VM;

verus! {

/// The call of the function at `idx` by the host, with `args` as its
/// arguments: they go onto the operand stack, the first lowest; then the
/// function is called with all its parameters.
pub open spec fn host_call(env: Env, s: State, idx: PoolIndex, args: Seq<Value>, budget: nat) -> Outcome {
    match env.pool.spec_function(idx) {
        None => Outcome::Fails(Fault::InvalidBytecode),
        Some(function) => if args.len() != function.parameters@.len() {
            Outcome::Fails(Fault::InvalidInteropParameters)
        } else {
            call_with_params(env, s.with_stack(s.stack + args), idx, function.parameters@, budget)
        },
    }
}

/// Whether a call of the function at `idx` with `args` is refused before
/// anything runs: there is no such function, or it takes another number of
/// arguments.
pub open spec fn refused(env: Env, idx: PoolIndex, args: Seq<Value>) -> bool {
    match env.pool.spec_function(idx) {
        None => true,
        Some(function) => args.len() != function.parameters@.len(),
    }
}

/// What a call from the host leaves where it fails before the function has
/// begun: the arena as it was where the call is refused, and the arena with
/// the arguments on the operand stack where there is nothing to call.
pub open spec fn left_untouched(env: Env, s: State, idx: PoolIndex, args: Seq<Value>, after: State) -> bool {
    &&& refused(env, idx, args) ==> after == s
    &&& !refused(env, idx, args) && no_callee(env, idx) ==> after == s.with_stack(s.stack + args)
}

/// The value on top of the operand stack, if there is one.
pub open spec fn top(s: State) -> Option<Value> {
    if s.stack.len() > 0 {
        Some(s.stack.last())
    } else {
        None
    }
}

/// The state without the value on top of the operand stack.
pub open spec fn popped(s: State) -> State {
    if s.stack.len() > 0 {
        s.drop(1)
    } else {
        s
    }
}

impl<'pool> VM<'pool> {
    /// A machine for `pool`, with an empty arena and the largest budget.
    /// There is none where the pool has a root without a name or a type
    /// that does not resolve.
    pub fn new(pool: &'pool Pool, floats: Box<dyn FloatFormat>) -> (r: Option<VM<'pool>>)
        ensures
            r.is_some() == types_of(pool).is_some(),
            r matches Some(vm) ==> vm.wf() && vm.metadata.pool == pool && vm.arena@
                == State::empty() && vm.budget == u64::MAX && vm.env().natives.dom()
                == Set::<u32>::empty(),
    {
        let metadata = match Metadata::new(pool) {
            Some(metadata) => metadata,
            None => {
                return None;
            },
        };
        let vm = VM { arena: Arena::new(), metadata, budget: u64::MAX, floats };
        proof {
            assert forall|k: u32| !(#[trigger] vm.env().natives.dom().contains(k)) by {
                let entries = vm.metadata.function_meta@;
                if crate::index_map::has_key(entries, k) {
                    vm.metadata.function_meta.lemma_wf();
                    let i = choose|i: int| 0 <= i < entries.len() && (#[trigger] entries[i]).0 == k;
                    crate::index_map::lemma_position_of(entries, k, i);
                }
            }
            assert(vm.env().natives.dom() =~= Set::<u32>::empty());
        }
        Some(vm)
    }

    /// Sets the number of instructions that may still run.
    pub fn set_budget(&mut self, budget: u64)
        ensures
            final(self).budget == budget,
            final(self).arena == old(self).arena,
            final(self).metadata == old(self).metadata,
            final(self).floats == old(self).floats,
    {
        self.budget = budget;
    }

    /// Calls the function at `idx` with `args` as its arguments. What the
    /// function gives back, if anything, is then on top of the operand
    /// stack.
    pub fn call_void(&mut self, idx: PoolIndex, args: Vec<Value>) -> (r: RuntimeResult<()>)
        requires
            old(self).wf(),
        ensures
            final(self).follows(old(self)),
            r is Ok ==> same_scopes(final(self).arena@, old(self).arena@),
            match host_call(
                old(self).env(),
                old(self).arena@,
                idx,
                args@,
                old(self).budget as nat,
            ) {
                Outcome::Unspecified => true,
                Outcome::Fails(fault) => r matches Err(e) && e@ == fault,
                Outcome::Done(step) => r is Ok && final(self).arena@ == step.state && final(
                    self
                ).budget == step.budget,
            },
            left_untouched(old(self).env(), old(self).arena@, idx, args@, final(self).arena@),
    {
        let pool = self.metadata.pool();
        let function = match pool.function(idx) {
            Some(function) => function,
            None => {
                return Err(RuntimeError::InvalidBytecode);
            },
        };
        if args.len() != function.parameters.len() {
            return Err(RuntimeError::InvalidInteropParameters);
        }
        let mut i: usize = 0;
        while i < args.len()
            invariant
                i <= args@.len(),
                self.wf(),
                self.metadata == old(self).metadata,
                self.budget == old(self).budget,
                self.arena@ == old(self).arena@.with_stack(
                    old(self).arena@.stack + args@.take(i as int),
                ),
            decreases args@.len() - i,
        {
            self.arena.push(args[i]);
            proof {
                assert(args@.take(i + 1) =~= args@.take(i as int).push(args@[i as int]));
                assert(old(self).arena@.stack + args@.take(i + 1) =~= (old(self).arena@.stack
                    + args@.take(i as int)).push(args@[i as int]));
            }
            i += 1;
        }
        proof {
            assert(args@.take(i as int) =~= args@);
        }
        self.call_with_params(idx, &function.parameters)?;
        Ok(())
    }

    /// Calls the function at `idx` with `args` as its arguments and hands
    /// what it gave back, taken off the operand stack, to `cb`.
    pub fn call_with_callback<C: Fn(Option<Value>, &VM<'pool>) -> A, A>(
        &mut self,
        idx: PoolIndex,
        args: Vec<Value>,
        cb: C,
    ) -> (r: RuntimeResult<A>)
        requires
            old(self).wf(),
            forall|value: Option<Value>, vm: &VM<'pool>| cb.requires((value, vm)),
        ensures
            final(self).follows(old(self)),
            r is Ok ==> same_scopes(final(self).arena@, old(self).arena@),
            match host_call(
                old(self).env(),
                old(self).arena@,
                idx,
                args@,
                old(self).budget as nat,
            ) {
                Outcome::Unspecified => true,
                Outcome::Fails(fault) => r matches Err(e) && e@ == fault,
                Outcome::Done(step) => r matches Ok(answer) && final(self).arena@ == popped(
                    step.state,
                ) && final(self).budget == step.budget && cb.ensures(
                    (top(step.state), final(self)),
                    answer,
                ),
            },
            left_untouched(old(self).env(), old(self).arena@, idx, args@, final(self).arena@),
    {
        self.call_void(idx, args)?;
        let value = self.arena.pop();
        Ok(cb(value, &*self))
    }

    /// Takes the value that a call gave back off the operand stack and
    /// converts it to the host type `A`.
    pub fn take_answer<A: FromVM>(&mut self) -> (r: RuntimeResult<A>)
        requires
            old(self).wf(),
        ensures
            final(self).follows(old(self)),
            final(self).budget == old(self).budget,
            answered::<A>(old(self).arena@, &old(self).env().pool, r, final(self).arena@),
    {
        pop_argument::<A>(&mut self.arena, self.metadata.pool())
    }

    /// Calls the function at `idx` with `args` as its arguments and converts
    /// what it gave back to the host type `A`.
    pub fn call<A: FromVM>(&mut self, idx: PoolIndex, args: Vec<Value>) -> (r: RuntimeResult<A>)
        requires
            old(self).wf(),
        ensures
            final(self).follows(old(self)),
            r is Ok ==> same_scopes(final(self).arena@, old(self).arena@),
            match host_call(
                old(self).env(),
                old(self).arena@,
                idx,
                args@,
                old(self).budget as nat,
            ) {
                Outcome::Unspecified => true,
                Outcome::Fails(fault) => r matches Err(e) && e@ == fault,
                Outcome::Done(step) => answered::<A>(
                    step.state,
                    &old(self).env().pool,
                    r,
                    final(self).arena@,
                ),
            },
            left_untouched(old(self).env(), old(self).arena@, idx, args@, final(self).arena@),
    {
        self.call_void(idx, args)?;
        self.take_answer::<A>()
    }
}

/// Whether `r` is the value that lay on top of the operand stack of `s`,
/// converted to the host type `A`, and `after` is `s` without that value.
/// There is no value where the stack is empty, and none where the value is
/// not one of that type: the error then says what the type refuses, and
/// the arena is as it was.
pub open spec fn answered<A: FromVM>(s: State, pool: &Pool, r: RuntimeResult<A>, after: State) -> bool {
    match top(s) {
        None => r matches Err(e) && e is InvalidBytecode && after == s,
        Some(value) => match A::taken_out(value, s, pool) {
            Some(answer) => r matches Ok(x) && x@ == answer && after == popped(s),
            None => r matches Err(e) && e@ == Fault::InvalidArgument(A::refusal(value, s, pool))
                && after == s,
        },
    }
}

} // verus!
