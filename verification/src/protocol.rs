//! How a call begins and ends: the arguments become locals, the locals get
//! their default values, and on the way out the operand stack is cut back
//! to where the call found it.
use vstd::prelude::*;
use crate::arena::{resize, resized, Arena};
use crate::array::agrees;
use crate::defaults::{fill, fill_defaults};
use crate::error::{Fault, RuntimeError, RuntimeResult};
use crate::index_map::{stored, IndexMap};
use crate::metadata::{Metadata, TypeId};
use crate::pool::{Pool, PoolIndex};
use crate::state::State;
use crate::value::Value;

verus! {

/// The locals that the last `k` of `params` make when they are bound to the
/// `k` topmost operands, the last parameter to the topmost operand.
pub open spec fn bound(params: Seq<PoolIndex>, stack: Seq<Value>, k: int) -> Seq<(u32, Value)>
    decreases k,
{
    if k <= 0 || k > params.len() || k > stack.len() {
        Seq::empty()
    } else {
        stored(bound(params, stack, k - 1), params[params.len() - k].0, stack[stack.len() - k])
    }
}

impl State {
    /// The beginning of a call: the topmost operands become the locals
    /// named by `params`, the locals named by `locals` get the default
    /// values of their types, and all of them become the locals of the
    /// innermost call.
    pub open spec fn enter(
        self,
        types: Seq<(u32, TypeId)>,
        pool: &Pool,
        params: Seq<PoolIndex>,
        locals: Seq<PoolIndex>,
    ) -> Result<State, Fault> {
        if self.stack.len() < params.len() {
            Err(Fault::InvalidBytecode)
        } else {
            match fill_defaults(
                types,
                pool,
                self.drop(params.len() as int),
                bound(params, self.stack, params.len() as int),
                locals,
                locals.len() as int,
                pool.definitions.len() as nat,
                true,
            ) {
                Err(fault) => Err(fault),
                Ok((filled, table)) => Ok(State { frames: filled.frames.push(table), ..filled }),
            }
        }
    }

    /// The state without the locals of the innermost call.
    pub open spec fn without_locals(self) -> State {
        if self.frames.len() > 0 {
            State { frames: self.frames.drop_last(), ..self }
        } else {
            self
        }
    }

    /// The end of a call that found the operand stack at depth `sp`: the
    /// stack is cut back or filled up to that depth, and the value that the
    /// call gives back, which was on top, is on top of it again. The locals of
    /// the call are gone.
    pub open spec fn exit(self, sp: int, returning: bool) -> Result<State, Fault> {
        if returning {
            if self.stack.len() < 1 {
                Err(Fault::InvalidBytecode)
            } else {
                Ok(
                    self.with_stack(
                        resized(self.stack.drop_last(), sp).push(self.stack.last()),
                    ).without_locals(),
                )
            }
        } else {
            Ok(self.with_stack(resized(self.stack, sp)).without_locals())
        }
    }
}

/// After a call has ended, the operand stack is as deep as the call found
/// it, and one deeper where the call returns a value.
pub proof fn lemma_exit_depth(s: State, sp: int, returning: bool)
    requires
        0 <= sp,
        s.exit(sp, returning) is Ok,
    ensures
        s.exit(sp, returning)->Ok_0.stack.len() == sp + (if returning {
            1int
        } else {
            0int
        }),
        s.exit(sp, returning)->Ok_0.contexts == s.contexts,
        s.exit(sp, returning)->Ok_0.cells == s.cells,
{
}

impl Arena {
    /// Binds the topmost operands to `params`.
    fn bind(&mut self, params: &Vec<PoolIndex>, table: &mut IndexMap<Value>)
        requires
            old(self).wf(),
            old(table).wf(),
            old(table)@.len() == 0,
            params@.len() <= old(self)@.stack.len(),
        ensures
            final(self).wf(),
            final(table).wf(),
            final(self)@ == old(self)@.drop(params@.len() as int),
            final(table)@ == bound(params@, old(self)@.stack, params@.len() as int),
    {
        let n = params.len();
        assert(table@ =~= Seq::empty());
        let mut k: usize = 0;
        while k < n
            invariant
                k <= n,
                n == params@.len(),
                n <= self@.stack.len(),
                *self == *old(self),
                table.wf(),
                table@ == bound(params@, self@.stack, k as int),
            decreases n - k,
        {
            let value = self.peek(k);
            table.put(params[n - 1 - k], value);
            k += 1;
        }
        self.drop_operands(n);
    }

    /// The end of a call.
    pub fn exit(&mut self, sp: usize, returning: bool) -> (r: RuntimeResult<()>)
        requires
            old(self).wf(),
        ensures
            final(self).wf(),
            agrees(r, final(self)@, old(self)@.exit(sp as int, returning)),
    {
        if returning {
            let val = match self.root.stack.pop() {
                Some(val) => val,
                None => {
                    return Err(RuntimeError::InvalidBytecode);
                },
            };
            resize(&mut self.root.stack, sp);
            self.root.stack.push(val);
        } else {
            resize(&mut self.root.stack, sp);
        }
        self.root.frames.pop();
        proof {
            assert(self@.frames =~= old(self)@.without_locals().frames);
        }
        Ok(())
    }
}

/// The beginning of a call.
pub fn enter(arena: &mut Arena, meta: &Metadata, params: &Vec<PoolIndex>, locals: &Vec<PoolIndex>) -> (r:
    RuntimeResult<()>)
    requires
        old(arena).wf(),
        meta.wf(),
    ensures
        final(arena).wf(),
        agrees(r, final(arena)@, old(arena)@.enter(meta.types@, meta.pool, params@, locals@)),
        r is Ok ==> old(arena)@.stack.len() >= params@.len() && final(arena)@.stack == old(
            arena,
        )@.drop(params@.len() as int).stack,
        r is Ok ==> final(arena)@.frames.len() == old(arena)@.frames.len() + 1,
        r is Ok ==> final(arena)@.contexts == old(arena)@.contexts,
{
    if arena.stack_len() < params.len() {
        return Err(RuntimeError::InvalidBytecode);
    }
    let room = if locals.len() <= usize::MAX - params.len() {
        locals.len() + params.len()
    } else {
        usize::MAX
    };
    let mut table: IndexMap<Value> = IndexMap::with_capacity(room);
    arena.bind(params, &mut table);
    fill(&mut table, locals, arena, meta, meta.pool().definition_count(), true)?;
    arena.root.frames.push(table);
    proof {
        let filled = fill_defaults(
            meta.types@,
            meta.pool,
            old(arena)@.drop(params@.len() as int),
            bound(params@, old(arena)@.stack, params@.len() as int),
            locals@,
            locals@.len() as int,
            meta.pool.definitions.len() as nat,
            true,
        )->Ok_0;
        assert(arena@.frames =~= filled.0.frames.push(filled.1));
        assert forall|i: int| 0 <= i < arena.root.frames@.len() implies (
        #[trigger] arena.root.frames@[i]).wf() by {}
    }
    Ok(())
}

} // verus!
