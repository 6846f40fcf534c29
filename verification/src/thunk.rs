//! Host functions of up to four arguments in the form in which the machine
//! calls them. The arguments are taken from the operand stack, the last one
//! from the top, and converted to the types that the function declares.
use vstd::prelude::*;
use std::marker::PhantomData;
use crate::arena::Arena;
use crate::error::{Fault, RuntimeError, RuntimeResult};
use crate::interop::{
    pop_argument, FromVM, IntoVM, IntoVMFunction, NativeFunction, Ret, RetOut, VMFunction,
};
use crate::pool::Pool;
use crate::state::{pinned_at, CellView, State};
use crate::value::{Handle, Value};
use vstd::string::StringExecFns;

verus! {

/// The state after the result of a function that assigns to its first
/// argument was handed over, and the value that the call returns: the
/// assigned value goes into the reference cell `cell` first, then the
/// returned value is converted.
pub open spec fn assigned<R: IntoVM, A: IntoVM>(s: State, cell: Handle, ret: R::V, out: A::V) -> (
    State,
    Value,
) {
    let (s1, out_value) = A::handed_over(out, s);
    R::handed_over(ret, s1.with_cell(cell, CellView::Pinned(out_value)))
}

/// The reference cell that `v` is, where it is one whose cell is there.
pub open spec fn pinned_cell(cells: Seq<CellView>, v: Value) -> Option<Handle> {
    match v {
        Value::Pinned(cell) => if pinned_at(cells, cell) is Some {
            Some(cell)
        } else {
            None
        },
        _ => None,
    }
}

/// Stores what a function assigns to its first argument in the reference
/// cell of that argument, and converts what the function returns.
pub fn finish_out<R: IntoVM, A: IntoVM>(arena: &mut Arena, cell: Handle, result: RetOut<R, A>) -> (r:
    Value)
    requires
        old(arena).wf(),
        pinned_at(old(arena)@.cells, cell) is Some,
    ensures
        final(arena).wf(),
        (final(arena)@, r) == assigned::<R, A>(old(arena)@, cell, result.0@, result.1@),
        final(arena)@.frames == old(arena)@.frames,
        final(arena)@.contexts == old(arena)@.contexts,
        final(arena)@.stack == old(arena)@.stack,
{
    let RetOut(ret, out) = result;
    let out_value = out.into_vm(arena);
    let ghost s1 = arena@;
    assert(s1.cells[cell.0 as int] == old(arena)@.cells[cell.0 as int]);
    arena.set_pinned(cell, out_value);
    ret.into_vm(arena)
}

/// What is said of a first argument of an assigning function that is no
/// reference cell.
pub const NO_CELL: &'static str = "expected a pinned value for out parameter";

/// The reference cell that the first argument of an assigning function
/// lies in.
pub fn out_cell(arena: &Arena, val: Value) -> (r: RuntimeResult<Handle>)
    ensures
        match r {
            Ok(h) => val == Value::Pinned(h) && pinned_at(arena@.cells, h) is Some,
            Err(e) => e@ == Fault::InvalidArgument(NO_CELL@) && !(val matches Value::Pinned(h)
                && pinned_at(arena@.cells, h) is Some),
        },
{
    match val {
        Value::Pinned(h) => if arena.pinned(h).is_some() {
            Ok(h)
        } else {
            Err(RuntimeError::InvalidArgument(String::from_str(NO_CELL)))
        },
        _ => Err(RuntimeError::InvalidArgument(String::from_str(NO_CELL))),
    }
}

/// Converts an operand that was taken from the stack to the host type `A`.
pub fn convert_argument<A: FromVM>(arena: &Arena, pool: &Pool, val: Value) -> (r: RuntimeResult<A>)
    ensures
        match r {
            Ok(x) => A::taken_out(val, arena@, pool) == Some(x@),
            Err(e) => A::taken_out(val, arena@, pool) is None && e@ == Fault::InvalidArgument(
                A::refusal(val, arena@, pool),
            ),
        },
{
    match A::from_vm(val, arena, pool) {
        Ok(x) => Ok(x),
        Err(message) => Err(RuntimeError::InvalidArgument(message.to_owned())),
    }
}

/// Takes the topmost operand as it is.
pub fn pop_operand(arena: &mut Arena) -> (r: RuntimeResult<Value>)
    requires
        old(arena).wf(),
    ensures
        final(arena).wf(),
        match r {
            Ok(v) => old(arena)@.stack.len() > 0 && v == old(arena)@.peek(0) && final(arena)@
                == old(arena)@.drop(1),
            Err(e) => e is InvalidBytecode && old(arena)@.stack.len() == 0 && final(arena)@ == old(
                arena,
            )@,
        },
{
    match arena.pop() {
        Some(v) => Ok(v),
        None => Err(RuntimeError::InvalidBytecode),
    }
}

/// What a call does to the arena and what it gives back, as far as
/// that shows in the arena: the arguments come off the operand stack, the last one
/// from the top. The call fails where an argument is missing or is not of
/// the type that the function takes.
pub open spec fn procedure0_effect(s: State, pool: &Pool) -> Option<
    Result<(State, Option<Value>), Fault>,
> {
    let after = s.drop(0);
    Some(Ok((after, None)))
}

/// A host function of 0 arguments that returns nothing.
pub struct Procedure0<F> {
    pub function: F,
    pub marker: PhantomData<()>,
}

impl<
    F: Fn(),
> NativeFunction for Procedure0<F> {
    open spec fn callable(&self) -> bool {
        (self.function.requires(()))
    }

    open spec fn arity(&self) -> nat {
        0
    }

    open spec fn effect(&self, s: State, pool: &Pool) -> Option<
        Result<(State, Option<Value>), Fault>,
    > {
        procedure0_effect(s, pool)
    }

    fn call(&self, arena: &mut Arena, pool: &Pool) -> (r: RuntimeResult<Option<Value>>) {
        assert(arena@.stack =~= old(arena)@.drop(0).stack);
        assert(arena@ == old(arena)@.drop(0));
        (self.function)();
        Ok(None)
    }
}

/// The function `function` in the form in which the machine calls it.
pub fn procedure0<
    F: Fn() + 'static,
>(function: F) -> (r: VMFunction)
    requires
        call_requires(function, ()),
    ensures
        r.callable(),
        r.arity() == 0,
        forall|s: State, pool: &Pool| #[trigger]
            r.effect(s, pool) == procedure0_effect(s, pool),
{
    let thunk = Procedure0 { function, marker: PhantomData };
    assert(thunk.callable());
    VMFunction { function: Box::new(thunk) }
}

impl<
    F: Fn() + 'static,
> IntoVMFunction<(), ()> for F {
    open spec fn total(&self) -> bool {
        self.requires(())
    }

    open spec fn operands(&self) -> nat {
        0
    }

    open spec fn promised(&self, s: State, pool: &Pool) -> Option<
        Result<(State, Option<Value>), Fault>,
    > {
        procedure0_effect(s, pool)
    }

    fn into_vm_function(self) -> (r: VMFunction) {
        procedure0(self)
    }
}

/// What a call does to the arena and what it gives back, as far as
/// that shows in the arena: the arguments come off the operand stack, the last one
/// from the top. The call fails where an argument is missing or is not of
/// the type that the function takes.
pub open spec fn procedure1_effect<
    A: FromVM,
>(s: State, pool: &Pool) -> Option<
    Result<(State, Option<Value>), Fault>,
> {
    let after = s.drop(1);
    let av = A::taken_out(s.peek(0), s, pool);
    if s.stack.len() < 1 {
        Some(Err(Fault::InvalidBytecode))
    } else if av is None {
        Some(Err(Fault::InvalidArgument(A::refusal(s.peek(0), s, pool))))
    } else {
        Some(Ok((after, None)))
    }
}

/// A host function of 1 argument that returns nothing.
pub struct Procedure1<A: FromVM, F> {
    pub function: F,
    pub marker: PhantomData<(A, )>,
}

impl<
    A: FromVM,
    F: Fn(A),
> NativeFunction for Procedure1<A, F> {
    open spec fn callable(&self) -> bool {
        (forall|a: A| self.function.requires((a, )))
    }

    open spec fn arity(&self) -> nat {
        1
    }

    open spec fn effect(&self, s: State, pool: &Pool) -> Option<
        Result<(State, Option<Value>), Fault>,
    > {
        procedure1_effect::<A>(s, pool)
    }

    fn call(&self, arena: &mut Arena, pool: &Pool) -> (r: RuntimeResult<Option<Value>>) {
        let a = pop_argument::<A>(arena, pool)?;
        assert(arena@.stack =~= old(arena)@.drop(1).stack);
        assert(arena@ == old(arena)@.drop(1));
        (self.function)(a);
        Ok(None)
    }
}

/// The function `function` in the form in which the machine calls it.
pub fn procedure1<
    A: FromVM + 'static,
    F: Fn(A) + 'static,
>(function: F) -> (r: VMFunction)
    requires
        forall|a: A| call_requires(function, (a, )),
    ensures
        r.callable(),
        r.arity() == 1,
        forall|s: State, pool: &Pool| #[trigger]
            r.effect(s, pool) == procedure1_effect::<A>(s, pool),
{
    let thunk = Procedure1 { function, marker: PhantomData };
    assert(thunk.callable());
    VMFunction { function: Box::new(thunk) }
}

impl<
    A: FromVM + 'static,
    F: Fn(A) + 'static,
> IntoVMFunction<(A, ), ()> for F {
    open spec fn total(&self) -> bool {
        forall|a: A| self.requires((a, ))
    }

    open spec fn operands(&self) -> nat {
        1
    }

    open spec fn promised(&self, s: State, pool: &Pool) -> Option<
        Result<(State, Option<Value>), Fault>,
    > {
        procedure1_effect::<A>(s, pool)
    }

    fn into_vm_function(self) -> (r: VMFunction) {
        procedure1(self)
    }
}

/// What a call does to the arena and what it gives back, as far as
/// that shows in the arena: the arguments come off the operand stack, the last one
/// from the top. The call fails where an argument is missing or is not of
/// the type that the function takes.
pub open spec fn procedure2_effect<
    A: FromVM,
    B: FromVM,
>(s: State, pool: &Pool) -> Option<
    Result<(State, Option<Value>), Fault>,
> {
    let after = s.drop(2);
    let bv = B::taken_out(s.peek(0), s, pool);
    let av = A::taken_out(s.peek(1), s.drop(1), pool);
    if s.stack.len() < 1 {
        Some(Err(Fault::InvalidBytecode))
    } else if bv is None {
        Some(Err(Fault::InvalidArgument(B::refusal(s.peek(0), s, pool))))
    } else if s.stack.len() < 2 {
        Some(Err(Fault::InvalidBytecode))
    } else if av is None {
        Some(Err(Fault::InvalidArgument(A::refusal(s.peek(1), s.drop(1), pool))))
    } else {
        Some(Ok((after, None)))
    }
}

/// A host function of 2 arguments that returns nothing.
pub struct Procedure2<A: FromVM, B: FromVM, F> {
    pub function: F,
    pub marker: PhantomData<(A, B, )>,
}

impl<
    A: FromVM,
    B: FromVM,
    F: Fn(A, B),
> NativeFunction for Procedure2<A, B, F> {
    open spec fn callable(&self) -> bool {
        (forall|a: A, b: B| self.function.requires((a, b, )))
    }

    open spec fn arity(&self) -> nat {
        2
    }

    open spec fn effect(&self, s: State, pool: &Pool) -> Option<
        Result<(State, Option<Value>), Fault>,
    > {
        procedure2_effect::<A, B>(s, pool)
    }

    fn call(&self, arena: &mut Arena, pool: &Pool) -> (r: RuntimeResult<Option<Value>>) {
        let b = pop_argument::<B>(arena, pool)?;
        let a = pop_argument::<A>(arena, pool)?;
        assert(arena@.stack =~= old(arena)@.drop(2).stack);
        assert(arena@ == old(arena)@.drop(2));
        (self.function)(a, b);
        Ok(None)
    }
}

/// The function `function` in the form in which the machine calls it.
pub fn procedure2<
    A: FromVM + 'static,
    B: FromVM + 'static,
    F: Fn(A, B) + 'static,
>(function: F) -> (r: VMFunction)
    requires
        forall|a: A, b: B| call_requires(function, (a, b, )),
    ensures
        r.callable(),
        r.arity() == 2,
        forall|s: State, pool: &Pool| #[trigger]
            r.effect(s, pool) == procedure2_effect::<A, B>(s, pool),
{
    let thunk = Procedure2 { function, marker: PhantomData };
    assert(thunk.callable());
    VMFunction { function: Box::new(thunk) }
}

impl<
    A: FromVM + 'static,
    B: FromVM + 'static,
    F: Fn(A, B) + 'static,
> IntoVMFunction<(A, B, ), ()> for F {
    open spec fn total(&self) -> bool {
        forall|a: A, b: B| self.requires((a, b, ))
    }

    open spec fn operands(&self) -> nat {
        2
    }

    open spec fn promised(&self, s: State, pool: &Pool) -> Option<
        Result<(State, Option<Value>), Fault>,
    > {
        procedure2_effect::<A, B>(s, pool)
    }

    fn into_vm_function(self) -> (r: VMFunction) {
        procedure2(self)
    }
}

/// What a call does to the arena and what it gives back, as far as
/// that shows in the arena: the arguments come off the operand stack, the last one
/// from the top. The call fails where an argument is missing or is not of
/// the type that the function takes.
pub open spec fn procedure3_effect<
    A: FromVM,
    B: FromVM,
    C: FromVM,
>(s: State, pool: &Pool) -> Option<
    Result<(State, Option<Value>), Fault>,
> {
    let after = s.drop(3);
    let cv = C::taken_out(s.peek(0), s, pool);
    let bv = B::taken_out(s.peek(1), s.drop(1), pool);
    let av = A::taken_out(s.peek(2), s.drop(2), pool);
    if s.stack.len() < 1 {
        Some(Err(Fault::InvalidBytecode))
    } else if cv is None {
        Some(Err(Fault::InvalidArgument(C::refusal(s.peek(0), s, pool))))
    } else if s.stack.len() < 2 {
        Some(Err(Fault::InvalidBytecode))
    } else if bv is None {
        Some(Err(Fault::InvalidArgument(B::refusal(s.peek(1), s.drop(1), pool))))
    } else if s.stack.len() < 3 {
        Some(Err(Fault::InvalidBytecode))
    } else if av is None {
        Some(Err(Fault::InvalidArgument(A::refusal(s.peek(2), s.drop(2), pool))))
    } else {
        Some(Ok((after, None)))
    }
}

/// A host function of 3 arguments that returns nothing.
pub struct Procedure3<A: FromVM, B: FromVM, C: FromVM, F> {
    pub function: F,
    pub marker: PhantomData<(A, B, C, )>,
}

impl<
    A: FromVM,
    B: FromVM,
    C: FromVM,
    F: Fn(A, B, C),
> NativeFunction for Procedure3<A, B, C, F> {
    open spec fn callable(&self) -> bool {
        (forall|a: A, b: B, c: C| self.function.requires((a, b, c, )))
    }

    open spec fn arity(&self) -> nat {
        3
    }

    open spec fn effect(&self, s: State, pool: &Pool) -> Option<
        Result<(State, Option<Value>), Fault>,
    > {
        procedure3_effect::<A, B, C>(s, pool)
    }

    fn call(&self, arena: &mut Arena, pool: &Pool) -> (r: RuntimeResult<Option<Value>>) {
        let c = pop_argument::<C>(arena, pool)?;
        let b = pop_argument::<B>(arena, pool)?;
        assert(arena@.stack =~= old(arena)@.drop(2).stack);
        assert(arena@ == old(arena)@.drop(2));
        let a = pop_argument::<A>(arena, pool)?;
        assert(arena@.stack =~= old(arena)@.drop(3).stack);
        assert(arena@ == old(arena)@.drop(3));
        (self.function)(a, b, c);
        Ok(None)
    }
}

/// The function `function` in the form in which the machine calls it.
pub fn procedure3<
    A: FromVM + 'static,
    B: FromVM + 'static,
    C: FromVM + 'static,
    F: Fn(A, B, C) + 'static,
>(function: F) -> (r: VMFunction)
    requires
        forall|a: A, b: B, c: C| call_requires(function, (a, b, c, )),
    ensures
        r.callable(),
        r.arity() == 3,
        forall|s: State, pool: &Pool| #[trigger]
            r.effect(s, pool) == procedure3_effect::<A, B, C>(s, pool),
{
    let thunk = Procedure3 { function, marker: PhantomData };
    assert(thunk.callable());
    VMFunction { function: Box::new(thunk) }
}

impl<
    A: FromVM + 'static,
    B: FromVM + 'static,
    C: FromVM + 'static,
    F: Fn(A, B, C) + 'static,
> IntoVMFunction<(A, B, C, ), ()> for F {
    open spec fn total(&self) -> bool {
        forall|a: A, b: B, c: C| self.requires((a, b, c, ))
    }

    open spec fn operands(&self) -> nat {
        3
    }

    open spec fn promised(&self, s: State, pool: &Pool) -> Option<
        Result<(State, Option<Value>), Fault>,
    > {
        procedure3_effect::<A, B, C>(s, pool)
    }

    fn into_vm_function(self) -> (r: VMFunction) {
        procedure3(self)
    }
}

/// What a call does to the arena and what it gives back, as far as
/// that shows in the arena: the arguments come off the operand stack, the last one
/// from the top. The call fails where an argument is missing or is not of
/// the type that the function takes.
pub open spec fn procedure4_effect<
    A: FromVM,
    B: FromVM,
    C: FromVM,
    D: FromVM,
>(s: State, pool: &Pool) -> Option<
    Result<(State, Option<Value>), Fault>,
> {
    let after = s.drop(4);
    let dv = D::taken_out(s.peek(0), s, pool);
    let cv = C::taken_out(s.peek(1), s.drop(1), pool);
    let bv = B::taken_out(s.peek(2), s.drop(2), pool);
    let av = A::taken_out(s.peek(3), s.drop(3), pool);
    if s.stack.len() < 1 {
        Some(Err(Fault::InvalidBytecode))
    } else if dv is None {
        Some(Err(Fault::InvalidArgument(D::refusal(s.peek(0), s, pool))))
    } else if s.stack.len() < 2 {
        Some(Err(Fault::InvalidBytecode))
    } else if cv is None {
        Some(Err(Fault::InvalidArgument(C::refusal(s.peek(1), s.drop(1), pool))))
    } else if s.stack.len() < 3 {
        Some(Err(Fault::InvalidBytecode))
    } else if bv is None {
        Some(Err(Fault::InvalidArgument(B::refusal(s.peek(2), s.drop(2), pool))))
    } else if s.stack.len() < 4 {
        Some(Err(Fault::InvalidBytecode))
    } else if av is None {
        Some(Err(Fault::InvalidArgument(A::refusal(s.peek(3), s.drop(3), pool))))
    } else {
        Some(Ok((after, None)))
    }
}

/// A host function of 4 arguments that returns nothing.
pub struct Procedure4<A: FromVM, B: FromVM, C: FromVM, D: FromVM, F> {
    pub function: F,
    pub marker: PhantomData<(A, B, C, D, )>,
}

impl<
    A: FromVM,
    B: FromVM,
    C: FromVM,
    D: FromVM,
    F: Fn(A, B, C, D),
> NativeFunction for Procedure4<A, B, C, D, F> {
    open spec fn callable(&self) -> bool {
        (forall|a: A, b: B, c: C, d: D| self.function.requires((a, b, c, d, )))
    }

    open spec fn arity(&self) -> nat {
        4
    }

    open spec fn effect(&self, s: State, pool: &Pool) -> Option<
        Result<(State, Option<Value>), Fault>,
    > {
        procedure4_effect::<A, B, C, D>(s, pool)
    }

    fn call(&self, arena: &mut Arena, pool: &Pool) -> (r: RuntimeResult<Option<Value>>) {
        let d = pop_argument::<D>(arena, pool)?;
        let c = pop_argument::<C>(arena, pool)?;
        assert(arena@.stack =~= old(arena)@.drop(2).stack);
        assert(arena@ == old(arena)@.drop(2));
        let b = pop_argument::<B>(arena, pool)?;
        assert(arena@.stack =~= old(arena)@.drop(3).stack);
        assert(arena@ == old(arena)@.drop(3));
        let a = pop_argument::<A>(arena, pool)?;
        assert(arena@.stack =~= old(arena)@.drop(4).stack);
        assert(arena@ == old(arena)@.drop(4));
        (self.function)(a, b, c, d);
        Ok(None)
    }
}

/// The function `function` in the form in which the machine calls it.
pub fn procedure4<
    A: FromVM + 'static,
    B: FromVM + 'static,
    C: FromVM + 'static,
    D: FromVM + 'static,
    F: Fn(A, B, C, D) + 'static,
>(function: F) -> (r: VMFunction)
    requires
        forall|a: A, b: B, c: C, d: D| call_requires(function, (a, b, c, d, )),
    ensures
        r.callable(),
        r.arity() == 4,
        forall|s: State, pool: &Pool| #[trigger]
            r.effect(s, pool) == procedure4_effect::<A, B, C, D>(s, pool),
{
    let thunk = Procedure4 { function, marker: PhantomData };
    assert(thunk.callable());
    VMFunction { function: Box::new(thunk) }
}

impl<
    A: FromVM + 'static,
    B: FromVM + 'static,
    C: FromVM + 'static,
    D: FromVM + 'static,
    F: Fn(A, B, C, D) + 'static,
> IntoVMFunction<(A, B, C, D, ), ()> for F {
    open spec fn total(&self) -> bool {
        forall|a: A, b: B, c: C, d: D| self.requires((a, b, c, d, ))
    }

    open spec fn operands(&self) -> nat {
        4
    }

    open spec fn promised(&self, s: State, pool: &Pool) -> Option<
        Result<(State, Option<Value>), Fault>,
    > {
        procedure4_effect::<A, B, C, D>(s, pool)
    }

    fn into_vm_function(self) -> (r: VMFunction) {
        procedure4(self)
    }
}

/// Whether the function `f` keeps what `model` promises of it: for
/// arguments that are given by their views,
/// the value that the function returns.
/// Where `model` promises nothing, the result is up to the function.
pub open spec fn returning0_keeps<
    R: IntoVM,
    F: Fn() -> Ret<R>,
>(f: F, model: spec_fn() -> Option<R::V>) -> bool {
    forall|r: Ret<R>|
        #[trigger] call_ensures(f, (), r) ==> (model() matches Some(promised)
            ==> r.0@ == promised)
}

/// What a call does to the arena and what it gives back, as far as
/// `model` promises it: the arguments come off the operand stack, the last one
/// from the top. The call fails where an argument is missing or is not of
/// the type that the function takes.
pub open spec fn returning0_effect<
    R: IntoVM,
>(s: State, pool: &Pool, model: spec_fn() -> Option<R::V>) -> Option<
    Result<(State, Option<Value>), Fault>,
> {
    let after = s.drop(0);
    match model() {
        Some(value) => Some(
            Ok((R::handed_over(value, after).0, Some(R::handed_over(value, after).1))),
        ),
        None => None,
    }
}

/// A host function of 0 arguments that returns a value.
pub struct Returning0<R: IntoVM, F> {
    pub function: F,
    /// What the function promises of its result.
    pub model: Ghost<spec_fn() -> Option<R::V>>,
    pub marker: PhantomData<(R, )>,
}

impl<
    R: IntoVM,
    F: Fn() -> Ret<R>,
> NativeFunction for Returning0<R, F> {
    open spec fn callable(&self) -> bool {
        (self.function.requires(()))
            && returning0_keeps(self.function, self.model@)
    }

    open spec fn arity(&self) -> nat {
        0
    }

    open spec fn effect(&self, s: State, pool: &Pool) -> Option<
        Result<(State, Option<Value>), Fault>,
    > {
        returning0_effect::<R>(s, pool, self.model@)
    }

    fn call(&self, arena: &mut Arena, pool: &Pool) -> (r: RuntimeResult<Option<Value>>) {
        assert(arena@.stack =~= old(arena)@.drop(0).stack);
        assert(arena@ == old(arena)@.drop(0));
        let result = (self.function)();
        Ok(Some(result.0.into_vm(arena)))
    }
}

/// The promise that promises nothing.
pub open spec fn returning0_silent<R: IntoVM>() -> spec_fn() -> Option<R::V> {
    || None::<R::V>
}

/// The function `function` in the form in which the machine calls it.
/// Nothing is promised of what it returns: only a call that fails for want
/// of an argument is determined.
pub fn returning0<
    R: IntoVM + 'static,
    F: Fn() -> Ret<R> + 'static,
>(function: F) -> (r: VMFunction)
    requires
        call_requires(function, ()),
    ensures
        r.callable(),
        r.arity() == 0,
        forall|s: State, pool: &Pool| #[trigger]
            r.effect(s, pool) == returning0_effect::<R>(s, pool, returning0_silent::<R>()),
{
    let thunk = Returning0 {
        function,
        model: Ghost(returning0_silent::<R>()),
        marker: PhantomData,
    };
    assert(thunk.callable());
    VMFunction { function: Box::new(thunk) }
}

/// The function `function` in the form in which the machine calls it, with
/// what it promises of its result.
pub fn returning0_as<
    R: IntoVM + 'static,
    F: Fn() -> Ret<R> + 'static,
>(function: F, model: Ghost<spec_fn() -> Option<R::V>>) -> (r: VMFunction)
    requires
        call_requires(function, ()),
        returning0_keeps(function, model@),
    ensures
        r.callable(),
        r.arity() == 0,
        forall|s: State, pool: &Pool| #[trigger]
            r.effect(s, pool) == returning0_effect::<R>(s, pool, model@),
{
    let thunk = Returning0 { function, model, marker: PhantomData };
    assert(thunk.callable());
    VMFunction { function: Box::new(thunk) }
}

impl<
    R: IntoVM + 'static,
    F: Fn() -> Ret<R> + 'static,
> IntoVMFunction<(), Ret<R>> for F {
    open spec fn total(&self) -> bool {
        self.requires(())
    }

    open spec fn operands(&self) -> nat {
        0
    }

    open spec fn promised(&self, s: State, pool: &Pool) -> Option<
        Result<(State, Option<Value>), Fault>,
    > {
        returning0_effect::<R>(s, pool, returning0_silent::<R>())
    }

    fn into_vm_function(self) -> (r: VMFunction) {
        returning0(self)
    }
}

/// Whether the function `f` keeps what `model` promises of it: for
/// arguments that are given by their views,
/// the value that the function returns.
/// Where `model` promises nothing, the result is up to the function.
pub open spec fn returning1_keeps<
    A: FromVM,
    R: IntoVM,
    F: Fn(A) -> Ret<R>,
>(f: F, model: spec_fn(A::V) -> Option<R::V>) -> bool {
    forall|a: A, r: Ret<R>|
        #[trigger] call_ensures(f, (a, ), r) ==> (model(a@) matches Some(promised)
            ==> r.0@ == promised)
}

/// What a call does to the arena and what it gives back, as far as
/// `model` promises it: the arguments come off the operand stack, the last one
/// from the top. The call fails where an argument is missing or is not of
/// the type that the function takes.
pub open spec fn returning1_effect<
    A: FromVM,
    R: IntoVM,
>(s: State, pool: &Pool, model: spec_fn(A::V) -> Option<R::V>) -> Option<
    Result<(State, Option<Value>), Fault>,
> {
    let after = s.drop(1);
    let av = A::taken_out(s.peek(0), s, pool);
    if s.stack.len() < 1 {
        Some(Err(Fault::InvalidBytecode))
    } else if av is None {
        Some(Err(Fault::InvalidArgument(A::refusal(s.peek(0), s, pool))))
    } else {
        match model(av->Some_0) {
            Some(value) => Some(
                Ok((R::handed_over(value, after).0, Some(R::handed_over(value, after).1))),
            ),
            None => None,
        }
    }
}

/// A host function of 1 argument that returns a value.
pub struct Returning1<A: FromVM, R: IntoVM, F> {
    pub function: F,
    /// What the function promises of its result.
    pub model: Ghost<spec_fn(A::V) -> Option<R::V>>,
    pub marker: PhantomData<(A, R, )>,
}

impl<
    A: FromVM,
    R: IntoVM,
    F: Fn(A) -> Ret<R>,
> NativeFunction for Returning1<A, R, F> {
    open spec fn callable(&self) -> bool {
        (forall|a: A| self.function.requires((a, )))
            && returning1_keeps(self.function, self.model@)
    }

    open spec fn arity(&self) -> nat {
        1
    }

    open spec fn effect(&self, s: State, pool: &Pool) -> Option<
        Result<(State, Option<Value>), Fault>,
    > {
        returning1_effect::<A, R>(s, pool, self.model@)
    }

    fn call(&self, arena: &mut Arena, pool: &Pool) -> (r: RuntimeResult<Option<Value>>) {
        let a = pop_argument::<A>(arena, pool)?;
        assert(arena@.stack =~= old(arena)@.drop(1).stack);
        assert(arena@ == old(arena)@.drop(1));
        let result = (self.function)(a);
        Ok(Some(result.0.into_vm(arena)))
    }
}

/// The promise that promises nothing.
pub open spec fn returning1_silent<A: FromVM, R: IntoVM>() -> spec_fn(A::V) -> Option<R::V> {
    |a: A::V| None::<R::V>
}

/// The function `function` in the form in which the machine calls it.
/// Nothing is promised of what it returns: only a call that fails for want
/// of an argument is determined.
pub fn returning1<
    A: FromVM + 'static,
    R: IntoVM + 'static,
    F: Fn(A) -> Ret<R> + 'static,
>(function: F) -> (r: VMFunction)
    requires
        forall|a: A| call_requires(function, (a, )),
    ensures
        r.callable(),
        r.arity() == 1,
        forall|s: State, pool: &Pool| #[trigger]
            r.effect(s, pool) == returning1_effect::<A, R>(s, pool, returning1_silent::<A, R>()),
{
    let thunk = Returning1 {
        function,
        model: Ghost(returning1_silent::<A, R>()),
        marker: PhantomData,
    };
    assert(thunk.callable());
    VMFunction { function: Box::new(thunk) }
}

/// The function `function` in the form in which the machine calls it, with
/// what it promises of its result.
pub fn returning1_as<
    A: FromVM + 'static,
    R: IntoVM + 'static,
    F: Fn(A) -> Ret<R> + 'static,
>(function: F, model: Ghost<spec_fn(A::V) -> Option<R::V>>) -> (r: VMFunction)
    requires
        forall|a: A| call_requires(function, (a, )),
        returning1_keeps(function, model@),
    ensures
        r.callable(),
        r.arity() == 1,
        forall|s: State, pool: &Pool| #[trigger]
            r.effect(s, pool) == returning1_effect::<A, R>(s, pool, model@),
{
    let thunk = Returning1 { function, model, marker: PhantomData };
    assert(thunk.callable());
    VMFunction { function: Box::new(thunk) }
}

impl<
    A: FromVM + 'static,
    R: IntoVM + 'static,
    F: Fn(A) -> Ret<R> + 'static,
> IntoVMFunction<(A, ), Ret<R>> for F {
    open spec fn total(&self) -> bool {
        forall|a: A| self.requires((a, ))
    }

    open spec fn operands(&self) -> nat {
        1
    }

    open spec fn promised(&self, s: State, pool: &Pool) -> Option<
        Result<(State, Option<Value>), Fault>,
    > {
        returning1_effect::<A, R>(s, pool, returning1_silent::<A, R>())
    }

    fn into_vm_function(self) -> (r: VMFunction) {
        returning1(self)
    }
}

/// Whether the function `f` keeps what `model` promises of it: for
/// arguments that are given by their views,
/// the value that the function returns.
/// Where `model` promises nothing, the result is up to the function.
pub open spec fn returning2_keeps<
    A: FromVM,
    B: FromVM,
    R: IntoVM,
    F: Fn(A, B) -> Ret<R>,
>(f: F, model: spec_fn(A::V, B::V) -> Option<R::V>) -> bool {
    forall|a: A, b: B, r: Ret<R>|
        #[trigger] call_ensures(f, (a, b, ), r) ==> (model(a@, b@) matches Some(promised)
            ==> r.0@ == promised)
}

/// What a call does to the arena and what it gives back, as far as
/// `model` promises it: the arguments come off the operand stack, the last one
/// from the top. The call fails where an argument is missing or is not of
/// the type that the function takes.
pub open spec fn returning2_effect<
    A: FromVM,
    B: FromVM,
    R: IntoVM,
>(s: State, pool: &Pool, model: spec_fn(A::V, B::V) -> Option<R::V>) -> Option<
    Result<(State, Option<Value>), Fault>,
> {
    let after = s.drop(2);
    let bv = B::taken_out(s.peek(0), s, pool);
    let av = A::taken_out(s.peek(1), s.drop(1), pool);
    if s.stack.len() < 1 {
        Some(Err(Fault::InvalidBytecode))
    } else if bv is None {
        Some(Err(Fault::InvalidArgument(B::refusal(s.peek(0), s, pool))))
    } else if s.stack.len() < 2 {
        Some(Err(Fault::InvalidBytecode))
    } else if av is None {
        Some(Err(Fault::InvalidArgument(A::refusal(s.peek(1), s.drop(1), pool))))
    } else {
        match model(av->Some_0, bv->Some_0) {
            Some(value) => Some(
                Ok((R::handed_over(value, after).0, Some(R::handed_over(value, after).1))),
            ),
            None => None,
        }
    }
}

/// A host function of 2 arguments that returns a value.
pub struct Returning2<A: FromVM, B: FromVM, R: IntoVM, F> {
    pub function: F,
    /// What the function promises of its result.
    pub model: Ghost<spec_fn(A::V, B::V) -> Option<R::V>>,
    pub marker: PhantomData<(A, B, R, )>,
}

impl<
    A: FromVM,
    B: FromVM,
    R: IntoVM,
    F: Fn(A, B) -> Ret<R>,
> NativeFunction for Returning2<A, B, R, F> {
    open spec fn callable(&self) -> bool {
        (forall|a: A, b: B| self.function.requires((a, b, )))
            && returning2_keeps(self.function, self.model@)
    }

    open spec fn arity(&self) -> nat {
        2
    }

    open spec fn effect(&self, s: State, pool: &Pool) -> Option<
        Result<(State, Option<Value>), Fault>,
    > {
        returning2_effect::<A, B, R>(s, pool, self.model@)
    }

    fn call(&self, arena: &mut Arena, pool: &Pool) -> (r: RuntimeResult<Option<Value>>) {
        let b = pop_argument::<B>(arena, pool)?;
        let a = pop_argument::<A>(arena, pool)?;
        assert(arena@.stack =~= old(arena)@.drop(2).stack);
        assert(arena@ == old(arena)@.drop(2));
        let result = (self.function)(a, b);
        Ok(Some(result.0.into_vm(arena)))
    }
}

/// The promise that promises nothing.
pub open spec fn returning2_silent<A: FromVM, B: FromVM, R: IntoVM>() -> spec_fn(A::V, B::V) -> Option<R::V> {
    |a: A::V, b: B::V| None::<R::V>
}

/// The function `function` in the form in which the machine calls it.
/// Nothing is promised of what it returns: only a call that fails for want
/// of an argument is determined.
pub fn returning2<
    A: FromVM + 'static,
    B: FromVM + 'static,
    R: IntoVM + 'static,
    F: Fn(A, B) -> Ret<R> + 'static,
>(function: F) -> (r: VMFunction)
    requires
        forall|a: A, b: B| call_requires(function, (a, b, )),
    ensures
        r.callable(),
        r.arity() == 2,
        forall|s: State, pool: &Pool| #[trigger]
            r.effect(s, pool) == returning2_effect::<A, B, R>(s, pool, returning2_silent::<A, B, R>()),
{
    let thunk = Returning2 {
        function,
        model: Ghost(returning2_silent::<A, B, R>()),
        marker: PhantomData,
    };
    assert(thunk.callable());
    VMFunction { function: Box::new(thunk) }
}

/// The function `function` in the form in which the machine calls it, with
/// what it promises of its result.
pub fn returning2_as<
    A: FromVM + 'static,
    B: FromVM + 'static,
    R: IntoVM + 'static,
    F: Fn(A, B) -> Ret<R> + 'static,
>(function: F, model: Ghost<spec_fn(A::V, B::V) -> Option<R::V>>) -> (r: VMFunction)
    requires
        forall|a: A, b: B| call_requires(function, (a, b, )),
        returning2_keeps(function, model@),
    ensures
        r.callable(),
        r.arity() == 2,
        forall|s: State, pool: &Pool| #[trigger]
            r.effect(s, pool) == returning2_effect::<A, B, R>(s, pool, model@),
{
    let thunk = Returning2 { function, model, marker: PhantomData };
    assert(thunk.callable());
    VMFunction { function: Box::new(thunk) }
}

impl<
    A: FromVM + 'static,
    B: FromVM + 'static,
    R: IntoVM + 'static,
    F: Fn(A, B) -> Ret<R> + 'static,
> IntoVMFunction<(A, B, ), Ret<R>> for F {
    open spec fn total(&self) -> bool {
        forall|a: A, b: B| self.requires((a, b, ))
    }

    open spec fn operands(&self) -> nat {
        2
    }

    open spec fn promised(&self, s: State, pool: &Pool) -> Option<
        Result<(State, Option<Value>), Fault>,
    > {
        returning2_effect::<A, B, R>(s, pool, returning2_silent::<A, B, R>())
    }

    fn into_vm_function(self) -> (r: VMFunction) {
        returning2(self)
    }
}

/// Whether the function `f` keeps what `model` promises of it: for
/// arguments that are given by their views,
/// the value that the function returns.
/// Where `model` promises nothing, the result is up to the function.
pub open spec fn returning3_keeps<
    A: FromVM,
    B: FromVM,
    C: FromVM,
    R: IntoVM,
    F: Fn(A, B, C) -> Ret<R>,
>(f: F, model: spec_fn(A::V, B::V, C::V) -> Option<R::V>) -> bool {
    forall|a: A, b: B, c: C, r: Ret<R>|
        #[trigger] call_ensures(f, (a, b, c, ), r) ==> (model(a@, b@, c@) matches Some(promised)
            ==> r.0@ == promised)
}

/// What a call does to the arena and what it gives back, as far as
/// `model` promises it: the arguments come off the operand stack, the last one
/// from the top. The call fails where an argument is missing or is not of
/// the type that the function takes.
pub open spec fn returning3_effect<
    A: FromVM,
    B: FromVM,
    C: FromVM,
    R: IntoVM,
>(s: State, pool: &Pool, model: spec_fn(A::V, B::V, C::V) -> Option<R::V>) -> Option<
    Result<(State, Option<Value>), Fault>,
> {
    let after = s.drop(3);
    let cv = C::taken_out(s.peek(0), s, pool);
    let bv = B::taken_out(s.peek(1), s.drop(1), pool);
    let av = A::taken_out(s.peek(2), s.drop(2), pool);
    if s.stack.len() < 1 {
        Some(Err(Fault::InvalidBytecode))
    } else if cv is None {
        Some(Err(Fault::InvalidArgument(C::refusal(s.peek(0), s, pool))))
    } else if s.stack.len() < 2 {
        Some(Err(Fault::InvalidBytecode))
    } else if bv is None {
        Some(Err(Fault::InvalidArgument(B::refusal(s.peek(1), s.drop(1), pool))))
    } else if s.stack.len() < 3 {
        Some(Err(Fault::InvalidBytecode))
    } else if av is None {
        Some(Err(Fault::InvalidArgument(A::refusal(s.peek(2), s.drop(2), pool))))
    } else {
        match model(av->Some_0, bv->Some_0, cv->Some_0) {
            Some(value) => Some(
                Ok((R::handed_over(value, after).0, Some(R::handed_over(value, after).1))),
            ),
            None => None,
        }
    }
}

/// A host function of 3 arguments that returns a value.
pub struct Returning3<A: FromVM, B: FromVM, C: FromVM, R: IntoVM, F> {
    pub function: F,
    /// What the function promises of its result.
    pub model: Ghost<spec_fn(A::V, B::V, C::V) -> Option<R::V>>,
    pub marker: PhantomData<(A, B, C, R, )>,
}

impl<
    A: FromVM,
    B: FromVM,
    C: FromVM,
    R: IntoVM,
    F: Fn(A, B, C) -> Ret<R>,
> NativeFunction for Returning3<A, B, C, R, F> {
    open spec fn callable(&self) -> bool {
        (forall|a: A, b: B, c: C| self.function.requires((a, b, c, )))
            && returning3_keeps(self.function, self.model@)
    }

    open spec fn arity(&self) -> nat {
        3
    }

    open spec fn effect(&self, s: State, pool: &Pool) -> Option<
        Result<(State, Option<Value>), Fault>,
    > {
        returning3_effect::<A, B, C, R>(s, pool, self.model@)
    }

    fn call(&self, arena: &mut Arena, pool: &Pool) -> (r: RuntimeResult<Option<Value>>) {
        let c = pop_argument::<C>(arena, pool)?;
        let b = pop_argument::<B>(arena, pool)?;
        assert(arena@.stack =~= old(arena)@.drop(2).stack);
        assert(arena@ == old(arena)@.drop(2));
        let a = pop_argument::<A>(arena, pool)?;
        assert(arena@.stack =~= old(arena)@.drop(3).stack);
        assert(arena@ == old(arena)@.drop(3));
        let result = (self.function)(a, b, c);
        Ok(Some(result.0.into_vm(arena)))
    }
}

/// The promise that promises nothing.
pub open spec fn returning3_silent<A: FromVM, B: FromVM, C: FromVM, R: IntoVM>() -> spec_fn(A::V, B::V, C::V) -> Option<R::V> {
    |a: A::V, b: B::V, c: C::V| None::<R::V>
}

/// The function `function` in the form in which the machine calls it.
/// Nothing is promised of what it returns: only a call that fails for want
/// of an argument is determined.
pub fn returning3<
    A: FromVM + 'static,
    B: FromVM + 'static,
    C: FromVM + 'static,
    R: IntoVM + 'static,
    F: Fn(A, B, C) -> Ret<R> + 'static,
>(function: F) -> (r: VMFunction)
    requires
        forall|a: A, b: B, c: C| call_requires(function, (a, b, c, )),
    ensures
        r.callable(),
        r.arity() == 3,
        forall|s: State, pool: &Pool| #[trigger]
            r.effect(s, pool) == returning3_effect::<A, B, C, R>(s, pool, returning3_silent::<A, B, C, R>()),
{
    let thunk = Returning3 {
        function,
        model: Ghost(returning3_silent::<A, B, C, R>()),
        marker: PhantomData,
    };
    assert(thunk.callable());
    VMFunction { function: Box::new(thunk) }
}

/// The function `function` in the form in which the machine calls it, with
/// what it promises of its result.
pub fn returning3_as<
    A: FromVM + 'static,
    B: FromVM + 'static,
    C: FromVM + 'static,
    R: IntoVM + 'static,
    F: Fn(A, B, C) -> Ret<R> + 'static,
>(function: F, model: Ghost<spec_fn(A::V, B::V, C::V) -> Option<R::V>>) -> (r: VMFunction)
    requires
        forall|a: A, b: B, c: C| call_requires(function, (a, b, c, )),
        returning3_keeps(function, model@),
    ensures
        r.callable(),
        r.arity() == 3,
        forall|s: State, pool: &Pool| #[trigger]
            r.effect(s, pool) == returning3_effect::<A, B, C, R>(s, pool, model@),
{
    let thunk = Returning3 { function, model, marker: PhantomData };
    assert(thunk.callable());
    VMFunction { function: Box::new(thunk) }
}

impl<
    A: FromVM + 'static,
    B: FromVM + 'static,
    C: FromVM + 'static,
    R: IntoVM + 'static,
    F: Fn(A, B, C) -> Ret<R> + 'static,
> IntoVMFunction<(A, B, C, ), Ret<R>> for F {
    open spec fn total(&self) -> bool {
        forall|a: A, b: B, c: C| self.requires((a, b, c, ))
    }

    open spec fn operands(&self) -> nat {
        3
    }

    open spec fn promised(&self, s: State, pool: &Pool) -> Option<
        Result<(State, Option<Value>), Fault>,
    > {
        returning3_effect::<A, B, C, R>(s, pool, returning3_silent::<A, B, C, R>())
    }

    fn into_vm_function(self) -> (r: VMFunction) {
        returning3(self)
    }
}

/// Whether the function `f` keeps what `model` promises of it: for
/// arguments that are given by their views,
/// the value that the function returns.
/// Where `model` promises nothing, the result is up to the function.
pub open spec fn returning4_keeps<
    A: FromVM,
    B: FromVM,
    C: FromVM,
    D: FromVM,
    R: IntoVM,
    F: Fn(A, B, C, D) -> Ret<R>,
>(f: F, model: spec_fn(A::V, B::V, C::V, D::V) -> Option<R::V>) -> bool {
    forall|a: A, b: B, c: C, d: D, r: Ret<R>|
        #[trigger] call_ensures(f, (a, b, c, d, ), r) ==> (model(a@, b@, c@, d@) matches Some(promised)
            ==> r.0@ == promised)
}

/// What a call does to the arena and what it gives back, as far as
/// `model` promises it: the arguments come off the operand stack, the last one
/// from the top. The call fails where an argument is missing or is not of
/// the type that the function takes.
pub open spec fn returning4_effect<
    A: FromVM,
    B: FromVM,
    C: FromVM,
    D: FromVM,
    R: IntoVM,
>(s: State, pool: &Pool, model: spec_fn(A::V, B::V, C::V, D::V) -> Option<R::V>) -> Option<
    Result<(State, Option<Value>), Fault>,
> {
    let after = s.drop(4);
    let dv = D::taken_out(s.peek(0), s, pool);
    let cv = C::taken_out(s.peek(1), s.drop(1), pool);
    let bv = B::taken_out(s.peek(2), s.drop(2), pool);
    let av = A::taken_out(s.peek(3), s.drop(3), pool);
    if s.stack.len() < 1 {
        Some(Err(Fault::InvalidBytecode))
    } else if dv is None {
        Some(Err(Fault::InvalidArgument(D::refusal(s.peek(0), s, pool))))
    } else if s.stack.len() < 2 {
        Some(Err(Fault::InvalidBytecode))
    } else if cv is None {
        Some(Err(Fault::InvalidArgument(C::refusal(s.peek(1), s.drop(1), pool))))
    } else if s.stack.len() < 3 {
        Some(Err(Fault::InvalidBytecode))
    } else if bv is None {
        Some(Err(Fault::InvalidArgument(B::refusal(s.peek(2), s.drop(2), pool))))
    } else if s.stack.len() < 4 {
        Some(Err(Fault::InvalidBytecode))
    } else if av is None {
        Some(Err(Fault::InvalidArgument(A::refusal(s.peek(3), s.drop(3), pool))))
    } else {
        match model(av->Some_0, bv->Some_0, cv->Some_0, dv->Some_0) {
            Some(value) => Some(
                Ok((R::handed_over(value, after).0, Some(R::handed_over(value, after).1))),
            ),
            None => None,
        }
    }
}

/// A host function of 4 arguments that returns a value.
pub struct Returning4<A: FromVM, B: FromVM, C: FromVM, D: FromVM, R: IntoVM, F> {
    pub function: F,
    /// What the function promises of its result.
    pub model: Ghost<spec_fn(A::V, B::V, C::V, D::V) -> Option<R::V>>,
    pub marker: PhantomData<(A, B, C, D, R, )>,
}

impl<
    A: FromVM,
    B: FromVM,
    C: FromVM,
    D: FromVM,
    R: IntoVM,
    F: Fn(A, B, C, D) -> Ret<R>,
> NativeFunction for Returning4<A, B, C, D, R, F> {
    open spec fn callable(&self) -> bool {
        (forall|a: A, b: B, c: C, d: D| self.function.requires((a, b, c, d, )))
            && returning4_keeps(self.function, self.model@)
    }

    open spec fn arity(&self) -> nat {
        4
    }

    open spec fn effect(&self, s: State, pool: &Pool) -> Option<
        Result<(State, Option<Value>), Fault>,
    > {
        returning4_effect::<A, B, C, D, R>(s, pool, self.model@)
    }

    fn call(&self, arena: &mut Arena, pool: &Pool) -> (r: RuntimeResult<Option<Value>>) {
        let d = pop_argument::<D>(arena, pool)?;
        let c = pop_argument::<C>(arena, pool)?;
        assert(arena@.stack =~= old(arena)@.drop(2).stack);
        assert(arena@ == old(arena)@.drop(2));
        let b = pop_argument::<B>(arena, pool)?;
        assert(arena@.stack =~= old(arena)@.drop(3).stack);
        assert(arena@ == old(arena)@.drop(3));
        let a = pop_argument::<A>(arena, pool)?;
        assert(arena@.stack =~= old(arena)@.drop(4).stack);
        assert(arena@ == old(arena)@.drop(4));
        let result = (self.function)(a, b, c, d);
        Ok(Some(result.0.into_vm(arena)))
    }
}

/// The promise that promises nothing.
pub open spec fn returning4_silent<A: FromVM, B: FromVM, C: FromVM, D: FromVM, R: IntoVM>() -> spec_fn(A::V, B::V, C::V, D::V) -> Option<R::V> {
    |a: A::V, b: B::V, c: C::V, d: D::V| None::<R::V>
}

/// The function `function` in the form in which the machine calls it.
/// Nothing is promised of what it returns: only a call that fails for want
/// of an argument is determined.
pub fn returning4<
    A: FromVM + 'static,
    B: FromVM + 'static,
    C: FromVM + 'static,
    D: FromVM + 'static,
    R: IntoVM + 'static,
    F: Fn(A, B, C, D) -> Ret<R> + 'static,
>(function: F) -> (r: VMFunction)
    requires
        forall|a: A, b: B, c: C, d: D| call_requires(function, (a, b, c, d, )),
    ensures
        r.callable(),
        r.arity() == 4,
        forall|s: State, pool: &Pool| #[trigger]
            r.effect(s, pool) == returning4_effect::<A, B, C, D, R>(s, pool, returning4_silent::<A, B, C, D, R>()),
{
    let thunk = Returning4 {
        function,
        model: Ghost(returning4_silent::<A, B, C, D, R>()),
        marker: PhantomData,
    };
    assert(thunk.callable());
    VMFunction { function: Box::new(thunk) }
}

/// The function `function` in the form in which the machine calls it, with
/// what it promises of its result.
pub fn returning4_as<
    A: FromVM + 'static,
    B: FromVM + 'static,
    C: FromVM + 'static,
    D: FromVM + 'static,
    R: IntoVM + 'static,
    F: Fn(A, B, C, D) -> Ret<R> + 'static,
>(function: F, model: Ghost<spec_fn(A::V, B::V, C::V, D::V) -> Option<R::V>>) -> (r: VMFunction)
    requires
        forall|a: A, b: B, c: C, d: D| call_requires(function, (a, b, c, d, )),
        returning4_keeps(function, model@),
    ensures
        r.callable(),
        r.arity() == 4,
        forall|s: State, pool: &Pool| #[trigger]
            r.effect(s, pool) == returning4_effect::<A, B, C, D, R>(s, pool, model@),
{
    let thunk = Returning4 { function, model, marker: PhantomData };
    assert(thunk.callable());
    VMFunction { function: Box::new(thunk) }
}

impl<
    A: FromVM + 'static,
    B: FromVM + 'static,
    C: FromVM + 'static,
    D: FromVM + 'static,
    R: IntoVM + 'static,
    F: Fn(A, B, C, D) -> Ret<R> + 'static,
> IntoVMFunction<(A, B, C, D, ), Ret<R>> for F {
    open spec fn total(&self) -> bool {
        forall|a: A, b: B, c: C, d: D| self.requires((a, b, c, d, ))
    }

    open spec fn operands(&self) -> nat {
        4
    }

    open spec fn promised(&self, s: State, pool: &Pool) -> Option<
        Result<(State, Option<Value>), Fault>,
    > {
        returning4_effect::<A, B, C, D, R>(s, pool, returning4_silent::<A, B, C, D, R>())
    }

    fn into_vm_function(self) -> (r: VMFunction) {
        returning4(self)
    }
}

/// Whether the function `f` keeps what `model` promises of it: for
/// arguments that are given by their views,
/// the value that the function returns and the value that it assigns.
/// Where `model` promises nothing, the result is up to the function.
pub open spec fn assigning1_keeps<
    A: FromVM + IntoVM,
    R: IntoVM,
    F: Fn(A) -> RetOut<R, A>,
>(f: F, model: spec_fn(A::V) -> Option<(R::V, A::V)>) -> bool {
    forall|a: A, r: RetOut<R, A>|
        #[trigger] call_ensures(f, (a, ), r) ==> (model(a@) matches Some(promised)
            ==> r.0@ == promised.0 && r.1@ == promised.1)
}

/// What a call does to the arena and what it gives back, as far as
/// `model` promises it: the arguments come off the operand stack, the last one
/// from the top. The call fails where an argument is missing or is not of
/// the type that the function takes.
pub open spec fn assigning1_effect<
    A: FromVM + IntoVM,
    R: IntoVM,
>(s: State, pool: &Pool, model: spec_fn(A::V) -> Option<(R::V, A::V)>) -> Option<
    Result<(State, Option<Value>), Fault>,
> {
    let after = s.drop(1);
    let cell = pinned_cell(after.cells, s.peek(0));
    let av = A::taken_out(s.peek(0), after, pool);
    if s.stack.len() < 1 {
        Some(Err(Fault::InvalidBytecode))
    } else if cell is None {
        Some(Err(Fault::InvalidArgument(NO_CELL@)))
    } else if av is None {
        Some(Err(Fault::InvalidArgument(A::refusal(s.peek(0), after, pool))))
    } else {
        match model(av->Some_0) {
            Some(pair) => Some(
                Ok(
                    (
                        assigned::<R, A>(after, cell->Some_0, pair.0, pair.1).0,
                        Some(assigned::<R, A>(after, cell->Some_0, pair.0, pair.1).1),
                    ),
                ),
            ),
            None => None,
        }
    }
}

/// A host function of 1 argument that returns a value and assigns to its
/// first argument.
pub struct Assigning1<A: FromVM + IntoVM, R: IntoVM, F> {
    pub function: F,
    /// What the function promises of its result.
    pub model: Ghost<spec_fn(A::V) -> Option<(R::V, A::V)>>,
    pub marker: PhantomData<(A, R, )>,
}

impl<
    A: FromVM + IntoVM,
    R: IntoVM,
    F: Fn(A) -> RetOut<R, A>,
> NativeFunction for Assigning1<A, R, F> {
    open spec fn callable(&self) -> bool {
        (forall|a: A| self.function.requires((a, )))
            && assigning1_keeps(self.function, self.model@)
    }

    open spec fn arity(&self) -> nat {
        1
    }

    open spec fn effect(&self, s: State, pool: &Pool) -> Option<
        Result<(State, Option<Value>), Fault>,
    > {
        assigning1_effect::<A, R>(s, pool, self.model@)
    }

    fn call(&self, arena: &mut Arena, pool: &Pool) -> (r: RuntimeResult<Option<Value>>) {
        let a_operand = pop_operand(arena)?;
        assert(arena@.stack =~= old(arena)@.drop(1).stack);
        assert(arena@ == old(arena)@.drop(1));
        let cell = out_cell(arena, a_operand)?;
        let a = convert_argument::<A>(arena, pool, a_operand)?;
        let result = (self.function)(a);
        Ok(Some(finish_out(arena, cell, result)))
    }
}

/// The promise that promises nothing.
pub open spec fn assigning1_silent<A: FromVM + IntoVM, R: IntoVM>() -> spec_fn(A::V) -> Option<(R::V, A::V)> {
    |a: A::V| None::<(R::V, A::V)>
}

/// The function `function` in the form in which the machine calls it.
/// Nothing is promised of what it returns: only a call that fails for want
/// of an argument is determined.
pub fn assigning1<
    A: FromVM + IntoVM + 'static,
    R: IntoVM + 'static,
    F: Fn(A) -> RetOut<R, A> + 'static,
>(function: F) -> (r: VMFunction)
    requires
        forall|a: A| call_requires(function, (a, )),
    ensures
        r.callable(),
        r.arity() == 1,
        forall|s: State, pool: &Pool| #[trigger]
            r.effect(s, pool) == assigning1_effect::<A, R>(s, pool, assigning1_silent::<A, R>()),
{
    let thunk = Assigning1 {
        function,
        model: Ghost(assigning1_silent::<A, R>()),
        marker: PhantomData,
    };
    assert(thunk.callable());
    VMFunction { function: Box::new(thunk) }
}

/// The function `function` in the form in which the machine calls it, with
/// what it promises of its result.
pub fn assigning1_as<
    A: FromVM + IntoVM + 'static,
    R: IntoVM + 'static,
    F: Fn(A) -> RetOut<R, A> + 'static,
>(function: F, model: Ghost<spec_fn(A::V) -> Option<(R::V, A::V)>>) -> (r: VMFunction)
    requires
        forall|a: A| call_requires(function, (a, )),
        assigning1_keeps(function, model@),
    ensures
        r.callable(),
        r.arity() == 1,
        forall|s: State, pool: &Pool| #[trigger]
            r.effect(s, pool) == assigning1_effect::<A, R>(s, pool, model@),
{
    let thunk = Assigning1 { function, model, marker: PhantomData };
    assert(thunk.callable());
    VMFunction { function: Box::new(thunk) }
}

impl<
    A: FromVM + IntoVM + 'static,
    R: IntoVM + 'static,
    F: Fn(A) -> RetOut<R, A> + 'static,
> IntoVMFunction<(A, ), RetOut<R, A>> for F {
    open spec fn total(&self) -> bool {
        forall|a: A| self.requires((a, ))
    }

    open spec fn operands(&self) -> nat {
        1
    }

    open spec fn promised(&self, s: State, pool: &Pool) -> Option<
        Result<(State, Option<Value>), Fault>,
    > {
        assigning1_effect::<A, R>(s, pool, assigning1_silent::<A, R>())
    }

    fn into_vm_function(self) -> (r: VMFunction) {
        assigning1(self)
    }
}

/// Whether the function `f` keeps what `model` promises of it: for
/// arguments that are given by their views,
/// the value that the function returns and the value that it assigns.
/// Where `model` promises nothing, the result is up to the function.
pub open spec fn assigning2_keeps<
    A: FromVM + IntoVM,
    B: FromVM,
    R: IntoVM,
    F: Fn(A, B) -> RetOut<R, A>,
>(f: F, model: spec_fn(A::V, B::V) -> Option<(R::V, A::V)>) -> bool {
    forall|a: A, b: B, r: RetOut<R, A>|
        #[trigger] call_ensures(f, (a, b, ), r) ==> (model(a@, b@) matches Some(promised)
            ==> r.0@ == promised.0 && r.1@ == promised.1)
}

/// What a call does to the arena and what it gives back, as far as
/// `model` promises it: the arguments come off the operand stack, the last one
/// from the top. The call fails where an argument is missing or is not of
/// the type that the function takes.
pub open spec fn assigning2_effect<
    A: FromVM + IntoVM,
    B: FromVM,
    R: IntoVM,
>(s: State, pool: &Pool, model: spec_fn(A::V, B::V) -> Option<(R::V, A::V)>) -> Option<
    Result<(State, Option<Value>), Fault>,
> {
    let after = s.drop(2);
    let cell = pinned_cell(after.cells, s.peek(1));
    let av = A::taken_out(s.peek(1), after, pool);
    let bv = B::taken_out(s.peek(0), after, pool);
    if s.stack.len() < 2 {
        Some(Err(Fault::InvalidBytecode))
    } else if cell is None {
        Some(Err(Fault::InvalidArgument(NO_CELL@)))
    } else if av is None {
        Some(Err(Fault::InvalidArgument(A::refusal(s.peek(1), after, pool))))
    } else if bv is None {
        Some(Err(Fault::InvalidArgument(B::refusal(s.peek(0), after, pool))))
    } else {
        match model(av->Some_0, bv->Some_0) {
            Some(pair) => Some(
                Ok(
                    (
                        assigned::<R, A>(after, cell->Some_0, pair.0, pair.1).0,
                        Some(assigned::<R, A>(after, cell->Some_0, pair.0, pair.1).1),
                    ),
                ),
            ),
            None => None,
        }
    }
}

/// A host function of 2 arguments that returns a value and assigns to its
/// first argument.
pub struct Assigning2<A: FromVM + IntoVM, B: FromVM, R: IntoVM, F> {
    pub function: F,
    /// What the function promises of its result.
    pub model: Ghost<spec_fn(A::V, B::V) -> Option<(R::V, A::V)>>,
    pub marker: PhantomData<(A, B, R, )>,
}

impl<
    A: FromVM + IntoVM,
    B: FromVM,
    R: IntoVM,
    F: Fn(A, B) -> RetOut<R, A>,
> NativeFunction for Assigning2<A, B, R, F> {
    open spec fn callable(&self) -> bool {
        (forall|a: A, b: B| self.function.requires((a, b, )))
            && assigning2_keeps(self.function, self.model@)
    }

    open spec fn arity(&self) -> nat {
        2
    }

    open spec fn effect(&self, s: State, pool: &Pool) -> Option<
        Result<(State, Option<Value>), Fault>,
    > {
        assigning2_effect::<A, B, R>(s, pool, self.model@)
    }

    fn call(&self, arena: &mut Arena, pool: &Pool) -> (r: RuntimeResult<Option<Value>>) {
        let b_operand = pop_operand(arena)?;
        let a_operand = pop_operand(arena)?;
        assert(arena@.stack =~= old(arena)@.drop(2).stack);
        assert(arena@ == old(arena)@.drop(2));
        let cell = out_cell(arena, a_operand)?;
        let a = convert_argument::<A>(arena, pool, a_operand)?;
        let b = convert_argument::<B>(arena, pool, b_operand)?;
        let result = (self.function)(a, b);
        Ok(Some(finish_out(arena, cell, result)))
    }
}

/// The promise that promises nothing.
pub open spec fn assigning2_silent<A: FromVM + IntoVM, B: FromVM, R: IntoVM>() -> spec_fn(A::V, B::V) -> Option<(R::V, A::V)> {
    |a: A::V, b: B::V| None::<(R::V, A::V)>
}

/// The function `function` in the form in which the machine calls it.
/// Nothing is promised of what it returns: only a call that fails for want
/// of an argument is determined.
pub fn assigning2<
    A: FromVM + IntoVM + 'static,
    B: FromVM + 'static,
    R: IntoVM + 'static,
    F: Fn(A, B) -> RetOut<R, A> + 'static,
>(function: F) -> (r: VMFunction)
    requires
        forall|a: A, b: B| call_requires(function, (a, b, )),
    ensures
        r.callable(),
        r.arity() == 2,
        forall|s: State, pool: &Pool| #[trigger]
            r.effect(s, pool) == assigning2_effect::<A, B, R>(s, pool, assigning2_silent::<A, B, R>()),
{
    let thunk = Assigning2 {
        function,
        model: Ghost(assigning2_silent::<A, B, R>()),
        marker: PhantomData,
    };
    assert(thunk.callable());
    VMFunction { function: Box::new(thunk) }
}

/// The function `function` in the form in which the machine calls it, with
/// what it promises of its result.
pub fn assigning2_as<
    A: FromVM + IntoVM + 'static,
    B: FromVM + 'static,
    R: IntoVM + 'static,
    F: Fn(A, B) -> RetOut<R, A> + 'static,
>(function: F, model: Ghost<spec_fn(A::V, B::V) -> Option<(R::V, A::V)>>) -> (r: VMFunction)
    requires
        forall|a: A, b: B| call_requires(function, (a, b, )),
        assigning2_keeps(function, model@),
    ensures
        r.callable(),
        r.arity() == 2,
        forall|s: State, pool: &Pool| #[trigger]
            r.effect(s, pool) == assigning2_effect::<A, B, R>(s, pool, model@),
{
    let thunk = Assigning2 { function, model, marker: PhantomData };
    assert(thunk.callable());
    VMFunction { function: Box::new(thunk) }
}

impl<
    A: FromVM + IntoVM + 'static,
    B: FromVM + 'static,
    R: IntoVM + 'static,
    F: Fn(A, B) -> RetOut<R, A> + 'static,
> IntoVMFunction<(A, B, ), RetOut<R, A>> for F {
    open spec fn total(&self) -> bool {
        forall|a: A, b: B| self.requires((a, b, ))
    }

    open spec fn operands(&self) -> nat {
        2
    }

    open spec fn promised(&self, s: State, pool: &Pool) -> Option<
        Result<(State, Option<Value>), Fault>,
    > {
        assigning2_effect::<A, B, R>(s, pool, assigning2_silent::<A, B, R>())
    }

    fn into_vm_function(self) -> (r: VMFunction) {
        assigning2(self)
    }
}

/// Whether the function `f` keeps what `model` promises of it: for
/// arguments that are given by their views,
/// the value that the function returns and the value that it assigns.
/// Where `model` promises nothing, the result is up to the function.
pub open spec fn assigning3_keeps<
    A: FromVM + IntoVM,
    B: FromVM,
    C: FromVM,
    R: IntoVM,
    F: Fn(A, B, C) -> RetOut<R, A>,
>(f: F, model: spec_fn(A::V, B::V, C::V) -> Option<(R::V, A::V)>) -> bool {
    forall|a: A, b: B, c: C, r: RetOut<R, A>|
        #[trigger] call_ensures(f, (a, b, c, ), r) ==> (model(a@, b@, c@) matches Some(promised)
            ==> r.0@ == promised.0 && r.1@ == promised.1)
}

/// What a call does to the arena and what it gives back, as far as
/// `model` promises it: the arguments come off the operand stack, the last one
/// from the top. The call fails where an argument is missing or is not of
/// the type that the function takes.
pub open spec fn assigning3_effect<
    A: FromVM + IntoVM,
    B: FromVM,
    C: FromVM,
    R: IntoVM,
>(s: State, pool: &Pool, model: spec_fn(A::V, B::V, C::V) -> Option<(R::V, A::V)>) -> Option<
    Result<(State, Option<Value>), Fault>,
> {
    let after = s.drop(3);
    let cell = pinned_cell(after.cells, s.peek(2));
    let av = A::taken_out(s.peek(2), after, pool);
    let bv = B::taken_out(s.peek(1), after, pool);
    let cv = C::taken_out(s.peek(0), after, pool);
    if s.stack.len() < 3 {
        Some(Err(Fault::InvalidBytecode))
    } else if cell is None {
        Some(Err(Fault::InvalidArgument(NO_CELL@)))
    } else if av is None {
        Some(Err(Fault::InvalidArgument(A::refusal(s.peek(2), after, pool))))
    } else if bv is None {
        Some(Err(Fault::InvalidArgument(B::refusal(s.peek(1), after, pool))))
    } else if cv is None {
        Some(Err(Fault::InvalidArgument(C::refusal(s.peek(0), after, pool))))
    } else {
        match model(av->Some_0, bv->Some_0, cv->Some_0) {
            Some(pair) => Some(
                Ok(
                    (
                        assigned::<R, A>(after, cell->Some_0, pair.0, pair.1).0,
                        Some(assigned::<R, A>(after, cell->Some_0, pair.0, pair.1).1),
                    ),
                ),
            ),
            None => None,
        }
    }
}

/// A host function of 3 arguments that returns a value and assigns to its
/// first argument.
pub struct Assigning3<A: FromVM + IntoVM, B: FromVM, C: FromVM, R: IntoVM, F> {
    pub function: F,
    /// What the function promises of its result.
    pub model: Ghost<spec_fn(A::V, B::V, C::V) -> Option<(R::V, A::V)>>,
    pub marker: PhantomData<(A, B, C, R, )>,
}

impl<
    A: FromVM + IntoVM,
    B: FromVM,
    C: FromVM,
    R: IntoVM,
    F: Fn(A, B, C) -> RetOut<R, A>,
> NativeFunction for Assigning3<A, B, C, R, F> {
    open spec fn callable(&self) -> bool {
        (forall|a: A, b: B, c: C| self.function.requires((a, b, c, )))
            && assigning3_keeps(self.function, self.model@)
    }

    open spec fn arity(&self) -> nat {
        3
    }

    open spec fn effect(&self, s: State, pool: &Pool) -> Option<
        Result<(State, Option<Value>), Fault>,
    > {
        assigning3_effect::<A, B, C, R>(s, pool, self.model@)
    }

    fn call(&self, arena: &mut Arena, pool: &Pool) -> (r: RuntimeResult<Option<Value>>) {
        let c_operand = pop_operand(arena)?;
        let b_operand = pop_operand(arena)?;
        assert(arena@.stack =~= old(arena)@.drop(2).stack);
        assert(arena@ == old(arena)@.drop(2));
        let a_operand = pop_operand(arena)?;
        assert(arena@.stack =~= old(arena)@.drop(3).stack);
        assert(arena@ == old(arena)@.drop(3));
        let cell = out_cell(arena, a_operand)?;
        let a = convert_argument::<A>(arena, pool, a_operand)?;
        let b = convert_argument::<B>(arena, pool, b_operand)?;
        let c = convert_argument::<C>(arena, pool, c_operand)?;
        let result = (self.function)(a, b, c);
        Ok(Some(finish_out(arena, cell, result)))
    }
}

/// The promise that promises nothing.
pub open spec fn assigning3_silent<A: FromVM + IntoVM, B: FromVM, C: FromVM, R: IntoVM>() -> spec_fn(A::V, B::V, C::V) -> Option<(R::V, A::V)> {
    |a: A::V, b: B::V, c: C::V| None::<(R::V, A::V)>
}

/// The function `function` in the form in which the machine calls it.
/// Nothing is promised of what it returns: only a call that fails for want
/// of an argument is determined.
pub fn assigning3<
    A: FromVM + IntoVM + 'static,
    B: FromVM + 'static,
    C: FromVM + 'static,
    R: IntoVM + 'static,
    F: Fn(A, B, C) -> RetOut<R, A> + 'static,
>(function: F) -> (r: VMFunction)
    requires
        forall|a: A, b: B, c: C| call_requires(function, (a, b, c, )),
    ensures
        r.callable(),
        r.arity() == 3,
        forall|s: State, pool: &Pool| #[trigger]
            r.effect(s, pool) == assigning3_effect::<A, B, C, R>(s, pool, assigning3_silent::<A, B, C, R>()),
{
    let thunk = Assigning3 {
        function,
        model: Ghost(assigning3_silent::<A, B, C, R>()),
        marker: PhantomData,
    };
    assert(thunk.callable());
    VMFunction { function: Box::new(thunk) }
}

/// The function `function` in the form in which the machine calls it, with
/// what it promises of its result.
pub fn assigning3_as<
    A: FromVM + IntoVM + 'static,
    B: FromVM + 'static,
    C: FromVM + 'static,
    R: IntoVM + 'static,
    F: Fn(A, B, C) -> RetOut<R, A> + 'static,
>(function: F, model: Ghost<spec_fn(A::V, B::V, C::V) -> Option<(R::V, A::V)>>) -> (r: VMFunction)
    requires
        forall|a: A, b: B, c: C| call_requires(function, (a, b, c, )),
        assigning3_keeps(function, model@),
    ensures
        r.callable(),
        r.arity() == 3,
        forall|s: State, pool: &Pool| #[trigger]
            r.effect(s, pool) == assigning3_effect::<A, B, C, R>(s, pool, model@),
{
    let thunk = Assigning3 { function, model, marker: PhantomData };
    assert(thunk.callable());
    VMFunction { function: Box::new(thunk) }
}

impl<
    A: FromVM + IntoVM + 'static,
    B: FromVM + 'static,
    C: FromVM + 'static,
    R: IntoVM + 'static,
    F: Fn(A, B, C) -> RetOut<R, A> + 'static,
> IntoVMFunction<(A, B, C, ), RetOut<R, A>> for F {
    open spec fn total(&self) -> bool {
        forall|a: A, b: B, c: C| self.requires((a, b, c, ))
    }

    open spec fn operands(&self) -> nat {
        3
    }

    open spec fn promised(&self, s: State, pool: &Pool) -> Option<
        Result<(State, Option<Value>), Fault>,
    > {
        assigning3_effect::<A, B, C, R>(s, pool, assigning3_silent::<A, B, C, R>())
    }

    fn into_vm_function(self) -> (r: VMFunction) {
        assigning3(self)
    }
}

/// Whether the function `f` keeps what `model` promises of it: for
/// arguments that are given by their views,
/// the value that the function returns and the value that it assigns.
/// Where `model` promises nothing, the result is up to the function.
pub open spec fn assigning4_keeps<
    A: FromVM + IntoVM,
    B: FromVM,
    C: FromVM,
    D: FromVM,
    R: IntoVM,
    F: Fn(A, B, C, D) -> RetOut<R, A>,
>(f: F, model: spec_fn(A::V, B::V, C::V, D::V) -> Option<(R::V, A::V)>) -> bool {
    forall|a: A, b: B, c: C, d: D, r: RetOut<R, A>|
        #[trigger] call_ensures(f, (a, b, c, d, ), r) ==> (model(a@, b@, c@, d@) matches Some(promised)
            ==> r.0@ == promised.0 && r.1@ == promised.1)
}

/// What a call does to the arena and what it gives back, as far as
/// `model` promises it: the arguments come off the operand stack, the last one
/// from the top. The call fails where an argument is missing or is not of
/// the type that the function takes.
pub open spec fn assigning4_effect<
    A: FromVM + IntoVM,
    B: FromVM,
    C: FromVM,
    D: FromVM,
    R: IntoVM,
>(s: State, pool: &Pool, model: spec_fn(A::V, B::V, C::V, D::V) -> Option<(R::V, A::V)>) -> Option<
    Result<(State, Option<Value>), Fault>,
> {
    let after = s.drop(4);
    let cell = pinned_cell(after.cells, s.peek(3));
    let av = A::taken_out(s.peek(3), after, pool);
    let bv = B::taken_out(s.peek(2), after, pool);
    let cv = C::taken_out(s.peek(1), after, pool);
    let dv = D::taken_out(s.peek(0), after, pool);
    if s.stack.len() < 4 {
        Some(Err(Fault::InvalidBytecode))
    } else if cell is None {
        Some(Err(Fault::InvalidArgument(NO_CELL@)))
    } else if av is None {
        Some(Err(Fault::InvalidArgument(A::refusal(s.peek(3), after, pool))))
    } else if bv is None {
        Some(Err(Fault::InvalidArgument(B::refusal(s.peek(2), after, pool))))
    } else if cv is None {
        Some(Err(Fault::InvalidArgument(C::refusal(s.peek(1), after, pool))))
    } else if dv is None {
        Some(Err(Fault::InvalidArgument(D::refusal(s.peek(0), after, pool))))
    } else {
        match model(av->Some_0, bv->Some_0, cv->Some_0, dv->Some_0) {
            Some(pair) => Some(
                Ok(
                    (
                        assigned::<R, A>(after, cell->Some_0, pair.0, pair.1).0,
                        Some(assigned::<R, A>(after, cell->Some_0, pair.0, pair.1).1),
                    ),
                ),
            ),
            None => None,
        }
    }
}

/// A host function of 4 arguments that returns a value and assigns to its
/// first argument.
pub struct Assigning4<A: FromVM + IntoVM, B: FromVM, C: FromVM, D: FromVM, R: IntoVM, F> {
    pub function: F,
    /// What the function promises of its result.
    pub model: Ghost<spec_fn(A::V, B::V, C::V, D::V) -> Option<(R::V, A::V)>>,
    pub marker: PhantomData<(A, B, C, D, R, )>,
}

impl<
    A: FromVM + IntoVM,
    B: FromVM,
    C: FromVM,
    D: FromVM,
    R: IntoVM,
    F: Fn(A, B, C, D) -> RetOut<R, A>,
> NativeFunction for Assigning4<A, B, C, D, R, F> {
    open spec fn callable(&self) -> bool {
        (forall|a: A, b: B, c: C, d: D| self.function.requires((a, b, c, d, )))
            && assigning4_keeps(self.function, self.model@)
    }

    open spec fn arity(&self) -> nat {
        4
    }

    open spec fn effect(&self, s: State, pool: &Pool) -> Option<
        Result<(State, Option<Value>), Fault>,
    > {
        assigning4_effect::<A, B, C, D, R>(s, pool, self.model@)
    }

    fn call(&self, arena: &mut Arena, pool: &Pool) -> (r: RuntimeResult<Option<Value>>) {
        let d_operand = pop_operand(arena)?;
        let c_operand = pop_operand(arena)?;
        assert(arena@.stack =~= old(arena)@.drop(2).stack);
        assert(arena@ == old(arena)@.drop(2));
        let b_operand = pop_operand(arena)?;
        assert(arena@.stack =~= old(arena)@.drop(3).stack);
        assert(arena@ == old(arena)@.drop(3));
        let a_operand = pop_operand(arena)?;
        assert(arena@.stack =~= old(arena)@.drop(4).stack);
        assert(arena@ == old(arena)@.drop(4));
        let cell = out_cell(arena, a_operand)?;
        let a = convert_argument::<A>(arena, pool, a_operand)?;
        let b = convert_argument::<B>(arena, pool, b_operand)?;
        let c = convert_argument::<C>(arena, pool, c_operand)?;
        let d = convert_argument::<D>(arena, pool, d_operand)?;
        let result = (self.function)(a, b, c, d);
        Ok(Some(finish_out(arena, cell, result)))
    }
}

/// The promise that promises nothing.
pub open spec fn assigning4_silent<A: FromVM + IntoVM, B: FromVM, C: FromVM, D: FromVM, R: IntoVM>() -> spec_fn(A::V, B::V, C::V, D::V) -> Option<(R::V, A::V)> {
    |a: A::V, b: B::V, c: C::V, d: D::V| None::<(R::V, A::V)>
}

/// The function `function` in the form in which the machine calls it.
/// Nothing is promised of what it returns: only a call that fails for want
/// of an argument is determined.
pub fn assigning4<
    A: FromVM + IntoVM + 'static,
    B: FromVM + 'static,
    C: FromVM + 'static,
    D: FromVM + 'static,
    R: IntoVM + 'static,
    F: Fn(A, B, C, D) -> RetOut<R, A> + 'static,
>(function: F) -> (r: VMFunction)
    requires
        forall|a: A, b: B, c: C, d: D| call_requires(function, (a, b, c, d, )),
    ensures
        r.callable(),
        r.arity() == 4,
        forall|s: State, pool: &Pool| #[trigger]
            r.effect(s, pool) == assigning4_effect::<A, B, C, D, R>(s, pool, assigning4_silent::<A, B, C, D, R>()),
{
    let thunk = Assigning4 {
        function,
        model: Ghost(assigning4_silent::<A, B, C, D, R>()),
        marker: PhantomData,
    };
    assert(thunk.callable());
    VMFunction { function: Box::new(thunk) }
}

/// The function `function` in the form in which the machine calls it, with
/// what it promises of its result.
pub fn assigning4_as<
    A: FromVM + IntoVM + 'static,
    B: FromVM + 'static,
    C: FromVM + 'static,
    D: FromVM + 'static,
    R: IntoVM + 'static,
    F: Fn(A, B, C, D) -> RetOut<R, A> + 'static,
>(function: F, model: Ghost<spec_fn(A::V, B::V, C::V, D::V) -> Option<(R::V, A::V)>>) -> (r: VMFunction)
    requires
        forall|a: A, b: B, c: C, d: D| call_requires(function, (a, b, c, d, )),
        assigning4_keeps(function, model@),
    ensures
        r.callable(),
        r.arity() == 4,
        forall|s: State, pool: &Pool| #[trigger]
            r.effect(s, pool) == assigning4_effect::<A, B, C, D, R>(s, pool, model@),
{
    let thunk = Assigning4 { function, model, marker: PhantomData };
    assert(thunk.callable());
    VMFunction { function: Box::new(thunk) }
}

impl<
    A: FromVM + IntoVM + 'static,
    B: FromVM + 'static,
    C: FromVM + 'static,
    D: FromVM + 'static,
    R: IntoVM + 'static,
    F: Fn(A, B, C, D) -> RetOut<R, A> + 'static,
> IntoVMFunction<(A, B, C, D, ), RetOut<R, A>> for F {
    open spec fn total(&self) -> bool {
        forall|a: A, b: B, c: C, d: D| self.requires((a, b, c, d, ))
    }

    open spec fn operands(&self) -> nat {
        4
    }

    open spec fn promised(&self, s: State, pool: &Pool) -> Option<
        Result<(State, Option<Value>), Fault>,
    > {
        assigning4_effect::<A, B, C, D, R>(s, pool, assigning4_silent::<A, B, C, D, R>())
    }

    fn into_vm_function(self) -> (r: VMFunction) {
        assigning4(self)
    }
}

/// Whether the function `f` keeps what `model` promises of it: for
/// arguments that are given by their views,
/// the value that the function returns, or that it fails.
/// Where `model` promises nothing, the result is up to the function.
pub open spec fn partial2_keeps<
    A: FromVM,
    B: FromVM,
    R: IntoVM,
    F: Fn(A, B) -> Option<Ret<R>>,
>(f: F, model: spec_fn(A::V, B::V) -> Option<Option<R::V>>) -> bool {
    forall|a: A, b: B, r: Option<Ret<R>>|
        #[trigger] call_ensures(f, (a, b, ), r) ==> (model(a@, b@) matches Some(promised)
            ==> (match promised {
                Some(value) => r matches Some(x) && x.0@ == value,
                None => r is None,
            }))
}

/// What a call does to the arena and what it gives back, as far as
/// `model` promises it: the arguments come off the operand stack, the last one
/// from the top. The call fails where an argument is missing or is not of
/// the type that the function takes.
pub open spec fn partial2_effect<
    A: FromVM,
    B: FromVM,
    R: IntoVM,
>(s: State, pool: &Pool, model: spec_fn(A::V, B::V) -> Option<Option<R::V>>) -> Option<
    Result<(State, Option<Value>), Fault>,
> {
    let after = s.drop(2);
    let bv = B::taken_out(s.peek(0), s, pool);
    let av = A::taken_out(s.peek(1), s.drop(1), pool);
    if s.stack.len() < 1 {
        Some(Err(Fault::InvalidBytecode))
    } else if bv is None {
        Some(Err(Fault::InvalidArgument(B::refusal(s.peek(0), s, pool))))
    } else if s.stack.len() < 2 {
        Some(Err(Fault::InvalidBytecode))
    } else if av is None {
        Some(Err(Fault::InvalidArgument(A::refusal(s.peek(1), s.drop(1), pool))))
    } else {
        match model(av->Some_0, bv->Some_0) {
            Some(Some(value)) => Some(
                Ok((R::handed_over(value, after).0, Some(R::handed_over(value, after).1))),
            ),
            Some(None) => Some(Err(Fault::Arithmetic)),
            None => None,
        }
    }
}

/// A host function of 2 arguments that returns a value or fails.
pub struct Partial2<A: FromVM, B: FromVM, R: IntoVM, F> {
    pub function: F,
    /// What the function promises of its result.
    pub model: Ghost<spec_fn(A::V, B::V) -> Option<Option<R::V>>>,
    pub marker: PhantomData<(A, B, R, )>,
}

impl<
    A: FromVM,
    B: FromVM,
    R: IntoVM,
    F: Fn(A, B) -> Option<Ret<R>>,
> NativeFunction for Partial2<A, B, R, F> {
    open spec fn callable(&self) -> bool {
        (forall|a: A, b: B| self.function.requires((a, b, )))
            && partial2_keeps(self.function, self.model@)
    }

    open spec fn arity(&self) -> nat {
        2
    }

    open spec fn effect(&self, s: State, pool: &Pool) -> Option<
        Result<(State, Option<Value>), Fault>,
    > {
        partial2_effect::<A, B, R>(s, pool, self.model@)
    }

    fn call(&self, arena: &mut Arena, pool: &Pool) -> (r: RuntimeResult<Option<Value>>) {
        let b = pop_argument::<B>(arena, pool)?;
        let a = pop_argument::<A>(arena, pool)?;
        assert(arena@.stack =~= old(arena)@.drop(2).stack);
        assert(arena@ == old(arena)@.drop(2));
        match (self.function)(a, b) {
            Some(result) => Ok(Some(result.0.into_vm(arena))),
            None => Err(RuntimeError::Arithmetic),
        }
    }
}

/// The promise that promises nothing.
pub open spec fn partial2_silent<A: FromVM, B: FromVM, R: IntoVM>() -> spec_fn(A::V, B::V) -> Option<Option<R::V>> {
    |a: A::V, b: B::V| None::<Option<R::V>>
}

/// The function `function` in the form in which the machine calls it.
/// Nothing is promised of what it returns: only a call that fails for want
/// of an argument is determined.
pub fn partial2<
    A: FromVM + 'static,
    B: FromVM + 'static,
    R: IntoVM + 'static,
    F: Fn(A, B) -> Option<Ret<R>> + 'static,
>(function: F) -> (r: VMFunction)
    requires
        forall|a: A, b: B| call_requires(function, (a, b, )),
    ensures
        r.callable(),
        r.arity() == 2,
        forall|s: State, pool: &Pool| #[trigger]
            r.effect(s, pool) == partial2_effect::<A, B, R>(s, pool, partial2_silent::<A, B, R>()),
{
    let thunk = Partial2 {
        function,
        model: Ghost(partial2_silent::<A, B, R>()),
        marker: PhantomData,
    };
    assert(thunk.callable());
    VMFunction { function: Box::new(thunk) }
}

/// The function `function` in the form in which the machine calls it, with
/// what it promises of its result.
pub fn partial2_as<
    A: FromVM + 'static,
    B: FromVM + 'static,
    R: IntoVM + 'static,
    F: Fn(A, B) -> Option<Ret<R>> + 'static,
>(function: F, model: Ghost<spec_fn(A::V, B::V) -> Option<Option<R::V>>>) -> (r: VMFunction)
    requires
        forall|a: A, b: B| call_requires(function, (a, b, )),
        partial2_keeps(function, model@),
    ensures
        r.callable(),
        r.arity() == 2,
        forall|s: State, pool: &Pool| #[trigger]
            r.effect(s, pool) == partial2_effect::<A, B, R>(s, pool, model@),
{
    let thunk = Partial2 { function, model, marker: PhantomData };
    assert(thunk.callable());
    VMFunction { function: Box::new(thunk) }
}

impl<
    A: FromVM + 'static,
    B: FromVM + 'static,
    R: IntoVM + 'static,
    F: Fn(A, B) -> Option<Ret<R>> + 'static,
> IntoVMFunction<(A, B, ), Option<Ret<R>>> for F {
    open spec fn total(&self) -> bool {
        forall|a: A, b: B| self.requires((a, b, ))
    }

    open spec fn operands(&self) -> nat {
        2
    }

    open spec fn promised(&self, s: State, pool: &Pool) -> Option<
        Result<(State, Option<Value>), Fault>,
    > {
        partial2_effect::<A, B, R>(s, pool, partial2_silent::<A, B, R>())
    }

    fn into_vm_function(self) -> (r: VMFunction) {
        partial2(self)
    }
}

/// Whether the function `f` keeps what `model` promises of it: for
/// arguments that are given by their views,
/// the value that the function returns and the value that it assigns, or that it
/// fails.
/// Where `model` promises nothing, the result is up to the function.
pub open spec fn partial_assigning2_keeps<
    A: FromVM + IntoVM,
    B: FromVM,
    R: IntoVM,
    F: Fn(A, B) -> Option<RetOut<R, A>>,
>(f: F, model: spec_fn(A::V, B::V) -> Option<Option<(R::V, A::V)>>) -> bool {
    forall|a: A, b: B, r: Option<RetOut<R, A>>|
        #[trigger] call_ensures(f, (a, b, ), r) ==> (model(a@, b@) matches Some(promised)
            ==> (match promised {
                Some(pair) => r matches Some(x) && x.0@ == pair.0 && x.1@ == pair.1,
                None => r is None,
            }))
}

/// What a call does to the arena and what it gives back, as far as
/// `model` promises it: the arguments come off the operand stack, the last one
/// from the top. The call fails where an argument is missing or is not of
/// the type that the function takes.
pub open spec fn partial_assigning2_effect<
    A: FromVM + IntoVM,
    B: FromVM,
    R: IntoVM,
>(s: State, pool: &Pool, model: spec_fn(A::V, B::V) -> Option<Option<(R::V, A::V)>>) -> Option<
    Result<(State, Option<Value>), Fault>,
> {
    let after = s.drop(2);
    let cell = pinned_cell(after.cells, s.peek(1));
    let av = A::taken_out(s.peek(1), after, pool);
    let bv = B::taken_out(s.peek(0), after, pool);
    if s.stack.len() < 2 {
        Some(Err(Fault::InvalidBytecode))
    } else if cell is None {
        Some(Err(Fault::InvalidArgument(NO_CELL@)))
    } else if av is None {
        Some(Err(Fault::InvalidArgument(A::refusal(s.peek(1), after, pool))))
    } else if bv is None {
        Some(Err(Fault::InvalidArgument(B::refusal(s.peek(0), after, pool))))
    } else {
        match model(av->Some_0, bv->Some_0) {
            Some(Some(pair)) => Some(
                Ok(
                    (
                        assigned::<R, A>(after, cell->Some_0, pair.0, pair.1).0,
                        Some(assigned::<R, A>(after, cell->Some_0, pair.0, pair.1).1),
                    ),
                ),
            ),
            Some(None) => Some(Err(Fault::Arithmetic)),
            None => None,
        }
    }
}

/// A host function of 2 arguments that returns a value and assigns to its
/// first argument, or fails.
pub struct PartialAssigning2<A: FromVM + IntoVM, B: FromVM, R: IntoVM, F> {
    pub function: F,
    /// What the function promises of its result.
    pub model: Ghost<spec_fn(A::V, B::V) -> Option<Option<(R::V, A::V)>>>,
    pub marker: PhantomData<(A, B, R, )>,
}

impl<
    A: FromVM + IntoVM,
    B: FromVM,
    R: IntoVM,
    F: Fn(A, B) -> Option<RetOut<R, A>>,
> NativeFunction for PartialAssigning2<A, B, R, F> {
    open spec fn callable(&self) -> bool {
        (forall|a: A, b: B| self.function.requires((a, b, )))
            && partial_assigning2_keeps(self.function, self.model@)
    }

    open spec fn arity(&self) -> nat {
        2
    }

    open spec fn effect(&self, s: State, pool: &Pool) -> Option<
        Result<(State, Option<Value>), Fault>,
    > {
        partial_assigning2_effect::<A, B, R>(s, pool, self.model@)
    }

    fn call(&self, arena: &mut Arena, pool: &Pool) -> (r: RuntimeResult<Option<Value>>) {
        let b_operand = pop_operand(arena)?;
        let a_operand = pop_operand(arena)?;
        assert(arena@.stack =~= old(arena)@.drop(2).stack);
        assert(arena@ == old(arena)@.drop(2));
        let cell = out_cell(arena, a_operand)?;
        let a = convert_argument::<A>(arena, pool, a_operand)?;
        let b = convert_argument::<B>(arena, pool, b_operand)?;
        match (self.function)(a, b) {
            Some(result) => Ok(Some(finish_out(arena, cell, result))),
            None => Err(RuntimeError::Arithmetic),
        }
    }
}

/// The promise that promises nothing.
pub open spec fn partial_assigning2_silent<A: FromVM + IntoVM, B: FromVM, R: IntoVM>() -> spec_fn(A::V, B::V) -> Option<Option<(R::V, A::V)>> {
    |a: A::V, b: B::V| None::<Option<(R::V, A::V)>>
}

/// The function `function` in the form in which the machine calls it.
/// Nothing is promised of what it returns: only a call that fails for want
/// of an argument is determined.
pub fn partial_assigning2<
    A: FromVM + IntoVM + 'static,
    B: FromVM + 'static,
    R: IntoVM + 'static,
    F: Fn(A, B) -> Option<RetOut<R, A>> + 'static,
>(function: F) -> (r: VMFunction)
    requires
        forall|a: A, b: B| call_requires(function, (a, b, )),
    ensures
        r.callable(),
        r.arity() == 2,
        forall|s: State, pool: &Pool| #[trigger]
            r.effect(s, pool) == partial_assigning2_effect::<A, B, R>(s, pool, partial_assigning2_silent::<A, B, R>()),
{
    let thunk = PartialAssigning2 {
        function,
        model: Ghost(partial_assigning2_silent::<A, B, R>()),
        marker: PhantomData,
    };
    assert(thunk.callable());
    VMFunction { function: Box::new(thunk) }
}

/// The function `function` in the form in which the machine calls it, with
/// what it promises of its result.
pub fn partial_assigning2_as<
    A: FromVM + IntoVM + 'static,
    B: FromVM + 'static,
    R: IntoVM + 'static,
    F: Fn(A, B) -> Option<RetOut<R, A>> + 'static,
>(function: F, model: Ghost<spec_fn(A::V, B::V) -> Option<Option<(R::V, A::V)>>>) -> (r: VMFunction)
    requires
        forall|a: A, b: B| call_requires(function, (a, b, )),
        partial_assigning2_keeps(function, model@),
    ensures
        r.callable(),
        r.arity() == 2,
        forall|s: State, pool: &Pool| #[trigger]
            r.effect(s, pool) == partial_assigning2_effect::<A, B, R>(s, pool, model@),
{
    let thunk = PartialAssigning2 { function, model, marker: PhantomData };
    assert(thunk.callable());
    VMFunction { function: Box::new(thunk) }
}

impl<
    A: FromVM + IntoVM + 'static,
    B: FromVM + 'static,
    R: IntoVM + 'static,
    F: Fn(A, B) -> Option<RetOut<R, A>> + 'static,
> IntoVMFunction<(A, B, ), Option<RetOut<R, A>>> for F {
    open spec fn total(&self) -> bool {
        forall|a: A, b: B| self.requires((a, b, ))
    }

    open spec fn operands(&self) -> nat {
        2
    }

    open spec fn promised(&self, s: State, pool: &Pool) -> Option<
        Result<(State, Option<Value>), Fault>,
    > {
        partial_assigning2_effect::<A, B, R>(s, pool, partial_assigning2_silent::<A, B, R>())
    }

    fn into_vm_function(self) -> (r: VMFunction) {
        partial_assigning2(self)
    }
}

} // verus!
