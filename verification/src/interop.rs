//! Passing values between the machine and functions of the host.
use vstd::prelude::*;
use crate::arena::{Arena, Cell};
use crate::error::{Fault, RuntimeError, RuntimeResult};
use crate::pool::{Pool, PoolIndex};
use crate::state::{str_at, unpinned, CellView, State};
use crate::value::{StringType, Value};

verus! {

/// The result of a host function that returns a value.
pub struct Ret<A>(pub A);

/// The result of a host function that returns a value and assigns another
/// to its first argument.
pub struct RetOut<A, B>(pub A, pub B);

/// A host type whose values can be handed to the machine.
pub trait IntoVM: Sized + View {
    /// The state after a value with the view `v` was handed over, and the
    /// value that stands for it there.
    spec fn handed_over(v: Self::V, s: State) -> (State, Value);

    fn into_vm(self, arena: &mut Arena) -> (r: Value)
        requires
            old(arena).wf(),
        ensures
            final(arena).wf(),
            (final(arena)@, r) == Self::handed_over(self@, old(arena)@),
            final(arena)@.frames == old(arena)@.frames,
            final(arena)@.contexts == old(arena)@.contexts,
            final(arena)@.stack == old(arena)@.stack,
            old(arena)@.kept_in(final(arena)@),
    ;
}

/// A host type whose values can be taken out of the machine.
pub trait FromVM: Sized + View {
    /// The view of the host value that `val` stands for, if it stands for
    /// one of this type.
    spec fn taken_out(val: Value, s: State, pool: &Pool) -> Option<Self::V>;

    /// What is said of a value that stands for none of this type.
    spec fn refusal(val: Value, s: State, pool: &Pool) -> Seq<char>;

    fn from_vm(val: Value, arena: &Arena, pool: &Pool) -> (r: Result<Self, &'static str>)
        ensures
            r.is_ok() == Self::taken_out(val, arena@, pool).is_some(),
            r matches Ok(x) ==> Self::taken_out(val, arena@, pool) == Some(x@),
            r matches Err(message) ==> message@ == Self::refusal(val, arena@, pool),
    ;
}

/// A function of the host in the form in which the machine calls it: it
/// takes its arguments from the operand stack, the last one from the top,
/// and hands back what it returns.
pub trait NativeFunction {
    /// Whether the function can be called.
    spec fn callable(&self) -> bool;

    /// The number of operands that a call takes from the stack.
    spec fn arity(&self) -> nat;

    /// What a call does to the arena and what it gives back, where that is
    /// determined by what the function promises; none where it is up to the
    /// host.
    spec fn effect(&self, s: State, pool: &Pool) -> Option<Result<(State, Option<Value>), Fault>>;

    fn call(&self, arena: &mut Arena, pool: &Pool) -> (r: RuntimeResult<Option<Value>>)
        requires
            self.callable(),
            old(arena).wf(),
        ensures
            final(arena).wf(),
            final(arena)@.frames == old(arena)@.frames,
            final(arena)@.contexts == old(arena)@.contexts,
            r is Ok ==> old(arena)@.stack.len() >= self.arity() && final(arena)@.stack == old(
                arena,
            )@.stack.take(old(arena)@.stack.len() - self.arity()),
            follows_effect(self.effect(old(arena)@, pool), r, final(arena)@),
    ;
}

/// Whether a call that ended with `r` and left the arena as `after` did
/// what `effect` describes, where it describes something.
pub open spec fn follows_effect(
    effect: Option<Result<(State, Option<Value>), Fault>>,
    r: RuntimeResult<Option<Value>>,
    after: State,
) -> bool {
    match effect {
        None => true,
        Some(Ok((state, value))) => r == Ok::<Option<Value>, RuntimeError>(value) && after == state,
        Some(Err(fault)) => r matches Err(e) && e@ == fault,
    }
}

/// A host function as the machine keeps it.
pub struct VMFunction {
    pub function: Box<dyn NativeFunction>,
}

impl VMFunction {
    pub open spec fn callable(&self) -> bool {
        self.function.callable()
    }

    pub open spec fn arity(&self) -> nat {
        self.function.arity()
    }

    pub open spec fn effect(&self, s: State, pool: &Pool) -> Option<
        Result<(State, Option<Value>), Fault>,
    > {
        self.function.effect(s, pool)
    }

    pub fn call(&self, arena: &mut Arena, pool: &Pool) -> (r: RuntimeResult<Option<Value>>)
        requires
            self.callable(),
            old(arena).wf(),
        ensures
            final(arena).wf(),
            final(arena)@.frames == old(arena)@.frames,
            final(arena)@.contexts == old(arena)@.contexts,
            r is Ok ==> old(arena)@.stack.len() >= self.arity() && final(arena)@.stack == old(
                arena,
            )@.stack.take(old(arena)@.stack.len() - self.arity()),
            follows_effect(self.effect(old(arena)@, pool), r, final(arena)@),
    {
        self.function.call(arena, pool)
    }
}

/// A host function that can be put into the form in which the machine calls
/// it. `A` stands for its argument types and `R` for the form of its result.
pub trait IntoVMFunction<A, R>: Sized {
    /// Whether the function accepts every argument.
    spec fn total(&self) -> bool;

    /// The number of operands that a call takes from the stack.
    spec fn operands(&self) -> nat;

    /// What a call does to the arena and what it gives back, as far as the
    /// form of the function determines it; none where it is up to the host.
    spec fn promised(&self, s: State, pool: &Pool) -> Option<
        Result<(State, Option<Value>), Fault>,
    >;

    fn into_vm_function(self) -> (r: VMFunction)
        requires
            self.total(),
        ensures
            r.callable(),
            r.arity() == self.operands(),
            forall|s: State, pool: &Pool| #[trigger] r.effect(s, pool) == self.promised(s, pool),
    ;
}

/// Takes the topmost operand and converts it to the host type `A`.
pub fn pop_argument<A: FromVM>(arena: &mut Arena, pool: &Pool) -> (r: RuntimeResult<A>)
    requires
        old(arena).wf(),
    ensures
        final(arena).wf(),
        match r {
            Ok(x) => old(arena)@.stack.len() > 0 && final(arena)@ == old(arena)@.drop(1)
                && A::taken_out(old(arena)@.peek(0), old(arena)@, pool) == Some(x@),
            Err(e) => final(arena)@ == old(arena)@ && (if old(arena)@.stack.len() == 0 {
                e is InvalidBytecode
            } else {
                A::taken_out(old(arena)@.peek(0), old(arena)@, pool) is None && e@
                    == Fault::InvalidArgument(
                    A::refusal(old(arena)@.peek(0), old(arena)@, pool),
                )
            }),
        },
{
    if arena.stack_len() == 0 {
        return Err(RuntimeError::InvalidBytecode);
    }
    let val = arena.peek(0);
    match A::from_vm(val, arena, pool) {
        Ok(x) => {
            arena.drop_operands(1);
            Ok(x)
        },
        Err(message) => Err(RuntimeError::InvalidArgument(message.to_owned())),
    }
}

/// A host type that can go both ways. What was handed to the machine is
/// what comes back out of it, in every state that an arena can be in.
pub trait HostValue: IntoVM + FromVM {
    proof fn round_trip(v: Self::V, s: State, pool: &Pool)
        requires
            s.cells.len() <= usize::MAX,
        ensures
            Self::taken_out(Self::handed_over(v, s).1, Self::handed_over(v, s).0, pool) == Some(v),
    ;
}

/// A 32-bit number with a fraction, by its IEEE 754 bits.
#[derive(Clone, Copy, Debug, PartialEq, Eq, Structural)]
pub struct Float(pub u32);

/// A 64-bit number with a fraction, by its IEEE 754 bits.
#[derive(Clone, Copy, Debug, PartialEq, Eq, Structural)]
pub struct Double(pub u64);

impl View for Float {
    type V = u32;

    open spec fn view(&self) -> u32 {
        self.0
    }
}

impl View for Double {
    type V = u64;

    open spec fn view(&self) -> u64 {
        self.0
    }
}

impl IntoVM for i8 {
    open spec fn handed_over(v: i8, s: State) -> (State, Value) {
        (s, Value::I8(v))
    }

    fn into_vm(self, arena: &mut Arena) -> (r: Value) {
        Value::I8(self)
    }
}

impl FromVM for i8 {
    open spec fn taken_out(val: Value, s: State, pool: &Pool) -> Option<i8> {
        match unpinned(s.cells, val) {
            Value::I8(i) => Some(i),
            _ => None,
        }
    }

    open spec fn refusal(val: Value, s: State, pool: &Pool) -> Seq<char> {
        "Invalid argument, expected I8"@
    }

    fn from_vm(val: Value, arena: &Arena, pool: &Pool) -> (r: Result<Self, &'static str>) {
        match arena.unpinned(val) {
            Value::I8(i) => Ok(i),
            _ => Err("Invalid argument, expected I8"),
        }
    }
}

impl HostValue for i8 {
    proof fn round_trip(v: i8, s: State, pool: &Pool) {
    }
}

impl IntoVM for i16 {
    open spec fn handed_over(v: i16, s: State) -> (State, Value) {
        (s, Value::I16(v))
    }

    fn into_vm(self, arena: &mut Arena) -> (r: Value) {
        Value::I16(self)
    }
}

impl FromVM for i16 {
    open spec fn taken_out(val: Value, s: State, pool: &Pool) -> Option<i16> {
        match unpinned(s.cells, val) {
            Value::I16(i) => Some(i),
            _ => None,
        }
    }

    open spec fn refusal(val: Value, s: State, pool: &Pool) -> Seq<char> {
        "Invalid argument, expected I16"@
    }

    fn from_vm(val: Value, arena: &Arena, pool: &Pool) -> (r: Result<Self, &'static str>) {
        match arena.unpinned(val) {
            Value::I16(i) => Ok(i),
            _ => Err("Invalid argument, expected I16"),
        }
    }
}

impl HostValue for i16 {
    proof fn round_trip(v: i16, s: State, pool: &Pool) {
    }
}

impl IntoVM for i32 {
    open spec fn handed_over(v: i32, s: State) -> (State, Value) {
        (s, Value::I32(v))
    }

    fn into_vm(self, arena: &mut Arena) -> (r: Value) {
        Value::I32(self)
    }
}

impl FromVM for i32 {
    open spec fn taken_out(val: Value, s: State, pool: &Pool) -> Option<i32> {
        match unpinned(s.cells, val) {
            Value::I32(i) => Some(i),
            _ => None,
        }
    }

    open spec fn refusal(val: Value, s: State, pool: &Pool) -> Seq<char> {
        "Invalid argument, expected I32"@
    }

    fn from_vm(val: Value, arena: &Arena, pool: &Pool) -> (r: Result<Self, &'static str>) {
        match arena.unpinned(val) {
            Value::I32(i) => Ok(i),
            _ => Err("Invalid argument, expected I32"),
        }
    }
}

impl HostValue for i32 {
    proof fn round_trip(v: i32, s: State, pool: &Pool) {
    }
}

impl IntoVM for i64 {
    open spec fn handed_over(v: i64, s: State) -> (State, Value) {
        (s, Value::I64(v))
    }

    fn into_vm(self, arena: &mut Arena) -> (r: Value) {
        Value::I64(self)
    }
}

impl FromVM for i64 {
    open spec fn taken_out(val: Value, s: State, pool: &Pool) -> Option<i64> {
        match unpinned(s.cells, val) {
            Value::I64(i) => Some(i),
            _ => None,
        }
    }

    open spec fn refusal(val: Value, s: State, pool: &Pool) -> Seq<char> {
        "Invalid argument, expected I64"@
    }

    fn from_vm(val: Value, arena: &Arena, pool: &Pool) -> (r: Result<Self, &'static str>) {
        match arena.unpinned(val) {
            Value::I64(i) => Ok(i),
            _ => Err("Invalid argument, expected I64"),
        }
    }
}

impl HostValue for i64 {
    proof fn round_trip(v: i64, s: State, pool: &Pool) {
    }
}

impl IntoVM for u8 {
    open spec fn handed_over(v: u8, s: State) -> (State, Value) {
        (s, Value::U8(v))
    }

    fn into_vm(self, arena: &mut Arena) -> (r: Value) {
        Value::U8(self)
    }
}

impl FromVM for u8 {
    open spec fn taken_out(val: Value, s: State, pool: &Pool) -> Option<u8> {
        match unpinned(s.cells, val) {
            Value::U8(i) => Some(i),
            _ => None,
        }
    }

    open spec fn refusal(val: Value, s: State, pool: &Pool) -> Seq<char> {
        "Invalid argument, expected U8"@
    }

    fn from_vm(val: Value, arena: &Arena, pool: &Pool) -> (r: Result<Self, &'static str>) {
        match arena.unpinned(val) {
            Value::U8(i) => Ok(i),
            _ => Err("Invalid argument, expected U8"),
        }
    }
}

impl HostValue for u8 {
    proof fn round_trip(v: u8, s: State, pool: &Pool) {
    }
}

impl IntoVM for u16 {
    open spec fn handed_over(v: u16, s: State) -> (State, Value) {
        (s, Value::U16(v))
    }

    fn into_vm(self, arena: &mut Arena) -> (r: Value) {
        Value::U16(self)
    }
}

impl FromVM for u16 {
    open spec fn taken_out(val: Value, s: State, pool: &Pool) -> Option<u16> {
        match unpinned(s.cells, val) {
            Value::U16(i) => Some(i),
            _ => None,
        }
    }

    open spec fn refusal(val: Value, s: State, pool: &Pool) -> Seq<char> {
        "Invalid argument, expected U16"@
    }

    fn from_vm(val: Value, arena: &Arena, pool: &Pool) -> (r: Result<Self, &'static str>) {
        match arena.unpinned(val) {
            Value::U16(i) => Ok(i),
            _ => Err("Invalid argument, expected U16"),
        }
    }
}

impl HostValue for u16 {
    proof fn round_trip(v: u16, s: State, pool: &Pool) {
    }
}

impl IntoVM for u32 {
    open spec fn handed_over(v: u32, s: State) -> (State, Value) {
        (s, Value::U32(v))
    }

    fn into_vm(self, arena: &mut Arena) -> (r: Value) {
        Value::U32(self)
    }
}

impl FromVM for u32 {
    open spec fn taken_out(val: Value, s: State, pool: &Pool) -> Option<u32> {
        match unpinned(s.cells, val) {
            Value::U32(i) => Some(i),
            _ => None,
        }
    }

    open spec fn refusal(val: Value, s: State, pool: &Pool) -> Seq<char> {
        "Invalid argument, expected U32"@
    }

    fn from_vm(val: Value, arena: &Arena, pool: &Pool) -> (r: Result<Self, &'static str>) {
        match arena.unpinned(val) {
            Value::U32(i) => Ok(i),
            _ => Err("Invalid argument, expected U32"),
        }
    }
}

impl HostValue for u32 {
    proof fn round_trip(v: u32, s: State, pool: &Pool) {
    }
}

impl IntoVM for u64 {
    open spec fn handed_over(v: u64, s: State) -> (State, Value) {
        (s, Value::U64(v))
    }

    fn into_vm(self, arena: &mut Arena) -> (r: Value) {
        Value::U64(self)
    }
}

impl FromVM for u64 {
    open spec fn taken_out(val: Value, s: State, pool: &Pool) -> Option<u64> {
        match unpinned(s.cells, val) {
            Value::U64(i) => Some(i),
            _ => None,
        }
    }

    open spec fn refusal(val: Value, s: State, pool: &Pool) -> Seq<char> {
        "Invalid argument, expected U64"@
    }

    fn from_vm(val: Value, arena: &Arena, pool: &Pool) -> (r: Result<Self, &'static str>) {
        match arena.unpinned(val) {
            Value::U64(i) => Ok(i),
            _ => Err("Invalid argument, expected U64"),
        }
    }
}

impl HostValue for u64 {
    proof fn round_trip(v: u64, s: State, pool: &Pool) {
    }
}

impl IntoVM for bool {
    open spec fn handed_over(v: bool, s: State) -> (State, Value) {
        (s, Value::Bool(v))
    }

    fn into_vm(self, arena: &mut Arena) -> (r: Value) {
        Value::Bool(self)
    }
}

impl FromVM for bool {
    open spec fn taken_out(val: Value, s: State, pool: &Pool) -> Option<bool> {
        match unpinned(s.cells, val) {
            Value::Bool(i) => Some(i),
            _ => None,
        }
    }

    open spec fn refusal(val: Value, s: State, pool: &Pool) -> Seq<char> {
        "Invalid argument, expected Bool"@
    }

    fn from_vm(val: Value, arena: &Arena, pool: &Pool) -> (r: Result<Self, &'static str>) {
        match arena.unpinned(val) {
            Value::Bool(i) => Ok(i),
            _ => Err("Invalid argument, expected Bool"),
        }
    }
}

impl HostValue for bool {
    proof fn round_trip(v: bool, s: State, pool: &Pool) {
    }
}

impl IntoVM for Float {
    open spec fn handed_over(v: u32, s: State) -> (State, Value) {
        (s, Value::F32(v))
    }

    fn into_vm(self, arena: &mut Arena) -> (r: Value) {
        Value::F32(self.0)
    }
}

impl FromVM for Float {
    open spec fn taken_out(val: Value, s: State, pool: &Pool) -> Option<u32> {
        match unpinned(s.cells, val) {
            Value::F32(i) => Some(i),
            _ => None,
        }
    }

    open spec fn refusal(val: Value, s: State, pool: &Pool) -> Seq<char> {
        "Invalid argument, expected F32"@
    }

    fn from_vm(val: Value, arena: &Arena, pool: &Pool) -> (r: Result<Self, &'static str>) {
        match arena.unpinned(val) {
            Value::F32(i) => Ok(Float(i)),
            _ => Err("Invalid argument, expected F32"),
        }
    }
}

impl HostValue for Float {
    proof fn round_trip(v: u32, s: State, pool: &Pool) {
    }
}

impl IntoVM for Double {
    open spec fn handed_over(v: u64, s: State) -> (State, Value) {
        (s, Value::F64(v))
    }

    fn into_vm(self, arena: &mut Arena) -> (r: Value) {
        Value::F64(self.0)
    }
}

impl FromVM for Double {
    open spec fn taken_out(val: Value, s: State, pool: &Pool) -> Option<u64> {
        match unpinned(s.cells, val) {
            Value::F64(i) => Some(i),
            _ => None,
        }
    }

    open spec fn refusal(val: Value, s: State, pool: &Pool) -> Seq<char> {
        "Invalid argument, expected F64"@
    }

    fn from_vm(val: Value, arena: &Arena, pool: &Pool) -> (r: Result<Self, &'static str>) {
        match arena.unpinned(val) {
            Value::F64(i) => Ok(Double(i)),
            _ => Err("Invalid argument, expected F64"),
        }
    }
}

impl HostValue for Double {
    proof fn round_trip(v: u64, s: State, pool: &Pool) {
    }
}

/// The text that `val` stands for: that of a string made at run time, or of
/// an interned string of the string table.
pub open spec fn text_of(val: Value, s: State, pool: &Pool) -> Option<Seq<char>> {
    match unpinned(s.cells, val) {
        Value::Str(h) => str_at(s.cells, h),
        Value::InternStr(StringType::String, idx) => pool.spec_string(PoolIndex(idx.0)),
        _ => None,
    }
}

/// The state with a new string cell that holds `text`, and the value that
/// points at it.
pub open spec fn new_string(text: Seq<char>, s: State) -> (State, Value) {
    (s.allocate(CellView::Str(text)).0, Value::Str(s.allocate(CellView::Str(text)).1))
}

impl IntoVM for String {
    open spec fn handed_over(v: Seq<char>, s: State) -> (State, Value) {
        new_string(v, s)
    }

    fn into_vm(self, arena: &mut Arena) -> (r: Value) {
        let h = arena.allocate(Cell::Str(self));
        Value::Str(h)
    }
}

impl FromVM for String {
    open spec fn taken_out(val: Value, s: State, pool: &Pool) -> Option<Seq<char>> {
        text_of(val, s, pool)
    }

    open spec fn refusal(val: Value, s: State, pool: &Pool) -> Seq<char> {
        match unpinned(s.cells, val) {
            Value::InternStr(StringType::String, _) => "Unknown string constant"@,
            _ => "Invalid argument, expected String"@,
        }
    }

    fn from_vm(val: Value, arena: &Arena, pool: &Pool) -> (r: Result<Self, &'static str>) {
        match arena.unpinned(val) {
            Value::Str(h) => match arena.string(h) {
                Some(text) => Ok(text.clone()),
                None => Err("Invalid argument, expected String"),
            },
            Value::InternStr(StringType::String, idx) => match pool.string(idx.to_pool()) {
                Some(text) => Ok(text.clone()),
                None => Err("Unknown string constant"),
            },
            _ => Err("Invalid argument, expected String"),
        }
    }
}

impl HostValue for String {
    proof fn round_trip(v: Seq<char>, s: State, pool: &Pool) {
    }
}

impl IntoVM for &'static str {
    open spec fn handed_over(v: Seq<char>, s: State) -> (State, Value) {
        new_string(v, s)
    }

    fn into_vm(self, arena: &mut Arena) -> (r: Value) {
        let h = arena.allocate(Cell::Str(self.to_owned()));
        Value::Str(h)
    }
}

} // verus!
