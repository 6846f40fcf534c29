//! What the instructions do that turn the value on top of the operand stack
//! into another: casts, conversions, tests of a variant's shape, and the
//! making of aggregates and objects.
use vstd::prelude::*;
use crate::arena::{Arena, Cell};
use crate::array::agrees;
use crate::error::{Fault, RuntimeError, RuntimeResult};
use crate::index_map::{stored, IndexMap};
use crate::metadata::{Metadata, TypeId};
use crate::pool::{Pool, PoolIndex};
use crate::render::{rendered, FloatFormat};
use crate::state::{same_scopes, has_type, instance_at, unpinned, CellView, State};
use crate::value::{Instance, Obj, Value};
use crate::vtable::instance_of;

verus! {

/// `table` with the first `upto` of `args` offered, each under the position
/// of the field that it is paired with.
pub open spec fn zip_fields(fields: Seq<PoolIndex>, args: Seq<Value>, upto: int) -> Seq<(u32, Value)>
    decreases upto,
{
    if upto <= 0 || upto > fields.len() || upto > args.len() {
        Seq::empty()
    } else {
        stored(zip_fields(fields, args, upto - 1), fields[upto - 1].0, args[upto - 1])
    }
}

/// The smaller of two numbers.
pub open spec fn smaller(a: int, b: int) -> int {
    if a <= b {
        a
    } else {
        b
    }
}

impl State {
    /// The state with `v` in place of the topmost operand.
    pub open spec fn replace_top(self, v: Value) -> State {
        self.drop(1).push(v)
    }

    /// `Construct`: replaces the `n` topmost operands by a new aggregate
    /// whose fields are `fields`, in order, with the operands as values, the
    /// lowest first.
    pub open spec fn construct(self, n: int, fields: Seq<PoolIndex>) -> Result<State, Fault> {
        if self.stack.len() < n {
            Err(Fault::InvalidBytecode)
        } else {
            let table = zip_fields(
                fields,
                self.stack.skip(self.stack.len() - n),
                smaller(n, fields.len() as int),
            );
            Ok(
                self.drop(n).allocate(CellView::Struct(table)).0.push(
                    Value::BoxedStruct(self.drop(n).allocate(CellView::Struct(table)).1),
                ),
            )
        }
    }

    /// `RefToBool` and `WeakRefToBool`: replaces the topmost operand by
    /// whether it is anything but a null reference.
    pub open spec fn ref_to_bool(self) -> Result<State, Fault> {
        if self.stack.len() < 1 {
            Err(Fault::InvalidBytecode)
        } else {
            Ok(self.replace_top(Value::Bool(self.peek(0) != Value::Obj(Obj::Null))))
        }
    }

    /// `EnumToI32`: replaces the enum member on top by its number, cut to 32
    /// bits.
    pub open spec fn enum_to_i32(self) -> Result<State, Fault> {
        if self.stack.len() < 1 {
            Err(Fault::InvalidBytecode)
        } else {
            match unpinned(self.cells, self.peek(0)) {
                Value::EnumVal(i) => Ok(self.replace_top(Value::I32(i as i32))),
                _ => Err(Fault::InvalidBytecode),
            }
        }
    }

    /// `I32ToEnum`: replaces the 32-bit number on top by the enum member of
    /// that number.
    pub open spec fn i32_to_enum(self) -> Result<State, Fault> {
        if self.stack.len() < 1 {
            Err(Fault::InvalidBytecode)
        } else {
            match unpinned(self.cells, self.peek(0)) {
                Value::I32(i) => Ok(self.replace_top(Value::EnumVal(i as i64))),
                _ => Err(Fault::InvalidBytecode),
            }
        }
    }

    /// `DynamicCast`: keeps the object on top where its class lies on the
    /// chain of base classes that starts at `expected`, and replaces it by a
    /// null reference where it does not. A null reference on top is an
    /// error.
    pub open spec fn dynamic_cast(self, pool: &Pool, expected: PoolIndex) -> Result<State, Fault> {
        if self.stack.len() < 1 {
            Err(Fault::InvalidBytecode)
        } else {
            match unpinned(self.cells, self.peek(0)) {
                Value::Obj(Obj::Null) => Err(Fault::NullPointer),
                Value::Obj(Obj::Instance(h)) => match instance_at(self.cells, h) {
                    None => Err(Fault::InvalidBytecode),
                    Some(instance) => Ok(
                        self.replace_top(
                            Value::Obj(
                                if instance_of(pool, PoolIndex(instance.tag.0), expected) {
                                    Obj::Instance(h)
                                } else {
                                    Obj::Null
                                },
                            ),
                        ),
                    ),
                },
                _ => Err(Fault::InvalidBytecode),
            }
        }
    }

    /// `FromVariant`: keeps the topmost operand where it is of the type
    /// `typ`, and replaces it by a null reference where it is not.
    pub open spec fn from_variant(self, typ: TypeId) -> Result<State, Fault> {
        if self.stack.len() < 1 {
            Err(Fault::InvalidBytecode)
        } else if has_type(self.cells, self.peek(0), typ) {
            Ok(self)
        } else {
            Ok(self.replace_top(Value::Obj(Obj::Null)))
        }
    }

    /// `VariantIsDefined`: replaces the topmost operand by `true`.
    pub open spec fn variant_is_defined(self) -> Result<State, Fault> {
        if self.stack.len() < 1 {
            Err(Fault::InvalidBytecode)
        } else {
            Ok(self.replace_top(Value::Bool(true)))
        }
    }

    /// `VariantIsRef`: replaces the topmost operand by whether it is an
    /// object or a null reference.
    pub open spec fn variant_is_ref(self) -> Result<State, Fault> {
        if self.stack.len() < 1 {
            Err(Fault::InvalidBytecode)
        } else {
            Ok(self.replace_top(Value::Bool(self.peek(0) is Obj)))
        }
    }

    /// `VariantIsArray`: replaces the topmost operand by whether it is an
    /// array.
    pub open spec fn variant_is_array(self) -> Result<State, Fault> {
        if self.stack.len() < 1 {
            Err(Fault::InvalidBytecode)
        } else {
            Ok(self.replace_top(Value::Bool(self.peek(0) is Array)))
        }
    }

    /// `AsRef`: replaces the topmost operand by a reference cell that holds
    /// it; an operand that is a reference cell stays.
    pub open spec fn as_ref(self) -> Result<State, Fault> {
        if self.stack.len() < 1 {
            Err(Fault::InvalidBytecode)
        } else {
            Ok(self.drop(1).pin(self.peek(0)).0.push(self.drop(1).pin(self.peek(0)).1))
        }
    }

    /// `Deref`: replaces the reference cell on top by the value that it
    /// holds.
    pub open spec fn deref(self) -> Result<State, Fault> {
        if self.stack.len() < 1 {
            Err(Fault::InvalidBytecode)
        } else {
            Ok(self.replace_top(unpinned(self.cells, self.peek(0))))
        }
    }

    /// `ToString`: replaces the topmost operand by a new string that holds
    /// its text. There is an answer only where the text does not depend on
    /// the host.
    pub open spec fn stringify(self, pool: &Pool, fuel: nat) -> Option<Result<State, Fault>> {
        if self.stack.len() < 1 {
            Some(Err(Fault::InvalidBytecode))
        } else {
            match rendered(pool, self.cells, self.peek(0), fuel) {
                None => None,
                Some(Err(fault)) => Some(Err(fault)),
                Some(Ok(text)) => Some(
                    Ok(
                        self.drop(1).allocate(CellView::Str(text)).0.push(
                            Value::Str(self.drop(1).allocate(CellView::Str(text)).1),
                        ),
                    ),
                ),
            }
        }
    }
}

/// A cast that leaves an object on top leaves one whose class lies on the
/// chain of base classes that starts at the class asked for.
pub proof fn lemma_dynamic_cast(s: State, pool: &Pool, expected: PoolIndex)
    requires
        s.dynamic_cast(pool, expected) is Ok,
        s.cells.len() <= usize::MAX,
    ensures
        ({
            let after = s.dynamic_cast(pool, expected)->Ok_0;
            after.stack.len() > 0 && (after.peek(0) matches Value::Obj(Obj::Instance(h))
                ==> instance_at(after.cells, h) matches Some(instance) && instance_of(
                pool,
                PoolIndex(instance.tag.0),
                expected,
            ))
        }),
{
}

/// Whether the outcome `r` of an operation that left the arena as `after` is
/// the one that `expected` describes, where it describes one.
pub open spec fn agrees_where_known(
    r: RuntimeResult<()>,
    after: State,
    expected: Option<Result<State, Fault>>,
) -> bool {
    match expected {
        Some(outcome) => agrees(r, after, outcome),
        None => true,
    }
}

impl Arena {
    fn replace_top(&mut self, v: Value)
        requires
            old(self).wf(),
            old(self)@.stack.len() > 0,
        ensures
            final(self).wf(),
            final(self)@ == old(self)@.replace_top(v),
    {
        self.drop_operands(1);
        self.push(v);
    }

    /// `Construct`.
    pub fn construct(&mut self, n: u8, fields: &Vec<PoolIndex>) -> (r: RuntimeResult<()>)
        requires
            old(self).wf(),
        ensures
            final(self).wf(),
            agrees(r, final(self)@, old(self)@.construct(n as int, fields@)),
    {
        let n = n as usize;
        if self.stack_len() < n {
            return Err(RuntimeError::InvalidBytecode);
        }
        let count = if n <= fields.len() {
            n
        } else {
            fields.len()
        };
        let ghost args = self@.stack.skip(self@.stack.len() - n);
        let mut table: IndexMap<Value> = IndexMap::with_capacity(count);
        assert(table@ =~= Seq::empty());
        let mut i: usize = 0;
        while i < count
            invariant
                i <= count,
                count == smaller(n as int, fields@.len() as int),
                n <= self@.stack.len(),
                args == self@.stack.skip(self@.stack.len() - n),
                table.wf(),
                table@ == zip_fields(fields@, args, i as int),
            decreases count - i,
        {
            let arg = self.peek(n - 1 - i);
            table.put(fields[i], arg);
            i += 1;
        }
        self.drop_operands(n);
        let h = self.allocate(Cell::Struct(table));
        self.push(Value::BoxedStruct(h));
        Ok(())
    }

    /// `RefToBool` and `WeakRefToBool`.
    pub fn ref_to_bool(&mut self) -> (r: RuntimeResult<()>)
        requires
            old(self).wf(),
        ensures
            final(self).wf(),
            agrees(r, final(self)@, old(self)@.ref_to_bool()),
    {
        if self.stack_len() < 1 {
            return Err(RuntimeError::InvalidBytecode);
        }
        let is_null = match self.peek(0) {
            Value::Obj(Obj::Null) => true,
            _ => false,
        };
        self.replace_top(Value::Bool(!is_null));
        Ok(())
    }

    /// `EnumToI32`.
    pub fn enum_to_i32(&mut self) -> (r: RuntimeResult<()>)
        requires
            old(self).wf(),
        ensures
            final(self).wf(),
            agrees(r, final(self)@, old(self)@.enum_to_i32()),
    {
        if self.stack_len() < 1 {
            return Err(RuntimeError::InvalidBytecode);
        }
        match self.unpinned(self.peek(0)) {
            Value::EnumVal(i) => {
                self.replace_top(Value::I32(#[verifier::truncate] (i as i32)));
                Ok(())
            },
            _ => Err(RuntimeError::InvalidBytecode),
        }
    }

    /// `I32ToEnum`.
    pub fn i32_to_enum(&mut self) -> (r: RuntimeResult<()>)
        requires
            old(self).wf(),
        ensures
            final(self).wf(),
            agrees(r, final(self)@, old(self)@.i32_to_enum()),
    {
        if self.stack_len() < 1 {
            return Err(RuntimeError::InvalidBytecode);
        }
        match self.unpinned(self.peek(0)) {
            Value::I32(i) => {
                self.replace_top(Value::EnumVal(i as i64));
                Ok(())
            },
            _ => Err(RuntimeError::InvalidBytecode),
        }
    }

    /// `DynamicCast`.
    pub fn dynamic_cast(&mut self, pool: &Pool, expected: PoolIndex) -> (r: RuntimeResult<()>)
        requires
            old(self).wf(),
        ensures
            final(self).wf(),
            agrees(r, final(self)@, old(self)@.dynamic_cast(pool, expected)),
    {
        if self.stack_len() < 1 {
            return Err(RuntimeError::InvalidBytecode);
        }
        match self.unpinned(self.peek(0)) {
            Value::Obj(Obj::Null) => Err(RuntimeError::NullPointer),
            Value::Obj(Obj::Instance(h)) => {
                let tag = match self.instance(h) {
                    Some(instance) => instance.tag,
                    None => {
                        return Err(RuntimeError::InvalidBytecode);
                    },
                };
                let obj = if crate::vtable::is_instance_of(pool, tag.to_pool(), expected) {
                    Obj::Instance(h)
                } else {
                    Obj::Null
                };
                self.replace_top(Value::Obj(obj));
                Ok(())
            },
            _ => Err(RuntimeError::InvalidBytecode),
        }
    }

    /// `FromVariant`.
    pub fn from_variant(&mut self, typ: &TypeId) -> (r: RuntimeResult<()>)
        requires
            old(self).wf(),
        ensures
            final(self).wf(),
            agrees(r, final(self)@, old(self)@.from_variant(*typ)),
    {
        if self.stack_len() < 1 {
            return Err(RuntimeError::InvalidBytecode);
        }
        let val = self.peek(0);
        if !val.has_type(typ, self) {
            self.replace_top(Value::Obj(Obj::Null));
        }
        Ok(())
    }

    /// `VariantIsDefined`.
    pub fn variant_is_defined(&mut self) -> (r: RuntimeResult<()>)
        requires
            old(self).wf(),
        ensures
            final(self).wf(),
            agrees(r, final(self)@, old(self)@.variant_is_defined()),
    {
        if self.stack_len() < 1 {
            return Err(RuntimeError::InvalidBytecode);
        }
        self.replace_top(Value::Bool(true));
        Ok(())
    }

    /// `VariantIsRef`.
    pub fn variant_is_ref(&mut self) -> (r: RuntimeResult<()>)
        requires
            old(self).wf(),
        ensures
            final(self).wf(),
            agrees(r, final(self)@, old(self)@.variant_is_ref()),
    {
        if self.stack_len() < 1 {
            return Err(RuntimeError::InvalidBytecode);
        }
        let is_ref = match self.peek(0) {
            Value::Obj(_) => true,
            _ => false,
        };
        self.replace_top(Value::Bool(is_ref));
        Ok(())
    }

    /// `VariantIsArray`.
    pub fn variant_is_array(&mut self) -> (r: RuntimeResult<()>)
        requires
            old(self).wf(),
        ensures
            final(self).wf(),
            agrees(r, final(self)@, old(self)@.variant_is_array()),
    {
        if self.stack_len() < 1 {
            return Err(RuntimeError::InvalidBytecode);
        }
        let is_array = match self.peek(0) {
            Value::Array(_) => true,
            _ => false,
        };
        self.replace_top(Value::Bool(is_array));
        Ok(())
    }

    /// `AsRef`.
    pub fn as_ref(&mut self) -> (r: RuntimeResult<()>)
        requires
            old(self).wf(),
        ensures
            final(self).wf(),
            agrees(r, final(self)@, old(self)@.as_ref()),
    {
        if self.stack_len() < 1 {
            return Err(RuntimeError::InvalidBytecode);
        }
        let mut val = self.peek(0);
        self.drop_operands(1);
        val.pin(self);
        self.push(val);
        Ok(())
    }

    /// `Deref`.
    pub fn deref(&mut self) -> (r: RuntimeResult<()>)
        requires
            old(self).wf(),
        ensures
            final(self).wf(),
            agrees(r, final(self)@, old(self)@.deref()),
    {
        if self.stack_len() < 1 {
            return Err(RuntimeError::InvalidBytecode);
        }
        let val = self.unpinned(self.peek(0));
        self.replace_top(val);
        Ok(())
    }

    /// `ToString` and `VariantToString`.
    pub fn stringify(&mut self, pool: &Pool, floats: &dyn FloatFormat, fuel: usize) -> (r:
        RuntimeResult<()>)
        requires
            old(self).wf(),
        ensures
            final(self).wf(),
            final(self)@.frames == old(self)@.frames,
            final(self)@.contexts == old(self)@.contexts,
            r is Ok ==> final(self)@.stack.len() == old(self)@.stack.len(),
            agrees_where_known(r, final(self)@, old(self)@.stringify(pool, fuel as nat)),
            r is Ok ==> same_scopes(final(self)@, old(self)@),
    {
        if self.stack_len() < 1 {
            return Err(RuntimeError::InvalidBytecode);
        }
        let text = self.peek(0).to_string(self, pool, floats, fuel)?;
        self.drop_operands(1);
        let h = self.allocate(Cell::Str(text));
        self.push(Value::Str(h));
        Ok(())
    }
}

impl State {
    /// `New`: pushes a new object of the class at `idx`. `known` tells
    /// whether something is kept for the class.
    pub open spec fn new_object(
        self,
        types: Seq<(u32, TypeId)>,
        pool: &Pool,
        idx: PoolIndex,
        known: bool,
    ) -> Result<State, Fault> {
        match crate::defaults::made_instance(types, pool, self, idx, known) {
            Err(fault) => Err(fault),
            Ok((made, instance)) => Ok(
                made.allocate(CellView::Instance(instance)).0.push(
                    Value::Obj(Obj::Instance(made.allocate(CellView::Instance(instance)).1)),
                ),
            ),
        }
    }
}

/// `New`.
pub fn new_object(arena: &mut Arena, meta: &mut Metadata, idx: PoolIndex) -> (r: RuntimeResult<()>)
    requires
        old(arena).wf(),
        old(meta).wf(),
    ensures
        final(arena).wf(),
        final(meta).wf(),
        final(meta).pool == old(meta).pool,
        final(meta).natives() == old(meta).natives(),
        final(meta).types == old(meta).types,
        final(meta).symbols == old(meta).symbols,
        final(meta).function_meta == old(meta).function_meta,
        forall|k: u32|
            crate::index_map::has_key(final(meta).class_meta@, k) == crate::index_map::has_key(
                old(meta).class_meta@,
                k,
            ),
        agrees(
            r,
            final(arena)@,
            old(arena)@.new_object(
                old(meta).types@,
                old(meta).pool,
                idx,
                crate::index_map::has_key(old(meta).class_meta@, idx.0),
            ),
        ),
        r is Ok ==> same_scopes(final(arena)@, old(arena)@),
{
    let instance = Instance::new(idx, meta, arena)?;
    let h = arena.allocate(Cell::Instance(instance));
    arena.push(Value::Obj(Obj::Instance(h)));
    Ok(())
}

} // verus!
