//! The values that the machine computes with.
use vstd::prelude::*;
use std::rc::Rc;
use crate::arena::{Arena, Cell};
use crate::index_map::IndexMap;
use crate::metadata::TypeId;
use crate::pool::PoolIndex;
use crate::state::{equals, has_type, struct_at, unpinned, CellView, State};

verus! {

/// The place of a cell in the arena.
#[derive(Clone, Copy, Debug, PartialEq, Eq, Structural)]
pub struct Handle(pub usize);

/// The string table that an interned string lies in.
#[derive(Clone, Copy, Debug, PartialEq, Eq, Structural)]
pub enum StringType {
    String,
    Name,
    TweakDbId,
    Resource,
}

/// A pool position without its kind.
#[derive(Clone, Copy, Debug, PartialEq, Eq, Structural)]
pub struct VMIndex(pub u32);

impl VMIndex {
    pub fn zero() -> (r: VMIndex)
        ensures
            r.0 == 0,
    {
        VMIndex(0)
    }

    pub open spec fn spec_to_pool(self) -> PoolIndex {
        PoolIndex(self.0)
    }

    #[verifier::when_used_as_spec(spec_to_pool)]
    pub fn to_pool(self) -> (r: PoolIndex)
        ensures
            r == self.spec_to_pool(),
    {
        PoolIndex(self.0)
    }
}

impl From<PoolIndex> for VMIndex {
    fn from(idx: PoolIndex) -> (r: VMIndex) {
        VMIndex(idx.0)
    }
}

impl vstd::std_specs::convert::FromSpecImpl<PoolIndex> for VMIndex {
    open spec fn obeys_from_spec() -> bool {
        true
    }

    open spec fn from_spec(idx: PoolIndex) -> VMIndex {
        VMIndex(idx.0)
    }
}

/// A small aggregate kept inline; reserved.
#[derive(Clone, Copy, Debug)]
pub struct PackedStruct(pub [u8; 15]);

impl PackedStruct {
    pub const MAX_SIZE: usize = 15;
}

/// A reference to an object, or none.
#[derive(Clone, Copy, Debug, PartialEq, Eq, Structural)]
pub enum Obj {
    Null,
    Instance(Handle),
}

/// A value. Numbers with a fraction are kept as their IEEE 754 bits.
/// Aggregates, strings made at run time and reference cells live in the
/// arena; the value holds the handle.
#[derive(Clone, Copy, Debug)]
pub enum Value {
    I8(i8),
    I16(i16),
    I32(i32),
    I64(i64),
    U8(u8),
    U16(u16),
    U32(u32),
    U64(u64),
    F32(u32),
    F64(u64),
    Bool(bool),
    EnumVal(i64),
    PackedStruct(PackedStruct),
    BoxedStruct(Handle),
    Obj(Obj),
    Str(Handle),
    InternStr(StringType, VMIndex),
    Array(Handle),
    Pinned(Handle),
}

/// An object: its class, its fields, and the virtual methods of its class by
/// name.
pub struct Instance {
    pub tag: VMIndex,
    pub fields: IndexMap<Value>,
    pub vtable: Rc<IndexMap<VMIndex>>,
}

/// What an `Instance` holds.
pub struct InstanceView {
    pub tag: VMIndex,
    pub fields: Seq<(u32, Value)>,
    pub vtable: Seq<(u32, VMIndex)>,
}

impl View for Instance {
    type V = InstanceView;

    open spec fn view(&self) -> InstanceView {
        InstanceView { tag: self.tag, fields: self.fields@, vtable: (*self.vtable)@ }
    }
}

/// Equality of two 32-bit numbers with a fraction, given by their bits: the
/// same bits, or the two zeros. Every such number equals itself.
pub open spec fn f32_equal(a: u32, b: u32) -> bool {
    a == b || ((a | b) & 0x7fff_ffff) == 0
}

/// Equality of two 64-bit numbers with a fraction, given by their bits: the
/// same bits, or the two zeros.
pub open spec fn f64_equal(a: u64, b: u64) -> bool {
    a == b || ((a | b) & 0x7fff_ffff_ffff_ffff) == 0
}

pub fn f32_bits_equal(a: u32, b: u32) -> (r: bool)
    ensures
        r == f32_equal(a, b),
{
    a == b || ((a | b) & 0x7fff_ffff) == 0
}

pub fn f64_bits_equal(a: u64, b: u64) -> (r: bool)
    ensures
        r == f64_equal(a, b),
{
    a == b || ((a | b) & 0x7fff_ffff_ffff_ffff) == 0
}

impl Value {
    pub open spec fn spec_is_pinned(&self) -> bool {
        self is Pinned
    }

    #[verifier::when_used_as_spec(spec_is_pinned)]
    pub fn is_pinned(&self) -> (r: bool)
        ensures
            r == self.spec_is_pinned(),
    {
        match self {
            Value::Pinned(_) => true,
            _ => false,
        }
    }

    /// Whether the value is a number, a boolean or an enum member.
    pub open spec fn is_scalar(&self) -> bool {
        match *self {
            Value::I8(_)
            | Value::I16(_)
            | Value::I32(_)
            | Value::I64(_)
            | Value::U8(_)
            | Value::U16(_)
            | Value::U32(_)
            | Value::U64(_)
            | Value::F32(_)
            | Value::F64(_)
            | Value::Bool(_)
            | Value::EnumVal(_) => true,
            _ => false,
        }
    }
}

impl State {
    /// `v` as a reference cell: itself where it is one, else a new cell
    /// that holds it.
    pub open spec fn pin(self, v: Value) -> (State, Value) {
        if v is Pinned {
            (self, v)
        } else {
            (self.allocate(CellView::Pinned(v)).0, Value::Pinned(self.allocate(CellView::Pinned(v)).1))
        }
    }

    /// `v` as it goes onto the operand stack after it was read from a local
    /// or a field: an aggregate is copied into a new cell, anything else is
    /// shared.
    pub open spec fn copied(self, v: Value) -> (State, Value) {
        match v {
            Value::BoxedStruct(h) => match struct_at(self.cells, h) {
                Some(fields) => (
                    self.allocate(CellView::Struct(fields)).0,
                    Value::BoxedStruct(self.allocate(CellView::Struct(fields)).1),
                ),
                None => (self, v),
            },
            _ => (self, v),
        }
    }
}

impl Value {
    /// The value inside the reference cell, or the value itself.
    pub fn unpinned(&self, arena: &Arena) -> (r: Value)
        ensures
            r == unpinned(arena@.cells, *self),
    {
        arena.unpinned(*self)
    }

    /// Turns the value into a reference cell that holds it, unless it is
    /// one.
    pub fn pin(&mut self, arena: &mut Arena)
        requires
            old(arena).wf(),
        ensures
            final(arena).wf(),
            (final(arena)@, *final(self)) == old(arena)@.pin(*old(self)),
    {
        if !self.is_pinned() {
            let h = arena.allocate(Cell::Pinned(*self));
            *self = Value::Pinned(h);
        }
    }

    /// The value as it goes onto the operand stack after it was read from a
    /// local or a field.
    pub fn copied(&self, arena: &mut Arena) -> (r: Value)
        requires
            old(arena).wf(),
        ensures
            final(arena).wf(),
            (final(arena)@, r) == old(arena)@.copied(*self),
    {
        match *self {
            Value::BoxedStruct(h) => {
                let copy = match arena.boxed_struct(h) {
                    Some(fields) => Some(fields.copied()),
                    None => None,
                };
                match copy {
                    Some(fields) => Value::BoxedStruct(arena.allocate(Cell::Struct(fields))),
                    None => *self,
                }
            },
            other => other,
        }
    }

    pub fn equals(&self, other: &Value, arena: &Arena) -> (r: bool)
        ensures
            r == equals(arena@.cells, *self, *other),
    {
        arena.equals(*self, *other)
    }

    pub fn has_type(&self, typ: &TypeId, arena: &Arena) -> (r: bool)
        requires
            arena.wf(),
        ensures
            r == has_type(arena@.cells, *self, *typ),
    {
        match (arena.unpinned(*self), typ) {
            (Value::I8(_), TypeId::I8) => true,
            (Value::I16(_), TypeId::I16) => true,
            (Value::I32(_), TypeId::I32) => true,
            (Value::I64(_), TypeId::I64) => true,
            (Value::U8(_), TypeId::U8) => true,
            (Value::U16(_), TypeId::U16) => true,
            (Value::U32(_), TypeId::U32) => true,
            (Value::U64(_), TypeId::U64) => true,
            (Value::F32(_), TypeId::F32) => true,
            (Value::F64(_), TypeId::F64) => true,
            (Value::Bool(_), TypeId::Bool) => true,
            (Value::EnumVal(_), TypeId::Enum(_)) => true,
            (Value::BoxedStruct(_), TypeId::Struct(_)) => true,
            (Value::PackedStruct(_), TypeId::Struct(_)) => true,
            (Value::Obj(Obj::Null), TypeId::Ref(_)) => true,
            (Value::Obj(Obj::Null), TypeId::WRef(_)) => true,
            (Value::Obj(Obj::Null), TypeId::Variant) => true,
            (Value::Str(_), TypeId::String) => true,
            (Value::InternStr(StringType::String, _), TypeId::String) => true,
            (Value::InternStr(StringType::Name, _), TypeId::CName) => true,
            (Value::InternStr(StringType::TweakDbId, _), TypeId::TweakDbId) => true,
            (Value::InternStr(StringType::Resource, _), TypeId::ResRef) => true,
            (Value::Array(_), TypeId::Array(_)) => true,
            (Value::Obj(Obj::Instance(h)), TypeId::Ref(class)) => match arena.instance(h) {
                Some(instance) => instance.tag.0 == class.0,
                None => false,
            },
            (Value::Obj(Obj::Instance(h)), TypeId::WRef(class)) => match arena.instance(h) {
                Some(instance) => instance.tag.0 == class.0,
                None => false,
            },
            _ => false,
        }
    }
}

} // verus!
