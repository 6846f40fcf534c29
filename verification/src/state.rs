//! The mathematical model of the machine's data: what the arena holds, as
//! sequences, and what the operations on values compute from it.
use vstd::prelude::*;
use crate::metadata::TypeId;
use crate::value::{
    f32_equal, f64_equal, Handle, InstanceView, Obj, StringType, Value,
};

verus! {

/// What a cell of the arena holds.
pub enum CellView {
    /// The fields of an aggregate, by field position.
    Struct(Seq<(u32, Value)>),
    Instance(InstanceView),
    Array(Seq<Value>),
    /// The one value of a reference cell.
    Pinned(Value),
    Str(Seq<char>),
    /// Nothing: the cell waits to be used again.
    Free,
}

/// What the arena holds: the cells, and the three stacks that are its root.
pub struct State {
    pub cells: Seq<CellView>,
    /// The locals of each active call, innermost last.
    pub frames: Seq<Seq<(u32, Value)>>,
    /// The operand stack, top last.
    pub stack: Seq<Value>,
    /// The receivers of the active calls, innermost last.
    pub contexts: Seq<Obj>,
    /// The places of cells that were freed, the one to use next last.
    pub free: Seq<usize>,
    /// Bytes allocated since the last collection step.
    pub debt: nat,
}

pub open spec fn cell_at(cells: Seq<CellView>, h: Handle) -> Option<CellView> {
    if h.0 < cells.len() {
        Some(cells[h.0 as int])
    } else {
        None
    }
}

pub open spec fn array_at(cells: Seq<CellView>, h: Handle) -> Option<Seq<Value>> {
    match cell_at(cells, h) {
        Some(CellView::Array(items)) => Some(items),
        _ => None,
    }
}

pub open spec fn struct_at(cells: Seq<CellView>, h: Handle) -> Option<Seq<(u32, Value)>> {
    match cell_at(cells, h) {
        Some(CellView::Struct(fields)) => Some(fields),
        _ => None,
    }
}

pub open spec fn instance_at(cells: Seq<CellView>, h: Handle) -> Option<InstanceView> {
    match cell_at(cells, h) {
        Some(CellView::Instance(instance)) => Some(instance),
        _ => None,
    }
}

pub open spec fn pinned_at(cells: Seq<CellView>, h: Handle) -> Option<Value> {
    match cell_at(cells, h) {
        Some(CellView::Pinned(inner)) => Some(inner),
        _ => None,
    }
}

pub open spec fn str_at(cells: Seq<CellView>, h: Handle) -> Option<Seq<char>> {
    match cell_at(cells, h) {
        Some(CellView::Str(text)) => Some(text),
        _ => None,
    }
}

/// The value inside a reference cell, or the value itself where it is no
/// reference to a cell that is there.
pub open spec fn unpinned(cells: Seq<CellView>, v: Value) -> Value {
    match v {
        Value::Pinned(h) => match pinned_at(cells, h) {
            Some(inner) => inner,
            None => v,
        },
        _ => v,
    }
}

/// Equality of two values that are no reference cells: numbers, booleans and
/// enum members by value, strings made at run time by their text, interned
/// strings by table and position. Anything else equals nothing.
pub open spec fn plain_equals(cells: Seq<CellView>, a: Value, b: Value) -> bool {
    match (a, b) {
        (Value::I8(x), Value::I8(y)) => x == y,
        (Value::I16(x), Value::I16(y)) => x == y,
        (Value::I32(x), Value::I32(y)) => x == y,
        (Value::I64(x), Value::I64(y)) => x == y,
        (Value::U8(x), Value::U8(y)) => x == y,
        (Value::U16(x), Value::U16(y)) => x == y,
        (Value::U32(x), Value::U32(y)) => x == y,
        (Value::U64(x), Value::U64(y)) => x == y,
        (Value::F32(x), Value::F32(y)) => f32_equal(x, y),
        (Value::F64(x), Value::F64(y)) => f64_equal(x, y),
        (Value::Bool(x), Value::Bool(y)) => x == y,
        (Value::EnumVal(x), Value::EnumVal(y)) => x == y,
        (Value::Str(x), Value::Str(y)) => match (str_at(cells, x), str_at(cells, y)) {
            (Some(s), Some(t)) => s == t,
            _ => false,
        },
        (Value::InternStr(s, i), Value::InternStr(t, j)) => s == t && i == j,
        _ => false,
    }
}

/// Equality of two values, each taken out of its reference cell first.
pub open spec fn equals(cells: Seq<CellView>, a: Value, b: Value) -> bool {
    plain_equals(cells, unpinned(cells, a), unpinned(cells, b))
}

/// Whether a value is one that equals itself: a number, a boolean, an enum
/// member, an interned string, or a string whose cell is there.
pub open spec fn self_equal_kind(cells: Seq<CellView>, v: Value) -> bool {
    match v {
        Value::Str(h) => str_at(cells, h) is Some,
        Value::InternStr(_, _) => true,
        _ => v.is_scalar(),
    }
}

/// A value that is no reference cell equals itself exactly when it is of a
/// kind that has an equality: a number, a boolean, an enum member, or a
/// string. Aggregates, objects and arrays equal nothing, themselves
/// included.
pub proof fn lemma_equals_itself(cells: Seq<CellView>, v: Value)
    requires
        !(v is Pinned),
    ensures
        equals(cells, v, v) == self_equal_kind(cells, v),
{
}

impl State {
    /// No cells, empty stacks, no debt.
    pub open spec fn empty() -> State {
        State {
            cells: Seq::empty(),
            frames: Seq::empty(),
            stack: Seq::empty(),
            contexts: Seq::empty(),
            free: Seq::empty(),
            debt: 0,
        }
    }

    /// Whether the place that was freed last can be used again: it is a
    /// place of the arena, and the cell there is free.
    pub open spec fn can_reuse(self) -> bool {
        self.free.len() > 0 && self.free.last() < self.cells.len()
            && self.cells[self.free.last() as int] is Free
    }

    /// The state with `cell` in the arena, and the handle of its cell: the
    /// cell that was freed last where it can be used again, else a new
    /// cell.
    pub open spec fn allocate(self, cell: CellView) -> (State, Handle) {
        if self.can_reuse() {
            (
                State {
                    cells: self.cells.update(self.free.last() as int, cell),
                    free: self.free.drop_last(),
                    debt: crate::arena::debt_after(self.debt, crate::arena::cell_cost(cell)),
                    ..self
                },
                Handle(self.free.last()),
            )
        } else {
            (
                State {
                    cells: self.cells.push(cell),
                    free: if self.free.len() > 0 {
                        self.free.drop_last()
                    } else {
                        self.free
                    },
                    debt: crate::arena::debt_after(self.debt, crate::arena::cell_cost(cell)),
                    ..self
                },
                Handle(self.cells.len() as usize),
            )
        }
    }

    /// Whether every cell of `self` that is in use is the same in `after`.
    pub open spec fn kept_in(self, after: State) -> bool {
        &&& after.cells.len() >= self.cells.len()
        &&& forall|i: int|
            0 <= i < self.cells.len() && !(#[trigger] self.cells[i] is Free) ==> after.cells[i]
                == self.cells[i]
    }

    /// The state with the cell at `h` replaced.
    pub open spec fn with_cell(self, h: Handle, cell: CellView) -> State {
        State { cells: self.cells.update(h.0 as int, cell), ..self }
    }

    pub open spec fn with_stack(self, stack: Seq<Value>) -> State {
        State { stack, ..self }
    }

    pub open spec fn push(self, v: Value) -> State {
        State { stack: self.stack.push(v), ..self }
    }

    /// The state without the `n` topmost operands.
    pub open spec fn drop(self, n: int) -> State {
        State { stack: self.stack.take(self.stack.len() - n), ..self }
    }

    /// The operand that lies `n` below the top.
    pub open spec fn peek(self, n: int) -> Value {
        self.stack[self.stack.len() - 1 - n]
    }
}

/// Whether a value that is no reference cell is of the type `typ`: a number
/// or a boolean of exactly that type, an enum member of any enum, an
/// aggregate of any struct, a null reference of any class and of the
/// variant type, an object of exactly that class, a string of the matching kind, an array of any
/// items.
pub open spec fn plain_has_type(cells: Seq<CellView>, v: Value, typ: TypeId) -> bool {
    match (v, typ) {
        (Value::I8(_), TypeId::I8) => true,
        (Value::I16(_), TypeId::I16) => true,
        (Value::I32(_), TypeId::I32) => true,
        (Value::I64(_), TypeId::I64) => true,
        (Value::U8(_), TypeId::U8) => true,
        (Value::U16(_), TypeId::U16) => true,
        (Value::U32(_), TypeId::U32) => true,
        (Value::U64(_), TypeId::U64) => true,
        (Value::F32(_), TypeId::F32) => true,
        (Value::F64(_), TypeId::F64) => true,
        (Value::Bool(_), TypeId::Bool) => true,
        (Value::EnumVal(_), TypeId::Enum(_)) => true,
        (Value::BoxedStruct(_), TypeId::Struct(_)) => true,
        (Value::PackedStruct(_), TypeId::Struct(_)) => true,
        (Value::Obj(Obj::Null), TypeId::Ref(_)) => true,
        (Value::Obj(Obj::Null), TypeId::WRef(_)) => true,
        (Value::Obj(Obj::Null), TypeId::Variant) => true,
        (Value::Str(_), TypeId::String) => true,
        (Value::InternStr(StringType::String, _), TypeId::String) => true,
        (Value::InternStr(StringType::Name, _), TypeId::CName) => true,
        (Value::InternStr(StringType::TweakDbId, _), TypeId::TweakDbId) => true,
        (Value::InternStr(StringType::Resource, _), TypeId::ResRef) => true,
        (Value::Array(_), TypeId::Array(_)) => true,
        (Value::Obj(Obj::Instance(h)), TypeId::Ref(class)) => match instance_at(cells, h) {
            Some(instance) => instance.tag.0 == class.0,
            None => false,
        },
        (Value::Obj(Obj::Instance(h)), TypeId::WRef(class)) => match instance_at(cells, h) {
            Some(instance) => instance.tag.0 == class.0,
            None => false,
        },
        _ => false,
    }
}

/// Whether a value, taken out of its reference cell, is of the type `typ`.
pub open spec fn has_type(cells: Seq<CellView>, v: Value, typ: TypeId) -> bool {
    plain_has_type(cells, unpinned(cells, v), typ)
}

impl State {
    /// The state with the locals of the innermost call replaced.
    pub open spec fn with_locals(self, locals: Seq<(u32, Value)>) -> State {
        State { frames: self.frames.update(self.frames.len() - 1, locals), ..self }
    }

    /// The receiver of the innermost call.
    pub open spec fn context(self) -> Option<Obj> {
        if self.contexts.len() > 0 {
            Some(self.contexts.last())
        } else {
            None
        }
    }

    /// The object that is the receiver of the innermost call.
    pub open spec fn context_instance(self) -> Option<Handle> {
        match self.context() {
            Some(Obj::Instance(h)) => Some(h),
            _ => None,
        }
    }
}

/// Allocation leaves the cells that are in use as they are, and the new
/// cell holds what was allocated.
pub proof fn lemma_allocate(s: State, cell: CellView)
    requires
        s.cells.len() <= usize::MAX,
    ensures
        s.kept_in(s.allocate(cell).0),
        cell_at(s.allocate(cell).0.cells, s.allocate(cell).1) == Some(cell),
        s.allocate(cell).0.stack == s.stack,
        s.allocate(cell).0.frames == s.frames,
        s.allocate(cell).0.contexts == s.contexts,
{
}

/// Whether as many calls are under way and as many receivers are set in
/// `after` as in `before`.
pub open spec fn same_scopes(after: State, before: State) -> bool {
    after.frames.len() == before.frames.len() && after.contexts.len() == before.contexts.len()
}

} // verus!
