//! The arena: the cells that values point into, and the three stacks that
//! are its root.
use vstd::prelude::*;

use crate::index_map::IndexMap;
use crate::state::{
    array_at, equals, instance_at, pinned_at, plain_equals, str_at, struct_at, unpinned, CellView,
    State,
};
use crate::value::{f32_bits_equal, f64_bits_equal, Handle, Instance, InstanceView, Obj, Value};

verus! {

/// What lives in the arena.
pub enum Cell {
    Struct(IndexMap<Value>),
    Instance(Instance),
    Array(Vec<Value>),
    Pinned(Value),
    Str(String),
    /// Nothing: the cell waits to be used again.
    Free,
}

impl View for Cell {
    type V = CellView;

    open spec fn view(&self) -> CellView {
        match *self {
            Cell::Struct(fields) => CellView::Struct(fields@),
            Cell::Instance(instance) => CellView::Instance(instance@),
            Cell::Array(items) => CellView::Array(items@),
            Cell::Pinned(inner) => CellView::Pinned(inner),
            Cell::Str(text) => CellView::Str(text@),
            Cell::Free => CellView::Free,
        }
    }
}

impl Cell {
    pub open spec fn wf(&self) -> bool {
        match *self {
            Cell::Struct(fields) => fields.wf(),
            Cell::Instance(instance) => instance.fields.wf() && (*instance.vtable).wf(),
            _ => true,
        }
    }
}

/// The root of the arena: the locals of the active calls, the operand stack
/// and the receivers of the active calls.
pub struct VMRoot {
    pub frames: Vec<IndexMap<Value>>,
    pub stack: Vec<Value>,
    pub contexts: Vec<Obj>,
}

/// The bytes that a cell is counted with when it is allocated.
pub open spec fn cell_cost(cell: CellView) -> nat {
    match cell {
        CellView::Struct(fields) => 64 + 32 * fields.len(),
        CellView::Instance(instance) => 96 + 32 * instance.fields.len(),
        CellView::Array(items) => 48 + 24 * items.len(),
        CellView::Pinned(_) => 48,
        CellView::Str(text) => 40 + 4 * text.len(),
        CellView::Free => 0,
    }
}

/// The debt after `bytes` more were allocated. It stops counting at the
/// largest 64-bit number.
pub open spec fn debt_after(debt: nat, bytes: nat) -> nat {
    if debt + bytes <= u64::MAX {
        debt + bytes
    } else {
        u64::MAX as nat
    }
}

/// The arena. A handle is good as long as something in the arena leads to
/// its cell: a collection step frees every other cell, and the place is
/// used again.
pub struct Arena {
    pub cells: Vec<Cell>,
    pub root: VMRoot,
    /// The places of cells that were freed, the one to use next last.
    pub free: Vec<usize>,
    pub debt: u64,
}

impl View for Arena {
    type V = State;

    open spec fn view(&self) -> State {
        State {
            cells: self.cells@.map_values(|cell: Cell| cell@),
            frames: self.root.frames@.map_values(|locals: IndexMap<Value>| locals@),
            stack: self.root.stack@,
            contexts: self.root.contexts@,
            free: self.free@,
            debt: self.debt as nat,
        }
    }
}

fn bounded_cost(base: u64, unit: u64, len: usize) -> (r: u64)
    requires
        1 <= unit <= 32,
        base <= 96,
    ensures
        r == (if base + unit * len <= u64::MAX {
            (base + unit * len) as u64
        } else {
            u64::MAX
        }),
{
    let room = (u64::MAX - base) / unit;
    if len as u64 <= room {
        assert(unit * len <= u64::MAX - base) by (nonlinear_arith)
            requires
                len <= room,
                room == (u64::MAX - base) / (unit as int),
                1 <= unit,
        ;
        base + unit * (len as u64)
    } else {
        assert(unit * len > u64::MAX - base) by (nonlinear_arith)
            requires
                len > room,
                room == (u64::MAX - base) / (unit as int),
                1 <= unit,
        ;
        u64::MAX
    }
}

impl Cell {
    fn cost(&self) -> (r: u64)
        ensures
            r == (if cell_cost(self@) <= u64::MAX {
                cell_cost(self@) as u64
            } else {
                u64::MAX
            }),
    {
        match self {
            Cell::Struct(fields) => bounded_cost(64, 32, fields.len()),
            Cell::Instance(instance) => bounded_cost(96, 32, instance.fields.len()),
            Cell::Array(items) => bounded_cost(48, 24, items.len()),
            Cell::Pinned(_) => 48,
            Cell::Str(text) => bounded_cost(40, 4, text.as_str().unicode_len()),
            Cell::Free => 0,
        }
    }
}

impl Arena {
    /// Every map in the arena is well formed.
    pub open spec fn wf(&self) -> bool {
        &&& forall|i: int| 0 <= i < self.cells@.len() ==> (#[trigger] self.cells@[i]).wf()
        &&& forall|i: int|
            0 <= i < self.root.frames@.len() ==> (#[trigger] self.root.frames@[i]).wf()
    }

    /// An arena with no cells and empty stacks.
    pub fn new() -> (r: Arena)
        ensures
            r.wf(),
            r@ == State::empty(),
    {
        let arena = Arena {
            cells: Vec::new(),
            root: VMRoot { frames: Vec::new(), stack: Vec::new(), contexts: Vec::new() },
            free: Vec::new(),
            debt: 0,
        };
        proof {
            assert(arena@.cells =~= Seq::empty());
            assert(arena@.frames =~= Seq::empty());
        }
        arena
    }

    /// Puts `cell` into the arena and returns its handle.
    pub fn allocate(&mut self, cell: Cell) -> (r: Handle)
        requires
            old(self).wf(),
            cell.wf(),
        ensures
            final(self).wf(),
            final(self)@ == old(self)@.allocate(cell@).0,
            r == old(self)@.allocate(cell@).1,
            old(self)@.kept_in(final(self)@),
    {
        let cost = cell.cost();
        self.debt = if cost <= u64::MAX - self.debt {
            self.debt + cost
        } else {
            u64::MAX
        };
        let slot = match self.free.pop() {
            Some(slot) => if slot < self.cells.len() {
                match &self.cells[slot] {
                    Cell::Free => Some(slot),
                    _ => None,
                }
            } else {
                None
            },
            None => None,
        };
        match slot {
            Some(slot) => {
                self.cells[slot] = cell;
                proof {
                    assert(self@.cells =~= old(self)@.cells.update(slot as int, cell@));
                    assert(self@.frames =~= old(self)@.frames);
                    assert forall|i: int| 0 <= i < self.cells@.len() implies (
                    #[trigger] self.cells@[i]).wf() by {
                        if i != slot {
                            assert(old(self).cells@[i].wf());
                        }
                    }
                }
                Handle(slot)
            },
            None => {
                let handle = Handle(self.cells.len());
                self.cells.push(cell);
                proof {
                    assert(self@.cells =~= old(self)@.cells.push(cell@));
                    assert(self@.frames =~= old(self)@.frames);
                }
                handle
            },
        }
    }

    pub fn array(&self, h: Handle) -> (r: Option<&Vec<Value>>)
        ensures
            r.is_some() == array_at(self@.cells, h).is_some(),
            r matches Some(items) ==> array_at(self@.cells, h) == Some(items@),
    {
        if h.0 < self.cells.len() {
            match &self.cells[h.0] {
                Cell::Array(items) => Some(items),
                _ => None,
            }
        } else {
            None
        }
    }

    pub fn boxed_struct(&self, h: Handle) -> (r: Option<&IndexMap<Value>>)
        requires
            self.wf(),
        ensures
            r.is_some() == struct_at(self@.cells, h).is_some(),
            r matches Some(fields) ==> struct_at(self@.cells, h) == Some(fields@) && fields.wf(),
    {
        if h.0 < self.cells.len() {
            match &self.cells[h.0] {
                Cell::Struct(fields) => {
                    assert(self.cells@[h.0 as int].wf());
                    Some(fields)
                },
                _ => None,
            }
        } else {
            None
        }
    }

    pub fn instance(&self, h: Handle) -> (r: Option<&Instance>)
        requires
            self.wf(),
        ensures
            r.is_some() == instance_at(self@.cells, h).is_some(),
            r matches Some(instance) ==> instance_at(self@.cells, h) == Some(instance@)
                && instance.fields.wf() && (*instance.vtable).wf(),
    {
        if h.0 < self.cells.len() {
            match &self.cells[h.0] {
                Cell::Instance(instance) => {
                    assert(self.cells@[h.0 as int].wf());
                    Some(instance)
                },
                _ => None,
            }
        } else {
            None
        }
    }

    pub fn pinned(&self, h: Handle) -> (r: Option<Value>)
        ensures
            r == pinned_at(self@.cells, h),
    {
        if h.0 < self.cells.len() {
            match &self.cells[h.0] {
                Cell::Pinned(inner) => Some(*inner),
                _ => None,
            }
        } else {
            None
        }
    }

    pub fn string(&self, h: Handle) -> (r: Option<&String>)
        ensures
            r.is_some() == str_at(self@.cells, h).is_some(),
            r matches Some(text) ==> str_at(self@.cells, h) == Some(text@),
    {
        if h.0 < self.cells.len() {
            match &self.cells[h.0] {
                Cell::Str(text) => Some(text),
                _ => None,
            }
        } else {
            None
        }
    }
}

impl VMRoot {
    pub fn pop(&mut self) -> (r: Option<Value>)
        ensures
            final(self).frames == old(self).frames,
            final(self).contexts == old(self).contexts,
            match r {
                Some(v) => old(self).stack@.len() > 0 && v == old(self).stack@.last()
                    && final(self).stack@ == old(self).stack@.drop_last(),
                None => old(self).stack@.len() == 0 && final(self).stack@ == old(self).stack@,
            },
    {
        self.stack.pop()
    }

    pub fn push(&mut self, val: Value)
        ensures
            final(self).frames == old(self).frames,
            final(self).contexts == old(self).contexts,
            final(self).stack@ == old(self).stack@.push(val),
    {
        self.stack.push(val);
    }

    /// Pushes the operand at `idx`, counted from the bottom, once more.
    pub fn copy(&mut self, idx: usize) -> (r: bool)
        ensures
            final(self).frames == old(self).frames,
            final(self).contexts == old(self).contexts,
            r == (idx < old(self).stack@.len()),
            final(self).stack@ == (if r {
                old(self).stack@.push(old(self).stack@[idx as int])
            } else {
                old(self).stack@
            }),
    {
        if idx < self.stack.len() {
            let val = self.stack[idx];
            self.stack.push(val);
            true
        } else {
            false
        }
    }

    /// Cuts the operand stack down to `size` values, or fills it up to
    /// `size` with null references.
    pub fn adjust_stack(&mut self, size: usize)
        ensures
            final(self).frames == old(self).frames,
            final(self).contexts == old(self).contexts,
            final(self).stack@ == resized(old(self).stack@, size as int),
    {
        resize(&mut self.stack, size);
    }
}

/// `items` cut down to `len` values, or filled up to `len` with null
/// references.
pub open spec fn resized(items: Seq<Value>, len: int) -> Seq<Value> {
    Seq::new(
        len as nat,
        |i: int|
            if i < items.len() {
                items[i]
            } else {
                Value::Obj(Obj::Null)
            },
    )
}

pub fn resize(items: &mut Vec<Value>, len: usize)
    ensures
        final(items)@ == resized(old(items)@, len as int),
{
    if len <= items.len() {
        items.truncate(len);
        assert(items@ =~= resized(old(items)@, len as int));
    } else {
        while items.len() < len
            invariant
                old(items)@.len() <= items@.len() <= len,
                items@ =~= resized(old(items)@, items@.len() as int),
            decreases len - items@.len(),
        {
            items.push(Value::Obj(Obj::Null));
        }
        assert(items@ =~= resized(old(items)@, len as int));
    }
}

impl Arena {
    pub fn push(&mut self, val: Value)
        requires
            old(self).wf(),
        ensures
            final(self).wf(),
            final(self)@ == old(self)@.push(val),
    {
        self.root.stack.push(val);
    }

    pub fn pop(&mut self) -> (r: Option<Value>)
        requires
            old(self).wf(),
        ensures
            final(self).wf(),
            match r {
                Some(v) => old(self)@.stack.len() > 0 && v == old(self)@.peek(0) && final(self)@
                    == old(self)@.drop(1),
                None => old(self)@.stack.len() == 0 && final(self)@ == old(self)@,
            },
    {
        let r = self.root.stack.pop();
        proof {
            if r.is_some() {
                assert(self@.stack =~= old(self)@.drop(1).stack);
            }
        }
        r
    }

    pub fn stack_len(&self) -> (r: usize)
        ensures
            r == self@.stack.len(),
    {
        self.root.stack.len()
    }

    /// Removes the `n` topmost operands; the stack must hold them.
    pub fn drop_operands(&mut self, n: usize)
        requires
            old(self).wf(),
            n <= old(self)@.stack.len(),
        ensures
            final(self).wf(),
            final(self)@ == old(self)@.drop(n as int),
    {
        let len = self.root.stack.len();
        self.root.stack.truncate(len - n);
        proof {
            assert(self@.stack =~= old(self)@.drop(n as int).stack);
        }
    }

    /// The operand that lies `n` below the top; the stack must hold it.
    pub fn peek(&self, n: usize) -> (r: Value)
        requires
            n < self@.stack.len(),
        ensures
            r == self@.peek(n as int),
    {
        self.root.stack[self.root.stack.len() - 1 - n]
    }

    pub fn unpinned(&self, v: Value) -> (r: Value)
        ensures
            r == unpinned(self@.cells, v),
    {
        match v {
            Value::Pinned(h) => match self.pinned(h) {
                Some(inner) => inner,
                None => v,
            },
            _ => v,
        }
    }

    fn plain_equals(&self, a: Value, b: Value) -> (r: bool)
        ensures
            r == plain_equals(self@.cells, a, b),
    {
        match (a, b) {
            (Value::I8(x), Value::I8(y)) => x == y,
            (Value::I16(x), Value::I16(y)) => x == y,
            (Value::I32(x), Value::I32(y)) => x == y,
            (Value::I64(x), Value::I64(y)) => x == y,
            (Value::U8(x), Value::U8(y)) => x == y,
            (Value::U16(x), Value::U16(y)) => x == y,
            (Value::U32(x), Value::U32(y)) => x == y,
            (Value::U64(x), Value::U64(y)) => x == y,
            (Value::F32(x), Value::F32(y)) => f32_bits_equal(x, y),
            (Value::F64(x), Value::F64(y)) => f64_bits_equal(x, y),
            (Value::Bool(x), Value::Bool(y)) => x == y,
            (Value::EnumVal(x), Value::EnumVal(y)) => x == y,
            (Value::Str(x), Value::Str(y)) => match (self.string(x), self.string(y)) {
                (Some(s), Some(t)) => *s == *t,
                _ => false,
            },
            (Value::InternStr(s, i), Value::InternStr(t, j)) => s == t && i == j,
            _ => false,
        }
    }

    pub fn equals(&self, a: Value, b: Value) -> (r: bool)
        ensures
            r == equals(self@.cells, a, b),
    {
        self.plain_equals(self.unpinned(a), self.unpinned(b))
    }
}

impl Arena {
    /// Replaces the value of the reference cell at `h`, and tells whether
    /// there is such a cell.
    pub fn set_pinned(&mut self, h: Handle, val: Value) -> (r: bool)
        requires
            old(self).wf(),
        ensures
            final(self).wf(),
            r == pinned_at(old(self)@.cells, h).is_some(),
            final(self)@ == (if r {
                old(self)@.with_cell(h, CellView::Pinned(val))
            } else {
                old(self)@
            }),
    {
        if self.pinned(h).is_none() {
            return false;
        }
        self.cells[h.0] = Cell::Pinned(val);
        proof {
            assert(self@.cells =~= old(self)@.cells.update(h.0 as int, CellView::Pinned(val)));
            assert forall|i: int| 0 <= i < self.cells@.len() implies (#[trigger] self.cells@[i]).wf() by {
                if i != h.0 {
                    assert(old(self).cells@[i].wf());
                }
            }
        }
        true
    }
}

impl Arena {
    /// The fields of the aggregate at `h`, to read or change.
    pub fn struct_mut(&mut self, h: Handle) -> (r: Option<&mut IndexMap<Value>>)
        requires
            old(self).wf(),
        ensures
            r.is_some() == struct_at(old(self)@.cells, h).is_some(),
            match r {
                Some(fields) => fields@ == struct_at(old(self)@.cells, h).unwrap() && fields.wf()
                    && final(self)@ == old(self)@.with_cell(h, CellView::Struct(final(fields)@))
                    && (final(fields).wf() ==> final(self).wf()),
                None => final(self)@ == old(self)@ && final(self).wf(),
            },
    {
        proof {
            assert forall|fields: IndexMap<Value>|
                #![trigger old(self).cells@.update(h.0 as int, Cell::Struct(fields))]
                h.0 < old(self).cells@.len() implies {
                    let cells = old(self).cells@.update(h.0 as int, Cell::Struct(fields));
                    cells.map_values(|cell: Cell| cell@) == old(self)@.cells.update(
                        h.0 as int,
                        CellView::Struct(fields@),
                    ) && (fields.wf() ==> forall|i: int|
                        0 <= i < cells.len() ==> (#[trigger] cells[i]).wf())
                } by {
                let cells = old(self).cells@.update(h.0 as int, Cell::Struct(fields));
                assert(cells.map_values(|cell: Cell| cell@) =~= old(self)@.cells.update(
                    h.0 as int,
                    CellView::Struct(fields@),
                ));
                if fields.wf() {
                    assert forall|i: int| 0 <= i < cells.len() implies (#[trigger] cells[i]).wf() by {
                        if i != h.0 {
                            assert(old(self).cells@[i].wf());
                        }
                    }
                }
            }
        }
        if self.boxed_struct(h).is_none() {
            return None;
        }
        assert(old(self).cells@[h.0 as int].wf());
        match &mut self.cells[h.0] {
            Cell::Struct(fields) => Some(fields),
            _ => None,
        }
    }

    /// The fields of the object at `h`, to read or change.
    pub fn instance_fields_mut(&mut self, h: Handle) -> (r: Option<&mut IndexMap<Value>>)
        requires
            old(self).wf(),
        ensures
            r.is_some() == instance_at(old(self)@.cells, h).is_some(),
            match r {
                Some(fields) => fields@ == instance_at(old(self)@.cells, h).unwrap().fields
                    && fields.wf() && final(self)@ == old(self)@.with_cell(
                    h,
                    CellView::Instance(
                        InstanceView {
                            fields: final(fields)@,
                            ..instance_at(old(self)@.cells, h).unwrap()
                        },
                    ),
                ) && (final(fields).wf() ==> final(self).wf()),
                None => final(self)@ == old(self)@ && final(self).wf(),
            },
    {
        proof {
            assert forall|instance: Instance|
                #![trigger old(self).cells@.update(h.0 as int, Cell::Instance(instance))]
                h.0 < old(self).cells@.len() implies {
                    let cells = old(self).cells@.update(h.0 as int, Cell::Instance(instance));
                    cells.map_values(|cell: Cell| cell@) == old(self)@.cells.update(
                        h.0 as int,
                        CellView::Instance(instance@),
                    ) && (instance.fields.wf() && (*instance.vtable).wf() ==> forall|i: int|
                        0 <= i < cells.len() ==> (#[trigger] cells[i]).wf())
                } by {
                let cells = old(self).cells@.update(h.0 as int, Cell::Instance(instance));
                assert(cells.map_values(|cell: Cell| cell@) =~= old(self)@.cells.update(
                    h.0 as int,
                    CellView::Instance(instance@),
                ));
                if instance.fields.wf() && (*instance.vtable).wf() {
                    assert forall|i: int| 0 <= i < cells.len() implies (#[trigger] cells[i]).wf() by {
                        if i != h.0 {
                            assert(old(self).cells@[i].wf());
                        }
                    }
                }
            }
        }
        if self.instance(h).is_none() {
            return None;
        }
        assert(old(self).cells@[h.0 as int].wf());
        match &mut self.cells[h.0] {
            Cell::Instance(instance) => Some(&mut instance.fields),
            _ => None,
        }
    }

    /// The locals of the innermost call, to read or change.
    pub fn locals_mut(&mut self) -> (r: Option<&mut IndexMap<Value>>)
        requires
            old(self).wf(),
        ensures
            r.is_some() == (old(self)@.frames.len() > 0),
            match r {
                Some(locals) => locals@ == old(self)@.frames.last() && locals.wf() && final(self)@
                    == old(self)@.with_locals(final(locals)@)
                    && (final(locals).wf() ==> final(self).wf()),
                None => final(self)@ == old(self)@ && final(self).wf(),
            },
    {
        proof {
            assert forall|locals: IndexMap<Value>|
                #![trigger old(self).root.frames@.update(old(self).root.frames@.len() - 1, locals)]
                old(self).root.frames@.len() > 0 implies {
                    let frames = old(self).root.frames@.update(
                        old(self).root.frames@.len() - 1,
                        locals,
                    );
                    frames.map_values(|l: IndexMap<Value>| l@) == old(self)@.frames.update(
                        old(self)@.frames.len() - 1,
                        locals@,
                    ) && (locals.wf() ==> forall|i: int|
                        0 <= i < frames.len() ==> (#[trigger] frames[i]).wf())
                } by {
                let frames = old(self).root.frames@.update(
                    old(self).root.frames@.len() - 1,
                    locals,
                );
                assert(frames.map_values(|l: IndexMap<Value>| l@) =~= old(self)@.frames.update(
                    old(self)@.frames.len() - 1,
                    locals@,
                ));
                if locals.wf() {
                    assert forall|i: int| 0 <= i < frames.len() implies (#[trigger] frames[i]).wf() by {
                        if i != frames.len() - 1 {
                            assert(old(self).root.frames@[i].wf());
                        }
                    }
                }
            }
        }
        let n = self.root.frames.len();
        if n == 0 {
            return None;
        }
        assert(old(self).root.frames@[n - 1].wf());
        Some(&mut self.root.frames[n - 1])
    }

    /// The locals of the innermost call.
    pub fn locals(&self) -> (r: Option<&IndexMap<Value>>)
        requires
            self.wf(),
        ensures
            r.is_some() == (self@.frames.len() > 0),
            r matches Some(locals) ==> locals@ == self@.frames.last() && locals.wf(),
    {
        let n = self.root.frames.len();
        if n == 0 {
            None
        } else {
            assert(self.root.frames@[n - 1].wf());
            Some(&self.root.frames[n - 1])
        }
    }

    /// The receiver of the innermost call.
    pub fn context(&self) -> (r: Option<Obj>)
        ensures
            r == self@.context(),
    {
        let n = self.root.contexts.len();
        if n == 0 {
            None
        } else {
            Some(self.root.contexts[n - 1])
        }
    }
}

} // verus!
