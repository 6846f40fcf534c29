//! The operations on arrays. Each takes its operands from the operand stack,
//! the array first and lowest, and leaves its result there.
use vstd::prelude::*;
use crate::arena::{resized, Arena, Cell};
use crate::error::{Fault, RuntimeError, RuntimeResult};
use crate::state::{same_scopes, array_at, equals, unpinned, CellView, State};
use crate::frame::Frame;
use crate::pool::{Instr, PoolIndex};
use crate::semantics::plain;
use crate::value::{Handle, Obj, Value};
use crate::vm::{performed, same_frame, VM};

verus! {

/// The array that the operand `v` stands for: `v` is an array, or a
/// reference cell that holds one, and its cell is there.
pub open spec fn array_handle(cells: Seq<CellView>, v: Value) -> Option<Handle> {
    match unpinned(cells, v) {
        Value::Array(h) => if array_at(cells, h) is Some {
            Some(h)
        } else {
            None
        },
        _ => None,
    }
}

/// The 32-bit signed number that the operand `v` stands for.
pub open spec fn index_operand(cells: Seq<CellView>, v: Value) -> Option<i32> {
    match unpinned(cells, v) {
        Value::I32(i) => Some(i),
        _ => None,
    }
}

/// The first position at or after `start` whose item equals `needle`.
pub open spec fn first_equal_from(
    cells: Seq<CellView>,
    items: Seq<Value>,
    needle: Value,
    start: int,
) -> Option<int>
    decreases items.len() - start,
{
    if start < 0 || start >= items.len() {
        None
    } else if equals(cells, items[start], needle) {
        Some(start)
    } else {
        first_equal_from(cells, items, needle, start + 1)
    }
}

/// The last position before `end` whose item equals `needle`.
pub open spec fn last_equal_before(
    cells: Seq<CellView>,
    items: Seq<Value>,
    needle: Value,
    end: int,
) -> Option<int>
    decreases end,
{
    if end <= 0 || end > items.len() {
        None
    } else if equals(cells, items[end - 1], needle) {
        Some(end - 1)
    } else {
        last_equal_before(cells, items, needle, end - 1)
    }
}

/// The number of items before `end` that equal `needle`.
pub open spec fn count_equal(cells: Seq<CellView>, items: Seq<Value>, needle: Value, end: int) -> nat
    decreases end,
{
    if end <= 0 || end > items.len() {
        0
    } else {
        count_equal(cells, items, needle, end - 1) + (if equals(cells, items[end - 1], needle) {
            1nat
        } else {
            0nat
        })
    }
}

/// What `first_equal_from` finds equals the needle, and nothing between
/// `start` and it does; it finds nothing only where nothing equals the
/// needle.
pub proof fn lemma_first_equal_from(
    cells: Seq<CellView>,
    items: Seq<Value>,
    needle: Value,
    start: int,
)
    requires
        0 <= start,
    ensures
        match first_equal_from(cells, items, needle, start) {
            Some(i) => start <= i < items.len() && equals(cells, items[i], needle) && forall|j: int|
                start <= j < i ==> !equals(cells, items[j], needle),
            None => forall|j: int| start <= j < items.len() ==> !equals(cells, items[j], needle),
        },
    decreases items.len() - start,
{
    if start < items.len() && !equals(cells, items[start], needle) {
        lemma_first_equal_from(cells, items, needle, start + 1);
    }
}

impl State {
    /// `ArrayClear`: takes the array and empties it.
    pub open spec fn array_clear(self) -> Result<State, Fault> {
        if self.stack.len() < 1 {
            Err(Fault::InvalidBytecode)
        } else {
            match array_handle(self.cells, self.peek(0)) {
                Some(h) => Ok(self.drop(1).with_cell(h, CellView::Array(Seq::empty()))),
                None => Err(Fault::InvalidBytecode),
            }
        }
    }

    /// `ArraySize`: replaces the array by its length.
    pub open spec fn array_size(self) -> Result<State, Fault> {
        if self.stack.len() < 1 {
            Err(Fault::InvalidBytecode)
        } else {
            match array_handle(self.cells, self.peek(0)) {
                Some(h) => Ok(
                    self.drop(1).push(Value::I32(array_at(self.cells, h).unwrap().len() as i32)),
                ),
                None => Err(Fault::InvalidBytecode),
            }
        }
    }

    /// The length that the operand of `ArrayResize` asks for.
    pub open spec fn wanted_length(self, v: Value) -> Result<usize, Fault> {
        match unpinned(self.cells, v) {
            Value::I32(i) => if i >= 0 {
                Ok(i as usize)
            } else {
                Err(Fault::OutOfBounds)
            },
            Value::U64(u) => if u <= usize::MAX {
                Ok(u as usize)
            } else {
                Err(Fault::OutOfBounds)
            },
            _ => Err(Fault::InvalidBytecode),
        }
    }

    /// `ArrayResize` and `ArrayGrow`: takes the array and a length, and cuts
    /// the array down to that length or fills it up with null references.
    pub open spec fn array_resize(self) -> Result<State, Fault> {
        if self.stack.len() < 2 {
            Err(Fault::InvalidBytecode)
        } else {
            match self.wanted_length(self.peek(0)) {
                Err(fault) => Err(fault),
                Ok(len) => match array_handle(self.cells, self.peek(1)) {
                    Some(h) => Ok(
                        self.drop(2).with_cell(
                            h,
                            CellView::Array(resized(array_at(self.cells, h).unwrap(), len as int)),
                        ),
                    ),
                    None => Err(Fault::InvalidBytecode),
                },
            }
        }
    }

    /// `ArrayFindFirst`: replaces the array and the needle by the first item
    /// that equals the needle, or by a null reference.
    pub open spec fn array_find_first(self) -> Result<State, Fault> {
        if self.stack.len() < 2 {
            Err(Fault::InvalidBytecode)
        } else {
            match array_handle(self.cells, self.peek(1)) {
                Some(h) => {
                    let items = array_at(self.cells, h).unwrap();
                    Ok(
                        self.drop(2).push(
                            match first_equal_from(self.cells, items, self.peek(0), 0) {
                                Some(i) => items[i],
                                None => Value::Obj(Obj::Null),
                            },
                        ),
                    )
                },
                None => Err(Fault::InvalidBytecode),
            }
        }
    }

    /// `ArrayFindLast`: as `ArrayFindFirst`, with the last such item.
    pub open spec fn array_find_last(self) -> Result<State, Fault> {
        if self.stack.len() < 2 {
            Err(Fault::InvalidBytecode)
        } else {
            match array_handle(self.cells, self.peek(1)) {
                Some(h) => {
                    let items = array_at(self.cells, h).unwrap();
                    Ok(
                        self.drop(2).push(
                            match last_equal_before(
                                self.cells,
                                items,
                                self.peek(0),
                                items.len() as int,
                            ) {
                                Some(i) => items[i],
                                None => Value::Obj(Obj::Null),
                            },
                        ),
                    )
                },
                None => Err(Fault::InvalidBytecode),
            }
        }
    }

    /// `ArrayContains`: replaces the array and the needle by whether an item
    /// equals the needle.
    pub open spec fn array_contains(self) -> Result<State, Fault> {
        if self.stack.len() < 2 {
            Err(Fault::InvalidBytecode)
        } else {
            match array_handle(self.cells, self.peek(1)) {
                Some(h) => Ok(
                    self.drop(2).push(
                        Value::Bool(
                            first_equal_from(
                                self.cells,
                                array_at(self.cells, h).unwrap(),
                                self.peek(0),
                                0,
                            ) is Some,
                        ),
                    ),
                ),
                None => Err(Fault::InvalidBytecode),
            }
        }
    }

    /// `ArrayCount`: replaces the array and the needle by the number of
    /// items that equal the needle.
    pub open spec fn array_count(self) -> Result<State, Fault> {
        if self.stack.len() < 2 {
            Err(Fault::InvalidBytecode)
        } else {
            match array_handle(self.cells, self.peek(1)) {
                Some(h) => {
                    let items = array_at(self.cells, h).unwrap();
                    Ok(
                        self.drop(2).push(
                            Value::I32(
                                count_equal(self.cells, items, self.peek(0), items.len() as int)
                                    as i32,
                            ),
                        ),
                    )
                },
                None => Err(Fault::InvalidBytecode),
            }
        }
    }

    /// `ArrayPush`: takes the array and a value, and appends the value.
    pub open spec fn array_push(self) -> Result<State, Fault> {
        if self.stack.len() < 2 {
            Err(Fault::InvalidBytecode)
        } else {
            match array_handle(self.cells, self.peek(1)) {
                Some(h) => Ok(
                    self.drop(2).with_cell(
                        h,
                        CellView::Array(array_at(self.cells, h).unwrap().push(self.peek(0))),
                    ),
                ),
                None => Err(Fault::InvalidBytecode),
            }
        }
    }

    /// `ArrayPop`: replaces the array by its last item, which leaves the
    /// array.
    pub open spec fn array_pop(self) -> Result<State, Fault> {
        if self.stack.len() < 1 {
            Err(Fault::InvalidBytecode)
        } else {
            match array_handle(self.cells, self.peek(0)) {
                Some(h) => {
                    let items = array_at(self.cells, h).unwrap();
                    if items.len() == 0 {
                        Err(Fault::OutOfBounds)
                    } else {
                        Ok(
                            self.drop(1).with_cell(h, CellView::Array(items.drop_last())).push(
                                items.last(),
                            ),
                        )
                    }
                },
                None => Err(Fault::InvalidBytecode),
            }
        }
    }

    /// `ArrayInsert`: takes the array, a position and a value, and puts the
    /// value at that position.
    pub open spec fn array_insert(self) -> Result<State, Fault> {
        if self.stack.len() < 3 {
            Err(Fault::InvalidBytecode)
        } else {
            match index_operand(self.cells, self.peek(1)) {
                None => Err(Fault::InvalidBytecode),
                Some(at) => match array_handle(self.cells, self.peek(2)) {
                    Some(h) => {
                        let items = array_at(self.cells, h).unwrap();
                        if 0 <= at <= items.len() {
                            Ok(
                                self.drop(3).with_cell(
                                    h,
                                    CellView::Array(items.insert(at as int, self.peek(0))),
                                ),
                            )
                        } else {
                            Err(Fault::OutOfBounds)
                        }
                    },
                    None => Err(Fault::InvalidBytecode),
                },
            }
        }
    }

    /// `ArrayRemove`: replaces the array and the needle by whether an item
    /// equals the needle; the first such item leaves the array.
    pub open spec fn array_remove(self) -> Result<State, Fault> {
        if self.stack.len() < 2 {
            Err(Fault::InvalidBytecode)
        } else {
            match array_handle(self.cells, self.peek(1)) {
                Some(h) => {
                    let items = array_at(self.cells, h).unwrap();
                    match first_equal_from(self.cells, items, self.peek(0), 0) {
                        Some(i) => Ok(
                            self.drop(2).with_cell(h, CellView::Array(items.remove(i))).push(
                                Value::Bool(true),
                            ),
                        ),
                        None => Ok(self.drop(2).push(Value::Bool(false))),
                    }
                },
                None => Err(Fault::InvalidBytecode),
            }
        }
    }

    /// `ArrayErase`: replaces the array and a position by whether the array
    /// has that position; the item there leaves the array.
    pub open spec fn array_erase(self) -> Result<State, Fault> {
        if self.stack.len() < 2 {
            Err(Fault::InvalidBytecode)
        } else {
            match (array_handle(self.cells, self.peek(1)), index_operand(self.cells, self.peek(0))) {
                (Some(h), Some(at)) => {
                    let items = array_at(self.cells, h).unwrap();
                    if 0 <= at < items.len() {
                        Ok(
                            self.drop(2).with_cell(
                                h,
                                CellView::Array(items.remove(at as int)),
                            ).push(Value::Bool(true)),
                        )
                    } else {
                        Ok(self.drop(2).push(Value::Bool(false)))
                    }
                },
                _ => Err(Fault::InvalidBytecode),
            }
        }
    }

    /// `ArrayLast`: replaces the array by its last item.
    pub open spec fn array_last(self) -> Result<State, Fault> {
        if self.stack.len() < 1 {
            Err(Fault::InvalidBytecode)
        } else {
            match array_handle(self.cells, self.peek(0)) {
                Some(h) => {
                    let items = array_at(self.cells, h).unwrap();
                    if items.len() == 0 {
                        Err(Fault::OutOfBounds)
                    } else {
                        Ok(self.drop(1).push(items.last()))
                    }
                },
                None => Err(Fault::InvalidBytecode),
            }
        }
    }

    /// `ArrayElement`: replaces the array and a position by the item at that
    /// position.
    pub open spec fn array_element(self) -> Result<State, Fault> {
        if self.stack.len() < 2 {
            Err(Fault::InvalidBytecode)
        } else {
            match (array_handle(self.cells, self.peek(1)), index_operand(self.cells, self.peek(0))) {
                (Some(h), Some(at)) => {
                    let items = array_at(self.cells, h).unwrap();
                    if 0 <= at < items.len() {
                        Ok(self.drop(2).push(items[at as int]))
                    } else {
                        Err(Fault::OutOfBounds)
                    }
                },
                _ => Err(Fault::InvalidBytecode),
            }
        }
    }
}

/// Whether the outcome `r` of an operation that left the arena as `after` is
/// the one that `expected` describes: the same state, or the same error.
pub open spec fn agrees(r: RuntimeResult<()>, after: State, expected: Result<State, Fault>) -> bool {
    match r {
        Ok(_) => expected == Ok::<State, Fault>(after),
        Err(e) => expected == Err::<State, Fault>(e@),
    }
}

impl Arena {
    pub fn array_operand(&self, v: Value) -> (r: Option<Handle>)
        ensures
            r == array_handle(self@.cells, v),
    {
        match self.unpinned(v) {
            Value::Array(h) => if self.array(h).is_some() {
                Some(h)
            } else {
                None
            },
            _ => None,
        }
    }

    pub fn index_operand(&self, v: Value) -> (r: Option<i32>)
        ensures
            r == index_operand(self@.cells, v),
    {
        match self.unpinned(v) {
            Value::I32(i) => Some(i),
            _ => None,
        }
    }

    /// The items of the array at `h`, to read or change.
    pub fn array_mut(&mut self, h: Handle) -> (r: Option<&mut Vec<Value>>)
        requires
            old(self).wf(),
        ensures
            final(self).wf(),
            r.is_some() == array_at(old(self)@.cells, h).is_some(),
            match r {
                Some(items) => items@ == array_at(old(self)@.cells, h).unwrap() && final(self)@
                    == old(self)@.with_cell(h, CellView::Array(final(items)@)),
                None => final(self)@ == old(self)@,
            },
    {
        proof {
            assert forall|items: Vec<Value>|
                #![trigger old(self).cells@.update(h.0 as int, Cell::Array(items))]
                h.0 < old(self).cells@.len() implies {
                    let cells = old(self).cells@.update(h.0 as int, Cell::Array(items));
                    cells.map_values(|cell: Cell| cell@) == old(self)@.cells.update(
                        h.0 as int,
                        CellView::Array(items@),
                    ) && forall|i: int| 0 <= i < cells.len() ==> (#[trigger] cells[i]).wf()
                } by {
                let cells = old(self).cells@.update(h.0 as int, Cell::Array(items));
                assert(cells.map_values(|cell: Cell| cell@) =~= old(self)@.cells.update(
                    h.0 as int,
                    CellView::Array(items@),
                ));
                assert forall|i: int| 0 <= i < cells.len() implies (#[trigger] cells[i]).wf() by {
                    if i != h.0 {
                        assert(old(self).cells@[i].wf());
                    }
                }
            }
        }
        if self.array(h).is_none() {
            return None;
        }
        match &mut self.cells[h.0] {
            Cell::Array(items) => Some(items),
            _ => None,
        }
    }

    /// `ArrayClear`.
    pub fn array_clear(&mut self) -> (r: RuntimeResult<()>)
        requires
            old(self).wf(),
        ensures
            final(self).wf(),
            agrees(r, final(self)@, old(self)@.array_clear()),
    {
        if self.stack_len() < 1 {
            return Err(RuntimeError::InvalidBytecode);
        }
        match self.array_operand(self.peek(0)) {
            Some(h) => {
                self.drop_operands(1);
                match self.array_mut(h) {
                    Some(items) => {
                        items.clear();
                    },
                    None => {},
                }
                Ok(())
            },
            None => Err(RuntimeError::InvalidBytecode),
        }
    }

    /// `ArraySize`.
    pub fn array_size(&mut self) -> (r: RuntimeResult<()>)
        requires
            old(self).wf(),
        ensures
            final(self).wf(),
            agrees(r, final(self)@, old(self)@.array_size()),
    {
        if self.stack_len() < 1 {
            return Err(RuntimeError::InvalidBytecode);
        }
        match self.array_operand(self.peek(0)) {
            Some(h) => {
                let len = match self.array(h) {
                    Some(items) => items.len(),
                    None => 0,
                };
                self.drop_operands(1);
                self.push(Value::I32(#[verifier::truncate] (len as i32)));
                Ok(())
            },
            None => Err(RuntimeError::InvalidBytecode),
        }
    }

    fn wanted_length(&self, v: Value) -> (r: RuntimeResult<usize>)
        ensures
            match r {
                Ok(len) => self@.wanted_length(v) == Ok::<usize, Fault>(len),
                Err(e) => self@.wanted_length(v) == Err::<usize, Fault>(e@),
            },
    {
        match self.unpinned(v) {
            Value::I32(i) => if i >= 0 {
                Ok(i as usize)
            } else {
                Err(RuntimeError::OutOfBounds)
            },
            Value::U64(u) => if u <= usize::MAX as u64 {
                Ok(u as usize)
            } else {
                Err(RuntimeError::OutOfBounds)
            },
            _ => Err(RuntimeError::InvalidBytecode),
        }
    }

    /// `ArrayResize` and `ArrayGrow`.
    pub fn array_resize(&mut self) -> (r: RuntimeResult<()>)
        requires
            old(self).wf(),
        ensures
            final(self).wf(),
            agrees(r, final(self)@, old(self)@.array_resize()),
    {
        if self.stack_len() < 2 {
            return Err(RuntimeError::InvalidBytecode);
        }
        let len = self.wanted_length(self.peek(0))?;
        match self.array_operand(self.peek(1)) {
            Some(h) => {
                self.drop_operands(2);
                match self.array_mut(h) {
                    Some(items) => {
                        crate::arena::resize(items, len);
                    },
                    None => {},
                }
                Ok(())
            },
            None => Err(RuntimeError::InvalidBytecode),
        }
    }

    /// `ArrayPush`.
    pub fn array_push(&mut self) -> (r: RuntimeResult<()>)
        requires
            old(self).wf(),
        ensures
            final(self).wf(),
            agrees(r, final(self)@, old(self)@.array_push()),
    {
        if self.stack_len() < 2 {
            return Err(RuntimeError::InvalidBytecode);
        }
        let val = self.peek(0);
        match self.array_operand(self.peek(1)) {
            Some(h) => {
                self.drop_operands(2);
                match self.array_mut(h) {
                    Some(items) => {
                        items.push(val);
                    },
                    None => {},
                }
                Ok(())
            },
            None => Err(RuntimeError::InvalidBytecode),
        }
    }

    /// `ArrayPop`.
    pub fn array_pop(&mut self) -> (r: RuntimeResult<()>)
        requires
            old(self).wf(),
        ensures
            final(self).wf(),
            agrees(r, final(self)@, old(self)@.array_pop()),
    {
        if self.stack_len() < 1 {
            return Err(RuntimeError::InvalidBytecode);
        }
        match self.array_operand(self.peek(0)) {
            Some(h) => {
                let popped = match self.array_mut(h) {
                    Some(items) => items.pop(),
                    None => None,
                };
                match popped {
                    Some(val) => {
                        self.drop_operands(1);
                        self.push(val);
                        Ok(())
                    },
                    None => Err(RuntimeError::OutOfBounds),
                }
            },
            None => Err(RuntimeError::InvalidBytecode),
        }
    }

    /// `ArrayInsert`.
    pub fn array_insert(&mut self) -> (r: RuntimeResult<()>)
        requires
            old(self).wf(),
        ensures
            final(self).wf(),
            agrees(r, final(self)@, old(self)@.array_insert()),
    {
        if self.stack_len() < 3 {
            return Err(RuntimeError::InvalidBytecode);
        }
        let val = self.peek(0);
        let at = match self.index_operand(self.peek(1)) {
            Some(at) => at,
            None => {
                return Err(RuntimeError::InvalidBytecode);
            },
        };
        match self.array_operand(self.peek(2)) {
            Some(h) => {
                let fits = match self.array(h) {
                    Some(items) => at >= 0 && at as usize <= items.len(),
                    None => false,
                };
                if !fits {
                    return Err(RuntimeError::OutOfBounds);
                }
                self.drop_operands(3);
                match self.array_mut(h) {
                    Some(items) => {
                        items.insert(at as usize, val);
                    },
                    None => {},
                }
                Ok(())
            },
            None => Err(RuntimeError::InvalidBytecode),
        }
    }

    /// `ArrayLast`.
    pub fn array_last(&mut self) -> (r: RuntimeResult<()>)
        requires
            old(self).wf(),
        ensures
            final(self).wf(),
            agrees(r, final(self)@, old(self)@.array_last()),
    {
        if self.stack_len() < 1 {
            return Err(RuntimeError::InvalidBytecode);
        }
        match self.array_operand(self.peek(0)) {
            Some(h) => {
                let last = match self.array(h) {
                    Some(items) => if items.len() > 0 {
                        Some(items[items.len() - 1])
                    } else {
                        None
                    },
                    None => None,
                };
                match last {
                    Some(val) => {
                        self.drop_operands(1);
                        self.push(val);
                        Ok(())
                    },
                    None => Err(RuntimeError::OutOfBounds),
                }
            },
            None => Err(RuntimeError::InvalidBytecode),
        }
    }

    /// `ArrayElement`.
    pub fn array_element(&mut self) -> (r: RuntimeResult<()>)
        requires
            old(self).wf(),
        ensures
            final(self).wf(),
            agrees(r, final(self)@, old(self)@.array_element()),
    {
        if self.stack_len() < 2 {
            return Err(RuntimeError::InvalidBytecode);
        }
        match (self.array_operand(self.peek(1)), self.index_operand(self.peek(0))) {
            (Some(h), Some(at)) => {
                let item = match self.array(h) {
                    Some(items) => if at >= 0 && (at as usize) < items.len() {
                        Some(items[at as usize])
                    } else {
                        None
                    },
                    None => None,
                };
                match item {
                    Some(val) => {
                        self.drop_operands(2);
                        self.push(val);
                        Ok(())
                    },
                    None => Err(RuntimeError::OutOfBounds),
                }
            },
            _ => Err(RuntimeError::InvalidBytecode),
        }
    }
}

impl Arena {
    fn first_equal(&self, items: &Vec<Value>, needle: Value) -> (r: Option<usize>)
        ensures
            match r {
                Some(i) => i < items@.len() && first_equal_from(self@.cells, items@, needle, 0)
                    == Some(i as int),
                None => first_equal_from(self@.cells, items@, needle, 0) is None,
            },
    {
        let mut i: usize = 0;
        while i < items.len()
            invariant
                i <= items@.len(),
                first_equal_from(self@.cells, items@, needle, 0) == first_equal_from(
                    self@.cells,
                    items@,
                    needle,
                    i as int,
                ),
            decreases items@.len() - i,
        {
            if self.equals(items[i], needle) {
                return Some(i);
            }
            i += 1;
        }
        None
    }

    fn last_equal(&self, items: &Vec<Value>, needle: Value) -> (r: Option<usize>)
        ensures
            match r {
                Some(i) => i < items@.len() && last_equal_before(
                    self@.cells,
                    items@,
                    needle,
                    items@.len() as int,
                ) == Some(i as int),
                None => last_equal_before(self@.cells, items@, needle, items@.len() as int)
                    is None,
            },
    {
        let mut i: usize = items.len();
        while i > 0
            invariant
                i <= items@.len(),
                last_equal_before(self@.cells, items@, needle, items@.len() as int)
                    == last_equal_before(self@.cells, items@, needle, i as int),
            decreases i,
        {
            if self.equals(items[i - 1], needle) {
                return Some(i - 1);
            }
            i -= 1;
        }
        None
    }

    fn count_equal(&self, items: &Vec<Value>, needle: Value) -> (r: usize)
        ensures
            r == count_equal(self@.cells, items@, needle, items@.len() as int),
    {
        let mut count: usize = 0;
        let mut i: usize = 0;
        while i < items.len()
            invariant
                i <= items@.len(),
                count <= i,
                count == count_equal(self@.cells, items@, needle, i as int),
            decreases items@.len() - i,
        {
            if self.equals(items[i], needle) {
                count += 1;
            }
            i += 1;
        }
        count
    }

    /// `ArrayFindFirst`.
    pub fn array_find_first(&mut self) -> (r: RuntimeResult<()>)
        requires
            old(self).wf(),
        ensures
            final(self).wf(),
            agrees(r, final(self)@, old(self)@.array_find_first()),
    {
        if self.stack_len() < 2 {
            return Err(RuntimeError::InvalidBytecode);
        }
        let needle = self.peek(0);
        match self.array_operand(self.peek(1)) {
            Some(h) => {
                let found = match self.array(h) {
                    Some(items) => match self.first_equal(items, needle) {
                        Some(i) => items[i],
                        None => Value::Obj(Obj::Null),
                    },
                    None => Value::Obj(Obj::Null),
                };
                self.drop_operands(2);
                self.push(found);
                Ok(())
            },
            None => Err(RuntimeError::InvalidBytecode),
        }
    }

    /// `ArrayFindLast`.
    pub fn array_find_last(&mut self) -> (r: RuntimeResult<()>)
        requires
            old(self).wf(),
        ensures
            final(self).wf(),
            agrees(r, final(self)@, old(self)@.array_find_last()),
    {
        if self.stack_len() < 2 {
            return Err(RuntimeError::InvalidBytecode);
        }
        let needle = self.peek(0);
        match self.array_operand(self.peek(1)) {
            Some(h) => {
                let found = match self.array(h) {
                    Some(items) => match self.last_equal(items, needle) {
                        Some(i) => items[i],
                        None => Value::Obj(Obj::Null),
                    },
                    None => Value::Obj(Obj::Null),
                };
                self.drop_operands(2);
                self.push(found);
                Ok(())
            },
            None => Err(RuntimeError::InvalidBytecode),
        }
    }

    /// `ArrayContains`.
    pub fn array_contains(&mut self) -> (r: RuntimeResult<()>)
        requires
            old(self).wf(),
        ensures
            final(self).wf(),
            agrees(r, final(self)@, old(self)@.array_contains()),
    {
        if self.stack_len() < 2 {
            return Err(RuntimeError::InvalidBytecode);
        }
        let needle = self.peek(0);
        match self.array_operand(self.peek(1)) {
            Some(h) => {
                let found = match self.array(h) {
                    Some(items) => self.first_equal(items, needle).is_some(),
                    None => false,
                };
                self.drop_operands(2);
                self.push(Value::Bool(found));
                Ok(())
            },
            None => Err(RuntimeError::InvalidBytecode),
        }
    }

    /// `ArrayCount`.
    pub fn array_count(&mut self) -> (r: RuntimeResult<()>)
        requires
            old(self).wf(),
        ensures
            final(self).wf(),
            agrees(r, final(self)@, old(self)@.array_count()),
    {
        if self.stack_len() < 2 {
            return Err(RuntimeError::InvalidBytecode);
        }
        let needle = self.peek(0);
        match self.array_operand(self.peek(1)) {
            Some(h) => {
                let count = match self.array(h) {
                    Some(items) => self.count_equal(items, needle),
                    None => 0,
                };
                self.drop_operands(2);
                self.push(Value::I32(#[verifier::truncate] (count as i32)));
                Ok(())
            },
            None => Err(RuntimeError::InvalidBytecode),
        }
    }

    /// `ArrayRemove`.
    pub fn array_remove(&mut self) -> (r: RuntimeResult<()>)
        requires
            old(self).wf(),
        ensures
            final(self).wf(),
            agrees(r, final(self)@, old(self)@.array_remove()),
    {
        if self.stack_len() < 2 {
            return Err(RuntimeError::InvalidBytecode);
        }
        let needle = self.peek(0);
        match self.array_operand(self.peek(1)) {
            Some(h) => {
                let found = match self.array(h) {
                    Some(items) => self.first_equal(items, needle),
                    None => None,
                };
                proof {
                    lemma_first_equal_from(
                        self@.cells,
                        array_at(self@.cells, h).unwrap(),
                        needle,
                        0,
                    );
                }
                self.drop_operands(2);
                match found {
                    Some(i) => {
                        match self.array_mut(h) {
                            Some(items) => {
                                items.remove(i);
                            },
                            None => {},
                        }
                        self.push(Value::Bool(true));
                    },
                    None => {
                        self.push(Value::Bool(false));
                    },
                }
                Ok(())
            },
            None => Err(RuntimeError::InvalidBytecode),
        }
    }

    /// `ArrayErase`.
    pub fn array_erase(&mut self) -> (r: RuntimeResult<()>)
        requires
            old(self).wf(),
        ensures
            final(self).wf(),
            agrees(r, final(self)@, old(self)@.array_erase()),
    {
        if self.stack_len() < 2 {
            return Err(RuntimeError::InvalidBytecode);
        }
        match (self.array_operand(self.peek(1)), self.index_operand(self.peek(0))) {
            (Some(h), Some(at)) => {
                let inside = match self.array(h) {
                    Some(items) => at >= 0 && (at as usize) < items.len(),
                    None => false,
                };
                self.drop_operands(2);
                if inside {
                    match self.array_mut(h) {
                        Some(items) => {
                            items.remove(at as usize);
                        },
                        None => {},
                    }
                }
                self.push(Value::Bool(inside));
                Ok(())
            },
            _ => Err(RuntimeError::InvalidBytecode),
        }
    }
}

/// `ArrayClear`: runs the array, then empties it.
pub fn clear(vm: &mut VM, frame: &mut Frame) -> (r: RuntimeResult<()>)
    requires
        old(vm).wf(),
        old(frame).wf(),
    ensures
        final(vm).follows(old(vm)),
        r is Ok ==> same_scopes(final(vm).arena@, old(vm).arena@),
        same_frame(final(frame), old(frame)),
        performed(
            plain(
                old(vm).env(),
                old(vm).arena@,
                old(frame).code(),
                old(frame).ip as int,
                Instr::ArrayClear(PoolIndex(0)),
                false,
                old(vm).budget as nat,
            ),
            r,
            final(vm).arena@,
            final(frame).ip as int,
            final(vm).budget as nat,
        ),
    decreases old(vm).budget, 2int, 0int,
{
    vm.operands(frame, 1)?;
    vm.arena.array_clear()
}

/// `ArraySize`: runs the array, then replaces it by its length.
pub fn size(vm: &mut VM, frame: &mut Frame) -> (r: RuntimeResult<()>)
    requires
        old(vm).wf(),
        old(frame).wf(),
    ensures
        final(vm).follows(old(vm)),
        r is Ok ==> same_scopes(final(vm).arena@, old(vm).arena@),
        same_frame(final(frame), old(frame)),
        performed(
            plain(
                old(vm).env(),
                old(vm).arena@,
                old(frame).code(),
                old(frame).ip as int,
                Instr::ArraySize(PoolIndex(0)),
                false,
                old(vm).budget as nat,
            ),
            r,
            final(vm).arena@,
            final(frame).ip as int,
            final(vm).budget as nat,
        ),
    decreases old(vm).budget, 2int, 0int,
{
    vm.operands(frame, 1)?;
    vm.arena.array_size()
}

/// `ArrayResize` and `ArrayGrow`: runs the array and the length, then makes
/// the array that long.
pub fn resize(vm: &mut VM, frame: &mut Frame) -> (r: RuntimeResult<()>)
    requires
        old(vm).wf(),
        old(frame).wf(),
    ensures
        final(vm).follows(old(vm)),
        r is Ok ==> same_scopes(final(vm).arena@, old(vm).arena@),
        same_frame(final(frame), old(frame)),
        performed(
            plain(
                old(vm).env(),
                old(vm).arena@,
                old(frame).code(),
                old(frame).ip as int,
                Instr::ArrayResize(PoolIndex(0)),
                false,
                old(vm).budget as nat,
            ),
            r,
            final(vm).arena@,
            final(frame).ip as int,
            final(vm).budget as nat,
        ),
    decreases old(vm).budget, 2int, 0int,
{
    vm.operands(frame, 2)?;
    vm.arena.array_resize()
}

/// `ArrayFindFirst`: runs the array and the needle, then leaves the first
/// item that equals the needle.
pub fn find_first(vm: &mut VM, frame: &mut Frame) -> (r: RuntimeResult<()>)
    requires
        old(vm).wf(),
        old(frame).wf(),
    ensures
        final(vm).follows(old(vm)),
        r is Ok ==> same_scopes(final(vm).arena@, old(vm).arena@),
        same_frame(final(frame), old(frame)),
        performed(
            plain(
                old(vm).env(),
                old(vm).arena@,
                old(frame).code(),
                old(frame).ip as int,
                Instr::ArrayFindFirst(PoolIndex(0)),
                false,
                old(vm).budget as nat,
            ),
            r,
            final(vm).arena@,
            final(frame).ip as int,
            final(vm).budget as nat,
        ),
    decreases old(vm).budget, 2int, 0int,
{
    vm.operands(frame, 2)?;
    vm.arena.array_find_first()
}

/// `ArrayFindLast`: runs the array and the needle, then leaves the last item
/// that equals the needle.
pub fn find_last(vm: &mut VM, frame: &mut Frame) -> (r: RuntimeResult<()>)
    requires
        old(vm).wf(),
        old(frame).wf(),
    ensures
        final(vm).follows(old(vm)),
        r is Ok ==> same_scopes(final(vm).arena@, old(vm).arena@),
        same_frame(final(frame), old(frame)),
        performed(
            plain(
                old(vm).env(),
                old(vm).arena@,
                old(frame).code(),
                old(frame).ip as int,
                Instr::ArrayFindLast(PoolIndex(0)),
                false,
                old(vm).budget as nat,
            ),
            r,
            final(vm).arena@,
            final(frame).ip as int,
            final(vm).budget as nat,
        ),
    decreases old(vm).budget, 2int, 0int,
{
    vm.operands(frame, 2)?;
    vm.arena.array_find_last()
}

/// `ArrayContains`: runs the array and the needle, then leaves whether an
/// item equals the needle.
pub fn contains(vm: &mut VM, frame: &mut Frame) -> (r: RuntimeResult<()>)
    requires
        old(vm).wf(),
        old(frame).wf(),
    ensures
        final(vm).follows(old(vm)),
        r is Ok ==> same_scopes(final(vm).arena@, old(vm).arena@),
        same_frame(final(frame), old(frame)),
        performed(
            plain(
                old(vm).env(),
                old(vm).arena@,
                old(frame).code(),
                old(frame).ip as int,
                Instr::ArrayContains(PoolIndex(0)),
                false,
                old(vm).budget as nat,
            ),
            r,
            final(vm).arena@,
            final(frame).ip as int,
            final(vm).budget as nat,
        ),
    decreases old(vm).budget, 2int, 0int,
{
    vm.operands(frame, 2)?;
    vm.arena.array_contains()
}

/// `ArrayCount`: runs the array and the needle, then leaves the number of
/// items that equal the needle.
pub fn count(vm: &mut VM, frame: &mut Frame) -> (r: RuntimeResult<()>)
    requires
        old(vm).wf(),
        old(frame).wf(),
    ensures
        final(vm).follows(old(vm)),
        r is Ok ==> same_scopes(final(vm).arena@, old(vm).arena@),
        same_frame(final(frame), old(frame)),
        performed(
            plain(
                old(vm).env(),
                old(vm).arena@,
                old(frame).code(),
                old(frame).ip as int,
                Instr::ArrayCount(PoolIndex(0)),
                false,
                old(vm).budget as nat,
            ),
            r,
            final(vm).arena@,
            final(frame).ip as int,
            final(vm).budget as nat,
        ),
    decreases old(vm).budget, 2int, 0int,
{
    vm.operands(frame, 2)?;
    vm.arena.array_count()
}

/// `ArrayPush`: runs the array and the value, then appends the value.
pub fn push(vm: &mut VM, frame: &mut Frame) -> (r: RuntimeResult<()>)
    requires
        old(vm).wf(),
        old(frame).wf(),
    ensures
        final(vm).follows(old(vm)),
        r is Ok ==> same_scopes(final(vm).arena@, old(vm).arena@),
        same_frame(final(frame), old(frame)),
        performed(
            plain(
                old(vm).env(),
                old(vm).arena@,
                old(frame).code(),
                old(frame).ip as int,
                Instr::ArrayPush(PoolIndex(0)),
                false,
                old(vm).budget as nat,
            ),
            r,
            final(vm).arena@,
            final(frame).ip as int,
            final(vm).budget as nat,
        ),
    decreases old(vm).budget, 2int, 0int,
{
    vm.operands(frame, 2)?;
    vm.arena.array_push()
}

/// `ArrayPop`: runs the array, then takes its last item out and leaves it.
pub fn pop(vm: &mut VM, frame: &mut Frame) -> (r: RuntimeResult<()>)
    requires
        old(vm).wf(),
        old(frame).wf(),
    ensures
        final(vm).follows(old(vm)),
        r is Ok ==> same_scopes(final(vm).arena@, old(vm).arena@),
        same_frame(final(frame), old(frame)),
        performed(
            plain(
                old(vm).env(),
                old(vm).arena@,
                old(frame).code(),
                old(frame).ip as int,
                Instr::ArrayPop(PoolIndex(0)),
                false,
                old(vm).budget as nat,
            ),
            r,
            final(vm).arena@,
            final(frame).ip as int,
            final(vm).budget as nat,
        ),
    decreases old(vm).budget, 2int, 0int,
{
    vm.operands(frame, 1)?;
    vm.arena.array_pop()
}

/// `ArrayInsert`: runs the array, the position and the value, then puts the
/// value at the position.
pub fn insert(vm: &mut VM, frame: &mut Frame) -> (r: RuntimeResult<()>)
    requires
        old(vm).wf(),
        old(frame).wf(),
    ensures
        final(vm).follows(old(vm)),
        r is Ok ==> same_scopes(final(vm).arena@, old(vm).arena@),
        same_frame(final(frame), old(frame)),
        performed(
            plain(
                old(vm).env(),
                old(vm).arena@,
                old(frame).code(),
                old(frame).ip as int,
                Instr::ArrayInsert(PoolIndex(0)),
                false,
                old(vm).budget as nat,
            ),
            r,
            final(vm).arena@,
            final(frame).ip as int,
            final(vm).budget as nat,
        ),
    decreases old(vm).budget, 2int, 0int,
{
    vm.operands(frame, 3)?;
    vm.arena.array_insert()
}

/// `ArrayRemove`: runs the array and the needle, then takes the first item
/// that equals the needle out and leaves whether there was one.
pub fn remove(vm: &mut VM, frame: &mut Frame) -> (r: RuntimeResult<()>)
    requires
        old(vm).wf(),
        old(frame).wf(),
    ensures
        final(vm).follows(old(vm)),
        r is Ok ==> same_scopes(final(vm).arena@, old(vm).arena@),
        same_frame(final(frame), old(frame)),
        performed(
            plain(
                old(vm).env(),
                old(vm).arena@,
                old(frame).code(),
                old(frame).ip as int,
                Instr::ArrayRemove(PoolIndex(0)),
                false,
                old(vm).budget as nat,
            ),
            r,
            final(vm).arena@,
            final(frame).ip as int,
            final(vm).budget as nat,
        ),
    decreases old(vm).budget, 2int, 0int,
{
    vm.operands(frame, 2)?;
    vm.arena.array_remove()
}

/// `ArrayErase`: runs the array and the position, then takes the item at the
/// position out and leaves whether there was one.
pub fn erase(vm: &mut VM, frame: &mut Frame) -> (r: RuntimeResult<()>)
    requires
        old(vm).wf(),
        old(frame).wf(),
    ensures
        final(vm).follows(old(vm)),
        r is Ok ==> same_scopes(final(vm).arena@, old(vm).arena@),
        same_frame(final(frame), old(frame)),
        performed(
            plain(
                old(vm).env(),
                old(vm).arena@,
                old(frame).code(),
                old(frame).ip as int,
                Instr::ArrayErase(PoolIndex(0)),
                false,
                old(vm).budget as nat,
            ),
            r,
            final(vm).arena@,
            final(frame).ip as int,
            final(vm).budget as nat,
        ),
    decreases old(vm).budget, 2int, 0int,
{
    vm.operands(frame, 2)?;
    vm.arena.array_erase()
}

/// `ArrayLast`: runs the array, then leaves its last item.
pub fn last(vm: &mut VM, frame: &mut Frame) -> (r: RuntimeResult<()>)
    requires
        old(vm).wf(),
        old(frame).wf(),
    ensures
        final(vm).follows(old(vm)),
        r is Ok ==> same_scopes(final(vm).arena@, old(vm).arena@),
        same_frame(final(frame), old(frame)),
        performed(
            plain(
                old(vm).env(),
                old(vm).arena@,
                old(frame).code(),
                old(frame).ip as int,
                Instr::ArrayLast(PoolIndex(0)),
                false,
                old(vm).budget as nat,
            ),
            r,
            final(vm).arena@,
            final(frame).ip as int,
            final(vm).budget as nat,
        ),
    decreases old(vm).budget, 2int, 0int,
{
    vm.operands(frame, 1)?;
    vm.arena.array_last()
}

/// `ArrayElement`: runs the array and the position, then leaves the item at
/// the position.
pub fn element(vm: &mut VM, frame: &mut Frame) -> (r: RuntimeResult<()>)
    requires
        old(vm).wf(),
        old(frame).wf(),
    ensures
        final(vm).follows(old(vm)),
        r is Ok ==> same_scopes(final(vm).arena@, old(vm).arena@),
        same_frame(final(frame), old(frame)),
        performed(
            plain(
                old(vm).env(),
                old(vm).arena@,
                old(frame).code(),
                old(frame).ip as int,
                Instr::ArrayElement(PoolIndex(0)),
                false,
                old(vm).budget as nat,
            ),
            r,
            final(vm).arena@,
            final(frame).ip as int,
            final(vm).budget as nat,
        ),
    decreases old(vm).budget, 2int, 0int,
{
    vm.operands(frame, 2)?;
    vm.arena.array_element()
}

} // verus!
