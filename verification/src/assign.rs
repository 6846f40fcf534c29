//! What assignment does, by the kind of its target. The value to assign lies
//! on top of the operand stack.
use vstd::prelude::*;
use crate::arena::Arena;
use crate::array::{agrees, array_handle};
use crate::error::{Fault, RuntimeError, RuntimeResult};
use crate::index_map::{has_key, lookup, replaced, stored};
use crate::pool::PoolIndex;
use crate::state::{array_at, instance_at, pinned_at, struct_at, unpinned, CellView, State};
use crate::value::{Handle, Obj, Value};

verus! {

/// The position that an operand names as it is: a 32-bit signed number
/// taken as unsigned, or a 64-bit unsigned number.
pub open spec fn raw_position(v: Value) -> Option<u64> {
    match v {
        Value::I32(i) => Some(i as u64),
        Value::U64(u) => Some(u),
        _ => None,
    }
}

impl State {
    /// Assignment to the local at `idx`: the value goes into the reference
    /// cell where the local is one, else it replaces the local.
    pub open spec fn assign_local(self, idx: u32) -> Result<State, Fault> {
        if self.frames.len() == 0 {
            Err(Fault::InvalidBytecode)
        } else {
            match lookup(self.frames.last(), idx) {
                None => Err(Fault::InvalidBytecode),
                Some(local) => if self.stack.len() < 1 {
                    Err(Fault::InvalidBytecode)
                } else {
                    match local {
                        Value::Pinned(h) => if pinned_at(self.cells, h) is Some {
                            Ok(self.drop(1).with_cell(h, CellView::Pinned(self.peek(0))))
                        } else {
                            Err(Fault::InvalidBytecode)
                        },
                        _ => Ok(self.drop(1).set_local(idx, self.peek(0))),
                    }
                },
            }
        }
    }

    /// Assignment to the field at `idx` of the receiver: the value replaces
    /// the field.
    pub open spec fn assign_object_field(self, idx: u32) -> Result<State, Fault> {
        match self.context_instance() {
            None => Err(Fault::NullPointer),
            Some(h) => match instance_at(self.cells, h) {
                None => Err(Fault::InvalidBytecode),
                Some(instance) => if !has_key(instance.fields, idx) || self.stack.len() < 1 {
                    Err(Fault::InvalidBytecode)
                } else {
                    Ok(self.drop(1).set_object_field(h, idx, self.peek(0)))
                },
            },
        }
    }

    /// The state with the value `val` under `idx` in the aggregate at `h`,
    /// whether or not the aggregate had that field.
    pub open spec fn put_struct_field(self, h: Handle, idx: u32, val: Value) -> State {
        match struct_at(self.cells, h) {
            Some(fields) => self.with_cell(
                h,
                CellView::Struct(
                    if has_key(fields, idx) {
                        replaced(fields, idx, val)
                    } else {
                        stored(fields, idx, val)
                    },
                ),
            ),
            None => self,
        }
    }

    /// Assignment to the field at `idx` of an aggregate: takes the aggregate
    /// and the value; the aggregate holds the value under `idx` afterwards.
    pub open spec fn assign_struct_field(self, idx: u32) -> Result<State, Fault> {
        if self.stack.len() < 2 {
            Err(Fault::InvalidBytecode)
        } else {
            match unpinned(self.cells, self.peek(1)) {
                Value::BoxedStruct(h) => if struct_at(self.cells, h) is Some {
                    Ok(self.drop(2).put_struct_field(h, idx, self.peek(0)))
                } else {
                    Err(Fault::InvalidBytecode)
                },
                Value::PackedStruct(_) => Err(Fault::Todo),
                _ => Err(Fault::InvalidBytecode),
            }
        }
    }

    /// Assignment to an item of an array: takes the array, a position and
    /// the value; the value replaces the item at that position.
    pub open spec fn assign_array_element(self) -> Result<State, Fault> {
        if self.stack.len() < 3 {
            Err(Fault::InvalidBytecode)
        } else {
            match raw_position(self.peek(1)) {
                None => Err(Fault::InvalidBytecode),
                Some(at) => match array_handle(self.cells, self.peek(2)) {
                    None => Err(Fault::InvalidBytecode),
                    Some(h) => {
                        let items = array_at(self.cells, h).unwrap();
                        if at < items.len() {
                            Ok(
                                self.drop(3).with_cell(
                                    h,
                                    CellView::Array(items.update(at as int, self.peek(0))),
                                ),
                            )
                        } else {
                            Err(Fault::OutOfBounds)
                        }
                    },
                },
            }
        }
    }

    /// Assignment to the field at `idx` of an object that was computed:
    /// takes the object and the value; the value replaces the field.
    pub open spec fn assign_context_field(self, idx: u32) -> Result<State, Fault> {
        if self.stack.len() < 2 {
            Err(Fault::InvalidBytecode)
        } else {
            match self.peek(1) {
                Value::Obj(Obj::Null) => Err(Fault::NullPointer),
                Value::Obj(Obj::Instance(h)) => match instance_at(self.cells, h) {
                    None => Err(Fault::InvalidBytecode),
                    Some(instance) => if has_key(instance.fields, idx) {
                        Ok(self.drop(2).set_object_field(h, idx, self.peek(0)))
                    } else {
                        Err(Fault::InvalidBytecode)
                    },
                },
                _ => Err(Fault::InvalidBytecode),
            }
        }
    }
}

impl Arena {
    /// The local at `idx` of the innermost call.
    pub fn local(&self, idx: PoolIndex) -> (r: Option<Value>)
        requires
            self.wf(),
        ensures
            r == (if self@.frames.len() == 0 {
                None
            } else {
                lookup(self@.frames.last(), idx.0)
            }),
    {
        match self.locals() {
            Some(locals) => match locals.get(idx) {
                Some(local) => Some(*local),
                None => None,
            },
            None => None,
        }
    }

    /// Assignment to the local at `idx`.
    pub fn assign_local(&mut self, idx: PoolIndex) -> (r: RuntimeResult<()>)
        requires
            old(self).wf(),
        ensures
            final(self).wf(),
            agrees(r, final(self)@, old(self)@.assign_local(idx.0)),
    {
        let local = match self.local(idx) {
            Some(local) => local,
            None => {
                return Err(RuntimeError::InvalidBytecode);
            },
        };
        if self.stack_len() < 1 {
            return Err(RuntimeError::InvalidBytecode);
        }
        let val = self.peek(0);
        match local {
            Value::Pinned(h) => {
                if self.pinned(h).is_none() {
                    return Err(RuntimeError::InvalidBytecode);
                }
                self.drop_operands(1);
                self.set_pinned(h, val);
            },
            _ => {
                self.drop_operands(1);
                self.set_local(idx, val);
            },
        }
        Ok(())
    }

    /// Whether the object at `h` has a field at `idx`.
    fn has_object_field(&self, h: Handle, idx: PoolIndex) -> (r: RuntimeResult<()>)
        requires
            self.wf(),
        ensures
            match r {
                Ok(_) => instance_at(self@.cells, h) matches Some(instance) && has_key(
                    instance.fields,
                    idx.0,
                ),
                Err(e) => e is InvalidBytecode && !(instance_at(self@.cells, h) matches Some(
                    instance,
                ) && has_key(instance.fields, idx.0)),
            },
    {
        match self.instance(h) {
            Some(instance) => if instance.fields.contains(idx) {
                Ok(())
            } else {
                Err(RuntimeError::InvalidBytecode)
            },
            None => Err(RuntimeError::InvalidBytecode),
        }
    }

    /// Assignment to the field at `idx` of the receiver.
    pub fn assign_object_field(&mut self, idx: PoolIndex) -> (r: RuntimeResult<()>)
        requires
            old(self).wf(),
        ensures
            final(self).wf(),
            agrees(r, final(self)@, old(self)@.assign_object_field(idx.0)),
    {
        let h = match self.context_instance() {
            Some(h) => h,
            None => {
                return Err(RuntimeError::NullPointer);
            },
        };
        self.has_object_field(h, idx)?;
        if self.stack_len() < 1 {
            return Err(RuntimeError::InvalidBytecode);
        }
        let val = self.peek(0);
        self.drop_operands(1);
        self.set_object_field(h, idx, val);
        Ok(())
    }

    fn put_struct_field(&mut self, h: Handle, idx: PoolIndex, val: Value)
        requires
            old(self).wf(),
        ensures
            final(self).wf(),
            final(self)@ == old(self)@.put_struct_field(h, idx.0, val),
    {
        match self.struct_mut(h) {
            Some(fields) => {
                if fields.contains(idx) {
                    fields.set(idx, val);
                } else {
                    fields.put(idx, val);
                }
            },
            None => {},
        }
    }

    /// Assignment to the field at `idx` of an aggregate.
    pub fn assign_struct_field(&mut self, idx: PoolIndex) -> (r: RuntimeResult<()>)
        requires
            old(self).wf(),
        ensures
            final(self).wf(),
            agrees(r, final(self)@, old(self)@.assign_struct_field(idx.0)),
    {
        if self.stack_len() < 2 {
            return Err(RuntimeError::InvalidBytecode);
        }
        let val = self.peek(0);
        match self.unpinned(self.peek(1)) {
            Value::BoxedStruct(h) => {
                if self.boxed_struct(h).is_none() {
                    return Err(RuntimeError::InvalidBytecode);
                }
                self.drop_operands(2);
                self.put_struct_field(h, idx, val);
                Ok(())
            },
            Value::PackedStruct(_) => Err(RuntimeError::Todo),
            _ => Err(RuntimeError::InvalidBytecode),
        }
    }

    /// Assignment to an item of an array.
    pub fn assign_array_element(&mut self) -> (r: RuntimeResult<()>)
        requires
            old(self).wf(),
        ensures
            final(self).wf(),
            agrees(r, final(self)@, old(self)@.assign_array_element()),
    {
        if self.stack_len() < 3 {
            return Err(RuntimeError::InvalidBytecode);
        }
        let val = self.peek(0);
        let at: u64 = match self.peek(1) {
            Value::I32(i) => i as u64,
            Value::U64(u) => u,
            _ => {
                return Err(RuntimeError::InvalidBytecode);
            },
        };
        let h = match self.array_operand(self.peek(2)) {
            Some(h) => h,
            None => {
                return Err(RuntimeError::InvalidBytecode);
            },
        };
        let inside = match self.array(h) {
            Some(items) => at < items.len() as u64,
            None => false,
        };
        if !inside {
            return Err(RuntimeError::OutOfBounds);
        }
        self.drop_operands(3);
        match self.array_mut(h) {
            Some(items) => {
                items[at as usize] = val;
            },
            None => {},
        }
        Ok(())
    }

    /// Assignment to the field at `idx` of an object that was computed.
    pub fn assign_context_field(&mut self, idx: PoolIndex) -> (r: RuntimeResult<()>)
        requires
            old(self).wf(),
        ensures
            final(self).wf(),
            agrees(r, final(self)@, old(self)@.assign_context_field(idx.0)),
    {
        if self.stack_len() < 2 {
            return Err(RuntimeError::InvalidBytecode);
        }
        let val = self.peek(0);
        match self.peek(1) {
            Value::Obj(Obj::Null) => Err(RuntimeError::NullPointer),
            Value::Obj(Obj::Instance(h)) => {
                self.has_object_field(h, idx)?;
                self.drop_operands(2);
                self.set_object_field(h, idx, val);
                Ok(())
            },
            _ => Err(RuntimeError::InvalidBytecode),
        }
    }
}

} // verus!
