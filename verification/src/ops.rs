//! What the instructions do to the arena once their operands lie on the
//! operand stack: reading locals and fields, comparing, entering and
//! leaving a receiver.
use vstd::prelude::*;
use crate::arena::Arena;
use crate::array::agrees;
use crate::error::{Fault, RuntimeError, RuntimeResult};
use crate::index_map::{lookup, replaced};
use crate::pool::PoolIndex;
use crate::state::{equals, instance_at, struct_at, unpinned, CellView, State};
use crate::value::{InstanceView, Obj, VMIndex, Value};

verus! {

impl State {
    /// `v` made a reference cell where `pin` asks for it.
    pub open spec fn pin_if(self, v: Value, pin: bool) -> (State, Value) {
        if pin {
            self.pin(v)
        } else {
            (self, v)
        }
    }

    /// `Local` and `Param`: pushes the local at `idx` of the innermost call.
    /// Where `pin` is set the local becomes a reference cell first.
    pub open spec fn load_local(self, idx: u32, pin: bool) -> Result<State, Fault> {
        if self.frames.len() == 0 {
            Err(Fault::InvalidBytecode)
        } else {
            match lookup(self.frames.last(), idx) {
                None => Err(Fault::InvalidBytecode),
                Some(local) => {
                    let (pinned, kept) = self.pin_if(local, pin);
                    let written = if pin {
                        pinned.set_local(idx, kept)
                    } else {
                        pinned
                    };
                    Ok(written.copied(kept).0.push(written.copied(kept).1))
                },
            }
        }
    }

    /// `ObjectField`: pushes the field at `idx` of the receiver. Where `pin`
    /// is set the field becomes a reference cell first.
    pub open spec fn load_object_field(self, idx: u32, pin: bool) -> Result<State, Fault> {
        match self.context_instance() {
            None => Err(Fault::NullPointer),
            Some(h) => match instance_at(self.cells, h) {
                None => Err(Fault::InvalidBytecode),
                Some(instance) => match lookup(instance.fields, idx) {
                    None => Err(Fault::InvalidBytecode),
                    Some(field) => {
                        let (pinned, kept) = self.pin_if(field, pin);
                        let written = if pin {
                            pinned.set_object_field(h, idx, kept)
                        } else {
                            pinned
                        };
                        Ok(written.copied(kept).0.push(written.copied(kept).1))
                    },
                },
            },
        }
    }

    /// `StructField`: replaces the aggregate on top of the stack by its
    /// field at `idx`. Where `pin` is set the field becomes a reference cell
    /// first.
    pub open spec fn load_struct_field(self, idx: u32, pin: bool) -> Result<State, Fault> {
        if self.stack.len() < 1 {
            Err(Fault::InvalidBytecode)
        } else {
            match unpinned(self.cells, self.peek(0)) {
                Value::BoxedStruct(h) => match struct_at(self.cells, h) {
                    None => Err(Fault::InvalidBytecode),
                    Some(fields) => match lookup(fields, idx) {
                        None => Err(Fault::InvalidBytecode),
                        Some(field) => {
                            let (pinned, kept) = self.drop(1).pin_if(field, pin);
                            let written = if pin {
                                pinned.set_struct_field(h, idx, kept)
                            } else {
                                pinned
                            };
                            Ok(written.copied(kept).0.push(written.copied(kept).1))
                        },
                    },
                },
                Value::PackedStruct(_) => Err(Fault::Todo),
                _ => Err(Fault::InvalidBytecode),
            }
        }
    }

    /// The state without its topmost operand, and the boolean that the
    /// operand stands for.
    pub open spec fn take_bool(self) -> Result<(State, bool), Fault> {
        if self.stack.len() < 1 {
            Err(Fault::InvalidBytecode)
        } else {
            match unpinned(self.cells, self.peek(0)) {
                Value::Bool(b) => Ok((self.drop(1), b)),
                _ => Err(Fault::InvalidBytecode),
            }
        }
    }

    /// `Equals` and `NotEquals`: replaces the two topmost operands by
    /// whether they are equal, or, where `negate` is set, by whether they
    /// are not.
    pub open spec fn compare(self, negate: bool) -> Result<State, Fault> {
        if self.stack.len() < 2 {
            Err(Fault::InvalidBytecode)
        } else {
            Ok(
                self.drop(2).push(
                    Value::Bool(equals(self.cells, self.peek(1), self.peek(0)) != negate),
                ),
            )
        }
    }

    /// `This`: pushes the receiver.
    pub open spec fn push_this(self) -> Result<State, Fault> {
        match self.context() {
            Some(obj) => Ok(self.push(Value::Obj(obj))),
            None => Err(Fault::InvalidBytecode),
        }
    }

    /// `Context`, first half: takes the topmost operand, which is an object
    /// or a null reference, and makes it the receiver.
    pub open spec fn enter_context(self) -> Result<State, Fault> {
        if self.stack.len() < 1 {
            Err(Fault::InvalidBytecode)
        } else {
            match unpinned(self.cells, self.peek(0)) {
                Value::Obj(obj) => Ok(
                    State { contexts: self.contexts.push(obj), ..self.drop(1) },
                ),
                _ => Err(Fault::InvalidBytecode),
            }
        }
    }

    /// `Context`, second half: the receiver before the last one is the
    /// receiver again.
    pub open spec fn leave_context(self) -> State {
        if self.contexts.len() > 0 {
            State { contexts: self.contexts.drop_last(), ..self }
        } else {
            self
        }
    }

    /// The class of the receiver.
    pub open spec fn context_tag(self) -> Result<VMIndex, Fault> {
        match self.context_instance() {
            None => Err(Fault::NullPointer),
            Some(h) => match instance_at(self.cells, h) {
                None => Err(Fault::InvalidBytecode),
                Some(instance) => Ok(instance.tag),
            },
        }
    }
}

impl State {
    /// The state with `val` in place of the local at `idx`, where there is
    /// such a local.
    pub open spec fn set_local(self, idx: u32, val: Value) -> State {
        if self.frames.len() > 0 {
            self.with_locals(replaced(self.frames.last(), idx, val))
        } else {
            self
        }
    }

    /// The state with `val` in place of the field at `idx` of the object at
    /// `h`, where there is such an object.
    pub open spec fn set_object_field(self, h: crate::value::Handle, idx: u32, val: Value) -> State {
        match instance_at(self.cells, h) {
            Some(instance) => self.with_cell(
                h,
                CellView::Instance(
                    InstanceView { fields: replaced(instance.fields, idx, val), ..instance },
                ),
            ),
            None => self,
        }
    }

    /// The state with `val` in place of the field at `idx` of the aggregate
    /// at `h`, where there is such an aggregate.
    pub open spec fn set_struct_field(self, h: crate::value::Handle, idx: u32, val: Value) -> State {
        match struct_at(self.cells, h) {
            Some(fields) => self.with_cell(h, CellView::Struct(replaced(fields, idx, val))),
            None => self,
        }
    }
}

impl Arena {
    pub fn set_local(&mut self, idx: PoolIndex, val: Value)
        requires
            old(self).wf(),
        ensures
            final(self).wf(),
            final(self)@ == old(self)@.set_local(idx.0, val),
    {
        match self.locals_mut() {
            Some(locals) => {
                locals.set(idx, val);
            },
            None => {},
        }
    }

    pub fn set_object_field(&mut self, h: crate::value::Handle, idx: PoolIndex, val: Value)
        requires
            old(self).wf(),
        ensures
            final(self).wf(),
            final(self)@ == old(self)@.set_object_field(h, idx.0, val),
    {
        match self.instance_fields_mut(h) {
            Some(fields) => {
                fields.set(idx, val);
            },
            None => {},
        }
    }

    pub fn set_struct_field(&mut self, h: crate::value::Handle, idx: PoolIndex, val: Value)
        requires
            old(self).wf(),
        ensures
            final(self).wf(),
            final(self)@ == old(self)@.set_struct_field(h, idx.0, val),
    {
        match self.struct_mut(h) {
            Some(fields) => {
                fields.set(idx, val);
            },
            None => {},
        }
    }

    /// The value at `v` made a reference cell where `pin` asks for it.
    fn pin_if(&mut self, v: Value, pin: bool) -> (r: Value)
        requires
            old(self).wf(),
        ensures
            final(self).wf(),
            (final(self)@, r) == old(self)@.pin_if(v, pin),
    {
        let mut kept = v;
        if pin {
            kept.pin(self);
        }
        kept
    }

    /// Pushes `kept` as it goes onto the stack after a read.
    fn push_copied(&mut self, kept: Value)
        requires
            old(self).wf(),
        ensures
            final(self).wf(),
            final(self)@ == old(self)@.copied(kept).0.push(old(self)@.copied(kept).1),
    {
        let copy = kept.copied(self);
        self.push(copy);
    }

    /// `Local` and `Param`.
    pub fn load_local(&mut self, idx: PoolIndex, pin: bool) -> (r: RuntimeResult<()>)
        requires
            old(self).wf(),
        ensures
            final(self).wf(),
            agrees(r, final(self)@, old(self)@.load_local(idx.0, pin)),
            r is Err ==> final(self)@ == old(self)@,
    {
        let local = match self.locals() {
            Some(locals) => match locals.get(idx) {
                Some(local) => *local,
                None => {
                    return Err(RuntimeError::InvalidBytecode);
                },
            },
            None => {
                return Err(RuntimeError::InvalidBytecode);
            },
        };
        let kept = self.pin_if(local, pin);
        if pin {
            self.set_local(idx, kept);
        }
        self.push_copied(kept);
        Ok(())
    }

    /// The object that is the receiver of the innermost call.
    pub fn context_instance(&self) -> (r: Option<crate::value::Handle>)
        ensures
            r == self@.context_instance(),
    {
        match self.context() {
            Some(Obj::Instance(h)) => Some(h),
            _ => None,
        }
    }

    /// The field at `idx` of the object at `h`.
    pub fn object_field(&self, h: crate::value::Handle, idx: PoolIndex) -> (r: RuntimeResult<Value>)
        requires
            self.wf(),
        ensures
            match r {
                Ok(field) => instance_at(self@.cells, h) matches Some(instance) && lookup(
                    instance.fields,
                    idx.0,
                ) == Some(field),
                Err(e) => e is InvalidBytecode && !(instance_at(self@.cells, h) matches Some(
                    instance,
                ) && lookup(instance.fields, idx.0) is Some),
            },
    {
        match self.instance(h) {
            Some(instance) => match instance.fields.get(idx) {
                Some(field) => Ok(*field),
                None => Err(RuntimeError::InvalidBytecode),
            },
            None => Err(RuntimeError::InvalidBytecode),
        }
    }

    /// `ObjectField`.
    pub fn load_object_field(&mut self, idx: PoolIndex, pin: bool) -> (r: RuntimeResult<()>)
        requires
            old(self).wf(),
        ensures
            final(self).wf(),
            agrees(r, final(self)@, old(self)@.load_object_field(idx.0, pin)),
            r is Err ==> final(self)@ == old(self)@,
    {
        let h = match self.context_instance() {
            Some(h) => h,
            None => {
                return Err(RuntimeError::NullPointer);
            },
        };
        let field = self.object_field(h, idx)?;
        let kept = self.pin_if(field, pin);
        if pin {
            self.set_object_field(h, idx, kept);
        }
        self.push_copied(kept);
        Ok(())
    }

    /// `StructField`.
    pub fn load_struct_field(&mut self, idx: PoolIndex, pin: bool) -> (r: RuntimeResult<()>)
        requires
            old(self).wf(),
        ensures
            final(self).wf(),
            agrees(r, final(self)@, old(self)@.load_struct_field(idx.0, pin)),
    {
        if self.stack_len() < 1 {
            return Err(RuntimeError::InvalidBytecode);
        }
        let h = match self.unpinned(self.peek(0)) {
            Value::BoxedStruct(h) => h,
            Value::PackedStruct(_) => {
                return Err(RuntimeError::Todo);
            },
            _ => {
                return Err(RuntimeError::InvalidBytecode);
            },
        };
        let field = match self.boxed_struct(h) {
            Some(fields) => match fields.get(idx) {
                Some(field) => *field,
                None => {
                    return Err(RuntimeError::InvalidBytecode);
                },
            },
            None => {
                return Err(RuntimeError::InvalidBytecode);
            },
        };
        self.drop_operands(1);
        let kept = self.pin_if(field, pin);
        if pin {
            self.set_struct_field(h, idx, kept);
        }
        self.push_copied(kept);
        Ok(())
    }

    /// Takes the topmost operand, which stands for a boolean.
    pub fn take_bool(&mut self) -> (r: RuntimeResult<bool>)
        requires
            old(self).wf(),
        ensures
            final(self).wf(),
            match r {
                Ok(b) => old(self)@.take_bool() == Ok::<(State, bool), Fault>((final(self)@, b)),
                Err(e) => old(self)@.take_bool() == Err::<(State, bool), Fault>(e@),
            },
    {
        if self.stack_len() < 1 {
            return Err(RuntimeError::InvalidBytecode);
        }
        match self.unpinned(self.peek(0)) {
            Value::Bool(b) => {
                self.drop_operands(1);
                Ok(b)
            },
            _ => Err(RuntimeError::InvalidBytecode),
        }
    }

    /// `Equals` and `NotEquals`.
    pub fn compare(&mut self, negate: bool) -> (r: RuntimeResult<()>)
        requires
            old(self).wf(),
        ensures
            final(self).wf(),
            agrees(r, final(self)@, old(self)@.compare(negate)),
    {
        if self.stack_len() < 2 {
            return Err(RuntimeError::InvalidBytecode);
        }
        let equal = self.equals(self.peek(1), self.peek(0));
        self.drop_operands(2);
        self.push(Value::Bool(equal != negate));
        Ok(())
    }

    /// `This`.
    pub fn push_this(&mut self) -> (r: RuntimeResult<()>)
        requires
            old(self).wf(),
        ensures
            final(self).wf(),
            agrees(r, final(self)@, old(self)@.push_this()),
            r is Err ==> final(self)@ == old(self)@,
    {
        match self.context() {
            Some(obj) => {
                self.push(Value::Obj(obj));
                Ok(())
            },
            None => Err(RuntimeError::InvalidBytecode),
        }
    }

    /// `Context`, first half.
    pub fn enter_context(&mut self) -> (r: RuntimeResult<()>)
        requires
            old(self).wf(),
        ensures
            final(self).wf(),
            agrees(r, final(self)@, old(self)@.enter_context()),
    {
        if self.stack_len() < 1 {
            return Err(RuntimeError::InvalidBytecode);
        }
        match self.unpinned(self.peek(0)) {
            Value::Obj(obj) => {
                self.drop_operands(1);
                self.root.contexts.push(obj);
                Ok(())
            },
            _ => Err(RuntimeError::InvalidBytecode),
        }
    }

    /// `Context`, second half.
    pub fn leave_context(&mut self)
        requires
            old(self).wf(),
        ensures
            final(self).wf(),
            final(self)@ == old(self)@.leave_context(),
    {
        self.root.contexts.pop();
    }

    /// The class of the receiver.
    pub fn context_tag(&self) -> (r: RuntimeResult<VMIndex>)
        requires
            self.wf(),
        ensures
            match r {
                Ok(tag) => self@.context_tag() == Ok::<VMIndex, Fault>(tag),
                Err(e) => self@.context_tag() == Err::<VMIndex, Fault>(e@),
            },
    {
        match self.context() {
            Some(Obj::Instance(h)) => match self.instance(h) {
                Some(instance) => Ok(instance.tag),
                None => Err(RuntimeError::InvalidBytecode),
            },
            _ => Err(RuntimeError::NullPointer),
        }
    }
}

} // verus!
