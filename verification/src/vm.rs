//! The machine: it runs the code of a pool's functions on an arena.
use vstd::prelude::*;
use crate::arena::Arena;
use crate::array::agrees;
use crate::convert::{agrees_where_known, new_object};
use crate::error::{Fault, RuntimeError, RuntimeResult};
use crate::frame::Frame;
use crate::index_map::{has_key, lookup};
use crate::metadata::Metadata;
use crate::pool::{Instr, Location, Offset, PoolIndex};
use crate::render::FloatFormat;
use crate::semantics::{
    apply, apply_array, apply_constant, operand_count, operands, plain, reads_only, target_from,
    Action, Env, Outcome,
    DEBT_LIMIT, TEXT_DEPTH,
};
use crate::state::{same_scopes, State};
use crate::value::{Obj, StringType, VMIndex, Value};

verus! {

impl<'pool> Metadata<'pool> {
    /// What running code can see of what is kept.
    pub open spec fn env(&self) -> Env {
        Env {
            pool: *self.pool,
            types: self.types@,
            classes: Set::new(|k: u32| has_key(self.class_meta@, k)),
            functions: Set::new(|k: u32| has_key(self.function_meta@, k)),
            natives: Map::new(
                |k: u32| self.native_of(PoolIndex(k)) is Some,
                |k: u32| self.native_of(PoolIndex(k))->Some_0,
            ),
        }
    }
}

/// What running code can see is the same where the pool, the types, the
/// functions with what is registered for them, and the classes that
/// something is kept for are the same.
pub proof fn lemma_env_kept(before: &Metadata, after: &Metadata)
    requires
        after.pool == before.pool,
        after.types == before.types,
        after.natives() == before.natives(),
        forall|k: u32| has_key(after.class_meta@, k) == has_key(before.class_meta@, k),
    ensures
        after.env() == before.env(),
{
    assert(after.function_meta@.len() == before.function_meta@.len()) by {
        assert(after.natives().len() == after.function_meta@.len());
        assert(before.natives().len() == before.function_meta@.len());
    }
    assert forall|i: int| 0 <= i < after.function_meta@.len() implies after.function_meta@[i].0
        == before.function_meta@[i].0 && after.function_meta@[i].1.native
        == before.function_meta@[i].1.native by {
        assert(after.natives()[i] == (
            after.function_meta@[i].0,
            after.function_meta@[i].1.native,
        ));
        assert(before.natives()[i] == (
            before.function_meta@[i].0,
            before.function_meta@[i].1.native,
        ));
    }
    assert forall|k: u32| has_key(after.function_meta@, k) == has_key(
        before.function_meta@,
        k,
    ) by {
        if has_key(after.function_meta@, k) {
            let i = choose|i: int|
                0 <= i < after.function_meta@.len() && (#[trigger] after.function_meta@[i]).0 == k;
            assert(before.function_meta@[i].0 == k);
        }
        if has_key(before.function_meta@, k) {
            let i = choose|i: int|
                0 <= i < before.function_meta@.len() && (#[trigger] before.function_meta@[i]).0
                    == k;
            assert(after.function_meta@[i].0 == k);
        }
    }
    assert forall|k: u32| after.native_of(PoolIndex(k)) == before.native_of(PoolIndex(k)) by {
        lemma_native_of(before, after, k);
    }
    assert(after.env().classes =~= before.env().classes);
    assert(after.env().functions =~= before.env().functions);
    assert(after.env().natives =~= before.env().natives);
}

proof fn lemma_native_of(before: &Metadata, after: &Metadata, k: u32)
    requires
        after.function_meta@.len() == before.function_meta@.len(),
        forall|i: int|
            0 <= i < after.function_meta@.len() ==> after.function_meta@[i].0
                == before.function_meta@[i].0 && after.function_meta@[i].1.native
                == before.function_meta@[i].1.native,
    ensures
        after.native_of(PoolIndex(k)) == before.native_of(PoolIndex(k)),
{
    let a = after.function_meta@;
    let b = before.function_meta@;
    if has_key(a, k) {
        let i = choose|i: int| 0 <= i < a.len() && (#[trigger] a[i]).0 == k;
        assert(b[i].0 == k);
    }
    if has_key(b, k) {
        let i = choose|i: int| 0 <= i < b.len() && (#[trigger] b[i]).0 == k;
        assert(a[i].0 == k);
        let pa = crate::index_map::position_of(a, k);
        let pb = crate::index_map::position_of(b, k);
        assert forall|j: int| 0 <= j < a.len() implies ((#[trigger] a[j]).0 == k) == (b[j].0
            == k) by {}
        lemma_first_match(a, b, k);
        assert(a[pa].1.native == b[pb].1.native);
    }
}

/// Two lists with the same keys at the same places name the same first
/// place for a key.
proof fn lemma_first_match<V, W>(a: Seq<(u32, V)>, b: Seq<(u32, W)>, k: u32)
    requires
        a.len() == b.len(),
        forall|j: int| 0 <= j < a.len() ==> a[j].0 == b[j].0,
        has_key(a, k),
    ensures
        has_key(b, k),
        crate::index_map::position_of(a, k) == crate::index_map::position_of(b, k),
        0 <= crate::index_map::position_of(a, k) < a.len(),
{
    let first = first_place(a, k, 0);
    lemma_first_place(a, k, 0);
    lemma_first_place(b, k, 0);
    let i = choose|i: int| 0 <= i < a.len() && (#[trigger] a[i]).0 == k;
    assert(b[i].0 == k);
    let pa = crate::index_map::position_of(a, k);
    let pb = crate::index_map::position_of(b, k);
    assert(0 <= first < a.len() && a[first].0 == k && forall|j: int|
        0 <= j < first ==> (#[trigger] a[j]).0 != k);
    assert(b[first].0 == k);
    assert forall|j: int| 0 <= j < first implies (#[trigger] b[j]).0 != k by {
        assert(a[j].0 != k);
    }
    if pa < first {
        assert(a[pa].0 != k);
    } else if first < pa {
        assert(a[first].0 != k);
    }
    if pb < first {
        assert(b[pb].0 != k);
    } else if first < pb {
        assert(b[first].0 != k);
    }
}

/// The first place at or after `from` that has the key `k`, or the length.
spec fn first_place<V>(a: Seq<(u32, V)>, k: u32, from: int) -> int
    decreases a.len() - from,
{
    if from < 0 || from >= a.len() {
        a.len() as int
    } else if a[from].0 == k {
        from
    } else {
        first_place(a, k, from + 1)
    }
}

proof fn lemma_first_place<V>(a: Seq<(u32, V)>, k: u32, from: int)
    requires
        0 <= from,
    ensures
        from <= first_place(a, k, from) || first_place(a, k, from) == a.len(),
        first_place(a, k, from) <= a.len(),
        first_place(a, k, from) < a.len() ==> a[first_place(a, k, from)].0 == k,
        forall|j: int| from <= j < first_place(a, k, from) ==> (#[trigger] a[j]).0 != k,
    decreases a.len() - from,
{
    if from < a.len() && a[from].0 != k {
        lemma_first_place(a, k, from + 1);
    }
}

/// The machine.
pub struct VM<'pool> {
    pub arena: Arena,
    pub metadata: Metadata<'pool>,
    /// The instructions that may still run.
    pub budget: u64,
    pub floats: Box<dyn FloatFormat>,
}

/// Whether a piece of code that ended with `r` and left the machine with
/// the arena `after`, the next instruction at `ip` and the budget `budget`
/// did what `o` describes, where `o` describes something.
pub open spec fn realized(o: Outcome, r: RuntimeResult<Action>, after: State, ip: int, budget: nat) -> bool {
    match o {
        Outcome::Unspecified => true,
        Outcome::Fails(fault) => r matches Err(e) && e@ == fault,
        Outcome::Done(step) => r == Ok::<Action, RuntimeError>(step.action) && after == step.state
            && ip == step.ip && budget == step.budget,
    }
}

/// As `realized`, for a piece of code that tells nothing when it has run.
pub open spec fn performed(o: Outcome, r: RuntimeResult<()>, after: State, ip: int, budget: nat) -> bool {
    match o {
        Outcome::Unspecified => true,
        Outcome::Fails(fault) => r matches Err(e) && e@ == fault,
        Outcome::Done(step) => r is Ok && after == step.state && ip == step.ip && budget
            == step.budget,
    }
}

impl<'pool> VM<'pool> {
    pub open spec fn wf(&self) -> bool {
        self.arena.wf() && self.metadata.wf()
    }

    /// What running code can see besides the arena.
    pub open spec fn env(&self) -> Env {
        self.metadata.env()
    }

    /// Whether the machine `self` can have come from `before` by running
    /// code: it is well formed, sees the same pool, and its budget has not
    /// grown.
    pub open spec fn follows(&self, before: &VM<'pool>) -> bool {
        &&& self.wf()
        &&& self.env() == before.env()
        &&& self.metadata.pool == before.metadata.pool
        &&& self.budget <= before.budget
    }

    pub fn metadata(&self) -> (r: &Metadata<'pool>)
        ensures
            r == &self.metadata,
    {
        &self.metadata
    }

    pub fn metadata_mut(&mut self) -> (r: &mut Metadata<'pool>)
        ensures
            *r == old(self).metadata,
            final(self).metadata == *final(r),
            final(self).arena == old(self).arena,
            final(self).budget == old(self).budget,
            final(self).floats == old(self).floats,
    {
        &mut self.metadata
    }

    /// Pays the allocation debt with a collection step where one is due.
    pub fn check_gc(&mut self)
        requires
            old(self).wf(),
        ensures
            final(self).follows(old(self)),
            final(self).budget == old(self).budget,
            final(self).arena@ == old(self).arena@.settled(),
    {
        if self.arena.debt > DEBT_LIMIT {
            self.arena.collect_debt();
        }
    }
}

/// Whether the frame `after` is the frame `before` at another place.
pub open spec fn same_frame(after: &Frame, before: &Frame) -> bool {
    &&& after.wf()
    &&& after.function == before.function
    &&& after.offsets == before.offsets
    &&& after.sp == before.sp
}

/// Goes to the instruction that lies `offset` bytes from `location`.
pub fn jump(frame: &mut Frame, location: Option<Location>, offset: Offset) -> (r: RuntimeResult<()>)
    requires
        old(frame).wf(),
    ensures
        same_frame(final(frame), old(frame)),
        match location {
            Some(from) => match target_from(old(frame).code(), from, offset) {
                Some(to) => r is Ok && final(frame).ip == to,
                None => r matches Err(e) && e is InvalidBytecode,
            },
            None => r matches Err(e) && e is InvalidBytecode,
        },
{
    let from = match location {
        Some(from) => from,
        None => {
            return Err(RuntimeError::InvalidBytecode);
        },
    };
    match offset.absolute(from) {
        Some(to) => if frame.seek(to) {
            Ok(())
        } else {
            Err(RuntimeError::InvalidBytecode)
        },
        None => Err(RuntimeError::InvalidBytecode),
    }
}

impl<'pool> VM<'pool> {
    fn push(&mut self, val: Value) -> (r: RuntimeResult<()>)
        requires
            old(self).wf(),
        ensures
            final(self).follows(old(self)),
            final(self).budget == old(self).budget,
            r is Ok,
            final(self).arena@ == old(self).arena@.push(val),
    {
        self.arena.push(val);
        Ok(())
    }

    /// What an instruction that pushes a constant does.
    fn apply_constant(&mut self, instr: Instr) -> (r: RuntimeResult<()>)
        requires
            old(self).wf(),
        ensures
            final(self).follows(old(self)),
            r is Ok ==> same_scopes(final(self).arena@, old(self).arena@),
            final(self).budget == old(self).budget,
            agrees_where_known(
                r,
                final(self).arena@,
                apply_constant(old(self).env(), instr, old(self).arena@),
            ),
            r is Err ==> final(self).arena@ == old(self).arena@,
    {
        match instr {
            Instr::Nop
            | Instr::SwitchLabel(_, _)
            | Instr::SwitchDefault
            | Instr::ParamEnd
            | Instr::WeakRefToRef
            | Instr::RefToWeakRef
            | Instr::ToVariant(_) => Ok(()),
            Instr::Null | Instr::WeakRefNull => self.push(Value::Obj(Obj::Null)),
            Instr::I32One => self.push(Value::I32(1)),
            Instr::I32Zero => self.push(Value::I32(0)),
            Instr::I8Const(v) => self.push(Value::I8(v)),
            Instr::I16Const(v) => self.push(Value::I16(v)),
            Instr::I32Const(v) => self.push(Value::I32(v)),
            Instr::I64Const(v) => self.push(Value::I64(v)),
            Instr::U8Const(v) => self.push(Value::U8(v)),
            Instr::U16Const(v) => self.push(Value::U16(v)),
            Instr::U32Const(v) => self.push(Value::U32(v)),
            Instr::U64Const(v) => self.push(Value::U64(v)),
            Instr::F32Const(v) => self.push(Value::F32(v)),
            Instr::F64Const(v) => self.push(Value::F64(v)),
            Instr::NameConst(idx) => self.push(Value::InternStr(StringType::Name, VMIndex(idx.0))),
            Instr::StringConst(idx) => self.push(Value::InternStr(StringType::String, VMIndex(idx.0))),
            Instr::TweakDbIdConst(idx) => self.push(Value::InternStr(StringType::TweakDbId, VMIndex(idx.0))),
            Instr::ResourceConst(idx) => self.push(Value::InternStr(StringType::Resource, VMIndex(idx.0))),
            Instr::TrueConst => self.push(Value::Bool(true)),
            Instr::FalseConst => self.push(Value::Bool(false)),
            Instr::EnumConst(_, member) => match self.metadata.pool().enum_value(member) {
                Some(v) => self.push(Value::EnumVal(v)),
                None => Err(RuntimeError::InvalidBytecode),
            },
            _ => Err(RuntimeError::Todo),
        }
    }

    /// What an array instruction does once its operands lie on the stack.
    fn apply_array(&mut self, instr: Instr) -> (r: RuntimeResult<()>)
        requires
            old(self).wf(),
        ensures
            final(self).follows(old(self)),
            r is Ok ==> same_scopes(final(self).arena@, old(self).arena@),
            final(self).budget == old(self).budget,
            agrees_where_known(
                r,
                final(self).arena@,
                apply_array(old(self).env(), instr, old(self).arena@),
            ),
            operand_count(instr) == 0 && r is Err ==> final(self).arena@ == old(self).arena@,
    {
        match instr {
            Instr::ArrayClear(_) => self.arena.array_clear(),
            Instr::ArraySize(_) => self.arena.array_size(),
            Instr::ArrayResize(_) | Instr::ArrayGrow(_) => self.arena.array_resize(),
            Instr::ArrayFindFirst(_) | Instr::ArrayFindFirstFast(_) => self.arena.array_find_first(),
            Instr::ArrayFindLast(_) | Instr::ArrayFindLastFast(_) => self.arena.array_find_last(),
            Instr::ArrayContains(_) | Instr::ArrayContainsFast(_) => self.arena.array_contains(),
            Instr::ArrayCount(_) | Instr::ArrayCountFast(_) => self.arena.array_count(),
            Instr::ArrayPush(_) => self.arena.array_push(),
            Instr::ArrayPop(_) => self.arena.array_pop(),
            Instr::ArrayInsert(_) => self.arena.array_insert(),
            Instr::ArrayRemove(_) | Instr::ArrayRemoveFast(_) => self.arena.array_remove(),
            Instr::ArrayErase(_) | Instr::ArrayEraseFast(_) => self.arena.array_erase(),
            Instr::ArrayLast(_) => self.arena.array_last(),
            Instr::ArrayElement(_) => self.arena.array_element(),
            _ => self.apply_constant(instr),
        }
    }

    fn new_object(&mut self, class: PoolIndex) -> (r: RuntimeResult<()>)
        requires
            old(self).wf(),
        ensures
            final(self).follows(old(self)),
            r is Ok ==> same_scopes(final(self).arena@, old(self).arena@),
            final(self).budget == old(self).budget,
            agrees(
                r,
                final(self).arena@,
                old(self).arena@.new_object(
                    old(self).env().types,
                    &old(self).env().pool,
                    class,
                    old(self).env().classes.contains(class.0),
                ),
            ),
    {
        let r = new_object(&mut self.arena, &mut self.metadata, class);
        proof {
            lemma_env_kept(&old(self).metadata, &self.metadata);
        }
        r
    }

    fn from_variant(&mut self, typ: PoolIndex) -> (r: RuntimeResult<()>)
        requires
            old(self).wf(),
        ensures
            final(self).follows(old(self)),
            r is Ok ==> same_scopes(final(self).arena@, old(self).arena@),
            final(self).budget == old(self).budget,
            agrees(
                r,
                final(self).arena@,
                match lookup(old(self).env().types, typ.0) {
                    Some(t) => old(self).arena@.from_variant(t),
                    None => Err(Fault::InvalidBytecode),
                },
            ),
    {
        match self.metadata.get_type(typ) {
            Some(t) => self.arena.from_variant(t),
            None => Err(RuntimeError::InvalidBytecode),
        }
    }

    fn construct(&mut self, n: u8, class: PoolIndex) -> (r: RuntimeResult<()>)
        requires
            old(self).wf(),
        ensures
            final(self).follows(old(self)),
            r is Ok ==> same_scopes(final(self).arena@, old(self).arena@),
            final(self).budget == old(self).budget,
            agrees(
                r,
                final(self).arena@,
                match old(self).env().pool.spec_class(class) {
                    Some(c) => old(self).arena@.construct(n as int, c.fields@),
                    None => Err(Fault::InvalidBytecode),
                },
            ),
    {
        match self.metadata.pool().class(class) {
            Some(c) => self.arena.construct(n, &c.fields),
            None => Err(RuntimeError::InvalidBytecode),
        }
    }

    /// What a plain instruction does once its operands lie on the stack.
    pub fn apply(&mut self, instr: Instr, pin: bool) -> (r: RuntimeResult<()>)
        requires
            old(self).wf(),
        ensures
            final(self).follows(old(self)),
            r is Ok ==> same_scopes(final(self).arena@, old(self).arena@),
            final(self).budget == old(self).budget,
            agrees_where_known(
                r,
                final(self).arena@,
                apply(old(self).env(), instr, old(self).arena@, pin),
            ),
            reads_only(instr) && r is Err ==> final(self).arena@ == old(self).arena@,
    {
        match instr {
            Instr::Local(idx) | Instr::Param(idx) => self.arena.load_local(idx, pin),
            Instr::ObjectField(idx) => self.arena.load_object_field(idx, pin),
            Instr::StructField(idx) => self.arena.load_struct_field(idx, pin),
            Instr::Construct(n, class) => self.construct(n, class),
            Instr::Equals(_) => self.arena.compare(false),
            Instr::NotEquals(_) => self.arena.compare(true),
            Instr::New(class) => self.new_object(class),
            Instr::This => self.arena.push_this(),
            Instr::RefToBool | Instr::WeakRefToBool => self.arena.ref_to_bool(),
            Instr::EnumToI32(_, _) => self.arena.enum_to_i32(),
            Instr::I32ToEnum(_, _) => self.arena.i32_to_enum(),
            Instr::DynamicCast(expected, _) => self.arena.dynamic_cast(
                self.metadata.pool(),
                expected,
            ),
            Instr::ToString(_) | Instr::VariantToString => self.arena.stringify(
                self.metadata.pool(),
                &*self.floats,
                TEXT_DEPTH,
            ),
            Instr::FromVariant(typ) => self.from_variant(typ),
            Instr::VariantIsDefined => self.arena.variant_is_defined(),
            Instr::VariantIsRef => self.arena.variant_is_ref(),
            Instr::VariantIsArray => self.arena.variant_is_array(),
            Instr::AsRef(_) => self.arena.as_ref(),
            Instr::Deref(_) => self.arena.deref(),
            _ => self.apply_array(instr),
        }
    }
}

} // verus!
