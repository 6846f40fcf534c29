//! The values that locals and fields start with.
use vstd::prelude::*;
use crate::arena::{Arena, Cell};
use crate::error::{Fault, RuntimeError, RuntimeResult};
use crate::index_map::{has_key, lookup, stored, IndexMap};
use crate::metadata::{Metadata, TypeId};
use crate::pool::{Pool, PoolIndex};
use crate::state::{has_type, CellView, State};
use crate::value::{Instance, InstanceView, Obj, StringType, VMIndex, Value};
use crate::vtable::vtable_of;

verus! {

/// The state after a default value of the type `typ` was made, and that
/// value: zero, false, the string at position zero of its table, a null
/// reference, a new empty array, or a new aggregate whose fields have the
/// default values of their types. An aggregate inside an aggregate is made
/// before the one around it. `fuel` bounds how deep aggregates may lie in
/// each other.
pub open spec fn default_value(
    types: Seq<(u32, TypeId)>,
    pool: &Pool,
    s: State,
    typ: TypeId,
    fuel: nat,
) -> Result<(State, Value), Fault>
    decreases fuel, 0int,
{
    match typ {
        TypeId::I64 => Ok((s, Value::I64(0))),
        TypeId::I32 => Ok((s, Value::I32(0))),
        TypeId::I16 => Ok((s, Value::I16(0))),
        TypeId::I8 => Ok((s, Value::I8(0))),
        TypeId::U64 => Ok((s, Value::U64(0))),
        TypeId::U32 => Ok((s, Value::U32(0))),
        TypeId::U16 => Ok((s, Value::U16(0))),
        TypeId::U8 => Ok((s, Value::U8(0))),
        TypeId::F64 => Ok((s, Value::F64(0))),
        TypeId::F32 => Ok((s, Value::F32(0))),
        TypeId::Bool => Ok((s, Value::Bool(false))),
        TypeId::String => Ok((s, Value::InternStr(StringType::String, VMIndex(0)))),
        TypeId::CName => Ok((s, Value::InternStr(StringType::Name, VMIndex(0)))),
        TypeId::TweakDbId => Ok((s, Value::InternStr(StringType::TweakDbId, VMIndex(0)))),
        TypeId::ResRef => Ok((s, Value::InternStr(StringType::Resource, VMIndex(0)))),
        TypeId::Variant => Ok((s, Value::Obj(Obj::Null))),
        TypeId::NodeRef => Err(Fault::Todo),
        TypeId::CRUID => Err(Fault::Todo),
        TypeId::Ref(_) => Ok((s, Value::Obj(Obj::Null))),
        TypeId::WRef(_) => Ok((s, Value::Obj(Obj::Null))),
        TypeId::ScriptRef(_) => Err(Fault::Todo),
        TypeId::Enum(_) => Ok((s, Value::EnumVal(0))),
        TypeId::Struct(class_idx) => if fuel == 0 {
            Err(Fault::InvalidBytecode)
        } else {
            match pool.spec_class(class_idx) {
                None => Err(Fault::InvalidBytecode),
                Some(class) => match fill_defaults(
                    types,
                    pool,
                    s,
                    Seq::empty(),
                    class.fields@,
                    class.fields@.len() as int,
                    (fuel - 1) as nat,
                    false,
                ) {
                    Ok((filled, fields)) => Ok(
                        (
                            filled.allocate(CellView::Struct(fields)).0,
                            Value::BoxedStruct(filled.allocate(CellView::Struct(fields)).1),
                        ),
                    ),
                    Err(fault) => Err(fault),
                },
            }
        },
        TypeId::Array(_) => Ok(
            (
                s.allocate(CellView::Array(Seq::empty())).0,
                Value::Array(s.allocate(CellView::Array(Seq::empty())).1),
            ),
        ),
        TypeId::StaticArray(_, _) => Err(Fault::Todo),
    }
}

/// The state after the default values of the first `upto` of `fields` were
/// made in order, and `table` with each of them offered under the position
/// of its field.
pub open spec fn fill_defaults(
    types: Seq<(u32, TypeId)>,
    pool: &Pool,
    s: State,
    table: Seq<(u32, Value)>,
    fields: Seq<PoolIndex>,
    upto: int,
    fuel: nat,
    locals: bool,
) -> Result<(State, Seq<(u32, Value)>), Fault>
    decreases fuel, upto + 2,
{
    if upto <= 0 || upto > fields.len() {
        Ok((s, table))
    } else {
        match fill_defaults(types, pool, s, table, fields, upto - 1, fuel, locals) {
            Err(fault) => Err(fault),
            Ok((earlier, filled)) => match field_default(
                types,
                pool,
                earlier,
                fields[upto - 1],
                fuel,
                locals,
            ) {
                Err(fault) => Err(fault),
                Ok((after, value)) => Ok((after, stored(filled, fields[upto - 1].0, value))),
            },
        }
    }
}

/// The state after a default value for the field at `at` was made, and that
/// value.
pub open spec fn field_default(
    types: Seq<(u32, TypeId)>,
    pool: &Pool,
    s: State,
    at: PoolIndex,
    fuel: nat,
    locals: bool,
) -> Result<(State, Value), Fault>
    decreases fuel, 1int,
{
    match slot_type(pool, at, locals) {
        None => Err(Fault::InvalidBytecode),
        Some(type_) => match lookup(types, type_.0) {
            None => Err(Fault::InvalidBytecode),
            Some(typ) => default_value(types, pool, s, typ, fuel),
        },
    }
}

/// The type definition of the local at `at`, where `locals` is set, or of
/// the field at `at`.
pub open spec fn slot_type(pool: &Pool, at: PoolIndex, locals: bool) -> Option<PoolIndex> {
    if locals {
        match pool.spec_local(at) {
            Some(local) => Some(local.type_),
            None => None,
        }
    } else {
        match pool.spec_field(at) {
            Some(field) => Some(field.type_),
            None => None,
        }
    }
}


/// A default value is of its type, for every type that has default values.
pub proof fn lemma_default_has_type(
    types: Seq<(u32, TypeId)>,
    pool: &Pool,
    s: State,
    typ: TypeId,
    fuel: nat,
)
    requires
        default_value(types, pool, s, typ, fuel) is Ok,
    ensures
        has_type(
            default_value(types, pool, s, typ, fuel)->Ok_0.0.cells,
            default_value(types, pool, s, typ, fuel)->Ok_0.1,
            typ,
        ),
{
}

impl TypeId {
    /// Makes a default value of this type. `fuel` bounds how deep
    /// aggregates may lie in each other.
    pub fn default_value(&self, arena: &mut Arena, meta: &Metadata, fuel: usize) -> (r:
        RuntimeResult<Value>)
        requires
            old(arena).wf(),
            meta.wf(),
        ensures
            final(arena).wf(),
            final(arena)@.frames == old(arena)@.frames,
            final(arena)@.stack == old(arena)@.stack,
            final(arena)@.contexts == old(arena)@.contexts,
            match r {
                Ok(v) => default_value(meta.types@, meta.pool, old(arena)@, *self, fuel as nat)
                    == Ok::<(State, Value), Fault>((final(arena)@, v)),
                Err(e) => default_value(meta.types@, meta.pool, old(arena)@, *self, fuel as nat)
                    == Err::<(State, Value), Fault>(e@),
            },
        decreases fuel, 0int,
    {
        match self {
            TypeId::I64 => Ok(Value::I64(0)),
            TypeId::I32 => Ok(Value::I32(0)),
            TypeId::I16 => Ok(Value::I16(0)),
            TypeId::I8 => Ok(Value::I8(0)),
            TypeId::U64 => Ok(Value::U64(0)),
            TypeId::U32 => Ok(Value::U32(0)),
            TypeId::U16 => Ok(Value::U16(0)),
            TypeId::U8 => Ok(Value::U8(0)),
            TypeId::F64 => Ok(Value::F64(0)),
            TypeId::F32 => Ok(Value::F32(0)),
            TypeId::Bool => Ok(Value::Bool(false)),
            TypeId::String => Ok(Value::InternStr(StringType::String, VMIndex(0))),
            TypeId::CName => Ok(Value::InternStr(StringType::Name, VMIndex(0))),
            TypeId::TweakDbId => Ok(Value::InternStr(StringType::TweakDbId, VMIndex(0))),
            TypeId::ResRef => Ok(Value::InternStr(StringType::Resource, VMIndex(0))),
            TypeId::Variant => Ok(Value::Obj(Obj::Null)),
            TypeId::NodeRef => Err(RuntimeError::Todo),
            TypeId::CRUID => Err(RuntimeError::Todo),
            TypeId::Ref(_) => Ok(Value::Obj(Obj::Null)),
            TypeId::WRef(_) => Ok(Value::Obj(Obj::Null)),
            TypeId::ScriptRef(_) => Err(RuntimeError::Todo),
            TypeId::Enum(_) => Ok(Value::EnumVal(0)),
            TypeId::Struct(class_idx) => {
                if fuel == 0 {
                    return Err(RuntimeError::InvalidBytecode);
                }
                let class = match meta.pool().class(*class_idx) {
                    Some(class) => class,
                    None => {
                        return Err(RuntimeError::InvalidBytecode);
                    },
                };
                let mut fields: IndexMap<Value> = IndexMap::with_capacity(class.fields.len());
                assert(fields@ =~= Seq::empty());
                fill(&mut fields, &class.fields, arena, meta, fuel - 1, false)?;
                Ok(Value::BoxedStruct(arena.allocate(Cell::Struct(fields))))
            },
            TypeId::Array(_) => Ok(Value::Array(arena.allocate(Cell::Array(Vec::new())))),
            TypeId::StaticArray(_, _) => Err(RuntimeError::Todo),
        }
    }
}

/// Makes a default value for the field at `at`.
pub fn default_of_field(
    at: PoolIndex,
    arena: &mut Arena,
    meta: &Metadata,
    fuel: usize,
    locals: bool,
) -> (r:
    RuntimeResult<Value>)
    requires
        old(arena).wf(),
        meta.wf(),
    ensures
        final(arena).wf(),
        final(arena)@.frames == old(arena)@.frames,
        final(arena)@.stack == old(arena)@.stack,
        final(arena)@.contexts == old(arena)@.contexts,
        match r {
            Ok(v) => field_default(meta.types@, meta.pool, old(arena)@, at, fuel as nat, locals) == Ok::<
                (State, Value),
                Fault,
            >((final(arena)@, v)),
            Err(e) => field_default(meta.types@, meta.pool, old(arena)@, at, fuel as nat, locals)
                == Err::<(State, Value), Fault>(e@),
        },
    decreases fuel, 1int,
{
    let type_ = if locals {
        match meta.pool().local(at) {
            Some(local) => Some(local.type_),
            None => None,
        }
    } else {
        match meta.pool().field(at) {
            Some(field) => Some(field.type_),
            None => None,
        }
    };
    match type_ {
        None => Err(RuntimeError::InvalidBytecode),
        Some(type_) => match meta.get_type(type_) {
            None => Err(RuntimeError::InvalidBytecode),
            Some(typ) => typ.default_value(arena, meta, fuel),
        },
    }
}

/// Offers to `table` a default value for each of `fields`, in order.
pub fn fill(
    table: &mut IndexMap<Value>,
    fields: &Vec<PoolIndex>,
    arena: &mut Arena,
    meta: &Metadata,
    fuel: usize,
    locals: bool,
) -> (r: RuntimeResult<()>)
    requires
        old(table).wf(),
        old(arena).wf(),
        meta.wf(),
    ensures
        final(table).wf(),
        final(arena).wf(),
        final(arena)@.frames == old(arena)@.frames,
        final(arena)@.stack == old(arena)@.stack,
        final(arena)@.contexts == old(arena)@.contexts,
        match r {
            Ok(_) => fill_defaults(
                meta.types@,
                meta.pool,
                old(arena)@,
                old(table)@,
                fields@,
                fields@.len() as int,
                fuel as nat,
                locals,
            ) == Ok::<(State, Seq<(u32, Value)>), Fault>((final(arena)@, final(table)@)),
            Err(e) => fill_defaults(
                meta.types@,
                meta.pool,
                old(arena)@,
                old(table)@,
                fields@,
                fields@.len() as int,
                fuel as nat,
                locals,
            ) == Err::<(State, Seq<(u32, Value)>), Fault>(e@),
        },
    decreases fuel, 2int,
{
    let mut i: usize = 0;
    while i < fields.len()
        invariant
            i <= fields@.len(),
            table.wf(),
            arena.wf(),
            meta.wf(),
            arena@.frames == old(arena)@.frames,
            arena@.stack == old(arena)@.stack,
            arena@.contexts == old(arena)@.contexts,
            fill_defaults(
                meta.types@,
                meta.pool,
                old(arena)@,
                old(table)@,
                fields@,
                i as int,
                fuel as nat,
                locals,
            ) == Ok::<(State, Seq<(u32, Value)>), Fault>((arena@, table@)),
        decreases fields@.len() - i,
    {
        let at = fields[i];
        let ghost earlier = arena@;
        let ghost filled = table@;
        let outcome = default_of_field(at, arena, meta, fuel, locals);
        proof {
            assert(fill_defaults(
                meta.types@,
                meta.pool,
                old(arena)@,
                old(table)@,
                fields@,
                i + 1,
                fuel as nat,
                locals,
            ) == match field_default(meta.types@, meta.pool, earlier, at, fuel as nat, locals) {
                Err(fault) => Err::<(State, Seq<(u32, Value)>), Fault>(fault),
                Ok((after, value)) => Ok((after, stored(filled, at.0, value))),
            });
        }
        match outcome {
            Ok(value) => {
                table.put(at, value);
            },
            Err(e) => {
                proof {
                    lemma_fill_defaults_fail(
                        meta.types@,
                        meta.pool,
                        old(arena)@,
                        old(table)@,
                        fields@,
                        i + 1,
                        fuel as nat,
                        locals,
                    );
                }
                return Err(e);
            },
        }
        i += 1;
    }
    Ok(())
}

/// Once a default value fails for a prefix of the fields, filling fails for
/// all of them, in the same way.
pub proof fn lemma_fill_defaults_fail(
    types: Seq<(u32, TypeId)>,
    pool: &Pool,
    s: State,
    table: Seq<(u32, Value)>,
    fields: Seq<PoolIndex>,
    upto: int,
    fuel: nat,
    locals: bool,
)
    requires
        fill_defaults(types, pool, s, table, fields, upto, fuel, locals) is Err,
        0 <= upto <= fields.len(),
    ensures
        fill_defaults(types, pool, s, table, fields, fields.len() as int, fuel, locals)
            == fill_defaults(types, pool, s, table, fields, upto, fuel, locals),
    decreases fields.len() - upto,
{
    if upto < fields.len() {
        lemma_fill_defaults_fail(types, pool, s, table, fields, upto + 1, fuel, locals);
    }
}

/// The state after the default values of the fields of the class at
/// `current` and of its base classes were made, the class first, and
/// `table` with each of them offered under the position of its field. The
/// walk up the base classes takes at most `steps` steps.
pub open spec fn instance_fields(
    types: Seq<(u32, TypeId)>,
    pool: &Pool,
    s: State,
    table: Seq<(u32, Value)>,
    current: PoolIndex,
    steps: nat,
) -> Result<(State, Seq<(u32, Value)>), Fault>
    decreases steps,
{
    if current.spec_is_undefined() {
        Ok((s, table))
    } else if steps == 0 {
        Err(Fault::InvalidBytecode)
    } else {
        match pool.spec_class(current) {
            None => Err(Fault::InvalidBytecode),
            Some(class) => match fill_defaults(
                types,
                pool,
                s,
                table,
                class.fields@,
                class.fields@.len() as int,
                pool.definitions.len() as nat,
                false,
            ) {
                Err(fault) => Err(fault),
                Ok((after, filled)) => instance_fields(
                    types,
                    pool,
                    after,
                    filled,
                    class.base,
                    (steps - 1) as nat,
                ),
            },
        }
    }
}

/// The state after a new object of the class at `idx` was made, and the
/// object: its fields are those of the class and of its base classes, each
/// with the default value of its type. `known` tells whether something is
/// kept for the class, as it is for every class that is no struct.
pub open spec fn made_instance(
    types: Seq<(u32, TypeId)>,
    pool: &Pool,
    s: State,
    idx: PoolIndex,
    known: bool,
) -> Result<(State, InstanceView), Fault> {
    match instance_fields(types, pool, s, Seq::empty(), idx, pool.definitions.len() as nat) {
        Err(fault) => Err(fault),
        Ok((after, fields)) => if known && vtable_of(pool, idx) is Some {
            Ok(
                (
                    after,
                    InstanceView {
                        tag: VMIndex(idx.0),
                        fields,
                        vtable: vtable_of(pool, idx)->Some_0,
                    },
                ),
            )
        } else {
            Err(Fault::InvalidBytecode)
        },
    }
}

impl<'pool> Metadata<'pool> {
    /// The state after a new object of the class at `idx` was made, and the
    /// object.
    pub open spec fn new_instance(&self, s: State, idx: PoolIndex) -> Result<
        (State, InstanceView),
        Fault,
    > {
        made_instance(self.types@, self.pool, s, idx, has_key(self.class_meta@, idx.0))
    }
}

impl Instance {
    /// Makes an object of the class at `idx`.
    pub fn new(idx: PoolIndex, meta: &mut Metadata, arena: &mut Arena) -> (r: RuntimeResult<Instance>)
        requires
            old(meta).wf(),
            old(arena).wf(),
        ensures
            final(meta).wf(),
            final(meta).pool == old(meta).pool,
            final(meta).natives() == old(meta).natives(),
            final(meta).types == old(meta).types,
            final(meta).symbols == old(meta).symbols,
            final(meta).function_meta == old(meta).function_meta,
            forall|k: u32| has_key(final(meta).class_meta@, k) == has_key(old(meta).class_meta@, k),
            final(arena).wf(),
            final(arena)@.frames == old(arena)@.frames,
            final(arena)@.stack == old(arena)@.stack,
            final(arena)@.contexts == old(arena)@.contexts,
            match r {
                Ok(instance) => instance.fields.wf() && (*instance.vtable).wf() && old(
                    meta,
                ).new_instance(old(arena)@, idx) == Ok::<(State, InstanceView), Fault>(
                    (final(arena)@, instance@),
                ),
                Err(e) => old(meta).new_instance(old(arena)@, idx) == Err::<
                    (State, InstanceView),
                    Fault,
                >(e@),
            },
    {
        let pool = meta.pool();
        let mut current = idx;
        let mut fields: IndexMap<Value> = IndexMap::new();
        assert(fields@ =~= Seq::empty());
        let depth = pool.definition_count();
        let mut steps: usize = depth;
        let ghost whole = instance_fields(
            meta.types@,
            pool,
            old(arena)@,
            Seq::empty(),
            idx,
            pool.definitions.len() as nat,
        );
        while !current.is_undefined()
            invariant
                fields.wf(),
                arena.wf(),
                meta.wf(),
                *meta == *old(meta),
                pool == meta.pool,
                depth == pool.definitions.len(),
                arena@.frames == old(arena)@.frames,
                arena@.stack == old(arena)@.stack,
                arena@.contexts == old(arena)@.contexts,
                whole == instance_fields(
                    old(meta).types@,
                    old(meta).pool,
                    old(arena)@,
                    Seq::empty(),
                    idx,
                    old(meta).pool.definitions.len() as nat,
                ),
                whole == instance_fields(
                    meta.types@,
                    pool,
                    arena@,
                    fields@,
                    current,
                    steps as nat,
                ),
            decreases steps,
        {
            if steps == 0 {
                return Err(RuntimeError::InvalidBytecode);
            }
            let class = match pool.class(current) {
                Some(class) => class,
                None => {
                    return Err(RuntimeError::InvalidBytecode);
                },
            };
            fill(&mut fields, &class.fields, arena, meta, depth, false)?;
            current = class.base;
            steps -= 1;
        }
        match meta.get_vtable(idx) {
            Some(vtable) => Ok(Instance { tag: VMIndex(idx.0), fields, vtable }),
            None => Err(RuntimeError::InvalidBytecode),
        }
    }
}

/// Whether two states have the same stacks: they differ in their cells and
/// their debt at most.
pub open spec fn same_stacks(after: State, before: State) -> bool {
    after.stack == before.stack && after.frames == before.frames && after.contexts
        == before.contexts
}

/// Making a default value leaves the stacks as they are.
pub proof fn lemma_default_keeps_stacks(
    types: Seq<(u32, TypeId)>,
    pool: &Pool,
    s: State,
    typ: TypeId,
    fuel: nat,
)
    requires
        default_value(types, pool, s, typ, fuel) is Ok,
    ensures
        same_stacks(default_value(types, pool, s, typ, fuel)->Ok_0.0, s),
    decreases fuel, 0int,
{
    match typ {
        TypeId::Struct(class_idx) => {
            let class = pool.spec_class(class_idx)->Some_0;
            lemma_fill_keeps_stacks(
                types,
                pool,
                s,
                Seq::empty(),
                class.fields@,
                class.fields@.len() as int,
                (fuel - 1) as nat,
                false,
            );
        },
        _ => {},
    }
}

/// Making the default values of fields or locals leaves the stacks as they
/// are.
pub proof fn lemma_fill_keeps_stacks(
    types: Seq<(u32, TypeId)>,
    pool: &Pool,
    s: State,
    table: Seq<(u32, Value)>,
    fields: Seq<PoolIndex>,
    upto: int,
    fuel: nat,
    locals: bool,
)
    requires
        fill_defaults(types, pool, s, table, fields, upto, fuel, locals) is Ok,
    ensures
        same_stacks(fill_defaults(types, pool, s, table, fields, upto, fuel, locals)->Ok_0.0, s),
    decreases fuel, upto + 2,
{
    if !(upto <= 0 || upto > fields.len()) {
        lemma_fill_keeps_stacks(types, pool, s, table, fields, upto - 1, fuel, locals);
        let earlier = fill_defaults(types, pool, s, table, fields, upto - 1, fuel, locals)->Ok_0.0;
        let made = field_default(types, pool, earlier, fields[upto - 1], fuel, locals);
        assert(made is Ok);
        let type_ = slot_type(pool, fields[upto - 1], locals)->Some_0;
        let typ = lookup(types, type_.0)->Some_0;
        assert(made == default_value(types, pool, earlier, typ, fuel));
        lemma_default_keeps_stacks(types, pool, earlier, typ, fuel);
    }
}

/// Making the fields of an object leaves the stacks as they are.
pub proof fn lemma_instance_keeps_stacks(
    types: Seq<(u32, TypeId)>,
    pool: &Pool,
    s: State,
    table: Seq<(u32, Value)>,
    current: PoolIndex,
    steps: nat,
)
    requires
        instance_fields(types, pool, s, table, current, steps) is Ok,
    ensures
        same_stacks(instance_fields(types, pool, s, table, current, steps)->Ok_0.0, s),
    decreases steps,
{
    if !current.spec_is_undefined() && steps > 0 {
        let class = pool.spec_class(current)->Some_0;
        lemma_fill_keeps_stacks(
            types,
            pool,
            s,
            table,
            class.fields@,
            class.fields@.len() as int,
            pool.definitions.len() as nat,
            false,
        );
        let filled = fill_defaults(
            types,
            pool,
            s,
            table,
            class.fields@,
            class.fields@.len() as int,
            pool.definitions.len() as nat,
            false,
        )->Ok_0;
        lemma_instance_keeps_stacks(types, pool, filled.0, filled.1, class.base, (steps - 1) as nat);
    }
}

} // verus!
