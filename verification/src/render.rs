//! Values as text.
use vstd::prelude::*;
use vstd::string::StringExecFns;
use crate::arena::Arena;
use crate::error::{Fault, RuntimeError, RuntimeResult};
use crate::index_map::IndexMap;
use crate::pool::{Pool, PoolIndex};
use crate::state::{array_at, instance_at, pinned_at, str_at, struct_at, CellView};
use crate::text::{bool_text, decimal, join, joined, signed_text, text_view, unsigned_text};
use crate::value::{Obj, StringType, Value};

verus! {

/// How the host writes numbers with a fraction, given by their IEEE 754
/// bits.
pub trait FloatFormat {
    fn f32_text(&self, bits: u32) -> String;

    fn f64_text(&self, bits: u64) -> String;
}

/// The text of an interned string.
pub open spec fn interned_text(pool: &Pool, kind: StringType, idx: PoolIndex) -> Option<Seq<char>> {
    match kind {
        StringType::String => pool.spec_string(idx),
        StringType::Name => pool.spec_name(idx),
        StringType::TweakDbId => pool.spec_tweakdb_id(idx),
        StringType::Resource => pool.spec_resource(idx),
    }
}

/// The text of `v`, or how writing it fails. Whole numbers are written in
/// decimal, booleans as `true` and `false`, a null reference as `null`, a
/// string as it is, an array as its items in square brackets, an aggregate
/// or object as its fields in braces, each with the name of its definition.
/// There is an answer only where no number with a fraction has to be
/// written: how those look is up to the host. `fuel` bounds how deep values
/// may lie in each other.
pub open spec fn rendered(pool: &Pool, cells: Seq<CellView>, v: Value, fuel: nat) -> Option<
    Result<Seq<char>, Fault>,
>
    decreases fuel, 1int,
{
    match v {
        Value::I8(i) => Some(Ok(decimal(i as int))),
        Value::I16(i) => Some(Ok(decimal(i as int))),
        Value::I32(i) => Some(Ok(decimal(i as int))),
        Value::I64(i) => Some(Ok(decimal(i as int))),
        Value::U8(i) => Some(Ok(decimal(i as int))),
        Value::U16(i) => Some(Ok(decimal(i as int))),
        Value::U32(i) => Some(Ok(decimal(i as int))),
        Value::U64(i) => Some(Ok(decimal(i as int))),
        Value::F32(_) => None,
        Value::F64(_) => None,
        Value::Bool(b) => Some(Ok(if b {
            "true"@
        } else {
            "false"@
        })),
        Value::EnumVal(i) => Some(Ok(decimal(i as int))),
        Value::PackedStruct(_) => Some(Err(Fault::Todo)),
        Value::BoxedStruct(h) => match struct_at(cells, h) {
            None => Some(Err(Fault::InvalidBytecode)),
            Some(fields) => rendered_aggregate(pool, cells, fields, fuel),
        },
        Value::Obj(Obj::Null) => Some(Ok("null"@)),
        Value::Obj(Obj::Instance(h)) => match instance_at(cells, h) {
            None => Some(Err(Fault::InvalidBytecode)),
            Some(instance) => rendered_aggregate(pool, cells, instance.fields, fuel),
        },
        Value::Str(h) => match str_at(cells, h) {
            None => Some(Err(Fault::InvalidBytecode)),
            Some(text) => Some(Ok(text)),
        },
        Value::InternStr(kind, idx) => match interned_text(pool, kind, PoolIndex(idx.0)) {
            None => Some(Err(Fault::InvalidBytecode)),
            Some(text) => Some(Ok(text)),
        },
        Value::Array(h) => match array_at(cells, h) {
            None => Some(Err(Fault::InvalidBytecode)),
            Some(items) => if fuel == 0 {
                Some(Err(Fault::BudgetExhausted))
            } else {
                match rendered_items(pool, cells, items, items.len() as int, (fuel - 1) as nat) {
                    None => None,
                    Some(Err(fault)) => Some(Err(fault)),
                    Some(Ok(parts)) => Some(Ok("["@ + joined(parts, ", "@) + "]"@)),
                }
            },
        },
        Value::Pinned(h) => match pinned_at(cells, h) {
            None => Some(Err(Fault::InvalidBytecode)),
            Some(inner) => if fuel == 0 {
                Some(Err(Fault::BudgetExhausted))
            } else {
                rendered(pool, cells, inner, (fuel - 1) as nat)
            },
        },
    }
}

/// The text of an aggregate with the fields `fields`.
pub open spec fn rendered_aggregate(
    pool: &Pool,
    cells: Seq<CellView>,
    fields: Seq<(u32, Value)>,
    fuel: nat,
) -> Option<Result<Seq<char>, Fault>>
    decreases fuel, 0int,
{
    if fuel == 0 {
        Some(Err(Fault::BudgetExhausted))
    } else {
        match rendered_fields(pool, cells, fields, fields.len() as int, (fuel - 1) as nat) {
            None => None,
            Some(Err(fault)) => Some(Err(fault)),
            Some(Ok(parts)) => Some(Ok("{"@ + joined(parts, ", "@) + "}"@)),
        }
    }
}

/// The texts of the first `upto` of `items`, or how the first of them that
/// cannot be written fails.
pub open spec fn rendered_items(
    pool: &Pool,
    cells: Seq<CellView>,
    items: Seq<Value>,
    upto: int,
    fuel: nat,
) -> Option<Result<Seq<Seq<char>>, Fault>>
    decreases fuel, upto + 2,
{
    if upto <= 0 || upto > items.len() {
        Some(Ok(Seq::empty()))
    } else {
        match rendered_items(pool, cells, items, upto - 1, fuel) {
            None => None,
            Some(Err(fault)) => Some(Err(fault)),
            Some(Ok(earlier)) => match rendered(pool, cells, items[upto - 1], fuel) {
                None => None,
                Some(Err(fault)) => Some(Err(fault)),
                Some(Ok(text)) => Some(Ok(earlier.push(text))),
            },
        }
    }
}

/// The texts of the first `upto` of `fields`, each as the name of the
/// field's definition, a colon and the text of its value.
pub open spec fn rendered_fields(
    pool: &Pool,
    cells: Seq<CellView>,
    fields: Seq<(u32, Value)>,
    upto: int,
    fuel: nat,
) -> Option<Result<Seq<Seq<char>>, Fault>>
    decreases fuel, upto + 2,
{
    if upto <= 0 || upto > fields.len() {
        Some(Ok(Seq::empty()))
    } else {
        match rendered_fields(pool, cells, fields, upto - 1, fuel) {
            None => None,
            Some(Err(fault)) => Some(Err(fault)),
            Some(Ok(earlier)) => match pool.spec_def_name(PoolIndex(fields[upto - 1].0)) {
                None => Some(Err(Fault::InvalidBytecode)),
                Some(name) => match rendered(pool, cells, fields[upto - 1].1, fuel) {
                    None => None,
                    Some(Err(fault)) => Some(Err(fault)),
                    Some(Ok(text)) => Some(Ok(earlier.push(name + ": "@ + text))),
                },
            },
        }
    }
}

/// Whether the outcome `r` of writing a value is the one that `expected`
/// describes, where it describes one.
pub open spec fn renders(r: RuntimeResult<String>, expected: Option<Result<Seq<char>, Fault>>) -> bool {
    match expected {
        None => true,
        Some(Ok(text)) => r matches Ok(written) && written@ == text,
        Some(Err(fault)) => r matches Err(e) && e@ == fault,
    }
}

pub open spec fn renders_all(
    r: RuntimeResult<Vec<String>>,
    expected: Option<Result<Seq<Seq<char>>, Fault>>,
) -> bool {
    match expected {
        None => true,
        Some(Ok(texts)) => r matches Ok(written) && written@.map_values(
            |part: String| text_view(part),
        ) == texts,
        Some(Err(fault)) => r matches Err(e) && e@ == fault,
    }
}

fn interned(pool: &Pool, kind: StringType, idx: PoolIndex) -> (r: Option<&String>)
    ensures
        r.is_some() == interned_text(pool, kind, idx).is_some(),
        r matches Some(text) ==> interned_text(pool, kind, idx) == Some(text@),
{
    match kind {
        StringType::String => pool.string(idx),
        StringType::Name => pool.name(idx),
        StringType::TweakDbId => pool.tweakdb_id(idx),
        StringType::Resource => pool.resource(idx),
    }
}

fn bracketed(open: &str, parts: &Vec<String>, close: &str) -> (r: String)
    ensures
        r@ == open@ + joined(parts@.map_values(|part: String| text_view(part)), ", "@) + close@,
{
    let mut text = String::from_str(open);
    let inner = join(parts, ", ");
    text.append(inner.as_str());
    text.append(close);
    text
}

impl Value {
    /// Writes the value as text.
    pub fn to_string(&self, arena: &Arena, pool: &Pool, floats: &dyn FloatFormat, fuel: usize) -> (r:
        RuntimeResult<String>)
        requires
            arena.wf(),
        ensures
            renders(r, rendered(pool, arena@.cells, *self, fuel as nat)),
        decreases fuel, 1int,
    {
        match *self {
            Value::I8(i) => Ok(signed_text(i as i64)),
            Value::I16(i) => Ok(signed_text(i as i64)),
            Value::I32(i) => Ok(signed_text(i as i64)),
            Value::I64(i) => Ok(signed_text(i)),
            Value::U8(i) => Ok(unsigned_text(i as u64)),
            Value::U16(i) => Ok(unsigned_text(i as u64)),
            Value::U32(i) => Ok(unsigned_text(i as u64)),
            Value::U64(i) => Ok(unsigned_text(i)),
            Value::F32(bits) => Ok(floats.f32_text(bits)),
            Value::F64(bits) => Ok(floats.f64_text(bits)),
            Value::Bool(b) => Ok(bool_text(b)),
            Value::EnumVal(i) => Ok(signed_text(i)),
            Value::PackedStruct(_) => Err(RuntimeError::Todo),
            Value::BoxedStruct(h) => match arena.boxed_struct(h) {
                None => Err(RuntimeError::InvalidBytecode),
                Some(fields) => aggregate_to_string(fields, arena, pool, floats, fuel),
            },
            Value::Obj(Obj::Null) => Ok(String::from_str("null")),
            Value::Obj(Obj::Instance(h)) => match arena.instance(h) {
                None => Err(RuntimeError::InvalidBytecode),
                Some(instance) => aggregate_to_string(&instance.fields, arena, pool, floats, fuel),
            },
            Value::Str(h) => match arena.string(h) {
                None => Err(RuntimeError::InvalidBytecode),
                Some(text) => Ok(text.clone()),
            },
            Value::InternStr(kind, idx) => match interned(pool, kind, idx.to_pool()) {
                None => Err(RuntimeError::InvalidBytecode),
                Some(text) => Ok(text.clone()),
            },
            Value::Array(h) => match arena.array(h) {
                None => Err(RuntimeError::InvalidBytecode),
                Some(items) => {
                    if fuel == 0 {
                        return Err(RuntimeError::BudgetExhausted);
                    }
                    let parts = items_to_strings(items, arena, pool, floats, fuel - 1)?;
                    Ok(bracketed("[", &parts, "]"))
                },
            },
            Value::Pinned(h) => match arena.pinned(h) {
                None => Err(RuntimeError::InvalidBytecode),
                Some(inner) => {
                    if fuel == 0 {
                        return Err(RuntimeError::BudgetExhausted);
                    }
                    inner.to_string(arena, pool, floats, fuel - 1)
                },
            },
        }
    }
}

fn aggregate_to_string(
    fields: &IndexMap<Value>,
    arena: &Arena,
    pool: &Pool,
    floats: &dyn FloatFormat,
    fuel: usize,
) -> (r: RuntimeResult<String>)
    requires
        arena.wf(),
        fields.wf(),
    ensures
        renders(r, rendered_aggregate(pool, arena@.cells, fields@, fuel as nat)),
    decreases fuel, 0int,
{
    if fuel == 0 {
        return Err(RuntimeError::BudgetExhausted);
    }
    let parts = fields_to_strings(fields, arena, pool, floats, fuel - 1)?;
    Ok(bracketed("{", &parts, "}"))
}

fn items_to_strings(
    items: &Vec<Value>,
    arena: &Arena,
    pool: &Pool,
    floats: &dyn FloatFormat,
    fuel: usize,
) -> (r: RuntimeResult<Vec<String>>)
    requires
        arena.wf(),
    ensures
        renders_all(
            r,
            rendered_items(pool, arena@.cells, items@, items@.len() as int, fuel as nat),
        ),
    decreases fuel, 2int,
{
    let mut parts: Vec<String> = Vec::new();
    assert(parts@.map_values(|part: String| text_view(part)) =~= Seq::empty());
    let mut i: usize = 0;
    while i < items.len()
        invariant
            i <= items@.len(),
            arena.wf(),
            renders_all(
                Ok(parts),
                rendered_items(pool, arena@.cells, items@, i as int, fuel as nat),
            ),
        decreases items@.len() - i,
    {
        let ghost before = parts@.map_values(|part: String| text_view(part));
        match items[i].to_string(arena, pool, floats, fuel) {
            Ok(text) => {
                parts.push(text);
                proof {
                    assert(parts@.map_values(|part: String| text_view(part)) =~= before.push(
                        text@,
                    ));
                }
            },
            Err(e) => {
                proof {
                    lemma_rendered_items_fail(pool, arena@.cells, items@, i + 1, fuel as nat);
                }
                return Err(e);
            },
        }
        i += 1;
    }
    Ok(parts)
}

fn fields_to_strings(
    fields: &IndexMap<Value>,
    arena: &Arena,
    pool: &Pool,
    floats: &dyn FloatFormat,
    fuel: usize,
) -> (r: RuntimeResult<Vec<String>>)
    requires
        arena.wf(),
        fields.wf(),
    ensures
        renders_all(
            r,
            rendered_fields(pool, arena@.cells, fields@, fields@.len() as int, fuel as nat),
        ),
    decreases fuel, 2int,
{
    let mut parts: Vec<String> = Vec::new();
    assert(parts@.map_values(|part: String| text_view(part)) =~= Seq::empty());
    let mut i: usize = 0;
    while i < fields.len()
        invariant
            i <= fields@.len(),
            arena.wf(),
            fields.wf(),
            renders_all(
                Ok(parts),
                rendered_fields(pool, arena@.cells, fields@, i as int, fuel as nat),
            ),
        decreases fields@.len() - i,
    {
        let ghost before = parts@.map_values(|part: String| text_view(part));
        let name = match pool.def_name(fields.key_at(i)) {
            Some(name) => name,
            None => {
                proof {
                    lemma_rendered_fields_fail(pool, arena@.cells, fields@, i + 1, fuel as nat);
                }
                return Err(RuntimeError::InvalidBytecode);
            },
        };
        match fields.value_at(i).to_string(arena, pool, floats, fuel) {
            Ok(text) => {
                let mut part = name.clone();
                part.append(": ");
                part.append(text.as_str());
                parts.push(part);
                proof {
                    assert(parts@.map_values(|part: String| text_view(part)) =~= before.push(
                        name@ + ": "@ + text@,
                    ));
                }
            },
            Err(e) => {
                proof {
                    lemma_rendered_fields_fail(pool, arena@.cells, fields@, i + 1, fuel as nat);
                }
                return Err(e);
            },
        }
        i += 1;
    }
    Ok(parts)
}

/// Once writing fails or is up to the host for a prefix of the items, it is
/// so for all of them, in the same way.
proof fn lemma_rendered_items_fail(
    pool: &Pool,
    cells: Seq<CellView>,
    items: Seq<Value>,
    upto: int,
    fuel: nat,
)
    requires
        !(rendered_items(pool, cells, items, upto, fuel) matches Some(Ok(_))),
        0 <= upto <= items.len(),
    ensures
        rendered_items(pool, cells, items, items.len() as int, fuel) == rendered_items(
            pool,
            cells,
            items,
            upto,
            fuel,
        ),
    decreases items.len() - upto,
{
    if upto < items.len() {
        lemma_rendered_items_fail(pool, cells, items, upto + 1, fuel);
    }
}

proof fn lemma_rendered_fields_fail(
    pool: &Pool,
    cells: Seq<CellView>,
    fields: Seq<(u32, Value)>,
    upto: int,
    fuel: nat,
)
    requires
        !(rendered_fields(pool, cells, fields, upto, fuel) matches Some(Ok(_))),
        0 <= upto <= fields.len(),
    ensures
        rendered_fields(pool, cells, fields, fields.len() as int, fuel) == rendered_fields(
            pool,
            cells,
            fields,
            upto,
            fuel,
        ),
    decreases fields.len() - upto,
{
    if upto < fields.len() {
        lemma_rendered_fields_fail(pool, cells, fields, upto + 1, fuel);
    }
}

} // verus!
