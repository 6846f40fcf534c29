use redscript_vm::arena::{Arena, Cell};
use redscript_vm::defaults::fill;
use redscript_vm::error::RuntimeError;
use redscript_vm::index_map::IndexMap;
use redscript_vm::interop::{Double, Float, FromVM, IntoVM};
use redscript_vm::metadata::{Metadata, TypeId};
use redscript_vm::native::default_pool;
use redscript_vm::pool::{
    AnyDefinition, Class, ClassFlags, Definition, Field, Pool, PoolIndex, Type,
};
use redscript_vm::render::FloatFormat;
use redscript_vm::value::{
    f32_bits_equal, f64_bits_equal, Handle, Obj, PackedStruct, StringType, VMIndex, Value,
};

struct StdFloats;

impl FloatFormat for StdFloats {
    fn f32_text(&self, bits: u32) -> String {
        f32::from_bits(bits).to_string()
    }

    fn f64_text(&self, bits: u64) -> String {
        f64::from_bits(bits).to_string()
    }
}

fn string(arena: &mut Arena, text: &str) -> Value {
    text.to_owned().into_vm(arena)
}

fn array(arena: &mut Arena, items: Vec<Value>) -> Value {
    Value::Array(arena.allocate(Cell::Array(items)))
}

fn scalars() -> Vec<Value> {
    vec![
        Value::I8(-1),
        Value::I16(2),
        Value::I32(-3),
        Value::I64(4),
        Value::U8(5),
        Value::U16(6),
        Value::U32(7),
        Value::U64(8),
        Value::F32(1.5f32.to_bits()),
        Value::F64((-2.25f64).to_bits()),
        Value::Bool(true),
        Value::EnumVal(9),
        Value::InternStr(StringType::Name, VMIndex(3)),
    ]
}

#[test]
fn a_value_with_an_equality_equals_itself() {
    let mut arena = Arena::new();
    for v in scalars() {
        assert!(v.equals(&v, &arena), "{:?}", v);
    }
    let s = string(&mut arena, "same");
    assert!(s.equals(&s, &arena));
}

#[test]
fn aggregates_objects_and_arrays_equal_nothing() {
    let mut arena = Arena::new();
    let a = array(&mut arena, vec![Value::I32(1)]);
    let s = Value::BoxedStruct(arena.allocate(Cell::Struct(IndexMap::new())));
    for v in [a, s, Value::Obj(Obj::Null), Value::PackedStruct(PackedStruct([0; 15]))] {
        assert!(!v.equals(&v, &arena), "{:?}", v);
    }
}

#[test]
fn a_number_that_is_not_a_number_equals_itself() {
    let arena = Arena::new();
    let nan = Value::F32(f32::NAN.to_bits());
    assert!(nan.equals(&nan, &arena));
    let nan = Value::F64(f64::NAN.to_bits());
    assert!(nan.equals(&nan, &arena));
    // another one that is no number is another value
    let other = Value::F64(f64::NAN.to_bits() ^ 1);
    assert!(!nan.equals(&other, &arena));
}

#[test]
fn numbers_with_a_fraction_are_equal_by_value_or_by_their_bits() {
    let samples32 = [0.0f32, -0.0, 1.0, -1.0, 1.5, f32::INFINITY, f32::NEG_INFINITY, f32::NAN, f32::MIN_POSITIVE, 1e-40];
    for a in samples32 {
        for b in samples32 {
            let expected = a == b || a.to_bits() == b.to_bits();
            assert_eq!(f32_bits_equal(a.to_bits(), b.to_bits()), expected, "{} {}", a, b);
        }
    }
    let samples64 = [0.0f64, -0.0, 1.0, -1.0, 2.5, f64::INFINITY, f64::NEG_INFINITY, f64::NAN, 5e-324];
    for a in samples64 {
        for b in samples64 {
            let expected = a == b || a.to_bits() == b.to_bits();
            assert_eq!(f64_bits_equal(a.to_bits(), b.to_bits()), expected, "{} {}", a, b);
        }
    }
}

#[test]
fn values_of_different_kinds_are_never_equal() {
    let mut arena = Arena::new();
    assert!(!Value::I32(1).equals(&Value::I64(1), &arena));
    assert!(!Value::U8(1).equals(&Value::I8(1), &arena));
    assert!(!Value::Bool(true).equals(&Value::I32(1), &arena));
    assert!(Value::I32(1).equals(&Value::I32(1), &arena));
    assert!(!Value::I32(1).equals(&Value::I32(2), &arena));
    // interned strings of different tables differ even at the same position
    let name = Value::InternStr(StringType::Name, VMIndex(1));
    let text = Value::InternStr(StringType::String, VMIndex(1));
    assert!(!name.equals(&text, &arena));
    assert!(!name.equals(&Value::InternStr(StringType::Name, VMIndex(2)), &arena));
    // strings made at run time compare by their text
    let a = string(&mut arena, "abc");
    let b = string(&mut arena, "abc");
    let c = string(&mut arena, "abd");
    assert!(a.equals(&b, &arena));
    assert!(!a.equals(&c, &arena));
    assert!(!a.equals(&text, &arena));
    // a handle that points at nothing equals nothing
    let lost = Value::Str(Handle(999));
    assert!(!lost.equals(&lost, &arena));
}

#[test]
fn equality_looks_into_reference_cells() {
    let mut arena = Arena::new();
    let mut pinned = Value::I32(5);
    pinned.pin(&mut arena);
    assert!(pinned.is_pinned());
    assert!(pinned.equals(&Value::I32(5), &arena));
    assert!(Value::I32(5).equals(&pinned, &arena));
    assert!(!pinned.equals(&Value::I32(6), &arena));
    assert!(matches!(pinned.unpinned(&arena), Value::I32(5)));
    assert!(matches!(Value::Bool(true).unpinned(&arena), Value::Bool(true)));
}

#[test]
fn a_reference_cell_is_not_pinned_again() {
    let mut arena = Arena::new();
    let mut v = Value::I32(5);
    v.pin(&mut arena);
    let cells = arena.cells.len();
    let before = format!("{:?}", v);
    v.pin(&mut arena);
    assert_eq!(arena.cells.len(), cells);
    assert_eq!(format!("{:?}", v), before);
}

#[test]
fn an_aggregate_is_copied_and_an_array_is_shared() {
    let mut arena = Arena::new();
    let mut fields = IndexMap::new();
    fields.put(PoolIndex(7), Value::I32(1));
    let original = Value::BoxedStruct(arena.allocate(Cell::Struct(fields)));
    let copy = original.copied(&mut arena);
    let (a, b) = match (original, copy) {
        (Value::BoxedStruct(a), Value::BoxedStruct(b)) => (a, b),
        other => panic!("{:?}", other),
    };
    assert_ne!(a, b);
    arena.set_struct_field(b, PoolIndex(7), Value::I32(2));
    assert!(matches!(arena.boxed_struct(a).unwrap().get(PoolIndex(7)), Some(Value::I32(1))));
    assert!(matches!(arena.boxed_struct(b).unwrap().get(PoolIndex(7)), Some(Value::I32(2))));

    let shared = array(&mut arena, vec![]);
    let again = shared.copied(&mut arena);
    assert_eq!(format!("{:?}", shared), format!("{:?}", again));
}

fn types() -> Vec<TypeId> {
    vec![
        TypeId::I64,
        TypeId::I32,
        TypeId::I16,
        TypeId::I8,
        TypeId::U64,
        TypeId::U32,
        TypeId::U16,
        TypeId::U8,
        TypeId::F64,
        TypeId::F32,
        TypeId::Bool,
        TypeId::String,
        TypeId::CName,
        TypeId::TweakDbId,
        TypeId::ResRef,
        TypeId::Ref(PoolIndex(1)),
        TypeId::WRef(PoolIndex(1)),
        TypeId::Enum(PoolIndex(1)),
        TypeId::Array(Box::new(TypeId::I32)),
        TypeId::Variant,
    ]
}

#[test]
fn a_default_value_is_of_its_type() {
    let pool = default_pool();
    let meta = Metadata::new(&pool).unwrap();
    let mut arena = Arena::new();
    for typ in types() {
        let v = typ.default_value(&mut arena, &meta, 8).unwrap();
        assert!(v.has_type(&typ, &arena), "{:?} {:?}", v, typ);
    }
}

#[test]
fn the_default_variant_is_a_null_reference_of_its_type() {
    let pool = default_pool();
    let meta = Metadata::new(&pool).unwrap();
    let mut arena = Arena::new();
    let v = TypeId::Variant.default_value(&mut arena, &meta, 8).unwrap();
    assert!(matches!(v, Value::Obj(Obj::Null)));
    assert!(v.has_type(&TypeId::Variant, &arena));
    assert!(!Value::I32(0).has_type(&TypeId::Variant, &arena));
}

#[test]
fn some_types_have_no_default_value() {
    let pool = default_pool();
    let meta = Metadata::new(&pool).unwrap();
    let mut arena = Arena::new();
    for typ in [
        TypeId::NodeRef,
        TypeId::CRUID,
        TypeId::ScriptRef(Box::new(TypeId::I32)),
        TypeId::StaticArray(Box::new(TypeId::I32), 4),
    ] {
        assert_eq!(typ.default_value(&mut arena, &meta, 8).unwrap_err(), RuntimeError::Todo);
    }
}

fn struct_pool() -> (Pool, PoolIndex, PoolIndex, PoolIndex) {
    let mut pool = default_pool();
    let mut define = |pool: &mut Pool, name: &str, value: AnyDefinition| {
        let name = pool.add_name(name).unwrap();
        pool.add_definition(Definition { name, parent: PoolIndex(0), value }).unwrap()
    };
    let x = define(&mut pool, "x", AnyDefinition::Field(Field { type_: PoolIndex(3) }));
    let on = define(&mut pool, "on", AnyDefinition::Field(Field { type_: PoolIndex(12) }));
    let point = define(
        &mut pool,
        "Point",
        AnyDefinition::Class(Class {
            base: PoolIndex(0),
            fields: vec![x, on],
            functions: vec![],
            flags: ClassFlags { is_struct: true },
        }),
    );
    define(&mut pool, "Point", AnyDefinition::Type(Type::Class));
    (pool, point, x, on)
}

#[test]
fn the_default_aggregate_has_the_default_values_of_its_fields() {
    let (pool, point, x, on) = struct_pool();
    let meta = Metadata::new(&pool).unwrap();
    let mut arena = Arena::new();
    let typ = TypeId::Struct(point);
    let v = typ.default_value(&mut arena, &meta, 8).unwrap();
    assert!(v.has_type(&typ, &arena));
    let h = match v {
        Value::BoxedStruct(h) => h,
        other => panic!("{:?}", other),
    };
    let fields = arena.boxed_struct(h).unwrap();
    assert_eq!(fields.len(), 2);
    assert!(matches!(fields.get(x), Some(Value::I32(0))));
    assert!(matches!(fields.get(on), Some(Value::Bool(false))));
    assert_eq!(v.to_string(&arena, &pool, &StdFloats, 8).unwrap(), "{x: 0, on: false}");
    // without fuel the aggregate cannot be made
    assert_eq!(typ.default_value(&mut arena, &meta, 0).unwrap_err(), RuntimeError::InvalidBytecode);
    let mut table = IndexMap::new();
    assert_eq!(fill(&mut table, &vec![x, on], &mut arena, &meta, 1, false), Ok(()));
    assert_eq!(table.len(), 2);
}

#[test]
fn typing_is_exact() {
    let mut arena = Arena::new();
    assert!(Value::I32(1).has_type(&TypeId::I32, &arena));
    assert!(!Value::I32(1).has_type(&TypeId::I64, &arena));
    assert!(!Value::I32(1).has_type(&TypeId::U32, &arena));
    assert!(Value::Obj(Obj::Null).has_type(&TypeId::Ref(PoolIndex(5)), &arena));
    assert!(Value::Obj(Obj::Null).has_type(&TypeId::WRef(PoolIndex(5)), &arena));
    assert!(!Value::Obj(Obj::Null).has_type(&TypeId::I32, &arena));
    let s = string(&mut arena, "x");
    assert!(s.has_type(&TypeId::String, &arena));
    assert!(!s.has_type(&TypeId::CName, &arena));
    assert!(Value::InternStr(StringType::String, VMIndex(0)).has_type(&TypeId::String, &arena));
    assert!(Value::InternStr(StringType::Name, VMIndex(0)).has_type(&TypeId::CName, &arena));
    assert!(!Value::InternStr(StringType::Name, VMIndex(0)).has_type(&TypeId::String, &arena));
    assert!(Value::InternStr(StringType::TweakDbId, VMIndex(0)).has_type(&TypeId::TweakDbId, &arena));
    assert!(Value::InternStr(StringType::Resource, VMIndex(0)).has_type(&TypeId::ResRef, &arena));
    let a = array(&mut arena, vec![Value::Bool(true)]);
    assert!(a.has_type(&TypeId::Array(Box::new(TypeId::I32)), &arena));
    assert!(Value::PackedStruct(PackedStruct([0; 15])).has_type(&TypeId::Struct(PoolIndex(1)), &arena));
    assert!(Value::EnumVal(3).has_type(&TypeId::Enum(PoolIndex(1)), &arena));
    let mut pinned = Value::U8(1);
    pinned.pin(&mut arena);
    assert!(pinned.has_type(&TypeId::U8, &arena));
    assert!(!pinned.has_type(&TypeId::I8, &arena));
}

#[test]
fn values_are_written_in_their_natural_form() {
    let mut pool = default_pool();
    pool.strings.push("text".to_owned());
    pool.tweakdb_ids.push("Items.Thing".to_owned());
    pool.resources.push("base\\thing.ent".to_owned());
    let mut arena = Arena::new();
    let show = |v: Value, arena: &Arena| v.to_string(arena, &pool, &StdFloats, 8).unwrap();
    assert_eq!(show(Value::I8(-128), &arena), "-128");
    assert_eq!(show(Value::I16(-32768), &arena), (-32768i16).to_string());
    assert_eq!(show(Value::I32(i32::MIN), &arena), i32::MIN.to_string());
    assert_eq!(show(Value::I64(i64::MIN), &arena), i64::MIN.to_string());
    assert_eq!(show(Value::I64(i64::MAX), &arena), i64::MAX.to_string());
    assert_eq!(show(Value::I32(0), &arena), "0");
    assert_eq!(show(Value::I32(10), &arena), "10");
    assert_eq!(show(Value::U8(255), &arena), "255");
    assert_eq!(show(Value::U16(65535), &arena), "65535");
    assert_eq!(show(Value::U32(u32::MAX), &arena), u32::MAX.to_string());
    assert_eq!(show(Value::U64(u64::MAX), &arena), u64::MAX.to_string());
    assert_eq!(show(Value::EnumVal(-7), &arena), "-7");
    assert_eq!(show(Value::Bool(true), &arena), "true");
    assert_eq!(show(Value::Bool(false), &arena), "false");
    assert_eq!(show(Value::F32(1.5f32.to_bits()), &arena), "1.5");
    assert_eq!(show(Value::F64(0.1f64.to_bits()), &arena), "0.1");
    assert_eq!(show(Value::Obj(Obj::Null), &arena), "null");
    assert_eq!(show(Value::InternStr(StringType::String, VMIndex(0)), &arena), "text");
    assert_eq!(show(Value::InternStr(StringType::Name, VMIndex(3)), &arena), "Int32");
    assert_eq!(show(Value::InternStr(StringType::TweakDbId, VMIndex(0)), &arena), "Items.Thing");
    assert_eq!(show(Value::InternStr(StringType::Resource, VMIndex(0)), &arena), "base\\thing.ent");
    let s = string(&mut arena, "made");
    assert_eq!(show(s, &arena), "made");
    let empty = array(&mut arena, vec![]);
    assert_eq!(show(empty, &arena), "[]");
    let one = array(&mut arena, vec![Value::I32(1)]);
    assert_eq!(show(one, &arena), "[1]");
    let inner = array(&mut arena, vec![Value::Bool(true), s]);
    let outer = array(&mut arena, vec![Value::I32(1), inner, Value::U8(3)]);
    assert_eq!(show(outer, &arena), "[1, [true, made], 3]");
    let mut pinned = Value::I32(77);
    pinned.pin(&mut arena);
    assert_eq!(show(pinned, &arena), "77");
}

#[test]
fn the_items_of_an_array_are_written_with_commas_between_them() {
    let pool = default_pool();
    let mut arena = Arena::new();
    let mut show = |items: Vec<Value>| {
        let a = array(&mut arena, items);
        a.to_string(&arena, &pool, &StdFloats, 8).unwrap()
    };
    assert_eq!(show(vec![]), "[]");
    assert_eq!(show(vec![Value::U8(1)]), "[1]");
    assert_eq!(show(vec![Value::U8(1), Value::Bool(false)]), "[1, false]");
    assert_eq!(show(vec![Value::I8(-1), Value::I8(-2), Value::I8(-3)]), "[-1, -2, -3]");
}

#[test]
fn what_cannot_be_written_is_an_error() {
    let pool = default_pool();
    let mut arena = Arena::new();
    let show = |v: Value, arena: &Arena, fuel: usize| v.to_string(arena, &pool, &StdFloats, fuel);
    assert_eq!(show(Value::PackedStruct(PackedStruct([0; 15])), &arena, 8), Err(RuntimeError::Todo));
    assert_eq!(show(Value::Str(Handle(5)), &arena, 8), Err(RuntimeError::InvalidBytecode));
    assert_eq!(
        show(Value::InternStr(StringType::String, VMIndex(5)), &arena, 8),
        Err(RuntimeError::InvalidBytecode)
    );
    // an array that holds itself has no end
    let h = arena.allocate(Cell::Array(vec![]));
    arena.array_mut(h).unwrap().push(Value::Array(h));
    assert_eq!(show(Value::Array(h), &arena, 8), Err(RuntimeError::BudgetExhausted));
}

#[test]
fn host_values_come_back_as_they_went_in() {
    let pool = default_pool();
    let mut arena = Arena::new();
    round_trips(&mut arena, &pool);
}

fn round<T: IntoVM + FromVM + Clone + PartialEq + std::fmt::Debug>(
    x: T,
    arena: &mut Arena,
    pool: &Pool,
) {
    let v = x.clone().into_vm(arena);
    assert_eq!(T::from_vm(v, arena, pool), Ok(x));
}

fn round_trips(arena: &mut Arena, pool: &Pool) {
    round(i8::MIN, arena, pool);
    round(-1i16, arena, pool);
    round(i32::MAX, arena, pool);
    round(i64::MIN, arena, pool);
    round(u8::MAX, arena, pool);
    round(7u16, arena, pool);
    round(u32::MAX, arena, pool);
    round(u64::MAX, arena, pool);
    round(true, arena, pool);
    round(false, arena, pool);
    round(Float(2.5f32.to_bits()), arena, pool);
    round(Double(f64::NAN.to_bits()), arena, pool);
    round(String::new(), arena, pool);
    round("grüße".to_owned(), arena, pool);
}

#[test]
fn a_conversion_to_another_type_fails_with_a_message() {
    let mut pool = default_pool();
    pool.strings.push("interned".to_owned());
    let mut arena = Arena::new();
    assert_eq!(i32::from_vm(Value::I64(1), &arena, &pool), Err("Invalid argument, expected I32"));
    assert_eq!(bool::from_vm(Value::I32(1), &arena, &pool), Err("Invalid argument, expected Bool"));
    assert_eq!(u8::from_vm(Value::I8(1), &arena, &pool), Err("Invalid argument, expected U8"));
    assert_eq!(
        String::from_vm(Value::I32(1), &arena, &pool),
        Err("Invalid argument, expected String")
    );
    assert_eq!(
        String::from_vm(Value::InternStr(StringType::String, VMIndex(9)), &arena, &pool),
        Err("Unknown string constant")
    );
    assert_eq!(
        String::from_vm(Value::InternStr(StringType::String, VMIndex(0)), &arena, &pool),
        Ok("interned".to_owned())
    );
    assert_eq!(
        String::from_vm(Value::InternStr(StringType::Name, VMIndex(0)), &arena, &pool),
        Err("Invalid argument, expected String")
    );
    let mut pinned = Value::I32(4);
    pinned.pin(&mut arena);
    assert_eq!(i32::from_vm(pinned, &arena, &pool), Ok(4));
    let v = "literal".into_vm(&mut arena);
    assert_eq!(String::from_vm(v, &arena, &pool), Ok("literal".to_owned()));
}

#[test]
fn allocation_is_counted_as_debt() {
    let mut arena = Arena::new();
    assert_eq!(arena.debt, 0);
    arena.allocate(Cell::Pinned(Value::I32(1)));
    assert_eq!(arena.debt, 48);
    arena.allocate(Cell::Array(vec![Value::I32(1), Value::I32(2)]));
    assert_eq!(arena.debt, 48 + 48 + 2 * 24);
    arena.allocate(Cell::Str("abc".to_owned()));
    assert_eq!(arena.debt, 144 + 40 + 3 * 4);
    arena.collect_debt();
    assert_eq!(arena.debt, 0);
    assert_eq!(arena.cells.len(), 3);
}
