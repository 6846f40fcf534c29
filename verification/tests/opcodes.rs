use redscript_vm::error::RuntimeError;
use redscript_vm::native::{default_pool, register_natives};
use redscript_vm::pool::{
    AnyDefinition, Class, ClassFlags, Definition, Field, Function, FunctionFlags, Instr, Local,
    Offset, Parameter, ParameterFlags, Pool, PoolIndex, Type, Visibility,
};
use redscript_vm::render::FloatFormat;
use redscript_vm::value::Value;
use redscript_vm::vm::VM;
use redscript_vm::arena::Cell;
use redscript_vm::value::{Handle, Obj, StringType, VMIndex};

#[allow(dead_code)]
struct StdFloats;

impl FloatFormat for StdFloats {
    fn f32_text(&self, bits: u32) -> String {
        f32::from_bits(bits).to_string()
    }

    fn f64_text(&self, bits: u64) -> String {
        f64::from_bits(bits).to_string()
    }
}

const NONE: PoolIndex = PoolIndex(0);
const INT32: PoolIndex = PoolIndex(3);
const STRING: PoolIndex = PoolIndex(11);
const BOOL: PoolIndex = PoolIndex(12);

#[allow(dead_code)]
fn define(pool: &mut Pool, name: &str, parent: PoolIndex, value: AnyDefinition) -> PoolIndex {
    let name = pool.add_name(name).unwrap();
    pool.add_definition(Definition { name, parent, value }).unwrap()
}

#[allow(dead_code)]
fn parameter(pool: &mut Pool, name: &str, type_: PoolIndex, is_out: bool) -> PoolIndex {
    define(
        pool,
        name,
        NONE,
        AnyDefinition::Parameter(Parameter { type_, flags: ParameterFlags { is_out } }),
    )
}

#[allow(dead_code)]
fn local(pool: &mut Pool, name: &str, type_: PoolIndex) -> PoolIndex {
    define(pool, name, NONE, AnyDefinition::Local(Local { type_ }))
}

#[allow(dead_code)]
fn field(pool: &mut Pool, name: &str, type_: PoolIndex) -> PoolIndex {
    define(pool, name, NONE, AnyDefinition::Field(Field { type_ }))
}

#[allow(dead_code)]
fn type_(pool: &mut Pool, name: &str, shape: Type) -> PoolIndex {
    define(pool, name, NONE, AnyDefinition::Type(shape))
}

#[allow(dead_code)]
fn native(pool: &mut Pool, name: &str, parameters: Vec<PoolIndex>) -> PoolIndex {
    define(
        pool,
        name,
        NONE,
        AnyDefinition::Function(Function {
            visibility: Visibility::Public,
            parameters,
            locals: vec![],
            code: vec![],
            flags: FunctionFlags { is_native: true, is_final: true, is_static: true },
        }),
    )
}

#[allow(dead_code)]
fn code(instrs: Vec<Instr>) -> Vec<(u16, Instr)> {
    instrs.into_iter().enumerate().map(|(i, instr)| ((i * 10) as u16, instr)).collect()
}

#[allow(dead_code)]
fn function(
    pool: &mut Pool,
    name: &str,
    parent: PoolIndex,
    parameters: Vec<PoolIndex>,
    locals: Vec<PoolIndex>,
    instrs: Vec<Instr>,
) -> PoolIndex {
    define(
        pool,
        name,
        parent,
        AnyDefinition::Function(Function {
            visibility: Visibility::Public,
            parameters,
            locals,
            code: code(instrs),
            flags: FunctionFlags {
                is_native: false,
                is_final: false,
                is_static: parent == NONE,
            },
        }),
    )
}

#[allow(dead_code)]
fn class(
    pool: &mut Pool,
    name: &str,
    base: PoolIndex,
    fields: Vec<PoolIndex>,
    functions: Vec<PoolIndex>,
    is_struct: bool,
) -> PoolIndex {
    define(
        pool,
        name,
        NONE,
        AnyDefinition::Class(Class { base, fields, functions, flags: ClassFlags { is_struct } }),
    )
}

#[allow(dead_code)]
fn add_method(pool: &mut Pool, class: PoolIndex, method: PoolIndex) {
    if let AnyDefinition::Class(c) = &mut pool.definitions[class.0 as usize].value {
        c.functions.push(method);
    }
}

#[allow(dead_code)]
fn call_static(idx: PoolIndex) -> Instr {
    Instr::InvokeStatic(Offset { value: 0 }, 0, idx, 0)
}

#[allow(dead_code)]
fn call_virtual(name: PoolIndex) -> Instr {
    Instr::InvokeVirtual(Offset { value: 0 }, 0, name, 0)
}

#[allow(dead_code)]
fn context() -> Instr {
    Instr::Context(Offset { value: 0 })
}

/// The offset that leads from the instruction at place `from` to the one at
/// place `to`.
#[allow(dead_code)]
fn jump(from: i16, to: i16) -> Offset {
    Offset { value: (to - from) * 10 }
}

#[allow(dead_code)]
fn machine(pool: &Pool) -> VM<'_> {
    let mut vm = VM::new(pool, Box::new(StdFloats)).unwrap();
    register_natives(&mut vm, |_text: String| {});
    vm
}

#[allow(dead_code)]
fn binary(pool: &mut Pool, name: &str, type_: PoolIndex, out: bool) -> PoolIndex {
    let a = parameter(pool, "a", type_, out);
    let b = parameter(pool, "b", type_, false);
    native(pool, name, vec![a, b])
}


fn answer(instrs: Vec<Instr>) -> Result<Option<Value>, RuntimeError> {
    let mut pool = default_pool();
    pool.strings.push("zero".to_owned());
    pool.strings.push("one".to_owned());
    let main = function(&mut pool, "main;", NONE, vec![], vec![], instrs);
    let mut vm = machine(&pool);
    vm.call_with_callback(main, vec![], |value, vm| value.map(|v| v.unpinned(&vm.arena)))
}

fn returned(mut instrs: Vec<Instr>) -> Value {
    instrs.insert(0, Instr::Return);
    instrs.push(Instr::Nop);
    answer(instrs).unwrap().unwrap()
}

#[test]
fn constants_push_their_value() {
    assert!(matches!(returned(vec![Instr::Null]), Value::Obj(Obj::Null)));
    assert!(matches!(returned(vec![Instr::WeakRefNull]), Value::Obj(Obj::Null)));
    assert!(matches!(returned(vec![Instr::I32One]), Value::I32(1)));
    assert!(matches!(returned(vec![Instr::I32Zero]), Value::I32(0)));
    assert!(matches!(returned(vec![Instr::I8Const(-8)]), Value::I8(-8)));
    assert!(matches!(returned(vec![Instr::I16Const(-16)]), Value::I16(-16)));
    assert!(matches!(returned(vec![Instr::I32Const(-32)]), Value::I32(-32)));
    assert!(matches!(returned(vec![Instr::I64Const(-64)]), Value::I64(-64)));
    assert!(matches!(returned(vec![Instr::U8Const(8)]), Value::U8(8)));
    assert!(matches!(returned(vec![Instr::U16Const(16)]), Value::U16(16)));
    assert!(matches!(returned(vec![Instr::U32Const(32)]), Value::U32(32)));
    assert!(matches!(returned(vec![Instr::U64Const(64)]), Value::U64(64)));
    assert!(matches!(returned(vec![Instr::F32Const(7)]), Value::F32(7)));
    assert!(matches!(returned(vec![Instr::F64Const(9)]), Value::F64(9)));
    assert!(matches!(returned(vec![Instr::TrueConst]), Value::Bool(true)));
    assert!(matches!(returned(vec![Instr::FalseConst]), Value::Bool(false)));
    assert!(matches!(
        returned(vec![Instr::NameConst(PoolIndex(4))]),
        Value::InternStr(StringType::Name, VMIndex(4))
    ));
    assert!(matches!(
        returned(vec![Instr::StringConst(PoolIndex(1))]),
        Value::InternStr(StringType::String, VMIndex(1))
    ));
    assert!(matches!(
        returned(vec![Instr::TweakDbIdConst(PoolIndex(2))]),
        Value::InternStr(StringType::TweakDbId, VMIndex(2))
    ));
    assert!(matches!(
        returned(vec![Instr::ResourceConst(PoolIndex(3))]),
        Value::InternStr(StringType::Resource, VMIndex(3))
    ));
}

#[test]
fn an_enum_constant_pushes_the_value_of_its_member() {
    let mut pool = default_pool();
    let member = define(&mut pool, "Second", NONE, AnyDefinition::EnumValue(-2));
    let main = function(
        &mut pool,
        "main;",
        NONE,
        vec![],
        vec![],
        vec![
            Instr::Return,
            Instr::EnumToI32(INT32, 4),
            Instr::EnumConst(NONE, member),
            Instr::Nop,
        ],
    );
    let other = function(
        &mut pool,
        "other;",
        NONE,
        vec![],
        vec![],
        vec![Instr::EnumConst(NONE, INT32)],
    );
    let mut vm = machine(&pool);
    assert_eq!(vm.call::<i32>(main, vec![]), Ok(-2));
    assert_eq!(vm.call_void(other, vec![]), Err(RuntimeError::InvalidBytecode));
}

#[test]
fn comparisons_push_a_boolean() {
    let eq = |a, b| returned(vec![Instr::Equals(INT32), a, b]);
    let ne = |a, b| returned(vec![Instr::NotEquals(INT32), a, b]);
    assert!(matches!(eq(Instr::I32One, Instr::I32One), Value::Bool(true)));
    assert!(matches!(eq(Instr::I32One, Instr::I32Zero), Value::Bool(false)));
    assert!(matches!(ne(Instr::I32One, Instr::I32Zero), Value::Bool(true)));
    assert!(matches!(ne(Instr::I32One, Instr::I32One), Value::Bool(false)));
    assert!(matches!(eq(Instr::Null, Instr::Null), Value::Bool(false)));
    assert!(matches!(ne(Instr::Null, Instr::Null), Value::Bool(true)));
    assert!(matches!(
        eq(Instr::StringConst(PoolIndex(0)), Instr::StringConst(PoolIndex(0))),
        Value::Bool(true)
    ));
    assert!(matches!(
        eq(Instr::StringConst(PoolIndex(0)), Instr::NameConst(PoolIndex(0))),
        Value::Bool(false)
    ));
}

#[test]
fn conversions_of_the_value_on_top() {
    assert!(matches!(returned(vec![Instr::RefToBool, Instr::Null]), Value::Bool(false)));
    assert!(matches!(returned(vec![Instr::WeakRefToBool, Instr::Null]), Value::Bool(false)));
    assert!(matches!(returned(vec![Instr::RefToBool, Instr::I32One]), Value::Bool(true)));
    assert!(matches!(
        returned(vec![Instr::I32ToEnum(INT32, 4), Instr::I32Const(-5)]),
        Value::EnumVal(-5)
    ));
    assert!(matches!(
        returned(vec![Instr::EnumToI32(INT32, 4), Instr::I32ToEnum(INT32, 4), Instr::I32Const(6)]),
        Value::I32(6)
    ));
    assert!(matches!(returned(vec![Instr::ToVariant(INT32), Instr::I32One]), Value::I32(1)));
    assert!(matches!(returned(vec![Instr::VariantIsDefined, Instr::Null]), Value::Bool(true)));
    assert!(matches!(returned(vec![Instr::VariantIsRef, Instr::Null]), Value::Bool(true)));
    assert!(matches!(returned(vec![Instr::VariantIsRef, Instr::I32One]), Value::Bool(false)));
    assert!(matches!(returned(vec![Instr::VariantIsArray, Instr::I32One]), Value::Bool(false)));
    // these two take no operand and do nothing
    assert!(matches!(answer(vec![Instr::RefToWeakRef, Instr::WeakRefToRef]), Ok(None)));
    assert!(matches!(
        answer(vec![Instr::I32One, Instr::RefToWeakRef, Instr::WeakRefToRef]),
        Ok(None)
    ));
    assert!(matches!(returned(vec![Instr::Deref(INT32), Instr::AsRef(INT32), Instr::I32One]), Value::I32(1)));
    assert_eq!(
        answer(vec![Instr::EnumToI32(INT32, 4), Instr::I32One]).map(|_| ()),
        Err(RuntimeError::InvalidBytecode)
    );
    assert_eq!(
        answer(vec![Instr::I32ToEnum(INT32, 4), Instr::Null]).map(|_| ()),
        Err(RuntimeError::InvalidBytecode)
    );
}

#[test]
fn a_variant_is_taken_out_only_as_its_type() {
    assert!(matches!(returned(vec![Instr::FromVariant(INT32), Instr::I32One]), Value::I32(1)));
    assert!(matches!(
        returned(vec![Instr::FromVariant(BOOL), Instr::I32One]),
        Value::Obj(Obj::Null)
    ));
    assert!(matches!(
        returned(vec![Instr::FromVariant(STRING), Instr::StringConst(PoolIndex(0))]),
        Value::InternStr(StringType::String, VMIndex(0))
    ));
    // a type that the pool lacks fails before the operand runs
    assert_eq!(
        answer(vec![Instr::FromVariant(PoolIndex(4000)), Instr::ObjectField(PoolIndex(1))])
            .map(|_| ()),
        Err(RuntimeError::InvalidBytecode)
    );
}

#[test]
fn as_ref_makes_a_reference_cell_once() {
    let mut pool = default_pool();
    let main = function(
        &mut pool,
        "main;",
        NONE,
        vec![],
        vec![],
        vec![Instr::Return, Instr::AsRef(INT32), Instr::AsRef(INT32), Instr::I32Const(3), Instr::Nop],
    );
    let mut vm = machine(&pool);
    let value = vm.call_with_callback(main, vec![], |value, _| value).unwrap().unwrap();
    let h = match value {
        Value::Pinned(h) => h,
        other => panic!("{:?}", other),
    };
    assert!(matches!(vm.arena.pinned(h), Some(Value::I32(3))));
    assert_eq!(vm.arena.cells.len(), 1);
}

struct Shapes {
    pool: Pool,
    point: PoolIndex,
    x: PoolIndex,
    y: PoolIndex,
    p: PoolIndex,
    q: PoolIndex,
}

fn shapes() -> Shapes {
    let mut pool = default_pool();
    let x = field(&mut pool, "x", INT32);
    let y = field(&mut pool, "y", INT32);
    let point = class(&mut pool, "Point", NONE, vec![x, y], vec![], true);
    let point_type = type_(&mut pool, "Point", Type::Class);
    let p = local(&mut pool, "p", point_type);
    let q = local(&mut pool, "q", point_type);
    Shapes { pool, point, x, y, p, q }
}

#[test]
fn an_aggregate_is_made_from_its_fields_in_order() {
    let mut s = shapes();
    let main = function(
        &mut s.pool,
        "main;",
        NONE,
        vec![],
        vec![],
        vec![
            Instr::Return,
            Instr::ToString(INT32),
            Instr::Construct(2, s.point),
            Instr::I32Const(3),
            Instr::I32Const(4),
            Instr::Nop,
        ],
    );
    let field_of = function(
        &mut s.pool,
        "field;",
        NONE,
        vec![],
        vec![],
        vec![
            Instr::Return,
            Instr::StructField(s.y),
            Instr::Construct(2, s.point),
            Instr::I32Const(3),
            Instr::I32Const(4),
            Instr::Nop,
        ],
    );
    let short = function(
        &mut s.pool,
        "short;",
        NONE,
        vec![],
        vec![],
        vec![Instr::Construct(2, s.point), Instr::Nop, Instr::Nop],
    );
    let mut vm = machine(&s.pool);
    assert_eq!(vm.call::<String>(main, vec![]), Ok("{x: 3, y: 4}".to_owned()));
    assert_eq!(vm.call::<i32>(field_of, vec![]), Ok(4));
    assert_eq!(vm.call_void(short, vec![]), Err(RuntimeError::InvalidBytecode));
}

#[test]
fn an_aggregate_in_a_local_is_copied_when_it_is_read() {
    let mut s = shapes();
    // q = p; q.x = 5; return p.x
    let main = function(
        &mut s.pool,
        "main;",
        NONE,
        vec![],
        vec![s.p, s.q],
        vec![
            Instr::Assign,
            Instr::Local(s.q),
            Instr::Local(s.p),
            Instr::Assign,
            Instr::StructField(s.x),
            Instr::Local(s.q),
            Instr::I32Const(5),
            Instr::Return,
            Instr::StructField(s.x),
            Instr::Local(s.p),
            Instr::Nop,
        ],
    );
    let mut vm = machine(&s.pool);
    assert_eq!(vm.call::<i32>(main, vec![]), Ok(0));
}

#[test]
fn a_field_of_an_aggregate_is_assigned() {
    let mut s = shapes();
    let assign_add = binary(&mut s.pool, "OperatorAssignAdd;OutInt32Int32;Int32", INT32, true);
    // p.x += 7 through an out parameter: the read of `p` copies, the copy is assigned
    let through_copy = function(
        &mut s.pool,
        "copy;",
        NONE,
        vec![],
        vec![s.p],
        vec![
            Instr::Return,
            call_static(assign_add),
            Instr::StructField(s.x),
            Instr::Local(s.p),
            Instr::I32Const(7),
            Instr::ParamEnd,
            Instr::Nop,
        ],
    );
    let mut vm = machine(&s.pool);
    assert_eq!(vm.call::<i32>(through_copy, vec![]), Ok(7));
}

#[test]
fn an_item_of_an_array_is_assigned() {
    let mut pool = default_pool();
    let array = type_(&mut pool, "array:Int32", Type::Array(INT32));
    let a = local(&mut pool, "a", array);
    let program = |at: Instr| {
        vec![
            Instr::ArrayResize(array),
            Instr::Local(a),
            Instr::I32Const(3),
            Instr::Assign,
            Instr::ArrayElement(array),
            Instr::Local(a),
            at,
            Instr::I32Const(8),
            Instr::Return,
            Instr::ToString(array),
            Instr::Local(a),
            Instr::Nop,
        ]
    };
    let first = function(&mut pool, "first;", NONE, vec![], vec![a], program(Instr::I32One));
    let second = function(&mut pool, "second;", NONE, vec![], vec![a], program(Instr::U64Const(2)));
    let outside = function(&mut pool, "outside;", NONE, vec![], vec![a], program(Instr::I32Const(3)));
    let below = function(&mut pool, "below;", NONE, vec![], vec![a], program(Instr::I32Const(-1)));
    let mut vm = machine(&pool);
    assert_eq!(vm.call::<String>(first, vec![]), Ok("[null, 8, null]".to_owned()));
    assert_eq!(vm.call::<String>(second, vec![]), Ok("[null, null, 8]".to_owned()));
    assert_eq!(vm.call_void(outside, vec![]), Err(RuntimeError::OutOfBounds));
    assert_eq!(vm.call_void(below, vec![]), Err(RuntimeError::OutOfBounds));
}

struct Animals {
    pool: Pool,
    animal: PoolIndex,
    dog: PoolIndex,
    cat: PoolIndex,
    legs: PoolIndex,
    pet: PoolIndex,
}

fn animals() -> Animals {
    let mut pool = default_pool();
    pool.strings.push(String::new());
    let legs = field(&mut pool, "legs", INT32);
    let name = field(&mut pool, "name", STRING);
    let animal = class(&mut pool, "Animal", NONE, vec![legs], vec![], false);
    let dog = class(&mut pool, "Dog", animal, vec![name], vec![], false);
    let cat = class(&mut pool, "Cat", animal, vec![], vec![], false);
    let animal_type = type_(&mut pool, "Animal", Type::Class);
    let animal_ref = type_(&mut pool, "ref:Animal", Type::Ref(animal_type));
    let pet = local(&mut pool, "pet", animal_ref);
    Animals { pool, animal, dog, cat, legs, pet }
}

#[test]
fn a_new_object_has_the_fields_of_its_class_and_bases() {
    let mut a = animals();
    let main = function(
        &mut a.pool,
        "main;",
        NONE,
        vec![],
        vec![],
        vec![Instr::Return, Instr::New(a.dog), Instr::Nop],
    );
    let mut vm = machine(&a.pool);
    let value = vm.call_with_callback(main, vec![], |value, _| value).unwrap().unwrap();
    let h = match value {
        Value::Obj(Obj::Instance(h)) => h,
        other => panic!("{:?}", other),
    };
    let instance = vm.arena.instance(h).unwrap();
    assert_eq!(instance.tag, VMIndex(a.dog.0));
    assert_eq!(instance.fields.len(), 2);
    assert!(matches!(instance.fields.get(a.legs), Some(Value::I32(0))));
    assert_eq!(
        value.to_string(&vm.arena, &a.pool, &StdFloats, 8).unwrap(),
        "{name: , legs: 0}"
    );
    assert!(value.has_type(&redscript_vm::metadata::TypeId::Ref(a.dog), &vm.arena));
    assert!(!value.has_type(&redscript_vm::metadata::TypeId::Ref(a.animal), &vm.arena));
}

#[test]
fn a_field_of_an_object_is_assigned_through_the_receiver() {
    let mut a = animals();
    // pet = new Dog; pet.legs = 4; return pet.legs
    let main = function(
        &mut a.pool,
        "main;",
        NONE,
        vec![],
        vec![a.pet],
        vec![
            Instr::Assign,
            Instr::Local(a.pet),
            Instr::New(a.dog),
            Instr::Assign,
            context(),
            Instr::Local(a.pet),
            Instr::ObjectField(a.legs),
            Instr::I32Const(4),
            Instr::Return,
            context(),
            Instr::Local(a.pet),
            Instr::ObjectField(a.legs),
            Instr::Nop,
        ],
    );
    let on_null = function(
        &mut a.pool,
        "null;",
        NONE,
        vec![],
        vec![a.pet],
        vec![
            Instr::Assign,
            context(),
            Instr::Local(a.pet),
            Instr::ObjectField(a.legs),
            Instr::I32Const(4),
        ],
    );
    let mut vm = machine(&a.pool);
    assert_eq!(vm.call::<i32>(main, vec![]), Ok(4));
    assert_eq!(vm.call_void(on_null, vec![]), Err(RuntimeError::NullPointer));
}

#[test]
fn a_dynamic_cast_keeps_only_objects_on_the_chain_of_the_class() {
    let mut a = animals();
    let mut cast = |made: PoolIndex, to: PoolIndex, name: &str| {
        function(
            &mut a.pool,
            name,
            NONE,
            vec![],
            vec![],
            vec![
                Instr::Return,
                Instr::RefToBool,
                Instr::DynamicCast(to, 0),
                Instr::New(made),
                Instr::Nop,
            ],
        )
    };
    let same = cast(a.dog, a.dog, "same;");
    let up = cast(a.dog, a.animal, "up;");
    let down = cast(a.animal, a.dog, "down;");
    let across = cast(a.cat, a.dog, "across;");
    let mut vm = machine(&a.pool);
    assert_eq!(vm.call::<bool>(same, vec![]), Ok(true));
    // the walk starts at the class asked for and goes up from there
    assert_eq!(vm.call::<bool>(up, vec![]), Ok(false));
    assert_eq!(vm.call::<bool>(down, vec![]), Ok(true));
    assert_eq!(vm.call::<bool>(across, vec![]), Ok(false));
}

#[test]
fn this_is_the_receiver() {
    let mut a = animals();
    let me = function(
        &mut a.pool,
        "Me;",
        a.animal,
        vec![],
        vec![],
        vec![Instr::Return, Instr::This, Instr::Nop],
    );
    add_method(&mut a.pool, a.animal, me);
    let me_name = a.pool.add_name("Me;").unwrap();
    let main = function(
        &mut a.pool,
        "main;",
        NONE,
        vec![],
        vec![a.pet],
        vec![
            Instr::Assign,
            Instr::Local(a.pet),
            Instr::New(a.cat),
            Instr::Return,
            Instr::Equals(INT32),
            Instr::Local(a.pet),
            context(),
            Instr::Local(a.pet),
            call_virtual(me_name),
            Instr::ParamEnd,
            Instr::Nop,
        ],
    );
    let mut vm = machine(&a.pool);
    let value = vm.call_with_callback(main, vec![], |value, _| value).unwrap();
    // objects have no equality, not even with themselves
    assert!(matches!(value, Some(Value::Bool(false))));
    assert_eq!(vm.arena.root.contexts.len(), 0);
}

#[test]
fn a_collection_step_pays_the_debt() {
    let mut pool = default_pool();
    let array = type_(&mut pool, "array:Int32", Type::Array(INT32));
    let a = local(&mut pool, "a", array);
    let main = function(
        &mut pool,
        "main;",
        NONE,
        vec![],
        vec![a],
        vec![Instr::Return, Instr::AsRef(INT32), Instr::I32One, Instr::Nop],
    );
    let mut vm = machine(&pool);
    vm.arena.allocate(Cell::Array(vec![Value::I32(0); 3000]));
    assert!(vm.arena.debt >= 64000);
    vm.call_void(main, vec![]).unwrap();
    assert!(vm.arena.debt < 64000);
    let _ = Handle(0);
}
