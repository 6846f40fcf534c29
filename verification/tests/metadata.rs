use redscript_vm::error::RuntimeError;
use redscript_vm::native::{default_pool, register_natives};
use redscript_vm::pool::{
    AnyDefinition, Class, ClassFlags, Definition, Field, Function, FunctionFlags, Instr, Local,
    Offset, Parameter, ParameterFlags, Pool, PoolIndex, Type, Visibility,
};
use redscript_vm::render::FloatFormat;
use redscript_vm::value::Value;
use redscript_vm::vm::VM;
use redscript_vm::frame::Frame;
use redscript_vm::metadata::{Metadata, TypeId};
use redscript_vm::pool::Location;
use redscript_vm::symbols::{find_named, Symbols};
use redscript_vm::value::VMIndex;
use redscript_vm::vtable::{build_vtable, collect_offsets, is_instance_of, positions};
use std::rc::Rc;

#[allow(dead_code)]
struct StdFloats;

impl FloatFormat for StdFloats {
    fn f32_text(&self, bits: u32) -> String {
        f32::from_bits(bits).to_string()
    }

    fn f64_text(&self, bits: u64) -> String {
        f64::from_bits(bits).to_string()
    }
}

const NONE: PoolIndex = PoolIndex(0);
const INT32: PoolIndex = PoolIndex(3);
const STRING: PoolIndex = PoolIndex(11);
const BOOL: PoolIndex = PoolIndex(12);

#[allow(dead_code)]
fn define(pool: &mut Pool, name: &str, parent: PoolIndex, value: AnyDefinition) -> PoolIndex {
    let name = pool.add_name(name).unwrap();
    pool.add_definition(Definition { name, parent, value }).unwrap()
}

#[allow(dead_code)]
fn parameter(pool: &mut Pool, name: &str, type_: PoolIndex, is_out: bool) -> PoolIndex {
    define(
        pool,
        name,
        NONE,
        AnyDefinition::Parameter(Parameter { type_, flags: ParameterFlags { is_out } }),
    )
}

#[allow(dead_code)]
fn local(pool: &mut Pool, name: &str, type_: PoolIndex) -> PoolIndex {
    define(pool, name, NONE, AnyDefinition::Local(Local { type_ }))
}

#[allow(dead_code)]
fn field(pool: &mut Pool, name: &str, type_: PoolIndex) -> PoolIndex {
    define(pool, name, NONE, AnyDefinition::Field(Field { type_ }))
}

#[allow(dead_code)]
fn type_(pool: &mut Pool, name: &str, shape: Type) -> PoolIndex {
    define(pool, name, NONE, AnyDefinition::Type(shape))
}

#[allow(dead_code)]
fn native(pool: &mut Pool, name: &str, parameters: Vec<PoolIndex>) -> PoolIndex {
    define(
        pool,
        name,
        NONE,
        AnyDefinition::Function(Function {
            visibility: Visibility::Public,
            parameters,
            locals: vec![],
            code: vec![],
            flags: FunctionFlags { is_native: true, is_final: true, is_static: true },
        }),
    )
}

#[allow(dead_code)]
fn code(instrs: Vec<Instr>) -> Vec<(u16, Instr)> {
    instrs.into_iter().enumerate().map(|(i, instr)| ((i * 10) as u16, instr)).collect()
}

#[allow(dead_code)]
fn function(
    pool: &mut Pool,
    name: &str,
    parent: PoolIndex,
    parameters: Vec<PoolIndex>,
    locals: Vec<PoolIndex>,
    instrs: Vec<Instr>,
) -> PoolIndex {
    define(
        pool,
        name,
        parent,
        AnyDefinition::Function(Function {
            visibility: Visibility::Public,
            parameters,
            locals,
            code: code(instrs),
            flags: FunctionFlags {
                is_native: false,
                is_final: false,
                is_static: parent == NONE,
            },
        }),
    )
}

#[allow(dead_code)]
fn class(
    pool: &mut Pool,
    name: &str,
    base: PoolIndex,
    fields: Vec<PoolIndex>,
    functions: Vec<PoolIndex>,
    is_struct: bool,
) -> PoolIndex {
    define(
        pool,
        name,
        NONE,
        AnyDefinition::Class(Class { base, fields, functions, flags: ClassFlags { is_struct } }),
    )
}

#[allow(dead_code)]
fn add_method(pool: &mut Pool, class: PoolIndex, method: PoolIndex) {
    if let AnyDefinition::Class(c) = &mut pool.definitions[class.0 as usize].value {
        c.functions.push(method);
    }
}

#[allow(dead_code)]
fn call_static(idx: PoolIndex) -> Instr {
    Instr::InvokeStatic(Offset { value: 0 }, 0, idx, 0)
}

#[allow(dead_code)]
fn call_virtual(name: PoolIndex) -> Instr {
    Instr::InvokeVirtual(Offset { value: 0 }, 0, name, 0)
}

#[allow(dead_code)]
fn context() -> Instr {
    Instr::Context(Offset { value: 0 })
}

/// The offset that leads from the instruction at place `from` to the one at
/// place `to`.
#[allow(dead_code)]
fn jump(from: i16, to: i16) -> Offset {
    Offset { value: (to - from) * 10 }
}

#[allow(dead_code)]
fn machine(pool: &Pool) -> VM<'_> {
    let mut vm = VM::new(pool, Box::new(StdFloats)).unwrap();
    register_natives(&mut vm, |_text: String| {});
    vm
}

#[allow(dead_code)]
fn binary(pool: &mut Pool, name: &str, type_: PoolIndex, out: bool) -> PoolIndex {
    let a = parameter(pool, "a", type_, out);
    let b = parameter(pool, "b", type_, false);
    native(pool, name, vec![a, b])
}


#[test]
fn roots_are_found_by_name() {
    let mut pool = default_pool();
    let first = function(&mut pool, "twice;", NONE, vec![], vec![], vec![]);
    let thing = class(&mut pool, "Thing", NONE, vec![], vec![], false);
    let method = function(&mut pool, "method;", thing, vec![], vec![], vec![]);
    let second = function(&mut pool, "twice;", NONE, vec![], vec![], vec![]);
    let color = define(
        &mut pool,
        "Color",
        NONE,
        AnyDefinition::Enum(redscript_vm::pool::Enum { members: vec![] }),
    );
    let meta = Metadata::new(&pool).unwrap();
    // the later of two roots of one name is the one that is found
    assert_ne!(first, second);
    assert_eq!(meta.get_function("twice;"), Some(second));
    assert_eq!(meta.get_class("Thing"), Some(thing));
    assert_eq!(meta.get_class("thing"), None);
    assert_eq!(meta.get_function("Thing"), None);
    // a method is no root
    assert_eq!(meta.get_function("method;"), None);
    assert!(pool.function(method).is_some());
    let symbols = Symbols::new(&pool).unwrap();
    assert_eq!(find_named(&symbols.enums, &"Color".to_owned()), Some(color));
    assert_eq!(symbols.functions.len(), 2);
    assert_eq!(symbols.classes.len(), 1);
}

#[test]
fn a_root_without_a_name_makes_the_pool_unusable() {
    let mut pool = default_pool();
    pool.add_definition(Definition {
        name: PoolIndex(5000),
        parent: NONE,
        value: AnyDefinition::Class(Class {
            base: NONE,
            fields: vec![],
            functions: vec![],
            flags: ClassFlags { is_struct: false },
        }),
    });
    assert!(Symbols::new(&pool).is_none());
    assert!(Metadata::new(&pool).is_none());
}

#[test]
fn types_resolve_to_what_they_name() {
    let mut pool = default_pool();
    let thing = class(&mut pool, "Thing", NONE, vec![], vec![], false);
    let color = define(
        &mut pool,
        "Color",
        NONE,
        AnyDefinition::Enum(redscript_vm::pool::Enum { members: vec![] }),
    );
    let thing_type = type_(&mut pool, "Thing", Type::Class);
    let color_type = type_(&mut pool, "Color", Type::Class);
    let thing_ref = type_(&mut pool, "ref:Thing", Type::Ref(thing_type));
    let thing_weak = type_(&mut pool, "wref:Thing", Type::WeakRef(thing_type));
    let numbers = type_(&mut pool, "array:Int32", Type::Array(INT32));
    let nested = type_(&mut pool, "array:array:Int32", Type::Array(numbers));
    let fixed = type_(&mut pool, "[4]Int32", Type::StaticArray(INT32, 4));
    let script = type_(&mut pool, "script_ref:Int32", Type::ScriptRef(INT32));
    let meta = Metadata::new(&pool).unwrap();
    assert_eq!(meta.get_type(PoolIndex(1)), Some(&TypeId::I8));
    assert_eq!(meta.get_type(PoolIndex(2)), Some(&TypeId::I16));
    assert_eq!(meta.get_type(INT32), Some(&TypeId::I32));
    assert_eq!(meta.get_type(PoolIndex(4)), Some(&TypeId::I64));
    assert_eq!(meta.get_type(PoolIndex(5)), Some(&TypeId::U8));
    assert_eq!(meta.get_type(PoolIndex(6)), Some(&TypeId::U16));
    assert_eq!(meta.get_type(PoolIndex(7)), Some(&TypeId::U32));
    assert_eq!(meta.get_type(PoolIndex(8)), Some(&TypeId::U64));
    assert_eq!(meta.get_type(PoolIndex(9)), Some(&TypeId::F32));
    assert_eq!(meta.get_type(PoolIndex(10)), Some(&TypeId::F64));
    assert_eq!(meta.get_type(STRING), Some(&TypeId::String));
    assert_eq!(meta.get_type(BOOL), Some(&TypeId::Bool));
    assert_eq!(meta.get_type(PoolIndex(13)), Some(&TypeId::CName));
    assert_eq!(meta.get_type(PoolIndex(14)), Some(&TypeId::TweakDbId));
    assert_eq!(meta.get_type(PoolIndex(15)), Some(&TypeId::ResRef));
    assert_eq!(meta.get_type(thing_type), Some(&TypeId::Struct(thing)));
    assert_eq!(meta.get_type(color_type), Some(&TypeId::Enum(color)));
    assert_eq!(meta.get_type(thing_ref), Some(&TypeId::Ref(thing)));
    assert_eq!(meta.get_type(thing_weak), Some(&TypeId::WRef(thing)));
    assert_eq!(meta.get_type(numbers), Some(&TypeId::Array(Box::new(TypeId::I32))));
    assert_eq!(
        meta.get_type(nested),
        Some(&TypeId::Array(Box::new(TypeId::Array(Box::new(TypeId::I32)))))
    );
    assert_eq!(meta.get_type(fixed), Some(&TypeId::StaticArray(Box::new(TypeId::I32), 4)));
    assert_eq!(meta.get_type(script), Some(&TypeId::ScriptRef(Box::new(TypeId::I32))));
    // position zero stands for no type, and a class is no type
    assert_eq!(meta.get_type(NONE), None);
    assert_eq!(meta.get_type(thing), None);
}

#[test]
fn the_other_primitive_names_resolve_too() {
    let mut pool = default_pool();
    let variant = type_(&mut pool, "Variant", Type::Prim);
    let node = type_(&mut pool, "NodeRef", Type::Prim);
    let loc = type_(&mut pool, "LocalizationString", Type::Prim);
    let cruid = type_(&mut pool, "CRUID", Type::Prim);
    let cruid_ref = type_(&mut pool, "CRUIDRef", Type::Prim);
    let token = type_(&mut pool, "redResourceReferenceScriptToken", Type::Prim);
    let meta = Metadata::new(&pool).unwrap();
    assert_eq!(meta.get_type(variant), Some(&TypeId::Variant));
    assert_eq!(meta.get_type(node), Some(&TypeId::NodeRef));
    assert_eq!(meta.get_type(loc), Some(&TypeId::String));
    assert_eq!(meta.get_type(cruid), Some(&TypeId::CRUID));
    assert_eq!(meta.get_type(cruid_ref), Some(&TypeId::CRUID));
    assert_eq!(meta.get_type(token), Some(&TypeId::String));
}

#[test]
fn a_type_that_names_nothing_or_itself_does_not_resolve() {
    for shape in [Type::Class, Type::Ref(PoolIndex(3)), Type::Array(PoolIndex(900))] {
        let mut pool = default_pool();
        type_(&mut pool, "Nothing", shape);
        assert!(Metadata::new(&pool).is_none());
    }
    let mut pool = default_pool();
    let own = PoolIndex(pool.definitions.len() as u32);
    type_(&mut pool, "array:self", Type::Array(own));
    assert!(Metadata::new(&pool).is_none());
    let symbols = Symbols::new(&pool).unwrap();
    assert_eq!(TypeId::from(INT32, &pool, &symbols, 1), Some(TypeId::I32));
    assert_eq!(TypeId::from(INT32, &pool, &symbols, 0), None);
}

struct Family {
    pool: Pool,
    base: PoolIndex,
    middle: PoolIndex,
    leaf: PoolIndex,
    speak: PoolIndex,
    walk: PoolIndex,
    base_speak: PoolIndex,
    leaf_speak: PoolIndex,
    middle_walk: PoolIndex,
}

fn family() -> Family {
    let mut pool = default_pool();
    let base = class(&mut pool, "Base", NONE, vec![], vec![], false);
    let middle = class(&mut pool, "Middle", base, vec![], vec![], false);
    let leaf = class(&mut pool, "Leaf", middle, vec![], vec![], false);
    let base_speak = function(&mut pool, "Speak;", base, vec![], vec![], vec![]);
    let leaf_speak = function(&mut pool, "Speak;", leaf, vec![], vec![], vec![]);
    let middle_walk = function(&mut pool, "Walk;", middle, vec![], vec![], vec![]);
    let helper = define(
        &mut pool,
        "Helper;",
        base,
        AnyDefinition::Function(Function {
            visibility: Visibility::Public,
            parameters: vec![],
            locals: vec![],
            code: vec![],
            flags: FunctionFlags { is_native: false, is_final: true, is_static: false },
        }),
    );
    let make = define(
        &mut pool,
        "Make;",
        base,
        AnyDefinition::Function(Function {
            visibility: Visibility::Public,
            parameters: vec![],
            locals: vec![],
            code: vec![],
            flags: FunctionFlags { is_native: false, is_final: false, is_static: true },
        }),
    );
    add_method(&mut pool, base, base_speak);
    add_method(&mut pool, base, helper);
    add_method(&mut pool, base, make);
    add_method(&mut pool, middle, middle_walk);
    add_method(&mut pool, leaf, leaf_speak);
    let speak = pool.add_name("Speak;").unwrap();
    let walk = pool.add_name("Walk;").unwrap();
    Family { pool, base, middle, leaf, speak, walk, base_speak, leaf_speak, middle_walk }
}

#[test]
fn the_table_of_a_class_has_the_most_derived_method_of_each_name() {
    let f = family();
    let leaf = build_vtable(&f.pool, f.leaf).unwrap();
    assert_eq!(leaf.len(), 2);
    assert_eq!(leaf.get(f.speak), Some(&VMIndex(f.leaf_speak.0)));
    assert_eq!(leaf.get(f.walk), Some(&VMIndex(f.middle_walk.0)));
    let middle = build_vtable(&f.pool, f.middle).unwrap();
    assert_eq!(middle.get(f.speak), Some(&VMIndex(f.base_speak.0)));
    assert_eq!(middle.get(f.walk), Some(&VMIndex(f.middle_walk.0)));
    let base = build_vtable(&f.pool, f.base).unwrap();
    assert_eq!(base.len(), 1);
    assert_eq!(base.get(f.speak), Some(&VMIndex(f.base_speak.0)));
    assert_eq!(base.get(f.walk), None);
    // final and static methods are in no table
    let helper = f.pool.names.iter().position(|n| n == "Helper;").unwrap() as u32;
    assert_eq!(base.get(PoolIndex(helper)), None);
    assert!(build_vtable(&f.pool, NONE).unwrap().len() == 0);
    assert!(build_vtable(&f.pool, INT32).is_none());
}

#[test]
fn the_table_of_a_class_is_worked_out_once() {
    let f = family();
    let mut meta = Metadata::new(&f.pool).unwrap();
    let first = meta.get_vtable(f.leaf).unwrap();
    let second = meta.get_vtable(f.leaf).unwrap();
    assert!(Rc::ptr_eq(&first, &second));
    assert_eq!(first.get(f.speak), Some(&VMIndex(f.leaf_speak.0)));
    assert!(meta.get_vtable(INT32).is_none());
    assert!(meta.get_vtable(NONE).is_none());
}

#[test]
fn a_class_lies_on_the_chain_of_its_descendants() {
    let f = family();
    for c in [f.base, f.middle, f.leaf] {
        assert!(is_instance_of(&f.pool, c, c));
        assert!(!is_instance_of(&f.pool, c, NONE));
        assert!(!is_instance_of(&f.pool, c, INT32));
    }
    assert!(is_instance_of(&f.pool, f.base, f.leaf));
    assert!(is_instance_of(&f.pool, f.middle, f.leaf));
    assert!(is_instance_of(&f.pool, f.base, f.middle));
    assert!(!is_instance_of(&f.pool, f.leaf, f.base));
    assert!(!is_instance_of(&f.pool, f.leaf, f.middle));
    assert!(!is_instance_of(&f.pool, NONE, f.leaf));
}

#[test]
fn a_chain_of_classes_that_bites_its_tail_ends_the_walk() {
    let mut pool = default_pool();
    let a = class(&mut pool, "A", NONE, vec![], vec![], false);
    let b = class(&mut pool, "B", a, vec![], vec![], false);
    if let AnyDefinition::Class(c) = &mut pool.definitions[a.0 as usize].value {
        c.base = b;
    }
    assert!(is_instance_of(&pool, a, b));
    assert!(is_instance_of(&pool, b, a));
    assert!(!is_instance_of(&pool, INT32, a));
    assert!(build_vtable(&pool, a).is_none());
}

fn sample() -> Function {
    Function {
        visibility: Visibility::Public,
        parameters: vec![],
        locals: vec![],
        code: vec![
            (0, Instr::I32One),
            (1, Instr::I32Const(5)),
            (6, Instr::Jump(Offset { value: -6 })),
            (9, Instr::Nop),
        ],
        flags: FunctionFlags { is_native: false, is_final: false, is_static: true },
    }
}

#[test]
fn the_byte_positions_of_instructions_are_collected() {
    let function = sample();
    assert_eq!(collect_offsets(&function), Some(vec![0, 1, 6, 9]));
    let mut broken = sample();
    broken.code[2].0 = 1;
    assert_eq!(collect_offsets(&broken), None);
    broken.code[2].0 = 0;
    assert_eq!(collect_offsets(&broken), None);
    let mut empty = sample();
    empty.code.clear();
    assert_eq!(collect_offsets(&empty), Some(vec![]));
}

#[test]
fn the_byte_positions_of_a_function_are_collected_once() {
    let mut pool = default_pool();
    let main = function(&mut pool, "main;", NONE, vec![], vec![], vec![Instr::Nop, Instr::Nop]);
    let mut meta = Metadata::new(&pool).unwrap();
    let first = meta.get_code_offsets(main).unwrap();
    let second = meta.get_code_offsets(main).unwrap();
    assert!(Rc::ptr_eq(&first, &second));
    assert_eq!(*first, vec![0, 10]);
    assert!(meta.get_code_offsets(INT32).is_none());
}

#[test]
fn a_frame_finds_instructions_by_their_byte_position() {
    let function = sample();
    let offsets = Rc::new(collect_offsets(&function).unwrap());
    let mut frame = Frame::new(&function, offsets, 3);
    assert_eq!(frame.ip, 0);
    assert_eq!(frame.sp, 3);
    assert_eq!(frame.location(), Some(Location::new(0)));
    assert_eq!(frame.current_instr(), Some(Instr::I32One));
    assert_eq!(frame.next_instr(), Some(Instr::I32One));
    assert_eq!(frame.current_instr(), Some(Instr::I32Const(5)));
    assert_eq!(frame.location(), Some(Location::new(1)));
    for (at, place) in [(9, 3), (0, 0), (6, 2), (1, 1)] {
        assert!(frame.seek(Location::new(at)));
        assert_eq!(frame.ip, place);
    }
    for at in [2, 5, 7, 10, u16::MAX] {
        assert!(!frame.seek(Location::new(at)));
        assert_eq!(frame.ip, 1);
    }
    frame.skip(2);
    assert_eq!(frame.ip, 3);
    assert_eq!(frame.next_instr(), Some(Instr::Nop));
    assert_eq!(frame.ip, 4);
    assert_eq!(frame.next_instr(), None);
    assert_eq!(frame.current_instr(), None);
    assert_eq!(frame.location(), None);
    assert_eq!(frame.ip, 4);
    frame.skip(usize::MAX);
    assert_eq!(frame.ip, 4);
}

#[test]
fn a_function_whose_positions_do_not_increase_cannot_run() {
    let mut pool = default_pool();
    let main = define(
        &mut pool,
        "main;",
        NONE,
        AnyDefinition::Function(Function {
            visibility: Visibility::Public,
            parameters: vec![],
            locals: vec![],
            code: vec![(4, Instr::Nop), (4, Instr::Nop)],
            flags: FunctionFlags { is_native: false, is_final: false, is_static: true },
        }),
    );
    let mut vm = machine(&pool);
    assert_eq!(vm.call_void(main, vec![]), Err(RuntimeError::InvalidBytecode));
    let _ = Value::I32(0);
}

#[test]
fn the_default_pool_holds_the_primitive_types() {
    let pool = default_pool();
    let names = [
        "", "Int8", "Int16", "Int32", "Int64", "Uint8", "Uint16", "Uint32", "Uint64", "Float",
        "Double", "String", "Bool", "CName", "TweakDBID", "ResRef",
    ];
    assert_eq!(pool.definitions.len(), names.len());
    for (i, name) in names.iter().enumerate() {
        let def = &pool.definitions[i];
        assert!(matches!(def.value, AnyDefinition::Type(Type::Prim)));
        assert_eq!(def.parent, NONE);
        assert_eq!(pool.name(def.name).map(|s| s.as_str()), Some(*name));
        if i > 0 {
            assert_eq!(pool.def_name(PoolIndex(i as u32)).map(|s| s.as_str()), Some(*name));
            assert_eq!(pool.type_(PoolIndex(i as u32)), Some(Type::Prim));
        }
    }
    assert!(pool.strings.is_empty() && pool.tweakdb_ids.is_empty() && pool.resources.is_empty());
    assert!(pool.definition(NONE).is_none());
    assert!(pool.class(INT32).is_none());
    assert!(Metadata::new(&pool).is_some());
}

#[test]
fn instructions_stand_one_behind_the_other() {
    assert_eq!(positions(&vec![]), Some(vec![]));
    assert_eq!(positions(&vec![7]), Some(vec![0]));
    assert_eq!(positions(&vec![1, 5, 3, 9]), Some(vec![0, 1, 6, 9]));
    // the size of the last instruction is of no account
    assert_eq!(positions(&vec![u16::MAX, u16::MAX]), Some(vec![0, u16::MAX]));
    assert_eq!(positions(&vec![u16::MAX, 1, 1]), None);
    assert_eq!(positions(&vec![0x8000, 0x7fff, 2]), Some(vec![0, 0x8000, 0xffff]));
    assert_eq!(positions(&vec![0x8000, 0x8000, 2]), None);
}
