use redscript_vm::error::RuntimeError;
use redscript_vm::native::{default_pool, register_natives};
use redscript_vm::pool::{
    AnyDefinition, Class, ClassFlags, Definition, Field, Function, FunctionFlags, Instr, Local,
    Offset, Parameter, ParameterFlags, Pool, PoolIndex, Type, Visibility,
};
use redscript_vm::render::FloatFormat;
use redscript_vm::value::Value;
use redscript_vm::vm::VM;
use redscript_vm::arena::{Arena, Cell};
use redscript_vm::index_map::IndexMap;
use redscript_vm::interop::IntoVM;
use redscript_vm::value::{Handle, Instance, Obj, VMIndex};
use std::rc::Rc;

#[allow(dead_code)]
struct StdFloats;

impl FloatFormat for StdFloats {
    fn f32_text(&self, bits: u32) -> String {
        f32::from_bits(bits).to_string()
    }

    fn f64_text(&self, bits: u64) -> String {
        f64::from_bits(bits).to_string()
    }
}

const NONE: PoolIndex = PoolIndex(0);
const INT32: PoolIndex = PoolIndex(3);
const STRING: PoolIndex = PoolIndex(11);
const BOOL: PoolIndex = PoolIndex(12);

#[allow(dead_code)]
fn define(pool: &mut Pool, name: &str, parent: PoolIndex, value: AnyDefinition) -> PoolIndex {
    let name = pool.add_name(name).unwrap();
    pool.add_definition(Definition { name, parent, value }).unwrap()
}

#[allow(dead_code)]
fn parameter(pool: &mut Pool, name: &str, type_: PoolIndex, is_out: bool) -> PoolIndex {
    define(
        pool,
        name,
        NONE,
        AnyDefinition::Parameter(Parameter { type_, flags: ParameterFlags { is_out } }),
    )
}

#[allow(dead_code)]
fn local(pool: &mut Pool, name: &str, type_: PoolIndex) -> PoolIndex {
    define(pool, name, NONE, AnyDefinition::Local(Local { type_ }))
}

#[allow(dead_code)]
fn field(pool: &mut Pool, name: &str, type_: PoolIndex) -> PoolIndex {
    define(pool, name, NONE, AnyDefinition::Field(Field { type_ }))
}

#[allow(dead_code)]
fn type_(pool: &mut Pool, name: &str, shape: Type) -> PoolIndex {
    define(pool, name, NONE, AnyDefinition::Type(shape))
}

#[allow(dead_code)]
fn native(pool: &mut Pool, name: &str, parameters: Vec<PoolIndex>) -> PoolIndex {
    define(
        pool,
        name,
        NONE,
        AnyDefinition::Function(Function {
            visibility: Visibility::Public,
            parameters,
            locals: vec![],
            code: vec![],
            flags: FunctionFlags { is_native: true, is_final: true, is_static: true },
        }),
    )
}

#[allow(dead_code)]
fn code(instrs: Vec<Instr>) -> Vec<(u16, Instr)> {
    instrs.into_iter().enumerate().map(|(i, instr)| ((i * 10) as u16, instr)).collect()
}

#[allow(dead_code)]
fn function(
    pool: &mut Pool,
    name: &str,
    parent: PoolIndex,
    parameters: Vec<PoolIndex>,
    locals: Vec<PoolIndex>,
    instrs: Vec<Instr>,
) -> PoolIndex {
    define(
        pool,
        name,
        parent,
        AnyDefinition::Function(Function {
            visibility: Visibility::Public,
            parameters,
            locals,
            code: code(instrs),
            flags: FunctionFlags {
                is_native: false,
                is_final: false,
                is_static: parent == NONE,
            },
        }),
    )
}

#[allow(dead_code)]
fn class(
    pool: &mut Pool,
    name: &str,
    base: PoolIndex,
    fields: Vec<PoolIndex>,
    functions: Vec<PoolIndex>,
    is_struct: bool,
) -> PoolIndex {
    define(
        pool,
        name,
        NONE,
        AnyDefinition::Class(Class { base, fields, functions, flags: ClassFlags { is_struct } }),
    )
}

#[allow(dead_code)]
fn add_method(pool: &mut Pool, class: PoolIndex, method: PoolIndex) {
    if let AnyDefinition::Class(c) = &mut pool.definitions[class.0 as usize].value {
        c.functions.push(method);
    }
}

#[allow(dead_code)]
fn call_static(idx: PoolIndex) -> Instr {
    Instr::InvokeStatic(Offset { value: 0 }, 0, idx, 0)
}

#[allow(dead_code)]
fn call_virtual(name: PoolIndex) -> Instr {
    Instr::InvokeVirtual(Offset { value: 0 }, 0, name, 0)
}

#[allow(dead_code)]
fn context() -> Instr {
    Instr::Context(Offset { value: 0 })
}

/// The offset that leads from the instruction at place `from` to the one at
/// place `to`.
#[allow(dead_code)]
fn jump(from: i16, to: i16) -> Offset {
    Offset { value: (to - from) * 10 }
}

#[allow(dead_code)]
fn machine(pool: &Pool) -> VM<'_> {
    let mut vm = VM::new(pool, Box::new(StdFloats)).unwrap();
    register_natives(&mut vm, |_text: String| {});
    vm
}

#[allow(dead_code)]
fn binary(pool: &mut Pool, name: &str, type_: PoolIndex, out: bool) -> PoolIndex {
    let a = parameter(pool, "a", type_, out);
    let b = parameter(pool, "b", type_, false);
    native(pool, name, vec![a, b])
}


fn is_free(arena: &Arena, h: Handle) -> bool {
    matches!(arena.cells[h.0], Cell::Free)
}

fn handle(v: Value) -> Handle {
    match v {
        Value::BoxedStruct(h) | Value::Str(h) | Value::Array(h) | Value::Pinned(h) => h,
        Value::Obj(Obj::Instance(h)) => h,
        other => panic!("{:?}", other),
    }
}

#[test]
fn cells_that_nothing_leads_to_are_freed_and_used_again() {
    let mut arena = Arena::new();
    let a = arena.allocate(Cell::Array(vec![]));
    let b = arena.allocate(Cell::Pinned(Value::I32(1)));
    let c = arena.allocate(Cell::Str("c".to_owned()));
    arena.push(Value::Pinned(b));
    arena.collect_debt();
    assert_eq!(arena.debt, 0);
    assert_eq!(arena.cells.len(), 3);
    assert!(is_free(&arena, a));
    assert!(!is_free(&arena, b));
    assert!(is_free(&arena, c));
    assert_eq!(arena.free, vec![0, 2]);
    // the cell that was freed last is the first to be used again
    assert_eq!(arena.allocate(Cell::Str("new".to_owned())), c);
    assert_eq!(arena.allocate(Cell::Array(vec![])), a);
    assert_eq!(arena.allocate(Cell::Array(vec![])), Handle(3));
    assert_eq!(arena.string(c).map(|s| s.as_str()), Some("new"));
    assert!(matches!(arena.pinned(b), Some(Value::I32(1))));
    // what was freed is not freed again
    arena.collect_debt();
    assert_eq!(arena.free, vec![0, 2, 3]);
}

#[test]
fn what_the_roots_lead_to_is_kept() {
    let mut arena = Arena::new();
    let text = "deep".to_owned().into_vm(&mut arena);
    let mut fields = IndexMap::new();
    fields.put(PoolIndex(1), text);
    let inner = Value::BoxedStruct(arena.allocate(Cell::Struct(fields)));
    let list = Value::Array(arena.allocate(Cell::Array(vec![Value::I32(7), inner])));
    let cell = Value::Pinned(arena.allocate(Cell::Pinned(list)));
    let lost = "lost".to_owned().into_vm(&mut arena);
    arena.push(Value::I32(0));
    arena.push(cell);
    arena.collect_debt();
    for kept in [text, inner, list, cell] {
        assert!(!is_free(&arena, handle(kept)));
    }
    assert!(is_free(&arena, handle(lost)));
    assert_eq!(arena.string(handle(text)).map(|s| s.as_str()), Some("deep"));
    assert_eq!(arena.array(handle(list)).map(|items| items.len()), Some(2));
    // once the root is gone, so is all it led to
    arena.pop();
    arena.collect_debt();
    for gone in [text, inner, list, cell] {
        assert!(is_free(&arena, handle(gone)));
    }
}

#[test]
fn locals_and_receivers_are_roots() {
    let mut arena = Arena::new();
    let in_local = "local".to_owned().into_vm(&mut arena);
    let field = "field".to_owned().into_vm(&mut arena);
    let mut fields = IndexMap::new();
    fields.put(PoolIndex(4), field);
    let object = arena.allocate(Cell::Instance(Instance {
        tag: VMIndex(1),
        fields,
        vtable: Rc::new(IndexMap::new()),
    }));
    let mut locals = IndexMap::new();
    locals.put(PoolIndex(9), Value::Bool(true));
    locals.put(PoolIndex(8), in_local);
    arena.root.frames.push(IndexMap::new());
    arena.root.frames.push(locals);
    arena.root.contexts.push(Obj::Null);
    arena.root.contexts.push(Obj::Instance(object));
    arena.collect_debt();
    assert!(!is_free(&arena, handle(in_local)));
    assert!(!is_free(&arena, object));
    assert!(!is_free(&arena, handle(field)));
    arena.root.frames.pop();
    arena.root.contexts.pop();
    arena.collect_debt();
    assert!(is_free(&arena, handle(in_local)));
    assert!(is_free(&arena, object));
    assert!(is_free(&arena, handle(field)));
}

#[test]
fn cells_that_lead_to_each_other_are_freed_together() {
    let mut arena = Arena::new();
    let a = arena.allocate(Cell::Array(vec![]));
    let b = arena.allocate(Cell::Array(vec![Value::Array(a)]));
    arena.array_mut(a).unwrap().push(Value::Array(b));
    arena.array_mut(a).unwrap().push(Value::Array(a));
    arena.push(Value::Array(b));
    arena.collect_debt();
    assert!(!is_free(&arena, a));
    assert!(!is_free(&arena, b));
    arena.pop();
    arena.collect_debt();
    assert!(is_free(&arena, a));
    assert!(is_free(&arena, b));
}

#[test]
fn a_handle_that_points_at_nothing_does_no_harm() {
    let mut arena = Arena::new();
    let a = arena.allocate(Cell::Array(vec![Value::Str(Handle(77)), Value::Pinned(Handle(usize::MAX))]));
    arena.push(Value::Array(a));
    arena.push(Value::Array(Handle(5)));
    arena.collect_debt();
    assert!(!is_free(&arena, a));
    assert_eq!(arena.cells.len(), 1);
    assert!(arena.free.is_empty());
}

#[test]
fn a_long_run_uses_cells_again() {
    let mut pool = default_pool();
    let less = binary(&mut pool, "OperatorLess;Int32Int32;Bool", INT32, false);
    let assign_add = binary(&mut pool, "OperatorAssignAdd;OutInt32Int32;Int32", INT32, true);
    let n = parameter(&mut pool, "n", INT32, false);
    let i = local(&mut pool, "i", INT32);
    let last = local(&mut pool, "last", STRING);
    // while i < n { last = ToString(i); i += 1 } return last
    let instrs = vec![
        /* 0 */ Instr::JumpIfFalse(jump(0, 14)),
        /* 1 */ call_static(less),
        /* 2 */ Instr::Local(i),
        /* 3 */ Instr::Param(n),
        /* 4 */ Instr::ParamEnd,
        /* 5 */ Instr::Assign,
        /* 6 */ Instr::Local(last),
        /* 7 */ Instr::ToString(INT32),
        /* 8 */ Instr::Local(i),
        /* 9 */ call_static(assign_add),
        /* 10 */ Instr::Local(i),
        /* 11 */ Instr::I32One,
        /* 12 */ Instr::ParamEnd,
        /* 13 */ Instr::Jump(jump(13, 0)),
        /* 14 */ Instr::Return,
        /* 15 */ Instr::Local(last),
        /* 16 */ Instr::Nop,
    ];
    pool.strings.push(String::new());
    let main = function(&mut pool, "main;", NONE, vec![n], vec![i, last], instrs);
    let mut vm = machine(&pool);
    assert_eq!(vm.call::<String>(main, vec![Value::I32(20000)]), Ok("19999".to_owned()));
    assert!(vm.arena.cells.len() < 4000, "{}", vm.arena.cells.len());
    assert!(vm.arena.debt <= 64000 + 100);
}
