use redscript_vm::error::RuntimeError;
use redscript_vm::native::{default_pool, register_natives};
use redscript_vm::pool::{
    AnyDefinition, Class, ClassFlags, Definition, Field, Function, FunctionFlags, Instr, Local,
    Offset, Parameter, ParameterFlags, Pool, PoolIndex, Type, Visibility,
};
use redscript_vm::render::FloatFormat;
use redscript_vm::value::Value;
use redscript_vm::vm::VM;
use redscript_vm::arena::Arena;
use redscript_vm::interop::{pop_argument, Double, Float, IntoVM, IntoVMFunction, Ret, RetOut};
use redscript_vm::metadata::Metadata;
use redscript_vm::native::{
    cast, operator_add, operator_add_strings, operator_assign_add, operator_assign_divide,
    operator_assign_multiply, operator_assign_subtract, operator_divide, operator_equal,
    operator_greater, operator_greater_equal, operator_less, operator_less_equal,
    operator_logic_and, operator_logic_or, operator_multiply, operator_subtract, rand_range,
    Integer,
};
use redscript_vm::shell::{assertion_failure, is_test, report, ReportLine};
use std::cell::RefCell;
use std::rc::Rc;

#[allow(dead_code)]
struct StdFloats;

impl FloatFormat for StdFloats {
    fn f32_text(&self, bits: u32) -> String {
        f32::from_bits(bits).to_string()
    }

    fn f64_text(&self, bits: u64) -> String {
        f64::from_bits(bits).to_string()
    }
}

const NONE: PoolIndex = PoolIndex(0);
const INT32: PoolIndex = PoolIndex(3);
const STRING: PoolIndex = PoolIndex(11);
const BOOL: PoolIndex = PoolIndex(12);

#[allow(dead_code)]
fn define(pool: &mut Pool, name: &str, parent: PoolIndex, value: AnyDefinition) -> PoolIndex {
    let name = pool.add_name(name).unwrap();
    pool.add_definition(Definition { name, parent, value }).unwrap()
}

#[allow(dead_code)]
fn parameter(pool: &mut Pool, name: &str, type_: PoolIndex, is_out: bool) -> PoolIndex {
    define(
        pool,
        name,
        NONE,
        AnyDefinition::Parameter(Parameter { type_, flags: ParameterFlags { is_out } }),
    )
}

#[allow(dead_code)]
fn local(pool: &mut Pool, name: &str, type_: PoolIndex) -> PoolIndex {
    define(pool, name, NONE, AnyDefinition::Local(Local { type_ }))
}

#[allow(dead_code)]
fn field(pool: &mut Pool, name: &str, type_: PoolIndex) -> PoolIndex {
    define(pool, name, NONE, AnyDefinition::Field(Field { type_ }))
}

#[allow(dead_code)]
fn type_(pool: &mut Pool, name: &str, shape: Type) -> PoolIndex {
    define(pool, name, NONE, AnyDefinition::Type(shape))
}

#[allow(dead_code)]
fn native(pool: &mut Pool, name: &str, parameters: Vec<PoolIndex>) -> PoolIndex {
    define(
        pool,
        name,
        NONE,
        AnyDefinition::Function(Function {
            visibility: Visibility::Public,
            parameters,
            locals: vec![],
            code: vec![],
            flags: FunctionFlags { is_native: true, is_final: true, is_static: true },
        }),
    )
}

#[allow(dead_code)]
fn code(instrs: Vec<Instr>) -> Vec<(u16, Instr)> {
    instrs.into_iter().enumerate().map(|(i, instr)| ((i * 10) as u16, instr)).collect()
}

#[allow(dead_code)]
fn function(
    pool: &mut Pool,
    name: &str,
    parent: PoolIndex,
    parameters: Vec<PoolIndex>,
    locals: Vec<PoolIndex>,
    instrs: Vec<Instr>,
) -> PoolIndex {
    define(
        pool,
        name,
        parent,
        AnyDefinition::Function(Function {
            visibility: Visibility::Public,
            parameters,
            locals,
            code: code(instrs),
            flags: FunctionFlags {
                is_native: false,
                is_final: false,
                is_static: parent == NONE,
            },
        }),
    )
}

#[allow(dead_code)]
fn class(
    pool: &mut Pool,
    name: &str,
    base: PoolIndex,
    fields: Vec<PoolIndex>,
    functions: Vec<PoolIndex>,
    is_struct: bool,
) -> PoolIndex {
    define(
        pool,
        name,
        NONE,
        AnyDefinition::Class(Class { base, fields, functions, flags: ClassFlags { is_struct } }),
    )
}

#[allow(dead_code)]
fn add_method(pool: &mut Pool, class: PoolIndex, method: PoolIndex) {
    if let AnyDefinition::Class(c) = &mut pool.definitions[class.0 as usize].value {
        c.functions.push(method);
    }
}

#[allow(dead_code)]
fn call_static(idx: PoolIndex) -> Instr {
    Instr::InvokeStatic(Offset { value: 0 }, 0, idx, 0)
}

#[allow(dead_code)]
fn call_virtual(name: PoolIndex) -> Instr {
    Instr::InvokeVirtual(Offset { value: 0 }, 0, name, 0)
}

#[allow(dead_code)]
fn context() -> Instr {
    Instr::Context(Offset { value: 0 })
}

/// The offset that leads from the instruction at place `from` to the one at
/// place `to`.
#[allow(dead_code)]
fn jump(from: i16, to: i16) -> Offset {
    Offset { value: (to - from) * 10 }
}

#[allow(dead_code)]
fn machine(pool: &Pool) -> VM<'_> {
    let mut vm = VM::new(pool, Box::new(StdFloats)).unwrap();
    register_natives(&mut vm, |_text: String| {});
    vm
}

#[allow(dead_code)]
fn binary(pool: &mut Pool, name: &str, type_: PoolIndex, out: bool) -> PoolIndex {
    let a = parameter(pool, "a", type_, out);
    let b = parameter(pool, "b", type_, false);
    native(pool, name, vec![a, b])
}


#[test]
fn arithmetic_wraps_around() {
    assert_eq!(operator_add(1i32, 2).0, 3);
    assert_eq!(operator_add(i32::MAX, 1).0, i32::MIN);
    assert_eq!(operator_add(255u8, 1).0, 0);
    assert_eq!(operator_add(i64::MIN, -1).0, i64::MAX);
    assert_eq!(operator_subtract(0u32, 1).0, u32::MAX);
    assert_eq!(operator_subtract(5i16, 7).0, -2);
    assert_eq!(operator_subtract(i8::MIN, 1).0, i8::MAX);
    assert_eq!(operator_multiply(6u64, 7).0, 42);
    assert_eq!(operator_multiply(i32::MAX, 2).0, -2);
    assert_eq!(operator_multiply(200u8, 2).0, 144);
    assert_eq!(operator_multiply(-3i8, 5).0, -15);
}

#[test]
fn division_rounds_toward_zero_and_fails_without_a_quotient() {
    assert_eq!(operator_divide(7i32, 2).map(|r| r.0), Some(3));
    assert_eq!(operator_divide(-7i32, 2).map(|r| r.0), Some(-3));
    assert_eq!(operator_divide(7i32, -2).map(|r| r.0), Some(-3));
    assert_eq!(operator_divide(7u8, 2).map(|r| r.0), Some(3));
    assert_eq!(operator_divide(0i64, 5).map(|r| r.0), Some(0));
    assert_eq!(operator_divide(7i32, 0).map(|r| r.0), None);
    assert_eq!(operator_divide(7u64, 0).map(|r| r.0), None);
    assert_eq!(operator_divide(i8::MIN, -1).map(|r| r.0), None);
    assert_eq!(operator_assign_divide(9i16, 3).map(|r| (r.0, r.1)), Some((3, 3)));
    assert_eq!(operator_assign_divide(9i16, 0).map(|r| (r.0, r.1)), None);
}

#[test]
fn assigning_operators_give_the_result_twice() {
    let r = operator_assign_add(5i32, 7);
    assert_eq!((r.0, r.1), (12, 12));
    let r = operator_assign_subtract(5u8, 7);
    assert_eq!((r.0, r.1), (254, 254));
    let r = operator_assign_multiply(-5i64, 7);
    assert_eq!((r.0, r.1), (-35, -35));
}

#[test]
fn comparisons_order_by_value() {
    for (x, y) in [(1i32, 2i32), (2, 1), (2, 2), (-1, 1), (i32::MIN, i32::MAX)] {
        assert_eq!(operator_equal(x, y).0, x == y);
        assert_eq!(operator_less(x, y).0, x < y);
        assert_eq!(operator_less_equal(x, y).0, x <= y);
        assert_eq!(operator_greater(x, y).0, x > y);
        assert_eq!(operator_greater_equal(x, y).0, x >= y);
    }
    assert!(operator_less(200u8, 201).0);
    assert!(!operator_less(-1i8, -2).0);
    assert!(operator_logic_and(true, true).0);
    assert!(!operator_logic_and(true, false).0);
    assert!(operator_logic_or(false, true).0);
    assert!(!operator_logic_or(false, false).0);
    assert_eq!(operator_add_strings("ab".to_owned(), "cd".to_owned()).0, "abcd");
    assert_eq!(operator_add_strings(String::new(), String::new()).0, "");
}

#[test]
fn conversions_keep_the_lowest_bits() {
    assert_eq!(cast::<i32, i8>(300).0, 300i32 as i8);
    assert_eq!(cast::<i32, u8>(-1).0, 255);
    assert_eq!(cast::<i8, u64>(-1).0, u64::MAX);
    assert_eq!(cast::<u64, i64>(u64::MAX).0, -1);
    assert_eq!(cast::<u8, i32>(200).0, 200);
    assert_eq!(cast::<i64, i16>(i64::MIN).0, 0);
    assert_eq!(cast::<u32, u16>(0x1_2345).0, 0x2345);
    assert_eq!(cast::<i16, i64>(i16::MIN).0, i16::MIN as i64);
    assert_eq!(cast::<u16, i8>(0x80).0, i8::MIN);
    assert_eq!(7i32.widen(), 7);
    assert_eq!(<u8 as Integer>::narrow(-1), 255);
}

#[test]
fn random_numbers_lie_in_their_range() {
    for _ in 0..200 {
        let r = rand_range(-3, 4).unwrap().0;
        assert!((-3..4).contains(&r));
    }
    assert_eq!(rand_range(5, 6).unwrap().0, 5);
    assert!(rand_range(5, 5).is_none());
    assert!(rand_range(6, 5).is_none());
    let seen: std::collections::HashSet<i32> =
        (0..400).map(|_| rand_range(0, 4).unwrap().0).collect();
    assert_eq!(seen.len(), 4);
}

fn natives_pool() -> (Pool, Vec<PoolIndex>) {
    let mut pool = default_pool();
    let mut made = vec![];
    for (name, arity) in [("Zero", 0), ("One", 1), ("Two", 2), ("Three", 3), ("Four", 4)] {
        let parameters =
            (0..arity).map(|i| parameter(&mut pool, &format!("p{}", i), INT32, i == 0)).collect();
        made.push(native(&mut pool, name, parameters));
    }
    (pool, made)
}

fn numbers(count: i32) -> Vec<Value> {
    (1..=count).map(Value::I32).collect()
}

#[test]
fn host_functions_get_their_arguments_in_order() {
    let (pool, made) = natives_pool();
    let mut vm = VM::new(&pool, Box::new(StdFloats)).unwrap();
    let meta = vm.metadata_mut();
    assert_eq!(meta.register_native("Zero", || Ret(40i32)), Some(()));
    assert_eq!(meta.register_native("One", |a: i32| Ret(a * 10)), Some(()));
    assert_eq!(meta.register_native("Two", |a: i32, b: i32| Ret(a * 10 + b)), Some(()));
    assert_eq!(
        meta.register_native("Three", |a: i32, b: i32, c: i32| Ret(a * 100 + b * 10 + c)),
        Some(())
    );
    assert_eq!(
        meta.register_native("Four", |a: i32, b: i32, c: i32, d: i32| {
            Ret(a * 1000 + b * 100 + c * 10 + d)
        }),
        Some(())
    );
    assert_eq!(meta.register_native("Five", || Ret(0i32)), None);
    for (i, expected) in [40, 10, 12, 123, 1234].into_iter().enumerate() {
        assert_eq!(vm.call::<i32>(made[i], numbers(i as i32)), Ok(expected));
        assert_eq!(vm.arena.stack_len(), 0);
    }
}

#[test]
fn host_functions_without_a_result_leave_nothing() {
    let (pool, made) = natives_pool();
    let mut vm = VM::new(&pool, Box::new(StdFloats)).unwrap();
    let seen = Rc::new(RefCell::new(Vec::<i32>::new()));
    let meta = vm.metadata_mut();
    let log = seen.clone();
    meta.register_native("Zero", move || log.borrow_mut().push(0));
    let log = seen.clone();
    meta.register_native("One", move |a: i32| log.borrow_mut().push(a));
    let log = seen.clone();
    meta.register_native("Two", move |a: i32, b: i32| log.borrow_mut().push(a * 10 + b));
    let log = seen.clone();
    meta.register_native("Three", move |a: i32, b: i32, c: i32| {
        log.borrow_mut().push(a * 100 + b * 10 + c)
    });
    let log = seen.clone();
    meta.register_native("Four", move |a: i32, b: i32, c: i32, d: i32| {
        log.borrow_mut().push(a * 1000 + b * 100 + c * 10 + d)
    });
    for i in 0..5 {
        assert_eq!(vm.call_void(made[i], numbers(i as i32)), Ok(()));
        assert_eq!(vm.arena.stack_len(), 0);
    }
    assert_eq!(*seen.borrow(), vec![0, 1, 12, 123, 1234]);
}

#[test]
fn host_functions_assign_to_their_first_argument() {
    let (pool, made) = natives_pool();
    let mut vm = VM::new(&pool, Box::new(StdFloats)).unwrap();
    let meta = vm.metadata_mut();
    meta.register_native("One", |a: i32| RetOut(a + 1, a * 2));
    meta.register_native("Two", |a: i32, b: i32| RetOut(a + b, a - b));
    meta.register_native("Three", |a: i32, b: i32, c: i32| RetOut(a + b + c, c));
    meta.register_native("Four", |a: i32, b: i32, c: i32, d: i32| RetOut(a + b + c + d, d));
    for (i, answer, assigned) in [(1usize, 11, 20), (2, 12, 8), (3, 15, 3), (4, 19, 4)] {
        let mut first = Value::I32(10);
        first.pin(&mut vm.arena);
        let mut args = vec![first];
        args.extend((2..=i as i32).map(Value::I32));
        assert_eq!(vm.call::<i32>(made[i], args), Ok(answer));
        assert!(matches!(first.unpinned(&vm.arena), Value::I32(x) if x == assigned));
    }
    // the first argument has to be a reference cell
    assert_eq!(
        vm.call::<i32>(made[1], vec![Value::I32(1)]),
        Err(RuntimeError::InvalidArgument("expected a pinned value for out parameter".to_owned()))
    );
}

#[test]
fn host_functions_take_strings_and_fractions() {
    let mut pool = default_pool();
    pool.strings.push("pooled".to_owned());
    let s = parameter(&mut pool, "s", STRING, false);
    let f = parameter(&mut pool, "f", PoolIndex(9), false);
    let d = parameter(&mut pool, "d", PoolIndex(10), false);
    let shout = native(&mut pool, "Shout", vec![s]);
    let half = native(&mut pool, "Half", vec![f]);
    let twice = native(&mut pool, "Twice", vec![d]);
    let mut vm = VM::new(&pool, Box::new(StdFloats)).unwrap();
    let meta = vm.metadata_mut();
    meta.register_native("Shout", |s: String| Ret(s.to_uppercase()));
    meta.register_native("Half", |f: Float| Ret(Float((f32::from_bits(f.0) / 2.0).to_bits())));
    meta.register_native("Twice", |d: Double| Ret(Double((f64::from_bits(d.0) * 2.0).to_bits())));
    let made = "made".to_owned().into_vm(&mut vm.arena);
    assert_eq!(vm.call::<String>(shout, vec![made]), Ok("MADE".to_owned()));
    let pooled = Value::InternStr(redscript_vm::value::StringType::String, redscript_vm::value::VMIndex(0));
    assert_eq!(vm.call::<String>(shout, vec![pooled]), Ok("POOLED".to_owned()));
    assert_eq!(
        vm.call::<Float>(half, vec![Value::F32(3.0f32.to_bits())]),
        Ok(Float(1.5f32.to_bits()))
    );
    assert_eq!(
        vm.call::<Double>(twice, vec![Value::F64(0.25f64.to_bits())]),
        Ok(Double(0.5f64.to_bits()))
    );
}

#[test]
fn the_standard_functions_are_registered_where_the_pool_has_them() {
    let mut pool = default_pool();
    let names = [
        "Log",
        "RandRange",
        "OperatorAdd;StringString;String",
        "OperatorLogicAnd;BoolBool;Bool",
        "OperatorLogicOr;BoolBool;Bool",
        "OperatorAdd;Int8Int8;Int8",
        "OperatorAssignAdd;OutInt16Int16;Int16",
        "OperatorSubtract;Int64Int64;Int64",
        "OperatorAssignSubtract;OutUint8Uint8;Uint8",
        "OperatorMultiply;Uint16Uint16;Uint16",
        "OperatorAssignMultiply;OutUint32Uint32;Uint32",
        "OperatorDivide;Uint64Uint64;Uint64",
        "OperatorAssignDivide;OutInt32Int32;Int32",
        "OperatorEqual;Int32Int32;Bool",
        "OperatorLess;Uint8Uint8;Bool",
        "OperatorLessEqual;Int8Int8;Bool",
        "OperatorGreater;Int64Int64;Bool",
        "OperatorGreaterEqual;Uint64Uint64;Bool",
        "Cast;Int8;Int16",
        "Cast;Uint64;Int8",
        "Cast;Int32;Uint32",
    ];
    let absent = ["Cast;Int32;Int32", "OperatorAdd;FloatFloat;Float", "SqrtF", "Mystery"];
    let mut made = vec![];
    for name in names.iter().chain(absent.iter()) {
        made.push(native(&mut pool, name, vec![]));
    }
    let mut vm = VM::new(&pool, Box::new(StdFloats)).unwrap();
    for idx in &made {
        assert!(vm.metadata().get_native(*idx).is_none());
    }
    register_natives(&mut vm, |_| {});
    for (i, idx) in made.iter().enumerate() {
        assert_eq!(vm.metadata().get_native(*idx).is_some(), i < names.len(), "{}", i);
    }
}

#[test]
fn the_standard_functions_compute() {
    let mut pool = default_pool();
    let int8 = PoolIndex(1);
    let uint8 = PoolIndex(5);
    let less = binary(&mut pool, "OperatorLess;Uint8Uint8;Bool", uint8, false);
    let multiply = binary(&mut pool, "OperatorMultiply;Int8Int8;Int8", int8, false);
    let and = binary(&mut pool, "OperatorLogicAnd;BoolBool;Bool", BOOL, false);
    let x = parameter(&mut pool, "x", PoolIndex(4), false);
    let narrow = native(&mut pool, "Cast;Int64;Uint8", vec![x]);
    let lo = parameter(&mut pool, "lo", INT32, false);
    let hi = parameter(&mut pool, "hi", INT32, false);
    let random = native(&mut pool, "RandRange", vec![lo, hi]);
    let mut vm = machine(&pool);
    assert_eq!(vm.call::<bool>(less, vec![Value::U8(3), Value::U8(200)]), Ok(true));
    assert_eq!(vm.call::<i8>(multiply, vec![Value::I8(100), Value::I8(2)]), Ok(-56));
    assert_eq!(vm.call::<bool>(and, vec![Value::Bool(true), Value::Bool(false)]), Ok(false));
    assert_eq!(vm.call::<u8>(narrow, vec![Value::I64(-2)]), Ok(254));
    assert_eq!(vm.call::<i32>(random, vec![Value::I32(7), Value::I32(8)]), Ok(7));
    assert_eq!(
        vm.call::<i32>(random, vec![Value::I32(8), Value::I32(8)]),
        Err(RuntimeError::Arithmetic)
    );
}

#[test]
fn what_a_program_logs_reaches_the_host() {
    let mut pool = default_pool();
    pool.strings.push("hello".to_owned());
    let text = parameter(&mut pool, "text", STRING, false);
    let log = native(&mut pool, "Log", vec![text]);
    let main = function(
        &mut pool,
        "main;",
        NONE,
        vec![],
        vec![],
        vec![
            call_static(log),
            Instr::StringConst(PoolIndex(0)),
            Instr::ParamEnd,
            call_static(log),
            Instr::ToString(INT32),
            Instr::I32Const(5),
            Instr::ParamEnd,
        ],
    );
    let lines = Rc::new(RefCell::new(vec![]));
    let sink = lines.clone();
    let mut vm = VM::new(&pool, Box::new(StdFloats)).unwrap();
    register_natives(&mut vm, move |line| sink.borrow_mut().push(line));
    assert_eq!(vm.call_void(main, vec![]), Ok(()));
    assert_eq!(*lines.borrow(), vec!["hello".to_owned(), "5".to_owned()]);
}

#[test]
fn a_suite_reports_a_line_for_each_test() {
    let mut pool = default_pool();
    let flag = parameter(&mut pool, "flag", BOOL, false);
    let assert = native(&mut pool, "Assert", vec![flag]);
    let suite = class(&mut pool, "Suite", NONE, vec![], vec![], false);
    let check = |value: Instr| vec![call_static(assert), value, Instr::ParamEnd];
    let foo = function(&mut pool, "TestFoo;", suite, vec![], vec![], check(Instr::FalseConst));
    let bar = function(&mut pool, "TestBar;", suite, vec![], vec![], check(Instr::TrueConst));
    let helper = function(&mut pool, "Helper;Bool", suite, vec![flag], vec![], vec![]);
    for method in [foo, bar, helper] {
        add_method(&mut pool, suite, method);
    }
    let errors = Rc::new(RefCell::new(Vec::<String>::new()));
    let sink = errors.clone();
    let mut vm = machine(&pool);
    vm.metadata_mut().register_native("Assert", move |passed: bool| {
        if !passed {
            sink.borrow_mut().push(assertion_failure());
        }
    });
    let class_idx = vm.metadata().get_class("Suite").unwrap();
    let mut lines = vec![];
    for method in &pool.class(class_idx).unwrap().functions {
        if is_test(pool.function(*method).unwrap()) {
            vm.call_void(*method, vec![]).unwrap();
            let name = pool.def_name(*method).unwrap();
            lines.extend(report(name, &errors.borrow()));
            errors.borrow_mut().clear();
        }
    }
    assert_eq!(
        lines,
        vec![
            ReportLine { passed: false, text: "- test foo: Assertion failed".to_owned() },
            ReportLine { passed: true, text: "+ test bar".to_owned() },
        ]
    );
}

#[test]
fn a_host_function_needs_its_arguments_on_the_stack() {
    let pool = default_pool();
    let mut arena = Arena::new();
    assert_eq!(pop_argument::<i32>(&mut arena, &pool), Err(RuntimeError::InvalidBytecode));
    arena.push(Value::Bool(true));
    assert_eq!(
        pop_argument::<i32>(&mut arena, &pool),
        Err(RuntimeError::InvalidArgument("Invalid argument, expected I32".to_owned()))
    );
    assert_eq!(arena.stack_len(), 1);
    assert_eq!(pop_argument::<bool>(&mut arena, &pool), Ok(true));
    assert_eq!(arena.stack_len(), 0);
    let native = (|a: i32, b: i32| Ret(a - b)).into_vm_function();
    arena.push(Value::I32(10));
    arena.push(Value::I32(4));
    assert!(matches!(native.call(&mut arena, &pool), Ok(Some(Value::I32(6)))));
    assert_eq!(arena.stack_len(), 0);
    assert_eq!(
        native.call(&mut arena, &pool).map(|_| ()),
        Err(RuntimeError::InvalidBytecode)
    );
    let _ = Metadata::new(&pool);
}
