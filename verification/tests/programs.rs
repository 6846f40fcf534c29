use redscript_vm::error::RuntimeError;
use redscript_vm::native::{default_pool, register_natives};
use redscript_vm::pool::{
    AnyDefinition, Class, ClassFlags, Definition, Field, Function, FunctionFlags, Instr, Local,
    Offset, Parameter, ParameterFlags, Pool, PoolIndex, Type, Visibility,
};
use redscript_vm::render::FloatFormat;
use redscript_vm::value::Value;
use redscript_vm::vm::VM;
use redscript_vm::frame::Frame;
use redscript_vm::semantics::Action;

struct StdFloats;

impl FloatFormat for StdFloats {
    fn f32_text(&self, bits: u32) -> String {
        f32::from_bits(bits).to_string()
    }

    fn f64_text(&self, bits: u64) -> String {
        f64::from_bits(bits).to_string()
    }
}

const NONE: PoolIndex = PoolIndex(0);
const INT32: PoolIndex = PoolIndex(3);
const STRING: PoolIndex = PoolIndex(11);
const BOOL: PoolIndex = PoolIndex(12);

fn define(pool: &mut Pool, name: &str, parent: PoolIndex, value: AnyDefinition) -> PoolIndex {
    let name = pool.add_name(name).unwrap();
    pool.add_definition(Definition { name, parent, value }).unwrap()
}

fn parameter(pool: &mut Pool, name: &str, type_: PoolIndex, is_out: bool) -> PoolIndex {
    define(
        pool,
        name,
        NONE,
        AnyDefinition::Parameter(Parameter { type_, flags: ParameterFlags { is_out } }),
    )
}

fn local(pool: &mut Pool, name: &str, type_: PoolIndex) -> PoolIndex {
    define(pool, name, NONE, AnyDefinition::Local(Local { type_ }))
}

fn field(pool: &mut Pool, name: &str, type_: PoolIndex) -> PoolIndex {
    define(pool, name, NONE, AnyDefinition::Field(Field { type_ }))
}

fn type_(pool: &mut Pool, name: &str, shape: Type) -> PoolIndex {
    define(pool, name, NONE, AnyDefinition::Type(shape))
}

fn native(pool: &mut Pool, name: &str, parameters: Vec<PoolIndex>) -> PoolIndex {
    define(
        pool,
        name,
        NONE,
        AnyDefinition::Function(Function {
            visibility: Visibility::Public,
            parameters,
            locals: vec![],
            code: vec![],
            flags: FunctionFlags { is_native: true, is_final: true, is_static: true },
        }),
    )
}

fn code(instrs: Vec<Instr>) -> Vec<(u16, Instr)> {
    instrs.into_iter().enumerate().map(|(i, instr)| ((i * 10) as u16, instr)).collect()
}

fn function(
    pool: &mut Pool,
    name: &str,
    parent: PoolIndex,
    parameters: Vec<PoolIndex>,
    locals: Vec<PoolIndex>,
    instrs: Vec<Instr>,
) -> PoolIndex {
    define(
        pool,
        name,
        parent,
        AnyDefinition::Function(Function {
            visibility: Visibility::Public,
            parameters,
            locals,
            code: code(instrs),
            flags: FunctionFlags {
                is_native: false,
                is_final: false,
                is_static: parent == NONE,
            },
        }),
    )
}

fn class(
    pool: &mut Pool,
    name: &str,
    base: PoolIndex,
    fields: Vec<PoolIndex>,
    functions: Vec<PoolIndex>,
    is_struct: bool,
) -> PoolIndex {
    define(
        pool,
        name,
        NONE,
        AnyDefinition::Class(Class { base, fields, functions, flags: ClassFlags { is_struct } }),
    )
}

fn add_method(pool: &mut Pool, class: PoolIndex, method: PoolIndex) {
    if let AnyDefinition::Class(c) = &mut pool.definitions[class.0 as usize].value {
        c.functions.push(method);
    }
}

fn call_static(idx: PoolIndex) -> Instr {
    Instr::InvokeStatic(Offset { value: 0 }, 0, idx, 0)
}

fn call_virtual(name: PoolIndex) -> Instr {
    Instr::InvokeVirtual(Offset { value: 0 }, 0, name, 0)
}

fn context() -> Instr {
    Instr::Context(Offset { value: 0 })
}

/// The offset that leads from the instruction at place `from` to the one at
/// place `to`.
fn jump(from: i16, to: i16) -> Offset {
    Offset { value: (to - from) * 10 }
}

fn machine(pool: &Pool) -> VM<'_> {
    let mut vm = VM::new(pool, Box::new(StdFloats)).unwrap();
    register_natives(&mut vm, |_text: String| {});
    vm
}

fn binary(pool: &mut Pool, name: &str, type_: PoolIndex, out: bool) -> PoolIndex {
    let a = parameter(pool, "a", type_, out);
    let b = parameter(pool, "b", type_, false);
    native(pool, name, vec![a, b])
}

#[test]
fn main_returns_the_sum_of_three_constants() {
    let mut pool = default_pool();
    let add = binary(&mut pool, "OperatorAdd;Int32Int32;Int32", INT32, false);
    let main = function(
        &mut pool,
        "main;",
        NONE,
        vec![],
        vec![],
        vec![
            Instr::Return,
            call_static(add),
            call_static(add),
            Instr::I32One,
            Instr::I32Const(2),
            Instr::ParamEnd,
            Instr::I32Const(3),
            Instr::ParamEnd,
            Instr::Nop,
        ],
    );
    let mut vm = machine(&pool);
    assert_eq!(vm.metadata().get_function("main;"), Some(main));
    assert_eq!(vm.call::<i32>(main, vec![]), Ok(6));
    assert_eq!(vm.arena.stack_len(), 0);
}

#[test]
fn an_array_that_was_pushed_to_four_times_has_four_items() {
    let mut pool = default_pool();
    let array = type_(&mut pool, "array:Int32", Type::Array(INT32));
    let a = local(&mut pool, "a", array);
    let mut instrs = vec![];
    for i in 1..=4 {
        instrs.extend([Instr::ArrayPush(array), Instr::Local(a), Instr::I32Const(i)]);
    }
    instrs.extend([Instr::Return, Instr::ArraySize(array), Instr::Local(a), Instr::Nop]);
    let main = function(&mut pool, "main;", NONE, vec![], vec![a], instrs);
    let mut vm = machine(&pool);
    assert_eq!(vm.call::<i32>(main, vec![]), Ok(4));
}

struct Counter {
    pool: Pool,
    main: PoolIndex,
}

fn counter_program() -> Counter {
    let mut pool = default_pool();
    let assign_add = binary(&mut pool, "OperatorAssignAdd;OutInt32Int32;Int32", INT32, true);
    let value = field(&mut pool, "value", INT32);
    let counter = class(&mut pool, "Counter", NONE, vec![value], vec![], false);
    let inc = function(
        &mut pool,
        "Inc;",
        counter,
        vec![],
        vec![],
        vec![call_static(assign_add), Instr::ObjectField(value), Instr::I32One, Instr::ParamEnd],
    );
    add_method(&mut pool, counter, inc);
    let inc_name = pool.add_name("Inc;").unwrap();
    let counter_type = type_(&mut pool, "Counter", Type::Class);
    let counter_ref = type_(&mut pool, "ref:Counter", Type::Ref(counter_type));
    let c = local(&mut pool, "c", counter_ref);
    let mut instrs = vec![Instr::Assign, Instr::Local(c), Instr::New(counter)];
    for _ in 0..3 {
        instrs.extend([context(), Instr::Local(c), call_virtual(inc_name), Instr::ParamEnd]);
    }
    instrs.extend([
        Instr::Return,
        context(),
        Instr::Local(c),
        Instr::ObjectField(value),
        Instr::Nop,
    ]);
    let main = function(&mut pool, "main;", NONE, vec![], vec![c], instrs);
    Counter { pool, main }
}

#[test]
fn a_counter_that_was_incremented_three_times_holds_three() {
    let program = counter_program();
    let mut vm = machine(&program.pool);
    assert_eq!(vm.call::<i32>(program.main, vec![]), Ok(3));
}

#[test]
fn a_call_leaves_the_stacks_of_frames_and_receivers_as_it_found_them() {
    let program = counter_program();
    let mut vm = machine(&program.pool);
    vm.call_void(program.main, vec![]).unwrap();
    assert_eq!(vm.arena.stack_len(), 1);
    assert_eq!(vm.arena.root.frames.len(), 0);
    assert_eq!(vm.arena.root.contexts.len(), 0);
}

struct Dispatch {
    pool: Pool,
    main: PoolIndex,
    base: PoolIndex,
    derived: PoolIndex,
}

fn dispatch_program() -> Dispatch {
    let mut pool = default_pool();
    pool.strings.push("base".to_owned());
    pool.strings.push("derived".to_owned());
    let base = class(&mut pool, "Base", NONE, vec![], vec![], false);
    let derived = class(&mut pool, "Derived", base, vec![], vec![], false);
    let base_name = function(
        &mut pool,
        "Name;",
        base,
        vec![],
        vec![],
        vec![Instr::Return, Instr::StringConst(PoolIndex(0)), Instr::Nop],
    );
    let derived_name = function(
        &mut pool,
        "Name;",
        derived,
        vec![],
        vec![],
        vec![Instr::Return, Instr::StringConst(PoolIndex(1)), Instr::Nop],
    );
    add_method(&mut pool, base, base_name);
    add_method(&mut pool, derived, derived_name);
    let name = pool.add_name("Name;").unwrap();
    let base_type = type_(&mut pool, "Base", Type::Class);
    let base_ref = type_(&mut pool, "ref:Base", Type::Ref(base_type));
    let b = local(&mut pool, "b", base_ref);
    let main = function(
        &mut pool,
        "main;",
        NONE,
        vec![],
        vec![b],
        vec![
            Instr::Assign,
            Instr::Local(b),
            Instr::New(derived),
            Instr::Return,
            context(),
            Instr::Local(b),
            call_virtual(name),
            Instr::ParamEnd,
            Instr::Nop,
        ],
    );
    Dispatch { pool, main, base, derived }
}

#[test]
fn a_derived_object_behind_a_base_reference_answers_as_derived() {
    let program = dispatch_program();
    let mut vm = machine(&program.pool);
    assert_eq!(vm.call::<String>(program.main, vec![]), Ok("derived".to_owned()));
}

#[test]
fn a_class_is_an_instance_of_itself_and_of_nothing_undefined() {
    let program = dispatch_program();
    let vm = machine(&program.pool);
    let meta = vm.metadata();
    assert!(meta.is_instance_of(program.base, program.base));
    assert!(meta.is_instance_of(program.derived, program.derived));
    assert!(!meta.is_instance_of(program.base, NONE));
    // the walk starts at the second class and looks for the first
    assert!(meta.is_instance_of(program.base, program.derived));
    assert!(!meta.is_instance_of(program.derived, program.base));
}

#[test]
fn an_out_parameter_is_assigned_through() {
    let mut pool = default_pool();
    let assign_add = binary(&mut pool, "OperatorAssignAdd;OutInt32Int32;Int32", INT32, true);
    let x = local(&mut pool, "x", INT32);
    let y = local(&mut pool, "y", INT32);
    let prologue = vec![
        Instr::Assign,
        Instr::Local(x),
        Instr::I32Const(5),
        Instr::Assign,
        Instr::Local(y),
        Instr::I32Const(7),
    ];
    let mut returns_call = prologue.clone();
    returns_call.extend([
        Instr::Return,
        call_static(assign_add),
        Instr::Local(x),
        Instr::Local(y),
        Instr::ParamEnd,
        Instr::Nop,
    ]);
    let mut returns_x = prologue;
    returns_x.extend([
        call_static(assign_add),
        Instr::Local(x),
        Instr::Local(y),
        Instr::ParamEnd,
        Instr::Return,
        Instr::Local(x),
        Instr::Nop,
    ]);
    let first = function(&mut pool, "first;", NONE, vec![], vec![x, y], returns_call);
    let second = function(&mut pool, "second;", NONE, vec![], vec![x, y], returns_x);
    let mut vm = machine(&pool);
    assert_eq!(vm.call::<i32>(first, vec![]), Ok(12));
    assert_eq!(vm.call::<i32>(second, vec![]), Ok(12));
}

#[test]
fn a_loop_sums_the_numbers_below_its_bound() {
    let mut pool = default_pool();
    let less = binary(&mut pool, "OperatorLess;Int32Int32;Bool", INT32, false);
    let assign_add = binary(&mut pool, "OperatorAssignAdd;OutInt32Int32;Int32", INT32, true);
    let n = parameter(&mut pool, "n", INT32, false);
    let i = local(&mut pool, "i", INT32);
    let sum = local(&mut pool, "sum", INT32);
    // while i < n { sum += i; i += 1 } return sum
    let instrs = vec![
        /* 0 */ Instr::JumpIfFalse(jump(0, 15)),
        /* 1 */ call_static(less),
        /* 2 */ Instr::Local(i),
        /* 3 */ Instr::Param(n),
        /* 4 */ Instr::ParamEnd,
        /* 5 */ call_static(assign_add),
        /* 6 */ Instr::Local(sum),
        /* 7 */ Instr::Local(i),
        /* 8 */ Instr::ParamEnd,
        /* 9 */ call_static(assign_add),
        /* 10 */ Instr::Local(i),
        /* 11 */ Instr::I32One,
        /* 12 */ Instr::ParamEnd,
        /* 13 */ Instr::Jump(jump(13, 0)),
        /* 14 */ Instr::Nop,
        /* 15 */ Instr::Return,
        /* 16 */ Instr::Local(sum),
        /* 17 */ Instr::Nop,
    ];
    let main = function(&mut pool, "sum;", NONE, vec![n], vec![i, sum], instrs);
    let mut vm = machine(&pool);
    assert_eq!(vm.call::<i32>(main, vec![Value::I32(5)]), Ok(10));
    assert_eq!(vm.call::<i32>(main, vec![Value::I32(0)]), Ok(0));
    assert_eq!(vm.call::<i32>(main, vec![Value::I32(101)]), Ok(5050));
}

#[test]
fn a_loop_without_end_uses_up_the_budget() {
    let mut pool = default_pool();
    let main =
        function(&mut pool, "spin;", NONE, vec![], vec![], vec![Instr::Jump(jump(0, 0))]);
    let mut vm = machine(&pool);
    vm.set_budget(1000);
    assert_eq!(vm.call_void(main, vec![]), Err(RuntimeError::BudgetExhausted));
    assert_eq!(vm.budget, 0);
}

#[test]
fn every_instruction_takes_one_from_the_budget() {
    let mut pool = default_pool();
    let main = function(
        &mut pool,
        "main;",
        NONE,
        vec![],
        vec![],
        vec![Instr::Return, Instr::I32Const(7), Instr::Nop],
    );
    let mut vm = machine(&pool);
    vm.set_budget(10);
    assert_eq!(vm.call::<i32>(main, vec![]), Ok(7));
    assert_eq!(vm.budget, 8);
    vm.set_budget(1);
    assert_eq!(vm.call::<i32>(main, vec![]), Err(RuntimeError::BudgetExhausted));
}

#[test]
fn a_conditional_takes_the_branch_of_its_condition() {
    let mut pool = default_pool();
    let flag = parameter(&mut pool, "flag", BOOL, false);
    // return flag ? 10 : 20
    let instrs = vec![
        /* 0 */ Instr::Return,
        /* 1 */ Instr::Conditional(jump(1, 4), jump(1, 5)),
        /* 2 */ Instr::Param(flag),
        /* 3 */ Instr::I32Const(10),
        /* 4 */ Instr::I32Const(20),
        /* 5 */ Instr::Nop,
    ];
    let main = function(&mut pool, "pick;", NONE, vec![flag], vec![], instrs);
    let mut vm = machine(&pool);
    assert_eq!(vm.call::<i32>(main, vec![Value::Bool(true)]), Ok(10));
    assert_eq!(vm.call::<i32>(main, vec![Value::Bool(false)]), Ok(20));
}

#[test]
fn a_switch_goes_to_the_body_of_the_first_equal_label() {
    let mut pool = default_pool();
    let n = parameter(&mut pool, "n", INT32, false);
    let r = local(&mut pool, "r", INT32);
    let instrs = vec![
        /* 0 */ Instr::Switch(INT32, jump(0, 2)),
        /* 1 */ Instr::Param(n),
        /* 2 */ Instr::SwitchLabel(jump(2, 8), jump(2, 4)),
        /* 3 */ Instr::I32Const(1),
        /* 4 */ Instr::Assign,
        /* 5 */ Instr::Local(r),
        /* 6 */ Instr::I32Const(100),
        /* 7 */ Instr::Jump(jump(7, 17)),
        /* 8 */ Instr::SwitchLabel(jump(8, 14), jump(8, 10)),
        /* 9 */ Instr::I32Const(2),
        /* 10 */ Instr::Assign,
        /* 11 */ Instr::Local(r),
        /* 12 */ Instr::I32Const(200),
        /* 13 */ Instr::Jump(jump(13, 17)),
        /* 14 */ Instr::SwitchDefault,
        /* 15 */ Instr::Assign,
        /* 16 */ Instr::Local(r),
        /* 17 */ Instr::Nop,
        /* 18 */ Instr::Return,
        /* 19 */ Instr::Local(r),
        /* 20 */ Instr::Nop,
    ];
    // the default body assigns the `Nop` at 17, which is no value: keep it apart
    let mut instrs = instrs;
    instrs[15] = Instr::Nop;
    instrs[16] = Instr::Nop;
    let main = function(&mut pool, "choose;", NONE, vec![n], vec![r], instrs);
    let mut vm = machine(&pool);
    assert_eq!(vm.call::<i32>(main, vec![Value::I32(1)]), Ok(100));
    assert_eq!(vm.call::<i32>(main, vec![Value::I32(2)]), Ok(200));
    assert_eq!(vm.call::<i32>(main, vec![Value::I32(3)]), Ok(0));
    assert_eq!(vm.arena.stack_len(), 0);
}

#[test]
fn an_argument_that_is_left_out_keeps_the_parameter_unbound() {
    let mut pool = default_pool();
    let a = parameter(&mut pool, "a", INT32, false);
    let b = parameter(&mut pool, "b", INT32, false);
    // the callee never reads `b`
    let callee = function(
        &mut pool,
        "first;",
        NONE,
        vec![a, b],
        vec![],
        vec![Instr::Return, Instr::Param(a), Instr::Nop],
    );
    let main = function(
        &mut pool,
        "main;",
        NONE,
        vec![],
        vec![],
        vec![
            Instr::Return,
            call_static(callee),
            Instr::I32Const(9),
            Instr::Nop,
            Instr::ParamEnd,
            Instr::Nop,
        ],
    );
    let mut vm = machine(&pool);
    assert_eq!(vm.call::<i32>(main, vec![]), Ok(9));
}

#[test]
fn a_function_without_a_value_leaves_nothing_on_the_stack() {
    let mut pool = default_pool();
    let quiet = function(
        &mut pool,
        "quiet;",
        NONE,
        vec![],
        vec![],
        vec![Instr::I32One, Instr::I32One, Instr::Return, Instr::Nop],
    );
    let mut vm = machine(&pool);
    vm.arena.push(Value::Bool(true));
    assert_eq!(vm.call_void(quiet, vec![]), Ok(()));
    assert_eq!(vm.arena.stack_len(), 1);
    let answer = vm.call_with_callback(quiet, vec![], |value, _vm| value);
    assert!(matches!(answer, Ok(Some(Value::Bool(true)))));
}

#[test]
fn the_callback_gets_what_the_function_gave_back() {
    let mut pool = default_pool();
    pool.strings.push("hello".to_owned());
    let main = function(
        &mut pool,
        "main;",
        NONE,
        vec![],
        vec![],
        vec![Instr::Return, Instr::StringConst(PoolIndex(0)), Instr::Nop],
    );
    let mut vm = machine(&pool);
    let text = vm.call_with_callback(main, vec![], |value, vm| {
        value.map(|v| v.to_string(&vm.arena, vm.metadata.pool(), &StdFloats, 16))
    });
    assert_eq!(text, Ok(Some(Ok("hello".to_owned()))));
}

fn run_single(instrs: Vec<Instr>) -> Result<(), RuntimeError> {
    let mut pool = default_pool();
    let main = function(&mut pool, "main;", NONE, vec![], vec![], instrs);
    let mut vm = machine(&pool);
    vm.call_void(main, vec![])
}

#[test]
fn a_field_read_without_a_receiver_is_a_null_pointer() {
    assert_eq!(run_single(vec![Instr::ObjectField(PoolIndex(1))]), Err(RuntimeError::NullPointer));
}

#[test]
fn a_virtual_call_on_a_null_reference_is_a_null_pointer() {
    assert_eq!(
        run_single(vec![context(), Instr::Null, call_virtual(PoolIndex(1))]),
        Err(RuntimeError::NullPointer)
    );
}

#[test]
fn a_dynamic_cast_of_a_null_reference_is_a_null_pointer() {
    assert_eq!(
        run_single(vec![Instr::DynamicCast(PoolIndex(1), 0), Instr::Null]),
        Err(RuntimeError::NullPointer)
    );
}

#[test]
fn an_assignment_to_a_constant_is_refused() {
    assert_eq!(
        run_single(vec![Instr::Assign, Instr::I32One, Instr::I32One]),
        Err(RuntimeError::UnsupportedAssignmentOperand)
    );
    assert_eq!(
        run_single(vec![Instr::Assign, context(), Instr::Null, Instr::I32One]),
        Err(RuntimeError::UnsupportedAssignmentOperand)
    );
}

#[test]
fn unsupported_instructions_are_reported_as_such() {
    for instr in [
        Instr::Breakpoint,
        Instr::Target,
        Instr::ExternalVar,
        Instr::Skip(Offset { value: 0 }),
        Instr::Delete,
        Instr::StartProfiling,
        Instr::ArraySort(INT32),
        Instr::ArraySortByPredicate(INT32),
        Instr::StaticArraySize(INT32),
        Instr::StaticArrayElement(INT32),
        Instr::StaticArrayLast(INT32),
        Instr::StaticArrayCount(INT32),
        Instr::VariantTypeName,
        Instr::RefStringEqualsString(INT32),
        Instr::StringNotEqualsRefString(INT32),
    ] {
        assert_eq!(run_single(vec![instr]), Err(RuntimeError::Todo));
    }
}

#[test]
fn code_that_names_nothing_is_invalid() {
    assert_eq!(run_single(vec![Instr::Local(PoolIndex(9999))]), Err(RuntimeError::InvalidBytecode));
    assert_eq!(run_single(vec![Instr::Jump(Offset { value: 5 })]), Err(RuntimeError::InvalidBytecode));
    assert_eq!(run_single(vec![Instr::ArraySize(INT32), Instr::I32One]), Err(RuntimeError::InvalidBytecode));
    assert_eq!(run_single(vec![Instr::Assign]), Err(RuntimeError::InvalidBytecode));
    assert_eq!(run_single(vec![call_static(PoolIndex(9999))]), Err(RuntimeError::InvalidBytecode));
    assert_eq!(run_single(vec![Instr::This]), Err(RuntimeError::InvalidBytecode));
}

#[test]
fn a_native_that_nobody_registered_is_undefined() {
    let mut pool = default_pool();
    let mystery = native(&mut pool, "Mystery", vec![]);
    let main =
        function(&mut pool, "main;", NONE, vec![], vec![], vec![call_static(mystery), Instr::ParamEnd]);
    let mut vm = machine(&pool);
    let error = vm.call_void(main, vec![]).unwrap_err();
    assert_eq!(error, RuntimeError::UndefinedNative("Mystery".to_owned()));
    assert_eq!(error.to_string(), "native Mystery is not defined");
}

#[test]
fn division_by_zero_is_an_arithmetic_fault() {
    let mut pool = default_pool();
    let divide = binary(&mut pool, "OperatorDivide;Int32Int32;Int32", INT32, false);
    let a = parameter(&mut pool, "a", INT32, false);
    let b = parameter(&mut pool, "b", INT32, false);
    let main = function(
        &mut pool,
        "div;",
        NONE,
        vec![a, b],
        vec![],
        vec![
            Instr::Return,
            call_static(divide),
            Instr::Param(a),
            Instr::Param(b),
            Instr::ParamEnd,
            Instr::Nop,
        ],
    );
    let mut vm = machine(&pool);
    assert_eq!(vm.call::<i32>(main, vec![Value::I32(7), Value::I32(2)]), Ok(3));
    assert_eq!(vm.call::<i32>(main, vec![Value::I32(-7), Value::I32(2)]), Ok(-3));
    assert_eq!(vm.call::<i32>(main, vec![Value::I32(7), Value::I32(0)]), Err(RuntimeError::Arithmetic));
    assert_eq!(
        vm.call::<i32>(main, vec![Value::I32(i32::MIN), Value::I32(-1)]),
        Err(RuntimeError::Arithmetic)
    );
}

#[test]
fn a_native_refuses_an_argument_of_another_type() {
    let mut pool = default_pool();
    let add = binary(&mut pool, "OperatorAdd;Int32Int32;Int32", INT32, false);
    let main = function(
        &mut pool,
        "main;",
        NONE,
        vec![],
        vec![],
        vec![call_static(add), Instr::I32One, Instr::TrueConst, Instr::ParamEnd],
    );
    let mut vm = machine(&pool);
    assert_eq!(
        vm.call_void(main, vec![]),
        Err(RuntimeError::InvalidArgument("Invalid argument, expected I32".to_owned()))
    );
}

#[test]
fn an_answer_of_another_type_is_refused() {
    let mut pool = default_pool();
    let main = function(
        &mut pool,
        "main;",
        NONE,
        vec![],
        vec![],
        vec![Instr::Return, Instr::TrueConst, Instr::Nop],
    );
    let mut vm = machine(&pool);
    assert_eq!(
        vm.call::<i32>(main, vec![]),
        Err(RuntimeError::InvalidArgument("Invalid argument, expected I32".to_owned()))
    );
    assert_eq!(vm.call::<bool>(main, vec![]), Ok(true));
}

#[test]
fn a_call_with_too_few_arguments_is_refused() {
    let mut pool = default_pool();
    let add = binary(&mut pool, "OperatorAdd;Int32Int32;Int32", INT32, false);
    let mut vm = machine(&pool);
    assert_eq!(
        vm.call_void(add, vec![Value::I32(1)]),
        Err(RuntimeError::InvalidInteropParameters)
    );
    // nothing was put on the stack for the call that was refused
    assert_eq!(vm.arena.stack_len(), 0);
    assert_eq!(vm.call_void(PoolIndex(9999), vec![]), Err(RuntimeError::InvalidBytecode));
    assert_eq!(vm.arena.stack_len(), 0);
    assert_eq!(vm.call::<i32>(add, vec![Value::I32(1), Value::I32(2)]), Ok(3));
}

#[test]
fn a_native_that_nobody_registered_leaves_its_arguments_on_the_stack() {
    let mut pool = default_pool();
    let a = parameter(&mut pool, "a", INT32, false);
    let mystery = native(&mut pool, "Enigma", vec![a]);
    let mut vm = machine(&pool);
    vm.arena.push(Value::Bool(true));
    assert_eq!(
        vm.call_void(mystery, vec![Value::I32(5)]),
        Err(RuntimeError::UndefinedNative("Enigma".to_owned()))
    );
    assert_eq!(vm.arena.stack_len(), 2);
    assert!(matches!(vm.arena.peek(0), Value::I32(5)));
    assert!(matches!(vm.arena.peek(1), Value::Bool(true)));
}

#[test]
fn an_instruction_that_fails_at_once_leaves_the_arena_as_it_was() {
    let mut pool = default_pool();
    let field = PoolIndex(9000);
    let instrs = vec![
        /* 0 */ Instr::ObjectField(field),
        /* 1 */ Instr::Assign,
        /* 2 */ Instr::I32Const(1),
        /* 3 */ Instr::I32Const(2),
        /* 4 */ Instr::InvokeVirtual(jump(4, 5), 0, PoolIndex(1), 0),
        /* 5 */ Instr::Nop,
    ];
    let main = function(&mut pool, "early;", NONE, vec![], vec![], instrs);
    let mut vm = machine(&pool);
    vm.arena.push(Value::I32(1));
    let offsets = vm.offsets_of(main).unwrap();
    let mut frame = Frame::new(pool.function(main).unwrap(), offsets, 1);
    // a field of an object that is not there
    assert_eq!(vm.exec(&mut frame), Err(RuntimeError::NullPointer));
    assert_eq!(vm.arena.stack_len(), 1);
    // an assignment to a number
    assert_eq!(frame.ip, 1);
    assert_eq!(vm.exec(&mut frame), Err(RuntimeError::UnsupportedAssignmentOperand));
    assert_eq!(vm.arena.stack_len(), 1);
    // a method without a receiver
    frame.skip(1);
    assert_eq!(frame.ip, 4);
    assert_eq!(vm.exec(&mut frame), Err(RuntimeError::NullPointer));
    assert_eq!(vm.arena.stack_len(), 1);
    assert!(matches!(vm.arena.peek(0), Value::I32(1)));
    // no budget
    vm.set_budget(0);
    assert_eq!(vm.exec(&mut frame), Err(RuntimeError::BudgetExhausted));
    assert_eq!(vm.arena.stack_len(), 1);
}

#[test]
fn a_switch_leaves_the_value_that_it_looked_at_on_the_stack() {
    let mut pool = default_pool();
    let instrs = vec![
        /* 0 */ Instr::Switch(INT32, jump(0, 2)),
        /* 1 */ Instr::I32Const(7),
        /* 2 */ Instr::SwitchLabel(jump(2, 5), jump(2, 4)),
        /* 3 */ Instr::I32Const(7),
        /* 4 */ Instr::Nop,
        /* 5 */ Instr::SwitchDefault,
        /* 6 */ Instr::Nop,
    ];
    let main = function(&mut pool, "look;", NONE, vec![], vec![], instrs);
    let mut vm = machine(&pool);
    vm.arena.push(Value::I32(1));
    let offsets = vm.offsets_of(main).unwrap();
    let mut frame = Frame::new(pool.function(main).unwrap(), offsets, 1);
    assert_eq!(vm.exec(&mut frame), Ok(Action::Continue));
    assert_eq!(frame.ip, 4);
    assert_eq!(vm.arena.stack_len(), 2);
    assert!(matches!(vm.arena.peek(0), Value::I32(7)));
    assert!(matches!(vm.arena.peek(1), Value::I32(1)));
}

#[test]
fn strings_are_joined_and_written() {
    let mut pool = default_pool();
    pool.strings.push("count: ".to_owned());
    let concat = binary(&mut pool, "OperatorAdd;StringString;String", STRING, false);
    let main = function(
        &mut pool,
        "main;",
        NONE,
        vec![],
        vec![],
        vec![
            Instr::Return,
            call_static(concat),
            Instr::StringConst(PoolIndex(0)),
            Instr::ToString(INT32),
            Instr::I32Const(-42),
            Instr::ParamEnd,
            Instr::Nop,
        ],
    );
    let mut vm = machine(&pool);
    assert_eq!(vm.call::<String>(main, vec![]), Ok("count: -42".to_owned()));
}

#[test]
fn a_machine_needs_types_that_resolve() {
    let mut pool = default_pool();
    type_(&mut pool, "Quaternion128", Type::Prim);
    assert!(VM::new(&pool, Box::new(StdFloats)).is_none());
    assert!(VM::new(&default_pool(), Box::new(StdFloats)).is_some());
}
