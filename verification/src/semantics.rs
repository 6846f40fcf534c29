//! What running code means: a mathematical function from the state of the
//! machine and a place in the code to the state after one instruction, with
//! the expressions that the instruction takes, has run. Calls of host
//! functions are left open: what they do is up to the host.
use vstd::prelude::*;
use crate::arena::resized;
use crate::error::Fault;
use crate::frame::{advanced, instr_at, location_at, sought};
use crate::index_map::lookup;
use crate::interop::VMFunction;
use crate::metadata::TypeId;
use crate::pool::{Instr, Location, Offset, Pool, PoolIndex};
use crate::state::State;
use crate::value::{Obj, StringType, VMIndex, Value};
use crate::vtable::{increasing, vtable_of};

verus! {

/// How deep values may lie in each other when they are written as text.
pub const TEXT_DEPTH: usize = 64;

/// The debt in bytes above which a collection step is due.
pub const DEBT_LIMIT: u64 = 64000;

/// What the caller of an instruction does next.
#[derive(Clone, Copy, Debug, PartialEq, Eq, Structural)]
pub enum Action {
    /// Go on with the next instruction.
    Continue,
    /// The code has ended, or the function has returned without a value.
    Exit,
    /// The function has returned; its value is on top of the operand stack.
    Return,
}

/// What the machine knows besides the arena: the pool, its resolved types,
/// and the positions of the classes and functions that something is kept
/// for, and of the functions that the host has registered.
pub struct Env {
    pub pool: Pool,
    pub types: Seq<(u32, TypeId)>,
    pub classes: Set<u32>,
    pub functions: Set<u32>,
    pub natives: Map<u32, VMFunction>,
}

/// Where the machine stands after a piece of code has run.
pub struct Step {
    pub state: State,
    /// The place of the next instruction.
    pub ip: int,
    pub action: Action,
    /// The instructions that may still run.
    pub budget: nat,
}

pub enum Outcome {
    /// A host function was called: what follows is up to the host.
    Unspecified,
    Fails(Fault),
    Done(Step),
}

impl State {
    /// The state after the check whether a collection step is due: the step
    /// frees the cells that nothing leads to and pays the debt.
    pub open spec fn settled(self) -> State {
        if self.debt > DEBT_LIMIT {
            self.collected()
        } else {
            self
        }
    }
}

impl Outcome {
    /// The outcome with the check for a collection step done, where the code
    /// has run; the caller goes on with the next instruction.
    pub open spec fn settled(self) -> Outcome {
        match self {
            Outcome::Done(step) => Outcome::Done(
                Step { state: step.state.settled(), action: Action::Continue, ..step },
            ),
            other => other,
        }
    }

    /// The outcome with `f` applied to the state, where the code has run.
    pub open spec fn followed_by(self, f: spec_fn(State) -> Result<State, Fault>) -> Outcome {
        match self {
            Outcome::Done(step) => match f(step.state) {
                Ok(state) => Outcome::Done(Step { state, action: Action::Continue, ..step }),
                Err(fault) => Outcome::Fails(fault),
            },
            other => other,
        }
    }
}

/// The number of expressions that follow a plain instruction as its
/// operands.
pub open spec fn operand_count(instr: Instr) -> nat {
    match instr {
        Instr::StructField(_) => 1,
        Instr::Construct(n, _) => n as nat,
        Instr::Equals(_) | Instr::NotEquals(_) => 2,
        Instr::ArrayClear(_) | Instr::ArraySize(_) | Instr::ArrayPop(_) | Instr::ArrayLast(_) => 1,
        Instr::ArrayResize(_)
        | Instr::ArrayGrow(_)
        | Instr::ArrayFindFirst(_)
        | Instr::ArrayFindFirstFast(_)
        | Instr::ArrayFindLast(_)
        | Instr::ArrayFindLastFast(_)
        | Instr::ArrayContains(_)
        | Instr::ArrayContainsFast(_)
        | Instr::ArrayCount(_)
        | Instr::ArrayCountFast(_)
        | Instr::ArrayPush(_)
        | Instr::ArrayRemove(_)
        | Instr::ArrayRemoveFast(_)
        | Instr::ArrayErase(_)
        | Instr::ArrayEraseFast(_)
        | Instr::ArrayElement(_) => 2,
        Instr::ArrayInsert(_) => 3,
        Instr::RefToBool
        | Instr::WeakRefToBool
        | Instr::EnumToI32(_, _)
        | Instr::I32ToEnum(_, _)
        | Instr::DynamicCast(_, _)
        | Instr::ToString(_)
        | Instr::VariantToString
        | Instr::ToVariant(_)
        | Instr::FromVariant(_)
        | Instr::VariantIsDefined
        | Instr::VariantIsRef
        | Instr::VariantIsArray
        | Instr::AsRef(_)
        | Instr::Deref(_) => 1,
        _ => 0,
    }
}

/// The error that a plain instruction ends with before its operands run.
pub open spec fn precheck(env: Env, instr: Instr) -> Option<Fault> {
    match instr {
        Instr::FromVariant(typ) => if lookup(env.types, typ.0) is None {
            Some(Fault::InvalidBytecode)
        } else {
            None
        },
        _ => None,
    }
}

/// What an instruction that pushes a constant does.
pub open spec fn apply_constant(env: Env, instr: Instr, s: State) -> Option<Result<State, Fault>> {
    match instr {
        Instr::Nop
        | Instr::SwitchLabel(_, _)
        | Instr::SwitchDefault
        | Instr::ParamEnd
        | Instr::WeakRefToRef
        | Instr::RefToWeakRef
        | Instr::ToVariant(_) => Some(Ok(s)),
        Instr::Null | Instr::WeakRefNull => Some(Ok(s.push(Value::Obj(Obj::Null)))),
        Instr::I32One => Some(Ok(s.push(Value::I32(1)))),
        Instr::I32Zero => Some(Ok(s.push(Value::I32(0)))),
        Instr::I8Const(v) => Some(Ok(s.push(Value::I8(v)))),
        Instr::I16Const(v) => Some(Ok(s.push(Value::I16(v)))),
        Instr::I32Const(v) => Some(Ok(s.push(Value::I32(v)))),
        Instr::I64Const(v) => Some(Ok(s.push(Value::I64(v)))),
        Instr::U8Const(v) => Some(Ok(s.push(Value::U8(v)))),
        Instr::U16Const(v) => Some(Ok(s.push(Value::U16(v)))),
        Instr::U32Const(v) => Some(Ok(s.push(Value::U32(v)))),
        Instr::U64Const(v) => Some(Ok(s.push(Value::U64(v)))),
        Instr::F32Const(v) => Some(Ok(s.push(Value::F32(v)))),
        Instr::F64Const(v) => Some(Ok(s.push(Value::F64(v)))),
        Instr::NameConst(idx) => Some(
            Ok(s.push(Value::InternStr(StringType::Name, VMIndex(idx.0)))),
        ),
        Instr::StringConst(idx) => Some(
            Ok(s.push(Value::InternStr(StringType::String, VMIndex(idx.0)))),
        ),
        Instr::TweakDbIdConst(idx) => Some(
            Ok(s.push(Value::InternStr(StringType::TweakDbId, VMIndex(idx.0)))),
        ),
        Instr::ResourceConst(idx) => Some(
            Ok(s.push(Value::InternStr(StringType::Resource, VMIndex(idx.0)))),
        ),
        Instr::EnumConst(_, member) => match env.pool.spec_enum_value(member) {
            Some(v) => Some(Ok(s.push(Value::EnumVal(v)))),
            None => Some(Err(Fault::InvalidBytecode)),
        },
        Instr::TrueConst => Some(Ok(s.push(Value::Bool(true)))),
        Instr::FalseConst => Some(Ok(s.push(Value::Bool(false)))),
        _ => Some(Err(Fault::Todo)),
    }
}

/// What an array instruction does once its operands lie on the stack.
pub open spec fn apply_array(env: Env, instr: Instr, s: State) -> Option<Result<State, Fault>> {
    match instr {
        Instr::ArrayClear(_) => Some(s.array_clear()),
        Instr::ArraySize(_) => Some(s.array_size()),
        Instr::ArrayResize(_) | Instr::ArrayGrow(_) => Some(s.array_resize()),
        Instr::ArrayFindFirst(_) | Instr::ArrayFindFirstFast(_) => Some(s.array_find_first()),
        Instr::ArrayFindLast(_) | Instr::ArrayFindLastFast(_) => Some(s.array_find_last()),
        Instr::ArrayContains(_) | Instr::ArrayContainsFast(_) => Some(s.array_contains()),
        Instr::ArrayCount(_) | Instr::ArrayCountFast(_) => Some(s.array_count()),
        Instr::ArrayPush(_) => Some(s.array_push()),
        Instr::ArrayPop(_) => Some(s.array_pop()),
        Instr::ArrayInsert(_) => Some(s.array_insert()),
        Instr::ArrayRemove(_) | Instr::ArrayRemoveFast(_) => Some(s.array_remove()),
        Instr::ArrayErase(_) | Instr::ArrayEraseFast(_) => Some(s.array_erase()),
        Instr::ArrayLast(_) => Some(s.array_last()),
        Instr::ArrayElement(_) => Some(s.array_element()),
        _ => apply_constant(env, instr, s),
    }
}

/// What a plain instruction does once its operands lie on the stack. There
/// is no answer where it depends on the host.
pub open spec fn apply(env: Env, instr: Instr, s: State, pin: bool) -> Option<Result<State, Fault>> {
    match instr {
        Instr::Local(idx) | Instr::Param(idx) => Some(s.load_local(idx.0, pin)),
        Instr::ObjectField(idx) => Some(s.load_object_field(idx.0, pin)),
        Instr::StructField(idx) => Some(s.load_struct_field(idx.0, pin)),
        Instr::Construct(n, class) => match env.pool.spec_class(class) {
            Some(c) => Some(s.construct(n as int, c.fields@)),
            None => Some(Err(Fault::InvalidBytecode)),
        },
        Instr::Equals(_) => Some(s.compare(false)),
        Instr::NotEquals(_) => Some(s.compare(true)),
        Instr::New(class) => Some(
            s.new_object(env.types, &env.pool, class, env.classes.contains(class.0)),
        ),
        Instr::This => Some(s.push_this()),
        Instr::RefToBool | Instr::WeakRefToBool => Some(s.ref_to_bool()),
        Instr::EnumToI32(_, _) => Some(s.enum_to_i32()),
        Instr::I32ToEnum(_, _) => Some(s.i32_to_enum()),
        Instr::DynamicCast(expected, _) => Some(s.dynamic_cast(&env.pool, expected)),
        Instr::ToString(_) | Instr::VariantToString => s.stringify(&env.pool, TEXT_DEPTH as nat),
        Instr::FromVariant(typ) => match lookup(env.types, typ.0) {
            Some(t) => Some(s.from_variant(t)),
            None => Some(Err(Fault::InvalidBytecode)),
        },
        Instr::VariantIsDefined => Some(s.variant_is_defined()),
        Instr::VariantIsRef => Some(s.variant_is_ref()),
        Instr::VariantIsArray => Some(s.variant_is_array()),
        Instr::AsRef(_) => Some(s.as_ref()),
        Instr::Deref(_) => Some(s.deref()),
        _ => apply_array(env, instr, s),
    }
}

/// The place of the instruction that lies `offset` bytes from the one at
/// place `ip`.
pub open spec fn target(code: Seq<(u16, Instr)>, ip: int, offset: Offset) -> Option<int> {
    match location_at(code, ip) {
        Some(location) => target_from(code, location, offset),
        None => None,
    }
}

/// The place of the instruction that lies `offset` bytes from the byte
/// position `location`.
pub open spec fn target_from(code: Seq<(u16, Instr)>, location: Location, offset: Offset) -> Option<
    int,
> {
    match offset.spec_absolute(location) {
        Some(to) => sought(code, to),
        None => None,
    }
}

/// The outcome with the next instruction at the jump target, where there is
/// one.
pub open spec fn landed(step: Step, to: Option<int>) -> Outcome {
    match to {
        Some(ip) => Outcome::Done(Step { ip, action: Action::Continue, ..step }),
        None => Outcome::Fails(Fault::InvalidBytecode),
    }
}

/// One instruction, with the expressions that it takes. The instruction is
/// the one at place `ip` of `code`; `pin` asks that the local or field that
/// it reads become a reference cell. Every instruction that runs takes one
/// from `budget`.
pub open spec fn exec(
    env: Env,
    s: State,
    code: Seq<(u16, Instr)>,
    ip: int,
    pin: bool,
    budget: nat,
) -> Outcome
    decreases budget, 0int, 0int,
{
    if budget == 0 {
        Outcome::Fails(Fault::BudgetExhausted)
    } else {
        let left = (budget - 1) as nat;
        let next = advanced(code, ip, 1);
        match instr_at(code, ip) {
            None => Outcome::Done(Step { state: s, ip: next, action: Action::Exit, budget: left }),
            Some(Instr::Return) => give_back(env, s, code, next, left),
            Some(instr) => step(env, s, code, ip, instr, pin, left).settled(),
        }
    }
}

/// What the instruction `instr`, which stands at place `ip`, does, unless
/// it is a `Return`.
pub open spec fn step(
    env: Env,
    s: State,
    code: Seq<(u16, Instr)>,
    ip: int,
    instr: Instr,
    pin: bool,
    budget: nat,
) -> Outcome
    decreases budget, 7int, 0int,
{
    let next = advanced(code, ip, 1);
    match instr {
        Instr::Assign => assignment(env, s, code, next, budget),
        Instr::Switch(_, _) => switch(env, s, code, next, budget),
        Instr::Jump(offset) => landed(
            Step { state: s, ip: next, action: Action::Continue, budget },
            target(code, ip, offset),
        ),
        Instr::JumpIfFalse(offset) => jump_if_false(env, s, code, ip, offset, budget),
        Instr::Conditional(when_false, exit) => conditional(
            env,
            s,
            code,
            ip,
            when_false,
            exit,
            budget,
        ),
        Instr::InvokeStatic(_, _, idx, _) => call_static(env, s, code, next, idx, budget),
        Instr::InvokeVirtual(_, _, name, _) => invoke_virtual(env, s, code, next, name, budget),
        Instr::Context(_) => context(env, s, code, next, budget),
        _ => plain(env, s, code, next, instr, pin, budget),
    }
}

/// Whether a plain instruction takes no operands and makes no object.
pub open spec fn reads_only(instr: Instr) -> bool {
    operand_count(instr) == 0 && !(instr is New) && !(instr is Construct)
}

/// Whether the instruction `instr`, with the code after it at place `next`,
/// is one that does its work or leaves the arena as it was: one that takes
/// no operands and makes no object, one that is refused before its
/// operands run, a jump, an assignment to what cannot be assigned to, a
/// call without arguments where there is nothing to call, or a call of a
/// method for which the receiver has no function.
pub open spec fn undivided(env: Env, s: State, code: Seq<(u16, Instr)>, next: int, instr: Instr) -> bool {
    match instr {
        Instr::Return
        | Instr::Switch(_, _)
        | Instr::JumpIfFalse(_)
        | Instr::Conditional(_, _)
        | Instr::Context(_) => false,
        Instr::InvokeStatic(_, _, idx, _) => calls_nothing(env, idx),
        Instr::Jump(_) => true,
        Instr::Assign => match instr_at(code, next) {
            Some(Instr::Local(_))
            | Some(Instr::Param(_))
            | Some(Instr::ObjectField(_))
            | Some(Instr::StructField(_))
            | Some(Instr::ArrayElement(_))
            | Some(Instr::Context(_)) => false,
            _ => true,
        },
        Instr::InvokeVirtual(_, _, name, _) => virtual_target(env, s, name) is Err,
        _ => reads_only(instr) || precheck(env, instr) is Some,
    }
}

/// Whether the instruction at place `ip` leaves the arena as it was where
/// it fails: there is no budget for it, or it is undivided.
pub open spec fn fails_untouched(env: Env, s: State, code: Seq<(u16, Instr)>, ip: int, budget: nat) -> bool {
    budget == 0 || (instr_at(code, ip) matches Some(instr) && undivided(
        env,
        s,
        code,
        advanced(code, ip, 1),
        instr,
    ))
}

/// `count` expressions in a row, the first at place `ip`.
pub open spec fn operands(
    env: Env,
    s: State,
    code: Seq<(u16, Instr)>,
    ip: int,
    count: nat,
    budget: nat,
) -> Outcome
    decreases budget, 1int, count,
{
    if count == 0 {
        Outcome::Done(Step { state: s, ip, action: Action::Continue, budget })
    } else {
        match exec(env, s, code, ip, false, budget) {
            Outcome::Done(step) => if step.budget <= budget {
                operands(env, step.state, code, step.ip, (count - 1) as nat, step.budget)
            } else {
                Outcome::Unspecified
            },
            other => other,
        }
    }
}

/// A plain instruction: its operands run, then it does its work on the
/// arena.
pub open spec fn plain(
    env: Env,
    s: State,
    code: Seq<(u16, Instr)>,
    ip: int,
    instr: Instr,
    pin: bool,
    budget: nat,
) -> Outcome
    decreases budget, 2int, 0int,
{
    match precheck(env, instr) {
        Some(fault) => Outcome::Fails(fault),
        None => match operands(env, s, code, ip, operand_count(instr), budget) {
            Outcome::Done(step) => match apply(env, instr, step.state, pin) {
                None => Outcome::Unspecified,
                Some(Err(fault)) => Outcome::Fails(fault),
                Some(Ok(state)) => Outcome::Done(
                    Step { state, action: Action::Continue, ..step },
                ),
            },
            other => other,
        }
    }
}

/// `JumpIfFalse`: the condition runs; where it is false the code goes on at
/// the jump target.
pub open spec fn jump_if_false(
    env: Env,
    s: State,
    code: Seq<(u16, Instr)>,
    ip: int,
    offset: Offset,
    budget: nat,
) -> Outcome
    decreases budget, 2int, 0int,
{
    match operands(env, s, code, advanced(code, ip, 1), 1, budget) {
        Outcome::Done(step) => match step.state.take_bool() {
            Err(fault) => Outcome::Fails(fault),
            Ok((state, condition)) => if condition {
                Outcome::Done(Step { state, action: Action::Continue, ..step })
            } else {
                landed(Step { state, ..step }, target(code, ip, offset))
            },
        },
        other => other,
    }
}

/// `Conditional`: the condition runs; where it is false the code goes to
/// the first target; one expression runs; the code goes on at the second
/// target.
pub open spec fn conditional(
    env: Env,
    s: State,
    code: Seq<(u16, Instr)>,
    ip: int,
    when_false: Offset,
    exit: Offset,
    budget: nat,
) -> Outcome
    decreases budget, 2int, 0int,
{
    match operands(env, s, code, advanced(code, ip, 1), 1, budget) {
        Outcome::Done(step) => match step.state.take_bool() {
            Err(fault) => Outcome::Fails(fault),
            Ok((state, condition)) => match (if condition {
                Some(step.ip)
            } else {
                target(code, ip, when_false)
            }) {
                None => Outcome::Fails(Fault::InvalidBytecode),
                Some(branch) => if step.budget <= budget {
                    match operands(env, state, code, branch, 1, step.budget) {
                        Outcome::Done(taken) => landed(taken, target(code, ip, exit)),
                        other => other,
                    }
                } else {
                    Outcome::Unspecified
                },
            },
        },
        other => other,
    }
}

/// `Return`: where a `Nop` follows, the function returns without a value;
/// else the expression that follows runs and its value is returned.
pub open spec fn give_back(env: Env, s: State, code: Seq<(u16, Instr)>, ip: int, budget: nat) -> Outcome
    decreases budget, 2int, 0int,
{
    if instr_at(code, ip) == Some(Instr::Nop) {
        Outcome::Done(Step { state: s, ip, action: Action::Exit, budget })
    } else {
        match operands(env, s, code, ip, 1, budget) {
            Outcome::Done(step) => Outcome::Done(Step { action: Action::Return, ..step }),
            other => other,
        }
    }
}

/// `Context`: the receiver runs and becomes the receiver of what follows;
/// one expression runs; the receiver before is the receiver again.
pub open spec fn context(env: Env, s: State, code: Seq<(u16, Instr)>, ip: int, budget: nat) -> Outcome
    decreases budget, 2int, 0int,
{
    match operands(env, s, code, ip, 1, budget) {
        Outcome::Done(step) => match step.state.enter_context() {
            Err(fault) => Outcome::Fails(fault),
            Ok(entered) => if step.budget <= budget {
                match operands(env, entered, code, step.ip, 1, step.budget) {
                    Outcome::Done(inner) => Outcome::Done(
                        Step {
                            state: inner.state.leave_context(),
                            action: Action::Continue,
                            ..inner
                        },
                    ),
                    other => other,
                }
            } else {
                Outcome::Unspecified
            },
        },
        other => other,
    }
}

/// `Assign`: the instruction at place `ip` names the target; the value
/// follows it.
pub open spec fn assignment(env: Env, s: State, code: Seq<(u16, Instr)>, ip: int, budget: nat) -> Outcome
    decreases budget, 2int, 1int,
{
    let next = advanced(code, ip, 1);
    match instr_at(code, ip) {
        None => Outcome::Fails(Fault::InvalidBytecode),
        Some(Instr::Local(idx)) | Some(Instr::Param(idx)) => operands(
            env,
            s,
            code,
            next,
            1,
            budget,
        ).followed_by(|state: State| state.assign_local(idx.0)),
        Some(Instr::ObjectField(idx)) => operands(env, s, code, next, 1, budget).followed_by(
            |state: State| state.assign_object_field(idx.0),
        ),
        Some(Instr::StructField(idx)) => operands(env, s, code, next, 2, budget).followed_by(
            |state: State| state.assign_struct_field(idx.0),
        ),
        Some(Instr::ArrayElement(_)) => operands(env, s, code, next, 3, budget).followed_by(
            |state: State| state.assign_array_element(),
        ),
        Some(Instr::Context(_)) => assignment_to_field(env, s, code, next, budget),
        Some(_) => Outcome::Fails(Fault::UnsupportedAssignmentOperand),
    }
}

/// Assignment to a field of an object that is computed: the object runs,
/// the instruction after it names the field, the value follows.
pub open spec fn assignment_to_field(
    env: Env,
    s: State,
    code: Seq<(u16, Instr)>,
    ip: int,
    budget: nat,
) -> Outcome
    decreases budget, 2int, 0int,
{
    match operands(env, s, code, ip, 1, budget) {
        Outcome::Done(step) => match instr_at(code, step.ip) {
            None => Outcome::Fails(Fault::InvalidBytecode),
            Some(Instr::ObjectField(idx)) => if step.budget <= budget {
                operands(
                    env,
                    step.state,
                    code,
                    advanced(code, step.ip, 1),
                    1,
                    step.budget,
                ).followed_by(|state: State| state.assign_context_field(idx.0))
            } else {
                Outcome::Unspecified
            },
            Some(_) => Outcome::Fails(Fault::UnsupportedAssignmentOperand),
        },
        other => other,
    }
}

/// The labels of a `Switch`, the first at place `ip`: for each label the
/// value that the switch looks at, which is the topmost of the first `sp`
/// operands, is compared with the value of the label; the code goes on at the body of
/// the first label that equals it, or after the last label.
pub open spec fn switch_labels(
    env: Env,
    s: State,
    code: Seq<(u16, Instr)>,
    ip: int,
    position: Location,
    sp: int,
    budget: nat,
) -> Outcome
    decreases budget, 2int, 0int,
{
    match instr_at(code, ip) {
        Some(Instr::SwitchLabel(next, body)) => if !(0 < sp <= s.stack.len()) {
            Outcome::Fails(Fault::InvalidBytecode)
        } else {
            match operands(env, s.push(s.stack[sp - 1]), code, advanced(code, ip, 1), 1, budget) {
                Outcome::Done(step) => match step.state.compare(false) {
                    Err(fault) => Outcome::Fails(fault),
                    Ok(compared) => match compared.take_bool() {
                        Err(fault) => Outcome::Fails(fault),
                        Ok((state, equal)) => if equal {
                            landed(Step { state, ..step }, target_from(code, position, body))
                        } else {
                            match next.spec_absolute(position) {
                                None => Outcome::Fails(Fault::InvalidBytecode),
                                Some(following) => match sought(code, following) {
                                    None => Outcome::Fails(Fault::InvalidBytecode),
                                    Some(to) => if step.budget < budget {
                                        switch_labels(
                                            env,
                                            state,
                                            code,
                                            to,
                                            following,
                                            sp,
                                            step.budget,
                                        )
                                    } else {
                                        Outcome::Unspecified
                                    },
                                },
                            }
                        },
                    },
                },
                other => other,
            }
        },
        _ => Outcome::Done(Step { state: s, ip, action: Action::Continue, budget }),
    }
}

/// `Switch`: the value to look at runs and stays on the stack; then the
/// labels run, and what they left above that value is taken off again.
pub open spec fn switch(env: Env, s: State, code: Seq<(u16, Instr)>, ip: int, budget: nat) -> Outcome
    decreases budget, 3int, 0int,
{
    match operands(env, s, code, ip, 1, budget) {
        Outcome::Done(step) => match location_at(code, step.ip) {
            None => Outcome::Fails(Fault::InvalidBytecode),
            Some(position) => if step.budget <= budget {
                match switch_labels(
                    env,
                    step.state,
                    code,
                    step.ip,
                    position,
                    step.state.stack.len() as int,
                    step.budget,
                ) {
                    Outcome::Done(chosen) => Outcome::Done(
                        Step {
                            state: chosen.state.with_stack(
                                resized(chosen.state.stack, step.state.stack.len() as int),
                            ),
                            ..chosen
                        },
                    ),
                    other => other,
                }
            } else {
                Outcome::Unspecified
            },
        },
        other => other,
    }
}

/// The instructions of a function from place `ip` on, until the code ends
/// or the function returns.
pub open spec fn run(env: Env, s: State, code: Seq<(u16, Instr)>, ip: int, budget: nat) -> Outcome
    decreases budget, 2int, 0int,
{
    match exec(env, s, code, ip, false, budget) {
        Outcome::Done(step) => match step.action {
            Action::Continue => if step.budget < budget {
                run(env, step.state, code, step.ip, step.budget)
            } else {
                Outcome::Unspecified
            },
            _ => Outcome::Done(step),
        },
        other => other,
    }
}

/// The code `code` of the function at `idx`, from its first instruction to
/// its end, in a state in which the call has begun; then the end of the
/// call.
pub open spec fn run_function(
    env: Env,
    entered: State,
    idx: PoolIndex,
    code: Seq<(u16, Instr)>,
    budget: nat,
) -> Outcome
    decreases budget, 3int, 0int,
{
    if !env.functions.contains(idx.0) || !increasing(
        code.map_values(|entry: (u16, Instr)| entry.0),
    ) {
        Outcome::Fails(Fault::InvalidBytecode)
    } else {
        match run(env, entered, code, 0, budget) {
            Outcome::Done(step) => match step.state.exit(
                entered.stack.len() as int,
                step.action == Action::Return,
            ) {
                Ok(state) => Outcome::Done(Step { state, ip: 0, ..step }),
                Err(fault) => Outcome::Fails(fault),
            },
            other => other,
        }
    }
}

/// The call of the host function that is registered for the function at
/// `idx`: it does to the arena what it promises, and what it gives back
/// goes onto the operand stack. What it does not promise is up to the host.
pub open spec fn native_call(env: Env, s: State, idx: PoolIndex, budget: nat) -> Outcome {
    if env.natives.contains_key(idx.0) {
        match env.natives[idx.0].effect(s, &env.pool) {
            None => Outcome::Unspecified,
            Some(Err(fault)) => Outcome::Fails(fault),
            Some(Ok((state, Some(value)))) => Outcome::Done(
                Step { state: state.push(value), ip: 0, action: Action::Return, budget },
            ),
            Some(Ok((state, None))) => Outcome::Done(
                Step { state, ip: 0, action: Action::Exit, budget },
            ),
        }
    } else {
        match env.pool.spec_def_name(idx) {
            Some(name) => Outcome::Fails(Fault::UndefinedNative(name)),
            None => Outcome::Fails(Fault::InvalidBytecode),
        }
    }
}

/// Whether there is nothing to call at `idx`: no function, or a native
/// function for which the host has registered none.
pub open spec fn no_callee(env: Env, idx: PoolIndex) -> bool {
    match env.pool.spec_function(idx) {
        None => true,
        Some(function) => function.flags.is_native && !env.natives.contains_key(idx.0),
    }
}

/// Whether a call of the function at `idx` ends before anything has run:
/// there is nothing to call, and the function, if there is one, takes no
/// arguments that would run first.
pub open spec fn calls_nothing(env: Env, idx: PoolIndex) -> bool {
    no_callee(env, idx) && (env.pool.spec_function(idx) matches Some(function)
        ==> function.parameters@.len() == 0)
}

/// The call of the function at `idx` with the topmost operands as the
/// arguments named by `params`. A native function is the host's; any other
/// function runs from its first instruction. The result tells by its action
/// whether the function returned a value.
pub open spec fn call_with_params(
    env: Env,
    s: State,
    idx: PoolIndex,
    params: Seq<PoolIndex>,
    budget: nat,
) -> Outcome
    decreases budget, 4int, 0int,
{
    match env.pool.spec_function(idx) {
        None => Outcome::Fails(Fault::InvalidBytecode),
        Some(function) => if function.flags.is_native {
            native_call(env, s, idx, budget)
        } else {
            match s.enter(env.types, &env.pool, params, function.locals@) {
                Err(fault) => Outcome::Fails(fault),
                Ok(entered) => run_function(env, entered, idx, function.code@, budget),
            }
        },
    }
}

/// The arguments of a call from the `i`-th on, the first at place `ip`, and
/// then the call. An argument whose parameter is an out parameter runs with
/// `pin` set. A `Nop` in the place of an argument leaves the parameter out
/// of `given`. A `ParamEnd` after the last argument is passed over.
pub open spec fn arguments(
    env: Env,
    s: State,
    code: Seq<(u16, Instr)>,
    ip: int,
    idx: PoolIndex,
    params: Seq<PoolIndex>,
    i: int,
    given: Seq<PoolIndex>,
    budget: nat,
) -> Outcome
    decreases budget, 5int, params.len() - i,
{
    if i < 0 || i >= params.len() {
        match call_with_params(env, s, idx, given, budget) {
            Outcome::Done(step) => Outcome::Done(
                Step {
                    ip: if instr_at(code, ip) == Some(Instr::ParamEnd) {
                        advanced(code, ip, 1)
                    } else {
                        ip
                    },
                    action: Action::Continue,
                    ..step
                },
            ),
            other => other,
        }
    } else {
        match env.pool.spec_parameter(params[i]) {
            None => Outcome::Fails(Fault::InvalidBytecode),
            Some(parameter) => match exec(env, s, code, ip, parameter.flags.is_out, budget) {
                Outcome::Done(step) => if step.budget <= budget {
                    arguments(
                        env,
                        step.state,
                        code,
                        step.ip,
                        idx,
                        params,
                        i + 1,
                        if instr_at(code, ip) == Some(Instr::Nop) {
                            given
                        } else {
                            given.push(params[i])
                        },
                        step.budget,
                    )
                } else {
                    Outcome::Unspecified
                },
                other => other,
            },
        }
    }
}

/// `InvokeStatic`: the arguments run, then the function at `idx` is called.
pub open spec fn call_static(
    env: Env,
    s: State,
    code: Seq<(u16, Instr)>,
    ip: int,
    idx: PoolIndex,
    budget: nat,
) -> Outcome
    decreases budget, 6int, 0int,
{
    match env.pool.spec_function(idx) {
        None => Outcome::Fails(Fault::InvalidBytecode),
        Some(function) => arguments(
            env,
            s,
            code,
            ip,
            idx,
            function.parameters@,
            0,
            Seq::empty(),
            budget,
        ),
    }
}

/// The function that the name at `name` stands for in the class of the
/// receiver.
pub open spec fn virtual_target(env: Env, s: State, name: PoolIndex) -> Result<PoolIndex, Fault> {
    match s.context_tag() {
        Err(fault) => Err(fault),
        Ok(tag) => if env.classes.contains(tag.0) {
            match vtable_of(&env.pool, PoolIndex(tag.0)) {
                None => Err(Fault::InvalidBytecode),
                Some(table) => match lookup(table, name.0) {
                    None => Err(Fault::InvalidBytecode),
                    Some(function) => Ok(PoolIndex(function.0)),
                },
            }
        } else {
            Err(Fault::InvalidBytecode)
        },
    }
}

/// `InvokeVirtual`: calls the function that the name stands for in the
/// class of the receiver.
pub open spec fn invoke_virtual(
    env: Env,
    s: State,
    code: Seq<(u16, Instr)>,
    ip: int,
    name: PoolIndex,
    budget: nat,
) -> Outcome
    decreases budget, 6int, 1int,
{
    match virtual_target(env, s, name) {
        Err(fault) => Outcome::Fails(fault),
        Ok(idx) => call_static(env, s, code, ip, idx, budget),
    }
}

} // verus!
