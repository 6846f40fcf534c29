//! Running code: one instruction with the expressions that it takes, and
//! the instructions that are made of several steps.
use vstd::prelude::*;
use crate::array;
use crate::error::{Fault, RuntimeError, RuntimeResult};
use crate::frame::{advanced, instr_at, location_at, Frame};
use crate::pool::{Instr, Location, Offset, PoolIndex};
use crate::protocol::enter;
use crate::semantics::{
    arguments, assignment, assignment_to_field, call_static, call_with_params, conditional,
    context, exec, give_back, invoke_virtual, jump_if_false, native_call, operand_count, operands,
    calls_nothing, fails_untouched, no_callee, plain, precheck, reads_only, run, run_function, step, switch, switch_labels, undivided,
    virtual_target, Action, Outcome,
};
use crate::state::{same_scopes, State};
use crate::vm::{jump, lemma_env_kept, performed, realized, same_frame, VM};
use crate::vtable::{code_offsets, increasing};

verus! {

/// As `realized`, for a call, which tells whether it gave back a value.
pub open spec fn returned(o: Outcome, r: RuntimeResult<bool>, after: State, budget: nat) -> bool {
    match o {
        Outcome::Unspecified => true,
        Outcome::Fails(fault) => r matches Err(e) && e@ == fault,
        Outcome::Done(step) => r == Ok::<bool, RuntimeError>(step.action == Action::Return)
            && after == step.state && budget == step.budget,
    }
}

impl<'pool> VM<'pool> {
    /// Runs the instruction that comes next in `frame`, with the
    /// expressions that it takes.
    pub fn exec(&mut self, frame: &mut Frame) -> (r: RuntimeResult<Action>)
        requires
            old(self).wf(),
            old(frame).wf(),
        ensures
            final(self).follows(old(self)),
            r is Ok ==> same_scopes(final(self).arena@, old(self).arena@),
            same_frame(final(frame), old(frame)),
            r is Ok ==> final(self).budget < old(self).budget,
            realized(
                exec(
                    old(self).env(),
                    old(self).arena@,
                    old(frame).code(),
                    old(frame).ip as int,
                    false,
                    old(self).budget as nat,
                ),
                r,
                final(self).arena@,
                final(frame).ip as int,
                final(self).budget as nat,
            ),
            r is Err && fails_untouched(
                old(self).env(),
                old(self).arena@,
                old(frame).code(),
                old(frame).ip as int,
                old(self).budget as nat,
            ) ==> final(self).arena@ == old(self).arena@,
        decreases old(self).budget, 0int, 1int,
    {
        self.exec_with(frame, false)
    }

    /// Runs the instruction that comes next in `frame`. Where `pin` is set
    /// and the instruction reads a local or a field, that local or field
    /// becomes a reference cell. Where it has run, as many calls are under
    /// way and as many receivers are set as before. Where it fails for want
    /// of budget, or is an undivided instruction and fails, the arena is as
    /// it was.
    #[verifier::rlimit(50)]
    pub fn exec_with(&mut self, frame: &mut Frame, pin: bool) -> (r: RuntimeResult<Action>)
        requires
            old(self).wf(),
            old(frame).wf(),
        ensures
            final(self).follows(old(self)),
            r is Ok ==> same_scopes(final(self).arena@, old(self).arena@),
            same_frame(final(frame), old(frame)),
            r is Ok ==> final(self).budget < old(self).budget,
            realized(
                exec(
                    old(self).env(),
                    old(self).arena@,
                    old(frame).code(),
                    old(frame).ip as int,
                    pin,
                    old(self).budget as nat,
                ),
                r,
                final(self).arena@,
                final(frame).ip as int,
                final(self).budget as nat,
            ),
            r is Err && fails_untouched(
                old(self).env(),
                old(self).arena@,
                old(frame).code(),
                old(frame).ip as int,
                old(self).budget as nat,
            ) ==> final(self).arena@ == old(self).arena@,
        decreases old(self).budget, 0int, 0int,
    {
        if self.budget == 0 {
            return Err(RuntimeError::BudgetExhausted);
        }
        self.budget = self.budget - 1;
        let at = frame.ip;
        let location = frame.location();
        let instr = match frame.next_instr() {
            Some(instr) => instr,
            None => {
                return Ok(Action::Exit);
            },
        };
        match instr {
            Instr::Return => {
                return self.give_back(frame);
            },
            _ => {},
        }
        self.step(frame, instr, at, location, pin)?;
        self.check_gc();
        Ok(Action::Continue)
    }

    /// Does what the instruction `instr` asks for, which stood at place
    /// `at` and byte position `location` and is no `Return`.
    pub fn step(
        &mut self,
        frame: &mut Frame,
        instr: Instr,
        at: usize,
        location: Option<Location>,
        pin: bool,
    ) -> (r: RuntimeResult<()>)
        requires
            old(self).wf(),
            old(frame).wf(),
            old(frame).ip == advanced(old(frame).code(), at as int, 1),
            location == location_at(old(frame).code(), at as int),
            instr_at(old(frame).code(), at as int) == Some(instr),
        ensures
            final(self).follows(old(self)),
            r is Ok ==> same_scopes(final(self).arena@, old(self).arena@),
            same_frame(final(frame), old(frame)),
            performed(
                step(
                    old(self).env(),
                    old(self).arena@,
                    old(frame).code(),
                    at as int,
                    instr,
                    pin,
                    old(self).budget as nat,
                ),
                r,
                final(self).arena@,
                final(frame).ip as int,
                final(self).budget as nat,
            ),
            r is Err && undivided(
                old(self).env(),
                old(self).arena@,
                old(frame).code(),
                old(frame).ip as int,
                instr,
            ) ==> final(self).arena@ == old(self).arena@,
        decreases old(self).budget, 7int, 0int,
    {
        match instr {
            Instr::Assign => self.assignment(frame),
            Instr::Switch(_, _) => self.switch(frame),
            Instr::Jump(offset) => jump(frame, location, offset),
            Instr::JumpIfFalse(offset) => self.jump_if_false(frame, at, location, offset),
            Instr::Conditional(when_false, exit) => self.conditional(
                frame,
                at,
                location,
                when_false,
                exit,
            ),
            Instr::InvokeStatic(_, _, idx, _) => self.call_static(idx, frame),
            Instr::InvokeVirtual(_, _, name, _) => self.invoke_virtual(name, frame),
            Instr::Context(_) => self.context(frame),
            other => self.plain_or_array(frame, other, pin),
        }
    }

    /// Runs a plain instruction; the array instructions have functions of
    /// their own.
    pub fn plain_or_array(&mut self, frame: &mut Frame, instr: Instr, pin: bool) -> (r: RuntimeResult<
        (),
    >)
        requires
            old(self).wf(),
            old(frame).wf(),
        ensures
            final(self).follows(old(self)),
            r is Ok ==> same_scopes(final(self).arena@, old(self).arena@),
            same_frame(final(frame), old(frame)),
            performed(
                plain(
                    old(self).env(),
                    old(self).arena@,
                    old(frame).code(),
                    old(frame).ip as int,
                    instr,
                    pin,
                    old(self).budget as nat,
                ),
                r,
                final(self).arena@,
                final(frame).ip as int,
                final(self).budget as nat,
            ),
            r is Err && (reads_only(instr) || precheck(old(self).env(), instr) is Some)
                ==> final(self).arena@ == old(self).arena@,
        decreases old(self).budget, 3int, 0int,
    {
        match instr {
            Instr::ArrayClear(_) => array::clear(self, frame),
            Instr::ArraySize(_) => array::size(self, frame),
            Instr::ArrayResize(_) | Instr::ArrayGrow(_) => array::resize(self, frame),
            Instr::ArrayFindFirst(_) | Instr::ArrayFindFirstFast(_) => array::find_first(
                self,
                frame,
            ),
            Instr::ArrayFindLast(_) | Instr::ArrayFindLastFast(_) => array::find_last(self, frame),
            Instr::ArrayContains(_) | Instr::ArrayContainsFast(_) => array::contains(self, frame),
            Instr::ArrayCount(_) | Instr::ArrayCountFast(_) => array::count(self, frame),
            Instr::ArrayPush(_) => array::push(self, frame),
            Instr::ArrayPop(_) => array::pop(self, frame),
            Instr::ArrayInsert(_) => array::insert(self, frame),
            Instr::ArrayRemove(_) | Instr::ArrayRemoveFast(_) => array::remove(self, frame),
            Instr::ArrayErase(_) | Instr::ArrayEraseFast(_) => array::erase(self, frame),
            Instr::ArrayLast(_) => array::last(self, frame),
            Instr::ArrayElement(_) => array::element(self, frame),
            other => self.plain(frame, other, pin),
        }
    }

    /// Runs `count` expressions in a row.
    pub fn operands(&mut self, frame: &mut Frame, count: usize) -> (r: RuntimeResult<()>)
        requires
            old(self).wf(),
            old(frame).wf(),
        ensures
            final(self).follows(old(self)),
            r is Ok ==> same_scopes(final(self).arena@, old(self).arena@),
            same_frame(final(frame), old(frame)),
            r is Ok && count > 0 ==> final(self).budget < old(self).budget,
            performed(
                operands(
                    old(self).env(),
                    old(self).arena@,
                    old(frame).code(),
                    old(frame).ip as int,
                    count as nat,
                    old(self).budget as nat,
                ),
                r,
                final(self).arena@,
                final(frame).ip as int,
                final(self).budget as nat,
            ),
        decreases old(self).budget, 1int, count,
    {
        let ghost whole = operands(
            old(self).env(),
            old(self).arena@,
            old(frame).code(),
            old(frame).ip as int,
            count as nat,
            old(self).budget as nat,
        );
        let mut i: usize = 0;
        while i < count
            invariant
                i <= count,
                self.follows(old(self)),
                same_scopes(self.arena@, old(self).arena@),
                i > 0 ==> self.budget < old(self).budget,
                same_frame(frame, old(frame)),
                whole == operands(
                    old(self).env(),
                    old(self).arena@,
                    old(frame).code(),
                    old(frame).ip as int,
                    count as nat,
                    old(self).budget as nat,
                ),
                whole is Unspecified || whole == operands(
                    self.env(),
                    self.arena@,
                    frame.code(),
                    frame.ip as int,
                    (count - i) as nat,
                    self.budget as nat,
                ),
            decreases count - i,
        {
            self.exec(frame)?;
            i += 1;
        }
        Ok(())
    }

    /// Runs a plain instruction: its operands, then its work on the arena.
    pub fn plain(&mut self, frame: &mut Frame, instr: Instr, pin: bool) -> (r: RuntimeResult<()>)
        requires
            old(self).wf(),
            old(frame).wf(),
        ensures
            final(self).follows(old(self)),
            r is Ok ==> same_scopes(final(self).arena@, old(self).arena@),
            same_frame(final(frame), old(frame)),
            performed(
                plain(
                    old(self).env(),
                    old(self).arena@,
                    old(frame).code(),
                    old(frame).ip as int,
                    instr,
                    pin,
                    old(self).budget as nat,
                ),
                r,
                final(self).arena@,
                final(frame).ip as int,
                final(self).budget as nat,
            ),
            r is Err && (reads_only(instr) || precheck(old(self).env(), instr) is Some)
                ==> final(self).arena@ == old(self).arena@,
        decreases old(self).budget, 2int, 0int,
    {
        match instr {
            Instr::FromVariant(typ) => {
                if self.metadata.get_type(typ).is_none() {
                    return Err(RuntimeError::InvalidBytecode);
                }
            },
            _ => {},
        }
        let count: usize = match instr {
            Instr::Construct(n, _) => n as usize,
            Instr::ArrayInsert(_) => 3,
            Instr::Equals(_) | Instr::NotEquals(_) => 2,
            Instr::StructField(_)
            | Instr::RefToBool
            | Instr::WeakRefToBool
            | Instr::EnumToI32(_, _)
            | Instr::I32ToEnum(_, _)
            | Instr::DynamicCast(_, _)
            | Instr::ToString(_)
            | Instr::VariantToString
            | Instr::ToVariant(_)
            | Instr::FromVariant(_)
            | Instr::VariantIsDefined
            | Instr::VariantIsRef
            | Instr::VariantIsArray
            | Instr::AsRef(_)
            | Instr::Deref(_)
            | Instr::ArrayClear(_)
            | Instr::ArraySize(_)
            | Instr::ArrayPop(_)
            | Instr::ArrayLast(_) => 1,
            Instr::ArrayResize(_)
            | Instr::ArrayGrow(_)
            | Instr::ArrayFindFirst(_)
            | Instr::ArrayFindFirstFast(_)
            | Instr::ArrayFindLast(_)
            | Instr::ArrayFindLastFast(_)
            | Instr::ArrayContains(_)
            | Instr::ArrayContainsFast(_)
            | Instr::ArrayCount(_)
            | Instr::ArrayCountFast(_)
            | Instr::ArrayPush(_)
            | Instr::ArrayRemove(_)
            | Instr::ArrayRemoveFast(_)
            | Instr::ArrayErase(_)
            | Instr::ArrayEraseFast(_)
            | Instr::ArrayElement(_) => 2,
            _ => 0,
        };
        assert(count == operand_count(instr));
        self.operands(frame, count)?;
        self.apply(instr, pin)
    }

    /// `JumpIfFalse`, which stood at place `at` and byte position
    /// `location`.
    pub fn jump_if_false(
        &mut self,
        frame: &mut Frame,
        at: usize,
        location: Option<Location>,
        offset: Offset,
    ) -> (r: RuntimeResult<()>)
        requires
            old(self).wf(),
            old(frame).wf(),
            old(frame).ip == advanced(old(frame).code(), at as int, 1),
            location == location_at(old(frame).code(), at as int),
        ensures
            final(self).follows(old(self)),
            r is Ok ==> same_scopes(final(self).arena@, old(self).arena@),
            same_frame(final(frame), old(frame)),
            performed(
                jump_if_false(
                    old(self).env(),
                    old(self).arena@,
                    old(frame).code(),
                    at as int,
                    offset,
                    old(self).budget as nat,
                ),
                r,
                final(self).arena@,
                final(frame).ip as int,
                final(self).budget as nat,
            ),
        decreases old(self).budget, 2int, 0int,
    {
        self.operands(frame, 1)?;
        let condition = self.arena.take_bool()?;
        if !condition {
            jump(frame, location, offset)?;
        }
        Ok(())
    }

    /// `Conditional`, which stood at place `at` and byte position
    /// `location`.
    pub fn conditional(
        &mut self,
        frame: &mut Frame,
        at: usize,
        location: Option<Location>,
        when_false: Offset,
        exit: Offset,
    ) -> (r: RuntimeResult<()>)
        requires
            old(self).wf(),
            old(frame).wf(),
            old(frame).ip == advanced(old(frame).code(), at as int, 1),
            location == location_at(old(frame).code(), at as int),
        ensures
            final(self).follows(old(self)),
            r is Ok ==> same_scopes(final(self).arena@, old(self).arena@),
            same_frame(final(frame), old(frame)),
            performed(
                conditional(
                    old(self).env(),
                    old(self).arena@,
                    old(frame).code(),
                    at as int,
                    when_false,
                    exit,
                    old(self).budget as nat,
                ),
                r,
                final(self).arena@,
                final(frame).ip as int,
                final(self).budget as nat,
            ),
        decreases old(self).budget, 2int, 0int,
    {
        self.operands(frame, 1)?;
        let condition = self.arena.take_bool()?;
        if !condition {
            jump(frame, location, when_false)?;
        }
        self.operands(frame, 1)?;
        jump(frame, location, exit)
    }

    /// `Return`.
    pub fn give_back(&mut self, frame: &mut Frame) -> (r: RuntimeResult<Action>)
        requires
            old(self).wf(),
            old(frame).wf(),
        ensures
            final(self).follows(old(self)),
            r is Ok ==> same_scopes(final(self).arena@, old(self).arena@),
            same_frame(final(frame), old(frame)),
            realized(
                give_back(
                    old(self).env(),
                    old(self).arena@,
                    old(frame).code(),
                    old(frame).ip as int,
                    old(self).budget as nat,
                ),
                r,
                final(self).arena@,
                final(frame).ip as int,
                final(self).budget as nat,
            ),
        decreases old(self).budget, 2int, 0int,
    {
        let follows_nop = match frame.current_instr() {
            Some(Instr::Nop) => true,
            _ => false,
        };
        if follows_nop {
            Ok(Action::Exit)
        } else {
            self.operands(frame, 1)?;
            Ok(Action::Return)
        }
    }

    /// `Context`.
    pub fn context(&mut self, frame: &mut Frame) -> (r: RuntimeResult<()>)
        requires
            old(self).wf(),
            old(frame).wf(),
        ensures
            final(self).follows(old(self)),
            r is Ok ==> same_scopes(final(self).arena@, old(self).arena@),
            same_frame(final(frame), old(frame)),
            performed(
                context(
                    old(self).env(),
                    old(self).arena@,
                    old(frame).code(),
                    old(frame).ip as int,
                    old(self).budget as nat,
                ),
                r,
                final(self).arena@,
                final(frame).ip as int,
                final(self).budget as nat,
            ),
        decreases old(self).budget, 2int, 0int,
    {
        self.operands(frame, 1)?;
        self.arena.enter_context()?;
        self.operands(frame, 1)?;
        self.arena.leave_context();
        Ok(())
    }

    /// `Assign`.
    pub fn assignment(&mut self, frame: &mut Frame) -> (r: RuntimeResult<()>)
        requires
            old(self).wf(),
            old(frame).wf(),
        ensures
            final(self).follows(old(self)),
            r is Ok ==> same_scopes(final(self).arena@, old(self).arena@),
            same_frame(final(frame), old(frame)),
            performed(
                assignment(
                    old(self).env(),
                    old(self).arena@,
                    old(frame).code(),
                    old(frame).ip as int,
                    old(self).budget as nat,
                ),
                r,
                final(self).arena@,
                final(frame).ip as int,
                final(self).budget as nat,
            ),
            r is Err && undivided(
                old(self).env(),
                old(self).arena@,
                old(frame).code(),
                old(frame).ip as int,
                Instr::Assign,
            ) ==> final(self).arena@ == old(self).arena@,
        decreases old(self).budget, 2int, 1int,
    {
        let target = match frame.next_instr() {
            Some(target) => target,
            None => {
                return Err(RuntimeError::InvalidBytecode);
            },
        };
        match target {
            Instr::Local(idx) | Instr::Param(idx) => {
                self.operands(frame, 1)?;
                self.arena.assign_local(idx)
            },
            Instr::ObjectField(idx) => {
                self.operands(frame, 1)?;
                self.arena.assign_object_field(idx)
            },
            Instr::StructField(idx) => {
                self.operands(frame, 2)?;
                self.arena.assign_struct_field(idx)
            },
            Instr::ArrayElement(_) => {
                self.operands(frame, 3)?;
                self.arena.assign_array_element()
            },
            Instr::Context(_) => self.assignment_to_field(frame),
            _ => Err(RuntimeError::UnsupportedAssignmentOperand),
        }
    }

    /// Assignment to a field of an object that is computed.
    pub fn assignment_to_field(&mut self, frame: &mut Frame) -> (r: RuntimeResult<()>)
        requires
            old(self).wf(),
            old(frame).wf(),
        ensures
            final(self).follows(old(self)),
            r is Ok ==> same_scopes(final(self).arena@, old(self).arena@),
            same_frame(final(frame), old(frame)),
            performed(
                assignment_to_field(
                    old(self).env(),
                    old(self).arena@,
                    old(frame).code(),
                    old(frame).ip as int,
                    old(self).budget as nat,
                ),
                r,
                final(self).arena@,
                final(frame).ip as int,
                final(self).budget as nat,
            ),
        decreases old(self).budget, 2int, 0int,
    {
        self.operands(frame, 1)?;
        match frame.next_instr() {
            None => Err(RuntimeError::InvalidBytecode),
            Some(Instr::ObjectField(idx)) => {
                self.operands(frame, 1)?;
                self.arena.assign_context_field(idx)
            },
            Some(_) => Err(RuntimeError::UnsupportedAssignmentOperand),
        }
    }

    /// The labels of a `Switch`. The value that the switch looks at is the
    /// topmost of the first `sp` operands; `position` is the byte position
    /// of the first label.
    pub fn switch_labels(&mut self, frame: &mut Frame, position: Location, sp: usize) -> (r:
        RuntimeResult<()>)
        requires
            old(self).wf(),
            old(frame).wf(),
        ensures
            final(self).follows(old(self)),
            r is Ok ==> same_scopes(final(self).arena@, old(self).arena@),
            same_frame(final(frame), old(frame)),
            performed(
                switch_labels(
                    old(self).env(),
                    old(self).arena@,
                    old(frame).code(),
                    old(frame).ip as int,
                    position,
                    sp as int,
                    old(self).budget as nat,
                ),
                r,
                final(self).arena@,
                final(frame).ip as int,
                final(self).budget as nat,
            ),
        decreases old(self).budget, 2int, 0int,
    {
        let (next, body) = match frame.current_instr() {
            Some(Instr::SwitchLabel(next, body)) => (next, body),
            _ => {
                return Ok(());
            },
        };
        frame.next_instr();
        if sp == 0 || !self.arena.root.copy(sp - 1) {
            return Err(RuntimeError::InvalidBytecode);
        }
        self.operands(frame, 1)?;
        self.arena.compare(false)?;
        let equal = self.arena.take_bool()?;
        if equal {
            jump(frame, Some(position), body)
        } else {
            let following = match next.absolute(position) {
                Some(following) => following,
                None => {
                    return Err(RuntimeError::InvalidBytecode);
                },
            };
            if !frame.seek(following) {
                return Err(RuntimeError::InvalidBytecode);
            }
            self.switch_labels(frame, following, sp)
        }
    }

    /// `Switch`.
    pub fn switch(&mut self, frame: &mut Frame) -> (r: RuntimeResult<()>)
        requires
            old(self).wf(),
            old(frame).wf(),
        ensures
            final(self).follows(old(self)),
            r is Ok ==> same_scopes(final(self).arena@, old(self).arena@),
            same_frame(final(frame), old(frame)),
            performed(
                switch(
                    old(self).env(),
                    old(self).arena@,
                    old(frame).code(),
                    old(frame).ip as int,
                    old(self).budget as nat,
                ),
                r,
                final(self).arena@,
                final(frame).ip as int,
                final(self).budget as nat,
            ),
        decreases old(self).budget, 3int, 0int,
    {
        self.operands(frame, 1)?;
        let sp = self.arena.stack_len();
        let position = match frame.location() {
            Some(position) => position,
            None => {
                return Err(RuntimeError::InvalidBytecode);
            },
        };
        self.switch_labels(frame, position, sp)?;
        self.arena.root.adjust_stack(sp);
        Ok(())
    }
}

impl<'pool> VM<'pool> {
    /// Runs the instructions of `frame` until the code ends or the function
    /// returns, and tells whether it returned a value.
    pub fn run(&mut self, frame: &mut Frame) -> (r: RuntimeResult<bool>)
        requires
            old(self).wf(),
            old(frame).wf(),
        ensures
            final(self).follows(old(self)),
            r is Ok ==> same_scopes(final(self).arena@, old(self).arena@),
            same_frame(final(frame), old(frame)),
            returned(
                run(
                    old(self).env(),
                    old(self).arena@,
                    old(frame).code(),
                    old(frame).ip as int,
                    old(self).budget as nat,
                ),
                r,
                final(self).arena@,
                final(self).budget as nat,
            ),
        decreases old(self).budget, 2int, 0int,
    {
        let ghost whole = run(
            old(self).env(),
            old(self).arena@,
            old(frame).code(),
            old(frame).ip as int,
            old(self).budget as nat,
        );
        loop
            invariant
                self.follows(old(self)),
                same_scopes(self.arena@, old(self).arena@),
                same_frame(frame, old(frame)),
                whole == run(
                    old(self).env(),
                    old(self).arena@,
                    old(frame).code(),
                    old(frame).ip as int,
                    old(self).budget as nat,
                ),
                whole is Unspecified || whole == run(
                    self.env(),
                    self.arena@,
                    frame.code(),
                    frame.ip as int,
                    self.budget as nat,
                ),
            decreases self.budget,
        {
            match self.exec(frame)? {
                Action::Continue => {},
                Action::Exit => {
                    return Ok(false);
                },
                Action::Return => {
                    return Ok(true);
                },
            }
        }
    }

    /// Calls the host function that is registered for the function at
    /// `idx`, and tells whether it gave back a value, which is then on top
    /// of the operand stack.
    pub fn call_native(&mut self, idx: PoolIndex) -> (r: RuntimeResult<bool>)
        requires
            old(self).wf(),
        ensures
            final(self).follows(old(self)),
            final(self).budget == old(self).budget,
            final(self).arena@.frames == old(self).arena@.frames,
            final(self).arena@.contexts == old(self).arena@.contexts,
            returned(
                native_call(
                    old(self).env(),
                    old(self).arena@,
                    idx,
                    old(self).budget as nat,
                ),
                r,
                final(self).arena@,
                final(self).budget as nat,
            ),
            old(self).metadata.native_of(idx) is None ==> r is Err && final(self).arena@ == old(
                self,
            ).arena@,
            r matches Ok(gave) ==> (old(self).metadata.native_of(idx) matches Some(native)
                && old(self).arena@.stack.len() >= native.arity()
                && final(self).arena@.stack.len() == old(self).arena@.stack.len()
                - native.arity() + (if gave {
                1int
            } else {
                0int
            })),
    {
        let pool = self.metadata.pool();
        match self.metadata.get_native(idx) {
            None => match pool.def_name(idx) {
                Some(name) => Err(RuntimeError::UndefinedNative(name.clone())),
                None => Err(RuntimeError::InvalidBytecode),
            },
            Some(native) => match native.call(&mut self.arena, pool)? {
                Some(value) => {
                    self.arena.push(value);
                    Ok(true)
                },
                None => Ok(false),
            },
        }
    }

    /// Calls the function at `idx` with the topmost operands as the
    /// arguments named by `params`, and tells whether it gave back a value,
    /// which is then on top of the operand stack. Where there is nothing to
    /// call, the arena is as it was.
    #[verifier::rlimit(60)]
    pub fn call_with_params(&mut self, idx: PoolIndex, params: &Vec<PoolIndex>) -> (r: RuntimeResult<
        bool,
    >)
        requires
            old(self).wf(),
        ensures
            final(self).follows(old(self)),
            r is Ok ==> same_scopes(final(self).arena@, old(self).arena@),
            returned(
                call_with_params(
                    old(self).env(),
                    old(self).arena@,
                    idx,
                    params@,
                    old(self).budget as nat,
                ),
                r,
                final(self).arena@,
                final(self).budget as nat,
            ),
            no_callee(old(self).env(), idx) ==> r is Err && final(self).arena@ == old(self).arena@
                && final(self).budget == old(self).budget,
            r matches Ok(gave) ==> (old(self).env().pool.spec_function(idx) matches Some(
                function,
            ) && (!function.flags.is_native ==> final(self).arena@.stack.len() == old(
                self
            ).arena@.stack.len() - params@.len() + (if gave {
                1int
            } else {
                0int
            }))),
        decreases old(self).budget, 4int, 0int,
    {
        let pool = self.metadata.pool();
        let function = match pool.function(idx) {
            Some(function) => function,
            None => {
                return Err(RuntimeError::InvalidBytecode);
            },
        };
        if function.flags.is_native() {
            return self.call_native(idx);
        }
        enter(&mut self.arena, &self.metadata, params, &function.locals)?;
        self.run_function(idx, function)
    }

    /// The byte positions of the instructions of the function at `idx`.
    pub fn offsets_of(&mut self, idx: PoolIndex) -> (r: Option<std::rc::Rc<Vec<u16>>>)
        requires
            old(self).wf(),
        ensures
            final(self).follows(old(self)),
            final(self).budget == old(self).budget,
            final(self).arena == old(self).arena,
            r.is_some() == (old(self).env().functions.contains(idx.0) && increasing(
                code_offsets(old(self).metadata.pool.spec_function(idx).unwrap()),
            )),
            r matches Some(offsets) ==> (*offsets)@ == code_offsets(
                old(self).metadata.pool.spec_function(idx).unwrap(),
            ),
    {
        let offsets = self.metadata.get_code_offsets(idx);
        proof {
            lemma_env_kept(&old(self).metadata, &self.metadata);
        }
        offsets
    }

    /// Ends a call that found the operand stack at depth `sp`.
    pub fn leave(&mut self, sp: usize, gave: bool) -> (r: RuntimeResult<()>)
        requires
            old(self).wf(),
        ensures
            final(self).follows(old(self)),
            final(self).budget == old(self).budget,
            crate::array::agrees(r, final(self).arena@, old(self).arena@.exit(sp as int, gave)),
            r is Ok && old(self).arena@.frames.len() > 0 ==> final(self).arena@.frames.len() + 1
                == old(self).arena@.frames.len(),
            r is Ok ==> final(self).arena@.contexts == old(self).arena@.contexts,
            r is Ok ==> final(self).arena@.stack.len() == sp + (if gave {
                1int
            } else {
                0int
            }),
    {
        proof {
            if self.arena@.exit(sp as int, gave) is Ok {
                crate::protocol::lemma_exit_depth(self.arena@, sp as int, gave);
            }
        }
        self.arena.exit(sp, gave)
    }

    /// Runs the code of `function`, which is the function at `idx`, from
    /// its first instruction, then ends the call. The call has begun: the
    /// locals are in place.
    pub fn run_function(&mut self, idx: PoolIndex, function: &'pool crate::pool::Function) -> (r:
        RuntimeResult<bool>)
        requires
            old(self).wf(),
            old(self).metadata.pool.spec_function(idx) == Some(*function),
        ensures
            final(self).follows(old(self)),
            r is Ok && old(self).arena@.frames.len() > 0 ==> final(self).arena@.frames.len() + 1
                == old(self).arena@.frames.len(),
            r is Ok ==> final(self).arena@.contexts.len() == old(self).arena@.contexts.len(),
            returned(
                run_function(
                    old(self).env(),
                    old(self).arena@,
                    idx,
                    function.code@,
                    old(self).budget as nat,
                ),
                r,
                final(self).arena@,
                final(self).budget as nat,
            ),
            r matches Ok(gave) ==> final(self).arena@.stack.len() == old(self).arena@.stack.len()
                + (if gave {
                1int
            } else {
                0int
            }),
        decreases old(self).budget, 3int, 0int,
    {
        let sp = self.arena.stack_len();
        let offsets = match self.offsets_of(idx) {
            Some(offsets) => offsets,
            None => {
                return Err(RuntimeError::InvalidBytecode);
            },
        };
        let mut frame = Frame::new(function, offsets, sp);
        let gave = self.run(&mut frame)?;
        self.leave(sp, gave)?;
        Ok(gave)
    }

    /// `InvokeStatic`: runs the arguments, then calls the function at `idx`.
    pub fn call_static(&mut self, idx: PoolIndex, frame: &mut Frame) -> (r: RuntimeResult<()>)
        requires
            old(self).wf(),
            old(frame).wf(),
        ensures
            final(self).follows(old(self)),
            r is Ok ==> same_scopes(final(self).arena@, old(self).arena@),
            same_frame(final(frame), old(frame)),
            performed(
                call_static(
                    old(self).env(),
                    old(self).arena@,
                    old(frame).code(),
                    old(frame).ip as int,
                    idx,
                    old(self).budget as nat,
                ),
                r,
                final(self).arena@,
                final(frame).ip as int,
                final(self).budget as nat,
            ),
            calls_nothing(old(self).env(), idx) ==> r is Err && final(self).arena@ == old(
                self,
            ).arena@,
        decreases old(self).budget, 6int, 0int,
    {
        let pool = self.metadata.pool();
        let function = match pool.function(idx) {
            Some(function) => function,
            None => {
                return Err(RuntimeError::InvalidBytecode);
            },
        };
        let params = &function.parameters;
        let mut given: Vec<PoolIndex> = Vec::with_capacity(params.len());
        let ghost whole = call_static(
            old(self).env(),
            old(self).arena@,
            old(frame).code(),
            old(frame).ip as int,
            idx,
            old(self).budget as nat,
        );
        let mut i: usize = 0;
        while i < params.len()
            invariant
                i <= params@.len(),
                self.follows(old(self)),
                same_frame(frame, old(frame)),
                i == 0 ==> self.arena@ == old(self).arena@,
                same_scopes(self.arena@, old(self).arena@),
                pool == self.metadata.pool,
                pool.spec_function(idx) == Some(*function),
                params == &function.parameters,
                whole == call_static(
                    old(self).env(),
                    old(self).arena@,
                    old(frame).code(),
                    old(frame).ip as int,
                    idx,
                    old(self).budget as nat,
                ),
                whole is Unspecified || whole == arguments(
                    self.env(),
                    self.arena@,
                    frame.code(),
                    frame.ip as int,
                    idx,
                    params@,
                    i as int,
                    given@,
                    self.budget as nat,
                ),
            decreases params@.len() - i,
        {
            let parameter = match pool.parameter(params[i]) {
                Some(parameter) => parameter,
                None => {
                    return Err(RuntimeError::InvalidBytecode);
                },
            };
            let left_out = match frame.current_instr() {
                Some(Instr::Nop) => true,
                _ => false,
            };
            if !left_out {
                given.push(params[i]);
            }
            self.exec_with(frame, parameter.flags.is_out())?;
            i += 1;
        }
        let ends = match frame.current_instr() {
            Some(Instr::ParamEnd) => true,
            _ => false,
        };
        if ends {
            frame.skip(1);
        }
        self.call_with_params(idx, &given)?;
        Ok(())
    }

    /// The function that the name at `name` stands for in the class of the
    /// receiver.
    pub fn virtual_target(&mut self, name: PoolIndex) -> (r: RuntimeResult<PoolIndex>)
        requires
            old(self).wf(),
        ensures
            final(self).follows(old(self)),
            final(self).budget == old(self).budget,
            final(self).arena == old(self).arena,
            match r {
                Ok(idx) => virtual_target(old(self).env(), old(self).arena@, name) == Ok::<
                    PoolIndex,
                    Fault,
                >(idx),
                Err(e) => virtual_target(old(self).env(), old(self).arena@, name) == Err::<
                    PoolIndex,
                    Fault,
                >(e@),
            },
    {
        let tag = self.arena.context_tag()?;
        let table = self.metadata.get_vtable(tag.to_pool());
        proof {
            lemma_env_kept(&old(self).metadata, &self.metadata);
        }
        match table {
            None => Err(RuntimeError::InvalidBytecode),
            Some(table) => match (*table).get(name) {
                Some(function) => Ok(function.to_pool()),
                None => Err(RuntimeError::InvalidBytecode),
            },
        }
    }

    /// `InvokeVirtual`.
    pub fn invoke_virtual(&mut self, name: PoolIndex, frame: &mut Frame) -> (r: RuntimeResult<()>)
        requires
            old(self).wf(),
            old(frame).wf(),
        ensures
            final(self).follows(old(self)),
            r is Ok ==> same_scopes(final(self).arena@, old(self).arena@),
            same_frame(final(frame), old(frame)),
            performed(
                invoke_virtual(
                    old(self).env(),
                    old(self).arena@,
                    old(frame).code(),
                    old(frame).ip as int,
                    name,
                    old(self).budget as nat,
                ),
                r,
                final(self).arena@,
                final(frame).ip as int,
                final(self).budget as nat,
            ),
            virtual_target(old(self).env(), old(self).arena@, name) is Err ==> final(self).arena@
                == old(self).arena@,
        decreases old(self).budget, 6int, 1int,
    {
        let idx = self.virtual_target(name)?;
        self.call_static(idx, frame)
    }
}

} // verus!
