//! The place of a running call in the code of its function.
use vstd::prelude::*;
use std::rc::Rc;
use crate::pool::{Function, Instr, Location};
use crate::vtable::{code_offsets, increasing};

verus! {

/// A running call: its function, the byte positions of the function's
/// instructions, the instruction that comes next, and the depth that the
/// operand stack had when the call began.
pub struct Frame<'pool> {
    pub function: &'pool Function,
    pub offsets: Rc<Vec<u16>>,
    pub ip: usize,
    pub sp: usize,
}

/// The place of the byte position `value` among `offsets`.
pub open spec fn index_of_offset(offsets: Seq<u16>, value: u16) -> Option<int> {
    if exists|i: int| 0 <= i < offsets.len() && offsets[i] == value {
        Some(choose|i: int| 0 <= i < offsets.len() && offsets[i] == value)
    } else {
        None
    }
}

/// Among increasing positions, a place that holds `value` is the only one.
pub proof fn lemma_index_of_offset(offsets: Seq<u16>, value: u16, i: int)
    requires
        increasing(offsets),
        0 <= i < offsets.len(),
        offsets[i] == value,
    ensures
        index_of_offset(offsets, value) == Some(i),
{
    let j = choose|j: int| 0 <= j < offsets.len() && offsets[j] == value;
    if j < i {
        assert(offsets[j] < offsets[i]);
    } else if i < j {
        assert(offsets[i] < offsets[j]);
    }
}

/// The instruction at place `ip` of `code`.
pub open spec fn instr_at(code: Seq<(u16, Instr)>, ip: int) -> Option<Instr> {
    if 0 <= ip < code.len() {
        Some(code[ip].1)
    } else {
        None
    }
}

/// The place after `ip`: the next one, or the end of the code.
pub open spec fn advanced(code: Seq<(u16, Instr)>, ip: int, n: int) -> int {
    if ip + n < code.len() {
        ip + n
    } else {
        code.len() as int
    }
}

/// The place in `code` of the instruction that starts at the byte position
/// `location`.
pub open spec fn sought(code: Seq<(u16, Instr)>, location: Location) -> Option<int> {
    index_of_offset(code.map_values(|entry: (u16, Instr)| entry.0), location.value)
}

/// The byte position of the instruction at place `ip`.
pub open spec fn location_at(code: Seq<(u16, Instr)>, ip: int) -> Option<Location> {
    if 0 <= ip < code.len() {
        Some(Location { value: code[ip].0 })
    } else {
        None
    }
}

impl<'pool> Frame<'pool> {
    /// The positions are those of the function's instructions, they
    /// increase, and the next instruction is one of the function's or the
    /// end of its code.
    pub open spec fn wf(&self) -> bool {
        &&& (*self.offsets)@ == code_offsets(*self.function)
        &&& increasing((*self.offsets)@)
        &&& self.ip <= self.function.code@.len()
    }

    /// The code of the frame's function.
    pub open spec fn code(&self) -> Seq<(u16, Instr)> {
        self.function.code@
    }

    pub fn new(function: &'pool Function, offsets: Rc<Vec<u16>>, sp: usize) -> (r: Frame<'pool>)
        requires
            (*offsets)@ == code_offsets(*function),
            increasing((*offsets)@),
        ensures
            r.wf(),
            r.function == function,
            r.offsets == offsets,
            r.ip == 0,
            r.sp == sp,
    {
        Frame { function, offsets, ip: 0, sp }
    }

    /// Goes to the instruction that starts at the byte position `location`,
    /// and tells whether there is one.
    pub fn seek(&mut self, location: Location) -> (r: bool)
        requires
            old(self).wf(),
        ensures
            final(self).wf(),
            final(self).function == old(self).function,
            final(self).offsets == old(self).offsets,
            final(self).sp == old(self).sp,
            r == sought(old(self).code(), location).is_some(),
            final(self).ip == (match sought(old(self).code(), location) {
                Some(ip) => ip,
                None => old(self).ip as int,
            }),
    {
        let offsets = &self.offsets;
        let mut low: usize = 0;
        let mut high: usize = offsets.len();
        while low < high
            invariant
                self.wf(),
                *self == *old(self),
                offsets == &self.offsets,
                low <= high <= (*offsets)@.len(),
                forall|i: int| 0 <= i < low ==> (*offsets)@[i] < location.value,
                forall|i: int| high <= i < (*offsets)@.len() ==> (*offsets)@[i] > location.value,
            decreases high - low,
        {
            let mid = low + (high - low) / 2;
            let at = offsets[mid];
            if at == location.value {
                proof {
                    lemma_index_of_offset((*offsets)@, location.value, mid as int);
                }
                self.ip = mid;
                return true;
            } else if at < location.value {
                proof {
                    assert forall|i: int| 0 <= i < mid + 1 implies (*offsets)@[i]
                        < location.value by {
                        if i < mid {
                            assert((*offsets)@[i] < (*offsets)@[mid as int]);
                        }
                    }
                }
                low = mid + 1;
            } else {
                proof {
                    assert forall|i: int| mid <= i < (*offsets)@.len() implies (*offsets)@[i]
                        > location.value by {
                        if mid < i {
                            assert((*offsets)@[mid as int] < (*offsets)@[i]);
                        }
                    }
                }
                high = mid;
            }
        }
        false
    }

    /// Passes over `n` instructions, as far as the code goes.
    pub fn skip(&mut self, n: usize)
        requires
            old(self).wf(),
        ensures
            final(self).wf(),
            final(self).function == old(self).function,
            final(self).offsets == old(self).offsets,
            final(self).sp == old(self).sp,
            final(self).ip == advanced(old(self).code(), old(self).ip as int, n as int),
    {
        let len = self.function.code.len();
        if n < len - self.ip {
            self.ip = self.ip + n;
        } else {
            self.ip = len;
        }
    }

    /// The byte position of the next instruction.
    pub fn location(&self) -> (r: Option<Location>)
        requires
            self.wf(),
        ensures
            r == location_at(self.code(), self.ip as int),
    {
        if self.ip < self.offsets.len() {
            assert((*self.offsets)@[self.ip as int] == self.function.code@[self.ip as int].0);
            Some(Location::new(self.offsets[self.ip]))
        } else {
            None
        }
    }

    /// The next instruction.
    pub fn current_instr(&self) -> (r: Option<Instr>)
        requires
            self.wf(),
        ensures
            r == instr_at(self.code(), self.ip as int),
    {
        if self.ip < self.function.code.len() {
            Some(self.function.code[self.ip].1)
        } else {
            None
        }
    }

    /// The next instruction, which is passed over.
    pub fn next_instr(&mut self) -> (r: Option<Instr>)
        requires
            old(self).wf(),
        ensures
            final(self).wf(),
            final(self).function == old(self).function,
            final(self).offsets == old(self).offsets,
            final(self).sp == old(self).sp,
            r == instr_at(old(self).code(), old(self).ip as int),
            final(self).ip == advanced(old(self).code(), old(self).ip as int, 1),
    {
        let instr = self.current_instr();
        self.skip(1);
        instr
    }
}

} // verus!
