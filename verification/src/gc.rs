//! Collection: the cells that nothing in the arena leads to any more are
//! freed. A cell is kept where a root points at it: a value on the operand
//! stack, a local of an active call, or a receiver; or where a cell that is
//! kept holds a value that points at it.
use vstd::prelude::*;
use crate::arena::{Arena, Cell};
use crate::index_map::IndexMap;
use crate::state::{CellView, State};
use crate::value::{Handle, Obj, Value};

verus! {

/// The cell that a value points at.
pub open spec fn target_of(v: Value) -> Option<Handle> {
    match v {
        Value::BoxedStruct(h) => Some(h),
        Value::Obj(Obj::Instance(h)) => Some(h),
        Value::Str(h) => Some(h),
        Value::Array(h) => Some(h),
        Value::Pinned(h) => Some(h),
        _ => None,
    }
}

/// The values of the fields `fields`.
pub open spec fn values_of(fields: Seq<(u32, Value)>) -> Seq<Value> {
    fields.map_values(|entry: (u32, Value)| entry.1)
}

/// The values that a cell holds.
pub open spec fn children(cell: CellView) -> Seq<Value> {
    match cell {
        CellView::Struct(fields) => values_of(fields),
        CellView::Instance(instance) => values_of(instance.fields),
        CellView::Array(items) => items,
        CellView::Pinned(inner) => seq![inner],
        CellView::Str(_) => Seq::empty(),
        CellView::Free => Seq::empty(),
    }
}

/// Whether the set `m` of places has the cell that `v` points at, where `v`
/// points at one of the first `len` cells.
pub open spec fn holds(len: int, m: Set<int>, v: Value) -> bool {
    match target_of(v) {
        Some(h) => h.0 < len ==> m.contains(h.0 as int),
        None => true,
    }
}

/// Whether `m` has every cell that a root of `s` points at.
pub open spec fn holds_roots(s: State, m: Set<int>) -> bool {
    &&& forall|i: int|
        0 <= i < s.stack.len() ==> holds(s.cells.len() as int, m, #[trigger] s.stack[i])
    &&& forall|f: int, j: int|
        0 <= f < s.frames.len() && 0 <= j < s.frames[f].len() ==> holds(
            s.cells.len() as int,
            m,
            (#[trigger] s.frames[f][j]).1,
        )
    &&& forall|c: int|
        0 <= c < s.contexts.len() ==> holds(
            s.cells.len() as int,
            m,
            Value::Obj(#[trigger] s.contexts[c]),
        )
}

/// Whether `m` has, with each of its cells, every cell that a value in that
/// cell points at.
pub open spec fn closed(s: State, m: Set<int>) -> bool {
    forall|h: int, i: int|
        m.contains(h) && 0 <= h < s.cells.len() && 0 <= i < children(s.cells[h]).len() ==> holds(
            s.cells.len() as int,
            m,
            #[trigger] children(s.cells[h])[i],
        )
}

/// Whether something leads to the cell at place `h`: every set of places
/// that has what the roots point at, and with each cell what the cell
/// points at, has `h`.
pub open spec fn reachable(s: State, h: int) -> bool {
    forall|m: Set<int>| closed(s, m) && holds_roots(s, m) ==> #[trigger] m.contains(h)
}

/// The places below `upto` whose cells a collection frees, in rising
/// order: those of cells in use that nothing leads to.
pub open spec fn freed(s: State, upto: int) -> Seq<usize>
    decreases upto,
{
    if upto <= 0 || upto > s.cells.len() {
        Seq::empty()
    } else if !reachable(s, upto - 1) && !(s.cells[upto - 1] is Free) {
        freed(s, upto - 1).push((upto - 1) as usize)
    } else {
        freed(s, upto - 1)
    }
}

impl State {
    /// The state after a collection: the cells that nothing leads to are
    /// free and wait to be used again, the last of them first; the debt is
    /// paid.
    pub open spec fn collected(self) -> State {
        State {
            cells: Seq::new(
                self.cells.len(),
                |h: int|
                    if reachable(self, h) {
                        self.cells[h]
                    } else {
                        CellView::Free
                    },
            ),
            free: self.free + freed(self, self.cells.len() as int),
            debt: 0,
            ..self
        }
    }
}

/// A collection keeps every cell that something leads to, and leaves the
/// stacks as they are.
pub proof fn lemma_collected(s: State, h: int)
    requires
        0 <= h < s.cells.len(),
        reachable(s, h),
    ensures
        s.collected().cells[h] == s.cells[h],
        s.collected().cells.len() == s.cells.len(),
        s.collected().stack == s.stack,
        s.collected().frames == s.frames,
        s.collected().contexts == s.contexts,
{
}

/// What a value on the operand stack points at is reachable.
pub proof fn lemma_stack_reachable(s: State, i: int)
    requires
        0 <= i < s.stack.len(),
        target_of(s.stack[i]) matches Some(t) && t.0 < s.cells.len(),
    ensures
        reachable(s, target_of(s.stack[i])->Some_0.0 as int),
{
    let t = target_of(s.stack[i])->Some_0.0 as int;
    assert forall|m: Set<int>| closed(s, m) && holds_roots(s, m) implies #[trigger] m.contains(
        t,
    ) by {
        assert(holds(s.cells.len() as int, m, s.stack[i]));
    }
}

/// What a local of an active call points at is reachable.
pub proof fn lemma_local_reachable(s: State, f: int, j: int)
    requires
        0 <= f < s.frames.len(),
        0 <= j < s.frames[f].len(),
        target_of(s.frames[f][j].1) matches Some(t) && t.0 < s.cells.len(),
    ensures
        reachable(s, target_of(s.frames[f][j].1)->Some_0.0 as int),
{
    let t = target_of(s.frames[f][j].1)->Some_0.0 as int;
    assert forall|m: Set<int>| closed(s, m) && holds_roots(s, m) implies #[trigger] m.contains(
        t,
    ) by {
        assert(holds(s.cells.len() as int, m, s.frames[f][j].1));
    }
}

/// The object that is a receiver is reachable.
pub proof fn lemma_context_reachable(s: State, c: int)
    requires
        0 <= c < s.contexts.len(),
        target_of(Value::Obj(s.contexts[c])) matches Some(t) && t.0 < s.cells.len(),
    ensures
        reachable(s, target_of(Value::Obj(s.contexts[c]))->Some_0.0 as int),
{
    let t = target_of(Value::Obj(s.contexts[c]))->Some_0.0 as int;
    assert forall|m: Set<int>| closed(s, m) && holds_roots(s, m) implies #[trigger] m.contains(
        t,
    ) by {
        assert(holds(s.cells.len() as int, m, Value::Obj(s.contexts[c])));
    }
}

/// What a value in a reachable cell points at is reachable.
pub proof fn lemma_child_reachable(s: State, h: int, i: int)
    requires
        0 <= h < s.cells.len(),
        reachable(s, h),
        0 <= i < children(s.cells[h]).len(),
        target_of(children(s.cells[h])[i]) matches Some(t) && t.0 < s.cells.len(),
    ensures
        reachable(s, target_of(children(s.cells[h])[i])->Some_0.0 as int),
{
    let t = target_of(children(s.cells[h])[i])->Some_0.0 as int;
    assert forall|m: Set<int>| closed(s, m) && holds_roots(s, m) implies #[trigger] m.contains(
        t,
    ) by {
        assert(m.contains(h));
        assert(holds(s.cells.len() as int, m, children(s.cells[h])[i]));
    }
}

/// The number of marks among the first `upto` that are not set.
pub open spec fn unmarked(marks: Seq<bool>, upto: int) -> nat
    decreases upto,
{
    if upto <= 0 || upto > marks.len() {
        0
    } else {
        unmarked(marks, upto - 1) + (if marks[upto - 1] {
            0nat
        } else {
            1nat
        })
    }
}

/// Setting a mark that was not set leaves one fewer unset.
proof fn lemma_unmarked_set(marks: Seq<bool>, t: int, upto: int)
    requires
        0 <= t < marks.len(),
        !marks[t],
        0 <= upto <= marks.len(),
    ensures
        unmarked(marks.update(t, true), upto) + (if t < upto {
            1nat
        } else {
            0nat
        }) == unmarked(marks, upto),
    decreases upto,
{
    if upto > 0 {
        lemma_unmarked_set(marks, t, upto - 1);
    }
}

/// Whether the cell that `v` points at is marked, where `v` points at a
/// cell.
pub open spec fn marked(marks: Seq<bool>, v: Value) -> bool {
    match target_of(v) {
        Some(h) => h.0 < marks.len() ==> marks[h.0 as int],
        None => true,
    }
}

/// Whether every value in the cell at `h` points at a marked cell.
pub open spec fn settled_at(s: State, marks: Seq<bool>, h: int) -> bool {
    forall|i: int|
        0 <= i < children(s.cells[h]).len() ==> marked(marks, #[trigger] children(s.cells[h])[i])
}

/// What holds while cells are marked: only reachable cells are marked, the
/// cells that wait for their turn are marked and wait once, and every
/// other marked cell is settled.
pub open spec fn marking(s: State, marks: Seq<bool>, work: Seq<usize>) -> bool {
    &&& marks.len() == s.cells.len()
    &&& forall|h: int| 0 <= h < marks.len() && #[trigger] marks[h] ==> reachable(s, h)
    &&& forall|k: int| 0 <= k < work.len() ==> (#[trigger] work[k]) < marks.len() && marks[work[k] as int]
    &&& forall|k: int, l: int| 0 <= k < l < work.len() ==> (#[trigger] work[k]) != (#[trigger] work[l])
}

/// Whether every marked cell that does not wait for its turn, but the one
/// at `current`, is settled.
pub open spec fn others_settled(s: State, marks: Seq<bool>, work: Seq<usize>, current: int) -> bool {
    forall|h: int|
        0 <= h < marks.len() && #[trigger] marks[h] && h != current && !work.contains(h as usize)
            ==> settled_at(s, marks, h)
}

/// Whether `after` has every mark of `before`.
pub open spec fn grown(before: Seq<bool>, after: Seq<bool>) -> bool {
    before.len() == after.len() && forall|h: int|
        0 <= h < before.len() && #[trigger] before[h] ==> after[h]
}

fn target(v: Value) -> (r: Option<Handle>)
    ensures
        r == target_of(v),
{
    match v {
        Value::BoxedStruct(h) => Some(h),
        Value::Obj(Obj::Instance(h)) => Some(h),
        Value::Str(h) => Some(h),
        Value::Array(h) => Some(h),
        Value::Pinned(h) => Some(h),
        _ => None,
    }
}

/// Marks the cell that `v` points at, and lets it wait for its turn if it
/// was not marked.
fn mark_value(
    v: Value,
    marks: &mut Vec<bool>,
    work: &mut Vec<usize>,
    Ghost(s): Ghost<State>,
    Ghost(current): Ghost<int>,
)
    requires
        marking(s, old(marks)@, old(work)@),
        others_settled(s, old(marks)@, old(work)@, current),
        target_of(v) matches Some(t) ==> (t.0 < s.cells.len() ==> reachable(s, t.0 as int)),
    ensures
        marking(s, final(marks)@, final(work)@),
        others_settled(s, final(marks)@, final(work)@, current),
        grown(old(marks)@, final(marks)@),
        marked(final(marks)@, v),
        unmarked(final(marks)@, final(marks)@.len() as int) + final(work)@.len() == unmarked(
            old(marks)@,
            old(marks)@.len() as int,
        ) + old(work)@.len(),
        final(work)@.len() >= old(work)@.len(),
{
    match target(v) {
        Some(t) => {
            if t.0 < marks.len() && !marks[t.0] {
                let ghost before = marks@;
                let ghost waiting = work@;
                marks[t.0] = true;
                work.push(t.0);
                proof {
                    lemma_unmarked_set(before, t.0 as int, before.len() as int);
                    assert(marks@ == before.update(t.0 as int, true));
                    assert forall|k: int, l: int| 0 <= k < l < work@.len() implies (
                    #[trigger] work@[k]) != (#[trigger] work@[l]) by {
                        if l == waiting.len() {
                            assert(before[waiting[k] as int]);
                        }
                    }
                    assert forall|h: int|
                        0 <= h < marks@.len() && #[trigger] marks@[h] && h != current
                            && !work@.contains(h as usize) implies settled_at(s, marks@, h) by {
                        assert(work@[waiting.len() as int] == t.0);
                        if h == t.0 {
                            assert(work@.contains(h as usize));
                        }
                        assert(before[h]);
                        if waiting.contains(h as usize) {
                            let k = choose|k: int| 0 <= k < waiting.len() && waiting[k] == h as usize;
                            assert(work@[k] == h as usize);
                        }
                        assert(settled_at(s, before, h));
                        assert forall|i: int| 0 <= i < children(s.cells[h]).len() implies marked(
                            marks@,
                            #[trigger] children(s.cells[h])[i],
                        ) by {
                            assert(marked(before, children(s.cells[h])[i]));
                        }
                    }
                }
            }
        },
        None => {},
    }
}

/// Marks the cells that the first values of `values` point at; `values`
/// are values of the cell at `h`, which is marked.
fn mark_values(
    values: &Vec<Value>,
    marks: &mut Vec<bool>,
    work: &mut Vec<usize>,
    Ghost(s): Ghost<State>,
    Ghost(h): Ghost<int>,
)
    requires
        marking(s, old(marks)@, old(work)@),
        others_settled(s, old(marks)@, old(work)@, h),
        0 <= h < s.cells.len(),
        reachable(s, h),
        children(s.cells[h]) == values@,
    ensures
        marking(s, final(marks)@, final(work)@),
        others_settled(s, final(marks)@, final(work)@, h),
        grown(old(marks)@, final(marks)@),
        settled_at(s, final(marks)@, h),
        unmarked(final(marks)@, final(marks)@.len() as int) + final(work)@.len() == unmarked(
            old(marks)@,
            old(marks)@.len() as int,
        ) + old(work)@.len(),
        final(work)@.len() >= old(work)@.len(),
{
    let mut i: usize = 0;
    while i < values.len()
        invariant
            i <= values@.len(),
            marking(s, marks@, work@),
            others_settled(s, marks@, work@, h),
            grown(old(marks)@, marks@),
            0 <= h < s.cells.len(),
            reachable(s, h),
            children(s.cells[h]) == values@,
            forall|j: int| 0 <= j < i ==> marked(marks@, #[trigger] values@[j]),
            unmarked(marks@, marks@.len() as int) + work@.len() == unmarked(
                old(marks)@,
                old(marks)@.len() as int,
            ) + old(work)@.len(),
            work@.len() >= old(work)@.len(),
        decreases values@.len() - i,
    {
        proof {
            if target_of(values@[i as int]) matches Some(t) && t.0 < s.cells.len() {
                lemma_child_reachable(s, h, i as int);
            }
        }
        let ghost before = marks@;
        mark_value(values[i], marks, work, Ghost(s), Ghost(h));
        proof {
            assert forall|j: int| 0 <= j < i + 1 implies marked(marks@, #[trigger] values@[j]) by {
                if j < i {
                    assert(marked(before, values@[j]));
                }
            }
        }
        i += 1;
    }
}

/// Marks the cells that the values of `fields` point at; `fields` are the
/// fields of the cell at `h`, which is marked.
fn mark_fields(
    fields: &IndexMap<Value>,
    marks: &mut Vec<bool>,
    work: &mut Vec<usize>,
    Ghost(s): Ghost<State>,
    Ghost(h): Ghost<int>,
)
    requires
        marking(s, old(marks)@, old(work)@),
        others_settled(s, old(marks)@, old(work)@, h),
        0 <= h < s.cells.len(),
        reachable(s, h),
        children(s.cells[h]) == values_of(fields@),
    ensures
        marking(s, final(marks)@, final(work)@),
        others_settled(s, final(marks)@, final(work)@, h),
        grown(old(marks)@, final(marks)@),
        settled_at(s, final(marks)@, h),
        unmarked(final(marks)@, final(marks)@.len() as int) + final(work)@.len() == unmarked(
            old(marks)@,
            old(marks)@.len() as int,
        ) + old(work)@.len(),
        final(work)@.len() >= old(work)@.len(),
{
    let count = fields.len();
    let mut i: usize = 0;
    while i < count
        invariant
            i <= count,
            count == fields@.len(),
            marking(s, marks@, work@),
            others_settled(s, marks@, work@, h),
            grown(old(marks)@, marks@),
            0 <= h < s.cells.len(),
            reachable(s, h),
            children(s.cells[h]) == values_of(fields@),
            forall|j: int| 0 <= j < i ==> marked(marks@, (#[trigger] fields@[j]).1),
            unmarked(marks@, marks@.len() as int) + work@.len() == unmarked(
                old(marks)@,
                old(marks)@.len() as int,
            ) + old(work)@.len(),
            work@.len() >= old(work)@.len(),
        decreases count - i,
    {
        let value = *fields.value_at(i);
        proof {
            assert(values_of(fields@)[i as int] == fields@[i as int].1);
            if target_of(value) matches Some(t) && t.0 < s.cells.len() {
                lemma_child_reachable(s, h, i as int);
            }
        }
        let ghost before = marks@;
        mark_value(value, marks, work, Ghost(s), Ghost(h));
        proof {
            assert forall|j: int| 0 <= j < i + 1 implies marked(
                marks@,
                (#[trigger] fields@[j]).1,
            ) by {
                if j < i {
                    assert(marked(before, fields@[j].1));
                }
            }
        }
        i += 1;
    }
    proof {
        assert forall|i: int| 0 <= i < children(s.cells[h]).len() implies marked(
            marks@,
            #[trigger] children(s.cells[h])[i],
        ) by {
            assert(values_of(fields@)[i] == fields@[i].1);
        }
    }
}

impl Arena {
    /// Marks the cells that the values in the cell at `h` point at.
    fn mark_children(&self, h: usize, marks: &mut Vec<bool>, work: &mut Vec<usize>)
        requires
            marking(self@, old(marks)@, old(work)@),
            others_settled(self@, old(marks)@, old(work)@, h as int),
            h < self@.cells.len(),
            reachable(self@, h as int),
        ensures
            marking(self@, final(marks)@, final(work)@),
            others_settled(self@, final(marks)@, final(work)@, h as int),
            grown(old(marks)@, final(marks)@),
            settled_at(self@, final(marks)@, h as int),
            unmarked(final(marks)@, final(marks)@.len() as int) + final(work)@.len() == unmarked(
                old(marks)@,
                old(marks)@.len() as int,
            ) + old(work)@.len(),
            final(work)@.len() >= old(work)@.len(),
    {
        assert(self@.cells[h as int] == self.cells@[h as int]@);
        match &self.cells[h] {
            Cell::Struct(fields) => mark_fields(fields, marks, work, Ghost(self@), Ghost(h as int)),
            Cell::Instance(instance) => mark_fields(
                &instance.fields,
                marks,
                work,
                Ghost(self@),
                Ghost(h as int),
            ),
            Cell::Array(items) => mark_values(items, marks, work, Ghost(self@), Ghost(h as int)),
            Cell::Pinned(inner) => {
                proof {
                    assert(children(self@.cells[h as int])[0] == *inner);
                    if target_of(*inner) matches Some(t) && t.0 < self@.cells.len() {
                        lemma_child_reachable(self@, h as int, 0);
                    }
                }
                mark_value(*inner, marks, work, Ghost(self@), Ghost(h as int));
            },
            Cell::Str(_) => {},
            Cell::Free => {},
        }
    }
}

/// Whether the cells that the roots of `s` point at are marked.
pub open spec fn roots_marked(s: State, marks: Seq<bool>) -> bool {
    &&& forall|i: int| 0 <= i < s.stack.len() ==> marked(marks, #[trigger] s.stack[i])
    &&& forall|f: int, j: int|
        0 <= f < s.frames.len() && 0 <= j < s.frames[f].len() ==> marked(
            marks,
            (#[trigger] s.frames[f][j]).1,
        )
    &&& forall|c: int|
        0 <= c < s.contexts.len() ==> marked(marks, Value::Obj(#[trigger] s.contexts[c]))
}

/// Marks stay where more is marked.
proof fn lemma_marked_grown(before: Seq<bool>, after: Seq<bool>, v: Value)
    requires
        grown(before, after),
        marked(before, v),
    ensures
        marked(after, v),
{
}

/// Once nothing waits for its turn, exactly the reachable cells are marked.
proof fn lemma_complete(s: State, marks: Seq<bool>)
    requires
        marking(s, marks, Seq::empty()),
        others_settled(s, marks, Seq::empty(), -1),
        roots_marked(s, marks),
    ensures
        forall|h: int| 0 <= h < marks.len() ==> (#[trigger] marks[h] <==> reachable(s, h)),
{
    let m = Set::new(|h: int| 0 <= h < marks.len() && marks[h]);
    assert forall|h: int, i: int|
        m.contains(h) && 0 <= h < s.cells.len() && 0 <= i < children(s.cells[h]).len() implies holds(
        s.cells.len() as int,
        m,
        #[trigger] children(s.cells[h])[i],
    ) by {
        assert(marks[h]);
        assert(!Seq::<usize>::empty().contains(h as usize));
        assert(settled_at(s, marks, h));
        assert(marked(marks, children(s.cells[h])[i]));
    }
    assert(closed(s, m));
    assert forall|i: int| 0 <= i < s.stack.len() implies holds(
        s.cells.len() as int,
        m,
        #[trigger] s.stack[i],
    ) by {
        assert(marked(marks, s.stack[i]));
    }
    assert forall|f: int, j: int| 0 <= f < s.frames.len() && 0 <= j < s.frames[f].len() implies holds(
        s.cells.len() as int,
        m,
        (#[trigger] s.frames[f][j]).1,
    ) by {
        assert(marked(marks, s.frames[f][j].1));
    }
    assert forall|c: int| 0 <= c < s.contexts.len() implies holds(
        s.cells.len() as int,
        m,
        Value::Obj(#[trigger] s.contexts[c]),
    ) by {
        assert(marked(marks, Value::Obj(s.contexts[c])));
    }
    assert(holds_roots(s, m));
    assert forall|h: int| 0 <= h < marks.len() implies (#[trigger] marks[h] <==> reachable(
        s,
        h,
    )) by {
        if reachable(s, h) {
            assert(m.contains(h));
        }
    }
}

impl Arena {
    /// Marks the cells that the values on the operand stack point at.
    fn mark_stack(&self, marks: &mut Vec<bool>, work: &mut Vec<usize>)
        requires
            marking(self@, old(marks)@, old(work)@),
            others_settled(self@, old(marks)@, old(work)@, -1),
        ensures
            marking(self@, final(marks)@, final(work)@),
            others_settled(self@, final(marks)@, final(work)@, -1),
            grown(old(marks)@, final(marks)@),
            forall|i: int|
                0 <= i < self@.stack.len() ==> marked(final(marks)@, #[trigger] self@.stack[i]),
    {
        let mut i: usize = 0;
        while i < self.root.stack.len()
            invariant
                i <= self@.stack.len(),
                marking(self@, marks@, work@),
                others_settled(self@, marks@, work@, -1),
                grown(old(marks)@, marks@),
                forall|j: int| 0 <= j < i ==> marked(marks@, #[trigger] self@.stack[j]),
            decreases self@.stack.len() - i,
        {
            let value = self.root.stack[i];
            proof {
                if target_of(value) matches Some(t) && t.0 < self@.cells.len() {
                    lemma_stack_reachable(self@, i as int);
                }
            }
            let ghost before = marks@;
            mark_value(value, marks, work, Ghost(self@), Ghost(-1));
            proof {
                assert forall|j: int| 0 <= j < i + 1 implies marked(
                    marks@,
                    #[trigger] self@.stack[j],
                ) by {
                    if j < i {
                        lemma_marked_grown(before, marks@, self@.stack[j]);
                    }
                }
            }
            i += 1;
        }
    }

    /// Marks the objects that are receivers.
    fn mark_contexts(&self, marks: &mut Vec<bool>, work: &mut Vec<usize>)
        requires
            marking(self@, old(marks)@, old(work)@),
            others_settled(self@, old(marks)@, old(work)@, -1),
        ensures
            marking(self@, final(marks)@, final(work)@),
            others_settled(self@, final(marks)@, final(work)@, -1),
            grown(old(marks)@, final(marks)@),
            forall|c: int|
                0 <= c < self@.contexts.len() ==> marked(
                    final(marks)@,
                    Value::Obj(#[trigger] self@.contexts[c]),
                ),
    {
        let mut i: usize = 0;
        while i < self.root.contexts.len()
            invariant
                i <= self@.contexts.len(),
                marking(self@, marks@, work@),
                others_settled(self@, marks@, work@, -1),
                grown(old(marks)@, marks@),
                forall|c: int|
                    0 <= c < i ==> marked(marks@, Value::Obj(#[trigger] self@.contexts[c])),
            decreases self@.contexts.len() - i,
        {
            let value = Value::Obj(self.root.contexts[i]);
            proof {
                if target_of(value) matches Some(t) && t.0 < self@.cells.len() {
                    lemma_context_reachable(self@, i as int);
                }
            }
            let ghost before = marks@;
            mark_value(value, marks, work, Ghost(self@), Ghost(-1));
            proof {
                assert forall|c: int| 0 <= c < i + 1 implies marked(
                    marks@,
                    Value::Obj(#[trigger] self@.contexts[c]),
                ) by {
                    if c < i {
                        lemma_marked_grown(before, marks@, Value::Obj(self@.contexts[c]));
                    }
                }
            }
            i += 1;
        }
    }

    /// Marks the cells that the locals of the call at place `f` point at.
    fn mark_locals(&self, f: usize, marks: &mut Vec<bool>, work: &mut Vec<usize>)
        requires
            f < self@.frames.len(),
            marking(self@, old(marks)@, old(work)@),
            others_settled(self@, old(marks)@, old(work)@, -1),
        ensures
            marking(self@, final(marks)@, final(work)@),
            others_settled(self@, final(marks)@, final(work)@, -1),
            grown(old(marks)@, final(marks)@),
            forall|j: int|
                0 <= j < self@.frames[f as int].len() ==> marked(
                    final(marks)@,
                    (#[trigger] self@.frames[f as int][j]).1,
                ),
    {
        let locals = &self.root.frames[f];
        assert(self@.frames[f as int] == locals@);
        let count = locals.len();
        let mut i: usize = 0;
        while i < count
            invariant
                i <= count,
                count == locals@.len(),
                f < self@.frames.len(),
                self@.frames[f as int] == locals@,
                marking(self@, marks@, work@),
                others_settled(self@, marks@, work@, -1),
                grown(old(marks)@, marks@),
                forall|j: int| 0 <= j < i ==> marked(marks@, (#[trigger] locals@[j]).1),
            decreases count - i,
        {
            let value = *locals.value_at(i);
            proof {
                if target_of(value) matches Some(t) && t.0 < self@.cells.len() {
                    lemma_local_reachable(self@, f as int, i as int);
                }
            }
            let ghost before = marks@;
            mark_value(value, marks, work, Ghost(self@), Ghost(-1));
            proof {
                assert forall|j: int| 0 <= j < i + 1 implies marked(
                    marks@,
                    (#[trigger] locals@[j]).1,
                ) by {
                    if j < i {
                        lemma_marked_grown(before, marks@, locals@[j].1);
                    }
                }
            }
            i += 1;
        }
    }

    /// Marks the cells that the roots point at.
    fn mark_roots(&self, marks: &mut Vec<bool>, work: &mut Vec<usize>)
        requires
            marking(self@, old(marks)@, old(work)@),
            others_settled(self@, old(marks)@, old(work)@, -1),
        ensures
            marking(self@, final(marks)@, final(work)@),
            others_settled(self@, final(marks)@, final(work)@, -1),
            grown(old(marks)@, final(marks)@),
            roots_marked(self@, final(marks)@),
    {
        self.mark_stack(marks, work);
        let ghost after_stack = marks@;
        self.mark_contexts(marks, work);
        let ghost after_contexts = marks@;
        let mut f: usize = 0;
        while f < self.root.frames.len()
            invariant
                f <= self@.frames.len(),
                self@.frames.len() == self.root.frames@.len(),
                marking(self@, marks@, work@),
                others_settled(self@, marks@, work@, -1),
                grown(old(marks)@, marks@),
                grown(after_contexts, marks@),
                forall|g: int, j: int|
                    0 <= g < f && 0 <= j < self@.frames[g].len() ==> marked(
                        marks@,
                        (#[trigger] self@.frames[g][j]).1,
                    ),
            decreases self@.frames.len() - f,
        {
            let ghost before = marks@;
            self.mark_locals(f, marks, work);
            proof {
                assert forall|g: int, j: int|
                    0 <= g < f + 1 && 0 <= j < self@.frames[g].len() implies marked(
                    marks@,
                    (#[trigger] self@.frames[g][j]).1,
                ) by {
                    if g < f {
                        lemma_marked_grown(before, marks@, self@.frames[g][j].1);
                    }
                }
            }
            f += 1;
        }
        proof {
            assert forall|i: int| 0 <= i < self@.stack.len() implies marked(
                marks@,
                #[trigger] self@.stack[i],
            ) by {
                lemma_marked_grown(after_stack, after_contexts, self@.stack[i]);
                lemma_marked_grown(after_contexts, marks@, self@.stack[i]);
            }
            assert forall|c: int| 0 <= c < self@.contexts.len() implies marked(
                marks@,
                Value::Obj(#[trigger] self@.contexts[c]),
            ) by {
                lemma_marked_grown(after_contexts, marks@, Value::Obj(self@.contexts[c]));
            }
        }
    }
}

impl Arena {
    /// Finds the cells that something leads to.
    fn mark(&self) -> (marks: Vec<bool>)
        ensures
            marks@.len() == self@.cells.len(),
            forall|h: int| 0 <= h < marks@.len() ==> (#[trigger] marks@[h] <==> reachable(self@, h)),
    {
        let len = self.cells.len();
        let mut marks: Vec<bool> = Vec::with_capacity(len);
        while marks.len() < len
            invariant
                marks@.len() <= len,
                len == self@.cells.len(),
                forall|h: int| 0 <= h < marks@.len() ==> !(#[trigger] marks@[h]),
            decreases len - marks@.len(),
        {
            marks.push(false);
        }
        let mut work: Vec<usize> = Vec::new();
        assert(marking(self@, marks@, work@));
        assert(others_settled(self@, marks@, work@, -1));
        self.mark_roots(&mut marks, &mut work);
        while work.len() > 0
            invariant
                marking(self@, marks@, work@),
                others_settled(self@, marks@, work@, -1),
                roots_marked(self@, marks@),
            decreases unmarked(marks@, marks@.len() as int), work@.len(),
        {
            let ghost waiting = work@;
            let ghost before = marks@;
            let h = match work.pop() {
                Some(h) => h,
                None => 0,
            };
            proof {
                assert(waiting[waiting.len() - 1] == h);
                assert(before[h as int]);
                assert(before.len() == marks.len());
                assert forall|g: int|
                    0 <= g < before.len() && #[trigger] before[g] && g != h && !work@.contains(
                        g as usize,
                    ) implies settled_at(self@, before, g) by {
                    assert(work@ =~= waiting.drop_last());
                    if waiting.contains(g as usize) {
                        let k = choose|k: int| 0 <= k < waiting.len() && waiting[k] == g as usize;
                        if k < work@.len() {
                            assert(work@[k] == g as usize);
                            assert(work@.contains(g as usize));
                        } else {
                            assert(waiting[k] == h);
                        }
                        assert(false);
                    }
                    assert(g != -1);
                }
            }
            self.mark_children(h, &mut marks, &mut work);
            proof {
                let s = self@;
                assert forall|i: int| 0 <= i < s.stack.len() implies marked(
                    marks@,
                    #[trigger] s.stack[i],
                ) by {
                    lemma_marked_grown(before, marks@, s.stack[i]);
                }
                assert forall|f: int, j: int|
                    0 <= f < s.frames.len() && 0 <= j < s.frames[f].len() implies marked(
                    marks@,
                    (#[trigger] s.frames[f][j]).1,
                ) by {
                    lemma_marked_grown(before, marks@, s.frames[f][j].1);
                }
                assert forall|c: int| 0 <= c < s.contexts.len() implies marked(
                    marks@,
                    Value::Obj(#[trigger] s.contexts[c]),
                ) by {
                    lemma_marked_grown(before, marks@, Value::Obj(s.contexts[c]));
                }
            }
        }
        proof {
            assert(work@ =~= Seq::empty());
            lemma_complete(self@, marks@);
        }
        marks
    }

    /// Frees the cells in use that are not marked.
    fn sweep(&mut self, marks: &Vec<bool>)
        requires
            old(self).wf(),
            marks@.len() == old(self)@.cells.len(),
            forall|h: int|
                0 <= h < marks@.len() ==> (#[trigger] marks@[h] <==> reachable(old(self)@, h)),
        ensures
            final(self).wf(),
            final(self)@ == (State { debt: old(self)@.debt, ..old(self)@.collected() }),
    {
        let ghost s = self@;
        let len = self.cells.len();
        let mut h: usize = 0;
        while h < len
            invariant
                h <= len,
                len == s.cells.len(),
                self.cells@.len() == len,
                marks@.len() == len,
                s == old(self)@,
                self.root == old(self).root,
                self.debt == old(self).debt,
                forall|k: int| 0 <= k < len ==> (#[trigger] marks@[k] <==> reachable(s, k)),
                forall|k: int|
                    0 <= k < h ==> (#[trigger] self.cells@[k])@ == (if marks@[k] {
                        s.cells[k]
                    } else {
                        CellView::Free
                    }),
                forall|k: int| h <= k < len ==> #[trigger] self.cells@[k] == old(self).cells@[k],
                forall|k: int| 0 <= k < len ==> (#[trigger] self.cells@[k]).wf(),
                self.free@ == old(self).free@ + freed(s, h as int),
            decreases len - h,
        {
            let in_use = match &self.cells[h] {
                Cell::Free => false,
                _ => true,
            };
            proof {
                assert(s.cells[h as int] == old(self).cells@[h as int]@);
                assert(old(self).cells@[h as int].wf());
            }
            if !marks[h] && in_use {
                self.cells[h] = Cell::Free;
                self.free.push(h);
                proof {
                    assert(self.free@ =~= old(self).free@ + freed(s, h + 1));
                }
            } else {
                proof {
                    assert(freed(s, h + 1) == freed(s, h as int));
                }
            }
            h += 1;
        }
        proof {
            assert(self@.cells =~= s.collected().cells);
            assert(self@.frames =~= s.frames);
        }
    }

    /// One collection step: the cells that nothing leads to are freed, and
    /// the allocation debt is paid.
    pub fn collect_debt(&mut self)
        requires
            old(self).wf(),
        ensures
            final(self).wf(),
            final(self)@ == old(self)@.collected(),
    {
        let marks = self.mark();
        self.sweep(&marks);
        self.debt = 0;
    }
}

} // verus!
