//! The class hierarchy: the chain of base classes, the test whether one
//! class lies on the chain of another, and the table of virtual methods.
use vstd::prelude::*;
use crate::index_map::{stored, IndexMap};
use crate::pool::{Pool, PoolIndex};
use crate::value::VMIndex;

verus! {

/// Whether, walking up from `expected` along the base classes for at most
/// `fuel` steps, `instance` is met before the walk leaves the classes of the
/// pool.
pub open spec fn on_base_chain(pool: &Pool, instance: PoolIndex, expected: PoolIndex, fuel: nat) -> bool
    decreases fuel,
{
    if fuel == 0 {
        false
    } else {
        match pool.spec_class(expected) {
            None => false,
            Some(class) => instance == expected || (!class.base.spec_is_undefined()
                && on_base_chain(pool, instance, class.base, (fuel - 1) as nat)),
        }
    }
}

/// Whether `instance` lies on the chain of base classes that starts at `of`.
/// No chain without a loop is longer than the pool.
pub open spec fn instance_of(pool: &Pool, instance: PoolIndex, of: PoolIndex) -> bool {
    on_base_chain(pool, instance, of, pool.definitions.len() as nat)
}

pub fn is_instance_of(pool: &Pool, instance: PoolIndex, of: PoolIndex) -> (r: bool)
    ensures
        r == instance_of(pool, instance, of),
{
    let mut expected = of;
    let mut fuel: usize = pool.definition_count();
    while fuel > 0
        invariant
            instance_of(pool, instance, of) == on_base_chain(pool, instance, expected, fuel as nat),
        decreases fuel,
    {
        match pool.class(expected) {
            None => {
                return false;
            },
            Some(class) => {
                if instance.0 == expected.0 {
                    return true;
                } else if class.base.is_undefined() {
                    return false;
                } else {
                    expected = class.base;
                }
            },
        }
        fuel -= 1;
    }
    false
}

/// A class lies on its own chain.
pub proof fn lemma_instance_of_itself(pool: &Pool, class: PoolIndex)
    requires
        pool.spec_class(class) is Some,
    ensures
        instance_of(pool, class, class),
{
}

/// No class lies on the chain of the undefined position.
pub proof fn lemma_instance_of_undefined(pool: &Pool, class: PoolIndex)
    ensures
        !instance_of(pool, class, PoolIndex(0)),
{
}

/// The class at `idx` and its base classes, most derived first, as far as
/// `fuel` steps lead. There is no chain where it leaves the classes of the
/// pool or is longer than `fuel`.
pub open spec fn class_chain(pool: &Pool, idx: PoolIndex, fuel: nat) -> Option<Seq<PoolIndex>>
    decreases fuel,
{
    if idx.spec_is_undefined() {
        Some(Seq::empty())
    } else if fuel == 0 {
        None
    } else {
        match pool.spec_class(idx) {
            None => None,
            Some(class) => match class_chain(pool, class.base, (fuel - 1) as nat) {
                Some(rest) => Some(seq![idx] + rest),
                None => None,
            },
        }
    }
}

/// `table` with the virtual methods among the first `upto` of `functions`
/// added, each under the position of its name; a name that the table has
/// keeps its method. There is no result where one of the positions names no
/// function.
pub open spec fn with_methods(
    pool: &Pool,
    table: Seq<(u32, VMIndex)>,
    functions: Seq<PoolIndex>,
    upto: int,
) -> Option<Seq<(u32, VMIndex)>>
    decreases upto,
{
    if upto <= 0 || upto > functions.len() {
        Some(table)
    } else {
        match with_methods(pool, table, functions, upto - 1) {
            None => None,
            Some(earlier) => {
                let idx = functions[upto - 1];
                match (pool.spec_definition(idx), pool.spec_function(idx)) {
                    (Some(def), Some(function)) => if !function.flags.is_final
                        && !function.flags.is_static {
                        Some(stored(earlier, def.name.0, VMIndex(idx.0)))
                    } else {
                        Some(earlier)
                    },
                    _ => None,
                }
            },
        }
    }
}

/// `table` with the virtual methods of the first `upto` classes of `chain`
/// added, in the order of the chain.
pub open spec fn with_classes(
    pool: &Pool,
    table: Seq<(u32, VMIndex)>,
    chain: Seq<PoolIndex>,
    upto: int,
) -> Option<Seq<(u32, VMIndex)>>
    decreases upto,
{
    if upto <= 0 || upto > chain.len() {
        Some(table)
    } else {
        match with_classes(pool, table, chain, upto - 1) {
            None => None,
            Some(earlier) => match pool.spec_class(chain[upto - 1]) {
                Some(class) => with_methods(
                    pool,
                    earlier,
                    class.functions@,
                    class.functions@.len() as int,
                ),
                None => None,
            },
        }
    }
}

/// The virtual methods of the class at `idx` by the position of their name:
/// those of the class and of its base classes that are neither final nor
/// static. Where a class and one of its bases have a method of the same
/// name, the table has the one of the class.
pub open spec fn vtable_of(pool: &Pool, idx: PoolIndex) -> Option<Seq<(u32, VMIndex)>> {
    match class_chain(pool, idx, pool.definitions.len() as nat) {
        Some(chain) => with_classes(pool, Seq::empty(), chain, chain.len() as int),
        None => None,
    }
}

fn chain_of(pool: &Pool, idx: PoolIndex) -> (r: Option<Vec<PoolIndex>>)
    ensures
        r.is_some() == class_chain(pool, idx, pool.definitions.len() as nat).is_some(),
        r matches Some(chain) ==> chain@ == class_chain(
            pool,
            idx,
            pool.definitions.len() as nat,
        ).unwrap(),
{
    let mut bases: Vec<PoolIndex> = Vec::new();
    let mut current = idx;
    let mut fuel: usize = pool.definition_count();
    let ghost whole = class_chain(pool, idx, pool.definitions.len() as nat);
    while !current.is_undefined()
        invariant
            whole == class_chain(pool, idx, pool.definitions.len() as nat),
            match class_chain(pool, current, fuel as nat) {
                Some(rest) => whole == Some(bases@ + rest),
                None => whole is None,
            },
        decreases fuel,
    {
        if fuel == 0 {
            return None;
        }
        match pool.class(current) {
            None => {
                return None;
            },
            Some(class) => {
                proof {
                    match class_chain(pool, class.base, (fuel - 1) as nat) {
                        Some(rest) => {
                            assert(bases@ + (seq![current] + rest) =~= bases@.push(current)
                                + rest);
                        },
                        None => {},
                    }
                }
                bases.push(current);
                current = class.base;
            },
        }
        fuel -= 1;
    }
    proof {
        assert(bases@ + Seq::<PoolIndex>::empty() =~= bases@);
    }
    Some(bases)
}

fn add_methods(pool: &Pool, table: &mut IndexMap<VMIndex>, functions: &Vec<PoolIndex>) -> (r: bool)
    requires
        old(table).wf(),
    ensures
        final(table).wf(),
        r == with_methods(pool, old(table)@, functions@, functions@.len() as int).is_some(),
        r ==> final(table)@ == with_methods(
            pool,
            old(table)@,
            functions@,
            functions@.len() as int,
        ).unwrap(),
{
    let mut i: usize = 0;
    while i < functions.len()
        invariant
            i <= functions@.len(),
            table.wf(),
            with_methods(pool, old(table)@, functions@, i as int) == Some(table@),
        decreases functions@.len() - i,
    {
        let idx = functions[i];
        match (pool.definition(idx), pool.function(idx)) {
            (Some(def), Some(function)) => {
                if !function.flags.is_final() && !function.flags.is_static() {
                    table.put(def.name, VMIndex(idx.0));
                }
            },
            _ => {
                proof {
                    lemma_with_methods_fail(pool, old(table)@, functions@, i + 1);
                }
                return false;
            },
        }
        i += 1;
    }
    true
}

/// Once no table exists for a prefix of the functions, none exists for all
/// of them.
proof fn lemma_with_methods_fail(
    pool: &Pool,
    table: Seq<(u32, VMIndex)>,
    functions: Seq<PoolIndex>,
    upto: int,
)
    requires
        with_methods(pool, table, functions, upto) is None,
        upto <= functions.len(),
    ensures
        with_methods(pool, table, functions, functions.len() as int) is None,
    decreases functions.len() - upto,
{
    if upto < functions.len() {
        lemma_with_methods_fail(pool, table, functions, upto + 1);
    }
}

/// Once no table exists for a prefix of the chain, none exists for all of
/// it.
proof fn lemma_with_classes_fail(
    pool: &Pool,
    table: Seq<(u32, VMIndex)>,
    chain: Seq<PoolIndex>,
    upto: int,
)
    requires
        with_classes(pool, table, chain, upto) is None,
        upto <= chain.len(),
    ensures
        with_classes(pool, table, chain, chain.len() as int) is None,
    decreases chain.len() - upto,
{
    if upto < chain.len() {
        lemma_with_classes_fail(pool, table, chain, upto + 1);
    }
}

/// Works out the table of virtual methods of the class at `idx`.
pub fn build_vtable(pool: &Pool, idx: PoolIndex) -> (r: Option<IndexMap<VMIndex>>)
    ensures
        r.is_some() == vtable_of(pool, idx).is_some(),
        r matches Some(table) ==> table.wf() && table@ == vtable_of(pool, idx).unwrap(),
{
    let chain = match chain_of(pool, idx) {
        Some(chain) => chain,
        None => {
            return None;
        },
    };
    let mut table: IndexMap<VMIndex> = IndexMap::new();
    assert(table@ =~= Seq::empty());
    let mut i: usize = 0;
    while i < chain.len()
        invariant
            i <= chain@.len(),
            table.wf(),
            class_chain(pool, idx, pool.definitions.len() as nat) == Some(chain@),
            with_classes(pool, Seq::empty(), chain@, i as int) == Some(table@),
        decreases chain@.len() - i,
    {
        let ghost before = table@;
        let added = match pool.class(chain[i]) {
            Some(class) => add_methods(pool, &mut table, &class.functions),
            None => false,
        };
        proof {
            assert(with_classes(pool, Seq::empty(), chain@, i as int) == Some(before));
            assert(with_classes(pool, Seq::empty(), chain@, i + 1) == match pool.spec_class(
                chain@[i as int],
            ) {
                Some(class) => with_methods(
                    pool,
                    before,
                    class.functions@,
                    class.functions@.len() as int,
                ),
                None => None,
            });
        }
        if !added {
            proof {
                lemma_with_classes_fail(pool, Seq::empty(), chain@, i + 1);
            }
            return None;
        }
        i += 1;
    }
    Some(table)
}

/// The byte positions of the instructions of `function`, in order.
pub open spec fn code_offsets(function: crate::pool::Function) -> Seq<u16> {
    function.code@.map_values(|entry: (u16, crate::pool::Instr)| entry.0)
}

/// Whether each position is greater than the one before it.
pub open spec fn increasing(offsets: Seq<u16>) -> bool {
    forall|i: int, j: int| 0 <= i < j < offsets.len() ==> offsets[i] < offsets[j]
}

/// The byte position of the `k`-th of a row of instructions of the sizes
/// `sizes`, the first of which stands at position 0.
pub open spec fn placed(sizes: Seq<u16>, k: int) -> int
    decreases k,
{
    if k <= 0 || k > sizes.len() {
        0
    } else {
        placed(sizes, k - 1) + sizes[k - 1]
    }
}

/// No instruction stands before an earlier one.
pub proof fn lemma_placed_grows(sizes: Seq<u16>, j: int, k: int)
    requires
        0 <= j <= k <= sizes.len(),
    ensures
        placed(sizes, j) <= placed(sizes, k),
    decreases k - j,
{
    if j < k {
        lemma_placed_grows(sizes, j, k - 1);
    }
}

/// The byte positions of a row of instructions of the sizes `sizes`: the
/// first stands at position 0, each other one behind the one before it.
/// There are none where the position of an instruction does not fit.
pub fn positions(sizes: &Vec<u16>) -> (r: Option<Vec<u16>>)
    ensures
        r.is_some() == (sizes@.len() == 0 || placed(sizes@, sizes@.len() - 1) <= u16::MAX),
        r matches Some(at) ==> at@.len() == sizes@.len() && forall|k: int|
            0 <= k < at@.len() ==> #[trigger] at@[k] == placed(sizes@, k),
{
    let mut at: u16 = 0;
    let mut found: Vec<u16> = Vec::new();
    let mut i: usize = 0;
    while i < sizes.len()
        invariant
            i <= sizes@.len(),
            found@.len() == i,
            i < sizes@.len() ==> at == placed(sizes@, i as int),
            forall|k: int| 0 <= k < i ==> #[trigger] found@[k] == placed(sizes@, k),
        decreases sizes@.len() - i,
    {
        found.push(at);
        if i + 1 < sizes.len() {
            let next: u32 = at as u32 + sizes[i] as u32;
            if next > 0xffff {
                proof {
                    lemma_placed_grows(sizes@, i + 1, sizes@.len() - 1);
                }
                return None;
            }
            at = next as u16;
        }
        i += 1;
    }
    proof {
        if sizes@.len() > 0 {
            assert(found@[sizes@.len() - 1] == placed(sizes@, sizes@.len() - 1));
        }
    }
    Some(found)
}

/// Collects the byte positions of the instructions of `function`; none where
/// they do not increase from each instruction to the next.
pub fn collect_offsets(function: &crate::pool::Function) -> (r: Option<Vec<u16>>)
    ensures
        r.is_some() == increasing(code_offsets(*function)),
        r matches Some(offsets) ==> offsets@ == code_offsets(*function),
{
    let code = &function.code;
    let mut offsets: Vec<u16> = Vec::with_capacity(code.len());
    let ghost whole = code_offsets(*function);
    let mut i: usize = 0;
    while i < code.len()
        invariant
            i <= code@.len(),
            code == &function.code,
            whole == code_offsets(*function),
            offsets@ == whole.take(i as int),
            increasing(offsets@),
        decreases code@.len() - i,
    {
        let at = code[i].0;
        if i > 0 && offsets[i - 1] >= at {
            proof {
                assert(whole[i - 1] == offsets@[i - 1]);
                assert(whole[i as int] == at);
            }
            return None;
        }
        offsets.push(at);
        proof {
            assert(offsets@ =~= whole.take(i + 1));
            assert forall|a: int, b: int| 0 <= a < b < offsets@.len() implies offsets@[a]
                < offsets@[b] by {
                if b < i {
                    assert(whole.take(i as int)[a] < whole.take(i as int)[b]);
                } else if a < i - 1 {
                    assert(whole.take(i as int)[a] < whole.take(i as int)[i - 1]);
                }
            }
        }
        i += 1;
    }
    proof {
        assert(whole.take(i as int) =~= whole);
    }
    Some(offsets)
}

} // verus!
