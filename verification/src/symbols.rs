//! The names of a pool's root definitions.
use vstd::prelude::*;
use crate::pool::{AnyDefinition, Definition, Pool, PoolIndex};

verus! {

/// The kinds of definition that can be found by name.
#[derive(Clone, Copy, Debug, PartialEq, Eq, Structural)]
pub enum SymbolKind {
    Function,
    Class,
    Enum,
}

pub open spec fn is_kind(def: Definition, kind: SymbolKind) -> bool {
    match (def.value, kind) {
        (AnyDefinition::Function(_), SymbolKind::Function) => true,
        (AnyDefinition::Class(_), SymbolKind::Class) => true,
        (AnyDefinition::Enum(_), SymbolKind::Enum) => true,
        _ => false,
    }
}

/// How many definitions of a pool can be addressed: a position is a 32-bit
/// number.
pub open spec fn addressable(pool: &Pool) -> int {
    if pool.definitions.len() <= 0x1_0000_0000 {
        pool.definitions.len() as int
    } else {
        0x1_0000_0000
    }
}

/// The roots of kind `kind` among the definitions before position `upto`,
/// each with its name, in the order of the pool. There is no such list where
/// the name of one of them is missing from the name table.
pub open spec fn root_symbols(pool: &Pool, kind: SymbolKind, upto: int) -> Option<
    Seq<(Seq<char>, PoolIndex)>,
>
    decreases upto,
{
    if upto <= 1 || upto > addressable(pool) {
        Some(Seq::empty())
    } else {
        match root_symbols(pool, kind, upto - 1) {
            None => None,
            Some(earlier) => {
                let def = pool.definitions[upto - 1];
                if def.parent.0 == 0 && is_kind(def, kind) {
                    match pool.spec_name(def.name) {
                        Some(name) => Some(earlier.push((name, PoolIndex((upto - 1) as u32)))),
                        None => None,
                    }
                } else {
                    Some(earlier)
                }
            },
        }
    }
}

/// The position that the last of the first `upto` entries with the name
/// `name` gives.
pub open spec fn last_named(entries: Seq<(Seq<char>, PoolIndex)>, name: Seq<char>, upto: int) -> Option<
    PoolIndex,
>
    decreases upto,
{
    if upto <= 0 || upto > entries.len() {
        None
    } else if entries[upto - 1].0 == name {
        Some(entries[upto - 1].1)
    } else {
        last_named(entries, name, upto - 1)
    }
}

/// The definition that `name` stands for among `entries`: the last one of
/// that name.
pub open spec fn named(entries: Seq<(Seq<char>, PoolIndex)>, name: Seq<char>) -> Option<PoolIndex> {
    last_named(entries, name, entries.len() as int)
}

pub open spec fn entry_view(entry: (String, PoolIndex)) -> (Seq<char>, PoolIndex) {
    (entry.0@, entry.1)
}

/// The functions, classes and enums of a pool by name.
pub struct Symbols {
    pub functions: Vec<(String, PoolIndex)>,
    pub classes: Vec<(String, PoolIndex)>,
    pub enums: Vec<(String, PoolIndex)>,
}

/// What a symbol table holds.
pub struct SymbolsView {
    pub functions: Seq<(Seq<char>, PoolIndex)>,
    pub classes: Seq<(Seq<char>, PoolIndex)>,
    pub enums: Seq<(Seq<char>, PoolIndex)>,
}

impl View for Symbols {
    type V = SymbolsView;

    open spec fn view(&self) -> SymbolsView {
        SymbolsView {
            functions: self.functions@.map_values(|e: (String, PoolIndex)| entry_view(e)),
            classes: self.classes@.map_values(|e: (String, PoolIndex)| entry_view(e)),
            enums: self.enums@.map_values(|e: (String, PoolIndex)| entry_view(e)),
        }
    }
}

/// The symbol tables of `pool`, where each root of the three kinds has a
/// name.
pub open spec fn symbols_of(pool: &Pool) -> Option<SymbolsView> {
    match (
        root_symbols(pool, SymbolKind::Function, addressable(pool)),
        root_symbols(pool, SymbolKind::Class, addressable(pool)),
        root_symbols(pool, SymbolKind::Enum, addressable(pool)),
    ) {
        (Some(functions), Some(classes), Some(enums)) => Some(
            SymbolsView { functions, classes, enums },
        ),
        _ => None,
    }
}

/// Looks `name` up among `entries`.
pub fn find_named(entries: &Vec<(String, PoolIndex)>, name: &String) -> (r: Option<PoolIndex>)
    ensures
        r == named(entries@.map_values(|e: (String, PoolIndex)| entry_view(e)), name@),
{
    let ghost view = entries@.map_values(|e: (String, PoolIndex)| entry_view(e));
    let mut i: usize = entries.len();
    while i > 0
        invariant
            i <= entries@.len(),
            view == entries@.map_values(|e: (String, PoolIndex)| entry_view(e)),
            named(view, name@) == last_named(view, name@, i as int),
        decreases i,
    {
        assert(view[i - 1] == entry_view(entries@[i - 1]));
        if entries[i - 1].0 == *name {
            return Some(entries[i - 1].1);
        }
        i -= 1;
    }
    None
}

impl Symbols {
    /// Collects the named roots of `pool`. There is no result where a root
    /// function, class or enum has a name that the name table lacks.
    pub fn new(pool: &Pool) -> (r: Option<Symbols>)
        ensures
            r.is_some() == symbols_of(pool).is_some(),
            r matches Some(symbols) ==> symbols@ == symbols_of(pool).unwrap(),
    {
        let mut functions: Vec<(String, PoolIndex)> = Vec::new();
        let mut classes: Vec<(String, PoolIndex)> = Vec::new();
        let mut enums: Vec<(String, PoolIndex)> = Vec::new();
        let count = pool.definitions.len();
        let mut i: usize = 1;
        while i < count && i <= u32::MAX as usize
            invariant
                1 <= i,
                count == pool.definitions.len(),
                i <= addressable(pool) || addressable(pool) == 0,
                root_symbols(pool, SymbolKind::Function, i as int) == Some(
                    functions@.map_values(|e: (String, PoolIndex)| entry_view(e)),
                ),
                root_symbols(pool, SymbolKind::Class, i as int) == Some(
                    classes@.map_values(|e: (String, PoolIndex)| entry_view(e)),
                ),
                root_symbols(pool, SymbolKind::Enum, i as int) == Some(
                    enums@.map_values(|e: (String, PoolIndex)| entry_view(e)),
                ),
            decreases count - i,
        {
            let def = &pool.definitions[i];
            let ghost before_f = functions@.map_values(|e: (String, PoolIndex)| entry_view(e));
            let ghost before_c = classes@.map_values(|e: (String, PoolIndex)| entry_view(e));
            let ghost before_e = enums@.map_values(|e: (String, PoolIndex)| entry_view(e));
            if def.parent.0 == 0 {
                match &def.value {
                    AnyDefinition::Function(_) => match pool.name(def.name) {
                        Some(name) => {
                            functions.push((name.clone(), PoolIndex(i as u32)));
                            assert(functions@.map_values(|e: (String, PoolIndex)| entry_view(e))
                                =~= before_f.push((name@, PoolIndex(i as u32))));
                        },
                        None => {
                            proof {
                                lemma_root_symbols_fail(pool, SymbolKind::Function, i + 1);
                            }
                            return None;
                        },
                    },
                    AnyDefinition::Class(_) => match pool.name(def.name) {
                        Some(name) => {
                            classes.push((name.clone(), PoolIndex(i as u32)));
                            assert(classes@.map_values(|e: (String, PoolIndex)| entry_view(e))
                                =~= before_c.push((name@, PoolIndex(i as u32))));
                        },
                        None => {
                            proof {
                                lemma_root_symbols_fail(pool, SymbolKind::Class, i + 1);
                            }
                            return None;
                        },
                    },
                    AnyDefinition::Enum(_) => match pool.name(def.name) {
                        Some(name) => {
                            enums.push((name.clone(), PoolIndex(i as u32)));
                            assert(enums@.map_values(|e: (String, PoolIndex)| entry_view(e))
                                =~= before_e.push((name@, PoolIndex(i as u32))));
                        },
                        None => {
                            proof {
                                lemma_root_symbols_fail(pool, SymbolKind::Enum, i + 1);
                            }
                            return None;
                        },
                    },
                    _ => {},
                }
            }
            i += 1;
        }
        proof {
            lemma_root_symbols_end(pool, SymbolKind::Function, i as int);
            lemma_root_symbols_end(pool, SymbolKind::Class, i as int);
            lemma_root_symbols_end(pool, SymbolKind::Enum, i as int);
        }
        Some(Symbols { functions, classes, enums })
    }
}

/// Once the list of roots does not exist for a prefix of the pool, it does
/// not exist for the whole pool.
pub proof fn lemma_root_symbols_fail(pool: &Pool, kind: SymbolKind, upto: int)
    requires
        root_symbols(pool, kind, upto) is None,
        upto <= addressable(pool),
    ensures
        root_symbols(pool, kind, addressable(pool)) is None,
    decreases addressable(pool) - upto,
{
    if upto < addressable(pool) {
        lemma_root_symbols_fail(pool, kind, upto + 1);
    }
}

/// Past the last addressable definition the list of roots is the one of the
/// whole pool.
proof fn lemma_root_symbols_end(pool: &Pool, kind: SymbolKind, upto: int)
    requires
        1 <= upto,
        upto >= addressable(pool) || upto == addressable(pool),
        upto <= addressable(pool) || addressable(pool) == 0,
    ensures
        root_symbols(pool, kind, addressable(pool)) == root_symbols(pool, kind, upto),
{
}

/// Each root in the list stands under the name that the pool gives to its
/// definition.
pub proof fn lemma_root_symbols_names(pool: &Pool, kind: SymbolKind, upto: int)
    requires
        root_symbols(pool, kind, upto) is Some,
    ensures
        forall|i: int|
            0 <= i < root_symbols(pool, kind, upto).unwrap().len() ==> {
                let entry = #[trigger] root_symbols(pool, kind, upto).unwrap()[i];
                0 <= entry.1.0 < pool.definitions.len() && pool.spec_name(
                    pool.definitions[entry.1.0 as int].name,
                ) == Some(entry.0)
            },
    decreases upto,
{
    if upto <= 1 || upto > addressable(pool) {
    } else {
        lemma_root_symbols_names(pool, kind, upto - 1);
    }
}

/// What a name stands for is an entry of that name.
pub proof fn lemma_last_named(entries: Seq<(Seq<char>, PoolIndex)>, name: Seq<char>, upto: int)
    requires
        last_named(entries, name, upto) is Some,
    ensures
        exists|i: int|
            0 <= i < entries.len() && #[trigger] entries[i] == (
                name,
                last_named(entries, name, upto).unwrap(),
            ),
    decreases upto,
{
    if upto <= 0 || upto > entries.len() {
    } else if entries[upto - 1].0 == name {
        assert(entries[upto - 1] == (name, last_named(entries, name, upto).unwrap()));
    } else {
        lemma_last_named(entries, name, upto - 1);
    }
}

/// Two names that stand for one function of a pool are one name.
pub proof fn lemma_one_name(pool: &Pool, a: Seq<char>, b: Seq<char>)
    requires
        symbols_of(pool) is Some,
        named(symbols_of(pool).unwrap().functions, a) is Some,
        named(symbols_of(pool).unwrap().functions, a) == named(
            symbols_of(pool).unwrap().functions,
            b,
        ),
    ensures
        a == b,
{
    let entries = symbols_of(pool).unwrap().functions;
    lemma_root_symbols_names(pool, SymbolKind::Function, addressable(pool));
    lemma_last_named(entries, a, entries.len() as int);
    lemma_last_named(entries, b, entries.len() as int);
    let idx = named(entries, a).unwrap();
    let i = choose|i: int| 0 <= i < entries.len() && #[trigger] entries[i] == (a, idx);
    let j = choose|j: int| 0 <= j < entries.len() && #[trigger] entries[j] == (b, idx);
    assert(pool.spec_name(pool.definitions[idx.0 as int].name) == Some(entries[i].0));
    assert(pool.spec_name(pool.definitions[idx.0 as int].name) == Some(entries[j].0));
}

} // verus!
