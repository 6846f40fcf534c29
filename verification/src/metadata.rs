//! What the machine derives from a pool once and keeps: the definitions by
//! name, the resolved types, and per class and function what is worked out
//! on first use.
use vstd::prelude::*;
use vstd::string::StringExecFns;
use std::rc::Rc;
use crate::index_map::{has_key, lookup, stored, IndexMap};
use crate::interop::{IntoVMFunction, VMFunction};
use crate::pool::{AnyDefinition, Function, Pool, PoolIndex, Type};
use crate::symbols::{addressable, find_named, named, symbols_of, Symbols, SymbolsView};
use crate::state::State;
use crate::value::VMIndex;
use crate::vtable::{build_vtable, code_offsets, collect_offsets, increasing, instance_of, vtable_of};

verus! {

/// A type, resolved: the classes and enums it speaks of are found.
#[derive(Debug, PartialEq, Eq)]
pub enum TypeId {
    I64,
    I32,
    I16,
    I8,
    U64,
    U32,
    U16,
    U8,
    F64,
    F32,
    Bool,
    String,
    CName,
    TweakDbId,
    ResRef,
    Variant,
    NodeRef,
    CRUID,
    Ref(PoolIndex),
    WRef(PoolIndex),
    ScriptRef(Box<TypeId>),
    Enum(PoolIndex),
    Struct(PoolIndex),
    Array(Box<TypeId>),
    StaticArray(Box<TypeId>, u32),
}

/// The primitive type of the name `name`.
pub open spec fn prim_type(name: Seq<char>) -> Option<TypeId> {
    if name == "Int64"@ {
        Some(TypeId::I64)
    } else if name == "Int32"@ {
        Some(TypeId::I32)
    } else if name == "Int16"@ {
        Some(TypeId::I16)
    } else if name == "Int8"@ {
        Some(TypeId::I8)
    } else if name == "Uint64"@ {
        Some(TypeId::U64)
    } else if name == "Uint32"@ {
        Some(TypeId::U32)
    } else if name == "Uint16"@ {
        Some(TypeId::U16)
    } else if name == "Uint8"@ {
        Some(TypeId::U8)
    } else if name == "Double"@ {
        Some(TypeId::F64)
    } else if name == "Float"@ {
        Some(TypeId::F32)
    } else if name == "Bool"@ {
        Some(TypeId::Bool)
    } else if name == "String"@ {
        Some(TypeId::String)
    } else if name == "CName"@ {
        Some(TypeId::CName)
    } else if name == "TweakDBID"@ {
        Some(TypeId::TweakDbId)
    } else if name == "Variant"@ {
        Some(TypeId::Variant)
    } else if name == "NodeRef"@ {
        Some(TypeId::NodeRef)
    } else if name == "LocalizationString"@ {
        Some(TypeId::String)
    } else if name == "CRUID"@ {
        Some(TypeId::CRUID)
    } else if name == "CRUIDRef"@ {
        Some(TypeId::CRUID)
    } else if name == "redResourceReferenceScriptToken"@ {
        Some(TypeId::String)
    } else if name == "ResRef"@ {
        Some(TypeId::ResRef)
    } else {
        None
    }
}

fn is_text(name: &String, text: &str) -> (r: bool)
    ensures
        r == (name@ == text@),
{
    *name == String::from_str(text)
}

fn prim_type_of(name: &String) -> (r: Option<TypeId>)
    ensures
        r == prim_type(name@),
{
    if is_text(name, "Int64") {
        Some(TypeId::I64)
    } else if is_text(name, "Int32") {
        Some(TypeId::I32)
    } else if is_text(name, "Int16") {
        Some(TypeId::I16)
    } else if is_text(name, "Int8") {
        Some(TypeId::I8)
    } else if is_text(name, "Uint64") {
        Some(TypeId::U64)
    } else if is_text(name, "Uint32") {
        Some(TypeId::U32)
    } else if is_text(name, "Uint16") {
        Some(TypeId::U16)
    } else if is_text(name, "Uint8") {
        Some(TypeId::U8)
    } else if is_text(name, "Double") {
        Some(TypeId::F64)
    } else if is_text(name, "Float") {
        Some(TypeId::F32)
    } else if is_text(name, "Bool") {
        Some(TypeId::Bool)
    } else if is_text(name, "String") {
        Some(TypeId::String)
    } else if is_text(name, "CName") {
        Some(TypeId::CName)
    } else if is_text(name, "TweakDBID") {
        Some(TypeId::TweakDbId)
    } else if is_text(name, "Variant") {
        Some(TypeId::Variant)
    } else if is_text(name, "NodeRef") {
        Some(TypeId::NodeRef)
    } else if is_text(name, "LocalizationString") {
        Some(TypeId::String)
    } else if is_text(name, "CRUID") {
        Some(TypeId::CRUID)
    } else if is_text(name, "CRUIDRef") {
        Some(TypeId::CRUID)
    } else if is_text(name, "redResourceReferenceScriptToken") {
        Some(TypeId::String)
    } else if is_text(name, "ResRef") {
        Some(TypeId::ResRef)
    } else {
        None
    }
}

/// The class that the definition at `idx` names.
pub open spec fn class_named_by(pool: &Pool, symbols: SymbolsView, idx: PoolIndex) -> Option<
    PoolIndex,
> {
    match pool.spec_def_name(idx) {
        Some(name) => named(symbols.classes, name),
        None => None,
    }
}

/// The type that the definition at `idx` resolves to, looking at most `fuel`
/// definitions deep: a primitive by its name; a class type as the struct or,
/// failing that, the enum of its name; a reference as the class of the name
/// of the type it points at; an array or script reference around the type
/// it holds.
pub open spec fn resolve(pool: &Pool, symbols: SymbolsView, idx: PoolIndex, fuel: nat) -> Option<
    TypeId,
>
    decreases fuel,
{
    if fuel == 0 {
        None
    } else {
        match pool.spec_type(idx) {
            None => None,
            Some(Type::Prim) => match pool.spec_def_name(idx) {
                Some(name) => prim_type(name),
                None => None,
            },
            Some(Type::Class) => match pool.spec_def_name(idx) {
                Some(name) => match named(symbols.classes, name) {
                    Some(class) => Some(TypeId::Struct(class)),
                    None => match named(symbols.enums, name) {
                        Some(e) => Some(TypeId::Enum(e)),
                        None => None,
                    },
                },
                None => None,
            },
            Some(Type::Ref(target)) => match class_named_by(pool, symbols, target) {
                Some(class) => Some(TypeId::Ref(class)),
                None => None,
            },
            Some(Type::WeakRef(target)) => match class_named_by(pool, symbols, target) {
                Some(class) => Some(TypeId::WRef(class)),
                None => None,
            },
            Some(Type::ScriptRef(inner)) => match resolve(pool, symbols, inner, (fuel - 1) as nat) {
                Some(typ) => Some(TypeId::ScriptRef(Box::new(typ))),
                None => None,
            },
            Some(Type::Array(inner)) => match resolve(pool, symbols, inner, (fuel - 1) as nat) {
                Some(typ) => Some(TypeId::Array(Box::new(typ))),
                None => None,
            },
            Some(Type::StaticArray(inner, size)) => match resolve(
                pool,
                symbols,
                inner,
                (fuel - 1) as nat,
            ) {
                Some(typ) => Some(TypeId::StaticArray(Box::new(typ), size)),
                None => None,
            },
        }
    }
}

impl TypeId {
    fn class_named_by(pool: &Pool, symbols: &Symbols, idx: PoolIndex) -> (r: Option<PoolIndex>)
        ensures
            r == class_named_by(pool, symbols@, idx),
    {
        match pool.def_name(idx) {
            Some(name) => find_named(&symbols.classes, name),
            None => None,
        }
    }

    /// Resolves the type definition at `idx`, looking at most `fuel`
    /// definitions deep.
    pub fn from(idx: PoolIndex, pool: &Pool, symbols: &Symbols, fuel: usize) -> (r: Option<TypeId>)
        ensures
            r == resolve(pool, symbols@, idx, fuel as nat),
        decreases fuel,
    {
        if fuel == 0 {
            return None;
        }
        match pool.type_(idx) {
            None => None,
            Some(Type::Prim) => match pool.def_name(idx) {
                Some(name) => prim_type_of(name),
                None => None,
            },
            Some(Type::Class) => match pool.def_name(idx) {
                Some(name) => match find_named(&symbols.classes, name) {
                    Some(class) => Some(TypeId::Struct(class)),
                    None => match find_named(&symbols.enums, name) {
                        Some(e) => Some(TypeId::Enum(e)),
                        None => None,
                    },
                },
                None => None,
            },
            Some(Type::Ref(target)) => match Self::class_named_by(pool, symbols, target) {
                Some(class) => Some(TypeId::Ref(class)),
                None => None,
            },
            Some(Type::WeakRef(target)) => match Self::class_named_by(pool, symbols, target) {
                Some(class) => Some(TypeId::WRef(class)),
                None => None,
            },
            Some(Type::ScriptRef(inner)) => match TypeId::from(inner, pool, symbols, fuel - 1) {
                Some(typ) => Some(TypeId::ScriptRef(Box::new(typ))),
                None => None,
            },
            Some(Type::Array(inner)) => match TypeId::from(inner, pool, symbols, fuel - 1) {
                Some(typ) => Some(TypeId::Array(Box::new(typ))),
                None => None,
            },
            Some(Type::StaticArray(inner, size)) => match TypeId::from(
                inner,
                pool,
                symbols,
                fuel - 1,
            ) {
                Some(typ) => Some(TypeId::StaticArray(Box::new(typ), size)),
                None => None,
            },
        }
    }
}

/// `Rc::clone`: one more pointer to the same value.
#[verifier::external_body]
pub(crate) fn share<T>(rc: &Rc<T>) -> (r: Rc<T>)
    ensures
        r == *rc,
{
    Rc::clone(rc)
}

/// What is kept for a class: its table of virtual methods, once it was
/// asked for.
pub struct ClassMetadata {
    pub vtable: Option<Rc<IndexMap<VMIndex>>>,
}

impl ClassMetadata {
    /// Whether what is kept is the table of the class at `idx`.
    pub open spec fn kept_for(&self, pool: &Pool, idx: PoolIndex) -> bool {
        self.vtable matches Some(table) ==> (*table).wf() && vtable_of(pool, idx) == Some((*table)@)
    }

    pub fn new() -> (r: ClassMetadata)
        ensures
            r.vtable is None,
    {
        ClassMetadata { vtable: None }
    }

    /// The table of virtual methods of the class at `idx`; it is worked out
    /// at the first call and kept.
    pub fn get_vtable(&mut self, idx: PoolIndex, pool: &Pool) -> (r: Option<Rc<IndexMap<VMIndex>>>)
        requires
            old(self).kept_for(pool, idx),
        ensures
            final(self).kept_for(pool, idx),
            r.is_some() == vtable_of(pool, idx).is_some(),
            r matches Some(table) ==> (*table).wf() && vtable_of(pool, idx) == Some((*table)@),
    {
        match &self.vtable {
            Some(table) => Some(share(table)),
            None => match build_vtable(pool, idx) {
                Some(table) => {
                    let table = Rc::new(table);
                    self.vtable = Some(share(&table));
                    Some(table)
                },
                None => None,
            },
        }
    }
}

/// What is kept for a function: the byte positions of its instructions,
/// once they were asked for, and the host function that stands for it, once
/// one was registered.
pub struct FunctionMetadata {
    pub offsets: Option<Rc<Vec<u16>>>,
    pub native: Option<VMFunction>,
}

impl FunctionMetadata {
    /// Whether what is kept fits `function`.
    pub open spec fn kept_for(&self, function: Function) -> bool {
        &&& self.offsets matches Some(offsets) ==> (*offsets)@ == code_offsets(function)
            && increasing((*offsets)@)
        &&& self.native matches Some(native) ==> native.callable()
    }

    pub fn new() -> (r: FunctionMetadata)
        ensures
            r.offsets is None,
            r.native is None,
    {
        FunctionMetadata { offsets: None, native: None }
    }

    /// The byte positions of the instructions of `function`; none where they
    /// do not increase. They are collected at the first call and kept.
    pub fn get_offsets(&mut self, function: &Function) -> (r: Option<Rc<Vec<u16>>>)
        requires
            old(self).kept_for(*function),
        ensures
            final(self).kept_for(*function),
            final(self).native == old(self).native,
            r.is_some() == increasing(code_offsets(*function)),
            r matches Some(offsets) ==> (*offsets)@ == code_offsets(*function),
    {
        match &self.offsets {
            Some(offsets) => Some(share(offsets)),
            None => match collect_offsets(function) {
                Some(offsets) => {
                    let offsets = Rc::new(offsets);
                    self.offsets = Some(share(&offsets));
                    Some(offsets)
                },
                None => None,
            },
        }
    }
}

/// Whether the definition at `idx` is a class that has a table of virtual
/// methods: one that is no struct.
pub open spec fn has_vtable(pool: &Pool, idx: PoolIndex) -> bool {
    pool.spec_class(idx) matches Some(class) && !class.flags.is_struct
}

/// The resolved types of the type definitions before position `upto`, by
/// position. There is no table where one of them does not resolve.
pub open spec fn type_table(pool: &Pool, symbols: SymbolsView, upto: int) -> Option<
    Seq<(u32, TypeId)>,
>
    decreases upto,
{
    if upto <= 1 || upto > addressable(pool) {
        Some(Seq::empty())
    } else {
        match type_table(pool, symbols, upto - 1) {
            None => None,
            Some(earlier) => match pool.definitions[upto - 1].value {
                AnyDefinition::Type(_) => match resolve(
                    pool,
                    symbols,
                    PoolIndex((upto - 1) as u32),
                    pool.definitions.len() as nat,
                ) {
                    Some(typ) => Some(stored(earlier, (upto - 1) as u32, typ)),
                    None => None,
                },
                _ => Some(earlier),
            },
        }
    }
}

/// The types of a pool, resolved; none where the pool has a root without a
/// name or a type that does not resolve.
pub open spec fn types_of(pool: &Pool) -> Option<Seq<(u32, TypeId)>> {
    match symbols_of(pool) {
        Some(symbols) => type_table(pool, symbols, addressable(pool)),
        None => None,
    }
}

/// Once no table exists for a prefix of the pool, none exists for the whole
/// pool.
proof fn lemma_type_table_fail(pool: &Pool, symbols: SymbolsView, upto: int)
    requires
        type_table(pool, symbols, upto) is None,
        upto <= addressable(pool),
    ensures
        type_table(pool, symbols, addressable(pool)) is None,
    decreases addressable(pool) - upto,
{
    if upto < addressable(pool) {
        lemma_type_table_fail(pool, symbols, upto + 1);
    }
}

pub struct Metadata<'pool> {
    pub pool: &'pool Pool,
    pub symbols: Symbols,
    pub types: IndexMap<TypeId>,
    pub function_meta: IndexMap<FunctionMetadata>,
    pub class_meta: IndexMap<ClassMetadata>,
}

impl<'pool> Metadata<'pool> {
    /// What is kept fits the pool.
    pub open spec fn wf(&self) -> bool {
        &&& self.types.wf()
        &&& self.function_meta.wf()
        &&& self.class_meta.wf()
        &&& symbols_of(self.pool) == Some(self.symbols@)
        &&& types_of(self.pool) == Some(self.types@)
        &&& forall|i: int|
            0 <= i < self.function_meta@.len() ==> {
                let entry = #[trigger] self.function_meta@[i];
                self.pool.spec_function(PoolIndex(entry.0)) is Some && entry.1.kept_for(
                    self.pool.spec_function(PoolIndex(entry.0)).unwrap(),
                )
            }
        &&& forall|i: int|
            0 <= i < self.class_meta@.len() ==> {
                let entry = #[trigger] self.class_meta@[i];
                has_vtable(self.pool, PoolIndex(entry.0)) && entry.1.kept_for(
                    self.pool,
                    PoolIndex(entry.0),
                )
            }
    }

    /// Whether something is kept for every function and for every class
    /// that is no struct, as far as the maps have room.
    pub open spec fn complete(&self) -> bool {
        &&& forall|k: u32|
            self.pool.spec_function(PoolIndex(k)) is Some && self.function_meta@.len()
                < IndexMap::<FunctionMetadata>::spec_limit() ==> #[trigger] has_key(
                self.function_meta@,
                k,
            )
        &&& forall|k: u32|
            has_vtable(self.pool, PoolIndex(k)) && self.class_meta@.len() < IndexMap::<
                ClassMetadata,
            >::spec_limit() ==> #[trigger] has_key(self.class_meta@, k)
    }

    /// Prepares `pool` for running: finds the roots by name and resolves the
    /// types. There is no result where a root has no name or a type does
    /// not resolve.
    pub fn new(pool: &'pool Pool) -> (r: Option<Metadata<'pool>>)
        ensures
            r.is_some() == types_of(pool).is_some(),
            r matches Some(meta) ==> meta.wf() && meta.pool == pool && meta.complete()
                && forall|i: int|
                0 <= i < meta.function_meta@.len() ==> (#[trigger] meta.function_meta@[i]).1.native
                    is None,
    {
        let symbols = match Symbols::new(pool) {
            Some(symbols) => symbols,
            None => {
                return None;
            },
        };
        let mut types: IndexMap<TypeId> = IndexMap::new();
        let mut function_meta: IndexMap<FunctionMetadata> = IndexMap::new();
        let mut class_meta: IndexMap<ClassMetadata> = IndexMap::new();
        assert(types@ =~= Seq::empty());
        let count = pool.definitions.len();
        let mut i: usize = 1;
        while i < count && i <= u32::MAX as usize
            invariant
                1 <= i,
                count == pool.definitions.len(),
                i <= addressable(pool) || addressable(pool) == 0,
                symbols_of(pool) == Some(symbols@),
                types.wf(),
                function_meta.wf(),
                class_meta.wf(),
                type_table(pool, symbols@, i as int) == Some(types@),
                forall|j: int|
                    0 <= j < function_meta@.len() ==> {
                        let entry = #[trigger] function_meta@[j];
                        pool.spec_function(PoolIndex(entry.0)) is Some && entry.1.offsets is None
                            && entry.1.native is None
                    },
                forall|j: int|
                    0 <= j < class_meta@.len() ==> {
                        let entry = #[trigger] class_meta@[j];
                        has_vtable(pool, PoolIndex(entry.0)) && entry.1.vtable is None
                    },
                forall|k: u32|
                    k < i && pool.spec_function(PoolIndex(k)) is Some && function_meta@.len()
                        < IndexMap::<FunctionMetadata>::spec_limit() ==> #[trigger] has_key(
                        function_meta@,
                        k,
                    ),
                forall|k: u32|
                    k < i && has_vtable(pool, PoolIndex(k)) && class_meta@.len() < IndexMap::<
                        ClassMetadata,
                    >::spec_limit() ==> #[trigger] has_key(class_meta@, k),
            decreases count - i,
        {
            let idx = PoolIndex(i as u32);
            let ghost functions = function_meta@;
            let ghost classes = class_meta@;
            match &pool.definitions[i].value {
                AnyDefinition::Type(_) => {
                    match TypeId::from(idx, pool, &symbols, count) {
                        Some(typ) => {
                            types.put(idx, typ);
                        },
                        None => {
                            proof {
                                lemma_type_table_fail(pool, symbols@, i + 1);
                            }
                            return None;
                        },
                    }
                },
                AnyDefinition::Function(_) => {
                    function_meta.put(idx, FunctionMetadata::new());
                },
                AnyDefinition::Class(class) => {
                    if !class.flags.is_struct() {
                        class_meta.put(idx, ClassMetadata::new());
                    }
                },
                _ => {},
            }
            proof {
                assert forall|k: u32|
                    k < i + 1 && pool.spec_function(PoolIndex(k)) is Some && function_meta@.len()
                        < IndexMap::<FunctionMetadata>::spec_limit() implies #[trigger] has_key(
                    function_meta@,
                    k,
                ) by {
                    if k < i {
                        assert(has_key(functions, k));
                        let j = choose|j: int|
                            0 <= j < functions.len() && (#[trigger] functions[j]).0 == k;
                        assert(function_meta@[j] == functions[j]);
                    } else if has_key(functions, k) {
                        let j = choose|j: int|
                            0 <= j < functions.len() && (#[trigger] functions[j]).0 == k;
                        assert(function_meta@[j] == functions[j]);
                    } else {
                        assert(function_meta@[functions.len() as int].0 == k);
                    }
                }
                assert forall|k: u32|
                    k < i + 1 && has_vtable(pool, PoolIndex(k)) && class_meta@.len() < IndexMap::<
                        ClassMetadata,
                    >::spec_limit() implies #[trigger] has_key(class_meta@, k) by {
                    if k < i {
                        assert(has_key(classes, k));
                        let j = choose|j: int|
                            0 <= j < classes.len() && (#[trigger] classes[j]).0 == k;
                        assert(class_meta@[j] == classes[j]);
                    } else if has_key(classes, k) {
                        let j = choose|j: int|
                            0 <= j < classes.len() && (#[trigger] classes[j]).0 == k;
                        assert(class_meta@[j] == classes[j]);
                    } else {
                        assert(class_meta@[classes.len() as int].0 == k);
                    }
                }
            }
            i += 1;
        }
        Some(Metadata { pool, symbols, types, function_meta, class_meta })
    }

    pub fn pool(&self) -> (r: &'pool Pool)
        ensures
            r == self.pool,
    {
        self.pool
    }

    /// The resolved type of the type definition at `idx`.
    pub fn get_type(&self, idx: PoolIndex) -> (r: Option<&TypeId>)
        requires
            self.wf(),
        ensures
            r.is_some() == has_key(self.types@, idx.0),
            r matches Some(typ) ==> lookup(self.types@, idx.0) == Some(*typ),
    {
        self.types.get(idx)
    }

    /// The root class of the name `name`.
    pub fn get_class(&self, name: &str) -> (r: Option<PoolIndex>)
        ensures
            r == named(self.symbols@.classes, name@),
    {
        find_named(&self.symbols.classes, &name.to_owned())
    }

    /// The root function of the name `name`.
    pub fn get_function(&self, name: &str) -> (r: Option<PoolIndex>)
        ensures
            r == named(self.symbols@.functions, name@),
    {
        find_named(&self.symbols.functions, &name.to_owned())
    }

    /// The host function that is registered for the function at `idx`.
    pub fn get_native(&self, idx: PoolIndex) -> (r: Option<&VMFunction>)
        requires
            self.wf(),
        ensures
            r.is_some() == (lookup(self.function_meta@, idx.0) matches Some(meta)
                && meta.native is Some),
            r matches Some(native) ==> native.callable() && lookup(
                self.function_meta@,
                idx.0,
            ).unwrap().native == Some(*native),
    {
        match self.function_meta.get(idx) {
            Some(meta) => {
                proof {
                    let p = crate::index_map::position_of(self.function_meta@, idx.0);
                    assert(self.function_meta@[p].1 == *meta);
                    assert(meta.kept_for(self.pool.spec_function(PoolIndex(idx.0)).unwrap()));
                }
                match &meta.native {
                    Some(native) => Some(native),
                    None => None,
                }
            },
            None => None,
        }
    }

    /// Whether `instance` lies on the chain of base classes that starts at
    /// `of`.
    pub fn is_instance_of(&self, instance: PoolIndex, of: PoolIndex) -> (r: bool)
        ensures
            r == instance_of(self.pool, instance, of),
    {
        crate::vtable::is_instance_of(self.pool, instance, of)
    }
}

impl<'pool> Metadata<'pool> {
    /// The byte positions of the instructions of the function at `idx`; none
    /// where nothing is kept for that position or the positions do not
    /// increase.
    pub fn get_code_offsets(&mut self, idx: PoolIndex) -> (r: Option<Rc<Vec<u16>>>)
        requires
            old(self).wf(),
        ensures
            final(self).wf(),
            final(self).pool == old(self).pool,
            final(self).natives() == old(self).natives(),
            final(self).types == old(self).types,
            final(self).symbols == old(self).symbols,
            final(self).class_meta == old(self).class_meta,
            r.is_some() == (has_key(old(self).function_meta@, idx.0) && increasing(
                code_offsets(old(self).pool.spec_function(idx).unwrap()),
            )),
            r matches Some(offsets) ==> (*offsets)@ == code_offsets(
                old(self).pool.spec_function(idx).unwrap(),
            ),
    {
        let pool = self.pool;
        let ghost before = self.function_meta@;
        proof {
            self.function_meta.lemma_wf();
        }
        let meta = match self.function_meta.get_mut(idx) {
            Some(meta) => meta,
            None => {
                return None;
            },
        };
        let function = match pool.function(idx) {
            Some(function) => function,
            None => {
                return None;
            },
        };
        let ghost at = crate::index_map::position_of(before, idx.0);
        assert(before[at].1.kept_for(*function));
        let r = meta.get_offsets(function);
        proof {
            assert(self.function_meta@ == before.update(at, (idx.0, *meta)));
            assert forall|i: int| 0 <= i < self.function_meta@.len() implies {
                let entry = #[trigger] self.function_meta@[i];
                self.pool.spec_function(PoolIndex(entry.0)) is Some && entry.1.kept_for(
                    self.pool.spec_function(PoolIndex(entry.0)).unwrap(),
                )
            } by {
                if i != at {
                    assert(self.function_meta@[i] == before[i]);
                }
            }
            assert(self.natives() =~= old(self).natives());
        }
        r
    }

    /// The table of virtual methods of the class at `idx`; none where
    /// nothing is kept for that position or the class has no table.
    pub fn get_vtable(&mut self, idx: PoolIndex) -> (r: Option<Rc<IndexMap<VMIndex>>>)
        requires
            old(self).wf(),
        ensures
            final(self).wf(),
            final(self).pool == old(self).pool,
            final(self).natives() == old(self).natives(),
            final(self).types == old(self).types,
            final(self).symbols == old(self).symbols,
            final(self).function_meta == old(self).function_meta,
            forall|k: u32| has_key(final(self).class_meta@, k) == has_key(old(self).class_meta@, k),
            r.is_some() == (has_key(old(self).class_meta@, idx.0) && vtable_of(
                old(self).pool,
                idx,
            ) is Some),
            r matches Some(table) ==> (*table).wf() && vtable_of(old(self).pool, idx) == Some(
                (*table)@,
            ),
    {
        let pool = self.pool;
        let ghost before = self.class_meta@;
        proof {
            self.class_meta.lemma_wf();
        }
        let meta = match self.class_meta.get_mut(idx) {
            Some(meta) => meta,
            None => {
                return None;
            },
        };
        let ghost at = crate::index_map::position_of(before, idx.0);
        assert(before[at].1.kept_for(pool, idx));
        let r = meta.get_vtable(idx, pool);
        proof {
            assert(self.class_meta@ == before.update(at, (idx.0, *meta)));
            crate::index_map::lemma_replaced(before, idx.0, *meta);
            assert forall|i: int| 0 <= i < self.class_meta@.len() implies {
                let entry = #[trigger] self.class_meta@[i];
                has_vtable(self.pool, PoolIndex(entry.0)) && entry.1.kept_for(
                    self.pool,
                    PoolIndex(entry.0),
                )
            } by {
                if i != at {
                    assert(self.class_meta@[i] == before[i]);
                }
            }
        }
        r
    }

    /// The host functions that are registered, each with the position of the
    /// function that it stands for.
    pub open spec fn natives(&self) -> Seq<(u32, Option<VMFunction>)> {
        self.function_meta@.map_values(|entry: (u32, FunctionMetadata)| (entry.0, entry.1.native))
    }

    /// The host function registered for the function at `idx`.
    pub open spec fn native_of(&self, idx: PoolIndex) -> Option<VMFunction> {
        match lookup(self.function_meta@, idx.0) {
            Some(meta) => meta.native,
            None => None,
        }
    }

    /// Registers `function` for the root function of the name `name`, and
    /// tells whether there is such a function with something kept for it.
    pub fn set_native_function(&mut self, name: &str, function: VMFunction) -> (r: Option<()>)
        requires
            old(self).wf(),
            function.callable(),
        ensures
            final(self).wf(),
            final(self).pool == old(self).pool,
            r.is_some() == (named(old(self).symbols@.functions, name@) matches Some(idx)
                && has_key(old(self).function_meta@, idx.0)),
            r is Some ==> final(self).native_of(
                named(old(self).symbols@.functions, name@).unwrap(),
            ) == Some(function),
            forall|k: u32|
                !(named(old(self).symbols@.functions, name@) matches Some(idx) && idx.0 == k)
                    ==> lookup(final(self).function_meta@, k) == lookup(
                    old(self).function_meta@,
                    k,
                ),
            final(self).symbols == old(self).symbols,
            final(self).types == old(self).types,
            final(self).class_meta == old(self).class_meta,
            forall|k: u32|
                has_key(final(self).function_meta@, k) == has_key(old(self).function_meta@, k),
            forall|k: u32| #[trigger]
                old(self).native_of(PoolIndex(k)) is Some ==> final(self).native_of(PoolIndex(k))
                    is Some,
    {
        let idx = match self.get_function(name) {
            Some(idx) => idx,
            None => {
                return None;
            },
        };
        let ghost before = self.function_meta@;
        proof {
            self.function_meta.lemma_wf();
        }
        let meta = match self.function_meta.get_mut(idx) {
            Some(meta) => meta,
            None => {
                return None;
            },
        };
        let ghost at = crate::index_map::position_of(before, idx.0);
        assert(before[at].1.kept_for(self.pool.spec_function(idx).unwrap()));
        meta.native = Some(function);
        proof {
            assert(self.function_meta@ == before.update(at, (idx.0, *meta)));
            crate::index_map::lemma_replaced(before, idx.0, *meta);
            assert forall|k: u32| #[trigger]
                old(self).native_of(PoolIndex(k)) is Some implies self.native_of(PoolIndex(k))
                is Some by {
                if k != idx.0 {
                    assert(lookup(self.function_meta@, k) == lookup(before, k));
                }
            }
            assert forall|i: int| 0 <= i < self.function_meta@.len() implies {
                let entry = #[trigger] self.function_meta@[i];
                self.pool.spec_function(PoolIndex(entry.0)) is Some && entry.1.kept_for(
                    self.pool.spec_function(PoolIndex(entry.0)).unwrap(),
                )
            } by {
                if i != at {
                    assert(self.function_meta@[i] == before[i]);
                }
            }
        }
        Some(())
    }

    /// Registers the host function `function` for the root function of the
    /// name `name`, in the form in which the machine calls it, and tells
    /// whether there is such a function with something kept for it.
    pub fn register_native<F: IntoVMFunction<A, R>, A, R>(&mut self, name: &str, function: F) -> (r:
        Option<()>)
        requires
            old(self).wf(),
            function.total(),
        ensures
            final(self).wf(),
            final(self).pool == old(self).pool,
            r.is_some() == (named(old(self).symbols@.functions, name@) matches Some(idx)
                && has_key(old(self).function_meta@, idx.0)),
            r is Some ==> (final(self).native_of(
                named(old(self).symbols@.functions, name@).unwrap(),
            ) matches Some(registered) && registered.callable() && registered.arity()
                == function.operands() && forall|s: State, pool: &Pool| #[trigger]
                registered.effect(s, pool) == function.promised(s, pool)),
            forall|k: u32|
                !(named(old(self).symbols@.functions, name@) matches Some(idx) && idx.0 == k)
                    ==> lookup(final(self).function_meta@, k) == lookup(
                    old(self).function_meta@,
                    k,
                ),
            final(self).symbols == old(self).symbols,
            final(self).types == old(self).types,
            final(self).class_meta == old(self).class_meta,
            forall|k: u32|
                has_key(final(self).function_meta@, k) == has_key(old(self).function_meta@, k),
            forall|k: u32| #[trigger]
                old(self).native_of(PoolIndex(k)) is Some ==> final(self).native_of(PoolIndex(k))
                    is Some,
    {
        self.set_native_function(name, function.into_vm_function())
    }
}

} // verus!
