//! The constant pool: the read-only set of definitions and string tables
//! that a program consists of.
use vstd::prelude::*;

verus! {

/// Position of an entry in one of the pool's tables. Position zero of the
/// definition table is reserved and stands for "no definition".
#[derive(Clone, Copy, Debug, PartialEq, Eq, Structural)]
pub struct PoolIndex(pub u32);

impl PoolIndex {
    pub open spec fn spec_is_undefined(self) -> bool {
        self.0 == 0
    }

    pub fn new(value: u32) -> (r: PoolIndex)
        ensures
            r.0 == value,
    {
        PoolIndex(value)
    }

    pub fn undefined() -> (r: PoolIndex)
        ensures
            r.0 == 0,
            r.spec_is_undefined(),
    {
        PoolIndex(0)
    }

    #[verifier::when_used_as_spec(spec_is_undefined)]
    pub fn is_undefined(self) -> (r: bool)
        ensures
            r == self.spec_is_undefined(),
    {
        self.0 == 0
    }
}

/// A byte position inside the packed code of one function.
#[derive(Clone, Copy, Debug, PartialEq, Eq, Structural)]
pub struct Location {
    pub value: u16,
}

impl Location {
    pub fn new(value: u16) -> (r: Location)
        ensures
            r.value == value,
    {
        Location { value }
    }
}

/// A signed distance in bytes, counted from the start of the instruction
/// that carries it.
#[derive(Clone, Copy, Debug, PartialEq, Eq, Structural)]
pub struct Offset {
    pub value: i16,
}

impl Offset {
    /// The position `self.value` bytes away from `position`, if there is one
    /// in the 16-bit range of code positions.
    pub open spec fn spec_absolute(self, position: Location) -> Option<Location> {
        let target = position.value as int + self.value as int;
        if 0 <= target <= u16::MAX as int {
            Some(Location { value: target as u16 })
        } else {
            None
        }
    }

    pub fn new(value: i16) -> (r: Offset)
        ensures
            r.value == value,
    {
        Offset { value }
    }

    pub fn absolute(self, position: Location) -> (r: Option<Location>)
        ensures
            r == self.spec_absolute(position),
    {
        let target: i32 = position.value as i32 + self.value as i32;
        if 0 <= target && target <= 0xffff {
            Some(Location { value: target as u16 })
        } else {
            None
        }
    }
}

/// One instruction. Operands that are themselves expressions are not part of
/// the instruction: they follow it in the code.
#[derive(Clone, Copy, Debug, PartialEq, Eq, Structural)]
pub enum Instr {
    Nop,
    Null,
    I32One,
    I32Zero,
    I8Const(i8),
    I16Const(i16),
    I32Const(i32),
    I64Const(i64),
    U8Const(u8),
    U16Const(u16),
    U32Const(u32),
    U64Const(u64),
    /// The bits of a 32-bit IEEE 754 number.
    F32Const(u32),
    /// The bits of a 64-bit IEEE 754 number.
    F64Const(u64),
    NameConst(PoolIndex),
    EnumConst(PoolIndex, PoolIndex),
    StringConst(PoolIndex),
    TweakDbIdConst(PoolIndex),
    ResourceConst(PoolIndex),
    TrueConst,
    FalseConst,
    Breakpoint,
    Assign,
    Target,
    Local(PoolIndex),
    Param(PoolIndex),
    ObjectField(PoolIndex),
    StructField(PoolIndex),
    ExternalVar,
    Switch(PoolIndex, Offset),
    SwitchLabel(Offset, Offset),
    SwitchDefault,
    Jump(Offset),
    JumpIfFalse(Offset),
    Skip(Offset),
    Conditional(Offset, Offset),
    Construct(u8, PoolIndex),
    InvokeStatic(Offset, u16, PoolIndex, u16),
    InvokeVirtual(Offset, u16, PoolIndex, u16),
    ParamEnd,
    Return,
    Context(Offset),
    Equals(PoolIndex),
    RefStringEqualsString(PoolIndex),
    StringEqualsRefString(PoolIndex),
    NotEquals(PoolIndex),
    RefStringNotEqualsString(PoolIndex),
    StringNotEqualsRefString(PoolIndex),
    New(PoolIndex),
    Delete,
    This,
    StartProfiling,
    ArrayClear(PoolIndex),
    ArraySize(PoolIndex),
    ArrayResize(PoolIndex),
    ArrayFindFirst(PoolIndex),
    ArrayFindFirstFast(PoolIndex),
    ArrayFindLast(PoolIndex),
    ArrayFindLastFast(PoolIndex),
    ArrayContains(PoolIndex),
    ArrayContainsFast(PoolIndex),
    ArrayCount(PoolIndex),
    ArrayCountFast(PoolIndex),
    ArrayPush(PoolIndex),
    ArrayPop(PoolIndex),
    ArrayInsert(PoolIndex),
    ArrayRemove(PoolIndex),
    ArrayRemoveFast(PoolIndex),
    ArrayGrow(PoolIndex),
    ArrayErase(PoolIndex),
    ArrayEraseFast(PoolIndex),
    ArrayLast(PoolIndex),
    ArrayElement(PoolIndex),
    ArraySort(PoolIndex),
    ArraySortByPredicate(PoolIndex),
    StaticArraySize(PoolIndex),
    StaticArrayFindFirst(PoolIndex),
    StaticArrayFindFirstFast(PoolIndex),
    StaticArrayFindLast(PoolIndex),
    StaticArrayFindLastFast(PoolIndex),
    StaticArrayContains(PoolIndex),
    StaticArrayContainsFast(PoolIndex),
    StaticArrayCount(PoolIndex),
    StaticArrayCountFast(PoolIndex),
    StaticArrayLast(PoolIndex),
    StaticArrayElement(PoolIndex),
    RefToBool,
    WeakRefToBool,
    EnumToI32(PoolIndex, u8),
    I32ToEnum(PoolIndex, u8),
    DynamicCast(PoolIndex, u8),
    ToString(PoolIndex),
    ToVariant(PoolIndex),
    FromVariant(PoolIndex),
    VariantIsDefined,
    VariantIsRef,
    VariantIsArray,
    VariantTypeName,
    VariantToString,
    WeakRefToRef,
    RefToWeakRef,
    WeakRefNull,
    AsRef(PoolIndex),
    Deref(PoolIndex),
}

/// The shape of a type definition. The indexes point at other type
/// definitions.
#[derive(Clone, Copy, Debug, PartialEq, Eq, Structural)]
pub enum Type {
    Prim,
    Class,
    Ref(PoolIndex),
    WeakRef(PoolIndex),
    Array(PoolIndex),
    StaticArray(PoolIndex, u32),
    ScriptRef(PoolIndex),
}

#[derive(Clone, Copy, Debug, PartialEq, Eq, Structural)]
pub struct ClassFlags {
    pub is_struct: bool,
}

impl ClassFlags {
    pub fn is_struct(&self) -> (r: bool)
        ensures
            r == self.is_struct,
    {
        self.is_struct
    }
}

#[derive(Clone, Copy, Debug, PartialEq, Eq, Structural)]
pub struct FunctionFlags {
    pub is_native: bool,
    pub is_final: bool,
    pub is_static: bool,
}

impl FunctionFlags {
    pub fn is_native(&self) -> (r: bool)
        ensures
            r == self.is_native,
    {
        self.is_native
    }

    pub fn is_final(&self) -> (r: bool)
        ensures
            r == self.is_final,
    {
        self.is_final
    }

    pub fn is_static(&self) -> (r: bool)
        ensures
            r == self.is_static,
    {
        self.is_static
    }
}

#[derive(Clone, Copy, Debug, PartialEq, Eq, Structural)]
pub struct ParameterFlags {
    pub is_out: bool,
}

impl ParameterFlags {
    pub fn is_out(&self) -> (r: bool)
        ensures
            r == self.is_out,
    {
        self.is_out
    }
}

#[derive(Clone, Copy, Debug, PartialEq, Eq, Structural)]
pub enum Visibility {
    Public,
    Protected,
    Private,
}

#[derive(Clone, Debug)]
pub struct Class {
    pub base: PoolIndex,
    pub fields: Vec<PoolIndex>,
    pub functions: Vec<PoolIndex>,
    pub flags: ClassFlags,
}

#[derive(Clone, Debug)]
pub struct Function {
    pub visibility: Visibility,
    pub parameters: Vec<PoolIndex>,
    pub locals: Vec<PoolIndex>,
    /// The instructions in order, each with the byte position at which it
    /// starts in the packed code.
    pub code: Vec<(u16, Instr)>,
    pub flags: FunctionFlags,
}

#[derive(Clone, Copy, Debug, PartialEq, Eq, Structural)]
pub struct Parameter {
    pub type_: PoolIndex,
    pub flags: ParameterFlags,
}

#[derive(Clone, Copy, Debug, PartialEq, Eq, Structural)]
pub struct Local {
    pub type_: PoolIndex,
}

#[derive(Clone, Copy, Debug, PartialEq, Eq, Structural)]
pub struct Field {
    pub type_: PoolIndex,
}

#[derive(Clone, Debug)]
pub struct Enum {
    pub members: Vec<PoolIndex>,
}

#[derive(Clone, Debug)]
pub enum AnyDefinition {
    Type(Type),
    Class(Class),
    EnumValue(i64),
    Enum(Enum),
    Function(Function),
    Parameter(Parameter),
    Local(Local),
    Field(Field),
    SourceFile,
}

#[derive(Clone, Debug)]
pub struct Definition {
    /// Position of the definition's name in the name table.
    pub name: PoolIndex,
    /// The definition this one belongs to; undefined for a root.
    pub parent: PoolIndex,
    pub value: AnyDefinition,
}

/// The definitions and string tables of one program.
#[derive(Clone, Debug)]
pub struct Pool {
    pub names: Vec<String>,
    pub strings: Vec<String>,
    pub tweakdb_ids: Vec<String>,
    pub resources: Vec<String>,
    pub definitions: Vec<Definition>,
}

/// The first position of `table` at or after `start` that holds `text`.
pub open spec fn first_position_from(table: Seq<String>, text: Seq<char>, start: int) -> Option<int>
    decreases table.len() - start,
{
    if start < 0 || start >= table.len() {
        None
    } else if table[start]@ == text {
        Some(start)
    } else {
        first_position_from(table, text, start + 1)
    }
}

/// The first position of `table` that holds `text`, if any.
pub open spec fn first_position(table: Seq<String>, text: Seq<char>) -> Option<int> {
    first_position_from(table, text, 0)
}

/// What `first_position_from` finds is a match with no match between
/// `start` and it; it finds nothing only where there is no match.
pub proof fn lemma_first_position_from(table: Seq<String>, text: Seq<char>, start: int)
    requires
        0 <= start,
    ensures
        match first_position_from(table, text, start) {
            Some(i) => start <= i < table.len() && table[i]@ == text && forall|j: int|
                start <= j < i ==> table[j]@ != text,
            None => forall|j: int| start <= j < table.len() ==> table[j]@ != text,
        },
    decreases table.len() - start,
{
    if start < table.len() && table[start]@ != text {
        lemma_first_position_from(table, text, start + 1);
    }
}

fn find_text(table: &Vec<String>, text: &str) -> (r: Option<usize>)
    ensures
        match r {
            Some(i) => first_position(table@, text@) == Some(i as int),
            None => first_position(table@, text@) is None,
        },
{
    let wanted = text.to_owned();
    let mut i: usize = 0;
    while i < table.len()
        invariant
            i <= table.len(),
            wanted@ == text@,
            first_position(table@, text@) == first_position_from(table@, text@, i as int),
        decreases table.len() - i,
    {
        if table[i] == wanted {
            return Some(i);
        }
        i += 1;
    }
    None
}

impl Pool {
    /// The definition at `idx`; none at the reserved position zero or past
    /// the end of the table.
    pub open spec fn spec_definition(&self, idx: PoolIndex) -> Option<Definition> {
        if 0 < idx.0 < self.definitions.len() {
            Some(self.definitions[idx.0 as int])
        } else {
            None
        }
    }

    pub open spec fn spec_name(&self, idx: PoolIndex) -> Option<Seq<char>> {
        if idx.0 < self.names.len() {
            Some(self.names[idx.0 as int]@)
        } else {
            None
        }
    }

    pub open spec fn spec_string(&self, idx: PoolIndex) -> Option<Seq<char>> {
        if idx.0 < self.strings.len() {
            Some(self.strings[idx.0 as int]@)
        } else {
            None
        }
    }

    pub open spec fn spec_tweakdb_id(&self, idx: PoolIndex) -> Option<Seq<char>> {
        if idx.0 < self.tweakdb_ids.len() {
            Some(self.tweakdb_ids[idx.0 as int]@)
        } else {
            None
        }
    }

    pub open spec fn spec_resource(&self, idx: PoolIndex) -> Option<Seq<char>> {
        if idx.0 < self.resources.len() {
            Some(self.resources[idx.0 as int]@)
        } else {
            None
        }
    }

    /// The name of the definition at `idx`.
    pub open spec fn spec_def_name(&self, idx: PoolIndex) -> Option<Seq<char>> {
        match self.spec_definition(idx) {
            Some(def) => self.spec_name(def.name),
            None => None,
        }
    }

    pub open spec fn spec_class(&self, idx: PoolIndex) -> Option<Class> {
        match self.spec_definition(idx) {
            Some(Definition { value: AnyDefinition::Class(class), .. }) => Some(class),
            _ => None,
        }
    }

    pub open spec fn spec_function(&self, idx: PoolIndex) -> Option<Function> {
        match self.spec_definition(idx) {
            Some(Definition { value: AnyDefinition::Function(function), .. }) => Some(function),
            _ => None,
        }
    }

    pub open spec fn spec_field(&self, idx: PoolIndex) -> Option<Field> {
        match self.spec_definition(idx) {
            Some(Definition { value: AnyDefinition::Field(field), .. }) => Some(field),
            _ => None,
        }
    }

    pub open spec fn spec_local(&self, idx: PoolIndex) -> Option<Local> {
        match self.spec_definition(idx) {
            Some(Definition { value: AnyDefinition::Local(local), .. }) => Some(local),
            _ => None,
        }
    }

    pub open spec fn spec_parameter(&self, idx: PoolIndex) -> Option<Parameter> {
        match self.spec_definition(idx) {
            Some(Definition { value: AnyDefinition::Parameter(parameter), .. }) => Some(parameter),
            _ => None,
        }
    }

    pub open spec fn spec_type(&self, idx: PoolIndex) -> Option<Type> {
        match self.spec_definition(idx) {
            Some(Definition { value: AnyDefinition::Type(typ), .. }) => Some(typ),
            _ => None,
        }
    }

    pub open spec fn spec_enum_value(&self, idx: PoolIndex) -> Option<i64> {
        match self.spec_definition(idx) {
            Some(Definition { value: AnyDefinition::EnumValue(value), .. }) => Some(value),
            _ => None,
        }
    }

    /// Whether the definition at `idx` exists and belongs to no other.
    pub open spec fn spec_is_root(&self, idx: PoolIndex) -> bool {
        match self.spec_definition(idx) {
            Some(def) => def.parent.0 == 0,
            None => false,
        }
    }

    /// A pool with empty tables.
    pub fn new() -> (r: Pool)
        ensures
            r.names@.len() == 0,
            r.strings@.len() == 0,
            r.tweakdb_ids@.len() == 0,
            r.resources@.len() == 0,
            r.definitions@.len() == 0,
    {
        Pool {
            names: Vec::new(),
            strings: Vec::new(),
            tweakdb_ids: Vec::new(),
            resources: Vec::new(),
            definitions: Vec::new(),
        }
    }

    pub fn definition(&self, idx: PoolIndex) -> (r: Option<&Definition>)
        ensures
            r.is_some() == self.spec_definition(idx).is_some(),
            r matches Some(def) ==> *def == self.spec_definition(idx).unwrap(),
    {
        if 0 < idx.0 && (idx.0 as usize) < self.definitions.len() {
            Some(&self.definitions[idx.0 as usize])
        } else {
            None
        }
    }

    /// The number of positions in the definition table, the reserved one
    /// included.
    pub fn definition_count(&self) -> (r: usize)
        ensures
            r == self.definitions.len(),
    {
        self.definitions.len()
    }

    pub fn name(&self, idx: PoolIndex) -> (r: Option<&String>)
        ensures
            r.is_some() == self.spec_name(idx).is_some(),
            r matches Some(text) ==> text@ == self.spec_name(idx).unwrap(),
    {
        if (idx.0 as usize) < self.names.len() {
            Some(&self.names[idx.0 as usize])
        } else {
            None
        }
    }

    pub fn string(&self, idx: PoolIndex) -> (r: Option<&String>)
        ensures
            r.is_some() == self.spec_string(idx).is_some(),
            r matches Some(text) ==> text@ == self.spec_string(idx).unwrap(),
    {
        if (idx.0 as usize) < self.strings.len() {
            Some(&self.strings[idx.0 as usize])
        } else {
            None
        }
    }

    pub fn tweakdb_id(&self, idx: PoolIndex) -> (r: Option<&String>)
        ensures
            r.is_some() == self.spec_tweakdb_id(idx).is_some(),
            r matches Some(text) ==> text@ == self.spec_tweakdb_id(idx).unwrap(),
    {
        if (idx.0 as usize) < self.tweakdb_ids.len() {
            Some(&self.tweakdb_ids[idx.0 as usize])
        } else {
            None
        }
    }

    pub fn resource(&self, idx: PoolIndex) -> (r: Option<&String>)
        ensures
            r.is_some() == self.spec_resource(idx).is_some(),
            r matches Some(text) ==> text@ == self.spec_resource(idx).unwrap(),
    {
        if (idx.0 as usize) < self.resources.len() {
            Some(&self.resources[idx.0 as usize])
        } else {
            None
        }
    }

    pub fn def_name(&self, idx: PoolIndex) -> (r: Option<&String>)
        ensures
            r.is_some() == self.spec_def_name(idx).is_some(),
            r matches Some(text) ==> text@ == self.spec_def_name(idx).unwrap(),
    {
        match self.definition(idx) {
            Some(def) => self.name(def.name),
            None => None,
        }
    }

    pub fn class(&self, idx: PoolIndex) -> (r: Option<&Class>)
        ensures
            r.is_some() == self.spec_class(idx).is_some(),
            r matches Some(class) ==> *class == self.spec_class(idx).unwrap(),
    {
        match self.definition(idx) {
            Some(Definition { value: AnyDefinition::Class(class), .. }) => Some(class),
            _ => None,
        }
    }

    pub fn function(&self, idx: PoolIndex) -> (r: Option<&Function>)
        ensures
            r.is_some() == self.spec_function(idx).is_some(),
            r matches Some(function) ==> *function == self.spec_function(idx).unwrap(),
    {
        match self.definition(idx) {
            Some(Definition { value: AnyDefinition::Function(function), .. }) => Some(function),
            _ => None,
        }
    }

    pub fn field(&self, idx: PoolIndex) -> (r: Option<Field>)
        ensures
            r == self.spec_field(idx),
    {
        match self.definition(idx) {
            Some(Definition { value: AnyDefinition::Field(field), .. }) => Some(*field),
            _ => None,
        }
    }

    pub fn local(&self, idx: PoolIndex) -> (r: Option<Local>)
        ensures
            r == self.spec_local(idx),
    {
        match self.definition(idx) {
            Some(Definition { value: AnyDefinition::Local(local), .. }) => Some(*local),
            _ => None,
        }
    }

    pub fn parameter(&self, idx: PoolIndex) -> (r: Option<Parameter>)
        ensures
            r == self.spec_parameter(idx),
    {
        match self.definition(idx) {
            Some(Definition { value: AnyDefinition::Parameter(parameter), .. }) => Some(*parameter),
            _ => None,
        }
    }

    pub fn type_(&self, idx: PoolIndex) -> (r: Option<Type>)
        ensures
            r == self.spec_type(idx),
    {
        match self.definition(idx) {
            Some(Definition { value: AnyDefinition::Type(typ), .. }) => Some(*typ),
            _ => None,
        }
    }

    pub fn enum_value(&self, idx: PoolIndex) -> (r: Option<i64>)
        ensures
            r == self.spec_enum_value(idx),
    {
        match self.definition(idx) {
            Some(Definition { value: AnyDefinition::EnumValue(value), .. }) => Some(*value),
            _ => None,
        }
    }

    /// Interns `text` in the name table: the position of its first
    /// occurrence, or of a new last entry. Nothing is added once the table
    /// has an entry at every 32-bit position; the result is then `None`.
    pub fn add_name(&mut self, text: &str) -> (r: Option<PoolIndex>)
        ensures
            final(self).strings == old(self).strings,
            final(self).tweakdb_ids == old(self).tweakdb_ids,
            final(self).resources == old(self).resources,
            final(self).definitions == old(self).definitions,
            match first_position(old(self).names@, text@) {
                Some(i) => final(self).names == old(self).names && (if i <= u32::MAX {
                    r == Some(PoolIndex(i as u32))
                } else {
                    r is None
                }),
                None => if old(self).names.len() <= u32::MAX {
                    &&& r == Some(PoolIndex(old(self).names.len() as u32))
                    &&& final(self).names@.len() == old(self).names@.len() + 1
                    &&& final(self).names@.drop_last() == old(self).names@
                    &&& final(self).names@.last()@ == text@
                } else {
                    r is None && final(self).names == old(self).names
                },
            },
    {
        match find_text(&self.names, text) {
            Some(i) => if i <= u32::MAX as usize {
                Some(PoolIndex(i as u32))
            } else {
                None
            },
            None => {
                let n = self.names.len();
                if n <= u32::MAX as usize {
                    self.names.push(text.to_owned());
                    proof {
                        assert(self.names@.drop_last() =~= old(self).names@);
                    }
                    Some(PoolIndex(n as u32))
                } else {
                    None
                }
            },
        }
    }

    /// Appends a definition and returns its position; `None`, with nothing
    /// added, once every 32-bit position is taken.
    pub fn add_definition(&mut self, def: Definition) -> (r: Option<PoolIndex>)
        ensures
            final(self).names == old(self).names,
            final(self).strings == old(self).strings,
            final(self).tweakdb_ids == old(self).tweakdb_ids,
            final(self).resources == old(self).resources,
            if old(self).definitions.len() <= u32::MAX {
                &&& r == Some(PoolIndex(old(self).definitions.len() as u32))
                &&& final(self).definitions@ == old(self).definitions@.push(def)
            } else {
                r is None && final(self).definitions == old(self).definitions
            },
    {
        let n = self.definitions.len();
        if n <= u32::MAX as usize {
            self.definitions.push(def);
            Some(PoolIndex(n as u32))
        } else {
            None
        }
    }
}

} // verus!
